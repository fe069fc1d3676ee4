//! Domain rule registry for outbound interception and secret injection.
//!
//! Maps target host names (e.g. `*pixabay.com*`, `*api.elevenlabs.io*`) to the
//! secret they need and how it is injected (an HTTP header or a URL query
//! parameter), and infers a rule for hosts that no rule names.

use vstd::prelude::*;
use crate::text::{
    before_first, before_first_chars, chars_eq, chars_eq_ignore_ascii_case, chars_eq_str,
    chars_of, ends_with, eq_ignore_ascii_case, find_from, has_prefix, has_suffix_from,
    lowercase_chars, occurs_at, split_chars, split_on, starts_with, string_from_chars, trim,
    trim_chars, unicode_lowercase, lemma_split_on_append_plain, lemma_split_on_push_sep, lemma_split_on_single, unicode_uppercase, uppercase_chars, views,
};

use crate::paths::{cloak_dir, cloak_dir_of, join, path_join};

verus! {

// ---------------------------------------------------------------------------
// Models
// ---------------------------------------------------------------------------

/// How a secret is attached to an outbound request.
pub ghost enum InjectionModel {
    Header { name: Seq<char>, prefix: Option<Seq<char>> },
    Query { param: Seq<char> },
}

/// A domain rule as plain values.
pub ghost struct RuleModel {
    pub pattern: Seq<char>,
    pub secret: Seq<char>,
    pub inject: InjectionModel,
}

/// The view of an optional string.
pub open spec fn opt_view(o: Option<String>) -> Option<Seq<char>> {
    match o {
        Some(s) => Some(s@),
        None => None,
    }
}

/// How a secret is attached to an outbound request.
#[derive(Clone, Debug, PartialEq, Eq)]
pub enum SecretInjection {
    /// `name: <prefix><secret>`
    Header { name: String, prefix: Option<String> },
    /// `?<param>=<secret>`
    Query { param: String },
}

impl View for SecretInjection {
    type V = InjectionModel;

    open spec fn view(&self) -> InjectionModel {
        match self {
            SecretInjection::Header { name, prefix } => InjectionModel::Header {
                name: name@,
                prefix: opt_view(*prefix),
            },
            SecretInjection::Query { param } => InjectionModel::Query { param: param@ },
        }
    }
}

/// A host pattern, the secret it needs and how the secret is injected.
#[derive(Clone, Debug)]
pub struct DomainRule {
    pub pattern: String,
    pub secret: String,
    pub inject: SecretInjection,
}

impl View for DomainRule {
    type V = RuleModel;

    open spec fn view(&self) -> RuleModel {
        RuleModel { pattern: self.pattern@, secret: self.secret@, inject: self.inject@ }
    }
}

/// The ordered list of domain rules; the first rule that matches wins.
#[derive(Clone, Debug)]
pub struct RuleRegistry {
    pub rules: Vec<DomainRule>,
}

/// Views of a sequence of rules.
pub open spec fn rule_views(rules: Seq<DomainRule>) -> Seq<RuleModel> {
    rules.map_values(|r: DomainRule| r@)
}

impl View for RuleRegistry {
    type V = Seq<RuleModel>;

    open spec fn view(&self) -> Seq<RuleModel> {
        rule_views(self.rules@)
    }
}

/// Views of a sequence of strings.
pub open spec fn string_views(v: Seq<String>) -> Seq<Seq<char>> {
    v.map_values(|s: String| s@)
}

fn copy_opt_string(o: &Option<String>) -> (r: Option<String>)
    ensures
        opt_view(r) == opt_view(*o),
{
    match o {
        Some(s) => Some(s.clone()),
        None => None,
    }
}

impl SecretInjection {
    /// A copy of this injection.
    pub fn duplicate(&self) -> (r: SecretInjection)
        ensures
            r@ == self@,
    {
        match self {
            SecretInjection::Header { name, prefix } => SecretInjection::Header {
                name: name.clone(),
                prefix: copy_opt_string(prefix),
            },
            SecretInjection::Query { param } => SecretInjection::Query { param: param.clone() },
        }
    }
}

impl DomainRule {
    /// A copy of this rule.
    pub fn duplicate(&self) -> (r: DomainRule)
        ensures
            r@ == self@,
    {
        DomainRule {
            pattern: self.pattern.clone(),
            secret: self.secret.clone(),
            inject: self.inject.duplicate(),
        }
    }
}

// ---------------------------------------------------------------------------
// Injection specifiers
// ---------------------------------------------------------------------------

/// `Authorization: Bearer <secret>`, the injection used when nothing else is said.
pub open spec fn bearer_injection() -> InjectionModel {
    InjectionModel::Header { name: "Authorization"@, prefix: Some("Bearer "@) }
}

/// The injection an specifier such as `header:Authorization:Bearer`,
/// `header:xi-api-key` or `query:key` denotes. A three-part header
/// specifier takes its third part, followed by a space, as the prefix;
/// anything else denotes `Authorization: Bearer`.
pub open spec fn parse_injection(s: Seq<char>) -> InjectionModel {
    let parts = split_on(s, ':');
    if parts.len() == 2 && parts[0] == "query"@ {
        InjectionModel::Query { param: parts[1] }
    } else if parts.len() == 3 && parts[0] == "header"@ {
        InjectionModel::Header { name: parts[1], prefix: Some(parts[2] + " "@) }
    } else if parts.len() == 2 && parts[0] == "header"@ {
        InjectionModel::Header { name: parts[1], prefix: None }
    } else {
        bearer_injection()
    }
}

/// `Authorization: Bearer <secret>`.
pub fn bearer_header_injection() -> (r: SecretInjection)
    ensures
        r@ == bearer_injection(),
{
    SecretInjection::Header {
        name: String::from_str("Authorization"),
        prefix: Some(String::from_str("Bearer ")),
    }
}

impl SecretInjection {
    /// Parses an injection specifier, e.g.:
    /// - "header:Authorization:Bearer" -> Authorization: Bearer <val>
    /// - "header:xi-api-key" -> xi-api-key: <val>
    /// - "query:key" -> ?key=<val>
    pub fn parse(s: &str) -> (r: Self)
        ensures
            r@ == parse_injection(s@),
    {
        let v = chars_of(s);
        let parts = split_chars(&v, ':');
        proof {
            assert(parts@.len() == split_on(s@, ':').len());
            assert forall|k: int| 0 <= k < parts@.len() implies parts@[k]@ == split_on(
                s@,
                ':',
            )[k] by {
                assert(views(parts@)[k] == parts@[k]@);
            }
        }
        if parts.len() == 2 && chars_eq_str(&parts[0], "query") {
            SecretInjection::Query { param: string_from_chars(&parts[1]) }
        } else if parts.len() == 3 && chars_eq_str(&parts[0], "header") {
            let prefix = string_from_chars(&parts[2]).concat(" ");
            SecretInjection::Header { name: string_from_chars(&parts[1]), prefix: Some(prefix) }
        } else if parts.len() == 2 && chars_eq_str(&parts[0], "header") {
            SecretInjection::Header { name: string_from_chars(&parts[1]), prefix: None }
        } else {
            bearer_header_injection()
        }
    }
}

// ---------------------------------------------------------------------------
// Wildcard patterns
// ---------------------------------------------------------------------------

/// `r` holds the pieces `ms` in order, with anything between them, and
/// then ends with `last`.
pub open spec fn pieces_then_suffix(ms: Seq<Seq<char>>, last: Seq<char>, r: Seq<char>) -> bool
    decreases ms.len(),
{
    if ms.len() == 0 {
        ends_with(r, last)
    } else {
        exists|i: int|
            #[trigger] occurs_at(r, ms[0], i) && pieces_then_suffix(
                ms.drop_first(),
                last,
                r.skip(i + ms[0].len()),
            )
    }
}

/// Whether `text` matches `pattern`, where each `*` stands for any run of
/// characters: with the pieces `p0 * p1 * ... * pn` of the pattern, the text
/// is `p0 g1 p1 g2 ... gn pn` for some runs `g1 .. gn`. A pattern without
/// `*` matches only itself.
pub open spec fn wildcard_matches(pattern: Seq<char>, text: Seq<char>) -> bool {
    let parts = split_on(pattern, '*');
    if parts.len() == 1 {
        pattern == text
    } else {
        starts_with(text, parts[0]) && pieces_then_suffix(
            parts.subrange(1, parts.len() - 1),
            parts.last(),
            text.skip(parts[0].len() as int),
        )
    }
}

proof fn lemma_occurs_in_suffix(t: Seq<char>, m: Seq<char>, pos: int, k: int)
    requires
        0 <= pos <= t.len(),
        0 <= k,
    ensures
        occurs_at(t.skip(pos), m, k) <==> occurs_at(t, m, k + pos),
{
    if k + m.len() <= t.len() - pos {
        assert(t.skip(pos).subrange(k, k + m.len()) =~= t.subrange(k + pos, k + pos + m.len()));
    }
}

proof fn lemma_pieces_unfold(ms: Seq<Seq<char>>, last: Seq<char>, r: Seq<char>)
    requires
        ms.len() > 0,
    ensures
        pieces_then_suffix(ms, last, r) ==> exists|i: int|
            #[trigger] occurs_at(r, ms[0], i) && pieces_then_suffix(
                ms.drop_first(),
                last,
                r.skip(i + ms[0].len()),
            ),
        forall|i: int|
            #[trigger] occurs_at(r, ms[0], i) && pieces_then_suffix(
                ms.drop_first(),
                last,
                r.skip(i + ms[0].len()),
            ) ==> pieces_then_suffix(ms, last, r),
{
    if pieces_then_suffix(ms, last, r) {
        assert(exists|i: int|
            #[trigger] occurs_at(r, ms[0], i) && pieces_then_suffix(
                ms.drop_first(),
                last,
                r.skip(i + ms[0].len()),
            ));
    }
    assert forall|i: int|
        #[trigger] occurs_at(r, ms[0], i) && pieces_then_suffix(
            ms.drop_first(),
            last,
            r.skip(i + ms[0].len()),
        ) implies pieces_then_suffix(ms, last, r) by {
    }
}

/// Finding the pieces later in the text is never easier than finding them earlier.
proof fn lemma_pieces_monotone(ms: Seq<Seq<char>>, last: Seq<char>, r: Seq<char>, j: int)
    requires
        0 <= j <= r.len(),
        pieces_then_suffix(ms, last, r.skip(j)),
    ensures
        pieces_then_suffix(ms, last, r),
{
    let rj = r.skip(j);
    if ms.len() == 0 {
        assert(rj.skip(rj.len() - last.len()) =~= r.skip(r.len() - last.len()));
    } else {
        lemma_pieces_unfold(ms, last, rj);
        lemma_pieces_unfold(ms, last, r);
        let i = choose|i: int|
            #[trigger] occurs_at(rj, ms[0], i) && pieces_then_suffix(
                ms.drop_first(),
                last,
                rj.skip(i + ms[0].len()),
            );
        lemma_occurs_in_suffix(r, ms[0], j, i);
        assert(rj.skip(i + ms[0].len()) =~= r.skip((i + j) + ms[0].len()));
        assert(occurs_at(r, ms[0], i + j) && pieces_then_suffix(
            ms.drop_first(),
            last,
            r.skip((i + j) + ms[0].len()),
        ));
    }
}

/// An empty piece can be found right away.
proof fn lemma_pieces_empty_head(ms: Seq<Seq<char>>, last: Seq<char>, r: Seq<char>)
    requires
        ms.len() > 0,
        ms[0].len() == 0,
    ensures
        pieces_then_suffix(ms, last, r) == pieces_then_suffix(ms.drop_first(), last, r),
{
    lemma_pieces_unfold(ms, last, r);
    assert(r.skip(0) =~= r);
    assert(r.subrange(0, 0) =~= ms[0]);
    if pieces_then_suffix(ms, last, r) {
        let i = choose|i: int|
            #[trigger] occurs_at(r, ms[0], i) && pieces_then_suffix(
                ms.drop_first(),
                last,
                r.skip(i + ms[0].len()),
            );
        lemma_pieces_monotone(ms.drop_first(), last, r, i);
    }
    if pieces_then_suffix(ms.drop_first(), last, r) {
        assert(occurs_at(r, ms[0], 0) && pieces_then_suffix(
            ms.drop_first(),
            last,
            r.skip(0int + ms[0].len()),
        ));
    }
}

/// Taking the leftmost occurrence of the next piece loses no match.
proof fn lemma_pieces_leftmost(ms: Seq<Seq<char>>, last: Seq<char>, r: Seq<char>, idx: int)
    requires
        ms.len() > 0,
        occurs_at(r, ms[0], idx),
        forall|j: int| 0 <= j < idx ==> !occurs_at(r, ms[0], j),
    ensures
        pieces_then_suffix(ms, last, r) == pieces_then_suffix(
            ms.drop_first(),
            last,
            r.skip(idx + ms[0].len()),
        ),
{
    let rest = r.skip(idx + ms[0].len());
    lemma_pieces_unfold(ms, last, r);
    if pieces_then_suffix(ms, last, r) {
        let i = choose|i: int|
            #[trigger] occurs_at(r, ms[0], i) && pieces_then_suffix(
                ms.drop_first(),
                last,
                r.skip(i + ms[0].len()),
            );
        assert(i >= idx);
        assert(rest.skip(i - idx) =~= r.skip(i + ms[0].len()));
        lemma_pieces_monotone(ms.drop_first(), last, rest, i - idx);
    }
}

/// A piece that does not occur cannot be found.
proof fn lemma_pieces_absent(ms: Seq<Seq<char>>, last: Seq<char>, r: Seq<char>)
    requires
        ms.len() > 0,
        forall|j: int| 0 <= j ==> !occurs_at(r, ms[0], j),
    ensures
        !pieces_then_suffix(ms, last, r),
{
    lemma_pieces_unfold(ms, last, r);
}

/// A pattern made of a piece between two stars, `*piece*`, matches exactly
/// the texts in which the piece occurs.
pub proof fn law_starred_piece_is_containment(piece: Seq<char>, text: Seq<char>)
    requires
        !piece.contains('*'),
    ensures
        wildcard_matches(seq!['*'] + piece + seq!['*'], text) <==> exists|i: int|
            occurs_at(text, piece, i),
{
    let star = seq!['*'];
    let e = Seq::<char>::empty();
    lemma_split_on_push_sep(e, '*');
    assert(e.push('*') =~= star);
    assert(split_on(e, '*') =~= seq![e]);
    lemma_split_on_append_plain(star, piece, '*');
    let sp = split_on(star + piece, '*');
    assert(sp =~= seq![e, piece]) by {
        assert(e + piece =~= piece);
    }
    lemma_split_on_push_sep(star + piece, '*');
    assert((star + piece).push('*') =~= star + piece + star);
    let parts = split_on(star + piece + star, '*');
    assert(parts =~= seq![e, piece, e]);
    let ms = parts.subrange(1, parts.len() - 1);
    assert(ms =~= seq![piece]);
    assert(text.skip(0) =~= text);
    assert(starts_with(text, e)) by {
        assert(text.take(0) =~= e);
    }
    lemma_pieces_unfold(ms, e, text);
    assert(ms.drop_first() =~= Seq::<Seq<char>>::empty());
    if exists|i: int| occurs_at(text, piece, i) {
        let i = choose|i: int| occurs_at(text, piece, i);
        let rest = text.skip(i + piece.len());
        assert(rest.skip(rest.len() - e.len()) =~= e);
        assert(pieces_then_suffix(ms.drop_first(), e, rest));
        assert(occurs_at(text, ms[0], i));
    }
}

/// Whether `text` matches the glob `pattern`, where `*` stands for any run
/// of characters (case-sensitive).
pub fn wildcard_match(pattern: &str, text: &str) -> (r: bool)
    ensures
        r == wildcard_matches(pattern@, text@),
{
    let p = chars_of(pattern);
    let t = chars_of(text);
    wildcard_match_chars(&p, &t)
}

/// Whether `text` matches the wildcard `pattern` (`*` stands for any run).
fn wildcard_match_chars(pattern: &[char], text: &[char]) -> (r: bool)
    ensures
        r == wildcard_matches(pattern@, text@),
{
    let parts = split_chars(pattern, '*');
    let n = parts.len();
    let ghost ps = split_on(pattern@, '*');
    proof {
        assert forall|k: int| 0 <= k < n implies #[trigger] parts@[k]@ == ps[k] by {
            assert(views(parts@)[k] == parts@[k]@);
        }
    }
    if n == 1 {
        return chars_eq(pattern, text);
    }
    let ghost goal = wildcard_matches(pattern@, text@);
    let ghost last = ps.last();
    // The first piece is anchored at the start of the text.
    let first = &parts[0];
    if !has_prefix(text, first) {
        return false;
    }
    let mut pos: usize = first.len();
    assert(goal == pieces_then_suffix(ps.subrange(1, n - 1), last, text@.skip(pos as int)));
    // The middle pieces are found left to right, each at its leftmost occurrence.
    let mut i: usize = 1;
    while i + 1 < n
        invariant
            2 <= n == parts@.len() == ps.len(),
            1 <= i <= n - 1,
            pos <= text@.len(),
            last == ps[n - 1],
            ps == split_on(pattern@, '*'),
            goal == wildcard_matches(pattern@, text@),
            text@.len() == text.len(),
            forall|k: int| 0 <= k < n ==> #[trigger] parts@[k]@ == ps[k],
            goal == pieces_then_suffix(ps.subrange(i as int, n - 1), last, text@.skip(pos as int)),
        decreases n - i,
    {
        let part = &parts[i];
        let ghost ms = ps.subrange(i as int, n - 1);
        let ghost r = text@.skip(pos as int);
        assert(ms[0] == part@);
        assert(ms.drop_first() =~= ps.subrange(i + 1, n - 1));
        if part.len() == 0 {
            proof {
                lemma_pieces_empty_head(ms, last, r);
            }
        } else {
            match find_from(text, pos, part) {
                Some(idx) => {
                    proof {
                        lemma_occurs_in_suffix(text@, part@, pos as int, idx - pos);
                        assert forall|j: int| 0 <= j < idx - pos implies !occurs_at(
                            r,
                            ms[0],
                            j,
                        ) by {
                            lemma_occurs_in_suffix(text@, part@, pos as int, j);
                        }
                        lemma_pieces_leftmost(ms, last, r, idx - pos);
                        assert(r.skip(idx - pos + part@.len()) =~= text@.skip(
                            idx + part@.len(),
                        ));
                    }
                    pos = idx + part.len();
                },
                None => {
                    proof {
                        assert forall|j: int| 0 <= j implies !occurs_at(r, ms[0], j) by {
                            lemma_occurs_in_suffix(text@, part@, pos as int, j);
                        }
                        lemma_pieces_absent(ms, last, r);
                    }
                    return false;
                },
            }
        }
        i += 1;
    }
    // The last piece is anchored at the end of the text.
    assert(ps.subrange(i as int, n - 1).len() == 0);
    let tail = &parts[n - 1];
    has_suffix_from(text, pos, tail)
}

// ---------------------------------------------------------------------------
// Rules and hosts
// ---------------------------------------------------------------------------

/// Whether `rule` matches `host`, comparing both in lower case.
pub open spec fn rule_matches(rule: RuleModel, host: Seq<char>) -> bool {
    wildcard_matches(unicode_lowercase(rule.pattern), unicode_lowercase(host))
}

impl DomainRule {
    /// Case-insensitive wildcard pattern matching against target host.
    pub fn matches(&self, host: &str) -> (r: bool)
        ensures
            r == rule_matches(self@, host@),
    {
        let h = chars_of(host);
        let host_lower = lowercase_chars(&h);
        let p = chars_of(self.pattern.as_str());
        let pat_lower = lowercase_chars(&p);
        wildcard_match_chars(&pat_lower, &host_lower)
    }
}

/// The host part of `host`: everything before the first `:`, trimmed.
pub open spec fn clean_host(host: Seq<char>) -> Seq<char> {
    trim(before_first(host, ':'))
}

/// The first rule of `rules` that matches `host`.
pub open spec fn first_matching(rules: Seq<RuleModel>, host: Seq<char>) -> Option<RuleModel>
    decreases rules.len(),
{
    if rules.len() == 0 {
        None
    } else if rule_matches(rules[0], host) {
        Some(rules[0])
    } else {
        first_matching(rules.drop_first(), host)
    }
}

/// The host part of `host` as characters.
pub fn clean_host_chars(host: &str) -> (r: Vec<char>)
    ensures
        r@ == clean_host(host@),
{
    let h = chars_of(host);
    let b = before_first_chars(&h, ':');
    trim_chars(&b)
}

// ---------------------------------------------------------------------------
// Service names and inferred rules
// ---------------------------------------------------------------------------

/// Sub-domain labels that never name a service.
pub open spec fn is_common_prefix(p: Seq<char>) -> bool {
    ||| p == "api"@
    ||| p == "v1"@
    ||| p == "v2"@
    ||| p == "rest"@
    ||| p == "gateway"@
    ||| p == "service"@
    ||| p == "sub"@
    ||| p == "www"@
    ||| p == "app"@
}

/// Top-level labels that never name a service.
pub open spec fn is_common_tld(p: Seq<char>) -> bool {
    ||| p == "com"@
    ||| p == "org"@
    ||| p == "net"@
    ||| p == "io"@
    ||| p == "ai"@
    ||| p == "co"@
    ||| p == "dev"@
    ||| p == "app"@
    ||| p == "sh"@
    ||| p == "me"@
    ||| p == "xyz"@
    ||| p == "uk"@
    ||| p == "us"@
    ||| p == "de"@
    ||| p == "fr"@
    ||| p == "jp"@
    ||| p == "eu"@
    ||| p == "in"@
}

/// A host label that may name the service.
pub open spec fn is_service_label(p: Seq<char>) -> bool {
    p.len() > 0 && !is_common_prefix(p) && !is_common_tld(p)
}

/// The last label of `labels` that may name the service.
pub open spec fn last_service_label(labels: Seq<Seq<char>>) -> Option<Seq<char>>
    decreases labels.len(),
{
    if labels.len() == 0 {
        None
    } else if is_service_label(labels.last()) {
        Some(labels.last())
    } else {
        last_service_label(labels.drop_last())
    }
}

/// The service a host belongs to, in upper case: the last label of the
/// lower-cased host that is neither a common sub-domain prefix nor a common
/// top-level label, or else the first label.
pub open spec fn service_name(host: Seq<char>) -> Seq<char> {
    let labels = split_on(unicode_lowercase(clean_host(host)), '.');
    match last_service_label(labels) {
        Some(p) => unicode_uppercase(p),
        None => unicode_uppercase(labels[0]),
    }
}

fn is_common_prefix_chars(p: &[char]) -> (r: bool)
    ensures
        r == is_common_prefix(p@),
{
    chars_eq_str(p, "api") || chars_eq_str(p, "v1") || chars_eq_str(p, "v2") || chars_eq_str(
        p,
        "rest",
    ) || chars_eq_str(p, "gateway") || chars_eq_str(p, "service") || chars_eq_str(p, "sub")
        || chars_eq_str(p, "www") || chars_eq_str(p, "app")
}

fn is_common_tld_chars(p: &[char]) -> (r: bool)
    ensures
        r == is_common_tld(p@),
{
    chars_eq_str(p, "com") || chars_eq_str(p, "org") || chars_eq_str(p, "net") || chars_eq_str(
        p,
        "io",
    ) || chars_eq_str(p, "ai") || chars_eq_str(p, "co") || chars_eq_str(p, "dev")
        || chars_eq_str(p, "app") || chars_eq_str(p, "sh") || chars_eq_str(p, "me")
        || chars_eq_str(p, "xyz") || chars_eq_str(p, "uk") || chars_eq_str(p, "us")
        || chars_eq_str(p, "de") || chars_eq_str(p, "fr") || chars_eq_str(p, "jp")
        || chars_eq_str(p, "eu") || chars_eq_str(p, "in")
}

/// Extracts the primary service identifier from a hostname, e.g.:
/// - "api.pexels.com" -> "PEXELS"
/// - "api.elevenlabs.io" -> "ELEVENLABS"
/// - "api.tavily.com" -> "TAVILY"
/// - "api.deepseek.com" -> "DEEPSEEK"
pub fn extract_service_name(host: &str) -> (r: String)
    ensures
        r@ == service_name(host@),
{
    let clean = clean_host_chars(host);
    let lower = lowercase_chars(&clean);
    let labels = split_chars(&lower, '.');
    let ghost ls = split_on(unicode_lowercase(clean_host(host@)), '.');
    proof {
        assert forall|k: int| 0 <= k < labels@.len() implies #[trigger] labels@[k]@ == ls[k] by {
            assert(views(labels@)[k] == labels@[k]@);
        }
    }
    let mut found: Option<usize> = None;
    let mut i: usize = 0;
    assert(ls.take(0) =~= Seq::<Seq<char>>::empty());
    while i < labels.len()
        invariant
            i <= labels@.len() == ls.len(),
            forall|k: int| 0 <= k < labels@.len() ==> #[trigger] labels@[k]@ == ls[k],
            match found {
                Some(k) => k < i && last_service_label(ls.take(i as int)) == Some(ls[k as int]),
                None => last_service_label(ls.take(i as int)) is None,
            },
        decreases labels@.len() - i,
    {
        let l = &labels[i];
        assert(ls.take(i + 1).drop_last() =~= ls.take(i as int));
        assert(ls.take(i + 1).last() == ls[i as int]);
        if l.len() > 0 && !is_common_prefix_chars(l) && !is_common_tld_chars(l) {
            found = Some(i);
        }
        i += 1;
    }
    assert(ls.take(ls.len() as int) =~= ls);
    let chosen = match found {
        Some(k) => uppercase_chars(&labels[k]),
        None => uppercase_chars(&labels[0]),
    };
    string_from_chars(&chosen)
}

/// The secret names tried for a service, in order of preference.
pub open spec fn candidate_names(service: Seq<char>) -> Seq<Seq<char>> {
    seq![
        service + "_API_KEY"@,
        service + "_TOKEN"@,
        service + "_KEY"@,
        service + "_SECRET"@,
        service,
    ]
}

/// Returns candidate secret variable names for a service in priority order
pub fn candidate_secret_names(service: &str) -> (r: Vec<String>)
    ensures
        string_views(r@) == candidate_names(service@),
{
    let mut r: Vec<String> = Vec::new();
    r.push(String::from_str(service).concat("_API_KEY"));
    r.push(String::from_str(service).concat("_TOKEN"));
    r.push(String::from_str(service).concat("_KEY"));
    r.push(String::from_str(service).concat("_SECRET"));
    r.push(String::from_str(service));
    assert(string_views(r@) =~= candidate_names(service@));
    r
}

/// The usual injection for a service: Pexels takes the bare key in
/// `Authorization`, every other service a bearer token.
pub open spec fn default_injection(service: Seq<char>) -> InjectionModel {
    if service == "PEXELS"@ {
        InjectionModel::Header { name: "Authorization"@, prefix: None }
    } else {
        bearer_injection()
    }
}

/// Returns the standard secret injection strategy for a given service
pub fn default_injection_for_service(service: &str) -> (r: SecretInjection)
    ensures
        r@ == default_injection(service@),
{
    let s = chars_of(service);
    if chars_eq_str(&s, "PEXELS") {
        // Pexels uses 'Authorization: <API_KEY>' without the Bearer prefix
        SecretInjection::Header { name: String::from_str("Authorization"), prefix: None }
    } else {
        // Standard modern API bearer auth
        bearer_header_injection()
    }
}

/// Whether some available key equals `name` up to ASCII case.
pub open spec fn key_available(keys: Seq<Seq<char>>, name: Seq<char>) -> bool {
    exists|k: int| 0 <= k < keys.len() && eq_ignore_ascii_case(keys[k], name)
}

/// The first of `names` that is available among `keys`.
pub open spec fn first_available(names: Seq<Seq<char>>, keys: Seq<Seq<char>>) -> Option<
    Seq<char>,
>
    decreases names.len(),
{
    if names.len() == 0 {
        None
    } else if key_available(keys, names[0]) {
        Some(names[0])
    } else {
        first_available(names.drop_first(), keys)
    }
}

/// The rule used for `host`: the first explicit rule that matches it; else
/// a rule for the first candidate secret of its service that is available;
/// else, when the client sent credentials, a rule for `<SERVICE>_API_KEY`;
/// else none.
pub open spec fn matched_or_inferred(
    rules: Seq<RuleModel>,
    host: Seq<char>,
    keys: Seq<Seq<char>>,
    has_client_auth: bool,
) -> Option<RuleModel> {
    let clean = clean_host(host);
    match first_matching(rules, clean) {
        Some(r) => Some(r),
        None => {
            let service = service_name(clean);
            match first_available(candidate_names(service), keys) {
                Some(name) => Some(
                    RuleModel { pattern: clean, secret: name, inject: default_injection(service) },
                ),
                None => if has_client_auth {
                    Some(
                        RuleModel {
                            pattern: clean,
                            secret: service + "_API_KEY"@,
                            inject: default_injection(service),
                        },
                    )
                } else {
                    None
                },
            }
        },
    }
}

fn key_available_exec(keys: &[String], name: &String) -> (r: bool)
    ensures
        r == key_available(string_views(keys@), name@),
{
    let n = chars_of(name.as_str());
    let mut k: usize = 0;
    while k < keys.len()
        invariant
            k <= keys@.len(),
            n@ == name@,
            forall|j: int| 0 <= j < k ==> !eq_ignore_ascii_case(string_views(keys@)[j], name@),
        decreases keys@.len() - k,
    {
        let kc = chars_of(keys[k].as_str());
        assert(string_views(keys@)[k as int] == keys@[k as int]@);
        if chars_eq_ignore_ascii_case(&kc, &n) {
            return true;
        }
        k += 1;
    }
    false
}

impl RuleRegistry {
    /// The first rule that matches the host part of `host`.
    pub fn match_host(&self, host: &str) -> (r: Option<&DomainRule>)
        ensures
            match r {
                Some(rule) => first_matching(self@, clean_host(host@)) == Some(rule@),
                None => first_matching(self@, clean_host(host@)) is None,
            },
    {
        let clean_v = clean_host_chars(host);
        let clean = string_from_chars(&clean_v);
        let mut i: usize = 0;
        assert(self@.skip(0) =~= self@);
        while i < self.rules.len()
            invariant
                i <= self.rules@.len(),
                clean@ == clean_host(host@),
                first_matching(self@, clean@) == first_matching(self@.skip(i as int), clean@),
            decreases self.rules@.len() - i,
        {
            let rule = &self.rules[i];
            assert(self@.skip(i as int)[0] == rule@);
            assert(self@.skip(i as int).drop_first() =~= self@.skip(i + 1));
            if rule.matches(clean.as_str()) {
                return Some(rule);
            }
            i += 1;
        }
        None
    }

    /// Matches an explicit rule or automatically infers a dynamic rule from the target host & vault keys.
    pub fn match_or_infer(&self, host: &str, available_keys: &[String], has_client_auth: bool) -> (r:
        Option<DomainRule>)
        ensures
            match r {
                Some(rule) => matched_or_inferred(
                    self@,
                    host@,
                    string_views(available_keys@),
                    has_client_auth,
                ) == Some(rule@),
                None => matched_or_inferred(
                    self@,
                    host@,
                    string_views(available_keys@),
                    has_client_auth,
                ) is None,
            },
    {
        let clean_v = clean_host_chars(host);
        let clean = string_from_chars(&clean_v);
        // 1. Explicit rule match takes precedence
        if let Some(rule) = self.match_host(host) {
            return Some(rule.duplicate());
        }
        let service = extract_service_name(clean.as_str());
        let candidates = candidate_secret_names(service.as_str());
        let ghost names = candidate_names(service@);
        let ghost keys = string_views(available_keys@);
        // 2. Check if any candidate secret already exists in user's vault
        let mut i: usize = 0;
        assert(names.skip(0) =~= names);
        while i < candidates.len()
            invariant
                i <= candidates@.len() == names.len(),
                string_views(candidates@) == names,
                names == candidate_names(service@),
                keys == string_views(available_keys@),
                clean@ == clean_host(host@),
                service@ == service_name(clean@),
                first_matching(self@, clean_host(host@)) is None,
                first_available(names, keys) == first_available(names.skip(i as int), keys),
            decreases candidates@.len() - i,
        {
            assert(string_views(candidates@)[i as int] == candidates@[i as int]@);
            assert(names.skip(i as int)[0] == names[i as int]);
            assert(names.skip(i as int).drop_first() =~= names.skip(i + 1));
            if key_available_exec(available_keys, &candidates[i]) {
                return Some(
                    DomainRule {
                        pattern: clean,
                        secret: candidates[i].clone(),
                        inject: default_injection_for_service(service.as_str()),
                    },
                );
            }
            i += 1;
        }
        // 3. If client sent an Authorization header, infer authentication is required
        // and prepare dynamic rule so proxy can JIT-prompt for <SERVICE>_API_KEY if needed.
        if has_client_auth {
            let inject = default_injection_for_service(service.as_str());
            return Some(
                DomainRule { pattern: clean, secret: service.concat("_API_KEY"), inject },
            );
        }
        None
    }
}

// ---------------------------------------------------------------------------
// Files
// ---------------------------------------------------------------------------

/// `~/.cloak/routes.json`, the user's domain rules.
pub fn routes_file_path(home: Option<String>) -> (r: String)
    ensures
        r@ == join(cloak_dir_of(opt_view(home)), "routes.json"@),
{
    let d = cloak_dir(home);
    path_join(d.as_str(), "routes.json")
}

// ---------------------------------------------------------------------------
// Built-in rules
// ---------------------------------------------------------------------------

/// The built-in rules, used when no routes file is present.
pub open spec fn builtin_rules() -> Seq<RuleModel> {
    seq![
        RuleModel {
            pattern: "*pixabay.com*"@,
            secret: "PIXABAY_API_KEY"@,
            inject: InjectionModel::Query { param: "key"@ },
        },
        RuleModel {
            pattern: "*api.elevenlabs.io*"@,
            secret: "ELEVENLABS_API_KEY"@,
            inject: InjectionModel::Header { name: "xi-api-key"@, prefix: None },
        },
        RuleModel { pattern: "*api.github.com*"@, secret: "GITHUB_TOKEN"@, inject: bearer_injection() },
        RuleModel {
            pattern: "*api.stripe.com*"@,
            secret: "STRIPE_API_KEY"@,
            inject: bearer_injection(),
        },
        RuleModel {
            pattern: "*httpbin.org*"@,
            secret: "CLOAK_TEST_KEY"@,
            inject: InjectionModel::Header { name: "X-Cloak-Injected"@, prefix: None },
        },
    ]
}

fn rule(pattern: &str, secret: &str, inject: SecretInjection) -> (r: DomainRule)
    ensures
        r@ == (RuleModel { pattern: pattern@, secret: secret@, inject: inject@ }),
{
    DomainRule { pattern: String::from_str(pattern), secret: String::from_str(secret), inject }
}

impl Default for RuleRegistry {
    fn default() -> (r: Self)
        ensures
            r@ == builtin_rules(),
    {
        let mut rules: Vec<DomainRule> = Vec::new();
        rules.push(
            rule(
                "*pixabay.com*",
                "PIXABAY_API_KEY",
                SecretInjection::Query { param: String::from_str("key") },
            ),
        );
        rules.push(
            rule(
                "*api.elevenlabs.io*",
                "ELEVENLABS_API_KEY",
                SecretInjection::Header { name: String::from_str("xi-api-key"), prefix: None },
            ),
        );
        rules.push(rule("*api.github.com*", "GITHUB_TOKEN", bearer_header_injection()));
        rules.push(rule("*api.stripe.com*", "STRIPE_API_KEY", bearer_header_injection()));
        rules.push(
            rule(
                "*httpbin.org*",
                "CLOAK_TEST_KEY",
                SecretInjection::Header {
                    name: String::from_str("X-Cloak-Injected"),
                    prefix: None,
                },
            ),
        );
        let r = RuleRegistry { rules };
        assert(r@ =~= builtin_rules());
        r
    }
}

impl RuleRegistry {
    /// The rules of the routes file when it could be read and parsed
    /// (`parsed`), otherwise the built-in rules.
    pub fn load_or_default(parsed: Option<Vec<DomainRule>>) -> (r: Self)
        ensures
            r@ == match parsed {
                Some(rules) => rule_views(rules@),
                None => builtin_rules(),
            },
    {
        match parsed {
            Some(rules) => RuleRegistry { rules },
            None => RuleRegistry::default(),
        }
    }
}

/// Matching ignores case: two hosts with the same lower-case form, or two
/// patterns with the same lower-case form, match alike.
pub proof fn law_matching_ignores_case(r1: RuleModel, r2: RuleModel, h1: Seq<char>, h2: Seq<char>)
    requires
        unicode_lowercase(r1.pattern) == unicode_lowercase(r2.pattern),
        unicode_lowercase(h1) == unicode_lowercase(h2),
    ensures
        rule_matches(r1, h1) == rule_matches(r2, h2),
{
}

/// An explicit rule takes precedence: when a rule matches the host, it is
/// the rule returned, whatever keys the vault holds and whether the client
/// sent credentials.
pub proof fn law_explicit_rule_first(
    rules: Seq<RuleModel>,
    host: Seq<char>,
    keys: Seq<Seq<char>>,
    has_client_auth: bool,
    r: RuleModel,
)
    requires
        first_matching(rules, clean_host(host)) == Some(r),
    ensures
        matched_or_inferred(rules, host, keys, has_client_auth) == Some(r),
{
}

proof fn lemma_split_word_then_parts(w: Seq<char>, a: Seq<char>, b: Seq<char>)
    requires
        !w.contains(':'),
        !a.contains(':'),
        !b.contains(':'),
    ensures
        split_on(w.push(':') + a, ':') == seq![w, a],
        split_on((w.push(':') + a).push(':') + b, ':') == seq![w, a, b],
{
    let e = Seq::<char>::empty();
    lemma_split_on_single(w, ':');
    lemma_split_on_push_sep(w, ':');
    assert(split_on(w.push(':'), ':') =~= seq![w, e]);
    lemma_split_on_append_plain(w.push(':'), a, ':');
    assert(e + a =~= a);
    assert(split_on(w.push(':') + a, ':') =~= seq![w, a]);
    lemma_split_on_push_sep(w.push(':') + a, ':');
    assert(split_on((w.push(':') + a).push(':'), ':') =~= seq![w, a, e]);
    lemma_split_on_append_plain((w.push(':') + a).push(':'), b, ':');
    assert(e + b =~= b);
    assert(split_on((w.push(':') + a).push(':') + b, ':') =~= seq![w, a, b]);
}

/// Injection specifiers, for names, parameters and prefixes without `:`:
/// `header:<name>:<scheme>` attaches `<name>: <scheme> <secret>` (the scheme
/// followed by one space, whatever the scheme), `header:<name>` attaches
/// `<name>: <secret>`, and `query:<param>` adds `<param>=<secret>`.
pub proof fn law_injection_specifiers(name: Seq<char>, scheme: Seq<char>)
    requires
        !name.contains(':'),
        !scheme.contains(':'),
    ensures
        parse_injection("header:"@ + name + ":"@ + scheme) == (InjectionModel::Header {
            name,
            prefix: Some(scheme + " "@),
        }),
        parse_injection("header:"@ + name) == (InjectionModel::Header { name, prefix: None }),
        parse_injection("query:"@ + name) == (InjectionModel::Query { param: name }),
{
    reveal_strlit("header:");
    reveal_strlit("header");
    reveal_strlit("query:");
    reveal_strlit("query");
    reveal_strlit(":");
    let h = "header"@;
    let q = "query"@;
    assert(!h.contains(':')) by {
        assert forall|i: int| 0 <= i < h.len() implies h[i] != ':' by {}
    }
    assert(!q.contains(':')) by {
        assert forall|i: int| 0 <= i < q.len() implies q[i] != ':' by {}
    }
    assert("header:"@ =~= h.push(':'));
    assert("query:"@ =~= q.push(':'));
    assert("header:"@ + name + ":"@ + scheme =~= (h.push(':') + name).push(':') + scheme);
    lemma_split_word_then_parts(h, name, scheme);
    lemma_split_word_then_parts(q, name, scheme);
}

proof fn lemma_last_service_label_at(labels: Seq<Seq<char>>, i: int)
    requires
        0 <= i < labels.len(),
        is_service_label(labels[i]),
        forall|j: int| i < j < labels.len() ==> !is_service_label(#[trigger] labels[j]),
    ensures
        last_service_label(labels) == Some(labels[i]),
    decreases labels.len(),
{
    if i < labels.len() - 1 {
        let d = labels.drop_last();
        assert(!is_service_label(labels[labels.len() - 1]));
        assert(d[i] == labels[i]);
        assert forall|j: int| i < j < d.len() implies !is_service_label(#[trigger] d[j]) by {
            assert(d[j] == labels[j]);
        }
        lemma_last_service_label_at(d, i);
    }
}

/// The service of a host is its last label (of the trimmed, port-less,
/// lower-cased host, split at `.`) that is neither a sub-domain prefix
/// (api, v1, v2, rest, gateway, service, sub, www, app) nor a top-level
/// label (com, org, net, io, ai, co, dev, app, sh, me, xyz, uk, us, de, fr,
/// jp, eu, in), upper-cased: labels after it that are empty, prefixes or
/// top-level labels are passed over. So the service of `<x>.ai` is `X`.
pub proof fn law_service_is_last_naming_label(host: Seq<char>, i: int)
    requires
        0 <= i < split_on(unicode_lowercase(clean_host(host)), '.').len(),
        ({
            let l = split_on(unicode_lowercase(clean_host(host)), '.')[i];
            &&& l.len() > 0
            &&& !set!["api"@, "v1"@, "v2"@, "rest"@, "gateway"@, "service"@, "sub"@, "www"@, "app"@].contains(l)
            &&& !set![
                "com"@, "org"@, "net"@, "io"@, "ai"@, "co"@, "dev"@, "app"@, "sh"@, "me"@, "xyz"@,
                "uk"@, "us"@, "de"@, "fr"@, "jp"@, "eu"@, "in"@,
            ].contains(l)
        }),
        forall|j: int|
            i < j < split_on(unicode_lowercase(clean_host(host)), '.').len() ==> {
                let l = #[trigger] split_on(unicode_lowercase(clean_host(host)), '.')[j];
                ||| l.len() == 0
                ||| set!["api"@, "v1"@, "v2"@, "rest"@, "gateway"@, "service"@, "sub"@, "www"@, "app"@].contains(l)
                ||| set![
                    "com"@, "org"@, "net"@, "io"@, "ai"@, "co"@, "dev"@, "app"@, "sh"@, "me"@, "xyz"@,
                    "uk"@, "us"@, "de"@, "fr"@, "jp"@, "eu"@, "in"@,
                ].contains(l)
            },
    ensures
        service_name(host) == unicode_uppercase(split_on(unicode_lowercase(clean_host(host)), '.')[i]),
{
    let labels = split_on(unicode_lowercase(clean_host(host)), '.');
    assert(is_service_label(labels[i]));
    assert forall|j: int| i < j < labels.len() implies !is_service_label(#[trigger] labels[j]) by {
        let l = labels[j];
        assert(l.len() == 0 || is_common_prefix(l) || is_common_tld(l));
    }
    lemma_last_service_label_at(labels, i);
}

} // verus!
