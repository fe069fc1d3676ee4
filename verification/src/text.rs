//! Character-level text utilities used by the rule engine and the proxy.
//!
//! Strings are handled as sequences of `char`: every function here states
//! its result over `Seq<char>`, the view of `str` and `String`.

use vstd::prelude::*;

verus! {

// ---------------------------------------------------------------------------
// Conversions between `str`/`String` and `Vec<char>`
// ---------------------------------------------------------------------------

/// Appends one character to a string (`String::push`).
#[verifier::external_body]
pub(crate) fn push_char(s: &mut String, c: char)
    ensures
        final(s)@ == old(s)@.push(c),
{
    s.push(c);
}

/// The characters of `s`, in order.
pub fn chars_of(s: &str) -> (v: Vec<char>)
    ensures
        v@ == s@,
{
    let mut v: Vec<char> = Vec::new();
    for c in it: s.chars()
        invariant
            v@ == it.seq().take(it.index() as int),
            it.seq() == s@,
    {
        v.push(c);
    }
    v
}

/// A string holding exactly the characters of `v`.
pub fn string_from_chars(v: &[char]) -> (s: String)
    ensures
        s@ == v@,
{
    let mut s = String::new();
    let mut i: usize = 0;
    while i < v.len()
        invariant
            i <= v@.len(),
            s@ == v@.take(i as int),
        decreases v@.len() - i,
    {
        push_char(&mut s, v[i]);
        assert(v@.take(i as int).push(v@[i as int]) =~= v@.take(i + 1));
        i += 1;
    }
    assert(v@.take(v@.len() as int) =~= v@);
    s
}

/// Copies `v[from..to]` into a new vector.
pub fn copy_range(v: &[char], from: usize, to: usize) -> (r: Vec<char>)
    requires
        from <= to <= v@.len(),
    ensures
        r@ == v@.subrange(from as int, to as int),
{
    let mut r: Vec<char> = Vec::new();
    let mut i = from;
    while i < to
        invariant
            from <= i <= to <= v@.len(),
            r@ == v@.subrange(from as int, i as int),
        decreases to - i,
    {
        r.push(v[i]);
        assert(v@.subrange(from as int, i as int).push(v@[i as int]) =~= v@.subrange(
            from as int,
            i + 1,
        ));
        i += 1;
    }
    r
}

/// Appends all characters of `src` to `dst`.
pub fn extend_chars(dst: &mut Vec<char>, src: &[char])
    ensures
        final(dst)@ == old(dst)@ + src@,
{
    let ghost start = dst@;
    let mut i: usize = 0;
    while i < src.len()
        invariant
            i <= src@.len(),
            dst@ == start + src@.take(i as int),
        decreases src@.len() - i,
    {
        dst.push(src[i]);
        assert(start + src@.take(i as int).push(src@[i as int]) =~= start + src@.take(i + 1));
        i += 1;
    }
    assert(src@.take(src@.len() as int) =~= src@);
}

/// Whether two character sequences are equal.
pub fn chars_eq(a: &[char], b: &[char]) -> (r: bool)
    ensures
        r == (a@ == b@),
{
    if a.len() != b.len() {
        return false;
    }
    let mut i: usize = 0;
    while i < a.len()
        invariant
            a@.len() == b@.len(),
            i <= a@.len(),
            forall|j: int| 0 <= j < i ==> a@[j] == b@[j],
        decreases a@.len() - i,
    {
        if a[i] != b[i] {
            return false;
        }
        i += 1;
    }
    assert(a@ =~= b@);
    true
}

/// Whether the characters `a` spell the string `b`.
pub fn chars_eq_str(a: &[char], b: &str) -> (r: bool)
    ensures
        r == (a@ == b@),
{
    let bv = chars_of(b);
    chars_eq(a, &bv)
}

// ---------------------------------------------------------------------------
// Whitespace and trimming
// ---------------------------------------------------------------------------

/// The Unicode `White_Space` property, the set `char::is_whitespace` tests:
/// U+0009..U+000D, U+0020, U+0085, U+00A0, U+1680, U+2000..U+200A,
/// U+2028, U+2029, U+202F, U+205F and U+3000.
pub open spec fn is_white_space(c: char) -> bool {
    let v = c as u32;
    ||| 0x09 <= v <= 0x0d
    ||| v == 0x20
    ||| v == 0x85
    ||| v == 0xa0
    ||| v == 0x1680
    ||| 0x2000 <= v <= 0x200a
    ||| v == 0x2028
    ||| v == 0x2029
    ||| v == 0x202f
    ||| v == 0x205f
    ||| v == 0x3000
}

/// Whether `c` is a Unicode white-space character.
pub fn is_whitespace(c: char) -> (r: bool)
    ensures
        r == is_white_space(c),
{
    let v = c as u32;
    (0x09 <= v && v <= 0x0d) || v == 0x20 || v == 0x85 || v == 0xa0 || v == 0x1680 || (0x2000
        <= v && v <= 0x200a) || v == 0x2028 || v == 0x2029 || v == 0x202f || v == 0x205f || v
        == 0x3000
}

/// `s` without its leading white space.
pub open spec fn trim_start(s: Seq<char>) -> Seq<char>
    decreases s.len(),
{
    if s.len() > 0 && is_white_space(s[0]) {
        trim_start(s.drop_first())
    } else {
        s
    }
}

/// `s` without its trailing white space.
pub open spec fn trim_end(s: Seq<char>) -> Seq<char>
    decreases s.len(),
{
    if s.len() > 0 && is_white_space(s.last()) {
        trim_end(s.drop_last())
    } else {
        s
    }
}

/// `s` without leading and trailing white space (what `str::trim` returns).
pub open spec fn trim(s: Seq<char>) -> Seq<char> {
    trim_end(trim_start(s))
}

/// Whether `s` is empty once trimmed, i.e. holds only white space.
pub open spec fn is_blank(s: Seq<char>) -> bool {
    trim(s).len() == 0
}

/// `v` with leading and trailing white space removed.
pub fn trim_chars(v: &[char]) -> (r: Vec<char>)
    ensures
        r@ == trim(v@),
{
    let mut i: usize = 0;
    assert(v@.skip(0) =~= v@);
    while i < v.len() && is_whitespace(v[i])
        invariant
            i <= v@.len(),
            trim_start(v@) == trim_start(v@.skip(i as int)),
        decreases v@.len() - i,
    {
        assert(v@.skip(i as int).drop_first() =~= v@.skip(i + 1));
        i += 1;
    }
    let ghost rest = v@.skip(i as int);
    assert(trim_start(v@) == rest);
    let mut j: usize = v.len();
    assert(rest =~= v@.subrange(i as int, j as int));
    while j > i && is_whitespace(v[j - 1])
        invariant
            i <= j <= v@.len(),
            rest == v@.skip(i as int),
            trim_end(rest) == trim_end(v@.subrange(i as int, j as int)),
        decreases j,
    {
        assert(v@.subrange(i as int, j as int).drop_last() =~= v@.subrange(i as int, j - 1));
        j -= 1;
    }
    copy_range(v, i, j)
}

/// Whether `v` holds only white space (`str::trim().is_empty()`).
pub fn is_blank_chars(v: &[char]) -> (r: bool)
    ensures
        r == is_blank(v@),
{
    let t = trim_chars(v);
    t.len() == 0
}

/// Whether the string `s` holds only white space.
pub fn is_blank_str(s: &str) -> (r: bool)
    ensures
        r == is_blank(s@),
{
    let v = chars_of(s);
    is_blank_chars(&v)
}

// ---------------------------------------------------------------------------
// Splitting
// ---------------------------------------------------------------------------

/// The characters of `s` before the first `sep` (all of `s` when `sep` does
/// not occur): what `s.split(sep).next()` yields.
pub open spec fn before_first(s: Seq<char>, sep: char) -> Seq<char>
    decreases s.len(),
{
    if s.len() == 0 {
        s
    } else if s[0] == sep {
        Seq::empty()
    } else {
        seq![s[0]] + before_first(s.drop_first(), sep)
    }
}

proof fn lemma_before_first_at(s: Seq<char>, sep: char, i: int)
    requires
        0 <= i <= s.len(),
        forall|j: int| 0 <= j < i ==> s[j] != sep,
        i == s.len() || s[i] == sep,
    ensures
        before_first(s, sep) == s.take(i),
    decreases i,
{
    if i == 0 {
        assert(s.take(0) =~= Seq::<char>::empty());
    } else {
        let t = s.drop_first();
        assert forall|j: int| 0 <= j < i - 1 implies t[j] != sep by {
            assert(t[j] == s[j + 1]);
        }
        if i < s.len() {
            assert(t[i - 1] == s[i]);
        }
        lemma_before_first_at(t, sep, i - 1);
        assert(seq![s[0]] + t.take(i - 1) =~= s.take(i));
    }
}

/// The characters of `v` before the first `sep`.
pub fn before_first_chars(v: &[char], sep: char) -> (r: Vec<char>)
    ensures
        r@ == before_first(v@, sep),
{
    let mut i: usize = 0;
    while i < v.len() && v[i] != sep
        invariant
            i <= v@.len(),
            forall|j: int| 0 <= j < i ==> v@[j] != sep,
        decreases v@.len() - i,
    {
        i += 1;
    }
    proof {
        lemma_before_first_at(v@, sep, i as int);
    }
    assert(v@.take(i as int) =~= v@.subrange(0, i as int));
    copy_range(v, 0, i)
}

/// The pieces of `s` between occurrences of `sep`, as `str::split` yields
/// them: `s` is the pieces joined by `sep`, and no piece holds `sep`.
pub open spec fn split_on(s: Seq<char>, sep: char) -> Seq<Seq<char>>
    decreases s.len(),
{
    if s.len() == 0 {
        seq![Seq::empty()]
    } else {
        let p = split_on(s.drop_last(), sep);
        if s.last() == sep {
            p.push(Seq::empty())
        } else {
            p.update(p.len() - 1, p.last().push(s.last()))
        }
    }
}

/// `split_on` always yields at least one piece.
pub proof fn lemma_split_on_nonempty(s: Seq<char>, sep: char)
    ensures
        split_on(s, sep).len() >= 1,
    decreases s.len(),
{
    if s.len() > 0 {
        lemma_split_on_nonempty(s.drop_last(), sep);
    }
}

/// `split_on` yields a single piece exactly when `sep` does not occur.
pub proof fn lemma_split_on_single(s: Seq<char>, sep: char)
    ensures
        (split_on(s, sep).len() == 1) <==> !s.contains(sep),
        !s.contains(sep) ==> split_on(s, sep) == seq![s],
    decreases s.len(),
{
    if s.len() == 0 {
        assert(s =~= Seq::<char>::empty());
        assert(seq![Seq::<char>::empty()] =~= seq![s]);
    } else {
        let d = s.drop_last();
        lemma_split_on_single(d, sep);
        lemma_split_on_nonempty(d, sep);
        if s.contains(sep) {
            let k = choose|k: int| 0 <= k < s.len() && s[k] == sep;
            if k < s.len() - 1 {
                assert(d[k] == sep);
            }
        }
        if !s.contains(sep) {
            assert forall|k: int| 0 <= k < d.len() implies d[k] != sep by {
                assert(d[k] == s[k]);
            }
            assert(d.push(s.last()) =~= s);
            assert(seq![d].update(0, d.push(s.last())) =~= seq![s]);
        }
        if d.contains(sep) {
            let k = choose|k: int| 0 <= k < d.len() && d[k] == sep;
            assert(s[k] == sep);
        }
    }
}

/// Appending characters other than `sep` extends the last piece.
pub proof fn lemma_split_on_append_plain(a: Seq<char>, m: Seq<char>, sep: char)
    requires
        !m.contains(sep),
    ensures
        split_on(a + m, sep) == split_on(a, sep).update(
            split_on(a, sep).len() - 1,
            split_on(a, sep).last() + m,
        ),
    decreases m.len(),
{
    lemma_split_on_nonempty(a, sep);
    let p = split_on(a, sep);
    if m.len() == 0 {
        assert(a + m =~= a);
        assert(p.last() + m =~= p.last());
        assert(p.update(p.len() - 1, p.last()) =~= p);
    } else {
        let d = m.drop_last();
        assert(!d.contains(sep)) by {
            if d.contains(sep) {
                let k = choose|k: int| 0 <= k < d.len() && d[k] == sep;
                assert(m[k] == sep);
            }
        }
        lemma_split_on_append_plain(a, d, sep);
        assert((a + m).drop_last() =~= a + d);
        assert((a + m).last() == m.last());
        assert(m.last() != sep) by {
            assert(m[m.len() - 1] == m.last());
        }
        let q = split_on(a + d, sep);
        assert(q.last() == p.last() + d);
        assert((p.last() + d).push(m.last()) =~= p.last() + m);
        assert(q.update(q.len() - 1, q.last().push(m.last())) =~= p.update(p.len() - 1, p.last() + m));
    }
}

/// A separator ends the last piece and starts an empty one.
pub proof fn lemma_split_on_push_sep(a: Seq<char>, sep: char)
    ensures
        split_on(a.push(sep), sep) == split_on(a, sep).push(Seq::empty()),
{
    assert(a.push(sep).drop_last() =~= a);
}

/// Views of a sequence of character vectors.
pub open spec fn views(vs: Seq<Vec<char>>) -> Seq<Seq<char>> {
    vs.map_values(|x: Vec<char>| x@)
}

/// The pieces of `v` between occurrences of `sep`.
pub fn split_chars(v: &[char], sep: char) -> (r: Vec<Vec<char>>)
    ensures
        views(r@) == split_on(v@, sep),
        r@.len() >= 1,
{
    let mut pieces: Vec<Vec<char>> = Vec::new();
    let mut cur: Vec<char> = Vec::new();
    let mut i: usize = 0;
    assert(v@.take(0) =~= Seq::<char>::empty());
    assert(views(pieces@).push(cur@) =~= split_on(v@.take(0), sep));
    while i < v.len()
        invariant
            i <= v@.len(),
            views(pieces@).push(cur@) == split_on(v@.take(i as int), sep),
        decreases v@.len() - i,
    {
        let c = v[i];
        let ghost old_pieces = pieces@;
        let ghost old_cur = cur@;
        assert(v@.take(i + 1).drop_last() =~= v@.take(i as int));
        assert(v@.take(i + 1).last() == c);
        if c == sep {
            let done = cur;
            pieces.push(done);
            cur = Vec::new();
            assert(views(pieces@) =~= views(old_pieces).push(old_cur));
            assert(views(pieces@).push(cur@) =~= views(old_pieces).push(old_cur).push(
                Seq::empty(),
            ));
        } else {
            cur.push(c);
            assert(views(pieces@).push(cur@) =~= views(old_pieces).push(old_cur).update(
                views(old_pieces).len() as int,
                old_cur.push(c),
            ));
        }
        i += 1;
    }
    let ghost before = pieces@;
    pieces.push(cur);
    assert(v@.take(v@.len() as int) =~= v@);
    assert(views(pieces@) =~= views(before).push(pieces@.last()@));
    pieces
}

// ---------------------------------------------------------------------------
// Prefixes, suffixes and search
// ---------------------------------------------------------------------------

/// Whether `t` starts with `p`.
pub open spec fn starts_with(t: Seq<char>, p: Seq<char>) -> bool {
    p.len() <= t.len() && t.take(p.len() as int) == p
}

/// Whether `t` ends with `p`.
pub open spec fn ends_with(t: Seq<char>, p: Seq<char>) -> bool {
    p.len() <= t.len() && t.skip(t.len() - p.len()) == p
}

/// Whether `p` occurs in `t` starting at index `i`.
pub open spec fn occurs_at(t: Seq<char>, p: Seq<char>, i: int) -> bool {
    0 <= i && i + p.len() <= t.len() && t.subrange(i, i + p.len()) == p
}

/// Whether `t[start..]` begins with `p`.
fn matches_at(t: &[char], start: usize, p: &[char]) -> (r: bool)
    requires
        start <= t@.len(),
    ensures
        r == occurs_at(t@, p@, start as int),
{
    if p.len() > t.len() - start {
        return false;
    }
    let mut k: usize = 0;
    while k < p.len()
        invariant
            start + p@.len() <= t@.len(),
            t@.len() == t.len(),
            k <= p@.len(),
            forall|j: int| 0 <= j < k ==> t@[start + j] == p@[j],
        decreases p@.len() - k,
    {
        if t[start + k] != p[k] {
            assert(t@.subrange(start as int, start + p@.len())[k as int] != p@[k as int]);
            return false;
        }
        k += 1;
    }
    assert(t@.subrange(start as int, start + p@.len()) =~= p@);
    true
}

/// Whether `t` starts with `p`.
pub fn has_prefix(t: &[char], p: &[char]) -> (r: bool)
    ensures
        r == starts_with(t@, p@),
{
    let r = matches_at(t, 0, p);
    proof {
        if p@.len() <= t@.len() {
            assert(t@.subrange(0, p@.len() as int) =~= t@.take(p@.len() as int));
        }
    }
    r
}

/// Whether `t[from..]` ends with `p`.
pub fn has_suffix_from(t: &[char], from: usize, p: &[char]) -> (r: bool)
    requires
        from <= t@.len(),
    ensures
        r == ends_with(t@.skip(from as int), p@),
{
    if p.len() > t.len() - from {
        return false;
    }
    let start = t.len() - p.len();
    let r = matches_at(t, start, p);
    assert(t@.skip(from as int).skip(t@.skip(from as int).len() - p@.len()) =~= t@.subrange(
        start as int,
        start + p@.len(),
    ));
    r
}

/// The first index at or after `from` where `p` occurs in `t`.
pub fn find_from(t: &[char], from: usize, p: &[char]) -> (r: Option<usize>)
    requires
        from <= t@.len(),
    ensures
        r matches Some(i) ==> from <= i && occurs_at(t@, p@, i as int) && forall|j: int|
            from <= j < i ==> !occurs_at(t@, p@, j),
        r is None ==> forall|j: int| from <= j ==> !occurs_at(t@, p@, j),
{
    if p.len() > t.len() - from {
        return None;
    }
    let last = t.len() - p.len();
    let mut i = from;
    while i <= last
        invariant
            from <= i,
            last + p@.len() == t@.len(),
            forall|j: int| from <= j < i ==> !occurs_at(t@, p@, j),
        decreases last + 1 - i,
    {
        if matches_at(t, i, p) {
            return Some(i);
        }
        if i == last {
            return None;
        }
        i += 1;
    }
    None
}

// ---------------------------------------------------------------------------
// Case
// ---------------------------------------------------------------------------

/// ASCII lower-casing of one character; other characters are unchanged.
pub open spec fn ascii_lower(c: char) -> char {
    if 'A' <= c <= 'Z' {
        ((c as u32) + 32) as char
    } else {
        c
    }
}

/// Equality up to ASCII case (what `str::eq_ignore_ascii_case` tests).
pub open spec fn eq_ignore_ascii_case(a: Seq<char>, b: Seq<char>) -> bool {
    a.len() == b.len() && forall|i: int| 0 <= i < a.len() ==> ascii_lower(a[i]) == ascii_lower(b[i])
}

fn ascii_lower_char(c: char) -> (r: char)
    ensures
        r == ascii_lower(c),
{
    if 'A' <= c && c <= 'Z' {
        let v = (c as u32) + 32;
        let b = v as u8;
        b as char
    } else {
        c
    }
}

/// Whether `a` and `b` are equal up to ASCII case.
pub fn chars_eq_ignore_ascii_case(a: &[char], b: &[char]) -> (r: bool)
    ensures
        r == eq_ignore_ascii_case(a@, b@),
{
    if a.len() != b.len() {
        return false;
    }
    let mut i: usize = 0;
    while i < a.len()
        invariant
            a@.len() == b@.len(),
            i <= a@.len(),
            forall|j: int| 0 <= j < i ==> ascii_lower(a@[j]) == ascii_lower(b@[j]),
        decreases a@.len() - i,
    {
        if ascii_lower_char(a[i]) != ascii_lower_char(b[i]) {
            return false;
        }
        i += 1;
    }
    true
}

/// What `str::to_lowercase` returns for a string (Unicode lower-casing).
pub uninterp spec fn unicode_lowercase(s: Seq<char>) -> Seq<char>;

/// What `str::to_uppercase` returns for a string (Unicode upper-casing).
pub uninterp spec fn unicode_uppercase(s: Seq<char>) -> Seq<char>;

/// `str::to_lowercase`: the result is a function of the input only.
#[verifier::external_body]
pub(crate) fn str_to_lowercase(s: &str) -> (r: String)
    ensures
        r@ == unicode_lowercase(s@),
{
    s.to_lowercase()
}

/// `str::to_uppercase`: the result is a function of the input only.
#[verifier::external_body]
pub(crate) fn str_to_uppercase(s: &str) -> (r: String)
    ensures
        r@ == unicode_uppercase(s@),
{
    s.to_uppercase()
}

/// Unicode lower-casing of a character sequence.
pub fn lowercase_chars(v: &[char]) -> (r: Vec<char>)
    ensures
        r@ == unicode_lowercase(v@),
{
    let s = string_from_chars(v);
    let l = str_to_lowercase(s.as_str());
    chars_of(l.as_str())
}

/// Unicode upper-casing of a character sequence.
pub fn uppercase_chars(v: &[char]) -> (r: Vec<char>)
    ensures
        r@ == unicode_uppercase(v@),
{
    let s = string_from_chars(v);
    let u = str_to_uppercase(s.as_str());
    chars_of(u.as_str())
}

// ---------------------------------------------------------------------------
// Numbers
// ---------------------------------------------------------------------------

/// The ASCII digit for `d < 10`.
pub open spec fn digit_char(d: nat) -> char {
    ((d + 48) as u32) as char
}

/// Decimal notation of `n`, without leading zeros (what `{}` prints).
pub open spec fn decimal(n: nat) -> Seq<char>
    decreases n,
{
    if n < 10 {
        seq![digit_char(n)]
    } else {
        decimal(n / 10).push(digit_char(n % 10))
    }
}

/// Decimal notation of `n`.
pub fn decimal_chars(n: u64) -> (r: Vec<char>)
    ensures
        r@ == decimal(n as nat),
    decreases n,
{
    let d = (n % 10) as u8;
    let c = (48u8 + d) as char;
    if n < 10 {
        let mut v = Vec::new();
        v.push(c);
        assert(v@ =~= seq![digit_char(n as nat)]);
        v
    } else {
        let mut v = decimal_chars(n / 10);
        v.push(c);
        v
    }
}

/// The lower-case hexadecimal digit for `d < 16`.
pub open spec fn hex_digit(d: nat) -> char {
    if d < 10 {
        ((d + 48) as u32) as char
    } else {
        ((d + 87) as u32) as char
    }
}

/// Two lower-case hexadecimal digits per byte (what `{:02x}` per byte prints).
pub open spec fn hex_encode(bytes: Seq<u8>) -> Seq<char>
    decreases bytes.len(),
{
    if bytes.len() == 0 {
        Seq::empty()
    } else {
        let b = bytes.last();
        hex_encode(bytes.drop_last()).push(hex_digit((b / 16) as nat)).push(
            hex_digit((b % 16) as nat),
        )
    }
}

fn hex_digit_char(d: u8) -> (c: char)
    requires
        d < 16,
    ensures
        c == hex_digit(d as nat),
{
    if d < 10 {
        (48u8 + d) as char
    } else {
        (87u8 + d) as char
    }
}

/// Lower-case hexadecimal encoding of `bytes`.
pub fn hex_string(bytes: &[u8]) -> (s: String)
    ensures
        s@ == hex_encode(bytes@),
{
    let mut s = String::new();
    let mut i: usize = 0;
    assert(bytes@.take(0) =~= Seq::<u8>::empty());
    while i < bytes.len()
        invariant
            i <= bytes@.len(),
            s@ == hex_encode(bytes@.take(i as int)),
        decreases bytes@.len() - i,
    {
        let b = bytes[i];
        push_char(&mut s, hex_digit_char(b / 16));
        push_char(&mut s, hex_digit_char(b % 16));
        assert(bytes@.take(i + 1).drop_last() =~= bytes@.take(i as int));
        i += 1;
    }
    assert(bytes@.take(bytes@.len() as int) =~= bytes@);
    s
}

} // verus!
