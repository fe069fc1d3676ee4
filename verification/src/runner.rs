//! The environment of a child process run with secrets: which variables are
//! removed and which are set, in order. Spawning the child and waiting for
//! it happen around this plan.

use vstd::prelude::*;
use crate::proxy::rules::opt_view;
use crate::text::{chars_eq_str, chars_of, decimal, decimal_chars, string_from_chars};

verus! {

/// One change to the child's environment.
#[derive(Clone, Debug)]
pub enum EnvOp {
    Remove(String),
    Assign(String, String),
}

/// An environment change as plain values.
pub ghost enum EnvChange {
    Remove(Seq<char>),
    Assign(Seq<char>, Seq<char>),
}

/// The plain value of an environment change.
pub open spec fn change_of(op: EnvOp) -> EnvChange {
    match op {
        EnvOp::Remove(k) => EnvChange::Remove(k@),
        EnvOp::Assign(k, v) => EnvChange::Assign(k@, v@),
    }
}

/// The plain values of a list of environment changes.
pub open spec fn changes_of(ops: Seq<EnvOp>) -> Seq<EnvChange> {
    ops.map_values(|op: EnvOp| change_of(op))
}

/// `http://127.0.0.1:<port>`, the proxy's address.
pub open spec fn proxy_url(port: u16) -> Seq<char> {
    "http://127.0.0.1:"@ + decimal(port as nat)
}

/// The variables that point tools at the proxy when it is not used.
pub open spec fn proxy_vars_removed() -> Seq<EnvChange> {
    Seq::empty()
        .push(EnvChange::Remove("CLOAK_PROXY_TOKEN"@))
        .push(EnvChange::Remove("OPENAI_BASE_URL"@))
        .push(EnvChange::Remove("ANTHROPIC_BASE_URL"@))
        .push(EnvChange::Remove("HTTP_PROXY"@))
        .push(EnvChange::Remove("HTTPS_PROXY"@))
        .push(EnvChange::Remove("ALL_PROXY"@))
        .push(EnvChange::Remove("http_proxy"@))
        .push(EnvChange::Remove("https_proxy"@))
        .push(EnvChange::Remove("all_proxy"@))
        .push(EnvChange::Remove("SSL_CERT_FILE"@))
        .push(EnvChange::Remove("REQUESTS_CA_BUNDLE"@))
        .push(EnvChange::Remove("CURL_CA_BUNDLE"@))
        .push(EnvChange::Remove("NODE_EXTRA_CA_CERTS"@))
}

/// The variables that route AI tools and HTTP clients through the proxy.
pub open spec fn proxy_routing(port: u16, token: Seq<char>) -> Seq<EnvChange> {
    let url = proxy_url(port);
    Seq::empty()
        .push(EnvChange::Assign("OPENAI_BASE_URL"@, url + "/v1"@))
        .push(EnvChange::Assign("OPENAI_API_KEY"@, token))
        .push(EnvChange::Assign("ANTHROPIC_BASE_URL"@, url))
        .push(EnvChange::Assign("ANTHROPIC_API_KEY"@, token))
        .push(EnvChange::Assign("HTTP_PROXY"@, url))
        .push(EnvChange::Assign("HTTPS_PROXY"@, url))
        .push(EnvChange::Assign("ALL_PROXY"@, url))
        .push(EnvChange::Assign("http_proxy"@, url))
        .push(EnvChange::Assign("https_proxy"@, url))
        .push(EnvChange::Assign("all_proxy"@, url))
        .push(EnvChange::Assign("NO_PROXY"@, "localhost,127.0.0.1"@))
        .push(EnvChange::Assign("no_proxy"@, "localhost,127.0.0.1"@))
}

/// The variables that make tools trust the local CA.
pub open spec fn ca_bundle(path: Seq<char>) -> Seq<EnvChange> {
    Seq::empty()
        .push(EnvChange::Assign("SSL_CERT_FILE"@, path))
        .push(EnvChange::Assign("REQUESTS_CA_BUNDLE"@, path))
        .push(EnvChange::Assign("CURL_CA_BUNDLE"@, path))
        .push(EnvChange::Assign("NODE_EXTRA_CA_CERTS"@, path))
}

/// The AI provider keys the proxy holds itself in proxy mode.
pub open spec fn shielded(proxy_mode: bool, key: Seq<char>) -> bool {
    proxy_mode && (key == "OPENAI_API_KEY"@ || key == "ANTHROPIC_API_KEY"@)
}

/// The secrets never set in the child: the master passphrase, and the
/// shielded provider keys.
pub open spec fn withheld(proxy_mode: bool, key: Seq<char>) -> bool {
    key == "CLOAK_MASTER_KEY"@ || shielded(proxy_mode, key)
}

/// The secrets set in the child, in order, without the withheld ones.
pub open spec fn secret_changes(secrets: Seq<(Seq<char>, Seq<char>)>, proxy_mode: bool) -> Seq<EnvChange>
    decreases secrets.len(),
{
    if secrets.len() == 0 {
        Seq::empty()
    } else {
        let rest = secret_changes(secrets.drop_last(), proxy_mode);
        let k = secrets.last().0;
        if withheld(proxy_mode, k) {
            rest
        } else {
            rest.push(EnvChange::Assign(k, secrets.last().1))
        }
    }
}

/// The environment changes for a child: the master passphrase is always
/// removed; with the proxy (or the token asked for) the session token is
/// set, and in proxy mode the routing variables and the CA bundle too;
/// otherwise every proxy variable is removed; then the secrets are set,
/// except one named like the master passphrase and, in proxy mode, the AI
/// provider keys.
pub open spec fn env_plan(
    secrets: Seq<(Seq<char>, Seq<char>)>,
    inject_proxy_token: bool,
    proxy_mode: bool,
    port: u16,
    token: Option<Seq<char>>,
    ca_path: Option<Seq<char>>,
) -> Seq<EnvChange> {
    let head = seq![EnvChange::Remove("CLOAK_MASTER_KEY"@)];
    let proxy_part = if proxy_mode || inject_proxy_token {
        match token {
            Some(t) => seq![EnvChange::Assign("CLOAK_PROXY_TOKEN"@, t)] + if proxy_mode {
                proxy_routing(port, t) + match ca_path {
                    Some(p) => ca_bundle(p),
                    None => Seq::empty(),
                }
            } else {
                Seq::empty()
            },
            None => Seq::empty(),
        }
    } else {
        proxy_vars_removed()
    };
    head + proxy_part + secret_changes(secrets, proxy_mode)
}

/// The views of a list of secret pairs.
pub open spec fn secret_views(v: Seq<(String, String)>) -> Seq<(Seq<char>, Seq<char>)> {
    v.map_values(|p: (String, String)| (p.0@, p.1@))
}

fn remove_op(k: &str) -> (r: EnvOp)
    ensures
        change_of(r) == EnvChange::Remove(k@),
{
    EnvOp::Remove(String::from_str(k))
}

fn set_op(k: &str, v: &str) -> (r: EnvOp)
    ensures
        change_of(r) == EnvChange::Assign(k@, v@),
{
    EnvOp::Assign(String::from_str(k), String::from_str(v))
}

fn push_op(ops: &mut Vec<EnvOp>, op: EnvOp)
    ensures
        changes_of(final(ops)@) == changes_of(old(ops)@).push(change_of(op)),
{
    let ghost before = ops@;
    ops.push(op);
    assert(changes_of(ops@) =~= changes_of(before).push(change_of(op)));
}

/// Plans the environment of a child process. `token` is the proxy session
/// token (when it could be had) and `ca_path` the local CA certificate path
/// (when it could be had); they are only used in proxy mode or when the
/// token is asked for.
pub fn child_env_plan(
    secrets: &[(String, String)],
    inject_proxy_token: bool,
    proxy_mode: bool,
    proxy_port: u16,
    token: Option<String>,
    ca_path: Option<String>,
) -> (r: Vec<EnvOp>)
    ensures
        changes_of(r@) == env_plan(
            secret_views(secrets@),
            inject_proxy_token,
            proxy_mode,
            proxy_port,
            opt_view(token),
            opt_view(ca_path),
        ),
{
    let mut ops: Vec<EnvOp> = Vec::new();
    push_op(&mut ops, remove_op("CLOAK_MASTER_KEY"));
    let ghost head = changes_of(ops@);
    if proxy_mode || inject_proxy_token {
        if let Some(t) = &token {
            push_op(&mut ops, set_op("CLOAK_PROXY_TOKEN", t.as_str()));
            if proxy_mode {
                let digits = decimal_chars(proxy_port as u64);
                let ds = string_from_chars(&digits);
                let url = String::from_str("http://127.0.0.1:").concat(ds.as_str());
                let v1 = url.clone().concat("/v1");
                push_op(&mut ops, set_op("OPENAI_BASE_URL", v1.as_str()));
                push_op(&mut ops, set_op("OPENAI_API_KEY", t.as_str()));
                push_op(&mut ops, set_op("ANTHROPIC_BASE_URL", url.as_str()));
                push_op(&mut ops, set_op("ANTHROPIC_API_KEY", t.as_str()));
                push_op(&mut ops, set_op("HTTP_PROXY", url.as_str()));
                push_op(&mut ops, set_op("HTTPS_PROXY", url.as_str()));
                push_op(&mut ops, set_op("ALL_PROXY", url.as_str()));
                push_op(&mut ops, set_op("http_proxy", url.as_str()));
                push_op(&mut ops, set_op("https_proxy", url.as_str()));
                push_op(&mut ops, set_op("all_proxy", url.as_str()));
                push_op(&mut ops, set_op("NO_PROXY", "localhost,127.0.0.1"));
                push_op(&mut ops, set_op("no_proxy", "localhost,127.0.0.1"));
                if let Some(p) = &ca_path {
                    push_op(&mut ops, set_op("SSL_CERT_FILE", p.as_str()));
                    push_op(&mut ops, set_op("REQUESTS_CA_BUNDLE", p.as_str()));
                    push_op(&mut ops, set_op("CURL_CA_BUNDLE", p.as_str()));
                    push_op(&mut ops, set_op("NODE_EXTRA_CA_CERTS", p.as_str()));
                }
            }
        }
    } else {
        push_op(&mut ops, remove_op("CLOAK_PROXY_TOKEN"));
        push_op(&mut ops, remove_op("OPENAI_BASE_URL"));
        push_op(&mut ops, remove_op("ANTHROPIC_BASE_URL"));
        push_op(&mut ops, remove_op("HTTP_PROXY"));
        push_op(&mut ops, remove_op("HTTPS_PROXY"));
        push_op(&mut ops, remove_op("ALL_PROXY"));
        push_op(&mut ops, remove_op("http_proxy"));
        push_op(&mut ops, remove_op("https_proxy"));
        push_op(&mut ops, remove_op("all_proxy"));
        push_op(&mut ops, remove_op("SSL_CERT_FILE"));
        push_op(&mut ops, remove_op("REQUESTS_CA_BUNDLE"));
        push_op(&mut ops, remove_op("CURL_CA_BUNDLE"));
        push_op(&mut ops, remove_op("NODE_EXTRA_CA_CERTS"));
    }
    let ghost pre = changes_of(ops@);
    assert(pre =~= env_plan(
        seq![],
        inject_proxy_token,
        proxy_mode,
        proxy_port,
        opt_view(token),
        opt_view(ca_path),
    ));
    let mut i: usize = 0;
    assert(secret_views(secrets@).take(0) =~= Seq::<(Seq<char>, Seq<char>)>::empty());
    while i < secrets.len()
        invariant
            i <= secrets@.len(),
            changes_of(ops@) == pre + secret_changes(secret_views(secrets@).take(i as int), proxy_mode),
        decreases secrets@.len() - i,
    {
        let (k, v) = &secrets[i];
        let ghost sv = secret_views(secrets@);
        assert(sv.take(i + 1).drop_last() =~= sv.take(i as int));
        assert(sv.take(i + 1).last() == (k@, v@));
        let kc = chars_of(k.as_str());
        let skip = chars_eq_str(&kc, "CLOAK_MASTER_KEY") || (proxy_mode && (chars_eq_str(
            &kc,
            "OPENAI_API_KEY",
        ) || chars_eq_str(&kc, "ANTHROPIC_API_KEY")));
        if !skip {
            push_op(&mut ops, EnvOp::Assign(k.clone(), v.clone()));
            assert(changes_of(ops@) =~= pre + secret_changes(sv.take(i + 1), proxy_mode));
        }
        i += 1;
    }
    assert(secret_views(secrets@).take(secrets@.len() as int) =~= secret_views(secrets@));
    ops
}

/// The variable an environment change touches.
pub open spec fn change_key(c: EnvChange) -> Seq<char> {
    match c {
        EnvChange::Remove(k) => k,
        EnvChange::Assign(k, _) => k,
    }
}

/// What an environment change leaves in its variable: nothing, or a value.
pub open spec fn change_value(c: EnvChange) -> Option<Seq<char>> {
    match c {
        EnvChange::Remove(_) => None,
        EnvChange::Assign(_, v) => Some(v),
    }
}

/// The value a variable ends up with after the changes, as far as they say:
/// `None` when no change touches it, `Some(None)` when the last change
/// removes it, `Some(Some(v))` when the last change sets it to `v`.
pub open spec fn final_value(changes: Seq<EnvChange>, name: Seq<char>) -> Option<Option<Seq<char>>>
    decreases changes.len(),
{
    if changes.len() == 0 {
        None
    } else if change_key(changes.last()) == name {
        Some(change_value(changes.last()))
    } else {
        final_value(changes.drop_last(), name)
    }
}

proof fn lemma_final_value_concat(a: Seq<EnvChange>, b: Seq<EnvChange>, name: Seq<char>)
    ensures
        final_value(a + b, name) == match final_value(b, name) {
            Some(v) => Some(v),
            None => final_value(a, name),
        },
    decreases b.len(),
{
    if b.len() == 0 {
        assert(a + b =~= a);
    } else {
        assert((a + b).drop_last() =~= a + b.drop_last());
        assert((a + b).last() == b.last());
        lemma_final_value_concat(a, b.drop_last(), name);
    }
}

proof fn lemma_final_value_untouched(s: Seq<EnvChange>, name: Seq<char>)
    requires
        forall|i: int| 0 <= i < s.len() ==> change_key(#[trigger] s[i]) != name,
    ensures
        final_value(s, name) is None,
    decreases s.len(),
{
    if s.len() > 0 {
        assert(change_key(s[s.len() - 1]) != name);
        lemma_final_value_untouched(s.drop_last(), name);
    }
}

proof fn lemma_final_value_last_touch(s: Seq<EnvChange>, name: Seq<char>, i: int)
    requires
        0 <= i < s.len(),
        change_key(s[i]) == name,
        forall|j: int| i < j < s.len() ==> change_key(#[trigger] s[j]) != name,
    ensures
        final_value(s, name) == Some(change_value(s[i])),
    decreases s.len(),
{
    if i < s.len() - 1 {
        assert(change_key(s[s.len() - 1]) != name);
        let d = s.drop_last();
        assert(d[i] == s[i]);
        assert forall|j: int| i < j < d.len() implies change_key(#[trigger] d[j]) != name by {
            assert(d[j] == s[j]);
        }
        lemma_final_value_last_touch(d, name, i);
    }
}

/// Whether a secret is named `name`.
pub open spec fn has_secret(secrets: Seq<(Seq<char>, Seq<char>)>, name: Seq<char>) -> bool {
    exists|i: int| 0 <= i < secrets.len() && secrets[i].0 == name
}

proof fn lemma_push_drop_last(s: Seq<EnvChange>, c: EnvChange)
    ensures
        s.push(c).drop_last() == s,
        s.push(c).last() == c,
{
    assert(s.push(c).drop_last() =~= s);
}

proof fn lemma_secret_changes_untouched(secrets: Seq<(Seq<char>, Seq<char>)>, proxy_mode: bool, name: Seq<char>)
    requires
        !has_secret(secrets, name),
    ensures
        final_value(secret_changes(secrets, proxy_mode), name) is None,
    decreases secrets.len(),
{
    if secrets.len() > 0 {
        let d = secrets.drop_last();
        assert(!has_secret(d, name)) by {
            if has_secret(d, name) {
                let i = choose|i: int| 0 <= i < d.len() && d[i].0 == name;
                assert(secrets[i] == d[i]);
            }
        }
        assert(secrets[secrets.len() - 1].0 != name);
        lemma_secret_changes_untouched(d, proxy_mode, name);
        let rest = secret_changes(d, proxy_mode);
        let c = EnvChange::Assign(secrets.last().0, secrets.last().1);
        lemma_push_drop_last(rest, c);
    }
}

proof fn lemma_secret_changes_withheld(secrets: Seq<(Seq<char>, Seq<char>)>, proxy_mode: bool, name: Seq<char>)
    requires
        withheld(proxy_mode, name),
    ensures
        final_value(secret_changes(secrets, proxy_mode), name) is None,
    decreases secrets.len(),
{
    if secrets.len() > 0 {
        let d = secrets.drop_last();
        lemma_secret_changes_withheld(d, proxy_mode, name);
        let rest = secret_changes(d, proxy_mode);
        let c = EnvChange::Assign(secrets.last().0, secrets.last().1);
        lemma_push_drop_last(rest, c);
    }
}

proof fn lemma_secret_changes_last_wins(secrets: Seq<(Seq<char>, Seq<char>)>, proxy_mode: bool, i: int)
    requires
        0 <= i < secrets.len(),
        !withheld(proxy_mode, secrets[i].0),
        forall|j: int| 0 <= j < secrets.len() && j != i ==> secrets[j].0 != secrets[i].0,
    ensures
        final_value(secret_changes(secrets, proxy_mode), secrets[i].0) == Some(Some(secrets[i].1)),
    decreases secrets.len(),
{
    let name = secrets[i].0;
    let d = secrets.drop_last();
    let rest = secret_changes(d, proxy_mode);
    let c = EnvChange::Assign(secrets.last().0, secrets.last().1);
    lemma_push_drop_last(rest, c);
    if i < secrets.len() - 1 {
        assert(d[i] == secrets[i]);
        assert forall|j: int| 0 <= j < d.len() && j != i implies d[j].0 != d[i].0 by {
            assert(d[j] == secrets[j]);
        }
        lemma_secret_changes_last_wins(d, proxy_mode, i);
        assert(secrets[secrets.len() - 1].0 != name);
    }
}

proof fn lemma_final_value_push(s: Seq<EnvChange>, c: EnvChange, name: Seq<char>)
    ensures
        final_value(s.push(c), name) == if change_key(c) == name {
            Some(change_value(c))
        } else {
            final_value(s, name)
        },
{
    lemma_push_drop_last(s, c);
}

proof fn lemma_final_value_pushes()
    ensures
        forall|s: Seq<EnvChange>, c: EnvChange, name: Seq<char>|
            #[trigger] final_value(s.push(c), name) == if change_key(c) == name {
                Some(change_value(c))
            } else {
                final_value(s, name)
            },
{
    assert forall|s: Seq<EnvChange>, c: EnvChange, name: Seq<char>|
        #[trigger] final_value(s.push(c), name) == if change_key(c) == name {
            Some(change_value(c))
        } else {
            final_value(s, name)
        } by {
        lemma_final_value_push(s, c, name);
    }
}

proof fn lemma_key_lengths()
    ensures
        "CLOAK_MASTER_KEY"@.len() == 16,
        "CLOAK_PROXY_TOKEN"@.len() == 17,
        "OPENAI_BASE_URL"@.len() == 15,
        "OPENAI_API_KEY"@.len() == 14,
        "ANTHROPIC_BASE_URL"@.len() == 18,
        "ANTHROPIC_API_KEY"@.len() == 17,
        "HTTP_PROXY"@.len() == 10,
        "HTTPS_PROXY"@.len() == 11,
        "ALL_PROXY"@.len() == 9,
        "http_proxy"@.len() == 10,
        "https_proxy"@.len() == 11,
        "all_proxy"@.len() == 9,
        "NO_PROXY"@.len() == 8,
        "no_proxy"@.len() == 8,
        "SSL_CERT_FILE"@.len() == 13,
        "REQUESTS_CA_BUNDLE"@.len() == 18,
        "CURL_CA_BUNDLE"@.len() == 14,
        "NODE_EXTRA_CA_CERTS"@.len() == 19,
        "CURL_CA_BUNDLE"@ != "OPENAI_API_KEY"@,
        "REQUESTS_CA_BUNDLE"@ != "ANTHROPIC_BASE_URL"@,
{
    reveal_strlit("CLOAK_MASTER_KEY");
    reveal_strlit("CLOAK_PROXY_TOKEN");
    reveal_strlit("OPENAI_BASE_URL");
    reveal_strlit("OPENAI_API_KEY");
    reveal_strlit("ANTHROPIC_BASE_URL");
    reveal_strlit("ANTHROPIC_API_KEY");
    reveal_strlit("HTTP_PROXY");
    reveal_strlit("HTTPS_PROXY");
    reveal_strlit("ALL_PROXY");
    reveal_strlit("http_proxy");
    reveal_strlit("https_proxy");
    reveal_strlit("all_proxy");
    reveal_strlit("NO_PROXY");
    reveal_strlit("no_proxy");
    reveal_strlit("SSL_CERT_FILE");
    reveal_strlit("REQUESTS_CA_BUNDLE");
    reveal_strlit("CURL_CA_BUNDLE");
    reveal_strlit("NODE_EXTRA_CA_CERTS");
    assert("CURL_CA_BUNDLE"@[0] != "OPENAI_API_KEY"@[0]);
    assert("REQUESTS_CA_BUNDLE"@[0] != "ANTHROPIC_BASE_URL"@[0]);
}

proof fn lemma_routing_keys(port: u16, t: Seq<char>)
    ensures
        final_value(proxy_routing(port, t), "OPENAI_API_KEY"@) == Some(Some(t)),
        final_value(proxy_routing(port, t), "ANTHROPIC_API_KEY"@) == Some(Some(t)),
        final_value(proxy_routing(port, t), "CLOAK_MASTER_KEY"@) is None,
{
    lemma_key_lengths();
    lemma_final_value_pushes();
}

proof fn lemma_ca_keys(path: Seq<char>)
    ensures
        final_value(ca_bundle(path), "OPENAI_API_KEY"@) is None,
        final_value(ca_bundle(path), "ANTHROPIC_API_KEY"@) is None,
        final_value(ca_bundle(path), "CLOAK_MASTER_KEY"@) is None,
{
    lemma_key_lengths();
    lemma_final_value_pushes();
}

proof fn lemma_removed_keys()
    ensures
        final_value(proxy_vars_removed(), "CLOAK_PROXY_TOKEN"@) == Some(None::<Seq<char>>),
        final_value(proxy_vars_removed(), "CLOAK_MASTER_KEY"@) is None,
{
    lemma_key_lengths();
    lemma_final_value_pushes();
}

/// The changes made before the secrets are set.
pub open spec fn plan_prefix(
    inject_proxy_token: bool,
    proxy_mode: bool,
    port: u16,
    token: Option<Seq<char>>,
    ca_path: Option<Seq<char>>,
) -> Seq<EnvChange> {
    env_plan(Seq::empty(), inject_proxy_token, proxy_mode, port, token, ca_path)
}

proof fn lemma_plan_split(
    secrets: Seq<(Seq<char>, Seq<char>)>,
    inject_proxy_token: bool,
    proxy_mode: bool,
    port: u16,
    token: Option<Seq<char>>,
    ca_path: Option<Seq<char>>,
    name: Seq<char>,
)
    ensures
        final_value(env_plan(secrets, inject_proxy_token, proxy_mode, port, token, ca_path), name)
            == match final_value(secret_changes(secrets, proxy_mode), name) {
            Some(v) => Some(v),
            None => final_value(plan_prefix(inject_proxy_token, proxy_mode, port, token, ca_path), name),
        },
{
    let pre = plan_prefix(inject_proxy_token, proxy_mode, port, token, ca_path);
    assert(secret_changes(Seq::<(Seq<char>, Seq<char>)>::empty(), proxy_mode) =~= Seq::<EnvChange>::empty());
    assert(pre + Seq::<EnvChange>::empty() =~= pre);
    assert(env_plan(secrets, inject_proxy_token, proxy_mode, port, token, ca_path) =~= pre + secret_changes(secrets, proxy_mode));
    lemma_final_value_concat(pre, secret_changes(secrets, proxy_mode), name);
}

/// The master passphrase never reaches the child: `CLOAK_MASTER_KEY` ends
/// up removed, whatever the secrets are.
pub proof fn law_master_key_stripped(
    secrets: Seq<(Seq<char>, Seq<char>)>,
    inject_proxy_token: bool,
    proxy_mode: bool,
    port: u16,
    token: Option<Seq<char>>,
    ca_path: Option<Seq<char>>,
)
    ensures
        final_value(env_plan(secrets, inject_proxy_token, proxy_mode, port, token, ca_path), "CLOAK_MASTER_KEY"@)
            == Some(None::<Seq<char>>),
{
    let name = "CLOAK_MASTER_KEY"@;
    lemma_key_lengths();
    lemma_secret_changes_withheld(secrets, proxy_mode, name);
    lemma_plan_split(secrets, inject_proxy_token, proxy_mode, port, token, ca_path, name);
    let head = seq![EnvChange::Remove(name)];
    let tail = plan_prefix(inject_proxy_token, proxy_mode, port, token, ca_path).subrange(1, plan_prefix(inject_proxy_token, proxy_mode, port, token, ca_path).len() as int);
    assert(plan_prefix(inject_proxy_token, proxy_mode, port, token, ca_path) =~= head + tail);
    lemma_final_value_pushes();
    assert(final_value(tail, name) is None) by {
        lemma_removed_keys();
        if proxy_mode || inject_proxy_token {
            if let Some(t) = token {
                let tok = seq![EnvChange::Assign("CLOAK_PROXY_TOKEN"@, t)];
                if proxy_mode {
                    let ca = match ca_path {
                        Some(p) => ca_bundle(p),
                        None => Seq::<EnvChange>::empty(),
                    };
                    if let Some(p) = ca_path {
                        lemma_ca_keys(p);
                    }
                    lemma_routing_keys(port, t);
                    lemma_final_value_concat(proxy_routing(port, t), ca, name);
                    assert(tail =~= tok + (proxy_routing(port, t) + ca));
                    lemma_final_value_concat(tok, proxy_routing(port, t) + ca, name);
                } else {
                    assert(tail =~= tok);
                }
            } else {
                assert(tail =~= Seq::<EnvChange>::empty());
            }
        } else {
            assert(tail =~= proxy_vars_removed());
        }
    }
    lemma_final_value_concat(head, tail, name);
}

/// In proxy mode the child sees the session token, never the stored
/// provider key, as `OPENAI_API_KEY` (and likewise `ANTHROPIC_API_KEY`).
pub proof fn law_provider_keys_shielded(
    secrets: Seq<(Seq<char>, Seq<char>)>,
    inject_proxy_token: bool,
    port: u16,
    token: Seq<char>,
    ca_path: Option<Seq<char>>,
)
    ensures
        final_value(env_plan(secrets, inject_proxy_token, true, port, Some(token), ca_path), "OPENAI_API_KEY"@)
            == Some(Some(token)),
        final_value(env_plan(secrets, inject_proxy_token, true, port, Some(token), ca_path), "ANTHROPIC_API_KEY"@)
            == Some(Some(token)),
{
    lemma_key_lengths();
    let ca = match ca_path {
        Some(p) => ca_bundle(p),
        None => Seq::<EnvChange>::empty(),
    };
    if let Some(p) = ca_path {
        lemma_ca_keys(p);
    }
    lemma_routing_keys(port, token);
    let head = seq![EnvChange::Remove("CLOAK_MASTER_KEY"@)];
    let tok = seq![EnvChange::Assign("CLOAK_PROXY_TOKEN"@, token)];
    let pre = plan_prefix(inject_proxy_token, true, port, Some(token), ca_path);
    assert(pre =~= (head + tok) + (proxy_routing(port, token) + ca));
    let o = "OPENAI_API_KEY"@;
    let a = "ANTHROPIC_API_KEY"@;
    lemma_secret_changes_withheld(secrets, true, o);
    lemma_secret_changes_withheld(secrets, true, a);
    lemma_plan_split(secrets, inject_proxy_token, true, port, Some(token), ca_path, o);
    lemma_plan_split(secrets, inject_proxy_token, true, port, Some(token), ca_path, a);
    lemma_final_value_concat(proxy_routing(port, token), ca, o);
    lemma_final_value_concat(proxy_routing(port, token), ca, a);
    lemma_final_value_concat(head + tok, proxy_routing(port, token) + ca, o);
    lemma_final_value_concat(head + tok, proxy_routing(port, token) + ca, a);
}

/// Without the proxy and without the token asked for, the child inherits
/// no session token (unless a secret is itself named `CLOAK_PROXY_TOKEN`).
pub proof fn law_proxy_token_stripped(
    secrets: Seq<(Seq<char>, Seq<char>)>,
    port: u16,
    token: Option<Seq<char>>,
    ca_path: Option<Seq<char>>,
)
    requires
        !has_secret(secrets, "CLOAK_PROXY_TOKEN"@),
    ensures
        final_value(env_plan(secrets, false, false, port, token, ca_path), "CLOAK_PROXY_TOKEN"@)
            == Some(None::<Seq<char>>),
{
    let name = "CLOAK_PROXY_TOKEN"@;
    let head = seq![EnvChange::Remove("CLOAK_MASTER_KEY"@)];
    lemma_secret_changes_untouched(secrets, false, name);
    lemma_plan_split(secrets, false, false, port, token, ca_path, name);
    lemma_removed_keys();
    assert(plan_prefix(false, false, port, token, ca_path) =~= head + proxy_vars_removed());
    lemma_final_value_concat(head, proxy_vars_removed(), name);
}

/// Every stored secret reaches the child under its own name with its value,
/// except one named like the master passphrase and the provider keys in
/// proxy mode (when secret names are distinct).
pub proof fn law_secrets_injected(
    secrets: Seq<(Seq<char>, Seq<char>)>,
    inject_proxy_token: bool,
    proxy_mode: bool,
    port: u16,
    token: Option<Seq<char>>,
    ca_path: Option<Seq<char>>,
    i: int,
)
    requires
        0 <= i < secrets.len(),
        !withheld(proxy_mode, secrets[i].0),
        forall|j: int| 0 <= j < secrets.len() && j != i ==> secrets[j].0 != secrets[i].0,
    ensures
        final_value(env_plan(secrets, inject_proxy_token, proxy_mode, port, token, ca_path), secrets[i].0)
            == Some(Some(secrets[i].1)),
{
    lemma_secret_changes_last_wins(secrets, proxy_mode, i);
    lemma_plan_split(secrets, inject_proxy_token, proxy_mode, port, token, ca_path, secrets[i].0);
}

proof fn lemma_routing_urls(port: u16, t: Seq<char>)
    ensures
        final_value(proxy_routing(port, t), "ANTHROPIC_BASE_URL"@) == Some(Some(proxy_url(port))),
        final_value(proxy_routing(port, t), "OPENAI_BASE_URL"@) == Some(Some(proxy_url(port) + "/v1"@)),
{
    lemma_key_lengths();
    lemma_final_value_pushes();
}

proof fn lemma_ca_urls(path: Seq<char>)
    ensures
        final_value(ca_bundle(path), "ANTHROPIC_BASE_URL"@) is None,
        final_value(ca_bundle(path), "OPENAI_BASE_URL"@) is None,
{
    lemma_key_lengths();
    lemma_final_value_pushes();
}

/// In proxy mode (with the session token) the child's Anthropic base URL is
/// the proxy's address `http://127.0.0.1:<port>` with no path, and its
/// OpenAI base URL is that address followed by `/v1` (unless a stored
/// secret itself has one of these names).
pub proof fn law_proxy_base_urls(
    secrets: Seq<(Seq<char>, Seq<char>)>,
    inject_proxy_token: bool,
    port: u16,
    token: Seq<char>,
    ca_path: Option<Seq<char>>,
)
    requires
        !has_secret(secrets, "ANTHROPIC_BASE_URL"@),
        !has_secret(secrets, "OPENAI_BASE_URL"@),
    ensures
        final_value(env_plan(secrets, inject_proxy_token, true, port, Some(token), ca_path), "ANTHROPIC_BASE_URL"@)
            == Some(Some("http://127.0.0.1:"@ + decimal(port as nat))),
        final_value(env_plan(secrets, inject_proxy_token, true, port, Some(token), ca_path), "OPENAI_BASE_URL"@)
            == Some(Some("http://127.0.0.1:"@ + decimal(port as nat) + "/v1"@)),
{
    let ca = match ca_path {
        Some(p) => ca_bundle(p),
        None => Seq::<EnvChange>::empty(),
    };
    if let Some(p) = ca_path {
        lemma_ca_urls(p);
    }
    lemma_routing_urls(port, token);
    let head = seq![EnvChange::Remove("CLOAK_MASTER_KEY"@)];
    let tok = seq![EnvChange::Assign("CLOAK_PROXY_TOKEN"@, token)];
    let pre = plan_prefix(inject_proxy_token, true, port, Some(token), ca_path);
    assert(pre =~= (head + tok) + (proxy_routing(port, token) + ca));
    let a = "ANTHROPIC_BASE_URL"@;
    let o = "OPENAI_BASE_URL"@;
    lemma_secret_changes_untouched(secrets, true, a);
    lemma_secret_changes_untouched(secrets, true, o);
    lemma_plan_split(secrets, inject_proxy_token, true, port, Some(token), ca_path, a);
    lemma_plan_split(secrets, inject_proxy_token, true, port, Some(token), ca_path, o);
    lemma_final_value_concat(proxy_routing(port, token), ca, a);
    lemma_final_value_concat(proxy_routing(port, token), ca, o);
    lemma_final_value_concat(head + tok, proxy_routing(port, token) + ca, a);
    lemma_final_value_concat(head + tok, proxy_routing(port, token) + ca, o);
}

} // verus!
