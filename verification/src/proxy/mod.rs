//! Local AI loopback proxy: client authentication, provider routing and the
//! decisions taken for each proxied request. The network side (listening,
//! forwarding, streaming) runs the decisions made here.

pub mod ca;
pub mod gateway;
pub mod jit;
pub mod rules;

use vstd::prelude::*;
use vstd::utf8::{decode_utf8, encode_utf8, encode_utf8_decode_utf8, valid_utf8};
use crate::codec::{base64_decode, base64_standard_decode, opt_bytes, string_from_utf8};
use crate::crypto::random_32;
use crate::text::{
    decimal, decimal_chars, hex_encode, hex_string, is_blank, before_first, before_first_chars, chars_eq_str, chars_of, copy_range, has_prefix,
    lowercase_chars, starts_with, string_from_chars, trim, trim_chars, unicode_lowercase,
};
use self::rules::opt_view;
use crate::paths::{cloak_dir, cloak_dir_of, join, path_join};

verus! {

/// The upstream AI providers the proxy forwards to.
#[derive(Clone, Copy, Debug, PartialEq, Eq, Structural)]
pub enum AiProvider {
    OpenAI,
    Anthropic,
}

/// A JIT approval request waiting for a decision.
#[derive(Clone, Debug)]
pub struct PendingJitRequest {
    pub id: String,
    pub agent: String,
    pub key: String,
    pub target_endpoint: String,
    pub timestamp: String,
}

/// The decision sent back for a pending JIT request.
#[derive(Clone, Debug)]
pub struct JitDecisionPayload {
    pub id: String,
    /// "once", "always" or "deny".
    pub action: String,
    pub value: Option<String>,
}

/// A JIT request submitted by the CLI or a sub-agent.
#[derive(Clone, Debug)]
pub struct SubmitJitPayload {
    pub agent: String,
    pub key: String,
    pub target_endpoint: Option<String>,
}

// ---------------------------------------------------------------------------
// Files
// ---------------------------------------------------------------------------

/// `~/.cloak/proxy.token`, the proxy session token.
pub fn token_file_path(home: Option<String>) -> (r: String)
    ensures
        r@ == join(cloak_dir_of(opt_view(home)), "proxy.token"@),
{
    let d = cloak_dir(home);
    path_join(d.as_str(), "proxy.token")
}

/// `~/.cloak/proxy.info`, the running proxy's port, pid and scope.
pub fn proxy_info_path(home: Option<String>) -> (r: String)
    ensures
        r@ == join(cloak_dir_of(opt_view(home)), "proxy.info"@),
{
    let d = cloak_dir(home);
    path_join(d.as_str(), "proxy.info")
}

/// The session token to use: the stored one, trimmed, when it is not blank;
/// otherwise a fresh one, which must then be stored.
pub struct SessionToken {
    pub token: String,
    pub fresh: bool,
}

/// Whether `t` is the lower-case hex spelling of 32 bytes.
pub open spec fn is_token_spelling(t: Seq<char>) -> bool {
    exists|bytes: Seq<u8>| bytes.len() == 32 && t == hex_encode(bytes)
}

/// A fresh session token: 32 random bytes in lower-case hex.
pub fn new_session_token() -> (r: String)
    ensures
        is_token_spelling(r@),
{
    let bytes = random_32();
    let t = hex_string(&bytes);
    assert(bytes@.len() == 32);
    t
}

/// Reuses the stored token (`stored` is the token file's content, when it
/// could be read) unless it is blank; otherwise makes a fresh one.
pub fn get_or_create_session_token(stored: Option<String>) -> (r: SessionToken)
    ensures
        match stored {
            Some(c) if !is_blank(c@) => r.token@ == trim(c@) && !r.fresh,
            _ => r.fresh && is_token_spelling(r.token@),
        },
{
    if let Some(c) = &stored {
        let v = chars_of(c.as_str());
        let t = trim_chars(&v);
        if t.len() > 0 {
            return SessionToken { token: string_from_chars(&t), fresh: false };
        }
    }
    SessionToken { token: new_session_token(), fresh: true }
}

/// The `started_at` stamp written to the proxy info file: `now_secs`, the
/// seconds since the Unix epoch, in decimal.
pub fn chrono_timestamp(now_secs: u64) -> (r: String)
    ensures
        r@ == decimal(now_secs as nat),
{
    let d = decimal_chars(now_secs);
    string_from_chars(&d)
}

/// The port of the running proxy, from the `port` recorded in its info
/// file, cut to 16 bits as a `u16` cast does.
pub fn active_proxy_port(recorded: Option<u64>) -> (r: Option<u16>)
    ensures
        r == match recorded {
            Some(p) => Some((p % 65536) as u16),
            None => None::<u16>,
        },
{
    match recorded {
        Some(p) => Some((p % 65536) as u16),
        None => None,
    }
}

// ---------------------------------------------------------------------------
// Session token comparison
// ---------------------------------------------------------------------------

/// Compares two strings byte by byte without stopping at the first
/// difference; true exactly when they are equal.
pub fn constant_time_compare(a: &str, b: &str) -> (r: bool)
    ensures
        r == (a@ == b@),
{
    let a_bytes = a.as_bytes();
    let b_bytes = b.as_bytes();
    proof {
        encode_utf8_decode_utf8(a@);
        encode_utf8_decode_utf8(b@);
    }
    if a_bytes.len() != b_bytes.len() {
        return false;
    }
    let mut diff: u8 = 0;
    let mut i: usize = 0;
    while i < a_bytes.len()
        invariant
            a_bytes@.len() == b_bytes@.len(),
            i <= a_bytes@.len(),
            (diff == 0) == (forall|j: int| 0 <= j < i ==> a_bytes@[j] == b_bytes@[j]),
        decreases a_bytes@.len() - i,
    {
        let x = a_bytes[i];
        let y = b_bytes[i];
        let nd = diff | (x ^ y);
        assert((nd == 0) == (diff == 0 && x == y)) by (bit_vector)
            requires
                nd == diff | (x ^ y),
        ;
        diff = nd;
        i += 1;
    }
    assert(diff == 0 ==> a_bytes@ =~= b_bytes@);
    diff == 0
}

// ---------------------------------------------------------------------------
// Client authentication
// ---------------------------------------------------------------------------

/// The authentication headers of a request, each as the text of its value;
/// `None` when the header is absent or its value is not visible ASCII.
#[derive(Clone, Debug)]
pub struct AuthHeaders {
    /// `Authorization`
    pub authorization: Option<String>,
    /// `Proxy-Authorization`
    pub proxy_authorization: Option<String>,
    /// `X-Cloak-Token`
    pub cloak_token: Option<String>,
}

/// `v` is `Bearer ` followed by the token (surrounding white space ignored).
pub open spec fn bearer_matches(v: Seq<char>, token: Seq<char>) -> bool {
    starts_with(v, "Bearer "@) && trim(v.skip("Bearer "@.len() as int)) == token
}

/// Decoded Basic credentials match when they are UTF-8 and the part before
/// the first `:` (the user), or the part after it (the password), equals
/// the token.
pub open spec fn basic_decoded_matches(decoded: Option<Seq<u8>>, token: Seq<char>) -> bool {
    match decoded {
        Some(d) => valid_utf8(d) && {
            let s = decode_utf8(d);
            let head = before_first(s, ':');
            head == token || (head.len() < s.len() && s.skip(head.len() as int + 1) == token)
        },
        None => false,
    }
}

/// `v` is `Basic ` followed by Base64 credentials that match the token.
pub open spec fn basic_matches(v: Seq<char>, token: Seq<char>) -> bool {
    starts_with(v, "Basic "@) && basic_decoded_matches(
        base64_standard_decode(encode_utf8(trim(v.skip("Basic "@.len() as int)))),
        token,
    )
}

/// Whether a request carries the session token in one of the accepted forms:
/// `Authorization: Bearer <token>`, `Proxy-Authorization: Bearer <token>`,
/// `Proxy-Authorization: Basic <base64(user:token or token:pass)>`, or
/// `X-Cloak-Token: <token>`.
pub open spec fn auth_accepted(h: AuthHeaders, token: Seq<char>) -> bool {
    ||| (h.authorization matches Some(v) && bearer_matches(v@, token))
    ||| (h.proxy_authorization matches Some(v) && (bearer_matches(v@, token) || basic_matches(
        v@,
        token,
    )))
    ||| (h.cloak_token matches Some(v) && trim(v@) == token)
}

fn after_prefix_trimmed(v: &[char], prefix: &str) -> (r: Option<String>)
    ensures
        match r {
            Some(s) => starts_with(v@, prefix@) && s@ == trim(v@.skip(prefix@.len() as int)),
            None => !starts_with(v@, prefix@),
        },
{
    let p = chars_of(prefix);
    if !has_prefix(v, &p) {
        return None;
    }
    let rest = copy_range(v, p.len(), v.len());
    assert(rest@ =~= v@.skip(prefix@.len() as int));
    let t = trim_chars(&rest);
    Some(string_from_chars(&t))
}

fn bearer_token_matches(v: &str, token: &str) -> (r: bool)
    ensures
        r == bearer_matches(v@, token@),
{
    let vc = chars_of(v);
    match after_prefix_trimmed(&vc, "Bearer ") {
        Some(t) => constant_time_compare(t.as_str(), token),
        None => false,
    }
}

/// Whether decoded Basic credentials hold the expected token as user or password.
pub fn basic_credentials_match(decoded: Option<Vec<u8>>, expected_token: &str) -> (r: bool)
    ensures
        r == basic_decoded_matches(opt_bytes(decoded), expected_token@),
{
    let bytes = match decoded {
        Some(b) => b,
        None => return false,
    };
    let ghost d = bytes@;
    let s = match string_from_utf8(bytes) {
        Some(s) => s,
        None => return false,
    };
    let sc = chars_of(s.as_str());
    let head = before_first_chars(&sc, ':');
    let head_s = string_from_chars(&head);
    let head_ok = constant_time_compare(head_s.as_str(), expected_token);
    if head.len() < sc.len() {
        let tail = copy_range(&sc, head.len() + 1, sc.len());
        assert(tail@ =~= sc@.skip(head@.len() as int + 1));
        let tail_s = string_from_chars(&tail);
        let tail_ok = constant_time_compare(tail_s.as_str(), expected_token);
        head_ok || tail_ok
    } else {
        head_ok
    }
}

fn basic_token_matches(v: &str, token: &str) -> (r: bool)
    ensures
        r == basic_matches(v@, token@),
{
    let vc = chars_of(v);
    match after_prefix_trimmed(&vc, "Basic ") {
        Some(t) => {
            let decoded = base64_decode(t.as_str().as_bytes());
            basic_credentials_match(decoded, token)
        },
        None => false,
    }
}

/// Whether the request headers authenticate the client with `expected_token`.
pub fn verify_auth(headers: &AuthHeaders, expected_token: &str) -> (r: bool)
    ensures
        r == auth_accepted(*headers, expected_token@),
{
    if let Some(val) = &headers.authorization {
        if bearer_token_matches(val.as_str(), expected_token) {
            return true;
        }
    }
    if let Some(val) = &headers.proxy_authorization {
        if bearer_token_matches(val.as_str(), expected_token) {
            return true;
        }
        if basic_token_matches(val.as_str(), expected_token) {
            return true;
        }
    }
    if let Some(val) = &headers.cloak_token {
        let vc = chars_of(val.as_str());
        let t = trim_chars(&vc);
        let ts = string_from_chars(&t);
        if constant_time_compare(ts.as_str(), expected_token) {
            return true;
        }
    }
    false
}

// ---------------------------------------------------------------------------
// Provider routing
// ---------------------------------------------------------------------------

/// `o`, or `d` when `o` is `None`.
pub open spec fn or_default(o: Option<Seq<char>>, d: Seq<char>) -> Seq<char> {
    match o {
        Some(v) => v,
        None => d,
    }
}

/// The provider a request path goes to and its base URL: Anthropic for
/// `/v1/messages...` (base overridable by `CLOAK_UPSTREAM_ANTHROPIC`),
/// OpenAI otherwise (base overridable by `CLOAK_UPSTREAM_OPENAI`).
pub open spec fn provider_route(
    path: Seq<char>,
    anthropic_upstream: Option<Seq<char>>,
    openai_upstream: Option<Seq<char>>,
) -> (AiProvider, Seq<char>) {
    if starts_with(path, "/v1/messages"@) {
        (AiProvider::Anthropic, or_default(anthropic_upstream, "https://api.anthropic.com"@))
    } else {
        (AiProvider::OpenAI, or_default(openai_upstream, "https://api.openai.com"@))
    }
}

fn string_or(o: Option<String>, d: &str) -> (r: String)
    ensures
        r@ == or_default(opt_view(o), d@),
{
    match o {
        Some(v) => v,
        None => String::from_str(d),
    }
}

/// Picks the provider for a request path; the upstream overrides are the
/// values of `CLOAK_UPSTREAM_ANTHROPIC` and `CLOAK_UPSTREAM_OPENAI`, if set.
pub fn detect_provider(
    path: &str,
    anthropic_upstream: Option<String>,
    openai_upstream: Option<String>,
) -> (r: (AiProvider, String))
    ensures
        (r.0, r.1@) == provider_route(path@, opt_view(anthropic_upstream), opt_view(openai_upstream)),
{
    let pc = chars_of(path);
    let prefix = chars_of("/v1/messages");
    if has_prefix(&pc, &prefix) {
        (AiProvider::Anthropic, string_or(anthropic_upstream, "https://api.anthropic.com"))
    } else {
        (AiProvider::OpenAI, string_or(openai_upstream, "https://api.openai.com"))
    }
}

/// The vault key that holds a provider's API key.
pub open spec fn provider_key(p: AiProvider) -> Seq<char> {
    match p {
        AiProvider::OpenAI => "OPENAI_API_KEY"@,
        AiProvider::Anthropic => "ANTHROPIC_API_KEY"@,
    }
}

/// The vault key that holds a provider's API key.
pub fn provider_key_name(p: AiProvider) -> (r: String)
    ensures
        r@ == provider_key(p),
{
    match p {
        AiProvider::OpenAI => String::from_str("OPENAI_API_KEY"),
        AiProvider::Anthropic => String::from_str("ANTHROPIC_API_KEY"),
    }
}

/// The paths the AI reverse proxy serves.
pub open spec fn allowed_ai_path(path: Seq<char>) -> bool {
    ||| path == "/v1/chat/completions"@
    ||| path == "/v1/models"@
    ||| path == "/v1/embeddings"@
    ||| path == "/v1/completions"@
    ||| path == "/v1/messages"@
}

/// Whether the AI reverse proxy serves `path`.
pub fn is_allowed_ai_path(path: &str) -> (r: bool)
    ensures
        r == allowed_ai_path(path@),
{
    let p = chars_of(path);
    chars_eq_str(&p, "/v1/chat/completions") || chars_eq_str(&p, "/v1/models") || chars_eq_str(
        &p,
        "/v1/embeddings",
    ) || chars_eq_str(&p, "/v1/completions") || chars_eq_str(&p, "/v1/messages")
}

/// The upstream URL: the provider base followed by the request's path and query.
pub fn upstream_url(base: &str, path_and_query: &str) -> (r: String)
    ensures
        r@ == base@ + path_and_query@,
{
    String::from_str(base).concat(path_and_query)
}

// ---------------------------------------------------------------------------
// Header forwarding
// ---------------------------------------------------------------------------

/// Client headers the AI reverse proxy never forwards (compared in lower case).
pub open spec fn ai_proxy_strips(l: Seq<char>) -> bool {
    ||| l == "host"@
    ||| l == "authorization"@
    ||| l == "proxy-authorization"@
    ||| l == "x-api-key"@
    ||| l == "x-cloak-token"@
    ||| l == "cookie"@
}

/// Whether the AI reverse proxy forwards a client header upstream.
pub fn ai_proxy_forwards_header(name: &str) -> (r: bool)
    ensures
        r == !ai_proxy_strips(unicode_lowercase(name@)),
{
    let n = chars_of(name);
    let l = lowercase_chars(&n);
    !(chars_eq_str(&l, "host") || chars_eq_str(&l, "authorization") || chars_eq_str(
        &l,
        "proxy-authorization",
    ) || chars_eq_str(&l, "x-api-key") || chars_eq_str(&l, "x-cloak-token") || chars_eq_str(
        &l,
        "cookie",
    ))
}

/// Client headers the forwarding gateway never forwards (compared in lower case).
pub open spec fn gateway_strips(l: Seq<char>) -> bool {
    ||| starts_with(l, "x-cloak-"@)
    ||| l == "host"@
    ||| l == "authorization"@
    ||| l == "proxy-authorization"@
}

/// Whether the forwarding gateway forwards a client header upstream.
pub fn gateway_forwards_header(name: &str) -> (r: bool)
    ensures
        r == !gateway_strips(unicode_lowercase(name@)),
{
    let n = chars_of(name);
    let l = lowercase_chars(&n);
    let p = chars_of("x-cloak-");
    !(has_prefix(&l, &p) || chars_eq_str(&l, "host") || chars_eq_str(&l, "authorization")
        || chars_eq_str(&l, "proxy-authorization"))
}

/// Client headers the HTTPS interceptor never forwards (compared in lower case).
pub open spec fn mitm_strips(l: Seq<char>) -> bool {
    ||| l == "host"@
    ||| l == "proxy-authorization"@
    ||| l == "proxy-connection"@
    ||| l == "x-cloak-token"@
}

/// Whether the HTTPS interceptor forwards a client header upstream.
pub fn mitm_forwards_header(name: &str) -> (r: bool)
    ensures
        r == !mitm_strips(unicode_lowercase(name@)),
{
    let n = chars_of(name);
    let l = lowercase_chars(&n);
    !(chars_eq_str(&l, "host") || chars_eq_str(&l, "proxy-authorization") || chars_eq_str(
        &l,
        "proxy-connection",
    ) || chars_eq_str(&l, "x-cloak-token"))
}

/// Whether an upstream response header is passed back to the client
/// (everything but `transfer-encoding`; header names are lower case).
pub fn forwards_response_header(name: &str) -> (r: bool)
    ensures
        r == (name@ != "transfer-encoding"@),
{
    let n = chars_of(name);
    !chars_eq_str(&n, "transfer-encoding")
}

/// Whether a list of (lower-case) header names holds one of `a`, `b`, `c`, `d`.
fn names_contain_any(names: &[String], a: &str, b: &str, c: &str, d: &str) -> (r: bool)
    ensures
        r == exists|k: int|
            0 <= k < names@.len() && (names@[k]@ == a@ || names@[k]@ == b@ || names@[k]@ == c@
                || names@[k]@ == d@),
{
    let mut i: usize = 0;
    while i < names.len()
        invariant
            i <= names@.len(),
            forall|k: int|
                0 <= k < i ==> !(names@[k]@ == a@ || names@[k]@ == b@ || names@[k]@ == c@
                    || names@[k]@ == d@),
        decreases names@.len() - i,
    {
        let n = chars_of(names[i].as_str());
        if chars_eq_str(&n, a) || chars_eq_str(&n, b) || chars_eq_str(&n, c) || chars_eq_str(
            &n,
            d,
        ) {
            return true;
        }
        i += 1;
    }
    false
}

/// Whether the client sent credentials of its own to the forwarding gateway
/// (`authorization`, `x-api-key` or `xi-api-key`).
pub fn gateway_has_client_auth(header_names: &[String]) -> (r: bool)
    ensures
        r == exists|k: int|
            0 <= k < header_names@.len() && (header_names@[k]@ == "authorization"@
                || header_names@[k]@ == "x-api-key"@ || header_names@[k]@ == "xi-api-key"@),
{
    names_contain_any(header_names, "authorization", "x-api-key", "xi-api-key", "xi-api-key")
}

/// Whether the client sent credentials of its own through the HTTPS
/// interceptor (`authorization`, `proxy-authorization`, `x-api-key` or `xi-api-key`).
pub fn mitm_has_client_auth(header_names: &[String]) -> (r: bool)
    ensures
        r == exists|k: int|
            0 <= k < header_names@.len() && (header_names@[k]@ == "authorization"@
                || header_names@[k]@ == "proxy-authorization"@ || header_names@[k]@
                == "x-api-key"@ || header_names@[k]@ == "xi-api-key"@),
{
    names_contain_any(
        header_names,
        "authorization",
        "proxy-authorization",
        "x-api-key",
        "xi-api-key",
    )
}

/// The headers that carry the provider key upstream: `authorization: Bearer
/// <key>` for OpenAI; `x-api-key: <key>` for Anthropic, plus
/// `anthropic-version: 2023-06-01` when the client sent no version.
pub open spec fn provider_auth(p: AiProvider, key: Seq<char>, has_version: bool) -> Seq<
    (Seq<char>, Seq<char>),
> {
    match p {
        AiProvider::OpenAI => seq![("authorization"@, "Bearer "@ + key)],
        AiProvider::Anthropic => if has_version {
            seq![("x-api-key"@, key)]
        } else {
            seq![("x-api-key"@, key), ("anthropic-version"@, "2023-06-01"@)]
        },
    }
}

/// Views of a list of header pairs.
pub open spec fn pair_views(v: Seq<(String, String)>) -> Seq<(Seq<char>, Seq<char>)> {
    v.map_values(|p: (String, String)| (p.0@, p.1@))
}

/// The headers that carry the provider key upstream.
pub fn provider_auth_headers(p: AiProvider, api_key: &str, has_anthropic_version: bool) -> (r: Vec<
    (String, String),
>)
    ensures
        pair_views(r@) == provider_auth(p, api_key@, has_anthropic_version),
{
    let mut r: Vec<(String, String)> = Vec::new();
    match p {
        AiProvider::OpenAI => {
            r.push(
                (String::from_str("authorization"), String::from_str("Bearer ").concat(api_key)),
            );
        },
        AiProvider::Anthropic => {
            r.push((String::from_str("x-api-key"), String::from_str(api_key)));
            if !has_anthropic_version {
                r.push((String::from_str("anthropic-version"), String::from_str("2023-06-01")));
            }
        },
    }
    assert(pair_views(r@) =~= provider_auth(p, api_key@, has_anthropic_version));
    r
}

/// Routing: a path under `/v1/messages` goes to Anthropic, at the
/// configured Anthropic upstream when one is given and at
/// `https://api.anthropic.com` otherwise; every other path goes to OpenAI,
/// at the configured OpenAI upstream when one is given and at
/// `https://api.openai.com` otherwise.
pub proof fn law_provider_routing(path: Seq<char>, anthropic_upstream: Option<Seq<char>>, openai_upstream: Option<Seq<char>>)
    ensures
        starts_with(path, "/v1/messages"@) ==> provider_route(path, anthropic_upstream, openai_upstream)
            == (AiProvider::Anthropic, match anthropic_upstream {
                Some(u) => u,
                None => "https://api.anthropic.com"@,
            }),
        !starts_with(path, "/v1/messages"@) ==> provider_route(path, anthropic_upstream, openai_upstream)
            == (AiProvider::OpenAI, match openai_upstream {
                Some(u) => u,
                None => "https://api.openai.com"@,
            }),
{
}

} // verus!
