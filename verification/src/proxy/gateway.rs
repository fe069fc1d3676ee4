//! Decisions of the forwarding gateway and of the HTTPS interceptor: which
//! secret a request gets, how it is attached, and where the request goes.

use vstd::prelude::*;
use crate::text::{
    chars_of, copy_range, decimal, decimal_chars, extend_chars, split_chars, split_on,
    string_from_chars, views,
};
use super::rules::{
    bearer_header_injection, bearer_injection, matched_or_inferred, opt_view, parse_injection,
    string_views, InjectionModel, RuleRegistry, SecretInjection,
};

verus! {

// ---------------------------------------------------------------------------
// Which secret, and how
// ---------------------------------------------------------------------------

/// The secret a gateway request gets and how it is attached. A secret
/// named by the client (`X-Cloak-Secret`) wins, injected as `X-Cloak-Inject-As`
/// says (bearer `Authorization` when unsaid); otherwise the matched or
/// inferred rule for the target host decides; otherwise no secret.
pub open spec fn gateway_plan(
    explicit_secret: Option<Seq<char>>,
    inject_as: Option<Seq<char>>,
    rule: Option<super::rules::RuleModel>,
) -> (Option<Seq<char>>, InjectionModel) {
    match explicit_secret {
        Some(s) => (
            Some(s),
            match inject_as {
                Some(i) => parse_injection(i),
                None => bearer_injection(),
            },
        ),
        None => match rule {
            Some(r) => (Some(r.secret), r.inject),
            None => (None, bearer_injection()),
        },
    }
}

/// The secret a gateway request to `host` gets and how it is attached.
/// `available_keys` are the keys of the active and global scopes; they are
/// only consulted when the client names no secret.
pub fn gateway_secret_plan(
    explicit_secret: Option<String>,
    inject_as: Option<String>,
    host: &str,
    rules: &RuleRegistry,
    available_keys: &[String],
    has_client_auth: bool,
) -> (r: (Option<String>, SecretInjection))
    ensures
        (opt_view(r.0), r.1@) == gateway_plan(
            opt_view(explicit_secret),
            opt_view(inject_as),
            matched_or_inferred(rules@, host@, string_views(available_keys@), has_client_auth),
        ),
{
    match explicit_secret {
        Some(s) => {
            let inj = match inject_as {
                Some(i) => SecretInjection::parse(i.as_str()),
                None => bearer_header_injection(),
            };
            (Some(s), inj)
        },
        None => match rules.match_or_infer(host, available_keys, has_client_auth) {
            Some(rule) => (Some(rule.secret), rule.inject),
            None => (None, bearer_header_injection()),
        },
    }
}

// ---------------------------------------------------------------------------
// Gateway target URLs
// ---------------------------------------------------------------------------

/// What `Url::parse` (the `url` crate, as `reqwest::Url`) makes of `input`:
/// the URL's serialization and its host (empty when it has none), or the
/// text of the parse error. A function of the input only.
pub uninterp spec fn url_parse(input: Seq<char>) -> Result<(Seq<char>, Seq<char>), Seq<char>>;

/// The view of a parse outcome.
pub open spec fn url_result_view(r: Result<(String, String), String>) -> Result<(Seq<char>, Seq<char>), Seq<char>> {
    match r {
        Ok((u, h)) => Ok((u@, h@)),
        Err(e) => Err(e@),
    }
}

/// `reqwest::Url::parse`: the serialization and host of the URL, or the
/// parse error's text.
#[verifier::external_body]
fn parse_url(input: &str) -> (r: Result<(String, String), String>)
    ensures
        url_result_view(r) == url_parse(input@),
{
    match reqwest::Url::parse(input) {
        Ok(u) => Ok((u.as_str().to_string(), u.host_str().unwrap_or("").to_string())),
        Err(e) => Err(e.to_string()),
    }
}

/// What `query_pairs_mut().append_pair(key, value)` makes of the URL whose
/// serialization is `url` (the pair form-urlencoded and added to the
/// query); `None` when `url` does not parse. A function of its inputs only.
pub uninterp spec fn url_with_query_pair(url: Seq<char>, key: Seq<char>, value: Seq<char>) -> Option<Seq<char>>;

/// `form_urlencoded` `append_pair` on the query of the URL `url` (parsed
/// back with `reqwest::Url::parse`), serialized again.
#[verifier::external_body]
fn append_url_query_pair(url: &str, key: &str, value: &str) -> (r: Option<String>)
    ensures
        opt_view(r) == url_with_query_pair(url@, key@, value@),
{
    let mut u = reqwest::Url::parse(url).ok()?;
    u.query_pairs_mut().append_pair(key, value);
    Some(u.as_str().to_string())
}

/// Why a forwarding-gateway request was refused.
#[derive(Clone, Debug, PartialEq, Eq)]
pub enum GatewayError {
    /// `X-Cloak-Target` is not a URL; the parse error's text.
    InvalidTarget(String),
    /// The secret could not be added to the target URL's query.
    QueryNotAppended,
}

impl GatewayError {
    /// The message answered with the refusal.
    pub fn message(&self) -> (r: String)
        ensures
            r@ == match self {
                GatewayError::InvalidTarget(e) => "Invalid X-Cloak-Target URL: "@ + e@,
                GatewayError::QueryNotAppended => "Failed to add the secret to the target URL"@,
            },
    {
        match self {
            GatewayError::InvalidTarget(e) => String::from_str("Invalid X-Cloak-Target URL: ").concat(e.as_str()),
            GatewayError::QueryNotAppended => String::from_str("Failed to add the secret to the target URL"),
        }
    }
}

/// Where a gateway request goes and which secret it gets.
#[derive(Clone, Debug)]
pub struct GatewayTarget {
    /// The parsed target URL, serialized.
    pub url: String,
    /// Its host (empty when it has none).
    pub host: String,
    /// The secret to attach, if any.
    pub secret: Option<String>,
    /// How the secret is attached.
    pub injection: SecretInjection,
}

/// Reads the `X-Cloak-Target` header `target` and plans the secret for the
/// request: the one the client names (`explicit_secret`, attached as
/// `inject_as` says, else as a bearer token), else the one a rule gives or
/// infers for the target's host.
pub fn gateway_target(
    target: &str,
    explicit_secret: Option<String>,
    inject_as: Option<String>,
    rules: &RuleRegistry,
    available_keys: &[String],
    has_client_auth: bool,
) -> (r: Result<GatewayTarget, GatewayError>)
    ensures
        match url_parse(target@) {
            Err(e) => r matches Err(GatewayError::InvalidTarget(m)) && m@ == e,
            Ok((u, h)) => r matches Ok(t) && t.url@ == u && t.host@ == h && (
            opt_view(t.secret),
            t.injection@,
            ) == gateway_plan(
                opt_view(explicit_secret),
                opt_view(inject_as),
                matched_or_inferred(rules@, h, string_views(available_keys@), has_client_auth),
            ),
        },
{
    match parse_url(target) {
        Err(e) => Err(GatewayError::InvalidTarget(e)),
        Ok((url, host)) => {
            let (secret, injection) = gateway_secret_plan(
                explicit_secret,
                inject_as,
                host.as_str(),
                rules,
                available_keys,
                has_client_auth,
            );
            Ok(GatewayTarget { url, host, secret, injection })
        },
    }
}

/// The URL a gateway request is sent to once the secret is known, and the
/// header that carries the secret: a query injection adds `param=secret` to
/// the URL's query (form-urlencoded); a header injection leaves the URL as
/// it is and yields `(name, prefix + secret)`.
pub fn gateway_inject(url: &str, injection: &SecretInjection, secret: &str) -> (r: Result<
    (String, Option<(String, String)>),
    GatewayError,
>)
    ensures
        match injection@ {
            InjectionModel::Query { param } => match url_with_query_pair(url@, param, secret@) {
                Some(u) => r matches Ok((v, h)) && v@ == u && h is None,
                None => r == Err::<(String, Option<(String, String)>), GatewayError>(
                    GatewayError::QueryNotAppended,
                ),
            },
            InjectionModel::Header { name, prefix } => r matches Ok((v, Some((n, hv)))) && v@
                == url@ && n@ == name && hv@ == match prefix {
                Some(p) => p + secret@,
                None => secret@,
            },
        },
{
    match injection {
        SecretInjection::Query { param } => match append_url_query_pair(url, param.as_str(), secret) {
            Some(u) => Ok((u, None)),
            None => Err(GatewayError::QueryNotAppended),
        },
        SecretInjection::Header { name, prefix } => {
            let v = injection_header_value(prefix, secret);
            Ok((String::from_str(url), Some((name.clone(), v))))
        },
    }
}

/// The value of an injected header: the prefix (if any) followed by the secret.
pub fn injection_header_value(prefix: &Option<String>, secret: &str) -> (r: String)
    ensures
        r@ == match opt_view(*prefix) {
            Some(p) => p + secret@,
            None => secret@,
        },
{
    match prefix {
        Some(p) => p.clone().concat(secret),
        None => String::from_str(secret),
    }
}

/// `url` with `param=value` appended to its query, verbatim.
pub open spec fn with_query_param(url: Seq<char>, param: Seq<char>, value: Seq<char>) -> Seq<
    char,
> {
    let sep = if url.contains('?') {
        "&"@
    } else {
        "?"@
    };
    url + sep + param + "="@ + value
}

/// Appends `param=value` to the query of `url` without escaping.
pub fn append_query_param(url: &str, param: &str, value: &str) -> (r: String)
    ensures
        r@ == with_query_param(url@, param@, value@),
{
    let u = chars_of(url);
    let mut has_q = false;
    let mut i: usize = 0;
    while i < u.len()
        invariant
            i <= u@.len(),
            u@ == url@,
            has_q == exists|k: int| 0 <= k < i && u@[k] == '?',
        decreases u@.len() - i,
    {
        if u[i] == '?' {
            has_q = true;
        }
        i += 1;
    }
    let sep = if has_q {
        "&"
    } else {
        "?"
    };
    String::from_str(url).concat(sep).concat(param).concat("=").concat(value)
}

// ---------------------------------------------------------------------------
// HTTPS interception targets
// ---------------------------------------------------------------------------

/// Whether `c` is an ASCII digit.
pub open spec fn is_digit(c: char) -> bool {
    '0' <= c <= '9'
}

/// The number the ASCII digits `d` spell.
pub open spec fn digits_value(d: Seq<char>) -> nat
    decreases d.len(),
{
    if d.len() == 0 {
        0
    } else {
        digits_value(d.drop_last()) * 10 + ((d.last() as u32) - 48) as nat
    }
}

/// The digits of an unsigned number: `s` without one leading `+`.
pub open spec fn unsigned_digits(s: Seq<char>) -> Seq<char> {
    if s.len() > 0 && s[0] == '+' {
        s.skip(1)
    } else {
        s
    }
}

/// Whether every character of `d` is an ASCII digit.
pub open spec fn all_digits(d: Seq<char>) -> bool {
    forall|i: int| 0 <= i < d.len() ==> is_digit(#[trigger] d[i])
}

/// What `str::parse::<u16>` yields: an optional `+` followed by one or more
/// ASCII digits whose value fits in 16 bits.
pub open spec fn parse_u16_spec(s: Seq<char>) -> Option<u16> {
    let d = unsigned_digits(s);
    if d.len() > 0 && all_digits(d) && digits_value(d) <= 65535 {
        Some(digits_value(d) as u16)
    } else {
        None
    }
}

/// Parses a decimal port number as `str::parse::<u16>` does.
pub fn parse_u16(s: &[char]) -> (r: Option<u16>)
    ensures
        r == parse_u16_spec(s@),
{
    let start: usize = if s.len() > 0 && s[0] == '+' {
        1
    } else {
        0
    };
    let ghost d = unsigned_digits(s@);
    assert(d =~= s@.skip(start as int));
    if start == s.len() {
        assert(d.len() == 0);
        return None;
    }
    let mut acc: u32 = 0;
    let mut i = start;
    let mut overflow = false;
    assert(d.take(0) =~= Seq::<char>::empty());
    while i < s.len()
        invariant
            start <= i <= s@.len(),
            d == s@.skip(start as int),
            d == unsigned_digits(s@),
            forall|k: int| start <= k < i ==> is_digit(s@[k]),
            !overflow ==> acc == digits_value(d.take(i - start)) && acc <= 65535,
            overflow ==> digits_value(d.take(i - start)) > 65535,
        decreases s@.len() - i,
    {
        let c = s[i];
        if !('0' <= c && c <= '9') {
            assert(d[i - start] == c);
            assert(!is_digit(d[i - start]));
            return None;
        }
        let dv = (c as u32) - 48;
        assert(d.take(i + 1 - start).drop_last() =~= d.take(i - start));
        assert(d.take(i + 1 - start).last() == c);
        if !overflow {
            let next = acc * 10 + dv;
            if next > 65535 {
                overflow = true;
            } else {
                acc = next;
            }
        } else {
            assert(digits_value(d.take(i + 1 - start)) >= digits_value(d.take(i - start)) * 10)
                by (nonlinear_arith)
                requires
                    digits_value(d.take(i + 1 - start)) == digits_value(d.take(i - start)) * 10
                        + dv,
            ;
        }
        i += 1;
    }
    assert(d.take(i - start) =~= d);
    assert forall|k: int| 0 <= k < d.len() implies is_digit(d[k]) by {
        assert(d[k] == s@[k + start]);
    }
    if overflow {
        None
    } else {
        Some(acc as u16)
    }
}

/// The host and port of a `CONNECT` authority `host[:port]`; the port is 443
/// when absent or not a valid number.
pub open spec fn authority_parts(authority: Seq<char>) -> (Seq<char>, u16) {
    let parts = split_on(authority, ':');
    let port = if parts.len() >= 2 {
        match parse_u16_spec(parts[1]) {
            Some(p) => p,
            None => 443u16,
        }
    } else {
        443u16
    };
    (parts[0], port)
}

/// Splits a `CONNECT` authority into host and port.
pub fn mitm_host_port(authority: &str) -> (r: (String, u16))
    ensures
        (r.0@, r.1) == authority_parts(authority@),
{
    let a = chars_of(authority);
    let parts = split_chars(&a, ':');
    let ghost ps = split_on(authority@, ':');
    assert(views(parts@)[0] == parts@[0]@);
    let host = string_from_chars(&parts[0]);
    let port = if parts.len() >= 2 {
        assert(views(parts@)[1] == parts@[1]@);
        match parse_u16(&parts[1]) {
            Some(p) => p,
            None => 443,
        }
    } else {
        443
    };
    (host, port)
}

/// The URL an intercepted request is sent to: `https://host` with `:port`
/// unless the port is 443, followed by the path and query.
pub open spec fn mitm_url(host: Seq<char>, port: u16, path_and_query: Seq<char>) -> Seq<char> {
    if port == 443 {
        "https://"@ + host + path_and_query
    } else {
        "https://"@ + host + ":"@ + decimal(port as nat) + path_and_query
    }
}

/// The URL an intercepted request is sent to.
pub fn mitm_target_url(host: &str, port: u16, path_and_query: &str) -> (r: String)
    ensures
        r@ == mitm_url(host@, port, path_and_query@),
{
    if port == 443 {
        String::from_str("https://").concat(host).concat(path_and_query)
    } else {
        let digits = decimal_chars(port as u64);
        let ds = string_from_chars(&digits);
        String::from_str("https://").concat(host).concat(":").concat(ds.as_str()).concat(
            path_and_query,
        )
    }
}

// ---------------------------------------------------------------------------
// Port conflicts at start-up
// ---------------------------------------------------------------------------

/// What to do when the proxy port is already taken.
#[derive(Clone, Copy, Debug, PartialEq, Eq, Structural)]
pub enum PortHolder {
    /// A Cloak proxy that knows our session token holds the port: attach to it.
    AttachToExisting,
    /// Something answers but is not an authenticated Cloak proxy: refuse.
    RefuseUntrusted,
    /// Nothing usable answered the health check: report the bind failure.
    BindFailed,
}

/// The name a Cloak proxy reports in its health answer.
pub open spec fn proxy_identity() -> Seq<char> {
    "Cloak Local AI Loopback Proxy"@
}

/// Classifies the holder of a taken port from its `/health` answer:
/// `health_ok` is whether the answer came back with a success status,
/// `proxy_name` and `authenticated` the fields of its JSON body.
pub open spec fn port_holder(
    health_ok: bool,
    proxy_name: Option<Seq<char>>,
    authenticated: Option<bool>,
) -> PortHolder {
    if !health_ok {
        PortHolder::BindFailed
    } else if proxy_name == Some(proxy_identity()) && authenticated == Some(true) {
        PortHolder::AttachToExisting
    } else {
        PortHolder::RefuseUntrusted
    }
}

/// Classifies the holder of a taken port.
pub fn classify_port_holder(
    health_ok: bool,
    proxy_name: Option<String>,
    authenticated: Option<bool>,
) -> (r: PortHolder)
    ensures
        r == port_holder(health_ok, opt_view(proxy_name), authenticated),
{
    if !health_ok {
        return PortHolder::BindFailed;
    }
    let is_cloak = match &proxy_name {
        Some(n) => {
            let nc = chars_of(n.as_str());
            crate::text::chars_eq_str(&nc, "Cloak Local AI Loopback Proxy")
        },
        None => false,
    };
    let is_auth = match authenticated {
        Some(b) => b,
        None => false,
    };
    if is_cloak && is_auth {
        PortHolder::AttachToExisting
    } else {
        PortHolder::RefuseUntrusted
    }
}

/// A secret the client names is attached as `X-Cloak-Inject-As` says and,
/// when that header is absent, as `Authorization: Bearer <secret>`,
/// whatever rule the host has.
pub proof fn law_named_secret_defaults_to_bearer(
    secret: Seq<char>,
    inject_as: Option<Seq<char>>,
    rule: Option<super::rules::RuleModel>,
)
    ensures
        gateway_plan(Some(secret), inject_as, rule) == (Some(secret), match inject_as {
            Some(i) => parse_injection(i),
            None => InjectionModel::Header { name: "Authorization"@, prefix: Some("Bearer "@) },
        }),
{
}

} // verus!
