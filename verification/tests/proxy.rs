use base64::Engine;
use cloak::proxy::{
    active_proxy_port, ai_proxy_forwards_header, basic_credentials_match, chrono_timestamp,
    constant_time_compare, detect_provider, get_or_create_session_token, is_allowed_ai_path,
    new_session_token, provider_key_name, proxy_info_path, token_file_path, upstream_url,
    verify_auth, AiProvider, AuthHeaders,
};

fn no_headers() -> AuthHeaders {
    AuthHeaders {
        authorization: None,
        proxy_authorization: None,
        cloak_token: None,
    }
}

#[test]
fn test_detect_provider() {
    let (p, _) = detect_provider("/v1/chat/completions", None, None);
    assert!(matches!(p, AiProvider::OpenAI));

    let (p2, _) = detect_provider("/v1/messages", None, None);
    assert!(matches!(p2, AiProvider::Anthropic));
}

#[test]
fn test_verify_auth() {
    let token = "secret-token-12345";
    let mut headers = no_headers();

    assert!(!verify_auth(&headers, token));

    headers.authorization = Some("Bearer secret-token-12345".to_string());
    assert!(verify_auth(&headers, token));

    headers = no_headers();
    headers.cloak_token = Some("secret-token-12345".to_string());
    assert!(verify_auth(&headers, token));

    headers = no_headers();
    headers.proxy_authorization = Some("Bearer secret-token-12345".to_string());
    assert!(verify_auth(&headers, token));

    headers = no_headers();
    let basic = base64::engine::general_purpose::STANDARD.encode("cloak:secret-token-12345");
    headers.proxy_authorization = Some(format!("Basic {}", basic));
    assert!(verify_auth(&headers, token));
}

#[test]
fn verify_auth_rejects_wrong_tokens() {
    let token = "secret-token-12345";
    let mut headers = no_headers();
    headers.authorization = Some("Bearer secret-token-1234".to_string());
    assert!(!verify_auth(&headers, token));
    headers.authorization = Some("secret-token-12345".to_string());
    assert!(!verify_auth(&headers, token));
    // Basic credentials are only read from Proxy-Authorization.
    let basic = base64::engine::general_purpose::STANDARD.encode("cloak:secret-token-12345");
    headers.authorization = Some(format!("Basic {}", basic));
    assert!(!verify_auth(&headers, token));
    headers = no_headers();
    headers.proxy_authorization = Some("Basic !!!not-base64".to_string());
    assert!(!verify_auth(&headers, token));
    headers.proxy_authorization = Some(format!(
        "Basic {}",
        base64::engine::general_purpose::STANDARD.encode("cloak:other")
    ));
    assert!(!verify_auth(&headers, token));
}

#[test]
fn verify_auth_accepts_token_as_basic_user_and_trims() {
    let token = "tok";
    let mut headers = no_headers();
    headers.proxy_authorization = Some(format!(
        "Basic {}",
        base64::engine::general_purpose::STANDARD.encode("tok:whatever")
    ));
    assert!(verify_auth(&headers, token));
    headers = no_headers();
    headers.cloak_token = Some("  tok  ".to_string());
    assert!(verify_auth(&headers, token));
    headers = no_headers();
    headers.authorization = Some("Bearer   tok ".to_string());
    assert!(verify_auth(&headers, token));
}

#[test]
fn basic_credentials_need_utf8() {
    assert!(!basic_credentials_match(Some(vec![0xff, 0xfe]), "tok"));
    assert!(!basic_credentials_match(None, "tok"));
    assert!(basic_credentials_match(Some(b"user:tok".to_vec()), "tok"));
    assert!(basic_credentials_match(Some(b"tok".to_vec()), "tok"));
    // Only the first ':' splits: the password keeps later colons.
    assert!(basic_credentials_match(Some(b"user:to:k".to_vec()), "to:k"));
}

#[test]
fn constant_time_compare_is_equality() {
    assert!(constant_time_compare("abc", "abc"));
    assert!(!constant_time_compare("abc", "abd"));
    assert!(!constant_time_compare("abc", "abcd"));
    assert!(constant_time_compare("", ""));
}

#[test]
fn detect_provider_uses_configured_upstreams() {
    let (p, base) = detect_provider(
        "/v1/messages?beta=true",
        Some("http://localhost:9000".to_string()),
        None,
    );
    assert_eq!(p, AiProvider::Anthropic);
    assert_eq!(base, "http://localhost:9000");
    let (p, base) = detect_provider("/v1/models", None, None);
    assert_eq!(p, AiProvider::OpenAI);
    assert_eq!(base, "https://api.openai.com");
    let (_, base) = detect_provider("/v1/messages", None, None);
    assert_eq!(base, "https://api.anthropic.com");
}

#[test]
fn provider_keys_and_paths() {
    assert_eq!(provider_key_name(AiProvider::OpenAI), "OPENAI_API_KEY");
    assert_eq!(provider_key_name(AiProvider::Anthropic), "ANTHROPIC_API_KEY");
    assert!(is_allowed_ai_path("/v1/chat/completions"));
    assert!(is_allowed_ai_path("/v1/messages"));
    assert!(!is_allowed_ai_path("/v1/files"));
    assert_eq!(
        upstream_url("https://api.openai.com", "/v1/models?x=1"),
        "https://api.openai.com/v1/models?x=1"
    );
}

#[test]
fn ai_proxy_strips_credentials() {
    assert!(!ai_proxy_forwards_header("Authorization"));
    assert!(!ai_proxy_forwards_header("X-Cloak-Token"));
    assert!(!ai_proxy_forwards_header("HOST"));
    assert!(ai_proxy_forwards_header("content-type"));
}

#[test]
fn state_file_paths() {
    assert_eq!(token_file_path(Some("/home/u".to_string())), "/home/u/.cloak/proxy.token");
    assert_eq!(proxy_info_path(None), "./.cloak/proxy.info");
}

#[test]
fn session_token_reuse_and_creation() {
    let t = get_or_create_session_token(Some("  abc123\n".to_string()));
    assert_eq!(t.token, "abc123");
    assert!(!t.fresh);
    let t = get_or_create_session_token(Some(" \n\t".to_string()));
    assert!(t.fresh);
    assert_eq!(t.token.len(), 64);
    let t2 = get_or_create_session_token(None);
    assert!(t2.fresh);
    assert!(t2.token.chars().all(|c| c.is_ascii_hexdigit() && !c.is_ascii_uppercase()));
    let n = new_session_token();
    assert_eq!(n.len(), 64);
    assert_ne!(n, new_session_token());
}

#[test]
fn active_port_is_cut_to_16_bits() {
    assert_eq!(active_proxy_port(Some(4141)), Some(4141));
    assert_eq!(active_proxy_port(Some(65536 + 80)), Some(80));
    assert_eq!(active_proxy_port(None), None);
}

#[test]
fn timestamp_is_decimal_seconds() {
    assert_eq!(chrono_timestamp(0), "0");
    assert_eq!(chrono_timestamp(1700000000), "1700000000");
}
