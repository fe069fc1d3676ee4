use cloak::proxy::ca::{ca_cert_path, ca_key_path, cert_cache_key, pem_to_der, PemError};
use cloak::proxy::gateway::{
    gateway_inject, gateway_target, GatewayError,
    append_query_param, classify_port_holder, gateway_secret_plan, injection_header_value,
    mitm_host_port, mitm_target_url, PortHolder,
};
use cloak::proxy::rules::{RuleRegistry, SecretInjection};

#[test]
fn explicit_secret_and_rule_plans() {
    let rules = RuleRegistry::default();
    let (s, inj) = gateway_secret_plan(Some("MY_KEY".into()), Some("query:api_key".into()), "x.com", &rules, &[], false);
    assert_eq!(s, Some("MY_KEY".to_string()));
    assert_eq!(inj, SecretInjection::Query { param: "api_key".into() });
    let (s, inj) = gateway_secret_plan(None, None, "api.pixabay.com", &rules, &[], false);
    assert_eq!(s, Some("PIXABAY_API_KEY".to_string()));
    assert_eq!(inj, SecretInjection::Query { param: "key".into() });
    let (s, _) = gateway_secret_plan(None, None, "unknown.example", &rules, &[], false);
    assert_eq!(s, None);
}

#[test]
fn header_and_query_injection() {
    assert_eq!(injection_header_value(&Some("Bearer ".into()), "s"), "Bearer s");
    assert_eq!(injection_header_value(&None, "s"), "s");
    assert_eq!(append_query_param("https://a.com/p", "key", "v"), "https://a.com/p?key=v");
    assert_eq!(append_query_param("https://a.com/p?x=1", "key", "v"), "https://a.com/p?x=1&key=v");
}

#[test]
fn mitm_authorities_and_urls() {
    assert_eq!(mitm_host_port("api.github.com:443"), ("api.github.com".to_string(), 443));
    assert_eq!(mitm_host_port("api.github.com:8443"), ("api.github.com".to_string(), 8443));
    assert_eq!(mitm_host_port("api.github.com"), ("api.github.com".to_string(), 443));
    assert_eq!(mitm_host_port("h:99999"), ("h".to_string(), 443));
    assert_eq!(mitm_host_port("h:abc"), ("h".to_string(), 443));
    assert_eq!(mitm_target_url("h.com", 443, "/a?b"), "https://h.com/a?b");
    assert_eq!(mitm_target_url("h.com", 8443, "/a"), "https://h.com:8443/a");
}

#[test]
fn port_holders() {
    assert!(matches!(
        classify_port_holder(true, Some("Cloak Local AI Loopback Proxy".into()), Some(true)),
        PortHolder::AttachToExisting
    ));
    assert!(matches!(
        classify_port_holder(true, Some("Cloak Local AI Loopback Proxy".into()), Some(false)),
        PortHolder::RefuseUntrusted
    ));
    assert!(matches!(classify_port_holder(true, None, None), PortHolder::RefuseUntrusted));
    assert!(matches!(classify_port_holder(false, None, None), PortHolder::BindFailed));
}

#[test]
fn ca_paths_and_cache_keys() {
    assert_eq!(ca_cert_path(Some("/home/u".into())), "/home/u/.cloak/ca.pem");
    assert_eq!(ca_key_path(Some("/home/u".into())), "/home/u/.cloak/ca.key");
    assert_eq!(cert_cache_key(" API.GitHub.com:443"), "api.github.com");
}

#[test]
fn pem_parsing() {
    let pem = "junk\n-----BEGIN CERTIFICATE-----\nAAEC\r\nAw==\n-----END CERTIFICATE-----\n";
    assert_eq!(pem_to_der(pem).unwrap(), vec![0, 1, 2, 3]);
    assert_eq!(pem_to_der("no block").unwrap_err(), PemError::NoCertificateBlock);
    assert_eq!(
        pem_to_der("-----BEGIN CERTIFICATE-----\n!!!\n-----END CERTIFICATE-----").unwrap_err(),
        PemError::InvalidBase64
    );
    assert!(!PemError::InvalidBase64.message().is_empty());
}

#[test]
fn gateway_targets_are_parsed_and_planned() {
    let rules = RuleRegistry::default();
    let t = gateway_target("https://API.Pixabay.com/api/?q=cats", None, None, &rules, &[], false).unwrap();
    assert_eq!(t.host, "api.pixabay.com");
    assert_eq!(t.url, "https://api.pixabay.com/api/?q=cats");
    assert_eq!(t.secret, Some("PIXABAY_API_KEY".to_string()));
    assert_eq!(t.injection, SecretInjection::Query { param: "key".into() });

    let err = gateway_target("not a url", None, None, &rules, &[], false).unwrap_err();
    assert!(matches!(&err, GatewayError::InvalidTarget(_)));
    assert!(err.message().starts_with("Invalid X-Cloak-Target URL: "));

    let t = gateway_target("https://x.example/", Some("MY".into()), None, &rules, &[], false).unwrap();
    assert_eq!(t.secret, Some("MY".to_string()));
}

#[test]
fn gateway_injection_encodes_query_values() {
    let (url, header) = gateway_inject(
        "https://api.pixabay.com/api/?q=cats",
        &SecretInjection::Query { param: "key".into() },
        "a b&c",
    )
    .unwrap();
    assert_eq!(url, "https://api.pixabay.com/api/?q=cats&key=a+b%26c");
    assert_eq!(header, None);

    let (url, header) = gateway_inject(
        "https://x.example/",
        &SecretInjection::Header { name: "Authorization".into(), prefix: Some("Bearer ".into()) },
        "s",
    )
    .unwrap();
    assert_eq!(url, "https://x.example/");
    assert_eq!(header, Some(("Authorization".to_string(), "Bearer s".to_string())));
    assert_eq!(
        gateway_inject("::bad::", &SecretInjection::Query { param: "k".into() }, "v").unwrap_err(),
        GatewayError::QueryNotAppended
    );
}
