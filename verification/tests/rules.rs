use cloak::proxy::rules::{
    candidate_secret_names, default_injection_for_service, extract_service_name, wildcard_match,
    DomainRule, RuleRegistry, SecretInjection,
};

#[test]
fn test_wildcard_matching() {
    assert!(wildcard_match("*pixabay.com*", "api.pixabay.com"));
    assert!(wildcard_match("*pixabay.com*", "pixabay.com"));
    assert!(wildcard_match("*pixabay.com*", "https://pixabay.com/"));
    assert!(!wildcard_match("*pixabay.com*", "example.com"));

    assert!(wildcard_match("*api.elevenlabs.io*", "api.elevenlabs.io"));
    assert!(wildcard_match("api.github.com", "api.github.com"));
    assert!(!wildcard_match("api.github.com", "api.gitlab.com"));
}

#[test]
fn test_injection_parsing() {
    assert_eq!(
        SecretInjection::parse("query:key"),
        SecretInjection::Query {
            param: "key".to_string()
        }
    );
    assert_eq!(
        SecretInjection::parse("header:xi-api-key"),
        SecretInjection::Header {
            name: "xi-api-key".to_string(),
            prefix: None
        }
    );
    assert_eq!(
        SecretInjection::parse("header:Authorization:Bearer"),
        SecretInjection::Header {
            name: "Authorization".to_string(),
            prefix: Some("Bearer ".to_string())
        }
    );
}

#[test]
fn test_registry_matching() {
    let registry = RuleRegistry::default();
    let rule = registry.match_host("api.pixabay.com:443").unwrap();
    assert_eq!(rule.secret, "PIXABAY_API_KEY");
    assert_eq!(
        rule.inject,
        SecretInjection::Query {
            param: "key".to_string()
        }
    );

    let rule2 = registry.match_host("api.elevenlabs.io").unwrap();
    assert_eq!(rule2.secret, "ELEVENLABS_API_KEY");
    assert_eq!(
        rule2.inject,
        SecretInjection::Header {
            name: "xi-api-key".to_string(),
            prefix: None,
        }
    );
}

#[test]
fn test_extract_service_name() {
    assert_eq!(extract_service_name("api.pexels.com"), "PEXELS");
    assert_eq!(extract_service_name("api.tavily.com:443"), "TAVILY");
    assert_eq!(extract_service_name("api.deepseek.com"), "DEEPSEEK");
    assert_eq!(extract_service_name("subdomain.groq.io"), "GROQ");
}

#[test]
fn test_auto_inference() {
    let registry = RuleRegistry::default();
    let available = vec!["PEXELS_API_KEY".to_string(), "TAVILY_TOKEN".to_string()];

    let pexels_rule = registry
        .match_or_infer("api.pexels.com", &available, false)
        .unwrap();
    assert_eq!(pexels_rule.secret, "PEXELS_API_KEY");
    assert_eq!(
        pexels_rule.inject,
        SecretInjection::Header {
            name: "Authorization".to_string(),
            prefix: None,
        }
    );

    let tavily_rule = registry
        .match_or_infer("api.tavily.com:443", &available, false)
        .unwrap();
    assert_eq!(tavily_rule.secret, "TAVILY_TOKEN");

    assert!(registry
        .match_or_infer("wikipedia.org", &available, false)
        .is_none());

    let unconfigured = registry
        .match_or_infer("api.resend.com", &available, true)
        .unwrap();
    assert_eq!(unconfigured.secret, "RESEND_API_KEY");
}

#[test]
fn wildcard_star_alone_matches_everything() {
    assert!(wildcard_match("*", ""));
    assert!(wildcard_match("*", "anything.example"));
    assert!(wildcard_match("", ""));
    assert!(!wildcard_match("", "a"));
}

#[test]
fn wildcard_anchors_at_both_ends() {
    assert!(wildcard_match("api.*", "api.github.com"));
    assert!(!wildcard_match("api.*", "x.api.github.com"));
    assert!(wildcard_match("*.com", "api.github.com"));
    assert!(!wildcard_match("*.com", "api.github.com.evil"));
    assert!(wildcard_match("a*b*c", "aXXbYYc"));
    assert!(!wildcard_match("a*b*c", "aXXcYYb"));
}

#[test]
fn wildcard_surrounded_piece_is_containment() {
    assert!(wildcard_match("*hub*", "github"));
    assert!(!wildcard_match("*hub*", "gitlab"));
}

#[test]
fn rule_matching_ignores_case() {
    let rule = DomainRule {
        pattern: "*API.GitHub.com*".to_string(),
        secret: "GITHUB_TOKEN".to_string(),
        inject: SecretInjection::parse("header:Authorization:Bearer"),
    };
    assert!(rule.matches("api.github.com"));
    assert!(rule.matches("api.GITHUB.com"));
    assert!(!rule.matches("api.gitlab.com"));
}

#[test]
fn parse_falls_back_to_bearer_authorization() {
    let bearer = SecretInjection::Header {
        name: "Authorization".to_string(),
        prefix: Some("Bearer ".to_string()),
    };
    assert_eq!(SecretInjection::parse("bogus"), bearer);
    assert_eq!(SecretInjection::parse(""), bearer);
}

#[test]
fn registry_match_strips_port_and_finds_nothing_for_unknown_host() {
    let registry = RuleRegistry::default();
    assert_eq!(registry.match_host("api.github.com:8443").unwrap().secret, "GITHUB_TOKEN");
    assert!(registry.match_host("example.org").is_none());
}

#[test]
fn explicit_rule_wins_over_inference() {
    let registry = RuleRegistry::default();
    let available = vec!["GITHUB_API_KEY".to_string()];
    let rule = registry.match_or_infer("api.github.com", &available, false).unwrap();
    assert_eq!(rule.secret, "GITHUB_TOKEN");
}

#[test]
fn load_or_default_prefers_parsed_rules() {
    let custom = vec![DomainRule {
        pattern: "*example.org*".to_string(),
        secret: "EXAMPLE_KEY".to_string(),
        inject: SecretInjection::parse("query:token"),
    }];
    let registry = RuleRegistry::load_or_default(Some(custom));
    assert_eq!(registry.rules.len(), 1);
    assert_eq!(registry.match_host("www.example.org").unwrap().secret, "EXAMPLE_KEY");
    let fallback = RuleRegistry::load_or_default(None);
    assert_eq!(fallback.rules.len(), RuleRegistry::default().rules.len());
    assert_eq!(fallback.rules[0].secret, "PIXABAY_API_KEY");
}

#[test]
fn candidate_names_follow_the_service() {
    let names = candidate_secret_names("PEXELS");
    assert_eq!(names[0], "PEXELS_API_KEY");
    assert!(names.iter().any(|n| n == "PEXELS_TOKEN"));
}

#[test]
fn default_injection_is_bearer_unless_known() {
    let inj = default_injection_for_service("OPENAI");
    assert_eq!(
        inj,
        SecretInjection::Header {
            name: "Authorization".to_string(),
            prefix: Some("Bearer ".to_string())
        }
    );
}
