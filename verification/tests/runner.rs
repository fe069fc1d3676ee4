use cloak::runner::{child_env_plan, EnvOp};

fn final_value(ops: &[EnvOp], name: &str) -> Option<Option<String>> {
    let mut out = None;
    for op in ops {
        match op {
            EnvOp::Remove(k) if k == name => out = Some(None),
            EnvOp::Assign(k, v) if k == name => out = Some(Some(v.clone())),
            _ => {}
        }
    }
    out
}

fn secrets() -> Vec<(String, String)> {
    vec![
        ("OPENAI_API_KEY".to_string(), "sk-real".to_string()),
        ("DB_URL".to_string(), "postgres://x".to_string()),
    ]
}

#[test]
fn plain_run_strips_proxy_variables_and_injects_secrets() {
    let ops = child_env_plan(&secrets(), false, false, 4141, Some("tok".into()), None);
    assert!(matches!(&ops[0], EnvOp::Remove(k) if k == "CLOAK_MASTER_KEY"));
    assert_eq!(final_value(&ops, "CLOAK_MASTER_KEY"), Some(None));
    assert_eq!(final_value(&ops, "CLOAK_PROXY_TOKEN"), Some(None));
    assert_eq!(final_value(&ops, "HTTPS_PROXY"), Some(None));
    assert_eq!(final_value(&ops, "OPENAI_API_KEY"), Some(Some("sk-real".to_string())));
    assert_eq!(final_value(&ops, "DB_URL"), Some(Some("postgres://x".to_string())));
    assert_eq!(ops.len(), 1 + 13 + 2);
}

#[test]
fn proxy_mode_shields_provider_keys() {
    let ops = child_env_plan(&secrets(), false, true, 4141, Some("tok".into()), Some("/h/.cloak/ca.pem".into()));
    assert_eq!(final_value(&ops, "OPENAI_API_KEY"), Some(Some("tok".to_string())));
    assert_eq!(final_value(&ops, "ANTHROPIC_API_KEY"), Some(Some("tok".to_string())));
    assert_eq!(final_value(&ops, "CLOAK_PROXY_TOKEN"), Some(Some("tok".to_string())));
    assert_eq!(
        final_value(&ops, "OPENAI_BASE_URL"),
        Some(Some("http://127.0.0.1:4141/v1".to_string()))
    );
    assert_eq!(
        final_value(&ops, "HTTPS_PROXY"),
        Some(Some("http://127.0.0.1:4141".to_string()))
    );
    assert_eq!(
        final_value(&ops, "SSL_CERT_FILE"),
        Some(Some("/h/.cloak/ca.pem".to_string()))
    );
    assert_eq!(final_value(&ops, "DB_URL"), Some(Some("postgres://x".to_string())));
    assert_eq!(final_value(&ops, "CLOAK_MASTER_KEY"), Some(None));
}

#[test]
fn token_only_injection() {
    let ops = child_env_plan(&[], true, false, 9000, Some("tok".into()), None);
    assert_eq!(final_value(&ops, "CLOAK_PROXY_TOKEN"), Some(Some("tok".to_string())));
    assert_eq!(final_value(&ops, "HTTP_PROXY"), None);
    assert_eq!(ops.len(), 2);
}

#[test]
fn proxy_mode_without_token_sets_nothing_else() {
    let ops = child_env_plan(&secrets(), false, true, 4141, None, None);
    assert_eq!(final_value(&ops, "OPENAI_API_KEY"), None);
    assert_eq!(final_value(&ops, "DB_URL"), Some(Some("postgres://x".to_string())));
    assert_eq!(ops.len(), 2);
}

#[test]
fn a_secret_named_like_the_master_key_is_never_set() {
    let secrets = vec![
        ("CLOAK_MASTER_KEY".to_string(), "leaked".to_string()),
        ("DB_URL".to_string(), "postgres://x".to_string()),
    ];
    for proxy in [false, true] {
        let ops = child_env_plan(&secrets, false, proxy, 4141, Some("tok".into()), None);
        assert_eq!(final_value(&ops, "CLOAK_MASTER_KEY"), Some(None));
        assert_eq!(final_value(&ops, "DB_URL"), Some(Some("postgres://x".to_string())));
    }
}
