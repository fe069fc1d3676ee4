use cloak::gui::{cli_link_status, cli_status, symlink_fallback_targets, LinkOutcome};
use cloak::gui::{
    bundled_cli_candidates, check_key_name, determine_symlink_target, gui_namespace,
    gui_proxy_port, gui_scope_label, validate_secret_input, SecretInputError, VaultSession,
    AUTO_LOCK_NANOS,
};

const SECOND: u64 = 1_000_000_000;

#[test]
fn test_vault_starts_locked() {
    let mut state = VaultSession::new();
    assert!(!state.check_session_active(0, false));
    assert!(!state.check_session_active(0, true));
}

#[test]
fn test_vault_unlock_and_activity_touch() {
    let now = 1_000 * SECOND;
    let mut state = VaultSession {
        is_unlocked: true,
        last_activity: Some(now),
    };
    assert!(state.check_session_active(now, true));
    assert!(state.last_activity.is_some());
}

#[test]
fn test_vault_inactivity_auto_lock() {
    let now = 10_000 * SECOND;
    let past = now - 305 * SECOND;
    let mut state = VaultSession {
        is_unlocked: true,
        last_activity: Some(past),
    };
    assert!(!state.check_session_active(now, false));
    assert!(!state.is_unlocked);
    assert!(state.last_activity.is_none());
}

#[test]
fn test_manual_relock() {
    let now = 1_000 * SECOND;
    let mut state = VaultSession {
        is_unlocked: true,
        last_activity: Some(now),
    };
    assert!(state.check_session_active(now, false));
    state.lock();
    assert!(!state.check_session_active(now, false));
}

#[test]
fn session_survives_exactly_the_auto_lock_delay() {
    let mut s = VaultSession::new();
    s.unlock(0);
    assert!(s.check_session_active(AUTO_LOCK_NANOS, false));
    assert!(!s.check_session_active(AUTO_LOCK_NANOS + 1, false));
}

#[test]
fn touching_postpones_the_lock() {
    let mut s = VaultSession::new();
    s.unlock(0);
    assert!(s.check_session_active(200 * SECOND, true));
    assert_eq!(s.last_activity, Some(200 * SECOND));
    assert!(s.check_session_active(450 * SECOND, false));
    assert_eq!(s.last_activity, Some(200 * SECOND));
}

#[test]
fn a_clock_going_backwards_is_no_idle_time() {
    let mut s = VaultSession {
        is_unlocked: true,
        last_activity: Some(500 * SECOND),
    };
    assert!(s.check_session_active(0, false));
}

#[test]
fn test_active_proxy_port_default() {
    let port = gui_proxy_port(None);
    assert!(port == 4141 || port > 0);
    assert_eq!(gui_proxy_port(None), 4141);
    assert_eq!(gui_proxy_port(Some(8080)), 8080);
}

#[test]
fn test_determine_symlink_target() {
    let target = determine_symlink_target(true, Some("/home/u".to_string()), true);
    assert!(target.ends_with("cloak") || target.ends_with("cloak.exe"));
    assert_eq!(target, "/usr/local/bin/cloak");
    assert_eq!(
        determine_symlink_target(false, Some("/home/u".to_string()), true),
        "/home/u/.local/bin/cloak"
    );
    assert_eq!(determine_symlink_target(false, None, true), "/usr/local/bin/cloak");
    assert_eq!(
        determine_symlink_target(false, Some("/home/u".to_string()), false),
        "/usr/local/bin/cloak"
    );
}

#[test]
fn test_find_bundled_cli() {
    let c = bundled_cli_candidates(
        Some("/opt/Cloak/MacOS".to_string()),
        Some("/opt/Cloak".to_string()),
        Some("/home/u".to_string()),
        "cloak",
    );
    assert_eq!(
        c,
        vec![
            "/opt/Cloak/MacOS/cloak".to_string(),
            "/opt/Cloak/Resources/cloak".to_string(),
            "/opt/Cloak/Resources/bin/cloak".to_string(),
            "/opt/Cloak/Resources/target/release/cloak".to_string(),
            "/home/u/.cargo/bin/cloak".to_string(),
        ]
    );
    assert_eq!(
        bundled_cli_candidates(None, None, Some("/home/u".to_string()), "cloak.exe"),
        vec!["/home/u/.cargo/bin/cloak.exe".to_string()]
    );
}

#[test]
fn hud_scope_names() {
    assert_eq!(gui_namespace("global"), "global");
    assert_eq!(gui_namespace("myapp"), "proj-myapp");
    assert_eq!(gui_scope_label("proj-myapp"), "myapp");
    assert_eq!(gui_scope_label("global"), "global");
    assert_eq!(gui_scope_label("other"), "other");
}

#[test]
fn secret_input_checks() {
    assert_eq!(validate_secret_input("API_KEY", "v"), Ok(()));
    assert_eq!(validate_secret_input("  ", "v"), Err(SecretInputError::EmptyKey));
    assert_eq!(validate_secret_input("A\0B", "v"), Err(SecretInputError::NulInKey));
    assert_eq!(validate_secret_input("A", " \n"), Err(SecretInputError::EmptyValue));
    assert_eq!(check_key_name(""), Err(SecretInputError::EmptyKey));
    assert_eq!(check_key_name("K"), Ok(()));
    assert_eq!(SecretInputError::EmptyValue.message(), "Secret value cannot be empty");
}

#[test]
fn listed_secrets_hide_values() {
    let item = cloak::gui::secret_item_dto("proj-app", "API_KEY", true);
    assert_eq!(item.id, "proj-app:API_KEY");
    assert_eq!(item.scope, "app");
    assert_eq!(item.masked_value, "••••••••••••••••");
    assert_eq!(item.updated_at, "Touch ID Secure Enclave");
    let plain = cloak::gui::secret_item_dto("global", "K", false);
    assert_eq!(plain.scope, "global");
    assert_eq!(plain.updated_at, "Standard Keyring");
}

#[test]
fn cli_link_reports() {
    assert_eq!(
        symlink_fallback_targets(Some("/home/u".into())),
        vec!["/home/u/.local/bin/cloak".to_string(), "/home/u/.cargo/bin/cloak".to_string()]
    );
    assert!(symlink_fallback_targets(None).is_empty());

    let none = cli_link_status(None, "/usr/local/bin/cloak".into(), LinkOutcome::Linked);
    assert!(!none.is_installed);
    assert_eq!(none.message, "Bundled CLI binary not found in application bundle");

    let b = Some("/opt/Cloak/cloak".to_string());
    let ok = cli_link_status(b.clone(), "/usr/local/bin/cloak".into(), LinkOutcome::Linked);
    assert!(ok.is_installed);
    assert_eq!(ok.message, "Successfully installed CLI symlink at /usr/local/bin/cloak");
    let fb = cli_link_status(
        b.clone(),
        "/usr/local/bin/cloak".into(),
        LinkOutcome::LinkedFallback("/home/u/.local/bin/cloak".into()),
    );
    assert_eq!(fb.target_symlink, Some("/home/u/.local/bin/cloak".to_string()));
    let failed = cli_link_status(b.clone(), "/t".into(), LinkOutcome::Failed("denied".into()));
    assert!(!failed.is_installed);
    assert_eq!(failed.message, "Failed to create symlink at /t: denied");
    let already = cli_link_status(b.clone(), "/t".into(), LinkOutcome::AlreadyLinked);
    assert_eq!(already.message, "CLI is linked at /t");

    let st = cli_status(b, "/t".into(), false);
    assert_eq!(st.message, "CLI symlink not installed");
    assert!(!st.is_installed);
}
