use cloak::cli::{
    after_jit_answer, display_value, entered_secret, export_line, is_affirmative,
    jit_denial_reason, mask_secret, missing_get_start, missing_secret_message, namespace_label,
    scope_label, ExportFormat, JitAnswer, MissingGetOutcome, MissingGetStep,
};
use cloak::project::TargetScope;

#[test]
fn masking_matches_the_documented_form() {
    assert_eq!(mask_secret("sk-proj-123456789"), "sk-p****6789");
}

#[test]
fn masking() {
    assert_eq!(mask_secret("short"), "********");
    assert_eq!(mask_secret("12345678"), "********");
    assert_eq!(mask_secret("sk-1234567890"), "sk-1****7890");
    assert_eq!(
        display_value("sk-1234567890", false, "Global"),
        "sk-1****7890 [Global] (use --reveal to display in full)"
    );
}

#[test]
fn scope_texts() {
    assert_eq!(scope_label(&TargetScope::Global), "Global");
    assert_eq!(
        missing_secret_message(&TargetScope::Global, "K"),
        "Error: Secret 'K' not found in Global scope"
    );
    assert_eq!(
        missing_secret_message(&TargetScope::Project("app".into()), "K"),
        "Error: Secret 'K' not found in project 'app' or Global scope"
    );
    assert_eq!(namespace_label("global"), "🌐 Global");
    assert_eq!(namespace_label("proj-app"), "📁 Project: app");
    assert_eq!(namespace_label("misc"), "Namespace: misc");
}

#[test]
fn yes_no_answers() {
    assert!(is_affirmative("y\n"));
    assert!(is_affirmative("  Y "));
    assert!(!is_affirmative("yes"));
    assert!(!is_affirmative(""));
}

#[test]
fn export_lines() {
    assert_eq!(export_line(ExportFormat::Dotenv, "K", "v"), "K=v");
    assert_eq!(export_line(ExportFormat::Bash, "K", "a\"b"), "export K=\"a\\\"b\"");
}

#[test]
fn missing_secret_flow() {
    assert_eq!(missing_get_start(true, Some(4141), true, true), MissingGetStep::NotFound);
    assert_eq!(
        missing_get_start(false, Some(4141), true, true),
        MissingGetStep::RequestJit { port: 4141 }
    );
    assert_eq!(missing_get_start(false, Some(4141), false, true), MissingGetStep::Prompt);
    assert_eq!(missing_get_start(false, None, true, false), MissingGetStep::NotFound);

    assert!(matches!(
        after_jit_answer(JitAnswer::Approved(Some("v".into())), false),
        MissingGetOutcome::Show(v) if v == "v"
    ));
    assert!(matches!(
        after_jit_answer(JitAnswer::Denied(None), true),
        MissingGetOutcome::Refused(r) if r == "Authorization rejected"
    ));
    assert!(matches!(
        after_jit_answer(JitAnswer::Denied(Some("nope".into())), true),
        MissingGetOutcome::Refused(r) if r == "nope"
    ));
    assert!(matches!(
        after_jit_answer(JitAnswer::Unreachable, true),
        MissingGetOutcome::Next(MissingGetStep::Prompt)
    ));
    assert!(matches!(
        after_jit_answer(JitAnswer::Approved(None), false),
        MissingGetOutcome::Next(MissingGetStep::NotFound)
    ));
    assert_eq!(entered_secret("  v \n"), Some("v".to_string()));
    assert_eq!(entered_secret(" \t"), None);
    assert_eq!(jit_denial_reason(None), "Authorization rejected");
}
