use cloak::proxy::jit::all_known_keys;
use cloak::proxy::jit::{
    after_global_lookup, after_jit, after_scope_lookup, after_stored_lookup, after_terminal_entry,
    decide_jit_reply, jit_request_id, JitOutcome, JitQueue, JitReply, JitStep, KeyError, KeyStep,
};
use cloak::proxy::PendingJitRequest;

#[test]
fn request_ids() {
    assert_eq!(jit_request_id(0), "jit-0");
    assert_eq!(jit_request_id(4294967295), "jit-4294967295");
}

#[test]
fn replies_to_decisions() {
    assert!(matches!(decide_jit_reply(false, "once", Some("v".into())), JitReply::NotFound));
    match decide_jit_reply(true, "always", Some("v1".into())) {
        JitReply::Approved { value, always } => {
            assert_eq!(value, "v1");
            assert!(always);
        }
        other => panic!("unexpected {:?}", other),
    }
    match decide_jit_reply(true, "once", Some("v1".into())) {
        JitReply::Approved { always, .. } => assert!(!always),
        other => panic!("unexpected {:?}", other),
    }
    assert!(matches!(decide_jit_reply(true, "once", Some("  ".into())), JitReply::EmptyValue));
    assert!(matches!(decide_jit_reply(true, "always", None), JitReply::EmptyValue));
    assert!(matches!(decide_jit_reply(true, "deny", None), JitReply::Denied));
    assert!(matches!(decide_jit_reply(true, "maybe", None), JitReply::InvalidAction));
    assert_eq!(decide_jit_reply(false, "deny", None).status_code(), 404);
    assert_eq!(decide_jit_reply(true, "maybe", None).status_code(), 400);
    assert_eq!(decide_jit_reply(true, "deny", None).status_code(), 200);
}

#[test]
fn key_resolution_steps() {
    assert!(matches!(after_scope_lookup(Some("v".into()), "proj-x", false), KeyStep::Resolved(v) if v == "v"));
    assert!(matches!(after_scope_lookup(None, "proj-x", true), KeyStep::LookupGlobal));
    assert!(matches!(after_scope_lookup(Some(" ".into()), "global", true), KeyStep::PromptTerminal));
    assert!(matches!(after_scope_lookup(None, "global", false), KeyStep::AwaitJit));
    assert!(matches!(after_global_lookup(None, false), KeyStep::AwaitJit));
    assert!(matches!(after_global_lookup(Some("g".into()), false), KeyStep::Resolved(v) if v == "g"));
}

#[test]
fn terminal_and_stored_results() {
    assert_eq!(after_terminal_entry(" ".into()), Err(KeyError::NothingEntered));
    assert_eq!(after_terminal_entry("k ".into()), Ok("k ".to_string()));
    assert_eq!(after_stored_lookup(None), Err(KeyError::NoKeyProvided));
    assert_eq!(after_stored_lookup(Some("s".into())), Ok("s".to_string()));
    assert_eq!(KeyError::TimedOut.message(), "JIT authorization timed out waiting for user confirmation");
}

#[test]
fn jit_outcomes() {
    match after_jit(JitOutcome::Approved { value: " v ".into(), always: true }) {
        JitStep::Use { value, persist } => {
            assert_eq!(value, " v ");
            assert_eq!(persist, Some("v".to_string()));
        }
        other => panic!("unexpected {:?}", other),
    }
    match after_jit(JitOutcome::Approved { value: "v".into(), always: false }) {
        JitStep::Use { persist, .. } => assert_eq!(persist, None),
        other => panic!("unexpected {:?}", other),
    }
    assert!(matches!(after_jit(JitOutcome::Approved { value: "".into(), always: true }), JitStep::LookupStored));
    assert!(matches!(after_jit(JitOutcome::Denied), JitStep::Fail(KeyError::Denied)));
    assert!(matches!(after_jit(JitOutcome::TimedOut), JitStep::Fail(KeyError::TimedOut)));
    assert!(matches!(after_jit(JitOutcome::Disconnected), JitStep::Fail(KeyError::Disconnected)));
}

#[test]
fn pending_queue_keeps_requests_by_id() {
    let mut q: JitQueue<PendingJitRequest> = JitQueue::new();
    let r = PendingJitRequest::new("jit-1".into(), "agent", "KEY", "/x", "100".into());
    assert_eq!(r.key, "KEY");
    q.insert("jit-1".into(), r);
    q.insert("jit-2".into(), PendingJitRequest::new("jit-2".into(), "a", "K2", "/y", "101".into()));
    assert_eq!(q.len(), 2);
    assert!(q.contains_key("jit-1"));
    let taken = q.remove("jit-1").unwrap();
    assert_eq!(taken.agent, "agent");
    assert!(q.remove("jit-1").is_none());
    assert_eq!(q.len(), 1);
}

#[test]
fn known_keys_merge_scopes() {
    let k = all_known_keys(
        "proj-app",
        vec!["B".to_string(), "A".to_string()],
        vec!["C".to_string(), "A".to_string()],
    );
    assert_eq!(k, vec!["A", "B", "C"]);
    let g = all_known_keys("global", vec!["B".to_string()], vec!["Z".to_string()]);
    assert_eq!(g, vec!["B"]);
}
