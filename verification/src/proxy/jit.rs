//! Just-in-time key acquisition: the queue of pending approval requests,
//! the replies to approval decisions, and the steps that resolve a key
//! (active scope, then global scope, then a prompt or a JIT approval).

use vstd::prelude::*;
use crate::text::{
    chars_eq_str, chars_of, decimal, decimal_chars, is_blank, is_blank_str, string_from_chars,
    trim, trim_chars,
};
use super::rules::opt_view;
use super::PendingJitRequest;
use crate::collections::{holds_str, sort_dedup_strings, strictly_sorted, KeyedList};

verus! {

// ---------------------------------------------------------------------------
// Pending request queue
// ---------------------------------------------------------------------------

/// The pending JIT requests, keyed by request id.
pub type JitQueue<T> = KeyedList<T>;

/// The id of the JIT request made with random number `n`: `jit-<n>`.
pub fn jit_request_id(n: u32) -> (r: String)
    ensures
        r@ == "jit-"@ + decimal(n as nat),
{
    let d = decimal_chars(n as u64);
    let ds = string_from_chars(&d);
    String::from_str("jit-").concat(ds.as_str())
}

// ---------------------------------------------------------------------------
// Replies to approval decisions
// ---------------------------------------------------------------------------

/// The reply to a decision on a pending JIT request.
#[derive(Clone, Debug)]
pub enum JitReply {
    /// The value is handed to the waiting request; `always` also persists it.
    Approved { value: String, always: bool },
    /// The request is refused.
    Denied,
    /// "once" or "always" without a (non-blank) value.
    EmptyValue,
    /// The action is none of "once", "always", "deny".
    InvalidAction,
    /// No pending request has that id.
    NotFound,
}

/// The reply model for a decision: `found` is whether the id was pending
/// (it is then taken off the queue whatever the reply).
pub open spec fn jit_reply_for(found: bool, action: Seq<char>, value: Option<Seq<char>>) -> (
    u16,
    Option<(Seq<char>, bool)>,
) {
    let v = match value {
        Some(v) => v,
        None => Seq::empty(),
    };
    if !found {
        (404, None)
    } else if action == "always"@ || action == "once"@ {
        if is_blank(v) {
            (400, None)
        } else {
            (200, Some((v, action == "always"@)))
        }
    } else if action == "deny"@ {
        (200, None)
    } else {
        (400, None)
    }
}

impl JitReply {
    /// The HTTP status of the reply.
    pub open spec fn status(&self) -> u16 {
        match self {
            JitReply::Approved { .. } => 200,
            JitReply::Denied => 200,
            JitReply::EmptyValue => 400,
            JitReply::InvalidAction => 400,
            JitReply::NotFound => 404,
        }
    }

    /// The value handed over and whether it is persisted.
    pub open spec fn grant(&self) -> Option<(Seq<char>, bool)> {
        match self {
            JitReply::Approved { value, always } => Some((value@, *always)),
            _ => None,
        }
    }

    /// The HTTP status of the reply.
    pub fn status_code(&self) -> (r: u16)
        ensures
            r == self.status(),
    {
        match self {
            JitReply::Approved { .. } => 200,
            JitReply::Denied => 200,
            JitReply::EmptyValue => 400,
            JitReply::InvalidAction => 400,
            JitReply::NotFound => 404,
        }
    }
}

/// Decides the reply to an approval decision (`found`: whether the request
/// id was pending).
pub fn decide_jit_reply(found: bool, action: &str, value: Option<String>) -> (r: JitReply)
    ensures
        (r.status(), r.grant()) == jit_reply_for(found, action@, opt_view(value)),
{
    if !found {
        return JitReply::NotFound;
    }
    let a = chars_of(action);
    let always = chars_eq_str(&a, "always");
    if always || chars_eq_str(&a, "once") {
        let v = match value {
            Some(v) => v,
            None => String::new(),
        };
        if is_blank_str(v.as_str()) {
            JitReply::EmptyValue
        } else {
            JitReply::Approved { value: v, always }
        }
    } else if chars_eq_str(&a, "deny") {
        JitReply::Denied
    } else {
        JitReply::InvalidAction
    }
}

// ---------------------------------------------------------------------------
// Resolving a key
// ---------------------------------------------------------------------------

/// The next step in resolving a key.
#[derive(Clone, Debug)]
pub enum KeyStep {
    /// The key's value.
    Resolved(String),
    /// Look the key up in the global scope.
    LookupGlobal,
    /// Ask on the terminal.
    PromptTerminal,
    /// Queue a JIT approval request and wait for the decision.
    AwaitJit,
}

/// Why a key could not be had.
#[derive(Clone, Copy, Debug, PartialEq, Eq, Structural)]
pub enum KeyError {
    NothingEntered,
    NoKeyProvided,
    Denied,
    Disconnected,
    TimedOut,
}

impl KeyError {
    /// The message reported for the failure.
    pub open spec fn text(&self) -> Seq<char> {
        match self {
            KeyError::NothingEntered => "No key entered. Aborting request."@,
            KeyError::NoKeyProvided => "No key provided for JIT request"@,
            KeyError::Denied => "JIT authorization explicitly denied by user"@,
            KeyError::Disconnected => "JIT authorization channel disconnected"@,
            KeyError::TimedOut => "JIT authorization timed out waiting for user confirmation"@,
        }
    }

    /// The message reported for the failure.
    pub fn message(&self) -> (r: String)
        ensures
            r@ == self.text(),
    {
        match self {
            KeyError::NothingEntered => String::from_str("No key entered. Aborting request."),
            KeyError::NoKeyProvided => String::from_str("No key provided for JIT request"),
            KeyError::Denied => String::from_str("JIT authorization explicitly denied by user"),
            KeyError::Disconnected => String::from_str("JIT authorization channel disconnected"),
            KeyError::TimedOut => String::from_str(
                "JIT authorization timed out waiting for user confirmation",
            ),
        }
    }
}

/// The step after looking a value up: a non-blank value resolves the key;
/// otherwise the global scope is tried (from another scope), then the
/// terminal when one is attached, then a JIT request.
pub open spec fn step_after_lookup(
    found: Option<Seq<char>>,
    try_global: bool,
    interactive: bool,
) -> (Option<Seq<char>>, bool, bool) {
    match found {
        Some(v) if !is_blank(v) => (Some(v), false, false),
        _ => if try_global {
            (None, true, false)
        } else {
            (None, false, interactive)
        },
    }
}

/// The view of a key step: (resolved value, look up global, prompt on terminal).
pub open spec fn key_step_view(s: KeyStep) -> (Option<Seq<char>>, bool, bool) {
    match s {
        KeyStep::Resolved(v) => (Some(v@), false, false),
        KeyStep::LookupGlobal => (None, true, false),
        KeyStep::PromptTerminal => (None, false, true),
        KeyStep::AwaitJit => (None, false, false),
    }
}

fn step_for(found: Option<String>, try_global: bool, interactive: bool) -> (r: KeyStep)
    ensures
        key_step_view(r) == step_after_lookup(opt_view(found), try_global, interactive),
{
    if let Some(v) = found {
        if !is_blank_str(v.as_str()) {
            return KeyStep::Resolved(v);
        }
    }
    if try_global {
        KeyStep::LookupGlobal
    } else if interactive {
        KeyStep::PromptTerminal
    } else {
        KeyStep::AwaitJit
    }
}

/// The step after reading the key from the active scope `target_namespace`.
pub fn after_scope_lookup(found: Option<String>, target_namespace: &str, interactive: bool) -> (r:
    KeyStep)
    ensures
        key_step_view(r) == step_after_lookup(
            opt_view(found),
            target_namespace@ != "global"@,
            interactive,
        ),
{
    let t = chars_of(target_namespace);
    let is_global = chars_eq_str(&t, "global");
    step_for(found, !is_global, interactive)
}

/// The step after reading the key from the global scope.
pub fn after_global_lookup(found: Option<String>, interactive: bool) -> (r: KeyStep)
    ensures
        key_step_view(r) == step_after_lookup(opt_view(found), false, interactive),
{
    step_for(found, false, interactive)
}

/// What a value typed on the terminal leads to: a blank entry aborts,
/// anything else is saved to the active scope and used as typed.
pub fn after_terminal_entry(entered: String) -> (r: Result<String, KeyError>)
    ensures
        match r {
            Ok(v) => !is_blank(entered@) && v@ == entered@,
            Err(e) => is_blank(entered@) && e == KeyError::NothingEntered,
        },
{
    if is_blank_str(entered.as_str()) {
        Err(KeyError::NothingEntered)
    } else {
        Ok(entered)
    }
}

/// How a JIT approval request ended.
#[derive(Clone, Debug)]
pub enum JitOutcome {
    Approved { value: String, always: bool },
    Denied,
    Disconnected,
    TimedOut,
}

/// The step after a JIT request ended.
#[derive(Clone, Debug)]
pub enum JitStep {
    /// Use `value`; store `persist` in the active scope first when present.
    Use { value: String, persist: Option<String> },
    /// Approved without a value: use what the active scope holds by now.
    LookupStored,
    /// Give up.
    Fail(KeyError),
}

/// The step after a JIT request ended: a non-blank approved value is used
/// as sent and, for "always", its trimmed form is stored.
pub fn after_jit(outcome: JitOutcome) -> (r: JitStep)
    ensures
        match outcome {
            JitOutcome::Approved { value, always } => if !is_blank(value@) {
                r matches JitStep::Use { value: v, persist: p } && v@ == value@ && opt_view(p) == (
                if always {
                    Some(trim(value@))
                } else {
                    None
                })
            } else {
                r is LookupStored
            },
            JitOutcome::Denied => r == JitStep::Fail(KeyError::Denied),
            JitOutcome::Disconnected => r == JitStep::Fail(KeyError::Disconnected),
            JitOutcome::TimedOut => r == JitStep::Fail(KeyError::TimedOut),
        },
{
    match outcome {
        JitOutcome::Approved { value, always } => {
            let vc = chars_of(value.as_str());
            let t = trim_chars(&vc);
            if t.len() == 0 {
                JitStep::LookupStored
            } else {
                let persist = if always {
                    Some(string_from_chars(&t))
                } else {
                    None
                };
                JitStep::Use { value, persist }
            }
        },
        JitOutcome::Denied => JitStep::Fail(KeyError::Denied),
        JitOutcome::Disconnected => JitStep::Fail(KeyError::Disconnected),
        JitOutcome::TimedOut => JitStep::Fail(KeyError::TimedOut),
    }
}

/// After an approval without a value: the stored value, if any.
pub fn after_stored_lookup(stored: Option<String>) -> (r: Result<String, KeyError>)
    ensures
        match stored {
            Some(s) => r matches Ok(v) && v@ == s@,
            None => r == Err::<String, KeyError>(KeyError::NoKeyProvided),
        },
{
    match stored {
        Some(s) => Ok(s),
        None => Err(KeyError::NoKeyProvided),
    }
}

impl PendingJitRequest {
    /// A pending request for `key`, made by `agent` for `target_endpoint`.
    pub fn new(id: String, agent: &str, key: &str, target_endpoint: &str, timestamp: String) -> (r:
        Self)
        ensures
            r.id@ == id@,
            r.agent@ == agent@,
            r.key@ == key@,
            r.target_endpoint@ == target_endpoint@,
            r.timestamp@ == timestamp@,
    {
        PendingJitRequest {
            id,
            agent: String::from_str(agent),
            key: String::from_str(key),
            target_endpoint: String::from_str(target_endpoint),
            timestamp,
        }
    }
}

/// The keys a request may resolve: those stored in the active scope and,
/// unless it is the global scope, those of the global scope, in increasing
/// order without repeats.
pub fn all_known_keys(target_namespace: &str, target_keys: Vec<String>, global_keys: Vec<String>) -> (r:
    Vec<String>)
    ensures
        strictly_sorted(r@.map_values(|s: String| s@)),
        forall|x: Seq<char>|
            #[trigger] holds_str(r@, x) == (holds_str(target_keys@, x) || (target_namespace@
                != "global"@ && holds_str(global_keys@, x))),
{
    let t = chars_of(target_namespace);
    let is_global = chars_eq_str(&t, "global");
    let mut all = target_keys;
    let ghost a = all@;
    if !is_global {
        let mut g = global_keys;
        let ghost b = g@;
        all.append(&mut g);
        proof {
            assert(all@ =~= a + b);
            assert forall|x: Seq<char>| #[trigger] holds_str(all@, x) == (holds_str(a, x) || holds_str(b, x)) by {
                if holds_str(a, x) {
                    let i = choose|i: int| 0 <= i < a.len() && a[i]@ == x;
                    assert(all@[i] == a[i]);
                }
                if holds_str(b, x) {
                    let i = choose|i: int| 0 <= i < b.len() && b[i]@ == x;
                    assert(all@[a.len() + i] == b[i]);
                }
                if holds_str(all@, x) {
                    let i = choose|i: int| 0 <= i < all@.len() && all@[i]@ == x;
                    if i < a.len() {
                        assert(a[i] == all@[i]);
                    } else {
                        assert(b[i - a.len()] == all@[i]);
                    }
                }
            }
        }
    }
    sort_dedup_strings(all)
}

} // verus!
