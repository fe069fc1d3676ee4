//! What the command line shows: masked values, scope labels, export lines
//! and the messages of a missing secret.

use vstd::prelude::*;
use crate::project::{scope_project, TargetScope};
use crate::proxy::rules::opt_view;
use crate::text::{
    chars_eq_ignore_ascii_case, chars_eq_str, chars_of, copy_range, eq_ignore_ascii_case,
    has_prefix, starts_with, string_from_chars, trim, trim_chars,
};

verus! {

/// `value` with all but its first and last four characters hidden; values
/// of eight characters or fewer are hidden entirely.
pub open spec fn masked(value: Seq<char>) -> Seq<char> {
    if value.len() <= 8 {
        "********"@
    } else {
        value.take(4) + "****"@ + value.skip(value.len() - 4)
    }
}

/// Masks a secret for display (`sk-p****6789`).
pub fn mask_secret(value: &str) -> (r: String)
    ensures
        r@ == masked(value@),
{
    let v = chars_of(value);
    let count = v.len();
    if count <= 8 {
        String::from_str("********")
    } else {
        let prefix = copy_range(&v, 0, 4);
        let suffix = copy_range(&v, count - 4, count);
        assert(prefix@ =~= value@.take(4));
        assert(suffix@ =~= value@.skip(value@.len() - 4));
        let p = string_from_chars(&prefix);
        let s = string_from_chars(&suffix);
        p.concat("****").concat(s.as_str())
    }
}

/// The line printed for a retrieved secret: the value itself when revealed,
/// else the masked value, the scope and a hint.
pub open spec fn value_line(value: Seq<char>, reveal: bool, scope_label: Seq<char>) -> Seq<char> {
    if reveal {
        value
    } else {
        masked(value) + " ["@ + scope_label + "] (use --reveal to display in full)"@
    }
}

/// The line printed for a retrieved secret.
pub fn display_value(value: &str, reveal: bool, scope_label: &str) -> (r: String)
    ensures
        r@ == value_line(value@, reveal, scope_label@),
{
    if reveal {
        String::from_str(value)
    } else {
        mask_secret(value).concat(" [").concat(scope_label).concat(
            "] (use --reveal to display in full)",
        )
    }
}

/// The label of a scope in messages: `Global`, or the project's name.
pub fn scope_label(scope: &TargetScope) -> (r: String)
    ensures
        r@ == match scope_project(*scope) {
            None => "Global"@,
            Some(p) => p,
        },
{
    match scope {
        TargetScope::Global => String::from_str("Global"),
        TargetScope::Project(name) => name.clone(),
    }
}

/// The error printed when a secret is found nowhere.
pub open spec fn not_found_text(project: Option<Seq<char>>, key: Seq<char>) -> Seq<char> {
    match project {
        None => "Error: Secret '"@ + key + "' not found in Global scope"@,
        Some(p) => "Error: Secret '"@ + key + "' not found in project '"@ + p
            + "' or Global scope"@,
    }
}

/// The error printed when a secret is found nowhere.
pub fn missing_secret_message(scope: &TargetScope, key: &str) -> (r: String)
    ensures
        r@ == not_found_text(scope_project(*scope), key@),
{
    match scope {
        TargetScope::Global => String::from_str("Error: Secret '").concat(key).concat(
            "' not found in Global scope",
        ),
        TargetScope::Project(name) => String::from_str("Error: Secret '").concat(key).concat(
            "' not found in project '",
        ).concat(name.as_str()).concat("' or Global scope"),
    }
}

/// The heading of a namespace in `list --all`.
pub open spec fn namespace_heading(ns: Seq<char>) -> Seq<char> {
    if ns == "global"@ {
        "🌐 Global"@
    } else if starts_with(ns, "proj-"@) {
        "📁 Project: "@ + ns.skip("proj-"@.len() as int)
    } else {
        "Namespace: "@ + ns
    }
}

/// The heading of a namespace in `list --all`.
pub fn namespace_label(ns: &str) -> (r: String)
    ensures
        r@ == namespace_heading(ns@),
{
    let n = chars_of(ns);
    let p = chars_of("proj-");
    if chars_eq_str(&n, "global") {
        String::from_str("🌐 Global")
    } else if has_prefix(&n, &p) {
        let rest = copy_range(&n, p.len(), n.len());
        assert(rest@ =~= ns@.skip("proj-"@.len() as int));
        let rs = string_from_chars(&rest);
        String::from_str("📁 Project: ").concat(rs.as_str())
    } else {
        String::from_str("Namespace: ").concat(ns)
    }
}

/// Whether an answer to a yes/no question is yes (`y` or `Y`, white space ignored).
pub fn is_affirmative(line: &str) -> (r: bool)
    ensures
        r == eq_ignore_ascii_case(trim(line@), "y"@),
{
    let l = chars_of(line);
    let t = trim_chars(&l);
    let y = chars_of("y");
    chars_eq_ignore_ascii_case(&t, &y)
}

/// Why a JIT request was refused, as reported by the proxy (or a default).
pub fn jit_denial_reason(error: Option<String>) -> (r: String)
    ensures
        r@ == match opt_view(error) {
            Some(e) => e,
            None => "Authorization rejected"@,
        },
{
    match error {
        Some(e) => e,
        None => String::from_str("Authorization rejected"),
    }
}

/// What `cloak get` does next about a secret that is not stored.
#[derive(Clone, Copy, Debug, PartialEq, Eq, Structural)]
pub enum MissingGetStep {
    /// Report the secret as not found and fail.
    NotFound,
    /// Ask the running proxy on `port` for a JIT approval.
    RequestJit { port: u16 },
    /// Ask the user on the terminal for the value.
    Prompt,
}

/// The first step for a missing secret: fail at once when prompting is
/// off; else ask the running proxy (when its port is known and the session
/// token could be had); else prompt when stderr is a terminal; else fail.
pub fn missing_get_start(no_prompt: bool, proxy_port: Option<u16>, has_token: bool, interactive: bool) -> (r: MissingGetStep)
    ensures
        r == if no_prompt {
            MissingGetStep::NotFound
        } else if proxy_port is Some && has_token {
            MissingGetStep::RequestJit { port: proxy_port->0 }
        } else if interactive {
            MissingGetStep::Prompt
        } else {
            MissingGetStep::NotFound
        },
{
    if no_prompt {
        return MissingGetStep::NotFound;
    }
    if let Some(port) = proxy_port {
        if has_token {
            return MissingGetStep::RequestJit { port };
        }
    }
    if interactive {
        MissingGetStep::Prompt
    } else {
        MissingGetStep::NotFound
    }
}

/// How the proxy answered a JIT request.
#[derive(Clone, Debug)]
pub enum JitAnswer {
    /// A success status, with the `value` field when the body had one.
    Approved(Option<String>),
    /// A failure status, with the `error` field when the body had one.
    Denied(Option<String>),
    /// The proxy could not be reached.
    Unreachable,
}

/// What follows a JIT answer.
#[derive(Clone, Debug)]
pub enum MissingGetOutcome {
    /// Show the approved value and succeed.
    Show(String),
    /// Report the refusal (with its reason) and fail.
    Refused(String),
    /// Go on with the next step.
    Next(MissingGetStep),
}

/// The outcome of a JIT answer: an approved value is shown; a refusal ends
/// the command with its reason; otherwise the user is prompted when stderr is
/// a terminal, and the secret is reported missing when it is not.
pub fn after_jit_answer(answer: JitAnswer, interactive: bool) -> (r: MissingGetOutcome)
    ensures
        match answer {
            JitAnswer::Approved(Some(v)) => r matches MissingGetOutcome::Show(s) && s@ == v@,
            JitAnswer::Denied(e) => r matches MissingGetOutcome::Refused(s) && s@ == match opt_view(e) {
                Some(t) => t,
                None => "Authorization rejected"@,
            },
            _ => r matches MissingGetOutcome::Next(n) && n == if interactive {
                MissingGetStep::Prompt
            } else {
                MissingGetStep::NotFound
            },
        },
{
    match answer {
        JitAnswer::Approved(Some(v)) => MissingGetOutcome::Show(v),
        JitAnswer::Denied(e) => MissingGetOutcome::Refused(jit_denial_reason(e)),
        _ => MissingGetOutcome::Next(if interactive { MissingGetStep::Prompt } else { MissingGetStep::NotFound }),
    }
}

/// The value typed at the prompt, trimmed; `None` when nothing but white
/// space was entered (the command then fails).
pub fn entered_secret(line: &str) -> (r: Option<String>)
    ensures
        match r {
            Some(v) => v@ == trim(line@) && v@.len() > 0,
            None => trim(line@).len() == 0,
        },
{
    let l = chars_of(line);
    let t = trim_chars(&l);
    if t.len() == 0 {
        None
    } else {
        Some(string_from_chars(&t))
    }
}

/// The formats of `cloak export`.
#[derive(Clone, Copy, Debug, PartialEq, Eq, Structural)]
pub enum ExportFormat {
    /// `KEY=VALUE`
    Dotenv,
    /// `export KEY="VALUE"`
    Bash,
    /// `{"KEY": "VALUE"}`
    Json,
}

/// `s` with every `"` preceded by a backslash.
pub open spec fn escape_quotes(s: Seq<char>) -> Seq<char>
    decreases s.len(),
{
    if s.len() == 0 {
        s
    } else if s.last() == '"' {
        escape_quotes(s.drop_last()) + "\\\""@
    } else {
        escape_quotes(s.drop_last()).push(s.last())
    }
}

fn escape_quotes_exec(s: &str) -> (r: String)
    ensures
        r@ == escape_quotes(s@),
{
    let v = chars_of(s);
    let mut out: Vec<char> = Vec::new();
    let mut i: usize = 0;
    assert(v@.take(0) =~= Seq::<char>::empty());
    while i < v.len()
        invariant
            i <= v@.len(),
            v@ == s@,
            out@ == escape_quotes(v@.take(i as int)),
        decreases v@.len() - i,
    {
        assert(v@.take(i + 1).drop_last() =~= v@.take(i as int));
        if v[i] == '"' {
            out.push('\\');
            out.push('"');
            assert(out@ =~= escape_quotes(v@.take(i as int)) + "\\\""@) by {
                reveal_strlit("\\\"");
            }
        } else {
            out.push(v[i]);
        }
        i += 1;
    }
    assert(v@.take(v@.len() as int) =~= v@);
    string_from_chars(&out)
}

/// The line `cloak export` prints for one secret in the dotenv and bash
/// formats (JSON output is one document, not lines).
pub open spec fn export_text(format: ExportFormat, key: Seq<char>, value: Seq<char>) -> Seq<char> {
    match format {
        ExportFormat::Bash => "export "@ + key + "=\""@ + escape_quotes(value) + "\""@,
        _ => key + "="@ + value,
    }
}

/// The line `cloak export` prints for one secret.
pub fn export_line(format: ExportFormat, key: &str, value: &str) -> (r: String)
    requires
        format != ExportFormat::Json,
    ensures
        r@ == export_text(format, key@, value@),
{
    match format {
        ExportFormat::Bash => {
            let e = escape_quotes_exec(value);
            String::from_str("export ").concat(key).concat("=\"").concat(e.as_str()).concat("\"")
        },
        _ => String::from_str(key).concat("=").concat(value),
    }
}

} // verus!
