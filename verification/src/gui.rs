//! The desktop HUD's state and the values it exchanges with its front end:
//! the vault session that locks itself after five minutes without
//! activity, the namespaces behind the HUD's scope names, and the checks on
//! secrets entered in the HUD.

use vstd::prelude::*;
use crate::paths::{join, path_join};
use crate::proxy::rules::opt_view;
use crate::text::{
    chars_eq_str, chars_of, copy_range, has_prefix, is_blank, is_blank_str, starts_with,
    string_from_chars,
};

verus! {

/// A stored secret as the HUD lists it (the value is never sent).
#[derive(Clone, Debug)]
pub struct SecretItemDto {
    pub id: String,
    pub key: String,
    pub masked_value: String,
    pub scope: String,
    pub updated_at: String,
    pub hardware_protected: bool,
}

/// The proxy's state as the HUD shows it.
#[derive(Clone, Debug)]
pub struct ProxyStatusDto {
    pub active: bool,
    pub port: u16,
    pub openai_configured: bool,
    pub anthropic_configured: bool,
}

/// The vault's lock state and the platform's protection.
#[derive(Clone, Debug)]
pub struct SecurityStatusDto {
    pub is_unlocked: bool,
    pub hardware_backend: String,
    pub biometric_type: String,
}

/// A pending JIT request as the HUD shows it.
#[derive(Clone, Debug)]
pub struct JitRequestDto {
    pub id: String,
    pub agent: String,
    pub key: String,
    pub target_endpoint: String,
    pub timestamp: String,
}

/// Whether the bundled CLI is linked onto the PATH.
#[derive(Clone, Debug)]
pub struct CliStatusDto {
    pub is_installed: bool,
    pub cli_path: Option<String>,
    pub target_symlink: Option<String>,
    pub message: String,
}

/// Inactivity after which the vault locks itself: 300 s, in nanoseconds.
pub const AUTO_LOCK_NANOS: u64 = 300_000_000_000;

/// The HUD's vault session. Times are nanoseconds on a monotonic clock.
#[derive(Clone, Copy, Debug)]
pub struct VaultSession {
    pub is_unlocked: bool,
    pub last_activity: Option<u64>,
}

/// Time elapsed from `t` to `now`, zero when `now` is earlier.
pub open spec fn elapsed(t: u64, now: u64) -> int {
    if now >= t {
        now - t
    } else {
        0
    }
}

/// Whether the session is active at `now`: unlocked, and not idle for
/// more than the auto-lock delay.
pub open spec fn session_active(s: VaultSession, now: u64) -> bool {
    s.is_unlocked && match s.last_activity {
        Some(t) => elapsed(t, now) <= AUTO_LOCK_NANOS,
        None => true,
    }
}

impl VaultSession {
    /// A new session: the vault starts locked.
    pub fn new() -> (r: Self)
        ensures
            !r.is_unlocked,
            r.last_activity is None,
    {
        VaultSession { is_unlocked: false, last_activity: None }
    }

    /// Checks whether the session is active at `now` (and, when `touch`,
    /// records activity). A session idle for too long is locked and its
    /// activity cleared.
    pub fn check_session_active(&mut self, now: u64, touch: bool) -> (r: bool)
        ensures
            r == session_active(*old(self), now),
            !old(self).is_unlocked ==> *final(self) == *old(self),
            old(self).is_unlocked && !r ==> !final(self).is_unlocked
                && final(self).last_activity is None,
            r ==> final(self).is_unlocked && final(self).last_activity == if touch {
                Some(now)
            } else {
                old(self).last_activity
            },
    {
        if !self.is_unlocked {
            return false;
        }
        if let Some(t) = self.last_activity {
            let idle: u64 = if now >= t {
                now - t
            } else {
                0
            };
            if idle > AUTO_LOCK_NANOS {
                self.is_unlocked = false;
                self.last_activity = None;
                return false;
            }
        }
        if touch {
            self.last_activity = Some(now);
        }
        true
    }

    /// Unlocks after a successful authentication at `now`.
    pub fn unlock(&mut self, now: u64)
        ensures
            final(self).is_unlocked,
            final(self).last_activity == Some(now),
    {
        self.is_unlocked = true;
        self.last_activity = Some(now);
    }

    /// Locks the vault.
    pub fn lock(&mut self)
        ensures
            !final(self).is_unlocked,
            final(self).last_activity is None,
    {
        self.is_unlocked = false;
        self.last_activity = None;
    }
}

/// The namespace behind a HUD scope name: `global`, or `proj-<scope>`.
pub open spec fn hud_namespace(scope: Seq<char>) -> Seq<char> {
    if scope == "global"@ {
        "global"@
    } else {
        "proj-"@ + scope
    }
}

/// The namespace behind a HUD scope name.
pub fn gui_namespace(scope: &str) -> (r: String)
    ensures
        r@ == hud_namespace(scope@),
{
    let s = chars_of(scope);
    if chars_eq_str(&s, "global") {
        String::from_str("global")
    } else {
        String::from_str("proj-").concat(scope)
    }
}

/// The HUD scope name of a namespace: `global`, the project's name for
/// `proj-<name>`, else the namespace itself.
pub open spec fn hud_scope(ns: Seq<char>) -> Seq<char> {
    if ns == "global"@ {
        "global"@
    } else if starts_with(ns, "proj-"@) {
        ns.skip("proj-"@.len() as int)
    } else {
        ns
    }
}

/// The HUD scope name of a namespace.
pub fn gui_scope_label(ns: &str) -> (r: String)
    ensures
        r@ == hud_scope(ns@),
{
    let n = chars_of(ns);
    let p = chars_of("proj-");
    if chars_eq_str(&n, "global") {
        String::from_str("global")
    } else if has_prefix(&n, &p) {
        let rest = copy_range(&n, p.len(), n.len());
        assert(rest@ =~= ns@.skip("proj-"@.len() as int));
        string_from_chars(&rest)
    } else {
        String::from_str(ns)
    }
}

/// How the HUD lists a stored secret: id `<namespace>:<key>`, a fixed mask
/// instead of the value, the scope name of the namespace, and the backend
/// that holds it.
pub fn secret_item_dto(ns: &str, key: &str, hardware_protected: bool) -> (r: SecretItemDto)
    ensures
        r.id@ == ns@ + ":"@ + key@,
        r.key@ == key@,
        r.masked_value@ == "••••••••••••••••"@,
        r.scope@ == hud_scope(ns@),
        r.updated_at@ == if hardware_protected {
            "Touch ID Secure Enclave"@
        } else {
            "Standard Keyring"@
        },
        r.hardware_protected == hardware_protected,
{
    SecretItemDto {
        id: String::from_str(ns).concat(":").concat(key),
        key: String::from_str(key),
        masked_value: String::from_str("••••••••••••••••"),
        scope: gui_scope_label(ns),
        updated_at: if hardware_protected {
            String::from_str("Touch ID Secure Enclave")
        } else {
            String::from_str("Standard Keyring")
        },
        hardware_protected,
    }
}

/// Why a secret entered in the HUD is refused.
#[derive(Clone, Copy, Debug, PartialEq, Eq, Structural)]
pub enum SecretInputError {
    EmptyKey,
    NulInKey,
    EmptyValue,
}

impl SecretInputError {
    /// The message shown for the refusal.
    pub fn message(&self) -> (r: String)
        ensures
            r@ == match self {
                SecretInputError::EmptyKey => "Secret key name cannot be empty"@,
                SecretInputError::NulInKey => "Secret key cannot contain null bytes"@,
                SecretInputError::EmptyValue => "Secret value cannot be empty"@,
            },
    {
        match self {
            SecretInputError::EmptyKey => String::from_str("Secret key name cannot be empty"),
            SecretInputError::NulInKey => String::from_str("Secret key cannot contain null bytes"),
            SecretInputError::EmptyValue => String::from_str("Secret value cannot be empty"),
        }
    }
}

/// Checks a key name the HUD acts on: it must not be blank.
pub fn check_key_name(key: &str) -> (r: Result<(), SecretInputError>)
    ensures
        r is Ok <==> !is_blank(key@),
        r matches Err(e) ==> e == SecretInputError::EmptyKey,
{
    if is_blank_str(key) {
        Err(SecretInputError::EmptyKey)
    } else {
        Ok(())
    }
}

/// Checks a secret entered in the HUD: the key must not be blank nor hold
/// a NUL character, and the value must not be blank; the first failing
/// check is reported.
pub fn validate_secret_input(key: &str, value: &str) -> (r: Result<(), SecretInputError>)
    ensures
        r is Ok <==> !is_blank(key@) && !key@.contains('\0') && !is_blank(value@),
        r == Err::<(), SecretInputError>(SecretInputError::EmptyKey) <==> is_blank(key@),
        r == Err::<(), SecretInputError>(SecretInputError::NulInKey) <==> !is_blank(key@)
            && key@.contains('\0'),
        r == Err::<(), SecretInputError>(SecretInputError::EmptyValue) <==> !is_blank(key@)
            && !key@.contains('\0') && is_blank(value@),
{
    if is_blank_str(key) {
        return Err(SecretInputError::EmptyKey);
    }
    let k = chars_of(key);
    let mut i: usize = 0;
    while i < k.len()
        invariant
            i <= k@.len(),
            k@ == key@,
            !is_blank(key@),
            forall|j: int| 0 <= j < i ==> k@[j] != '\0',
        decreases k@.len() - i,
    {
        if k[i] == '\0' {
            assert(key@[i as int] == '\0');
            return Err(SecretInputError::NulInKey);
        }
        i += 1;
    }
    if is_blank_str(value) {
        return Err(SecretInputError::EmptyValue);
    }
    Ok(())
}

/// The port the HUD talks to: the one the proxy recorded, else 4141.
pub fn gui_proxy_port(recorded: Option<u64>) -> (r: u16)
    ensures
        r == match recorded {
            Some(p) => p as u16,
            None => 4141u16,
        },
{
    match recorded {
        Some(p) => p as u16,
        None => 4141,
    }
}

/// The places searched for the CLI binary bundled with the HUD, in order:
/// beside the HUD's executable, then in the bundle's `Resources`,
/// `Resources/bin` and `Resources/target/release` (when the executable's
/// directory has a parent), then `~/.cargo/bin` (when the home directory is
/// known). `bin_name` is `cloak` (`cloak.exe` on Windows).
pub open spec fn cli_candidates(
    exe_dir: Option<Seq<char>>,
    contents_dir: Option<Seq<char>>,
    home: Option<Seq<char>>,
    bin_name: Seq<char>,
) -> Seq<Seq<char>> {
    let sibling = match exe_dir {
        Some(d) => seq![join(d, bin_name)],
        None => Seq::empty(),
    };
    let resources = match (exe_dir, contents_dir) {
        (Some(_), Some(c)) => {
            let r = join(c, "Resources"@);
            seq![
                join(r, bin_name),
                join(join(r, "bin"@), bin_name),
                join(join(join(r, "target"@), "release"@), bin_name),
            ]
        },
        _ => Seq::empty(),
    };
    let cargo = match home {
        Some(h) => seq![join(join(join(h, ".cargo"@), "bin"@), bin_name)],
        None => Seq::empty(),
    };
    sibling + resources + cargo
}

/// Lists the places searched for the bundled CLI binary; the first that is
/// a file is the one used.
pub fn bundled_cli_candidates(
    exe_dir: Option<String>,
    contents_dir: Option<String>,
    home: Option<String>,
    bin_name: &str,
) -> (r: Vec<String>)
    ensures
        r@.map_values(|p: String| p@) == cli_candidates(
            opt_view(exe_dir),
            opt_view(contents_dir),
            opt_view(home),
            bin_name@,
        ),
{
    let mut v: Vec<String> = Vec::new();
    if let Some(d) = &exe_dir {
        v.push(path_join(d.as_str(), bin_name));
        if let Some(c) = &contents_dir {
            let r = path_join(c.as_str(), "Resources");
            v.push(path_join(r.as_str(), bin_name));
            let b = path_join(r.as_str(), "bin");
            v.push(path_join(b.as_str(), bin_name));
            let t = path_join(r.as_str(), "target");
            let tr = path_join(t.as_str(), "release");
            v.push(path_join(tr.as_str(), bin_name));
        }
    }
    if let Some(h) = &home {
        let c = path_join(h.as_str(), ".cargo");
        let b = path_join(c.as_str(), "bin");
        v.push(path_join(b.as_str(), bin_name));
    }
    assert(v@.map_values(|p: String| p@) =~= cli_candidates(
        opt_view(exe_dir),
        opt_view(contents_dir),
        opt_view(home),
        bin_name@,
    ));
    v
}

/// Where the CLI link is put on Unix: in `/usr/local/bin` when that
/// directory exists, else in `~/.local/bin` when it exists (after trying to
/// create it), else `/usr/local/bin/cloak`.
pub open spec fn symlink_target_of(usr_local_bin_exists: bool, home: Option<Seq<char>>, local_bin_exists: bool) -> Seq<char> {
    if usr_local_bin_exists {
        join("/usr/local/bin"@, "cloak"@)
    } else if home is Some && local_bin_exists {
        join(join(home->0, ".local/bin"@), "cloak"@)
    } else {
        "/usr/local/bin/cloak"@
    }
}

/// The path of the CLI link, given what exists on disk.
pub fn determine_symlink_target(usr_local_bin_exists: bool, home: Option<String>, local_bin_exists: bool) -> (r: String)
    ensures
        r@ == symlink_target_of(usr_local_bin_exists, opt_view(home), local_bin_exists),
{
    if usr_local_bin_exists {
        return path_join("/usr/local/bin", "cloak");
    }
    if let Some(h) = &home {
        if local_bin_exists {
            let l = path_join(h.as_str(), ".local/bin");
            return path_join(l.as_str(), "cloak");
        }
    }
    String::from_str("/usr/local/bin/cloak")
}

/// Where the CLI link is tried when the first target fails: `~/.local/bin/cloak`,
/// then `~/.cargo/bin/cloak` (none when the home directory is unknown).
pub fn symlink_fallback_targets(home: Option<String>) -> (r: Vec<String>)
    ensures
        r@.map_values(|p: String| p@) == match opt_view(home) {
            Some(h) => seq![join(h, ".local/bin/cloak"@), join(h, ".cargo/bin/cloak"@)],
            None => Seq::<Seq<char>>::empty(),
        },
{
    let mut v: Vec<String> = Vec::new();
    if let Some(h) = &home {
        v.push(path_join(h.as_str(), ".local/bin/cloak"));
        v.push(path_join(h.as_str(), ".cargo/bin/cloak"));
    }
    assert(v@.map_values(|p: String| p@) =~= match opt_view(home) {
        Some(h) => seq![join(h, ".local/bin/cloak"@), join(h, ".cargo/bin/cloak"@)],
        None => Seq::<Seq<char>>::empty(),
    });
    v
}

/// How installing the CLI link went.
#[derive(Clone, Debug)]
pub enum LinkOutcome {
    /// The link at the target already points at the bundled binary.
    AlreadyLinked,
    /// A link to the bundled binary was made at the target.
    Linked,
    /// Linking at the target failed; a link was made at this fallback path.
    LinkedFallback(String),
    /// Linking failed with this error, and no fallback worked.
    Failed(String),
}

/// The HUD's report on installing the CLI link, from the bundled binary
/// (`None` when it was not found), the link target, and how linking went.
pub fn cli_link_status(bundled: Option<String>, target: String, outcome: LinkOutcome) -> (r: CliStatusDto)
    ensures
        match bundled {
            None => !r.is_installed && r.cli_path is None && r.target_symlink is None
                && r.message@ == "Bundled CLI binary not found in application bundle"@,
            Some(b) => opt_view(r.cli_path) == Some(b@) && match outcome {
                LinkOutcome::AlreadyLinked => r.is_installed && opt_view(r.target_symlink)
                    == Some(target@) && r.message@ == "CLI is linked at "@ + target@,
                LinkOutcome::Linked => r.is_installed && opt_view(r.target_symlink) == Some(target@)
                    && r.message@ == "Successfully installed CLI symlink at "@ + target@,
                LinkOutcome::LinkedFallback(f) => r.is_installed && opt_view(r.target_symlink)
                    == Some(f@) && r.message@ == "Installed CLI symlink at "@ + f@,
                LinkOutcome::Failed(e) => !r.is_installed && opt_view(r.target_symlink) == Some(
                    target@,
                ) && r.message@ == "Failed to create symlink at "@ + target@ + ": "@ + e@,
            },
        },
{
    match bundled {
        None => CliStatusDto {
            is_installed: false,
            cli_path: None,
            target_symlink: None,
            message: String::from_str("Bundled CLI binary not found in application bundle"),
        },
        Some(b) => match outcome {
            LinkOutcome::AlreadyLinked => {
                let message = String::from_str("CLI is linked at ").concat(target.as_str());
                CliStatusDto { is_installed: true, cli_path: Some(b), target_symlink: Some(target), message }
            },
            LinkOutcome::Linked => {
                let message = String::from_str("Successfully installed CLI symlink at ").concat(
                    target.as_str(),
                );
                CliStatusDto { is_installed: true, cli_path: Some(b), target_symlink: Some(target), message }
            },
            LinkOutcome::LinkedFallback(f) => {
                let message = String::from_str("Installed CLI symlink at ").concat(f.as_str());
                CliStatusDto { is_installed: true, cli_path: Some(b), target_symlink: Some(f), message }
            },
            LinkOutcome::Failed(e) => {
                let message = String::from_str("Failed to create symlink at ").concat(
                    target.as_str(),
                ).concat(": ").concat(e.as_str());
                CliStatusDto { is_installed: false, cli_path: Some(b), target_symlink: Some(target), message }
            },
        },
    }
}

/// The HUD's CLI status: linked when the link at `target` points at the
/// bundled binary.
pub fn cli_status(bundled: Option<String>, target: String, is_linked: bool) -> (r: CliStatusDto)
    ensures
        r.is_installed == is_linked,
        opt_view(r.cli_path) == opt_view(bundled),
        opt_view(r.target_symlink) == Some(target@),
        r.message@ == if is_linked {
            "CLI active at "@ + target@
        } else {
            "CLI symlink not installed"@
        },
{
    let message = if is_linked {
        String::from_str("CLI active at ").concat(target.as_str())
    } else {
        String::from_str("CLI symlink not installed")
    };
    CliStatusDto { is_installed: is_linked, cli_path: bundled, target_symlink: Some(target), message }
}

/// A locked session is never active, whatever the time.
pub proof fn law_locked_session_inactive(s: VaultSession, now: u64)
    requires
        !s.is_unlocked,
    ensures
        !session_active(s, now),
{
}

/// A session unlocked at `t` stays active up to the auto-lock delay after
/// its last activity, and not a nanosecond longer.
pub proof fn law_auto_lock(t: u64, now: u64)
    requires
        t <= now,
    ensures
        session_active(VaultSession { is_unlocked: true, last_activity: Some(t) }, now) == (now - t
            <= AUTO_LOCK_NANOS),
{
}

} // verus!
