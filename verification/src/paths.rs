//! Where Cloak keeps its files, relative to the user's home directory.

use vstd::prelude::*;
use crate::proxy::rules::opt_view;

verus! {

/// `name` appended to the path `base` (Unix `Path::join` of a relative
/// name): a `/` goes between them unless `base` is empty or already ends
/// with one.
pub open spec fn join(base: Seq<char>, name: Seq<char>) -> Seq<char> {
    if base.len() == 0 || base.last() == '/' {
        base + name
    } else {
        base + "/"@ + name
    }
}

/// Joins a relative `name` onto `base`.
pub fn path_join(base: &str, name: &str) -> (r: String)
    ensures
        r@ == join(base@, name@),
{
    let b = crate::text::chars_of(base);
    if b.len() == 0 || b[b.len() - 1] == '/' {
        String::from_str(base).concat(name)
    } else {
        String::from_str(base).concat("/").concat(name)
    }
}

/// The home directory, `.` when `HOME` is unset.
pub open spec fn home_dir(home: Option<Seq<char>>) -> Seq<char> {
    match home {
        Some(h) => h,
        None => "."@,
    }
}

pub(crate) fn home_or_dot(home: Option<String>) -> (r: String)
    ensures
        r@ == home_dir(opt_view(home)),
{
    match home {
        Some(h) => h,
        None => String::from_str("."),
    }
}

/// `~/.cloak`, the directory of the proxy's token, state, rules and CA.
pub open spec fn cloak_dir_of(home: Option<Seq<char>>) -> Seq<char> {
    join(home_dir(home), ".cloak"@)
}

/// `~/.cloak` for the given value of `HOME`.
pub fn cloak_dir(home: Option<String>) -> (r: String)
    ensures
        r@ == cloak_dir_of(opt_view(home)),
{
    let h = home_or_dot(home);
    path_join(h.as_str(), ".cloak")
}

/// `~/.config/cloak`, the configuration directory used when the platform
/// has none.
pub fn config_dir_fallback(home: Option<String>) -> (r: String)
    ensures
        r@ == join(join(home_dir(opt_view(home)), ".config"@), "cloak"@),
{
    let h = home_or_dot(home);
    let c = path_join(h.as_str(), ".config");
    path_join(c.as_str(), "cloak")
}

/// `~/.config/cloak/vault.enc`, the default encrypted file vault.
pub fn default_vault_path(home: Option<String>) -> (r: String)
    ensures
        r@ == join(join(join(home_dir(opt_view(home)), ".config"@), "cloak"@), "vault.enc"@),
{
    let d = config_dir_fallback(home);
    path_join(d.as_str(), "vault.enc")
}

} // verus!
