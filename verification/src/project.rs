//! Project workspaces and the scopes secrets are stored in.

use vstd::prelude::*;
use crate::proxy::rules::opt_view;

verus! {

/// The file that marks a directory as a Cloak project.
pub const PROJECT_CONFIG_FILE: &'static str = ".cloak";

/// The namespace of secrets available everywhere.
pub const GLOBAL_NAMESPACE: &'static str = "global";

/// The contents of a `.cloak` file.
#[derive(Clone, Debug)]
pub struct ProjectConfig {
    pub name: String,
}

/// A project found at `root`.
#[derive(Clone, Debug)]
pub struct DetectedProject {
    pub name: String,
    pub root: String,
}

/// The name a new project gets: the one given, else the directory's name,
/// else `project`.
pub open spec fn project_name(custom: Option<Seq<char>>, dir_name: Option<Seq<char>>) -> Seq<char> {
    match custom {
        Some(n) => n,
        None => match dir_name {
            Some(d) => d,
            None => "project"@,
        },
    }
}

/// The name a new project gets in a directory called `dir_name` (`None`
/// when the directory has no UTF-8 name).
pub fn project_name_for(custom_name: Option<String>, dir_name: Option<String>) -> (r: String)
    ensures
        r@ == project_name(opt_view(custom_name), opt_view(dir_name)),
{
    match custom_name {
        Some(n) => n,
        None => match dir_name {
            Some(d) => d,
            None => String::from_str("project"),
        },
    }
}

/// Why a project could not be initialized.
#[derive(Clone, Copy, Debug, PartialEq, Eq, Structural)]
pub enum ProjectError {
    /// The directory already holds a `.cloak` file.
    AlreadyInitialized,
}

impl ProjectError {
    /// The message shown for the error.
    pub fn message(&self) -> (r: String)
        ensures
            r@ == "A project is already initialized in this directory (found .cloak)"@,
    {
        String::from_str("A project is already initialized in this directory (found .cloak)")
    }
}

/// Initializes a project in `dir` (whose last component is `dir_name`, when
/// it has a UTF-8 one) unless `config_exists` says a `.cloak` file is already
/// there. The caller writes `.cloak` with the returned name.
pub fn init_project(
    config_exists: bool,
    custom_name: Option<String>,
    dir: String,
    dir_name: Option<String>,
) -> (r: Result<DetectedProject, ProjectError>)
    ensures
        config_exists <==> r is Err,
        r matches Ok(p) ==> p.name@ == project_name(opt_view(custom_name), opt_view(dir_name))
            && p.root@ == dir@,
{
    if config_exists {
        return Err(ProjectError::AlreadyInitialized);
    }
    let name = project_name_for(custom_name, dir_name);
    Ok(DetectedProject { name, root: dir })
}

/// Finds the project of the working directory. `found` lists the working
/// directory and its ancestors, innermost first, each with the name of its
/// `.cloak` file when that file could be read and parsed: the nearest one
/// wins.
pub fn detect_project(found: &[(String, Option<String>)]) -> (r: Option<DetectedProject>)
    ensures
        match r {
            Some(p) => exists|i: int|
                0 <= i < found@.len() && (forall|j: int| 0 <= j < i ==> (#[trigger] found@[j]).1 is None)
                    && found@[i].1 == Some(p.name) && p.root@ == found@[i].0@,
            None => forall|i: int| 0 <= i < found@.len() ==> (#[trigger] found@[i]).1 is None,
        },
{
    let mut i: usize = 0;
    while i < found.len()
        invariant
            i <= found@.len(),
            forall|j: int| 0 <= j < i ==> (#[trigger] found@[j]).1 is None,
        decreases found@.len() - i,
    {
        if let Some(name) = &found[i].1 {
            return Some(DetectedProject { name: name.clone(), root: found[i].0.clone() });
        }
        i += 1;
    }
    None
}

/// Where a command reads and writes secrets.
#[derive(Clone, Debug)]
pub enum TargetScope {
    Global,
    Project(String),
}

/// The scope of a command: global when asked for, else the project named
/// on the command line, else the project detected from the working
/// directory, else global.
pub open spec fn target_scope(global: bool, explicit: Option<Seq<char>>, detected: Option<Seq<char>>) -> Option<Seq<char>> {
    if global {
        None
    } else {
        match explicit {
            Some(p) => Some(p),
            None => detected,
        }
    }
}

/// The project of a scope, `None` for the global scope.
pub open spec fn scope_project(s: TargetScope) -> Option<Seq<char>> {
    match s {
        TargetScope::Global => None,
        TargetScope::Project(p) => Some(p@),
    }
}

/// Resolves the scope of a command; `detected` is the name of the project
/// found from the working directory, if any.
pub fn resolve_target_scope(global: bool, explicit_project: Option<String>, detected: Option<String>) -> (r: TargetScope)
    ensures
        scope_project(r) == target_scope(global, opt_view(explicit_project), opt_view(detected)),
{
    if global {
        return TargetScope::Global;
    }
    if let Some(p) = explicit_project {
        return TargetScope::Project(p);
    }
    if let Some(d) = detected {
        return TargetScope::Project(d);
    }
    TargetScope::Global
}

/// The namespace of a scope: `global`, or `proj-<name>`.
pub open spec fn namespace_of(project: Option<Seq<char>>) -> Seq<char> {
    match project {
        None => "global"@,
        Some(p) => "proj-"@ + p,
    }
}

/// The namespace secrets of a scope are stored in.
pub fn scope_to_namespace(scope: &TargetScope) -> (r: String)
    ensures
        r@ == namespace_of(scope_project(*scope)),
{
    match scope {
        TargetScope::Global => String::from_str("global"),
        TargetScope::Project(name) => String::from_str("proj-").concat(name.as_str()),
    }
}

} // verus!
