//! Workspace discovery and paths relative to the workspace.
use crate::path::{join_path, path_below};
use crate::text::{blank, first_of, is_blank, lemma_first_of, str_text, trim, trimmed};
use vstd::prelude::*;

verus! {

/// Where the configuration lies, by what the environment says.
pub open spec fn config_path_of(ralph_config: Option<Seq<char>>) -> Seq<char> {
    if ralph_config is Some && !blank(ralph_config->0) {
        ralph_config->0
    } else {
        "ralph.yml"@
    }
}

/// The path of the default configuration: that of `RALPH_CONFIG`, unless it is blank or not set, or
/// `ralph.yml`.
pub fn default_config_path(ralph_config: Option<&str>) -> (r: String)
    ensures
        r@ == (match ralph_config {
            Some(value) => if blank(value@) {
                "ralph.yml"@
            } else {
                value@
            },
            None => "ralph.yml"@,
        }),
        r@ == config_path_of(str_text(ralph_config)),
{
    if let Some(value) = ralph_config {
        if !is_blank(value) {
            return value.to_owned();
        }
    }
    "ralph.yml".to_owned()
}

/// A directory, with what marks a workspace in it.
#[derive(Debug)]
pub struct WorkspaceDir {
    pub path: String,
    /// Whether it has a directory `.ralph`.
    pub has_ralph: bool,
    /// Whether it has an entry `.git`.
    pub has_git: bool,
}

/// The innermost directory that is marked as a workspace.
pub open spec fn marked_workspace(dirs: Seq<WorkspaceDir>) -> Option<Seq<char>> {
    first_of(
        dirs.map_values(
            |dir: WorkspaceDir|
                if dir.has_ralph || dir.has_git {
                    Some(dir.path@)
                } else {
                    None
                },
        ),
    )
}

/// Finds the innermost directory that is marked as a workspace. `dirs` are a directory and those
/// above it, outwards.
pub fn discover_workspace_root(dirs: &Vec<WorkspaceDir>) -> (r: Option<String>)
    ensures
        match r {
            Some(root) => marked_workspace(dirs@) == Some(root@),
            None => marked_workspace(dirs@) is None,
        },
{
    let ghost hits = dirs@.map_values(
        |dir: WorkspaceDir|
            if dir.has_ralph || dir.has_git {
                Some(dir.path@)
            } else {
                None
            },
    );
    let mut i: usize = 0;
    assert(hits.skip(0) == hits);
    while i < dirs.len()
        invariant
            i <= dirs.len(),
            hits == dirs@.map_values(
                |dir: WorkspaceDir|
                    if dir.has_ralph || dir.has_git {
                        Some(dir.path@)
                    } else {
                        None
                    },
            ),
            first_of(hits) == first_of(hits.skip(i as int)),
        decreases dirs.len() - i,
    {
        proof {
            lemma_first_of(hits, i as int);
        }
        if dirs[i].has_ralph || dirs[i].has_git {
            return Some(dirs[i].path.clone());
        }
        i = i + 1;
    }
    None
}

/// The workspace: the given one, that of `RALPH_WORKSPACE_ROOT` unless it is blank, the innermost
/// marked directory from the current one outwards, or the current directory.
pub open spec fn workspace_of(
    given: Option<Seq<char>>,
    env: Option<Seq<char>>,
    cwd: Option<Seq<char>>,
    dirs: Seq<WorkspaceDir>,
) -> Seq<char> {
    if given is Some {
        given->0
    } else if env is Some && !blank(env->0) {
        env->0
    } else if marked_workspace(dirs) is Some {
        marked_workspace(dirs)->0
    } else if cwd is Some {
        cwd->0
    } else {
        "."@
    }
}

/// Resolves the workspace.
pub fn resolve_workspace_root(
    root: Option<&str>,
    ralph_workspace_root: Option<&str>,
    cwd: Option<&str>,
    dirs: &Vec<WorkspaceDir>,
) -> (r: String)
    ensures
        r@ == workspace_of(
            str_text(root),
            str_text(ralph_workspace_root),
            str_text(cwd),
            dirs@,
        ),
{
    if let Some(root) = root {
        return root.to_owned();
    }
    if let Some(value) = ralph_workspace_root {
        if !is_blank(value) {
            return value.to_owned();
        }
    }
    match discover_workspace_root(dirs) {
        Some(found) => found,
        None => match cwd {
            Some(cwd) => cwd.to_owned(),
            None => ".".to_owned(),
        },
    }
}

/// Finds a path below the workspace.
pub fn resolve_path_from_workspace(path: &str, workspace_root: &str) -> (r: String)
    ensures
        r@ == path_below(workspace_root@, path@),
{
    join_path(workspace_root, path)
}

/// Finds the file of urgent messages to a running loop.
pub fn urgent_steer_path_from_workspace(workspace_root: &str) -> (r: String)
    ensures
        r@ == path_below(workspace_root@, ".ralph/urgent-steer.json"@),
{
    join_path(workspace_root, ".ralph/urgent-steer.json")
}

/// Finds the file that a marker file names, relative to the workspace.
pub fn resolve_marker_target(workspace_root: &str, marker_value: &str) -> (r: String)
    ensures
        r@ == path_below(workspace_root@, trimmed(marker_value@)),
{
    join_path(workspace_root, trim(marker_value))
}

} // verus!
