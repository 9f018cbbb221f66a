//! The pure core of each command: the decisions and the texts, with
//! every subprocess call and filesystem probe handed in as a value.

use vstd::prelude::*;
use vstd::string::StrSliceExecFns;
use vstd::string::StringExecFns;

use crate::config::Config;
use crate::config::spec_worktree_path;
use crate::error::ArvoreError;
use crate::git::WorktreeInfo;
use crate::git::spec_worktree_add_args;
use crate::git::spec_worktree_remove_args;
use crate::git::worktree_add;
use crate::git::worktree_remove;
use crate::strutil::str_eq;
use crate::strutil::strings_view;

verus! {

/// Which applications the open command addresses: the terminal when
/// `--warp`, `--all` or no selecting flag was given, the editor when
/// `--cursor`, `--all` or no selecting flag was given.
pub fn open_targets(cursor: bool, warp: bool, all: bool) -> (r: (bool, bool))
    ensures
        r.0 == (all || warp || !cursor),
        r.1 == (all || cursor || !warp),
{
    (all || warp || !cursor, all || cursor || !warp)
}

/// Whether `p` is an absolute path.
pub open spec fn spec_is_absolute(p: Seq<char>) -> bool {
    p.len() > 0 && p[0] == '/'
}

/// The path a removal target names: the target itself when it is an
/// absolute path that exists on disk, otherwise the worktree path the
/// configuration gives that branch.
pub fn resolve_target(config: &Config, target: &str, target_exists: bool, repo_name: &str) -> (r:
    String)
    ensures
        r@ == if spec_is_absolute(target@) && target_exists {
            target@
        } else {
            spec_worktree_path(config.worktree_base@, repo_name@, target@)
        },
{
    let is_abs = if target.unicode_len() > 0 {
        target.get_char(0) == '/'
    } else {
        false
    };
    if is_abs && target_exists {
        target.to_owned()
    } else {
        config.worktree_path(repo_name, target)
    }
}

/// Whether some listed worktree lives at `path`.
pub fn find_worktree(worktrees: &Vec<WorktreeInfo>, path: &str) -> (r: bool)
    ensures
        r == exists|i: int|
            0 <= i < worktrees@.len() && #[trigger] worktrees@[i]@.path == path@,
{
    let mut k: usize = 0;
    while k < worktrees.len()
        invariant
            k <= worktrees.len(),
            forall|j: int| 0 <= j < k ==> #[trigger] worktrees@[j]@.path != path@,
        decreases worktrees.len() - k,
    {
        if str_eq(worktrees[k].path.as_str(), path) {
            proof {
                assert(worktrees@[k as int]@.path == path@);
            }
            return true;
        }
        k += 1;
    }
    false
}

/// Decides a removal: an unknown target is an error naming it, a dirty
/// worktree blocks removal unless forced, and otherwise the removal
/// arguments for `path` are returned.
pub fn plan_remove(target: &str, path: &str, found: bool, force: bool, dirty: bool) -> (r: Result<
    Vec<String>,
    ArvoreError,
>)
    ensures
        !found ==> (r matches Err(e) && e matches ArvoreError::WorktreeNotFound(t) && t@
            == target@),
        found && !force && dirty ==> (r matches Err(e) && e matches ArvoreError::DirtyWorktree(t)
            && t@ == target@),
        found && (force || !dirty) ==> (r matches Ok(args) && strings_view(args@)
            == spec_worktree_remove_args(path@, force)),
{
    if !found {
        Err(ArvoreError::WorktreeNotFound(target.to_owned()))
    } else if !force && dirty {
        Err(ArvoreError::DirtyWorktree(target.to_owned()))
    } else {
        Ok(worktree_remove(path, force))
    }
}

/// The worktree-add arguments the create command issues: with a base
/// ref the branch is always created from it; without one an existing
/// branch (local or remote) is checked out and an unknown one created.
pub fn create_args(
    path: &str,
    branch: &str,
    from: Option<&str>,
    exists_locally: bool,
    exists_remotely: bool,
) -> (r: Vec<String>)
    ensures
        strings_view(r@) == match from {
            Some(b) => spec_worktree_add_args(path@, branch@, true, Some(b@)),
            None => spec_worktree_add_args(
                path@,
                branch@,
                !(exists_locally || exists_remotely),
                None,
            ),
        },
{
    match from {
        Some(base_ref) => worktree_add(path, branch, true, Some(base_ref)),
        None => {
            if exists_locally || exists_remotely {
                worktree_add(path, branch, false, None)
            } else {
                worktree_add(path, branch, true, None)
            }
        },
    }
}

/// A listed worktree counts as dirty only when it is not bare, its
/// directory exists and the status reported there is non-empty.
pub fn list_dirty(is_bare: bool, dir_exists: bool, status: Option<&str>) -> (r: bool)
    ensures
        r == (!is_bare && dir_exists && (status matches Some(s) && s@.len() > 0)),
{
    if is_bare || !dir_exists {
        false
    } else {
        match status {
            Some(s) => !s.is_empty(),
            None => false,
        }
    }
}

/// The head shown for a worktree: its first eight characters.
pub open spec fn spec_short_head(h: Seq<char>) -> Seq<char> {
    if h.len() <= 8 {
        h
    } else {
        h.take(8)
    }
}

/// One machine-readable listing line: branch (or `(detached)`), path,
/// dirty state and shortened head, separated by tabs.
pub open spec fn spec_list_line(w: crate::git::WorktreeRecord, dirty: bool) -> Seq<char> {
    (match w.branch {
        Some(b) => b,
        None => "(detached)"@,
    }) + "\t"@ + w.path + "\t"@ + (if dirty {
        "dirty"@
    } else {
        "clean"@
    }) + "\t"@ + spec_short_head(w.head)
}

/// Renders one machine-readable listing line for a worktree.
pub fn list_line(wt: &WorktreeInfo, dirty: bool) -> (r: String)
    ensures
        r@ == spec_list_line(wt@, dirty),
{
    let mut s: String = match &wt.branch {
        Some(b) => b.as_str().to_owned(),
        None => "(detached)".to_owned(),
    };
    s.append("\t");
    s.append(wt.path.as_str());
    s.append("\t");
    if dirty {
        s.append("dirty");
    } else {
        s.append("clean");
    }
    s.append("\t");
    let hn = wt.head.unicode_len();
    if hn <= 8 {
        s.append(wt.head.as_str());
    } else {
        s.append(wt.head.as_str().substring_char(0, 8));
    }
    s
}

} // verus!
