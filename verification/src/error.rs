//! The error type shared by every operation of the library.

use vstd::prelude::*;
use vstd::string::StringExecFns;

use crate::strutil::contains_seq;

verus! {

/// The failures an operation can report. String payloads carry the
/// name of the worktree concerned or the underlying tool's own text.
#[derive(Debug)]
pub enum ArvoreError {
    NotARepo,
    WorktreeNotFound(String),
    DirtyWorktree(String),
    GitError(String),
    ConfigError(String),
}

/// The exact text that `message` renders for each error.
pub open spec fn spec_message(e: ArvoreError) -> Seq<char> {
    match e {
        ArvoreError::NotARepo => "not inside a git repository"@,
        ArvoreError::WorktreeNotFound(t) => "worktree '"@ + t@ + "' not found"@,
        ArvoreError::DirtyWorktree(t) => "worktree '"@ + t@
            + "' has uncommitted changes (use --force to remove)"@,
        ArvoreError::GitError(m) => "git command failed: "@ + m@,
        ArvoreError::ConfigError(m) => "config error: "@ + m@,
    }
}

impl ArvoreError {
    /// A human-readable description of the error.
    pub fn message(&self) -> (r: String)
        ensures
            r@ == spec_message(*self),
    {
        match self {
            ArvoreError::NotARepo => "not inside a git repository".to_owned(),
            ArvoreError::WorktreeNotFound(t) => {
                let mut s = "worktree '".to_owned();
                s.append(t.as_str());
                s.append("' not found");
                s
            },
            ArvoreError::DirtyWorktree(t) => {
                let mut s = "worktree '".to_owned();
                s.append(t.as_str());
                s.append("' has uncommitted changes (use --force to remove)");
                s
            },
            ArvoreError::GitError(m) => {
                let mut s = "git command failed: ".to_owned();
                s.append(m.as_str());
                s
            },
            ArvoreError::ConfigError(m) => {
                let mut s = "config error: ".to_owned();
                s.append(m.as_str());
                s
            },
        }
    }
}

/// Refusing to remove a dirty worktree always names the `--force`
/// option that would override the refusal.
pub proof fn lemma_dirty_message_mentions_force(t: String)
    ensures
        contains_seq(spec_message(ArvoreError::DirtyWorktree(t)), "--force"@),
{
    reveal_strlit("worktree '");
    reveal_strlit("' has uncommitted changes (use --force to remove)");
    reveal_strlit("--force");
    let m = spec_message(ArvoreError::DirtyWorktree(t));
    let i = 41 + t@.len() as int;
    assert(m.subrange(i, i + "--force"@.len() as int) =~= "--force"@);
}

} // verus!
