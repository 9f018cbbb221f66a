//! The tool's configuration: where worktrees live, and how that base
//! directory is read from the optional YAML configuration file.

use vstd::prelude::*;
use vstd::string::StrSliceExecFns;
use vstd::string::StringExecFns;

use crate::error::ArvoreError;
use crate::strutil::str_eq;
use crate::strutil::strip_prefix;

verus! {

/// The single durable setting: the directory under which all
/// worktrees are created.
#[derive(Debug, Clone)]
pub struct Config {
    pub worktree_base: String,
}

/// A branch name with every path separator replaced by a dash, so a
/// branch such as `feature/auth` maps to one directory.
pub open spec fn sanitize_branch(b: Seq<char>) -> Seq<char> {
    b.map_values(
        |c: char|
            if c == '/' {
                '-'
            } else {
                c
            },
    )
}

/// The directory of a branch's worktree: base, repository name and
/// sanitized branch name, joined by path separators.
pub open spec fn spec_worktree_path(base: Seq<char>, repo: Seq<char>, branch: Seq<char>) -> Seq<
    char,
> {
    base + "/"@ + repo + "/"@ + sanitize_branch(branch)
}

/// A path with a leading `~/` or a bare `~` expanded to the home
/// directory, when one is known; any other path is kept as it is.
pub open spec fn spec_expand_tilde(p: Seq<char>, home: Option<Seq<char>>) -> Seq<char> {
    if home is Some && "~/"@.is_prefix_of(p) {
        home->0 + "/"@ + p.skip("~/"@.len() as int)
    } else if home is Some && p == "~"@ {
        home->0
    } else {
        p
    }
}

/// The base directory used when the configuration names none.
pub open spec fn spec_default_base(home: Option<Seq<char>>) -> Seq<char> {
    spec_expand_tilde("~/Dev/worktrees"@, home)
}

/// What the configuration text yields: `None` when it is not valid
/// YAML, otherwise the `worktree_base` string if the document carries
/// that key with a string value.
pub uninterp spec fn config_base_of(s: Seq<char>) -> Option<Option<Seq<char>>>;

/// Relies on `serde_yml::from_str` to read a YAML document into a
/// `serde_yml::Value`, and on `serde_yml::Value::get` and
/// `Value::as_str` to look up the `worktree_base` key: all three are
/// functions of the text alone, named together by [`config_base_of`].
#[verifier::external_body]
fn parse_config_yaml(s: &str) -> (r: Result<Option<String>, String>)
    ensures
        match config_base_of(s@) {
            None => r is Err,
            Some(None) => r == Ok::<Option<String>, String>(None),
            Some(Some(b)) => (r matches Ok(o) && o matches Some(w) && w@ == b),
        },
{
    let v: serde_yml::Value = match serde_yml::from_str(s) {
        Ok(v) => v,
        Err(e) => {
            return Err(e.to_string());
        },
    };
    match v.get("worktree_base") {
        Some(w) => match w.as_str() {
            Some(b) => Ok(Some(b.to_string())),
            None => Ok(None),
        },
        None => Ok(None),
    }
}

/// Expands a leading `~/` or a bare `~` to the home directory.
pub fn expand_tilde(path: &str, home: Option<&str>) -> (r: String)
    ensures
        r@ == spec_expand_tilde(
            path@,
            match home {
                Some(h) => Some(h@),
                None => None,
            },
        ),
{
    if let Some(h) = home {
        if let Some(rest) = strip_prefix(path, "~/") {
            let mut s = h.to_owned();
            s.append("/");
            s.append(rest);
            return s;
        }
        if str_eq(path, "~") {
            return h.to_owned();
        }
        return path.to_owned();
    }
    path.to_owned()
}

impl Config {
    /// Reads the configuration from the file's text, when the file
    /// exists: an unreadable document is an error, a document without
    /// the `worktree_base` key — like a missing file — yields the
    /// default base directory, and a `~` in the base is expanded with
    /// the given home directory.
    pub fn load(contents: Option<&str>, home: Option<&str>) -> (r: Result<Config, ArvoreError>)
        ensures
            ({
                let h = match home {
                    Some(x) => Some(x@),
                    None => None,
                };
                match contents {
                    None => r matches Ok(c) && c.worktree_base@ == spec_default_base(h),
                    Some(text) => match config_base_of(text@) {
                        None => r matches Err(e) && e is ConfigError,
                        Some(None) => r matches Ok(c) && c.worktree_base@ == spec_default_base(h),
                        Some(Some(b)) => r matches Ok(c) && c.worktree_base@ == spec_expand_tilde(
                            b,
                            h,
                        ),
                    },
                }
            }),
    {
        match contents {
            None => Ok(Config { worktree_base: expand_tilde("~/Dev/worktrees", home) }),
            Some(text) => match parse_config_yaml(text) {
                Err(m) => Err(ArvoreError::ConfigError(m)),
                Ok(None) => Ok(Config { worktree_base: expand_tilde("~/Dev/worktrees", home) }),
                Ok(Some(b)) => Ok(Config { worktree_base: expand_tilde(b.as_str(), home) }),
            },
        }
    }

    /// The path of the worktree that holds `branch` for `repo_name`.
    pub fn worktree_path(&self, repo_name: &str, branch: &str) -> (r: String)
        ensures
            r@ == spec_worktree_path(self.worktree_base@, repo_name@, branch@),
    {
        let mut s = self.worktree_base.clone();
        s.append("/");
        s.append(repo_name);
        s.append("/");
        let n = branch.unicode_len();
        let mut i: usize = 0;
        proof {
            assert(sanitize_branch(branch@.take(0)) =~= Seq::<char>::empty());
            assert(s@ + Seq::<char>::empty() =~= s@);
        }
        while i < n
            invariant
                i <= n,
                n == branch@.len(),
                s@ == self.worktree_base@ + "/"@ + repo_name@ + "/"@ + sanitize_branch(
                    branch@.take(i as int),
                ),
            decreases n - i,
        {
            let ghost prev = s@;
            if branch.get_char(i) == '/' {
                s.append("-");
                proof {
                    reveal_strlit("-");
                    assert("-"@ =~= seq!['-']);
                }
            } else {
                let piece = branch.substring_char(i, i + 1);
                s.append(piece);
                proof {
                    assert(piece@ =~= seq![branch@[i as int]]);
                }
            }
            proof {
                assert(sanitize_branch(branch@.take(i + 1)) =~= sanitize_branch(
                    branch@.take(i as int),
                ).push(
                    if branch@[i as int] == '/' {
                        '-'
                    } else {
                        branch@[i as int]
                    },
                ));
                assert(s@ =~= self.worktree_base@ + "/"@ + repo_name@ + "/"@ + sanitize_branch(
                    branch@.take(i + 1),
                ));
            }
            i += 1;
        }
        proof {
            assert(branch@.take(n as int) =~= branch@);
        }
        s
    }
}

} // verus!
