use arvore::commands::{
    create_args, find_worktree, list_dirty, list_line, open_targets, plan_remove, resolve_target,
};
use arvore::config::Config;
use arvore::error::ArvoreError;
use arvore::git::{
    branch_exists_locally, ensure_repo, fetch_prune, is_dirty, is_inside_worktree,
    local_branch_ref, main_branch, merged_branches, remote_branch_exists, repo_name,
    status_porcelain, worktree_add, worktree_prune, worktree_remove, WorktreeInfo,
};

fn wt(path: &str, branch: Option<&str>, head: &str, bare: bool) -> WorktreeInfo {
    WorktreeInfo {
        path: path.to_string(),
        branch: branch.map(|b| b.to_string()),
        head: head.to_string(),
        is_bare: bare,
    }
}

#[test]
fn worktree_add_args_shapes() {
    assert_eq!(
        worktree_add("/p/wt", "feat", true, Some("main")),
        vec!["worktree", "add", "/p/wt", "-b", "feat", "main"]
    );
    assert_eq!(
        worktree_add("/p/wt", "feat", true, None),
        vec!["worktree", "add", "/p/wt", "-b", "feat"]
    );
    assert_eq!(
        worktree_add("/p/wt", "feat", false, None),
        vec!["worktree", "add", "/p/wt", "feat"]
    );
}

#[test]
fn worktree_remove_args_shapes() {
    assert_eq!(
        worktree_remove("/p/wt", false),
        vec!["worktree", "remove", "/p/wt"]
    );
    assert_eq!(
        worktree_remove("/p/wt", true),
        vec!["worktree", "remove", "--force", "/p/wt"]
    );
}

#[test]
fn fixed_argument_lists() {
    assert_eq!(worktree_prune(), vec!["worktree", "prune"]);
    assert_eq!(fetch_prune(), vec!["fetch", "--prune"]);
    assert_eq!(
        status_porcelain("/p/wt"),
        vec!["-C", "/p/wt", "status", "--porcelain"]
    );
}

#[test]
fn output_interpreters() {
    assert!(!is_dirty(""));
    assert!(is_dirty(" M src/lib.rs\n"));
    assert!(!remote_branch_exists(""));
    assert!(remote_branch_exists("abc\trefs/heads/feat\n"));
    assert!(is_inside_worktree(Some("true")));
    assert!(!is_inside_worktree(Some("false")));
    assert!(!is_inside_worktree(None));
    assert!(branch_exists_locally(Some("abc123")));
    assert!(!branch_exists_locally(None));
    assert_eq!(local_branch_ref("feat"), "refs/heads/feat");
}

#[test]
fn ensure_repo_errors_outside() {
    assert!(ensure_repo(true).is_ok());
    match ensure_repo(false) {
        Err(e) => assert_eq!(e.message(), "not inside a git repository"),
        Ok(_) => panic!("expected an error"),
    }
}

#[test]
fn main_branch_tries_names_in_order() {
    assert_eq!(main_branch(true, true, true, true).unwrap(), "main");
    assert_eq!(main_branch(false, true, true, true).unwrap(), "master");
    assert_eq!(main_branch(false, false, true, true).unwrap(), "main");
    assert_eq!(main_branch(false, false, false, true).unwrap(), "master");
    match main_branch(false, false, false, false) {
        Err(e) => assert_eq!(
            e.message(),
            "git command failed: cannot detect main branch (tried main, master)"
        ),
        Ok(_) => panic!("expected an error"),
    }
}

#[test]
fn merged_branches_trims_and_filters() {
    let out = "  main\n* feature\n  other\n\n";
    assert_eq!(merged_branches("main", out), vec!["feature", "other"]);
    assert_eq!(merged_branches("main", ""), Vec::<String>::new());
}

#[test]
fn repo_name_takes_last_segment() {
    assert_eq!(repo_name("/home/u/code/myrepo").unwrap(), "myrepo");
    assert_eq!(repo_name("/home/u/code/myrepo/").unwrap(), "myrepo");
    assert_eq!(repo_name("myrepo").unwrap(), "myrepo");
    match repo_name("/") {
        Err(e) => assert_eq!(e.message(), "git command failed: cannot determine repo name"),
        Ok(_) => panic!("expected an error"),
    }
}

#[test]
fn open_targets_flag_logic() {
    assert_eq!(open_targets(false, false, false), (true, true));
    assert_eq!(open_targets(true, false, false), (false, true));
    assert_eq!(open_targets(false, true, false), (true, false));
    assert_eq!(open_targets(true, true, false), (true, true));
    assert_eq!(open_targets(false, false, true), (true, true));
}

#[test]
fn resolve_target_prefers_existing_absolute_path() {
    let config = Config {
        worktree_base: "/base".to_string(),
    };
    assert_eq!(resolve_target(&config, "/abs/wt", true, "repo"), "/abs/wt");
    assert_eq!(
        resolve_target(&config, "/abs/wt", false, "repo"),
        "/base/repo/-abs-wt"
    );
    assert_eq!(
        resolve_target(&config, "feat", false, "repo"),
        "/base/repo/feat"
    );
}

#[test]
fn find_worktree_matches_path() {
    let worktrees = vec![
        wt("/base/repo/a", Some("a"), "abc", false),
        wt("/base/repo/b", Some("b"), "def", false),
    ];
    assert!(find_worktree(&worktrees, "/base/repo/b"));
    assert!(!find_worktree(&worktrees, "/base/repo/c"));
}

#[test]
fn plan_remove_unknown_target() {
    match plan_remove("feat", "/base/repo/feat", false, false, false) {
        Err(e) => assert_eq!(e.message(), "worktree 'feat' not found"),
        Ok(_) => panic!("expected an error"),
    }
}

#[test]
fn plan_remove_dirty_without_force_mentions_force() {
    match plan_remove("feat", "/base/repo/feat", true, false, true) {
        Err(e) => {
            let msg = e.message();
            assert_eq!(
                msg,
                "worktree 'feat' has uncommitted changes (use --force to remove)"
            );
            assert!(msg.contains("--force"), "message must name --force: {msg}");
        }
        Ok(_) => panic!("expected an error"),
    }
}

#[test]
fn plan_remove_allows_clean_or_forced() {
    assert_eq!(
        plan_remove("feat", "/base/repo/feat", true, false, false).unwrap(),
        vec!["worktree", "remove", "/base/repo/feat"]
    );
    assert_eq!(
        plan_remove("feat", "/base/repo/feat", true, true, true).unwrap(),
        vec!["worktree", "remove", "--force", "/base/repo/feat"]
    );
}

#[test]
fn create_args_chooses_new_or_existing_branch() {
    assert_eq!(
        create_args("/p", "b", Some("main"), false, false),
        vec!["worktree", "add", "/p", "-b", "b", "main"]
    );
    assert_eq!(
        create_args("/p", "b", None, true, false),
        vec!["worktree", "add", "/p", "b"]
    );
    assert_eq!(
        create_args("/p", "b", None, false, true),
        vec!["worktree", "add", "/p", "b"]
    );
    assert_eq!(
        create_args("/p", "b", None, false, false),
        vec!["worktree", "add", "/p", "-b", "b"]
    );
}

#[test]
fn list_line_is_tab_separated() {
    let w = wt("/base/repo/feat", Some("feat"), "0123456789abcdef", false);
    assert_eq!(list_line(&w, false), "feat\t/base/repo/feat\tclean\t01234567");
    assert_eq!(list_line(&w, true), "feat\t/base/repo/feat\tdirty\t01234567");
    let d = wt("/base/repo/x", None, "abc", false);
    assert_eq!(list_line(&d, false), "(detached)\t/base/repo/x\tclean\tabc");
}

#[test]
fn list_dirty_ignores_bare_and_missing() {
    assert!(!list_dirty(true, true, Some("M x\n")));
    assert!(!list_dirty(false, false, Some("M x\n")));
    assert!(!list_dirty(false, true, Some("")));
    assert!(list_dirty(false, true, Some("M x\n")));
    assert!(!list_dirty(false, true, None));
}

#[test]
fn error_messages_are_fixed() {
    assert_eq!(
        ArvoreError::WorktreeNotFound("x".to_string()).message(),
        "worktree 'x' not found"
    );
    assert_eq!(
        ArvoreError::GitError("boom".to_string()).message(),
        "git command failed: boom"
    );
    assert_eq!(
        ArvoreError::ConfigError("bad".to_string()).message(),
        "config error: bad"
    );
}
