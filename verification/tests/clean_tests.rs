use arvore::clean::{clean_prospects, dirty_flag, select_candidates, CleanCandidate};
use arvore::git::WorktreeInfo;

fn wt(path: &str, branch: Option<&str>, bare: bool) -> WorktreeInfo {
    WorktreeInfo {
        path: path.to_string(),
        branch: branch.map(|b| b.to_string()),
        head: "abc123".to_string(),
        is_bare: bare,
    }
}

fn strings(parts: &[&str]) -> Vec<String> {
    parts.iter().map(|p| p.to_string()).collect()
}

#[test]
fn prospects_skip_bare_detached_and_main() {
    let worktrees = vec![
        wt("/repo/.bare", None, true),
        wt("/repo/detached", None, false),
        wt("/repo/main", Some("main"), false),
        wt("/repo/feature", Some("feature"), false),
    ];
    let ps = clean_prospects(&worktrees, "main");
    assert_eq!(ps.len(), 1);
    assert_eq!(ps[0].branch, "feature");
    assert_eq!(ps[0].path, "/repo/feature");
}

#[test]
fn main_branch_never_candidate_even_if_merged() {
    let worktrees = vec![wt("/repo/main", Some("main"), false)];
    let ps = clean_prospects(&worktrees, "main");
    assert!(ps.is_empty());
    let cands = select_candidates(&ps, &strings(&["main"]), &vec![]);
    assert!(cands.is_empty());
}

#[test]
fn unflagged_prospect_never_candidate() {
    let worktrees = vec![wt("/repo/alive", Some("alive"), false)];
    let ps = clean_prospects(&worktrees, "main");
    assert_eq!(ps.len(), 1);
    let cands = select_candidates(&ps, &strings(&[]), &vec![true]);
    assert!(cands.is_empty());
}

#[test]
fn merged_candidate_reason_is_exactly_merged() {
    let worktrees = vec![wt("/repo/done", Some("done"), false)];
    let ps = clean_prospects(&worktrees, "main");
    let cands = select_candidates(&ps, &strings(&["done"]), &vec![true]);
    assert_eq!(cands.len(), 1);
    assert!(cands[0].merged);
    assert!(!cands[0].remote_deleted);
    assert!(!cands[0].dirty);
    assert_eq!(cands[0].reason(), "merged");
}

#[test]
fn remote_deleted_candidate_reason() {
    let worktrees = vec![wt("/repo/gone", Some("gone"), false)];
    let ps = clean_prospects(&worktrees, "main");
    let cands = select_candidates(&ps, &strings(&[]), &vec![false]);
    assert_eq!(cands.len(), 1);
    assert!(!cands[0].merged);
    assert!(cands[0].remote_deleted);
    assert_eq!(cands[0].reason(), "remote deleted");
}

#[test]
fn both_conditions_reason_is_joined() {
    let worktrees = vec![wt("/repo/old", Some("old"), false)];
    let ps = clean_prospects(&worktrees, "main");
    let cands = select_candidates(&ps, &strings(&["old"]), &vec![false]);
    assert_eq!(cands.len(), 1);
    assert_eq!(cands[0].reason(), "merged + remote deleted");
}

#[test]
fn selection_keeps_listing_order() {
    let worktrees = vec![
        wt("/r/a", Some("a"), false),
        wt("/r/b", Some("b"), false),
        wt("/r/c", Some("c"), false),
    ];
    let ps = clean_prospects(&worktrees, "main");
    let cands = select_candidates(&ps, &strings(&["a", "c"]), &vec![true, true, true]);
    assert_eq!(cands.len(), 2);
    assert_eq!(cands[0].branch, "a");
    assert_eq!(cands[1].branch, "c");
}

#[test]
fn reason_of_plain_candidate_values() {
    let c = CleanCandidate {
        branch: "x".to_string(),
        path: "/x".to_string(),
        merged: false,
        remote_deleted: false,
        dirty: false,
    };
    assert_eq!(c.reason(), "");
}

#[test]
fn dirty_flag_missing_directory_is_clean() {
    assert!(!dirty_flag(false, None));
    assert!(!dirty_flag(false, Some(" M file\n")));
}

#[test]
fn dirty_flag_follows_status() {
    assert!(!dirty_flag(true, Some("")));
    assert!(dirty_flag(true, Some(" M file\n")));
    assert!(!dirty_flag(true, None));
}
