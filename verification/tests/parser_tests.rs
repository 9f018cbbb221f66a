use arvore::git::parse_worktree_porcelain;

#[test]
fn parse_single_worktree() {
    let output = "\
worktree /path/to/repo
HEAD abc123def456
branch refs/heads/main

";
    let wts = parse_worktree_porcelain(output);
    assert_eq!(wts.len(), 1);
    assert_eq!(wts[0].path, "/path/to/repo");
    assert_eq!(wts[0].head, "abc123def456");
    assert_eq!(wts[0].branch.as_deref(), Some("main"));
    assert!(!wts[0].is_bare);
}

#[test]
fn parse_multiple_worktrees() {
    let output = "\
worktree /path/to/repo
HEAD abc123def456
branch refs/heads/main

worktree /path/to/wt1
HEAD def456abc789
branch refs/heads/feature-x

";
    let wts = parse_worktree_porcelain(output);
    assert_eq!(wts.len(), 2);
    assert_eq!(wts[0].path, "/path/to/repo");
    assert_eq!(wts[0].branch.as_deref(), Some("main"));
    assert_eq!(wts[1].path, "/path/to/wt1");
    assert_eq!(wts[1].head, "def456abc789");
    assert_eq!(wts[1].branch.as_deref(), Some("feature-x"));
}

#[test]
fn parse_bare_worktree() {
    let output = "\
worktree /path/to/repo
HEAD abc123def456
bare

";
    let wts = parse_worktree_porcelain(output);
    assert_eq!(wts.len(), 1);
    assert!(wts[0].is_bare);
    assert!(wts[0].branch.is_none());
}

#[test]
fn parse_detached_head() {
    let output = "\
worktree /path/to/repo
HEAD abc123def456
detached

";
    let wts = parse_worktree_porcelain(output);
    assert_eq!(wts.len(), 1);
    assert!(wts[0].branch.is_none());
    assert!(!wts[0].is_bare);
}

#[test]
fn parse_empty_output() {
    let wts = parse_worktree_porcelain("");
    assert!(wts.is_empty());
}

#[test]
fn parse_no_trailing_newline() {
    let output = "\
worktree /path/to/repo
HEAD abc123def456
branch refs/heads/main";
    let wts = parse_worktree_porcelain(output);
    assert_eq!(wts.len(), 1);
    assert_eq!(wts[0].path, "/path/to/repo");
    assert_eq!(wts[0].branch.as_deref(), Some("main"));
}

#[test]
fn parse_keeps_last_seen_value_per_block() {
    let output = "\
worktree /old
worktree /new
HEAD aaa
HEAD bbb
branch refs/heads/one
branch refs/heads/two

";
    let wts = parse_worktree_porcelain(output);
    assert_eq!(wts.len(), 1);
    assert_eq!(wts[0].path, "/new");
    assert_eq!(wts[0].head, "bbb");
    assert_eq!(wts[0].branch.as_deref(), Some("two"));
}

#[test]
fn parse_ignores_unknown_lines() {
    let output = "\
worktree /p
HEAD abc
locked
prunable gitdir file points to non-existent location

";
    let wts = parse_worktree_porcelain(output);
    assert_eq!(wts.len(), 1);
    assert_eq!(wts[0].path, "/p");
    assert!(wts[0].branch.is_none());
    assert!(!wts[0].is_bare);
}

#[test]
fn parse_crlf_line_endings() {
    let output = "worktree /p\r\nHEAD abc\r\nbranch refs/heads/main\r\n\r\n";
    let wts = parse_worktree_porcelain(output);
    assert_eq!(wts.len(), 1);
    assert_eq!(wts[0].path, "/p");
    assert_eq!(wts[0].head, "abc");
    assert_eq!(wts[0].branch.as_deref(), Some("main"));
}

#[test]
fn parse_blank_lines_without_record_emit_nothing() {
    let wts = parse_worktree_porcelain("\n\n\n");
    assert!(wts.is_empty());
}
