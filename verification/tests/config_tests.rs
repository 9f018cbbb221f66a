use arvore::config::{expand_tilde, Config};

fn home() -> String {
    dirs::home_dir().unwrap().to_string_lossy().to_string()
}

#[test]
fn expand_tilde_with_subpath() {
    let h = home();
    assert_eq!(expand_tilde("~/foo", Some(&h)), format!("{h}/foo"));
}

#[test]
fn expand_tilde_alone() {
    let h = home();
    assert_eq!(expand_tilde("~", Some(&h)), h);
}

#[test]
fn expand_tilde_absolute_unchanged() {
    let h = home();
    assert_eq!(expand_tilde("/absolute/path", Some(&h)), "/absolute/path");
}

#[test]
fn expand_tilde_relative_unchanged() {
    let h = home();
    assert_eq!(expand_tilde("relative/path", Some(&h)), "relative/path");
}

#[test]
fn expand_tilde_without_home_unchanged() {
    assert_eq!(expand_tilde("~/foo", None), "~/foo");
    assert_eq!(expand_tilde("~", None), "~");
}

#[test]
fn worktree_path_simple_branch() {
    let config = Config {
        worktree_base: "/base".to_string(),
    };
    assert_eq!(
        config.worktree_path("myrepo", "feature"),
        "/base/myrepo/feature"
    );
}

#[test]
fn worktree_path_slash_in_branch() {
    let config = Config {
        worktree_base: "/base".to_string(),
    };
    assert_eq!(
        config.worktree_path("myrepo", "feature/auth"),
        "/base/myrepo/feature-auth"
    );
}

#[test]
fn worktree_path_multiple_slashes() {
    let config = Config {
        worktree_base: "/base".to_string(),
    };
    assert_eq!(
        config.worktree_path("myrepo", "feat/sub/deep"),
        "/base/myrepo/feat-sub-deep"
    );
}

#[test]
fn load_missing_file_returns_default() {
    let h = home();
    let config = Config::load(None, Some(&h)).unwrap();
    assert_eq!(config.worktree_base, format!("{h}/Dev/worktrees"));
}

#[test]
fn load_valid_yaml() {
    let h = home();
    let config = Config::load(Some("worktree_base: /tmp/my-worktrees\n"), Some(&h)).unwrap();
    assert_eq!(config.worktree_base, "/tmp/my-worktrees");
}

#[test]
fn load_yaml_without_worktree_base_uses_default() {
    let h = home();
    let config = Config::load(Some("other_key: value\n"), Some(&h)).unwrap();
    assert_eq!(config.worktree_base, format!("{h}/Dev/worktrees"));
}

#[test]
fn load_invalid_yaml_returns_error() {
    let h = home();
    let result = Config::load(Some("worktree_base: [invalid\n"), Some(&h));
    assert!(result.is_err());
    match result {
        Err(e) => {
            let msg = e.message();
            assert!(msg.starts_with("config error: "), "unexpected message: {msg}");
        }
        Ok(_) => panic!("expected an error"),
    }
}

#[test]
fn load_yaml_base_with_tilde_is_expanded() {
    let h = home();
    let config = Config::load(Some("worktree_base: ~/trees\n"), Some(&h)).unwrap();
    assert_eq!(config.worktree_base, format!("{h}/trees"));
}
