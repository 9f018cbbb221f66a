use arvore::cli::{Cli, Commands, ShellType};

fn args(parts: &[&str]) -> Vec<String> {
    parts.iter().map(|p| p.to_string()).collect()
}

#[test]
fn parse_create_basic() {
    let cli = Cli::try_parse_from(&args(&["arvore", "create", "my-branch"])).unwrap();
    match cli.command {
        Commands::Create { branch, from, open } => {
            assert_eq!(branch, "my-branch");
            assert!(from.is_none());
            assert!(!open);
        }
        _ => panic!("expected Create"),
    }
}

#[test]
fn parse_create_with_from() {
    let cli = Cli::try_parse_from(&args(&["arvore", "create", "my-branch", "--from", "main"]))
        .unwrap();
    match cli.command {
        Commands::Create { from, .. } => assert_eq!(from.as_deref(), Some("main")),
        _ => panic!("expected Create"),
    }
}

#[test]
fn parse_create_with_open() {
    let cli = Cli::try_parse_from(&args(&["arvore", "create", "my-branch", "--open"])).unwrap();
    match cli.command {
        Commands::Create { open, .. } => assert!(open),
        _ => panic!("expected Create"),
    }
}

#[test]
fn parse_list() {
    let cli = Cli::try_parse_from(&args(&["arvore", "ls"])).unwrap();
    match cli.command {
        Commands::List { porcelain } => assert!(!porcelain),
        _ => panic!("expected List"),
    }
}

#[test]
fn parse_list_porcelain() {
    let cli = Cli::try_parse_from(&args(&["arvore", "ls", "--porcelain"])).unwrap();
    match cli.command {
        Commands::List { porcelain } => assert!(porcelain),
        _ => panic!("expected List"),
    }
}

#[test]
fn parse_remove() {
    let cli = Cli::try_parse_from(&args(&["arvore", "rm", "my-branch"])).unwrap();
    match cli.command {
        Commands::Remove { target, force } => {
            assert_eq!(target, "my-branch");
            assert!(!force);
        }
        _ => panic!("expected Remove"),
    }
}

#[test]
fn parse_remove_force() {
    let cli = Cli::try_parse_from(&args(&["arvore", "rm", "my-branch", "--force"])).unwrap();
    match cli.command {
        Commands::Remove { force, .. } => assert!(force),
        _ => panic!("expected Remove"),
    }
}

#[test]
fn parse_open_cursor() {
    let cli = Cli::try_parse_from(&args(&["arvore", "open", "my-branch", "--cursor"])).unwrap();
    match cli.command {
        Commands::Open {
            branch,
            cursor,
            all,
            ..
        } => {
            assert_eq!(branch, "my-branch");
            assert!(cursor);
            assert!(!all);
        }
        _ => panic!("expected Open"),
    }
}

#[test]
fn parse_open_all() {
    let cli = Cli::try_parse_from(&args(&["arvore", "open", "my-branch", "--all"])).unwrap();
    match cli.command {
        Commands::Open { all, .. } => assert!(all),
        _ => panic!("expected Open"),
    }
}

#[test]
fn parse_path() {
    let cli = Cli::try_parse_from(&args(&["arvore", "path", "my-branch"])).unwrap();
    match cli.command {
        Commands::Path { branch } => assert_eq!(branch, "my-branch"),
        _ => panic!("expected Path"),
    }
}

#[test]
fn parse_clean() {
    let cli = Cli::try_parse_from(&args(&["arvore", "clean"])).unwrap();
    match cli.command {
        Commands::Clean { dry_run } => assert!(!dry_run),
        _ => panic!("expected Clean"),
    }
}

#[test]
fn parse_clean_dry_run() {
    let cli = Cli::try_parse_from(&args(&["arvore", "clean", "--dry-run"])).unwrap();
    match cli.command {
        Commands::Clean { dry_run } => assert!(dry_run),
        _ => panic!("expected Clean"),
    }
}

#[test]
fn parse_global_config_flag() {
    let cli = Cli::try_parse_from(&args(&["arvore", "--config", "/custom/path", "ls"])).unwrap();
    assert_eq!(cli.config, Some("/custom/path".to_string()));
}

#[test]
fn parse_missing_subcommand_errors() {
    let result = Cli::try_parse_from(&args(&["arvore"]));
    assert!(result.is_err());
}

#[test]
fn parse_completions_shell_names() {
    let cli = Cli::try_parse_from(&args(&["arvore", "completions", "zsh"])).unwrap();
    match cli.command {
        Commands::Completions { shell } => assert_eq!(shell, ShellType::Zsh),
        _ => panic!("expected Completions"),
    }
    let cli = Cli::try_parse_from(&args(&["arvore", "completions", "powershell"])).unwrap();
    match cli.command {
        Commands::Completions { shell } => assert_eq!(shell, ShellType::PowerShell),
        _ => panic!("expected Completions"),
    }
    assert!(Cli::try_parse_from(&args(&["arvore", "completions", "tcsh"])).is_err());
    assert!(Cli::try_parse_from(&args(&["arvore", "completions"])).is_err());
}

#[test]
fn parse_config_after_subcommand() {
    let cli = Cli::try_parse_from(&args(&["arvore", "ls", "--config", "/c.yaml"])).unwrap();
    assert_eq!(cli.config, Some("/c.yaml".to_string()));
    match cli.command {
        Commands::List { porcelain } => assert!(!porcelain),
        _ => panic!("expected List"),
    }
}

#[test]
fn parse_rejects_unknown_flag_and_extra_positional() {
    assert!(Cli::try_parse_from(&args(&["arvore", "ls", "--bogus"])).is_err());
    assert!(Cli::try_parse_from(&args(&["arvore", "rm", "a", "b"])).is_err());
    assert!(Cli::try_parse_from(&args(&["arvore", "create"])).is_err());
    assert!(Cli::try_parse_from(&args(&["arvore", "create", "b", "--from"])).is_err());
    assert!(Cli::try_parse_from(&args(&["arvore", "frobnicate"])).is_err());
}
