//! The command-line grammar: a verified parser from an argument list
//! to the command to run.

use vstd::prelude::*;
use vstd::string::StrSliceExecFns;

use crate::strutil::opt_view;
use crate::strutil::str_eq;
use crate::strutil::strings_view;

verus! {

/// The shells completions can be generated for.
#[derive(Clone, Copy, PartialEq, Eq, Structural, Debug)]
pub enum ShellType {
    Bash,
    Zsh,
    Fish,
    Elvish,
    PowerShell,
}

/// The subcommands and their options.
#[derive(Debug)]
pub enum Commands {
    Create { branch: String, from: Option<String>, open: bool },
    List { porcelain: bool },
    Remove { target: String, force: bool },
    Open { branch: String, cursor: bool, warp: bool, all: bool },
    Path { branch: String },
    Clean { dry_run: bool },
    Completions { shell: ShellType },
}

/// A parsed invocation: the global configuration-file option and the
/// chosen subcommand.
#[derive(Debug)]
pub struct Cli {
    pub config: Option<String>,
    pub command: Commands,
}

/// The mathematical value of a [`Commands`].
pub ghost enum CommandsV {
    Create { branch: Seq<char>, from: Option<Seq<char>>, open: bool },
    List { porcelain: bool },
    Remove { target: Seq<char>, force: bool },
    Open { branch: Seq<char>, cursor: bool, warp: bool, all: bool },
    Path { branch: Seq<char> },
    Clean { dry_run: bool },
    Completions { shell: ShellType },
}

/// The mathematical value of a [`Cli`].
pub ghost struct CliV {
    pub config: Option<Seq<char>>,
    pub command: CommandsV,
}

impl View for Commands {
    type V = CommandsV;

    open spec fn view(&self) -> CommandsV {
        match self {
            Commands::Create { branch, from, open } => CommandsV::Create {
                branch: branch@,
                from: match from {
                    Some(f) => Some(f@),
                    None => None,
                },
                open: *open,
            },
            Commands::List { porcelain } => CommandsV::List { porcelain: *porcelain },
            Commands::Remove { target, force } => CommandsV::Remove {
                target: target@,
                force: *force,
            },
            Commands::Open { branch, cursor, warp, all } => CommandsV::Open {
                branch: branch@,
                cursor: *cursor,
                warp: *warp,
                all: *all,
            },
            Commands::Path { branch } => CommandsV::Path { branch: branch@ },
            Commands::Clean { dry_run } => CommandsV::Clean { dry_run: *dry_run },
            Commands::Completions { shell } => CommandsV::Completions { shell: *shell },
        }
    }
}

impl View for Cli {
    type V = CliV;

    open spec fn view(&self) -> CliV {
        CliV {
            config: match self.config {
                Some(c) => Some(c@),
                None => None,
            },
            command: self.command@,
        }
    }
}

/// A token that looks like an option: it starts with `--`.
pub open spec fn is_flag_tok(x: Seq<char>) -> bool {
    x.len() >= 2 && x[0] == '-' && x[1] == '-'
}

fn is_flag_tok_exec(s: &str) -> (r: bool)
    ensures
        r == is_flag_tok(s@),
{
    s.unicode_len() >= 2 && s.get_char(0) == '-' && s.get_char(1) == '-'
}

/// The shell a completions argument names, if any.
pub open spec fn shell_of(x: Seq<char>) -> Option<ShellType> {
    if x == "bash"@ {
        Some(ShellType::Bash)
    } else if x == "zsh"@ {
        Some(ShellType::Zsh)
    } else if x == "fish"@ {
        Some(ShellType::Fish)
    } else if x == "elvish"@ {
        Some(ShellType::Elvish)
    } else if x == "powershell"@ {
        Some(ShellType::PowerShell)
    } else {
        None
    }
}

fn parse_shell(s: &str) -> (r: Option<ShellType>)
    ensures
        r == shell_of(s@),
{
    if str_eq(s, "bash") {
        Some(ShellType::Bash)
    } else if str_eq(s, "zsh") {
        Some(ShellType::Zsh)
    } else if str_eq(s, "fish") {
        Some(ShellType::Fish)
    } else if str_eq(s, "elvish") {
        Some(ShellType::Elvish)
    } else if str_eq(s, "powershell") {
        Some(ShellType::PowerShell)
    } else {
        None
    }
}

/// What the create subcommand's remaining tokens mean, given the
/// options gathered so far; `None` is a parse error.
pub open spec fn spec_parse_create(
    t: Seq<Seq<char>>,
    cfg: Option<Seq<char>>,
    branch: Option<Seq<char>>,
    from: Option<Seq<char>>,
    open: bool,
) -> Option<CliV>
    decreases t.len(),
{
    if t.len() == 0 {
        match branch {
            Some(b) => Some(
                CliV { config: cfg, command: CommandsV::Create { branch: b, from, open } },
            ),
            None => None,
        }
    } else if t[0] == "--config"@ {
        if cfg is Some || t.len() < 2 {
            None
        } else {
            spec_parse_create(t.skip(2), Some(t[1]), branch, from, open)
        }
    } else if t[0] == "--from"@ {
        if from is Some || t.len() < 2 {
            None
        } else {
            spec_parse_create(t.skip(2), cfg, branch, Some(t[1]), open)
        }
    } else if t[0] == "--open"@ {
        spec_parse_create(t.drop_first(), cfg, branch, from, true)
    } else if is_flag_tok(t[0]) {
        None
    } else if branch is Some {
        None
    } else {
        spec_parse_create(t.drop_first(), cfg, Some(t[0]), from, open)
    }
}

/// What the list subcommand's remaining tokens mean.
pub open spec fn spec_parse_list(t: Seq<Seq<char>>, cfg: Option<Seq<char>>, porcelain: bool) -> Option<
    CliV,
>
    decreases t.len(),
{
    if t.len() == 0 {
        Some(CliV { config: cfg, command: CommandsV::List { porcelain } })
    } else if t[0] == "--config"@ {
        if cfg is Some || t.len() < 2 {
            None
        } else {
            spec_parse_list(t.skip(2), Some(t[1]), porcelain)
        }
    } else if t[0] == "--porcelain"@ {
        spec_parse_list(t.drop_first(), cfg, true)
    } else {
        None
    }
}

/// What the remove subcommand's remaining tokens mean.
pub open spec fn spec_parse_remove(
    t: Seq<Seq<char>>,
    cfg: Option<Seq<char>>,
    target: Option<Seq<char>>,
    force: bool,
) -> Option<CliV>
    decreases t.len(),
{
    if t.len() == 0 {
        match target {
            Some(x) => Some(CliV { config: cfg, command: CommandsV::Remove { target: x, force } }),
            None => None,
        }
    } else if t[0] == "--config"@ {
        if cfg is Some || t.len() < 2 {
            None
        } else {
            spec_parse_remove(t.skip(2), Some(t[1]), target, force)
        }
    } else if t[0] == "--force"@ {
        spec_parse_remove(t.drop_first(), cfg, target, true)
    } else if is_flag_tok(t[0]) {
        None
    } else if target is Some {
        None
    } else {
        spec_parse_remove(t.drop_first(), cfg, Some(t[0]), force)
    }
}

/// What the open subcommand's remaining tokens mean.
pub open spec fn spec_parse_open(
    t: Seq<Seq<char>>,
    cfg: Option<Seq<char>>,
    branch: Option<Seq<char>>,
    cursor: bool,
    warp: bool,
    all: bool,
) -> Option<CliV>
    decreases t.len(),
{
    if t.len() == 0 {
        match branch {
            Some(b) => Some(
                CliV { config: cfg, command: CommandsV::Open { branch: b, cursor, warp, all } },
            ),
            None => None,
        }
    } else if t[0] == "--config"@ {
        if cfg is Some || t.len() < 2 {
            None
        } else {
            spec_parse_open(t.skip(2), Some(t[1]), branch, cursor, warp, all)
        }
    } else if t[0] == "--cursor"@ {
        spec_parse_open(t.drop_first(), cfg, branch, true, warp, all)
    } else if t[0] == "--warp"@ {
        spec_parse_open(t.drop_first(), cfg, branch, cursor, true, all)
    } else if t[0] == "--all"@ {
        spec_parse_open(t.drop_first(), cfg, branch, cursor, warp, true)
    } else if is_flag_tok(t[0]) {
        None
    } else if branch is Some {
        None
    } else {
        spec_parse_open(t.drop_first(), cfg, Some(t[0]), cursor, warp, all)
    }
}

/// What the path subcommand's remaining tokens mean.
pub open spec fn spec_parse_path(
    t: Seq<Seq<char>>,
    cfg: Option<Seq<char>>,
    branch: Option<Seq<char>>,
) -> Option<CliV>
    decreases t.len(),
{
    if t.len() == 0 {
        match branch {
            Some(b) => Some(CliV { config: cfg, command: CommandsV::Path { branch: b } }),
            None => None,
        }
    } else if t[0] == "--config"@ {
        if cfg is Some || t.len() < 2 {
            None
        } else {
            spec_parse_path(t.skip(2), Some(t[1]), branch)
        }
    } else if is_flag_tok(t[0]) {
        None
    } else if branch is Some {
        None
    } else {
        spec_parse_path(t.drop_first(), cfg, Some(t[0]))
    }
}

/// What the clean subcommand's remaining tokens mean.
pub open spec fn spec_parse_clean(t: Seq<Seq<char>>, cfg: Option<Seq<char>>, dry_run: bool) -> Option<
    CliV,
>
    decreases t.len(),
{
    if t.len() == 0 {
        Some(CliV { config: cfg, command: CommandsV::Clean { dry_run } })
    } else if t[0] == "--config"@ {
        if cfg is Some || t.len() < 2 {
            None
        } else {
            spec_parse_clean(t.skip(2), Some(t[1]), dry_run)
        }
    } else if t[0] == "--dry-run"@ {
        spec_parse_clean(t.drop_first(), cfg, true)
    } else {
        None
    }
}

/// What the completions subcommand's remaining tokens mean.
pub open spec fn spec_parse_completions(
    t: Seq<Seq<char>>,
    cfg: Option<Seq<char>>,
    shell: Option<ShellType>,
) -> Option<CliV>
    decreases t.len(),
{
    if t.len() == 0 {
        match shell {
            Some(s) => Some(CliV { config: cfg, command: CommandsV::Completions { shell: s } }),
            None => None,
        }
    } else if t[0] == "--config"@ {
        if cfg is Some || t.len() < 2 {
            None
        } else {
            spec_parse_completions(t.skip(2), Some(t[1]), shell)
        }
    } else if is_flag_tok(t[0]) {
        None
    } else if shell is Some {
        None
    } else {
        match shell_of(t[0]) {
            Some(s) => spec_parse_completions(t.drop_first(), cfg, Some(s)),
            None => None,
        }
    }
}

/// What the tokens after the program name mean: the global option may
/// come first, then a subcommand takes the rest.
pub open spec fn spec_parse_top(t: Seq<Seq<char>>, cfg: Option<Seq<char>>) -> Option<CliV>
    decreases t.len(),
{
    if t.len() == 0 {
        None
    } else if t[0] == "--config"@ {
        if cfg is Some || t.len() < 2 {
            None
        } else {
            spec_parse_top(t.skip(2), Some(t[1]))
        }
    } else if t[0] == "create"@ {
        spec_parse_create(t.drop_first(), cfg, None, None, false)
    } else if t[0] == "ls"@ {
        spec_parse_list(t.drop_first(), cfg, false)
    } else if t[0] == "rm"@ {
        spec_parse_remove(t.drop_first(), cfg, None, false)
    } else if t[0] == "open"@ {
        spec_parse_open(t.drop_first(), cfg, None, false, false, false)
    } else if t[0] == "path"@ {
        spec_parse_path(t.drop_first(), cfg, None)
    } else if t[0] == "clean"@ {
        spec_parse_clean(t.drop_first(), cfg, false)
    } else if t[0] == "completions"@ {
        spec_parse_completions(t.drop_first(), cfg, None)
    } else {
        None
    }
}

/// What a whole argument list means: the first token is the program
/// name and carries no information.
pub open spec fn spec_parse_cli(args: Seq<Seq<char>>) -> Option<CliV> {
    if args.len() == 0 {
        None
    } else {
        spec_parse_top(args.drop_first(), None)
    }
}

fn parse_create(
    args: &Vec<String>,
    i: usize,
    cfg: Option<String>,
    branch: Option<String>,
    from: Option<String>,
    open: bool,
) -> (r: Result<Cli, String>)
    requires
        i <= args@.len(),
    ensures
        match r {
            Ok(c) => spec_parse_create(
                strings_view(args@).skip(i as int),
                opt_view(cfg),
                opt_view(branch),
                opt_view(from),
                open,
            ) == Some(c@),
            Err(_) => spec_parse_create(
                strings_view(args@).skip(i as int),
                opt_view(cfg),
                opt_view(branch),
                opt_view(from),
                open,
            ) is None,
        },
    decreases args@.len() - i,
{
    let ghost sv = strings_view(args@);
    proof {
        if i < args@.len() {
            assert(sv.skip(i as int)[0] == sv[i as int]);
            assert(sv.skip(i as int).drop_first() =~= sv.skip(i as int + 1));
            if i + 1 < args@.len() {
                assert(sv.skip(i as int)[1] == sv[i as int + 1]);
                assert(sv.skip(i as int).skip(2) =~= sv.skip(i as int + 2));
            }
        }
    }
    if i == args.len() {
        match branch {
            Some(b) => Ok(Cli { config: cfg, command: Commands::Create { branch: b, from, open } }),
            None => Err("missing required argument: branch".to_owned()),
        }
    } else if str_eq(args[i].as_str(), "--config") {
        if cfg.is_some() || i + 1 == args.len() {
            Err("invalid use of --config".to_owned())
        } else {
            parse_create(args, i + 2, Some(args[i + 1].clone()), branch, from, open)
        }
    } else if str_eq(args[i].as_str(), "--from") {
        if from.is_some() || i + 1 == args.len() {
            Err("invalid use of --from".to_owned())
        } else {
            parse_create(args, i + 2, cfg, branch, Some(args[i + 1].clone()), open)
        }
    } else if str_eq(args[i].as_str(), "--open") {
        parse_create(args, i + 1, cfg, branch, from, true)
    } else if is_flag_tok_exec(args[i].as_str()) {
        Err("unexpected option".to_owned())
    } else if branch.is_some() {
        Err("unexpected argument".to_owned())
    } else {
        let b = args[i].clone();
        parse_create(args, i + 1, cfg, Some(b), from, open)
    }
}

fn parse_list(args: &Vec<String>, i: usize, cfg: Option<String>, porcelain: bool) -> (r: Result<
    Cli,
    String,
>)
    requires
        i <= args@.len(),
    ensures
        match r {
            Ok(c) => spec_parse_list(strings_view(args@).skip(i as int), opt_view(cfg), porcelain)
                == Some(c@),
            Err(_) => spec_parse_list(
                strings_view(args@).skip(i as int),
                opt_view(cfg),
                porcelain,
            ) is None,
        },
    decreases args@.len() - i,
{
    let ghost sv = strings_view(args@);
    proof {
        if i < args@.len() {
            assert(sv.skip(i as int)[0] == sv[i as int]);
            assert(sv.skip(i as int).drop_first() =~= sv.skip(i as int + 1));
            if i + 1 < args@.len() {
                assert(sv.skip(i as int)[1] == sv[i as int + 1]);
                assert(sv.skip(i as int).skip(2) =~= sv.skip(i as int + 2));
            }
        }
    }
    if i == args.len() {
        Ok(Cli { config: cfg, command: Commands::List { porcelain } })
    } else if str_eq(args[i].as_str(), "--config") {
        if cfg.is_some() || i + 1 == args.len() {
            Err("invalid use of --config".to_owned())
        } else {
            parse_list(args, i + 2, Some(args[i + 1].clone()), porcelain)
        }
    } else if str_eq(args[i].as_str(), "--porcelain") {
        parse_list(args, i + 1, cfg, true)
    } else {
        Err("unexpected argument".to_owned())
    }
}

fn parse_remove(
    args: &Vec<String>,
    i: usize,
    cfg: Option<String>,
    target: Option<String>,
    force: bool,
) -> (r: Result<Cli, String>)
    requires
        i <= args@.len(),
    ensures
        match r {
            Ok(c) => spec_parse_remove(
                strings_view(args@).skip(i as int),
                opt_view(cfg),
                opt_view(target),
                force,
            ) == Some(c@),
            Err(_) => spec_parse_remove(
                strings_view(args@).skip(i as int),
                opt_view(cfg),
                opt_view(target),
                force,
            ) is None,
        },
    decreases args@.len() - i,
{
    let ghost sv = strings_view(args@);
    proof {
        if i < args@.len() {
            assert(sv.skip(i as int)[0] == sv[i as int]);
            assert(sv.skip(i as int).drop_first() =~= sv.skip(i as int + 1));
            if i + 1 < args@.len() {
                assert(sv.skip(i as int)[1] == sv[i as int + 1]);
                assert(sv.skip(i as int).skip(2) =~= sv.skip(i as int + 2));
            }
        }
    }
    if i == args.len() {
        match target {
            Some(x) => Ok(Cli { config: cfg, command: Commands::Remove { target: x, force } }),
            None => Err("missing required argument: target".to_owned()),
        }
    } else if str_eq(args[i].as_str(), "--config") {
        if cfg.is_some() || i + 1 == args.len() {
            Err("invalid use of --config".to_owned())
        } else {
            parse_remove(args, i + 2, Some(args[i + 1].clone()), target, force)
        }
    } else if str_eq(args[i].as_str(), "--force") {
        parse_remove(args, i + 1, cfg, target, true)
    } else if is_flag_tok_exec(args[i].as_str()) {
        Err("unexpected option".to_owned())
    } else if target.is_some() {
        Err("unexpected argument".to_owned())
    } else {
        let x = args[i].clone();
        parse_remove(args, i + 1, cfg, Some(x), force)
    }
}

fn parse_open(
    args: &Vec<String>,
    i: usize,
    cfg: Option<String>,
    branch: Option<String>,
    cursor: bool,
    warp: bool,
    all: bool,
) -> (r: Result<Cli, String>)
    requires
        i <= args@.len(),
    ensures
        match r {
            Ok(c) => spec_parse_open(
                strings_view(args@).skip(i as int),
                opt_view(cfg),
                opt_view(branch),
                cursor,
                warp,
                all,
            ) == Some(c@),
            Err(_) => spec_parse_open(
                strings_view(args@).skip(i as int),
                opt_view(cfg),
                opt_view(branch),
                cursor,
                warp,
                all,
            ) is None,
        },
    decreases args@.len() - i,
{
    let ghost sv = strings_view(args@);
    proof {
        if i < args@.len() {
            assert(sv.skip(i as int)[0] == sv[i as int]);
            assert(sv.skip(i as int).drop_first() =~= sv.skip(i as int + 1));
            if i + 1 < args@.len() {
                assert(sv.skip(i as int)[1] == sv[i as int + 1]);
                assert(sv.skip(i as int).skip(2) =~= sv.skip(i as int + 2));
            }
        }
    }
    if i == args.len() {
        match branch {
            Some(b) => Ok(
                Cli { config: cfg, command: Commands::Open { branch: b, cursor, warp, all } },
            ),
            None => Err("missing required argument: branch".to_owned()),
        }
    } else if str_eq(args[i].as_str(), "--config") {
        if cfg.is_some() || i + 1 == args.len() {
            Err("invalid use of --config".to_owned())
        } else {
            parse_open(args, i + 2, Some(args[i + 1].clone()), branch, cursor, warp, all)
        }
    } else if str_eq(args[i].as_str(), "--cursor") {
        parse_open(args, i + 1, cfg, branch, true, warp, all)
    } else if str_eq(args[i].as_str(), "--warp") {
        parse_open(args, i + 1, cfg, branch, cursor, true, all)
    } else if str_eq(args[i].as_str(), "--all") {
        parse_open(args, i + 1, cfg, branch, cursor, warp, true)
    } else if is_flag_tok_exec(args[i].as_str()) {
        Err("unexpected option".to_owned())
    } else if branch.is_some() {
        Err("unexpected argument".to_owned())
    } else {
        let b = args[i].clone();
        parse_open(args, i + 1, cfg, Some(b), cursor, warp, all)
    }
}

fn parse_path(args: &Vec<String>, i: usize, cfg: Option<String>, branch: Option<String>) -> (r:
    Result<Cli, String>)
    requires
        i <= args@.len(),
    ensures
        match r {
            Ok(c) => spec_parse_path(
                strings_view(args@).skip(i as int),
                opt_view(cfg),
                opt_view(branch),
            ) == Some(c@),
            Err(_) => spec_parse_path(
                strings_view(args@).skip(i as int),
                opt_view(cfg),
                opt_view(branch),
            ) is None,
        },
    decreases args@.len() - i,
{
    let ghost sv = strings_view(args@);
    proof {
        if i < args@.len() {
            assert(sv.skip(i as int)[0] == sv[i as int]);
            assert(sv.skip(i as int).drop_first() =~= sv.skip(i as int + 1));
            if i + 1 < args@.len() {
                assert(sv.skip(i as int)[1] == sv[i as int + 1]);
                assert(sv.skip(i as int).skip(2) =~= sv.skip(i as int + 2));
            }
        }
    }
    if i == args.len() {
        match branch {
            Some(b) => Ok(Cli { config: cfg, command: Commands::Path { branch: b } }),
            None => Err("missing required argument: branch".to_owned()),
        }
    } else if str_eq(args[i].as_str(), "--config") {
        if cfg.is_some() || i + 1 == args.len() {
            Err("invalid use of --config".to_owned())
        } else {
            parse_path(args, i + 2, Some(args[i + 1].clone()), branch)
        }
    } else if is_flag_tok_exec(args[i].as_str()) {
        Err("unexpected option".to_owned())
    } else if branch.is_some() {
        Err("unexpected argument".to_owned())
    } else {
        let b = args[i].clone();
        parse_path(args, i + 1, cfg, Some(b))
    }
}

fn parse_clean(args: &Vec<String>, i: usize, cfg: Option<String>, dry_run: bool) -> (r: Result<
    Cli,
    String,
>)
    requires
        i <= args@.len(),
    ensures
        match r {
            Ok(c) => spec_parse_clean(strings_view(args@).skip(i as int), opt_view(cfg), dry_run)
                == Some(c@),
            Err(_) => spec_parse_clean(
                strings_view(args@).skip(i as int),
                opt_view(cfg),
                dry_run,
            ) is None,
        },
    decreases args@.len() - i,
{
    let ghost sv = strings_view(args@);
    proof {
        if i < args@.len() {
            assert(sv.skip(i as int)[0] == sv[i as int]);
            assert(sv.skip(i as int).drop_first() =~= sv.skip(i as int + 1));
            if i + 1 < args@.len() {
                assert(sv.skip(i as int)[1] == sv[i as int + 1]);
                assert(sv.skip(i as int).skip(2) =~= sv.skip(i as int + 2));
            }
        }
    }
    if i == args.len() {
        Ok(Cli { config: cfg, command: Commands::Clean { dry_run } })
    } else if str_eq(args[i].as_str(), "--config") {
        if cfg.is_some() || i + 1 == args.len() {
            Err("invalid use of --config".to_owned())
        } else {
            parse_clean(args, i + 2, Some(args[i + 1].clone()), dry_run)
        }
    } else if str_eq(args[i].as_str(), "--dry-run") {
        parse_clean(args, i + 1, cfg, true)
    } else {
        Err("unexpected argument".to_owned())
    }
}

fn parse_completions(
    args: &Vec<String>,
    i: usize,
    cfg: Option<String>,
    shell: Option<ShellType>,
) -> (r: Result<Cli, String>)
    requires
        i <= args@.len(),
    ensures
        match r {
            Ok(c) => spec_parse_completions(strings_view(args@).skip(i as int), opt_view(cfg), shell)
                == Some(c@),
            Err(_) => spec_parse_completions(
                strings_view(args@).skip(i as int),
                opt_view(cfg),
                shell,
            ) is None,
        },
    decreases args@.len() - i,
{
    let ghost sv = strings_view(args@);
    proof {
        if i < args@.len() {
            assert(sv.skip(i as int)[0] == sv[i as int]);
            assert(sv.skip(i as int).drop_first() =~= sv.skip(i as int + 1));
            if i + 1 < args@.len() {
                assert(sv.skip(i as int)[1] == sv[i as int + 1]);
                assert(sv.skip(i as int).skip(2) =~= sv.skip(i as int + 2));
            }
        }
    }
    if i == args.len() {
        match shell {
            Some(s) => Ok(Cli { config: cfg, command: Commands::Completions { shell: s } }),
            None => Err("missing required argument: shell".to_owned()),
        }
    } else if str_eq(args[i].as_str(), "--config") {
        if cfg.is_some() || i + 1 == args.len() {
            Err("invalid use of --config".to_owned())
        } else {
            parse_completions(args, i + 2, Some(args[i + 1].clone()), shell)
        }
    } else if is_flag_tok_exec(args[i].as_str()) {
        Err("unexpected option".to_owned())
    } else if shell.is_some() {
        Err("unexpected argument".to_owned())
    } else {
        match parse_shell(args[i].as_str()) {
            Some(s) => parse_completions(args, i + 1, cfg, Some(s)),
            None => Err("invalid shell name".to_owned()),
        }
    }
}

fn parse_top(args: &Vec<String>, i: usize, cfg: Option<String>) -> (r: Result<Cli, String>)
    requires
        i <= args@.len(),
    ensures
        match r {
            Ok(c) => spec_parse_top(strings_view(args@).skip(i as int), opt_view(cfg)) == Some(c@),
            Err(_) => spec_parse_top(strings_view(args@).skip(i as int), opt_view(cfg)) is None,
        },
    decreases args@.len() - i,
{
    let ghost sv = strings_view(args@);
    proof {
        if i < args@.len() {
            assert(sv.skip(i as int)[0] == sv[i as int]);
            assert(sv.skip(i as int).drop_first() =~= sv.skip(i as int + 1));
            if i + 1 < args@.len() {
                assert(sv.skip(i as int)[1] == sv[i as int + 1]);
                assert(sv.skip(i as int).skip(2) =~= sv.skip(i as int + 2));
            }
        }
    }
    if i == args.len() {
        Err("missing subcommand".to_owned())
    } else if str_eq(args[i].as_str(), "--config") {
        if cfg.is_some() || i + 1 == args.len() {
            Err("invalid use of --config".to_owned())
        } else {
            parse_top(args, i + 2, Some(args[i + 1].clone()))
        }
    } else if str_eq(args[i].as_str(), "create") {
        parse_create(args, i + 1, cfg, None, None, false)
    } else if str_eq(args[i].as_str(), "ls") {
        parse_list(args, i + 1, cfg, false)
    } else if str_eq(args[i].as_str(), "rm") {
        parse_remove(args, i + 1, cfg, None, false)
    } else if str_eq(args[i].as_str(), "open") {
        parse_open(args, i + 1, cfg, None, false, false, false)
    } else if str_eq(args[i].as_str(), "path") {
        parse_path(args, i + 1, cfg, None)
    } else if str_eq(args[i].as_str(), "clean") {
        parse_clean(args, i + 1, cfg, false)
    } else if str_eq(args[i].as_str(), "completions") {
        parse_completions(args, i + 1, cfg, None)
    } else {
        Err("unknown subcommand".to_owned())
    }
}

impl Cli {
    /// Parses an argument list, the program name first: `Ok` exactly
    /// when the list fits the grammar, and then with the meaning
    /// [`spec_parse_cli`] gives it.
    pub fn try_parse_from(args: &Vec<String>) -> (r: Result<Cli, String>)
        ensures
            match r {
                Ok(c) => spec_parse_cli(strings_view(args@)) == Some(c@),
                Err(_) => spec_parse_cli(strings_view(args@)) is None,
            },
    {
        if args.len() == 0 {
            return Err("missing program name".to_owned());
        }
        proof {
            assert(strings_view(args@).skip(1) =~= strings_view(args@).drop_first());
        }
        parse_top(args, 1, None)
    }
}

} // verus!
