use ci::arch::Architecture;
use ci::cli::{Cli, Commands};
use clap::builder::{PathBufValueParser, PossibleValuesParser};
use clap::{Arg, ArgAction, ArgMatches, Command};
use std::path::PathBuf;

fn flag(name: &'static str) -> Arg {
    Arg::new(name).long(name).action(ArgAction::SetTrue)
}

fn value(name: &'static str) -> Arg {
    Arg::new(name).long(name).action(ArgAction::Set)
}

fn path(name: &'static str) -> Arg {
    value(name).value_parser(PathBufValueParser::new())
}

fn choice(name: &'static str, values: &[&'static str]) -> Arg {
    value(name).value_parser(PossibleValuesParser::new(values.to_vec()))
}

fn word(name: &'static str) -> Arg {
    Arg::new(name).action(ArgAction::Set)
}

fn architecture(value: &str) -> Result<String, String> {
    Architecture::parse(value).map(|arch| arch.to_text())
}

/// The command line as a `clap` command.
fn command() -> Command {
    let stacks = ["auto", "general", "rust", "node", "go", "python", "maven", "gradle", "dotnet"];
    let mut root = Command::new("ci")
        .version("0")
        .subcommand_required(true)
        .arg_required_else_help(true)
        .arg(Arg::new("verbose").short('v').long("verbose").action(ArgAction::Count).global(true))
        .arg(flag("quiet").short('q').global(true))
        .arg(flag("silent").global(true))
        .arg(path("repo").default_value(".").global(true))
        .arg(path("ci-dir").default_value(".ci").global(true))
        .arg(path("config").global(true))
        .arg(choice("color", &["auto", "always", "never"]).default_value("auto").global(true))
        .arg(choice("git-mode", &["host", "auto", "alias"]).global(true))
        .arg(value("git-command").global(true))
        .arg(value("git-image").global(true))
        .arg(flag("container").short('c').conflicts_with("no-container").global(true))
        .arg(flag("no-container").short('C').conflicts_with("container").global(true))
        .arg(
            Arg::new("arch")
                .long("arch")
                .action(ArgAction::Append)
                .value_delimiter(',')
                .value_parser(architecture)
                .global(true),
        )
        .arg(choice("tech", &stacks).short('t').alias("type").alias("tech-stack").global(true));
    let commands = [
        Command::new("run")
            .arg(word("workflow"))
            .arg(value("event").default_value("manual"))
            .arg(flag("all"))
            .arg(flag("dry-run"))
            .arg(flag("fail-fast"))
            .arg(flag("keep-going"))
            .arg(choice("container-runtime", &["auto", "podman", "docker"]))
            .arg(flag("respect-branches"))
            .arg(flag("no-recursive-checkout"))
            .arg(flag("lock")),
        Command::new("list")
            .alias("ls")
            .arg(flag("porcelain").conflicts_with("no-porcelain"))
            .arg(flag("no-porcelain")),
        Command::new("install")
            .arg(choice("mode", &["link", "copy"]))
            .arg(path("source"))
            .arg(value("hooks"))
            .arg(flag("bare"))
            .arg(flag("force"))
            .arg(flag("backup-existing"))
            .arg(flag("dry-run")),
        Command::new("uninstall")
            .alias("remove")
            .arg(value("hooks"))
            .arg(flag("keep-binary"))
            .arg(flag("restore"))
            .arg(flag("dry-run")),
        Command::new("update").arg(path("source")).arg(flag("dry-run")),
        Command::new("hook").arg(word("hook").required(true)).arg(
            Arg::new("hook-args")
                .action(ArgAction::Append)
                .num_args(1..)
                .trailing_var_arg(true)
                .allow_hyphen_values(true),
        ),
        Command::new("status").alias("doctor"),
        Command::new("explain").arg(word("subject").required(true)),
        Command::new("schema").arg(word("subject")),
        Command::new("clean")
            .arg(word("workflow"))
            .arg(value("run-id"))
            .arg(choice("mode", &["keep", "move"]).default_value("keep"))
            .arg(path("dest"))
            .arg(flag("dry-run")),
        Command::new("completion")
            .arg(word("shell").required(true).value_parser(PossibleValuesParser::new(["bash"])))
            .arg(path("output")),
        Command::new("man").arg(path("dir")),
        Command::new("init").arg(flag("force")),
        Command::new("self"),
    ];
    for item in commands {
        root = root.subcommand(item);
    }
    root
}

fn text(m: &ArgMatches, name: &str) -> Option<String> {
    m.get_one::<String>(name).cloned()
}

fn file(m: &ArgMatches, name: &str) -> Option<String> {
    m.get_one::<PathBuf>(name).map(|p| p.to_string_lossy().into_owned())
}

fn lower(value: impl std::fmt::Debug) -> String {
    format!("{:?}", value).to_lowercase()
}

/// What a command line gives, as far as both sides can say it, in one line.
fn by_clap(root: &Command, argv: &[&str]) -> Option<String> {
    let matches = root.clone().try_get_matches_from(argv).ok()?;
    let (name, m) = matches.subcommand()?;
    let arches: Vec<String> = m.get_many::<String>("arch").map(|v| v.cloned().collect()).unwrap_or_default();
    let mut out = format!(
        "{} {} {} {:?} {:?} {:?} {:?} {:?} {:?} {:?} {} {} {:?} {:?} | {} ",
        m.get_count("verbose"),
        m.get_flag("quiet"),
        m.get_flag("silent"),
        file(m, "repo"),
        file(m, "ci-dir"),
        file(m, "config"),
        text(m, "color"),
        text(m, "git-mode"),
        text(m, "git-command"),
        text(m, "git-image"),
        m.get_flag("container"),
        m.get_flag("no-container"),
        arches,
        text(m, "tech"),
        name,
    );
    out += &match name {
        "run" => format!(
            "{:?} {:?} {:?} {:?}",
            text(m, "workflow"),
            text(m, "event"),
            ["all", "dry-run", "fail-fast", "keep-going", "respect-branches", "no-recursive-checkout", "lock"]
                .map(|f| m.get_flag(f)),
            text(m, "container-runtime"),
        ),
        "list" => format!("{:?}", ["porcelain", "no-porcelain"].map(|f| m.get_flag(f))),
        "install" => format!(
            "{:?} {:?} {:?} {:?}",
            text(m, "mode"),
            file(m, "source"),
            text(m, "hooks"),
            ["bare", "force", "backup-existing", "dry-run"].map(|f| m.get_flag(f)),
        ),
        "uninstall" => {
            format!("{:?} {:?}", text(m, "hooks"), ["keep-binary", "restore", "dry-run"].map(|f| m.get_flag(f)))
        }
        "update" => format!("{:?} {:?}", file(m, "source"), m.get_flag("dry-run")),
        "hook" => {
            let args: Vec<String> =
                m.get_many::<String>("hook-args").map(|v| v.cloned().collect()).unwrap_or_default();
            format!("{:?} {:?}", text(m, "hook"), args)
        }
        "explain" | "schema" => format!("{:?}", text(m, "subject")),
        "clean" => format!(
            "{:?} {:?} {:?} {:?} {:?}",
            text(m, "workflow"),
            text(m, "run-id"),
            text(m, "mode"),
            file(m, "dest"),
            m.get_flag("dry-run"),
        ),
        "completion" => format!("{:?}", file(m, "output")),
        "man" => format!("{:?}", file(m, "dir")),
        "init" => format!("{:?}", m.get_flag("force")),
        _ => String::new(),
    };
    Some(out)
}

fn by_library(argv: &[&str]) -> Option<String> {
    let argv: Vec<String> = argv.iter().map(|a| a.to_string()).collect();
    let cli = Cli::try_parse_from(&argv).ok()?;
    let g = &cli.global;
    let arches: Vec<String> = g.arch.iter().map(|a| a.to_text()).collect();
    let (name, rest) = match &cli.command {
        Commands::Run(a) => (
            "run",
            format!(
                "{:?} {:?} {:?} {:?}",
                a.workflow,
                Some(&a.event),
                [
                    a.all,
                    a.dry_run,
                    a.fail_fast,
                    a.keep_going,
                    a.respect_branches,
                    a.no_recursive_checkout,
                    a.lock
                ],
                a.container_runtime.map(lower),
            ),
        ),
        Commands::List(a) => ("list", format!("{:?}", [a.porcelain, a.no_porcelain])),
        Commands::Install(a) => (
            "install",
            format!(
                "{:?} {:?} {:?} {:?}",
                a.mode.map(lower),
                a.source,
                a.hooks,
                [a.bare, a.force, a.backup_existing, a.dry_run]
            ),
        ),
        Commands::Uninstall(a) => {
            ("uninstall", format!("{:?} {:?}", a.hooks, [a.keep_binary, a.restore, a.dry_run]))
        }
        Commands::Update(a) => ("update", format!("{:?} {:?}", a.source, a.dry_run)),
        Commands::Hook(a) => ("hook", format!("{:?} {:?}", Some(&a.hook), a.hook_args)),
        Commands::Status(_) => ("status", String::new()),
        Commands::Explain(a) => ("explain", format!("{:?}", Some(&a.subject))),
        Commands::Schema(a) => ("schema", format!("{:?}", a.subject)),
        Commands::Clean(a) => (
            "clean",
            format!("{:?} {:?} {:?} {:?} {:?}", a.workflow, a.run_id, Some(lower(a.mode)), a.dest, a.dry_run),
        ),
        Commands::Completion(a) => ("completion", format!("{:?}", a.output)),
        Commands::Man(a) => ("man", format!("{:?}", a.dir)),
        Commands::Init(a) => ("init", format!("{:?}", a.force)),
        Commands::SelfCmd(_) => ("self", String::new()),
    };
    Some(format!(
        "{} {} {} {:?} {:?} {:?} {:?} {:?} {:?} {:?} {} {} {:?} {:?} | {} {}",
        g.verbose,
        g.quiet,
        g.silent,
        Some(&g.repo),
        Some(&g.ci_dir),
        g.config,
        Some(lower(g.color)),
        g.git_mode.map(lower),
        g.git_command,
        g.git_image,
        g.container,
        g.no_container,
        arches,
        g.tech_stack.map(lower),
        name,
        rest,
    ))
}

const WORDS: [&str; 80] = [
    "run", "list", "ls", "install", "uninstall", "update", "hook", "status", "doctor", "explain", "schema", "clean",
    "completion", "man", "init", "self", "help", "bash", "build", "pre-push", "", "-", "--", "-v", "-vv", "-q",
    "-qc", "-C", "-t", "-trust", "-t=go", "-vtnode", "-x", "-h", "-V", "--help", "--version", "--verbose", "--quiet",
    "--silent", "--quiet=yes", "--repo", "--repo=x", "--repo=", "--color", "always", "--color=red", "--arch",
    "x64,arm64", "--arch=amd64", "--arch=", "--tech-stack", "rust", "--dry-run", "--force", "--mode", "copy", "move",
    "--hooks", "--event=", "--porcelain", "--no-porcelain", "--container-runtime", "podman", "--container",
    "--no-container", "-cC", "-qq", "--git-mode", "host", "--git-image", "-tgo", "--tech=maven", "--type", "--mode=link",
    "--keep-going", "--dest", "--run-id", "--ci-dir=a", "--config",
];

fn agree(root: &Command, argv: &[&str]) {
    assert_eq!(by_library(argv), by_clap(root, argv), "{:?}", argv);
}

/// Every line of one or two words whose first word is among those given.
fn agree_on_short_lines(firsts: &[&str]) {
    let root = command();
    for first in firsts {
        agree(&root, &["ci", first]);
        for second in WORDS {
            agree(&root, &["ci", first, second]);
        }
    }
}

/// Lines of two to six words, drawn from a seed.
fn agree_on_longer_lines(seed: u64) {
    let root = command();
    let mut state: u64 = seed;
    let mut next = |bound: usize| {
        state = state.wrapping_mul(6364136223846793005).wrapping_add(1442695040888963407);
        (state >> 33) as usize % bound
    };
    for round in 0..4000 {
        let mut argv = vec!["ci"];
        if round % 2 == 0 {
            argv.push(WORDS[next(16)]);
        }
        for _ in 0..2 + next(4) {
            argv.push(WORDS[next(WORDS.len())]);
        }
        agree(&root, &argv);
    }
}

#[test]
fn a_line_without_words_is_read_as_clap_reads_it() {
    agree(&command(), &["ci"]);
}

#[test]
fn short_lines_are_read_as_clap_reads_them() {
    agree_on_short_lines(&WORDS[..40]);
}

#[test]
fn other_short_lines_are_read_as_clap_reads_them() {
    agree_on_short_lines(&WORDS[40..]);
}

#[test]
fn longer_lines_are_read_as_clap_reads_them() {
    agree_on_longer_lines(1);
}

#[test]
fn second_longer_lines_are_read_as_clap_reads_them() {
    agree_on_longer_lines(2);
}

#[test]
fn third_longer_lines_are_read_as_clap_reads_them() {
    agree_on_longer_lines(3);
}

#[test]
fn fourth_longer_lines_are_read_as_clap_reads_them() {
    agree_on_longer_lines(4);
}

#[test]
fn fifth_longer_lines_are_read_as_clap_reads_them() {
    agree_on_longer_lines(5);
}
