use ci::arch::Architecture;
use ci::cli::{doctor_alias_used, rewrite_argv, Cli, Commands, ListArgs};
use ci::config::{ArtifactMode, ColorWhen, ContainerRuntime, ContainerType, GitMode, InstallMode};

fn words(argv: &[&str]) -> Vec<String> {
    argv.iter().map(|word| word.to_string()).collect()
}

fn parse(argv: &[&str]) -> Option<Cli> {
    Cli::try_parse_from(&words(argv)).ok()
}

fn rewrite(argv: &[&str]) -> Vec<String> {
    rewrite_argv(words(argv))
}

fn parse_rewritten(argv: &[&str]) -> Option<Cli> {
    Cli::try_parse_from(&rewrite(argv)).ok()
}

fn names(arches: &[Architecture]) -> Vec<String> {
    arches.iter().map(|arch| arch.to_text()).collect()
}

#[test]
fn list_defaults_to_porcelain_when_stdout_is_not_a_terminal() {
    let args = ListArgs::default();

    assert!(!args.use_porcelain(true));
    assert!(args.use_porcelain(false));
}

#[test]
fn list_porcelain_flags_override_auto_detection() {
    let porcelain = match parse(&["ci", "list", "--porcelain"]).expect("parse") {
        Cli { command: Commands::List(args), .. } => args,
        _ => panic!("expected list command"),
    };
    assert!(porcelain.use_porcelain(true));
    assert!(porcelain.use_porcelain(false));

    let no_porcelain = match parse(&["ci", "list", "--no-porcelain"]).expect("parse") {
        Cli { command: Commands::List(args), .. } => args,
        _ => panic!("expected list command"),
    };
    assert!(!no_porcelain.use_porcelain(true));
    assert!(!no_porcelain.use_porcelain(false));
}

#[test]
fn list_porcelain_flags_conflict() {
    assert!(Cli::try_parse_from(&words(&["ci", "list", "--porcelain", "--no-porcelain"])).is_err());
}

#[test]
fn unknown_command_is_rewritten_as_run_workflow() {
    let cli = parse_rewritten(&["ci", "build"]).expect("parse");

    match cli.command {
        Commands::Run(args) => assert_eq!(args.workflow.as_deref(), Some("build")),
        _ => panic!("expected run command"),
    }
}

#[test]
fn unknown_command_rewrite_keeps_global_options_before_workflow() {
    let cli = parse_rewritten(&["ci", "--repo", "/tmp/project", "build", "--dry-run"]).expect("parse");

    assert_eq!(cli.global.repo, "/tmp/project");
    match cli.command {
        Commands::Run(args) => {
            assert_eq!(args.workflow.as_deref(), Some("build"));
            assert!(args.dry_run);
        }
        _ => panic!("expected run command"),
    }
}

#[test]
fn known_commands_and_aliases_are_not_rewritten_as_workflows() {
    let list = parse_rewritten(&["ci", "list"]).expect("parse");
    assert!(matches!(list.command, Commands::List(_)));

    let list_alias = parse_rewritten(&["ci", "ls"]).expect("parse");
    assert!(matches!(list_alias.command, Commands::List(_)));

    let status_alias = parse_rewritten(&["ci", "doctor"]).expect("parse");
    assert!(matches!(status_alias.command, Commands::Status(_)));
}

#[test]
fn arch_flag_normalizes_aliases() {
    let cli = parse_rewritten(&["ci", "--arch", "amd64,arm64", "--arch", "x86_64", "run"]).expect("parse");

    assert_eq!(names(&cli.global.arch), vec!["x64", "arm64", "x64"]);
}

#[test]
fn container_flags_are_global_and_conflict() {
    let forced = parse_rewritten(&["ci", "-c", "build"]).expect("parse");
    assert!(forced.global.container);
    assert!(!forced.global.no_container);
    assert!(matches!(forced.command, Commands::Run(_)));

    let disabled = parse_rewritten(&["ci", "build", "-C"]).expect("parse");
    assert!(!disabled.global.container);
    assert!(disabled.global.no_container);
    assert!(matches!(disabled.command, Commands::Run(_)));

    assert!(parse_rewritten(&["ci", "-c", "-C", "build"]).is_none());
}

#[test]
fn tech_stack_flag_is_global_and_has_aliases() {
    let short = parse_rewritten(&["ci", "-t", "node", "build"]).expect("parse");
    assert_eq!(short.global.tech_stack, Some(ContainerType::Node));
    assert!(matches!(short.command, Commands::Run(_)));

    let type_alias = parse_rewritten(&["ci", "build", "--type", "golang"]).expect("parse");
    assert_eq!(type_alias.global.tech_stack, Some(ContainerType::Go));

    let stack_alias = parse_rewritten(&["ci", "--tech-stack", "py", "build"]).expect("parse");
    assert_eq!(stack_alias.global.tech_stack, Some(ContainerType::Python));
}

#[test]
fn rewriting_a_second_time_changes_nothing() {
    for argv in [
        vec!["ci", "build"],
        vec!["ci", "run", "build"],
        vec!["ci", "--repo", "run", "build"],
        vec!["ci", "doctor"],
        vec!["ci"],
    ] {
        let once = rewrite(&argv);
        assert_eq!(rewrite_argv(once.clone()), once);
    }
}

#[test]
fn a_bare_word_means_run() {
    assert_eq!(rewrite(&["ci", "build", "--dry-run"]), words(&["ci", "run", "build", "--dry-run"]));
    assert_eq!(
        rewrite(&["ci", "--git-image", "x", "-q", "build"]),
        words(&["ci", "--git-image", "x", "-q", "run", "build"])
    );
    assert_eq!(rewrite(&["ci", "help"]), words(&["ci", "help"]));
    assert_eq!(rewrite(&["ci", "--repo", "/x"]), words(&["ci", "--repo", "/x"]));
    assert!(rewrite_argv(Vec::new()).is_empty());
}

#[test]
fn a_program_named_like_a_hook_runs_the_hook() {
    let argv = rewrite(&["/repo/.git/hooks/pre-push", "origin", "--force", "url"]);
    assert_eq!(
        argv,
        words(&["/repo/.git/hooks/pre-push", "hook", "pre-push", "origin", "--force", "url"])
    );
    let cli = Cli::try_parse_from(&argv).expect("parse");
    match cli.command {
        Commands::Hook(args) => {
            assert_eq!(args.hook, "pre-push");
            assert_eq!(args.hook_args, words(&["origin", "--force", "url"]));
        }
        _ => panic!("expected hook command"),
    }
    match parse_rewritten(&["pre-commit"]).expect("parse").command {
        Commands::Hook(args) => {
            assert_eq!(args.hook, "pre-commit");
            assert!(args.hook_args.is_empty());
        }
        _ => panic!("expected hook command"),
    }
}

#[test]
fn the_other_name_of_the_status_is_noticed() {
    assert!(doctor_alias_used(&words(&["ci", "--repo", "x", "doctor"])));
    assert!(!doctor_alias_used(&words(&["ci", "--repo", "doctor", "status"])));
    assert!(!doctor_alias_used(&words(&["ci"])));
}

#[test]
fn standard_options_hold_where_none_are_given() {
    let cli = parse(&["ci", "run"]).expect("parse");
    assert_eq!(cli.global.verbose, 0);
    assert!(!cli.global.quiet && !cli.global.silent);
    assert_eq!(cli.global.repo, ".");
    assert_eq!(cli.global.ci_dir, ".ci");
    assert_eq!(cli.global.config, None);
    assert_eq!(cli.global.color, ColorWhen::Auto);
    assert_eq!(cli.global.git_mode, None);
    assert!(cli.global.arch.is_empty());
    match cli.command {
        Commands::Run(args) => {
            assert_eq!(args.workflow, None);
            assert_eq!(args.event, "manual");
            assert!(!args.all && !args.dry_run && !args.fail_fast && !args.keep_going);
            assert!(args.container_runtime.is_none());
            assert!(!args.respect_branches && !args.no_recursive_checkout && !args.lock);
        }
        _ => panic!("expected run command"),
    }
}

#[test]
fn values_come_in_every_form() {
    let cli = parse(&[
        "ci", "-vv", "--repo=/a", "--ci-dir", "-", "--config", "c.yml", "--color=never", "--git-mode", "alias",
        "--git-command", "git2", "--git-image", "img", "-tpy", "run", "-v", "--event=pre-push",
        "--container-runtime", "docker", "--keep-going", "--lock", "--", "--odd",
    ])
    .expect("parse");
    assert_eq!(cli.global.verbose, 1);
    assert_eq!(cli.global.repo, "/a");
    assert_eq!(cli.global.ci_dir, "-");
    assert_eq!(cli.global.config.as_deref(), Some("c.yml"));
    assert_eq!(cli.global.color, ColorWhen::Never);
    assert_eq!(cli.global.git_mode, Some(GitMode::Alias));
    assert_eq!(cli.global.git_command.as_deref(), Some("git2"));
    assert_eq!(cli.global.git_image.as_deref(), Some("img"));
    assert_eq!(cli.global.tech_stack, Some(ContainerType::Python));
    match cli.command {
        Commands::Run(args) => {
            assert_eq!(args.workflow.as_deref(), Some("--odd"));
            assert_eq!(args.event, "pre-push");
            assert_eq!(args.container_runtime, Some(ContainerRuntime::Docker));
            assert!(args.keep_going && args.lock);
        }
        _ => panic!("expected run command"),
    }
    assert_eq!(parse(&["ci", "-vqvv", "list"]).expect("parse").global.verbose, 3);
    assert_eq!(
        parse(&["ci", "-t=go", "list"]).expect("parse").global.tech_stack,
        Some(ContainerType::Go)
    );
}

#[test]
fn global_options_after_the_command_come_first() {
    let cli = parse(&["ci", "--arch", "x64", "--repo", "a", "run", "--arch", "arm64"]).expect("parse");
    assert_eq!(names(&cli.global.arch), vec!["arm64"]);
    assert_eq!(cli.global.repo, "a");
    let both = parse(&["ci", "-c", "run", "-C"]).expect("parse");
    assert!(both.global.container && both.global.no_container);
}

#[test]
fn what_cannot_be_read_is_refused() {
    for argv in [
        vec![],
        vec!["ci"],
        vec!["ci", "--quiet"],
        vec!["ci", "--help"],
        vec!["ci", "-h", "run"],
        vec!["ci", "--version"],
        vec!["ci", "help"],
        vec!["ci", "bogus"],
        vec!["ci", "--", "run"],
        vec!["ci", "--nope", "run"],
        vec!["ci", "-z", "run"],
        vec!["ci", "--repo"],
        vec!["ci", "--repo", "--quiet", "run"],
        vec!["ci", "--repo=", "run"],
        vec!["ci", "--quiet=yes", "run"],
        vec!["ci", "--quiet", "--quiet", "run"],
        vec!["ci", "--repo", "a", "--repo", "b", "run"],
        vec!["ci", "--color", "sometimes", "run"],
        vec!["ci", "--git-mode", "none", "run"],
        vec!["ci", "--arch", "x64,,arm64", "run"],
        vec!["ci", "--tech", "cobol", "run"],
        vec!["ci", "run", "a", "b"],
        vec!["ci", "run", "--porcelain"],
        vec!["ci", "run", "--container-runtime", "lxc"],
        vec!["ci", "list", "extra"],
        vec!["ci", "install", "--mode", "move"],
        vec!["ci", "clean", "--mode", "link"],
        vec!["ci", "explain"],
        vec!["ci", "hook"],
        vec!["ci", "hook", "--quick"],
        vec!["ci", "completion"],
        vec!["ci", "completion", "zsh"],
        vec!["ci", "man", "--dir", ""],
    ] {
        assert!(parse(&argv).is_none(), "{:?}", argv);
    }
}

#[test]
fn every_command_is_read() {
    match parse(&["ci", "install", "--mode", "copy", "--source", "b.{arch}", "--hooks", "all", "--bare", "--force", "--backup-existing", "--dry-run"]).expect("parse").command {
        Commands::Install(args) => {
            assert_eq!(args.mode, Some(InstallMode::Copy));
            assert_eq!(args.source.as_deref(), Some("b.{arch}"));
            assert_eq!(args.hooks.as_deref(), Some("all"));
            assert!(args.bare && args.force && args.backup_existing && args.dry_run);
        }
        _ => panic!("expected install"),
    }
    match parse(&["ci", "remove", "--hooks", "update", "--keep-binary", "--restore"]).expect("parse").command {
        Commands::Uninstall(args) => {
            assert_eq!(args.hooks.as_deref(), Some("update"));
            assert!(args.keep_binary && args.restore && !args.dry_run);
        }
        _ => panic!("expected uninstall"),
    }
    match parse(&["ci", "update", "--source", "x"]).expect("parse").command {
        Commands::Update(args) => assert_eq!(args.source.as_deref(), Some("x")),
        _ => panic!("expected update"),
    }
    match parse(&["ci", "explain", "pre-push"]).expect("parse").command {
        Commands::Explain(args) => assert_eq!(args.subject, "pre-push"),
        _ => panic!("expected explain"),
    }
    match parse(&["ci", "schema", "all"]).expect("parse").command {
        Commands::Schema(args) => assert_eq!(args.subject.as_deref(), Some("all")),
        _ => panic!("expected schema"),
    }
    match parse(&["ci", "clean", "build", "--run-id", "7", "--mode", "move", "--dest", "out"]).expect("parse").command {
        Commands::Clean(args) => {
            assert_eq!(args.workflow.as_deref(), Some("build"));
            assert_eq!(args.run_id.as_deref(), Some("7"));
            assert_eq!(args.mode, ArtifactMode::Move);
            assert_eq!(args.dest.as_deref(), Some("out"));
        }
        _ => panic!("expected clean"),
    }
    match parse(&["ci", "completion", "bash", "--output", "o"]).expect("parse").command {
        Commands::Completion(args) => assert_eq!(args.output.as_deref(), Some("o")),
        _ => panic!("expected completion"),
    }
    match parse(&["ci", "man", "--dir", "d"]).expect("parse").command {
        Commands::Man(args) => assert_eq!(args.dir.as_deref(), Some("d")),
        _ => panic!("expected man"),
    }
    match parse(&["ci", "init", "--force"]).expect("parse").command {
        Commands::Init(args) => assert!(args.force),
        _ => panic!("expected init"),
    }
    assert!(matches!(parse(&["ci", "self"]).expect("parse").command, Commands::SelfCmd(_)));
    assert!(matches!(parse(&["ci", "status"]).expect("parse").command, Commands::Status(_)));
}

#[test]
fn hook_arguments_may_look_like_options() {
    match parse(&["ci", "hook", "post-rewrite", "--unknown", "-q"]).expect("parse").command {
        Commands::Hook(args) => assert_eq!(args.hook_args, words(&["--unknown", "-q"])),
        _ => panic!("expected hook"),
    }
    let quiet = parse(&["ci", "hook", "post-rewrite", "--quiet", "a", "--quiet"]).expect("parse");
    assert!(quiet.global.quiet);
    match quiet.command {
        Commands::Hook(args) => assert_eq!(args.hook_args, words(&["a", "--quiet"])),
        _ => panic!("expected hook"),
    }
    match parse(&["ci", "hook", "post-rewrite", "--", "--quiet"]).expect("parse").command {
        Commands::Hook(args) => assert_eq!(args.hook_args, words(&["--quiet"])),
        _ => panic!("expected hook"),
    }
}

#[test]
fn architectures_come_in_one_list_or_one_by_one() {
    let together = parse(&["ci", "run", "--arch", "x64,arm64", "build"]).expect("list");
    let apart = parse(&["ci", "run", "--arch", "x64", "--arch", "arm64", "build"]).expect("options");
    assert_eq!(names(&together.global.arch), vec!["x64", "arm64"]);
    assert_eq!(names(&apart.global.arch), vec!["x64", "arm64"]);
    let early = parse(&["ci", "--arch", "amd64,aarch64", "list"]).expect("early");
    assert_eq!(names(&early.global.arch), vec!["x64", "arm64"]);
    assert!(parse(&["ci", "--arch", "x64,", "list"]).is_none());
}
