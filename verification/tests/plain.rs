use ci::config::ContainerRuntime;
use ci::hooks::all_hooks;
use ci::output::Verbosity;
use ci::plain::{
    hook_run_options, next_arg, parse_manage_options, parse_run_options, print_command_help, real_main, reject_unknown_args,
    HelpTopic, ManageKind, Request,
};
use ci::repo::RepoInfo;
use ci::schema::schema_text;
use ci::small::{
    after_build, cmd_doctor, discover_workflows, run_container, run_workflows, run_yaml, small_dry_line, small_env,
    small_list_line, step_not_started, DoctorFacts, FoundFile, SmallKind, SmallPlan, YamlNext,
};
use ci::yamlish::{
    after_colon, clean_scalar, collect_block, flush_step, indent_of, parse_inline_list, parse_yaml_workflow, starts_top_level,
    workflow_matches_event, YamlStep, YamlWorkflow,
};

fn strings(items: &[&str]) -> Vec<String> {
    items.iter().map(|item| item.to_string()).collect()
}

const TEXT: &str = "# a comment\nname: \"My build\"\non:\n  - manual\n  - 'pre-push'\n\nsteps:\n  - name: Format\n    run: cargo fmt --check\n  - run: |\n      one\n        two\n\n      three\n  - name: only a name\n  - name: Block\n    run: >\n      last\n";

#[test]
fn workflow_files_are_read() {
    let w = parse_yaml_workflow(TEXT);
    assert_eq!(w.name.as_deref(), Some("My build"));
    assert_eq!(w.on, vec!["manual", "pre-push"]);
    let steps: Vec<(Option<&str>, &str)> = w.steps.iter().map(|s| (s.name.as_deref(), s.run.as_str())).collect();
    assert_eq!(
        steps,
        vec![
            (Some("Format"), "cargo fmt --check"),
            (None, "  one\n    two\n\n  three\n"),
            (Some("Block"), "last\n"),
        ]
    );
}

#[test]
fn workflow_files_without_events_run_by_hand() {
    assert_eq!(parse_yaml_workflow("steps:\n  - run: x\n").on, vec!["manual"]);
    assert_eq!(parse_yaml_workflow("on: [pre-push, \"update\" ,]\n").on, vec!["pre-push", "update"]);
    assert_eq!(parse_yaml_workflow("on: pre-push\n").on, vec!["pre-push"]);
    assert_eq!(parse_yaml_workflow("").steps.len(), 0);
}

#[test]
fn comments_and_blank_lines_change_nothing() {
    let with = parse_yaml_workflow("name: a\n\n# x\nsteps:\n  # y\n  - run: z\n");
    let without = parse_yaml_workflow("name: a\nsteps:\n  - run: z\n");
    assert_eq!(format!("{:?}", with), format!("{:?}", without));
}

#[test]
fn pieces_of_lines_are_taken_apart() {
    assert_eq!(indent_of("   x"), 3);
    assert_eq!(indent_of("\tx"), 0);
    assert!(starts_top_level("on: x", "on:") && !starts_top_level(" on: x", "on:"));
    assert_eq!(after_colon("a: b: c "), "b: c");
    assert_eq!(after_colon("a"), "");
    assert_eq!(clean_scalar(" \"'x'\" "), "x");
    assert_eq!(clean_scalar("\""), "\"");
    assert_eq!(parse_inline_list("[a, 'b', ]"), vec!["a", "b"]);
    let lines = strings(&["run: |", "  a", "", "   b", " éx", "c"]);
    assert_eq!(collect_block(&lines, 0, 0), ("a\n\n b\néx\n".to_string(), 5));
    let mut steps: Vec<YamlStep> = Vec::new();
    let mut name = Some("n".to_string());
    let mut run = None;
    flush_step(&mut steps, &mut name, &mut run);
    assert!(steps.is_empty() && name.is_none());
    run = Some("r".to_string());
    flush_step(&mut steps, &mut name, &mut run);
    assert_eq!(steps.len(), 1);
}

#[test]
fn events_run_workflows_by_name_or_by_list() {
    let w = parse_yaml_workflow("on: [update]\n");
    assert!(workflow_matches_event("pre-push", None, "pre-push"));
    assert!(workflow_matches_event("a/pre-push", None, "pre-push"));
    assert!(!workflow_matches_event("apre-push", None, "pre-push"));
    assert!(workflow_matches_event("x", Some(&w), "update"));
    assert!(!workflow_matches_event("x", Some(&w), "pre-push"));
    assert!(workflow_matches_event("x", Some(&parse_yaml_workflow("on: all\n")), "pre-push"));
}

fn asked(argv: &[&str]) -> Result<Request, String> {
    real_main(&strings(argv)).map(|(_, request)| request).map_err(|e| e.to_text())
}

#[test]
fn commands_are_told_apart() {
    assert!(matches!(asked(&["ci"]), Ok(Request::Help)));
    assert!(matches!(asked(&["ci", "-V"]), Ok(Request::Version)));
    assert!(matches!(asked(&["ci", "ls", "x"]), Ok(Request::List(rest)) if rest == strings(&["x"])));
    assert!(matches!(asked(&["ci", "help", "run"]), Ok(Request::Topic(t)) if t == "run"));
    assert!(matches!(asked(&["/h/pre-push", "origin"]), Ok(Request::Hook(h, rest)) if h == "pre-push" && rest == strings(&["origin"])));
    assert!(matches!(asked(&["ci", "hook", "update", "a", "b"]), Ok(Request::Hook(h, rest)) if h == "update" && rest.len() == 2));
    assert_eq!(asked(&["ci", "hook"]).expect_err("no name"), "missing hook name; try `ci hook pre-commit`");
    assert_eq!(asked(&["ci", "--nope"]).expect_err("option"), "unknown global option `--nope`; try `ci --help`");
    assert_eq!(asked(&["ci", "nope"]).expect_err("command"), "unknown command `nope`; try `ci --help`");
    assert_eq!(asked(&["ci", "--repo"]).expect_err("value"), "--repo requires a value");
    assert!(matches!(asked(&["ci", "--color", "never"]), Ok(Request::Help)));
    let (global, _) = real_main(&strings(&["ci", "-q", "-v", "--verbose", "--repo", "/x", "--ci-dir", "d", "run"])).expect("run");
    assert_eq!(global.verbosity, Verbosity::Verbose(2));
    assert_eq!((global.repo.as_str(), global.ci_dir.as_str(), global.color.as_str()), ("/x", "d", "auto"));
    assert_eq!(next_arg(&strings(&["a"]), 0, "--x").expect("value"), "a");
    assert_eq!(print_command_help("remove"), HelpTopic::Uninstall);
    assert_eq!(print_command_help("list"), HelpTopic::General);
}

#[test]
fn run_options_are_read() {
    let o = parse_run_options(&strings(&["--keep-going", "build", "--event", "update", "--dry-run", "--container-runtime", "docker"])).expect("options");
    assert_eq!((o.workflow.as_deref(), o.event.as_str()), (Some("build"), "update"));
    assert!(o.keep_going && o.dry_run);
    assert_eq!(o.container_runtime, "docker");
    assert!(!parse_run_options(&strings(&["--keep-going", "--fail-fast"])).expect("options").keep_going);
    assert_eq!(parse_run_options(&strings(&["a", "--all", "b"])).expect("options").workflow.as_deref(), Some("b"));
    let text = |args: &[&str]| parse_run_options(&strings(args)).expect_err("refused").to_text();
    assert_eq!(text(&["a", "b"]), "only one workflow name may be provided");
    assert_eq!(text(&["--nope"]), "unknown run option `--nope`; try `ci help run`");
    assert_eq!(text(&["--event"]), "--event requires a value");
    assert_eq!(text(&["--container-runtime", "lxc"]), "--container-runtime must be auto, podman, or docker");
    assert_eq!(text(&["-h"]), "help requested");
    let hook = hook_run_options("update", &strings(&["x"])).expect("hook");
    assert_eq!((hook.event.as_str(), hook.hook_args.len()), ("update", 1));
    assert_eq!(hook_run_options("nope", &[]).expect_err("unknown").to_text(), "unknown Git hook `nope`");
}

#[test]
fn options_of_other_commands_are_read() {
    let install = parse_manage_options(ManageKind::Install, &strings(&["--mode", "copy", "--hooks", "all", "--bare", "--force", "--backup-existing", "--dry-run"]))
        .expect("options")
        .expect("no help");
    assert_eq!((install.mode.as_str(), install.hooks.as_deref()), ("copy", Some("all")));
    assert!(install.force && install.backup_existing && install.dry_run);
    assert!(parse_manage_options(ManageKind::Install, &strings(&["--help"])).expect("help").is_none());
    let text = |kind: ManageKind, args: &[&str]| parse_manage_options(kind, &strings(args)).expect_err("refused").to_text();
    assert_eq!(text(ManageKind::Install, &["--mode", "move"]), "--mode must be `link` or `copy`");
    assert_eq!(text(ManageKind::Init, &["--dry-run"]), "unknown init option `--dry-run`; try `ci help init`");
    assert_eq!(text(ManageKind::Update, &["--source"]), "--source requires a value");
    let uninstall = parse_manage_options(ManageKind::Uninstall, &strings(&["--hooks", "update", "--keep-binary", "--restore"])).expect("options").expect("no help");
    assert!(uninstall.keep_binary && uninstall.restore);
    assert!(reject_unknown_args(&[], "list").is_ok());
    assert_eq!(
        reject_unknown_args(&strings(&["x"]), "list").expect_err("extra").to_text(),
        "unknown list option `x`; try `ci help list`"
    );
}

fn found(path: &str, executable: bool) -> FoundFile {
    FoundFile { path: path.to_string(), executable }
}

#[test]
fn small_workflows_are_found_and_selected() {
    let files = [
        found("/r/.ci/test.sh", true),
        found("/r/.ci/build.yml", false),
        found("/r/.ci/img/Dockerfile", false),
        found("/r/.ci/notes.txt", false),
    ];
    let workflows = discover_workflows("/r/.ci", &files);
    let shown: Vec<(&str, SmallKind)> = workflows.iter().map(|w| (w.name.as_str(), w.kind)).collect();
    assert_eq!(shown, vec![("build", SmallKind::Yaml), ("img", SmallKind::Container), ("test", SmallKind::Executable)]);
    let parsed = [Some(parse_yaml_workflow("on: [update]\n")), None, None];
    let pick = |args: &[&str]| match run_workflows(&workflows, &parsed, &parse_run_options(&strings(args)).expect("options")) {
        SmallPlan::Run(list) => format!("{:?}", list),
        SmallPlan::Missing(code, text) => format!("{} {}", code, text),
        SmallPlan::Nothing(text) => text,
    };
    assert_eq!(pick(&[]), "[0, 1, 2]");
    assert_eq!(pick(&["--event", "update"]), "[0]");
    assert_eq!(pick(&["img"]), "[1]");
    assert_eq!(pick(&["nope"]), "127 ci: workflow not found: nope");
    assert_eq!(pick(&["--event", "pre-push"]), "no workflows matched event `pre-push`");
    assert_eq!(small_dry_line(&workflows[0]), "would run build (Yaml)");
    assert_eq!(small_list_line(&workflows[0]), format!("{:<28} {:<12} {}", "build", "yaml", "/r/.ci/build.yml"));
    let options = parse_run_options(&[]).expect("options");
    let env = small_env(&options, "/r", "/r/.git", &workflows[0]);
    assert_eq!(env.get("CI_WORKFLOW_PATH").map(String::as_str), Some("/r/.ci/build.yml"));
    assert_eq!(env.len(), 8);
    let image = run_container(ContainerRuntime::Auto, false, true, &workflows[1], "/r", "manual").expect("commands");
    assert_eq!((image.runtime.as_str(), image.tag.as_str()), ("docker", "ci-img"));
    assert_eq!(image.build[0], "build");
    assert!(run_container(ContainerRuntime::Auto, false, false, &workflows[1], "/r", "manual").is_err());
    assert_eq!(image.build_title, "--> build container with docker");
    assert_eq!(image.run_title, "--> run container ci-img");
    assert_eq!(after_build(Some(0)), None);
    assert_eq!(after_build(Some(125)), Some(125));
    assert_eq!(after_build(None), Some(1));

    let step = |name: Option<&str>, run: &str| YamlStep { name: name.map(str::to_string), run: run.to_string() };
    let yaml = YamlWorkflow {
        name: None,
        on: Vec::new(),
        steps: vec![step(Some("Build"), "make"), step(None, "make test")],
    };
    let next = |ended: &[Option<i32>]| match run_yaml(&workflows[0], &yaml, ended) {
        YamlNext::Step(title, script) => format!("{} / {}", title, script),
        YamlNext::End(code) => format!("end {}", code),
        YamlNext::NoSteps(text) => text,
    };
    assert_eq!(next(&[]), "--> Build / make");
    assert_eq!(next(&[Some(0)]), "--> run / make test");
    assert_eq!(next(&[Some(0), Some(0)]), "end 0");
    assert_eq!(next(&[Some(9)]), "end 9");
    assert_eq!(next(&[Some(0), None]), "end 1");
    let empty = YamlWorkflow { name: None, on: Vec::new(), steps: Vec::new() };
    match run_yaml(&workflows[0], &empty, &[]) {
        YamlNext::NoSteps(text) => assert_eq!(text, "/r/.ci/build.yml has no steps"),
        _ => panic!("expected a warning"),
    }
    assert_eq!(step_not_started(&yaml.steps[1], "denied"), "could not run step `run`: denied");
}

#[test]
fn a_repository_is_looked_over() {
    let repo = RepoInfo::new("/r/.git".to_string(), Some("/r".to_string()), ".ci", "a", "c", None, "/ci".to_string());
    let mut managed = vec![false; all_hooks().len()];
    let facts = DoctorFacts { ci_dir_exists: true, binary_exists: false, managed: managed.clone(), podman: false, docker: false };
    let lines = cmd_doctor(&repo, 0, &facts);
    assert_eq!(lines[0], "Repository: /r");
    assert_eq!(lines[3], "Bare repo:  false");
    assert!(lines.contains(&"WARN no workflows found".to_string()));
    assert!(lines.contains(&"WARN no ci-managed Git hooks installed".to_string()));
    managed[0] = true;
    let facts = DoctorFacts { ci_dir_exists: false, binary_exists: true, managed, podman: false, docker: true };
    let lines = cmd_doctor(&repo, 3, &facts);
    assert!(lines.contains(&"OK   found 3 workflow(s)".to_string()));
    assert!(lines.contains(&"OK   ci binary installed at /r/.git/ci/ci".to_string()));
    assert!(lines.contains(&"OK   ci-managed hooks: applypatch-msg".to_string()));
    assert!(lines.contains(&"OK   docker available".to_string()));
}

#[test]
fn schema_command_prints_workflow_schema_without_repo() {
    let text = schema_text(Some("workflow")).expect("schema");
    assert!(text.contains("\"title\": \"ci native workflow\""));
    assert!(text.contains("\"container\""));
    let all = schema_text(None).expect("schema");
    assert!(all.contains("\"workflow\"") && all.contains("\"config\""));
    assert!(schema_text(Some("config")).expect("schema").contains("\"install-mode\""));
    assert_eq!(schema_text(Some("x")).expect_err("unknown").exit_code(), 2);
}
