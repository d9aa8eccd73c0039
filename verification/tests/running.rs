use ci::actions::{ActionEvent, ActionsProvider, ActionsWorkflow, RunDefaults};
use ci::arch::Architecture;
use ci::cli::{ExplainArgs, GlobalOptions, HookArgs, InitArgs, ListArgs, RunArgs};
use ci::config::{
    ActionsConfig, ArchFilter, BranchConfig, ColorWhen, ConfigFile, ContainerConfig, ContainerType, DefaultsConfig,
    EventFilter, GitMode, ResolvedConfig, WorkflowOverride,
};
use ci::defaults::{available_workflows, cmd_init, default_tech_stack_override, detect_default_build_stack};
use ci::environ::{ContainerOverride, RunInvocation};
use ci::execution::{
    captures_artifacts, chmod_executable, is_executable, lock_refused, new_run_id, restore_cache, run_container_workflow,
    run_executable, run_native_yaml_containerized, run_one_workflow, save_pending_caches, RunLoop, WorkflowRunner,
};
use ci::maps::{NameMap, StringMap};
use ci::output::Output;
use ci::repo::RepoInfo;
use ci::runner::{branch_from_hook, cmd_hook, cmd_run, container_override, execute_run, AppContext, GitService, RunPlan, RunRequest};
use ci::select::{branch_allowed, explain_subject, resolve_workflow, select_workflows};
use ci::status::{cmd_explain, cmd_list, cmd_self, explain_arches, explain_env, explain_questions, explain_step, explained_arches};
use ci::workflow::{ContainerWorkflow, ExecutableWorkflow, NativeStep, NativeWorkflow, Workflow, WorkflowKind, WorkflowProvider, WorkflowSource};

fn strings(items: &[&str]) -> Vec<String> {
    items.iter().map(|item| item.to_string()).collect()
}

fn arch(name: &str) -> Architecture {
    Architecture::from_alias(name).expect("architecture")
}

fn globals() -> GlobalOptions {
    GlobalOptions {
        verbose: 0,
        quiet: false,
        silent: false,
        repo: ".".to_string(),
        ci_dir: ".ci".to_string(),
        config: None,
        color: ColorWhen::Auto,
        git_mode: None,
        git_command: None,
        git_image: None,
        container: false,
        no_container: false,
        arch: Vec::new(),
        tech_stack: None,
    }
}

fn empty_file() -> ConfigFile {
    ConfigFile {
        root_defaults: DefaultsConfig::default(),
        defaults: DefaultsConfig::default(),
        hooks: NameMap::new(),
        workflows: NameMap::new(),
        actions: ActionsConfig { node_image: None },
    }
}

fn config() -> ResolvedConfig {
    ResolvedConfig::load("/r/.ci/config.yml".to_string(), false, empty_file(), &globals(), &arch("x64"))
}

fn repo() -> RepoInfo {
    RepoInfo::new(
        "/r/.git".to_string(),
        Some("/r".to_string()),
        ".ci",
        "artifacts",
        "actions-cache",
        Some("main".to_string()),
        "/usr/bin/ci".to_string(),
    )
}

fn context(global: GlobalOptions) -> AppContext {
    let output = Output::from_globals(&global);
    let git = GitService { mode: GitMode::Auto, command: None, image: "img".to_string() };
    AppContext::new(global, output, repo(), config(), git)
}

fn run_args() -> RunArgs {
    RunArgs {
        workflow: None,
        event: "manual".to_string(),
        all: false,
        dry_run: false,
        fail_fast: false,
        keep_going: false,
        container_runtime: None,
        respect_branches: false,
        no_recursive_checkout: false,
        lock: false,
    }
}

fn step(name: &str, run: &str, condition: Option<&str>) -> NativeStep {
    NativeStep {
        name: Some(name.to_string()),
        run: Some(run.to_string()),
        uses: None,
        container: None,
        with: StringMap::new(),
        extra: StringMap::new(),
        shell: None,
        env: StringMap::new(),
        if_condition: condition.map(|c| c.to_string()),
        working_directory: None,
        continue_on_error: false,
        timeout_minutes: None,
        readonly: None,
    }
}

fn native(name: &str, on: &[&str], needs: &[&str]) -> Workflow {
    let metadata = WorkflowOverride {
        on: if on.is_empty() { EventFilter::Unset } else { EventFilter::Many(strings(on)) },
        ..WorkflowOverride::default()
    };
    Workflow {
        name: name.to_string(),
        path: format!("/r/.ci/{}.yml", name),
        kind: WorkflowKind::NativeYaml,
        provider: WorkflowProvider::Native,
        source: WorkflowSource::NativeYaml(NativeWorkflow { metadata, needs: strings(needs), steps: vec![step("s", "true", None)] }),
    }
}

fn actions(name: &str, event: &str, branches: &[&str]) -> Workflow {
    Workflow {
        name: name.to_string(),
        path: format!("/r/.github/workflows/{}.yml", name),
        kind: WorkflowKind::GitHubActions,
        provider: WorkflowProvider::GitHubActions,
        source: WorkflowSource::Actions(ActionsWorkflow {
            name: name.to_string(),
            provider: ActionsProvider::GitHub,
            events: vec![ActionEvent { name: event.to_string(), branches: strings(branches) }],
            env: StringMap::new(),
            defaults: RunDefaults { shell: None, working_directory: None },
            jobs: Vec::new(),
        }),
    }
}

fn request(workflow: Option<&str>, event: &str) -> RunRequest {
    let ctx = context(globals());
    let mut args = run_args();
    args.workflow = workflow.map(|w| w.to_string());
    args.event = event.to_string();
    cmd_run(&ctx, &args)
}

fn planned(plan: RunPlan) -> Vec<String> {
    match plan {
        RunPlan::Run(items) => items.iter().map(|p| p.item.workflow.name.clone()).collect(),
        RunPlan::Nothing(code) => vec![format!("nothing {}", code)],
        RunPlan::DryRun(lines) => lines,
    }
}

fn show(request: &RunRequest, workflows: &[Workflow]) -> Vec<String> {
    planned(execute_run(request, workflows, &config()).expect("plan"))
}

#[test]
fn missing_workflow_returns_not_found_code() {
    assert_eq!(show(&request(Some("missing"), "manual"), &[native("build", &[], &[])]), vec!["nothing 127"]);
    assert_eq!(show(&request(None, "pre-push"), &[native("build", &[], &[])]), vec!["nothing 0"]);
}

#[test]
fn workflow_needs_run_dependencies_before_selected_workflow() {
    let workflows = [native("build", &["manual"], &[]), native("release", &["manual"], &["build"])];
    assert_eq!(show(&request(Some("release"), "manual"), &workflows), vec!["build", "release"]);
    assert_eq!(show(&request(None, "manual"), &workflows), vec!["build", "release"]);
    let turned = [native("release", &["manual"], &["test"]), native("test", &[], &["build"]), native("build", &[], &[])];
    assert_eq!(show(&request(None, "manual"), &turned), vec!["build", "test", "release"]);
}

#[test]
fn needs_that_cannot_be_met_are_refused() {
    let unknown = [native("release", &[], &["nope"])];
    let err = execute_run(&request(None, "manual"), &unknown, &config()).err().expect("unknown");
    assert_eq!(err.to_text(), "unknown workflow dependency `nope`");
    let cyclic = [native("a", &[], &["b"]), native("b", &[], &["a"])];
    let err = execute_run(&request(Some("a"), "manual"), &cyclic, &config()).err().expect("cycle");
    assert!(err.to_text().contains("cyclic workflow dependency"));
}

#[test]
fn dry_run_reports_selected_workflow_without_running_steps() {
    let mut request = request(Some("build"), "manual");
    request.dry_run = true;
    assert_eq!(
        show(&request, &[native("build", &[], &[]), native("other", &[], &[])]),
        vec!["would run build [native] for x64 because selected explicitly as `build`"]
    );
    request.workflow = None;
    let lines = show(&request, &[native("release", &[], &["prepare"]), native("prepare", &[], &[])]);
    assert_eq!(lines[0], "would run prepare [native] for x64 because manual run selects native workflows");
}

#[test]
fn a_dry_run_shows_what_a_run_does() {
    let workflows = [native("release", &[], &["test"]), native("test", &[], &["build"]), native("build", &[], &[])];
    let mut request = request(None, "manual");
    let run = show(&request, &workflows);
    request.dry_run = true;
    let shown = show(&request, &workflows);
    assert_eq!(shown.len(), run.len());
    for (line, name) in shown.iter().zip(&run) {
        assert!(line.starts_with(&format!("would run {} [native] for x64", name)));
    }
    request.workflow = Some("missing".to_string());
    assert_eq!(show(&request, &workflows), vec!["nothing 127"]);
}

#[test]
fn quiet_config_hides_info_but_keeps_step_effects() {
    let mut file = empty_file();
    file.root_defaults.quiet = Some(true);
    let quiet = ResolvedConfig::load("c".to_string(), true, file, &globals(), &arch("x64"));
    let output = Output::from_settings(&globals(), Some(&quiet.defaults));
    assert!(output.info("==> build").is_none());
    let plan = execute_run(&request(Some("build"), "manual"), &[native("build", &["manual"], &[])], &quiet).map(planned);
    assert_eq!(plan.expect("plan"), vec!["build"]);
}

#[test]
fn titles_name_the_architecture_where_there_is_a_choice() {
    let workflows = [native("build", &[], &[])];
    match execute_run(&request(None, "manual"), &workflows, &config()).ok().expect("plan") {
        RunPlan::Run(items) => assert_eq!(items[0].titles, vec!["==> build"]),
        _ => panic!("expected a run"),
    }
    let mut many = request(None, "manual");
    many.arches = vec![arch("x64"), arch("arm64")];
    match execute_run(&many, &workflows, &config()).ok().expect("plan") {
        RunPlan::Run(items) => assert_eq!(items[0].titles, vec!["==> build (x64)", "==> build (arm64)"]),
        _ => panic!("expected a run"),
    }
}

#[test]
fn a_container_brings_its_own_architectures() {
    let mut w = native("build", &[], &[]);
    if let WorkflowSource::NativeYaml(native) = &mut w.source {
        native.metadata.container.arch = ArchFilter::Single(arch("arm64"));
    }
    let workflows = [w];
    let arches = |request: &RunRequest| match execute_run(request, &workflows, &config()).ok().expect("plan") {
        RunPlan::Run(items) => items[0].arches.iter().map(|a| a.to_text()).collect::<Vec<_>>(),
        _ => panic!("expected a run"),
    };
    let mut request = request(None, "manual");
    assert_eq!(arches(&request), vec!["arm64"]);
    request.arch_overridden = true;
    assert_eq!(arches(&request), vec!["x64"]);
    request.arch_overridden = false;
    request.container_override = ContainerOverride::Disable;
    assert_eq!(arches(&request), vec!["x64"]);
}

#[test]
fn requests_follow_options_and_settings() {
    let mut ctx = context(globals());
    let request = cmd_run(&ctx, &run_args());
    assert!(!request.keep_going);
    assert!(request.recursive_checkout);
    assert!(!request.lock);
    assert_eq!(request.branch.as_deref(), Some("main"));
    ctx.config.defaults.fail_fast = false;
    assert!(cmd_run(&ctx, &run_args()).keep_going);
    let mut args = run_args();
    args.fail_fast = true;
    args.workflow = Some("build".to_string());
    args.all = true;
    args.no_recursive_checkout = true;
    let request = cmd_run(&ctx, &args);
    assert!(!request.keep_going);
    assert_eq!(request.workflow, None);
    assert!(!request.recursive_checkout);
    let mut global = globals();
    global.container = true;
    assert_eq!(container_override(&global), ContainerOverride::Force);
    global.no_container = true;
    assert_eq!(container_override(&global), ContainerOverride::Disable);
    let invocation = request.invocation_for_arch(arch("arm64"));
    assert_eq!(invocation.arch.as_str(), "arm64");
    assert_eq!(invocation.event, "manual");
}

#[test]
fn hooks_are_run_under_the_lock() {
    let ctx = context(globals());
    let hook = |name: &str, args: &[&str]| HookArgs { hook: name.to_string(), hook_args: strings(args) };
    let request = cmd_hook(&ctx, &hook("pre-push", &["origin"]), "").expect("request");
    assert!(request.lock && request.respect_branches && !request.dry_run);
    assert_eq!(request.event, "pre-push");
    assert_eq!(request.hook_args, vec!["origin"]);
    assert_eq!(request.branch.as_deref(), Some("main"));
    let err = cmd_hook(&ctx, &hook("post-lunch", &[]), "").expect_err("unknown");
    assert_eq!(err.to_text(), "unknown Git hook `post-lunch`");
    assert_eq!(err.exit_code(), 2);
}

#[test]
fn hooks_tell_the_branch() {
    let current = Some("main".to_string());
    let branch = |hook: &str, args: &[&str], stdin: &str| branch_from_hook(hook, &strings(args), stdin, &current);
    assert_eq!(branch("update", &["refs/heads/dev", "a", "b"], "").as_deref(), Some("dev"));
    assert_eq!(branch("update", &["refs/tags/v1"], "").as_deref(), Some("main"));
    assert_eq!(branch("update", &[], "").as_deref(), Some("main"));
    assert_eq!(branch("pre-receive", &[], "0 1 refs/tags/v1\n0 1  refs/heads/feature/x\n").as_deref(), Some("feature/x"));
    assert_eq!(branch("post-receive", &[], "").as_deref(), Some("main"));
    assert_eq!(branch("pre-push", &[], "0 1 refs/heads/x\n").as_deref(), Some("main"));
}

#[test]
fn the_first_failure_ends_a_run_unless_it_keeps_going() {
    let mut stop = RunLoop::new(false);
    assert_eq!(stop.record(0), None);
    assert_eq!(stop.record(4), Some(4));
    let mut go = RunLoop::new(true);
    assert_eq!(go.record(4), None);
    assert_eq!(go.record(0), None);
    assert_eq!(go.record(5), None);
    assert_eq!(go.result(), 5);
    assert_eq!(RunLoop::new(false).result(), 0);
}

fn invocation(mode: ContainerOverride) -> RunInvocation {
    let mut request = request(None, "manual");
    request.container_override = mode;
    request.hook_args = strings(&["x"]);
    request.invocation_for_arch(arch("arm64"))
}

#[test]
fn each_kind_of_workflow_has_its_runner() {
    let config = config();
    let runner = |w: &Workflow, mode: ContainerOverride| {
        let m = select_workflows(std::slice::from_ref(w), &config, Some(&w.name), "manual", None, false);
        run_one_workflow(&invocation(mode), &m[0]).map_err(|e| e.to_text())
    };
    assert_eq!(runner(&native("b", &[], &[]), ContainerOverride::Auto), Ok(WorkflowRunner::NativeHost));
    assert_eq!(runner(&native("b", &[], &[]), ContainerOverride::Force), Ok(WorkflowRunner::NativeContainer));
    assert_eq!(runner(&actions("a", "push", &[]), ContainerOverride::Auto), Ok(WorkflowRunner::Actions));
    let image = Workflow {
        name: "img".to_string(),
        path: "/r/.ci/img/Dockerfile".to_string(),
        kind: WorkflowKind::Container,
        provider: WorkflowProvider::Native,
        source: WorkflowSource::Container(ContainerWorkflow { metadata: WorkflowOverride::default() }),
    };
    assert_eq!(runner(&image, ContainerOverride::Auto), Ok(WorkflowRunner::Container));
    assert_eq!(
        runner(&image, ContainerOverride::Disable),
        Err("/r/.ci/img/Dockerfile is a container workflow and cannot run with --no-container".to_string())
    );
    assert!(captures_artifacts(0, &image));
    assert!(!captures_artifacts(1, &image));
    assert!(!captures_artifacts(0, &actions("a", "push", &[])));

    let resolved = resolve_workflow(&image, &config, "manual");
    let plan = run_container_workflow(&resolved, &arch("arm64"), "/r", "/bin/sh", &StringMap::new());
    assert_eq!((plan.tag.as_str(), plan.platform.as_str(), plan.script.as_str()), ("ci-img", "linux/arm64", "true"));
    assert_eq!(run_native_yaml_containerized(2), Some(2));
    assert_eq!(run_native_yaml_containerized(0), None);
}

#[test]
fn programs_have_to_be_there_and_executable() {
    let config = config();
    let w = Workflow {
        name: "t".to_string(),
        path: "/r/.ci/t.sh".to_string(),
        kind: WorkflowKind::Executable,
        provider: WorkflowProvider::Native,
        source: WorkflowSource::Executable(ExecutableWorkflow { metadata: WorkflowOverride::default() }),
    };
    let resolved = resolve_workflow(&w, &config, "manual");
    let on = invocation(ContainerOverride::Auto);
    let plan = run_executable(&resolved, Some(0o755), "/r", &on).expect("plan");
    assert_eq!((plan.program.as_str(), plan.workdir.as_str()), ("/r/.ci/t.sh", "/r"));
    assert_eq!(plan.args, vec!["x"]);
    assert_eq!(run_executable(&resolved, None, "/r", &on).expect_err("missing").exit_code(), 127);
    assert_eq!(run_executable(&resolved, Some(0o644), "/r", &on).expect_err("plain").exit_code(), 126);
    assert!(is_executable(0o100) && !is_executable(0o644));
    assert_eq!(chmod_executable(0o604), 0o755);
}

#[test]
fn caches_are_saved_and_restored() {
    let paths = strings(&["target", "deps/x"]);
    let saved = save_pending_caches("/r", "/g/ci", "rust/deps", &paths);
    let restored = restore_cache("/r", "/g/ci", "rust/deps", &paths);
    assert_eq!((saved[0].source.as_str(), saved[0].target.as_str()), ("/r/target", "/g/ci/cache/rust-deps/target"));
    for (s, r) in saved.iter().zip(restored.iter()) {
        assert_eq!((&s.source, &s.target), (&r.target, &r.source));
    }
    assert_eq!(new_run_id(1700, 42), "1700-42");
    assert_eq!(lock_refused("/g/ci/lock").to_text(), "another `ci` run is active (/g/ci/lock)");
}

#[test]
fn workflows_are_selected_by_name_event_and_branch() {
    let config = config();
    let workflows = [
        native("build", &["pre-push"], &[]),
        native("pre-push", &[], &[]),
        native("deep/pre-push", &[], &[]),
        native("other", &[], &[]),
        actions("hosted", "push", &["main"]),
    ];
    let pick = |name: Option<&str>, event: &str, branch: Option<&str>| {
        select_workflows(&workflows, &config, name, event, branch, false)
            .iter()
            .map(|m| format!("{}: {}", m.workflow.name, m.reasons.join("; ")))
            .collect::<Vec<_>>()
    };
    assert_eq!(
        pick(None, "pre-push", Some("main")),
        vec![
            "build: workflow `on` includes `pre-push`",
            "pre-push: workflow name matches `pre-push`",
            "deep/pre-push: workflow name matches `pre-push`",
            "hosted: actions trigger `push`",
        ]
    );
    assert!(pick(None, "pre-push", Some("feature")).is_empty());
    assert_eq!(pick(None, "manual", Some("feature")).len(), 4);
    assert_eq!(pick(Some("other"), "manual", None), vec!["other: selected explicitly as `other`"]);
    let only = BranchConfig { allow: Vec::new(), only: strings(&["x"]) };
    assert!(branch_allowed(&config, &only, Some("x")) && !branch_allowed(&config, &only, Some("main")));
}

#[test]
fn explanations_name_what_matched() {
    let config = config();
    let workflows = [native("build", &["pre-push"], &[])];
    let lines = explain_subject(&workflows, &config, "build", None);
    assert_eq!(lines[0], "build [native] at /r/.ci/build.yml");
    assert_eq!(lines[1], "  events: pre-push");
    assert_eq!(lines[2], "  branches: [\"main\", \"master\", \"develop\", \"development\"]");
    assert_eq!(
        explain_subject(&workflows, &config, "pre-push", Some("main")),
        vec!["Matched workflows for `pre-push`:", "- build [native] because workflow `on` includes `pre-push`"]
    );
    assert_eq!(explain_subject(&workflows, &config, "update", Some("main")), vec!["No workflows matched `update`"]);
    let asked = ExplainArgs { subject: "build".to_string() };
    assert_eq!(cmd_explain(&context(globals()), &asked, &workflows), lines);
}

#[test]
fn explain_reports_arch_platform_and_skipped_steps() {
    let config = config();
    let w = native("build", &["manual"], &[]);
    let resolved = resolve_workflow(&w, &config, "manual");
    let lines = explain_arches(&resolved, &[arch("arm64")]);
    assert!(lines[0].contains("Precedence: CLI flags > workflow fields"));
    assert_eq!(lines[1], "arches: arm64");
    assert_eq!(lines[2], "platform(arm64): linux/arm64");

    let env = explain_env(&arch("arm64"), &arch("x64"));
    assert_eq!(env.get("CI_HOST_ARCH").map(String::as_str), Some("x64"));
    let line = |step: &NativeStep, there: &[bool]| explain_step(step, &env, None, there);
    assert_eq!(line(&step("host-only", "echo host", Some("arch(x64)")), &[]), "  SKIP host-only");
    assert_eq!(line(&step("selected", "echo selected", Some("arch(arm64)")), &[]), "  OK   selected");
    let guarded = step("guarded", "make", Some("exists(file:Makefile)"));
    assert_eq!(explain_questions(&guarded, &env, None)[0].name, "Makefile");
    assert_eq!(line(&guarded, &[true]), "  OK   guarded");
    assert_eq!(line(&guarded, &[false]), "  SKIP guarded");

    let mut options = globals();
    options.arch = vec![arch("arm64")];
    let named = |options| explained_arches(&context(options), &resolved, &arch("x64")).iter().map(|a| a.to_text()).collect::<Vec<_>>();
    assert_eq!(named(options), vec!["arm64"]);
    assert_eq!(named(globals()), vec!["x64"]);
}

#[test]
fn list_auto_detects_default_rust_build_workflow() {
    let stack = detect_default_build_stack(&strings(&["Cargo.toml", "src"]));
    assert_eq!(stack, Some(ContainerType::Rust));
    let workflows = available_workflows(Vec::new(), "/r/.ci", stack, true);
    let args = ListArgs { porcelain: true, no_porcelain: false };
    let (lines, note) = cmd_list(&workflows, &args, true, "/r/.ci");
    assert_eq!(lines, vec!["build\tnative\tyaml\t/r/.ci/build.yml"]);
    assert_eq!(note, None);
    let human = ListArgs { porcelain: false, no_porcelain: false };
    let (lines, _) = cmd_list(&workflows, &human, true, "/r/.ci");
    assert_eq!(lines, vec![format!("{:<28} {:<15} {:<12} {}", "build", "native", "yaml", "/r/.ci/build.yml")]);
    let (lines, note) = cmd_list(&[], &human, true, "/r/.ci");
    assert!(lines.is_empty());
    assert_eq!(note.as_deref(), Some("No workflows found in /r/.ci"));
}

#[test]
fn generated_workflows_use_a_container_without_the_tool() {
    let metadata = |has_tool: bool| match &available_workflows(Vec::new(), "/c", Some(ContainerType::Rust), has_tool)[0].source {
        WorkflowSource::NativeYaml(native) => (native.metadata.tech_stack, native.steps[0].run.clone()),
        _ => panic!("expected a native workflow"),
    };
    assert_eq!(metadata(true), (None, Some("cargo build".to_string())));
    assert_eq!(metadata(false), (Some(ContainerType::Rust), Some("cargo build".to_string())));
    assert!(available_workflows(Vec::new(), "/c", None, true).is_empty());
    assert_eq!(available_workflows(vec![native("x", &[], &[])], "/c", Some(ContainerType::Rust), true)[0].name, "x");
}

#[test]
fn init_detects_rust_and_writes_container_ready_workflow() {
    let ctx = context(globals());
    let plan = cmd_init(&ctx, &InitArgs { force: true }, true, &strings(&["Cargo.toml"])).expect("plan");
    assert_eq!(plan.path, "/r/.ci/build.yml");
    assert_eq!(plan.note, "Created /r/.ci/build.yml");
    assert!(plan.content.contains("tech: rust"));
    assert!(plan.content.contains("cargo fmt --check"));
    assert!(plan.content.contains("cargo clippy --all-targets -- -D warnings"));
    assert!(plan.content.contains("components: [cargo-fmt, cargo-clippy]"));
    assert!(ci::yaml::check_workflow_text(&plan.content, "build.yml").is_ok());
    let err = cmd_init(&ctx, &InitArgs { force: false }, true, &[]).expect_err("kept");
    assert_eq!(err.to_text(), "/r/.ci/build.yml already exists; use `ci init --force` to replace it");
    let shell = cmd_init(&ctx, &InitArgs { force: false }, false, &[]).expect("plan");
    assert!(shell.content.contains("Add your build command to .ci/build.yml"));
    let mut global = globals();
    global.tech_stack = Some(ContainerType::Go);
    let go = cmd_init(&context(global), &InitArgs { force: false }, false, &strings(&["Cargo.toml"])).expect("plan");
    assert!(go.content.contains("tech: go") && go.content.contains("go build ./..."));
}

#[test]
fn open_kinds_of_projects_do_not_count() {
    let mut global = globals();
    global.tech_stack = Some(ContainerType::Auto);
    assert_eq!(default_tech_stack_override(&context(global)), None);
    let mut ctx = context(globals());
    ctx.config.defaults.container = ContainerConfig { kind: Some(ContainerType::Node), ..ContainerConfig::default() };
    assert_eq!(default_tech_stack_override(&ctx), Some(ContainerType::Node));
}

#[test]
fn the_tool_describes_itself() {
    assert_eq!(
        cmd_self("0.1.0", "/usr/bin/ci", "/r"),
        vec!["ci 0.1.0", "executable: /usr/bin/ci", "repository: /r"]
    );
}
