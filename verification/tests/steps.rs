use ci::actions::{ActionContainer, ActionRunStep, ActionUsesStep, ActionsJob, ActionsProvider, ActionsWorkflow, RunDefaults};
use ci::arch::Architecture;
use ci::buildargs::{
    append_args_to_build_script, detect_build_arg_step, is_build_command_line, is_build_label, script_contains_build_command,
    shell_quote, shell_quote_args,
};
use ci::cli::GlobalOptions;
use ci::config::{ActionsConfig, ColorWhen, ConfigFile, ContainerConfig, ContainerRuntime, DefaultsConfig, ResolvedConfig, WorkflowOverride};
use ci::environ::{container_step_env, merged_env, resolve_workdir, workflow_env, ContainerOverride, RunInvocation};
use ci::files::CleanAction;
use ci::jobs::{
    after_job, job_env, job_questions, make_job_step_context, matrix_of, matrix_runs, order_jobs, parse_remote_action,
    remote_action_dir, remote_url, run_actions_run_step, run_actions_uses_step, run_actions_workflow, run_step_env, uses_step_env, JobPlan, JobRun,
    UsesPlan,
};
use ci::local::{
    composite_questions, load_action_metadata, metadata_file, run_composite_step, run_local_action, ActionMetadataStep,
    ActionRuns, DockerAction, LocalPlan, RawActionMetadataStep, RawActionRuns,
};
use ci::maps::{NameMap, StringMap};
use ci::native::{
    forwarded_to, run_native_yaml, step_env, step_in_container, step_name, step_questions, NativeRun, NextStep, StepPlan, StepStatus,
};
use ci::repo::RepoInfo;
use ci::select::{resolve_workflow, ResolvedWorkflow};
use ci::steps::{BuiltinPlan, BuiltinSetting};
use ci::workflow::{NativeStep, NativeWorkflow, Workflow, WorkflowKind, WorkflowProvider, WorkflowSource};

fn strings(items: &[&str]) -> Vec<String> {
    items.iter().map(|item| item.to_string()).collect()
}

fn map(entries: &[(&str, &str)]) -> StringMap {
    let mut map = StringMap::new();
    for (name, value) in entries {
        map.insert(name.to_string(), value.to_string());
    }
    map
}

fn arch(name: &str) -> Architecture {
    Architecture::from_alias(name).expect("architecture")
}

fn config() -> ResolvedConfig {
    let global = GlobalOptions {
        verbose: 0,
        quiet: false,
        silent: false,
        repo: ".".to_string(),
        ci_dir: ".ci".to_string(),
        config: None,
        color: ColorWhen::Auto,
        git_mode: None,
        git_command: None,
        git_image: None,
        container: false,
        no_container: false,
        arch: Vec::new(),
        tech_stack: None,
    };
    let file = ConfigFile {
        root_defaults: DefaultsConfig::default(),
        defaults: DefaultsConfig::default(),
        hooks: NameMap::new(),
        workflows: NameMap::new(),
        actions: ActionsConfig { node_image: None },
    };
    ResolvedConfig::load("c".to_string(), false, file, &global, &arch("x64"))
}

fn step(run: &str) -> NativeStep {
    NativeStep {
        name: None,
        run: Some(run.to_string()),
        uses: None,
        container: None,
        with: StringMap::new(),
        extra: StringMap::new(),
        shell: None,
        env: StringMap::new(),
        if_condition: None,
        working_directory: None,
        continue_on_error: false,
        timeout_minutes: None,
        readonly: None,
    }
}

fn conditional(run: &str, condition: &str) -> NativeStep {
    let mut step = step(run);
    step.if_condition = Some(condition.to_string());
    step
}

fn workflow() -> Workflow {
    Workflow {
        name: "build".to_string(),
        path: "/r/.ci/build.yml".to_string(),
        kind: WorkflowKind::NativeYaml,
        provider: WorkflowProvider::Native,
        source: WorkflowSource::NativeYaml(NativeWorkflow { metadata: WorkflowOverride::default(), needs: Vec::new(), steps: Vec::new() }),
    }
}

fn setting() -> BuiltinSetting<'static> {
    BuiltinSetting {
        default_name: "step",
        root: "/r",
        recursive_checkout: true,
        quiet: false,
        branch: Some("main"),
        shell: "/bin/sh",
        workdir: "/r",
    }
}

/// Runs steps whose scripts end with the status that their text is; gives the scripts that
/// ran and the status of the workflow.
fn run_all(steps: &[NativeStep]) -> (Vec<String>, i32) {
    let w = workflow();
    let config = config();
    let resolved = resolve_workflow(&w, &config, "manual");
    let base = map(&[("CI_EVENT", "manual")]);
    let mut run = NativeRun::new();
    let mut ran = Vec::new();
    for step in steps {
        let vars = step_env(&base, &resolved, step, false);
        let asked = step_questions(&run, step, &base, &vars);
        let there = vec![false; asked.len()];
        match run_native_yaml(&run, &resolved, step, &base, &vars, &there, None, &setting(), "/bin/sh").ok().expect("plan") {
            NextStep::Skip => run.record(None, step.continue_on_error),
            NextStep::Run(StepPlan::Shell(plan)) => {
                assert_eq!(plan.shell, "/bin/sh");
                assert_eq!(plan.workdir, "/r");
                let code = plan.script.parse::<i32>().unwrap_or(0);
                ran.push(plan.script);
                run.record(Some(code), step.continue_on_error);
            }
            NextStep::Run(StepPlan::Builtin(_)) => panic!("expected a script"),
        }
    }
    (ran, run.result())
}

#[test]
fn run_executes_native_steps_and_skips_false_conditions() {
    let (ran, status) = run_all(&[step("printf ok > marker.txt"), conditional("printf bad > skipped.txt", "false")]);
    assert_eq!(ran, vec!["printf ok > marker.txt"]);
    assert_eq!(status, 0);
}

#[test]
fn continue_on_error_allows_workflow_to_recover() {
    let mut tolerated = step("7");
    tolerated.continue_on_error = true;
    let (ran, status) = run_all(&[tolerated, conditional("printf recovered > recovered.txt", "failure")]);
    assert_eq!(ran, vec!["7", "printf recovered > recovered.txt"]);
    assert_eq!(status, 0);
}

#[test]
fn a_failure_stops_what_has_no_condition() {
    let (ran, status) = run_all(&[step("3"), step("0"), conditional("1", "failure"), conditional("2", "always")]);
    assert_eq!(ran, vec!["3", "1", "2"]);
    assert_eq!(status, 3);
}

#[test]
fn steps_run_in_containers_unless_they_say_otherwise() {
    let mut host = step("x");
    host.container = Some(false);
    assert!(!step_in_container(&host, true));
    assert!(step_in_container(&step("x"), true));
    assert!(!step_in_container(&step("x"), false));
    assert_eq!(step_name(&step("x")), "run");
    assert_eq!(forwarded_to(Some(1), 1, &strings(&["a"])).map(|a| a.len()), Some(1));
    assert!(forwarded_to(Some(1), 0, &strings(&["a"])).is_none());
}

#[test]
fn built_in_steps_are_planned_in_workflows() {
    let w = workflow();
    let config = config();
    let resolved = resolve_workflow(&w, &config, "manual");
    let mut checkout = step("x");
    checkout.run = None;
    checkout.uses = Some("checkout".to_string());
    let base = map(&[]);
    let run = NativeRun::new();
    match run_native_yaml(&run, &resolved, &checkout, &base, &base, &[], None, &setting(), "/bin/sh").ok().expect("plan") {
        NextStep::Run(StepPlan::Builtin(BuiltinPlan::Checkout(submodules))) => assert!(submodules),
        _ => panic!("expected a checkout"),
    }
    checkout.uses = Some("nobody/knows@v1".to_string());
    assert!(run_native_yaml(&run, &resolved, &checkout, &base, &base, &[], None, &setting(), "/bin/sh").is_err());
}

#[test]
fn build_arguments_go_to_the_build_step() {
    assert!(is_build_label("Build") && !is_build_label("test"));
    assert!(is_build_command_line("cargo build --release") && !is_build_command_line("cargo fmt"));
    assert!(script_contains_build_command("set -e\ncargo build"));
    let steps = [step("cargo fmt"), step("cargo build")];
    assert_eq!(detect_build_arg_step("build", "p", &steps, &[]).expect("none"), None);
    assert_eq!(detect_build_arg_step("build", "p", &steps, &strings(&["--release"])).expect("one"), Some(1));
    assert!(detect_build_arg_step("x", "p", &[step("true")], &strings(&["a"])).is_err());
    assert_eq!(append_args_to_build_script("cargo build", &strings(&["--release", "a b"])), "cargo build --release 'a b'");
    assert_eq!(append_args_to_build_script("set -e\ncargo build\necho", &strings(&["-v"])), "set -e\ncargo build -v\necho");
    assert_eq!(shell_quote("it's"), "'it'\\''s'");
    assert_eq!(shell_quote_args(&strings(&["a", ""])), "a ''");
}

#[test]
fn variables_are_layered() {
    let merged = merged_env(&map(&[("A", "1"), ("B", "1"), ("C", "1")]), &map(&[("B", "2"), ("C", "2")]), &map(&[("C", "3")]));
    let show = |name: &str| merged.get(name).map(String::as_str);
    assert_eq!((show("A"), show("B"), show("C")), (Some("1"), Some("2"), Some("3")));
    let container = ContainerConfig { env: map(&[("A", "9")]), ..ContainerConfig::default() };
    assert_eq!(container_step_env(&merged, &container).get("A").map(String::as_str), Some("9"));
    assert_eq!(resolve_workdir("/r", Some("sub")), "/r/sub");
    assert_eq!(resolve_workdir("/r", Some("/abs")), "/abs");
    assert_eq!(resolve_workdir("/r", None), "/r");
}

#[test]
fn workflows_know_where_they_run() {
    let w = workflow();
    let config = config();
    let resolved = resolve_workflow(&w, &config, "pre-push");
    let repo = RepoInfo::new("/r/.git".to_string(), Some("/r".to_string()), ".ci", "a", "c", None, "/ci".to_string());
    let on = RunInvocation {
        event: "pre-push".to_string(),
        arch: arch("arm64"),
        container_runtime: ContainerRuntime::Auto,
        container_override: ContainerOverride::Auto,
        hook_args: strings(&["origin", "url"]),
        workflow_args: Vec::new(),
        branch: Some("main".to_string()),
    };
    let env = workflow_env(&repo, &arch("x64"), &on, &resolved, "7-8");
    for (name, value) in [
        ("CI", "true"),
        ("CI_TOOL", "ci"),
        ("CI_EVENT", "pre-push"),
        ("CI_REPO", "/r"),
        ("CI_GIT_DIR", "/r/.git"),
        ("CI_WORKFLOW", "build"),
        ("CI_ARCH", "arm64"),
        ("CI_HOST_ARCH", "x64"),
        ("CI_BRANCH", "main"),
    ] {
        assert_eq!(env.get(name).map(String::as_str), Some(value), "{}", name);
    }
}

fn job(id: &str, needs: &[&str]) -> ActionsJob {
    ActionsJob {
        id: id.to_string(),
        name: id.to_string(),
        needs: strings(needs),
        if_condition: None,
        env: map(&[("L", "job")]),
        defaults: RunDefaults { shell: None, working_directory: None },
        container: None,
        services: NameMap::new(),
        matrix: Vec::new(),
        steps: Vec::new(),
        continue_on_error: false,
    }
}

fn hosted() -> ActionsWorkflow {
    ActionsWorkflow {
        name: "My CI".to_string(),
        provider: ActionsProvider::GitHub,
        events: Vec::new(),
        env: map(&[("L", "workflow"), ("W", "w")]),
        defaults: RunDefaults { shell: Some("bash".to_string()), working_directory: Some("wd".to_string()) },
        jobs: Vec::new(),
    }
}

#[test]
fn jobs_come_after_what_they_need() {
    let jobs = [job("deploy", &["test", "build"]), job("build", &[]), job("test", &["build"])];
    assert_eq!(order_jobs(&jobs).expect("order"), vec![1, 2, 0]);
    assert_eq!(order_jobs(&[job("a", &["x"])]).expect_err("unknown").to_text(), "unknown job dependency `x`");
    assert_eq!(
        order_jobs(&[job("a", &["b"]), job("b", &["a"])]).expect_err("cycle").to_text(),
        "cyclic job dependency involving `a`"
    );
}

#[test]
fn jobs_run_once_for_each_combination() {
    let mut many = job("a", &[]);
    assert_eq!(matrix_runs(&many), 1);
    assert_eq!(matrix_of(&many, 0).len(), 0);
    many.matrix = vec![map(&[("os", "x")]), map(&[("os", "y")])];
    assert_eq!(matrix_runs(&many), 2);
    assert_eq!(matrix_of(&many, 1).get("os").map(String::as_str), Some("y"));
    assert_eq!(after_job(3, false), Some(3));
    assert_eq!(after_job(3, true), None);
    assert_eq!(after_job(0, false), None);
}

#[test]
fn jobs_name_their_services() {
    let on = RunInvocation {
        event: "push".to_string(),
        arch: arch("x64"),
        container_runtime: ContainerRuntime::Auto,
        container_override: ContainerOverride::Auto,
        hook_args: Vec::new(),
        workflow_args: Vec::new(),
        branch: None,
    };
    let w = hosted();
    let mut j = job("unit tests", &[]);
    let vars = job_env(&map(&[("B", "b")]), &w, &j);
    assert_eq!(vars.get("L").map(String::as_str), Some("job"));
    assert_eq!(vars.get("W").map(String::as_str), Some("w"));
    let none = StringMap::new();
    match run_actions_workflow(&w, &j, &on, &vars, &none, &[]) {
        JobPlan::Run(containers, services) => assert!(!containers && services.is_empty()),
        JobPlan::Skip => panic!("the job runs"),
    }
    j.services.insert("db".to_string(), ActionContainer { image: "pg".to_string(), options: None });
    match run_actions_workflow(&w, &j, &on, &vars, &none, &[]) {
        JobPlan::Run(containers, services) => {
            assert!(containers);
            assert_eq!(services, vec!["ci-My-CI-unit-tests-db"]);
        }
        JobPlan::Skip => panic!("the job runs"),
    }
    j.if_condition = Some("exists(dir:x)".to_string());
    assert_eq!(job_questions(&j, &on, &vars, &none).len(), 1);
    assert!(matches!(run_actions_workflow(&w, &j, &on, &vars, &none, &[false]), JobPlan::Skip));
}

#[test]
fn a_failing_step_ends_a_job_unless_it_may_fail() {
    let mut run = JobRun::new();
    assert!(run.status().success);
    assert_eq!(run.run_actions_job(2, true), None);
    assert!(run.status().previous_failed && !run.status().success);
    assert_eq!(run.run_actions_job(0, false), None);
    assert!(run.status().success);
    assert_eq!(run.run_actions_job(5, false), Some(5));
}

fn run_step(run: &str) -> ActionRunStep {
    ActionRunStep {
        name: "s".to_string(),
        run: run.to_string(),
        shell: None,
        env: map(&[("S", "${{ nothing }}")]),
        if_condition: None,
        working_directory: None,
        continue_on_error: false,
        timeout_minutes: None,
    }
}

#[test]
fn scripts_of_jobs_fall_back_to_the_workflow() {
    let w = hosted();
    let mut j = job("a", &[]);
    let native = workflow();
    let config = config();
    let resolved = resolve_workflow(&native, &config, "push");
    let base = map(&[("CI_EVENT", "push"), ("CI_BRANCH", "dev")]);
    let mut s = run_step("echo ${{ matrix.os }} ${{ env.L }}");
    let vars = run_step_env(&base, &w, &j, &resolved, &s);
    let matrix = map(&[("os", "linux")]);
    let none = StringMap::new();
    let start = StepStatus { success: true, previous_failed: false };
    let ctx = make_job_step_context(&base, &vars, &matrix, &none, start);
    let plan = run_actions_run_step(&w, &j, &resolved, &s, &ctx, &[], "/r", "/bin/sh").expect("runs");
    assert_eq!((plan.shell.as_str(), plan.script.as_str(), plan.workdir.as_str()), ("bash", "echo linux job", "/r/wd"));
    assert!(plan.container.is_none());
    j.container = Some(ActionContainer { image: "img".to_string(), options: Some("--x".to_string()) });
    j.defaults.shell = Some("zsh".to_string());
    s.working_directory = Some("own".to_string());
    let plan = run_actions_run_step(&w, &j, &resolved, &s, &ctx, &[], "/r", "/bin/sh").expect("runs");
    assert_eq!((plan.shell.as_str(), plan.workdir.as_str()), ("zsh", "/r/own"));
    assert_eq!(plan.container.expect("container").image, "img");
    s.if_condition = Some("failure()".to_string());
    assert!(run_actions_run_step(&w, &j, &resolved, &s, &ctx, &[], "/r", "/bin/sh").is_none());
}

#[test]
fn actions_are_found_in_four_places() {
    let (native, config) = (workflow(), config());
    let resolved = resolve_workflow(&native, &config, "manual");
    let w = hosted();
    let j = job("a", &[]);
    let base = map(&[]);
    let mut s = ActionUsesStep {
        name: "s".to_string(),
        uses: "actions/checkout@v4".to_string(),
        with: StringMap::new(),
        env: map(&[("L", "step")]),
        if_condition: None,
        working_directory: None,
        continue_on_error: false,
    };
    let vars = uses_step_env(&base, &w, &j, &s);
    assert_eq!(vars.get("L").map(String::as_str), Some("step"));
    let none = StringMap::new();
    let start = StepStatus { success: true, previous_failed: false };
    let plan = |s: &ActionUsesStep, backend: bool| {
        let ctx = make_job_step_context(&base, &vars, &none, &none, start);
        run_actions_uses_step(&w, &j, &resolved, s, &ctx, &[], &setting(), backend, "/bin/dash")
    };
    assert!(matches!(plan(&s, false).expect("plan"), UsesPlan::Builtin(_)));
    s.uses = "docker://alpine:3".to_string();
    match plan(&s, true).expect("plan") {
        UsesPlan::Docker(run) => {
            assert_eq!(run.image, "alpine:3");
            assert_eq!((run.shell.as_str(), run.script.as_str(), run.workdir.as_str()), ("/bin/dash", "true", "/r"));
        }
        _ => panic!("expected an image"),
    }
    assert_eq!(plan(&s, false).expect_err("no runtime").to_text(), "docker actions require a container runtime");
    s.uses = "./././tools/lint".to_string();
    match plan(&s, false).expect("plan") {
        UsesPlan::Local(dir) => assert_eq!(dir, "/r/tools/lint"),
        _ => panic!("expected a directory"),
    }
    s.uses = "owner/repo/sub/dir@v2".to_string();
    match plan(&s, false).expect("plan") {
        UsesPlan::Remote(remote) => {
            assert_eq!((remote.owner.as_str(), remote.repo.as_str()), ("owner", "repo"));
            assert_eq!((remote.subpath.as_str(), remote.reference.as_str()), ("sub/dir", "v2"));
            assert_eq!(remote_action_dir("/cache/x", &remote), "/cache/x/sub/dir");
            assert_eq!(remote_url(w.remote_base(), &remote), "https://github.com/owner/repo");
        }
        _ => panic!("expected an action elsewhere"),
    }
    assert_eq!(parse_remote_action("owner/repo").expect_err("no ref").to_text(), "remote action `owner/repo` is missing `@ref`");
    assert_eq!(parse_remote_action("owner@v1").expect_err("no repo").to_text(), "invalid action reference `owner@v1`");
    assert_eq!(parse_remote_action("o/r@a@b").expect("two").reference, "a@b");
}

fn metadata_step(run: Option<&str>, uses: Option<&str>) -> RawActionMetadataStep {
    RawActionMetadataStep {
        name: None,
        if_condition: None,
        run: run.map(|r| r.to_string()),
        uses: uses.map(|u| u.to_string()),
        shell: None,
        env: StringMap::new(),
        working_directory: None,
        continue_on_error: false,
    }
}

fn runs(using: &str, steps: Vec<RawActionMetadataStep>) -> RawActionRuns {
    RawActionRuns {
        using: using.to_string(),
        main: None,
        image: None,
        dockerfile: None,
        entrypoint: None,
        args: None,
        steps,
    }
}

#[test]
fn metadata_says_how_an_action_runs() {
    assert_eq!(metadata_file("/a", true, true).expect("yml"), "/a/action.yml");
    assert_eq!(metadata_file("/a", false, true).expect("yaml"), "/a/action.yaml");
    assert_eq!(metadata_file("/a", false, false).expect_err("none").to_text(), "no action.yml or action.yaml found in /a");
    match load_action_metadata("/a", &runs("composite", vec![metadata_step(Some("x"), None), metadata_step(None, Some("u"))])).ok().expect("composite") {
        ActionRuns::Composite(steps) => {
            assert!(matches!(&steps[0], ActionMetadataStep::Run(s) if s.name == "step-1"));
            assert!(matches!(&steps[1], ActionMetadataStep::Uses));
        }
        _ => panic!("expected steps"),
    }
    let text = |r: RawActionRuns| load_action_metadata("/a", &r).err().expect("refused").to_text();
    assert_eq!(
        text(runs("docker", vec![metadata_step(None, None)])),
        "action /a has a composite step without exactly one of `run` or `uses`"
    );
    assert_eq!(text(runs("node20", Vec::new())), "node action /a is missing runs.main");
    assert_eq!(text(runs("ruby", Vec::new())), "action /a uses unsupported runner `ruby`");
}

#[test]
fn actions_in_directories_run_in_their_ways() {
    let docker = ActionRuns::Docker(DockerAction { image: None, dockerfile: None, entrypoint: None, args: None });
    match run_local_action("/x/my action", &docker, true, false).expect("plan") {
        LocalPlan::BuildAndRun(build, run) => {
            assert_eq!((build.file.as_str(), build.tag.as_str()), ("/x/my action/Dockerfile", "ci-action-my-action"));
            assert_eq!(run.image, build.tag);
            assert!(run.args.is_empty());
        }
        _ => panic!("expected a build"),
    }
    assert!(run_local_action("/x", &docker, false, true).is_err());
    let image = ActionRuns::Docker(DockerAction {
        image: Some("img".to_string()),
        dockerfile: None,
        entrypoint: Some("e".to_string()),
        args: Some(strings(&["a"])),
    });
    match run_local_action("/x", &image, true, false).expect("plan") {
        LocalPlan::Container(run) => assert_eq!((run.image.as_str(), run.args.len()), ("img", 1)),
        _ => panic!("expected a container"),
    }
    let node = ActionRuns::Node("dist/index.js".to_string());
    assert!(matches!(run_local_action("/x", &node, false, true).expect("plan"), LocalPlan::NodeHost(p) if p == "/x/dist/index.js"));
    assert!(matches!(run_local_action("/x", &node, true, false).expect("plan"), LocalPlan::NodeContainer(s) if s == "node index.js"));
    assert_eq!(
        run_local_action("/x", &node, false, false).expect_err("nothing runs it").to_text(),
        "js actions require node or a container runtime"
    );
}

#[test]
fn composite_steps_run_one_by_one() {
    let base = map(&[]);
    let none = StringMap::new();
    let inputs = map(&[("who", "me")]);
    let ctx = make_job_step_context(&base, &base, &none, &inputs, StepStatus { success: true, previous_failed: false });
    let mut s = run_step("hi ${{ inputs.who }}");
    s.if_condition = Some("exists(x)".to_string());
    let step = ActionMetadataStep::Run(s);
    assert_eq!(composite_questions(&step, &ctx).len(), 1);
    assert!(run_composite_step("/a", &step, &ctx, &[false], "/bin/sh").expect("skipped").is_none());
    let shell = run_composite_step("/a", &step, &ctx, &[true], "/bin/sh").expect("runs").expect("script");
    assert_eq!((shell.script.as_str(), shell.workdir.as_str(), shell.shell.as_str()), ("hi me", "/a/.", "/bin/sh"));
    let err = run_composite_step("/a", &ActionMetadataStep::Uses, &ctx, &[], "/bin/sh").expect_err("nested");
    assert_eq!(err.to_text(), "composite action /a contains nested `uses`, which is not supported yet");
}

/// The shell and the directory of the last script of a cleanup.
fn script_place(plan: BuiltinPlan) -> (String, String) {
    match plan {
        BuiltinPlan::Clean(mut plan) => match plan.actions.pop() {
            Some(CleanAction::Shell { shell, workdir, .. }) => (shell, workdir),
            _ => panic!("expected a script"),
        },
        _ => panic!("expected a cleanup"),
    }
}

#[test]
fn cleaning_keeps_to_the_shell_and_the_directory_of_its_step() {
    let (w, config) = (workflow(), config());
    let mut resolved = resolve_workflow(&w, &config, "manual");
    let base = map(&[]);
    let place = |step: &NativeStep, resolved: &ResolvedWorkflow| {
        let vars = step_env(&base, resolved, step, false);
        let run = NativeRun::new();
        match run_native_yaml(&run, resolved, step, &base, &vars, &[], None, &setting(), "/bin/dash").ok().expect("plan") {
            NextStep::Run(StepPlan::Builtin(plan)) => script_place(plan),
            _ => panic!("expected an action"),
        }
    };
    let mut clean = step("rm -rf dist");
    clean.uses = Some("clean".to_string());
    assert_eq!(place(&clean, &resolved), ("/bin/dash".to_string(), "/r".to_string()));
    resolved.execution.shell = Some("bash".to_string());
    resolved.execution.workspace = Some("work".to_string());
    assert_eq!(place(&clean, &resolved), ("bash".to_string(), "/r/work".to_string()));
    clean.shell = Some("zsh".to_string());
    clean.working_directory = Some("sub".to_string());
    assert_eq!(place(&clean, &resolved), ("zsh".to_string(), "/r/sub".to_string()));

    let mut hosted = hosted();
    let mut job = job("a", &[]);
    let none = StringMap::new();
    let mut used = ActionUsesStep {
        name: "s".to_string(),
        uses: "clean".to_string(),
        with: map(&[("cargo", "true")]),
        env: StringMap::new(),
        if_condition: None,
        working_directory: None,
        continue_on_error: false,
    };
    hosted.defaults = RunDefaults { shell: Some("bash".to_string()), working_directory: Some("all".to_string()) };
    let start = StepStatus { success: true, previous_failed: false };
    let place = |hosted: &ActionsWorkflow, job: &ActionsJob, used: &ActionUsesStep| {
        let ctx = make_job_step_context(&base, &none, &none, &none, start);
        match run_actions_uses_step(hosted, job, &resolved, used, &ctx, &[], &setting(), false, "/bin/dash").expect("plan") {
            UsesPlan::Builtin(plan) => script_place(plan),
            _ => panic!("expected an action"),
        }
    };
    assert_eq!(place(&hosted, &job, &used), ("bash".to_string(), "/r/all".to_string()));
    job.defaults = RunDefaults { shell: Some("zsh".to_string()), working_directory: None };
    used.working_directory = Some("own".to_string());
    assert_eq!(place(&hosted, &job, &used), ("zsh".to_string(), "/r/own".to_string()));
    hosted.defaults = RunDefaults { shell: None, working_directory: None };
    job.defaults = RunDefaults { shell: None, working_directory: None };
    used.working_directory = None;
    assert_eq!(place(&hosted, &job, &used), ("/bin/dash".to_string(), "/r/work".to_string()));
    hosted.provider = ActionsProvider::Gitea;
    assert_eq!(hosted.remote_base(), "https://gitea.com");
}
