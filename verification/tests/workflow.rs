use ci::arch::Architecture;
use ci::config::{ArchFilter, ArtifactConfig, BranchConfig, ContainerConfig, ContainerType, EventFilter, ExecutionConfig, WorkflowOverride};
use ci::discover::{discover_container_workflow, discover_executable_workflow, discover_native_yaml, load_directory_metadata};
use ci::maps::{NameMap, StringMap};
use ci::workflow::{
    canonical_events, directory_has_other_runnables, discover_all, discover_native, is_actions_file, kind_name,
    provider_name, workflow_name, DirEntry, ExecutableWorkflow, NativeStep, NativeWorkflowFile, RawNativeStep, Workflow,
    WorkflowKind, WorkflowProvider, WorkflowSource,
};
use ci::yaml::{check_config_text, check_workflow_text, stringify_yaml_value, YamlValue};

fn arch(name: &str) -> Architecture {
    Architecture::from_alias(name).expect("architecture")
}

fn raw_step() -> RawNativeStep {
    RawNativeStep {
        name: None,
        run: None,
        use_value: None,
        uses: None,
        container: None,
        shell: None,
        env: NameMap::new(),
        with: NameMap::new(),
        extra: NameMap::new(),
        if_condition: None,
        working_directory: None,
        continue_on_error: false,
        timeout_minutes: None,
        readonly: None,
    }
}

fn file(steps: Vec<RawNativeStep>) -> NativeWorkflowFile {
    NativeWorkflowFile {
        name: None,
        defaults: WorkflowOverride::default(),
        on: EventFilter::Unset,
        needs: EventFilter::Unset,
        tech_stack: None,
        arch: ArchFilter::Unset,
        branches: BranchConfig::default(),
        artifacts: ArtifactConfig::default(),
        execution: ExecutionConfig::default(),
        container: ContainerConfig::default(),
        env: StringMap::new(),
        steps,
    }
}

fn first_step(file: NativeWorkflowFile) -> Result<NativeStep, String> {
    let step = file.steps.into_iter().next().expect("step");
    step.into_step(".ci/build.yml", 0).map_err(|e| e.to_text())
}

fn refused(file: NativeWorkflowFile) -> String {
    match first_step(file) {
        Ok(_) => panic!("step should be rejected"),
        Err(text) => text,
    }
}

fn executable(name: &str, path: &str) -> Workflow {
    Workflow {
        name: name.to_string(),
        path: path.to_string(),
        kind: WorkflowKind::Executable,
        provider: WorkflowProvider::Native,
        source: WorkflowSource::Executable(ExecutableWorkflow { metadata: WorkflowOverride::default() }),
    }
}

#[test]
fn native_clean_step_accepts_inline_run_and_top_level_options() {
    let mut step = raw_step();
    step.name = Some("Fresh clean".to_string());
    step.use_value = Some("clean".to_string());
    step.extra.insert("cargo".to_string(), YamlValue::Bool(true));
    step.extra.insert("purge".to_string(), YamlValue::Bool(true));
    step.extra.insert("ignored".to_string(), YamlValue::Text("only".to_string()));
    step.run = Some("cargo sweep -i".to_string());
    let step = match first_step(file(vec![step])) {
        Ok(step) => step,
        Err(text) => panic!("{}", text),
    };

    assert_eq!(step.name.as_deref(), Some("Fresh clean"));
    assert_eq!(step.uses.as_deref(), Some("clean"));
    assert_eq!(step.run.as_deref(), Some("cargo sweep -i"));
    assert_eq!(step.extra.get("cargo").map(String::as_str), Some("true"));
    assert_eq!(step.extra.get("purge").map(String::as_str), Some("true"));
    assert_eq!(step.extra.get("ignored").map(String::as_str), Some("only"));
}

#[test]
fn native_non_clean_action_rejects_run_with_use() {
    let mut step = raw_step();
    step.use_value = Some("checkout".to_string());
    step.run = Some("git status".to_string());
    let text = refused(file(vec![step]));

    assert!(text.contains("must define exactly one of `run` or `use`"));
}

#[test]
fn native_step_rejects_multiple_action_source_aliases() {
    let mut step = raw_step();
    step.use_value = Some("clean".to_string());
    step.uses = Some("checkout".to_string());
    let text = refused(file(vec![step]));

    assert!(text.contains("must define only one of `use` or `uses`"));
}

#[test]
fn native_step_accepts_container_override() {
    let mut step = raw_step();
    step.name = Some("Install locally".to_string());
    step.container = Some(false);
    step.run = Some("ci completion bash".to_string());
    let step = match first_step(file(vec![step])) {
        Ok(step) => step,
        Err(text) => panic!("{}", text),
    };

    assert_eq!(step.container, Some(false));
}

#[test]
fn native_workflow_parses_container_arch_aliases() {
    let mut step = raw_step();
    step.run = Some("echo ok".to_string());
    let mut file = file(vec![step]);
    file.container.arch = ArchFilter::Many(vec![arch("amd64"), arch("aarch64")]);
    let names = file.container.arch.to_vec().into_iter().map(|value| value.to_text()).collect::<Vec<_>>();

    assert_eq!(names, vec!["x64", "arm64"]);
}

#[test]
fn native_workflow_accepts_top_level_tech_stack_aliases() {
    let mut step = raw_step();
    step.run = Some("npm run build".to_string());
    let mut file = file(vec![step]);
    file.tech_stack = ci::config::parse_stack("node");
    let metadata = file.metadata();

    assert_eq!(metadata.tech_stack, Some(ContainerType::Node));
    assert!(check_workflow_text("tech-stack: node\nsteps:\n  - run: npm run build\n", "build.yml").is_ok());
}

#[test]
fn native_workflow_defaults_merge_under_direct_fields() {
    let mut step = raw_step();
    step.run = Some("echo ok".to_string());
    let mut file = file(vec![step]);
    file.defaults.container = ContainerConfig {
        kind: Some(ContainerType::Rust),
        arch: ArchFilter::Single(arch("amd64")),
        components: vec!["cargo-fmt".to_string()],
        ..ContainerConfig::default()
    };
    file.container.arch = ArchFilter::Single(arch("aarch64"));
    let metadata = file.metadata();

    let names = metadata.container.arch.to_vec().iter().map(|a| a.to_text()).collect::<Vec<_>>();
    assert_eq!(names, vec!["arm64"]);
    assert_eq!(metadata.container.components, vec!["cargo-fmt"]);
    assert_eq!(metadata.container.kind, Some(ContainerType::Rust));
}

#[test]
fn native_workflow_validation_rejects_unknown_top_level_keys() {
    let err = check_workflow_text("\ncontaner:\n  type: rust\nsteps:\n  - run: echo ok\n", ".ci/build.yml")
        .expect_err("unknown key should be rejected");

    assert!(err.to_text().contains("unknown key `contaner`"));
}

#[test]
fn unknown_workflow_key_fails_with_schema_hint() {
    let err = check_workflow_text("\ncontaner:\n  type: rust\nsteps:\n  - run: echo ok\n", ".ci/build.yml")
        .expect_err("refused");

    assert_eq!(err.exit_code(), 2);
    assert!(err.to_text().contains("unknown key `contaner`"));
    assert!(err.to_text().contains("ci schema workflow"));
}

#[test]
fn unknown_config_key_fails_with_schema_hint() {
    let err = check_config_text("defaults:\n  contaner:\n    type: rust\n", ".ci/config.yml").expect_err("refused");

    assert_eq!(err.exit_code(), 2);
    assert!(err.to_text().contains("unknown key `contaner`"));
    assert!(err.to_text().contains("ci schema config"));
}

#[test]
fn files_that_hold_known_keys_are_accepted() {
    assert!(check_config_text("quiet: true\ncontainer:\n  type: rust\n  arch: [x64]\nhooks:\n  pre-push:\n    tech: go\n", "c").is_ok());
    assert!(check_workflow_text("on: [manual]\nneeds: build\ncontainer:\n  packages: [htop]\nsteps: []\n", "w").is_ok());
    assert!(check_workflow_text("container:\n  color: red\n", "w").is_err());
    assert!(check_workflow_text("container: [rust]\n", "w").is_err());
    let broken = "steps: [";
    let said = serde_yaml::from_str::<serde_yaml::Value>(broken).expect_err("no document").to_string();
    assert_eq!(check_workflow_text(broken, "w").expect_err("refused").to_text(), said);
    assert_eq!(check_config_text(broken, "c").expect_err("refused").to_text(), said);
    assert!(check_workflow_text("1: x\n", "w").is_err());
    let broken = check_workflow_text("a: [", "w").expect_err("no YAML");
    assert_eq!(broken.exit_code(), 3);
}

#[test]
fn values_are_shown_as_text() {
    assert_eq!(stringify_yaml_value(&YamlValue::Null), "");
    assert_eq!(stringify_yaml_value(&YamlValue::Bool(false)), "false");
    assert_eq!(stringify_yaml_value(&YamlValue::Number("1.5".to_string())), "1.5");
    assert_eq!(stringify_yaml_value(&YamlValue::Sequence("- a\n- b\n".to_string())), "- a\n- b");
}

#[test]
fn names_come_from_places() {
    let base = "/r/.ci";
    assert_eq!(workflow_name(base, "/r/.ci/build.yml", &WorkflowKind::NativeYaml), "build");
    assert_eq!(workflow_name(base, "/r/.ci/sub/test.sh", &WorkflowKind::Executable), "sub/test");
    assert_eq!(workflow_name(base, "/r/.ci/rust/workflow.yml", &WorkflowKind::NativeYaml), "rust");
    assert_eq!(workflow_name(base, "/r/.ci/workflow.yml", &WorkflowKind::NativeYaml), "workflow");
    assert_eq!(workflow_name(base, "/r/.ci/rust/Containerfile", &WorkflowKind::Container), "rust");
    assert_eq!(workflow_name(base, "/r/.ci/Dockerfile", &WorkflowKind::Container), "container");
}

#[test]
fn files_are_told_apart() {
    let kind = |path: &str, executable: bool| discover_native("/r/.ci", path, executable, false);
    assert_eq!(kind("/r/.ci/build.yml", false), Some(WorkflowKind::NativeYaml));
    assert_eq!(kind("/r/.ci/build.yaml", true), Some(WorkflowKind::NativeYaml));
    assert_eq!(kind("/r/.ci/build.sh", true), Some(WorkflowKind::Executable));
    assert_eq!(kind("/r/.ci/notes.txt", false), None);
    assert_eq!(kind("/r/.ci/x/Dockerfile", false), Some(WorkflowKind::Container));
    assert_eq!(kind("/r/.ci/config.yml", false), None);
    assert_eq!(kind("/r/.ci/sub/config.yml", false), Some(WorkflowKind::NativeYaml));
    assert_eq!(discover_native("/r/.ci", "/r/.ci/x/workflow.yml", false, true), None);
    assert!(is_actions_file("/r/.github/workflows/a.yaml"));
    assert!(!is_actions_file("/r/.github/workflows/a.md"));
    let entry = |name: &str, executable: bool| DirEntry { name: name.to_string(), is_file: true, executable };
    assert!(directory_has_other_runnables(&[entry("workflow.yml", true), entry("Dockerfile", false)]));
    assert!(!directory_has_other_runnables(&[entry("workflow.yml", true), entry("notes", false)]));
}

#[test]
fn workflows_are_ordered_by_name_then_path() {
    let list = discover_all(vec![executable("b", "/2"), executable("a", "/9"), executable("b", "/1"), executable("a", "/9")]);
    let shown = list.iter().map(|w| format!("{}{}", w.name, w.path)).collect::<Vec<_>>();
    assert_eq!(shown, vec!["a/9", "a/9", "b/1", "b/2"]);
}

#[test]
fn events_stand_for_others() {
    assert_eq!(canonical_events("manual"), vec!["manual", "workflow_dispatch"]);
    assert_eq!(canonical_events("pre-push"), vec!["pre-push", "push"]);
    assert_eq!(canonical_events("pre-commit"), vec!["pre-commit"]);
    assert_eq!(provider_name(&WorkflowProvider::GiteaActions), "gitea-actions");
    assert_eq!(kind_name(&WorkflowKind::NativeYaml), "yaml");
}

#[test]
fn workflow_files_become_workflows() {
    let mut step = raw_step();
    step.run = Some("true".to_string());
    let mut named = file(vec![step]);
    named.name = Some("Own Name".to_string());
    named.needs = EventFilter::Many(vec!["a".to_string(), "b".to_string()]);
    let w = discover_native_yaml("/r/.ci", "/r/.ci/x.yml", named).ok().expect("workflow");
    assert_eq!(w.name, "Own Name");
    match w.source {
        WorkflowSource::NativeYaml(native) => {
            assert_eq!(native.needs, vec!["a", "b"]);
            assert_eq!(native.steps.len(), 1);
        }
        _ => panic!("expected a native workflow"),
    }

    let mut good = raw_step();
    good.run = Some("true".to_string());
    let err = discover_native_yaml("/r/.ci", "/r/.ci/x.yml", file(vec![good, raw_step()])).err().expect("refused");
    assert_eq!(err.to_text(), "/r/.ci/x.yml step 2 must define exactly one of `run` or `use`");

    let e = discover_executable_workflow("/r/.ci", "/r/.ci/t.sh", WorkflowOverride::default());
    assert_eq!((e.name.as_str(), e.kind), ("t", WorkflowKind::Executable));
    let c = discover_container_workflow("/r/.ci", "/r/.ci/img/Dockerfile", WorkflowOverride::default());
    assert_eq!((c.name.as_str(), c.kind), ("img", WorkflowKind::Container));
    assert_eq!(load_directory_metadata(Some("/d"), true, true).as_deref(), Some("/d/workflow.yml"));
    assert_eq!(load_directory_metadata(Some("/d"), false, true).as_deref(), Some("/d/workflow.yaml"));
    assert_eq!(load_directory_metadata(Some("/d"), false, false), None);
    assert_eq!(load_directory_metadata(None, true, true), None);
}
