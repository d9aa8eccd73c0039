use ci::arch::{format_arches, Architecture};
use ci::cli::GlobalOptions;
use ci::config::{
    default_container_config, selected_arches, ActionsConfig, ArchFilter, ArtifactConfig, ArtifactMode, BranchConfig,
    ColorWhen, ConfigFile, ContainerConfig, ContainerType, DefaultsConfig, EventFilter, ExecutionConfig, InstallMode,
    ResolvedConfig, WorkflowOverride,
};
use ci::maps::NameMap;

fn arch(name: &str) -> Architecture {
    Architecture::from_alias(name).expect("architecture")
}

fn names(filter: &ArchFilter) -> Vec<String> {
    filter.to_vec().iter().map(|a| a.to_text()).collect()
}

fn strings(items: &[&str]) -> Vec<String> {
    items.iter().map(|item| item.to_string()).collect()
}

fn empty_file() -> ConfigFile {
    ConfigFile {
        root_defaults: DefaultsConfig::default(),
        defaults: DefaultsConfig::default(),
        hooks: NameMap::new(),
        workflows: NameMap::new(),
        actions: ActionsConfig { node_image: None },
    }
}

fn globals() -> GlobalOptions {
    GlobalOptions {
        verbose: 0,
        quiet: false,
        silent: false,
        repo: ".".to_string(),
        ci_dir: ".ci".to_string(),
        config: None,
        color: ColorWhen::Auto,
        git_mode: None,
        git_command: None,
        git_image: None,
        container: false,
        no_container: false,
        arch: Vec::new(),
        tech_stack: None,
    }
}

#[test]
fn defaults_arch_accepts_single_value_or_list() {
    let mut single = empty_file();
    single.defaults.arch = ArchFilter::Single(arch("amd64"));
    assert_eq!(names(&single.defaults.arch), vec!["x64"]);

    let mut many = empty_file();
    many.defaults.arch = ArchFilter::Many(vec![arch("x86_64"), arch("aarch64")]);
    assert_eq!(names(&many.defaults.arch), vec!["x64", "arm64"]);
}

#[test]
fn container_config_accepts_type_arch_packages_and_components() {
    let mut file = empty_file();
    let build = WorkflowOverride {
        container: ContainerConfig {
            kind: ci::config::parse_stack("rust"),
            arch: ArchFilter::Many(vec![arch("amd64"), arch("aarch64")]),
            packages: strings(&["htop"]),
            components: strings(&["cargo-fmt"]),
            ..ContainerConfig::default()
        },
        ..WorkflowOverride::default()
    };
    file.workflows.insert("build".to_string(), build);
    let container = &file.workflows.get("build").expect("workflow").container;

    assert_eq!(container.kind, Some(ContainerType::Rust));
    assert_eq!(names(&container.arch), vec!["x64", "arm64"]);
    assert_eq!(container.packages, vec!["htop"]);
    assert_eq!(container.components, vec!["cargo-fmt"]);
}

#[test]
fn defaults_arch_becomes_default_container_arch() {
    let mut file = empty_file();
    file.defaults.arch = ArchFilter::Many(vec![arch("amd64"), arch("aarch64")]);
    let container = default_container_config(&file.defaults);

    assert_eq!(names(&container.arch), vec!["x64", "arm64"]);
}

#[test]
fn config_file_accepts_default_fields_at_root() {
    let mut file = empty_file();
    file.root_defaults.container = ContainerConfig {
        kind: Some(ContainerType::Rust),
        arch: ArchFilter::Many(vec![arch("amd64"), arch("aarch64")]),
        components: strings(&["cargo-fmt"]),
        ..ContainerConfig::default()
    };
    let defaults = file.root_defaults.merge(&file.defaults);

    assert_eq!(defaults.container.kind, Some(ContainerType::Rust));
    assert_eq!(names(&defaults.container.arch), vec!["x64", "arm64"]);
    assert_eq!(defaults.container.components, vec!["cargo-fmt"]);
}

#[test]
fn settings_may_stand_at_the_top_or_under_defaults() {
    let settings = || DefaultsConfig {
        shell: Some("bash".to_string()),
        arch: ArchFilter::Single(arch("arm64")),
        ..DefaultsConfig::default()
    };
    let (mut top, mut wrapped) = (empty_file(), empty_file());
    top.root_defaults = settings();
    wrapped.defaults = settings();
    for file in [top, wrapped] {
        let merged = file.root_defaults.merge(&file.defaults);
        assert_eq!(merged.shell.as_deref(), Some("bash"));
        assert_eq!(names(&merged.arch), vec!["arm64"]);
        assert!(merged.silent.is_none());
    }
}

#[test]
fn explicit_defaults_override_root_default_shorthand() {
    let mut file = empty_file();
    file.root_defaults.container.arch = ArchFilter::Single(arch("amd64"));
    file.defaults.container.arch = ArchFilter::Single(arch("aarch64"));
    let defaults = file.root_defaults.merge(&file.defaults);

    assert_eq!(names(&defaults.container.arch), vec!["arm64"]);
}

#[test]
fn defaults_container_arch_overrides_defaults_arch_for_containers() {
    let mut file = empty_file();
    file.defaults.arch = ArchFilter::Single(arch("amd64"));
    file.defaults.container.arch = ArchFilter::Single(arch("aarch64"));
    let container = default_container_config(&file.defaults);

    assert_eq!(names(&container.arch), vec!["arm64"]);
}

#[test]
fn architectures_have_names_platforms_and_suffixes() {
    assert_eq!(arch(" Linux/AMD64 ").as_str(), "x64");
    assert_eq!(arch("aarch64").as_str(), "arm64");
    assert_eq!(arch("riscv_64").as_str(), "riscv-64");
    assert!(Architecture::from_alias("  ").is_none());
    assert_eq!(Architecture::parse("").err().expect("refused"), "architecture must not be empty");
    assert_eq!(arch("x64").platform(), "linux/amd64");
    assert_eq!(arch("arm64").platform(), "linux/arm64");
    assert_eq!(arch("s390x").platform(), "linux/s390x");
    assert_eq!(arch("arm/v7").runner_suffix(), "arm-v7");
    assert_eq!(Architecture::host("").as_str(), "x64");
    assert!(arch("amd64").same_as(&arch("x86_64")));
    assert_eq!(format_arches(&[arch("x64"), arch("arm64")], &arch("x64")), "x64,arm64");
    assert_eq!(format_arches(&[], &arch("arm64")), "arm64");
}

#[test]
fn a_filter_allows_what_it_names() {
    let filter = ArchFilter::Many(vec![arch("x64")]);
    assert!(filter.allows(&arch("amd64")));
    assert!(!filter.allows(&arch("arm64")));
    assert!(ArchFilter::Unset.allows(&arch("arm64")));
    assert!(ArchFilter::Unset.is_empty());
    assert!(ArchFilter::Many(Vec::new()).is_empty());
    assert!(!ArchFilter::Single(arch("x64")).is_empty());
    assert_eq!(names(&filter.merged(&ArchFilter::Unset)), vec!["x64"]);
    assert_eq!(names(&filter.merged(&ArchFilter::Single(arch("arm64")))), vec!["arm64"]);
    let on = EventFilter::Single("manual".to_string());
    assert_eq!(on.merged(&EventFilter::Unset).to_vec(), vec!["manual"]);
    assert_eq!(on.merged(&EventFilter::Many(strings(&["a", "b"]))).to_vec(), vec!["a", "b"]);
}

#[test]
fn architectures_come_from_the_options_then_the_settings_then_the_host() {
    let host = arch("arm64");
    let given = vec![arch("s390x")];
    let set = ArchFilter::Single(arch("x64"));
    let show = |v: Vec<Architecture>| v.iter().map(|a| a.to_text()).collect::<Vec<_>>();
    assert_eq!(show(selected_arches(&given, &set, &host)), vec!["s390x"]);
    assert_eq!(show(selected_arches(&[], &set, &host)), vec!["x64"]);
    assert_eq!(show(selected_arches(&[], &ArchFilter::Unset, &host)), vec!["arm64"]);
}

#[test]
fn settings_are_laid_over_each_other() {
    let below = WorkflowOverride {
        branches: BranchConfig { allow: strings(&["main"]), only: Vec::new() },
        artifacts: ArtifactConfig { paths: strings(&["a"]), mode: Some(ArtifactMode::Keep), destination: None },
        execution: ExecutionConfig { workspace: Some("w".to_string()), shell: Some("sh".to_string()) },
        ..WorkflowOverride::default()
    };
    let above = WorkflowOverride {
        artifacts: ArtifactConfig { paths: Vec::new(), mode: Some(ArtifactMode::Move), destination: Some("d".to_string()) },
        execution: ExecutionConfig { workspace: None, shell: Some("bash".to_string()) },
        ..WorkflowOverride::default()
    };
    let merged = below.merge(&above);
    assert_eq!(merged.branches.allow, vec!["main"]);
    assert_eq!(merged.artifacts.paths, vec!["a"]);
    assert_eq!(merged.artifacts.mode, Some(ArtifactMode::Move));
    assert_eq!(merged.artifacts.destination.as_deref(), Some("d"));
    assert_eq!(merged.execution.workspace.as_deref(), Some("w"));
    assert_eq!(merged.execution.shell.as_deref(), Some("bash"));
}

#[test]
fn configuration_is_loaded_with_its_defaults() {
    let host = arch("x64");
    let plain = ResolvedConfig::load("/r/.ci/config.yml".to_string(), false, empty_file(), &globals(), &host);
    assert!(!plain.loaded);
    assert_eq!(plain.defaults.shell, "/bin/sh");
    assert!(plain.defaults.fail_fast);
    assert!(plain.defaults.recursive_checkout);
    assert_eq!(plain.defaults.install_mode, InstallMode::Link);
    assert_eq!(plain.defaults.branch_allow, vec!["main", "master", "develop", "development"]);
    assert_eq!(plain.defaults.git_image, "docker.io/alpine/git:latest");

    let mut file = empty_file();
    file.root_defaults.silent = Some(true);
    file.defaults.shell = Some("bash".to_string());
    file.defaults.fail_fast = Some(false);
    file.defaults.arch = ArchFilter::Single(arch("arm64"));
    file.hooks.insert(
        "pre-push".to_string(),
        WorkflowOverride { tech_stack: Some(ContainerType::Go), ..WorkflowOverride::default() },
    );
    let mut options = globals();
    options.git_image = Some("img".to_string());
    let set = ResolvedConfig::load("c".to_string(), true, file, &options, &host);
    assert!(set.defaults.silent);
    assert_eq!(set.defaults.shell, "bash");
    assert!(!set.defaults.fail_fast);
    assert_eq!(set.defaults.git_image, "img");
    assert_eq!(set.defaults.arch[0].as_str(), "arm64");
    assert_eq!(names(&set.defaults.container.arch), vec!["arm64"]);
    assert_eq!(set.hook_override("pre-push").tech_stack, Some(ContainerType::Go));
    assert_eq!(set.hook_override("pre-commit").tech_stack, None);
    assert_eq!(set.workflow_override("build").tech_stack, None);
    assert_eq!(ResolvedConfig::config_path(&None, "/r/.ci"), "/r/.ci/config.yml");
    assert_eq!(ResolvedConfig::config_path(&Some("x.yml".to_string()), "/r/.ci"), "x.yml");
}

#[test]
fn platforms_stand_for_their_architecture() {
    for name in ["x86_64", "aarch64", "s390x", "riscv64", "arm_v7", "ppc64le"] {
        let own = arch(name);
        assert_eq!(arch(&own.platform()), own);
    }
}

#[test]
fn settings_over_themselves_stay() {
    let settings = DefaultsConfig {
        shell: Some("bash".to_string()),
        quiet: Some(false),
        arch: ArchFilter::Single(arch("arm64")),
        ..DefaultsConfig::default()
    };
    let merged = settings.merge(&settings);
    assert_eq!(merged.shell, settings.shell);
    assert_eq!(merged.quiet, Some(false));
    assert_eq!(names(&merged.arch), vec!["arm64"]);
}
