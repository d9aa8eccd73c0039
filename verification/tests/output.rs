use ci::arch::Architecture;
use ci::cli::GlobalOptions;
use ci::config::{ColorWhen, ContainerConfig, ContainerRuntime, Defaults, DefaultsConfig, GitMode, InstallMode};
use ci::output::{color_enabled, max_level, Level, Output, Verbosity};

fn globals() -> GlobalOptions {
    GlobalOptions {
        verbose: 0,
        quiet: false,
        silent: false,
        repo: ".".to_string(),
        ci_dir: ".ci".to_string(),
        config: None,
        color: ColorWhen::Never,
        git_mode: None,
        git_command: None,
        git_image: None,
        container: false,
        no_container: false,
        arch: Vec::new(),
        tech_stack: None,
    }
}

fn defaults(quiet: bool, silent: bool) -> Defaults {
    Defaults {
        shell: "/bin/sh".to_string(),
        quiet,
        silent,
        fail_fast: true,
        arch: vec![Architecture::host("x86_64")],
        container: ContainerConfig::default(),
        container_runtime: ContainerRuntime::Auto,
        git_mode: GitMode::Auto,
        git_command: None,
        git_image: "docker.io/alpine/git:latest".to_string(),
        install_mode: InstallMode::Link,
        recursive_checkout: true,
        branch_allow: Vec::new(),
        artifact_store: "artifacts".to_string(),
        actions_cache: "actions-cache".to_string(),
        node_image: "docker.io/library/node:20-alpine".to_string(),
    }
}

#[test]
fn verbose_overrides_silent() {
    let mut global = globals();
    global.verbose = 1;
    global.silent = true;

    assert_eq!(Output::from_globals(&global).verbosity(), Verbosity::Verbose(1));
    assert!(Output::from_globals(&global).is_verbose());
}

#[test]
fn config_can_enable_silent_by_default() {
    let global = globals();
    let defaults = defaults(false, true);

    assert_eq!(Output::from_settings(&global, Some(&defaults)).verbosity(), Verbosity::Silent);
    assert!(!Output::from_settings(&global, Some(&defaults)).is_verbose());
}

#[test]
fn config_can_enable_quiet_by_default() {
    let global = globals();
    let defaults = defaults(true, false);

    assert_eq!(Output::from_settings(&global, Some(&defaults)).verbosity(), Verbosity::Quiet);
}

#[test]
fn cli_silent_overrides_config_quiet() {
    let mut global = globals();
    global.silent = true;
    let defaults = defaults(true, false);

    assert_eq!(Output::from_settings(&global, Some(&defaults)).verbosity(), Verbosity::Silent);
}

#[test]
fn verbose_overrides_config_silent() {
    let mut global = globals();
    global.verbose = 1;
    let defaults = defaults(false, true);

    assert_eq!(Output::from_settings(&global, Some(&defaults)).verbosity(), Verbosity::Verbose(1));
}

#[test]
fn policy_silent_overrides_verbose() {
    let mut global = globals();
    global.verbose = 1;
    let defaults = defaults(false, false);
    let policy = DefaultsConfig { silent: Some(true), ..DefaultsConfig::default() };

    assert_eq!(
        Output::from_settings_with_policy(&global, Some(&defaults), Some(&policy)).verbosity(),
        Verbosity::Silent
    );
}

#[test]
fn policy_quiet_overrides_verbose() {
    let mut global = globals();
    global.verbose = 1;
    let defaults = defaults(false, false);
    let policy = DefaultsConfig { quiet: Some(true), ..DefaultsConfig::default() };

    assert_eq!(
        Output::from_settings_with_policy(&global, Some(&defaults), Some(&policy)).verbosity(),
        Verbosity::Quiet
    );
}

#[test]
fn quiet_hides_notes_but_not_warnings() {
    let quiet = Output::from_settings(&globals(), Some(&defaults(true, false)));
    assert!(quiet.is_quiet_or_silent());
    assert!(quiet.info("note").is_none());
    let warning = quiet.warn("careful").expect("warning");
    assert_eq!(warning.message, "careful");
    assert!(warning.level.to_stderr());
    assert!(quiet.verbose("detail").is_none());
}

#[test]
fn silent_still_says_errors() {
    let silent = Output::from_settings(&globals(), Some(&defaults(false, true)));
    assert!(silent.warn("careful").is_none());
    assert_eq!(silent.error("broken").message, "broken");
}

#[test]
fn normal_output_says_notes_on_standard_output() {
    let normal = Output::from_globals(&globals());
    assert_eq!(normal.verbosity(), Verbosity::Normal);
    let note = normal.info("note").expect("note");
    assert_eq!(note.level, Level::Info);
    assert!(!note.level.to_stderr());
    assert!(normal.verbose("detail").is_none());
    let mut loud = globals();
    loud.verbose = 2;
    assert_eq!(Output::from_globals(&loud).verbose("detail").expect("detail").message, "detail");
}

#[test]
fn levels_and_colours_follow_the_options() {
    assert_eq!(max_level(0), Level::Info);
    assert_eq!(max_level(1), Level::Debug);
    assert_eq!(max_level(2), Level::Trace);
    assert!(color_enabled(ColorWhen::Always, false, false));
    assert!(!color_enabled(ColorWhen::Never, true, true));
}

#[test]
fn an_output_says_more_or_less_or_as_usual() {
    for verbose in 0..3 {
        for (quiet, silent) in [(false, false), (true, false), (false, true), (true, true)] {
            let mut global = globals();
            global.verbose = verbose;
            global.quiet = quiet;
            global.silent = silent;
            let output = Output::from_globals(&global);
            assert!(!(output.is_verbose() && output.is_quiet_or_silent()));
            assert_eq!(!output.is_verbose() && !output.is_quiet_or_silent(), output.verbosity() == Verbosity::Normal);
            assert_ne!(output.verbosity(), Verbosity::Verbose(0));
        }
    }
}
