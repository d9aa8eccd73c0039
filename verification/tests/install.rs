use ci::arch::Architecture;
use ci::cli::{GlobalOptions, InstallArgs, UninstallArgs, UpdateArgs};
use ci::config::{ActionsConfig, ColorWhen, ConfigFile, DefaultsConfig, GitMode, InstallMode, ResolvedConfig};
use ci::files::EntryKind;
use ci::hooks::{all_hooks, parse_hooks};
use ci::install::{
    backup_path, cmd_install, cmd_uninstall, cmd_update, fallback_runner_path, hook_path, hook_steps, inspect_installation,
    install_hook, install_hook_dispatcher, is_managed_hook, link_destination, managed_runner_path, refresh_managed_hooks,
    remove_file_if_exists, removal_report, runner_places, uninstall_hook, user_owned_warning, BinaryFacts, BinaryState,
    HookFacts, HookRemoval, RunnerKind, MANAGED_MARKER,
};
use ci::maps::NameMap;
use ci::output::Output;
use ci::repo::RepoInfo;
use ci::runner::{AppContext, GitService};
use ci::status::{cmd_status, LockState, StatusFacts};

fn arch(name: &str) -> Architecture {
    Architecture::from_alias(name).expect("architecture")
}

fn repo(bare: bool) -> RepoInfo {
    RepoInfo::new(
        "/r/.git".to_string(),
        if bare { None } else { Some("/r".to_string()) },
        ".ci",
        "artifacts",
        "actions-cache",
        Some("main".to_string()),
        "/usr/bin/ci".to_string(),
    )
}

fn context(arches: &[&str]) -> AppContext {
    let global = GlobalOptions {
        verbose: 0,
        quiet: false,
        silent: false,
        repo: ".".to_string(),
        ci_dir: ".ci".to_string(),
        config: None,
        color: ColorWhen::Auto,
        git_mode: None,
        git_command: None,
        git_image: None,
        container: false,
        no_container: false,
        arch: arches.iter().map(|a| arch(a)).collect(),
        tech_stack: None,
    };
    let file = ConfigFile {
        root_defaults: DefaultsConfig::default(),
        defaults: DefaultsConfig::default(),
        hooks: NameMap::new(),
        workflows: NameMap::new(),
        actions: ActionsConfig { node_image: None },
    };
    let config = ResolvedConfig::load("/r/.ci/config.yml".to_string(), false, file, &global, &arch("x64"));
    let output = Output::from_globals(&global);
    AppContext::new(global, output, repo(false), config, GitService { mode: GitMode::Auto, command: None, image: "i".to_string() })
}

fn install_args() -> InstallArgs {
    InstallArgs { mode: None, source: None, hooks: None, bare: false, force: false, backup_existing: false, dry_run: false }
}

#[test]
fn managed_hook_symlinks_to_shared_dispatcher() {
    let repo = repo(false);
    let plan = install_hook(&repo, "pre-push", false, false, false, false).expect("install hook");
    assert_eq!(plan.path, "/r/.git/hooks/pre-push");
    assert_eq!(plan.link, "../ci/hook");
    assert_eq!(plan.backup, None);

    let content = install_hook_dispatcher();
    assert!(content.starts_with("#!/usr/bin/env sh\n"));
    assert!(content.contains("ci_hook=$(basename \"$0\")"));
    assert!(content.contains("run.$ci_arch"));
    assert!(content.contains("ci_runner=\"$ci_dir/run\""));
    assert!(content.contains(MANAGED_MARKER));
    assert!(is_managed_hook(Some(&content)));
    assert!(!is_managed_hook(Some("#!/bin/sh\nexit 0\n")));
    assert!(!is_managed_hook(None));
}

#[test]
fn hooks_of_others_are_never_lost() {
    let repo = repo(false);
    let err = install_hook(&repo, "pre-push", true, false, false, false).expect_err("refused");
    assert_eq!(
        err.to_text(),
        "/r/.git/hooks/pre-push already exists and is not managed by ci; use --backup-existing or --force"
    );
    let kept = install_hook(&repo, "pre-push", true, false, true, true).expect("kept aside");
    assert_eq!(kept.backup.as_deref(), Some("/r/.git/hooks/pre-push.ci-backup"));
    assert_eq!(install_hook(&repo, "pre-push", true, false, true, false).expect("forced").backup, None);
    assert_eq!(install_hook(&repo, "pre-push", true, true, false, true).expect("own").backup, None);
    assert_eq!(backup_path(&repo, "update"), "/r/.git/hooks/update.ci-backup");
    assert_eq!(hook_path(&repo, "update"), "/r/.git/hooks/update");
}

#[test]
fn removing_takes_only_what_is_managed() {
    let repo = repo(false);
    assert_eq!(uninstall_hook(true, false, true, true), HookRemoval::UserOwned);
    assert_eq!(uninstall_hook(true, true, false, true), HookRemoval::Remove);
    assert_eq!(uninstall_hook(true, true, true, false), HookRemoval::Remove);
    assert_eq!(uninstall_hook(true, true, true, true), HookRemoval::RemoveAndRestore);
    assert_eq!(uninstall_hook(false, false, true, true), HookRemoval::Restore);
    assert_eq!(uninstall_hook(false, false, true, false), HookRemoval::Nothing);
    assert_eq!(
        removal_report(&repo, "update", HookRemoval::RemoveAndRestore),
        vec![
            "would remove hook /r/.git/hooks/update",
            "would restore /r/.git/hooks/update.ci-backup to /r/.git/hooks/update",
        ]
    );
    assert!(removal_report(&repo, "update", HookRemoval::UserOwned).is_empty());
    assert_eq!(user_owned_warning(&repo, "update"), "skipping user-owned hook /r/.git/hooks/update");
}

#[test]
fn install_and_uninstall_manage_hooks_and_runner_binary() {
    let ctx = context(&["x64"]);
    let mut args = install_args();
    args.mode = Some(InstallMode::Copy);
    args.hooks = Some("pre-push".to_string());
    let plan = cmd_install(&ctx, &args).expect("install");
    assert_eq!(plan.mode, InstallMode::Copy);
    assert_eq!(plan.hooks, vec!["pre-push"]);
    assert_eq!(plan.runner_dir, "/r/.git/ci");
    assert_eq!(plan.hooks_dir, "/r/.git/hooks");
    assert_eq!(plan.binaries.len(), 1);
    assert_eq!((plan.binaries[0].source.as_str(), plan.binaries[0].target.as_str()), ("/usr/bin/ci", "/r/.git/ci/run.x64"));
    assert_eq!(plan.notes, vec!["Installing ci into /r/.git", "mode: copy"]);

    let removal = cmd_uninstall(&ctx, &UninstallArgs { hooks: None, keep_binary: false, restore: false, dry_run: false }).expect("uninstall");
    assert!(removal.hooks.contains(&"pre-push"));
    assert_eq!(removal.files, vec!["/r/.git/ci/run.x64", "/r/.git/ci/run", "/r/.git/ci/hook"]);
    assert_eq!(removal.dry_lines[0], "would remove binary /r/.git/ci/run.x64");
    let kept = cmd_uninstall(&ctx, &UninstallArgs { hooks: None, keep_binary: true, restore: false, dry_run: false }).expect("uninstall");
    assert!(kept.files.is_empty() && kept.emptied.is_none());
}

#[test]
fn installing_says_what_it_would_do() {
    let ctx = context(&["x64", "arm64"]);
    let mut args = install_args();
    args.hooks = Some("pre-push, update".to_string());
    args.source = Some("dist/ci.{arch}".to_string());
    let plan = cmd_install(&ctx, &args).expect("install");
    assert_eq!(
        plan.dry_lines,
        vec![
            "would create directory /r/.git/ci",
            "would install binary /r/.git/ci/run.x64 from dist/ci.x64",
            "would install binary /r/.git/ci/run.arm64 from dist/ci.arm64",
            "would install hook /r/.git/hooks/pre-push",
            "would install hook /r/.git/hooks/update",
        ]
    );
    args.hooks = Some("pre-lunch".to_string());
    assert_eq!(cmd_install(&ctx, &args).expect_err("unknown").exit_code(), 2);
}

#[test]
fn hooks_are_asked_for_in_groups_or_by_name() {
    assert!(parse_hooks(None, false).expect("client").contains(&"pre-commit"));
    assert!(parse_hooks(None, true).expect("server").contains(&"pre-receive"));
    assert_eq!(parse_hooks(Some("all"), false).expect("all"), all_hooks());
    let all = all_hooks();
    for (i, hook) in all.iter().enumerate() {
        assert!(!all[..i].contains(hook), "{} occurs twice", hook);
    }
    assert_eq!(parse_hooks(Some(" pre-push ,, update"), false).expect("two"), vec!["pre-push", "update"]);
    assert_eq!(parse_hooks(Some("nope"), false).expect_err("unknown").to_text(), "unknown Git hook `nope`");
}

#[test]
fn updating_refreshes_what_is_there() {
    let ctx = context(&["x64"]);
    let host = arch("x64");
    let args = UpdateArgs { source: Some("/new/ci".to_string()), dry_run: false };
    let places = runner_places(&ctx, &args.source, &host);
    assert_eq!(places.iter().map(|p| p.target.as_str()).collect::<Vec<_>>(), vec!["/r/.git/ci/run.x64", "/r/.git/ci/run"]);
    let mut managed = vec![false; all_hooks().len()];
    let at = all_hooks().iter().position(|h| *h == "pre-push").expect("pre-push");
    managed[at] = true;
    let plan = cmd_update(&ctx, &args, &host, &[RunnerKind::Link, RunnerKind::Missing], &managed).expect("update");
    assert_eq!(plan.updates.len(), 1);
    assert!(plan.updates[0].link);
    assert_eq!(plan.hooks, vec!["pre-push"]);
    assert_eq!(
        plan.dry_lines,
        vec!["would update /r/.git/ci/run.x64 from /new/ci", "would refresh hook /r/.git/hooks/pre-push"]
    );
    let err = cmd_update(&ctx, &args, &host, &[RunnerKind::Missing, RunnerKind::Missing], &managed).expect_err("nothing");
    assert_eq!(err.to_text(), "ci does not look installed in /r/.git; run `ci install` first");
    assert_eq!(refresh_managed_hooks(&managed), vec!["pre-push"]);
}

#[test]
fn links_lead_somewhere() {
    assert_eq!(link_destination("/r/.git/ci/run.x64", "../../bin/ci"), "/r/.git/ci/../../bin/ci");
    assert_eq!(link_destination("/r/.git/ci/run.x64", "/bin/ci"), "/bin/ci");
    let repo = repo(true);
    assert_eq!(managed_runner_path(&repo, &arch("arm64")), "/r/.git/ci/run.arm64");
    assert_eq!(fallback_runner_path(&repo), "/r/.git/ci/run");
    assert_eq!(repo.root, "/r/.git");
    assert!(matches!(remove_file_if_exists(None), ci::files::Clearing::Nothing));
    assert!(matches!(remove_file_if_exists(Some(EntryKind::Dir)), ci::files::Clearing::RemoveDir));
    assert!(matches!(remove_file_if_exists(Some(EntryKind::Other)), ci::files::Clearing::RemoveFile));
}

#[test]
fn status_reports_generated_workflows_and_architecture_diagnostics() {
    let ctx = context(&["x64", "arm64"]);
    let workflows = ci::defaults::available_workflows(Vec::new(), "/r/.ci", Some(ci::config::ContainerType::Rust), true);
    let binaries = vec![
        BinaryFacts { exists: true, link: Some("/gone".to_string()), target_exists: false },
        BinaryFacts { exists: false, link: None, target_exists: false },
    ];
    let hooks: Vec<HookFacts> = all_hooks()
        .iter()
        .map(|h| HookFacts {
            exists: *h == "pre-push",
            content: if *h == "pre-push" { Some(install_hook_dispatcher()) } else { None },
            mode: if *h == "pre-push" { Some(0o755) } else { None },
            backup: false,
        })
        .collect();
    let install = inspect_installation(&ctx.repo, &ctx.config.defaults.arch, &binaries, &hooks);
    assert!(matches!(&install.binaries[0], BinaryState::Symlink(_, _, true)));
    assert!(matches!(&install.binaries[1], BinaryState::Missing(_)));
    assert!(install.hooks.iter().any(|h| h.name == "pre-push" && h.managed && h.executable && h.exists));
    let facts = StatusFacts {
        ci_dir_exists: false,
        podman: false,
        docker: true,
        git: true,
        node: false,
        recorded_runs: 12,
        lock: LockState::Idle,
    };
    let report = cmd_status(&ctx, &arch("x64"), &workflows, &install, &facts).join("\n");
    for line in [
        "Arch:       x64,arm64",
        "Config:     /r/.ci/config.yml (default)",
        "WARN .ci directory does not exist",
        "OK   found 1 workflow(s)",
        "     - build [native] /r/.ci/build.yml ",
        "WARN ci symlink /r/.git/ci/run.x64 -> /gone is broken",
        "WARN ci binary is not installed into this repository (/r/.git/ci/run.arm64)",
        "OK   ci-managed hooks: pre-push",
        "OK   container arch arm64: linux/arm64",
        "OK   preferred container runtime: docker",
        "OK   host git available",
        "WARN   node missing",
        "OK   recorded runs: 12",
        "OK   lock file: /r/.git/ci/lock (idle)",
    ] {
        assert!(report.lines().any(|l| l == line), "{}\n{}", line, report);
    }
}

#[test]
fn a_dry_run_leaves_everything_in_place() {
    let ctx = context(&["x64"]);
    let mut args = install_args();
    args.hooks = Some("pre-push".to_string());
    args.dry_run = true;
    let plan = cmd_install(&ctx, &args).expect("install");
    assert!(!plan.prepare && plan.binaries.is_empty() && plan.hooks.is_empty());
    assert_eq!(
        plan.dry_lines,
        vec![
            "would create directory /r/.git/ci",
            "would install binary /r/.git/ci/run.x64 from /usr/bin/ci",
            "would install hook /r/.git/hooks/pre-push",
        ]
    );

    let update = UpdateArgs { source: None, dry_run: true };
    let managed = vec![true; all_hooks().len()];
    let plan = cmd_update(&ctx, &update, &arch("x64"), &[RunnerKind::Link, RunnerKind::Missing], &managed).expect("update");
    assert!(!plan.prepare && plan.updates.is_empty() && plan.hooks.is_empty());
    assert_eq!(plan.dry_lines[0], "would update /r/.git/ci/run.x64 from /usr/bin/ci");
    assert_eq!(plan.dry_lines.len(), 1 + all_hooks().len());

    let mut removal = UninstallArgs { hooks: None, keep_binary: false, restore: true, dry_run: true };
    let plan = cmd_uninstall(&ctx, &removal).expect("uninstall");
    assert!(plan.files.is_empty() && plan.emptied.is_none());
    assert_eq!(plan.dry_lines.len(), 3);
    assert_eq!(plan.hooks, all_hooks());
    let every =
        [HookRemoval::Nothing, HookRemoval::UserOwned, HookRemoval::Remove, HookRemoval::Restore, HookRemoval::RemoveAndRestore];
    assert!(every.iter().all(|r| hook_steps(&removal, *r) == (false, false)));
    removal.dry_run = false;
    assert_eq!(
        every.map(|r| hook_steps(&removal, r)),
        [(false, false), (false, false), (true, false), (false, true), (true, true)]
    );
    assert_eq!(cmd_uninstall(&ctx, &removal).expect("uninstall").emptied.as_deref(), Some("/r/.git/ci"));
}
