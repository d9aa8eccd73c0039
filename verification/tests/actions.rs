use ci::builtins::{parse_cleanup_ignored_mode, run_commit_step, run_sync_step, sync_pull_strategy, CleanIgnoredMode, GitPlan, GitRule};
use ci::conditions::ExpressionContext;
use ci::files::{
    copy_export_path, create_link_path, expand_action_sources, export_target_path, link_source_for_target,
    remove_cleanup_target, resolve_cleanup_path, resolve_export_path, run_clean_step, run_cleanup_step, run_export_step,
    run_link_step, CleanAction, Clearing, EntryKind,
};
use ci::inputs::{input_bool, input_value, parse_bool, parse_path_list};
use ci::maps::StringMap;
use ci::steps::{builtin_of, find_builtin, native_step_inputs, run_builtin_step, strip_action_ref, BuiltinKind, BuiltinPlan, BuiltinSetting};

fn map(entries: &[(&str, &str)]) -> StringMap {
    let mut map = StringMap::new();
    for (name, value) in entries {
        map.insert(name.to_string(), value.to_string());
    }
    map
}

fn args(plan: &GitPlan) -> Vec<String> {
    plan.commands.iter().map(|c| c.args.join(" ")).collect()
}

#[test]
fn cleanup_ignored_mode_parses_supported_values() {
    assert_eq!(
        parse_cleanup_ignored_mode("cleanup", None).expect("default ignored mode"),
        CleanIgnoredMode::Exclude
    );
    assert_eq!(
        parse_cleanup_ignored_mode("cleanup", Some("true")).expect("include ignored"),
        CleanIgnoredMode::Include
    );
    assert_eq!(
        parse_cleanup_ignored_mode("cleanup", Some("only")).expect("ignored only"),
        CleanIgnoredMode::Only
    );
    assert!(parse_cleanup_ignored_mode("cleanup", Some("maybe")).is_err());
}

#[test]
fn path_list_accepts_yaml_sequence_text() {
    assert_eq!(
        parse_path_list("- target/release/ci\n- dist/app.tar.gz"),
        vec!["target/release/ci", "dist/app.tar.gz"]
    );
}

#[test]
fn ignored_files_go_by_the_switches_of_git() {
    assert_eq!(CleanIgnoredMode::Exclude.clean_switches(), "-fd");
    assert_eq!(CleanIgnoredMode::Include.clean_switches(), "-fdx");
    assert_eq!(CleanIgnoredMode::Only.clean_switches(), "-fdX");
}

#[test]
fn inputs_are_found_under_any_of_their_names() {
    let values = map(&[("src", "a"), ("replace", "YES")]);
    assert_eq!(input_value(&values, &["source", "src"]), Some("a"));
    assert_eq!(input_value(&values, &["dest"]), None);
    assert!(parse_bool("true") && parse_bool("1") && parse_bool("on") && parse_bool("yes"));
    assert!(!parse_bool("0") && !parse_bool(""));
    assert!(input_bool(&map(&[("x", "true")]), &["x"], false));
    assert!(input_bool(&map(&[]), &["x"], true));
    assert_eq!(parse_path_list("a, b\n\n- c ,"), vec!["a", "b", "c"]);
    for between in ["\n", ","] {
        let joined = format!("- a, b{}c\n - d", between);
        let apart: Vec<String> = ["- a, b", "c\n - d"].iter().flat_map(|part| parse_path_list(part)).collect();
        assert_eq!(parse_path_list(&joined), apart);
    }
}

#[test]
fn export_single_file_uses_exact_destination_path() {
    let plan = run_export_step(&map(&[("from", "target/release/ci"), ("to", "dist/ci")])).expect("plan");
    assert_eq!(plan.sources, vec!["target/release/ci"]);
    assert_eq!(plan.destination, "dist/ci");
    assert!(!plan.replace);
    let destination = resolve_export_path("/r", &plan.destination, None);
    assert_eq!(destination, "/r/dist/ci");
    assert_eq!(
        export_target_path("/r/target/release/ci", &destination, &plan.destination, 1, false).expect("target"),
        "/r/dist/ci"
    );
}

#[test]
fn export_existing_target_requires_replace_or_overwrite() {
    let plan = run_export_step(&map(&[("src", "target/release/ci"), ("dest", "dist/ci")])).expect("plan");
    let err = copy_export_path("/r/dist/ci", Some(EntryKind::Other), plan.replace).expect_err("export should fail");
    assert!(err.to_text().contains("set `replace: true` or `overwrite: true`"));

    let plan = run_export_step(&map(&[("src", "target/release/ci"), ("dest", "dist/ci"), ("overwrite", "true")])).expect("plan");
    assert!(plan.replace);
    assert_eq!(copy_export_path("/r/dist/ci", Some(EntryKind::Other), plan.replace).expect("clear"), Clearing::RemoveFile);
    assert_eq!(copy_export_path("/r/dist/ci", Some(EntryKind::Dir), true).expect("clear"), Clearing::RemoveDir);
    assert_eq!(copy_export_path("/r/dist/ci", None, false).expect("clear"), Clearing::Nothing);
}

#[test]
fn export_multiple_sources_uses_destination_as_directory() {
    let plan = run_export_step(&map(&[("source", "one.txt\ntwo.txt"), ("destination", "out")])).expect("plan");
    assert_eq!(plan.sources, vec!["one.txt", "two.txt"]);
    assert_eq!(export_target_path("/r/one.txt", "/r/out", "out", 2, false).expect("one"), "/r/out/one.txt");
    assert_eq!(export_target_path("/r/two.txt", "/r/out", "out", 2, false).expect("two"), "/r/out/two.txt");
}

#[test]
fn link_single_file_uses_relative_symlink_target() {
    let plan = run_link_step(&map(&[("from", "ci.x64"), ("to", "bin/ci")])).expect("plan");
    assert_eq!(plan.sources, vec!["ci.x64"]);
    assert_eq!(link_source_for_target("/r/ci.x64", "/r/bin/ci"), "../ci.x64");
}

#[test]
fn link_existing_target_requires_replace_or_overwrite() {
    let plan = run_link_step(&map(&[("src", "ci.x64"), ("dest", "ci")])).expect("plan");
    let err = create_link_path("/r/ci", Some(EntryKind::Other), plan.replace).expect_err("link should fail");
    assert!(err.to_text().contains("set `replace: true` or `overwrite: true`"));

    let plan = run_link_step(&map(&[("src", "ci.x64"), ("dest", "ci"), ("replace", "true")])).expect("plan");
    assert_eq!(create_link_path("/r/ci", Some(EntryKind::Other), plan.replace).expect("clear"), Clearing::RemoveFile);
    assert_eq!(link_source_for_target("/r/ci.x64", "/r/ci"), "ci.x64");
}

#[test]
fn export_and_link_actions_handle_from_to_aliases() {
    let export = run_export_step(&map(&[("from", "target/release/ci"), ("to", "dist/ci.x64"), ("replace", "true")])).expect("export");
    assert_eq!((export.destination.as_str(), export.replace), ("dist/ci.x64", true));
    let link = run_link_step(&map(&[("from", "dist/ci.x64"), ("to", "dist/ci"), ("replace", "true")])).expect("link");
    assert_eq!((link.destination.as_str(), link.replace), ("dist/ci", true));
    assert_eq!(link_source_for_target("/r/dist/ci.x64", "/r/dist/ci"), "ci.x64");
    assert!(run_export_step(&map(&[("to", "x")])).is_err());
    assert!(run_link_step(&map(&[("from", "x")])).is_err());
}

#[test]
fn sources_that_match_nothing_are_refused() {
    let specs = vec!["*.txt".to_string(), "a".to_string()];
    let matched = vec![vec!["/r/1.txt".to_string(), "/r/2.txt".to_string()], vec!["/r/a".to_string()]];
    assert_eq!(
        expand_action_sources(&specs, &matched, "export").expect("sources"),
        vec!["/r/1.txt", "/r/2.txt", "/r/a"]
    );
    assert!(expand_action_sources(&specs, &[vec!["/r/1.txt".to_string()], vec![]], "export").is_err());
    assert_eq!(resolve_export_path("/r", "~/bin/x", Some("/home/u")), "/home/u/bin/x");
    assert_eq!(resolve_export_path("/r", "/abs", None), "/abs");
}

#[test]
fn cleanup_stays_below_the_root() {
    assert_eq!(resolve_cleanup_path("/r", "a/./b/../c").expect("path"), "/r/a/c");
    assert_eq!(
        resolve_cleanup_path("/r", "a/../../x").expect_err("escapes").to_text(),
        "cleanup path escapes repository root: a/../../x"
    );
    assert_eq!(
        resolve_cleanup_path("/r", "/etc").expect_err("absolute").to_text(),
        "cleanup only supports repo-relative paths, got /etc"
    );
    assert_eq!(remove_cleanup_target("/r/x", None, true).expect("fine"), Clearing::Nothing);
    assert_eq!(
        remove_cleanup_target("/r/x", None, false).expect_err("missing").to_text(),
        "cleanup target does not exist: /r/x"
    );
    assert_eq!(remove_cleanup_target("/r/x", Some(EntryKind::Dir), false).expect("dir"), Clearing::RemoveDir);
}

#[test]
fn cleaning_does_what_it_is_asked_for() {
    let plan = run_clean_step(&map(&[("ignored", "only"), ("purge", "true")]), "/r", false, Some("rm -rf dist"), "bash", "/r/sub");
    assert!(plan.failure.is_none());
    assert!(plan.actions.iter().any(|a| matches!(a, CleanAction::FetchPrune)));
    assert!(plan.actions.iter().any(|a| matches!(a, CleanAction::CleanUntracked(CleanIgnoredMode::Only))));
    match plan.actions.last() {
        Some(CleanAction::Shell { shell, script, workdir }) => {
            assert_eq!((shell.as_str(), script.as_str(), workdir.as_str()), ("bash", "rm -rf dist", "/r/sub"));
        }
        _ => panic!("expected a script"),
    }
    let cargo = run_clean_step(&map(&[("cargo", "true")]), "/r", true, None, "zsh", "/r/sub");
    match &cargo.actions[1] {
        CleanAction::Shell { shell, script, workdir } => {
            assert_eq!((shell.as_str(), script.as_str(), workdir.as_str()), ("zsh", "cargo clean --quiet", "/r/sub"));
        }
        _ => panic!("expected a script"),
    }
    let plain = run_clean_step(&map(&[]), "/r", false, None, "/bin/sh", "/r");
    assert!(matches!(plain.actions[0], CleanAction::CleanUntracked(CleanIgnoredMode::Exclude)));
    let removal = run_cleanup_step(&map(&[("path", "a\nb")]), "/r");
    let shown: Vec<String> = removal
        .actions
        .iter()
        .filter_map(|a| match a {
            CleanAction::Remove(path, _) => Some(path.clone()),
            _ => None,
        })
        .collect();
    assert_eq!(shown, vec!["/r/a", "/r/b"]);
    assert!(matches!(
        run_cleanup_step(&map(&[("include-ignored", "true")]), "/r").actions[0],
        CleanAction::CleanUntracked(CleanIgnoredMode::Include)
    ));
    let err = run_cleanup_step(&map(&[("path", " ")]), "/r").failure.expect("nothing to clean");
    assert_eq!(err.to_text(), "cleanup requires `with.path` or `with.paths`");
}

#[test]
fn commit_action_stages_generated_pattern_before_committing() {
    let plan = run_commit_step(&map(&[("patterns", "generated/*.txt"), ("message", "ci: commit generated text")]));
    assert!(plan.failure.is_none());
    let shown = args(&plan);
    assert_eq!(shown[0], "add -- generated/*.txt");
    assert!(shown.last().expect("commit").contains("commit -m ci: commit generated text"));
    assert!(plan.commands.iter().any(|c| c.rule == GitRule::DoneIfClean));
    assert_eq!(
        args(&run_commit_step(&map(&[("signoff", "true"), ("author", "A <a@b>")]))),
        vec!["add -A", "diff --cached --quiet", "commit -m ci: automated changes --signoff --author A <a@b>"]
    );
    assert_eq!(
        args(&run_commit_step(&map(&[("staged", "true"), ("allow-empty", "true"), ("msg", "m")]))),
        vec!["commit -m m --allow-empty"]
    );
}

#[test]
fn sync_pulls_and_pushes() {
    let plan = run_sync_step(&map(&[]), Some("main"));
    assert!(plan.failure.is_none());
    let shown = args(&plan);
    assert!(shown.iter().any(|c| c.starts_with("pull")));
    assert!(shown.iter().any(|c| c.starts_with("push")));
    assert_eq!(sync_pull_strategy(&map(&[("strategy", "rebase")])), "rebase");
    assert_eq!(GitRule::StopOnFailure.after(3), Some(3));
    assert_eq!(GitRule::StopOnFailure.after(0), None);
    assert_eq!(GitRule::DoneIfClean.after(0), Some(0));
    assert_eq!(GitRule::DoneIfClean.after(1), None);
}

#[test]
fn built_in_actions_are_known_with_and_without_versions() {
    assert_eq!(strip_action_ref("actions/checkout@v4"), "actions/checkout");
    assert_eq!(builtin_of("actions/checkout@v4"), Some(BuiltinKind::Checkout));
    assert_eq!(builtin_of("Checkout"), Some(BuiltinKind::Checkout));
    assert_eq!(builtin_of("owner/repo@v1"), None);
    assert_eq!(find_builtin("sync"), Some(BuiltinKind::Sync));
    assert_eq!(find_builtin("upload-artifact"), Some(BuiltinKind::UploadArtifact));
}

#[test]
fn built_in_steps_come_to_plans() {
    let empty = StringMap::new();
    let env = map(&[("KEY", "deps")]);
    let ctx = ExpressionContext {
        event: "manual",
        branch: None,
        env: &env,
        matrix: &empty,
        inputs: &empty,
        success: true,
        previous_failed: false,
    };
    let at = BuiltinSetting {
        default_name: "step",
        root: "/r",
        recursive_checkout: true,
        quiet: false,
        branch: Some("main"),
        shell: "/bin/sh",
        workdir: "/r",
    };
    let with = map(&[("key", "${{ env.KEY }}"), ("path", "a\nb")]);
    match run_builtin_step("cache", &with, &empty, None, &ctx, &at).expect("plan") {
        Some(BuiltinPlan::Cache(key, paths)) => {
            assert_eq!(key, "deps");
            assert_eq!(paths, vec!["a", "b"]);
        }
        _ => panic!("expected a cache"),
    }
    match run_builtin_step("checkout", &map(&[("submodules", "false")]), &empty, None, &ctx, &at).expect("plan") {
        Some(BuiltinPlan::Checkout(submodules)) => assert!(!submodules),
        _ => panic!("expected a checkout"),
    }
    assert!(run_builtin_step("owner/repo@v1", &empty, &empty, None, &ctx, &at).expect("plan").is_none());
    let merged = native_step_inputs(&map(&[("a", "1")]), &map(&[("a", "2"), ("b", "${{ env.KEY }}")]), &ctx);
    assert_eq!(merged.get("a").map(String::as_str), Some("1"));
    assert_eq!(merged.get("b").map(String::as_str), Some("deps"));
}
