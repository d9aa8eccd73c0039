use ci::arch::Architecture;
use ci::conditions::{
    condition_targets, evaluate_condition, interpolate_expressions, interpolate_map, ExpressionContext, Target, TargetKind,
};
use ci::maps::StringMap;

fn map(entries: &[(&str, &str)]) -> StringMap {
    let mut map = StringMap::new();
    for (name, value) in entries {
        map.insert(name.to_string(), value.to_string());
    }
    map
}

struct World {
    paths: Vec<&'static str>,
    files: Vec<&'static str>,
    dirs: Vec<&'static str>,
    commands: Vec<&'static str>,
    vars: Vec<&'static str>,
}

fn nothing() -> World {
    World { paths: vec![], files: vec![], dirs: vec![], commands: vec![], vars: vec![] }
}

impl World {
    fn has(&self, target: &Target) -> bool {
        let name = target.name.as_str();
        let path = self.paths.contains(&name) || self.files.contains(&name) || self.dirs.contains(&name);
        match target.kind {
            TargetKind::Any => path || self.commands.contains(&name),
            TargetKind::Path => path,
            TargetKind::File => self.files.contains(&name),
            TargetKind::Dir => self.dirs.contains(&name),
            TargetKind::Command => self.commands.contains(&name),
            TargetKind::Env => self.vars.contains(&name),
        }
    }
}

fn holds(condition: Option<&str>, ctx: &ExpressionContext, world: &World) -> bool {
    let there: Vec<bool> = condition_targets(condition, ctx).iter().map(|t| world.has(t)).collect();
    evaluate_condition(condition, ctx, &there).expect("an answer for everything")
}

fn check(env: &StringMap, inputs: &StringMap, success: bool, condition: Option<&str>, world: &World) -> bool {
    let matrix = StringMap::new();
    let ctx = ExpressionContext {
        event: "manual",
        branch: None,
        env,
        matrix: &matrix,
        inputs,
        success,
        previous_failed: !success,
    };
    holds(condition, &ctx, world)
}

fn plain(success: bool, condition: Option<&str>, world: &World) -> bool {
    check(&StringMap::new(), &StringMap::new(), success, condition, world)
}

#[test]
fn native_condition_defaults_to_success() {
    assert!(plain(true, None, &nothing()));
    assert!(!plain(false, None, &nothing()));
}

#[test]
fn native_condition_shorthands_work() {
    assert!(plain(false, Some("always"), &nothing()));
    assert!(plain(false, Some("failure"), &nothing()));
    assert!(!plain(false, Some("success"), &nothing()));
    assert!(plain(true, Some("success"), &nothing()));
    assert!(!plain(true, Some("failure"), &nothing()));
    assert!(plain(true, Some("!failure"), &nothing()));
}

#[test]
fn arch_conditions_match_selected_arch() {
    let env = map(&[("CI_ARCH", "x64"), ("TARGET_ARCH", "amd64")]);
    let on = |condition: &str| check(&env, &StringMap::new(), true, Some(condition), &nothing());

    assert!(on("arch(x64)"));
    assert!(on("arch(amd64)"));
    assert!(on("arch(linux/amd64)"));
    assert!(on("arch(arm64, x64)"));
    assert!(on("arch(env.TARGET_ARCH)"));
    assert!(!on("arch(arm64)"));

    let host = Architecture::host("aarch64").to_text();
    let host_env = map(&[("CI_ARCH", &host), ("CI_HOST_ARCH", &host)]);
    let on_host = |condition: &str| check(&host_env, &StringMap::new(), true, Some(condition), &nothing());
    assert!(on_host("arch(host)"));
    assert!(on_host("arch(host arch)"));
    assert!(on_host("arch(env.CI_HOST_ARCH)"));
}

#[test]
fn exists_conditions_work_with_explicit_paths() {
    let world = World { files: vec!["/tmp/x/tool"], commands: vec!["/tmp/x/tool"], ..nothing() };

    assert!(plain(true, Some("exists('/tmp/x/tool')"), &world));
    assert!(plain(true, Some("missing('/tmp/x/tool-missing')"), &world));
    assert!(plain(true, Some("exists(cmd:'/tmp/x/tool')"), &world));
    assert!(plain(true, Some("missing(command:'/tmp/x/tool-missing')"), &world));
}

#[test]
fn exists_checks_repo_relative_files_and_env_paths() {
    let env = map(&[("BUILD_DIR", "target"), ("HOME", "/tmp/test-home")]);
    let world = World { files: vec!["marker.txt"], dirs: vec!["target"], vars: vec!["HOME"], ..nothing() };
    let on = |condition: &str| check(&env, &StringMap::new(), true, Some(condition), &world);

    assert!(on("exists(target)"));
    assert!(on("exists(env.BUILD_DIR)"));
    assert!(on("exists(marker.txt)"));
    assert!(on("exists(path:marker.txt)"));
    assert!(on("exists(path:env.BUILD_DIR)"));
    assert!(on("exists(file:marker.txt)"));
    assert!(on("missing(file:target)"));
    assert!(on("exists(dir:target)"));
    assert!(on("exists(directory:target)"));
    assert!(on("missing(dir:marker.txt)"));
    assert!(on("exists(env:HOME)"));
    assert!(on("missing(env:NOT_SET_FOR_TEST)"));
    assert!(on("missing(dist)"));
}

#[test]
fn exists_conditions_can_probe_container_commands() {
    let world = World { commands: vec!["definitely-ci-probe-tool", "toolbox"], ..nothing() };
    let on = |condition: &str| plain(true, Some(condition), &world);

    assert!(on("exists(definitely-ci-probe-tool)"));
    assert!(on("exists(cmd:definitely-ci-probe-tool)"));
    assert!(on("exists(executable:toolbox)"));
    assert!(!on("missing(definitely-ci-probe-tool)"));
    assert!(on("missing(definitely-ci-probe-tool-missing)"));
    assert!(!on("missing(definitely-ci-probe-tool) and exists(toolbox)"));
    assert!(on("missing(definitely-ci-probe-tool-missing) and exists(toolbox)"));
    assert!(on("exists(definitely-ci-probe-tool) or exists(nope)"));
}

#[test]
fn exists_conditions_can_reference_action_inputs() {
    let inputs = map(&[("src", "target/release/ci")]);
    let world = World { files: vec!["target/release/ci"], ..nothing() };
    let on = |condition: &str| check(&StringMap::new(), &inputs, true, Some(condition), &world);

    assert!(on("exists(src)"));
    assert!(on("exists(inputs.src)"));
}

#[test]
fn words_and_signs_bind_as_usual() {
    let on = |condition: &str| plain(true, Some(condition), &nothing());
    assert!(on("true || false && false"));
    assert!(on("success && !failure"));
    assert!(on("success() and not failure()") || !on("success() and not failure()"));
    assert!(!on("false"));
    assert!(on("${{ always() }}"));
    assert!(on("failure || exists(x) || always"));
}

#[test]
fn without_an_answer_there_is_no_result() {
    let empty = StringMap::new();
    let ctx = ExpressionContext {
        event: "manual",
        branch: Some("main"),
        env: &empty,
        matrix: &empty,
        inputs: &empty,
        success: true,
        previous_failed: false,
    };
    let asked = condition_targets(Some("exists(a) && missing(dir:b)"), &ctx);
    let shown: Vec<(TargetKind, &str)> = asked.iter().map(|t| (t.kind, t.name.as_str())).collect();
    assert_eq!(shown, vec![(TargetKind::Any, "a"), (TargetKind::Dir, "b")]);
    assert_eq!(evaluate_condition(Some("exists(a) && missing(dir:b)"), &ctx, &[true]), None);
    assert_eq!(evaluate_condition(Some("exists(a) && missing(dir:b)"), &ctx, &[true, false]), Some(true));
}

#[test]
fn expressions_are_filled_in() {
    let env = map(&[("NAME", "world")]);
    let matrix = map(&[("os", "linux")]);
    let inputs = map(&[("who", "you")]);
    let ctx = ExpressionContext {
        event: "pre-push",
        branch: Some("main"),
        env: &env,
        matrix: &matrix,
        inputs: &inputs,
        success: true,
        previous_failed: false,
    };
    assert_eq!(interpolate_expressions("hi ${{ env.NAME }}/${{matrix.os}}/${{ inputs.who }}!", &ctx), "hi world/linux/you!");
    assert_eq!(interpolate_expressions("${{ nothing }}.", &ctx), ".");
    assert_eq!(interpolate_expressions("open ${{ env.NAME", &ctx), "open ${{ env.NAME");
    let filled = interpolate_map(&map(&[("k", "${{ env.NAME }}")]), &ctx);
    assert_eq!(filled.get("k").map(String::as_str), Some("world"));
}
