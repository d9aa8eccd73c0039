//! The variables and the directory that steps run with.

use crate::arch::{Architecture, platform_of};
use crate::config::{ContainerConfig, ContainerRuntime, or_else};
use crate::maps::{Duplicate, StringMap};
use crate::paths::{
    absolute, join_path, joined, law_join_appends_components, lead_of, parent, parent_of, parts_of,
};
use crate::repo::RepoInfo;
use crate::select::{ResolvedView, ResolvedWorkflow};
use crate::strings::{cat2, join};
use crate::text::{join_of, opt_slice, opt_text, texts};
use crate::workflow::{canonical_event_names, canonical_events, provider_name};
use vstd::prelude::*;
use vstd::string::*;

verus! {

/// Variables, with those of `top` over those of `middle` over those of `base`.
pub open spec fn layered(
    base: Map<Seq<char>, Seq<char>>,
    middle: Map<Seq<char>, Seq<char>>,
    top: Map<Seq<char>, Seq<char>>,
) -> Map<Seq<char>, Seq<char>> {
    base.union_prefer_right(middle).union_prefer_right(top)
}

/// Variables, with those of `top` over those of `middle` over those of `base`.
pub fn merged_env(base: &StringMap, middle: &StringMap, top: &StringMap) -> (r: StringMap)
    ensures
        r@ == layered(base@, middle@, top@),
{
    let mut merged = base.duplicate();
    merged.overlay(middle);
    merged.overlay(top);
    merged
}

/// Variables with those of the container over them.
pub fn container_step_env(base: &StringMap, container: &ContainerConfig) -> (r: StringMap)
    ensures
        r@ == base@.union_prefer_right(container@.env),
{
    let empty = StringMap::new();
    let r = merged_env(base, &container.env, &empty);
    assert(r@ =~= base@.union_prefer_right(container@.env));
    r
}

/// The directory that something runs in: the one asked for, seen from the root, or the root.
pub open spec fn workdir_of(root: Seq<char>, asked: Option<Seq<char>>) -> Seq<char> {
    match asked {
        Some(path) => joined(root, path),
        None => root,
    }
}

/// The directory that something runs in.
pub fn resolve_workdir(root: &str, override_dir: Option<&str>) -> (r: String)
    ensures
        r@ == workdir_of(root@, opt_slice(override_dir)),
{
    match override_dir {
        Some(path) => join_path(root, path),
        None => root.to_owned(),
    }
}

/// The platform of a workflow's containers: the one that is set, else that of the
/// architecture.
pub open spec fn platform_for(set: Option<Seq<char>>, arch: Seq<char>) -> Seq<char> {
    match set {
        Some(p) => p,
        None => platform_of(arch),
    }
}

/// The platform of a workflow's containers.
pub fn container_platform(resolved: &ResolvedWorkflow, arch: &Architecture) -> (r: String)
    ensures
        r@ == platform_for(resolved@.container.platform, arch@),
{
    match &resolved.container.platform {
        Some(p) => p.clone(),
        None => arch.platform(),
    }
}

/// What a run was started for.
pub struct RunInvocation {
    pub event: String,
    pub arch: Architecture,
    pub container_runtime: ContainerRuntime,
    pub container_override: ContainerOverride,
    pub hook_args: Vec<String>,
    pub workflow_args: Vec<String>,
    pub branch: Option<String>,
}

/// What the command line says of containers.
#[derive(Clone, Copy, Debug, PartialEq, Eq, Structural)]
pub enum ContainerOverride {
    Auto,
    Force,
    Disable,
}

#[verifier::ext_equal]
pub struct InvocationView {
    pub event: Seq<char>,
    pub arch: Seq<char>,
    pub container_runtime: ContainerRuntime,
    pub container_override: ContainerOverride,
    pub hook_args: Seq<Seq<char>>,
    pub workflow_args: Seq<Seq<char>>,
    pub branch: Option<Seq<char>>,
}

impl View for RunInvocation {
    type V = InvocationView;

    open spec fn view(&self) -> InvocationView {
        InvocationView {
            event: self.event@,
            arch: self.arch@,
            container_runtime: self.container_runtime,
            container_override: self.container_override,
            hook_args: texts(self.hook_args@),
            workflow_args: texts(self.workflow_args@),
            branch: opt_text(self.branch),
        }
    }
}

/// The variables that name a branch.
pub open spec fn branch_vars(vars: Map<Seq<char>, Seq<char>>, branch: Option<Seq<char>>) -> Map<Seq<char>, Seq<char>> {
    match branch {
        None => vars,
        Some(b) => vars.insert("CI_BRANCH"@, b).insert("GITHUB_REF"@, "refs/heads/"@ + b).insert(
            "GITHUB_REF_NAME"@,
            b,
        ).insert("GITEA_REF"@, "refs/heads/"@ + b).insert("GITEA_REF_NAME"@, b),
    }
}

/// The variables that the tool itself sets for a workflow.
pub open spec fn tool_vars(repo: RepoInfo, host: Seq<char>, inv: InvocationView, w: ResolvedView, run_id: Seq<char>) -> Map<
    Seq<char>,
    Seq<char>,
> {
    let about = Map::<Seq<char>, Seq<char>>::empty().insert("CI"@, "true"@).insert("CI_TOOL"@, "ci"@).insert(
        "CI_EVENT"@,
        inv.event,
    ).insert("CI_HOOK"@, inv.event).insert("CI_ARCH"@, inv.arch).insert("CI_HOST_ARCH"@, host).insert(
        "CI_PLATFORM"@,
        platform_for(w.container.platform, inv.arch),
    ).insert("CI_REPO"@, repo.root@).insert("CI_GIT_DIR"@, repo.git_dir@).insert("CI_WORKFLOW"@, w.name).insert(
        "CI_WORKFLOW_PATH"@,
        w.path,
    ).insert("CI_WORKFLOW_DIR"@, or_else(parent_of(w.path), repo.ci_dir@)).insert("CI_RUN_ID"@, run_id).insert(
        "CI_PROVIDER"@,
        w.provider.word(),
    ).insert("CI_HOOK_ARGS"@, join_of(inv.hook_args, " "@));
    branch_vars(about, inv.branch).insert("GITHUB_ACTIONS"@, "true"@).insert("GITHUB_WORKSPACE"@, repo.root@).insert(
        "GITHUB_EVENT_NAME"@,
        canonical_event_names(inv.event).last(),
    ).insert("GITHUB_WORKFLOW"@, w.name).insert("GITEA_WORKSPACE"@, repo.root@).insert(
        "GITEA_EVENT_NAME"@,
        inv.event,
    )
}

/// Sets a variable.
fn put(env: &mut StringMap, name: &str, value: &str)
    ensures
        final(env)@ == old(env)@.insert(name@, value@),
{
    env.insert(name.to_owned(), value.to_owned());
}

/// The variables that a workflow runs with: those of the tool, and over them those of
/// the workflow.
pub fn workflow_env(
    repo: &RepoInfo,
    host: &Architecture,
    invocation: &RunInvocation,
    resolved: &ResolvedWorkflow,
    run_id: &str,
) -> (r: StringMap)
    ensures
        r@ == tool_vars(*repo, host@, invocation@, resolved@, run_id@).union_prefer_right(resolved@.env),
{
    let mut env = StringMap::new();
    let platform = container_platform(resolved, &invocation.arch);
    let dir = match parent(resolved.path.as_str()) {
        Some(dir) => dir,
        None => repo.ci_dir.clone(),
    };
    let hook_args = join(invocation.hook_args.as_slice(), " ");
    put(&mut env, "CI", "true");
    put(&mut env, "CI_TOOL", "ci");
    put(&mut env, "CI_EVENT", invocation.event.as_str());
    put(&mut env, "CI_HOOK", invocation.event.as_str());
    put(&mut env, "CI_ARCH", invocation.arch.as_str());
    put(&mut env, "CI_HOST_ARCH", host.as_str());
    put(&mut env, "CI_PLATFORM", platform.as_str());
    put(&mut env, "CI_REPO", repo.root.as_str());
    put(&mut env, "CI_GIT_DIR", repo.git_dir.as_str());
    put(&mut env, "CI_WORKFLOW", resolved.name.as_str());
    put(&mut env, "CI_WORKFLOW_PATH", resolved.path.as_str());
    put(&mut env, "CI_WORKFLOW_DIR", dir.as_str());
    put(&mut env, "CI_RUN_ID", run_id);
    put(&mut env, "CI_PROVIDER", provider_name(&resolved.provider));
    put(&mut env, "CI_HOOK_ARGS", hook_args.as_str());
    if let Some(branch) = &invocation.branch {
        let reference = cat2("refs/heads/", branch.as_str());
        put(&mut env, "CI_BRANCH", branch.as_str());
        put(&mut env, "GITHUB_REF", reference.as_str());
        put(&mut env, "GITHUB_REF_NAME", branch.as_str());
        put(&mut env, "GITEA_REF", reference.as_str());
        put(&mut env, "GITEA_REF_NAME", branch.as_str());
    }
    let mut events = canonical_events(invocation.event.as_str());
    let ghost names = texts(events@);
    assert(names.len() == events@.len() && names.len() > 0);
    let event_name = events.pop().unwrap();
    assert(event_name@ == names.last());
    put(&mut env, "GITHUB_ACTIONS", "true");
    put(&mut env, "GITHUB_WORKSPACE", repo.root.as_str());
    put(&mut env, "GITHUB_EVENT_NAME", event_name.as_str());
    put(&mut env, "GITHUB_WORKFLOW", resolved.name.as_str());
    put(&mut env, "GITEA_WORKSPACE", repo.root.as_str());
    put(&mut env, "GITEA_EVENT_NAME", invocation.event.as_str());
    env.overlay(&resolved.env);
    env
}

/// The variables of the workflow hold against those that the tool sets.
pub proof fn law_workflow_variables_win(
    repo: RepoInfo,
    host: Seq<char>,
    inv: InvocationView,
    w: ResolvedView,
    run_id: Seq<char>,
    name: Seq<char>,
)
    requires
        w.env.contains_key(name),
    ensures
        tool_vars(repo, host, inv, w, run_id).union_prefer_right(w.env)[name] == w.env[name],
{
}

/// The upper of two layers of variables holds, and nothing of the lower one is lost
/// but what it replaces.
pub proof fn law_upper_variables_win(
    base: Map<Seq<char>, Seq<char>>,
    middle: Map<Seq<char>, Seq<char>>,
    top: Map<Seq<char>, Seq<char>>,
    name: Seq<char>,
)
    ensures
        top.contains_key(name) ==> layered(base, middle, top)[name] == top[name],
        !top.contains_key(name) && middle.contains_key(name) ==> layered(base, middle, top)[name]
            == middle[name],
        !top.contains_key(name) && !middle.contains_key(name) && base.contains_key(name) ==> layered(
            base,
            middle,
            top,
        )[name] == base[name],
        layered(base, middle, top).contains_key(name) == (base.contains_key(name) || middle.contains_key(
            name,
        ) || top.contains_key(name)),
{
}

/// What the variables of a run say: the event, the architecture, the platform, the
/// repository and the workflow are those of the run, for this tool and for hosted runners.
#[verifier::rlimit(60)]
#[verifier::spinoff_prover]
pub proof fn law_variables_tell_of_the_run(
    repo: RepoInfo,
    host: Seq<char>,
    inv: InvocationView,
    w: ResolvedView,
    run_id: Seq<char>,
)
    ensures
        ({
            let vars = tool_vars(repo, host, inv, w, run_id);
            &&& vars.contains_key("CI"@) && vars["CI"@] == "true"@
            &&& vars.contains_key("CI_TOOL"@) && vars["CI_TOOL"@] == "ci"@
            &&& vars.contains_key("CI_EVENT"@) && vars["CI_EVENT"@] == inv.event
            &&& vars.contains_key("CI_HOOK"@) && vars["CI_HOOK"@] == inv.event
            &&& vars.contains_key("CI_ARCH"@) && vars["CI_ARCH"@] == inv.arch
            &&& vars.contains_key("CI_HOST_ARCH"@) && vars["CI_HOST_ARCH"@] == host
            &&& vars.contains_key("CI_REPO"@) && vars["CI_REPO"@] == repo.root@
            &&& vars.contains_key("CI_GIT_DIR"@) && vars["CI_GIT_DIR"@] == repo.git_dir@
            &&& vars.contains_key("CI_WORKFLOW"@) && vars["CI_WORKFLOW"@] == w.name
            &&& vars.contains_key("CI_WORKFLOW_PATH"@) && vars["CI_WORKFLOW_PATH"@] == w.path
            &&& vars.contains_key("CI_RUN_ID"@) && vars["CI_RUN_ID"@] == run_id
            &&& vars.contains_key("CI_PROVIDER"@) && vars["CI_PROVIDER"@] == w.provider.word()
            &&& vars.contains_key("CI_HOOK_ARGS"@) && vars["CI_HOOK_ARGS"@] == join_of(inv.hook_args, " "@)
            &&& vars.contains_key("GITHUB_ACTIONS"@) && vars["GITHUB_ACTIONS"@] == "true"@
            &&& vars.contains_key("GITHUB_WORKSPACE"@) && vars["GITHUB_WORKSPACE"@] == repo.root@
            &&& vars.contains_key("GITHUB_WORKFLOW"@) && vars["GITHUB_WORKFLOW"@] == w.name
            &&& vars.contains_key("GITEA_WORKSPACE"@) && vars["GITEA_WORKSPACE"@] == repo.root@
            &&& vars.contains_key("GITEA_EVENT_NAME"@) && vars["GITEA_EVENT_NAME"@] == inv.event
            &&& vars["CI_PLATFORM"@] == match w.container.platform {
                Some(platform) => platform,
                None => platform_of(inv.arch),
            }
            &&& inv.event == "post-receive"@ || inv.event == "pre-push"@ || inv.event == "pre-receive"@ || inv.event
                == "update"@ ==> vars["GITHUB_EVENT_NAME"@] == "push"@
            &&& inv.event == "manual"@ ==> vars["GITHUB_EVENT_NAME"@] == "workflow_dispatch"@
        }),
{
    lemma_names_of_variables();
    reveal_strlit("manual");
    reveal_strlit("pre-push");
    reveal_strlit("pre-receive");
    reveal_strlit("post-receive");
    reveal_strlit("update");
    assert("manual"@.len() != "pre-push"@.len());
    assert("manual"@.len() != "pre-receive"@.len());
    assert("manual"@.len() != "post-receive"@.len());
    assert("manual"@[0] != "update"@[0]);
}

/// The branch is told where it is known, and only then.
#[verifier::rlimit(60)]
#[verifier::spinoff_prover]
pub proof fn law_variables_tell_the_branch(
    repo: RepoInfo,
    host: Seq<char>,
    inv: InvocationView,
    w: ResolvedView,
    run_id: Seq<char>,
)
    ensures
        ({
            let vars = tool_vars(repo, host, inv, w, run_id);
            &&& vars.contains_key("CI_BRANCH"@) == (inv.branch is Some)
            &&& inv.branch matches Some(b) ==> vars["CI_BRANCH"@] == b && vars["GITHUB_REF_NAME"@] == b
                && vars["GITEA_REF_NAME"@] == b && vars["GITHUB_REF"@] == "refs/heads/"@ + b && vars["GITEA_REF"@]
                == "refs/heads/"@ + b
        }),
{
    lemma_names_of_variables();
}

/// The names of variables, by their lengths and a letter.
spec fn mark_of_name(s: Seq<char>) -> int {
    100000 * s.len() + 1000 * (s[s.len() - 1] as int) + s[s.len() - 2] as int + 7 * (s[s.len() as int / 2] as int)
}

proof fn lemma_names_of_variables()
    ensures
        mark_of_name("CI"@) == 273578,
        mark_of_name("CI_TOOL"@) == 776667,
        mark_of_name("CI_EVENT"@) == 884680,
        mark_of_name("CI_HOOK"@) == 775583,
        mark_of_name("CI_ARCH"@) == 772522,
        mark_of_name("CI_HOST_ARCH"@) == 1272655,
        mark_of_name("CI_PLATFORM"@) == 1177537,
        mark_of_name("CI_REPO"@) == 779654,
        mark_of_name("CI_GIT_DIR"@) == 1082661,
        mark_of_name("CI_WORKFLOW"@) == 1187653,
        mark_of_name("CI_WORKFLOW_PATH"@) == 1672616,
        mark_of_name("CI_WORKFLOW_DIR"@) == 1582563,
        mark_of_name("CI_RUN_ID"@) == 968668,
        mark_of_name("CI_PROVIDER"@) == 1182622,
        mark_of_name("CI_HOOK_ARGS"@) == 1283596,
        mark_of_name("CI_BRANCH"@) == 972641,
        mark_of_name("GITHUB_REF"@) == 1070531,
        mark_of_name("GITHUB_REF_NAME"@) == 1569651,
        mark_of_name("GITEA_REF"@) == 970524,
        mark_of_name("GITEA_REF_NAME"@) == 1469560,
        mark_of_name("GITHUB_ACTIONS"@) == 1483533,
        mark_of_name("GITHUB_WORKSPACE"@) == 1669620,
        mark_of_name("GITHUB_EVENT_NAME"@) == 1769679,
        mark_of_name("GITHUB_WORKFLOW"@) == 1587688,
        mark_of_name("GITEA_WORKSPACE"@) == 1569620,
        mark_of_name("GITEA_EVENT_NAME"@) == 1669560,
{
    reveal_strlit("CI");
    reveal_strlit("CI_TOOL");
    reveal_strlit("CI_EVENT");
    reveal_strlit("CI_HOOK");
    reveal_strlit("CI_ARCH");
    reveal_strlit("CI_HOST_ARCH");
    reveal_strlit("CI_PLATFORM");
    reveal_strlit("CI_REPO");
    reveal_strlit("CI_GIT_DIR");
    reveal_strlit("CI_WORKFLOW");
    reveal_strlit("CI_WORKFLOW_PATH");
    reveal_strlit("CI_WORKFLOW_DIR");
    reveal_strlit("CI_RUN_ID");
    reveal_strlit("CI_PROVIDER");
    reveal_strlit("CI_HOOK_ARGS");
    reveal_strlit("CI_BRANCH");
    reveal_strlit("GITHUB_REF");
    reveal_strlit("GITHUB_REF_NAME");
    reveal_strlit("GITEA_REF");
    reveal_strlit("GITEA_REF_NAME");
    reveal_strlit("GITHUB_ACTIONS");
    reveal_strlit("GITHUB_WORKSPACE");
    reveal_strlit("GITHUB_EVENT_NAME");
    reveal_strlit("GITHUB_WORKFLOW");
    reveal_strlit("GITEA_WORKSPACE");
    reveal_strlit("GITEA_EVENT_NAME");
}

/// A platform that is set counts; else it follows from the architecture. A directory that is
/// asked for is seen from the root, and the root is it where none is.
pub proof fn law_platform_and_directory(set: Option<Seq<char>>, arch: Seq<char>, root: Seq<char>, dir: Option<Seq<char>>)
    ensures
        set matches Some(p) ==> platform_for(set, arch) == p,
        set is None ==> platform_for(set, arch) == platform_of(arch),
        dir is None ==> workdir_of(root, dir) == root,
        dir matches Some(d) ==> absolute(d) ==> workdir_of(root, dir) == d,
        dir matches Some(d) ==> root.len() > 0 && lead_of(d).len() == 0 ==> parts_of(workdir_of(root, dir)) == parts_of(root)
            + parts_of(d),
{
    if dir is Some && root.len() > 0 && lead_of(dir->0).len() == 0 {
        law_join_appends_components(root, dir->0);
    }
}

} // verus!
