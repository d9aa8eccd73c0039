//! How a planned run is carried out: what each workflow is handed to, what happens after
//! each end, and what is kept between runs.

use crate::arch::Architecture;
use crate::conditions::lemma_single_piece;
use crate::config::ContainerView;
use crate::containers::{
    container_wanted, native_container_enabled, sanitize_tag, tag_text, workflow_tag,
};
use crate::environ::{
    ContainerOverride, RunInvocation, container_platform, container_step_env, platform_for,
    resolve_workdir, workdir_of,
};
use crate::error::{CiError, ErrorView, message, outcome, usage};
use crate::maps::StringMap;
use crate::paths::{
    join_path, joined, law_join_appends_components, lead_of, lemma_name_parts, naming, parts_of,
};
use crate::select::{ResolvedView, ResolvedWorkflow, WorkflowMatch};
use crate::strings::{cat2, cat3, copy_list, copy_opt, decimal, opt_str};
use crate::text::{decimal_of, lemma_take_push, lemma_texts_push, opt_text, texts};
use crate::workflow::{Workflow, WorkflowSource};
use vstd::prelude::*;
use vstd::string::*;

verus! {

broadcast use {lemma_texts_push, lemma_take_push};

/// How far a run of several workflows has come.
pub struct RunLoop {
    keep_going: bool,
    last_failure: i32,
}

/// How far a run of several workflows has come: the last failure, or zero.
#[verifier::ext_equal]
pub struct LoopView {
    pub keep_going: bool,
    pub last_failure: i32,
}

impl View for RunLoop {
    type V = LoopView;

    closed spec fn view(&self) -> LoopView {
        LoopView { keep_going: self.keep_going, last_failure: self.last_failure }
    }
}

impl LoopView {
    /// Before the first workflow.
    pub open spec fn start(keep_going: bool) -> LoopView {
        LoopView { keep_going, last_failure: 0 }
    }

    /// After a workflow.
    pub open spec fn after(self, status: i32) -> LoopView {
        LoopView {
            last_failure: if status != 0 {
                status
            } else {
                self.last_failure
            },
            ..self
        }
    }

    /// The status that a run ends with after a workflow, where it ends.
    pub open spec fn verdict(self, status: i32) -> Option<i32> {
        if status != 0 && !self.keep_going {
            Some(status)
        } else {
            None
        }
    }

    /// The status that a run ends with whose workflows would end so from here on.
    pub open spec fn end(self, statuses: Seq<i32>) -> i32
        decreases statuses.len(),
    {
        if statuses.len() == 0 {
            self.last_failure
        } else {
            match self.verdict(statuses[0]) {
                Some(status) => status,
                None => self.after(statuses[0]).end(statuses.skip(1)),
            }
        }
    }
}

impl RunLoop {
    /// Before the first workflow.
    pub fn new(keep_going: bool) -> (r: Self)
        ensures
            r@ == LoopView::start(keep_going),
    {
        RunLoop { keep_going, last_failure: 0 }
    }

    /// Takes note of a workflow, and gives the status that the run ends with, where it
    /// ends here.
    pub fn record(&mut self, status: i32) -> (r: Option<i32>)
        ensures
            final(self)@ == old(self)@.after(status),
            r == old(self)@.verdict(status),
    {
        if status != 0 {
            self.last_failure = status;
            if !self.keep_going {
                return Some(status);
            }
        }
        None
    }

    /// The status of the run after all workflows.
    pub fn result(&self) -> (r: i32)
        ensures
            r == self@.last_failure,
    {
        self.last_failure
    }
}

/// A run ends well exactly where nothing failed before and every workflow ends well,
/// whether it keeps going or not.
pub proof fn law_a_run_ends_well_when_all_do(from: LoopView, statuses: Seq<i32>)
    ensures
        (from.end(statuses) == 0) == (from.last_failure == 0 && forall|i: int|
            0 <= i < statuses.len() ==> #[trigger] statuses[i] == 0),
    decreases statuses.len(),
{
    if statuses.len() > 0 {
        let t = statuses.skip(1);
        let next = from.after(statuses[0]);
        law_a_run_ends_well_when_all_do(next, t);
        if from.end(statuses) == 0 {
            assert forall|i: int| 0 <= i < statuses.len() implies #[trigger] statuses[i] == 0 by {
                if i > 0 {
                    assert(t[i - 1] == statuses[i]);
                }
            }
        } else if statuses[0] == 0 && from.last_failure == 0 {
            let i = choose|i: int| 0 <= i < t.len() && t[i] != 0;
            assert(statuses[i + 1] != 0);
        }
    }
}

/// A run that keeps going ends with its last failure.
pub proof fn law_keeping_going_ends_with_the_last_failure(statuses: Seq<i32>, from: LoopView, i: int)
    requires
        from.keep_going,
        0 <= i < statuses.len(),
        statuses[i] != 0,
        forall|k: int| i < k < statuses.len() ==> #[trigger] statuses[k] == 0,
    ensures
        from.end(statuses) == statuses[i],
    decreases statuses.len(),
{
    let t = statuses.skip(1);
    let next = from.after(statuses[0]);
    assert forall|k: int| i - 1 < k < t.len() implies #[trigger] t[k] == 0 by {
        assert(t[k] == statuses[k + 1]);
    }
    if i > 0 {
        assert(t[i - 1] == statuses[i]);
        law_keeping_going_ends_with_the_last_failure(t, next, i - 1);
    } else {
        lemma_all_well(next, t);
    }
}

proof fn lemma_all_well(from: LoopView, statuses: Seq<i32>)
    requires
        forall|k: int| 0 <= k < statuses.len() ==> #[trigger] statuses[k] == 0,
    ensures
        from.end(statuses) == from.last_failure,
    decreases statuses.len(),
{
    if statuses.len() > 0 {
        let t = statuses.skip(1);
        assert forall|k: int| 0 <= k < t.len() implies #[trigger] t[k] == 0 by {
            assert(t[k] == statuses[k + 1]);
        }
        lemma_all_well(from.after(statuses[0]), t);
    }
}

/// A run that does not keep going ends with its first failure.
pub proof fn law_the_first_failure_ends_a_run(statuses: Seq<i32>, from: LoopView, i: int)
    requires
        !from.keep_going,
        0 <= i < statuses.len(),
        statuses[i] != 0,
        forall|k: int| 0 <= k < i ==> #[trigger] statuses[k] == 0,
    ensures
        from.end(statuses) == statuses[i],
    decreases statuses.len(),
{
    if i > 0 {
        let t = statuses.skip(1);
        assert(statuses[0] == 0);
        assert(t[i - 1] == statuses[i]);
        assert forall|k: int| 0 <= k < i - 1 implies #[trigger] t[k] == 0 by {
            assert(t[k] == statuses[k + 1]);
        }
        law_the_first_failure_ends_a_run(t, from.after(statuses[0]), i - 1);
    }
}

/// What a workflow is handed to.
#[derive(Clone, Copy, Debug, PartialEq, Eq, Structural)]
pub enum WorkflowRunner {
    Executable,
    NativeHost,
    NativeContainer,
    Container,
    Actions,
}

/// What a workflow is handed to. One that is a container cannot run without containers.
pub open spec fn runner_of(w: Workflow, resolved: ResolvedView, mode: ContainerOverride) -> Result<
    WorkflowRunner,
    ErrorView,
> {
    match w.source {
        WorkflowSource::Executable(_) => Ok(WorkflowRunner::Executable),
        WorkflowSource::NativeYaml(_) => if container_wanted(resolved.container, mode) {
            Ok(WorkflowRunner::NativeContainer)
        } else {
            Ok(WorkflowRunner::NativeHost)
        },
        WorkflowSource::Container(_) => if mode == ContainerOverride::Disable {
            Err(
                ErrorView::Usage(
                    w.path@ + " is a container workflow and cannot run with --no-container"@,
                ),
            )
        } else {
            Ok(WorkflowRunner::Container)
        },
        WorkflowSource::Actions(_) => Ok(WorkflowRunner::Actions),
    }
}

/// What a workflow is handed to.
pub fn run_one_workflow(invocation: &RunInvocation, item: &WorkflowMatch) -> (r: Result<WorkflowRunner, CiError>)
    ensures
        match r {
            Ok(runner) => runner_of(*item.workflow, item.resolved@, invocation@.container_override) == Ok::<_, ErrorView>(
                runner,
            ),
            Err(e) => runner_of(*item.workflow, item.resolved@, invocation@.container_override) == Err::<
                WorkflowRunner,
                _,
            >(e@),
        },
{
    match &item.workflow.source {
        WorkflowSource::Executable(_) => Ok(WorkflowRunner::Executable),
        WorkflowSource::NativeYaml(_) => if native_container_enabled(
            &item.resolved.container,
            invocation.container_override,
        ) {
            Ok(WorkflowRunner::NativeContainer)
        } else {
            Ok(WorkflowRunner::NativeHost)
        },
        WorkflowSource::Container(_) => {
            if invocation.container_override == ContainerOverride::Disable {
                return Err(
                    usage(
                        cat2(
                            item.workflow.path.as_str(),
                            " is a container workflow and cannot run with --no-container",
                        ),
                    ),
                );
            }
            Ok(WorkflowRunner::Container)
        },
        WorkflowSource::Actions(_) => Ok(WorkflowRunner::Actions),
    }
}

/// Whether the artifacts that a workflow declares are kept after it: where it went well
/// and its files are not those of an action workflow, which keeps its own.
pub fn captures_artifacts(status: i32, workflow: &Workflow) -> (r: bool)
    ensures
        r == (status == 0 && !(workflow.source is Actions)),
{
    match &workflow.source {
        WorkflowSource::Actions(_) => false,
        _ => status == 0,
    }
}

/// A program to run.
#[derive(Debug)]
pub struct ProgramPlan {
    pub program: String,
    pub workdir: String,
    pub args: Vec<String>,
}

#[verifier::ext_equal]
pub struct ProgramView {
    pub program: Seq<char>,
    pub workdir: Seq<char>,
    pub args: Seq<Seq<char>>,
}

impl View for ProgramPlan {
    type V = ProgramView;

    open spec fn view(&self) -> ProgramView {
        ProgramView { program: self.program@, workdir: self.workdir@, args: texts(self.args@) }
    }
}

/// Whether somebody may execute a file of that mode.
pub open spec fn mode_is_executable(mode: u32) -> bool {
    mode & 0o111 != 0
}

/// Whether somebody may execute a file of that mode.
pub fn is_executable(mode: u32) -> (r: bool)
    ensures
        r == mode_is_executable(mode),
{
    mode & 0o111 != 0
}

/// The mode of a file that everybody may read and execute, and its owner write.
pub fn chmod_executable(mode: u32) -> (r: u32)
    ensures
        r == mode | 0o755,
        mode_is_executable(r),
        forall|bit: u32| bit < 32 && #[trigger] (mode & (1u32 << bit)) != 0 ==> r & (1u32 << bit) != 0,
{
    let r: u32 = mode | 0o755;
    assert((mode | 0o755) & 0o111 != 0) by (bit_vector);
    assert forall|bit: u32| bit < 32 && #[trigger] (mode & (1u32 << bit)) != 0 implies r & (1u32 << bit) != 0 by {
        assert((mode & (1u32 << bit)) != 0 ==> ((mode | 0o755) & (1u32 << bit)) != 0) by (bit_vector);
    }
    r
}

/// The program that an executable workflow is. `mode` is the mode of its file, where there
/// is one.
pub open spec fn executable_plan(resolved: ResolvedView, mode: Option<u32>, root: Seq<char>, hook_args: Seq<Seq<char>>) -> Result<
    ProgramView,
    ErrorView,
> {
    match mode {
        None => Err(ErrorView::NotFound(resolved.path)),
        Some(mode) => if !mode_is_executable(mode) {
            Err(ErrorView::NotExecutable(resolved.path))
        } else {
            Ok(
                ProgramView {
                    program: resolved.path,
                    workdir: workdir_of(root, resolved.execution.workspace),
                    args: hook_args,
                },
            )
        },
    }
}

/// The program that an executable workflow is.
pub fn run_executable(resolved: &ResolvedWorkflow, mode: Option<u32>, root: &str, invocation: &RunInvocation) -> (r: Result<
    ProgramPlan,
    CiError,
>)
    ensures
        outcome(r) == executable_plan(resolved@, mode, root@, invocation@.hook_args),
{
    match mode {
        None => Err(CiError::NotFound(resolved.path.clone())),
        Some(mode) => {
            if !is_executable(mode) {
                return Err(CiError::NotExecutable(resolved.path.clone()));
            }
            Ok(
                ProgramPlan {
                    program: resolved.path.clone(),
                    workdir: resolve_workdir(root, opt_str(&resolved.execution.workspace)),
                    args: copy_list(invocation.hook_args.as_slice()),
                },
            )
        },
    }
}

/// A container workflow: the image to build, and what runs in it.
pub struct ContainerPlan {
    pub file: String,
    pub context: String,
    pub tag: String,
    pub platform: String,
    pub shell: String,
    pub script: String,
    pub env: StringMap,
    pub workdir: String,
    pub volumes: Vec<String>,
    pub container_workdir: Option<String>,
}

#[verifier::ext_equal]
pub struct ContainerPlanView {
    pub file: Seq<char>,
    pub context: Seq<char>,
    pub tag: Seq<char>,
    pub platform: Seq<char>,
    pub shell: Seq<char>,
    pub script: Seq<char>,
    pub env: Map<Seq<char>, Seq<char>>,
    pub workdir: Seq<char>,
    pub volumes: Seq<Seq<char>>,
    pub container_workdir: Option<Seq<char>>,
}

impl View for ContainerPlan {
    type V = ContainerPlanView;

    open spec fn view(&self) -> ContainerPlanView {
        ContainerPlanView {
            file: self.file@,
            context: self.context@,
            tag: self.tag@,
            platform: self.platform@,
            shell: self.shell@,
            script: self.script@,
            env: self.env@,
            workdir: self.workdir@,
            volumes: texts(self.volumes@),
            container_workdir: opt_text(self.container_workdir),
        }
    }
}

/// What a container workflow does: its image is built out of the repository, and a shell
/// in it does nothing more.
pub fn run_container_workflow(
    resolved: &ResolvedWorkflow,
    arch: &Architecture,
    root: &str,
    shell: &str,
    env: &StringMap,
) -> (r: ContainerPlan)
    ensures
        r@ == (ContainerPlanView {
            file: resolved@.path,
            context: root@,
            tag: "ci-"@ + tag_text(resolved@.name),
            platform: platform_for(resolved@.container.platform, arch@),
            shell: shell@,
            script: "true"@,
            env: env@.union_prefer_right(resolved@.container.env),
            workdir: root@,
            volumes: resolved@.container.volumes,
            container_workdir: resolved@.container.workdir,
        }),
{
    ContainerPlan {
        file: resolved.path.clone(),
        context: root.to_owned(),
        tag: workflow_tag(resolved.name.as_str()),
        platform: container_platform(resolved, arch),
        shell: shell.to_owned(),
        script: "true".to_owned(),
        env: container_step_env(env, &resolved.container),
        workdir: root.to_owned(),
        volumes: copy_list(resolved.container.volumes.as_slice()),
        container_workdir: copy_opt(&resolved.container.workdir),
    }
}

/// What follows the build of an image: the status that ends the workflow, or nothing where
/// the build went well and the workflow goes on.
pub fn run_native_yaml_containerized(build_status: i32) -> (r: Option<i32>)
    ensures
        r == if build_status != 0 {
            Some(build_status)
        } else {
            None
        },
{
    if build_status != 0 {
        Some(build_status)
    } else {
        None
    }
}

/// A copy of a path: from where to where.
#[derive(Debug)]
pub struct CopyPlan {
    pub source: String,
    pub target: String,
}

/// Copies by their texts.
pub open spec fn copy_views(v: Seq<CopyPlan>) -> Seq<(Seq<char>, Seq<char>)> {
    v.map_values(|c: CopyPlan| (c.source@, c.target@))
}

/// Where a cache keeps its files.
pub open spec fn cache_dir(state_dir: Seq<char>, key: Seq<char>) -> Seq<char> {
    joined(joined(state_dir, "cache"@), tag_text(key))
}

/// Where a cache keeps its files.
pub fn cache_root(state_dir: &str, key: &str) -> (r: String)
    ensures
        r@ == cache_dir(state_dir@, key@),
{
    let top = join_path(state_dir, "cache");
    let name = sanitize_tag(key);
    join_path(top.as_str(), name.as_str())
}

/// What restoring a cache copies, as far as it is there: each path out of the cache to its
/// place in the repository.
pub open spec fn restored(root: Seq<char>, cache: Seq<char>, paths: Seq<Seq<char>>) -> Seq<(Seq<char>, Seq<char>)> {
    paths.map_values(|p: Seq<char>| (joined(cache, p), joined(root, p)))
}

/// What saving a cache copies, as far as it is there: the way back.
pub open spec fn saved(root: Seq<char>, cache: Seq<char>, paths: Seq<Seq<char>>) -> Seq<(Seq<char>, Seq<char>)> {
    paths.map_values(|p: Seq<char>| (joined(root, p), joined(cache, p)))
}

fn path_pairs(from: &str, to: &str, paths: &[String]) -> (r: Vec<CopyPlan>)
    ensures
        copy_views(r@) == restored(to@, from@, texts(paths@)),
{
    let mut out: Vec<CopyPlan> = Vec::new();
    let ghost all = restored(to@, from@, texts(paths@));
    let mut i: usize = 0;
    assert(copy_views(out@) =~= all.take(0));
    while i < paths.len()
        invariant
            i <= paths@.len(),
            all == restored(to@, from@, texts(paths@)),
            copy_views(out@) == all.take(i as int),
        decreases paths.len() - i,
    {
        assert(texts(paths@)[i as int] == paths@[i as int]@);
        let copy = CopyPlan {
            source: join_path(from, paths[i].as_str()),
            target: join_path(to, paths[i].as_str()),
        };
        let ghost before = out@;
        assert(all[i as int] == (copy.source@, copy.target@));
        out.push(copy);
        assert(copy_views(out@) =~= copy_views(before).push((copy.source@, copy.target@)));
        i += 1;
    }
    assert(all.take(i as int) =~= all);
    out
}

/// What restoring a cache copies; only what is there is copied.
pub fn restore_cache(root: &str, state_dir: &str, key: &str, paths: &[String]) -> (r: Vec<CopyPlan>)
    ensures
        copy_views(r@) == restored(root@, cache_dir(state_dir@, key@), texts(paths@)),
{
    let cache = cache_root(state_dir, key);
    path_pairs(cache.as_str(), root, paths)
}

/// What saving a cache copies; only what is there is copied.
pub fn save_pending_caches(root: &str, state_dir: &str, key: &str, paths: &[String]) -> (r: Vec<CopyPlan>)
    ensures
        copy_views(r@) == saved(root@, cache_dir(state_dir@, key@), texts(paths@)),
{
    let cache = cache_root(state_dir, key);
    let r = path_pairs(root, cache.as_str(), paths);
    assert(copy_views(r@) =~= saved(root@, cache_dir(state_dir@, key@), texts(paths@)));
    r
}

/// What is saved is restored to where it came from: the copies of a restore are those of a
/// save the other way round.
pub proof fn law_restoring_undoes_saving(root: Seq<char>, cache: Seq<char>, paths: Seq<Seq<char>>, i: int)
    requires
        0 <= i < paths.len(),
    ensures
        restored(root, cache, paths)[i].0 == saved(root, cache, paths)[i].1,
        restored(root, cache, paths)[i].1 == saved(root, cache, paths)[i].0,
{
}

/// The name of a run: when it started, in milliseconds, and the process that runs it.
pub fn new_run_id(millis: u64, process: u32) -> (r: String)
    ensures
        r@ == decimal_of(millis as nat) + "-"@ + decimal_of(process as nat),
{
    let stamp = decimal(millis);
    let id = decimal(process as u64);
    cat3(stamp.as_str(), "-", id.as_str())
}

/// Why a run cannot start while another one holds the lock.
pub fn lock_refused(path: &str) -> (r: CiError)
    ensures
        r@ == ErrorView::Message("another `ci` run is active ("@ + path@ + ")"@),
{
    message(cat3("another `ci` run is active (", path, ")"))
}

/// A workflow of steps runs in a container exactly where one is wanted, a container workflow
/// never without containers, and every other workflow in its own way.
pub proof fn law_every_workflow_runs_in_its_way(w: Workflow, r: ResolvedView, mode: ContainerOverride)
    ensures
        w.source is Executable ==> runner_of(w, r, mode) == Ok::<_, ErrorView>(WorkflowRunner::Executable),
        w.source is Actions ==> runner_of(w, r, mode) == Ok::<_, ErrorView>(WorkflowRunner::Actions),
        w.source is NativeYaml && mode is Force ==> runner_of(w, r, mode) == Ok::<_, ErrorView>(WorkflowRunner::NativeContainer),
        w.source is NativeYaml && mode is Disable ==> runner_of(w, r, mode) == Ok::<_, ErrorView>(WorkflowRunner::NativeHost),
        w.source is NativeYaml && mode is Auto && r.container.kind is Some ==> runner_of(w, r, mode) == Ok::<_, ErrorView>(
            WorkflowRunner::NativeContainer,
        ),
        w.source is NativeYaml && mode is Auto && r.container == ContainerView::nothing() ==> runner_of(w, r, mode)
            == Ok::<_, ErrorView>(WorkflowRunner::NativeHost),
        w.source is Container ==> (runner_of(w, r, mode) is Err) == (mode is Disable),
        w.source is Container && runner_of(w, r, mode) is Ok ==> runner_of(w, r, mode) == Ok::<_, ErrorView>(
            WorkflowRunner::Container,
        ),
        runner_of(w, r, mode) matches Err(e) ==> e.code() == 2,
{
}

/// A program that is not there is not found, one that nobody may execute is refused, and
/// else it runs with the arguments of the hook in the directory of the workflow.
pub proof fn law_programs_run_where_they_can(r: ResolvedView, mode: Option<u32>, root: Seq<char>, args: Seq<Seq<char>>)
    ensures
        mode is None ==> (executable_plan(r, mode, root, args) matches Err(e) && e.code() == 127),
        mode matches Some(m) ==> m & 0o111 == 0 ==> (executable_plan(r, mode, root, args) matches Err(e) && e.code() == 126),
        mode matches Some(m) ==> m & 0o111 != 0 ==> (executable_plan(r, mode, root, args) matches Ok(plan) && plan.program
            == r.path && plan.args == args && plan.workdir == workdir_of(root, r.execution.workspace)),
{
}

/// What is restored comes from where it was saved under the same key, and keys that are
/// plain and different are kept apart.
pub proof fn law_caches_are_kept_by_key(root: Seq<char>, state: Seq<char>, key: Seq<char>, paths: Seq<Seq<char>>, i: int)
    requires
        0 <= i < paths.len(),
    ensures
        saved(root, cache_dir(state, key), paths).len() == paths.len(),
        saved(root, cache_dir(state, key), paths)[i].0 == joined(root, paths[i]),
        restored(root, cache_dir(state, key), paths)[i].1 == joined(root, paths[i]),
        restored(root, cache_dir(state, key), paths)[i].0 == joined(cache_dir(state, key), paths[i]),
        parts_of(state).len() > 0 && state.len() > 0 ==> parts_of(state).is_prefix_of(
            parts_of(joined(state, "cache"@)),
        ),
{
    reveal_strlit("cache");
    if state.len() > 0 {
        reveal_strlit(".");
        lemma_plain_lead("cache"@);
        law_join_appends_components(state, "cache"@);
        let all = parts_of(joined(state, "cache"@));
        assert(parts_of(state) =~= all.subrange(0, parts_of(state).len() as int));
    }
}

proof fn lemma_plain_lead(s: Seq<char>)
    requires
        s.len() > 1,
        forall|i: int| 0 <= i < s.len() ==> #[trigger] s[i] != '/',
    ensures
        lead_of(s).len() == 0,
{
    assert(!s.contains('/')) by {
        if s.contains('/') {
            let i = choose|i: int| 0 <= i < s.len() && s[i] == '/';
            assert(s[i] == '/');
        }
    }
    lemma_single_piece(s, '/');
    reveal_strlit(".");
    assert(s.len() != "."@.len());
}

/// A cache stands in the directory `cache` of the tool, under its key.
pub proof fn law_where_a_cache_stands(state: Seq<char>, key: Seq<char>)
    requires
        state.len() > 0,
        naming(tag_text(key)),
    ensures
        parts_of(cache_dir(state, key)) == parts_of(state).push("cache"@).push(tag_text(key)),
{
    reveal_strlit("cache");
    reveal_strlit(".");
    assert("cache"@.len() != "."@.len());
    let name = tag_text(key);
    assert(!name.contains('/')) by {
        if name.contains('/') {
            let k = choose|k: int| 0 <= k < name.len() && name[k] == '/';
            assert(name[k] != '/');
        }
    }
    lemma_name_parts("cache"@);
    lemma_name_parts(name);
    law_join_appends_components(state, "cache"@);
    let dir = joined(state, "cache"@);
    assert(dir.len() > 0);
    law_join_appends_components(dir, name);
    assert(parts_of(state) + seq!["cache"@] =~= parts_of(state).push("cache"@));
    assert(parts_of(dir) + seq![name] =~= parts_of(dir).push(name));
}

} // verus!
