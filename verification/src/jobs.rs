//! Running the jobs of an action workflow, and the actions that their steps use.

use crate::actions::{
    ActionContainer, ActionContainerView, ActionRunStep, ActionUsesStep, ActionsJob,
    ActionsWorkflow,
};
use crate::conditions::{
    ExpressionContext, ExpressionView, Target, asked_about, condition_targets, effective_condition,
    entry, evaluate_condition, holds, interpolate_expressions, interpolated, lemma_not_found,
    lemma_single_piece, target_views, targets_in,
};
use crate::config::{or_else, over};
use crate::containers::{sanitize_tag, tag_text};
use crate::depend::{Node, NodeView, needed_order, node_ids, node_views, order_needed, positions};
use crate::environ::{RunInvocation, layered, merged_env, resolve_workdir, workdir_of};
use crate::error::{CiError, ErrorView, message, outcome};
use crate::maps::{Duplicate, StringMap};
use crate::native::{StepStatus, branch_from_env, event_from_env, event_of};
use crate::paths::{join_path, joined, lemma_split_concat};
use crate::select::{ResolvedView, ResolvedWorkflow};
use crate::steps::{
    BuiltinPlan, BuiltinSetting, BuiltinView, SettingView, builtin_step, builtin_used,
    run_builtin_step,
};
use crate::strings::{
    cat3, cat5, cat6, copy_list, join, opt_str, split_char, split_once, starts_with, strip_prefix,
};
use crate::text::{
    cut_once, join_of, lemma_first_index, lemma_take_push, lemma_texts_push, opt_slice, opt_text,
    split_at_char, texts,
};
use vstd::prelude::*;
use vstd::string::*;

verus! {

broadcast use {lemma_texts_push, lemma_take_push};

/// Jobs by their names and by what they need.
pub open spec fn job_nodes(jobs: Seq<ActionsJob>) -> Seq<NodeView> {
    jobs.map_values(|j: ActionsJob| NodeView { id: j.id@, needs: texts(j.needs@) })
}

/// The order in which jobs run, as positions: every job after those that it needs.
pub open spec fn job_order(jobs: Seq<ActionsJob>) -> Result<Seq<int>, ErrorView> {
    needed_order(job_nodes(jobs), "job"@, node_ids(job_nodes(jobs)))
}

/// The order in which jobs run, as positions.
pub fn order_jobs(jobs: &[ActionsJob]) -> (r: Result<Vec<usize>, CiError>)
    ensures
        match r {
            Ok(order) => job_order(jobs@) == Ok::<_, ErrorView>(positions(order@)) && forall|i: int|
                0 <= i < order@.len() ==> #[trigger] order@[i] < jobs@.len(),
            Err(e) => job_order(jobs@) == Err::<Seq<int>, _>(e@),
        },
{
    let mut nodes: Vec<Node> = Vec::new();
    let mut ids: Vec<String> = Vec::new();
    let ghost all = job_nodes(jobs@);
    let mut i: usize = 0;
    assert(node_views(nodes@) =~= all.take(0));
    assert(texts(ids@) =~= node_ids(all).take(0));
    while i < jobs.len()
        invariant
            i <= jobs@.len(),
            all == job_nodes(jobs@),
            nodes@.len() == i,
            node_views(nodes@) == all.take(i as int),
            texts(ids@) == node_ids(all).take(i as int),
        decreases jobs.len() - i,
    {
        let node = Node { id: jobs[i].id.clone(), needs: copy_list(jobs[i].needs.as_slice()) };
        let ghost before = nodes@;
        assert(node@ == all[i as int]);
        assert(node_ids(all)[i as int] == jobs@[i as int].id@);
        nodes.push(node);
        ids.push(jobs[i].id.clone());
        assert(node_views(nodes@) =~= node_views(before).push(node@));
        i += 1;
    }
    assert(all.take(i as int) =~= all);
    assert(node_ids(all).take(i as int) =~= node_ids(all));
    order_needed(nodes.as_slice(), "job", ids.as_slice())
}

/// How far a job or a composite action has come.
pub struct JobRun {
    success: bool,
    previous_failed: bool,
}

impl View for JobRun {
    type V = StepStatus;

    closed spec fn view(&self) -> StepStatus {
        StepStatus { success: self.success, previous_failed: self.previous_failed }
    }
}

/// A job of which no step has run.
pub open spec fn job_start() -> StepStatus {
    StepStatus { success: true, previous_failed: false }
}

/// A job after a step: a step that is skipped counts as one that did well.
pub open spec fn job_after(code: i32) -> StepStatus {
    StepStatus { success: code == 0, previous_failed: code != 0 }
}

/// The status that a job ends with after a step, where it ends: a failure ends it unless
/// the step may fail.
pub open spec fn job_verdict(code: i32, continue_on_error: bool) -> Option<i32> {
    if code != 0 && !continue_on_error {
        Some(code)
    } else {
        None
    }
}

impl JobRun {
    /// A job of which no step has run.
    pub fn new() -> (r: Self)
        ensures
            r@ == job_start(),
    {
        JobRun { success: true, previous_failed: false }
    }

    /// What the condition of the next step goes by.
    pub fn status(&self) -> (r: StepStatus)
        ensures
            r == self@,
    {
        StepStatus { success: self.success, previous_failed: self.previous_failed }
    }

    /// Takes note of a step, and gives the status that the job ends with, where it ends.
    pub fn run_actions_job(&mut self, exit_code: i32, continue_on_error: bool) -> (r: Option<i32>)
        ensures
            final(self)@ == job_after(exit_code),
            r == job_verdict(exit_code, continue_on_error),
    {
        self.success = exit_code == 0;
        self.previous_failed = exit_code != 0;
        if exit_code != 0 && !continue_on_error {
            Some(exit_code)
        } else {
            None
        }
    }
}

/// What became of a step: how it ended, and whether it may fail.
pub struct JobStepEnd {
    pub code: i32,
    pub continue_on_error: bool,
}

/// How a job ends whose steps would end so: with the first failure that may not be.
pub open spec fn job_end(ends: Seq<JobStepEnd>) -> i32
    decreases ends.len(),
{
    if ends.len() == 0 {
        0
    } else {
        match job_verdict(ends[0].code, ends[0].continue_on_error) {
            Some(code) => code,
            None => job_end(ends.drop_first()),
        }
    }
}

/// A job ends well exactly where every failing step may fail.
pub proof fn law_job_ends_well_unless_blocked(ends: Seq<JobStepEnd>)
    ensures
        (job_end(ends) == 0) == (forall|i: int|
            0 <= i < ends.len() ==> (#[trigger] ends[i]).code == 0 || ends[i].continue_on_error),
    decreases ends.len(),
{
    if ends.len() > 0 {
        let rest = ends.drop_first();
        law_job_ends_well_unless_blocked(rest);
        if forall|i: int| 0 <= i < ends.len() ==> (#[trigger] ends[i]).code == 0 || ends[i].continue_on_error {
            assert(ends[0].code == 0 || ends[0].continue_on_error);
            assert forall|i: int| 0 <= i < rest.len() implies (#[trigger] rest[i]).code == 0
                || rest[i].continue_on_error by {
                assert(rest[i] == ends[i + 1]);
            }
        }
        if job_end(ends) == 0 {
            assert forall|i: int| 0 <= i < ends.len() implies (#[trigger] ends[i]).code == 0
                || ends[i].continue_on_error by {
                if i > 0 {
                    assert(rest[i - 1] == ends[i]);
                }
            }
        }
    }
}

/// The runs of a job: one for each combination of its matrix, or one without any.
pub fn matrix_runs(job: &ActionsJob) -> (r: usize)
    ensures
        r == if job.matrix@.len() == 0 {
            1
        } else {
            job.matrix@.len()
        },
{
    if job.matrix.is_empty() {
        1
    } else {
        job.matrix.len()
    }
}

/// The combination that a run of a job is for.
pub open spec fn matrix_values(job: ActionsJob, run: int) -> Map<Seq<char>, Seq<char>> {
    if 0 <= run < job.matrix@.len() {
        job.matrix@[run]@
    } else {
        Map::empty()
    }
}

/// The combination that a run of a job is for.
pub fn matrix_of(job: &ActionsJob, run: usize) -> (r: StringMap)
    ensures
        r@ == matrix_values(*job, run as int),
{
    if run < job.matrix.len() {
        job.matrix[run].duplicate()
    } else {
        StringMap::new()
    }
}

/// The variables of a job: its own over those of the workflow over the given ones.
pub open spec fn job_vars(base: Map<Seq<char>, Seq<char>>, w: ActionsWorkflow, job: ActionsJob) -> Map<
    Seq<char>,
    Seq<char>,
> {
    layered(base, w.env@, job.env@)
}

/// The variables of a job.
pub fn job_env(base: &StringMap, workflow: &ActionsWorkflow, job: &ActionsJob) -> (r: StringMap)
    ensures
        r@ == job_vars(base@, *workflow, *job),
{
    merged_env(base, &workflow.env, &job.env)
}

/// What the condition of a job goes by: nothing has failed before it.
pub open spec fn job_context(
    event: Seq<char>,
    branch: Option<Seq<char>>,
    vars: Map<Seq<char>, Seq<char>>,
    matrix: Map<Seq<char>, Seq<char>>,
) -> ExpressionView {
    ExpressionView {
        event,
        branch,
        env: vars,
        matrix,
        inputs: Map::empty(),
        success: true,
        previous_failed: false,
    }
}

/// The things whose existence decides whether a job runs.
pub fn job_questions(job: &ActionsJob, invocation: &RunInvocation, vars: &StringMap, matrix: &StringMap) -> (r: Vec<
    Target,
>)
    ensures
        target_views(r@) == asked_about(
            job_context(invocation@.event, invocation@.branch, vars@, matrix@),
            targets_in(effective_condition(opt_text(job.if_condition))),
        ),
{
    let inputs = StringMap::new();
    let ctx = ExpressionContext {
        event: invocation.event.as_str(),
        branch: opt_str(&invocation.branch),
        env: vars,
        matrix,
        inputs: &inputs,
        success: true,
        previous_failed: false,
    };
    assert(ctx@ =~= job_context(invocation@.event, invocation@.branch, vars@, matrix@));
    condition_targets(opt_str(&job.if_condition), &ctx)
}

/// What a run of a job needs: whether its condition holds, whether containers are needed,
/// and the names of the containers of its services.
#[derive(Debug)]
pub enum JobPlan {
    Skip,
    Run(bool, Vec<String>),
}

#[verifier::ext_equal]
pub enum JobPlanView {
    Skip,
    Run(bool, Seq<Seq<char>>),
}

impl View for JobPlan {
    type V = JobPlanView;

    open spec fn view(&self) -> JobPlanView {
        match self {
            JobPlan::Skip => JobPlanView::Skip,
            JobPlan::Run(b, s) => JobPlanView::Run(*b, texts(s@)),
        }
    }
}

/// The container of a service.
pub open spec fn service_container(workflow: Seq<char>, job: Seq<char>, service: Seq<char>) -> Seq<char> {
    "ci-"@ + tag_text(workflow) + "-"@ + tag_text(job) + "-"@ + tag_text(service)
}

/// The containers of the services of a job.
pub open spec fn service_containers(workflow: Seq<char>, job: Seq<char>, services: Seq<Seq<char>>) -> Seq<Seq<char>> {
    services.map_values(|s: Seq<char>| service_container(workflow, job, s))
}

/// What a run of a job needs.
pub open spec fn job_plan(w: ActionsWorkflow, job: ActionsJob, ctx: ExpressionView, there: Seq<bool>) -> JobPlanView {
    if !holds(effective_condition(opt_text(job.if_condition)), ctx, there) {
        JobPlanView::Skip
    } else {
        JobPlanView::Run(
            job.container is Some || job.services.names().len() > 0,
            service_containers(w.name@, job.id@, job.services.names()),
        )
    }
}

/// What a run of a job needs. `there` says of each thing that [`job_questions`] lists
/// whether it exists.
pub fn run_actions_workflow(
    workflow: &ActionsWorkflow,
    job: &ActionsJob,
    invocation: &RunInvocation,
    vars: &StringMap,
    matrix: &StringMap,
    there: &[bool],
) -> (r: JobPlan)
    requires
        there@.len() == targets_in(effective_condition(opt_text(job.if_condition))).len(),
    ensures
        r@ == job_plan(
            *workflow,
            *job,
            job_context(invocation@.event, invocation@.branch, vars@, matrix@),
            there@,
        ),
{
    let inputs = StringMap::new();
    let ctx = ExpressionContext {
        event: invocation.event.as_str(),
        branch: opt_str(&invocation.branch),
        env: vars,
        matrix,
        inputs: &inputs,
        success: true,
        previous_failed: false,
    };
    assert(ctx@ =~= job_context(invocation@.event, invocation@.branch, vars@, matrix@));
    match evaluate_condition(opt_str(&job.if_condition), &ctx, there) {
        Some(true) => {},
        _ => return JobPlan::Skip,
    }
    let w = sanitize_tag(workflow.name.as_str());
    let j = sanitize_tag(job.id.as_str());
    let ghost names = job.services.names();
    let mut services: Vec<String> = Vec::new();
    let mut i: usize = 0;
    let ghost all = service_containers(workflow.name@, job.id@, names);
    assert(texts(services@) =~= all.take(0));
    while i < job.services.len()
        invariant
            i <= names.len(),
            names == job.services.names(),
            all == service_containers(workflow.name@, job.id@, names),
            w@ == tag_text(workflow.name@),
            j@ == tag_text(job.id@),
            texts(services@) == all.take(i as int),
        decreases names.len() - i,
    {
        let s = sanitize_tag(job.services.name_at(i));
        let name = cat6("ci-", w.as_str(), "-", j.as_str(), "-", s.as_str());
        assert(all[i as int] == name@);
        services.push(name);
        i += 1;
    }
    assert(all.take(i as int) =~= all);
    JobPlan::Run(job.container.is_some() || job.services.len() > 0, services)
}

/// The status that a workflow ends with after a job, where it ends.
pub fn after_job(status: i32, continue_on_error: bool) -> (r: Option<i32>)
    ensures
        r == job_verdict(status, continue_on_error),
{
    if status != 0 && !continue_on_error {
        Some(status)
    } else {
        None
    }
}

/// The variables of a script step.
pub open spec fn run_step_vars(
    base: Map<Seq<char>, Seq<char>>,
    w: ActionsWorkflow,
    job: ActionsJob,
    resolved: ResolvedView,
    step: ActionRunStep,
) -> Map<Seq<char>, Seq<char>> {
    layered(job_vars(base, w, job), resolved.env, step.env@)
}

/// The variables of a step that uses an action.
pub open spec fn uses_step_vars(
    base: Map<Seq<char>, Seq<char>>,
    w: ActionsWorkflow,
    job: ActionsJob,
    step: ActionUsesStep,
) -> Map<Seq<char>, Seq<char>> {
    job_vars(base, w, job).union_prefer_right(step.env@)
}

/// What the condition and the expressions of a step of a job go by.
pub open spec fn job_step_context(
    base: Map<Seq<char>, Seq<char>>,
    vars: Map<Seq<char>, Seq<char>>,
    matrix: Map<Seq<char>, Seq<char>>,
    inputs: Map<Seq<char>, Seq<char>>,
    status: StepStatus,
) -> ExpressionView {
    ExpressionView {
        event: event_of(base),
        branch: entry(base, "CI_BRANCH"@),
        env: vars,
        matrix,
        inputs,
        success: status.success,
        previous_failed: status.previous_failed,
    }
}

/// What the condition and the expressions of a step of a job go by.
pub fn make_job_step_context<'a>(
    base: &'a StringMap,
    vars: &'a StringMap,
    matrix: &'a StringMap,
    inputs: &'a StringMap,
    status: StepStatus,
) -> (r: ExpressionContext<'a>)
    ensures
        r@ == job_step_context(base@, vars@, matrix@, inputs@, status),
{
    ExpressionContext {
        event: event_from_env(base),
        branch: branch_from_env(base),
        env: vars,
        matrix,
        inputs,
        success: status.success,
        previous_failed: status.previous_failed,
    }
}

/// The variables of a script step.
pub fn run_step_env(
    base: &StringMap,
    workflow: &ActionsWorkflow,
    job: &ActionsJob,
    resolved: &ResolvedWorkflow,
    step: &ActionRunStep,
) -> (r: StringMap)
    ensures
        r@ == run_step_vars(base@, *workflow, *job, resolved@, *step),
{
    let vars = job_env(base, workflow, job);
    merged_env(&vars, &resolved.env, &step.env)
}

/// The variables of a step that uses an action.
pub fn uses_step_env(base: &StringMap, workflow: &ActionsWorkflow, job: &ActionsJob, step: &ActionUsesStep) -> (r:
    StringMap)
    ensures
        r@ == uses_step_vars(base@, *workflow, *job, *step),
{
    let mut vars = job_env(base, workflow, job);
    vars.overlay(&step.env);
    vars
}

/// The first of several settings that is there.
pub open spec fn first_set(a: Option<Seq<char>>, b: Option<Seq<char>>, c: Option<Seq<char>>) -> Option<Seq<char>> {
    over(over(c, b), a)
}

fn pick_first<'a>(a: &'a Option<String>, b: &'a Option<String>, c: &'a Option<String>) -> (r: Option<&'a str>)
    ensures
        opt_slice(r) == first_set(opt_text(*a), opt_text(*b), opt_text(*c)),
{
    if a.is_some() {
        opt_str(a)
    } else if b.is_some() {
        opt_str(b)
    } else {
        opt_str(c)
    }
}

/// The directory of a step of a job: its own, else that of the job, of the workflow, of
/// the settings, else the root.
pub open spec fn job_step_dir(
    own: Option<Seq<char>>,
    w: ActionsWorkflow,
    job: ActionsJob,
    resolved: ResolvedView,
    root: Seq<char>,
) -> Seq<char> {
    workdir_of(
        root,
        over(
            resolved.execution.workspace,
            first_set(
                own,
                opt_text(job.defaults.working_directory),
                opt_text(w.defaults.working_directory),
            ),
        ),
    )
}

fn find_job_step_dir(
    own: &Option<String>,
    workflow: &ActionsWorkflow,
    job: &ActionsJob,
    resolved: &ResolvedWorkflow,
    root: &str,
) -> (r: String)
    ensures
        r@ == job_step_dir(opt_text(*own), *workflow, *job, resolved@, root@),
{
    let dir = match pick_first(own, &job.defaults.working_directory, &workflow.defaults.working_directory) {
        Some(dir) => Some(dir),
        None => opt_str(&resolved.execution.workspace),
    };
    resolve_workdir(root, dir)
}

/// The shell of a step of a job: its own, else that of the job, of the workflow, else the
/// default.
pub open spec fn job_step_shell(
    own: Option<Seq<char>>,
    w: ActionsWorkflow,
    job: ActionsJob,
    standard_shell: Seq<char>,
) -> Seq<char> {
    or_else(first_set(own, opt_text(job.defaults.shell), opt_text(w.defaults.shell)), standard_shell)
}

fn find_job_step_shell<'a>(
    own: &'a Option<String>,
    workflow: &'a ActionsWorkflow,
    job: &'a ActionsJob,
    standard_shell: &'a str,
) -> (r: &'a str)
    ensures
        r@ == job_step_shell(opt_text(*own), *workflow, *job, standard_shell@),
{
    match pick_first(own, &job.defaults.shell, &workflow.defaults.shell) {
        Some(shell) => shell,
        None => standard_shell,
    }
}

/// A script of a job, with the container that it runs in.
#[derive(Debug)]
pub struct JobShell {
    pub shell: String,
    pub script: String,
    pub workdir: String,
    pub container: Option<ActionContainer>,
}

#[verifier::ext_equal]
pub struct JobShellView {
    pub shell: Seq<char>,
    pub script: Seq<char>,
    pub workdir: Seq<char>,
    pub container: Option<ActionContainerView>,
}

impl View for JobShell {
    type V = JobShellView;

    open spec fn view(&self) -> JobShellView {
        JobShellView {
            shell: self.shell@,
            script: self.script@,
            workdir: self.workdir@,
            container: match self.container {
                Some(c) => Some(c@),
                None => None,
            },
        }
    }
}

/// What a script step of a job does: nothing where its condition does not hold.
pub open spec fn run_step_plan(
    w: ActionsWorkflow,
    job: ActionsJob,
    resolved: ResolvedView,
    step: ActionRunStep,
    ctx: ExpressionView,
    there: Seq<bool>,
    root: Seq<char>,
    standard_shell: Seq<char>,
) -> Option<JobShellView> {
    if !holds(effective_condition(opt_text(step.if_condition)), ctx, there) {
        None
    } else {
        Some(
            JobShellView {
                shell: job_step_shell(opt_text(step.shell), w, job, standard_shell),
                script: interpolated(step.run@, ctx),
                workdir: job_step_dir(opt_text(step.working_directory), w, job, resolved, root),
                container: match job.container {
                    Some(c) => Some(c@),
                    None => None,
                },
            },
        )
    }
}

/// A value that may be there, by what it stands for.
pub open spec fn opt_view<T: View>(v: Option<T>) -> Option<T::V> {
    match v {
        Some(v) => Some(v@),
        None => None,
    }
}

/// What a script step of a job does. The variables are those of [`run_step_env`]; `there`
/// answers what the condition asks about.
pub fn run_actions_run_step(
    workflow: &ActionsWorkflow,
    job: &ActionsJob,
    resolved: &ResolvedWorkflow,
    step: &ActionRunStep,
    ctx: &ExpressionContext,
    there: &[bool],
    root: &str,
    standard_shell: &str,
) -> (r: Option<JobShell>)
    requires
        there@.len() == targets_in(effective_condition(opt_text(step.if_condition))).len(),
    ensures
        opt_view(r) == run_step_plan(*workflow, *job, resolved@, *step, ctx@, there@, root@, standard_shell@),
{
    match evaluate_condition(opt_str(&step.if_condition), ctx, there) {
        Some(true) => {},
        _ => return None,
    }
    let shell = find_job_step_shell(&step.shell, workflow, job, standard_shell);
    let container = match &job.container {
        Some(c) => Some(c.duplicate()),
        None => None,
    };
    Some(
        JobShell {
            shell: shell.to_owned(),
            script: interpolate_expressions(step.run.as_str(), ctx),
            workdir: find_job_step_dir(&step.working_directory, workflow, job, resolved, root),
            container,
        },
    )
}

/// An action in a repository elsewhere.
#[derive(Debug)]
pub struct RemoteActionSpec {
    pub owner: String,
    pub repo: String,
    pub subpath: String,
    pub reference: String,
}

#[verifier::ext_equal]
pub struct RemoteView {
    pub owner: Seq<char>,
    pub repo: Seq<char>,
    pub subpath: Seq<char>,
    pub reference: Seq<char>,
}

impl View for RemoteActionSpec {
    type V = RemoteView;

    open spec fn view(&self) -> RemoteView {
        RemoteView {
            owner: self.owner@,
            repo: self.repo@,
            subpath: self.subpath@,
            reference: self.reference@,
        }
    }
}

/// The action that a text of the form `owner/repo/path@ref` stands for.
pub open spec fn remote_action(value: Seq<char>) -> Result<RemoteView, ErrorView> {
    match cut_once(value, '@') {
        None => Err(ErrorView::Message("remote action `"@ + value + "` is missing `@ref`"@)),
        Some((place, reference)) => {
            let parts = split_at_char(place, '/');
            if parts.len() < 2 {
                Err(ErrorView::Message("invalid action reference `"@ + value + "`"@))
            } else {
                Ok(
                    RemoteView {
                        owner: parts[0],
                        repo: parts[1],
                        subpath: join_of(parts.skip(2), "/"@),
                        reference,
                    },
                )
            }
        },
    }
}

/// The action that a text of the form `owner/repo/path@ref` stands for.
pub fn parse_remote_action(value: &str) -> (r: Result<RemoteActionSpec, CiError>)
    ensures
        outcome(r) == remote_action(value@),
{
    let (place, reference) = match split_once(value, '@') {
        Some(p) => p,
        None => return Err(message(cat3("remote action `", value, "` is missing `@ref`"))),
    };
    let mut parts = split_char(place, '/');
    let ghost all = texts(parts@);
    assert(all.len() == parts@.len());
    if parts.len() < 2 {
        return Err(message(cat3("invalid action reference `", value, "`")));
    }
    let rest = parts.split_off(2);
    assert(texts(rest@) =~= all.skip(2));
    let subpath = join(rest.as_slice(), "/");
    assert(parts@[0]@ == all[0] && parts@[1]@ == all[1]);
    let repo = parts.pop().unwrap();
    let owner = parts.pop().unwrap();
    Ok(RemoteActionSpec { owner, repo, subpath, reference: reference.to_owned() })
}

/// A text without a prefix, as often as it stands there.
pub open spec fn strip_all(s: Seq<char>, prefix: Seq<char>) -> Seq<char>
    decreases s.len(),
{
    if prefix.len() > 0 && prefix.is_prefix_of(s) {
        strip_all(s.skip(prefix.len() as int), prefix)
    } else {
        s
    }
}

fn strip_all_prefix<'a>(s: &'a str, prefix: &str) -> (r: &'a str)
    requires
        prefix@.len() > 0,
    ensures
        r@ == strip_all(s@, prefix@),
    decreases s@.len(),
{
    match strip_prefix(s, prefix) {
        Some(rest) => strip_all_prefix(rest, prefix),
        None => s,
    }
}

/// An image that is run as an action: a shell in it starts and ends well.
#[derive(Debug)]
pub struct ImageRun {
    pub image: String,
    pub shell: String,
    pub script: String,
    pub workdir: String,
}

#[verifier::ext_equal]
pub struct ImageRunView {
    pub image: Seq<char>,
    pub shell: Seq<char>,
    pub script: Seq<char>,
    pub workdir: Seq<char>,
}

impl View for ImageRun {
    type V = ImageRunView;

    open spec fn view(&self) -> ImageRunView {
        ImageRunView {
            image: self.image@,
            shell: self.shell@,
            script: self.script@,
            workdir: self.workdir@,
        }
    }
}

/// What a step does that uses an action.
#[derive(Debug)]
pub enum UsesPlan {
    Skip,
    Builtin(BuiltinPlan),
    /// Run a container image.
    Docker(ImageRun),
    /// Run the action in a directory.
    Local(String),
    /// Fetch an action and run it.
    Remote(RemoteActionSpec),
}

#[verifier::ext_equal]
pub enum UsesView {
    Skip,
    Builtin(BuiltinView),
    Docker(ImageRunView),
    Local(Seq<char>),
    Remote(RemoteView),
}

impl View for UsesPlan {
    type V = UsesView;

    open spec fn view(&self) -> UsesView {
        match self {
            UsesPlan::Skip => UsesView::Skip,
            UsesPlan::Builtin(b) => UsesView::Builtin(b@),
            UsesPlan::Docker(i) => UsesView::Docker(i@),
            UsesPlan::Local(d) => UsesView::Local(d@),
            UsesPlan::Remote(s) => UsesView::Remote(s@),
        }
    }
}

/// What a step does that uses an action: the built-in ones come first, then images, then
/// directories of the repository, then actions elsewhere. Images need a container runtime.
/// A built-in action has the name and the directory of the step, and the shell of its job.
pub open spec fn uses_step_plan(
    w: ActionsWorkflow,
    job: ActionsJob,
    resolved: ResolvedView,
    step: ActionUsesStep,
    ctx: ExpressionView,
    there: Seq<bool>,
    at: SettingView,
    has_backend: bool,
    standard_shell: Seq<char>,
) -> Result<UsesView, ErrorView> {
    let uses = step.uses@;
    if !holds(effective_condition(opt_text(step.if_condition)), ctx, there) {
        Ok(UsesView::Skip)
    } else {
        match builtin_step(
            uses,
            step.with@,
            Map::empty(),
            None,
            ctx,
            SettingView {
                default_name: step.name@,
                shell: job_step_shell(None, w, job, standard_shell),
                workdir: job_step_dir(opt_text(step.working_directory), w, job, resolved, at.root),
                ..at
            },
        ) {
            Err(e) => Err(e),
            Ok(Some(plan)) => Ok(UsesView::Builtin(plan)),
            Ok(None) => if "docker://"@.is_prefix_of(uses) {
                if has_backend {
                    Ok(
                        UsesView::Docker(
                            ImageRunView {
                                image: strip_all(uses, "docker://"@),
                                shell: standard_shell,
                                script: "true"@,
                                workdir: at.root,
                            },
                        ),
                    )
                } else {
                    Err(ErrorView::Message("docker actions require a container runtime"@))
                }
            } else if "./"@.is_prefix_of(uses) {
                Ok(UsesView::Local(joined(at.root, strip_all(uses, "./"@))))
            } else {
                match remote_action(uses) {
                    Ok(remote) => Ok(UsesView::Remote(remote)),
                    Err(e) => Err(e),
                }
            },
        }
    }
}

/// What a step does that uses an action. `there` answers what its condition asks about.
pub fn run_actions_uses_step(
    workflow: &ActionsWorkflow,
    job: &ActionsJob,
    resolved: &ResolvedWorkflow,
    step: &ActionUsesStep,
    ctx: &ExpressionContext,
    there: &[bool],
    at: &BuiltinSetting,
    has_backend: bool,
    standard_shell: &str,
) -> (r: Result<UsesPlan, CiError>)
    requires
        there@.len() == targets_in(effective_condition(opt_text(step.if_condition))).len(),
    ensures
        outcome(r) == uses_step_plan(
            *workflow,
            *job,
            resolved@,
            *step,
            ctx@,
            there@,
            at@,
            has_backend,
            standard_shell@,
        ),
{
    match evaluate_condition(opt_str(&step.if_condition), ctx, there) {
        Some(true) => {},
        _ => return Ok(UsesPlan::Skip),
    }
    let uses = step.uses.as_str();
    let extra = StringMap::new();
    let no_shell: Option<String> = None;
    let workdir = find_job_step_dir(&step.working_directory, workflow, job, resolved, at.root);
    let inner = BuiltinSetting {
        default_name: step.name.as_str(),
        root: at.root,
        recursive_checkout: at.recursive_checkout,
        quiet: at.quiet,
        branch: at.branch,
        shell: find_job_step_shell(&no_shell, workflow, job, standard_shell),
        workdir: workdir.as_str(),
    };
    match run_builtin_step(uses, &step.with, &extra, None, ctx, &inner) {
        Err(e) => return Err(e),
        Ok(Some(plan)) => return Ok(UsesPlan::Builtin(plan)),
        Ok(None) => {},
    }
    proof {
        reveal_strlit("docker://");
        reveal_strlit("./");
    }
    if starts_with(uses, "docker://") {
        if !has_backend {
            return Err(message("docker actions require a container runtime".to_owned()));
        }
        return Ok(
            UsesPlan::Docker(
                ImageRun {
                    image: strip_all_prefix(uses, "docker://").to_owned(),
                    shell: standard_shell.to_owned(),
                    script: "true".to_owned(),
                    workdir: at.root.to_owned(),
                },
            ),
        );
    }
    if starts_with(uses, "./") {
        return Ok(UsesPlan::Local(join_path(at.root, strip_all_prefix(uses, "./"))));
    }
    match parse_remote_action(uses) {
        Ok(remote) => Ok(UsesPlan::Remote(remote)),
        Err(e) => Err(e),
    }
}

/// The repository that an action is fetched from.
pub fn remote_url(base: &str, remote: &RemoteActionSpec) -> (r: String)
    ensures
        r@ == base@ + "/"@ + remote@.owner + "/"@ + remote@.repo,
{
    cat5(base, "/", remote.owner.as_str(), "/", remote.repo.as_str())
}

/// The directory of a fetched action: the part of the repository that was asked for.
pub fn remote_action_dir(clone: &str, remote: &RemoteActionSpec) -> (r: String)
    ensures
        r@ == if remote@.subpath.len() == 0 {
            clone@
        } else {
            joined(clone@, remote@.subpath)
        },
{
    if remote.subpath.as_str().is_empty() {
        clone.to_owned()
    } else {
        join_path(clone, remote.subpath.as_str())
    }
}

/// A variable of a step holds against one of the settings, against one of the job, against
/// one of the workflow, against one of the run; a step that uses an action takes none from
/// the settings.
pub proof fn law_variables_of_a_step(
    base: Map<Seq<char>, Seq<char>>,
    w: ActionsWorkflow,
    job: ActionsJob,
    resolved: ResolvedView,
    step: ActionRunStep,
    uses: ActionUsesStep,
    name: Seq<char>,
)
    ensures
        ({
            let vars = run_step_vars(base, w, job, resolved, step);
            let own = uses_step_vars(base, w, job, uses);
            let outer = job_vars(base, w, job);
            &&& step.env@.contains_key(name) ==> vars[name] == step.env@[name]
            &&& !step.env@.contains_key(name) && resolved.env.contains_key(name) ==> vars[name] == resolved.env[name]
            &&& !step.env@.contains_key(name) && !resolved.env.contains_key(name) ==> vars.contains_key(name)
                == outer.contains_key(name) && (outer.contains_key(name) ==> vars[name] == outer[name])
            &&& uses.env@.contains_key(name) ==> own[name] == uses.env@[name]
            &&& !uses.env@.contains_key(name) && outer.contains_key(name) ==> own[name] == outer[name]
            &&& job.env@.contains_key(name) ==> outer[name] == job.env@[name]
            &&& !job.env@.contains_key(name) && w.env@.contains_key(name) ==> outer[name] == w.env@[name]
            &&& !job.env@.contains_key(name) && !w.env@.contains_key(name) && base.contains_key(name) ==> outer[name]
                == base[name]
        }),
{
}

/// The shell and the directory of a step are its own, else those of the job, else those of
/// the workflow; behind them the directory of the settings and the usual shell.
pub proof fn law_shell_and_directory_of_a_step(
    own: Option<Seq<char>>,
    w: ActionsWorkflow,
    job: ActionsJob,
    resolved: ResolvedView,
    root: Seq<char>,
    standard: Seq<char>,
)
    ensures
        own matches Some(s) ==> job_step_shell(own, w, job, standard) == s && job_step_dir(own, w, job, resolved, root)
            == joined(root, s),
        own is None && job.defaults.shell is Some ==> job_step_shell(own, w, job, standard) == job.defaults.shell->0@,
        own is None && job.defaults.shell is None && w.defaults.shell is Some ==> job_step_shell(own, w, job, standard)
            == w.defaults.shell->0@,
        own is None && job.defaults.shell is None && w.defaults.shell is None ==> job_step_shell(own, w, job, standard)
            == standard,
        own is None && job.defaults.working_directory is Some ==> job_step_dir(own, w, job, resolved, root) == joined(
            root,
            job.defaults.working_directory->0@,
        ),
        own is None && job.defaults.working_directory is None && w.defaults.working_directory is Some ==> job_step_dir(
            own,
            w,
            job,
            resolved,
            root,
        ) == joined(root, w.defaults.working_directory->0@),
        own is None && job.defaults.working_directory is None && w.defaults.working_directory is None
            && resolved.execution.workspace is Some ==> job_step_dir(own, w, job, resolved, root) == joined(
            root,
            resolved.execution.workspace->0,
        ),
        own is None && job.defaults.working_directory is None && w.defaults.working_directory is None
            && resolved.execution.workspace is None ==> job_step_dir(own, w, job, resolved, root) == root,
{
}

/// A job whose condition does not hold is skipped; one that runs needs containers exactly
/// where it has one or has services, and every service gets a container of its own name.
pub proof fn law_what_a_job_needs(w: ActionsWorkflow, job: ActionsJob, ctx: ExpressionView, there: Seq<bool>)
    ensures
        ({
            let runs = holds(effective_condition(opt_text(job.if_condition)), ctx, there);
            let plan = job_plan(w, job, ctx, there);
            &&& (plan is Skip) == !runs
            &&& plan matches JobPlanView::Run(contained, names) ==> contained == (job.container is Some
                || job.services.names().len() > 0) && names.len() == job.services.names().len() && forall|i: int|
                0 <= i < names.len() ==> tag_text(job.services.names()[i]).is_suffix_of(#[trigger] names[i])
                    && "ci-"@.is_prefix_of(names[i])
        }),
{
    if let JobPlanView::Run(contained, names) = job_plan(w, job, ctx, there) {
        assert forall|i: int| 0 <= i < names.len() implies tag_text(job.services.names()[i]).is_suffix_of(
            #[trigger] names[i],
        ) && "ci-"@.is_prefix_of(names[i]) by {
            let t = tag_text(job.services.names()[i]);
            let n = names[i];
            assert(n == "ci-"@ + tag_text(w.name@) + "-"@ + tag_text(job.id@) + "-"@ + t);
            assert(t =~= n.subrange(n.len() - t.len(), n.len() as int));
            assert("ci-"@ =~= n.subrange(0, "ci-"@.len() as int));
        }
    }
}

/// A job has one run for each combination of its matrix, with the values of that combination.
pub proof fn law_one_run_for_each_combination(job: ActionsJob, run: int)
    ensures
        0 <= run < job.matrix@.len() ==> matrix_values(job, run) == job.matrix@[run]@,
        job.matrix@.len() == 0 ==> matrix_values(job, run) == Map::<Seq<char>, Seq<char>>::empty(),
{
}

/// A job ends with the first failure that may not be; failures before it that may be do not
/// matter.
pub proof fn law_the_first_blocking_step_ends_the_job(ends: Seq<JobStepEnd>, i: int)
    requires
        0 <= i < ends.len(),
        ends[i].code != 0,
        !ends[i].continue_on_error,
        forall|k: int| 0 <= k < i ==> (#[trigger] ends[k]).code == 0 || ends[k].continue_on_error,
    ensures
        job_end(ends) == ends[i].code,
    decreases ends.len(),
{
    if i > 0 {
        assert(ends[0].code == 0 || ends[0].continue_on_error);
        let rest = ends.drop_first();
        assert forall|k: int| 0 <= k < i - 1 implies (#[trigger] rest[k]).code == 0 || rest[k].continue_on_error by {
            assert(rest[k] == ends[k + 1]);
        }
        law_the_first_blocking_step_ends_the_job(rest, i - 1);
    }
}

/// What the condition of the next step of a job goes by: how the last one ended, and a job
/// starts well.
pub proof fn law_the_next_step_goes_by_the_last(code: i32)
    ensures
        job_start().success && !job_start().previous_failed,
        job_after(code).success == (code == 0),
        job_after(code).previous_failed == (code != 0),
{
}

/// A text `owner/repo@ref` names an action elsewhere, `owner/repo/path@ref` a part of it; a
/// text without `@` or without a repository is refused.
pub proof fn law_actions_elsewhere(owner: Seq<char>, repo: Seq<char>, path: Seq<char>, reference: Seq<char>)
    requires
        !owner.contains('/') && !owner.contains('@'),
        !repo.contains('/') && !repo.contains('@'),
        !path.contains('/') && !path.contains('@'),
    ensures
        remote_action(owner + "/"@ + repo + "@"@ + reference) == Ok::<_, ErrorView>(
            RemoteView { owner, repo, subpath: Seq::empty(), reference },
        ),
        remote_action(owner + "/"@ + repo + "/"@ + path + "@"@ + reference) == Ok::<_, ErrorView>(
            RemoteView { owner, repo, subpath: path, reference },
        ),
        remote_action(owner + "@"@ + reference) is Err,
        remote_action(owner + "/"@ + repo) is Err,
{
    reveal_strlit("/");
    reveal_strlit("@");
    let two = owner + "/"@ + repo;
    let three = owner + "/"@ + repo + "/"@ + path;
    lemma_single_piece(owner, '/');
    lemma_single_piece(repo, '/');
    lemma_single_piece(path, '/');
    lemma_split_concat(owner, repo, '/');
    assert(two =~= owner.push('/') + repo);
    lemma_split_concat(two, path, '/');
    assert(three =~= two.push('/') + path);
    assert(split_at_char(two, '/') =~= seq![owner, repo]);
    assert(split_at_char(three, '/') =~= seq![owner, repo, path]);
    lemma_cut_at(owner, reference);
    lemma_cut_at(two, reference);
    lemma_cut_at(three, reference);
    lemma_not_found(two, '@');
    assert(seq![owner, repo].skip(2) =~= Seq::<Seq<char>>::empty());
    assert(seq![owner, repo, path].skip(2) =~= seq![path]);
}

proof fn lemma_cut_at(a: Seq<char>, b: Seq<char>)
    requires
        !a.contains('@'),
    ensures
        cut_once(a + "@"@ + b, '@') == Some((a, b)),
{
    reveal_strlit("@");
    let t = a + "@"@ + b;
    let n = a.len() as int;
    assert forall|k: int| 0 <= k < n implies #[trigger] t[k] != '@' by {
        assert(t[k] == a[k]);
    }
    lemma_first_index(t, '@', n);
    assert(t.take(n) =~= a);
    assert(t.skip(n + 1) =~= b);
}

/// What a step uses that is no built-in action: `docker://` is an image, which needs a
/// runtime, `./` a directory of the repository, and everything else an action elsewhere. A
/// step whose condition does not hold does nothing.
pub proof fn law_where_an_action_comes_from(
    w: ActionsWorkflow,
    job: ActionsJob,
    resolved: ResolvedView,
    step: ActionUsesStep,
    ctx: ExpressionView,
    there: Seq<bool>,
    at: SettingView,
    has_backend: bool,
    shell: Seq<char>,
    rest: Seq<char>,
)
    ensures
        ({
            let plan = uses_step_plan(w, job, resolved, step, ctx, there, at, has_backend, shell);
            let runs = holds(effective_condition(opt_text(step.if_condition)), ctx, there);
            let own = builtin_used(step.uses@) is Some;
            &&& !runs ==> plan == Ok::<_, ErrorView>(UsesView::Skip)
            &&& runs && own && plan is Ok ==> plan->Ok_0 is Builtin
            &&& runs && !own && step.uses@ == "docker://"@ + rest && !"docker://"@.is_prefix_of(rest) && has_backend ==> (
            plan matches Ok(UsesView::Docker(run)) && run.image == rest)
            &&& runs && !own && step.uses@ == "docker://"@ + rest && !has_backend ==> plan is Err
            &&& runs && !own && step.uses@ == "./"@ + rest && !"./"@.is_prefix_of(rest) ==> plan == Ok::<_, ErrorView>(
                UsesView::Local(joined(at.root, rest)),
            )
            &&& runs && !own && !"docker://"@.is_prefix_of(step.uses@) && !"./"@.is_prefix_of(step.uses@) ==> (plan is Ok)
                == (remote_action(step.uses@) is Ok)
        }),
{
    reveal_strlit("docker://");
    reveal_strlit("./");
    let d = "docker://"@;
    let p = "./"@;
    assert((d + rest).skip(9) =~= rest);
    assert(d =~= (d + rest).subrange(0, 9));
    assert((p + rest).skip(2) =~= rest);
    assert(p =~= (p + rest).subrange(0, 2));
    assert(!d.is_prefix_of(p + rest)) by {
        if d.is_prefix_of(p + rest) {
            assert(d[0] == (p + rest).subrange(0, 9)[0]);
        }
    }
    assert(strip_all(rest, d) == rest || d.is_prefix_of(rest));
    assert(strip_all(rest, p) == rest || p.is_prefix_of(rest));
}

} // verus!
