//! Running a native workflow: one step after the other, each under its condition.

use crate::buildargs::{append_args_to_build_script, script_with_args};
use crate::conditions::{
    ConditionView, ExpressionContext, ExpressionView, Target, asked_about, condition_targets,
    effective_condition, entry, evaluate_condition, holds, interpolate_expressions, interpolated,
    target_views, targets_in,
};
use crate::config::{or_else, over, pick};
use crate::environ::{container_step_env, layered, merged_env, resolve_workdir, workdir_of};
use crate::error::{CiError, ErrorView, message, outcome};
use crate::maps::{Duplicate, StringMap};
use crate::paths::joined;
use crate::select::{ResolvedView, ResolvedWorkflow};
use crate::steps::{
    BuiltinPlan, BuiltinSetting, BuiltinView, SettingView, builtin_step, builtin_used,
    native_step_inputs, rendered, run_builtin_step,
};
use crate::strings::{cat2, cat4, join, opt_str};
use crate::text::{join_of, opt_slice, texts};
use crate::workflow::{NativeStep, StepView};
use vstd::prelude::*;
use vstd::string::*;

verus! {

/// How far a native workflow has come: whether the last step that ran failed, and the
/// status that the workflow fails with (0 while it does not).
pub struct NativeRun {
    previous_failed: bool,
    failure: i32,
}

/// See [`NativeRun`].
#[verifier::ext_equal]
pub struct RunState {
    pub previous_failed: bool,
    pub failure: i32,
}

impl View for NativeRun {
    type V = RunState;

    closed spec fn view(&self) -> RunState {
        RunState { previous_failed: self.previous_failed, failure: self.failure }
    }
}

/// What a condition goes by: whether all is well, and whether the last step failed.
#[derive(Clone, Copy, Debug, PartialEq, Eq, Structural)]
pub struct StepStatus {
    pub success: bool,
    pub previous_failed: bool,
}

impl RunState {
    /// A workflow of which no step has run.
    pub open spec fn start() -> RunState {
        RunState { previous_failed: false, failure: 0 }
    }

    /// The workflow after a step: a skipped one changes nothing; of those that ran, the
    /// first that failed and may not fail decides the end.
    pub open spec fn after(self, status: Option<i32>, continue_on_error: bool) -> RunState {
        match status {
            None => self,
            Some(code) => RunState {
                previous_failed: code != 0,
                failure: if code != 0 && !continue_on_error && self.failure == 0 {
                    code
                } else {
                    self.failure
                },
            },
        }
    }

    /// What the condition of the next step goes by.
    pub open spec fn status(self) -> StepStatus {
        StepStatus {
            success: self.failure == 0 && !self.previous_failed,
            previous_failed: self.previous_failed,
        }
    }
}

/// What became of a step: whether it ran and how it ended, and whether it may fail.
#[verifier::ext_equal]
pub struct StepEnd {
    pub status: Option<i32>,
    pub continue_on_error: bool,
}

/// A workflow after its steps.
pub open spec fn state_after(ends: Seq<StepEnd>) -> RunState
    decreases ends.len(),
{
    if ends.len() == 0 {
        RunState::start()
    } else {
        state_after(ends.drop_last()).after(ends.last().status, ends.last().continue_on_error)
    }
}

/// Whether a step failed that may not fail.
pub open spec fn blocks(end: StepEnd) -> bool {
    end.status is Some && end.status->0 != 0 && !end.continue_on_error
}

impl NativeRun {
    /// A workflow of which no step has run.
    pub fn new() -> (r: Self)
        ensures
            r@ == RunState::start(),
    {
        NativeRun { previous_failed: false, failure: 0 }
    }

    /// What the condition of the next step goes by.
    pub fn status(&self) -> (r: StepStatus)
        ensures
            r == self@.status(),
    {
        StepStatus {
            success: self.failure == 0 && !self.previous_failed,
            previous_failed: self.previous_failed,
        }
    }

    /// Takes note of a step: how it ended, or that it was skipped.
    pub fn record(&mut self, status: Option<i32>, continue_on_error: bool)
        ensures
            final(self)@ == old(self)@.after(status, continue_on_error),
    {
        if let Some(code) = status {
            self.previous_failed = code != 0;
            if code != 0 && !continue_on_error && self.failure == 0 {
                self.failure = code;
            }
        }
    }

    /// The status that the workflow ends with.
    pub fn result(&self) -> (r: i32)
        ensures
            r == self@.failure,
    {
        self.failure
    }
}

/// The name that a step goes by.
pub open spec fn step_title(step: StepView) -> Seq<char> {
    or_else(over(step.uses, step.name), "run"@)
}

/// The name that a step goes by.
pub fn step_name<'a>(step: &'a NativeStep) -> (r: &'a str)
    ensures
        r@ == step_title(step@),
{
    match &step.name {
        Some(name) => name.as_str(),
        None => match &step.uses {
            Some(uses) => uses.as_str(),
            None => "run",
        },
    }
}

/// Whether a step runs in the container of its workflow: it does unless it says otherwise.
pub open spec fn in_container(step: StepView, available: bool) -> bool {
    available && or_else(step.container, true)
}

/// Whether a step runs in the container of its workflow.
pub fn step_in_container(step: &NativeStep, available: bool) -> (r: bool)
    ensures
        r == in_container(step@, available),
{
    available && match step.container {
        Some(wanted) => wanted,
        None => true,
    }
}

/// The variables of a step: its own over those of the workflow over the given ones, and
/// those of the container over all where it runs in one.
pub open spec fn step_vars(
    base: Map<Seq<char>, Seq<char>>,
    w: ResolvedView,
    step: StepView,
    contained: bool,
) -> Map<Seq<char>, Seq<char>> {
    let vars = layered(base, w.env, step.env);
    if contained {
        vars.union_prefer_right(w.container.env)
    } else {
        vars
    }
}

/// The variables of a step.
pub fn step_env(base: &StringMap, resolved: &ResolvedWorkflow, step: &NativeStep, contained: bool) -> (r: StringMap)
    ensures
        r@ == step_vars(base@, resolved@, step@, contained),
{
    let vars = merged_env(base, &resolved.env, &step.env);
    if contained {
        container_step_env(&vars, &resolved.container)
    } else {
        vars
    }
}

/// The event and the branch that the variables of a run name.
pub open spec fn event_of(base: Map<Seq<char>, Seq<char>>) -> Seq<char> {
    or_else(entry(base, "CI_EVENT"@), "manual"@)
}

/// The event that the variables of a run name.
pub fn event_from_env<'a>(base: &'a StringMap) -> (r: &'a str)
    ensures
        r@ == event_of(base@),
{
    match base.get("CI_EVENT") {
        Some(v) => v.as_str(),
        None => "manual",
    }
}

/// The branch that the variables of a run name.
pub fn branch_from_env<'a>(base: &'a StringMap) -> (r: Option<&'a str>)
    ensures
        opt_slice(r) == entry(base@, "CI_BRANCH"@),
{
    match base.get("CI_BRANCH") {
        Some(v) => Some(v.as_str()),
        None => None,
    }
}

/// What the condition and the expressions of a step go by. Inputs are those of the
/// action that it uses, with expressions replaced; without an action there are none.
pub open spec fn step_context(
    base: Map<Seq<char>, Seq<char>>,
    vars: Map<Seq<char>, Seq<char>>,
    step: StepView,
    status: StepStatus,
) -> ExpressionView {
    let plain = ExpressionView {
        event: event_of(base),
        branch: entry(base, "CI_BRANCH"@),
        env: vars,
        matrix: Map::empty(),
        inputs: Map::empty(),
        success: status.success,
        previous_failed: status.previous_failed,
    };
    if step.uses is Some {
        ExpressionView { inputs: rendered(step.with, step.extra, plain), ..plain }
    } else {
        plain
    }
}

/// The inputs that the condition and the expressions of a step go by.
pub fn step_inputs(base: &StringMap, vars: &StringMap, step: &NativeStep, status: StepStatus) -> (r: StringMap)
    ensures
        r@ == step_context(base@, vars@, step@, status).inputs,
{
    let empty = StringMap::new();
    if step.uses.is_none() {
        return empty;
    }
    let plain = ExpressionContext {
        event: event_from_env(base),
        branch: branch_from_env(base),
        env: vars,
        matrix: &empty,
        inputs: &empty,
        success: status.success,
        previous_failed: status.previous_failed,
    };
    native_step_inputs(&step.with, &step.extra, &plain)
}

/// A script to be run.
#[derive(Debug)]
pub struct ShellPlan {
    pub shell: String,
    pub script: String,
    pub workdir: String,
    /// Whether the working tree is kept from changes, where it runs in a container.
    pub readonly: bool,
}

#[verifier::ext_equal]
pub struct ShellView {
    pub shell: Seq<char>,
    pub script: Seq<char>,
    pub workdir: Seq<char>,
    pub readonly: bool,
}

impl View for ShellPlan {
    type V = ShellView;

    open spec fn view(&self) -> ShellView {
        ShellView {
            shell: self.shell@,
            script: self.script@,
            workdir: self.workdir@,
            readonly: self.readonly,
        }
    }
}

/// What a step does.
#[derive(Debug)]
pub enum StepPlan {
    Shell(ShellPlan),
    Builtin(BuiltinPlan),
}

#[verifier::ext_equal]
pub enum StepPlanView {
    Shell(ShellView),
    Builtin(BuiltinView),
}

impl View for StepPlan {
    type V = StepPlanView;

    open spec fn view(&self) -> StepPlanView {
        match self {
            StepPlan::Shell(s) => StepPlanView::Shell(s@),
            StepPlan::Builtin(b) => StepPlanView::Builtin(b@),
        }
    }
}

/// The shell of a step: its own, else that of the workflow, else the default.
pub open spec fn step_shell(step: StepView, w: ResolvedView, standard: Seq<char>) -> Seq<char> {
    or_else(over(w.execution.shell, step.shell), standard)
}

/// The directory of a step: its own, else that of the workflow, else the root.
pub open spec fn step_dir(step: StepView, w: ResolvedView, root: Seq<char>) -> Seq<char> {
    workdir_of(root, over(w.execution.workspace, step.working_directory))
}

/// The inputs of a step with forwarded arguments under `args`, unless it has some.
pub open spec fn with_args(with: Map<Seq<char>, Seq<char>>, args: Option<Seq<Seq<char>>>) -> Map<Seq<char>, Seq<char>> {
    match args {
        Some(args) => if with.contains_key("args"@) {
            with
        } else {
            with.insert("args"@, join_of(args, " "@))
        },
        None => with,
    }
}

/// The script of a step with expressions replaced and forwarded arguments appended.
pub open spec fn step_script(run: Seq<char>, ctx: ExpressionView, args: Option<Seq<Seq<char>>>) -> Seq<char> {
    match args {
        Some(args) => script_with_args(interpolated(run, ctx), args),
        None => interpolated(run, ctx),
    }
}

/// What a step does that uses an action: a native workflow can use the built-in ones only.
/// The step brings its name, its shell and its directory.
pub open spec fn uses_plan(
    step: StepView,
    w: ResolvedView,
    ctx: ExpressionView,
    args: Option<Seq<Seq<char>>>,
    at: SettingView,
    standard_shell: Seq<char>,
) -> Result<StepPlanView, ErrorView> {
    match step.uses {
        None => Err(ErrorView::Message(w.path + " native action step is missing `use`"@)),
        Some(uses) => match builtin_step(
            uses,
            with_args(step.with, args),
            step.extra,
            step.run,
            ctx,
            SettingView {
                default_name: step_title(step),
                shell: step_shell(step, w, standard_shell),
                workdir: step_dir(step, w, at.root),
                ..at
            },
        ) {
            Err(e) => Err(e),
            Ok(Some(plan)) => Ok(StepPlanView::Builtin(plan)),
            Ok(None) => Err(
                ErrorView::Message(
                    w.path + " uses unsupported native action source `"@ + uses + "`"@,
                ),
            ),
        },
    }
}

/// What a step does.
pub open spec fn step_plan(
    step: StepView,
    w: ResolvedView,
    ctx: ExpressionView,
    args: Option<Seq<Seq<char>>>,
    at: SettingView,
    standard_shell: Seq<char>,
) -> Result<StepPlanView, ErrorView> {
    if step.uses is Some {
        uses_plan(step, w, ctx, args, at, standard_shell)
    } else {
        match step.run {
            Some(run) => Ok(
                StepPlanView::Shell(
                    ShellView {
                        shell: step_shell(step, w, standard_shell),
                        script: step_script(run, ctx, args),
                        workdir: step_dir(step, w, at.root),
                        readonly: or_else(over(w.container.readonly, step.readonly), false),
                    },
                ),
            ),
            None => Err(ErrorView::Message(w.path + " native step is missing `run` and `use`"@)),
        }
    }
}

/// The texts of an optional list.
pub open spec fn opt_list(v: Option<&[String]>) -> Option<Seq<Seq<char>>> {
    match v {
        Some(v) => Some(texts(v@)),
        None => None,
    }
}

fn find_step_shell<'a>(step: &'a NativeStep, resolved: &'a ResolvedWorkflow, standard: &'a str) -> (r: &'a str)
    ensures
        r@ == step_shell(step@, resolved@, standard@),
{
    match &step.shell {
        Some(shell) => shell.as_str(),
        None => match &resolved.execution.shell {
            Some(shell) => shell.as_str(),
            None => standard,
        },
    }
}

fn find_step_dir(step: &NativeStep, resolved: &ResolvedWorkflow, root: &str) -> (r: String)
    ensures
        r@ == step_dir(step@, resolved@, root@),
{
    let dir = match &step.working_directory {
        Some(dir) => Some(dir.as_str()),
        None => opt_str(&resolved.execution.workspace),
    };
    resolve_workdir(root, dir)
}

/// What a step does that uses an action.
pub fn run_native_uses_step(
    resolved: &ResolvedWorkflow,
    step: &NativeStep,
    ctx: &ExpressionContext,
    forwarded_args: Option<&[String]>,
    at: &BuiltinSetting,
    standard_shell: &str,
) -> (r: Result<StepPlan, CiError>)
    ensures
        outcome(r) == uses_plan(step@, resolved@, ctx@, opt_list(forwarded_args), at@, standard_shell@),
{
    let uses = match &step.uses {
        Some(uses) => uses.as_str(),
        None => return Err(
            message(cat2(resolved.path.as_str(), " native action step is missing `use`")),
        ),
    };
    let mut with = step.with.duplicate();
    if let Some(args) = forwarded_args {
        if !with.contains_key("args") {
            with.insert("args".to_owned(), join(args, " "));
        }
    }
    let workdir = find_step_dir(step, resolved, at.root);
    let inner = BuiltinSetting {
        default_name: step_name(step),
        root: at.root,
        recursive_checkout: at.recursive_checkout,
        quiet: at.quiet,
        branch: at.branch,
        shell: find_step_shell(step, resolved, standard_shell),
        workdir: workdir.as_str(),
    };
    match run_builtin_step(uses, &with, &step.extra, opt_str(&step.run), ctx, &inner) {
        Err(e) => Err(e),
        Ok(Some(plan)) => Ok(StepPlan::Builtin(plan)),
        Ok(None) => Err(
            message(
                cat4(
                    resolved.path.as_str(),
                    " uses unsupported native action source `",
                    uses,
                    "`",
                ),
            ),
        ),
    }
}

/// What a step does, once its condition holds.
pub fn plan_native_step(
    resolved: &ResolvedWorkflow,
    step: &NativeStep,
    ctx: &ExpressionContext,
    forwarded_args: Option<&[String]>,
    at: &BuiltinSetting,
    standard_shell: &str,
) -> (r: Result<StepPlan, CiError>)
    ensures
        outcome(r) == step_plan(step@, resolved@, ctx@, opt_list(forwarded_args), at@, standard_shell@),
{
    if step.uses.is_some() {
        return run_native_uses_step(resolved, step, ctx, forwarded_args, at, standard_shell);
    }
    let run = match &step.run {
        Some(run) => run.as_str(),
        None => return Err(
            message(cat2(resolved.path.as_str(), " native step is missing `run` and `use`")),
        ),
    };
    let plain = interpolate_expressions(run, ctx);
    let script = match forwarded_args {
        Some(args) => append_args_to_build_script(plain.as_str(), args),
        None => plain,
    };
    let readonly = match pick(step.readonly, resolved.container.readonly) {
        Some(value) => value,
        None => false,
    };
    Ok(
        StepPlan::Shell(
            ShellPlan {
                shell: find_step_shell(step, resolved, standard_shell).to_owned(),
                script,
                workdir: find_step_dir(step, resolved, at.root),
                readonly,
            },
        ),
    )
}

/// What is to be done with the next step of a workflow.
pub enum NextStep {
    /// The condition does not hold.
    Skip,
    Run(StepPlan),
}

/// What is to be done with a step, and what its condition and expressions go by.
pub open spec fn next_step(
    step: StepView,
    w: ResolvedView,
    ctx: ExpressionView,
    there: Seq<bool>,
    args: Option<Seq<Seq<char>>>,
    at: SettingView,
    standard_shell: Seq<char>,
) -> Result<Option<StepPlanView>, ErrorView> {
    if holds(effective_condition(step.if_condition), ctx, there) {
        match step_plan(step, w, ctx, args, at, standard_shell) {
            Ok(plan) => Ok(Some(plan)),
            Err(e) => Err(e),
        }
    } else {
        Ok(None)
    }
}

/// What is to be done, by its texts.
pub open spec fn next_outcome(r: Result<NextStep, CiError>) -> Result<Option<StepPlanView>, ErrorView> {
    match r {
        Ok(NextStep::Skip) => Ok(None),
        Ok(NextStep::Run(plan)) => Ok(Some(plan@)),
        Err(e) => Err(e@),
    }
}

/// The things whose existence decides whether a step runs, from left to right.
pub fn step_questions(run: &NativeRun, step: &NativeStep, base: &StringMap, vars: &StringMap) -> (r: Vec<Target>)
    ensures
        target_views(r@) == asked_about(
            step_context(base@, vars@, step@, run@.status()),
            targets_in(effective_condition(step@.if_condition)),
        ),
{
    let status = run.status();
    let matrix = StringMap::new();
    let inputs = step_inputs(base, vars, step, status);
    let ctx = ExpressionContext {
        event: event_from_env(base),
        branch: branch_from_env(base),
        env: vars,
        matrix: &matrix,
        inputs: &inputs,
        success: status.success,
        previous_failed: status.previous_failed,
    };
    assert(ctx@ =~= step_context(base@, vars@, step@, run@.status()));
    condition_targets(opt_str(&step.if_condition), &ctx)
}

/// One step of a native workflow: whether it runs and what it does. The variables are
/// those of [`step_env`]; `there` says of each thing that [`step_questions`] lists
/// whether it exists.
pub fn run_native_yaml(
    run: &NativeRun,
    resolved: &ResolvedWorkflow,
    step: &NativeStep,
    base: &StringMap,
    vars: &StringMap,
    there: &[bool],
    forwarded_args: Option<&[String]>,
    at: &BuiltinSetting,
    standard_shell: &str,
) -> (r: Result<NextStep, CiError>)
    requires
        there@.len() == targets_in(effective_condition(step@.if_condition)).len(),
    ensures
        next_outcome(r) == next_step(
            step@,
            resolved@,
            step_context(base@, vars@, step@, run@.status()),
            there@,
            opt_list(forwarded_args),
            at@,
            standard_shell@,
        ),
{
    let status = run.status();
    let matrix = StringMap::new();
    let inputs = step_inputs(base, vars, step, status);
    let ctx = ExpressionContext {
        event: event_from_env(base),
        branch: branch_from_env(base),
        env: vars,
        matrix: &matrix,
        inputs: &inputs,
        success: status.success,
        previous_failed: status.previous_failed,
    };
    assert(ctx@ =~= step_context(base@, vars@, step@, run@.status()));
    match evaluate_condition(opt_str(&step.if_condition), &ctx, there) {
        Some(true) => match plan_native_step(resolved, step, &ctx, forwarded_args, at, standard_shell) {
            Ok(plan) => Ok(NextStep::Run(plan)),
            Err(e) => Err(e),
        },
        _ => Ok(NextStep::Skip),
    }
}

/// The arguments that go to a step: those of the run, where it is the step that takes them.
pub fn forwarded_to<'a>(target: Option<usize>, index: usize, args: &'a [String]) -> (r: Option<&'a [String]>)
    ensures
        r == if target == Some(index) {
            Some(args)
        } else {
            None
        },
{
    match target {
        Some(t) => if t == index {
            Some(args)
        } else {
            None
        },
        None => None,
    }
}

/// The status that the first blocking step ends with; 0 where none blocks.
pub open spec fn first_block(ends: Seq<StepEnd>) -> i32
    decreases ends.len(),
{
    if ends.len() == 0 {
        0
    } else if first_block(ends.drop_last()) != 0 {
        first_block(ends.drop_last())
    } else if blocks(ends.last()) {
        ends.last().status->0
    } else {
        0
    }
}

/// A workflow ends with the status of the first step that failed and may not fail, and
/// well where there is none.
pub proof fn law_first_blocking_failure_decides(ends: Seq<StepEnd>)
    ensures
        state_after(ends).failure == first_block(ends),
        (state_after(ends).failure == 0) == (forall|i: int| 0 <= i < ends.len() ==> !blocks(#[trigger] ends[i])),
    decreases ends.len(),
{
    if ends.len() > 0 {
        let head = ends.drop_last();
        law_first_blocking_failure_decides(head);
        assert((forall|i: int| 0 <= i < ends.len() ==> !blocks(#[trigger] ends[i])) == ((forall|i: int|
            0 <= i < head.len() ==> !blocks(#[trigger] head[i])) && !blocks(ends.last()))) by {
            if forall|i: int| 0 <= i < ends.len() ==> !blocks(#[trigger] ends[i]) {
                assert forall|i: int| 0 <= i < head.len() implies !blocks(#[trigger] head[i]) by {
                    assert(head[i] == ends[i]);
                }
                assert(!blocks(ends[ends.len() - 1]));
            }
            if (forall|i: int| 0 <= i < head.len() ==> !blocks(#[trigger] head[i])) && !blocks(ends.last()) {
                assert forall|i: int| 0 <= i < ends.len() implies !blocks(#[trigger] ends[i]) by {
                    if i < head.len() {
                        assert(head[i] == ends[i]);
                    }
                }
            }
        }
    }
}

/// After a failure that may not be, no step runs any more that has no condition.
pub proof fn law_unconditional_steps_stop_after_a_failure(ends: Seq<StepEnd>, base: Map<Seq<char>, Seq<char>>, vars: Map<Seq<char>, Seq<char>>, step: StepView)
    requires
        step.if_condition is None,
        exists|i: int| 0 <= i < ends.len() && blocks(#[trigger] ends[i]),
    ensures
        !holds(
            effective_condition(step.if_condition),
            step_context(base, vars, step, state_after(ends).status()),
            Seq::empty(),
        ),
{
    law_first_blocking_failure_decides(ends);
}

/// A failure that may be lets a step recover: the next step under the condition of a
/// failure runs, and where it does well and nothing else blocks, the workflow ends well.
pub proof fn law_tolerated_failure_can_be_recovered(ends: Seq<StepEnd>, base: Map<Seq<char>, Seq<char>>, vars: Map<Seq<char>, Seq<char>>, step: StepView, code: i32)
    requires
        code != 0,
        forall|i: int| 0 <= i < ends.len() ==> !blocks(#[trigger] ends[i]),
    ensures
        ({
            let failed = ends.push(StepEnd { status: Some(code), continue_on_error: true });
            let recovered = failed.push(StepEnd { status: Some(0), continue_on_error: false });
            &&& holds(
                ConditionView::Failure,
                step_context(base, vars, step, state_after(failed).status()),
                Seq::empty(),
            )
            &&& state_after(recovered).failure == 0
            &&& state_after(recovered).status().success
        }),
{
    let failed = ends.push(StepEnd { status: Some(code), continue_on_error: true });
    let recovered = failed.push(StepEnd { status: Some(0), continue_on_error: false });
    law_first_blocking_failure_decides(ends);
    assert(failed.drop_last() =~= ends);
    assert(recovered.drop_last() =~= failed);
}

/// A variable of a step holds against one of the workflow, against one of the run; in a
/// container those of the container hold against all.
pub proof fn law_variables_of_a_native_step(
    base: Map<Seq<char>, Seq<char>>,
    w: ResolvedView,
    step: StepView,
    name: Seq<char>,
)
    ensures
        ({
            let vars = step_vars(base, w, step, false);
            let inside = step_vars(base, w, step, true);
            &&& step.env.contains_key(name) ==> vars[name] == step.env[name]
            &&& !step.env.contains_key(name) && w.env.contains_key(name) ==> vars[name] == w.env[name]
            &&& !step.env.contains_key(name) && !w.env.contains_key(name) && base.contains_key(name) ==> vars[name]
                == base[name]
            &&& vars.contains_key(name) == (step.env.contains_key(name) || w.env.contains_key(name) || base.contains_key(name))
            &&& w.container.env.contains_key(name) ==> inside[name] == w.container.env[name]
            &&& !w.container.env.contains_key(name) ==> inside.contains_key(name) == vars.contains_key(name) && (
            vars.contains_key(name) ==> inside[name] == vars[name])
        }),
{
}

/// The shell and the directory of a step are its own, else those of the workflow, else the
/// usual shell and the root.
pub proof fn law_shell_and_directory_of_a_native_step(step: StepView, w: ResolvedView, root: Seq<char>, standard: Seq<char>)
    ensures
        step.shell matches Some(s) ==> step_shell(step, w, standard) == s,
        step.shell is None && w.execution.shell is Some ==> step_shell(step, w, standard) == w.execution.shell->0,
        step.shell is None && w.execution.shell is None ==> step_shell(step, w, standard) == standard,
        step.working_directory matches Some(d) ==> step_dir(step, w, root) == joined(root, d),
        step.working_directory is None && w.execution.workspace is Some ==> step_dir(step, w, root) == joined(
            root,
            w.execution.workspace->0,
        ),
        step.working_directory is None && w.execution.workspace is None ==> step_dir(step, w, root) == root,
{
}

/// A step runs in the container of its workflow unless there is none or the step refuses it,
/// and goes by its name, else by the action that it uses.
pub proof fn law_where_a_step_runs(step: StepView)
    ensures
        !in_container(step, false),
        step.container is None ==> in_container(step, true),
        step.container matches Some(wanted) ==> in_container(step, true) == wanted,
        step.name matches Some(name) ==> step_title(step) == name,
        step.name is None && step.uses is Some ==> step_title(step) == step.uses->0,
        step.name is None && step.uses is None ==> step_title(step) == "run"@,
{
}

/// A step runs exactly where its condition holds, and then does what it says: its script with
/// expressions replaced, or its action.
pub proof fn law_a_step_does_what_it_says(
    step: StepView,
    w: ResolvedView,
    ctx: ExpressionView,
    there: Seq<bool>,
    args: Option<Seq<Seq<char>>>,
    at: SettingView,
    shell: Seq<char>,
)
    ensures
        ({
            let next = next_step(step, w, ctx, there, args, at, shell);
            let runs = holds(effective_condition(step.if_condition), ctx, there);
            &&& (next == Ok::<Option<StepPlanView>, ErrorView>(None)) == !runs
            &&& runs && step.uses is None && step.run is Some ==> (next matches Ok(Some(StepPlanView::Shell(plan)))
                && plan.shell == step_shell(step, w, shell) && plan.workdir == step_dir(step, w, at.root) && (args is None
                ==> plan.script == interpolated(step.run->0, ctx)) && (args matches Some(a) ==> plan.script
                == script_with_args(interpolated(step.run->0, ctx), a)) && plan.readonly == (if step.readonly is Some {
                step.readonly->0
            } else {
                w.container.readonly == Some(true)
            }))
            &&& runs && step.uses is None && step.run is None ==> next is Err
            &&& runs && step.uses is Some && builtin_used(step.uses->0) is None ==> next is Err
            &&& runs && step.uses is Some && next is Ok ==> next->Ok_0->0 is Builtin
        }),
{
}

/// Arguments that go to an action stand under `args`, unless it has some; other inputs stay.
pub proof fn law_arguments_of_an_action(with: Map<Seq<char>, Seq<char>>, args: Seq<Seq<char>>, name: Seq<char>)
    ensures
        with_args(with, None) == with,
        with.contains_key("args"@) ==> with_args(with, Some(args)) == with,
        !with.contains_key("args"@) ==> with_args(with, Some(args))["args"@] == join_of(args, " "@),
        name != "args"@ ==> with_args(with, Some(args)).contains_key(name) == with.contains_key(name),
        name != "args"@ && with.contains_key(name) ==> with_args(with, Some(args))[name] == with[name],
{
}

/// What a step sees of the run: a skipped step changes nothing, a step that fails is seen by
/// the next one, and one that does well clears that, but not a failure that may not be.
pub proof fn law_what_the_next_step_sees(ends: Seq<StepEnd>, code: i32, may_fail: bool)
    ensures
        ({
            let before = state_after(ends);
            let skipped = state_after(ends.push(StepEnd { status: None, continue_on_error: may_fail }));
            let after = state_after(ends.push(StepEnd { status: Some(code), continue_on_error: may_fail }));
            &&& skipped == before
            &&& after.status().previous_failed == (code != 0)
            &&& after.status().success == (code == 0 && before.failure == 0)
            &&& RunState::start().status().success && !RunState::start().status().previous_failed
        }),
{
    let s = StepEnd { status: None, continue_on_error: may_fail };
    let t = StepEnd { status: Some(code), continue_on_error: may_fail };
    assert(ends.push(s).drop_last() =~= ends);
    assert(ends.push(t).drop_last() =~= ends);
}

/// The conditions and expressions of a step see its variables and how the run stands; inputs
/// are there for a step that uses an action, and for no other.
pub proof fn law_what_a_step_sees(
    base: Map<Seq<char>, Seq<char>>,
    vars: Map<Seq<char>, Seq<char>>,
    step: StepView,
    status: StepStatus,
)
    ensures
        ({
            let ctx = step_context(base, vars, step, status);
            &&& ctx.env == vars
            &&& ctx.success == status.success && ctx.previous_failed == status.previous_failed
            &&& base.contains_key("CI_BRANCH"@) ==> ctx.branch == Some(base["CI_BRANCH"@])
            &&& !base.contains_key("CI_BRANCH"@) ==> ctx.branch is None
            &&& step.uses is None ==> ctx.inputs.dom() == Set::<Seq<char>>::empty()
            &&& step.uses is Some ==> ctx.inputs == rendered(
                step.with,
                step.extra,
                ExpressionView { inputs: Map::empty(), ..ctx },
            )
        }),
{
}

} // verus!
