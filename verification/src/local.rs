//! Actions that live in a directory: what their metadata says, and what running one does.

use crate::actions::ActionRunStep;
use crate::conditions::{
    ConditionView, ExpressionContext, ExpressionView, Target, asked_about, condition_targets,
    effective_condition, evaluate_condition, holds, interpolate_expressions, interpolated,
    target_views, targets_in,
};
use crate::config::or_else;
use crate::containers::{sanitize_tag, tag_text};
use crate::depend::Node;
use crate::environ::{resolve_workdir, workdir_of};
use crate::error::{CiError, ErrorView, message, outcome};
use crate::maps::{Duplicate, StringMap};
use crate::paths::{
    file_name, file_name_of, join_path, joined, law_join_appends_components, lemma_name_parts,
    parts_of,
};
use crate::steps::opt_outcome;
use crate::strings::{cat2, cat3, cat5, copy_list, copy_opt, decimal, opt_str, same, starts_with};
use crate::text::{decimal_of, lemma_take_push, lemma_texts_push, opt_text, texts};
use vstd::prelude::*;
use vstd::string::*;

verus! {

broadcast use {lemma_texts_push, lemma_take_push};

/// A step of an action as its metadata has it.
pub struct RawActionMetadataStep {
    pub name: Option<String>,
    pub if_condition: Option<String>,
    pub run: Option<String>,
    pub uses: Option<String>,
    pub shell: Option<String>,
    pub env: StringMap,
    pub working_directory: Option<String>,
    pub continue_on_error: bool,
}

/// How an action runs, as its metadata has it.
pub struct RawActionRuns {
    pub using: String,
    pub main: Option<String>,
    pub image: Option<String>,
    pub dockerfile: Option<String>,
    pub entrypoint: Option<String>,
    pub args: Option<Vec<String>>,
    pub steps: Vec<RawActionMetadataStep>,
}

/// A step of an action.
pub enum ActionMetadataStep {
    Run(ActionRunStep),
    Uses,
}

/// How an action runs.
pub enum ActionRuns {
    Composite(Vec<ActionMetadataStep>),
    Docker(DockerAction),
    Node(String),
}

/// An action that is a container: an image, or what it is built from.
pub struct DockerAction {
    pub image: Option<String>,
    pub dockerfile: Option<String>,
    pub entrypoint: Option<String>,
    pub args: Option<Vec<String>>,
}

#[verifier::ext_equal]
pub struct ScriptStepView {
    pub name: Seq<char>,
    pub run: Seq<char>,
    pub shell: Option<Seq<char>>,
    pub env: Map<Seq<char>, Seq<char>>,
    pub if_condition: Option<Seq<char>>,
    pub working_directory: Option<Seq<char>>,
    pub continue_on_error: bool,
    pub timeout_minutes: Option<u64>,
}

/// A script step by its texts.
pub open spec fn script_step(s: ActionRunStep) -> ScriptStepView {
    ScriptStepView {
        name: s.name@,
        run: s.run@,
        shell: opt_text(s.shell),
        env: s.env@,
        if_condition: opt_text(s.if_condition),
        working_directory: opt_text(s.working_directory),
        continue_on_error: s.continue_on_error,
        timeout_minutes: s.timeout_minutes,
    }
}

#[verifier::ext_equal]
pub enum MetadataStepView {
    Run(ScriptStepView),
    Uses,
}

impl View for ActionMetadataStep {
    type V = MetadataStepView;

    open spec fn view(&self) -> MetadataStepView {
        match self {
            ActionMetadataStep::Run(s) => MetadataStepView::Run(script_step(*s)),
            ActionMetadataStep::Uses => MetadataStepView::Uses,
        }
    }
}

#[verifier::ext_equal]
pub struct RawStepView {
    pub name: Option<Seq<char>>,
    pub if_condition: Option<Seq<char>>,
    pub run: Option<Seq<char>>,
    pub uses: Option<Seq<char>>,
    pub shell: Option<Seq<char>>,
    pub env: Map<Seq<char>, Seq<char>>,
    pub working_directory: Option<Seq<char>>,
    pub continue_on_error: bool,
}

impl View for RawActionMetadataStep {
    type V = RawStepView;

    open spec fn view(&self) -> RawStepView {
        RawStepView {
            name: opt_text(self.name),
            if_condition: opt_text(self.if_condition),
            run: opt_text(self.run),
            uses: opt_text(self.uses),
            shell: opt_text(self.shell),
            env: self.env@,
            working_directory: opt_text(self.working_directory),
            continue_on_error: self.continue_on_error,
        }
    }
}

/// Steps by their texts.
pub open spec fn raw_step_views(v: Seq<RawActionMetadataStep>) -> Seq<RawStepView> {
    v.map_values(|s: RawActionMetadataStep| s@)
}

/// Steps by their texts.
pub open spec fn metadata_step_views(v: Seq<ActionMetadataStep>) -> Seq<MetadataStepView> {
    v.map_values(|s: ActionMetadataStep| s@)
}

/// A list that may be there, by its texts.
pub open spec fn opt_texts(v: Option<Vec<String>>) -> Option<Seq<Seq<char>>> {
    match v {
        Some(v) => Some(texts(v@)),
        None => None,
    }
}

#[verifier::ext_equal]
pub struct DockerView {
    pub image: Option<Seq<char>>,
    pub dockerfile: Option<Seq<char>>,
    pub entrypoint: Option<Seq<char>>,
    pub args: Option<Seq<Seq<char>>>,
}

impl View for DockerAction {
    type V = DockerView;

    open spec fn view(&self) -> DockerView {
        DockerView {
            image: opt_text(self.image),
            dockerfile: opt_text(self.dockerfile),
            entrypoint: opt_text(self.entrypoint),
            args: opt_texts(self.args),
        }
    }
}

#[verifier::ext_equal]
pub struct RawRunsView {
    pub using: Seq<char>,
    pub main: Option<Seq<char>>,
    pub image: Option<Seq<char>>,
    pub dockerfile: Option<Seq<char>>,
    pub entrypoint: Option<Seq<char>>,
    pub args: Option<Seq<Seq<char>>>,
    pub steps: Seq<RawStepView>,
}

impl View for RawActionRuns {
    type V = RawRunsView;

    open spec fn view(&self) -> RawRunsView {
        RawRunsView {
            using: self.using@,
            main: opt_text(self.main),
            image: opt_text(self.image),
            dockerfile: opt_text(self.dockerfile),
            entrypoint: opt_text(self.entrypoint),
            args: opt_texts(self.args),
            steps: raw_step_views(self.steps@),
        }
    }
}

#[verifier::ext_equal]
pub enum RunsView {
    Composite(Seq<MetadataStepView>),
    Docker(DockerView),
    Node(Seq<char>),
}

impl View for ActionRuns {
    type V = RunsView;

    open spec fn view(&self) -> RunsView {
        match self {
            ActionRuns::Composite(steps) => RunsView::Composite(metadata_step_views(steps@)),
            ActionRuns::Docker(d) => RunsView::Docker(d@),
            ActionRuns::Node(main) => RunsView::Node(main@),
        }
    }
}

/// The file that holds the metadata of an action, out of those that are there.
pub open spec fn metadata_path(dir: Seq<char>, yml: bool, yaml: bool) -> Result<Seq<char>, ErrorView> {
    if yml {
        Ok(joined(dir, "action.yml"@))
    } else if yaml {
        Ok(joined(dir, "action.yaml"@))
    } else {
        Err(ErrorView::Message("no action.yml or action.yaml found in "@ + dir))
    }
}

/// The file that holds the metadata of an action: `yml` and `yaml` say whether
/// `action.yml` and `action.yaml` are there.
pub fn metadata_file(dir: &str, yml: bool, yaml: bool) -> (r: Result<String, CiError>)
    ensures
        outcome(r) == metadata_path(dir@, yml, yaml),
{
    if yml {
        Ok(join_path(dir, "action.yml"))
    } else if yaml {
        Ok(join_path(dir, "action.yaml"))
    } else {
        Err(message(cat2("no action.yml or action.yaml found in ", dir)))
    }
}

/// A step of an action: it either runs a script or uses another action. A script without
/// a name is named after its place.
pub open spec fn metadata_step(dir: Seq<char>, step: RawStepView, place: int) -> Result<MetadataStepView, ErrorView> {
    match (step.run, step.uses) {
        (Some(run), None) => Ok(
            MetadataStepView::Run(
                ScriptStepView {
                    name: or_else(step.name, "step-"@ + decimal_of(place as nat)),
                    run,
                    shell: step.shell,
                    env: step.env,
                    if_condition: step.if_condition,
                    working_directory: step.working_directory,
                    continue_on_error: step.continue_on_error,
                    timeout_minutes: None,
                },
            ),
        ),
        (None, Some(_)) => Ok(MetadataStepView::Uses),
        _ => Err(
            ErrorView::Message(
                "action "@ + dir + " has a composite step without exactly one of `run` or `uses`"@,
            ),
        ),
    }
}

/// The steps of an action, up to the first that is wrong.
pub open spec fn metadata_steps(dir: Seq<char>, steps: Seq<RawStepView>) -> Result<Seq<MetadataStepView>, ErrorView>
    decreases steps.len(),
{
    if steps.len() == 0 {
        Ok(Seq::empty())
    } else {
        match metadata_steps(dir, steps.drop_last()) {
            Err(e) => Err(e),
            Ok(before) => match metadata_step(dir, steps.last(), steps.len() as int) {
                Err(e) => Err(e),
                Ok(step) => Ok(before.push(step)),
            },
        }
    }
}

/// How an action runs. The steps are looked at whatever runs it.
pub open spec fn action_runs(dir: Seq<char>, raw: RawRunsView) -> Result<RunsView, ErrorView> {
    match metadata_steps(dir, raw.steps) {
        Err(e) => Err(e),
        Ok(steps) => if raw.using == "composite"@ {
            Ok(RunsView::Composite(steps))
        } else if raw.using == "docker"@ {
            Ok(
                RunsView::Docker(
                    DockerView {
                        image: raw.image,
                        dockerfile: raw.dockerfile,
                        entrypoint: raw.entrypoint,
                        args: raw.args,
                    },
                ),
            )
        } else if "node"@.is_prefix_of(raw.using) {
            match raw.main {
                Some(main) => Ok(RunsView::Node(main)),
                None => Err(ErrorView::Message("node action "@ + dir + " is missing runs.main"@)),
            }
        } else {
            Err(ErrorView::Message("action "@ + dir + " uses unsupported runner `"@ + raw.using + "`"@))
        },
    }
}

proof fn lemma_steps_error_stays(dir: Seq<char>, steps: Seq<RawStepView>, n: int)
    requires
        0 <= n <= steps.len(),
        metadata_steps(dir, steps.take(n)) is Err,
    ensures
        metadata_steps(dir, steps) == metadata_steps(dir, steps.take(n)),
    decreases steps.len() - n,
{
    if n == steps.len() {
        assert(steps.take(n) =~= steps);
    } else {
        assert(steps.take(n + 1).drop_last() =~= steps.take(n));
        lemma_steps_error_stays(dir, steps, n + 1);
    }
}

fn convert_step(dir: &str, step: &RawActionMetadataStep, place: usize) -> (r: Result<ActionMetadataStep, CiError>)
    ensures
        outcome(r) == metadata_step(dir@, step@, place as int),
{
    match (&step.run, &step.uses) {
        (Some(run), None) => {
            let name = match &step.name {
                Some(name) => name.clone(),
                None => {
                    let digits = decimal(place as u64);
                    cat2("step-", digits.as_str())
                },
            };
            Ok(
                ActionMetadataStep::Run(
                    ActionRunStep {
                        name,
                        run: run.clone(),
                        shell: copy_opt(&step.shell),
                        env: step.env.duplicate(),
                        if_condition: copy_opt(&step.if_condition),
                        working_directory: copy_opt(&step.working_directory),
                        continue_on_error: step.continue_on_error,
                        timeout_minutes: None,
                    },
                ),
            )
        },
        (None, Some(_)) => Ok(ActionMetadataStep::Uses),
        _ => Err(
            message(
                cat3(
                    "action ",
                    dir,
                    " has a composite step without exactly one of `run` or `uses`",
                ),
            ),
        ),
    }
}

/// How the action of a directory runs, from what its metadata says.
pub fn load_action_metadata(dir: &str, raw: &RawActionRuns) -> (r: Result<ActionRuns, CiError>)
    ensures
        outcome(r) == action_runs(dir@, raw@),
{
    let ghost all = raw@.steps;
    let mut steps: Vec<ActionMetadataStep> = Vec::new();
    let mut place: usize = 0;
    assert(metadata_step_views(steps@) =~= Seq::<MetadataStepView>::empty());
    assert(all.take(0) =~= Seq::<RawStepView>::empty());
    while place < raw.steps.len()
        invariant
            place <= raw.steps@.len(),
            all == raw_step_views(raw.steps@),
            metadata_steps(dir@, all.take(place as int)) == Ok::<_, ErrorView>(metadata_step_views(steps@)),
        decreases raw.steps.len() - place,
    {
        let step = &raw.steps[place];
        assert(all[place as int] == step@);
        place += 1;
        let ghost before = steps@;
        assert(all.take(place as int).drop_last() =~= all.take(place - 1));
        assert(all.take(place as int).last() == all[place - 1]);
        match convert_step(dir, step, place) {
            Ok(step) => {
                steps.push(step);
                assert(metadata_step_views(steps@) =~= metadata_step_views(before).push(step@));
            },
            Err(e) => {
                proof {
                    lemma_steps_error_stays(dir@, all, place as int);
                }
                return Err(e);
            },
        }
    }
    assert(all.take(place as int) =~= all);
    let using = raw.using.as_str();
    if same(using, "composite") {
        return Ok(ActionRuns::Composite(steps));
    }
    if same(using, "docker") {
        return Ok(
            ActionRuns::Docker(
                DockerAction {
                    image: copy_opt(&raw.image),
                    dockerfile: copy_opt(&raw.dockerfile),
                    entrypoint: copy_opt(&raw.entrypoint),
                    args: match &raw.args {
                        Some(args) => Some(copy_list(args.as_slice())),
                        None => None,
                    },
                },
            ),
        );
    }
    if starts_with(using, "node") {
        return match &raw.main {
            Some(main) => Ok(ActionRuns::Node(main.clone())),
            None => Err(message(cat3("node action ", dir, " is missing runs.main"))),
        };
    }
    Err(message(cat5("action ", dir, " uses unsupported runner `", using, "`")))
}

/// A script to run for a step of an action.
#[derive(Debug)]
pub struct CompositeShell {
    pub shell: String,
    pub script: String,
    pub workdir: String,
}

#[verifier::ext_equal]
pub struct CompositeShellView {
    pub shell: Seq<char>,
    pub script: Seq<char>,
    pub workdir: Seq<char>,
}

impl View for CompositeShell {
    type V = CompositeShellView;

    open spec fn view(&self) -> CompositeShellView {
        CompositeShellView { shell: self.shell@, script: self.script@, workdir: self.workdir@ }
    }
}

/// What a step of an action does: nothing where its condition does not hold. A step that
/// uses another action is refused.
pub open spec fn composite_step(
    dir: Seq<char>,
    step: MetadataStepView,
    ctx: ExpressionView,
    there: Seq<bool>,
    standard_shell: Seq<char>,
) -> Result<Option<CompositeShellView>, ErrorView> {
    match step {
        MetadataStepView::Uses => Err(
            ErrorView::Message(
                "composite action "@ + dir + " contains nested `uses`, which is not supported yet"@,
            ),
        ),
        MetadataStepView::Run(step) => if !holds(effective_condition(step.if_condition), ctx, there) {
            Ok(None)
        } else {
            Ok(
                Some(
                    CompositeShellView {
                        shell: or_else(step.shell, standard_shell),
                        script: interpolated(step.run, ctx),
                        workdir: workdir_of(dir, Some(or_else(step.working_directory, "."@))),
                    },
                ),
            )
        },
    }
}

/// The condition of a step of an action.
pub open spec fn metadata_condition(step: MetadataStepView) -> ConditionView {
    match step {
        MetadataStepView::Uses => ConditionView::Success,
        MetadataStepView::Run(step) => effective_condition(step.if_condition),
    }
}

/// The things whose existence decides whether a step of an action runs.
pub fn composite_questions(step: &ActionMetadataStep, ctx: &ExpressionContext) -> (r: Vec<Target>)
    ensures
        target_views(r@) == asked_about(ctx@, targets_in(metadata_condition(step@))),
{
    match step {
        ActionMetadataStep::Run(step) => condition_targets(opt_str(&step.if_condition), ctx),
        ActionMetadataStep::Uses => {
            let none: Vec<Target> = Vec::new();
            assert(target_views(none@) =~= asked_about(ctx@, targets_in(metadata_condition(step@))));
            none
        },
    }
}

/// What a step of an action does. A step that is skipped leaves the run of the action as
/// it is; the others are noted in it. `there` answers what [`composite_questions`] asks.
pub fn run_composite_step(
    dir: &str,
    step: &ActionMetadataStep,
    ctx: &ExpressionContext,
    there: &[bool],
    standard_shell: &str,
) -> (r: Result<Option<CompositeShell>, CiError>)
    requires
        there@.len() == targets_in(metadata_condition(step@)).len(),
    ensures
        opt_outcome(r) == composite_step(dir@, step@, ctx@, there@, standard_shell@),
{
    match step {
        ActionMetadataStep::Uses => Err(
            message(
                cat3(
                    "composite action ",
                    dir,
                    " contains nested `uses`, which is not supported yet",
                ),
            ),
        ),
        ActionMetadataStep::Run(step) => {
            match evaluate_condition(opt_str(&step.if_condition), ctx, there) {
                Some(true) => {},
                _ => return Ok(None),
            }
            let shell = match &step.shell {
                Some(shell) => shell.as_str(),
                None => standard_shell,
            };
            let place = match &step.working_directory {
                Some(place) => place.as_str(),
                None => ".",
            };
            Ok(
                Some(
                    CompositeShell {
                        shell: shell.to_owned(),
                        script: interpolate_expressions(step.run.as_str(), ctx),
                        workdir: resolve_workdir(dir, Some(place)),
                    },
                ),
            )
        },
    }
}

/// What running an action comes to.
#[derive(Debug)]
pub enum LocalPlan {
    /// Run its steps in turn.
    Steps,
    /// Build an image out of a file, then run it.
    BuildAndRun(ImageBuild, ContainerRun),
    /// Run a container.
    Container(ContainerRun),
    /// Run a script of Node on this machine.
    NodeHost(String),
    /// Run a shell script in the image of Node.
    NodeContainer(String),
}

/// An image to build.
#[derive(Debug)]
pub struct ImageBuild {
    pub file: String,
    pub tag: String,
}

/// A container to run.
#[derive(Debug)]
pub struct ContainerRun {
    pub image: String,
    pub entrypoint: Option<String>,
    pub args: Vec<String>,
}

#[verifier::ext_equal]
pub struct ImageBuildView {
    pub file: Seq<char>,
    pub tag: Seq<char>,
}

#[verifier::ext_equal]
pub struct ContainerRunView {
    pub image: Seq<char>,
    pub entrypoint: Option<Seq<char>>,
    pub args: Seq<Seq<char>>,
}

#[verifier::ext_equal]
pub enum LocalPlanView {
    Steps,
    BuildAndRun(ImageBuildView, ContainerRunView),
    Container(ContainerRunView),
    NodeHost(Seq<char>),
    NodeContainer(Seq<char>),
}

impl View for ImageBuild {
    type V = ImageBuildView;

    open spec fn view(&self) -> ImageBuildView {
        ImageBuildView { file: self.file@, tag: self.tag@ }
    }
}

impl View for ContainerRun {
    type V = ContainerRunView;

    open spec fn view(&self) -> ContainerRunView {
        ContainerRunView {
            image: self.image@,
            entrypoint: opt_text(self.entrypoint),
            args: texts(self.args@),
        }
    }
}

impl View for LocalPlan {
    type V = LocalPlanView;

    open spec fn view(&self) -> LocalPlanView {
        match self {
            LocalPlan::Steps => LocalPlanView::Steps,
            LocalPlan::BuildAndRun(b, c) => LocalPlanView::BuildAndRun(b@, c@),
            LocalPlan::Container(c) => LocalPlanView::Container(c@),
            LocalPlan::NodeHost(p) => LocalPlanView::NodeHost(p@),
            LocalPlan::NodeContainer(s) => LocalPlanView::NodeContainer(s@),
        }
    }
}

/// The arguments that were given, or none.
pub open spec fn given_args(args: Option<Seq<Seq<char>>>) -> Seq<Seq<char>> {
    match args {
        Some(args) => args,
        None => Seq::empty(),
    }
}

/// What running an action comes to. Containers need a runtime; Node is taken from this
/// machine where it is there.
pub open spec fn local_plan(dir: Seq<char>, runs: RunsView, has_backend: bool, has_node: bool) -> Result<
    LocalPlanView,
    ErrorView,
> {
    match runs {
        RunsView::Composite(_) => Ok(LocalPlanView::Steps),
        RunsView::Docker(d) => if !has_backend {
            Err(ErrorView::Message("docker actions require a container runtime"@))
        } else {
            match d.image {
                Some(image) => Ok(
                    LocalPlanView::Container(
                        ContainerRunView { image, entrypoint: d.entrypoint, args: given_args(d.args) },
                    ),
                ),
                None => {
                    let tag = "ci-action-"@ + tag_text(or_else(file_name_of(dir), "action"@));
                    Ok(
                        LocalPlanView::BuildAndRun(
                            ImageBuildView {
                                file: joined(dir, or_else(d.dockerfile, "Dockerfile"@)),
                                tag,
                            },
                            ContainerRunView {
                                image: tag,
                                entrypoint: d.entrypoint,
                                args: given_args(d.args),
                            },
                        ),
                    )
                },
            }
        },
        RunsView::Node(main) => {
            let path = joined(dir, main);
            if has_node {
                Ok(LocalPlanView::NodeHost(path))
            } else if !has_backend {
                Err(ErrorView::Message("js actions require node or a container runtime"@))
            } else {
                Ok(LocalPlanView::NodeContainer("node "@ + or_else(file_name_of(path), "index.js"@)))
            }
        },
    }
}

/// What running the action of a directory comes to.
pub fn run_local_action(dir: &str, runs: &ActionRuns, has_backend: bool, has_node: bool) -> (r: Result<
    LocalPlan,
    CiError,
>)
    ensures
        outcome(r) == local_plan(dir@, runs@, has_backend, has_node),
{
    match runs {
        ActionRuns::Composite(_) => Ok(LocalPlan::Steps),
        ActionRuns::Docker(d) => {
            if !has_backend {
                return Err(message("docker actions require a container runtime".to_owned()));
            }
            let args = match &d.args {
                Some(args) => copy_list(args.as_slice()),
                None => Vec::new(),
            };
            assert(texts(args@) =~= given_args(opt_texts(d.args)));
            let entrypoint = copy_opt(&d.entrypoint);
            match &d.image {
                Some(image) => Ok(
                    LocalPlan::Container(ContainerRun { image: image.clone(), entrypoint, args }),
                ),
                None => {
                    let file = match &d.dockerfile {
                        Some(file) => join_path(dir, file.as_str()),
                        None => join_path(dir, "Dockerfile"),
                    };
                    let name = match file_name(dir) {
                        Some(name) => sanitize_tag(name.as_str()),
                        None => sanitize_tag("action"),
                    };
                    let tag = cat2("ci-action-", name.as_str());
                    Ok(
                        LocalPlan::BuildAndRun(
                            ImageBuild { file, tag: tag.clone() },
                            ContainerRun { image: tag, entrypoint, args },
                        ),
                    )
                },
            }
        },
        ActionRuns::Node(main) => {
            let path = join_path(dir, main.as_str());
            if has_node {
                return Ok(LocalPlan::NodeHost(path));
            }
            if !has_backend {
                return Err(message("js actions require node or a container runtime".to_owned()));
            }
            let script = match file_name(path.as_str()) {
                Some(name) => cat2("node ", name.as_str()),
                None => cat2("node ", "index.js"),
            };
            Ok(LocalPlan::NodeContainer(script))
        },
    }
}

/// Every step of an action is kept in its place, and one that runs a script keeps what it
/// says; a step without a name goes by its place, counted from one. A step that both runs and
/// uses, or does neither, makes the action unusable.
pub proof fn law_steps_of_an_action(dir: Seq<char>, steps: Seq<RawStepView>, i: int)
    requires
        0 <= i < steps.len(),
    ensures
        (steps[i].run is Some) == (steps[i].uses is Some) ==> metadata_steps(dir, steps) is Err,
        metadata_steps(dir, steps) matches Ok(made) ==> made.len() == steps.len() && (made[i] is Uses) == (steps[i].uses is Some)
            && (made[i] matches MetadataStepView::Run(step) ==> Some(step.run) == steps[i].run && step.shell == steps[i].shell
            && step.env == steps[i].env && step.if_condition == steps[i].if_condition && step.working_directory
            == steps[i].working_directory && step.continue_on_error == steps[i].continue_on_error && (steps[i].name is Some
            ==> step.name == steps[i].name->0) && (steps[i].name is None ==> step.name == "step-"@ + decimal_of(
            (i + 1) as nat,
        ))),
    decreases steps.len(),
{
    let head = steps.drop_last();
    if i < steps.len() - 1 {
        assert(head[i] == steps[i]);
        law_steps_of_an_action(dir, head, i);
    } else if let Ok(made) = metadata_steps(dir, head) {
        if head.len() > 0 {
            law_steps_of_an_action(dir, head, 0);
        }
    }
}

/// What an action runs goes by `using`: `composite` its steps, `docker` a container, and
/// a word that begins with `node` its script, which it has to name. Any other word is refused.
pub proof fn law_what_an_action_runs(dir: Seq<char>, raw: RawRunsView, version: Seq<char>)
    requires
        metadata_steps(dir, raw.steps) is Ok,
    ensures
        ({
            let runs = action_runs(dir, raw);
            &&& raw.using == "composite"@ ==> runs == Ok::<_, ErrorView>(RunsView::Composite(metadata_steps(dir, raw.steps)->Ok_0))
            &&& raw.using == "docker"@ ==> (runs matches Ok(RunsView::Docker(d)) && d.image == raw.image && d.dockerfile
                == raw.dockerfile && d.entrypoint == raw.entrypoint && d.args == raw.args)
            &&& raw.using == "node"@ + version && raw.main is Some ==> runs == Ok::<_, ErrorView>(RunsView::Node(raw.main->0))
            &&& raw.using == "node"@ + version && raw.main is None ==> runs is Err
            &&& raw.using != "composite"@ && raw.using != "docker"@ && !"node"@.is_prefix_of(raw.using) ==> runs is Err
        }),
{
    reveal_strlit("composite");
    reveal_strlit("docker");
    reveal_strlit("node");
    assert("composite"@.len() != "docker"@.len());
    let n = "node"@ + version;
    assert("node"@ =~= n.subrange(0, 4));
    assert(n[0] == 'n');
    assert("composite"@[0] == 'c');
    assert("docker"@[0] == 'd');
}

/// The file of an action is `action.yml`, else `action.yaml`, in its directory.
pub proof fn law_the_file_of_an_action(dir: Seq<char>, yml: bool, yaml: bool)
    requires
        dir.len() > 0,
    ensures
        (metadata_path(dir, yml, yaml) is Ok) == (yml || yaml),
        yml ==> parts_of(metadata_path(dir, yml, yaml)->Ok_0) == parts_of(dir).push("action.yml"@),
        !yml && yaml ==> parts_of(metadata_path(dir, yml, yaml)->Ok_0) == parts_of(dir).push("action.yaml"@),
{
    reveal_strlit("action.yml");
    reveal_strlit("action.yaml");
    reveal_strlit(".");
    assert("action.yml"@.len() != "."@.len());
    assert("action.yaml"@.len() != "."@.len());
    lemma_name_parts("action.yml"@);
    lemma_name_parts("action.yaml"@);
    law_join_appends_components(dir, "action.yml"@);
    law_join_appends_components(dir, "action.yaml"@);
    assert(parts_of(dir) + seq!["action.yml"@] =~= parts_of(dir).push("action.yml"@));
    assert(parts_of(dir) + seq!["action.yaml"@] =~= parts_of(dir).push("action.yaml"@));
}

/// How an action is run: a container needs a runtime, an image that is not named is built
/// first and is then the one that runs, and a script of Node runs on this machine where Node is
/// there.
pub proof fn law_how_an_action_is_run(dir: Seq<char>, runs: RunsView, has_backend: bool, has_node: bool)
    ensures
        ({
            let plan = local_plan(dir, runs, has_backend, has_node);
            &&& runs is Composite ==> plan == Ok::<_, ErrorView>(LocalPlanView::Steps)
            &&& runs is Docker ==> (plan is Ok) == has_backend
            &&& runs is Node ==> (plan is Ok) == (has_node || has_backend)
            &&& runs is Node && has_node ==> plan == Ok::<_, ErrorView>(LocalPlanView::NodeHost(joined(dir, runs->Node_0)))
            &&& runs is Node && !has_node && has_backend ==> plan->Ok_0 is NodeContainer
            &&& plan matches Ok(LocalPlanView::Container(run)) ==> runs is Docker && Some(run.image) == runs->Docker_0.image
                && run.entrypoint == runs->Docker_0.entrypoint && (runs->Docker_0.args is Some ==> run.args
                == runs->Docker_0.args->0) && (runs->Docker_0.args is None ==> run.args.len() == 0)
            &&& plan matches Ok(LocalPlanView::BuildAndRun(build, run)) ==> runs is Docker && runs->Docker_0.image is None
                && run.image == build.tag && run.entrypoint == runs->Docker_0.entrypoint && (runs->Docker_0.dockerfile is Some
                ==> build.file == joined(dir, runs->Docker_0.dockerfile->0)) && (runs->Docker_0.dockerfile is None
                ==> build.file == joined(dir, "Dockerfile"@)) && (runs->Docker_0.args is Some ==> run.args
                == runs->Docker_0.args->0)
        }),
{
}

/// A step of an action runs where its condition holds, in the shell and the directory that
/// it names, else in the usual shell; a step that uses another action is refused.
pub proof fn law_a_step_of_an_action(
    dir: Seq<char>,
    step: MetadataStepView,
    ctx: ExpressionView,
    there: Seq<bool>,
    shell: Seq<char>,
)
    ensures
        step is Uses ==> composite_step(dir, step, ctx, there, shell) is Err,
        step matches MetadataStepView::Run(s) ==> match composite_step(dir, step, ctx, there, shell) {
            Ok(None) => !holds(metadata_condition(step), ctx, there),
            Ok(Some(run)) => {
                &&& holds(metadata_condition(step), ctx, there)
                &&& run.script == interpolated(s.run, ctx)
                &&& s.shell is Some ==> run.shell == s.shell->0
                &&& s.shell is None ==> run.shell == shell
                &&& s.working_directory is Some ==> run.workdir == joined(dir, s.working_directory->0)
                &&& s.working_directory is None ==> run.workdir == joined(dir, "."@)
            },
            Err(_) => false,
        },
{
}

} // verus!
