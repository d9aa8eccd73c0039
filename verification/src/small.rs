//! The workflows of the plain front end: what counts as one, which of them run, and how.

use crate::config::{ContainerRuntime, or_else};
use crate::containers::{
    build_args, choose_runtime, container_build_args, container_run_args, run_args, runtime_choice,
    tag_text, workflow_tag,
};
use crate::depend::positions;
use crate::error::{CiError, ErrorView, outcome};
use crate::hooks::all_hook_names;
use crate::install::{own_hooks, refresh_managed_hooks};
use crate::maps::StringMap;
use crate::paths::{
    extension, extension_of, file_name, file_name_of, is_name, join_path, joined,
    law_join_appends_components, lemma_name_parts, naming, parts_of,
};
use crate::plain::{RunOptions, RunOptionsView};
use crate::repo::RepoInfo;
use crate::schema::lemma_within;
use crate::strings::{cat2, cat3, cat4, cat5, decimal, join, less_text, pad_right, same};
use crate::text::{
    decimal_of, has_text, join_of, law_text_order, lemma_take_push, lemma_texts_push, lower,
    occurs_at, padded, slices, text_less, texts,
};
use crate::workflow::{
    WorkflowKind, container_file, law_stems_and_extensions, name_of_workflow, workflow_name,
};
use crate::yamlish::{YamlStep, YamlStepView, YamlWorkflow, runs_on, workflow_matches_event};
use vstd::prelude::*;
use vstd::string::*;

verus! {

broadcast use {lemma_texts_push, lemma_take_push};

/// The kinds of workflows.
#[derive(Clone, Copy, Debug, PartialEq, Eq, Structural)]
pub enum SmallKind {
    Executable,
    Yaml,
    Container,
}

/// A workflow.
#[derive(Debug)]
pub struct SmallWorkflow {
    pub name: String,
    pub path: String,
    pub kind: SmallKind,
}

#[verifier::ext_equal]
pub struct SmallView {
    pub name: Seq<char>,
    pub path: Seq<char>,
    pub kind: SmallKind,
}

impl View for SmallWorkflow {
    type V = SmallView;

    open spec fn view(&self) -> SmallView {
        SmallView { name: self.name@, path: self.path@, kind: self.kind }
    }
}

/// Workflows by their texts.
pub open spec fn small_views(v: Seq<SmallWorkflow>) -> Seq<SmallView> {
    v.map_values(|w: SmallWorkflow| w@)
}

/// A file below the directory of the workflows.
#[derive(Debug)]
pub struct FoundFile {
    pub path: String,
    pub executable: bool,
}

/// The kind of workflow that a file is, where it is one.
pub open spec fn file_kind(path: Seq<char>, executable: bool) -> Option<SmallKind> {
    let name = or_else(file_name_of(path), Seq::empty());
    let ext = extension_of(name);
    if container_file(name) {
        Some(SmallKind::Container)
    } else if ext == "yml"@ || ext == "yaml"@ {
        Some(SmallKind::Yaml)
    } else if executable {
        Some(SmallKind::Executable)
    } else {
        None
    }
}

/// The same kind among all kinds of workflows.
pub open spec fn full_kind(kind: SmallKind) -> WorkflowKind {
    match kind {
        SmallKind::Executable => WorkflowKind::Executable,
        SmallKind::Yaml => WorkflowKind::NativeYaml,
        SmallKind::Container => WorkflowKind::Container,
    }
}

/// The workflows among files, as they stand.
pub open spec fn workflows_in(ci_dir: Seq<char>, files: Seq<FoundFile>) -> Seq<SmallView>
    decreases files.len(),
{
    if files.len() == 0 {
        Seq::empty()
    } else {
        let head = workflows_in(ci_dir, files.drop_last());
        let path = files.last().path@;
        match file_kind(path, files.last().executable) {
            Some(kind) => head.push(
                SmallView { name: name_of_workflow(ci_dir, path, full_kind(kind)), path, kind },
            ),
            None => head,
        }
    }
}

/// Where a workflow goes in a sorted list: behind everything that does not stand after it.
pub open spec fn name_slot(list: Seq<SmallView>, w: SmallView) -> int
    decreases list.len(),
{
    if list.len() == 0 || !text_less(w.name, list.last().name) {
        list.len() as int
    } else {
        name_slot(list.drop_last(), w)
    }
}

/// Workflows by their names; those of one name keep the order they had.
pub open spec fn by_name(ws: Seq<SmallView>) -> Seq<SmallView>
    decreases ws.len(),
{
    if ws.len() == 0 {
        ws
    } else {
        let head = by_name(ws.drop_last());
        head.insert(name_slot(head, ws.last()), ws.last())
    }
}

proof fn lemma_name_slot(list: Seq<SmallView>, w: SmallView)
    ensures
        0 <= name_slot(list, w) <= list.len(),
        name_slot(list, w) > 0 ==> !text_less(w.name, list[name_slot(list, w) - 1].name),
        forall|k: int| name_slot(list, w) <= k < list.len() ==> text_less(w.name, (#[trigger] list[k]).name),
    decreases list.len(),
{
    if list.len() > 0 && text_less(w.name, list.last().name) {
        lemma_name_slot(list.drop_last(), w);
        assert forall|k: int| name_slot(list, w) <= k < list.len() implies text_less(
            w.name,
            (#[trigger] list[k]).name,
        ) by {
            if k < list.len() - 1 {
                assert(list[k] == list.drop_last()[k]);
            }
        }
    }
}

/// Sorted workflows are the same ones, and none stands after one whose name is greater.
pub proof fn law_sorted_by_name(ws: Seq<SmallView>)
    ensures
        by_name(ws).to_multiset() == ws.to_multiset(),
        by_name(ws).len() == ws.len(),
        forall|i: int, j: int|
            0 <= i < j < ws.len() ==> !text_less((#[trigger] by_name(ws)[j]).name, (#[trigger] by_name(ws)[i]).name),
    decreases ws.len(),
{
    broadcast use vstd::seq_lib::group_to_multiset_ensures;

    if ws.len() > 0 {
        let t = ws.drop_last();
        let w = ws.last();
        law_sorted_by_name(t);
        let head = by_name(t);
        let at = name_slot(head, w);
        lemma_name_slot(head, w);
        let r = by_name(ws);
        assert(ws =~= t.push(w));
        assert(r.to_multiset() =~= ws.to_multiset());
        assert forall|i: int, j: int| 0 <= i < j < ws.len() implies !text_less(
            (#[trigger] r[j]).name,
            (#[trigger] r[i]).name,
        ) by {
            if j < at {
                assert(r[i] == head[i] && r[j] == head[j]);
            } else if i > at {
                assert(r[i] == head[i - 1] && r[j] == head[j - 1]);
            } else if j > at && i < at {
                assert(r[i] == head[i] && r[j] == head[j - 1]);
            } else if i == at {
                assert(r[j] == head[j - 1]);
                law_text_order(w.name, r[j].name, w.name);
            } else {
                assert(r[i] == head[i]);
                let last = head[at - 1];
                if i < at - 1 {
                    assert(!text_less(last.name, head[i].name));
                }
                law_text_order(head[i].name, last.name, last.name);
                law_text_order(w.name, head[i].name, last.name);
            }
        }
    }
}

fn kind_of_file(path: &str, executable: bool) -> (r: Option<SmallKind>)
    ensures
        r == file_kind(path@, executable),
{
    let name = match file_name(path) {
        Some(name) => name,
        None => {
            let none = String::new();
            assert(none@ =~= Seq::<char>::empty());
            none
        },
    };
    let ext = extension(name.as_str());
    if same(name.as_str(), "Containerfile") || same(name.as_str(), "Dockerfile") {
        Some(SmallKind::Container)
    } else if same(ext.as_str(), "yml") || same(ext.as_str(), "yaml") {
        Some(SmallKind::Yaml)
    } else if executable {
        Some(SmallKind::Executable)
    } else {
        None
    }
}

/// The workflows among the files below the directory of the workflows, by their names.
pub fn discover_workflows(ci_dir: &str, files: &[FoundFile]) -> (r: Vec<SmallWorkflow>)
    ensures
        small_views(r@) == by_name(workflows_in(ci_dir@, files@)),
{
    let mut out: Vec<SmallWorkflow> = Vec::new();
    let mut i: usize = 0;
    assert(small_views(out@) =~= by_name(workflows_in(ci_dir@, files@.take(0))));
    while i < files.len()
        invariant
            i <= files@.len(),
            small_views(out@) == by_name(workflows_in(ci_dir@, files@.take(i as int))),
        decreases files.len() - i,
    {
        assert(files@.take(i + 1).drop_last() =~= files@.take(i as int));
        let ghost found = workflows_in(ci_dir@, files@.take(i as int));
        let path = files[i].path.as_str();
        if let Some(kind) = kind_of_file(path, files[i].executable) {
            let full = match kind {
                SmallKind::Executable => WorkflowKind::Executable,
                SmallKind::Yaml => WorkflowKind::NativeYaml,
                SmallKind::Container => WorkflowKind::Container,
            };
            let w = SmallWorkflow { name: workflow_name(ci_dir, path, &full), path: path.to_owned(), kind };
            let ghost head = small_views(out@);
            let mut slot: usize = out.len();
            assert(head.take(slot as int) =~= head);
            while slot > 0 && less_text(w.name.as_str(), out[slot - 1].name.as_str())
                invariant
                    slot <= out@.len(),
                    head == small_views(out@),
                    name_slot(head, w@) == name_slot(head.take(slot as int), w@),
                decreases slot,
            {
                assert(head[slot - 1] == out@[slot - 1]@);
                assert(head.take(slot as int).drop_last() =~= head.take(slot - 1));
                slot -= 1;
            }
            assert(slot > 0 ==> head.take(slot as int).last() == out@[slot - 1]@);
            assert(name_slot(head, w@) == slot);
            out.insert(slot, w);
            assert(small_views(out@) =~= head.insert(slot as int, w@));
            assert(found.push(w@).drop_last() =~= found);
        }
        i += 1;
    }
    assert(files@.take(i as int) =~= files@);
    out
}

/// What there is to run: a workflow that was asked for, everything by hand, or what an
/// event runs. `on` holds what the file of a workflow says it runs on, where it has one.
pub open spec fn small_runs(w: SmallView, on: Option<Seq<Seq<char>>>, o: RunOptionsView) -> bool {
    match o.workflow {
        Some(name) => w.name == name,
        None => o.event == "manual"@ || runs_on(
            w.name,
            if w.kind == SmallKind::Yaml {
                on
            } else {
                None
            },
            o.event,
        ),
    }
}

/// What a file says it runs on.
pub open spec fn on_of(y: Option<YamlWorkflow>) -> Option<Seq<Seq<char>>> {
    match y {
        Some(y) => Some(y@.on),
        None => None,
    }
}

/// The positions of the workflows that run.
pub open spec fn small_selected(ws: Seq<SmallView>, files: Seq<Option<YamlWorkflow>>, o: RunOptionsView) -> Seq<int>
    decreases ws.len(),
{
    if ws.len() == 0 {
        Seq::empty()
    } else {
        let head = small_selected(ws.drop_last(), files, o);
        if small_runs(ws.last(), on_of(files[ws.len() - 1]), o) {
            head.push(ws.len() - 1)
        } else {
            head
        }
    }
}

/// What a request comes to: workflows to run, or a status where there are none, with what
/// is said about it.
#[derive(Debug)]
pub enum SmallPlan {
    Missing(i32, String),
    Nothing(String),
    Run(Vec<usize>),
}

/// Whether a plan is what a request comes to. A workflow that was asked for and is not
/// there gives the status of what is not found.
pub open spec fn small_plan_is(p: SmallPlan, chosen: Seq<int>, o: RunOptionsView) -> bool {
    if chosen.len() > 0 {
        p matches SmallPlan::Run(list) && positions(list@) == chosen
    } else {
        match o.workflow {
            Some(name) => p matches SmallPlan::Missing(code, text) && code == 127 && text@ == "ci: workflow not found: "@
                + name,
            None => p matches SmallPlan::Nothing(text) && text@ == "no workflows matched event `"@ + o.event + "`"@,
        }
    }
}

/// What a request comes to. `files` holds what was read of each workflow that has a file
/// of the small reader.
pub fn run_workflows(workflows: &[SmallWorkflow], files: &[Option<YamlWorkflow>], o: &RunOptions) -> (r: SmallPlan)
    requires
        files@.len() == workflows@.len(),
    ensures
        small_plan_is(r, small_selected(small_views(workflows@), files@, o@), o@),
{
    let ghost all = small_views(workflows@);
    let mut chosen: Vec<usize> = Vec::new();
    let mut i: usize = 0;
    assert(positions(chosen@) =~= small_selected(all.take(0), files@, o@));
    while i < workflows.len()
        invariant
            i <= workflows@.len(),
            files@.len() == workflows@.len(),
            all == small_views(workflows@),
            positions(chosen@) == small_selected(all.take(i as int), files@, o@),
        decreases workflows.len() - i,
    {
        assert(all.take(i + 1).drop_last() =~= all.take(i as int));
        assert(all.take(i + 1).last() == workflows@[i as int]@);
        let w = &workflows[i];
        let runs = match &o.workflow {
            Some(name) => same(w.name.as_str(), name.as_str()),
            None => {
                let file = if w.kind == SmallKind::Yaml {
                    files[i].as_ref()
                } else {
                    None
                };
                same(o.event.as_str(), "manual") || workflow_matches_event(
                    w.name.as_str(),
                    file,
                    o.event.as_str(),
                )
            },
        };
        assert(runs == small_runs(w@, on_of(files@[i as int]), o@));
        if runs {
            let ghost before = chosen@;
            chosen.push(i);
            assert(positions(chosen@) =~= positions(before).push(i as int));
        }
        i += 1;
    }
    assert(all.take(i as int) =~= all);
    assert(positions(chosen@).len() == chosen@.len());
    if chosen.len() > 0 {
        return SmallPlan::Run(chosen);
    }
    match &o.workflow {
        Some(name) => SmallPlan::Missing(127, cat2("ci: workflow not found: ", name.as_str())),
        None => SmallPlan::Nothing(cat3("no workflows matched event `", o.event.as_str(), "`")),
    }
}

impl SmallKind {
    /// The word for a kind in the list of workflows.
    pub open spec fn word(self) -> Seq<char> {
        match self {
            SmallKind::Executable => "executable"@,
            SmallKind::Yaml => "yaml"@,
            SmallKind::Container => "container"@,
        }
    }

    /// The name of a kind.
    pub open spec fn title(self) -> Seq<char> {
        match self {
            SmallKind::Executable => "Executable"@,
            SmallKind::Yaml => "Yaml"@,
            SmallKind::Container => "Container"@,
        }
    }
}

/// What a dry run says of a workflow.
pub fn small_dry_line(w: &SmallWorkflow) -> (r: String)
    ensures
        r@ == "would run "@ + w@.name + " ("@ + w@.kind.title() + ")"@,
{
    let kind = match w.kind {
        SmallKind::Executable => "Executable",
        SmallKind::Yaml => "Yaml",
        SmallKind::Container => "Container",
    };
    cat5("would run ", w.name.as_str(), " (", kind, ")")
}

/// A line of the list of workflows.
pub fn small_list_line(w: &SmallWorkflow) -> (r: String)
    ensures
        r@ == padded(w@.name, 28) + " "@ + padded(w@.kind.word(), 12) + " "@ + w@.path,
{
    let kind = match w.kind {
        SmallKind::Executable => "executable",
        SmallKind::Yaml => "yaml",
        SmallKind::Container => "container",
    };
    let name = pad_right(w.name.as_str(), 28);
    let kind = pad_right(kind, 12);
    cat5(name.as_str(), " ", kind.as_str(), " ", w.path.as_str())
}

/// The variables that a workflow runs with.
pub open spec fn small_vars(o: RunOptionsView, root: Seq<char>, git_dir: Seq<char>, w: SmallView) -> Map<
    Seq<char>,
    Seq<char>,
> {
    Map::<Seq<char>, Seq<char>>::empty().insert("CI"@, "true"@).insert("CI_TOOL"@, "ci"@).insert(
        "CI_EVENT"@,
        o.event,
    ).insert("CI_HOOK"@, o.event).insert("CI_REPO"@, root).insert("CI_GIT_DIR"@, git_dir).insert(
        "CI_WORKFLOW"@,
        w.name,
    ).insert("CI_WORKFLOW_PATH"@, w.path)
}

/// The variables that a workflow runs with.
pub fn small_env(o: &RunOptions, root: &str, git_dir: &str, w: &SmallWorkflow) -> (r: StringMap)
    ensures
        r@ == small_vars(o@, root@, git_dir@, w@),
{
    let mut vars = StringMap::new();
    vars.insert("CI".to_owned(), "true".to_owned());
    vars.insert("CI_TOOL".to_owned(), "ci".to_owned());
    vars.insert("CI_EVENT".to_owned(), o.event.clone());
    vars.insert("CI_HOOK".to_owned(), o.event.clone());
    vars.insert("CI_REPO".to_owned(), root.to_owned());
    vars.insert("CI_GIT_DIR".to_owned(), git_dir.to_owned());
    vars.insert("CI_WORKFLOW".to_owned(), w.name.clone());
    vars.insert("CI_WORKFLOW_PATH".to_owned(), w.path.clone());
    vars
}

/// The status that a program ended with; one that a signal ended counts as failed.
pub open spec fn ended_with(code: Option<i32>) -> i32 {
    or_else(code, 1)
}

/// The status that a program ended with.
pub fn exit_code(code: Option<i32>) -> (r: i32)
    ensures
        r == ended_with(code),
{
    match code {
        Some(code) => code,
        None => 1,
    }
}

/// The first failure among programs that ended; 0 where none failed.
pub open spec fn first_failure(ended: Seq<Option<i32>>) -> i32
    decreases ended.len(),
{
    if ended.len() == 0 {
        0
    } else if first_failure(ended.drop_last()) != 0 {
        first_failure(ended.drop_last())
    } else {
        ended_with(ended.last())
    }
}

/// The name that a step goes by.
pub open spec fn small_step_name(step: YamlStepView) -> Seq<char> {
    or_else(step.name, "run"@)
}

/// What is to be done next for a workflow out of a file.
#[derive(Debug)]
pub enum YamlNext {
    /// There are no steps: a warning, and the workflow ends well.
    NoSteps(String),
    /// A note, and a script to run.
    Step(String, String),
    /// The workflow ends with a status.
    End(i32),
}

#[verifier::ext_equal]
pub enum YamlNextView {
    NoSteps(Seq<char>),
    Step(Seq<char>, Seq<char>),
    End(i32),
}

impl View for YamlNext {
    type V = YamlNextView;

    open spec fn view(&self) -> YamlNextView {
        match self {
            YamlNext::NoSteps(text) => YamlNextView::NoSteps(text@),
            YamlNext::Step(title, script) => YamlNextView::Step(title@, script@),
            YamlNext::End(code) => YamlNextView::End(*code),
        }
    }
}

/// What is to be done after the first steps ended so: the first failure ends the
/// workflow, else the next step follows, as long as there is one.
pub open spec fn yaml_next(path: Seq<char>, steps: Seq<YamlStepView>, ended: Seq<Option<i32>>) -> YamlNextView {
    if steps.len() == 0 {
        YamlNextView::NoSteps(path + " has no steps"@)
    } else if first_failure(ended) != 0 || ended.len() >= steps.len() {
        YamlNextView::End(first_failure(ended))
    } else {
        let step = steps[ended.len() as int];
        YamlNextView::Step("--> "@ + small_step_name(step), step.run)
    }
}

/// What is to be done next for a workflow out of a file. `ended` holds how its first
/// steps ended.
pub fn run_yaml(workflow: &SmallWorkflow, yaml: &YamlWorkflow, ended: &[Option<i32>]) -> (r: YamlNext)
    ensures
        r@ == yaml_next(workflow@.path, yaml@.steps, ended@),
{
    if yaml.steps.is_empty() {
        return YamlNext::NoSteps(cat2(workflow.path.as_str(), " has no steps"));
    }
    let mut failure: i32 = 0;
    let mut i: usize = 0;
    while i < ended.len()
        invariant
            i <= ended@.len(),
            failure == first_failure(ended@.take(i as int)),
        decreases ended.len() - i,
    {
        assert(ended@.take(i + 1).drop_last() =~= ended@.take(i as int));
        if failure == 0 {
            failure = exit_code(ended[i]);
        }
        i += 1;
    }
    assert(ended@.take(i as int) =~= ended@);
    if failure != 0 || ended.len() >= yaml.steps.len() {
        return YamlNext::End(failure);
    }
    let step = &yaml.steps[ended.len()];
    assert(yaml@.steps[ended@.len() as int] == step@);
    let name = match &step.name {
        Some(name) => name.as_str(),
        None => "run",
    };
    YamlNext::Step(cat2("--> ", name), step.run.clone())
}

/// What is said of a step that could not be started.
pub fn step_not_started(step: &YamlStep, error: &str) -> (r: String)
    ensures
        r@ == "could not run step `"@ + small_step_name(step@) + "`: "@ + error@,
{
    let name = match &step.name {
        Some(name) => name.as_str(),
        None => "run",
    };
    cat4("could not run step `", name, "`: ", error)
}

/// A workflow out of a file ends with the first failure of its steps, and well exactly
/// where all of them ran and none failed.
pub proof fn law_the_first_failing_step_ends_the_workflow(
    path: Seq<char>,
    steps: Seq<YamlStepView>,
    ended: Seq<Option<i32>>,
)
    requires
        steps.len() > 0,
        ended.len() <= steps.len(),
    ensures
        (yaml_next(path, steps, ended) == YamlNextView::End(0)) == (ended.len() == steps.len() && forall|i: int|
            0 <= i < ended.len() ==> ended_with(#[trigger] ended[i]) == 0),
        forall|n: int|
            0 <= n < ended.len() && ended_with(#[trigger] ended[n]) != 0 && (forall|i: int|
                0 <= i < n ==> ended_with(#[trigger] ended[i]) == 0) ==> yaml_next(path, steps, ended)
                == YamlNextView::End(ended_with(ended[n])),
{
    lemma_no_failure(ended);
    assert forall|n: int|
        0 <= n < ended.len() && ended_with(#[trigger] ended[n]) != 0 && (forall|i: int|
            0 <= i < n ==> ended_with(#[trigger] ended[i]) == 0) implies yaml_next(path, steps, ended)
        == YamlNextView::End(ended_with(ended[n])) by {
        lemma_first_failure(ended, n);
    }
}

proof fn lemma_no_failure(ended: Seq<Option<i32>>)
    ensures
        (first_failure(ended) == 0) == (forall|i: int|
            0 <= i < ended.len() ==> ended_with(#[trigger] ended[i]) == 0),
    decreases ended.len(),
{
    if ended.len() > 0 {
        let head = ended.drop_last();
        lemma_no_failure(head);
        if first_failure(ended) == 0 {
            assert forall|i: int| 0 <= i < ended.len() implies ended_with(#[trigger] ended[i]) == 0 by {
                if i < head.len() {
                    assert(head[i] == ended[i]);
                }
            }
        } else if first_failure(head) != 0 {
            let i = choose|i: int| 0 <= i < head.len() && ended_with(#[trigger] head[i]) != 0;
            assert(ended[i] == head[i]);
        } else {
            assert(ended_with(ended[ended.len() - 1]) != 0);
        }
    }
}

proof fn lemma_first_failure(ended: Seq<Option<i32>>, n: int)
    requires
        0 <= n < ended.len(),
        ended_with(ended[n]) != 0,
        forall|i: int| 0 <= i < n ==> ended_with(#[trigger] ended[i]) == 0,
    ensures
        first_failure(ended) == ended_with(ended[n]),
    decreases ended.len(),
{
    let head = ended.drop_last();
    if n < head.len() {
        assert(head[n] == ended[n]);
        assert forall|i: int| 0 <= i < n implies ended_with(#[trigger] head[i]) == 0 by {
            assert(head[i] == ended[i]);
        }
        lemma_first_failure(head, n);
    } else {
        lemma_no_failure(head);
        assert forall|i: int| 0 <= i < head.len() implies ended_with(#[trigger] head[i]) == 0 by {
            assert(head[i] == ended[i]);
        }
    }
}

/// The commands of a container workflow.
#[derive(Debug)]
pub struct SmallContainer {
    pub runtime: String,
    pub tag: String,
    pub build_title: String,
    pub build: Vec<String>,
    pub run_title: String,
    pub run: Vec<String>,
}

#[verifier::ext_equal]
pub struct SmallContainerView {
    pub runtime: Seq<char>,
    pub tag: Seq<char>,
    pub build_title: Seq<char>,
    pub build: Seq<Seq<char>>,
    pub run_title: Seq<char>,
    pub run: Seq<Seq<char>>,
}

impl View for SmallContainer {
    type V = SmallContainerView;

    open spec fn view(&self) -> SmallContainerView {
        SmallContainerView {
            runtime: self.runtime@,
            tag: self.tag@,
            build_title: self.build_title@,
            build: texts(self.build@),
            run_title: self.run_title@,
            run: texts(self.run@),
        }
    }
}

/// The commands of a container workflow: an image is built out of the repository, then a
/// container of it runs over the working tree.
pub open spec fn small_container(
    runtime: ContainerRuntime,
    podman: bool,
    docker: bool,
    w: SmallView,
    root: Seq<char>,
    event: Seq<char>,
) -> Result<SmallContainerView, ErrorView> {
    let tag = "ci-"@ + tag_text(w.name);
    match runtime_choice(runtime, podman, docker) {
        Err(e) => Err(e),
        Ok(runtime) => Ok(
            SmallContainerView {
                runtime,
                tag,
                build_title: "--> build container with "@ + runtime,
                build: build_args(w.path, tag, root, None),
                run_title: "--> run container "@ + tag,
                run: run_args(event, w.name, root, tag),
            },
        ),
    }
}

/// The commands of a container workflow. `podman` and `docker` say what is there.
pub fn run_container(
    runtime: ContainerRuntime,
    podman: bool,
    docker: bool,
    w: &SmallWorkflow,
    root: &str,
    event: &str,
) -> (r: Result<SmallContainer, CiError>)
    ensures
        outcome(r) == small_container(runtime, podman, docker, w@, root@, event@),
{
    let runtime = match choose_runtime(runtime, podman, docker) {
        Ok(runtime) => runtime,
        Err(e) => return Err(e),
    };
    let tag = workflow_tag(w.name.as_str());
    let build = container_build_args(w.path.as_str(), tag.as_str(), root, None);
    let run = container_run_args(event, w.name.as_str(), root, tag.as_str());
    let build_title = cat2("--> build container with ", runtime.as_str());
    let run_title = cat2("--> run container ", tag.as_str());
    Ok(SmallContainer { runtime, tag, build_title, build, run_title, run })
}

/// The status that a container workflow ends with after the image was built, where it
/// ends: without an image nothing runs.
pub fn after_build(code: Option<i32>) -> (r: Option<i32>)
    ensures
        r == if ended_with(code) != 0 {
            Some(ended_with(code))
        } else {
            None
        },
{
    let status = exit_code(code);
    if status != 0 {
        Some(status)
    } else {
        None
    }
}

/// What there is around the tool.
#[derive(Debug)]
pub struct DoctorFacts {
    pub ci_dir_exists: bool,
    pub binary_exists: bool,
    /// Of each hook whether it is the tool's own.
    pub managed: Vec<bool>,
    pub podman: bool,
    pub docker: bool,
}

/// Where the plain front end keeps its program.
pub open spec fn small_binary(git_dir: Seq<char>) -> Seq<char> {
    joined(joined(git_dir, "ci"@), "ci"@)
}

/// What is found in a repository.
pub open spec fn doctor_report(repo: RepoInfo, workflows: nat, facts: DoctorFacts) -> Seq<Seq<char>> {
    let hooks = own_hooks(all_hook_names(), facts.managed@);
    seq![
        "Repository: "@ + repo.root@,
        "Git dir:    "@ + repo.git_dir@,
        "CI dir:     "@ + repo.ci_dir@,
        "Bare repo:  "@ + if repo.is_bare {
            "true"@
        } else {
            "false"@
        },
        ""@,
        if facts.ci_dir_exists {
            "OK   .ci directory exists"@
        } else {
            "WARN .ci directory does not exist"@
        },
        if workflows == 0 {
            "WARN no workflows found"@
        } else {
            "OK   found "@ + decimal_of(workflows) + " workflow(s)"@
        },
        if facts.binary_exists {
            "OK   ci binary installed at "@ + small_binary(repo.git_dir@)
        } else {
            "WARN ci binary is not installed into this repository"@
        },
        if hooks.len() == 0 {
            "WARN no ci-managed Git hooks installed"@
        } else {
            "OK   ci-managed hooks: "@ + join_of(hooks, ", "@)
        },
        if facts.podman {
            "OK   podman available"@
        } else if facts.docker {
            "OK   docker available"@
        } else {
            "WARN podman/docker not found; container workflows will not run"@
        },
    ]
}

/// What is found in a repository.
pub fn cmd_doctor(repo: &RepoInfo, workflows: usize, facts: &DoctorFacts) -> (r: Vec<String>)
    requires
        facts.managed@.len() == all_hook_names().len(),
    ensures
        texts(r@) == doctor_report(*repo, workflows as nat, *facts),
{
    let mut out: Vec<String> = Vec::new();
    out.push(cat2("Repository: ", repo.root.as_str()));
    out.push(cat2("Git dir:    ", repo.git_dir.as_str()));
    out.push(cat2("CI dir:     ", repo.ci_dir.as_str()));
    out.push(
        cat2(
            "Bare repo:  ",
            if repo.is_bare {
                "true"
            } else {
                "false"
            },
        ),
    );
    out.push("".to_owned());
    out.push(
        if facts.ci_dir_exists {
            "OK   .ci directory exists".to_owned()
        } else {
            "WARN .ci directory does not exist".to_owned()
        },
    );
    out.push(
        if workflows == 0 {
            "WARN no workflows found".to_owned()
        } else {
            let count = decimal(workflows as u64);
            cat3("OK   found ", count.as_str(), " workflow(s)")
        },
    );
    let dir = join_path(repo.git_dir.as_str(), "ci");
    let binary = join_path(dir.as_str(), "ci");
    out.push(
        if facts.binary_exists {
            cat2("OK   ci binary installed at ", binary.as_str())
        } else {
            "WARN ci binary is not installed into this repository".to_owned()
        },
    );
    let hooks = refresh_managed_hooks(facts.managed.as_slice());
    let names = own_texts(hooks.as_slice());
    assert(texts(names@).len() == names@.len());
    out.push(
        if names.is_empty() {
            "WARN no ci-managed Git hooks installed".to_owned()
        } else {
            let list = join(names.as_slice(), ", ");
            cat2("OK   ci-managed hooks: ", list.as_str())
        },
    );
    out.push(
        if facts.podman {
            "OK   podman available".to_owned()
        } else if facts.docker {
            "OK   docker available".to_owned()
        } else {
            "WARN podman/docker not found; container workflows will not run".to_owned()
        },
    );
    assert(texts(out@) =~= doctor_report(*repo, workflows as nat, *facts));
    out
}

fn own_texts(list: &[&str]) -> (r: Vec<String>)
    ensures
        texts(r@) == slices(list@),
{
    let mut out: Vec<String> = Vec::new();
    let ghost all = slices(list@);
    let mut i: usize = 0;
    assert(texts(out@) =~= all.take(0));
    while i < list.len()
        invariant
            i <= list@.len(),
            all == slices(list@),
            texts(out@) == all.take(i as int),
        decreases list.len() - i,
    {
        assert(all[i as int] == list@[i as int]@);
        out.push(list[i].to_owned());
        i += 1;
    }
    assert(all.take(i as int) =~= all);
    out
}

/// A file is a workflow by its name: a file that describes a container always is one, and so is one
/// with an extension of YAML; any other where it can be executed.
pub proof fn law_which_files_are_workflows(dir: Seq<char>, stem: Seq<char>, name: Seq<char>, executable: bool)
    requires
        dir.len() > 0,
        naming(name) && is_name(name) && !name.contains('/'),
        stem.len() > 0 && stem[0] != '.' && !stem.contains('/'),
    ensures
        file_kind(joined(dir, "Dockerfile"@), executable) == Some(SmallKind::Container),
        file_kind(joined(dir, "Containerfile"@), executable) == Some(SmallKind::Container),
        file_kind(joined(dir, stem + ".yml"@), executable) == Some(SmallKind::Yaml),
        file_kind(joined(dir, stem + ".yaml"@), executable) == Some(SmallKind::Yaml),
        !name.contains('.') && name != "Dockerfile"@ && name != "Containerfile"@ ==> file_kind(joined(dir, name), true)
            == Some(SmallKind::Executable),
        !name.contains('.') && name != "Dockerfile"@ && name != "Containerfile"@ ==> file_kind(joined(dir, name), false) is None,
{
    reveal_strlit("Dockerfile");
    reveal_strlit("Containerfile");
    reveal_strlit(".yml");
    reveal_strlit(".yaml");
    reveal_strlit("yml");
    reveal_strlit("yaml");
    reveal_strlit(".");
    reveal_strlit("..");
    reveal_strlit("/");
    assert("Dockerfile"@.len() != "."@.len() && "Dockerfile"@.len() != ".."@.len() && "Dockerfile"@.len() != "/"@.len());
    assert("Containerfile"@.len() != "."@.len() && "Containerfile"@.len() != ".."@.len() && "Containerfile"@.len()
        != "/"@.len());
    lemma_named_file(dir, "Dockerfile"@);
    lemma_named_file(dir, "Containerfile"@);
    lemma_named_file(dir, name);
    let a = stem + ".yml"@;
    let b = stem + ".yaml"@;
    assert(a[0] == stem[0] && b[0] == stem[0]);
    assert(a.len() > 4 && b.len() > 5);
    assert(!a.contains('/')) by {
        if a.contains('/') {
            let k = choose|k: int| 0 <= k < a.len() && a[k] == '/';
            if k < stem.len() {
                assert(stem[k] == '/');
            }
        }
    }
    assert(!b.contains('/')) by {
        if b.contains('/') {
            let k = choose|k: int| 0 <= k < b.len() && b[k] == '/';
            if k < stem.len() {
                assert(stem[k] == '/');
            }
        }
    }
    lemma_named_file(dir, a);
    lemma_named_file(dir, b);
    law_stems_and_extensions(stem, "yml"@);
    law_stems_and_extensions(stem, "yaml"@);
    assert(stem + "."@ + "yml"@ =~= a);
    assert(stem + "."@ + "yaml"@ =~= b);
    assert(a.last() == 'l' && a[a.len() - 4] == '.');
    assert(b.last() == 'l' && b[b.len() - 5] == '.');
    assert("Dockerfile"@.last() == 'e' && "Containerfile"@.last() == 'e');
    if !name.contains('.') {
        law_stems_and_extensions(stem, name);
        assert("yml"@.len() == 3 && "yaml"@.len() == 4);
    }
}

proof fn lemma_named_file(dir: Seq<char>, name: Seq<char>)
    requires
        dir.len() > 0,
        naming(name) && is_name(name) && !name.contains('/'),
    ensures
        file_name_of(joined(dir, name)) == Some(name),
{
    lemma_name_parts(name);
    law_join_appends_components(dir, name);
    assert((parts_of(dir) + seq![name]).last() == name);
}

/// A request by name runs just that workflow; by hand all of them run; and an event runs those that
/// are called after it or list it. Only files of YAML list events.
pub proof fn law_which_workflows_are_run(w: SmallView, on: Option<Seq<Seq<char>>>, o: RunOptionsView)
    ensures
        o.workflow matches Some(name) ==> small_runs(w, on, o) == (w.name == name),
        o.workflow is None && o.event == "manual"@ ==> small_runs(w, on, o),
        o.workflow is None && w.name == o.event ==> small_runs(w, on, o),
        o.workflow is None && w.kind is Yaml && on is Some && on->0.contains(o.event) ==> small_runs(w, on, o),
        o.workflow is None && o.event != "manual"@ && !(w.kind is Yaml) ==> small_runs(w, on, o) == (w.name == o.event || (
        "/"@ + o.event).is_suffix_of(w.name)),
        o.workflow is None && o.event != "manual"@ && w.name != o.event && !("/"@ + o.event).is_suffix_of(w.name) && (on is None
            || (!on->0.contains(o.event) && !on->0.contains("all"@))) ==> !small_runs(w, on, o),
{
}

/// Everything that is to run is selected, in order, and nothing else.
pub proof fn law_the_selection_is_complete(ws: Seq<SmallView>, files: Seq<Option<YamlWorkflow>>, o: RunOptionsView, i: int)
    ensures
        small_selected(ws, files, o).contains(i) <==> 0 <= i < ws.len() && small_runs(ws[i], on_of(files[i]), o),
        forall|a: int, b: int|
            0 <= a < b < small_selected(ws, files, o).len() ==> #[trigger] small_selected(ws, files, o)[a]
                < #[trigger] small_selected(ws, files, o)[b],
        forall|a: int|
            0 <= a < small_selected(ws, files, o).len() ==> 0 <= #[trigger] small_selected(ws, files, o)[a] < ws.len(),
    decreases ws.len(),
{
    if ws.len() > 0 {
        let less = ws.drop_last();
        let n = ws.len() - 1;
        let head = small_selected(less, files, o);
        let all = small_selected(ws, files, o);
        law_the_selection_is_complete(less, files, o, i);
        if 0 <= i < n {
            assert(less[i] == ws[i]);
            if head.contains(i) {
                let k = choose|k: int| 0 <= k < head.len() && head[k] == i;
                assert(all[k] == i);
            }
        }
        if all.contains(i) {
            let k = choose|k: int| 0 <= k < all.len() && all[k] == i;
            if k < head.len() {
                assert(head[k] == i);
            }
        }
        if i == n && small_runs(ws[n], on_of(files[n]), o) {
            assert(all[all.len() - 1] == n);
        }
    }
}

/// Where nothing is selected, a request by name has failed and an event has not.
pub proof fn law_when_nothing_is_selected(p: SmallPlan, chosen: Seq<int>, o: RunOptionsView)
    requires
        small_plan_is(p, chosen, o),
    ensures
        (p is Run) == (chosen.len() > 0),
        (p is Missing) == (chosen.len() == 0 && o.workflow is Some),
        p matches SmallPlan::Missing(code, text) ==> code == 127 && o.workflow->0.is_suffix_of(text@),
        p matches SmallPlan::Nothing(text) ==> has_text(text@, o.event),
{
    if let SmallPlan::Missing(code, text) = p {
        let name = o.workflow->0;
        assert(name =~= text@.subrange(text@.len() - name.len(), text@.len() as int));
    }
    if let SmallPlan::Nothing(text) = p {
        assert(o.event =~= o.event.subrange(0, o.event.len() as int));
        assert(occurs_at(o.event, o.event, 0));
        lemma_within("no workflows matched event `"@, o.event, "`"@, o.event);
    }
}

/// A workflow is told of the run: which event, which repository and which workflow it is.
pub proof fn law_what_a_workflow_is_told(o: RunOptionsView, root: Seq<char>, git_dir: Seq<char>, w: SmallView)
    ensures
        ({
            let vars = small_vars(o, root, git_dir, w);
            &&& vars["CI"@] == "true"@ && vars["CI_TOOL"@] == "ci"@
            &&& vars["CI_EVENT"@] == o.event && vars["CI_HOOK"@] == o.event
            &&& vars["CI_REPO"@] == root && vars["CI_GIT_DIR"@] == git_dir
            &&& vars["CI_WORKFLOW"@] == w.name && vars["CI_WORKFLOW_PATH"@] == w.path
        }),
{
    reveal_strlit("CI");
    reveal_strlit("CI_TOOL");
    reveal_strlit("CI_EVENT");
    reveal_strlit("CI_HOOK");
    reveal_strlit("CI_REPO");
    reveal_strlit("CI_GIT_DIR");
    reveal_strlit("CI_WORKFLOW");
    reveal_strlit("CI_WORKFLOW_PATH");
    assert("CI_TOOL"@.len() != "CI"@.len());
    assert("CI_EVENT"@.len() != "CI"@.len());
    assert("CI_EVENT"@.len() != "CI_TOOL"@.len());
    assert("CI_HOOK"@.len() != "CI"@.len());
    assert("CI_HOOK"@[3] != "CI_TOOL"@[3]);
    assert("CI_HOOK"@.len() != "CI_EVENT"@.len());
    assert("CI_REPO"@.len() != "CI"@.len());
    assert("CI_REPO"@[3] != "CI_TOOL"@[3]);
    assert("CI_REPO"@.len() != "CI_EVENT"@.len());
    assert("CI_REPO"@[3] != "CI_HOOK"@[3]);
    assert("CI_GIT_DIR"@.len() != "CI"@.len());
    assert("CI_GIT_DIR"@.len() != "CI_TOOL"@.len());
    assert("CI_GIT_DIR"@.len() != "CI_EVENT"@.len());
    assert("CI_GIT_DIR"@.len() != "CI_HOOK"@.len());
    assert("CI_GIT_DIR"@.len() != "CI_REPO"@.len());
    assert("CI_WORKFLOW"@.len() != "CI"@.len());
    assert("CI_WORKFLOW"@.len() != "CI_TOOL"@.len());
    assert("CI_WORKFLOW"@.len() != "CI_EVENT"@.len());
    assert("CI_WORKFLOW"@.len() != "CI_HOOK"@.len());
    assert("CI_WORKFLOW"@.len() != "CI_REPO"@.len());
    assert("CI_WORKFLOW"@.len() != "CI_GIT_DIR"@.len());
    assert("CI_WORKFLOW_PATH"@.len() != "CI"@.len());
    assert("CI_WORKFLOW_PATH"@.len() != "CI_TOOL"@.len());
    assert("CI_WORKFLOW_PATH"@.len() != "CI_EVENT"@.len());
    assert("CI_WORKFLOW_PATH"@.len() != "CI_HOOK"@.len());
    assert("CI_WORKFLOW_PATH"@.len() != "CI_REPO"@.len());
    assert("CI_WORKFLOW_PATH"@.len() != "CI_GIT_DIR"@.len());
    assert("CI_WORKFLOW_PATH"@.len() != "CI_WORKFLOW"@.len());
}

/// What ends with a status ends with that one, and what was ended from outside has failed.
pub proof fn law_how_a_program_ended(code: i32)
    ensures
        ended_with(Some(code)) == code,
        ended_with(None) != 0,
        small_step_name(YamlStepView { name: None, run: Seq::empty() }) == "run"@,
{
}

/// A container is built under the name of its workflow, from its file, and then the image of
/// that name is run, both with the runtime that was chosen.
pub proof fn law_what_is_built_is_run(
    runtime: ContainerRuntime,
    podman: bool,
    docker: bool,
    w: SmallView,
    root: Seq<char>,
    event: Seq<char>,
)
    ensures
        match small_container(runtime, podman, docker, w, root, event) {
            Ok(c) => {
                &&& runtime_choice(runtime, podman, docker) == Ok::<_, ErrorView>(c.runtime)
                &&& c.tag == "ci-"@ + tag_text(w.name)
                &&& c.build.contains(c.tag) && c.build.contains(w.path) && c.build.last() == root
                &&& c.run.last() == c.tag
                &&& c.run.contains("CI_EVENT="@ + event) && c.run.contains("CI_WORKFLOW="@ + w.name)
            },
            Err(_) => runtime_choice(runtime, podman, docker) is Err,
        },
{
    if let Ok(c) = small_container(runtime, podman, docker, w, root, event) {
        assert(c.build[2] == w.path);
        assert(c.build[4] == c.tag);
        assert(c.run[7] == "CI_EVENT="@ + event);
        assert(c.run[9] == "CI_WORKFLOW="@ + w.name);
    }
}

/// The report warns of what is not there, and of nothing else.
pub proof fn law_the_doctor_warns_of_what_is_missing(repo: RepoInfo, workflows: nat, facts: DoctorFacts)
    ensures
        ({
            let report = doctor_report(repo, workflows, facts);
            &&& report.len() == 10
            &&& report[0] == "Repository: "@ + repo.root@ && report[1] == "Git dir:    "@ + repo.git_dir@
            &&& "WARN "@.is_prefix_of(report[5]) == !facts.ci_dir_exists
            &&& "WARN "@.is_prefix_of(report[6]) == (workflows == 0)
            &&& "WARN "@.is_prefix_of(report[7]) == !facts.binary_exists
            &&& "WARN "@.is_prefix_of(report[8]) == (own_hooks(all_hook_names(), facts.managed@).len() == 0)
            &&& "WARN "@.is_prefix_of(report[9]) == !(facts.podman || facts.docker)
            &&& facts.podman ==> has_text(report[9], "podman"@)
            &&& !facts.podman && facts.docker ==> has_text(report[9], "docker"@)
        }),
{
    reveal_strlit("WARN ");
    reveal_strlit("OK   .ci directory exists");
    reveal_strlit("WARN .ci directory does not exist");
    reveal_strlit("WARN no workflows found");
    reveal_strlit("OK   found ");
    reveal_strlit("OK   ci binary installed at ");
    reveal_strlit("WARN ci binary is not installed into this repository");
    reveal_strlit("WARN no ci-managed Git hooks installed");
    reveal_strlit("OK   ci-managed hooks: ");
    reveal_strlit("OK   podman available");
    reveal_strlit("OK   docker available");
    reveal_strlit("WARN podman/docker not found; container workflows will not run");
    reveal_strlit("podman");
    reveal_strlit("docker");
    let report = doctor_report(repo, workflows, facts);
    let warn = "WARN "@;
    assert forall|k: int| 5 <= k < 10 implies (warn.is_prefix_of(#[trigger] report[k]) <==> report[k][0] == 'W') by {
        let l = report[k];
        if warn.is_prefix_of(l) {
            assert(warn[0] == l.subrange(0, 5)[0]);
        }
        if l[0] == 'W' {
            assert(warn =~= l.subrange(0, 5));
        }
    }
    assert("OK   podman available"@.subrange(5, 11) =~= "podman"@);
    assert(occurs_at("OK   podman available"@, "podman"@, 5));
    assert("OK   docker available"@.subrange(5, 11) =~= "docker"@);
    assert(occurs_at("OK   docker available"@, "docker"@, 5));
    assert(warn.is_prefix_of(report[5]) <==> report[5][0] == 'W');
    assert(warn.is_prefix_of(report[6]) <==> report[6][0] == 'W');
    assert(warn.is_prefix_of(report[7]) <==> report[7][0] == 'W');
    assert(warn.is_prefix_of(report[8]) <==> report[8][0] == 'W');
    assert(warn.is_prefix_of(report[9]) <==> report[9][0] == 'W');
}

/// A form goes by the same word as everywhere, and by that word with a capital where it is
/// a title.
pub proof fn law_forms_go_by_the_same_words(kind: SmallKind)
    ensures
        kind.word() == full_kind(kind).word(),
        lower(kind.title()) == kind.word(),
        'A' <= kind.title()[0] <= 'Z',
        full_kind(kind) is Executable == kind is Executable,
        full_kind(kind) is NativeYaml == kind is Yaml,
        full_kind(kind) is Container == kind is Container,
{
    reveal_strlit("executable");
    reveal_strlit("yaml");
    reveal_strlit("container");
    reveal_strlit("Executable");
    reveal_strlit("Yaml");
    reveal_strlit("Container");
    assert(lower("Executable"@) =~= "executable"@);
    assert(lower("Yaml"@) =~= "yaml"@);
    assert(lower("Container"@) =~= "container"@);
}

} // verus!
