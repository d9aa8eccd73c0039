//! Workflows: how they are told apart, named, ordered and made ready to run.

use crate::actions::{ActionsProvider, ActionsWorkflow};
use crate::config::{
    ArchFilter, ArtifactConfig, BranchConfig, ContainerConfig, ContainerType, EventFilter,
    ExecutionConfig, OverrideView, WorkflowOverride, or_else, over,
};
use crate::error::{CiError, ErrorView, message};
use crate::maps::{Duplicate, NameMap, StringMap};
use crate::paths::{
    components, extension, extension_of, file_name, file_name_of, file_stem, is_name, join_path,
    joined, last_index, law_join_appends_components, law_path_order, lemma_name_parts, less_path,
    naming, parts_less, parts_of, stem_of,
};
use crate::strings::{
    cat4, decimal, head_before, join, less_text, same, to_lower, trim, trim_end_char,
    trim_start_char,
};
use crate::text::{
    before_first, decimal_of, first_index, join_of, law_text_order, lemma_take_push,
    lemma_texts_push, lemma_trimmed_whole, lower, opt_text, strip_leading, strip_trailing,
    text_less, texts, trimmed,
};
use crate::yaml::{YamlValue, stringified_map, stringify_yaml_map};
use vstd::prelude::*;
use vstd::string::*;

verus! {

broadcast use {lemma_texts_push, lemma_take_push};

/// The form that a workflow is written in.
#[derive(Clone, Copy, Debug, PartialEq, Eq, Structural)]
pub enum WorkflowKind {
    Executable,
    NativeYaml,
    Container,
    GitHubActions,
    GiteaActions,
}

/// The runner that a workflow was written for.
#[derive(Clone, Copy, Debug, PartialEq, Eq, Structural)]
pub enum WorkflowProvider {
    Native,
    GitHubActions,
    GiteaActions,
}

/// A workflow.
pub struct Workflow {
    pub name: String,
    pub path: String,
    pub kind: WorkflowKind,
    pub provider: WorkflowProvider,
    pub source: WorkflowSource,
}

/// What a workflow consists of.
pub enum WorkflowSource {
    Executable(ExecutableWorkflow),
    NativeYaml(NativeWorkflow),
    Container(ContainerWorkflow),
    Actions(ActionsWorkflow),
}

/// A workflow that is a program.
pub struct ExecutableWorkflow {
    pub metadata: WorkflowOverride,
}

/// A workflow of steps. The workflows that it needs run before it.
pub struct NativeWorkflow {
    pub metadata: WorkflowOverride,
    pub needs: Vec<String>,
    pub steps: Vec<NativeStep>,
}

/// A workflow that is a container.
pub struct ContainerWorkflow {
    pub metadata: WorkflowOverride,
}

/// A step of a workflow.
pub struct NativeStep {
    pub name: Option<String>,
    pub run: Option<String>,
    pub uses: Option<String>,
    pub container: Option<bool>,
    pub with: StringMap,
    pub extra: StringMap,
    pub shell: Option<String>,
    pub env: StringMap,
    pub if_condition: Option<String>,
    pub working_directory: Option<String>,
    pub continue_on_error: bool,
    pub timeout_minutes: Option<u64>,
    pub readonly: Option<bool>,
}

/// A step as it stands in a file: the action that it uses may be under `use` or
/// `uses`, and values may be of any YAML kind.
pub struct RawNativeStep {
    pub name: Option<String>,
    pub run: Option<String>,
    pub use_value: Option<String>,
    pub uses: Option<String>,
    pub container: Option<bool>,
    pub shell: Option<String>,
    pub env: NameMap<YamlValue>,
    pub with: NameMap<YamlValue>,
    pub extra: NameMap<YamlValue>,
    pub if_condition: Option<String>,
    pub working_directory: Option<String>,
    pub continue_on_error: bool,
    pub timeout_minutes: Option<u64>,
    pub readonly: Option<bool>,
}

#[verifier::ext_equal]
pub struct StepView {
    pub name: Option<Seq<char>>,
    pub run: Option<Seq<char>>,
    pub uses: Option<Seq<char>>,
    pub container: Option<bool>,
    pub with: Map<Seq<char>, Seq<char>>,
    pub extra: Map<Seq<char>, Seq<char>>,
    pub shell: Option<Seq<char>>,
    pub env: Map<Seq<char>, Seq<char>>,
    pub if_condition: Option<Seq<char>>,
    pub working_directory: Option<Seq<char>>,
    pub continue_on_error: bool,
    pub timeout_minutes: Option<u64>,
    pub readonly: Option<bool>,
}

impl View for NativeStep {
    type V = StepView;

    open spec fn view(&self) -> StepView {
        StepView {
            name: opt_text(self.name),
            run: opt_text(self.run),
            uses: opt_text(self.uses),
            container: self.container,
            with: self.with@,
            extra: self.extra@,
            shell: opt_text(self.shell),
            env: self.env@,
            if_condition: opt_text(self.if_condition),
            working_directory: opt_text(self.working_directory),
            continue_on_error: self.continue_on_error,
            timeout_minutes: self.timeout_minutes,
            readonly: self.readonly,
        }
    }
}

impl View for RawNativeStep {
    type V = StepView;

    /// The step that a raw step stands for.
    open spec fn view(&self) -> StepView {
        StepView {
            name: opt_text(self.name),
            run: opt_text(self.run),
            uses: over(opt_text(self.uses), opt_text(self.use_value)),
            container: self.container,
            with: stringified_map(self.with@),
            extra: stringified_map(self.extra@),
            shell: opt_text(self.shell),
            env: stringified_map(self.env@),
            if_condition: opt_text(self.if_condition),
            working_directory: opt_text(self.working_directory),
            continue_on_error: self.continue_on_error,
            timeout_minutes: self.timeout_minutes,
            readonly: self.readonly,
        }
    }
}

/// Whether an action may stand beside an inline script: only `clean` may.
pub open spec fn inline_action(uses: Seq<char>) -> bool {
    let name = lower(trimmed(before_first(uses, '@')));
    name == "clean"@ || name == "ci/clean"@
}

/// Whether an action may stand beside an inline script.
pub fn is_native_inline_action_builtin(uses: &str) -> (r: bool)
    ensures
        r == inline_action(uses@),
{
    let name = to_lower(trim(head_before(uses, '@')));
    same(name.as_str(), "clean") || same(name.as_str(), "ci/clean")
}

/// Whether a step says what to do in exactly one way: a script or an action, or an
/// action that takes a script.
pub open spec fn step_is_valid(step: StepView) -> bool {
    (step.run is Some && step.uses is Some && inline_action(step.uses->0)) || (step.run is Some) != (
    step.uses is Some)
}

/// The place of a step in messages.
pub open spec fn step_place(path: Seq<char>, index: nat) -> Seq<char> {
    path + " step "@ + decimal_of(index + 1)
}

impl NativeStep {
    /// The step, where it says what to do in exactly one way.
    pub fn validate(self, workflow_path: &str, index: usize) -> (r: Result<Self, CiError>)
        requires
            index < usize::MAX,
        ensures
            step_is_valid(self@) ==> r is Ok && r->Ok_0 == self,
            !step_is_valid(self@) ==> r is Err && r->Err_0@ == ErrorView::Message(
                step_place(workflow_path@, index as nat) + " must define exactly one of `run` or `use`"@,
            ),
    {
        let inline = match &self.uses {
            Some(uses) => self.run.is_some() && is_native_inline_action_builtin(uses.as_str()),
            None => false,
        };
        if inline || self.run.is_some() != self.uses.is_some() {
            return Ok(self);
        }
        let number = decimal((index + 1) as u64);
        Err(
            message(
                cat4(
                    workflow_path,
                    " step ",
                    number.as_str(),
                    " must define exactly one of `run` or `use`",
                ),
            ),
        )
    }
}

impl RawNativeStep {
    /// The step that a raw step stands for: it names its action once, and says what to
    /// do in exactly one way.
    pub fn into_step(self, workflow_path: &str, index: usize) -> (r: Result<NativeStep, CiError>)
        requires
            index < usize::MAX,
        ensures
            match r {
                Ok(step) => step@ == self@ && step_is_valid(self@) && !(self.use_value is Some && self.uses is Some),
                Err(e) => e@ == if self.use_value is Some && self.uses is Some {
                    ErrorView::Message(
                        step_place(workflow_path@, index as nat) + " must define only one of `use` or `uses`"@,
                    )
                } else {
                    ErrorView::Message(
                        step_place(workflow_path@, index as nat)
                            + " must define exactly one of `run` or `use`"@,
                    )
                } && ((self.use_value is Some && self.uses is Some) || !step_is_valid(self@)),
            },
    {
        if self.use_value.is_some() && self.uses.is_some() {
            let number = decimal((index + 1) as u64);
            return Err(
                message(
                    cat4(
                        workflow_path,
                        " step ",
                        number.as_str(),
                        " must define only one of `use` or `uses`",
                    ),
                ),
            );
        }
        let ghost raw = self@;
        let uses = match self.use_value {
            Some(value) => Some(value),
            None => self.uses,
        };
        let step = NativeStep {
            name: self.name,
            run: self.run,
            uses,
            container: self.container,
            with: stringify_yaml_map(&self.with),
            extra: stringify_yaml_map(&self.extra),
            shell: self.shell,
            env: stringify_yaml_map(&self.env),
            if_condition: self.if_condition,
            working_directory: self.working_directory,
            continue_on_error: self.continue_on_error,
            timeout_minutes: self.timeout_minutes,
            readonly: self.readonly,
        };
        assert(step@ =~= raw);
        step.validate(workflow_path, index)
    }
}

/// A workflow file.
pub struct NativeWorkflowFile {
    pub name: Option<String>,
    pub defaults: WorkflowOverride,
    pub on: EventFilter,
    pub needs: EventFilter,
    pub tech_stack: Option<ContainerType>,
    pub arch: ArchFilter,
    pub branches: BranchConfig,
    pub artifacts: ArtifactConfig,
    pub execution: ExecutionConfig,
    pub container: ContainerConfig,
    pub env: StringMap,
    pub steps: Vec<RawNativeStep>,
}

impl NativeWorkflowFile {
    /// The settings that stand directly in the file.
    pub open spec fn local(&self) -> OverrideView {
        OverrideView {
            on: self.on@,
            tech_stack: self.tech_stack,
            arch: self.arch@,
            branches: self.branches@,
            artifacts: self.artifacts@,
            execution: self.execution@,
            container: self.container@,
            env: self.env@,
        }
    }

    /// The settings of the workflow: those that stand directly in the file over its
    /// defaults.
    pub fn metadata(&self) -> (r: WorkflowOverride)
        ensures
            r@ == self.defaults@.under(self.local()),
    {
        let local = WorkflowOverride {
            on: self.on.duplicate(),
            tech_stack: self.tech_stack,
            arch: self.arch.duplicate(),
            branches: self.branches.duplicate(),
            artifacts: self.artifacts.duplicate(),
            execution: self.execution.duplicate(),
            container: self.container.duplicate(),
            env: self.env.duplicate(),
        };
        assert(local@ =~= self.local());
        self.defaults.merge(&local)
    }
}

/// The events that an event stands for: itself, and the event of hosted runners that
/// is like it.
pub open spec fn canonical_event_names(event: Seq<char>) -> Seq<Seq<char>> {
    if event == "manual"@ {
        seq![event, "workflow_dispatch"@]
    } else if event == "pre-push"@ || event == "pre-receive"@ || event == "post-receive"@ || event
        == "update"@ {
        seq![event, "push"@]
    } else {
        seq![event]
    }
}

/// The events that an event stands for.
pub fn canonical_events(event: &str) -> (r: Vec<String>)
    ensures
        texts(r@) == canonical_event_names(event@),
{
    let mut out: Vec<String> = Vec::new();
    out.push(event.to_owned());
    if same(event, "manual") {
        out.push("workflow_dispatch".to_owned());
    } else if same(event, "pre-push") || same(event, "pre-receive") || same(event, "post-receive")
        || same(event, "update") {
        out.push("push".to_owned());
    }
    assert(texts(out@) =~= canonical_event_names(event@));
    out
}

impl WorkflowProvider {
    pub open spec fn word(self) -> Seq<char> {
        match self {
            WorkflowProvider::Native => "native"@,
            WorkflowProvider::GitHubActions => "github-actions"@,
            WorkflowProvider::GiteaActions => "gitea-actions"@,
        }
    }
}

impl WorkflowKind {
    pub open spec fn word(self) -> Seq<char> {
        match self {
            WorkflowKind::Executable => "executable"@,
            WorkflowKind::NativeYaml => "yaml"@,
            WorkflowKind::Container => "container"@,
            WorkflowKind::GitHubActions => "actions"@,
            WorkflowKind::GiteaActions => "actions"@,
        }
    }
}

/// The word for the runner that a workflow was written for.
pub fn provider_name(provider: &WorkflowProvider) -> (r: &'static str)
    ensures
        r@ == provider.word(),
{
    match provider {
        WorkflowProvider::Native => "native",
        WorkflowProvider::GitHubActions => "github-actions",
        WorkflowProvider::GiteaActions => "gitea-actions",
    }
}

/// The word for the form of a workflow.
pub fn kind_name(kind: &WorkflowKind) -> (r: &'static str)
    ensures
        r@ == kind.word(),
{
    match kind {
        WorkflowKind::Executable => "executable",
        WorkflowKind::NativeYaml => "yaml",
        WorkflowKind::Container => "container",
        WorkflowKind::GitHubActions => "actions",
        WorkflowKind::GiteaActions => "actions",
    }
}

/// The form and the runner of an action workflow.
pub fn actions_kind(provider: ActionsProvider) -> (r: (WorkflowKind, WorkflowProvider))
    ensures
        r == match provider {
            ActionsProvider::GitHub => (WorkflowKind::GitHubActions, WorkflowProvider::GitHubActions),
            ActionsProvider::Gitea => (WorkflowKind::GiteaActions, WorkflowProvider::GiteaActions),
        },
{
    match provider {
        ActionsProvider::GitHub => (WorkflowKind::GitHubActions, WorkflowProvider::GitHubActions),
        ActionsProvider::Gitea => (WorkflowKind::GiteaActions, WorkflowProvider::GiteaActions),
    }
}

/// A file that describes the directory it stands in.
pub open spec fn directory_file(name: Seq<char>) -> bool {
    name == "workflow.yml"@ || name == "workflow.yaml"@
}

/// A file that describes a container.
pub open spec fn container_file(name: Seq<char>) -> bool {
    name == "Containerfile"@ || name == "Dockerfile"@
}

/// A path as a name: its components with slashes between them.
pub open spec fn name_from_parts(parts: Seq<Seq<char>>) -> Seq<char> {
    join_of(parts, "/"@)
}

/// The components of `path` below `base`; all of them where it is not below.
pub open spec fn parts_below(base: Seq<char>, path: Seq<char>) -> Seq<Seq<char>> {
    let b = parts_of(base);
    let p = parts_of(path);
    if b.is_prefix_of(p) {
        p.skip(b.len() as int)
    } else {
        p
    }
}

/// Components without the last one.
pub open spec fn without_last<T>(parts: Seq<T>) -> Seq<T> {
    if parts.len() == 0 {
        parts
    } else {
        parts.drop_last()
    }
}

/// The components with the file name replaced. A dot is no component but at the front.
pub open spec fn with_name(parts: Seq<Seq<char>>, name: Seq<char>) -> Seq<Seq<char>> {
    let head = if parts.len() > 0 && is_name(parts.last()) {
        parts.drop_last()
    } else {
        parts
    };
    if name == "."@ && head.len() > 0 {
        head
    } else {
        head.push(name)
    }
}

/// The stem of the file that a path names.
pub open spec fn path_stem(path: Seq<char>) -> Seq<char> {
    match file_name_of(path) {
        Some(name) => stem_of(name),
        None => "workflow"@,
    }
}

/// The name of a workflow, by its place below the directory of the workflows: a
/// container and a file that describes its directory go by the directory, everything
/// else by the path without the extension.
pub open spec fn name_of_workflow(base: Seq<char>, path: Seq<char>, kind: WorkflowKind) -> Seq<char> {
    let below = parts_below(base, path);
    let dir = without_last(below);
    let stem = path_stem(path);
    let file = match file_name_of(path) {
        Some(name) => name,
        None => stem,
    };
    let raw = if kind is Container {
        if dir.len() == 0 {
            "container"@
        } else {
            name_from_parts(dir)
        }
    } else if kind is NativeYaml && directory_file(file) && dir.len() > 0 {
        name_from_parts(dir)
    } else {
        name_from_parts(with_name(below, stem))
    };
    strip_trailing(strip_leading(raw, '/'), '/')
}

/// The components of `path` below `base`.
fn components_below(base: &str, path: &str) -> (r: Vec<String>)
    ensures
        texts(r@) == parts_below(base@, path@),
{
    let b = components(base);
    let mut p = components(path);
    let ghost bs = texts(b@);
    let ghost ps = texts(p@);
    if b.len() > p.len() {
        return p;
    }
    let mut i: usize = 0;
    while i < b.len()
        invariant
            i <= b@.len() <= p@.len(),
            bs == texts(b@),
            ps == texts(p@),
            bs == parts_of(base@),
            ps == parts_of(path@),
            forall|j: int| 0 <= j < i ==> bs[j] == ps[j],
        decreases b.len() - i,
    {
        assert(bs[i as int] == b@[i as int]@ && ps[i as int] == p@[i as int]@);
        if !same(b[i].as_str(), p[i].as_str()) {
            assert(!bs.is_prefix_of(ps)) by {
                if bs.is_prefix_of(ps) {
                    assert(bs[i as int] == ps.subrange(0, bs.len() as int)[i as int]);
                }
            }
            return p;
        }
        i += 1;
    }
    assert(bs =~= ps.subrange(0, bs.len() as int));
    let rest = p.split_off(b.len());
    assert(texts(rest@) =~= ps.skip(bs.len() as int));
    rest
}

/// A path as a name.
pub fn path_to_name(parts: &[String]) -> (r: String)
    ensures
        r@ == name_from_parts(texts(parts@)),
{
    join(parts, "/")
}

/// The name of a workflow, by its place below the directory of the workflows.
pub fn workflow_name(base: &str, path: &str, kind: &WorkflowKind) -> (r: String)
    ensures
        r@ == name_of_workflow(base@, path@, *kind),
{
    let mut below = components_below(base, path);
    let ghost all = texts(below@);
    let file = file_name(path);
    let stem = match &file {
        Some(name) => file_stem(name.as_str()),
        None => "workflow".to_owned(),
    };
    let file_text = match file {
        Some(name) => name,
        None => stem.clone(),
    };
    let has_dir = below.len() > 1;
    let by_dir = match kind {
        WorkflowKind::Container => true,
        WorkflowKind::NativeYaml => (same(file_text.as_str(), "workflow.yml") || same(
            file_text.as_str(),
            "workflow.yaml",
        )) && has_dir,
        _ => false,
    };
    assert(has_dir == (without_last(all).len() > 0));
    let raw = if by_dir && has_dir {
        below.pop();
        assert(texts(below@) =~= without_last(all));
        path_to_name(below.as_slice())
    } else if by_dir {
        "container".to_owned()
    } else {
        let n: usize = below.len();
        if n > 0 && !same(below[n - 1].as_str(), "/") && !same(below[n - 1].as_str(), ".") && !same(
            below[n - 1].as_str(),
            "..",
        ) {
            assert(all.last() == below@[n - 1]@);
            below.pop();
            assert(texts(below@) =~= all.drop_last());
        } else if n > 0 {
            assert(all.last() == below@[n - 1]@);
        }
        if !(same(stem.as_str(), ".") && below.len() > 0) {
            below.push(stem);
        }
        assert(texts(below@) =~= with_name(all, path_stem(path@)));
        path_to_name(below.as_slice())
    };
    trim_end_char(trim_start_char(raw.as_str(), '/'), '/').to_owned()
}

/// The form of a workflow that a file in the directory of the workflows is, if it is one:
/// the configuration files are none, nor is a file that describes its directory where
/// something else there can run.
pub open spec fn native_file_kind(
    ci_dir: Seq<char>,
    path: Seq<char>,
    executable: bool,
    other_runnables: bool,
) -> Option<WorkflowKind> {
    let file = or_else(file_name_of(path), Seq::empty());
    let ext = extension_of(file);
    if parts_of(path) == parts_of(joined(ci_dir, "config.yml"@)) || parts_of(path) == parts_of(
        joined(ci_dir, "config.yaml"@),
    ) {
        None
    } else if directory_file(file) && other_runnables {
        None
    } else if container_file(file) {
        Some(WorkflowKind::Container)
    } else if ext == "yml"@ || ext == "yaml"@ {
        Some(WorkflowKind::NativeYaml)
    } else if executable {
        Some(WorkflowKind::Executable)
    } else {
        None
    }
}

/// Whether two paths have the same components.
pub fn same_path(a: &str, b: &str) -> (r: bool)
    ensures
        r == (parts_of(a@) == parts_of(b@)),
{
    let x = components(a);
    let y = components(b);
    same_lists(x.as_slice(), y.as_slice())
}

/// Whether two lists of strings are equal.
pub fn same_lists(a: &[String], b: &[String]) -> (r: bool)
    ensures
        r == (texts(a@) == texts(b@)),
{
    if a.len() != b.len() {
        assert(texts(a@).len() != texts(b@).len());
        return false;
    }
    let mut i: usize = 0;
    while i < a.len()
        invariant
            i <= a@.len(),
            a@.len() == b@.len(),
            forall|j: int| 0 <= j < i ==> a@[j]@ == b@[j]@,
        decreases a.len() - i,
    {
        if !same(a[i].as_str(), b[i].as_str()) {
            assert(texts(a@)[i as int] != texts(b@)[i as int]);
            return false;
        }
        i += 1;
    }
    assert(texts(a@) =~= texts(b@));
    true
}

/// The form of a workflow that a file in the directory of the workflows is, if it is one.
pub fn discover_native(ci_dir: &str, path: &str, executable: bool, other_runnables: bool) -> (r: Option<WorkflowKind>)
    ensures
        r == native_file_kind(ci_dir@, path@, executable, other_runnables),
{
    let config_yml = join_path(ci_dir, "config.yml");
    let config_yaml = join_path(ci_dir, "config.yaml");
    if same_path(path, config_yml.as_str()) || same_path(path, config_yaml.as_str()) {
        return None;
    }
    let file = match file_name(path) {
        Some(name) => name,
        None => String::new(),
    };
    let file = file.as_str();
    let ext = extension(file);
    if (same(file, "workflow.yml") || same(file, "workflow.yaml")) && other_runnables {
        None
    } else if same(file, "Containerfile") || same(file, "Dockerfile") {
        Some(WorkflowKind::Container)
    } else if same(ext.as_str(), "yml") || same(ext.as_str(), "yaml") {
        Some(WorkflowKind::NativeYaml)
    } else if executable {
        Some(WorkflowKind::Executable)
    } else {
        None
    }
}

/// A file in a directory: its name, whether it is a regular file, and whether it can
/// be executed.
#[derive(Debug)]
pub struct DirEntry {
    pub name: String,
    pub is_file: bool,
    pub executable: bool,
}

/// Whether a file beside one that describes the directory can run.
pub open spec fn other_runnable(e: DirEntry) -> bool {
    e.is_file && !directory_file(e.name@) && (container_file(e.name@) || e.executable)
}

/// Whether something in a directory can run, besides the file that describes it.
pub fn directory_has_other_runnables(entries: &[DirEntry]) -> (r: bool)
    ensures
        r == exists|i: int| 0 <= i < entries@.len() && #[trigger] other_runnable(entries@[i]),
{
    let mut i: usize = 0;
    while i < entries.len()
        invariant
            i <= entries@.len(),
            forall|j: int| 0 <= j < i ==> !#[trigger] other_runnable(entries@[j]),
        decreases entries.len() - i,
    {
        let e = &entries[i];
        let name = e.name.as_str();
        let describes = same(name, "workflow.yml") || same(name, "workflow.yaml");
        if e.is_file && !describes && (same(name, "Containerfile") || same(name, "Dockerfile")
            || e.executable) {
            assert(other_runnable(entries@[i as int]));
            return true;
        }
        i += 1;
    }
    false
}

/// Whether a file in a directory of action workflows is one of them.
pub fn is_actions_file(path: &str) -> (r: bool)
    ensures
        r == ({
            let ext = extension_of(or_else(file_name_of(path@), Seq::empty()));
            ext == "yml"@ || ext == "yaml"@
        }),
{
    let file = match file_name(path) {
        Some(name) => name,
        None => String::new(),
    };
    let ext = extension(file.as_str());
    same(ext.as_str(), "yml") || same(ext.as_str(), "yaml")
}

/// Whether a workflow stands before another one: by name, then by path.
pub open spec fn workflow_less(a: Workflow, b: Workflow) -> bool {
    text_less(a.name@, b.name@) || (a.name@ == b.name@ && parts_less(parts_of(a.path@), parts_of(b.path@)))
}

/// Where a workflow goes in a sorted list: behind everything that does not stand after it.
pub open spec fn slot_for(list: Seq<Workflow>, w: Workflow) -> int
    decreases list.len(),
{
    if list.len() == 0 || !workflow_less(w, list.last()) {
        list.len() as int
    } else {
        slot_for(list.drop_last(), w)
    }
}

/// The workflows in their order; those that are equal in it keep the order they had.
pub open spec fn in_order(ws: Seq<Workflow>) -> Seq<Workflow>
    decreases ws.len(),
{
    if ws.len() == 0 {
        ws
    } else {
        let head = in_order(ws.drop_last());
        head.insert(slot_for(head, ws.last()), ws.last())
    }
}

/// Whether a workflow stands before another one.
fn before_workflow(a: &Workflow, b: &Workflow) -> (r: bool)
    ensures
        r == workflow_less(*a, *b),
{
    less_text(a.name.as_str(), b.name.as_str()) || (same(a.name.as_str(), b.name.as_str())
        && less_path(a.path.as_str(), b.path.as_str()))
}

/// The discovered workflows in their order: by name, then by path.
pub fn discover_all(found: Vec<Workflow>) -> (r: Vec<Workflow>)
    ensures
        r@ == in_order(found@),
{
    let ghost all = found@;
    let mut rest = found;
    let mut pending: Vec<Workflow> = Vec::new();
    while rest.len() > 0
        invariant
            rest@ + pending@.reverse() == all,
        decreases rest.len(),
    {
        let ghost before = rest@ + pending@.reverse();
        let w = rest.pop().unwrap();
        pending.push(w);
        assert(rest@ + pending@.reverse() =~= before);
    }
    assert(pending@.reverse() =~= all);
    let mut out: Vec<Workflow> = Vec::new();
    let ghost n = all.len() as int;
    assert(in_order(all.take(0)) =~= out@);
    while pending.len() > 0
        invariant
            n == all.len(),
            pending@.len() <= n,
            pending@ =~= all.skip(n - pending@.len()).reverse(),
            out@ == in_order(all.take(n - pending@.len())),
            out@.len() == n - pending@.len(),
        decreases pending.len(),
    {
        let ghost k = n - pending@.len();
        let w = pending.pop().unwrap();
        assert(w == all[k]);
        assert(all.take(k + 1).drop_last() =~= all.take(k));
        let ghost head = out@;
        let mut slot: usize = out.len();
        assert(head.take(slot as int) =~= head);
        while slot > 0 && before_workflow(&w, &out[slot - 1])
            invariant
                slot <= out@.len(),
                out@ == head,
                slot_for(head, w) == slot_for(head.take(slot as int), w),
            decreases slot,
        {
            assert(head.take(slot as int).drop_last() =~= head.take(slot - 1));
            slot -= 1;
        }
        out.insert(slot, w);
        assert(pending@ =~= all.skip(n - pending@.len()).reverse());
    }
    assert(all.take(n) =~= all);
    out
}

impl Workflow {
    /// The settings that a workflow brings along.
    pub open spec fn own_settings(&self) -> OverrideView {
        match self.source {
            WorkflowSource::Executable(item) => item.metadata@,
            WorkflowSource::NativeYaml(item) => item.metadata@,
            WorkflowSource::Container(item) => item.metadata@,
            WorkflowSource::Actions(_) => OverrideView::nothing(),
        }
    }

    /// The settings that a workflow brings along.
    pub fn local_override(&self) -> (r: WorkflowOverride)
        ensures
            r@ == self.own_settings(),
    {
        match &self.source {
            WorkflowSource::Executable(item) => item.metadata.duplicate(),
            WorkflowSource::NativeYaml(item) => item.metadata.duplicate(),
            WorkflowSource::Container(item) => item.metadata.duplicate(),
            WorkflowSource::Actions(_) => WorkflowOverride::default(),
        }
    }
}

/// Ordering keeps every workflow, as often as it was there.
pub proof fn law_ordering_keeps_workflows(ws: Seq<Workflow>)
    ensures
        in_order(ws).to_multiset() == ws.to_multiset(),
        in_order(ws).len() == ws.len(),
    decreases ws.len(),
{
    broadcast use vstd::seq_lib::group_to_multiset_ensures;

    if ws.len() > 0 {
        let head = in_order(ws.drop_last());
        law_ordering_keeps_workflows(ws.drop_last());
        lemma_slot_splits(head, ws.last());
        let i = slot_for(head, ws.last());
        assert(ws =~= ws.drop_last().push(ws.last()));
        vstd::seq_lib::to_multiset_insert(head, i, ws.last());
    }
}

/// A workflow that does not stand before a second one, which does not stand before a
/// third one, does not stand before the third one.
proof fn lemma_workflow_order(a: Workflow, b: Workflow, c: Workflow)
    ensures
        !workflow_less(a, b) && !workflow_less(b, c) ==> !workflow_less(a, c),
        workflow_less(a, b) ==> !workflow_less(b, a),
{
    let (p, q, r) = (parts_of(a.path@), parts_of(b.path@), parts_of(c.path@));
    law_text_order(a.name@, b.name@, c.name@);
    law_text_order(b.name@, a.name@, c.name@);
    law_text_order(b.name@, c.name@, a.name@);
    law_text_order(c.name@, b.name@, a.name@);
    law_text_order(a.name@, c.name@, b.name@);
    law_path_order(p, q, r);
    law_path_order(q, p, r);
    law_path_order(q, r, p);
    law_path_order(r, q, p);
    law_path_order(p, r, q);
}

proof fn lemma_slot_splits(list: Seq<Workflow>, w: Workflow)
    ensures
        0 <= slot_for(list, w) <= list.len(),
        slot_for(list, w) > 0 ==> !workflow_less(w, list[slot_for(list, w) - 1]),
        forall|k: int| slot_for(list, w) <= k < list.len() ==> workflow_less(w, #[trigger] list[k]),
    decreases list.len(),
{
    if list.len() > 0 && workflow_less(w, list.last()) {
        lemma_slot_splits(list.drop_last(), w);
        assert forall|k: int| slot_for(list, w) <= k < list.len() implies workflow_less(w, #[trigger] list[k]) by {
            if k < list.len() - 1 {
                assert(list[k] == list.drop_last()[k]);
            }
        }
    }
}

/// Ordered workflows are in order: none stands after one that it would have to stand
/// before.
pub proof fn law_workflows_are_in_order(ws: Seq<Workflow>)
    ensures
        forall|i: int, j: int|
            0 <= i < j < in_order(ws).len() ==> !workflow_less(
                #[trigger] in_order(ws)[j],
                #[trigger] in_order(ws)[i],
            ),
    decreases ws.len(),
{
    if ws.len() > 0 {
        let w = ws.last();
        law_workflows_are_in_order(ws.drop_last());
        let head = in_order(ws.drop_last());
        let at = slot_for(head, w);
        lemma_slot_splits(head, w);
        let r = in_order(ws);
        assert forall|i: int, j: int| 0 <= i < j < r.len() implies !workflow_less(
            #[trigger] r[j],
            #[trigger] r[i],
        ) by {
            if j < at {
                assert(r[i] == head[i] && r[j] == head[j]);
            } else if i > at {
                assert(r[i] == head[i - 1] && r[j] == head[j - 1]);
            } else if j > at && i < at {
                assert(r[i] == head[i] && r[j] == head[j - 1]);
            } else if i == at {
                assert(r[j] == head[j - 1]);
                lemma_workflow_order(w, r[j], w);
            } else {
                assert(r[i] == head[i]);
                let last = head[at - 1];
                if i < at - 1 {
                    assert(!workflow_less(last, head[i]));
                    lemma_workflow_order(w, last, head[i]);
                }
            }
        }
    }
}

/// Every event stands for itself, first of all. The hooks that hear of a push stand for a
/// push on a hosted runner, a manual run for a dispatch, and nothing else for anything else.
pub proof fn law_what_an_event_stands_for(event: Seq<char>, name: Seq<char>)
    ensures
        canonical_event_names(event)[0] == event,
        canonical_event_names(event).contains("push"@) == (event == "push"@ || event == "pre-push"@ || event
            == "pre-receive"@ || event == "post-receive"@ || event == "update"@),
        canonical_event_names(event).contains("workflow_dispatch"@) == (event == "workflow_dispatch"@ || event
            == "manual"@),
        name != "push"@ && name != "workflow_dispatch"@ ==> canonical_event_names(event).contains(name) == (event
            == name),
{
    reveal_strlit("push");
    reveal_strlit("workflow_dispatch");
    reveal_strlit("manual");
    reveal_strlit("pre-push");
    reveal_strlit("pre-receive");
    reveal_strlit("post-receive");
    reveal_strlit("update");
    assert("update"@[0] != "manual"@[0]);
    let names = canonical_event_names(event);
    assert(names[0] == event);
    if names.len() == 2 {
        assert(names[1] == "push"@ || names[1] == "workflow_dispatch"@);
    }
    assert("push"@.len() != "workflow_dispatch"@.len());
    assert("push"@.len() != "manual"@.len());
    assert("push"@.len() != "pre-push"@.len());
    assert("push"@.len() != "pre-receive"@.len());
    assert("push"@.len() != "post-receive"@.len());
    assert("push"@.len() != "update"@.len());
    assert("manual"@.len() != "workflow_dispatch"@.len());
    assert("manual"@.len() != "pre-push"@.len());
    assert("manual"@.len() != "pre-receive"@.len());
    assert("manual"@.len() != "post-receive"@.len());
    if event == "manual"@ {
        assert(names[1] == "workflow_dispatch"@);
    }
    if event == "pre-push"@ || event == "pre-receive"@ || event == "post-receive"@ || event == "update"@ {
        assert(names[1] == "push"@);
    }
}

/// A step is a script or an action; only a cleanup may be both, and no step is neither.
pub proof fn law_a_step_does_one_thing(step: StepView)
    ensures
        step.run is None && step.uses is None ==> !step_is_valid(step),
        step.run is Some && step.uses is None ==> step_is_valid(step),
        step.run is None && step.uses is Some ==> step_is_valid(step),
        step.run is Some && step.uses == Some("clean"@) ==> step_is_valid(step),
        step.run is Some && step.uses == Some("checkout"@) ==> !step_is_valid(step),
        step.run is Some && step.uses is Some && step_is_valid(step) ==> lower(
            trimmed(before_first(step.uses->0, '@')),
        ) == "clean"@ || lower(trimmed(before_first(step.uses->0, '@'))) == "ci/clean"@,
{
    reveal_strlit("clean");
    reveal_strlit("ci/clean");
    reveal_strlit("checkout");
    lemma_no_at_sign("clean"@);
    lemma_no_at_sign("checkout"@);
    lemma_trimmed_whole("clean"@);
    lemma_trimmed_whole("checkout"@);
    assert(lower("clean"@) =~= "clean"@);
    assert(lower("checkout"@) =~= "checkout"@);
    assert("checkout"@[1] != "ci/clean"@[1]);
    assert("checkout"@.len() != "clean"@.len());
}

proof fn lemma_no_at_sign(s: Seq<char>)
    requires
        forall|i: int| 0 <= i < s.len() ==> #[trigger] s[i] != '@',
    ensures
        before_first(s, '@') == s,
        first_index(s, '@') == s.len(),
    decreases s.len(),
{
    if s.len() > 0 {
        let t = s.drop_first();
        assert forall|i: int| 0 <= i < t.len() implies #[trigger] t[i] != '@' by {
            assert(t[i] == s[i + 1]);
        }
        lemma_no_at_sign(t);
    }
    assert(s.take(s.len() as int) =~= s);
}

/// What a file in the workflow directory is: the configuration is no workflow, a file that
/// describes a container is one whatever its rights are, files with the extensions of YAML
/// are read, and of the rest those run that can be executed.
pub proof fn law_what_a_file_is(ci_dir: Seq<char>, path: Seq<char>, executable: bool, others: bool, name: Seq<char>)
    requires
        file_name_of(path) == Some(name),
    ensures
        ({
            let kind = native_file_kind(ci_dir, path, executable, others);
            let is_config = parts_of(path) == parts_of(joined(ci_dir, "config.yml"@)) || parts_of(path) == parts_of(
                joined(ci_dir, "config.yaml"@),
            );
            let yaml = extension_of(name) == "yml"@ || extension_of(name) == "yaml"@;
            &&& is_config ==> kind is None
            &&& !is_config && (name == "Containerfile"@ || name == "Dockerfile"@) ==> kind == Some(WorkflowKind::Container)
            &&& kind == Some(WorkflowKind::NativeYaml) ==> yaml
            &&& !is_config && yaml && name != "workflow.yml"@ && name != "workflow.yaml"@ ==> kind == Some(
                WorkflowKind::NativeYaml,
            )
            &&& kind == Some(WorkflowKind::Executable) ==> executable && !yaml
            &&& (name == "workflow.yml"@ || name == "workflow.yaml"@) && others ==> kind is None
            &&& !is_config && !yaml && name != "Containerfile"@ && name != "Dockerfile"@ ==> (kind == Some(
                WorkflowKind::Executable,
            )) == executable
            &&& kind != Some(WorkflowKind::GitHubActions) && kind != Some(WorkflowKind::GiteaActions)
        }),
{
    reveal_strlit("Containerfile");
    reveal_strlit("Dockerfile");
    reveal_strlit("workflow.yml");
    reveal_strlit("workflow.yaml");
    reveal_strlit("yml");
    reveal_strlit("yaml");
    assert("Containerfile"@.len() == "workflow.yaml"@.len() && "Containerfile"@[0] != "workflow.yaml"@[0]);
    assert("Containerfile"@.len() != "workflow.yml"@.len());
    assert("Dockerfile"@.len() != "workflow.yml"@.len() && "Dockerfile"@.len() != "workflow.yaml"@.len());
    lemma_no_dot("Containerfile"@);
    lemma_no_dot("Dockerfile"@);
    lemma_extension("workflow.yml"@, 8);
    lemma_extension("workflow.yaml"@, 8);
    assert("workflow.yml"@.skip(9) =~= "yml"@);
    assert("workflow.yaml"@.skip(9) =~= "yaml"@);
}

proof fn lemma_no_dot(s: Seq<char>)
    requires
        forall|i: int| 0 <= i < s.len() ==> #[trigger] s[i] != '.',
    ensures
        last_index(s, '.') == -1,
    decreases s.len(),
{
    if s.len() > 0 {
        let t = s.drop_last();
        assert forall|i: int| 0 <= i < t.len() implies #[trigger] t[i] != '.' by {
            assert(t[i] == s[i]);
        }
        assert(s[s.len() - 1] != '.');
        lemma_no_dot(t);
    }
}

proof fn lemma_extension(s: Seq<char>, k: int)
    requires
        0 < k < s.len(),
        s[k] == '.',
        forall|i: int| k < i < s.len() ==> #[trigger] s[i] != '.',
    ensures
        last_index(s, '.') == k,
        extension_of(s) == s.skip(k + 1),
        stem_of(s) == s.take(k),
    decreases s.len(),
{
    if s.len() - 1 > k {
        let t = s.drop_last();
        assert forall|i: int| k < i < t.len() implies #[trigger] t[i] != '.' by {
            assert(t[i] == s[i]);
        }
        assert(s[s.len() - 1] != '.');
        lemma_extension(t, k);
    }
}

/// The words for runners are all different, and say whether a workflow is of this tool.
pub proof fn law_runners_have_their_own_words(a: WorkflowProvider, b: WorkflowProvider)
    ensures
        (a.word() == b.word()) == (a == b),
        (a.word() == "native"@) == (a is Native),
{
    reveal_strlit("native");
    reveal_strlit("github-actions");
    reveal_strlit("gitea-actions");
    assert("native"@.len() != "github-actions"@.len());
    assert("native"@.len() != "gitea-actions"@.len());
    assert("github-actions"@.len() != "gitea-actions"@.len());
}

/// What stands before the last dot of a name is its stem, and what follows its extension; a
/// name without a dot, or with one in front only, is its own stem.
pub proof fn law_stems_and_extensions(stem: Seq<char>, ext: Seq<char>)
    requires
        stem.len() > 0,
        !ext.contains('.'),
    ensures
        stem_of(stem + "."@ + ext) == stem,
        extension_of(stem + "."@ + ext) == ext,
        stem_of(ext) == ext,
        extension_of(ext).len() == 0,
        stem_of("."@ + ext) == "."@ + ext,
        extension_of("."@ + ext).len() == 0,
{
    reveal_strlit(".");
    let n = stem + "."@ + ext;
    lemma_last_dot(stem, ext);
    lemma_last_dot(Seq::empty(), ext);
    assert(Seq::<char>::empty() + "."@ + ext =~= "."@ + ext);
    lemma_no_last_dot(ext);
    assert(n.take(stem.len() as int) =~= stem);
    assert(n.skip((stem.len() + 1) as int) =~= ext);
}

proof fn lemma_no_last_dot(s: Seq<char>)
    requires
        !s.contains('.'),
    ensures
        last_index(s, '.') == -1,
    decreases s.len(),
{
    if s.len() > 0 {
        let t = s.drop_last();
        assert(!t.contains('.')) by {
            if t.contains('.') {
                let k = choose|k: int| 0 <= k < t.len() && t[k] == '.';
                assert(s[k] == '.');
            }
        }
        assert(s[s.len() - 1] == s.last());
        lemma_no_last_dot(t);
    }
}

proof fn lemma_last_dot(stem: Seq<char>, ext: Seq<char>)
    requires
        !ext.contains('.'),
    ensures
        last_index(stem + "."@ + ext, '.') == stem.len(),
    decreases ext.len(),
{
    reveal_strlit(".");
    let n = stem + "."@ + ext;
    if ext.len() > 0 {
        let t = ext.drop_last();
        assert(!t.contains('.')) by {
            if t.contains('.') {
                let k = choose|k: int| 0 <= k < t.len() && t[k] == '.';
                assert(ext[k] == '.');
            }
        }
        assert(ext[ext.len() - 1] == n.last());
        assert(n.drop_last() =~= stem + "."@ + t);
        lemma_last_dot(stem, t);
    } else {
        assert(n.last() == '.');
    }
}

proof fn lemma_no_slash_at_ends(s: Seq<char>)
    requires
        s.len() > 0 ==> s[0] != '/' && s.last() != '/',
    ensures
        strip_trailing(strip_leading(s, '/'), '/') == s,
{
}

/// A workflow directly in the directory of the workflows goes by its file without the
/// extension; in a directory below it by that directory and the file; and a file that describes
/// its directory, or a container, by the directory alone.
pub proof fn law_names_of_workflows(base: Seq<char>, dir: Seq<char>, file: Seq<char>, kind: WorkflowKind)
    requires
        base.len() > 0,
        naming(dir) && is_name(dir) && !dir.contains('/'),
        naming(file) && is_name(file) && !file.contains('/'),
        naming(stem_of(file)) && !stem_of(file).contains('/'),
    ensures
        ({
            let top = joined(base, file);
            let below = joined(joined(base, dir), file);
            &&& !(kind is Container) ==> name_of_workflow(base, top, kind) == stem_of(file)
            &&& kind is Container ==> name_of_workflow(base, top, kind) == "container"@
            &&& kind is Container ==> name_of_workflow(base, below, kind) == dir
            &&& kind is NativeYaml && (file == "workflow.yml"@ || file == "workflow.yaml"@) ==> name_of_workflow(
                base,
                below,
                kind,
            ) == dir
            &&& kind is NativeYaml && file != "workflow.yml"@ && file != "workflow.yaml"@ ==> name_of_workflow(base, below, kind)
                == dir + "/"@ + stem_of(file)
            &&& kind is Executable ==> name_of_workflow(base, below, kind) == dir + "/"@ + stem_of(file)
        }),
{
    reveal_strlit("container");
    reveal_strlit("/");
    let b = parts_of(base);
    let top = joined(base, file);
    let inner = joined(base, dir);
    let below = joined(inner, file);
    let stem = stem_of(file);
    lemma_name_parts(dir);
    lemma_name_parts(file);
    law_join_appends_components(base, dir);
    law_join_appends_components(base, file);
    law_join_appends_components(inner, file);
    assert(parts_of(top) == b + seq![file]);
    assert(parts_of(below) =~= b + seq![dir, file]);
    assert(b =~= parts_of(top).subrange(0, b.len() as int));
    assert(b =~= parts_of(below).subrange(0, b.len() as int));
    assert(parts_below(base, top) =~= seq![file]);
    assert(parts_below(base, below) =~= seq![dir, file]);
    assert(file_name_of(top) == Some(file));
    assert(file_name_of(below) == Some(file));
    assert(seq![file].drop_last() =~= Seq::<Seq<char>>::empty());
    assert(seq![dir, file].drop_last() =~= seq![dir]);
    assert(with_name(seq![file], stem) =~= seq![stem]);
    assert(with_name(seq![dir, file], stem) =~= seq![dir, stem]);
    assert(seq![dir, stem].drop_last() =~= seq![dir]);
    assert(join_of(seq![dir], "/"@) == dir);
    assert(join_of(seq![stem], "/"@) == stem);
    assert(join_of(seq![dir, stem], "/"@) == dir + "/"@ + stem);
    assert(dir[0] != '/' && dir[dir.len() - 1] != '/');
    assert(stem[0] != '/' && stem[stem.len() - 1] != '/');
    lemma_no_slash_at_ends(dir);
    lemma_no_slash_at_ends(stem);
    let both = dir + "/"@ + stem;
    assert(both[0] == dir[0] && both.last() == stem.last());
    lemma_no_slash_at_ends(both);
    lemma_no_slash_at_ends("container"@);
}

/// A workflow of this tool brings its settings along, whatever its form; one that is written
/// for a hosted runner brings none.
pub proof fn law_settings_that_a_workflow_brings(w: Workflow)
    ensures
        w.source matches WorkflowSource::Executable(item) ==> w.own_settings() == item.metadata@,
        w.source matches WorkflowSource::NativeYaml(item) ==> w.own_settings() == item.metadata@,
        w.source matches WorkflowSource::Container(item) ==> w.own_settings() == item.metadata@,
        w.source is Actions ==> w.own_settings() == OverrideView::nothing(),
{
}

} // verus!
