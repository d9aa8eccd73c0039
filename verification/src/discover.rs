//! Making workflows out of the files that were found.

use crate::actions::{ActionsProvider, ActionsWorkflow};
use crate::buildargs::step_views;
use crate::config::{WorkflowOverride, or_else};
use crate::error::{CiError, ErrorView};
use crate::paths::{
    file_name_of, join_path, joined, law_join_appends_components, lemma_name_parts, parts_of,
};
use crate::text::{decimal_of, lemma_take_push, lemma_texts_push, opt_slice, opt_text, texts};
use crate::workflow::{
    ContainerWorkflow, ExecutableWorkflow, NativeStep, NativeWorkflow, NativeWorkflowFile,
    RawNativeStep, StepView, Workflow, WorkflowKind, WorkflowProvider, WorkflowSource, actions_kind,
    directory_file, name_of_workflow, step_is_valid, step_place, workflow_name,
};
use vstd::prelude::*;
use vstd::string::*;

verus! {

broadcast use {lemma_texts_push, lemma_take_push};

/// The file that describes a directory, out of those that are there.
pub open spec fn directory_metadata(dir: Option<Seq<char>>, yml: bool, yaml: bool) -> Option<Seq<char>> {
    match dir {
        None => None,
        Some(dir) => if yml {
            Some(joined(dir, "workflow.yml"@))
        } else if yaml {
            Some(joined(dir, "workflow.yaml"@))
        } else {
            None
        },
    }
}

/// The file that describes a directory: `yml` and `yaml` say whether `workflow.yml` and
/// `workflow.yaml` are there. Without one, what is in the directory has no settings.
pub fn load_directory_metadata(dir: Option<&str>, yml: bool, yaml: bool) -> (r: Option<String>)
    ensures
        opt_text(r) == directory_metadata(opt_slice(dir), yml, yaml),
{
    match dir {
        None => None,
        Some(dir) => if yml {
            Some(join_path(dir, "workflow.yml"))
        } else if yaml {
            Some(join_path(dir, "workflow.yaml"))
        } else {
            None
        },
    }
}

/// A file that can be executed, as a workflow.
pub fn discover_executable_workflow(base: &str, path: &str, metadata: WorkflowOverride) -> (r: Workflow)
    ensures
        r.name@ == name_of_workflow(base@, path@, WorkflowKind::Executable),
        r.path@ == path@,
        r.kind == WorkflowKind::Executable,
        r.provider == WorkflowProvider::Native,
        r.source == WorkflowSource::Executable(ExecutableWorkflow { metadata }),
{
    Workflow {
        name: workflow_name(base, path, &WorkflowKind::Executable),
        path: path.to_owned(),
        kind: WorkflowKind::Executable,
        provider: WorkflowProvider::Native,
        source: WorkflowSource::Executable(ExecutableWorkflow { metadata }),
    }
}

/// A file that describes a container, as a workflow.
pub fn discover_container_workflow(base: &str, path: &str, metadata: WorkflowOverride) -> (r: Workflow)
    ensures
        r.name@ == name_of_workflow(base@, path@, WorkflowKind::Container),
        r.path@ == path@,
        r.kind == WorkflowKind::Container,
        r.provider == WorkflowProvider::Native,
        r.source == WorkflowSource::Container(ContainerWorkflow { metadata }),
{
    Workflow {
        name: workflow_name(base, path, &WorkflowKind::Container),
        path: path.to_owned(),
        kind: WorkflowKind::Container,
        provider: WorkflowProvider::Native,
        source: WorkflowSource::Container(ContainerWorkflow { metadata }),
    }
}

/// An action workflow, under the name that its file gives it.
pub fn discover_actions_workflow(path: &str, provider: ActionsProvider, action: ActionsWorkflow) -> (r: Workflow)
    ensures
        r.name@ == action.name@,
        r.path@ == path@,
        r.kind == match provider {
            ActionsProvider::GitHub => WorkflowKind::GitHubActions,
            ActionsProvider::Gitea => WorkflowKind::GiteaActions,
        },
        r.provider == match provider {
            ActionsProvider::GitHub => WorkflowProvider::GitHubActions,
            ActionsProvider::Gitea => WorkflowProvider::GiteaActions,
        },
        r.source == WorkflowSource::Actions(action),
{
    let (kind, provider) = actions_kind(provider);
    Workflow {
        name: action.name.clone(),
        path: path.to_owned(),
        kind,
        provider,
        source: WorkflowSource::Actions(action),
    }
}

/// Steps by what they stand for.
pub open spec fn given_steps(v: Seq<RawNativeStep>) -> Seq<StepView> {
    v.map_values(|s: RawNativeStep| s@)
}

/// Why a step of a workflow file is not taken, where it is not.
pub open spec fn step_fault(path: Seq<char>, step: RawNativeStep, index: nat) -> Option<ErrorView> {
    if step.use_value is Some && step.uses is Some {
        Some(ErrorView::Message(step_place(path, index) + " must define only one of `use` or `uses`"@))
    } else if !step_is_valid(step@) {
        Some(ErrorView::Message(step_place(path, index) + " must define exactly one of `run` or `use`"@))
    } else {
        None
    }
}

/// Why the steps of a workflow file are not taken: the first that is wrong decides.
pub open spec fn steps_fault(path: Seq<char>, steps: Seq<RawNativeStep>) -> Option<ErrorView>
    decreases steps.len(),
{
    if steps.len() == 0 {
        None
    } else {
        match steps_fault(path, steps.drop_last()) {
            Some(e) => Some(e),
            None => step_fault(path, steps.last(), (steps.len() - 1) as nat),
        }
    }
}

proof fn lemma_fault_stays(path: Seq<char>, steps: Seq<RawNativeStep>, n: int)
    requires
        0 <= n <= steps.len(),
        steps_fault(path, steps.take(n)) is Some,
    ensures
        steps_fault(path, steps) == steps_fault(path, steps.take(n)),
    decreases steps.len() - n,
{
    if n == steps.len() {
        assert(steps.take(n) =~= steps);
    } else {
        assert(steps.take(n + 1).drop_last() =~= steps.take(n));
        lemma_fault_stays(path, steps, n + 1);
    }
}

/// Whether a workflow is the one of a file.
pub open spec fn is_file_workflow(w: Workflow, base: Seq<char>, path: Seq<char>, file: NativeWorkflowFile) -> bool {
    &&& w.name@ == or_else(opt_text(file.name), name_of_workflow(base, path, WorkflowKind::NativeYaml))
    &&& w.path@ == path
    &&& w.kind == WorkflowKind::NativeYaml
    &&& w.provider == WorkflowProvider::Native
    &&& w.source matches WorkflowSource::NativeYaml(native)
    &&& native.metadata@ == file.defaults@.under(file.local())
    &&& texts(native.needs@) == file.needs@.items()
    &&& step_views(native.steps@) == given_steps(file.steps@)
}

/// A workflow file as a workflow: under the name that it gives itself, or by its place.
pub fn discover_native_yaml(base: &str, path: &str, file: NativeWorkflowFile) -> (r: Result<Workflow, CiError>)
    ensures
        match r {
            Ok(w) => steps_fault(path@, file.steps@) is None && is_file_workflow(w, base@, path@, file),
            Err(e) => steps_fault(path@, file.steps@) == Some(e@),
        },
{
    let ghost all = file.steps@;
    let metadata = file.metadata();
    let needs = file.needs.to_vec();
    let name = match &file.name {
        Some(name) => name.clone(),
        None => workflow_name(base, path, &WorkflowKind::NativeYaml),
    };
    let mut rest = file.steps;
    let total: usize = rest.len();
    let mut steps: Vec<NativeStep> = Vec::new();
    let mut i: usize = 0;
    assert(all.skip(0) =~= all);
    assert(step_views(steps@) =~= given_steps(all).take(0));
    while rest.len() > 0
        invariant
            i <= total,
            total == all.len(),
            all == file.steps@,
            rest@ == all.skip(i as int),
            steps_fault(path@, all.take(i as int)) is None,
            step_views(steps@) == given_steps(all).take(i as int),
        decreases rest.len(),
    {
        let raw = rest.remove(0);
        assert(raw == all[i as int]);
        assert(rest@ =~= all.skip(i + 1));
        assert(all.take(i + 1).drop_last() =~= all.take(i as int));
        let ghost before = steps@;
        match raw.into_step(path, i) {
            Ok(step) => {
                steps.push(step);
                assert(step_views(steps@) =~= step_views(before).push(step@));
                assert(given_steps(all)[i as int] == step@);
            },
            Err(e) => {
                proof {
                    lemma_fault_stays(path@, all, i + 1);
                }
                return Err(e);
            },
        }
        i += 1;
    }
    assert(i == all.len()) by {
        assert(all.skip(i as int).len() == all.len() - i);
    }
    assert(all.take(i as int) =~= all);
    assert(given_steps(all).take(i as int) =~= given_steps(all));
    Ok(
        Workflow {
            name,
            path: path.to_owned(),
            kind: WorkflowKind::NativeYaml,
            provider: WorkflowProvider::Native,
            source: WorkflowSource::NativeYaml(NativeWorkflow { metadata, needs, steps }),
        },
    )
}

/// A directory is described by its `workflow.yml`, else by its `workflow.yaml`.
pub proof fn law_the_file_of_a_directory(dir: Seq<char>, yml: bool, yaml: bool)
    requires
        dir.len() > 0,
    ensures
        directory_metadata(None, yml, yaml) is None,
        (directory_metadata(Some(dir), yml, yaml) is Some) == (yml || yaml),
        yml ==> file_name_of(directory_metadata(Some(dir), yml, yaml)->0) == Some("workflow.yml"@),
        !yml && yaml ==> file_name_of(directory_metadata(Some(dir), yml, yaml)->0) == Some("workflow.yaml"@),
        yml || yaml ==> directory_file(file_name_of(directory_metadata(Some(dir), yml, yaml)->0)->0) && parts_of(
            directory_metadata(Some(dir), yml, yaml)->0,
        ).drop_last() == parts_of(dir),
{
    reveal_strlit("workflow.yml");
    reveal_strlit("workflow.yaml");
    reveal_strlit(".");
    reveal_strlit("..");
    reveal_strlit("/");
    assert("workflow.yml"@.len() == 12 && "workflow.yaml"@.len() == 13);
    assert("."@.len() == 1 && ".."@.len() == 2 && "/"@.len() == 1);
    lemma_name_parts("workflow.yml"@);
    lemma_name_parts("workflow.yaml"@);
    law_join_appends_components(dir, "workflow.yml"@);
    law_join_appends_components(dir, "workflow.yaml"@);
    assert((parts_of(dir) + seq!["workflow.yml"@]).drop_last() =~= parts_of(dir));
    assert((parts_of(dir) + seq!["workflow.yaml"@]).drop_last() =~= parts_of(dir));
}

/// A file is refused for its first step that does not say what to do in exactly one way,
/// and accepted where every step does.
pub proof fn law_the_first_faulty_step(path: Seq<char>, steps: Seq<RawNativeStep>, i: int)
    requires
        0 <= i <= steps.len(),
        forall|k: int| 0 <= k < i ==> step_fault(path, #[trigger] steps[k], k as nat) is None,
    ensures
        i < steps.len() && step_fault(path, steps[i], i as nat) is Some ==> steps_fault(path, steps) == step_fault(
            path,
            steps[i],
            i as nat,
        ),
        i == steps.len() ==> steps_fault(path, steps) is None,
    decreases steps.len(),
{
    if steps.len() > 0 {
        let head = steps.drop_last();
        if i < steps.len() - 1 {
            assert(head[i] == steps[i]);
            assert forall|k: int| 0 <= k < i implies step_fault(path, #[trigger] head[k], k as nat) is None by {
                assert(head[k] == steps[k]);
            }
            law_the_first_faulty_step(path, head, i);
        } else {
            let n = steps.len() - 1;
            assert forall|k: int| 0 <= k < n implies step_fault(path, #[trigger] head[k], k as nat) is None by {
                assert(head[k] == steps[k]);
            }
            law_the_first_faulty_step(path, head, n);
            assert(i == steps.len() ==> step_fault(path, steps[n], n as nat) is None);
        }
    }
}

/// A step is faulty where it writes its action twice, or does nothing, or does two things that
/// do not go together.
pub proof fn law_what_a_faulty_step_is(path: Seq<char>, step: RawNativeStep, index: nat)
    ensures
        step.use_value is Some && step.uses is Some ==> step_fault(path, step, index) is Some,
        !(step.use_value is Some && step.uses is Some) ==> (step_fault(path, step, index) is None) == step_is_valid(step@),
        !(step.use_value is Some && step.uses is Some) && step@.run is None && step@.uses is None ==> step_fault(
            path,
            step,
            index,
        ) is Some,
        step_fault(path, step, index) matches Some(e) ==> e is Message && (path + " step "@ + decimal_of(index + 1)).is_prefix_of(
            e->Message_0,
        ),
{
    let head = path + " step "@ + decimal_of(index + 1);
    let a = head + " must define only one of `use` or `uses`"@;
    let b = head + " must define exactly one of `run` or `use`"@;
    assert(head =~= a.subrange(0, head.len() as int));
    assert(head =~= b.subrange(0, head.len() as int));
}

/// A workflow of a file goes by the name in the file, else by its place; what stands in the
/// file itself holds against its defaults, and its steps are all there, in order.
pub proof fn law_a_workflow_is_what_its_file_says(w: Workflow, base: Seq<char>, path: Seq<char>, file: NativeWorkflowFile, name: Seq<char>)
    requires
        is_file_workflow(w, base, path, file),
    ensures
        file.name matches Some(n) ==> w.name@ == n@,
        file.name is None ==> w.name@ == name_of_workflow(base, path, WorkflowKind::NativeYaml),
        w.path@ == path && w.kind is NativeYaml && w.provider is Native,
        file.env@.contains_key(name) ==> w.own_settings().env.contains_key(name) && w.own_settings().env[name] == file.env@[name],
        !file.env@.contains_key(name) && file.defaults@.env.contains_key(name) ==> w.own_settings().env[name]
            == file.defaults@.env[name],
        file.tech_stack is Some ==> w.own_settings().tech_stack == file.tech_stack,
        file.tech_stack is None ==> w.own_settings().tech_stack == file.defaults@.tech_stack,
        w.source is NativeYaml && w.source->NativeYaml_0.steps@.len() == file.steps@.len(),
{
    assert(step_views(w.source->NativeYaml_0.steps@).len() == w.source->NativeYaml_0.steps@.len());
    assert(given_steps(file.steps@).len() == file.steps@.len());
}

} // verus!
