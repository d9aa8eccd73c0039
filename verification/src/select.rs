//! Which workflows an event or a request selects, under which settings, and why.

use crate::actions::{
    ActionEvent, ActionsWorkflow, action_reason, law_a_listed_event_starts_the_workflow,
    starting_event,
};
use crate::arch::{arch_names, arch_texts};
use crate::config::{
    ArchFilter, ArtifactConfig, ArtifactView, BranchConfig, BranchView, ContainerConfig,
    ContainerView, ExecutionConfig, ExecutionView, FilterView, OverrideView, ResolvedConfig,
    law_override_without_settings, over, settings_for,
};
use crate::maps::{Duplicate, StringMap};
use crate::strings::{cat2, cat3, cat4, ends_with, join, list_has, same};
use crate::text::{join_of, lemma_take_push, lemma_texts_push, opt_slice, opt_text, texts};
use crate::workflow::{
    Workflow, WorkflowKind, WorkflowProvider, WorkflowSource, canonical_event_names,
    canonical_events, law_what_an_event_stands_for, provider_name,
};
use vstd::prelude::*;
use vstd::string::*;

verus! {

broadcast use {lemma_texts_push, lemma_take_push};

/// A workflow with the settings that it runs under.
pub struct ResolvedWorkflow<'a> {
    pub name: String,
    pub path: String,
    pub kind: WorkflowKind,
    pub provider: WorkflowProvider,
    pub source: &'a WorkflowSource,
    pub events: Vec<String>,
    pub arch: ArchFilter,
    pub branches: BranchConfig,
    pub artifacts: ArtifactConfig,
    pub execution: ExecutionConfig,
    pub container: ContainerConfig,
    pub env: StringMap,
}

#[verifier::ext_equal]
pub struct ResolvedView {
    pub name: Seq<char>,
    pub path: Seq<char>,
    pub kind: WorkflowKind,
    pub provider: WorkflowProvider,
    pub source: WorkflowSource,
    pub events: Seq<Seq<char>>,
    pub arch: FilterView,
    pub branches: BranchView,
    pub artifacts: ArtifactView,
    pub execution: ExecutionView,
    pub container: ContainerView,
    pub env: Map<Seq<char>, Seq<char>>,
}

impl<'a> View for ResolvedWorkflow<'a> {
    type V = ResolvedView;

    open spec fn view(&self) -> ResolvedView {
        ResolvedView {
            name: self.name@,
            path: self.path@,
            kind: self.kind,
            provider: self.provider,
            source: *self.source,
            events: texts(self.events@),
            arch: self.arch@,
            branches: self.branches@,
            artifacts: self.artifacts@,
            execution: self.execution@,
            container: self.container@,
            env: self.env@,
        }
    }
}

/// A workflow that was selected, and the reasons for it.
pub struct WorkflowMatch<'a> {
    /// Where the workflow stands among all.
    pub position: usize,
    pub workflow: &'a Workflow,
    pub resolved: ResolvedWorkflow<'a>,
    pub reasons: Vec<String>,
}

/// The settings of a workflow for an event: its own over those that the configuration
/// has for the workflow, over those for the hook.
pub open spec fn merged_settings(w: Workflow, config: ResolvedConfig, event: Seq<char>) -> OverrideView {
    settings_for(config.hooks@, event).under(settings_for(config.workflows@, w.name@)).under(
        w.own_settings(),
    )
}

/// The container settings of a workflow: its settings over the defaults. The project
/// kind of the workflow holds where its container has none, and the one asked for on
/// the command line holds against all.
pub open spec fn merged_container(settings: OverrideView, config: ResolvedConfig) -> ContainerView {
    let own = ContainerView {
        kind: over(settings.tech_stack, settings.container.kind),
        ..settings.container
    };
    let c = config.defaults.container@.under(own);
    ContainerView { kind: over(c.kind, config.global_tech_stack), ..c }
}

/// A workflow with the settings that it runs under for an event.
pub open spec fn resolution(w: Workflow, config: ResolvedConfig, event: Seq<char>) -> ResolvedView {
    let s = merged_settings(w, config, event);
    ResolvedView {
        name: w.name@,
        path: w.path@,
        kind: w.kind,
        provider: w.provider,
        source: w.source,
        events: s.on.items(),
        arch: s.arch,
        branches: s.branches,
        artifacts: s.artifacts,
        execution: s.execution,
        container: merged_container(s, config),
        env: s.env,
    }
}

/// Whether a branch is one that automatic runs are limited to. An unknown branch is
/// not held back.
pub open spec fn on_allowed_branch(branches: BranchView, standard: Seq<Seq<char>>, branch: Option<Seq<char>>) -> bool {
    let allowed = branches.effective(standard);
    allowed.len() == 0 || match branch {
        Some(b) => allowed.contains(b),
        None => true,
    }
}

/// Why an event selects a workflow, where it does. Branches are left aside.
pub open spec fn event_reason(
    w: Workflow,
    config: ResolvedConfig,
    event: Seq<char>,
    branch: Option<Seq<char>>,
) -> Option<Seq<char>> {
    let events = resolution(w, config, event).events;
    match w.source {
        WorkflowSource::Actions(action) => match starting_event(
            action.events@,
            canonical_event_names(event),
            branch,
        ) {
            Some(name) => Some(action_reason(name)),
            None => None,
        },
        _ => if event == "manual"@ {
            Some("manual run selects native workflows"@)
        } else if w.name@ == event || ("/"@ + event).is_suffix_of(w.name@) {
            Some("workflow name matches `"@ + event + "`"@)
        } else if events.contains(event) || events.contains("all"@) {
            Some("workflow `on` includes `"@ + event + "`"@)
        } else {
            None
        },
    }
}

/// Why a workflow is selected, where it is: by name, or by the event. Runs that are not
/// manual, and those that respect branches, keep to the allowed branches.
pub open spec fn match_reason(
    w: Workflow,
    config: ResolvedConfig,
    requested: Option<Seq<char>>,
    event: Seq<char>,
    branch: Option<Seq<char>>,
    respect_branches: bool,
) -> Option<Seq<char>> {
    let held_back = (event != "manual"@ || respect_branches) && !on_allowed_branch(
        resolution(w, config, event).branches,
        texts(config.defaults.branch_allow@),
        branch,
    );
    if held_back {
        None
    } else {
        match requested {
            Some(name) => if w.name@ == name {
                Some("selected explicitly as `"@ + name + "`"@)
            } else {
                None
            },
            None => event_reason(w, config, event, branch),
        }
    }
}

/// The positions of the selected workflows, in order.
pub open spec fn matched(
    ws: Seq<Workflow>,
    config: ResolvedConfig,
    requested: Option<Seq<char>>,
    event: Seq<char>,
    branch: Option<Seq<char>>,
    respect_branches: bool,
) -> Seq<int>
    decreases ws.len(),
{
    if ws.len() == 0 {
        Seq::empty()
    } else {
        let head = matched(ws.drop_last(), config, requested, event, branch, respect_branches);
        if match_reason(ws.last(), config, requested, event, branch, respect_branches) is Some {
            head.push(ws.len() - 1)
        } else {
            head
        }
    }
}

/// Whether a match stands for a workflow that was selected for a reason.
pub open spec fn match_is(m: WorkflowMatch, w: Workflow, config: ResolvedConfig, event: Seq<char>, reason: Option<Seq<char>>) -> bool {
    &&& *m.workflow == w
    &&& m.resolved@ == resolution(w, config, event)
    &&& reason is Some
    &&& texts(m.reasons@) == seq![reason->0]
}

/// Whether matches stand for the workflows at the given positions, in that order.
pub open spec fn matches_are(
    ms: Seq<WorkflowMatch>,
    ws: Seq<Workflow>,
    chosen: Seq<int>,
    config: ResolvedConfig,
    requested: Option<Seq<char>>,
    event: Seq<char>,
    branch: Option<Seq<char>>,
    respect_branches: bool,
) -> bool {
    &&& ms.len() == chosen.len()
    &&& forall|i: int|
        #![trigger ms[i]]
        #![trigger chosen[i]]
        0 <= i < ms.len() ==> 0 <= chosen[i] < ws.len() && ms[i].position == chosen[i] && match_is(
            ms[i],
            ws[chosen[i]],
            config,
            event,
            match_reason(ws[chosen[i]], config, requested, event, branch, respect_branches),
        )
}

/// A workflow with the settings that it runs under for an event.
pub fn resolve_workflow<'a>(workflow: &'a Workflow, config: &ResolvedConfig, event: &str) -> (r: ResolvedWorkflow<'a>)
    ensures
        r@ == resolution(*workflow, *config, event@),
{
    let local = workflow.local_override();
    let merged = config.hook_override(event).merge(
        &config.workflow_override(workflow.name.as_str()),
    ).merge(&local);

    let mut own_container = merged.container.duplicate();
    if own_container.kind.is_none() {
        own_container.kind = merged.tech_stack;
    }
    let mut container = config.defaults.container.merge(&own_container);
    if let Some(tech_stack) = config.global_tech_stack {
        container.kind = Some(tech_stack);
    }
    assert(container@ =~= merged_container(merged@, *config));

    let events = merged.on.to_vec();
    ResolvedWorkflow {
        name: workflow.name.clone(),
        path: workflow.path.clone(),
        kind: workflow.kind,
        provider: workflow.provider,
        source: &workflow.source,
        events,
        arch: merged.arch,
        branches: merged.branches,
        artifacts: merged.artifacts,
        execution: merged.execution,
        container,
        env: merged.env,
    }
}

/// Whether a branch is one that automatic runs are limited to.
pub fn branch_allowed(config: &ResolvedConfig, branches: &BranchConfig, branch: Option<&str>) -> (r: bool)
    ensures
        r == on_allowed_branch(branches@, texts(config.defaults.branch_allow@), opt_slice(branch)),
{
    let allowed = branches.effective(&config.defaults);
    assert(texts(allowed@).len() == allowed@.len());
    if allowed.len() == 0 {
        return true;
    }
    match branch {
        Some(b) => list_has(allowed, b),
        None => true,
    }
}

/// Why an event selects a workflow, where it does.
fn find_event_reason(
    workflow: &Workflow,
    config: &ResolvedConfig,
    resolved: &ResolvedWorkflow,
    canonical: &[String],
    event: &str,
    branch: Option<&str>,
) -> (r: Option<String>)
    requires
        texts(canonical@) == canonical_event_names(event@),
        resolved@ == resolution(*workflow, *config, event@),
    ensures
        opt_text(r) == event_reason(*workflow, *config, event@, opt_slice(branch)),
{
    match &workflow.source {
        WorkflowSource::Actions(action) => action.matches_event(canonical, branch),
        _ => {
            if same(event, "manual") {
                return Some("manual run selects native workflows".to_owned());
            }
            let suffix = cat2("/", event);
            if same(workflow.name.as_str(), event) || ends_with(workflow.name.as_str(), suffix.as_str()) {
                return Some(cat3("workflow name matches `", event, "`"));
            }
            if list_has(resolved.events.as_slice(), event) || list_has(resolved.events.as_slice(), "all") {
                return Some(cat3("workflow `on` includes `", event, "`"));
            }
            None
        },
    }
}

/// The workflows that a request or an event selects, in the order in which they stand.
pub fn select_workflows<'a>(
    workflows: &'a [Workflow],
    config: &ResolvedConfig,
    requested_name: Option<&str>,
    event: &str,
    branch: Option<&str>,
    respect_branches: bool,
) -> (r: Vec<WorkflowMatch<'a>>)
    ensures
        matches_are(
            r@,
            workflows@,
            matched(
                workflows@,
                *config,
                opt_slice(requested_name),
                event@,
                opt_slice(branch),
                respect_branches,
            ),
            *config,
            opt_slice(requested_name),
            event@,
            opt_slice(branch),
            respect_branches,
        ),
{
    let canonical = canonical_events(event);
    let automation = !same(event, "manual") || respect_branches;
    let ghost ws = workflows@;
    let ghost req = opt_slice(requested_name);
    let ghost br = opt_slice(branch);
    let mut out: Vec<WorkflowMatch<'a>> = Vec::new();
    let mut i: usize = 0;
    while i < workflows.len()
        invariant
            i <= workflows@.len(),
            ws == workflows@,
            req == opt_slice(requested_name),
            br == opt_slice(branch),
            automation == (event@ != "manual"@ || respect_branches),
            texts(canonical@) == canonical_event_names(event@),
            matches_are(
                out@,
                ws,
                matched(ws.take(i as int), *config, req, event@, br, respect_branches),
                *config,
                req,
                event@,
                br,
                respect_branches,
            ),
        decreases workflows.len() - i,
    {
        assert(ws.take(i + 1).drop_last() =~= ws.take(i as int));
        let workflow = &workflows[i];
        let resolved = resolve_workflow(workflow, config, event);
        let held_back = automation && !branch_allowed(config, &resolved.branches, branch);
        let reason = if held_back {
            None
        } else {
            match requested_name {
                Some(name) => if same(workflow.name.as_str(), name) {
                    Some(cat3("selected explicitly as `", name, "`"))
                } else {
                    None
                },
                None => find_event_reason(
                    workflow,
                    config,
                    &resolved,
                    canonical.as_slice(),
                    event,
                    branch,
                ),
            }
        };
        assert(opt_text(reason) == match_reason(*workflow, *config, req, event@, br, respect_branches));
        if let Some(text) = reason {
            let mut reasons: Vec<String> = Vec::new();
            reasons.push(text);
            assert(texts(reasons@) =~= seq![text@]);
            let m = WorkflowMatch { position: i, workflow, resolved, reasons };
            assert(match_is(
                m,
                ws[i as int],
                *config,
                event@,
                match_reason(ws[i as int], *config, req, event@, br, respect_branches),
            ));
            out.push(m);
            assert(matched(ws.take(i + 1), *config, req, event@, br, respect_branches) == matched(
                ws.take(i as int),
                *config,
                req,
                event@,
                br,
                respect_branches,
            ).push(i as int));
        } else {
            assert(matched(ws.take(i + 1), *config, req, event@, br, respect_branches) == matched(
                ws.take(i as int),
                *config,
                req,
                event@,
                br,
                respect_branches,
            ));
        }
        i += 1;
    }
    assert(ws.take(i as int) =~= ws);
    out
}

/// A list of texts as Rust's `Debug` writes it: quoted and escaped, in brackets.
pub uninterp spec fn debug_list(items: Seq<Seq<char>>) -> Seq<char>;

/// A list of texts as `format!` with `{:?}` writes it.
#[verifier::external_body]
pub(crate) fn debug_strings(items: &[String]) -> (r: String)
    ensures
        r@ == debug_list(texts(items@)),
{
    format!("{:?}", items)
}

/// An event of an action workflow as it is shown.
pub open spec fn event_shown(e: ActionEvent) -> Seq<char> {
    if e.branches@.len() == 0 {
        e.name@
    } else {
        e.name@ + " on "@ + debug_list(texts(e.branches@))
    }
}

/// The events of an action workflow as they are shown.
pub open spec fn events_shown(events: Seq<ActionEvent>) -> Seq<Seq<char>> {
    events.map_values(|e: ActionEvent| event_shown(e))
}

/// The line about the events that a workflow is for.
pub open spec fn events_line(w: Workflow, resolved: ResolvedView) -> Seq<char> {
    "  events: "@ + match w.source {
        WorkflowSource::Actions(action) => join_of(events_shown(action.events@), ", "@),
        _ => if resolved.events.len() == 0 {
            "manual + filename matching"@
        } else {
            join_of(resolved.events, ", "@)
        },
    }
}

/// The lines that explain one workflow: where it is, what starts it, the branches that
/// it keeps to, and the architectures of its container where it has some.
pub open spec fn workflow_lines(w: Workflow, config: ResolvedConfig) -> Seq<Seq<char>> {
    let resolved = resolution(w, config, "manual"@);
    let lines = seq![
        w.name@ + " ["@ + w.provider.word() + "] at "@ + w.path@,
        events_line(w, resolved),
        "  branches: "@ + debug_list(resolved.branches.effective(texts(config.defaults.branch_allow@))),
    ];
    if resolved.container.arch.items().len() > 0 {
        lines.push("  container arch: "@ + debug_list(resolved.container.arch.items()))
    } else {
        lines
    }
}

/// The lines that explain every workflow of a name, in order.
pub open spec fn named_lines(ws: Seq<Workflow>, config: ResolvedConfig, subject: Seq<char>) -> Seq<Seq<char>>
    decreases ws.len(),
{
    if ws.len() == 0 {
        Seq::empty()
    } else {
        let head = named_lines(ws.drop_last(), config, subject);
        if ws.last().name@ == subject {
            head + workflow_lines(ws.last(), config)
        } else {
            head
        }
    }
}

/// The line about one workflow that an event selects.
pub open spec fn match_line(w: Workflow, reason: Seq<char>) -> Seq<char> {
    "- "@ + w.name@ + " ["@ + w.provider.word() + "] because "@ + reason
}

/// The lines about the workflows that an event selects.
pub open spec fn match_lines(
    ws: Seq<Workflow>,
    config: ResolvedConfig,
    event: Seq<char>,
    branch: Option<Seq<char>>,
) -> Seq<Seq<char>>
    decreases ws.len(),
{
    if ws.len() == 0 {
        Seq::empty()
    } else {
        let head = match_lines(ws.drop_last(), config, event, branch);
        match match_reason(ws.last(), config, None, event, branch, true) {
            Some(reason) => head.push(match_line(ws.last(), reason)),
            None => head,
        }
    }
}

/// The explanation of a subject: of the workflows of that name, or, where there is none,
/// of what the event of that name selects.
pub open spec fn explanation(
    ws: Seq<Workflow>,
    config: ResolvedConfig,
    subject: Seq<char>,
    branch: Option<Seq<char>>,
) -> Seq<Seq<char>> {
    if exists|i: int| 0 <= i < ws.len() && (#[trigger] ws[i]).name@ == subject {
        named_lines(ws, config, subject)
    } else if match_lines(ws, config, subject, branch).len() == 0 {
        seq!["No workflows matched `"@ + subject + "`"@]
    } else {
        seq!["Matched workflows for `"@ + subject + "`:"@] + match_lines(ws, config, subject, branch)
    }
}

/// The events of an action workflow as they are shown.
fn show_events(events: &[ActionEvent]) -> (r: Vec<String>)
    ensures
        texts(r@) == events_shown(events@),
{
    let mut out: Vec<String> = Vec::new();
    let mut i: usize = 0;
    assert(texts(out@) =~= events_shown(events@).take(0));
    while i < events.len()
        invariant
            i <= events@.len(),
            texts(out@) == events_shown(events@).take(i as int),
        decreases events.len() - i,
    {
        let e = &events[i];
        let line = if e.branches.is_empty() {
            e.name.clone()
        } else {
            let branches = debug_strings(e.branches.as_slice());
            cat3(e.name.as_str(), " on ", branches.as_str())
        };
        out.push(line);
        i += 1;
    }
    assert(events_shown(events@).take(i as int) =~= events_shown(events@));
    out
}

/// Appends the lines that explain one workflow.
fn explain_workflow(workflow: &Workflow, config: &ResolvedConfig, lines: &mut Vec<String>)
    ensures
        texts(final(lines)@) == texts(old(lines)@) + workflow_lines(*workflow, *config),
{
    let ghost before = texts(lines@);
    let resolved = resolve_workflow(workflow, config, "manual");
    let head = cat3(workflow.name.as_str(), " [", provider_name(&workflow.provider));
    lines.push(cat3(head.as_str(), "] at ", workflow.path.as_str()));
    let events = match &workflow.source {
        WorkflowSource::Actions(action) => {
            let shown = show_events(action.events.as_slice());
            join(shown.as_slice(), ", ")
        },
        _ => {
            assert(resolved@.events.len() == resolved.events@.len());
            if resolved.events.is_empty() {
                "manual + filename matching".to_owned()
            } else {
                join(resolved.events.as_slice(), ", ")
            }
        },
    };
    lines.push(cat2("  events: ", events.as_str()));
    let branches = debug_strings(resolved.branches.effective(&config.defaults));
    lines.push(cat2("  branches: ", branches.as_str()));
    let arches = resolved.container.arch.to_vec();
    assert(arch_names(arches@).len() == arches@.len());
    if !arches.is_empty() {
        let names = arch_texts(arches.as_slice());
        let shown = debug_strings(names.as_slice());
        lines.push(cat2("  container arch: ", shown.as_str()));
    }
    assert(texts(lines@) =~= before + workflow_lines(*workflow, *config));
}

/// The lines about the workflows that are found by a name or selected by an event.
pub fn explain_subject(workflows: &[Workflow], config: &ResolvedConfig, subject: &str, branch: Option<&str>) -> (r:
    Vec<String>)
    ensures
        texts(r@) == explanation(workflows@, *config, subject@, opt_slice(branch)),
{
    let ghost ws = workflows@;
    let mut lines: Vec<String> = Vec::new();
    let mut found = false;
    let mut i: usize = 0;
    assert(texts(lines@) =~= named_lines(ws.take(0), *config, subject@));
    while i < workflows.len()
        invariant
            i <= workflows@.len(),
            ws == workflows@,
            texts(lines@) == named_lines(ws.take(i as int), *config, subject@),
            found == exists|k: int| 0 <= k < i && (#[trigger] ws[k]).name@ == subject@,
        decreases workflows.len() - i,
    {
        assert(ws.take(i + 1).drop_last() =~= ws.take(i as int));
        if same(workflows[i].name.as_str(), subject) {
            assert(ws[i as int].name@ == subject@);
            explain_workflow(&workflows[i], config, &mut lines);
            found = true;
        }
        i += 1;
    }
    assert(ws.take(i as int) =~= ws);
    if found {
        return lines;
    }
    let matches = select_workflows(workflows, config, None, subject, branch, true);
    let ghost chosen = matched(ws, *config, None, subject@, opt_slice(branch), true);
    proof {
        lemma_match_lines(ws, *config, subject@, opt_slice(branch));
    }
    if matches.is_empty() {
        let mut out: Vec<String> = Vec::new();
        out.push(cat3("No workflows matched `", subject, "`"));
        assert(texts(out@) =~= seq!["No workflows matched `"@ + subject@ + "`"@]);
        return out;
    }
    let mut out: Vec<String> = Vec::new();
    out.push(cat3("Matched workflows for `", subject, "`:"));
    let ghost title = seq!["Matched workflows for `"@ + subject@ + "`:"@];
    let ghost shown = match_lines(ws, *config, subject@, opt_slice(branch));
    let mut k: usize = 0;
    assert(texts(out@) =~= title + shown.take(0));
    while k < matches.len()
        invariant
            k <= matches@.len(),
            ws == workflows@,
            matches_are(matches@, ws, chosen, *config, None, subject@, opt_slice(branch), true),
            lines_are(shown, ws, chosen, *config, subject@, opt_slice(branch)),
            texts(out@) == title + shown.take(k as int),
        decreases matches.len() - k,
    {
        let item = &matches[k];
        assert(match_is(
            matches@[k as int],
            ws[chosen[k as int]],
            *config,
            subject@,
            match_reason(ws[chosen[k as int]], *config, None, subject@, opt_slice(branch), true),
        ));
        let why = join(item.reasons.as_slice(), "; ");
        assert(why@ =~= texts(item.reasons@)[0]);
        let head = cat4("- ", item.workflow.name.as_str(), " [", provider_name(&item.workflow.provider));
        let line = cat3(head.as_str(), "] because ", why.as_str());
        assert(line@ =~= shown[k as int]);
        out.push(line);
        assert(texts(out@) =~= title + shown.take(k + 1));
        k += 1;
    }
    assert(shown.take(k as int) =~= shown);
    out
}

/// Whether lines are about the workflows at the given positions, in that order.
spec fn lines_are(
    shown: Seq<Seq<char>>,
    ws: Seq<Workflow>,
    chosen: Seq<int>,
    config: ResolvedConfig,
    event: Seq<char>,
    branch: Option<Seq<char>>,
) -> bool {
    &&& shown.len() == chosen.len()
    &&& forall|j: int|
        #![trigger shown[j]]
        #![trigger chosen[j]]
        0 <= j < shown.len() ==> 0 <= chosen[j] < ws.len() && shown[j] == match_line(
            ws[chosen[j]],
            match_reason(ws[chosen[j]], config, None, event, branch, true)->0,
        )
}

proof fn lemma_match_lines(ws: Seq<Workflow>, config: ResolvedConfig, event: Seq<char>, branch: Option<Seq<char>>)
    ensures
        lines_are(
            match_lines(ws, config, event, branch),
            ws,
            matched(ws, config, None, event, branch, true),
            config,
            event,
            branch,
        ),
    decreases ws.len(),
{
    if ws.len() > 0 {
        let head = ws.drop_last();
        lemma_match_lines(head, config, event, branch);
        let chosen0 = matched(head, config, None, event, branch, true);
        let shown0 = match_lines(head, config, event, branch);
        assert(lines_are(shown0, ws, chosen0, config, event, branch)) by {
            assert forall|j: int| 0 <= j < shown0.len() implies 0 <= #[trigger] chosen0[j] < ws.len() && shown0[j]
                == match_line(
                ws[chosen0[j]],
                match_reason(ws[chosen0[j]], config, None, event, branch, true)->0,
            ) by {
                assert(head[chosen0[j]] == ws[chosen0[j]]);
            }
        }
    }
}

/// A workflow is selected exactly where there is a reason for it, and the selected ones
/// stand in the order of the workflows.
pub proof fn law_selection_is_by_reason(
    ws: Seq<Workflow>,
    config: ResolvedConfig,
    requested: Option<Seq<char>>,
    event: Seq<char>,
    branch: Option<Seq<char>>,
    respect_branches: bool,
    i: int,
)
    requires
        0 <= i < ws.len(),
    ensures
        ({
            let chosen = matched(ws, config, requested, event, branch, respect_branches);
            &&& chosen.contains(i) == (match_reason(ws[i], config, requested, event, branch, respect_branches) is Some)
            &&& forall|a: int, b: int| 0 <= a < b < chosen.len() ==> #[trigger] chosen[a] < #[trigger] chosen[b]
            &&& forall|a: int| 0 <= a < chosen.len() ==> 0 <= #[trigger] chosen[a] < ws.len()
        }),
    decreases ws.len(),
{
    let head = ws.drop_last();
    let chosen0 = matched(head, config, requested, event, branch, respect_branches);
    let chosen = matched(ws, config, requested, event, branch, respect_branches);
    if head.len() > 0 {
        let j = if i < head.len() {
            i
        } else {
            0
        };
        law_selection_is_by_reason(head, config, requested, event, branch, respect_branches, j);
        if i < head.len() && chosen0.contains(i) {
            let a = choose|a: int| 0 <= a < chosen0.len() && chosen0[a] == i;
            assert(chosen[a] == i);
        }
        if i < head.len() && chosen.contains(i) {
            let a = choose|a: int| 0 <= a < chosen.len() && chosen[a] == i;
            assert(chosen0[a] == i);
        }
        if i == head.len() && chosen.contains(i) {
            let a = choose|a: int| 0 <= a < chosen.len() && chosen[a] == i;
            if a < chosen0.len() {
                assert(chosen0[a] == i);
            }
        }
    } else {
        assert(chosen0 =~= Seq::<int>::empty());
    }
    if i == head.len() && match_reason(ws[i], config, requested, event, branch, respect_branches) is Some {
        assert(chosen[chosen.len() - 1] == i);
    }
}

/// A run that is not manual, or that respects branches, selects nothing on a branch that
/// is not allowed.
pub proof fn law_automatic_runs_keep_to_branches(
    w: Workflow,
    config: ResolvedConfig,
    requested: Option<Seq<char>>,
    event: Seq<char>,
    branch: Option<Seq<char>>,
    respect_branches: bool,
)
    requires
        event != "manual"@ || respect_branches,
        !on_allowed_branch(
            resolution(w, config, event).branches,
            texts(config.defaults.branch_allow@),
            branch,
        ),
    ensures
        match_reason(w, config, requested, event, branch, respect_branches) is None,
{
}

/// A manual run without a request selects every native workflow.
pub proof fn law_manual_runs_select_native_workflows(w: Workflow, config: ResolvedConfig, branch: Option<Seq<char>>)
    requires
        !(w.source is Actions),
    ensures
        match_reason(w, config, None, "manual"@, branch, false) is Some,
{
}

/// Whatever a workflow says itself holds in the settings that it runs under, whatever the
/// configuration has for it or for the hook.
pub proof fn law_a_workflow_has_the_last_word(w: Workflow, config: ResolvedConfig, event: Seq<char>, name: Seq<char>)
    ensures
        ({
            let own = w.own_settings();
            let r = resolution(w, config, event);
            &&& own.artifacts.mode is Some ==> r.artifacts.mode == own.artifacts.mode
            &&& own.artifacts.destination is Some ==> r.artifacts.destination == own.artifacts.destination
            &&& own.execution.shell is Some ==> r.execution.shell == own.execution.shell
            &&& own.execution.workspace is Some ==> r.execution.workspace == own.execution.workspace
            &&& !(own.arch is Unset) ==> r.arch == own.arch
            &&& !(own.on is Unset) ==> r.events == own.on.items()
            &&& own.branches.allow.len() > 0 ==> r.branches.allow == own.branches.allow
            &&& own.branches.only.len() > 0 ==> r.branches.only == own.branches.only
            &&& own.artifacts.paths.len() > 0 ==> r.artifacts.paths == own.artifacts.paths
            &&& own.container.image is Some ==> r.container.image == own.container.image
            &&& own.container.platform is Some ==> r.container.platform == own.container.platform
            &&& own.container.workdir is Some ==> r.container.workdir == own.container.workdir
            &&& own.container.readonly is Some ==> r.container.readonly == own.container.readonly
            &&& own.container.packages.len() > 0 ==> r.container.packages == own.container.packages
            &&& own.container.components.len() > 0 ==> r.container.components == own.container.components
            &&& own.container.volumes.len() > 0 ==> r.container.volumes == own.container.volumes
            &&& !(own.container.arch is Unset) ==> r.container.arch == own.container.arch
            &&& own.env.contains_key(name) ==> r.env.contains_key(name) && r.env[name] == own.env[name]
            &&& own.container.env.contains_key(name) ==> r.container.env.contains_key(name) && r.container.env[name]
                == own.container.env[name]
            &&& own.container.kind is Some && config.global_tech_stack is None ==> r.container.kind == own.container.kind
        }),
{
}

/// Where a workflow does not say something itself, what the configuration has for it holds
/// against what it has for the hook.
pub proof fn law_settings_of_the_workflow_before_those_of_the_hook(
    w: Workflow,
    config: ResolvedConfig,
    event: Seq<char>,
    name: Seq<char>,
)
    requires
        config.workflows@.contains_key(w.name@),
    ensures
        ({
            let own = w.own_settings();
            let set = config.workflows@[w.name@];
            let r = resolution(w, config, event);
            &&& own.artifacts.mode is None && set.artifacts.mode is Some ==> r.artifacts.mode == set.artifacts.mode
            &&& own.artifacts.destination is None && set.artifacts.destination is Some ==> r.artifacts.destination == set.artifacts.destination
            &&& own.execution.shell is None && set.execution.shell is Some ==> r.execution.shell == set.execution.shell
            &&& own.execution.workspace is None && set.execution.workspace is Some ==> r.execution.workspace == set.execution.workspace
            &&& own.arch is Unset && !(set.arch is Unset) ==> r.arch == set.arch
            &&& own.on is Unset && !(set.on is Unset) ==> r.events == set.on.items()
            &&& own.branches.allow.len() == 0 && set.branches.allow.len() > 0 ==> r.branches.allow == set.branches.allow
            &&& own.branches.only.len() == 0 && set.branches.only.len() > 0 ==> r.branches.only == set.branches.only
            &&& own.artifacts.paths.len() == 0 && set.artifacts.paths.len() > 0 ==> r.artifacts.paths == set.artifacts.paths
            &&& own.container.image is None && set.container.image is Some ==> r.container.image == set.container.image
            &&& own.container.platform is None && set.container.platform is Some ==> r.container.platform == set.container.platform
            &&& own.container.workdir is None && set.container.workdir is Some ==> r.container.workdir == set.container.workdir
            &&& own.container.readonly is None && set.container.readonly is Some ==> r.container.readonly == set.container.readonly
            &&& own.container.packages.len() == 0 && set.container.packages.len() > 0 ==> r.container.packages == set.container.packages
            &&& own.container.components.len() == 0 && set.container.components.len() > 0 ==> r.container.components == set.container.components
            &&& own.container.volumes.len() == 0 && set.container.volumes.len() > 0 ==> r.container.volumes == set.container.volumes
            &&& !own.env.contains_key(name) && set.env.contains_key(name) ==> r.env.contains_key(name) && r.env[name]
                == set.env[name]
        }),
{
}

/// What the configuration has for the hook counts where neither the workflow nor the
/// settings for it say anything; so a variable of the hook is there unless one of them sets
/// it, and no variable comes from anywhere else.
pub proof fn law_settings_of_the_hook_come_last(w: Workflow, config: ResolvedConfig, event: Seq<char>, name: Seq<char>)
    requires
        config.hooks@.contains_key(event),
        !config.workflows@.contains_key(w.name@),
    ensures
        ({
            let own = w.own_settings();
            let hook = config.hooks@[event];
            let r = resolution(w, config, event);
            &&& own.execution.shell is None ==> r.execution.shell == hook.execution.shell
            &&& own.execution.workspace is None ==> r.execution.workspace == hook.execution.workspace
            &&& own.on is Unset ==> r.events == hook.on.items()
            &&& own.branches.only.len() == 0 ==> r.branches.only == hook.branches.only || hook.branches.only.len() == 0
            &&& r.env.contains_key(name) == (own.env.contains_key(name) || hook.env.contains_key(name))
            &&& !own.env.contains_key(name) && hook.env.contains_key(name) ==> r.env[name] == hook.env[name]
        }),
{
    let none = OverrideView::nothing();
    let hook = config.hooks@[event];
    law_override_without_settings(hook);
    assert(settings_for(config.workflows@, w.name@) == none);
}

/// The kind of project that is asked for on the command line holds against all; then that of
/// the container, then that of the workflow, then the default. Other defaults of containers
/// hold where nothing is said.
pub proof fn law_the_kind_of_a_container(settings: OverrideView, config: ResolvedConfig)
    ensures
        ({
            let c = merged_container(settings, config);
            let standard = config.defaults.container@;
            &&& config.global_tech_stack is Some ==> c.kind == config.global_tech_stack
            &&& config.global_tech_stack is None && settings.container.kind is Some ==> c.kind == settings.container.kind
            &&& config.global_tech_stack is None && settings.container.kind is None && settings.tech_stack is Some
                ==> c.kind == settings.tech_stack
            &&& config.global_tech_stack is None && settings.container.kind is None && settings.tech_stack is None
                ==> c.kind == standard.kind
            &&& settings.container.image is None ==> c.image == standard.image
            &&& settings.container.packages.len() == 0 && standard.packages.len() > 0 ==> c.packages == standard.packages
            &&& settings.container.arch is Unset ==> c.arch == standard.arch
        }),
{
}

/// Every hook that hears of a push starts every hosted workflow that lists `push` for the
/// branch, where the branch is allowed, and so does a push itself.
pub proof fn law_a_push_starts_hosted_workflows(
    w: Workflow,
    config: ResolvedConfig,
    action: ActionsWorkflow,
    event: Seq<char>,
    branch: Option<Seq<char>>,
    i: int,
)
    requires
        w.source == WorkflowSource::Actions(action),
        event == "push"@ || event == "pre-push"@ || event == "pre-receive"@ || event == "post-receive"@ || event
            == "update"@,
        0 <= i < action.events@.len(),
        action.events@[i].name@ == "push"@,
        action.events@[i].branches@.len() == 0 || branch is None || texts(action.events@[i].branches@).contains(branch->0),
        on_allowed_branch(resolution(w, config, event).branches, texts(config.defaults.branch_allow@), branch),
    ensures
        match_reason(w, config, None, event, branch, true) is Some,
        match_reason(w, config, None, event, branch, false) is Some,
{
    law_what_an_event_stands_for(event, event);
    law_a_listed_event_starts_the_workflow(action.events@, canonical_event_names(event), branch);
    assert(canonical_event_names(event).contains(action.events@[i].name@));
}

/// A manual run starts exactly the hosted workflows that can be dispatched by hand or list
/// `manual`, and no event starts one that does not list what it stands for.
pub proof fn law_hosted_workflows_start_for_what_they_list(
    w: Workflow,
    config: ResolvedConfig,
    action: ActionsWorkflow,
    event: Seq<char>,
    branch: Option<Seq<char>>,
)
    requires
        w.source == WorkflowSource::Actions(action),
        forall|i: int|
            0 <= i < action.events@.len() ==> (#[trigger] action.events@[i]).name@ != event
                && action.events@[i].name@ != "push"@ && action.events@[i].name@ != "workflow_dispatch"@,
    ensures
        match_reason(w, config, None, event, branch, true) is None,
{
    law_a_listed_event_starts_the_workflow(action.events@, canonical_event_names(event), branch);
    if starting_event(action.events@, canonical_event_names(event), branch) is Some {
        let i = choose|i: int|
            0 <= i < action.events@.len() && canonical_event_names(event).contains((#[trigger] action.events@[i]).name@) && (
            action.events@[i].branches@.len() == 0 || branch is None || texts(action.events@[i].branches@).contains(
                branch->0,
            ));
        law_what_an_event_stands_for(event, action.events@[i].name@);
    }
}

/// A hosted workflow that can be dispatched by hand starts in a manual run.
pub proof fn law_a_manual_run_dispatches(
    w: Workflow,
    config: ResolvedConfig,
    action: ActionsWorkflow,
    branch: Option<Seq<char>>,
    i: int,
)
    requires
        w.source == WorkflowSource::Actions(action),
        0 <= i < action.events@.len(),
        action.events@[i].name@ == "workflow_dispatch"@,
        action.events@[i].branches@.len() == 0,
    ensures
        match_reason(w, config, None, "manual"@, branch, false) is Some,
{
    law_what_an_event_stands_for("manual"@, "manual"@);
    law_a_listed_event_starts_the_workflow(action.events@, canonical_event_names("manual"@), branch);
    assert(canonical_event_names("manual"@).contains(action.events@[i].name@));
}

/// An event that is not manual selects a workflow of this tool exactly where its name is
/// that of the event, in whatever directory, or it says that it runs on that event or on all;
/// the branch has to be allowed.
pub proof fn law_events_select_native_workflows(
    w: Workflow,
    config: ResolvedConfig,
    event: Seq<char>,
    branch: Option<Seq<char>>,
    respect_branches: bool,
)
    requires
        !(w.source is Actions),
        event != "manual"@,
    ensures
        ({
            let r = resolution(w, config, event);
            let chosen = match_reason(w, config, None, event, branch, respect_branches) is Some;
            let named = w.name@ == event || ("/"@ + event).is_suffix_of(w.name@);
            let listed = r.events.contains(event) || r.events.contains("all"@);
            chosen == (on_allowed_branch(r.branches, texts(config.defaults.branch_allow@), branch) && (named || listed))
        }),
{
}

/// A request by name selects the workflow of that name and no other, and where branches are
/// to be respected only on an allowed one.
pub proof fn law_a_request_selects_by_name(
    w: Workflow,
    config: ResolvedConfig,
    name: Seq<char>,
    branch: Option<Seq<char>>,
    respect_branches: bool,
)
    ensures
        ({
            let r = resolution(w, config, "manual"@);
            let chosen = match_reason(w, config, Some(name), "manual"@, branch, respect_branches) is Some;
            &&& chosen ==> w.name@ == name
            &&& w.name@ == name && !respect_branches ==> chosen
            &&& w.name@ == name && respect_branches ==> chosen == on_allowed_branch(
                r.branches,
                texts(config.defaults.branch_allow@),
                branch,
            )
        }),
{
}

/// The branches that count are those of `only`, else those of `allow`, else the defaults; an
/// unknown branch is not held back, and an empty list holds nothing back.
pub proof fn law_which_branches_are_allowed(b: BranchView, standard: Seq<Seq<char>>, branch: Seq<char>)
    ensures
        on_allowed_branch(b, standard, None),
        b.only.len() > 0 ==> on_allowed_branch(b, standard, Some(branch)) == b.only.contains(branch),
        b.only.len() == 0 && b.allow.len() > 0 ==> on_allowed_branch(b, standard, Some(branch)) == b.allow.contains(branch),
        b.only.len() == 0 && b.allow.len() == 0 && standard.len() > 0 ==> on_allowed_branch(b, standard, Some(branch))
            == standard.contains(branch),
        b.only.len() == 0 && b.allow.len() == 0 && standard.len() == 0 ==> on_allowed_branch(b, standard, Some(branch)),
{
}

/// A match is of its workflow, with the settings for the event and the one reason.
pub proof fn law_what_a_match_holds(m: WorkflowMatch, w: Workflow, config: ResolvedConfig, event: Seq<char>, reason: Option<Seq<char>>)
    requires
        match_is(m, w, config, event, reason),
    ensures
        *m.workflow == w,
        m.resolved@ == resolution(w, config, event),
        reason is Some && m.reasons@.len() == 1 && m.reasons@[0]@ == reason->0,
{
    assert(texts(m.reasons@).len() == m.reasons@.len());
    assert(texts(m.reasons@)[0] == m.reasons@[0]@);
}

/// An event is shown by its name, and with its branches where it is limited to some.
pub proof fn law_how_events_are_shown(e: ActionEvent, all: Seq<ActionEvent>)
    ensures
        e.branches@.len() == 0 ==> event_shown(e) == e.name@,
        e.branches@.len() > 0 ==> event_shown(e) == e.name@ + (" on "@ + debug_list(texts(e.branches@))),
        events_shown(all).len() == all.len(),
{
    assert(e.name@ + " on "@ + debug_list(texts(e.branches@)) =~= e.name@ + (" on "@ + debug_list(texts(e.branches@))));
}

/// What an event selects is explained with a line for each workflow that it selects, with the
/// reason, and where it selects none that is said. A subject that names a workflow is explained
/// as that workflow.
pub proof fn law_what_is_explained(ws: Seq<Workflow>, config: ResolvedConfig, subject: Seq<char>, branch: Option<Seq<char>>, i: int)
    requires
        0 <= i < ws.len(),
    ensures
        ({
            let lines = explanation(ws, config, subject, branch);
            let named = exists|k: int| 0 <= k < ws.len() && (#[trigger] ws[k]).name@ == subject;
            let reason = match_reason(ws[i], config, None, subject, branch, true);
            &&& ws[i].name@ == subject ==> lines == named_lines(ws, config, subject)
            &&& !named && reason is Some ==> lines.len() > 1 && lines.contains(match_line(ws[i], reason->0))
            &&& !named && (forall|k: int|
                0 <= k < ws.len() ==> match_reason(#[trigger] ws[k], config, None, subject, branch, true) is None)
                ==> lines.len() == 1
        }),
{
    let found = match_lines(ws, config, subject, branch);
    let lines = explanation(ws, config, subject, branch);
    let reason = match_reason(ws[i], config, None, subject, branch, true);
    if reason is Some {
        lemma_match_line_is_there(ws, config, subject, branch, i);
        let k = choose|k: int| 0 <= k < found.len() && found[k] == match_line(ws[i], reason->0);
        if !(exists|k: int| 0 <= k < ws.len() && (#[trigger] ws[k]).name@ == subject) {
            assert(lines[k + 1] == found[k]);
        }
    }
    if forall|k: int| 0 <= k < ws.len() ==> match_reason(#[trigger] ws[k], config, None, subject, branch, true) is None {
        lemma_no_match_lines(ws, config, subject, branch);
    }
}

proof fn lemma_match_line_is_there(ws: Seq<Workflow>, config: ResolvedConfig, event: Seq<char>, branch: Option<Seq<char>>, i: int)
    requires
        0 <= i < ws.len(),
        match_reason(ws[i], config, None, event, branch, true) is Some,
    ensures
        match_lines(ws, config, event, branch).contains(
            match_line(ws[i], match_reason(ws[i], config, None, event, branch, true)->0),
        ),
    decreases ws.len(),
{
    let all = match_lines(ws, config, event, branch);
    let line = match_line(ws[i], match_reason(ws[i], config, None, event, branch, true)->0);
    if i == ws.len() - 1 {
        assert(all[all.len() - 1] == line);
    } else {
        let less = ws.drop_last();
        assert(less[i] == ws[i]);
        lemma_match_line_is_there(less, config, event, branch, i);
        let head = match_lines(less, config, event, branch);
        let k = choose|k: int| 0 <= k < head.len() && head[k] == line;
        assert(all[k] == line);
    }
}

proof fn lemma_no_match_lines(ws: Seq<Workflow>, config: ResolvedConfig, event: Seq<char>, branch: Option<Seq<char>>)
    requires
        forall|k: int| 0 <= k < ws.len() ==> match_reason(#[trigger] ws[k], config, None, event, branch, true) is None,
    ensures
        match_lines(ws, config, event, branch).len() == 0,
    decreases ws.len(),
{
    if ws.len() > 0 {
        let less = ws.drop_last();
        assert(match_reason(ws[ws.len() - 1], config, None, event, branch, true) is None);
        assert forall|k: int| 0 <= k < less.len() implies match_reason(
            #[trigger] less[k],
            config,
            None,
            event,
            branch,
            true,
        ) is None by {
            assert(less[k] == ws[k]);
        }
        lemma_no_match_lines(less, config, event, branch);
    }
}

} // verus!
