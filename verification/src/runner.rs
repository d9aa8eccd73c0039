//! Running workflows: what a request asks for, what runs because of it and in which
//! order, and how a run ends.

use crate::arch::{Architecture, arch_names, copy_arches};
use crate::cli::{GlobalOptions, HookArgs, RunArgs};
use crate::config::{ContainerRuntime, GitMode, ResolvedConfig};
use crate::depend::{
    Node, NodeView, after_needs, full_order, law_choices_in_order_stay,
    law_chosen_come_after_their_needs, need_is_met, node_views, order_chosen, positions,
};
use crate::environ::{ContainerOverride, InvocationView, RunInvocation};
use crate::error::{CiError, ErrorView, outcome, usage};
use crate::hooks::{is_known_hook, known_hook};
use crate::output::Output;
use crate::repo::RepoInfo;
use crate::select::{
    ResolvedView, ResolvedWorkflow, WorkflowMatch, law_selection_is_by_reason, match_reason,
    matched, matches_are, resolution, resolve_workflow, select_workflows,
};
use crate::strings::{
    cat2, cat3, cat5, cat6, copy_list, copy_opt, join, lines, opt_str, same, strip_prefix, words,
};
use crate::text::{
    after_prefix, join_of, lemma_take_push, lemma_texts_push, lines_of, opt_text, texts, words_of,
};
use crate::workflow::{Workflow, WorkflowSource, provider_name};
use vstd::prelude::*;
use vstd::string::*;

verus! {

broadcast use {lemma_texts_push, lemma_take_push};

/// How Git is called.
#[derive(Debug)]
pub struct GitService {
    pub mode: GitMode,
    pub command: Option<String>,
    pub image: String,
}

/// Everything that a command goes by.
pub struct AppContext {
    pub global: GlobalOptions,
    pub output: Output,
    pub repo: RepoInfo,
    pub config: ResolvedConfig,
    pub git: GitService,
}

impl AppContext {
    /// Everything that a command goes by.
    pub fn new(global: GlobalOptions, output: Output, repo: RepoInfo, config: ResolvedConfig, git: GitService) -> (r:
        Self)
        ensures
            r == (AppContext { global, output, repo, config, git }),
    {
        AppContext { global, output, repo, config, git }
    }
}

/// What is to run, and how.
#[derive(Debug)]
pub struct RunRequest {
    pub workflow: Option<String>,
    pub event: String,
    pub dry_run: bool,
    pub keep_going: bool,
    pub arches: Vec<Architecture>,
    pub arch_overridden: bool,
    pub container_runtime: ContainerRuntime,
    pub container_override: ContainerOverride,
    pub respect_branches: bool,
    pub recursive_checkout: bool,
    pub lock: bool,
    pub hook_args: Vec<String>,
    pub branch: Option<String>,
}

#[verifier::ext_equal]
pub struct RequestedView {
    pub workflow: Option<Seq<char>>,
    pub event: Seq<char>,
    pub dry_run: bool,
    pub keep_going: bool,
    pub arches: Seq<Seq<char>>,
    pub arch_overridden: bool,
    pub container_runtime: ContainerRuntime,
    pub container_override: ContainerOverride,
    pub respect_branches: bool,
    pub recursive_checkout: bool,
    pub lock: bool,
    pub hook_args: Seq<Seq<char>>,
    pub branch: Option<Seq<char>>,
}

impl View for RunRequest {
    type V = RequestedView;

    open spec fn view(&self) -> RequestedView {
        RequestedView {
            workflow: opt_text(self.workflow),
            event: self.event@,
            dry_run: self.dry_run,
            keep_going: self.keep_going,
            arches: arch_names(self.arches@),
            arch_overridden: self.arch_overridden,
            container_runtime: self.container_runtime,
            container_override: self.container_override,
            respect_branches: self.respect_branches,
            recursive_checkout: self.recursive_checkout,
            lock: self.lock,
            hook_args: texts(self.hook_args@),
            branch: opt_text(self.branch),
        }
    }
}

impl RunRequest {
    /// The run of a request for one architecture.
    pub fn invocation_for_arch(&self, arch: Architecture) -> (r: RunInvocation)
        ensures
            r@ == (InvocationView {
                event: self@.event,
                arch: arch@,
                container_runtime: self@.container_runtime,
                container_override: self@.container_override,
                hook_args: self@.hook_args,
                workflow_args: Seq::empty(),
                branch: self@.branch,
            }),
    {
        let r = RunInvocation {
            event: self.event.clone(),
            arch,
            container_runtime: self.container_runtime,
            container_override: self.container_override,
            hook_args: copy_list(self.hook_args.as_slice()),
            workflow_args: Vec::new(),
            branch: copy_opt(&self.branch),
        };
        assert(r@.workflow_args =~= Seq::<Seq<char>>::empty());
        r
    }
}

/// What the options say of containers: that there shall be none comes first.
pub open spec fn override_of(container: bool, no_container: bool) -> ContainerOverride {
    if no_container {
        ContainerOverride::Disable
    } else if container {
        ContainerOverride::Force
    } else {
        ContainerOverride::Auto
    }
}

/// What the options say of containers.
pub fn container_override(global: &GlobalOptions) -> (r: ContainerOverride)
    ensures
        r == override_of(global.container, global.no_container),
{
    if global.no_container {
        ContainerOverride::Disable
    } else if global.container {
        ContainerOverride::Force
    } else {
        ContainerOverride::Auto
    }
}

/// What is to run by hand.
pub open spec fn run_request(ctx: AppContext, args: RunArgs) -> RequestedView {
    RequestedView {
        workflow: if args.all {
            None
        } else {
            opt_text(args.workflow)
        },
        event: args.event@,
        dry_run: args.dry_run,
        keep_going: args.keep_going || (!args.fail_fast && !ctx.config.defaults.fail_fast),
        arches: arch_names(ctx.config.defaults.arch@),
        arch_overridden: ctx.global.arch@.len() > 0,
        container_runtime: match args.container_runtime {
            Some(runtime) => runtime,
            None => ctx.config.defaults.container_runtime,
        },
        container_override: override_of(ctx.global.container, ctx.global.no_container),
        respect_branches: args.respect_branches,
        recursive_checkout: !args.no_recursive_checkout && ctx.config.defaults.recursive_checkout,
        lock: args.lock,
        hook_args: Seq::empty(),
        branch: opt_text(ctx.repo.branch),
    }
}

/// What is to run by hand.
pub fn cmd_run(ctx: &AppContext, args: &RunArgs) -> (r: RunRequest)
    ensures
        r@ == run_request(*ctx, *args),
{
    let keep_going = if args.keep_going {
        true
    } else if args.fail_fast {
        false
    } else {
        !ctx.config.defaults.fail_fast
    };
    let r = RunRequest {
        workflow: if args.all {
            None
        } else {
            copy_opt(&args.workflow)
        },
        event: args.event.clone(),
        dry_run: args.dry_run,
        keep_going,
        arches: copy_arches(ctx.config.defaults.arch.as_slice()),
        arch_overridden: ctx.global.arch.len() > 0,
        container_runtime: match args.container_runtime {
            Some(runtime) => runtime,
            None => ctx.config.defaults.container_runtime,
        },
        container_override: container_override(&ctx.global),
        respect_branches: args.respect_branches,
        recursive_checkout: !args.no_recursive_checkout && ctx.config.defaults.recursive_checkout,
        lock: args.lock,
        hook_args: Vec::new(),
        branch: copy_opt(&ctx.repo.branch),
    };
    assert(r@ =~= run_request(*ctx, *args));
    r
}

/// What a hook runs: whatever its name selects on allowed branches, one run at a time.
pub open spec fn hook_request(ctx: AppContext, args: HookArgs, branch: Option<Seq<char>>) -> Result<RequestedView, ErrorView> {
    if !known_hook(args.hook@) {
        Err(ErrorView::Usage("unknown Git hook `"@ + args.hook@ + "`"@))
    } else {
        Ok(
            RequestedView {
                workflow: None,
                event: args.hook@,
                dry_run: false,
                keep_going: !ctx.config.defaults.fail_fast,
                arches: arch_names(ctx.config.defaults.arch@),
                arch_overridden: ctx.global.arch@.len() > 0,
                container_runtime: ctx.config.defaults.container_runtime,
                container_override: override_of(ctx.global.container, ctx.global.no_container),
                respect_branches: true,
                recursive_checkout: ctx.config.defaults.recursive_checkout,
                lock: true,
                hook_args: texts(args.hook_args@),
                branch,
            },
        )
    }
}

/// What a hook runs. `stdin` is what Git hands to the hook, for those that
/// [`hook_reads_refs`] names.
pub fn cmd_hook(ctx: &AppContext, args: &HookArgs, stdin: &str) -> (r: Result<RunRequest, CiError>)
    ensures
        outcome(r) == hook_request(
            *ctx,
            *args,
            hook_branch(args.hook@, texts(args.hook_args@), stdin@, opt_text(ctx.repo.branch)),
        ),
{
    if !is_known_hook(args.hook.as_str()) {
        return Err(usage(cat3("unknown Git hook `", args.hook.as_str(), "`")));
    }
    let branch = branch_from_hook(args.hook.as_str(), args.hook_args.as_slice(), stdin, &ctx.repo.branch);
    let r = RunRequest {
        workflow: None,
        event: args.hook.clone(),
        dry_run: false,
        keep_going: !ctx.config.defaults.fail_fast,
        arches: copy_arches(ctx.config.defaults.arch.as_slice()),
        arch_overridden: ctx.global.arch.len() > 0,
        container_runtime: ctx.config.defaults.container_runtime,
        container_override: container_override(&ctx.global),
        respect_branches: true,
        recursive_checkout: ctx.config.defaults.recursive_checkout,
        lock: true,
        hook_args: copy_list(args.hook_args.as_slice()),
        branch,
    };
    Ok(r)
}

/// The branch that a reference names.
pub open spec fn branch_of_ref(reference: Seq<char>) -> Option<Seq<char>> {
    after_prefix(reference, "refs/heads/"@)
}

/// The branch of the first line that tells of one: its third word.
pub open spec fn pushed_branch(lines: Seq<Seq<char>>) -> Option<Seq<char>>
    decreases lines.len(),
{
    if lines.len() == 0 {
        None
    } else {
        let words = words_of(lines[0]);
        if words.len() >= 3 && branch_of_ref(words[2]) is Some {
            branch_of_ref(words[2])
        } else {
            pushed_branch(lines.skip(1))
        }
    }
}

/// Whether Git hands the references that are pushed to a hook.
pub open spec fn reads_refs(hook: Seq<char>) -> bool {
    hook == "pre-receive"@ || hook == "post-receive"@
}

/// Whether Git hands the references that are pushed to a hook.
pub fn hook_reads_refs(hook: &str) -> (r: bool)
    ensures
        r == reads_refs(hook@),
{
    same(hook, "pre-receive") || same(hook, "post-receive")
}

/// The branch that a hook is about: the one that is updated or pushed to, where Git tells
/// of one, else the one that is checked out.
pub open spec fn hook_branch(hook: Seq<char>, args: Seq<Seq<char>>, stdin: Seq<char>, current: Option<Seq<char>>) -> Option<
    Seq<char>,
> {
    let told = if hook == "update"@ {
        if args.len() > 0 {
            branch_of_ref(args[0])
        } else {
            None
        }
    } else if reads_refs(hook) {
        pushed_branch(lines_of(stdin))
    } else {
        None
    };
    if told is Some {
        told
    } else {
        current
    }
}

fn find_pushed_branch(stdin: &str) -> (r: Option<String>)
    ensures
        opt_text(r) == pushed_branch(lines_of(stdin@)),
{
    let lines = lines(stdin);
    let ghost all = texts(lines@);
    let mut i: usize = 0;
    assert(all.skip(0) =~= all);
    while i < lines.len()
        invariant
            i <= lines@.len(),
            all == texts(lines@),
            all == lines_of(stdin@),
            pushed_branch(all) == pushed_branch(all.skip(i as int)),
        decreases lines.len() - i,
    {
        assert(all[i as int] == lines@[i as int]@);
        assert(all.skip(i as int)[0] == all[i as int]);
        assert(all.skip(i as int).skip(1) =~= all.skip(i + 1));
        let parts = words(lines[i].as_str());
        assert(texts(parts@).len() == parts@.len());
        if parts.len() >= 3 {
            assert(texts(parts@)[2] == parts@[2]@);
            if let Some(branch) = strip_prefix(parts[2].as_str(), "refs/heads/") {
                return Some(branch.to_owned());
            }
        }
        i += 1;
    }
    assert(all.skip(i as int).len() == 0);
    None
}

/// The branch that a hook is about. `stdin` is what Git hands to the hook.
pub fn branch_from_hook(hook: &str, hook_args: &[String], stdin: &str, current: &Option<String>) -> (r: Option<String>)
    ensures
        opt_text(r) == hook_branch(hook@, texts(hook_args@), stdin@, opt_text(*current)),
{
    if same(hook, "update") {
        if hook_args.len() > 0 {
            assert(texts(hook_args@)[0] == hook_args@[0]@);
            if let Some(branch) = strip_prefix(hook_args[0].as_str(), "refs/heads/") {
                return Some(branch.to_owned());
            }
        }
        return copy_opt(current);
    }
    if hook_reads_refs(hook) {
        let told = find_pushed_branch(stdin);
        if told.is_some() {
            return told;
        }
    }
    copy_opt(current)
}

/// The architectures that a workflow runs for: those of its container, unless containers
/// are disabled or the architectures were given with the request.
pub open spec fn execution_arches(request: RequestedView, resolved: ResolvedView) -> Seq<Seq<char>> {
    let own = resolved.container.arch.items();
    if request.container_override != ContainerOverride::Disable && !request.arch_overridden && own.len() > 0 {
        own
    } else {
        request.arches
    }
}

/// The architectures that a workflow runs for.
pub fn workflow_execution_arches(request: &RunRequest, resolved: &ResolvedWorkflow) -> (r: Vec<Architecture>)
    ensures
        arch_names(r@) == execution_arches(request@, resolved@),
{
    if request.container_override != ContainerOverride::Disable && !request.arch_overridden {
        let own = resolved.container.arch.to_vec();
        assert(arch_names(own@).len() == own@.len());
        if !own.is_empty() {
            return own;
        }
    }
    copy_arches(request.arches.as_slice())
}

/// Whether the architecture is said along with the name of a workflow: where there is more
/// than one, or where the workflow names its own.
pub open spec fn arch_is_said(request: RequestedView, resolved: ResolvedView) -> bool {
    execution_arches(request, resolved).len() > 1 || (request.container_override != ContainerOverride::Disable
        && resolved.container.arch.items().len() > 0)
}

/// What is said before a workflow runs.
pub open spec fn run_title(name: Seq<char>, arch: Seq<char>, said: bool) -> Seq<char> {
    if said {
        "==> "@ + name + " ("@ + arch + ")"@
    } else {
        "==> "@ + name
    }
}

/// What is said before each run of a workflow.
pub open spec fn run_titles(request: RequestedView, resolved: ResolvedView) -> Seq<Seq<char>> {
    execution_arches(request, resolved).map_values(
        |arch: Seq<char>| run_title(resolved.name, arch, arch_is_said(request, resolved)),
    )
}

/// The workflows as things that need others.
pub open spec fn workflow_nodes(ws: Seq<Workflow>) -> Seq<NodeView> {
    ws.map_values(|w: Workflow| NodeView { id: w.name@, needs: workflow_needs(w) })
}

/// What a workflow needs: only native ones can say so.
pub open spec fn workflow_needs(w: Workflow) -> Seq<Seq<char>> {
    match w.source {
        WorkflowSource::NativeYaml(native) => texts(native.needs@),
        _ => Seq::empty(),
    }
}

/// Why a workflow runs: the reason for which it was selected, or that another needs it.
pub open spec fn run_reasons(w: Workflow, config: ResolvedConfig, request: RequestedView) -> Seq<Seq<char>> {
    match match_reason(
        w,
        config,
        request.workflow,
        request.event,
        request.branch,
        request.respect_branches,
    ) {
        Some(reason) => seq![reason],
        None => seq!["needed by another workflow"@],
    }
}

/// The workflows that a request selects, by their positions.
pub open spec fn selected(ws: Seq<Workflow>, config: ResolvedConfig, request: RequestedView) -> Seq<int> {
    matched(ws, config, request.workflow, request.event, request.branch, request.respect_branches)
}

/// What a dry run says of the runs of a workflow.
pub open spec fn dry_lines_of(w: Workflow, config: ResolvedConfig, request: RequestedView) -> Seq<Seq<char>> {
    execution_arches(request, resolution(w, config, request.event)).map_values(
        |arch: Seq<char>|
            "would run "@ + w.name@ + " ["@ + w.provider.word() + "] for "@ + arch + " because "@ + join_of(
                run_reasons(w, config, request),
                "; "@,
            ),
    )
}

/// What a dry run says.
pub open spec fn dry_lines(ws: Seq<Workflow>, order: Seq<int>, config: ResolvedConfig, request: RequestedView) -> Seq<
    Seq<char>,
>
    decreases order.len(),
{
    if order.len() == 0 {
        Seq::empty()
    } else {
        dry_lines(ws, order.drop_last(), config, request) + dry_lines_of(ws[order.last()], config, request)
    }
}

/// What a request comes to: nothing to run, with a status; what a dry run says; or the
/// positions of the workflows to run, in order.
#[verifier::ext_equal]
pub enum RunPlanView {
    Nothing(i32),
    DryRun(Seq<Seq<char>>),
    Run(Seq<int>),
}

/// Whether a workflow has a name.
pub open spec fn has_workflow(ws: Seq<Workflow>, name: Seq<char>) -> bool {
    exists|i: int| 0 <= i < ws.len() && (#[trigger] ws[i]).name@ == name
}

/// What a request comes to. A workflow that was asked for and does not exist gives the
/// status of what is not found.
pub open spec fn run_plan(ws: Seq<Workflow>, config: ResolvedConfig, request: RequestedView) -> Result<RunPlanView, ErrorView> {
    let chosen = selected(ws, config, request);
    if chosen.len() == 0 {
        Ok(
            RunPlanView::Nothing(
                match request.workflow {
                    Some(name) => if has_workflow(ws, name) {
                        0
                    } else {
                        127
                    },
                    None => 0,
                },
            ),
        )
    } else {
        match full_order(workflow_nodes(ws), "workflow"@, chosen) {
            Err(e) => Err(e),
            Ok(order) => if request.dry_run {
                Ok(RunPlanView::DryRun(dry_lines(ws, order, config, request)))
            } else {
                Ok(RunPlanView::Run(order))
            },
        }
    }
}

/// A workflow that runs, for its architectures.
pub struct PlannedRun<'a> {
    pub item: WorkflowMatch<'a>,
    pub arches: Vec<Architecture>,
    pub titles: Vec<String>,
}

/// What a request comes to.
pub enum RunPlan<'a> {
    Nothing(i32),
    DryRun(Vec<String>),
    Run(Vec<PlannedRun<'a>>),
}

/// Whether a run is that of a workflow for a request.
pub open spec fn planned_is(p: PlannedRun, w: Workflow, config: ResolvedConfig, request: RequestedView) -> bool {
    &&& *p.item.workflow == w
    &&& p.item.resolved@ == resolution(w, config, request.event)
    &&& texts(p.item.reasons@) == run_reasons(w, config, request)
    &&& arch_names(p.arches@) == execution_arches(request, resolution(w, config, request.event))
    &&& texts(p.titles@) == run_titles(request, resolution(w, config, request.event))
}

/// Whether runs are those of the workflows at some positions.
pub open spec fn planned_are(
    ps: Seq<PlannedRun>,
    ws: Seq<Workflow>,
    order: Seq<int>,
    config: ResolvedConfig,
    request: RequestedView,
) -> bool {
    &&& ps.len() == order.len()
    &&& forall|i: int|
        #![trigger ps[i]]
        #![trigger order[i]]
        0 <= i < ps.len() ==> ps[i].item.position == order[i] && 0 <= order[i] < ws.len() && planned_is(
            ps[i],
            ws[order[i]],
            config,
            request,
        )
}

/// Whether a plan is what a request comes to.
pub open spec fn plan_is(plan: RunPlan, view: RunPlanView, ws: Seq<Workflow>, config: ResolvedConfig, request: RequestedView) -> bool {
    match view {
        RunPlanView::Nothing(code) => plan matches RunPlan::Nothing(c) && c == code,
        RunPlanView::DryRun(lines) => plan matches RunPlan::DryRun(l) && texts(l@) == lines,
        RunPlanView::Run(order) => plan matches RunPlan::Run(ps) && planned_are(ps@, ws, order, config, request),
    }
}

fn needs_of(w: &Workflow) -> (r: Vec<String>)
    ensures
        texts(r@) == workflow_needs(*w),
{
    match &w.source {
        WorkflowSource::NativeYaml(native) => copy_list(native.needs.as_slice()),
        _ => {
            let none: Vec<String> = Vec::new();
            assert(texts(none@) =~= Seq::<Seq<char>>::empty());
            none
        },
    }
}

fn make_nodes(workflows: &[Workflow]) -> (r: Vec<Node>)
    ensures
        node_views(r@) == workflow_nodes(workflows@),
        r@.len() == workflows@.len(),
{
    let mut nodes: Vec<Node> = Vec::new();
    let ghost all = workflow_nodes(workflows@);
    let mut i: usize = 0;
    assert(node_views(nodes@) =~= all.take(0));
    while i < workflows.len()
        invariant
            i <= workflows@.len(),
            all == workflow_nodes(workflows@),
            nodes@.len() == i,
            node_views(nodes@) == all.take(i as int),
        decreases workflows.len() - i,
    {
        let node = Node { id: workflows[i].name.clone(), needs: needs_of(&workflows[i]) };
        let ghost before = nodes@;
        assert(node@ == all[i as int]);
        nodes.push(node);
        assert(node_views(nodes@) =~= node_views(before).push(node@));
        i += 1;
    }
    assert(all.take(i as int) =~= all);
    nodes
}

/// The reasons of the match at a position, where there is one.
fn find_reasons(matches: &[WorkflowMatch], position: usize) -> (r: Option<Vec<String>>)
    ensures
        match r {
            Some(reasons) => exists|i: int|
                0 <= i < matches@.len() && (#[trigger] matches@[i]).position == position && texts(reasons@) == texts(
                    matches@[i].reasons@,
                ),
            None => forall|i: int| 0 <= i < matches@.len() ==> (#[trigger] matches@[i]).position != position,
        },
{
    let mut i: usize = 0;
    while i < matches.len()
        invariant
            i <= matches@.len(),
            forall|k: int| 0 <= k < i ==> (#[trigger] matches@[k]).position != position,
        decreases matches.len() - i,
    {
        if matches[i].position == position {
            let reasons = copy_list(matches[i].reasons.as_slice());
            assert(texts(reasons@) == texts(matches@[i as int].reasons@));
            return Some(reasons);
        }
        i += 1;
    }
    None
}

fn make_titles(request: &RunRequest, resolved: &ResolvedWorkflow, arches: &[Architecture]) -> (r: Vec<String>)
    requires
        arch_names(arches@) == execution_arches(request@, resolved@),
    ensures
        texts(r@) == run_titles(request@, resolved@),
{
    let ghost names = arch_names(arches@);
    assert(names.len() == arches@.len());
    let said = arches.len() > 1 || (request.container_override != ContainerOverride::Disable
        && !resolved.container.arch.is_empty());
    let mut out: Vec<String> = Vec::new();
    let ghost all = run_titles(request@, resolved@);
    let mut i: usize = 0;
    assert(texts(out@) =~= all.take(0));
    while i < arches.len()
        invariant
            i <= arches@.len(),
            names == arch_names(arches@),
            names == execution_arches(request@, resolved@),
            all == run_titles(request@, resolved@),
            said == arch_is_said(request@, resolved@),
            texts(out@) == all.take(i as int),
        decreases arches.len() - i,
    {
        assert(names[i as int] == arches@[i as int]@);
        let title = if said {
            cat5("==> ", resolved.name.as_str(), " (", arches[i].as_str(), ")")
        } else {
            cat2("==> ", resolved.name.as_str())
        };
        assert(all[i as int] == title@);
        out.push(title);
        i += 1;
    }
    assert(all.take(i as int) =~= all);
    out
}

fn add_dry_lines(out: &mut Vec<String>, request: &RunRequest, config: &ResolvedConfig, p: &PlannedRun, Ghost(w): Ghost<
    Workflow,
>)
    requires
        planned_is(*p, w, *config, request@),
    ensures
        texts(final(out)@) == texts(old(out)@) + dry_lines_of(w, *config, request@),
{
    let ghost start = texts(out@);
    let ghost all = dry_lines_of(w, *config, request@);
    let ghost names = arch_names(p.arches@);
    let because = join(p.item.reasons.as_slice(), "; ");
    let provider = provider_name(&p.item.workflow.provider);
    let mut i: usize = 0;
    assert(texts(out@) =~= start + all.take(0));
    while i < p.arches.len()
        invariant
            i <= p.arches@.len(),
            planned_is(*p, w, *config, request@),
            names == arch_names(p.arches@),
            all == dry_lines_of(w, *config, request@),
            because@ == join_of(run_reasons(w, *config, request@), "; "@),
            provider@ == w.provider.word(),
            texts(out@) == start + all.take(i as int),
        decreases p.arches.len() - i,
    {
        assert(names[i as int] == p.arches@[i as int]@);
        let head = cat6(
            "would run ",
            p.item.workflow.name.as_str(),
            " [",
            provider,
            "] for ",
            p.arches[i].as_str(),
        );
        let line = cat3(head.as_str(), " because ", because.as_str());
        assert(line@ =~= all[i as int]);
        out.push(line);
        assert(start + all.take(i + 1) =~= (start + all.take(i as int)).push(all[i as int]));
        i += 1;
    }
    assert(all.take(i as int) =~= all);
}

fn name_exists(workflows: &[Workflow], name: &str) -> (r: bool)
    ensures
        r == has_workflow(workflows@, name@),
{
    let mut i: usize = 0;
    while i < workflows.len()
        invariant
            i <= workflows@.len(),
            forall|k: int| 0 <= k < i ==> (#[trigger] workflows@[k]).name@ != name@,
        decreases workflows.len() - i,
    {
        if same(workflows[i].name.as_str(), name) {
            assert(workflows@[i as int].name@ == name@);
            return true;
        }
        i += 1;
    }
    false
}

/// What a request comes to.
pub fn execute_run<'a>(request: &RunRequest, workflows: &'a [Workflow], config: &ResolvedConfig) -> (r: Result<
    RunPlan<'a>,
    CiError,
>)
    ensures
        match r {
            Ok(plan) => run_plan(workflows@, *config, request@) is Ok && plan_is(
                plan,
                run_plan(workflows@, *config, request@)->Ok_0,
                workflows@,
                *config,
                request@,
            ),
            Err(e) => run_plan(workflows@, *config, request@) == Err::<RunPlanView, _>(e@),
        },
{
    let ghost ws = workflows@;
    let ghost req = request@;
    let ghost chosen = selected(ws, *config, req);
    let matches = select_workflows(
        workflows,
        config,
        opt_str(&request.workflow),
        request.event.as_str(),
        opt_str(&request.branch),
        request.respect_branches,
    );
    if matches.len() == 0 {
        return Ok(
            RunPlan::Nothing(
                match &request.workflow {
                    Some(name) => if name_exists(workflows, name.as_str()) {
                        0
                    } else {
                        127
                    },
                    None => 0,
                },
            ),
        );
    }
    let positions_chosen = chosen_positions(matches.as_slice(), Ghost(chosen));
    assert forall|i: int| 0 <= i < positions_chosen@.len() implies #[trigger] positions_chosen@[i] < ws.len() by {
        assert(positions(positions_chosen@)[i] == chosen[i]);
        assert(matches@[i].position == chosen[i]);
    }
    let nodes = make_nodes(workflows);
    let order = match order_chosen(nodes.as_slice(), "workflow", positions_chosen.as_slice()) {
        Ok(order) => order,
        Err(e) => return Err(e),
    };
    let ghost all = positions(order@);
    let mut runs: Vec<PlannedRun<'a>> = Vec::new();
    let mut lines: Vec<String> = Vec::new();
    let mut i: usize = 0;
    assert(all.take(0) =~= Seq::<int>::empty());
    assert(texts(lines@) =~= dry_lines(ws, all.take(0), *config, req));
    while i < order.len()
        invariant
            i <= order@.len(),
            ws == workflows@,
            req == request@,
            chosen == selected(ws, *config, req),
            matches_are(
                matches@,
                ws,
                chosen,
                *config,
                req.workflow,
                req.event,
                req.branch,
                req.respect_branches,
            ),
            all == positions(order@),
            forall|k: int| 0 <= k < order@.len() ==> #[trigger] order@[k] < ws.len(),
            planned_are(runs@, ws, all.take(i as int), *config, req),
            texts(lines@) == dry_lines(ws, all.take(i as int), *config, req),
        decreases order.len() - i,
    {
        let at = order[i];
        assert(all[i as int] == at);
        assert(all.take(i + 1).drop_last() =~= all.take(i as int));
        let workflow = &workflows[at];
        let resolved = resolve_workflow(workflow, config, request.event.as_str());
        let reasons = match find_reasons(matches.as_slice(), at) {
            Some(reasons) => {
                assert(texts(reasons@) == run_reasons(*workflow, *config, req)) by {
                    let k = choose|k: int|
                        0 <= k < matches@.len() && (#[trigger] matches@[k]).position == at && texts(reasons@) == texts(
                            matches@[k].reasons@,
                        );
                    assert(chosen[k] == at);
                }
                reasons
            },
            None => {
                let mut reasons: Vec<String> = Vec::new();
                reasons.push("needed by another workflow".to_owned());
                assert(texts(reasons@) =~= run_reasons(*workflow, *config, req)) by {
                    law_selection_is_by_reason(
                        ws,
                        *config,
                        req.workflow,
                        req.event,
                        req.branch,
                        req.respect_branches,
                        at as int,
                    );
                    if chosen.contains(at as int) {
                        let k = choose|k: int| 0 <= k < chosen.len() && chosen[k] == at as int;
                        assert(matches@[k].position == at);
                    }
                }
                reasons
            },
        };
        let arches = workflow_execution_arches(request, &resolved);
        let titles = make_titles(request, &resolved, arches.as_slice());
        let run = PlannedRun {
            item: WorkflowMatch { position: at, workflow, resolved, reasons },
            arches,
            titles,
        };
        assert(planned_is(run, ws[at as int], *config, req));
        add_dry_lines(&mut lines, request, config, &run, Ghost(ws[at as int]));
        let ghost before = runs@;
        runs.push(run);
        assert forall|k: int| 0 <= k < runs@.len() implies (#[trigger] runs@[k]).item.position == all.take(i + 1)[k]
            && 0 <= all.take(i + 1)[k] < ws.len() && planned_is(runs@[k], ws[all.take(i + 1)[k]], *config, req) by {
            if k < before.len() {
                assert(runs@[k] == before[k]);
                assert(all.take(i + 1)[k] == all.take(i as int)[k]);
            }
        }
        i += 1;
    }
    assert(all.take(i as int) =~= all);
    if request.dry_run {
        Ok(RunPlan::DryRun(lines))
    } else {
        Ok(RunPlan::Run(runs))
    }
}

/// The positions of matches.
fn chosen_positions(matches: &[WorkflowMatch], Ghost(chosen): Ghost<Seq<int>>) -> (r: Vec<usize>)
    requires
        matches@.len() == chosen.len(),
        forall|i: int| 0 <= i < matches@.len() ==> (#[trigger] matches@[i]).position == chosen[i],
    ensures
        positions(r@) == chosen,
{
    let mut out: Vec<usize> = Vec::new();
    let mut i: usize = 0;
    while i < matches.len()
        invariant
            i <= matches@.len(),
            matches@.len() == chosen.len(),
            forall|k: int| 0 <= k < matches@.len() ==> (#[trigger] matches@[k]).position == chosen[k],
            out@.len() == i,
            forall|k: int| 0 <= k < i ==> #[trigger] out@[k] == chosen[k],
        decreases matches.len() - i,
    {
        out.push(matches[i].position);
        i += 1;
    }
    assert(positions(out@) =~= chosen);
    out
}

/// A dry run shows what a run would do: the same workflows in the same order, and where
/// there is nothing to do, or no order to do it in, it ends as the run does.
pub proof fn law_a_dry_run_shows_the_run(ws: Seq<Workflow>, config: ResolvedConfig, request: RequestedView)
    requires
        !request.dry_run,
    ensures
        run_plan(ws, config, RequestedView { dry_run: true, ..request }) == match run_plan(ws, config, request) {
            Ok(RunPlanView::Run(order)) => Ok(RunPlanView::DryRun(dry_lines(ws, order, config, request))),
            other => other,
        },
{
    let dry = RequestedView { dry_run: true, ..request };
    assert(selected(ws, config, dry) == selected(ws, config, request));
    if let Ok(order) = full_order(workflow_nodes(ws), "workflow"@, selected(ws, config, request)) {
        lemma_lines_of_a_dry_run(ws, order, config, request);
    }
}

proof fn lemma_lines_of_a_dry_run(ws: Seq<Workflow>, order: Seq<int>, config: ResolvedConfig, request: RequestedView)
    ensures
        dry_lines(ws, order, config, RequestedView { dry_run: true, ..request }) == dry_lines(ws, order, config, request),
    decreases order.len(),
{
    if order.len() > 0 {
        lemma_lines_of_a_dry_run(ws, order.drop_last(), config, request);
        let dry = RequestedView { dry_run: true, ..request };
        assert(dry_lines_of(ws[order.last()], config, dry) =~= dry_lines_of(ws[order.last()], config, request));
    }
}

/// Where what was selected stands in an order in which everything comes after what it needs,
/// and so wherever nothing needs anything, the runs come in the order of the matches.
pub proof fn law_runs_keep_the_order_of_the_matches(ws: Seq<Workflow>, config: ResolvedConfig, request: RequestedView)
    requires
        !request.dry_run,
        selected(ws, config, request).len() > 0,
        after_needs(workflow_nodes(ws), selected(ws, config, request)) || forall|i: int|
            0 <= i < ws.len() ==> workflow_needs(#[trigger] ws[i]).len() == 0,
    ensures
        run_plan(ws, config, request) == Ok::<_, ErrorView>(RunPlanView::Run(selected(ws, config, request))),
{
    let chosen = selected(ws, config, request);
    let nodes = workflow_nodes(ws);
    lemma_selected_positions(ws, config, request);
    assert(after_needs(nodes, chosen)) by {
        if !after_needs(nodes, chosen) {
            assert forall|k: int, j: int|
                0 <= k < chosen.len() && 0 <= j < nodes[chosen[k]].needs.len() implies #[trigger] need_is_met(
                nodes,
                chosen,
                k,
                j,
            ) by {
                assert(nodes[chosen[k]].needs == workflow_needs(ws[chosen[k]]));
            }
        }
    }
    law_choices_in_order_stay(nodes, "workflow"@, chosen);
}

proof fn lemma_selected_positions(ws: Seq<Workflow>, config: ResolvedConfig, request: RequestedView)
    ensures
        forall|i: int| 0 <= i < selected(ws, config, request).len() ==> 0 <= #[trigger] selected(ws, config, request)[i] < ws.len(),
        selected(ws, config, request).no_duplicates(),
    decreases ws.len(),
{
    if ws.len() > 0 {
        lemma_selected_positions(ws.drop_last(), config, request);
        let head = selected(ws.drop_last(), config, request);
        let all = selected(ws, config, request);
        assert forall|i: int| 0 <= i < all.len() implies 0 <= #[trigger] all[i] < ws.len() by {
            if i < head.len() {
                assert(all[i] == head[i]);
            }
        }
        assert forall|i: int, j: int| 0 <= i < j < all.len() implies all[i] != all[j] by {
            assert(all[i] == head[i]);
            if j < head.len() {
                assert(all[j] == head[j]);
            }
        }
    }
}

/// Containers are forbidden where that is asked for, whatever else is, forced where that is
/// asked for, and else left to the settings.
pub proof fn law_containers_on_the_command_line(container: bool)
    ensures
        override_of(container, true) is Disable,
        override_of(true, false) is Force,
        override_of(false, false) is Auto,
{
}

/// What a run is asked for: the workflow that is named unless all are to run, under the event
/// and with the settings that are given, else those of the configuration. It goes on after a
/// failure where that is asked for, or is usual and not forbidden.
pub proof fn law_what_a_run_is_asked_for(ctx: AppContext, args: RunArgs)
    ensures
        ({
            let r = run_request(ctx, args);
            &&& args.all ==> r.workflow is None
            &&& !args.all ==> r.workflow == opt_text(args.workflow)
            &&& r.event == args.event@ && r.dry_run == args.dry_run && r.lock == args.lock
            &&& r.respect_branches == args.respect_branches
            &&& args.keep_going ==> r.keep_going
            &&& !args.keep_going && args.fail_fast ==> !r.keep_going
            &&& !args.keep_going && !args.fail_fast ==> r.keep_going == !ctx.config.defaults.fail_fast
            &&& args.no_recursive_checkout ==> !r.recursive_checkout
            &&& !args.no_recursive_checkout ==> r.recursive_checkout == ctx.config.defaults.recursive_checkout
            &&& args.container_runtime matches Some(runtime) ==> r.container_runtime == runtime
            &&& args.container_runtime is None ==> r.container_runtime == ctx.config.defaults.container_runtime
            &&& r.arch_overridden == (ctx.global.arch@.len() > 0)
            &&& r.arches == arch_names(ctx.config.defaults.arch@)
            &&& r.branch == opt_text(ctx.repo.branch)
            &&& r.hook_args.len() == 0
        }),
{
}

/// A hook runs what it selects: no workflow is named, its name is the event, branches are
/// respected, one run keeps out another, and its arguments are passed on. A hook that is not
/// known is refused as wrong use.
pub proof fn law_what_a_hook_runs(ctx: AppContext, args: HookArgs, branch: Option<Seq<char>>)
    ensures
        match hook_request(ctx, args, branch) {
            Ok(r) => {
                &&& known_hook(args.hook@)
                &&& r.workflow is None && r.event == args.hook@ && r.branch == branch
                &&& r.respect_branches && r.lock && !r.dry_run
                &&& r.hook_args == texts(args.hook_args@)
                &&& r.keep_going == !ctx.config.defaults.fail_fast
                &&& r.recursive_checkout == ctx.config.defaults.recursive_checkout
                &&& r.container_runtime == ctx.config.defaults.container_runtime
            },
            Err(e) => !known_hook(args.hook@) && e.code() == 2,
        },
{
}

/// The branch of a hook is the one that it is told of: `update` in its first argument, the
/// hooks of a push that was received in their input; where they are told of none, and for
/// every other hook, it is the branch that the repository is on.
pub proof fn law_the_branch_of_a_hook(
    hook: Seq<char>,
    args: Seq<Seq<char>>,
    stdin: Seq<char>,
    current: Option<Seq<char>>,
    branch: Seq<char>,
)
    ensures
        hook == "update"@ && args.len() > 0 && args[0] == "refs/heads/"@ + branch ==> hook_branch(hook, args, stdin, current)
            == Some(branch),
        hook == "update"@ && (args.len() == 0 || !"refs/heads/"@.is_prefix_of(args[0])) ==> hook_branch(
            hook,
            args,
            stdin,
            current,
        ) == current,
        hook == "pre-receive"@ || hook == "post-receive"@ ==> hook_branch(hook, args, stdin, current) == (match pushed_branch(
            lines_of(stdin),
        ) {
            Some(b) => Some(b),
            None => current,
        }),
        hook != "update"@ && hook != "pre-receive"@ && hook != "post-receive"@ ==> hook_branch(hook, args, stdin, current)
            == current,
{
    reveal_strlit("update");
    reveal_strlit("pre-receive");
    reveal_strlit("post-receive");
    assert("update"@.len() != "pre-receive"@.len());
    assert("update"@.len() != "post-receive"@.len());
    let p = "refs/heads/"@;
    assert((p + branch).skip(p.len() as int) =~= branch);
    assert(p =~= (p + branch).subrange(0, p.len() as int));
}

/// A push tells of the branch in the third word of its first line that names one; lines
/// that name none are passed over.
pub proof fn law_the_branch_that_was_pushed(lines: Seq<Seq<char>>, i: int, branch: Seq<char>)
    requires
        0 <= i < lines.len(),
        words_of(lines[i]).len() >= 3,
        words_of(lines[i])[2] == "refs/heads/"@ + branch,
        forall|k: int|
            0 <= k < i ==> words_of(#[trigger] lines[k]).len() < 3 || !"refs/heads/"@.is_prefix_of(words_of(lines[k])[2]),
    ensures
        pushed_branch(lines) == Some(branch),
    decreases lines.len(),
{
    let p = "refs/heads/"@;
    assert((p + branch).skip(p.len() as int) =~= branch);
    assert(p =~= (p + branch).subrange(0, p.len() as int));
    if i > 0 {
        assert(words_of(lines[0]).len() < 3 || !p.is_prefix_of(words_of(lines[0])[2]));
        let t = lines.skip(1);
        assert(t[i - 1] == lines[i]);
        assert forall|k: int| 0 <= k < i - 1 implies words_of(#[trigger] t[k]).len() < 3 || !p.is_prefix_of(
            words_of(t[k])[2],
        ) by {
            assert(t[k] == lines[k + 1]);
        }
        law_the_branch_that_was_pushed(t, i - 1, branch);
    }
}

/// A workflow runs for the architectures of its container, unless others are asked for on
/// the command line or containers are forbidden; else for those of the run. The architecture
/// is said where there is a choice.
pub proof fn law_which_architectures_a_workflow_runs_for(request: RequestedView, r: ResolvedView, i: int)
    ensures
        ({
            let own = r.container.arch.items();
            let arches = execution_arches(request, r);
            &&& own.len() == 0 ==> arches == request.arches
            &&& request.arch_overridden ==> arches == request.arches
            &&& request.container_override is Disable ==> arches == request.arches
            &&& own.len() > 0 && !request.arch_overridden && !(request.container_override is Disable) ==> arches == own
            &&& run_titles(request, r).len() == arches.len()
            &&& 0 <= i < arches.len() ==> ("==> "@ + r.name).is_prefix_of(run_titles(request, r)[i])
            &&& 0 <= i < arches.len() && arches.len() > 1 ==> run_titles(request, r)[i] == "==> "@ + r.name + " ("@ + arches[i]
                + ")"@
            &&& arches.len() == 1 && own.len() == 0 ==> run_titles(request, r)[0] == "==> "@ + r.name
        }),
{
    let arches = execution_arches(request, r);
    if 0 <= i < arches.len() {
        let t = run_titles(request, r)[i];
        let p = "==> "@ + r.name;
        assert(p =~= t.subrange(0, p.len() as int));
    }
}

/// A workflow that is asked for and is not there is not found; one that is there but held
/// back, and an event that nothing runs on, end well.
pub proof fn law_when_there_is_nothing_to_run(ws: Seq<Workflow>, config: ResolvedConfig, request: RequestedView)
    requires
        forall|i: int|
            0 <= i < ws.len() ==> match_reason(
                #[trigger] ws[i],
                config,
                request.workflow,
                request.event,
                request.branch,
                request.respect_branches,
            ) is None,
    ensures
        run_plan(ws, config, request) matches Ok(RunPlanView::Nothing(code)) && (code == 127 || code == 0) && (code == 127)
            == (request.workflow is Some && forall|i: int|
            0 <= i < ws.len() ==> (#[trigger] ws[i]).name@ != request.workflow->0),
{
    let chosen = selected(ws, config, request);
    if chosen.len() > 0 {
        let k = chosen[0];
        lemma_selected_positions(ws, config, request);
        law_selection_is_by_reason(
            ws,
            config,
            request.workflow,
            request.event,
            request.branch,
            request.respect_branches,
            k,
        );
        assert(chosen.contains(k));
        assert(match_reason(
            ws[k],
            config,
            request.workflow,
            request.event,
            request.branch,
            request.respect_branches,
        ) is None);
    }
}

/// What runs is what was selected and what that needs, each after its needs: nothing that was
/// selected is left out.
pub proof fn law_everything_selected_runs(ws: Seq<Workflow>, config: ResolvedConfig, request: RequestedView, i: int)
    requires
        !request.dry_run,
        0 <= i < ws.len(),
        match_reason(
            ws[i],
            config,
            request.workflow,
            request.event,
            request.branch,
            request.respect_branches,
        ) is Some,
    ensures
        match run_plan(ws, config, request) {
            Ok(RunPlanView::Run(order)) => order.contains(i) && order.no_duplicates() && after_needs(workflow_nodes(ws), order),
            Ok(_) => false,
            Err(_) => true,
        },
{
    law_selection_is_by_reason(
        ws,
        config,
        request.workflow,
        request.event,
        request.branch,
        request.respect_branches,
        i,
    );
    let chosen = selected(ws, config, request);
    let k = choose|k: int| 0 <= k < chosen.len() && chosen[k] == i;
    if full_order(workflow_nodes(ws), "workflow"@, chosen) is Ok {
        law_chosen_come_after_their_needs(workflow_nodes(ws), "workflow"@, chosen);
        assert(full_order(workflow_nodes(ws), "workflow"@, chosen)->Ok_0.contains(chosen[k]));
    }
}

/// The architecture is said where a workflow names its own and containers are not forbidden, or
/// where there is more than one.
pub proof fn law_when_the_architecture_is_said(request: RequestedView, r: ResolvedView)
    ensures
        r.container.arch.items().len() > 0 && !(request.container_override is Disable) ==> arch_is_said(request, r),
        execution_arches(request, r).len() > 1 ==> arch_is_said(request, r),
        request.container_override is Disable && request.arches.len() <= 1 ==> !arch_is_said(request, r),
        r.container.arch.items().len() == 0 && request.arches.len() <= 1 ==> !arch_is_said(request, r),
{
}

/// What is planned for a workflow is its own: its settings for the event, why it runs, and one run
/// with one title for each architecture.
pub proof fn law_what_is_planned_for_a_workflow(p: PlannedRun, w: Workflow, config: ResolvedConfig, request: RequestedView)
    requires
        planned_is(p, w, config, request),
    ensures
        *p.item.workflow == w,
        p.item.resolved@ == resolution(w, config, request.event),
        p.titles@.len() == p.arches@.len(),
        p.item.reasons@.len() == 1,
        match_reason(
            w,
            config,
            request.workflow,
            request.event,
            request.branch,
            request.respect_branches,
        ) matches Some(reason) ==> p.item.reasons@[0]@ == reason,
        request.arch_overridden ==> arch_names(p.arches@) == request.arches,
{
    assert(texts(p.titles@).len() == p.titles@.len());
    assert(arch_names(p.arches@).len() == p.arches@.len());
    assert(texts(p.item.reasons@).len() == p.item.reasons@.len());
    assert(texts(p.item.reasons@)[0] == p.item.reasons@[0]@);
}

/// Only a workflow of steps can need others, and it needs those that it lists.
pub proof fn law_what_a_workflow_needs(w: Workflow)
    ensures
        w.source matches WorkflowSource::NativeYaml(native) ==> workflow_needs(w) == texts(native.needs@),
        !(w.source is NativeYaml) ==> workflow_needs(w).len() == 0,
{
}

} // verus!
