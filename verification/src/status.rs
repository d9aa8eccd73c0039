//! What the tool says about a repository: its workflows, its state, and why something runs.

use crate::actions::ActionEvent;
use crate::arch::{Architecture, arch_names, arch_texts, arches_line, format_arches, platform_of};
use crate::cli::{ExplainArgs, ListArgs};
use crate::conditions::{
    ExpressionContext, ExpressionView, Target, asked_about, condition_targets, effective_condition,
    evaluate_condition, holds, lemma_single_piece, target_views, targets_in,
};
use crate::config::{
    ContainerRuntime, GitMode, chosen_arches, git_mode_named, law_words_of_choices, selected_arches,
};
use crate::containers::runtime_choice;
use crate::environ::{container_platform, platform_for};
use crate::install::{BinaryState, HookState, InstallState};
use crate::maps::StringMap;
use crate::native::{step_name, step_title};
use crate::paths::{join_path, joined, lemma_split_concat};
use crate::runner::AppContext;
use crate::schema::{lemma_join_holds, lemma_within};
use crate::select::{ResolvedWorkflow, debug_list, debug_strings, explain_subject, explanation};
use crate::strings::{cat2, cat3, cat4, cat5, cat6, decimal, join, opt_str, pad_right};
use crate::text::{
    before_first, decimal_of, has_text, join_of, law_columns_keep_their_width, lemma_first_index,
    lemma_take_push, lemma_texts_push, lower, occurs_at, opt_slice, opt_text, padded, split_at_char,
    texts,
};
use crate::workflow::{NativeStep, StepView, Workflow, WorkflowSource, kind_name, provider_name};
use vstd::prelude::*;
use vstd::string::*;

verus! {

broadcast use {lemma_texts_push, lemma_take_push};

/// A line of the list of workflows: columns for a program, or aligned ones to look at.
pub open spec fn list_line(w: Workflow, porcelain: bool) -> Seq<char> {
    if porcelain {
        w.name@ + "\t"@ + w.provider.word() + "\t"@ + w.kind.word() + "\t"@ + w.path@
    } else {
        padded(w.name@, 28) + " "@ + padded(w.provider.word(), 15) + " "@ + padded(w.kind.word(), 12) + " "@ + w.path@
    }
}

/// The lines of the list of workflows.
pub open spec fn list_lines(ws: Seq<Workflow>, porcelain: bool) -> Seq<Seq<char>> {
    ws.map_values(|w: Workflow| list_line(w, porcelain))
}

fn make_list_line(w: &Workflow, porcelain: bool) -> (r: String)
    ensures
        r@ == list_line(*w, porcelain),
{
    let provider = provider_name(&w.provider);
    let kind = kind_name(&w.kind);
    if porcelain {
        let head = cat4(w.name.as_str(), "\t", provider, "\t");
        return cat4(head.as_str(), kind, "\t", w.path.as_str());
    }
    let name = pad_right(w.name.as_str(), 28);
    let provider = pad_right(provider, 15);
    let kind = pad_right(kind, 12);
    let head = cat4(name.as_str(), " ", provider.as_str(), " ");
    cat4(head.as_str(), kind.as_str(), " ", w.path.as_str())
}

/// The lines of the list of workflows. Where there are none, that is what is said, unless a
/// program reads it.
pub fn cmd_list(workflows: &[Workflow], args: &ListArgs, stdout_is_terminal: bool, ci_dir: &str) -> (r: (Vec<String>, Option<String>))
    ensures
        ({
            let porcelain = args.porcelain || (!args.no_porcelain && !stdout_is_terminal);
            &&& texts(r.0@) == list_lines(workflows@, porcelain)
            &&& opt_text(r.1) == if workflows@.len() == 0 && !porcelain {
                Some("No workflows found in "@ + ci_dir@)
            } else {
                None
            }
        }),
{
    let porcelain = args.use_porcelain(stdout_is_terminal);
    let mut out: Vec<String> = Vec::new();
    let ghost all = list_lines(workflows@, porcelain);
    let mut i: usize = 0;
    assert(texts(out@) =~= all.take(0));
    while i < workflows.len()
        invariant
            i <= workflows@.len(),
            all == list_lines(workflows@, porcelain),
            texts(out@) == all.take(i as int),
        decreases workflows.len() - i,
    {
        let line = make_list_line(&workflows[i], porcelain);
        assert(all[i as int] == line@);
        out.push(line);
        i += 1;
    }
    assert(all.take(i as int) =~= all);
    let note = if workflows.len() == 0 && !porcelain {
        Some(cat2("No workflows found in ", ci_dir))
    } else {
        None
    };
    (out, note)
}

/// The name of a workflow is what stands before the first tab of its line for a program,
/// as long as it holds no tab itself.
pub proof fn law_porcelain_starts_with_the_name(w: Workflow)
    requires
        !w.name@.contains('\t'),
    ensures
        before_first(list_line(w, true), '\t') == w.name@,
{
    let line = list_line(w, true);
    let n = w.name@.len() as int;
    reveal_strlit("\t");
    assert(line[n] == '\t');
    assert forall|k: int| 0 <= k < n implies line[k] != '\t' by {
        assert(line[k] == w.name@[k]);
        assert(w.name@.contains(w.name@[k]));
    }
    lemma_first_index(line, '\t', n);
    assert(line.take(n) =~= w.name@);
}

/// What is said of the tool itself.
pub fn cmd_self(version: &str, executable: &str, repository: &str) -> (r: Vec<String>)
    ensures
        texts(r@) == seq![
            "ci "@ + version@,
            "executable: "@ + executable@,
            "repository: "@ + repository@,
        ],
{
    let mut out: Vec<String> = Vec::new();
    out.push(cat2("ci ", version));
    out.push(cat2("executable: ", executable));
    out.push(cat2("repository: ", repository));
    assert(texts(out@) =~= seq![
        "ci "@ + version@,
        "executable: "@ + executable@,
        "repository: "@ + repository@,
    ]);
    out
}

/// The state of the lock.
#[derive(Clone, Copy, Debug, PartialEq, Eq, Structural)]
pub enum LockState {
    NotCreated,
    Idle,
    Busy,
}

impl LockState {
    /// The word for a state of the lock.
    pub open spec fn word(self) -> Seq<char> {
        match self {
            LockState::NotCreated => "not-created"@,
            LockState::Idle => "idle"@,
            LockState::Busy => "busy"@,
        }
    }

    /// The word for a state of the lock.
    pub fn as_name(&self) -> (r: &'static str)
        ensures
            r@ == self.word(),
    {
        match self {
            LockState::NotCreated => "not-created",
            LockState::Idle => "idle",
            LockState::Busy => "busy",
        }
    }
}

/// What there is around the tool.
#[derive(Debug)]
pub struct StatusFacts {
    pub ci_dir_exists: bool,
    pub podman: bool,
    pub docker: bool,
    pub git: bool,
    pub node: bool,
    pub recorded_runs: u64,
    pub lock: LockState,
}

/// How Git is called, as it is shown.
pub open spec fn git_mode_shown(mode: GitMode) -> Seq<char> {
    match mode {
        GitMode::Host => "Host"@,
        GitMode::Auto => "Auto"@,
        GitMode::Alias => "Alias"@,
    }
}

/// The word before a line: whether all is well.
pub open spec fn mark(good: bool) -> Seq<char> {
    if good {
        "OK"@
    } else {
        "WARN"@
    }
}

/// What is shown of a thing that can be missing.
pub open spec fn availability(name: Seq<char>, there: bool) -> Seq<char> {
    mark(there) + "   "@ + name + " "@ + if there {
        "available"@
    } else {
        "missing"@
    }
}

fn show_availability(name: &str, there: bool) -> (r: String)
    ensures
        r@ == availability(name@, there),
{
    if there {
        cat5("OK", "   ", name, " ", "available")
    } else {
        cat5("WARN", "   ", name, " ", "missing")
    }
}

/// The names of the events of an action workflow.
pub open spec fn event_names(events: Seq<ActionEvent>) -> Seq<Seq<char>> {
    events.map_values(|e: ActionEvent| e.name@)
}

/// What is shown of a workflow.
pub open spec fn status_line(w: Workflow) -> Seq<char> {
    "     - "@ + w.name@ + " ["@ + w.provider.word() + "] "@ + w.path@ + " "@ + match w.source {
        WorkflowSource::Actions(action) => "events: "@ + debug_list(event_names(action.events@)),
        _ => Seq::empty(),
    }
}

/// What is shown of workflows.
pub open spec fn status_lines(ws: Seq<Workflow>) -> Seq<Seq<char>> {
    ws.map_values(|w: Workflow| status_line(w))
}

/// What is shown of a runner.
pub open spec fn binary_line(b: BinaryState) -> Seq<char> {
    match b {
        BinaryState::Missing(path) => "WARN ci binary is not installed into this repository ("@ + path@ + ")"@,
        BinaryState::Copy(path) => "OK   ci copy installed at "@ + path@,
        BinaryState::Symlink(path, target, broken) => if broken {
            "WARN ci symlink "@ + path@ + " -> "@ + target@ + " is broken"@
        } else {
            "OK   ci symlink "@ + path@ + " -> "@ + target@
        },
    }
}

/// What is shown of runners.
pub open spec fn binaries_shown(v: Seq<BinaryState>) -> Seq<Seq<char>> {
    v.map_values(|b: BinaryState| binary_line(b))
}

/// The names of the hooks that are the tool's own.
pub open spec fn managed_names(hooks: Seq<HookState>) -> Seq<Seq<char>>
    decreases hooks.len(),
{
    if hooks.len() == 0 {
        Seq::empty()
    } else if hooks.last().managed {
        managed_names(hooks.drop_last()).push(hooks.last().name@)
    } else {
        managed_names(hooks.drop_last())
    }
}

/// What is shown of the hooks.
pub open spec fn hooks_line(hooks: Seq<HookState>) -> Seq<char> {
    if managed_names(hooks).len() == 0 {
        "WARN no ci-managed Git hooks installed"@
    } else {
        "OK   ci-managed hooks: "@ + join_of(managed_names(hooks), ", "@)
    }
}

/// The container platforms of architectures.
pub open spec fn platform_lines(arches: Seq<Seq<char>>) -> Seq<Seq<char>> {
    arches.map_values(|a: Seq<char>| "OK   container arch "@ + a + ": "@ + platform_of(a))
}

/// The container runtime that comes first.
pub open spec fn preferred_runtime(podman: bool, docker: bool) -> Seq<char> {
    if podman {
        "podman"@
    } else if docker {
        "docker"@
    } else {
        "none"@
    }
}

/// The top of the status.
pub open spec fn status_head(ctx: AppContext, host: Seq<char>, facts: StatusFacts) -> Seq<Seq<char>> {
    seq![
        "Repository: "@ + ctx.repo.root@,
        "Git dir:    "@ + ctx.repo.git_dir@,
        "CI dir:     "@ + ctx.repo.ci_dir@,
        "Bare repo:  "@ + if ctx.repo.is_bare {
            "true"@
        } else {
            "false"@
        },
        "Git mode:   "@ + git_mode_shown(ctx.git.mode),
        "Arch:       "@ + arches_line(arch_names(ctx.config.defaults.arch@), host),
        "Config:     "@ + ctx.config.path@ + if ctx.config.loaded {
            ""@
        } else {
            " (default)"@
        },
        ""@,
        if facts.ci_dir_exists {
            "OK   .ci directory exists"@
        } else {
            "WARN .ci directory does not exist"@
        },
    ]
}

/// The end of the status.
pub open spec fn status_tail(ctx: AppContext, facts: StatusFacts) -> Seq<Seq<char>> {
    seq![
        mark(facts.podman || facts.docker) + "   preferred container runtime: "@ + preferred_runtime(
            facts.podman,
            facts.docker,
        ),
        availability("host git"@, facts.git),
        availability("node"@, facts.node),
        "OK   actions cache: "@ + ctx.repo.actions_cache@,
        "OK   artifact store: "@ + ctx.repo.artifact_store@,
        "OK   recorded runs: "@ + decimal_of(facts.recorded_runs as nat),
        "OK   lock file: "@ + joined(ctx.repo.state_dir@, "lock"@) + " ("@ + facts.lock.word() + ")"@,
    ]
}

/// The status of a repository.
pub open spec fn status_report(
    ctx: AppContext,
    host: Seq<char>,
    ws: Seq<Workflow>,
    install: InstallState,
    facts: StatusFacts,
) -> Seq<Seq<char>> {
    status_head(ctx, host, facts) + seq!["OK   found "@ + decimal_of(ws.len() as nat) + " workflow(s)"@] + status_lines(ws)
        + binaries_shown(install.binaries@) + seq![hooks_line(install.hooks@)] + platform_lines(
        arch_names(ctx.config.defaults.arch@),
    ) + status_tail(ctx, facts)
}

fn show_events(events: &[ActionEvent]) -> (r: Vec<String>)
    ensures
        texts(r@) == event_names(events@),
{
    let mut out: Vec<String> = Vec::new();
    let ghost all = event_names(events@);
    let mut i: usize = 0;
    assert(texts(out@) =~= all.take(0));
    while i < events.len()
        invariant
            i <= events@.len(),
            all == event_names(events@),
            texts(out@) == all.take(i as int),
        decreases events.len() - i,
    {
        assert(all[i as int] == events@[i as int].name@);
        out.push(events[i].name.clone());
        i += 1;
    }
    assert(all.take(i as int) =~= all);
    out
}

fn show_workflow(w: &Workflow) -> (r: String)
    ensures
        r@ == status_line(*w),
{
    let head = cat6("     - ", w.name.as_str(), " [", provider_name(&w.provider), "] ", w.path.as_str());
    match &w.source {
        WorkflowSource::Actions(action) => {
            let names = show_events(action.events.as_slice());
            let shown = debug_strings(names.as_slice());
            cat4(head.as_str(), " ", "events: ", shown.as_str())
        },
        _ => {
            let r = cat2(head.as_str(), " ");
            assert(r@ + Seq::<char>::empty() =~= r@);
            r
        },
    }
}

fn show_binary(b: &BinaryState) -> (r: String)
    ensures
        r@ == binary_line(*b),
{
    match b {
        BinaryState::Missing(path) => cat3(
            "WARN ci binary is not installed into this repository (",
            path.as_str(),
            ")",
        ),
        BinaryState::Copy(path) => cat2("OK   ci copy installed at ", path.as_str()),
        BinaryState::Symlink(path, target, broken) => if *broken {
            cat5("WARN ci symlink ", path.as_str(), " -> ", target.as_str(), " is broken")
        } else {
            cat4("OK   ci symlink ", path.as_str(), " -> ", target.as_str())
        },
    }
}

fn show_hooks(hooks: &[HookState]) -> (r: String)
    ensures
        r@ == hooks_line(hooks@),
{
    let mut names: Vec<String> = Vec::new();
    let mut i: usize = 0;
    assert(texts(names@) =~= managed_names(hooks@.take(0)));
    while i < hooks.len()
        invariant
            i <= hooks@.len(),
            texts(names@) == managed_names(hooks@.take(i as int)),
        decreases hooks.len() - i,
    {
        assert(hooks@.take(i + 1).drop_last() =~= hooks@.take(i as int));
        if hooks[i].managed {
            names.push(hooks[i].name.clone());
        }
        i += 1;
    }
    assert(hooks@.take(i as int) =~= hooks@);
    assert(texts(names@).len() == names@.len());
    if names.is_empty() {
        "WARN no ci-managed Git hooks installed".to_owned()
    } else {
        let list = join(names.as_slice(), ", ");
        cat2("OK   ci-managed hooks: ", list.as_str())
    }
}

fn make_head(ctx: &AppContext, host: &Architecture, facts: &StatusFacts) -> (r: Vec<String>)
    ensures
        texts(r@) == status_head(*ctx, host@, *facts),
{
    let mut out: Vec<String> = Vec::new();
    out.push(cat2("Repository: ", ctx.repo.root.as_str()));
    out.push(cat2("Git dir:    ", ctx.repo.git_dir.as_str()));
    out.push(cat2("CI dir:     ", ctx.repo.ci_dir.as_str()));
    out.push(
        cat2(
            "Bare repo:  ",
            if ctx.repo.is_bare {
                "true"
            } else {
                "false"
            },
        ),
    );
    out.push(
        cat2(
            "Git mode:   ",
            match ctx.git.mode {
                GitMode::Host => "Host",
                GitMode::Auto => "Auto",
                GitMode::Alias => "Alias",
            },
        ),
    );
    let arches = format_arches(ctx.config.defaults.arch.as_slice(), host);
    out.push(cat2("Arch:       ", arches.as_str()));
    out.push(
        cat3(
            "Config:     ",
            ctx.config.path.as_str(),
            if ctx.config.loaded {
                ""
            } else {
                " (default)"
            },
        ),
    );
    out.push("".to_owned());
    out.push(
        if facts.ci_dir_exists {
            "OK   .ci directory exists".to_owned()
        } else {
            "WARN .ci directory does not exist".to_owned()
        },
    );
    assert(texts(out@) =~= status_head(*ctx, host@, *facts));
    out
}

fn make_tail(ctx: &AppContext, facts: &StatusFacts) -> (r: Vec<String>)
    ensures
        texts(r@) == status_tail(*ctx, *facts),
{
    let mut out: Vec<String> = Vec::new();
    out.push(
        cat3(
            if facts.podman || facts.docker {
                "OK"
            } else {
                "WARN"
            },
            "   preferred container runtime: ",
            if facts.podman {
                "podman"
            } else if facts.docker {
                "docker"
            } else {
                "none"
            },
        ),
    );
    out.push(show_availability("host git", facts.git));
    out.push(show_availability("node", facts.node));
    out.push(cat2("OK   actions cache: ", ctx.repo.actions_cache.as_str()));
    out.push(cat2("OK   artifact store: ", ctx.repo.artifact_store.as_str()));
    let runs = decimal(facts.recorded_runs);
    out.push(cat2("OK   recorded runs: ", runs.as_str()));
    let lock = join_path(ctx.repo.state_dir.as_str(), "lock");
    out.push(cat5("OK   lock file: ", lock.as_str(), " (", facts.lock.as_name(), ")"));
    assert(texts(out@) =~= status_tail(*ctx, *facts));
    out
}

/// The status of a repository.
pub fn cmd_status(
    ctx: &AppContext,
    host: &Architecture,
    workflows: &[Workflow],
    install: &InstallState,
    facts: &StatusFacts,
) -> (r: Vec<String>)
    ensures
        texts(r@) == status_report(*ctx, host@, workflows@, *install, *facts),
{
    let mut out = make_head(ctx, host, facts);
    let ghost head = texts(out@);
    let count = decimal(workflows.len() as u64);
    let found = cat3("OK   found ", count.as_str(), " workflow(s)");
    let ghost start1 = head + seq![found@];
    out.push(found);
    assert(texts(out@) =~= start1);
    let ghost shown = status_lines(workflows@);
    let mut i: usize = 0;
    assert(texts(out@) =~= start1 + shown.take(0));
    while i < workflows.len()
        invariant
            i <= workflows@.len(),
            shown == status_lines(workflows@),
            texts(out@) == start1 + shown.take(i as int),
        decreases workflows.len() - i,
    {
        let line = show_workflow(&workflows[i]);
        assert(shown[i as int] == line@);
        out.push(line);
        assert(start1 + shown.take(i + 1) =~= (start1 + shown.take(i as int)).push(shown[i as int]));
        i += 1;
    }
    assert(shown.take(i as int) =~= shown);
    let ghost start2 = start1 + shown;
    let ghost binaries = binaries_shown(install.binaries@);
    let mut k: usize = 0;
    assert(texts(out@) =~= start2 + binaries.take(0));
    while k < install.binaries.len()
        invariant
            k <= install.binaries@.len(),
            binaries == binaries_shown(install.binaries@),
            texts(out@) == start2 + binaries.take(k as int),
        decreases install.binaries.len() - k,
    {
        let line = show_binary(&install.binaries[k]);
        assert(binaries[k as int] == line@);
        out.push(line);
        assert(start2 + binaries.take(k + 1) =~= (start2 + binaries.take(k as int)).push(binaries[k as int]));
        k += 1;
    }
    assert(binaries.take(k as int) =~= binaries);
    let ghost start3 = start2 + binaries + seq![hooks_line(install.hooks@)];
    out.push(show_hooks(install.hooks.as_slice()));
    assert(texts(out@) =~= start3);
    let ghost names = arch_names(ctx.config.defaults.arch@);
    let ghost platforms = platform_lines(names);
    let mut m: usize = 0;
    assert(texts(out@) =~= start3 + platforms.take(0));
    while m < ctx.config.defaults.arch.len()
        invariant
            m <= ctx.config.defaults.arch@.len(),
            names == arch_names(ctx.config.defaults.arch@),
            platforms == platform_lines(names),
            texts(out@) == start3 + platforms.take(m as int),
        decreases ctx.config.defaults.arch.len() - m,
    {
        assert(names[m as int] == ctx.config.defaults.arch@[m as int]@);
        let arch = &ctx.config.defaults.arch[m];
        let platform = arch.platform();
        let line = cat4("OK   container arch ", arch.as_str(), ": ", platform.as_str());
        assert(platforms[m as int] == line@);
        out.push(line);
        assert(start3 + platforms.take(m + 1) =~= (start3 + platforms.take(m as int)).push(platforms[m as int]));
        m += 1;
    }
    assert(platforms.take(m as int) =~= platforms);
    let mut tail = make_tail(ctx, facts);
    let ghost before = out@;
    let ghost more = tail@;
    out.append(&mut tail);
    assert(texts(out@) =~= texts(before) + texts(more));
    assert(texts(out@) =~= status_report(*ctx, host@, workflows@, *install, *facts));
    out
}

/// The lines that explain a subject: a workflow by its name, or an event on the branch
/// that the repository is on.
pub fn cmd_explain(ctx: &AppContext, args: &ExplainArgs, workflows: &[Workflow]) -> (r: Vec<String>)
    ensures
        texts(r@) == explanation(workflows@, ctx.config, args.subject@, opt_text(ctx.repo.branch)),
{
    explain_subject(workflows, &ctx.config, args.subject.as_str(), opt_str(&ctx.repo.branch))
}

/// What is said of a workflow that is explained: what overrides what, what it runs for,
/// and on which container platforms.
pub open spec fn precedence_lines(arches: Seq<Seq<char>>, platform: Option<Seq<char>>) -> Seq<Seq<char>> {
    seq![
        "Precedence: CLI flags > workflow fields > config > defaults"@,
        "arches: "@ + join_of(arches, ","@),
    ] + arches.map_values(|a: Seq<char>| "platform("@ + a + "): "@ + platform_for(platform, a))
}

/// What is said of a workflow that is explained.
pub fn explain_arches(resolved: &ResolvedWorkflow, arches: &[Architecture]) -> (r: Vec<String>)
    ensures
        texts(r@) == precedence_lines(arch_names(arches@), resolved@.container.platform),
{
    let names = arch_texts(arches);
    let list = join(names.as_slice(), ",");
    let mut out: Vec<String> = Vec::new();
    out.push("Precedence: CLI flags > workflow fields > config > defaults".to_owned());
    out.push(cat2("arches: ", list.as_str()));
    let ghost start = texts(out@);
    let ghost shown = arch_names(arches@).map_values(
        |a: Seq<char>| "platform("@ + a + "): "@ + platform_for(resolved@.container.platform, a),
    );
    let mut i: usize = 0;
    assert(start =~= seq![
        "Precedence: CLI flags > workflow fields > config > defaults"@,
        "arches: "@ + join_of(arch_names(arches@), ","@),
    ]);
    assert(texts(out@) =~= start + shown.take(0));
    while i < arches.len()
        invariant
            i <= arches@.len(),
            shown == arch_names(arches@).map_values(
                |a: Seq<char>| "platform("@ + a + "): "@ + platform_for(resolved@.container.platform, a),
            ),
            texts(out@) == start + shown.take(i as int),
        decreases arches.len() - i,
    {
        assert(arch_names(arches@)[i as int] == arches@[i as int]@);
        let platform = container_platform(resolved, &arches[i]);
        let line = cat4("platform(", arches[i].as_str(), "): ", platform.as_str());
        assert(shown[i as int] == line@);
        out.push(line);
        assert(start + shown.take(i + 1) =~= (start + shown.take(i as int)).push(shown[i as int]));
        i += 1;
    }
    assert(shown.take(i as int) =~= shown);
    out
}

/// The architectures that a workflow is explained for: those asked for, else those of
/// its container, else the host.
pub fn explained_arches(ctx: &AppContext, resolved: &ResolvedWorkflow, host: &Architecture) -> (r: Vec<Architecture>)
    ensures
        arch_names(r@) == chosen_arches(arch_names(ctx.global.arch@), resolved@.container.arch, host@),
{
    selected_arches(ctx.global.arch.as_slice(), &resolved.container.arch, host)
}

/// The variables that the steps of an explained workflow are seen with.
pub fn explain_env(arch: &Architecture, host: &Architecture) -> (r: StringMap)
    ensures
        r@ == Map::<Seq<char>, Seq<char>>::empty().insert("CI_ARCH"@, arch@).insert("CI_HOST_ARCH"@, host@),
{
    let mut vars = StringMap::new();
    vars.insert("CI_ARCH".to_owned(), arch.to_text());
    vars.insert("CI_HOST_ARCH".to_owned(), host.to_text());
    vars
}

/// What the condition of a step goes by when it is explained: a run by hand in which
/// nothing has failed.
pub open spec fn explain_context(
    step: StepView,
    vars: Map<Seq<char>, Seq<char>>,
    branch: Option<Seq<char>>,
) -> ExpressionView {
    ExpressionView {
        event: "manual"@,
        branch,
        env: vars,
        matrix: Map::empty(),
        inputs: step.with,
        success: true,
        previous_failed: false,
    }
}

/// The things whose existence decides whether a step would run.
pub fn explain_questions(step: &NativeStep, vars: &StringMap, branch: Option<&str>) -> (r: Vec<Target>)
    ensures
        target_views(r@) == asked_about(
            explain_context(step@, vars@, opt_slice(branch)),
            targets_in(effective_condition(step@.if_condition)),
        ),
{
    let matrix = StringMap::new();
    let ctx = ExpressionContext {
        event: "manual",
        branch,
        env: vars,
        matrix: &matrix,
        inputs: &step.with,
        success: true,
        previous_failed: false,
    };
    assert(ctx@ =~= explain_context(step@, vars@, opt_slice(branch)));
    condition_targets(opt_str(&step.if_condition), &ctx)
}

/// Whether a step would run, as it is shown. `there` says of each thing that
/// [`explain_questions`] lists whether it exists.
pub fn explain_step(step: &NativeStep, vars: &StringMap, branch: Option<&str>, there: &[bool]) -> (r: String)
    requires
        there@.len() == targets_in(effective_condition(step@.if_condition)).len(),
    ensures
        r@ == if holds(
            effective_condition(step@.if_condition),
            explain_context(step@, vars@, opt_slice(branch)),
            there@,
        ) {
            "  OK   "@ + step_title(step@)
        } else {
            "  SKIP "@ + step_title(step@)
        },
{
    let matrix = StringMap::new();
    let ctx = ExpressionContext {
        event: "manual",
        branch,
        env: vars,
        matrix: &matrix,
        inputs: &step.with,
        success: true,
        previous_failed: false,
    };
    assert(ctx@ =~= explain_context(step@, vars@, opt_slice(branch)));
    match evaluate_condition(opt_str(&step.if_condition), &ctx, there) {
        Some(true) => cat2("  OK   ", step_name(step)),
        _ => cat2("  SKIP ", step_name(step)),
    }
}

proof fn lemma_words_without_tabs(w: Workflow)
    ensures
        !w.provider.word().contains('\t'),
        !w.kind.word().contains('\t'),
{
    reveal_strlit("native");
    reveal_strlit("github-actions");
    reveal_strlit("gitea-actions");
    reveal_strlit("executable");
    reveal_strlit("yaml");
    reveal_strlit("container");
    reveal_strlit("actions");
}

/// A line for other programs holds the name, the runner, the form and the path, with tabs
/// between them.
pub proof fn law_columns_of_a_line(w: Workflow)
    requires
        !w.name@.contains('\t'),
        !w.path@.contains('\t'),
    ensures
        split_at_char(list_line(w, true), '\t') == seq![w.name@, w.provider.word(), w.kind.word(), w.path@],
        w.name@.is_prefix_of(list_line(w, false)),
        w.path@.is_suffix_of(list_line(w, false)),
        has_text(list_line(w, false), w.provider.word()),
        has_text(list_line(w, false), w.kind.word()),
{
    reveal_strlit("\t");
    lemma_words_without_tabs(w);
    let a = w.name@;
    let b = w.provider.word();
    let c = w.kind.word();
    let d = w.path@;
    lemma_single_piece(a, '\t');
    lemma_single_piece(b, '\t');
    lemma_single_piece(c, '\t');
    lemma_single_piece(d, '\t');
    let ab = a.push('\t') + b;
    let abc = ab.push('\t') + c;
    let abcd = abc.push('\t') + d;
    lemma_split_concat(a, b, '\t');
    lemma_split_concat(ab, c, '\t');
    lemma_split_concat(abc, d, '\t');
    assert(list_line(w, true) =~= abcd);
    assert(split_at_char(abcd, '\t') =~= seq![a, b, c, d]);
    let line = list_line(w, false);
    law_columns_keep_their_width(a, 28, 0);
    law_columns_keep_their_width(b, 15, 0);
    law_columns_keep_their_width(c, 12, 0);
    let pa = padded(a, 28);
    let pb = padded(b, 15);
    let pc = padded(c, 12);
    assert(line == pa + " "@ + pb + " "@ + pc + " "@ + d);
    assert(pa.subrange(0, a.len() as int) == a);
    assert(a =~= line.subrange(0, a.len() as int));
    assert(d =~= line.subrange(line.len() - d.len(), line.len() as int));
    assert(b == pb.subrange(0, b.len() as int));
    assert(c == pc.subrange(0, c.len() as int));
    assert(occurs_at(pb, b, 0));
    assert(occurs_at(pc, c, 0));
    lemma_within(pa + " "@, pb, " "@ + pc + " "@ + d, b);
    assert((pa + " "@) + pb + (" "@ + pc + " "@ + d) =~= line);
    lemma_within(pa + " "@ + pb + " "@, pc, " "@ + d, c);
    assert((pa + " "@ + pb + " "@) + pc + (" "@ + d) =~= line);
}

/// What is there is marked as good, and what is not as a warning.
pub proof fn law_what_is_marked_as_good(name: Seq<char>)
    ensures
        "OK "@.is_prefix_of(availability(name, true)),
        " available"@.is_suffix_of(availability(name, true)),
        "WARN "@.is_prefix_of(availability(name, false)),
        " missing"@.is_suffix_of(availability(name, false)),
        has_text(availability(name, true), name) && has_text(availability(name, false), name),
{
    reveal_strlit("OK");
    reveal_strlit("OK ");
    reveal_strlit("WARN");
    reveal_strlit("WARN ");
    reveal_strlit("   ");
    reveal_strlit(" ");
    reveal_strlit("available");
    reveal_strlit(" available");
    reveal_strlit("missing");
    reveal_strlit(" missing");
    let a = availability(name, true);
    let m = availability(name, false);
    assert("OK "@ =~= a.subrange(0, 3));
    assert(" available"@ =~= a.subrange(a.len() - 10, a.len() as int));
    assert("WARN "@ =~= m.subrange(0, 5));
    assert(" missing"@ =~= m.subrange(m.len() - 8, m.len() as int));
    assert(name =~= name.subrange(0, name.len() as int));
    assert(occurs_at(name, name, 0));
    lemma_within("OK"@ + "   "@, name, " "@ + "available"@, name);
    lemma_within("WARN"@ + "   "@, name, " "@ + "missing"@, name);
    assert("OK"@ + "   "@ + name + (" "@ + "available"@) =~= a);
    assert("WARN"@ + "   "@ + name + (" "@ + "missing"@) =~= m);
}

/// A runner is well where it is a copy or a link that leads somewhere; one that is not there, or
/// a link that leads nowhere, is a warning. The line says where it is.
pub proof fn law_what_is_said_of_a_runner(b: BinaryState)
    ensures
        b matches BinaryState::Missing(path) ==> "WARN "@.is_prefix_of(binary_line(b)) && has_text(binary_line(b), path@),
        b matches BinaryState::Copy(path) ==> "OK "@.is_prefix_of(binary_line(b)) && path@.is_suffix_of(binary_line(b)),
        b matches BinaryState::Symlink(path, target, broken) ==> (if broken {
            "WARN "@.is_prefix_of(binary_line(b))
        } else {
            "OK "@.is_prefix_of(binary_line(b))
        }) && has_text(binary_line(b), path@ + " -> "@ + target@),
{
    match b {
        BinaryState::Missing(path) => {
            lemma_line_of_missing(path@);
        },
        BinaryState::Copy(path) => {
            lemma_line_of_copy(path@);
        },
        BinaryState::Symlink(path, target, broken) => {
            lemma_line_of_link(path@, target@);
        },
    }
}

proof fn lemma_line_of_missing(path: Seq<char>)
    ensures
        ({
            let line = "WARN ci binary is not installed into this repository ("@ + path + ")"@;
            "WARN "@.is_prefix_of(line) && has_text(line, path)
        }),
{
    reveal_strlit("WARN ");
    reveal_strlit("WARN ci binary is not installed into this repository (");
    let head = "WARN ci binary is not installed into this repository ("@;
    let line = head + path + ")"@;
    assert("WARN "@ =~= head.subrange(0, 5));
    assert("WARN "@ =~= line.subrange(0, 5));
    assert(path =~= path.subrange(0, path.len() as int));
    assert(occurs_at(path, path, 0));
    lemma_within(head, path, ")"@, path);
}

proof fn lemma_line_of_copy(path: Seq<char>)
    ensures
        ({
            let line = "OK   ci copy installed at "@ + path;
            "OK "@.is_prefix_of(line) && path.is_suffix_of(line)
        }),
{
    reveal_strlit("OK ");
    reveal_strlit("OK   ci copy installed at ");
    let head = "OK   ci copy installed at "@;
    let line = head + path;
    assert("OK "@ =~= head.subrange(0, 3));
    assert("OK "@ =~= line.subrange(0, 3));
    assert(path =~= line.subrange(line.len() - path.len(), line.len() as int));
}

proof fn lemma_line_of_link(path: Seq<char>, target: Seq<char>)
    ensures
        ({
            let good = "OK   ci symlink "@ + path + " -> "@ + target;
            let bad = "WARN ci symlink "@ + path + " -> "@ + target + " is broken"@;
            let way = path + " -> "@ + target;
            "OK "@.is_prefix_of(good) && "WARN "@.is_prefix_of(bad) && has_text(good, way) && has_text(bad, way)
        }),
{
    reveal_strlit("OK ");
    reveal_strlit("WARN ");
    reveal_strlit("OK   ci symlink ");
    reveal_strlit("WARN ci symlink ");
    let way = path + " -> "@ + target;
    let good = "OK   ci symlink "@ + path + " -> "@ + target;
    let bad = "WARN ci symlink "@ + path + " -> "@ + target + " is broken"@;
    assert("OK   ci symlink "@ + way + Seq::<char>::empty() =~= good);
    assert("WARN ci symlink "@ + way + " is broken"@ =~= bad);
    assert("OK "@ =~= "OK   ci symlink "@.subrange(0, 3));
    assert("WARN "@ =~= "WARN ci symlink "@.subrange(0, 5));
    assert("OK "@ =~= good.subrange(0, 3));
    assert("WARN "@ =~= bad.subrange(0, 5));
    assert(way =~= way.subrange(0, way.len() as int));
    assert(occurs_at(way, way, 0));
    lemma_within("OK   ci symlink "@, way, Seq::empty(), way);
    lemma_within("WARN ci symlink "@, way, " is broken"@, way);
}

/// The line on hooks names every hook that belongs to the tool; where none does it is a warning.
pub proof fn law_what_is_said_of_hooks(hooks: Seq<HookState>, i: int)
    requires
        0 <= i < hooks.len(),
    ensures
        hooks[i].managed ==> managed_names(hooks).contains(hooks[i].name@) && has_text(hooks_line(hooks), hooks[i].name@)
            && "OK "@.is_prefix_of(hooks_line(hooks)),
        (forall|k: int| 0 <= k < hooks.len() ==> !(#[trigger] hooks[k]).managed) ==> "WARN "@.is_prefix_of(hooks_line(hooks)),
{
    reveal_strlit("OK ");
    reveal_strlit("WARN ");
    reveal_strlit("WARN no ci-managed Git hooks installed");
    reveal_strlit("OK   ci-managed hooks: ");
    let names = managed_names(hooks);
    let l = hooks_line(hooks);
    if hooks[i].managed {
        lemma_managed_name(hooks, i);
        let n = hooks[i].name@;
        let k = choose|k: int| 0 <= k < names.len() && names[k] == n;
        assert(n =~= n.subrange(0, n.len() as int));
        assert(occurs_at(names[k], n, 0));
        lemma_join_holds(names, ", "@, k, n);
        lemma_within("OK   ci-managed hooks: "@, join_of(names, ", "@), Seq::empty(), n);
        assert("OK   ci-managed hooks: "@ + join_of(names, ", "@) + Seq::<char>::empty() =~= l);
        assert("OK "@ =~= l.subrange(0, 3));
    }
    if forall|k: int| 0 <= k < hooks.len() ==> !(#[trigger] hooks[k]).managed {
        lemma_none_managed(hooks);
        assert("WARN "@ =~= l.subrange(0, 5));
    }
}

proof fn lemma_managed_name(hooks: Seq<HookState>, i: int)
    requires
        0 <= i < hooks.len(),
        hooks[i].managed,
    ensures
        managed_names(hooks).contains(hooks[i].name@),
    decreases hooks.len(),
{
    let all = managed_names(hooks);
    if i == hooks.len() - 1 {
        assert(all[all.len() - 1] == hooks[i].name@);
    } else {
        let head = hooks.drop_last();
        assert(head[i] == hooks[i]);
        lemma_managed_name(head, i);
        let less = managed_names(head);
        let k = choose|k: int| 0 <= k < less.len() && less[k] == hooks[i].name@;
        assert(all[k] == hooks[i].name@);
    }
}

proof fn lemma_none_managed(hooks: Seq<HookState>)
    requires
        forall|k: int| 0 <= k < hooks.len() ==> !(#[trigger] hooks[k]).managed,
    ensures
        managed_names(hooks).len() == 0,
    decreases hooks.len(),
{
    if hooks.len() > 0 {
        let head = hooks.drop_last();
        assert(!hooks[hooks.len() - 1].managed);
        assert forall|k: int| 0 <= k < head.len() implies !(#[trigger] head[k]).managed by {
            assert(head[k] == hooks[k]);
        }
        lemma_none_managed(head);
    }
}

/// The runtime that is shown as preferred is the one that runs containers where none is
/// asked for.
pub proof fn law_the_preferred_runtime_is_used(podman: bool, docker: bool)
    ensures
        match runtime_choice(ContainerRuntime::Auto, podman, docker) {
            Ok(runtime) => preferred_runtime(podman, docker) == runtime && (podman || docker),
            Err(_) => preferred_runtime(podman, docker) == "none"@ && !podman && !docker,
        },
        podman ==> preferred_runtime(podman, docker) == "podman"@,
        !podman && docker ==> preferred_runtime(podman, docker) == "docker"@,
{
}

/// The report has a line for every workflow, every runner and every architecture, and the
/// line on hooks.
pub proof fn law_the_report_is_complete(
    ctx: AppContext,
    host: Seq<char>,
    ws: Seq<Workflow>,
    install: InstallState,
    facts: StatusFacts,
    i: int,
)
    ensures
        ({
            let report = status_report(ctx, host, ws, install, facts);
            &&& report.len() == 18 + ws.len() + install.binaries@.len() + ctx.config.defaults.arch@.len()
            &&& 0 <= i < ws.len() ==> report.contains(status_line(ws[i]))
            &&& 0 <= i < install.binaries@.len() ==> report.contains(binary_line(install.binaries@[i]))
            &&& report.contains(hooks_line(install.hooks@))
            &&& report.contains("OK   found "@ + decimal_of(ws.len()) + " workflow(s)"@)
            &&& report[0] == "Repository: "@ + ctx.repo.root@
            &&& report.contains(availability("host git"@, facts.git)) && report.contains(availability("node"@, facts.node))
        }),
{
    let report = status_report(ctx, host, ws, install, facts);
    let n = ws.len() as int;
    let m = install.binaries@.len() as int;
    let a = arch_names(ctx.config.defaults.arch@).len() as int;
    assert(report[9] == "OK   found "@ + decimal_of(ws.len()) + " workflow(s)"@);
    if 0 <= i < n {
        assert(report[10 + i] == status_line(ws[i]));
    }
    if 0 <= i < m {
        assert(report[10 + n + i] == binary_line(install.binaries@[i]));
    }
    assert(report[10 + n + m] == hooks_line(install.hooks@));
    assert(report[10 + n + m + 1 + a + 1] == availability("host git"@, facts.git));
    assert(report[10 + n + m + 1 + a + 2] == availability("node"@, facts.node));
}

/// A line on a workflow names it, its runner and its path; only hosted workflows list events.
pub proof fn law_what_is_said_of_a_workflow(w: Workflow)
    ensures
        ({
            let head = "     - "@ + w.name@ + " ["@ + w.provider.word() + "] "@ + w.path@ + " "@;
            &&& !(w.source is Actions) ==> status_line(w) == head
            &&& w.source matches WorkflowSource::Actions(action) ==> status_line(w) == head + ("events: "@ + debug_list(
                event_names(action.events@),
            ))
        }),
{
    let head = "     - "@ + w.name@ + " ["@ + w.provider.word() + "] "@ + w.path@ + " "@;
    assert(head + Seq::<char>::empty() =~= head);
}

/// A step is explained as in a manual run in which nothing has failed, with its own inputs.
pub proof fn law_steps_are_explained_as_run_by_hand(
    step: StepView,
    vars: Map<Seq<char>, Seq<char>>,
    branch: Option<Seq<char>>,
)
    ensures
        ({
            let ctx = explain_context(step, vars, branch);
            &&& ctx.success && !ctx.previous_failed
            &&& ctx.event == "manual"@ && ctx.branch == branch
            &&& ctx.env == vars && ctx.inputs == step.with && ctx.matrix.dom() == Set::<Seq<char>>::empty()
        }),
{
}

/// How Git is called is shown by the word that sets it, with a capital.
pub proof fn law_modes_are_shown_by_their_words(mode: GitMode)
    ensures
        git_mode_named(lower(git_mode_shown(mode))) == Some(mode),
        'A' <= git_mode_shown(mode)[0] <= 'Z',
{
    reveal_strlit("Host");
    reveal_strlit("Auto");
    reveal_strlit("Alias");
    reveal_strlit("host");
    reveal_strlit("auto");
    reveal_strlit("alias");
    assert(lower("Host"@) =~= "host"@);
    assert(lower("Auto"@) =~= "auto"@);
    assert(lower("Alias"@) =~= "alias"@);
    law_words_of_choices("host"@);
    law_words_of_choices("auto"@);
    law_words_of_choices("alias"@);
}

/// A lock that nobody has made, one that nobody holds and one that somebody holds are told
/// apart.
pub proof fn law_words_for_a_lock(a: LockState, b: LockState)
    ensures
        a.word() == b.word() ==> a == b,
        LockState::NotCreated.word() == "not-created"@,
        LockState::Idle.word() == "idle"@,
        LockState::Busy.word() == "busy"@,
{
    reveal_strlit("not-created");
    reveal_strlit("idle");
    reveal_strlit("busy");
    assert("idle"@.len() != "not-created"@.len());
    assert("busy"@.len() != "not-created"@.len());
    assert("busy"@[0] != "idle"@[0]);
}

/// What holds against what is said first, then the architectures, and then the platform of
/// each, which is the one that is set where one is.
pub proof fn law_what_is_said_of_platforms(a: Seq<char>, b: Seq<char>, arches: Seq<Seq<char>>, platform: Option<Seq<char>>, i: int)
    ensures
        ({
            let lines = precedence_lines(arches, platform);
            &&& lines.len() == 2 + arches.len()
            &&& 0 <= i < arches.len() && platform is Some ==> platform->0.is_suffix_of(lines[2 + i])
            &&& 0 <= i < arches.len() && platform is None ==> platform_of(arches[i]).is_suffix_of(lines[2 + i])
            &&& precedence_lines(seq![a, b], platform)[1] == "arches: "@ + (a + ","@ + b)
        }),
{
    let lines = precedence_lines(arches, platform);
    if 0 <= i < arches.len() {
        let p = platform_for(platform, arches[i]);
        let l = lines[2 + i];
        assert(l == "platform("@ + arches[i] + "): "@ + p);
        assert(p =~= l.subrange(l.len() - p.len(), l.len() as int));
    }
    assert(seq![a, b].drop_last() =~= seq![a]);
    assert(join_of(seq![a], ","@) == a);
    assert(join_of(seq![a, b], ","@) == a + ","@ + b);
}

} // verus!
