//! The tool inside a repository: its runners, the hooks that call them, and how they come
//! and go without touching what belongs to somebody else.

use crate::arch::{Architecture, arch_names, suffix_of};
use crate::cli::{InstallArgs, UninstallArgs, UpdateArgs};
use crate::conditions::{find_text, index_of_text, lemma_find_text};
use crate::config::{InstallMode, or_else};
use crate::error::{CiError, ErrorView, message, outcome};
use crate::execution::{is_executable, mode_is_executable};
use crate::files::{Clearing, EntryKind, removal};
use crate::hooks::{all_hook_names, all_hooks, parse_hooks, requested_hooks};
use crate::paths::{
    absolute, is_absolute, join_path, joined, law_join_appends_components, lead_of,
    lemma_name_parts, lemma_up_and_down, lexical, naming, parent, parent_of, parts_of,
};
use crate::repo::RepoInfo;
use crate::runner::AppContext;
use crate::strings::{cat2, cat3, cat4, contains, opt_str};
use crate::text::{has_text, lemma_take_push, lemma_texts_push, occurs_at, opt_text, slices, texts};
use vstd::prelude::*;
use vstd::string::*;

verus! {

broadcast use {lemma_texts_push, lemma_take_push};

/// The text by which a hook of the tool is known.
pub const MANAGED_MARKER: &'static str = "managed-by: ci";

/// The name of the runner, before what it runs on.
pub const MANAGED_RUNNER_NAME: &'static str = "run";

/// Whether the content of a hook is the tool's own.
pub open spec fn is_managed(content: Seq<char>) -> bool {
    has_text(content, MANAGED_MARKER@)
}

/// Whether a hook is the tool's own; one that cannot be read is not.
pub fn is_managed_hook(content: Option<&str>) -> (r: bool)
    ensures
        r == (content matches Some(text) && is_managed(text@)),
{
    match content {
        Some(text) => contains(text, MANAGED_MARKER),
        None => false,
    }
}

/// The script that all hooks of the tool lead to: it goes by the name that it is called
/// by, and takes the runner for the machine, or the one without an architecture.
pub open spec fn dispatcher_text() -> Seq<char> {
    "#!/usr/bin/env sh\n# "@ + MANAGED_MARKER@
        + "\nci_hook=$(basename \"$0\")\nci_dir=$(CDPATH= cd -- \"$(dirname -- \"$0\")/../ci\" && pwd)\ncase \"$(uname -m)\" in\n  x86_64|amd64) ci_arch=x64 ;;\n  aarch64|arm64) ci_arch=arm64 ;;\n  *) ci_arch=$(uname -m | tr '_' '-') ;;\nesac\nci_runner=\"$ci_dir/run.$ci_arch\"\nif [ ! -x \"$ci_runner\" ]; then\n  ci_runner=\"$ci_dir/run\"\nfi\nexec \"$ci_runner\" hook \"$ci_hook\" \"$@\"\n"@
}

/// The script that all hooks of the tool lead to.
pub fn install_hook_dispatcher() -> (r: String)
    ensures
        r@ == dispatcher_text(),
{
    cat3(
        "#!/usr/bin/env sh\n# ",
        MANAGED_MARKER,
        "\nci_hook=$(basename \"$0\")\nci_dir=$(CDPATH= cd -- \"$(dirname -- \"$0\")/../ci\" && pwd)\ncase \"$(uname -m)\" in\n  x86_64|amd64) ci_arch=x64 ;;\n  aarch64|arm64) ci_arch=arm64 ;;\n  *) ci_arch=$(uname -m | tr '_' '-') ;;\nesac\nci_runner=\"$ci_dir/run.$ci_arch\"\nif [ ! -x \"$ci_runner\" ]; then\n  ci_runner=\"$ci_dir/run\"\nfi\nexec \"$ci_runner\" hook \"$ci_hook\" \"$@\"\n",
    )
}

/// What the tool puts into a hook is its own.
pub proof fn law_the_dispatcher_is_managed()
    ensures
        is_managed(dispatcher_text()),
{
    let head = "#!/usr/bin/env sh\n# "@;
    let marker = MANAGED_MARKER@;
    let n = head.len() as int;
    assert(dispatcher_text().subrange(n, n + marker.len()) =~= marker);
    assert(occurs_at(dispatcher_text(), marker, n));
}

/// Where the runners are.
pub open spec fn runner_dir(git_dir: Seq<char>) -> Seq<char> {
    joined(git_dir, "ci"@)
}

/// Where the runners are.
pub fn managed_runner_dir(repo: &RepoInfo) -> (r: String)
    ensures
        r@ == runner_dir(repo.git_dir@),
{
    join_path(repo.git_dir.as_str(), "ci")
}

/// The runner for an architecture.
pub open spec fn runner_path(git_dir: Seq<char>, arch: Seq<char>) -> Seq<char> {
    joined(runner_dir(git_dir), MANAGED_RUNNER_NAME@ + "."@ + suffix_of(arch))
}

/// The runner for an architecture.
pub fn managed_runner_path(repo: &RepoInfo, arch: &Architecture) -> (r: String)
    ensures
        r@ == runner_path(repo.git_dir@, arch@),
{
    let dir = managed_runner_dir(repo);
    let suffix = arch.runner_suffix();
    let name = cat3(MANAGED_RUNNER_NAME, ".", suffix.as_str());
    join_path(dir.as_str(), name.as_str())
}

/// The runner without an architecture, which older installations have.
pub open spec fn plain_runner(git_dir: Seq<char>) -> Seq<char> {
    joined(runner_dir(git_dir), MANAGED_RUNNER_NAME@)
}

/// The runner without an architecture.
pub fn fallback_runner_path(repo: &RepoInfo) -> (r: String)
    ensures
        r@ == plain_runner(repo.git_dir@),
{
    let dir = managed_runner_dir(repo);
    join_path(dir.as_str(), MANAGED_RUNNER_NAME)
}

/// The script that all hooks lead to.
pub fn dispatcher_path(repo: &RepoInfo) -> (r: String)
    ensures
        r@ == joined(runner_dir(repo.git_dir@), "hook"@),
{
    let dir = managed_runner_dir(repo);
    join_path(dir.as_str(), "hook")
}

/// Where the hooks are.
pub open spec fn hooks_dir(git_dir: Seq<char>) -> Seq<char> {
    joined(git_dir, "hooks"@)
}

/// Where a hook is.
pub open spec fn hook_file(git_dir: Seq<char>, hook: Seq<char>) -> Seq<char> {
    joined(hooks_dir(git_dir), hook)
}

/// Where a hook is kept that somebody else put there.
pub open spec fn backup_file(git_dir: Seq<char>, hook: Seq<char>) -> Seq<char> {
    joined(hooks_dir(git_dir), hook + ".ci-backup"@)
}

/// Where the hooks are.
pub fn hooks_path(repo: &RepoInfo) -> (r: String)
    ensures
        r@ == hooks_dir(repo.git_dir@),
{
    join_path(repo.git_dir.as_str(), "hooks")
}

/// Where a hook is.
pub fn hook_path(repo: &RepoInfo, hook: &str) -> (r: String)
    ensures
        r@ == hook_file(repo.git_dir@, hook@),
{
    let dir = hooks_path(repo);
    join_path(dir.as_str(), hook)
}

/// Where a hook is kept that somebody else put there.
pub fn backup_path(repo: &RepoInfo, hook: &str) -> (r: String)
    ensures
        r@ == backup_file(repo.git_dir@, hook@),
{
    let dir = hooks_path(repo);
    let name = cat2(hook, ".ci-backup");
    join_path(dir.as_str(), name.as_str())
}

/// A text with every occurrence of another one replaced.
pub open spec fn replaced(s: Seq<char>, needle: Seq<char>, by: Seq<char>) -> Seq<char>
    decreases s.len(),
{
    proof {
        lemma_find_text(s, needle);
    }
    if needle.len() == 0 {
        s
    } else {
        match find_text(s, needle) {
            None => s,
            Some(i) => s.take(i) + by + replaced(s.skip(i + needle.len()), needle, by),
        }
    }
}

fn replace_text(s: &str, needle: &str, by: &str) -> (r: String)
    requires
        needle@.len() > 0,
    ensures
        r@ == replaced(s@, needle@, by@),
    decreases s@.len(),
{
    match index_of_text(s, needle) {
        None => s.to_owned(),
        Some(i) => {
            let m: usize = needle.unicode_len();
            let n: usize = s.unicode_len();
            let head = s.substring_char(0, i);
            let tail = s.substring_char(i + m, n);
            assert(head@ =~= s@.take(i as int));
            assert(tail@ =~= s@.skip(i + m));
            let rest = replace_text(tail, needle, by);
            cat3(head, by, rest.as_str())
        },
    }
}

/// What a runner is made from: what was given, with the architecture in place of `{arch}`,
/// or the running program.
pub open spec fn runner_source(given: Option<Seq<char>>, current: Seq<char>, arch: Seq<char>) -> Seq<char> {
    match given {
        Some(path) => replaced(path, "{arch}"@, arch),
        None => current,
    }
}

/// What a runner is made from.
pub fn source_for(given: &Option<String>, current: &str, arch: &Architecture) -> (r: String)
    ensures
        r@ == runner_source(opt_text(*given), current@, arch@),
{
    proof {
        reveal_strlit("{arch}");
    }
    match given {
        Some(path) => replace_text(path.as_str(), "{arch}", arch.as_str()),
        None => current.to_owned(),
    }
}

/// A runner to put in place.
#[derive(Debug)]
pub struct BinaryPlan {
    pub source: String,
    pub target: String,
}

/// Runners by their texts.
pub open spec fn binary_views(v: Seq<BinaryPlan>) -> Seq<(Seq<char>, Seq<char>)> {
    v.map_values(|b: BinaryPlan| (b.source@, b.target@))
}

/// The runners for architectures: from where, and where to.
pub open spec fn runners_for(
    git_dir: Seq<char>,
    given: Option<Seq<char>>,
    current: Seq<char>,
    arches: Seq<Seq<char>>,
) -> Seq<(Seq<char>, Seq<char>)> {
    arches.map_values(|a: Seq<char>| (runner_source(given, current, a), runner_path(git_dir, a)))
}

fn plan_binaries(repo: &RepoInfo, given: &Option<String>, arches: &[Architecture]) -> (r: Vec<BinaryPlan>)
    ensures
        binary_views(r@) == runners_for(
            repo.git_dir@,
            opt_text(*given),
            repo.current_exe@,
            arch_names(arches@),
        ),
{
    let mut out: Vec<BinaryPlan> = Vec::new();
    let ghost all = runners_for(repo.git_dir@, opt_text(*given), repo.current_exe@, arch_names(arches@));
    let mut i: usize = 0;
    assert(binary_views(out@) =~= all.take(0));
    while i < arches.len()
        invariant
            i <= arches@.len(),
            all == runners_for(repo.git_dir@, opt_text(*given), repo.current_exe@, arch_names(arches@)),
            binary_views(out@) == all.take(i as int),
        decreases arches.len() - i,
    {
        assert(arch_names(arches@)[i as int] == arches@[i as int]@);
        let b = BinaryPlan {
            source: source_for(given, repo.current_exe.as_str(), &arches[i]),
            target: managed_runner_path(repo, &arches[i]),
        };
        let ghost before = out@;
        assert(all[i as int] == (b.source@, b.target@));
        out.push(b);
        assert(binary_views(out@) =~= binary_views(before).push((b.source@, b.target@)));
        i += 1;
    }
    assert(all.take(i as int) =~= all);
    out
}

/// What installing does: the runners come first, then the hooks, one by one. A dry run has
/// none of them to put in place.
#[derive(Debug)]
pub struct InstallPlan {
    pub mode: InstallMode,
    /// Whether the directories and the script that hooks lead to are made.
    pub prepare: bool,
    pub runner_dir: String,
    pub binaries: Vec<BinaryPlan>,
    pub hooks_dir: String,
    pub hooks: Vec<&'static str>,
    /// What is said about it.
    pub notes: Vec<String>,
    /// What a dry run says in place of doing it.
    pub dry_lines: Vec<String>,
}

/// What a dry run says of runners.
pub open spec fn binary_lines(binaries: Seq<(Seq<char>, Seq<char>)>, verb: Seq<char>) -> Seq<Seq<char>> {
    binaries.map_values(|b: (Seq<char>, Seq<char>)| verb + b.1 + " from "@ + b.0)
}

/// What a dry run says of hooks.
pub open spec fn hook_lines(git_dir: Seq<char>, hooks: Seq<Seq<char>>, verb: Seq<char>) -> Seq<Seq<char>> {
    hooks.map_values(|h: Seq<char>| verb + hook_file(git_dir, h))
}

/// A list of things to do; none in a dry run.
pub open spec fn unless<T>(dry_run: bool, things: Seq<T>) -> Seq<T> {
    if dry_run {
        Seq::empty()
    } else {
        things
    }
}

/// Whether a plan is what installing does.
pub open spec fn install_is(p: InstallPlan, ctx: AppContext, args: InstallArgs, hooks: Seq<Seq<char>>) -> bool {
    let git_dir = ctx.repo.git_dir@;
    let binaries = runners_for(
        git_dir,
        opt_text(args.source),
        ctx.repo.current_exe@,
        arch_names(ctx.config.defaults.arch@),
    );
    &&& p.mode == or_else(args.mode, ctx.config.defaults.install_mode)
    &&& p.prepare == !args.dry_run
    &&& p.runner_dir@ == runner_dir(git_dir)
    &&& binary_views(p.binaries@) == unless(args.dry_run, binaries)
    &&& p.hooks_dir@ == hooks_dir(git_dir)
    &&& slices(p.hooks@) == unless(args.dry_run, hooks)
    &&& texts(p.notes@) == seq!["Installing ci into "@ + git_dir, "mode: "@ + p.mode.word()]
    &&& texts(p.dry_lines@) == seq!["would create directory "@ + runner_dir(git_dir)] + binary_lines(
        binaries,
        "would install binary "@,
    ) + hook_lines(git_dir, hooks, "would install hook "@)
}

/// The installation of a repository.
#[derive(Debug)]
pub struct InstallState {
    pub binaries: Vec<BinaryState>,
    pub hooks: Vec<HookState>,
}

/// A runner of a repository.
#[derive(Debug)]
pub enum BinaryState {
    Missing(String),
    /// A link: where it is, where it leads to, and whether that is not there.
    Symlink(String, String, bool),
    Copy(String),
}

/// A hook of a repository.
#[derive(Debug)]
pub struct HookState {
    pub name: String,
    pub path: String,
    pub exists: bool,
    pub managed: bool,
    pub executable: bool,
    pub backup: bool,
}

fn push_binary_lines(out: &mut Vec<String>, binaries: &[BinaryPlan], verb: &str)
    ensures
        texts(final(out)@) == texts(old(out)@) + binary_lines(binary_views(binaries@), verb@),
{
    let ghost start = texts(out@);
    let ghost all = binary_lines(binary_views(binaries@), verb@);
    let mut i: usize = 0;
    assert(texts(out@) =~= start + all.take(0));
    while i < binaries.len()
        invariant
            i <= binaries@.len(),
            all == binary_lines(binary_views(binaries@), verb@),
            texts(out@) == start + all.take(i as int),
        decreases binaries.len() - i,
    {
        assert(binary_views(binaries@)[i as int] == (binaries@[i as int].source@, binaries@[i as int].target@));
        let line = cat4(verb, binaries[i].target.as_str(), " from ", binaries[i].source.as_str());
        assert(line@ =~= all[i as int]);
        out.push(line);
        assert(start + all.take(i + 1) =~= (start + all.take(i as int)).push(all[i as int]));
        i += 1;
    }
    assert(all.take(i as int) =~= all);
}

fn push_hook_lines(out: &mut Vec<String>, repo: &RepoInfo, hooks: &[&str], verb: &str)
    ensures
        texts(final(out)@) == texts(old(out)@) + hook_lines(repo.git_dir@, slices(hooks@), verb@),
{
    let ghost start = texts(out@);
    let ghost all = hook_lines(repo.git_dir@, slices(hooks@), verb@);
    let mut i: usize = 0;
    assert(texts(out@) =~= start + all.take(0));
    while i < hooks.len()
        invariant
            i <= hooks@.len(),
            all == hook_lines(repo.git_dir@, slices(hooks@), verb@),
            texts(out@) == start + all.take(i as int),
        decreases hooks.len() - i,
    {
        assert(slices(hooks@)[i as int] == hooks@[i as int]@);
        let path = hook_path(repo, hooks[i]);
        let line = cat2(verb, path.as_str());
        assert(line@ =~= all[i as int]);
        out.push(line);
        assert(start + all.take(i + 1) =~= (start + all.take(i as int)).push(all[i as int]));
        i += 1;
    }
    assert(all.take(i as int) =~= all);
}

/// What installing does, or that a hook is not known.
pub fn cmd_install(ctx: &AppContext, args: &InstallArgs) -> (r: Result<InstallPlan, CiError>)
    ensures
        match r {
            Ok(plan) => requested_hooks(opt_text(args.hooks), ctx.repo.is_bare) is Ok && install_is(
                plan,
                *ctx,
                *args,
                requested_hooks(opt_text(args.hooks), ctx.repo.is_bare)->Ok_0,
            ),
            Err(e) => requested_hooks(opt_text(args.hooks), ctx.repo.is_bare) == Err::<Seq<Seq<char>>, _>(e@),
        },
{
    let hooks = match parse_hooks(opt_str(&args.hooks), ctx.repo.is_bare) {
        Ok(hooks) => hooks,
        Err(e) => return Err(e),
    };
    let repo = &ctx.repo;
    let mode = match args.mode {
        Some(mode) => mode,
        None => ctx.config.defaults.install_mode,
    };
    let word = mode.as_name();
    let mut notes: Vec<String> = Vec::new();
    notes.push(cat2("Installing ci into ", repo.git_dir.as_str()));
    notes.push(cat2("mode: ", word));
    assert(texts(notes@) =~= seq!["Installing ci into "@ + repo.git_dir@, "mode: "@ + mode.word()]);
    let binaries = plan_binaries(repo, &args.source, ctx.config.defaults.arch.as_slice());
    let dir = managed_runner_dir(repo);
    let mut dry_lines: Vec<String> = Vec::new();
    dry_lines.push(cat2("would create directory ", dir.as_str()));
    assert(texts(dry_lines@) =~= seq!["would create directory "@ + runner_dir(repo.git_dir@)]);
    push_binary_lines(&mut dry_lines, binaries.as_slice(), "would install binary ");
    push_hook_lines(&mut dry_lines, repo, hooks.as_slice(), "would install hook ");
    let mut binaries = binaries;
    let mut hooks = hooks;
    if args.dry_run {
        binaries = Vec::new();
        hooks = Vec::new();
        assert(binary_views(binaries@) =~= Seq::<(Seq<char>, Seq<char>)>::empty());
        assert(slices(hooks@) =~= Seq::<Seq<char>>::empty());
    }
    Ok(
        InstallPlan {
            mode,
            prepare: !args.dry_run,
            runner_dir: dir,
            binaries,
            hooks_dir: hooks_path(repo),
            hooks,
            notes,
            dry_lines,
        },
    )
}

/// How a hook is put in place: what stands there is moved away first, where that is said,
/// and a link to the script takes its place.
#[derive(Debug)]
pub struct HookPlan {
    pub path: String,
    pub backup: Option<String>,
    pub link: String,
}

#[verifier::ext_equal]
pub struct HookPlanView {
    pub path: Seq<char>,
    pub backup: Option<Seq<char>>,
    pub link: Seq<char>,
}

impl View for HookPlan {
    type V = HookPlanView;

    open spec fn view(&self) -> HookPlanView {
        HookPlanView { path: self.path@, backup: opt_text(self.backup), link: self.link@ }
    }
}

/// How a hook is put in place. One of somebody else is kept aside where that is asked for,
/// replaced where force is, and otherwise left alone.
pub open spec fn hook_plan(
    git_dir: Seq<char>,
    hook: Seq<char>,
    exists: bool,
    managed: bool,
    force: bool,
    backup_existing: bool,
) -> Result<HookPlanView, ErrorView> {
    let path = hook_file(git_dir, hook);
    let foreign = exists && !managed;
    if foreign && !backup_existing && !force {
        Err(
            ErrorView::Message(
                path + " already exists and is not managed by ci; use --backup-existing or --force"@,
            ),
        )
    } else {
        Ok(
            HookPlanView {
                path,
                backup: if foreign && backup_existing {
                    Some(backup_file(git_dir, hook))
                } else {
                    None
                },
                link: "../ci/hook"@,
            },
        )
    }
}

/// How a hook is put in place. `exists` and `managed` say of the hook that stands there
/// whether there is one and whether it is the tool's own.
pub fn install_hook(repo: &RepoInfo, hook: &str, exists: bool, managed: bool, force: bool, backup_existing: bool) -> (r: Result<
    HookPlan,
    CiError,
>)
    ensures
        outcome(r) == hook_plan(repo.git_dir@, hook@, exists, managed, force, backup_existing),
{
    let path = hook_path(repo, hook);
    let mut backup: Option<String> = None;
    if exists && !managed {
        if backup_existing {
            backup = Some(backup_path(repo, hook));
        } else if !force {
            return Err(
                message(
                    cat2(
                        path.as_str(),
                        " already exists and is not managed by ci; use --backup-existing or --force",
                    ),
                ),
            );
        }
    }
    Ok(HookPlan { path, backup, link: "../ci/hook".to_owned() })
}

/// A hook and its backup, by what is in them.
#[verifier::ext_equal]
pub struct Slot {
    pub hook: Option<Seq<char>>,
    pub backup: Option<Seq<char>>,
}

impl Slot {
    /// Whether the hook is the tool's own.
    pub open spec fn managed(self) -> bool {
        self.hook matches Some(text) && is_managed(text)
    }

    /// What is there after a hook was put in place, or was not because it is refused.
    pub open spec fn installed(self, git_dir: Seq<char>, hook: Seq<char>, force: bool, backup_existing: bool) -> Slot {
        match hook_plan(git_dir, hook, self.hook is Some, self.managed(), force, backup_existing) {
            Err(_) => self,
            Ok(plan) => Slot {
                hook: Some(dispatcher_text()),
                backup: if plan.backup is Some {
                    self.hook
                } else {
                    self.backup
                },
            },
        }
    }

    /// What is there after the steps of a removal: the hook is removed, then the backup
    /// takes its place.
    pub open spec fn stepped(self, steps: (bool, bool)) -> Slot {
        let bare = if steps.0 {
            Slot { hook: None, ..self }
        } else {
            self
        };
        if steps.1 {
            Slot { hook: bare.backup, backup: None }
        } else {
            bare
        }
    }

    /// What removing does to what is there.
    pub open spec fn removal(self, restore: bool) -> HookRemoval {
        hook_removal(self.hook is Some, self.managed(), self.backup is Some, restore)
    }

    /// What is there after the hook was removed as planned.
    pub open spec fn uninstalled(self, restore: bool) -> Slot {
        match hook_removal(self.hook is Some, self.managed(), self.backup is Some, restore) {
            HookRemoval::Nothing | HookRemoval::UserOwned => self,
            HookRemoval::Remove => Slot { hook: None, ..self },
            HookRemoval::Restore | HookRemoval::RemoveAndRestore => Slot { hook: self.backup, backup: None },
        }
    }
}

/// What removing does to a hook.
#[derive(Clone, Copy, Debug, PartialEq, Eq, Structural)]
pub enum HookRemoval {
    Nothing,
    /// It belongs to somebody else and stays.
    UserOwned,
    Remove,
    /// The backup takes the place where no hook is.
    Restore,
    RemoveAndRestore,
}

/// What removing does to a hook.
pub open spec fn hook_removal(exists: bool, managed: bool, backup: bool, restore: bool) -> HookRemoval {
    if !exists {
        if restore && backup {
            HookRemoval::Restore
        } else {
            HookRemoval::Nothing
        }
    } else if !managed {
        HookRemoval::UserOwned
    } else if restore && backup {
        HookRemoval::RemoveAndRestore
    } else {
        HookRemoval::Remove
    }
}

/// What removing does to a hook. `exists`, `managed` and `backup` say whether there is a
/// hook, whether it is the tool's own, and whether there is a backup of another.
pub fn uninstall_hook(exists: bool, managed: bool, backup: bool, restore: bool) -> (r: HookRemoval)
    ensures
        r == hook_removal(exists, managed, backup, restore),
{
    if !exists {
        if restore && backup {
            HookRemoval::Restore
        } else {
            HookRemoval::Nothing
        }
    } else if !managed {
        HookRemoval::UserOwned
    } else if restore && backup {
        HookRemoval::RemoveAndRestore
    } else {
        HookRemoval::Remove
    }
}

/// What is done about a removal: whether the hook is removed, and whether the backup takes
/// its place. A dry run does neither.
pub open spec fn removal_steps(dry_run: bool, removal: HookRemoval) -> (bool, bool) {
    (
        !dry_run && (removal is Remove || removal is RemoveAndRestore),
        !dry_run && (removal is Restore || removal is RemoveAndRestore),
    )
}

/// What is done about a removal: whether the hook is removed, and whether the backup takes
/// its place.
pub fn hook_steps(args: &UninstallArgs, removal: HookRemoval) -> (r: (bool, bool))
    ensures
        r == removal_steps(args.dry_run, removal),
        r.0 == (!args.dry_run && (removal is Remove || removal is RemoveAndRestore)),
        r.1 == (!args.dry_run && (removal is Restore || removal is RemoveAndRestore)),
{
    let remove = removal == HookRemoval::Remove || removal == HookRemoval::RemoveAndRestore;
    let restore = removal == HookRemoval::Restore || removal == HookRemoval::RemoveAndRestore;
    (!args.dry_run && remove, !args.dry_run && restore)
}

/// What a dry run says of a hook that is to be removed.
pub open spec fn removal_lines(git_dir: Seq<char>, hook: Seq<char>, removal: HookRemoval) -> Seq<Seq<char>> {
    let remove = "would remove hook "@ + hook_file(git_dir, hook);
    let restore = "would restore "@ + backup_file(git_dir, hook) + " to "@ + hook_file(git_dir, hook);
    match removal {
        HookRemoval::Nothing | HookRemoval::UserOwned => Seq::empty(),
        HookRemoval::Remove => seq![remove],
        HookRemoval::Restore => seq![restore],
        HookRemoval::RemoveAndRestore => seq![remove, restore],
    }
}

/// What a dry run says of a hook that is to be removed.
pub fn removal_report(repo: &RepoInfo, hook: &str, removal: HookRemoval) -> (r: Vec<String>)
    ensures
        texts(r@) == removal_lines(repo.git_dir@, hook@, removal),
{
    let path = hook_path(repo, hook);
    let backup = backup_path(repo, hook);
    let mut out: Vec<String> = Vec::new();
    if removal == HookRemoval::Remove || removal == HookRemoval::RemoveAndRestore {
        out.push(cat2("would remove hook ", path.as_str()));
    }
    if removal == HookRemoval::Restore || removal == HookRemoval::RemoveAndRestore {
        out.push(cat4("would restore ", backup.as_str(), " to ", path.as_str()));
    }
    assert(texts(out@) =~= removal_lines(repo.git_dir@, hook@, removal));
    out
}

/// What is said of a hook that stays because it belongs to somebody else.
pub fn user_owned_warning(repo: &RepoInfo, hook: &str) -> (r: String)
    ensures
        r@ == "skipping user-owned hook "@ + hook_file(repo.git_dir@, hook@),
{
    let path = hook_path(repo, hook);
    cat2("skipping user-owned hook ", path.as_str())
}

/// Without force, installing loses no hook of somebody else: it stays where it is, or is
/// kept as the backup.
pub proof fn law_installing_loses_no_hook(slot: Slot, git_dir: Seq<char>, hook: Seq<char>, backup_existing: bool)
    requires
        slot.hook is Some,
        !slot.managed(),
    ensures
        ({
            let after = slot.installed(git_dir, hook, false, backup_existing);
            after.hook == slot.hook || after.backup == slot.hook
        }),
{
}

/// What installing puts in place is the tool's own.
pub proof fn law_installed_hooks_are_managed(slot: Slot, git_dir: Seq<char>, hook: Seq<char>, force: bool, backup_existing: bool)
    requires
        slot.hook is None || slot.managed() || force || backup_existing,
    ensures
        slot.installed(git_dir, hook, force, backup_existing).managed(),
{
    law_the_dispatcher_is_managed();
}

/// Removing leaves every hook of somebody else as it is.
pub proof fn law_removing_keeps_user_hooks(slot: Slot, restore: bool)
    requires
        slot.hook is Some,
        !slot.managed(),
    ensures
        slot.uninstalled(restore) == slot,
{
}

/// A dry run of the removal changes nothing: no file of the tool is to go, and neither a
/// hook nor a backup is touched, whatever is there.
pub proof fn law_a_dry_removal_changes_nothing(ctx: AppContext, args: UninstallArgs, slot: Slot)
    requires
        args.dry_run,
    ensures
        unless(args.dry_run, doomed_files(ctx, args.keep_binary)).len() == 0,
        removal_steps(args.dry_run, slot.removal(args.restore)) == (false, false),
        slot.stepped(removal_steps(args.dry_run, slot.removal(args.restore))) == slot,
{
}

/// What the removal does to a hook. One of somebody else stays with its backup. One of the
/// tool goes, and where a backup is there and is asked for, it takes the place. Where
/// there is no hook, only such a backup moves.
pub proof fn law_what_removing_does(slot: Slot, restore: bool)
    ensures
        ({
            let after = slot.stepped(removal_steps(false, slot.removal(restore)));
            &&& after == slot.uninstalled(restore)
            &&& slot.hook is Some && !slot.managed() ==> after == slot
            &&& slot.managed() && !(restore && slot.backup is Some) ==> after == (Slot { hook: None, ..slot })
            &&& (slot.hook is None || slot.managed()) && restore && slot.backup is Some ==> after == (Slot {
                hook: slot.backup,
                backup: None,
            })
            &&& slot.hook is None && !(restore && slot.backup is Some) ==> after == slot
        }),
{
}

/// Where there was no hook, removing undoes installing.
pub proof fn law_removing_undoes_installing(git_dir: Seq<char>, hook: Seq<char>, force: bool, backup_existing: bool, restore: bool)
    ensures
        ({
            let empty = Slot { hook: None, backup: None };
            empty.installed(git_dir, hook, force, backup_existing).uninstalled(restore) == empty
        }),
{
    law_the_dispatcher_is_managed();
}

/// A hook that was kept aside comes back when it is asked for.
pub proof fn law_restoring_brings_the_hook_back(slot: Slot, git_dir: Seq<char>, hook: Seq<char>, force: bool)
    requires
        slot.hook is Some,
        !slot.managed(),
    ensures
        slot.installed(git_dir, hook, force, true).uninstalled(true).hook == slot.hook,
{
    law_the_dispatcher_is_managed();
}

/// What there is of a runner: nothing, a link or a file.
#[derive(Clone, Copy, Debug, PartialEq, Eq, Structural)]
pub enum RunnerKind {
    Missing,
    Link,
    File,
}

/// A runner to bring up to date: a link is made anew, a file copied over.
#[derive(Debug)]
pub struct RunnerUpdate {
    pub binary: BinaryPlan,
    pub link: bool,
}

/// Updates by their texts.
pub open spec fn update_views(v: Seq<RunnerUpdate>) -> Seq<(Seq<char>, Seq<char>, bool)> {
    v.map_values(|u: RunnerUpdate| (u.binary.source@, u.binary.target@, u.link))
}

/// The runners that there can be: one for each architecture, and the one without.
pub open spec fn runner_candidates(ctx: AppContext, given: Option<Seq<char>>, host: Seq<char>) -> Seq<(Seq<char>, Seq<char>)> {
    runners_for(
        ctx.repo.git_dir@,
        given,
        ctx.repo.current_exe@,
        arch_names(ctx.config.defaults.arch@),
    ).push((runner_source(given, ctx.repo.current_exe@, host), plain_runner(ctx.repo.git_dir@)))
}

/// The updates of the runners that are there.
pub open spec fn runner_updates(candidates: Seq<(Seq<char>, Seq<char>)>, kinds: Seq<RunnerKind>) -> Seq<
    (Seq<char>, Seq<char>, bool),
>
    decreases kinds.len(),
{
    if kinds.len() == 0 {
        Seq::empty()
    } else {
        let head = runner_updates(candidates, kinds.drop_last());
        let c = candidates[kinds.len() - 1];
        match kinds.last() {
            RunnerKind::Missing => head,
            RunnerKind::Link => head.push((c.0, c.1, true)),
            RunnerKind::File => head.push((c.0, c.1, false)),
        }
    }
}

/// The hooks of a list that are the tool's own.
pub open spec fn own_hooks(hooks: Seq<Seq<char>>, managed: Seq<bool>) -> Seq<Seq<char>>
    decreases managed.len(),
{
    if managed.len() == 0 {
        Seq::empty()
    } else if managed.last() {
        own_hooks(hooks, managed.drop_last()).push(hooks[managed.len() - 1])
    } else {
        own_hooks(hooks, managed.drop_last())
    }
}

/// What updating does: runners, then the hooks that are put in place anew. A dry run has
/// none of them to do.
#[derive(Debug)]
pub struct UpdatePlan {
    /// Whether the script that hooks lead to is written anew.
    pub prepare: bool,
    pub updates: Vec<RunnerUpdate>,
    pub hooks: Vec<&'static str>,
    /// What a dry run says in place of doing it.
    pub dry_lines: Vec<String>,
}

/// What a dry run says of updates.
pub open spec fn update_lines(updates: Seq<(Seq<char>, Seq<char>, bool)>) -> Seq<Seq<char>> {
    updates.map_values(|u: (Seq<char>, Seq<char>, bool)| "would update "@ + u.1 + " from "@ + u.0)
}

/// Why nothing can be updated.
pub open spec fn not_installed(git_dir: Seq<char>) -> ErrorView {
    ErrorView::Message("ci does not look installed in "@ + git_dir + "; run `ci install` first"@)
}

/// The places of the runners that there can be, to be looked at before an update.
pub fn runner_places(ctx: &AppContext, given: &Option<String>, host: &Architecture) -> (r: Vec<BinaryPlan>)
    ensures
        binary_views(r@) == runner_candidates(*ctx, opt_text(*given), host@),
{
    let mut out = plan_binaries(&ctx.repo, given, ctx.config.defaults.arch.as_slice());
    let b = BinaryPlan {
        source: source_for(given, ctx.repo.current_exe.as_str(), host),
        target: fallback_runner_path(&ctx.repo),
    };
    let ghost before = out@;
    out.push(b);
    assert(binary_views(out@) =~= binary_views(before).push((b.source@, b.target@)));
    out
}

/// What updating does, or that there is nothing to update. `kinds` says what there is at
/// each of [`runner_places`], and `managed` of each hook whether it is the tool's own.
pub fn cmd_update(ctx: &AppContext, args: &UpdateArgs, host: &Architecture, kinds: &[RunnerKind], managed: &[bool]) -> (r: Result<
    UpdatePlan,
    CiError,
>)
    requires
        kinds@.len() == runner_candidates(*ctx, opt_text(args.source), host@).len(),
        managed@.len() == all_hook_names().len(),
    ensures
        ({
            let updates = runner_updates(runner_candidates(*ctx, opt_text(args.source), host@), kinds@);
            let hooks = own_hooks(all_hook_names(), managed@);
            match r {
                Ok(plan) => {
                    &&& updates.len() > 0
                    &&& plan.prepare == !args.dry_run
                    &&& update_views(plan.updates@) == unless(args.dry_run, updates)
                    &&& slices(plan.hooks@) == unless(args.dry_run, hooks)
                    &&& texts(plan.dry_lines@) == update_lines(updates) + hook_lines(
                        ctx.repo.git_dir@,
                        hooks,
                        "would refresh hook "@,
                    )
                },
                Err(e) => updates.len() == 0 && e@ == not_installed(ctx.repo.git_dir@),
            }
        }),
{
    let ghost all = runner_candidates(*ctx, opt_text(args.source), host@);
    let places = runner_places(ctx, &args.source, host);
    let mut updates: Vec<RunnerUpdate> = Vec::new();
    let mut dry_lines: Vec<String> = Vec::new();
    let mut i: usize = 0;
    assert(update_views(updates@) =~= runner_updates(all, kinds@.take(0)));
    assert(texts(dry_lines@) =~= update_lines(runner_updates(all, kinds@.take(0))));
    assert(binary_views(places@).len() == places@.len());
    while i < kinds.len()
        invariant
            i <= kinds@.len(),
            kinds@.len() == all.len(),
            all == binary_views(places@),
            places@.len() == all.len(),
            update_views(updates@) == runner_updates(all, kinds@.take(i as int)),
            texts(dry_lines@) == update_lines(runner_updates(all, kinds@.take(i as int))),
        decreases kinds.len() - i,
    {
        let ghost done = runner_updates(all, kinds@.take(i as int));
        assert(kinds@.take(i + 1).drop_last() =~= kinds@.take(i as int));
        assert(all[i as int] == (places@[i as int].source@, places@[i as int].target@));
        if kinds[i] != RunnerKind::Missing {
            let u = RunnerUpdate {
                binary: BinaryPlan {
                    source: places[i].source.clone(),
                    target: places[i].target.clone(),
                },
                link: kinds[i] == RunnerKind::Link,
            };
            let line = cat4("would update ", u.binary.target.as_str(), " from ", u.binary.source.as_str());
            let ghost before = updates@;
            let ghost item = (u.binary.source@, u.binary.target@, u.link);
            updates.push(u);
            dry_lines.push(line);
            assert(update_views(updates@) =~= update_views(before).push(item));
            assert(update_lines(done.push(item)) =~= update_lines(done).push(line@));
        }
        i += 1;
    }
    assert(kinds@.take(i as int) =~= kinds@);
    assert(update_views(updates@).len() == updates@.len());
    if updates.is_empty() {
        return Err(
            message(
                cat3(
                    "ci does not look installed in ",
                    ctx.repo.git_dir.as_str(),
                    "; run `ci install` first",
                ),
            ),
        );
    }
    let hooks = refresh_managed_hooks(managed);
    push_hook_lines(&mut dry_lines, &ctx.repo, hooks.as_slice(), "would refresh hook ");
    if args.dry_run {
        let plan = UpdatePlan { prepare: false, updates: Vec::new(), hooks: Vec::new(), dry_lines };
        assert(update_views(plan.updates@) =~= Seq::<(Seq<char>, Seq<char>, bool)>::empty());
        assert(slices(plan.hooks@) =~= Seq::<Seq<char>>::empty());
        return Ok(plan);
    }
    Ok(UpdatePlan { prepare: true, updates, hooks, dry_lines })
}

/// The hooks that are put in place anew: those that are the tool's own already.
pub fn refresh_managed_hooks(managed: &[bool]) -> (r: Vec<&'static str>)
    requires
        managed@.len() == all_hook_names().len(),
    ensures
        slices(r@) == own_hooks(all_hook_names(), managed@),
{
    let hooks = all_hooks();
    let ghost all = all_hook_names();
    assert(slices(hooks@).len() == hooks@.len());
    let mut out: Vec<&'static str> = Vec::new();
    let mut i: usize = 0;
    assert(slices(out@) =~= own_hooks(all, managed@.take(0)));
    while i < managed.len()
        invariant
            i <= managed@.len(),
            all == all_hook_names(),
            all == slices(hooks@),
            hooks@.len() == all.len(),
            managed@.len() == all.len(),
            slices(out@) == own_hooks(all, managed@.take(i as int)),
        decreases managed.len() - i,
    {
        assert(managed@.take(i + 1).drop_last() =~= managed@.take(i as int));
        assert(all[i as int] == hooks@[i as int]@);
        if managed[i] {
            let ghost before = slices(out@);
            out.push(hooks[i]);
            assert(slices(out@) =~= before.push(all[i as int]));
        }
        i += 1;
    }
    assert(managed@.take(i as int) =~= managed@);
    out
}

/// What removing does: hooks one by one, as [`hook_steps`] says, then the files of the tool.
#[derive(Debug)]
pub struct UninstallPlan {
    /// The hooks to look at.
    pub hooks: Vec<&'static str>,
    /// The runners and the script that hooks lead to; none where they are kept, or in a
    /// dry run.
    pub files: Vec<String>,
    /// The directory that goes with them, where it is empty then.
    pub emptied: Option<String>,
    /// What a dry run says of the files.
    pub dry_lines: Vec<String>,
}

/// The files of the tool.
pub open spec fn tool_files(git_dir: Seq<char>, arches: Seq<Seq<char>>) -> Seq<Seq<char>> {
    arches.map_values(|a: Seq<char>| runner_path(git_dir, a)) + seq![
        plain_runner(git_dir),
        joined(runner_dir(git_dir), "hook"@),
    ]
}

/// The files of the tool that are to go: none where they are kept.
pub open spec fn doomed_files(ctx: AppContext, keep_binary: bool) -> Seq<Seq<char>> {
    unless(keep_binary, tool_files(ctx.repo.git_dir@, arch_names(ctx.config.defaults.arch@)))
}

/// What removing does. All hooks are looked at where none are named. A dry run removes
/// nothing, and says what would be removed.
pub fn cmd_uninstall(ctx: &AppContext, args: &UninstallArgs) -> (r: Result<UninstallPlan, CiError>)
    ensures
        ({
            let hooks = requested_hooks(Some(or_else(opt_text(args.hooks), "all"@)), ctx.repo.is_bare);
            let files = doomed_files(*ctx, args.keep_binary);
            match r {
                Ok(plan) => {
                    &&& hooks == Ok::<_, ErrorView>(slices(plan.hooks@))
                    &&& texts(plan.files@) == unless(args.dry_run, files)
                    &&& opt_text(plan.emptied) == if args.keep_binary || args.dry_run {
                        None
                    } else {
                        Some(runner_dir(ctx.repo.git_dir@))
                    }
                    &&& texts(plan.dry_lines@) == files.map_values(
                        |f: Seq<char>| "would remove binary "@ + f,
                    )
                },
                Err(e) => hooks == Err::<Seq<Seq<char>>, _>(e@),
            }
        }),
{
    let requested = match &args.hooks {
        Some(hooks) => hooks.as_str(),
        None => "all",
    };
    let hooks = match parse_hooks(Some(requested), ctx.repo.is_bare) {
        Ok(hooks) => hooks,
        Err(e) => return Err(e),
    };
    let repo = &ctx.repo;
    let mut files: Vec<String> = Vec::new();
    if !args.keep_binary {
        let ghost paths = arch_names(ctx.config.defaults.arch@).map_values(
            |a: Seq<char>| runner_path(repo.git_dir@, a),
        );
        let mut i: usize = 0;
        assert(texts(files@) =~= paths.take(0));
        while i < ctx.config.defaults.arch.len()
            invariant
                i <= ctx.config.defaults.arch@.len(),
                repo == &ctx.repo,
                paths == arch_names(ctx.config.defaults.arch@).map_values(
                    |a: Seq<char>| runner_path(repo.git_dir@, a),
                ),
                texts(files@) == paths.take(i as int),
            decreases ctx.config.defaults.arch.len() - i,
        {
            assert(arch_names(ctx.config.defaults.arch@)[i as int] == ctx.config.defaults.arch@[i as int]@);
            let path = managed_runner_path(repo, &ctx.config.defaults.arch[i]);
            assert(paths[i as int] == path@);
            files.push(path);
            i += 1;
        }
        assert(paths.take(i as int) =~= paths);
        files.push(fallback_runner_path(repo));
        files.push(dispatcher_path(repo));
        assert(texts(files@) =~= tool_files(repo.git_dir@, arch_names(ctx.config.defaults.arch@)));
    } else {
        assert(texts(files@) =~= Seq::<Seq<char>>::empty());
    }
    let ghost all = texts(files@).map_values(|f: Seq<char>| "would remove binary "@ + f);
    let mut dry_lines: Vec<String> = Vec::new();
    let mut i: usize = 0;
    assert(texts(dry_lines@) =~= all.take(0));
    while i < files.len()
        invariant
            i <= files@.len(),
            all == texts(files@).map_values(|f: Seq<char>| "would remove binary "@ + f),
            texts(dry_lines@) == all.take(i as int),
        decreases files.len() - i,
    {
        assert(texts(files@)[i as int] == files@[i as int]@);
        let line = cat2("would remove binary ", files[i].as_str());
        assert(all[i as int] == line@);
        dry_lines.push(line);
        i += 1;
    }
    assert(all.take(i as int) =~= all);
    if args.dry_run {
        let plan = UninstallPlan { hooks, files: Vec::new(), emptied: None, dry_lines };
        assert(texts(plan.files@) =~= Seq::<Seq<char>>::empty());
        return Ok(plan);
    }
    let emptied = if args.keep_binary {
        None
    } else {
        Some(managed_runner_dir(repo))
    };
    Ok(UninstallPlan { hooks, files, emptied, dry_lines })
}

/// How what stands at a path is removed: a link to a directory is a file.
pub fn remove_file_if_exists(kind: Option<EntryKind>) -> (r: Clearing)
    ensures
        r == match kind {
            None => Clearing::Nothing,
            Some(EntryKind::Dir) => Clearing::RemoveDir,
            Some(_) => Clearing::RemoveFile,
        },
{
    match kind {
        None => Clearing::Nothing,
        Some(EntryKind::Dir) => Clearing::RemoveDir,
        Some(_) => Clearing::RemoveFile,
    }
}

/// What there is at the place of a runner: whether anything is, where it leads to where it
/// is a link, and whether that is there.
#[derive(Debug)]
pub struct BinaryFacts {
    pub exists: bool,
    pub link: Option<String>,
    pub target_exists: bool,
}

/// What there is at the place of a hook.
#[derive(Debug)]
pub struct HookFacts {
    pub exists: bool,
    pub content: Option<String>,
    pub mode: Option<u32>,
    pub backup: bool,
}

/// Where a link leads to: a target that is not absolute starts where the link is.
pub open spec fn link_end(link: Seq<char>, target: Seq<char>) -> Seq<char> {
    if absolute(target) {
        target
    } else {
        joined(or_else(parent_of(link), "/"@), target)
    }
}

/// Where a link leads to.
pub fn link_destination(link: &str, target: &str) -> (r: String)
    ensures
        r@ == link_end(link@, target@),
{
    if is_absolute(target) {
        return target.to_owned();
    }
    match parent(link) {
        Some(dir) => join_path(dir.as_str(), target),
        None => join_path("/", target),
    }
}

/// Whether a runner is as the facts have it.
pub open spec fn binary_is(b: BinaryState, path: Seq<char>, facts: BinaryFacts) -> bool {
    match facts.link {
        Some(target) => b matches BinaryState::Symlink(p, t, broken) && p@ == path && t@ == target@ && broken
            == !facts.target_exists,
        None => if facts.exists {
            b matches BinaryState::Copy(p) && p@ == path
        } else {
            b matches BinaryState::Missing(p) && p@ == path
        },
    }
}

/// Whether a hook is as the facts have it.
pub open spec fn hook_is(h: HookState, git_dir: Seq<char>, name: Seq<char>, facts: HookFacts) -> bool {
    &&& h.name@ == name
    &&& h.path@ == hook_file(git_dir, name)
    &&& h.exists == facts.exists
    &&& h.managed == (opt_text(facts.content) matches Some(text) && is_managed(text))
    &&& h.executable == (facts.mode matches Some(mode) && mode_is_executable(mode))
    &&& h.backup == facts.backup
}

/// The installation of a repository: a runner for each architecture, and every hook.
pub fn inspect_installation(repo: &RepoInfo, arches: &[Architecture], binaries: &[BinaryFacts], hooks: &[HookFacts]) -> (r:
    InstallState)
    requires
        binaries@.len() == arches@.len(),
        hooks@.len() == all_hook_names().len(),
    ensures
        r.binaries@.len() == arches@.len(),
        forall|i: int|
            0 <= i < arches@.len() ==> binary_is(
                #[trigger] r.binaries@[i],
                runner_path(repo.git_dir@, arches@[i]@),
                binaries@[i],
            ),
        r.hooks@.len() == all_hook_names().len(),
        forall|i: int|
            0 <= i < all_hook_names().len() ==> hook_is(
                #[trigger] r.hooks@[i],
                repo.git_dir@,
                all_hook_names()[i],
                hooks@[i],
            ),
{
    let mut states: Vec<BinaryState> = Vec::new();
    let mut i: usize = 0;
    while i < arches.len()
        invariant
            i <= arches@.len(),
            binaries@.len() == arches@.len(),
            states@.len() == i,
            forall|k: int|
                0 <= k < i ==> binary_is(
                    #[trigger] states@[k],
                    runner_path(repo.git_dir@, arches@[k]@),
                    binaries@[k],
                ),
        decreases arches.len() - i,
    {
        let path = managed_runner_path(repo, &arches[i]);
        let facts = &binaries[i];
        let state = match &facts.link {
            Some(target) => BinaryState::Symlink(path, target.clone(), !facts.target_exists),
            None => if facts.exists {
                BinaryState::Copy(path)
            } else {
                BinaryState::Missing(path)
            },
        };
        states.push(state);
        i += 1;
    }
    let names = all_hooks();
    let ghost all = all_hook_names();
    assert(slices(names@).len() == names@.len());
    let mut found: Vec<HookState> = Vec::new();
    let mut k: usize = 0;
    while k < names.len()
        invariant
            k <= names@.len(),
            all == all_hook_names(),
            all == slices(names@),
            names@.len() == all.len(),
            hooks@.len() == all.len(),
            found@.len() == k,
            forall|j: int| 0 <= j < k ==> hook_is(#[trigger] found@[j], repo.git_dir@, all[j], hooks@[j]),
        decreases names.len() - k,
    {
        assert(all[k as int] == names@[k as int]@);
        let facts = &hooks[k];
        found.push(
            HookState {
                name: names[k].to_owned(),
                path: hook_path(repo, names[k]),
                exists: facts.exists,
                managed: is_managed_hook(opt_str(&facts.content)),
                executable: match facts.mode {
                    Some(mode) => is_executable(mode),
                    None => false,
                },
                backup: facts.backup,
            },
        );
        k += 1;
    }
    InstallState { binaries: states, hooks: found }
}

proof fn lemma_tool_names()
    ensures
        naming("ci"@) && !"ci"@.contains('/'),
        naming("hook"@) && !"hook"@.contains('/'),
        naming("hooks"@) && !"hooks"@.contains('/'),
        naming("run"@) && !"run"@.contains('/'),
        "ci"@ != "hooks"@,
        "hooks"@ != ".."@ && "hooks"@ != "/"@ && "hooks"@ != "."@,
        "ci"@ != ".."@ && "ci"@ != "."@,
        "hook"@ != ".."@ && "hook"@ != "."@,
        ".."@ != "."@,
{
    reveal_strlit("ci");
    reveal_strlit("hook");
    reveal_strlit("hooks");
    reveal_strlit("run");
    reveal_strlit(".");
    reveal_strlit("..");
    reveal_strlit("/");
    assert("ci"@.len() == 2 && "ci"@[0] == 'c');
    assert("hook"@.len() == 4);
    assert("hooks"@.len() == 5);
    assert("run"@.len() == 3);
    assert("."@.len() == 1);
    assert(".."@.len() == 2 && ".."@[0] == '.');
    assert("/"@.len() == 1);
}

/// The tool keeps its runners in the directory `ci` of the repository, each under `run` and
/// its architecture, and the hooks stand where Git looks for them. What removing takes away
/// are all of the runners and the script, and none of the hooks.
pub proof fn law_where_the_tool_keeps_its_files(git_dir: Seq<char>, arch: Seq<char>, hook: Seq<char>, arches: Seq<Seq<char>>)
    requires
        git_dir.len() > 0,
        naming(hook),
        !hook.contains('/'),
    ensures
        parts_of(runner_dir(git_dir)) == parts_of(git_dir).push("ci"@),
        parts_of(plain_runner(git_dir)) == parts_of(git_dir).push("ci"@).push("run"@),
        parts_of(hook_file(git_dir, hook)) == parts_of(git_dir).push("hooks"@).push(hook),
        backup_file(git_dir, hook) == hook_file(git_dir, hook) + ".ci-backup"@,
        runner_path(git_dir, arch) == plain_runner(git_dir) + "."@ + suffix_of(arch),
        arches.contains(arch) ==> tool_files(git_dir, arches).contains(runner_path(git_dir, arch)),
        tool_files(git_dir, arches).contains(plain_runner(git_dir)),
        tool_files(git_dir, arches).contains(joined(runner_dir(git_dir), "hook"@)),
{
    lemma_tool_names();
    reveal_strlit("run");
    let ci = runner_dir(git_dir);
    lemma_name_parts("ci"@);
    lemma_name_parts("run"@);
    lemma_name_parts("hooks"@);
    lemma_name_parts(hook);
    law_join_appends_components(git_dir, "ci"@);
    law_join_appends_components(git_dir, "hooks"@);
    assert(ci.len() > 0);
    law_join_appends_components(ci, "run"@);
    law_join_appends_components(hooks_dir(git_dir), hook);
    assert(parts_of(git_dir) + seq!["ci"@] =~= parts_of(git_dir).push("ci"@));
    assert(parts_of(ci) + seq!["run"@] =~= parts_of(ci).push("run"@));
    assert(parts_of(git_dir) + seq!["hooks"@] =~= parts_of(git_dir).push("hooks"@));
    assert(parts_of(hooks_dir(git_dir)) + seq![hook] =~= parts_of(hooks_dir(git_dir)).push(hook));
    assert(hook[0] == (hook + ".ci-backup"@)[0]);
    assert(backup_file(git_dir, hook) =~= hook_file(git_dir, hook) + ".ci-backup"@);
    let name = MANAGED_RUNNER_NAME@ + "."@ + suffix_of(arch);
    assert(name[0] == 'r');
    assert(!absolute(name));
    assert("run"@[0] == 'r');
    assert(runner_path(git_dir, arch) =~= plain_runner(git_dir) + "."@ + suffix_of(arch));
    let files = tool_files(git_dir, arches);
    let n = arches.len() as int;
    if arches.contains(arch) {
        let k = choose|k: int| 0 <= k < arches.len() && arches[k] == arch;
        assert(files[k] == runner_path(git_dir, arch));
    }
    assert(files[n] == plain_runner(git_dir));
    assert(files[n + 1] == joined(ci, "hook"@));
}

/// A hook is installed unless it belongs to somebody else and neither a backup nor force is
/// asked for; a backup is made exactly where there is a hook of somebody else and one is asked for.
/// It leads to the script of the tool.
pub proof fn law_when_a_hook_is_installed(
    git_dir: Seq<char>,
    hook: Seq<char>,
    exists: bool,
    managed: bool,
    force: bool,
    backup_existing: bool,
)
    requires
        git_dir.len() > 0,
    ensures
        ({
            let plan = hook_plan(git_dir, hook, exists, managed, force, backup_existing);
            &&& managed || !exists ==> plan is Ok && plan->Ok_0.backup is None
            &&& exists && !managed && backup_existing ==> plan is Ok && plan->Ok_0.backup == Some(backup_file(git_dir, hook))
            &&& exists && !managed && !backup_existing && force ==> plan is Ok && plan->Ok_0.backup is None
            &&& exists && !managed && !backup_existing && !force ==> plan is Err
            &&& plan is Ok ==> plan->Ok_0.path == hook_file(git_dir, hook) && lexical(
                parts_of(joined(hooks_dir(git_dir), plan->Ok_0.link)),
            ) == lexical(parts_of(joined(runner_dir(git_dir), "hook"@)))
        }),
{
    lemma_tool_names();
    reveal_strlit("../ci/hook");
    reveal_strlit("..");
    reveal_strlit("/");
    reveal_strlit("ci");
    reveal_strlit("hook");
    let link = "../ci/hook"@;
    assert(link =~= ".."@ + "/"@ + "ci"@ + "/"@ + "hook"@);
    lemma_up_and_down("ci"@, "hook"@);
    lemma_name_parts("ci"@);
    lemma_name_parts("hook"@);
    lemma_name_parts("hooks"@);
    law_join_appends_components(git_dir, "ci"@);
    law_join_appends_components(git_dir, "hooks"@);
    law_join_appends_components(hooks_dir(git_dir), link);
    law_join_appends_components(runner_dir(git_dir), "hook"@);
    let p = parts_of(git_dir);
    let a0 = p.push("hooks"@);
    let a1 = a0.push(".."@);
    let a2 = a1.push("ci"@);
    let a3 = a2.push("hook"@);
    let b0 = p.push("ci"@);
    let b1 = b0.push("hook"@);
    assert(parts_of(joined(hooks_dir(git_dir), link)) =~= a3);
    assert(parts_of(joined(runner_dir(git_dir), "hook"@)) =~= b1);
    assert(a3.drop_last() =~= a2);
    assert(a2.drop_last() =~= a1);
    assert(a1.drop_last() =~= a0);
    assert(a0.drop_last() =~= p);
    assert(b1.drop_last() =~= b0);
    assert(b0.drop_last() =~= p);
    assert(lexical(a0) == lexical(p).push("hooks"@));
    assert(lexical(a1) =~= lexical(p));
    assert(lexical(b0) == lexical(p).push("ci"@));
    assert(lexical(a2) == lexical(a1).push("ci"@));
    assert(lexical(a3) == lexical(a2).push("hook"@));
    assert(lexical(b1) == lexical(b0).push("hook"@));
    assert(lexical(a3) == lexical(b1));
}

/// The program that is installed is this one unless another is given; in the path of that
/// one `{arch}` stands for the architecture.
pub proof fn law_the_program_that_is_installed(before: Seq<char>, after: Seq<char>, current: Seq<char>, arch: Seq<char>)
    requires
        !before.contains('{'),
        !after.contains('{'),
    ensures
        runner_source(None, current, arch) == current,
        runner_source(Some(before), current, arch) == before,
        runner_source(Some(before + "{arch}"@ + after), current, arch) == before + arch + after,
{
    reveal_strlit("{arch}");
    let needle = "{arch}"@;
    let s = before + needle + after;
    lemma_not_there(before, needle);
    lemma_not_there(after, needle);
    lemma_found_behind(before, needle, after);
    assert(s.take(before.len() as int) =~= before);
    assert(s.skip((before.len() + needle.len()) as int) =~= after);
    assert(replaced(after, needle, arch) == after);
    assert(replaced(s, needle, arch) == before + arch + after);
}

proof fn lemma_not_there(s: Seq<char>, needle: Seq<char>)
    requires
        needle.len() > 0,
        !s.contains(needle[0]),
    ensures
        find_text(s, needle) is None,
    decreases s.len(),
{
    if needle.is_prefix_of(s) {
        assert(needle[0] == s.subrange(0, needle.len() as int)[0]);
        assert(s[0] == needle[0]);
        assert(false);
    }
    if s.len() > 0 {
        let t = s.drop_first();
        assert(!t.contains(needle[0])) by {
            if t.contains(needle[0]) {
                let k = choose|k: int| 0 <= k < t.len() && t[k] == needle[0];
                assert(s[k + 1] == needle[0]);
            }
        }
        lemma_not_there(t, needle);
    }
}

proof fn lemma_found_behind(before: Seq<char>, needle: Seq<char>, after: Seq<char>)
    requires
        needle.len() > 0,
        !before.contains(needle[0]),
    ensures
        find_text(before + needle + after, needle) == Some(before.len() as int),
    decreases before.len(),
{
    let s = before + needle + after;
    if before.len() == 0 {
        assert(needle =~= s.subrange(0, needle.len() as int));
    } else {
        assert(before[0] != needle[0]);
        if needle.is_prefix_of(s) {
            assert(needle[0] == s.subrange(0, needle.len() as int)[0]);
            assert(s[0] == before[0]);
        }
        let t = before.drop_first();
        assert(!t.contains(needle[0])) by {
            if t.contains(needle[0]) {
                let k = choose|k: int| 0 <= k < t.len() && t[k] == needle[0];
                assert(before[k + 1] == needle[0]);
            }
        }
        assert(s.drop_first() =~= t + needle + after);
        lemma_found_behind(t, needle, after);
    }
}

/// An update touches exactly the runners that are there, and leaves a link a link and a file
/// a file.
pub proof fn law_what_is_there_is_updated(
    candidates: Seq<(Seq<char>, Seq<char>)>,
    kinds: Seq<RunnerKind>,
    source: Seq<char>,
    target: Seq<char>,
    link: bool,
)
    requires
        kinds.len() <= candidates.len(),
    ensures
        runner_updates(candidates, kinds).contains((source, target, link)) <==> exists|i: int|
            0 <= i < kinds.len() && #[trigger] candidates[i] == (source, target) && kinds[i] == (if link {
                RunnerKind::Link
            } else {
                RunnerKind::File
            }),
    decreases kinds.len(),
{
    let all = runner_updates(candidates, kinds);
    let u = (source, target, link);
    let wanted = if link {
        RunnerKind::Link
    } else {
        RunnerKind::File
    };
    if kinds.len() > 0 {
        let n = kinds.len() - 1;
        let less = kinds.drop_last();
        law_what_is_there_is_updated(candidates, less, source, target, link);
        let head = runner_updates(candidates, less);
        if head.contains(u) {
            let k = choose|k: int| 0 <= k < head.len() && head[k] == u;
            assert(all[k] == u);
            let i = choose|i: int| 0 <= i < less.len() && #[trigger] candidates[i] == (source, target) && less[i] == wanted;
            assert(kinds[i] == wanted);
        }
        if candidates[n] == (source, target) && kinds[n] == wanted {
            assert(all[all.len() - 1] == u);
        }
        if all.contains(u) && !head.contains(u) {
            let k = choose|k: int| 0 <= k < all.len() && all[k] == u;
            if k < head.len() {
                assert(head[k] == u);
            }
            assert(candidates[n] == (source, target) && kinds[n] == wanted);
        }
        if exists|i: int| 0 <= i < kinds.len() && #[trigger] candidates[i] == (source, target) && kinds[i] == wanted {
            let i = choose|i: int| 0 <= i < kinds.len() && #[trigger] candidates[i] == (source, target) && kinds[i] == wanted;
            if i < n {
                assert(less[i] == wanted);
            }
        }
    }
}

/// An update renews exactly the hooks that belong to the tool.
pub proof fn law_own_hooks_are_renewed(hooks: Seq<Seq<char>>, managed: Seq<bool>, hook: Seq<char>)
    requires
        managed.len() <= hooks.len(),
    ensures
        own_hooks(hooks, managed).contains(hook) <==> exists|i: int|
            0 <= i < managed.len() && #[trigger] hooks[i] == hook && managed[i],
    decreases managed.len(),
{
    if managed.len() > 0 {
        let n = managed.len() - 1;
        let less = managed.drop_last();
        law_own_hooks_are_renewed(hooks, less, hook);
        let head = own_hooks(hooks, less);
        let all = own_hooks(hooks, managed);
        if head.contains(hook) {
            let k = choose|k: int| 0 <= k < head.len() && head[k] == hook;
            assert(all[k] == hook);
            let i = choose|i: int| 0 <= i < less.len() && #[trigger] hooks[i] == hook && less[i];
            assert(managed[i]);
        }
        if hooks[n] == hook && managed[n] {
            assert(all[all.len() - 1] == hook);
        }
        if all.contains(hook) && !head.contains(hook) {
            let k = choose|k: int| 0 <= k < all.len() && all[k] == hook;
            if k < head.len() {
                assert(head[k] == hook);
            }
            assert(hooks[n] == hook && managed[n]);
        }
        if exists|i: int| 0 <= i < managed.len() && #[trigger] hooks[i] == hook && managed[i] {
            let i = choose|i: int| 0 <= i < managed.len() && #[trigger] hooks[i] == hook && managed[i];
            if i < n {
                assert(less[i]);
            }
        }
    }
}

/// A link leads where it says, seen from the directory that it stands in.
pub proof fn law_where_a_link_leads(link: Seq<char>, target: Seq<char>)
    ensures
        absolute(target) ==> link_end(link, target) == target,
        !absolute(target) && parent_of(link) is Some && parent_of(link)->0.len() > 0 && lead_of(target).len() == 0
            ==> parts_of(link_end(link, target)) == parts_of(parent_of(link)->0) + parts_of(target),
{
    if !absolute(target) && parent_of(link) is Some && parent_of(link)->0.len() > 0 && lead_of(target).len() == 0 {
        law_join_appends_components(parent_of(link)->0, target);
    }
}

/// A dry run says a line for each thing that removing would do, and removing does nothing else.
pub proof fn law_a_line_for_each_step(git_dir: Seq<char>, hook: Seq<char>, removal: HookRemoval)
    ensures
        ({
            let steps = removal_steps(false, removal);
            let lines = removal_lines(git_dir, hook, removal);
            &&& lines.len() == (if steps.0 { 1int } else { 0 }) + (if steps.1 { 1int } else { 0 })
            &&& steps.0 ==> lines[0] == "would remove hook "@ + hook_file(git_dir, hook)
            &&& steps.1 ==> lines.last() == "would restore "@ + backup_file(git_dir, hook) + " to "@ + hook_file(
                git_dir,
                hook,
            )
        }),
{
}

/// What installing does: in the way that is asked for, else in that of the configuration,
/// one runner for each architecture and every hook that is asked for; a dry run does nothing
/// and says a line for each of these.
pub proof fn law_what_installing_does(p: InstallPlan, ctx: AppContext, args: InstallArgs, hooks: Seq<Seq<char>>)
    requires
        install_is(p, ctx, args, hooks),
    ensures
        args.mode matches Some(mode) ==> p.mode == mode,
        args.mode is None ==> p.mode == ctx.config.defaults.install_mode,
        args.dry_run ==> !p.prepare && p.binaries@.len() == 0 && p.hooks@.len() == 0,
        !args.dry_run ==> p.prepare && slices(p.hooks@) == hooks && p.binaries@.len() == ctx.config.defaults.arch@.len(),
        p.dry_lines@.len() == 1 + ctx.config.defaults.arch@.len() + hooks.len(),
{
    assert(binary_views(p.binaries@).len() == p.binaries@.len());
    assert(slices(p.hooks@).len() == p.hooks@.len());
    assert(texts(p.dry_lines@).len() == p.dry_lines@.len());
}

/// What is found of a runner and of a hook: a link is one whether or not it leads anywhere,
/// and a hook is of the tool where its text says so.
pub proof fn law_what_is_found(
    b: BinaryState,
    path: Seq<char>,
    facts: BinaryFacts,
    h: HookState,
    git_dir: Seq<char>,
    name: Seq<char>,
    seen: HookFacts,
)
    requires
        binary_is(b, path, facts),
        hook_is(h, git_dir, name, seen),
    ensures
        (b is Symlink) == (facts.link is Some),
        (b is Copy) == (facts.link is None && facts.exists),
        b matches BinaryState::Symlink(at, to, broken) ==> at@ == path && to@ == facts.link->0@ && broken != facts.target_exists,
        h.exists == seen.exists && h.backup == seen.backup && h.name@ == name && h.path@ == hook_file(git_dir, name),
        seen.content is None ==> !h.managed,
        seen.content is Some && seen.content->0@ == dispatcher_text() ==> h.managed,
        seen.mode is None ==> !h.executable,
{
    law_the_dispatcher_is_managed();
}

/// A link that stands in no directory leads there from the root.
pub proof fn law_a_link_at_the_root(link: Seq<char>, target: Seq<char>)
    requires
        parent_of(link) is None,
        !absolute(target),
    ensures
        link_end(link, target) == seq!['/'] + target,
{
    reveal_strlit("/");
    assert("/"@ =~= seq!['/']);
}

/// The script that hooks lead to hands the name of the hook and all of its arguments to the
/// runner, and takes the runner of the architecture where it is there.
pub proof fn law_what_the_script_calls()
    ensures
        "exec \"$ci_runner\" hook \"$ci_hook\" \"$@\"\n"@.is_suffix_of(dispatcher_text()),
        "#!/usr/bin/env sh\n"@.is_prefix_of(dispatcher_text()),
{
    let body = "\nci_hook=$(basename \"$0\")\nci_dir=$(CDPATH= cd -- \"$(dirname -- \"$0\")/../ci\" && pwd)\ncase \"$(uname -m)\" in\n  x86_64|amd64) ci_arch=x64 ;;\n  aarch64|arm64) ci_arch=arm64 ;;\n  *) ci_arch=$(uname -m | tr '_' '-') ;;\nesac\nci_runner=\"$ci_dir/run.$ci_arch\"\nif [ ! -x \"$ci_runner\" ]; then\n  ci_runner=\"$ci_dir/run\"\nfi\nexec \"$ci_runner\" hook \"$ci_hook\" \"$@\"\n"@;
    let head = "#!/usr/bin/env sh\n# "@;
    let call = "exec \"$ci_runner\" hook \"$ci_hook\" \"$@\"\n"@;
    let first = "#!/usr/bin/env sh\n"@;
    let text = dispatcher_text();
    reveal_strlit("\nci_hook=$(basename \"$0\")\nci_dir=$(CDPATH= cd -- \"$(dirname -- \"$0\")/../ci\" && pwd)\ncase \"$(uname -m)\" in\n  x86_64|amd64) ci_arch=x64 ;;\n  aarch64|arm64) ci_arch=arm64 ;;\n  *) ci_arch=$(uname -m | tr '_' '-') ;;\nesac\nci_runner=\"$ci_dir/run.$ci_arch\"\nif [ ! -x \"$ci_runner\" ]; then\n  ci_runner=\"$ci_dir/run\"\nfi\nexec \"$ci_runner\" hook \"$ci_hook\" \"$@\"\n");
    reveal_strlit("#!/usr/bin/env sh\n# ");
    reveal_strlit("exec \"$ci_runner\" hook \"$ci_hook\" \"$@\"\n");
    reveal_strlit("#!/usr/bin/env sh\n");
    assert(text == head + MANAGED_MARKER@ + body);
    assert(call =~= body.subrange(body.len() - call.len(), body.len() as int));
    assert(call =~= text.subrange(text.len() - call.len(), text.len() as int));
    assert(first =~= head.subrange(0, first.len() as int));
    assert(first =~= text.subrange(0, first.len() as int));
}

} // verus!
