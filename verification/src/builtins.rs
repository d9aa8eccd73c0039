//! The actions that the tool brings along: what each of them does, as a plan of the
//! commands and file operations that carry it out.

use crate::config::{or_else, over};
use crate::error::{CiError, ErrorView, usage};
use crate::inputs::{
    first_input, input_bool, input_value, law_the_first_name_counts, law_yes_is_not_no,
    parse_path_list, path_list, says_no, says_yes, switch,
};
use crate::maps::StringMap;
use crate::strings::{cat2, cat3, cat4, same, to_lower, trim};
use crate::text::{lemma_take_push, lemma_texts_push, lower, opt_slice, slices, texts, trimmed};
use vstd::prelude::*;
use vstd::string::*;

verus! {

broadcast use {lemma_texts_push, lemma_take_push};

/// What becomes of ignored files when untracked files are removed.
#[derive(Clone, Copy, Debug, PartialEq, Eq, Structural)]
pub enum CleanIgnoredMode {
    Exclude,
    Include,
    Only,
}

/// The mode that a setting asks for.
pub open spec fn ignored_mode(step: Seq<char>, value: Option<Seq<char>>) -> Result<CleanIgnoredMode, ErrorView> {
    match value {
        None => Ok(CleanIgnoredMode::Exclude),
        Some(v) => if says_no(v) {
            Ok(CleanIgnoredMode::Exclude)
        } else if says_yes(v) {
            Ok(CleanIgnoredMode::Include)
        } else if lower(trimmed(v)) == "only"@ {
            Ok(CleanIgnoredMode::Only)
        } else {
            Err(
                ErrorView::Usage(
                    step + " `ignored` must be one of `false`, `true`, or `only`; got `"@ + lower(trimmed(v))
                        + "`"@,
                ),
            )
        },
    }
}

/// The mode that a setting asks for.
pub fn parse_cleanup_ignored_mode(step_name: &str, value: Option<&str>) -> (r: Result<CleanIgnoredMode, CiError>)
    ensures
        match r {
            Ok(m) => ignored_mode(step_name@, opt_slice(value)) == Ok::<_, ErrorView>(m),
            Err(e) => ignored_mode(step_name@, opt_slice(value)) == Err::<CleanIgnoredMode, _>(e@),
        },
{
    let value = match value {
        None => return Ok(CleanIgnoredMode::Exclude),
        Some(v) => to_lower(trim(v)),
    };
    let v = value.as_str();
    if same(v, "0") || same(v, "false") || same(v, "no") || same(v, "off") {
        Ok(CleanIgnoredMode::Exclude)
    } else if same(v, "1") || same(v, "true") || same(v, "yes") || same(v, "on") {
        Ok(CleanIgnoredMode::Include)
    } else if same(v, "only") {
        Ok(CleanIgnoredMode::Only)
    } else {
        Err(
            usage(
                cat4(
                    step_name,
                    " `ignored` must be one of `false`, `true`, or `only`; got `",
                    v,
                    "`",
                ),
            ),
        )
    }
}

impl CleanIgnoredMode {
    /// The switches of `git clean`.
    pub open spec fn switches(self) -> Seq<char> {
        match self {
            CleanIgnoredMode::Exclude => "-fd"@,
            CleanIgnoredMode::Include => "-fdx"@,
            CleanIgnoredMode::Only => "-fdX"@,
        }
    }

    /// The switches of `git clean`.
    pub fn clean_switches(&self) -> (r: &'static str)
        ensures
            r@ == self.switches(),
    {
        match self {
            CleanIgnoredMode::Exclude => "-fd",
            CleanIgnoredMode::Include => "-fdx",
            CleanIgnoredMode::Only => "-fdX",
        }
    }
}

/// What the end of a `git` command means for those after it.
#[derive(Clone, Copy, Debug, PartialEq, Eq, Structural)]
pub enum GitRule {
    /// A failure ends the action with its status.
    StopOnFailure,
    /// A success says that there is nothing to do, and ends the action well.
    DoneIfClean,
}

impl GitRule {
    /// The status that the action ends with after a command, where it ends.
    pub open spec fn verdict(self, status: i32) -> Option<i32> {
        match self {
            GitRule::StopOnFailure => if status != 0 {
                Some(status)
            } else {
                None
            },
            GitRule::DoneIfClean => if status == 0 {
                Some(0)
            } else {
                None
            },
        }
    }

    /// The status that the action ends with after a command, where it ends.
    pub fn after(&self, status: i32) -> (r: Option<i32>)
        ensures
            r == self.verdict(status),
    {
        match self {
            GitRule::StopOnFailure => if status != 0 {
                Some(status)
            } else {
                None
            },
            GitRule::DoneIfClean => if status == 0 {
                Some(0)
            } else {
                None
            },
        }
    }
}

/// A `git` command of an action.
#[derive(Debug)]
pub struct GitCommand {
    pub args: Vec<String>,
    pub rule: GitRule,
}

#[verifier::ext_equal]
pub struct GitCommandView {
    pub args: Seq<Seq<char>>,
    pub rule: GitRule,
}

impl View for GitCommand {
    type V = GitCommandView;

    open spec fn view(&self) -> GitCommandView {
        GitCommandView { args: texts(self.args@), rule: self.rule }
    }
}

/// The commands of an action, one after the other, and the error that it ends with once
/// they are done.
#[derive(Debug)]
pub struct GitPlan {
    pub commands: Vec<GitCommand>,
    pub failure: Option<CiError>,
}

#[verifier::ext_equal]
pub struct GitPlanView {
    pub commands: Seq<GitCommandView>,
    pub failure: Option<ErrorView>,
}

/// Commands by their texts.
pub open spec fn command_views(v: Seq<GitCommand>) -> Seq<GitCommandView> {
    v.map_values(|c: GitCommand| c@)
}

/// An error that may be there.
pub open spec fn opt_error(e: Option<CiError>) -> Option<ErrorView> {
    match e {
        Some(e) => Some(e@),
        None => None,
    }
}

impl View for GitPlan {
    type V = GitPlanView;

    open spec fn view(&self) -> GitPlanView {
        GitPlanView { commands: command_views(self.commands@), failure: opt_error(self.failure) }
    }
}

/// How an action ends whose commands end with the given statuses: where a command ends
/// the action, with that status; else with the error of the plan, else well. `None`
/// where commands are left to run.
pub open spec fn plan_end(plan: GitPlanView, statuses: Seq<i32>) -> Option<Result<i32, ErrorView>>
    decreases plan.commands.len(),
{
    if plan.commands.len() == 0 {
        match plan.failure {
            Some(e) => Some(Err(e)),
            None => Some(Ok(0)),
        }
    } else if statuses.len() == 0 {
        None
    } else {
        match plan.commands[0].rule.verdict(statuses[0]) {
            Some(code) => Some(Ok(code)),
            None => plan_end(
                GitPlanView { commands: plan.commands.drop_first(), failure: plan.failure },
                statuses.drop_first(),
            ),
        }
    }
}

/// The commands of a longer list.
pub proof fn lemma_command_views_push(v: Seq<GitCommand>, c: GitCommand)
    ensures
        command_views(v.push(c)) == command_views(v).push(c@),
{
    assert(command_views(v.push(c)) =~= command_views(v).push(c@));
}

/// Appends a command that ends the action where it fails.
fn then_run(commands: &mut Vec<GitCommand>, args: Vec<String>)
    ensures
        command_views(final(commands)@) == command_views(old(commands)@).push(
            GitCommandView { args: texts(args@), rule: GitRule::StopOnFailure },
        ),
{
    let c = GitCommand { args, rule: GitRule::StopOnFailure };
    proof {
        lemma_command_views_push(commands@, c);
    }
    commands.push(c);
}

/// Three words.
fn words3(a: &str, b: &str, c: &str) -> (r: Vec<String>)
    ensures
        texts(r@) == seq![a@, b@, c@],
{
    let mut out: Vec<String> = Vec::new();
    out.push(a.to_owned());
    out.push(b.to_owned());
    out.push(c.to_owned());
    assert(texts(out@) =~= seq![a@, b@, c@]);
    out
}

/// The inputs that name the paths of a commit.
pub open spec fn commit_path_names() -> Seq<Seq<char>> {
    seq![
        "path"@, "paths"@, "source"@, "sources"@, "src"@, "srcs"@, "from"@, "froms"@, "pattern"@,
        "patterns"@,
    ]
}

/// What is staged for a commit: the paths, everything, or nothing more than there is.
pub open spec fn commit_add(values: Map<Seq<char>, Seq<char>>) -> Seq<GitCommandView> {
    let paths = match first_input(values, commit_path_names()) {
        Some(v) => path_list(v),
        None => Seq::empty(),
    };
    let staged_only = switch(values, seq!["staged"@, "staged-only"@, "staged_only"@], false);
    let all = switch(values, seq!["all"@], paths.len() == 0 && !staged_only);
    if staged_only {
        Seq::empty()
    } else if all {
        seq![GitCommandView { args: seq!["add"@, "-A"@], rule: GitRule::StopOnFailure }]
    } else if paths.len() > 0 {
        seq![GitCommandView { args: seq!["add"@, "--"@] + paths, rule: GitRule::StopOnFailure }]
    } else {
        Seq::empty()
    }
}

/// Whether a commit may be empty.
pub open spec fn commit_may_be_empty(values: Map<Seq<char>, Seq<char>>) -> bool {
    switch(values, seq!["allow-empty"@, "allow_empty"@, "empty"@], false)
}

/// The arguments of the commit itself.
pub open spec fn commit_args(values: Map<Seq<char>, Seq<char>>) -> Seq<Seq<char>> {
    let message = or_else(
        first_input(values, seq!["message"@, "msg"@, "summary"@]),
        "ci: automated changes"@,
    );
    let head = seq!["commit"@, "-m"@, message];
    let empty = if commit_may_be_empty(values) {
        head.push("--allow-empty"@)
    } else {
        head
    };
    let signed = if switch(values, seq!["signoff"@, "sign-off"@, "signed-off"@], false) {
        empty.push("--signoff"@)
    } else {
        empty
    };
    match first_input(values, seq!["author"@]) {
        Some(author) => signed.push("--author"@).push(author),
        None => signed,
    }
}

/// The commands of a commit: stage, see whether there is something to commit, commit.
pub open spec fn commit_plan(values: Map<Seq<char>, Seq<char>>) -> GitPlanView {
    let check = if commit_may_be_empty(values) {
        Seq::empty()
    } else {
        seq![GitCommandView { args: seq!["diff"@, "--cached"@, "--quiet"@], rule: GitRule::DoneIfClean }]
    };
    GitPlanView {
        commands: commit_add(values) + check + seq![
            GitCommandView { args: commit_args(values), rule: GitRule::StopOnFailure },
        ],
        failure: None,
    }
}

fn commit_path_keys() -> (r: Vec<&'static str>)
    ensures
        slices(r@) == commit_path_names(),
{
    let out = vec![
        "path", "paths", "source", "sources", "src", "srcs", "from", "froms", "pattern", "patterns",
    ];
    assert(slices(out@) =~= commit_path_names());
    out
}

/// A switch under one of three names.
fn switch3(values: &StringMap, a: &str, b: &str, c: &str, default: bool) -> (r: bool)
    ensures
        r == switch(values@, seq![a@, b@, c@], default),
{
    let keys = [a, b, c];
    assert(slices(keys@) =~= seq![a@, b@, c@]);
    input_bool(values, &keys, default)
}

/// A value under one of three names.
fn value3<'a>(values: &'a StringMap, a: &str, b: &str, c: &str) -> (r: Option<&'a str>)
    ensures
        opt_slice(r) == first_input(values@, seq![a@, b@, c@]),
{
    let keys = [a, b, c];
    assert(slices(keys@) =~= seq![a@, b@, c@]);
    input_value(values, &keys)
}

/// A switch under one name.
fn switch1(values: &StringMap, a: &str, default: bool) -> (r: bool)
    ensures
        r == switch(values@, seq![a@], default),
{
    let keys = [a];
    assert(slices(keys@) =~= seq![a@]);
    input_bool(values, &keys, default)
}

/// A value under one name.
fn value1<'a>(values: &'a StringMap, a: &str) -> (r: Option<&'a str>)
    ensures
        opt_slice(r) == first_input(values@, seq![a@]),
{
    let keys = [a];
    assert(slices(keys@) =~= seq![a@]);
    input_value(values, &keys)
}

/// The commands of a commit.
pub fn run_commit_step(values: &StringMap) -> (r: GitPlan)
    ensures
        r@ == commit_plan(values@),
{
    let paths = match input_value(values, commit_path_keys().as_slice()) {
        Some(v) => parse_path_list(v),
        None => Vec::new(),
    };
    let ghost listed = texts(paths@);
    assert(listed.len() == paths@.len());
    assert(listed =~= match first_input(values@, commit_path_names()) {
        Some(v) => path_list(v),
        None => Seq::empty(),
    });
    let staged_only = switch3(values, "staged", "staged-only", "staged_only", false);
    let add_all = switch1(values, "all", paths.is_empty() && !staged_only);
    let mut commands: Vec<GitCommand> = Vec::new();
    if !staged_only {
        if add_all {
            let mut args: Vec<String> = Vec::new();
            args.push("add".to_owned());
            args.push("-A".to_owned());
            assert(texts(args@) =~= seq!["add"@, "-A"@]);
            then_run(&mut commands, args);
        } else if !paths.is_empty() {
            let mut args: Vec<String> = Vec::new();
            args.push("add".to_owned());
            args.push("--".to_owned());
            let ghost head = args@;
            let mut more = paths;
            let ghost tail = more@;
            args.append(&mut more);
            assert(texts(args@) =~= seq!["add"@, "--"@] + listed);
            then_run(&mut commands, args);
        }
    }
    assert(command_views(commands@) =~= commit_add(values@));
    let allow_empty = switch3(values, "allow-empty", "allow_empty", "empty", false);
    if !allow_empty {
        let c = GitCommand {
            args: words3("diff", "--cached", "--quiet"),
            rule: GitRule::DoneIfClean,
        };
        proof {
            lemma_command_views_push(commands@, c);
        }
        commands.push(c);
    }
    let text = match value3(values, "message", "msg", "summary") {
        Some(v) => v,
        None => "ci: automated changes",
    };
    let mut args = words3("commit", "-m", text);
    if allow_empty {
        args.push("--allow-empty".to_owned());
    }
    if switch3(values, "signoff", "sign-off", "signed-off", false) {
        args.push("--signoff".to_owned());
    }
    if let Some(author) = value1(values, "author") {
        args.push("--author".to_owned());
        args.push(author.to_owned());
    }
    assert(texts(args@) =~= commit_args(values@));
    then_run(&mut commands, args);
    let plan = GitPlan { commands, failure: None };
    assert(plan@ =~= commit_plan(values@));
    plan
}

/// The inputs that name the remote to read from.
pub open spec fn remote_source_names() -> Seq<Seq<char>> {
    seq!["source"@, "src"@, "from"@]
}

/// The inputs that name the remote to write to.
pub open spec fn destination_names() -> Seq<Seq<char>> {
    seq!["destination"@, "destenation"@, "dest"@, "dst"@, "to"@, "target"@]
}

fn destination_keys() -> (r: Vec<&'static str>)
    ensures
        slices(r@) == destination_names(),
{
    let out = vec!["destination", "destenation", "dest", "dst", "to", "target"];
    assert(slices(out@) =~= destination_names());
    out
}

/// How a pull brings in what is new.
pub open spec fn pull_strategy(values: Map<Seq<char>, Seq<char>>) -> Seq<char> {
    match first_input(values, seq!["strategy"@, "pull-strategy"@, "pull_strategy"@]) {
        Some(v) => lower(trimmed(v)),
        None => if switch(values, seq!["automerge"@, "auto-merge"@, "merge"@], false) {
            "merge"@
        } else {
            "ff-only"@
        },
    }
}

/// How a pull brings in what is new.
pub fn sync_pull_strategy(values: &StringMap) -> (r: String)
    ensures
        r@ == pull_strategy(values@),
{
    match value3(values, "strategy", "pull-strategy", "pull_strategy") {
        Some(v) => to_lower(trim(v)),
        None => if switch3(values, "automerge", "auto-merge", "merge", false) {
            "merge".to_owned()
        } else {
            "ff-only".to_owned()
        },
    }
}

/// The switch of `git pull` for a strategy.
pub open spec fn pull_switch(strategy: Seq<char>) -> Option<Seq<char>> {
    if strategy == "ff-only"@ || strategy == "ff"@ {
        Some("--ff-only"@)
    } else if strategy == "rebase"@ {
        Some("--rebase"@)
    } else if strategy == "merge"@ {
        Some("--no-rebase"@)
    } else {
        None
    }
}

/// A command whose failure ends the step with its status.
pub open spec fn simple_command(args: Seq<Seq<char>>) -> GitCommandView {
    GitCommandView { args, rule: GitRule::StopOnFailure }
}

/// What is said of an unknown way to pull.
pub open spec fn strategy_error(strategy: Seq<char>) -> ErrorView {
    ErrorView::Usage(
        "sync strategy must be `ff-only`, `rebase`, `merge`, or `none`; got `"@ + strategy + "`"@,
    )
}

/// The pull of a synchronisation.
pub open spec fn sync_pull(
    values: Map<Seq<char>, Seq<char>>,
    remote: Seq<char>,
    branch: Option<Seq<char>>,
) -> Result<Seq<GitCommandView>, ErrorView> {
    let strategy = pull_strategy(values);
    if !switch(values, seq!["pull"@], true) || strategy == "none"@ {
        Ok(Seq::empty())
    } else {
        match pull_switch(strategy) {
            None => Err(strategy_error(strategy)),
            Some(how) => Ok(
                seq![
                    simple_command(
                        match branch {
                            Some(b) => seq!["pull"@, how, remote, b],
                            None => seq!["pull"@, how, remote],
                        },
                    ),
                ],
            ),
        }
    }
}

/// The push of a synchronisation.
pub open spec fn sync_push(
    values: Map<Seq<char>, Seq<char>>,
    remote: Seq<char>,
    branch: Option<Seq<char>>,
) -> Seq<GitCommandView> {
    if !switch(values, seq!["push"@], true) {
        Seq::empty()
    } else {
        let head = if switch(values, seq!["follow-tags"@, "follow_tags"@, "tags"@], false) {
            seq!["push"@, "--follow-tags"@]
        } else {
            seq!["push"@]
        };
        let what = match branch {
            Some(b) => "HEAD:"@ + b,
            None => "HEAD"@,
        };
        seq![simple_command(head.push(remote).push(what))]
    }
}

/// The commands of a synchronisation: a mirror is fetched and pushed as it is; else the
/// branch is pulled and pushed, after outdated references are dropped if asked for.
pub open spec fn sync_plan(values: Map<Seq<char>, Seq<char>>, current: Option<Seq<char>>) -> GitPlanView {
    let remote = or_else(first_input(values, seq!["remote"@]), "origin"@);
    let source = or_else(first_input(values, remote_source_names()), remote);
    let destination = or_else(first_input(values, destination_names()), remote);
    let fetch = simple_command(seq!["fetch"@, "--prune"@, source]);
    if switch(values, seq!["mirror"@], false) {
        GitPlanView {
            commands: seq![fetch, simple_command(seq!["push"@, "--mirror"@, destination])],
            failure: None,
        }
    } else {
        let branch = over(current, first_input(values, seq!["branch"@, "ref"@]));
        let pruned = if switch(values, seq!["prune"@], false) {
            seq![fetch]
        } else {
            Seq::empty()
        };
        match sync_pull(values, source, branch) {
            Err(e) => GitPlanView { commands: pruned, failure: Some(e) },
            Ok(pull) => GitPlanView {
                commands: pruned + pull + sync_push(values, destination, branch),
                failure: None,
            },
        }
    }
}

/// Appends the pull of a synchronisation; the error where its strategy is unknown.
fn add_pull(values: &StringMap, remote: &str, branch: Option<&str>, commands: &mut Vec<GitCommand>) -> (r: Option<
    CiError,
>)
    ensures
        match sync_pull(values@, remote@, opt_slice(branch)) {
            Ok(pull) => r is None && command_views(final(commands)@) == command_views(old(commands)@) + pull,
            Err(e) => opt_error(r) == Some(e) && final(commands)@ == old(commands)@,
        },
{
    let ghost before = command_views(commands@);
    let strategy = sync_pull_strategy(values);
    let strategy = strategy.as_str();
    if !switch1(values, "pull", true) || same(strategy, "none") {
        assert(command_views(commands@) =~= before + Seq::<GitCommandView>::empty());
        return None;
    }
    let how = if same(strategy, "ff-only") || same(strategy, "ff") {
        "--ff-only"
    } else if same(strategy, "rebase") {
        "--rebase"
    } else if same(strategy, "merge") {
        "--no-rebase"
    } else {
        return Some(
            usage(
                cat3(
                    "sync strategy must be `ff-only`, `rebase`, `merge`, or `none`; got `",
                    strategy,
                    "`",
                ),
            ),
        );
    };
    let mut args = words3("pull", how, remote);
    if let Some(b) = branch {
        args.push(b.to_owned());
        assert(texts(args@) =~= seq!["pull"@, how@, remote@, b@]);
    }
    then_run(commands, args);
    assert(command_views(commands@) =~= before + sync_pull(values@, remote@, opt_slice(branch))->Ok_0);
    None
}

/// Appends the push of a synchronisation.
fn add_push(values: &StringMap, remote: &str, branch: Option<&str>, commands: &mut Vec<GitCommand>)
    ensures
        command_views(final(commands)@) == command_views(old(commands)@) + sync_push(
            values@,
            remote@,
            opt_slice(branch),
        ),
{
    let ghost before = command_views(commands@);
    if switch1(values, "push", true) {
        let mut args: Vec<String> = Vec::new();
        args.push("push".to_owned());
        if switch3(values, "follow-tags", "follow_tags", "tags", false) {
            args.push("--follow-tags".to_owned());
        }
        args.push(remote.to_owned());
        let what = match branch {
            Some(b) => cat2("HEAD:", b),
            None => "HEAD".to_owned(),
        };
        args.push(what);
        assert(texts(args@) =~= sync_push(values@, remote@, opt_slice(branch))[0].args);
        then_run(commands, args);
    }
    assert(command_views(commands@) =~= before + sync_push(values@, remote@, opt_slice(branch)));
}

/// The commands of a synchronisation. `current` is the branch that the repository is on.
pub fn run_sync_step(values: &StringMap, current: Option<&str>) -> (r: GitPlan)
    ensures
        r@ == sync_plan(values@, opt_slice(current)),
{
    let remote = match value1(values, "remote") {
        Some(v) => v,
        None => "origin",
    };
    let source = match value3(values, "source", "src", "from") {
        Some(v) => v,
        None => remote,
    };
    let destination = match input_value(values, destination_keys().as_slice()) {
        Some(v) => v,
        None => remote,
    };
    let mut commands: Vec<GitCommand> = Vec::new();
    if switch1(values, "mirror", false) {
        then_run(&mut commands, words3("fetch", "--prune", source));
        then_run(&mut commands, words3("push", "--mirror", destination));
        let plan = GitPlan { commands, failure: None };
        assert(plan@ =~= sync_plan(values@, opt_slice(current)));
        return plan;
    }
    let keys = ["branch", "ref"];
    assert(slices(keys@) =~= seq!["branch"@, "ref"@]);
    let branch = match input_value(values, &keys) {
        Some(v) => Some(v),
        None => current,
    };
    if switch1(values, "prune", false) {
        then_run(&mut commands, words3("fetch", "--prune", source));
    }
    match add_pull(values, source, branch, &mut commands) {
        Some(failure) => {
            let plan = GitPlan { commands, failure: Some(failure) };
            assert(plan@ =~= sync_plan(values@, opt_slice(current)));
            return plan;
        },
        None => {},
    }
    add_push(values, destination, branch, &mut commands);
    let plan = GitPlan { commands, failure: None };
    assert(plan@ =~= sync_plan(values@, opt_slice(current)));
    plan
}

/// A mirror is fetched and pushed, and nothing else is done.
pub proof fn law_mirror_only_fetches_and_pushes(values: Map<Seq<char>, Seq<char>>, current: Option<Seq<char>>)
    requires
        switch(values, seq!["mirror"@], false),
    ensures
        sync_plan(values, current).commands.len() == 2,
        sync_plan(values, current).failure is None,
{
}

/// A commit whose check finds nothing staged ends well without a commit.
pub proof fn law_nothing_staged_means_no_commit(values: Map<Seq<char>, Seq<char>>, statuses: Seq<i32>)
    requires
        !commit_may_be_empty(values),
        statuses.len() == commit_add(values).len() + 1,
        forall|i: int| 0 <= i < statuses.len() ==> #[trigger] statuses[i] == 0,
    ensures
        plan_end(commit_plan(values), statuses) == Some(Ok::<i32, ErrorView>(0)),
{
    let plan = commit_plan(values);
    let add = commit_add(values);
    if add.len() == 0 {
        assert(plan.commands[0].rule is DoneIfClean);
        assert(statuses[0] == 0);
    } else {
        assert(add.len() == 1);
        assert(plan.commands[0].rule is StopOnFailure);
        assert(plan.commands.drop_first()[0].rule is DoneIfClean);
        assert(statuses[0] == 0);
        assert(statuses.drop_first()[0] == statuses[1]);
        let rest = GitPlanView { commands: plan.commands.drop_first(), failure: plan.failure };
        assert(plan_end(rest, statuses.drop_first()) == Some(Ok::<i32, ErrorView>(0)));
    }
}

/// A pull goes the way of the strategy: `--ff-only`, `--rebase` and `--no-rebase` each stand
/// for one strategy and for no other, `none` pulls nothing, and every other strategy is
/// refused. It pulls the branch from the remote, where the branch is known.
pub proof fn law_a_pull_goes_the_way_of_the_strategy(
    values: Map<Seq<char>, Seq<char>>,
    remote: Seq<char>,
    branch: Option<Seq<char>>,
)
    requires
        switch(values, seq!["pull"@], true),
    ensures
        ({
            let s = pull_strategy(values);
            match sync_pull(values, remote, branch) {
                Ok(commands) => {
                    &&& commands.len() == if s == "none"@ {
                        0nat
                    } else {
                        1
                    }
                    &&& commands.len() > 0 ==> {
                        let args = commands[0].args;
                        &&& args[0] == "pull"@
                        &&& (args[1] == "--rebase"@) == (s == "rebase"@)
                        &&& (args[1] == "--no-rebase"@) == (s == "merge"@)
                        &&& (args[1] == "--ff-only"@) == (s == "ff-only"@ || s == "ff"@)
                        &&& args[2] == remote
                        &&& branch matches Some(b) ==> args.len() == 4 && args[3] == b
                        &&& branch is None ==> args.len() == 3
                        &&& commands[0].rule is StopOnFailure
                    }
                },
                Err(_) => s != "rebase"@ && s != "merge"@ && s != "ff-only"@ && s != "ff"@ && s != "none"@,
            }
        }),
{
    reveal_strlit("--rebase");
    reveal_strlit("--no-rebase");
    reveal_strlit("--ff-only");
    reveal_strlit("rebase");
    reveal_strlit("merge");
    reveal_strlit("ff-only");
    reveal_strlit("ff");
    reveal_strlit("none");
    reveal_strlit("pull");

    assert("--rebase"@.len() != "--no-rebase"@.len());
    assert("--rebase"@.len() != "--ff-only"@.len());
    assert("--no-rebase"@.len() != "--ff-only"@.len());
}

/// A strategy that is given counts, however it is written; without one a merge has to be
/// asked for.
pub proof fn law_the_strategy_of_a_pull(values: Map<Seq<char>, Seq<char>>)
    ensures
        values.contains_key("strategy"@) ==> pull_strategy(values) == lower(trimmed(values["strategy"@])),
        !values.contains_key("strategy"@) && values.contains_key("pull-strategy"@) ==> pull_strategy(values) == lower(
            trimmed(values["pull-strategy"@]),
        ),
        !values.contains_key("strategy"@) && !values.contains_key("pull-strategy"@) && !values.contains_key(
            "pull_strategy"@,
        ) ==> (pull_strategy(values) == "merge"@) == switch(
            values,
            seq!["automerge"@, "auto-merge"@, "merge"@],
            false,
        ) && (pull_strategy(values) == "merge"@ || pull_strategy(values) == "ff-only"@),
{
    let names = seq!["strategy"@, "pull-strategy"@, "pull_strategy"@];
    reveal_strlit("merge");
    reveal_strlit("ff-only");
    assert("merge"@.len() != "ff-only"@.len());
    if values.contains_key("strategy"@) {
        law_the_first_name_counts(values, names, 0);
    } else if values.contains_key("pull-strategy"@) {
        law_the_first_name_counts(values, names, 1);
    } else if !values.contains_key("pull_strategy"@) {
        law_the_first_name_counts(values, names, 3);
    }
}

/// Whether a command of `git` is of a kind.
pub open spec fn is_command(c: GitCommandView, word: Seq<char>) -> bool {
    c.args.len() > 0 && c.args[0] == word
}

/// A synchronisation that is no mirror drops outdated references first, where that is asked
/// for, pulls unless that is switched off, and pushes last unless that is switched off; it
/// does nothing else. What it pushes is the branch that is given, else the current one, to
/// the destination.
pub proof fn law_a_synchronisation_pulls_then_pushes(values: Map<Seq<char>, Seq<char>>, current: Option<Seq<char>>)
    requires
        !switch(values, seq!["mirror"@], false),
    ensures
        ({
            let plan = sync_plan(values, current);
            let n = plan.commands.len();
            let prune = switch(values, seq!["prune"@], false);
            let pull = switch(values, seq!["pull"@], true) && pull_strategy(values) != "none"@;
            let push = switch(values, seq!["push"@], true);
            &&& forall|i: int|
                0 <= i < n ==> (#[trigger] plan.commands[i]).rule is StopOnFailure && (is_command(
                    plan.commands[i],
                    "fetch"@,
                ) || is_command(plan.commands[i], "pull"@) || is_command(plan.commands[i], "push"@))
            &&& plan.failure is None ==> n == (if prune {
                1nat
            } else {
                0
            }) + (if pull {
                1nat
            } else {
                0
            }) + (if push {
                1nat
            } else {
                0
            })
            &&& prune ==> is_command(plan.commands[0], "fetch"@)
            &&& plan.failure is None && push ==> is_command(plan.commands[n - 1], "push"@)
            &&& plan.failure is None && pull && push ==> is_command(plan.commands[n - 2], "pull"@)
            &&& plan.failure is Some ==> pull && n == if prune {
                1nat
            } else {
                0
            }
            &&& plan.failure is None && push ==> {
                let args = plan.commands[n - 1].args;
                &&& values.contains_key("branch"@) ==> args.last() == "HEAD:"@ + values["branch"@]
                &&& !values.contains_key("branch"@) && !values.contains_key("ref"@) ==> args.last() == match current {
                    Some(b) => "HEAD:"@ + b,
                    None => "HEAD"@,
                }
                &&& values.contains_key("destination"@) ==> args[args.len() - 2] == values["destination"@]
                &&& (args.len() == 4) == switch(values, seq!["follow-tags"@, "follow_tags"@, "tags"@], false)
                &&& args.len() == 4 ==> args[1] == "--follow-tags"@
            }
            &&& plan.failure is None && pull && values.contains_key("source"@) ==> plan.commands[if prune {
                1int
            } else {
                0
            }].args[2] == values["source"@]
        }),
{
    let branches = seq!["branch"@, "ref"@];
    if values.contains_key("branch"@) {
        law_the_first_name_counts(values, branches, 0);
    } else if !values.contains_key("ref"@) {
        law_the_first_name_counts(values, branches, 2);
    }
    if values.contains_key("destination"@) {
        assert(destination_names()[0] == "destination"@);
        law_the_first_name_counts(values, destination_names(), 0);
    }
    if values.contains_key("source"@) {
        assert(remote_source_names()[0] == "source"@);
        law_the_first_name_counts(values, remote_source_names(), 0);
    }
    if switch(values, seq!["pull"@], true) {
        law_a_pull_goes_the_way_of_the_strategy(
            values,
            or_else(
                first_input(values, remote_source_names()),
                or_else(first_input(values, seq!["remote"@]), "origin"@),
            ),
            over(current, first_input(values, branches)),
        );
    }
}

/// Where neither a source nor a destination is named, both are the remote: the one that is
/// given, else `origin`. A mirror fetches from the source and pushes all to the destination.
pub proof fn law_remotes_of_a_synchronisation(values: Map<Seq<char>, Seq<char>>, current: Option<Seq<char>>)
    requires
        switch(values, seq!["mirror"@], false),
    ensures
        ({
            let commands = sync_plan(values, current).commands;
            let remote = if values.contains_key("remote"@) {
                values["remote"@]
            } else {
                "origin"@
            };
            &&& commands.len() == 2
            &&& commands[0].args.len() == 3 && commands[0].args[0] == "fetch"@ && commands[0].args[1] == "--prune"@
            &&& commands[1].args.len() == 3 && commands[1].args[0] == "push"@ && commands[1].args[1] == "--mirror"@
            &&& values.contains_key("source"@) ==> commands[0].args[2] == values["source"@]
            &&& values.contains_key("destination"@) ==> commands[1].args[2] == values["destination"@]
            &&& !values.contains_key("source"@) && !values.contains_key("src"@) && !values.contains_key("from"@)
                ==> commands[0].args[2] == remote
            &&& (forall|i: int|
                0 <= i < destination_names().len() ==> !values.contains_key(#[trigger] destination_names()[i]))
                ==> commands[1].args[2] == remote
        }),
{
    let one = seq!["remote"@];
    if values.contains_key("remote"@) {
        law_the_first_name_counts(values, one, 0);
    } else {
        law_the_first_name_counts(values, one, 1);
    }
    if values.contains_key("source"@) {
        assert(remote_source_names()[0] == "source"@);
        law_the_first_name_counts(values, remote_source_names(), 0);
    } else if !values.contains_key("src"@) && !values.contains_key("from"@) {
        law_the_first_name_counts(values, remote_source_names(), 3);
    }
    if values.contains_key("destination"@) {
        assert(destination_names()[0] == "destination"@);
        law_the_first_name_counts(values, destination_names(), 0);
    } else if forall|i: int| 0 <= i < destination_names().len() ==> !values.contains_key(#[trigger] destination_names()[i]) {
        law_the_first_name_counts(values, destination_names(), destination_names().len() as int);
    }
}

/// A commit stages what is named, everything where nothing is, and nothing where only what
/// is staged already is to be committed.
pub proof fn law_what_a_commit_stages(values: Map<Seq<char>, Seq<char>>)
    ensures
        ({
            let add = commit_add(values);
            let staged = switch(values, seq!["staged"@, "staged-only"@, "staged_only"@], false);
            &&& commit_plan(values).commands.take(add.len() as int) == add
            &&& add.len() <= 1
            &&& staged ==> add.len() == 0
            &&& !staged && values.contains_key("path"@) && path_list(values["path"@]).len() > 0 && !values.contains_key(
                "all"@,
            ) ==> add.len() == 1 && add[0].args == seq!["add"@, "--"@] + path_list(values["path"@])
            &&& !staged && !values.contains_key("all"@) && (forall|i: int|
                0 <= i < commit_path_names().len() ==> !values.contains_key(#[trigger] commit_path_names()[i]))
                ==> add.len() == 1 && add[0].args == seq!["add"@, "-A"@]
            &&& !staged && switch(values, seq!["all"@], false) ==> add.len() == 1 && add[0].args == seq!["add"@, "-A"@]
        }),
{
    let all = seq!["all"@];
    if values.contains_key("all"@) {
        law_the_first_name_counts(values, all, 0);
    } else {
        law_the_first_name_counts(values, all, 1);
    }
    if values.contains_key("path"@) {
        assert(commit_path_names()[0] == "path"@);
        law_the_first_name_counts(values, commit_path_names(), 0);
    }
    if forall|i: int| 0 <= i < commit_path_names().len() ==> !values.contains_key(#[trigger] commit_path_names()[i]) {
        law_the_first_name_counts(values, commit_path_names(), commit_path_names().len() as int);
    }
    assert(commit_plan(values).commands.take(commit_add(values).len() as int) =~= commit_add(values));
}

/// A commit ends with the commit itself, under the message that is given. It may be empty,
/// and is signed off, exactly where that is asked for; unless it may be empty it looks
/// first whether anything is staged. An author that is named stands last.
pub proof fn law_a_commit_is_what_is_asked_for(values: Map<Seq<char>, Seq<char>>)
    ensures
        ({
            let commands = commit_plan(values).commands;
            let n = commands.len();
            let args = commands[n - 1].args;
            let may_be_empty = switch(values, seq!["allow-empty"@, "allow_empty"@, "empty"@], false);
            let signed = switch(values, seq!["signoff"@, "sign-off"@, "signed-off"@], false);
            &&& n > 0
            &&& args.len() == 3 + (if may_be_empty {
                1int
            } else {
                0
            }) + (if signed {
                1int
            } else {
                0
            }) + (if values.contains_key("author"@) {
                2int
            } else {
                0
            })
            &&& args[0] == "commit"@ && args[1] == "-m"@
            &&& values.contains_key("message"@) ==> args[2] == values["message"@]
            &&& !values.contains_key("message"@) && values.contains_key("msg"@) ==> args[2] == values["msg"@]
            &&& may_be_empty ==> args[3] == "--allow-empty"@
            &&& signed && may_be_empty ==> args[4] == "--signoff"@
            &&& signed && !may_be_empty ==> args[3] == "--signoff"@
            &&& values.contains_key("author"@) ==> args[args.len() - 2] == "--author"@ && args.last() == values["author"@]
            &&& !may_be_empty ==> n > 1 && commands[n - 2].rule is DoneIfClean && commands[n - 2].args == seq![
                "diff"@,
                "--cached"@,
                "--quiet"@,
            ]
            &&& may_be_empty ==> forall|i: int| 0 <= i < n ==> (#[trigger] commands[i]).rule is StopOnFailure
            &&& commands[n - 1].rule is StopOnFailure
        }),
{
    let texts = seq!["message"@, "msg"@, "summary"@];
    let one = seq!["author"@];
    if values.contains_key("message"@) {
        law_the_first_name_counts(values, texts, 0);
    } else if values.contains_key("msg"@) {
        law_the_first_name_counts(values, texts, 1);
    }
    if values.contains_key("author"@) {
        law_the_first_name_counts(values, one, 0);
    } else {
        law_the_first_name_counts(values, one, 1);
    }
}

/// Ignored files are removed too exactly where that is said, and alone exactly where `only`
/// is; without a word they stay.
pub proof fn law_ignored_files_go_only_when_asked(step: Seq<char>, v: Seq<char>)
    ensures
        ignored_mode(step, None) matches Ok(m) && !m.switches().contains('x') && !m.switches().contains('X'),
        says_no(v) ==> ignored_mode(step, Some(v)) == ignored_mode(step, None),
        says_yes(v) ==> (ignored_mode(step, Some(v)) matches Ok(m) && m.switches().contains('x')),
        lower(trimmed(v)) == "only"@ ==> (ignored_mode(step, Some(v)) matches Ok(m) && m.switches().contains('X')
            && !m.switches().contains('x')),
        !says_no(v) && !says_yes(v) && lower(trimmed(v)) != "only"@ ==> ignored_mode(step, Some(v)) is Err,
        ignored_mode(step, Some(v)) matches Ok(m) ==> m.switches().contains('f') && m.switches().contains('d'),
{
    reveal_strlit("-fd");
    reveal_strlit("-fdx");
    reveal_strlit("-fdX");
    reveal_strlit("only");
    reveal_strlit("1");
    reveal_strlit("true");
    reveal_strlit("yes");
    reveal_strlit("on");
    reveal_strlit("0");
    reveal_strlit("false");
    reveal_strlit("no");
    reveal_strlit("off");
    assert("only"@[0] != "true"@[0]);
    assert("only"@.len() != "yes"@.len());
    assert("only"@.len() != "on"@.len());
    assert("-fdx"@[3] == 'x' && "-fdX"@[3] == 'X');
    assert("-fd"@[1] == 'f' && "-fd"@[2] == 'd');
    assert("-fdx"@[1] == 'f' && "-fdx"@[2] == 'd');
    assert("-fdX"@[1] == 'f' && "-fdX"@[2] == 'd');
    law_yes_is_not_no(v, Map::empty(), v, false);
}

/// A command that has to do well and does not ends the action with its status, and those
/// after it do not run.
pub proof fn law_a_failed_command_ends_the_action(plan: GitPlanView, statuses: Seq<i32>, i: int)
    requires
        0 <= i < plan.commands.len(),
        i < statuses.len(),
        forall|j: int| 0 <= j < i ==> (#[trigger] plan.commands[j]).rule is StopOnFailure,
        forall|j: int| 0 <= j < i ==> #[trigger] statuses[j] == 0,
        plan.commands[i].rule is StopOnFailure,
        statuses[i] != 0,
    ensures
        plan_end(plan, statuses) == Some(Ok::<i32, ErrorView>(statuses[i])),
    decreases i,
{
    if i > 0 {
        assert(plan.commands[0].rule is StopOnFailure);
        assert(statuses[0] == 0);
        let rest = GitPlanView { commands: plan.commands.drop_first(), failure: plan.failure };
        let more = statuses.drop_first();
        assert forall|j: int| 0 <= j < i - 1 implies (#[trigger] rest.commands[j]).rule is StopOnFailure by {
            assert(rest.commands[j] == plan.commands[j + 1]);
        }
        assert forall|j: int| 0 <= j < i - 1 implies #[trigger] more[j] == 0 by {
            assert(more[j] == statuses[j + 1]);
        }
        assert(rest.commands[i - 1] == plan.commands[i]);
        law_a_failed_command_ends_the_action(rest, more, i - 1);
    }
}

} // verus!
