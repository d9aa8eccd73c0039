//! The built-in actions that copy, link and remove files.

use crate::builtins::{
    CleanIgnoredMode, destination_names, ignored_mode, opt_error, parse_cleanup_ignored_mode,
};
use crate::conditions::entry;
use crate::config::{or_else, over};
use crate::error::{CiError, ErrorView, message, outcome};
use crate::inputs::{
    first_input, input_bool, input_value, law_the_first_name_counts, parse_bool, parse_path_list,
    path_list, says_yes, switch,
};
use crate::maps::StringMap;
use crate::paths::{
    absolute, body_of, common_len, components, file_name, file_name_of, is_absolute, join_path,
    joined, law_join_appends_components, law_relative_path_leads_there, lead_of, lemma_all_naming,
    lemma_body_part_is_plain, lemma_common_len, lemma_join_split, lexical, naming, parent,
    parent_of, parts_of, relative_between, relative_path_between,
};
use crate::strings::{cat2, cat3, cat4, copy_list, ends_with, join, same, strip_prefix};
use crate::text::{join_of, lemma_take_push, lemma_texts_push, opt_slice, slices, texts};
use vstd::prelude::*;
use vstd::string::*;

verus! {

broadcast use {lemma_texts_push, lemma_take_push};

/// What stands at a path. A link counts as a link, whatever it leads to.
#[derive(Clone, Copy, Debug, PartialEq, Eq, Structural)]
pub enum EntryKind {
    Dir,
    Other,
}

/// How a path is cleared before something is put there.
#[derive(Clone, Copy, Debug, PartialEq, Eq, Structural)]
pub enum Clearing {
    Nothing,
    RemoveDir,
    RemoveFile,
}

/// The inputs that name the sources.
pub open spec fn source_names() -> Seq<Seq<char>> {
    seq!["source"@, "sources"@, "src"@, "srcs"@, "from"@, "froms"@, "path"@, "paths"@]
}

fn source_keys() -> (r: Vec<&'static str>)
    ensures
        slices(r@) == source_names(),
{
    let out = vec!["source", "sources", "src", "srcs", "from", "froms", "path", "paths"];
    assert(slices(out@) =~= source_names());
    out
}

fn target_keys() -> (r: Vec<&'static str>)
    ensures
        slices(r@) == destination_names(),
{
    let out = vec!["destination", "destenation", "dest", "dst", "to", "target"];
    assert(slices(out@) =~= destination_names());
    out
}

/// What an export or a link is about: the patterns of its sources, its destination, and
/// whether it may replace what is there.
#[derive(Debug)]
pub struct TransferPlan {
    pub sources: Vec<String>,
    pub destination: String,
    pub replace: bool,
}

#[verifier::ext_equal]
pub struct TransferView {
    pub sources: Seq<Seq<char>>,
    pub destination: Seq<char>,
    pub replace: bool,
}

impl View for TransferPlan {
    type V = TransferView;

    open spec fn view(&self) -> TransferView {
        TransferView {
            sources: texts(self.sources@),
            destination: self.destination@,
            replace: self.replace,
        }
    }
}

/// What an export or a link is about; `action` is its name in messages.
pub open spec fn transfer_plan(values: Map<Seq<char>, Seq<char>>, action: Seq<char>) -> Result<TransferView, ErrorView> {
    match first_input(values, source_names()) {
        None => Err(ErrorView::Message(action + " requires `source`, `src`, or `from`"@)),
        Some(source) => match first_input(values, destination_names()) {
            None => Err(ErrorView::Message(action + " requires `destination`, `dest`, or `to`"@)),
            Some(destination) => if path_list(source).len() == 0 {
                Err(ErrorView::Message(action + " requires at least one source path"@))
            } else {
                Ok(
                    TransferView {
                        sources: path_list(source),
                        destination,
                        replace: switch(values, seq!["replace"@, "overwrite"@], false),
                    },
                )
            },
        },
    }
}

/// What an export or a link is about.
fn plan_transfer(values: &StringMap, action: &str) -> (r: Result<TransferPlan, CiError>)
    ensures
        outcome(r) == transfer_plan(values@, action@),
{
    let source = match input_value(values, source_keys().as_slice()) {
        Some(v) => v,
        None => return Err(message(cat2(action, " requires `source`, `src`, or `from`"))),
    };
    let destination = match input_value(values, target_keys().as_slice()) {
        Some(v) => v,
        None => return Err(message(cat2(action, " requires `destination`, `dest`, or `to`"))),
    };
    let sources = parse_path_list(source);
    assert(texts(sources@).len() == sources@.len());
    if sources.is_empty() {
        return Err(message(cat2(action, " requires at least one source path")));
    }
    let keys = ["replace", "overwrite"];
    assert(slices(keys@) =~= seq!["replace"@, "overwrite"@]);
    let replace = input_bool(values, &keys, false);
    Ok(TransferPlan { sources, destination: destination.to_owned(), replace })
}

/// What an export is about.
pub fn run_export_step(values: &StringMap) -> (r: Result<TransferPlan, CiError>)
    ensures
        outcome(r) == transfer_plan(values@, "export"@),
{
    plan_transfer(values, "export")
}

/// What a link is about.
pub fn run_link_step(values: &StringMap) -> (r: Result<TransferPlan, CiError>)
    ensures
        outcome(r) == transfer_plan(values@, "link"@),
{
    plan_transfer(values, "link")
}

/// The place that a text in an export stands for: `~` is the home directory where there
/// is one, and everything else is seen from the root.
pub open spec fn export_place(root: Seq<char>, value: Seq<char>, home: Option<Seq<char>>) -> Seq<char> {
    if value == "~"@ && home is Some {
        home->0
    } else if "~/"@.is_prefix_of(value) && home is Some {
        joined(home->0, value.skip(2))
    } else {
        joined(root, value)
    }
}

/// The place that a text in an export stands for.
pub fn resolve_export_path(root: &str, value: &str, home: Option<&str>) -> (r: String)
    ensures
        r@ == export_place(root@, value@, opt_slice(home)),
{
    if let Some(home) = home {
        if same(value, "~") {
            return home.to_owned();
        }
        proof {
            reveal_strlit("~/");
        }
        if let Some(rest) = strip_prefix(value, "~/") {
            return join_path(home, rest);
        }
    }
    join_path(root, value)
}

/// The complaint about a pattern that matches nothing.
pub fn no_match_error(action: &str, spec_text: &str) -> (r: CiError)
    ensures
        r@ == ErrorView::Message(action@ + " source matched no paths: "@ + spec_text@),
{
    message(cat3(action, " source matched no paths: ", spec_text))
}

/// What the patterns of an action matched: each has to match something that is there.
/// `matched` holds the matches of each pattern in turn.
pub open spec fn gathered(specs: Seq<Seq<char>>, matched: Seq<Seq<Seq<char>>>, action: Seq<char>) -> Result<
    Seq<Seq<char>>,
    ErrorView,
>
    decreases specs.len(),
{
    if specs.len() == 0 {
        Ok(Seq::empty())
    } else {
        match gathered(specs.drop_last(), matched, action) {
            Err(e) => Err(e),
            Ok(head) => if matched[specs.len() - 1].len() == 0 {
                Err(ErrorView::Message(action + " source matched no paths: "@ + specs.last()))
            } else {
                Ok(head + matched[specs.len() - 1])
            },
        }
    }
}

/// Lists by their texts.
pub open spec fn text_lists(v: Seq<Vec<String>>) -> Seq<Seq<Seq<char>>> {
    v.map_values(|l: Vec<String>| texts(l@))
}

/// A list of texts by what they hold.
pub open spec fn list_outcome(r: Result<Vec<String>, CiError>) -> Result<Seq<Seq<char>>, ErrorView> {
    match r {
        Ok(v) => Ok(texts(v@)),
        Err(e) => Err(e@),
    }
}

/// What the patterns of an action matched, in their order. `matched` holds the existing
/// paths that each pattern matched.
pub fn expand_action_sources(specs: &[String], matched: &[Vec<String>], action: &str) -> (r: Result<
    Vec<String>,
    CiError,
>)
    requires
        matched@.len() == specs@.len(),
    ensures
        list_outcome(r) == gathered(texts(specs@), text_lists(matched@), action@),
{
    let ghost all = texts(specs@);
    let ghost found = text_lists(matched@);
    let mut out: Vec<String> = Vec::new();
    let mut i: usize = 0;
    assert(texts(out@) =~= Seq::<Seq<char>>::empty());
    while i < specs.len()
        invariant
            i <= specs@.len(),
            all == texts(specs@),
            found == text_lists(matched@),
            matched@.len() == specs@.len(),
            gathered(all.take(i as int), found, action@) == Ok::<_, ErrorView>(texts(out@)),
        decreases specs.len() - i,
    {
        assert(all.take(i + 1).drop_last() =~= all.take(i as int));
        assert(found[i as int] == texts(matched@[i as int]@));
        assert(found[i as int].len() == matched@[i as int]@.len());
        if matched[i].is_empty() {
            proof {
                lemma_gathered_stays(all, found, action@, i + 1);
            }
            return Err(no_match_error(action, specs[i].as_str()));
        }
        let mut more = copy_list(matched[i].as_slice());
        let ghost before = out@;
        let ghost extra = more@;
        out.append(&mut more);
        assert(texts(out@) =~= texts(before) + texts(extra));
        i += 1;
    }
    assert(all.take(i as int) =~= all);
    Ok(out)
}

proof fn lemma_gathered_stays(specs: Seq<Seq<char>>, matched: Seq<Seq<Seq<char>>>, action: Seq<char>, n: int)
    requires
        0 <= n <= specs.len(),
        gathered(specs.take(n), matched, action) is Err,
    ensures
        gathered(specs, matched, action) == gathered(specs.take(n), matched, action),
    decreases specs.len(),
{
    if n == specs.len() {
        assert(specs.take(n) =~= specs);
    } else {
        assert(specs.drop_last().take(n) =~= specs.take(n));
        lemma_gathered_stays(specs.drop_last(), matched, action, n);
    }
}

/// Where a source goes: a single one to the destination itself, unless that is a
/// directory or is written like one; else into the destination under its own name.
pub open spec fn target_place(
    source: Seq<char>,
    destination: Seq<char>,
    raw: Seq<char>,
    count: nat,
    is_dir: bool,
) -> Result<Seq<char>, ErrorView> {
    if count == 1 && !is_dir && !"/"@.is_suffix_of(raw) {
        Ok(destination)
    } else {
        match file_name_of(source) {
            Some(name) => Ok(joined(destination, name)),
            None => Err(
                ErrorView::Message(
                    "cannot export "@ + source + " into a directory without a file name"@,
                ),
            ),
        }
    }
}

/// Where a source goes.
pub fn export_target_path(
    source: &str,
    destination: &str,
    raw_destination: &str,
    source_count: usize,
    destination_is_dir: bool,
) -> (r: Result<String, CiError>)
    ensures
        outcome(r) == target_place(
            source@,
            destination@,
            raw_destination@,
            source_count as nat,
            destination_is_dir,
        ),
{
    if source_count == 1 && !destination_is_dir && !ends_with(raw_destination, "/") {
        return Ok(destination.to_owned());
    }
    match file_name(source) {
        Some(name) => Ok(join_path(destination, name.as_str())),
        None => Err(
            message(cat3("cannot export ", source, " into a directory without a file name")),
        ),
    }
}

/// How a target is cleared: what is there stays unless it may be replaced.
pub open spec fn clearing(action: Seq<char>, target: Seq<char>, found: Option<EntryKind>, replace: bool) -> Result<
    Clearing,
    ErrorView,
> {
    match found {
        None => Ok(Clearing::Nothing),
        Some(kind) => if replace {
            match kind {
                EntryKind::Dir => Ok(Clearing::RemoveDir),
                EntryKind::Other => Ok(Clearing::RemoveFile),
            }
        } else {
            Err(
                ErrorView::Message(
                    action + " target already exists: "@ + target
                        + "; set `replace: true` or `overwrite: true`"@,
                ),
            )
        },
    }
}

/// A way of clearing, or why there is none.
pub open spec fn clearing_outcome(r: Result<Clearing, CiError>) -> Result<Clearing, ErrorView> {
    match r {
        Ok(c) => Ok(c),
        Err(e) => Err(e@),
    }
}

fn clear_target(action: &str, target: &str, found: Option<EntryKind>, replace: bool) -> (r: Result<Clearing, CiError>)
    ensures
        clearing_outcome(r) == clearing(action@, target@, found, replace),
{
    match found {
        None => Ok(Clearing::Nothing),
        Some(kind) => if replace {
            match kind {
                EntryKind::Dir => Ok(Clearing::RemoveDir),
                EntryKind::Other => Ok(Clearing::RemoveFile),
            }
        } else {
            Err(
                message(
                    cat4(
                        action,
                        " target already exists: ",
                        target,
                        "; set `replace: true` or `overwrite: true`",
                    ),
                ),
            )
        },
    }
}

/// How the target of an export is cleared.
pub fn copy_export_path(target: &str, found: Option<EntryKind>, replace: bool) -> (r: Result<Clearing, CiError>)
    ensures
        clearing_outcome(r) == clearing("export"@, target@, found, replace),
{
    clear_target("export", target, found, replace)
}

/// How the target of a link is cleared.
pub fn create_link_path(target: &str, found: Option<EntryKind>, replace: bool) -> (r: Result<Clearing, CiError>)
    ensures
        clearing_outcome(r) == clearing("link"@, target@, found, replace),
{
    clear_target("link", target, found, replace)
}

/// What a link holds: the way from its directory to the source, where there is one.
pub open spec fn link_text(source: Seq<char>, target: Seq<char>) -> Seq<char> {
    match parent_of(target) {
        Some(dir) => or_else(relative_between(dir, source), source),
        None => source,
    }
}

/// What a link holds.
pub fn link_source_for_target(source: &str, target: &str) -> (r: String)
    ensures
        r@ == link_text(source@, target@),
{
    match parent(target) {
        Some(dir) => match relative_path_between(dir.as_str(), source) {
            Some(way) => way,
            None => source.to_owned(),
        },
        None => source.to_owned(),
    }
}

/// The names that are left of components after `..` is taken back; `None` where that
/// would leave the directory that they are seen from.
pub open spec fn inside(parts: Seq<Seq<char>>) -> Option<Seq<Seq<char>>>
    decreases parts.len(),
{
    if parts.len() == 0 {
        Some(Seq::empty())
    } else {
        match inside(parts.drop_last()) {
            None => None,
            Some(head) => if parts.last() == "."@ {
                Some(head)
            } else if parts.last() == ".."@ {
                if head.len() == 0 {
                    None
                } else {
                    Some(head.drop_last())
                }
            } else {
                Some(head.push(parts.last()))
            },
        }
    }
}

/// The path that a cleanup target stands for: below the root, or refused.
pub open spec fn cleanup_place(root: Seq<char>, value: Seq<char>) -> Result<Seq<char>, ErrorView> {
    if absolute(value) {
        Err(ErrorView::Message("cleanup only supports repo-relative paths, got "@ + value))
    } else {
        match inside(parts_of(value)) {
            None => Err(ErrorView::Message("cleanup path escapes repository root: "@ + value)),
            Some(names) => if names.len() == 0 {
                Ok(root)
            } else {
                Ok(joined(root, join_of(names, "/"@)))
            },
        }
    }
}

/// The path that a cleanup target stands for.
pub fn resolve_cleanup_path(root: &str, value: &str) -> (r: Result<String, CiError>)
    ensures
        outcome(r) == cleanup_place(root@, value@),
{
    if is_absolute(value) {
        return Err(message(cat2("cleanup only supports repo-relative paths, got ", value)));
    }
    let parts = components(value);
    let ghost all = parts_of(value@);
    let mut names: Vec<String> = Vec::new();
    let mut i: usize = 0;
    assert(texts(names@) =~= Seq::<Seq<char>>::empty());
    while i < parts.len()
        invariant
            i <= parts@.len(),
            texts(parts@) == all,
            all == parts_of(value@),
            !absolute(value@),
            inside(all.take(i as int)) == Some(texts(names@)),
        decreases parts.len() - i,
    {
        assert(all.take(i + 1).drop_last() =~= all.take(i as int));
        assert(all[i as int] == parts@[i as int]@);
        let part = parts[i].as_str();
        let ghost head = texts(names@);
        if same(part, ".") {
        } else if same(part, "..") {
            if names.is_empty() {
                proof {
                    lemma_inside_stays(all, i + 1);
                }
                return Err(message(cat2("cleanup path escapes repository root: ", value)));
            }
            names.pop();
            assert(texts(names@) =~= head.drop_last());
        } else {
            names.push(parts[i].clone());
        }
        i += 1;
    }
    assert(all.take(i as int) =~= all);
    assert(texts(names@).len() == names@.len());
    if names.is_empty() {
        Ok(root.to_owned())
    } else {
        let below = join(names.as_slice(), "/");
        Ok(join_path(root, below.as_str()))
    }
}

proof fn lemma_inside_stays(parts: Seq<Seq<char>>, n: int)
    requires
        0 <= n <= parts.len(),
        inside(parts.take(n)) is None,
    ensures
        inside(parts) is None,
    decreases parts.len(),
{
    if n == parts.len() {
        assert(parts.take(n) =~= parts);
    } else {
        assert(parts.drop_last().take(n) =~= parts.take(n));
        lemma_inside_stays(parts.drop_last(), n);
    }
}

/// How a cleanup target is removed; a missing one counts as removed where that is allowed.
pub open spec fn removal(path: Seq<char>, found: Option<EntryKind>, missing_ok: bool) -> Result<Clearing, ErrorView> {
    match found {
        Some(EntryKind::Dir) => Ok(Clearing::RemoveDir),
        Some(EntryKind::Other) => Ok(Clearing::RemoveFile),
        None => if missing_ok {
            Ok(Clearing::Nothing)
        } else {
            Err(ErrorView::Message("cleanup target does not exist: "@ + path))
        },
    }
}

/// How a cleanup target is removed.
pub fn remove_cleanup_target(path: &str, found: Option<EntryKind>, missing_ok: bool) -> (r: Result<Clearing, CiError>)
    ensures
        clearing_outcome(r) == removal(path@, found, missing_ok),
{
    match found {
        Some(EntryKind::Dir) => Ok(Clearing::RemoveDir),
        Some(EntryKind::Other) => Ok(Clearing::RemoveFile),
        None => if missing_ok {
            Ok(Clearing::Nothing)
        } else {
            Err(message(cat2("cleanup target does not exist: ", path)))
        },
    }
}

/// One thing that a cleanup does.
#[derive(Debug)]
pub enum CleanAction {
    /// Drop references that are gone from the remotes.
    FetchPrune,
    /// Remove untracked files.
    CleanUntracked(CleanIgnoredMode),
    /// Run a script with a shell in a directory; a failure ends the cleanup with its
    /// status.
    Shell { shell: String, script: String, workdir: String },
    /// Remove a path; the flag says whether it may be missing.
    Remove(String, bool),
}

#[verifier::ext_equal]
pub enum CleanView {
    FetchPrune,
    CleanUntracked(CleanIgnoredMode),
    Shell { shell: Seq<char>, script: Seq<char>, workdir: Seq<char> },
    Remove(Seq<char>, bool),
}

impl View for CleanAction {
    type V = CleanView;

    open spec fn view(&self) -> CleanView {
        match self {
            CleanAction::FetchPrune => CleanView::FetchPrune,
            CleanAction::CleanUntracked(m) => CleanView::CleanUntracked(*m),
            CleanAction::Shell { shell, script, workdir } => CleanView::Shell {
                shell: shell@,
                script: script@,
                workdir: workdir@,
            },
            CleanAction::Remove(p, ok) => CleanView::Remove(p@, *ok),
        }
    }
}

/// What a cleanup does, one thing after the other, and the error that it ends with once
/// they are done.
#[derive(Debug)]
pub struct CleanPlan {
    pub actions: Vec<CleanAction>,
    pub failure: Option<CiError>,
}

#[verifier::ext_equal]
pub struct CleanPlanView {
    pub actions: Seq<CleanView>,
    pub failure: Option<ErrorView>,
}

/// Actions by their texts.
pub open spec fn clean_views(v: Seq<CleanAction>) -> Seq<CleanView> {
    v.map_values(|a: CleanAction| a@)
}

impl View for CleanPlan {
    type V = CleanPlanView;

    open spec fn view(&self) -> CleanPlanView {
        CleanPlanView { actions: clean_views(self.actions@), failure: opt_error(self.failure) }
    }
}

proof fn lemma_clean_views_push(v: Seq<CleanAction>, a: CleanAction)
    ensures
        clean_views(v.push(a)) == clean_views(v).push(a@),
{
    assert(clean_views(v.push(a)) =~= clean_views(v).push(a@));
}

/// A plan with one more thing at its end, unless it ends with an error.
pub open spec fn then_do(plan: CleanPlanView, action: CleanView) -> CleanPlanView {
    if plan.failure is Some {
        plan
    } else {
        CleanPlanView { actions: plan.actions.push(action), failure: None }
    }
}

/// A plan that ends with an error, unless it does already.
pub open spec fn then_fail(plan: CleanPlanView, e: ErrorView) -> CleanPlanView {
    if plan.failure is Some {
        plan
    } else {
        CleanPlanView { actions: plan.actions, failure: Some(e) }
    }
}

/// A plan with the removal of targets at its end, up to the first that is refused.
pub open spec fn then_remove(plan: CleanPlanView, root: Seq<char>, targets: Seq<Seq<char>>, missing_ok: bool) -> CleanPlanView
    decreases targets.len(),
{
    if targets.len() == 0 {
        plan
    } else {
        let head = then_remove(plan, root, targets.drop_last(), missing_ok);
        match cleanup_place(root, targets.last()) {
            Ok(path) => then_do(head, CleanView::Remove(path, missing_ok)),
            Err(e) => then_fail(head, e),
        }
    }
}

/// A plan with the removal of the listed paths at its end.
pub open spec fn then_remove_paths(
    plan: CleanPlanView,
    root: Seq<char>,
    path: Option<Seq<char>>,
    paths: Option<Seq<char>>,
    missing_ok: Option<Seq<char>>,
) -> CleanPlanView {
    let targets = path_list(or_else(over(paths, path), Seq::empty()));
    let may_miss = match missing_ok {
        Some(v) => says_yes(v),
        None => true,
    };
    if targets.len() == 0 {
        then_fail(plan, ErrorView::Message("cleanup requires `with.path` or `with.paths`"@))
    } else {
        then_remove(plan, root, targets, may_miss)
    }
}

impl CleanPlan {
    fn empty() -> (r: Self)
        ensures
            r@ == (CleanPlanView { actions: Seq::empty(), failure: None }),
    {
        let r = CleanPlan { actions: Vec::new(), failure: None };
        assert(clean_views(r.actions@) =~= Seq::<CleanView>::empty());
        r
    }

    fn and_do(&mut self, action: CleanAction)
        ensures
            final(self)@ == then_do(old(self)@, action@),
    {
        if self.failure.is_none() {
            proof {
                lemma_clean_views_push(self.actions@, action);
            }
            self.actions.push(action);
        }
    }

    fn and_fail(&mut self, e: CiError)
        ensures
            final(self)@ == then_fail(old(self)@, e@),
    {
        if self.failure.is_none() {
            self.failure = Some(e);
        }
    }

    /// Appends the removal of the listed paths.
    fn and_remove_paths(&mut self, root: &str, path: Option<&str>, paths: Option<&str>, missing_ok: Option<&str>)
        ensures
            final(self)@ == then_remove_paths(
                old(self)@,
                root@,
                opt_slice(path),
                opt_slice(paths),
                opt_slice(missing_ok),
            ),
    {
        let ghost before = self@;
        let listed = match path {
            Some(p) => parse_path_list(p),
            None => match paths {
                Some(p) => parse_path_list(p),
                None => {
                    proof {
                        reveal_strlit("");
                        assert(""@ =~= Seq::<char>::empty());
                    }
                    parse_path_list("")
                },
            },
        };
        let ghost targets = texts(listed@);
        assert(targets.len() == listed@.len());
        let may_miss = match missing_ok {
            Some(v) => parse_bool(v),
            None => true,
        };
        if listed.is_empty() {
            self.and_fail(message("cleanup requires `with.path` or `with.paths`".to_owned()));
            return;
        }
        let mut i: usize = 0;
        while i < listed.len()
            invariant
                i <= listed@.len(),
                targets == texts(listed@),
                self@ == then_remove(before, root@, targets.take(i as int), may_miss),
            decreases listed.len() - i,
        {
            assert(targets.take(i + 1).drop_last() =~= targets.take(i as int));
            match resolve_cleanup_path(root, listed[i].as_str()) {
                Ok(p) => self.and_do(CleanAction::Remove(p, may_miss)),
                Err(e) => self.and_fail(e),
            }
            i += 1;
        }
        assert(targets.take(i as int) =~= targets);
    }
}

/// The setting about ignored files.
pub open spec fn ignored_setting(values: Map<Seq<char>, Seq<char>>) -> Option<Seq<char>> {
    first_input(values, seq!["ignored"@, "include-ignored"@, "include_ignored"@])
}

/// The setting about missing targets.
pub open spec fn missing_setting(values: Map<Seq<char>, Seq<char>>) -> Option<Seq<char>> {
    first_input(values, seq!["missing-ok"@, "missing_ok"@])
}

/// A plan with the removal of untracked files at its end.
pub open spec fn then_clean_untracked(plan: CleanPlanView, step: Seq<char>, ignored: Option<Seq<char>>) -> CleanPlanView {
    match ignored_mode(step, ignored) {
        Ok(mode) => then_do(plan, CleanView::CleanUntracked(mode)),
        Err(e) => then_fail(plan, e),
    }
}

/// What `cleanup` does: it removes the listed paths, or, where none are listed, the
/// untracked files.
pub open spec fn cleanup_plan(values: Map<Seq<char>, Seq<char>>, root: Seq<char>) -> CleanPlanView {
    let nothing = CleanPlanView { actions: Seq::empty(), failure: None };
    let path = entry(values, "path"@);
    let paths = entry(values, "paths"@);
    if path is None && paths is None {
        then_clean_untracked(nothing, "cleanup"@, ignored_setting(values))
    } else {
        then_remove_paths(nothing, root, path, paths, missing_setting(values))
    }
}

/// What `clean` does: drop what is gone from the remotes if asked to, remove untracked
/// files, clean the cargo outputs if asked to, remove the listed paths, and run the
/// script that stands beside it. Scripts run with the given shell in the given directory.
pub open spec fn clean_plan(
    values: Map<Seq<char>, Seq<char>>,
    root: Seq<char>,
    quiet: bool,
    script: Option<Seq<char>>,
    shell: Seq<char>,
    workdir: Seq<char>,
) -> CleanPlanView {
    let nothing = CleanPlanView { actions: Seq::empty(), failure: None };
    let purged = if switch(values, seq!["purge"@], false) {
        then_do(nothing, CleanView::FetchPrune)
    } else {
        nothing
    };
    let cleaned = then_clean_untracked(purged, "clean"@, ignored_setting(values));
    let cargo = if switch(values, seq!["cargo"@], false) {
        then_do(
            cleaned,
            CleanView::Shell {
                shell,
                script: if quiet {
                    "cargo clean --quiet"@
                } else {
                    "cargo clean"@
                },
                workdir,
            },
        )
    } else {
        cleaned
    };
    let path = entry(values, "path"@);
    let paths = entry(values, "paths"@);
    let removed = if path is Some || paths is Some {
        then_remove_paths(cargo, root, path, paths, missing_setting(values))
    } else {
        cargo
    };
    match script {
        Some(script) => then_do(removed, CleanView::Shell { shell, script, workdir }),
        None => removed,
    }
}

/// The value under a name.
fn value_at_name<'a>(values: &'a StringMap, name: &str) -> (r: Option<&'a str>)
    ensures
        opt_slice(r) == entry(values@, name@),
{
    match values.get(name) {
        Some(v) => Some(v.as_str()),
        None => None,
    }
}

fn find_ignored<'a>(values: &'a StringMap) -> (r: Option<&'a str>)
    ensures
        opt_slice(r) == ignored_setting(values@),
{
    let keys = ["ignored", "include-ignored", "include_ignored"];
    assert(slices(keys@) =~= seq!["ignored"@, "include-ignored"@, "include_ignored"@]);
    input_value(values, &keys)
}

fn find_missing_ok<'a>(values: &'a StringMap) -> (r: Option<&'a str>)
    ensures
        opt_slice(r) == missing_setting(values@),
{
    let keys = ["missing-ok", "missing_ok"];
    assert(slices(keys@) =~= seq!["missing-ok"@, "missing_ok"@]);
    input_value(values, &keys)
}

fn switch_named(values: &StringMap, name: &str) -> (r: bool)
    ensures
        r == switch(values@, seq![name@], false),
{
    let keys = [name];
    assert(slices(keys@) =~= seq![name@]);
    input_bool(values, &keys, false)
}

/// What `cleanup` does.
pub fn run_cleanup_step(values: &StringMap, root: &str) -> (r: CleanPlan)
    ensures
        r@ == cleanup_plan(values@, root@),
{
    let mut plan = CleanPlan::empty();
    let path = value_at_name(values, "path");
    let paths = value_at_name(values, "paths");
    if path.is_none() && paths.is_none() {
        match parse_cleanup_ignored_mode("cleanup", find_ignored(values)) {
            Ok(mode) => plan.and_do(CleanAction::CleanUntracked(mode)),
            Err(e) => plan.and_fail(e),
        }
    } else {
        plan.and_remove_paths(root, path, paths, find_missing_ok(values));
    }
    plan
}

/// What `clean` does.
pub fn run_clean_step(
    values: &StringMap,
    root: &str,
    quiet: bool,
    script: Option<&str>,
    shell: &str,
    workdir: &str,
) -> (r: CleanPlan)
    ensures
        r@ == clean_plan(values@, root@, quiet, opt_slice(script), shell@, workdir@),
{
    let mut plan = CleanPlan::empty();
    if switch_named(values, "purge") {
        plan.and_do(CleanAction::FetchPrune);
    }
    match parse_cleanup_ignored_mode("clean", find_ignored(values)) {
        Ok(mode) => plan.and_do(CleanAction::CleanUntracked(mode)),
        Err(e) => plan.and_fail(e),
    }
    if switch_named(values, "cargo") {
        let command = if quiet {
            "cargo clean --quiet"
        } else {
            "cargo clean"
        };
        plan.and_do(
            CleanAction::Shell {
                shell: shell.to_owned(),
                script: command.to_owned(),
                workdir: workdir.to_owned(),
            },
        );
    }
    let path = value_at_name(values, "path");
    let paths = value_at_name(values, "paths");
    if path.is_some() || paths.is_some() {
        plan.and_remove_paths(root, path, paths, find_missing_ok(values));
    }
    if let Some(s) = script {
        plan.and_do(
            CleanAction::Shell {
                shell: shell.to_owned(),
                script: s.to_owned(),
                workdir: workdir.to_owned(),
            },
        );
    }
    plan
}

/// What is left inside is made of plain names.
proof fn lemma_inside_names(path: Seq<char>, n: int)
    requires
        !absolute(path),
        0 <= n <= parts_of(path).len(),
        inside(parts_of(path).take(n)) is Some,
    ensures
        forall|i: int|
            0 <= i < inside(parts_of(path).take(n))->0.len() ==> plain_name_part(
                #[trigger] inside(parts_of(path).take(n))->0[i],
            ),
    decreases n,
{
    if n > 0 {
        let all = parts_of(path);
        let parts = all.take(n);
        assert(parts.drop_last() =~= all.take(n - 1));
        lemma_inside_names(path, n - 1);
        let head = inside(parts.drop_last())->0;
        assert(parts.last() == all[n - 1]);
        let lead = lead_of(path).len() as int;
        if all[n - 1] != "."@ && all[n - 1] != ".."@ {
            if n - 1 >= lead {
                lemma_body_part_is_plain(path, n - 1 - lead);
                assert(all[n - 1] == body_of(path)[n - 1 - lead]);
            } else {
                assert(all[n - 1] == lead_of(path)[n - 1]);
            }
        }
    } else {
        assert(parts_of(path).take(0) =~= Seq::<Seq<char>>::empty());
    }
}

/// A component that names a file below its directory.
pub open spec fn plain_name_part(part: Seq<char>) -> bool {
    part.len() > 0 && !part.contains('/') && part != "."@ && part != ".."@
}

/// A cleanup target that is not refused is the root or below it: its components are
/// those of the root and plain names behind them.
pub proof fn law_cleanup_stays_below_root(root: Seq<char>, value: Seq<char>)
    requires
        root.len() > 0,
        cleanup_place(root, value) is Ok,
    ensures
        ({
            let place = parts_of(cleanup_place(root, value)->Ok_0);
            &&& parts_of(root).is_prefix_of(place)
            &&& forall|i: int| parts_of(root).len() <= i < place.len() ==> plain_name_part(#[trigger] place[i])
        }),
{
    let all = parts_of(value);
    assert(all.take(all.len() as int) =~= all);
    lemma_inside_names(value, all.len() as int);
    let names = inside(all)->0;
    let r = parts_of(root);
    assert forall|i: int| 0 <= i < names.len() implies plain_name_part(#[trigger] names[i]) by {
        assert(names[i] == inside(all.take(all.len() as int))->0[i]);
    }
    if names.len() == 0 {
        assert(r =~= r.subrange(0, r.len() as int));
    } else {
        lemma_place_of_names(root, names);
        let place = r + names;
        assert(r =~= place.subrange(0, r.len() as int));
        assert forall|i: int| r.len() <= i < place.len() implies plain_name_part(#[trigger] place[i]) by {
            assert(place[i] == names[i - r.len()]);
        }
    }
}

/// Plain names behind a path are its last components.
#[verifier::spinoff_prover]
#[verifier::rlimit(30)]
proof fn lemma_place_of_names(root: Seq<char>, names: Seq<Seq<char>>)
    requires
        root.len() > 0,
        names.len() > 0,
        forall|i: int| 0 <= i < names.len() ==> plain_name_part(#[trigger] names[i]),
    ensures
        parts_of(joined(root, join_of(names, "/"@))) == parts_of(root) + names,
{
    let text = join_of(names, "/"@);
    assert forall|i: int| 0 <= i < names.len() implies !(#[trigger] names[i]).contains('/') by {
        assert(plain_name_part(names[i]));
    }
    lemma_join_split(names);
    assert(plain_name_part(names[0]));
    lemma_relative_text(names);
    assert(lead_of(text).len() == 0);
    law_join_appends_components(root, text);
    assert forall|i: int| 0 <= i < names.len() implies naming(#[trigger] names[i]) by {
        assert(plain_name_part(names[i]));
    }
    lemma_all_naming(names);
    assert(parts_of(text) =~= names);
}

proof fn lemma_relative_text(names: Seq<Seq<char>>)
    requires
        names.len() > 0,
        forall|i: int| 0 <= i < names.len() ==> plain_name_part(#[trigger] names[i]),
    ensures
        !absolute(join_of(names, "/"@)),
        join_of(names, "/"@).len() > 0,
    decreases names.len(),
{
    if names.len() == 1 {
        assert(plain_name_part(names[0]));
        if names[0][0] == '/' {
            assert(names[0].contains('/'));
        }
    } else {
        let head = names.drop_last();
        assert forall|i: int| 0 <= i < head.len() implies plain_name_part(#[trigger] head[i]) by {
            assert(head[i] == names[i]);
        }
        lemma_relative_text(head);
        let t = join_of(names, "/"@);
        assert(t[0] == join_of(head, "/"@)[0]);
    }
}

/// Nothing that is there is replaced without being asked for.
pub proof fn law_nothing_is_replaced_unasked(action: Seq<char>, target: Seq<char>, found: EntryKind)
    ensures
        clearing(action, target, Some(found), false) is Err,
        clearing(action, target, None, false) == Ok::<Clearing, ErrorView>(Clearing::Nothing),
{
}

/// A copy or a link has sources and a destination, each under one of several names: what is
/// told is done, what is missing is refused, and something is replaced only where that is
/// said.
pub proof fn law_what_a_transfer_moves(values: Map<Seq<char>, Seq<char>>, action: Seq<char>, i: int, j: int)
    requires
        0 <= i < source_names().len(),
        0 <= j < destination_names().len(),
        values.contains_key(source_names()[i]),
        values.contains_key(destination_names()[j]),
        forall|k: int| 0 <= k < i ==> !values.contains_key(#[trigger] source_names()[k]),
        forall|k: int| 0 <= k < j ==> !values.contains_key(#[trigger] destination_names()[k]),
    ensures
        ({
            let listed = path_list(values[source_names()[i]]);
            match transfer_plan(values, action) {
                Ok(plan) => {
                    &&& listed.len() > 0
                    &&& plan.sources == listed
                    &&& plan.destination == values[destination_names()[j]]
                    &&& values.contains_key("replace"@) ==> plan.replace == says_yes(values["replace"@])
                    &&& !values.contains_key("replace"@) && values.contains_key("overwrite"@) ==> plan.replace == says_yes(
                        values["overwrite"@],
                    )
                    &&& !values.contains_key("replace"@) && !values.contains_key("overwrite"@) ==> !plan.replace
                },
                Err(_) => listed.len() == 0,
            }
        }),
{
    law_the_first_name_counts(values, source_names(), i);
    law_the_first_name_counts(values, destination_names(), j);
    let names = seq!["replace"@, "overwrite"@];
    if values.contains_key("replace"@) {
        law_the_first_name_counts(values, names, 0);
    } else if values.contains_key("overwrite"@) {
        law_the_first_name_counts(values, names, 1);
    } else {
        law_the_first_name_counts(values, names, 2);
    }
}

/// The names under which sources and destinations may stand; a transfer without one is
/// refused.
pub proof fn law_names_of_sources_and_destinations(values: Map<Seq<char>, Seq<char>>, action: Seq<char>)
    ensures
        source_names().to_set() == set!["source"@, "sources"@, "src"@, "srcs"@, "from"@, "froms"@, "path"@, "paths"@],
        destination_names().to_set() == set!["destination"@, "destenation"@, "dest"@, "dst"@, "to"@, "target"@],
        (forall|i: int| 0 <= i < source_names().len() ==> !values.contains_key(#[trigger] source_names()[i])) ==> transfer_plan(
            values,
            action,
        ) is Err,
        (forall|i: int| 0 <= i < destination_names().len() ==> !values.contains_key(#[trigger] destination_names()[i]))
            ==> transfer_plan(values, action) is Err,
{
    let s = source_names();
    let d = destination_names();
    assert(s[0] == "source"@);
    assert(s[1] == "sources"@);
    assert(s[2] == "src"@);
    assert(s[3] == "srcs"@);
    assert(s[4] == "from"@);
    assert(s[5] == "froms"@);
    assert(s[6] == "path"@);
    assert(s[7] == "paths"@);
    assert(d[0] == "destination"@);
    assert(d[1] == "destenation"@);
    assert(d[2] == "dest"@);
    assert(d[3] == "dst"@);
    assert(d[4] == "to"@);
    assert(d[5] == "target"@);
    assert(s.to_set() =~= set!["source"@, "sources"@, "src"@, "srcs"@, "from"@, "froms"@, "path"@, "paths"@]);
    assert(d.to_set() =~= set!["destination"@, "destenation"@, "dest"@, "dst"@, "to"@, "target"@]);
    if forall|i: int| 0 <= i < s.len() ==> !values.contains_key(#[trigger] s[i]) {
        law_the_first_name_counts(values, s, s.len() as int);
    }
    if forall|i: int| 0 <= i < d.len() ==> !values.contains_key(#[trigger] d[i]) {
        law_the_first_name_counts(values, d, d.len() as int);
    }
}

/// A place that begins with `~` is seen from the home directory, where there is one; an
/// absolute one stands for itself, and every other is seen from the root.
pub proof fn law_where_a_place_is(root: Seq<char>, rest: Seq<char>, home: Seq<char>)
    ensures
        export_place(root, "~"@, Some(home)) == home,
        export_place(root, "~/"@ + rest, Some(home)) == joined(home, rest),
        rest.len() > 0 && rest[0] != '~' ==> export_place(root, rest, Some(home)) == joined(root, rest),
        absolute(rest) ==> export_place(root, rest, Some(home)) == rest && export_place(root, rest, None) == rest,
        export_place(root, rest, None) == joined(root, rest),
{
    reveal_strlit("~");
    reveal_strlit("~/");
    let p = "~/"@ + rest;
    assert(p.skip(2) =~= rest);
    assert("~/"@ =~= p.subrange(0, 2));
    assert(p[1] == '/');
    assert(p != "~"@) by {
        assert(p.len() >= 2);
    }
    if rest.len() > 0 && rest[0] != '~' {
        assert(!"~/"@.is_prefix_of(rest)) by {
            if "~/"@.is_prefix_of(rest) {
                assert("~/"@[0] == rest.subrange(0, 2)[0]);
            }
        }
        assert(rest != "~"@);
    }
}

/// A single source goes to the very place that is named, unless that is a directory or is
/// written as one; several go into it, each under its own name.
pub proof fn law_where_a_source_goes(source: Seq<char>, destination: Seq<char>, raw: Seq<char>, count: nat, is_dir: bool, name: Seq<char>)
    requires
        file_name_of(source) == Some(name),
    ensures
        count == 1 && !is_dir && (raw.len() == 0 || raw.last() != '/') ==> target_place(source, destination, raw, count, is_dir)
            == Ok::<_, ErrorView>(destination),
        count != 1 || is_dir || (raw.len() > 0 && raw.last() == '/') ==> target_place(source, destination, raw, count, is_dir)
            == Ok::<_, ErrorView>(joined(destination, name)),
{
    reveal_strlit("/");
    if "/"@.is_suffix_of(raw) {
        assert(raw.last() == raw.subrange(raw.len() - 1, raw.len() as int)[0]);
    }
    if raw.len() > 0 && raw.last() == '/' {
        assert("/"@ =~= raw.subrange(raw.len() - 1, raw.len() as int));
    }
}

/// What stands in the way is removed as what it is, where that is allowed; what is not there
/// is not removed, and that it is missing matters only where it has to be there.
pub proof fn law_removing_what_is_there(action: Seq<char>, path: Seq<char>, missing_ok: bool)
    ensures
        clearing(action, path, Some(EntryKind::Dir), true) == Ok::<_, ErrorView>(Clearing::RemoveDir),
        clearing(action, path, Some(EntryKind::Other), true) == Ok::<_, ErrorView>(Clearing::RemoveFile),
        clearing(action, path, None, true) == Ok::<_, ErrorView>(Clearing::Nothing),
        removal(path, Some(EntryKind::Dir), missing_ok) == Ok::<_, ErrorView>(Clearing::RemoveDir),
        removal(path, Some(EntryKind::Other), missing_ok) == Ok::<_, ErrorView>(Clearing::RemoveFile),
        removal(path, None, true) == Ok::<_, ErrorView>(Clearing::Nothing),
        removal(path, None, false) is Err,
{
}

/// A link holds the way from where it is to its source, where both are absolute: followed
/// from there it leads to the source.
pub proof fn law_links_lead_to_their_source(source: Seq<char>, target: Seq<char>, dir: Seq<char>)
    requires
        parent_of(target) == Some(dir),
        absolute(source) && absolute(dir),
        !lexical(parts_of(dir)).contains(".."@),
    ensures
        lexical(parts_of(joined(dir, link_text(source, target)))) == lexical(parts_of(source)),
{
    law_relative_path_leads_there(dir, source);
    let f = lexical(parts_of(dir));
    let n = common_len(f, lexical(parts_of(source)));
    if f.skip(n).contains(".."@) {
        let i = choose|i: int| 0 <= i < f.skip(n).len() && f.skip(n)[i] == ".."@;
        lemma_common_len(f, lexical(parts_of(source)));
        assert(f[i + n] == ".."@);
    }
}

/// Every path that a pattern matched is taken, in the order of the patterns, and a pattern
/// that matches nothing is refused.
pub proof fn law_every_match_is_taken(specs: Seq<Seq<char>>, matched: Seq<Seq<Seq<char>>>, action: Seq<char>)
    requires
        matched.len() == specs.len(),
    ensures
        gathered(specs, matched, action) is Err <==> exists|i: int| 0 <= i < specs.len() && (#[trigger] matched[i]).len() == 0,
        gathered(specs, matched, action) matches Ok(all) ==> forall|i: int, j: int|
            0 <= i < specs.len() && 0 <= j < matched[i].len() ==> all.contains(#[trigger] matched[i][j]),
{
    lemma_gathered_all(specs, matched, action);
}

proof fn lemma_gathered_all(specs: Seq<Seq<char>>, matched: Seq<Seq<Seq<char>>>, action: Seq<char>)
    requires
        matched.len() >= specs.len(),
    ensures
        gathered(specs, matched, action) is Err <==> exists|i: int| 0 <= i < specs.len() && (#[trigger] matched[i]).len() == 0,
        gathered(specs, matched, action) matches Ok(all) ==> forall|i: int, j: int|
            0 <= i < specs.len() && 0 <= j < matched[i].len() ==> all.contains(#[trigger] matched[i][j]),
    decreases specs.len(),
{
    if specs.len() > 0 {
        let t = specs.drop_last();
        lemma_gathered_all(t, matched, action);
        let n = specs.len() - 1;
        if gathered(specs, matched, action) is Ok {
            let head = gathered(t, matched, action)->Ok_0;
            let all = gathered(specs, matched, action)->Ok_0;
            assert forall|i: int, j: int| 0 <= i < specs.len() && 0 <= j < matched[i].len() implies all.contains(
                #[trigger] matched[i][j],
            ) by {
                if i < n {
                    let k = choose|k: int| 0 <= k < head.len() && head[k] == matched[i][j];
                    assert(all[k] == matched[i][j]);
                } else {
                    assert(all[head.len() + j] == matched[i][j]);
                }
            }
        } else if gathered(t, matched, action) is Ok {
            assert(matched[n].len() == 0);
        }
    }
}

/// A cleanup does what it is asked for, in turn: drop what is gone from the remotes first,
/// where that is asked for; remove untracked files in every case; clean the outputs of cargo
/// where that is asked for; and run the script that stands beside it last.
pub proof fn law_a_cleanup_in_its_order(
    values: Map<Seq<char>, Seq<char>>,
    root: Seq<char>,
    quiet: bool,
    script: Option<Seq<char>>,
    shell: Seq<char>,
    workdir: Seq<char>,
)
    requires
        !values.contains_key("path"@),
        !values.contains_key("paths"@),
        ignored_mode("clean"@, ignored_setting(values)) is Ok,
    ensures
        ({
            let plan = clean_plan(values, root, quiet, script, shell, workdir);
            let purge = switch(values, seq!["purge"@], false);
            let cargo = switch(values, seq!["cargo"@], false);
            let at = if purge {
                1int
            } else {
                0
            };
            &&& plan.failure is None
            &&& plan.actions.len() == at + 1 + (if cargo {
                1int
            } else {
                0
            }) + (if script is Some {
                1int
            } else {
                0
            })
            &&& purge ==> plan.actions[0] is FetchPrune
            &&& plan.actions[at] == CleanView::CleanUntracked(ignored_mode("clean"@, ignored_setting(values))->Ok_0)
            &&& cargo ==> plan.actions[at + 1] == (CleanView::Shell {
                shell,
                script: if quiet {
                    "cargo clean --quiet"@
                } else {
                    "cargo clean"@
                },
                workdir,
            })
            &&& script matches Some(s) ==> plan.actions.last() == (CleanView::Shell { shell, script: s, workdir })
        }),
{
}

/// Listed paths are removed, each below the root, in their order; a path that leaves the root
/// ends the cleanup there, and nothing behind it is done.
pub proof fn law_listed_paths_are_removed(
    plan: CleanPlanView,
    root: Seq<char>,
    targets: Seq<Seq<char>>,
    missing_ok: bool,
    i: int,
)
    requires
        plan.failure is None,
        0 <= i < targets.len(),
        forall|j: int| 0 <= j < targets.len() ==> cleanup_place(root, #[trigger] targets[j]) is Ok,
    ensures
        then_remove(plan, root, targets, missing_ok).failure is None,
        then_remove(plan, root, targets, missing_ok).actions.len() == plan.actions.len() + targets.len(),
        then_remove(plan, root, targets, missing_ok).actions[plan.actions.len() + i] == CleanView::Remove(
            cleanup_place(root, targets[i])->Ok_0,
            missing_ok,
        ),
        then_remove(plan, root, targets, missing_ok).actions.take(plan.actions.len() as int) == plan.actions,
    decreases targets.len(),
{
    let t = targets.drop_last();
    let head = then_remove(plan, root, t, missing_ok);
    assert(cleanup_place(root, targets[targets.len() - 1]) is Ok);
    if t.len() > 0 {
        assert forall|j: int| 0 <= j < t.len() implies cleanup_place(root, #[trigger] t[j]) is Ok by {
            assert(t[j] == targets[j]);
        }
        law_listed_paths_are_removed(plan, root, t, missing_ok, if i < t.len() { i } else { 0 });
    }
    let all = then_remove(plan, root, targets, missing_ok);
    assert(all.actions.take(plan.actions.len() as int) =~= plan.actions) by {
        assert(head.actions.take(plan.actions.len() as int) =~= plan.actions);
    }
}

/// A cleanup that lists paths removes those and leaves untracked files alone; missing ones
/// are fine unless it says otherwise.
pub proof fn law_a_cleanup_of_paths(values: Map<Seq<char>, Seq<char>>, root: Seq<char>)
    ensures
        ({
            let nothing = CleanPlanView { actions: Seq::empty(), failure: None };
            let plan = cleanup_plan(values, root);
            let strict = values.contains_key("missing-ok"@) && !says_yes(values["missing-ok"@]);
            let lax = !values.contains_key("missing-ok"@) && !values.contains_key("missing_ok"@);
            let paths = path_list(values["path"@]);
            &&& values.contains_key("path"@) && paths.len() > 0 && strict ==> plan == then_remove(nothing, root, paths, false)
            &&& values.contains_key("path"@) && paths.len() > 0 && lax ==> plan == then_remove(nothing, root, paths, true)
            &&& values.contains_key("path"@) && paths.len() == 0 ==> plan.failure is Some && plan.actions.len() == 0
            &&& !values.contains_key("path"@) && !values.contains_key("paths"@) && ignored_mode(
                "cleanup"@,
                ignored_setting(values),
            ) is Ok ==> plan.actions.len() == 1 && plan.actions[0] is CleanUntracked
        }),
{
    let names = seq!["missing-ok"@, "missing_ok"@];
    if values.contains_key("missing-ok"@) {
        law_the_first_name_counts(values, names, 0);
    } else if !values.contains_key("missing_ok"@) {
        law_the_first_name_counts(values, names, 2);
    }
}

} // verus!
