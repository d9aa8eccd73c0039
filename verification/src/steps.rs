//! The steps of native workflows: which of them run, with what, and how a workflow ends.

use crate::builtins::{GitPlan, GitPlanView, commit_plan, run_commit_step, run_sync_step, sync_plan};
use crate::conditions::{
    ExpressionContext, ExpressionView, entry, interpolate_expressions, interpolate_map,
    interpolated, interpolated_map,
};
use crate::config::or_else;
use crate::environ::resolve_workdir;
use crate::error::{CiError, ErrorView, outcome};
use crate::files::{
    CleanPlan, CleanPlanView, TransferPlan, TransferView, clean_plan, cleanup_plan, run_clean_step,
    run_cleanup_step, run_export_step, run_link_step, transfer_plan,
};
use crate::inputs::{law_yes_is_not_no, parse_bool, parse_path_list, path_list, says_no, says_yes};
use crate::maps::StringMap;
use crate::paths::joined;
use crate::strings::{head_before, one_of, opt_str, same};
use crate::text::{
    before_first, first_index, lemma_take_push, lemma_texts_push, lemma_trimmed_whole, lower,
    opt_slice, slices, texts,
};
use vstd::prelude::*;
use vstd::string::*;

verus! {

broadcast use {lemma_texts_push, lemma_take_push};

/// A text in lower case, by the rules of Unicode.
pub uninterp spec fn unicode_lower(s: Seq<char>) -> Seq<char>;

/// The characters of the ASCII range.
pub open spec fn all_ascii(s: Seq<char>) -> bool {
    forall|i: int| 0 <= i < s.len() ==> (#[trigger] s[i] as u32) < 128
}

/// A text in lower case as `str::to_lowercase` gives it. The contract names the result
/// and says that of an ASCII text it is the ASCII lower case.
#[verifier::external_body]
fn to_lowercase(s: &str) -> (r: String)
    ensures
        r@ == unicode_lower(s@),
        all_ascii(s@) ==> r@ == lower(s@),
{
    s.to_lowercase()
}

/// The actions that the tool brings along.
#[derive(Clone, Copy, Debug, PartialEq, Eq, Structural)]
pub enum BuiltinKind {
    Checkout,
    Submodules,
    Cache,
    UploadArtifact,
    DownloadArtifact,
    Export,
    Link,
    Commit,
    Sync,
    Clean,
    Cleanup,
}

/// The names of the action that copies files.
pub open spec fn export_action_names() -> Seq<Seq<char>> {
    seq![
        "export"@, "ci/export"@, "artifact"@, "ci/artifact"@, "artifacts"@, "ci/artifacts"@,
        "release"@, "ci/release"@, "releases"@, "ci/releases"@, "result"@, "ci/result"@, "results"@,
        "ci/results"@, "res"@, "ci/res"@, "install"@, "ci/install"@,
    ]
}

/// The names of the action that links files.
pub open spec fn link_action_names() -> Seq<Seq<char>> {
    seq!["link"@, "ci/link"@, "symlink"@, "ci/symlink"@]
}

/// The action that a name in lower case stands for.
pub open spec fn builtin_named(name: Seq<char>) -> Option<BuiltinKind> {
    if name == "checkout"@ || name == "actions/checkout"@ {
        Some(BuiltinKind::Checkout)
    } else if name == "submodules"@ || name == "ci/submodules"@ {
        Some(BuiltinKind::Submodules)
    } else if name == "cache"@ || name == "actions/cache"@ {
        Some(BuiltinKind::Cache)
    } else if name == "upload-artifact"@ || name == "actions/upload-artifact"@ {
        Some(BuiltinKind::UploadArtifact)
    } else if name == "download-artifact"@ || name == "actions/download-artifact"@ {
        Some(BuiltinKind::DownloadArtifact)
    } else if export_action_names().contains(name) {
        Some(BuiltinKind::Export)
    } else if link_action_names().contains(name) {
        Some(BuiltinKind::Link)
    } else if name == "commit"@ || name == "ci/commit"@ {
        Some(BuiltinKind::Commit)
    } else if name == "sync"@ || name == "ci/sync"@ {
        Some(BuiltinKind::Sync)
    } else if name == "clean"@ || name == "ci/clean"@ {
        Some(BuiltinKind::Clean)
    } else if name == "cleanup"@ || name == "ci/cleanup"@ {
        Some(BuiltinKind::Cleanup)
    } else {
        None
    }
}

/// The action that a name in lower case stands for.
pub fn find_builtin(name: &str) -> (r: Option<BuiltinKind>)
    ensures
        r == builtin_named(name@),
{
    let exports = [
        "export", "ci/export", "artifact", "ci/artifact", "artifacts", "ci/artifacts", "release",
        "ci/release", "releases", "ci/releases", "result", "ci/result", "results", "ci/results",
        "res", "ci/res", "install", "ci/install",
    ];
    assert(slices(exports@) =~= export_action_names());
    let links = ["link", "ci/link", "symlink", "ci/symlink"];
    assert(slices(links@) =~= link_action_names());
    if same(name, "checkout") || same(name, "actions/checkout") {
        Some(BuiltinKind::Checkout)
    } else if same(name, "submodules") || same(name, "ci/submodules") {
        Some(BuiltinKind::Submodules)
    } else if same(name, "cache") || same(name, "actions/cache") {
        Some(BuiltinKind::Cache)
    } else if same(name, "upload-artifact") || same(name, "actions/upload-artifact") {
        Some(BuiltinKind::UploadArtifact)
    } else if same(name, "download-artifact") || same(name, "actions/download-artifact") {
        Some(BuiltinKind::DownloadArtifact)
    } else if one_of(name, &exports) {
        Some(BuiltinKind::Export)
    } else if one_of(name, &links) {
        Some(BuiltinKind::Link)
    } else if same(name, "commit") || same(name, "ci/commit") {
        Some(BuiltinKind::Commit)
    } else if same(name, "sync") || same(name, "ci/sync") {
        Some(BuiltinKind::Sync)
    } else if same(name, "clean") || same(name, "ci/clean") {
        Some(BuiltinKind::Clean)
    } else if same(name, "cleanup") || same(name, "ci/cleanup") {
        Some(BuiltinKind::Cleanup)
    } else {
        None
    }
}

/// The name of an action without its version.
pub fn strip_action_ref<'a>(value: &'a str) -> (r: &'a str)
    ensures
        r@ == before_first(value@, '@'),
{
    head_before(value, '@')
}

/// The built-in action that a step uses, if it is one. Versions do not count, nor does case.
pub open spec fn builtin_used(uses: Seq<char>) -> Option<BuiltinKind> {
    builtin_named(unicode_lower(before_first(uses, '@')))
}

/// The built-in action that a step uses, if it is one.
pub fn builtin_of(uses: &str) -> (r: Option<BuiltinKind>)
    ensures
        r == builtin_used(uses@),
        all_ascii(before_first(uses@, '@')) ==> r == builtin_named(lower(before_first(uses@, '@'))),
{
    let name = to_lowercase(strip_action_ref(uses));
    find_builtin(name.as_str())
}

/// What a built-in action does.
#[derive(Debug)]
pub enum BuiltinPlan {
    /// Put tracked files back; the flag says whether submodules are brought in too.
    Checkout(bool),
    Submodules,
    /// Bring back the paths that were kept under a key, and keep them again at the end.
    Cache(String, Vec<String>),
    /// Keep paths under a name.
    Upload(String, Vec<String>),
    /// Bring back what was kept under a name, to a place.
    Download(String, String),
    Export(TransferPlan),
    Link(TransferPlan),
    Git(GitPlan),
    Clean(CleanPlan),
}

#[verifier::ext_equal]
pub enum BuiltinView {
    Checkout(bool),
    Submodules,
    Cache(Seq<char>, Seq<Seq<char>>),
    Upload(Seq<char>, Seq<Seq<char>>),
    Download(Seq<char>, Seq<char>),
    Export(TransferView),
    Link(TransferView),
    Git(GitPlanView),
    Clean(CleanPlanView),
}

impl View for BuiltinPlan {
    type V = BuiltinView;

    open spec fn view(&self) -> BuiltinView {
        match self {
            BuiltinPlan::Checkout(b) => BuiltinView::Checkout(*b),
            BuiltinPlan::Submodules => BuiltinView::Submodules,
            BuiltinPlan::Cache(k, p) => BuiltinView::Cache(k@, texts(p@)),
            BuiltinPlan::Upload(n, p) => BuiltinView::Upload(n@, texts(p@)),
            BuiltinPlan::Download(n, d) => BuiltinView::Download(n@, d@),
            BuiltinPlan::Export(t) => BuiltinView::Export(t@),
            BuiltinPlan::Link(t) => BuiltinView::Link(t@),
            BuiltinPlan::Git(g) => BuiltinView::Git(g@),
            BuiltinPlan::Clean(c) => BuiltinView::Clean(c@),
        }
    }
}

/// What surrounds a built-in action.
pub struct BuiltinSetting<'a> {
    /// The name of the step.
    pub default_name: &'a str,
    pub root: &'a str,
    /// Whether submodules are brought in where nothing is said.
    pub recursive_checkout: bool,
    pub quiet: bool,
    /// The branch that the repository is on.
    pub branch: Option<&'a str>,
    /// The shell that scripts run with.
    pub shell: &'a str,
    /// The directory that scripts run in.
    pub workdir: &'a str,
}

#[verifier::ext_equal]
pub struct SettingView {
    pub default_name: Seq<char>,
    pub root: Seq<char>,
    pub recursive_checkout: bool,
    pub quiet: bool,
    pub branch: Option<Seq<char>>,
    pub shell: Seq<char>,
    pub workdir: Seq<char>,
}

impl<'a> View for BuiltinSetting<'a> {
    type V = SettingView;

    open spec fn view(&self) -> SettingView {
        SettingView {
            default_name: self.default_name@,
            root: self.root@,
            recursive_checkout: self.recursive_checkout,
            quiet: self.quiet,
            branch: opt_slice(self.branch),
            shell: self.shell@,
            workdir: self.workdir@,
        }
    }
}

/// What a built-in action does with its inputs and the script that stands beside it.
pub open spec fn builtin_plan(
    kind: BuiltinKind,
    values: Map<Seq<char>, Seq<char>>,
    at: SettingView,
    script: Option<Seq<char>>,
) -> Result<BuiltinView, ErrorView> {
    let paths = path_list(or_else(entry(values, "path"@), Seq::empty()));
    match kind {
        BuiltinKind::Checkout => Ok(
            BuiltinView::Checkout(
                match entry(values, "submodules"@) {
                    Some(v) => v == "recursive"@ || says_yes(v),
                    None => at.recursive_checkout,
                },
            ),
        ),
        BuiltinKind::Submodules => Ok(BuiltinView::Submodules),
        BuiltinKind::Cache => Ok(
            BuiltinView::Cache(or_else(entry(values, "key"@), "default"@), paths),
        ),
        BuiltinKind::UploadArtifact => Ok(
            BuiltinView::Upload(or_else(entry(values, "name"@), at.default_name), paths),
        ),
        BuiltinKind::DownloadArtifact => Ok(
            BuiltinView::Download(
                or_else(entry(values, "name"@), at.default_name),
                joined(at.root, or_else(entry(values, "path"@), "."@)),
            ),
        ),
        BuiltinKind::Export => match transfer_plan(values, "export"@) {
            Ok(t) => Ok(BuiltinView::Export(t)),
            Err(e) => Err(e),
        },
        BuiltinKind::Link => match transfer_plan(values, "link"@) {
            Ok(t) => Ok(BuiltinView::Link(t)),
            Err(e) => Err(e),
        },
        BuiltinKind::Commit => Ok(BuiltinView::Git(commit_plan(values))),
        BuiltinKind::Sync => Ok(BuiltinView::Git(sync_plan(values, at.branch))),
        BuiltinKind::Clean => Ok(
            BuiltinView::Clean(clean_plan(values, at.root, at.quiet, script, at.shell, at.workdir)),
        ),
        BuiltinKind::Cleanup => Ok(BuiltinView::Clean(cleanup_plan(values, at.root))),
    }
}

/// The value under a name.
fn value_named<'a>(values: &'a StringMap, name: &str) -> (r: Option<&'a str>)
    ensures
        opt_slice(r) == entry(values@, name@),
{
    match values.get(name) {
        Some(v) => Some(v.as_str()),
        None => None,
    }
}

/// The paths under `path`.
fn listed_paths(values: &StringMap) -> (r: Vec<String>)
    ensures
        texts(r@) == path_list(or_else(entry(values@, "path"@), Seq::empty())),
{
    match value_named(values, "path") {
        Some(v) => parse_path_list(v),
        None => {
            proof {
                reveal_strlit("");
                assert(""@ =~= Seq::<char>::empty());
            }
            parse_path_list("")
        },
    }
}

/// What a built-in action does with its inputs.
pub fn plan_builtin(kind: BuiltinKind, values: &StringMap, at: &BuiltinSetting, script: Option<&str>) -> (r: Result<
    BuiltinPlan,
    CiError,
>)
    ensures
        outcome(r) == builtin_plan(kind, values@, at@, opt_slice(script)),
{
    match kind {
        BuiltinKind::Checkout => {
            let submodules = match value_named(values, "submodules") {
                Some(v) => same(v, "recursive") || parse_bool(v),
                None => at.recursive_checkout,
            };
            Ok(BuiltinPlan::Checkout(submodules))
        },
        BuiltinKind::Submodules => Ok(BuiltinPlan::Submodules),
        BuiltinKind::Cache => {
            let key = match value_named(values, "key") {
                Some(v) => v,
                None => "default",
            };
            Ok(BuiltinPlan::Cache(key.to_owned(), listed_paths(values)))
        },
        BuiltinKind::UploadArtifact => {
            let name = match value_named(values, "name") {
                Some(v) => v,
                None => at.default_name,
            };
            Ok(BuiltinPlan::Upload(name.to_owned(), listed_paths(values)))
        },
        BuiltinKind::DownloadArtifact => {
            let name = match value_named(values, "name") {
                Some(v) => v,
                None => at.default_name,
            };
            let path = match value_named(values, "path") {
                Some(v) => v,
                None => ".",
            };
            Ok(BuiltinPlan::Download(name.to_owned(), resolve_workdir(at.root, Some(path))))
        },
        BuiltinKind::Export => match run_export_step(values) {
            Ok(t) => Ok(BuiltinPlan::Export(t)),
            Err(e) => Err(e),
        },
        BuiltinKind::Link => match run_link_step(values) {
            Ok(t) => Ok(BuiltinPlan::Link(t)),
            Err(e) => Err(e),
        },
        BuiltinKind::Commit => Ok(BuiltinPlan::Git(run_commit_step(values))),
        BuiltinKind::Sync => Ok(BuiltinPlan::Git(run_sync_step(values, at.branch))),
        BuiltinKind::Clean => Ok(
            BuiltinPlan::Clean(run_clean_step(values, at.root, at.quiet, script, at.shell, at.workdir)),
        ),
        BuiltinKind::Cleanup => Ok(BuiltinPlan::Clean(run_cleanup_step(values, at.root))),
    }
}

/// The inputs of an action with expressions replaced: those under `with` over those that
/// stand directly in the step.
pub open spec fn rendered(
    with: Map<Seq<char>, Seq<char>>,
    extra: Map<Seq<char>, Seq<char>>,
    ctx: ExpressionView,
) -> Map<Seq<char>, Seq<char>> {
    interpolated_map(extra, ctx).union_prefer_right(interpolated_map(with, ctx))
}

/// The inputs of an action with expressions replaced.
pub fn native_step_inputs(with: &StringMap, extra: &StringMap, ctx: &ExpressionContext) -> (r: StringMap)
    ensures
        r@ == rendered(with@, extra@, ctx@),
{
    let mut inputs = interpolate_map(extra, ctx);
    let over = interpolate_map(with, ctx);
    inputs.overlay(&over);
    inputs
}

/// An optional text with expressions replaced.
pub open spec fn opt_interpolated(s: Option<Seq<char>>, ctx: ExpressionView) -> Option<Seq<char>> {
    match s {
        Some(s) => Some(interpolated(s, ctx)),
        None => None,
    }
}

/// What a step does that uses an action, where that action is a built-in one. The
/// expressions in its inputs and in the script beside it are replaced.
pub open spec fn builtin_step(
    uses: Seq<char>,
    with: Map<Seq<char>, Seq<char>>,
    extra: Map<Seq<char>, Seq<char>>,
    script: Option<Seq<char>>,
    ctx: ExpressionView,
    at: SettingView,
) -> Result<Option<BuiltinView>, ErrorView> {
    match builtin_used(uses) {
        None => Ok(None),
        Some(kind) => match builtin_plan(kind, rendered(with, extra, ctx), at, opt_interpolated(script, ctx)) {
            Ok(plan) => Ok(Some(plan)),
            Err(e) => Err(e),
        },
    }
}

/// A plan that may be there, or why there is none.
pub open spec fn opt_outcome<T: View>(r: Result<Option<T>, CiError>) -> Result<Option<T::V>, ErrorView> {
    match r {
        Ok(Some(v)) => Ok(Some(v@)),
        Ok(None) => Ok(None),
        Err(e) => Err(e@),
    }
}

/// What a step does that uses an action, where that action is a built-in one.
pub fn run_builtin_step(
    uses: &str,
    with: &StringMap,
    extra: &StringMap,
    inline_run: Option<&str>,
    ctx: &ExpressionContext,
    at: &BuiltinSetting,
) -> (r: Result<Option<BuiltinPlan>, CiError>)
    ensures
        opt_outcome(r) == builtin_step(uses@, with@, extra@, opt_slice(inline_run), ctx@, at@),
{
    let kind = match builtin_of(uses) {
        Some(kind) => kind,
        None => return Ok(None),
    };
    let values = native_step_inputs(with, extra, ctx);
    let script = match inline_run {
        Some(s) => Some(interpolate_expressions(s, ctx)),
        None => None,
    };
    match plan_builtin(kind, &values, at, opt_str(&script)) {
        Ok(plan) => Ok(Some(plan)),
        Err(e) => Err(e),
    }
}

/// Which built-in action is used does not depend on the version that is asked for.
pub proof fn law_versions_do_not_matter(uses: Seq<char>, version: Seq<char>)
    requires
        !uses.contains('@'),
    ensures
        builtin_used(uses + "@"@ + version) == builtin_used(uses),
{
    reveal_strlit("@");
    assert("@"@ =~= seq!['@']);
    lemma_before_first(uses, version);
    lemma_no_at(uses);
    assert(uses + "@"@ + version =~= uses + (seq!['@'] + version));
}

proof fn lemma_before_first(a: Seq<char>, b: Seq<char>)
    requires
        !a.contains('@'),
    ensures
        before_first(a + (seq!['@'] + b), '@') == a,
        first_index(a + (seq!['@'] + b), '@') == a.len(),
    decreases a.len(),
{
    let s = a + (seq!['@'] + b);
    if a.len() == 0 {
        assert(s[0] == '@');
        assert(s.take(0) =~= a);
    } else {
        assert(a[0] != '@') by {
            if a[0] == '@' {
                assert(a.contains('@'));
            }
        }
        let t = a.drop_first();
        assert(!t.contains('@')) by {
            if t.contains('@') {
                let i = choose|i: int| 0 <= i < t.len() && t[i] == '@';
                assert(a[i + 1] == '@');
            }
        }
        lemma_before_first(t, b);
        assert(s.drop_first() =~= t + (seq!['@'] + b));
        assert(s.take(a.len() as int) =~= a);
    }
}

proof fn lemma_no_at(a: Seq<char>)
    requires
        !a.contains('@'),
    ensures
        before_first(a, '@') == a,
        first_index(a, '@') == a.len(),
    decreases a.len(),
{
    if a.len() > 0 {
        assert(a[0] != '@') by {
            if a[0] == '@' {
                assert(a.contains('@'));
            }
        }
        let t = a.drop_first();
        assert(!t.contains('@')) by {
            if t.contains('@') {
                let i = choose|i: int| 0 <= i < t.len() && t[i] == '@';
                assert(a[i + 1] == '@');
            }
        }
        lemma_no_at(t);
    }
    assert(a.take(a.len() as int) =~= a);
}

/// The names of actions, told apart by their lengths and some letters.
spec fn mark_of_action(s: Seq<char>) -> int {
    1000 * s.len() + s[s.len() - 1] as int + 3 * (s[0] as int) + 17 * (s[s.len() as int / 2] as int) + 11 * (s[s.len() - 2] as int)
}

proof fn lemma_marks_of_actions()
    ensures
        mark_of_action("checkout"@) == 11519,
        mark_of_action("actions/checkout"@) == 19377,
        mark_of_action("submodules"@) == 13271,
        mark_of_action("ci/submodules"@) == 16376,
        mark_of_action("cache"@) == 8225,
        mark_of_action("actions/cache"@) == 16491,
        mark_of_action("upload-artifact"@) == 18205,
        mark_of_action("actions/upload-artifact"@) == 26383,
        mark_of_action("download-artifact"@) == 19270,
        mark_of_action("actions/download-artifact"@) == 28332,
        mark_of_action("export"@) == 9560,
        mark_of_action("ci/export"@) == 12707,
        mark_of_action("artifact"@) == 11230,
        mark_of_action("ci/artifact"@) == 14474,
        mark_of_action("artifacts"@) == 12416,
        mark_of_action("ci/artifacts"@) == 15473,
        mark_of_action("release"@) == 10425,
        mark_of_action("ci/release"@) == 13499,
        mark_of_action("releases"@) == 11217,
        mark_of_action("ci/releases"@) == 14359,
        mark_of_action("result"@) == 9635,
        mark_of_action("ci/result"@) == 12318,
        mark_of_action("results"@) == 10722,
        mark_of_action("ci/results"@) == 13643,
        mark_of_action("res"@) == 6285,
        mark_of_action("ci/res"@) == 9461,
        mark_of_action("install"@) == 10583,
        mark_of_action("ci/install"@) == 13548,
        mark_of_action("link"@) == 7511,
        mark_of_action("ci/link"@) == 10450,
        mark_of_action("symlink"@) == 10498,
        mark_of_action("ci/symlink"@) == 13467,
        mark_of_action("commit"@) == 9421,
        mark_of_action("ci/commit"@) == 12455,
        mark_of_action("sync"@) == 7524,
        mark_of_action("ci/sync"@) == 10561,
        mark_of_action("clean"@) == 8191,
        mark_of_action("ci/clean"@) == 11310,
        mark_of_action("cleanup"@) == 10345,
        mark_of_action("ci/cleanup"@) == 13413,
{
    reveal_strlit("checkout");
    reveal_strlit("actions/checkout");
    reveal_strlit("submodules");
    reveal_strlit("ci/submodules");
    reveal_strlit("cache");
    reveal_strlit("actions/cache");
    reveal_strlit("upload-artifact");
    reveal_strlit("actions/upload-artifact");
    reveal_strlit("download-artifact");
    reveal_strlit("actions/download-artifact");
    reveal_strlit("export");
    reveal_strlit("ci/export");
    reveal_strlit("artifact");
    reveal_strlit("ci/artifact");
    reveal_strlit("artifacts");
    reveal_strlit("ci/artifacts");
    reveal_strlit("release");
    reveal_strlit("ci/release");
    reveal_strlit("releases");
    reveal_strlit("ci/releases");
    reveal_strlit("result");
    reveal_strlit("ci/result");
    reveal_strlit("results");
    reveal_strlit("ci/results");
    reveal_strlit("res");
    reveal_strlit("ci/res");
    reveal_strlit("install");
    reveal_strlit("ci/install");
    reveal_strlit("link");
    reveal_strlit("ci/link");
    reveal_strlit("symlink");
    reveal_strlit("ci/symlink");
    reveal_strlit("commit");
    reveal_strlit("ci/commit");
    reveal_strlit("sync");
    reveal_strlit("ci/sync");
    reveal_strlit("clean");
    reveal_strlit("ci/clean");
    reveal_strlit("cleanup");
    reveal_strlit("ci/cleanup");
}

/// Every action that the tool brings along goes by its names: those of the tool with `ci/`
/// before them or without, and those of hosted runners with `actions/` or without.
pub proof fn law_actions_go_by_their_names()
    ensures
        builtin_named("checkout"@) == Some(BuiltinKind::Checkout),
        builtin_named("actions/checkout"@) == Some(BuiltinKind::Checkout),
        builtin_named("submodules"@) == Some(BuiltinKind::Submodules),
        builtin_named("ci/submodules"@) == Some(BuiltinKind::Submodules),
        builtin_named("cache"@) == Some(BuiltinKind::Cache),
        builtin_named("actions/cache"@) == Some(BuiltinKind::Cache),
        builtin_named("upload-artifact"@) == Some(BuiltinKind::UploadArtifact),
        builtin_named("actions/upload-artifact"@) == Some(BuiltinKind::UploadArtifact),
        builtin_named("download-artifact"@) == Some(BuiltinKind::DownloadArtifact),
        builtin_named("actions/download-artifact"@) == Some(BuiltinKind::DownloadArtifact),
        builtin_named("export"@) == Some(BuiltinKind::Export),
        builtin_named("ci/export"@) == Some(BuiltinKind::Export),
        builtin_named("artifact"@) == Some(BuiltinKind::Export),
        builtin_named("ci/artifact"@) == Some(BuiltinKind::Export),
        builtin_named("artifacts"@) == Some(BuiltinKind::Export),
        builtin_named("ci/artifacts"@) == Some(BuiltinKind::Export),
        builtin_named("release"@) == Some(BuiltinKind::Export),
        builtin_named("ci/release"@) == Some(BuiltinKind::Export),
        builtin_named("releases"@) == Some(BuiltinKind::Export),
        builtin_named("ci/releases"@) == Some(BuiltinKind::Export),
        builtin_named("result"@) == Some(BuiltinKind::Export),
        builtin_named("ci/result"@) == Some(BuiltinKind::Export),
        builtin_named("results"@) == Some(BuiltinKind::Export),
        builtin_named("ci/results"@) == Some(BuiltinKind::Export),
        builtin_named("res"@) == Some(BuiltinKind::Export),
        builtin_named("ci/res"@) == Some(BuiltinKind::Export),
        builtin_named("install"@) == Some(BuiltinKind::Export),
        builtin_named("ci/install"@) == Some(BuiltinKind::Export),
        builtin_named("link"@) == Some(BuiltinKind::Link),
        builtin_named("ci/link"@) == Some(BuiltinKind::Link),
        builtin_named("symlink"@) == Some(BuiltinKind::Link),
        builtin_named("ci/symlink"@) == Some(BuiltinKind::Link),
        builtin_named("commit"@) == Some(BuiltinKind::Commit),
        builtin_named("ci/commit"@) == Some(BuiltinKind::Commit),
        builtin_named("sync"@) == Some(BuiltinKind::Sync),
        builtin_named("ci/sync"@) == Some(BuiltinKind::Sync),
        builtin_named("clean"@) == Some(BuiltinKind::Clean),
        builtin_named("ci/clean"@) == Some(BuiltinKind::Clean),
        builtin_named("cleanup"@) == Some(BuiltinKind::Cleanup),
        builtin_named("ci/cleanup"@) == Some(BuiltinKind::Cleanup),
{
    lemma_marks_of_actions();
    let e = export_action_names();
    assert(e[0] == "export"@);
    assert(e[1] == "ci/export"@);
    assert(e[2] == "artifact"@);
    assert(e[3] == "ci/artifact"@);
    assert(e[4] == "artifacts"@);
    assert(e[5] == "ci/artifacts"@);
    assert(e[6] == "release"@);
    assert(e[7] == "ci/release"@);
    assert(e[8] == "releases"@);
    assert(e[9] == "ci/releases"@);
    assert(e[10] == "result"@);
    assert(e[11] == "ci/result"@);
    assert(e[12] == "results"@);
    assert(e[13] == "ci/results"@);
    assert(e[14] == "res"@);
    assert(e[15] == "ci/res"@);
    assert(e[16] == "install"@);
    assert(e[17] == "ci/install"@);
    let l = link_action_names();
    assert(l[0] == "link"@);
    assert(l[1] == "ci/link"@);
    assert(l[2] == "symlink"@);
    assert(l[3] == "ci/symlink"@);
    assert forall|s: Seq<char>| e.contains(s) implies s == "export"@ || s == "ci/export"@ || s == "artifact"@ || s == "ci/artifact"@ || s == "artifacts"@ || s == "ci/artifacts"@ || s == "release"@ || s == "ci/release"@ || s == "releases"@ || s == "ci/releases"@ || s == "result"@ || s == "ci/result"@ || s == "results"@ || s == "ci/results"@ || s == "res"@ || s == "ci/res"@ || s == "install"@ || s == "ci/install"@ by {
        let i = choose|i: int| 0 <= i < e.len() && e[i] == s;
    }
    assert forall|s: Seq<char>| l.contains(s) implies s == "link"@ || s == "ci/link"@ || s == "symlink"@ || s == "ci/symlink"@ by {
        let i = choose|i: int| 0 <= i < l.len() && l[i] == s;
    }
}

/// What built-in actions do with what they are told: a checkout brings in submodules where it
/// is told to, else as usual; a cache is kept under its key, and artifacts under their name,
/// else that of the step; an export copies and a link links.
pub proof fn law_what_built_in_actions_do(values: Map<Seq<char>, Seq<char>>, at: SettingView, script: Option<Seq<char>>)
    ensures
        values.contains_key("submodules"@) && values["submodules"@] == "recursive"@ ==> builtin_plan(
            BuiltinKind::Checkout,
            values,
            at,
            script,
        ) == Ok::<_, ErrorView>(BuiltinView::Checkout(true)),
        values.contains_key("submodules"@) && says_no(values["submodules"@]) ==> builtin_plan(
            BuiltinKind::Checkout,
            values,
            at,
            script,
        ) == Ok::<_, ErrorView>(BuiltinView::Checkout(false)),
        !values.contains_key("submodules"@) ==> builtin_plan(BuiltinKind::Checkout, values, at, script) == Ok::<_, ErrorView>(
            BuiltinView::Checkout(at.recursive_checkout),
        ),
        builtin_plan(BuiltinKind::Cache, values, at, script) matches Ok(BuiltinView::Cache(key, paths)) && (
        values.contains_key("key"@) ==> key == values["key"@]) && (values.contains_key("path"@) ==> paths == path_list(
            values["path"@],
        )),
        builtin_plan(BuiltinKind::UploadArtifact, values, at, script) matches Ok(BuiltinView::Upload(name, paths)) && name
            == (if values.contains_key("name"@) {
            values["name"@]
        } else {
            at.default_name
        }) && (values.contains_key("path"@) ==> paths == path_list(values["path"@])),
        builtin_plan(BuiltinKind::DownloadArtifact, values, at, script) matches Ok(BuiltinView::Download(name, place))
            && name == (if values.contains_key("name"@) {
            values["name"@]
        } else {
            at.default_name
        }) && (values.contains_key("path"@) ==> place == joined(at.root, values["path"@])),
        builtin_plan(BuiltinKind::Export, values, at, script) matches Ok(plan) ==> plan is Export,
        builtin_plan(BuiltinKind::Link, values, at, script) matches Ok(plan) ==> plan is Link,
        builtin_plan(BuiltinKind::Commit, values, at, script) matches Ok(BuiltinView::Git(_)),
        builtin_plan(BuiltinKind::Sync, values, at, script) == Ok::<_, ErrorView>(
            BuiltinView::Git(sync_plan(values, at.branch)),
        ),
        builtin_plan(BuiltinKind::Clean, values, at, script) matches Ok(BuiltinView::Clean(_)),
        builtin_plan(BuiltinKind::Cleanup, values, at, script) matches Ok(BuiltinView::Clean(_)),
        builtin_plan(BuiltinKind::Submodules, values, at, script) == Ok::<_, ErrorView>(BuiltinView::Submodules),
{
    if values.contains_key("submodules"@) {
        let v = values["submodules"@];
        law_yes_is_not_no(v, values, v, false);
        if says_no(v) && v == "recursive"@ {
            reveal_strlit("recursive");
            reveal_strlit("0");
            reveal_strlit("false");
            reveal_strlit("no");
            reveal_strlit("off");
            lemma_trimmed_whole(v);
            assert(lower(v) =~= v);
            assert(v.len() == 9);
        }
    }
}

/// Inputs under `with` hold against those that stand directly in the step, and in both the
/// expressions are replaced; there are no others.
pub proof fn law_inputs_of_an_action(
    with: Map<Seq<char>, Seq<char>>,
    extra: Map<Seq<char>, Seq<char>>,
    ctx: ExpressionView,
    name: Seq<char>,
)
    ensures
        rendered(with, extra, ctx).contains_key(name) == (with.contains_key(name) || extra.contains_key(name)),
        with.contains_key(name) ==> rendered(with, extra, ctx)[name] == interpolated(with[name], ctx),
        !with.contains_key(name) && extra.contains_key(name) ==> rendered(with, extra, ctx)[name] == interpolated(
            extra[name],
            ctx,
        ),
{
}

} // verus!
