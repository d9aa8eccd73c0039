//! YAML documents, as far as the tool looks into them, and the keys that it accepts.

use crate::error::{CiError, ErrorView, message, unit_outcome, usage};
use crate::maps::{NameMap, StringMap, law_names_are_the_domain};
use crate::strings::{cat2, cat3, cat4, cat6, one_of, same, trim};
use crate::text::{
    has_text, lemma_take_push, lemma_texts_push, occurs_at, opt_text, slices, trimmed,
};
use vstd::prelude::*;
use vstd::string::*;

verus! {

broadcast use {lemma_texts_push, lemma_take_push};

/// A YAML document, as far as its keys are looked at: what a sequence or a number holds is
/// left out. A key of a mapping that is no string stands as `None`.
pub enum YamlTree {
    Null,
    Bool(bool),
    Number,
    Text(String),
    Sequence,
    Mapping(Vec<(Option<String>, YamlTree)>),
    Tagged(Box<YamlTree>),
}

/// A YAML document by its texts.
pub enum TreeView {
    Null,
    Bool(bool),
    Number,
    Text(Seq<char>),
    Sequence,
    Mapping(Seq<(Option<Seq<char>>, TreeView)>),
    Tagged(Box<TreeView>),
}

/// A YAML document by its texts.
pub open spec fn tree_view(v: YamlTree) -> TreeView
    decreases v,
{
    match v {
        YamlTree::Null => TreeView::Null,
        YamlTree::Bool(b) => TreeView::Bool(b),
        YamlTree::Number => TreeView::Number,
        YamlTree::Text(s) => TreeView::Text(s@),
        YamlTree::Sequence => TreeView::Sequence,
        YamlTree::Mapping(e) => TreeView::Mapping(
            Seq::new(
                e@.len(),
                |i: int|
                    if 0 <= i < e@.len() {
                        (opt_text(e@[i].0), tree_view(e@[i].1))
                    } else {
                        (None, TreeView::Null)
                    },
            ),
        ),
        YamlTree::Tagged(inner) => TreeView::Tagged(Box::new(tree_view(*inner))),
    }
}

impl View for YamlTree {
    type V = TreeView;

    open spec fn view(&self) -> TreeView {
        tree_view(*self)
    }
}

/// The document that a YAML text holds, as `serde_yaml` reads it, or the message of its
/// failure where it reads none.
pub uninterp spec fn yaml_document(text: Seq<char>) -> Result<TreeView, Seq<char>>;

/// The value type of `serde_yaml`, carried as it is.
#[verifier::external_type_specification]
#[verifier::external_body]
pub struct ExSerdeYamlTree(serde_yaml::Value);

/// A value of `serde_yaml` in the form of this library, without what a sequence or a
/// number holds.
#[verifier::external_body]
fn yaml_tree(value: &serde_yaml::Value) -> (r: YamlTree) {
    match value {
        serde_yaml::Value::Null => YamlTree::Null,
        serde_yaml::Value::Bool(b) => YamlTree::Bool(*b),
        serde_yaml::Value::Number(_) => YamlTree::Number,
        serde_yaml::Value::String(s) => YamlTree::Text(s.clone()),
        serde_yaml::Value::Sequence(_) => YamlTree::Sequence,
        serde_yaml::Value::Mapping(m) => YamlTree::Mapping(
            m.iter().map(|(k, v)| (k.as_str().map(str::to_owned), yaml_tree(v))).collect(),
        ),
        serde_yaml::Value::Tagged(t) => YamlTree::Tagged(Box::new(yaml_tree(&t.value))),
    }
}

/// What reading a text gave, by its texts.
pub open spec fn reading(r: Result<YamlTree, String>) -> Result<TreeView, Seq<char>> {
    match r {
        Ok(value) => Ok(value@),
        Err(text) => Err(text@),
    }
}

/// Reads a YAML text with `serde_yaml::from_str`: the document that it holds, or the
/// message of the failure. The contract names both by the text alone.
#[verifier::external_body]
fn parse_yaml(text: &str) -> (r: Result<YamlTree, String>)
    ensures
        reading(r) == yaml_document(text@),
{
    serde_yaml::from_str::<serde_yaml::Value>(text)
        .map(|value| yaml_tree(&value))
        .map_err(|err| err.to_string())
}

/// A value without the tags around it.
pub open spec fn untagged(v: TreeView) -> TreeView
    decreases v,
{
    match v {
        TreeView::Tagged(inner) => untagged(*inner),
        _ => v,
    }
}

/// Whether every key is a string.
pub open spec fn string_keys(e: Seq<(Option<Seq<char>>, TreeView)>) -> bool {
    forall|i: int| 0 <= i < e.len() ==> (#[trigger] e[i]).0 is Some
}

/// Entries by the texts of their keys.
pub open spec fn keyed(e: Seq<(Option<Seq<char>>, TreeView)>) -> Seq<(Seq<char>, TreeView)> {
    e.map_values(|x: (Option<Seq<char>>, TreeView)| (x.0->0, x.1))
}

/// The entries of a section: it has to be a mapping with strings as keys.
pub open spec fn section_entries(v: TreeView, path: Seq<char>, label: Seq<char>) -> Result<
    Seq<(Seq<char>, TreeView)>,
    ErrorView,
> {
    match untagged(v) {
        TreeView::Mapping(e) => if string_keys(e) {
            Ok(keyed(e))
        } else {
            Err(
                ErrorView::Usage(
                    path + " section `"@ + label + "` contains a non-string key"@,
                ),
            )
        },
        _ => Err(ErrorView::Usage(path + " section `"@ + label + "` must be a mapping"@)),
    }
}

/// The first key that is not among the accepted ones.
pub open spec fn first_foreign(e: Seq<(Seq<char>, TreeView)>, allowed: Seq<Seq<char>>) -> Option<Seq<char>>
    decreases e.len(),
{
    if e.len() == 0 {
        None
    } else if first_foreign(e.drop_last(), allowed) is Some {
        first_foreign(e.drop_last(), allowed)
    } else if allowed.contains(e.last().0) {
        None
    } else {
        Some(e.last().0)
    }
}

/// The complaint about a key that is not accepted.
pub open spec fn foreign_key_error(path: Seq<char>, key: Seq<char>, label: Seq<char>, topic: Seq<char>) -> ErrorView {
    ErrorView::Usage(
        path + " has unknown key `"@ + key + "` in "@ + label + ("; run `ci schema "@ + topic
            + "` for supported fields"@),
    )
}

/// Whether a section holds accepted keys only, and the complaint where it does not.
pub open spec fn checked_section(
    v: TreeView,
    path: Seq<char>,
    label: Seq<char>,
    allowed: Seq<Seq<char>>,
    topic: Seq<char>,
) -> Result<(), ErrorView> {
    match section_entries(v, path, label) {
        Err(e) => Err(e),
        Ok(entries) => match first_foreign(entries, allowed) {
            Some(key) => Err(foreign_key_error(path, key, label, topic)),
            None => Ok(()),
        },
    }
}

/// The keys of a workflow file.
pub open spec fn workflow_keys() -> Seq<Seq<char>> {
    seq![
        "name"@, "defaults"@, "on"@, "needs"@, "tech"@, "type"@, "tech-stack"@, "tech_stack"@,
        "arch"@, "branches"@, "artifacts"@, "execution"@, "container"@, "env"@, "steps"@,
    ]
}

/// The keys of the settings of a workflow.
pub open spec fn override_keys() -> Seq<Seq<char>> {
    seq![
        "on"@, "tech"@, "type"@, "tech-stack"@, "tech_stack"@, "arch"@, "branches"@, "artifacts"@,
        "execution"@, "container"@, "env"@,
    ]
}

/// The keys of the settings of a container.
pub open spec fn container_keys() -> Seq<Seq<char>> {
    seq![
        "type"@, "image"@, "platform"@, "workdir"@, "working-directory"@, "working_directory"@,
        "arch"@, "packages"@, "components"@, "env"@, "volumes"@,
    ]
}

/// The keys of the settings for branches.
pub open spec fn branch_keys() -> Seq<Seq<char>> {
    seq!["allow"@, "only"@]
}

/// The keys of the settings for artifacts.
pub open spec fn artifact_keys() -> Seq<Seq<char>> {
    seq!["paths"@, "mode"@, "destination"@]
}

/// The keys of the settings for execution.
pub open spec fn execution_keys() -> Seq<Seq<char>> {
    seq!["workspace"@, "shell"@]
}

/// The keys of the settings for everything.
pub open spec fn default_keys() -> Seq<Seq<char>> {
    seq![
        "shell"@, "quiet"@, "silent"@, "fail_fast"@, "fail-fast"@, "tech"@, "type"@, "tech-stack"@,
        "tech_stack"@, "arch"@, "container"@, "container_runtime"@, "container-runtime"@,
        "git_mode"@, "git-mode"@, "git_command"@, "git-command"@, "git_image"@, "git-image"@,
        "install_mode"@, "install-mode"@, "recursive_checkout"@, "recursive-checkout"@,
        "artifact_store"@, "artifact-store"@, "actions_cache"@, "actions-cache"@, "branches"@,
    ]
}

/// The keys of a configuration file.
pub open spec fn config_keys() -> Seq<Seq<char>> {
    default_keys() + seq!["defaults"@, "hooks"@, "workflows"@, "actions"@]
}

/// The keys of the settings for actions.
pub open spec fn actions_keys() -> Seq<Seq<char>> {
    seq!["node_image"@, "node-image"@]
}

/// The name of a section inside another one; at the top it has no prefix.
pub open spec fn inner_label(prefix: Seq<char>, name: Seq<char>) -> Seq<char> {
    if prefix.len() == 0 {
        name
    } else {
        prefix + "."@ + name
    }
}

/// The sections that may stand in workflows, overrides and defaults alike.
pub open spec fn checked_common(
    key: Seq<char>,
    v: TreeView,
    path: Seq<char>,
    prefix: Seq<char>,
    topic: Seq<char>,
) -> Result<(), ErrorView> {
    if key == "branches"@ {
        checked_section(v, path, inner_label(prefix, key), branch_keys(), topic)
    } else if key == "artifacts"@ {
        checked_section(v, path, inner_label(prefix, key), artifact_keys(), topic)
    } else if key == "execution"@ {
        checked_section(v, path, inner_label(prefix, key), execution_keys(), topic)
    } else if key == "container"@ {
        checked_section(v, path, inner_label(prefix, key), container_keys(), topic)
    } else {
        Ok(())
    }
}

/// The first complaint about the common sections among entries.
pub open spec fn checked_entries(
    e: Seq<(Seq<char>, TreeView)>,
    path: Seq<char>,
    prefix: Seq<char>,
    topic: Seq<char>,
) -> Result<(), ErrorView>
    decreases e.len(),
{
    if e.len() == 0 {
        Ok(())
    } else {
        match checked_entries(e.drop_last(), path, prefix, topic) {
            Err(err) => Err(err),
            Ok(_) => checked_common(e.last().0, e.last().1, path, prefix, topic),
        }
    }
}

/// Whether a section with common sections in it is accepted.
pub open spec fn checked_block(
    v: TreeView,
    path: Seq<char>,
    label: Seq<char>,
    allowed: Seq<Seq<char>>,
    topic: Seq<char>,
) -> Result<(), ErrorView> {
    match section_entries(v, path, label) {
        Err(e) => Err(e),
        Ok(entries) => match first_foreign(entries, allowed) {
            Some(key) => Err(foreign_key_error(path, key, label, topic)),
            None => checked_entries(entries, path, label, topic),
        },
    }
}

/// What is accepted under one key of a workflow file.
pub open spec fn checked_workflow_entry(key: Seq<char>, v: TreeView, path: Seq<char>) -> Result<(), ErrorView> {
    if key == "defaults"@ {
        checked_block(v, path, key, override_keys(), "workflow"@)
    } else {
        checked_common(key, v, path, Seq::empty(), "workflow"@)
    }
}

/// The first complaint about the entries of a workflow file.
pub open spec fn checked_workflow_entries(e: Seq<(Seq<char>, TreeView)>, path: Seq<char>) -> Result<(), ErrorView>
    decreases e.len(),
{
    if e.len() == 0 {
        Ok(())
    } else {
        match checked_workflow_entries(e.drop_last(), path) {
            Err(err) => Err(err),
            Ok(_) => checked_workflow_entry(e.last().0, e.last().1, path),
        }
    }
}

/// Whether a workflow file holds accepted keys only, and the first complaint where it
/// does not: unknown keys of the file itself come before those of its sections.
pub open spec fn checked_workflow(v: TreeView, path: Seq<char>) -> Result<(), ErrorView> {
    match section_entries(v, path, "workflow"@) {
        Err(e) => Err(e),
        Ok(entries) => match first_foreign(entries, workflow_keys()) {
            Some(key) => Err(foreign_key_error(path, key, "workflow"@, "workflow"@)),
            None => checked_workflow_entries(entries, path),
        },
    }
}

/// The first complaint about the named blocks of `hooks` or `workflows`.
pub open spec fn checked_named_blocks(
    e: Seq<(Seq<char>, TreeView)>,
    path: Seq<char>,
    label: Seq<char>,
) -> Result<(), ErrorView>
    decreases e.len(),
{
    if e.len() == 0 {
        Ok(())
    } else {
        match checked_named_blocks(e.drop_last(), path, label) {
            Err(err) => Err(err),
            Ok(_) => checked_block(
                e.last().1,
                path,
                inner_label(label, e.last().0),
                override_keys(),
                "config"@,
            ),
        }
    }
}

/// What is accepted under one key of a configuration file.
pub open spec fn checked_config_entry(key: Seq<char>, v: TreeView, path: Seq<char>) -> Result<(), ErrorView> {
    if key == "defaults"@ {
        checked_block(v, path, key, default_keys(), "config"@)
    } else if key == "hooks"@ || key == "workflows"@ {
        match section_entries(v, path, key) {
            Err(e) => Err(e),
            Ok(entries) => checked_named_blocks(entries, path, key),
        }
    } else if key == "actions"@ {
        checked_section(v, path, key, actions_keys(), "config"@)
    } else {
        checked_common(key, v, path, Seq::empty(), "config"@)
    }
}

/// The first complaint about the entries of a configuration file.
pub open spec fn checked_config_entries(e: Seq<(Seq<char>, TreeView)>, path: Seq<char>) -> Result<(), ErrorView>
    decreases e.len(),
{
    if e.len() == 0 {
        Ok(())
    } else {
        match checked_config_entries(e.drop_last(), path) {
            Err(err) => Err(err),
            Ok(_) => checked_config_entry(e.last().0, e.last().1, path),
        }
    }
}

/// Whether a configuration file holds accepted keys only.
pub open spec fn checked_config(v: TreeView, path: Seq<char>) -> Result<(), ErrorView> {
    match section_entries(v, path, "config"@) {
        Err(e) => Err(e),
        Ok(entries) => match first_foreign(entries, config_keys()) {
            Some(key) => Err(foreign_key_error(path, key, "config"@, "config"@)),
            None => checked_config_entries(entries, path),
        },
    }
}

/// The entries of a section, as keys and values.
pub open spec fn entry_views(v: Seq<(String, &YamlTree)>) -> Seq<(Seq<char>, TreeView)> {
    v.map_values(|x: (String, &YamlTree)| (x.0@, x.1@))
}

proof fn lemma_entry_views_push(v: Seq<(String, &YamlTree)>, x: (String, &YamlTree))
    ensures
        entry_views(v.push(x)) == entry_views(v).push((x.0@, x.1@)),
{
    assert(entry_views(v.push(x)) =~= entry_views(v).push((x.0@, x.1@)));
}

/// A value without the tags around it.
fn untag(value: &YamlTree) -> (r: &YamlTree)
    ensures
        r@ == untagged(value@),
        !(r is Tagged),
    decreases value,
{
    match value {
        YamlTree::Tagged(inner) => untag(inner),
        _ => value,
    }
}

/// The entries of a section: it has to be a mapping with strings as keys.
pub fn mapping_entries<'a>(value: &'a YamlTree, path: &str, label: &str) -> (r: Result<
    Vec<(String, &'a YamlTree)>,
    CiError,
>)
    ensures
        r matches Ok(e) ==> section_entries(value@, path@, label@) == Ok::<_, ErrorView>(entry_views(e@)),
        r matches Err(e) ==> section_entries(value@, path@, label@) == Err::<Seq<(Seq<char>, TreeView)>, _>(e@),
{
    match untag(value) {
        YamlTree::Mapping(entries) => {
            let ghost all = untagged(value@)->Mapping_0;
            let mut out: Vec<(String, &'a YamlTree)> = Vec::new();
            let mut i: usize = 0;
            assert(entry_views(out@) =~= keyed(all).take(0));
            while i < entries.len()
                invariant
                    i <= entries@.len(),
                    untagged(value@) == TreeView::Mapping(all),
                    all.len() == entries@.len(),
                    forall|j: int| 0 <= j < entries@.len() ==> #[trigger] all[j] == (
                        opt_text(entries@[j].0),
                        entries@[j].1@,
                    ),
                    entry_views(out@) == keyed(all).take(i as int),
                    forall|j: int| 0 <= j < i ==> (#[trigger] all[j]).0 is Some,
                decreases entries.len() - i,
            {
                assert(all[i as int] == (opt_text(entries@[i as int].0), entries@[i as int].1@));
                match &entries[i].0 {
                    Some(key) => {
                        let item = (key.clone(), &entries[i].1);
                        proof {
                            lemma_entry_views_push(out@, item);
                        }
                        out.push(item);
                    },
                    None => {
                        return Err(
                            usage(
                                cat4(path, " section `", label, "` contains a non-string key"),
                            ),
                        );
                    },
                }
                i += 1;
            }
            assert(keyed(all).take(i as int) =~= keyed(all));
            Ok(out)
        },
        _ => Err(usage(cat4(path, " section `", label, "` must be a mapping"))),
    }
}

/// The complaint about a key that is not accepted.
fn foreign_key(path: &str, key: &str, label: &str, topic: &str) -> (r: CiError)
    ensures
        r@ == foreign_key_error(path@, key@, label@, topic@),
{
    let head = cat6(path, " has unknown key `", key, "` in ", label, "");
    let tail = cat3("; run `ci schema ", topic, "` for supported fields");
    proof {
        reveal_strlit("");
        assert(head@ =~= path@ + " has unknown key `"@ + key@ + "` in "@ + label@);
    }
    usage(cat2(head.as_str(), tail.as_str()))
}

/// Whether the keys of entries are accepted.
fn validate_keys(entries: &Vec<(String, &YamlTree)>, path: &str, label: &str, allowed: &[&str], topic: &str) -> (r:
    Result<(), CiError>)
    ensures
        unit_outcome(r) == match first_foreign(entry_views(entries@), slices(allowed@)) {
            Some(key) => Err(foreign_key_error(path@, key, label@, topic@)),
            None => Ok(()),
        },
{
    let ghost all = entry_views(entries@);
    let mut i: usize = 0;
    while i < entries.len()
        invariant
            i <= entries@.len(),
            all == entry_views(entries@),
            first_foreign(all.take(i as int), slices(allowed@)) is None,
        decreases entries.len() - i,
    {
        assert(all.take(i + 1).drop_last() =~= all.take(i as int));
        if !one_of(entries[i].0.as_str(), allowed) {
            proof {
                lemma_first_foreign_stays(all, slices(allowed@), i + 1);
            }
            return Err(foreign_key(path, entries[i].0.as_str(), label, topic));
        }
        i += 1;
    }
    assert(all.take(i as int) =~= all);
    Ok(())
}

proof fn lemma_first_foreign_stays(e: Seq<(Seq<char>, TreeView)>, allowed: Seq<Seq<char>>, n: int)
    requires
        0 <= n <= e.len(),
        first_foreign(e.take(n), allowed) is Some,
    ensures
        first_foreign(e, allowed) == first_foreign(e.take(n), allowed),
    decreases e.len(),
{
    if n == e.len() {
        assert(e.take(n) =~= e);
    } else {
        assert(e.drop_last().take(n) =~= e.take(n));
        lemma_first_foreign_stays(e.drop_last(), allowed, n);
    }
}

/// Whether a section holds accepted keys only.
pub fn validate_mapping(value: &YamlTree, path: &str, label: &str, allowed: &[&str], topic: &str) -> (r: Result<
    (),
    CiError,
>)
    ensures
        unit_outcome(r) == checked_section(value@, path@, label@, slices(allowed@), topic@),
{
    match mapping_entries(value, path, label) {
        Err(e) => Err(e),
        Ok(entries) => validate_keys(&entries, path, label, allowed, topic),
    }
}

/// The name of a section inside another one.
fn section_label(prefix: &str, name: &str) -> (r: String)
    ensures
        r@ == inner_label(prefix@, name@),
{
    if prefix.is_empty() {
        name.to_owned()
    } else {
        cat3(prefix, ".", name)
    }
}

fn container_key_list() -> (r: Vec<&'static str>)
    ensures
        slices(r@) == container_keys(),
{
    let out = vec![
        "type", "image", "platform", "workdir", "working-directory", "working_directory", "arch",
        "packages", "components", "env", "volumes",
    ];
    assert(slices(out@) =~= container_keys());
    out
}

fn branch_key_list() -> (r: Vec<&'static str>)
    ensures
        slices(r@) == branch_keys(),
{
    let out = vec!["allow", "only"];
    assert(slices(out@) =~= branch_keys());
    out
}

fn artifact_key_list() -> (r: Vec<&'static str>)
    ensures
        slices(r@) == artifact_keys(),
{
    let out = vec!["paths", "mode", "destination"];
    assert(slices(out@) =~= artifact_keys());
    out
}

fn execution_key_list() -> (r: Vec<&'static str>)
    ensures
        slices(r@) == execution_keys(),
{
    let out = vec!["workspace", "shell"];
    assert(slices(out@) =~= execution_keys());
    out
}

fn override_key_list() -> (r: Vec<&'static str>)
    ensures
        slices(r@) == override_keys(),
{
    let out = vec![
        "on", "tech", "type", "tech-stack", "tech_stack", "arch", "branches", "artifacts",
        "execution", "container", "env",
    ];
    assert(slices(out@) =~= override_keys());
    out
}

/// The keys of a workflow file.
pub fn workflow_key_list() -> (r: Vec<&'static str>)
    ensures
        slices(r@) == workflow_keys(),
{
    let out = vec![
        "name", "defaults", "on", "needs", "tech", "type", "tech-stack", "tech_stack", "arch",
        "branches", "artifacts", "execution", "container", "env", "steps",
    ];
    assert(slices(out@) =~= workflow_keys());
    out
}

fn default_key_list() -> (r: Vec<&'static str>)
    ensures
        slices(r@) == default_keys(),
{
    let out = vec![
        "shell", "quiet", "silent", "fail_fast", "fail-fast", "tech", "type", "tech-stack",
        "tech_stack", "arch", "container", "container_runtime", "container-runtime", "git_mode",
        "git-mode", "git_command", "git-command", "git_image", "git-image", "install_mode",
        "install-mode", "recursive_checkout", "recursive-checkout", "artifact_store",
        "artifact-store", "actions_cache", "actions-cache", "branches",
    ];
    assert(slices(out@) =~= default_keys());
    out
}

/// The keys of a configuration file.
pub fn config_key_list() -> (r: Vec<&'static str>)
    ensures
        slices(r@) == config_keys(),
{
    let mut out = default_key_list();
    out.push("defaults");
    out.push("hooks");
    out.push("workflows");
    out.push("actions");
    assert(slices(out@) =~= config_keys());
    out
}

fn actions_key_list() -> (r: Vec<&'static str>)
    ensures
        slices(r@) == actions_keys(),
{
    let out = vec!["node_image", "node-image"];
    assert(slices(out@) =~= actions_keys());
    out
}

/// The sections that may stand in workflows, overrides and defaults alike.
fn validate_common(key: &str, value: &YamlTree, path: &str, prefix: &str, topic: &str) -> (r: Result<(), CiError>)
    ensures
        unit_outcome(r) == checked_common(key@, value@, path@, prefix@, topic@),
{
    let label = section_label(prefix, key);
    if same(key, "branches") {
        validate_mapping(value, path, label.as_str(), branch_key_list().as_slice(), topic)
    } else if same(key, "artifacts") {
        validate_mapping(value, path, label.as_str(), artifact_key_list().as_slice(), topic)
    } else if same(key, "execution") {
        validate_mapping(value, path, label.as_str(), execution_key_list().as_slice(), topic)
    } else if same(key, "container") {
        validate_mapping(value, path, label.as_str(), container_key_list().as_slice(), topic)
    } else {
        Ok(())
    }
}

/// Whether a section with common sections in it is accepted.
pub fn validate_workflow_override_section(
    value: &YamlTree,
    path: &str,
    label: &str,
    allowed: &[&str],
    topic: &str,
) -> (r: Result<(), CiError>)
    ensures
        unit_outcome(r) == checked_block(value@, path@, label@, slices(allowed@), topic@),
{
    let entries = match mapping_entries(value, path, label) {
        Err(e) => return Err(e),
        Ok(entries) => entries,
    };
    match validate_keys(&entries, path, label, allowed, topic) {
        Err(e) => return Err(e),
        Ok(_) => {},
    }
    let ghost all = entry_views(entries@);
    let mut i: usize = 0;
    while i < entries.len()
        invariant
            i <= entries@.len(),
            all == entry_views(entries@),
            checked_entries(all.take(i as int), path@, label@, topic@) is Ok,
            section_entries(value@, path@, label@) == Ok::<_, ErrorView>(all),
            first_foreign(all, slices(allowed@)) is None,
        decreases entries.len() - i,
    {
        assert(all.take(i + 1).drop_last() =~= all.take(i as int));
        match validate_common(entries[i].0.as_str(), entries[i].1, path, label, topic) {
            Err(e) => {
                proof {
                    lemma_checked_entries_stays(all, path@, label@, topic@, i + 1);
                }
                return Err(e);
            },
            Ok(_) => {},
        }
        i += 1;
    }
    assert(all.take(i as int) =~= all);
    Ok(())
}

proof fn lemma_checked_entries_stays(
    e: Seq<(Seq<char>, TreeView)>,
    path: Seq<char>,
    prefix: Seq<char>,
    topic: Seq<char>,
    n: int,
)
    requires
        0 <= n <= e.len(),
        checked_entries(e.take(n), path, prefix, topic) is Err,
    ensures
        checked_entries(e, path, prefix, topic) == checked_entries(e.take(n), path, prefix, topic),
    decreases e.len(),
{
    if n == e.len() {
        assert(e.take(n) =~= e);
    } else {
        assert(e.drop_last().take(n) =~= e.take(n));
        lemma_checked_entries_stays(e.drop_last(), path, prefix, topic, n);
    }
}

/// Whether a workflow file holds accepted keys only.
pub fn validate_native_workflow_keys(value: &YamlTree, path: &str) -> (r: Result<(), CiError>)
    ensures
        unit_outcome(r) == checked_workflow(value@, path@),
{
    let entries = match mapping_entries(value, path, "workflow") {
        Err(e) => return Err(e),
        Ok(entries) => entries,
    };
    match validate_keys(&entries, path, "workflow", workflow_key_list().as_slice(), "workflow") {
        Err(e) => return Err(e),
        Ok(_) => {},
    }
    let ghost all = entry_views(entries@);
    let mut i: usize = 0;
    while i < entries.len()
        invariant
            i <= entries@.len(),
            all == entry_views(entries@),
            checked_workflow_entries(all.take(i as int), path@) is Ok,
            section_entries(value@, path@, "workflow"@) == Ok::<_, ErrorView>(all),
            first_foreign(all, workflow_keys()) is None,
        decreases entries.len() - i,
    {
        assert(all.take(i + 1).drop_last() =~= all.take(i as int));
        let key = entries[i].0.as_str();
        let checked = if same(key, "defaults") {
            validate_workflow_override_section(
                entries[i].1,
                path,
                key,
                override_key_list().as_slice(),
                "workflow",
            )
        } else {
            proof {
                reveal_strlit("");
                assert(""@ =~= Seq::<char>::empty());
            }
            validate_common(key, entries[i].1, path, "", "workflow")
        };
        match checked {
            Err(e) => {
                proof {
                    lemma_checked_workflow_stays(all, path@, i + 1);
                }
                return Err(e);
            },
            Ok(_) => {},
        }
        i += 1;
    }
    assert(all.take(i as int) =~= all);
    Ok(())
}

proof fn lemma_checked_workflow_stays(e: Seq<(Seq<char>, TreeView)>, path: Seq<char>, n: int)
    requires
        0 <= n <= e.len(),
        checked_workflow_entries(e.take(n), path) is Err,
    ensures
        checked_workflow_entries(e, path) == checked_workflow_entries(e.take(n), path),
    decreases e.len(),
{
    if n == e.len() {
        assert(e.take(n) =~= e);
    } else {
        assert(e.drop_last().take(n) =~= e.take(n));
        lemma_checked_workflow_stays(e.drop_last(), path, n);
    }
}

/// The named blocks of `hooks` or `workflows`.
fn validate_named_blocks(value: &YamlTree, path: &str, label: &str) -> (r: Result<(), CiError>)
    ensures
        unit_outcome(r) == match section_entries(value@, path@, label@) {
            Err(e) => Err::<(), ErrorView>(e),
            Ok(entries) => checked_named_blocks(entries, path@, label@),
        },
{
    let entries = match mapping_entries(value, path, label) {
        Err(e) => return Err(e),
        Ok(entries) => entries,
    };
    let ghost all = entry_views(entries@);
    let mut i: usize = 0;
    while i < entries.len()
        invariant
            i <= entries@.len(),
            all == entry_views(entries@),
            checked_named_blocks(all.take(i as int), path@, label@) is Ok,
            section_entries(value@, path@, label@) == Ok::<_, ErrorView>(all),
        decreases entries.len() - i,
    {
        assert(all.take(i + 1).drop_last() =~= all.take(i as int));
        let name = section_label(label, entries[i].0.as_str());
        match validate_workflow_override_section(
            entries[i].1,
            path,
            name.as_str(),
            override_key_list().as_slice(),
            "config",
        ) {
            Err(e) => {
                proof {
                    lemma_named_blocks_stays(all, path@, label@, i + 1);
                }
                return Err(e);
            },
            Ok(_) => {},
        }
        i += 1;
    }
    assert(all.take(i as int) =~= all);
    Ok(())
}

proof fn lemma_named_blocks_stays(e: Seq<(Seq<char>, TreeView)>, path: Seq<char>, label: Seq<char>, n: int)
    requires
        0 <= n <= e.len(),
        checked_named_blocks(e.take(n), path, label) is Err,
    ensures
        checked_named_blocks(e, path, label) == checked_named_blocks(e.take(n), path, label),
    decreases e.len(),
{
    if n == e.len() {
        assert(e.take(n) =~= e);
    } else {
        assert(e.drop_last().take(n) =~= e.take(n));
        lemma_named_blocks_stays(e.drop_last(), path, label, n);
    }
}

/// What is accepted under one key of a configuration file.
fn validate_config_entry(key: &str, value: &YamlTree, path: &str) -> (r: Result<(), CiError>)
    ensures
        unit_outcome(r) == checked_config_entry(key@, value@, path@),
{
    if same(key, "defaults") {
        validate_workflow_override_section(value, path, key, default_key_list().as_slice(), "config")
    } else if same(key, "hooks") || same(key, "workflows") {
        validate_named_blocks(value, path, key)
    } else if same(key, "actions") {
        validate_mapping(value, path, key, actions_key_list().as_slice(), "config")
    } else {
        proof {
            reveal_strlit("");
            assert(""@ =~= Seq::<char>::empty());
        }
        validate_common(key, value, path, "", "config")
    }
}

/// Whether a configuration file holds accepted keys only.
pub fn validate_config_keys(value: &YamlTree, path: &str) -> (r: Result<(), CiError>)
    ensures
        unit_outcome(r) == checked_config(value@, path@),
{
    let entries = match mapping_entries(value, path, "config") {
        Err(e) => return Err(e),
        Ok(entries) => entries,
    };
    match validate_keys(&entries, path, "config", config_key_list().as_slice(), "config") {
        Err(e) => return Err(e),
        Ok(_) => {},
    }
    let ghost all = entry_views(entries@);
    let mut i: usize = 0;
    while i < entries.len()
        invariant
            i <= entries@.len(),
            all == entry_views(entries@),
            checked_config_entries(all.take(i as int), path@) is Ok,
            section_entries(value@, path@, "config"@) == Ok::<_, ErrorView>(all),
            first_foreign(all, config_keys()) is None,
        decreases entries.len() - i,
    {
        assert(all.take(i + 1).drop_last() =~= all.take(i as int));
        match validate_config_entry(entries[i].0.as_str(), entries[i].1, path) {
            Err(e) => {
                proof {
                    lemma_checked_config_stays(all, path@, i + 1);
                }
                return Err(e);
            },
            Ok(_) => {},
        }
        i += 1;
    }
    assert(all.take(i as int) =~= all);
    Ok(())
}

proof fn lemma_checked_config_stays(e: Seq<(Seq<char>, TreeView)>, path: Seq<char>, n: int)
    requires
        0 <= n <= e.len(),
        checked_config_entries(e.take(n), path) is Err,
    ensures
        checked_config_entries(e, path) == checked_config_entries(e.take(n), path),
    decreases e.len(),
{
    if n == e.len() {
        assert(e.take(n) =~= e);
    } else {
        assert(e.drop_last().take(n) =~= e.take(n));
        lemma_checked_config_stays(e.drop_last(), path, n);
    }
}

/// Reads a workflow file and holds its keys to the accepted ones. A text that is no
/// YAML is a failure; its message is that of `serde_yaml`.
pub fn check_workflow_text(raw: &str, path: &str) -> (r: Result<(), CiError>)
    ensures
        match yaml_document(raw@) {
            Ok(doc) => unit_outcome(r) == checked_workflow(doc, path@),
            Err(text) => unit_outcome(r) == Err::<(), _>(ErrorView::Message(text)),
        },
{
    match parse_yaml(raw) {
        Ok(value) => validate_native_workflow_keys(&value, path),
        Err(text) => Err(message(text)),
    }
}

/// Reads a configuration file and holds its keys to the accepted ones. A text that is
/// no YAML is a failure; its message is that of `serde_yaml`.
pub fn check_config_text(raw: &str, path: &str) -> (r: Result<(), CiError>)
    ensures
        match yaml_document(raw@) {
            Ok(doc) => unit_outcome(r) == checked_config(doc, path@),
            Err(text) => unit_outcome(r) == Err::<(), _>(ErrorView::Message(text)),
        },
{
    match parse_yaml(raw) {
        Ok(value) => validate_config_keys(&value, path),
        Err(text) => Err(message(text)),
    }
}

/// A YAML value as it stands in a workflow file. A compound value stands by its YAML text.
pub enum YamlValue {
    Null,
    Bool(bool),
    Number(String),
    Text(String),
    Sequence(String),
    Mapping(String),
    Tagged(String),
}

/// A YAML value by its texts.
pub enum YamlView {
    Null,
    Bool(bool),
    Number(Seq<char>),
    Text(Seq<char>),
    Sequence(Seq<char>),
    Mapping(Seq<char>),
    Tagged(Seq<char>),
}

impl View for YamlValue {
    type V = YamlView;

    open spec fn view(&self) -> YamlView {
        match self {
            YamlValue::Null => YamlView::Null,
            YamlValue::Bool(b) => YamlView::Bool(*b),
            YamlValue::Number(n) => YamlView::Number(n@),
            YamlValue::Text(s) => YamlView::Text(s@),
            YamlValue::Sequence(t) => YamlView::Sequence(t@),
            YamlValue::Mapping(t) => YamlView::Mapping(t@),
            YamlValue::Tagged(t) => YamlView::Tagged(t@),
        }
    }
}

/// A value as one text: nothing for null, a word or a number as it is written, and for
/// a compound value its YAML text without blanks around it.
pub open spec fn stringified(v: YamlView) -> Seq<char> {
    match v {
        YamlView::Null => Seq::empty(),
        YamlView::Bool(b) => if b {
            "true"@
        } else {
            "false"@
        },
        YamlView::Number(n) => n,
        YamlView::Text(s) => s,
        YamlView::Sequence(t) => trimmed(t),
        YamlView::Mapping(t) => trimmed(t),
        YamlView::Tagged(t) => trimmed(t),
    }
}

/// A value as one text.
pub fn stringify_yaml_value(value: &YamlValue) -> (r: String)
    ensures
        r@ == stringified(value@),
{
    match value {
        YamlValue::Null => String::new(),
        YamlValue::Bool(b) => if *b {
            "true".to_owned()
        } else {
            "false".to_owned()
        },
        YamlValue::Number(n) => n.clone(),
        YamlValue::Text(s) => s.clone(),
        YamlValue::Sequence(t) => trim(t.as_str()).to_owned(),
        YamlValue::Mapping(t) => trim(t.as_str()).to_owned(),
        YamlValue::Tagged(t) => trim(t.as_str()).to_owned(),
    }
}

/// The values of a map as texts.
pub open spec fn stringified_map(m: Map<Seq<char>, YamlView>) -> Map<Seq<char>, Seq<char>> {
    m.map_values(|v: YamlView| stringified(v))
}

/// The values of a map as texts.
pub fn stringify_yaml_map(map: &NameMap<YamlValue>) -> (r: StringMap)
    ensures
        r@ == stringified_map(map@),
{
    let mut out = StringMap::new();
    let mut i: usize = 0;
    while i < map.len()
        invariant
            i <= map.names().len(),
            forall|k: Seq<char>| #[trigger] out@.contains_key(k) <==> map.names().take(i as int).contains(k),
            forall|k: Seq<char>| #[trigger] out@.contains_key(k) ==> map@.contains_key(k) && out@[k]
                == stringified(map@[k]),
        decreases map.names().len() - i,
    {
        let ghost before = out@;
        let ghost names = map.names();
        let name = map.name_at(i).to_owned();
        let value = stringify_yaml_value(map.value_at(i));
        let ghost k0 = name@;
        out.insert(name, value);
        proof {
            assert forall|k: Seq<char>| #[trigger] out@.contains_key(k) <==> names.take(i + 1).contains(k) by {
                lemma_contains_push(names.take(i as int), k0, k);
            }
        }
        i += 1;
    }
    proof {
        let names = map.names();
        assert(names.take(i as int) =~= names);
        assert forall|k: Seq<char>| out@.contains_key(k) == map@.contains_key(k) by {
            law_names_are_the_domain(map, k);
        }
        assert(out@ =~= stringified_map(map@));
    }
    out
}

/// What a longer list holds.
pub proof fn lemma_contains_push<A>(s: Seq<A>, x: A, y: A)
    ensures
        s.push(x).contains(y) == (s.contains(y) || x == y),
{
    if s.contains(y) {
        let i = choose|i: int| 0 <= i < s.len() && s[i] == y;
        assert(s.push(x)[i] == y);
    }
    assert(s.push(x)[s.len() as int] == x);
}

/// A workflow file with a key of its own that is not accepted is refused, as wrong use.
pub proof fn law_unknown_top_level_key_is_refused(v: TreeView, path: Seq<char>, entries: Seq<(Seq<char>, TreeView)>, i: int)
    requires
        section_entries(v, path, "workflow"@) == Ok::<_, ErrorView>(entries),
        0 <= i < entries.len(),
        !workflow_keys().contains(entries[i].0),
    ensures
        checked_workflow(v, path) is Err,
        checked_workflow(v, path)->Err_0.code() == 2,
{
    lemma_foreign_is_found(entries, workflow_keys(), i);
}

proof fn lemma_foreign_is_found(e: Seq<(Seq<char>, TreeView)>, allowed: Seq<Seq<char>>, i: int)
    requires
        0 <= i < e.len(),
        !allowed.contains(e[i].0),
    ensures
        first_foreign(e, allowed) is Some,
    decreases e.len(),
{
    if i < e.len() - 1 {
        lemma_foreign_is_found(e.drop_last(), allowed, i);
    }
}

/// What may be set for a workflow may be set in its file, and besides its name, its needs,
/// its steps and its defaults; a name of two words may be written with `-` or `_`. The defaults may
/// stand at the top of the configuration or in a section of their own.
pub proof fn law_keys_that_are_known(key: Seq<char>)
    ensures
        override_keys().contains(key) ==> workflow_keys().contains(key),
        workflow_keys().contains(key) ==> override_keys().contains(key) || key == "name"@ || key == "defaults"@ || key == "needs"@
            || key == "steps"@,
        default_keys().contains(key) ==> config_keys().contains(key),
        config_keys().contains(key) ==> default_keys().contains(key) || key == "defaults"@ || key == "hooks"@ || key
            == "workflows"@ || key == "actions"@,
        config_keys().contains("defaults"@),
        config_keys().contains("hooks"@),
        config_keys().contains("workflows"@),
        config_keys().contains("actions"@),
        workflow_keys().contains("name"@),
        workflow_keys().contains("defaults"@),
        workflow_keys().contains("on"@),
        workflow_keys().contains("needs"@),
        workflow_keys().contains("tech"@),
        workflow_keys().contains("type"@),
        workflow_keys().contains("tech-stack"@),
        workflow_keys().contains("tech_stack"@),
        workflow_keys().contains("arch"@),
        workflow_keys().contains("branches"@),
        workflow_keys().contains("artifacts"@),
        workflow_keys().contains("execution"@),
        workflow_keys().contains("container"@),
        workflow_keys().contains("env"@),
        workflow_keys().contains("steps"@),
        override_keys().contains("on"@),
        override_keys().contains("tech"@),
        override_keys().contains("type"@),
        override_keys().contains("tech-stack"@),
        override_keys().contains("tech_stack"@),
        override_keys().contains("arch"@),
        override_keys().contains("branches"@),
        override_keys().contains("artifacts"@),
        override_keys().contains("execution"@),
        override_keys().contains("container"@),
        override_keys().contains("env"@),
        container_keys().contains("type"@),
        container_keys().contains("image"@),
        container_keys().contains("platform"@),
        container_keys().contains("workdir"@),
        container_keys().contains("working-directory"@),
        container_keys().contains("working_directory"@),
        container_keys().contains("arch"@),
        container_keys().contains("packages"@),
        container_keys().contains("components"@),
        container_keys().contains("env"@),
        container_keys().contains("volumes"@),
        default_keys().contains("shell"@),
        default_keys().contains("quiet"@),
        default_keys().contains("silent"@),
        default_keys().contains("fail_fast"@),
        default_keys().contains("fail-fast"@),
        default_keys().contains("tech"@),
        default_keys().contains("type"@),
        default_keys().contains("tech-stack"@),
        default_keys().contains("tech_stack"@),
        default_keys().contains("arch"@),
        default_keys().contains("container"@),
        default_keys().contains("container_runtime"@),
        default_keys().contains("container-runtime"@),
        default_keys().contains("git_mode"@),
        default_keys().contains("git-mode"@),
        default_keys().contains("git_command"@),
        default_keys().contains("git-command"@),
        default_keys().contains("git_image"@),
        default_keys().contains("git-image"@),
        default_keys().contains("install_mode"@),
        default_keys().contains("install-mode"@),
        default_keys().contains("recursive_checkout"@),
        default_keys().contains("recursive-checkout"@),
        default_keys().contains("artifact_store"@),
        default_keys().contains("artifact-store"@),
        default_keys().contains("actions_cache"@),
        default_keys().contains("actions-cache"@),
        default_keys().contains("branches"@),
        branch_keys().contains("allow"@),
        branch_keys().contains("only"@),
        artifact_keys().contains("paths"@),
        artifact_keys().contains("mode"@),
        artifact_keys().contains("destination"@),
        execution_keys().contains("workspace"@),
        execution_keys().contains("shell"@),
        actions_keys().contains("node_image"@),
        actions_keys().contains("node-image"@),
{
    assert(workflow_keys()[0] == "name"@);
    assert(workflow_keys()[1] == "defaults"@);
    assert(workflow_keys()[2] == "on"@);
    assert(workflow_keys()[3] == "needs"@);
    assert(workflow_keys()[4] == "tech"@);
    assert(workflow_keys()[5] == "type"@);
    assert(workflow_keys()[6] == "tech-stack"@);
    assert(workflow_keys()[7] == "tech_stack"@);
    assert(workflow_keys()[8] == "arch"@);
    assert(workflow_keys()[9] == "branches"@);
    assert(workflow_keys()[10] == "artifacts"@);
    assert(workflow_keys()[11] == "execution"@);
    assert(workflow_keys()[12] == "container"@);
    assert(workflow_keys()[13] == "env"@);
    assert(workflow_keys()[14] == "steps"@);
    assert(override_keys()[0] == "on"@);
    assert(override_keys()[1] == "tech"@);
    assert(override_keys()[2] == "type"@);
    assert(override_keys()[3] == "tech-stack"@);
    assert(override_keys()[4] == "tech_stack"@);
    assert(override_keys()[5] == "arch"@);
    assert(override_keys()[6] == "branches"@);
    assert(override_keys()[7] == "artifacts"@);
    assert(override_keys()[8] == "execution"@);
    assert(override_keys()[9] == "container"@);
    assert(override_keys()[10] == "env"@);
    assert(container_keys()[0] == "type"@);
    assert(container_keys()[1] == "image"@);
    assert(container_keys()[2] == "platform"@);
    assert(container_keys()[3] == "workdir"@);
    assert(container_keys()[4] == "working-directory"@);
    assert(container_keys()[5] == "working_directory"@);
    assert(container_keys()[6] == "arch"@);
    assert(container_keys()[7] == "packages"@);
    assert(container_keys()[8] == "components"@);
    assert(container_keys()[9] == "env"@);
    assert(container_keys()[10] == "volumes"@);
    assert(default_keys()[0] == "shell"@);
    assert(default_keys()[1] == "quiet"@);
    assert(default_keys()[2] == "silent"@);
    assert(default_keys()[3] == "fail_fast"@);
    assert(default_keys()[4] == "fail-fast"@);
    assert(default_keys()[5] == "tech"@);
    assert(default_keys()[6] == "type"@);
    assert(default_keys()[7] == "tech-stack"@);
    assert(default_keys()[8] == "tech_stack"@);
    assert(default_keys()[9] == "arch"@);
    assert(default_keys()[10] == "container"@);
    assert(default_keys()[11] == "container_runtime"@);
    assert(default_keys()[12] == "container-runtime"@);
    assert(default_keys()[13] == "git_mode"@);
    assert(default_keys()[14] == "git-mode"@);
    assert(default_keys()[15] == "git_command"@);
    assert(default_keys()[16] == "git-command"@);
    assert(default_keys()[17] == "git_image"@);
    assert(default_keys()[18] == "git-image"@);
    assert(default_keys()[19] == "install_mode"@);
    assert(default_keys()[20] == "install-mode"@);
    assert(default_keys()[21] == "recursive_checkout"@);
    assert(default_keys()[22] == "recursive-checkout"@);
    assert(default_keys()[23] == "artifact_store"@);
    assert(default_keys()[24] == "artifact-store"@);
    assert(default_keys()[25] == "actions_cache"@);
    assert(default_keys()[26] == "actions-cache"@);
    assert(default_keys()[27] == "branches"@);
    assert(branch_keys()[0] == "allow"@);
    assert(branch_keys()[1] == "only"@);
    assert(artifact_keys()[0] == "paths"@);
    assert(artifact_keys()[1] == "mode"@);
    assert(artifact_keys()[2] == "destination"@);
    assert(execution_keys()[0] == "workspace"@);
    assert(execution_keys()[1] == "shell"@);
    assert(actions_keys()[0] == "node_image"@);
    assert(actions_keys()[1] == "node-image"@);
    assert(config_keys()[28] == "defaults"@);
    assert(config_keys()[29] == "hooks"@);
    assert(config_keys()[30] == "workflows"@);
    assert(config_keys()[31] == "actions"@);
    if override_keys().contains(key) {
        let k = choose|k: int| 0 <= k < override_keys().len() && override_keys()[k] == key;
        assert(0 <= k < 11);
    }
    if default_keys().contains(key) {
        let k = choose|k: int| 0 <= k < default_keys().len() && default_keys()[k] == key;
        assert(config_keys()[k] == key);
    }
    if config_keys().contains(key) {
        let k = choose|k: int| 0 <= k < config_keys().len() && config_keys()[k] == key;
        if k < default_keys().len() {
            assert(default_keys()[k] == key);
        }
    }
}

/// A section is refused for its first key that is not known there, and accepted where every
/// key is.
pub proof fn law_the_first_foreign_key(e: Seq<(Seq<char>, TreeView)>, allowed: Seq<Seq<char>>, i: int)
    requires
        0 <= i <= e.len(),
        forall|k: int| 0 <= k < i ==> allowed.contains((#[trigger] e[k]).0),
    ensures
        i == e.len() ==> first_foreign(e, allowed) is None,
        i < e.len() && !allowed.contains(e[i].0) ==> first_foreign(e, allowed) == Some(e[i].0),
    decreases e.len(),
{
    if e.len() > 0 {
        let head = e.drop_last();
        let n = e.len() - 1;
        if i < n {
            assert(head[i] == e[i]);
            assert forall|k: int| 0 <= k < i implies allowed.contains((#[trigger] head[k]).0) by {
                assert(head[k] == e[k]);
            }
            law_the_first_foreign_key(head, allowed, i);
        } else {
            assert forall|k: int| 0 <= k < n implies allowed.contains((#[trigger] head[k]).0) by {
                assert(head[k] == e[k]);
            }
            law_the_first_foreign_key(head, allowed, n);
            if i == e.len() {
                assert(allowed.contains(e[n].0));
            }
        }
    }
}

/// A section of a workflow or of the configuration may hold its own keys and no others.
pub proof fn law_sections_hold_their_own_keys(
    key: Seq<char>,
    v: TreeView,
    path: Seq<char>,
    prefix: Seq<char>,
    topic: Seq<char>,
    e: Seq<(Seq<char>, TreeView)>,
    i: int,
)
    requires
        0 <= i < e.len(),
        section_entries(v, path, inner_label(prefix, key)) == Ok::<_, ErrorView>(e),
    ensures
        ({
            let checked = checked_common(key, v, path, prefix, topic);
            let inner = e[i].0;
            &&& key == "branches"@ && !branch_keys().contains(inner) ==> checked is Err
            &&& key == "artifacts"@ && !artifact_keys().contains(inner) ==> checked is Err
            &&& key == "execution"@ && !execution_keys().contains(inner) ==> checked is Err
            &&& key == "container"@ && !container_keys().contains(inner) ==> checked is Err
            &&& key == "container"@ && (forall|k: int| 0 <= k < e.len() ==> container_keys().contains((#[trigger] e[k]).0))
                ==> checked is Ok
            &&& key == "branches"@ && (forall|k: int| 0 <= k < e.len() ==> branch_keys().contains((#[trigger] e[k]).0))
                ==> checked is Ok
            &&& key == "artifacts"@ && (forall|k: int| 0 <= k < e.len() ==> artifact_keys().contains((#[trigger] e[k]).0))
                ==> checked is Ok
            &&& key == "execution"@ && (forall|k: int| 0 <= k < e.len() ==> execution_keys().contains((#[trigger] e[k]).0))
                ==> checked is Ok
            &&& key != "branches"@ && key != "artifacts"@ && key != "execution"@ && key != "container"@ ==> checked is Ok
        }),
{
    reveal_strlit("branches");
    reveal_strlit("artifacts");
    reveal_strlit("execution");
    reveal_strlit("container");
    assert("artifacts"@.len() != "branches"@.len());
    assert("execution"@.len() != "branches"@.len());
    assert("execution"@[0] != "artifacts"@[0]);
    assert("container"@.len() != "branches"@.len());
    assert("container"@[0] != "artifacts"@[0]);
    assert("container"@[0] != "execution"@[0]);
    lemma_foreign_found(e, branch_keys(), i);
    lemma_foreign_found(e, artifact_keys(), i);
    lemma_foreign_found(e, execution_keys(), i);
    lemma_foreign_found(e, container_keys(), i);
}

proof fn lemma_foreign_found(e: Seq<(Seq<char>, TreeView)>, allowed: Seq<Seq<char>>, i: int)
    requires
        0 <= i < e.len(),
    ensures
        !allowed.contains(e[i].0) ==> first_foreign(e, allowed) is Some,
        (forall|k: int| 0 <= k < e.len() ==> allowed.contains((#[trigger] e[k]).0)) ==> first_foreign(e, allowed) is None,
    decreases e.len(),
{
    if !allowed.contains(e[i].0) && i < e.len() - 1 {
        assert(e.drop_last()[i] == e[i]);
        lemma_foreign_found(e.drop_last(), allowed, i);
    }
    if forall|k: int| 0 <= k < e.len() ==> allowed.contains((#[trigger] e[k]).0) {
        law_the_first_foreign_key(e, allowed, e.len() as int);
    }
}

/// A file is refused for a fault in any of its sections, and accepted where every section is
/// in order.
pub proof fn law_every_section_is_checked(e: Seq<(Seq<char>, TreeView)>, path: Seq<char>, i: int)
    requires
        0 <= i < e.len(),
    ensures
        checked_workflow_entry(e[i].0, e[i].1, path) is Err ==> checked_workflow_entries(e, path) is Err,
        checked_config_entry(e[i].0, e[i].1, path) is Err ==> checked_config_entries(e, path) is Err,
        (forall|k: int| 0 <= k < e.len() ==> checked_workflow_entry((#[trigger] e[k]).0, e[k].1, path) is Ok)
            ==> checked_workflow_entries(e, path) is Ok,
        (forall|k: int| 0 <= k < e.len() ==> checked_config_entry((#[trigger] e[k]).0, e[k].1, path) is Ok)
            ==> checked_config_entries(e, path) is Ok,
    decreases e.len(),
{
    let head = e.drop_last();
    let n = e.len() - 1;
    if i < n {
        assert(head[i] == e[i]);
        law_every_section_is_checked(head, path, i);
    }
    if forall|k: int| 0 <= k < e.len() ==> checked_workflow_entry((#[trigger] e[k]).0, e[k].1, path) is Ok {
        assert(checked_workflow_entry(e[n].0, e[n].1, path) is Ok);
        assert forall|k: int| 0 <= k < head.len() implies checked_workflow_entry((#[trigger] head[k]).0, head[k].1, path) is Ok by {
            assert(head[k] == e[k]);
        }
        if head.len() > 0 {
            law_every_section_is_checked(head, path, 0);
        }
    }
    if forall|k: int| 0 <= k < e.len() ==> checked_config_entry((#[trigger] e[k]).0, e[k].1, path) is Ok {
        assert(checked_config_entry(e[n].0, e[n].1, path) is Ok);
        assert forall|k: int| 0 <= k < head.len() implies checked_config_entry((#[trigger] head[k]).0, head[k].1, path) is Ok by {
            assert(head[k] == e[k]);
        }
        if head.len() > 0 {
            law_every_section_is_checked(head, path, 0);
        }
    }
}

/// A value becomes text as it is written: numbers and texts stay, and nothing becomes the
/// empty text.
pub proof fn law_values_become_text(s: Seq<char>, m: Map<Seq<char>, YamlView>, key: Seq<char>)
    ensures
        stringified(YamlView::Text(s)) == s && stringified(YamlView::Number(s)) == s,
        stringified(YamlView::Bool(true)) == "true"@ && stringified(YamlView::Bool(false)) == "false"@,
        stringified(YamlView::Null).len() == 0,
        stringified(YamlView::Sequence(s)) == trimmed(s) && stringified(YamlView::Mapping(s)) == trimmed(s),
        m.contains_key(key) ==> stringified_map(m)[key] == stringified(m[key]),
        stringified_map(m).contains_key(key) == m.contains_key(key),
{
}

/// The name of a section inside another one begins with the name of that one.
pub proof fn law_names_of_inner_sections(prefix: Seq<char>, name: Seq<char>)
    ensures
        inner_label(Seq::empty(), name) == name,
        prefix.len() > 0 ==> inner_label(prefix, name) == prefix + "."@ + name,
{
}

/// The defaults of a workflow hold what may be set for one, the defaults of the configuration what
/// may be set there, and the section on actions its own keys; anything else is refused.
pub proof fn law_defaults_hold_what_may_be_set(v: TreeView, path: Seq<char>, e: Seq<(Seq<char>, TreeView)>, i: int)
    requires
        0 <= i < e.len(),
    ensures
        section_entries(v, path, "defaults"@) == Ok::<_, ErrorView>(e) && !override_keys().contains(e[i].0)
            ==> checked_workflow_entry("defaults"@, v, path) is Err,
        section_entries(v, path, "defaults"@) == Ok::<_, ErrorView>(e) && !default_keys().contains(e[i].0)
            ==> checked_config_entry("defaults"@, v, path) is Err,
        section_entries(v, path, "actions"@) == Ok::<_, ErrorView>(e) && !actions_keys().contains(e[i].0)
            ==> checked_config_entry("actions"@, v, path) is Err,
        section_entries(v, path, "actions"@) == Ok::<_, ErrorView>(e) && (forall|k: int|
            0 <= k < e.len() ==> actions_keys().contains((#[trigger] e[k]).0)) ==> checked_config_entry("actions"@, v, path) is Ok,
        section_entries(v, path, "defaults"@) is Err ==> checked_config_entry("defaults"@, v, path) is Err
            && checked_workflow_entry("defaults"@, v, path) is Err,
{
    reveal_strlit("defaults");
    reveal_strlit("actions");
    reveal_strlit("hooks");
    reveal_strlit("workflows");
    assert("actions"@.len() != "defaults"@.len());
    assert("hooks"@.len() != "defaults"@.len());
    assert("hooks"@.len() != "actions"@.len());
    assert("workflows"@.len() != "defaults"@.len());
    assert("workflows"@.len() != "actions"@.len());
    assert("workflows"@.len() != "hooks"@.len());
    lemma_foreign_found(e, override_keys(), i);
    lemma_foreign_found(e, default_keys(), i);
    lemma_foreign_found(e, actions_keys(), i);
}

/// Below `hooks` and `workflows` every block is checked as the settings of a workflow.
pub proof fn law_every_named_block_is_checked(e: Seq<(Seq<char>, TreeView)>, path: Seq<char>, label: Seq<char>, i: int)
    requires
        0 <= i < e.len(),
    ensures
        checked_block(e[i].1, path, inner_label(label, e[i].0), override_keys(), "config"@) is Err ==> checked_named_blocks(
            e,
            path,
            label,
        ) is Err,
    decreases e.len(),
{
    if i < e.len() - 1 {
        assert(e.drop_last()[i] == e[i]);
        law_every_named_block_is_checked(e.drop_last(), path, label, i);
    }
}

/// The sections `hooks` and `workflows` are checked block by block.
pub proof fn law_hooks_and_workflows_are_checked(v: TreeView, path: Seq<char>, key: Seq<char>, e: Seq<(Seq<char>, TreeView)>, i: int)
    requires
        key == "hooks"@ || key == "workflows"@,
        section_entries(v, path, key) == Ok::<_, ErrorView>(e),
        0 <= i < e.len(),
        checked_block(e[i].1, path, inner_label(key, e[i].0), override_keys(), "config"@) is Err,
    ensures
        checked_config_entry(key, v, path) is Err,
{
    reveal_strlit("defaults");
    reveal_strlit("hooks");
    reveal_strlit("workflows");
    assert("hooks"@.len() != "defaults"@.len());
    assert("workflows"@.len() != "defaults"@.len());
    assert("workflows"@.len() != "hooks"@.len());
    law_every_named_block_is_checked(e, path, key, i);
}

/// A key that is not known is wrong use; the message begins with the file, names the key, and
/// says which schema lists the keys.
pub proof fn law_what_is_said_of_a_foreign_key(v: TreeView, path: Seq<char>, e: Seq<(Seq<char>, TreeView)>, key: Seq<char>)
    ensures
        section_entries(v, path, "workflow"@) == Ok::<_, ErrorView>(e) && first_foreign(e, workflow_keys()) == Some(key) ==> (
        checked_workflow(v, path) matches Err(ErrorView::Usage(text)) && path.is_prefix_of(text) && has_text(
            text,
            "`"@ + key + "`"@,
        ) && has_text(text, "`ci schema workflow`"@)),
        section_entries(v, path, "config"@) == Ok::<_, ErrorView>(e) && first_foreign(e, config_keys()) == Some(key) ==> (
        checked_config(v, path) matches Err(ErrorView::Usage(text)) && path.is_prefix_of(text) && has_text(
            text,
            "`"@ + key + "`"@,
        ) && has_text(text, "`ci schema config`"@)),
{
    lemma_foreign_text(path, key, "workflow"@, "workflow"@, "`ci schema workflow`"@);
    lemma_foreign_text(path, key, "config"@, "config"@, "`ci schema config`"@);
}

proof fn lemma_foreign_text(path: Seq<char>, key: Seq<char>, label: Seq<char>, topic: Seq<char>, hint: Seq<char>)
    requires
        (topic == "workflow"@ && hint == "`ci schema workflow`"@) || (topic == "config"@ && hint == "`ci schema config`"@),
    ensures
        foreign_key_error(path, key, label, topic) matches ErrorView::Usage(text) && path.is_prefix_of(text) && has_text(
            text,
            "`"@ + key + "`"@,
        ) && has_text(text, hint),
{
    reveal_strlit("workflow");
    reveal_strlit("config");
    reveal_strlit("`ci schema workflow`");
    reveal_strlit("`ci schema config`");
    reveal_strlit(" has unknown key `");
    reveal_strlit("` in ");
    reveal_strlit("; run `ci schema ");
    reveal_strlit("` for supported fields");
    reveal_strlit("`");
    let a = path + " has unknown key `"@;
    let tail = "; run `ci schema "@ + topic + "` for supported fields"@;
    let text = a + key + "` in "@ + label + tail;
    assert(foreign_key_error(path, key, label, topic) == ErrorView::Usage(text));
    assert(path =~= text.subrange(0, path.len() as int));
    let mark = "`"@ + key + "`"@;
    let at = a.len() - 1;
    assert(text.subrange(at, at + mark.len()) =~= mark);
    assert(occurs_at(text, mark, at));
    let from = a.len() + key.len() + "` in "@.len() + label.len() + 6;
    assert(hint.len() == 12 + topic.len());
    assert(text.subrange(from as int, (from + hint.len()) as int) =~= hint);
    assert(occurs_at(text, hint, from as int));
}

} // verus!
