//! The containers that workflows run in: their images, names, caches and commands.

use crate::buildargs::step_views;
use crate::conditions::lemma_single_piece;
use crate::config::{
    ContainerConfig, ContainerRuntime, ContainerType, ContainerView, or_else, over, pick,
    stack_named,
};
use crate::depend::Node;
use crate::environ::ContainerOverride;
use crate::error::{CiError, ErrorView, message, outcome, unit_outcome, usage};
use crate::files::list_outcome;
use crate::hooks::{add_distinct, lemma_add_distinct};
use crate::paths::{absolute, join_path, joined, lemma_split_concat};
use crate::schema::{lemma_join_holds, lemma_within};
use crate::strings::{
    cat2, cat3, cat5, char_is_alnum, char_is_space, chars_of, join, list_has, same, split_char,
    trim, trim_start_char,
};
use crate::text::{
    before_first, has_text, is_alnum, is_space, join_of, law_trim_idempotent, lemma_first_index,
    lemma_split_by_concat, lemma_take_push, lemma_texts_push, lemma_trimmed_whole, occurs_at,
    opt_slice, opt_text, slices, split_at_char, split_by, strip_leading, texts, trimmed,
};
use crate::workflow::{NativeStep, StepView};
use vstd::prelude::*;
use vstd::string::*;

verus! {

broadcast use {lemma_texts_push, lemma_take_push};

/// A text as part of a name: letters, digits, `-`, `_` and `.`; every other character
/// stands as `-`.
pub open spec fn tag_text(s: Seq<char>) -> Seq<char> {
    s.map_values(
        |c: char|
            if is_alnum(c) || c == '-' || c == '_' || c == '.' {
                c
            } else {
                '-'
            },
    )
}

/// A text as part of a name.
pub fn sanitize_tag(name: &str) -> (r: String)
    ensures
        r@ == tag_text(name@),
{
    let v = chars_of(name);
    let mut out = String::new();
    let mut i: usize = 0;
    while i < v.len()
        invariant
            i <= v@.len(),
            v@ == name@,
            out@ == tag_text(name@).take(i as int),
        decreases v.len() - i,
    {
        let c = v[i];
        out.push(if char_is_alnum(c) || c == '-' || c == '_' || c == '.' { c } else { '-' });
        i += 1;
    }
    assert(tag_text(name@).take(i as int) =~= tag_text(name@));
    out
}

/// The image that is made for a workflow on a platform.
pub open spec fn image_name(workflow: Seq<char>, platform: Seq<char>) -> Seq<char> {
    "localhost/ci-"@ + tag_text(workflow) + "-"@ + tag_text(platform) + ":latest"@
}

/// The image that is made for a workflow on a platform.
pub fn generated_native_container_image_name(workflow: &str, platform: &str) -> (r: String)
    ensures
        r@ == image_name(workflow@, platform@),
{
    let w = sanitize_tag(workflow);
    let p = sanitize_tag(platform);
    cat5("localhost/ci-", w.as_str(), "-", p.as_str(), ":latest")
}

/// Texts in single quotes, with spaces between them.
pub open spec fn in_quotes(items: Seq<Seq<char>>) -> Seq<char> {
    join_of(items.map_values(|s: Seq<char>| "'"@ + s + "'"@), " "@)
}

fn quote_all(items: &[String]) -> (r: String)
    ensures
        r@ == in_quotes(texts(items@)),
{
    let ghost all = texts(items@).map_values(|s: Seq<char>| "'"@ + s + "'"@);
    let mut out: Vec<String> = Vec::new();
    let mut i: usize = 0;
    assert(texts(out@) =~= all.take(0));
    while i < items.len()
        invariant
            i <= items@.len(),
            all == texts(items@).map_values(|s: Seq<char>| "'"@ + s + "'"@),
            texts(out@) == all.take(i as int),
        decreases items.len() - i,
    {
        assert(all[i as int] == "'"@ + items@[i as int]@ + "'"@);
        out.push(cat3("'", items[i].as_str(), "'"));
        i += 1;
    }
    assert(all.take(i as int) =~= all);
    join(out.as_slice(), " ")
}

/// The line that adds toolchain components.
pub open spec fn components_line(components: Seq<Seq<char>>) -> Seq<char> {
    if components.len() == 0 {
        Seq::empty()
    } else {
        "RUN rustup component add "@ + in_quotes(components) + "\n"@
    }
}

/// The line that adds packages.
pub open spec fn packages_line(packages: Seq<Seq<char>>) -> Seq<char> {
    if packages.len() == 0 {
        Seq::empty()
    } else {
        "RUN apt-get update && apt-get install -y --no-install-recommends "@ + in_quotes(packages)
            + " && rm -rf /var/lib/apt/lists/*\n"@
    }
}

/// The description of an image: the base, then the components, then the packages.
pub open spec fn containerfile(base: Seq<char>, packages: Seq<Seq<char>>, components: Seq<Seq<char>>) -> Seq<char> {
    "FROM "@ + base + "\n"@ + components_line(components) + packages_line(packages)
}

/// The description of an image.
pub fn generated_native_containerfile(base: &str, packages: &[String], components: &[String]) -> (r: String)
    ensures
        r@ == containerfile(base@, texts(packages@), texts(components@)),
{
    let mut out = cat3("FROM ", base, "\n");
    assert(texts(components@).len() == components@.len());
    assert(texts(packages@).len() == packages@.len());
    let ghost head = out@;
    if components.len() > 0 {
        let line = cat3("RUN rustup component add ", quote_all(components).as_str(), "\n");
        out.push_str(line.as_str());
    }
    assert(out@ =~= head + components_line(texts(components@)));
    let ghost middle = out@;
    if packages.len() > 0 {
        let line = cat3(
            "RUN apt-get update && apt-get install -y --no-install-recommends ",
            quote_all(packages).as_str(),
            " && rm -rf /var/lib/apt/lists/*\n",
        );
        out.push_str(line.as_str());
    }
    assert(out@ =~= middle + packages_line(texts(packages@)));
    out
}

/// A character that may stand in the name of a package or a component.
pub open spec fn package_char(c: char) -> bool {
    is_alnum(c) || c == '-' || c == '_' || c == '.' || c == '+' || c == ':'
}

/// Whether a text is the name of a package or a component.
pub open spec fn package_name(s: Seq<char>) -> bool {
    s.len() > 0 && s[0] != '-' && forall|i: int| 0 <= i < s.len() ==> package_char(#[trigger] s[i])
}

fn is_package_name(s: &str) -> (r: bool)
    ensures
        r == package_name(s@),
{
    let v = chars_of(s);
    if v.len() == 0 || v[0] == '-' {
        return false;
    }
    let mut i: usize = 0;
    while i < v.len()
        invariant
            i <= v@.len(),
            v@ == s@,
            forall|j: int| 0 <= j < i ==> package_char(#[trigger] s@[j]),
        decreases v.len() - i,
    {
        let c = v[i];
        if !(char_is_alnum(c) || c == '-' || c == '_' || c == '.' || c == '+' || c == ':') {
            assert(!package_char(s@[i as int]));
            return false;
        }
        i += 1;
    }
    true
}

/// The first of the texts that is no name of a package.
pub open spec fn first_bad_package(items: Seq<Seq<char>>) -> Option<Seq<char>>
    decreases items.len(),
{
    if items.len() == 0 {
        None
    } else if first_bad_package(items.drop_last()) is Some {
        first_bad_package(items.drop_last())
    } else if package_name(items.last()) {
        None
    } else {
        Some(items.last())
    }
}

proof fn lemma_bad_package_stays(items: Seq<Seq<char>>, n: int)
    requires
        0 <= n <= items.len(),
        first_bad_package(items.take(n)) is Some,
    ensures
        first_bad_package(items) == first_bad_package(items.take(n)),
    decreases items.len(),
{
    if n == items.len() {
        assert(items.take(n) =~= items);
    } else {
        assert(items.drop_last().take(n) =~= items.take(n));
        lemma_bad_package_stays(items.drop_last(), n);
    }
}

/// Whether every package has the name of one, and the complaint where one has not.
pub open spec fn checked_packages(packages: Seq<Seq<char>>) -> Result<(), ErrorView> {
    match first_bad_package(packages) {
        Some(p) => Err(ErrorView::Usage("invalid container package `"@ + p + "`"@)),
        None => Ok(()),
    }
}

/// Whether every package has the name of one.
pub fn validate_container_packages(packages: &[String]) -> (r: Result<(), CiError>)
    ensures
        unit_outcome(r) == checked_packages(texts(packages@)),
{
    let ghost all = texts(packages@);
    let mut i: usize = 0;
    while i < packages.len()
        invariant
            i <= packages@.len(),
            all == texts(packages@),
            first_bad_package(all.take(i as int)) is None,
        decreases packages.len() - i,
    {
        assert(all.take(i + 1).drop_last() =~= all.take(i as int));
        if !is_package_name(packages[i].as_str()) {
            proof {
                lemma_bad_package_stays(all, i + 1);
            }
            return Err(usage(cat3("invalid container package `", packages[i].as_str(), "`")));
        }
        i += 1;
    }
    assert(all.take(i as int) =~= all);
    Ok(())
}

/// The component that a name or the command that it brings stands for.
pub open spec fn component_named(s: Seq<char>) -> Seq<char> {
    let t = trimmed(s);
    if t == "cargo-fmt"@ {
        "rustfmt"@
    } else if t == "cargo-clippy"@ {
        "clippy"@
    } else {
        t
    }
}

/// The components, each once, in the order in which they first occur.
pub open spec fn components_of(items: Seq<Seq<char>>) -> Seq<Seq<char>> {
    add_distinct(Seq::empty(), items.map_values(|s: Seq<char>| component_named(s)))
}

/// The components, or the complaint about one that cannot be.
pub open spec fn checked_components(items: Seq<Seq<char>>) -> Result<Seq<Seq<char>>, ErrorView> {
    match first_bad_package(items.map_values(|s: Seq<char>| component_named(s))) {
        Some(c) => Err(ErrorView::Usage("invalid Rust component `"@ + c + "`"@)),
        None => Ok(components_of(items)),
    }
}

/// The toolchain components that are asked for, each once.
pub fn normalized_rust_components(items: &[String]) -> (r: Result<Vec<String>, CiError>)
    ensures
        list_outcome(r) == checked_components(texts(items@)),
{
    let ghost all = texts(items@).map_values(|s: Seq<char>| component_named(s));
    let mut out: Vec<String> = Vec::new();
    let mut i: usize = 0;
    assert(texts(out@) =~= Seq::<Seq<char>>::empty());
    while i < items.len()
        invariant
            i <= items@.len(),
            all == texts(items@).map_values(|s: Seq<char>| component_named(s)),
            first_bad_package(all.take(i as int)) is None,
            texts(out@) == add_distinct(Seq::empty(), all.take(i as int)),
        decreases items.len() - i,
    {
        assert(all.take(i + 1).drop_last() =~= all.take(i as int));
        let t = trim(items[i].as_str());
        let name = if same(t, "cargo-fmt") {
            "rustfmt"
        } else if same(t, "cargo-clippy") {
            "clippy"
        } else {
            t
        };
        assert(all[i as int] == name@);
        if !is_package_name(name) {
            proof {
                lemma_bad_package_stays(all, i + 1);
            }
            return Err(usage(cat3("invalid Rust component `", name, "`")));
        }
        if !list_has(out.as_slice(), name) {
            out.push(name.to_owned());
        }
        i += 1;
    }
    assert(all.take(i as int) =~= all);
    Ok(out)
}

/// Whether a text can name an image: it is not empty, is no switch, and holds no blanks.
pub open spec fn image_reference(s: Seq<char>) -> bool {
    s.len() > 0 && s[0] != '-' && forall|i: int| 0 <= i < s.len() ==> !is_space(#[trigger] s[i])
}

/// Whether a text can name an image.
pub fn validate_container_image_ref(image: &str) -> (r: Result<(), CiError>)
    ensures
        unit_outcome(r) == if image_reference(image@) {
            Ok::<(), ErrorView>(())
        } else {
            Err(ErrorView::Usage("invalid container image `"@ + image@ + "`"@))
        },
{
    let v = chars_of(image);
    let mut ok = v.len() > 0 && v[0] != '-';
    let mut i: usize = 0;
    while ok && i < v.len()
        invariant
            i <= v@.len(),
            v@ == image@,
            ok ==> image@.len() > 0 && image@[0] != '-' && forall|j: int| 0 <= j < i ==> !is_space(#[trigger] image@[j]),
            !ok ==> !image_reference(image@),
        decreases v.len() - i,
    {
        if char_is_space(v[i]) {
            assert(is_space(image@[i as int]));
            ok = false;
        }
        i += 1;
    }
    if ok {
        Ok(())
    } else {
        Err(usage(cat3("invalid container image `", image, "`")))
    }
}

/// Whether a native workflow runs in a container: as the command line says, else where
/// its container settings say something of the image.
pub open spec fn container_wanted(c: ContainerView, mode: ContainerOverride) -> bool {
    match mode {
        ContainerOverride::Force => true,
        ContainerOverride::Disable => false,
        ContainerOverride::Auto => c.kind is Some || c.image is Some || c.platform is Some || c.arch.items().len() > 0
            || c.packages.len() > 0 || c.components.len() > 0,
    }
}

/// Whether a native workflow runs in a container.
pub fn native_container_enabled(container: &ContainerConfig, override_mode: ContainerOverride) -> (r: bool)
    ensures
        r == container_wanted(container@, override_mode),
{
    assert(texts(container.packages@).len() == container.packages@.len());
    assert(texts(container.components@).len() == container.components@.len());
    match override_mode {
        ContainerOverride::Force => true,
        ContainerOverride::Disable => false,
        ContainerOverride::Auto => container.kind.is_some() || container.image.is_some()
            || container.platform.is_some() || !container.arch.is_empty() || !container.packages.is_empty()
            || !container.components.is_empty(),
    }
}

/// The characters that words of a command are made of.
pub open spec fn word_break() -> spec_fn(char) -> bool {
    |c: char| !(is_alnum(c) || c == '_' || c == '-' || c == '.' || c == '/')
}

/// What follows the last slash.
pub open spec fn after_last_slash(s: Seq<char>) -> Seq<char> {
    split_at_char(s, '/').last()
}

/// Whether a program belongs to a tool.
pub open spec fn program_of_tool(name: Seq<char>, tool: Seq<char>) -> bool {
    ||| name == tool
    ||| tool == "npm"@ && (name == "node"@ || name == "npm"@ || name == "npx"@ || name == "yarn"@ || name
        == "pnpm"@)
    ||| tool == "python3"@ && (name == "python"@ || name == "python3"@ || name == "pip"@ || name == "pip3"@)
    ||| tool == "gradle"@ && (name == "gradle"@ || name == "gradlew"@)
    ||| tool == "java"@ && (name == "gradle"@ || name == "gradlew"@ || name == "java"@)
}

/// Whether a command mentions a program that belongs to a tool.
pub open spec fn mentions_tool(run: Seq<char>, tool: Seq<char>) -> bool {
    exists|i: int|
        0 <= i < split_by(run, word_break()).len() && program_of_tool(
            after_last_slash(#[trigger] split_by(run, word_break())[i]),
            tool,
        )
}

/// The words of a command.
fn split_words(s: &str) -> (r: Vec<String>)
    ensures
        texts(r@) == split_by(s@, word_break()),
{
    let v = chars_of(s);
    let ghost cut = word_break();
    let mut done: Vec<String> = Vec::new();
    let mut current = String::new();
    let mut i: usize = 0;
    assert(texts(done@).push(current@) =~= split_by(s@.take(0), cut));
    while i < v.len()
        invariant
            i <= v@.len(),
            v@ == s@,
            cut == word_break(),
            texts(done@).push(current@) == split_by(s@.take(i as int), cut),
        decreases v.len() - i,
    {
        assert(s@.take(i + 1).drop_last() =~= s@.take(i as int));
        let ghost before = texts(done@).push(current@);
        let c = v[i];
        if !(char_is_alnum(c) || c == '_' || c == '-' || c == '.' || c == '/') {
            done.push(current);
            current = String::new();
            assert(texts(done@) =~= before);
        } else {
            current.push(c);
            assert(texts(done@) =~= before.drop_last());
        }
        i += 1;
    }
    assert(s@.take(i as int) =~= s@);
    done.push(current);
    done
}

fn is_program_of_tool(name: &str, tool: &str) -> (r: bool)
    ensures
        r == program_of_tool(name@, tool@),
{
    same(name, tool) || (same(tool, "npm") && (same(name, "node") || same(name, "npm") || same(
        name,
        "npx",
    ) || same(name, "yarn") || same(name, "pnpm"))) || (same(tool, "python3") && (same(
        name,
        "python",
    ) || same(name, "python3") || same(name, "pip") || same(name, "pip3"))) || (same(tool, "gradle")
        && (same(name, "gradle") || same(name, "gradlew"))) || (same(tool, "java") && (same(
        name,
        "gradle",
    ) || same(name, "gradlew") || same(name, "java")))
}

/// Whether a command mentions a program that belongs to a tool.
pub fn command_mentions_tool(run: &str, tool: &str) -> (r: bool)
    ensures
        r == mentions_tool(run@, tool@),
{
    let words = split_words(run);
    let ghost all = split_by(run@, word_break());
    let mut i: usize = 0;
    while i < words.len()
        invariant
            i <= words@.len(),
            texts(words@) == all,
            all == split_by(run@, word_break()),
            forall|j: int| 0 <= j < i ==> !program_of_tool(after_last_slash(#[trigger] all[j]), tool@),
        decreases words.len() - i,
    {
        assert(all[i as int] == words@[i as int]@);
        let mut pieces = split_char(words[i].as_str(), '/');
        let ghost parts = texts(pieces@);
        let name = pieces.pop().unwrap();
        assert(name@ == parts.last());
        if is_program_of_tool(name.as_str(), tool) {
            assert(program_of_tool(after_last_slash(split_by(run@, word_break())[i as int]), tool@));
            return true;
        }
        i += 1;
    }
    false
}

/// The tool on the host that builds a kind of project.
pub open spec fn host_tool(kind: ContainerType) -> Option<Seq<char>> {
    match kind {
        ContainerType::Rust => Some("cargo"@),
        ContainerType::Node => Some("npm"@),
        ContainerType::Go => Some("go"@),
        ContainerType::Python => Some("python3"@),
        ContainerType::Maven => Some("mvn"@),
        ContainerType::Gradle => Some("gradle"@),
        ContainerType::Dotnet => Some("dotnet"@),
        ContainerType::Auto => None,
        ContainerType::General => None,
    }
}

/// The tool on the host that builds a kind of project.
pub fn default_build_tool(kind: ContainerType) -> (r: Option<&'static str>)
    ensures
        opt_slice(r) == host_tool(kind),
{
    match kind {
        ContainerType::Rust => Some("cargo"),
        ContainerType::Node => Some("npm"),
        ContainerType::Go => Some("go"),
        ContainerType::Python => Some("python3"),
        ContainerType::Maven => Some("mvn"),
        ContainerType::Gradle => Some("gradle"),
        ContainerType::Dotnet => Some("dotnet"),
        ContainerType::Auto => None,
        ContainerType::General => None,
    }
}

/// Whether one of the steps runs a program that belongs to a tool.
pub open spec fn steps_mention(steps: Seq<StepView>, tool: Seq<char>) -> bool {
    exists|i: int| 0 <= i < steps.len() && #[trigger] step_mentions(steps[i], tool)
}

/// Whether the script of a step mentions a tool.
pub open spec fn step_mentions(step: StepView, tool: Seq<char>) -> bool {
    step.run is Some && mentions_tool(step.run->0, tool)
}

/// Whether a workflow looks like one for a kind of project: the repository holds such a
/// project, or a step runs its tool.
pub open spec fn looks_like(repo_stack: Option<ContainerType>, steps: Seq<StepView>, stack: ContainerType) -> bool {
    match host_tool(stack) {
        None => false,
        Some(tool) => repo_stack == Some(stack) || steps_mention(steps, tool),
    }
}

/// Whether a workflow looks like one for a kind of project. `repo_stack` is the kind of
/// project that the repository holds.
pub fn native_workflow_looks_like_stack(repo_stack: Option<ContainerType>, steps: &[NativeStep], stack: ContainerType) -> (r:
    bool)
    ensures
        r == looks_like(repo_stack, step_views(steps@), stack),
{
    let tool = match default_build_tool(stack) {
        None => return false,
        Some(tool) => tool,
    };
    if let Some(kind) = repo_stack {
        if kind == stack {
            return true;
        }
    }
    let ghost all = step_views(steps@);
    let mut i: usize = 0;
    while i < steps.len()
        invariant
            i <= steps@.len(),
            all == step_views(steps@),
            host_tool(stack) == Some(tool@),
            repo_stack != Some(stack),
            forall|j: int| 0 <= j < i ==> !#[trigger] step_mentions(all[j], tool@),
        decreases steps.len() - i,
    {
        assert(all[i as int] == steps@[i as int]@);
        if let Some(run) = &steps[i].run {
            if command_mentions_tool(run.as_str(), tool) {
                assert(step_mentions(all[i as int], tool@));
                return true;
            }
        }
        i += 1;
    }
    false
}

/// The kinds of project that a workflow is held against, in order.
pub open spec fn stacks_in_order() -> Seq<ContainerType> {
    seq![
        ContainerType::Rust,
        ContainerType::Node,
        ContainerType::Go,
        ContainerType::Maven,
        ContainerType::Gradle,
        ContainerType::Dotnet,
        ContainerType::Python,
    ]
}

/// The first of the kinds that a workflow looks like.
pub open spec fn first_likeness(repo_stack: Option<ContainerType>, steps: Seq<StepView>, kinds: Seq<ContainerType>) -> Option<
    ContainerType,
>
    decreases kinds.len(),
{
    if kinds.len() == 0 {
        None
    } else if looks_like(repo_stack, steps, kinds[0]) {
        Some(kinds[0])
    } else {
        first_likeness(repo_stack, steps, kinds.drop_first())
    }
}

/// The kind of project that a workflow is for: that of the repository, else the first
/// that it looks like.
pub open spec fn detected_stack(repo_stack: Option<ContainerType>, steps: Seq<StepView>) -> Option<ContainerType> {
    over(first_likeness(repo_stack, steps, stacks_in_order()), repo_stack)
}

/// The kind of project that a workflow is for.
pub fn detect_native_workflow_stack(repo_stack: Option<ContainerType>, steps: &[NativeStep]) -> (r: Option<
    ContainerType,
>)
    ensures
        r == detected_stack(repo_stack, step_views(steps@)),
{
    if repo_stack.is_some() {
        return repo_stack;
    }
    let kinds = [
        ContainerType::Rust,
        ContainerType::Node,
        ContainerType::Go,
        ContainerType::Maven,
        ContainerType::Gradle,
        ContainerType::Dotnet,
        ContainerType::Python,
    ];
    let ghost all = stacks_in_order();
    assert(kinds@ =~= all);
    assert(all.skip(0) =~= all);
    let mut i: usize = 0;
    while i < 7
        invariant
            i <= 7,
            kinds@ == all,
            all == stacks_in_order(),
            all.len() == 7,
            repo_stack is None,
            first_likeness(repo_stack, step_views(steps@), all) == first_likeness(
                repo_stack,
                step_views(steps@),
                all.skip(i as int),
            ),
        decreases 7 - i,
    {
        assert(all.skip(i as int).drop_first() =~= all.skip(i + 1));
        assert(all.skip(i as int)[0] == all[i as int]);
        if native_workflow_looks_like_stack(repo_stack, steps, kinds[i]) {
            return Some(kinds[i]);
        }
        i += 1;
    }
    None
}

/// The kind of project that a container is made for: the one asked for; where it is left
/// open, Rust where toolchain components are asked for or the workflow looks like it,
/// else the kind that is found, else none in particular.
pub open spec fn effective_stack(
    asked: Option<ContainerType>,
    components: nat,
    repo_stack: Option<ContainerType>,
    steps: Seq<StepView>,
) -> ContainerType {
    let kind = or_else(asked, ContainerType::Auto);
    if kind is Auto {
        if components > 0 || looks_like(repo_stack, steps, ContainerType::Rust) {
            ContainerType::Rust
        } else {
            or_else(detected_stack(repo_stack, steps), ContainerType::General)
        }
    } else {
        kind
    }
}

/// The kind of project that was asked for: on the command line, in the configuration, or
/// in the workflow.
pub open spec fn asked_stack(
    global: Option<ContainerType>,
    configured: Option<ContainerType>,
    own: Option<ContainerType>,
) -> Option<ContainerType> {
    over(over(own, configured), global)
}

/// The kind of project that a container is made for.
pub fn native_container_effective_type(
    global: Option<ContainerType>,
    configured: Option<ContainerType>,
    container: &ContainerConfig,
    repo_stack: Option<ContainerType>,
    steps: &[NativeStep],
) -> (r: ContainerType)
    ensures
        r == effective_stack(
            asked_stack(global, configured, container@.kind),
            container@.components.len(),
            repo_stack,
            step_views(steps@),
        ),
{
    assert(container@.components.len() == container.components@.len());
    let asked = pick(global, pick(configured, container.kind));
    let kind = match asked {
        Some(kind) => kind,
        None => ContainerType::Auto,
    };
    match kind {
        ContainerType::Auto => if !container.components.is_empty() || native_workflow_looks_like_stack(
            repo_stack,
            steps,
            ContainerType::Rust,
        ) {
            ContainerType::Rust
        } else {
            match detect_native_workflow_stack(repo_stack, steps) {
                Some(kind) => kind,
                None => ContainerType::General,
            }
        },
        kind => kind,
    }
}

/// The image that a kind of project starts from.
pub open spec fn base_image_of(kind: ContainerType) -> Seq<char> {
    match kind {
        ContainerType::Rust => "docker.io/library/rust:latest"@,
        ContainerType::Node => "docker.io/library/node:22-bookworm-slim"@,
        ContainerType::Go => "docker.io/library/golang:latest"@,
        ContainerType::Python => "docker.io/library/python:3"@,
        ContainerType::Maven => "docker.io/library/maven:latest"@,
        ContainerType::Gradle => "docker.io/library/gradle:latest"@,
        ContainerType::Dotnet => "mcr.microsoft.com/dotnet/sdk:latest"@,
        ContainerType::General => "docker.io/library/debian:stable-slim"@,
        ContainerType::Auto => "docker.io/library/debian:stable-slim"@,
    }
}

/// The image that a container starts from: the one that is set, else that of the kind of
/// project. The kind must not be left open.
pub fn native_container_base_image(image: &Option<String>, kind: ContainerType) -> (r: String)
    requires
        !(kind is Auto) || image is Some,
    ensures
        r@ == or_else(opt_text(*image), base_image_of(kind)),
{
    match image {
        Some(image) => image.clone(),
        None => match kind {
            ContainerType::Rust => "docker.io/library/rust:latest".to_owned(),
            ContainerType::Node => "docker.io/library/node:22-bookworm-slim".to_owned(),
            ContainerType::Go => "docker.io/library/golang:latest".to_owned(),
            ContainerType::Python => "docker.io/library/python:3".to_owned(),
            ContainerType::Maven => "docker.io/library/maven:latest".to_owned(),
            ContainerType::Gradle => "docker.io/library/gradle:latest".to_owned(),
            ContainerType::Dotnet => "mcr.microsoft.com/dotnet/sdk:latest".to_owned(),
            _ => "docker.io/library/debian:stable-slim".to_owned(),
        },
    }
}

/// The kind that a container is made for is never left open, unless the repository
/// itself were of an open kind.
pub proof fn law_container_kind_is_settled(
    asked: Option<ContainerType>,
    components: nat,
    repo_stack: Option<ContainerType>,
    steps: Seq<StepView>,
)
    requires
        repo_stack != Some(ContainerType::Auto),
    ensures
        !(effective_stack(asked, components, repo_stack, steps) is Auto),
{
    lemma_likeness_is_settled(repo_stack, steps, stacks_in_order());
}

proof fn lemma_likeness_is_settled(repo_stack: Option<ContainerType>, steps: Seq<StepView>, kinds: Seq<ContainerType>)
    ensures
        first_likeness(repo_stack, steps, kinds) != Some(ContainerType::Auto),
    decreases kinds.len(),
{
    if kinds.len() > 0 && !looks_like(repo_stack, steps, kinds[0]) {
        lemma_likeness_is_settled(repo_stack, steps, kinds.drop_first());
    }
}

/// The places in a container that are kept between runs.
pub open spec fn cache_targets(kind: ContainerType) -> Seq<Seq<char>> {
    match kind {
        ContainerType::Rust => seq!["/usr/local/cargo/registry"@, "/usr/local/cargo/git"@],
        ContainerType::Node => seq![
            "/root/.npm"@,
            "/root/.cache/pnpm"@,
            "/usr/local/share/.cache/yarn"@,
        ],
        ContainerType::Go => seq!["/go/pkg/mod"@, "/root/.cache/go-build"@],
        ContainerType::Python => seq!["/root/.cache/pip"@, "/root/.cache/uv"@],
        ContainerType::Maven => seq!["/root/.m2"@],
        ContainerType::Gradle => seq!["/home/gradle/.gradle"@, "/root/.gradle"@],
        ContainerType::Dotnet => seq!["/root/.nuget/packages"@],
        ContainerType::Auto => Seq::empty(),
        ContainerType::General => Seq::empty(),
    }
}

fn cache_target_list(kind: ContainerType) -> (r: Vec<&'static str>)
    ensures
        slices(r@) == cache_targets(kind),
{
    let out: Vec<&'static str> = match kind {
        ContainerType::Rust => vec!["/usr/local/cargo/registry", "/usr/local/cargo/git"],
        ContainerType::Node => vec!["/root/.npm", "/root/.cache/pnpm", "/usr/local/share/.cache/yarn"],
        ContainerType::Go => vec!["/go/pkg/mod", "/root/.cache/go-build"],
        ContainerType::Python => vec!["/root/.cache/pip", "/root/.cache/uv"],
        ContainerType::Maven => vec!["/root/.m2"],
        ContainerType::Gradle => vec!["/home/gradle/.gradle", "/root/.gradle"],
        ContainerType::Dotnet => vec!["/root/.nuget/packages"],
        ContainerType::Auto => Vec::new(),
        ContainerType::General => Vec::new(),
    };
    assert(slices(out@) =~= cache_targets(kind));
    out
}

/// A directory of the host that stands at a place in the container.
#[derive(Debug)]
pub struct Mount {
    pub host: String,
    pub target: String,
}

/// The directory that keeps a place of a workflow's container.
pub open spec fn cache_dir(state_dir: Seq<char>, workflow: Seq<char>, kind: ContainerType, target: Seq<char>) -> Seq<char> {
    joined(
        joined(
            joined(joined(state_dir, "container-cache"@), tag_text(workflow)),
            tag_text(kind.word()),
        ),
        tag_text(strip_leading(target, '/')),
    )
}

/// Whether a mount is that of a cache directory.
pub open spec fn mount_is(m: Mount, state_dir: Seq<char>, workflow: Seq<char>, kind: ContainerType, target: Seq<char>) -> bool {
    m.host@ == cache_dir(state_dir, workflow, kind, target) && m.target@ == target
}

/// The places of a workflow's container that are kept between runs, and the directories
/// that keep them.
pub fn native_container_cache_mounts(state_dir: &str, workflow: &str, kind: ContainerType) -> (r: Vec<Mount>)
    ensures
        r@.len() == cache_targets(kind).len(),
        forall|i: int|
            0 <= i < r@.len() ==> mount_is(#[trigger] r@[i], state_dir@, workflow@, kind, cache_targets(kind)[i]),
{
    let base = join_path(state_dir, "container-cache");
    let name = sanitize_tag(workflow);
    let per_workflow = join_path(base.as_str(), name.as_str());
    let word = sanitize_tag(kind.as_name());
    let root = join_path(per_workflow.as_str(), word.as_str());
    let targets = cache_target_list(kind);
    let ghost all = cache_targets(kind);
    let mut out: Vec<Mount> = Vec::new();
    let mut i: usize = 0;
    while i < targets.len()
        invariant
            i <= targets@.len(),
            slices(targets@) == all,
            all == cache_targets(kind),
            root@ == joined(
                joined(joined(state_dir@, "container-cache"@), tag_text(workflow@)),
                tag_text(kind.word()),
            ),
            out@.len() == i,
            forall|j: int| 0 <= j < i ==> mount_is(#[trigger] out@[j], state_dir@, workflow@, kind, all[j]),
        decreases targets.len() - i,
    {
        assert(all[i as int] == targets@[i as int]@);
        let leaf = sanitize_tag(trim_start_char(targets[i], '/'));
        let host = join_path(root.as_str(), leaf.as_str());
        out.push(Mount { host, target: targets[i].to_owned() });
        i += 1;
    }
    out
}

/// The image of a workflow's container: one that is there, or one to be built first.
#[derive(Debug)]
pub enum ImagePlan {
    Use(String),
    /// The image, the file that describes it, and what has to stand in that file.
    Build(String, String, String),
}

#[verifier::ext_equal]
pub enum ImageView {
    Use(Seq<char>),
    Build(Seq<char>, Seq<char>, Seq<char>),
}

impl View for ImagePlan {
    type V = ImageView;

    open spec fn view(&self) -> ImageView {
        match self {
            ImagePlan::Use(i) => ImageView::Use(i@),
            ImagePlan::Build(i, f, c) => ImageView::Build(i@, f@, c@),
        }
    }
}

/// The file that describes the image of a workflow on a platform.
pub open spec fn image_file(state_dir: Seq<char>, workflow: Seq<char>, platform: Seq<char>) -> Seq<char> {
    joined(
        joined(state_dir, "containers"@),
        "ci-"@ + tag_text(workflow) + "-"@ + tag_text(platform) + ".Containerfile"@,
    )
}

/// The image of a workflow's container: the base image as it is, or one with packages and
/// components on top. Components are for Rust only.
pub open spec fn image_plan(
    container: ContainerView,
    kind: ContainerType,
    workflow: Seq<char>,
    platform: Seq<char>,
    state_dir: Seq<char>,
) -> Result<ImageView, ErrorView> {
    let base = or_else(container.image, base_image_of(kind));
    if !image_reference(base) {
        Err(ErrorView::Usage("invalid container image `"@ + base + "`"@))
    } else if container.packages.len() == 0 && container.components.len() == 0 {
        Ok(ImageView::Use(base))
    } else if container.components.len() > 0 && !(kind is Rust) {
        Err(ErrorView::Usage("container.components is only supported for Rust containers"@))
    } else {
        match checked_packages(container.packages) {
            Err(e) => Err(e),
            Ok(_) => match checked_components(container.components) {
                Err(e) => Err(e),
                Ok(components) => Ok(
                    ImageView::Build(
                        image_name(workflow, platform),
                        image_file(state_dir, workflow, platform),
                        containerfile(base, container.packages, components),
                    ),
                ),
            },
        }
    }
}

/// The image of a workflow's container.
pub fn prepare_native_container_image(
    container: &ContainerConfig,
    kind: ContainerType,
    workflow: &str,
    platform: &str,
    state_dir: &str,
) -> (r: Result<ImagePlan, CiError>)
    requires
        !(kind is Auto),
    ensures
        outcome(r) == image_plan(container@, kind, workflow@, platform@, state_dir@),
{
    let base = native_container_base_image(&container.image, kind);
    match validate_container_image_ref(base.as_str()) {
        Err(e) => return Err(e),
        Ok(_) => {},
    }
    assert(texts(container.packages@).len() == container.packages@.len());
    assert(texts(container.components@).len() == container.components@.len());
    if container.packages.is_empty() && container.components.is_empty() {
        return Ok(ImagePlan::Use(base));
    }
    let is_rust = matches!(kind, ContainerType::Rust);
    if !container.components.is_empty() && !is_rust {
        return Err(
            usage("container.components is only supported for Rust containers".to_owned()),
        );
    }
    match validate_container_packages(container.packages.as_slice()) {
        Err(e) => return Err(e),
        Ok(_) => {},
    }
    let components = match normalized_rust_components(container.components.as_slice()) {
        Err(e) => return Err(e),
        Ok(c) => c,
    };
    let image = generated_native_container_image_name(workflow, platform);
    let w = sanitize_tag(workflow);
    let p = sanitize_tag(platform);
    let name = cat5("ci-", w.as_str(), "-", p.as_str(), ".Containerfile");
    let dir = join_path(state_dir, "containers");
    let file = join_path(dir.as_str(), name.as_str());
    let content = generated_native_containerfile(
        base.as_str(),
        container.packages.as_slice(),
        components.as_slice(),
    );
    Ok(ImagePlan::Build(image, file, content))
}

/// The program that runs containers: the one asked for, else `podman`, else `docker`.
pub open spec fn runtime_choice(runtime: ContainerRuntime, podman: bool, docker: bool) -> Result<Seq<char>, ErrorView> {
    match runtime {
        ContainerRuntime::Podman => Ok("podman"@),
        ContainerRuntime::Docker => Ok("docker"@),
        ContainerRuntime::Auto => if podman {
            Ok("podman"@)
        } else if docker {
            Ok("docker"@)
        } else {
            Err(ErrorView::Message("container workflow requires podman or docker"@))
        },
    }
}

/// The program that runs containers. The flags say which of them the host has.
pub fn choose_runtime(runtime: ContainerRuntime, podman: bool, docker: bool) -> (r: Result<String, CiError>)
    ensures
        outcome(r) == runtime_choice(runtime, podman, docker),
{
    match runtime {
        ContainerRuntime::Podman => Ok("podman".to_owned()),
        ContainerRuntime::Docker => Ok("docker".to_owned()),
        ContainerRuntime::Auto => if podman {
            Ok("podman".to_owned())
        } else if docker {
            Ok("docker".to_owned())
        } else {
            Err(message("container workflow requires podman or docker".to_owned()))
        },
    }
}

/// The arguments that build an image from a file.
pub open spec fn build_args(file: Seq<char>, tag: Seq<char>, context: Seq<char>, platform: Option<Seq<char>>) -> Seq<
    Seq<char>,
> {
    let head = match platform {
        Some(p) => seq!["build"@, "--platform"@, p],
        None => seq!["build"@],
    };
    head + seq!["-f"@, file, "-t"@, tag, context]
}

/// The arguments that build an image from a file.
pub fn container_build_args(file: &str, tag: &str, context: &str, platform: Option<&str>) -> (r: Vec<String>)
    ensures
        texts(r@) == build_args(file@, tag@, context@, opt_slice(platform)),
{
    let mut out: Vec<String> = Vec::new();
    out.push("build".to_owned());
    if let Some(p) = platform {
        out.push("--platform".to_owned());
        out.push(p.to_owned());
    }
    out.push("-f".to_owned());
    out.push(file.to_owned());
    out.push("-t".to_owned());
    out.push(tag.to_owned());
    out.push(context.to_owned());
    assert(texts(out@) =~= build_args(file@, tag@, context@, opt_slice(platform)));
    out
}

/// The arguments that run the container of a workflow over the working tree.
pub open spec fn run_args(event: Seq<char>, workflow: Seq<char>, root: Seq<char>, tag: Seq<char>) -> Seq<Seq<char>> {
    seq![
        "run"@, "--rm"@, "-e"@, "CI=true"@, "-e"@, "CI_TOOL=ci"@, "-e"@, "CI_EVENT="@ + event, "-e"@,
        "CI_WORKFLOW="@ + workflow, "-v"@, root + ":/work"@, "-w"@, "/work"@, tag,
    ]
}

/// The arguments that run the container of a workflow over the working tree.
pub fn container_run_args(event: &str, workflow: &str, root: &str, tag: &str) -> (r: Vec<String>)
    ensures
        texts(r@) == run_args(event@, workflow@, root@, tag@),
{
    let mut out: Vec<String> = Vec::new();
    out.push("run".to_owned());
    out.push("--rm".to_owned());
    out.push("-e".to_owned());
    out.push("CI=true".to_owned());
    out.push("-e".to_owned());
    out.push("CI_TOOL=ci".to_owned());
    out.push("-e".to_owned());
    out.push(cat2("CI_EVENT=", event));
    out.push("-e".to_owned());
    out.push(cat2("CI_WORKFLOW=", workflow));
    out.push("-v".to_owned());
    out.push(cat2(root, ":/work"));
    out.push("-w".to_owned());
    out.push("/work".to_owned());
    out.push(tag.to_owned());
    assert(texts(out@) =~= run_args(event@, workflow@, root@, tag@));
    out
}

/// The tag of the image of a container workflow.
pub fn workflow_tag(workflow: &str) -> (r: String)
    ensures
        r@ == "ci-"@ + tag_text(workflow@),
{
    let t = sanitize_tag(workflow);
    cat2("ci-", t.as_str())
}

/// No component is added twice, and every one that is asked for is added.
pub proof fn law_components_are_distinct(items: Seq<Seq<char>>, i: int)
    ensures
        components_of(items).no_duplicates(),
        0 <= i < items.len() ==> components_of(items).contains(component_named(items[i])),
{
    let names = items.map_values(|s: Seq<char>| component_named(s));
    if 0 <= i < items.len() {
        lemma_add_distinct(Seq::empty(), names, component_named(items[i]));
        assert(names[i] == component_named(items[i]));
    } else {
        lemma_add_distinct(Seq::empty(), names, Seq::empty());
    }
}

/// A sanitized name holds nothing but letters, digits, `-`, `_` and `.`, and sanitizing
/// it again changes nothing.
pub proof fn law_tags_are_plain(s: Seq<char>, i: int)
    ensures
        tag_text(tag_text(s)) == tag_text(s),
        0 <= i < s.len() ==> is_alnum(tag_text(s)[i]) || tag_text(s)[i] == '-' || tag_text(s)[i] == '_'
            || tag_text(s)[i] == '.',
{
    assert(tag_text(tag_text(s)) =~= tag_text(s));
}

/// The name in an image: what stands behind its last slash, before the version.
pub open spec fn image_word(image: Seq<char>) -> Seq<char> {
    before_first(after_last_slash(image), ':')
}

proof fn lemma_image_word(place: Seq<char>, word: Seq<char>, version: Seq<char>)
    requires
        forall|i: int| 0 <= i < word.len() ==> #[trigger] word[i] != '/' && word[i] != ':',
        forall|i: int| 0 <= i < version.len() ==> #[trigger] version[i] != '/',
    ensures
        image_word(place + seq!['/'] + word + seq![':'] + version) == word,
{
    let tail = word + seq![':'] + version;
    let whole = place + seq!['/'] + word + seq![':'] + version;
    assert(whole =~= place.push('/') + tail);
    lemma_split_concat(place, tail, '/');
    assert(!tail.contains('/')) by {
        if tail.contains('/') {
            let i = choose|i: int| 0 <= i < tail.len() && tail[i] == '/';
            if i < word.len() {
                assert(tail[i] == word[i]);
            } else if i > word.len() {
                assert(tail[i] == version[i - word.len() - 1]);
            }
        }
    }
    lemma_single_piece(tail, '/');
    let n = word.len() as int;
    assert forall|k: int| 0 <= k < n implies #[trigger] tail[k] != ':' by {
        assert(tail[k] == word[k]);
    }
    lemma_first_index(tail, ':', n);
    assert(tail.take(n) =~= word);
}

/// The image of a kind of project is named after that kind: its name is one by which the
/// kind can be asked for. The general image is that of Debian, and no other two kinds share
/// one.
pub proof fn law_images_are_named_after_their_kind(a: ContainerType, b: ContainerType)
    ensures
        a is Rust || a is Node || a is Go || a is Python || a is Maven || a is Gradle ==> stack_named(
            image_word(base_image_of(a)),
        ) == Some(a),
        a is Dotnet ==> has_text(base_image_of(a), "dotnet"@),
        a is General || a is Auto ==> image_word(base_image_of(a)) == "debian"@,
        base_image_of(a) == base_image_of(b) ==> a == b || ((a is General || a is Auto) && (b is General || b is Auto)),
{
    lemma_image_words();
    reveal_strlit("mcr.microsoft.com/dotnet/sdk:latest");
    reveal_strlit("dotnet");
    if a is Dotnet {
        assert(base_image_of(a).subrange(18, 24) =~= "dotnet"@);
        assert(occurs_at(base_image_of(a), "dotnet"@, 18));
    }
    assert("mcr.microsoft.com/dotnet/sdk:latest"@[0] == 'm');
    lemma_library_images();
}

/// Every other image comes from one place.
proof fn lemma_library_images()
    ensures
        forall|k: ContainerType| !(k is Dotnet) ==> #[trigger] base_image_of(k).len() > 0 && base_image_of(k)[0] == 'd',
{
    reveal_strlit("docker.io/library/rust:latest");
    reveal_strlit("docker.io/library/node:22-bookworm-slim");
    reveal_strlit("docker.io/library/golang:latest");
    reveal_strlit("docker.io/library/python:3");
    reveal_strlit("docker.io/library/maven:latest");
    reveal_strlit("docker.io/library/gradle:latest");
    reveal_strlit("docker.io/library/debian:stable-slim");
}

proof fn lemma_image_words()
    ensures
        image_word(base_image_of(ContainerType::Rust)) == "rust"@,
        image_word(base_image_of(ContainerType::Node)) == "node"@,
        image_word(base_image_of(ContainerType::Go)) == "golang"@,
        image_word(base_image_of(ContainerType::Python)) == "python"@,
        image_word(base_image_of(ContainerType::Maven)) == "maven"@,
        image_word(base_image_of(ContainerType::Gradle)) == "gradle"@,
        image_word(base_image_of(ContainerType::General)) == "debian"@,
        image_word(base_image_of(ContainerType::Auto)) == "debian"@,
        stack_named("rust"@) == Some(ContainerType::Rust),
        stack_named("node"@) == Some(ContainerType::Node),
        stack_named("golang"@) == Some(ContainerType::Go),
        stack_named("python"@) == Some(ContainerType::Python),
        stack_named("maven"@) == Some(ContainerType::Maven),
        stack_named("gradle"@) == Some(ContainerType::Gradle),
        stack_named("debian"@) is None,
{
    reveal_strlit("docker.io/library");
    reveal_strlit("docker.io/library/rust:latest");
    reveal_strlit("docker.io/library/node:22-bookworm-slim");
    reveal_strlit("docker.io/library/golang:latest");
    reveal_strlit("docker.io/library/python:3");
    reveal_strlit("docker.io/library/maven:latest");
    reveal_strlit("docker.io/library/gradle:latest");
    reveal_strlit("docker.io/library/debian:stable-slim");
    reveal_strlit("mcr.microsoft.com/dotnet/sdk:latest");
    reveal_strlit("docker.io/library/");
    reveal_strlit(":");
    reveal_strlit("dotnet");
    reveal_strlit("debian");
    reveal_strlit("auto");
    reveal_strlit("general");
    reveal_strlit("rust");
    reveal_strlit("node");
    reveal_strlit("go");
    reveal_strlit("golang");
    reveal_strlit("python");
    reveal_strlit("py");
    reveal_strlit("maven");
    reveal_strlit("gradle");
    reveal_strlit("stable-slim");
    reveal_strlit("3");
    reveal_strlit("22-bookworm-slim");
    reveal_strlit("latest");
    assert("rust"@[0] != "auto"@[0]);
    assert("node"@[0] != "auto"@[0]);
    assert("node"@[0] != "rust"@[0]);
    assert("python"@[0] != "golang"@[0]);
    assert("py"@[0] != "go"@[0]);
    assert("gradle"@[1] != "golang"@[1]);
    assert("gradle"@[0] != "python"@[0]);
    assert("dotnet"@[0] != "golang"@[0]);
    assert("dotnet"@[0] != "python"@[0]);
    assert("dotnet"@[0] != "gradle"@[0]);
    lemma_image_word("docker.io/library"@, "rust"@, "latest"@);
    assert("docker.io/library"@ + seq!['/'] + "rust"@ + seq![':'] + "latest"@ =~= "docker.io/library/rust:latest"@);
    lemma_image_word("docker.io/library"@, "node"@, "22-bookworm-slim"@);
    assert("docker.io/library"@ + seq!['/'] + "node"@ + seq![':'] + "22-bookworm-slim"@ =~= "docker.io/library/node:22-bookworm-slim"@);
    lemma_image_word("docker.io/library"@, "golang"@, "latest"@);
    assert("docker.io/library"@ + seq!['/'] + "golang"@ + seq![':'] + "latest"@ =~= "docker.io/library/golang:latest"@);
    lemma_image_word("docker.io/library"@, "python"@, "3"@);
    assert("docker.io/library"@ + seq!['/'] + "python"@ + seq![':'] + "3"@ =~= "docker.io/library/python:3"@);
    lemma_image_word("docker.io/library"@, "maven"@, "latest"@);
    assert("docker.io/library"@ + seq!['/'] + "maven"@ + seq![':'] + "latest"@ =~= "docker.io/library/maven:latest"@);
    lemma_image_word("docker.io/library"@, "gradle"@, "latest"@);
    assert("docker.io/library"@ + seq!['/'] + "gradle"@ + seq![':'] + "latest"@ =~= "docker.io/library/gradle:latest"@);
    lemma_image_word("docker.io/library"@, "debian"@, "stable-slim"@);
    assert("docker.io/library"@ + seq!['/'] + "debian"@ + seq![':'] + "stable-slim"@ =~= "docker.io/library/debian:stable-slim"@);
    assert("debian"@.len() == "golang"@.len() && "debian"@[0] != "golang"@[0]);
    assert("debian"@.len() == "python"@.len() && "debian"@[0] != "python"@[0]);
    assert("debian"@.len() == "gradle"@.len() && "debian"@[0] != "gradle"@[0]);
    assert("debian"@.len() == "dotnet"@.len() && "debian"@[1] != "dotnet"@[1]);
}

/// What is asked for counts: on the command line before the configuration, before the
/// container. Where nothing is, or the kind is to be found out, components of Rust ask for
/// Rust, and else the project that the repository holds counts.
pub proof fn law_the_kind_that_counts(
    global: Option<ContainerType>,
    configured: Option<ContainerType>,
    own: Option<ContainerType>,
    components: nat,
    repo_stack: Option<ContainerType>,
    steps: Seq<StepView>,
)
    ensures
        ({
            let asked = asked_stack(global, configured, own);
            let kind = effective_stack(asked, components, repo_stack, steps);
            let open = asked is None || asked == Some(ContainerType::Auto);
            &&& global is Some ==> asked == global
            &&& global is None && configured is Some ==> asked == configured
            &&& global is None && configured is None ==> asked == own
            &&& !open ==> kind == asked->0
            &&& open && components > 0 ==> kind is Rust
            &&& open && repo_stack == Some(ContainerType::Rust) ==> kind is Rust
            &&& open && components == 0 && repo_stack is Some && !steps_mention(steps, "cargo"@) ==> kind == repo_stack->0
            &&& open && components == 0 && repo_stack is None && (forall|tool: Seq<char>| !steps_mention(steps, tool))
                ==> kind is General
        }),
{
    reveal_with_fuel(first_likeness, 8);
}

/// Whether a script mentions a tool is decided word by word: a script of two parts mentions
/// what one of them mentions, and a single word mentions the tool exactly where it is a
/// program of it.
pub proof fn law_mentions_are_by_word(a: Seq<char>, c: char, b: Seq<char>, word: Seq<char>, tool: Seq<char>)
    requires
        !is_alnum(c) && c != '_' && c != '-' && c != '.' && c != '/',
        word.len() > 0,
        forall|i: int| 0 <= i < word.len() ==> is_alnum(#[trigger] word[i]) || word[i] == '_' || word[i] == '-' || word[i] == '.',
    ensures
        mentions_tool(a.push(c) + b, tool) == (mentions_tool(a, tool) || mentions_tool(b, tool)),
        mentions_tool(word, tool) == program_of_tool(word, tool),
        program_of_tool(tool, tool),
{
    let cut = word_break();
    let xs = split_by(a, cut);
    let ys = split_by(b, cut);
    let all = split_by(a.push(c) + b, cut);
    lemma_split_by_concat(a, b, c, cut);
    assert(all == xs + ys);
    if mentions_tool(a, tool) {
        let i = choose|i: int| 0 <= i < xs.len() && program_of_tool(after_last_slash(#[trigger] xs[i]), tool);
        assert(all[i] == xs[i]);
    }
    if mentions_tool(b, tool) {
        let i = choose|i: int| 0 <= i < ys.len() && program_of_tool(after_last_slash(#[trigger] ys[i]), tool);
        assert(all[i + xs.len()] == ys[i]);
    }
    if mentions_tool(a.push(c) + b, tool) {
        let i = choose|i: int| 0 <= i < all.len() && program_of_tool(after_last_slash(#[trigger] all[i]), tool);
        if i < xs.len() {
            assert(all[i] == xs[i]);
        } else {
            assert(all[i] == ys[i - xs.len()]);
        }
    }
    lemma_uncut(word, cut);
    assert(!word.contains('/')) by {
        if word.contains('/') {
            let i = choose|i: int| 0 <= i < word.len() && word[i] == '/';
            assert(word[i] == '/');
        }
    }
    lemma_single_piece(word, '/');
    assert(split_by(word, cut)[0] == word);
}

proof fn lemma_uncut(s: Seq<char>, cut: spec_fn(char) -> bool)
    requires
        forall|i: int| 0 <= i < s.len() ==> !cut(#[trigger] s[i]),
    ensures
        split_by(s, cut) == seq![s],
    decreases s.len(),
{
    if s.len() == 0 {
        assert(s =~= Seq::<char>::empty());
        assert(split_by(s, cut) =~= seq![s]);
    } else {
        let t = s.drop_last();
        assert forall|i: int| 0 <= i < t.len() implies !cut(#[trigger] t[i]) by {
            assert(t[i] == s[i]);
        }
        lemma_uncut(t, cut);
        assert(!cut(s[s.len() - 1]));
        assert(t.push(s.last()) =~= s);
        assert(split_by(s, cut) =~= seq![s]);
    }
}

/// A container is used always where it is forced and never where it is forbidden; else
/// exactly where something about it is set that makes an image or a platform.
pub proof fn law_when_a_container_is_used(c: ContainerView)
    ensures
        container_wanted(c, ContainerOverride::Force),
        !container_wanted(c, ContainerOverride::Disable),
        !container_wanted(
            ContainerView { workdir: c.workdir, env: c.env, volumes: c.volumes, readonly: c.readonly, ..ContainerView::nothing() },
            ContainerOverride::Auto,
        ),
        c.kind is Some ==> container_wanted(c, ContainerOverride::Auto),
        c.image is Some ==> container_wanted(c, ContainerOverride::Auto),
        c.platform is Some ==> container_wanted(c, ContainerOverride::Auto),
        c.arch.items().len() > 0 ==> container_wanted(c, ContainerOverride::Auto),
        c.packages.len() > 0 ==> container_wanted(c, ContainerOverride::Auto),
        c.components.len() > 0 ==> container_wanted(c, ContainerOverride::Auto),
{
}

/// An image that is named is the base; without packages and components it is used as it is,
/// and with them an image is built on it that starts from it. Only Rust has components, and
/// a name that could mean more than a name is refused.
pub proof fn law_the_image_that_is_used(
    c: ContainerView,
    kind: ContainerType,
    workflow: Seq<char>,
    platform: Seq<char>,
    state_dir: Seq<char>,
)
    ensures
        ({
            let plan = image_plan(c, kind, workflow, platform, state_dir);
            let base = match c.image {
                Some(image) => image,
                None => base_image_of(kind),
            };
            let plain = c.packages.len() == 0 && c.components.len() == 0;
            &&& !image_reference(base) ==> plan is Err
            &&& image_reference(base) && plain ==> plan == Ok::<_, ErrorView>(ImageView::Use(base))
            &&& c.components.len() > 0 && !(kind is Rust) ==> plan is Err
            &&& (exists|i: int| 0 <= i < c.packages.len() && !package_name(#[trigger] c.packages[i])) ==> plan is Err
            &&& plan matches Ok(ImageView::Use(image)) ==> image == base && plain
            &&& plan matches Ok(ImageView::Build(image, file, content)) ==> !plain && ("FROM "@ + base + "\n"@).is_prefix_of(
                content,
            ) && forall|i: int|
                0 <= i < c.packages.len() ==> has_text(content, "'"@ + #[trigger] c.packages[i] + "'"@)
        }),
{
    let base = or_else(c.image, base_image_of(kind));
    if exists|i: int| 0 <= i < c.packages.len() && !package_name(#[trigger] c.packages[i]) {
        let i = choose|i: int| 0 <= i < c.packages.len() && !package_name(#[trigger] c.packages[i]);
        lemma_bad_package(c.packages, i);
    }
    if let Ok(ImageView::Build(image, file, content)) = image_plan(c, kind, workflow, platform, state_dir) {
        let components = checked_components(c.components)->Ok_0;
        let from = "FROM "@ + base + "\n"@;
        assert(from =~= content.subrange(0, from.len() as int));
        assert forall|i: int| 0 <= i < c.packages.len() implies has_text(content, "'"@ + #[trigger] c.packages[i] + "'"@) by {
            let all = c.packages.map_values(|s: Seq<char>| "'"@ + s + "'"@);
            let needle = "'"@ + c.packages[i] + "'"@;
            assert(all[i] == needle);
            assert(needle.subrange(0, needle.len() as int) =~= needle);
            assert(occurs_at(needle, needle, 0));
            lemma_join_holds(all, " "@, i, needle);
            let a = "RUN apt-get update && apt-get install -y --no-install-recommends "@;
            let z = " && rm -rf /var/lib/apt/lists/*\n"@;
            lemma_within(a, in_quotes(c.packages), z, needle);
            lemma_within(from + components_line(components), packages_line(c.packages), Seq::empty(), needle);
            assert(from + components_line(components) + packages_line(c.packages) + Seq::<char>::empty() =~= content);
        }
    }
}

proof fn lemma_bad_package(items: Seq<Seq<char>>, i: int)
    requires
        0 <= i < items.len(),
        !package_name(items[i]),
    ensures
        first_bad_package(items) is Some,
    decreases items.len(),
{
    if i < items.len() - 1 {
        lemma_bad_package(items.drop_last(), i);
    }
}

/// Packages and images that are accepted are words: nothing in them ends a word or a line,
/// opens quotes, or means something to a shell, and they do not look like options.
pub proof fn law_accepted_names_are_words(s: Seq<char>, i: int)
    requires
        0 <= i < s.len(),
    ensures
        package_name(s) ==> s[0] != '-' && s[i] != ' ' && s[i] != '\n' && s[i] != '\'' && s[i] != '"' && s[i] != '$'
            && s[i] != ';' && s[i] != '&' && s[i] != '|' && s[i] != '\\' && s[i] != '`' && s[i] != '(' && s[i] != '>',
        image_reference(s) ==> s[0] != '-' && s[i] != ' ' && s[i] != '\n' && s[i] != '\t',
        package_name(s) ==> image_reference(s),
{
    assert(package_name(s) ==> package_char(s[i]));
    assert(image_reference(s) ==> !is_space(s[i]));
}

/// A component goes by the name that `rustup` has for it; other names stay as they are.
pub proof fn law_components_by_their_names(s: Seq<char>)
    ensures
        trimmed(s) == "cargo-fmt"@ ==> component_named(s) == "rustfmt"@,
        trimmed(s) == "cargo-clippy"@ ==> component_named(s) == "clippy"@,
        trimmed(s) != "cargo-fmt"@ && trimmed(s) != "cargo-clippy"@ ==> component_named(s) == trimmed(s),
        component_named(component_named(s)) == component_named(s),
{
    reveal_strlit("cargo-fmt");
    reveal_strlit("cargo-clippy");
    reveal_strlit("rustfmt");
    reveal_strlit("clippy");
    assert("cargo-fmt"@.len() != "cargo-clippy"@.len());
    lemma_trimmed_whole("rustfmt"@);
    lemma_trimmed_whole("clippy"@);
    law_trim_idempotent(s);
    assert("rustfmt"@.len() != "cargo-fmt"@.len() && "rustfmt"@.len() != "cargo-clippy"@.len());
    assert("clippy"@.len() != "cargo-fmt"@.len() && "clippy"@.len() != "cargo-clippy"@.len());
}

/// A runtime that is named is the one; else `podman` comes before `docker`, and without
/// either there is none.
pub proof fn law_which_runtime_is_called(podman: bool, docker: bool)
    ensures
        runtime_choice(ContainerRuntime::Podman, podman, docker) == Ok::<_, ErrorView>("podman"@),
        runtime_choice(ContainerRuntime::Docker, podman, docker) == Ok::<_, ErrorView>("docker"@),
        podman ==> runtime_choice(ContainerRuntime::Auto, podman, docker) == Ok::<_, ErrorView>("podman"@),
        !podman && docker ==> runtime_choice(ContainerRuntime::Auto, podman, docker) == Ok::<_, ErrorView>("docker"@),
        !podman && !docker ==> runtime_choice(ContainerRuntime::Auto, podman, docker) is Err,
{
}

/// An image is built out of the file that is named, under its tag, with the context last,
/// and for a platform exactly where one is given. A container is removed after its run, sees
/// the working tree at the place it runs in, and comes from the image that is named last.
pub proof fn law_commands_for_containers(
    file: Seq<char>,
    tag: Seq<char>,
    context: Seq<char>,
    platform: Option<Seq<char>>,
    event: Seq<char>,
    workflow: Seq<char>,
)
    ensures
        ({
            let build = build_args(file, tag, context, platform);
            let n = build.len();
            let run = run_args(event, workflow, context, tag);
            let k = run.len();
            &&& build[0] == "build"@
            &&& build[n - 1] == context
            &&& build[n - 2] == tag && build[n - 3] == "-t"@
            &&& build[n - 4] == file && build[n - 5] == "-f"@
            &&& platform is None ==> n == 6
            &&& platform matches Some(p) ==> n == 8 && build[1] == "--platform"@ && build[2] == p
            &&& run[0] == "run"@ && run[1] == "--rm"@
            &&& run[k - 1] == tag
            &&& run[k - 3] == "-w"@ && run[k - 5] == "-v"@ && run[k - 4] == context + ":"@ + run[k - 2]
            &&& run.contains("CI_EVENT="@ + event)
            &&& run.contains("CI_WORKFLOW="@ + workflow)
            &&& run.contains("CI=true"@)
        }),
{
    let run = run_args(event, workflow, context, tag);
    assert(run[7] == "CI_EVENT="@ + event);
    assert(run[9] == "CI_WORKFLOW="@ + workflow);
    assert(run[3] == "CI=true"@);
    reveal_strlit(":/work");
    reveal_strlit(":");
    reveal_strlit("/work");
    assert(context + ":/work"@ =~= context + ":"@ + "/work"@);
}

/// The stores that the tools of a kind of project keep, by a word in their paths.
pub open spec fn store_of_kind(kind: ContainerType, path: Seq<char>) -> bool {
    match kind {
        ContainerType::Rust => has_text(path, "cargo"@),
        ContainerType::Node => has_text(path, "npm"@) || has_text(path, "yarn"@),
        ContainerType::Go => has_text(path, "go"@),
        ContainerType::Python => has_text(path, "pip"@) || has_text(path, "uv"@),
        ContainerType::Maven => has_text(path, "m2"@),
        ContainerType::Gradle => has_text(path, "gradle"@),
        ContainerType::Dotnet => has_text(path, "nuget"@),
        _ => false,
    }
}

/// What is kept between the runs of a container are stores of the tools of its kind, at
/// absolute places; every kind of project has some, and no general container has any.
pub proof fn law_stores_belong_to_the_kind(kind: ContainerType, i: int)
    ensures
        0 <= i < cache_targets(kind).len() ==> store_of_kind(kind, cache_targets(kind)[i]) && absolute(cache_targets(kind)[i]),
        (cache_targets(kind).len() == 0) == (kind is Auto || kind is General),
        cache_targets(kind).no_duplicates(),
{
    reveal_strlit("/usr/local/cargo/registry");
    reveal_strlit("/usr/local/cargo/git");
    reveal_strlit("/root/.npm");
    reveal_strlit("/root/.cache/pnpm");
    reveal_strlit("/usr/local/share/.cache/yarn");
    reveal_strlit("/go/pkg/mod");
    reveal_strlit("/root/.cache/go-build");
    reveal_strlit("/root/.cache/pip");
    reveal_strlit("/root/.cache/uv");
    reveal_strlit("/root/.m2");
    reveal_strlit("/home/gradle/.gradle");
    reveal_strlit("/root/.gradle");
    reveal_strlit("/root/.nuget/packages");
    reveal_strlit("cargo");
    reveal_strlit("go");
    reveal_strlit("gradle");
    reveal_strlit("m2");
    reveal_strlit("npm");
    reveal_strlit("nuget");
    reveal_strlit("pip");
    reveal_strlit("uv");
    reveal_strlit("yarn");
    assert("/usr/local/cargo/registry"@.subrange(11, 16) =~= "cargo"@);
    assert(occurs_at("/usr/local/cargo/registry"@, "cargo"@, 11));
    assert("/usr/local/cargo/git"@.subrange(11, 16) =~= "cargo"@);
    assert(occurs_at("/usr/local/cargo/git"@, "cargo"@, 11));
    assert("/root/.npm"@.subrange(7, 10) =~= "npm"@);
    assert(occurs_at("/root/.npm"@, "npm"@, 7));
    assert("/root/.cache/pnpm"@.subrange(14, 17) =~= "npm"@);
    assert(occurs_at("/root/.cache/pnpm"@, "npm"@, 14));
    assert("/usr/local/share/.cache/yarn"@.subrange(24, 28) =~= "yarn"@);
    assert(occurs_at("/usr/local/share/.cache/yarn"@, "yarn"@, 24));
    assert("/go/pkg/mod"@.subrange(1, 3) =~= "go"@);
    assert(occurs_at("/go/pkg/mod"@, "go"@, 1));
    assert("/root/.cache/go-build"@.subrange(13, 15) =~= "go"@);
    assert(occurs_at("/root/.cache/go-build"@, "go"@, 13));
    assert("/root/.cache/pip"@.subrange(13, 16) =~= "pip"@);
    assert(occurs_at("/root/.cache/pip"@, "pip"@, 13));
    assert("/root/.cache/uv"@.subrange(13, 15) =~= "uv"@);
    assert(occurs_at("/root/.cache/uv"@, "uv"@, 13));
    assert("/root/.m2"@.subrange(7, 9) =~= "m2"@);
    assert(occurs_at("/root/.m2"@, "m2"@, 7));
    assert("/home/gradle/.gradle"@.subrange(6, 12) =~= "gradle"@);
    assert(occurs_at("/home/gradle/.gradle"@, "gradle"@, 6));
    assert("/root/.gradle"@.subrange(7, 13) =~= "gradle"@);
    assert(occurs_at("/root/.gradle"@, "gradle"@, 7));
    assert("/root/.nuget/packages"@.subrange(7, 12) =~= "nuget"@);
    assert(occurs_at("/root/.nuget/packages"@, "nuget"@, 7));
}

/// What is kept of a container is mounted where the container looks for it, from the
/// directory of the tool that keeps it.
pub proof fn law_what_is_kept_is_mounted(
    m: Mount,
    state_dir: Seq<char>,
    workflow: Seq<char>,
    kind: ContainerType,
    target: Seq<char>,
)
    requires
        mount_is(m, state_dir, workflow, kind, target),
    ensures
        m.target@ == target,
        m.host@ == cache_dir(state_dir, workflow, kind, target),
{
}

/// An image gets a line for its components and one for its packages, each only where there are
/// any, and each names all of them.
pub proof fn law_lines_of_an_image(items: Seq<Seq<char>>, i: int)
    ensures
        components_line(Seq::empty()).len() == 0 && packages_line(Seq::empty()).len() == 0,
        0 <= i < items.len() ==> has_text(components_line(items), "'"@ + items[i] + "'"@) && has_text(
            packages_line(items),
            "'"@ + items[i] + "'"@,
        ),
        items.len() > 0 ==> "RUN rustup component add "@.is_prefix_of(components_line(items)) && "RUN apt-get update"@.is_prefix_of(
            packages_line(items),
        ),
{
    if 0 <= i < items.len() {
        let all = items.map_values(|s: Seq<char>| "'"@ + s + "'"@);
        let one = "'"@ + items[i] + "'"@;
        assert(all[i] == one);
        assert(one =~= one.subrange(0, one.len() as int));
        assert(occurs_at(all[i], one, 0));
        lemma_join_holds(all, " "@, i, one);
        lemma_within("RUN rustup component add "@, in_quotes(items), "\n"@, one);
        lemma_within(
            "RUN apt-get update && apt-get install -y --no-install-recommends "@,
            in_quotes(items),
            " && rm -rf /var/lib/apt/lists/*\n"@,
            one,
        );
    }
    if items.len() > 0 {
        let c = components_line(items);
        let p = packages_line(items);
        let head = "RUN apt-get update && apt-get install -y --no-install-recommends "@;
        assert("RUN rustup component add "@ =~= c.subrange(0, "RUN rustup component add "@.len() as int));
        reveal_strlit("RUN apt-get update");
        reveal_strlit("RUN apt-get update && apt-get install -y --no-install-recommends ");
        assert("RUN apt-get update"@ =~= head.subrange(0, 18));
        assert("RUN apt-get update"@ =~= p.subrange(0, 18));
    }
}

} // verus!
