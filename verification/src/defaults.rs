//! What a repository without workflows gets: the kind of project is told by its files, and
//! a workflow that builds it is made up.

use crate::buildargs::{build_commands, build_line};
use crate::cli::InitArgs;
use crate::config::{ContainerType, OverrideView, WorkflowOverride, over, pick};
use crate::containers::host_tool;
use crate::depend::Node;
use crate::error::{CiError, ErrorView, message, outcome};
use crate::maps::StringMap;
use crate::paths::{join_path, joined};
use crate::runner::AppContext;
use crate::strings::{cat2, cat5, list_has};
use crate::text::{has_text, lemma_take_push, lemma_texts_push, lower, occurs_at, opt_slice, texts};
use crate::workflow::{
    NativeStep, NativeWorkflow, StepView, Workflow, WorkflowKind, WorkflowProvider, WorkflowSource,
    discover_all, in_order, law_names_of_workflows, law_stems_and_extensions, name_of_workflow,
    step_is_valid,
};
use vstd::prelude::*;
use vstd::string::*;

verus! {

broadcast use {lemma_texts_push, lemma_take_push};

/// The kind of project that the files at the root of a repository tell of.
pub open spec fn stack_of_files(files: Seq<Seq<char>>) -> Option<ContainerType> {
    if files.contains("Cargo.toml"@) {
        Some(ContainerType::Rust)
    } else if files.contains("package.json"@) {
        Some(ContainerType::Node)
    } else if files.contains("go.mod"@) {
        Some(ContainerType::Go)
    } else if files.contains("pom.xml"@) {
        Some(ContainerType::Maven)
    } else if files.contains("build.gradle"@) || files.contains("build.gradle.kts"@) {
        Some(ContainerType::Gradle)
    } else if files.contains("pyproject.toml"@) || files.contains("setup.py"@) {
        Some(ContainerType::Python)
    } else {
        None
    }
}

/// The kind of project that the files at the root of a repository tell of.
pub fn detect_default_build_stack(files: &[String]) -> (r: Option<ContainerType>)
    ensures
        r == stack_of_files(texts(files@)),
{
    if list_has(files, "Cargo.toml") {
        Some(ContainerType::Rust)
    } else if list_has(files, "package.json") {
        Some(ContainerType::Node)
    } else if list_has(files, "go.mod") {
        Some(ContainerType::Go)
    } else if list_has(files, "pom.xml") {
        Some(ContainerType::Maven)
    } else if list_has(files, "build.gradle") || list_has(files, "build.gradle.kts") {
        Some(ContainerType::Gradle)
    } else if list_has(files, "pyproject.toml") || list_has(files, "setup.py") {
        Some(ContainerType::Python)
    } else {
        None
    }
}

/// The kind of project that was set: on the command line, for everything, or for
/// containers. The kinds that leave it open do not count.
pub open spec fn stack_set(
    global: Option<ContainerType>,
    config: Option<ContainerType>,
    container: Option<ContainerType>,
) -> Option<ContainerType> {
    match over(over(container, config), global) {
        Some(ContainerType::Auto) | Some(ContainerType::General) => None,
        kind => kind,
    }
}

/// The kind of project that was set.
pub fn default_tech_stack_override(ctx: &AppContext) -> (r: Option<ContainerType>)
    ensures
        r == stack_set(
            ctx.global.tech_stack,
            ctx.config.global_tech_stack,
            ctx.config.defaults.container.kind,
        ),
{
    let kind = pick(
        ctx.global.tech_stack,
        pick(ctx.config.global_tech_stack, ctx.config.defaults.container.kind),
    );
    match kind {
        Some(ContainerType::Auto) | Some(ContainerType::General) => None,
        kind => kind,
    }
}

/// The kind of project: what was set, else what the files tell.
pub open spec fn build_stack(set: Option<ContainerType>, files: Seq<Seq<char>>) -> Option<ContainerType> {
    over(stack_of_files(files), set)
}

/// The kind of project: what was set, else what the files tell.
pub fn default_build_stack(set: Option<ContainerType>, files: &[String]) -> (r: Option<ContainerType>)
    ensures
        r == build_stack(set, texts(files@)),
{
    match set {
        Some(kind) => Some(kind),
        None => detect_default_build_stack(files),
    }
}

/// The command that builds a kind of project.
pub open spec fn build_command_of(kind: ContainerType) -> Option<Seq<char>> {
    match kind {
        ContainerType::Rust => Some("cargo build"@),
        ContainerType::Node => Some("npm run build"@),
        ContainerType::Go => Some("go build ./..."@),
        ContainerType::Python => Some("python3 -m build"@),
        ContainerType::Maven => Some("mvn package"@),
        ContainerType::Gradle => Some("gradle build"@),
        ContainerType::Dotnet => Some("dotnet build"@),
        ContainerType::Auto | ContainerType::General => None,
    }
}

/// The command that builds a kind of project.
pub fn build_command(kind: ContainerType) -> (r: Option<&'static str>)
    ensures
        opt_slice(r) == build_command_of(kind),
{
    match kind {
        ContainerType::Rust => Some("cargo build"),
        ContainerType::Node => Some("npm run build"),
        ContainerType::Go => Some("go build ./..."),
        ContainerType::Python => Some("python3 -m build"),
        ContainerType::Maven => Some("mvn package"),
        ContainerType::Gradle => Some("gradle build"),
        ContainerType::Dotnet => Some("dotnet build"),
        ContainerType::Auto | ContainerType::General => None,
    }
}

/// Whether a workflow is the one that is made up for a kind of project: one step builds
/// it, in a container where the tool is not on the host.
pub open spec fn is_generated(w: Workflow, ci_dir: Seq<char>, kind: ContainerType, has_tool: bool) -> bool {
    &&& w.name@ == "build"@
    &&& w.path@ == joined(ci_dir, "build.yml"@)
    &&& w.kind == WorkflowKind::NativeYaml
    &&& w.provider == WorkflowProvider::Native
    &&& w.source matches WorkflowSource::NativeYaml(native)
    &&& native.metadata@ == (OverrideView {
        tech_stack: if has_tool {
            None
        } else {
            Some(kind)
        },
        ..OverrideView::nothing()
    })
    &&& native.needs@.len() == 0
    &&& native.steps@.len() == 1
    &&& native.steps@[0]@ == (StepView {
        name: Some("build"@),
        run: build_command_of(kind),
        uses: None,
        container: None,
        with: Map::empty(),
        extra: Map::empty(),
        shell: None,
        env: Map::empty(),
        if_condition: None,
        working_directory: None,
        continue_on_error: false,
        timeout_minutes: None,
        readonly: None,
    })
}

/// The workflows that are made up: one where the kind of project has a command that builds
/// it, else none.
pub fn generated_default_workflows(ci_dir: &str, stack: Option<ContainerType>, has_tool: bool) -> (r: Vec<Workflow>)
    ensures
        match stack {
            Some(kind) if build_command_of(kind) is Some => r@.len() == 1 && is_generated(
                r@[0],
                ci_dir@,
                kind,
                has_tool,
            ),
            _ => r@.len() == 0,
        },
{
    let mut out: Vec<Workflow> = Vec::new();
    let kind = match stack {
        Some(kind) => kind,
        None => return out,
    };
    let command = match build_command(kind) {
        Some(command) => command,
        None => return out,
    };
    let mut metadata = WorkflowOverride::default();
    if !has_tool {
        metadata.tech_stack = Some(kind);
    }
    let step = NativeStep {
        name: Some("build".to_owned()),
        run: Some(command.to_owned()),
        uses: None,
        container: None,
        with: StringMap::new(),
        extra: StringMap::new(),
        shell: None,
        env: StringMap::new(),
        if_condition: None,
        working_directory: None,
        continue_on_error: false,
        timeout_minutes: None,
        readonly: None,
    };
    let mut steps: Vec<NativeStep> = Vec::new();
    steps.push(step);
    let w = Workflow {
        name: "build".to_owned(),
        path: join_path(ci_dir, "build.yml"),
        kind: WorkflowKind::NativeYaml,
        provider: WorkflowProvider::Native,
        source: WorkflowSource::NativeYaml(NativeWorkflow { metadata, needs: Vec::new(), steps }),
    };
    out.push(w);
    out
}

/// The workflows of a repository: those that were found, else those that are made up.
pub fn available_workflows(found: Vec<Workflow>, ci_dir: &str, stack: Option<ContainerType>, has_tool: bool) -> (r: Vec<
    Workflow,
>)
    ensures
        found@.len() > 0 ==> r@ == in_order(found@),
        found@.len() == 0 ==> match stack {
            Some(kind) if build_command_of(kind) is Some => r@.len() == 1 && is_generated(
                r@[0],
                ci_dir@,
                kind,
                has_tool,
            ),
            _ => r@.len() == 0,
        },
{
    if found.len() > 0 {
        discover_all(found)
    } else {
        generated_default_workflows(ci_dir, stack, has_tool)
    }
}

/// The workflow that a new repository starts with.
pub open spec fn init_content(stack: Option<ContainerType>) -> Seq<char> {
    match stack {
        Some(ContainerType::Rust) => "name: build\non:\n  - manual\n  - pre-push\ntech: rust\ncontainer:\n  components: [cargo-fmt, cargo-clippy]\nsteps:\n  - name: Format\n    run: cargo fmt --check\n  - name: Lint\n    run: cargo clippy --all-targets -- -D warnings\n  - name: Test\n    run: cargo test --all\n  - name: Build\n    run: cargo build --release\n"@,
        Some(kind) if build_command_of(kind) is Some => "name: build\non:\n  - manual\n  - pre-push\ntech: "@
            + kind.word() + "\nsteps:\n  - name: Build\n    run: "@ + build_command_of(kind)->0 + "\n"@,
        _ => "name: build\non:\n  - manual\nsteps:\n  - name: Build\n    run: echo \"Add your build command to .ci/build.yml\"\n"@,
    }
}

/// The workflow that a new repository starts with.
pub fn init_build_workflow_content(stack: Option<ContainerType>) -> (r: String)
    ensures
        r@ == init_content(stack),
{
    match stack {
        Some(ContainerType::Rust) => "name: build\non:\n  - manual\n  - pre-push\ntech: rust\ncontainer:\n  components: [cargo-fmt, cargo-clippy]\nsteps:\n  - name: Format\n    run: cargo fmt --check\n  - name: Lint\n    run: cargo clippy --all-targets -- -D warnings\n  - name: Test\n    run: cargo test --all\n  - name: Build\n    run: cargo build --release\n".to_owned(),
        Some(kind) => match build_command(kind) {
            Some(command) => cat5(
                "name: build\non:\n  - manual\n  - pre-push\ntech: ",
                kind.as_name(),
                "\nsteps:\n  - name: Build\n    run: ",
                command,
                "\n",
            ),
            None => "name: build\non:\n  - manual\nsteps:\n  - name: Build\n    run: echo \"Add your build command to .ci/build.yml\"\n".to_owned(),
        },
        None => "name: build\non:\n  - manual\nsteps:\n  - name: Build\n    run: echo \"Add your build command to .ci/build.yml\"\n".to_owned(),
    }
}

/// The file that a new repository starts with.
#[derive(Debug)]
pub struct InitPlan {
    pub path: String,
    pub content: String,
    /// What is said once it is written.
    pub note: String,
}

#[verifier::ext_equal]
pub struct InitView {
    pub path: Seq<char>,
    pub content: Seq<char>,
    pub note: Seq<char>,
}

impl View for InitPlan {
    type V = InitView;

    open spec fn view(&self) -> InitView {
        InitView { path: self.path@, content: self.content@, note: self.note@ }
    }
}

/// The file that a new repository starts with. One that is there is not replaced unless
/// that is asked for.
pub open spec fn init_plan(ci_dir: Seq<char>, exists: bool, force: bool, stack: Option<ContainerType>) -> Result<
    InitView,
    ErrorView,
> {
    let path = joined(ci_dir, "build.yml"@);
    if exists && !force {
        Err(ErrorView::Message(path + " already exists; use `ci init --force` to replace it"@))
    } else {
        Ok(InitView { path, content: init_content(stack), note: "Created "@ + path })
    }
}

/// The file that a new repository starts with. `exists` says whether it is there already,
/// and `files` are those at the root of the repository.
pub fn cmd_init(ctx: &AppContext, args: &InitArgs, exists: bool, files: &[String]) -> (r: Result<InitPlan, CiError>)
    ensures
        outcome(r) == init_plan(
            ctx.repo.ci_dir@,
            exists,
            args.force,
            build_stack(
                stack_set(
                    ctx.global.tech_stack,
                    ctx.config.global_tech_stack,
                    ctx.config.defaults.container.kind,
                ),
                texts(files@),
            ),
        ),
{
    let path = join_path(ctx.repo.ci_dir.as_str(), "build.yml");
    if exists && !args.force {
        return Err(
            message(
                cat2(path.as_str(), " already exists; use `ci init --force` to replace it"),
            ),
        );
    }
    let stack = default_build_stack(default_tech_stack_override(ctx), files);
    let note = cat2("Created ", path.as_str());
    Ok(InitPlan { path, content: init_build_workflow_content(stack), note })
}

/// A workflow that is there already is not replaced unless that is asked for.
pub proof fn law_init_keeps_what_is_there(ci_dir: Seq<char>, stack: Option<ContainerType>)
    ensures
        init_plan(ci_dir, true, false, stack) is Err,
{
}

/// The command that builds a project calls the tool of its kind, and is one that is known to
/// build; every kind of project has one, and no other kind.
pub proof fn law_projects_are_built_by_their_tool(kind: ContainerType)
    ensures
        (build_command_of(kind) is Some) == (host_tool(kind) is Some),
        (build_command_of(kind) is None) == (kind is Auto || kind is General),
        build_command_of(kind) matches Some(command) ==> (host_tool(kind)->0 + " "@).is_prefix_of(command) && build_line(command),
{
    reveal_strlit(" ");
    reveal_strlit("cargo");
    reveal_strlit("cargo build");
    reveal_strlit("dotnet");
    reveal_strlit("dotnet build");
    reveal_strlit("go");
    reveal_strlit("go build");
    reveal_strlit("go build ./...");
    reveal_strlit("gradle");
    reveal_strlit("gradle build");
    reveal_strlit("mvn");
    reveal_strlit("mvn package");
    reveal_strlit("npm");
    reveal_strlit("npm run build");
    reveal_strlit("python3");
    reveal_strlit("python3 -m build");
    if kind is Rust {
        assert(lower("cargo build"@) =~= "cargo build"@);
        assert("cargo build"@.subrange(0, 11) =~= "cargo build"@);
        assert(occurs_at("cargo build"@, "cargo build"@, 0));
        assert(build_commands()[0] == "cargo build"@);
        assert("cargo"@ + " "@ =~= "cargo build"@.subrange(0, 6));
    }
    if kind is Node {
        assert(lower("npm run build"@) =~= "npm run build"@);
        assert("npm run build"@.subrange(0, 13) =~= "npm run build"@);
        assert(occurs_at("npm run build"@, "npm run build"@, 0));
        assert(build_commands()[1] == "npm run build"@);
        assert("npm"@ + " "@ =~= "npm run build"@.subrange(0, 4));
    }
    if kind is Go {
        assert(lower("go build ./..."@) =~= "go build ./..."@);
        assert("go build ./..."@.subrange(0, 8) =~= "go build"@);
        assert(occurs_at("go build ./..."@, "go build"@, 0));
        assert(build_commands()[5] == "go build"@);
        assert("go"@ + " "@ =~= "go build ./..."@.subrange(0, 3));
    }
    if kind is Python {
        assert(lower("python3 -m build"@) =~= "python3 -m build"@);
        assert("python3 -m build"@.subrange(0, 16) =~= "python3 -m build"@);
        assert(occurs_at("python3 -m build"@, "python3 -m build"@, 0));
        assert(build_commands()[12] == "python3 -m build"@);
        assert("python3"@ + " "@ =~= "python3 -m build"@.subrange(0, 8));
    }
    if kind is Maven {
        assert(lower("mvn package"@) =~= "mvn package"@);
        assert("mvn package"@.subrange(0, 11) =~= "mvn package"@);
        assert(occurs_at("mvn package"@, "mvn package"@, 0));
        assert(build_commands()[6] == "mvn package"@);
        assert("mvn"@ + " "@ =~= "mvn package"@.subrange(0, 4));
    }
    if kind is Gradle {
        assert(lower("gradle build"@) =~= "gradle build"@);
        assert("gradle build"@.subrange(0, 12) =~= "gradle build"@);
        assert(occurs_at("gradle build"@, "gradle build"@, 0));
        assert(build_commands()[8] == "gradle build"@);
        assert("gradle"@ + " "@ =~= "gradle build"@.subrange(0, 7));
    }
    if kind is Dotnet {
        assert(lower("dotnet build"@) =~= "dotnet build"@);
        assert("dotnet build"@.subrange(0, 12) =~= "dotnet build"@);
        assert(occurs_at("dotnet build"@, "dotnet build"@, 0));
        assert(build_commands()[10] == "dotnet build"@);
        assert("dotnet"@ + " "@ =~= "dotnet build"@.subrange(0, 7));
    }
}

/// No two kinds of project have the same tool, and so none the same build.
pub proof fn law_tools_tell_projects_apart(a: ContainerType, b: ContainerType)
    requires
        host_tool(a) is Some,
    ensures
        (host_tool(a) == host_tool(b)) == (a == b),
        (build_command_of(a) == build_command_of(b)) == (a == b),
{
    reveal_strlit("cargo");
    reveal_strlit("npm");
    reveal_strlit("go");
    reveal_strlit("python3");
    reveal_strlit("mvn");
    reveal_strlit("gradle");
    reveal_strlit("dotnet");
    reveal_strlit("cargo build");
    reveal_strlit("npm run build");
    reveal_strlit("go build ./...");
    reveal_strlit("python3 -m build");
    reveal_strlit("mvn package");
    reveal_strlit("gradle build");
    reveal_strlit("dotnet build");
    assert("npm"@.len() != "cargo"@.len());
    assert("go"@.len() != "cargo"@.len());
    assert("go"@.len() != "npm"@.len());
    assert("python3"@.len() != "cargo"@.len());
    assert("python3"@.len() != "npm"@.len());
    assert("python3"@.len() != "go"@.len());
    assert("mvn"@.len() != "cargo"@.len());
    assert("mvn"@[0] != "npm"@[0]);
    assert("mvn"@.len() != "go"@.len());
    assert("mvn"@.len() != "python3"@.len());
    assert("gradle"@.len() != "cargo"@.len());
    assert("gradle"@.len() != "npm"@.len());
    assert("gradle"@.len() != "go"@.len());
    assert("gradle"@.len() != "python3"@.len());
    assert("gradle"@.len() != "mvn"@.len());
    assert("dotnet"@.len() != "cargo"@.len());
    assert("dotnet"@.len() != "npm"@.len());
    assert("dotnet"@.len() != "go"@.len());
    assert("dotnet"@.len() != "python3"@.len());
    assert("dotnet"@.len() != "mvn"@.len());
    assert("dotnet"@[0] != "gradle"@[0]);
    assert("npm run build"@.len() != "cargo build"@.len());
    assert("go build ./..."@.len() != "cargo build"@.len());
    assert("go build ./..."@.len() != "npm run build"@.len());
    assert("python3 -m build"@.len() != "cargo build"@.len());
    assert("python3 -m build"@.len() != "npm run build"@.len());
    assert("python3 -m build"@.len() != "go build ./..."@.len());
    assert("mvn package"@[0] != "cargo build"@[0]);
    assert("mvn package"@.len() != "npm run build"@.len());
    assert("mvn package"@.len() != "go build ./..."@.len());
    assert("mvn package"@.len() != "python3 -m build"@.len());
    assert("gradle build"@.len() != "cargo build"@.len());
    assert("gradle build"@.len() != "npm run build"@.len());
    assert("gradle build"@.len() != "go build ./..."@.len());
    assert("gradle build"@.len() != "python3 -m build"@.len());
    assert("gradle build"@.len() != "mvn package"@.len());
    assert("dotnet build"@.len() != "cargo build"@.len());
    assert("dotnet build"@.len() != "npm run build"@.len());
    assert("dotnet build"@.len() != "go build ./..."@.len());
    assert("dotnet build"@.len() != "python3 -m build"@.len());
    assert("dotnet build"@.len() != "mvn package"@.len());
    assert("dotnet build"@[0] != "gradle build"@[0]);
}

/// The files of a repository tell what it holds: each of the files that say so is enough
/// where none is there that comes before it, and a repository without any holds nothing known.
pub proof fn law_files_tell_the_project(files: Seq<Seq<char>>, more: Seq<Seq<char>>)
    ensures
        files.contains("Cargo.toml"@) ==> stack_of_files(files) == Some(ContainerType::Rust),
        stack_of_files(files) == Some(ContainerType::Rust) ==> files.contains("Cargo.toml"@),
        files.contains("package.json"@) && !files.contains("Cargo.toml"@) ==> stack_of_files(files) == Some(ContainerType::Node),
        stack_of_files(files) == Some(ContainerType::Node) ==> files.contains("package.json"@),
        stack_of_files(files) == Some(ContainerType::Go) ==> files.contains("go.mod"@),
        stack_of_files(files) == Some(ContainerType::Maven) ==> files.contains("pom.xml"@),
        stack_of_files(files) == Some(ContainerType::Gradle) ==> files.contains("build.gradle"@) || files.contains(
            "build.gradle.kts"@,
        ),
        stack_of_files(files) == Some(ContainerType::Python) ==> files.contains("pyproject.toml"@) || files.contains("setup.py"@),
        stack_of_files(files) is None <==> !files.contains("Cargo.toml"@) && !files.contains("package.json"@) && !files.contains("go.mod"@) && !files.contains("pom.xml"@) && !files.contains("build.gradle"@) && !files.contains("build.gradle.kts"@) && !files.contains("pyproject.toml"@) && !files.contains("setup.py"@),
        (forall|f: Seq<char>| files.contains(f) == more.contains(f)) ==> stack_of_files(files) == stack_of_files(more),
{
}

/// A kind of project that is set counts before what the files tell: on the command line
/// before the configuration, before the container. `auto` and `general` set none.
pub proof fn law_a_set_project_counts(
    global: Option<ContainerType>,
    config: Option<ContainerType>,
    container: Option<ContainerType>,
    files: Seq<Seq<char>>,
)
    ensures
        ({
            let first = if global is Some {
                global
            } else if config is Some {
                config
            } else {
                container
            };
            let set = stack_set(global, config, container);
            &&& first is Some && !(first->0 is Auto) && !(first->0 is General) ==> set == first && build_stack(set, files)
                == first
            &&& first is None || first->0 is Auto || first->0 is General ==> set is None && build_stack(set, files)
                == stack_of_files(files)
        }),
{
}

/// A generated workflow is called `build`, runs the build of its project, and asks for the
/// container of the project exactly where the tool is not there.
pub proof fn law_a_generated_workflow_builds(w: Workflow, ci_dir: Seq<char>, kind: ContainerType, has_tool: bool)
    requires
        is_generated(w, ci_dir, kind, has_tool),
        build_command_of(kind) is Some,
    ensures
        w.name@ == "build"@,
        w.source matches WorkflowSource::NativeYaml(native) && native.steps@.len() == 1 && native.steps@[0]@.run
            == build_command_of(kind) && step_is_valid(native.steps@[0]@),
        w.own_settings().tech_stack == if has_tool {
            None
        } else {
            Some(kind)
        },
{
}

/// A new workflow file runs the build of the project; it starts by hand, and before a push
/// where the project is known.
pub proof fn law_a_new_file_builds_the_project(ci_dir: Seq<char>, stack: Option<ContainerType>, exists: bool, force: bool)
    ensures
        (init_plan(ci_dir, exists, force, stack) is Err) == (exists && !force),
        stack is Some && build_command_of(stack->0) is Some ==> has_text(
            init_content(stack),
            "run: "@ + build_command_of(stack->0)->0,
        ) && has_text(init_content(stack), "tech: "@ + stack->0.word()) && has_text(init_content(stack), "- pre-push"@),
        has_text(init_content(stack), "name: build"@) && has_text(init_content(stack), "- manual"@),
{
    lemma_init_texts();
    if stack is Some && !(stack->0 is Rust) && build_command_of(stack->0) is Some {
        let kind = stack->0;
        let a = "name: build\non:\n  - manual\n  - pre-push\ntech: "@;
        let m = "\nsteps:\n  - name: Build\n    run: "@;
        let c = build_command_of(kind)->0;
        let s = init_content(stack);
        let t = "tech: "@ + kind.word();
        let r = "run: "@ + c;
        assert(s == a + kind.word() + m + c + "\n"@);
        reveal_strlit("name: build\non:\n  - manual\n  - pre-push\ntech: ");
        reveal_strlit("\nsteps:\n  - name: Build\n    run: ");
        reveal_strlit("tech: ");
        reveal_strlit("run: ");
        reveal_strlit("- pre-push");
        reveal_strlit("name: build");
        reveal_strlit("- manual");
        let i = a.len() - 6;
        assert(s.subrange(i, i + t.len()) =~= t);
        assert(occurs_at(s, t, i));
        let j = a.len() + kind.word().len() + m.len() - 5;
        assert(s.subrange(j, j + r.len()) =~= r);
        assert(occurs_at(s, r, j));
        assert(s.subrange(0, 11) =~= "name: build"@);
        assert(occurs_at(s, "name: build"@, 0));
        assert(s.subrange(18, 26) =~= "- manual"@);
        assert(occurs_at(s, "- manual"@, 18));
        assert(s.subrange(29, 39) =~= "- pre-push"@);
        assert(occurs_at(s, "- pre-push"@, 29));
    }
}

proof fn lemma_init_texts()
    ensures
        has_text(init_content(Some(ContainerType::Rust)), "run: cargo build"@),
        "run: "@ + "cargo build"@ == "run: cargo build"@,
        "tech: "@ + "rust"@ == "tech: rust"@,
        has_text(init_content(Some(ContainerType::Rust)), "tech: rust"@),
        has_text(init_content(Some(ContainerType::Rust)), "- pre-push"@),
        has_text(init_content(Some(ContainerType::Rust)), "name: build"@),
        has_text(init_content(Some(ContainerType::Rust)), "- manual"@),
        has_text(init_content(None), "name: build"@),
        has_text(init_content(None), "- manual"@),
{
    reveal_strlit("name: build\non:\n  - manual\n  - pre-push\ntech: rust\ncontainer:\n  components: [cargo-fmt, cargo-clippy]\nsteps:\n  - name: Format\n    run: cargo fmt --check\n  - name: Lint\n    run: cargo clippy --all-targets -- -D warnings\n  - name: Test\n    run: cargo test --all\n  - name: Build\n    run: cargo build --release\n");
    reveal_strlit("name: build\non:\n  - manual\nsteps:\n  - name: Build\n    run: echo \"Add your build command to .ci/build.yml\"\n");
    reveal_strlit("run: cargo build");
    reveal_strlit("tech: rust");
    reveal_strlit("- pre-push");
    reveal_strlit("name: build");
    reveal_strlit("- manual");
    reveal_strlit("run: ");
    reveal_strlit("cargo build");
    reveal_strlit("tech: ");
    reveal_strlit("rust");
    assert("run: "@ + "cargo build"@ =~= "run: cargo build"@);
    assert("tech: "@ + "rust"@ =~= "tech: rust"@);
    let r = init_content(Some(ContainerType::Rust));
    let n = init_content(None);
    assert(r.subrange(280, 296) =~= "run: cargo build"@);
    assert(occurs_at(r, "run: cargo build"@, 280));
    assert(r.subrange(40, 50) =~= "tech: rust"@);
    assert(occurs_at(r, "tech: rust"@, 40));
    assert(r.subrange(29, 39) =~= "- pre-push"@);
    assert(occurs_at(r, "- pre-push"@, 29));
    assert(r.subrange(0, 11) =~= "name: build"@);
    assert(occurs_at(r, "name: build"@, 0));
    assert(r.subrange(18, 26) =~= "- manual"@);
    assert(occurs_at(r, "- manual"@, 18));
    assert(n.subrange(0, 11) =~= "name: build"@);
    assert(occurs_at(n, "name: build"@, 0));
    assert(n.subrange(18, 26) =~= "- manual"@);
    assert(occurs_at(n, "- manual"@, 18));
}

/// A generated workflow, and the file that a new repository starts with, are called `build` by
/// their place, and need nothing else.
pub proof fn law_the_build_is_called_build(
    w: Workflow,
    ci_dir: Seq<char>,
    kind: ContainerType,
    has_tool: bool,
    exists: bool,
    force: bool,
    stack: Option<ContainerType>,
)
    requires
        ci_dir.len() > 0,
        is_generated(w, ci_dir, kind, has_tool),
    ensures
        name_of_workflow(ci_dir, w.path@, WorkflowKind::NativeYaml) == w.name@,
        w.kind is NativeYaml && w.provider is Native,
        w.source is NativeYaml && w.source->NativeYaml_0.needs@.len() == 0,
        init_plan(ci_dir, exists, force, stack) matches Ok(plan) ==> name_of_workflow(ci_dir, plan.path, WorkflowKind::NativeYaml)
            == "build"@ && plan.path == w.path@ && plan.path.is_suffix_of(plan.note),
{
    reveal_strlit("build.yml");
    reveal_strlit("build");
    reveal_strlit("yml");
    reveal_strlit(".");
    reveal_strlit("..");
    reveal_strlit("/");
    let file = "build.yml"@;
    assert(file =~= "build"@ + "."@ + "yml"@);
    law_stems_and_extensions("build"@, "yml"@);
    assert(file.len() == 9 && "build"@.len() == 5 && "."@.len() == 1 && ".."@.len() == 2 && "/"@.len() == 1);
    law_names_of_workflows(ci_dir, "build"@, file, WorkflowKind::NativeYaml);
    if let Ok(plan) = init_plan(ci_dir, exists, force, stack) {
        let n = plan.note;
        assert(plan.path =~= n.subrange(n.len() - plan.path.len(), n.len() as int));
    }
}

} // verus!
