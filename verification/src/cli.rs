//! The command line: its options and commands, and how arguments are read.

use crate::arch::Architecture;
use crate::config::{ArtifactMode, ColorWhen, ContainerRuntime, ContainerType, GitMode, InstallMode};
use crate::hooks::{is_known_hook, known_hook};
use crate::paths::{
    file_name, file_name_of, is_name, joined, law_join_appends_components, lemma_name_parts,
    parts_of,
};
use crate::strings::{same, starts_with};
use crate::text::{lemma_take_push, lemma_texts_push, texts};
use vstd::prelude::*;
use vstd::string::*;

verus! {

broadcast use {lemma_texts_push, lemma_take_push};

/// What is asked for on the command line.
#[derive(Debug)]
pub struct Cli {
    pub global: GlobalOptions,
    pub command: Commands,
}

/// The options that hold for every command.
#[derive(Debug)]
pub struct GlobalOptions {
    pub verbose: u8,
    pub quiet: bool,
    pub silent: bool,
    pub repo: String,
    pub ci_dir: String,
    pub config: Option<String>,
    pub color: ColorWhen,
    pub git_mode: Option<GitMode>,
    pub git_command: Option<String>,
    pub git_image: Option<String>,
    pub container: bool,
    pub no_container: bool,
    pub arch: Vec<Architecture>,
    pub tech_stack: Option<ContainerType>,
}

/// The commands.
#[derive(Debug)]
pub enum Commands {
    Run(RunArgs),
    List(ListArgs),
    Install(InstallArgs),
    Uninstall(UninstallArgs),
    Update(UpdateArgs),
    Hook(HookArgs),
    Status(StatusArgs),
    Explain(ExplainArgs),
    Schema(SchemaArgs),
    Clean(CleanArgs),
    Completion(CompletionArgs),
    Man(ManArgs),
    Init(InitArgs),
    SelfCmd(SelfArgs),
}

/// How workflows are listed.
#[derive(Debug)]
pub struct ListArgs {
    pub porcelain: bool,
    pub no_porcelain: bool,
}

impl Default for ListArgs {
    fn default() -> (r: Self)
        ensures
            !r.porcelain,
            !r.no_porcelain,
    {
        ListArgs { porcelain: false, no_porcelain: false }
    }
}

impl ListArgs {
    /// Whether the list is for a program to read: what was asked for, else whether nobody
    /// looks at it.
    pub fn use_porcelain(&self, stdout_is_terminal: bool) -> (r: bool)
        ensures
            r == (self.porcelain || (!self.no_porcelain && !stdout_is_terminal)),
    {
        if self.porcelain {
            true
        } else if self.no_porcelain {
            false
        } else {
            !stdout_is_terminal
        }
    }
}

/// What to run, and how.
#[derive(Debug)]
pub struct RunArgs {
    pub workflow: Option<String>,
    pub event: String,
    pub all: bool,
    pub dry_run: bool,
    pub fail_fast: bool,
    pub keep_going: bool,
    pub container_runtime: Option<ContainerRuntime>,
    pub respect_branches: bool,
    pub no_recursive_checkout: bool,
    pub lock: bool,
}

/// How to install the tool into a repository.
#[derive(Debug)]
pub struct InstallArgs {
    pub mode: Option<InstallMode>,
    pub source: Option<String>,
    pub hooks: Option<String>,
    pub bare: bool,
    pub force: bool,
    pub backup_existing: bool,
    pub dry_run: bool,
}

/// How to remove the tool from a repository.
#[derive(Debug)]
pub struct UninstallArgs {
    pub hooks: Option<String>,
    pub keep_binary: bool,
    pub restore: bool,
    pub dry_run: bool,
}

/// How to bring the tool in a repository up to date.
#[derive(Debug)]
pub struct UpdateArgs {
    pub source: Option<String>,
    pub dry_run: bool,
}

/// The hook that Git calls, with its arguments.
#[derive(Debug)]
pub struct HookArgs {
    pub hook: String,
    pub hook_args: Vec<String>,
}

/// The status has no options of its own.
#[derive(Debug)]
pub struct StatusArgs {}

impl Default for StatusArgs {
    fn default() -> (r: Self)
        ensures
            r == (StatusArgs {  }),
    {
        StatusArgs {  }
    }
}

/// The event or workflow to explain.
#[derive(Debug)]
pub struct ExplainArgs {
    pub subject: String,
}

/// The schema to show.
#[derive(Debug)]
pub struct SchemaArgs {
    pub subject: Option<String>,
}

/// Which artifacts to take away, and where to.
#[derive(Debug)]
pub struct CleanArgs {
    pub workflow: Option<String>,
    pub run_id: Option<String>,
    pub mode: ArtifactMode,
    pub dest: Option<String>,
    pub dry_run: bool,
}

/// Whether an existing workflow is replaced.
#[derive(Debug)]
pub struct InitArgs {
    pub force: bool,
}

/// The shells that can be completed for.
#[derive(Clone, Copy, Debug, PartialEq, Eq, Structural)]
pub enum CompletionShell {
    Bash,
}

/// The shell to complete for, and where the script goes.
#[derive(Debug)]
pub struct CompletionArgs {
    pub shell: CompletionShell,
    pub output: Option<String>,
}

/// Where the manual pages go.
#[derive(Debug)]
pub struct ManArgs {
    pub dir: Option<String>,
}

/// The description of the tool itself has no options of its own.
#[derive(Debug)]
pub struct SelfArgs {}

impl Default for SelfArgs {
    fn default() -> (r: Self)
        ensures
            r == (SelfArgs {  }),
    {
        SelfArgs {  }
    }
}

/// The commands without what is asked of them.
#[derive(Clone, Copy, Debug, PartialEq, Eq, Structural)]
pub enum CommandKind {
    Run,
    List,
    Install,
    Uninstall,
    Update,
    Hook,
    Status,
    Explain,
    Schema,
    Clean,
    Completion,
    Man,
    Init,
    SelfCmd,
}

/// The command that a word names.
pub open spec fn command_named(word: Seq<char>) -> Option<CommandKind> {
    if word == "run"@ {
        Some(CommandKind::Run)
    } else if word == "list"@ || word == "ls"@ {
        Some(CommandKind::List)
    } else if word == "install"@ {
        Some(CommandKind::Install)
    } else if word == "uninstall"@ || word == "remove"@ {
        Some(CommandKind::Uninstall)
    } else if word == "update"@ {
        Some(CommandKind::Update)
    } else if word == "hook"@ {
        Some(CommandKind::Hook)
    } else if word == "status"@ || word == "doctor"@ {
        Some(CommandKind::Status)
    } else if word == "explain"@ {
        Some(CommandKind::Explain)
    } else if word == "schema"@ {
        Some(CommandKind::Schema)
    } else if word == "clean"@ {
        Some(CommandKind::Clean)
    } else if word == "completion"@ {
        Some(CommandKind::Completion)
    } else if word == "man"@ {
        Some(CommandKind::Man)
    } else if word == "init"@ {
        Some(CommandKind::Init)
    } else if word == "self"@ {
        Some(CommandKind::SelfCmd)
    } else {
        None
    }
}

/// The command that a word names.
pub fn parse_command(word: &str) -> (r: Option<CommandKind>)
    ensures
        r == command_named(word@),
{
    if same(word, "run") {
        Some(CommandKind::Run)
    } else if same(word, "list") || same(word, "ls") {
        Some(CommandKind::List)
    } else if same(word, "install") {
        Some(CommandKind::Install)
    } else if same(word, "uninstall") || same(word, "remove") {
        Some(CommandKind::Uninstall)
    } else if same(word, "update") {
        Some(CommandKind::Update)
    } else if same(word, "hook") {
        Some(CommandKind::Hook)
    } else if same(word, "status") || same(word, "doctor") {
        Some(CommandKind::Status)
    } else if same(word, "explain") {
        Some(CommandKind::Explain)
    } else if same(word, "schema") {
        Some(CommandKind::Schema)
    } else if same(word, "clean") {
        Some(CommandKind::Clean)
    } else if same(word, "completion") {
        Some(CommandKind::Completion)
    } else if same(word, "man") {
        Some(CommandKind::Man)
    } else if same(word, "init") {
        Some(CommandKind::Init)
    } else if same(word, "self") {
        Some(CommandKind::SelfCmd)
    } else {
        None
    }
}

/// Whether a word is a command, the help among them.
pub open spec fn known_command(word: Seq<char>) -> bool {
    command_named(word) is Some || word == "help"@
}

/// Whether a word is a command, the help among them.
pub fn is_known_command(command: &str) -> (r: bool)
    ensures
        r == known_command(command@),
{
    parse_command(command).is_some() || same(command, "help")
}

/// Whether an argument before the command takes the next one as its value.
pub open spec fn takes_next(arg: Seq<char>) -> bool {
    ||| arg == "--repo"@
    ||| arg == "--ci-dir"@
    ||| arg == "--config"@
    ||| arg == "--color"@
    ||| arg == "--git-mode"@
    ||| arg == "--git-command"@
    ||| arg == "--git-image"@
    ||| arg == "--arch"@
    ||| arg == "--type"@
    ||| arg == "--tech"@
    ||| arg == "--tech-stack"@
    ||| arg == "-t"@
}

/// Whether an argument before the command takes the next one as its value.
fn is_followed_by_value(arg: &str) -> (r: bool)
    ensures
        r == takes_next(arg@),
{
    same(arg, "--repo") || same(arg, "--ci-dir") || same(arg, "--config") || same(arg, "--color")
        || same(arg, "--git-mode") || same(arg, "--git-command") || same(arg, "--git-image")
        || same(arg, "--arch") || same(arg, "--type") || same(arg, "--tech")
        || same(arg, "--tech-stack") || same(arg, "-t")
}

/// Where the command stands, from a position on: after the options and their values.
pub open spec fn command_from(argv: Seq<Seq<char>>, i: int) -> Option<int>
    decreases argv.len() + 2 - i,
{
    if i < 0 || i >= argv.len() {
        None
    } else if takes_next(argv[i]) {
        command_from(argv, i + 2)
    } else if "-"@.is_prefix_of(argv[i]) {
        command_from(argv, i + 1)
    } else {
        Some(i)
    }
}

/// Where the command stands: the first argument that is no option and no value of one.
pub fn find_command_index(argv: &[String]) -> (r: Option<usize>)
    ensures
        r matches Some(i) ==> command_from(texts(argv@), 1) == Some(i as int) && 1 <= i < argv@.len(),
        r is None ==> command_from(texts(argv@), 1) is None,
{
    let ghost all = texts(argv@);
    let mut i: usize = 1;
    while i < argv.len()
        invariant
            all == texts(argv@),
            1 <= i,
            command_from(all, 1) == command_from(all, i as int),
        decreases argv.len() - i,
    {
        let arg = argv[i].as_str();
        assert(all[i as int] == arg@);
        if is_followed_by_value(arg) {
            if argv.len() - i <= 2 {
                assert(command_from(all, i + 2) is None);
                return None;
            }
            i += 2;
        } else if starts_with(arg, "-") {
            i += 1;
        } else {
            return Some(i);
        }
    }
    None
}

/// Whether the program is called by the name of a hook, and by which.
pub open spec fn called_as_hook(program: Seq<char>) -> Option<Seq<char>> {
    match file_name_of(program) {
        Some(name) => if known_hook(name) {
            Some(name)
        } else {
            None
        },
        None => None,
    }
}

/// The arguments as they are meant: a program that is called by the name of a hook runs
/// that hook, `doctor` is the status, and a word that is no command is a workflow to run.
pub open spec fn rewritten(argv: Seq<Seq<char>>) -> Seq<Seq<char>> {
    if argv.len() == 0 {
        argv
    } else {
        match called_as_hook(argv[0]) {
            Some(name) => seq![argv[0], "hook"@, name] + argv.skip(1),
            None => match command_from(argv, 1) {
                None => argv,
                Some(i) => if argv[i] == "doctor"@ {
                    argv.update(i, "status"@)
                } else if known_command(argv[i]) {
                    argv
                } else {
                    argv.insert(i, "run"@)
                },
            },
        }
    }
}

/// The arguments as they are meant.
pub fn rewrite_argv(argv: Vec<String>) -> (r: Vec<String>)
    ensures
        texts(r@) == rewritten(texts(argv@)),
{
    let ghost all = texts(argv@);
    assert(all.len() == argv@.len());
    let mut argv = argv;
    if argv.is_empty() {
        return argv;
    }
    assert(all[0] == argv@[0]@);
    if let Some(name) = file_name(argv[0].as_str()) {
        if is_known_hook(name.as_str()) {
            argv.insert(1, "hook".to_owned());
            argv.insert(2, name);
            assert(texts(argv@) =~= seq![all[0], "hook"@, name@] + all.skip(1));
            return argv;
        }
    }
    if let Some(i) = find_command_index(argv.as_slice()) {
        assert(all[i as int] == argv@[i as int]@);
        if same(argv[i].as_str(), "doctor") {
            argv.set(i, "status".to_owned());
            assert(texts(argv@) =~= all.update(i as int, "status"@));
        } else if !is_known_command(argv[i].as_str()) {
            argv.insert(i, "run".to_owned());
            assert(texts(argv@) =~= all.insert(i as int, "run"@));
        }
    }
    argv
}

/// Whether the status was asked for by its other name.
pub fn doctor_alias_used(argv: &[String]) -> (r: bool)
    ensures
        r == (command_from(texts(argv@), 1) matches Some(i) && texts(argv@)[i] == "doctor"@),
{
    match find_command_index(argv) {
        Some(i) => {
            assert(texts(argv@)[i as int] == argv@[i as int]@);
            same(argv[i].as_str(), "doctor")
        },
        None => false,
    }
}

proof fn lemma_command_from(argv: Seq<Seq<char>>, i: int)
    requires
        command_from(argv, i) is Some,
    ensures
        i <= command_from(argv, i)->0 < argv.len(),
        !"-"@.is_prefix_of(argv[command_from(argv, i)->0]),
    decreases argv.len() + 2 - i,
{
    if takes_next(argv[i]) {
        lemma_command_from(argv, i + 2);
    } else if "-"@.is_prefix_of(argv[i]) {
        lemma_command_from(argv, i + 1);
    }
}

/// Where the command stands depends only on what stands before it, and on it being a word.
proof fn lemma_same_command(a: Seq<Seq<char>>, b: Seq<Seq<char>>, i: int)
    requires
        0 <= i,
        command_from(a, i) is Some,
        command_from(a, i)->0 < b.len(),
        forall|k: int| 0 <= k < command_from(a, i)->0 ==> a[k] == #[trigger] b[k],
        !takes_next(b[command_from(a, i)->0]),
        !"-"@.is_prefix_of(b[command_from(a, i)->0]),
    ensures
        command_from(b, i) == command_from(a, i),
    decreases a.len() + 2 - i,
{
    lemma_command_from(a, i);
    let end = command_from(a, i)->0;
    if i < end {
        assert(a[i] == b[i]);
        if takes_next(a[i]) {
            lemma_command_from(a, i + 2);
            lemma_same_command(a, b, i + 2);
        } else {
            lemma_same_command(a, b, i + 1);
        }
    }
}

/// Rewriting twice is rewriting once, unless the program is called as a hook: what was
/// rewritten names a command.
pub proof fn law_rewriting_is_stable(argv: Seq<Seq<char>>)
    requires
        argv.len() > 0 ==> called_as_hook(argv[0]) is None,
    ensures
        rewritten(rewritten(argv)) == rewritten(argv),
{
    if argv.len() > 0 && command_from(argv, 1) is Some {
        let i = command_from(argv, 1)->0;
        lemma_command_from(argv, 1);
        reveal_strlit("-");
        reveal_strlit("run");
        reveal_strlit("status");
        reveal_strlit("doctor");
        reveal_strlit("--repo");
        reveal_strlit("--ci-dir");
        reveal_strlit("--config");
        reveal_strlit("--color");
        reveal_strlit("--git-mode");
        reveal_strlit("--git-command");
        reveal_strlit("--git-image");
        reveal_strlit("--arch");
        reveal_strlit("--type");
        reveal_strlit("--tech");
        reveal_strlit("--tech-stack");
        reveal_strlit("-t");
        assert("run"@[0] != '-' && "status"@[0] != '-');
        let next = rewritten(argv);
        if next != argv {
            assert(next[0] == argv[0]);
            assert(next[i] == "run"@ || next[i] == "status"@);
            assert(next[i][0] != '-');
            assert(!takes_next(next[i]));
            assert("-"@[0] == '-');
            lemma_same_command(argv, next, 1);
        }
    }
}

/// A word that is no command stands for running the workflow of that name: with `run`
/// before it, the arguments mean the same.
pub proof fn law_a_bare_word_is_a_workflow_to_run(argv: Seq<Seq<char>>, i: int)
    requires
        argv.len() > 0,
        called_as_hook(argv[0]) is None,
        command_from(argv, 1) == Some(i),
        !known_command(argv[i]),
    ensures
        rewritten(argv) == argv.insert(i, "run"@),
        rewritten(argv) == rewritten(argv.insert(i, "run"@)),
{
    law_rewriting_is_stable(argv);
    assert(command_named("doctor"@) is Some);
}

/// Arguments that name a command are left as they are, but that `doctor` is the status.
pub proof fn law_commands_are_left_alone(argv: Seq<Seq<char>>, i: int)
    requires
        argv.len() > 0,
        called_as_hook(argv[0]) is None,
        command_from(argv, 1) == Some(i),
        known_command(argv[i]),
        argv[i] != "doctor"@,
    ensures
        rewritten(argv) == argv,
{
}

/// The command stands behind the options that belong to the whole line, and behind their
/// values where they take one.
pub proof fn law_where_the_command_stands(program: Seq<char>, value: Seq<char>, word: Seq<char>, rest: Seq<Seq<char>>)
    requires
        word.len() == 0 || word[0] != '-',
    ensures
        command_from(seq![program, word] + rest, 1) == Some(1int),
        command_from(seq![program, "--repo"@, value, word] + rest, 1) == Some(3int),
        command_from(seq![program, "--ci-dir"@, value, word] + rest, 1) == Some(3int),
        command_from(seq![program, "--config"@, value, word] + rest, 1) == Some(3int),
        command_from(seq![program, "--color"@, value, word] + rest, 1) == Some(3int),
        command_from(seq![program, "--git-mode"@, value, word] + rest, 1) == Some(3int),
        command_from(seq![program, "--git-command"@, value, word] + rest, 1) == Some(3int),
        command_from(seq![program, "--git-image"@, value, word] + rest, 1) == Some(3int),
        command_from(seq![program, "--arch"@, value, word] + rest, 1) == Some(3int),
        command_from(seq![program, "--type"@, value, word] + rest, 1) == Some(3int),
        command_from(seq![program, "--tech"@, value, word] + rest, 1) == Some(3int),
        command_from(seq![program, "--tech-stack"@, value, word] + rest, 1) == Some(3int),
        command_from(seq![program, "-t"@, value, word] + rest, 1) == Some(3int),
        command_from(seq![program, "-v"@, word] + rest, 1) == Some(2int),
        command_from(seq![program, "--verbose"@, word] + rest, 1) == Some(2int),
        command_from(seq![program, "-q"@, word] + rest, 1) == Some(2int),
        command_from(seq![program, "--quiet"@, word] + rest, 1) == Some(2int),
        command_from(seq![program, "-s"@, word] + rest, 1) == Some(2int),
        command_from(seq![program, "--silent"@, word] + rest, 1) == Some(2int),
        command_from(seq![program, "--container"@, word] + rest, 1) == Some(2int),
        command_from(seq![program, "--no-container"@, word] + rest, 1) == Some(2int),
{
    lemma_plain_word(word);
    let a = seq![program, word] + rest;
    assert(a[1] == word);
    lemma_behind_value(program, "--repo"@, value, word, rest);
    lemma_behind_value(program, "--ci-dir"@, value, word, rest);
    lemma_behind_value(program, "--config"@, value, word, rest);
    lemma_behind_value(program, "--color"@, value, word, rest);
    lemma_behind_value(program, "--git-mode"@, value, word, rest);
    lemma_behind_value(program, "--git-command"@, value, word, rest);
    lemma_behind_value(program, "--git-image"@, value, word, rest);
    lemma_behind_value(program, "--arch"@, value, word, rest);
    lemma_behind_value(program, "--type"@, value, word, rest);
    lemma_behind_value(program, "--tech"@, value, word, rest);
    lemma_behind_value(program, "--tech-stack"@, value, word, rest);
    lemma_behind_value(program, "-t"@, value, word, rest);
    lemma_is_switch_0();
    lemma_behind_switch(program, "-v"@, word, rest);
    lemma_is_switch_1();
    lemma_behind_switch(program, "--verbose"@, word, rest);
    lemma_is_switch_2();
    lemma_behind_switch(program, "-q"@, word, rest);
    lemma_is_switch_3();
    lemma_behind_switch(program, "--quiet"@, word, rest);
    lemma_is_switch_4();
    lemma_behind_switch(program, "-s"@, word, rest);
    lemma_is_switch_5();
    lemma_behind_switch(program, "--silent"@, word, rest);
    lemma_is_switch_6();
    lemma_behind_switch(program, "--container"@, word, rest);
    lemma_is_switch_7();
    lemma_behind_switch(program, "--no-container"@, word, rest);
}

proof fn lemma_plain_word(word: Seq<char>)
    requires
        word.len() == 0 || word[0] != '-',
    ensures
        !takes_next(word),
        !"-"@.is_prefix_of(word),
{
    reveal_strlit("-");
    reveal_strlit("--repo");
    reveal_strlit("--ci-dir");
    reveal_strlit("--config");
    reveal_strlit("--color");
    reveal_strlit("--git-mode");
    reveal_strlit("--git-command");
    reveal_strlit("--git-image");
    reveal_strlit("--arch");
    reveal_strlit("--type");
    reveal_strlit("--tech");
    reveal_strlit("--tech-stack");
    reveal_strlit("-t");
    if "-"@.is_prefix_of(word) {
        assert("-"@[0] == word.subrange(0, 1)[0]);
    }
    assert("--repo"@[0] == '-');
    assert("--ci-dir"@[0] == '-');
    assert("--config"@[0] == '-');
    assert("--color"@[0] == '-');
    assert("--git-mode"@[0] == '-');
    assert("--git-command"@[0] == '-');
    assert("--git-image"@[0] == '-');
    assert("--arch"@[0] == '-');
    assert("--type"@[0] == '-');
    assert("--tech"@[0] == '-');
    assert("--tech-stack"@[0] == '-');
    assert("-t"@[0] == '-');
}

proof fn lemma_behind_value(program: Seq<char>, option: Seq<char>, value: Seq<char>, word: Seq<char>, rest: Seq<Seq<char>>)
    requires
        takes_next(option),
        word.len() == 0 || word[0] != '-',
    ensures
        command_from(seq![program, option, value, word] + rest, 1) == Some(3int),
{
    let a = seq![program, option, value, word] + rest;
    lemma_plain_word(word);
    assert(a[1] == option);
    assert(a[3] == word);
    assert(command_from(a, 3) == Some(3int));
}

proof fn lemma_behind_switch(program: Seq<char>, option: Seq<char>, word: Seq<char>, rest: Seq<Seq<char>>)
    requires
        !takes_next(option),
        "-"@.is_prefix_of(option),
        word.len() == 0 || word[0] != '-',
    ensures
        command_from(seq![program, option, word] + rest, 1) == Some(2int),
{
    let a = seq![program, option, word] + rest;
    lemma_plain_word(word);
    assert(a[1] == option);
    assert(a[2] == word);
    assert(command_from(a, 2) == Some(2int));
}

proof fn lemma_is_switch_0()
    ensures
        !takes_next("-v"@),
        "-"@.is_prefix_of("-v"@),
{
    reveal_strlit("-");
    reveal_strlit("-v");
    reveal_strlit("--repo");
    reveal_strlit("--ci-dir");
    reveal_strlit("--config");
    reveal_strlit("--color");
    reveal_strlit("--git-mode");
    reveal_strlit("--git-command");
    reveal_strlit("--git-image");
    reveal_strlit("--arch");
    reveal_strlit("--type");
    reveal_strlit("--tech");
    reveal_strlit("--tech-stack");
    reveal_strlit("-t");
    assert("-v"@.len() != "--repo"@.len());
    assert("-v"@.len() != "--ci-dir"@.len());
    assert("-v"@.len() != "--config"@.len());
    assert("-v"@.len() != "--color"@.len());
    assert("-v"@.len() != "--git-mode"@.len());
    assert("-v"@.len() != "--git-command"@.len());
    assert("-v"@.len() != "--git-image"@.len());
    assert("-v"@.len() != "--arch"@.len());
    assert("-v"@.len() != "--type"@.len());
    assert("-v"@.len() != "--tech"@.len());
    assert("-v"@.len() != "--tech-stack"@.len());
    assert("-v"@[1] != "-t"@[1]);
    assert("-"@ =~= "-v"@.subrange(0, 1));
}

proof fn lemma_is_switch_1()
    ensures
        !takes_next("--verbose"@),
        "-"@.is_prefix_of("--verbose"@),
{
    reveal_strlit("-");
    reveal_strlit("--verbose");
    reveal_strlit("--repo");
    reveal_strlit("--ci-dir");
    reveal_strlit("--config");
    reveal_strlit("--color");
    reveal_strlit("--git-mode");
    reveal_strlit("--git-command");
    reveal_strlit("--git-image");
    reveal_strlit("--arch");
    reveal_strlit("--type");
    reveal_strlit("--tech");
    reveal_strlit("--tech-stack");
    reveal_strlit("-t");
    assert("--verbose"@.len() != "--repo"@.len());
    assert("--verbose"@.len() != "--ci-dir"@.len());
    assert("--verbose"@.len() != "--config"@.len());
    assert("--verbose"@.len() != "--color"@.len());
    assert("--verbose"@.len() != "--git-mode"@.len());
    assert("--verbose"@.len() != "--git-command"@.len());
    assert("--verbose"@.len() != "--git-image"@.len());
    assert("--verbose"@.len() != "--arch"@.len());
    assert("--verbose"@.len() != "--type"@.len());
    assert("--verbose"@.len() != "--tech"@.len());
    assert("--verbose"@.len() != "--tech-stack"@.len());
    assert("--verbose"@.len() != "-t"@.len());
    assert("-"@ =~= "--verbose"@.subrange(0, 1));
}

proof fn lemma_is_switch_2()
    ensures
        !takes_next("-q"@),
        "-"@.is_prefix_of("-q"@),
{
    reveal_strlit("-");
    reveal_strlit("-q");
    reveal_strlit("--repo");
    reveal_strlit("--ci-dir");
    reveal_strlit("--config");
    reveal_strlit("--color");
    reveal_strlit("--git-mode");
    reveal_strlit("--git-command");
    reveal_strlit("--git-image");
    reveal_strlit("--arch");
    reveal_strlit("--type");
    reveal_strlit("--tech");
    reveal_strlit("--tech-stack");
    reveal_strlit("-t");
    assert("-q"@.len() != "--repo"@.len());
    assert("-q"@.len() != "--ci-dir"@.len());
    assert("-q"@.len() != "--config"@.len());
    assert("-q"@.len() != "--color"@.len());
    assert("-q"@.len() != "--git-mode"@.len());
    assert("-q"@.len() != "--git-command"@.len());
    assert("-q"@.len() != "--git-image"@.len());
    assert("-q"@.len() != "--arch"@.len());
    assert("-q"@.len() != "--type"@.len());
    assert("-q"@.len() != "--tech"@.len());
    assert("-q"@.len() != "--tech-stack"@.len());
    assert("-q"@[1] != "-t"@[1]);
    assert("-"@ =~= "-q"@.subrange(0, 1));
}

proof fn lemma_is_switch_3()
    ensures
        !takes_next("--quiet"@),
        "-"@.is_prefix_of("--quiet"@),
{
    reveal_strlit("-");
    reveal_strlit("--quiet");
    reveal_strlit("--repo");
    reveal_strlit("--ci-dir");
    reveal_strlit("--config");
    reveal_strlit("--color");
    reveal_strlit("--git-mode");
    reveal_strlit("--git-command");
    reveal_strlit("--git-image");
    reveal_strlit("--arch");
    reveal_strlit("--type");
    reveal_strlit("--tech");
    reveal_strlit("--tech-stack");
    reveal_strlit("-t");
    assert("--quiet"@.len() != "--repo"@.len());
    assert("--quiet"@.len() != "--ci-dir"@.len());
    assert("--quiet"@.len() != "--config"@.len());
    assert("--quiet"@[2] != "--color"@[2]);
    assert("--quiet"@.len() != "--git-mode"@.len());
    assert("--quiet"@.len() != "--git-command"@.len());
    assert("--quiet"@.len() != "--git-image"@.len());
    assert("--quiet"@.len() != "--arch"@.len());
    assert("--quiet"@.len() != "--type"@.len());
    assert("--quiet"@.len() != "--tech"@.len());
    assert("--quiet"@.len() != "--tech-stack"@.len());
    assert("--quiet"@.len() != "-t"@.len());
    assert("-"@ =~= "--quiet"@.subrange(0, 1));
}

proof fn lemma_is_switch_4()
    ensures
        !takes_next("-s"@),
        "-"@.is_prefix_of("-s"@),
{
    reveal_strlit("-");
    reveal_strlit("-s");
    reveal_strlit("--repo");
    reveal_strlit("--ci-dir");
    reveal_strlit("--config");
    reveal_strlit("--color");
    reveal_strlit("--git-mode");
    reveal_strlit("--git-command");
    reveal_strlit("--git-image");
    reveal_strlit("--arch");
    reveal_strlit("--type");
    reveal_strlit("--tech");
    reveal_strlit("--tech-stack");
    reveal_strlit("-t");
    assert("-s"@.len() != "--repo"@.len());
    assert("-s"@.len() != "--ci-dir"@.len());
    assert("-s"@.len() != "--config"@.len());
    assert("-s"@.len() != "--color"@.len());
    assert("-s"@.len() != "--git-mode"@.len());
    assert("-s"@.len() != "--git-command"@.len());
    assert("-s"@.len() != "--git-image"@.len());
    assert("-s"@.len() != "--arch"@.len());
    assert("-s"@.len() != "--type"@.len());
    assert("-s"@.len() != "--tech"@.len());
    assert("-s"@.len() != "--tech-stack"@.len());
    assert("-s"@[1] != "-t"@[1]);
    assert("-"@ =~= "-s"@.subrange(0, 1));
}

proof fn lemma_is_switch_5()
    ensures
        !takes_next("--silent"@),
        "-"@.is_prefix_of("--silent"@),
{
    reveal_strlit("-");
    reveal_strlit("--silent");
    reveal_strlit("--repo");
    reveal_strlit("--ci-dir");
    reveal_strlit("--config");
    reveal_strlit("--color");
    reveal_strlit("--git-mode");
    reveal_strlit("--git-command");
    reveal_strlit("--git-image");
    reveal_strlit("--arch");
    reveal_strlit("--type");
    reveal_strlit("--tech");
    reveal_strlit("--tech-stack");
    reveal_strlit("-t");
    assert("--silent"@.len() != "--repo"@.len());
    assert("--silent"@[2] != "--ci-dir"@[2]);
    assert("--silent"@[2] != "--config"@[2]);
    assert("--silent"@.len() != "--color"@.len());
    assert("--silent"@.len() != "--git-mode"@.len());
    assert("--silent"@.len() != "--git-command"@.len());
    assert("--silent"@.len() != "--git-image"@.len());
    assert("--silent"@.len() != "--arch"@.len());
    assert("--silent"@.len() != "--type"@.len());
    assert("--silent"@.len() != "--tech"@.len());
    assert("--silent"@.len() != "--tech-stack"@.len());
    assert("--silent"@.len() != "-t"@.len());
    assert("-"@ =~= "--silent"@.subrange(0, 1));
}

proof fn lemma_is_switch_6()
    ensures
        !takes_next("--container"@),
        "-"@.is_prefix_of("--container"@),
{
    reveal_strlit("-");
    reveal_strlit("--container");
    reveal_strlit("--repo");
    reveal_strlit("--ci-dir");
    reveal_strlit("--config");
    reveal_strlit("--color");
    reveal_strlit("--git-mode");
    reveal_strlit("--git-command");
    reveal_strlit("--git-image");
    reveal_strlit("--arch");
    reveal_strlit("--type");
    reveal_strlit("--tech");
    reveal_strlit("--tech-stack");
    reveal_strlit("-t");
    assert("--container"@.len() != "--repo"@.len());
    assert("--container"@.len() != "--ci-dir"@.len());
    assert("--container"@.len() != "--config"@.len());
    assert("--container"@.len() != "--color"@.len());
    assert("--container"@.len() != "--git-mode"@.len());
    assert("--container"@.len() != "--git-command"@.len());
    assert("--container"@[2] != "--git-image"@[2]);
    assert("--container"@.len() != "--arch"@.len());
    assert("--container"@.len() != "--type"@.len());
    assert("--container"@.len() != "--tech"@.len());
    assert("--container"@.len() != "--tech-stack"@.len());
    assert("--container"@.len() != "-t"@.len());
    assert("-"@ =~= "--container"@.subrange(0, 1));
}

proof fn lemma_is_switch_7()
    ensures
        !takes_next("--no-container"@),
        "-"@.is_prefix_of("--no-container"@),
{
    reveal_strlit("-");
    reveal_strlit("--no-container");
    reveal_strlit("--repo");
    reveal_strlit("--ci-dir");
    reveal_strlit("--config");
    reveal_strlit("--color");
    reveal_strlit("--git-mode");
    reveal_strlit("--git-command");
    reveal_strlit("--git-image");
    reveal_strlit("--arch");
    reveal_strlit("--type");
    reveal_strlit("--tech");
    reveal_strlit("--tech-stack");
    reveal_strlit("-t");
    assert("--no-container"@.len() != "--repo"@.len());
    assert("--no-container"@.len() != "--ci-dir"@.len());
    assert("--no-container"@.len() != "--config"@.len());
    assert("--no-container"@.len() != "--color"@.len());
    assert("--no-container"@.len() != "--git-mode"@.len());
    assert("--no-container"@.len() != "--git-command"@.len());
    assert("--no-container"@.len() != "--git-image"@.len());
    assert("--no-container"@.len() != "--arch"@.len());
    assert("--no-container"@.len() != "--type"@.len());
    assert("--no-container"@.len() != "--tech"@.len());
    assert("--no-container"@.len() != "--tech-stack"@.len());
    assert("--no-container"@.len() != "-t"@.len());
    assert("-"@ =~= "--no-container"@.subrange(0, 1));
}


/// Called under the name of a hook the program runs that hook, wherever it stands, with the
/// arguments that it gets; under another name it does not. `doctor` is another word for
/// `status`.
pub proof fn law_what_a_line_is_rewritten_to(argv: Seq<Seq<char>>, dir: Seq<char>, hook: Seq<char>)
    requires
        argv.len() > 0,
        dir.len() > 0,
        is_name(hook),
        hook.len() > 0,
        !hook.contains('/'),
    ensures
        argv[0] == joined(dir, hook) && known_hook(hook) ==> rewritten(argv) == seq![argv[0], "hook"@, hook] + argv.skip(1),
        argv[0] == joined(dir, hook) && !known_hook(hook) ==> called_as_hook(argv[0]) is None,
        called_as_hook(argv[0]) is None && command_from(argv, 1) is Some && argv[command_from(argv, 1)->0] == "doctor"@
            ==> rewritten(argv) == argv.update(command_from(argv, 1)->0, "status"@),
        command_named("doctor"@) == command_named("status"@),
        command_named("ls"@) == command_named("list"@),
        command_named("remove"@) == command_named("uninstall"@),
{
    lemma_name_parts(hook);
    law_join_appends_components(dir, hook);
    let p = parts_of(dir) + seq![hook];
    assert(p.last() == hook);
    reveal_strlit("run");
    reveal_strlit("list");
    reveal_strlit("ls");
    reveal_strlit("install");
    reveal_strlit("uninstall");
    reveal_strlit("remove");
    reveal_strlit("update");
    reveal_strlit("hook");
    reveal_strlit("status");
    reveal_strlit("doctor");
    reveal_strlit("explain");
    reveal_strlit("schema");
    reveal_strlit("clean");
    reveal_strlit("completion");
    reveal_strlit("man");
    reveal_strlit("init");
    reveal_strlit("self");
    reveal_strlit("help");
    assert("doctor"@.len() != "run"@.len());
    assert("doctor"@.len() != "list"@.len());
    assert("doctor"@.len() != "ls"@.len());
    assert("doctor"@.len() != "install"@.len());
    assert("doctor"@.len() != "uninstall"@.len());
    assert("doctor"@[0] != "remove"@[0]);
    assert("doctor"@[0] != "update"@[0]);
    assert("doctor"@.len() != "hook"@.len());
    assert("doctor"@[0] != "status"@[0]);
    assert("doctor"@.len() != "explain"@.len());
    assert("doctor"@[0] != "schema"@[0]);
    assert("doctor"@.len() != "clean"@.len());
    assert("doctor"@.len() != "completion"@.len());
    assert("doctor"@.len() != "man"@.len());
    assert("doctor"@.len() != "init"@.len());
    assert("doctor"@.len() != "self"@.len());
    assert("doctor"@.len() != "help"@.len());
    assert("status"@.len() != "run"@.len());
    assert("status"@.len() != "list"@.len());
    assert("status"@.len() != "ls"@.len());
    assert("status"@.len() != "install"@.len());
    assert("status"@.len() != "uninstall"@.len());
    assert("status"@[0] != "remove"@[0]);
    assert("status"@[0] != "update"@[0]);
    assert("status"@.len() != "hook"@.len());
    assert("status"@[0] != "doctor"@[0]);
    assert("status"@.len() != "explain"@.len());
    assert("status"@[1] != "schema"@[1]);
    assert("status"@.len() != "clean"@.len());
    assert("status"@.len() != "completion"@.len());
    assert("status"@.len() != "man"@.len());
    assert("status"@.len() != "init"@.len());
    assert("status"@.len() != "self"@.len());
    assert("status"@.len() != "help"@.len());
    assert("ls"@.len() != "run"@.len());
    assert("ls"@.len() != "list"@.len());
    assert("ls"@.len() != "install"@.len());
    assert("ls"@.len() != "uninstall"@.len());
    assert("ls"@.len() != "remove"@.len());
    assert("ls"@.len() != "update"@.len());
    assert("ls"@.len() != "hook"@.len());
    assert("ls"@.len() != "status"@.len());
    assert("ls"@.len() != "doctor"@.len());
    assert("ls"@.len() != "explain"@.len());
    assert("ls"@.len() != "schema"@.len());
    assert("ls"@.len() != "clean"@.len());
    assert("ls"@.len() != "completion"@.len());
    assert("ls"@.len() != "man"@.len());
    assert("ls"@.len() != "init"@.len());
    assert("ls"@.len() != "self"@.len());
    assert("ls"@.len() != "help"@.len());
    assert("list"@.len() != "run"@.len());
    assert("list"@.len() != "ls"@.len());
    assert("list"@.len() != "install"@.len());
    assert("list"@.len() != "uninstall"@.len());
    assert("list"@.len() != "remove"@.len());
    assert("list"@.len() != "update"@.len());
    assert("list"@[0] != "hook"@[0]);
    assert("list"@.len() != "status"@.len());
    assert("list"@.len() != "doctor"@.len());
    assert("list"@.len() != "explain"@.len());
    assert("list"@.len() != "schema"@.len());
    assert("list"@.len() != "clean"@.len());
    assert("list"@.len() != "completion"@.len());
    assert("list"@.len() != "man"@.len());
    assert("list"@[0] != "init"@[0]);
    assert("list"@[0] != "self"@[0]);
    assert("list"@[0] != "help"@[0]);
    assert("remove"@.len() != "run"@.len());
    assert("remove"@.len() != "list"@.len());
    assert("remove"@.len() != "ls"@.len());
    assert("remove"@.len() != "install"@.len());
    assert("remove"@.len() != "uninstall"@.len());
    assert("remove"@[0] != "update"@[0]);
    assert("remove"@.len() != "hook"@.len());
    assert("remove"@[0] != "status"@[0]);
    assert("remove"@[0] != "doctor"@[0]);
    assert("remove"@.len() != "explain"@.len());
    assert("remove"@[0] != "schema"@[0]);
    assert("remove"@.len() != "clean"@.len());
    assert("remove"@.len() != "completion"@.len());
    assert("remove"@.len() != "man"@.len());
    assert("remove"@.len() != "init"@.len());
    assert("remove"@.len() != "self"@.len());
    assert("remove"@.len() != "help"@.len());
    assert("uninstall"@.len() != "run"@.len());
    assert("uninstall"@.len() != "list"@.len());
    assert("uninstall"@.len() != "ls"@.len());
    assert("uninstall"@.len() != "install"@.len());
    assert("uninstall"@.len() != "remove"@.len());
    assert("uninstall"@.len() != "update"@.len());
    assert("uninstall"@.len() != "hook"@.len());
    assert("uninstall"@.len() != "status"@.len());
    assert("uninstall"@.len() != "doctor"@.len());
    assert("uninstall"@.len() != "explain"@.len());
    assert("uninstall"@.len() != "schema"@.len());
    assert("uninstall"@.len() != "clean"@.len());
    assert("uninstall"@.len() != "completion"@.len());
    assert("uninstall"@.len() != "man"@.len());
    assert("uninstall"@.len() != "init"@.len());
    assert("uninstall"@.len() != "self"@.len());
    assert("uninstall"@.len() != "help"@.len());
}

} // verus!
