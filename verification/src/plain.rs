//! A plain front end: a command line that is read word by word, and its commands.

use crate::arguments::{LineView, globals_are};
use crate::cli::{CommandKind, GlobalOptions, called_as_hook, command_named};
use crate::config::{
    InstallMode, color_named, install_mode_named, law_words_of_choices, parse_install_mode,
    parse_runtime, runtime_named,
};
use crate::error::{CiError, ErrorView, message, outcome, unit_outcome};
use crate::hooks::{is_known_hook, known_hook};
use crate::output::{Verbosity, details_said};
use crate::paths::file_name;
use crate::steps::opt_outcome;
use crate::strings::{cat2, cat3, cat4, copy_list, same, starts_with};
use crate::text::{lemma_take_push, lemma_texts_push, opt_text, texts};
use vstd::prelude::*;
use vstd::string::*;

verus! {

broadcast use {lemma_texts_push, lemma_take_push};

/// The options before the command.
#[derive(Debug)]
pub struct Global {
    pub repo: String,
    pub ci_dir: String,
    pub verbosity: Verbosity,
    pub color: String,
}

#[verifier::ext_equal]
pub struct GlobalView {
    pub repo: Seq<char>,
    pub ci_dir: Seq<char>,
    pub verbosity: Verbosity,
    pub color: Seq<char>,
}

impl View for Global {
    type V = GlobalView;

    open spec fn view(&self) -> GlobalView {
        GlobalView {
            repo: self.repo@,
            ci_dir: self.ci_dir@,
            verbosity: self.verbosity,
            color: self.color@,
        }
    }
}

/// The options where none is given.
pub open spec fn standard_global() -> GlobalView {
    GlobalView { repo: "."@, ci_dir: ".ci"@, verbosity: Verbosity::Normal, color: "auto"@ }
}

impl Default for Global {
    fn default() -> (r: Self)
        ensures
            r@ == standard_global(),
    {
        Global {
            repo: ".".to_owned(),
            ci_dir: ".ci".to_owned(),
            verbosity: Verbosity::Normal,
            color: "auto".to_owned(),
        }
    }
}

/// What is asked for: a command with the arguments that follow it.
#[derive(Debug)]
pub enum Request {
    Help,
    Topic(String),
    Version,
    Run(Vec<String>),
    List(Vec<String>),
    Install(Vec<String>),
    Uninstall(Vec<String>),
    Update(Vec<String>),
    Hook(String, Vec<String>),
    Doctor(Vec<String>),
    Init(Vec<String>),
    Own(Vec<String>),
}

#[verifier::ext_equal]
pub enum RequestView {
    Help,
    Topic(Seq<char>),
    Version,
    Run(Seq<Seq<char>>),
    List(Seq<Seq<char>>),
    Install(Seq<Seq<char>>),
    Uninstall(Seq<Seq<char>>),
    Update(Seq<Seq<char>>),
    Hook(Seq<char>, Seq<Seq<char>>),
    Doctor(Seq<Seq<char>>),
    Init(Seq<Seq<char>>),
    Own(Seq<Seq<char>>),
}

impl View for Request {
    type V = RequestView;

    open spec fn view(&self) -> RequestView {
        match self {
            Request::Help => RequestView::Help,
            Request::Topic(t) => RequestView::Topic(t@),
            Request::Version => RequestView::Version,
            Request::Run(a) => RequestView::Run(texts(a@)),
            Request::List(a) => RequestView::List(texts(a@)),
            Request::Install(a) => RequestView::Install(texts(a@)),
            Request::Uninstall(a) => RequestView::Uninstall(texts(a@)),
            Request::Update(a) => RequestView::Update(texts(a@)),
            Request::Hook(h, a) => RequestView::Hook(h@, texts(a@)),
            Request::Doctor(a) => RequestView::Doctor(texts(a@)),
            Request::Init(a) => RequestView::Init(texts(a@)),
            Request::Own(a) => RequestView::Own(texts(a@)),
        }
    }
}

/// The value behind an option.
pub open spec fn value_behind(args: Seq<Seq<char>>, i: int, flag: Seq<char>) -> Result<Seq<char>, ErrorView> {
    if 0 <= i < args.len() {
        Ok(args[i])
    } else {
        Err(ErrorView::Message(flag + " requires a value"@))
    }
}

/// The value behind an option.
pub fn next_arg<'a>(argv: &'a [String], i: usize, flag: &str) -> (r: Result<&'a str, CiError>)
    ensures
        match r {
            Ok(v) => value_behind(texts(argv@), i as int, flag@) == Ok::<_, ErrorView>(v@),
            Err(e) => value_behind(texts(argv@), i as int, flag@) == Err::<Seq<char>, _>(e@),
        },
{
    if i < argv.len() {
        assert(texts(argv@)[i as int] == argv@[i as int]@);
        Ok(argv[i].as_str())
    } else {
        Err(message(cat2(flag, " requires a value")))
    }
}

/// The verbosity after one more step up.
pub open spec fn louder(v: Verbosity) -> Verbosity {
    match v {
        Verbosity::Verbose(n) => Verbosity::Verbose(
            if n < 255 {
                (n + 1) as u8
            } else {
                n
            },
        ),
        _ => Verbosity::Verbose(1),
    }
}

/// The request that a command with its arguments stands for.
pub open spec fn request_for(argv: Seq<Seq<char>>, i: int) -> Result<RequestView, ErrorView> {
    let word = argv[i];
    let rest = argv.skip(i + 1);
    if word == "run"@ {
        Ok(RequestView::Run(rest))
    } else if word == "list"@ || word == "ls"@ {
        Ok(RequestView::List(rest))
    } else if word == "install"@ {
        Ok(RequestView::Install(rest))
    } else if word == "uninstall"@ || word == "remove"@ {
        Ok(RequestView::Uninstall(rest))
    } else if word == "update"@ {
        Ok(RequestView::Update(rest))
    } else if word == "hook"@ {
        if rest.len() > 0 {
            Ok(RequestView::Hook(rest[0], argv.skip(i + 2)))
        } else {
            Err(ErrorView::Message("missing hook name; try `ci hook pre-commit`"@))
        }
    } else if word == "doctor"@ {
        Ok(RequestView::Doctor(rest))
    } else if word == "init"@ {
        Ok(RequestView::Init(rest))
    } else if word == "self"@ {
        Ok(RequestView::Own(rest))
    } else if word == "help"@ {
        if rest.len() > 0 {
            Ok(RequestView::Topic(rest[0]))
        } else {
            Ok(RequestView::Help)
        }
    } else if "-"@.is_prefix_of(word) {
        Err(ErrorView::Message("unknown global option `"@ + word + "`; try `ci --help`"@))
    } else {
        Err(ErrorView::Message("unknown command `"@ + word + "`; try `ci --help`"@))
    }
}

/// What is asked for, from an argument on: options up to the command.
pub open spec fn asked_from(argv: Seq<Seq<char>>, i: int, g: GlobalView) -> Result<(GlobalView, RequestView), ErrorView>
    decreases argv.len() + 2 - i,
{
    if i < 0 || i >= argv.len() {
        Ok((g, RequestView::Help))
    } else {
        let word = argv[i];
        if word == "-h"@ || word == "--help"@ {
            Ok((g, RequestView::Help))
        } else if word == "-V"@ || word == "--version"@ {
            Ok((g, RequestView::Version))
        } else if word == "-v"@ || word == "--verbose"@ {
            asked_from(argv, i + 1, GlobalView { verbosity: louder(g.verbosity), ..g })
        } else if word == "-q"@ || word == "--quiet"@ {
            asked_from(argv, i + 1, GlobalView { verbosity: Verbosity::Quiet, ..g })
        } else if word == "--silent"@ {
            asked_from(argv, i + 1, GlobalView { verbosity: Verbosity::Silent, ..g })
        } else if word == "--repo"@ {
            match value_behind(argv, i + 1, word) {
                Ok(value) => asked_from(argv, i + 2, GlobalView { repo: value, ..g }),
                Err(e) => Err(e),
            }
        } else if word == "--ci-dir"@ {
            match value_behind(argv, i + 1, word) {
                Ok(value) => asked_from(argv, i + 2, GlobalView { ci_dir: value, ..g }),
                Err(e) => Err(e),
            }
        } else if word == "--color"@ {
            match value_behind(argv, i + 1, word) {
                Ok(value) => asked_from(argv, i + 2, GlobalView { color: value, ..g }),
                Err(e) => Err(e),
            }
        } else {
            match request_for(argv, i) {
                Ok(request) => Ok((g, request)),
                Err(e) => Err(e),
            }
        }
    }
}

/// What is asked for: a program that is called by the name of a hook runs that hook.
pub open spec fn asked(argv: Seq<Seq<char>>) -> Result<(GlobalView, RequestView), ErrorView> {
    if argv.len() > 0 && called_as_hook(argv[0]) is Some {
        Ok((standard_global(), RequestView::Hook(called_as_hook(argv[0])->0, argv.skip(1))))
    } else {
        asked_from(argv, 1, standard_global())
    }
}

fn rest_of(args: &[String], from: usize) -> (r: Vec<String>)
    requires
        from <= args@.len(),
    ensures
        texts(r@) == texts(args@).skip(from as int),
{
    let mut out: Vec<String> = Vec::new();
    let ghost all = texts(args@).skip(from as int);
    let mut i: usize = from;
    assert(texts(out@) =~= all.take(0));
    while i < args.len()
        invariant
            from <= i <= args@.len(),
            all == texts(args@).skip(from as int),
            texts(out@) == all.take(i - from),
        decreases args.len() - i,
    {
        assert(all[i - from] == args@[i as int]@);
        out.push(args[i].clone());
        i += 1;
    }
    assert(all.take(i - from) =~= all);
    out
}

fn find_request(argv: &[String], i: usize) -> (r: Result<Request, CiError>)
    requires
        i < argv@.len(),
    ensures
        outcome(r) == request_for(texts(argv@), i as int),
{
    let ghost all = texts(argv@);
    let word = argv[i].as_str();
    let n: usize = argv.len();
    assert(all[i as int] == word@);
    let rest = rest_of(argv, i + 1);
    assert(rest@.len() == texts(rest@).len());
    if same(word, "run") {
        Ok(Request::Run(rest))
    } else if same(word, "list") || same(word, "ls") {
        Ok(Request::List(rest))
    } else if same(word, "install") {
        Ok(Request::Install(rest))
    } else if same(word, "uninstall") || same(word, "remove") {
        Ok(Request::Uninstall(rest))
    } else if same(word, "update") {
        Ok(Request::Update(rest))
    } else if same(word, "hook") {
        if rest.len() > 0 {
            assert(rest@[0]@ == texts(rest@)[0]);
            Ok(Request::Hook(rest[0].clone(), rest_of(argv, i + 2)))
        } else {
            Err(message("missing hook name; try `ci hook pre-commit`".to_owned()))
        }
    } else if same(word, "doctor") {
        Ok(Request::Doctor(rest))
    } else if same(word, "init") {
        Ok(Request::Init(rest))
    } else if same(word, "self") {
        Ok(Request::Own(rest))
    } else if same(word, "help") {
        if rest.len() > 0 {
            assert(rest@[0]@ == texts(rest@)[0]);
            Ok(Request::Topic(rest[0].clone()))
        } else {
            Ok(Request::Help)
        }
    } else if starts_with(word, "-") {
        Err(message(cat3("unknown global option `", word, "`; try `ci --help`")))
    } else {
        Err(message(cat3("unknown command `", word, "`; try `ci --help`")))
    }
}

/// Options and a request by their texts, or why there are none.
pub open spec fn asked_outcome(r: Result<(Global, Request), CiError>) -> Result<(GlobalView, RequestView), ErrorView> {
    match r {
        Ok((g, q)) => Ok((g@, q@)),
        Err(e) => Err(e@),
    }
}

/// What is asked for on a command line, its first argument being the program.
pub fn real_main(argv: &[String]) -> (r: Result<(Global, Request), CiError>)
    ensures
        asked_outcome(r) == asked(texts(argv@)),
{
    let ghost all = texts(argv@);
    assert(all.len() == argv@.len());
    let mut global = Global::default();
    if argv.len() > 0 {
        assert(all[0] == argv@[0]@);
        if let Some(name) = file_name(argv[0].as_str()) {
            if is_known_hook(name.as_str()) {
                return Ok((global, Request::Hook(name, rest_of(argv, 1))));
            }
        }
    }
    let mut i: usize = 1;
    while i < argv.len()
        invariant
            1 <= i,
            all == texts(argv@),
            asked(all) == asked_from(all, i as int, global@),
        decreases argv.len() - i,
    {
        let word = argv[i].as_str();
        assert(all[i as int] == word@);
        let ghost before = global@;
        if same(word, "-h") || same(word, "--help") {
            return Ok((global, Request::Help));
        } else if same(word, "-V") || same(word, "--version") {
            return Ok((global, Request::Version));
        } else if same(word, "-v") || same(word, "--verbose") {
            global.verbosity = match global.verbosity {
                Verbosity::Verbose(n) => Verbosity::Verbose(n.saturating_add(1)),
                _ => Verbosity::Verbose(1),
            };
            i += 1;
        } else if same(word, "-q") || same(word, "--quiet") {
            global.verbosity = Verbosity::Quiet;
            i += 1;
        } else if same(word, "--silent") {
            global.verbosity = Verbosity::Silent;
            i += 1;
        } else if same(word, "--repo") || same(word, "--ci-dir") || same(word, "--color") {
            match next_arg(argv, i + 1, word) {
                Ok(value) => {
                    let value = value.to_owned();
                    if same(word, "--repo") {
                        global.repo = value;
                    } else if same(word, "--ci-dir") {
                        global.ci_dir = value;
                    } else {
                        global.color = value;
                    }
                },
                Err(e) => return Err(e),
            }
            if argv.len() - i <= 2 {
                assert(asked_from(all, i + 2, global@) == Ok::<_, ErrorView>((global@, RequestView::Help)));
                return Ok((global, Request::Help));
            }
            i += 2;
        } else {
            return match find_request(argv, i) {
                Ok(request) => Ok((global, request)),
                Err(e) => Err(e),
            };
        }
    }
    Ok((global, Request::Help))
}

/// The commands that a help text is about.
#[derive(Clone, Copy, Debug, PartialEq, Eq, Structural)]
pub enum HelpTopic {
    General,
    Run,
    Install,
    Uninstall,
    Update,
    Init,
}

/// The help text for a word: the general one where the word has none of its own.
pub fn print_command_help(topic: &str) -> (r: HelpTopic)
    ensures
        r == if topic@ == "run"@ {
            HelpTopic::Run
        } else if topic@ == "install"@ {
            HelpTopic::Install
        } else if topic@ == "uninstall"@ || topic@ == "remove"@ {
            HelpTopic::Uninstall
        } else if topic@ == "update"@ {
            HelpTopic::Update
        } else if topic@ == "init"@ {
            HelpTopic::Init
        } else {
            HelpTopic::General
        },
{
    if same(topic, "run") {
        HelpTopic::Run
    } else if same(topic, "install") {
        HelpTopic::Install
    } else if same(topic, "uninstall") || same(topic, "remove") {
        HelpTopic::Uninstall
    } else if same(topic, "update") {
        HelpTopic::Update
    } else if same(topic, "init") {
        HelpTopic::Init
    } else {
        HelpTopic::General
    }
}

/// Why an option is not taken.
pub open spec fn unknown_option(command: Seq<char>, arg: Seq<char>) -> ErrorView {
    ErrorView::Message("unknown "@ + command + " option `"@ + arg + "`; try `ci help "@ + command + "`"@)
}

fn refuse_option(command: &str, arg: &str) -> (r: CiError)
    ensures
        r@ == unknown_option(command@, arg@),
{
    let head = cat4("unknown ", command, " option `", arg);
    message(cat4(head.as_str(), "`; try `ci help ", command, "`"))
}

/// Refuses any argument.
pub fn reject_unknown_args(args: &[String], command: &str) -> (r: Result<(), CiError>)
    ensures
        unit_outcome(r) == if args@.len() == 0 {
            Ok(())
        } else {
            Err(unknown_option(command@, args@[0]@))
        },
{
    if args.len() == 0 {
        Ok(())
    } else {
        Err(refuse_option(command, args[0].as_str()))
    }
}

/// Whether an argument asks for help.
pub open spec fn asks_help(arg: Seq<char>) -> bool {
    arg == "-h"@ || arg == "--help"@
}

fn wants_help(arg: &str) -> (r: bool)
    ensures
        r == asks_help(arg@),
{
    same(arg, "-h") || same(arg, "--help")
}

/// What to run, and how.
#[derive(Debug)]
pub struct RunOptions {
    pub workflow: Option<String>,
    pub event: String,
    pub dry_run: bool,
    pub keep_going: bool,
    pub container_runtime: String,
    pub hook_args: Vec<String>,
}

#[verifier::ext_equal]
pub struct RunOptionsView {
    pub workflow: Option<Seq<char>>,
    pub event: Seq<char>,
    pub dry_run: bool,
    pub keep_going: bool,
    pub container_runtime: Seq<char>,
    pub hook_args: Seq<Seq<char>>,
}

impl View for RunOptions {
    type V = RunOptionsView;

    open spec fn view(&self) -> RunOptionsView {
        RunOptionsView {
            workflow: opt_text(self.workflow),
            event: self.event@,
            dry_run: self.dry_run,
            keep_going: self.keep_going,
            container_runtime: self.container_runtime@,
            hook_args: texts(self.hook_args@),
        }
    }
}

/// Running where nothing is given: everything, by hand, up to the first failure.
pub open spec fn standard_run() -> RunOptionsView {
    RunOptionsView {
        workflow: None,
        event: "manual"@,
        dry_run: false,
        keep_going: false,
        container_runtime: "auto"@,
        hook_args: Seq::empty(),
    }
}

/// What to run, from an argument on. The last word on a matter holds; a second workflow is
/// refused, unless all were asked for between.
pub open spec fn run_options_from(args: Seq<Seq<char>>, i: int, o: RunOptionsView) -> Result<RunOptionsView, ErrorView>
    decreases args.len() + 2 - i,
{
    if i < 0 || i >= args.len() {
        Ok(o)
    } else {
        let word = args[i];
        if asks_help(word) {
            Err(ErrorView::Message("help requested"@))
        } else if word == "--event"@ {
            match value_behind(args, i + 1, word) {
                Ok(value) => run_options_from(args, i + 2, RunOptionsView { event: value, ..o }),
                Err(e) => Err(e),
            }
        } else if word == "--container-runtime"@ {
            match value_behind(args, i + 1, word) {
                Ok(value) => run_options_from(args, i + 2, RunOptionsView { container_runtime: value, ..o }),
                Err(e) => Err(e),
            }
        } else if word == "--all"@ {
            run_options_from(args, i + 1, RunOptionsView { workflow: None, ..o })
        } else if word == "--dry-run"@ {
            run_options_from(args, i + 1, RunOptionsView { dry_run: true, ..o })
        } else if word == "--keep-going"@ {
            run_options_from(args, i + 1, RunOptionsView { keep_going: true, ..o })
        } else if word == "--fail-fast"@ {
            run_options_from(args, i + 1, RunOptionsView { keep_going: false, ..o })
        } else if "-"@.is_prefix_of(word) {
            Err(unknown_option("run"@, word))
        } else if o.workflow is Some {
            Err(ErrorView::Message("only one workflow name may be provided"@))
        } else {
            run_options_from(args, i + 1, RunOptionsView { workflow: Some(word), ..o })
        }
    }
}

/// What to run: the container runtime is one of those that there are.
pub open spec fn run_options(args: Seq<Seq<char>>) -> Result<RunOptionsView, ErrorView> {
    match run_options_from(args, 0, standard_run()) {
        Ok(o) => if runtime_named(o.container_runtime) is Some {
            Ok(o)
        } else {
            Err(ErrorView::Message("--container-runtime must be auto, podman, or docker"@))
        },
        Err(e) => Err(e),
    }
}

/// What to run.
pub fn parse_run_options(args: &[String]) -> (r: Result<RunOptions, CiError>)
    ensures
        outcome(r) == run_options(texts(args@)),
{
    let ghost all = texts(args@);
    let mut o = RunOptions {
        workflow: None,
        event: "manual".to_owned(),
        dry_run: false,
        keep_going: false,
        container_runtime: "auto".to_owned(),
        hook_args: Vec::new(),
    };
    assert(o@ =~= standard_run());
    let n: usize = args.len();
    let mut i: usize = 0;
    while i < n
        invariant
            i <= n,
            n == args@.len(),
            all == texts(args@),
            run_options_from(all, 0, standard_run()) == run_options_from(all, i as int, o@),
        decreases n - i,
    {
        let word = args[i].as_str();
        assert(all[i as int] == word@);
        if wants_help(word) {
            return Err(message("help requested".to_owned()));
        }
        i += 1;
        if same(word, "--event") || same(word, "--container-runtime") {
            match next_arg(args, i, word) {
                Ok(value) => {
                    let value = value.to_owned();
                    if same(word, "--event") {
                        o.event = value;
                    } else {
                        o.container_runtime = value;
                    }
                    i += 1;
                },
                Err(e) => return Err(e),
            }
        } else if same(word, "--all") {
            o.workflow = None;
        } else if same(word, "--dry-run") {
            o.dry_run = true;
        } else if same(word, "--keep-going") {
            o.keep_going = true;
        } else if same(word, "--fail-fast") {
            o.keep_going = false;
        } else if starts_with(word, "-") {
            return Err(refuse_option("run", word));
        } else if o.workflow.is_some() {
            return Err(message("only one workflow name may be provided".to_owned()));
        } else {
            o.workflow = Some(word.to_owned());
        }
    }
    if parse_runtime(o.container_runtime.as_str()).is_none() {
        return Err(message("--container-runtime must be auto, podman, or docker".to_owned()));
    }
    Ok(o)
}

/// What a hook runs, or that there is no such hook.
pub open spec fn hook_options(hook: Seq<char>, hook_args: Seq<Seq<char>>) -> Result<RunOptionsView, ErrorView> {
    if known_hook(hook) {
        Ok(RunOptionsView { event: hook, hook_args, ..standard_run() })
    } else {
        Err(ErrorView::Message("unknown Git hook `"@ + hook + "`"@))
    }
}

/// What a hook runs.
pub fn hook_run_options(hook: &str, hook_args: &[String]) -> (r: Result<RunOptions, CiError>)
    ensures
        outcome(r) == hook_options(hook@, texts(hook_args@)),
{
    if !is_known_hook(hook) {
        return Err(message(cat3("unknown Git hook `", hook, "`")));
    }
    Ok(
        RunOptions {
            workflow: None,
            event: hook.to_owned(),
            dry_run: false,
            keep_going: false,
            container_runtime: "auto".to_owned(),
            hook_args: copy_list(hook_args),
        },
    )
}

/// How to install, remove or update: each command knows some of these.
#[derive(Debug)]
pub struct ManageOptions {
    pub mode: String,
    pub hooks: Option<String>,
    pub source: Option<String>,
    pub force: bool,
    pub backup_existing: bool,
    pub keep_binary: bool,
    pub restore: bool,
    pub dry_run: bool,
}

#[verifier::ext_equal]
pub struct ManageView {
    pub mode: Seq<char>,
    pub hooks: Option<Seq<char>>,
    pub source: Option<Seq<char>>,
    pub force: bool,
    pub backup_existing: bool,
    pub keep_binary: bool,
    pub restore: bool,
    pub dry_run: bool,
}

impl View for ManageOptions {
    type V = ManageView;

    open spec fn view(&self) -> ManageView {
        ManageView {
            mode: self.mode@,
            hooks: opt_text(self.hooks),
            source: opt_text(self.source),
            force: self.force,
            backup_existing: self.backup_existing,
            keep_binary: self.keep_binary,
            restore: self.restore,
            dry_run: self.dry_run,
        }
    }
}

/// Where nothing is given.
pub open spec fn standard_manage() -> ManageView {
    ManageView {
        mode: "link"@,
        hooks: None,
        source: None,
        force: false,
        backup_existing: false,
        keep_binary: false,
        restore: false,
        dry_run: false,
    }
}

/// The commands that change an installation or start a repository.
#[derive(Clone, Copy, Debug, PartialEq, Eq, Structural)]
pub enum ManageKind {
    Install,
    Update,
    Uninstall,
    Init,
}

/// The name of such a command.
pub open spec fn manage_name(kind: ManageKind) -> Seq<char> {
    match kind {
        ManageKind::Install => "install"@,
        ManageKind::Update => "update"@,
        ManageKind::Uninstall => "uninstall"@,
        ManageKind::Init => "init"@,
    }
}

fn name_of_manage(kind: ManageKind) -> (r: &'static str)
    ensures
        r@ == manage_name(kind),
{
    match kind {
        ManageKind::Install => "install",
        ManageKind::Update => "update",
        ManageKind::Uninstall => "uninstall",
        ManageKind::Init => "init",
    }
}

/// The options after an option without a value, where the command has it.
pub open spec fn with_switch(kind: ManageKind, word: Seq<char>, o: ManageView) -> Option<ManageView> {
    if kind == ManageKind::Install && word == "--bare"@ {
        Some(o)
    } else if (kind == ManageKind::Install || kind == ManageKind::Init) && word == "--force"@ {
        Some(ManageView { force: true, ..o })
    } else if kind == ManageKind::Install && word == "--backup-existing"@ {
        Some(ManageView { backup_existing: true, ..o })
    } else if kind == ManageKind::Uninstall && word == "--keep-binary"@ {
        Some(ManageView { keep_binary: true, ..o })
    } else if kind == ManageKind::Uninstall && word == "--restore"@ {
        Some(ManageView { restore: true, ..o })
    } else if kind != ManageKind::Init && word == "--dry-run"@ {
        Some(ManageView { dry_run: true, ..o })
    } else {
        None
    }
}

/// The options after an option with a value, where the command has it.
pub open spec fn with_setting(kind: ManageKind, word: Seq<char>, value: Seq<char>, o: ManageView) -> Option<ManageView> {
    if kind == ManageKind::Install && word == "--mode"@ {
        Some(ManageView { mode: value, ..o })
    } else if (kind == ManageKind::Install || kind == ManageKind::Uninstall) && word == "--hooks"@ {
        Some(ManageView { hooks: Some(value), ..o })
    } else if kind == ManageKind::Update && word == "--source"@ {
        Some(ManageView { source: Some(value), ..o })
    } else {
        None
    }
}

/// The options from an argument on; nothing where help is asked for.
pub open spec fn manage_from(kind: ManageKind, args: Seq<Seq<char>>, i: int, o: ManageView) -> Result<
    Option<ManageView>,
    ErrorView,
>
    decreases args.len() + 2 - i,
{
    if i < 0 || i >= args.len() {
        Ok(Some(o))
    } else {
        let word = args[i];
        if asks_help(word) {
            Ok(None)
        } else if with_setting(kind, word, Seq::empty(), o) is Some {
            match value_behind(args, i + 1, word) {
                Ok(value) => manage_from(kind, args, i + 2, with_setting(kind, word, value, o)->0),
                Err(e) => Err(e),
            }
        } else {
            match with_switch(kind, word, o) {
                Some(next) => manage_from(kind, args, i + 1, next),
                None => Err(unknown_option(manage_name(kind), word)),
            }
        }
    }
}

/// The options of a command; nothing where help is asked for. There are two ways to
/// install.
pub open spec fn manage_options(kind: ManageKind, args: Seq<Seq<char>>) -> Result<Option<ManageView>, ErrorView> {
    match manage_from(kind, args, 0, standard_manage()) {
        Ok(Some(o)) => if install_mode_named(o.mode) is Some {
            Ok(Some(o))
        } else {
            Err(ErrorView::Message("--mode must be `link` or `copy`"@))
        },
        other => other,
    }
}

fn set_switch(kind: ManageKind, word: &str, o: &mut ManageOptions) -> (r: bool)
    ensures
        r == (with_switch(kind, word@, old(o)@) is Some),
        r ==> with_switch(kind, word@, old(o)@) == Some(final(o)@),
        !r ==> final(o)@ == old(o)@,
{
    match kind {
        ManageKind::Install => {
            if same(word, "--bare") {
                return true;
            }
            if same(word, "--force") {
                o.force = true;
                return true;
            }
            if same(word, "--backup-existing") {
                o.backup_existing = true;
                return true;
            }
        },
        ManageKind::Uninstall => {
            if same(word, "--keep-binary") {
                o.keep_binary = true;
                return true;
            }
            if same(word, "--restore") {
                o.restore = true;
                return true;
            }
        },
        ManageKind::Init => {
            if same(word, "--force") {
                o.force = true;
                return true;
            }
            return false;
        },
        ManageKind::Update => {},
    }
    if same(word, "--dry-run") {
        o.dry_run = true;
        return true;
    }
    false
}

fn has_setting(kind: ManageKind, word: &str) -> (r: bool)
    ensures
        forall|v: Seq<char>, o: ManageView| r == (#[trigger] with_setting(kind, word@, v, o) is Some),
{
    match kind {
        ManageKind::Install => same(word, "--mode") || same(word, "--hooks"),
        ManageKind::Uninstall => same(word, "--hooks"),
        ManageKind::Update => same(word, "--source"),
        ManageKind::Init => false,
    }
}

/// The options of a command that changes an installation or starts a repository.
pub fn parse_manage_options(kind: ManageKind, args: &[String]) -> (r: Result<Option<ManageOptions>, CiError>)
    ensures
        opt_outcome(r) == manage_options(kind, texts(args@)),
{
    let ghost all = texts(args@);
    let mut o = ManageOptions {
        mode: "link".to_owned(),
        hooks: None,
        source: None,
        force: false,
        backup_existing: false,
        keep_binary: false,
        restore: false,
        dry_run: false,
    };
    assert(o@ =~= standard_manage());
    let n: usize = args.len();
    let mut i: usize = 0;
    while i < n
        invariant
            i <= n,
            n == args@.len(),
            all == texts(args@),
            manage_from(kind, all, 0, standard_manage()) == manage_from(kind, all, i as int, o@),
        decreases n - i,
    {
        let word = args[i].as_str();
        assert(all[i as int] == word@);
        if wants_help(word) {
            return Ok(None);
        }
        i += 1;
        if has_setting(kind, word) {
            match next_arg(args, i, word) {
                Ok(value) => {
                    let value = value.to_owned();
                    match kind {
                        ManageKind::Install => {
                            if same(word, "--mode") {
                                o.mode = value;
                            } else {
                                o.hooks = Some(value);
                            }
                        },
                        ManageKind::Uninstall => {
                            o.hooks = Some(value);
                        },
                        _ => {
                            o.source = Some(value);
                        },
                    }
                    i += 1;
                },
                Err(e) => return Err(e),
            }
        } else if !set_switch(kind, word, &mut o) {
            return Err(refuse_option(name_of_manage(kind), word));
        }
    }
    if parse_install_mode(o.mode.as_str()).is_none() {
        return Err(message("--mode must be `link` or `copy`".to_owned()));
    }
    Ok(Some(o))
}

/// Both ways to read a line know the same words for the same commands, and hand on what
/// follows the word.
pub proof fn law_both_readers_know_the_same_commands(argv: Seq<Seq<char>>, i: int)
    requires
        0 <= i < argv.len(),
    ensures
        ({
            let command = command_named(argv[i]);
            let request = request_for(argv, i);
            let rest = argv.skip(i + 1);
            &&& (command == Some(CommandKind::Run)) == (request == Ok::<_, ErrorView>(RequestView::Run(rest)))
            &&& (command == Some(CommandKind::List)) == (request == Ok::<_, ErrorView>(RequestView::List(rest)))
            &&& (command == Some(CommandKind::Install)) == (request == Ok::<_, ErrorView>(RequestView::Install(rest)))
            &&& (command == Some(CommandKind::Uninstall)) == (request == Ok::<_, ErrorView>(RequestView::Uninstall(rest)))
            &&& (command == Some(CommandKind::Update)) == (request == Ok::<_, ErrorView>(RequestView::Update(rest)))
            &&& (command == Some(CommandKind::Init)) == (request == Ok::<_, ErrorView>(RequestView::Init(rest)))
            &&& (command == Some(CommandKind::SelfCmd)) == (request == Ok::<_, ErrorView>(RequestView::Own(rest)))
            &&& command == Some(CommandKind::Hook) && rest.len() > 0 ==> request == Ok::<_, ErrorView>(
                RequestView::Hook(rest[0], rest.skip(1)),
            )
            &&& command == Some(CommandKind::Hook) && rest.len() == 0 ==> request is Err
            &&& request == Ok::<_, ErrorView>(RequestView::Doctor(rest)) ==> command == Some(CommandKind::Status)
        }),
{
    reveal_strlit("run");
    reveal_strlit("list");
    reveal_strlit("ls");
    reveal_strlit("install");
    reveal_strlit("uninstall");
    reveal_strlit("remove");
    reveal_strlit("update");
    reveal_strlit("hook");
    reveal_strlit("status");
    reveal_strlit("doctor");
    reveal_strlit("explain");
    reveal_strlit("schema");
    reveal_strlit("clean");
    reveal_strlit("completion");
    reveal_strlit("man");
    reveal_strlit("init");
    reveal_strlit("self");
    reveal_strlit("help");
    assert("list"@.len() != "run"@.len());
    assert("ls"@.len() != "run"@.len());
    assert("ls"@.len() != "list"@.len());
    assert("install"@.len() != "run"@.len());
    assert("install"@.len() != "list"@.len());
    assert("install"@.len() != "ls"@.len());
    assert("uninstall"@.len() != "run"@.len());
    assert("uninstall"@.len() != "list"@.len());
    assert("uninstall"@.len() != "ls"@.len());
    assert("uninstall"@.len() != "install"@.len());
    assert("remove"@.len() != "run"@.len());
    assert("remove"@.len() != "list"@.len());
    assert("remove"@.len() != "ls"@.len());
    assert("remove"@.len() != "install"@.len());
    assert("remove"@.len() != "uninstall"@.len());
    assert("update"@.len() != "run"@.len());
    assert("update"@.len() != "list"@.len());
    assert("update"@.len() != "ls"@.len());
    assert("update"@.len() != "install"@.len());
    assert("update"@.len() != "uninstall"@.len());
    assert("update"@[0] != "remove"@[0]);
    assert("hook"@.len() != "run"@.len());
    assert("hook"@[0] != "list"@[0]);
    assert("hook"@.len() != "ls"@.len());
    assert("hook"@.len() != "install"@.len());
    assert("hook"@.len() != "uninstall"@.len());
    assert("hook"@.len() != "remove"@.len());
    assert("hook"@.len() != "update"@.len());
    assert("status"@.len() != "run"@.len());
    assert("status"@.len() != "list"@.len());
    assert("status"@.len() != "ls"@.len());
    assert("status"@.len() != "install"@.len());
    assert("status"@.len() != "uninstall"@.len());
    assert("status"@[0] != "remove"@[0]);
    assert("status"@[0] != "update"@[0]);
    assert("status"@.len() != "hook"@.len());
    assert("doctor"@.len() != "run"@.len());
    assert("doctor"@.len() != "list"@.len());
    assert("doctor"@.len() != "ls"@.len());
    assert("doctor"@.len() != "install"@.len());
    assert("doctor"@.len() != "uninstall"@.len());
    assert("doctor"@[0] != "remove"@[0]);
    assert("doctor"@[0] != "update"@[0]);
    assert("doctor"@.len() != "hook"@.len());
    assert("doctor"@[0] != "status"@[0]);
    assert("explain"@.len() != "run"@.len());
    assert("explain"@.len() != "list"@.len());
    assert("explain"@.len() != "ls"@.len());
    assert("explain"@[0] != "install"@[0]);
    assert("explain"@.len() != "uninstall"@.len());
    assert("explain"@.len() != "remove"@.len());
    assert("explain"@.len() != "update"@.len());
    assert("explain"@.len() != "hook"@.len());
    assert("explain"@.len() != "status"@.len());
    assert("explain"@.len() != "doctor"@.len());
    assert("schema"@.len() != "run"@.len());
    assert("schema"@.len() != "list"@.len());
    assert("schema"@.len() != "ls"@.len());
    assert("schema"@.len() != "install"@.len());
    assert("schema"@.len() != "uninstall"@.len());
    assert("schema"@[0] != "remove"@[0]);
    assert("schema"@[0] != "update"@[0]);
    assert("schema"@.len() != "hook"@.len());
    assert("schema"@[1] != "status"@[1]);
    assert("schema"@[0] != "doctor"@[0]);
    assert("schema"@.len() != "explain"@.len());
    assert("clean"@.len() != "run"@.len());
    assert("clean"@.len() != "list"@.len());
    assert("clean"@.len() != "ls"@.len());
    assert("clean"@.len() != "install"@.len());
    assert("clean"@.len() != "uninstall"@.len());
    assert("clean"@.len() != "remove"@.len());
    assert("clean"@.len() != "update"@.len());
    assert("clean"@.len() != "hook"@.len());
    assert("clean"@.len() != "status"@.len());
    assert("clean"@.len() != "doctor"@.len());
    assert("clean"@.len() != "explain"@.len());
    assert("clean"@.len() != "schema"@.len());
    assert("completion"@.len() != "run"@.len());
    assert("completion"@.len() != "list"@.len());
    assert("completion"@.len() != "ls"@.len());
    assert("completion"@.len() != "install"@.len());
    assert("completion"@.len() != "uninstall"@.len());
    assert("completion"@.len() != "remove"@.len());
    assert("completion"@.len() != "update"@.len());
    assert("completion"@.len() != "hook"@.len());
    assert("completion"@.len() != "status"@.len());
    assert("completion"@.len() != "doctor"@.len());
    assert("completion"@.len() != "explain"@.len());
    assert("completion"@.len() != "schema"@.len());
    assert("completion"@.len() != "clean"@.len());
    assert("man"@[0] != "run"@[0]);
    assert("man"@.len() != "list"@.len());
    assert("man"@.len() != "ls"@.len());
    assert("man"@.len() != "install"@.len());
    assert("man"@.len() != "uninstall"@.len());
    assert("man"@.len() != "remove"@.len());
    assert("man"@.len() != "update"@.len());
    assert("man"@.len() != "hook"@.len());
    assert("man"@.len() != "status"@.len());
    assert("man"@.len() != "doctor"@.len());
    assert("man"@.len() != "explain"@.len());
    assert("man"@.len() != "schema"@.len());
    assert("man"@.len() != "clean"@.len());
    assert("man"@.len() != "completion"@.len());
    assert("init"@.len() != "run"@.len());
    assert("init"@[0] != "list"@[0]);
    assert("init"@.len() != "ls"@.len());
    assert("init"@.len() != "install"@.len());
    assert("init"@.len() != "uninstall"@.len());
    assert("init"@.len() != "remove"@.len());
    assert("init"@.len() != "update"@.len());
    assert("init"@[0] != "hook"@[0]);
    assert("init"@.len() != "status"@.len());
    assert("init"@.len() != "doctor"@.len());
    assert("init"@.len() != "explain"@.len());
    assert("init"@.len() != "schema"@.len());
    assert("init"@.len() != "clean"@.len());
    assert("init"@.len() != "completion"@.len());
    assert("init"@.len() != "man"@.len());
    assert("self"@.len() != "run"@.len());
    assert("self"@[0] != "list"@[0]);
    assert("self"@.len() != "ls"@.len());
    assert("self"@.len() != "install"@.len());
    assert("self"@.len() != "uninstall"@.len());
    assert("self"@.len() != "remove"@.len());
    assert("self"@.len() != "update"@.len());
    assert("self"@[0] != "hook"@[0]);
    assert("self"@.len() != "status"@.len());
    assert("self"@.len() != "doctor"@.len());
    assert("self"@.len() != "explain"@.len());
    assert("self"@.len() != "schema"@.len());
    assert("self"@.len() != "clean"@.len());
    assert("self"@.len() != "completion"@.len());
    assert("self"@.len() != "man"@.len());
    assert("self"@[0] != "init"@[0]);
    assert("help"@.len() != "run"@.len());
    assert("help"@[0] != "list"@[0]);
    assert("help"@.len() != "ls"@.len());
    assert("help"@.len() != "install"@.len());
    assert("help"@.len() != "uninstall"@.len());
    assert("help"@.len() != "remove"@.len());
    assert("help"@.len() != "update"@.len());
    assert("help"@[1] != "hook"@[1]);
    assert("help"@.len() != "status"@.len());
    assert("help"@.len() != "doctor"@.len());
    assert("help"@.len() != "explain"@.len());
    assert("help"@.len() != "schema"@.len());
    assert("help"@.len() != "clean"@.len());
    assert("help"@.len() != "completion"@.len());
    assert("help"@.len() != "man"@.len());
    assert("help"@[0] != "init"@[0]);
    assert("help"@[0] != "self"@[0]);
    if i + 1 < argv.len() {
        assert(argv.skip(i + 1).skip(1) =~= argv.skip(i + 2));
    }
}

/// Each `-v` says more by one degree, and the first one starts to, whatever was said before.
pub proof fn law_louder(v: Verbosity, n: u8)
    ensures
        details_said(louder(v)),
        n < 255 ==> louder(Verbosity::Verbose(n)) == Verbosity::Verbose((n + 1) as u8),
        louder(Verbosity::Verbose(255)) == Verbosity::Verbose(255),
        !(v is Verbose) ==> louder(v) == Verbosity::Verbose(1),
{
}

/// Options of the whole line change what they name and nothing else, and the command behind
/// them is read as without them.
pub proof fn law_options_of_the_line(argv: Seq<Seq<char>>, i: int, g: GlobalView)
    requires
        0 <= i < argv.len(),
    ensures
        ({
            let word = argv[i];
            let read = asked_from(argv, i, g);
            let more = i + 1 < argv.len();
            &&& word == "--repo"@ && more ==> read == asked_from(argv, i + 2, GlobalView { repo: argv[i + 1], ..g })
            &&& word == "--ci-dir"@ && more ==> read == asked_from(argv, i + 2, GlobalView { ci_dir: argv[i + 1], ..g })
            &&& word == "--color"@ && more ==> read == asked_from(argv, i + 2, GlobalView { color: argv[i + 1], ..g })
            &&& (word == "--repo"@ || word == "--ci-dir"@ || word == "--color"@) && !more ==> read is Err
            &&& word == "-q"@ || word == "--quiet"@ ==> read == asked_from(
                argv,
                i + 1,
                GlobalView { verbosity: Verbosity::Quiet, ..g },
            )
            &&& word == "--silent"@ ==> read == asked_from(argv, i + 1, GlobalView { verbosity: Verbosity::Silent, ..g })
            &&& word == "-v"@ || word == "--verbose"@ ==> read == asked_from(
                argv,
                i + 1,
                GlobalView { verbosity: louder(g.verbosity), ..g },
            )
            &&& word == "-h"@ || word == "--help"@ ==> read == Ok::<_, ErrorView>((g, RequestView::Help))
            &&& word == "-V"@ || word == "--version"@ ==> read == Ok::<_, ErrorView>((g, RequestView::Version))
            &&& request_for(argv, i) is Ok ==> read == Ok::<_, ErrorView>((g, request_for(argv, i)->Ok_0))
            &&& asked_from(argv, argv.len() as int, g) == Ok::<_, ErrorView>((g, RequestView::Help))
        }),
{
    reveal_strlit("-h");
    reveal_strlit("--help");
    reveal_strlit("-V");
    reveal_strlit("--version");
    reveal_strlit("-v");
    reveal_strlit("--verbose");
    reveal_strlit("-q");
    reveal_strlit("--quiet");
    reveal_strlit("--silent");
    reveal_strlit("--repo");
    reveal_strlit("--ci-dir");
    reveal_strlit("--color");
    reveal_strlit("run");
    reveal_strlit("list");
    reveal_strlit("ls");
    reveal_strlit("install");
    reveal_strlit("uninstall");
    reveal_strlit("remove");
    reveal_strlit("update");
    reveal_strlit("hook");
    reveal_strlit("status");
    reveal_strlit("doctor");
    reveal_strlit("explain");
    reveal_strlit("schema");
    reveal_strlit("clean");
    reveal_strlit("completion");
    reveal_strlit("man");
    reveal_strlit("init");
    reveal_strlit("self");
    reveal_strlit("help");
    assert("--help"@.len() != "-h"@.len());
    assert("-V"@[1] != "-h"@[1]);
    assert("-V"@.len() != "--help"@.len());
    assert("--version"@.len() != "-h"@.len());
    assert("--version"@.len() != "--help"@.len());
    assert("--version"@.len() != "-V"@.len());
    assert("-v"@[1] != "-h"@[1]);
    assert("-v"@.len() != "--help"@.len());
    assert("-v"@[1] != "-V"@[1]);
    assert("-v"@.len() != "--version"@.len());
    assert("--verbose"@.len() != "-h"@.len());
    assert("--verbose"@.len() != "--help"@.len());
    assert("--verbose"@.len() != "-V"@.len());
    assert("--verbose"@[5] != "--version"@[5]);
    assert("--verbose"@.len() != "-v"@.len());
    assert("-q"@[1] != "-h"@[1]);
    assert("-q"@.len() != "--help"@.len());
    assert("-q"@[1] != "-V"@[1]);
    assert("-q"@.len() != "--version"@.len());
    assert("-q"@[1] != "-v"@[1]);
    assert("-q"@.len() != "--verbose"@.len());
    assert("--quiet"@.len() != "-h"@.len());
    assert("--quiet"@.len() != "--help"@.len());
    assert("--quiet"@.len() != "-V"@.len());
    assert("--quiet"@.len() != "--version"@.len());
    assert("--quiet"@.len() != "-v"@.len());
    assert("--quiet"@.len() != "--verbose"@.len());
    assert("--quiet"@.len() != "-q"@.len());
    assert("--silent"@.len() != "-h"@.len());
    assert("--silent"@.len() != "--help"@.len());
    assert("--silent"@.len() != "-V"@.len());
    assert("--silent"@.len() != "--version"@.len());
    assert("--silent"@.len() != "-v"@.len());
    assert("--silent"@.len() != "--verbose"@.len());
    assert("--silent"@.len() != "-q"@.len());
    assert("--silent"@.len() != "--quiet"@.len());
    assert("--repo"@.len() != "-h"@.len());
    assert("--repo"@[2] != "--help"@[2]);
    assert("--repo"@.len() != "-V"@.len());
    assert("--repo"@.len() != "--version"@.len());
    assert("--repo"@.len() != "-v"@.len());
    assert("--repo"@.len() != "--verbose"@.len());
    assert("--repo"@.len() != "-q"@.len());
    assert("--repo"@.len() != "--quiet"@.len());
    assert("--repo"@.len() != "--silent"@.len());
    assert("--ci-dir"@.len() != "-h"@.len());
    assert("--ci-dir"@.len() != "--help"@.len());
    assert("--ci-dir"@.len() != "-V"@.len());
    assert("--ci-dir"@.len() != "--version"@.len());
    assert("--ci-dir"@.len() != "-v"@.len());
    assert("--ci-dir"@.len() != "--verbose"@.len());
    assert("--ci-dir"@.len() != "-q"@.len());
    assert("--ci-dir"@.len() != "--quiet"@.len());
    assert("--ci-dir"@[2] != "--silent"@[2]);
    assert("--ci-dir"@.len() != "--repo"@.len());
    assert("--color"@.len() != "-h"@.len());
    assert("--color"@.len() != "--help"@.len());
    assert("--color"@.len() != "-V"@.len());
    assert("--color"@.len() != "--version"@.len());
    assert("--color"@.len() != "-v"@.len());
    assert("--color"@.len() != "--verbose"@.len());
    assert("--color"@.len() != "-q"@.len());
    assert("--color"@[2] != "--quiet"@[2]);
    assert("--color"@.len() != "--silent"@.len());
    assert("--color"@.len() != "--repo"@.len());
    assert("--color"@.len() != "--ci-dir"@.len());
    assert("-h"@.len() != "run"@.len());
    assert("-h"@.len() != "list"@.len());
    assert("-h"@[0] != "ls"@[0]);
    assert("-h"@.len() != "install"@.len());
    assert("-h"@.len() != "uninstall"@.len());
    assert("-h"@.len() != "remove"@.len());
    assert("-h"@.len() != "update"@.len());
    assert("-h"@.len() != "hook"@.len());
    assert("-h"@.len() != "status"@.len());
    assert("-h"@.len() != "doctor"@.len());
    assert("-h"@.len() != "explain"@.len());
    assert("-h"@.len() != "schema"@.len());
    assert("-h"@.len() != "clean"@.len());
    assert("-h"@.len() != "completion"@.len());
    assert("-h"@.len() != "man"@.len());
    assert("-h"@.len() != "init"@.len());
    assert("-h"@.len() != "self"@.len());
    assert("-h"@.len() != "help"@.len());
    assert("--help"@.len() != "run"@.len());
    assert("--help"@.len() != "list"@.len());
    assert("--help"@.len() != "ls"@.len());
    assert("--help"@.len() != "install"@.len());
    assert("--help"@.len() != "uninstall"@.len());
    assert("--help"@[0] != "remove"@[0]);
    assert("--help"@[0] != "update"@[0]);
    assert("--help"@.len() != "hook"@.len());
    assert("--help"@[0] != "status"@[0]);
    assert("--help"@[0] != "doctor"@[0]);
    assert("--help"@.len() != "explain"@.len());
    assert("--help"@[0] != "schema"@[0]);
    assert("--help"@.len() != "clean"@.len());
    assert("--help"@.len() != "completion"@.len());
    assert("--help"@.len() != "man"@.len());
    assert("--help"@.len() != "init"@.len());
    assert("--help"@.len() != "self"@.len());
    assert("--help"@.len() != "help"@.len());
    assert("-V"@.len() != "run"@.len());
    assert("-V"@.len() != "list"@.len());
    assert("-V"@[0] != "ls"@[0]);
    assert("-V"@.len() != "install"@.len());
    assert("-V"@.len() != "uninstall"@.len());
    assert("-V"@.len() != "remove"@.len());
    assert("-V"@.len() != "update"@.len());
    assert("-V"@.len() != "hook"@.len());
    assert("-V"@.len() != "status"@.len());
    assert("-V"@.len() != "doctor"@.len());
    assert("-V"@.len() != "explain"@.len());
    assert("-V"@.len() != "schema"@.len());
    assert("-V"@.len() != "clean"@.len());
    assert("-V"@.len() != "completion"@.len());
    assert("-V"@.len() != "man"@.len());
    assert("-V"@.len() != "init"@.len());
    assert("-V"@.len() != "self"@.len());
    assert("-V"@.len() != "help"@.len());
    assert("--version"@.len() != "run"@.len());
    assert("--version"@.len() != "list"@.len());
    assert("--version"@.len() != "ls"@.len());
    assert("--version"@.len() != "install"@.len());
    assert("--version"@[0] != "uninstall"@[0]);
    assert("--version"@.len() != "remove"@.len());
    assert("--version"@.len() != "update"@.len());
    assert("--version"@.len() != "hook"@.len());
    assert("--version"@.len() != "status"@.len());
    assert("--version"@.len() != "doctor"@.len());
    assert("--version"@.len() != "explain"@.len());
    assert("--version"@.len() != "schema"@.len());
    assert("--version"@.len() != "clean"@.len());
    assert("--version"@.len() != "completion"@.len());
    assert("--version"@.len() != "man"@.len());
    assert("--version"@.len() != "init"@.len());
    assert("--version"@.len() != "self"@.len());
    assert("--version"@.len() != "help"@.len());
    assert("-v"@.len() != "run"@.len());
    assert("-v"@.len() != "list"@.len());
    assert("-v"@[0] != "ls"@[0]);
    assert("-v"@.len() != "install"@.len());
    assert("-v"@.len() != "uninstall"@.len());
    assert("-v"@.len() != "remove"@.len());
    assert("-v"@.len() != "update"@.len());
    assert("-v"@.len() != "hook"@.len());
    assert("-v"@.len() != "status"@.len());
    assert("-v"@.len() != "doctor"@.len());
    assert("-v"@.len() != "explain"@.len());
    assert("-v"@.len() != "schema"@.len());
    assert("-v"@.len() != "clean"@.len());
    assert("-v"@.len() != "completion"@.len());
    assert("-v"@.len() != "man"@.len());
    assert("-v"@.len() != "init"@.len());
    assert("-v"@.len() != "self"@.len());
    assert("-v"@.len() != "help"@.len());
    assert("--verbose"@.len() != "run"@.len());
    assert("--verbose"@.len() != "list"@.len());
    assert("--verbose"@.len() != "ls"@.len());
    assert("--verbose"@.len() != "install"@.len());
    assert("--verbose"@[0] != "uninstall"@[0]);
    assert("--verbose"@.len() != "remove"@.len());
    assert("--verbose"@.len() != "update"@.len());
    assert("--verbose"@.len() != "hook"@.len());
    assert("--verbose"@.len() != "status"@.len());
    assert("--verbose"@.len() != "doctor"@.len());
    assert("--verbose"@.len() != "explain"@.len());
    assert("--verbose"@.len() != "schema"@.len());
    assert("--verbose"@.len() != "clean"@.len());
    assert("--verbose"@.len() != "completion"@.len());
    assert("--verbose"@.len() != "man"@.len());
    assert("--verbose"@.len() != "init"@.len());
    assert("--verbose"@.len() != "self"@.len());
    assert("--verbose"@.len() != "help"@.len());
    assert("-q"@.len() != "run"@.len());
    assert("-q"@.len() != "list"@.len());
    assert("-q"@[0] != "ls"@[0]);
    assert("-q"@.len() != "install"@.len());
    assert("-q"@.len() != "uninstall"@.len());
    assert("-q"@.len() != "remove"@.len());
    assert("-q"@.len() != "update"@.len());
    assert("-q"@.len() != "hook"@.len());
    assert("-q"@.len() != "status"@.len());
    assert("-q"@.len() != "doctor"@.len());
    assert("-q"@.len() != "explain"@.len());
    assert("-q"@.len() != "schema"@.len());
    assert("-q"@.len() != "clean"@.len());
    assert("-q"@.len() != "completion"@.len());
    assert("-q"@.len() != "man"@.len());
    assert("-q"@.len() != "init"@.len());
    assert("-q"@.len() != "self"@.len());
    assert("-q"@.len() != "help"@.len());
    assert("--quiet"@.len() != "run"@.len());
    assert("--quiet"@.len() != "list"@.len());
    assert("--quiet"@.len() != "ls"@.len());
    assert("--quiet"@[0] != "install"@[0]);
    assert("--quiet"@.len() != "uninstall"@.len());
    assert("--quiet"@.len() != "remove"@.len());
    assert("--quiet"@.len() != "update"@.len());
    assert("--quiet"@.len() != "hook"@.len());
    assert("--quiet"@.len() != "status"@.len());
    assert("--quiet"@.len() != "doctor"@.len());
    assert("--quiet"@[0] != "explain"@[0]);
    assert("--quiet"@.len() != "schema"@.len());
    assert("--quiet"@.len() != "clean"@.len());
    assert("--quiet"@.len() != "completion"@.len());
    assert("--quiet"@.len() != "man"@.len());
    assert("--quiet"@.len() != "init"@.len());
    assert("--quiet"@.len() != "self"@.len());
    assert("--quiet"@.len() != "help"@.len());
    assert("--silent"@.len() != "run"@.len());
    assert("--silent"@.len() != "list"@.len());
    assert("--silent"@.len() != "ls"@.len());
    assert("--silent"@.len() != "install"@.len());
    assert("--silent"@.len() != "uninstall"@.len());
    assert("--silent"@.len() != "remove"@.len());
    assert("--silent"@.len() != "update"@.len());
    assert("--silent"@.len() != "hook"@.len());
    assert("--silent"@.len() != "status"@.len());
    assert("--silent"@.len() != "doctor"@.len());
    assert("--silent"@.len() != "explain"@.len());
    assert("--silent"@.len() != "schema"@.len());
    assert("--silent"@.len() != "clean"@.len());
    assert("--silent"@.len() != "completion"@.len());
    assert("--silent"@.len() != "man"@.len());
    assert("--silent"@.len() != "init"@.len());
    assert("--silent"@.len() != "self"@.len());
    assert("--silent"@.len() != "help"@.len());
    assert("--repo"@.len() != "run"@.len());
    assert("--repo"@.len() != "list"@.len());
    assert("--repo"@.len() != "ls"@.len());
    assert("--repo"@.len() != "install"@.len());
    assert("--repo"@.len() != "uninstall"@.len());
    assert("--repo"@[0] != "remove"@[0]);
    assert("--repo"@[0] != "update"@[0]);
    assert("--repo"@.len() != "hook"@.len());
    assert("--repo"@[0] != "status"@[0]);
    assert("--repo"@[0] != "doctor"@[0]);
    assert("--repo"@.len() != "explain"@.len());
    assert("--repo"@[0] != "schema"@[0]);
    assert("--repo"@.len() != "clean"@.len());
    assert("--repo"@.len() != "completion"@.len());
    assert("--repo"@.len() != "man"@.len());
    assert("--repo"@.len() != "init"@.len());
    assert("--repo"@.len() != "self"@.len());
    assert("--repo"@.len() != "help"@.len());
    assert("--ci-dir"@.len() != "run"@.len());
    assert("--ci-dir"@.len() != "list"@.len());
    assert("--ci-dir"@.len() != "ls"@.len());
    assert("--ci-dir"@.len() != "install"@.len());
    assert("--ci-dir"@.len() != "uninstall"@.len());
    assert("--ci-dir"@.len() != "remove"@.len());
    assert("--ci-dir"@.len() != "update"@.len());
    assert("--ci-dir"@.len() != "hook"@.len());
    assert("--ci-dir"@.len() != "status"@.len());
    assert("--ci-dir"@.len() != "doctor"@.len());
    assert("--ci-dir"@.len() != "explain"@.len());
    assert("--ci-dir"@.len() != "schema"@.len());
    assert("--ci-dir"@.len() != "clean"@.len());
    assert("--ci-dir"@.len() != "completion"@.len());
    assert("--ci-dir"@.len() != "man"@.len());
    assert("--ci-dir"@.len() != "init"@.len());
    assert("--ci-dir"@.len() != "self"@.len());
    assert("--ci-dir"@.len() != "help"@.len());
    assert("--color"@.len() != "run"@.len());
    assert("--color"@.len() != "list"@.len());
    assert("--color"@.len() != "ls"@.len());
    assert("--color"@[0] != "install"@[0]);
    assert("--color"@.len() != "uninstall"@.len());
    assert("--color"@.len() != "remove"@.len());
    assert("--color"@.len() != "update"@.len());
    assert("--color"@.len() != "hook"@.len());
    assert("--color"@.len() != "status"@.len());
    assert("--color"@.len() != "doctor"@.len());
    assert("--color"@[0] != "explain"@[0]);
    assert("--color"@.len() != "schema"@.len());
    assert("--color"@.len() != "clean"@.len());
    assert("--color"@.len() != "completion"@.len());
    assert("--color"@.len() != "man"@.len());
    assert("--color"@.len() != "init"@.len());
    assert("--color"@.len() != "self"@.len());
    assert("--color"@.len() != "help"@.len());
}

/// Options of a run change what they name and nothing else; a bare word names the workflow,
/// once; a later option counts.
pub proof fn law_options_of_a_run(args: Seq<Seq<char>>, i: int, o: RunOptionsView)
    requires
        0 <= i < args.len(),
    ensures
        ({
            let word = args[i];
            let read = run_options_from(args, i, o);
            let more = i + 1 < args.len();
            &&& word == "--event"@ && more ==> read == run_options_from(args, i + 2, RunOptionsView { event: args[i + 1], ..o })
            &&& word == "--container-runtime"@ && more ==> read == run_options_from(
                args,
                i + 2,
                RunOptionsView { container_runtime: args[i + 1], ..o },
            )
            &&& (word == "--event"@ || word == "--container-runtime"@) && !more ==> read is Err
            &&& word == "--all"@ ==> read == run_options_from(args, i + 1, RunOptionsView { workflow: None, ..o })
            &&& word == "--dry-run"@ ==> read == run_options_from(args, i + 1, RunOptionsView { dry_run: true, ..o })
            &&& word == "--keep-going"@ ==> read == run_options_from(args, i + 1, RunOptionsView { keep_going: true, ..o })
            &&& word == "--fail-fast"@ ==> read == run_options_from(args, i + 1, RunOptionsView { keep_going: false, ..o })
            &&& (word.len() == 0 || word[0] != '-') && o.workflow is None ==> read == run_options_from(
                args,
                i + 1,
                RunOptionsView { workflow: Some(word), ..o },
            )
            &&& (word.len() == 0 || word[0] != '-') && o.workflow is Some ==> read is Err
            &&& word == "-h"@ || word == "--help"@ ==> read is Err
            &&& run_options_from(args, args.len() as int, o) == Ok::<_, ErrorView>(o)
        }),
{
    reveal_strlit("-");
    reveal_strlit("-h");
    reveal_strlit("--help");
    reveal_strlit("--event");
    reveal_strlit("--container-runtime");
    reveal_strlit("--all");
    reveal_strlit("--dry-run");
    reveal_strlit("--keep-going");
    reveal_strlit("--fail-fast");
    assert("--help"@.len() != "-h"@.len());
    assert("--event"@.len() != "-h"@.len());
    assert("--event"@.len() != "--help"@.len());
    assert("--container-runtime"@.len() != "-h"@.len());
    assert("--container-runtime"@.len() != "--help"@.len());
    assert("--container-runtime"@.len() != "--event"@.len());
    assert("--all"@.len() != "-h"@.len());
    assert("--all"@.len() != "--help"@.len());
    assert("--all"@.len() != "--event"@.len());
    assert("--all"@.len() != "--container-runtime"@.len());
    assert("--dry-run"@.len() != "-h"@.len());
    assert("--dry-run"@.len() != "--help"@.len());
    assert("--dry-run"@.len() != "--event"@.len());
    assert("--dry-run"@.len() != "--container-runtime"@.len());
    assert("--dry-run"@.len() != "--all"@.len());
    assert("--keep-going"@.len() != "-h"@.len());
    assert("--keep-going"@.len() != "--help"@.len());
    assert("--keep-going"@.len() != "--event"@.len());
    assert("--keep-going"@.len() != "--container-runtime"@.len());
    assert("--keep-going"@.len() != "--all"@.len());
    assert("--keep-going"@.len() != "--dry-run"@.len());
    assert("--fail-fast"@.len() != "-h"@.len());
    assert("--fail-fast"@.len() != "--help"@.len());
    assert("--fail-fast"@.len() != "--event"@.len());
    assert("--fail-fast"@.len() != "--container-runtime"@.len());
    assert("--fail-fast"@.len() != "--all"@.len());
    assert("--fail-fast"@.len() != "--dry-run"@.len());
    assert("--fail-fast"@.len() != "--keep-going"@.len());
    assert("-h"@[0] == '-');
    assert("--help"@[0] == '-');
    assert("--event"@[0] == '-');
    assert("--container-runtime"@[0] == '-');
    assert("--all"@[0] == '-');
    assert("--dry-run"@[0] == '-');
    assert("--keep-going"@[0] == '-');
    assert("--fail-fast"@[0] == '-');
    if "-"@.is_prefix_of(args[i]) {
        assert("-"@[0] == args[i].subrange(0, 1)[0]);
    }
}

/// Without options every workflow of the event `manual` runs, in whichever runtime is there, until one
/// fails; a hook runs those of its event with the arguments that it got.
pub proof fn law_what_runs_without_options(hook: Seq<char>, hook_args: Seq<Seq<char>>)
    ensures
        run_options(Seq::empty()) matches Ok(o) && o.workflow is None && o.event == "manual"@ && !o.dry_run && !o.keep_going
            && o.container_runtime == "auto"@ && o.hook_args.len() == 0,
        (hook_options(hook, hook_args) is Ok) == known_hook(hook),
        hook_options(hook, hook_args) matches Ok(o) ==> o.event == hook && o.hook_args == hook_args && o.workflow is None
            && !o.dry_run,
{
    reveal_strlit("auto");
    law_words_of_choices("auto"@);
}

/// Options for installing, updating, removing and starting: each is known where it has a
/// meaning, changes what it names and nothing else, and is refused elsewhere.
pub proof fn law_options_for_managing(kind: ManageKind, value: Seq<char>, o: ManageView)
    ensures
        with_switch(kind, "--force"@, o) == (if kind is Install || kind is Init {
            Some(ManageView { force: true, ..o })
        } else {
            None
        }),
        with_switch(kind, "--backup-existing"@, o) == (if kind is Install {
            Some(ManageView { backup_existing: true, ..o })
        } else {
            None
        }),
        with_switch(kind, "--keep-binary"@, o) == (if kind is Uninstall {
            Some(ManageView { keep_binary: true, ..o })
        } else {
            None
        }),
        with_switch(kind, "--restore"@, o) == (if kind is Uninstall {
            Some(ManageView { restore: true, ..o })
        } else {
            None
        }),
        with_switch(kind, "--dry-run"@, o) == (if kind is Init {
            None
        } else {
            Some(ManageView { dry_run: true, ..o })
        }),
        with_switch(kind, "--bare"@, o) == (if kind is Install {
            Some(o)
        } else {
            None
        }),
        with_setting(kind, "--mode"@, value, o) == (if kind is Install {
            Some(ManageView { mode: value, ..o })
        } else {
            None
        }),
        with_setting(kind, "--hooks"@, value, o) == (if kind is Install || kind is Uninstall {
            Some(ManageView { hooks: Some(value), ..o })
        } else {
            None
        }),
        with_setting(kind, "--source"@, value, o) == (if kind is Update {
            Some(ManageView { source: Some(value), ..o })
        } else {
            None
        }),
        command_named(manage_name(ManageKind::Install)) == Some(CommandKind::Install),
        command_named(manage_name(ManageKind::Update)) == Some(CommandKind::Update),
        command_named(manage_name(ManageKind::Uninstall)) == Some(CommandKind::Uninstall),
        command_named(manage_name(ManageKind::Init)) == Some(CommandKind::Init),
{
    reveal_strlit("--bare");
    reveal_strlit("--force");
    reveal_strlit("--backup-existing");
    reveal_strlit("--keep-binary");
    reveal_strlit("--restore");
    reveal_strlit("--dry-run");
    reveal_strlit("--mode");
    reveal_strlit("--hooks");
    reveal_strlit("--source");
    reveal_strlit("run");
    reveal_strlit("list");
    reveal_strlit("ls");
    reveal_strlit("install");
    reveal_strlit("uninstall");
    reveal_strlit("remove");
    reveal_strlit("update");
    reveal_strlit("hook");
    reveal_strlit("status");
    reveal_strlit("doctor");
    reveal_strlit("explain");
    reveal_strlit("schema");
    reveal_strlit("clean");
    reveal_strlit("completion");
    reveal_strlit("man");
    reveal_strlit("init");
    reveal_strlit("self");
    reveal_strlit("help");
    assert("--force"@.len() != "--bare"@.len());
    assert("--backup-existing"@.len() != "--bare"@.len());
    assert("--backup-existing"@.len() != "--force"@.len());
    assert("--keep-binary"@.len() != "--bare"@.len());
    assert("--keep-binary"@.len() != "--force"@.len());
    assert("--keep-binary"@.len() != "--backup-existing"@.len());
    assert("--restore"@.len() != "--bare"@.len());
    assert("--restore"@.len() != "--force"@.len());
    assert("--restore"@.len() != "--backup-existing"@.len());
    assert("--restore"@.len() != "--keep-binary"@.len());
    assert("--dry-run"@.len() != "--bare"@.len());
    assert("--dry-run"@.len() != "--force"@.len());
    assert("--dry-run"@.len() != "--backup-existing"@.len());
    assert("--dry-run"@.len() != "--keep-binary"@.len());
    assert("--dry-run"@[2] != "--restore"@[2]);
    assert("--mode"@[2] != "--bare"@[2]);
    assert("--mode"@.len() != "--force"@.len());
    assert("--mode"@.len() != "--backup-existing"@.len());
    assert("--mode"@.len() != "--keep-binary"@.len());
    assert("--mode"@.len() != "--restore"@.len());
    assert("--mode"@.len() != "--dry-run"@.len());
    assert("--hooks"@.len() != "--bare"@.len());
    assert("--hooks"@[2] != "--force"@[2]);
    assert("--hooks"@.len() != "--backup-existing"@.len());
    assert("--hooks"@.len() != "--keep-binary"@.len());
    assert("--hooks"@.len() != "--restore"@.len());
    assert("--hooks"@.len() != "--dry-run"@.len());
    assert("--hooks"@.len() != "--mode"@.len());
    assert("--source"@.len() != "--bare"@.len());
    assert("--source"@.len() != "--force"@.len());
    assert("--source"@.len() != "--backup-existing"@.len());
    assert("--source"@.len() != "--keep-binary"@.len());
    assert("--source"@.len() != "--restore"@.len());
    assert("--source"@.len() != "--dry-run"@.len());
    assert("--source"@.len() != "--mode"@.len());
    assert("--source"@.len() != "--hooks"@.len());
    assert("install"@.len() != "run"@.len());
    assert("install"@.len() != "list"@.len());
    assert("install"@.len() != "ls"@.len());
    assert("install"@.len() != "uninstall"@.len());
    assert("install"@.len() != "remove"@.len());
    assert("install"@.len() != "update"@.len());
    assert("install"@.len() != "hook"@.len());
    assert("install"@.len() != "status"@.len());
    assert("install"@.len() != "doctor"@.len());
    assert("install"@[0] != "explain"@[0]);
    assert("install"@.len() != "schema"@.len());
    assert("install"@.len() != "clean"@.len());
    assert("install"@.len() != "completion"@.len());
    assert("install"@.len() != "man"@.len());
    assert("install"@.len() != "init"@.len());
    assert("install"@.len() != "self"@.len());
    assert("install"@.len() != "help"@.len());
    assert("update"@.len() != "run"@.len());
    assert("update"@.len() != "list"@.len());
    assert("update"@.len() != "ls"@.len());
    assert("update"@.len() != "install"@.len());
    assert("update"@.len() != "uninstall"@.len());
    assert("update"@[0] != "remove"@[0]);
    assert("update"@.len() != "hook"@.len());
    assert("update"@[0] != "status"@[0]);
    assert("update"@[0] != "doctor"@[0]);
    assert("update"@.len() != "explain"@.len());
    assert("update"@[0] != "schema"@[0]);
    assert("update"@.len() != "clean"@.len());
    assert("update"@.len() != "completion"@.len());
    assert("update"@.len() != "man"@.len());
    assert("update"@.len() != "init"@.len());
    assert("update"@.len() != "self"@.len());
    assert("update"@.len() != "help"@.len());
    assert("uninstall"@.len() != "run"@.len());
    assert("uninstall"@.len() != "list"@.len());
    assert("uninstall"@.len() != "ls"@.len());
    assert("uninstall"@.len() != "install"@.len());
    assert("uninstall"@.len() != "remove"@.len());
    assert("uninstall"@.len() != "update"@.len());
    assert("uninstall"@.len() != "hook"@.len());
    assert("uninstall"@.len() != "status"@.len());
    assert("uninstall"@.len() != "doctor"@.len());
    assert("uninstall"@.len() != "explain"@.len());
    assert("uninstall"@.len() != "schema"@.len());
    assert("uninstall"@.len() != "clean"@.len());
    assert("uninstall"@.len() != "completion"@.len());
    assert("uninstall"@.len() != "man"@.len());
    assert("uninstall"@.len() != "init"@.len());
    assert("uninstall"@.len() != "self"@.len());
    assert("uninstall"@.len() != "help"@.len());
    assert("init"@.len() != "run"@.len());
    assert("init"@[0] != "list"@[0]);
    assert("init"@.len() != "ls"@.len());
    assert("init"@.len() != "install"@.len());
    assert("init"@.len() != "uninstall"@.len());
    assert("init"@.len() != "remove"@.len());
    assert("init"@.len() != "update"@.len());
    assert("init"@[0] != "hook"@[0]);
    assert("init"@.len() != "status"@.len());
    assert("init"@.len() != "doctor"@.len());
    assert("init"@.len() != "explain"@.len());
    assert("init"@.len() != "schema"@.len());
    assert("init"@.len() != "clean"@.len());
    assert("init"@.len() != "completion"@.len());
    assert("init"@.len() != "man"@.len());
    assert("init"@[0] != "self"@[0]);
    assert("init"@[0] != "help"@[0]);
}

/// Options are read one after the other: one with a value takes the next word, help ends the
/// reading, and without options nothing is forced, kept, restored or left undone.
pub proof fn law_options_are_read_in_turn(kind: ManageKind, args: Seq<Seq<char>>, i: int, o: ManageView)
    requires
        0 <= i < args.len(),
        !asks_help(args[i]),
    ensures
        with_setting(kind, args[i], Seq::empty(), o) is Some && i + 1 < args.len() ==> manage_from(kind, args, i, o)
            == manage_from(kind, args, i + 2, with_setting(kind, args[i], args[i + 1], o)->0),
        with_setting(kind, args[i], Seq::empty(), o) is Some && i + 1 == args.len() ==> manage_from(kind, args, i, o) is Err,
        with_setting(kind, args[i], Seq::empty(), o) is None && with_switch(kind, args[i], o) is Some ==> manage_from(
            kind,
            args,
            i,
            o,
        ) == manage_from(kind, args, i + 1, with_switch(kind, args[i], o)->0),
        with_setting(kind, args[i], Seq::empty(), o) is None && with_switch(kind, args[i], o) is None ==> manage_from(
            kind,
            args,
            i,
            o,
        ) is Err,
        manage_options(kind, Seq::empty()) matches Ok(Some(m)) && !m.force && !m.backup_existing && !m.keep_binary && !m.restore
            && !m.dry_run && m.hooks is None && m.source is None && install_mode_named(m.mode) == Some(InstallMode::Link),
        asks_help("-h"@) && asks_help("--help"@),
{
    reveal_strlit("link");
    law_words_of_choices("link"@);
}

/// Without options the repository is the directory that the program runs in, its workflows are in
/// `.ci`, and everything is said in the usual way; a line without a command asks for help.
pub proof fn law_a_line_without_options(program: Seq<char>, g: GlobalOptions, line: LineView)
    requires
        called_as_hook(program) is None,
        globals_are(g, line),
        line.before.len() == 0,
        line.given.options.len() == 0,
    ensures
        asked(seq![program]) matches Ok((mine, request)) && request == RequestView::Help && mine.repo == g.repo@ && mine.ci_dir
            == g.ci_dir@ && mine.verbosity == Verbosity::Normal && color_named(mine.color) == Some(g.color),
{
    reveal_strlit("auto");
    reveal_strlit("always");
    reveal_strlit("never");
    assert("auto"@.len() != "always"@.len());
    assert("auto"@.len() != "never"@.len());
    assert(seq![program].len() == 1);
}

/// A program that is called under the name of a hook runs that hook with all of its arguments.
pub proof fn law_a_line_under_the_name_of_a_hook(program: Seq<char>, args: Seq<Seq<char>>)
    requires
        called_as_hook(program) is Some,
    ensures
        asked(seq![program] + args) matches Ok((g, request)) && g == standard_global() && request == RequestView::Hook(
            called_as_hook(program)->0,
            args,
        ),
{
    let argv = seq![program] + args;
    assert(argv[0] == program);
    assert(argv.skip(1) =~= args);
}

} // verus!
