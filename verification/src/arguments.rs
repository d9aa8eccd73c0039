//! Reading the arguments of the command line: which are options, which are values of
//! options and which are words, and what they come to.

use crate::arch::{Architecture, arch_names, canonical_arch};
use crate::cli::{
    CleanArgs, Cli, CommandKind, Commands, CompletionArgs, CompletionShell, ExplainArgs,
    GlobalOptions, HookArgs, InitArgs, InstallArgs, ListArgs, ManArgs, RunArgs, SchemaArgs,
    SelfArgs, StatusArgs, UninstallArgs, UpdateArgs, called_as_hook, command_named, parse_command,
    rewritten, takes_next,
};
use crate::conditions::lemma_not_found;
use crate::config::{
    ArtifactMode, ColorWhen, artifact_mode_named, color_named, git_mode_named, install_mode_named,
    or_else, parse_artifact_mode, parse_color, parse_git_mode, parse_install_mode, parse_runtime,
    parse_stack, runtime_named, stack_named,
};
use crate::hooks::lemma_hook_names_are_words;
use crate::paths::lemma_split_concat;
use crate::plain::{ManageKind, ManageView, with_setting, with_switch};
use crate::strings::{chars_of, same, split_char, split_once};
use crate::text::{
    cut_once, law_cut_at_the_first, lemma_take_push, lemma_texts_push, opt_slice, opt_text,
    split_at_char, texts,
};
use vstd::prelude::*;
use vstd::string::*;

verus! {

broadcast use {lemma_texts_push, lemma_take_push};

/// Arguments that cannot be read, or that ask for help or for the version.
#[derive(Debug)]
pub struct CliRefusal;

/// The name of an option: some have more than one.
pub open spec fn option_name(name: Seq<char>) -> Seq<char> {
    if name == "type"@ || name == "tech-stack"@ {
        "tech"@
    } else {
        name
    }
}

/// Whether there is an option without a value of that name, for every command.
pub open spec fn global_flag(name: Seq<char>) -> bool {
    ||| name == "verbose"@
    ||| name == "quiet"@
    ||| name == "silent"@
    ||| name == "container"@
    ||| name == "no-container"@
}

/// Whether there is an option with a value of that name, for every command.
pub open spec fn global_value(name: Seq<char>) -> bool {
    ||| name == "repo"@
    ||| name == "ci-dir"@
    ||| name == "config"@
    ||| name == "color"@
    ||| name == "git-mode"@
    ||| name == "git-command"@
    ||| name == "git-image"@
    ||| name == "arch"@
    ||| name == "tech"@
}

/// Whether a command has an option without a value of that name.
pub open spec fn own_flag(kind: CommandKind, name: Seq<char>) -> bool {
    match kind {
        CommandKind::Run => {
            ||| name == "all"@
            ||| name == "dry-run"@
            ||| name == "fail-fast"@
            ||| name == "keep-going"@
            ||| name == "respect-branches"@
            ||| name == "no-recursive-checkout"@
            ||| name == "lock"@
        },
        CommandKind::List => name == "porcelain"@ || name == "no-porcelain"@,
        CommandKind::Install => {
            ||| name == "bare"@
            ||| name == "force"@
            ||| name == "backup-existing"@
            ||| name == "dry-run"@
        },
        CommandKind::Uninstall => {
            ||| name == "keep-binary"@
            ||| name == "restore"@
            ||| name == "dry-run"@
        },
        CommandKind::Update | CommandKind::Clean => name == "dry-run"@,
        CommandKind::Init => name == "force"@,
        _ => false,
    }
}

/// Whether a command has an option with a value of that name.
pub open spec fn own_value(kind: CommandKind, name: Seq<char>) -> bool {
    match kind {
        CommandKind::Run => name == "event"@ || name == "container-runtime"@,
        CommandKind::Install => name == "mode"@ || name == "source"@ || name == "hooks"@,
        CommandKind::Uninstall => name == "hooks"@,
        CommandKind::Update => name == "source"@,
        CommandKind::Clean => name == "run-id"@ || name == "mode"@ || name == "dest"@,
        CommandKind::Completion => name == "output"@,
        CommandKind::Man => name == "dir"@,
        _ => false,
    }
}

/// Whether there is an option without a value: before the command only those that every
/// command has.
pub open spec fn flag_known(level: Option<CommandKind>, name: Seq<char>) -> bool {
    global_flag(name) || (level matches Some(kind) && own_flag(kind, name))
}

/// Whether there is an option with a value.
pub open spec fn value_known(level: Option<CommandKind>, name: Seq<char>) -> bool {
    global_value(name) || (level matches Some(kind) && own_value(kind, name))
}

/// The option without a value behind a letter.
pub open spec fn short_flag(c: char) -> Option<Seq<char>> {
    if c == 'v' {
        Some("verbose"@)
    } else if c == 'q' {
        Some("quiet"@)
    } else if c == 'c' {
        Some("container"@)
    } else if c == 'C' {
        Some("no-container"@)
    } else {
        None
    }
}

/// Whether a letter stands for an option; `h` asks for help.
pub open spec fn short_known(c: char) -> bool {
    short_flag(c) is Some || c == 't' || c == 'h'
}

/// Whether all items of a list are architectures.
pub open spec fn arches_fit(items: Seq<Seq<char>>) -> bool {
    forall|i: int| 0 <= i < items.len() ==> canonical_arch(#[trigger] items[i]) is Some
}

/// Whether an option can have a value: paths are not empty, and choices are among those
/// that there are.
pub open spec fn value_fits(level: Option<CommandKind>, name: Seq<char>, value: Seq<char>) -> bool {
    if name == "repo"@ || name == "ci-dir"@ || name == "config"@ || name == "source"@ || name == "dest"@ || name
        == "output"@ || name == "dir"@ {
        value.len() > 0
    } else if name == "color"@ {
        color_named(value) is Some
    } else if name == "git-mode"@ {
        git_mode_named(value) is Some
    } else if name == "tech"@ {
        stack_named(value) is Some
    } else if name == "container-runtime"@ {
        runtime_named(value) is Some
    } else if name == "arch"@ {
        arches_fit(split_at_char(value, ','))
    } else if name == "mode"@ {
        if level == Some(CommandKind::Install) {
            install_mode_named(value) is Some
        } else {
            artifact_mode_named(value) is Some
        }
    } else {
        true
    }
}

/// What was given: options with their values (an empty one where they have none), words,
/// and whether the rest is words whatever it looks like.
#[verifier::ext_equal]
pub struct GivenView {
    pub options: Seq<(Seq<char>, Seq<char>)>,
    pub words: Seq<Seq<char>>,
    pub literal: bool,
}

/// Nothing.
pub open spec fn nothing_given() -> GivenView {
    GivenView { options: Seq::empty(), words: Seq::empty(), literal: false }
}

/// How often an option was given.
pub open spec fn times(options: Seq<(Seq<char>, Seq<char>)>, name: Seq<char>) -> nat
    decreases options.len(),
{
    if options.len() == 0 {
        0
    } else {
        times(options.drop_last(), name) + if options.last().0 == name {
            1nat
        } else {
            0
        }
    }
}

/// Whether an option can be given, after what was given: most can be given once.
pub open spec fn may_add(g: GivenView, name: Seq<char>) -> bool {
    name == "verbose"@ || name == "arch"@ || times(g.options, name) == 0
}

/// What was given, with one more option.
pub open spec fn with_option(g: GivenView, name: Seq<char>, value: Seq<char>) -> GivenView {
    GivenView { options: g.options.push((name, value)), ..g }
}

/// Whether a word that looks like an option is taken here as a word: an argument of a hook.
pub open spec fn hyphens_pass(level: Option<CommandKind>, g: GivenView) -> bool {
    level == Some(CommandKind::Hook) && g.words.len() >= 1
}

/// The name and the value of a long option.
pub open spec fn long_parts(arg: Seq<char>) -> (Seq<char>, Option<Seq<char>>) {
    match cut_once(arg.skip(2), '=') {
        Some((name, value)) => (option_name(name), Some(value)),
        None => (option_name(arg.skip(2)), None),
    }
}

/// Whether some letter of a cluster is no option.
pub open spec fn has_unknown(letters: Seq<char>) -> bool {
    exists|i: int| 0 <= i < letters.len() && !short_known(#[trigger] letters[i])
}

/// Whether an argument starts as an option does: a lone dash does not.
pub open spec fn hyphened(arg: Seq<char>) -> bool {
    arg.len() > 1 && arg[0] == '-'
}

/// Whether an argument starts as a long option does.
pub open spec fn long_form(arg: Seq<char>) -> bool {
    arg.len() > 1 && arg[0] == '-' && arg[1] == '-'
}

/// Whether an argument that starts as an option does is no option here, so that where
/// hyphens pass it is taken as it is.
pub open spec fn foreign(level: Option<CommandKind>, arg: Seq<char>) -> bool {
    if long_form(arg) {
        let name = long_parts(arg).0;
        arg.len() > 2 && !flag_known(level, name) && !value_known(level, name) && name != "help"@
    } else {
        has_unknown(arg.skip(1))
    }
}

/// Whether an argument can be the value of the option before it.
pub open spec fn can_follow(level: Option<CommandKind>, g: GivenView, arg: Seq<char>) -> bool {
    !hyphened(arg) || (hyphens_pass(level, g) && foreign(level, arg))
}

/// How many words a command takes.
pub open spec fn word_fits(kind: CommandKind, place: nat, word: Seq<char>) -> bool {
    match kind {
        CommandKind::Hook => true,
        CommandKind::Run | CommandKind::Explain | CommandKind::Schema | CommandKind::Clean => place == 0,
        CommandKind::Completion => place == 0 && word == "bash"@,
        _ => false,
    }
}

/// What was given, with one more word: after the first argument of a hook the rest is
/// arguments of the hook.
pub open spec fn with_word(kind: CommandKind, g: GivenView, word: Seq<char>) -> GivenView {
    GivenView {
        words: g.words.push(word),
        literal: g.literal || (kind == CommandKind::Hook && g.words.len() >= 1),
        ..g
    }
}

/// What a list of arguments gives, after what was given; before the command, up to the
/// command, which is left with all that follows it. Nothing where it cannot be read.
pub open spec fn scan(level: Option<CommandKind>, args: Seq<Seq<char>>, g: GivenView) -> Option<
    (GivenView, Seq<Seq<char>>),
>
    decreases args.len(), 0nat,
{
    if args.len() == 0 {
        Some((g, args))
    } else {
        let arg = args[0];
        let rest = args.skip(1);
        if !g.literal && arg == "--"@ {
            scan(level, rest, GivenView { literal: true, ..g })
        } else if g.literal || !hyphened(arg) || (hyphens_pass(level, g) && foreign(level, arg)) {
            match level {
                None => if g.literal {
                    None
                } else {
                    Some((g, args))
                },
                Some(kind) => if word_fits(kind, g.words.len(), arg) {
                    scan(level, rest, with_word(kind, g, arg))
                } else {
                    None
                },
            }
        } else if long_form(arg) {
            let (name, value) = long_parts(arg);
            if !may_add(g, name) {
                None
            } else if flag_known(level, name) {
                if value is Some {
                    None
                } else {
                    scan(level, rest, with_option(g, name, Seq::empty()))
                }
            } else if value_known(level, name) {
                match value {
                    Some(value) => if value_fits(level, name, value) {
                        scan(level, rest, with_option(g, name, value))
                    } else {
                        None
                    },
                    None => if rest.len() > 0 && can_follow(level, g, rest[0]) && value_fits(level, name, rest[0]) {
                        scan(level, rest.skip(1), with_option(g, name, rest[0]))
                    } else {
                        None
                    },
                }
            } else {
                None
            }
        } else {
            scan_letters(level, arg.skip(1), rest, g)
        }
    }
}

/// What a cluster of letters gives, and the arguments after it.
pub open spec fn scan_letters(
    level: Option<CommandKind>,
    letters: Seq<char>,
    rest: Seq<Seq<char>>,
    g: GivenView,
) -> Option<(GivenView, Seq<Seq<char>>)>
    decreases rest.len(), letters.len() + 1,
{
    if letters.len() == 0 {
        scan(level, rest, g)
    } else {
        let after = letters.skip(1);
        match short_flag(letters[0]) {
            Some(name) => if may_add(g, name) {
                scan_letters(level, after, rest, with_option(g, name, Seq::empty()))
            } else {
                None
            },
            None => if letters[0] != 't' || !may_add(g, "tech"@) {
                None
            } else if after.len() > 0 {
                let value = if after[0] == '=' {
                    after.skip(1)
                } else {
                    after
                };
                if value_fits(level, "tech"@, value) {
                    scan(level, rest, with_option(g, "tech"@, value))
                } else {
                    None
                }
            } else if rest.len() > 0 && can_follow(level, g, rest[0]) && value_fits(level, "tech"@, rest[0]) {
                scan(level, rest.skip(1), with_option(g, "tech"@, rest[0]))
            } else {
                None
            },
        }
    }
}

/// Whether the options do not exclude each other.
pub open spec fn no_conflict(options: Seq<(Seq<char>, Seq<char>)>) -> bool {
    &&& times(options, "container"@) == 0 || times(options, "no-container"@) == 0
    &&& times(options, "porcelain"@) == 0 || times(options, "no-porcelain"@) == 0
}

/// Whether a command has the words that it cannot do without.
pub open spec fn has_required(kind: CommandKind, words: Seq<Seq<char>>) -> bool {
    match kind {
        CommandKind::Hook | CommandKind::Explain | CommandKind::Completion => words.len() >= 1,
        _ => true,
    }
}

/// What a command line comes to: the options before the command, the command, and what
/// was given to it.
#[verifier::ext_equal]
pub struct LineView {
    pub before: Seq<(Seq<char>, Seq<char>)>,
    pub kind: CommandKind,
    pub given: GivenView,
}

/// What a command line comes to, its first argument being the program.
pub open spec fn accepted(argv: Seq<Seq<char>>) -> Option<LineView> {
    if argv.len() == 0 {
        None
    } else {
        match scan(None, argv.skip(1), nothing_given()) {
            None => None,
            Some((before, rest)) => if rest.len() == 0 || !no_conflict(before.options) {
                None
            } else {
                match command_named(rest[0]) {
                    None => None,
                    Some(kind) => match scan(Some(kind), rest.skip(1), nothing_given()) {
                        None => None,
                        Some((given, _)) => if no_conflict(given.options) && has_required(kind, given.words) {
                            Some(LineView { before: before.options, kind, given })
                        } else {
                            None
                        },
                    },
                }
            },
        }
    }
}

/// The value of an option that was given: the last one.
pub open spec fn option_value(options: Seq<(Seq<char>, Seq<char>)>, name: Seq<char>) -> Option<Seq<char>>
    decreases options.len(),
{
    if options.len() == 0 {
        None
    } else if options.last().0 == name {
        Some(options.last().1)
    } else {
        option_value(options.drop_last(), name)
    }
}

/// The options that every command has, where they were given: after the command, else
/// before it.
pub open spec fn global_options(line: LineView, name: Seq<char>) -> Seq<(Seq<char>, Seq<char>)> {
    if times(line.given.options, name) > 0 {
        line.given.options
    } else {
        line.before
    }
}

/// The architectures among names, in order.
pub open spec fn arches_named(items: Seq<Seq<char>>) -> Seq<Seq<char>>
    decreases items.len(),
{
    if items.len() == 0 {
        Seq::empty()
    } else {
        match canonical_arch(items.last()) {
            Some(arch) => arches_named(items.drop_last()).push(arch),
            None => arches_named(items.drop_last()),
        }
    }
}

/// The architectures that were given, in order: an option can hold several.
pub open spec fn arches_given(options: Seq<(Seq<char>, Seq<char>)>) -> Seq<Seq<char>>
    decreases options.len(),
{
    if options.len() == 0 {
        Seq::empty()
    } else if options.last().0 == "arch"@ {
        arches_given(options.drop_last()) + arches_named(split_at_char(options.last().1, ','))
    } else {
        arches_given(options.drop_last())
    }
}

/// Whether an option that every command has was given.
pub open spec fn global_given(line: LineView, name: Seq<char>) -> bool {
    times(global_options(line, name), name) > 0
}

/// The value of an option that every command has.
pub open spec fn global_text(line: LineView, name: Seq<char>) -> Option<Seq<char>> {
    option_value(global_options(line, name), name)
}

/// The options that every command has, of a command line.
pub open spec fn globals_are(g: GlobalOptions, line: LineView) -> bool {
    &&& g.verbose == if times(global_options(line, "verbose"@), "verbose"@) < 255 {
        times(global_options(line, "verbose"@), "verbose"@)
    } else {
        255
    }
    &&& g.quiet == global_given(line, "quiet"@)
    &&& g.silent == global_given(line, "silent"@)
    &&& g.repo@ == or_else(global_text(line, "repo"@), "."@)
    &&& g.ci_dir@ == or_else(global_text(line, "ci-dir"@), ".ci"@)
    &&& opt_text(g.config) == global_text(line, "config"@)
    &&& g.color == match global_text(line, "color"@) {
        Some(word) => match color_named(word) {
            Some(color) => color,
            None => ColorWhen::Auto,
        },
        None => ColorWhen::Auto,
    }
    &&& g.git_mode == match global_text(line, "git-mode"@) {
        Some(word) => git_mode_named(word),
        None => None,
    }
    &&& opt_text(g.git_command) == global_text(line, "git-command"@)
    &&& opt_text(g.git_image) == global_text(line, "git-image"@)
    &&& g.container == global_given(line, "container"@)
    &&& g.no_container == global_given(line, "no-container"@)
    &&& arch_names(g.arch@) == arches_given(global_options(line, "arch"@))
    &&& g.tech_stack == match global_text(line, "tech"@) {
        Some(word) => stack_named(word),
        None => None,
    }
}

/// Whether an option of the command was given.
pub open spec fn own_given(line: LineView, name: Seq<char>) -> bool {
    times(line.given.options, name) > 0
}

/// The value of an option of the command.
pub open spec fn own_text(line: LineView, name: Seq<char>) -> Option<Seq<char>> {
    option_value(line.given.options, name)
}

/// The first word of the command.
pub open spec fn first_word(line: LineView) -> Option<Seq<char>> {
    if line.given.words.len() > 0 {
        Some(line.given.words[0])
    } else {
        None
    }
}

/// The command of a command line.
pub open spec fn command_is(c: Commands, line: LineView) -> bool {
    match line.kind {
        CommandKind::Run => {
            &&& c matches Commands::Run(a)
            &&& opt_text(a.workflow) == first_word(line)
            &&& a.event@ == or_else(own_text(line, "event"@), "manual"@)
            &&& a.all == own_given(line, "all"@)
            &&& a.dry_run == own_given(line, "dry-run"@)
            &&& a.fail_fast == own_given(line, "fail-fast"@)
            &&& a.keep_going == own_given(line, "keep-going"@)
            &&& a.container_runtime == match own_text(line, "container-runtime"@) {
                Some(word) => runtime_named(word),
                None => None,
            }
            &&& a.respect_branches == own_given(line, "respect-branches"@)
            &&& a.no_recursive_checkout == own_given(line, "no-recursive-checkout"@)
            &&& a.lock == own_given(line, "lock"@)
        },
        CommandKind::List => {
            &&& c matches Commands::List(a)
            &&& a.porcelain == own_given(line, "porcelain"@)
            &&& a.no_porcelain == own_given(line, "no-porcelain"@)
        },
        CommandKind::Install => {
            &&& c matches Commands::Install(a)
            &&& a.mode == match own_text(line, "mode"@) {
                Some(word) => install_mode_named(word),
                None => None,
            }
            &&& opt_text(a.source) == own_text(line, "source"@)
            &&& opt_text(a.hooks) == own_text(line, "hooks"@)
            &&& a.bare == own_given(line, "bare"@)
            &&& a.force == own_given(line, "force"@)
            &&& a.backup_existing == own_given(line, "backup-existing"@)
            &&& a.dry_run == own_given(line, "dry-run"@)
        },
        CommandKind::Uninstall => {
            &&& c matches Commands::Uninstall(a)
            &&& opt_text(a.hooks) == own_text(line, "hooks"@)
            &&& a.keep_binary == own_given(line, "keep-binary"@)
            &&& a.restore == own_given(line, "restore"@)
            &&& a.dry_run == own_given(line, "dry-run"@)
        },
        CommandKind::Update => {
            &&& c matches Commands::Update(a)
            &&& opt_text(a.source) == own_text(line, "source"@)
            &&& a.dry_run == own_given(line, "dry-run"@)
        },
        CommandKind::Hook => {
            &&& c matches Commands::Hook(a)
            &&& Some(a.hook@) == first_word(line)
            &&& texts(a.hook_args@) == line.given.words.skip(1)
        },
        CommandKind::Status => c is Status,
        CommandKind::Explain => {
            &&& c matches Commands::Explain(a)
            &&& Some(a.subject@) == first_word(line)
        },
        CommandKind::Schema => {
            &&& c matches Commands::Schema(a)
            &&& opt_text(a.subject) == first_word(line)
        },
        CommandKind::Clean => {
            &&& c matches Commands::Clean(a)
            &&& opt_text(a.workflow) == first_word(line)
            &&& opt_text(a.run_id) == own_text(line, "run-id"@)
            &&& a.mode == match own_text(line, "mode"@) {
                Some(word) => match artifact_mode_named(word) {
                    Some(mode) => mode,
                    None => ArtifactMode::Keep,
                },
                None => ArtifactMode::Keep,
            }
            &&& opt_text(a.dest) == own_text(line, "dest"@)
            &&& a.dry_run == own_given(line, "dry-run"@)
        },
        CommandKind::Completion => {
            &&& c matches Commands::Completion(a)
            &&& a.shell == CompletionShell::Bash
            &&& opt_text(a.output) == own_text(line, "output"@)
        },
        CommandKind::Man => {
            &&& c matches Commands::Man(a)
            &&& opt_text(a.dir) == own_text(line, "dir"@)
        },
        CommandKind::Init => {
            &&& c matches Commands::Init(a)
            &&& a.force == own_given(line, "force"@)
        },
        CommandKind::SelfCmd => c is SelfCmd,
    }
}

/// What was given so far.
struct Given {
    options: Vec<(String, String)>,
    words: Vec<String>,
    literal: bool,
}

/// Options by their texts.
pub open spec fn option_texts(v: Seq<(String, String)>) -> Seq<(Seq<char>, Seq<char>)> {
    v.map_values(|o: (String, String)| (o.0@, o.1@))
}

impl View for Given {
    type V = GivenView;

    closed spec fn view(&self) -> GivenView {
        GivenView { options: option_texts(self.options@), words: texts(self.words@), literal: self.literal }
    }
}

fn is_global_flag(name: &str) -> (r: bool)
    ensures
        r == global_flag(name@),
{
    same(name, "verbose") || same(name, "quiet") || same(name, "silent") || same(name, "container")
        || same(name, "no-container")
}

fn is_global_value(name: &str) -> (r: bool)
    ensures
        r == global_value(name@),
{
    same(name, "repo") || same(name, "ci-dir") || same(name, "config") || same(name, "color")
        || same(name, "git-mode") || same(name, "git-command") || same(name, "git-image")
        || same(name, "arch") || same(name, "tech")
}

fn is_own_flag(kind: CommandKind, name: &str) -> (r: bool)
    ensures
        r == own_flag(kind, name@),
{
    match kind {
        CommandKind::Run => same(name, "all") || same(name, "dry-run") || same(name, "fail-fast")
            || same(name, "keep-going") || same(name, "respect-branches") || same(
            name,
            "no-recursive-checkout",
        ) || same(name, "lock"),
        CommandKind::List => same(name, "porcelain") || same(name, "no-porcelain"),
        CommandKind::Install => same(name, "bare") || same(name, "force") || same(
            name,
            "backup-existing",
        ) || same(name, "dry-run"),
        CommandKind::Uninstall => same(name, "keep-binary") || same(name, "restore") || same(
            name,
            "dry-run",
        ),
        CommandKind::Update | CommandKind::Clean => same(name, "dry-run"),
        CommandKind::Init => same(name, "force"),
        _ => false,
    }
}

fn is_own_value(kind: CommandKind, name: &str) -> (r: bool)
    ensures
        r == own_value(kind, name@),
{
    match kind {
        CommandKind::Run => same(name, "event") || same(name, "container-runtime"),
        CommandKind::Install => same(name, "mode") || same(name, "source") || same(name, "hooks"),
        CommandKind::Uninstall => same(name, "hooks"),
        CommandKind::Update => same(name, "source"),
        CommandKind::Clean => same(name, "run-id") || same(name, "mode") || same(name, "dest"),
        CommandKind::Completion => same(name, "output"),
        CommandKind::Man => same(name, "dir"),
        _ => false,
    }
}

fn is_flag(level: Option<CommandKind>, name: &str) -> (r: bool)
    ensures
        r == flag_known(level, name@),
{
    is_global_flag(name) || match level {
        Some(kind) => is_own_flag(kind, name),
        None => false,
    }
}

fn is_value(level: Option<CommandKind>, name: &str) -> (r: bool)
    ensures
        r == value_known(level, name@),
{
    is_global_value(name) || match level {
        Some(kind) => is_own_value(kind, name),
        None => false,
    }
}

fn flag_of_letter(c: char) -> (r: Option<&'static str>)
    ensures
        opt_slice(r) == short_flag(c),
{
    if c == 'v' {
        Some("verbose")
    } else if c == 'q' {
        Some("quiet")
    } else if c == 'c' {
        Some("container")
    } else if c == 'C' {
        Some("no-container")
    } else {
        None
    }
}

fn all_arches(items: &[String]) -> (r: bool)
    ensures
        r == arches_fit(texts(items@)),
{
    let mut i: usize = 0;
    while i < items.len()
        invariant
            i <= items@.len(),
            forall|k: int| 0 <= k < i ==> canonical_arch(#[trigger] texts(items@)[k]) is Some,
        decreases items.len() - i,
    {
        assert(texts(items@)[i as int] == items@[i as int]@);
        match Architecture::from_alias(items[i].as_str()) {
            Some(_) => {},
            None => return false,
        }
        i += 1;
    }
    true
}

fn fits(level: Option<CommandKind>, name: &str, value: &str) -> (r: bool)
    ensures
        r == value_fits(level, name@, value@),
{
    if same(name, "repo") || same(name, "ci-dir") || same(name, "config") || same(name, "source") || same(
        name,
        "dest",
    ) || same(name, "output") || same(name, "dir") {
        !value.is_empty()
    } else if same(name, "color") {
        parse_color(value).is_some()
    } else if same(name, "git-mode") {
        parse_git_mode(value).is_some()
    } else if same(name, "tech") {
        parse_stack(value).is_some()
    } else if same(name, "container-runtime") {
        parse_runtime(value).is_some()
    } else if same(name, "arch") {
        let items = split_char(value, ',');
        all_arches(items.as_slice())
    } else if same(name, "mode") {
        match level {
            Some(CommandKind::Install) => parse_install_mode(value).is_some(),
            _ => parse_artifact_mode(value).is_some(),
        }
    } else {
        true
    }
}

/// How often an option was given, as far as it matters: whether it was.
fn was_given(options: &[(String, String)], name: &str) -> (r: bool)
    ensures
        r == (times(option_texts(options@), name@) > 0),
{
    let ghost all = option_texts(options@);
    let mut found = false;
    let mut i: usize = 0;
    while i < options.len()
        invariant
            i <= options@.len(),
            all == option_texts(options@),
            found == (times(all.take(i as int), name@) > 0),
        decreases options.len() - i,
    {
        assert(all[i as int].0 == options@[i as int].0@);
        assert(all.take(i + 1).drop_last() =~= all.take(i as int));
        if same(options[i].0.as_str(), name) {
            found = true;
        }
        i += 1;
    }
    assert(all.take(i as int) =~= all);
    found
}

fn can_add(g: &Given, name: &str) -> (r: bool)
    ensures
        r == may_add(g@, name@),
{
    same(name, "verbose") || same(name, "arch") || !was_given(g.options.as_slice(), name)
}

fn give(g: &mut Given, name: &str, value: &str)
    ensures
        final(g)@ == with_option(old(g)@, name@, value@),
{
    g.options.push((name.to_owned(), value.to_owned()));
    assert(g@.options =~= with_option(old(g)@, name@, value@).options);
}

fn split_long(arg: &str) -> (r: (String, Option<String>))
    requires
        long_form(arg@),
    ensures
        (r.0@, opt_text(r.1)) == long_parts(arg@),
{
    let body = arg.substring_char(2, arg.unicode_len());
    assert(body@ =~= arg@.skip(2));
    match split_once(body, '=') {
        Some((name, value)) => (plain_name(name), Some(value.to_owned())),
        None => (plain_name(body), None),
    }
}

fn plain_name(name: &str) -> (r: String)
    ensures
        r@ == option_name(name@),
{
    if same(name, "type") || same(name, "tech-stack") {
        "tech".to_owned()
    } else {
        name.to_owned()
    }
}

fn any_unknown(letters: &str) -> (r: bool)
    requires
        letters@.len() > 0,
    ensures
        r == has_unknown(letters@.skip(1)),
{
    let v = chars_of(letters);
    let mut i: usize = 1;
    while i < v.len()
        invariant
            1 <= i <= v@.len(),
            v@ == letters@,
            forall|k: int| 1 <= k < i && k < letters@.len() ==> short_known(#[trigger] letters@[k]),
        decreases v.len() - i,
    {
        let c = v[i];
        if flag_of_letter(c).is_none() && c != 't' && c != 'h' {
            assert(letters@.skip(1)[i - 1] == c);
            assert(!short_known(letters@.skip(1)[i - 1]));
            return true;
        }
        i += 1;
    }
    assert forall|k: int| 0 <= k < letters@.skip(1).len() implies short_known(
        #[trigger] letters@.skip(1)[k],
    ) by {
        assert(letters@.skip(1)[k] == letters@[k + 1]);
    }
    false
}

fn starts_as_option(arg: &str) -> (r: bool)
    ensures
        r == hyphened(arg@),
{
    arg.unicode_len() > 1 && arg.get_char(0) == '-'
}

fn starts_as_long(arg: &str) -> (r: bool)
    ensures
        r == long_form(arg@),
{
    arg.unicode_len() > 1 && arg.get_char(0) == '-' && arg.get_char(1) == '-'
}

fn is_foreign(level: Option<CommandKind>, arg: &str) -> (r: bool)
    requires
        hyphened(arg@),
    ensures
        r == foreign(level, arg@),
{
    if starts_as_long(arg) {
        let (name, _) = split_long(arg);
        arg.unicode_len() > 2 && !is_flag(level, name.as_str()) && !is_value(level, name.as_str())
            && !same(name.as_str(), "help")
    } else {
        any_unknown(arg)
    }
}

fn lets_hyphens_pass(level: Option<CommandKind>, g: &Given) -> (r: bool)
    ensures
        r == hyphens_pass(level, g@),
{
    assert(g@.words.len() == g.words@.len());
    match level {
        Some(CommandKind::Hook) => g.words.len() >= 1,
        _ => false,
    }
}

fn follows(level: Option<CommandKind>, g: &Given, arg: &str) -> (r: bool)
    ensures
        r == can_follow(level, g@, arg@),
{
    !starts_as_option(arg) || (lets_hyphens_pass(level, g) && is_foreign(level, arg))
}

/// Reads a cluster of letters. The arguments after it start at `next`; the result says
/// where they go on.
fn read_letters(level: Option<CommandKind>, arg: &str, args: &[String], next: usize, g: &mut Given) -> (r: Option<
    usize,
>)
    requires
        next <= args@.len(),
        hyphened(arg@),
    ensures
        match r {
            Some(at) => next <= at <= args@.len() && scan_letters(
                level,
                arg@.skip(1),
                texts(args@).skip(next as int),
                old(g)@,
            ) == scan(level, texts(args@).skip(at as int), final(g)@),
            None => scan_letters(level, arg@.skip(1), texts(args@).skip(next as int), old(g)@) is None,
        },
{
    let ghost all = texts(args@);
    let ghost rest = all.skip(next as int);
    let letters = chars_of(arg);
    let ghost whole = scan_letters(level, arg@.skip(1), rest, g@);
    let mut i: usize = 1;
    while i < letters.len()
        invariant
            1 <= i <= letters@.len(),
            letters@ == arg@,
            next <= args@.len(),
            all == texts(args@),
            rest == all.skip(next as int),
            whole == scan_letters(level, arg@.skip(i as int), rest, g@),
            whole == scan_letters(level, arg@.skip(1), rest, old(g)@),
        decreases letters.len() - i,
    {
        let c = letters[i];
        let ghost left = arg@.skip(i as int);
        assert(left[0] == c);
        assert(left.skip(1) =~= arg@.skip(i + 1));
        match flag_of_letter(c) {
            Some(name) => {
                if !can_add(g, name) {
                    return None;
                }
                proof {
                    reveal_strlit("");
                    assert(""@ =~= Seq::<char>::empty());
                }
                give(g, name, "");
                i += 1;
            },
            None => {
                if c != 't' || !can_add(g, "tech") {
                    return None;
                }
                let ghost after = left.skip(1);
                if i + 1 < letters.len() {
                    let from: usize = if letters[i + 1] == '=' {
                        i + 2
                    } else {
                        i + 1
                    };
                    let value = arg.substring_char(from, letters.len());
                    assert(value@ =~= if after[0] == '=' {
                        after.skip(1)
                    } else {
                        after
                    });
                    if !fits(level, "tech", value) {
                        return None;
                    }
                    give(g, "tech", value);
                    return Some(next);
                }
                if next >= args.len() {
                    return None;
                }
                assert(rest[0] == args@[next as int]@);
                let value = args[next].as_str();
                if !follows(level, g, value) || !fits(level, "tech", value) {
                    return None;
                }
                give(g, "tech", value);
                assert(rest.skip(1) =~= all.skip(next + 1));
                return Some(next + 1);
            },
        }
    }
    Some(next)
}

/// Reads a long option. The arguments after it start at `next`; the result says where
/// they go on.
fn read_long(level: Option<CommandKind>, arg: &str, args: &[String], next: usize, g: &mut Given) -> (r: Option<usize>)
    requires
        1 <= next <= args@.len(),
        args@[next - 1]@ == arg@,
        long_form(arg@),
        !old(g)@.literal,
        arg@ != "--"@,
        !(hyphens_pass(level, old(g)@) && foreign(level, arg@)),
    ensures
        match r {
            Some(at) => next <= at <= args@.len() && scan(level, texts(args@).skip(next - 1), old(g)@) == scan(
                level,
                texts(args@).skip(at as int),
                final(g)@,
            ),
            None => scan(level, texts(args@).skip(next - 1), old(g)@) is None,
        },
{
    let ghost all = texts(args@);
    let ghost here = all.skip(next - 1);
    let ghost rest = all.skip(next as int);
    assert(here[0] == arg@);
    assert(here.skip(1) =~= rest);
    let (name, value) = split_long(arg);
    let name = name.as_str();
    if !can_add(g, name) {
        return None;
    }
    if is_flag(level, name) {
        if value.is_some() {
            return None;
        }
        proof {
            reveal_strlit("");
            assert(""@ =~= Seq::<char>::empty());
        }
        give(g, name, "");
        return Some(next);
    }
    if !is_value(level, name) {
        return None;
    }
    if let Some(value) = value {
        if !fits(level, name, value.as_str()) {
            return None;
        }
        give(g, name, value.as_str());
        return Some(next);
    }
    if next >= args.len() {
        return None;
    }
    assert(rest[0] == args@[next as int]@);
    let value = args[next].as_str();
    if !follows(level, g, value) || !fits(level, name, value) {
        return None;
    }
    give(g, name, value);
    assert(rest.skip(1) =~= all.skip(next + 1));
    Some(next + 1)
}

fn takes_word(kind: CommandKind, place: usize, word: &str) -> (r: bool)
    ensures
        r == word_fits(kind, place as nat, word@),
{
    match kind {
        CommandKind::Hook => true,
        CommandKind::Run | CommandKind::Explain | CommandKind::Schema | CommandKind::Clean => place == 0,
        CommandKind::Completion => place == 0 && same(word, "bash"),
        _ => false,
    }
}

/// Reads arguments from a position on; the result says where it stopped.
fn read_args(level: Option<CommandKind>, args: &[String], from: usize) -> (r: Option<(Given, usize)>)
    requires
        from <= args@.len(),
    ensures
        match r {
            Some((g, at)) => from <= at <= args@.len() && scan(level, texts(args@).skip(from as int), nothing_given())
                == Some((g@, texts(args@).skip(at as int))),
            None => scan(level, texts(args@).skip(from as int), nothing_given()) is None,
        },
{
    let ghost all = texts(args@);
    let mut g = Given { options: Vec::new(), words: Vec::new(), literal: false };
    assert(g@ =~= nothing_given());
    let ghost whole = scan(level, all.skip(from as int), g@);
    let mut i: usize = from;
    while i < args.len()
        invariant
            from <= i <= args@.len(),
            all == texts(args@),
            whole == scan(level, all.skip(i as int), g@),
            whole == scan(level, all.skip(from as int), nothing_given()),
        decreases args.len() - i,
    {
        let ghost here = all.skip(i as int);
        let arg = args[i].as_str();
        assert(here[0] == arg@);
        assert(here.skip(1) =~= all.skip(i + 1));
        assert(g@.words.len() == g.words@.len());
        if !g.literal && same(arg, "--") {
            let ghost before = g@;
            g.literal = true;
            assert(g@ =~= GivenView { literal: true, ..before });
            i += 1;
        } else if g.literal || !starts_as_option(arg) || (lets_hyphens_pass(level, &g) && is_foreign(level, arg)) {
            match level {
                None => {
                    return if g.literal {
                        None
                    } else {
                        Some((g, i))
                    };
                },
                Some(kind) => {
                    if !takes_word(kind, g.words.len(), arg) {
                        return None;
                    }
                    let ghost before = g@;
                    let literal = g.literal || (match kind {
                        CommandKind::Hook => true,
                        _ => false,
                    } && g.words.len() >= 1);
                    g.words.push(arg.to_owned());
                    g.literal = literal;
                    assert(g@ =~= with_word(kind, before, arg@));
                    i += 1;
                },
            }
        } else if starts_as_long(arg) {
            match read_long(level, arg, args, i + 1, &mut g) {
                Some(at) => {
                    i = at;
                },
                None => return None,
            }
        } else {
            match read_letters(level, arg, args, i + 1, &mut g) {
                Some(at) => {
                    i = at;
                },
                None => return None,
            }
        }
    }
    assert(all.skip(i as int).len() == 0);
    Some((g, i))
}

fn count_given(options: &[(String, String)], name: &str) -> (r: u8)
    ensures
        r == if times(option_texts(options@), name@) < 255 {
            times(option_texts(options@), name@)
        } else {
            255
        },
{
    let ghost all = option_texts(options@);
    let mut n: u8 = 0;
    let mut i: usize = 0;
    while i < options.len()
        invariant
            i <= options@.len(),
            all == option_texts(options@),
            n == if times(all.take(i as int), name@) < 255 {
                times(all.take(i as int), name@)
            } else {
                255
            },
        decreases options.len() - i,
    {
        assert(all[i as int].0 == options@[i as int].0@);
        assert(all.take(i + 1).drop_last() =~= all.take(i as int));
        if same(options[i].0.as_str(), name) && n < 255 {
            n += 1;
        }
        i += 1;
    }
    assert(all.take(i as int) =~= all);
    n
}

fn text_given(options: &[(String, String)], name: &str) -> (r: Option<String>)
    ensures
        opt_text(r) == option_value(option_texts(options@), name@),
{
    let ghost all = option_texts(options@);
    let mut i: usize = options.len();
    assert(all.take(i as int) =~= all);
    while i > 0
        invariant
            i <= options@.len(),
            all == option_texts(options@),
            option_value(all, name@) == option_value(all.take(i as int), name@),
        decreases i,
    {
        let ghost here = all.take(i as int);
        i -= 1;
        assert(all[i as int] == (options@[i as int].0@, options@[i as int].1@));
        assert(here.drop_last() =~= all.take(i as int));
        if same(options[i].0.as_str(), name) {
            return Some(options[i].1.clone());
        }
    }
    None
}

fn list_arches(options: &[(String, String)]) -> (r: Vec<Architecture>)
    ensures
        arch_names(r@) == arches_given(option_texts(options@)),
{
    let ghost all = option_texts(options@);
    let mut out: Vec<Architecture> = Vec::new();
    let mut i: usize = 0;
    assert(arch_names(out@) =~= arches_given(all.take(0)));
    while i < options.len()
        invariant
            i <= options@.len(),
            all == option_texts(options@),
            arch_names(out@) == arches_given(all.take(i as int)),
        decreases options.len() - i,
    {
        assert(all[i as int] == (options@[i as int].0@, options@[i as int].1@));
        assert(all.take(i + 1).drop_last() =~= all.take(i as int));
        if same(options[i].0.as_str(), "arch") {
            let items = split_char(options[i].1.as_str(), ',');
            let ghost before = arch_names(out@);
            let ghost parts = texts(items@);
            let mut k: usize = 0;
            assert(arch_names(out@) =~= before + arches_named(parts.take(0)));
            while k < items.len()
                invariant
                    k <= items@.len(),
                    parts == texts(items@),
                    arch_names(out@) == before + arches_named(parts.take(k as int)),
                decreases items.len() - k,
            {
                assert(parts[k as int] == items@[k as int]@);
                assert(parts.take(k + 1).drop_last() =~= parts.take(k as int));
                let ghost had = out@;
                match Architecture::from_alias(items[k].as_str()) {
                    Some(arch) => {
                        out.push(arch);
                        assert(arch_names(out@) =~= arch_names(had).push(arch@));
                        assert(arch_names(out@) =~= before + arches_named(parts.take(k + 1)));
                    },
                    None => {},
                }
                k += 1;
            }
            assert(parts.take(k as int) =~= parts);
        }
        i += 1;
    }
    assert(all.take(i as int) =~= all);
    out
}

/// The options that every command has: `before` and `after` were given before and after
/// the command.
fn pick_options<'a>(before: &'a [(String, String)], after: &'a [(String, String)], name: &str) -> (r: &'a [(
    String,
    String,
)])
    ensures
        option_texts(r@) == if times(option_texts(after@), name@) > 0 {
            option_texts(after@)
        } else {
            option_texts(before@)
        },
{
    if was_given(after, name) {
        after
    } else {
        before
    }
}

fn make_globals(before: &[(String, String)], after: &[(String, String)], Ghost(line): Ghost<LineView>) -> (r: GlobalOptions)
    requires
        line.before == option_texts(before@),
        line.given.options == option_texts(after@),
    ensures
        globals_are(r, line),
{
    let repo = text_given(pick_options(before, after, "repo"), "repo");
    let ci_dir = text_given(pick_options(before, after, "ci-dir"), "ci-dir");
    let color = text_given(pick_options(before, after, "color"), "color");
    let git_mode = text_given(pick_options(before, after, "git-mode"), "git-mode");
    let tech = text_given(pick_options(before, after, "tech"), "tech");
    GlobalOptions {
        verbose: count_given(pick_options(before, after, "verbose"), "verbose"),
        quiet: was_given(pick_options(before, after, "quiet"), "quiet"),
        silent: was_given(pick_options(before, after, "silent"), "silent"),
        repo: match repo {
            Some(repo) => repo,
            None => ".".to_owned(),
        },
        ci_dir: match ci_dir {
            Some(dir) => dir,
            None => ".ci".to_owned(),
        },
        config: text_given(pick_options(before, after, "config"), "config"),
        color: match color {
            Some(word) => match parse_color(word.as_str()) {
                Some(color) => color,
                None => ColorWhen::Auto,
            },
            None => ColorWhen::Auto,
        },
        git_mode: match git_mode {
            Some(word) => parse_git_mode(word.as_str()),
            None => None,
        },
        git_command: text_given(pick_options(before, after, "git-command"), "git-command"),
        git_image: text_given(pick_options(before, after, "git-image"), "git-image"),
        container: was_given(pick_options(before, after, "container"), "container"),
        no_container: was_given(pick_options(before, after, "no-container"), "no-container"),
        arch: list_arches(pick_options(before, after, "arch")),
        tech_stack: match tech {
            Some(word) => parse_stack(word.as_str()),
            None => None,
        },
    }
}

fn word_given(words: &[String]) -> (r: Option<String>)
    ensures
        opt_text(r) == if words@.len() > 0 {
            Some(words@[0]@)
        } else {
            None
        },
{
    if words.len() > 0 {
        Some(words[0].clone())
    } else {
        None
    }
}

fn make_run(g: &Given, Ghost(line): Ghost<LineView>) -> (r: Commands)
    requires
        line.given == g@,
        line.kind == CommandKind::Run,
    ensures
        command_is(r, line),
{
    let o = g.options.as_slice();
    let event = text_given(o, "event");
    let runtime = text_given(o, "container-runtime");
    assert(line.given.words.len() == g.words@.len());
    Commands::Run(
        RunArgs {
            workflow: word_given(g.words.as_slice()),
            event: match event {
                Some(event) => event,
                None => "manual".to_owned(),
            },
            all: was_given(o, "all"),
            dry_run: was_given(o, "dry-run"),
            fail_fast: was_given(o, "fail-fast"),
            keep_going: was_given(o, "keep-going"),
            container_runtime: match runtime {
                Some(word) => parse_runtime(word.as_str()),
                None => None,
            },
            respect_branches: was_given(o, "respect-branches"),
            no_recursive_checkout: was_given(o, "no-recursive-checkout"),
            lock: was_given(o, "lock"),
        },
    )
}

fn make_install(g: &Given, Ghost(line): Ghost<LineView>) -> (r: Commands)
    requires
        line.given == g@,
        line.kind == CommandKind::Install,
    ensures
        command_is(r, line),
{
    let o = g.options.as_slice();
    let mode = text_given(o, "mode");
    Commands::Install(
        InstallArgs {
            mode: match mode {
                Some(word) => parse_install_mode(word.as_str()),
                None => None,
            },
            source: text_given(o, "source"),
            hooks: text_given(o, "hooks"),
            bare: was_given(o, "bare"),
            force: was_given(o, "force"),
            backup_existing: was_given(o, "backup-existing"),
            dry_run: was_given(o, "dry-run"),
        },
    )
}

fn make_clean(g: &Given, Ghost(line): Ghost<LineView>) -> (r: Commands)
    requires
        line.given == g@,
        line.kind == CommandKind::Clean,
    ensures
        command_is(r, line),
{
    let o = g.options.as_slice();
    let mode = text_given(o, "mode");
    assert(line.given.words.len() == g.words@.len());
    Commands::Clean(
        CleanArgs {
            workflow: word_given(g.words.as_slice()),
            run_id: text_given(o, "run-id"),
            mode: match mode {
                Some(word) => match parse_artifact_mode(word.as_str()) {
                    Some(mode) => mode,
                    None => ArtifactMode::Keep,
                },
                None => ArtifactMode::Keep,
            },
            dest: text_given(o, "dest"),
            dry_run: was_given(o, "dry-run"),
        },
    )
}

/// The first word and the rest of them.
fn split_words(words: &[String]) -> (r: (String, Vec<String>))
    requires
        words@.len() > 0,
    ensures
        r.0@ == words@[0]@,
        texts(r.1@) == texts(words@).skip(1),
{
    let mut rest: Vec<String> = Vec::new();
    let ghost all = texts(words@).skip(1);
    let mut i: usize = 1;
    assert(texts(rest@) =~= all.take(0));
    while i < words.len()
        invariant
            1 <= i <= words@.len(),
            all == texts(words@).skip(1),
            texts(rest@) == all.take(i - 1),
        decreases words.len() - i,
    {
        assert(all[i - 1] == words@[i as int]@);
        rest.push(words[i].clone());
        i += 1;
    }
    assert(all.take(i - 1) =~= all);
    (words[0].clone(), rest)
}

fn make_command(kind: CommandKind, g: &Given, Ghost(line): Ghost<LineView>) -> (r: Commands)
    requires
        line.given == g@,
        line.kind == kind,
        has_required(kind, g@.words),
    ensures
        command_is(r, line),
{
    let o = g.options.as_slice();
    assert(line.given.words.len() == g.words@.len());
    match kind {
        CommandKind::Run => make_run(g, Ghost(line)),
        CommandKind::List => Commands::List(
            ListArgs {
                porcelain: was_given(o, "porcelain"),
                no_porcelain: was_given(o, "no-porcelain"),
            },
        ),
        CommandKind::Install => make_install(g, Ghost(line)),
        CommandKind::Uninstall => Commands::Uninstall(
            UninstallArgs {
                hooks: text_given(o, "hooks"),
                keep_binary: was_given(o, "keep-binary"),
                restore: was_given(o, "restore"),
                dry_run: was_given(o, "dry-run"),
            },
        ),
        CommandKind::Update => Commands::Update(
            UpdateArgs { source: text_given(o, "source"), dry_run: was_given(o, "dry-run") },
        ),
        CommandKind::Hook => {
            let (hook, hook_args) = split_words(g.words.as_slice());
            Commands::Hook(HookArgs { hook, hook_args })
        },
        CommandKind::Status => Commands::Status(StatusArgs {  }),
        CommandKind::Explain => {
            let (subject, _) = split_words(g.words.as_slice());
            Commands::Explain(ExplainArgs { subject })
        },
        CommandKind::Schema => Commands::Schema(
            SchemaArgs { subject: word_given(g.words.as_slice()) },
        ),
        CommandKind::Clean => make_clean(g, Ghost(line)),
        CommandKind::Completion => Commands::Completion(
            CompletionArgs { shell: CompletionShell::Bash, output: text_given(o, "output") },
        ),
        CommandKind::Man => Commands::Man(ManArgs { dir: text_given(o, "dir") }),
        CommandKind::Init => Commands::Init(InitArgs { force: was_given(o, "force") }),
        CommandKind::SelfCmd => Commands::SelfCmd(SelfArgs {  }),
    }
}

fn without_conflict(options: &[(String, String)]) -> (r: bool)
    ensures
        r == no_conflict(option_texts(options@)),
{
    !(was_given(options, "container") && was_given(options, "no-container")) && !(was_given(
        options,
        "porcelain",
    ) && was_given(options, "no-porcelain"))
}

fn words_suffice(kind: CommandKind, words: usize) -> (r: bool)
    ensures
        forall|w: Seq<Seq<char>>| w.len() == words ==> r == #[trigger] has_required(kind, w),
{
    match kind {
        CommandKind::Hook | CommandKind::Explain | CommandKind::Completion => words >= 1,
        _ => true,
    }
}

impl Cli {
    /// Reads a command line, its first argument being the program.
    pub fn try_parse_from(argv: &[String]) -> (r: Result<Self, CliRefusal>)
        ensures
            match r {
                Ok(cli) => accepted(texts(argv@)) is Some && globals_are(
                    cli.global,
                    accepted(texts(argv@))->0,
                ) && command_is(cli.command, accepted(texts(argv@))->0),
                Err(_) => accepted(texts(argv@)) is None,
            },
    {
        let ghost all = texts(argv@);
        assert(all.len() == argv@.len());
        if argv.len() == 0 {
            return Err(CliRefusal);
        }
        match read_args(None, argv, 1) {
            None => Err(CliRefusal),
            Some((before, at)) => {
                assert(all.skip(at as int).len() == all.len() - at);
                if at >= argv.len() || !without_conflict(before.options.as_slice()) {
                    return Err(CliRefusal);
                }
                assert(all.skip(at as int)[0] == argv@[at as int]@);
                assert(all.skip(at as int).skip(1) =~= all.skip(at + 1));
                match parse_command(argv[at].as_str()) {
                    None => Err(CliRefusal),
                    Some(kind) => match read_args(Some(kind), argv, at + 1) {
                        None => Err(CliRefusal),
                        Some((given, _)) => {
                            assert(given@.words.len() == given.words@.len());
                            if !without_conflict(given.options.as_slice()) || !words_suffice(
                                kind,
                                given.words.len(),
                            ) {
                                return Err(CliRefusal);
                            }
                            let ghost line = LineView { before: before@.options, kind, given: given@ };
                            let global = make_globals(
                                before.options.as_slice(),
                                given.options.as_slice(),
                                Ghost(line),
                            );
                            let command = make_command(kind, &given, Ghost(line));
                            Ok(Cli { global, command })
                        },
                    },
                }
            },
        }
    }
}

proof fn lemma_literal_words(args: Seq<Seq<char>>, g: GivenView)
    requires
        g.literal,
    ensures
        scan(Some(CommandKind::Hook), args, g) == Some(
            (GivenView { words: g.words + args, ..g }, Seq::<Seq<char>>::empty()),
        ),
    decreases args.len(),
{
    if args.len() == 0 {
        assert(g.words + args =~= g.words);
        assert(args =~= Seq::<Seq<char>>::empty());
    } else {
        lemma_literal_words(args.skip(1), with_word(CommandKind::Hook, g, args[0]));
        assert(g.words.push(args[0]) + args.skip(1) =~= g.words + args);
    }
}

/// A program that is called by the name of a hook does what `hook` with that name does,
/// and the arguments go to the hook as they are. (The first of them is no option.)
pub proof fn law_called_as_a_hook_runs_the_hook(argv: Seq<Seq<char>>)
    requires
        argv.len() > 0,
        called_as_hook(argv[0]) is Some,
        argv.len() > 1 ==> !hyphened(argv[1]),
    ensures
        accepted(rewritten(argv)) == Some(
            LineView {
                before: Seq::empty(),
                kind: CommandKind::Hook,
                given: GivenView {
                    options: Seq::empty(),
                    words: seq![called_as_hook(argv[0])->0] + argv.skip(1),
                    literal: argv.len() > 1,
                },
            },
        ),
{
    let name = called_as_hook(argv[0])->0;
    let args = argv.skip(1);
    let line = rewritten(argv);
    lemma_hook_names_are_words(name);
    reveal_strlit("hook");
    reveal_strlit("--");
    assert(!hyphened("hook"@));
    assert(line.skip(1)[0] == "hook"@);
    let g0 = nothing_given();
    assert("hook"@ != "--"@) by {
        assert("hook"@[0] != "--"@[0]);
    }
    assert(scan(None, line.skip(1), g0) == Some((g0, line.skip(1))));
    let rest = line.skip(1).skip(1);
    assert(rest =~= seq![name] + args);
    assert(rest[0] == name);
    assert(!hyphened(name) && name != "--"@);
    let g1 = with_word(CommandKind::Hook, g0, name);
    assert(rest.skip(1) =~= args);
    assert(scan(Some(CommandKind::Hook), rest, g0) == scan(Some(CommandKind::Hook), args, g1));
    assert(g1.words =~= seq![name]);
    if args.len() > 0 {
        let g2 = with_word(CommandKind::Hook, g1, args[0]);
        assert(args[0] == argv[1]);
        assert(args[0] != "--"@);
        assert(scan(Some(CommandKind::Hook), args, g1) == scan(Some(CommandKind::Hook), args.skip(1), g2));
        lemma_literal_words(args.skip(1), g2);
        assert(g2.words + args.skip(1) =~= seq![name] + args);
    } else {
        assert(seq![name] + args =~= seq![name]);
    }
    assert(command_named("hook"@) == Some(CommandKind::Hook)) by {
        reveal_strlit("run");
        reveal_strlit("list");
        reveal_strlit("ls");
        reveal_strlit("install");
        reveal_strlit("uninstall");
        reveal_strlit("remove");
        reveal_strlit("update");
        assert("hook"@.len() == 4 && "list"@.len() == 4 && "hook"@[0] != "list"@[0]);
    }
    assert(times(Seq::<(Seq<char>, Seq<char>)>::empty(), "container"@) == 0);
}

/// Whether options are known, and their values are among those that they can have.
pub open spec fn options_fit(level: Option<CommandKind>, options: Seq<(Seq<char>, Seq<char>)>) -> bool {
    forall|i: int|
        0 <= i < options.len() ==> {
            ||| flag_known(level, (#[trigger] options[i]).0) && options[i].1.len() == 0
            ||| value_known(level, options[i].0) && value_fits(level, options[i].0, options[i].1)
        }
}

proof fn lemma_scan_fits(level: Option<CommandKind>, args: Seq<Seq<char>>, g: GivenView)
    requires
        options_fit(level, g.options),
        scan(level, args, g) is Some,
    ensures
        options_fit(level, (scan(level, args, g)->0).0.options),
    decreases args.len(), 0nat,
{
    if args.len() > 0 {
        let arg = args[0];
        let rest = args.skip(1);
        if !g.literal && arg == "--"@ {
            lemma_scan_fits(level, rest, GivenView { literal: true, ..g });
        } else if g.literal || !hyphened(arg) || (hyphens_pass(level, g) && foreign(level, arg)) {
            if let Some(kind) = level {
                lemma_scan_fits(level, rest, with_word(kind, g, arg));
            }
        } else if long_form(arg) {
            let (name, value) = long_parts(arg);
            if flag_known(level, name) {
                lemma_scan_fits(level, rest, with_option(g, name, Seq::empty()));
            } else {
                match value {
                    Some(value) => lemma_scan_fits(level, rest, with_option(g, name, value)),
                    None => lemma_scan_fits(level, rest.skip(1), with_option(g, name, rest[0])),
                }
            }
        } else {
            lemma_letters_fit(level, arg.skip(1), rest, g);
        }
    }
}

proof fn lemma_letters_fit(level: Option<CommandKind>, letters: Seq<char>, rest: Seq<Seq<char>>, g: GivenView)
    requires
        options_fit(level, g.options),
        scan_letters(level, letters, rest, g) is Some,
    ensures
        options_fit(level, (scan_letters(level, letters, rest, g)->0).0.options),
    decreases rest.len(), letters.len() + 1,
{
    if letters.len() == 0 {
        lemma_scan_fits(level, rest, g);
    } else {
        let after = letters.skip(1);
        match short_flag(letters[0]) {
            Some(name) => {
                lemma_letters_fit(level, after, rest, with_option(g, name, Seq::empty()));
            },
            None => if after.len() > 0 {
                let value = if after[0] == '=' {
                    after.skip(1)
                } else {
                    after
                };
                lemma_scan_fits(level, rest, with_option(g, "tech"@, value));
            } else {
                lemma_scan_fits(level, rest.skip(1), with_option(g, "tech"@, rest[0]));
            },
        }
    }
}

/// A command line is read only where every option is known and every value is one that
/// its option can have: before the command only the options that every command has.
pub proof fn law_only_known_options_are_read(argv: Seq<Seq<char>>)
    requires
        accepted(argv) is Some,
    ensures
        options_fit(None, (accepted(argv)->0).before),
        options_fit(Some((accepted(argv)->0).kind), (accepted(argv)->0).given.options),
{
    lemma_scan_fits(None, argv.skip(1), nothing_given());
    let rest = (scan(None, argv.skip(1), nothing_given())->0).1;
    lemma_scan_fits(Some((accepted(argv)->0).kind), rest.skip(1), nothing_given());
}

/// Whether two lists of options come to the same: the same architectures, and of every
/// other option the same value, as often.
pub open spec fn alike(a: Seq<(Seq<char>, Seq<char>)>, b: Seq<(Seq<char>, Seq<char>)>) -> bool {
    &&& forall|name: Seq<char>|
        name != "arch"@ ==> #[trigger] times(a, name) == times(b, name) && option_value(a, name) == option_value(
            b,
            name,
        )
    &&& times(a, "arch"@) == 0 <==> times(b, "arch"@) == 0
    &&& arches_given(a) == arches_given(b)
}

/// Whether two ways to give arguments come to the same.
pub open spec fn given_alike(a: GivenView, b: GivenView) -> bool {
    alike(a.options, b.options) && a.words == b.words && a.literal == b.literal
}

/// Whether two readings come to the same and leave the same behind, or both fail.
pub open spec fn read_alike(
    a: Option<(GivenView, Seq<Seq<char>>)>,
    b: Option<(GivenView, Seq<Seq<char>>)>,
) -> bool {
    match a {
        None => b is None,
        Some((g, rest)) => b matches Some((h, left)) && given_alike(g, h) && rest == left,
    }
}

proof fn lemma_push_alike(a: GivenView, b: GivenView, name: Seq<char>, value: Seq<char>)
    requires
        given_alike(a, b),
    ensures
        given_alike(with_option(a, name, value), with_option(b, name, value)),
{
    let x = a.options.push((name, value));
    let y = b.options.push((name, value));
    assert(x.drop_last() =~= a.options);
    assert(y.drop_last() =~= b.options);
    assert forall|n: Seq<char>| n != "arch"@ implies #[trigger] times(x, n) == times(y, n) && option_value(x, n)
        == option_value(y, n) by {
        assert(times(a.options, n) == times(b.options, n));
    }
}

proof fn lemma_scan_alike(level: Option<CommandKind>, args: Seq<Seq<char>>, g: GivenView, h: GivenView)
    requires
        given_alike(g, h),
    ensures
        read_alike(scan(level, args, g), scan(level, args, h)),
    decreases args.len(), 0nat,
{
    if args.len() > 0 {
        let arg = args[0];
        let rest = args.skip(1);
        if !g.literal && arg == "--"@ {
            lemma_scan_alike(level, rest, GivenView { literal: true, ..g }, GivenView { literal: true, ..h });
        } else if g.literal || !hyphened(arg) || (hyphens_pass(level, g) && foreign(level, arg)) {
            if let Some(kind) = level {
                lemma_scan_alike(level, rest, with_word(kind, g, arg), with_word(kind, h, arg));
            }
        } else if long_form(arg) {
            let (name, value) = long_parts(arg);
            assert(may_add(g, name) == may_add(h, name)) by {
                assert(name == "arch"@ || times(g.options, name) == times(h.options, name));
            }
            lemma_push_alike(g, h, name, Seq::empty());
            lemma_scan_alike(
                level,
                rest,
                with_option(g, name, Seq::empty()),
                with_option(h, name, Seq::empty()),
            );
            match value {
                Some(value) => {
                    lemma_push_alike(g, h, name, value);
                    lemma_scan_alike(level, rest, with_option(g, name, value), with_option(h, name, value));
                },
                None => if rest.len() > 0 {
                    lemma_push_alike(g, h, name, rest[0]);
                    lemma_scan_alike(
                        level,
                        rest.skip(1),
                        with_option(g, name, rest[0]),
                        with_option(h, name, rest[0]),
                    );
                },
            }
        } else {
            lemma_letters_alike(level, arg.skip(1), rest, g, h);
        }
    }
}

proof fn lemma_letters_alike(
    level: Option<CommandKind>,
    letters: Seq<char>,
    rest: Seq<Seq<char>>,
    g: GivenView,
    h: GivenView,
)
    requires
        given_alike(g, h),
    ensures
        read_alike(scan_letters(level, letters, rest, g), scan_letters(level, letters, rest, h)),
    decreases rest.len(), letters.len() + 1,
{
    if letters.len() == 0 {
        lemma_scan_alike(level, rest, g, h);
    } else {
        let after = letters.skip(1);
        let name = match short_flag(letters[0]) {
            Some(name) => name,
            None => "tech"@,
        };
        assert(may_add(g, name) == may_add(h, name)) by {
            assert(name == "arch"@ || times(g.options, name) == times(h.options, name));
        }
        if short_flag(letters[0]) is Some {
            lemma_push_alike(g, h, name, Seq::empty());
            lemma_letters_alike(
                level,
                after,
                rest,
                with_option(g, name, Seq::empty()),
                with_option(h, name, Seq::empty()),
            );
        } else if after.len() > 0 {
            let value = if after[0] == '=' {
                after.skip(1)
            } else {
                after
            };
            lemma_push_alike(g, h, name, value);
            lemma_scan_alike(level, rest, with_option(g, name, value), with_option(h, name, value));
        } else if rest.len() > 0 {
            lemma_push_alike(g, h, name, rest[0]);
            lemma_scan_alike(level, rest.skip(1), with_option(g, name, rest[0]), with_option(h, name, rest[0]));
        }
    }
}

proof fn lemma_arches_named_concat(a: Seq<Seq<char>>, b: Seq<Seq<char>>)
    ensures
        arches_named(a + b) == arches_named(a) + arches_named(b),
    decreases b.len(),
{
    if b.len() == 0 {
        assert(a + b =~= a);
        assert(arches_named(a) + arches_named(b) =~= arches_named(a));
    } else {
        lemma_arches_named_concat(a, b.drop_last());
        assert((a + b).drop_last() =~= a + b.drop_last());
        assert(arches_named(a + b) =~= arches_named(a) + arches_named(b));
    }
}

/// What an option `--arch` with a value of its own gives.
proof fn lemma_scan_arch(level: Option<CommandKind>, value: Seq<char>, rest: Seq<Seq<char>>, g: GivenView)
    requires
        !g.literal,
        !hyphened(value),
    ensures
        scan(level, seq!["--arch"@, value] + rest, g) == if arches_fit(split_at_char(value, ',')) {
            scan(level, rest, with_option(g, "arch"@, value))
        } else {
            None
        },
{
    let args = seq!["--arch"@, value] + rest;
    let arg = "--arch"@;
    reveal_strlit("--arch");
    reveal_strlit("--");
    reveal_strlit("arch");
    reveal_strlit("type");
    reveal_strlit("tech-stack");
    reveal_strlit("verbose");
    reveal_strlit("quiet");
    reveal_strlit("silent");
    reveal_strlit("container");
    reveal_strlit("no-container");
    assert(args[0] == arg);
    assert(arg.skip(2) =~= "arch"@);
    assert("arch"@[0] != "type"@[0]);
    assert(cut_once("arch"@, '=') is None) by {
        reveal_with_fuel(crate::text::first_index, 6);
    }
    assert(long_parts(arg) == ("arch"@, None::<Seq<char>>));
    assert(value_known(level, "arch"@));
    assert(!foreign(level, arg));
    assert(args.skip(1)[0] == value);
    assert(args.skip(1).skip(1) =~= rest);
    assert(!flag_known(level, "arch"@)) by {
        reveal_strlit("all");
        reveal_strlit("dry-run");
        reveal_strlit("fail-fast");
        reveal_strlit("keep-going");
        reveal_strlit("respect-branches");
        reveal_strlit("no-recursive-checkout");
        reveal_strlit("lock");
        reveal_strlit("porcelain");
        reveal_strlit("no-porcelain");
        reveal_strlit("bare");
        reveal_strlit("force");
        reveal_strlit("backup-existing");
        reveal_strlit("keep-binary");
        reveal_strlit("restore");
        assert("arch"@[0] != "lock"@[0]);
        assert("arch"@[0] != "bare"@[0]);
    }
    assert(value_fits(level, "arch"@, value) == arches_fit(split_at_char(value, ','))) by {
        reveal_strlit("repo");
        reveal_strlit("ci-dir");
        reveal_strlit("config");
        reveal_strlit("source");
        reveal_strlit("dest");
        reveal_strlit("output");
        reveal_strlit("dir");
        reveal_strlit("color");
        reveal_strlit("git-mode");
        reveal_strlit("tech");
        reveal_strlit("container-runtime");
        assert("arch"@[0] != "repo"@[0]);
        assert("arch"@[0] != "dest"@[0]);
        assert("arch"@[0] != "tech"@[0]);
    }
}

/// Several architectures can be given in one list or one by one, wherever options are
/// read. (No value here starts as an option does.)
pub proof fn law_architectures_may_be_given_together(
    level: Option<CommandKind>,
    a: Seq<char>,
    b: Seq<char>,
    rest: Seq<Seq<char>>,
    g: GivenView,
)
    requires
        !g.literal,
        !hyphened(a),
        !hyphened(b),
        !hyphened(a + ","@ + b),
    ensures
        read_alike(
            scan(level, seq!["--arch"@, a + ","@ + b] + rest, g),
            scan(level, seq!["--arch"@, a, "--arch"@, b] + rest, g),
        ),
{
    let both = a + ","@ + b;
    reveal_strlit(",");
    assert(both =~= a.push(',') + b);
    let xs = split_at_char(a, ',');
    let ys = split_at_char(b, ',');
    lemma_split_concat(a, b, ',');
    let g1 = with_option(g, "arch"@, a);
    let g2 = with_option(g1, "arch"@, b);
    let one = with_option(g, "arch"@, both);
    lemma_scan_arch(level, both, rest, g);
    assert(seq!["--arch"@, a, "--arch"@, b] + rest =~= seq!["--arch"@, a] + (seq!["--arch"@, b] + rest));
    lemma_scan_arch(level, a, seq!["--arch"@, b] + rest, g);
    lemma_scan_arch(level, b, rest, g1);
    assert(arches_fit(xs + ys) == (arches_fit(xs) && arches_fit(ys))) by {
        if arches_fit(xs + ys) {
            assert forall|i: int| 0 <= i < xs.len() implies canonical_arch(#[trigger] xs[i]) is Some by {
                assert(xs[i] == (xs + ys)[i]);
            }
            assert forall|i: int| 0 <= i < ys.len() implies canonical_arch(#[trigger] ys[i]) is Some by {
                assert(ys[i] == (xs + ys)[i + xs.len()]);
            }
        }
    }
    assert(given_alike(one, g2)) by {
        assert(one.options.drop_last() =~= g.options);
        assert(g1.options.drop_last() =~= g.options);
        assert(g2.options.drop_last() =~= g1.options);
        lemma_arches_named_concat(xs, ys);
        let before = arches_given(g.options);
        assert(arches_given(one.options) == before + arches_named(xs + ys));
        assert(arches_given(g1.options) == before + arches_named(xs));
        assert(arches_given(g2.options) == arches_given(g1.options) + arches_named(ys));
        assert(arches_given(one.options) =~= arches_given(g2.options));
        assert forall|n: Seq<char>| n != "arch"@ implies #[trigger] times(one.options, n) == times(g2.options, n)
            && option_value(one.options, n) == option_value(g2.options, n) by {
            assert(times(g1.options, n) == times(g.options, n));
            assert(option_value(g1.options, n) == option_value(g.options, n));
        }
    }
    lemma_scan_alike(level, rest, one, g2);
}

/// Whether two command lines come to the same.
pub open spec fn lines_alike(a: Option<LineView>, b: Option<LineView>) -> bool {
    match a {
        None => b is None,
        Some(x) => b matches Some(y) && x.kind == y.kind && alike(x.before, y.before) && given_alike(
            x.given,
            y.given,
        ),
    }
}

proof fn lemma_name_alike(x: LineView, y: LineView, name: Seq<char>)
    requires
        lines_alike(Some(x), Some(y)),
        name != "arch"@,
    ensures
        global_text(x, name) == global_text(y, name),
        global_given(x, name) == global_given(y, name),
        times(global_options(x, name), name) == times(global_options(y, name), name),
        own_text(x, name) == own_text(y, name),
        own_given(x, name) == own_given(y, name),
{
    assert(times(x.given.options, name) == times(y.given.options, name));
    assert(times(x.before, name) == times(y.before, name));
}

/// Command lines that come to the same ask for the same, with the same settings.
pub proof fn law_like_lines_ask_for_the_same(x: LineView, y: LineView, global: GlobalOptions, command: Commands)
    requires
        lines_alike(Some(x), Some(y)),
    ensures
        globals_are(global, x) == globals_are(global, y),
        command_is(command, x) == command_is(command, y),
{
    reveal_strlit("arch");
    reveal_strlit("verbose");
    reveal_strlit("quiet");
    reveal_strlit("silent");
    reveal_strlit("repo");
    reveal_strlit("ci-dir");
    reveal_strlit("config");
    reveal_strlit("color");
    reveal_strlit("git-mode");
    reveal_strlit("git-command");
    reveal_strlit("git-image");
    reveal_strlit("container");
    reveal_strlit("no-container");
    reveal_strlit("tech");
    assert("arch"@[0] != "repo"@[0]);
    assert("arch"@[0] != "tech"@[0]);
    lemma_name_alike(x, y, "verbose"@);
    lemma_name_alike(x, y, "quiet"@);
    lemma_name_alike(x, y, "silent"@);
    lemma_name_alike(x, y, "repo"@);
    lemma_name_alike(x, y, "ci-dir"@);
    lemma_name_alike(x, y, "config"@);
    lemma_name_alike(x, y, "color"@);
    lemma_name_alike(x, y, "git-mode"@);
    lemma_name_alike(x, y, "git-command"@);
    lemma_name_alike(x, y, "git-image"@);
    lemma_name_alike(x, y, "container"@);
    lemma_name_alike(x, y, "no-container"@);
    lemma_name_alike(x, y, "tech"@);
    lemma_commands_alike(x, y, command);
}

proof fn lemma_commands_alike(x: LineView, y: LineView, command: Commands)
    requires
        lines_alike(Some(x), Some(y)),
    ensures
        command_is(command, x) == command_is(command, y),
{
    reveal_strlit("arch");
    reveal_strlit("event");
    reveal_strlit("all");
    reveal_strlit("dry-run");
    reveal_strlit("fail-fast");
    reveal_strlit("keep-going");
    reveal_strlit("container-runtime");
    reveal_strlit("respect-branches");
    reveal_strlit("no-recursive-checkout");
    reveal_strlit("lock");
    reveal_strlit("porcelain");
    reveal_strlit("no-porcelain");
    reveal_strlit("mode");
    reveal_strlit("source");
    reveal_strlit("hooks");
    reveal_strlit("bare");
    reveal_strlit("force");
    reveal_strlit("backup-existing");
    reveal_strlit("keep-binary");
    reveal_strlit("restore");
    reveal_strlit("run-id");
    reveal_strlit("dest");
    reveal_strlit("output");
    reveal_strlit("dir");
    assert("arch"@[0] != "lock"@[0]);
    assert("arch"@[0] != "mode"@[0]);
    assert("arch"@[0] != "bare"@[0]);
    assert("arch"@[0] != "dest"@[0]);
    assert("all"@.len() != "arch"@.len());
    lemma_name_alike(x, y, "event"@);
    lemma_name_alike(x, y, "all"@);
    lemma_name_alike(x, y, "dry-run"@);
    lemma_name_alike(x, y, "fail-fast"@);
    lemma_name_alike(x, y, "keep-going"@);
    lemma_name_alike(x, y, "container-runtime"@);
    lemma_name_alike(x, y, "respect-branches"@);
    lemma_name_alike(x, y, "no-recursive-checkout"@);
    lemma_name_alike(x, y, "lock"@);
    lemma_name_alike(x, y, "porcelain"@);
    lemma_name_alike(x, y, "no-porcelain"@);
    lemma_name_alike(x, y, "mode"@);
    lemma_name_alike(x, y, "source"@);
    lemma_name_alike(x, y, "hooks"@);
    lemma_name_alike(x, y, "bare"@);
    lemma_name_alike(x, y, "force"@);
    lemma_name_alike(x, y, "backup-existing"@);
    lemma_name_alike(x, y, "keep-binary"@);
    lemma_name_alike(x, y, "restore"@);
    lemma_name_alike(x, y, "run-id"@);
    lemma_name_alike(x, y, "dest"@);
    lemma_name_alike(x, y, "output"@);
    lemma_name_alike(x, y, "dir"@);
}

/// `--arch a,b` before the command or right after it asks for what `--arch a --arch b`
/// asks for there. (No value here starts as an option does.)
pub proof fn law_one_list_or_several_options(
    program: Seq<char>,
    word: Option<Seq<char>>,
    a: Seq<char>,
    b: Seq<char>,
    rest: Seq<Seq<char>>,
)
    requires
        word matches Some(w) ==> !hyphened(w),
        !hyphened(a),
        !hyphened(b),
        !hyphened(a + ","@ + b),
    ensures
        ({
            let start = match word {
                Some(w) => seq![program, w],
                None => seq![program],
            };
            lines_alike(
                accepted(start + seq!["--arch"@, a + ","@ + b] + rest),
                accepted(start + seq!["--arch"@, a, "--arch"@, b] + rest),
            )
        }),
{
    let one = seq!["--arch"@, a + ","@ + b] + rest;
    let two = seq!["--arch"@, a, "--arch"@, b] + rest;
    let start = match word {
        Some(w) => seq![program, w],
        None => seq![program],
    };
    let l1 = start + seq!["--arch"@, a + ","@ + b] + rest;
    let l2 = start + seq!["--arch"@, a, "--arch"@, b] + rest;
    let g = nothing_given();
    match word {
        None => {
            assert(l1.skip(1) =~= one);
            assert(l2.skip(1) =~= two);
            law_architectures_may_be_given_together(None, a, b, rest, g);
            if let Some((before, left)) = scan(None, one, g) {
                lemma_conflicts_alike(before.options, (scan(None, two, g)->0).0.options);
                if left.len() > 0 {
                    if let Some(kind) = command_named(left[0]) {
                        lemma_scan_alike(Some(kind), left.skip(1), g, g);
                    }
                }
            }
        },
        Some(w) => {
            reveal_strlit("--");
            assert(w != "--"@);
            assert(l1.skip(1) =~= seq![w] + one);
            assert(l2.skip(1) =~= seq![w] + two);
            assert(l1.skip(1)[0] == w && l2.skip(1)[0] == w);
            assert(scan(None, l1.skip(1), g) == Some((g, l1.skip(1))));
            assert(scan(None, l2.skip(1), g) == Some((g, l2.skip(1))));
            assert(l1.skip(1).skip(1) =~= one);
            assert(l2.skip(1).skip(1) =~= two);
            if let Some(kind) = command_named(w) {
                law_architectures_may_be_given_together(Some(kind), a, b, rest, g);
                if let Some((given, _)) = scan(Some(kind), one, g) {
                    lemma_conflicts_alike(given.options, (scan(Some(kind), two, g)->0).0.options);
                }
            }
        },
    }
}

proof fn lemma_conflicts_alike(a: Seq<(Seq<char>, Seq<char>)>, b: Seq<(Seq<char>, Seq<char>)>)
    requires
        alike(a, b),
    ensures
        no_conflict(a) == no_conflict(b),
{
    reveal_strlit("arch");
    reveal_strlit("container");
    reveal_strlit("no-container");
    reveal_strlit("porcelain");
    reveal_strlit("no-porcelain");
}

/// A letter behind one hyphen stands for the word behind two.
pub proof fn law_letters_stand_for_words(level: Option<CommandKind>, rest: Seq<Seq<char>>, g: GivenView)
    requires
        !g.literal,
        !hyphens_pass(level, g),
    ensures
        scan(level, seq!["-v"@] + rest, g) == scan(level, seq!["--verbose"@] + rest, g),
        scan(level, seq!["-q"@] + rest, g) == scan(level, seq!["--quiet"@] + rest, g),
        scan(level, seq!["-c"@] + rest, g) == scan(level, seq!["--container"@] + rest, g),
        scan(level, seq!["-C"@] + rest, g) == scan(level, seq!["--no-container"@] + rest, g),
{
    reveal_strlit("-v");
    reveal_strlit("-q");
    reveal_strlit("-c");
    reveal_strlit("-C");
    reveal_strlit("--verbose");
    reveal_strlit("--quiet");
    reveal_strlit("--container");
    reveal_strlit("--no-container");
    reveal_strlit("verbose");
    reveal_strlit("quiet");
    reveal_strlit("container");
    reveal_strlit("no-container");
    reveal_strlit("type");
    reveal_strlit("tech-stack");
    reveal_strlit("silent");
    reveal_strlit("--");
    assert(!"verbose"@.contains('='));
    assert("--verbose"@.skip(2) =~= "verbose"@);
    assert("-v"@.skip(1) =~= seq!['v']);
    assert("-v"@[0] == '-' && "-v"@[1] == 'v' && "-v"@.len() == 2);
    assert("--verbose"@[0] == '-' && "--verbose"@[1] == '-' && "--verbose"@.len() > 2);
    assert(!"quiet"@.contains('='));
    assert("--quiet"@.skip(2) =~= "quiet"@);
    assert("-q"@.skip(1) =~= seq!['q']);
    assert("-q"@[0] == '-' && "-q"@[1] == 'q' && "-q"@.len() == 2);
    assert("--quiet"@[0] == '-' && "--quiet"@[1] == '-' && "--quiet"@.len() > 2);
    assert(!"container"@.contains('='));
    assert("--container"@.skip(2) =~= "container"@);
    assert("-c"@.skip(1) =~= seq!['c']);
    assert("-c"@[0] == '-' && "-c"@[1] == 'c' && "-c"@.len() == 2);
    assert("--container"@[0] == '-' && "--container"@[1] == '-' && "--container"@.len() > 2);
    assert(!"no-container"@.contains('='));
    assert("--no-container"@.skip(2) =~= "no-container"@);
    assert("-C"@.skip(1) =~= seq!['C']);
    assert("-C"@[0] == '-' && "-C"@[1] == 'C' && "-C"@.len() == 2);
    assert("--no-container"@[0] == '-' && "--no-container"@[1] == '-' && "--no-container"@.len() > 2);
    assert("--"@[1] == '-' && "--"@.len() == 2);
    assert("verbose"@.len() != "type"@.len());
    assert("verbose"@.len() != "tech-stack"@.len());
    assert("quiet"@.len() != "type"@.len());
    assert("quiet"@.len() != "tech-stack"@.len());
    assert("container"@.len() != "type"@.len());
    assert("container"@.len() != "tech-stack"@.len());
    assert("no-container"@.len() != "type"@.len());
    assert("no-container"@.len() != "tech-stack"@.len());
    lemma_letter_is_word(level, rest, g, "-v"@, 'v', "--verbose"@, "verbose"@);
    lemma_letter_is_word(level, rest, g, "-q"@, 'q', "--quiet"@, "quiet"@);
    lemma_letter_is_word(level, rest, g, "-c"@, 'c', "--container"@, "container"@);
    lemma_letter_is_word(level, rest, g, "-C"@, 'C', "--no-container"@, "no-container"@);
}

proof fn lemma_letter_is_word(
    level: Option<CommandKind>,
    rest: Seq<Seq<char>>,
    g: GivenView,
    short: Seq<char>,
    c: char,
    long: Seq<char>,
    name: Seq<char>,
)
    requires
        !g.literal,
        !hyphens_pass(level, g),
        short.len() == 2 && short[0] == '-' && short[1] == c && c != '-',
        short.skip(1) == seq![c],
        short != "--"@ && long != "--"@,
        long.len() > 2 && long[0] == '-' && long[1] == '-' && long.skip(2) == name,
        !name.contains('='),
        option_name(name) == name,
        global_flag(name),
        short_flag(c) == Some(name),
    ensures
        scan(level, seq![short] + rest, g) == scan(level, seq![long] + rest, g),
{
    let a = seq![short] + rest;
    let b = seq![long] + rest;
    assert(a[0] == short && b[0] == long);
    assert(a.skip(1) =~= rest);
    assert(b.skip(1) =~= rest);
    lemma_not_found(name, '=');
    assert(long_parts(long) == (name, None::<Seq<char>>));
    assert(seq![c].skip(1) =~= Seq::<char>::empty());
    let next = with_option(g, name, Seq::empty());
    assert(scan_letters(level, Seq::<char>::empty(), rest, next) == scan(level, rest, next));
    if may_add(g, name) {
        assert(scan_letters(level, seq![c], rest, g) == scan(level, rest, next));
        assert(scan(level, b, g) == scan(level, rest, next));
    } else {
        assert(scan_letters(level, seq![c], rest, g) is None);
        assert(scan(level, b, g) is None);
    }
    assert(scan(level, a, g) == scan_letters(level, seq![c], rest, g));
}

/// A value may stand behind its option or, after `=`, in it.
pub proof fn law_values_stand_behind_or_within(
    level: Option<CommandKind>,
    name: Seq<char>,
    value: Seq<char>,
    rest: Seq<Seq<char>>,
    g: GivenView,
)
    requires
        !g.literal,
        !hyphens_pass(level, g),
        name.len() > 0 && !name.contains('='),
        value_known(level, option_name(name)) && !flag_known(level, option_name(name)),
        !hyphened(value),
    ensures
        scan(level, seq!["--"@ + name + "="@ + value] + rest, g) == scan(level, seq!["--"@ + name, value] + rest, g),
{
    reveal_strlit("--");
    reveal_strlit("=");
    let one = "--"@ + name + "="@ + value;
    let two = "--"@ + name;
    assert(one.skip(2) =~= name.push('=') + value);
    assert(two.skip(2) =~= name);
    law_cut_at_the_first(name, '=', value);
    let a = seq![one] + rest;
    let b = seq![two, value] + rest;
    assert(a.skip(1) =~= rest);
    assert(b.skip(1) =~= seq![value] + rest);
    assert(b.skip(1).skip(1) =~= rest);
    assert(a[0] == one && b[0] == two && b.skip(1)[0] == value);
    assert(one[0] == '-' && one[1] == '-' && two[0] == '-' && two[1] == '-');
    assert(one.len() > 2 && two.len() > 2);
}

/// Both readers of a line know the same switches for installing, updating, removing and
/// starting.
pub proof fn law_both_readers_know_the_same_switches(name: Seq<char>, o: ManageView)
    ensures
        own_flag(CommandKind::Install, name) == (with_switch(ManageKind::Install, "--"@ + name, o) is Some),
        own_flag(CommandKind::Uninstall, name) == (with_switch(ManageKind::Uninstall, "--"@ + name, o) is Some),
        own_flag(CommandKind::Update, name) == (with_switch(ManageKind::Update, "--"@ + name, o) is Some),
        own_flag(CommandKind::Init, name) == (with_switch(ManageKind::Init, "--"@ + name, o) is Some),
        own_value(CommandKind::Uninstall, name) == (with_setting(ManageKind::Uninstall, "--"@ + name, Seq::empty(), o) is Some),
        own_value(CommandKind::Update, name) == (with_setting(ManageKind::Update, "--"@ + name, Seq::empty(), o) is Some),
        own_value(CommandKind::Install, name) == (with_setting(ManageKind::Install, "--"@ + name, Seq::empty(), o) is Some || name
            == "source"@),
{
    reveal_strlit("--");
    reveal_strlit("bare");
    reveal_strlit("force");
    reveal_strlit("backup-existing");
    reveal_strlit("keep-binary");
    reveal_strlit("restore");
    reveal_strlit("dry-run");
    reveal_strlit("mode");
    reveal_strlit("hooks");
    reveal_strlit("source");
    reveal_strlit("--bare");
    reveal_strlit("--force");
    reveal_strlit("--backup-existing");
    reveal_strlit("--keep-binary");
    reveal_strlit("--restore");
    reveal_strlit("--dry-run");
    reveal_strlit("--mode");
    reveal_strlit("--hooks");
    reveal_strlit("--source");
    assert("--bare"@ =~= "--"@ + "bare"@);
    lemma_behind_hyphens(name, "bare"@);
    assert("--force"@ =~= "--"@ + "force"@);
    lemma_behind_hyphens(name, "force"@);
    assert("--backup-existing"@ =~= "--"@ + "backup-existing"@);
    lemma_behind_hyphens(name, "backup-existing"@);
    assert("--keep-binary"@ =~= "--"@ + "keep-binary"@);
    lemma_behind_hyphens(name, "keep-binary"@);
    assert("--restore"@ =~= "--"@ + "restore"@);
    lemma_behind_hyphens(name, "restore"@);
    assert("--dry-run"@ =~= "--"@ + "dry-run"@);
    lemma_behind_hyphens(name, "dry-run"@);
    assert("--mode"@ =~= "--"@ + "mode"@);
    lemma_behind_hyphens(name, "mode"@);
    assert("--hooks"@ =~= "--"@ + "hooks"@);
    lemma_behind_hyphens(name, "hooks"@);
    assert("--source"@ =~= "--"@ + "source"@);
    lemma_behind_hyphens(name, "source"@);
    assert("source"@.len() != "mode"@.len());
    assert("source"@.len() != "hooks"@.len());
    assert("mode"@.len() != "hooks"@.len());
}

proof fn lemma_behind_hyphens(a: Seq<char>, b: Seq<char>)
    ensures
        ("--"@ + a == "--"@ + b) == (a == b),
{
    reveal_strlit("--");
    if "--"@ + a == "--"@ + b {
        assert(("--"@ + a).skip(2) =~= a);
        assert(("--"@ + b).skip(2) =~= b);
    }
}

/// The options of a run and those of the whole line are known, and only there where they have a
/// meaning.
pub proof fn law_options_that_are_known(kind: CommandKind, name: Seq<char>)
    ensures
        own_flag(CommandKind::Run, "all"@) && own_flag(CommandKind::Run, "dry-run"@) && own_flag(CommandKind::Run, "fail-fast"@)
            && own_flag(CommandKind::Run, "keep-going"@) && own_flag(CommandKind::Run, "respect-branches"@) && own_flag(
            CommandKind::Run,
            "no-recursive-checkout"@,
        ) && own_flag(CommandKind::Run, "lock"@),
        own_value(CommandKind::Run, "event"@) && own_value(CommandKind::Run, "container-runtime"@),
        own_flag(CommandKind::List, "porcelain"@) && own_flag(CommandKind::List, "no-porcelain"@),
        own_flag(CommandKind::Clean, "dry-run"@) && own_value(CommandKind::Clean, "run-id"@) && own_value(
            CommandKind::Clean,
            "mode"@,
        ) && own_value(CommandKind::Clean, "dest"@),
        own_value(CommandKind::Completion, "output"@) && own_value(CommandKind::Man, "dir"@),
        kind is Hook || kind is Status || kind is Explain || kind is Schema || kind is SelfCmd ==> !own_flag(kind, name)
            && !own_value(kind, name),
        kind is Man || kind is Completion ==> !own_flag(kind, name),
        kind is List || kind is Init ==> !own_value(kind, name),
        global_flag("verbose"@) && global_flag("quiet"@) && global_flag("silent"@) && global_flag("container"@) && global_flag(
            "no-container"@,
        ),
        global_value("repo"@) && global_value("ci-dir"@) && global_value("config"@) && global_value("color"@) && global_value(
            "git-mode"@,
        ) && global_value("git-command"@) && global_value("git-image"@) && global_value("arch"@) && global_value("tech"@),
        global_value(option_name("type"@)) && global_value(option_name("tech-stack"@)),
        option_name("type"@) == option_name("tech"@) && option_name("tech-stack"@) == option_name("tech"@),
        name != "type"@ && name != "tech-stack"@ ==> option_name(name) == name,
        takes_next("--"@ + name) ==> global_value(option_name(name)),
{
    reveal_strlit("--");
    reveal_strlit("-t");
    reveal_strlit("repo");
    reveal_strlit("ci-dir");
    reveal_strlit("config");
    reveal_strlit("color");
    reveal_strlit("git-mode");
    reveal_strlit("git-command");
    reveal_strlit("git-image");
    reveal_strlit("arch");
    reveal_strlit("type");
    reveal_strlit("tech");
    reveal_strlit("tech-stack");
    reveal_strlit("--repo");
    reveal_strlit("--ci-dir");
    reveal_strlit("--config");
    reveal_strlit("--color");
    reveal_strlit("--git-mode");
    reveal_strlit("--git-command");
    reveal_strlit("--git-image");
    reveal_strlit("--arch");
    reveal_strlit("--type");
    reveal_strlit("--tech");
    reveal_strlit("--tech-stack");
    assert("--repo"@ =~= "--"@ + "repo"@);
    lemma_behind_hyphens(name, "repo"@);
    assert("--ci-dir"@ =~= "--"@ + "ci-dir"@);
    lemma_behind_hyphens(name, "ci-dir"@);
    assert("--config"@ =~= "--"@ + "config"@);
    lemma_behind_hyphens(name, "config"@);
    assert("--color"@ =~= "--"@ + "color"@);
    lemma_behind_hyphens(name, "color"@);
    assert("--git-mode"@ =~= "--"@ + "git-mode"@);
    lemma_behind_hyphens(name, "git-mode"@);
    assert("--git-command"@ =~= "--"@ + "git-command"@);
    lemma_behind_hyphens(name, "git-command"@);
    assert("--git-image"@ =~= "--"@ + "git-image"@);
    lemma_behind_hyphens(name, "git-image"@);
    assert("--arch"@ =~= "--"@ + "arch"@);
    lemma_behind_hyphens(name, "arch"@);
    assert("--type"@ =~= "--"@ + "type"@);
    lemma_behind_hyphens(name, "type"@);
    assert("--tech"@ =~= "--"@ + "tech"@);
    lemma_behind_hyphens(name, "tech"@);
    assert("--tech-stack"@ =~= "--"@ + "tech-stack"@);
    lemma_behind_hyphens(name, "tech-stack"@);
    assert("-t"@[1] != "--"@[1]);
    assert(("--"@ + name)[1] == '-');
    assert("tech"@[1] != "type"@[1]);
    assert("tech"@.len() != "tech-stack"@.len());
}

/// The value of an option is the one that was given last, and an option was given where it stands
/// among them.
pub proof fn law_what_was_given(options: Seq<(Seq<char>, Seq<char>)>, name: Seq<char>, value: Seq<char>, other: Seq<char>)
    ensures
        option_value(options.push((name, value)), name) == Some(value),
        other != name ==> option_value(options.push((other, value)), name) == option_value(options, name),
        times(options.push((name, value)), name) == times(options, name) + 1,
        other != name ==> times(options.push((other, value)), name) == times(options, name),
        times(Seq::empty(), name) == 0 && option_value(Seq::empty(), name) is None,
{
    assert(options.push((name, value)).drop_last() =~= options);
    assert(options.push((other, value)).drop_last() =~= options);
}

/// What a line without options of its own means: the repository and the workflows of this
/// directory, in the usual way.
pub proof fn law_what_a_bare_line_means(g: GlobalOptions, c: Commands, line: LineView)
    requires
        globals_are(g, line),
        command_is(c, line),
        line.before.len() == 0,
        line.given.options.len() == 0,
    ensures
        g.repo@ == "."@ && g.ci_dir@ == ".ci"@ && g.config is None && g.color is Auto,
        g.verbose == 0 && !g.quiet && !g.silent && !g.container && !g.no_container,
        g.git_mode is None && g.git_command is None && g.git_image is None && g.tech_stack is None && g.arch@.len() == 0,
        c matches Commands::Run(a) ==> a.event@ == "manual"@ && !a.all && !a.dry_run && !a.fail_fast && !a.keep_going
            && a.container_runtime is None && !a.respect_branches && !a.no_recursive_checkout && !a.lock,
        c matches Commands::Install(a) ==> a.mode is None && a.source is None && a.hooks is None && !a.force && !a.backup_existing
            && !a.dry_run,
        c matches Commands::Uninstall(a) ==> a.hooks is None && !a.keep_binary && !a.restore && !a.dry_run,
        c matches Commands::Update(a) ==> a.source is None && !a.dry_run,
        c matches Commands::Clean(a) ==> a.run_id is None && a.mode is Keep && a.dest is None && !a.dry_run,
        (c is Run) == (line.kind is Run) && (c is Hook) == (line.kind is Hook) && (c is Install) == (line.kind is Install),
{
    assert(arches_given(line.before).len() == 0);
    assert(arches_given(line.given.options).len() == 0);
    assert(arch_names(g.arch@).len() == g.arch@.len());
}

/// What a line means that names something: the first word is the workflow, the hook or the
/// subject, and what follows the hook is passed on to it.
pub proof fn law_what_the_words_of_a_line_mean(c: Commands, line: LineView)
    requires
        command_is(c, line),
    ensures
        c is Run && line.given.words.len() > 0 ==> c->Run_0.workflow is Some && c->Run_0.workflow->0@ == line.given.words[0],
        c is Run && line.given.words.len() == 0 ==> c->Run_0.workflow is None,
        c is Clean && line.given.words.len() > 0 ==> c->Clean_0.workflow is Some && c->Clean_0.workflow->0@ == line.given.words[0],
        c is Explain && line.given.words.len() > 0 ==> c->Explain_0.subject@ == line.given.words[0],
        c is Hook && line.given.words.len() > 0 ==> c->Hook_0.hook@ == line.given.words[0] && texts(c->Hook_0.hook_args@)
            == line.given.words.skip(1),
{
}

/// What an option does: every switch of a run, of installing and of removing is taken from the
/// option of its name.
pub proof fn law_what_an_option_does(c: Commands, line: LineView)
    requires
        command_is(c, line),
    ensures
        ({
            let o = line.given.options;
            &&& c matches Commands::Run(a) ==> {
                &&& a.all == (times(o, "all"@) > 0) && a.dry_run == (times(o, "dry-run"@) > 0) && a.lock == (times(o, "lock"@) > 0)
                &&& a.fail_fast == (times(o, "fail-fast"@) > 0) && a.keep_going == (times(o, "keep-going"@) > 0)
                &&& a.respect_branches == (times(o, "respect-branches"@) > 0)
                &&& a.no_recursive_checkout == (times(o, "no-recursive-checkout"@) > 0)
                &&& option_value(o, "event"@) is Some ==> a.event@ == option_value(o, "event"@)->0
                &&& option_value(o, "container-runtime"@) is Some ==> a.container_runtime == runtime_named(
                    option_value(o, "container-runtime"@)->0,
                )
            }
            &&& c matches Commands::Install(a) ==> {
                &&& a.force == (times(o, "force"@) > 0) && a.backup_existing == (times(o, "backup-existing"@) > 0)
                &&& a.dry_run == (times(o, "dry-run"@) > 0) && a.bare == (times(o, "bare"@) > 0)
                &&& opt_text(a.hooks) == option_value(o, "hooks"@) && opt_text(a.source) == option_value(o, "source"@)
                &&& option_value(o, "mode"@) is Some ==> a.mode == install_mode_named(option_value(o, "mode"@)->0)
            }
            &&& c matches Commands::Uninstall(a) ==> {
                &&& a.keep_binary == (times(o, "keep-binary"@) > 0) && a.restore == (times(o, "restore"@) > 0)
                &&& a.dry_run == (times(o, "dry-run"@) > 0) && opt_text(a.hooks) == option_value(o, "hooks"@)
            }
            &&& c matches Commands::Update(a) ==> a.dry_run == (times(o, "dry-run"@) > 0) && opt_text(a.source) == option_value(
                o,
                "source"@,
            )
            &&& c matches Commands::Init(a) ==> a.force == (times(o, "force"@) > 0)
            &&& c matches Commands::List(a) ==> a.porcelain == (times(o, "porcelain"@) > 0) && a.no_porcelain == (times(
                o,
                "no-porcelain"@,
            ) > 0)
            &&& c matches Commands::Clean(a) ==> a.dry_run == (times(o, "dry-run"@) > 0) && opt_text(a.run_id) == option_value(
                o,
                "run-id"@,
            ) && opt_text(a.dest) == option_value(o, "dest"@)
        }),
{
}

/// An option of the whole line counts where it stands behind the command, else where it stands
/// before it.
pub proof fn law_options_before_and_behind_the_command(g: GlobalOptions, line: LineView)
    requires
        globals_are(g, line),
    ensures
        times(line.given.options, "repo"@) > 0 && option_value(line.given.options, "repo"@) is Some ==> g.repo@ == option_value(
            line.given.options,
            "repo"@,
        )->0,
        times(line.given.options, "repo"@) == 0 && option_value(line.before, "repo"@) is Some ==> g.repo@ == option_value(
            line.before,
            "repo"@,
        )->0,
        times(line.given.options, "ci-dir"@) == 0 && option_value(line.before, "ci-dir"@) is Some ==> g.ci_dir@ == option_value(
            line.before,
            "ci-dir"@,
        )->0,
        times(line.given.options, "quiet"@) > 0 || times(line.before, "quiet"@) > 0 <==> g.quiet,
        times(line.given.options, "silent"@) > 0 || times(line.before, "silent"@) > 0 <==> g.silent,
        times(line.given.options, "container"@) > 0 || times(line.before, "container"@) > 0 <==> g.container,
        times(line.given.options, "no-container"@) > 0 || times(line.before, "no-container"@) > 0 <==> g.no_container,
        times(line.given.options, "verbose"@) == 0 && times(line.before, "verbose"@) <= 255 ==> g.verbose == times(
            line.before,
            "verbose"@,
        ),
        times(line.given.options, "config"@) == 0 ==> opt_text(g.config) == option_value(line.before, "config"@),
        times(line.given.options, "git-command"@) == 0 ==> opt_text(g.git_command) == option_value(line.before, "git-command"@),
        times(line.given.options, "git-image"@) == 0 ==> opt_text(g.git_image) == option_value(line.before, "git-image"@),
        times(line.given.options, "tech"@) == 0 && option_value(line.before, "tech"@) is Some ==> g.tech_stack == stack_named(
            option_value(line.before, "tech"@)->0,
        ),
        times(line.given.options, "git-mode"@) == 0 && option_value(line.before, "git-mode"@) is Some ==> g.git_mode
            == git_mode_named(option_value(line.before, "git-mode"@)->0),
{
}

/// A line with two options that exclude each other is refused, and so is one without a
/// command or without the word that its command needs.
pub proof fn law_lines_that_are_refused(argv: Seq<Seq<char>>)
    ensures
        accepted(argv) matches Some(line) ==> {
            &&& times(line.before, "container"@) == 0 || times(line.before, "no-container"@) == 0
            &&& times(line.given.options, "container"@) == 0 || times(line.given.options, "no-container"@) == 0
            &&& times(line.given.options, "porcelain"@) == 0 || times(line.given.options, "no-porcelain"@) == 0
            &&& line.kind is Hook || line.kind is Explain || line.kind is Completion ==> line.given.words.len() > 0
            &&& argv.len() > 1
        },
{
    if argv.len() == 1 {
        assert(argv.skip(1).len() == 0);
    }
}

} // verus!
