//! How much the tool says, and where it says it.

use crate::cli::GlobalOptions;
use crate::config::{ColorWhen, Defaults, DefaultsConfig};
use vstd::prelude::*;
use vstd::string::*;

verus! {

/// How much is said.
#[derive(Clone, Copy, Debug, PartialEq, Eq, Structural)]
pub enum Verbosity {
    Silent,
    Quiet,
    Normal,
    Verbose(u8),
}

/// The weight of a message, from the gravest to the most detailed.
#[derive(Clone, Copy, Debug, PartialEq, Eq, Structural)]
pub enum Level {
    Error,
    Warn,
    Info,
    Debug,
    Trace,
}

impl Level {
    /// How detailed a level is.
    pub open spec fn detail(self) -> int {
        match self {
            Level::Error => 0,
            Level::Warn => 1,
            Level::Info => 2,
            Level::Debug => 3,
            Level::Trace => 4,
        }
    }

    /// Whether messages of this level go to the error stream: warnings and errors do,
    /// everything else goes to the standard output.
    pub fn to_stderr(&self) -> (r: bool)
        ensures
            r == (self.detail() <= Level::Warn.detail()),
    {
        match self {
            Level::Error => true,
            Level::Warn => true,
            _ => false,
        }
    }
}

/// A message to be written.
#[derive(Debug, PartialEq, Eq)]
pub struct Record {
    pub level: Level,
    pub message: String,
}

/// The sink of messages.
#[derive(Clone, Copy, Debug)]
pub struct Output {
    verbosity: Verbosity,
}

impl Output {
    /// An output that is verbose is so to a degree above nothing.
    #[verifier::type_invariant]
    spec fn graded(&self) -> bool {
        self.verbosity != Verbosity::Verbose(0)
    }
}

/// Whether details are said.
pub open spec fn details_said(v: Verbosity) -> bool {
    v is Verbose
}

/// Whether less than usual is said.
pub open spec fn less_said(v: Verbosity) -> bool {
    v is Quiet || v is Silent
}

/// The setting of `quiet` and `silent` by the command line over that of the
/// configuration: being verbose clears both, and each of them clears the other.
pub open spec fn quiet_of(verbose: u8, quiet: bool, silent: bool, configured: bool) -> bool {
    if verbose > 0 || silent {
        false
    } else {
        quiet || configured
    }
}

/// See [`quiet_of`].
pub open spec fn silent_of(verbose: u8, quiet: bool, silent: bool, configured: bool) -> bool {
    if verbose > 0 {
        false
    } else if silent {
        true
    } else if quiet {
        false
    } else {
        configured
    }
}

/// How much is said: a policy that asks for silence or quiet comes first, then being
/// verbose, then what is left of silence and quiet.
pub open spec fn verbosity_of(
    verbose: u8,
    quiet: bool,
    silent: bool,
    policy_quiet: Option<bool>,
    policy_silent: Option<bool>,
) -> Verbosity {
    if policy_silent == Some(true) {
        Verbosity::Silent
    } else if policy_quiet == Some(true) {
        Verbosity::Quiet
    } else if verbose > 0 {
        Verbosity::Verbose(verbose)
    } else if silent && policy_silent != Some(false) {
        Verbosity::Silent
    } else if quiet && policy_quiet != Some(false) {
        Verbosity::Quiet
    } else {
        Verbosity::Normal
    }
}

/// How much is said under the command line, the configuration and a policy.
pub open spec fn settled_verbosity(
    global: GlobalOptions,
    defaults: Option<&Defaults>,
    policy: Option<&DefaultsConfig>,
) -> Verbosity {
    let configured_quiet = match defaults {
        Some(d) => d.quiet,
        None => false,
    };
    let configured_silent = match defaults {
        Some(d) => d.silent,
        None => false,
    };
    let policy_quiet = match policy {
        Some(p) => p.quiet,
        None => None,
    };
    let policy_silent = match policy {
        Some(p) => p.silent,
        None => None,
    };
    verbosity_of(
        global.verbose,
        quiet_of(global.verbose, global.quiet, global.silent, configured_quiet),
        silent_of(global.verbose, global.quiet, global.silent, configured_silent),
        policy_quiet,
        policy_silent,
    )
}

impl View for Output {
    type V = Verbosity;

    closed spec fn view(&self) -> Verbosity {
        self.verbosity
    }
}

/// A message at a level, where it is said.
pub open spec fn says(r: Option<Record>, said: bool, level: Level, message: Seq<char>) -> bool {
    match r {
        Some(record) => said && record.level == level && record.message@ == message,
        None => !said,
    }
}

impl Output {
    /// The output under the command line alone.
    pub fn from_globals(global: &GlobalOptions) -> (r: Self)
        ensures
            r@ == settled_verbosity(*global, None, None),
    {
        Self::from_settings(global, None)
    }

    /// The output under the command line and the configuration.
    pub fn from_settings(global: &GlobalOptions, defaults: Option<&Defaults>) -> (r: Self)
        ensures
            r@ == settled_verbosity(*global, defaults, None),
    {
        Self::from_settings_with_policy(global, defaults, None)
    }

    /// The output under the command line, the configuration and a policy.
    pub fn from_settings_with_policy(
        global: &GlobalOptions,
        defaults: Option<&Defaults>,
        policy: Option<&DefaultsConfig>,
    ) -> (r: Self)
        ensures
            r@ == settled_verbosity(*global, defaults, policy),
    {
        let mut verbose: u8 = global.verbose;
        let mut quiet = match defaults {
            Some(value) => value.quiet,
            None => false,
        };
        let mut silent = match defaults {
            Some(value) => value.silent,
            None => false,
        };

        if global.verbose > 0 {
            quiet = false;
            silent = false;
        } else {
            if global.quiet {
                quiet = true;
                silent = false;
            }
            if global.silent {
                quiet = false;
                silent = true;
            }
        }

        if let Some(policy) = policy {
            if let Some(value) = policy.quiet {
                quiet = value;
                if value {
                    verbose = 0;
                    silent = false;
                }
            }
            if let Some(value) = policy.silent {
                silent = value;
                if value {
                    verbose = 0;
                    quiet = false;
                }
            }
        }

        let verbosity = if verbose > 0 {
            Verbosity::Verbose(verbose)
        } else if silent {
            Verbosity::Silent
        } else if quiet {
            Verbosity::Quiet
        } else {
            Verbosity::Normal
        };
        Output { verbosity }
    }

    /// How much is said; never verbose to no degree.
    pub fn verbosity(&self) -> (r: Verbosity)
        ensures
            r == self@,
            r != Verbosity::Verbose(0),
    {
        proof {
            use_type_invariant(self);
        }
        self.verbosity
    }

    /// Whether details are said.
    pub fn is_verbose(&self) -> (r: bool)
        ensures
            r == details_said(self@),
            r ==> self@->Verbose_0 > 0 && !less_said(self@),
    {
        proof {
            use_type_invariant(self);
        }
        matches!(self.verbosity, Verbosity::Verbose(_))
    }

    /// Whether less than usual is said.
    pub fn is_quiet_or_silent(&self) -> (r: bool)
        ensures
            r == less_said(self@),
            r ==> !details_said(self@),
    {
        matches!(self.verbosity, Verbosity::Quiet | Verbosity::Silent)
    }

    /// A message about progress: said unless the output is quiet or silent.
    pub fn info(&self, message: &str) -> (r: Option<Record>)
        ensures
            says(r, !(self@ is Quiet || self@ is Silent), Level::Info, message@),
    {
        if self.is_quiet_or_silent() {
            None
        } else {
            Some(Record { level: Level::Info, message: message.to_owned() })
        }
    }

    /// A warning: said unless the output is silent.
    pub fn warn(&self, message: &str) -> (r: Option<Record>)
        ensures
            says(r, !(self@ is Silent), Level::Warn, message@),
    {
        if matches!(self.verbosity, Verbosity::Silent) {
            None
        } else {
            Some(Record { level: Level::Warn, message: message.to_owned() })
        }
    }

    /// An error: always said.
    pub fn error(&self, message: &str) -> (r: Record)
        ensures
            says(Some(r), true, Level::Error, message@),
    {
        Record { level: Level::Error, message: message.to_owned() }
    }

    /// A detail: said when the output is verbose, as a trace when it is more than that.
    pub fn verbose(&self, message: &str) -> (r: Option<Record>)
        ensures
            says(
                r,
                self@ is Verbose,
                if self@->Verbose_0 > 1 {
                    Level::Trace
                } else {
                    Level::Debug
                },
                message@,
            ),
    {
        match self.verbosity {
            Verbosity::Verbose(level) => if level > 1 {
                Some(Record { level: Level::Trace, message: message.to_owned() })
            } else {
                Some(Record { level: Level::Debug, message: message.to_owned() })
            },
            _ => None,
        }
    }
}

/// The most detailed level that is written.
pub fn max_level(verbose: u8) -> (r: Level)
    ensures
        r == if verbose > 1 {
            Level::Trace
        } else if verbose > 0 {
            Level::Debug
        } else {
            Level::Info
        },
{
    if verbose > 1 {
        Level::Trace
    } else if verbose > 0 {
        Level::Debug
    } else {
        Level::Info
    }
}

/// Whether the output is coloured; left to itself it is where a stream is a terminal.
pub fn color_enabled(color: ColorWhen, stdout_is_terminal: bool, stderr_is_terminal: bool) -> (r: bool)
    ensures
        r == match color {
            ColorWhen::Always => true,
            ColorWhen::Never => false,
            ColorWhen::Auto => stdout_is_terminal || stderr_is_terminal,
        },
{
    match color {
        ColorWhen::Always => true,
        ColorWhen::Never => false,
        ColorWhen::Auto => stdout_is_terminal || stderr_is_terminal,
    }
}

/// Nothing says both more and less than usual, and what does neither is the usual.
pub proof fn law_more_or_less_or_as_usual(v: Verbosity)
    ensures
        !(details_said(v) && less_said(v)),
        (!details_said(v) && !less_said(v)) == (v == Verbosity::Normal),
{
}

/// No setting makes an output that is verbose to no degree.
pub proof fn law_being_verbose_has_a_degree(
    global: GlobalOptions,
    defaults: Option<&Defaults>,
    policy: Option<&DefaultsConfig>,
)
    ensures
        settled_verbosity(global, defaults, policy) != Verbosity::Verbose(0),
{
}

/// A policy of silence holds against every other setting.
pub proof fn law_policy_silence_wins(global: GlobalOptions, defaults: Option<&Defaults>, policy: &DefaultsConfig)
    requires
        policy.silent == Some(true),
    ensures
        settled_verbosity(global, defaults, Some(policy)) == Verbosity::Silent,
{
}

/// A policy of quiet holds against the command line and the configuration.
pub proof fn law_policy_quiet_wins(global: GlobalOptions, defaults: Option<&Defaults>, policy: &DefaultsConfig)
    requires
        policy.quiet == Some(true),
        policy.silent != Some(true),
    ensures
        settled_verbosity(global, defaults, Some(policy)) == Verbosity::Quiet,
{
}

/// Without a policy, being verbose holds against every wish for quiet or silence.
pub proof fn law_verbose_wins_without_policy(global: GlobalOptions, defaults: Option<&Defaults>)
    requires
        global.verbose > 0,
    ensures
        settled_verbosity(global, defaults, None) == Verbosity::Verbose(global.verbose),
{
}

/// Without a policy: `-v` is heard before `--silent` and `--quiet`, `--silent` before `--quiet`,
/// and each of them before the configuration. A policy that forbids to be quiet or silent is
/// kept to.
pub proof fn law_what_is_said_follows_the_switches(global: GlobalOptions, defaults: Defaults, policy: &DefaultsConfig)
    requires
        global.verbose == 0,
    ensures
        ({
            let free = settled_verbosity(global, Some(&defaults), None);
            &&& global.silent ==> free == Verbosity::Silent
            &&& global.quiet && !global.silent ==> free == Verbosity::Quiet
            &&& !global.quiet && !global.silent && defaults.silent ==> free == Verbosity::Silent
            &&& !global.quiet && !global.silent && !defaults.silent && defaults.quiet ==> free == Verbosity::Quiet
            &&& !global.quiet && !global.silent && !defaults.silent && !defaults.quiet ==> free == Verbosity::Normal
            &&& settled_verbosity(GlobalOptions { quiet: false, silent: false, ..global }, None, None) == Verbosity::Normal
        }),
        policy.silent == Some(false) ==> settled_verbosity(global, Some(&defaults), Some(policy)) != Verbosity::Silent,
        policy.quiet == Some(false) ==> settled_verbosity(global, Some(&defaults), Some(policy)) != Verbosity::Quiet,
        policy.quiet is None && policy.silent is None ==> settled_verbosity(global, Some(&defaults), Some(policy))
            == settled_verbosity(global, Some(&defaults), None),
{
}

/// Details are said exactly when asked for, and less is said exactly when that is.
pub proof fn law_who_hears_what(degree: u8)
    ensures
        details_said(Verbosity::Verbose(degree)) && !less_said(Verbosity::Verbose(degree)),
        !details_said(Verbosity::Normal) && !less_said(Verbosity::Normal),
        !details_said(Verbosity::Quiet) && less_said(Verbosity::Quiet),
        !details_said(Verbosity::Silent) && less_said(Verbosity::Silent),
        Level::Error.detail() < Level::Warn.detail() < Level::Info.detail() < Level::Debug.detail() < Level::Trace.detail(),
{
}

/// A record is there exactly where something is said, and holds what is said at its level.
pub proof fn law_a_record_says_what_is_said(r: Option<Record>, said: bool, level: Level, message: Seq<char>)
    requires
        says(r, said, level, message),
    ensures
        (r is Some) == said,
        r matches Some(record) ==> record.level == level && record.message@ == message,
{
}

} // verus!
