//! Choosing how the daemon logs: at which level, and where to.
//!
//! Setting a logger up is the work of the program around the core. What is
//! decided here is what it sets up.

use crate::notice::Level;
use crate::text::same_text;
use vstd::prelude::*;

verus! {

/// The text `s` in lower case, as `str::to_lowercase` of the standard library
/// gives it.
pub uninterp spec fn lowercase_of(s: Seq<char>) -> Seq<char>;

/// The level that is written `name`, in lower case.
pub open spec fn level_named(name: Seq<char>) -> Option<Level> {
    if name == "trace"@ {
        Some(Level::Trace)
    } else if name == "debug"@ {
        Some(Level::Debug)
    } else if name == "info"@ {
        Some(Level::Info)
    } else if name == "warn"@ {
        Some(Level::Warn)
    } else if name == "error"@ {
        Some(Level::Error)
    } else {
        None
    }
}

/// The level to log at, and whether the name that was given is a level's.
#[derive(Clone, Copy, Debug, PartialEq, Eq, Structural)]
pub struct LevelChoice {
    pub level: Level,
    /// False where a name was given that is no level's; the level is then
    /// `Info`, and the operator is to be told.
    pub recognized: bool,
}

/// Where the log goes.
#[derive(Clone, Copy, Debug, PartialEq, Eq, Structural)]
pub struct Outputs {
    /// To the system journal.
    pub journald: bool,
    /// To standard output.
    pub stdout: bool,
}

/// How the daemon logs.
#[derive(Clone, Copy, Debug, PartialEq, Eq, Structural)]
pub struct LoggerSetup {
    pub choice: LevelChoice,
    pub outputs: Outputs,
}

/// The level for a name in lower case: the level of that name, or `Info` for
/// a name that is no level's.
pub open spec fn choice_for(lowered: Seq<char>) -> LevelChoice {
    match level_named(lowered) {
        Some(level) => LevelChoice { level, recognized: true },
        None => LevelChoice { level: Level::Info, recognized: false },
    }
}

/// The level for the name that was given, in any case of letters; `Info`
/// where none was given.
pub open spec fn choice_of(name: Option<Seq<char>>) -> LevelChoice {
    match name {
        Some(name) => choice_for(lowercase_of(name)),
        None => LevelChoice { level: Level::Info, recognized: true },
    }
}

/// Where the log goes: to the journal where there is one, and to standard
/// output where the daemon runs in the foreground or there is no journal.
pub open spec fn outputs_for(journald_available: bool, foreground: bool) -> Outputs {
    Outputs { journald: journald_available, stdout: foreground || !journald_available }
}

/// `s` in lower case, by `str::to_lowercase` of the standard library. The
/// result is named, not described: it is `lowercase_of` of the text.
#[verifier::external_body]
fn to_lowercase(s: &str) -> (lowered: String)
    ensures
        lowered@ == lowercase_of(s@),
{
    s.to_lowercase()
}

/// The level that is written `name`, in lower case.
pub fn level_from_name(name: &str) -> (level: Option<Level>)
    ensures
        level == level_named(name@),
{
    if same_text(name, "trace") {
        Some(Level::Trace)
    } else if same_text(name, "debug") {
        Some(Level::Debug)
    } else if same_text(name, "info") {
        Some(Level::Info)
    } else if same_text(name, "warn") {
        Some(Level::Warn)
    } else if same_text(name, "error") {
        Some(Level::Error)
    } else {
        None
    }
}

/// The level for a name in lower case.
pub fn choose_level(lowered: &str) -> (choice: LevelChoice)
    ensures
        choice == choice_for(lowered@),
{
    match level_from_name(lowered) {
        Some(level) => LevelChoice { level, recognized: true },
        None => LevelChoice { level: Level::Info, recognized: false },
    }
}

/// Where the log goes.
pub fn select_outputs(journald_available: bool, foreground: bool) -> (outputs: Outputs)
    ensures
        outputs == outputs_for(journald_available, foreground),
{
    Outputs { journald: journald_available, stdout: foreground || !journald_available }
}

/// Decides how the daemon logs, from the level that was asked for, whether the
/// system journal can be had and whether the daemon runs in the foreground.
pub fn init_logger(log_level: Option<&str>, journald_available: bool, foreground: bool) -> (setup:
    LoggerSetup)
    ensures
        setup.outputs == outputs_for(journald_available, foreground),
        setup.choice == choice_of(
            match log_level {
                Some(name) => Some(name@),
                None => None,
            },
        ),
{
    let choice = match log_level {
        Some(name) => {
            let lowered = to_lowercase(name);
            choose_level(lowered.as_str())
        },
        None => LevelChoice { level: Level::Info, recognized: true },
    };
    LoggerSetup { choice, outputs: select_outputs(journald_available, foreground) }
}

} // verus!
