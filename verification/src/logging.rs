//! How much the program reports.

use vstd::prelude::*;

verus! {

/// The most detailed level of report that is shown.
#[derive(Clone, Copy, Debug, PartialEq, Eq, Structural)]
pub enum LogLevel {
    Info,
    Debug,
}

/// What the program reports: up to which level, and whether the verbose
/// reports among them.
#[derive(Clone, Copy, Debug, PartialEq, Eq, Structural)]
pub struct LogSettings {
    pub level: LogLevel,
    pub verbose: bool,
}

/// The level that the debug switch asks for.
pub open spec fn level_for(is_debug: bool) -> LogLevel {
    if is_debug {
        LogLevel::Debug
    } else {
        LogLevel::Info
    }
}

/// The settings that the two switches of the command line ask for.
pub fn set_log_level(is_verbose: bool, is_debug: bool) -> (r: LogSettings)
    ensures
        r == (LogSettings { level: level_for(is_debug), verbose: is_verbose }),
{
    let level = if is_debug {
        LogLevel::Debug
    } else {
        LogLevel::Info
    };
    let mut settings = LogSettings { level, verbose: false };
    set_verbose(&mut settings, is_verbose);
    settings
}

/// Switches the verbose reports on or off, and leaves the level as it is.
pub fn set_verbose(settings: &mut LogSettings, is_verbose: bool)
    ensures
        final(settings).verbose == is_verbose,
        final(settings).level == old(settings).level,
{
    settings.verbose = is_verbose;
}

impl LogSettings {
    /// Whether a verbose report is shown.
    pub fn is_verbose(&self) -> (r: bool)
        ensures
            r == self.verbose,
    {
        self.verbose
    }
}

} // verus!
