//! How much the tool logs, from its `-v` and `-q` flags.
use vstd::prelude::*;

verus! {

/// The least severe kind of log message that is shown.
#[derive(PartialEq, Eq, Structural, Clone, Copy, Debug)]
pub enum LogLevel {
    Off,
    Error,
    Warn,
    Info,
    Debug,
    Trace,
}

/// The level for a verbosity of `v`: the count of `-v` flags less that of `-q` flags.
pub open spec fn level_of(v: int) -> LogLevel {
    if v < -1 {
        LogLevel::Off
    } else if v == -1 {
        LogLevel::Error
    } else if v == 0 {
        LogLevel::Warn
    } else if v == 1 {
        LogLevel::Info
    } else if v == 2 {
        LogLevel::Debug
    } else {
        LogLevel::Trace
    }
}

/// The level after `verbose` times `-v` and `quiet` times `-q`.
pub fn log_level(verbose: u64, quiet: u64) -> (r: LogLevel)
    ensures
        r == level_of(verbose - quiet),
{
    if verbose >= quiet {
        let d = verbose - quiet;
        if d == 0 {
            LogLevel::Warn
        } else if d == 1 {
            LogLevel::Info
        } else if d == 2 {
            LogLevel::Debug
        } else {
            LogLevel::Trace
        }
    } else {
        let d = quiet - verbose;
        if d == 1 {
            LogLevel::Error
        } else {
            LogLevel::Off
        }
    }
}

} // verus!
