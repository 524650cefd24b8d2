//! How much the tool logs, and how a log line reads.

use vstd::prelude::*;

use crate::text::text_join;

verus! {

/// The most detailed level of messages that is logged.
#[derive(Clone, Copy, Debug, PartialEq, Eq, Structural)]
pub enum LogLevel {
    Warn,
    Info,
    Debug,
    Trace,
}

/// The level that `verbose` repetitions of the verbose flag ask for.
pub open spec fn level_for(verbose: u64) -> LogLevel {
    if verbose == 0 {
        LogLevel::Warn
    } else if verbose == 1 {
        LogLevel::Info
    } else if verbose == 2 {
        LogLevel::Debug
    } else {
        LogLevel::Trace
    }
}

/// The level of messages logged when the verbose flag is given `verbose`
/// times: warnings by default, then information, debugging and tracing.
pub fn log_level(verbose: u64) -> (level: LogLevel)
    ensures
        level == level_for(verbose),
{
    match verbose {
        0 => LogLevel::Warn,
        1 => LogLevel::Info,
        2 => LogLevel::Debug,
        _ => LogLevel::Trace,
    }
}

/// A log line: the time, the level in brackets, and the message.
pub fn format_log_line(time: &str, level: &str, message: &str) -> (line: String)
    ensures
        line@ == time@ + " ["@ + level@ + "] - "@ + message@,
{
    proof {
        reveal_strlit(" [");
        reveal_strlit("] - ");
    }
    let line = text_join(time, " [");
    let line = text_join(line.as_str(), level);
    let line = text_join(line.as_str(), "] - ");
    text_join(line.as_str(), message)
}

} // verus!
