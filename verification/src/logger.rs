//! Log lines: which messages pass the verbosity threshold, and how a line
//! reads. Printing a line is left to the caller.
use vstd::prelude::*;

verus! {

/// How severe a message is, from `Debug` up to `Critical`.
#[derive(Clone, Copy, Debug, PartialEq, Eq, Structural)]
pub enum LogLevel {
    Debug,
    Info,
    Warning,
    Error,
    Critical,
}

/// The namespace of the logging functions.
pub struct Logger;

/// A log line: the level's name in square brackets, a colon, a space and the
/// message.
pub open spec fn log_line(name: Seq<char>, msg: Seq<char>) -> Seq<char> {
    seq!['['] + name + seq![']', ':', ' '] + msg
}

/// Calls `format!` with the pattern `[{}]: {}`, which puts the two strings
/// into the places of the two braces and copies the rest.
#[verifier::external_body]
fn format_line(name: &str, msg: &str) -> (line: String)
    ensures
        line@ == log_line(name@, msg@),
{
    format!("[{}]: {}", name, msg)
}

impl LogLevel {
    /// The place of the level in the order of severity, from 0.
    pub open spec fn rank_spec(self) -> int {
        match self {
            LogLevel::Debug => 0,
            LogLevel::Info => 1,
            LogLevel::Warning => 2,
            LogLevel::Error => 3,
            LogLevel::Critical => 4,
        }
    }

    /// The name of the level, in capitals.
    pub open spec fn name_spec(self) -> Seq<char> {
        match self {
            LogLevel::Debug => "DEBUG"@,
            LogLevel::Info => "INFO"@,
            LogLevel::Warning => "WARNING"@,
            LogLevel::Error => "ERROR"@,
            LogLevel::Critical => "CRITICAL"@,
        }
    }

    /// The place of the level in the order of severity, from 0.
    pub fn rank(self) -> (rank: u8)
        ensures
            rank as int == self.rank_spec(),
    {
        match self {
            LogLevel::Debug => 0,
            LogLevel::Info => 1,
            LogLevel::Warning => 2,
            LogLevel::Error => 3,
            LogLevel::Critical => 4,
        }
    }

    /// The name of the level, in capitals.
    pub fn name(self) -> (name: &'static str)
        ensures
            name@ == self.name_spec(),
    {
        match self {
            LogLevel::Debug => "DEBUG",
            LogLevel::Info => "INFO",
            LogLevel::Warning => "WARNING",
            LogLevel::Error => "ERROR",
            LogLevel::Critical => "CRITICAL",
        }
    }
}

impl Logger {
    /// The least level that is logged.
    pub open spec fn verbosity() -> LogLevel {
        LogLevel::Debug
    }

    /// The line for a message of the given level: `None` if the level is
    /// below the verbosity threshold, else the line to print.
    pub fn log(level: LogLevel, msg: &str) -> (line: Option<String>)
        ensures
            level.rank_spec() < Self::verbosity().rank_spec() ==> line is None,
            level.rank_spec() >= Self::verbosity().rank_spec() ==> line is Some && line.unwrap()@
                == log_line(level.name_spec(), msg@),
    {
        let threshold = LogLevel::Debug;
        if level.rank() >= threshold.rank() {
            Some(format_line(level.name(), msg))
        } else {
            None
        }
    }

    /// The line for a debug message.
    pub fn debug(msg: &str) -> (line: Option<String>)
        ensures
            line is Some,
            line.unwrap()@ == log_line("DEBUG"@, msg@),
    {
        Self::log(LogLevel::Debug, msg)
    }

    /// The line for an informational message.
    pub fn info(msg: &str) -> (line: Option<String>)
        ensures
            line is Some,
            line.unwrap()@ == log_line("INFO"@, msg@),
    {
        Self::log(LogLevel::Info, msg)
    }

    /// The line for a warning.
    pub fn warning(msg: &str) -> (line: Option<String>)
        ensures
            line is Some,
            line.unwrap()@ == log_line("WARNING"@, msg@),
    {
        Self::log(LogLevel::Warning, msg)
    }

    /// The line for an error.
    pub fn error(msg: &str) -> (line: Option<String>)
        ensures
            line is Some,
            line.unwrap()@ == log_line("ERROR"@, msg@),
    {
        Self::log(LogLevel::Error, msg)
    }

    /// The line for a critical error.
    pub fn critical(msg: &str) -> (line: Option<String>)
        ensures
            line is Some,
            line.unwrap()@ == log_line("CRITICAL"@, msg@),
    {
        Self::log(LogLevel::Critical, msg)
    }
}

} // verus!
