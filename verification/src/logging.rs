//! What the configuration says of logging, as the bridge understands it.

use vstd::prelude::*;
use crate::text::str_eq;

verus! {

pub struct Logger;

/// How much is logged.
#[derive(Clone, Copy, Debug, PartialEq, Eq)]
pub enum Severity {
    Trace,
    Debug,
    Info,
    Warn,
    Error,
}

/// Where the log goes.
#[derive(Clone, Copy, Debug, PartialEq, Eq)]
pub enum Sink {
    Console,
    File,
    Syslog,
}

/// The severity that a level of the configuration names; a name that is
/// not known stands for `info`.
pub open spec fn severity_of(log_level: Seq<char>) -> Severity {
    if log_level == "trace"@ {
        Severity::Trace
    } else if log_level == "debug"@ {
        Severity::Debug
    } else if log_level == "info"@ {
        Severity::Info
    } else if log_level == "warn"@ {
        Severity::Warn
    } else if log_level == "error"@ {
        Severity::Error
    } else {
        Severity::Info
    }
}

/// The sink that a log type of the configuration names; a name that is not
/// known stands for the console.
pub open spec fn sink_of(log_type: Seq<char>) -> Sink {
    if log_type == "console"@ {
        Sink::Console
    } else if log_type == "file"@ {
        Sink::File
    } else if log_type == "syslog"@ {
        Sink::Syslog
    } else {
        Sink::Console
    }
}

/// How the log is set up.
#[derive(Clone, Copy, Debug, PartialEq, Eq)]
pub struct LogSetup {
    pub severity: Severity,
    pub sink: Sink,
}

impl Logger {
    /// Decides how the log is set up from what the configuration says. The
    /// caller installs the subscriber.
    pub fn init(log_level: &str, log_type: &str) -> (setup: LogSetup)
        ensures
            setup.severity == severity_of(log_level@),
            setup.sink == sink_of(log_type@),
    {
        LogSetup { severity: Self::get_level(log_level), sink: Self::get_sink(log_type) }
    }

    pub fn get_level(log_level: &str) -> (level: Severity)
        ensures
            level == severity_of(log_level@),
    {
        if str_eq(log_level, "trace") {
            Severity::Trace
        } else if str_eq(log_level, "debug") {
            Severity::Debug
        } else if str_eq(log_level, "info") {
            Severity::Info
        } else if str_eq(log_level, "warn") {
            Severity::Warn
        } else if str_eq(log_level, "error") {
            Severity::Error
        } else {
            Severity::Info
        }
    }

    pub fn get_sink(log_type: &str) -> (sink: Sink)
        ensures
            sink == sink_of(log_type@),
    {
        if str_eq(log_type, "console") {
            Sink::Console
        } else if str_eq(log_type, "file") {
            Sink::File
        } else if str_eq(log_type, "syslog") {
            Sink::Syslog
        } else {
            Sink::Console
        }
    }
}

} // verus!
