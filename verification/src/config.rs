//! Logging configuration: a plain value type that callers construct and
//! read; nothing in this library acts on it.
use vstd::prelude::*;

verus! {

/// How verbose logging should be.
pub enum LogLevel {
    Debug,
    Info,
    Warn,
    Error,
}

/// Where log output should go.
pub enum LogOutput {
    Stdout,
    Stderr,
    File(String),
}

/// A logging configuration: whether logging is on, how verbose, and where
/// its output goes. Pure data; no field is validated or acted upon here.
pub struct Logging {
    pub enabled: bool,
    pub level: LogLevel,
    pub destination: LogOutput,
}

impl Logging {
    /// Builds a configuration holding exactly the three given values.
    pub fn new(enabled: bool, level: LogLevel, destination: LogOutput) -> (r: Self)
        ensures
            r.enabled == enabled,
            r.level == level,
            r.destination == destination,
    {
        Self { enabled, level, destination }
    }
}

} // verus!
