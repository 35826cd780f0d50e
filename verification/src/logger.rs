//! Console logging: the level labels and the loggers that a run hands out.

use vstd::prelude::*;

use crate::progress::{SystemLogger, SystemLoggerCreationError};

verus! {

/// The console logger; printing is done by the runtime.
#[derive(Debug, Clone, Copy)]
pub struct Logger;

/// The level of a script's log message.
#[derive(Debug, Clone, Copy, PartialEq, Eq, Structural)]
pub enum LogLevel {
    Debug,
    Info,
    Warn,
    Error,
}

/// The four-letter label a level is printed with.
pub open spec fn level_label(level: LogLevel) -> Seq<char> {
    match level {
        LogLevel::Debug => "DEBG"@,
        LogLevel::Info => "INFO"@,
        LogLevel::Warn => "WARN"@,
        LogLevel::Error => "ERRO"@,
    }
}

impl LogLevel {
    /// The four-letter label this level is printed with.
    pub fn label(&self) -> (l: String)
        ensures
            l@ == level_label(*self),
    {
        match self {
            LogLevel::Debug => String::from_str("DEBG"),
            LogLevel::Info => String::from_str("INFO"),
            LogLevel::Warn => String::from_str("WARN"),
            LogLevel::Error => String::from_str("ERRO"),
        }
    }
}

impl Logger {
    /// The console logger.
    pub fn new() -> (l: Logger) {
        Logger
    }

    /// The logger of the run on the system named `name`.
    pub fn system(&self, name: &str) -> (r: Result<SystemLogger, SystemLoggerCreationError>)
        ensures
            r matches Ok(l) && l.name@ == name@,
    {
        Ok(SystemLogger { name: String::from_str(name) })
    }
}

impl Default for Logger {
    fn default() -> (l: Logger) {
        Logger::new()
    }
}

} // verus!
