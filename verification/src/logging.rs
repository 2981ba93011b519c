//! Diagnostic logging levels and configuration.
//!
//! The core emits structured diagnostics; which sink receives them, and
//! how files rotate, is the caller's concern. The level scale and the
//! configuration record live here.

use vstd::prelude::*;

verus! {

/// Severity, from the gravest to the most verbose.
#[derive(Debug, Clone, Copy, PartialEq, Eq, Structural)]
pub enum LogLevel {
    Error,
    Warn,
    Info,
    Debug,
    Trace,
}

impl LogLevel {
    /// The level's lowercase name.
    pub fn as_str(&self) -> (r: &str)
        ensures
            r@ == match *self {
                LogLevel::Error => "error"@,
                LogLevel::Warn => "warn"@,
                LogLevel::Info => "info"@,
                LogLevel::Debug => "debug"@,
                LogLevel::Trace => "trace"@,
            },
    {
        match self {
            LogLevel::Error => "error",
            LogLevel::Warn => "warn",
            LogLevel::Info => "info",
            LogLevel::Debug => "debug",
            LogLevel::Trace => "trace",
        }
    }
}

/// How diagnostics are to be emitted.
#[derive(Debug, Clone)]
pub struct LogConfig {
    /// The base level for every module unless the filter narrows it.
    pub level: LogLevel,
    /// Whether a rotating file sink is wanted.
    pub enable_file: bool,
    /// Whether a console sink is wanted.
    pub enable_console: bool,
    /// The log directory; the platform default when absent.
    pub log_dir: Option<String>,
    /// A module filter expression, if any.
    pub filter: Option<String>,
}

impl Default for LogConfig {
    /// Informational level to both sinks, in the default directory, with
    /// no filter.
    fn default() -> (r: LogConfig)
        ensures
            r.level == LogLevel::Info,
            r.enable_file,
            r.enable_console,
            r.log_dir is None,
            r.filter is None,
    {
        LogConfig {
            level: LogLevel::Info,
            enable_file: true,
            enable_console: true,
            log_dir: None,
            filter: None,
        }
    }
}

} // verus!
