//! Log levels and the logger's filtering decision.
//!
//! The logger here decides which messages pass the configured threshold and
//! how a line is rendered (colour prefix, message, colour reset); actually
//! printing the line is left to the caller.

use vstd::prelude::*;

verus! {

/// Severity levels, ordered from least to most severe.
#[derive(Clone, Copy, Debug, PartialEq, Eq, Structural)]
pub enum LogLevel {
    Debug,
    Info,
    Warning,
    Error,
    Status,
    Fatal,
}

/// Numeric rank of a level: larger means more severe.
pub open spec fn spec_severity(level: LogLevel) -> u8 {
    match level {
        LogLevel::Debug => 0,
        LogLevel::Info => 1,
        LogLevel::Warning => 2,
        LogLevel::Error => 3,
        LogLevel::Status => 4,
        LogLevel::Fatal => 5,
    }
}

/// The colour prefix that a rendered line of the given level starts with.
pub open spec fn spec_prefix(level: LogLevel) -> Seq<char> {
    match level {
        LogLevel::Debug => "\u{1B}[36m[Debug] "@,
        LogLevel::Info => "\u{1B}[32m[Info] "@,
        LogLevel::Warning => "\u{1B}[33m[Warning] "@,
        LogLevel::Error => "\u{1B}[31m[Error] "@,
        LogLevel::Status => "\u{1B}[33m[Status] "@,
        LogLevel::Fatal => "\u{1B}[31m[Fatal] "@,
    }
}

/// The colour-reset suffix every rendered line ends with.
pub open spec fn spec_reset() -> Seq<char> {
    "\u{1B}[0m"@
}

impl LogLevel {
    /// Numeric rank of this level; agrees with `spec_severity`.
    pub fn severity(&self) -> (r: u8)
        ensures
            r == spec_severity(*self),
    {
        match self {
            LogLevel::Debug => 0,
            LogLevel::Info => 1,
            LogLevel::Warning => 2,
            LogLevel::Error => 3,
            LogLevel::Status => 4,
            LogLevel::Fatal => 5,
        }
    }

    /// The colour prefix for this level, as a borrowed string.
    pub fn prefix_str(&self) -> (r: &'static str)
        ensures
            r@ == spec_prefix(*self),
    {
        match self {
            LogLevel::Debug => "\u{1B}[36m[Debug] ",
            LogLevel::Info => "\u{1B}[32m[Info] ",
            LogLevel::Warning => "\u{1B}[33m[Warning] ",
            LogLevel::Error => "\u{1B}[31m[Error] ",
            LogLevel::Status => "\u{1B}[33m[Status] ",
            LogLevel::Fatal => "\u{1B}[31m[Fatal] ",
        }
    }
}

/// A named logger with a severity threshold. Messages strictly below the
/// threshold are dropped; the rest are rendered with the level's colour
/// prefix and a trailing colour reset.
pub struct Logger {
    logger_name: String,
    log_level: LogLevel,
}

impl Logger {
    /// The configured threshold level, as seen by specifications.
    pub closed spec fn spec_level(&self) -> LogLevel {
        self.log_level
    }

    /// The logger's name, as seen by specifications.
    pub closed spec fn spec_name(&self) -> Seq<char> {
        self.logger_name@
    }

    /// Creates a logger with the given name and threshold level.
    pub fn new(logger_name: &str, log_level: LogLevel) -> (r: Logger)
        ensures
            r.spec_level() == log_level,
            r.spec_name() == logger_name@,
    {
        Logger { logger_name: logger_name.to_owned(), log_level }
    }

    /// The configured threshold level.
    pub fn get_log_level(&self) -> (r: LogLevel)
        ensures
            r == self.spec_level(),
    {
        self.log_level
    }

    /// The logger's name.
    pub fn get_name(&self) -> (r: &str)
        ensures
            r@ == self.spec_name(),
    {
        self.logger_name.as_str()
    }

    /// Whether a message at `level` passes this logger's threshold.
    pub fn should_emit(&self, level: LogLevel) -> (r: bool)
        ensures
            r == (spec_severity(level) >= spec_severity(self.spec_level())),
    {
        level.severity() >= self.log_level.severity()
    }

    /// Renders one log line: `None` when the message is below the threshold,
    /// otherwise the colour prefix, the message, and the colour reset.
    pub fn render_line(&self, level: LogLevel, message: &str) -> (r: Option<String>)
        ensures
            spec_severity(level) < spec_severity(self.spec_level()) <==> r is None,
            (r matches Some(line) ==> line@ == spec_prefix(level) + message@ + spec_reset()),
    {
        if !self.should_emit(level) {
            return None;
        }
        let mut line = level.prefix_str().to_owned();
        line.append(message);
        line.append("\u{1B}[0m");
        Some(line)
    }
}

} // verus!
