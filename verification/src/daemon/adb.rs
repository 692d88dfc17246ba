//! Device log lines as the Android and Vega log parsers produce them.
use vstd::prelude::*;

verus! {

/// Severity of a device log line.
#[derive(Debug, Clone, Copy, PartialEq, Eq, Structural)]
pub enum LogSeverity {
    Trace,
    Debug,
    Info,
    Warn,
    Error,
}

/// One parsed device log line.
#[derive(Debug, Clone)]
pub struct ParsedLine {
    pub timestamp: String,
    pub severity: LogSeverity,
    pub tag: String,
    pub pid: Option<u32>,
    pub message: String,
    pub hostname: Option<String>,
    pub facility: Option<String>,
}

/// A parser of device log lines: `None` for a line it does not recognise.
pub trait LogParser {
    fn parse_line(&self, line: &str) -> Option<ParsedLine>;
}

} // verus!
