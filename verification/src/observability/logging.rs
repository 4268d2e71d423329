//! Structured logging configuration and log-level validation.
use vstd::prelude::*;
use crate::text::{concat3, spec_to_lowercase, str_eq, str_has_char, to_lowercase};

verus! {

/// Log output format.
#[derive(Debug, Clone, Copy, PartialEq, Eq, Structural)]
pub enum LogFormat {
    /// Human-readable, colored output (default for development).
    Pretty,
    /// Compact single-line output.
    Compact,
    /// JSON-structured output (recommended for production).
    Json,
}

impl Default for LogFormat {
    fn default() -> (f: Self)
        ensures
            f == LogFormat::Pretty,
    {
        LogFormat::Pretty
    }
}

/// Logging configuration.
#[derive(Debug, Clone)]
pub struct LogConfig {
    /// Minimum log level (trace, debug, info, warn, error).
    pub level: String,
    /// Output format.
    pub format: LogFormat,
    /// Whether to include source file/line in log output.
    pub with_file: bool,
    /// Whether to include the target module path.
    pub with_target: bool,
    /// Whether to include thread names.
    pub with_thread_names: bool,
    /// Whether to include thread IDs.
    pub with_thread_ids: bool,
    /// Whether to include span events (new/close).
    pub with_span_events: bool,
}

impl Default for LogConfig {
    fn default() -> (c: Self)
        ensures
            c.level@ == "info"@,
            c.format == LogFormat::Pretty,
            !c.with_file,
            c.with_target,
            !c.with_thread_names,
            !c.with_thread_ids,
            !c.with_span_events,
    {
        LogConfig {
            level: "info".to_owned(),
            format: LogFormat::Pretty,
            with_file: false,
            with_target: true,
            with_thread_names: false,
            with_thread_ids: false,
            with_span_events: false,
        }
    }
}

/// Whether `s` is one of the known level names.
pub open spec fn is_known_level(s: Seq<char>) -> bool {
    s == "trace"@ || s == "debug"@ || s == "info"@ || s == "warn"@ || s == "error"@ || s
        == "off"@
}

/// Whether a level string is accepted: once lowercased it is a known level name, or it
/// looks like a filter directive (it holds `=` or `,`).
pub open spec fn level_accepted(level: Seq<char>) -> bool {
    let lower = spec_to_lowercase(level);
    is_known_level(lower) || lower.contains('=') || lower.contains(',')
}

/// The error for a rejected level string.
pub open spec fn invalid_level_msg(level: Seq<char>) -> Seq<char> {
    "Invalid log level '"@ + level
        + "': must be one of [\"trace\", \"debug\", \"info\", \"warn\", \"error\", \"off\"]"@
}

/// Validate that the log level string is a known level or a filter directive.
pub fn validate_level(level: &str) -> (r: Result<(), String>)
    ensures
        r is Ok <==> level_accepted(level@),
        r is Err ==> r->Err_0@ == invalid_level_msg(level@),
{
    let lower = to_lowercase(level);
    let l = lower.as_str();
    if str_eq(l, "trace") || str_eq(l, "debug") || str_eq(l, "info") || str_eq(l, "warn")
        || str_eq(l, "error") || str_eq(l, "off") {
        return Ok(());
    }
    if str_has_char(l, '=') || str_has_char(l, ',') {
        return Ok(());
    }
    Err(
        concat3(
            "Invalid log level '",
            level,
            "': must be one of [\"trace\", \"debug\", \"info\", \"warn\", \"error\", \"off\"]",
        ),
    )
}

} // verus!
