use vstd::prelude::*;

verus! {

/// Severity of a log record.
#[derive(Clone, Copy, Debug, PartialEq, Eq, Structural)]
pub enum LogLevel {
    Info,
    Warn,
    Error,
}

/// One structured log record: a message, a numeric code and a detail text.
/// The application shell hands it to its logger.
#[derive(Clone, Debug)]
pub struct LogRecord {
    pub level: LogLevel,
    pub message: String,
    pub code: u16,
    pub details: String,
}

/// The detail text recorded for a message: the detail given, or `"None"`.
pub open spec fn detail_text(details: Option<&str>) -> Seq<char> {
    match details {
        Some(d) => d@,
        None => "None"@,
    }
}

fn make_record(level: LogLevel, message: &str, code: u16, details: Option<&str>) -> (r: LogRecord)
    ensures
        r.level == level,
        r.message@ == message@,
        r.code == code,
        r.details@ == detail_text(details),
{
    let details = match details {
        Some(d) => d.to_string(),
        None => "None".to_string(),
    };
    LogRecord { level, message: message.to_string(), code, details }
}

/// Builds an informational record.
pub fn log_info(message: &str, code: u16, details: Option<&str>) -> (r: LogRecord)
    ensures
        r.level == LogLevel::Info,
        r.message@ == message@,
        r.code == code,
        r.details@ == detail_text(details),
{
    make_record(LogLevel::Info, message, code, details)
}

/// Builds a warning record.
pub fn log_warn(message: &str, code: u16, details: Option<&str>) -> (r: LogRecord)
    ensures
        r.level == LogLevel::Warn,
        r.message@ == message@,
        r.code == code,
        r.details@ == detail_text(details),
{
    make_record(LogLevel::Warn, message, code, details)
}

/// Builds an error record.
pub fn log_error(message: &str, code: u16, details: Option<&str>) -> (r: LogRecord)
    ensures
        r.level == LogLevel::Error,
        r.message@ == message@,
        r.code == code,
        r.details@ == detail_text(details),
{
    make_record(LogLevel::Error, message, code, details)
}

} // verus!
