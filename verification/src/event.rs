//! The record kept for one captured log event.

use vstd::prelude::*;
use crate::fields::StringMap;

verus! {

/// A wall-clock instant in UTC: whole seconds since the Unix epoch and the
/// nanoseconds within that second.
#[derive(Clone, Copy, Debug, PartialEq, Eq, Structural)]
pub struct Timestamp {
    pub secs: i64,
    pub nanos: u32,
}

/// The system clock of std, read through chrono's `From<SystemTime>` for
/// `DateTime<Utc>`: the current time, as seconds since the Unix epoch and
/// nanoseconds within the second. A clock that stands before the epoch gives
/// negative seconds. The result depends on the clock, so nothing is claimed
/// of it. chrono panics only where the clock stands outside the dates that it
/// represents, which end in the year 262142.
#[verifier::external_body]
pub(crate) fn current_time() -> (now: Timestamp) {
    let now = chrono::DateTime::<chrono::Utc>::from(std::time::SystemTime::now());
    Timestamp { secs: now.timestamp(), nanos: now.timestamp_subsec_nanos() }
}

/// Severity of an event, from the least to the most severe.
#[derive(Clone, Copy, Debug, PartialEq, Eq, Structural)]
pub enum Level {
    Trace,
    Debug,
    Info,
    Warn,
    Error,
}

/// The canonical name of a level.
pub open spec fn level_name(level: Level) -> Seq<char> {
    match level {
        Level::Trace => "TRACE"@,
        Level::Debug => "DEBUG"@,
        Level::Info => "INFO"@,
        Level::Warn => "WARN"@,
        Level::Error => "ERROR"@,
    }
}

/// `name` is one of the five canonical level names.
pub open spec fn is_canonical_level(name: Seq<char>) -> bool {
    exists|level: Level| name == #[trigger] level_name(level)
}

impl Level {
    /// The canonical, upper-case name of the level.
    pub fn as_str(&self) -> (name: &'static str)
        ensures
            name@ == level_name(*self),
    {
        match self {
            Level::Trace => "TRACE",
            Level::Debug => "DEBUG",
            Level::Info => "INFO",
            Level::Warn => "WARN",
            Level::Error => "ERROR",
        }
    }
}

/// What is known of the span that encloses an event.
#[derive(Debug)]
pub struct SpanInfo {
    pub name: String,
    pub fields: StringMap,
}

/// A span as plain values.
pub struct SpanInfoView {
    pub name: Seq<char>,
    pub fields: Map<Seq<char>, Seq<char>>,
}

impl View for SpanInfo {
    type V = SpanInfoView;

    open spec fn view(&self) -> SpanInfoView {
        SpanInfoView { name: self.name@, fields: self.fields@ }
    }
}

impl Clone for SpanInfo {
    fn clone(&self) -> (s: SpanInfo)
        ensures
            s@ == self@,
    {
        SpanInfo { name: self.name.clone(), fields: self.fields.clone() }
    }
}

/// One captured log record.
#[derive(Debug)]
pub struct LogEvent {
    pub timestamp: Timestamp,
    pub level: String,
    pub target: String,
    pub message: String,
    pub fields: StringMap,
    pub span: Option<SpanInfo>,
    pub file: Option<String>,
    pub line: Option<u32>,
}

/// An event as plain values.
pub struct LogEventView {
    pub timestamp: Timestamp,
    pub level: Seq<char>,
    pub target: Seq<char>,
    pub message: Seq<char>,
    pub fields: Map<Seq<char>, Seq<char>>,
    pub span: Option<SpanInfoView>,
    pub file: Option<Seq<char>>,
    pub line: Option<u32>,
}

/// The view of an optional string.
pub open spec fn opt_text(s: Option<String>) -> Option<Seq<char>> {
    match s {
        Some(t) => Some(t@),
        None => None,
    }
}

/// The view of an optional span.
pub open spec fn opt_span(s: Option<SpanInfo>) -> Option<SpanInfoView> {
    match s {
        Some(t) => Some(t@),
        None => None,
    }
}

impl View for LogEvent {
    type V = LogEventView;

    open spec fn view(&self) -> LogEventView {
        LogEventView {
            timestamp: self.timestamp,
            level: self.level@,
            target: self.target@,
            message: self.message@,
            fields: self.fields@,
            span: opt_span(self.span),
            file: opt_text(self.file),
            line: self.line,
        }
    }
}

/// A copy of an optional string.
pub fn clone_opt_string(s: &Option<String>) -> (r: Option<String>)
    ensures
        opt_text(r) == opt_text(*s),
{
    match s {
        Some(t) => Some(t.clone()),
        None => None,
    }
}

impl Clone for LogEvent {
    fn clone(&self) -> (e: LogEvent)
        ensures
            e@ == self@,
    {
        let span = match &self.span {
            Some(s) => Some(s.clone()),
            None => None,
        };
        LogEvent {
            timestamp: self.timestamp,
            level: self.level.clone(),
            target: self.target.clone(),
            message: self.message.clone(),
            fields: self.fields.clone(),
            span,
            file: clone_opt_string(&self.file),
            line: self.line,
        }
    }
}

/// The view of an optional event.
pub open spec fn opt_event(e: Option<LogEvent>) -> Option<LogEventView> {
    match e {
        Some(t) => Some(t@),
        None => None,
    }
}

/// The views of a sequence of events.
pub open spec fn event_views(events: Seq<LogEvent>) -> Seq<LogEventView> {
    events.map_values(|e: LogEvent| e@)
}

} // verus!
