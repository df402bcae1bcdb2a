//! The capture hook: what becomes of one raw log event on its way into the
//! ring.

use vstd::prelude::*;
use vstd::string::StringExecFns;
use crate::event::{
    current_time, is_canonical_level, level_name, opt_event, opt_span, opt_text, Level, LogEvent,
    LogEventView, SpanInfo, SpanInfoView, Timestamp,
};
use crate::fields::{entries_map, lookup, upsert, Entries, StringMap};
use crate::filter::{is_under, target_under};
use crate::storage::{ring_push, LogStorage};
use crate::text::{i64_to_string, signed_decimal_of, decimal_of, u64_to_string};

verus! {

/// The text of a boolean.
pub open spec fn bool_text(b: bool) -> Seq<char> {
    if b {
        "true"@
    } else {
        "false"@
    }
}

/// Collects the structured fields of an event or a span, each rendered as a
/// string. A field recorded twice keeps its last value.
#[derive(Debug)]
pub struct FieldVisitor {
    pub fields: StringMap,
}

impl FieldVisitor {
    /// A visitor that has seen no field.
    pub fn new() -> (visitor: FieldVisitor)
        ensures
            visitor.fields.entries() == Seq::<(Seq<char>, Seq<char>)>::empty(),
            visitor.fields@ == Map::<Seq<char>, Seq<char>>::empty(),
    {
        FieldVisitor { fields: StringMap::new() }
    }

    /// Records a field whose value is neither string, integer nor boolean, by
    /// the debug representation that the caller rendered.
    pub fn record_debug(&mut self, name: &str, rendered: &str)
        ensures
            final(self).fields.entries() == upsert(old(self).fields.entries(), name@, rendered@),
            final(self).fields@ == old(self).fields@.insert(name@, rendered@),
    {
        let _ = self.fields.insert(name.to_owned(), rendered.to_owned());
    }

    /// Records a string field verbatim.
    pub fn record_str(&mut self, name: &str, value: &str)
        ensures
            final(self).fields.entries() == upsert(old(self).fields.entries(), name@, value@),
            final(self).fields@ == old(self).fields@.insert(name@, value@),
    {
        let _ = self.fields.insert(name.to_owned(), value.to_owned());
    }

    /// Records a signed integer field in decimal.
    pub fn record_i64(&mut self, name: &str, value: i64)
        ensures
            final(self).fields.entries() == upsert(
                old(self).fields.entries(),
                name@,
                signed_decimal_of(value as int),
            ),
            final(self).fields@ == old(self).fields@.insert(
                name@,
                signed_decimal_of(value as int),
            ),
    {
        let _ = self.fields.insert(name.to_owned(), i64_to_string(value));
    }

    /// Records an unsigned integer field in decimal.
    pub fn record_u64(&mut self, name: &str, value: u64)
        ensures
            final(self).fields.entries() == upsert(
                old(self).fields.entries(),
                name@,
                decimal_of(value as nat),
            ),
            final(self).fields@ == old(self).fields@.insert(name@, decimal_of(value as nat)),
    {
        let _ = self.fields.insert(name.to_owned(), u64_to_string(value));
    }

    /// Records a boolean field as `true` or `false`.
    pub fn record_bool(&mut self, name: &str, value: bool)
        ensures
            final(self).fields.entries() == upsert(
                old(self).fields.entries(),
                name@,
                bool_text(value),
            ),
            final(self).fields@ == old(self).fields@.insert(name@, bool_text(value)),
    {
        let text = if value {
            "true"
        } else {
            "false"
        };
        let _ = self.fields.insert(name.to_owned(), text.to_owned());
    }
}

/// Targets whose events are never captured: the `log` compatibility layer,
/// this crate itself, and the WebSocket libraries that write while a captured
/// event is being sent. Capturing them would feed the hook its own output.
pub open spec fn is_noise(target: Seq<char>) -> bool {
    ||| target_under(target, "log"@)
    ||| target_under(target, "tracing_web_console"@)
    ||| target_under(target, "tungstenite"@)
    ||| target_under(target, "tokio_tungstenite"@)
}

/// Whether events on `target` are dropped before anything else is done.
pub fn is_filtered_target(target: &str) -> (noise: bool)
    ensures
        noise == is_noise(target@),
{
    is_under(target, "log") || is_under(target, "tracing_web_console") || is_under(
        target,
        "tungstenite",
    ) || is_under(target, "tokio_tungstenite")
}

/// One field as `key: value`.
pub open spec fn rendered_pair(entry: (Seq<char>, Seq<char>)) -> Seq<char> {
    entry.0 + ": "@ + entry.1
}

/// All fields as `key: value`, in order, with `, ` between them.
pub open spec fn joined_fields(entries: Entries) -> Seq<char>
    decreases entries.len(),
{
    if entries.len() == 0 {
        Seq::empty()
    } else if entries.len() == 1 {
        rendered_pair(entries[0])
    } else {
        joined_fields(entries.drop_last()) + ", "@ + rendered_pair(entries.last())
    }
}

/// The message of an event with the fields `entries`: the field `message`
/// where there is one, else all fields joined.
pub open spec fn message_of(entries: Entries) -> Seq<char> {
    match lookup(entries, "message"@) {
        Some(m) => m,
        None => joined_fields(entries),
    }
}

/// The target of an event: the field `log.target` where there is one, else
/// the target that the pipeline reports.
pub open spec fn resolved_target(entries: Entries, reported: Seq<char>) -> Seq<char> {
    match lookup(entries, "log.target"@) {
        Some(t) => t,
        None => reported,
    }
}

/// The fields of an event without the reserved names.
pub open spec fn scrubbed(fields: Map<Seq<char>, Seq<char>>) -> Map<Seq<char>, Seq<char>> {
    fields.remove("message"@).remove("log.target"@).remove("log.module_path"@).remove(
        "log.file"@,
    ).remove("log.line"@)
}

/// The map holds none of the reserved names.
pub open spec fn no_reserved_name(fields: Map<Seq<char>, Seq<char>>) -> bool {
    &&& !fields.dom().contains("message"@)
    &&& !fields.dom().contains("log.target"@)
    &&& !fields.dom().contains("log.module_path"@)
    &&& !fields.dom().contains("log.file"@)
    &&& !fields.dom().contains("log.line"@)
}

/// What the logging pipeline reports of one event.
#[derive(Debug)]
pub struct RawEvent {
    /// The target that the pipeline reports.
    pub target: String,
    pub level: Level,
    /// The event's fields, as a visitor collected them.
    pub fields: FieldVisitor,
    /// The innermost enclosing span, if the event has one.
    pub span: Option<SpanInfo>,
    pub file: Option<String>,
    pub line: Option<u32>,
}

/// A raw event as plain values.
pub struct RawEventView {
    pub target: Seq<char>,
    pub level: Level,
    pub entries: Entries,
    pub span: Option<SpanInfoView>,
    pub file: Option<Seq<char>>,
    pub line: Option<u32>,
}

impl View for RawEvent {
    type V = RawEventView;

    open spec fn view(&self) -> RawEventView {
        RawEventView {
            target: self.target@,
            level: self.level,
            entries: self.fields.fields.entries(),
            span: opt_span(self.span),
            file: opt_text(self.file),
            line: self.line,
        }
    }
}

/// The event kept for a raw event seen at `now`, or `None` where its target
/// is noise.
pub open spec fn captured(raw: RawEventView, now: Timestamp) -> Option<LogEventView> {
    let target = resolved_target(raw.entries, raw.target);
    if is_noise(target) {
        None
    } else {
        Some(
            LogEventView {
                timestamp: now,
                level: level_name(raw.level),
                target,
                message: message_of(raw.entries),
                fields: scrubbed(entries_map(raw.entries)),
                span: raw.span,
                file: raw.file,
                line: raw.line,
            },
        )
    }
}

/// The ring after a raw event seen at `now` has gone through the hook.
pub open spec fn recorded(
    ring: Seq<LogEventView>,
    cap: nat,
    raw: RawEventView,
    now: Timestamp,
) -> Seq<LogEventView> {
    match captured(raw, now) {
        Some(e) => ring_push(ring, cap, e),
        None => ring,
    }
}

/// Whether an event with the fields that `visitor` collected, reported on
/// `reported`, is noise. This is the test to make before any other work on an
/// event: it needs the fields only to find the target that a legacy shim
/// declared.
pub fn is_noise_event(visitor: &FieldVisitor, reported: &str) -> (noise: bool)
    ensures
        noise == is_noise(resolved_target(visitor.fields.entries(), reported@)),
{
    match visitor.fields.get("log.target") {
        Some(declared) => is_filtered_target(declared.as_str()),
        None => is_filtered_target(reported),
    }
}

/// Turns a raw event seen at `now` into the event to keep. Noise is dropped
/// before any other work. The event kept has a canonical level and none of
/// the reserved field names.
pub fn normalize(raw: RawEvent, now: Timestamp) -> (event: Option<LogEvent>)
    ensures
        opt_event(event) == captured(raw@, now),
        event matches Some(e) ==> is_canonical_level(e@.level) && no_reserved_name(e@.fields),
{
    let RawEvent { target, level, fields, span, file, line } = raw;
    let mut visitor = fields;
    if is_noise_event(&visitor, target.as_str()) {
        return None;
    }
    let actual_target = match visitor.fields.get("log.target") {
        Some(t) => t.clone(),
        None => target,
    };
    let message = LogCaptureLayer::extract_message(&visitor);
    let _ = visitor.fields.remove("message");
    let _ = visitor.fields.remove("log.target");
    let _ = visitor.fields.remove("log.module_path");
    let _ = visitor.fields.remove("log.file");
    let _ = visitor.fields.remove("log.line");
    Some(
        LogEvent {
            timestamp: now,
            level: LogCaptureLayer::level_to_string(&level),
            target: actual_target,
            message,
            fields: visitor.fields,
            span,
            file,
            line,
        },
    )
}

/// Turns a raw event into the event to keep, stamped with the current time.
/// Whatever the clock says, noise is dropped and any other event is kept as
/// `captured` describes.
pub fn capture(raw: RawEvent) -> (event: Option<LogEvent>)
    ensures
        exists|now: Timestamp| opt_event(event) == #[trigger] captured(raw@, now),
        event matches Some(e) ==> is_canonical_level(e@.level) && no_reserved_name(e@.fields),
        event is None <==> is_noise(resolved_target(raw@.entries, raw@.target)),
{
    let now = current_time();
    let event = normalize(raw, now);
    assert(opt_event(event) == captured(raw@, now));
    event
}

/// The hook that feeds a ring.
pub struct LogCaptureLayer {
    pub storage: LogStorage,
}

impl LogCaptureLayer {
    /// A hook that feeds `storage`.
    pub fn new(storage: LogStorage) -> (layer: LogCaptureLayer)
        ensures
            layer.storage == storage,
    {
        LogCaptureLayer { storage }
    }

    /// The message of an event from the fields that a visitor collected.
    pub fn extract_message(visitor: &FieldVisitor) -> (message: String)
        ensures
            message@ == message_of(visitor.fields.entries()),
    {
        match visitor.fields.get("message") {
            Some(m) => m.clone(),
            None => {
                let n = visitor.fields.len();
                let ghost entries = visitor.fields.entries();
                let mut out = String::new();
                let mut i: usize = 0;
                assert(entries.take(0) =~= Seq::empty());
                while i < n
                    invariant
                        i <= n,
                        n == entries.len(),
                        entries == visitor.fields.entries(),
                        out@ == joined_fields(entries.take(i as int)),
                    decreases n - i,
                {
                    let ghost so_far = entries.take(i as int);
                    let ghost next = entries.take(i as int + 1);
                    assert(next.drop_last() =~= so_far);
                    assert(next.last() == entries[i as int]);
                    if i > 0 {
                        out.append(", ");
                    }
                    out.append(visitor.fields.key_at(i).as_str());
                    out.append(": ");
                    out.append(visitor.fields.value_at(i).as_str());
                    assert(out@ =~= joined_fields(next));
                    i += 1;
                }
                assert(entries.take(n as int) =~= entries);
                out
            },
        }
    }

    /// The canonical name of a level as an owned string.
    pub fn level_to_string(level: &Level) -> (name: String)
        ensures
            name@ == level_name(*level),
            is_canonical_level(name@),
    {
        level.as_str().to_owned()
    }

    /// The span context of an event: the span's name and the fields that were
    /// recorded when the span was made, none where nothing was recorded.
    pub fn extract_span_info(name: &str, recorded_fields: Option<&FieldVisitor>) -> (span: SpanInfo)
        ensures
            span@.name == name@,
            span@.fields == match recorded_fields {
                Some(v) => v.fields@,
                None => Map::empty(),
            },
    {
        let fields = match recorded_fields {
            Some(v) => v.fields.clone(),
            None => StringMap::new(),
        };
        SpanInfo { name: name.to_owned(), fields }
    }

    /// Takes a raw event seen at `now`: noise leaves the ring as it is, any
    /// other event is normalized, published and pushed.
    pub fn record(&mut self, raw: RawEvent, now: Timestamp)
        ensures
            final(self).storage@ == recorded(
                old(self).storage@,
                old(self).storage.capacity(),
                raw@,
                now,
            ),
            final(self).storage.capacity() == old(self).storage.capacity(),
            final(self).storage.bus() == old(self).storage.bus(),
    {
        match normalize(raw, now) {
            Some(event) => {
                self.storage.push(event);
            },
            None => {},
        }
    }

    /// Takes a raw event as it is emitted: it is stamped with the current
    /// time and recorded. Whatever the clock says, noise leaves the ring as it
    /// is and any other event is pushed.
    pub fn on_event(&mut self, raw: RawEvent)
        ensures
            exists|now: Timestamp|
                final(self).storage@ == #[trigger] recorded(
                    old(self).storage@,
                    old(self).storage.capacity(),
                    raw@,
                    now,
                ),
            final(self).storage.capacity() == old(self).storage.capacity(),
            final(self).storage.bus() == old(self).storage.bus(),
    {
        let ghost ring = self.storage@;
        let ghost cap = self.storage.capacity();
        let event = capture(raw);
        let ghost now = choose|now: Timestamp| opt_event(event) == #[trigger] captured(raw@, now);
        match event {
            Some(e) => {
                self.storage.push(e);
            },
            None => {},
        }
        assert(self.storage@ == recorded(ring, cap, raw@, now));
    }
}

} // verus!
