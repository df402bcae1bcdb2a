//! The wire schema: events and answers as JSON documents, and events read
//! back from such documents.

use vstd::prelude::*;
use crate::api::logs::{ErrorResponse, LogsResponse, TargetsResponse};
use crate::event::{opt_span, opt_text, LogEvent, LogEventView, SpanInfo, SpanInfoView, Timestamp};
use crate::fields::{
    distinct_keys, entries_map, has_key, lemma_upsert, upsert, Entries, StringMap,
};
use crate::json::{
    field_of, items_view, lemma_member_absent, lemma_member_at, member_of, members_view,
    JsonValue, JsonView, Members,
};

verus! {

/// What chrono writes for the instant `secs` seconds and `nanos` nanoseconds
/// after the Unix epoch, as RFC 3339 in UTC with as many fraction digits as
/// the instant needs; `None` where chrono cannot represent the instant.
pub uninterp spec fn rfc3339_of(secs: int, nanos: int) -> Option<Seq<char>>;

/// The instant that chrono reads from a text in RFC 3339, as seconds and
/// nanoseconds after the Unix epoch; `None` where chrono rejects the text.
pub uninterp spec fn parsed_rfc3339(text: Seq<char>) -> Option<(i64, u32)>;

/// `DateTime::from_timestamp` of chrono, then `to_rfc3339_opts` with
/// `SecondsFormat::AutoSi` and `Z` for UTC, which is how chrono serializes a
/// UTC time. The text depends on the instant alone.
#[verifier::external_body]
fn rfc3339_text(at: Timestamp) -> (text: Option<String>)
    ensures
        opt_text(text) == rfc3339_of(at.secs as int, at.nanos as int),
{
    chrono::DateTime::from_timestamp(at.secs, at.nanos).map(
        |t| t.to_rfc3339_opts(chrono::SecondsFormat::AutoSi, true),
    )
}

/// `str::parse` into chrono's `DateTime<FixedOffset>`, which is how chrono
/// deserializes a time: the instant that the text names, or nothing where the
/// text is no RFC 3339 time.
#[verifier::external_body]
fn parse_rfc3339(text: &str) -> (at: Option<Timestamp>)
    ensures
        match at {
            Some(t) => parsed_rfc3339(text@) == Some((t.secs, t.nanos)),
            None => parsed_rfc3339(text@) is None,
        },
{
    match text.parse::<chrono::DateTime<chrono::FixedOffset>>() {
        Ok(t) => Some(Timestamp { secs: t.timestamp(), nanos: t.timestamp_subsec_nanos() }),
        Err(_) => None,
    }
}

/// The instant that a text names.
pub open spec fn timestamp_of_text(text: Seq<char>) -> Option<Timestamp> {
    match parsed_rfc3339(text) {
        Some((secs, nanos)) => Some(Timestamp { secs, nanos }),
        None => None,
    }
}

/// The instant that is read back from what was written for `at`: what chrono
/// reads from the text that chrono wrote, nothing where it wrote none.
pub open spec fn instant_read_back(at: Timestamp) -> Option<Timestamp> {
    match rfc3339_of(at.secs as int, at.nanos as int) {
        Some(text) => timestamp_of_text(text),
        None => None,
    }
}

/// Writing the instant and reading the text back gives the instant again.
pub open spec fn timestamp_round_trips(at: Timestamp) -> bool {
    instant_read_back(at) == Some(at)
}

/// The document of an instant: its text, or null where it has none.
pub open spec fn timestamp_json(at: Timestamp) -> JsonView {
    match rfc3339_of(at.secs as int, at.nanos as int) {
        Some(text) => JsonView::Text(text),
        None => JsonView::Null,
    }
}

/// The document of a map of fields: an object with one text member for each
/// entry, in order.
pub open spec fn fields_json(entries: Entries) -> JsonView {
    JsonView::Object(entries.map_values(|p: (Seq<char>, Seq<char>)| (p.0, JsonView::Text(p.1))))
}

/// The document of a span: its name and its fields.
pub open spec fn span_json(name: Seq<char>, entries: Entries) -> JsonView {
    JsonView::Object(seq![("name"@, JsonView::Text(name)), ("fields"@, fields_json(entries))])
}

/// A member that is written only where there is a value.
pub open spec fn optional_member(key: Seq<char>, value: Option<JsonView>) -> Members {
    match value {
        Some(v) => seq![(key, v)],
        None => Seq::empty(),
    }
}

/// The members that every event document has.
pub open spec fn required_members(e: LogEvent) -> Members {
    seq![
        ("timestamp"@, timestamp_json(e.timestamp)),
        ("level"@, JsonView::Text(e.level@)),
        ("target"@, JsonView::Text(e.target@)),
        ("message"@, JsonView::Text(e.message@)),
        ("fields"@, fields_json(e.fields.entries())),
    ]
}

/// The document of an optional span.
pub open spec fn opt_span_json(span: Option<SpanInfo>) -> Option<JsonView> {
    match span {
        Some(s) => Some(span_json(s.name@, s.fields.entries())),
        None => None,
    }
}

/// The document of an optional text.
pub open spec fn opt_text_json(text: Option<String>) -> Option<JsonView> {
    match text {
        Some(t) => Some(JsonView::Text(t@)),
        None => None,
    }
}

/// The document of an optional line number.
pub open spec fn opt_line_json(line: Option<u32>) -> Option<JsonView> {
    match line {
        Some(n) => Some(JsonView::Number(n as u64)),
        None => None,
    }
}

/// The document of an event: the members `timestamp`, `level`, `target`,
/// `message` and `fields`, then `span`, `file` and `line`, each only where
/// the event has it.
pub open spec fn event_json(e: LogEvent) -> JsonView {
    JsonView::Object(
        required_members(e) + optional_member("span"@, opt_span_json(e.span)) + optional_member(
            "file"@,
            opt_text_json(e.file),
        ) + optional_member("line"@, opt_line_json(e.line)),
    )
}

/// The documents of a list of events.
pub open spec fn events_json(events: Seq<LogEvent>) -> Seq<JsonView> {
    events.map_values(|e: LogEvent| event_json(e))
}

/// The documents of a list of texts.
pub open spec fn texts_json(texts: Seq<String>) -> Seq<JsonView> {
    texts.map_values(|t: String| JsonView::Text(t@))
}

/// A member that must be a text.
pub open spec fn text_of(value: Option<JsonView>) -> Option<Seq<char>> {
    match value {
        Some(JsonView::Text(t)) => Some(t),
        _ => None,
    }
}

/// A member that may be absent or null, and is a text otherwise. The outer
/// `None` stands for a member of another kind.
pub open spec fn optional_text_of(value: Option<JsonView>) -> Option<Option<Seq<char>>> {
    match value {
        None => Some(None),
        Some(JsonView::Null) => Some(None),
        Some(JsonView::Text(t)) => Some(Some(t)),
        _ => None,
    }
}

/// A member that may be absent or null, and is a number that fits a line
/// number otherwise.
pub open spec fn optional_line_of(value: Option<JsonView>) -> Option<Option<u32>> {
    match value {
        None => Some(None),
        Some(JsonView::Null) => Some(None),
        Some(JsonView::Number(n)) => if n <= u32::MAX {
            Some(Some(n as u32))
        } else {
            None
        },
        _ => None,
    }
}

/// A member that must be a text that names an instant.
pub open spec fn timestamp_of(value: Option<JsonView>) -> Option<Timestamp> {
    match value {
        Some(JsonView::Text(t)) => timestamp_of_text(t),
        _ => None,
    }
}

/// Every member is a text.
pub open spec fn all_text(members: Members) -> bool {
    forall|i: int| 0 <= i < members.len() ==> (#[trigger] members[i]).1 is Text
}

/// The members as entries of texts.
pub open spec fn text_entries(members: Members) -> Entries {
    members.map_values(|m: (Seq<char>, JsonView)| (m.0, m.1->Text_0))
}

/// The map that entries make where a later entry replaces an earlier one of
/// the same key.
pub open spec fn last_wins(entries: Entries) -> Map<Seq<char>, Seq<char>>
    decreases entries.len(),
{
    if entries.len() == 0 {
        Map::empty()
    } else {
        last_wins(entries.drop_last()).insert(entries.last().0, entries.last().1)
    }
}

/// A member that must be an object of texts.
pub open spec fn fields_of(value: Option<JsonView>) -> Option<Map<Seq<char>, Seq<char>>> {
    match value {
        Some(JsonView::Object(members)) => if all_text(members) {
            Some(last_wins(text_entries(members)))
        } else {
            None
        },
        _ => None,
    }
}

/// A span read from its document.
pub open spec fn span_of(value: JsonView) -> Option<SpanInfoView> {
    match (text_of(field_of(value, "name"@)), fields_of(field_of(value, "fields"@))) {
        (Some(name), Some(fields)) => Some(SpanInfoView { name, fields }),
        _ => None,
    }
}

/// A member that may be absent or null, and is a span otherwise.
pub open spec fn optional_span_of(value: Option<JsonView>) -> Option<Option<SpanInfoView>> {
    match value {
        None => Some(None),
        Some(JsonView::Null) => Some(None),
        Some(v) => match span_of(v) {
            Some(s) => Some(Some(s)),
            None => None,
        },
    }
}

/// An event read from its document. The members `timestamp`, `level`,
/// `target`, `message` and `fields` are required; `span`, `file` and `line`
/// may be absent or null. Members of other names are passed over.
pub open spec fn event_of_json(doc: JsonView) -> Option<LogEventView> {
    match (
        timestamp_of(field_of(doc, "timestamp"@)),
        text_of(field_of(doc, "level"@)),
        text_of(field_of(doc, "target"@)),
        text_of(field_of(doc, "message"@)),
        fields_of(field_of(doc, "fields"@)),
        optional_span_of(field_of(doc, "span"@)),
        optional_text_of(field_of(doc, "file"@)),
        optional_line_of(field_of(doc, "line"@)),
    ) {
        (
            Some(timestamp),
            Some(level),
            Some(target),
            Some(message),
            Some(fields),
            Some(span),
            Some(file),
            Some(line),
        ) => Some(LogEventView { timestamp, level, target, message, fields, span, file, line }),
        _ => None,
    }
}

/// Where keys are distinct, letting later entries win changes nothing.
pub proof fn lemma_last_wins(entries: Entries)
    requires
        distinct_keys(entries),
    ensures
        last_wins(entries) == entries_map(entries),
    decreases entries.len(),
{
    if entries.len() == 0 {
        assert(entries_map(entries) =~= Map::empty());
    } else {
        let before = entries.drop_last();
        let last = entries.last();
        assert forall|i: int, j: int| 0 <= i < j < before.len() implies (#[trigger] before[i]).0
            != (#[trigger] before[j]).0 by {
            assert(before[i] == entries[i] && before[j] == entries[j]);
        }
        lemma_last_wins(before);
        if has_key(before, last.0) {
            let i = choose|i: int| 0 <= i < before.len() && (#[trigger] before[i]).0 == last.0;
            assert(entries[i].0 != entries[entries.len() - 1].0);
        }
        lemma_upsert(before, last.0, last.1);
        assert(upsert(before, last.0, last.1) =~= entries);
    }
}

/// The fields of an event are read back from their document.
pub proof fn lemma_fields_round_trip(entries: Entries)
    requires
        distinct_keys(entries),
    ensures
        fields_of(Some(fields_json(entries))) == Some(entries_map(entries)),
{
    let members = fields_json(entries)->Object_0;
    assert(text_entries(members) =~= entries);
    lemma_last_wins(entries);
}

/// A name is looked up in the first of two joined lists, then in the second.
pub proof fn lemma_member_of_joined(a: Members, b: Members, key: Seq<char>)
    ensures
        member_of(a + b, key) == match member_of(a, key) {
            Some(v) => Some(v),
            None => member_of(b, key),
        },
    decreases a.len(),
{
    if a.len() == 0 {
        assert(a + b =~= b);
    } else {
        assert((a + b).drop_first() =~= a.drop_first() + b);
        lemma_member_of_joined(a.drop_first(), b, key);
    }
}

/// A span is read back from its document.
pub proof fn lemma_span_round_trip(span: SpanInfo)
    requires
        distinct_keys(span.fields.entries()),
    ensures
        span_of(span_json(span.name@, span.fields.entries())) == Some(span@),
{
    reveal_strlit("name");
    reveal_strlit("fields");
    let members = span_json(span.name@, span.fields.entries())->Object_0;
    assert("name"@ != "fields"@) by {
        assert("name"@.len() == 4);
        assert("fields"@.len() == 6);
    }
    lemma_member_at(members, 0);
    lemma_member_at(members, 1);
    lemma_fields_round_trip(span.fields.entries());
}

/// Round trip. For every event, what is read back from its document is the
/// event itself, field by field, with the instant that is read back from the
/// text of its instant; the document reads back as an event exactly where
/// that text reads back as an instant. So an event whose instant chrono
/// writes and reads back is read back as it was. What the event lacks is
/// absent from the document and absent again in the event read back.
pub proof fn lemma_event_round_trip(e: LogEvent)
    requires
        distinct_keys(e.fields.entries()),
        e.span matches Some(s) ==> distinct_keys(s.fields.entries()),
    ensures
        event_of_json(event_json(e)) == match instant_read_back(e.timestamp) {
            Some(at) => Some(LogEventView { timestamp: at, ..e@ }),
            None => None,
        },
        timestamp_round_trips(e.timestamp) ==> event_of_json(event_json(e)) == Some(e@),
        e.span is None ==> field_of(event_json(e), "span"@) is None,
        e.file is None ==> field_of(event_json(e), "file"@) is None,
        e.line is None ==> field_of(event_json(e), "line"@) is None,
{
    reveal_strlit("timestamp");
    reveal_strlit("level");
    reveal_strlit("target");
    reveal_strlit("message");
    reveal_strlit("fields");
    reveal_strlit("span");
    reveal_strlit("file");
    reveal_strlit("line");
    let names = seq![
        "timestamp"@,
        "level"@,
        "target"@,
        "message"@,
        "fields"@,
        "span"@,
        "file"@,
        "line"@,
    ];
    assert forall|i: int, j: int| 0 <= i < j < names.len() implies names[i] != names[j] by {
        if names[i].len() == names[j].len() {
            assert(names[i][0] != names[j][0]);
        }
    }
    let required = required_members(e);
    let span = optional_member("span"@, opt_span_json(e.span));
    let file = optional_member("file"@, opt_text_json(e.file));
    let line = optional_member("line"@, opt_line_json(e.line));
    let members = required + span + file + line;
    assert forall|k: int| 0 <= k < names.len() implies member_of(members, #[trigger] names[k])
        == (if k < 5 {
        Some(required[k].1)
    } else if k == 5 {
        opt_span_json(e.span)
    } else if k == 6 {
        opt_text_json(e.file)
    } else {
        opt_line_json(e.line)
    }) by {
        let key = names[k];
        lemma_member_of_joined(required + span + file, line, key);
        lemma_member_of_joined(required + span, file, key);
        lemma_member_of_joined(required, span, key);
        if k < 5 {
            assert(required[k].0 == key);
            assert forall|j: int| 0 <= j < k implies (#[trigger] required[j]).0
                != required[k].0 by {
                assert(required[j].0 == names[j]);
            }
            lemma_member_at(required, k);
        } else {
            assert forall|j: int| 0 <= j < required.len() implies (#[trigger] required[j]).0
                != key by {
                assert(required[j].0 == names[j]);
            }
            lemma_member_absent(required, key);
            assert(names[5] != key || k == 5);
            assert(names[6] != key || k == 6);
            assert(names[7] != key || k == 7);
            if span.len() > 0 && k != 5 {
                lemma_member_absent(span, key);
            }
            if file.len() > 0 && k != 6 {
                lemma_member_absent(file, key);
            }
            if line.len() > 0 && k != 7 {
                lemma_member_absent(line, key);
            }
            if span.len() > 0 && k == 5 {
                lemma_member_at(span, 0);
            }
            if file.len() > 0 && k == 6 {
                lemma_member_at(file, 0);
            }
            if line.len() > 0 && k == 7 {
                lemma_member_at(line, 0);
            }
        }
    }
    assert(names[0] == "timestamp"@ && names[1] == "level"@ && names[2] == "target"@ && names[3]
        == "message"@ && names[4] == "fields"@ && names[5] == "span"@ && names[6] == "file"@
        && names[7] == "line"@);
    lemma_fields_round_trip(e.fields.entries());
    match e.span {
        Some(s) => {
            lemma_span_round_trip(s);
        },
        None => {},
    }
}

/// The document of a map of fields.
pub fn fields_to_json(fields: &StringMap) -> (doc: JsonValue)
    ensures
        doc@ == fields_json(fields.entries()),
{
    let n = fields.len();
    let ghost entries = fields.entries();
    let mut members: Vec<(String, JsonValue)> = Vec::new();
    let mut i: usize = 0;
    while i < n
        invariant
            i <= n,
            n == entries.len(),
            entries == fields.entries(),
            members@.len() == i,
            forall|j: int|
                0 <= j < i ==> (#[trigger] members@[j]).0@ == entries[j].0 && members@[j].1@
                    == JsonView::Text(entries[j].1),
        decreases n - i,
    {
        let value = JsonValue::text(fields.value_at(i).as_str());
        members.push((fields.key_at(i).clone(), value));
        i += 1;
    }
    assert(members_view(members@) =~= fields_json(entries)->Object_0);
    JsonValue::object(members)
}

/// The document of a span.
pub fn span_to_json(span: &SpanInfo) -> (doc: JsonValue)
    ensures
        doc@ == span_json(span.name@, span.fields.entries()),
{
    let mut members: Vec<(String, JsonValue)> = Vec::new();
    members.push(("name".to_owned(), JsonValue::text(span.name.as_str())));
    members.push(("fields".to_owned(), fields_to_json(&span.fields)));
    assert(members_view(members@) =~= span_json(span.name@, span.fields.entries())->Object_0);
    JsonValue::object(members)
}

/// The fields read from a member that must be an object of texts.
pub fn fields_from_json(value: Option<&JsonValue>) -> (fields: Option<StringMap>)
    ensures
        match fields {
            Some(m) => fields_of(opt_json(value)) == Some(m@),
            None => fields_of(opt_json(value)) is None,
        },
{
    match value {
        Some(JsonValue::Object(members)) => {
            proof {
                crate::json::lemma_object_view(*members);
            }
            let ghost all = members_view(members@);
            let mut out = StringMap::new();
            let mut i: usize = 0;
            assert(text_entries(all).take(0) =~= Seq::empty());
            while i < members.len()
                invariant
                    i <= members.len(),
                    all == members_view(members@),
                    opt_json(value) == Some(JsonView::Object(all)),
                    all_text(all.take(i as int)),
                    out@ == last_wins(text_entries(all).take(i as int)),
                decreases members.len() - i,
            {
                match &members[i].1 {
                    JsonValue::Text(t) => {
                        let _ = out.insert(members[i].0.clone(), t.clone());
                        proof {
                            let grown = text_entries(all).take(i as int + 1);
                            assert(grown.drop_last() =~= text_entries(all).take(i as int));
                            assert(grown.last() == (all[i as int].0, all[i as int].1->Text_0));
                            assert forall|j: int| 0 <= j < i + 1 implies (#[trigger] all.take(
                                i as int + 1,
                            )[j]).1 is Text by {
                                if j < i {
                                    assert(all.take(i as int)[j] == all.take(i as int + 1)[j]);
                                }
                            }
                        }
                    },
                    _ => {
                        assert(!(all[i as int].1 is Text));
                        return None;
                    },
                }
                i += 1;
            }
            assert(all.take(members.len() as int) =~= all);
            assert(text_entries(all).take(members.len() as int) =~= text_entries(all));
            Some(out)
        },
        _ => None,
    }
}

/// The view of an optional value.
pub open spec fn opt_json(value: Option<&JsonValue>) -> Option<JsonView> {
    match value {
        Some(v) => Some(v@),
        None => None,
    }
}

/// The text read from a member that must be a text.
pub fn text_from_json(value: Option<&JsonValue>) -> (text: Option<String>)
    ensures
        opt_text(text) == text_of(opt_json(value)),
{
    match value {
        Some(JsonValue::Text(t)) => Some(t.clone()),
        _ => None,
    }
}

/// The text read from a member that may be absent or null.
pub fn optional_text_from_json(value: Option<&JsonValue>) -> (text: Option<Option<String>>)
    ensures
        match text {
            Some(t) => optional_text_of(opt_json(value)) == Some(opt_text(t)),
            None => optional_text_of(opt_json(value)) is None,
        },
{
    match value {
        None => Some(None),
        Some(JsonValue::Null) => Some(None),
        Some(JsonValue::Text(t)) => Some(Some(t.clone())),
        _ => None,
    }
}

/// The line number read from a member that may be absent or null.
pub fn optional_line_from_json(value: Option<&JsonValue>) -> (line: Option<Option<u32>>)
    ensures
        line == optional_line_of(opt_json(value)),
{
    match value {
        None => Some(None),
        Some(JsonValue::Null) => Some(None),
        Some(JsonValue::Number(n)) => if *n <= 0xffff_ffff {
            Some(Some(*n as u32))
        } else {
            None
        },
        _ => None,
    }
}

/// The span read from its document.
pub fn span_from_json(value: &JsonValue) -> (span: Option<SpanInfo>)
    ensures
        opt_span(span) == span_of(value@),
{
    let name = match text_from_json(value.get("name")) {
        Some(n) => n,
        None => {
            return None;
        },
    };
    let fields = match fields_from_json(value.get("fields")) {
        Some(f) => f,
        None => {
            return None;
        },
    };
    Some(SpanInfo { name, fields })
}

/// The span read from a member that may be absent or null.
pub fn optional_span_from_json(value: Option<&JsonValue>) -> (span: Option<Option<SpanInfo>>)
    ensures
        match span {
            Some(s) => optional_span_of(opt_json(value)) == Some(opt_span(s)),
            None => optional_span_of(opt_json(value)) is None,
        },
{
    match value {
        None => Some(None),
        Some(JsonValue::Null) => Some(None),
        Some(v) => match span_from_json(v) {
            Some(s) => Some(Some(s)),
            None => None,
        },
    }
}

/// The instant read from a member that must be a text naming one.
pub fn timestamp_from_json(value: Option<&JsonValue>) -> (at: Option<Timestamp>)
    ensures
        at == timestamp_of(opt_json(value)),
{
    match value {
        Some(JsonValue::Text(t)) => parse_rfc3339(t.as_str()),
        _ => None,
    }
}

impl LogEvent {
    /// The document of the event.
    pub fn to_json(&self) -> (doc: JsonValue)
        ensures
            doc@ == event_json(*self),
    {
        let mut members: Vec<(String, JsonValue)> = Vec::new();
        let timestamp = match rfc3339_text(self.timestamp) {
            Some(text) => JsonValue::Text(text),
            None => JsonValue::Null,
        };
        members.push(("timestamp".to_owned(), timestamp));
        members.push(("level".to_owned(), JsonValue::text(self.level.as_str())));
        members.push(("target".to_owned(), JsonValue::text(self.target.as_str())));
        members.push(("message".to_owned(), JsonValue::text(self.message.as_str())));
        members.push(("fields".to_owned(), fields_to_json(&self.fields)));
        assert(members_view(members@) =~= required_members(*self));
        match &self.span {
            Some(s) => {
                members.push(("span".to_owned(), span_to_json(s)));
            },
            None => {},
        }
        assert(members_view(members@) =~= required_members(*self) + optional_member(
            "span"@,
            opt_span_json(self.span),
        ));
        match &self.file {
            Some(f) => {
                members.push(("file".to_owned(), JsonValue::text(f.as_str())));
            },
            None => {},
        }
        assert(members_view(members@) =~= required_members(*self) + optional_member(
            "span"@,
            opt_span_json(self.span),
        ) + optional_member("file"@, opt_text_json(self.file)));
        match self.line {
            Some(n) => {
                members.push(("line".to_owned(), JsonValue::Number(n as u64)));
            },
            None => {},
        }
        assert(members_view(members@) =~= event_json(*self)->Object_0);
        JsonValue::object(members)
    }

    /// The event that a document describes; `None` where a required member
    /// is missing or a member is of the wrong kind.
    pub fn from_json(doc: &JsonValue) -> (event: Option<LogEvent>)
        ensures
            match event {
                Some(e) => event_of_json(doc@) == Some(e@),
                None => event_of_json(doc@) is None,
            },
    {
        let timestamp = match timestamp_from_json(doc.get("timestamp")) {
            Some(t) => t,
            None => {
                return None;
            },
        };
        let level = match text_from_json(doc.get("level")) {
            Some(t) => t,
            None => {
                return None;
            },
        };
        let target = match text_from_json(doc.get("target")) {
            Some(t) => t,
            None => {
                return None;
            },
        };
        let message = match text_from_json(doc.get("message")) {
            Some(t) => t,
            None => {
                return None;
            },
        };
        let fields = match fields_from_json(doc.get("fields")) {
            Some(f) => f,
            None => {
                return None;
            },
        };
        let span = match optional_span_from_json(doc.get("span")) {
            Some(s) => s,
            None => {
                return None;
            },
        };
        let file = match optional_text_from_json(doc.get("file")) {
            Some(f) => f,
            None => {
                return None;
            },
        };
        let line = match optional_line_from_json(doc.get("line")) {
            Some(l) => l,
            None => {
                return None;
            },
        };
        Some(LogEvent { timestamp, level, target, message, fields, span, file, line })
    }
}

impl LogsResponse {
    /// The document of the answer: the events under `logs` and the number of
    /// matches under `total`.
    pub fn to_json(&self) -> (doc: JsonValue)
        ensures
            doc@ == JsonView::Object(
                seq![
                    ("logs"@, JsonView::List(events_json(self.logs@))),
                    ("total"@, JsonView::Number(self.total as u64)),
                ],
            ),
    {
        let mut items: Vec<JsonValue> = Vec::new();
        let mut i: usize = 0;
        while i < self.logs.len()
            invariant
                i <= self.logs.len(),
                items@.len() == i,
                forall|j: int| 0 <= j < i ==> (#[trigger] items@[j])@ == event_json(self.logs@[j]),
            decreases self.logs.len() - i,
        {
            items.push(self.logs[i].to_json());
            i += 1;
        }
        assert(items_view(items@) =~= events_json(self.logs@));
        let mut members: Vec<(String, JsonValue)> = Vec::new();
        members.push(("logs".to_owned(), JsonValue::list(items)));
        members.push(("total".to_owned(), JsonValue::Number(self.total as u64)));
        assert(members_view(members@) =~= seq![
            ("logs"@, JsonView::List(events_json(self.logs@))),
            ("total"@, JsonView::Number(self.total as u64)),
        ]);
        JsonValue::object(members)
    }
}

impl ErrorResponse {
    /// The document of the answer: the message under `error` and the status
    /// under `code`.
    pub fn to_json(&self) -> (doc: JsonValue)
        ensures
            doc@ == JsonView::Object(
                seq![
                    ("error"@, JsonView::Text(self.error@)),
                    ("code"@, JsonView::Number(self.code as u64)),
                ],
            ),
    {
        let mut members: Vec<(String, JsonValue)> = Vec::new();
        members.push(("error".to_owned(), JsonValue::text(self.error.as_str())));
        members.push(("code".to_owned(), JsonValue::Number(self.code as u64)));
        assert(members_view(members@) =~= seq![
            ("error"@, JsonView::Text(self.error@)),
            ("code"@, JsonView::Number(self.code as u64)),
        ]);
        JsonValue::object(members)
    }
}

impl TargetsResponse {
    /// The document of the answer: the targets under `targets`.
    pub fn to_json(&self) -> (doc: JsonValue)
        ensures
            doc@ == JsonView::Object(
                seq![("targets"@, JsonView::List(texts_json(self.targets@)))],
            ),
    {
        let mut items: Vec<JsonValue> = Vec::new();
        let mut i: usize = 0;
        while i < self.targets.len()
            invariant
                i <= self.targets.len(),
                items@.len() == i,
                forall|j: int|
                    0 <= j < i ==> (#[trigger] items@[j])@ == JsonView::Text(self.targets@[j]@),
            decreases self.targets.len() - i,
        {
            items.push(JsonValue::text(self.targets[i].as_str()));
            i += 1;
        }
        assert(items_view(items@) =~= texts_json(self.targets@));
        let mut members: Vec<(String, JsonValue)> = Vec::new();
        members.push(("targets".to_owned(), JsonValue::list(items)));
        assert(members_view(members@) =~= seq![
            ("targets"@, JsonView::List(texts_json(self.targets@))),
        ]);
        JsonValue::object(members)
    }
}

} // verus!
