use tracing_web_console::event::{LogEvent, Timestamp};
use tracing_web_console::fields::StringMap;
use tracing_web_console::filter::{
    contains_text, is_under, level_gate, level_rank_of, level_to_number, matches_filter,
    resolve_level, text_gate, LogFilter, SortOrder,
};
use tracing_web_console::storage::LogStorage;

fn event(level: &str, target: &str, message: &str) -> LogEvent {
    LogEvent {
        timestamp: Timestamp { secs: 0, nanos: 0 },
        level: level.to_string(),
        target: target.to_string(),
        message: message.to_string(),
        fields: StringMap::new(),
        span: None,
        file: None,
        line: None,
    }
}

fn levels(pairs: &[(&str, &str)]) -> StringMap {
    let mut map = StringMap::new();
    for (k, v) in pairs {
        map.insert(k.to_string(), v.to_string());
    }
    map
}

#[test]
fn level_numbers_follow_severity() {
    assert_eq!(level_to_number("TRACE"), 1);
    assert_eq!(level_to_number("DEBUG"), 2);
    assert_eq!(level_to_number("INFO"), 3);
    assert_eq!(level_to_number("WARN"), 4);
    assert_eq!(level_to_number("ERROR"), 5);
}

#[test]
fn level_numbers_ignore_case() {
    assert_eq!(level_to_number("error"), 5);
    assert_eq!(level_to_number("Warn"), 4);
    assert_eq!(level_to_number("iNfO"), 3);
    assert_eq!(level_to_number("debug"), 2);
    assert_eq!(level_to_number("trace"), 1);
}

#[test]
fn unknown_level_is_lowest() {
    assert_eq!(level_to_number(""), 0);
    assert_eq!(level_to_number("FATAL"), 0);
    assert_eq!(level_to_number("WARNING"), 0);
    assert_eq!(level_to_number(" INFO"), 0);
}

#[test]
fn rank_of_upper_case_name_is_exact() {
    assert_eq!(level_rank_of("ERROR"), 5);
    assert_eq!(level_rank_of("TRACE"), 1);
    // The rank does not fold case: that is the caller's part.
    assert_eq!(level_rank_of("error"), 0);
}

#[test]
fn target_is_under_itself_and_under_its_ancestors() {
    assert!(is_under("a", "a"));
    assert!(is_under("a::x", "a"));
    assert!(is_under("a::x::y", "a::x"));
    assert!(is_under("a::", "a"));
    assert!(!is_under("ab", "a"));
    assert!(!is_under("a:x", "a"));
    assert!(!is_under("a", "a::x"));
    assert!(!is_under("b::a", "a"));
    assert!(is_under("::x", ""));
    assert!(is_under("", ""));
    assert!(!is_under("x", ""));
}

#[test]
fn global_level_gates_every_target() {
    let mut storage = LogStorage::new();
    storage.push(event("INFO", "t", "i"));
    storage.push(event("ERROR", "t", "e"));
    storage.push(event("DEBUG", "t", "d"));
    let filter = LogFilter { global_level: Some("ERROR".to_string()), ..Default::default() };
    let (logs, total) = storage.get_filtered(&filter, None, None);
    assert_eq!(total, 1);
    assert_eq!(logs.len(), 1);
    assert_eq!(logs[0].level, "ERROR");
}

#[test]
fn longest_covering_key_sets_the_level() {
    let filter = LogFilter {
        target_levels: levels(&[("a", "WARN"), ("a::x", "ERROR")]),
        ..Default::default()
    };
    // `a::x` is the longest key that covers the target, and it asks for ERROR.
    assert!(!matches_filter(&event("INFO", "a::x::y", "m"), &filter));
    assert!(!matches_filter(&event("WARN", "a::x::y", "m"), &filter));
    assert!(matches_filter(&event("ERROR", "a::x::y", "m"), &filter));
    assert!(!matches_filter(&event("WARN", "a::x", "m"), &filter));
    // `a` covers `a::other` and asks for WARN.
    assert!(matches_filter(&event("WARN", "a::other", "m"), &filter));
    assert!(!matches_filter(&event("INFO", "a::other", "m"), &filter));
    // No key covers `b`, and there is no global level.
    assert!(matches_filter(&event("TRACE", "b", "m"), &filter));
    assert!(matches_filter(&event("whatever", "b", "m"), &filter));
}

#[test]
fn order_of_keys_does_not_matter() {
    let one = LogFilter {
        target_levels: levels(&[("a::x", "ERROR"), ("a", "WARN")]),
        ..Default::default()
    };
    let other = LogFilter {
        target_levels: levels(&[("a", "WARN"), ("a::x", "ERROR")]),
        ..Default::default()
    };
    for target in ["a", "a::x", "a::x::y", "a::z", "b", "ax"] {
        assert_eq!(
            resolve_level(&one, target).map(|s| s.as_str()),
            resolve_level(&other, target).map(|s| s.as_str())
        );
    }
}

#[test]
fn required_level_falls_back_to_the_global_level() {
    let filter = LogFilter {
        global_level: Some("INFO".to_string()),
        target_levels: levels(&[("a", "ERROR")]),
        ..Default::default()
    };
    assert_eq!(resolve_level(&filter, "a::b").map(|s| s.as_str()), Some("ERROR"));
    assert_eq!(resolve_level(&filter, "a").map(|s| s.as_str()), Some("ERROR"));
    assert_eq!(resolve_level(&filter, "ab").map(|s| s.as_str()), Some("INFO"));
    assert_eq!(resolve_level(&filter, "b").map(|s| s.as_str()), Some("INFO"));
    let none = LogFilter::default();
    assert!(resolve_level(&none, "b").is_none());
}

#[test]
fn target_level_takes_precedence_over_a_stricter_global_level() {
    let filter = LogFilter {
        global_level: Some("ERROR".to_string()),
        target_levels: levels(&[("noisy", "TRACE")]),
        ..Default::default()
    };
    assert!(level_gate(&event("DEBUG", "noisy::part", "m"), &filter));
    assert!(!level_gate(&event("DEBUG", "quiet", "m"), &filter));
}

#[test]
fn unknown_levels_compare_as_zero() {
    let wants_unknown = LogFilter { global_level: Some("LOUD".to_string()), ..Default::default() };
    // An unknown required level is 0, which every event reaches.
    assert!(level_gate(&event("TRACE", "t", "m"), &wants_unknown));
    assert!(level_gate(&event("odd", "t", "m"), &wants_unknown));
    let wants_trace = LogFilter { global_level: Some("TRACE".to_string()), ..Default::default() };
    // An unknown event level is 0, which reaches no known level.
    assert!(!level_gate(&event("odd", "t", "m"), &wants_trace));
    assert!(level_gate(&event("trace", "t", "m"), &wants_trace));
}

#[test]
fn text_gate_ignores_case_and_passes_blank() {
    assert!(text_gate(&None, "anything"));
    assert!(text_gate(&Some(String::new()), "anything"));
    assert!(text_gate(&Some(String::new()), ""));
    assert!(text_gate(&Some("THING".to_string()), "anything"));
    assert!(text_gate(&Some("any".to_string()), "ANYTHING"));
    assert!(!text_gate(&Some("nothing".to_string()), "anything"));
    assert!(!text_gate(&Some("x".to_string()), ""));
}

#[test]
fn all_parts_of_a_filter_must_hold() {
    let filter = LogFilter {
        global_level: Some("INFO".to_string()),
        target_levels: StringMap::new(),
        search: Some("disk".to_string()),
        target: Some("store".to_string()),
        sort_order: SortOrder::NewestFirst,
    };
    assert!(matches_filter(&event("WARN", "app::Store", "Disk full"), &filter));
    assert!(!matches_filter(&event("DEBUG", "app::Store", "Disk full"), &filter));
    assert!(!matches_filter(&event("WARN", "app::net", "Disk full"), &filter));
    assert!(!matches_filter(&event("WARN", "app::Store", "all fine"), &filter));
}

#[test]
fn default_filter_accepts_everything_newest_first() {
    let filter = LogFilter::default();
    assert!(filter.global_level.is_none());
    assert!(filter.target_levels.is_empty());
    assert!(filter.search.is_none());
    assert!(filter.target.is_none());
    assert_eq!(filter.sort_order, SortOrder::NewestFirst);
    assert_eq!(SortOrder::default(), SortOrder::NewestFirst);
    assert!(matches_filter(&event("", "", ""), &filter));
}

#[test]
fn filter_clone_is_the_same_filter() {
    let filter = LogFilter {
        global_level: Some("INFO".to_string()),
        target_levels: levels(&[("a", "WARN")]),
        search: Some("s".to_string()),
        target: None,
        sort_order: SortOrder::OldestFirst,
    };
    let copy = filter.clone();
    assert_eq!(copy.global_level.as_deref(), Some("INFO"));
    assert_eq!(copy.target_levels.get("a").map(|s| s.as_str()), Some("WARN"));
    assert_eq!(copy.search.as_deref(), Some("s"));
    assert!(copy.target.is_none());
    assert_eq!(copy.sort_order, SortOrder::OldestFirst);
}

#[test]
fn level_names_are_folded_as_unicode_text() {
    // The dotless i has the capital I as its upper case.
    assert_eq!(level_to_number("\u{131}nfo"), 3);
    assert_eq!(level_to_number("ｉnfo"), 0);
}

#[test]
fn contains_text_looks_for_the_exact_run() {
    assert!(contains_text("hello world", "lo w"));
    assert!(contains_text("hello", "hello"));
    assert!(contains_text("hello", ""));
    assert!(contains_text("", ""));
    assert!(!contains_text("hello", "Hello"));
    assert!(!contains_text("hello", "hello!"));
    assert!(!contains_text("", "x"));
    assert!(contains_text("naïve café", "ve c"));
}
