//! Filters over stored events: a minimum level, resolved per target, and
//! case-insensitive substring tests on target and message.

use vstd::prelude::*;
use vstd::string::StrSliceExecFns;
use crate::event::{LogEvent, LogEventView};
use crate::fields::{key_index, lemma_key_index, Entries, StringMap};
use crate::text::{
    contains_slice, join_pair, lowercase_of, str_contains, str_equal, str_starts_with,
    uppercase_of,
};

verus! {

/// Order in which a query returns its events.
#[derive(Clone, Copy, Debug, PartialEq, Eq, Structural)]
pub enum SortOrder {
    /// Newest events first.
    NewestFirst,
    /// Oldest events first.
    OldestFirst,
}

impl Default for SortOrder {
    fn default() -> (order: SortOrder)
        ensures
            order == SortOrder::NewestFirst,
    {
        SortOrder::NewestFirst
    }
}

/// What a query asks of each event. All parts must hold.
#[derive(Debug)]
pub struct LogFilter {
    /// Minimum level for targets that `target_levels` does not cover.
    pub global_level: Option<String>,
    /// Minimum level by target prefix.
    pub target_levels: StringMap,
    /// Text that the message must contain, ignoring case.
    pub search: Option<String>,
    /// Text that the target must contain, ignoring case.
    pub target: Option<String>,
    pub sort_order: SortOrder,
}

/// A filter as plain values.
pub struct LogFilterView {
    pub global_level: Option<Seq<char>>,
    pub target_levels: Map<Seq<char>, Seq<char>>,
    pub search: Option<Seq<char>>,
    pub target: Option<Seq<char>>,
    pub sort_order: SortOrder,
}

impl View for LogFilter {
    type V = LogFilterView;

    open spec fn view(&self) -> LogFilterView {
        LogFilterView {
            global_level: crate::event::opt_text(self.global_level),
            target_levels: self.target_levels@,
            search: crate::event::opt_text(self.search),
            target: crate::event::opt_text(self.target),
            sort_order: self.sort_order,
        }
    }
}

impl Clone for LogFilter {
    fn clone(&self) -> (filter: LogFilter)
        ensures
            filter@ == self@,
    {
        LogFilter {
            global_level: crate::event::clone_opt_string(&self.global_level),
            target_levels: self.target_levels.clone(),
            search: crate::event::clone_opt_string(&self.search),
            target: crate::event::clone_opt_string(&self.target),
            sort_order: self.sort_order,
        }
    }
}

impl Default for LogFilter {
    fn default() -> (filter: LogFilter)
        ensures
            filter@ == (LogFilterView {
                global_level: None,
                target_levels: Map::empty(),
                search: None,
                target: None,
                sort_order: SortOrder::NewestFirst,
            }),
    {
        LogFilter {
            global_level: None,
            target_levels: StringMap::new(),
            search: None,
            target: None,
            sort_order: SortOrder::NewestFirst,
        }
    }
}

/// The number of a level whose name is already in upper case: `TRACE` is 1,
/// `ERROR` is 5, any other name is 0.
pub open spec fn level_rank(upper: Seq<char>) -> int {
    if upper == "ERROR"@ {
        5
    } else if upper == "WARN"@ {
        4
    } else if upper == "INFO"@ {
        3
    } else if upper == "DEBUG"@ {
        2
    } else if upper == "TRACE"@ {
        1
    } else {
        0
    }
}

/// The number of a level name in any case.
pub open spec fn level_number(level: Seq<char>) -> int {
    level_rank(uppercase_of(level))
}

/// `target` is `root` itself or lies below it: it begins with `root::`.
pub open spec fn target_under(target: Seq<char>, root: Seq<char>) -> bool {
    target == root || (root + "::"@).is_prefix_of(target)
}

/// `key` is a key of `levels` that covers `target`.
pub open spec fn covers(
    levels: Map<Seq<char>, Seq<char>>,
    target: Seq<char>,
    key: Seq<char>,
) -> bool {
    levels.dom().contains(key) && target_under(target, key)
}

/// `key` covers `target`, and no key that covers `target` is longer.
pub open spec fn longest_cover(
    levels: Map<Seq<char>, Seq<char>>,
    target: Seq<char>,
    key: Seq<char>,
) -> bool {
    &&& covers(levels, target, key)
    &&& forall|other: Seq<char>| #[trigger]
        covers(levels, target, other) ==> other.len() <= key.len()
}

/// The level that an event on `target` must reach: where some key of `levels`
/// covers the target, the level of the longest such key; else the global
/// level; without that, none.
pub open spec fn required_level(
    levels: Map<Seq<char>, Seq<char>>,
    global: Option<Seq<char>>,
    target: Seq<char>,
) -> Option<Seq<char>> {
    if exists|key: Seq<char>| covers(levels, target, key) {
        Some(levels[choose|key: Seq<char>| longest_cover(levels, target, key)])
    } else {
        global
    }
}

/// The number that the level of an event on `target` must reach; 0 where no
/// level is required.
pub open spec fn required_number(
    levels: Map<Seq<char>, Seq<char>>,
    global: Option<Seq<char>>,
    target: Seq<char>,
) -> int {
    match required_level(levels, global, target) {
        Some(level) => level_number(level),
        None => 0,
    }
}

/// The level gate: the event's level number reaches the required one.
pub open spec fn passes_level(f: LogFilterView, e: LogEventView) -> bool {
    level_number(e.level) >= required_number(f.target_levels, f.global_level, e.target)
}

/// A substring test that ignores case. An absent or empty `wanted` asks for
/// nothing.
pub open spec fn passes_text(wanted: Option<Seq<char>>, text: Seq<char>) -> bool {
    match wanted {
        Some(w) => w.len() == 0 || contains_slice(lowercase_of(text), lowercase_of(w)),
        None => true,
    }
}

/// The filter predicate: level gate, target test and message test together.
pub open spec fn accepts(f: LogFilterView, e: LogEventView) -> bool {
    &&& passes_level(f, e)
    &&& passes_text(f.target, e.target)
    &&& passes_text(f.search, e.message)
}

/// Two keys that cover the same target and have the same length are the same
/// key.
pub proof fn lemma_cover_same_length(target: Seq<char>, a: Seq<char>, b: Seq<char>)
    requires
        target_under(target, a),
        target_under(target, b),
        a.len() == b.len(),
    ensures
        a == b,
{
    let sep = "::"@;
    if target == a {
        if target != b {
            assert((b + sep).len() <= target.len());
            assert((b + sep).len() == b.len() + sep.len());
        }
    } else if target == b {
        assert((a + sep).len() <= target.len());
        assert((a + sep).len() == a.len() + sep.len());
    } else {
        let pa = a + sep;
        let pb = b + sep;
        assert(pa =~= target.subrange(0, pa.len() as int));
        assert(pb =~= target.subrange(0, pb.len() as int));
        assert forall|i: int| 0 <= i < a.len() implies a[i] == b[i] by {
            assert(a[i] == pa[i]);
            assert(b[i] == pb[i]);
            assert(pa[i] == target.subrange(0, pa.len() as int)[i]);
            assert(pb[i] == target.subrange(0, pb.len() as int)[i]);
        }
        assert(a =~= b);
    }
}

/// At most one key is a longest cover of a target.
pub proof fn lemma_longest_cover_unique(
    levels: Map<Seq<char>, Seq<char>>,
    target: Seq<char>,
    a: Seq<char>,
    b: Seq<char>,
)
    requires
        longest_cover(levels, target, a),
        longest_cover(levels, target, b),
    ensures
        a == b,
{
    lemma_cover_same_length(target, a, b);
}

/// The number of a level name that is already in upper case.
pub fn level_rank_of(upper: &str) -> (n: u8)
    ensures
        n == level_rank(upper@),
{
    if str_equal(upper, "ERROR") {
        5
    } else if str_equal(upper, "WARN") {
        4
    } else if str_equal(upper, "INFO") {
        3
    } else if str_equal(upper, "DEBUG") {
        2
    } else if str_equal(upper, "TRACE") {
        1
    } else {
        0
    }
}

/// The number of a level name, whatever its case. A higher number is a
/// higher severity; a name that is no level has the number 0.
pub fn level_to_number(level: &str) -> (n: u8)
    ensures
        n == level_number(level@),
        n <= 5,
{
    let upper = level.to_uppercase();
    level_rank_of(upper.as_str())
}

/// Whether `target` is `root` or lies below it.
pub fn is_under(target: &str, root: &str) -> (b: bool)
    ensures
        b == target_under(target@, root@),
{
    if str_equal(target, root) {
        true
    } else {
        let prefix = join_pair(root, "::");
        str_starts_with(target, prefix.as_str())
    }
}

/// The first `n` entries hold no key that covers `target`.
pub open spec fn none_covers(entries: Entries, n: int, target: Seq<char>) -> bool {
    forall|j: int| 0 <= j < n ==> !target_under(target, (#[trigger] entries[j]).0)
}

/// Among the first `n` entries, the one at `best` covers `target` and none
/// that covers it has a longer key.
pub open spec fn best_among(entries: Entries, n: int, target: Seq<char>, best: int) -> bool {
    &&& 0 <= best < n
    &&& target_under(target, entries[best].0)
    &&& forall|j: int|
        0 <= j < n && target_under(target, (#[trigger] entries[j]).0) ==> entries[j].0.len()
            <= entries[best].0.len()
}

/// The level that `filter` requires of an event on `target`.
pub fn resolve_level<'a>(filter: &'a LogFilter, target: &str) -> (level: Option<&'a String>)
    ensures
        match level {
            Some(l) => required_level(filter@.target_levels, filter@.global_level, target@)
                == Some(l@),
            None => required_level(filter@.target_levels, filter@.global_level, target@)
                is None,
        },
{
    let levels = &filter.target_levels;
    let n = levels.len();
    let ghost entries = levels.entries();
    let mut best: Option<usize> = None;
    let mut best_len: usize = 0;
    let mut i: usize = 0;
    while i < n
        invariant
            i <= n,
            n == entries.len(),
            entries == levels.entries(),
            match best {
                Some(b) => best_among(entries, i as int, target@, b as int) && best_len
                    == entries[b as int].0.len(),
                None => none_covers(entries, i as int, target@),
            },
        decreases n - i,
    {
        let key = levels.key_at(i);
        if is_under(target, key.as_str()) {
            let key_len = key.as_str().unicode_len();
            match best {
                Some(_) => {
                    if key_len > best_len {
                        best = Some(i);
                        best_len = key_len;
                    }
                },
                None => {
                    best = Some(i);
                    best_len = key_len;
                },
            }
        }
        i += 1;
    }
    let ghost map = filter@.target_levels;
    match best {
        Some(b) => {
            proof {
                let key = entries[b as int].0;
                lemma_key_index(entries, b as int);
                assert forall|other: Seq<char>| #[trigger]
                    covers(map, target@, other) implies other.len() <= key.len() by {
                    let j = key_index(entries, other);
                    assert(entries[j].0 == other);
                }
                assert(longest_cover(map, target@, key));
                let chosen = choose|k: Seq<char>| longest_cover(map, target@, k);
                lemma_longest_cover_unique(map, target@, key, chosen);
            }
            Some(levels.value_at(b))
        },
        None => {
            proof {
                assert forall|key: Seq<char>| !covers(map, target@, key) by {
                    if covers(map, target@, key) {
                        let j = key_index(entries, key);
                        assert(entries[j].0 == key);
                    }
                }
            }
            match &filter.global_level {
                Some(l) => Some(l),
                None => None,
            }
        },
    }
}

/// The level gate alone: the event's level number reaches the number that
/// the filter requires for the event's target.
pub fn level_gate(event: &LogEvent, filter: &LogFilter) -> (pass: bool)
    ensures
        pass == passes_level(filter@, event@),
{
    match resolve_level(filter, event.target.as_str()) {
        Some(required) => level_to_number(event.level.as_str()) >= level_to_number(
            required.as_str(),
        ),
        None => true,
    }
}

/// Whether `hay` contains `needle` as it stands, case and all.
pub fn contains_text(hay: &str, needle: &str) -> (found: bool)
    ensures
        found == contains_slice(hay@, needle@),
{
    str_contains(hay, needle)
}

/// Whether `text` contains `wanted`, ignoring case; an absent or empty
/// `wanted` is contained in every text.
pub fn text_gate(wanted: &Option<String>, text: &str) -> (pass: bool)
    ensures
        pass == passes_text(crate::event::opt_text(*wanted), text@),
{
    match wanted {
        Some(w) => {
            if w.as_str().is_empty() {
                true
            } else {
                let hay = text.to_lowercase();
                let needle = w.as_str().to_lowercase();
                contains_text(hay.as_str(), needle.as_str())
            }
        },
        None => true,
    }
}

/// Whether an event satisfies a filter.
pub fn matches_filter(event: &LogEvent, filter: &LogFilter) -> (pass: bool)
    ensures
        pass == accepts(filter@, event@),
{
    level_gate(event, filter) && text_gate(&filter.target, event.target.as_str()) && text_gate(
        &filter.search,
        event.message.as_str(),
    )
}

} // verus!
