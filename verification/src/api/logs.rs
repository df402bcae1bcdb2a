//! The query side of the API: from a request to a filter, and from the ring
//! to a response.

use vstd::prelude::*;
use crate::event::{event_views, opt_text, LogEvent};
use crate::fields::{
    distinct_keys, entries_map, has_key, key_index, lemma_key_index, Entries, StringMap,
};
use crate::filter::{LogFilter, LogFilterView, SortOrder};
use crate::storage::{
    matching, opt_nat, query_result, string_views, strictly_ascending, targets_of, LogStorage,
};
use crate::text::{str_equal, uppercase_of};

verus! {

/// What the API answers from: the ring.
pub struct LogsState {
    pub storage: LogStorage,
}

impl LogsState {
    /// The state of an API that answers from `storage`.
    pub fn new(storage: LogStorage) -> (state: LogsState)
        ensures
            state.storage == storage,
    {
        LogsState { storage }
    }
}

/// The body of a query. Every part may be absent.
#[derive(Debug)]
pub struct LogsRequest {
    /// Most events to return; all where absent.
    pub limit: Option<usize>,
    /// Number of events to skip.
    pub offset: usize,
    /// Minimum level, in any case.
    pub global_level: Option<String>,
    /// Minimum level by target prefix, in any case.
    pub target_levels: StringMap,
    /// Text that the message must contain; empty counts as absent.
    pub search: Option<String>,
    /// Text that the target must contain; empty counts as absent.
    pub target: Option<String>,
    /// `newest_first` or `oldest_first`; anything else means newest first.
    pub sort_order: Option<String>,
}

/// A request as plain values.
pub struct LogsRequestView {
    pub limit: Option<usize>,
    pub offset: usize,
    pub global_level: Option<Seq<char>>,
    pub target_levels: Map<Seq<char>, Seq<char>>,
    pub search: Option<Seq<char>>,
    pub target: Option<Seq<char>>,
    pub sort_order: Option<Seq<char>>,
}

impl View for LogsRequest {
    type V = LogsRequestView;

    open spec fn view(&self) -> LogsRequestView {
        LogsRequestView {
            limit: self.limit,
            offset: self.offset,
            global_level: opt_text(self.global_level),
            target_levels: self.target_levels@,
            search: opt_text(self.search),
            target: opt_text(self.target),
            sort_order: opt_text(self.sort_order),
        }
    }
}

/// The answer to a query: one page of events and the number of events that
/// matched before pagination.
#[derive(Debug)]
pub struct LogsResponse {
    pub logs: Vec<LogEvent>,
    pub total: usize,
}

/// The answer to a request for the known targets.
#[derive(Debug)]
pub struct TargetsResponse {
    pub targets: Vec<String>,
}

/// The answer to a request that cannot be read: what went wrong, and the
/// status that the answer is sent with.
#[derive(Debug)]
pub struct ErrorResponse {
    pub error: String,
    pub code: u16,
}

/// The status for a faulty request: the one that the host proposes where
/// that is a client error, else 400.
pub open spec fn fault_code(proposed: u16) -> u16 {
    if 400 <= proposed < 500 {
        proposed
    } else {
        400
    }
}

/// The answer to a faulty request. Its status is always a client error.
pub fn input_fault(proposed: u16, message: &str) -> (response: ErrorResponse)
    ensures
        response.error@ == message@,
        response.code == fault_code(proposed),
        400 <= response.code < 500,
{
    let code = if 400 <= proposed && proposed < 500 {
        proposed
    } else {
        400
    };
    ErrorResponse { error: message.to_owned(), code }
}

/// The sort order that a request names: oldest first only where it says
/// `oldest_first`.
pub open spec fn sort_order_of(name: Option<Seq<char>>) -> SortOrder {
    if name == Some("oldest_first"@) {
        SortOrder::OldestFirst
    } else {
        SortOrder::NewestFirst
    }
}

/// An optional text in upper case.
pub open spec fn upper_opt(text: Option<Seq<char>>) -> Option<Seq<char>> {
    match text {
        Some(t) => Some(uppercase_of(t)),
        None => None,
    }
}

/// The same keys, each with its value in upper case.
pub open spec fn upper_values(levels: Map<Seq<char>, Seq<char>>) -> Map<Seq<char>, Seq<char>> {
    Map::new(|k: Seq<char>| levels.dom().contains(k), |k: Seq<char>| uppercase_of(levels[k]))
}

/// An optional text, with the empty text counted as absent.
pub open spec fn non_empty(text: Option<Seq<char>>) -> Option<Seq<char>> {
    match text {
        Some(t) => if t.len() == 0 {
            None
        } else {
            Some(t)
        },
        None => None,
    }
}

/// The filter that a request stands for: levels in upper case, empty texts
/// dropped, the sort order parsed.
pub open spec fn filter_of(request: LogsRequestView) -> LogFilterView {
    LogFilterView {
        global_level: upper_opt(request.global_level),
        target_levels: upper_values(request.target_levels),
        search: non_empty(request.search),
        target: non_empty(request.target),
        sort_order: sort_order_of(request.sort_order),
    }
}

/// The sort order that a request names.
pub fn parse_sort_order(name: &Option<String>) -> (order: SortOrder)
    ensures
        order == sort_order_of(opt_text(*name)),
{
    match name {
        Some(n) => if str_equal(n.as_str(), "oldest_first") {
            SortOrder::OldestFirst
        } else {
            SortOrder::NewestFirst
        },
        None => SortOrder::NewestFirst,
    }
}

/// A copy of an optional text in upper case.
fn upper_copy(text: &Option<String>) -> (r: Option<String>)
    ensures
        opt_text(r) == upper_opt(opt_text(*text)),
{
    match text {
        Some(t) => Some(t.as_str().to_uppercase()),
        None => None,
    }
}

/// A copy of an optional text, absent where the text is empty.
fn non_empty_copy(text: &Option<String>) -> (r: Option<String>)
    ensures
        opt_text(r) == non_empty(opt_text(*text)),
{
    match text {
        Some(t) => if t.as_str().is_empty() {
            None
        } else {
            Some(t.clone())
        },
        None => None,
    }
}

/// The entries of `s` with each value in upper case.
pub open spec fn upper_entries(s: Entries) -> Entries {
    s.map_values(|p: (Seq<char>, Seq<char>)| (p.0, uppercase_of(p.1)))
}

/// Putting the values of distinct entries in upper case does to the map what
/// `upper_values` says.
proof fn lemma_upper_entries(s: Entries)
    requires
        distinct_keys(s),
    ensures
        distinct_keys(upper_entries(s)),
        entries_map(upper_entries(s)) == upper_values(entries_map(s)),
{
    let t = upper_entries(s);
    assert forall|k: Seq<char>| has_key(t, k) <==> has_key(s, k) by {
        if has_key(t, k) {
            let i = key_index(t, k);
            assert(s[i].0 == k);
        }
        if has_key(s, k) {
            let i = key_index(s, k);
            assert(t[i].0 == k);
        }
    }
    assert forall|i: int, j: int| 0 <= i < j < t.len() implies (#[trigger] t[i]).0 != (
    #[trigger] t[j]).0 by {
        assert(t[i].0 == s[i].0 && t[j].0 == s[j].0);
    }
    assert forall|k: Seq<char>| has_key(t, k) implies #[trigger] entries_map(t)[k]
        == uppercase_of(entries_map(s)[k]) by {
        let i = key_index(t, k);
        lemma_key_index(t, i);
        assert(s[i].0 == k);
        lemma_key_index(s, i);
    }
    assert(entries_map(t) =~= upper_values(entries_map(s)));
}

/// A copy of a map of levels with each level in upper case.
fn upper_levels(levels: &StringMap) -> (r: StringMap)
    ensures
        r@ == upper_values(levels@),
{
    let n = levels.len();
    let ghost source = levels.entries();
    let mut out = StringMap::new();
    let mut i: usize = 0;
    assert(out.entries() =~= upper_entries(source.take(0)));
    while i < n
        invariant
            i <= n,
            n == source.len(),
            source == levels.entries(),
            distinct_keys(source),
            out.entries() == upper_entries(source.take(i as int)),
        decreases n - i,
    {
        let ghost so_far = out.entries();
        let key = levels.key_at(i).clone();
        let value = levels.value_at(i).as_str().to_uppercase();
        proof {
            if has_key(so_far, key@) {
                let j = key_index(so_far, key@);
                assert(so_far[j].0 == source[j].0);
                assert(source[j].0 != source[i as int].0);
            }
        }
        let _ = out.insert(key, value);
        assert(out.entries() =~= upper_entries(source.take(i as int + 1)));
        i += 1;
    }
    proof {
        assert(source.take(n as int) =~= source);
        lemma_upper_entries(source);
    }
    out
}

/// The filter that a request stands for.
pub fn build_filter(request: &LogsRequest) -> (filter: LogFilter)
    ensures
        filter@ == filter_of(request@),
{
    LogFilter {
        global_level: upper_copy(&request.global_level),
        target_levels: upper_levels(&request.target_levels),
        search: non_empty_copy(&request.search),
        target: non_empty_copy(&request.target),
        sort_order: parse_sort_order(&request.sort_order),
    }
}

/// Answers a query from the ring: the page that the request asks for, and the
/// number of events that match its filter.
pub fn get_logs(state: &LogsState, request: &LogsRequest) -> (response: LogsResponse)
    ensures
        response.total == matching(state.storage@, filter_of(request@)).len(),
        event_views(response.logs@) == query_result(
            state.storage@,
            filter_of(request@),
            request.offset as nat,
            opt_nat(request.limit),
        ),
{
    let filter = build_filter(request);
    let (logs, total) = state.storage.get_filtered(&filter, request.limit, Some(request.offset));
    LogsResponse { logs, total }
}

/// The targets that occur in the ring, each once, in ascending order.
pub fn get_targets(state: &LogsState) -> (response: TargetsResponse)
    ensures
        strictly_ascending(string_views(response.targets@)),
        string_views(response.targets@).to_set() == targets_of(state.storage@),
{
    TargetsResponse { targets: state.storage.get_targets() }
}

} // verus!
