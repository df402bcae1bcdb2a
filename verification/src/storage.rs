//! The ring of recent events: a bounded queue that evicts its oldest entry,
//! answers filtered and paginated queries, and hands every new event to the
//! live bus.

use vstd::prelude::*;
use std::collections::VecDeque;
use tokio::sync::broadcast::error::SendError;
use tokio::sync::broadcast::{Receiver, Sender};
use crate::event::{event_views, LogEvent, LogEventView};
use crate::filter::{accepts, matches_filter, LogFilter, LogFilterView, SortOrder};
use crate::text::{lemma_lex_total, lemma_lex_transitive, lex_less, str_less};

verus! {

/// Number of events that a ring keeps unless told otherwise.
pub const DEFAULT_MAX_EVENTS: usize = 10_000;

/// Number of events that the live bus holds for subscribers that fall behind.
pub const BROADCAST_CAPACITY: usize = 100;

/// The sending half of tokio's broadcast channel.
#[verifier::external_type_specification]
#[verifier::external_body]
#[verifier::reject_recursive_types(T)]
pub struct ExSender<T>(Sender<T>);

/// The receiving half of tokio's broadcast channel.
#[verifier::external_type_specification]
#[verifier::external_body]
#[verifier::reject_recursive_types(T)]
pub struct ExReceiver<T>(Receiver<T>);

/// The error of tokio's `Sender::send`, which hands the value back.
#[verifier::external_type_specification]
#[verifier::external_body]
#[verifier::reject_recursive_types(T)]
pub struct ExSendError<T>(SendError<T>);

/// The channel that a receiver listens on, named by the sender that the
/// receiver was made from.
pub uninterp spec fn bus_of(rx: Receiver<LogEvent>) -> Sender<LogEvent>;

/// The number of events that a channel was made to hold back for receivers
/// that fall behind. tokio keeps the next power of two of it in slots.
pub uninterp spec fn backlog_of(tx: Sender<LogEvent>) -> nat;

/// `tokio::sync::broadcast::channel`: a channel made to hold back `capacity`
/// events, and a first receiver that listens on it. tokio panics on a
/// capacity of zero or above `usize::MAX / 2`, which `requires` leaves out.
#[verifier::external_body]
fn open_channel(capacity: usize) -> (halves: (Sender<LogEvent>, Receiver<LogEvent>))
    requires
        0 < capacity <= usize::MAX / 2,
    ensures
        backlog_of(halves.0) == capacity,
        bus_of(halves.1) == halves.0,
{
    tokio::sync::broadcast::channel(capacity)
}

/// `Sender::subscribe` of tokio's broadcast channel: a receiver that listens
/// on the sender's channel; tokio builds it from a clone of the one `Arc` that
/// the sender is made of. What the receiver will receive is not claimed.
/// tokio panics where the channel counts `usize::MAX / 4` receivers already.
#[verifier::external_body]
fn subscribe_on(tx: &Sender<LogEvent>) -> (rx: Receiver<LogEvent>)
    ensures
        bus_of(rx) == *tx,
{
    tx.subscribe()
}

/// `Sender::send` of tokio's broadcast channel: it never blocks, and fails
/// only by handing the value back when no receiver is alive. How many
/// receivers there are is not known here, so nothing is claimed of the result.
pub assume_specification<T>[ Sender::<T>::send ](tx: &Sender<T>, value: T) -> (sent: Result<
    usize,
    SendError<T>,
>)
;

/// `Clone` of tokio's broadcast `Sender`: another handle to the same channel.
/// The clone holds a clone of the one `Arc` that a sender is made of, so it
/// equals the sender it was made from.
pub assume_specification<T>[ <Sender<T> as Clone>::clone ](tx: &Sender<T>) -> (other: Sender<T>)
    ensures
        other == *tx,
;

/// The last `n` items of `s`; all of `s` where it has no more than `n`.
pub open spec fn last_n<A>(s: Seq<A>, n: nat) -> Seq<A> {
    if s.len() <= n {
        s
    } else {
        s.subrange(s.len() - n, s.len() as int)
    }
}

/// The content of a ring of capacity `cap` after `e` is pushed onto `ring`:
/// the last `cap` of the old content followed by `e`.
pub open spec fn ring_push(ring: Seq<LogEventView>, cap: nat, e: LogEventView) -> Seq<
    LogEventView,
> {
    last_n(ring.push(e), cap)
}

/// The content of a ring of capacity `cap` that started empty and took
/// `pushes` one after the other.
pub open spec fn ring_after(cap: nat, pushes: Seq<LogEventView>) -> Seq<LogEventView>
    decreases pushes.len(),
{
    if pushes.len() == 0 {
        Seq::empty()
    } else {
        ring_push(ring_after(cap, pushes.drop_last()), cap, pushes.last())
    }
}

/// After any sequence of pushes a ring holds the last `cap` of them in push
/// order: all of them where there were no more than `cap`, and so
/// `min(N, cap)` events after `N` pushes.
pub proof fn lemma_ring_after(cap: nat, pushes: Seq<LogEventView>)
    ensures
        ring_after(cap, pushes) == last_n(pushes, cap),
        ring_after(cap, pushes).len() == if pushes.len() <= cap {
            pushes.len()
        } else {
            cap
        },
    decreases pushes.len(),
{
    if pushes.len() > 0 {
        let before = pushes.drop_last();
        lemma_ring_after(cap, before);
        assert(before.push(pushes.last()) =~= pushes);
        assert(ring_after(cap, pushes) =~= last_n(pushes, cap));
    }
}

/// The filter predicate of `f` as a function on events.
pub open spec fn accepts_fn(f: LogFilterView) -> spec_fn(LogEventView) -> bool {
    |e: LogEventView| accepts(f, e)
}

/// The events that satisfy `f`, in their stored order.
pub open spec fn matching(events: Seq<LogEventView>, f: LogFilterView) -> Seq<LogEventView> {
    events.filter(accepts_fn(f))
}

/// Events stored oldest first, put in the order that a query asks for.
pub open spec fn ordered(events: Seq<LogEventView>, order: SortOrder) -> Seq<LogEventView> {
    match order {
        SortOrder::NewestFirst => events.reverse(),
        SortOrder::OldestFirst => events,
    }
}

/// One page: what is left of `events` after the first `offset`, cut to
/// `limit` items where there is a limit.
pub open spec fn page(events: Seq<LogEventView>, offset: nat, limit: Option<nat>) -> Seq<
    LogEventView,
> {
    let rest = if offset >= events.len() {
        Seq::empty()
    } else {
        events.skip(offset as int)
    };
    match limit {
        Some(l) => if l >= rest.len() {
            rest
        } else {
            rest.take(l as int)
        },
        None => rest,
    }
}

/// What a query returns: the matching events, ordered, then paginated.
pub open spec fn query_result(
    events: Seq<LogEventView>,
    f: LogFilterView,
    offset: nat,
    limit: Option<nat>,
) -> Seq<LogEventView> {
    page(ordered(matching(events, f), f.sort_order), offset, limit)
}

/// A page is the part of the list that starts after the first `offset` items
/// and has as many items as are left, but no more than `limit`. So a limit of
/// zero and an offset at or past the end both give an empty page.
pub proof fn lemma_page(events: Seq<LogEventView>, offset: nat, limit: Option<nat>)
    ensures
        page(events, offset, limit).len() <= events.len(),
        limit matches Some(l) ==> page(events, offset, limit).len() <= l,
        offset >= events.len() ==> page(events, offset, limit).len() == 0,
        offset <= events.len() ==> page(events, offset, limit).len() == match limit {
            Some(l) => if l <= events.len() - offset {
                l as int
            } else {
                events.len() - offset
            },
            None => events.len() - offset,
        },
        forall|k: int|
            0 <= k < page(events, offset, limit).len() ==> #[trigger] page(events, offset, limit)[k]
                == events[offset + k],
{
}

/// `matching` keeps the events that satisfy the filter and only those, so
/// that its length is the number of stored events that satisfy it.
pub proof fn lemma_matching(events: Seq<LogEventView>, f: LogFilterView)
    ensures
        matching(events, f).len() <= events.len(),
        forall|k: int|
            0 <= k < matching(events, f).len() ==> accepts(f, #[trigger] matching(events, f)[k]),
        forall|k: int|
            0 <= k < events.len() && accepts(f, #[trigger] events[k]) ==> matching(
                events,
                f,
            ).contains(events[k]),
{
    let pred = accepts_fn(f);
    events.lemma_filter_len(pred);
    assert forall|k: int| 0 <= k < matching(events, f).len() implies accepts(
        f,
        #[trigger] matching(events, f)[k],
    ) by {
        events.lemma_filter_pred(pred, k);
    }
    assert forall|k: int|
        0 <= k < events.len() && accepts(f, #[trigger] events[k]) implies matching(
        events,
        f,
    ).contains(events[k]) by {
        events.lemma_filter_contains(pred, k);
    }
}

/// An optional count as a natural number.
pub open spec fn opt_nat(n: Option<usize>) -> Option<nat> {
    match n {
        Some(v) => Some(v as nat),
        None => None,
    }
}

/// The events of `events` at the positions `hits`.
pub open spec fn picked(events: Seq<LogEventView>, hits: Seq<usize>) -> Seq<LogEventView> {
    hits.map_values(|k: usize| events[k as int])
}

/// The character sequences of a list of strings.
pub open spec fn string_views(list: Seq<String>) -> Seq<Seq<char>> {
    list.map_values(|s: String| s@)
}

/// Each item comes strictly before every later one in lexicographic order,
/// so that none occurs twice.
pub open spec fn strictly_ascending(list: Seq<Seq<char>>) -> bool {
    forall|i: int, j: int|
        0 <= i < j < list.len() ==> lex_less(#[trigger] list[i], #[trigger] list[j])
}

/// The targets that occur among `events`.
pub open spec fn targets_of(events: Seq<LogEventView>) -> Set<Seq<char>> {
    events.map_values(|e: LogEventView| e.target).to_set()
}

/// Puts `item` into a strictly ascending list at its place, unless it is
/// there already.
fn insert_ascending(list: &mut Vec<String>, item: &str)
    requires
        strictly_ascending(string_views(old(list)@)),
    ensures
        strictly_ascending(string_views(final(list)@)),
        string_views(final(list)@).to_set() == string_views(old(list)@).to_set().insert(item@),
{
    let n = list.len();
    let ghost before = string_views(list@);
    let mut p: usize = 0;
    while p < n && str_less(list[p].as_str(), item)
        invariant
            p <= n,
            n == list@.len(),
            before == string_views(list@),
            forall|j: int| 0 <= j < p ==> lex_less(#[trigger] before[j], item@),
        decreases n - p,
    {
        p += 1;
    }
    if p < n && !str_less(item, list[p].as_str()) {
        proof {
            lemma_lex_total(before[p as int], item@);
            assert(before.contains(item@));
            assert(before.to_set().insert(item@) =~= before.to_set());
        }
        return ;
    }
    list.insert(p, item.to_owned());
    proof {
        let after = string_views(list@);
        assert(after =~= before.insert(p as int, item@));
        assert forall|i: int, j: int| 0 <= i < j < after.len() implies lex_less(
            #[trigger] after[i],
            #[trigger] after[j],
        ) by {
            if j < p {
                assert(after[i] == before[i] && after[j] == before[j]);
            } else if j == p {
                assert(after[i] == before[i]);
            } else if i == p {
                assert(after[j] == before[j - 1]);
                if j - 1 > p {
                    lemma_lex_transitive(item@, before[p as int], before[j - 1]);
                }
            } else if i < p {
                assert(after[i] == before[i] && after[j] == before[j - 1]);
            } else {
                assert(after[i] == before[i - 1] && after[j] == before[j - 1]);
            }
        }
        assert forall|t: Seq<char>| after.contains(t) <==> (before.contains(t) || t == item@) by {
            if after.contains(t) {
                let i = choose|i: int| 0 <= i < after.len() && after[i] == t;
                if i < p {
                    assert(before[i] == t);
                } else if i > p {
                    assert(before[i - 1] == t);
                }
            }
            if before.contains(t) {
                let i = choose|i: int| 0 <= i < before.len() && before[i] == t;
                if i < p {
                    assert(after[i] == t);
                } else {
                    assert(after[i + 1] == t);
                }
            }
            if t == item@ {
                assert(after[p as int] == t);
            }
        }
        assert(after.to_set() =~= before.to_set().insert(item@));
    }
}

/// A bounded queue of events, oldest first, with the sender of the live bus.
/// The view is the content of the queue; `capacity` and `bus` state the rest.
pub struct LogStorage {
    events: VecDeque<LogEvent>,
    max_events: usize,
    tx: Sender<LogEvent>,
}

impl View for LogStorage {
    type V = Seq<LogEventView>;

    closed spec fn view(&self) -> Seq<LogEventView> {
        event_views(self.events@)
    }
}

impl Default for LogStorage {
    fn default() -> (storage: LogStorage)
        ensures
            storage@ == Seq::<LogEventView>::empty(),
            storage.capacity() == DEFAULT_MAX_EVENTS,
            backlog_of(storage.bus()) == BROADCAST_CAPACITY,
    {
        LogStorage::new()
    }
}

impl LogStorage {
    #[verifier::type_invariant]
    spec fn within_capacity(self) -> bool {
        self.events@.len() <= self.max_events
    }

    /// The most events that the ring keeps.
    pub closed spec fn capacity(&self) -> nat {
        self.max_events as nat
    }

    /// The sender of the live bus that belongs to this ring.
    pub closed spec fn bus(&self) -> Sender<LogEvent> {
        self.tx
    }

    /// An empty ring of the default capacity.
    pub fn new() -> (storage: LogStorage)
        ensures
            storage@ == Seq::<LogEventView>::empty(),
            storage.capacity() == DEFAULT_MAX_EVENTS,
            backlog_of(storage.bus()) == BROADCAST_CAPACITY,
    {
        LogStorage::with_capacity(DEFAULT_MAX_EVENTS)
    }

    /// An empty ring that keeps at most `max_events` events, with a live bus
    /// of its own that holds back `BROADCAST_CAPACITY` events.
    pub fn with_capacity(max_events: usize) -> (storage: LogStorage)
        ensures
            storage@ == Seq::<LogEventView>::empty(),
            storage.capacity() == max_events,
            backlog_of(storage.bus()) == BROADCAST_CAPACITY,
    {
        let (tx, _) = open_channel(BROADCAST_CAPACITY);
        let storage = LogStorage { events: VecDeque::new(), max_events, tx };
        assert(storage@ =~= Seq::empty());
        storage
    }

    /// Number of events in the ring; never more than the capacity.
    pub fn len(&self) -> (n: usize)
        ensures
            n == self@.len(),
            n <= self.capacity(),
    {
        proof {
            use_type_invariant(self);
        }
        self.events.len()
    }

    /// The capacity that the ring was made with.
    pub fn max_events(&self) -> (n: usize)
        ensures
            n == self.capacity(),
    {
        self.max_events
    }

    /// Whether the ring holds no event.
    pub fn is_empty(&self) -> (b: bool)
        ensures
            b == (self@.len() == 0),
    {
        self.events.len() == 0
    }

    /// Empties the ring. Its capacity and its bus stay.
    pub fn clear(&mut self)
        ensures
            final(self)@ == Seq::<LogEventView>::empty(),
            final(self).capacity() == old(self).capacity(),
            final(self).bus() == old(self).bus(),
    {
        let mut events: VecDeque<LogEvent> = VecDeque::new();
        core::mem::swap(&mut self.events, &mut events);
        assert(self@ =~= Seq::empty());
    }

    /// Appends `event` to the ring, evicting the oldest event first where the
    /// ring is full. A ring of capacity zero stays empty. Nothing is
    /// published: this is the half of `push` that needs exclusive access.
    pub fn store(&mut self, event: LogEvent)
        ensures
            final(self)@ == ring_push(old(self)@, old(self).capacity(), event@),
            final(self).capacity() == old(self).capacity(),
            final(self).bus() == old(self).bus(),
    {
        proof {
            use_type_invariant(&*self);
        }
        let ghost before = self@;
        if self.max_events == 0 {
            assert(before =~= Seq::empty());
            assert(self@ =~= ring_push(before, self.capacity(), event@));
            return ;
        }
        let mut events: VecDeque<LogEvent> = VecDeque::new();
        core::mem::swap(&mut self.events, &mut events);
        if events.len() >= self.max_events {
            let _ = events.pop_front();
        }
        events.push_back(event);
        assert(event_views(events@) =~= ring_push(before, self.capacity(), event@));
        core::mem::swap(&mut self.events, &mut events);
    }

    /// A handle to the live bus of this ring, to publish on without access to
    /// the ring. What is sent on it reaches the receivers that `subscribe`
    /// hands out.
    pub fn sender(&self) -> (handle: Sender<LogEvent>)
        ensures
            handle == self.bus(),
    {
        self.tx.clone()
    }

    /// Appends `event` to the ring as `store` does and then publishes it on
    /// the live bus. Publishing never waits for a subscriber, and an event
    /// that nobody listens for is dropped.
    pub fn push(&mut self, event: LogEvent)
        ensures
            final(self)@ == ring_push(old(self)@, old(self).capacity(), event@),
            final(self).capacity() == old(self).capacity(),
            final(self).bus() == old(self).bus(),
    {
        let published = event.clone();
        self.store(event);
        let _ = self.tx.send(published);
    }

    /// The positions of the events that satisfy `filter`, in stored order.
    fn matching_positions(&self, filter: &LogFilter) -> (hits: Vec<usize>)
        ensures
            picked(self@, hits@) == matching(self@, filter@),
            forall|k: int| 0 <= k < hits@.len() ==> (#[trigger] hits@[k]) < self@.len(),
    {
        let n = self.events.len();
        let ghost all = self@;
        let ghost pred = accepts_fn(filter@);
        let mut hits: Vec<usize> = Vec::new();
        let mut i: usize = 0;
        assert(all.take(0) =~= Seq::empty());
        assert(picked(all, hits@) =~= all.take(0).filter(pred));
        while i < n
            invariant
                i <= n,
                n == self.events@.len(),
                all == self@,
                pred == accepts_fn(filter@),
                forall|k: int| 0 <= k < hits@.len() ==> (#[trigger] hits@[k]) < i,
                picked(all, hits@) == all.take(i as int).filter(pred),
            decreases n - i,
        {
            let ghost old_hits = hits@;
            let pass = matches_filter(&self.events[i], filter);
            proof {
                assert(all.take(i as int + 1) =~= all.take(i as int).push(all[i as int]));
                Seq::lemma_filter_push(all.take(i as int), all[i as int], pred);
            }
            if pass {
                hits.push(i);
                assert(picked(all, hits@) =~= picked(all, old_hits).push(all[i as int]));
            }
            i += 1;
        }
        assert(all.take(n as int) =~= all);
        hits
    }

    /// The events that satisfy `filter`, in the order that the filter asks
    /// for, without the first `offset` of them (none are skipped where
    /// `offset` is absent) and cut to `limit` where there is one; with them,
    /// the number of events that satisfy the filter before any are skipped or
    /// cut. The events returned are copies.
    pub fn get_filtered(
        &self,
        filter: &LogFilter,
        limit: Option<usize>,
        offset: Option<usize>,
    ) -> (r: (Vec<LogEvent>, usize))
        ensures
            r.1 == matching(self@, filter@).len(),
            event_views(r.0@) == query_result(
                self@,
                filter@,
                match offset {
                    Some(o) => o as nat,
                    None => 0,
                },
                opt_nat(limit),
            ),
    {
        let hits = self.matching_positions(filter);
        let total = hits.len();
        let skipped = match offset {
            Some(o) => if o < total {
                o
            } else {
                total
            },
            None => 0,
        };
        let available = total - skipped;
        let count = match limit {
            Some(l) => if l < available {
                l
            } else {
                available
            },
            None => available,
        };
        let ghost all = self@;
        let ghost found = matching(all, filter@);
        let ghost sorted = ordered(found, filter@.sort_order);
        let ghost expected = query_result(
            all,
            filter@,
            match offset {
                Some(o) => o as nat,
                None => 0,
            },
            opt_nat(limit),
        );
        assert(expected.len() == count);
        assert forall|k: int| 0 <= k < count implies #[trigger] expected[k] == sorted[skipped
            + k] by {}
        let mut out: Vec<LogEvent> = Vec::new();
        let mut k: usize = 0;
        while k < count
            invariant
                k <= count,
                count <= total - skipped,
                total == hits@.len(),
                all == self@,
                found == picked(all, hits@),
                sorted == ordered(found, filter@.sort_order),
                forall|j: int| 0 <= j < hits@.len() ==> (#[trigger] hits@[j]) < all.len(),
                out@.len() == k,
                forall|j: int| 0 <= j < k ==> (#[trigger] out@[j])@ == sorted[skipped + j],
            decreases count - k,
        {
            let at = skipped + k;
            let position = match filter.sort_order {
                SortOrder::NewestFirst => hits[total - 1 - at],
                SortOrder::OldestFirst => hits[at],
            };
            let copy = self.events[position].clone();
            assert(copy@ == sorted[skipped + k]);
            out.push(copy);
            k += 1;
        }
        assert(event_views(out@) =~= expected);
        (out, total)
    }

    /// The targets of the stored events: each once, in ascending
    /// lexicographic order.
    pub fn get_targets(&self) -> (targets: Vec<String>)
        ensures
            strictly_ascending(string_views(targets@)),
            string_views(targets@).to_set() == targets_of(self@),
    {
        let n = self.events.len();
        let ghost all = self@.map_values(|e: LogEventView| e.target);
        let mut targets: Vec<String> = Vec::new();
        let mut i: usize = 0;
        assert(string_views(targets@).to_set() =~= all.take(0).to_set());
        while i < n
            invariant
                i <= n,
                n == self.events@.len(),
                all == self@.map_values(|e: LogEventView| e.target),
                strictly_ascending(string_views(targets@)),
                string_views(targets@).to_set() == all.take(i as int).to_set(),
            decreases n - i,
        {
            insert_ascending(&mut targets, self.events[i].target.as_str());
            proof {
                let grown = all.take(i as int + 1);
                let small = all.take(i as int);
                assert(grown =~= small.push(all[i as int]));
                assert forall|t: Seq<char>| grown.contains(t) <==> (small.contains(t) || t
                    == all[i as int]) by {
                    if grown.contains(t) {
                        let k = choose|k: int| 0 <= k < grown.len() && grown[k] == t;
                        if k < i {
                            assert(small[k] == t);
                        }
                    }
                    if small.contains(t) {
                        let k = choose|k: int| 0 <= k < small.len() && small[k] == t;
                        assert(grown[k] == t);
                    }
                    if t == all[i as int] {
                        assert(grown[i as int] == t);
                    }
                }
                assert(grown.to_set() =~= small.to_set().insert(all[i as int]));
            }
            i += 1;
        }
        assert(all.take(n as int) =~= all);
        targets
    }

    /// A receiver that listens on the live bus of this ring. It sees the
    /// events pushed after this call and none of those pushed before.
    pub fn subscribe(&self) -> (rx: Receiver<LogEvent>)
        ensures
            bus_of(rx) == self.bus(),
    {
        subscribe_on(&self.tx)
    }
}

} // verus!
