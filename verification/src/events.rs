//! Bounded per-task buffer of progress events, for resubscribe and replay.
//!
//! Events get consecutive sequence numbers starting at 0. The buffer holds at
//! most 1000 events or 1 MiB of encoded events, whichever bound is reached
//! first; beyond that the oldest events are evicted (FIFO).

use vstd::prelude::*;
use std::collections::VecDeque;
use crate::outside::{json_string_byte_len, now_unix_seconds};
use crate::text::json_quoted_len;
use crate::protocol::VerifyProgressEvent;

verus! {

/// A buffered progress event with its sequence number.
#[derive(Debug, Clone)]
pub struct BufferedEvent {
    pub seq: u64,
    pub event: VerifyProgressEvent,
    pub timestamp: i64,
}

impl BufferedEvent {
    /// An exact copy.
    pub fn duplicate(&self) -> (r: Self)
        ensures
            r == *self,
    {
        BufferedEvent { seq: self.seq, event: self.event.duplicate(), timestamp: self.timestamp }
    }
}

/// Bytes of `{"stream":"stdout","chunk":` plus the closing `}` around the
/// encoded chunk (the same for `stderr`).
pub open spec fn event_frame_len() -> nat {
    28
}

/// Size of an event's JSON encoding (`{"stream":...,"chunk":...}`).
pub open spec fn event_size(e: VerifyProgressEvent) -> nat {
    event_frame_len() + json_quoted_len(e.chunk_spec())
}

/// Sum of recorded sizes.
pub open spec fn bytes_of(sizes: Seq<usize>) -> nat
    decreases sizes.len(),
{
    if sizes.len() == 0 {
        0
    } else {
        (sizes[0] + bytes_of(sizes.drop_first())) as nat
    }
}

pub proof fn lemma_bytes_push(sizes: Seq<usize>, x: usize)
    ensures
        bytes_of(sizes.push(x)) == bytes_of(sizes) + x,
    decreases sizes.len(),
{
    let pushed = sizes.push(x);
    if sizes.len() > 0 {
        assert(pushed[0] == sizes[0]);
        assert(pushed.drop_first() =~= sizes.drop_first().push(x));
        lemma_bytes_push(sizes.drop_first(), x);
        assert(bytes_of(pushed) == sizes[0] + bytes_of(pushed.drop_first()));
    } else {
        assert(pushed[0] == x);
        assert(pushed.drop_first() =~= sizes);
        assert(bytes_of(sizes) == 0);
        assert(bytes_of(pushed) == x + bytes_of(pushed.drop_first()));
    }
}

/// Encoded size of an event, in bytes.
pub fn event_byte_len(e: &VerifyProgressEvent) -> (n: usize)
    ensures
        n == event_size(*e),
        n <= isize::MAX + 28,
{
    let chunk = e.chunk();
    28 + json_string_byte_len(chunk.as_str())
}

/// Bounded event buffer of one task.
#[derive(Debug, Clone)]
pub struct EventBuffer {
    events: VecDeque<BufferedEvent>,
    sizes: VecDeque<usize>,
    next_seq: u64,
    max_events: usize,
    max_bytes: usize,
    current_bytes: usize,
}

pub struct EventBufferView {
    /// The buffered events, oldest first.
    pub events: Seq<BufferedEvent>,
    /// The size each buffered event is counted with, in the same order.
    pub sizes: Seq<usize>,
    /// The sequence number the next event gets (= number of events pushed).
    pub next_seq: u64,
}

impl View for EventBuffer {
    type V = EventBufferView;

    closed spec fn view(&self) -> EventBufferView {
        EventBufferView { events: self.events@, sizes: self.sizes@, next_seq: self.next_seq }
    }
}

pub open spec fn max_events_spec() -> nat {
    1000
}

pub open spec fn max_bytes_spec() -> nat {
    1_048_576
}

/// Every buffered event is counted with its encoded size.
pub open spec fn sizes_encoded(v: EventBufferView) -> bool {
    forall|i: int| 0 <= i < v.sizes.len() ==> #[trigger] v.sizes[i] == event_size(v.events[i].event)
}

/// The consecutive sequence numbers just below `next_seq`.
pub open spec fn consecutive(events: Seq<BufferedEvent>, next_seq: u64) -> bool {
    &&& events.len() <= next_seq
    &&& forall|k: int|
        0 <= k < events.len() ==> #[trigger] events[k].seq == next_seq - events.len() + k
}

impl EventBuffer {
    /// The buffer's invariant: one size per event, the events carry the
    /// consecutive sequence numbers just below `next_seq`, and both bounds
    /// hold.
    pub closed spec fn wf(&self) -> bool {
        &&& self.max_events == max_events_spec()
        &&& self.max_bytes == max_bytes_spec()
        &&& self.sizes@.len() == self.events@.len()
        &&& self.current_bytes == bytes_of(self.sizes@)
        &&& self.events@.len() <= self.max_events
        &&& self.current_bytes <= self.max_bytes
        &&& consecutive(self.events@, self.next_seq)
    }

    pub proof fn lemma_wf(&self)
        requires
            self.wf(),
        ensures
            self@.events.len() <= max_events_spec(),
            self@.sizes.len() == self@.events.len(),
            bytes_of(self@.sizes) <= max_bytes_spec(),
            consecutive(self@.events, self@.next_seq),
    {
    }

    /// An empty buffer with the default limits.
    pub fn new() -> (b: Self)
        ensures
            b.wf(),
            b@.events.len() == 0,
            b@.sizes.len() == 0,
            b@.next_seq == 0,
    {
        EventBuffer {
            events: VecDeque::with_capacity(1000),
            sizes: VecDeque::with_capacity(1000),
            next_seq: 0,
            max_events: 1000,
            max_bytes: 1_048_576,
            current_bytes: 0,
        }
    }

    /// Push a progress event stamped with the current time.
    pub fn push(&mut self, event: VerifyProgressEvent) -> (b: BufferedEvent)
        requires
            old(self).wf(),
            old(self)@.next_seq < u64::MAX,
        ensures
            final(self).wf(),
            b.seq == old(self)@.next_seq,
            b.event == event,
            push_result(old(self)@, b, event_size(event) as usize, final(self)@),
            sizes_encoded(old(self)@) ==> sizes_encoded(final(self)@),
    {
        let timestamp = now_unix_seconds();
        self.push_at(event, timestamp)
    }

    /// Push a progress event stamped `timestamp`, counted with its encoded
    /// size.
    pub fn push_at(&mut self, event: VerifyProgressEvent, timestamp: i64) -> (b: BufferedEvent)
        requires
            old(self).wf(),
            old(self)@.next_seq < u64::MAX,
        ensures
            final(self).wf(),
            b == (BufferedEvent { seq: old(self)@.next_seq, event, timestamp }),
            push_result(old(self)@, b, event_size(event) as usize, final(self)@),
            sizes_encoded(old(self)@) ==> sizes_encoded(final(self)@),
    {
        let size = event_byte_len(&event);
        assert(self.current_bytes + size <= usize::MAX) by {
            assert(isize::MAX + 28 + 1_048_576 <= usize::MAX);
        }
        let b = self.push_sized(event, timestamp, size);
        proof {
            if sizes_encoded(old(self)@) {
                let full_e = old(self)@.events.push(b);
                let full_s = old(self)@.sizes.push(size);
                let k = full_e.len() - self@.events.len();
                assert forall|i: int| 0 <= i < self@.sizes.len() implies #[trigger] self@.sizes[i]
                    == event_size(self@.events[i].event) by {
                    assert(self@.sizes[i] == full_s[i + k]);
                    assert(self@.events[i] == full_e[i + k]);
                }
            }
        }
        b
    }

    /// Push a progress event stamped `timestamp` and counted as `size`
    /// bytes, evicting the oldest events while either bound is exceeded.
    pub fn push_sized(&mut self, event: VerifyProgressEvent, timestamp: i64, size: usize) -> (b:
        BufferedEvent)
        requires
            old(self).wf(),
            old(self)@.next_seq < u64::MAX,
            bytes_of(old(self)@.sizes) + size <= usize::MAX,
        ensures
            final(self).wf(),
            b == (BufferedEvent { seq: old(self)@.next_seq, event, timestamp }),
            push_result(old(self)@, b, size, final(self)@),
    {
        let seq = self.next_seq;
        self.next_seq = self.next_seq + 1;
        let buffered = BufferedEvent { seq, event, timestamp };
        let ghost before_e = self.events@;
        let ghost before_s = self.sizes@;
        proof {
            lemma_bytes_push(before_s, size);
        }
        self.events.push_back(buffered.duplicate());
        self.sizes.push_back(size);
        self.current_bytes = self.current_bytes + size;
        let ghost full_e = self.events@;
        let ghost full_s = self.sizes@;
        // Evict FIFO while over capacity.
        while self.events.len() > self.max_events || self.current_bytes > self.max_bytes
            invariant
                self.max_events == max_events_spec(),
                self.max_bytes == max_bytes_spec(),
                self.sizes@.len() == self.events@.len(),
                self.current_bytes == bytes_of(self.sizes@),
                self.next_seq == seq + 1,
                full_e == before_e.push(buffered),
                full_s == before_s.push(size),
                full_e.len() == full_s.len(),
                full_e.len() >= self.events@.len(),
                self.events@ == full_e.skip(full_e.len() - self.events@.len()),
                self.sizes@ == full_s.skip(full_s.len() - self.sizes@.len()),
                self.events@.len() < full_e.len() ==> eviction_forced(
                    full_s,
                    self.events@.len() as int,
                ),
                consecutive(self.events@, self.next_seq),
            decreases self.events@.len(),
        {
            let ghost cur_e = self.events@;
            let ghost cur_s = self.sizes@;
            assert(cur_e.len() > 0);
            let _ = self.events.pop_front();
            let evicted = self.sizes.pop_front();
            match evicted {
                Some(n) => {
                    assert(cur_e.drop_first() =~= self.events@);
                    assert(cur_s.drop_first() =~= self.sizes@);
                    assert(self.events@ =~= full_e.skip(full_e.len() - self.events@.len()));
                    assert(self.sizes@ =~= full_s.skip(full_s.len() - self.sizes@.len()));
                    assert(full_s.skip(full_s.len() - self.sizes@.len() - 1) =~= cur_s);
                    assert(bytes_of(cur_s) == n + bytes_of(self.sizes@));
                    self.current_bytes = self.current_bytes - n;
                    assert(consecutive(self.events@, self.next_seq)) by {
                        assert forall|k: int| 0 <= k < self.events@.len() implies #[trigger] self.events@[k].seq
                            == self.next_seq - self.events@.len() + k by {
                            assert(self.events@[k] == cur_e[k + 1]);
                        }
                    }
                },
                None => {},
            }
        }
        buffered
    }

    /// All buffered events with `seq >= last_seq`, oldest first. Pass 0 to get
    /// every buffered event.
    pub fn events_since(&self, last_seq: u64) -> (r: Vec<BufferedEvent>)
        ensures
            r@ == self@.events.filter(since(last_seq)),
    {
        let mut out: Vec<BufferedEvent> = Vec::new();
        let mut i: usize = 0;
        while i < self.events.len()
            invariant
                i <= self.events@.len(),
                out@ == self.events@.take(i as int).filter(since(last_seq)),
            decreases self.events@.len() - i,
        {
            proof {
                reveal(Seq::filter);
                let t = self.events@.take(i as int + 1);
                assert(t.drop_last() =~= self.events@.take(i as int));
                assert(t.last() == self.events@[i as int]);
            }
            let e = &self.events[i];
            if e.seq >= last_seq {
                out.push(e.duplicate());
            }
            i = i + 1;
        }
        assert(self.events@.take(self.events@.len() as int) =~= self.events@);
        out
    }

    /// Current highest sequence number (0 if no events).
    pub fn current_seq(&self) -> (s: u64)
        ensures
            s == current_seq_of(self@),
    {
        self.next_seq.saturating_sub(1)
    }

    /// Maximum number of events held before FIFO eviction.
    pub fn max_events(&self) -> (n: usize)
        requires
            self.wf(),
        ensures
            n == max_events_spec(),
    {
        self.max_events
    }

    /// Maximum encoded bytes held before FIFO eviction.
    pub fn max_bytes(&self) -> (n: usize)
        requires
            self.wf(),
        ensures
            n == max_bytes_spec(),
    {
        self.max_bytes
    }

    /// The sequence number the next event gets.
    pub fn next_seq(&self) -> (n: u64)
        ensures
            n == self@.next_seq,
    {
        self.next_seq
    }
}

/// The sequence number of the latest event pushed (whether or not it is
/// still buffered), 0 before any.
pub open spec fn current_seq_of(v: EventBufferView) -> u64 {
    if v.next_seq == 0 {
        0
    } else {
        (v.next_seq - 1) as u64
    }
}

/// `states` are a buffer's views through the pushes that returned `pushed`,
/// each counted with the size at the same place in `sizes`: every push is
/// numbered with the state's next sequence number and leads to the next state.
pub open spec fn push_history(
    states: Seq<EventBufferView>,
    pushed: Seq<BufferedEvent>,
    sizes: Seq<usize>,
) -> bool {
    &&& states.len() == pushed.len() + 1
    &&& sizes.len() == pushed.len()
    &&& forall|i: int| 0 <= i < pushed.len() ==> #[trigger] pushed[i].seq == states[i].next_seq
    &&& forall|i: int|
        0 <= i < pushed.len() ==> #[trigger] push_result(states[i], pushed[i], sizes[i], states[i + 1])
}

/// Through a push history from `states[0]`, the state after `k` pushes is
/// numbered `k` on and holds the latest of the pushed events, in order.
proof fn lemma_history_prefix(
    states: Seq<EventBufferView>,
    pushed: Seq<BufferedEvent>,
    sizes: Seq<usize>,
    k: int,
)
    requires
        push_history(states, pushed, sizes),
        states[0].next_seq == 0,
        states[0].events.len() == 0,
        0 <= k <= pushed.len(),
    ensures
        states[k].next_seq == k,
        states[k].events.len() <= k,
        states[k].events == pushed.subrange(k - states[k].events.len(), k),
    decreases k,
{
    if k == 0 {
        assert(states[0].events =~= pushed.subrange(0, 0));
    } else {
        let j = k - 1;
        lemma_history_prefix(states, pushed, sizes, j);
        assert(push_result(states[j], pushed[j], sizes[j], states[j + 1]));
        let full = states[j].events.push(pushed[j]);
        let len = states[j].events.len();
        assert(full =~= pushed.subrange(j - len, k));
        assert(states[k].events =~= pushed.subrange(k - states[k].events.len(), k));
    }
}

/// Successive pushes on a new buffer are numbered 0, 1, 2, ... without gap
/// or reuse, whatever is evicted on the way; after `n` pushes the next number
/// is `n`, the current one is `n - 1` (0 when none was pushed), and the
/// buffer holds the latest pushed events in the order they were pushed.
pub proof fn pushes_are_numbered_from_zero(
    states: Seq<EventBufferView>,
    pushed: Seq<BufferedEvent>,
    sizes: Seq<usize>,
)
    requires
        push_history(states, pushed, sizes),
        states[0].next_seq == 0,
        states[0].events.len() == 0,
    ensures
        forall|i: int| 0 <= i < pushed.len() ==> #[trigger] pushed[i].seq == i,
        states.last().next_seq == pushed.len(),
        current_seq_of(states.last()) == if pushed.len() == 0 {
            0
        } else {
            pushed.len() - 1
        },
        states.last().events.len() <= pushed.len(),
        states.last().events == pushed.subrange(
            pushed.len() - states.last().events.len(),
            pushed.len() as int,
        ),
{
    assert forall|i: int| 0 <= i < pushed.len() implies #[trigger] pushed[i].seq == i by {
        lemma_history_prefix(states, pushed, sizes, i);
    }
    lemma_history_prefix(states, pushed, sizes, pushed.len() as int);
}

/// Keeping the newest `m` of the first `k` sizes would break a bound.
pub open spec fn too_many(sizes: Seq<usize>, k: int, m: int) -> bool {
    m > max_events_spec() || bytes_of(sizes.subrange(k - m, k)) > max_bytes_spec()
}

/// Dropping the first `j` sizes never adds bytes.
proof fn lemma_bytes_skip(s: Seq<usize>, j: int)
    requires
        0 <= j <= s.len(),
    ensures
        bytes_of(s.skip(j)) <= bytes_of(s),
    decreases j,
{
    if j > 0 {
        lemma_bytes_skip(s, j - 1);
        let t = s.skip(j - 1);
        assert(t.drop_first() =~= s.skip(j));
        assert(bytes_of(t) == t[0] + bytes_of(t.drop_first()));
    } else {
        assert(s.skip(0) =~= s);
    }
}

/// Through a push history from an empty buffer, the state after `k` pushes
/// counts the newest of the first `k` sizes, and keeping one more of them
/// would have broken a bound whenever any was evicted.
proof fn lemma_history_sizes(
    states: Seq<EventBufferView>,
    pushed: Seq<BufferedEvent>,
    sizes: Seq<usize>,
    k: int,
)
    requires
        push_history(states, pushed, sizes),
        states[0].events.len() == 0,
        states[0].sizes.len() == 0,
        0 <= k <= pushed.len(),
    ensures
        states[k].sizes.len() == states[k].events.len(),
        states[k].sizes.len() <= k,
        states[k].sizes == sizes.subrange(k - states[k].sizes.len(), k),
        states[k].sizes.len() < k ==> too_many(sizes, k, states[k].sizes.len() + 1int),
    decreases k,
{
    if k == 0 {
        assert(states[0].sizes =~= sizes.subrange(0, 0));
    } else {
        let j = k - 1;
        lemma_history_sizes(states, pushed, sizes, j);
        assert(push_result(states[j], pushed[j], sizes[j], states[j + 1]));
        let len = states[j].sizes.len();
        let full = states[j].sizes.push(sizes[j]);
        assert(full =~= sizes.subrange(j - len, k));
        let n = states[k].sizes.len();
        assert(states[k].sizes =~= sizes.subrange(k - n, k));
        if n < len + 1 {
            assert(full.skip(full.len() - n - 1) =~= sizes.subrange(k - n - 1, k));
        } else if n < k {
            let before = sizes.subrange(j - len - 1, j);
            assert(sizes.subrange(k - n - 1, k) =~= before.push(sizes[j]));
            lemma_bytes_push(before, sizes[j]);
        }
    }
}

/// FIFO eviction over any number of pushes on a new buffer: the buffer
/// counts exactly the sizes of the events it holds, the newest ones, and it
/// holds as many as the bounds allow: keeping any more of the newest would
/// exceed the event count or the byte budget.
pub proof fn buffer_keeps_the_longest_suffix_within_bounds(
    states: Seq<EventBufferView>,
    pushed: Seq<BufferedEvent>,
    sizes: Seq<usize>,
)
    requires
        push_history(states, pushed, sizes),
        states[0].next_seq == 0,
        states[0].events.len() == 0,
        states[0].sizes.len() == 0,
    ensures
        ({
            let n = pushed.len() as int;
            let kept = states.last().events.len() as int;
            &&& kept <= n
            &&& states.last().events == pushed.subrange(n - kept, n)
            &&& states.last().sizes == sizes.subrange(n - kept, n)
            &&& kept <= max_events_spec()
            &&& bytes_of(states.last().sizes) <= max_bytes_spec()
            &&& forall|m: int| kept < m <= n ==> #[trigger] too_many(sizes, n, m)
        }),
{
    let n = pushed.len() as int;
    pushes_are_numbered_from_zero(states, pushed, sizes);
    lemma_history_sizes(states, pushed, sizes, n);
    let kept = states.last().events.len() as int;
    if n > 0 {
        let i = n - 1;
        assert(push_result(states[i], pushed[i], sizes[i], states[i + 1]));
    }
    assert forall|m: int| kept < m <= n implies #[trigger] too_many(sizes, n, m) by {
        assert(too_many(sizes, n, kept + 1));
        let s = sizes.subrange(n - m, n);
        lemma_bytes_skip(s, m - kept - 1);
        assert(s.skip(m - kept - 1) =~= sizes.subrange(n - kept - 1, n));
    }
}

/// Selects the events with `seq >= last_seq`.
pub open spec fn since(last_seq: u64) -> spec_fn(BufferedEvent) -> bool {
    |e: BufferedEvent| e.seq >= last_seq
}

/// Keeping the newest `n + 1` of the sizes `full` would break a bound.
pub open spec fn eviction_forced(full: Seq<usize>, n: int) -> bool {
    n + 1 > max_events_spec() || bytes_of(full.skip(full.len() - n - 1)) > max_bytes_spec()
}

/// After pushing `b` counted as `size`: the buffer keeps the longest suffix
/// of the old events followed by `b` that is within both bounds, with the
/// matching sizes, and the next sequence number moves on by one.
pub open spec fn push_result(old: EventBufferView, b: BufferedEvent, size: usize, new: EventBufferView) -> bool {
    let full_e = old.events.push(b);
    let full_s = old.sizes.push(size);
    let k = full_e.len() - new.events.len();
    &&& new.events.len() <= full_e.len()
    &&& new.events == full_e.skip(k)
    &&& new.sizes == full_s.skip(k)
    &&& new.events.len() <= max_events_spec()
    &&& bytes_of(new.sizes) <= max_bytes_spec()
    &&& (k > 0 ==> eviction_forced(full_s, new.events.len() as int))
    &&& new.next_seq == old.next_seq + 1
}

impl Default for EventBuffer {
    fn default() -> (b: Self)
        ensures
            b.wf(),
            b@.events.len() == 0,
            b@.sizes.len() == 0,
            b@.next_seq == 0,
    {
        EventBuffer::new()
    }
}

/// Where a replay since `last` starts among `len` buffered events whose
/// first sequence number is `first`.
pub open spec fn replay_start(first: int, len: int, last: int) -> int {
    if last <= first {
        0
    } else if last - first >= len {
        len
    } else {
        last - first
    }
}

/// Buffered events carry consecutive sequence numbers, so a replay since
/// `last` is exactly the buffered suffix starting at sequence `last` (all of
/// the buffer when `last` precedes it, nothing when it is past the end).
pub proof fn replay_is_a_suffix(events: Seq<BufferedEvent>, next_seq: u64, last: u64)
    requires
        events.len() <= next_seq,
        forall|k: int|
            0 <= k < events.len() ==> #[trigger] events[k].seq == next_seq - events.len() + k,
    ensures
        events.filter(since(last)) == events.skip(
            replay_start(next_seq - events.len(), events.len() as int, last as int),
        ),
    decreases events.len(),
{
    reveal(Seq::filter);
    let first = next_seq - events.len();
    if events.len() == 0 {
        assert(events.skip(0) =~= events);
    } else {
        let p = events.drop_last();
        let x = events.last();
        assert(x.seq == next_seq - 1);
        let n1 = (next_seq - 1) as u64;
        assert forall|k: int| 0 <= k < p.len() implies #[trigger] p[k].seq == n1 - p.len() + k by {
            assert(p[k] == events[k]);
        }
        replay_is_a_suffix(p, n1, last);
        let c = replay_start(first, events.len() as int, last as int);
        let c1 = replay_start(first, p.len() as int, last as int);
        if x.seq >= last {
            assert(c == c1);
            assert(events.skip(c) =~= p.skip(c1).push(x));
        } else {
            assert(c == events.len());
            assert(c1 == p.len());
            assert(events.skip(c) =~= Seq::<BufferedEvent>::empty());
            assert(p.skip(c1) =~= Seq::<BufferedEvent>::empty());
        }
    }
}

} // verus!
