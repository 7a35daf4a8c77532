//! The event queue: a bounded buffer of verdict records that never makes the
//! producer wait. When it is full the oldest record gives way.

use vstd::prelude::*;
use std::collections::VecDeque;
use crate::engine::{OperationDescriptor, Verdict};

verus! {

/// One report to the management side.
#[derive(Clone, Debug, PartialEq, Eq)]
pub struct EventRecord {
    pub descriptor: OperationDescriptor,
    pub verdict: Verdict,
    /// The decision overran its time budget, or came back after the drain
    /// deadline.
    pub warning: bool,
    /// When the verdict was given.
    pub timestamp: u64,
}

/// The mathematical value of an `EventQueue`.
pub struct QueueView {
    /// The records held, oldest first.
    pub records: Seq<EventRecord>,
    pub capacity: usize,
    /// How many records gave way so far; the count stops at the largest value.
    pub dropped: u64,
}

/// A counter after one more event; it stops at the largest value.
pub open spec fn bump(n: u64) -> u64 {
    if n == u64::MAX {
        n
    } else {
        (n + 1) as u64
    }
}

/// A counter after `k` more events.
pub open spec fn bump_by(n: u64, k: int) -> u64 {
    if n + k >= u64::MAX {
        u64::MAX
    } else if k <= 0 {
        n
    } else {
        (n + k) as u64
    }
}

/// The queue after one record is put in.
pub open spec fn push_spec(q: QueueView, r: EventRecord) -> QueueView {
    if q.capacity == 0 {
        QueueView { dropped: bump(q.dropped), ..q }
    } else if q.records.len() >= q.capacity {
        QueueView { records: q.records.drop_first().push(r), dropped: bump(q.dropped), ..q }
    } else {
        QueueView { records: q.records.push(r), ..q }
    }
}

/// The queue after the records of `rs` are put in, first to last.
pub open spec fn push_all(q: QueueView, rs: Seq<EventRecord>) -> QueueView
    decreases rs.len(),
{
    if rs.len() == 0 {
        q
    } else {
        push_spec(push_all(q, rs.drop_last()), rs.last())
    }
}

/// The last `n` items of `s`, or all of `s` where it has fewer.
pub open spec fn newest<T>(s: Seq<T>, n: int) -> Seq<T> {
    if s.len() <= n {
        s
    } else if n <= 0 {
        Seq::empty()
    } else {
        s.subrange(s.len() - n, s.len() as int)
    }
}

/// A bounded queue of event records with a count of those that gave way.
pub struct EventQueue {
    records: VecDeque<EventRecord>,
    capacity: usize,
    dropped: u64,
}

impl View for EventQueue {
    type V = QueueView;

    closed spec fn view(&self) -> QueueView {
        QueueView { records: self.records@, capacity: self.capacity, dropped: self.dropped }
    }
}

pub(crate) fn bump_counter(n: u64) -> (m: u64)
    ensures
        m == bump(n),
{
    if n == u64::MAX {
        n
    } else {
        n + 1
    }
}

impl EventQueue {
    /// The invariant of a queue: it holds no more than its capacity.
    pub open spec fn wf(&self) -> bool {
        self@.records.len() <= self@.capacity
    }

    /// An empty queue that holds up to `capacity` records.
    pub fn new(capacity: usize) -> (q: EventQueue)
        ensures
            q.wf(),
            q@ == (QueueView { records: Seq::empty(), capacity, dropped: 0 }),
    {
        EventQueue { records: VecDeque::new(), capacity, dropped: 0 }
    }

    /// Puts a record in. A full queue first lets its oldest record go and
    /// counts it; a queue of capacity zero counts the new record itself.
    pub fn push(&mut self, record: EventRecord)
        requires
            old(self).wf(),
        ensures
            final(self).wf(),
            final(self)@ == push_spec(old(self)@, record),
    {
        if self.capacity == 0 {
            self.dropped = bump_counter(self.dropped);
            return ;
        }
        if self.records.len() >= self.capacity {
            let _ = self.records.pop_front();
            self.dropped = bump_counter(self.dropped);
        }
        self.records.push_back(record);
    }

    /// Takes the oldest record out, if there is one.
    pub fn pop(&mut self) -> (r: Option<EventRecord>)
        requires
            old(self).wf(),
        ensures
            final(self).wf(),
            final(self)@.capacity == old(self)@.capacity,
            final(self)@.dropped == old(self)@.dropped,
            match r {
                Some(x) => old(self)@.records.len() > 0 && x == old(self)@.records[0]
                    && final(self)@.records == old(self)@.records.drop_first(),
                None => old(self)@.records.len() == 0 && final(self)@.records == old(self)@.records,
            },
    {
        self.records.pop_front()
    }

    /// The number of records held.
    pub fn len(&self) -> (n: usize)
        ensures
            n == self@.records.len(),
    {
        self.records.len()
    }

    pub fn is_empty(&self) -> (b: bool)
        ensures
            b == (self@.records.len() == 0),
    {
        self.records.len() == 0
    }

    pub fn capacity(&self) -> (n: usize)
        ensures
            n == self@.capacity,
    {
        self.capacity
    }

    /// How many records gave way so far.
    pub fn dropped(&self) -> (n: u64)
        ensures
            n == self@.dropped,
    {
        self.dropped
    }
}

/// Putting a record into a full queue lets exactly the oldest one go and
/// counts exactly one more.
pub proof fn lemma_full_queue_drops_oldest(q: QueueView, r: EventRecord)
    requires
        q.capacity > 0,
        q.records.len() == q.capacity,
        q.dropped < u64::MAX,
    ensures
        push_spec(q, r).records == q.records.drop_first().push(r),
        push_spec(q, r).records.len() == q.capacity,
        push_spec(q, r).dropped == q.dropped + 1,
        push_spec(q, r).capacity == q.capacity,
{
}

/// After any run of records is put into a queue, it holds the newest of what
/// it held and what came in, up to its capacity, and has counted the rest.
pub proof fn lemma_push_all(q: QueueView, rs: Seq<EventRecord>)
    requires
        q.records.len() <= q.capacity,
    ensures
        push_all(q, rs).capacity == q.capacity,
        push_all(q, rs).records == newest(q.records + rs, q.capacity as int),
        push_all(q, rs).dropped == bump_by(
            q.dropped,
            q.records.len() + rs.len() - q.capacity,
        ),
    decreases rs.len(),
{
    if rs.len() == 0 {
        assert(q.records + rs =~= q.records);
    } else {
        let before = rs.drop_last();
        lemma_push_all(q, before);
        let mid = push_all(q, before);
        let all = q.records + rs;
        assert(q.records + before =~= all.drop_last());
        assert(all.last() == rs.last());
        assert(push_spec(mid, rs.last()).records =~= newest(all, q.capacity as int));
    }
}

/// Putting one record more than its capacity into an empty queue lets exactly
/// the first one go and counts exactly one.
pub proof fn lemma_overflow_by_one(q: QueueView, rs: Seq<EventRecord>)
    requires
        q.records.len() == 0,
        q.dropped < u64::MAX,
        rs.len() == q.capacity + 1,
    ensures
        push_all(q, rs).records == rs.drop_first(),
        push_all(q, rs).dropped == q.dropped + 1,
{
    lemma_push_all(q, rs);
    assert(q.records + rs =~= rs);
    assert(newest(rs, q.capacity as int) =~= rs.drop_first());
}

} // verus!
