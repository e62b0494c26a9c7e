//! Append-only event journal kept in memory: each event gets the next
//! sequence number (its position), and events are read back from a
//! sequence number or in a range of them.
use vstd::prelude::*;
use crate::common::error::TradingError;

verus! {

/// Number of sequence numbers from `from` (inclusive) to `to` (exclusive)
/// that are in a journal of `len` events.
pub open spec fn range_len(len: int, from: int, to: int) -> int {
    let a = if from < len { from } else { len };
    let b = if to < len { to } else { len };
    if a < b { b - a } else { 0 }
}

/// Journal of events kept in memory.
pub struct InMemoryJournal<E> {
    events: Vec<E>,
}

impl<E: Clone> InMemoryJournal<E> {
    /// The events journaled, by sequence number.
    pub closed spec fn entries(&self) -> Seq<E> {
        self.events@
    }

    /// An empty journal.
    pub fn new() -> (j: Self)
        ensures
            j.entries() == Seq::<E>::empty(),
    {
        InMemoryJournal { events: Vec::new() }
    }

    /// Appends a copy of `event`; returns its sequence number, the number of
    /// events journaled before it.
    pub fn append(&mut self, event: &E) -> (r: Result<u64, TradingError>)
        requires
            old(self).entries().len() < u64::MAX,
        ensures
            r == Ok::<u64, TradingError>(old(self).entries().len() as u64),
            final(self).entries().len() == old(self).entries().len() + 1,
            final(self).entries().drop_last() == old(self).entries(),
            cloned(*event, final(self).entries().last()),
    {
        let e = event.clone();
        self.events.push(e);
        proof {
            assert(self.events@.drop_last() =~= old(self).events@);
        }
        Ok((self.events.len() - 1) as u64)
    }

    /// Copies of the events with sequence numbers `from` to `to` (exclusive),
    /// as far as the journal goes.
    fn copy_range(&self, from: usize, to: usize) -> (r: Vec<E>)
        requires
            from <= to <= self.entries().len(),
        ensures
            r@.len() == to - from,
            forall|i: int| 0 <= i < r@.len() ==> cloned(self.entries()[from + i], #[trigger] r@[i]),
    {
        let mut r: Vec<E> = Vec::new();
        let mut i: usize = from;
        while i < to
            invariant
                from <= i <= to,
                to <= self.events@.len(),
                r@.len() == i - from,
                forall|k: int| 0 <= k < r@.len() ==> cloned(self.events@[from + k], #[trigger] r@[k]),
            decreases to - i,
        {
            r.push(self.events[i].clone());
            i += 1;
        }
        r
    }

    /// Copies of the events from sequence number `sequence_number` on.
    pub fn read_from(&self, sequence_number: u64) -> (r: Result<Vec<E>, TradingError>)
        ensures
            r matches Ok(v) && v@.len() == range_len(self.entries().len() as int, sequence_number as int,
                self.entries().len() as int)
                && forall|i: int| 0 <= i < v@.len() ==> cloned(self.entries()[sequence_number + i], #[trigger] v@[i]),
    {
        let len = self.events.len();
        let from: usize = if (sequence_number as u128) < (len as u128) { sequence_number as usize } else { len };
        Ok(self.copy_range(from, len))
    }

    /// Copies of the events with sequence numbers `start_sequence` to
    /// `end_sequence` (exclusive), as far as the journal goes.
    pub fn read_range(&self, start_sequence: u64, end_sequence: u64) -> (r: Result<Vec<E>, TradingError>)
        requires
            start_sequence <= end_sequence,
        ensures
            r matches Ok(v) && v@.len() == range_len(self.entries().len() as int, start_sequence as int,
                end_sequence as int)
                && forall|i: int| 0 <= i < v@.len() ==> cloned(self.entries()[start_sequence + i], #[trigger] v@[i]),
    {
        let len = self.events.len();
        let from: usize = if (start_sequence as u128) < (len as u128) { start_sequence as usize } else { len };
        let to: usize = if (end_sequence as u128) < (len as u128) { end_sequence as usize } else { len };
        Ok(self.copy_range(from, to))
    }

    /// The number of events journaled (the sequence number the next one gets).
    pub fn current_sequence(&self) -> (r: Result<u64, TradingError>)
        ensures
            r == Ok::<u64, TradingError>(self.entries().len() as u64),
    {
        Ok(self.events.len() as u64)
    }

    /// Nothing is buffered: always succeeds.
    pub fn flush(&self) -> (r: Result<(), TradingError>)
        ensures
            r is Ok,
    {
        Ok(())
    }

    /// Copies of all the events, in order.
    pub fn replay_all(&self) -> (r: Result<Vec<E>, TradingError>)
        ensures
            r matches Ok(v) && v@.len() == self.entries().len()
                && forall|i: int| 0 <= i < v@.len() ==> cloned(self.entries()[i], #[trigger] v@[i]),
    {
        self.read_from(0)
    }
}

/// An event appended at sequence number `s` is what reading the range
/// `s..s + 1` gives back, and the events before it stay as they were: with
/// `before` and `after` the entries around an `append` of `e`, the range
/// holds one event, a copy of `e`.
pub proof fn lemma_append_then_read<E: Clone>(before: Seq<E>, after: Seq<E>, e: E)
    requires
        after.len() == before.len() + 1,
        after.drop_last() == before,
        cloned(e, after.last()),
    ensures
        range_len(after.len() as int, before.len() as int, (before.len() + 1) as int) == 1,
        cloned(e, after[before.len() as int]),
        forall|i: int| 0 <= i < before.len() ==> after[i] == before[i],
{
    assert forall|i: int| 0 <= i < before.len() implies after[i] == before[i] by {
        assert(after.drop_last()[i] == after[i]);
    }
}

} // verus!
