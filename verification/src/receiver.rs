//! A reader that follows the shared log: it keeps its own position and catches up with the
//! writer's, handing every line it passes to a callback.

use vstd::prelude::*;
use std::sync::Arc;
use crate::logdata::LogData;
use crate::logline::{Logline, LockedLogline};
use crate::ring::{advance, next_slot, pending_slots, ring_distance, slots_between, successor, lemma_distance_reaches};
use crate::sync::{lock_position, read_position, wait_on_position, line_ref, share, locked_position_mutex, guarded_position, guarded_line, PositionGuard, LineGuard};

verus! {

/// A reader of the shared log. Its position is the next slot it will hand out.
pub struct Receiver<const N: usize> {
    position: usize,
    data: Arc<LogData<N>>,
}

impl<const N: usize> View for Receiver<N> {
    type V = usize;

    /// The reader's position.
    closed spec fn view(&self) -> usize {
        self.position
    }
}

/// `f` was handed a line that was read while holding `lock`'s lock: the line the held
/// guard gave access to.
pub open spec fn handed_under_lock<'a, F: Fn(&Logline)>(f: F, lock: LockedLogline) -> bool {
    exists|guard: LineGuard<'a>, line: &Logline|
        #![trigger lock.is_locked_by(guard), f.ensures((line,), ())]
        lock.is_locked_by(guard) && line@ == guarded_line(guard) && f.ensures((line,), ())
}

impl<const N: usize> Receiver<N> {
    /// The log this reader follows.
    pub closed spec fn log(self) -> LogData<N> {
        *self.data
    }

    #[verifier::type_invariant]
    spec fn in_ring(self) -> bool {
        N == 0 || self.position < N
    }

    /// A reader of `logdata` that starts at slot 0.
    pub fn new(logdata: &Arc<LogData<N>>) -> (receiver: Self)
        ensures
            receiver@ == 0,
            receiver.log() == **logdata,
    {
        Receiver { position: 0, data: share(logdata) }
    }

    /// The reader's position.
    pub fn position(&self) -> (position: usize)
        ensures
            position == self@,
            N > 0 ==> position < N,
    {
        proof {
            use_type_invariant(self);
        }
        self.position
    }

    /// Takes the lock on the writer's position.
    fn reference_lock(&self) -> (guard: PositionGuard<'_>)
        ensures
            locked_position_mutex(guard) == self.log().reference,
    {
        lock_position(&self.data.reference)
    }

    /// Moves the reader one slot on, wrapping to slot 0 after the last slot, and returns
    /// its new position.
    pub fn increment(&mut self) -> (position: usize)
        ensures
            position == final(self)@,
            final(self)@ == next_slot(old(self)@ as int, N as int),
            final(self).log() == old(self).log(),
    {
        self.position = successor(self.position, N);
        self.position
    }

    /// The writer's position that the reader is to catch up with, and whether it waited
    /// for it. It takes the log's position lock and looks at the position found there:
    /// when that differs from the reader's, it is the position returned, without waiting.
    /// When the reader already stands on it, it waits until the writer notifies the log's
    /// condition variable and returns what the lock then holds, which another thread left
    /// there.
    pub fn upcoming_read(&self) -> (result: (usize, Ghost<bool>))
        ensures
            !result.1@ ==> exists|found: PositionGuard<'_>|
                locked_position_mutex(found) == self.log().reference && #[trigger] guarded_position(found) != self@
                    && result.0 == guarded_position(found),
            result.1@ ==> exists|found: PositionGuard<'_>|
                locked_position_mutex(found) == self.log().reference && #[trigger] guarded_position(found) == self@,
            result.1@ ==> exists|last: PositionGuard<'_>|
                locked_position_mutex(last) == self.log().reference && result.0 == #[trigger] guarded_position(last),
    {
        let mut guard = self.reference_lock();
        let ghost found = guard;
        let waited = self.position == read_position(&guard);
        if waited {
            wait_on_position(&*self.data, &mut guard);
        }
        let ghost last = guard;
        let upcoming = read_position(&guard);
        assert(locked_position_mutex(found) == self.log().reference);
        assert(locked_position_mutex(last) == self.log().reference);
        (upcoming, Ghost(waited))
    }

    /// Hands `f` every line from the reader's position up to, not including, `upcoming`
    /// (the slot the writer may be filling), each read under its lock, in ring order, and
    /// returns the slots it visited: `slots_between(position, upcoming, N)`. For every
    /// visited slot, `f` was handed the line read under that slot's lock. The reader then
    /// stands on `upcoming`, still following the same log.
    pub fn catch_up<F>(&mut self, upcoming: usize, f: F) -> (visited: Vec<usize>) where
        F: Fn(&Logline),

        requires
            upcoming < N,
            forall|line: &Logline| #[trigger] f.requires((line,)),
        ensures
            final(self)@ == upcoming,
            visited@.len() == ring_distance(old(self)@ as int, upcoming as int, N as int),
            forall|k: int|
                0 <= k < visited@.len() ==> visited@[k] == slots_between(old(self)@ as int, upcoming as int, N as int)[k],
            forall|k: int|
                0 <= k < visited@.len() ==> #[trigger] handed_under_lock(f, old(self).log().data[visited@[k] as int]),
            final(self).log() == old(self).log(),
    {
        proof {
            use_type_invariant(&*self);
        }
        let start = self.position;
        let ghost followed = self.log();
        let slots = pending_slots(start, upcoming, N);
        let mut i: usize = 0;
        while i < slots.len()
            invariant
                0 < N,
                start < N,
                upcoming < N,
                i <= slots@.len(),
                slots@.len() == ring_distance(start as int, upcoming as int, N as int),
                forall|k: int| 0 <= k < slots@.len() ==> slots@[k] == slots_between(start as int, upcoming as int, N as int)[k],
                self@ == advance(start as int, i as nat, N as int),
                self.log() == followed,
                forall|k: int| 0 <= k < i ==> #[trigger] handed_under_lock(f, followed.data[slots@[k] as int]),
                forall|line: &Logline| #[trigger] f.requires((line,)),
            decreases slots@.len() - i,
        {
            let slot = slots[i];
            proof {
                crate::ring::lemma_advance_in_ring(start as int, i as nat, N as int);
            }
            {
                let guard = self.data.data[slot].lock();
                let line = line_ref(&guard);
                f(line);
                proof {
                    assert(followed.data[slot as int].is_locked_by(guard));
                    assert(handed_under_lock(f, followed.data[slot as int]));
                }
            }
            self.increment();
            i += 1;
        }
        proof {
            lemma_distance_reaches(start as int, upcoming as int, N as int);
        }
        slots
    }
}

} // verus!
