//! The shared log: a ring of `N` locked lines, the position of the line written last, and
//! a condition variable on which readers wait for the next line.

use vstd::prelude::*;
use crate::logline::{empty_line, LockedLogline, Logline, LINE_CAPACITY};
use crate::sync::{guarded_line, guarded_position, locked_position_mutex, LineGuard, PositionGuard};
use crate::ring::{next_slot, successor};
use crate::sync::{lock_position, read_position, write_position, line_mut, new_position_lock, position_made_with};

verus! {

/// Stack space, in bytes, above what the log itself takes, for the thread that builds it.
pub const STACK_HEADROOM: usize = 30_000;

/// The stack size of the thread that builds a log taking `data_size` bytes: room for ten
/// copies of it in a debug build (where the array is built on the stack with little
/// optimisation), for two otherwise, and `STACK_HEADROOM` more.
pub fn sub_thread_stack_size(data_size: usize, debug: bool) -> (size: usize)
    requires
        data_size * (if debug { 10int } else { 2int }) + STACK_HEADROOM <= usize::MAX,
    ensures
        size == data_size * (if debug { 10int } else { 2int }) + STACK_HEADROOM,
{
    let multiplier: usize = if debug { 10 } else { 2 };
    data_size * multiplier + STACK_HEADROOM
}

/// The log shared by the writer that fills it and the readers that follow it.
pub struct LogData<const N: usize> {
    pub data: [LockedLogline; N],
    pub reference: parking_lot::Mutex<usize>,
    pub cond: parking_lot::Condvar,
}

/// In one hold of the position lock `lock` of a ring of `n` slots, the position found
/// there was moved on to `position`, its successor, and the lock was left holding it.
pub open spec fn advanced_to<'a>(lock: parking_lot::Mutex<usize>, position: usize, n: int) -> bool {
    exists|found: PositionGuard<'a>, left: PositionGuard<'a>|
        #![trigger guarded_position(found), guarded_position(left)]
        locked_position_mutex(found) == lock && locked_position_mutex(left) == lock
            && position == next_slot(guarded_position(found) as int, n)
            && guarded_position(left) == position
}

/// `core::array::from_fn` with `LockedLogline::new` for every index: `N` locked lines, the
/// one at index `i` being what `LockedLogline::new` made for it, so created empty.
#[verifier::external_body]
fn locked_lines<const N: usize>() -> (lines: [LockedLogline; N])
    ensures
        forall|i: int| 0 <= i < N ==> #[trigger] lines[i].made_with() == empty_line(),
{
    core::array::from_fn(|_| LockedLogline::new())
}

impl<const N: usize> LogData<N> {
    /// An empty log of `N` lines whose position is the last slot, so that the first line
    /// received goes to slot 0.
    pub fn new() -> (log: Self)
        requires
            N > 0,
        ensures
            position_made_with(log.reference) == N - 1,
            forall|i: int| 0 <= i < N ==> #[trigger] log.data[i].made_with() == empty_line(),
    {
        LogData { data: locked_lines::<N>(), reference: new_position_lock(N - 1), cond: parking_lot::Condvar::new() }
    }

    /// Moves the position one slot on, wrapping to slot 0 after the last slot, and returns
    /// the new position: the successor of the position the lock held, which the lock is
    /// left holding.
    pub fn increment(&self) -> (position: usize)
        ensures
            advanced_to(self.reference, position, N as int),
            N > 0 ==> position < N,
            N == 0 ==> position == 0,
    {
        let mut guard = lock_position(&self.reference);
        let ghost found_guard = guard;
        let found = read_position(&guard);
        let position = successor(found, N);
        write_position(&mut guard, position);
        let ghost left_guard = guard;
        assert(advanced_to(self.reference, position, N as int)) by {
            assert(locked_position_mutex(found_guard) == self.reference);
            assert(locked_position_mutex(left_guard) == self.reference);
            assert(position == next_slot(guarded_position(found_guard) as int, N as int));
            assert(guarded_position(left_guard) == position);
        }
        position
    }

    /// Receives the next line: moves the position on (in one hold of its lock, from the
    /// position found there to its successor), wakes the readers, then, in one hold of the
    /// lock of the line at the new position, hands `fill` that line's buffer and leaves the
    /// line holding what `fill` wrote and recording how many bytes `fill` reports (none on
    /// an error, which is handed back). The line filled is the one at the position this
    /// call moved to. `fill` is handed the line's buffer of `LINE_CAPACITY` bytes and must not
    /// report more bytes than that.
    pub fn receive<F, E>(&self, fill: F) -> (r: Result<(), E>) where
        F: FnOnce(&mut [u8]) -> Result<usize, E>,

        requires
            N > 0,
            forall|buffer: &mut [u8]| buffer@.len() == LINE_CAPACITY ==> #[trigger] fill.requires((buffer,)),
            forall|buffer: &mut [u8], res: Result<usize, E>|
                buffer@.len() == LINE_CAPACITY && #[trigger] fill.ensures((buffer,), res) ==> (res matches Ok(n) ==> n
                    <= LINE_CAPACITY),
        ensures
            exists|
                position: usize,
                before: LineGuard<'_>,
                after: LineGuard<'_>,
                buffer: &mut [u8],
                res: Result<usize, E>,
            |
                #![trigger advanced_to(self.reference, position, N as int), self.data[position as int].is_locked_by(before), self.data[position as int].is_locked_by(after), fill.ensures((buffer,), res)]
                {
                    &&& position < N
                    &&& advanced_to(self.reference, position, N as int)
                    &&& self.data[position as int].is_locked_by(before)
                    &&& self.data[position as int].is_locked_by(after)
                    &&& fill.ensures((buffer,), res)
                    &&& buffer@ == guarded_line(before).1
                    &&& final(buffer)@ == guarded_line(after).1
                    &&& match res {
                        Ok(n) => r is Ok && guarded_line(after).0 == n,
                        Err(e) => r == Err::<(), E>(e) && guarded_line(after).0 == 0,
                    }
                },
    {
        let position = self.increment();
        self.cond.notify_all();
        let mut guard = self.data[position].lock();
        let ghost before = guard;
        let line: &mut Logline = line_mut(&mut guard);
        let ghost old_bytes = line.bytes();
        let r = line.fill_from(fill);
        let ghost after = guard;
        proof {
            // The witnesses: the line guard before and after `fill`, around the line it held.
            assert(self.data[position as int].is_locked_by(before));
            assert(self.data[position as int].is_locked_by(after));
            assert(guarded_line(before).1 == old_bytes);
        }
        r
    }
}

/// A log of `N` empty lines whose position is the last slot, as `LogData::new` makes it.
/// With no slots at all there is no last slot: the position then starts at `usize::MAX`, as
/// `N - 1` wraps to in a build without overflow checks.
impl<const N: usize> Default for LogData<N> {
    fn default() -> (log: Self)
        ensures
            position_made_with(log.reference) == (if N == 0 { usize::MAX as int } else { N - 1 }),
            forall|i: int| 0 <= i < N ==> #[trigger] log.data[i].made_with() == empty_line(),
    {
        let last: usize = if N == 0 { usize::MAX } else { N - 1 };
        LogData { data: locked_lines::<N>(), reference: new_position_lock(last), cond: parking_lot::Condvar::new() }
    }
}

} // verus!
