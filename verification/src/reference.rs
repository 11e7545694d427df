//! The writer's position in a ring of `N` lines, behind a std lock, with a condition
//! variable on which readers wait for it to move.

use vstd::prelude::*;
use crate::ring::{next_slot, successor};
use crate::sync::{lock_std_position, read_std_position, write_std_position, new_std_position_lock, std_position_made_with, guarded_std_position, locked_std_position_mutex};

verus! {

/// In one hold of the std position lock `lock` of a ring of `n` slots, the position found
/// there was moved on to `position`, its successor (by a wrapping add, then back to 0 past
/// the ring), and the lock was left holding it.
pub open spec fn std_advanced_to<'a>(lock: std::sync::Mutex<usize>, position: usize, n: int) -> bool {
    exists|found: std::sync::MutexGuard<'a, usize>, left: std::sync::MutexGuard<'a, usize>|
        #![trigger guarded_std_position(found), guarded_std_position(left)]
        locked_std_position_mutex(found) == lock && locked_std_position_mutex(left) == lock
            && position == next_slot(guarded_std_position(found) as int, n)
            && guarded_std_position(left) == position
}

/// The position of the line written last, and the condition variable that announces a
/// new one.
#[derive(Debug)]
pub struct Reference<const N: usize> {
    pub cond: std::sync::Condvar,
    pub reference: std::sync::Mutex<usize>,
}

impl<const N: usize> Reference<N> {
    /// Moves the position one slot on, wrapping to slot 0 after the last slot (and after
    /// `usize::MAX`), and returns the new position: the successor of whatever position the
    /// lock held, which the lock is left holding.
    pub fn increment(&self) -> (position: usize)
        ensures
            std_advanced_to(self.reference, position, N as int),
            N > 0 ==> position < N,
            N == 0 ==> position == 0,
    {
        let mut guard = lock_std_position(&self.reference);
        let ghost found_guard = guard;
        let found = read_std_position(&guard);
        let position = successor(found, N);
        write_std_position(&mut guard, position);
        let ghost left_guard = guard;
        assert(std_advanced_to(self.reference, position, N as int)) by {
            assert(locked_std_position_mutex(left_guard) == self.reference);
            assert(guarded_std_position(left_guard) == position);
            assert(position == next_slot(guarded_std_position(found_guard) as int, N as int));
        }
        position
    }

    /// Wakes every reader that waits for the position to move.
    pub fn notify(&self) {
        self.cond.notify_all();
    }

    /// A position that starts at `num`.
    pub fn new(num: usize) -> (reference: Self)
        ensures
            std_position_made_with(reference.reference) == num,
    {
        Reference { cond: std::sync::Condvar::new(), reference: new_std_position_lock(num) }
    }
}

} // verus!
