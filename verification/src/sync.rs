//! The locks and condition variables that the log shares between threads, from std and
//! from `parking_lot`.
//!
//! What a mutex holds changes under the feet of any thread that does not hold its lock,
//! so nothing here speaks of the contents of a mutex. What a held guard gives access to
//! is named per content type (`guarded_*`): while the guard lives no other thread can
//! change it, so a read through a guard gives back what the last write through the same
//! guard stored. A wait on a condition variable gives the lock up for a while, so after
//! it nothing is known of what the guard holds.

use vstd::prelude::*;
use crate::logline::Logline;
use crate::logdata::LogData;

verus! {

#[verifier::external_type_specification]
#[verifier::external_body]
#[verifier::reject_recursive_types(T)]
pub struct ExStdMutex<T: ?Sized>(std::sync::Mutex<T>);

#[verifier::external_type_specification]
#[verifier::external_body]
#[verifier::reject_recursive_types(T)]
pub struct ExStdMutexGuard<'a, T: ?Sized + 'a>(std::sync::MutexGuard<'a, T>);

#[verifier::external_type_specification]
#[verifier::external_body]
pub struct ExStdCondvar(std::sync::Condvar);

#[verifier::external_type_specification]
#[verifier::external_body]
#[verifier::reject_recursive_types(R)]
#[verifier::reject_recursive_types(T)]
pub struct ExLockMutex<R, T: ?Sized>(parking_lot::lock_api::Mutex<R, T>);

#[verifier::external_type_specification]
#[verifier::external_body]
pub struct ExRawMutex(parking_lot::RawMutex);

#[verifier::external_type_specification]
#[verifier::external_body]
pub struct ExCondvar(parking_lot::Condvar);


/// `std::sync::Condvar::new`: makes a condition variable. Nothing is claimed of it.
pub assume_specification[ std::sync::Condvar::new ]() -> std::sync::Condvar;

/// `std::sync::Condvar::notify_all`: wakes the threads that wait on it. Nothing is
/// claimed of it.
pub assume_specification[ std::sync::Condvar::notify_all ](cond: &std::sync::Condvar);

/// `parking_lot::Condvar::new`: makes a condition variable. Nothing is claimed of it.
pub assume_specification[ parking_lot::Condvar::new ]() -> parking_lot::Condvar;

/// `parking_lot::Condvar::notify_all`: wakes the threads that wait on it and returns how
/// many there were, which depends on the other threads: nothing is claimed of it.
pub assume_specification[ parking_lot::Condvar::notify_all ](cond: &parking_lot::Condvar) -> usize;

/// The position a std mutex was created holding. What it holds later is not modelled:
/// other threads change it through its lock.
pub uninterp spec fn std_position_made_with(mutex: std::sync::Mutex<usize>) -> usize;

/// The bytes a std mutex was created holding (what it holds later is not modelled).
pub uninterp spec fn std_bytes_made_with(mutex: std::sync::Mutex<[u8; 508]>) -> Seq<u8>;

/// The position a `parking_lot` mutex was created holding (what it holds later is not
/// modelled).
pub uninterp spec fn position_made_with(mutex: parking_lot::Mutex<usize>) -> usize;

/// The log line (by its view) a `parking_lot` mutex was created holding (what it holds
/// later is not modelled).
pub uninterp spec fn line_made_with(mutex: parking_lot::Mutex<Logline>) -> (usize, Seq<u8>);

/// The std mutex whose lock a held std position guard holds.
pub uninterp spec fn locked_std_position_mutex(guard: std::sync::MutexGuard<'_, usize>) -> std::sync::Mutex<usize>;

/// The mutex whose lock a held position guard holds.
pub uninterp spec fn locked_position_mutex(guard: PositionGuard<'_>) -> parking_lot::Mutex<usize>;

/// The mutex whose lock a held line guard holds.
pub uninterp spec fn locked_line_mutex(guard: LineGuard<'_>) -> parking_lot::Mutex<Logline>;

/// `std::sync::Mutex::new` on a position: an unlocked mutex that holds `position`.
/// (Names cannot be generic, so each content type has its own wrapper.)
#[verifier::external_body]
pub(crate) fn new_std_position_lock(position: usize) -> (mutex: std::sync::Mutex<usize>)
    ensures
        std_position_made_with(mutex) == position,
{
    std::sync::Mutex::new(position)
}

/// `std::sync::Mutex::new` on a line of bytes: an unlocked mutex that holds `bytes`.
#[verifier::external_body]
pub(crate) fn new_std_bytes_lock(bytes: [u8; 508]) -> (mutex: std::sync::Mutex<[u8; 508]>)
    ensures
        std_bytes_made_with(mutex) == bytes@,
{
    std::sync::Mutex::new(bytes)
}

/// The position that a held std guard gives access to.
pub uninterp spec fn guarded_std_position(guard: std::sync::MutexGuard<'_, usize>) -> usize;

/// The position that a held `parking_lot` guard gives access to.
pub uninterp spec fn guarded_position(guard: PositionGuard<'_>) -> usize;

/// The log line (by its view) that a held `parking_lot` guard gives access to.
pub uninterp spec fn guarded_line(guard: LineGuard<'_>) -> (usize, Seq<u8>);

/// `std::sync::Mutex::lock` on a position: blocks until the lock is free and takes it.
/// The guard holds that mutex's lock; nothing is claimed of the position it guards. A
/// lock that another thread left poisoned by panicking is taken over as it stands.
#[verifier::external_body]
pub(crate) fn lock_std_position(mutex: &std::sync::Mutex<usize>) -> (guard: std::sync::MutexGuard<'_, usize>)
    ensures
        locked_std_position_mutex(guard) == *mutex,
{
    match mutex.lock() {
        Ok(guard) => guard,
        Err(poisoned) => poisoned.into_inner(),
    }
}

/// Reads the position behind a held std guard (its `Deref`).
#[verifier::external_body]
pub(crate) fn read_std_position(guard: &std::sync::MutexGuard<'_, usize>) -> (r: usize)
    ensures
        r == guarded_std_position(*guard),
{
    **guard
}

/// Stores a position behind a held std guard (its `DerefMut`).
#[verifier::external_body]
pub(crate) fn write_std_position(guard: &mut std::sync::MutexGuard<'_, usize>, position: usize)
    ensures
        guarded_std_position(*final(guard)) == position,
        locked_std_position_mutex(*final(guard)) == locked_std_position_mutex(*old(guard)),
{
    **guard = position;
}

/// `parking_lot::Mutex::new` (`lock_api::Mutex::new` with parking_lot's raw mutex) on a
/// position: an unlocked mutex that holds `position`.
#[verifier::external_body]
pub(crate) fn new_position_lock(position: usize) -> (mutex: parking_lot::Mutex<usize>)
    ensures
        position_made_with(mutex) == position,
{
    parking_lot::Mutex::new(position)
}

/// `parking_lot::Mutex::new` on a log line: an unlocked mutex that holds `line`.
#[verifier::external_body]
pub(crate) fn new_line_lock(line: Logline) -> (mutex: parking_lot::Mutex<Logline>)
    ensures
        line_made_with(mutex) == line@,
{
    parking_lot::Mutex::new(line)
}

/// A held `parking_lot` lock on a position. `parking_lot::MutexGuard` carries a bound on
/// an outside trait, which a type declaration here cannot carry, so the guard is held in a
/// private field.
#[verifier::external_body]
pub struct PositionGuard<'a> {
    guard: parking_lot::MutexGuard<'a, usize>,
}

/// A held `parking_lot` lock on a log line; see `PositionGuard`.
#[verifier::external_body]
pub struct LineGuard<'a> {
    guard: parking_lot::MutexGuard<'a, Logline>,
}

impl<'a> LineGuard<'a> {
    /// The log line this guard holds the lock on.
    pub fn line(&self) -> (line: &Logline)
        ensures
            line@ == guarded_line(*self),
    {
        line_ref(self)
    }
}

/// `parking_lot::Mutex::lock` on a position: blocks until the lock is free and takes it.
/// The guard holds that mutex's lock; nothing is claimed of the position it guards.
#[verifier::external_body]
pub(crate) fn lock_position(mutex: &parking_lot::Mutex<usize>) -> (guard: PositionGuard<'_>)
    ensures
        locked_position_mutex(guard) == *mutex,
{
    PositionGuard { guard: mutex.lock() }
}

/// Reads the position behind a held `parking_lot` guard (its `Deref`).
#[verifier::external_body]
pub(crate) fn read_position(guard: &PositionGuard<'_>) -> (r: usize)
    ensures
        r == guarded_position(*guard),
{
    *guard.guard
}

/// Stores a position behind a held `parking_lot` guard (its `DerefMut`).
#[verifier::external_body]
pub(crate) fn write_position(guard: &mut PositionGuard<'_>, position: usize)
    ensures
        guarded_position(*final(guard)) == position,
        locked_position_mutex(*final(guard)) == locked_position_mutex(*old(guard)),
{
    *guard.guard = position;
}

/// `parking_lot::Condvar::wait` on the log's condition variable with a held lock on the
/// log's own position: gives the lock up until the condition variable is notified, then
/// takes it again. Meanwhile other threads may change the position, so nothing is claimed
/// of what the guard holds afterwards; it still holds the lock of the same mutex. `parking_lot`'s
/// `Condvar::wait` panics when one condition variable is waited on with two different mutexes; the
/// `requires` keeps every wait here on the log's condition variable paired with the log's
/// position lock.
#[verifier::external_body]
pub(crate) fn wait_on_position<const N: usize>(data: &LogData<N>, guard: &mut PositionGuard<'_>)
    requires
        locked_position_mutex(*old(guard)) == data.reference,
    ensures
        locked_position_mutex(*final(guard)) == locked_position_mutex(*old(guard)),
{
    data.cond.wait(&mut guard.guard)
}

/// `parking_lot::Mutex::lock` on a log line: blocks until the lock is free and takes it.
/// The guard holds that mutex's lock; nothing is claimed of the line it guards.
#[verifier::external_body]
pub(crate) fn lock_line(mutex: &parking_lot::Mutex<Logline>) -> (guard: LineGuard<'_>)
    ensures
        locked_line_mutex(guard) == *mutex,
{
    LineGuard { guard: mutex.lock() }
}

/// The log line behind a held `parking_lot` guard, to read (its `Deref`).
#[verifier::external_body]
pub(crate) fn line_ref<'a>(guard: &'a LineGuard<'_>) -> (r: &'a Logline)
    ensures
        r@ == guarded_line(*guard),
{
    &*guard.guard
}

/// The log line behind a held `parking_lot` guard, to change (its `DerefMut`): the line
/// handed out is the guarded one, and what it is left as is what the guard then holds.
#[verifier::external_body]
pub(crate) fn line_mut<'a, 'b>(guard: &'a mut LineGuard<'b>) -> (r: &'a mut Logline)
    ensures
        r@ == guarded_line(*old(guard)),
        guarded_line(*final(guard)) == final(r)@,
        locked_line_mutex(*final(guard)) == locked_line_mutex(*old(guard)),
{
    &mut *guard.guard
}

/// `Arc::clone`: another handle on the same shared value.
#[verifier::external_body]
pub(crate) fn share<T>(shared: &std::sync::Arc<T>) -> (r: std::sync::Arc<T>)
    ensures
        r == *shared,
{
    std::sync::Arc::clone(shared)
}

} // verus!
