//! One line of the log: a datagram's worth of bytes and how many of them were received.

use vstd::prelude::*;
use vstd::slice::slice_subrange;
use vstd::array::array_as_slice;
use crate::sync::{lock_line, line_ref, new_line_lock, line_made_with, locked_line_mutex, guarded_line, LineGuard};
use crate::text::{lossy_string, utf8_lossy};
use vstd::utf8::{decode_utf8, valid_utf8};

verus! {

/// Bytes in one line: the largest UDP payload that is guaranteed to arrive as one
/// datagram (576 bytes of minimal reassembly buffer, less 60 of IP header and 8 of UDP
/// header).
pub const LINE_CAPACITY: usize = 508;

/// A line of the log: a buffer of `LINE_CAPACITY` bytes of which the first `bytes_read`
/// hold what was received.
pub struct Logline {
    bytes_read: usize,
    buffer: [u8; 508],
}

impl View for Logline {
    type V = (usize, Seq<u8>);

    closed spec fn view(&self) -> (usize, Seq<u8>) {
        (self.bytes_read, self.buffer@)
    }
}

/// The view of an empty line: nothing received, every byte zero.
pub open spec fn empty_line() -> (usize, Seq<u8>) {
    (0usize, Seq::new(LINE_CAPACITY as nat, |i: int| 0u8))
}

/// The received part of a line, given by its view.
pub open spec fn received(line: (usize, Seq<u8>)) -> Seq<u8> {
    line.1.subrange(0, line.0 as int)
}

impl Logline {
    #[verifier::type_invariant]
    spec fn well_formed(self) -> bool {
        self.bytes_read <= LINE_CAPACITY
    }

    /// How many bytes of the line were received.
    pub open spec fn len(self) -> nat {
        self@.0 as nat
    }

    /// The whole buffer of the line.
    pub open spec fn bytes(self) -> Seq<u8> {
        self@.1
    }

    /// The received bytes of the line.
    pub open spec fn content(self) -> Seq<u8> {
        received(self@)
    }

    /// An empty line: nothing received, every byte zero.
    pub fn new() -> (line: Self)
        ensures
            line.len() == 0,
            line.bytes() == Seq::new(LINE_CAPACITY as nat, |i: int| 0u8),
    {
        let line = Logline { bytes_read: 0, buffer: [0u8; 508] };
        assert(line.bytes() =~= Seq::new(LINE_CAPACITY as nat, |i: int| 0u8));
        line
    }

    /// How many bytes of the line were received; never more than the line holds.
    pub fn bytes_read(&self) -> (n: usize)
        ensures
            n == self.len(),
            n <= LINE_CAPACITY,
            self.bytes().len() == LINE_CAPACITY,
    {
        proof {
            use_type_invariant(self);
        }
        self.bytes_read
    }

    /// The whole buffer of the line.
    pub fn buffer(&self) -> (buffer: &[u8; 508])
        ensures
            buffer@ == self.bytes(),
    {
        &self.buffer
    }

    /// The received bytes of the line.
    pub fn received_bytes(&self) -> (bytes: &[u8])
        ensures
            bytes@ == self.content(),
            bytes@.len() == self.len(),
    {
        proof {
            use_type_invariant(self);
        }
        slice_subrange(array_as_slice(&self.buffer), 0, self.bytes_read)
    }

    /// Lets `fill` write into the line's buffer and records how many bytes it reports:
    /// on `Ok(n)` the line holds `n` received bytes, on an error none, and the error is
    /// handed back. `fill` is handed the line's buffer of `LINE_CAPACITY` bytes and must not
    /// report more bytes than that.
    pub fn fill_from<F, E>(&mut self, fill: F) -> (r: Result<(), E>) where
        F: FnOnce(&mut [u8]) -> Result<usize, E>,

        requires
            forall|buffer: &mut [u8]| buffer@.len() == LINE_CAPACITY ==> #[trigger] fill.requires((buffer,)),
            forall|buffer: &mut [u8], res: Result<usize, E>|
                buffer@.len() == LINE_CAPACITY && #[trigger] fill.ensures((buffer,), res) ==> (res matches Ok(n) ==> n
                    <= LINE_CAPACITY),
        ensures
            exists|buffer: &mut [u8], res: Result<usize, E>|
                #[trigger] fill.ensures((buffer,), res) && buffer@ == old(self).bytes()
                    && final(buffer)@ == final(self).bytes() && match res {
                    Ok(n) => r is Ok && final(self).len() == n,
                    Err(e) => r == Err::<(), E>(e) && final(self).len() == 0,
                },
    {
        proof {
            use_type_invariant(&*self);
        }
        let res = fill(&mut self.buffer);
        match res {
            Ok(n) => {
                self.bytes_read = n;
                Ok(())
            },
            Err(e) => {
                self.bytes_read = 0;
                Err(e)
            },
        }
    }

    /// The received bytes as text, invalid UTF-8 replaced (the line's `Display`).
    pub fn to_string(&self) -> (text: String)
        ensures
            text@ == utf8_lossy(self.content()),
            valid_utf8(self.content()) ==> text@ == decode_utf8(self.content()),
    {
        lossy_string(self.received_bytes())
    }
}

/// A line of the log behind a lock of its own.
pub struct LockedLogline {
    line: parking_lot::Mutex<Logline>,
}

impl LockedLogline {
    /// The line (by its view) the lock was created holding.
    pub closed spec fn made_with(self) -> (usize, Seq<u8>) {
        line_made_with(self.line)
    }

    /// The mutex behind which the line is kept.
    pub closed spec fn mutex(self) -> parking_lot::Mutex<Logline> {
        self.line
    }

    /// Whether `guard` holds this line's lock.
    pub open spec fn is_locked_by(self, guard: LineGuard<'_>) -> bool {
        locked_line_mutex(guard) == self.mutex()
    }

    /// Takes the line's lock, blocking until it is free.
    pub fn lock(&self) -> (guard: LineGuard<'_>)
        ensures
            self.is_locked_by(guard),
    {
        lock_line(&self.line)
    }

    /// A locked empty line.
    pub fn new() -> (locked: Self)
        ensures
            locked.made_with() == empty_line(),
    {
        let line = Logline::new();
        assert(line@ == empty_line());
        LockedLogline { line: new_line_lock(line) }
    }

    /// The received bytes of the line as text, invalid UTF-8 replaced (the `Display` of
    /// the locked line): the text of the line that the lock held when it was taken.
    pub fn to_string(&self) -> (text: String)
        ensures
            exists|guard: LineGuard<'_>|
                self.is_locked_by(guard) && text@ == utf8_lossy(received(#[trigger] guarded_line(guard))),
    {
        let guard = self.lock();
        let line = line_ref(&guard);
        let text = line.to_string();
        assert(self.is_locked_by(guard) && text@ == utf8_lossy(received(guarded_line(guard))));
        text
    }
}

} // verus!
