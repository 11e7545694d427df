//! The log as plain shared buffers: `N` lines of `LINE_CAPACITY` bytes behind std locks,
//! and the shared position of the line written last.

use vstd::prelude::*;
use std::sync::Arc;
use crate::reference::Reference;
use crate::logline::LINE_CAPACITY;
use crate::sync::{new_std_bytes_lock, std_bytes_made_with, std_position_made_with};

verus! {

/// One line of the log: its bytes behind a lock.
pub type BufferLine = std::sync::Mutex<[u8; 508]>;

/// A handle on the shared log; clones share the same lines and position.
#[derive(Debug, Clone)]
pub struct Logdata<const N: usize> {
    pub data: Arc<[BufferLine; N]>,
    pub reference: Arc<Reference<N>>,
}

/// The bytes of an empty line.
pub open spec fn zero_bytes() -> Seq<u8> {
    Seq::new(LINE_CAPACITY as nat, |i: int| 0u8)
}

/// A line of zero bytes behind a lock.
pub fn empty_buffer_line() -> (line: BufferLine)
    ensures
        std_bytes_made_with(line) == zero_bytes(),
{
    let bytes = [0u8; 508];
    assert(bytes@ =~= zero_bytes());
    new_std_bytes_lock(bytes)
}

/// `core::array::from_fn` with `empty_buffer_line` for every index: `N` locked lines, the
/// one at index `i` being what `empty_buffer_line` made for it, so created zeroed.
#[verifier::external_body]
fn empty_buffer_lines<const N: usize>() -> (lines: [BufferLine; N])
    ensures
        forall|i: int| 0 <= i < N ==> #[trigger] std_bytes_made_with(lines[i]) == zero_bytes(),
{
    core::array::from_fn(|_| empty_buffer_line())
}

impl<const N: usize> Logdata<N> {
    /// A log of `N` zeroed lines whose position starts at slot 0.
    pub fn new() -> (log: Self)
        ensures
            forall|i: int| 0 <= i < N ==> #[trigger] std_bytes_made_with(log.data@[i]) == zero_bytes(),
            std_position_made_with(log.reference.reference) == 0,
    {
        Logdata { data: Arc::new(empty_buffer_lines::<N>()), reference: Arc::new(Reference::new(0)) }
    }
}

} // verus!
