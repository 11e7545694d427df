//! The state behind the log windows: the lines a window shows and the connection form.

use vstd::prelude::*;
use crate::recent::keep_last;

verus! {

/// How many lines the local log window shows.
pub const SHOWN_LINES: usize = 20;

/// Appends an incoming line to the shown lines (`logs.push`), then drops the oldest when
/// more than `SHOWN_LINES` are shown (`logs.remove(0)`).
pub fn push_recent(logs: &mut Vec<String>, line: String)
    ensures
        final(logs)@ == keep_last(old(logs)@, line, SHOWN_LINES as nat),
{
    logs.push(line);
    if logs.len() > SHOWN_LINES {
        logs.remove(0);
    }
    assert(logs@ =~= keep_last(old(logs)@, line, SHOWN_LINES as nat));
}

/// The connection form of the client window: a name and an address.
pub struct MainWindowState {
    pub connection_name: String,
    pub connection_addr: String,
}

impl MainWindowState {
    /// An empty form.
    pub fn new() -> (state: Self)
        ensures
            state.connection_name@ == Seq::<char>::empty(),
            state.connection_addr@ == Seq::<char>::empty(),
    {
        MainWindowState { connection_name: String::new(), connection_addr: String::new() }
    }
}

} // verus!
