//! The decisions of a UDP listener that keeps the last 1024 lines it heard and forwards
//! each to its workers: when to stop, and what a datagram adds to the kept lines.

use vstd::prelude::*;
use circular_buffer::CircularBuffer;
use crate::text::strict_string;
use crate::recent::keep_last;

verus! {

/// A datagram of this one byte (ASCII CAN) asks the listener to stop.
pub const CANCEL: u8 = 24;

/// A datagram of this one byte (ASCII EOT) ends the transmission; a failed receive counts
/// as one.
pub const EOT: u8 = 4;

/// How many lines the listener keeps.
pub const KEPT_LINES: usize = 1024;

#[verifier::external_type_specification]
#[verifier::external_body]
#[verifier::reject_recursive_types(T)]
pub struct ExCircularBuffer<const N: usize, T>(CircularBuffer<N, T>);

/// The texts that a buffer of kept lines holds, oldest first.
pub uninterp spec fn kept_lines(buffer: CircularBuffer<1024, String>) -> Seq<Seq<char>>;

/// `CircularBuffer::new`: an empty buffer.
#[verifier::external_body]
fn new_line_buffer() -> (buffer: CircularBuffer<1024, String>)
    ensures
        kept_lines(buffer) == Seq::<Seq<char>>::empty(),
{
    CircularBuffer::new()
}

/// `CircularBuffer::push_back`: appends `line`. Below capacity nothing leaves and `None`
/// comes back; at capacity the oldest line leaves the buffer and comes back.
#[verifier::external_body]
fn push_line(buffer: &mut CircularBuffer<1024, String>, line: String) -> (evicted: Option<String>)
    ensures
        kept_lines(*old(buffer)).len() < 1024 ==> kept_lines(*final(buffer)) == kept_lines(
            *old(buffer),
        ).push(line@),
        kept_lines(*old(buffer)).len() >= 1024 ==> kept_lines(*final(buffer)) == kept_lines(
            *old(buffer),
        ).drop_first().push(line@),
        evicted is Some <==> kept_lines(*old(buffer)).len() >= 1024,
        evicted matches Some(e) ==> e@ == kept_lines(*old(buffer))[0],
{
    buffer.push_back(line)
}

/// `CircularBuffer::back`, copied out: the newest line, `None` when the buffer is empty.
#[verifier::external_body]
fn newest_line(buffer: &CircularBuffer<1024, String>) -> (newest: Option<String>)
    ensures
        newest is Some <==> kept_lines(*buffer).len() > 0,
        newest matches Some(line) ==> line@ == kept_lines(*buffer).last(),
{
    buffer.back().cloned()
}

/// What the listener does with a datagram.
#[derive(Debug, PartialEq, Eq)]
pub enum ListenerStep {
    /// Stop listening.
    Stop,
    /// Keep this line and forward it.
    Line(String),
    /// The datagram is not UTF-8 text; the listener gives up on it.
    NotText,
}

/// What the listener does with what it received: `None` stands for a failed receive.
/// A failed receive, a lone `EOT` and a lone `CANCEL` stop it; any other datagram is a
/// line when it is valid UTF-8.
pub fn listen_step(received: Option<&[u8]>) -> (step: ListenerStep)
    ensures
        match received {
            None => step == ListenerStep::Stop,
            Some(bytes) => if bytes@ == seq![CANCEL] || bytes@ == seq![EOT] {
                step == ListenerStep::Stop
            } else if vstd::utf8::valid_utf8(bytes@) {
                step matches ListenerStep::Line(text) && text@ == vstd::utf8::decode_utf8(bytes@)
            } else {
                step == ListenerStep::NotText
            },
        },
{
    match received {
        None => ListenerStep::Stop,
        Some(bytes) => {
            if bytes.len() == 1 && (bytes[0] == CANCEL || bytes[0] == EOT) {
                assert(bytes@ =~= seq![bytes[0]]);
                ListenerStep::Stop
            } else {
                proof {
                    if bytes@ == seq![CANCEL] || bytes@ == seq![EOT] {
                        assert(bytes@.len() == 1 && bytes@[0] == bytes[0]);
                    }
                }
                match strict_string(vstd::slice::slice_to_vec(bytes)) {
                    Some(text) => ListenerStep::Line(text),
                    None => ListenerStep::NotText,
                }
            }
        },
    }
}

/// The kept lines of a listener that has heard nothing yet: none.
pub fn new_kept_lines() -> (lines: CircularBuffer<1024, String>)
    ensures
        kept_lines(lines) == Seq::<Seq<char>>::empty(),
{
    new_line_buffer()
}

/// Keeps `line` among the last 1024 lines (the oldest leaves once 1024 are kept) and
/// returns a copy of the newest kept line, which is `line`, to forward to the workers.
pub fn record_line(lines: &mut CircularBuffer<1024, String>, line: String) -> (forwarded: String)
    ensures
        forwarded@ == line@,
        kept_lines(*final(lines)) == keep_last(kept_lines(*old(lines)), line@, KEPT_LINES as nat),
{
    push_line(lines, line);
    match newest_line(lines) {
        Some(newest) => newest,
        None => {
            assert(false);
            String::new()
        },
    }
}

} // verus!
