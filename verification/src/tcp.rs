//! The stream protocol between the log server and its clients.
//!
//! A client opens with a greeting: `hello` subscribes it to the log, `bye` (sent by the
//! server to itself when it shuts down) is turned away. Every line then travels as a
//! frame `LLL:text,`: the number of bytes the line received as three decimal digits, a
//! colon, the line's text, and a comma.

use vstd::prelude::*;
use vstd::utf8::{decode_utf8, encode_utf8, valid_utf8, decode_utf8_encode_utf8};
use crate::logline::{Logline, LINE_CAPACITY};
use crate::text::{lossy_string, utf8_lossy};
use vstd::string::StringSliceAdditionalSpecFns;

verus! {

/// What a greeting asks for.
#[derive(Debug, Clone, Copy, PartialEq, Eq, Structural)]
pub enum Greeting {
    /// `hello`: the client subscribes.
    Hello,
    /// `bye`: the server's own farewell, to be turned away.
    Bye,
    /// Any other text: the client is served all the same.
    Unexpected,
}

/// The ASCII code of decimal digit `d`.
pub open spec fn ascii_digit(d: nat) -> u8 {
    (48 + d) as u8
}

/// The decimal digits of `n`, most significant first, as `format!("{}", n)` writes them.
pub open spec fn decimal(n: nat) -> Seq<u8>
    decreases n,
{
    if n < 10 {
        seq![ascii_digit(n)]
    } else {
        decimal(n / 10).push(ascii_digit(n % 10))
    }
}

/// The zeros that `left_pad` puts before the decimal digits of `n`.
pub open spec fn padding(n: nat) -> Seq<u8> {
    if n > 99 {
        Seq::empty()
    } else if n > 9 {
        seq![48u8]
    } else {
        seq![48u8, 48u8]
    }
}

/// The frame that carries a line of `len` received bytes whose text is `text`.
pub open spec fn frame(len: nat, text: Seq<char>) -> Seq<u8> {
    padding(len) + decimal(len) + seq![58u8] + encode_utf8(text) + seq![44u8]
}

/// Whether `b` is the ASCII code of a decimal digit.
pub open spec fn is_digit(b: u8) -> bool {
    48 <= b <= 57
}

/// The value of the decimal digit whose ASCII code is `b`.
pub open spec fn digit_value(b: u8) -> nat {
    (b - 48) as nat
}

/// The length that a frame header announces, read as `usize::from_str_radix(.., 10)`
/// reads its first three bytes: three decimal digits, or a plus sign and two; anything
/// else announces nothing.
pub open spec fn announced_length(header: Seq<u8>) -> Option<nat> {
    if header.len() < 3 {
        None
    } else if is_digit(header[0]) && is_digit(header[1]) && is_digit(header[2]) {
        Some(digit_value(header[0]) * 100 + digit_value(header[1]) * 10 + digit_value(header[2]))
    } else if header[0] == 43u8 && is_digit(header[1]) && is_digit(header[2]) {
        Some(digit_value(header[1]) * 10 + digit_value(header[2]))
    } else {
        None
    }
}

/// The zeros that make the decimal digits of `integer` three wide: none above 99, one
/// above 9, two otherwise.
pub fn left_pad(integer: usize) -> (pad: &'static str)
    ensures
        pad@ == (if integer > 99 {
            ""@
        } else if integer > 9 {
            "0"@
        } else {
            "00"@
        }),
        pad.spec_bytes() == padding(integer as nat),
{
    proof {
        reveal_strlit("");
        reveal_strlit("0");
        reveal_strlit("00");
    }
    if integer > 99 {
        let pad = "";
        proof {
            vstd::string::is_ascii_spec_bytes(pad);
            assert(pad.spec_bytes() =~= padding(integer as nat));
        }
        pad
    } else if integer > 9 {
        let pad = "0";
        proof {
            vstd::string::is_ascii_spec_bytes(pad);
            assert(pad.spec_bytes() =~= padding(integer as nat));
        }
        pad
    } else {
        let pad = "00";
        proof {
            vstd::string::is_ascii_spec_bytes(pad);
            assert(pad.spec_bytes() =~= padding(integer as nat));
        }
        pad
    }
}

/// The decimal digits of `n`, most significant first.
pub fn decimal_digits(n: usize) -> (digits: Vec<u8>)
    ensures
        digits@ == decimal(n as nat),
    decreases n,
{
    if n < 10 {
        let digits = vec![48u8 + n as u8];
        assert(digits@ =~= decimal(n as nat));
        digits
    } else {
        let mut digits = decimal_digits(n / 10);
        digits.push(48u8 + (n % 10) as u8);
        digits
    }
}

/// Appends `bytes` to `out`.
fn append_bytes(out: &mut Vec<u8>, bytes: &[u8])
    ensures
        final(out)@ == old(out)@ + bytes@,
{
    let mut i: usize = 0;
    while i < bytes.len()
        invariant
            i <= bytes@.len(),
            out@ == old(out)@ + bytes@.subrange(0, i as int),
        decreases bytes@.len() - i,
    {
        out.push(bytes[i]);
        i += 1;
        assert(out@ =~= old(out)@ + bytes@.subrange(0, i as int));
    }
    assert(bytes@.subrange(0, i as int) =~= bytes@);
}

/// The frame that ships `line` to a client (`format!("{pad}{len}:{buf},")` in bytes): its
/// length padded to three digits, a colon, its text with invalid UTF-8 replaced, a comma.
pub fn encode_frame(line: &Logline) -> (bytes: Vec<u8>)
    ensures
        bytes@ == frame(line.len(), utf8_lossy(line.content())),
        valid_utf8(line.content()) ==> bytes@ == padding(line.len()) + decimal(line.len()) + seq![58u8]
            + line.content() + seq![44u8],
{
    let len = line.bytes_read();
    let text = line.to_string();
    let mut bytes: Vec<u8> = Vec::new();
    append_bytes(&mut bytes, left_pad(len).as_bytes());
    let digits = decimal_digits(len);
    append_bytes(&mut bytes, digits.as_slice());
    bytes.push(58u8);
    append_bytes(&mut bytes, text.as_str().as_bytes());
    bytes.push(44u8);
    assert(bytes@ =~= frame(line.len(), utf8_lossy(line.content())));
    proof {
        if valid_utf8(line.content()) {
            decode_utf8_encode_utf8(line.content());
        }
    }
    bytes
}

/// Reads the length announced by a frame header as `usize::from_str_radix(.., 10)` reads
/// its first three bytes: `None` when they are not three digits or a plus sign and two.
pub fn parse_header(header: &[u8]) -> (length: Option<usize>)
    ensures
        length matches Some(n) ==> announced_length(header@) == Some(n as nat),
        length is None ==> announced_length(header@) is None,
        header@.len() >= 3 && 48 <= header@[0] <= 57 && 48 <= header@[1] <= 57 && 48 <= header@[2] <= 57
            ==> length == Some(((header@[0] - 48) * 100 + (header@[1] - 48) * 10 + (header@[2] - 48)) as usize),
        header@.len() >= 3 && header@[0] == 43u8 && 48 <= header@[1] <= 57 && 48 <= header@[2] <= 57
            ==> length == Some(((header@[1] - 48) * 10 + (header@[2] - 48)) as usize),
        header@.len() < 3 ==> length is None,
        length matches Some(n) ==> n <= 999,
{
    if header.len() < 3 {
        return None;
    }
    let (a, b, c) = (header[0], header[1], header[2]);
    let digit = |x: u8| -> (r: bool)
        ensures
            r == is_digit(x),
        { 48 <= x && x <= 57 };
    if digit(a) && digit(b) && digit(c) {
        Some(((a - 48) as usize) * 100 + ((b - 48) as usize) * 10 + (c - 48) as usize)
    } else if a == 43u8 && digit(b) && digit(c) {
        Some(((b - 48) as usize) * 10 + (c - 48) as usize)
    } else {
        None
    }
}

/// The text of a frame's body (`String::from_utf8_lossy` of its first `length` bytes; the
/// comma after them is not looked at).
pub fn decode_message(body: &[u8], length: usize) -> (text: String)
    requires
        length <= body@.len(),
    ensures
        text@ == utf8_lossy(body@.subrange(0, length as int)),
        valid_utf8(body@.subrange(0, length as int)) ==> text@ == decode_utf8(body@.subrange(0, length as int)),
{
    lossy_string(vstd::slice::slice_subrange(body, 0, length))
}

/// What a greeting whose text is `text` asks for.
pub open spec fn greeting_of(text: Seq<char>) -> Greeting {
    if text == "hello"@ {
        Greeting::Hello
    } else if text == "bye"@ {
        Greeting::Bye
    } else {
        Greeting::Unexpected
    }
}

/// What the greeting that a client sent in `line` asks for, by its text.
pub fn classify_greeting(line: &Logline) -> (greeting: Greeting)
    ensures
        greeting == greeting_of(utf8_lossy(line.content())),
        valid_utf8(line.content()) ==> greeting == greeting_of(decode_utf8(line.content())),
        greeting == Greeting::Hello <==> utf8_lossy(line.content()) == "hello"@,
        greeting == Greeting::Bye <==> utf8_lossy(line.content()) == "bye"@,
        greeting == Greeting::Unexpected <==> (utf8_lossy(line.content()) != "hello"@ && utf8_lossy(
            line.content(),
        ) != "bye"@),
{
    let text = line.to_string();
    let hello = "hello".to_owned();
    let bye = "bye".to_owned();
    proof {
        reveal_strlit("hello");
        reveal_strlit("bye");
        assert("hello"@.len() != "bye"@.len());
    }
    if text == hello {
        Greeting::Hello
    } else if text == bye {
        Greeting::Bye
    } else {
        Greeting::Unexpected
    }
}

/// A header is read by its first three bytes alone: two headers that begin with the same
/// three bytes announce the same length, whatever follows (the colon of a 4-byte header
/// included). Three decimal digits announce `100 * d0 + 10 * d1 + d2`, a plus sign and two
/// digits `10 * d1 + d2`, and nothing else announces anything; no length above 999 is ever
/// announced.
pub proof fn lemma_header_reads_first_three_bytes(h1: Seq<u8>, h2: Seq<u8>)
    requires
        h1.len() >= 3,
        h2.len() >= 3,
        h1.subrange(0, 3) == h2.subrange(0, 3),
    ensures
        announced_length(h1) == announced_length(h2),
        48 <= h1[0] <= 57 && 48 <= h1[1] <= 57 && 48 <= h1[2] <= 57 ==> announced_length(h1) == Some(
            ((h1[0] - 48) * 100 + (h1[1] - 48) * 10 + (h1[2] - 48)) as nat,
        ),
        h1[0] == 43u8 && 48 <= h1[1] <= 57 && 48 <= h1[2] <= 57 ==> announced_length(h1) == Some(
            ((h1[1] - 48) * 10 + (h1[2] - 48)) as nat,
        ),
        !(48 <= h1[0] <= 57 && 48 <= h1[1] <= 57 && 48 <= h1[2] <= 57) && !(h1[0] == 43u8 && 48 <= h1[1] <= 57
            && 48 <= h1[2] <= 57) ==> announced_length(h1) is None,
        announced_length(h1) matches Some(n) ==> n <= 999,
{
    assert(h1[0] == h1.subrange(0, 3)[0]);
    assert(h1[1] == h1.subrange(0, 3)[1]);
    assert(h1[2] == h1.subrange(0, 3)[2]);
    assert(h2[0] == h2.subrange(0, 3)[0]);
    assert(h2[1] == h2.subrange(0, 3)[1]);
    assert(h2[2] == h2.subrange(0, 3)[2]);
}

/// What a greeting asks for is decided by its exact text: it subscribes exactly when the
/// text is `hello`, is turned away exactly when it is `bye`, and every other text (such as
/// `hello` followed by a line ending) is served as unexpected.
pub proof fn lemma_greeting_by_exact_text(text: Seq<char>)
    ensures
        greeting_of(text) == Greeting::Hello <==> text == "hello"@,
        greeting_of(text) == Greeting::Bye <==> text == "bye"@,
        greeting_of(text) == Greeting::Unexpected <==> (text != "hello"@ && text != "bye"@),
{
    reveal_strlit("hello");
    reveal_strlit("bye");
    assert("hello"@.len() != "bye"@.len());
}

/// The padded decimal digits of a number below 1000 are three digits, most significant
/// first.
proof fn lemma_padded_digits(n: nat)
    requires
        n <= 999,
    ensures
        padding(n) + decimal(n) == seq![ascii_digit(n / 100), ascii_digit((n / 10) % 10), ascii_digit(n % 10)],
{
    if n < 10 {
        assert(padding(n) + decimal(n) =~= seq![ascii_digit(n / 100), ascii_digit((n / 10) % 10), ascii_digit(n % 10)]);
    } else if n < 100 {
        assert(decimal(n / 10) == seq![ascii_digit(n / 10)]);
        assert(padding(n) + decimal(n) =~= seq![ascii_digit(n / 100), ascii_digit((n / 10) % 10), ascii_digit(n % 10)]);
    } else {
        assert(decimal(n / 100) == seq![ascii_digit(n / 100)]);
        assert(decimal(n / 10) == seq![ascii_digit(n / 100), ascii_digit((n / 10) % 10)]);
        assert(padding(n) + decimal(n) =~= seq![ascii_digit(n / 100), ascii_digit((n / 10) % 10), ascii_digit(n % 10)]);
    }
}

/// A frame header announces exactly the length it was made from: for every length a line
/// can have (indeed every length below 1000), the padded digits are read back as it.
pub proof fn lemma_header_roundtrip(len: nat)
    requires
        len <= 999,
    ensures
        (padding(len) + decimal(len)).len() == 3,
        announced_length(padding(len) + decimal(len)) == Some(len),
{
    lemma_padded_digits(len);
}

/// What a client reads back from a frame is what the server framed: for a line whose
/// received bytes are valid UTF-8 (so that its text is their decoding), the frame's first
/// three bytes announce the line's length, a colon follows, then exactly the line's bytes,
/// then a comma; so the reader's text, decoded from those bytes, is the line's text.
pub proof fn lemma_frame_roundtrip(content: Seq<u8>)
    requires
        content.len() <= LINE_CAPACITY,
        valid_utf8(content),
    ensures
        ({
            let f = frame(content.len(), decode_utf8(content));
            &&& f.len() == content.len() + 5
            &&& announced_length(f.subrange(0, 3)) == Some(content.len())
            &&& f[3] == 58u8
            &&& f.subrange(4, 4 + content.len() as int) == content
            &&& f[4 + content.len() as int] == 44u8
        }),
{
    let len = content.len();
    lemma_padded_digits(len);
    decode_utf8_encode_utf8(content);
    let f = frame(len, decode_utf8(content));
    let header = padding(len) + decimal(len);
    assert(f =~= header + seq![58u8] + content + seq![44u8]);
    assert(f.subrange(0, 3) =~= header);
    assert(f.subrange(4, 4 + len as int) =~= content);
}

} // verus!
