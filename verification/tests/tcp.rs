use logenough::logline::Logline;
use logenough::tcp::{
    classify_greeting, decimal_digits, decode_message, encode_frame, left_pad, parse_header,
    Greeting,
};

fn line_of(bytes: &[u8]) -> Logline {
    let mut line = Logline::new();
    line.fill_from(|buffer: &mut [u8]| -> Result<usize, ()> {
        buffer[..bytes.len()].copy_from_slice(bytes);
        Ok(bytes.len())
    })
    .unwrap();
    line
}

#[test]
fn left_pad_makes_three_digits() {
    assert_eq!("00", left_pad(0));
    assert_eq!("00", left_pad(9));
    assert_eq!("0", left_pad(10));
    assert_eq!("0", left_pad(99));
    assert_eq!("", left_pad(100));
    assert_eq!("", left_pad(508));
}

#[test]
fn decimal_digits_of_numbers() {
    assert_eq!(b"0".to_vec(), decimal_digits(0));
    assert_eq!(b"7".to_vec(), decimal_digits(7));
    assert_eq!(b"42".to_vec(), decimal_digits(42));
    assert_eq!(b"508".to_vec(), decimal_digits(508));
    assert_eq!(b"18446744073709551615".to_vec(), decimal_digits(u64::MAX as usize));
}

#[test]
fn frame_of_a_line() {
    assert_eq!(b"005:Hello,".to_vec(), encode_frame(&line_of(b"Hello")));
    assert_eq!(b"000:,".to_vec(), encode_frame(&Logline::new()));
    let long = [b'a'; 120];
    let mut expected = b"120:".to_vec();
    expected.extend_from_slice(&long);
    expected.push(b',');
    assert_eq!(expected, encode_frame(&line_of(&long)));
}

#[test]
fn frame_of_invalid_utf8_carries_the_replacement() {
    assert_eq!("001:\u{FFFD},".as_bytes().to_vec(), encode_frame(&line_of(&[0xff])));
}

#[test]
fn header_parsing() {
    assert_eq!(Some(5), parse_header(b"005:"));
    assert_eq!(Some(508), parse_header(b"508:"));
    assert_eq!(Some(999), parse_header(b"999:"));
    assert_eq!(Some(12), parse_header(b"+12:"));
    assert_eq!(None, parse_header(b"-12:"));
    assert_eq!(None, parse_header(b" 12:"));
    assert_eq!(None, parse_header(b"1a2:"));
    assert_eq!(None, parse_header(b"12"));
}

#[test]
fn message_decoding() {
    assert_eq!("Hello", decode_message(b"Hello,", 5));
    assert_eq!("", decode_message(b",", 0));
    assert_eq!("a\u{FFFD}", decode_message(&[b'a', 0xfe, b','], 2));
}

#[test]
fn frame_roundtrip_recovers_the_line() {
    for text in ["Hello", "", "ünïcödé line", "a,b:c"] {
        let line = line_of(text.as_bytes());
        let frame = encode_frame(&line);
        let length = parse_header(&frame[..4]).unwrap();
        assert_eq!(text.len(), length);
        assert_eq!(b':', frame[3]);
        assert_eq!(text, decode_message(&frame[4..4 + length + 1], length));
        assert_eq!(b',', frame[4 + length]);
    }
}

#[test]
fn greetings() {
    assert_eq!(Greeting::Hello, classify_greeting(&line_of(b"hello")));
    assert_eq!(Greeting::Bye, classify_greeting(&line_of(b"bye")));
    assert_eq!(Greeting::Unexpected, classify_greeting(&line_of(b"hello\n")));
    assert_eq!(Greeting::Unexpected, classify_greeting(&Logline::new()));
}
