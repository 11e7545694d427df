use logenough::logdata::{sub_thread_stack_size, LogData};
use logenough::logline::{LockedLogline, Logline, LINE_CAPACITY};
use logenough::receiver::Receiver;
use std::sync::Arc;

struct TErr {}

#[test]
fn test_increment_and_wrap() {
    let logdata = LogData::<2>::new();
    assert_eq!(1usize, *logdata.reference.lock());

    assert_eq!(0usize, logdata.increment());
    assert_eq!(0usize, *logdata.reference.lock());

    assert_eq!(1usize, logdata.increment());
}

#[test]
fn test_receive_bytes_read() {
    let logdata = LogData::<2>::new();

    let receive = |_buffer: &mut [u8]| -> Result<usize, TErr> { Ok(1usize) };

    let result = logdata.receive(receive);

    assert!(result.is_ok());
    assert_eq!(1usize, logdata.data[0].lock().line().bytes_read());
}

#[test]
fn test_receive_data() {
    let logdata = LogData::<2>::new();

    let receive = |buffer: &mut [u8]| -> Result<usize, TErr> {
        let hello = "Hello".as_bytes();
        for (index, byte) in hello.iter().enumerate() {
            buffer[index] = *byte;
        }
        Ok(hello.len())
    };

    let result = logdata.receive(receive);

    assert!(result.is_ok());
    assert_eq!(5usize, logdata.data[0].lock().line().bytes_read());
    assert_eq!(format!("Hello"), logdata.data[0].lock().line().to_string());
}

#[test]
fn test_receive() {
    let logdata = Arc::new(LogData::<5>::new());
    let mut receiver = Receiver::new(&logdata);

    let func: fn(&mut [u8]) -> Result<usize, ()> = |buffer: &mut [u8]| {
        for (index, byte) in "Hello".as_bytes().iter().enumerate() {
            buffer[index] = *byte;
        }
        Ok("Hello".len())
    };

    logdata.receive(func).unwrap();
    logdata.receive(func).unwrap();

    assert_eq!(format!("{}", "Hello"), logdata.data[0].lock().line().to_string());

    // One round of the reader with the interrupt already set: it catches up once.
    let (upcoming, _waited) = receiver.upcoming_read();
    assert!(upcoming < 5);
    receiver.catch_up(upcoming, |logline| {
        assert_eq!(format!("{}", "Hello"), logline.to_string());
    });
    assert_eq!(1, receiver.position());
}

#[test]
fn receive_error_leaves_the_line_empty() {
    let logdata = LogData::<3>::new();
    let ok = |buffer: &mut [u8]| -> Result<usize, String> {
        buffer[0] = b'x';
        Ok(1)
    };
    logdata.receive(ok).unwrap();
    let failing = |_buffer: &mut [u8]| -> Result<usize, String> { Err("gone".to_string()) };
    assert_eq!(Err("gone".to_string()), logdata.receive(failing));
    assert_eq!(0, logdata.data[1].lock().line().bytes_read());
    assert_eq!(1, *logdata.reference.lock());
    assert_eq!(1, logdata.data[0].lock().line().bytes_read());
}

#[test]
fn writer_wraps_over_the_ring() {
    let logdata = LogData::<3>::new();
    let positions: Vec<usize> = (0..7).map(|_| logdata.increment()).collect();
    assert_eq!(vec![0, 1, 2, 0, 1, 2, 0], positions);
}

#[test]
fn reader_delivers_lines_in_order_and_stops_before_the_writer() {
    let logdata = Arc::new(LogData::<4>::new());
    for word in ["a", "bb", "ccc"] {
        logdata
            .receive(|buffer: &mut [u8]| -> Result<usize, ()> {
                buffer[..word.len()].copy_from_slice(word.as_bytes());
                Ok(word.len())
            })
            .unwrap();
    }
    let mut receiver = Receiver::new(&logdata);
    let (upcoming, _waited) = receiver.upcoming_read();
    assert_eq!(2, upcoming);
    let seen = std::cell::RefCell::new(vec![]);
    let visited = receiver.catch_up(upcoming, |line| seen.borrow_mut().push(line.to_string()));
    assert_eq!(vec![0usize, 1], visited);
    assert_eq!(vec!["a".to_string(), "bb".to_string()], seen.into_inner());
    assert_eq!(2, receiver.position());
}

#[test]
fn reader_catches_up_across_the_end_of_the_ring() {
    let logdata = Arc::new(LogData::<3>::new());
    let mut receiver = Receiver::new(&logdata);
    receiver.increment();
    receiver.increment();
    let visited = receiver.catch_up(1, |_line| {});
    assert_eq!(vec![2usize, 0], visited);
    assert_eq!(1, receiver.position());
    assert!(receiver.catch_up(1, |_line| panic!("nothing to read")).is_empty());
}

#[test]
fn fresh_reader_reads_the_empty_slots_before_the_writer() {
    let logdata = Arc::new(LogData::<3>::new());
    let mut receiver = Receiver::new(&logdata);
    let (upcoming, _waited) = receiver.upcoming_read();
    assert_eq!(2, upcoming);
    let seen = std::cell::RefCell::new(vec![]);
    let visited = receiver.catch_up(upcoming, |line| {
        seen.borrow_mut().push((line.bytes_read(), line.to_string()))
    });
    assert_eq!(vec![0usize, 1], visited);
    assert_eq!(vec![(0, String::new()), (0, String::new())], seen.into_inner());
}

#[test]
fn reader_wraps_around_the_ring() {
    let logdata = Arc::new(LogData::<3>::new());
    let mut receiver = Receiver::new(&logdata);
    assert_eq!(1, receiver.increment());
    assert_eq!(2, receiver.increment());
    assert_eq!(0, receiver.increment());
}

#[test]
fn logline_starts_empty() {
    let line = Logline::new();
    assert_eq!(0, line.bytes_read());
    assert_eq!(LINE_CAPACITY, line.buffer().len());
    assert!(line.buffer().iter().all(|b| *b == 0));
    assert_eq!("", line.to_string());
    assert!(line.received_bytes().is_empty());
}

#[test]
fn logline_text_replaces_invalid_utf8() {
    let mut line = Logline::new();
    line.fill_from(|buffer: &mut [u8]| -> Result<usize, ()> {
        buffer[0] = b'o';
        buffer[1] = 0xff;
        buffer[2] = b'k';
        Ok(3)
    })
    .unwrap();
    assert_eq!(3, line.bytes_read());
    assert_eq!(&[b'o', 0xff, b'k'], line.received_bytes());
    assert_eq!("o\u{FFFD}k", line.to_string());
}

#[test]
fn locked_logline_shows_its_text() {
    let locked = LockedLogline::new();
    assert_eq!("", locked.to_string());
}

#[test]
fn default_log_is_a_new_log() {
    let logdata = LogData::<4>::default();
    assert_eq!(3usize, *logdata.reference.lock());
    assert!(logdata.data.iter().all(|line| line.lock().line().bytes_read() == 0));
    assert_eq!(0, logdata.increment());
}

#[test]
fn locked_line_text_is_what_it_holds() {
    let logdata = LogData::<2>::new();
    logdata
        .receive(|buffer: &mut [u8]| -> Result<usize, ()> {
            buffer[..3].copy_from_slice(b"abc");
            Ok(3)
        })
        .unwrap();
    assert_eq!("abc", logdata.data[0].to_string());
}

#[test]
fn stack_size_for_the_building_thread() {
    assert_eq!(1000 * 10 + 30_000, sub_thread_stack_size(1000, true));
    assert_eq!(1000 * 2 + 30_000, sub_thread_stack_size(1000, false));
}
