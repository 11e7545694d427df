use logenough::listener::{
    listen_step, new_kept_lines, record_line, ListenerStep, CANCEL, EOT, KEPT_LINES,
};
use logenough::window::{push_recent, MainWindowState, SHOWN_LINES};

#[test]
fn listener_stops_on_cancel_eot_and_failed_receive() {
    assert_eq!(ListenerStep::Stop, listen_step(Some(&[CANCEL])));
    assert_eq!(ListenerStep::Stop, listen_step(Some(&[EOT])));
    assert_eq!(ListenerStep::Stop, listen_step(None));
}

#[test]
fn listener_keeps_text_lines() {
    assert_eq!(
        ListenerStep::Line("A test message".to_string()),
        listen_step(Some("A test message".as_bytes()))
    );
    assert_eq!(ListenerStep::Line(String::new()), listen_step(Some(&[])));
    assert_eq!(
        ListenerStep::Line("\u{18}\u{18}".to_string()),
        listen_step(Some(&[CANCEL, CANCEL]))
    );
    assert_eq!(ListenerStep::NotText, listen_step(Some(&[0xff, 0x00])));
}

#[test]
fn listener_test_listen() {
    let mut lines = new_kept_lines();
    let (tx, rx) = std::sync::mpsc::channel();
    let mut workers = vec![tx];

    let test_messages = ["A test message", "A very very long message", "A short msg"];

    let mut datagrams: Vec<Vec<u8>> = test_messages.iter().map(|m| m.as_bytes().to_vec()).collect();
    datagrams.push(vec![CANCEL]);

    for datagram in &datagrams {
        match listen_step(Some(datagram)) {
            ListenerStep::Stop => break,
            ListenerStep::NotText => panic!("Failed to convert bytes to string"),
            ListenerStep::Line(line) => {
                let forwarded = record_line(&mut lines, line);
                workers.retain(|worker| worker.send(forwarded.clone()).is_ok());
            }
        }
    }

    assert_eq!(3, lines.len());

    let mut messages = lines.iter();

    for message in test_messages {
        assert_eq!(
            &String::from(message),
            messages.next().unwrap_or(&String::from("Not that message"))
        );
        assert_eq!(
            String::from(message),
            rx.recv().unwrap_or(String::from("Not this message"))
        );
    }
}

#[test]
fn fresh_kept_lines_are_empty() {
    let lines = new_kept_lines();
    assert_eq!(0, lines.len());
    assert!(lines.back().is_none());
}

#[test]
fn kept_lines_are_the_latest() {
    let mut lines = new_kept_lines();
    assert_eq!(0, lines.len());
    for message in ["A test message", "A very very long message", "A short msg"] {
        assert_eq!(message, record_line(&mut lines, message.to_string()));
    }
    assert_eq!(3, lines.len());
    let kept: Vec<&String> = lines.iter().collect();
    assert_eq!(vec!["A test message", "A very very long message", "A short msg"], kept);
}

#[test]
fn kept_lines_drop_the_oldest_at_capacity() {
    let mut lines = new_kept_lines();
    for i in 0..KEPT_LINES + 3 {
        record_line(&mut lines, i.to_string());
    }
    assert_eq!(KEPT_LINES, lines.len());
    assert_eq!(Some(&"3".to_string()), lines.front());
    assert_eq!(Some(&(KEPT_LINES + 2).to_string()), lines.back());
}

#[test]
fn window_shows_the_latest_lines() {
    let mut logs = vec![];
    for i in 0..25 {
        push_recent(&mut logs, i.to_string());
    }
    assert_eq!(SHOWN_LINES, logs.len());
    assert_eq!("5", logs[0]);
    assert_eq!("24", logs[19]);
}

#[test]
fn window_keeps_the_latest_from_a_partial_start() {
    let mut logs: Vec<String> = (0..15).map(|i| i.to_string()).collect();
    for i in 15..30 {
        push_recent(&mut logs, i.to_string());
    }
    let expected: Vec<String> = (10..30).map(|i| i.to_string()).collect();
    assert_eq!(expected, logs);
}

#[test]
fn connection_form_starts_empty() {
    let state = MainWindowState::new();
    assert_eq!("", state.connection_name);
    assert_eq!("", state.connection_addr);
}
