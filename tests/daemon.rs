use brightnessd::command::{parse_command, Command};
use brightnessd::session::{Action, Event, Phase, Reply, Server};
use brightnessd::step::{decrease, increase};
use brightnessd::store::{parse_value, render_value, StoreError};

fn run_command(max: u32, request: &[u8], current: &[u8]) -> (Option<Vec<u8>>, &'static str) {
    let server = Server::new(max).unwrap();
    let (phase, action) = server.next(server.start(), Event::Received(request.to_vec()));
    let (phase, action) = match action {
        Action::FetchCurrent => server.next(phase, Event::Fetched(current.to_vec())),
        other => (phase, other),
    };
    match action {
        Action::Store(text) => {
            let (phase, action) = server.next(phase, Event::Stored);
            assert_eq!(phase, Phase::Done);
            match action {
                Action::Respond(reply) => (Some(text), reply.text()),
                other => panic!("unexpected action {:?}", other),
            }
        }
        Action::Respond(reply) => {
            assert_eq!(phase, Phase::Done);
            (None, reply.text())
        }
        other => panic!("unexpected action {:?}", other),
    }
}

#[test]
fn increase_adds_five_percent() {
    assert_eq!(increase(1000, 500), 550);
    assert_eq!(increase(1000, 0), 50);
    assert_eq!(increase(937, 100), 146);
}

#[test]
fn increase_clamps_to_maximum() {
    assert_eq!(increase(1000, 980), 1000);
    assert_eq!(increase(1000, 1000), 1000);
    assert_eq!(increase(1000, 1200), 1000);
    assert_eq!(increase(u32::MAX, u32::MAX - 1), u32::MAX);
}

#[test]
fn increase_stays_in_range_for_every_value() {
    for max in [1u32, 19, 20, 100, 937, 1000] {
        for c in 0..=max {
            let r = increase(max, c);
            assert!(r <= max);
            assert_eq!(r as u64, std::cmp::min(max as u64, c as u64 + (max / 20) as u64));
        }
    }
}

#[test]
fn decrease_removes_five_percent() {
    assert_eq!(decrease(1000, 500), 450);
    assert_eq!(decrease(937, 500), 454);
}

#[test]
fn decrease_stops_at_one_percent() {
    assert_eq!(decrease(1000, 15), 10);
    assert_eq!(decrease(1000, 0), 10);
    assert_eq!(decrease(1000, 10), 10);
    assert_eq!(decrease(1000, 60), 10);
    assert_eq!(decrease(1000, 61), 11);
}

#[test]
fn decrease_stays_in_range_for_every_value() {
    for max in [1u32, 19, 20, 100, 937, 1000] {
        for c in 0..=max {
            let r = decrease(max, c);
            assert!(max / 100 <= r && r <= max);
            assert_eq!(r as i64, std::cmp::max((max / 100) as i64, c as i64 - (max / 20) as i64));
        }
    }
}

#[test]
fn repeated_steps_settle() {
    let max: u32 = 1000;
    let mut c: u32 = 3;
    for _ in 0..(max - 3) {
        c = increase(max, c);
    }
    assert_eq!(c, max);
    assert_eq!(increase(max, c), max);
    for _ in 0..max {
        c = decrease(max, c);
    }
    assert_eq!(c, 10);
    assert_eq!(decrease(max, c), 10);
}

#[test]
fn small_maximum_never_moves() {
    assert_eq!(increase(19, 7), 7);
    assert_eq!(decrease(19, 7), 7);
}

#[test]
fn store_round_trip() {
    for v in [0u32, 7, 10, 550, 1000, 4294967295] {
        assert_eq!(parse_value(&render_value(v)), Ok(v));
    }
}

#[test]
fn render_writes_digits_and_newline() {
    assert_eq!(render_value(550), b"550\n".to_vec());
    assert_eq!(render_value(0), b"0\n".to_vec());
    assert_eq!(render_value(4294967295), b"4294967295\n".to_vec());
}

#[test]
fn parse_trims_whitespace() {
    assert_eq!(parse_value(b"937\n"), Ok(937));
    assert_eq!(parse_value(b"  42 \t\r\n"), Ok(42));
    assert_eq!(parse_value(b"007"), Ok(7));
}

#[test]
fn parse_rejects_malformed_text() {
    assert_eq!(parse_value(b""), Err(StoreError::Parse));
    assert_eq!(parse_value(b" \n"), Err(StoreError::Parse));
    assert_eq!(parse_value(b"abc"), Err(StoreError::Parse));
    assert_eq!(parse_value(b"-5"), Err(StoreError::Parse));
    assert_eq!(parse_value(b"4 2"), Err(StoreError::Parse));
    assert_eq!(parse_value(b"4294967296"), Err(StoreError::Parse));
    assert_eq!(parse_value(b"99999999999999999999"), Err(StoreError::Parse));
}

#[test]
fn commands_parse() {
    assert_eq!(parse_command(b"+"), Some(Command::Increase));
    assert_eq!(parse_command(b"+\n"), Some(Command::Increase));
    assert_eq!(parse_command(b"+\0\0\0"), Some(Command::Increase));
    assert_eq!(parse_command(b"+ \r\n\0\0"), Some(Command::Increase));
    assert_eq!(parse_command(b"-"), Some(Command::Decrease));
    assert_eq!(parse_command(b"-\n"), Some(Command::Decrease));
    assert_eq!(parse_command(b"-\0\0\0"), Some(Command::Decrease));
}

#[test]
fn invalid_commands_are_refused() {
    assert_eq!(parse_command(b""), None);
    assert_eq!(parse_command(b"x"), None);
    assert_eq!(parse_command(b"++"), None);
    assert_eq!(parse_command(b" +"), None);
    assert_eq!(parse_command(b"+\0 "), None);
    assert_eq!(parse_command(&[0u8; 1024]), None);
}

#[test]
fn server_needs_positive_maximum() {
    assert!(Server::new(0).is_none());
    assert_eq!(Server::new(937).unwrap().max_brightness(), 937);
}

#[test]
fn replies_are_lines() {
    assert_eq!(Reply::Changed.text(), "Ok\n");
    assert_eq!(Reply::CannotChange.text(), "Error: Cannot change brightness\n");
    assert_eq!(Reply::Invalid.text(), "Invalid request\n");
}

#[test]
fn increase_from_half() {
    let (stored, reply) = run_command(1000, b"+", b"500\n");
    assert_eq!(stored, Some(b"550\n".to_vec()));
    assert_eq!(reply, "Ok\n");
}

#[test]
fn decrease_near_floor() {
    let (stored, reply) = run_command(1000, b"-", b"15\n");
    assert_eq!(stored, Some(b"10\n".to_vec()));
    assert_eq!(reply, "Ok\n");
}

#[test]
fn padded_request_from_full_buffer() {
    let mut buffer = [0u8; 1024];
    buffer[0] = b'-';
    buffer[1] = b'\n';
    let (stored, reply) = run_command(1000, &buffer, b"500");
    assert_eq!(stored, Some(b"450\n".to_vec()));
    assert_eq!(reply, "Ok\n");
}

#[test]
fn unwritable_store_reports_error() {
    let server = Server::new(1000).unwrap();
    let (phase, action) = server.next(server.start(), Event::Received(b"+".to_vec()));
    assert_eq!(action, Action::FetchCurrent);
    let (phase, action) = server.next(phase, Event::Fetched(b"500\n".to_vec()));
    assert_eq!(action, Action::Store(b"550\n".to_vec()));
    let (phase, action) = server.next(phase, Event::StoreFailed);
    assert_eq!(phase, Phase::Done);
    assert_eq!(action, Action::Respond(Reply::CannotChange));
    assert_eq!(Reply::CannotChange.text(), "Error: Cannot change brightness\n");
    // The next exchange starts afresh.
    let (_, action) = server.next(server.start(), Event::Received(b"-".to_vec()));
    assert_eq!(action, Action::FetchCurrent);
}

#[test]
fn unreadable_store_reports_error() {
    let server = Server::new(1000).unwrap();
    let (phase, _) = server.next(server.start(), Event::Received(b"-".to_vec()));
    let (phase, action) = server.next(phase, Event::FetchFailed);
    assert_eq!(phase, Phase::Done);
    assert_eq!(action, Action::Respond(Reply::CannotChange));
}

#[test]
fn unparsable_store_reports_error() {
    let (stored, reply) = run_command(1000, b"+", b"bright\n");
    assert_eq!(stored, None);
    assert_eq!(reply, "Error: Cannot change brightness\n");
}

#[test]
fn malformed_request_leaves_store_alone() {
    for request in [&b""[..], b"x", b"++", b"hello"] {
        let (stored, reply) = run_command(1000, request, b"500\n");
        assert_eq!(stored, None);
        assert_eq!(reply, "Invalid request\n");
    }
}

#[test]
fn failed_receive_closes_silently() {
    let server = Server::new(1000).unwrap();
    let (phase, action) = server.next(server.start(), Event::ReceiveFailed);
    assert_eq!(phase, Phase::Done);
    assert_eq!(action, Action::Close);
}

#[test]
fn out_of_order_event_closes() {
    let server = Server::new(1000).unwrap();
    let (phase, action) = server.next(server.start(), Event::Stored);
    assert_eq!(phase, Phase::Done);
    assert_eq!(action, Action::Close);
    let (phase, action) = server.next(Phase::Done, Event::Received(b"+".to_vec()));
    assert_eq!(phase, Phase::Done);
    assert_eq!(action, Action::Close);
}
