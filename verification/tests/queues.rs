use crossbeam_channel::{bounded, unbounded};
use icb::queues::{gather, pump, settle, Offered, Polled};
use icb::session::{Command, CommandAction, Event, Server, SessionError, SessionState};

fn frame(tag: u8, payload: &[u8]) -> Vec<u8> {
    let mut v = vec![(payload.len() + 2) as u8, tag];
    v.extend_from_slice(payload);
    v.push(0);
    v
}

fn active(nickname: &str) -> Server {
    let mut server = Server::new("localhost", 7326, nickname);
    server.connect();
    server.connected(true).unwrap();
    server.read(&frame(b'j', b"1\x01host\x01client")).unwrap();
    server.read(&[2, b'a', 0]).unwrap();
    server
}

#[test]
fn pump_takes_what_is_queued_and_publishes() {
    let mut server = active("alice");
    let (cmd_s, cmd_r) = unbounded();
    let (msg_s, msg_r) = unbounded();
    cmd_s.send(Command::Open("one".to_string())).unwrap();
    cmd_s.send(Command::Beep("bob".to_string())).unwrap();
    let pumped = pump(&mut server, &cmd_r, &msg_s, &frame(b'b', b"bob\x01hi"));
    assert_eq!(
        pumped.actions,
        vec![
            CommandAction::Send(frame(b'b', b"alice\x01one")),
            CommandAction::Send(frame(b'h', b"beep\x01bob")),
        ]
    );
    assert_eq!(pumped.unsent, None);
    assert_eq!(pumped.error, None);
    assert_eq!(
        msg_r.try_recv(),
        Ok(Event::Open {
            nickname: "bob".to_string(),
            message: "hi".to_string(),
        })
    );
    assert!(msg_r.try_recv().is_err());
    assert!(cmd_r.is_empty());
    assert_eq!(server.state(), SessionState::Active);
}

#[test]
fn pump_on_empty_queues() {
    let mut server = active("alice");
    let (_cmd_s, cmd_r) = unbounded::<Command>();
    let (msg_s, msg_r) = unbounded::<Event>();
    let pumped = pump(&mut server, &cmd_r, &msg_s, &[]);
    assert!(pumped.actions.is_empty());
    assert_eq!(pumped.unsent, None);
    assert_eq!(pumped.error, None);
    assert!(msg_r.is_empty());
    assert_eq!(server.state(), SessionState::Active);
}

#[test]
fn pump_keeps_the_order_of_events() {
    let mut server = active("alice");
    let (cmd_s, cmd_r) = unbounded();
    let (msg_s, msg_r) = unbounded();
    for i in 0..10 {
        cmd_s.send(Command::Open(format!("c{}", i))).unwrap();
        let text = format!("bob\x01m{}", i);
        let pumped = pump(&mut server, &cmd_r, &msg_s, &frame(b'b', text.as_bytes()));
        assert_eq!(pumped.actions.len(), 1);
    }
    let got: Vec<Event> = msg_r.try_iter().collect();
    let expected: Vec<Event> = (0..10)
        .map(|i| Event::Open {
            nickname: "bob".to_string(),
            message: format!("m{}", i),
        })
        .collect();
    assert_eq!(got, expected);
}

#[test]
fn pump_after_bye_publishes_nothing() {
    let mut server = active("alice");
    let (cmd_s, cmd_r) = unbounded();
    let (msg_s, msg_r) = unbounded();
    cmd_s.send(Command::Bye).unwrap();
    let pumped = pump(&mut server, &cmd_r, &msg_s, &frame(b'b', b"bob\x01hi"));
    assert_eq!(pumped.actions, vec![CommandAction::Shutdown]);
    assert_eq!(pumped.error, None);
    assert!(msg_r.is_empty());
    assert_eq!(server.state(), SessionState::Closing);
    cmd_s.send(Command::Open("x".to_string())).unwrap();
    let pumped = pump(&mut server, &cmd_r, &msg_s, &frame(b'b', b"bob\x01hi"));
    assert_eq!(pumped.actions, vec![CommandAction::Ignored]);
    assert!(msg_r.is_empty());
}

#[test]
fn pump_learns_that_the_command_queue_is_closed() {
    let mut server = active("alice");
    let (cmd_s, cmd_r) = unbounded();
    let (msg_s, msg_r) = unbounded();
    cmd_s.send(Command::Open("last".to_string())).unwrap();
    drop(cmd_s);
    let pumped = pump(&mut server, &cmd_r, &msg_s, &[]);
    assert_eq!(pumped.actions.len(), 1);
    assert_eq!(pumped.error, None);
    let pumped = pump(&mut server, &cmd_r, &msg_s, &frame(b'k', b"bob"));
    assert!(pumped.actions.is_empty());
    assert_eq!(pumped.error, Some(SessionError::QueueClosed));
    assert_eq!(server.state(), SessionState::Closing);
    assert_eq!(
        msg_r.try_recv(),
        Ok(Event::Beep {
            nickname: "bob".to_string()
        })
    );
}

#[test]
fn pump_learns_that_the_event_queue_is_closed() {
    let mut server = active("alice");
    let (_cmd_s, cmd_r) = unbounded::<Command>();
    let (msg_s, msg_r) = unbounded::<Event>();
    drop(msg_r);
    let pumped = pump(&mut server, &cmd_r, &msg_s, &[]);
    assert_eq!(pumped.error, None);
    let pumped = pump(&mut server, &cmd_r, &msg_s, &frame(b'k', b"bob"));
    assert_eq!(pumped.error, Some(SessionError::QueueClosed));
    assert_eq!(pumped.unsent, None);
    assert_eq!(server.state(), SessionState::Closing);
}

#[test]
fn pump_hands_back_what_a_full_queue_does_not_take() {
    let mut server = active("alice");
    let (_cmd_s, cmd_r) = unbounded::<Command>();
    let (msg_s, msg_r) = bounded::<Event>(1);
    let pumped = pump(&mut server, &cmd_r, &msg_s, &frame(b'k', b"bob"));
    assert_eq!(pumped.unsent, None);
    let pumped = pump(&mut server, &cmd_r, &msg_s, &frame(b'k', b"carol"));
    assert_eq!(
        pumped.unsent,
        Some(Event::Beep {
            nickname: "carol".to_string()
        })
    );
    assert_eq!(pumped.error, None);
    assert_eq!(msg_r.len(), 1);
    assert_eq!(server.state(), SessionState::Active);
}

#[test]
fn gather_takes_what_a_look_found() {
    let mut taken = vec![Command::Open("one".to_string())];
    assert_eq!(gather(&mut taken, Polled::Command(Command::Bye)), None);
    assert_eq!(taken, vec![Command::Open("one".to_string()), Command::Bye]);
    assert_eq!(gather(&mut taken, Polled::Empty), Some(true));
    assert_eq!(taken.len(), 2);
    assert_eq!(gather(&mut taken, Polled::Closed), Some(false));
    assert_eq!(taken, vec![Command::Open("one".to_string()), Command::Bye]);
    let mut none = Vec::new();
    assert_eq!(gather(&mut none, Polled::Closed), Some(false));
    assert!(none.is_empty());
}

#[test]
fn pump_takes_no_more_than_was_queued_in_their_order() {
    let mut server = active("alice");
    let (cmd_s, cmd_r) = unbounded();
    let (msg_s, _msg_r) = unbounded();
    for i in 0..5 {
        cmd_s.send(Command::Beep(format!("u{}", i))).unwrap();
    }
    let pumped = pump(&mut server, &cmd_r, &msg_s, &[]);
    let expected: Vec<CommandAction> = (0..5)
        .map(|i| CommandAction::Send(frame(b'h', format!("beep\x01u{}", i).as_bytes())))
        .collect();
    assert_eq!(pumped.actions, expected);
    assert!(cmd_r.is_empty());
    assert_eq!(pumped.error, None);
}

fn beep(nickname: &str) -> Event {
    Event::Beep {
        nickname: nickname.to_string(),
    }
}

#[test]
fn settle_with_open_queues() {
    let mut server = active("alice");
    assert_eq!(settle(&mut server, true, None), (None, None));
    assert_eq!(settle(&mut server, true, Some(Offered::Taken)), (None, None));
    assert_eq!(server.state(), SessionState::Active);
}

#[test]
fn settle_hands_back_what_a_full_queue_gave_back() {
    let mut server = active("alice");
    assert_eq!(
        settle(&mut server, true, Some(Offered::Full(beep("bob")))),
        (Some(beep("bob")), None)
    );
    assert_eq!(server.state(), SessionState::Active);
    assert_eq!(
        settle(&mut server, false, Some(Offered::Full(beep("bob")))),
        (Some(beep("bob")), Some(SessionError::QueueClosed))
    );
    assert_eq!(server.state(), SessionState::Closing);
}

#[test]
fn settle_ends_an_active_session_on_a_closed_queue() {
    let mut server = active("alice");
    assert_eq!(
        settle(&mut server, false, None),
        (None, Some(SessionError::QueueClosed))
    );
    assert_eq!(server.state(), SessionState::Closing);
    let mut server = active("alice");
    assert_eq!(
        settle(&mut server, true, Some(Offered::Closed(beep("bob")))),
        (None, Some(SessionError::QueueClosed))
    );
    assert_eq!(server.state(), SessionState::Closing);
    let mut server = active("alice");
    assert_eq!(
        settle(&mut server, false, Some(Offered::Taken)),
        (None, Some(SessionError::QueueClosed))
    );
    assert_eq!(server.state(), SessionState::Closing);
}

#[test]
fn settle_on_a_session_that_is_not_active() {
    let mut server = active("alice");
    server.command(&Command::Bye);
    assert_eq!(settle(&mut server, false, None), (None, None));
    assert_eq!(server.state(), SessionState::Closing);
    assert_eq!(
        settle(&mut server, true, Some(Offered::Closed(beep("bob")))),
        (None, None)
    );
    assert_eq!(server.state(), SessionState::Closing);
    let mut server = Server::new("localhost", 7326, "alice");
    assert_eq!(settle(&mut server, false, None), (None, None));
    assert_eq!(server.state(), SessionState::Disconnected);
}

#[test]
fn no_turn_publishes_after_a_queue_was_closed() {
    let mut server = active("alice");
    let (cmd_s, cmd_r) = unbounded::<Command>();
    let (msg_s, msg_r) = unbounded::<Event>();
    drop(cmd_s);
    let pumped = pump(&mut server, &cmd_r, &msg_s, &[]);
    assert_eq!(pumped.error, Some(SessionError::QueueClosed));
    assert_eq!(server.state(), SessionState::Closing);
    for _ in 0..3 {
        let pumped = pump(&mut server, &cmd_r, &msg_s, &frame(b'k', b"bob"));
        assert!(pumped.actions.is_empty());
        assert_eq!(pumped.unsent, None);
        assert_eq!(pumped.error, None);
        assert_eq!(server.state(), SessionState::Closing);
    }
    assert!(msg_r.is_empty());
}
