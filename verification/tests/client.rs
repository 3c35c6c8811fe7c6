use icb::client::{show_event, typed_line, Shown, Typed, BEEPS_YOU};
use icb::message::MessageType;
use icb::session::Event;
use icb::tab::ChatType;

#[test]
fn open_messages_go_to_the_group() {
    assert_eq!(
        show_event(
            Event::Open {
                nickname: "bob".to_string(),
                message: "hi all".to_string(),
            },
            "1"
        ),
        Shown::Message {
            to: ChatType::Open("1".to_string()),
            message_type: MessageType::Open,
            from: "bob".to_string(),
            body: "hi all".to_string(),
        }
    );
}

#[test]
fn personal_messages_and_beeps_go_to_their_sender() {
    assert_eq!(
        show_event(
            Event::Personal {
                nickname: "bob".to_string(),
                message: "psst".to_string(),
            },
            "1"
        ),
        Shown::Message {
            to: ChatType::Personal("bob".to_string()),
            message_type: MessageType::Personal,
            from: "bob".to_string(),
            body: "psst".to_string(),
        }
    );
    assert_eq!(BEEPS_YOU, "*beeps you*");
    assert_eq!(
        show_event(
            Event::Beep {
                nickname: "bob".to_string(),
            },
            "1"
        ),
        Shown::Message {
            to: ChatType::Personal("bob".to_string()),
            message_type: MessageType::Beep,
            from: "bob".to_string(),
            body: "*beeps you*".to_string(),
        }
    );
}

#[test]
fn status_messages_by_category() {
    assert_eq!(
        show_event(
            Event::Status {
                category: "Arrive".to_string(),
                message: "bob has joined".to_string(),
            },
            "lounge"
        ),
        Shown::Message {
            to: ChatType::Open("lounge".to_string()),
            message_type: MessageType::Arrive,
            from: String::new(),
            body: "bob has joined".to_string(),
        }
    );
    assert_eq!(
        show_event(
            Event::Status {
                category: "Whatever".to_string(),
                message: "odd".to_string(),
            },
            "lounge"
        ),
        Shown::Report("=> Message 'odd' received in unknown category 'Whatever'".to_string())
    );
}

#[test]
fn the_protocol_packet_is_reported() {
    assert_eq!(
        show_event(
            Event::Protocol {
                hostid: "host.example".to_string(),
                clientid: "icbd 1.2".to_string(),
            },
            "1"
        ),
        Shown::Report("==> Connected to icbd 1.2 on host.example".to_string())
    );
    assert_eq!(
        show_event(Event::Unrecognized, "1"),
        Shown::Report("msg_r: read an unrecognized record".to_string())
    );
}

#[test]
fn plain_lines_are_said() {
    assert_eq!(typed_line("hello there"), Typed::Say("hello there".to_string()));
    assert_eq!(typed_line(""), Typed::Say(String::new()));
    assert_eq!(typed_line(" /quit"), Typed::Say(" /quit".to_string()));
    assert_eq!(typed_line("a/b"), Typed::Say("a/b".to_string()));
}

#[test]
fn quit() {
    assert_eq!(typed_line("/quit"), Typed::Quit);
    assert_eq!(typed_line("/quit now please"), Typed::Quit);
    assert_eq!(typed_line("/quitnow"), Typed::Nothing);
}

#[test]
fn personal_message_lines() {
    assert_eq!(
        typed_line("/msg bob hello there"),
        Typed::Personal {
            recipient: "bob".to_string(),
            text: "hello there".to_string(),
        }
    );
    assert_eq!(
        typed_line("/m bob  two  spaces "),
        Typed::Personal {
            recipient: "bob".to_string(),
            text: " two  spaces ".to_string(),
        }
    );
    assert_eq!(
        typed_line("/msg  bob hello"),
        Typed::Personal {
            recipient: "bob".to_string(),
            text: " hello".to_string(),
        }
    );
    assert_eq!(
        typed_line("/msg\tbob\thello"),
        Typed::Personal {
            recipient: "bob".to_string(),
            text: "\tbob\thello".to_string(),
        }
    );
    assert_eq!(
        typed_line("/m m m m"),
        Typed::Personal {
            recipient: "m".to_string(),
            text: "m m".to_string(),
        }
    );
    assert_eq!(typed_line("/msg bob"), Typed::Nothing);
    assert_eq!(typed_line("/msg"), Typed::Nothing);
}

#[test]
fn beep_and_name_lines() {
    assert_eq!(typed_line("/beep bob"), Typed::Beep("bob".to_string()));
    assert_eq!(typed_line("/beep   bob  "), Typed::Beep("bob".to_string()));
    assert_eq!(typed_line("/beep"), Typed::Nothing);
    assert_eq!(typed_line("/beep bob carol"), Typed::Nothing);
    assert_eq!(typed_line("/name alicia"), Typed::Name("alicia".to_string()));
    assert_eq!(typed_line("/nick alicia"), Typed::Name("alicia".to_string()));
    assert_eq!(typed_line("/name"), Typed::Nothing);
    assert_eq!(typed_line("/name a b"), Typed::Nothing);
}

#[test]
fn unknown_commands_ask_for_nothing() {
    assert_eq!(typed_line("/"), Typed::Nothing);
    assert_eq!(typed_line("/help"), Typed::Nothing);
    assert_eq!(typed_line("/ msg bob hi"), Typed::Nothing);
}
