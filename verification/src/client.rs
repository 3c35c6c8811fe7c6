//! What a terminal client makes of the events of a session and of the
//! lines that its user types.

use crate::message::{status_type, MessageType};
use crate::session::{Event, EventView};
use crate::tab::{ChatType, ChatTypeView};
use crate::text::{remove_first, split_words, str_eq, without_first, words_of};
use vstd::prelude::*;
use vstd::string::{StrSliceExecFns, StringExecFns};

verus! {

/// The text of a beep that came in.
pub const BEEPS_YOU: &'static str = "*beeps you*";

/// What a client shows of an event: a message in one of its chats, or a
/// report of its own.
#[derive(Clone, Debug, PartialEq, Eq)]
pub enum Shown {
    Message { to: ChatType, message_type: MessageType, from: String, body: String },
    Report(String),
}

/// A `Shown` as plain text.
pub enum ShownView {
    Message { to: ChatTypeView, message_type: MessageType, from: Seq<char>, body: Seq<char> },
    Report(Seq<char>),
}

impl View for Shown {
    type V = ShownView;

    open spec fn view(&self) -> ShownView {
        match *self {
            Shown::Message { to, message_type, from, body } => ShownView::Message {
                to: to@,
                message_type,
                from: from@,
                body: body@,
            },
            Shown::Report(text) => ShownView::Report(text@),
        }
    }
}

/// What is shown of an event, by a client that sits in the group `group`.
/// What was said in the open goes to the chat of the group, what was said
/// in person and a beep to the chat with who said it. A status message of a
/// known category goes to the chat of the group under the kind of its
/// category; one of an unknown category is reported with its category. The
/// protocol packet is reported as the connection it announces.
pub open spec fn shown_of(event: EventView, group: Seq<char>) -> ShownView {
    match event {
        EventView::Open { nickname, message } => ShownView::Message {
            to: ChatTypeView::Open(group),
            message_type: MessageType::Open,
            from: nickname,
            body: message,
        },
        EventView::Personal { nickname, message } => ShownView::Message {
            to: ChatTypeView::Personal(nickname),
            message_type: MessageType::Personal,
            from: nickname,
            body: message,
        },
        EventView::Beep { nickname } => ShownView::Message {
            to: ChatTypeView::Personal(nickname),
            message_type: MessageType::Beep,
            from: nickname,
            body: BEEPS_YOU@,
        },
        EventView::Status { category, message } => if status_type(category)
            == MessageType::Unknown {
            ShownView::Report(
                "=> Message '"@ + message + "' received in unknown category '"@ + category
                    + "'"@,
            )
        } else {
            ShownView::Message {
                to: ChatTypeView::Open(group),
                message_type: status_type(category),
                from: Seq::empty(),
                body: message,
            }
        },
        EventView::Protocol { hostid, clientid } => ShownView::Report(
            "==> Connected to "@ + clientid + " on "@ + hostid,
        ),
        EventView::Unrecognized => ShownView::Report("msg_r: read an unrecognized record"@),
    }
}

/// What a client that sits in the group `group` shows of an event.
pub fn show_event(event: Event, group: &str) -> (shown: Shown)
    ensures
        shown@ == shown_of(event@, group@),
{
    match event {
        Event::Open { nickname, message } => Shown::Message {
            to: ChatType::Open(group.to_owned()),
            message_type: MessageType::Open,
            from: nickname,
            body: message,
        },
        Event::Personal { nickname, message } => Shown::Message {
            to: ChatType::Personal(nickname.clone()),
            message_type: MessageType::Personal,
            from: nickname,
            body: message,
        },
        Event::Beep { nickname } => Shown::Message {
            to: ChatType::Personal(nickname.clone()),
            message_type: MessageType::Beep,
            from: nickname,
            body: BEEPS_YOU.to_owned(),
        },
        Event::Status { category, message } => {
            let message_type = MessageType::from_status_str(category.as_str());
            if message_type == MessageType::Unknown {
                let mut text = "=> Message '".to_owned();
                text.append(message.as_str());
                text.append("' received in unknown category '");
                text.append(category.as_str());
                text.append("'");
                Shown::Report(text)
            } else {
                Shown::Message {
                    to: ChatType::Open(group.to_owned()),
                    message_type,
                    from: String::new(),
                    body: message,
                }
            }
        },
        Event::Protocol { hostid, clientid } => {
            let mut text = "==> Connected to ".to_owned();
            text.append(clientid.as_str());
            text.append(" on ");
            text.append(hostid.as_str());
            Shown::Report(text)
        },
        Event::Unrecognized => Shown::Report("msg_r: read an unrecognized record".to_owned()),
    }
}

/// What a line that the user typed asks for.
#[derive(Clone, Debug, PartialEq, Eq)]
pub enum Typed {
    /// Leave.
    Quit,
    /// Say the text to the recipient.
    Personal { recipient: String, text: String },
    /// Beep the recipient.
    Beep(String),
    /// Take the nickname.
    Name(String),
    /// Say the line in the chat in front.
    Say(String),
    /// Nothing: the line is a command that is not known, or lacks what the
    /// command needs.
    Nothing,
}

/// A `Typed` as plain text.
pub enum TypedView {
    Quit,
    Personal { recipient: Seq<char>, text: Seq<char> },
    Beep(Seq<char>),
    Name(Seq<char>),
    Say(Seq<char>),
    Nothing,
}

impl View for Typed {
    type V = TypedView;

    open spec fn view(&self) -> TypedView {
        match *self {
            Typed::Quit => TypedView::Quit,
            Typed::Personal { recipient, text } => TypedView::Personal {
                recipient: recipient@,
                text: text@,
            },
            Typed::Beep(recipient) => TypedView::Beep(recipient@),
            Typed::Name(nickname) => TypedView::Name(nickname@),
            Typed::Say(text) => TypedView::Say(text@),
            Typed::Nothing => TypedView::Nothing,
        }
    }
}

/// The text of a personal message: the line without the command and
/// without the recipient between two spaces, so that the white space that
/// the user typed inside the text is kept.
pub open spec fn personal_text(line: Seq<char>, command: Seq<char>, recipient: Seq<char>) -> Seq<
    char,
> {
    without_first(without_first(line, command), " "@ + recipient + " "@)
}

/// What a line asks for. A line that begins with `/` is a command, which
/// is its first word: `/quit`; `/msg` or `/m` with a recipient and a text;
/// `/beep` with a recipient; `/name` or `/nick` with a nickname. Any other
/// line is said as it is.
pub open spec fn typed_of(line: Seq<char>) -> TypedView {
    let words = words_of(line);
    if line.len() == 0 || line[0] != '/' {
        TypedView::Say(line)
    } else if words.len() == 0 {
        TypedView::Nothing
    } else if words[0] == "/quit"@ {
        TypedView::Quit
    } else if (words[0] == "/msg"@ || words[0] == "/m"@) && words.len() > 2 {
        TypedView::Personal { recipient: words[1], text: personal_text(line, words[0], words[1]) }
    } else if words[0] == "/beep"@ && words.len() == 2 {
        TypedView::Beep(words[1])
    } else if (words[0] == "/name"@ || words[0] == "/nick"@) && words.len() == 2 {
        TypedView::Name(words[1])
    } else {
        TypedView::Nothing
    }
}

/// What a line that the user typed asks for.
pub fn typed_line(line: &str) -> (typed: Typed)
    ensures
        typed@ == typed_of(line@),
{
    if line.is_empty() || line.get_char(0) != '/' {
        return Typed::Say(line.to_owned());
    }
    let input = split_words(line);
    if input.len() == 0 {
        return Typed::Nothing;
    }
    let cmd = input[0];
    assert(input.deep_view()[0] == cmd@);
    if str_eq(cmd, "/quit") {
        Typed::Quit
    } else if (str_eq(cmd, "/msg") || str_eq(cmd, "/m")) && input.len() > 2 {
        let recipient = input[1];
        assert(input.deep_view()[1] == recipient@);
        let mut pattern = " ".to_owned();
        pattern.append(recipient);
        pattern.append(" ");
        let rest = remove_first(line, cmd);
        let text = remove_first(rest.as_str(), pattern.as_str());
        Typed::Personal { recipient: recipient.to_owned(), text }
    } else if str_eq(cmd, "/beep") && input.len() == 2 {
        assert(input.deep_view()[1] == input@[1]@);
        Typed::Beep(input[1].to_owned())
    } else if (str_eq(cmd, "/name") || str_eq(cmd, "/nick")) && input.len() == 2 {
        assert(input.deep_view()[1] == input@[1]@);
        Typed::Name(input[1].to_owned())
    } else {
        Typed::Nothing
    }
}

} // verus!
