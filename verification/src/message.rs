//! One line of a chat as the views show it: when it came, what kind it is,
//! from whom, and the text.

use crate::text::str_eq;
use crate::tailview::ViewOptions;
use chrono::{Local, NaiveDateTime};
use vstd::prelude::*;
use vstd::string::StringExecFns;

verus! {

/// `NaiveDateTime` of the crate `chrono`: a date with a time of day, without
/// a time zone. Nothing is said of what it holds.
#[verifier::external_type_specification]
#[verifier::external_body]
pub struct ExNaiveDateTime(NaiveDateTime);

/// The pattern for the time of day alone.
pub const TIME_PATTERN: &'static str = "%H:%M";

/// The pattern for the day and the time of day.
pub const DATE_PATTERN: &'static str = "%b-%d %H:%M";

/// `NaiveDateTime::format` of the crate `chrono`, written out as a string:
/// the moment in the form that the pattern asks for. Only the two patterns
/// of this module are handed to it; both are well formed, so that the
/// writing out cannot fail.
#[verifier::external_body]
fn format_moment(moment: &NaiveDateTime, pattern: &str) -> (text: String)
    requires
        pattern@ == TIME_PATTERN@ || pattern@ == DATE_PATTERN@,
{
    moment.format(pattern).to_string()
}

/// `Local::now` of the crate `chrono`, as local time without its offset:
/// the moment at which it is called.
#[verifier::external_body]
pub(crate) fn local_now() -> NaiveDateTime {
    Local::now().naive_local()
}

/// The kinds of line that a view shows.
#[derive(Clone, Copy, Debug, PartialEq, Eq, Structural)]
pub enum MessageType {
    Arrive,
    Beep,
    Boot,
    Depart,
    Help,
    Name,
    NoBeep,
    Notify,
    Open,
    Personal,
    SignOff,
    SignOn,
    Status,
    Topic,
    Unknown,
    Warning,
}

/// The kind that the category of a status packet stands for. A category
/// that is not known gives `Unknown`.
pub open spec fn status_type(category: Seq<char>) -> MessageType {
    if category == "Arrive"@ {
        MessageType::Arrive
    } else if category == "Boot"@ {
        MessageType::Boot
    } else if category == "Depart"@ {
        MessageType::Depart
    } else if category == "Help"@ {
        MessageType::Help
    } else if category == "Name"@ {
        MessageType::Name
    } else if category == "No-Beep"@ {
        MessageType::NoBeep
    } else if category == "Notify"@ {
        MessageType::Notify
    } else if category == "Sign-off"@ {
        MessageType::SignOff
    } else if category == "Sign-on"@ {
        MessageType::SignOn
    } else if category == "Status"@ {
        MessageType::Status
    } else if category == "Topic"@ {
        MessageType::Topic
    } else if category == "Warning"@ {
        MessageType::Warning
    } else {
        MessageType::Unknown
    }
}

impl MessageType {
    /// The kind that the category of a status packet stands for.
    pub fn from_status_str(s: &str) -> (t: MessageType)
        ensures
            t == status_type(s@),
    {
        if str_eq(s, "Arrive") {
            MessageType::Arrive
        } else if str_eq(s, "Boot") {
            MessageType::Boot
        } else if str_eq(s, "Depart") {
            MessageType::Depart
        } else if str_eq(s, "Help") {
            MessageType::Help
        } else if str_eq(s, "Name") {
            MessageType::Name
        } else if str_eq(s, "No-Beep") {
            MessageType::NoBeep
        } else if str_eq(s, "Notify") {
            MessageType::Notify
        } else if str_eq(s, "Sign-off") {
            MessageType::SignOff
        } else if str_eq(s, "Sign-on") {
            MessageType::SignOn
        } else if str_eq(s, "Status") {
            MessageType::Status
        } else if str_eq(s, "Topic") {
            MessageType::Topic
        } else if str_eq(s, "Warning") {
            MessageType::Warning
        } else {
            MessageType::Unknown
        }
    }
}

/// A message as plain values. The moment it came is held in the two forms
/// in which it is shown: the time of day, and the day with the time of day.
pub struct MessageView {
    pub time: Seq<char>,
    pub date: Seq<char>,
    pub message_type: MessageType,
    pub from: Seq<char>,
    pub body: Seq<char>,
}

impl MessageView {
    /// Whether the options hide the message: arrivals and sign-ons where
    /// arrivals are not shown, departures and sign-offs where departures
    /// are not shown.
    pub open spec fn hidden(self, opts: ViewOptions) -> bool {
        ||| !opts.show_arrivals && (self.message_type == MessageType::Arrive || self.message_type
            == MessageType::SignOn)
        ||| !opts.show_departures && (self.message_type == MessageType::Depart
            || self.message_type == MessageType::SignOff)
    }

    /// Whether the line names who the message is from: what a user said
    /// does, what the server reports does not.
    pub open spec fn names_sender(self) -> bool {
        self.message_type == MessageType::Open || self.message_type == MessageType::Personal
            || self.message_type == MessageType::Beep
    }

    /// The line that shows the message: the moment, with the day where the
    /// options ask for it, then the sender where the line names one, then
    /// the text and a line feed.
    pub open spec fn line(self, opts: ViewOptions) -> Seq<char> {
        let stamp = if opts.show_date {
            self.date
        } else {
            self.time
        };
        if self.names_sender() {
            stamp + ": <"@ + self.from + "> "@ + self.body + "\n"@
        } else {
            stamp + ": "@ + self.body + "\n"@
        }
    }

    /// What is shown of the message: nothing where it is hidden, else its
    /// line.
    pub open spec fn render(self, opts: ViewOptions) -> Option<Seq<char>> {
        if self.hidden(opts) {
            None
        } else {
            Some(self.line(opts))
        }
    }
}

/// The view of a string that may be there.
pub open spec fn text_option_view(s: Option<String>) -> Option<Seq<char>> {
    match s {
        Some(s) => Some(s@),
        None => None,
    }
}

/// One line of a chat.
#[derive(Clone, Debug)]
pub struct Message {
    time: String,
    date: String,
    message_type: MessageType,
    from: String,
    body: String,
}

impl View for Message {
    type V = MessageView;

    closed spec fn view(&self) -> MessageView {
        MessageView {
            time: self.time@,
            date: self.date@,
            message_type: self.message_type,
            from: self.from@,
            body: self.body@,
        }
    }
}

impl Message {
    /// The message that came at the given moment of local time. The two
    /// forms of the moment are what `chrono` writes for it.
    pub fn new(received: NaiveDateTime, message_type: MessageType, from: String, body: String) -> (m:
        Message)
        ensures
            m@.message_type == message_type,
            m@.from == from@,
            m@.body == body@,
    {
        let time = format_moment(&received, TIME_PATTERN);
        let date = format_moment(&received, DATE_PATTERN);
        Message::stamped(time, date, message_type, from, body)
    }

    /// The message that came at the moment whose two forms are given: the
    /// time of day, and the day with the time of day.
    pub fn stamped(
        time: String,
        date: String,
        message_type: MessageType,
        from: String,
        body: String,
    ) -> (m: Message)
        ensures
            m@ == (MessageView {
                time: time@,
                date: date@,
                message_type: message_type,
                from: from@,
                body: body@,
            }),
    {
        Message { time, date, message_type, from, body }
    }

    /// The line that shows the message under the given options, or nothing
    /// where they hide it.
    pub fn render(&self, opts: &ViewOptions) -> (r: Option<String>)
        ensures
            text_option_view(r) == self@.render(*opts),
    {
        if !opts.show_arrivals && (self.message_type == MessageType::Arrive || self.message_type
            == MessageType::SignOn) {
            return None;
        }
        if !opts.show_departures && (self.message_type == MessageType::Depart || self.message_type
            == MessageType::SignOff) {
            return None;
        }
        let mut text = if opts.show_date {
            self.date.clone()
        } else {
            self.time.clone()
        };
        match self.message_type {
            MessageType::Open | MessageType::Personal | MessageType::Beep => {
                text.append(": <");
                text.append(self.from.as_str());
                text.append("> ");
            },
            _ => {
                text.append(": ");
            },
        }
        text.append(self.body.as_str());
        text.append("\n");
        Some(text)
    }
}

} // verus!
