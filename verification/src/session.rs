//! The session with an ICB server as a state machine. It owns no socket and
//! no queue: whoever drives it connects, reads and writes, and hands each
//! outcome to the machine, which answers with what to do next.

use crate::packets::{
    command_packet_create, create_spec, decode, decode_spec, login_packet_create,
    open_packet_create, EncodeError, PacketKind, PacketView, ParsedPacket, CMD_BEEP, CMD_M,
    CMD_NAME,
};
use vstd::prelude::*;

verus! {

/// The group that a login joins.
pub const LOGIN_GROUP: &'static str = "1";

/// The word that a login packet ends with.
pub const LOGIN_COMMAND: &'static str = "login";

/// What a session is told when it is set up.
#[derive(Clone, Debug)]
pub struct Config {
    pub serverip: String,
    pub nickname: String,
    pub port: u16,
}

/// What the user of a session asks of it.
#[derive(Clone, Debug, PartialEq, Eq)]
pub enum Command {
    /// End the session. ICB has no other way to leave than to shut the
    /// connection down.
    Bye,
    /// Say the text in the group.
    Open(String),
    /// Say the text to one user.
    Personal(String, String),
    /// Beep a user.
    Beep(String),
    /// Take another nickname.
    Name(String),
}

/// A `Command` as plain text.
pub enum CommandView {
    Bye,
    Open(Seq<char>),
    Personal(Seq<char>, Seq<char>),
    Beep(Seq<char>),
    Name(Seq<char>),
}

impl View for Command {
    type V = CommandView;

    open spec fn view(&self) -> CommandView {
        match *self {
            Command::Bye => CommandView::Bye,
            Command::Open(text) => CommandView::Open(text@),
            Command::Personal(user, text) => CommandView::Personal(user@, text@),
            Command::Beep(user) => CommandView::Beep(user@),
            Command::Name(nickname) => CommandView::Name(nickname@),
        }
    }
}

/// What a session tells its user of the packets that came in.
#[derive(Clone, Debug, PartialEq, Eq)]
pub enum Event {
    Protocol { hostid: String, clientid: String },
    Status { category: String, message: String },
    Open { nickname: String, message: String },
    Personal { nickname: String, message: String },
    Beep { nickname: String },
    /// For a consumer that meets a record it does not know. The session
    /// itself publishes none.
    Unrecognized,
}

/// An `Event` as plain text.
pub enum EventView {
    Protocol { hostid: Seq<char>, clientid: Seq<char> },
    Status { category: Seq<char>, message: Seq<char> },
    Open { nickname: Seq<char>, message: Seq<char> },
    Personal { nickname: Seq<char>, message: Seq<char> },
    Beep { nickname: Seq<char> },
    Unrecognized,
}

impl View for Event {
    type V = EventView;

    open spec fn view(&self) -> EventView {
        match *self {
            Event::Protocol { hostid, clientid } => EventView::Protocol {
                hostid: hostid@,
                clientid: clientid@,
            },
            Event::Status { category, message } => EventView::Status {
                category: category@,
                message: message@,
            },
            Event::Open { nickname, message } => EventView::Open {
                nickname: nickname@,
                message: message@,
            },
            Event::Personal { nickname, message } => EventView::Personal {
                nickname: nickname@,
                message: message@,
            },
            Event::Beep { nickname } => EventView::Beep { nickname: nickname@ },
            Event::Unrecognized => EventView::Unrecognized,
        }
    }
}

/// The event that a packet is published as. The answer to a login bears no
/// message and is published as nothing.
pub open spec fn event_of(packet: PacketView) -> Option<EventView> {
    match packet {
        PacketView::Login => None,
        PacketView::Protocol { hostid, clientid } => Some(EventView::Protocol { hostid, clientid }),
        PacketView::Status { category, message } => Some(EventView::Status { category, message }),
        PacketView::Open { nickname, message } => Some(EventView::Open { nickname, message }),
        PacketView::Personal { nickname, message } => Some(
            EventView::Personal { nickname, message },
        ),
        PacketView::Beep { nickname } => Some(EventView::Beep { nickname }),
    }
}

/// The view of an event that may be there.
pub open spec fn event_option_view(e: Option<Event>) -> Option<EventView> {
    match e {
        Some(e) => Some(e@),
        None => None,
    }
}

impl Event {
    /// The event that a packet is published as, if it bears a message.
    pub fn from_packet(packet: ParsedPacket) -> (r: Option<Event>)
        ensures
            event_option_view(r) == event_of(packet@),
    {
        match packet {
            ParsedPacket::Login => None,
            ParsedPacket::Protocol { hostid, clientid } => Some(Event::Protocol { hostid, clientid }),
            ParsedPacket::Status { category, message } => Some(Event::Status { category, message }),
            ParsedPacket::Open { nickname, message } => Some(Event::Open { nickname, message }),
            ParsedPacket::Personal { nickname, message } => Some(
                Event::Personal { nickname, message },
            ),
            ParsedPacket::Beep { nickname } => Some(Event::Beep { nickname }),
        }
    }
}

/// The event that the first frame in the bytes is published as: nothing
/// where the bytes hold no frame, or one that cannot be decoded.
pub open spec fn frame_event(inbound: Seq<u8>) -> Option<EventView> {
    match decode_spec(inbound) {
        Ok(packet) => event_of(packet),
        Err(_) => None,
    }
}

/// Where a session stands.
#[derive(Clone, Copy, Debug, PartialEq, Eq, Structural)]
pub enum SessionState {
    Disconnected,
    Connecting,
    AwaitingProtocol,
    LoggingIn,
    Active,
    Closing,
    Closed,
}

/// Why a session ended, or never began.
#[derive(Clone, Copy, Debug, PartialEq, Eq, Structural)]
pub enum SessionError {
    /// The connection to the server could not be opened.
    Connect,
    /// The server did not open with a protocol packet, or did not answer
    /// the login with an empty login packet.
    Handshake,
    /// The user of the session dropped its end of a queue.
    QueueClosed,
}

/// What a session holds, as plain values.
pub struct SessionView {
    pub hostname: Seq<char>,
    pub port: u16,
    pub nickname: Seq<char>,
    pub state: SessionState,
}

/// What the driver of a session does about one command.
#[derive(Clone, Debug, PartialEq, Eq)]
pub enum CommandAction {
    /// Shut the connection down in both directions.
    Shutdown,
    /// Write these bytes, one frame, to the connection.
    Send(Vec<u8>),
    /// Nothing: the command could not be put into a frame.
    Rejected(EncodeError),
    /// Nothing: the session is not active.
    Ignored,
}

/// A `CommandAction` as plain values.
pub enum ActionView {
    Shutdown,
    Send(Seq<u8>),
    Rejected(EncodeError),
    Ignored,
}

impl View for CommandAction {
    type V = ActionView;

    open spec fn view(&self) -> ActionView {
        match *self {
            CommandAction::Shutdown => ActionView::Shutdown,
            CommandAction::Send(frame) => ActionView::Send(frame@),
            CommandAction::Rejected(e) => ActionView::Rejected(e),
            CommandAction::Ignored => ActionView::Ignored,
        }
    }
}

/// The fields of the login packet: the nickname twice, the group, and the
/// word `login`.
pub open spec fn login_fields(nickname: Seq<char>) -> Seq<Seq<char>> {
    seq![nickname, nickname, LOGIN_GROUP@, LOGIN_COMMAND@]
}

/// The frame that carries a command other than `Bye` to the server, or why
/// there is none. An open message travels as an open packet with the
/// nickname of the session and the text; the others travel as command
/// packets: `m` with the user and the text, `beep` with the user, `name`
/// with the new nickname.
pub open spec fn command_frame(nickname: Seq<char>, command: CommandView) -> Result<
    Seq<u8>,
    EncodeError,
>
    recommends
        !(command is Bye),
{
    match command {
        CommandView::Bye => Err(EncodeError::NotSendable),
        CommandView::Open(text) => create_spec(PacketKind::Open, seq![nickname, text]),
        CommandView::Personal(user, text) => create_spec(
            PacketKind::Command,
            seq![CMD_M@, user, text],
        ),
        CommandView::Beep(user) => create_spec(PacketKind::Command, seq![CMD_BEEP@, user]),
        CommandView::Name(nickname) => create_spec(PacketKind::Command, seq![CMD_NAME@, nickname]),
    }
}

/// What one command does to a session, and what the driver is to do about
/// it. A session that is not active ignores every command. `Bye` makes an
/// active session closing and has the connection shut down. Any other
/// command is sent as its frame, or rejected where it has none; a new
/// nickname that could be sent becomes the nickname of the session.
pub open spec fn command_spec(s: SessionView, command: CommandView) -> (SessionView, ActionView) {
    if s.state != SessionState::Active {
        (s, ActionView::Ignored)
    } else if command is Bye {
        (SessionView { state: SessionState::Closing, ..s }, ActionView::Shutdown)
    } else {
        match command_frame(s.nickname, command) {
            Ok(frame) => (
                match command {
                    CommandView::Name(nickname) => SessionView { nickname: nickname, ..s },
                    _ => s,
                },
                ActionView::Send(frame),
            ),
            Err(e) => (s, ActionView::Rejected(e)),
        }
    }
}

/// What a list of commands, taken in order, does to a session, with the
/// action for each of them.
pub open spec fn drain_spec(s: SessionView, commands: Seq<CommandView>) -> (
    SessionView,
    Seq<ActionView>,
)
    decreases commands.len(),
{
    if commands.len() == 0 {
        (s, Seq::empty())
    } else {
        let (next, action) = command_spec(s, commands[0]);
        let (last, rest) = drain_spec(next, commands.drop_first());
        (last, seq![action] + rest)
    }
}

/// What one turn of the run loop gives its driver: the action for each
/// command, in the order of the commands, and the event to publish, if any.
#[derive(Clone, Debug, PartialEq, Eq)]
pub struct Tick {
    pub actions: Vec<CommandAction>,
    pub event: Option<Event>,
}

/// A `Tick` as plain values.
pub struct TickView {
    pub actions: Seq<ActionView>,
    pub event: Option<EventView>,
}

/// The views of a list of commands.
pub open spec fn commands_view(commands: Seq<Command>) -> Seq<CommandView> {
    commands.map_values(|c: Command| c@)
}

/// The views of a list of actions.
pub open spec fn actions_view(actions: Seq<CommandAction>) -> Seq<ActionView> {
    actions.map_values(|a: CommandAction| a@)
}

impl View for Tick {
    type V = TickView;

    open spec fn view(&self) -> TickView {
        TickView { actions: actions_view(self.actions@), event: event_option_view(self.event) }
    }
}

/// One turn of the run loop: first the commands, all of them and in order;
/// then, if the session is still active, the first frame of the bytes that
/// came in, published as its event. A frame that cannot be decoded, and the
/// lack of one, publish nothing and leave the session as it is.
pub open spec fn tick_spec(s: SessionView, commands: Seq<CommandView>, inbound: Seq<u8>) -> (
    SessionView,
    TickView,
) {
    let (next, actions) = drain_spec(s, commands);
    let event = if next.state == SessionState::Active {
        frame_event(inbound)
    } else {
        None
    };
    (next, TickView { actions, event })
}

/// What the bytes of one read do to a session, and what comes of them.
/// While the session awaits the protocol packet, a protocol packet makes it
/// log in and is published; anything else closes it with a handshake
/// error. While it logs in, the empty login packet makes it active;
/// anything else closes it with a handshake error. While it is active, the
/// frame is published as its event, and bytes that do not decode are passed
/// over. In every other state nothing is read.
pub open spec fn read_spec(s: SessionView, bytes: Seq<u8>) -> (
    SessionView,
    Result<Option<EventView>, SessionError>,
) {
    match s.state {
        SessionState::AwaitingProtocol => match decode_spec(bytes) {
            Ok(PacketView::Protocol { hostid, clientid }) => (
                SessionView { state: SessionState::LoggingIn, ..s },
                Ok(Some(EventView::Protocol { hostid, clientid })),
            ),
            _ => (SessionView { state: SessionState::Closed, ..s }, Err(SessionError::Handshake)),
        },
        SessionState::LoggingIn => match decode_spec(bytes) {
            Ok(PacketView::Login) => (SessionView { state: SessionState::Active, ..s }, Ok(None)),
            _ => (SessionView { state: SessionState::Closed, ..s }, Err(SessionError::Handshake)),
        },
        SessionState::Active => (s, Ok(frame_event(bytes))),
        _ => (s, Ok(None)),
    }
}

/// The view of what a read gives.
pub open spec fn read_result_view(r: Result<Option<Event>, SessionError>) -> Result<
    Option<EventView>,
    SessionError,
> {
    match r {
        Ok(e) => Ok(event_option_view(e)),
        Err(e) => Err(e),
    }
}

/// The session with one server: where to find it, under which nickname,
/// and how far the session has come.
#[derive(Debug)]
pub struct Server {
    hostname: String,
    port: u16,
    nickname: String,
    state: SessionState,
}

impl View for Server {
    type V = SessionView;

    closed spec fn view(&self) -> SessionView {
        SessionView {
            hostname: self.hostname@,
            port: self.port,
            nickname: self.nickname@,
            state: self.state,
        }
    }
}

impl Server {
    /// A session that is not connected yet.
    pub fn new(hostname: &str, port: u16, nickname: &str) -> (server: Server)
        ensures
            server@ == (SessionView {
                hostname: hostname@,
                port: port,
                nickname: nickname@,
                state: SessionState::Disconnected,
            }),
    {
        Server {
            hostname: hostname.to_owned(),
            port,
            nickname: nickname.to_owned(),
            state: SessionState::Disconnected,
        }
    }

    /// Where the session stands.
    pub fn state(&self) -> (state: SessionState)
        ensures
            state == self@.state,
    {
        self.state
    }

    /// The name of the host to connect to.
    pub fn hostname(&self) -> (hostname: &str)
        ensures
            hostname@ == self@.hostname,
    {
        self.hostname.as_str()
    }

    /// The port to connect to.
    pub fn port(&self) -> (port: u16)
        ensures
            port == self@.port,
    {
        self.port
    }

    /// The nickname that the session goes by.
    pub fn nickname(&self) -> (nickname: &str)
        ensures
            nickname@ == self@.nickname,
    {
        self.nickname.as_str()
    }

    /// Starts to connect: a session that is disconnected becomes
    /// connecting, and its driver is to open the connection to `hostname`
    /// and `port`. Returns whether the session was disconnected; any other
    /// session stays as it is.
    pub fn connect(&mut self) -> (started: bool)
        ensures
            started == (old(self)@.state == SessionState::Disconnected),
            final(self)@ == if started {
                SessionView { state: SessionState::Connecting, ..old(self)@ }
            } else {
                old(self)@
            },
    {
        if self.state == SessionState::Disconnected {
            self.state = SessionState::Connecting;
            true
        } else {
            false
        }
    }

    /// Takes the outcome of opening the connection. A connecting session
    /// awaits the protocol packet where the connection stands, and is
    /// closed with a connect error where it does not. Any other session
    /// stays as it is.
    pub fn connected(&mut self, established: bool) -> (r: Result<(), SessionError>)
        ensures
            final(self)@ == if old(self)@.state != SessionState::Connecting {
                old(self)@
            } else if established {
                SessionView { state: SessionState::AwaitingProtocol, ..old(self)@ }
            } else {
                SessionView { state: SessionState::Closed, ..old(self)@ }
            },
            r is Err <==> old(self)@.state == SessionState::Connecting && !established,
            r is Err ==> r == Err::<(), SessionError>(SessionError::Connect),
    {
        if self.state == SessionState::Connecting {
            if established {
                self.state = SessionState::AwaitingProtocol;
                Ok(())
            } else {
                self.state = SessionState::Closed;
                Err(SessionError::Connect)
            }
        } else {
            Ok(())
        }
    }

    /// The login packet of the session: the nickname twice, the group `1`
    /// and the word `login`. The driver sends it when the session has
    /// begun to log in.
    pub fn login(&self) -> (r: Result<Vec<u8>, EncodeError>)
        ensures
            crate::packets::frame_result_view(r) == create_spec(
                PacketKind::Login,
                login_fields(self@.nickname),
            ),
    {
        let mut fields: Vec<&str> = Vec::new();
        fields.push(self.nickname.as_str());
        fields.push(self.nickname.as_str());
        fields.push(LOGIN_GROUP);
        fields.push(LOGIN_COMMAND);
        assert(fields.deep_view() =~= login_fields(self@.nickname));
        login_packet_create(fields)
    }

    /// Takes the bytes of one read from the connection.
    pub fn read(&mut self, bytes: &[u8]) -> (r: Result<Option<Event>, SessionError>)
        ensures
            (final(self)@, read_result_view(r)) == read_spec(old(self)@, bytes@),
    {
        match self.state {
            SessionState::AwaitingProtocol => match decode(bytes) {
                Ok(ParsedPacket::Protocol { hostid, clientid }) => {
                    self.state = SessionState::LoggingIn;
                    Ok(Some(Event::Protocol { hostid, clientid }))
                },
                _ => {
                    self.state = SessionState::Closed;
                    Err(SessionError::Handshake)
                },
            },
            SessionState::LoggingIn => match decode(bytes) {
                Ok(ParsedPacket::Login) => {
                    self.state = SessionState::Active;
                    Ok(None)
                },
                _ => {
                    self.state = SessionState::Closed;
                    Err(SessionError::Handshake)
                },
            },
            SessionState::Active => match decode(bytes) {
                Ok(packet) => Ok(Event::from_packet(packet)),
                Err(_) => Ok(None),
            },
            _ => Ok(None),
        }
    }

    /// Takes one command of the user.
    pub fn command(&mut self, command: &Command) -> (action: CommandAction)
        ensures
            (final(self)@, action@) == command_spec(old(self)@, command@),
    {
        if self.state != SessionState::Active {
            return CommandAction::Ignored;
        }
        let mut fields: Vec<&str> = Vec::new();
        match command {
            Command::Bye => {
                self.state = SessionState::Closing;
                CommandAction::Shutdown
            },
            Command::Open(text) => {
                fields.push(self.nickname.as_str());
                fields.push(text.as_str());
                assert(fields.deep_view() =~= seq![self@.nickname, text@]);
                match open_packet_create(fields) {
                    Ok(frame) => CommandAction::Send(frame),
                    Err(e) => CommandAction::Rejected(e),
                }
            },
            Command::Personal(user, text) => {
                fields.push(CMD_M);
                fields.push(user.as_str());
                fields.push(text.as_str());
                assert(fields.deep_view() =~= seq![CMD_M@, user@, text@]);
                match command_packet_create(fields) {
                    Ok(frame) => CommandAction::Send(frame),
                    Err(e) => CommandAction::Rejected(e),
                }
            },
            Command::Beep(user) => {
                fields.push(CMD_BEEP);
                fields.push(user.as_str());
                assert(fields.deep_view() =~= seq![CMD_BEEP@, user@]);
                match command_packet_create(fields) {
                    Ok(frame) => CommandAction::Send(frame),
                    Err(e) => CommandAction::Rejected(e),
                }
            },
            Command::Name(nickname) => {
                fields.push(CMD_NAME);
                fields.push(nickname.as_str());
                assert(fields.deep_view() =~= seq![CMD_NAME@, nickname@]);
                match command_packet_create(fields) {
                    Ok(frame) => {
                        self.nickname = nickname.clone();
                        CommandAction::Send(frame)
                    },
                    Err(e) => CommandAction::Rejected(e),
                }
            },
        }
    }

    /// One turn of the run loop: takes the commands that were queued, in
    /// their order, and the bytes of one read from the connection.
    pub fn run(&mut self, commands: &Vec<Command>, inbound: &[u8]) -> (tick: Tick)
        ensures
            (final(self)@, tick@) == tick_spec(old(self)@, commands_view(commands@), inbound@),
    {
        let ghost all = commands_view(commands@);
        let mut actions: Vec<CommandAction> = Vec::new();
        let mut i: usize = 0;
        assert(all.skip(0) =~= all);
        while i < commands.len()
            invariant
                i <= commands.len(),
                all == commands_view(commands@),
                drain_spec(old(self)@, all) == ({
                    let (last, rest) = drain_spec(self@, all.skip(i as int));
                    (last, actions_view(actions@) + rest)
                }),
            decreases commands.len() - i,
        {
            let ghost before = self@;
            let ghost done = actions_view(actions@);
            let action = self.command(&commands[i]);
            proof {
                let tail = all.skip(i as int);
                assert(tail[0] == commands@[i as int]@);
                assert(tail.drop_first() =~= all.skip(i + 1));
                let (last, rest) = drain_spec(self@, all.skip(i + 1));
                assert(drain_spec(before, tail) == (last, seq![action@] + rest));
                assert(done + (seq![action@] + rest) =~= done.push(action@) + rest);
            }
            actions.push(action);
            assert(actions_view(actions@) =~= done.push(action@));
            i += 1;
        }
        assert(all.skip(i as int) =~= Seq::<CommandView>::empty());
        assert(actions_view(actions@) + Seq::<ActionView>::empty() =~= actions_view(actions@));
        let event = if self.state == SessionState::Active {
            match decode(inbound) {
                Ok(packet) => Event::from_packet(packet),
                Err(_) => None,
            }
        } else {
            None
        };
        Tick { actions, event }
    }

    /// Takes the news that the user dropped its end of a queue: an active
    /// session becomes closing, and its driver is to shut the connection
    /// down. Returns the error to report where the session was active.
    pub fn queue_closed(&mut self) -> (r: Option<SessionError>)
        ensures
            r == if old(self)@.state == SessionState::Active {
                Some(SessionError::QueueClosed)
            } else {
                None::<SessionError>
            },
            final(self)@ == if old(self)@.state == SessionState::Active {
                SessionView { state: SessionState::Closing, ..old(self)@ }
            } else {
                old(self)@
            },
    {
        if self.state == SessionState::Active {
            self.state = SessionState::Closing;
            Some(SessionError::QueueClosed)
        } else {
            None
        }
    }

    /// Takes the news that the connection was shut down: a closing session
    /// becomes closed. Returns whether the session was closing.
    pub fn closed(&mut self) -> (done: bool)
        ensures
            done == (old(self)@.state == SessionState::Closing),
            final(self)@ == if done {
                SessionView { state: SessionState::Closed, ..old(self)@ }
            } else {
                old(self)@
            },
    {
        if self.state == SessionState::Closing {
            self.state = SessionState::Closed;
            true
        } else {
            false
        }
    }
}

/// The session that a configuration asks for, not connected yet.
pub fn init(config: Config) -> (server: Server)
    ensures
        server@ == (SessionView {
            hostname: config.serverip@,
            port: config.port,
            nickname: config.nickname@,
            state: SessionState::Disconnected,
        }),
{
    Server::new(config.serverip.as_str(), config.port, config.nickname.as_str())
}

} // verus!
