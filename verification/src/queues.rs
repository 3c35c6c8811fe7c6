//! The two queues between a session and its user: commands come in through
//! one, events go out through the other. A turn of the run loop takes what
//! is queued, leaves the reading and writing of the connection to its
//! driver, and publishes the event.

use crate::session::{
    actions_view, commands_view, event_option_view, tick_spec, Command, CommandAction, CommandView,
    Event, EventView, Server, SessionError, SessionState, SessionView,
};
use crossbeam_channel::{Receiver, Sender, TryRecvError, TrySendError};
use vstd::prelude::*;

verus! {

/// `Receiver` of the crate `crossbeam_channel`: the end of a queue that
/// takes messages out. Nothing is said of what the queue holds.
#[verifier::external_type_specification]
#[verifier::external_body]
#[verifier::reject_recursive_types(T)]
pub struct ExReceiver<T>(Receiver<T>);

/// `Sender` of the crate `crossbeam_channel`: the end of a queue that puts
/// messages in. Nothing is said of what the queue holds.
#[verifier::external_type_specification]
#[verifier::external_body]
#[verifier::reject_recursive_types(T)]
pub struct ExSender<T>(Sender<T>);

/// What one look into the queue of commands finds.
pub enum Polled {
    /// The command at the head of the queue, which has left the queue.
    Command(Command),
    /// No command for now.
    Empty,
    /// No command, and none will come: the user dropped its end.
    Closed,
}

/// What came of offering an event to the queue of events. An event that
/// was not taken comes back.
pub enum Offered {
    Taken,
    Full(Event),
    Closed(Event),
}

/// `Receiver::len` of the crate `crossbeam_channel`: the number of messages
/// in the queue at the moment of the call.
#[verifier::external_body]
fn queued(commands: &Receiver<Command>) -> usize {
    commands.len()
}

/// `Receiver::try_recv` of the crate `crossbeam_channel`: takes the message
/// at the head of the queue without waiting for one.
#[verifier::external_body]
fn poll(commands: &Receiver<Command>) -> Polled {
    match commands.try_recv() {
        Ok(command) => Polled::Command(command),
        Err(TryRecvError::Empty) => Polled::Empty,
        Err(TryRecvError::Disconnected) => Polled::Closed,
    }
}

/// `Sender::try_send` of the crate `crossbeam_channel`: puts the message
/// into the queue without waiting for room. Where the queue does not take
/// the message, the error holds it.
#[verifier::external_body]
fn offer(events: &Sender<Event>, event: Event) -> (r: Offered)
    ensures
        r matches Offered::Full(e) ==> e == event,
        r matches Offered::Closed(e) ==> e == event,
{
    match events.try_send(event) {
        Ok(()) => Offered::Taken,
        Err(TrySendError::Full(event)) => Offered::Full(event),
        Err(TrySendError::Disconnected(event)) => Offered::Closed(event),
    }
}

/// What was taken from the queue of commands: the commands, in the order
/// in which they were queued, and whether the queue is still open.
struct Drained {
    commands: Vec<Command>,
    open: bool,
}

/// Takes the commands that are queued now, without waiting for more: as
/// many as the queue holds when the call begins, in their order, and fewer
/// where the queue runs empty before. An empty queue is looked into once, to
/// learn whether it is still open.
fn drain(commands: &Receiver<Command>) -> (drained: Drained) {
    let waiting = queued(commands);
    let limit = if waiting == 0 {
        1
    } else {
        waiting
    };
    let mut taken: Vec<Command> = Vec::new();
    let mut open = true;
    let mut looks: usize = 0;
    while looks < limit
        invariant
            looks <= limit,
        decreases limit - looks,
    {
        looks = looks + 1;
        match gather(&mut taken, poll(commands)) {
            Some(still_open) => {
                open = still_open;
                break ;
            },
            None => {},
        }
    }
    Drained { commands: taken, open }
}

/// What one look into the queue of commands adds to the commands that were
/// taken before it, and what it says of the queue: a command is taken
/// behind the others, and nothing is known of the queue yet; an empty queue
/// is open, a closed queue is not, and either ends the taking.
pub open spec fn gathered(taken: Seq<Command>, polled: Polled) -> (Seq<Command>, Option<bool>) {
    match polled {
        Polled::Command(command) => (taken.push(command), None),
        Polled::Empty => (taken, Some(true)),
        Polled::Closed => (taken, Some(false)),
    }
}

/// Takes what one look into the queue of commands found. A command is put
/// behind those that were taken before, and nothing is returned: there may
/// be more. Else the taking is over, and what is returned says whether the
/// queue is still open.
pub fn gather(taken: &mut Vec<Command>, polled: Polled) -> (open: Option<bool>)
    ensures
        (final(taken)@, open) == gathered(old(taken)@, polled),
{
    match polled {
        Polled::Command(command) => {
            taken.push(command);
            None
        },
        Polled::Empty => Some(true),
        Polled::Closed => Some(false),
    }
}

/// What one turn of the run loop with its queues leaves to the driver: the
/// action for each command that was taken; the event that the queue of
/// events had no room for, if any; and the error that ends the session, if
/// any.
pub struct Pumped {
    pub actions: Vec<CommandAction>,
    pub unsent: Option<Event>,
    pub error: Option<SessionError>,
}

/// A session after it learnt that a queue is closed: closing where it was
/// active, else as it was.
pub open spec fn after_queue_closed(s: SessionView) -> SessionView {
    if s.state == SessionState::Active {
        SessionView { state: SessionState::Closing, ..s }
    } else {
        s
    }
}

/// What the queues said in one turn comes to, for a session that the turn
/// left as `s`. `open` says whether the queue of commands is still open;
/// `offered` is what came of offering the event of the turn to the queue of
/// events, and nothing where the turn had no event. A queue is closed where
/// the queue of commands is not open or the queue of events gave the event
/// back as closed: then an active session becomes closing, and the error is
/// that a queue is closed. An event that a full queue gave back is unsent.
pub open spec fn settled(s: SessionView, open: bool, offered: Option<Offered>) -> (
    SessionView,
    Option<EventView>,
    Option<SessionError>,
) {
    let closed = !open || (offered matches Some(Offered::Closed(_)));
    let unsent = match offered {
        Some(Offered::Full(event)) => Some(event@),
        _ => None,
    };
    if closed && s.state == SessionState::Active {
        (after_queue_closed(s), unsent, Some(SessionError::QueueClosed))
    } else {
        (s, unsent, None)
    }
}

/// Takes what the queues said in one turn: whether the queue of commands
/// is still open, and what came of offering the event of the turn, if there
/// was one. Returns the event that is still to be sent, if any, and the
/// error that ends the session, if any.
pub fn settle(server: &mut Server, open: bool, offered: Option<Offered>) -> (r: (
    Option<Event>,
    Option<SessionError>,
))
    ensures
        (final(server)@, event_option_view(r.0), r.1) == settled(old(server)@, open, offered),
{
    let mut closed = !open;
    let mut unsent: Option<Event> = None;
    match offered {
        Some(Offered::Full(event)) => {
            unsent = Some(event);
        },
        Some(Offered::Closed(_)) => {
            closed = true;
        },
        _ => {},
    }
    let error = if closed {
        server.queue_closed()
    } else {
        None
    };
    (unsent, error)
}

/// One turn of the run loop with the queues of the session: takes the
/// commands that are queued, runs the turn on them and on the bytes of one
/// read, and offers the event of the turn, if it has one, to the queue of
/// events. Whatever the queues said, the actions are those of the turn on
/// the commands that were taken, and the session, the unsent event and the
/// error are what the turn and the answers of the queues come to. An event
/// that comes back from the queue of events is the event of the turn.
pub fn pump(
    server: &mut Server,
    commands: &Receiver<Command>,
    events: &Sender<Event>,
    inbound: &[u8],
) -> (pumped: Pumped)
    ensures
        exists|taken: Seq<CommandView>, open: bool, offered: Option<Offered>|
            {
                let (next, tick) = tick_spec(old(server)@, taken, inbound@);
                &&& actions_view(pumped.actions@) == tick.actions
                &&& offered is Some <==> tick.event is Some
                &&& offered matches Some(Offered::Full(event)) ==> tick.event == Some(event@)
                &&& offered matches Some(Offered::Closed(event)) ==> tick.event == Some(event@)
                &&& (final(server)@, event_option_view(pumped.unsent), pumped.error)
                    == #[trigger] settled(
                    tick_spec(old(server)@, taken, inbound@).0,
                    open,
                    offered,
                )
            },
{
    let drained = drain(commands);
    let tick = server.run(&drained.commands, inbound);
    let ghost next = server@;
    let ghost turn = tick@;
    let ghost taken = commands_view(drained.commands@);
    assert((next, turn) == tick_spec(old(server)@, taken, inbound@));
    let offered = match tick.event {
        Some(event) => Some(offer(events, event)),
        None => None,
    };
    let (unsent, error) = settle(server, drained.open, offered);
    assert((server@, event_option_view(unsent), error) == settled(
        tick_spec(old(server)@, taken, inbound@).0,
        drained.open,
        offered,
    ));
    Pumped { actions: tick.actions, unsent, error }
}

} // verus!
