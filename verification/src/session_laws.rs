//! What holds of a session over many turns of its run loop: the events come
//! out in the order in which their frames came in, and `Bye` ends them.

use crate::packets::{decode_spec, FrameDecodeError, PacketView};
use crate::queues::{settled, Offered};
use crate::session::SessionError;
use crate::session::{
    command_spec, drain_spec, frame_event, read_spec, tick_spec, ActionView, CommandView,
    EventView, SessionState, SessionView,
};
use vstd::prelude::*;

verus! {

/// What one turn of the run loop is given: the commands that were queued
/// and the bytes of one read.
pub struct TickInput {
    pub commands: Seq<CommandView>,
    pub inbound: Seq<u8>,
}

/// The event, if there is one, as a list of none or one.
pub open spec fn published(event: Option<EventView>) -> Seq<EventView> {
    match event {
        Some(e) => seq![e],
        None => Seq::empty(),
    }
}

/// The session after the given turns, one after the other, and the events
/// that they published, in the order of publication.
pub open spec fn run_spec(s: SessionView, ticks: Seq<TickInput>) -> (SessionView, Seq<EventView>)
    decreases ticks.len(),
{
    if ticks.len() == 0 {
        (s, Seq::empty())
    } else {
        let (next, tick) = tick_spec(s, ticks[0].commands, ticks[0].inbound);
        let (last, rest) = run_spec(next, ticks.drop_first());
        (last, published(tick.event) + rest)
    }
}

/// The events of the frames that the turns were given, in the order in
/// which the frames came in, whatever the commands were.
pub open spec fn frames_in_order(ticks: Seq<TickInput>) -> Seq<EventView>
    decreases ticks.len(),
{
    if ticks.len() == 0 {
        Seq::empty()
    } else {
        published(frame_event(ticks[0].inbound)) + frames_in_order(ticks.drop_first())
    }
}

/// Whether `Bye` is among the commands.
pub open spec fn has_bye(commands: Seq<CommandView>) -> bool {
    exists|i: int| 0 <= i < commands.len() && #[trigger] commands[i] is Bye
}

/// A session that is not active ignores every command and stays as it is.
pub proof fn lemma_drain_inactive(s: SessionView, commands: Seq<CommandView>)
    requires
        s.state != SessionState::Active,
    ensures
        drain_spec(s, commands).0 == s,
        drain_spec(s, commands).1.len() == commands.len(),
        forall|i: int|
            0 <= i < commands.len() ==> #[trigger] drain_spec(s, commands).1[i]
                == ActionView::Ignored,
    decreases commands.len(),
{
    if commands.len() > 0 {
        lemma_drain_inactive(s, commands.drop_first());
    }
}

/// Commands without `Bye` leave an active session active, and change
/// nothing of it but, perhaps, the nickname.
pub proof fn lemma_drain_without_bye(s: SessionView, commands: Seq<CommandView>)
    requires
        s.state == SessionState::Active,
        !has_bye(commands),
    ensures
        drain_spec(s, commands).0.state == SessionState::Active,
        drain_spec(s, commands).0.hostname == s.hostname,
        drain_spec(s, commands).0.port == s.port,
    decreases commands.len(),
{
    if commands.len() > 0 {
        assert(!(commands[0] is Bye));
        let next = command_spec(s, commands[0]).0;
        let rest = commands.drop_first();
        assert(!has_bye(rest)) by {
            if has_bye(rest) {
                let i = choose|i: int| 0 <= i < rest.len() && #[trigger] rest[i] is Bye;
                assert(commands[i + 1] is Bye);
            }
        }
        lemma_drain_without_bye(next, rest);
    }
}

/// Commands with `Bye` among them leave an active session closing.
pub proof fn lemma_drain_with_bye(s: SessionView, commands: Seq<CommandView>)
    requires
        s.state == SessionState::Active,
        has_bye(commands),
    ensures
        drain_spec(s, commands).0.state == SessionState::Closing,
    decreases commands.len(),
{
    let next = command_spec(s, commands[0]).0;
    let rest = commands.drop_first();
    if commands[0] is Bye {
        lemma_drain_inactive(next, rest);
    } else {
        let i = choose|i: int| 0 <= i < commands.len() && #[trigger] commands[i] is Bye;
        assert(rest[i - 1] is Bye);
        lemma_drain_with_bye(next, rest);
    }
}

/// A session that is not active publishes nothing, whatever it is given,
/// and stays as it is: once a session is closing or closed, no turn of the
/// run loop makes it active again.
pub proof fn lemma_inactive_publishes_nothing(s: SessionView, ticks: Seq<TickInput>)
    requires
        s.state != SessionState::Active,
    ensures
        run_spec(s, ticks) == (s, Seq::<EventView>::empty()),
    decreases ticks.len(),
{
    if ticks.len() > 0 {
        lemma_drain_inactive(s, ticks[0].commands);
        lemma_inactive_publishes_nothing(s, ticks.drop_first());
        assert(Seq::<EventView>::empty() + Seq::<EventView>::empty() =~= Seq::<
            EventView,
        >::empty());
    }
}

/// Events are published in the order in which their frames came in. While
/// no `Bye` is among the commands, an active session stays active and
/// publishes, over any number of turns, the events of the frames it was
/// given, each once and in their order, whatever commands were taken in
/// between.
pub proof fn lemma_events_in_frame_order(s: SessionView, ticks: Seq<TickInput>)
    requires
        s.state == SessionState::Active,
        forall|i: int| 0 <= i < ticks.len() ==> !has_bye(#[trigger] ticks[i].commands),
    ensures
        run_spec(s, ticks).0.state == SessionState::Active,
        run_spec(s, ticks).1 == frames_in_order(ticks),
    decreases ticks.len(),
{
    if ticks.len() > 0 {
        assert(!has_bye(ticks[0].commands));
        lemma_drain_without_bye(s, ticks[0].commands);
        let next = tick_spec(s, ticks[0].commands, ticks[0].inbound).0;
        let rest = ticks.drop_first();
        assert forall|i: int| 0 <= i < rest.len() implies !has_bye(#[trigger] rest[i].commands) by {
            assert(!has_bye(ticks[i + 1].commands));
        }
        lemma_events_in_frame_order(next, rest);
    }
}

/// After `Bye` no event is published. Where turn `k` is the first with
/// `Bye` among its commands, an active session publishes the events of the
/// frames of the turns before `k`, in their order, and nothing of turn `k`
/// or of any later turn; it is closing from turn `k` on, so the run loop
/// ends.
pub proof fn lemma_no_events_after_bye(s: SessionView, ticks: Seq<TickInput>, k: int)
    requires
        s.state == SessionState::Active,
        0 <= k < ticks.len(),
        has_bye(ticks[k].commands),
        forall|i: int| 0 <= i < k ==> !has_bye(#[trigger] ticks[i].commands),
    ensures
        run_spec(s, ticks).0.state == SessionState::Closing,
        run_spec(s, ticks).1 == frames_in_order(ticks.take(k)),
        run_spec(s, ticks) == run_spec(s, ticks.take(k + 1)),
    decreases k,
{
    let next = tick_spec(s, ticks[0].commands, ticks[0].inbound).0;
    let rest = ticks.drop_first();
    if k == 0 {
        lemma_drain_with_bye(s, ticks[0].commands);
        lemma_inactive_publishes_nothing(next, rest);
        assert(ticks.take(0) =~= Seq::<TickInput>::empty());
        let one = ticks.take(1);
        assert(one[0] == ticks[0]);
        lemma_inactive_publishes_nothing(next, one.drop_first());
    } else {
        assert(!has_bye(ticks[0].commands));
        lemma_drain_without_bye(s, ticks[0].commands);
        assert(rest[k - 1] == ticks[k]);
        assert forall|i: int| 0 <= i < k - 1 implies !has_bye(#[trigger] rest[i].commands) by {
            assert(!has_bye(ticks[i + 1].commands));
        }
        lemma_no_events_after_bye(next, rest, k - 1);
        assert(ticks.take(k).drop_first() =~= rest.take(k - 1));
        assert(ticks.take(k)[0] == ticks[0]);
        assert(ticks.take(k + 1).drop_first() =~= rest.take(k));
        assert(ticks.take(k + 1)[0] == ticks[0]);
    }
}

/// Turns can be run in two parts: the events of the whole are those of the
/// first part, then those that the second part publishes from where the
/// first left the session.
pub proof fn lemma_run_in_parts(s: SessionView, first: Seq<TickInput>, second: Seq<TickInput>)
    ensures
        run_spec(s, first + second) == ({
            let (middle, early) = run_spec(s, first);
            let (last, late) = run_spec(middle, second);
            (last, early + late)
        }),
    decreases first.len(),
{
    if first.len() == 0 {
        assert(first + second =~= second);
        let (last, late) = run_spec(s, second);
        assert(Seq::<EventView>::empty() + late =~= late);
    } else {
        let whole = first + second;
        assert(whole[0] == first[0]);
        assert(whole.drop_first() =~= first.drop_first() + second);
        let (next, tick) = tick_spec(s, first[0].commands, first[0].inbound);
        lemma_run_in_parts(next, first.drop_first(), second);
        let (middle, early) = run_spec(next, first.drop_first());
        let (last, late) = run_spec(middle, second);
        assert(published(tick.event) + (early + late) =~= (published(tick.event) + early) + late);
    }
}

/// A closed session stays closed: no read, no command and no turn of the
/// run loop changes it, and none of them publishes or sends anything.
pub proof fn lemma_closed_is_final(
    s: SessionView,
    bytes: Seq<u8>,
    command: CommandView,
    commands: Seq<CommandView>,
)
    requires
        s.state == SessionState::Closed,
    ensures
        read_spec(s, bytes) == (s, Ok::<Option<EventView>, crate::session::SessionError>(None)),
        command_spec(s, command) == (s, ActionView::Ignored),
        tick_spec(s, commands, bytes).0 == s,
        tick_spec(s, commands, bytes).1.event is None,
{
    lemma_drain_inactive(s, commands);
}

/// A session becomes active by the handshake alone: a read leaves a
/// session active only where it was active already, or was logging in and
/// read the empty login packet; and it leaves a session logging in only
/// where it awaited the protocol packet and read one.
pub proof fn lemma_active_by_handshake(s: SessionView, bytes: Seq<u8>)
    ensures
        read_spec(s, bytes).0.state == SessionState::Active ==> s.state == SessionState::Active
            || (s.state == SessionState::LoggingIn && decode_spec(bytes) == Ok::<
            PacketView,
            FrameDecodeError,
        >(PacketView::Login)),
        read_spec(s, bytes).0.state == SessionState::LoggingIn ==> s.state
            == SessionState::AwaitingProtocol && decode_spec(bytes) is Ok && decode_spec(
            bytes,
        )->Ok_0 is Protocol,
{
}

/// A closed queue ends the session. Where the queue of commands is not
/// open, or the queue of events gave an event back as closed, an active
/// session becomes closing and the error is that a queue is closed; from
/// then on no turn of the run loop publishes anything or makes the session
/// active again.
pub proof fn lemma_closed_queue_ends_session(
    s: SessionView,
    open: bool,
    offered: Option<Offered>,
    ticks: Seq<TickInput>,
)
    requires
        s.state == SessionState::Active,
        !open || (offered matches Some(Offered::Closed(_))),
    ensures
        settled(s, open, offered).0 == (SessionView { state: SessionState::Closing, ..s }),
        settled(s, open, offered).2 == Some(SessionError::QueueClosed),
        run_spec(settled(s, open, offered).0, ticks) == (
            settled(s, open, offered).0,
            Seq::<EventView>::empty(),
        ),
{
    lemma_inactive_publishes_nothing(settled(s, open, offered).0, ticks);
}

/// Open queues leave the session as the turn left it: where the queue of
/// commands is open and the queue of events did not give the event back
/// as closed, there is no error, whatever the state of the session.
pub proof fn lemma_open_queues_change_nothing(s: SessionView, offered: Option<Offered>)
    requires
        !(offered matches Some(Offered::Closed(_))),
    ensures
        settled(s, true, offered).0 == s,
        settled(s, true, offered).2 is None,
{
}

} // verus!
