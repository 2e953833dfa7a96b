//! The decisions of one connection's handler, from admission to teardown.
//!
//! The handler's I/O runs elsewhere: it reads frames, waits on timers, and
//! writes to queues. Each thing that happens to the connection is handed to
//! `step` as an `Event`; the returned `Action` says which messages to enqueue
//! and whether the connection ends. A connection ends only through
//! `Action::Leave`, and by then its participant is out of the registry.

use vstd::prelude::*;
use crate::codec::{parse_message, DecodeError};
use crate::frame::TransportError;
use crate::message::{Message, MessageView};
use crate::registry::Registry;
use crate::router::{
    deliveries_view, fanout, names_view, notice, route, route_spec, server_notice,
    Delivery,
};

verus! {

/// Seconds of inbound silence after which a participant is dropped.
pub const HEARTBEAT_TIMEOUT_SECS: u64 = 10;

/// Appended to a username to announce its departure.
pub const LEFT_SUFFIX: &'static str = " has left the chat.";

/// Sent to every participant when the broker shuts down.
pub const SHUTDOWN_NOTICE: &'static str = "Server is shutting down...";

/// Why a connection ended.
#[derive(Clone, Copy, Debug, PartialEq, Eq, Structural)]
pub enum LeaveReason {
    /// A frame did not hold a message.
    Decode(DecodeError),
    /// The stream ended or failed, or sent an empty frame.
    Transport(TransportError),
    /// Nothing arrived for longer than the heartbeat timeout.
    HeartbeatTimeout,
}

/// What happened to a connection.
#[derive(Debug)]
pub enum Event {
    /// A whole frame arrived and held this message.
    Message(Message),
    /// A whole frame arrived that held no message.
    Undecodable(DecodeError),
    /// Reading the next frame failed.
    Failed(TransportError),
    /// The watchdog woke up.
    Tick,
}

/// What the handler does about an event.
#[derive(Debug)]
pub enum Action {
    /// Enqueue these deliveries and go on.
    Deliver(Vec<Delivery>),
    /// The participant has been removed from the registry: enqueue these
    /// deliveries and end the connection.
    Leave(LeaveReason, Vec<Delivery>),
}

/// The state of an admitted connection.
#[derive(Debug)]
pub struct Session {
    /// The username the connection registered with.
    pub username: String,
    /// When the last frame arrived, in seconds of a monotonic clock.
    pub last_activity: u64,
}

/// The announcement that `username` left.
pub open spec fn left_text(username: Seq<char>) -> Seq<char> {
    username + LEFT_SUFFIX@
}

/// `m` with its sender replaced by `username`.
pub open spec fn from_user(m: MessageView, username: Seq<char>) -> MessageView {
    MessageView { sender: username, ..m }
}

/// `after` is `before` without the entry of `username`, if it had one.
pub open spec fn removed<H>(
    before: Seq<(Seq<char>, H)>,
    after: Seq<(Seq<char>, H)>,
    username: Seq<char>,
) -> bool {
    (exists|i: int| 0 <= i < before.len() && before[i].0 == username && after == before.remove(i))
        || (!crate::registry::names_of(before).contains(username) && after == before)
}

/// The farewell of `username` to everyone left in `names`.
pub open spec fn farewell(names: Seq<Seq<char>>, username: Seq<char>, now: u32) -> Seq<
    (Seq<char>, MessageView),
> {
    fanout(names, username, notice(left_text(username), now))
}

impl Session {
    /// A session for `username`, active as of `now`.
    pub fn new(username: String, now: u64) -> (r: Session)
        ensures
            r.username@ == username@,
            r.last_activity == now,
    {
        Session { username, last_activity: now }
    }

    /// Whether the participant has been silent for longer than the timeout at `now`.
    pub fn expired(&self, now: u64) -> (r: bool)
        ensures
            r == (now > self.last_activity + HEARTBEAT_TIMEOUT_SECS),
    {
        now >= self.last_activity && now - self.last_activity > HEARTBEAT_TIMEOUT_SECS
    }

    /// Handles an inbound message at `now`, when `names` are registered: the
    /// message is attributed to this session's user and routed, with `stamp`
    /// as the time of the messages routed.
    pub fn receive(&mut self, message: Message, names: &[String], now: u64, stamp: u32) -> (r: Vec<
        Delivery,
    >)
        ensures
            final(self).username == old(self).username,
            final(self).last_activity == now,
            deliveries_view(r@) == route_spec(
                from_user(message@, old(self).username@),
                names_view(names@),
                stamp,
            ),
    {
        let m = Message {
            sender: self.username.clone(),
            content: message.content,
            timestamp: message.timestamp,
        };
        self.last_activity = now;
        route(&m, names, stamp)
    }
}

/// The event that an inbound payload makes: the message it holds, or why it
/// holds none. This decodes, so it is done before the registry is touched.
pub fn event_of_payload(payload: &[u8]) -> (r: Event)
    ensures
        match parse_message(payload@) {
            Ok(m) => r matches Event::Message(x) && x@ == m,
            Err(e) => r matches Event::Undecodable(x) && x == e,
        },
{
    match Message::from_bytes(payload) {
        Ok(m) => Event::Message(m),
        Err(e) => Event::Undecodable(e),
    }
}

/// Removes `username` from the registry and announces the departure to the
/// participants that remain.
pub fn depart<H>(registry: &mut Registry<H>, username: &str, stamp: u32) -> (r: Vec<Delivery>)
    requires
        old(registry).wf(),
    ensures
        final(registry).wf(),
        !final(registry).names().contains(username@),
        removed(old(registry)@, final(registry)@, username@),
        deliveries_view(r@) == farewell(final(registry).names(), username@, stamp),
{
    let _ = registry.remove(username);
    let text = username.to_owned().concat(LEFT_SUFFIX);
    registry.broadcast_to_others(username, &server_notice(text.as_str(), stamp))
}

/// The notice of shutdown, for every participant.
pub fn shutdown_notices<H>(registry: &Registry<H>, stamp: u32) -> (r: Vec<Delivery>)
    ensures
        deliveries_view(r@) == registry.names().map_values(
            |n: Seq<char>| (n, notice(SHUTDOWN_NOTICE@, stamp)),
        ),
{
    let names = registry.usernames();
    let mut r: Vec<Delivery> = Vec::new();
    let mut i: usize = 0;
    while i < names.len()
        invariant
            i <= names@.len(),
            names_view(names@) == registry.names(),
            deliveries_view(r@) == names_view(names@).subrange(0, i as int).map_values(
                |n: Seq<char>| (n, notice(SHUTDOWN_NOTICE@, stamp)),
            ),
        decreases names@.len() - i,
    {
        let d = Delivery { to: names[i].clone(), message: server_notice(SHUTDOWN_NOTICE, stamp) };
        let ghost prev = r@;
        r.push(d);
        assert(deliveries_view(r@) =~= deliveries_view(prev).push(d@));
        i += 1;
        assert(deliveries_view(r@) =~= names_view(names@).subrange(0, i as int).map_values(
            |n: Seq<char>| (n, notice(SHUTDOWN_NOTICE@, stamp)),
        ));
    }
    assert(names_view(names@).subrange(0, i as int) =~= names_view(names@));
    r
}

/// Decides what the handler of `session` does about `event`, at `now` on the
/// monotonic clock and `stamp` on the wall clock.
pub fn step<H>(
    session: &mut Session,
    registry: &mut Registry<H>,
    event: Event,
    now: u64,
    stamp: u32,
) -> (r: Action)
    requires
        old(registry).wf(),
    ensures
        final(registry).wf(),
        final(session).username == old(session).username,
        match r {
            Action::Deliver(d) => final(registry)@ == old(registry)@ && match event {
                Event::Message(m) => deliveries_view(d@) == route_spec(
                    from_user(m@, old(session).username@),
                    old(registry).names(),
                    stamp,
                ) && final(session).last_activity == now,
                Event::Undecodable(_) => false,
                Event::Failed(_) => false,
                Event::Tick => !(now > old(session).last_activity + HEARTBEAT_TIMEOUT_SECS)
                    && d@.len() == 0 && final(session).last_activity == old(
                    session,
                ).last_activity,
            },
            Action::Leave(reason, d) => !final(registry).names().contains(old(session).username@)
                && removed(old(registry)@, final(registry)@, old(session).username@)
                && deliveries_view(d@) == farewell(
                final(registry).names(),
                old(session).username@,
                stamp,
            ) && match event {
                Event::Message(_) => false,
                Event::Undecodable(e) => reason == LeaveReason::Decode(e),
                Event::Failed(e) => reason == LeaveReason::Transport(e),
                Event::Tick => now > old(session).last_activity + HEARTBEAT_TIMEOUT_SECS && reason
                    == LeaveReason::HeartbeatTimeout,
            },
        },
{
    let reason = match event {
        Event::Message(m) => {
            let names = registry.usernames();
            return Action::Deliver(session.receive(m, names.as_slice(), now, stamp));
        },
        Event::Undecodable(e) => LeaveReason::Decode(e),
        Event::Failed(e) => LeaveReason::Transport(e),
        Event::Tick => {
            if session.expired(now) {
                LeaveReason::HeartbeatTimeout
            } else {
                return Action::Deliver(Vec::new());
            }
        },
    };
    let d = depart(registry, session.username.as_str(), stamp);
    Action::Leave(reason, d)
}

} // verus!
