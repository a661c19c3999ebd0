//! One connection's session at the relay, as a function from what the
//! session observes to what it does next.
//!
//! The session waits for `Start`, is registered under the identifier that
//! `Start` names, and from then on relays: a packet from its socket goes
//! onto the queue to the paired session, a message from the queue of the
//! paired session goes onto its socket as it is. It ends when the socket or
//! that queue closes, when a packet arrives that its state cannot accept,
//! or, without an error, when the disconnect signal fires.

use vstd::prelude::*;
use crate::packet::{
    decoding, encoding, lemma_decode_encode, lemma_decoded_is_wf, Packet, PacketView,
};
use crate::relay::error::CryoError;
use crate::relay::channel::queue_bound;
use crate::relay::registry::{
    registered, role_for, slot_of, Half, Pairing, Registry, Role, Slot, QUEUE_CAPACITY,
};

verus! {

/// The state of a session.
#[derive(Debug, PartialEq, Eq)]
pub enum Session {
    /// No `Start` has arrived yet.
    AwaitStart,
    /// The session is registered under the identifier and relays.
    Relaying(String),
}

/// A session's state as a mathematical value.
pub enum SessionView {
    AwaitStart,
    Relaying(Seq<char>),
}

impl View for Session {
    type V = SessionView;

    open spec fn view(&self) -> SessionView {
        match self {
            Session::AwaitStart => SessionView::AwaitStart,
            Session::Relaying(id) => SessionView::Relaying(id@),
        }
    }
}

/// What a session observes at one of the places where it waits.
#[derive(Debug, PartialEq, Eq)]
pub enum Event {
    /// The socket delivered a text frame.
    Frame(String),
    /// The socket delivered a frame that holds no text.
    Garbled,
    /// The socket closed or failed.
    SocketClosed,
    /// The queue from the paired session delivered a message.
    Queued(String),
    /// The queue from the paired session closed: that session is gone.
    QueueClosed,
    /// The disconnect signal fired.
    Disconnected,
}

/// An event as a mathematical value.
pub enum EventView {
    Frame(Seq<char>),
    Garbled,
    SocketClosed,
    Queued(Seq<char>),
    QueueClosed,
    Disconnected,
}

impl View for Event {
    type V = EventView;

    open spec fn view(&self) -> EventView {
        match self {
            Event::Frame(text) => EventView::Frame(text@),
            Event::Garbled => EventView::Garbled,
            Event::SocketClosed => EventView::SocketClosed,
            Event::Queued(text) => EventView::Queued(text@),
            Event::QueueClosed => EventView::QueueClosed,
            Event::Disconnected => EventView::Disconnected,
        }
    }
}

/// What a session does about an event.
#[derive(Debug, PartialEq, Eq)]
pub enum Action {
    /// Register the session under this identifier, with [`Session::join`].
    Register(String),
    /// Put this frame onto the queue to the paired session.
    Forward(String),
    /// Write this frame onto the socket.
    Deliver(String),
    /// End the session without an error.
    Close,
    /// End the session with this error.
    Fail(CryoError),
}

/// An action as a mathematical value.
pub enum ActionView {
    Register(Seq<char>),
    Forward(Seq<char>),
    Deliver(Seq<char>),
    Close,
    Fail(CryoError),
}

impl View for Action {
    type V = ActionView;

    open spec fn view(&self) -> ActionView {
        match self {
            Action::Register(id) => ActionView::Register(id@),
            Action::Forward(text) => ActionView::Forward(text@),
            Action::Deliver(text) => ActionView::Deliver(text@),
            Action::Close => ActionView::Close,
            Action::Fail(error) => ActionView::Fail(*error),
        }
    }
}

/// What a session in `state` does about a packet from its socket: the first
/// packet must be `Start` and no later one may be; every other packet is
/// forwarded, encoded anew.
pub open spec fn packet_reaction(state: SessionView, packet: PacketView) -> ActionView {
    match state {
        SessionView::AwaitStart => match packet {
            PacketView::Start(id) => ActionView::Register(id),
            _ => ActionView::Fail(CryoError::UnexpectedPacket),
        },
        SessionView::Relaying(_) => match packet {
            PacketView::Start(_) => ActionView::Fail(CryoError::UnexpectedPacket),
            _ => ActionView::Forward(encoding(packet)),
        },
    }
}

/// What a session in `state` does about `event`.
pub open spec fn reaction(state: SessionView, event: EventView) -> ActionView {
    match event {
        EventView::Frame(text) => match decoding(text) {
            Some(packet) => packet_reaction(state, packet),
            None => ActionView::Fail(CryoError::MalformedPacket),
        },
        EventView::Garbled => ActionView::Fail(CryoError::MalformedPacket),
        EventView::SocketClosed => ActionView::Fail(CryoError::SocketClosed),
        EventView::Queued(text) => ActionView::Deliver(text),
        EventView::QueueClosed => ActionView::Fail(CryoError::SocketClosed),
        EventView::Disconnected => ActionView::Close,
    }
}

/// What a peer is handed when its session joins a pairing.
#[derive(Debug)]
pub struct Joined {
    /// The peer's half of the queues, its role and its subscription to the
    /// disconnect signal.
    pub pairing: Pairing,
    /// The frame to write onto the peer's own socket at once, if any.
    pub greeting: Option<String>,
}

impl Joined {
    /// The greeting as a sequence of characters, if there is one.
    pub open spec fn greeting_view(self) -> Option<Seq<char>> {
        match self.greeting {
            Some(text) => Some(text@),
            None => None,
        }
    }
}

/// The frame that greets a peer in `role`: the offering side is asked for
/// its offer, the answering side is told nothing.
pub open spec fn greeting_of(role: Role) -> Option<Seq<char>> {
    match role {
        Role::Answering => None,
        Role::Offering => Some(encoding(PacketView::RequestOffer)),
    }
}

impl Session {
    /// The session of a connection that was just accepted.
    pub fn new() -> (session: Session)
        ensures
            session@ == SessionView::AwaitStart,
    {
        Session::AwaitStart
    }

    /// Decides what to do about a packet from the socket.
    pub fn on_packet(&self, packet: Packet) -> (action: Action)
        ensures
            action@ == packet_reaction(self@, packet@),
    {
        match self {
            Session::AwaitStart => match packet {
                Packet::Start(id) => Action::Register(id),
                _ => Action::Fail(CryoError::UnexpectedPacket),
            },
            Session::Relaying(_) => match packet {
                Packet::Start(_) => Action::Fail(CryoError::UnexpectedPacket),
                other => Action::Forward(other.to_json()),
            },
        }
    }

    /// Decides what to do about an event. The state changes only in
    /// [`Session::join`].
    pub fn step(&self, event: Event) -> (action: Action)
        ensures
            action@ == reaction(self@, event@),
    {
        match event {
            Event::Frame(text) => match Packet::from_json(text.as_str()) {
                Ok(packet) => self.on_packet(packet),
                Err(_) => Action::Fail(CryoError::MalformedPacket),
            },
            Event::Garbled => Action::Fail(CryoError::MalformedPacket),
            Event::SocketClosed => Action::Fail(CryoError::SocketClosed),
            Event::Queued(text) => Action::Deliver(text),
            Event::QueueClosed => Action::Fail(CryoError::SocketClosed),
            Event::Disconnected => Action::Close,
        }
    }

    /// Registers the session under `id` and makes it relay.
    ///
    /// A session that waits for `Start` is registered as
    /// [`Registry::register`] says, and relays from then on unless the
    /// registry refused it. The second peer of a pairing is greeted with
    /// `RequestOffer`. A session that relays already is not registered
    /// again: for it the call fails with `UnexpectedPacket` and changes
    /// nothing.
    pub fn join(&mut self, registry: &mut Registry, id: String) -> (r: Result<Joined, CryoError>)
        ensures
            match old(self)@ {
                SessionView::Relaying(_) => {
                    &&& r == Err::<Joined, CryoError>(CryoError::UnexpectedPacket)
                    &&& final(self)@ == old(self)@
                    &&& final(registry)@ == old(registry)@
                },
                SessionView::AwaitStart => match role_for(slot_of(old(registry)@, id@)) {
                    Some(role) => {
                        &&& r matches Ok(joined)
                        &&& joined.pairing.role == role
                        &&& joined.greeting_view() == greeting_of(role)
                        &&& final(self)@ == SessionView::Relaying(id@)
                        &&& match role {
                            Role::Answering => {
                                &&& queue_bound(joined.pairing.half.tx) == QUEUE_CAPACITY
                                &&& final(registry)@[id@] matches Some(waiting)
                                &&& queue_bound(waiting.tx) == QUEUE_CAPACITY
                                &&& final(registry)@ == registered(old(registry)@, id@, waiting)
                            },
                            Role::Offering => {
                                &&& Some(joined.pairing.half) == old(registry)@[id@]
                                &&& final(registry)@ == old(registry)@.insert(id@, None)
                            },
                        }
                    },
                    None => {
                        &&& r == Err::<Joined, CryoError>(CryoError::ChannelAlreadyEstablished)
                        &&& final(self)@ == old(self)@
                        &&& final(registry)@ == old(registry)@
                    },
                },
            },
    {
        match self {
            Session::Relaying(_) => Err(CryoError::UnexpectedPacket),
            Session::AwaitStart => {
                match registry.register(id.clone()) {
                    Err(error) => Err(error),
                    Ok(pairing) => {
                        let greeting = match pairing.role {
                            Role::Answering => None,
                            Role::Offering => Some(Packet::RequestOffer.to_json()),
                        };
                        *self = Session::Relaying(id);
                        Ok(Joined { pairing, greeting })
                    },
                }
            },
        }
    }

    /// Ends the session: a session that relays is unregistered, which also
    /// publishes the disconnect signal of its pairing.
    pub fn leave(self, registry: &mut Registry)
        ensures
            final(registry)@ == match self@ {
                SessionView::AwaitStart => old(registry)@,
                SessionView::Relaying(id) => old(registry)@.remove(id),
            },
    {
        match self {
            Session::AwaitStart => {},
            Session::Relaying(id) => {
                registry.unregister(id.as_str());
            },
        }
    }
}

/// The protocol guard: a first packet other than `Start` ends the session
/// with `UnexpectedPacket`, and so does a `Start` that follows the first.
pub proof fn lemma_protocol_guard(state: SessionView, frame: Seq<char>, packet: PacketView)
    requires
        decoding(frame) == Some(packet),
    ensures
        state is AwaitStart && !(packet is Start) ==> reaction(state, EventView::Frame(frame))
            == ActionView::Fail(CryoError::UnexpectedPacket),
        state is Relaying && packet is Start ==> reaction(state, EventView::Frame(frame))
            == ActionView::Fail(CryoError::UnexpectedPacket),
        state is AwaitStart && packet is Start ==> reaction(state, EventView::Frame(frame))
            == ActionView::Register(packet->Start_0),
{
}

/// The relay is transparent. A packet other than `Start` that one peer
/// writes while its session relays is put onto the queue as a frame that
/// stands for the same packet, and the paired session writes that frame
/// onto its socket as it took it from the queue.
pub proof fn lemma_relay_transparent(
    id: Seq<char>,
    peer: SessionView,
    frame: Seq<char>,
    packet: PacketView,
)
    requires
        decoding(frame) == Some(packet),
        !(packet is Start),
    ensures
        reaction(SessionView::Relaying(id), EventView::Frame(frame)) == ActionView::Forward(
            encoding(packet),
        ),
        reaction(peer, EventView::Queued(encoding(packet))) == ActionView::Deliver(
            encoding(packet),
        ),
        decoding(encoding(packet)) == Some(packet),
{
    lemma_decoded_is_wf(frame);
    lemma_decode_encode(packet);
}

/// What a relaying session puts onto its queue for a sequence of frames
/// from its socket, as long as none of them ends the session.
pub open spec fn forwarded(id: Seq<char>, frames: Seq<Seq<char>>) -> Seq<ActionView> {
    Seq::new(
        frames.len(),
        |i: int| reaction(SessionView::Relaying(id), EventView::Frame(frames[i])),
    )
}

/// What a session writes onto its socket for a sequence of messages from
/// its queue.
pub open spec fn delivered(peer: SessionView, messages: Seq<Seq<char>>) -> Seq<ActionView> {
    Seq::new(messages.len(), |i: int| reaction(peer, EventView::Queued(messages[i])))
}

/// Transparency holds of whole sequences, in order: if one peer writes
/// the frames of packets other than `Start`, and the queue hands on what was
/// forwarded in the order in which it was put in, the paired peer is
/// written as many frames, the i-th of which stands for the packet of the
/// i-th frame that was written.
pub proof fn lemma_relay_keeps_order(
    id: Seq<char>,
    peer: SessionView,
    frames: Seq<Seq<char>>,
    messages: Seq<Seq<char>>,
)
    requires
        forall|i: int|
            0 <= i < frames.len() ==> decoding(#[trigger] frames[i]) is Some && !(decoding(
                frames[i],
            )->0 is Start),
        messages.len() == frames.len(),
        forall|i: int|
            0 <= i < frames.len() ==> forwarded(id, frames)[i] == ActionView::Forward(
                #[trigger] messages[i],
            ),
    ensures
        delivered(peer, messages).len() == frames.len(),
        forall|i: int|
            0 <= i < frames.len() ==> #[trigger] delivered(peer, messages)[i]
                == ActionView::Deliver(messages[i]) && decoding(messages[i]) == decoding(
                frames[i],
            ),
{
    assert forall|i: int| 0 <= i < frames.len() implies #[trigger] delivered(peer, messages)[i]
        == ActionView::Deliver(messages[i]) && decoding(messages[i]) == decoding(frames[i]) by {
        let packet = decoding(frames[i])->0;
        lemma_relay_transparent(id, peer, frames[i], packet);
        assert(forwarded(id, frames)[i] == ActionView::Forward(messages[i]));
    }
}

/// Disconnect propagation: leaving frees the identifier, and a session that
/// is told of the disconnect ends without an error, whatever its state.
pub proof fn lemma_disconnect_propagates(
    entries: Map<Seq<char>, Option<Half>>,
    id: Seq<char>,
    peer: SessionView,
)
    ensures
        slot_of(entries.remove(id), id) == Slot::Vacant,
        reaction(peer, EventView::Disconnected) == ActionView::Close,
{
}

/// No event makes a session drop a message: what arrives from the socket
/// as a packet to relay is forwarded, and what arrives from the queue is
/// delivered.
pub proof fn lemma_nothing_is_dropped(id: Seq<char>, frame: Seq<char>, message: Seq<char>)
    ensures
        decoding(frame) matches Some(packet) && !(packet is Start) ==> reaction(
            SessionView::Relaying(id),
            EventView::Frame(frame),
        ) is Forward,
        reaction(SessionView::Relaying(id), EventView::Queued(message)) == ActionView::Deliver(
            message,
        ),
{
}


} // verus!
