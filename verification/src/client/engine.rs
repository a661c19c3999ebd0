//! The client's negotiation engine, as a function from what the client
//! observes to the commands it carries out next.
//!
//! The client announces its identifier and waits for the relay's first
//! packet, which tells it its side: `RequestOffer` makes it the offering
//! side, an `Offer` the answering side. From then on it takes whatever the
//! peer sends but `Start`: candidates are added as they come, and an offer,
//! an answer or a request for an offer is handled as the first one was, so
//! that the peers can negotiate again. Every failure ends the session.

use vstd::prelude::*;
use crate::client::error::CryoError;
use crate::packet::{decoding, encoding, Packet, PacketView, Payload};

verus! {

/// How far a session has come.
#[derive(Clone, Copy, Debug, PartialEq, Eq, Structural)]
pub enum Phase {
    /// Nothing was sent yet.
    Idle,
    /// `Start` was sent; the relay's first packet is awaited.
    Started,
    /// An offer was asked for; the peer's answer is awaited.
    Offering,
    /// An offer arrived; the answer is being made.
    Answering,
    /// The descriptions are exchanged; the data channel is awaited.
    DataChannelPending,
    /// The data channel is open and bridged.
    Bridging,
    /// The session has ended.
    Closed,
}

/// What the client observes at one of the places where it waits.
#[derive(Debug, PartialEq, Eq)]
pub enum Event {
    /// The connection to the relay is open.
    Connected,
    /// The relay delivered a text frame.
    Frame(String),
    /// The relay delivered a frame that holds no text.
    Garbled,
    /// The relay socket closed or failed. `connected` says whether the
    /// transport engine reports its connectivity as connected.
    RelayClosed { connected: bool },
    /// A frame could not be written to the relay.
    SendFailed,
    /// The transport engine made the offer that was asked for.
    OfferCreated(Payload),
    /// The transport engine made the answer that was asked for.
    AnswerCreated(Payload),
    /// The transport engine found a local candidate, or, with `None`,
    /// reports that it will find no more.
    LocalCandidate(Option<Payload>),
    /// A data channel opened.
    ChannelOpened,
    /// The data channel closed.
    ChannelClosed,
    /// The transport engine reported an error.
    EngineFailed,
    /// The client was interrupted, or another of its tasks has ended the
    /// session.
    Aborted,
}

/// An event as a mathematical value.
pub enum EventView {
    Connected,
    Frame(Seq<char>),
    Garbled,
    RelayClosed { connected: bool },
    SendFailed,
    OfferCreated(Seq<char>),
    AnswerCreated(Seq<char>),
    LocalCandidate(Option<Seq<char>>),
    ChannelOpened,
    ChannelClosed,
    EngineFailed,
    Aborted,
}

impl View for Event {
    type V = EventView;

    open spec fn view(&self) -> EventView {
        match self {
            Event::Connected => EventView::Connected,
            Event::Frame(text) => EventView::Frame(text@),
            Event::Garbled => EventView::Garbled,
            Event::RelayClosed { connected } => EventView::RelayClosed { connected: *connected },
            Event::SendFailed => EventView::SendFailed,
            Event::OfferCreated(description) => EventView::OfferCreated(description@),
            Event::AnswerCreated(description) => EventView::AnswerCreated(description@),
            Event::LocalCandidate(candidate) => EventView::LocalCandidate(
                match candidate {
                    Some(payload) => Some(payload@),
                    None => None,
                },
            ),
            Event::ChannelOpened => EventView::ChannelOpened,
            Event::ChannelClosed => EventView::ChannelClosed,
            Event::EngineFailed => EventView::EngineFailed,
            Event::Aborted => EventView::Aborted,
        }
    }
}

/// One thing for the client to carry out. The commands of one step are
/// carried out in their order.
#[derive(Debug, PartialEq, Eq)]
pub enum Command {
    /// Write this frame to the relay.
    Send(String),
    /// Create the data channel on the transport engine.
    CreateDataChannel,
    /// Have the transport engine report the data channel that the peer
    /// creates.
    AwaitDataChannel,
    /// Ask the transport engine for an offer.
    CreateOffer,
    /// Ask the transport engine for an answer.
    CreateAnswer,
    /// Apply this description as the local one.
    SetLocalDescription(Payload),
    /// Apply this description as the remote one.
    SetRemoteDescription(Payload),
    /// Hand this candidate of the peer to the transport engine.
    AddCandidate(Payload),
    /// Start the bridge over the open data channel.
    StartBridge,
    /// Stop reading the relay socket; the session goes on without it.
    LeaveRelay,
    /// Publish the shutdown signal.
    Shutdown,
}

/// A command as a mathematical value.
pub enum CommandView {
    Send(Seq<char>),
    CreateDataChannel,
    AwaitDataChannel,
    CreateOffer,
    CreateAnswer,
    SetLocalDescription(Seq<char>),
    SetRemoteDescription(Seq<char>),
    AddCandidate(Seq<char>),
    StartBridge,
    LeaveRelay,
    Shutdown,
}

impl View for Command {
    type V = CommandView;

    open spec fn view(&self) -> CommandView {
        match self {
            Command::Send(frame) => CommandView::Send(frame@),
            Command::CreateDataChannel => CommandView::CreateDataChannel,
            Command::AwaitDataChannel => CommandView::AwaitDataChannel,
            Command::CreateOffer => CommandView::CreateOffer,
            Command::CreateAnswer => CommandView::CreateAnswer,
            Command::SetLocalDescription(description) => CommandView::SetLocalDescription(
                description@,
            ),
            Command::SetRemoteDescription(description) => CommandView::SetRemoteDescription(
                description@,
            ),
            Command::AddCandidate(candidate) => CommandView::AddCandidate(candidate@),
            Command::StartBridge => CommandView::StartBridge,
            Command::LeaveRelay => CommandView::LeaveRelay,
            Command::Shutdown => CommandView::Shutdown,
        }
    }
}

/// The outcome of one step: the commands to carry out, or the error that
/// ends the session.
pub type Outcome = Result<Seq<CommandView>, CryoError>;

/// The commands of a step's result, as mathematical values.
pub open spec fn outcome_of(r: Result<Vec<Command>, CryoError>) -> Outcome {
    match r {
        Ok(commands) => Ok(commands@.map_values(|c: Command| c@)),
        Err(error) => Err(error),
    }
}

/// The end of a session by an error.
pub open spec fn failed(error: CryoError) -> (Phase, Outcome) {
    (Phase::Closed, Err(error))
}

/// Whether the relay's first packet has arrived and the session has not
/// ended.
pub open spec fn is_negotiating(phase: Phase) -> bool {
    phase == Phase::Offering || phase == Phase::Answering || phase == Phase::DataChannelPending
        || phase == Phase::Bridging
}

/// What a client in `phase` does about a packet from the relay.
///
/// `Start` is never accepted. The first packet must be `RequestOffer`, which
/// makes the client create the data channel and an offer, or an `Offer`,
/// which it applies and answers. Later, each of the two is handled in the
/// same way and leaves the phase as it is, an `Answer` is applied, and a
/// `Candidate` is added at once.
pub open spec fn packet_reaction(phase: Phase, packet: PacketView) -> (Phase, Outcome) {
    if phase != Phase::Started && !is_negotiating(phase) {
        failed(CryoError::UnexpectedPacket)
    } else {
        match packet {
            PacketView::Start(_) => failed(CryoError::UnexpectedPacket),
            PacketView::RequestOffer => (
                if phase == Phase::Started {
                    Phase::Offering
                } else {
                    phase
                },
                Ok(seq![CommandView::CreateDataChannel, CommandView::CreateOffer]),
            ),
            PacketView::Offer(description) => (
                if phase == Phase::Started {
                    Phase::Answering
                } else {
                    phase
                },
                Ok(
                    seq![
                        CommandView::AwaitDataChannel,
                        CommandView::SetRemoteDescription(description),
                        CommandView::CreateAnswer,
                    ],
                ),
            ),
            PacketView::Answer(description) => if phase == Phase::Started {
                failed(CryoError::UnexpectedPacket)
            } else {
                (
                    if phase == Phase::Offering {
                        Phase::DataChannelPending
                    } else {
                        phase
                    },
                    Ok(seq![CommandView::SetRemoteDescription(description)]),
                )
            },
            PacketView::Candidate(candidate) => if phase == Phase::Started {
                failed(CryoError::UnexpectedPacket)
            } else {
                (phase, Ok(seq![CommandView::AddCandidate(candidate)]))
            },
        }
    }
}

/// What a client with identifier `id` in `phase` does about `event`, and
/// its phase afterwards.
///
/// A session that has ended does nothing any more. The loss of the relay
/// is passed over if the direct transport is connected and ends the session
/// otherwise; a frame that cannot be written to the relay ends it in any
/// case. A description that the transport engine made is applied
/// locally and then sent to the peer; a local candidate is sent to the peer,
/// and the word that there are no more is not. An open data channel starts
/// the bridge, once. The close of the data channel and an abort end the
/// session without an error.
pub open spec fn reaction(phase: Phase, id: Seq<char>, event: EventView) -> (Phase, Outcome) {
    if phase == Phase::Closed {
        (Phase::Closed, Ok(Seq::empty()))
    } else {
        match event {
            EventView::Connected => if phase == Phase::Idle {
                (Phase::Started, Ok(seq![CommandView::Send(encoding(PacketView::Start(id)))]))
            } else {
                (phase, Ok(Seq::empty()))
            },
            EventView::Frame(text) => match decoding(text) {
                Some(packet) => packet_reaction(phase, packet),
                None => failed(CryoError::MalformedPacket),
            },
            EventView::Garbled => failed(CryoError::MalformedPacket),
            EventView::RelayClosed { connected } => if connected {
                (phase, Ok(seq![CommandView::LeaveRelay]))
            } else {
                failed(CryoError::SocketClosed)
            },
            EventView::SendFailed => failed(CryoError::SocketClosed),
            EventView::OfferCreated(description) => if is_negotiating(phase) {
                (
                    phase,
                    Ok(
                        seq![
                            CommandView::SetLocalDescription(description),
                            CommandView::Send(encoding(PacketView::Offer(description))),
                        ],
                    ),
                )
            } else {
                failed(CryoError::TransportEngineFailure)
            },
            EventView::AnswerCreated(description) => if is_negotiating(phase) {
                (
                    if phase == Phase::Answering {
                        Phase::DataChannelPending
                    } else {
                        phase
                    },
                    Ok(
                        seq![
                            CommandView::SetLocalDescription(description),
                            CommandView::Send(encoding(PacketView::Answer(description))),
                        ],
                    ),
                )
            } else {
                failed(CryoError::TransportEngineFailure)
            },
            EventView::LocalCandidate(candidate) => match candidate {
                Some(text) => (
                    phase,
                    Ok(seq![CommandView::Send(encoding(PacketView::Candidate(text)))]),
                ),
                None => (phase, Ok(Seq::empty())),
            },
            EventView::ChannelOpened => if phase == Phase::Bridging {
                (phase, Ok(Seq::empty()))
            } else if is_negotiating(phase) {
                (Phase::Bridging, Ok(seq![CommandView::StartBridge]))
            } else {
                failed(CryoError::TransportEngineFailure)
            },
            EventView::ChannelClosed => (Phase::Closed, Ok(seq![CommandView::Shutdown])),
            EventView::EngineFailed => failed(CryoError::TransportEngineFailure),
            EventView::Aborted => (Phase::Closed, Ok(seq![CommandView::Shutdown])),
        }
    }
}

/// The label of the data channel that the offering side creates.
pub fn channel_label() -> (label: &'static str)
    ensures
        label@ == seq!['c', 'h', 'a', 'n', 'n', 'e', 'l'],
{
    proof {
        reveal_strlit("channel");
    }
    let label = "channel";
    assert(label@ =~= seq!['c', 'h', 'a', 'n', 'n', 'e', 'l']);
    label
}

/// The state of a client's negotiation.
#[derive(Debug, PartialEq, Eq)]
pub struct Engine {
    id: String,
    phase: Phase,
}

impl Engine {
    /// The identifier that the client announces.
    pub closed spec fn id_view(&self) -> Seq<char> {
        self.id@
    }

    /// The phase that the session is in.
    pub closed spec fn phase_view(&self) -> Phase {
        self.phase
    }

    /// The engine of a client that will announce `id`.
    pub fn new(id: String) -> (engine: Engine)
        ensures
            engine.id_view() == id@,
            engine.phase_view() == Phase::Idle,
    {
        Engine { id, phase: Phase::Idle }
    }

    /// The phase that the session is in.
    pub fn phase(&self) -> (phase: Phase)
        ensures
            phase == self.phase_view(),
    {
        self.phase
    }

    /// The identifier that the client announces.
    pub fn id(&self) -> (id: &str)
        ensures
            id@ == self.id_view(),
    {
        self.id.as_str()
    }

    fn fail(&mut self, error: CryoError) -> (r: Result<Vec<Command>, CryoError>)
        ensures
            final(self).id_view() == old(self).id_view(),
            (final(self).phase_view(), outcome_of(r)) == failed(error),
    {
        self.phase = Phase::Closed;
        Err(error)
    }

    /// Decides what to do about a packet from the relay, and moves to the
    /// next phase.
    pub fn on_packet(&mut self, packet: Packet) -> (r: Result<Vec<Command>, CryoError>)
        ensures
            final(self).id_view() == old(self).id_view(),
            (final(self).phase_view(), outcome_of(r)) == packet_reaction(
                old(self).phase_view(),
                packet@,
            ),
    {
        let phase = self.phase;
        let negotiating = phase == Phase::Offering || phase == Phase::Answering || phase
            == Phase::DataChannelPending || phase == Phase::Bridging;
        if phase != Phase::Started && !negotiating {
            return self.fail(CryoError::UnexpectedPacket);
        }
        match packet {
            Packet::Start(_) => self.fail(CryoError::UnexpectedPacket),
            Packet::RequestOffer => {
                if phase == Phase::Started {
                    self.phase = Phase::Offering;
                }
                let commands = vec![Command::CreateDataChannel, Command::CreateOffer];
                assert(commands@.map_values(|c: Command| c@) =~= seq![
                    CommandView::CreateDataChannel,
                    CommandView::CreateOffer,
                ]);
                Ok(commands)
            },
            Packet::Offer(description) => {
                if phase == Phase::Started {
                    self.phase = Phase::Answering;
                }
                let ghost text = description@;
                let commands = vec![
                    Command::AwaitDataChannel,
                    Command::SetRemoteDescription(description),
                    Command::CreateAnswer,
                ];
                assert(commands@.map_values(|c: Command| c@) =~= seq![
                    CommandView::AwaitDataChannel,
                    CommandView::SetRemoteDescription(text),
                    CommandView::CreateAnswer,
                ]);
                Ok(commands)
            },
            Packet::Answer(description) => {
                if phase == Phase::Started {
                    return self.fail(CryoError::UnexpectedPacket);
                }
                if phase == Phase::Offering {
                    self.phase = Phase::DataChannelPending;
                }
                let ghost text = description@;
                let commands = vec![Command::SetRemoteDescription(description)];
                assert(commands@.map_values(|c: Command| c@) =~= seq![
                    CommandView::SetRemoteDescription(text),
                ]);
                Ok(commands)
            },
            Packet::Candidate(candidate) => {
                if phase == Phase::Started {
                    return self.fail(CryoError::UnexpectedPacket);
                }
                let ghost text = candidate@;
                let commands = vec![Command::AddCandidate(candidate)];
                assert(commands@.map_values(|c: Command| c@) =~= seq![
                    CommandView::AddCandidate(text),
                ]);
                Ok(commands)
            },
        }
    }

    /// Decides what to do about an event, and moves to the next phase.
    pub fn step(&mut self, event: Event) -> (r: Result<Vec<Command>, CryoError>)
        ensures
            final(self).id_view() == old(self).id_view(),
            (final(self).phase_view(), outcome_of(r)) == reaction(
                old(self).phase_view(),
                old(self).id_view(),
                event@,
            ),
    {
        let phase = self.phase;
        if phase == Phase::Closed {
            let commands: Vec<Command> = Vec::new();
            assert(commands@.map_values(|c: Command| c@) =~= Seq::<CommandView>::empty());
            return Ok(commands);
        }
        let negotiating = phase == Phase::Offering || phase == Phase::Answering || phase
            == Phase::DataChannelPending || phase == Phase::Bridging;
        match event {
            Event::Connected => {
                if phase == Phase::Idle {
                    self.phase = Phase::Started;
                    let frame = Packet::Start(self.id.clone()).to_json();
                    let ghost text = frame@;
                    let commands = vec![Command::Send(frame)];
                    assert(commands@.map_values(|c: Command| c@) =~= seq![CommandView::Send(text)]);
                    Ok(commands)
                } else {
                    let commands: Vec<Command> = Vec::new();
                    assert(commands@.map_values(|c: Command| c@) =~= Seq::<CommandView>::empty());
                    Ok(commands)
                }
            },
            Event::Frame(text) => match Packet::from_json(text.as_str()) {
                Ok(packet) => self.on_packet(packet),
                Err(_) => self.fail(CryoError::MalformedPacket),
            },
            Event::Garbled => self.fail(CryoError::MalformedPacket),
            Event::RelayClosed { connected } => {
                if connected {
                    let commands = vec![Command::LeaveRelay];
                    assert(commands@.map_values(|c: Command| c@) =~= seq![CommandView::LeaveRelay]);
                    Ok(commands)
                } else {
                    self.fail(CryoError::SocketClosed)
                }
            },
            Event::SendFailed => self.fail(CryoError::SocketClosed),
            Event::OfferCreated(description) => {
                if !negotiating {
                    return self.fail(CryoError::TransportEngineFailure);
                }
                let frame = Packet::Offer(description.clone()).to_json();
                let ghost text = frame@;
                let ghost body = description@;
                let commands = vec![Command::SetLocalDescription(description), Command::Send(frame)];
                assert(commands@.map_values(|c: Command| c@) =~= seq![
                    CommandView::SetLocalDescription(body),
                    CommandView::Send(text),
                ]);
                Ok(commands)
            },
            Event::AnswerCreated(description) => {
                if !negotiating {
                    return self.fail(CryoError::TransportEngineFailure);
                }
                if phase == Phase::Answering {
                    self.phase = Phase::DataChannelPending;
                }
                let frame = Packet::Answer(description.clone()).to_json();
                let ghost text = frame@;
                let ghost body = description@;
                let commands = vec![Command::SetLocalDescription(description), Command::Send(frame)];
                assert(commands@.map_values(|c: Command| c@) =~= seq![
                    CommandView::SetLocalDescription(body),
                    CommandView::Send(text),
                ]);
                Ok(commands)
            },
            Event::LocalCandidate(candidate) => match candidate {
                Some(payload) => {
                    let frame = Packet::Candidate(payload).to_json();
                    let ghost text = frame@;
                    let commands = vec![Command::Send(frame)];
                    assert(commands@.map_values(|c: Command| c@) =~= seq![CommandView::Send(text)]);
                    Ok(commands)
                },
                None => {
                    let commands: Vec<Command> = Vec::new();
                    assert(commands@.map_values(|c: Command| c@) =~= Seq::<CommandView>::empty());
                    Ok(commands)
                },
            },
            Event::ChannelOpened => {
                if phase == Phase::Bridging {
                    let commands: Vec<Command> = Vec::new();
                    assert(commands@.map_values(|c: Command| c@) =~= Seq::<CommandView>::empty());
                    Ok(commands)
                } else if negotiating {
                    self.phase = Phase::Bridging;
                    let commands = vec![Command::StartBridge];
                    assert(commands@.map_values(|c: Command| c@) =~= seq![CommandView::StartBridge]);
                    Ok(commands)
                } else {
                    self.fail(CryoError::TransportEngineFailure)
                }
            },
            Event::ChannelClosed => {
                self.phase = Phase::Closed;
                let commands = vec![Command::Shutdown];
                assert(commands@.map_values(|c: Command| c@) =~= seq![CommandView::Shutdown]);
                Ok(commands)
            },
            Event::EngineFailed => self.fail(CryoError::TransportEngineFailure),
            Event::Aborted => {
                self.phase = Phase::Closed;
                let commands = vec![Command::Shutdown];
                assert(commands@.map_values(|c: Command| c@) =~= seq![CommandView::Shutdown]);
                Ok(commands)
            },
        }
    }
}

/// `Start` is never accepted from the relay: it ends the session with
/// `UnexpectedPacket`, whatever the phase.
pub proof fn lemma_start_is_never_accepted(phase: Phase, id: Seq<char>, frame: Seq<char>)
    requires
        phase != Phase::Closed,
        decoding(frame) matches Some(packet) && packet is Start,
    ensures
        reaction(phase, id, EventView::Frame(frame)) == failed(CryoError::UnexpectedPacket),
{
}

/// The relay's first packet decides the client's side: `RequestOffer` makes
/// it the offering side, an `Offer` the answering side, and every other
/// packet ends the session with `UnexpectedPacket`.
pub proof fn lemma_first_packet_decides_the_side(id: Seq<char>, frame: Seq<char>)
    requires
        decoding(frame) is Some,
    ensures
        ({
            let packet = decoding(frame)->0;
            let (next, outcome) = reaction(Phase::Started, id, EventView::Frame(frame));
            &&& packet is RequestOffer ==> next == Phase::Offering && outcome is Ok
            &&& packet is Offer ==> next == Phase::Answering && outcome is Ok
            &&& !(packet is RequestOffer) && !(packet is Offer) ==> (next, outcome) == failed(
                CryoError::UnexpectedPacket,
            )
        }),
{
}

/// A candidate of the peer is handed to the transport engine as soon as it
/// arrives, in every phase after the relay's first packet; it does not wait
/// for the remote description.
pub proof fn lemma_candidate_is_added_at_once(
    phase: Phase,
    id: Seq<char>,
    frame: Seq<char>,
    candidate: Seq<char>,
)
    requires
        is_negotiating(phase),
        decoding(frame) == Some(PacketView::Candidate(candidate)),
    ensures
        reaction(phase, id, EventView::Frame(frame)) == (
            phase,
            Ok::<Seq<CommandView>, CryoError>(seq![CommandView::AddCandidate(candidate)]),
        ),
{
}

/// The peers can negotiate again: once the relay's first packet has
/// arrived, a request for an offer, an offer and an answer are accepted in
/// every phase.
pub proof fn lemma_negotiation_can_be_repeated(phase: Phase, id: Seq<char>, frame: Seq<char>)
    requires
        is_negotiating(phase),
        decoding(frame) matches Some(packet) && !(packet is Start),
    ensures
        reaction(phase, id, EventView::Frame(frame)).1 is Ok,
        reaction(phase, id, EventView::Frame(frame)).0 != Phase::Closed,
{
}

/// A session that has ended stays ended and commands nothing, whatever it
/// is told.
pub proof fn lemma_closed_is_final(id: Seq<char>, event: EventView)
    ensures
        reaction(Phase::Closed, id, event) == (
            Phase::Closed,
            Ok::<Seq<CommandView>, CryoError>(Seq::empty()),
        ),
{
}

/// Every error ends the session.
pub proof fn lemma_errors_are_fatal(phase: Phase, id: Seq<char>, event: EventView)
    ensures
        reaction(phase, id, event).1 is Err ==> reaction(phase, id, event).0 == Phase::Closed,
{
}

/// The loss of the relay ends the session unless the direct transport is
/// connected.
pub proof fn lemma_relay_loss(phase: Phase, id: Seq<char>, connected: bool)
    requires
        phase != Phase::Closed,
    ensures
        connected ==> reaction(phase, id, EventView::RelayClosed { connected }).0 == phase
            && reaction(phase, id, EventView::RelayClosed { connected }).1 is Ok,
        !connected ==> reaction(phase, id, EventView::RelayClosed { connected }) == failed(
            CryoError::SocketClosed,
        ),
{
}

/// The word that the transport engine will find no more candidates is not
/// sent to the peer.
pub proof fn lemma_end_of_candidates_is_not_sent(phase: Phase, id: Seq<char>)
    ensures
        reaction(phase, id, EventView::LocalCandidate(None)) == (
            phase,
            Ok::<Seq<CommandView>, CryoError>(Seq::empty()),
        ),
{
}


} // verus!
