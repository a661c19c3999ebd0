use cryocat::client::bridge::{Action as BridgeAction, Bridge, Event as BridgeEvent};
use cryocat::client::engine::{Command, Engine, Event as ClientEvent, Phase};
use cryocat::packet::{Packet, Payload};
use cryocat::relay::registry::{Pairing, Registry, Role, Slot};
use cryocat::relay::session::{Action, Event as RelayEvent, Session};

/// One client with its connection to the relay, driven by hand: each frame
/// that a side writes is carried to the other side at once.
struct Peer {
    engine: Engine,
    session: Session,
    pairing: Option<Pairing>,
    applied: Vec<Command>,
    seen: Vec<String>,
}

impl Peer {
    fn new(id: &str) -> Peer {
        Peer {
            engine: Engine::new(id.to_string()),
            session: Session::new(),
            pairing: None,
            applied: Vec::new(),
            seen: Vec::new(),
        }
    }

    /// Carries out the commands of one engine step; frames go to the relay.
    fn carry_out(&mut self, commands: Vec<Command>, registry: &mut Registry, trace: &mut Vec<String>, name: &str) {
        for command in commands {
            match command {
                Command::Send(frame) => {
                    trace.push(format!("{}->relay {}", name, frame));
                    self.to_relay(frame, registry, trace, name);
                }
                other => self.applied.push(other),
            }
        }
    }

    /// The relay's session takes a frame from this peer's socket.
    fn to_relay(&mut self, frame: String, registry: &mut Registry, trace: &mut Vec<String>, name: &str) {
        match self.session.step(RelayEvent::Frame(frame)) {
            Action::Register(id) => {
                let joined = self.session.join(registry, id).unwrap();
                self.pairing = Some(joined.pairing);
                if let Some(greeting) = joined.greeting {
                    trace.push(format!("relay->{} {}", name, greeting));
                    self.from_relay(greeting, registry, trace, name);
                }
            }
            Action::Forward(message) => {
                self.pairing.as_ref().unwrap().half.tx.try_send(message).unwrap();
            }
            other => panic!("unexpected action {:?}", other),
        }
    }

    /// This peer's engine takes a frame from the relay.
    fn from_relay(&mut self, frame: String, registry: &mut Registry, trace: &mut Vec<String>, name: &str) {
        self.seen.push(frame.clone());
        let commands = self.engine.step(ClientEvent::Frame(frame)).unwrap();
        self.carry_out(commands, registry, trace, name);
    }

    /// The relay's session takes what the queue holds and writes it to this
    /// peer's socket.
    fn drain(&mut self, registry: &mut Registry, trace: &mut Vec<String>, name: &str) {
        loop {
            let message = match self.pairing.as_mut().unwrap().half.rx.try_recv() {
                Ok(message) => message,
                Err(_) => break,
            };
            match self.session.step(RelayEvent::Queued(message)) {
                Action::Deliver(frame) => {
                    trace.push(format!("relay->{} {}", name, frame));
                    self.from_relay(frame, registry, trace, name);
                }
                other => panic!("unexpected action {:?}", other),
            }
        }
    }
}

#[test]
fn two_clients_with_the_same_identifier_negotiate_and_bridge() {
    let mut registry = Registry::new();
    let mut trace: Vec<String> = Vec::new();
    let mut a = Peer::new("abc");
    let mut b = Peer::new("abc");
    let d1 = "{\"type\":\"offer\",\"sdp\":\"d1\"}";
    let d2 = "{\"type\":\"answer\",\"sdp\":\"d2\"}";

    let commands = a.engine.step(ClientEvent::Connected).unwrap();
    a.carry_out(commands, &mut registry, &mut trace, "A");
    assert_eq!(a.pairing.as_ref().unwrap().role, Role::Answering);
    assert_eq!(a.engine.phase(), Phase::Started);
    assert!(a.seen.is_empty());

    let commands = b.engine.step(ClientEvent::Connected).unwrap();
    b.carry_out(commands, &mut registry, &mut trace, "B");
    assert_eq!(b.pairing.as_ref().unwrap().role, Role::Offering);
    assert_eq!(b.engine.phase(), Phase::Offering);
    assert_eq!(b.applied, vec![Command::CreateDataChannel, Command::CreateOffer]);
    assert_eq!(registry.slot("abc"), Slot::Paired);

    let commands = b.engine.step(ClientEvent::OfferCreated(Payload::new(d1).unwrap())).unwrap();
    b.carry_out(commands, &mut registry, &mut trace, "B");
    a.drain(&mut registry, &mut trace, "A");
    assert_eq!(a.engine.phase(), Phase::Answering);
    assert_eq!(
        a.applied,
        vec![
            Command::AwaitDataChannel,
            Command::SetRemoteDescription(Payload::new(d1).unwrap()),
            Command::CreateAnswer,
        ]
    );

    let commands = a.engine.step(ClientEvent::AnswerCreated(Payload::new(d2).unwrap())).unwrap();
    a.carry_out(commands, &mut registry, &mut trace, "A");
    b.drain(&mut registry, &mut trace, "B");
    assert_eq!(a.engine.phase(), Phase::DataChannelPending);
    assert_eq!(b.engine.phase(), Phase::DataChannelPending);

    assert_eq!(
        trace,
        vec![
            "A->relay {\"Start\":\"abc\"}".to_string(),
            "B->relay {\"Start\":\"abc\"}".to_string(),
            "relay->B {\"RequestOffer\":null}".to_string(),
            format!("B->relay {{\"Offer\":{}}}", d1),
            format!("relay->A {{\"Offer\":{}}}", d1),
            format!("A->relay {{\"Answer\":{}}}", d2),
            format!("relay->B {{\"Answer\":{}}}", d2),
        ]
    );

    for i in 0..3 {
        let from_a = Payload::new(&format!("{{\"candidate\":\"a{}\"}}", i)).unwrap();
        let from_b = Payload::new(&format!("{{\"candidate\":\"b{}\"}}", i)).unwrap();
        let commands = a.engine.step(ClientEvent::LocalCandidate(Some(from_a))).unwrap();
        a.carry_out(commands, &mut registry, &mut trace, "A");
        let commands = b.engine.step(ClientEvent::LocalCandidate(Some(from_b))).unwrap();
        b.carry_out(commands, &mut registry, &mut trace, "B");
    }
    assert_eq!(a.engine.step(ClientEvent::LocalCandidate(None)), Ok(vec![]));
    a.drain(&mut registry, &mut trace, "A");
    b.drain(&mut registry, &mut trace, "B");
    let added = |peer: &Peer| -> Vec<String> {
        peer.applied
            .iter()
            .filter_map(|command| match command {
                Command::AddCandidate(candidate) => Some(candidate.as_str().to_string()),
                _ => None,
            })
            .collect()
    };
    assert_eq!(
        added(&a),
        vec!["{\"candidate\":\"b0\"}", "{\"candidate\":\"b1\"}", "{\"candidate\":\"b2\"}"]
    );
    assert_eq!(
        added(&b),
        vec!["{\"candidate\":\"a0\"}", "{\"candidate\":\"a1\"}", "{\"candidate\":\"a2\"}"]
    );

    assert_eq!(a.engine.step(ClientEvent::ChannelOpened), Ok(vec![Command::StartBridge]));
    assert_eq!(b.engine.step(ClientEvent::ChannelOpened), Ok(vec![Command::StartBridge]));
    assert_eq!(a.engine.phase(), Phase::Bridging);
    assert_eq!(b.engine.phase(), Phase::Bridging);

    let mut bridge_a = Bridge::new();
    let mut bridge_b = Bridge::new();
    let mut buffer = vec![0u8; 16];
    buffer[..5].copy_from_slice(b"hello");
    let sent = match bridge_a.step(BridgeEvent::Input { buffer, count: 5 }) {
        BridgeAction::Send(bytes) => bytes,
        other => panic!("unexpected action {:?}", other),
    };
    assert_eq!(bridge_b.step(BridgeEvent::Message(sent)), BridgeAction::Write(b"hello".to_vec()));
    let mut buffer = vec![0u8; 16];
    buffer[..3].copy_from_slice(b"yes");
    let sent = match bridge_b.step(BridgeEvent::Input { buffer, count: 3 }) {
        BridgeAction::Send(bytes) => bytes,
        other => panic!("unexpected action {:?}", other),
    };
    assert_eq!(bridge_a.step(BridgeEvent::Message(sent)), BridgeAction::Write(b"yes".to_vec()));

    assert_eq!(bridge_a.step(BridgeEvent::Input { buffer: vec![0; 16], count: 0 }), BridgeAction::StopReading);
    assert_eq!(bridge_b.step(BridgeEvent::ChannelClosed), BridgeAction::Shutdown);
    assert_eq!(b.engine.step(ClientEvent::ChannelClosed), Ok(vec![Command::Shutdown]));
    assert_eq!(b.engine.phase(), Phase::Closed);
}

#[test]
fn closing_one_connection_ends_the_other_session_without_an_error() {
    let mut registry = Registry::new();
    let mut trace: Vec<String> = Vec::new();
    let mut a = Peer::new("abc");
    let mut b = Peer::new("abc");
    let commands = a.engine.step(ClientEvent::Connected).unwrap();
    a.carry_out(commands, &mut registry, &mut trace, "A");
    let commands = b.engine.step(ClientEvent::Connected).unwrap();
    b.carry_out(commands, &mut registry, &mut trace, "B");

    assert_eq!(
        a.session.step(RelayEvent::SocketClosed),
        Action::Fail(cryocat::relay::error::CryoError::SocketClosed)
    );
    a.session.leave(&mut registry);
    assert_eq!(registry.slot("abc"), Slot::Vacant);

    assert_eq!(b.pairing.as_mut().unwrap().disconnect.try_recv(), Ok(()));
    assert_eq!(b.session.step(RelayEvent::Disconnected), Action::Close);
    b.session.leave(&mut registry);
    assert_eq!(registry.len(), 0);
}
