use cryocat::packet::{Packet, Payload};
use cryocat::relay::error::CryoError;
use cryocat::relay::registry::{Registry, Role, Slot};
use cryocat::relay::session::{Action, Event, Session};

fn offer() -> Packet {
    Packet::Offer(Payload::new("{\"type\":\"offer\",\"sdp\":\"v=0\"}").unwrap())
}

fn relaying(registry: &mut Registry, id: &str) -> Session {
    let mut session = Session::new();
    session.join(registry, id.to_string()).unwrap();
    session
}

#[test]
fn a_new_session_waits_for_start() {
    assert_eq!(Session::new(), Session::AwaitStart);
}

#[test]
fn start_asks_for_registration() {
    let session = Session::new();
    let action = session.step(Event::Frame("{\"Start\":\"abc\"}".to_string()));
    assert_eq!(action, Action::Register("abc".to_string()));
}

#[test]
fn first_frame_other_than_start_is_unexpected() {
    let session = Session::new();
    for packet in [
        Packet::RequestOffer,
        offer(),
        Packet::Answer(Payload::new("1").unwrap()),
        Packet::Candidate(Payload::new("{}").unwrap()),
    ] {
        assert_eq!(
            session.step(Event::Frame(packet.to_json())),
            Action::Fail(CryoError::UnexpectedPacket)
        );
    }
}

#[test]
fn second_start_is_unexpected() {
    let mut registry = Registry::new();
    let session = relaying(&mut registry, "abc");
    assert_eq!(
        session.step(Event::Frame("{\"Start\":\"abc\"}".to_string())),
        Action::Fail(CryoError::UnexpectedPacket)
    );
    assert_eq!(
        session.step(Event::Frame("{\"Start\":\"other\"}".to_string())),
        Action::Fail(CryoError::UnexpectedPacket)
    );
}

#[test]
fn joining_twice_is_unexpected_and_changes_nothing() {
    let mut registry = Registry::new();
    let mut session = relaying(&mut registry, "abc");
    let again = session.join(&mut registry, "abc".to_string());
    assert_eq!(again.unwrap_err(), CryoError::UnexpectedPacket);
    assert_eq!(registry.slot("abc"), Slot::Waiting);
    assert_eq!(session, Session::Relaying("abc".to_string()));
}

#[test]
fn malformed_and_garbled_frames_end_the_session() {
    let mut registry = Registry::new();
    let waiting = Session::new();
    let relaying = relaying(&mut registry, "abc");
    for session in [&waiting, &relaying] {
        assert_eq!(
            session.step(Event::Frame("not json".to_string())),
            Action::Fail(CryoError::MalformedPacket)
        );
        assert_eq!(session.step(Event::Garbled), Action::Fail(CryoError::MalformedPacket));
    }
}

#[test]
fn a_closed_socket_or_queue_ends_the_session_with_socket_closed() {
    let mut registry = Registry::new();
    let waiting = Session::new();
    let relaying = relaying(&mut registry, "abc");
    for session in [&waiting, &relaying] {
        assert_eq!(session.step(Event::SocketClosed), Action::Fail(CryoError::SocketClosed));
        assert_eq!(session.step(Event::QueueClosed), Action::Fail(CryoError::SocketClosed));
    }
}

#[test]
fn the_disconnect_signal_ends_the_session_cleanly() {
    let mut registry = Registry::new();
    assert_eq!(Session::new().step(Event::Disconnected), Action::Close);
    assert_eq!(relaying(&mut registry, "abc").step(Event::Disconnected), Action::Close);
}

#[test]
fn packets_are_forwarded_encoded_anew() {
    let mut registry = Registry::new();
    let session = relaying(&mut registry, "abc");
    let action = session.step(Event::Frame(
        " { \"Offer\" : {\"type\":\"offer\",\"sdp\":\"v=0\"} } ".to_string(),
    ));
    assert_eq!(
        action,
        Action::Forward("{\"Offer\":{\"type\":\"offer\",\"sdp\":\"v=0\"}}".to_string())
    );
    assert_eq!(
        session.step(Event::Frame("{\"RequestOffer\":null}".to_string())),
        Action::Forward("{\"RequestOffer\":null}".to_string())
    );
}

#[test]
fn queued_messages_are_delivered_verbatim() {
    let mut registry = Registry::new();
    let session = relaying(&mut registry, "abc");
    let message = "  anything at all, {\"even\": this} ".to_string();
    assert_eq!(session.step(Event::Queued(message.clone())), Action::Deliver(message));
}

#[test]
fn the_first_peer_is_told_nothing_and_the_second_is_asked_for_an_offer() {
    let mut registry = Registry::new();
    let mut a = Session::new();
    let mut b = Session::new();

    let first = a.join(&mut registry, "X".to_string()).unwrap();
    assert_eq!(first.pairing.role, Role::Answering);
    assert_eq!(first.greeting, None);
    assert_eq!(a, Session::Relaying("X".to_string()));

    let second = b.join(&mut registry, "X".to_string()).unwrap();
    assert_eq!(second.pairing.role, Role::Offering);
    assert_eq!(second.greeting, Some("{\"RequestOffer\":null}".to_string()));
    assert_eq!(
        Packet::from_json(second.greeting.as_deref().unwrap()),
        Ok(Packet::RequestOffer)
    );
    assert_eq!(b, Session::Relaying("X".to_string()));
}

#[test]
fn a_third_peer_is_refused_and_does_not_disturb_the_pairing() {
    let mut registry = Registry::new();
    let mut a = Session::new();
    let mut b = Session::new();
    let mut c = Session::new();
    let mut first = a.join(&mut registry, "X".to_string()).unwrap();
    let _second = b.join(&mut registry, "X".to_string()).unwrap();

    let third = c.join(&mut registry, "X".to_string());
    assert_eq!(third.unwrap_err(), CryoError::ChannelAlreadyEstablished);
    assert_eq!(c, Session::AwaitStart);

    c.leave(&mut registry);
    assert_eq!(registry.slot("X"), Slot::Paired);
    assert!(first.pairing.disconnect.try_recv().is_err());
}

#[test]
fn leaving_unregisters_and_tells_the_paired_session() {
    let mut registry = Registry::new();
    let mut a = Session::new();
    let mut b = Session::new();
    let _first = a.join(&mut registry, "X".to_string()).unwrap();
    let mut second = b.join(&mut registry, "X".to_string()).unwrap();

    a.leave(&mut registry);
    assert_eq!(registry.slot("X"), Slot::Vacant);
    assert_eq!(second.pairing.disconnect.try_recv(), Ok(()));
    assert_eq!(b.step(Event::Disconnected), Action::Close);

    b.leave(&mut registry);
    assert_eq!(registry.slot("X"), Slot::Vacant);
    assert_eq!(registry.len(), 0);
}

#[test]
fn leaving_before_start_touches_nothing() {
    let mut registry = Registry::new();
    let mut a = Session::new();
    let _first = a.join(&mut registry, "X".to_string()).unwrap();
    Session::new().leave(&mut registry);
    assert_eq!(registry.slot("X"), Slot::Waiting);
}

#[test]
fn a_sequence_of_packets_reaches_the_peer_unmodified_and_in_order() {
    let mut registry = Registry::new();
    let mut a = Session::new();
    let mut b = Session::new();
    let first = a.join(&mut registry, "X".to_string()).unwrap();
    let mut second = b.join(&mut registry, "X".to_string()).unwrap();

    let written = vec![
        Packet::Offer(Payload::new("{\"type\":\"offer\",\"sdp\":\"o\"}").unwrap()),
        Packet::Candidate(Payload::new("{\"candidate\":\"c1\"}").unwrap()),
        Packet::Answer(Payload::new("{\"type\":\"answer\",\"sdp\":\"a\"}").unwrap()),
        Packet::Candidate(Payload::new("{\"candidate\":\"c2\"}").unwrap()),
        Packet::Candidate(Payload::new("{\"candidate\":\"c3\"}").unwrap()),
    ];
    for packet in &written {
        match a.step(Event::Frame(packet.to_json())) {
            Action::Forward(message) => first.pairing.half.tx.try_send(message).unwrap(),
            other => panic!("expected a forward, got {:?}", other),
        }
    }
    let mut observed = Vec::new();
    while let Ok(message) = second.pairing.half.rx.try_recv() {
        match b.step(Event::Queued(message)) {
            Action::Deliver(frame) => observed.push(Packet::from_json(&frame).unwrap()),
            other => panic!("expected a delivery, got {:?}", other),
        }
    }
    assert_eq!(observed, written);
}
