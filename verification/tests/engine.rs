use cryocat::client::engine::{channel_label, Command, Engine, Event, Phase};
use cryocat::client::error::CryoError;
use cryocat::packet::{Packet, Payload};

fn payload(text: &str) -> Payload {
    Payload::new(text).unwrap()
}

fn frame(packet: Packet) -> Event {
    Event::Frame(packet.to_json())
}

fn started() -> Engine {
    let mut engine = Engine::new("abc".to_string());
    engine.step(Event::Connected).unwrap();
    engine
}

fn offering() -> Engine {
    let mut engine = started();
    engine.step(frame(Packet::RequestOffer)).unwrap();
    engine
}

fn answering() -> Engine {
    let mut engine = started();
    engine.step(frame(Packet::Offer(payload("\"d1\"")))).unwrap();
    engine
}

#[test]
fn a_new_engine_is_idle() {
    let engine = Engine::new("abc".to_string());
    assert_eq!(engine.phase(), Phase::Idle);
    assert_eq!(engine.id(), "abc");
}

#[test]
fn the_data_channel_is_labelled() {
    assert_eq!(channel_label(), "channel");
}

#[test]
fn connecting_announces_the_identifier() {
    let mut engine = Engine::new("abc".to_string());
    let commands = engine.step(Event::Connected).unwrap();
    assert_eq!(commands, vec![Command::Send("{\"Start\":\"abc\"}".to_string())]);
    assert_eq!(engine.phase(), Phase::Started);
    assert_eq!(engine.step(Event::Connected), Ok(vec![]));
    assert_eq!(engine.phase(), Phase::Started);
}

#[test]
fn a_packet_before_start_was_sent_is_unexpected() {
    let mut engine = Engine::new("abc".to_string());
    assert_eq!(engine.step(frame(Packet::RequestOffer)), Err(CryoError::UnexpectedPacket));
    assert_eq!(engine.phase(), Phase::Closed);
}

#[test]
fn request_offer_makes_the_offering_side() {
    let mut engine = started();
    let commands = engine.step(frame(Packet::RequestOffer)).unwrap();
    assert_eq!(commands, vec![Command::CreateDataChannel, Command::CreateOffer]);
    assert_eq!(engine.phase(), Phase::Offering);
}

#[test]
fn an_offer_makes_the_answering_side() {
    let mut engine = started();
    let commands = engine.step(frame(Packet::Offer(payload("\"d1\"")))).unwrap();
    assert_eq!(
        commands,
        vec![
            Command::AwaitDataChannel,
            Command::SetRemoteDescription(payload("\"d1\"")),
            Command::CreateAnswer,
        ]
    );
    assert_eq!(engine.phase(), Phase::Answering);
}

#[test]
fn any_other_first_packet_is_unexpected() {
    for packet in [
        Packet::Start("abc".to_string()),
        Packet::Answer(payload("\"d2\"")),
        Packet::Candidate(payload("\"c\"")),
    ] {
        let mut engine = started();
        assert_eq!(engine.step(frame(packet)), Err(CryoError::UnexpectedPacket));
        assert_eq!(engine.phase(), Phase::Closed);
    }
}

#[test]
fn the_created_offer_is_applied_and_then_sent() {
    let mut engine = offering();
    let commands = engine.step(Event::OfferCreated(payload("{\"sdp\":\"o\"}"))).unwrap();
    assert_eq!(
        commands,
        vec![
            Command::SetLocalDescription(payload("{\"sdp\":\"o\"}")),
            Command::Send("{\"Offer\":{\"sdp\":\"o\"}}".to_string()),
        ]
    );
    assert_eq!(engine.phase(), Phase::Offering);
}

#[test]
fn the_answer_is_applied_and_the_data_channel_awaited() {
    let mut engine = offering();
    engine.step(Event::OfferCreated(payload("\"o\""))).unwrap();
    let commands = engine.step(frame(Packet::Answer(payload("\"a\"")))).unwrap();
    assert_eq!(commands, vec![Command::SetRemoteDescription(payload("\"a\""))]);
    assert_eq!(engine.phase(), Phase::DataChannelPending);
}

#[test]
fn the_created_answer_is_applied_and_then_sent() {
    let mut engine = answering();
    let commands = engine.step(Event::AnswerCreated(payload("\"a\""))).unwrap();
    assert_eq!(
        commands,
        vec![
            Command::SetLocalDescription(payload("\"a\"")),
            Command::Send("{\"Answer\":\"a\"}".to_string()),
        ]
    );
    assert_eq!(engine.phase(), Phase::DataChannelPending);
}

#[test]
fn a_description_that_was_never_asked_for_is_an_engine_failure() {
    let mut engine = started();
    assert_eq!(
        engine.step(Event::OfferCreated(payload("\"o\""))),
        Err(CryoError::TransportEngineFailure)
    );
    let mut engine = Engine::new("abc".to_string());
    assert_eq!(
        engine.step(Event::AnswerCreated(payload("\"a\""))),
        Err(CryoError::TransportEngineFailure)
    );
    assert_eq!(engine.phase(), Phase::Closed);
}

#[test]
fn start_is_unexpected_at_any_later_point() {
    let mut engines = vec![offering(), answering()];
    let mut pending = answering();
    pending.step(Event::AnswerCreated(payload("\"a\""))).unwrap();
    let mut bridging = answering();
    bridging.step(Event::ChannelOpened).unwrap();
    engines.push(pending);
    engines.push(bridging);
    for mut engine in engines {
        assert_eq!(
            engine.step(frame(Packet::Start("abc".to_string()))),
            Err(CryoError::UnexpectedPacket)
        );
        assert_eq!(engine.phase(), Phase::Closed);
    }
}

#[test]
fn a_candidate_received_before_the_remote_description_is_not_lost() {
    let mut engine = offering();
    let commands = engine.step(frame(Packet::Candidate(payload("{\"candidate\":\"c\"}")))).unwrap();
    assert_eq!(commands, vec![Command::AddCandidate(payload("{\"candidate\":\"c\"}"))]);
    assert_eq!(engine.phase(), Phase::Offering);
}

#[test]
fn local_candidates_are_sent_and_their_end_is_not() {
    let mut engine = offering();
    assert_eq!(
        engine.step(Event::LocalCandidate(Some(payload("{\"candidate\":\"c\"}")))),
        Ok(vec![Command::Send("{\"Candidate\":{\"candidate\":\"c\"}}".to_string())])
    );
    assert_eq!(engine.step(Event::LocalCandidate(None)), Ok(vec![]));
    assert_eq!(engine.phase(), Phase::Offering);
}

#[test]
fn renegotiation_keeps_the_phase() {
    let mut engine = answering();
    engine.step(Event::AnswerCreated(payload("\"a\""))).unwrap();
    engine.step(Event::ChannelOpened).unwrap();
    assert_eq!(engine.phase(), Phase::Bridging);

    assert_eq!(
        engine.step(frame(Packet::RequestOffer)),
        Ok(vec![Command::CreateDataChannel, Command::CreateOffer])
    );
    assert_eq!(
        engine.step(frame(Packet::Offer(payload("\"again\"")))),
        Ok(vec![
            Command::AwaitDataChannel,
            Command::SetRemoteDescription(payload("\"again\"")),
            Command::CreateAnswer,
        ])
    );
    assert_eq!(
        engine.step(frame(Packet::Answer(payload("\"more\"")))),
        Ok(vec![Command::SetRemoteDescription(payload("\"more\""))])
    );
    assert_eq!(engine.phase(), Phase::Bridging);
}

#[test]
fn the_open_data_channel_starts_the_bridge_once() {
    let mut engine = offering();
    engine.step(frame(Packet::Answer(payload("\"a\"")))).unwrap();
    assert_eq!(engine.step(Event::ChannelOpened), Ok(vec![Command::StartBridge]));
    assert_eq!(engine.phase(), Phase::Bridging);
    assert_eq!(engine.step(Event::ChannelOpened), Ok(vec![]));
    assert_eq!(engine.phase(), Phase::Bridging);
}

#[test]
fn a_data_channel_before_any_negotiation_is_an_engine_failure() {
    let mut engine = started();
    assert_eq!(engine.step(Event::ChannelOpened), Err(CryoError::TransportEngineFailure));
    assert_eq!(engine.phase(), Phase::Closed);
}

#[test]
fn losing_the_relay_is_fatal_unless_connected() {
    let mut engine = offering();
    assert_eq!(
        engine.step(Event::RelayClosed { connected: true }),
        Ok(vec![Command::LeaveRelay])
    );
    assert_eq!(engine.phase(), Phase::Offering);
    assert_eq!(
        engine.step(Event::RelayClosed { connected: false }),
        Err(CryoError::SocketClosed)
    );
    assert_eq!(engine.phase(), Phase::Closed);
}

#[test]
fn a_failed_write_to_the_relay_is_fatal() {
    let mut engine = offering();
    assert_eq!(engine.step(Event::SendFailed), Err(CryoError::SocketClosed));
    assert_eq!(engine.phase(), Phase::Closed);
}

#[test]
fn malformed_and_garbled_frames_are_fatal() {
    let mut engine = started();
    assert_eq!(
        engine.step(Event::Frame("{\"Offer\":".to_string())),
        Err(CryoError::MalformedPacket)
    );
    assert_eq!(engine.phase(), Phase::Closed);
    let mut engine = offering();
    assert_eq!(engine.step(Event::Garbled), Err(CryoError::MalformedPacket));
    assert_eq!(engine.phase(), Phase::Closed);
}

#[test]
fn an_engine_failure_is_fatal() {
    let mut engine = answering();
    assert_eq!(engine.step(Event::EngineFailed), Err(CryoError::TransportEngineFailure));
    assert_eq!(engine.phase(), Phase::Closed);
}

#[test]
fn the_channel_close_and_an_abort_shut_down_without_an_error() {
    let mut engine = answering();
    assert_eq!(engine.step(Event::ChannelClosed), Ok(vec![Command::Shutdown]));
    assert_eq!(engine.phase(), Phase::Closed);
    let mut engine = started();
    assert_eq!(engine.step(Event::Aborted), Ok(vec![Command::Shutdown]));
    assert_eq!(engine.phase(), Phase::Closed);
}

#[test]
fn a_closed_engine_does_nothing() {
    let mut engine = started();
    engine.step(Event::Aborted).unwrap();
    let events = vec![
        Event::Connected,
        frame(Packet::RequestOffer),
        frame(Packet::Start("abc".to_string())),
        Event::Frame("garbage".to_string()),
        Event::Garbled,
        Event::RelayClosed { connected: false },
        Event::SendFailed,
        Event::OfferCreated(payload("1")),
        Event::AnswerCreated(payload("1")),
        Event::LocalCandidate(Some(payload("1"))),
        Event::ChannelOpened,
        Event::ChannelClosed,
        Event::EngineFailed,
        Event::Aborted,
    ];
    for event in events {
        assert_eq!(engine.step(event), Ok(vec![]));
        assert_eq!(engine.phase(), Phase::Closed);
    }
}
