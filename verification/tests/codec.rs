use cryocat::packet::{MalformedPacket, Packet, Payload};

fn payload(text: &str) -> Payload {
    Payload::new(text).expect("a JSON value")
}

#[test]
fn start_is_written_as_an_object_with_one_member() {
    let packet = Packet::Start("abc".to_string());
    assert_eq!(packet.to_json(), "{\"Start\":\"abc\"}");
}

#[test]
fn request_offer_is_written_with_null() {
    assert_eq!(Packet::RequestOffer.to_json(), "{\"RequestOffer\":null}");
}

#[test]
fn offer_carries_its_payload_verbatim() {
    let text = "{\"type\":\"offer\",\"sdp\":\"v=0\\r\\n\"}";
    let packet = Packet::Offer(payload(text));
    assert_eq!(packet.to_json(), format!("{{\"Offer\":{}}}", text));
}

#[test]
fn every_variant_round_trips() {
    let packets = vec![
        Packet::Start("abc".to_string()),
        Packet::Start(String::new()),
        Packet::Start("quote \" backslash \\ tab \t bell \u{7} snowman \u{2603} \u{1F600}".to_string()),
        Packet::RequestOffer,
        Packet::Offer(payload("{\"type\":\"offer\",\"sdp\":\"v=0\"}")),
        Packet::Answer(payload("{\"type\":\"answer\",\"sdp\":\"v=0\"}")),
        Packet::Candidate(payload(
            "{\"candidate\":\"candidate:1 1 udp 2130706431 192.0.2.1 50000 typ host\",\"sdpMid\":\"0\",\"sdpMLineIndex\":0,\"usernameFragment\":null}",
        )),
    ];
    for packet in packets {
        let json = packet.to_json();
        assert_eq!(Packet::from_json(&json), Ok(packet));
    }
}

#[test]
fn decoding_tolerates_whitespace_and_escapes() {
    assert_eq!(
        Packet::from_json(" \t{ \"Start\" :\r\n \"a\\u0062\\n\\/\" } \n"),
        Ok(Packet::Start("ab\n/".to_string()))
    );
    assert_eq!(
        Packet::from_json("{\"\\u0053tart\":\"x\"}"),
        Ok(Packet::Start("x".to_string()))
    );
    assert_eq!(
        Packet::from_json("{\"Start\":\"\\ud83d\\ude00\"}"),
        Ok(Packet::Start("\u{1F600}".to_string()))
    );
    assert_eq!(Packet::from_json("{\"RequestOffer\": null}"), Ok(Packet::RequestOffer));
    assert_eq!(
        Packet::from_json("{\"Offer\": [1, 2, {\"a\": null}] }"),
        Ok(Packet::Offer(payload("[1, 2, {\"a\": null}]")))
    );
}

#[test]
fn malformed_frames_are_rejected() {
    let frames = [
        "",
        "   ",
        "{}",
        "{",
        "}",
        "null",
        "\"RequestOffer\"",
        "[\"Start\",\"abc\"]",
        "{\"Start\"}",
        "{\"Start\":}",
        "{\"Start\":abc}",
        "{\"Start\":\"abc}",
        "{\"Start\":\"abc\"",
        "{\"Start\":\"abc\"}}",
        "{\"Start\":\"abc\"} x",
        "{\"Start\":\"a\" \"b\"}",
        "{\"Start\":\"abc\",\"Offer\":1}",
        "{\"Start\":12}",
        "{\"Start\":\"a\tb\"}",
        "{\"Start\":\"\\x\"}",
        "{\"Start\":\"\\u12\"}",
        "{\"Start\":\"\\ud83d\"}",
        "{\"Start\":\"\\ude00\"}",
        "{\"Start\":\"\\ud83d\\u0041\"}",
        "{\"start\":\"abc\"}",
        "{\"Hello\":\"abc\"}",
        "{Start:\"abc\"}",
        "{\"RequestOffer\":0}",
        "{\"RequestOffer\":\"null\"}",
        "{\"RequestOffer\"}",
        "{\"Offer\":}",
        "{\"Offer\":{\"type\":\"offer\"}",
        "{\"Offer\":1,\"Answer\":2}",
        "{\"Offer\":tru}",
        "{\"Answer\":[1,}",
        "{\"Candidate\":{\"candidate\":}}",
    ];
    for frame in frames {
        assert_eq!(Packet::from_json(frame), Err(MalformedPacket), "{}", frame);
    }
}

#[test]
fn payload_is_kept_without_surrounding_whitespace() {
    let p = payload("  {\"a\": 1}\n");
    assert_eq!(p.as_str(), "{\"a\": 1}");
    assert_eq!(p.clone(), p);
}

#[test]
fn payload_must_be_one_json_value() {
    assert!(Payload::new("").is_none());
    assert!(Payload::new("   ").is_none());
    assert!(Payload::new("{").is_none());
    assert!(Payload::new("1 2").is_none());
    assert!(Payload::new("{\"a\":1},").is_none());
    assert!(Payload::new("nul").is_none());
    assert!(Payload::new("null").is_some());
    assert!(Payload::new("\"text\"").is_some());
    assert!(Payload::new("-12.5e3").is_some());
}

#[test]
fn control_characters_are_escaped() {
    let packet = Packet::Start("\u{0}\u{1f}\u{8}\u{c}\n\r\t".to_string());
    assert_eq!(
        packet.to_json(),
        "{\"Start\":\"\\u0000\\u001f\\b\\f\\n\\r\\t\"}"
    );
}
