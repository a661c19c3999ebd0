//! The signalling packet and its wire form: one JSON object per frame, whose
//! single member names the variant.
//!
//! ```text
//! {"Start":"<peer-id>"}
//! {"RequestOffer":null}
//! {"Offer":<session-description>}
//! {"Answer":<session-description>}
//! {"Candidate":<ice-candidate>}
//! ```
//!
//! A session description and an ICE candidate are carried as the JSON text
//! that the transport engine produced. The text is passed through as it is;
//! nothing here looks into it beyond asking whether it is one JSON value.

use vstd::prelude::*;
use crate::frame::{
    body_of, envelope, enveloped, is_trimmed, layout_of, lemma_envelope_is_laid_out,
    lemma_envelope_of_layout, lemma_envelope_read_back,
    read_envelope, same_chars, trimmed_copy, trimmed_part, write_envelope, Layout, Tag,
};
use crate::json::{lemma_quoted_read_back, literal_at, push_quoted, quoted, read_literal};
use crate::text::{chars_of, string_of};

verus! {

/// Whether `serde_json` reads `text` as exactly one JSON value.
pub uninterp spec fn is_json(text: Seq<char>) -> bool;

/// Calls `serde_json::from_str` with `serde_json::Value` as the target, and
/// reports whether it returned a value. The parser reads one JSON value and
/// accepts only whitespace after it; what it decides depends on the text
/// alone.
#[verifier::external_body]
fn reads_as_json(text: &str) -> (accepted: bool)
    ensures
        accepted == is_json(text@),
{
    serde_json::from_str::<serde_json::Value>(text).is_ok()
}

/// The error of a frame that does not decode to a packet.
#[derive(Clone, Copy, Debug, PartialEq, Eq, Structural)]
pub struct MalformedPacket;

/// What a payload's text must be: one JSON value, with no whitespace around
/// it.
pub open spec fn is_payload(text: Seq<char>) -> bool {
    is_json(text) && is_trimmed(text)
}

/// A session description or an ICE candidate, as the JSON text that stands
/// for it on the wire.
#[derive(Debug, PartialEq, Eq)]
pub struct Payload {
    text: String,
}

impl Clone for Payload {
    fn clone(&self) -> (copy: Self)
        ensures
            copy@ == self@,
    {
        proof {
            use_type_invariant(self);
        }
        Payload { text: self.text.clone() }
    }
}

impl View for Payload {
    type V = Seq<char>;

    closed spec fn view(&self) -> Seq<char> {
        self.text@
    }
}

impl Payload {
    #[verifier::type_invariant]
    spec fn well_formed(self) -> bool {
        is_payload(self.text@)
    }

    /// Accepts `text` as a payload if, without the whitespace around it, it
    /// is one JSON value.
    pub fn new(text: &str) -> (r: Option<Payload>)
        ensures
            r is Some <==> is_json(trimmed_part(text@, 0, text@.len() as int)),
            r matches Some(p) ==> p@ == trimmed_part(text@, 0, text@.len() as int),
    {
        let chars = chars_of(text);
        let body = trimmed_copy(&chars, 0, chars.len());
        Payload::sealed(&body)
    }

    /// Accepts text that has no whitespace around it as a payload if it is
    /// one JSON value.
    pub(crate) fn sealed(body: &Vec<char>) -> (r: Option<Payload>)
        requires
            is_trimmed(body@),
        ensures
            r is Some <==> is_json(body@),
            r matches Some(p) ==> p@ == body@,
    {
        let text = string_of(body);
        if reads_as_json(text.as_str()) {
            Some(Payload { text })
        } else {
            None
        }
    }

    /// The payload's JSON text.
    pub fn as_str(&self) -> (text: &str)
        ensures
            text@ == self@,
            is_payload(self@),
    {
        proof {
            use_type_invariant(self);
        }
        self.text.as_str()
    }
}

/// One message of the signalling protocol.
#[derive(Debug, PartialEq, Eq)]
pub enum Packet {
    /// "I am here, pair me under this name."
    Start(String),
    /// The relay's word to a peer that it is the offering side.
    RequestOffer,
    /// The offering side's session description.
    Offer(Payload),
    /// The answering side's session description.
    Answer(Payload),
    /// One ICE candidate, sent as it is discovered.
    Candidate(Payload),
}

/// A packet as a mathematical value: the peer identifier as a sequence of
/// characters, a payload as its JSON text.
pub enum PacketView {
    Start(Seq<char>),
    RequestOffer,
    Offer(Seq<char>),
    Answer(Seq<char>),
    Candidate(Seq<char>),
}

impl PacketView {
    /// Whether the payload, where there is one, is a payload's text.
    pub open spec fn wf(self) -> bool {
        match self {
            PacketView::Start(_) => true,
            PacketView::RequestOffer => true,
            PacketView::Offer(text) => is_payload(text),
            PacketView::Answer(text) => is_payload(text),
            PacketView::Candidate(text) => is_payload(text),
        }
    }

    /// The tag that names the packet's variant.
    pub open spec fn tag(self) -> Tag {
        match self {
            PacketView::Start(_) => Tag::Start,
            PacketView::RequestOffer => Tag::RequestOffer,
            PacketView::Offer(_) => Tag::Offer,
            PacketView::Answer(_) => Tag::Answer,
            PacketView::Candidate(_) => Tag::Candidate,
        }
    }

    /// The text that stands for the packet's content inside its frame.
    pub open spec fn body(self) -> Seq<char> {
        match self {
            PacketView::Start(id) => quoted(id),
            PacketView::RequestOffer => null_text(),
            PacketView::Offer(text) => text,
            PacketView::Answer(text) => text,
            PacketView::Candidate(text) => text,
        }
    }
}

impl View for Packet {
    type V = PacketView;

    open spec fn view(&self) -> PacketView {
        match self {
            Packet::Start(id) => PacketView::Start(id@),
            Packet::RequestOffer => PacketView::RequestOffer,
            Packet::Offer(payload) => PacketView::Offer(payload@),
            Packet::Answer(payload) => PacketView::Answer(payload@),
            Packet::Candidate(payload) => PacketView::Candidate(payload@),
        }
    }
}

/// The JSON literal `null`.
pub open spec fn null_text() -> Seq<char> {
    seq!['n', 'u', 'l', 'l']
}

/// The frame that stands for a packet.
pub open spec fn encoding(packet: PacketView) -> Seq<char> {
    enveloped(packet.tag(), packet.body())
}

/// The packet that a body stands for under a tag: a string literal and
/// nothing else under `Start`, `null` under `RequestOffer`, one JSON value
/// under the other tags.
pub open spec fn packet_of(tag: Tag, body: Seq<char>) -> Option<PacketView> {
    match tag {
        Tag::Start => match literal_at(body, 0) {
            Some((id, end)) => if end == body.len() {
                Some(PacketView::Start(id))
            } else {
                None
            },
            None => None,
        },
        Tag::RequestOffer => if body == null_text() {
            Some(PacketView::RequestOffer)
        } else {
            None
        },
        Tag::Offer => if is_json(body) {
            Some(PacketView::Offer(body))
        } else {
            None
        },
        Tag::Answer => if is_json(body) {
            Some(PacketView::Answer(body))
        } else {
            None
        },
        Tag::Candidate => if is_json(body) {
            Some(PacketView::Candidate(body))
        } else {
            None
        },
    }
}

/// The packet that a frame stands for, if it stands for one.
pub open spec fn decoding(frame: Seq<char>) -> Option<PacketView> {
    match envelope(frame) {
        Some((tag, body)) => packet_of(tag, body),
        None => None,
    }
}

fn null_chars() -> (v: Vec<char>)
    ensures
        v@ == null_text(),
{
    let v = vec!['n', 'u', 'l', 'l'];
    assert(v@ == null_text());
    v
}

impl Clone for Packet {
    fn clone(&self) -> (copy: Self)
        ensures
            copy@ == self@,
    {
        match self {
            Packet::Start(id) => Packet::Start(id.clone()),
            Packet::RequestOffer => Packet::RequestOffer,
            Packet::Offer(payload) => Packet::Offer(payload.clone()),
            Packet::Answer(payload) => Packet::Answer(payload.clone()),
            Packet::Candidate(payload) => Packet::Candidate(payload.clone()),
        }
    }
}

impl Packet {
    /// Puts a body that was read under `tag` together with the verdict on
    /// it: `payload` is what [`Payload`] made of the body, and is looked at
    /// only under the tags that carry a payload.
    pub fn assemble(tag: Tag, body: &Vec<char>, payload: Option<Payload>) -> (r: Result<
        Packet,
        MalformedPacket,
    >)
        ensures
            r matches Ok(p) ==> p@.wf(),
            match tag {
                Tag::Start => match literal_at(body@, 0) {
                    Some((id, end)) => if end == body@.len() {
                        r matches Ok(p) && p@ == PacketView::Start(id)
                    } else {
                        r is Err
                    },
                    None => r is Err,
                },
                Tag::RequestOffer => if body@ == null_text() {
                    r matches Ok(p) && p@ == PacketView::RequestOffer
                } else {
                    r is Err
                },
                Tag::Offer => match payload {
                    Some(text) => r matches Ok(p) && p@ == PacketView::Offer(text@),
                    None => r is Err,
                },
                Tag::Answer => match payload {
                    Some(text) => r matches Ok(p) && p@ == PacketView::Answer(text@),
                    None => r is Err,
                },
                Tag::Candidate => match payload {
                    Some(text) => r matches Ok(p) && p@ == PacketView::Candidate(text@),
                    None => r is Err,
                },
            },
    {
        match tag {
            Tag::Start => match read_literal(body, 0) {
                Some((id, end)) => {
                    if end == body.len() {
                        Ok(Packet::Start(string_of(&id)))
                    } else {
                        Err(MalformedPacket)
                    }
                },
                None => Err(MalformedPacket),
            },
            Tag::RequestOffer => {
                if same_chars(body, &null_chars()) {
                    Ok(Packet::RequestOffer)
                } else {
                    Err(MalformedPacket)
                }
            },
            Tag::Offer => match payload {
                Some(text) => {
                    proof {
                        use_type_invariant(&text);
                    }
                    Ok(Packet::Offer(text))
                },
                None => Err(MalformedPacket),
            },
            Tag::Answer => match payload {
                Some(text) => {
                    proof {
                        use_type_invariant(&text);
                    }
                    Ok(Packet::Answer(text))
                },
                None => Err(MalformedPacket),
            },
            Tag::Candidate => match payload {
                Some(text) => {
                    proof {
                        use_type_invariant(&text);
                    }
                    Ok(Packet::Candidate(text))
                },
                None => Err(MalformedPacket),
            },
        }
    }

    /// Decodes one frame. Fails on whatever is not the frame of a packet.
    pub fn from_json(json: &str) -> (r: Result<Packet, MalformedPacket>)
        ensures
            match r {
                Ok(packet) => decoding(json@) == Some(packet@) && packet@.wf(),
                Err(_) => decoding(json@) is None,
            },
    {
        let chars = chars_of(json);
        match read_envelope(&chars) {
            None => Err(MalformedPacket),
            Some((tag, body)) => {
                let payload = match tag {
                    Tag::Start => None,
                    Tag::RequestOffer => None,
                    _ => Payload::sealed(&body),
                };
                Packet::assemble(tag, &body, payload)
            },
        }
    }

    /// Encodes the packet as one frame. Every packet has a frame.
    pub fn to_json(&self) -> (json: String)
        ensures
            json@ == encoding(self@),
            self@.wf(),
    {
        let frame = match self {
            Packet::Start(id) => {
                let mut body: Vec<char> = Vec::new();
                push_quoted(&mut body, &chars_of(id.as_str()));
                assert(body@ == quoted(id@)) by {
                    assert(Seq::<char>::empty() + quoted(id@) == quoted(id@));
                }
                write_envelope(Tag::Start, &body)
            },
            Packet::RequestOffer => write_envelope(Tag::RequestOffer, &null_chars()),
            Packet::Offer(payload) => write_envelope(Tag::Offer, &chars_of(payload.as_str())),
            Packet::Answer(payload) => write_envelope(Tag::Answer, &chars_of(payload.as_str())),
            Packet::Candidate(payload) => write_envelope(
                Tag::Candidate,
                &chars_of(payload.as_str()),
            ),
        };
        string_of(&frame)
    }
}

/// Decoding undoes encoding: the frame of a packet stands for that packet.
pub proof fn lemma_decode_encode(packet: PacketView)
    requires
        packet.wf(),
    ensures
        decoding(encoding(packet)) == Some(packet),
{
    let body = packet.body();
    match packet {
        PacketView::Start(id) => {
            assert(body[0] == '"');
            assert(body.last() == '"');
            assert(body.subrange(0, body.len() as int) == body);
            lemma_quoted_read_back(body, 0, id);
        },
        PacketView::RequestOffer => {
            assert(body[0] == 'n');
            assert(body.last() == 'l');
        },
        _ => {},
    }
    lemma_envelope_read_back(packet.tag(), body);
}

/// What a frame decodes to is well-formed: a payload that was read is one
/// JSON value without whitespace around it.
pub proof fn lemma_decoded_is_wf(frame: Seq<char>)
    ensures
        decoding(frame) matches Some(packet) ==> packet.wf(),
{
    if envelope(frame) is Some {
        lemma_envelope_is_laid_out(frame);
    }
}

/// Decoding does not depend on how a frame is spaced: if a body stands for
/// a packet under the packet's tag, then the frame that holds that body in
/// any layout that fits the tag decodes to the packet.
pub proof fn lemma_decoding_of_layout(layout: Layout, body: Seq<char>, packet: PacketView)
    requires
        layout.fits(packet.tag()),
        is_trimmed(body),
        packet_of(packet.tag(), body) == Some(packet),
    ensures
        decoding(layout.frame(body)) == Some(packet),
{
    lemma_envelope_of_layout(layout, packet.tag(), body);
}

/// Decoding accepts nothing else: a frame that decodes to a packet holds,
/// in a layout that fits the packet's tag, a body that stands for the
/// packet.
pub proof fn lemma_decoded_is_laid_out(frame: Seq<char>)
    requires
        decoding(frame) is Some,
    ensures
        ({
            let packet = decoding(frame)->0;
            let body = body_of(frame);
            &&& layout_of(frame).fits(packet.tag())
            &&& is_trimmed(body)
            &&& packet_of(packet.tag(), body) == Some(packet)
            &&& frame == layout_of(frame).frame(body)
        }),
{
    lemma_envelope_is_laid_out(frame);
}

} // verus!
