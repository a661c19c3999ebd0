//! Signalling for a peer-to-peer tunnel: the packets two peers exchange through
//! a relay, the relay's pairing registry and session rules, and the client's
//! negotiation rules.

pub mod client;
pub mod frame;
pub mod json;
pub mod packet;
pub mod relay;
pub mod text;
