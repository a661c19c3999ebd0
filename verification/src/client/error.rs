//! Why a client session ends.

use vstd::prelude::*;

verus! {

/// The conditions that end a client session.
///
/// All but `EndOfInput` are errors, and each is fatal to the whole session.
#[derive(Clone, Copy, Debug, PartialEq, Eq, Structural)]
pub enum CryoError {
    /// The relay socket closed while the direct transport was not connected.
    SocketClosed,
    /// A packet arrived in a state that cannot accept it.
    UnexpectedPacket,
    /// A frame did not decode to a packet.
    MalformedPacket,
    /// Standard input is exhausted. This ends the writing side, and is no
    /// error.
    EndOfInput,
    /// The transport engine reported an error.
    TransportEngineFailure,
}

} // verus!
