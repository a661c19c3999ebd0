//! Why a relay session ends abnormally.

use vstd::prelude::*;

verus! {

/// The conditions that end one relay session with an error.
///
/// Each is fatal to the session in which it occurs and to no other.
#[derive(Clone, Copy, Debug, PartialEq, Eq, Structural)]
pub enum CryoError {
    /// The socket, or the queue from the paired session, closed while the
    /// session still expected traffic.
    SocketClosed,
    /// A packet arrived in a state that cannot accept it.
    UnexpectedPacket,
    /// A frame did not decode to a packet.
    MalformedPacket,
    /// The identifier already has both of its peers.
    ChannelAlreadyEstablished,
}

} // verus!
