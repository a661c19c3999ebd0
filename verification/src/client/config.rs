//! The ICE servers that a client hands to the transport engine.

use vstd::prelude::*;
use vstd::string::StringExecFns;

verus! {

/// One ICE server: its URLs, and the credentials it asks for, if any.
#[derive(Debug, PartialEq, Eq)]
pub struct IceServer {
    pub urls: Vec<String>,
    pub username: String,
    pub credential: String,
}

/// The scheme that marks a STUN server's URL.
pub open spec fn stun_scheme() -> Seq<char> {
    seq!['s', 't', 'u', 'n', ':']
}

/// The scheme that marks a TURN server's URL.
pub open spec fn turn_scheme() -> Seq<char> {
    seq!['t', 'u', 'r', 'n', ':']
}

/// The ICE servers of a client: the STUN server, which asks for no
/// credentials, and then the TURN server with its credentials. Each is given
/// by its address and gets one URL, the address behind its scheme.
pub fn ice_servers(stun: &str, turn: &str, turn_username: &str, turn_credential: &str) -> (servers:
    Vec<IceServer>)
    ensures
        servers@.len() == 2,
        servers@[0].urls@.len() == 1,
        servers@[0].urls@[0]@ == stun_scheme() + stun@,
        servers@[0].username@ == Seq::<char>::empty(),
        servers@[0].credential@ == Seq::<char>::empty(),
        servers@[1].urls@.len() == 1,
        servers@[1].urls@[0]@ == turn_scheme() + turn@,
        servers@[1].username@ == turn_username@,
        servers@[1].credential@ == turn_credential@,
{
    proof {
        reveal_strlit("stun:");
        reveal_strlit("turn:");
    }
    let mut stun_url = String::from_str("stun:");
    assert(stun_url@ == stun_scheme());
    stun_url.append(stun);
    let mut turn_url = String::from_str("turn:");
    assert(turn_url@ == turn_scheme());
    turn_url.append(turn);
    let mut servers: Vec<IceServer> = Vec::new();
    servers.push(IceServer { urls: vec![stun_url], username: String::new(), credential: String::new() });
    servers.push(
        IceServer {
            urls: vec![turn_url],
            username: String::from_str(turn_username),
            credential: String::from_str(turn_credential),
        },
    );
    servers
}

} // verus!
