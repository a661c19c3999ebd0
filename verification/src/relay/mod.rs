//! The relay: it pairs two connections that announce the same identifier
//! and forwards their handshake packets to each other.

pub mod channel;
pub mod error;
pub mod registry;
pub mod session;
