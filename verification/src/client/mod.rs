//! The client: it negotiates a direct transport with its peer through the
//! relay, and then bridges that transport to its standard input and output.

pub mod bridge;
pub mod config;
pub mod engine;
pub mod error;
