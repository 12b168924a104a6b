//! The messages of the protocol, by direction.

pub mod client;
pub mod packet;
pub mod server;
