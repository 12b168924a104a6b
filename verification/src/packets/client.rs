//! Messages that clients send.

pub mod factory;
pub mod login_message;

pub use factory::{create_packet, ClientMessage};
pub use login_message::LoginMessage;
