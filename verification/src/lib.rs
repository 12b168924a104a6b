//! Protocol engine of a game server: the binary codec, the per-connection
//! stream cipher, message framing, the tamper-evidence checksum and the
//! bookkeeping of connections, each with a machine-checked contract.
//!
//! The engine neither opens sockets nor talks to a database. A server reads
//! frames and hands them to a [`session::Session`], writes the frames it gets
//! back, and asks the player store what a login wants to know.

pub mod checksum;
pub mod csv_logic;
pub mod database;
pub mod device;
pub mod frame;
pub mod math;
pub mod network;
pub mod packets;
pub mod player;
pub mod rc4;
pub mod reader;
pub mod session;
pub mod settings;
pub mod writer;
