//! What the protocol engine takes from the server's configuration.

use vstd::prelude::*;

verus! {

/// Configuration of one server process.
pub struct Settings {
    /// Shared secret from which every connection's cipher key is made.
    pub key: String,
    /// TCP port to listen on.
    pub port: u32,
    /// Connection string of the player store.
    pub database: String,
    /// Highest rank a fighter can reach; the trophy ceiling sent to clients follows from it.
    pub max_rank: u32,
}

} // verus!
