//! Registry and relay for a fleet of agents: routing of incoming upgrade
//! requests, authentication, the node table with its register, offline,
//! heartbeat and sweep rules, RPC dispatch and session bookkeeping.
use vstd::prelude::*;

pub mod auth;
pub mod bus;
pub mod handshake;
pub mod http;
pub mod janitor;
pub mod laws;
pub mod node;
pub mod rpc;
pub mod session;
pub mod text;

verus! {

/// Settings of a server process.
pub struct ServerConfig {
    /// Listen port.
    pub port: u16,
    /// Base staleness threshold of the sweep, in seconds.
    pub node_ttl: u64,
    /// Shared secret; empty disables authentication.
    pub secret_token: String,
}

} // verus!
