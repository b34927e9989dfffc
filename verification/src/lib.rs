//! A multiplexed TCP/UDP tunnel: the flow descriptors, the per-stream control
//! protocol and the decisions of both ends, with their contracts.

use vstd::prelude::*;
use crate::common::addr::{HostAddr, SocketAddress};
use crate::common::remote::RemoteRequest;

pub mod client;
pub mod common;
pub mod logging;
pub mod server;

verus! {

/// What a server is started with.
#[derive(Clone, Copy, Debug, PartialEq, Eq, Structural)]
pub struct ServerConfig {
    /// The interface on which the server listens.
    pub host: HostAddr,
    /// The port on which the server listens.
    pub port: u16,
    /// Whether clients may ask the server to listen for them.
    pub allow_reverse: bool,
}

/// What a client is started with.
#[derive(Clone, Debug, PartialEq, Eq)]
pub struct ClientConfig {
    /// Where the server listens.
    pub server: SocketAddress,
    /// The rules to serve.
    pub remotes: Vec<RemoteRequest>,
}

} // verus!
