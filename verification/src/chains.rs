//! Endpoints: a named address together with the transport kind it speaks.

use vstd::prelude::*;

use crate::text::str_starts_with;

verus! {

/// Which transport an endpoint speaks.
#[derive(Debug, Clone, PartialEq, Eq, Structural)]
pub enum ConnectionType {
    /// Stateless request/response over HTTP or HTTPS.
    Http,
    /// Persistent duplex WebSocket connection, reused across calls.
    WebSocket,
}

/// The transport kind an address selects: WebSocket for `ws://` and `wss://`
/// schemes, HTTP for everything else. Classification is a pure function of
/// the address text.
pub open spec fn kind_of_address(addr: Seq<char>) -> ConnectionType {
    if "ws://"@.is_prefix_of(addr) || "wss://"@.is_prefix_of(addr) {
        ConnectionType::WebSocket
    } else {
        ConnectionType::Http
    }
}

/// A blockchain together with the RPC endpoint used to reach it.
#[derive(Debug, Clone)]
pub struct Chain {
    /// Display name of the chain (for example `"ETH"`).
    pub name: String,
    /// Address of the RPC endpoint.
    pub rpc_url: String,
    /// Transport kind, fixed when the chain is constructed.
    pub connection_type: ConnectionType,
}

impl Chain {
    /// Builds a chain, inferring the transport kind from the address scheme.
    pub fn new(name: &str, rpc_url: &str) -> (c: Self)
        ensures
            c.name@ == name@,
            c.rpc_url@ == rpc_url@,
            c.connection_type == kind_of_address(rpc_url@),
    {
        let connection_type = if str_starts_with(rpc_url, "ws://") || str_starts_with(
            rpc_url,
            "wss://",
        ) {
            ConnectionType::WebSocket
        } else {
            ConnectionType::Http
        };
        Self { name: name.to_owned(), rpc_url: rpc_url.to_owned(), connection_type }
    }

    /// Builds a chain that is reached over HTTP, whatever the address says.
    pub fn new_http(name: &str, rpc_url: &str) -> (c: Self)
        ensures
            c.name@ == name@,
            c.rpc_url@ == rpc_url@,
            c.connection_type == ConnectionType::Http,
    {
        Self {
            name: name.to_owned(),
            rpc_url: rpc_url.to_owned(),
            connection_type: ConnectionType::Http,
        }
    }

    /// Builds a chain that is reached over a WebSocket, whatever the address says.
    pub fn new_ws(name: &str, rpc_url: &str) -> (c: Self)
        ensures
            c.name@ == name@,
            c.rpc_url@ == rpc_url@,
            c.connection_type == ConnectionType::WebSocket,
    {
        Self {
            name: name.to_owned(),
            rpc_url: rpc_url.to_owned(),
            connection_type: ConnectionType::WebSocket,
        }
    }
}

} // verus!
