//! Measures latency and success rate of JSON-RPC calls against blockchain
//! node endpoints over HTTP and persistent WebSocket transports, and
//! produces ranked statistical summaries.
//!
//! The library holds the verified core: endpoint classification, the
//! connection registry, the request/response protocol decisions, the
//! test-orchestration policy, and the statistics aggregation. The
//! surrounding binary performs the actual network I/O and rendering.

pub mod chains;
pub mod methods;
pub mod orchestrator;
pub mod rpc;
pub mod stats;
pub mod text;
