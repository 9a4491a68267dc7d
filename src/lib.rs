//! A remote-control protocol core: JSON-RPC style requests are decoded into
//! command messages, routed through a registry of named methods, and answered
//! by a dispatcher that runs once per processing tick.

pub mod dispatch;
pub mod error_codes;
pub mod front;
pub mod json;
pub mod protocol;
pub mod query;
pub mod registry;
pub mod streams;

pub use dispatch::{
    handler_fault, method_not_found, normal_reply, route, stream_step, Route, StreamRun, StreamStep,
};
pub use front::{process_brp_batch, process_single_request, BatchPlan, ItemPlan};
pub use json::Json;
pub use protocol::{
    BrpBatch, BrpError, BrpPayload, BrpRequest, BrpResponse, BrpResult, EntityId, JSONRPC_VERSION,
};
pub use query::validate_websocket_request;
pub use registry::{RemoteMethod, RemoteMethods};
pub use streams::{ActiveStream, ActiveStreams};
