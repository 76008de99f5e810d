//! The rules of the JSON-RPC client: how calls are batched, how many
//! requests may be in flight, when a failed attempt is tried again, and what
//! each response means for its call.
//!
//! The requests themselves are sent by the caller; a JSON value is held here
//! as its compact text.

pub mod concurrency_limit_layer;
pub mod retry_layer;
pub mod rpc_client;
