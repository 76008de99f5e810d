//! The Ethereum side of the library: ABI items and their codec, and the
//! JSON-RPC client's rules.

pub mod abi;
pub mod decoded_event_ext;
pub mod rpc;
