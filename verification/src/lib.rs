//! Decoding and encoding of Ethereum ABI calls and event logs, resolution of
//! the ABI item that fits a payload among several candidate sources, and the
//! planning, retry policy and result classification of batched JSON-RPC calls.
//!
//! Every function in this crate carries a contract that Verus proves. The
//! calls into `alloy`, `serde_json` and `mini_moka` are made by small
//! functions marked `external_body`, whose contracts are assumed: they stand
//! in `evm::abi::codec`, `evm::abi::primitives`, `json` and `cache`.

pub mod cache;
pub mod cli;
pub mod evm;
pub mod json;
