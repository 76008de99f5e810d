//! Keccak-256 hashes, row by row.

use vstd::prelude::*;
use crate::evm::abi::primitives::{keccak256, keccak256_hash};

verus! {

/// Hashes the bytes of each row.
#[derive(Debug, Clone)]
pub struct Keccak256Command {
    /// Where the rows are read from; empty for the standard input.
    pub input_file: String,
    /// Where the results are written; empty for the standard output.
    pub output_file: String,
}

impl Keccak256Command {
    /// The result of one row: the Keccak-256 hash of its bytes.
    pub fn hash(data: &[u8]) -> (hash: [u8; 32])
        ensures
            hash@ == keccak256_hash(data@),
    {
        keccak256(data)
    }
}

} // verus!
