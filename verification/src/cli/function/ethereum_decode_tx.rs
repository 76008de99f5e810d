//! Decoding of raw transactions, row by row.

use vstd::prelude::*;
use crate::cli::function::ethereum_rpc_call::error_report;
use crate::cli::function::evm_descriptor_from_fullsig::{
    value_report, write_error_report, write_value_report,
};

verus! {

/// Decodes one RLP-encoded transaction envelope per row.
#[derive(Debug, Clone)]
pub struct EthereumDecodeTxCommand {
    /// Where the rows are read from; empty for the standard input.
    pub input_file: String,
    /// Where the results are written; empty for the standard output.
    pub output_file: String,
}

impl EthereumDecodeTxCommand {
    /// The result of one row from what the decoder made of it: the JSON text
    /// of the transaction in `{"value":…}`, or the decoder's message in
    /// `{"error":"…"}`.
    pub fn report(decoded: &Result<Vec<u8>, String>) -> (json: Vec<u8>)
        ensures
            json@ == match *decoded {
                Ok(transaction) => value_report(transaction@),
                Err(message) => error_report(vstd::utf8::encode_utf8(message@)),
            },
    {
        match decoded {
            Ok(transaction) => write_value_report(transaction.as_slice()),
            Err(message) => write_error_report(message.as_str().as_bytes()),
        }
    }
}

} // verus!
