//! From a human-readable signature to the JSON descriptor of the item.

use vstd::prelude::*;
use crate::cli::function::ethereum_rpc_call::error_report;
use crate::evm::abi::codec::{parse_item, parsed_item};
use crate::evm::abi::primitives::utf8_text;
use crate::json::write_string;

verus! {

/// Turns the full signature of each row into the JSON descriptor of the ABI
/// item.
#[derive(Debug, Clone)]
pub struct EVMDescriptorFromFullsigCommand {
    /// Where the rows are read from; empty for the standard input.
    pub input_file: String,
    /// Where the results are written; empty for the standard output.
    pub output_file: String,
}

/// `invalid UTF-8`
pub open spec fn invalid_utf8_message() -> Seq<u8> {
    seq![105u8, 110u8, 118u8, 97u8, 108u8, 105u8, 100u8, 32u8, 85u8, 84u8, 70u8, 45u8, 56u8]
}

/// `{"value":J}` for the JSON text `J`.
pub open spec fn value_report(json: Seq<u8>) -> Seq<u8> {
    seq![123u8, 34u8, 118u8, 97u8, 108u8, 117u8, 101u8, 34u8, 58u8] + json + seq![125u8]
}

/// The result of a row: the descriptor of the item that the signature
/// declares in `{"value":…}`; where the bytes are no text or no declaration,
/// the message that says so in `{"error":"…"}`.
pub open spec fn descriptor_row(fullsig: Seq<u8>) -> Seq<u8> {
    if !vstd::utf8::valid_utf8(fullsig) {
        error_report(invalid_utf8_message())
    } else {
        match parsed_item(vstd::utf8::decode_utf8(fullsig)) {
            Ok((kind, descriptor)) => value_report(vstd::utf8::encode_utf8(descriptor@)),
            Err(m) => error_report(vstd::utf8::encode_utf8(m@)),
        }
    }
}

/// Appends the bytes.
pub fn write_bytes(w: &mut Vec<u8>, bytes: &[u8])
    ensures
        final(w)@ == old(w)@ + bytes@,
{
    let n: usize = bytes.len();
    let mut i: usize = 0;
    while i < n
        invariant
            0 <= i <= n,
            n == bytes@.len(),
            w@ == old(w)@ + bytes@.take(i as int),
        decreases n - i,
    {
        w.push(bytes[i]);
        assert(bytes@.take(i + 1) =~= bytes@.take(i as int).push(bytes@[i as int]));
        i = i + 1;
    }
    assert(bytes@.take(n as int) =~= bytes@);
}

/// `{"value":J}` for a JSON text.
pub fn write_value_report(json: &[u8]) -> (w: Vec<u8>)
    ensures
        w@ == value_report(json@),
{
    let mut w: Vec<u8> = Vec::new();
    let head: [u8; 9] = [123, 34, 118, 97, 108, 117, 101, 34, 58];
    write_bytes(&mut w, vstd::array::array_as_slice(&head));
    write_bytes(&mut w, json);
    w.push(125);
    assert(head@ =~= seq![123u8, 34u8, 118u8, 97u8, 108u8, 117u8, 101u8, 34u8, 58u8]);
    assert(w@ =~= value_report(json@));
    w
}

/// `{"error":"M"}` for a message.
pub fn write_error_report(message: &[u8]) -> (w: Vec<u8>)
    ensures
        w@ == error_report(message@),
{
    let mut w: Vec<u8> = Vec::new();
    let head: [u8; 9] = [123, 34, 101, 114, 114, 111, 114, 34, 58];
    write_bytes(&mut w, vstd::array::array_as_slice(&head));
    write_string(&mut w, message);
    w.push(125);
    assert(head@ =~= seq![123u8, 34u8, 101u8, 114u8, 114u8, 111u8, 114u8, 34u8, 58u8]);
    assert(w@ =~= error_report(message@));
    w
}

impl EVMDescriptorFromFullsigCommand {
    /// The result of one row: see `descriptor_row`.
    pub fn describe(fullsig: &[u8]) -> (json: Vec<u8>)
        ensures
            json@ == descriptor_row(fullsig@),
    {
        let text: &str = match utf8_text(fullsig) {
            Some(text) => text,
            None => {
                let message: [u8; 13] = [105, 110, 118, 97, 108, 105, 100, 32, 85, 84, 70, 45, 56];
                assert(message@ =~= invalid_utf8_message());
                return write_error_report(vstd::array::array_as_slice(&message));
            },
        };
        proof {
            vstd::utf8::encode_utf8_decode_utf8(text@);
        }
        match parse_item(text) {
            Ok((kind, descriptor)) => write_value_report(descriptor.as_str().as_bytes()),
            Err(m) => write_error_report(m.as_str().as_bytes()),
        }
    }
}

} // verus!
