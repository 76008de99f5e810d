//! What the library asks of `alloy_primitives` and of `std`: the Keccak-256
//! hash, the decoding of hexadecimal text, and the test for UTF-8. The
//! contracts here are assumed.

use vstd::prelude::*;
use crate::json::{bytes_of_digits, is_hex_text, unprefixed};

verus! {

/// The Keccak-256 hash of a byte string: 32 bytes.
pub uninterp spec fn keccak256_hash(data: Seq<u8>) -> Seq<u8>;

/// Calls `alloy_primitives::keccak256`. The result is the hash of `data`,
/// which this crate names and does not define.
#[verifier::external_body]
pub(crate) fn keccak256(data: &[u8]) -> (hash: [u8; 32])
    ensures
        hash@ == keccak256_hash(data@),
{
    alloy_primitives::keccak256(data).0
}

/// The decoder's message for a text that is not hexadecimal.
pub uninterp spec fn hex_refusal(text: Seq<char>) -> String;

/// The bytes that a hexadecimal text stands for, with or without `0x` in
/// front, or the decoder's message where the text is not hexadecimal.
pub open spec fn hex_decoded(text: Seq<char>) -> Result<Seq<u8>, String> {
    if is_hex_text(vstd::utf8::encode_utf8(text)) {
        Ok(bytes_of_digits(unprefixed(vstd::utf8::encode_utf8(text))))
    } else {
        Err(hex_refusal(text))
    }
}

/// Calls `alloy_primitives::hex::decode`. It takes a text of an even number
/// of bytes that are hexadecimal digits in either case, behind `0x` or `0X`
/// or behind nothing, and gives the byte of each pair of digits; any other
/// text it refuses, with a message that this crate names and does not
/// define.
#[verifier::external_body]
pub(crate) fn hex_decode(text: &str) -> (r: Result<Vec<u8>, String>)
    ensures
        match r {
            Ok(bytes) => is_hex_text(vstd::utf8::encode_utf8(text@)) && bytes@ == bytes_of_digits(
                unprefixed(vstd::utf8::encode_utf8(text@)),
            ),
            Err(m) => !is_hex_text(vstd::utf8::encode_utf8(text@)) && m == hex_refusal(text@),
        },
{
    alloy_primitives::hex::decode(text).map_err(|e| e.to_string())
}

/// Calls `std::str::from_utf8`: the text that the bytes encode, where they
/// are well-formed UTF-8, and nothing where they are not.
#[verifier::external_body]
pub(crate) fn utf8_text(bytes: &[u8]) -> (text: Option<&str>)
    ensures
        match text {
            Some(s) => vstd::utf8::valid_utf8(bytes@) && vstd::utf8::encode_utf8(s@) == bytes@,
            None => !vstd::utf8::valid_utf8(bytes@),
        },
{
    std::str::from_utf8(bytes).ok()
}

} // verus!
