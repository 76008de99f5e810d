//! The tree of values that a decoded call or event holds, and the JSON text
//! that stands for each of them.

use vstd::prelude::*;
use crate::evm::abi::word::{be_value, low_i32, two_pow_32, twos_complement};
use crate::json::{int_text, nat_text, prefixed_hex_text, raw_literal, string_literal};

verus! {

/// A decoded Solidity value.
///
/// Integers are held as the 32 bytes of their ABI word, most significant byte
/// first; a signed one in two's complement. The number beside them is the
/// width of the type in bits. A fixed-size byte string is the whole word,
/// filled with zeros on the right, with its length in bytes.
#[derive(Debug)]
pub enum DecodedValue {
    Bool(bool),
    Int([u8; 32], usize),
    Uint([u8; 32], usize),
    FixedBytes([u8; 32], usize),
    Address([u8; 20]),
    Function([u8; 24]),
    Bytes(Vec<u8>),
    String(String),
    Array(Vec<DecodedValue>),
    FixedArray(Vec<DecodedValue>),
    Tuple(Vec<DecodedValue>),
    /// A struct: its name, and its fields in the order of the declaration,
    /// each with its name.
    CustomStruct { name: String, fields: Vec<(String, DecodedValue)> },
}

/// The key of the `i`-th member of an object without declared names.
pub open spec fn arg_key(i: nat) -> Seq<u8> {
    seq![97u8, 114u8, 103u8] + nat_text(i)
}

/// `,` in front of every item but the first.
pub open spec fn separator(index: int) -> Seq<u8> {
    if index > 0 {
        seq![44u8]
    } else {
        Seq::empty()
    }
}

/// The JSON text of one value.
///
/// A boolean is `true` or `false`. A string is a string literal. Byte
/// strings, fixed-size byte strings, addresses and function pointers are
/// `"0x…"` in lowercase hexadecimal. An unsigned integer below 2^32 is a
/// number, a larger one its decimal digits in a string. A signed integer of a
/// type of at most 32 bits is a number, one of a wider type a decimal string.
/// Arrays are arrays. A tuple is an object with the keys `arg0`, `arg1`, …;
/// a struct an object with its declared field names.
pub open spec fn value_text(v: DecodedValue) -> Seq<u8>
    decreases v, 0int,
{
    match v {
        DecodedValue::Bool(b) => if b {
            seq![116u8, 114u8, 117u8, 101u8]
        } else {
            seq![102u8, 97u8, 108u8, 115u8, 101u8]
        },
        DecodedValue::String(s) => string_literal(vstd::utf8::encode_utf8(s@)),
        DecodedValue::Bytes(b) => raw_literal(prefixed_hex_text(b@)),
        DecodedValue::FixedBytes(word, _) => raw_literal(prefixed_hex_text(word@)),
        DecodedValue::Address(a) => raw_literal(prefixed_hex_text(a@)),
        DecodedValue::Function(f) => raw_literal(prefixed_hex_text(f@)),
        DecodedValue::Uint(word, _) => if be_value(word@) < two_pow_32() {
            nat_text(be_value(word@))
        } else {
            raw_literal(nat_text(be_value(word@)))
        },
        DecodedValue::Int(word, bits) => if bits <= 32 {
            int_text(low_i32(word@))
        } else {
            raw_literal(int_text(twos_complement(word@)))
        },
        DecodedValue::Array(items) => array_text(items@),
        DecodedValue::FixedArray(items) => array_text(items@),
        DecodedValue::Tuple(items) => object_text(items@),
        DecodedValue::CustomStruct { name, fields } => struct_text(fields@),
    }
}

/// The first `n` items of an array, separated by commas.
pub open spec fn items_text(items: Seq<DecodedValue>, n: int) -> Seq<u8>
    decreases items, n,
{
    if n <= 0 || n > items.len() {
        Seq::empty()
    } else {
        items_text(items, n - 1) + separator(n - 1) + value_text(items[n - 1])
    }
}

/// One member of an object: the key between quotes, as it is, a colon and
/// the value.
pub open spec fn member_text(key: Seq<u8>, value: Seq<u8>) -> Seq<u8> {
    raw_literal(key) + seq![58u8] + value
}

/// The first `n` members of the object for a tuple, separated by commas,
/// under the keys `arg0`, `arg1`, ….
pub open spec fn members_text(items: Seq<DecodedValue>, n: int) -> Seq<u8>
    decreases items, n,
{
    if n <= 0 || n > items.len() {
        Seq::empty()
    } else {
        members_text(items, n - 1) + separator(n - 1) + member_text(
            arg_key((n - 1) as nat),
            value_text(items[n - 1]),
        )
    }
}

/// The first `n` members of the object for a struct, separated by commas,
/// under the declared names.
pub open spec fn fields_text(fields: Seq<(String, DecodedValue)>, n: int) -> Seq<u8>
    decreases fields, n,
{
    if n <= 0 || n > fields.len() {
        Seq::empty()
    } else {
        fields_text(fields, n - 1) + separator(n - 1) + member_text(
            vstd::utf8::encode_utf8(fields[n - 1].0@),
            value_text(fields[n - 1].1),
        )
    }
}

/// A JSON array of the items.
pub open spec fn array_text(items: Seq<DecodedValue>) -> Seq<u8>
    decreases items, items.len() + 1,
{
    seq![91u8] + items_text(items, items.len() as int) + seq![93u8]
}

/// The JSON object for a tuple: the items under `arg0`, `arg1`, ….
pub open spec fn object_text(items: Seq<DecodedValue>) -> Seq<u8>
    decreases items, items.len() + 1,
{
    seq![123u8] + members_text(items, items.len() as int) + seq![125u8]
}

/// The JSON object for a struct: the fields under their declared names.
pub open spec fn struct_text(fields: Seq<(String, DecodedValue)>) -> Seq<u8>
    decreases fields, fields.len() + 1,
{
    seq![123u8] + fields_text(fields, fields.len() as int) + seq![125u8]
}

} // verus!
