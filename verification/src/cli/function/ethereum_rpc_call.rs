//! Contract calls through `eth_call`, one per row.

use vstd::prelude::*;
use crate::evm::abi::codec::{decoded_output, encoded_input};
use crate::evm::abi::error::AbiError;
use crate::evm::abi::function::{all_coerced, some_refused, Function};
use crate::evm::abi::json_encoding::{key_value, write_object_key, write_values_as_object};
use crate::evm::abi::primitives::{hex_decode, hex_decoded, utf8_text};
use crate::evm::abi::value::{member_text, object_text, separator, DecodedValue};
use crate::evm::rpc::rpc_client::{RpcCall, RpcResult};
use crate::json::{
    hex_digit, nat_text, parse_json_array, parse_json_string, parsed_json_array,
    parsed_json_string, raw_literal, string_literal, write_nat, write_string,
};

verus! {

/// Builds one `eth_call` per row from a function signature and its
/// arguments, and decodes what comes back.
#[derive(Debug, Clone)]
pub struct EthereumRPCCallCommand {
    /// Where the rows are read from; empty for the standard input.
    pub input_file: String,
    /// Where the results are written; empty for the standard output.
    pub output_file: String,
    /// The largest number of calls in one request.
    pub max_batch_size: usize,
}

/// The block that a call is made against: a named one, or one by its number.
#[derive(Debug, Clone, Copy, PartialEq, Eq, Structural)]
pub enum BlockNumberOrTag {
    Latest,
    Finalized,
    Safe,
    Earliest,
    Pending,
    Number(u64),
}

/// Why a row cannot be turned into a call, or its result into a report.
#[derive(Debug, Clone)]
pub enum RpcCallError {
    /// The block number is negative and names no block.
    BlockNumber,
    /// The address or the arguments are no UTF-8 text.
    InvalidUtf8,
    /// The arguments are no JSON; the parser's message is inside.
    InvalidJson(String),
    /// The arguments are JSON, but no array.
    DataNotArray,
    /// The arguments do not fit the function, or the result does not.
    Abi(AbiError),
    /// The result is no hexadecimal text; the decoder's message is inside.
    Hex(String),
}

/// The block that a number of a row stands for: -1 the pending one, -2 the
/// latest, -3 the finalized, -4 the safe, 0 the earliest, a positive number
/// the block with that number; no block for any other number.
pub open spec fn block_of(i: i64) -> Option<BlockNumberOrTag> {
    if i == -4 {
        Some(BlockNumberOrTag::Safe)
    } else if i == -3 {
        Some(BlockNumberOrTag::Finalized)
    } else if i == -2 {
        Some(BlockNumberOrTag::Latest)
    } else if i == -1 {
        Some(BlockNumberOrTag::Pending)
    } else if i == 0 {
        Some(BlockNumberOrTag::Earliest)
    } else if i > 0 {
        Some(BlockNumberOrTag::Number(i as u64))
    } else {
        None
    }
}

/// See `block_of`. Fails with `BlockNumber` exactly when the number stands
/// for no block.
pub fn to_block_number_or_tag(i: i64) -> (r: Result<BlockNumberOrTag, RpcCallError>)
    ensures
        match r {
            Ok(block) => block_of(i) == Some(block),
            Err(e) => e is BlockNumber && block_of(i) is None,
        },
{
    if i == -4 {
        Ok(BlockNumberOrTag::Safe)
    } else if i == -3 {
        Ok(BlockNumberOrTag::Finalized)
    } else if i == -2 {
        Ok(BlockNumberOrTag::Latest)
    } else if i == -1 {
        Ok(BlockNumberOrTag::Pending)
    } else if i == 0 {
        Ok(BlockNumberOrTag::Earliest)
    } else if i > 0 {
        Ok(BlockNumberOrTag::Number(i as u64))
    } else {
        Err(RpcCallError::BlockNumber)
    }
}

/// The digits of a number in lowercase hexadecimal, without leading zeros.
pub open spec fn hex_nat_text(n: nat) -> Seq<u8>
    decreases n,
{
    if n < 16 {
        seq![hex_digit(n as int)]
    } else {
        hex_nat_text(n / 16) + seq![hex_digit((n % 16) as int)]
    }
}

/// How a block is named in a call: `latest`, `finalized`, `safe`,
/// `earliest`, `pending`, or the number in hexadecimal after `0x`.
pub open spec fn block_name(block: BlockNumberOrTag) -> Seq<u8> {
    match block {
        BlockNumberOrTag::Latest => seq![108u8, 97u8, 116u8, 101u8, 115u8, 116u8],
        BlockNumberOrTag::Finalized => seq![
            102u8,
            105u8,
            110u8,
            97u8,
            108u8,
            105u8,
            122u8,
            101u8,
            100u8,
        ],
        BlockNumberOrTag::Safe => seq![115u8, 97u8, 102u8, 101u8],
        BlockNumberOrTag::Earliest => seq![101u8, 97u8, 114u8, 108u8, 105u8, 101u8, 115u8, 116u8],
        BlockNumberOrTag::Pending => seq![112u8, 101u8, 110u8, 100u8, 105u8, 110u8, 103u8],
        BlockNumberOrTag::Number(n) => seq![48u8, 120u8] + hex_nat_text(n as nat),
    }
}

/// The first `n` bytes as JSON numbers, separated by commas.
pub open spec fn byte_numbers(bytes: Seq<u8>, n: int) -> Seq<u8>
    decreases n,
{
    if n <= 0 || n > bytes.len() {
        Seq::empty()
    } else {
        byte_numbers(bytes, n - 1) + separator(n - 1) + nat_text(bytes[n - 1] as nat)
    }
}

/// The first parameter of an `eth_call`: `{"data":[…],"to":"…"}`, the call
/// data as an array of its bytes, the address as a string.
pub open spec fn call_object(to: Seq<u8>, call_data: Seq<u8>) -> Seq<u8> {
    seq![123u8] + raw_literal(seq![100u8, 97u8, 116u8, 97u8]) + seq![58u8, 91u8] + byte_numbers(
        call_data,
        call_data.len() as int,
    ) + seq![93u8, 44u8] + raw_literal(seq![116u8, 111u8]) + seq![58u8] + string_literal(to)
        + seq![125u8]
}

/// `eth_call`
pub open spec fn eth_call_method() -> Seq<u8> {
    seq![101u8, 116u8, 104u8, 95u8, 99u8, 97u8, 108u8, 108u8]
}

/// `call` is the `eth_call` of the function for a row: the arguments are a
/// JSON array that can be read as the function's inputs, and the call holds
/// the object with their encoding and the address, and the name of the
/// block.
pub open spec fn is_eth_call(
    func: Function,
    to: Seq<u8>,
    data: Seq<u8>,
    block_number: i64,
    call: RpcCall,
) -> bool {
    &&& vstd::utf8::encode_utf8(call.method@) == eth_call_method()
    &&& vstd::utf8::valid_utf8(to)
    &&& vstd::utf8::valid_utf8(data)
    &&& block_of(block_number) matches Some(block)
    &&& parsed_json_array(data) matches Ok(Some(args))
    &&& args@.len() == func.inputs_view().len()
    &&& call.params@.len() == 2
    &&& call.params@[1]@ == raw_literal(block_name(block))
    &&& exists|values: Vec<DecodedValue>|
        all_coerced(func.descriptor_view(), args@, values@) && encodes_to(
            func.descriptor_view(),
            values@,
            to,
            call.params@[0]@,
        )
}

/// The values encode as the inputs of the function, and `object` is the
/// first parameter of the call with that encoding.
pub open spec fn encodes_to(
    descriptor: Seq<char>,
    values: Seq<DecodedValue>,
    to: Seq<u8>,
    object: Seq<u8>,
) -> bool {
    encoded_input(descriptor, values) matches Ok(bytes) && object == call_object(to, bytes@)
}

/// The text of the report for the result of a call: the decoded outputs
/// under `arg0`, `arg1`, … in `{"value":{…}}`.
pub open spec fn outputs_report(values: Seq<DecodedValue>) -> Seq<u8> {
    seq![123u8] + member_text(key_value(), object_text(values)) + seq![125u8]
}

/// `{"error":"failed to decode result data"}`
pub open spec fn failed_to_decode() -> Seq<u8> {
    seq![123u8, 34u8, 101u8, 114u8, 114u8, 111u8, 114u8, 34u8, 58u8] + string_literal(
        seq![
            102u8, 97u8, 105u8, 108u8, 101u8, 100u8, 32u8, 116u8, 111u8, 32u8, 100u8, 101u8, 99u8,
            111u8, 100u8, 101u8, 32u8, 114u8, 101u8, 115u8, 117u8, 108u8, 116u8, 32u8, 100u8, 97u8,
            116u8, 97u8,
        ],
    ) + seq![125u8]
}

/// `{"error":"M"}`
pub open spec fn error_report(message: Seq<u8>) -> Seq<u8> {
    seq![123u8, 34u8, 101u8, 114u8, 114u8, 111u8, 114u8, 34u8, 58u8] + string_literal(message)
        + seq![125u8]
}

/// Appends the digits of `n` in lowercase hexadecimal.
fn write_hex_nat(w: &mut Vec<u8>, n: u64)
    ensures
        final(w)@ == old(w)@ + hex_nat_text(n as nat),
    decreases n,
{
    if n >= 16 {
        write_hex_nat(w, n / 16);
    }
    let d: u8 = (n % 16) as u8;
    if d < 10 {
        w.push(48 + d);
    } else {
        w.push(87 + d);
    }
    assert(w@ =~= old(w)@ + hex_nat_text(n as nat));
}

/// The name of a block as a JSON string.
pub fn block_json(block: BlockNumberOrTag) -> (json: Vec<u8>)
    ensures
        json@ == raw_literal(block_name(block)),
{
    let mut w: Vec<u8> = Vec::new();
    w.push(34);
    match block {
        BlockNumberOrTag::Latest => {
            w.push(108);
            w.push(97);
            w.push(116);
            w.push(101);
            w.push(115);
            w.push(116);
        },
        BlockNumberOrTag::Finalized => {
            w.push(102);
            w.push(105);
            w.push(110);
            w.push(97);
            w.push(108);
            w.push(105);
            w.push(122);
            w.push(101);
            w.push(100);
        },
        BlockNumberOrTag::Safe => {
            w.push(115);
            w.push(97);
            w.push(102);
            w.push(101);
        },
        BlockNumberOrTag::Earliest => {
            w.push(101);
            w.push(97);
            w.push(114);
            w.push(108);
            w.push(105);
            w.push(101);
            w.push(115);
            w.push(116);
        },
        BlockNumberOrTag::Pending => {
            w.push(112);
            w.push(101);
            w.push(110);
            w.push(100);
            w.push(105);
            w.push(110);
            w.push(103);
        },
        BlockNumberOrTag::Number(n) => {
            w.push(48);
            w.push(120);
            write_hex_nat(&mut w, n);
        },
    }
    assert(w@ =~= seq![34u8] + block_name(block));
    w.push(34);
    assert(w@ =~= raw_literal(block_name(block)));
    w
}

/// The first parameter of an `eth_call`: see `call_object`.
pub fn call_object_json(to: &[u8], call_data: &[u8]) -> (json: Vec<u8>)
    ensures
        json@ == call_object(to@, call_data@),
{
    let mut w: Vec<u8> = Vec::new();
    let data_key: [u8; 4] = [100, 97, 116, 97];
    let to_key: [u8; 2] = [116, 111];
    w.push(123);
    write_object_key(&mut w, vstd::array::array_as_slice(&data_key), true);
    w.push(91);
    let ghost head = w@;
    assert(data_key@ =~= seq![100u8, 97u8, 116u8, 97u8]);
    assert(head =~= seq![123u8] + raw_literal(seq![100u8, 97u8, 116u8, 97u8]) + seq![58u8, 91u8]);
    let n: usize = call_data.len();
    let mut i: usize = 0;
    while i < n
        invariant
            0 <= i <= n,
            n == call_data@.len(),
            w@ == head + byte_numbers(call_data@, i as int),
        decreases n - i,
    {
        if i > 0 {
            w.push(44);
        }
        write_nat(&mut w, call_data[i] as u64);
        assert(w@ =~= head + byte_numbers(call_data@, i + 1));
        i = i + 1;
    }
    w.push(93);
    let ghost array = w@;
    write_object_key(&mut w, vstd::array::array_as_slice(&to_key), false);
    assert(to_key@ =~= seq![116u8, 111u8]);
    assert(w@ =~= array + seq![44u8] + raw_literal(seq![116u8, 111u8]) + seq![58u8]);
    write_string(&mut w, to);
    w.push(125);
    assert(w@ =~= call_object(to@, call_data@));
    w
}

impl EthereumRPCCallCommand {
    /// The `eth_call` of one row: the call of `func` on the contract at `to`
    /// with the arguments in `data`, a JSON array, against the block that
    /// `block_number` stands for.
    ///
    /// Fails with `InvalidUtf8` where the arguments or the address are no
    /// text, with `InvalidJson` where the arguments are no JSON, with
    /// `DataNotArray` where they are no array, with `BlockNumber` where the
    /// number stands for no block, and with `Abi` where the arguments cannot
    /// be read as the inputs of the function or cannot be encoded.
    pub fn build_call(func: &Function, to: &[u8], data: &[u8], block_number: i64) -> (r: Result<
        RpcCall,
        RpcCallError,
    >)
        ensures
            match r {
                Ok(call) => is_eth_call(*func, to@, data@, block_number, call),
                Err(RpcCallError::InvalidUtf8) => !vstd::utf8::valid_utf8(data@)
                    || !vstd::utf8::valid_utf8(to@),
                Err(RpcCallError::InvalidJson(m)) => parsed_json_array(data@) == Err::<
                    Option<Vec<Vec<u8>>>,
                    String,
                >(m),
                Err(RpcCallError::DataNotArray) => parsed_json_array(data@) == Ok::<
                    Option<Vec<Vec<u8>>>,
                    String,
                >(None),
                Err(RpcCallError::BlockNumber) => block_of(block_number) is None,
                Err(RpcCallError::Abi(AbiError::Coercion(m))) => parsed_json_array(data@) matches Ok(
                    Some(args),
                ) && (args@.len() != func.inputs_view().len() || some_refused(
                    func.descriptor_view(),
                    args@,
                    m,
                )),
                Err(RpcCallError::Abi(AbiError::Encode(m))) => parsed_json_array(data@) matches Ok(
                    Some(args),
                ) && exists|values: Vec<DecodedValue>|
                    all_coerced(func.descriptor_view(), args@, values@) && #[trigger] encoded_input(
                        func.descriptor_view(),
                        values@,
                    ) == Err::<Vec<u8>, String>(m),
                Err(_) => false,
            },
    {
        if utf8_text(data).is_none() {
            return Err(RpcCallError::InvalidUtf8);
        }
        let args: Vec<Vec<u8>> = match parse_json_array(data) {
            Err(m) => {
                return Err(RpcCallError::InvalidJson(m));
            },
            Ok(None) => {
                return Err(RpcCallError::DataNotArray);
            },
            Ok(Some(args)) => args,
        };
        let block: BlockNumberOrTag = match to_block_number_or_tag(block_number) {
            Ok(block) => block,
            Err(e) => {
                return Err(e);
            },
        };
        if utf8_text(to).is_none() {
            return Err(RpcCallError::InvalidUtf8);
        }
        let values: Vec<DecodedValue> = match func.coerce_inputs(&args) {
            Ok(values) => values,
            Err(e) => {
                return Err(RpcCallError::Abi(e));
            },
        };
        let bytes: Vec<u8> = match func.abi_encode_input(&values) {
            Ok(bytes) => bytes,
            Err(e) => {
                return Err(RpcCallError::Abi(e));
            },
        };
        let mut params: Vec<Vec<u8>> = Vec::new();
        params.push(call_object_json(to, bytes.as_slice()));
        params.push(block_json(block));
        let method: String = method_name();
        let call = RpcCall { method, params };
        assert(encodes_to(func.descriptor_view(), values@, to@, call.params@[0]@));
        assert(is_eth_call(*func, to@, data@, block_number, call));
        Ok(call)
    }

    /// The report for the result of a call. An error of the call is reported
    /// as `{"error":"M"}` with its message. A value that is a JSON string is
    /// read as hexadecimal and decoded as the outputs of `func`, which are
    /// reported under `arg0`, `arg1`, …; any other value is reported as
    /// `{"error":"failed to decode result data"}`.
    ///
    /// Fails with `Hex` where the string is no hexadecimal text, and with
    /// `Abi` where the bytes do not decode.
    pub fn decode_result(func: &Function, result: &RpcResult) -> (r: Result<Vec<u8>, RpcCallError>)
        ensures
            match *result {
                RpcResult::Error(message) => r matches Ok(json) && json@ == error_report(
                    vstd::utf8::encode_utf8(message@),
                ),
                RpcResult::Value(value) => match parsed_json_string(value@) {
                    None => r matches Ok(json) && json@ == failed_to_decode(),
                    Some(text) => match hex_decoded(text@) {
                        Err(m) => r matches Err(RpcCallError::Hex(h)) && h == m,
                        Ok(bytes) => match decoded_output(func.descriptor_view(), bytes) {
                            Err(m) => r matches Err(RpcCallError::Abi(AbiError::Decode(d))) && d
                                == m,
                            Ok(values) => r matches Ok(json) && json@ == outputs_report(values@),
                        },
                    },
                },
            },
    {
        match result {
            RpcResult::Error(message) => {
                let mut w: Vec<u8> = Vec::new();
                write_error_key(&mut w);
                write_string(&mut w, message.as_str().as_bytes());
                w.push(125);
                Ok(w)
            },
            RpcResult::Value(value) => match parse_json_string(value.as_slice()) {
                None => {
                    let text: [u8; 28] = [
                        102, 97, 105, 108, 101, 100, 32, 116, 111, 32, 100, 101, 99, 111, 100,
                        101, 32, 114, 101, 115, 117, 108, 116, 32, 100, 97, 116, 97,
                    ];
                    let mut w: Vec<u8> = Vec::new();
                    write_error_key(&mut w);
                    write_string(&mut w, vstd::array::array_as_slice(&text));
                    w.push(125);
                    assert(text@ =~= seq![
                        102u8, 97u8, 105u8, 108u8, 101u8, 100u8, 32u8, 116u8, 111u8, 32u8, 100u8,
                        101u8, 99u8, 111u8, 100u8, 101u8, 32u8, 114u8, 101u8, 115u8, 117u8, 108u8,
                        116u8, 32u8, 100u8, 97u8, 116u8, 97u8,
                    ]);
                    Ok(w)
                },
                Some(text) => {
                    let bytes: Vec<u8> = match hex_decode(text.as_str()) {
                        Ok(bytes) => bytes,
                        Err(m) => {
                            return Err(RpcCallError::Hex(m));
                        },
                    };
                    let values: Vec<DecodedValue> = match func.abi_decode_output(
                        bytes.as_slice(),
                    ) {
                        Ok(values) => values,
                        Err(e) => {
                            return Err(RpcCallError::Abi(e));
                        },
                    };
                    let key: [u8; 5] = [118, 97, 108, 117, 101];
                    let mut w: Vec<u8> = Vec::new();
                    w.push(123);
                    write_object_key(&mut w, vstd::array::array_as_slice(&key), true);
                    write_values_as_object(&mut w, &values);
                    w.push(125);
                    assert(key@ =~= key_value());
                    assert(w@ =~= outputs_report(values@));
                    Ok(w)
                },
            },
        }
    }
}

/// Appends `{"error":`.
fn write_error_key(w: &mut Vec<u8>)
    ensures
        final(w)@ == old(w)@ + seq![123u8, 34u8, 101u8, 114u8, 114u8, 111u8, 114u8, 34u8, 58u8],
{
    w.push(123);
    w.push(34);
    w.push(101);
    w.push(114);
    w.push(114);
    w.push(111);
    w.push(114);
    w.push(34);
    w.push(58);
    assert(w@ =~= old(w)@ + seq![123u8, 34u8, 101u8, 114u8, 114u8, 111u8, 114u8, 34u8, 58u8]);
}

/// The text `eth_call`.
fn method_name() -> (name: String)
    ensures
        vstd::utf8::encode_utf8(name@) == eth_call_method(),
{
    let name: &'static str = "eth_call";
    proof {
        reveal_strlit("eth_call");
        assert(name@ =~= seq!['e', 't', 'h', '_', 'c', 'a', 'l', 'l']);
        lemma_eth_call_bytes();
    }
    name.to_owned()
}

/// The letters of `eth_call` are encoded as their ASCII bytes.
proof fn lemma_eth_call_bytes()
    ensures
        vstd::utf8::encode_utf8(seq!['e', 't', 'h', '_', 'c', 'a', 'l', 'l']) == eth_call_method(),
{
    let chars = seq!['e', 't', 'h', '_', 'c', 'a', 'l', 'l'];
    assert(vstd::utf8::is_ascii_chars(chars));
    vstd::utf8::is_ascii_chars_encode_utf8(chars);
    assert(vstd::utf8::encode_utf8(chars) =~= eth_call_method());
}

} // verus!
