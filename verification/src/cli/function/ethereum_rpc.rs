//! JSON-RPC calls, one per row.

use vstd::prelude::*;
use crate::evm::abi::abi_item_provider::{has_prefix, starts_with};
use crate::evm::abi::fullsig_abi_item_provider::same_bytes;
use crate::evm::abi::primitives::utf8_text;
use crate::evm::rpc::rpc_client::{RpcCall, RpcResult};
use crate::json::{parse_json, parsed_json, string_literal, write_string};

verus! {

/// Sends one JSON-RPC call per row to the endpoint of the block of rows.
#[derive(Debug, Clone)]
pub struct EthereumRPCCommand {
    /// Where the rows are read from; empty for the standard input.
    pub input_file: String,
    /// Where the results are written; empty for the standard output.
    pub output_file: String,
    /// The largest number of calls in one request.
    pub max_batch_size: usize,
}

/// Why a row cannot be turned into a call.
#[derive(Debug, Clone)]
pub enum RpcInputError {
    /// The rows of a block do not all name the same endpoint.
    EndpointNotConstant,
    /// A method or a parameter is no UTF-8 text.
    InvalidUtf8,
    /// A parameter is missing.
    MissingParam,
    /// A parameter is no JSON; the parser's message is inside.
    InvalidJson(String),
}

/// `0x`
pub open spec fn hex_prefix() -> Seq<u8> {
    seq![48u8, 120u8]
}

/// The JSON text that a parameter is read as: the parameter itself, or,
/// where it starts with `0x`, the parameter between quotes.
pub open spec fn param_text(param: Seq<u8>) -> Seq<u8> {
    if starts_with(param, hex_prefix()) {
        seq![34u8] + param + seq![34u8]
    } else {
        param
    }
}

/// What a parameter of a row is worth: its JSON value, where it is text and
/// that text, read as `param_text` says, is JSON.
pub open spec fn param_value(param: Option<Vec<u8>>) -> Result<Vec<u8>, RpcInputError> {
    match param {
        None => Err(RpcInputError::MissingParam),
        Some(bytes) => if !vstd::utf8::valid_utf8(bytes@) {
            Err(RpcInputError::InvalidUtf8)
        } else {
            match parsed_json(param_text(bytes@)) {
                Ok(json) => Ok(json),
                Err(m) => Err(RpcInputError::InvalidJson(m)),
            }
        },
    }
}

/// Every row of the block names the endpoint of the first row.
pub open spec fn constant_endpoint(endpoints: Seq<Option<Vec<u8>>>) -> bool {
    forall|i: int|
        0 <= i < endpoints.len() ==> (#[trigger] endpoints[i]) is Some && endpoints[0] is Some
            && endpoints[i]->0@ == endpoints[0]->0@
}

/// The text of a result row: `{"value":J}` for a value with the JSON text
/// `J`, `{"error":"M"}` for an error with the message `M`.
pub open spec fn result_text(result: RpcResult) -> Seq<u8> {
    match result {
        RpcResult::Value(json) => seq![123u8, 34u8, 118u8, 97u8, 108u8, 117u8, 101u8, 34u8, 58u8]
            + json@ + seq![125u8],
        RpcResult::Error(message) => seq![
            123u8,
            34u8,
            101u8,
            114u8,
            114u8,
            111u8,
            114u8,
            34u8,
            58u8,
        ] + string_literal(vstd::utf8::encode_utf8(message@)) + seq![125u8],
    }
}

impl EthereumRPCCommand {
    /// Whether every row of a block names the same endpoint, which a block
    /// must.
    pub fn check_endpoint(endpoints: &Vec<Option<Vec<u8>>>) -> (r: Result<(), RpcInputError>)
        ensures
            r is Ok <==> constant_endpoint(endpoints@),
            r matches Err(e) ==> e is EndpointNotConstant,
    {
        let n: usize = endpoints.len();
        let mut i: usize = 0;
        while i < n
            invariant
                0 <= i <= n,
                n == endpoints@.len(),
                forall|j: int|
                    0 <= j < i ==> (#[trigger] endpoints@[j]) is Some && endpoints@[0] is Some
                        && endpoints@[j]->0@ == endpoints@[0]->0@,
            decreases n - i,
        {
            let same: bool = match (&endpoints[i], &endpoints[0]) {
                (Some(a), Some(b)) => same_bytes(a.as_slice(), b.as_slice()),
                _ => false,
            };
            if !same {
                return Err(RpcInputError::EndpointNotConstant);
            }
            i = i + 1;
        }
        Ok(())
    }

    /// The JSON value of one parameter: see `param_value`.
    pub fn param_json(param: &Option<Vec<u8>>) -> (r: Result<Vec<u8>, RpcInputError>)
        ensures
            r == param_value(*param),
    {
        let bytes: &Vec<u8> = match param {
            Some(bytes) => bytes,
            None => {
                return Err(RpcInputError::MissingParam);
            },
        };
        if utf8_text(bytes.as_slice()).is_none() {
            return Err(RpcInputError::InvalidUtf8);
        }
        let prefix: [u8; 2] = [48, 120];
        assert(prefix@ =~= hex_prefix());
        let parsed = if has_prefix(bytes.as_slice(), vstd::array::array_as_slice(&prefix)) {
            let mut quoted: Vec<u8> = Vec::new();
            quoted.push(34);
            let n: usize = bytes.len();
            let mut i: usize = 0;
            while i < n
                invariant
                    0 <= i <= n,
                    n == bytes@.len(),
                    quoted@ == seq![34u8] + bytes@.take(i as int),
                decreases n - i,
            {
                quoted.push(bytes[i]);
                assert(bytes@.take(i + 1) =~= bytes@.take(i as int).push(bytes@[i as int]));
                i = i + 1;
            }
            assert(bytes@.take(n as int) =~= bytes@);
            quoted.push(34);
            assert(quoted@ =~= param_text(bytes@));
            parse_json(quoted.as_slice())
        } else {
            parse_json(bytes.as_slice())
        };
        match parsed {
            Ok(json) => Ok(json),
            Err(m) => Err(RpcInputError::InvalidJson(m)),
        }
    }

    /// The call of one row: the method as text, and each parameter as its
    /// JSON value.
    ///
    /// Fails with `InvalidUtf8` where the method is no text, and otherwise
    /// with the error of the first parameter that has one.
    pub fn build_call(method: &[u8], params: &Vec<Option<Vec<u8>>>) -> (r: Result<
        RpcCall,
        RpcInputError,
    >)
        ensures
            match r {
                Ok(call) => {
                    &&& vstd::utf8::valid_utf8(method@)
                    &&& vstd::utf8::encode_utf8(call.method@) == method@
                    &&& call.params@.len() == params@.len()
                    &&& forall|i: int|
                        0 <= i < params@.len() ==> param_value(#[trigger] params@[i]) == Ok::<
                            Vec<u8>,
                            RpcInputError,
                        >(call.params@[i])
                },
                Err(e) => !vstd::utf8::valid_utf8(method@) && e is InvalidUtf8 || vstd::utf8::valid_utf8(
                    method@,
                ) && exists|i: int| first_bad_param(params@, i, e),
            },
    {
        let name: String = match utf8_text(method) {
            Some(text) => text.to_owned(),
            None => {
                return Err(RpcInputError::InvalidUtf8);
            },
        };
        let n: usize = params.len();
        let mut values: Vec<Vec<u8>> = Vec::new();
        let mut i: usize = 0;
        while i < n
            invariant
                0 <= i <= n,
                n == params@.len(),
                vstd::utf8::valid_utf8(method@),
                values@.len() == i,
                forall|j: int|
                    0 <= j < i ==> param_value(#[trigger] params@[j]) == Ok::<
                        Vec<u8>,
                        RpcInputError,
                    >(values@[j]),
            decreases n - i,
        {
            match EthereumRPCCommand::param_json(&params[i]) {
                Ok(json) => {
                    values.push(json);
                },
                Err(e) => {
                    assert(first_bad_param(params@, i as int, e));
                    return Err(e);
                },
            }
            i = i + 1;
        }
        Ok(RpcCall { method: name, params: values })
    }

    /// The text of the result row of a call.
    pub fn format_result(result: &RpcResult) -> (json: Vec<u8>)
        ensures
            json@ == result_text(*result),
    {
        let mut w: Vec<u8> = Vec::new();
        w.push(123);
        w.push(34);
        match result {
            RpcResult::Value(json) => {
                w.push(118);
                w.push(97);
                w.push(108);
                w.push(117);
                w.push(101);
                w.push(34);
                w.push(58);
                let text: &[u8] = json.as_slice();
                let n: usize = text.len();
                let ghost head = w@;
                let mut i: usize = 0;
                while i < n
                    invariant
                        0 <= i <= n,
                        n == text@.len(),
                        w@ == head + text@.take(i as int),
                    decreases n - i,
                {
                    w.push(text[i]);
                    assert(text@.take(i + 1) =~= text@.take(i as int).push(text@[i as int]));
                    i = i + 1;
                }
                assert(text@.take(n as int) =~= text@);
                w.push(125);
                assert(w@ =~= result_text(*result));
            },
            RpcResult::Error(message) => {
                w.push(101);
                w.push(114);
                w.push(114);
                w.push(111);
                w.push(114);
                w.push(34);
                w.push(58);
                write_string(&mut w, message.as_str().as_bytes());
                w.push(125);
                assert(w@ =~= result_text(*result));
            },
        }
        w
    }
}

/// The parameter at `i` has the error `e`, and no parameter before it has
/// one.
pub open spec fn first_bad_param(params: Seq<Option<Vec<u8>>>, i: int, e: RpcInputError) -> bool {
    &&& 0 <= i < params.len()
    &&& param_value(params[i]) == Err::<Vec<u8>, RpcInputError>(e)
    &&& forall|j: int| 0 <= j < i ==> param_value(#[trigger] params[j]) is Ok
}

} // verus!
