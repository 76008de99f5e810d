//! Decoding of function calls, row by row.

use vstd::prelude::*;
use std::sync::Arc;
use crate::cli::utils::{first_some, lemma_first_success_wins, lemma_no_success};
use crate::evm::abi::abi_item::AbiItem;
use crate::evm::abi::abi_item_provider::{AbiItemProvider, Provider};
use crate::evm::abi::codec::{decoded_input, decoded_output};
use crate::evm::abi::json_encoding::{call_text, encode_call};

verus! {

/// Decodes one call, its input and its output, per row against the row's
/// candidate ABI sources.
#[derive(Debug, Clone)]
pub struct EVMDecodeCallCommand {
    /// Where the rows are read from; empty for the standard input.
    pub input_file: String,
    /// Where the results are written; empty for the standard output.
    pub output_file: String,
    /// How many providers the cache may hold.
    pub abi_provider_cache_size: usize,
}

/// `{"error": "cannot decode call"}`
pub open spec fn cannot_decode_call() -> Seq<u8> {
    seq![
        123u8, 34u8, 101u8, 114u8, 114u8, 111u8, 114u8, 34u8, 58u8, 32u8, 34u8, 99u8, 97u8, 110u8,
        110u8, 111u8, 116u8, 32u8, 100u8, 101u8, 99u8, 111u8, 100u8, 101u8, 32u8, 99u8, 97u8,
        108u8, 108u8, 34u8, 125u8,
    ]
}

/// The report that one provider yields for a call: that of the function that
/// the provider holds for the first four bytes of the input, where the rest
/// of the input decodes as its inputs and the output as its outputs. Nothing
/// where the provider holds no function for the selector, or where either
/// does not decode.
pub open spec fn call_report(provider: Provider, input: Seq<u8>, output: Seq<u8>) -> Option<
    Seq<u8>,
> {
    match provider.item_for(input.subrange(0, 4)) {
        Some(AbiItem::Function(func)) => match (
            decoded_input(func.descriptor_view(), input.skip(4)),
            decoded_output(func.descriptor_view(), output),
        ) {
            (Ok(ins), Ok(outs)) => Some(
                call_text(func.sig_view(), func.fullsig_view(), ins@, Some(outs@)),
            ),
            _ => None,
        },
        _ => None,
    }
}

/// What each candidate yields: nothing where no provider could be had for
/// its source.
pub open spec fn call_reports(
    candidates: Seq<Option<Arc<Provider>>>,
    input: Seq<u8>,
    output: Seq<u8>,
) -> Seq<Option<Seq<u8>>> {
    Seq::new(
        candidates.len(),
        |i: int|
            match candidates[i] {
                Some(p) => call_report(*p, input, output),
                None => None,
            },
    )
}

/// The result of a row: the report of the first candidate that yields one,
/// and the error object where none does.
pub open spec fn call_row(
    candidates: Seq<Option<Arc<Provider>>>,
    input: Seq<u8>,
    output: Seq<u8>,
) -> Seq<u8> {
    match first_some(call_reports(candidates, input, output), 0) {
        Some(report) => report,
        None => cannot_decode_call(),
    }
}

/// The report that one provider yields for a call, if it yields one.
pub fn try_decode_call(provider: &Provider, input: &[u8], output: &[u8]) -> (r: Option<Vec<u8>>)
    requires
        input@.len() >= 4,
    ensures
        match r {
            Some(json) => call_report(*provider, input@, output@) == Some(json@),
            None => call_report(*provider, input@, output@) is None,
        },
{
    let selector: &[u8] = vstd::slice::slice_subrange(input, 0, 4);
    let payload: &[u8] = vstd::slice::slice_subrange(input, 4, input.len());
    assert(payload@ =~= input@.skip(4));
    let func = match provider.get_function(selector) {
        Ok(func) => func,
        Err(_) => {
            return None;
        },
    };
    let ins = match func.abi_decode_input(payload) {
        Ok(ins) => ins,
        Err(_) => {
            return None;
        },
    };
    let outs = match func.abi_decode_output(output) {
        Ok(outs) => outs,
        Err(_) => {
            return None;
        },
    };
    Some(encode_call(func, &ins, Some(&outs)))
}

impl EVMDecodeCallCommand {
    /// The result of one row. `candidates` holds, for each candidate source
    /// of the row in order, the provider that could be had for it, or
    /// nothing. The first candidate whose provider yields a report gives the
    /// result; where none does, the result is
    /// `{"error": "cannot decode call"}`.
    ///
    /// `input` starts with the four bytes of the selector.
    pub fn decode_row(
        &self,
        candidates: &Vec<Option<Arc<Provider>>>,
        input: &[u8],
        output: &[u8],
    ) -> (json: Vec<u8>)
        requires
            input@.len() >= 4,
        ensures
            json@ == call_row(candidates@, input@, output@),
    {
        let n: usize = candidates.len();
        let ghost reports = call_reports(candidates@, input@, output@);
        let mut i: usize = 0;
        while i < n
            invariant
                0 <= i <= n,
                n == candidates@.len(),
                input@.len() >= 4,
                reports == call_reports(candidates@, input@, output@),
                first_some(reports, 0) == first_some(reports, i as int),
            decreases n - i,
        {
            match &candidates[i] {
                Some(provider) => {
                    match try_decode_call(provider, input, output) {
                        Some(json) => {
                            return json;
                        },
                        None => {},
                    }
                },
                None => {},
            }
            i = i + 1;
        }
        let error: [u8; 31] = [
            123, 34, 101, 114, 114, 111, 114, 34, 58, 32, 34, 99, 97, 110, 110, 111, 116, 32, 100,
            101, 99, 111, 100, 101, 32, 99, 97, 108, 108, 34, 125,
        ];
        assert(error@ =~= cannot_decode_call());
        vstd::slice::slice_to_vec(vstd::array::array_as_slice(&error))
    }
}

/// A candidate that yields no report leaves no trace: with it in front of
/// another candidate, the result of the row is that of the other candidate
/// alone. It does not matter why it yields none: because no provider could
/// be had for it, because its provider holds no function for the selector,
/// or because the bytes do not decode.
pub proof fn lemma_failing_candidate_is_passed_over(
    a: Option<Arc<Provider>>,
    b: Option<Arc<Provider>>,
    input: Seq<u8>,
    output: Seq<u8>,
)
    requires
        a matches Some(p) ==> call_report(*p, input, output) is None,
    ensures
        call_row(seq![a, b], input, output) == call_row(seq![b], input, output),
{
    let both = call_reports(seq![a, b], input, output);
    let alone = call_reports(seq![b], input, output);
    assert(both[0] is None);
    assert(both[1] == alone[0]);
    if alone[0] is Some {
        lemma_first_success_wins(both, 1);
        lemma_first_success_wins(alone, 0);
    } else {
        lemma_no_success(both, 0);
        lemma_no_success(alone, 0);
    }
}

/// Where no candidate yields a report, the result of the row is the error
/// object.
pub proof fn lemma_no_candidate_gives_the_error(
    candidates: Seq<Option<Arc<Provider>>>,
    input: Seq<u8>,
    output: Seq<u8>,
)
    requires
        forall|i: int|
            0 <= i < candidates.len() ==> ((#[trigger] candidates[i]) matches Some(p)
                ==> call_report(*p, input, output) is None),
    ensures
        call_row(candidates, input, output) == cannot_decode_call(),
{
    lemma_no_success(call_reports(candidates, input, output), 0);
}

} // verus!
