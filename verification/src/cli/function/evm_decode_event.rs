//! Decoding of event logs, row by row.

use vstd::prelude::*;
use std::sync::Arc;
use crate::cli::utils::{first_some, lemma_first_success_wins, lemma_no_success};
use crate::evm::abi::abi_item::AbiItem;
use crate::evm::abi::abi_item_provider::{AbiItemProvider, Provider};
use crate::evm::decoded_event_ext::EventJSONExt;

verus! {

/// Decodes one event log per row against the row's candidate ABI sources.
#[derive(Debug, Clone)]
pub struct EVMDecodeEventCommand {
    /// Where the rows are read from; empty for the standard input.
    pub input_file: String,
    /// Where the results are written; empty for the standard output.
    pub output_file: String,
    /// How many providers the cache may hold.
    pub abi_provider_cache_size: u64,
}

/// `{"error": "cannot decode event"}`
pub open spec fn cannot_decode_event() -> Seq<u8> {
    seq![
        123u8, 34u8, 101u8, 114u8, 114u8, 111u8, 114u8, 34u8, 58u8, 32u8, 34u8, 99u8, 97u8, 110u8,
        110u8, 111u8, 116u8, 32u8, 100u8, 101u8, 99u8, 111u8, 100u8, 101u8, 32u8, 101u8, 118u8,
        101u8, 110u8, 116u8, 34u8, 125u8,
    ]
}

/// The report that one provider yields for a log: that of the event that the
/// provider holds for the first topic, where the log has the event's shape,
/// the first topic is the event's selector unless the event is anonymous,
/// and topics and data decode. Nothing otherwise.
pub open spec fn event_report(provider: Provider, topics: Seq<[u8; 32]>, data: Seq<u8>) -> Option<
    Seq<u8>,
> {
    match provider.item_for(topics[0]@) {
        Some(AbiItem::Event(evt)) => evt.log_report(topics, data),
        _ => None,
    }
}

/// What each candidate yields: nothing where no provider could be had for
/// its source.
pub open spec fn event_reports(
    candidates: Seq<Option<Arc<Provider>>>,
    topics: Seq<[u8; 32]>,
    data: Seq<u8>,
) -> Seq<Option<Seq<u8>>> {
    Seq::new(
        candidates.len(),
        |i: int|
            match candidates[i] {
                Some(p) => event_report(*p, topics, data),
                None => None,
            },
    )
}

/// The result of a row: the report of the first candidate that yields one,
/// and the error object where none does.
pub open spec fn event_row(
    candidates: Seq<Option<Arc<Provider>>>,
    topics: Seq<[u8; 32]>,
    data: Seq<u8>,
) -> Seq<u8> {
    match first_some(event_reports(candidates, topics, data), 0) {
        Some(report) => report,
        None => cannot_decode_event(),
    }
}

/// The report that one provider yields for a log, if it yields one.
pub fn try_decode_event(provider: &Provider, topics: &Vec<[u8; 32]>, data: &[u8]) -> (r: Option<
    Vec<u8>,
>)
    requires
        topics@.len() >= 1,
    ensures
        match r {
            Some(json) => event_report(*provider, topics@, data@) == Some(json@),
            None => event_report(*provider, topics@, data@) is None,
        },
{
    let evt = match provider.get_event(vstd::array::array_as_slice(&topics[0])) {
        Ok(evt) => evt,
        Err(_) => {
            return None;
        },
    };
    match evt.decode_log_parts_to_json_value(topics, data) {
        Ok(json) => Some(json),
        Err(_) => None,
    }
}

impl EVMDecodeEventCommand {
    /// The result of one row. `candidates` holds, for each candidate source
    /// of the row in order, the provider that could be had for it, or
    /// nothing. The first candidate whose provider yields a report gives the
    /// result; where none does, the result is
    /// `{"error": "cannot decode event"}`.
    ///
    /// The first topic selects the event.
    pub fn decode_row(
        &self,
        candidates: &Vec<Option<Arc<Provider>>>,
        topics: &Vec<[u8; 32]>,
        data: &[u8],
    ) -> (json: Vec<u8>)
        requires
            topics@.len() >= 1,
        ensures
            json@ == event_row(candidates@, topics@, data@),
    {
        let n: usize = candidates.len();
        let ghost reports = event_reports(candidates@, topics@, data@);
        let mut i: usize = 0;
        while i < n
            invariant
                0 <= i <= n,
                n == candidates@.len(),
                topics@.len() >= 1,
                reports == event_reports(candidates@, topics@, data@),
                first_some(reports, 0) == first_some(reports, i as int),
            decreases n - i,
        {
            match &candidates[i] {
                Some(provider) => {
                    match try_decode_event(provider, topics, data) {
                        Some(json) => {
                            return json;
                        },
                        None => {},
                    }
                },
                None => {},
            }
            i = i + 1;
        }
        let error: [u8; 32] = [
            123, 34, 101, 114, 114, 111, 114, 34, 58, 32, 34, 99, 97, 110, 110, 111, 116, 32, 100,
            101, 99, 111, 100, 101, 32, 101, 118, 101, 110, 116, 34, 125,
        ];
        assert(error@ =~= cannot_decode_event());
        vstd::slice::slice_to_vec(vstd::array::array_as_slice(&error))
    }
}

/// A candidate that yields no report leaves no trace: with it in front of
/// another candidate, the result of the row is that of the other candidate
/// alone.
pub proof fn lemma_failing_candidate_is_passed_over(
    a: Option<Arc<Provider>>,
    b: Option<Arc<Provider>>,
    topics: Seq<[u8; 32]>,
    data: Seq<u8>,
)
    requires
        a matches Some(p) ==> event_report(*p, topics, data) is None,
    ensures
        event_row(seq![a, b], topics, data) == event_row(seq![b], topics, data),
{
    let both = event_reports(seq![a, b], topics, data);
    let alone = event_reports(seq![b], topics, data);
    assert(both[0] is None);
    assert(both[1] == alone[0]);
    if alone[0] is Some {
        lemma_first_success_wins(both, 1);
        lemma_first_success_wins(alone, 0);
    } else {
        lemma_no_success(both, 0);
        lemma_no_success(alone, 0);
    }
}

/// Where no candidate yields a report, the result of the row is the error
/// object.
pub proof fn lemma_no_candidate_gives_the_error(
    candidates: Seq<Option<Arc<Provider>>>,
    topics: Seq<[u8; 32]>,
    data: Seq<u8>,
)
    requires
        forall|i: int|
            0 <= i < candidates.len() ==> ((#[trigger] candidates[i]) matches Some(p)
                ==> event_report(*p, topics, data) is None),
    ensures
        event_row(candidates, topics, data) == cannot_decode_event(),
{
    lemma_no_success(event_reports(candidates, topics, data), 0);
}

} // verus!
