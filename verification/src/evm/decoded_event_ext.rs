//! The report of an event as methods of the event and of its decoded log.

use vstd::prelude::*;
use crate::evm::abi::codec::{decoded_log, DecodedEvent};
use crate::evm::abi::error::AbiError;
use crate::evm::abi::event::{log_shape_fits, Event};
use crate::evm::abi::json_encoding::{
    encode_event, event_args, event_text, lemma_full_log_lacks_nothing, shortage,
};
use crate::evm::abi::value::DecodedValue;

verus! {

/// The report of a decoded log of an event, or that the log lacks a value
/// for a parameter of the event and whether the first parameter without a
/// value is indexed.
pub open spec fn event_report_of(evt: Event, indexed: Seq<DecodedValue>, body: Seq<DecodedValue>) -> Result<
    Seq<u8>,
    bool,
> {
    match shortage(
        evt.inputs_view(),
        indexed.len() as int,
        body.len() as int,
        evt.inputs_view().len() as int,
    ) {
        Some(kind) => Err(kind),
        None => Ok(
            event_text(
                evt.sig_view(),
                evt.fullsig_view(),
                event_args(evt.inputs_view(), indexed, body),
            ),
        ),
    }
}

/// A decoded log that can be written as the report of its event.
pub trait DecodedEventExt {
    /// The values of the indexed parameters.
    spec fn indexed_values(&self) -> Seq<DecodedValue>;

    /// The values of the other parameters.
    spec fn body_values(&self) -> Seq<DecodedValue>;

    /// Appends the report of the log as a log of `evt`:
    /// `{"value":{"signature":S,"fullsig":F,"inputs":{…}}}`.
    ///
    /// Fails exactly when the log has no value left for one of the
    /// parameters of the event, with `NotEnoughIndexed` or
    /// `NotEnoughUnindexed`, and then appends nothing.
    fn format_as_json(&self, evt: &Event, w: &mut Vec<u8>) -> (r: Result<(), AbiError>)
        ensures
            match event_report_of(*evt, self.indexed_values(), self.body_values()) {
                Ok(report) => r is Ok && final(w)@ == old(w)@ + report,
                Err(true) => r matches Err(AbiError::NotEnoughIndexed) && final(w)@ == old(w)@,
                Err(false) => r matches Err(AbiError::NotEnoughUnindexed) && final(w)@ == old(w)@,
            },
    ;
}

impl DecodedEventExt for DecodedEvent {
    open spec fn indexed_values(&self) -> Seq<DecodedValue> {
        self.indexed@
    }

    open spec fn body_values(&self) -> Seq<DecodedValue> {
        self.body@
    }

    fn format_as_json(&self, evt: &Event, w: &mut Vec<u8>) -> (r: Result<(), AbiError>) {
        match encode_event(evt, self) {
            Ok(json) => {
                let mut json = json;
                w.append(&mut json);
                Ok(())
            },
            Err(e) => Err(e),
        }
    }
}

/// An event that decodes its logs straight to their report.
pub trait EventJSONExt {
    /// The report of a log for the event; nothing where the log does not
    /// have the shape of the event, is not the event's, or does not decode.
    spec fn log_report(&self, topics: Seq<[u8; 32]>, data: Seq<u8>) -> Option<Seq<u8>>;

    /// Whether the log is one of the event's and the decoder decodes it.
    spec fn decodes(&self, topics: Seq<[u8; 32]>, data: Seq<u8>) -> bool;

    /// Decodes a log and writes its report.
    ///
    /// Fails exactly when `decode_log_parts` fails, and as it fails: a log
    /// that decodes holds a value for every parameter.
    fn decode_log_parts_to_json_value(&self, topics: &Vec<[u8; 32]>, data: &[u8]) -> (r: Result<
        Vec<u8>,
        AbiError,
    >)
        ensures
            match r {
                Ok(json) => self.log_report(topics@, data@) == Some(json@),
                Err(_) => self.log_report(topics@, data@) is None,
            },
            r is Ok <==> self.decodes(topics@, data@),
            r is Ok || r matches Err(AbiError::LogShape { .. }) || r matches Err(
                AbiError::SignatureMismatch,
            ) || r matches Err(AbiError::Decode(_)),
    ;
}

impl EventJSONExt for Event {
    open spec fn log_report(&self, topics: Seq<[u8; 32]>, data: Seq<u8>) -> Option<Seq<u8>> {
        if !log_shape_fits(self.anonymous_view(), self.inputs_view(), topics.len() as int) || (
        !self.anonymous_view() && topics[0]@ != self.selector_view()) {
            None
        } else {
            match decoded_log(self.descriptor_view(), topics, data) {
                Ok(d) => match event_report_of(*self, d.indexed@, d.body@) {
                    Ok(report) => Some(report),
                    Err(_) => None,
                },
                Err(_) => None,
            }
        }
    }

    open spec fn decodes(&self, topics: Seq<[u8; 32]>, data: Seq<u8>) -> bool {
        self.accepts(topics) && decoded_log(self.descriptor_view(), topics, data) is Ok
    }

    fn decode_log_parts_to_json_value(&self, topics: &Vec<[u8; 32]>, data: &[u8]) -> (r: Result<
        Vec<u8>,
        AbiError,
    >) {
        let decoded = match self.decode_log_parts(topics, data) {
            Ok(decoded) => decoded,
            Err(e) => {
                return Err(e);
            },
        };
        proof {
            lemma_full_log_lacks_nothing(
                self.inputs_view(),
                decoded.indexed@.len() as int,
                decoded.body@.len() as int,
                self.inputs_view().len() as int,
            );
        }
        encode_event(self, &decoded)
    }
}

} // verus!
