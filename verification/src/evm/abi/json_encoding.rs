//! The JSON that reports a decoded call or event, written byte by byte.
//!
//! The text is compact: no space stands between its tokens. The order of the
//! keys is part of the format.

use vstd::prelude::*;
use crate::evm::abi::codec::{DecodedEvent, Param};
use crate::evm::abi::error::AbiError;
use crate::evm::abi::event::{indexed_among, indexed_count, lemma_indexed_among_grows, Event};
use crate::evm::abi::function::Function;
use crate::evm::abi::value::{
    arg_key, array_text, fields_text, items_text, member_text, members_text, object_text,
    separator, struct_text, value_text, DecodedValue,
};
use crate::evm::abi::word::{fits_u32, low_i32_of, write_int_decimal, write_uint_decimal};
use crate::json::{
    raw_literal, string_literal, write_hex_string, write_int, write_nat,
    write_single_fragment_string, write_string,
};

verus! {

/// `value`
pub open spec fn key_value() -> Seq<u8> {
    seq![118u8, 97u8, 108u8, 117u8, 101u8]
}

/// `signature`
pub open spec fn key_signature() -> Seq<u8> {
    seq![115u8, 105u8, 103u8, 110u8, 97u8, 116u8, 117u8, 114u8, 101u8]
}

/// `fullsig`
pub open spec fn key_fullsig() -> Seq<u8> {
    seq![102u8, 117u8, 108u8, 108u8, 115u8, 105u8, 103u8]
}

/// `inputs`
pub open spec fn key_inputs() -> Seq<u8> {
    seq![105u8, 110u8, 112u8, 117u8, 116u8, 115u8]
}

/// `outputs`
pub open spec fn key_outputs() -> Seq<u8> {
    seq![111u8, 117u8, 116u8, 112u8, 117u8, 116u8, 115u8]
}

/// `,"outputs":{…}` where a call has outputs, nothing where it has none.
pub open spec fn outputs_text(outputs: Option<Seq<DecodedValue>>) -> Seq<u8> {
    match outputs {
        Some(values) => seq![44u8] + member_text(key_outputs(), object_text(values)),
        None => Seq::empty(),
    }
}

/// The signature and the full signature of an item, as the first two members
/// of its report.
pub open spec fn signatures_text(sig: Seq<char>, fullsig: Seq<char>) -> Seq<u8> {
    member_text(key_signature(), string_literal(vstd::utf8::encode_utf8(sig))) + seq![44u8]
        + member_text(key_fullsig(), string_literal(vstd::utf8::encode_utf8(fullsig)))
}

/// What the report of a call and of an event start with:
/// `{"value":{"signature":S,"fullsig":F,"inputs":`.
pub open spec fn report_head(sig: Seq<char>, fullsig: Seq<char>) -> Seq<u8> {
    seq![123u8] + raw_literal(key_value()) + seq![58u8, 123u8] + signatures_text(sig, fullsig)
        + seq![44u8] + raw_literal(key_inputs()) + seq![58u8]
}

/// The report of a decoded call:
/// `{"value":{"signature":S,"fullsig":F,"inputs":{…},"outputs":{…}}}`, the
/// last member only where there are outputs.
pub open spec fn call_text(
    sig: Seq<char>,
    fullsig: Seq<char>,
    inputs: Seq<DecodedValue>,
    outputs: Option<Seq<DecodedValue>>,
) -> Seq<u8> {
    report_head(sig, fullsig) + object_text(inputs) + outputs_text(outputs) + seq![125u8, 125u8]
}

/// The report of values under their names: `{"value":{…}}`.
pub open spec fn values_text(values: Seq<(String, DecodedValue)>) -> Seq<u8> {
    seq![123u8] + member_text(key_value(), struct_text(values)) + seq![125u8]
}

/// The value of the `i`-th parameter of a decoded event: the next indexed
/// value where the parameter is indexed, the next value of the body where it
/// is not.
pub open spec fn event_arg(
    params: Seq<Param>,
    indexed: Seq<DecodedValue>,
    body: Seq<DecodedValue>,
    i: int,
) -> DecodedValue {
    if params[i].indexed {
        indexed[indexed_among(params, i) as int]
    } else {
        body[i - indexed_among(params, i)]
    }
}

/// The values of a decoded event in the order of the declaration.
pub open spec fn event_args(
    params: Seq<Param>,
    indexed: Seq<DecodedValue>,
    body: Seq<DecodedValue>,
) -> Seq<DecodedValue> {
    Seq::new(params.len(), |i: int| event_arg(params, indexed, body, i))
}

/// Whether the decoded event lacks a value for one of the first `n`
/// parameters, and if so whether the first parameter without a value is an
/// indexed one.
pub open spec fn shortage(params: Seq<Param>, indexed: int, body: int, n: int) -> Option<bool>
    decreases n,
{
    if n <= 0 || n > params.len() {
        None
    } else {
        match shortage(params, indexed, body, n - 1) {
            Some(kind) => Some(kind),
            None => if params[n - 1].indexed {
                if indexed_among(params, n - 1) >= indexed {
                    Some(true)
                } else {
                    None
                }
            } else {
                if n - 1 - indexed_among(params, n - 1) >= body {
                    Some(false)
                } else {
                    None
                }
            },
        }
    }
}

/// A decoded event with a value for each indexed parameter and a value for
/// each of the others lacks none.
pub proof fn lemma_full_log_lacks_nothing(params: Seq<Param>, indexed: int, body: int, n: int)
    requires
        indexed == indexed_count(params),
        body == params.len() - indexed_count(params),
        0 <= n <= params.len(),
    ensures
        shortage(params, indexed, body, n) is None,
    decreases n,
{
    if n > 0 {
        lemma_full_log_lacks_nothing(params, indexed, body, n - 1);
        lemma_indexed_among_grows(params, n - 1, n);
        lemma_indexed_among_grows(params, n, params.len() as int);
    }
}

/// The report of a decoded event:
/// `{"value":{"signature":S,"fullsig":F,"inputs":{…}}}`.
pub open spec fn event_text(sig: Seq<char>, fullsig: Seq<char>, args: Seq<DecodedValue>) -> Seq<
    u8,
> {
    call_text(sig, fullsig, args, None)
}

/// Appends `"key":`, with a comma in front unless it is the first key of its
/// object. The key is written as it is.
pub fn write_object_key(w: &mut Vec<u8>, key: &[u8], first: bool)
    ensures
        final(w)@ == old(w)@ + (if first {
            Seq::<u8>::empty()
        } else {
            seq![44u8]
        }) + raw_literal(key@) + seq![58u8],
{
    if !first {
        w.push(44);
    }
    write_single_fragment_string(w, key);
    w.push(58);
}

/// Appends the JSON text of one value.
pub fn write_value(w: &mut Vec<u8>, value: &DecodedValue)
    ensures
        final(w)@ == old(w)@ + value_text(*value),
    decreases *value, 0int,
{
    match value {
        DecodedValue::Bool(b) => {
            if *b {
                w.push(116);
                w.push(114);
                w.push(117);
                w.push(101);
            } else {
                w.push(102);
                w.push(97);
                w.push(108);
                w.push(115);
                w.push(101);
            }
            assert(w@ =~= old(w)@ + value_text(*value));
        },
        DecodedValue::String(s) => {
            write_string(w, s.as_str().as_bytes());
        },
        DecodedValue::Bytes(b) => {
            write_hex_string(w, b.as_slice());
        },
        DecodedValue::FixedBytes(word, _) => {
            write_hex_string(w, vstd::array::array_as_slice(word));
        },
        DecodedValue::Address(a) => {
            write_hex_string(w, vstd::array::array_as_slice(a));
        },
        DecodedValue::Function(f) => {
            write_hex_string(w, vstd::array::array_as_slice(f));
        },
        DecodedValue::Uint(word, _) => {
            if fits_u32(word) {
                write_uint_decimal(w, word);
            } else {
                w.push(0x22);
                write_uint_decimal(w, word);
                w.push(0x22);
                assert(w@ =~= old(w)@ + value_text(*value));
            }
        },
        DecodedValue::Int(word, bits) => {
            if *bits <= 32 {
                write_int(w, low_i32_of(word));
            } else {
                w.push(0x22);
                write_int_decimal(w, word);
                w.push(0x22);
                assert(w@ =~= old(w)@ + value_text(*value));
            }
        },
        DecodedValue::Array(items) => {
            write_values_as_array(w, items);
        },
        DecodedValue::FixedArray(items) => {
            write_values_as_array(w, items);
        },
        DecodedValue::Tuple(items) => {
            write_values_as_object(w, items);
        },
        DecodedValue::CustomStruct { name, fields } => {
            write_fields_as_object(w, fields);
        },
    }
}

/// Appends a JSON array of the values.
pub fn write_values_as_array(w: &mut Vec<u8>, values: &Vec<DecodedValue>)
    ensures
        final(w)@ == old(w)@ + array_text(values@),
    decreases *values, 0int,
{
    w.push(91);
    let n: usize = values.len();
    let mut i: usize = 0;
    while i < n
        invariant
            0 <= i <= n,
            n == values@.len(),
            w@ == old(w)@ + seq![91u8] + items_text(values@, i as int),
        decreases n - i,
    {
        if i > 0 {
            w.push(44);
        }
        write_value(w, &values[i]);
        assert(w@ =~= old(w)@ + seq![91u8] + items_text(values@, i + 1));
        i = i + 1;
    }
    w.push(93);
    assert(w@ =~= old(w)@ + array_text(values@));
}

/// Appends `"key":value`, with a comma in front unless it is the first
/// member of its object.
pub fn write_key_value(w: &mut Vec<u8>, key: &[u8], value: &DecodedValue, first: bool)
    ensures
        final(w)@ == old(w)@ + (if first {
            Seq::<u8>::empty()
        } else {
            seq![44u8]
        }) + member_text(key@, value_text(*value)),
    decreases *value, 1int,
{
    write_object_key(w, key, first);
    write_value(w, value);
    assert(w@ =~= old(w)@ + (if first {
        Seq::<u8>::empty()
    } else {
        seq![44u8]
    }) + member_text(key@, value_text(*value)));
}

/// Appends `"key":"value"`, the value escaped, with a comma in front unless
/// it is the first member of its object.
pub fn write_key_value_str(w: &mut Vec<u8>, key: &[u8], value: &str, first: bool)
    ensures
        final(w)@ == old(w)@ + (if first {
            Seq::<u8>::empty()
        } else {
            seq![44u8]
        }) + member_text(key@, string_literal(vstd::utf8::encode_utf8(value@))),
{
    write_object_key(w, key, first);
    write_string(w, value.as_bytes());
    assert(w@ =~= old(w)@ + (if first {
        Seq::<u8>::empty()
    } else {
        seq![44u8]
    }) + member_text(key@, string_literal(vstd::utf8::encode_utf8(value@))));
}

/// Appends the key of the `i`-th member of a tuple: `"arg<i>":`.
fn write_arg_key(w: &mut Vec<u8>, i: usize)
    ensures
        final(w)@ == old(w)@ + separator(i as int) + raw_literal(arg_key(i as nat)) + seq![58u8],
{
    if i > 0 {
        w.push(44);
    }
    w.push(0x22);
    w.push(97);
    w.push(114);
    w.push(103);
    write_nat(w, i as u64);
    w.push(0x22);
    w.push(58);
    assert(w@ =~= old(w)@ + separator(i as int) + raw_literal(arg_key(i as nat)) + seq![58u8]);
}

/// Appends the JSON object of a tuple: the values under the keys `arg0`,
/// `arg1`, ….
pub fn write_values_as_object(w: &mut Vec<u8>, values: &Vec<DecodedValue>)
    ensures
        final(w)@ == old(w)@ + object_text(values@),
    decreases *values, 0int,
{
    w.push(123);
    let n: usize = values.len();
    let mut i: usize = 0;
    while i < n
        invariant
            0 <= i <= n,
            n == values@.len(),
            w@ == old(w)@ + seq![123u8] + members_text(values@, i as int),
        decreases n - i,
    {
        write_arg_key(w, i);
        write_value(w, &values[i]);
        assert(w@ =~= old(w)@ + seq![123u8] + members_text(values@, i + 1));
        i = i + 1;
    }
    w.push(125);
    assert(w@ =~= old(w)@ + object_text(values@));
}

/// Appends the JSON object of a struct: the fields under their declared
/// names.
pub fn write_fields_as_object(w: &mut Vec<u8>, fields: &Vec<(String, DecodedValue)>)
    ensures
        final(w)@ == old(w)@ + struct_text(fields@),
    decreases *fields, 0int,
{
    w.push(123);
    let n: usize = fields.len();
    let mut i: usize = 0;
    while i < n
        invariant
            0 <= i <= n,
            n == fields@.len(),
            w@ == old(w)@ + seq![123u8] + fields_text(fields@, i as int),
        decreases n - i,
    {
        write_key_value(w, fields[i].0.as_str().as_bytes(), &fields[i].1, i == 0);
        assert(w@ =~= old(w)@ + seq![123u8] + fields_text(fields@, i + 1));
        i = i + 1;
    }
    w.push(125);
    assert(w@ =~= old(w)@ + struct_text(fields@));
}

/// Appends `{"value":{"signature":S,"fullsig":F,"inputs":`: what the report
/// of a call and of an event start with.
fn write_report_head(w: &mut Vec<u8>, sig: &str, fullsig: &str)
    ensures
        final(w)@ == old(w)@ + report_head(sig@, fullsig@),
{
    let value: [u8; 5] = [118, 97, 108, 117, 101];
    let signature: [u8; 9] = [115, 105, 103, 110, 97, 116, 117, 114, 101];
    let full: [u8; 7] = [102, 117, 108, 108, 115, 105, 103];
    let inputs: [u8; 6] = [105, 110, 112, 117, 116, 115];
    w.push(123);
    write_object_key(w, vstd::array::array_as_slice(&value), true);
    w.push(123);
    write_key_value_str(w, vstd::array::array_as_slice(&signature), sig, true);
    write_key_value_str(w, vstd::array::array_as_slice(&full), fullsig, false);
    write_object_key(w, vstd::array::array_as_slice(&inputs), false);
    assert(value@ =~= key_value());
    assert(signature@ =~= key_signature());
    assert(full@ =~= key_fullsig());
    assert(inputs@ =~= key_inputs());
    assert(w@ =~= old(w)@ + report_head(sig@, fullsig@));
}

/// The report of a decoded call: the function's two signatures, the inputs
/// under `arg0`, `arg1`, … and, where they are given, the outputs, numbered
/// from 0 again.
pub fn encode_call(
    func: &Function,
    inputs: &Vec<DecodedValue>,
    outputs: Option<&Vec<DecodedValue>>,
) -> (json: Vec<u8>)
    ensures
        json@ == call_text(
            func.sig_view(),
            func.fullsig_view(),
            inputs@,
            match outputs {
                Some(values) => Some(values@),
                None => None,
            },
        ),
{
    let mut w: Vec<u8> = Vec::with_capacity(1024);
    write_report_head(&mut w, func.sig(), func.fullsig());
    write_values_as_object(&mut w, inputs);
    let ghost given: Option<Seq<DecodedValue>> = match outputs {
        Some(values) => Some(values@),
        None => None,
    };
    let ghost body = w@;
    match outputs {
        Some(values) => {
            let key: [u8; 7] = [111, 117, 116, 112, 117, 116, 115];
            write_object_key(&mut w, vstd::array::array_as_slice(&key), false);
            write_values_as_object(&mut w, values);
            assert(key@ =~= key_outputs());
            assert(w@ =~= body + outputs_text(given));
        },
        None => {
            assert(w@ =~= body + outputs_text(given));
        },
    }
    let ghost members = w@;
    w.push(125);
    w.push(125);
    assert(w@ =~= members + seq![125u8, 125u8]);
    w
}

/// The report of values under their names: `{"value":{"name":value,…}}`.
pub fn encode_values(values: &Vec<(String, DecodedValue)>) -> (json: Vec<u8>)
    ensures
        json@ == values_text(values@),
{
    let mut w: Vec<u8> = Vec::with_capacity(1024);
    let key: [u8; 5] = [118, 97, 108, 117, 101];
    w.push(123);
    write_object_key(&mut w, vstd::array::array_as_slice(&key), true);
    write_fields_as_object(&mut w, values);
    w.push(125);
    assert(key@ =~= key_value());
    assert(w@ =~= values_text(values@));
    w
}

/// The report of a decoded event: the event's two signatures and its values
/// under `arg0`, `arg1`, … in the order of the declaration, whether indexed
/// or not.
///
/// Fails exactly when the decoded event has no value left for one of the
/// declared parameters: with `NotEnoughIndexed` where the first parameter
/// without a value is indexed, with `NotEnoughUnindexed` where it is not.
pub fn encode_event(evt: &Event, dec_evt: &DecodedEvent) -> (r: Result<Vec<u8>, AbiError>)
    ensures
        match shortage(
            evt.inputs_view(),
            dec_evt.indexed@.len() as int,
            dec_evt.body@.len() as int,
            evt.inputs_view().len() as int,
        ) {
            Some(true) => r matches Err(AbiError::NotEnoughIndexed),
            Some(false) => r matches Err(AbiError::NotEnoughUnindexed),
            None => r matches Ok(json) && json@ == event_text(
                evt.sig_view(),
                evt.fullsig_view(),
                event_args(evt.inputs_view(), dec_evt.indexed@, dec_evt.body@),
            ),
        },
{
    let mut w: Vec<u8> = Vec::with_capacity(1024);
    write_report_head(&mut w, evt.sig(), evt.fullsig());
    w.push(123);
    let params: &Vec<Param> = evt.inputs();
    let n: usize = params.len();
    let ghost args = event_args(params@, dec_evt.indexed@, dec_evt.body@);
    let ghost head = w@;
    assert(head =~= report_head(evt.sig_view(), evt.fullsig_view()) + seq![123u8]);
    let mut next_indexed: usize = 0;
    let mut i: usize = 0;
    while i < n
        invariant
            0 <= i <= n,
            n == params@.len(),
            params@ == evt.inputs_view(),
            args == event_args(params@, dec_evt.indexed@, dec_evt.body@),
            next_indexed == indexed_among(params@, i as int),
            next_indexed <= i,
            shortage(params@, dec_evt.indexed@.len() as int, dec_evt.body@.len() as int, i as int)
                is None,
            w@ == head + members_text(args, i as int),
            head == report_head(evt.sig_view(), evt.fullsig_view()) + seq![123u8],
            args.len() == n,
        decreases n - i,
    {
        let value: &DecodedValue = if params[i].indexed {
            if next_indexed >= dec_evt.indexed.len() {
                proof {
                    lemma_shortage_stays(
                        params@,
                        dec_evt.indexed@.len() as int,
                        dec_evt.body@.len() as int,
                        i + 1,
                        n as int,
                    );
                }
                return Err(AbiError::NotEnoughIndexed);
            }
            &dec_evt.indexed[next_indexed]
        } else {
            if i - next_indexed >= dec_evt.body.len() {
                proof {
                    lemma_shortage_stays(
                        params@,
                        dec_evt.indexed@.len() as int,
                        dec_evt.body@.len() as int,
                        i + 1,
                        n as int,
                    );
                }
                return Err(AbiError::NotEnoughUnindexed);
            }
            &dec_evt.body[i - next_indexed]
        };
        assert(*value == args[i as int]);
        write_arg_key(&mut w, i);
        write_value(&mut w, value);
        assert(w@ =~= head + members_text(args, i + 1));
        if params[i].indexed {
            next_indexed = next_indexed + 1;
        }
        i = i + 1;
    }
    w.push(125);
    assert(w@ =~= report_head(evt.sig_view(), evt.fullsig_view()) + object_text(args));
    let ghost members = w@;
    w.push(125);
    w.push(125);
    assert(w@ =~= members + outputs_text(None) + seq![125u8, 125u8]);
    Ok(w)
}

/// A shortage among the first `n` parameters is the shortage among the first
/// `m`, for every larger `m`.
pub proof fn lemma_shortage_stays(params: Seq<Param>, indexed: int, body: int, n: int, m: int)
    requires
        0 <= n <= m <= params.len(),
        shortage(params, indexed, body, n) is Some,
    ensures
        shortage(params, indexed, body, m) == shortage(params, indexed, body, n),
    decreases m - n,
{
    if n < m {
        lemma_shortage_stays(params, indexed, body, n, m - 1);
    }
}

/// A buffer that compact JSON is appended to, piece by piece.
pub trait CompactFormatterExt {
    /// The bytes in the buffer.
    spec fn written(&self) -> Seq<u8>;

    /// Appends a string literal with the content as it is.
    fn write_single_fragment_string(&mut self, s: &[u8])
        ensures
            final(self).written() == old(self).written() + raw_literal(s@),
    ;

    /// Appends a string literal with the content escaped.
    fn write_string(&mut self, s: &[u8])
        ensures
            final(self).written() == old(self).written() + string_literal(s@),
    ;

    /// Appends `"key":`, with a comma in front unless `first`.
    fn write_object_key(&mut self, key: &[u8], first: bool)
        ensures
            final(self).written() == old(self).written() + (if first {
                Seq::<u8>::empty()
            } else {
                seq![44u8]
            }) + raw_literal(key@) + seq![58u8],
    ;

    /// Appends the JSON text of a value.
    fn write_value(&mut self, value: &DecodedValue)
        ensures
            final(self).written() == old(self).written() + value_text(*value),
    ;

    /// Appends a JSON array of the values.
    fn write_values_as_array(&mut self, values: &Vec<DecodedValue>)
        ensures
            final(self).written() == old(self).written() + array_text(values@),
    ;

    /// Appends a JSON object of the values under `arg0`, `arg1`, ….
    fn write_values_as_object(&mut self, values: &Vec<DecodedValue>)
        ensures
            final(self).written() == old(self).written() + object_text(values@),
    ;

    /// Appends `"key":value`, with a comma in front unless `first`.
    fn write_key_value(&mut self, key: &[u8], value: &DecodedValue, first: bool)
        ensures
            final(self).written() == old(self).written() + (if first {
                Seq::<u8>::empty()
            } else {
                seq![44u8]
            }) + member_text(key@, value_text(*value)),
    ;

    /// Appends `"key":"value"`, the value escaped, with a comma in front
    /// unless `first`.
    fn write_key_value_str(&mut self, key: &[u8], value: &str, first: bool)
        ensures
            final(self).written() == old(self).written() + (if first {
                Seq::<u8>::empty()
            } else {
                seq![44u8]
            }) + member_text(key@, string_literal(vstd::utf8::encode_utf8(value@))),
    ;
}

impl CompactFormatterExt for Vec<u8> {
    open spec fn written(&self) -> Seq<u8> {
        self@
    }

    fn write_single_fragment_string(&mut self, s: &[u8]) {
        crate::json::write_single_fragment_string(self, s)
    }

    fn write_string(&mut self, s: &[u8]) {
        crate::json::write_string(self, s)
    }

    fn write_object_key(&mut self, key: &[u8], first: bool) {
        self::write_object_key(self, key, first)
    }

    fn write_value(&mut self, value: &DecodedValue) {
        self::write_value(self, value)
    }

    fn write_values_as_array(&mut self, values: &Vec<DecodedValue>) {
        self::write_values_as_array(self, values)
    }

    fn write_values_as_object(&mut self, values: &Vec<DecodedValue>) {
        self::write_values_as_object(self, values)
    }

    fn write_key_value(&mut self, key: &[u8], value: &DecodedValue, first: bool) {
        self::write_key_value(self, key, value, first)
    }

    fn write_key_value_str(&mut self, key: &[u8], value: &str, first: bool) {
        self::write_key_value_str(self, key, value, first)
    }
}

} // verus!
