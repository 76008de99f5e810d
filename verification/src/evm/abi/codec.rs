//! The calls into `alloy_json_abi` and `alloy_dyn_abi`. An ABI item crosses
//! this boundary as its JSON descriptor, a value as a `DecodedValue`; what
//! `alloy` computes from them is named here and not defined; beside a name
//! stands what the source of `alloy` shows of it in a few lines. The
//! contracts of the functions marked `external_body` are assumed.

use vstd::prelude::*;
use alloy_dyn_abi::{DynSolValue, Specifier};
use alloy_json_abi::AbiItem;
use alloy_primitives::{Address, FixedBytes, Function, I256, U256};
use crate::evm::abi::event::indexed_count;
use crate::evm::abi::function::function_selector;
use crate::evm::abi::signature::signature_text;
use crate::evm::abi::value::DecodedValue;

verus! {

/// The value type of `alloy_dyn_abi`. It is carried between the conversions
/// below and the calls; nothing of what is inside is known here.
#[verifier::external_type_specification]
#[verifier::external_body]
pub struct ExDynSolValue(alloy_dyn_abi::DynSolValue);

/// What kind of ABI item a declaration describes.
#[derive(Debug, Clone, Copy, PartialEq, Eq, Structural)]
pub enum ItemKind {
    Function,
    Event,
    /// A constructor, an error, a fallback or a receive function.
    Other,
}

/// One declared parameter: its name, its type in canonical form (a tuple as
/// the types of its parts between brackets), and, for an event, whether it
/// is indexed.
#[derive(Debug, Clone)]
pub struct Param {
    pub name: String,
    pub ty: String,
    pub indexed: bool,
}

/// What `alloy` reports of a function: its name, its parameters, and the
/// word for its state mutability where it is declared with one (`pure`,
/// `view` or `payable`).
#[derive(Debug, Clone)]
pub struct FunctionFacts {
    pub name: String,
    pub inputs: Vec<Param>,
    pub outputs: Vec<Param>,
    pub mutability: Option<String>,
}

/// What `alloy` reports of an event: its name, its parameters, and whether
/// it is anonymous.
#[derive(Debug, Clone)]
pub struct EventFacts {
    pub name: String,
    pub inputs: Vec<Param>,
    pub anonymous: bool,
}

/// The values of a decoded log: those of the indexed parameters, read from
/// the topics, and those of the others, read from the data.
#[derive(Debug)]
pub struct DecodedEvent {
    pub selector: Option<[u8; 32]>,
    pub indexed: Vec<DecodedValue>,
    pub body: Vec<DecodedValue>,
}

/// The kind and the JSON descriptor of the item that a human-readable
/// declaration describes, or the parser's message.
pub uninterp spec fn parsed_item(text: Seq<char>) -> Result<(ItemKind, String), String>;

/// The JSON descriptor of the function that a signature describes, with or
/// without the keyword `function` in front, or the parser's message.
pub uninterp spec fn parsed_function(text: Seq<char>) -> Result<String, String>;

/// The JSON descriptor of the event that a signature describes, with or
/// without the keyword `event` in front, or the parser's message.
pub uninterp spec fn parsed_event(text: Seq<char>) -> Result<String, String>;

/// The kinds and JSON descriptors of the items of a JSON ABI document, in the
/// order in which the document lists them, or the parser's message.
pub uninterp spec fn parsed_document(text: Seq<char>) -> Result<Vec<(ItemKind, String)>, String>;

/// What `alloy` reports of the function with this JSON descriptor; `None`
/// where the text is no descriptor of a function.
pub uninterp spec fn function_facts(descriptor: Seq<char>) -> Option<FunctionFacts>;

/// What `alloy` reports of the event with this JSON descriptor; `None` where
/// the text is no descriptor of an event.
pub uninterp spec fn event_facts(descriptor: Seq<char>) -> Option<EventFacts>;

/// The resolver's message where the types of the function with this JSON
/// descriptor do not resolve; `None` where they do, and where the text is no
/// descriptor of a function.
pub uninterp spec fn function_unresolved(descriptor: Seq<char>) -> Option<String>;

/// The resolver's message where the types of the event with this JSON
/// descriptor do not resolve, or the event has more indexed parameters than
/// a log has topics; `None` where they do, and where the text is no
/// descriptor of an event.
pub uninterp spec fn event_unresolved(descriptor: Seq<char>) -> Option<String>;

/// The values that the bytes hold, read as the inputs of the function with
/// this descriptor, or the decoder's message.
pub uninterp spec fn decoded_input(descriptor: Seq<char>, data: Seq<u8>) -> Result<
    Vec<DecodedValue>,
    String,
>;

/// The values that the bytes hold, read as the outputs of the function with
/// this descriptor, or the decoder's message.
pub uninterp spec fn decoded_output(descriptor: Seq<char>, data: Seq<u8>) -> Result<
    Vec<DecodedValue>,
    String,
>;

/// The call data for the function with this descriptor and these arguments:
/// the selector and the encoded arguments; or the encoder's message.
pub uninterp spec fn encoded_input(descriptor: Seq<char>, values: Seq<DecodedValue>) -> Result<
    Vec<u8>,
    String,
>;

/// The value that a JSON text stands for as the `index`-th input of the
/// function with this descriptor, or the message that says why it is none.
pub uninterp spec fn coerced_input(descriptor: Seq<char>, index: int, json: Seq<u8>) -> Result<
    DecodedValue,
    String,
>;

/// The values of a log, read as the event with this descriptor, or the
/// decoder's message.
pub uninterp spec fn decoded_log(
    descriptor: Seq<char>,
    topics: Seq<[u8; 32]>,
    data: Seq<u8>,
) -> Result<DecodedEvent, String>;

/// Moves the fields of a value that fills one ABI word out of `alloy`'s
/// variant into the library's; `None` for the other variants.
#[verifier::external_body]
fn lift_word(v: &DynSolValue) -> Option<DecodedValue> {
    Some(match v {
        DynSolValue::Bool(b) => DecodedValue::Bool(*b),
        DynSolValue::Int(i, bits) => DecodedValue::Int(i.to_be_bytes::<32>(), *bits),
        DynSolValue::Uint(u, bits) => DecodedValue::Uint(u.to_be_bytes::<32>(), *bits),
        DynSolValue::FixedBytes(w, size) => DecodedValue::FixedBytes(w.0, *size),
        DynSolValue::Address(a) => DecodedValue::Address(a.into_array()),
        DynSolValue::Function(f) => DecodedValue::Function(f.into_array()),
        _ => return None,
    })
}

/// Moves the fields of a byte string, a string or a sequence of values out of
/// `alloy`'s variant into the library's; `None` for the other variants.
#[verifier::external_body]
fn lift_sequence(v: &DynSolValue) -> Option<DecodedValue> {
    Some(match v {
        DynSolValue::Bytes(b) => DecodedValue::Bytes(b.clone()),
        DynSolValue::String(s) => DecodedValue::String(s.clone()),
        DynSolValue::Array(a) => DecodedValue::Array(a.iter().map(lift_value).collect()),
        DynSolValue::FixedArray(a) => DecodedValue::FixedArray(a.iter().map(lift_value).collect()),
        DynSolValue::Tuple(a) => DecodedValue::Tuple(a.iter().map(lift_value).collect()),
        _ => return None,
    })
}

/// Moves the fields of a struct out of `alloy`'s variant into the library's,
/// each field's name beside its value. It is called for a struct only; for
/// another variant it gives the empty tuple.
#[verifier::external_body]
fn lift_struct(v: &DynSolValue) -> DecodedValue {
    let DynSolValue::CustomStruct { name, prop_names, tuple } = v else {
        return DecodedValue::Tuple(Vec::new());
    };
    let fields = prop_names.iter().cloned().zip(tuple.iter().map(lift_value)).collect();
    DecodedValue::CustomStruct { name: name.clone(), fields }
}

/// The first of two results that is there, and `otherwise` where neither
/// is. This is the choice among the conversions of a value: each conversion
/// answers for its own variants, and the last one for what is left.
pub fn first_of<T>(first: Option<T>, second: Option<T>, otherwise: T) -> (r: T)
    ensures
        r == match first {
            Some(x) => x,
            None => match second {
                Some(y) => y,
                None => otherwise,
            },
        },
{
    match first {
        Some(x) => x,
        None => match second {
            Some(y) => y,
            None => otherwise,
        },
    }
}

/// The library's form of a value of `alloy`: what the conversion of a word
/// makes of it where it is a word, what the conversion of a sequence makes of
/// it where it is a byte string, a string or a sequence, and what the
/// conversion of a struct makes of it otherwise; `first_of` chooses. The
/// value is opaque here and the conversions promise nothing of what they
/// hand back, so no clause speaks of the result.
pub(crate) fn lift_value(v: &DynSolValue) -> DecodedValue {
    first_of(lift_word(v), lift_sequence(v), lift_struct(v))
}

/// Moves the fields of a value that fills one ABI word into `alloy`'s
/// variant; `None` for the other variants.
#[verifier::external_body]
fn lower_word(v: &DecodedValue) -> Option<DynSolValue> {
    Some(match v {
        DecodedValue::Bool(b) => DynSolValue::Bool(*b),
        DecodedValue::Int(w, bits) => DynSolValue::Int(I256::from_be_bytes(*w), *bits),
        DecodedValue::Uint(w, bits) => DynSolValue::Uint(U256::from_be_bytes(*w), *bits),
        DecodedValue::FixedBytes(w, size) => DynSolValue::FixedBytes(FixedBytes(*w), *size),
        DecodedValue::Address(a) => DynSolValue::Address(Address::new(*a)),
        DecodedValue::Function(f) => DynSolValue::Function(Function::new(*f)),
        _ => return None,
    })
}

/// Moves the fields of a byte string, a string or a sequence of values into
/// `alloy`'s variant; `None` for the other variants.
#[verifier::external_body]
fn lower_sequence(v: &DecodedValue) -> Option<DynSolValue> {
    Some(match v {
        DecodedValue::Bytes(b) => DynSolValue::Bytes(b.clone()),
        DecodedValue::String(s) => DynSolValue::String(s.clone()),
        DecodedValue::Array(a) => DynSolValue::Array(a.iter().map(lower_value).collect()),
        DecodedValue::FixedArray(a) => DynSolValue::FixedArray(a.iter().map(lower_value).collect()),
        DecodedValue::Tuple(a) => DynSolValue::Tuple(a.iter().map(lower_value).collect()),
        _ => return None,
    })
}

/// Moves the fields of a struct into `alloy`'s variant, the names in one
/// list and the values in another. It is called for a struct only; for
/// another variant it gives the empty tuple.
#[verifier::external_body]
fn lower_struct(v: &DecodedValue) -> DynSolValue {
    let DecodedValue::CustomStruct { name, fields } = v else {
        return DynSolValue::Tuple(Vec::new());
    };
    let prop_names = fields.iter().map(|f| f.0.clone()).collect();
    let tuple = fields.iter().map(|f| lower_value(&f.1)).collect();
    DynSolValue::CustomStruct { name: name.clone(), prop_names, tuple }
}

/// `alloy`'s form of a value of the library: what the conversion of a word
/// makes of it where it is a word, what the conversion of a sequence makes of
/// it where it is a byte string, a string or a sequence, and what the
/// conversion of a struct makes of it otherwise; `first_of` chooses. The
/// result is opaque here and the conversions promise nothing of what they
/// hand back, so no clause speaks of it.
pub(crate) fn lower_value(v: &DecodedValue) -> DynSolValue {
    first_of(lower_word(v), lower_sequence(v), lower_struct(v))
}

/// Calls `AbiItem::parse` on a human-readable declaration and serialises the
/// item that comes out with `serde_json::to_string`.
#[verifier::external_body]
pub(crate) fn parse_item(text: &str) -> (r: Result<(ItemKind, String), String>)
    ensures
        r == parsed_item(text@),
{
    let item = AbiItem::parse(text).map_err(|e| e.to_string())?;
    let descriptor = serde_json::to_string(&item).map_err(|e| e.to_string())?;
    match item {
        AbiItem::Function(_) => Ok((ItemKind::Function, descriptor)),
        AbiItem::Event(_) => Ok((ItemKind::Event, descriptor)),
        _ => Ok((ItemKind::Other, descriptor)),
    }
}

/// Calls `alloy_json_abi::Function::parse` and serialises the function with
/// `serde_json::to_string`.
#[verifier::external_body]
pub(crate) fn parse_function(text: &str) -> (r: Result<String, String>)
    ensures
        r == parsed_function(text@),
{
    let f = alloy_json_abi::Function::parse(text).map_err(|e| e.to_string())?;
    serde_json::to_string(&f).map_err(|e| e.to_string())
}

/// Calls `alloy_json_abi::Event::parse` and serialises the event with
/// `serde_json::to_string`.
#[verifier::external_body]
pub(crate) fn parse_event(text: &str) -> (r: Result<String, String>)
    ensures
        r == parsed_event(text@),
{
    let e = alloy_json_abi::Event::parse(text).map_err(|e| e.to_string())?;
    serde_json::to_string(&e).map_err(|e| e.to_string())
}

/// Deserialises a JSON ABI document with `serde_json::from_str`, once as a
/// `JsonAbi`, which refuses what is no ABI document, and once as the list of
/// its items, which keeps them in the order of the document; each item is
/// serialised again with `serde_json::to_string`.
#[verifier::external_body]
pub(crate) fn parse_document(text: &str) -> (r: Result<Vec<(ItemKind, String)>, String>)
    ensures
        r == parsed_document(text@),
{
    let _: alloy_json_abi::JsonAbi = serde_json::from_str(text).map_err(|e| e.to_string())?;
    let items: Vec<AbiItem<'_>> = serde_json::from_str(text).map_err(|e| e.to_string())?;
    let describe = |i: &AbiItem<'_>| serde_json::to_string(i).map_err(|e| e.to_string());
    items.iter().map(|item| match item {
        AbiItem::Function(_) => Ok((ItemKind::Function, describe(item)?)),
        AbiItem::Event(_) => Ok((ItemKind::Event, describe(item)?)),
        _ => Ok((ItemKind::Other, describe(item)?)),
    }).collect()
}

/// Deserialises the descriptor with `serde_json::from_str` and reports the
/// function's name, of each parameter the name and `selector_type()`, and
/// the word that `StateMutability::as_str` gives.
#[verifier::external_body]
pub(crate) fn read_function(descriptor: &str) -> (r: Option<FunctionFacts>)
    ensures
        r == function_facts(descriptor@),
{
    let AbiItem::Function(f) = serde_json::from_str(descriptor).ok()? else { return None };
    let plain = |p: &alloy_json_abi::Param| Param { name: p.name.clone(), ty: p.selector_type().into_owned(), indexed: false };
    Some(FunctionFacts {
        name: f.name.clone(),
        inputs: f.inputs.iter().map(plain).collect(),
        outputs: f.outputs.iter().map(plain).collect(),
        mutability: f.state_mutability.as_str().map(|word| word.to_owned()),
    })
}

/// Deserialises the descriptor with `serde_json::from_str` and reports the
/// event's name, whether it is anonymous, and of each parameter the name,
/// `selector_type()` and whether it is indexed.
#[verifier::external_body]
pub(crate) fn read_event(descriptor: &str) -> (r: Option<EventFacts>)
    ensures
        r == event_facts(descriptor@),
{
    let AbiItem::Event(e) = serde_json::from_str(descriptor).ok()? else { return None };
    let plain = |p: &alloy_json_abi::EventParam| Param { name: p.name.clone(), ty: p.selector_type().into_owned(), indexed: p.indexed };
    Some(EventFacts {
        name: e.name.clone(),
        inputs: e.inputs.iter().map(plain).collect(),
        anonymous: e.anonymous,
    })
}

/// Deserialises the descriptor and resolves the function to a `DynSolCall`
/// with `Specifier::resolve`; the result is the resolver's message where it
/// refuses.
#[verifier::external_body]
pub(crate) fn resolve_function(descriptor: &str) -> (r: Option<String>)
    ensures
        r == function_unresolved(descriptor@),
{
    let f: alloy_json_abi::Function = serde_json::from_str(descriptor).ok()?;
    let resolved: Result<alloy_dyn_abi::DynSolCall, _> = f.resolve();
    resolved.err().map(|e| e.to_string())
}

/// Deserialises the descriptor and resolves the event to a `DynSolEvent`
/// with `Specifier::resolve`; the result is the resolver's message where it
/// refuses.
#[verifier::external_body]
pub(crate) fn resolve_event(descriptor: &str) -> (r: Option<String>)
    ensures
        r == event_unresolved(descriptor@),
{
    let e: alloy_json_abi::Event = serde_json::from_str(descriptor).ok()?;
    let resolved: Result<alloy_dyn_abi::DynSolEvent, _> = e.resolve();
    resolved.err().map(|e| e.to_string())
}

/// Whether there is a value for each of the inputs of a function.
pub open spec fn one_for_each_input(facts: Option<FunctionFacts>, values: nat) -> bool {
    facts matches Some(f) ==> values == f.inputs@.len()
}

/// Whether there is a value for each of the outputs of a function.
pub open spec fn one_for_each_output(facts: Option<FunctionFacts>, values: nat) -> bool {
    facts matches Some(f) ==> values == f.outputs@.len()
}

/// Whether call data begin with the selector of a function: the first four
/// bytes of the hash of its signature.
pub open spec fn begins_with_selector(facts: Option<FunctionFacts>, bytes: Seq<u8>) -> bool {
    facts matches Some(f) ==> bytes.len() >= 4 && bytes.subrange(0, 4) == function_selector(
        signature_text(f.name@, f.inputs@),
    )
}

/// Deserialises the descriptor, resolves it to a `DynSolCall` with
/// `Specifier::resolve` and calls `DynSolCall::abi_decode_input`, which
/// decodes one value for each input in turn.
#[verifier::external_body]
pub(crate) fn decode_input(descriptor: &str, data: &[u8]) -> (r: Result<Vec<DecodedValue>, String>)
    ensures
        r == decoded_input(descriptor@, data@),
        r matches Ok(values) ==> one_for_each_input(function_facts(descriptor@), values@.len()),
{
    let f: alloy_json_abi::Function = serde_json::from_str(descriptor).map_err(|e| e.to_string())?;
    let call = f.resolve().map_err(|e| e.to_string())?;
    let values = call.abi_decode_input(data).map_err(|e| e.to_string())?;
    Ok(values.iter().map(lift_value).collect())
}

/// Deserialises the descriptor, resolves it to a `DynSolCall` with
/// `Specifier::resolve` and calls `DynSolCall::abi_decode_output`, which
/// decodes one value for each output in turn.
#[verifier::external_body]
pub(crate) fn decode_output(descriptor: &str, data: &[u8]) -> (r: Result<Vec<DecodedValue>, String>)
    ensures
        r == decoded_output(descriptor@, data@),
        r matches Ok(values) ==> one_for_each_output(function_facts(descriptor@), values@.len()),
{
    let f: alloy_json_abi::Function = serde_json::from_str(descriptor).map_err(|e| e.to_string())?;
    let call = f.resolve().map_err(|e| e.to_string())?;
    let values = call.abi_decode_output(data).map_err(|e| e.to_string())?;
    Ok(values.iter().map(lift_value).collect())
}

/// Deserialises the descriptor, resolves it to a `DynSolCall` with
/// `Specifier::resolve` and calls `DynSolCall::abi_encode_input`, which
/// refuses more or fewer values than the function has inputs and writes the
/// function's selector in front of what it encodes.
#[verifier::external_body]
pub(crate) fn encode_input(descriptor: &str, values: &Vec<DecodedValue>) -> (r: Result<
    Vec<u8>,
    String,
>)
    ensures
        r == encoded_input(descriptor@, values@),
        r matches Ok(bytes) ==> one_for_each_input(function_facts(descriptor@), values@.len())
            && begins_with_selector(function_facts(descriptor@), bytes@),
{
    let f: alloy_json_abi::Function = serde_json::from_str(descriptor).map_err(|e| e.to_string())?;
    let call = f.resolve().map_err(|e| e.to_string())?;
    let lowered: Vec<DynSolValue> = values.iter().map(lower_value).collect();
    call.abi_encode_input(&lowered).map_err(|e| e.to_string())
}

/// Deserialises the descriptor and the JSON bytes, resolves the type of the
/// `index`-th input with `Specifier::resolve` and calls
/// `DynSolType::coerce_json`.
#[verifier::external_body]
pub(crate) fn coerce_input(descriptor: &str, index: usize, json: &[u8]) -> (r: Result<
    DecodedValue,
    String,
>)
    requires
        function_facts(descriptor@) is Some,
        index < function_facts(descriptor@).unwrap().inputs@.len(),
    ensures
        r == coerced_input(descriptor@, index as int, json@),
{
    let f: alloy_json_abi::Function = serde_json::from_str(descriptor).map_err(|e| e.to_string())?;
    let value: serde_json::Value = serde_json::from_slice(json).map_err(|e| e.to_string())?;
    let ty = f.inputs[index].resolve().map_err(|e| e.to_string())?;
    ty.coerce_json(&value).map(|v| lift_value(&v)).map_err(|e| e.to_string())
}

/// Whether a decoded log has the lengths that the event gives it: a value
/// for each indexed parameter, taken from as many topics behind the selector,
/// and a value for each of the others.
pub open spec fn log_lengths_fit(facts: Option<EventFacts>, topics: nat, d: DecodedEvent) -> bool {
    match facts {
        Some(f) => {
            &&& d.indexed@.len() == indexed_count(f.inputs@)
            &&& d.body@.len() == f.inputs@.len() - indexed_count(f.inputs@)
            &&& topics == indexed_count(f.inputs@) + if f.anonymous {
                0nat
            } else {
                1nat
            }
        },
        None => true,
    }
}

/// Deserialises the descriptor, resolves it to a `DynSolEvent` with
/// `Specifier::resolve` and calls `DynSolEvent::decode_log_parts` on the
/// topics and the data. A log that decodes has one topic for the selector,
/// unless the event is anonymous, and one for each indexed parameter; what
/// comes out holds a value for each indexed parameter and one for each of
/// the others.
#[verifier::external_body]
pub(crate) fn decode_log(descriptor: &str, topics: &Vec<[u8; 32]>, data: &[u8]) -> (r: Result<
    DecodedEvent,
    String,
>)
    ensures
        r == decoded_log(descriptor@, topics@, data@),
        r matches Ok(d) ==> log_lengths_fit(event_facts(descriptor@), topics@.len(), d),
{
    let e: alloy_json_abi::Event = serde_json::from_str(descriptor).map_err(|e| e.to_string())?;
    let event: alloy_dyn_abi::DynSolEvent = e.resolve().map_err(|e| e.to_string())?;
    let words = topics.iter().map(|t| FixedBytes(*t));
    let d = event.decode_log_parts(words, data).map_err(|e| e.to_string())?;
    let indexed = d.indexed.iter().map(lift_value).collect();
    let body = d.body.iter().map(lift_value).collect();
    Ok(DecodedEvent { selector: d.selector.map(|s| s.0), indexed, body })
}

} // verus!
