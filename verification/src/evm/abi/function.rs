//! A function of a contract: its signatures, its selector, and the codec of
//! its inputs and outputs.

use vstd::prelude::*;
use crate::evm::abi::codec::{
    coerce_input, coerced_input, decode_input, decode_output, decoded_input, decoded_output,
    encode_input, encoded_input, function_facts, function_unresolved, parse_function,
    parsed_function, read_function, resolve_function, FunctionFacts, Param,
};
use crate::evm::abi::error::AbiError;
use crate::evm::abi::primitives::{keccak256, keccak256_hash};
use crate::evm::abi::signature::{
    function_full_signature, function_full_text, signature, signature_text,
};
use crate::evm::abi::value::DecodedValue;

verus! {

/// The JSON text at `index` cannot be read as the input at `index`, with the
/// message `m`, and every text before it can.
pub open spec fn first_refused(descriptor: Seq<char>, args: Seq<Vec<u8>>, index: int, m: String) -> bool {
    &&& 0 <= index < args.len()
    &&& coerced_input(descriptor, index, args[index]@) == Err::<DecodedValue, String>(m)
    &&& forall|j: int| 0 <= j < index ==> (#[trigger] coerced_input(descriptor, j, args[j]@)) is Ok
}

/// Some JSON text cannot be read as its input; `m` is the message for the
/// first such text.
pub open spec fn some_refused(descriptor: Seq<char>, args: Seq<Vec<u8>>, m: String) -> bool {
    exists|i: int| first_refused(descriptor, args, i, m)
}

/// `values` holds, in order, what each JSON text stands for as the input at
/// its position.
pub open spec fn all_coerced(descriptor: Seq<char>, args: Seq<Vec<u8>>, values: Seq<DecodedValue>) -> bool {
    &&& values.len() == args.len()
    &&& forall|j: int|
        0 <= j < args.len() ==> (#[trigger] coerced_input(descriptor, j, args[j]@)) == Ok::<
            DecodedValue,
            String,
        >(values[j])
}

/// No function can be built from the descriptor, and `e` says why: the text
/// is no descriptor of a function, or a type of the function does not
/// resolve.
pub open spec fn function_refused(descriptor: Seq<char>, e: AbiError) -> bool {
    match e {
        AbiError::InvalidDescriptor => function_facts(descriptor) is None,
        AbiError::Unresolved(m) => function_facts(descriptor) is Some && function_unresolved(descriptor)
            == Some(m),
        _ => false,
    }
}

/// The first four bytes of the hash of a signature.
pub open spec fn function_selector(signature: Seq<char>) -> Seq<u8> {
    keccak256_hash(vstd::utf8::encode_utf8(signature)).subrange(0, 4)
}

/// A function with its resolved signatures.
#[derive(Debug)]
pub struct Function {
    descriptor: String,
    facts: FunctionFacts,
    sig: String,
    fullsig: String,
    selector: [u8; 4],
}

impl Function {
    /// The facts are those of the descriptor, the types resolve, the two
    /// signatures are the texts for the facts, and the selector is that of
    /// the signature.
    #[verifier::type_invariant]
    spec fn inv(self) -> bool {
        &&& function_facts(self.descriptor@) == Some(self.facts)
        &&& function_unresolved(self.descriptor@) is None
        &&& self.sig@ == signature_text(self.facts.name@, self.facts.inputs@)
        &&& self.fullsig@ == function_full_text(
            self.facts.name@,
            self.facts.inputs@,
            self.facts.outputs@,
            self.facts.mutability,
        )
        &&& self.selector@ == function_selector(self.sig@)
    }

    /// The JSON descriptor that the function was built from.
    pub closed spec fn descriptor_view(self) -> Seq<char> {
        self.descriptor@
    }

    /// The function's signature, `name(type,…)`.
    pub closed spec fn sig_view(self) -> Seq<char> {
        self.sig@
    }

    /// The function's full signature.
    pub closed spec fn fullsig_view(self) -> Seq<char> {
        self.fullsig@
    }

    /// The function's name.
    pub closed spec fn name_view(self) -> Seq<char> {
        self.facts.name@
    }

    /// The function's selector.
    pub closed spec fn selector_view(self) -> Seq<u8> {
        self.selector@
    }

    /// The declared inputs.
    pub closed spec fn inputs_view(self) -> Seq<Param> {
        self.facts.inputs@
    }

    /// The declared outputs.
    pub closed spec fn outputs_view(self) -> Seq<Param> {
        self.facts.outputs@
    }

    /// What holds of every function: it is what `alloy` reports of its
    /// descriptor, its types resolve, its signature is `name(type,type)`,
    /// its full signature the declaration (see `function_full_text`), and
    /// its selector the start of the hash of its signature.
    pub open spec fn describes(self, descriptor: Seq<char>) -> bool {
        &&& self.descriptor_view() == descriptor
        &&& function_facts(descriptor) matches Some(facts)
        &&& function_unresolved(descriptor) is None
        &&& self.name_view() == facts.name@
        &&& self.inputs_view() == facts.inputs@
        &&& self.outputs_view() == facts.outputs@
        &&& self.sig_view() == signature_text(facts.name@, facts.inputs@)
        &&& self.fullsig_view() == function_full_text(
            facts.name@,
            facts.inputs@,
            facts.outputs@,
            facts.mutability,
        )
        &&& self.selector_view() == function_selector(self.sig_view())
    }

    /// The function that a JSON descriptor describes.
    ///
    /// Fails with `InvalidDescriptor` exactly when the text is no descriptor
    /// of a function, and with `Unresolved` exactly when it is one and a type
    /// of the function does not resolve.
    pub fn new(descriptor: &str) -> (r: Result<Function, AbiError>)
        ensures
            match r {
                Ok(f) => f.describes(descriptor@),
                Err(e) => function_refused(descriptor@, e),
            },
    {
        match read_function(descriptor) {
            None => Err(AbiError::InvalidDescriptor),
            Some(facts) => {
                match resolve_function(descriptor) {
                    None => {},
                    Some(m) => {
                        return Err(AbiError::Unresolved(m));
                    },
                }
                let sig: String = signature(facts.name.as_str(), &facts.inputs);
                let fullsig: String = function_full_signature(
                    facts.name.as_str(),
                    &facts.inputs,
                    &facts.outputs,
                    &facts.mutability,
                );
                let hash: [u8; 32] = keccak256(sig.as_str().as_bytes());
                let selector: [u8; 4] = [hash[0], hash[1], hash[2], hash[3]];
                assert(selector@ =~= hash@.subrange(0, 4));
                let owned: String = descriptor.to_owned();
                Ok(Function { descriptor: owned, facts, sig, fullsig, selector })
            },
        }
    }

    /// The function that a human-readable signature describes, with or
    /// without the keyword `function` in front.
    ///
    /// Fails with `Parse` and the parser's message exactly when the text is
    /// no signature of a function, and otherwise as `new` fails.
    pub fn parse(s: &str) -> (r: Result<Function, AbiError>)
        ensures
            match r {
                Ok(f) => parsed_function(s@) matches Ok(d) && f.describes(d@),
                Err(AbiError::Parse(m)) => parsed_function(s@) == Err::<String, String>(m),
                Err(e) => parsed_function(s@) matches Ok(d) && function_refused(d@, e),
            },
    {
        match parse_function(s) {
            Err(m) => Err(AbiError::Parse(m)),
            Ok(d) => Function::new(d.as_str()),
        }
    }

    /// The selector: the first four bytes of the hash of the signature.
    pub fn selector(&self) -> (r: [u8; 4])
        ensures
            r@ == self.selector_view(),
            r@ == function_selector(self.sig_view()),
    {
        proof {
            use_type_invariant(self);
        }
        self.selector
    }

    /// The function's name.
    pub fn name(&self) -> (r: &str)
        ensures
            r@ == self.name_view(),
    {
        self.facts.name.as_str()
    }

    /// The signature: the name and the types of the inputs, `name(type,…)`.
    pub fn sig(&self) -> (r: &str)
        ensures
            r@ == self.sig_view(),
    {
        self.sig.as_str()
    }

    /// The full signature: the declaration with its keyword, the names of
    /// the parameters and the outputs.
    pub fn fullsig(&self) -> (r: &str)
        ensures
            r@ == self.fullsig_view(),
    {
        self.fullsig.as_str()
    }

    /// The JSON descriptor of the function, which describes the function.
    pub fn descriptor(&self) -> (r: &str)
        ensures
            r@ == self.descriptor_view(),
            self.describes(r@),
    {
        proof {
            use_type_invariant(self);
        }
        self.descriptor.as_str()
    }

    /// The declared inputs, in order.
    pub fn inputs(&self) -> (r: &Vec<Param>)
        ensures
            r@ == self.inputs_view(),
    {
        &self.facts.inputs
    }

    /// The declared outputs, in order.
    pub fn outputs(&self) -> (r: &Vec<Param>)
        ensures
            r@ == self.outputs_view(),
    {
        &self.facts.outputs
    }

    /// The values that `data` holds, read as the function's inputs. The
    /// selector is not part of `data`.
    pub fn abi_decode_input(&self, data: &[u8]) -> (r: Result<Vec<DecodedValue>, AbiError>)
        ensures
            match r {
                Ok(values) => decoded_input(self.descriptor_view(), data@) == Ok::<
                    Vec<DecodedValue>,
                    String,
                >(values),
                Err(e) => e matches AbiError::Decode(m) && decoded_input(
                    self.descriptor_view(),
                    data@,
                ) == Err::<Vec<DecodedValue>, String>(m),
            },
            r matches Ok(values) ==> values@.len() == self.inputs_view().len(),
    {
        proof {
            use_type_invariant(self);
        }
        match decode_input(self.descriptor.as_str(), data) {
            Ok(values) => Ok(values),
            Err(m) => Err(AbiError::Decode(m)),
        }
    }

    /// The values that `data` holds, read as the function's outputs.
    pub fn abi_decode_output(&self, data: &[u8]) -> (r: Result<Vec<DecodedValue>, AbiError>)
        ensures
            match r {
                Ok(values) => decoded_output(self.descriptor_view(), data@) == Ok::<
                    Vec<DecodedValue>,
                    String,
                >(values),
                Err(e) => e matches AbiError::Decode(m) && decoded_output(
                    self.descriptor_view(),
                    data@,
                ) == Err::<Vec<DecodedValue>, String>(m),
            },
            r matches Ok(values) ==> values@.len() == self.outputs_view().len(),
    {
        proof {
            use_type_invariant(self);
        }
        match decode_output(self.descriptor.as_str(), data) {
            Ok(values) => Ok(values),
            Err(m) => Err(AbiError::Decode(m)),
        }
    }

    /// The call data for these arguments: the selector, then the encoded
    /// arguments. More or fewer arguments than the function has inputs are
    /// refused.
    pub fn abi_encode_input(&self, values: &Vec<DecodedValue>) -> (r: Result<Vec<u8>, AbiError>)
        ensures
            match r {
                Ok(bytes) => encoded_input(self.descriptor_view(), values@) == Ok::<
                    Vec<u8>,
                    String,
                >(bytes),
                Err(e) => e matches AbiError::Encode(m) && encoded_input(
                    self.descriptor_view(),
                    values@,
                ) == Err::<Vec<u8>, String>(m),
            },
            r matches Ok(bytes) ==> values@.len() == self.inputs_view().len() && bytes@.len() >= 4
                && bytes@.subrange(0, 4) == self.selector_view(),
    {
        proof {
            use_type_invariant(self);
        }
        match encode_input(self.descriptor.as_str(), values) {
            Ok(bytes) => Ok(bytes),
            Err(m) => Err(AbiError::Encode(m)),
        }
    }

    /// Reads JSON arguments as the function's inputs, one JSON text for each
    /// input, in order.
    ///
    /// Fails with `Coercion` exactly when there are more or fewer texts than
    /// inputs, or when one of them cannot be read as the type of its input;
    /// the message is then that of the first such text.
    pub fn coerce_inputs(&self, args: &Vec<Vec<u8>>) -> (r: Result<Vec<DecodedValue>, AbiError>)
        ensures
            match r {
                Ok(values) => args@.len() == self.inputs_view().len() && all_coerced(
                    self.descriptor_view(),
                    args@,
                    values@,
                ),
                Err(AbiError::Coercion(m)) => args@.len() != self.inputs_view().len()
                    || some_refused(self.descriptor_view(), args@, m),
                Err(_) => false,
            },
    {
        proof {
            use_type_invariant(self);
        }
        let n: usize = self.facts.inputs.len();
        if args.len() != n {
            return Err(AbiError::Coercion("wrong number of arguments".to_owned()));
        }
        let mut values: Vec<DecodedValue> = Vec::new();
        let mut i: usize = 0;
        while i < n
            invariant
                0 <= i <= n,
                n == args@.len(),
                n == self.facts.inputs@.len(),
                function_facts(self.descriptor@) == Some(self.facts),
                values@.len() == i,
                forall|j: int|
                    0 <= j < i ==> (#[trigger] coerced_input(self.descriptor@, j, args@[j]@))
                        == Ok::<DecodedValue, String>(values@[j]),
            decreases n - i,
        {
            match coerce_input(self.descriptor.as_str(), i, args[i].as_slice()) {
                Ok(v) => {
                    values.push(v);
                },
                Err(m) => {
                    assert(first_refused(self.descriptor_view(), args@, i as int, m));
                    assert(some_refused(self.descriptor_view(), args@, m));
                    return Err(AbiError::Coercion(m));
                },
            }
            i = i + 1;
        }
        Ok(values)
    }
}

} // verus!
