//! The two signatures of an ABI item as text: the signature, from which the
//! selector is hashed, and the full signature, which reads as the
//! declaration.

use vstd::prelude::*;
use vstd::string::StringExecFns;
use crate::evm::abi::codec::Param;

verus! {

/// `,` in front of every parameter but the first.
pub open spec fn comma(index: int) -> Seq<char> {
    if index > 0 {
        ","@
    } else {
        Seq::empty()
    }
}

/// The types of the first `n` parameters, separated by commas.
pub open spec fn types_text(params: Seq<Param>, n: int) -> Seq<char>
    decreases n,
{
    if n <= 0 || n > params.len() {
        Seq::empty()
    } else {
        types_text(params, n - 1) + comma(n - 1) + params[n - 1].ty@
    }
}

/// The signature of an item: `name(type,type)`, the name and the types of
/// the parameters, without a space.
pub open spec fn signature_text(name: Seq<char>, params: Seq<Param>) -> Seq<char> {
    name + "("@ + types_text(params, params.len() as int) + ")"@
}

/// One parameter as the full signature writes it: the type, ` indexed` where
/// the parameter is indexed, and the name after a space where it has one.
pub open spec fn param_text(param: Param) -> Seq<char> {
    param.ty@ + (if param.indexed {
        " indexed"@
    } else {
        Seq::empty()
    }) + (if param.name@.len() > 0 {
        " "@ + param.name@
    } else {
        Seq::empty()
    })
}

/// The first `n` parameters as the full signature writes them, separated by
/// commas, without a space after the comma.
pub open spec fn params_text(params: Seq<Param>, n: int) -> Seq<char>
    decreases n,
{
    if n <= 0 || n > params.len() {
        Seq::empty()
    } else {
        params_text(params, n - 1) + comma(n - 1) + param_text(params[n - 1])
    }
}

/// ` M` for a function that is declared `pure`, `view` or `payable`, nothing
/// for one without such a word.
pub open spec fn mutability_text(mutability: Option<String>) -> Seq<char> {
    match mutability {
        Some(word) => " "@ + word@,
        None => Seq::empty(),
    }
}

/// ` returns (…)` for a function with outputs, nothing for one without.
pub open spec fn returns_text(outputs: Seq<Param>) -> Seq<char> {
    if outputs.len() > 0 {
        " returns ("@ + params_text(outputs, outputs.len() as int) + ")"@
    } else {
        Seq::empty()
    }
}

/// The full signature of a function:
/// `function name(type name,type name) view returns (type)`.
pub open spec fn function_full_text(
    name: Seq<char>,
    inputs: Seq<Param>,
    outputs: Seq<Param>,
    mutability: Option<String>,
) -> Seq<char> {
    "function "@ + name + "("@ + params_text(inputs, inputs.len() as int) + ")"@ + mutability_text(
        mutability,
    ) + returns_text(outputs)
}

/// The full signature of an event:
/// `event name(type indexed name,type name) anonymous`.
pub open spec fn event_full_text(name: Seq<char>, inputs: Seq<Param>, anonymous: bool) -> Seq<
    char,
> {
    "event "@ + name + "("@ + params_text(inputs, inputs.len() as int) + ")"@ + (if anonymous {
        " anonymous"@
    } else {
        Seq::empty()
    })
}

/// Appends the types of the parameters, separated by commas.
fn append_types(s: &mut String, params: &Vec<Param>)
    ensures
        final(s)@ == old(s)@ + types_text(params@, params@.len() as int),
{
    let n: usize = params.len();
    let mut i: usize = 0;
    assert(s@ =~= old(s)@ + types_text(params@, 0));
    while i < n
        invariant
            0 <= i <= n,
            n == params@.len(),
            s@ == old(s)@ + types_text(params@, i as int),
        decreases n - i,
    {
        let ghost before = s@;
        if i > 0 {
            s.append(",");
        }
        s.append(params[i].ty.as_str());
        assert(s@ =~= old(s)@ + types_text(params@, i + 1));
        i = i + 1;
    }
}

/// Appends one parameter as the full signature writes it.
fn append_param(s: &mut String, param: &Param)
    ensures
        final(s)@ == old(s)@ + param_text(*param),
{
    s.append(param.ty.as_str());
    if param.indexed {
        s.append(" indexed");
    }
    if param.name.as_str().unicode_len() > 0 {
        s.append(" ");
        s.append(param.name.as_str());
    }
    assert(s@ =~= old(s)@ + param_text(*param));
}

/// Appends the parameters as the full signature writes them.
fn append_params(s: &mut String, params: &Vec<Param>)
    ensures
        final(s)@ == old(s)@ + params_text(params@, params@.len() as int),
{
    let n: usize = params.len();
    let mut i: usize = 0;
    assert(s@ =~= old(s)@ + params_text(params@, 0));
    while i < n
        invariant
            0 <= i <= n,
            n == params@.len(),
            s@ == old(s)@ + params_text(params@, i as int),
        decreases n - i,
    {
        if i > 0 {
            s.append(",");
        }
        append_param(s, &params[i]);
        assert(s@ =~= old(s)@ + params_text(params@, i + 1));
        i = i + 1;
    }
}

/// The signature of an item with this name and these parameters.
pub fn signature(name: &str, params: &Vec<Param>) -> (s: String)
    ensures
        s@ == signature_text(name@, params@),
{
    let mut s: String = String::from_str(name);
    s.append("(");
    append_types(&mut s, params);
    s.append(")");
    assert(s@ =~= signature_text(name@, params@));
    s
}

/// The full signature of a function.
pub fn function_full_signature(
    name: &str,
    inputs: &Vec<Param>,
    outputs: &Vec<Param>,
    mutability: &Option<String>,
) -> (s: String)
    ensures
        s@ == function_full_text(name@, inputs@, outputs@, *mutability),
{
    let mut s: String = String::from_str("function ");
    s.append(name);
    s.append("(");
    append_params(&mut s, inputs);
    s.append(")");
    let ghost head = s@;
    match mutability {
        Some(word) => {
            s.append(" ");
            s.append(word.as_str());
        },
        None => {},
    }
    assert(s@ =~= head + mutability_text(*mutability));
    let ghost declared = s@;
    if outputs.len() > 0 {
        s.append(" returns (");
        append_params(&mut s, outputs);
        s.append(")");
    }
    assert(s@ =~= declared + returns_text(outputs@));
    assert(s@ =~= function_full_text(name@, inputs@, outputs@, *mutability));
    s
}

/// The full signature of an event.
pub fn event_full_signature(name: &str, inputs: &Vec<Param>, anonymous: bool) -> (s: String)
    ensures
        s@ == event_full_text(name@, inputs@, anonymous),
{
    let mut s: String = String::from_str("event ");
    s.append(name);
    s.append("(");
    append_params(&mut s, inputs);
    s.append(")");
    if anonymous {
        s.append(" anonymous");
    }
    assert(s@ =~= event_full_text(name@, inputs@, anonymous));
    s
}

/// None of the parameters has a name or is indexed.
pub open spec fn bare(params: Seq<Param>) -> bool {
    forall|i: int| 0 <= i < params.len() ==> (#[trigger] params[i]).name@.len() == 0 && !params[i].indexed
}

/// Parameters without names are written in the full signature as in the
/// signature: as their types.
pub proof fn lemma_bare_params(params: Seq<Param>, n: int)
    requires
        bare(params),
    ensures
        params_text(params, n) == types_text(params, n),
    decreases n,
{
    if 0 < n <= params.len() {
        lemma_bare_params(params, n - 1);
        assert(param_text(params[n - 1]) =~= params[n - 1].ty@);
    }
}

/// The full signature of a function that is declared without parameter
/// names, without outputs and without a word for its state mutability is
/// its signature after the keyword: for `transfer(address,uint256)` it is
/// `function transfer(address,uint256)`.
pub proof fn lemma_full_signature_of_bare_function(name: Seq<char>, inputs: Seq<Param>)
    requires
        bare(inputs),
    ensures
        function_full_text(name, inputs, Seq::empty(), None) == "function "@ + signature_text(
            name,
            inputs,
        ),
{
    lemma_bare_params(inputs, inputs.len() as int);
    assert(function_full_text(name, inputs, Seq::empty(), None) =~= "function "@ + signature_text(
        name,
        inputs,
    ));
}

} // verus!
