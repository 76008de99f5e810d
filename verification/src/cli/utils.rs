//! What the commands share: the cached lookup of a provider, and the choice
//! of the first candidate that yields a report.

use vstd::prelude::*;
use std::sync::Arc;
use crate::cache::{
    function_provided, got_or_created, provided, CacheExt, FunctionCache, ProviderCache,
};
use crate::evm::abi::abi_item::AbiItem;
use crate::evm::abi::abi_item_provider::{
    created, document_source, AbiItemProviderFactory, Provider,
};
use crate::evm::abi::codec::parsed_function;
use crate::evm::abi::error::AbiError;
use crate::evm::abi::fullsig_abi_item_provider::FullsigAbiItemProvider;
use crate::evm::abi::function::{function_refused, Function};
use crate::evm::abi::primitives::utf8_text;

verus! {

/// The document that came with a source, as bytes.
pub open spec fn document_view(document: Option<&[u8]>) -> Option<Seq<u8>> {
    match document {
        Some(content) => Some(content@),
        None => None,
    }
}

/// What a cached lookup by a source owes: how the result and the cache
/// after the call follow from the cache before it and from what is made
/// where the cache holds nothing.
///
/// A key that is no text fails with `InvalidUtf8`, and the cache is as it
/// was. For a key that is text, see `got_or_created`: the cache answers
/// where it holds the key, and only where it does not is anything made.
pub open spec fn looked_up(
    before: Map<Seq<char>, Arc<Provider>>,
    after: Map<Seq<char>, Arc<Provider>>,
    limit: nat,
    key: Seq<u8>,
    made: spec_fn(Result<Arc<Provider>, AbiError>) -> bool,
    r: Result<Arc<Provider>, AbiError>,
) -> bool {
    if !vstd::utf8::valid_utf8(key) {
        r matches Err(AbiError::InvalidUtf8) && after == before
    } else {
        got_or_created(before, after, limit, vstd::utf8::decode_utf8(key), made, r)
    }
}

/// What the factory answers for a source and the document that came with
/// it, the provider behind a shared handle.
pub open spec fn provider_made(key: Seq<u8>, document: Option<Seq<u8>>) -> spec_fn(
    Result<Arc<Provider>, AbiError>,
) -> bool {
    |made: Result<Arc<Provider>, AbiError>|
        created(
            key,
            document,
            match made {
                Ok(p) => Ok(*p),
                Err(e) => Err(e),
            },
        )
}

/// The provider for a source: the one in the cache, or else the one that the
/// factory builds, which the cache then keeps if it has room.
///
/// See `looked_up`. A source that names a document needs the document: where
/// the cache holds no provider for it and none is given, the function fails
/// with `DocumentMissing`, and the caller fetches the document and asks
/// again. Every other failure is the factory's. A provider that comes back
/// is one that the factory builds for the source.
pub fn get_cached_abi_item_provider(
    cache: &mut ProviderCache,
    key: &[u8],
    document: Option<&[u8]>,
) -> (r: Result<Arc<Provider>, AbiError>)
    ensures
        looked_up(
            old(cache).entries(),
            final(cache).entries(),
            old(cache).capacity(),
            key@,
            provider_made(key@, document_view(document)),
            r,
        ),
        r matches Ok(p) ==> vstd::utf8::valid_utf8(key@) && provided(
            vstd::utf8::decode_utf8(key@),
            *p,
        ),
        final(cache).capacity() == old(cache).capacity(),
{
    let text: &str = match utf8_text(key) {
        Some(text) => text,
        None => {
            return Err(AbiError::InvalidUtf8);
        },
    };
    proof {
        vstd::utf8::encode_utf8_decode_utf8(text@);
    }
    let owned: String = text.to_owned();
    let make = || -> (made: Result<Arc<Provider>, AbiError>)
        ensures
            provider_made(key@, document_view(document))(made),
        {
            match AbiItemProviderFactory::create(key, document) {
                Ok(p) => Ok(Arc::new(p)),
                Err(e) => Err(e),
            }
        };
    assert forall|v: Arc<Provider>| make.ensures((), Ok(v)) implies provided(owned@, *v) by {
        assert(created(vstd::utf8::encode_utf8(owned@), document_view(document), Ok(*v)));
    }
    let r = cache.get_or_create(&owned, make);
    proof {
        assert(owned@ == vstd::utf8::decode_utf8(key@));
        if !old(cache).entries().contains_key(owned@) {
            assert(make.ensures((), r));
        }
    }
    r
}

/// The document that came with a source, as bytes.
pub open spec fn owned_document_view(document: Option<Vec<u8>>) -> Option<Seq<u8>> {
    match document {
        Some(content) => Some(content@),
        None => None,
    }
}

/// What `candidates` owes for one candidate source and the document that
/// came with it: a provider that the factory builds for the source, or
/// nothing, where the source is missing or the factory refuses it.
pub open spec fn candidate_of(
    key: Option<Vec<u8>>,
    document: Option<Vec<u8>>,
    candidate: Option<Arc<Provider>>,
) -> bool {
    match candidate {
        Some(p) => key matches Some(k) && vstd::utf8::valid_utf8(k@) && provided(
            vstd::utf8::decode_utf8(k@),
            *p,
        ),
        None => key matches Some(k) ==> exists|e: AbiError| #[trigger]
            created(k@, owned_document_view(document), Err(e)),
    }
}

/// The lookup for one candidate failed with `e`, between two states of the
/// cache.
pub open spec fn lookup_failed(
    before: Map<Seq<char>, Arc<Provider>>,
    after: Map<Seq<char>, Arc<Provider>>,
    limit: nat,
    key: Seq<u8>,
    document: Option<Seq<u8>>,
    e: AbiError,
) -> bool {
    looked_up(before, after, limit, key, provider_made(key, document), Err(e))
}

/// One step of `candidates`, between two states of the cache: a candidate
/// without source is nothing, and the cache is as it was; the candidate for
/// a source is what the cached lookup gave, and nothing where it failed.
pub open spec fn candidate_step(
    before: Map<Seq<char>, Arc<Provider>>,
    after: Map<Seq<char>, Arc<Provider>>,
    limit: nat,
    key: Option<Vec<u8>>,
    document: Option<Vec<u8>>,
    candidate: Option<Arc<Provider>>,
) -> bool {
    match key {
        None => candidate is None && after == before,
        Some(k) => match candidate {
            Some(p) => looked_up(
                before,
                after,
                limit,
                k@,
                provider_made(k@, owned_document_view(document)),
                Ok(p),
            ),
            None => exists|e: AbiError| #[trigger]
                lookup_failed(before, after, limit, k@, owned_document_view(document), e),
        },
    }
}

/// The states of the cache from the first lookup of `candidates` to the
/// last: each candidate is one step, from the state before it to the state
/// after it, in the order of the sources.
pub open spec fn gathered(
    states: Seq<Map<Seq<char>, Arc<Provider>>>,
    first: Map<Seq<char>, Arc<Provider>>,
    last: Map<Seq<char>, Arc<Provider>>,
    limit: nat,
    keys: Seq<Option<Vec<u8>>>,
    documents: Seq<Option<Vec<u8>>>,
    found: Seq<Option<Arc<Provider>>>,
) -> bool {
    &&& states.len() == keys.len() + 1
    &&& states[0] == first
    &&& states[keys.len() as int] == last
    &&& forall|i: int|
        #![trigger states[i]]
        0 <= i < keys.len() ==> candidate_step(
            states[i],
            states[i + 1],
            limit,
            keys[i],
            documents[i],
            found[i],
        )
}

/// The providers for the candidate sources of a row, in the order of the
/// sources: for each source the provider in the cache or the one that the
/// factory builds, with the document at the same position where the source
/// names one; nothing for a source for which no provider can be had.
///
/// The sources are looked up one after the other, each in the cache as the
/// lookups before it left it: see `gathered`. So a candidate is nothing only
/// where the cache held no provider for its source at its turn and the
/// factory refused the source.
pub fn candidates(
    cache: &mut ProviderCache,
    keys: &Vec<Option<Vec<u8>>>,
    documents: &Vec<Option<Vec<u8>>>,
) -> (r: Vec<Option<Arc<Provider>>>)
    requires
        documents@.len() == keys@.len(),
    ensures
        r@.len() == keys@.len(),
        forall|i: int| 0 <= i < r@.len() ==> candidate_of(keys@[i], documents@[i], #[trigger] r@[i]),
        exists|states: Seq<Map<Seq<char>, Arc<Provider>>>|
            gathered(
                states,
                old(cache).entries(),
                final(cache).entries(),
                old(cache).capacity(),
                keys@,
                documents@,
                r@,
            ),
        final(cache).capacity() == old(cache).capacity(),
{
    let n: usize = keys.len();
    let mut found: Vec<Option<Arc<Provider>>> = Vec::new();
    let ghost mut states: Seq<Map<Seq<char>, Arc<Provider>>> = seq![cache.entries()];
    let mut i: usize = 0;
    while i < n
        invariant
            0 <= i <= n,
            n == keys@.len(),
            n == documents@.len(),
            found@.len() == i,
            cache.capacity() == old(cache).capacity(),
            states.len() == i + 1,
            states[0] == old(cache).entries(),
            states[i as int] == cache.entries(),
            forall|j: int|
                0 <= j < i ==> candidate_of(keys@[j], documents@[j], #[trigger] found@[j]),
            forall|j: int|
                #![trigger states[j]]
                0 <= j < i ==> candidate_step(
                    states[j],
                    states[j + 1],
                    old(cache).capacity(),
                    keys@[j],
                    documents@[j],
                    found@[j],
                ),
        decreases n - i,
    {
        let ghost before = cache.entries();
        let candidate: Option<Arc<Provider>> = match &keys[i] {
            None => None,
            Some(key) => {
                let document: Option<&[u8]> = match &documents[i] {
                    Some(d) => Some(d.as_slice()),
                    None => None,
                };
                match get_cached_abi_item_provider(cache, key.as_slice(), document) {
                    Ok(p) => Some(p),
                    Err(e) => {
                        proof {
                            let doc = owned_document_view(documents@[i as int]);
                            assert(lookup_failed(
                                before,
                                cache.entries(),
                                old(cache).capacity(),
                                key@,
                                doc,
                                e,
                            ));
                            if vstd::utf8::valid_utf8(key@) {
                                assert(provider_made(key@, doc)(Err::<Arc<Provider>, AbiError>(e)));
                            }
                            assert(created(key@, doc, Err(e)));
                        }
                        None
                    },
                }
            },
        };
        proof {
            let ghost_old = states;
            states = states.push(cache.entries());
            assert(candidate_step(
                before,
                cache.entries(),
                old(cache).capacity(),
                keys@[i as int],
                documents@[i as int],
                candidate,
            ));
            assert forall|j: int| #![trigger states[j]] 0 <= j < i + 1 implies candidate_step(
                states[j],
                states[j + 1],
                old(cache).capacity(),
                keys@[j],
                documents@[j],
                found@.push(candidate)[j],
            ) by {
                if j < i {
                    assert(states[j] == ghost_old[j]);
                    assert(states[j + 1] == ghost_old[j + 1]);
                }
            }
        }
        found.push(candidate);
        i = i + 1;
    }
    assert(gathered(
        states,
        old(cache).entries(),
        cache.entries(),
        old(cache).capacity(),
        keys@,
        documents@,
        found@,
    ));
    found
}

/// Whether the document of a source has to be fetched before the provider
/// can be had: the source is text that names a document, and the cache holds
/// no provider for it. The cache is as it was.
pub fn needs_document(cache: &mut ProviderCache, key: &[u8]) -> (r: bool)
    ensures
        r == (document_source(key@) && vstd::utf8::valid_utf8(key@) && !old(
            cache,
        ).entries().contains_key(vstd::utf8::decode_utf8(key@))),
        final(cache).entries() == old(cache).entries(),
        final(cache).capacity() == old(cache).capacity(),
{
    if !AbiItemProviderFactory::is_document_source(key) {
        return false;
    }
    let found = get_cached_abi_item_provider(cache, key, None);
    proof {
        if vstd::utf8::valid_utf8(key@) && !old(cache).entries().contains_key(
            vstd::utf8::decode_utf8(key@),
        ) {
            assert(provider_made(key@, None)(found));
        }
    }
    match found {
        Ok(_) => false,
        Err(AbiError::DocumentMissing) => true,
        Err(_) => false,
    }
}

/// No function can be had for the signature in `key`, and `e` says why: the
/// key is no text, the text is no signature, or the function that it
/// describes is refused.
pub open spec fn signature_refused(key: Seq<u8>, e: AbiError) -> bool {
    if !vstd::utf8::valid_utf8(key) {
        e is InvalidUtf8
    } else {
        match parsed_function(vstd::utf8::decode_utf8(key)) {
            Err(m) => e == AbiError::Parse(m),
            Ok(d) => function_refused(d@, e),
        }
    }
}

/// What parsing a signature answers, the function behind a shared handle as
/// the provider of that one function.
pub open spec fn function_made(key: Seq<u8>) -> spec_fn(Result<Arc<Provider>, AbiError>) -> bool {
    |made: Result<Arc<Provider>, AbiError>|
        match made {
            Ok(p) => function_provided(vstd::utf8::decode_utf8(key), *p),
            Err(e) => signature_refused(key, e),
        }
}

/// The function for a signature, as the provider of that one function: the
/// one in the cache, or else the one that the signature parses to, which the
/// cache then keeps if it has room.
///
/// See `looked_up`. Fails with `InvalidUtf8` where the key is no text, and
/// otherwise as `Function::parse` fails. A provider that comes back holds
/// the function of the signature.
pub fn get_cached_func_sync(cache: &mut FunctionCache, key: &[u8]) -> (r: Result<
    Arc<Provider>,
    AbiError,
>)
    ensures
        looked_up(
            old(cache).entries(),
            final(cache).entries(),
            old(cache).capacity(),
            key@,
            function_made(key@),
            r,
        ),
        r matches Ok(p) ==> vstd::utf8::valid_utf8(key@) && function_provided(
            vstd::utf8::decode_utf8(key@),
            *p,
        ),
        final(cache).capacity() == old(cache).capacity(),
{
    let text: &str = match utf8_text(key) {
        Some(text) => text,
        None => {
            return Err(AbiError::InvalidUtf8);
        },
    };
    proof {
        vstd::utf8::encode_utf8_decode_utf8(text@);
    }
    let owned: String = text.to_owned();
    let make = || -> (made: Result<Arc<Provider>, AbiError>)
        ensures
            function_made(key@)(made),
        {
            match Function::parse(text) {
                Ok(f) => Ok(
                    Arc::new(
                        Provider::Fullsig(FullsigAbiItemProvider::from_item(AbiItem::Function(f))),
                    ),
                ),
                Err(e) => Err(e),
            }
        };
    let r = cache.get_or_create(&owned, make);
    proof {
        assert(owned@ == vstd::utf8::decode_utf8(key@));
        if !old(cache).entries().contains_key(owned@) {
            assert(make.ensures((), r));
        }
    }
    r
}

/// The first report among the candidates' from position `from` on.
pub open spec fn first_some(reports: Seq<Option<Seq<u8>>>, from: int) -> Option<Seq<u8>>
    decreases reports.len() - from,
{
    if from < 0 || from >= reports.len() {
        None
    } else {
        match reports[from] {
            Some(report) => Some(report),
            None => first_some(reports, from + 1),
        }
    }
}

/// Where the candidates before position `k` yield nothing and the one at `k`
/// yields a report, that report is the first: what comes after `k` does not
/// matter, and the failures before it leave no trace.
pub proof fn lemma_first_success_wins(reports: Seq<Option<Seq<u8>>>, k: int)
    requires
        0 <= k < reports.len(),
        reports[k] is Some,
        forall|j: int| 0 <= j < k ==> reports[j] is None,
    ensures
        first_some(reports, 0) == reports[k],
        first_some(reports, 0) == first_some(seq![reports[k]], 0),
{
    lemma_first_some_from(reports, 0, k);
    assert(first_some(seq![reports[k]], 0) == reports[k]);
}

/// From any position before a first success, the first report is that
/// success.
proof fn lemma_first_some_from(reports: Seq<Option<Seq<u8>>>, from: int, k: int)
    requires
        0 <= from <= k < reports.len(),
        reports[k] is Some,
        forall|j: int| from <= j < k ==> reports[j] is None,
    ensures
        first_some(reports, from) == reports[k],
    decreases k - from,
{
    if from < k {
        lemma_first_some_from(reports, from + 1, k);
    }
}

/// Where no candidate yields a report, there is no first report.
pub proof fn lemma_no_success(reports: Seq<Option<Seq<u8>>>, from: int)
    requires
        0 <= from,
        forall|j: int| from <= j < reports.len() ==> reports[j] is None,
    ensures
        first_some(reports, from) is None,
    decreases reports.len() - from,
{
    if from < reports.len() {
        lemma_no_success(reports, from + 1);
    }
}

} // verus!
