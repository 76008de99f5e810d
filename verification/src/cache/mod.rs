//! The cache of providers: one provider for each source, built on the first
//! use of the source and kept while the cache has room for it.

use vstd::prelude::*;
use std::sync::Arc;
use mini_moka::unsync::Cache;
use crate::evm::abi::abi_item::AbiItem;
use crate::evm::abi::abi_item_provider::{created, Provider};
use crate::evm::abi::codec::parsed_function;
use crate::evm::abi::error::AbiError;
use crate::evm::abi::function::Function;

verus! {

/// The bounded cache of `mini_moka`, for one thread. Nothing of what is
/// inside is known here but what the functions below say.
#[verifier::external_type_specification]
#[verifier::external_body]
#[verifier::reject_recursive_types(K)]
#[verifier::reject_recursive_types(V)]
#[verifier::reject_recursive_types(S)]
pub struct ExCache<K, V, S>(mini_moka::unsync::Cache<K, V, S>);

/// What a cache holds: for each key that it has an entry for, the entry's
/// value.
pub uninterp spec fn cache_contents(cache: Cache<String, Arc<Provider>>) -> Map<
    Seq<char>,
    Arc<Provider>,
>;

/// Every entry of `after` is an entry of `before`.
pub open spec fn kept_from<V>(after: Map<Seq<char>, V>, before: Map<Seq<char>, V>) -> bool {
    forall|k: Seq<char>| #[trigger]
        after.contains_key(k) ==> before.contains_key(k) && after[k] == before[k]
}

/// The limit of a cache that `Cache::new` made with that limit and that
/// keeps its entries by that limit alone: each entry counts as one, and no
/// entry leaves because of its age. `None` for a cache made in another way.
pub uninterp spec fn cache_limit(cache: Cache<String, Arc<Provider>>) -> Option<nat>;

/// The entries are finitely many, and no more than the limit.
pub open spec fn fits<V>(entries: Map<Seq<char>, V>, limit: nat) -> bool {
    entries.dom().finite() && entries.len() <= limit
}

/// The cache holds the key already, or has room for one entry more.
pub open spec fn has_room<V>(entries: Map<Seq<char>, V>, limit: nat, key: Seq<char>) -> bool {
    entries.contains_key(key) || entries.len() < limit
}

/// A lookup drops nothing from a cache with a limit alone whose entries fit
/// the limit.
pub open spec fn lookup_keeps<V>(
    limit: Option<nat>,
    before: Map<Seq<char>, V>,
    after: Map<Seq<char>, V>,
) -> bool {
    match limit {
        Some(n) => fits(before, n) ==> after == before,
        None => true,
    }
}

/// An insert into a cache with a limit alone, whose entries fit the limit,
/// keeps them within the limit; where the cache holds the key already or has
/// room for one entry more, it drops nothing and holds the new entry.
pub open spec fn insert_keeps<V>(
    limit: Option<nat>,
    before: Map<Seq<char>, V>,
    after: Map<Seq<char>, V>,
    key: Seq<char>,
    value: V,
) -> bool {
    match limit {
        Some(n) => fits(before, n) ==> fits(after, n) && (has_room(before, n, key) ==> after
            == before.insert(key, value)),
        None => true,
    }
}

/// Calls `Cache::new`: an empty cache that keeps at most `capacity` entries.
#[verifier::external_body]
fn cache_new(capacity: u64) -> (made: Cache<String, Arc<Provider>>)
    ensures
        cache_contents(made) =~= Map::empty(),
        cache_limit(made) == Some(capacity as nat),
{
    Cache::new(capacity)
}

/// Calls `Cache::get`. What comes back is the entry that the cache has for
/// the key. A cache may drop entries before it looks the key up, and it adds
/// none; a cache with a limit alone, whose entries fit the limit, drops
/// none. The call does not unwind.
#[verifier::external_body]
fn cache_get(cache: &mut Cache<String, Arc<Provider>>, key: &String) -> (value: Option<
    Arc<Provider>,
>)
    ensures
        kept_from(cache_contents(*final(cache)), cache_contents(*old(cache))),
        match value {
            Some(v) => cache_contents(*final(cache)).contains_key(key@) && cache_contents(
                *final(cache),
            )[key@] == v,
            None => !cache_contents(*final(cache)).contains_key(key@),
        },
        cache_limit(*final(cache)) == cache_limit(*old(cache)),
        lookup_keeps(
            cache_limit(*old(cache)),
            cache_contents(*old(cache)),
            cache_contents(*final(cache)),
        ),
    no_unwind
{
    cache.get(key).cloned()
}

/// Calls `Cache::insert`. A cache may drop entries to make room, and it may
/// not admit the new entry: what it holds afterwards is part of what it held
/// with the new entry added. A cache with a limit alone, whose entries fit
/// the limit, keeps them within the limit; where it holds the key already or
/// has room for one entry more, it drops nothing and holds the new entry.
/// The call does not unwind.
#[verifier::external_body]
fn cache_insert(cache: &mut Cache<String, Arc<Provider>>, key: &String, value: Arc<Provider>)
    ensures
        kept_from(cache_contents(*final(cache)), cache_contents(*old(cache)).insert(key@, value)),
        cache_limit(*final(cache)) == cache_limit(*old(cache)),
        insert_keeps(
            cache_limit(*old(cache)),
            cache_contents(*old(cache)),
            cache_contents(*final(cache)),
            key@,
            value,
        ),
    no_unwind
{
    cache.insert(key.clone(), value)
}

/// Calls `Arc::clone`: another handle to the same provider.
#[verifier::external_body]
fn share(provider: &Arc<Provider>) -> (shared: Arc<Provider>)
    ensures
        shared == *provider,
{
    Arc::clone(provider)
}

/// `provider` is one that the factory builds for the source `key`, from the
/// declaration that the key is or from some document that the key names.
pub open spec fn provided(key: Seq<char>, provider: Provider) -> bool {
    exists|document: Option<Seq<u8>>| #[trigger]
        created(vstd::utf8::encode_utf8(key), document, Ok(provider))
}

/// What a lookup came to: the value that the cache held, the value that the
/// callback made, or the callback's error.
#[derive(Debug)]
pub enum Lookup<V> {
    Hit(V),
    Made(V),
    Failed(AbiError),
}

/// What follows a lookup in the cache: the value that was found, where one
/// was found, and the callback is not asked; what the callback answers,
/// where none was found.
pub fn settle<V, CB: Fn() -> Result<V, AbiError>>(found: Option<V>, cb: CB) -> (r: Lookup<V>)
    requires
        cb.requires(()),
    ensures
        match found {
            Some(v) => r == Lookup::Hit(v),
            None => match r {
                Lookup::Hit(_) => false,
                Lookup::Made(v) => cb.ensures((), Ok(v)),
                Lookup::Failed(e) => cb.ensures((), Err(e)),
            },
        },
{
    match found {
        Some(v) => Lookup::Hit(v),
        None => match cb() {
            Ok(v) => Lookup::Made(v),
            Err(e) => Lookup::Failed(e),
        },
    }
}

/// What `get_or_create` owes: how the result and the cache after the call
/// follow from the cache before it and from the callback.
///
/// Where the cache holds a value for the key, that value is the result, and
/// the cache is as it was. Where it holds none, the result is the
/// callback's: a value that the cache then holds, if it has room, beside
/// all that it held; or an error, and the cache is as it was.
pub open spec fn got_or_created<V>(
    before: Map<Seq<char>, V>,
    after: Map<Seq<char>, V>,
    limit: nat,
    key: Seq<char>,
    made: spec_fn(Result<V, AbiError>) -> bool,
    r: Result<V, AbiError>,
) -> bool {
    if before.contains_key(key) {
        r == Ok::<V, AbiError>(before[key]) && after == before
    } else {
        match r {
            Ok(v) => {
                &&& made(r)
                &&& kept_from(after, before.insert(key, v))
                &&& has_room(before, limit, key) ==> after == before.insert(key, v)
            },
            Err(e) => made(r) && after == before,
        }
    }
}

/// A value that the cache gets while it has room answers the next lookup of
/// its key: that lookup returns the value, whatever its callback would make,
/// and leaves the cache as it is. What the cache held before, it holds
/// still.
pub proof fn lemma_first_use_then_hit<V>(
    before: Map<Seq<char>, V>,
    between: Map<Seq<char>, V>,
    after: Map<Seq<char>, V>,
    limit: nat,
    key: Seq<char>,
    first: spec_fn(Result<V, AbiError>) -> bool,
    next: spec_fn(Result<V, AbiError>) -> bool,
    v: V,
    r: Result<V, AbiError>,
)
    requires
        !before.contains_key(key),
        has_room(before, limit, key),
        got_or_created(before, between, limit, key, first, Ok(v)),
        got_or_created(between, after, limit, key, next, r),
    ensures
        first(Ok(v)),
        r == Ok::<V, AbiError>(v),
        after == between,
        forall|k: Seq<char>| #[trigger]
            before.contains_key(k) ==> after.contains_key(k) && after[k] == before[k],
{
}

/// A lookup fails only where the cache holds nothing for the key and the
/// callback fails, with the callback's error; the cache is then as it was,
/// so that the next lookup of the key asks its callback again.
pub proof fn lemma_failed_lookup_changes_nothing<V>(
    before: Map<Seq<char>, V>,
    after: Map<Seq<char>, V>,
    limit: nat,
    key: Seq<char>,
    made: spec_fn(Result<V, AbiError>) -> bool,
    e: AbiError,
)
    requires
        got_or_created(before, after, limit, key, made, Err(e)),
    ensures
        !before.contains_key(key),
        made(Err(e)),
        after == before,
{
}

/// A cache that gets what it lacks from a callback.
pub trait CacheExt<V> {
    /// What the cache holds.
    spec fn held(&self) -> Map<Seq<char>, V>;

    /// The largest number of entries that the cache keeps.
    spec fn limit(&self) -> nat;

    /// Whether the cache accepts `value` as the value for `key`.
    spec fn admits(&self, key: Seq<char>, value: V) -> bool;

    /// The value that the cache holds for `key`; where it holds none, what
    /// the callback makes, which the cache then keeps if it has room.
    ///
    /// See `got_or_created`. A value that comes back is one that the cache
    /// accepts for the key, and the entries stay within the limit.
    fn get_or_create<CB: Fn() -> Result<V, AbiError>>(&mut self, key: &String, cb: CB) -> (r:
        Result<V, AbiError>)
        requires
            cb.requires(()),
            forall|v: V| cb.ensures((), Ok(v)) ==> old(self).admits(key@, v),
        ensures
            got_or_created(
                old(self).held(),
                final(self).held(),
                old(self).limit(),
                key@,
                |made: Result<V, AbiError>| cb.ensures((), made),
                r,
            ),
            r matches Ok(v) ==> old(self).admits(key@, v),
            final(self).limit() == old(self).limit(),
            fits(final(self).held(), final(self).limit()),
    ;
}

/// The cache of providers, by source.
pub struct ProviderCache {
    inner: Cache<String, Arc<Provider>>,
}

impl ProviderCache {
    /// Every provider in the cache is one that the factory builds for its
    /// source, and the entries fit the limit that the cache was made with.
    #[verifier::type_invariant]
    spec fn inv(self) -> bool {
        &&& forall|k: Seq<char>| #[trigger]
            cache_contents(self.inner).contains_key(k) ==> provided(
                k,
                *cache_contents(self.inner)[k],
            )
        &&& cache_limit(self.inner) matches Some(n)
        &&& fits(cache_contents(self.inner), n)
    }

    /// The providers that the cache holds, by source.
    pub closed spec fn entries(self) -> Map<Seq<char>, Arc<Provider>> {
        cache_contents(self.inner)
    }

    /// The largest number of providers that the cache keeps.
    pub closed spec fn capacity(self) -> nat {
        match cache_limit(self.inner) {
            Some(n) => n,
            None => 0,
        }
    }

    /// An empty cache that keeps at most `capacity` providers.
    pub fn new(capacity: u64) -> (cache: ProviderCache)
        ensures
            cache.entries() =~= Map::empty(),
            cache.capacity() == capacity,
    {
        let inner = cache_new(capacity);
        assert(cache_contents(inner).len() == 0);
        ProviderCache { inner }
    }
}

impl CacheExt<Arc<Provider>> for ProviderCache {
    open spec fn held(&self) -> Map<Seq<char>, Arc<Provider>> {
        self.entries()
    }

    open spec fn limit(&self) -> nat {
        self.capacity()
    }

    open spec fn admits(&self, key: Seq<char>, value: Arc<Provider>) -> bool {
        provided(key, *value)
    }

    fn get_or_create<CB: Fn() -> Result<Arc<Provider>, AbiError>>(
        &mut self,
        key: &String,
        cb: CB,
    ) -> (r: Result<Arc<Provider>, AbiError>) {
        proof {
            use_type_invariant(&*self);
        }
        let found: Option<Arc<Provider>> = cache_get(&mut self.inner, key);
        proof {
            use_type_invariant(&*self);
        }
        match settle(found, cb) {
            Lookup::Hit(v) => Ok(v),
            Lookup::Made(v) => {
                let kept: Arc<Provider> = share(&v);
                proof {
                    assert(cb.ensures((), Ok::<Arc<Provider>, AbiError>(v)));
                    assert(old(self).admits(key@, v));
                    assert(provided(key@, *kept));
                }
                cache_insert(&mut self.inner, key, kept);
                Ok(v)
            },
            Lookup::Failed(e) => Err(e),
        }
    }
}

/// `provider` holds the one function that the signature `key` describes.
pub open spec fn function_provided(key: Seq<char>, provider: Provider) -> bool {
    &&& provider matches Provider::Fullsig(p)
    &&& p.item_view() matches AbiItem::Function(f)
    &&& parsed_function(key) matches Ok(d)
    &&& f.describes(d@)
}

/// The cache of functions, by signature. A function is kept as the provider
/// of that one function.
pub struct FunctionCache {
    inner: Cache<String, Arc<Provider>>,
}

impl FunctionCache {
    /// Every provider in the cache holds the function of its signature, and
    /// the entries fit the limit that the cache was made with.
    #[verifier::type_invariant]
    spec fn inv(self) -> bool {
        &&& forall|k: Seq<char>| #[trigger]
            cache_contents(self.inner).contains_key(k) ==> function_provided(
                k,
                *cache_contents(self.inner)[k],
            )
        &&& cache_limit(self.inner) matches Some(n)
        &&& fits(cache_contents(self.inner), n)
    }

    /// The providers that the cache holds, by signature.
    pub closed spec fn entries(self) -> Map<Seq<char>, Arc<Provider>> {
        cache_contents(self.inner)
    }

    /// The largest number of functions that the cache keeps.
    pub closed spec fn capacity(self) -> nat {
        match cache_limit(self.inner) {
            Some(n) => n,
            None => 0,
        }
    }

    /// An empty cache that keeps at most `capacity` functions.
    pub fn new(capacity: u64) -> (cache: FunctionCache)
        ensures
            cache.entries() =~= Map::empty(),
            cache.capacity() == capacity,
    {
        let inner = cache_new(capacity);
        assert(cache_contents(inner).len() == 0);
        FunctionCache { inner }
    }
}

impl CacheExt<Arc<Provider>> for FunctionCache {
    open spec fn held(&self) -> Map<Seq<char>, Arc<Provider>> {
        self.entries()
    }

    open spec fn limit(&self) -> nat {
        self.capacity()
    }

    open spec fn admits(&self, key: Seq<char>, value: Arc<Provider>) -> bool {
        function_provided(key, *value)
    }

    fn get_or_create<CB: Fn() -> Result<Arc<Provider>, AbiError>>(
        &mut self,
        key: &String,
        cb: CB,
    ) -> (r: Result<Arc<Provider>, AbiError>) {
        proof {
            use_type_invariant(&*self);
        }
        let found: Option<Arc<Provider>> = cache_get(&mut self.inner, key);
        proof {
            use_type_invariant(&*self);
        }
        match settle(found, cb) {
            Lookup::Hit(v) => Ok(v),
            Lookup::Made(v) => {
                let kept: Arc<Provider> = share(&v);
                proof {
                    assert(cb.ensures((), Ok::<Arc<Provider>, AbiError>(v)));
                    assert(old(self).admits(key@, v));
                    assert(function_provided(key@, *kept));
                }
                cache_insert(&mut self.inner, key, kept);
                Ok(v)
            },
            Lookup::Failed(e) => Err(e),
        }
    }
}

/// The function that a provider of one function holds.
pub fn function_of(provider: &Provider) -> (r: Option<&Function>)
    ensures
        match r {
            Some(f) => provider matches Provider::Fullsig(p) && p.item_view() == AbiItem::Function(
                *f,
            ),
            None => !(provider matches Provider::Fullsig(p) && p.item_view() is Function),
        },
{
    match provider {
        Provider::Fullsig(p) => match p.item() {
            AbiItem::Function(f) => Some(f),
            AbiItem::Event(_) => None,
        },
        Provider::File(_) => None,
    }
}

} // verus!
