//! An event of a contract: its signatures, its selector, and the decoding of
//! its logs.

use vstd::prelude::*;
use crate::evm::abi::codec::{
    decode_log, decoded_log, event_facts, event_unresolved, parse_event, parsed_event,
    read_event, resolve_event, DecodedEvent, EventFacts, Param,
};
use crate::evm::abi::error::AbiError;
use crate::evm::abi::primitives::{keccak256, keccak256_hash};
use crate::evm::abi::signature::{event_full_signature, event_full_text, signature, signature_text};

verus! {

/// No event can be built from the descriptor, and `e` says why: the text is
/// no descriptor of an event, or a type of the event does not resolve.
pub open spec fn event_refused(descriptor: Seq<char>, e: AbiError) -> bool {
    match e {
        AbiError::InvalidDescriptor => event_facts(descriptor) is None,
        AbiError::Unresolved(m) => event_facts(descriptor) is Some && event_unresolved(descriptor)
            == Some(m),
        _ => false,
    }
}

/// The hash of a signature: the first topic of the event's logs.
pub open spec fn event_selector(signature: Seq<char>) -> Seq<u8> {
    keccak256_hash(vstd::utf8::encode_utf8(signature))
}

/// How many of the first `n` parameters are indexed.
pub open spec fn indexed_among(params: Seq<Param>, n: int) -> nat
    decreases n,
{
    if n <= 0 || n > params.len() {
        0
    } else {
        indexed_among(params, n - 1) + if params[n - 1].indexed {
            1nat
        } else {
            0nat
        }
    }
}

/// How many parameters are indexed.
pub open spec fn indexed_count(params: Seq<Param>) -> nat {
    indexed_among(params, params.len() as int)
}

/// No more of the first `n` parameters are indexed than there are.
pub proof fn lemma_indexed_among_bound(params: Seq<Param>, n: int)
    ensures
        indexed_among(params, n) <= if n < 0 {
            0
        } else {
            n
        },
    decreases n,
{
    if 0 < n <= params.len() {
        lemma_indexed_among_bound(params, n - 1);
    }
}

/// Among more parameters no fewer are indexed, and no fewer are not.
pub proof fn lemma_indexed_among_grows(params: Seq<Param>, n: int, m: int)
    requires
        0 <= n <= m <= params.len(),
    ensures
        indexed_among(params, n) <= indexed_among(params, m),
        n - indexed_among(params, n) <= m - indexed_among(params, m),
    decreases m - n,
{
    if n < m {
        lemma_indexed_among_grows(params, n, m - 1);
    }
}

/// Whether a log with these topics has the shape of an event: its selector
/// first, unless the event is anonymous, and then one topic for each indexed
/// parameter.
pub open spec fn log_shape_fits(anonymous: bool, params: Seq<Param>, topics: int) -> bool {
    if anonymous {
        topics == indexed_count(params)
    } else {
        topics == indexed_count(params) + 1
    }
}

/// A log with a topic more or a topic less than the event has indexed
/// parameters, the selector aside, does not have the shape of the event.
pub proof fn lemma_topic_count_decides_the_shape(anonymous: bool, params: Seq<Param>, topics: int)
    ensures
        log_shape_fits(anonymous, params, topics) ==> !log_shape_fits(
            anonymous,
            params,
            topics - 1,
        ) && !log_shape_fits(anonymous, params, topics + 1),
{
}

/// The number of topics of a log that stand for parameters: all of them for
/// an anonymous event, all but the first otherwise.
pub open spec fn parameter_topics(anonymous: bool, topics: int) -> int {
    if anonymous || topics == 0 {
        topics
    } else {
        topics - 1
    }
}

/// An event with its resolved signatures.
#[derive(Debug)]
pub struct Event {
    descriptor: String,
    facts: EventFacts,
    sig: String,
    fullsig: String,
    selector: [u8; 32],
    indexed: usize,
}

impl Event {
    /// The facts are those of the descriptor, the types resolve, the
    /// selector is that of the signature, and the indexed parameters are
    /// counted.
    #[verifier::type_invariant]
    spec fn inv(self) -> bool {
        &&& event_facts(self.descriptor@) == Some(self.facts)
        &&& event_unresolved(self.descriptor@) is None
        &&& self.sig@ == signature_text(self.facts.name@, self.facts.inputs@)
        &&& self.fullsig@ == event_full_text(
            self.facts.name@,
            self.facts.inputs@,
            self.facts.anonymous,
        )
        &&& self.selector@ == event_selector(self.sig@)
        &&& self.indexed == indexed_count(self.facts.inputs@)
    }

    /// The JSON descriptor that the event was built from.
    pub closed spec fn descriptor_view(self) -> Seq<char> {
        self.descriptor@
    }

    /// The event's signature, `name(type,…)`.
    pub closed spec fn sig_view(self) -> Seq<char> {
        self.sig@
    }

    /// The event's full signature.
    pub closed spec fn fullsig_view(self) -> Seq<char> {
        self.fullsig@
    }

    /// The event's name.
    pub closed spec fn name_view(self) -> Seq<char> {
        self.facts.name@
    }

    /// The event's selector.
    pub closed spec fn selector_view(self) -> Seq<u8> {
        self.selector@
    }

    /// The declared parameters.
    pub closed spec fn inputs_view(self) -> Seq<Param> {
        self.facts.inputs@
    }

    /// Whether the event is declared anonymous.
    pub closed spec fn anonymous_view(self) -> bool {
        self.facts.anonymous
    }

    /// What holds of every event: it is what `alloy` reports of its
    /// descriptor, its types resolve, and its selector is the hash of its
    /// signature.
    pub open spec fn describes(self, descriptor: Seq<char>) -> bool {
        &&& self.descriptor_view() == descriptor
        &&& event_facts(descriptor) matches Some(facts)
        &&& event_unresolved(descriptor) is None
        &&& self.name_view() == facts.name@
        &&& self.inputs_view() == facts.inputs@
        &&& self.anonymous_view() == facts.anonymous
        &&& self.sig_view() == signature_text(facts.name@, facts.inputs@)
        &&& self.fullsig_view() == event_full_text(facts.name@, facts.inputs@, facts.anonymous)
        &&& self.selector_view() == event_selector(self.sig_view())
    }

    /// The event that a JSON descriptor describes.
    ///
    /// Fails with `InvalidDescriptor` exactly when the text is no descriptor
    /// of an event, and with `Unresolved` exactly when it is one and a type
    /// of the event does not resolve.
    pub fn new(descriptor: &str) -> (r: Result<Event, AbiError>)
        ensures
            match r {
                Ok(e) => e.describes(descriptor@),
                Err(e) => event_refused(descriptor@, e),
            },
    {
        match read_event(descriptor) {
            None => Err(AbiError::InvalidDescriptor),
            Some(facts) => {
                match resolve_event(descriptor) {
                    None => {},
                    Some(m) => {
                        return Err(AbiError::Unresolved(m));
                    },
                }
                let sig: String = signature(facts.name.as_str(), &facts.inputs);
                let fullsig: String = event_full_signature(
                    facts.name.as_str(),
                    &facts.inputs,
                    facts.anonymous,
                );
                let selector: [u8; 32] = keccak256(sig.as_str().as_bytes());
                let indexed: usize = count_indexed(&facts.inputs);
                let owned: String = descriptor.to_owned();
                Ok(Event { descriptor: owned, facts, sig, fullsig, selector, indexed })
            },
        }
    }

    /// The event that a human-readable signature describes, with or without
    /// the keyword `event` in front.
    ///
    /// Fails with `Parse` and the parser's message exactly when the text is
    /// no signature of an event, and otherwise as `new` fails.
    pub fn parse(s: &str) -> (r: Result<Event, AbiError>)
        ensures
            match r {
                Ok(e) => parsed_event(s@) matches Ok(d) && e.describes(d@),
                Err(AbiError::Parse(m)) => parsed_event(s@) == Err::<String, String>(m),
                Err(e) => parsed_event(s@) matches Ok(d) && event_refused(d@, e),
            },
    {
        match parse_event(s) {
            Err(m) => Err(AbiError::Parse(m)),
            Ok(d) => Event::new(d.as_str()),
        }
    }

    /// The selector: the hash of the signature.
    pub fn selector(&self) -> (r: [u8; 32])
        ensures
            r@ == self.selector_view(),
            r@ == event_selector(self.sig_view()),
    {
        proof {
            use_type_invariant(self);
        }
        self.selector
    }

    /// The event's name.
    pub fn name(&self) -> (r: &str)
        ensures
            r@ == self.name_view(),
    {
        self.facts.name.as_str()
    }

    /// The signature: the name and the types of the parameters,
    /// `name(type,…)`.
    pub fn sig(&self) -> (r: &str)
        ensures
            r@ == self.sig_view(),
    {
        self.sig.as_str()
    }

    /// The full signature: the declaration with its keyword, the names of
    /// the parameters and which of them are indexed.
    pub fn fullsig(&self) -> (r: &str)
        ensures
            r@ == self.fullsig_view(),
    {
        self.fullsig.as_str()
    }

    /// The JSON descriptor of the event, which describes the event.
    pub fn descriptor(&self) -> (r: &str)
        ensures
            r@ == self.descriptor_view(),
            self.describes(r@),
    {
        proof {
            use_type_invariant(self);
        }
        self.descriptor.as_str()
    }

    /// The declared parameters, in order.
    pub fn inputs(&self) -> (r: &Vec<Param>)
        ensures
            r@ == self.inputs_view(),
    {
        &self.facts.inputs
    }

    /// Whether the event is declared anonymous.
    pub fn anonymous(&self) -> (r: bool)
        ensures
            r == self.anonymous_view(),
    {
        self.facts.anonymous
    }

    /// Whether the topics of a log are those of a log of this event: they
    /// have the shape of the event, and the first is the event's selector
    /// unless the event is anonymous.
    pub open spec fn accepts(self, topics: Seq<[u8; 32]>) -> bool {
        &&& log_shape_fits(self.anonymous_view(), self.inputs_view(), topics.len() as int)
        &&& self.anonymous_view() || topics[0]@ == self.selector_view()
    }

    /// Decodes a log: the indexed parameters from the topics, the others from
    /// the data.
    ///
    /// Succeeds exactly when the event accepts the topics and the decoder
    /// decodes the log; what comes out then holds one value for each indexed
    /// parameter and one for each of the others.
    ///
    /// Fails with `LogShape` exactly when the number of topics is not that of
    /// the indexed parameters, with one more in front for the selector unless
    /// the event is anonymous. Fails with `SignatureMismatch` when the shape
    /// fits and the first topic is not the selector. Otherwise the result is
    /// the decoder's.
    pub fn decode_log_parts(&self, topics: &Vec<[u8; 32]>, data: &[u8]) -> (r: Result<
        DecodedEvent,
        AbiError,
    >)
        ensures
            r matches Err(AbiError::LogShape { expected, actual }) <==> !log_shape_fits(
                self.anonymous_view(),
                self.inputs_view(),
                topics@.len() as int,
            ),
            r matches Err(AbiError::LogShape { expected, actual }) ==> expected == indexed_count(
                self.inputs_view(),
            ) && actual == parameter_topics(self.anonymous_view(), topics@.len() as int),
            r matches Err(AbiError::SignatureMismatch) <==> log_shape_fits(
                self.anonymous_view(),
                self.inputs_view(),
                topics@.len() as int,
            ) && !self.anonymous_view() && topics@[0]@ != self.selector_view(),
            r matches Ok(d) ==> decoded_log(self.descriptor_view(), topics@, data@) == Ok::<
                DecodedEvent,
                String,
            >(d),
            r matches Err(AbiError::Decode(m)) ==> decoded_log(
                self.descriptor_view(),
                topics@,
                data@,
            ) == Err::<DecodedEvent, String>(m),
            r is Ok || r matches Err(AbiError::LogShape { .. }) || r matches Err(
                AbiError::SignatureMismatch,
            ) || r matches Err(AbiError::Decode(_)),
            r is Ok <==> self.accepts(topics@) && decoded_log(
                self.descriptor_view(),
                topics@,
                data@,
            ) is Ok,
            r matches Ok(d) ==> d.indexed@.len() == indexed_count(self.inputs_view())
                && d.body@.len() == self.inputs_view().len() - indexed_count(self.inputs_view()),
    {
        proof {
            use_type_invariant(self);
        }
        let n: usize = topics.len();
        let anonymous: bool = self.facts.anonymous;
        let fits: bool = if anonymous {
            n == self.indexed
        } else {
            n >= 1 && n - 1 == self.indexed
        };
        if !fits {
            let actual: usize = if anonymous || n == 0 {
                n
            } else {
                n - 1
            };
            return Err(AbiError::LogShape { expected: self.indexed, actual });
        }
        if !anonymous && !same_word(&topics[0], &self.selector) {
            return Err(AbiError::SignatureMismatch);
        }
        match decode_log(self.descriptor.as_str(), topics, data) {
            Ok(d) => Ok(d),
            Err(m) => Err(AbiError::Decode(m)),
        }
    }
}

/// Whether two words hold the same bytes.
pub fn same_word(a: &[u8; 32], b: &[u8; 32]) -> (same: bool)
    ensures
        same == (a@ == b@),
{
    let mut i: usize = 0;
    while i < 32
        invariant
            0 <= i <= 32,
            forall|j: int| 0 <= j < i ==> a@[j] == b@[j],
        decreases 32 - i,
    {
        if a[i] != b[i] {
            return false;
        }
        i = i + 1;
    }
    assert(a@ =~= b@);
    true
}

/// Counts the indexed parameters.
pub fn count_indexed(params: &Vec<Param>) -> (count: usize)
    ensures
        count == indexed_count(params@),
{
    let n: usize = params.len();
    let mut count: usize = 0;
    let mut i: usize = 0;
    while i < n
        invariant
            0 <= i <= n,
            n == params@.len(),
            count == indexed_among(params@, i as int),
            count <= i,
        decreases n - i,
    {
        if params[i].indexed {
            count = count + 1;
        }
        i = i + 1;
    }
    count
}

} // verus!
