//! Where ABI items come from: a provider answers a selector with the item
//! that it holds for it.

use vstd::prelude::*;
use crate::evm::abi::abi_item::{declaration_refused, AbiItem};
use crate::evm::abi::codec::parsed_item;
use crate::evm::abi::error::AbiError;
use crate::evm::abi::event::Event;
use crate::evm::abi::file_abi_item_provider::{built, document_refused, FileAbiItemProvider};
use crate::evm::abi::fullsig_abi_item_provider::FullsigAbiItemProvider;
use crate::evm::abi::function::Function;
use crate::evm::abi::primitives::utf8_text;

verus! {

/// Something that maps selectors to ABI items.
pub trait AbiItemProvider {
    /// The item that the provider holds for a selector, if it holds one.
    spec fn item_for(&self, selector: Seq<u8>) -> Option<AbiItem>;

    /// The error that the provider answers a selector without item with.
    spec fn miss(&self) -> AbiError;

    /// The item for a selector, or the provider's error where it has none.
    fn get_abi_item(&self, selector: &[u8]) -> (r: Result<&AbiItem, AbiError>)
        ensures
            match r {
                Ok(item) => self.item_for(selector@) == Some(*item),
                Err(e) => self.item_for(selector@) is None && e == self.miss(),
            },
    ;

    /// The event for a selector. Fails with `WrongKind` exactly when the
    /// provider holds a function for the selector, and with the provider's
    /// own error exactly when it holds nothing.
    fn get_event(&self, selector: &[u8]) -> (r: Result<&Event, AbiError>)
        ensures
            match r {
                Ok(evt) => self.item_for(selector@) == Some(AbiItem::Event(*evt)),
                Err(e) => match self.item_for(selector@) {
                    Some(item) => item is Function && e is WrongKind,
                    None => e == self.miss(),
                },
            },
    {
        match self.get_abi_item(selector) {
            Ok(AbiItem::Event(evt)) => Ok(evt),
            Ok(AbiItem::Function(_)) => Err(AbiError::WrongKind),
            Err(e) => Err(e),
        }
    }

    /// The function for a selector. Fails with `WrongKind` exactly when the
    /// provider holds an event for the selector, and with the provider's own
    /// error exactly when it holds nothing.
    fn get_function(&self, selector: &[u8]) -> (r: Result<&Function, AbiError>)
        ensures
            match r {
                Ok(func) => self.item_for(selector@) == Some(AbiItem::Function(*func)),
                Err(e) => match self.item_for(selector@) {
                    Some(item) => item is Event && e is WrongKind,
                    None => e == self.miss(),
                },
            },
    {
        match self.get_abi_item(selector) {
            Ok(AbiItem::Function(func)) => Ok(func),
            Ok(AbiItem::Event(_)) => Err(AbiError::WrongKind),
            Err(e) => Err(e),
        }
    }
}

/// A provider of one of the two kinds.
#[derive(Debug)]
pub enum Provider {
    /// Built from one declaration.
    Fullsig(FullsigAbiItemProvider),
    /// Built from a JSON ABI document.
    File(FileAbiItemProvider),
}

impl AbiItemProvider for Provider {
    open spec fn item_for(&self, selector: Seq<u8>) -> Option<AbiItem> {
        match self {
            Provider::Fullsig(p) => p.item_for(selector),
            Provider::File(p) => p.item_for(selector),
        }
    }

    open spec fn miss(&self) -> AbiError {
        match self {
            Provider::Fullsig(p) => p.miss(),
            Provider::File(p) => p.miss(),
        }
    }

    fn get_abi_item(&self, selector: &[u8]) -> (r: Result<&AbiItem, AbiError>) {
        match self {
            Provider::Fullsig(p) => p.get_abi_item(selector),
            Provider::File(p) => p.get_abi_item(selector),
        }
    }
}

/// `http://`
pub open spec fn scheme_http() -> Seq<u8> {
    seq![104u8, 116u8, 116u8, 112u8, 58u8, 47u8, 47u8]
}

/// `https://`
pub open spec fn scheme_https() -> Seq<u8> {
    seq![104u8, 116u8, 116u8, 112u8, 115u8, 58u8, 47u8, 47u8]
}

/// `file://`
pub open spec fn scheme_file() -> Seq<u8> {
    seq![102u8, 105u8, 108u8, 101u8, 58u8, 47u8, 47u8]
}

/// `text` starts with `prefix`.
pub open spec fn starts_with(text: Seq<u8>, prefix: Seq<u8>) -> bool {
    prefix.len() <= text.len() && text.subrange(0, prefix.len() as int) == prefix
}

/// Whether a source names a document to fetch: it starts with `http://`,
/// `https://` or `file://`. Any other source is a declaration.
pub open spec fn document_source(source: Seq<u8>) -> bool {
    starts_with(source, scheme_http()) || starts_with(source, scheme_https()) || starts_with(
        source,
        scheme_file(),
    )
}

/// The provider is the one that a declaration gives.
pub open spec fn built_from_declaration(p: Provider, text: Seq<char>) -> bool {
    &&& p matches Provider::Fullsig(f)
    &&& parsed_item(text) matches Ok((kind, d))
    &&& f.item_view().describes(kind, d@)
}

/// The provider is the one that a document gives.
pub open spec fn built_from_document(p: Provider, content: Seq<u8>) -> bool {
    p matches Provider::File(f) && built(f, content)
}

/// What `create` owes for a source and the document that came with it.
pub open spec fn created(
    source: Seq<u8>,
    document: Option<Seq<u8>>,
    r: Result<Provider, AbiError>,
) -> bool {
    if !vstd::utf8::valid_utf8(source) {
        r matches Err(AbiError::InvalidUtf8)
    } else if document_source(source) {
        match document {
            None => r matches Err(AbiError::DocumentMissing),
            Some(content) => match r {
                Ok(p) => built_from_document(p, content),
                Err(e) => document_refused(content, e),
            },
        }
    } else {
        match r {
            Ok(p) => built_from_declaration(p, vstd::utf8::decode_utf8(source)),
            Err(e) => declaration_refused(vstd::utf8::decode_utf8(source), e),
        }
    }
}

/// Builds the provider that fits a source.
pub struct AbiItemProviderFactory;

impl AbiItemProviderFactory {
    /// Whether the source names a document, which the caller has to fetch
    /// before `create` can build the provider.
    pub fn is_document_source(source: &[u8]) -> (r: bool)
        ensures
            r == document_source(source@),
    {
        let http: [u8; 7] = [104, 116, 116, 112, 58, 47, 47];
        let https: [u8; 8] = [104, 116, 116, 112, 115, 58, 47, 47];
        let file: [u8; 7] = [102, 105, 108, 101, 58, 47, 47];
        assert(http@ =~= scheme_http());
        assert(https@ =~= scheme_https());
        assert(file@ =~= scheme_file());
        has_prefix(source, vstd::array::array_as_slice(&http)) || has_prefix(
            source,
            vstd::array::array_as_slice(&https),
        ) || has_prefix(source, vstd::array::array_as_slice(&file))
    }

    /// The provider for a source: that of the document, where the source
    /// names one, and that of the declaration otherwise.
    ///
    /// Fails with `InvalidUtf8` where the source is no text, with
    /// `DocumentMissing` where it names a document and none is given, and
    /// otherwise as the provider's own constructor fails.
    pub fn create(source: &[u8], document: Option<&[u8]>) -> (r: Result<Provider, AbiError>)
        ensures
            created(
                source@,
                match document {
                    Some(content) => Some(content@),
                    None => None,
                },
                r,
            ),
    {
        let text: &str = match utf8_text(source) {
            Some(text) => text,
            None => {
                return Err(AbiError::InvalidUtf8);
            },
        };
        proof {
            vstd::utf8::encode_utf8_decode_utf8(text@);
        }
        if AbiItemProviderFactory::is_document_source(source) {
            match document {
                None => Err(AbiError::DocumentMissing),
                Some(content) => match FileAbiItemProvider::new(content) {
                    Ok(p) => Ok(Provider::File(p)),
                    Err(e) => Err(e),
                },
            }
        } else {
            match FullsigAbiItemProvider::new(text) {
                Ok(p) => Ok(Provider::Fullsig(p)),
                Err(e) => Err(e),
            }
        }
    }
}

/// Whether `text` starts with `prefix`.
pub fn has_prefix(text: &[u8], prefix: &[u8]) -> (r: bool)
    ensures
        r == starts_with(text@, prefix@),
{
    let n: usize = prefix.len();
    if text.len() < n {
        return false;
    }
    let mut i: usize = 0;
    while i < n
        invariant
            0 <= i <= n,
            n == prefix@.len(),
            n <= text@.len(),
            forall|j: int| 0 <= j < i ==> text@[j] == prefix@[j],
        decreases n - i,
    {
        if text[i] != prefix[i] {
            assert(text@.subrange(0, n as int)[i as int] != prefix@[i as int]);
            return false;
        }
        i = i + 1;
    }
    assert(text@.subrange(0, n as int) =~= prefix@);
    true
}

} // verus!
