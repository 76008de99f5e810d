//! The provider of the items of a JSON ABI document.

use vstd::prelude::*;
use crate::evm::abi::abi_item::{item_refused, AbiItem};
use crate::evm::abi::abi_item_provider::AbiItemProvider;
use crate::evm::abi::codec::{parse_document, parsed_document, ItemKind};
use crate::evm::abi::error::AbiError;
use crate::evm::abi::fullsig_abi_item_provider::same_bytes;
use crate::evm::abi::primitives::utf8_text;

verus! {

/// The functions and events among the first `n` entries of a document, in
/// their order.
pub open spec fn kept_entries(entries: Seq<(ItemKind, String)>, n: int) -> Seq<(ItemKind, String)>
    decreases n,
{
    if n <= 0 || n > entries.len() {
        Seq::empty()
    } else if entries[n - 1].0 == ItemKind::Other {
        kept_entries(entries, n - 1)
    } else {
        kept_entries(entries, n - 1).push(entries[n - 1])
    }
}

/// The entry at `i` is a function or an event that is refused with `e`, and
/// no entry before it is refused.
pub open spec fn first_refused_entry(entries: Seq<(ItemKind, String)>, i: int, e: AbiError) -> bool {
    &&& 0 <= i < entries.len()
    &&& entries[i].0 != ItemKind::Other
    &&& item_refused(entries[i].0, entries[i].1@, e)
    &&& entries_accepted(entries, i)
}

/// Each of the first `n` entries is no function and no event, or one from
/// which an item can be built.
pub open spec fn entries_accepted(entries: Seq<(ItemKind, String)>, n: int) -> bool {
    forall|j: int|
        0 <= j < n ==> (#[trigger] entries[j]).0 == ItemKind::Other || exists|item: AbiItem|
            item.describes(entries[j].0, entries[j].1@)
}

/// Some function or event of the document is refused, and `e` says why the
/// first such entry is.
pub open spec fn some_entry_refused(entries: Seq<(ItemKind, String)>, e: AbiError) -> bool {
    exists|i: int| first_refused_entry(entries, i, e)
}

/// `items` are the items that `entries` describe, one for each, in order.
pub open spec fn items_describe(items: Seq<AbiItem>, entries: Seq<(ItemKind, String)>) -> bool {
    &&& items.len() == entries.len()
    &&& forall|i: int|
        0 <= i < items.len() ==> (#[trigger] items[i]).describes(entries[i].0, entries[i].1@)
}

/// The position of the last of the first `n` items with this selector.
pub open spec fn last_match(items: Seq<AbiItem>, selector: Seq<u8>, n: int) -> Option<int>
    decreases n,
{
    if n <= 0 || n > items.len() {
        None
    } else if items[n - 1].selector_view() == selector {
        Some(n - 1)
    } else {
        last_match(items, selector, n - 1)
    }
}

/// No provider can be built from the document, and `e` says why.
pub open spec fn document_refused(content: Seq<u8>, e: AbiError) -> bool {
    if !vstd::utf8::valid_utf8(content) {
        e is InvalidUtf8
    } else {
        match parsed_document(vstd::utf8::decode_utf8(content)) {
            Err(m) => e == AbiError::Parse(m),
            Ok(entries) => some_entry_refused(entries@, e),
        }
    }
}

/// The provider holds the functions and events of the document, in the
/// order in which the document lists them.
pub open spec fn built(p: FileAbiItemProvider, content: Seq<u8>) -> bool {
    &&& vstd::utf8::valid_utf8(content)
    &&& parsed_document(vstd::utf8::decode_utf8(content)) matches Ok(entries)
    &&& items_describe(p.items_view(), kept_entries(entries@, entries@.len() as int))
}

/// A provider that holds the functions and events of one document. Where two
/// of them have the same selector, the later one answers.
#[derive(Debug)]
pub struct FileAbiItemProvider {
    items: Vec<AbiItem>,
}

impl FileAbiItemProvider {
    /// The items of the provider, in the order of the document.
    pub closed spec fn items_view(self) -> Seq<AbiItem> {
        self.items@
    }

    /// The provider of the functions and events of a JSON ABI document. The
    /// other entries of the document are left out.
    ///
    /// Fails with `InvalidUtf8` exactly when the bytes are no text, with
    /// `Parse` and the parser's message exactly when the text is no JSON ABI
    /// document, and otherwise exactly when a function or an event of the
    /// document is refused, with the error of the first such entry.
    pub fn new(content: &[u8]) -> (r: Result<Self, AbiError>)
        ensures
            match r {
                Ok(p) => built(p, content@),
                Err(e) => document_refused(content@, e),
            },
    {
        let text: &str = match utf8_text(content) {
            Some(text) => text,
            None => {
                return Err(AbiError::InvalidUtf8);
            },
        };
        proof {
            vstd::utf8::encode_utf8_decode_utf8(text@);
        }
        let entries: Vec<(ItemKind, String)> = match parse_document(text) {
            Ok(entries) => entries,
            Err(m) => {
                return Err(AbiError::Parse(m));
            },
        };
        let n: usize = entries.len();
        let mut items: Vec<AbiItem> = Vec::new();
        let mut i: usize = 0;
        while i < n
            invariant
                0 <= i <= n,
                n == entries@.len(),
                vstd::utf8::valid_utf8(content@),
                parsed_document(vstd::utf8::decode_utf8(content@)) == Ok::<
                    Vec<(ItemKind, String)>,
                    String,
                >(entries),
                entries_accepted(entries@, i as int),
                items_describe(items@, kept_entries(entries@, i as int)),
            decreases n - i,
        {
            match entries[i].0 {
                ItemKind::Other => {},
                kind => {
                    match AbiItem::new(kind, entries[i].1.as_str()) {
                        Ok(item) => {
                            assert(item.describes(entries@[i as int].0, entries@[i as int].1@));
                            items.push(item);
                        },
                        Err(e) => {
                            assert(first_refused_entry(entries@, i as int, e));
                            assert(some_entry_refused(entries@, e));
                            return Err(e);
                        },
                    }
                },
            }
            i = i + 1;
        }
        Ok(FileAbiItemProvider { items })
    }
}

impl AbiItemProvider for FileAbiItemProvider {
    /// The last item of the document with the selector.
    open spec fn item_for(&self, selector: Seq<u8>) -> Option<AbiItem> {
        match last_match(self.items_view(), selector, self.items_view().len() as int) {
            Some(i) => Some(self.items_view()[i]),
            None => None,
        }
    }

    /// No item is found.
    open spec fn miss(&self) -> AbiError {
        AbiError::NotFound
    }

    fn get_abi_item(&self, selector: &[u8]) -> (r: Result<&AbiItem, AbiError>) {
        let mut n: usize = self.items.len();
        while n > 0
            invariant
                0 <= n <= self.items@.len(),
                last_match(self.items@, selector@, self.items@.len() as int) == last_match(
                    self.items@,
                    selector@,
                    n as int,
                ),
            decreases n,
        {
            let own: Vec<u8> = self.items[n - 1].selector();
            if same_bytes(own.as_slice(), selector) {
                return Ok(&self.items[n - 1]);
            }
            n = n - 1;
        }
        Err(AbiError::NotFound)
    }
}

} // verus!
