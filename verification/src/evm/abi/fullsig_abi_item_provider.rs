//! The provider of one item, built from one human-readable declaration.

use vstd::prelude::*;
use crate::evm::abi::abi_item::{declaration_refused, AbiItem};
use crate::evm::abi::abi_item_provider::AbiItemProvider;
use crate::evm::abi::codec::parsed_item;
use crate::evm::abi::error::AbiError;

verus! {

/// Whether two byte strings hold the same bytes.
pub fn same_bytes(a: &[u8], b: &[u8]) -> (same: bool)
    ensures
        same == (a@ == b@),
{
    if a.len() != b.len() {
        return false;
    }
    let n: usize = a.len();
    let mut i: usize = 0;
    while i < n
        invariant
            0 <= i <= n,
            n == a@.len(),
            n == b@.len(),
            forall|j: int| 0 <= j < i ==> a@[j] == b@[j],
        decreases n - i,
    {
        if a[i] != b[i] {
            return false;
        }
        i = i + 1;
    }
    assert(a@ =~= b@);
    true
}

/// A provider that holds exactly one item.
#[derive(Debug)]
pub struct FullsigAbiItemProvider {
    item: AbiItem,
}

impl FullsigAbiItemProvider {
    /// The item that the provider holds.
    pub closed spec fn item_view(self) -> AbiItem {
        self.item
    }

    /// The provider of one item.
    pub fn from_item(item: AbiItem) -> (p: Self)
        ensures
            p.item_view() == item,
    {
        FullsigAbiItemProvider { item }
    }

    /// The item that the provider holds.
    pub fn item(&self) -> (item: &AbiItem)
        ensures
            *item == self.item_view(),
    {
        &self.item
    }

    /// The provider of the item that a declaration describes. The
    /// declaration starts with its keyword, `function` or `event`.
    ///
    /// Fails as `AbiItem::parse` does.
    pub fn new(s: &str) -> (r: Result<Self, AbiError>)
        ensures
            match r {
                Ok(p) => parsed_item(s@) matches Ok((kind, d)) && p.item_view().describes(kind, d@),
                Err(e) => declaration_refused(s@, e),
            },
    {
        match AbiItem::parse(s) {
            Ok(item) => Ok(FullsigAbiItemProvider { item }),
            Err(e) => Err(e),
        }
    }
}

impl AbiItemProvider for FullsigAbiItemProvider {
    /// The provider's item for the item's own selector, nothing for any
    /// other.
    open spec fn item_for(&self, selector: Seq<u8>) -> Option<AbiItem> {
        if self.item_view().selector_view() == selector {
            Some(self.item_view())
        } else {
            None
        }
    }

    /// The selector is not that of the item.
    open spec fn miss(&self) -> AbiError {
        AbiError::SelectorMismatch
    }

    fn get_abi_item(&self, selector: &[u8]) -> (r: Result<&AbiItem, AbiError>) {
        let own: Vec<u8> = self.item.selector();
        if same_bytes(own.as_slice(), selector) {
            Ok(&self.item)
        } else {
            Err(AbiError::SelectorMismatch)
        }
    }
}

} // verus!
