//! An ABI item: a function or an event.

use vstd::prelude::*;
use crate::evm::abi::codec::{parse_item, parsed_item, ItemKind};
use crate::evm::abi::error::AbiError;
use crate::evm::abi::event::{event_refused, Event};
use crate::evm::abi::function::{function_refused, Function};

verus! {

/// No item of this kind can be built from the descriptor, and `e` says why:
/// the kind is neither function nor event, or the function or the event is
/// refused.
pub open spec fn item_refused(kind: ItemKind, descriptor: Seq<char>, e: AbiError) -> bool {
    match kind {
        ItemKind::Function => function_refused(descriptor, e),
        ItemKind::Event => event_refused(descriptor, e),
        ItemKind::Other => e is NotFunctionOrEvent,
    }
}

/// No item can be built from the declaration, and `e` says why: the text is
/// no declaration, or the item that it declares is refused.
pub open spec fn declaration_refused(text: Seq<char>, e: AbiError) -> bool {
    match e {
        AbiError::Parse(m) => parsed_item(text) == Err::<(ItemKind, String), String>(m),
        _ => parsed_item(text) matches Ok((kind, d)) && item_refused(kind, d@, e),
    }
}

/// A function or an event.
#[derive(Debug)]
pub enum AbiItem {
    Event(Event),
    Function(Function),
}

impl AbiItem {
    /// The selector of the item: four bytes for a function, 32 for an event.
    pub open spec fn selector_view(self) -> Seq<u8> {
        match self {
            AbiItem::Event(e) => e.selector_view(),
            AbiItem::Function(f) => f.selector_view(),
        }
    }

    /// The item is of this kind and is what `alloy` reports of this
    /// descriptor.
    pub open spec fn describes(self, kind: ItemKind, descriptor: Seq<char>) -> bool {
        match self {
            AbiItem::Event(e) => kind == ItemKind::Event && e.describes(descriptor),
            AbiItem::Function(f) => kind == ItemKind::Function && f.describes(descriptor),
        }
    }

    /// The item of this kind that a JSON descriptor describes.
    ///
    /// Fails with `NotFunctionOrEvent` exactly for a kind that is neither,
    /// and otherwise as the constructor of the function or of the event
    /// fails.
    pub fn new(kind: ItemKind, descriptor: &str) -> (r: Result<AbiItem, AbiError>)
        ensures
            match r {
                Ok(item) => item.describes(kind, descriptor@),
                Err(e) => item_refused(kind, descriptor@, e),
            },
    {
        match kind {
            ItemKind::Function => match Function::new(descriptor) {
                Ok(f) => Ok(AbiItem::Function(f)),
                Err(e) => Err(e),
            },
            ItemKind::Event => match Event::new(descriptor) {
                Ok(e) => Ok(AbiItem::Event(e)),
                Err(e) => Err(e),
            },
            ItemKind::Other => Err(AbiError::NotFunctionOrEvent),
        }
    }

    /// The item that a human-readable declaration describes. The declaration
    /// starts with its keyword: `function transfer(address,uint256)`.
    ///
    /// Fails with `Parse` and the parser's message exactly when the text is
    /// no declaration, with `NotFunctionOrEvent` exactly when it declares
    /// something else, and with `Unresolved` exactly when a type of the
    /// function or event that it declares does not resolve.
    pub fn parse(s: &str) -> (r: Result<AbiItem, AbiError>)
        ensures
            match r {
                Ok(item) => parsed_item(s@) matches Ok((kind, d)) && item.describes(kind, d@),
                Err(e) => declaration_refused(s@, e),
            },
    {
        match parse_item(s) {
            Err(m) => Err(AbiError::Parse(m)),
            Ok((kind, d)) => AbiItem::new(kind, d.as_str()),
        }
    }

    /// The selector of the item.
    pub fn selector(&self) -> (r: Vec<u8>)
        ensures
            r@ == self.selector_view(),
    {
        match self {
            AbiItem::Event(e) => {
                let s: [u8; 32] = e.selector();
                vstd::slice::slice_to_vec(vstd::array::array_as_slice(&s))
            },
            AbiItem::Function(f) => {
                let s: [u8; 4] = f.selector();
                vstd::slice::slice_to_vec(vstd::array::array_as_slice(&s))
            },
        }
    }
}

} // verus!
