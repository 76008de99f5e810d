//! The ways in which resolving, decoding and encoding can fail.

use vstd::prelude::*;

verus! {

/// Why an ABI item could not be built, found or used.
#[derive(Debug, Clone)]
pub enum AbiError {
    /// The text is no declaration or no JSON ABI document; the parser's
    /// message is inside.
    Parse(String),
    /// The declaration is well formed, but describes neither a function nor
    /// an event.
    NotFunctionOrEvent,
    /// The JSON descriptor does not describe an item of the kind asked for.
    InvalidDescriptor,
    /// A type of the item cannot be resolved; the resolver's message is
    /// inside.
    Unresolved(String),
    /// The provider's only item has another selector.
    SelectorMismatch,
    /// The provider has no item with this selector.
    NotFound,
    /// The item with this selector is of the other kind.
    WrongKind,
    /// The bytes do not fit the types; the decoder's message is inside.
    Decode(String),
    /// The values do not fit the types; the encoder's message is inside.
    Encode(String),
    /// The JSON arguments do not fit the parameters: there are too few or
    /// too many of them, or one cannot be read as its parameter's type.
    Coercion(String),
    /// The log has another number of topics than the event declares.
    LogShape { expected: usize, actual: usize },
    /// The first topic of the log is not the event's selector.
    SignatureMismatch,
    /// The bytes of a source or of a document are no UTF-8 text.
    InvalidUtf8,
    /// The source names a document, and no document was handed over.
    DocumentMissing,
    /// A decoded event holds fewer indexed values than the event declares.
    NotEnoughIndexed,
    /// A decoded event holds fewer values in its body than the event declares.
    NotEnoughUnindexed,
}

} // verus!
