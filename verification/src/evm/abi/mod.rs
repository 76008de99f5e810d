//! ABI items, the values they decode to, and the JSON that reports them.

pub mod abi_item;
pub mod abi_item_provider;
pub mod codec;
pub mod error;
pub mod event;
pub mod file_abi_item_provider;
pub mod fullsig_abi_item_provider;
pub mod function;
pub mod json_encoding;
pub mod primitives;
pub mod signature;
pub mod value;
pub mod word;
