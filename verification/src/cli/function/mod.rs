//! The functions that the program offers, one command each.

use vstd::prelude::*;

pub mod convert_format;
pub mod ethereum_decode_tx;
pub mod ethereum_rpc;
pub mod ethereum_rpc_call;
pub mod evm_decode_call;
pub mod evm_decode_event;
pub mod evm_descriptor_from_fullsig;
pub mod keccak256;

use convert_format::ConvertFormatCommand;
use ethereum_decode_tx::EthereumDecodeTxCommand;
use ethereum_rpc::EthereumRPCCommand;
use ethereum_rpc_call::EthereumRPCCallCommand;
use evm_decode_call::EVMDecodeCallCommand;
use evm_decode_event::EVMDecodeEventCommand;
use evm_descriptor_from_fullsig::EVMDescriptorFromFullsigCommand;
use keccak256::Keccak256Command;

verus! {

/// One of the program's functions, with its configuration.
#[derive(Debug, Clone)]
pub enum FunctionCommand {
    EVMDecodeEvent(EVMDecodeEventCommand),
    EVMDecodeCall(EVMDecodeCallCommand),
    EthereumDecodeTx(EthereumDecodeTxCommand),
    EthereumRPC(EthereumRPCCommand),
    EthereumRPCCall(EthereumRPCCallCommand),
    EVMDescriptorFromFullsig(EVMDescriptorFromFullsigCommand),
    Keccak256(Keccak256Command),
    ConvertFormat(ConvertFormatCommand),
}

} // verus!
