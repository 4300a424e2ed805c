//! Verified core of a PolkaVM contract toolkit: 256-bit word arithmetic,
//! a Uniswap V2 style pair and factory, storage-key derivation, ABI words,
//! and the host-side syscall handling of a PolkaVM contract runner.

pub mod word;
pub mod math;
pub mod bytes;
pub mod keccak;
pub mod storage_keys;
pub mod byte_map;
pub mod pair;
pub mod abi;
pub mod pair_calls;
pub mod pair_host;
pub mod factory;
pub mod fibonacci;
pub mod uart;
pub mod arithmetic;
pub mod bytecode;
pub mod syscall;
pub mod polkavm_api;
pub mod executor;
pub mod evm;
pub mod vm;
