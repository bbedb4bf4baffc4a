//! Order signing and request authentication for a wallet-keyed exchange
//! client: typed-data (EIP-712) hashing, secp256k1 signing and per-request
//! HMAC headers.

pub mod abi;
pub mod hashing;
pub mod hexcode;
pub mod eip712;
pub mod identity;
pub mod text;
pub mod l2auth;
pub mod error;
pub mod order;
pub mod payload;
pub mod client;
pub mod config;
pub mod strategy;
pub mod market;
