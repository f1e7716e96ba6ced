//! Canonical hashing of block headers and a height-indexed store of trusted
//! states, for a light client of a Tendermint chain.

pub mod abci_query;
pub mod account;
pub mod amino;
pub mod block;
pub mod encoding;
pub mod error;
pub mod hash;
pub mod header;
pub mod merkle;
pub mod numbers;
pub mod serializers;
pub mod store;
pub mod text;
pub mod time;
