//! Coordination of a file-based FROST threshold signing ceremony over
//! secp256k1, and the encoders that make its key and signature usable by an
//! EVM verifier.
//!
//! The ceremony's state is the set of files in a workspace directory; each
//! command reads some of them, calls the signature engine, writes its
//! outputs and deletes what it consumed. The commands here work on an
//! in-memory [`store::Store`] of those files, so that what each leaves
//! behind is stated and proved.

pub mod abi;
pub mod address;
pub mod ceremony;
pub mod command;
pub mod curve;
pub mod engine;
pub mod evm;
pub mod fmt;
pub mod hex;
pub mod info;
pub mod keccak;
pub mod lifecycle;
pub mod store;
pub mod text;
pub mod workspace;
