//! Client-side core for invoking methods on a deployed smart contract.
//!
//! The crate translates a method name and textual arguments into the binary
//! call payload the contract expects, constructs simulated-query or signed
//! submission requests, and decodes returned data and emitted events back
//! into structured values.

pub mod codec;
pub mod descriptor;
pub mod dispatch;
pub mod encoding;
pub mod error;
pub mod options;
pub mod parse;
pub mod render;
pub mod signer;
pub mod strutil;
pub mod transcoder;
pub mod types;
