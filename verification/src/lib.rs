//! Reconstructs the history of an Ethereum contract storage slot by querying
//! a node over JSON-RPC for the slot's value across a range of historical
//! blocks, recording only the transitions.
//!
//! The crate holds the verified core: the hex/decimal codec used on the wire,
//! the JSON-RPC request framing, the typed method facade, and the scan engine
//! that walks the block range, deduplicates consecutive equal values and
//! supports cooperative interruption. The HTTP transport, signal registration
//! and file output live outside the library and drive it through plain values.

pub mod codec;
pub mod json;
pub mod rpc;
pub mod scan;
