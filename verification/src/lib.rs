//! An append-only store of signed, verifiable byte streams.
//!
//! Every stream belongs to a peer, named by an Ed25519 public key, and is
//! described by a signed head that binds the stream's identifier, its length
//! and the root of a BLAKE3 hash tree over its bytes. Any range of a stream
//! can be handed to another peer as a slice that is checked against that head.

pub mod base64url;
pub mod bytes;
pub mod decimal;
pub mod error;
pub mod head;
pub mod id;
pub mod lock;
pub mod reader;
pub mod signature;
pub mod store;
pub mod stream;
pub mod tree;
pub mod writer;
