//! Cryptographic core of a peer-to-peer secure messenger.
//!
//! The crate provides a hybrid X3DH + Kyber-1024 key agreement, a
//! double-ratchet message engine with header encryption and skipped-message
//! handling, a sender-key group ratchet, an anonymous sealed-sender envelope,
//! per-file media encryption, and an in-memory model of the key/value vault
//! that backs all durable state.  All state transitions are verified; calls
//! into the underlying cryptographic libraries are isolated in
//! `primitives` behind trusted contracts.

pub mod bytes;
pub mod crypto;
pub mod errors;
pub mod groups;
pub mod laws;
pub mod media;
pub mod sealed;
pub mod primitives;
pub mod session;
pub mod types;
pub mod vault;
pub mod wire;
