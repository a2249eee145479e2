//! Core logic of a confidential key-disclosure pipeline.
//!
//! A prover holds a secret symmetric key and makes it recoverable along two
//! independent paths: a time-delayed path gated by a round of a public
//! randomness beacon, and a peer-targeted path gated by a key exchange with
//! one counterparty. This crate holds the parts whose behaviour is worth
//! stating and proving: the round scheduling arithmetic, the key handoff
//! between the two sessions, the byte layouts of the committed public values,
//! and the assembly of the verifier-facing fixtures. Network access, the
//! proving backend and the file system stay with the caller.

pub mod codec;
pub mod errors;
pub mod exchange;
pub mod fixtures;
pub mod keys;
pub mod rounds;
pub mod timelock;
