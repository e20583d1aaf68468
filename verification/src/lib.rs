//! Verified core of the Eä envelope ledger: canonical encoding, domain-separated
//! hashing, signature and attestation checking, the append-only log with Merkle
//! inclusion proofs, checkpoints, replay validation, content-addressable payload
//! storage, the single-writer orchestrator, and the transport state machines.

pub mod brainstem;
pub mod bytes;
pub mod checkpoint;
pub mod codec;
pub mod crypto;
pub mod hashes;
pub mod log;
pub mod merkle;
pub mod model;
pub mod muscle_loader;
pub mod office;
pub mod registry;
pub mod replay;
pub mod transport;
pub mod validate;
