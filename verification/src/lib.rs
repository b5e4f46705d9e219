//! Core of an EVM-compatible blockchain node: the deterministic transaction
//! executor with its fee allocation policy, the native system contracts with
//! the epoch metadata store, the canonical codec for consensus wire messages,
//! the BFT driver state machine with its write-ahead-log records, and the
//! network message reactor.

pub mod bytesutil;
pub mod codec;
pub mod consensus;
pub mod driver;
pub mod executor;
pub mod hashing;
pub mod memory;
pub mod metadata;
pub mod reactor;
pub mod rlp;
pub mod status;
pub mod tx;
pub mod types;
