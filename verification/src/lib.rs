//! Core of a cross-chain verifiable-randomness relay.
//!
//! The library verifies the engine that is shared by the relay's oracle and
//! gateway sides: accepting beacon rounds from authorized bots with replay and
//! duplicate protection, a durable round-indexed FIFO job queue that defers
//! randomness requests until their round is available, a dispatcher that
//! tolerates failures of the delivery channel without losing jobs, an
//! access gate (allow-list plus operator set) in front of the request entry
//! point, and an append-only request log with a monotonic processed counter.
//!
//! External collaborators (persistent storage, the acknowledged message
//! channel between chains, address validation, and the BLS pairing check
//! itself) stay outside: the embedder performs them and hands their outcomes
//! to the relay as plain values, so every decision the relay makes is
//! verified.

pub mod addrs;
pub mod errors;
pub mod gate;
pub mod jobs;
pub mod rounds;
pub mod dispatch;
pub mod stats;
pub mod relay;
