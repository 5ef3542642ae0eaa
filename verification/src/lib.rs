//! Per-connection cryptographic state core of a DTLS implementation.
//!
//! The crate tracks handshake progress (epoch and sequence counters,
//! handshake randoms, master secret), binds a negotiated cipher suite,
//! exports keying material in the style of RFC 5705, and snapshots and
//! restores connection state through a compact binary form for session
//! resumption.

pub mod bytes;
pub mod cipher_suite;
pub mod errors;
pub mod handshake_random;
pub mod prf;
pub mod snapshot;
pub mod srtp;
pub mod state;
