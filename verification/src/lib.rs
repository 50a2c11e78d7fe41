//! A single-round raffle: participants pay a fixed entry fee into a shared
//! pool, and at settlement one participant is selected pseudo-randomly from
//! the pool and receives the whole balance.
//!
//! The crate is split in two parts: `selection` holds the pseudo-random
//! winner-selection arithmetic (a keccak-256 digest of a timestamp and the
//! operator identity, folded to a small integer and reduced modulo the pool
//! size), and `round` holds the round state machine (participant registry,
//! winner ledger, round counter, and the access rules for settlement).

pub mod round;
pub mod selection;
