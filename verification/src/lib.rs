//! A single-process model of a hybrid proof-of-stake consensus round:
//! validators compete for block production weighted by their own stake,
//! stake delegated to them by token holders, and an accruing reputation;
//! the winner extends an append-only, hash-linked chain; inactive
//! validators are periodically penalized; and a sliding-window scan
//! reports when a validator's recent blocks have reached finality.

pub mod block;
pub mod engine;
pub mod hashing;
pub mod laws;
pub mod participants;
pub mod security;
pub mod selection;
