//! A minimal single-node blockchain ledger: an append-only chain of blocks,
//! each carrying authorized account operations, validated and linked by a
//! proof-of-work consensus rule.

use vstd::prelude::*;

pub mod block;
pub mod chain;
pub mod consensus;
pub mod hash;
pub mod origin;
pub mod transaction;

verus! {

/// Nonce searched over by the proof-of-work miner.
pub type Nonce = u32;

/// Height of a block within the chain.
pub type BlockNumber = u64;

/// Accounts are identified by a digest-sized value.
pub type AccountId = crate::hash::Hash;

/// Account balances: unsigned, overflow is a hard error.
pub type Balance = u64;

/// Relies on `std::time::SystemTime::now` (read against `UNIX_EPOCH`, in
/// whole seconds): the wall clock. Nothing is promised of the value — two
/// calls may return anything — so every caller states what holds of its
/// result whatever the clock returned.
#[verifier::external_body]
pub fn current_timestamp() -> u64 {
    std::time::SystemTime::now()
        .duration_since(std::time::UNIX_EPOCH)
        .map(|elapsed| elapsed.as_secs())
        .unwrap_or(0)
}

} // verus!
