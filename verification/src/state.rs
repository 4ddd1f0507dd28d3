//! Long-lived records of the pool: the tree account, the fee-collection
//! account, the policy record, and the nullifier marker.

use vstd::prelude::*;

verus! {

/// The fee-collection account of the pool.
pub struct TreeTokenAccount {
    pub authority: [u8; 32],
}

/// The fee policy of the pool, set once at initialization.
///
/// All three rates are basis points; only the administrative path outside
/// this crate ever changes them.
pub struct GlobalConfig {
    pub authority: [u8; 32],
    pub deposit_fee_rate: u16,
    pub withdrawal_fee_rate: u16,
    pub fee_error_margin: u16,
}

/// The marker whose existence says a nullifier was consumed; it carries no
/// payload of its own.
pub struct NullifierAccount {
    pub spent: bool,
}

} // verus!
