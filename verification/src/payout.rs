//! How a closed round's pool is divided.
//!
//! Nine tenths of the pool are the prize pool, shared equally by the winners;
//! one tenth is the administrator's fee. Every division rounds down, and what
//! the rounding leaves over stays with the contract.

use vstd::prelude::*;

verus! {

/// The number of winners drawn when a round closes.
pub const WINNER_COUNT: usize = 3;

/// What each winner receives from a pool of `total`.
pub open spec fn spec_prize_amount(total: nat) -> nat {
    total * 90 / 100 / (WINNER_COUNT as nat)
}

/// What the administrator receives from a pool of `total`.
pub open spec fn spec_admin_fee(total: nat) -> nat {
    total * 10 / 100
}

/// Everything that leaves a pool of `total` when its round closes.
pub open spec fn spec_paid_out(total: nat) -> nat {
    WINNER_COUNT as nat * spec_prize_amount(total) + spec_admin_fee(total)
}

/// What the rounding leaves in the contract's balance.
pub open spec fn spec_dust(total: nat) -> int {
    total - spec_paid_out(total)
}

/// Each winner's share of the pool. The intermediate product `total * 90` is
/// never formed, so every pool that fits in 128 bits is accepted.
pub fn prize_amount(total: u128) -> (prize: u128)
    ensures
        prize == spec_prize_amount(total as nat),
{
    let tens: u128 = total / 10;
    let units: u128 = total % 10;
    let prize_pool: u128 = tens * 9 + units * 9 / 10;
    prize_pool / 3
}

/// The administrator's share of the pool.
pub fn admin_fee(total: u128) -> (fee: u128)
    ensures
        fee == spec_admin_fee(total as nat),
{
    total / 10
}

/// The payments of a closing never exceed the pool, and the rounding keeps
/// back at most three units of it.
pub proof fn lemma_payout_within_pool(total: nat)
    ensures
        spec_paid_out(total) <= total,
        0 <= spec_dust(total) <= 3,
        WINNER_COUNT as nat * spec_prize_amount(total) <= total * 90 / 100,
        spec_admin_fee(total) == total / 10,
{
}

/// An empty pool pays nothing.
pub proof fn lemma_empty_pool_pays_nothing()
    ensures
        spec_prize_amount(0) == 0,
        spec_admin_fee(0) == 0,
{
}

} // verus!
