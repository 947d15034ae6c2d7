//! How a resolved pool is divided between the winner and the fee recipient.
use vstd::prelude::*;

verus! {

/// The share of the winner: ninety percent of the pool, rounded down.
pub open spec fn winner_share(prize_pool: u64) -> int {
    (prize_pool * 90) / 100
}

/// The share of the fee recipient: what the winner's share leaves of the pool.
pub open spec fn fee_share(prize_pool: u64) -> int {
    prize_pool - winner_share(prize_pool)
}

/// Whether the checked product `prize_pool * 90` fits in 64 bits.
pub open spec fn split_fits(prize_pool: u64) -> bool {
    prize_pool * 90 <= u64::MAX
}

/// Splits `prize_pool` into `(winner_prize, fee_amount)`, or `None` where the
/// checked multiplication by ninety overflows.
pub fn split_prize(prize_pool: u64) -> (r: Option<(u64, u64)>)
    ensures
        r is Some <==> split_fits(prize_pool),
        r matches Some((w, f)) ==> w == winner_share(prize_pool) && f == fee_share(prize_pool),
{
    match prize_pool.checked_mul(90) {
        None => None,
        Some(scaled) => {
            let winner_prize: u64 = scaled / 100;
            proof {
                lemma_winner_share_bounded(prize_pool);
            }
            let fee_amount: u64 = prize_pool - winner_prize;
            Some((winner_prize, fee_amount))
        },
    }
}

proof fn lemma_winner_share_bounded(prize_pool: u64)
    ensures
        0 <= winner_share(prize_pool) <= prize_pool,
{
    assert(0 <= (prize_pool * 90) / 100 <= prize_pool) by (nonlinear_arith);
}

/// The two shares are never negative and add up to the whole pool, so a
/// resolved vault keeps no remainder.
pub proof fn lemma_split_exact(prize_pool: u64)
    ensures
        0 <= winner_share(prize_pool) <= prize_pool,
        0 <= fee_share(prize_pool),
        winner_share(prize_pool) + fee_share(prize_pool) == prize_pool,
{
    lemma_winner_share_bounded(prize_pool);
}

} // verus!
