//! Integer ratio arithmetic shared by both payout policies, and the lemmas
//! about floored division that the settlement proofs rest on.

use vstd::prelude::*;
use vstd::arithmetic::div_mod::{
    lemma_fundamental_div_mod, lemma_div_is_ordered, lemma_div_pos_is_pos,
    lemma_multiply_divide_le, lemma_mod_division_less_than_divisor,
};
use vstd::arithmetic::mul::{
    lemma_mul_inequality, lemma_mul_nonnegative, lemma_mul_is_distributive_sub,
};
use crate::FEE_PRECISION;

verus! {

/// `a * num / den`, floored, computed over unbounded integers.
pub open spec fn mul_ratio(a: u128, num: u128, den: u128) -> int {
    (a as int * num as int) / (den as int)
}

/// Relies on `cosmwasm_std::Uint128::checked_multiply_ratio`: it computes
/// `a * num / den` (floored) with a 256-bit intermediate product, and
/// returns an error instead of panicking when the denominator is zero or
/// the quotient does not fit in 128 bits.
#[verifier::external_body]
pub(crate) fn checked_mul_ratio(a: u128, num: u128, den: u128) -> (r: Option<u128>)
    ensures
        r == (if den != 0 && mul_ratio(a, num, den) <= u128::MAX as int {
            Some(mul_ratio(a, num, den) as u128)
        } else {
            None::<u128>
        }),
{
    match cosmwasm_std::Uint128::new(a).checked_multiply_ratio(num, den) {
        Ok(v) => Some(v.u128()),
        Err(_) => None,
    }
}

/// The quotient of non-negative values is non-negative.
pub proof fn lemma_mul_ratio_nonneg(a: u128, num: u128, den: u128)
    requires
        den != 0,
    ensures
        mul_ratio(a, num, den) >= 0,
{
    lemma_mul_nonnegative(a as int, num as int);
    lemma_div_pos_is_pos(a as int * num as int, den as int);
}

/// When the ratio `num / den` is at most one, `a * num / den` is at most `a`.
pub proof fn lemma_mul_ratio_le(a: u128, num: u128, den: u128)
    requires
        0 < den,
        num <= den,
    ensures
        mul_ratio(a, num, den) <= a,
{
    lemma_mul_inequality(num as int, den as int, a as int);
    lemma_multiply_divide_le(a as int * num as int, den as int, a as int);
}

/// Floored division is monotone in the left factor of the numerator.
pub proof fn lemma_mul_div_ordered(x: int, y: int, m: int, d: int)
    requires
        x <= y,
        0 <= m,
        0 < d,
    ensures
        (x * m) / d <= (y * m) / d,
{
    lemma_mul_inequality(x, y, m);
    lemma_div_is_ordered(x * m, y * m, d);
}

/// Splitting a numerator loses at most one unit to truncation:
/// `x/d + y/d <= (x + y)/d <= x/d + y/d + 1`.
pub proof fn lemma_div_add_bounds(x: int, y: int, d: int)
    requires
        0 <= x,
        0 <= y,
        0 < d,
    ensures
        x / d + y / d <= (x + y) / d,
        (x + y) / d <= x / d + y / d + 1,
{
    lemma_fundamental_div_mod(x, d);
    lemma_fundamental_div_mod(y, d);
    lemma_fundamental_div_mod(x + y, d);
    lemma_mod_division_less_than_divisor(x, d);
    lemma_mod_division_less_than_divisor(y, d);
    lemma_mod_division_less_than_divisor(x + y, d);
    let delta = (x + y) / d - x / d - y / d;
    let r = x % d + y % d - (x + y) % d;
    assert(d * delta == r) by {
        lemma_mul_is_distributive_sub(d, (x + y) / d - x / d, y / d);
        lemma_mul_is_distributive_sub(d, (x + y) / d, x / d);
    }
    assert(-d < r && r < 2 * d);
    if delta < 0 {
        lemma_mul_inequality(delta, -1, d);
        assert(delta * d <= -1 * d) by (nonlinear_arith)
            requires delta <= -1 && d > 0;
        assert(d * delta <= -d) by (nonlinear_arith)
            requires delta * d <= -1 * d;
        assert(false);
    }
    if delta > 1 {
        assert(d * delta >= 2 * d) by (nonlinear_arith)
            requires delta >= 2 && d > 0;
        assert(false);
    }
}

/// Gross pari-mutuel winnings: the bettor's proportional share of the whole
/// pool, floored.  Zero whenever the bettor, the winning side, or the pool
/// holds nothing.
pub open spec fn spec_parimutuel_winnings(
    total_bets: u128,
    total_team_bets: u128,
    total_bet: u128,
) -> int {
    if total_bet == 0 || total_team_bets == 0 || total_bets == 0 {
        0
    } else {
        mul_ratio(total_bets, total_bet, total_team_bets)
    }
}

/// With pool total `total_bets`, winning-side total `total_team_bets` and a
/// stake of `total_bet` on the winning side, the gross winnings are
/// `floor(total_bets * total_bet / total_team_bets)`.
pub fn calculate_parimutuel_winnings(
    total_bets: u128,
    total_team_bets: u128,
    total_bet: u128,
) -> (r: u128)
    requires
        total_team_bets == 0 || mul_ratio(total_bets, total_bet, total_team_bets)
            <= u128::MAX as int,
    ensures
        r == spec_parimutuel_winnings(total_bets, total_team_bets, total_bet),
{
    if total_bet == 0 || total_team_bets == 0 || total_bets == 0 {
        return 0;
    }
    proof {
        lemma_mul_ratio_nonneg(total_bets, total_bet, total_team_bets);
    }
    match checked_mul_ratio(total_bets, total_bet, total_team_bets) {
        Some(v) => v,
        // Unreachable: the quotient was just shown to fit.
        None => 0,
    }
}

/// The protocol fee in basis points: `floor(amount * fee_bps / 10000)`.
pub open spec fn spec_fee_amount(amount: u128, fee_bps: u64) -> int {
    (amount as int * fee_bps as int) / (FEE_PRECISION as int)
}

/// The fee never exceeds the amount it is taken from.
pub proof fn lemma_fee_le_amount(amount: u128, fee_bps: u64)
    requires
        fee_bps <= FEE_PRECISION,
    ensures
        0 <= spec_fee_amount(amount, fee_bps) <= amount,
{
    lemma_mul_nonnegative(amount as int, fee_bps as int);
    lemma_div_pos_is_pos(amount as int * fee_bps as int, FEE_PRECISION as int);
    lemma_mul_inequality(fee_bps as int, FEE_PRECISION as int, amount as int);
    lemma_multiply_divide_le(
        amount as int * fee_bps as int,
        FEE_PRECISION as int,
        amount as int,
    );
}

/// The fee charged on `amount` at `fee_bps` basis points.
pub fn calculate_fee(amount: u128, fee_bps: u64) -> (r: u128)
    requires
        fee_bps <= FEE_PRECISION,
    ensures
        r == spec_fee_amount(amount, fee_bps),
        r <= amount,
{
    proof {
        lemma_fee_le_amount(amount, fee_bps);
    }
    match checked_mul_ratio(amount, fee_bps as u128, FEE_PRECISION as u128) {
        Some(v) => v,
        // Unreachable: the fee was just shown to fit.
        None => 0,
    }
}

} // verus!
