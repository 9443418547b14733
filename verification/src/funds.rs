//! Validation of the funds attached to a bet: the stake is taken from the
//! accompanying transfer, never from a client-supplied field.

use vstd::prelude::*;
use crate::state::Coin;

verus! {

/// The accepted payment: exactly one coin, of the settlement denomination,
/// with a non-zero amount; `None` otherwise.
pub open spec fn spec_must_pay(funds: Seq<Coin>, denom: Seq<char>) -> Option<u128> {
    if funds.len() == 1 && funds[0].denom@ == denom && funds[0].amount > 0 {
        Some(funds[0].amount)
    } else {
        None
    }
}

/// Extract the single payment of denomination `denom` from `funds`, if
/// that is what `funds` holds.
pub fn must_pay(funds: &Vec<Coin>, denom: &String) -> (r: Option<u128>)
    ensures
        r == spec_must_pay(funds@, denom@),
{
    if funds.len() != 1 {
        return None;
    }
    let c = &funds[0];
    if c.denom == *denom && c.amount > 0 {
        Some(c.amount)
    } else {
        None
    }
}

} // verus!
