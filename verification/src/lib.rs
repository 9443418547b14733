//! A wager-settlement engine for two-sided (optionally three-sided) sporting
//! markets.  Bets are collected while a market is active; an administrator
//! either scores the market (fixing the winning outcome) or cancels it, and
//! each account then claims its entitlement exactly once.  Two payout
//! policies are provided: pari-mutuel pooling and fixed (locked) odds.

use vstd::prelude::*;

pub mod claims;
pub mod error;
pub mod fixed_odds;
pub mod funds;
pub mod ledger;
pub mod math;
pub mod parimutuel;
pub mod state;

verus! {

/// Basis-point denominator: a fee of 10000 basis points is 100%.
pub const FEE_PRECISION: u64 = 10000;

/// Bets close this many seconds before the scheduled start of the match.
pub const BET_CUTOFF_SECONDS: u64 = 300;

/// Fixed-point scale of quoted odds: a stored value of 25000 means
/// decimal odds of 2.5.
pub const ODDS_SCALE: u128 = 10000;

/// The account a bet or a claim is credited to: the explicit receiver if
/// one was named, otherwise the caller.
pub open spec fn spec_beneficiary(sender: Seq<char>, receiver: Option<String>) -> Seq<char> {
    match receiver {
        Some(r) => r@,
        None => sender,
    }
}

/// Status may only move from `ACTIVE` to a terminal state; terminal states
/// never change again.
pub open spec fn status_progression(a: crate::state::Status, b: crate::state::Status) -> bool {
    b == a || a is ACTIVE
}

/// Bets are accepted strictly before `start - BET_CUTOFF_SECONDS`.
pub open spec fn spec_bet_window_open(start: u64, now: u64) -> bool {
    (now as int) + (BET_CUTOFF_SECONDS as int) < start as int
}

/// A terminal status admits no further movement: every operation's status
/// transition fixes `CLOSED` and `CANCELLED` forever.
pub proof fn lemma_terminal_status_fixed(a: crate::state::Status, b: crate::state::Status)
    requires
        status_progression(a, b),
        !(a is ACTIVE),
    ensures
        b == a,
{
}

} // verus!
