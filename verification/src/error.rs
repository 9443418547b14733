//! The typed errors an operation can fail with.  Every failure aborts the
//! whole call with no state change.

use vstd::prelude::*;

verus! {

/// Why an operation was refused.
#[derive(Clone, Copy, Debug, PartialEq, Eq, Structural)]
pub enum ContractError {
    /// The caller is not the administrator.
    Unauthorized,
    /// The operation needs an `ACTIVE` market.
    MarketNotActive,
    /// Claims need a terminal (`CLOSED` or `CANCELLED`) market.
    MarketNotClosed,
    /// A `DRAW` bet on a market whose draw flag is unset.
    MarketNotDrawable,
    /// A result that this market cannot be scored with.
    MarketNotScoreable,
    /// The bet arrived at or after the pre-match cutoff.
    BetsNotAccepted,
    /// The quoted odds fell below the bettor's minimum.
    MinimumOddsNotFulfilled,
    /// The call was not accompanied by exactly one non-zero payment in the
    /// settlement denomination.
    PaymentError,
    /// The beneficiary has already been paid.
    ClaimAlreadyMade,
    /// Nothing is owed: zero entitlement, or no counterparty at scoring.
    NoWinnings,
    /// The bet's worst-case liability cannot be covered by the funds
    /// already collected.
    MaxBetExceeded,
}

impl ContractError {
    /// A human-readable description of the error.
    pub fn message(&self) -> (r: String)
        ensures
            self is Unauthorized ==> r@ == "Unauthorized"@,
            self is MarketNotActive ==> r@ == "Market not active"@,
            self is MarketNotClosed ==> r@ == "Market not closed"@,
            self is MarketNotDrawable ==> r@ == "Market not drawable"@,
            self is MarketNotScoreable ==> r@ == "Market not scoreable"@,
            self is BetsNotAccepted ==> r@ == "Bets no longer accepted"@,
            self is MinimumOddsNotFulfilled ==> r@ == "Minimum odds not fulfilled"@,
            self is PaymentError ==> r@ == "Payment error"@,
            self is ClaimAlreadyMade ==> r@ == "Claim already made"@,
            self is NoWinnings ==> r@ == "No winnings"@,
            self is MaxBetExceeded ==> r@ == "Max bet exceeded"@,
    {
        match self {
            ContractError::Unauthorized => "Unauthorized".to_owned(),
            ContractError::MarketNotActive => "Market not active".to_owned(),
            ContractError::MarketNotClosed => "Market not closed".to_owned(),
            ContractError::MarketNotDrawable => "Market not drawable".to_owned(),
            ContractError::MarketNotScoreable => "Market not scoreable".to_owned(),
            ContractError::BetsNotAccepted => "Bets no longer accepted".to_owned(),
            ContractError::MinimumOddsNotFulfilled => "Minimum odds not fulfilled".to_owned(),
            ContractError::PaymentError => "Payment error".to_owned(),
            ContractError::ClaimAlreadyMade => "Claim already made".to_owned(),
            ContractError::NoWinnings => "No winnings".to_owned(),
            ContractError::MaxBetExceeded => "Max bet exceeded".to_owned(),
        }
    }
}

} // verus!
