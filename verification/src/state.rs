//! The persistent records of a market: its configuration, its lifecycle
//! state, and the aggregate bet totals.

use vstd::prelude::*;

verus! {

/// Lifecycle state of a market.  `ACTIVE` is the initial state; `CLOSED`
/// (scored) and `CANCELLED` are terminal and are never left again.
#[derive(Clone, Copy, Debug, PartialEq, Eq, Structural)]
pub enum Status {
    ACTIVE,
    CLOSED,
    CANCELLED,
}

impl Status {
    /// The display name of the status.
    pub fn to_string(&self) -> (r: String)
        ensures
            self is ACTIVE ==> r@ == "ACTIVE"@,
            self is CLOSED ==> r@ == "CLOSED"@,
            self is CANCELLED ==> r@ == "CANCELLED"@,
    {
        match self {
            Status::ACTIVE => "ACTIVE".to_owned(),
            Status::CLOSED => "CLOSED".to_owned(),
            Status::CANCELLED => "CANCELLED".to_owned(),
        }
    }
}

/// An outcome a bet can be placed on.  `DRAW` is only permitted on markets
/// whose draw flag is set.
#[derive(Clone, Copy, Debug, PartialEq, Eq, Structural)]
pub enum MarketResult {
    HOME,
    AWAY,
    DRAW,
}

impl MarketResult {
    /// The display name of the outcome.
    pub fn to_string(&self) -> (r: String)
        ensures
            self is HOME ==> r@ == "HOME"@,
            self is AWAY ==> r@ == "AWAY"@,
            self is DRAW ==> r@ == "DRAW"@,
    {
        match self {
            MarketResult::HOME => "HOME".to_owned(),
            MarketResult::AWAY => "AWAY".to_owned(),
            MarketResult::DRAW => "DRAW".to_owned(),
        }
    }
}

/// Immutable engine configuration, fixed at instantiation.
#[derive(Debug)]
pub struct Config {
    /// Account allowed to reschedule, score or cancel the market.
    pub admin_addr: String,
    /// Account that protocol fees are owed to.
    pub treasury_addr: String,
    /// Protocol fee in basis points, at most 10000.
    pub fee_bps: u64,
    /// Denomination of the settlement currency.
    pub denom: String,
}

/// The authoritative market record.
#[derive(Debug)]
pub struct Market {
    pub id: String,
    pub label: String,
    pub home_team: String,
    pub away_team: String,
    /// Scheduled start of the match, in seconds.
    pub start_timestamp: u64,
    pub status: Status,
    /// The winning outcome; set exactly when the market is `CLOSED`.
    pub result: Option<MarketResult>,
    /// Whether bets on (and a result of) `DRAW` are permitted.
    pub is_drawable: bool,
}

/// Aggregate stake per outcome.
#[derive(Clone, Copy, Debug, PartialEq, Eq, Structural)]
pub struct TotalBets {
    pub total_home: u128,
    pub total_away: u128,
    pub total_draw: u128,
}

/// A quantity of the settlement currency, as attached to a call.
#[derive(Debug)]
pub struct Coin {
    pub denom: String,
    pub amount: u128,
}

impl Clone for Config {
    fn clone(&self) -> (r: Self)
        ensures
            r == *self,
    {
        Config {
            admin_addr: self.admin_addr.clone(),
            treasury_addr: self.treasury_addr.clone(),
            fee_bps: self.fee_bps,
            denom: self.denom.clone(),
        }
    }
}

impl Clone for Market {
    fn clone(&self) -> (r: Self)
        ensures
            r == *self,
    {
        Market {
            id: self.id.clone(),
            label: self.label.clone(),
            home_team: self.home_team.clone(),
            away_team: self.away_team.clone(),
            start_timestamp: self.start_timestamp,
            status: self.status,
            result: self.result,
            is_drawable: self.is_drawable,
        }
    }
}

impl Clone for Coin {
    fn clone(&self) -> (r: Self)
        ensures
            r == *self,
    {
        Coin { denom: self.denom.clone(), amount: self.amount }
    }
}

} // verus!
