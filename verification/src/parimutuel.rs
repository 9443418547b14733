//! The pari-mutuel market engine: all losing stakes (and the winners' own)
//! are pooled, and each winner receives the pool in proportion to its share
//! of the winning side, less the protocol fee.

use vstd::prelude::*;
use crate::claims::ClaimSet;
use crate::error::ContractError;
use crate::funds::{must_pay, spec_must_pay};
use crate::ledger::{
    BetEntry, BetLedger, has_account, stake_in, sum_stakes, sum_unclaimed, sum_weights,
    lemma_absent_zero, lemma_entry_for_props, lemma_lookup_le_sum, lemma_row_has_account,
    lemma_sum_unclaimed_bounds, lemma_sum_unclaimed_empty, lemma_sum_unclaimed_ext,
    lemma_sum_unclaimed_full, lemma_sum_unclaimed_mark, lemma_sum_weights_ext,
    lemma_sum_weights_stakes, lemma_sums_nonneg, lemma_unclaimed_row_le, entry_for,
};
use crate::math::{
    calculate_fee, calculate_parimutuel_winnings, lemma_div_add_bounds, lemma_mul_ratio_le,
    lemma_mul_ratio_nonneg, mul_ratio, spec_fee_amount, spec_parimutuel_winnings,
};
use crate::state::{Coin, Config, Market, MarketResult, Status, TotalBets};
use crate::{
    spec_beneficiary, spec_bet_window_open, status_progression, BET_CUTOFF_SECONDS,
    FEE_PRECISION,
};
use vstd::arithmetic::mul::{lemma_mul_is_distributive_add, lemma_mul_nonnegative};

verus! {

/// Parameters of a new pari-mutuel market.
#[derive(Debug)]
pub struct InstantiateMsg {
    /// Protocol fee in basis points.
    pub fee_bps: u64,
    /// Denomination of the settlement currency.
    pub denom: String,
    pub id: String,
    pub label: String,
    pub home_team: String,
    pub away_team: String,
    /// Scheduled start of the match, in seconds.
    pub start_timestamp: u64,
    /// Whether bets on `DRAW` are permitted.
    pub is_drawable: bool,
}

/// A mutating call on a pari-mutuel market.
#[derive(Debug)]
pub enum ExecuteMsg {
    PlaceBet { result: MarketResult, receiver: Option<String> },
    ClaimWinnings { receiver: Option<String> },
    /// Admin: reschedule the start of the match.
    Update { start_timestamp: u64 },
    /// Admin: record the result and close the market.
    Score { result: MarketResult },
    /// Admin: cancel the market; every stake becomes refundable.
    Cancel,
}

/// A read-only call on a pari-mutuel market.
#[derive(Debug)]
pub enum QueryMsg {
    Config,
    Market,
    Bets,
    BetsByAddress { address: String },
    EstimateWinnings { address: String, result: MarketResult },
}

/// The answer to a [`QueryMsg`].
#[derive(Debug)]
pub enum QueryResponse {
    Config(Config),
    Market(Market),
    Bets(TotalBets),
    BetsByAddress(TotalBets),
    EstimateWinnings(u128),
}

/// What a successful mutating call did.
#[derive(Debug)]
pub enum ExecResponse {
    BetPlaced { amount: u128 },
    WinningsClaimed { payout: u128 },
    MarketUpdated,
    MarketScored,
    MarketCancelled,
}

/// A pari-mutuel market: configuration, lifecycle record, one bet pool per
/// outcome with its running total, the claim guard, and the running
/// payout/fee bookkeeping.
#[derive(Debug)]
pub struct ParimutuelMarket {
    config: Config,
    market: Market,
    pool_home: BetLedger,
    pool_away: BetLedger,
    pool_draw: BetLedger,
    total_home: u128,
    total_away: u128,
    total_draw: u128,
    claims: ClaimSet,
    paid_out: u128,
    fees_collected: u128,
}

impl ParimutuelMarket {
    /// The engine configuration.
    pub closed spec fn spec_config(&self) -> Config {
        self.config
    }

    /// The market record.
    pub closed spec fn spec_market(&self) -> Market {
        self.market
    }

    /// The lifecycle status.
    pub open spec fn spec_status(&self) -> Status {
        self.spec_market().status
    }

    /// The recorded result.
    pub open spec fn spec_result(&self) -> Option<MarketResult> {
        self.spec_market().result
    }

    /// The rows of the pool for outcome `o`.
    pub closed spec fn spec_pool(&self, o: MarketResult) -> Seq<BetEntry> {
        match o {
            MarketResult::HOME => self.pool_home.rows(),
            MarketResult::AWAY => self.pool_away.rows(),
            MarketResult::DRAW => self.pool_draw.rows(),
        }
    }

    /// The aggregate stake on outcome `o`.
    pub closed spec fn spec_total(&self, o: MarketResult) -> u128 {
        match o {
            MarketResult::HOME => self.total_home,
            MarketResult::AWAY => self.total_away,
            MarketResult::DRAW => self.total_draw,
        }
    }

    /// `a`'s accumulated stake on outcome `o`.
    pub open spec fn spec_stake(&self, o: MarketResult, a: Seq<char>) -> u128 {
        stake_in(self.spec_pool(o), a)
    }

    /// Everything ever collected through bet placement.
    pub open spec fn collected(&self) -> int {
        self.spec_total(MarketResult::HOME) + self.spec_total(MarketResult::AWAY)
            + self.spec_total(MarketResult::DRAW)
    }

    /// Whether `a` has already been paid.
    pub closed spec fn spec_claimed(&self, a: Seq<char>) -> bool {
        self.claims.spec_claimed(a)
    }

    /// Everything paid out to claimants so far.
    pub closed spec fn paid_total(&self) -> u128 {
        self.paid_out
    }

    /// Every fee withheld so far.
    pub closed spec fn fees_total(&self) -> u128 {
        self.fees_collected
    }

    /// The claim predicate, as a closure over accounts.
    pub open spec fn claimed_of(&self) -> spec_fn(Seq<char>) -> bool {
        |a: Seq<char>| self.spec_claimed(a)
    }

    /// The aggregate stake on the winning outcome (zero before scoring).
    pub open spec fn spec_winning_total(&self) -> u128 {
        match self.spec_result() {
            Some(r) => self.spec_total(r),
            None => 0,
        }
    }

    /// Per-row gross winnings under the recorded result.
    pub open spec fn gross_weight(&self) -> spec_fn(BetEntry) -> int {
        |e: BetEntry|
            spec_parimutuel_winnings(
                self.collected() as u128,
                self.spec_winning_total(),
                e.stake,
            )
    }

    /// Per-row refund on cancellation.
    pub open spec fn refund_weight() -> spec_fn(BetEntry) -> int {
        |e: BetEntry| e.stake as int
    }

    /// The gross winnings owed across the whole winning pool.
    pub open spec fn total_gross(&self) -> int {
        match self.spec_result() {
            Some(r) => sum_weights(self.spec_pool(r), self.gross_weight()),
            None => 0,
        }
    }

    /// What is still owed to accounts that have not claimed yet: gross
    /// winnings of unclaimed winners after scoring, refunds of unclaimed
    /// bettors after cancellation, nothing while the market is active.
    pub open spec fn outstanding(&self) -> int {
        match self.spec_status() {
            Status::ACTIVE => 0,
            Status::CLOSED => match self.spec_result() {
                Some(r) => sum_unclaimed(
                    self.spec_pool(r),
                    self.claimed_of(),
                    self.gross_weight(),
                ),
                None => 0,
            },
            Status::CANCELLED => sum_unclaimed(
                self.spec_pool(MarketResult::HOME),
                self.claimed_of(),
                Self::refund_weight(),
            ) + sum_unclaimed(
                self.spec_pool(MarketResult::AWAY),
                self.claimed_of(),
                Self::refund_weight(),
            ) + sum_unclaimed(
                self.spec_pool(MarketResult::DRAW),
                self.claimed_of(),
                Self::refund_weight(),
            ),
        }
    }

    /// The engine invariant: the fee is a valid basis-point rate, every
    /// pool total equals the sum of its rows, the whole pool fits the
    /// settlement arithmetic, claims and bookkeeping only exist on a
    /// terminal market, and what has been paid plus what is still owed
    /// never exceeds what was collected.
    pub closed spec fn wf(&self) -> bool {
        &&& self.config.fee_bps <= FEE_PRECISION
        &&& self.pool_home.wf()
        &&& self.pool_away.wf()
        &&& self.pool_draw.wf()
        &&& self.total_home as int == sum_stakes(self.pool_home.rows())
        &&& self.total_away as int == sum_stakes(self.pool_away.rows())
        &&& self.total_draw as int == sum_stakes(self.pool_draw.rows())
        &&& self.collected() <= u128::MAX as int
        &&& match self.market.status {
            Status::ACTIVE => {
                &&& self.market.result is None
                &&& self.claims.rows().len() == 0
                &&& self.paid_out == 0
                &&& self.fees_collected == 0
            },
            Status::CLOSED => match self.market.result {
                Some(r) => {
                    &&& r is DRAW ==> self.market.is_drawable
                    &&& self.spec_total(r) > 0
                    &&& self.collected() - self.spec_total(r) > 0
                    &&& self.total_gross() <= self.collected()
                    &&& self.paid_out + self.fees_collected + self.outstanding()
                        == self.total_gross()
                },
                None => false,
            },
            Status::CANCELLED => {
                &&& self.market.result is None
                &&& self.fees_collected == 0
                &&& self.paid_out + self.outstanding() == self.collected()
            },
        }
    }

    /// Create the market: configuration and an `ACTIVE` record with empty
    /// pools.  Only the named administrator may instantiate.
    pub fn instantiate(
        sender: &String,
        admin_addr: String,
        treasury_addr: String,
        msg: InstantiateMsg,
    ) -> (r: Result<ParimutuelMarket, ContractError>)
        requires
            msg.fee_bps <= FEE_PRECISION,
        ensures
            match r {
                Ok(m) => {
                    &&& sender@ == admin_addr@
                    &&& m.wf()
                    &&& m.spec_config() == (Config {
                        admin_addr: admin_addr,
                        treasury_addr: treasury_addr,
                        fee_bps: msg.fee_bps,
                        denom: msg.denom,
                    })
                    &&& m.spec_market() == (Market {
                        id: msg.id,
                        label: msg.label,
                        home_team: msg.home_team,
                        away_team: msg.away_team,
                        start_timestamp: msg.start_timestamp,
                        status: Status::ACTIVE,
                        result: None,
                        is_drawable: msg.is_drawable,
                    })
                    &&& forall|o: MarketResult| #[trigger] m.spec_total(o) == 0
                    &&& forall|o: MarketResult| (#[trigger] m.spec_pool(o)).len() == 0
                    &&& forall|b: Seq<char>| !(#[trigger] m.spec_claimed(b))
                    &&& m.paid_total() == 0
                    &&& m.fees_total() == 0
                },
                Err(e) => {
                    &&& sender@ != admin_addr@
                    &&& e == ContractError::Unauthorized
                },
            },
    {
        if !(*sender == admin_addr) {
            return Err(ContractError::Unauthorized);
        }
        let m = ParimutuelMarket {
            config: Config {
                admin_addr: admin_addr,
                treasury_addr: treasury_addr,
                fee_bps: msg.fee_bps,
                denom: msg.denom,
            },
            market: Market {
                id: msg.id,
                label: msg.label,
                home_team: msg.home_team,
                away_team: msg.away_team,
                start_timestamp: msg.start_timestamp,
                status: Status::ACTIVE,
                result: None,
                is_drawable: msg.is_drawable,
            },
            pool_home: BetLedger::new(),
            pool_away: BetLedger::new(),
            pool_draw: BetLedger::new(),
            total_home: 0,
            total_away: 0,
            total_draw: 0,
            claims: ClaimSet::new(),
            paid_out: 0,
            fees_collected: 0,
        };
        proof {
            assert(sum_stakes(Seq::<BetEntry>::empty()) == 0);
        }
        Ok(m)
    }

    /// The configuration.
    pub fn query_config(&self) -> (r: Config)
        ensures
            r == self.spec_config(),
    {
        self.config.clone()
    }

    /// The market record.
    pub fn query_market(&self) -> (r: Market)
        ensures
            r == self.spec_market(),
    {
        self.market.clone()
    }

    /// The aggregate stake per outcome.
    pub fn query_bets(&self) -> (r: TotalBets)
        ensures
            r.total_home == self.spec_total(MarketResult::HOME),
            r.total_away == self.spec_total(MarketResult::AWAY),
            r.total_draw == self.spec_total(MarketResult::DRAW),
    {
        TotalBets {
            total_home: self.total_home,
            total_away: self.total_away,
            total_draw: self.total_draw,
        }
    }

    /// One account's stake per outcome.
    pub fn query_bets_by_address(&self, address: &String) -> (r: TotalBets)
        ensures
            r.total_home == self.spec_stake(MarketResult::HOME, address@),
            r.total_away == self.spec_stake(MarketResult::AWAY, address@),
            r.total_draw == self.spec_stake(MarketResult::DRAW, address@),
    {
        let (home, _) = self.pool_home.lookup(address);
        let (away, _) = self.pool_away.lookup(address);
        let (draw, _) = self.pool_draw.lookup(address);
        TotalBets { total_home: home, total_away: away, total_draw: draw }
    }

    /// The gross winnings `address` would receive if `result` were scored
    /// now: its proportional share of the whole pool, before fees.
    pub fn query_estimate_winnings(&self, address: &String, result: MarketResult) -> (r:
        u128)
        requires
            self.wf(),
        ensures
            r == spec_parimutuel_winnings(
                self.collected() as u128,
                self.spec_total(result),
                self.spec_stake(result, address@),
            ),
    {
        let (home, _) = self.pool_home.lookup(address);
        let (away, _) = self.pool_away.lookup(address);
        let (draw, _) = self.pool_draw.lookup(address);
        let addr_bets = match result {
            MarketResult::HOME => home,
            MarketResult::AWAY => away,
            MarketResult::DRAW => draw,
        };
        let team_bets = match result {
            MarketResult::HOME => self.total_home,
            MarketResult::AWAY => self.total_away,
            MarketResult::DRAW => self.total_draw,
        };
        let total_pool = self.total_home + self.total_away + self.total_draw;
        proof {
            match result {
                MarketResult::HOME => lemma_lookup_le_sum(self.pool_home.rows(), address@),
                MarketResult::AWAY => lemma_lookup_le_sum(self.pool_away.rows(), address@),
                MarketResult::DRAW => lemma_lookup_le_sum(self.pool_draw.rows(), address@),
            }
            if team_bets != 0 {
                lemma_mul_ratio_le(total_pool, addr_bets, team_bets);
            }
        }
        calculate_parimutuel_winnings(total_pool, team_bets, addr_bets)
    }

    /// Why a bet would be refused, in the order the checks are made.
    pub open spec fn spec_place_bet_err(
        &self,
        now: u64,
        funds: Seq<Coin>,
        result: MarketResult,
    ) -> Option<ContractError> {
        if result is DRAW && !self.spec_market().is_drawable {
            Some(ContractError::MarketNotDrawable)
        } else if !(self.spec_status() is ACTIVE) {
            Some(ContractError::MarketNotActive)
        } else if !spec_bet_window_open(self.spec_market().start_timestamp, now) {
            Some(ContractError::BetsNotAccepted)
        } else if spec_must_pay(funds, self.spec_config().denom@) is None {
            Some(ContractError::PaymentError)
        } else {
            None
        }
    }

    /// The whole effect of a bet placement: a refused bet changes nothing
    /// and reports why; an accepted bet moves the attached payment into
    /// `addr`'s stake on `result` and the outcome's total, and nothing
    /// else.
    pub open spec fn place_bet_post(
        pre: Self,
        post: Self,
        r: Result<u128, ContractError>,
        now: u64,
        funds: Seq<Coin>,
        result: MarketResult,
        addr: Seq<char>,
    ) -> bool {
        &&& post.wf()
        &&& status_progression(pre.spec_status(), post.spec_status())
        &&& match pre.spec_place_bet_err(now, funds, result) {
            Some(e) => r == Err::<u128, ContractError>(e) && post == pre,
            None => match spec_must_pay(funds, pre.spec_config().denom@) {
                Some(amount) => {
                    &&& r == Ok::<u128, ContractError>(amount)
                    &&& post.spec_stake(result, addr) == pre.spec_stake(result, addr)
                        + amount
                    &&& forall|b: Seq<char>|
                        b != addr ==> #[trigger] post.spec_stake(result, b)
                            == pre.spec_stake(result, b)
                    &&& forall|o: MarketResult, b: Seq<char>|
                        o != result ==> #[trigger] post.spec_stake(o, b) == pre.spec_stake(
                            o,
                            b,
                        )
                    &&& post.spec_total(result) == pre.spec_total(result) + amount
                    &&& forall|o: MarketResult|
                        o != result ==> #[trigger] post.spec_total(o) == pre.spec_total(o)
                    &&& post.spec_config() == pre.spec_config()
                    &&& post.spec_market() == pre.spec_market()
                    &&& forall|b: Seq<char>|
                        #[trigger] post.spec_claimed(b) == pre.spec_claimed(b)
                    &&& post.paid_total() == pre.paid_total()
                    &&& post.fees_total() == pre.fees_total()
                },
                None => false,
            },
        }
    }

    /// Place a bet of the attached payment on `result`, for the receiver
    /// if one is named, else for the caller.
    pub fn execute_place_bet(
        &mut self,
        now: u64,
        sender: &String,
        funds: &Vec<Coin>,
        result: MarketResult,
        receiver: Option<String>,
    ) -> (r: Result<u128, ContractError>)
        requires
            old(self).wf(),
            old(self).collected() + (match spec_must_pay(
                funds@,
                old(self).spec_config().denom@,
            ) {
                Some(a) => a as int,
                None => 0,
            }) <= u128::MAX as int,
        ensures
            Self::place_bet_post(
                *old(self),
                *final(self),
                r,
                now,
                funds@,
                result,
                spec_beneficiary(sender@, receiver),
            ),
    {
        let addr: String = match receiver {
            Some(rcv) => rcv,
            None => sender.clone(),
        };
        if result == MarketResult::DRAW && !self.market.is_drawable {
            return Err(ContractError::MarketNotDrawable);
        }
        if self.market.status != Status::ACTIVE {
            return Err(ContractError::MarketNotActive);
        }
        // The window closes BET_CUTOFF_SECONDS before the scheduled start.
        if self.market.start_timestamp < BET_CUTOFF_SECONDS || now
            >= self.market.start_timestamp - BET_CUTOFF_SECONDS {
            return Err(ContractError::BetsNotAccepted);
        }
        let amount = match must_pay(funds, &self.config.denom) {
            Some(a) => a,
            None => {
                return Err(ContractError::PaymentError);
            },
        };
        match result {
            MarketResult::HOME => {
                proof {
                    lemma_lookup_le_sum(self.pool_home.rows(), addr@);
                }
                self.pool_home.credit(&addr, amount, 0);
                self.total_home = self.total_home + amount;
            },
            MarketResult::AWAY => {
                proof {
                    lemma_lookup_le_sum(self.pool_away.rows(), addr@);
                }
                self.pool_away.credit(&addr, amount, 0);
                self.total_away = self.total_away + amount;
            },
            MarketResult::DRAW => {
                proof {
                    lemma_lookup_le_sum(self.pool_draw.rows(), addr@);
                }
                self.pool_draw.credit(&addr, amount, 0);
                self.total_draw = self.total_draw + amount;
            },
        }
        Ok(amount)
    }

    /// Why a reschedule would be refused.
    pub open spec fn spec_update_err(&self, sender: Seq<char>) -> Option<ContractError> {
        if sender != self.spec_config().admin_addr@ {
            Some(ContractError::Unauthorized)
        } else if !(self.spec_status() is ACTIVE) {
            Some(ContractError::MarketNotActive)
        } else {
            None
        }
    }

    /// The whole effect of a reschedule: only the start timestamp moves.
    pub open spec fn update_post(
        pre: Self,
        post: Self,
        r: Result<(), ContractError>,
        sender: Seq<char>,
        start_timestamp: u64,
    ) -> bool {
        &&& post.wf()
        &&& status_progression(pre.spec_status(), post.spec_status())
        &&& match pre.spec_update_err(sender) {
            Some(e) => r == Err::<(), ContractError>(e) && post == pre,
            None => {
                &&& r == Ok::<(), ContractError>(())
                &&& post.spec_market() == (Market {
                    start_timestamp: start_timestamp,
                    ..pre.spec_market()
                })
                &&& post.spec_config() == pre.spec_config()
                &&& forall|o: MarketResult|
                    #[trigger] post.spec_pool(o) == pre.spec_pool(o)
                &&& forall|o: MarketResult| #[trigger] post.spec_total(o) == pre.spec_total(o)
                &&& forall|b: Seq<char>|
                    #[trigger] post.spec_claimed(b) == pre.spec_claimed(b)
                &&& post.paid_total() == pre.paid_total()
                &&& post.fees_total() == pre.fees_total()
            },
        }
    }

    /// Admin: reschedule the start of the match while the market is
    /// active.
    pub fn execute_update(&mut self, sender: &String, start_timestamp: u64) -> (r: Result<
        (),
        ContractError,
    >)
        requires
            old(self).wf(),
        ensures
            Self::update_post(*old(self), *final(self), r, sender@, start_timestamp),
    {
        if !(*sender == self.config.admin_addr) {
            return Err(ContractError::Unauthorized);
        }
        if self.market.status != Status::ACTIVE {
            return Err(ContractError::MarketNotActive);
        }
        self.market.start_timestamp = start_timestamp;
        Ok(())
    }

    /// Why a scoring call would be refused.
    pub open spec fn spec_score_err(&self, sender: Seq<char>, result: MarketResult) -> Option<
        ContractError,
    > {
        if sender != self.spec_config().admin_addr@ {
            Some(ContractError::Unauthorized)
        } else if result is DRAW && !self.spec_market().is_drawable {
            Some(ContractError::MarketNotDrawable)
        } else if !(self.spec_status() is ACTIVE) {
            Some(ContractError::MarketNotActive)
        } else if self.spec_total(result) == 0 || self.collected() - self.spec_total(result)
            == 0 {
            Some(ContractError::NoWinnings)
        } else {
            None
        }
    }

    /// The whole effect of scoring: the market becomes `CLOSED` with the
    /// given result, and nothing else moves.
    pub open spec fn score_post(
        pre: Self,
        post: Self,
        r: Result<(), ContractError>,
        sender: Seq<char>,
        result: MarketResult,
    ) -> bool {
        &&& post.wf()
        &&& status_progression(pre.spec_status(), post.spec_status())
        &&& match pre.spec_score_err(sender, result) {
            Some(e) => r == Err::<(), ContractError>(e) && post == pre,
            None => {
                &&& r == Ok::<(), ContractError>(())
                &&& post.spec_market() == (Market {
                    status: Status::CLOSED,
                    result: Some(result),
                    ..pre.spec_market()
                })
                &&& post.spec_config() == pre.spec_config()
                &&& forall|o: MarketResult|
                    #[trigger] post.spec_pool(o) == pre.spec_pool(o)
                &&& forall|o: MarketResult| #[trigger] post.spec_total(o) == pre.spec_total(o)
                &&& forall|b: Seq<char>|
                    #[trigger] post.spec_claimed(b) == pre.spec_claimed(b)
                &&& post.paid_total() == pre.paid_total()
                &&& post.fees_total() == pre.fees_total()
            },
        }
    }

    /// Admin: record `result` and close the market.  Fails with a
    /// no-winnings condition when either side of the book is empty.
    pub fn execute_score(&mut self, sender: &String, result: MarketResult) -> (r: Result<
        (),
        ContractError,
    >)
        requires
            old(self).wf(),
        ensures
            Self::score_post(*old(self), *final(self), r, sender@, result),
    {
        if !(*sender == self.config.admin_addr) {
            return Err(ContractError::Unauthorized);
        }
        if result == MarketResult::DRAW && !self.market.is_drawable {
            return Err(ContractError::MarketNotDrawable);
        }
        if self.market.status != Status::ACTIVE {
            return Err(ContractError::MarketNotActive);
        }
        let winning_side = match result {
            MarketResult::HOME => self.total_home,
            MarketResult::AWAY => self.total_away,
            MarketResult::DRAW => self.total_draw,
        };
        let losing_side = match result {
            MarketResult::HOME => self.total_away + self.total_draw,
            MarketResult::AWAY => self.total_home + self.total_draw,
            MarketResult::DRAW => self.total_home + self.total_away,
        };
        if winning_side == 0 || losing_side == 0 {
            return Err(ContractError::NoWinnings);
        }
        self.market.status = Status::CLOSED;
        self.market.result = Some(result);
        proof {
            self.lemma_freshly_closed_wf(*old(self), result);
        }
        Ok(())
    }

    /// Why a cancellation would be refused.
    pub open spec fn spec_cancel_err(&self, sender: Seq<char>) -> Option<ContractError> {
        if sender != self.spec_config().admin_addr@ {
            Some(ContractError::Unauthorized)
        } else if !(self.spec_status() is ACTIVE) {
            Some(ContractError::MarketNotActive)
        } else {
            None
        }
    }

    /// The whole effect of cancellation: the market becomes `CANCELLED`
    /// with no result, and nothing else moves.
    pub open spec fn cancel_post(
        pre: Self,
        post: Self,
        r: Result<(), ContractError>,
        sender: Seq<char>,
    ) -> bool {
        &&& post.wf()
        &&& status_progression(pre.spec_status(), post.spec_status())
        &&& match pre.spec_cancel_err(sender) {
            Some(e) => r == Err::<(), ContractError>(e) && post == pre,
            None => {
                &&& r == Ok::<(), ContractError>(())
                &&& post.spec_market() == (Market {
                    status: Status::CANCELLED,
                    ..pre.spec_market()
                })
                &&& post.spec_config() == pre.spec_config()
                &&& forall|o: MarketResult|
                    #[trigger] post.spec_pool(o) == pre.spec_pool(o)
                &&& forall|o: MarketResult| #[trigger] post.spec_total(o) == pre.spec_total(o)
                &&& forall|b: Seq<char>|
                    #[trigger] post.spec_claimed(b) == pre.spec_claimed(b)
                &&& post.paid_total() == pre.paid_total()
                &&& post.fees_total() == pre.fees_total()
            },
        }
    }

    /// Admin: cancel the market.  Every stake becomes refundable in full.
    pub fn execute_cancel(&mut self, sender: &String) -> (r: Result<(), ContractError>)
        requires
            old(self).wf(),
        ensures
            Self::cancel_post(*old(self), *final(self), r, sender@),
    {
        if !(*sender == self.config.admin_addr) {
            return Err(ContractError::Unauthorized);
        }
        if self.market.status != Status::ACTIVE {
            return Err(ContractError::MarketNotActive);
        }
        self.market.status = Status::CANCELLED;
        proof {
            self.lemma_freshly_cancelled_wf(*old(self));
        }
        Ok(())
    }

    /// The gross entitlement of `a`: its proportional share of the pool
    /// after scoring, a full refund after cancellation, nothing while
    /// active.
    pub open spec fn spec_gross(&self, a: Seq<char>) -> int {
        match self.spec_status() {
            Status::ACTIVE => 0,
            Status::CLOSED => match self.spec_result() {
                Some(r) => spec_parimutuel_winnings(
                    self.collected() as u128,
                    self.spec_total(r),
                    self.spec_stake(r, a),
                ),
                None => 0,
            },
            Status::CANCELLED => self.spec_stake(MarketResult::HOME, a) + self.spec_stake(
                MarketResult::AWAY,
                a,
            ) + self.spec_stake(MarketResult::DRAW, a),
        }
    }

    /// The fee withheld from `a`'s claim: basis points of the gross
    /// winnings after scoring; refunds are fee-free.
    pub open spec fn spec_claim_fee(&self, a: Seq<char>) -> int {
        if self.spec_status() is CLOSED {
            spec_fee_amount(self.spec_gross(a) as u128, self.spec_config().fee_bps)
        } else {
            0
        }
    }

    /// The net payout of `a`'s claim.
    pub open spec fn spec_net(&self, a: Seq<char>) -> int {
        self.spec_gross(a) - self.spec_claim_fee(a)
    }

    /// Why a claim would be refused, in the order the checks are made.
    pub open spec fn spec_claim_err(&self, addr: Seq<char>) -> Option<ContractError> {
        if self.spec_status() is ACTIVE {
            Some(ContractError::MarketNotClosed)
        } else if self.spec_claimed(addr) {
            Some(ContractError::ClaimAlreadyMade)
        } else if self.spec_net(addr) == 0 {
            Some(ContractError::NoWinnings)
        } else {
            None
        }
    }

    /// The whole effect of a claim: a refused claim (wrong status, repeat
    /// claim, nothing owed) changes nothing; a successful claim pays the
    /// net entitlement exactly once, marks the beneficiary, and books the
    /// payout and the fee.
    pub open spec fn claim_post(
        pre: Self,
        post: Self,
        r: Result<u128, ContractError>,
        addr: Seq<char>,
    ) -> bool {
        &&& post.wf()
        &&& status_progression(pre.spec_status(), post.spec_status())
        &&& match pre.spec_claim_err(addr) {
            Some(e) => r == Err::<u128, ContractError>(e) && post == pre,
            None => {
                &&& pre.spec_net(addr) > 0
                &&& r == Ok::<u128, ContractError>(pre.spec_net(addr) as u128)
                &&& post.spec_claimed(addr)
                &&& forall|b: Seq<char>|
                    b != addr ==> #[trigger] post.spec_claimed(b) == pre.spec_claimed(b)
                &&& post.spec_market() == pre.spec_market()
                &&& post.spec_config() == pre.spec_config()
                &&& forall|o: MarketResult|
                    #[trigger] post.spec_pool(o) == pre.spec_pool(o)
                &&& forall|o: MarketResult| #[trigger] post.spec_total(o) == pre.spec_total(o)
                &&& post.paid_total() == pre.paid_total() + pre.spec_net(addr)
                &&& post.fees_total() == pre.fees_total() + pre.spec_claim_fee(addr)
            },
        }
    }

    /// Claim the beneficiary's entitlement: net winnings after scoring, or
    /// a full refund after cancellation.  Pays at most once per account.
    pub fn execute_claim_winnings(&mut self, sender: &String, receiver: Option<String>) -> (r:
        Result<u128, ContractError>)
        requires
            old(self).wf(),
        ensures
            Self::claim_post(
                *old(self),
                *final(self),
                r,
                spec_beneficiary(sender@, receiver),
            ),
    {
        let addr: String = match receiver {
            Some(rcv) => rcv,
            None => sender.clone(),
        };
        if self.market.status == Status::ACTIVE {
            return Err(ContractError::MarketNotClosed);
        }
        if self.claims.contains(&addr) {
            return Err(ContractError::ClaimAlreadyMade);
        }
        let (stake_home, _) = self.pool_home.lookup(&addr);
        let (stake_away, _) = self.pool_away.lookup(&addr);
        let (stake_draw, _) = self.pool_draw.lookup(&addr);
        let payout: u128;
        let fee: u128;
        if self.market.status == Status::CANCELLED {
            proof {
                lemma_lookup_le_sum(self.pool_home.rows(), addr@);
                lemma_lookup_le_sum(self.pool_away.rows(), addr@);
                lemma_lookup_le_sum(self.pool_draw.rows(), addr@);
            }
            payout = stake_home + stake_away + stake_draw;
            fee = 0;
        } else {
            let bet_amount = match self.market.result {
                Some(MarketResult::HOME) => stake_home,
                Some(MarketResult::AWAY) => stake_away,
                Some(MarketResult::DRAW) => stake_draw,
                None => 0,
            };
            let team_bets = match self.market.result {
                Some(MarketResult::HOME) => self.total_home,
                Some(MarketResult::AWAY) => self.total_away,
                Some(MarketResult::DRAW) => self.total_draw,
                None => 0,
            };
            let total_pool = self.total_home + self.total_away + self.total_draw;
            proof {
                match self.spec_result() {
                    Some(rr) => lemma_lookup_le_sum(self.spec_pool(rr), addr@),
                    None => (),
                }
                if team_bets != 0 {
                    lemma_mul_ratio_le(total_pool, bet_amount, team_bets);
                }
            }
            let winnings = calculate_parimutuel_winnings(total_pool, team_bets, bet_amount);
            fee = calculate_fee(winnings, self.config.fee_bps);
            payout = winnings - fee;
        }
        if payout == 0 {
            return Err(ContractError::NoWinnings);
        }
        proof {
            self.lemma_claim_entitlement_bounds(addr@);
        }
        self.claims.record(&addr);
        self.paid_out = self.paid_out + payout;
        self.fees_collected = self.fees_collected + fee;
        proof {
            Self::lemma_claim_marked_wf(*old(self), *self, addr@);
        }
        Ok(payout)
    }

    /// On a terminal market, an unclaimed account's gross entitlement is
    /// bounded by what is still outstanding (and so fits the books).
    proof fn lemma_claim_entitlement_bounds(&self, addr: Seq<char>)
        requires
            self.wf(),
            !(self.spec_status() is ACTIVE),
            !self.spec_claimed(addr),
        ensures
            0 <= self.spec_gross(addr) <= self.outstanding(),
            self.spec_status() is CANCELLED ==> self.spec_net(addr) == self.spec_gross(
                addr,
            ),
            self.paid_total() + self.fees_total() + self.spec_gross(addr)
                <= self.collected(),
    {
        let c = self.claimed_of();
        if self.spec_status() is CLOSED {
            let rr = self.spec_result()->Some_0;
            let s = self.spec_pool(rr);
            let w = self.gross_weight();
            assert forall|i: int| 0 <= i < s.len() implies w(#[trigger] s[i]) >= 0 by {
                if self.collected() as u128 != 0 && self.spec_winning_total() != 0 && s[i].stake
                    != 0 {
                    lemma_mul_ratio_nonneg(
                        self.collected() as u128,
                        s[i].stake,
                        self.spec_winning_total(),
                    );
                }
            }
            lemma_sum_unclaimed_bounds(s, c, w);
            if has_account(s, addr) {
                lemma_unclaimed_row_le(s, c, w, addr);
                lemma_entry_for_props(s, addr);
            } else {
                lemma_absent_zero(s, addr);
            }
        } else {
            assert forall|o: MarketResult| true implies {
                &&& 0 <= stake_in(#[trigger] self.spec_pool(o), addr) <= sum_unclaimed(
                    self.spec_pool(o),
                    c,
                    Self::refund_weight(),
                )
            } by {
                let s = self.spec_pool(o);
                let w = Self::refund_weight();
                assert forall|i: int| 0 <= i < s.len() implies w(#[trigger] s[i]) >= 0 by {}
                lemma_sum_unclaimed_bounds(s, c, w);
                if has_account(s, addr) {
                    lemma_unclaimed_row_le(s, c, w, addr);
                    lemma_entry_for_props(s, addr);
                } else {
                    lemma_absent_zero(s, addr);
                }
            }
        }
    }

    /// Booking a successful claim preserves the invariant: the marked
    /// account's entitlement moves from outstanding to paid-plus-fees.
    proof fn lemma_claim_marked_wf(pre: Self, post: Self, addr: Seq<char>)
        requires
            pre.wf(),
            !(pre.spec_status() is ACTIVE),
            !pre.spec_claimed(addr),
            pre.spec_net(addr) > 0,
            post.spec_market() == pre.spec_market(),
            post.spec_config() == pre.spec_config(),
            post.pool_home == pre.pool_home,
            post.pool_away == pre.pool_away,
            post.pool_draw == pre.pool_draw,
            post.total_home == pre.total_home,
            post.total_away == pre.total_away,
            post.total_draw == pre.total_draw,
            forall|b: Seq<char>|
                #[trigger] post.spec_claimed(b) == (pre.spec_claimed(b) || b == addr),
            post.paid_total() == pre.paid_total() + pre.spec_net(addr),
            post.fees_total() == pre.fees_total() + pre.spec_claim_fee(addr),
        ensures
            post.wf(),
    {
        let c_pre = pre.claimed_of();
        let c_post = post.claimed_of();
        if pre.spec_status() is CLOSED {
            let rr = pre.spec_result()->Some_0;
            let s = pre.spec_pool(rr);
            let w_pre = pre.gross_weight();
            let w_post = post.gross_weight();
            // The account owns a row: a zero stake would mean zero gross.
            if !has_account(s, addr) {
                lemma_absent_zero(s, addr);
                assert(false);
            }
            lemma_entry_for_props(s, addr);
            assert forall|b: Seq<char>| #[trigger] c_post(b) == (c_pre(b) || b == addr) by {}
            lemma_sum_unclaimed_mark(s, c_pre, c_post, w_pre, addr);
            assert forall|i: int| 0 <= i < s.len() implies w_post(#[trigger] s[i]) == w_pre(
                s[i],
            ) by {}
            lemma_sum_unclaimed_ext(s, c_post, c_post, w_post, w_pre);
            lemma_sum_weights_ext(s, w_post, w_pre);
            assert(post.outstanding() == pre.outstanding() - pre.spec_gross(addr));
            assert(post.total_gross() == pre.total_gross());
        } else {
            assert forall|b: Seq<char>| #[trigger] c_post(b) == (c_pre(b) || b == addr) by {}
            let w = Self::refund_weight();
            assert forall|o: MarketResult| true implies {
                &&& sum_unclaimed(#[trigger] post.spec_pool(o), c_post, w) == sum_unclaimed(
                    pre.spec_pool(o),
                    c_pre,
                    w,
                ) - stake_in(pre.spec_pool(o), addr)
            } by {
                let s = pre.spec_pool(o);
                lemma_sum_unclaimed_mark(s, c_pre, c_post, w, addr);
                if has_account(s, addr) {
                    lemma_entry_for_props(s, addr);
                } else {
                    lemma_absent_zero(s, addr);
                }
            }
            assert(post.outstanding() == pre.outstanding() - pre.spec_gross(addr));
        }
    }

    /// Dispatch one mutating call.
    pub fn execute(
        &mut self,
        now: u64,
        sender: &String,
        funds: &Vec<Coin>,
        msg: ExecuteMsg,
    ) -> (r: Result<ExecResponse, ContractError>)
        requires
            old(self).wf(),
            match msg {
                ExecuteMsg::PlaceBet { .. } => old(self).collected() + (match spec_must_pay(
                    funds@,
                    old(self).spec_config().denom@,
                ) {
                    Some(a) => a as int,
                    None => 0,
                }) <= u128::MAX as int,
                _ => true,
            },
        ensures
            match msg {
                ExecuteMsg::PlaceBet { result, receiver } => match r {
                    Ok(ExecResponse::BetPlaced { amount }) => Self::place_bet_post(
                        *old(self),
                        *final(self),
                        Ok(amount),
                        now,
                        funds@,
                        result,
                        spec_beneficiary(sender@, receiver),
                    ),
                    Ok(_) => false,
                    Err(e) => Self::place_bet_post(
                        *old(self),
                        *final(self),
                        Err(e),
                        now,
                        funds@,
                        result,
                        spec_beneficiary(sender@, receiver),
                    ),
                },
                ExecuteMsg::ClaimWinnings { receiver } => match r {
                    Ok(ExecResponse::WinningsClaimed { payout }) => Self::claim_post(
                        *old(self),
                        *final(self),
                        Ok(payout),
                        spec_beneficiary(sender@, receiver),
                    ),
                    Ok(_) => false,
                    Err(e) => Self::claim_post(
                        *old(self),
                        *final(self),
                        Err(e),
                        spec_beneficiary(sender@, receiver),
                    ),
                },
                ExecuteMsg::Update { start_timestamp } => match r {
                    Ok(ExecResponse::MarketUpdated) => Self::update_post(
                        *old(self),
                        *final(self),
                        Ok(()),
                        sender@,
                        start_timestamp,
                    ),
                    Ok(_) => false,
                    Err(e) => Self::update_post(
                        *old(self),
                        *final(self),
                        Err(e),
                        sender@,
                        start_timestamp,
                    ),
                },
                ExecuteMsg::Score { result } => match r {
                    Ok(ExecResponse::MarketScored) => Self::score_post(
                        *old(self),
                        *final(self),
                        Ok(()),
                        sender@,
                        result,
                    ),
                    Ok(_) => false,
                    Err(e) => Self::score_post(
                        *old(self),
                        *final(self),
                        Err(e),
                        sender@,
                        result,
                    ),
                },
                ExecuteMsg::Cancel => match r {
                    Ok(ExecResponse::MarketCancelled) => Self::cancel_post(
                        *old(self),
                        *final(self),
                        Ok(()),
                        sender@,
                    ),
                    Ok(_) => false,
                    Err(e) => Self::cancel_post(*old(self), *final(self), Err(e), sender@),
                },
            },
    {
        match msg {
            ExecuteMsg::PlaceBet { result, receiver } => {
                match self.execute_place_bet(now, sender, funds, result, receiver) {
                    Ok(amount) => Ok(ExecResponse::BetPlaced { amount }),
                    Err(e) => Err(e),
                }
            },
            ExecuteMsg::ClaimWinnings { receiver } => {
                match self.execute_claim_winnings(sender, receiver) {
                    Ok(payout) => Ok(ExecResponse::WinningsClaimed { payout }),
                    Err(e) => Err(e),
                }
            },
            ExecuteMsg::Update { start_timestamp } => {
                match self.execute_update(sender, start_timestamp) {
                    Ok(()) => Ok(ExecResponse::MarketUpdated),
                    Err(e) => Err(e),
                }
            },
            ExecuteMsg::Score { result } => {
                match self.execute_score(sender, result) {
                    Ok(()) => Ok(ExecResponse::MarketScored),
                    Err(e) => Err(e),
                }
            },
            ExecuteMsg::Cancel => {
                match self.execute_cancel(sender) {
                    Ok(()) => Ok(ExecResponse::MarketCancelled),
                    Err(e) => Err(e),
                }
            },
        }
    }

    /// Dispatch one read-only call.
    pub fn query(&self, msg: QueryMsg) -> (r: QueryResponse)
        requires
            self.wf(),
        ensures
            match msg {
                QueryMsg::Config => r == QueryResponse::Config(self.spec_config()),
                QueryMsg::Market => r == QueryResponse::Market(self.spec_market()),
                QueryMsg::Bets => r == QueryResponse::Bets(TotalBets {
                    total_home: self.spec_total(MarketResult::HOME),
                    total_away: self.spec_total(MarketResult::AWAY),
                    total_draw: self.spec_total(MarketResult::DRAW),
                }),
                QueryMsg::BetsByAddress { address } => r == QueryResponse::BetsByAddress(
                    TotalBets {
                        total_home: self.spec_stake(MarketResult::HOME, address@),
                        total_away: self.spec_stake(MarketResult::AWAY, address@),
                        total_draw: self.spec_stake(MarketResult::DRAW, address@),
                    },
                ),
                QueryMsg::EstimateWinnings { address, result } => r
                    == QueryResponse::EstimateWinnings(
                    spec_parimutuel_winnings(
                        self.collected() as u128,
                        self.spec_total(result),
                        self.spec_stake(result, address@),
                    ) as u128,
                ),
            },
    {
        match msg {
            QueryMsg::Config => QueryResponse::Config(self.query_config()),
            QueryMsg::Market => QueryResponse::Market(self.query_market()),
            QueryMsg::Bets => QueryResponse::Bets(self.query_bets()),
            QueryMsg::BetsByAddress { address } => QueryResponse::BetsByAddress(
                self.query_bets_by_address(&address),
            ),
            QueryMsg::EstimateWinnings { address, result } => {
                QueryResponse::EstimateWinnings(
                    self.query_estimate_winnings(&address, result),
                )
            },
        }
    }

    /// A market just moved from `ACTIVE` to `CLOSED` (both sides of the
    /// book non-empty) satisfies the invariant again.
    proof fn lemma_freshly_closed_wf(&self, pre: Self, result: MarketResult)
        requires
            pre.wf(),
            pre.spec_status() is ACTIVE,
            self.spec_total(result) > 0,
            self.collected() - self.spec_total(result) > 0,
            result is DRAW ==> self.spec_market().is_drawable,
            self.spec_market() == (Market {
                status: Status::CLOSED,
                result: Some(result),
                ..pre.spec_market()
            }),
            self.spec_config() == pre.spec_config(),
            forall|o: MarketResult| #[trigger] self.spec_pool(o) == pre.spec_pool(o),
            forall|o: MarketResult| #[trigger] self.spec_total(o) == pre.spec_total(o),
            self.claims == pre.claims,
            self.paid_total() == 0,
            self.fees_total() == 0,
            self.pool_home == pre.pool_home,
            self.pool_away == pre.pool_away,
            self.pool_draw == pre.pool_draw,
            self.total_home == pre.total_home,
            self.total_away == pre.total_away,
            self.total_draw == pre.total_draw,
        ensures
            self.wf(),
    {
        let s = self.spec_pool(result);
        let p = self.collected() as u128;
        let t = self.spec_total(result);
        let w = self.gross_weight();
        assert forall|i: int| 0 <= i < s.len() implies w(#[trigger] s[i])
            == spec_parimutuel_winnings(p, t, s[i].stake) by {}
        lemma_sum_gross_bounds(s, p, t, w);
        assert(sum_stakes(s) == t);
        assert((p as int * t as int) / (t as int) == p as int) by {
            vstd::arithmetic::div_mod::lemma_div_by_multiple(p as int, t as int);
        }
        assert(self.total_gross() <= self.collected());
        // Nothing is claimed yet, so everything gross is outstanding.
        assert forall|i: int| 0 <= i < s.len() implies !(self.claimed_of())(
            (#[trigger] s[i]).account@,
        ) by {
            assert(self.claims.rows().len() == 0);
        }
        lemma_sum_unclaimed_full(s, self.claimed_of(), w);
    }

    /// A market just moved from `ACTIVE` to `CANCELLED` satisfies the
    /// invariant again: the whole pool is outstanding as refunds.
    proof fn lemma_freshly_cancelled_wf(&self, pre: Self)
        requires
            pre.wf(),
            pre.spec_status() is ACTIVE,
            self.spec_market() == (Market { status: Status::CANCELLED, ..pre.spec_market() }),
            self.spec_config() == pre.spec_config(),
            self.claims == pre.claims,
            self.paid_total() == 0,
            self.fees_total() == 0,
            self.pool_home == pre.pool_home,
            self.pool_away == pre.pool_away,
            self.pool_draw == pre.pool_draw,
            self.total_home == pre.total_home,
            self.total_away == pre.total_away,
            self.total_draw == pre.total_draw,
        ensures
            self.wf(),
    {
        let c = self.claimed_of();
        let w = Self::refund_weight();
        assert forall|o: MarketResult| true implies {
            &&& sum_unclaimed(#[trigger] self.spec_pool(o), c, w) == sum_stakes(
                self.spec_pool(o),
            )
        } by {
            let s = self.spec_pool(o);
            assert forall|i: int| 0 <= i < s.len() implies !c((#[trigger] s[i]).account@) by {
                assert(self.claims.rows().len() == 0);
            }
            lemma_sum_unclaimed_full(s, c, w);
            assert forall|i: int| 0 <= i < s.len() implies w(#[trigger] s[i])
                == s[i].stake by {}
            lemma_sum_weights_stakes(s, w);
        }
    }
}

/// Conservation, at every reachable state: what has been paid out, plus
/// every fee withheld, plus everything still owed to unclaimed accounts,
/// never exceeds what bet placement collected.  On a scored market the
/// three add up to exactly the gross winnings owed across the winning
/// pool; on a cancelled market they add up to exactly what was collected,
/// fee-free.
pub proof fn lemma_conservation(m: &ParimutuelMarket)
    requires
        m.wf(),
    ensures
        0 <= m.outstanding(),
        m.paid_total() + m.fees_total() + m.outstanding() <= m.collected(),
        m.spec_status() is CLOSED ==> m.paid_total() + m.fees_total() + m.outstanding()
            == m.total_gross() && m.total_gross() <= m.collected(),
        m.spec_status() is CANCELLED ==> m.paid_total() + m.outstanding() == m.collected()
            && m.fees_total() == 0,
        m.spec_status() is ACTIVE ==> m.paid_total() == 0 && m.fees_total() == 0
            && m.outstanding() == 0,
{
    let c = m.claimed_of();
    match m.spec_status() {
        Status::ACTIVE => {},
        Status::CLOSED => {
            let rr = m.spec_result()->Some_0;
            let s = m.spec_pool(rr);
            let w = m.gross_weight();
            assert forall|i: int| 0 <= i < s.len() implies w(#[trigger] s[i]) >= 0 by {
                if m.collected() as u128 != 0 && m.spec_winning_total() != 0 && s[i].stake
                    != 0 {
                    lemma_mul_ratio_nonneg(
                        m.collected() as u128,
                        s[i].stake,
                        m.spec_winning_total(),
                    );
                }
            }
            lemma_sum_unclaimed_bounds(s, c, w);
        },
        Status::CANCELLED => {
            assert forall|o: MarketResult| true implies {
                &&& 0 <= sum_unclaimed(
                    #[trigger] m.spec_pool(o),
                    c,
                    ParimutuelMarket::refund_weight(),
                )
            } by {
                let s = m.spec_pool(o);
                let w = ParimutuelMarket::refund_weight();
                assert forall|i: int| 0 <= i < s.len() implies w(#[trigger] s[i]) >= 0 by {}
                lemma_sum_unclaimed_bounds(s, c, w);
            }
        },
    }
}

/// A claim pays at most once: after a successful claim, a second claim
/// for the same account fails as already-claimed and leaves the whole
/// state untouched.
pub proof fn lemma_claim_idempotent(
    s0: ParimutuelMarket,
    s1: ParimutuelMarket,
    s2: ParimutuelMarket,
    r1: Result<u128, ContractError>,
    r2: Result<u128, ContractError>,
    addr: Seq<char>,
)
    requires
        ParimutuelMarket::claim_post(s0, s1, r1, addr),
        r1 is Ok,
        ParimutuelMarket::claim_post(s1, s2, r2, addr),
    ensures
        r2 == Err::<u128, ContractError>(ContractError::ClaimAlreadyMade),
        s2 == s1,
{
}

/// Exhaustive claiming settles the books: once every account that is owed
/// anything has claimed — the winning pool's holders after scoring (a
/// loser is owed nothing and is never marked), every pool's holders after
/// cancellation — nothing is outstanding; the refunds return exactly what
/// was collected, and what was paid plus the fees reaches what was
/// collected up to a truncation remainder of less than one unit per
/// winning account.
pub proof fn lemma_exhaustive_claims(m: &ParimutuelMarket)
    requires
        m.wf(),
        !(m.spec_status() is ACTIVE),
        m.spec_status() is CLOSED ==> (match m.spec_result() {
            Some(rr) => forall|a: Seq<char>|
                #[trigger] has_account(m.spec_pool(rr), a) ==> m.spec_claimed(a),
            None => true,
        }),
        m.spec_status() is CANCELLED ==> forall|o: MarketResult, a: Seq<char>|
            #[trigger] has_account(m.spec_pool(o), a) ==> m.spec_claimed(a),
    ensures
        m.outstanding() == 0,
        m.paid_total() + m.fees_total() <= m.collected(),
        m.spec_status() is CANCELLED ==> m.paid_total() == m.collected() && m.fees_total()
            == 0,
        m.spec_status() is CLOSED ==> (match m.spec_result() {
            Some(rr) => m.collected() - (m.paid_total() + m.fees_total()) <= m.spec_pool(
                rr,
            ).len() - 1,
            None => false,
        }),
{
    let c = m.claimed_of();
    match m.spec_status() {
        Status::ACTIVE => {},
        Status::CLOSED => {
            let rr = m.spec_result()->Some_0;
            let s = m.spec_pool(rr);
            let w = m.gross_weight();
            assert forall|i: int| 0 <= i < s.len() implies c((#[trigger] s[i]).account@) by {
                lemma_row_has_account(s, i);
            }
            lemma_sum_unclaimed_empty(s, c, w);
            let p = m.collected() as u128;
            let t = m.spec_total(rr);
            assert forall|i: int| 0 <= i < s.len() implies w(#[trigger] s[i])
                == spec_parimutuel_winnings(p, t, s[i].stake) by {}
            lemma_sum_gross_bounds(s, p, t, w);
            assert(s.len() >= 1);
            assert((p as int * t as int) / (t as int) == p as int) by {
                vstd::arithmetic::div_mod::lemma_div_by_multiple(p as int, t as int);
            }
        },
        Status::CANCELLED => {
            assert forall|o: MarketResult| true implies {
                &&& sum_unclaimed(
                    #[trigger] m.spec_pool(o),
                    c,
                    ParimutuelMarket::refund_weight(),
                ) == 0
            } by {
                let s = m.spec_pool(o);
                assert forall|i: int| 0 <= i < s.len() implies c(
                    (#[trigger] s[i]).account@,
                ) by {
                    lemma_row_has_account(s, i);
                }
                lemma_sum_unclaimed_empty(s, c, ParimutuelMarket::refund_weight());
            }
        },
    }
}

/// The gross winnings across a pool are bounded by the whole collected
/// pool, and truncation loses less than one unit per winning account.
proof fn lemma_sum_gross_bounds(s: Seq<BetEntry>, p: u128, t: u128, w: spec_fn(BetEntry) -> int)
    requires
        t > 0,
        forall|i: int|
            0 <= i < s.len() ==> w(#[trigger] s[i]) == spec_parimutuel_winnings(
                p,
                t,
                s[i].stake,
            ),
    ensures
        sum_weights(s, w) <= (p as int * sum_stakes(s)) / (t as int),
        s.len() >= 1 ==> sum_weights(s, w) >= (p as int * sum_stakes(s)) / (t as int) - (
        s.len() - 1),
    decreases s.len(),
{
    if s.len() == 0 {
        assert((p as int * sum_stakes(s)) / (t as int) == 0) by {
            vstd::arithmetic::div_mod::lemma_div_of0(t as int);
        }
    } else {
        let rest = s.skip(1);
        assert forall|i: int| 0 <= i < rest.len() implies w(#[trigger] rest[i])
            == spec_parimutuel_winnings(p, t, rest[i].stake) by {
            assert(rest[i] == s[i + 1]);
        }
        lemma_sum_gross_bounds(rest, p, t, w);
        lemma_sums_nonneg(rest);
        let a = p as int * s[0].stake as int;
        let b = p as int * sum_stakes(rest);
        lemma_mul_nonnegative(p as int, s[0].stake as int);
        lemma_mul_nonnegative(p as int, sum_stakes(rest));
        assert(w(s[0]) == a / (t as int)) by {
            if s[0].stake == 0 || p == 0 {
                vstd::arithmetic::div_mod::lemma_div_of0(t as int);
            }
        }
        assert(p as int * sum_stakes(s) == a + b) by {
            lemma_mul_is_distributive_add(p as int, s[0].stake as int, sum_stakes(rest));
        }
        lemma_div_add_bounds(a, b, t as int);
    }
}

} // verus!
