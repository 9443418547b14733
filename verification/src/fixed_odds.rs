//! The fixed-odds market engine: each bet locks the odds quoted at the
//! moment it is placed, and a solvency bound refuses any bet whose
//! worst-case payout could not be covered by the funds already collected.

use vstd::prelude::*;
use crate::claims::ClaimSet;
use crate::error::ContractError;
use crate::funds::{must_pay, spec_must_pay};
use crate::ledger::{
    BetEntry, BetLedger, has_account, payout_in, stake_in, sum_payouts, sum_stakes,
    sum_unclaimed, sum_weights, lemma_absent_zero, lemma_entry_for_props,
    lemma_lookup_le_sum, lemma_row_has_account, lemma_sum_unclaimed_bounds,
    lemma_sum_unclaimed_empty, lemma_sum_unclaimed_full, lemma_sum_unclaimed_mark,
    lemma_sum_weights_payouts, lemma_sum_weights_stakes,
};
use crate::ledger::lemma_unclaimed_row_le;
use crate::math::{checked_mul_ratio, calculate_fee, lemma_mul_ratio_le,
    lemma_mul_ratio_nonneg, lemma_mul_div_ordered, mul_ratio, spec_fee_amount};
use crate::state::{Coin, Config, Market, MarketResult, Status};
use crate::{
    spec_beneficiary, spec_bet_window_open, status_progression, BET_CUTOFF_SECONDS,
    FEE_PRECISION, ODDS_SCALE,
};
use vstd::arithmetic::div_mod::{
    lemma_div_is_ordered, lemma_div_multiples_vanish_fancy, lemma_fundamental_div_mod,
    lemma_hoist_over_denominator, lemma_div_pos_is_pos,
    lemma_mod_division_less_than_divisor,
};
use vstd::arithmetic::mul::{
    lemma_mul_inequality, lemma_mul_is_distributive_add, lemma_mul_is_distributive_sub,
    lemma_mul_nonnegative,
};

verus! {

/// Parameters of a new fixed-odds market.
#[derive(Debug)]
pub struct InstantiateMsg {
    /// Protocol fee in basis points.
    pub fee_bps: u64,
    /// Denomination of the settlement currency.
    pub denom: String,
    pub id: String,
    pub label: String,
    pub home_team: String,
    /// Initial quoted odds for `HOME`, at [`ODDS_SCALE`].
    pub home_odds: u128,
    pub away_team: String,
    /// Initial quoted odds for `AWAY`, at [`ODDS_SCALE`].
    pub away_odds: u128,
    /// Scheduled start of the match, in seconds.
    pub start_timestamp: u64,
}

/// The current quotes.
#[derive(Clone, Copy, Debug, PartialEq, Eq, Structural)]
pub struct MarketOdds {
    pub home_odds: u128,
    pub away_odds: u128,
}

/// One account's position on both outcomes: accumulated stake and locked
/// payout each.
#[derive(Clone, Copy, Debug, PartialEq, Eq, Structural)]
pub struct AccountBets {
    pub home_stake: u128,
    pub home_payout: u128,
    pub away_stake: u128,
    pub away_payout: u128,
}

/// A mutating call on a fixed-odds market.
#[derive(Debug)]
pub enum ExecuteMsg {
    PlaceBet { minimum_odds: u128, result: MarketResult, receiver: Option<String> },
    ClaimWinnings { receiver: Option<String> },
    /// Admin: reschedule the start of the match.
    Update { start_timestamp: u64 },
    /// Admin: move the quotes for bets placed from now on.
    UpdateOdds { home_odds: u128, away_odds: u128 },
    /// Admin: record the result and close the market.
    Score { result: MarketResult },
    /// Admin: cancel the market; every stake becomes refundable.
    Cancel,
}

/// A read-only call on a fixed-odds market.
#[derive(Debug)]
pub enum QueryMsg {
    Config,
    Market,
    Odds,
    MaxBet { result: MarketResult },
    BetsByAddress { address: String },
    EstimateWinnings { address: String, result: MarketResult },
}

/// The answer to a [`QueryMsg`].
#[derive(Debug)]
pub enum QueryResponse {
    Config(Config),
    Market(Market),
    Odds(MarketOdds),
    MaxBet(u128),
    BetsByAddress(AccountBets),
    EstimateWinnings(u128),
}

/// What a successful mutating call did.
#[derive(Debug)]
pub enum ExecResponse {
    BetPlaced { amount: u128 },
    WinningsClaimed { payout: u128 },
    MarketUpdated,
    OddsUpdated,
    MarketScored,
    MarketCancelled,
}

/// A fixed-odds market: configuration, lifecycle record, the current
/// quotes, one position table per outcome with running stake and locked
/// payout totals, the claim guard, and the payout/fee bookkeeping.
#[derive(Debug)]
pub struct FixedOddsMarket {
    config: Config,
    market: Market,
    home_odds: u128,
    away_odds: u128,
    pool_home: BetLedger,
    pool_away: BetLedger,
    total_home: u128,
    total_away: u128,
    payout_home: u128,
    payout_away: u128,
    claims: ClaimSet,
    paid_out: u128,
    fees_collected: u128,
}

impl FixedOddsMarket {
    /// The engine configuration.
    pub closed spec fn spec_config(&self) -> Config {
        self.config
    }

    /// The market record.
    pub closed spec fn spec_market(&self) -> Market {
        self.market
    }

    /// The lifecycle status.
    pub open spec fn spec_status(&self) -> Status {
        self.spec_market().status
    }

    /// The recorded result.
    pub open spec fn spec_result(&self) -> Option<MarketResult> {
        self.spec_market().result
    }

    /// The current quote for outcome `o` (a draw is never quoted).
    pub closed spec fn spec_odds(&self, o: MarketResult) -> u128 {
        match o {
            MarketResult::HOME => self.home_odds,
            MarketResult::AWAY => self.away_odds,
            MarketResult::DRAW => 0,
        }
    }

    /// The rows of the position table for outcome `o`.
    pub closed spec fn spec_pool(&self, o: MarketResult) -> Seq<BetEntry> {
        match o {
            MarketResult::HOME => self.pool_home.rows(),
            MarketResult::AWAY => self.pool_away.rows(),
            MarketResult::DRAW => Seq::<BetEntry>::empty(),
        }
    }

    /// The aggregate stake on outcome `o`.
    pub closed spec fn spec_total(&self, o: MarketResult) -> u128 {
        match o {
            MarketResult::HOME => self.total_home,
            MarketResult::AWAY => self.total_away,
            MarketResult::DRAW => 0,
        }
    }

    /// The aggregate locked payout owed if `o` is scored.
    pub closed spec fn spec_payout_total(&self, o: MarketResult) -> u128 {
        match o {
            MarketResult::HOME => self.payout_home,
            MarketResult::AWAY => self.payout_away,
            MarketResult::DRAW => 0,
        }
    }

    /// `a`'s accumulated stake on outcome `o`.
    pub open spec fn spec_stake(&self, o: MarketResult, a: Seq<char>) -> u128 {
        stake_in(self.spec_pool(o), a)
    }

    /// `a`'s locked payout on outcome `o`.
    pub open spec fn spec_payout_of(&self, o: MarketResult, a: Seq<char>) -> u128 {
        payout_in(self.spec_pool(o), a)
    }

    /// Everything ever collected through bet placement.
    pub open spec fn collected(&self) -> int {
        self.spec_total(MarketResult::HOME) + self.spec_total(MarketResult::AWAY)
    }

    /// Whether `a` has already been paid.
    pub closed spec fn spec_claimed(&self, a: Seq<char>) -> bool {
        self.claims.spec_claimed(a)
    }

    /// Everything paid out to claimants so far.
    pub closed spec fn paid_total(&self) -> u128 {
        self.paid_out
    }

    /// Every fee withheld so far.
    pub closed spec fn fees_total(&self) -> u128 {
        self.fees_collected
    }

    /// The claim predicate, as a closure over accounts.
    pub open spec fn claimed_of(&self) -> spec_fn(Seq<char>) -> bool {
        |a: Seq<char>| self.spec_claimed(a)
    }

    /// Per-row locked payout.
    pub open spec fn payout_weight() -> spec_fn(BetEntry) -> int {
        |e: BetEntry| e.payout as int
    }

    /// Per-row refund on cancellation.
    pub open spec fn refund_weight() -> spec_fn(BetEntry) -> int {
        |e: BetEntry| e.stake as int
    }

    /// What is still owed to accounts that have not claimed yet.
    pub open spec fn outstanding(&self) -> int {
        match self.spec_status() {
            Status::ACTIVE => 0,
            Status::CLOSED => match self.spec_result() {
                Some(r) => sum_unclaimed(
                    self.spec_pool(r),
                    self.claimed_of(),
                    Self::payout_weight(),
                ),
                None => 0,
            },
            Status::CANCELLED => sum_unclaimed(
                self.spec_pool(MarketResult::HOME),
                self.claimed_of(),
                Self::refund_weight(),
            ) + sum_unclaimed(
                self.spec_pool(MarketResult::AWAY),
                self.claimed_of(),
                Self::refund_weight(),
            ),
        }
    }

    /// The engine invariant.  Beyond the bookkeeping of the pari-mutuel
    /// invariant, it carries the solvency bound: the locked payout owed on
    /// either outcome never exceeds what has been collected, so every
    /// accepted bet is payable from funds already held.
    pub closed spec fn wf(&self) -> bool {
        &&& self.config.fee_bps <= FEE_PRECISION
        &&& self.pool_home.wf()
        &&& self.pool_away.wf()
        &&& self.total_home as int == sum_stakes(self.pool_home.rows())
        &&& self.total_away as int == sum_stakes(self.pool_away.rows())
        &&& self.payout_home as int == sum_payouts(self.pool_home.rows())
        &&& self.payout_away as int == sum_payouts(self.pool_away.rows())
        &&& self.collected() <= u128::MAX as int
        &&& self.payout_home <= self.collected()
        &&& self.payout_away <= self.collected()
        &&& !self.market.is_drawable
        &&& match self.market.status {
            Status::ACTIVE => {
                &&& self.market.result is None
                &&& self.claims.rows().len() == 0
                &&& self.paid_out == 0
                &&& self.fees_collected == 0
            },
            Status::CLOSED => match self.market.result {
                Some(r) => {
                    &&& !(r is DRAW)
                    &&& self.spec_total(r) > 0
                    &&& self.collected() - self.spec_total(r) > 0
                    &&& self.paid_out + self.fees_collected + self.outstanding()
                        == self.spec_payout_total(r)
                },
                None => false,
            },
            Status::CANCELLED => {
                &&& self.market.result is None
                &&& self.fees_collected == 0
                &&& self.paid_out + self.outstanding() == self.collected()
            },
        }
    }

    /// Create the market: configuration, quotes, and an `ACTIVE` record
    /// with empty position tables.  Only the named administrator may
    /// instantiate.
    pub fn instantiate(
        sender: &String,
        admin_addr: String,
        treasury_addr: String,
        msg: InstantiateMsg,
    ) -> (r: Result<FixedOddsMarket, ContractError>)
        requires
            msg.fee_bps <= FEE_PRECISION,
        ensures
            match r {
                Ok(m) => {
                    &&& sender@ == admin_addr@
                    &&& m.wf()
                    &&& m.spec_config() == (Config {
                        admin_addr: admin_addr,
                        treasury_addr: treasury_addr,
                        fee_bps: msg.fee_bps,
                        denom: msg.denom,
                    })
                    &&& m.spec_market() == (Market {
                        id: msg.id,
                        label: msg.label,
                        home_team: msg.home_team,
                        away_team: msg.away_team,
                        start_timestamp: msg.start_timestamp,
                        status: Status::ACTIVE,
                        result: None,
                        is_drawable: false,
                    })
                    &&& m.spec_odds(MarketResult::HOME) == msg.home_odds
                    &&& m.spec_odds(MarketResult::AWAY) == msg.away_odds
                    &&& forall|o: MarketResult| #[trigger] m.spec_total(o) == 0
                    &&& forall|o: MarketResult| #[trigger] m.spec_payout_total(o) == 0
                    &&& forall|o: MarketResult| (#[trigger] m.spec_pool(o)).len() == 0
                    &&& forall|b: Seq<char>| !(#[trigger] m.spec_claimed(b))
                    &&& m.paid_total() == 0
                    &&& m.fees_total() == 0
                },
                Err(e) => {
                    &&& sender@ != admin_addr@
                    &&& e == ContractError::Unauthorized
                },
            },
    {
        if !(*sender == admin_addr) {
            return Err(ContractError::Unauthorized);
        }
        let m = FixedOddsMarket {
            config: Config {
                admin_addr: admin_addr,
                treasury_addr: treasury_addr,
                fee_bps: msg.fee_bps,
                denom: msg.denom,
            },
            market: Market {
                id: msg.id,
                label: msg.label,
                home_team: msg.home_team,
                away_team: msg.away_team,
                start_timestamp: msg.start_timestamp,
                status: Status::ACTIVE,
                result: None,
                is_drawable: false,
            },
            home_odds: msg.home_odds,
            away_odds: msg.away_odds,
            pool_home: BetLedger::new(),
            pool_away: BetLedger::new(),
            total_home: 0,
            total_away: 0,
            payout_home: 0,
            payout_away: 0,
            claims: ClaimSet::new(),
            paid_out: 0,
            fees_collected: 0,
        };
        proof {
            assert(sum_stakes(Seq::<BetEntry>::empty()) == 0);
            assert(sum_payouts(Seq::<BetEntry>::empty()) == 0);
        }
        Ok(m)
    }

    /// The configuration.
    pub fn query_config(&self) -> (r: Config)
        ensures
            r == self.spec_config(),
    {
        self.config.clone()
    }

    /// The market record.
    pub fn query_market(&self) -> (r: Market)
        ensures
            r == self.spec_market(),
    {
        self.market.clone()
    }

    /// The current quotes.
    pub fn query_odds(&self) -> (r: MarketOdds)
        ensures
            r.home_odds == self.spec_odds(MarketResult::HOME),
            r.away_odds == self.spec_odds(MarketResult::AWAY),
    {
        MarketOdds { home_odds: self.home_odds, away_odds: self.away_odds }
    }

    /// One account's stake and locked payout per outcome.
    pub fn query_bets_by_address(&self, address: &String) -> (r: AccountBets)
        ensures
            r.home_stake == self.spec_stake(MarketResult::HOME, address@),
            r.home_payout == self.spec_payout_of(MarketResult::HOME, address@),
            r.away_stake == self.spec_stake(MarketResult::AWAY, address@),
            r.away_payout == self.spec_payout_of(MarketResult::AWAY, address@),
    {
        let (home_stake, home_payout) = self.pool_home.lookup(address);
        let (away_stake, away_payout) = self.pool_away.lookup(address);
        AccountBets { home_stake, home_payout, away_stake, away_payout }
    }

    /// The gross winnings `address` has locked in, were `result` scored:
    /// its accumulated locked payout on that outcome, before fees.
    pub fn query_estimate_winnings(&self, address: &String, result: MarketResult) -> (r:
        u128)
        ensures
            r == self.spec_payout_of(result, address@),
    {
        match result {
            MarketResult::HOME => {
                let (_, payout) = self.pool_home.lookup(address);
                payout
            },
            MarketResult::AWAY => {
                let (_, payout) = self.pool_away.lookup(address);
                payout
            },
            MarketResult::DRAW => {
                proof {
                    lemma_absent_zero(Seq::<BetEntry>::empty(), address@);
                }
                0
            },
        }
    }

    /// The largest stake currently acceptable on `result` under the
    /// solvency bound, so clients can avoid refused bets.  Any larger
    /// stake would be refused; a draw cannot be bet on at all.
    pub fn query_max_bet(&self, result: MarketResult) -> (r: u128)
        requires
            self.wf(),
        ensures
            result is DRAW ==> r == 0,
            !(result is DRAW) ==> self.spec_bet_acceptable(result, r),
            !(result is DRAW) ==> forall|s: u128|
                s > r ==> !(#[trigger] self.spec_bet_acceptable(result, s)),
    {
        let o = match result {
            MarketResult::HOME => self.home_odds,
            MarketResult::AWAY => self.away_odds,
            MarketResult::DRAW => {
                return 0;
            },
        };
        let payout_tot = match result {
            MarketResult::HOME => self.payout_home,
            MarketResult::AWAY => self.payout_away,
            MarketResult::DRAW => 0,
        };
        let opp_total = match result {
            MarketResult::HOME => self.total_away,
            MarketResult::AWAY => self.total_home,
            MarketResult::DRAW => 0,
        };
        let pool = self.total_home + self.total_away;
        let cap = u128::MAX - pool;
        if o <= ODDS_SCALE {
            // The payout never exceeds the stake, so only the pool's own
            // capacity limits the bet.
            proof {
                lemma_mul_ratio_le(cap, o, ODDS_SCALE);
                lemma_mul_ratio_nonneg(cap, o, ODDS_SCALE);
            }
            return cap;
        }
        let d = o - ODDS_SCALE;
        let ghost sc = ODDS_SCALE as int;
        proof {
            lemma_zero_stake_acceptable(*self, result);
        }
        if cap == 0 {
            return 0;
        }
        // The room for new liability: both the aggregate headroom of the
        // book and the opposing side's stake must cover it.
        let aggregate_room = pool - payout_tot;
        let a_room = if opp_total < aggregate_room {
            opp_total
        } else {
            aggregate_room
        };
        let ghost big_a = a_room as int;
        let q = match crate::math::checked_mul_ratio(a_room + 1, ODDS_SCALE, d) {
            Some(v) => v,
            None => {
                // Even the largest stake the pool can absorb stays below
                // the exact solvency limit.
                proof {
                    let qq = ((big_a + 1) * sc) / (d as int);
                    lemma_mul_nonnegative(big_a + 1, sc);
                    lemma_div_pos_is_pos((big_a + 1) * sc, d as int);
                    lemma_liability_below_quotient(big_a, sc, d as int, cap as int);
                    lemma_mul_ratio_split(cap, o);
                    assert forall|s: u128|
                        s > cap implies !(#[trigger] self.spec_bet_acceptable(
                        result,
                        s,
                    )) by {}
                }
                return cap;
            },
        };
        let q_capped = if q > cap {
            cap
        } else {
            q
        };
        let ok = match crate::math::checked_mul_ratio(q_capped, o, ODDS_SCALE) {
            Some(p) => p <= q_capped + a_room,
            None => false,
        };
        proof {
            lemma_mul_ratio_split(q_capped, o);
        }
        if ok {
            proof {
                assert forall|s: u128|
                    s > q_capped implies !(#[trigger] self.spec_bet_acceptable(
                    result,
                    s,
                )) by {
                    if s > cap {
                    } else {
                        lemma_liability_beyond_quotient(big_a, sc, d as int, s as int);
                        lemma_mul_ratio_split(s, o);
                    }
                }
            }
            q_capped
        } else {
            proof {
                // A zero stake always passes the runtime check, so the
                // candidate is positive and one less is exactly the limit.
                if q_capped == 0 {
                    vstd::arithmetic::div_mod::lemma_div_of0(sc);
                    assert(mul_ratio(0, o, ODDS_SCALE) == 0);
                    assert(false);
                }
                // The runtime refusal shows the candidate's liability
                // already exceeds the room.
                assert((q_capped as int * d as int) / sc > big_a);
                assert forall|s: u128|
                    s >= q_capped implies !(#[trigger] self.spec_bet_acceptable(
                    result,
                    s,
                )) by {
                    if s <= cap {
                        lemma_mul_div_ordered(q_capped as int, s as int, d as int, sc);
                        lemma_mul_ratio_split(s, o);
                    }
                }
                // One less is acceptable.
                lemma_liability_below_quotient(big_a, sc, d as int, q_capped - 1);
                lemma_mul_ratio_split((q_capped - 1) as u128, o);
            }
            q_capped - 1
        }
    }

    /// The stake collected on the other outcome: the funds available to
    /// cover a new bet's own worst-case liability.
    pub open spec fn spec_opposing_total(&self, o: MarketResult) -> u128 {
        match o {
            MarketResult::HOME => self.spec_total(MarketResult::AWAY),
            MarketResult::AWAY => self.spec_total(MarketResult::HOME),
            MarketResult::DRAW => 0,
        }
    }

    /// The solvency bound: a bet of `amount` on `o` is acceptable when the
    /// pool total still fits, when the bet's own worst-case liability (its
    /// locked payout beyond its stake) is covered by what is currently
    /// staked on the other outcome, and when the aggregate locked payout
    /// then owed on `o` does not exceed everything collected (the new
    /// stake included).  The third bound keeps the whole book payable from
    /// funds already held even across quote moves; the second refuses any
    /// single bet whose liability the opposing side cannot cover.
    pub open spec fn spec_bet_acceptable(&self, o: MarketResult, amount: u128) -> bool {
        &&& self.collected() + amount <= u128::MAX as int
        &&& mul_ratio(amount, self.spec_odds(o), ODDS_SCALE) - amount
            <= self.spec_opposing_total(o)
        &&& self.spec_payout_total(o) + mul_ratio(amount, self.spec_odds(o), ODDS_SCALE)
            <= self.collected() + amount
    }

    /// Why a bet would be refused, in the order the checks are made.
    pub open spec fn spec_place_bet_err(
        &self,
        now: u64,
        funds: Seq<Coin>,
        result: MarketResult,
        minimum_odds: u128,
    ) -> Option<ContractError> {
        if result is DRAW {
            Some(ContractError::MarketNotDrawable)
        } else if !(self.spec_status() is ACTIVE) {
            Some(ContractError::MarketNotActive)
        } else if !spec_bet_window_open(self.spec_market().start_timestamp, now) {
            Some(ContractError::BetsNotAccepted)
        } else {
            match spec_must_pay(funds, self.spec_config().denom@) {
                Some(amount) => {
                    if self.spec_odds(result) < minimum_odds {
                        Some(ContractError::MinimumOddsNotFulfilled)
                    } else if !self.spec_bet_acceptable(result, amount) {
                        Some(ContractError::MaxBetExceeded)
                    } else {
                        None
                    }
                },
                None => Some(ContractError::PaymentError),
            }
        }
    }

    /// The whole effect of a bet placement: a refused bet changes nothing
    /// and reports why; an accepted bet locks the current quote, moving
    /// the payment into the stake and the floored payout
    /// `amount * odds / ODDS_SCALE` into the locked book.
    pub open spec fn place_bet_post(
        pre: Self,
        post: Self,
        r: Result<u128, ContractError>,
        now: u64,
        funds: Seq<Coin>,
        result: MarketResult,
        minimum_odds: u128,
        addr: Seq<char>,
    ) -> bool {
        &&& post.wf()
        &&& status_progression(pre.spec_status(), post.spec_status())
        &&& match pre.spec_place_bet_err(now, funds, result, minimum_odds) {
            Some(e) => r == Err::<u128, ContractError>(e) && post == pre,
            None => match spec_must_pay(funds, pre.spec_config().denom@) {
                Some(amount) => {
                    let locked = mul_ratio(amount, pre.spec_odds(result), ODDS_SCALE);
                    &&& r == Ok::<u128, ContractError>(amount)
                    &&& post.spec_stake(result, addr) == pre.spec_stake(result, addr)
                        + amount
                    &&& post.spec_payout_of(result, addr) == pre.spec_payout_of(
                        result,
                        addr,
                    ) + locked
                    &&& forall|b: Seq<char>|
                        b != addr ==> #[trigger] post.spec_stake(result, b)
                            == pre.spec_stake(result, b)
                    &&& forall|b: Seq<char>|
                        b != addr ==> #[trigger] post.spec_payout_of(result, b)
                            == pre.spec_payout_of(result, b)
                    &&& forall|o: MarketResult, b: Seq<char>|
                        o != result ==> #[trigger] post.spec_stake(o, b) == pre.spec_stake(
                            o,
                            b,
                        )
                    &&& forall|o: MarketResult, b: Seq<char>|
                        o != result ==> #[trigger] post.spec_payout_of(o, b)
                            == pre.spec_payout_of(o, b)
                    &&& post.spec_total(result) == pre.spec_total(result) + amount
                    &&& post.spec_payout_total(result) == pre.spec_payout_total(result)
                        + locked
                    &&& forall|o: MarketResult|
                        o != result ==> #[trigger] post.spec_total(o) == pre.spec_total(o)
                    &&& forall|o: MarketResult|
                        o != result ==> #[trigger] post.spec_payout_total(o)
                            == pre.spec_payout_total(o)
                    &&& forall|o: MarketResult| #[trigger] post.spec_odds(o) == pre.spec_odds(o)
                    &&& post.spec_config() == pre.spec_config()
                    &&& post.spec_market() == pre.spec_market()
                    &&& forall|b: Seq<char>|
                        #[trigger] post.spec_claimed(b) == pre.spec_claimed(b)
                    &&& post.paid_total() == pre.paid_total()
                    &&& post.fees_total() == pre.fees_total()
                },
                None => false,
            },
        }
    }

    /// Place a bet of the attached payment on `result` at the current
    /// quote, refusing it when the quote fell below `minimum_odds` or when
    /// the locked payout would break the solvency bound.
    pub fn execute_place_bet(
        &mut self,
        now: u64,
        sender: &String,
        funds: &Vec<Coin>,
        minimum_odds: u128,
        result: MarketResult,
        receiver: Option<String>,
    ) -> (r: Result<u128, ContractError>)
        requires
            old(self).wf(),
        ensures
            Self::place_bet_post(
                *old(self),
                *final(self),
                r,
                now,
                funds@,
                result,
                minimum_odds,
                spec_beneficiary(sender@, receiver),
            ),
    {
        let addr: String = match receiver {
            Some(rcv) => rcv,
            None => sender.clone(),
        };
        if result == MarketResult::DRAW {
            return Err(ContractError::MarketNotDrawable);
        }
        if self.market.status != Status::ACTIVE {
            return Err(ContractError::MarketNotActive);
        }
        // The window closes BET_CUTOFF_SECONDS before the scheduled start.
        if self.market.start_timestamp < BET_CUTOFF_SECONDS || now
            >= self.market.start_timestamp - BET_CUTOFF_SECONDS {
            return Err(ContractError::BetsNotAccepted);
        }
        let amount = match must_pay(funds, &self.config.denom) {
            Some(a) => a,
            None => {
                return Err(ContractError::PaymentError);
            },
        };
        let odds_now = match result {
            MarketResult::HOME => self.home_odds,
            MarketResult::AWAY => self.away_odds,
            MarketResult::DRAW => 0,
        };
        if odds_now < minimum_odds {
            return Err(ContractError::MinimumOddsNotFulfilled);
        }
        // Solvency: the whole pool must keep fitting, and the payout
        // locked in must stay covered by everything collected.
        let collected = self.total_home + self.total_away;
        if amount > u128::MAX - collected {
            return Err(ContractError::MaxBetExceeded);
        }
        let locked = match crate::math::checked_mul_ratio(amount, odds_now, ODDS_SCALE) {
            Some(p) => p,
            None => {
                proof {
                    lemma_mul_ratio_nonneg(amount, odds_now, ODDS_SCALE);
                }
                return Err(ContractError::MaxBetExceeded);
            },
        };
        let payout_tot = match result {
            MarketResult::HOME => self.payout_home,
            MarketResult::AWAY => self.payout_away,
            MarketResult::DRAW => 0,
        };
        if locked > (collected + amount) - payout_tot {
            return Err(ContractError::MaxBetExceeded);
        }
        // The bet's own worst-case liability must be covered by what is
        // already staked on the other outcome.
        let opp_total = match result {
            MarketResult::HOME => self.total_away,
            MarketResult::AWAY => self.total_home,
            MarketResult::DRAW => 0,
        };
        if locked > amount + opp_total {
            return Err(ContractError::MaxBetExceeded);
        }
        match result {
            MarketResult::HOME => {
                proof {
                    lemma_lookup_le_sum(self.pool_home.rows(), addr@);
                }
                self.pool_home.credit(&addr, amount, locked);
                self.total_home = self.total_home + amount;
                self.payout_home = self.payout_home + locked;
            },
            MarketResult::AWAY => {
                proof {
                    lemma_lookup_le_sum(self.pool_away.rows(), addr@);
                }
                self.pool_away.credit(&addr, amount, locked);
                self.total_away = self.total_away + amount;
                self.payout_away = self.payout_away + locked;
            },
            MarketResult::DRAW => {},
        }
        Ok(amount)
    }

    /// Why an admin operation on an active market would be refused.
    pub open spec fn spec_admin_active_err(&self, sender: Seq<char>) -> Option<
        ContractError,
    > {
        if sender != self.spec_config().admin_addr@ {
            Some(ContractError::Unauthorized)
        } else if !(self.spec_status() is ACTIVE) {
            Some(ContractError::MarketNotActive)
        } else {
            None
        }
    }

    /// The whole effect of a reschedule: only the start timestamp moves.
    pub open spec fn update_post(
        pre: Self,
        post: Self,
        r: Result<(), ContractError>,
        sender: Seq<char>,
        start_timestamp: u64,
    ) -> bool {
        &&& post.wf()
        &&& status_progression(pre.spec_status(), post.spec_status())
        &&& match pre.spec_admin_active_err(sender) {
            Some(e) => r == Err::<(), ContractError>(e) && post == pre,
            None => {
                &&& r == Ok::<(), ContractError>(())
                &&& post.spec_market() == (Market {
                    start_timestamp: start_timestamp,
                    ..pre.spec_market()
                })
                &&& Self::unchanged_but_market(pre, post)
            },
        }
    }

    /// Everything but the market record is as it was.
    pub open spec fn unchanged_but_market(pre: Self, post: Self) -> bool {
        &&& post.spec_config() == pre.spec_config()
        &&& forall|o: MarketResult| #[trigger] post.spec_odds(o) == pre.spec_odds(o)
        &&& forall|o: MarketResult| #[trigger] post.spec_pool(o) == pre.spec_pool(o)
        &&& forall|o: MarketResult| #[trigger] post.spec_total(o) == pre.spec_total(o)
        &&& forall|o: MarketResult|
            #[trigger] post.spec_payout_total(o) == pre.spec_payout_total(o)
        &&& forall|b: Seq<char>| #[trigger] post.spec_claimed(b) == pre.spec_claimed(b)
        &&& post.paid_total() == pre.paid_total()
        &&& post.fees_total() == pre.fees_total()
    }

    /// Admin: reschedule the start of the match while the market is
    /// active.
    pub fn execute_update(&mut self, sender: &String, start_timestamp: u64) -> (r: Result<
        (),
        ContractError,
    >)
        requires
            old(self).wf(),
        ensures
            Self::update_post(*old(self), *final(self), r, sender@, start_timestamp),
    {
        if !(*sender == self.config.admin_addr) {
            return Err(ContractError::Unauthorized);
        }
        if self.market.status != Status::ACTIVE {
            return Err(ContractError::MarketNotActive);
        }
        self.market.start_timestamp = start_timestamp;
        Ok(())
    }

    /// The whole effect of an odds adjustment: only the quotes move;
    /// positions already taken keep the odds they locked.
    pub open spec fn update_odds_post(
        pre: Self,
        post: Self,
        r: Result<(), ContractError>,
        sender: Seq<char>,
        home_odds: u128,
        away_odds: u128,
    ) -> bool {
        &&& post.wf()
        &&& status_progression(pre.spec_status(), post.spec_status())
        &&& match pre.spec_admin_active_err(sender) {
            Some(e) => r == Err::<(), ContractError>(e) && post == pre,
            None => {
                &&& r == Ok::<(), ContractError>(())
                &&& post.spec_odds(MarketResult::HOME) == home_odds
                &&& post.spec_odds(MarketResult::AWAY) == away_odds
                &&& post.spec_market() == pre.spec_market()
                &&& post.spec_config() == pre.spec_config()
                &&& forall|o: MarketResult| #[trigger] post.spec_pool(o) == pre.spec_pool(o)
                &&& forall|o: MarketResult| #[trigger] post.spec_total(o) == pre.spec_total(o)
                &&& forall|o: MarketResult|
                    #[trigger] post.spec_payout_total(o) == pre.spec_payout_total(o)
                &&& forall|b: Seq<char>|
                    #[trigger] post.spec_claimed(b) == pre.spec_claimed(b)
                &&& post.paid_total() == pre.paid_total()
                &&& post.fees_total() == pre.fees_total()
            },
        }
    }

    /// Admin: adjust the quoted odds for bets placed from now on.
    pub fn execute_update_odds(&mut self, sender: &String, home_odds: u128, away_odds: u128)
        -> (r: Result<(), ContractError>)
        requires
            old(self).wf(),
        ensures
            Self::update_odds_post(
                *old(self),
                *final(self),
                r,
                sender@,
                home_odds,
                away_odds,
            ),
    {
        if !(*sender == self.config.admin_addr) {
            return Err(ContractError::Unauthorized);
        }
        if self.market.status != Status::ACTIVE {
            return Err(ContractError::MarketNotActive);
        }
        self.home_odds = home_odds;
        self.away_odds = away_odds;
        Ok(())
    }

    /// Why a scoring call would be refused.
    pub open spec fn spec_score_err(&self, sender: Seq<char>, result: MarketResult) -> Option<
        ContractError,
    > {
        if sender != self.spec_config().admin_addr@ {
            Some(ContractError::Unauthorized)
        } else if result is DRAW {
            Some(ContractError::MarketNotScoreable)
        } else if !(self.spec_status() is ACTIVE) {
            Some(ContractError::MarketNotActive)
        } else if self.spec_total(result) == 0 || self.collected() - self.spec_total(result)
            == 0 {
            Some(ContractError::NoWinnings)
        } else {
            None
        }
    }

    /// The whole effect of scoring: the market becomes `CLOSED` with the
    /// given result, and nothing else moves.
    pub open spec fn score_post(
        pre: Self,
        post: Self,
        r: Result<(), ContractError>,
        sender: Seq<char>,
        result: MarketResult,
    ) -> bool {
        &&& post.wf()
        &&& status_progression(pre.spec_status(), post.spec_status())
        &&& match pre.spec_score_err(sender, result) {
            Some(e) => r == Err::<(), ContractError>(e) && post == pre,
            None => {
                &&& r == Ok::<(), ContractError>(())
                &&& post.spec_market() == (Market {
                    status: Status::CLOSED,
                    result: Some(result),
                    ..pre.spec_market()
                })
                &&& Self::unchanged_but_market(pre, post)
            },
        }
    }

    /// Admin: record `result` and close the market.  Fails with a
    /// no-winnings condition when either side of the book is empty.
    pub fn execute_score(&mut self, sender: &String, result: MarketResult) -> (r: Result<
        (),
        ContractError,
    >)
        requires
            old(self).wf(),
        ensures
            Self::score_post(*old(self), *final(self), r, sender@, result),
    {
        if !(*sender == self.config.admin_addr) {
            return Err(ContractError::Unauthorized);
        }
        if result == MarketResult::DRAW {
            return Err(ContractError::MarketNotScoreable);
        }
        if self.market.status != Status::ACTIVE {
            return Err(ContractError::MarketNotActive);
        }
        let winning_side = match result {
            MarketResult::HOME => self.total_home,
            MarketResult::AWAY => self.total_away,
            MarketResult::DRAW => 0,
        };
        let losing_side = match result {
            MarketResult::HOME => self.total_away,
            MarketResult::AWAY => self.total_home,
            MarketResult::DRAW => 0,
        };
        if winning_side == 0 || losing_side == 0 {
            return Err(ContractError::NoWinnings);
        }
        self.market.status = Status::CLOSED;
        self.market.result = Some(result);
        proof {
            let s = self.spec_pool(result);
            let c = self.claimed_of();
            let w = Self::payout_weight();
            assert forall|i: int| 0 <= i < s.len() implies !c((#[trigger] s[i]).account@) by {
                assert(self.claims.rows().len() == 0);
            }
            lemma_sum_unclaimed_full(s, c, w);
            assert forall|i: int| 0 <= i < s.len() implies w(#[trigger] s[i])
                == s[i].payout by {}
            lemma_sum_weights_payouts(s, w);
        }
        Ok(())
    }

    /// The whole effect of cancellation: the market becomes `CANCELLED`
    /// with no result, and nothing else moves.
    pub open spec fn cancel_post(
        pre: Self,
        post: Self,
        r: Result<(), ContractError>,
        sender: Seq<char>,
    ) -> bool {
        &&& post.wf()
        &&& status_progression(pre.spec_status(), post.spec_status())
        &&& match pre.spec_admin_active_err(sender) {
            Some(e) => r == Err::<(), ContractError>(e) && post == pre,
            None => {
                &&& r == Ok::<(), ContractError>(())
                &&& post.spec_market() == (Market {
                    status: Status::CANCELLED,
                    ..pre.spec_market()
                })
                &&& Self::unchanged_but_market(pre, post)
            },
        }
    }

    /// The gross entitlement of `a`: its locked payout after scoring, a
    /// full refund after cancellation, nothing while active.
    pub open spec fn spec_gross(&self, a: Seq<char>) -> int {
        match self.spec_status() {
            Status::ACTIVE => 0,
            Status::CLOSED => match self.spec_result() {
                Some(r) => self.spec_payout_of(r, a) as int,
                None => 0,
            },
            Status::CANCELLED => self.spec_stake(MarketResult::HOME, a) + self.spec_stake(
                MarketResult::AWAY,
                a,
            ),
        }
    }

    /// The fee withheld from `a`'s claim: basis points of the locked
    /// payout after scoring; refunds are fee-free.
    pub open spec fn spec_claim_fee(&self, a: Seq<char>) -> int {
        if self.spec_status() is CLOSED {
            spec_fee_amount(self.spec_gross(a) as u128, self.spec_config().fee_bps)
        } else {
            0
        }
    }

    /// The net payout of `a`'s claim.
    pub open spec fn spec_net(&self, a: Seq<char>) -> int {
        self.spec_gross(a) - self.spec_claim_fee(a)
    }

    /// Why a claim would be refused, in the order the checks are made.
    pub open spec fn spec_claim_err(&self, addr: Seq<char>) -> Option<ContractError> {
        if self.spec_status() is ACTIVE {
            Some(ContractError::MarketNotClosed)
        } else if self.spec_claimed(addr) {
            Some(ContractError::ClaimAlreadyMade)
        } else if self.spec_net(addr) == 0 {
            Some(ContractError::NoWinnings)
        } else {
            None
        }
    }

    /// The whole effect of a claim: a refused claim changes nothing; a
    /// successful claim pays the net entitlement exactly once, marks the
    /// beneficiary, and books the payout and the fee.
    pub open spec fn claim_post(
        pre: Self,
        post: Self,
        r: Result<u128, ContractError>,
        addr: Seq<char>,
    ) -> bool {
        &&& post.wf()
        &&& status_progression(pre.spec_status(), post.spec_status())
        &&& match pre.spec_claim_err(addr) {
            Some(e) => r == Err::<u128, ContractError>(e) && post == pre,
            None => {
                &&& pre.spec_net(addr) > 0
                &&& r == Ok::<u128, ContractError>(pre.spec_net(addr) as u128)
                &&& post.spec_claimed(addr)
                &&& forall|b: Seq<char>|
                    b != addr ==> #[trigger] post.spec_claimed(b) == pre.spec_claimed(b)
                &&& post.spec_market() == pre.spec_market()
                &&& post.spec_config() == pre.spec_config()
                &&& forall|o: MarketResult| #[trigger] post.spec_odds(o) == pre.spec_odds(o)
                &&& forall|o: MarketResult|
                    #[trigger] post.spec_pool(o) == pre.spec_pool(o)
                &&& forall|o: MarketResult| #[trigger] post.spec_total(o) == pre.spec_total(o)
                &&& forall|o: MarketResult|
                    #[trigger] post.spec_payout_total(o) == pre.spec_payout_total(o)
                &&& post.paid_total() == pre.paid_total() + pre.spec_net(addr)
                &&& post.fees_total() == pre.fees_total() + pre.spec_claim_fee(addr)
            },
        }
    }

    /// Claim the beneficiary's entitlement: net locked winnings after
    /// scoring, or a full refund after cancellation.  Pays at most once
    /// per account.
    pub fn execute_claim_winnings(&mut self, sender: &String, receiver: Option<String>) -> (r:
        Result<u128, ContractError>)
        requires
            old(self).wf(),
        ensures
            Self::claim_post(
                *old(self),
                *final(self),
                r,
                spec_beneficiary(sender@, receiver),
            ),
    {
        let addr: String = match receiver {
            Some(rcv) => rcv,
            None => sender.clone(),
        };
        if self.market.status == Status::ACTIVE {
            return Err(ContractError::MarketNotClosed);
        }
        if self.claims.contains(&addr) {
            return Err(ContractError::ClaimAlreadyMade);
        }
        let (stake_home, payout_home) = self.pool_home.lookup(&addr);
        let (stake_away, payout_away) = self.pool_away.lookup(&addr);
        let payout: u128;
        let fee: u128;
        if self.market.status == Status::CANCELLED {
            proof {
                lemma_lookup_le_sum(self.pool_home.rows(), addr@);
                lemma_lookup_le_sum(self.pool_away.rows(), addr@);
            }
            payout = stake_home + stake_away;
            fee = 0;
        } else {
            let gross = match self.market.result {
                Some(MarketResult::HOME) => payout_home,
                Some(MarketResult::AWAY) => payout_away,
                _ => 0,
            };
            fee = calculate_fee(gross, self.config.fee_bps);
            payout = gross - fee;
        }
        if payout == 0 {
            return Err(ContractError::NoWinnings);
        }
        proof {
            self.lemma_claim_entitlement_bounds(addr@);
        }
        self.claims.record(&addr);
        self.paid_out = self.paid_out + payout;
        self.fees_collected = self.fees_collected + fee;
        proof {
            Self::lemma_claim_marked_wf(*old(self), *self, addr@);
        }
        Ok(payout)
    }

    /// On a terminal market, an unclaimed account's gross entitlement is
    /// bounded by what is still outstanding (and so fits the books).
    proof fn lemma_claim_entitlement_bounds(&self, addr: Seq<char>)
        requires
            self.wf(),
            !(self.spec_status() is ACTIVE),
            !self.spec_claimed(addr),
        ensures
            0 <= self.spec_gross(addr) <= self.outstanding(),
            self.paid_total() + self.fees_total() + self.spec_gross(addr)
                <= self.collected(),
    {
        let c = self.claimed_of();
        if self.spec_status() is CLOSED {
            let rr = self.spec_result()->Some_0;
            let s = self.spec_pool(rr);
            let w = Self::payout_weight();
            assert forall|i: int| 0 <= i < s.len() implies w(#[trigger] s[i]) >= 0 by {}
            lemma_sum_unclaimed_bounds(s, c, w);
            if has_account(s, addr) {
                lemma_unclaimed_row_le(s, c, w, addr);
                lemma_entry_for_props(s, addr);
            } else {
                lemma_absent_zero(s, addr);
            }
        } else {
            assert forall|o: MarketResult| true implies {
                &&& 0 <= stake_in(#[trigger] self.spec_pool(o), addr) <= sum_unclaimed(
                    self.spec_pool(o),
                    c,
                    Self::refund_weight(),
                )
            } by {
                let s = self.spec_pool(o);
                let w = Self::refund_weight();
                assert forall|i: int| 0 <= i < s.len() implies w(#[trigger] s[i]) >= 0 by {}
                lemma_sum_unclaimed_bounds(s, c, w);
                if has_account(s, addr) {
                    lemma_unclaimed_row_le(s, c, w, addr);
                    lemma_entry_for_props(s, addr);
                } else {
                    lemma_absent_zero(s, addr);
                }
            }
        }
    }

    /// Booking a successful claim preserves the invariant: the marked
    /// account's entitlement moves from outstanding to paid-plus-fees.
    proof fn lemma_claim_marked_wf(pre: Self, post: Self, addr: Seq<char>)
        requires
            pre.wf(),
            !(pre.spec_status() is ACTIVE),
            !pre.spec_claimed(addr),
            pre.spec_net(addr) > 0,
            post.spec_market() == pre.spec_market(),
            post.spec_config() == pre.spec_config(),
            post.pool_home == pre.pool_home,
            post.pool_away == pre.pool_away,
            post.home_odds == pre.home_odds,
            post.away_odds == pre.away_odds,
            post.total_home == pre.total_home,
            post.total_away == pre.total_away,
            post.payout_home == pre.payout_home,
            post.payout_away == pre.payout_away,
            forall|b: Seq<char>|
                #[trigger] post.spec_claimed(b) == (pre.spec_claimed(b) || b == addr),
            post.paid_total() == pre.paid_total() + pre.spec_net(addr),
            post.fees_total() == pre.fees_total() + pre.spec_claim_fee(addr),
        ensures
            post.wf(),
    {
        let c_pre = pre.claimed_of();
        let c_post = post.claimed_of();
        assert forall|b: Seq<char>| #[trigger] c_post(b) == (c_pre(b) || b == addr) by {}
        if pre.spec_status() is CLOSED {
            let rr = pre.spec_result()->Some_0;
            let s = pre.spec_pool(rr);
            let w = Self::payout_weight();
            // The account owns a row: a zero payout would mean zero gross.
            if !has_account(s, addr) {
                lemma_absent_zero(s, addr);
                assert(false);
            }
            lemma_entry_for_props(s, addr);
            lemma_sum_unclaimed_mark(s, c_pre, c_post, w, addr);
            assert(post.outstanding() == pre.outstanding() - pre.spec_gross(addr));
        } else {
            let w = Self::refund_weight();
            assert forall|o: MarketResult| true implies {
                &&& sum_unclaimed(#[trigger] post.spec_pool(o), c_post, w) == sum_unclaimed(
                    pre.spec_pool(o),
                    c_pre,
                    w,
                ) - stake_in(pre.spec_pool(o), addr)
            } by {
                let s = pre.spec_pool(o);
                lemma_sum_unclaimed_mark(s, c_pre, c_post, w, addr);
                if has_account(s, addr) {
                    lemma_entry_for_props(s, addr);
                } else {
                    lemma_absent_zero(s, addr);
                }
            }
            assert(post.outstanding() == pre.outstanding() - pre.spec_gross(addr));
        }
    }

    /// Dispatch one mutating call.
    pub fn execute(
        &mut self,
        now: u64,
        sender: &String,
        funds: &Vec<Coin>,
        msg: ExecuteMsg,
    ) -> (r: Result<ExecResponse, ContractError>)
        requires
            old(self).wf(),
        ensures
            match msg {
                ExecuteMsg::PlaceBet { minimum_odds, result, receiver } => match r {
                    Ok(ExecResponse::BetPlaced { amount }) => Self::place_bet_post(
                        *old(self),
                        *final(self),
                        Ok(amount),
                        now,
                        funds@,
                        result,
                        minimum_odds,
                        spec_beneficiary(sender@, receiver),
                    ),
                    Ok(_) => false,
                    Err(e) => Self::place_bet_post(
                        *old(self),
                        *final(self),
                        Err(e),
                        now,
                        funds@,
                        result,
                        minimum_odds,
                        spec_beneficiary(sender@, receiver),
                    ),
                },
                ExecuteMsg::ClaimWinnings { receiver } => match r {
                    Ok(ExecResponse::WinningsClaimed { payout }) => Self::claim_post(
                        *old(self),
                        *final(self),
                        Ok(payout),
                        spec_beneficiary(sender@, receiver),
                    ),
                    Ok(_) => false,
                    Err(e) => Self::claim_post(
                        *old(self),
                        *final(self),
                        Err(e),
                        spec_beneficiary(sender@, receiver),
                    ),
                },
                ExecuteMsg::Update { start_timestamp } => match r {
                    Ok(ExecResponse::MarketUpdated) => Self::update_post(
                        *old(self),
                        *final(self),
                        Ok(()),
                        sender@,
                        start_timestamp,
                    ),
                    Ok(_) => false,
                    Err(e) => Self::update_post(
                        *old(self),
                        *final(self),
                        Err(e),
                        sender@,
                        start_timestamp,
                    ),
                },
                ExecuteMsg::UpdateOdds { home_odds, away_odds } => match r {
                    Ok(ExecResponse::OddsUpdated) => Self::update_odds_post(
                        *old(self),
                        *final(self),
                        Ok(()),
                        sender@,
                        home_odds,
                        away_odds,
                    ),
                    Ok(_) => false,
                    Err(e) => Self::update_odds_post(
                        *old(self),
                        *final(self),
                        Err(e),
                        sender@,
                        home_odds,
                        away_odds,
                    ),
                },
                ExecuteMsg::Score { result } => match r {
                    Ok(ExecResponse::MarketScored) => Self::score_post(
                        *old(self),
                        *final(self),
                        Ok(()),
                        sender@,
                        result,
                    ),
                    Ok(_) => false,
                    Err(e) => Self::score_post(
                        *old(self),
                        *final(self),
                        Err(e),
                        sender@,
                        result,
                    ),
                },
                ExecuteMsg::Cancel => match r {
                    Ok(ExecResponse::MarketCancelled) => Self::cancel_post(
                        *old(self),
                        *final(self),
                        Ok(()),
                        sender@,
                    ),
                    Ok(_) => false,
                    Err(e) => Self::cancel_post(*old(self), *final(self), Err(e), sender@),
                },
            },
    {
        match msg {
            ExecuteMsg::PlaceBet { minimum_odds, result, receiver } => {
                match self.execute_place_bet(
                    now,
                    sender,
                    funds,
                    minimum_odds,
                    result,
                    receiver,
                ) {
                    Ok(amount) => Ok(ExecResponse::BetPlaced { amount }),
                    Err(e) => Err(e),
                }
            },
            ExecuteMsg::ClaimWinnings { receiver } => {
                match self.execute_claim_winnings(sender, receiver) {
                    Ok(payout) => Ok(ExecResponse::WinningsClaimed { payout }),
                    Err(e) => Err(e),
                }
            },
            ExecuteMsg::Update { start_timestamp } => {
                match self.execute_update(sender, start_timestamp) {
                    Ok(()) => Ok(ExecResponse::MarketUpdated),
                    Err(e) => Err(e),
                }
            },
            ExecuteMsg::UpdateOdds { home_odds, away_odds } => {
                match self.execute_update_odds(sender, home_odds, away_odds) {
                    Ok(()) => Ok(ExecResponse::OddsUpdated),
                    Err(e) => Err(e),
                }
            },
            ExecuteMsg::Score { result } => {
                match self.execute_score(sender, result) {
                    Ok(()) => Ok(ExecResponse::MarketScored),
                    Err(e) => Err(e),
                }
            },
            ExecuteMsg::Cancel => {
                match self.execute_cancel(sender) {
                    Ok(()) => Ok(ExecResponse::MarketCancelled),
                    Err(e) => Err(e),
                }
            },
        }
    }

    /// Dispatch one read-only call.
    pub fn query(&self, msg: QueryMsg) -> (r: QueryResponse)
        requires
            self.wf(),
        ensures
            match msg {
                QueryMsg::Config => r == QueryResponse::Config(self.spec_config()),
                QueryMsg::Market => r == QueryResponse::Market(self.spec_market()),
                QueryMsg::Odds => r == QueryResponse::Odds(MarketOdds {
                    home_odds: self.spec_odds(MarketResult::HOME),
                    away_odds: self.spec_odds(MarketResult::AWAY),
                }),
                QueryMsg::MaxBet { result } => match r {
                    QueryResponse::MaxBet(max) => {
                        &&& result is DRAW ==> max == 0
                        &&& !(result is DRAW) ==> self.spec_bet_acceptable(result, max)
                        &&& !(result is DRAW) ==> forall|s: u128|
                            s > max ==> !(#[trigger] self.spec_bet_acceptable(result, s))
                    },
                    _ => false,
                },
                QueryMsg::BetsByAddress { address } => r == QueryResponse::BetsByAddress(
                    AccountBets {
                        home_stake: self.spec_stake(MarketResult::HOME, address@),
                        home_payout: self.spec_payout_of(MarketResult::HOME, address@),
                        away_stake: self.spec_stake(MarketResult::AWAY, address@),
                        away_payout: self.spec_payout_of(MarketResult::AWAY, address@),
                    },
                ),
                QueryMsg::EstimateWinnings { address, result } => r
                    == QueryResponse::EstimateWinnings(self.spec_payout_of(result, address@)),
            },
    {
        match msg {
            QueryMsg::Config => QueryResponse::Config(self.query_config()),
            QueryMsg::Market => QueryResponse::Market(self.query_market()),
            QueryMsg::Odds => QueryResponse::Odds(self.query_odds()),
            QueryMsg::MaxBet { result } => QueryResponse::MaxBet(
                self.query_max_bet(result),
            ),
            QueryMsg::BetsByAddress { address } => QueryResponse::BetsByAddress(
                self.query_bets_by_address(&address),
            ),
            QueryMsg::EstimateWinnings { address, result } => {
                QueryResponse::EstimateWinnings(
                    self.query_estimate_winnings(&address, result),
                )
            },
        }
    }

    /// Admin: cancel the market.  Every stake becomes refundable in full.
    pub fn execute_cancel(&mut self, sender: &String) -> (r: Result<(), ContractError>)
        requires
            old(self).wf(),
        ensures
            Self::cancel_post(*old(self), *final(self), r, sender@),
    {
        if !(*sender == self.config.admin_addr) {
            return Err(ContractError::Unauthorized);
        }
        if self.market.status != Status::ACTIVE {
            return Err(ContractError::MarketNotActive);
        }
        self.market.status = Status::CANCELLED;
        proof {
            let c = self.claimed_of();
            let w = Self::refund_weight();
            assert forall|o: MarketResult| true implies {
                &&& sum_unclaimed(#[trigger] self.spec_pool(o), c, w) == sum_stakes(
                    self.spec_pool(o),
                )
            } by {
                let s = self.spec_pool(o);
                assert forall|i: int| 0 <= i < s.len() implies !c(
                    (#[trigger] s[i]).account@,
                ) by {
                    assert(self.claims.rows().len() == 0);
                }
                lemma_sum_unclaimed_full(s, c, w);
                assert forall|i: int| 0 <= i < s.len() implies w(#[trigger] s[i])
                    == s[i].stake by {}
                lemma_sum_weights_stakes(s, w);
            }
        }
        Ok(())
    }
}

/// Solvency, at every reachable state: the locked payout owed on either
/// outcome never exceeds what bet placement has collected, so every
/// accepted bet is payable purely from funds already held, without
/// relying on future bets.
pub proof fn lemma_solvency(m: &FixedOddsMarket)
    requires
        m.wf(),
    ensures
        forall|o: MarketResult|
            #[trigger] m.spec_payout_total(o) <= m.collected(),
        m.collected() <= u128::MAX as int,
{
}

/// Conservation, at every reachable state: what has been paid out, plus
/// every fee withheld, plus everything still owed to unclaimed accounts,
/// never exceeds what bet placement collected.  On a scored market the
/// three add up to exactly the payouts locked in on the winning side; on
/// a cancelled market they add up to exactly what was collected, fee-free.
pub proof fn lemma_conservation(m: &FixedOddsMarket)
    requires
        m.wf(),
    ensures
        0 <= m.outstanding(),
        m.paid_total() + m.fees_total() + m.outstanding() <= m.collected(),
        m.spec_status() is CLOSED ==> (match m.spec_result() {
            Some(rr) => m.paid_total() + m.fees_total() + m.outstanding()
                == m.spec_payout_total(rr) && m.spec_payout_total(rr) <= m.collected(),
            None => false,
        }),
        m.spec_status() is CANCELLED ==> m.paid_total() + m.outstanding() == m.collected()
            && m.fees_total() == 0,
        m.spec_status() is ACTIVE ==> m.paid_total() == 0 && m.fees_total() == 0
            && m.outstanding() == 0,
{
    let c = m.claimed_of();
    match m.spec_status() {
        Status::ACTIVE => {},
        Status::CLOSED => {
            let rr = m.spec_result()->Some_0;
            let s = m.spec_pool(rr);
            let w = FixedOddsMarket::payout_weight();
            assert forall|i: int| 0 <= i < s.len() implies w(#[trigger] s[i]) >= 0 by {}
            lemma_sum_unclaimed_bounds(s, c, w);
        },
        Status::CANCELLED => {
            assert forall|o: MarketResult| true implies {
                &&& 0 <= sum_unclaimed(
                    #[trigger] m.spec_pool(o),
                    c,
                    FixedOddsMarket::refund_weight(),
                )
            } by {
                let s = m.spec_pool(o);
                let w = FixedOddsMarket::refund_weight();
                assert forall|i: int| 0 <= i < s.len() implies w(#[trigger] s[i]) >= 0 by {}
                lemma_sum_unclaimed_bounds(s, c, w);
            }
        },
    }
}

/// A claim pays at most once: after a successful claim, a second claim
/// for the same account fails as already-claimed and leaves the whole
/// state untouched.
pub proof fn lemma_claim_idempotent(
    s0: FixedOddsMarket,
    s1: FixedOddsMarket,
    s2: FixedOddsMarket,
    r1: Result<u128, ContractError>,
    r2: Result<u128, ContractError>,
    addr: Seq<char>,
)
    requires
        FixedOddsMarket::claim_post(s0, s1, r1, addr),
        r1 is Ok,
        FixedOddsMarket::claim_post(s1, s2, r2, addr),
    ensures
        r2 == Err::<u128, ContractError>(ContractError::ClaimAlreadyMade),
        s2 == s1,
{
}

/// Exhaustive claiming settles the books: once every account that is owed
/// anything has claimed — the winning pool's holders after scoring (a
/// loser is owed nothing and is never marked), every pool's holders after
/// cancellation — nothing is outstanding; the refunds return exactly what
/// was collected, and the payouts plus the fees add up to exactly the
/// payouts locked in on the winning side.
pub proof fn lemma_exhaustive_claims(m: &FixedOddsMarket)
    requires
        m.wf(),
        !(m.spec_status() is ACTIVE),
        m.spec_status() is CLOSED ==> (match m.spec_result() {
            Some(rr) => forall|a: Seq<char>|
                #[trigger] has_account(m.spec_pool(rr), a) ==> m.spec_claimed(a),
            None => true,
        }),
        m.spec_status() is CANCELLED ==> forall|o: MarketResult, a: Seq<char>|
            #[trigger] has_account(m.spec_pool(o), a) ==> m.spec_claimed(a),
    ensures
        m.outstanding() == 0,
        m.paid_total() + m.fees_total() <= m.collected(),
        m.spec_status() is CANCELLED ==> m.paid_total() == m.collected() && m.fees_total()
            == 0,
        m.spec_status() is CLOSED ==> (match m.spec_result() {
            Some(rr) => m.paid_total() + m.fees_total() == m.spec_payout_total(rr),
            None => false,
        }),
{
    let c = m.claimed_of();
    match m.spec_status() {
        Status::ACTIVE => {},
        Status::CLOSED => {
            let rr = m.spec_result()->Some_0;
            let s = m.spec_pool(rr);
            assert forall|i: int| 0 <= i < s.len() implies c((#[trigger] s[i]).account@) by {
                lemma_row_has_account(s, i);
            }
            lemma_sum_unclaimed_empty(s, c, FixedOddsMarket::payout_weight());
        },
        Status::CANCELLED => {
            assert forall|o: MarketResult| true implies {
                &&& sum_unclaimed(
                    #[trigger] m.spec_pool(o),
                    c,
                    FixedOddsMarket::refund_weight(),
                ) == 0
            } by {
                let s = m.spec_pool(o);
                assert forall|i: int| 0 <= i < s.len() implies c(
                    (#[trigger] s[i]).account@,
                ) by {
                    lemma_row_has_account(s, i);
                }
                lemma_sum_unclaimed_empty(s, c, FixedOddsMarket::refund_weight());
            }
        },
    }
}

/// A zero stake is always acceptable on a well-formed market.
proof fn lemma_zero_stake_acceptable(m: FixedOddsMarket, o: MarketResult)
    requires
        m.wf(),
    ensures
        m.spec_bet_acceptable(o, 0),
{
    vstd::arithmetic::div_mod::lemma_div_of0(ODDS_SCALE as int);
    assert(mul_ratio(0, m.spec_odds(o), ODDS_SCALE) == 0);
}

/// Splitting the payout: `floor(s * odds / scale)` is the stake plus the
/// floored liability `floor(s * (odds - scale) / scale)`.
proof fn lemma_mul_ratio_split(s: u128, o: u128)
    requires
        o >= ODDS_SCALE,
    ensures
        mul_ratio(s, o, ODDS_SCALE) == s as int + (s as int * (o as int - ODDS_SCALE as int))
            / (ODDS_SCALE as int),
{
    let si = s as int;
    let sc = ODDS_SCALE as int;
    let d = o as int - sc;
    lemma_mul_is_distributive_add(si, d, sc);
    lemma_hoist_over_denominator(si * d, si, sc as nat);
}

/// Any stake at most `floor((a + 1) * sc / d) - 1` keeps the floored
/// liability `floor(stake * d / sc)` within the room `a`.
proof fn lemma_liability_below_quotient(a: int, sc: int, d: int, x: int)
    requires
        0 <= a,
        0 < sc,
        0 < d,
        0 <= x,
        x <= ((a + 1) * sc) / d - 1,
    ensures
        (x * d) / sc <= a,
{
    let qq = ((a + 1) * sc) / d;
    lemma_fundamental_div_mod((a + 1) * sc, d);
    lemma_mod_division_less_than_divisor((a + 1) * sc, d);
    lemma_mul_inequality(x, qq - 1, d);
    lemma_mul_is_distributive_sub(d, qq, 1);
    lemma_mul_is_distributive_add(sc, a, 1);
    lemma_div_is_ordered(x * d, a * sc + sc - 1, sc);
    lemma_div_multiples_vanish_fancy(a, sc - 1, sc);
}

/// Any stake beyond `floor((a + 1) * sc / d)` pushes the floored
/// liability `floor(stake * d / sc)` past the room `a`.
proof fn lemma_liability_beyond_quotient(a: int, sc: int, d: int, s: int)
    requires
        0 <= a,
        1 < sc,
        0 < d,
        s >= ((a + 1) * sc) / d + 1,
    ensures
        (s * d) / sc >= a + 1,
{
    let qq = ((a + 1) * sc) / d;
    lemma_fundamental_div_mod((a + 1) * sc, d);
    lemma_mod_division_less_than_divisor((a + 1) * sc, d);
    lemma_mul_inequality(qq + 1, s, d);
    lemma_mul_is_distributive_add(d, qq, 1);
    lemma_mul_is_distributive_add(sc, a, 1);
    lemma_div_is_ordered((a + 1) * sc + 1, s * d, sc);
    lemma_div_multiples_vanish_fancy(a + 1, 1, sc);
}

} // verus!
