use vendetta_markets::error::ContractError;
use vendetta_markets::fixed_odds::{FixedOddsMarket, InstantiateMsg};
use vendetta_markets::state::{Coin, MarketResult, Status};

const ADMIN: &str = "admin";
const TREASURY: &str = "treasury";
const DENOM: &str = "untrn";
const START: u64 = 1_000_000;
const SCALE: u128 = 10_000;

fn msg(fee_bps: u64, home_odds: u128, away_odds: u128) -> InstantiateMsg {
    InstantiateMsg {
        fee_bps,
        denom: DENOM.to_string(),
        id: "game-cs2-test-league".to_string(),
        label: "CLOUD9 @ NAVI".to_string(),
        home_team: "CLOUD9".to_string(),
        home_odds,
        away_team: "NAVI".to_string(),
        away_odds,
        start_timestamp: START,
    }
}

fn setup(fee_bps: u64, home_odds: u128, away_odds: u128) -> FixedOddsMarket {
    FixedOddsMarket::instantiate(
        &ADMIN.to_string(),
        ADMIN.to_string(),
        TREASURY.to_string(),
        msg(fee_bps, home_odds, away_odds),
    )
    .unwrap()
}

fn coins(amount: u128, denom: &str) -> Vec<Coin> {
    vec![Coin { denom: denom.to_string(), amount }]
}

fn bet(
    m: &mut FixedOddsMarket,
    who: &str,
    amount: u128,
    outcome: MarketResult,
) -> Result<u128, ContractError> {
    m.execute_place_bet(0, &who.to_string(), &coins(amount, DENOM), 0, outcome, None)
}

/// Fund the away side at even odds so the home book has cover.
fn seed_away(m: &mut FixedOddsMarket, amount: u128) {
    assert_eq!(bet(m, "funder", amount, MarketResult::AWAY), Ok(amount));
}

#[test]
fn instantiate_stores_quotes() {
    let m = setup(250, 25_000, 12_000);
    let odds = m.query_odds();
    assert_eq!(odds.home_odds, 25_000);
    assert_eq!(odds.away_odds, 12_000);
    let market = m.query_market();
    assert_eq!(market.status, Status::ACTIVE);
    assert!(!market.is_drawable);
}

#[test]
fn fixed_odds_instantiate_rejects_non_admin() {
    let r = FixedOddsMarket::instantiate(
        &"mallory".to_string(),
        ADMIN.to_string(),
        TREASURY.to_string(),
        msg(250, 25_000, 12_000),
    );
    assert_eq!(r.err(), Some(ContractError::Unauthorized));
}

#[test]
fn update_odds_moves_quotes_for_future_bets_only() {
    let mut m = setup(0, SCALE, SCALE);
    seed_away(&mut m, 1_000);
    assert_eq!(
        m.execute_update_odds(&"mallory".to_string(), 25_000, 11_000),
        Err(ContractError::Unauthorized)
    );
    assert_eq!(m.execute_update_odds(&ADMIN.to_string(), 25_000, 11_000), Ok(()));
    assert_eq!(m.query_odds().home_odds, 25_000);
    // A position locked at the old quote keeps it: the funder's payout
    // was locked at even odds.
    let funder = m.query_bets_by_address(&"funder".to_string());
    assert_eq!(funder.away_stake, 1_000);
    assert_eq!(funder.away_payout, 1_000);
}

#[test]
fn fixed_odds_payout_locks_quote_at_bet_time() {
    // A 100 stake at locked odds 2.5 (25000 at scale 10000) grosses
    // floor(100 * 25000 / 10000) = 250, whatever is bet afterwards.
    let mut m = setup(0, SCALE, SCALE);
    seed_away(&mut m, 1_000);
    m.execute_update_odds(&ADMIN.to_string(), 25_000, SCALE).unwrap();
    assert_eq!(bet(&mut m, "alice", 100, MarketResult::HOME), Ok(100));
    assert_eq!(
        m.query_estimate_winnings(&"alice".to_string(), MarketResult::HOME),
        250
    );
    // Later odds moves do not touch the locked payout.
    m.execute_update_odds(&ADMIN.to_string(), 30_000, SCALE).unwrap();
    m.execute_score(&ADMIN.to_string(), MarketResult::HOME).unwrap();
    assert_eq!(m.execute_claim_winnings(&"alice".to_string(), None), Ok(250));
}

#[test]
fn locked_payouts_accumulate_across_odds_changes() {
    let mut m = setup(0, SCALE, SCALE);
    seed_away(&mut m, 10_000);
    m.execute_update_odds(&ADMIN.to_string(), 25_000, SCALE).unwrap();
    bet(&mut m, "alice", 100, MarketResult::HOME).unwrap();
    m.execute_update_odds(&ADMIN.to_string(), 30_000, SCALE).unwrap();
    bet(&mut m, "alice", 100, MarketResult::HOME).unwrap();
    let alice = m.query_bets_by_address(&"alice".to_string());
    assert_eq!(alice.home_stake, 200);
    assert_eq!(alice.home_payout, 250 + 300);
    m.execute_score(&ADMIN.to_string(), MarketResult::HOME).unwrap();
    assert_eq!(m.execute_claim_winnings(&"alice".to_string(), None), Ok(550));
}

#[test]
fn fixed_odds_fee_comes_out_of_the_claim() {
    let mut m = setup(500, SCALE, SCALE);
    seed_away(&mut m, 1_000);
    m.execute_update_odds(&ADMIN.to_string(), 25_000, SCALE).unwrap();
    bet(&mut m, "alice", 100, MarketResult::HOME).unwrap();
    m.execute_score(&ADMIN.to_string(), MarketResult::HOME).unwrap();
    // gross 250, fee floor(250 * 500 / 10000) = 12, net 238.
    assert_eq!(m.execute_claim_winnings(&"alice".to_string(), None), Ok(238));
}

#[test]
fn insolvent_bet_rejected_before_any_mutation() {
    // An empty market holds no funds to cover any liability: a bet at
    // odds 2.5 would add liability 150 against cover 0.
    let mut m = setup(0, 25_000, 25_000);
    assert_eq!(
        bet(&mut m, "alice", 100, MarketResult::HOME),
        Err(ContractError::MaxBetExceeded)
    );
    let alice = m.query_bets_by_address(&"alice".to_string());
    assert_eq!(alice.home_stake, 0);
    assert_eq!(alice.home_payout, 0);
}

#[test]
fn bet_beyond_opposing_cover_rejected() {
    // 1000 collected on the away side covers a home liability of at most
    // 1000: at odds 2.5 a 667 stake still fits, 668 does not.
    let mut m = setup(0, SCALE, SCALE);
    seed_away(&mut m, 1_000);
    m.execute_update_odds(&ADMIN.to_string(), 25_000, SCALE).unwrap();
    assert_eq!(
        bet(&mut m, "bob", 668, MarketResult::HOME),
        Err(ContractError::MaxBetExceeded)
    );
    assert_eq!(bet(&mut m, "bob", 667, MarketResult::HOME), Ok(667));
}

#[test]
fn marginal_liability_bounded_by_opposing_stake() {
    // Earlier sub-1.0-odds positions leave the aggregate book plenty of
    // headroom, but a new bet's own worst-case liability must still be
    // covered by what the opposing side has staked.
    let mut m = setup(0, 5_000, SCALE);
    // 1000 on HOME at odds 0.5 locks a payout of only 500.
    assert_eq!(bet(&mut m, "alice", 1_000, MarketResult::HOME), Ok(1_000));
    assert_eq!(bet(&mut m, "bob", 100, MarketResult::AWAY), Ok(100));
    m.execute_update_odds(&ADMIN.to_string(), 20_000, SCALE).unwrap();
    // At odds 2.0 a 200 bet carries liability 200, but only 100 is staked
    // on the away side: refused, nothing recorded.
    assert_eq!(
        bet(&mut m, "carol", 200, MarketResult::HOME),
        Err(ContractError::MaxBetExceeded)
    );
    let carol = m.query_bets_by_address(&"carol".to_string());
    assert_eq!((carol.home_stake, carol.home_payout), (0, 0));
    // The exact boundary: liability up to the opposing 100 is acceptable.
    assert_eq!(m.query_max_bet(MarketResult::HOME), 100);
    assert_eq!(bet(&mut m, "carol", 100, MarketResult::HOME), Ok(100));
}

#[test]
fn max_bet_is_the_exact_acceptance_boundary() {
    let mut m = setup(0, SCALE, SCALE);
    seed_away(&mut m, 1_000);
    m.execute_update_odds(&ADMIN.to_string(), 25_000, SCALE).unwrap();
    // Room 1000, liability rate 1.5: floor(667 * 15000 / 10000) = 1000.
    let max = m.query_max_bet(MarketResult::HOME);
    assert_eq!(max, 667);
    assert_eq!(m.query_max_bet(MarketResult::DRAW), 0);
    assert_eq!(bet(&mut m, "bob", max, MarketResult::HOME), Ok(667));
}

#[test]
fn minimum_odds_guard_protects_against_slippage() {
    let mut m = setup(0, SCALE, SCALE);
    seed_away(&mut m, 1_000);
    m.execute_update_odds(&ADMIN.to_string(), 20_000, SCALE).unwrap();
    let r = m.execute_place_bet(
        0,
        &"alice".to_string(),
        &coins(100, DENOM),
        25_000, // the quote has slipped below what alice will accept
        MarketResult::HOME,
        None,
    );
    assert_eq!(r, Err(ContractError::MinimumOddsNotFulfilled));
    let r = m.execute_place_bet(
        0,
        &"alice".to_string(),
        &coins(100, DENOM),
        20_000,
        MarketResult::HOME,
        None,
    );
    assert_eq!(r, Ok(100));
}

#[test]
fn fixed_odds_market_never_accepts_draw() {
    let mut m = setup(0, SCALE, SCALE);
    seed_away(&mut m, 1_000);
    assert_eq!(
        bet(&mut m, "alice", 100, MarketResult::DRAW),
        Err(ContractError::MarketNotDrawable)
    );
    bet(&mut m, "alice", 100, MarketResult::HOME).unwrap();
    assert_eq!(
        m.execute_score(&ADMIN.to_string(), MarketResult::DRAW),
        Err(ContractError::MarketNotScoreable)
    );
}

#[test]
fn fixed_odds_bet_window_closes_before_start() {
    let mut m = setup(0, SCALE, SCALE);
    let r = m.execute_place_bet(
        START - 300,
        &"alice".to_string(),
        &coins(100, DENOM),
        0,
        MarketResult::AWAY,
        None,
    );
    assert_eq!(r, Err(ContractError::BetsNotAccepted));
    let r = m.execute_place_bet(
        START - 301,
        &"alice".to_string(),
        &coins(100, DENOM),
        0,
        MarketResult::AWAY,
        None,
    );
    assert_eq!(r, Ok(100));
}

#[test]
fn fixed_odds_score_needs_both_sides() {
    let mut m = setup(0, SCALE, SCALE);
    seed_away(&mut m, 1_000);
    assert_eq!(
        m.execute_score(&ADMIN.to_string(), MarketResult::AWAY),
        Err(ContractError::NoWinnings)
    );
    bet(&mut m, "alice", 100, MarketResult::HOME).unwrap();
    assert_eq!(m.execute_score(&ADMIN.to_string(), MarketResult::AWAY), Ok(()));
}

#[test]
fn fixed_odds_cancellation_refunds_both_sides() {
    let mut m = setup(500, SCALE, SCALE);
    seed_away(&mut m, 1_000);
    m.execute_update_odds(&ADMIN.to_string(), 25_000, 11_000).unwrap();
    bet(&mut m, "alice", 40, MarketResult::HOME).unwrap();
    bet(&mut m, "alice", 10, MarketResult::AWAY).unwrap();
    m.execute_cancel(&ADMIN.to_string()).unwrap();
    // The refund is the stakes, not the locked payouts, and fee-free.
    assert_eq!(m.execute_claim_winnings(&"alice".to_string(), None), Ok(50));
    assert_eq!(m.execute_claim_winnings(&"funder".to_string(), None), Ok(1_000));
    assert_eq!(
        m.execute_claim_winnings(&"alice".to_string(), None),
        Err(ContractError::ClaimAlreadyMade)
    );
}

#[test]
fn fixed_odds_second_claim_rejected() {
    let mut m = setup(0, SCALE, SCALE);
    seed_away(&mut m, 1_000);
    bet(&mut m, "alice", 100, MarketResult::HOME).unwrap();
    m.execute_score(&ADMIN.to_string(), MarketResult::HOME).unwrap();
    assert_eq!(m.execute_claim_winnings(&"alice".to_string(), None), Ok(100));
    let before = m.query_bets_by_address(&"alice".to_string());
    assert_eq!(
        m.execute_claim_winnings(&"alice".to_string(), None),
        Err(ContractError::ClaimAlreadyMade)
    );
    assert_eq!(m.query_bets_by_address(&"alice".to_string()), before);
}

#[test]
fn fixed_odds_losers_have_no_winnings() {
    let mut m = setup(0, SCALE, SCALE);
    seed_away(&mut m, 1_000);
    bet(&mut m, "alice", 100, MarketResult::HOME).unwrap();
    m.execute_score(&ADMIN.to_string(), MarketResult::HOME).unwrap();
    assert_eq!(
        m.execute_claim_winnings(&"funder".to_string(), None),
        Err(ContractError::NoWinnings)
    );
}

#[test]
fn fixed_odds_error_messages() {
    assert_eq!(
        ContractError::MinimumOddsNotFulfilled.message(),
        "Minimum odds not fulfilled"
    );
    assert_eq!(ContractError::MarketNotScoreable.message(), "Market not scoreable");
    assert_eq!(ContractError::MaxBetExceeded.message(), "Max bet exceeded");
    assert_eq!(ContractError::MarketNotDrawable.message(), "Market not drawable");
}
