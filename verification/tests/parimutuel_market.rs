use vendetta_markets::error::ContractError;
use vendetta_markets::parimutuel::{
    ExecResponse, ExecuteMsg, InstantiateMsg, ParimutuelMarket, QueryMsg, QueryResponse,
};
use vendetta_markets::state::{Coin, MarketResult, Status};

const ADMIN: &str = "admin";
const TREASURY: &str = "treasury";
const DENOM: &str = "untrn";
const START: u64 = 1_000_000;

fn msg(fee_bps: u64, is_drawable: bool) -> InstantiateMsg {
    InstantiateMsg {
        fee_bps,
        denom: DENOM.to_string(),
        id: "game-cs2-test-league".to_string(),
        label: "CLOUD9 @ NAVI".to_string(),
        home_team: "CLOUD9".to_string(),
        away_team: "NAVI".to_string(),
        start_timestamp: START,
        is_drawable,
    }
}

fn setup(fee_bps: u64, is_drawable: bool) -> ParimutuelMarket {
    ParimutuelMarket::instantiate(
        &ADMIN.to_string(),
        ADMIN.to_string(),
        TREASURY.to_string(),
        msg(fee_bps, is_drawable),
    )
    .unwrap()
}

fn coins(amount: u128, denom: &str) -> Vec<Coin> {
    vec![Coin { denom: denom.to_string(), amount }]
}

fn bet(
    m: &mut ParimutuelMarket,
    who: &str,
    amount: u128,
    outcome: MarketResult,
) -> Result<u128, ContractError> {
    m.execute_place_bet(0, &who.to_string(), &coins(amount, DENOM), outcome, None)
}

#[test]
fn instantiate_creates_active_market() {
    let m = setup(250, true);
    let market = m.query_market();
    assert_eq!(market.status, Status::ACTIVE);
    assert_eq!(market.result, None);
    assert_eq!(market.start_timestamp, START);
    assert!(market.is_drawable);
    let config = m.query_config();
    assert_eq!(config.admin_addr, ADMIN);
    assert_eq!(config.treasury_addr, TREASURY);
    assert_eq!(config.fee_bps, 250);
    assert_eq!(config.denom, DENOM);
    let bets = m.query_bets();
    assert_eq!(
        (bets.total_home, bets.total_away, bets.total_draw),
        (0, 0, 0)
    );
}

#[test]
fn instantiate_rejects_non_admin_sender() {
    let r = ParimutuelMarket::instantiate(
        &"mallory".to_string(),
        ADMIN.to_string(),
        TREASURY.to_string(),
        msg(250, false),
    );
    assert_eq!(r.err(), Some(ContractError::Unauthorized));
}

#[test]
fn place_bet_accumulates_stakes_and_totals() {
    let mut m = setup(250, false);
    assert_eq!(bet(&mut m, "alice", 100, MarketResult::HOME), Ok(100));
    assert_eq!(bet(&mut m, "alice", 50, MarketResult::HOME), Ok(50));
    assert_eq!(bet(&mut m, "bob", 200, MarketResult::AWAY), Ok(200));
    let bets = m.query_bets();
    assert_eq!(bets.total_home, 150);
    assert_eq!(bets.total_away, 200);
    assert_eq!(bets.total_draw, 0);
    let alice = m.query_bets_by_address(&"alice".to_string());
    assert_eq!((alice.total_home, alice.total_away), (150, 0));
    let carol = m.query_bets_by_address(&"carol".to_string());
    assert_eq!((carol.total_home, carol.total_away, carol.total_draw), (0, 0, 0));
}

#[test]
fn place_bet_credits_named_receiver() {
    let mut m = setup(0, false);
    let r = m.execute_place_bet(
        0,
        &"alice".to_string(),
        &coins(70, DENOM),
        MarketResult::HOME,
        Some("carol".to_string()),
    );
    assert_eq!(r, Ok(70));
    assert_eq!(m.query_bets_by_address(&"carol".to_string()).total_home, 70);
    assert_eq!(m.query_bets_by_address(&"alice".to_string()).total_home, 0);
}

#[test]
fn draw_bet_rejected_when_market_not_drawable() {
    let mut m = setup(250, false);
    assert_eq!(
        bet(&mut m, "alice", 100, MarketResult::DRAW),
        Err(ContractError::MarketNotDrawable)
    );
    assert_eq!(m.query_bets().total_draw, 0);
}

#[test]
fn draw_bet_accepted_when_market_drawable() {
    let mut m = setup(250, true);
    assert_eq!(bet(&mut m, "alice", 100, MarketResult::DRAW), Ok(100));
    assert_eq!(m.query_bets().total_draw, 100);
}

#[test]
fn bet_at_or_after_cutoff_rejected() {
    // The window closes 5 minutes before the start: a bet exactly at
    // start - 300 is already refused, one second earlier is accepted.
    let mut m = setup(250, false);
    let r = m.execute_place_bet(
        START - 300,
        &"alice".to_string(),
        &coins(100, DENOM),
        MarketResult::HOME,
        None,
    );
    assert_eq!(r, Err(ContractError::BetsNotAccepted));
    let r = m.execute_place_bet(
        START - 100,
        &"alice".to_string(),
        &coins(100, DENOM),
        MarketResult::HOME,
        None,
    );
    assert_eq!(r, Err(ContractError::BetsNotAccepted));
    let r = m.execute_place_bet(
        START - 301,
        &"alice".to_string(),
        &coins(100, DENOM),
        MarketResult::HOME,
        None,
    );
    assert_eq!(r, Ok(100));
}

#[test]
fn bet_payment_must_be_single_nonzero_coin_of_denom() {
    let mut m = setup(250, false);
    let sender = "alice".to_string();
    let wrong_denom = m.execute_place_bet(0, &sender, &coins(100, "uatom"), MarketResult::HOME, None);
    assert_eq!(wrong_denom, Err(ContractError::PaymentError));
    let zero = m.execute_place_bet(0, &sender, &coins(0, DENOM), MarketResult::HOME, None);
    assert_eq!(zero, Err(ContractError::PaymentError));
    let none = m.execute_place_bet(0, &sender, &vec![], MarketResult::HOME, None);
    assert_eq!(none, Err(ContractError::PaymentError));
    let mut two = coins(100, DENOM);
    two.push(Coin { denom: "uatom".to_string(), amount: 5 });
    let several = m.execute_place_bet(0, &sender, &two, MarketResult::HOME, None);
    assert_eq!(several, Err(ContractError::PaymentError));
    assert_eq!(m.query_bets().total_home, 0);
}

#[test]
fn update_reschedules_only_while_active() {
    let mut m = setup(250, false);
    assert_eq!(m.execute_update(&ADMIN.to_string(), START + 600), Ok(()));
    assert_eq!(m.query_market().start_timestamp, START + 600);
    assert_eq!(
        m.execute_update(&"mallory".to_string(), START),
        Err(ContractError::Unauthorized)
    );
    assert_eq!(m.execute_cancel(&ADMIN.to_string()), Ok(()));
    assert_eq!(
        m.execute_update(&ADMIN.to_string(), START),
        Err(ContractError::MarketNotActive)
    );
}

#[test]
fn score_requires_admin_and_both_sides() {
    let mut m = setup(250, false);
    bet(&mut m, "alice", 100, MarketResult::HOME).unwrap();
    assert_eq!(
        m.execute_score(&"mallory".to_string(), MarketResult::HOME),
        Err(ContractError::Unauthorized)
    );
    // Nobody staked on the away side: no counterparty to pay from.
    assert_eq!(
        m.execute_score(&ADMIN.to_string(), MarketResult::HOME),
        Err(ContractError::NoWinnings)
    );
    bet(&mut m, "bob", 100, MarketResult::AWAY).unwrap();
    assert_eq!(m.execute_score(&ADMIN.to_string(), MarketResult::HOME), Ok(()));
    let market = m.query_market();
    assert_eq!(market.status, Status::CLOSED);
    assert_eq!(market.result, Some(MarketResult::HOME));
}

#[test]
fn score_draw_rejected_when_not_drawable() {
    let mut m = setup(250, false);
    bet(&mut m, "alice", 100, MarketResult::HOME).unwrap();
    bet(&mut m, "bob", 100, MarketResult::AWAY).unwrap();
    assert_eq!(
        m.execute_score(&ADMIN.to_string(), MarketResult::DRAW),
        Err(ContractError::MarketNotDrawable)
    );
}

#[test]
fn status_is_monotonic_once_terminal() {
    let mut m = setup(250, false);
    bet(&mut m, "alice", 100, MarketResult::HOME).unwrap();
    bet(&mut m, "bob", 100, MarketResult::AWAY).unwrap();
    m.execute_score(&ADMIN.to_string(), MarketResult::HOME).unwrap();
    assert_eq!(
        m.execute_cancel(&ADMIN.to_string()),
        Err(ContractError::MarketNotActive)
    );
    assert_eq!(
        m.execute_score(&ADMIN.to_string(), MarketResult::AWAY),
        Err(ContractError::MarketNotActive)
    );
    assert_eq!(m.query_market().status, Status::CLOSED);

    let mut m2 = setup(250, false);
    m2.execute_cancel(&ADMIN.to_string()).unwrap();
    assert_eq!(
        m2.execute_score(&ADMIN.to_string(), MarketResult::HOME),
        Err(ContractError::MarketNotActive)
    );
    assert_eq!(
        m2.execute_cancel(&ADMIN.to_string()),
        Err(ContractError::MarketNotActive)
    );
    assert_eq!(m2.query_market().status, Status::CANCELLED);
}

#[test]
fn estimate_winnings_matches_pool_share() {
    let mut m = setup(500, false);
    bet(&mut m, "alice", 100, MarketResult::HOME).unwrap();
    bet(&mut m, "bob", 200, MarketResult::HOME).unwrap();
    bet(&mut m, "carol", 100, MarketResult::AWAY).unwrap();
    // Pool 400, home side 300: alice's share is floor(400 * 100 / 300).
    assert_eq!(
        m.query_estimate_winnings(&"alice".to_string(), MarketResult::HOME),
        133
    );
    assert_eq!(
        m.query_estimate_winnings(&"carol".to_string(), MarketResult::AWAY),
        400
    );
    assert_eq!(
        m.query_estimate_winnings(&"carol".to_string(), MarketResult::HOME),
        0
    );
}

#[test]
fn parimutuel_payout_rounds_down_and_deducts_fee() {
    // Pool totals home 300, away 100, fee 5%: a 100 stake on the scored
    // home side grosses floor(400*100/300) = 133, pays a fee of
    // floor(133*500/10000) = 6, and nets 127.
    let mut m = setup(500, false);
    bet(&mut m, "alice", 100, MarketResult::HOME).unwrap();
    bet(&mut m, "bob", 200, MarketResult::HOME).unwrap();
    bet(&mut m, "carol", 100, MarketResult::AWAY).unwrap();
    m.execute_score(&ADMIN.to_string(), MarketResult::HOME).unwrap();
    let alice = m.execute_claim_winnings(&"alice".to_string(), None);
    assert_eq!(alice, Ok(127));
    let bob = m.execute_claim_winnings(&"bob".to_string(), None);
    // bob: gross floor(400*200/300) = 266, fee 13, net 253.
    assert_eq!(bob, Ok(253));
    let carol = m.execute_claim_winnings(&"carol".to_string(), None);
    assert_eq!(carol, Err(ContractError::NoWinnings));
}

#[test]
fn conservation_across_exhaustive_claims() {
    // Everything paid plus every fee stays within what was collected,
    // with only the truncation remainder (less than one per winner) left.
    let mut m = setup(500, false);
    bet(&mut m, "alice", 100, MarketResult::HOME).unwrap();
    bet(&mut m, "bob", 200, MarketResult::HOME).unwrap();
    bet(&mut m, "carol", 100, MarketResult::AWAY).unwrap();
    m.execute_score(&ADMIN.to_string(), MarketResult::HOME).unwrap();
    let paid_alice = m.execute_claim_winnings(&"alice".to_string(), None).unwrap();
    let paid_bob = m.execute_claim_winnings(&"bob".to_string(), None).unwrap();
    // gross 133 + 266 = 399, fees 6 + 13 = 19, net 127 + 253 = 380.
    let collected: u128 = 400;
    let fees: u128 = 19;
    assert_eq!(paid_alice + paid_bob + fees, 399);
    let remainder = collected - (paid_alice + paid_bob + fees);
    assert_eq!(remainder, 1);
    assert!(remainder < 2); // fewer than one unit per winning account
}

#[test]
fn second_claim_fails_and_changes_nothing() {
    let mut m = setup(500, false);
    bet(&mut m, "alice", 100, MarketResult::HOME).unwrap();
    bet(&mut m, "bob", 100, MarketResult::AWAY).unwrap();
    m.execute_score(&ADMIN.to_string(), MarketResult::HOME).unwrap();
    let first = m.execute_claim_winnings(&"alice".to_string(), None);
    assert_eq!(first, Ok(190)); // gross 200, fee floor(200*500/10000) = 10
    let before = m.query_bets();
    let second = m.execute_claim_winnings(&"alice".to_string(), None);
    assert_eq!(second, Err(ContractError::ClaimAlreadyMade));
    let after = m.query_bets();
    assert_eq!(before, after);
    assert_eq!(
        m.query_bets_by_address(&"alice".to_string()).total_home,
        100
    );
}

#[test]
fn claim_requires_terminal_market() {
    let mut m = setup(500, false);
    bet(&mut m, "alice", 100, MarketResult::HOME).unwrap();
    assert_eq!(
        m.execute_claim_winnings(&"alice".to_string(), None),
        Err(ContractError::MarketNotClosed)
    );
}

#[test]
fn cancellation_refunds_all_stakes_fee_free() {
    // An account with stakes {home: 40, away: 10} on a cancelled market
    // claims exactly 50 in one call, with no fee even at a nonzero rate.
    let mut m = setup(500, true);
    bet(&mut m, "alice", 40, MarketResult::HOME).unwrap();
    bet(&mut m, "alice", 10, MarketResult::AWAY).unwrap();
    bet(&mut m, "bob", 25, MarketResult::DRAW).unwrap();
    m.execute_cancel(&ADMIN.to_string()).unwrap();
    assert_eq!(m.execute_claim_winnings(&"alice".to_string(), None), Ok(50));
    assert_eq!(m.execute_claim_winnings(&"bob".to_string(), None), Ok(25));
    assert_eq!(
        m.execute_claim_winnings(&"alice".to_string(), None),
        Err(ContractError::ClaimAlreadyMade)
    );
    assert_eq!(
        m.execute_claim_winnings(&"carol".to_string(), None),
        Err(ContractError::NoWinnings)
    );
}

#[test]
fn claim_pays_named_receiver_once() {
    let mut m = setup(0, false);
    bet(&mut m, "alice", 100, MarketResult::HOME).unwrap();
    bet(&mut m, "bob", 100, MarketResult::AWAY).unwrap();
    m.execute_score(&ADMIN.to_string(), MarketResult::HOME).unwrap();
    // The claim is made by bob but credited against carol's (empty) record:
    // carol holds no home stake, so nothing is owed to carol.
    let r = m.execute_claim_winnings(&"bob".to_string(), Some("carol".to_string()));
    assert_eq!(r, Err(ContractError::NoWinnings));
    // alice can direct her winnings; the guard marks alice's record.
    let r = m.execute_claim_winnings(&"alice".to_string(), None);
    assert_eq!(r, Ok(200));
}

#[test]
fn execute_and_query_dispatch_by_message() {
    let mut m = setup(0, false);
    let r = m.execute(
        0,
        &"alice".to_string(),
        &coins(100, DENOM),
        ExecuteMsg::PlaceBet { result: MarketResult::HOME, receiver: None },
    );
    assert!(matches!(r, Ok(ExecResponse::BetPlaced { amount: 100 })));
    let r = m.execute(
        0,
        &"bob".to_string(),
        &coins(300, DENOM),
        ExecuteMsg::PlaceBet { result: MarketResult::AWAY, receiver: None },
    );
    assert!(matches!(r, Ok(ExecResponse::BetPlaced { amount: 300 })));
    match m.query(QueryMsg::Bets) {
        QueryResponse::Bets(bets) => {
            assert_eq!((bets.total_home, bets.total_away), (100, 300));
        }
        other => panic!("unexpected answer: {:?}", other),
    }
    let r = m.execute(
        0,
        &ADMIN.to_string(),
        &vec![],
        ExecuteMsg::Score { result: MarketResult::HOME },
    );
    assert!(matches!(r, Ok(ExecResponse::MarketScored)));
    let r = m.execute(
        0,
        &"alice".to_string(),
        &vec![],
        ExecuteMsg::ClaimWinnings { receiver: None },
    );
    assert!(matches!(r, Ok(ExecResponse::WinningsClaimed { payout: 400 })));
    match m.query(QueryMsg::EstimateWinnings {
        address: "alice".to_string(),
        result: MarketResult::HOME,
    }) {
        QueryResponse::EstimateWinnings(estimate) => assert_eq!(estimate, 400),
        other => panic!("unexpected answer: {:?}", other),
    }
}

#[test]
fn status_and_result_names() {
    assert_eq!(Status::ACTIVE.to_string(), "ACTIVE");
    assert_eq!(Status::CLOSED.to_string(), "CLOSED");
    assert_eq!(Status::CANCELLED.to_string(), "CANCELLED");
    assert_eq!(MarketResult::HOME.to_string(), "HOME");
    assert_eq!(MarketResult::AWAY.to_string(), "AWAY");
    assert_eq!(MarketResult::DRAW.to_string(), "DRAW");
}

#[test]
fn error_messages_name_the_violated_rule() {
    assert_eq!(ContractError::Unauthorized.message(), "Unauthorized");
    assert_eq!(ContractError::MarketNotActive.message(), "Market not active");
    assert_eq!(ContractError::MarketNotClosed.message(), "Market not closed");
    assert_eq!(ContractError::BetsNotAccepted.message(), "Bets no longer accepted");
    assert_eq!(ContractError::PaymentError.message(), "Payment error");
    assert_eq!(ContractError::ClaimAlreadyMade.message(), "Claim already made");
    assert_eq!(ContractError::NoWinnings.message(), "No winnings");
}
