use minebtc::bets::{BetConfig, GameSession, UserFactionWarBets, UserGameBet};
use minebtc::errors::ErrorCode;
use minebtc::gameplay::initialize_player;
use minebtc::placement::{internal_join_bets, BetRequest};
use minebtc::state::{BetType, Key, PlayerData, PredictionDirection};

fn player() -> PlayerData {
    let mut total = 0u64;
    let mut referrer = None;
    initialize_player(&mut total, 12, Key { w0: 5, w1: 0, w2: 0, w3: 0 }, 1, 2, None, &mut referrer).unwrap().0
}

fn cfg() -> BetConfig {
    BetConfig { is_paused: false, supported_faction_count: 12, protocol_fee_pct: 10, stakers_pct: 50, cycle_sol_split_pct: 10 }
}

fn session() -> GameSession {
    GameSession {
        round_id: 7,
        stage: 0,
        round_end_timestamp: 10_000,
        war_id_when_played: 3,
        total_sol_bets: 0,
        total_points_bets: 0,
        total_wgtd_points_bets: 0,
        stakers_fee: 0,
        cycle_sol_pool: 0,
        user_faction_indexes: vec![0; 12],
        sol_bets_by_faction: vec![0; 12],
        points_bets_by_faction_direction: vec![0; 36],
        wgtd_points_bets_by_faction_direction: vec![0; 36],
    }
}

fn empty_bet() -> UserGameBet {
    UserGameBet {
        owner: Key::zero(),
        round_id: 0,
        war_id: 0,
        faction_ids: vec![],
        directions: vec![],
        sol_bets: vec![],
        points_bets: vec![],
        wgtd_points_bets: vec![],
        gameplay_hashbeast: Key::zero(),
        total_sol_bet: 0,
        total_points_bet: 0,
        total_wgtd_points_bet: 0,
        total_fee: 0,
        bump: 0,
        mutation_type: 0,
    }
}

fn empty_war() -> UserFactionWarBets {
    UserFactionWarBets {
        owner: Key::zero(),
        war_id: 0,
        gameplay_hashbeast: Key::zero(),
        mutation_score: 0,
        direction_bets: vec![0; 36],
        sol_direction_bets: vec![0; 36],
        bump: 0,
    }
}

fn request(owner: Key, bets: Vec<BetType>) -> BetRequest {
    BetRequest {
        round_id: 7,
        war_id: 3,
        owner,
        amount_per_bet: 100_000_000,
        bets,
        use_ticket: None,
        now: 5_000,
        user_game_bet_bump: 9,
        war_bets_bump: 8,
    }
}

#[test]
fn sol_bets_split_into_prize_pot_fees_and_war_vault() {
    let mut p = player();
    let mut s = session();
    let mut ub = empty_bet();
    let mut w = empty_war();
    let bets = vec![
        BetType { faction_id: 2, direction: PredictionDirection::Up },
        BetType { faction_id: 5, direction: PredictionDirection::Down },
    ];
    let req = request(p.owner, bets);
    let (t, referrer) = internal_join_bets(cfg(), &mut p, &mut s, &mut ub, &mut w, &req, None).unwrap();
    // per bet: 10% fee (half to stakers), 10% to the war, 80% to the pot
    assert_eq!(t.to_prize_pot, 160_000_000);
    assert_eq!(t.to_war_vault, 20_000_000);
    assert_eq!(t.to_rewards_vault, 10_000_000);
    assert_eq!(t.to_treasury, 10_000_000);
    assert_eq!(t.to_referrer, 0);
    assert_eq!(t.to_prize_pot + t.to_war_vault + t.to_rewards_vault + t.to_treasury, 200_000_000);
    assert!(referrer.is_none());
    assert_eq!(s.total_sol_bets, 160_000_000);
    assert_eq!(s.total_points_bets, 160_000_000);
    assert_eq!(s.cycle_sol_pool, 20_000_000);
    assert_eq!(s.stakers_fee, 10_000_000);
    assert_eq!(ub.owner, p.owner);
    assert_eq!(ub.faction_ids, vec![2, 5]);
    assert_eq!(ub.sol_bets, vec![80_000_000, 80_000_000]);
    assert_eq!(p.pending_round_claims, 1);
    assert_eq!(p.pending_war_claims, 1);
}

#[test]
fn bet_requests_for_another_round_or_without_bets_are_refused() {
    let mut p = player();
    let mut s = session();
    let mut ub = empty_bet();
    let mut w = empty_war();
    let mut req = request(p.owner, vec![BetType { faction_id: 2, direction: PredictionDirection::Up }]);
    req.round_id = 8;
    assert_eq!(internal_join_bets(cfg(), &mut p, &mut s, &mut ub, &mut w, &req, None).unwrap_err(), ErrorCode::InvalidRound);
    let req = request(p.owner, vec![]);
    assert_eq!(internal_join_bets(cfg(), &mut p, &mut s, &mut ub, &mut w, &req, None).unwrap_err(), ErrorCode::InvalidParameters);
    let mut req = request(p.owner, vec![BetType { faction_id: 2, direction: PredictionDirection::Up }]);
    req.amount_per_bet = 999_999;
    assert_eq!(internal_join_bets(cfg(), &mut p, &mut s, &mut ub, &mut w, &req, None).unwrap_err(), ErrorCode::BetBelowMinimum);
    let mut req = request(p.owner, vec![BetType { faction_id: 2, direction: PredictionDirection::Up }]);
    req.now = 10_000;
    assert_eq!(internal_join_bets(cfg(), &mut p, &mut s, &mut ub, &mut w, &req, None).unwrap_err(), ErrorCode::RoundEnded);
    let mut paused = cfg();
    paused.is_paused = true;
    let req = request(p.owner, vec![BetType { faction_id: 2, direction: PredictionDirection::Up }]);
    assert_eq!(internal_join_bets(paused, &mut p, &mut s, &mut ub, &mut w, &req, None).unwrap_err(), ErrorCode::GamePaused);
}

#[test]
fn a_refused_bet_request_leaves_every_record_unchanged() {
    let mut p = player();
    let mut s = session();
    let mut ub = empty_bet();
    let mut w = empty_war();
    let mut paused = cfg();
    paused.is_paused = true;
    let req = request(p.owner, vec![BetType { faction_id: 2, direction: PredictionDirection::Up }]);
    assert_eq!(internal_join_bets(paused, &mut p, &mut s, &mut ub, &mut w, &req, None).unwrap_err(), ErrorCode::GamePaused);
    assert_eq!((p.pending_round_claims, p.pending_war_claims), (0, 0));
    assert_eq!(p.free_tickets_remaining, player().free_tickets_remaining);
    assert_eq!((s.total_sol_bets, s.cycle_sol_pool, s.stakers_fee), (0, 0, 0));
    assert!(ub.owner.is_default());
    assert!(w.owner.is_default());
    // a round-bet record of an earlier round is refused after the war record
    // check passed; the war record stays unopened all the same
    ub.owner = p.owner;
    ub.round_id = 6;
    ub.war_id = 3;
    assert_eq!(internal_join_bets(cfg(), &mut p, &mut s, &mut ub, &mut w, &req, None).unwrap_err(), ErrorCode::InvalidRound);
    assert!(w.owner.is_default());
    assert_eq!(w.direction_bets, vec![0; 36]);
    assert_eq!(p.pending_war_claims, 0);
    assert_eq!(s.cycle_sol_pool, 0);
}
