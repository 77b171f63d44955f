use minebtc::errors::ErrorCode;
use minebtc::gameplay::initialize_player;
use minebtc::rewards::{withdraw_dbtc_rewards, HodlPool};
use minebtc::state::{Key, PlayerData};

fn player(id: u64, pending: u64) -> PlayerData {
    let mut total = 0u64;
    let mut referrer = None;
    let owner = Key { w0: id, w1: 0, w2: 0, w3: 0 };
    let mut p = initialize_player(&mut total, 12, owner, 1, 0, None, &mut referrer).unwrap().0;
    p.pending_dbtc_rewards = pending;
    p
}

#[test]
fn early_withdrawal_tax_is_shared_by_the_remaining_holders() {
    let mut pool = HodlPool { hodl_tax_index: 0, total_dbtc_claimable: 1_000 };
    let mut distributed = 0u64;
    let mut first = player(1, 400);
    let mut second = player(2, 600);

    let w = withdraw_dbtc_rewards(&mut pool, &mut first, 10, &None, &mut distributed).unwrap();
    assert_eq!(w.base_pending, 400);
    assert_eq!(w.hodl_tax, 40);
    assert_eq!(w.referral_bonus, 0);
    assert_eq!(w.amount_to_user, 360);
    assert_eq!(pool.total_dbtc_claimable, 600);
    assert_eq!(pool.hodl_tax_index, 66_666_666_666);
    assert_eq!(first.pending_dbtc_rewards, 0);
    assert_eq!(distributed, 360);

    // the last holder receives the tax share (rounded down) and pays none
    let w = withdraw_dbtc_rewards(&mut pool, &mut second, 10, &None, &mut distributed).unwrap();
    assert_eq!(w.synced_bonus, 39);
    assert!(w.synced_bonus <= 40);
    assert_eq!(w.base_pending, 639);
    assert_eq!(w.hodl_tax, 0);
    assert_eq!(w.amount_to_user, 639);
    assert_eq!(pool.total_dbtc_claimable, 0);
    assert_eq!(distributed, 999);
}

#[test]
fn nothing_to_withdraw_is_refused() {
    let mut pool = HodlPool { hodl_tax_index: 0, total_dbtc_claimable: 10 };
    let mut distributed = 0u64;
    let mut p = player(1, 0);
    assert_eq!(withdraw_dbtc_rewards(&mut pool, &mut p, 10, &None, &mut distributed).unwrap_err(), ErrorCode::InsufficientFunds);
}
