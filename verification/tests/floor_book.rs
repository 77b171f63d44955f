use minebtc::errors::ErrorCode;
use minebtc::floor::{
    check_user_listing, compute_trend_bps, find_floor_entry_by_asset, insert_floor_entry,
    internal_handle_inventory_proceeds, internal_record_floor_snapshot, internal_sweep_floor_lowest,
    keeper_payout, refresh_floor_entry, untrack_asset, Disposition, FloorEntry, FloorHistory,
    FloorQueue, FloorSnapshot, LiveListing, LootboxQueue, SaleEntry, SaleHistory, SweepInputs,
    SweepPlan,
};
use minebtc::state::Key;

fn k(n: u64) -> Key {
    Key { w0: n, w1: 0, w2: 0, w3: 0 }
}

fn entry(asset: u64, price: u64) -> FloorEntry {
    FloorEntry { listing: k(1000 + asset), asset: k(asset), seller: k(7), price, registered_at: 1 }
}

fn blank() -> FloorEntry {
    FloorEntry { listing: Key::zero(), asset: Key::zero(), seller: Key::zero(), price: 0, registered_at: 0 }
}

fn queue() -> FloorQueue {
    FloorQueue { bump: 1, entries_count: 0, entries: vec![blank(); 16] }
}

fn prices(q: &FloorQueue) -> Vec<u64> {
    q.entries[..q.entries_count as usize].iter().map(|e| e.price).collect()
}

fn history(anchors: &[u64], head: u8, last: i64) -> FloorHistory {
    let mut snapshots = vec![FloorSnapshot { timestamp: 0, anchor_price: 0 }; 7];
    for (i, a) in anchors.iter().enumerate() {
        snapshots[i] = FloorSnapshot { timestamp: i as i64, anchor_price: *a };
    }
    FloorHistory { bump: 1, head, last_snapshot_at: last, snapshots }
}

fn no_sales() -> SaleHistory {
    let e = SaleEntry { asset: Key::zero(), price: 0, listed_at: 0, sold_at: 0, buyer: Key::zero(), seller: Key::zero() };
    SaleHistory { head: 0, entries: vec![e; 32] }
}

#[test]
fn floor_queue_keeps_the_cheapest_sorted() {
    let mut q = queue();
    assert_eq!(insert_floor_entry(&mut q, entry(1, 50)), Ok(0));
    assert_eq!(insert_floor_entry(&mut q, entry(2, 30)), Ok(0));
    assert_eq!(insert_floor_entry(&mut q, entry(3, 40)), Ok(1));
    assert_eq!(prices(&q), vec![30, 40, 50]);
    assert_eq!(insert_floor_entry(&mut q, entry(3, 10)), Err(ErrorCode::AssetAlreadyInQueue));
    assert_eq!(find_floor_entry_by_asset(&q, k(1)), Some(2));
    assert_eq!(find_floor_entry_by_asset(&q, k(9)), None);
}

#[test]
fn full_floor_queue_drops_its_dearest_for_a_cheaper_listing() {
    let mut q = queue();
    for i in 0..16u64 {
        insert_floor_entry(&mut q, entry(i + 1, 100 + i)).unwrap();
    }
    assert_eq!(insert_floor_entry(&mut q, entry(50, 115)), Err(ErrorCode::FloorQueueFull));
    assert_eq!(insert_floor_entry(&mut q, entry(50, 99)), Ok(0));
    assert_eq!(q.entries_count, 16);
    assert_eq!(q.entries[15].price, 114);
    assert_eq!(find_floor_entry_by_asset(&q, k(16)), None);
}

#[test]
fn relisting_moves_an_entry_and_cancelling_drops_it() {
    let mut q = queue();
    insert_floor_entry(&mut q, entry(1, 10)).unwrap();
    insert_floor_entry(&mut q, entry(2, 20)).unwrap();
    assert_eq!(refresh_floor_entry(&mut q, entry(1, 30)), Some(1));
    assert_eq!(prices(&q), vec![20, 30]);
    assert_eq!(untrack_asset(&mut q, k(2)), Some(0));
    assert_eq!(prices(&q), vec![30]);
    assert_eq!(untrack_asset(&mut q, k(2)), None);
}

#[test]
fn user_listing_checks_its_marketplace_accounts() {
    let ok: Result<(), ErrorCode> = Ok(());
    assert_eq!(check_user_listing(k(1), k(1), k(2), k(2), ok, k(3), k(4)), Ok(()));
    assert_eq!(check_user_listing(k(1), k(9), k(2), k(2), ok, k(3), k(4)), Err(ErrorCode::InvalidMarketplaceProgram));
    assert_eq!(check_user_listing(k(1), k(1), k(2), k(9), ok, k(3), k(4)), Err(ErrorCode::InvalidMarketplaceConfig));
    assert_eq!(check_user_listing(k(1), k(1), k(2), k(2), Err(ErrorCode::InvalidAccount), k(3), k(4)), Err(ErrorCode::InvalidAccount));
    assert_eq!(check_user_listing(k(1), k(1), k(2), k(2), ok, k(4), k(4)), Err(ErrorCode::ProgramListingNotAllowed));
}

#[test]
fn trend_compares_the_newest_anchor_with_the_oldest() {
    // oldest 100, newest 80: down 20%
    let h = history(&[100, 90, 80], 2, 0);
    assert_eq!(compute_trend_bps(&h), -2_000);
    let h = history(&[100], 0, 0);
    assert_eq!(compute_trend_bps(&h), 0);
}

#[test]
fn keepers_are_paid_only_above_the_reserve() {
    assert_eq!(keeper_payout(500_000, 200_000_000, 1_000), 500_000);
    assert_eq!(keeper_payout(500_000, 100_200_000, 1_000), 200_000);
    assert_eq!(keeper_payout(500_000, 50_000_000, 1_000), 0);
}

#[test]
fn inventory_proceeds_split_half_to_the_sweep_vault() {
    assert_eq!(internal_handle_inventory_proceeds(1_001_000, 1_000), (500_000, 500_000));
    assert_eq!(internal_handle_inventory_proceeds(999, 1_000), (0, 0));
}

#[test]
fn floor_snapshots_come_once_per_interval() {
    let mut h = history(&[20_000_000], 0, 1_000);
    let mut q = queue();
    let sales = no_sales();
    let ok: Result<(), ErrorCode> = Ok(());
    assert_eq!(internal_record_floor_snapshot(&mut h, &sales, &q, 1, ok, 2_000), Err(ErrorCode::SnapshotTooSoon));
    assert_eq!(internal_record_floor_snapshot(&mut h, &sales, &q, 1, ok, 100_000), Err(ErrorCode::NoLiveFloorEntries));
    insert_floor_entry(&mut q, entry(1, 15_000_000)).unwrap();
    let r = internal_record_floor_snapshot(&mut h, &sales, &q, 1, ok, 100_000).unwrap();
    assert_eq!(r, (15_000_000, 1, 1));
    assert_eq!(h.head, 1);
    assert_eq!(h.snapshots[1], FloorSnapshot { timestamp: 100_000, anchor_price: 15_000_000 });
    assert_eq!(h.last_snapshot_at, 100_000);
}

fn sweep_inputs(head: &FloorEntry, now: i64, vault: u64) -> SweepInputs {
    SweepInputs {
        target_listing: head.listing,
        asset_key: head.asset,
        seller_key: head.seller,
        escrow_key: k(77),
        escrow_pda_ok: true,
        listing_pda_ok: true,
        live: Some(LiveListing { price: head.price, seller: head.seller, asset: head.asset }),
        asset_owner: Some(k(77)),
        inventory_key: k(88),
        inventory_total_count: 0,
        marketplace_min_price: 1,
        vault_lamports: vault,
        relist_rent: 0,
        marked_up_price: 0,
        now,
        reborn_entry_exists: false,
    }
}

fn lootbox() -> LootboxQueue {
    LootboxQueue { faction_id: 2, filled_count: 0, slots: vec![Key::zero(); 16] }
}

#[test]
fn sweep_buys_the_floor_head_into_the_lootbox() {
    let now = 1_000_000i64;
    let h = history(&[20_000_000], 0, now - 100);
    let mut q = queue();
    let head = entry(1, 20_000_000);
    insert_floor_entry(&mut q, head).unwrap();
    insert_floor_entry(&mut q, entry(2, 30_000_000)).unwrap();
    let mut lb = lootbox();
    let mut count = 0u64;
    let plan = internal_sweep_floor_lowest(&mut q, &h, &mut lb, &mut count, sweep_inputs(&head, now, 1_000_000_000)).unwrap();
    assert_eq!(
        plan,
        SweepPlan::Buy { entry: head, anchor: 20_000_000, trend_bps: 0, disposition: Disposition::Lootbox, keeper_reward: 500_000 }
    );
    assert_eq!(prices(&q), vec![30_000_000]);
    assert_eq!(lb.filled_count, 1);
    assert_eq!(lb.slots[0], head.asset);
    assert_eq!(count, 1);
}

#[test]
fn sweep_refuses_dear_heads_and_drops_stale_ones() {
    let now = 1_000_000i64;
    let h = history(&[20_000_000], 0, now - 100);
    let mut lb = lootbox();
    let mut count = 0u64;

    // more than 5% above the anchor
    let mut q = queue();
    let dear = entry(1, 21_000_001);
    insert_floor_entry(&mut q, dear).unwrap();
    let r = internal_sweep_floor_lowest(&mut q, &h, &mut lb, &mut count, sweep_inputs(&dear, now, 1_000_000_000));
    assert_eq!(r, Err(ErrorCode::FloorPriceTooHigh));

    // the vault would fall under its reserve
    let mut q = queue();
    let head = entry(1, 20_000_000);
    insert_floor_entry(&mut q, head).unwrap();
    let r = internal_sweep_floor_lowest(&mut q, &h, &mut lb, &mut count, sweep_inputs(&head, now, 120_000_000));
    assert_eq!(r, Err(ErrorCode::SweepVaultBelowReserve));

    // a stale anchor
    let old_h = history(&[20_000_000], 0, now - 200_000);
    let r = internal_sweep_floor_lowest(&mut q, &old_h, &mut lb, &mut count, sweep_inputs(&head, now, 1_000_000_000));
    assert_eq!(r, Err(ErrorCode::FloorAnchorStale));

    // the listing changed price: the head is purged for the small bounty
    let mut inp = sweep_inputs(&head, now, 1_000_000_000);
    inp.live = Some(LiveListing { price: 25_000_000, seller: head.seller, asset: head.asset });
    let r = internal_sweep_floor_lowest(&mut q, &h, &mut lb, &mut count, inp);
    assert_eq!(r, Ok(SweepPlan::PurgeStale { keeper_reward: 20_000 }));
    assert_eq!(q.entries_count, 0);
    assert_eq!(lb.filled_count, 0);
    assert_eq!(count, 0);

    let r = internal_sweep_floor_lowest(&mut q, &h, &mut lb, &mut count, sweep_inputs(&head, now, 1_000_000_000));
    assert_eq!(r, Err(ErrorCode::FloorQueueEmpty));
}
