use minebtc::errors::ErrorCode;
use minebtc::floor::{FloorEntry, FloorSnapshot, SaleEntry};
use minebtc::layout::{
    decode_floor_history, decode_floor_queue, decode_sale_history, FLOOR_HISTORY_DISCRIMINATOR, FLOOR_HISTORY_LEN,
    FLOOR_QUEUE_DISCRIMINATOR, FLOOR_QUEUE_LEN, SALE_HISTORY_DISCRIMINATOR, SALE_HISTORY_LEN,
};
use minebtc::state::{program_id, Key};

fn key(n: u64) -> Key {
    Key { w0: n, w1: n + 1, w2: n + 2, w3: n + 3 }
}

fn put_key(data: &mut Vec<u8>, k: Key) {
    data.extend_from_slice(&k.to_bytes());
}

fn floor_queue_bytes(count: u8, entries: &[FloorEntry]) -> Vec<u8> {
    let mut data = FLOOR_QUEUE_DISCRIMINATOR.to_vec();
    data.push(253);
    data.push(count);
    for e in entries {
        put_key(&mut data, e.listing);
        put_key(&mut data, e.asset);
        put_key(&mut data, e.seller);
        data.extend_from_slice(&e.price.to_le_bytes());
        data.extend_from_slice(&e.registered_at.to_le_bytes());
    }
    data.resize(FLOOR_QUEUE_LEN, 0);
    data
}

#[test]
fn floor_queue_bytes_decode_to_their_entries() {
    let first = FloorEntry { listing: key(10), asset: key(20), seller: key(30), price: 1_500_000_000, registered_at: 1_700_000_000 };
    let second = FloorEntry { listing: key(40), asset: key(50), seller: key(60), price: u64::MAX - 7, registered_at: -5 };
    let data = floor_queue_bytes(2, &[first, second]);
    let q = decode_floor_queue(program_id(), &data).unwrap();
    assert_eq!(q.bump, 253);
    assert_eq!(q.entries_count, 2);
    assert_eq!(q.entries.len(), 16);
    assert_eq!(q.entries[0], first);
    assert_eq!(q.entries[1], second);
    assert_eq!(q.entries[2].price, 0);
    assert_eq!(q.entries[2].asset, Key::zero());
}

#[test]
fn floor_queue_refuses_foreign_short_or_overfull_accounts() {
    let data = floor_queue_bytes(0, &[]);
    assert_eq!(decode_floor_queue(key(1), &data).unwrap_err(), ErrorCode::InvalidAccount);
    assert_eq!(decode_floor_queue(program_id(), &data[..FLOOR_QUEUE_LEN - 1]).unwrap_err(), ErrorCode::InvalidAccount);
    let mut wrong_kind = data.clone();
    wrong_kind[3] ^= 0x40;
    assert_eq!(decode_floor_queue(program_id(), &wrong_kind).unwrap_err(), ErrorCode::InvalidAccount);
    let overfull = floor_queue_bytes(17, &[]);
    assert_eq!(decode_floor_queue(program_id(), &overfull).unwrap_err(), ErrorCode::InvalidAccount);
    let full = floor_queue_bytes(16, &[]);
    assert_eq!(decode_floor_queue(program_id(), &full).unwrap().entries_count, 16);
}

#[test]
fn sale_history_bytes_decode_to_their_sales() {
    let sale = SaleEntry {
        asset: key(7),
        price: 2_250_000_000,
        listed_at: 1_700_000_000,
        sold_at: 1_700_086_400,
        buyer: key(100),
        seller: key(200),
    };
    let mut data = SALE_HISTORY_DISCRIMINATOR.to_vec();
    data.push(5);
    data.resize(9 + 120 * 3, 0);
    put_key(&mut data, sale.asset);
    data.extend_from_slice(&sale.price.to_le_bytes());
    data.extend_from_slice(&sale.listed_at.to_le_bytes());
    data.extend_from_slice(&sale.sold_at.to_le_bytes());
    put_key(&mut data, sale.buyer);
    put_key(&mut data, sale.seller);
    data.resize(SALE_HISTORY_LEN, 0);
    let h = decode_sale_history(program_id(), &data).unwrap();
    assert_eq!(h.head, 5);
    assert_eq!(h.entries.len(), 32);
    assert_eq!(h.entries[3], sale);
    assert_eq!(h.entries[0].price, 0);
    assert_eq!(decode_sale_history(program_id(), &data[..SALE_HISTORY_LEN - 1]).unwrap_err(), ErrorCode::InvalidAccount);
    assert_eq!(decode_sale_history(key(3), &data).unwrap_err(), ErrorCode::InvalidAccount);
}

#[test]
fn floor_history_bytes_decode_to_their_snapshots() {
    let mut data = FLOOR_HISTORY_DISCRIMINATOR.to_vec();
    data.push(251);
    data.push(4);
    data.extend_from_slice(&1_700_003_600i64.to_le_bytes());
    for d in 0..7u64 {
        data.extend_from_slice(&(1_700_000_000i64 + 86_400 * d as i64).to_le_bytes());
        data.extend_from_slice(&(1_000_000_000u64 + d).to_le_bytes());
    }
    assert_eq!(data.len(), FLOOR_HISTORY_LEN);
    let h = decode_floor_history(program_id(), &data).unwrap();
    assert_eq!(h.bump, 251);
    assert_eq!(h.head, 4);
    assert_eq!(h.last_snapshot_at, 1_700_003_600);
    assert_eq!(h.snapshots.len(), 7);
    assert_eq!(h.snapshots[6], FloorSnapshot { timestamp: 1_700_518_400, anchor_price: 1_000_000_006 });
    let mut wrong_kind = data.clone();
    wrong_kind[7] ^= 1;
    assert_eq!(decode_floor_history(program_id(), &wrong_kind).unwrap_err(), ErrorCode::InvalidAccount);
}
