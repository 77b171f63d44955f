//! The byte layout of the market maker's accounts (floor queue, sale
//! history, floor history): an eight-byte discriminator, then fixed-size
//! fields, integers little-endian. Each decoder checks the owner, the length
//! and the discriminator, and gives the records the bytes hold.
use vstd::prelude::*;

use crate::constants::{FLOOR_HISTORY_SIZE, FLOOR_QUEUE_SIZE, SALE_HISTORY_SIZE};
use crate::errors::ErrorCode;
use crate::floor::{FloorEntry, FloorHistory, FloorQueue, FloorSnapshot, SaleEntry, SaleHistory};
use crate::state::{game_program, program_id, Key};

verus! {

pub const FLOOR_QUEUE_DISCRIMINATOR: [u8; 8] = [176, 113, 230, 240, 119, 207, 126, 138];
pub const SALE_HISTORY_DISCRIMINATOR: [u8; 8] = [18, 173, 177, 213, 129, 209, 62, 90];
pub const FLOOR_HISTORY_DISCRIMINATOR: [u8; 8] = [181, 105, 124, 71, 145, 178, 106, 110];

/// Bytes of one floor entry: listing, asset, seller, price, registration time.
pub const FLOOR_ENTRY_SIZE: usize = 112;
/// Bytes of one sale: asset, price, listing and sale times, buyer, seller.
pub const SALE_ENTRY_SIZE: usize = 120;
/// Bytes of one snapshot: time and anchor price.
pub const FLOOR_SNAPSHOT_SIZE: usize = 16;

/// Discriminator, bump, entry count, then the entries.
pub const FLOOR_QUEUE_LEN: usize = 1802;
/// Discriminator, ring head, then the sales.
pub const SALE_HISTORY_LEN: usize = 3849;
/// Discriminator, bump, ring head, last snapshot time, then the snapshots.
pub const FLOOR_HISTORY_LEN: usize = 130;

/// The little-endian `u64` at `off`.
pub open spec fn le_u64(b: Seq<u8>, off: int) -> u64 {
    (b[off] as u64) | ((b[off + 1] as u64) << 8u64) | ((b[off + 2] as u64) << 16u64) | ((b[off + 3] as u64) << 24u64)
        | ((b[off + 4] as u64) << 32u64) | ((b[off + 5] as u64) << 40u64) | ((b[off + 6] as u64) << 48u64)
        | ((b[off + 7] as u64) << 56u64)
}

/// The address at `off`.
pub open spec fn key_at(b: Seq<u8>, off: int) -> Key {
    Key { w0: le_u64(b, off), w1: le_u64(b, off + 8), w2: le_u64(b, off + 16), w3: le_u64(b, off + 24) }
}

pub open spec fn floor_entry_at(b: Seq<u8>, off: int) -> FloorEntry {
    FloorEntry {
        listing: key_at(b, off),
        asset: key_at(b, off + 32),
        seller: key_at(b, off + 64),
        price: le_u64(b, off + 96),
        registered_at: le_u64(b, off + 104) as i64,
    }
}

pub open spec fn sale_entry_at(b: Seq<u8>, off: int) -> SaleEntry {
    SaleEntry {
        asset: key_at(b, off),
        price: le_u64(b, off + 32),
        listed_at: le_u64(b, off + 40) as i64,
        sold_at: le_u64(b, off + 48) as i64,
        buyer: key_at(b, off + 56),
        seller: key_at(b, off + 88),
    }
}

pub open spec fn snapshot_at(b: Seq<u8>, off: int) -> FloorSnapshot {
    FloorSnapshot { timestamp: le_u64(b, off) as i64, anchor_price: le_u64(b, off + 8) }
}

/// Whether `data` can be an account of the kind `disc` of the game program.
pub open spec fn raw_account_ok(owner: Key, data: Seq<u8>, disc: Seq<u8>, len: int) -> bool {
    &&& owner == game_program()
    &&& data.len() >= len
    &&& data.subrange(0, 8) == disc
}

fn read_u64(data: &[u8], off: usize) -> (r: u64)
    requires
        off + 8 <= data.len(),
    ensures
        r == le_u64(data@, off as int),
{
    (data[off] as u64) | ((data[off + 1] as u64) << 8u64) | ((data[off + 2] as u64) << 16u64) | ((data[off + 3] as u64) << 24u64)
        | ((data[off + 4] as u64) << 32u64) | ((data[off + 5] as u64) << 40u64) | ((data[off + 6] as u64) << 48u64)
        | ((data[off + 7] as u64) << 56u64)
}

fn read_key(data: &[u8], off: usize) -> (k: Key)
    requires
        off + 32 <= data.len(),
    ensures
        k == key_at(data@, off as int),
{
    Key { w0: read_u64(data, off), w1: read_u64(data, off + 8), w2: read_u64(data, off + 16), w3: read_u64(data, off + 24) }
}

fn read_floor_entry(data: &[u8], off: usize) -> (e: FloorEntry)
    requires
        off + FLOOR_ENTRY_SIZE <= data.len(),
    ensures
        e == floor_entry_at(data@, off as int),
{
    FloorEntry {
        listing: read_key(data, off),
        asset: read_key(data, off + 32),
        seller: read_key(data, off + 64),
        price: read_u64(data, off + 96),
        registered_at: read_u64(data, off + 104) as i64,
    }
}

fn read_sale_entry(data: &[u8], off: usize) -> (e: SaleEntry)
    requires
        off + SALE_ENTRY_SIZE <= data.len(),
    ensures
        e == sale_entry_at(data@, off as int),
{
    SaleEntry {
        asset: read_key(data, off),
        price: read_u64(data, off + 32),
        listed_at: read_u64(data, off + 40) as i64,
        sold_at: read_u64(data, off + 48) as i64,
        buyer: read_key(data, off + 56),
        seller: read_key(data, off + 88),
    }
}

fn disc_matches(data: &[u8], disc: &[u8; 8]) -> (b: bool)
    requires
        data@.len() >= 8,
    ensures
        b == (data@.subrange(0, 8) == disc@),
{
    let mut i: usize = 0;
    while i < 8
        invariant
            data@.len() >= 8,
            i <= 8,
            forall|j: int| 0 <= j < i ==> data@[j] == disc@[j],
        decreases 8 - i,
    {
        if data[i] != disc[i] {
            proof {
                assert(data@.subrange(0, 8)[i as int] != disc@[i as int]);
            }
            return false;
        }
        i += 1;
    }
    assert(data@.subrange(0, 8) =~= disc@);
    true
}

/// Reads a floor queue account: the game program's, long enough, of the
/// floor-queue kind (`InvalidAccount` otherwise), with at most a full
/// queue's count of entries (`InvalidAccount` otherwise).
pub fn decode_floor_queue(owner: Key, data: &[u8]) -> (r: Result<FloorQueue, ErrorCode>)
    ensures
        !raw_account_ok(owner, data@, FLOOR_QUEUE_DISCRIMINATOR@, FLOOR_QUEUE_LEN as int) ==> r == Err::<FloorQueue, ErrorCode>(
            ErrorCode::InvalidAccount),
        raw_account_ok(owner, data@, FLOOR_QUEUE_DISCRIMINATOR@, FLOOR_QUEUE_LEN as int) && data@[9] > FLOOR_QUEUE_SIZE
            ==> r == Err::<FloorQueue, ErrorCode>(ErrorCode::InvalidAccount),
        raw_account_ok(owner, data@, FLOOR_QUEUE_DISCRIMINATOR@, FLOOR_QUEUE_LEN as int) && data@[9] <= FLOOR_QUEUE_SIZE
            ==> (r matches Ok(q) && q.bump == data@[8] && q.entries_count == data@[9]
                && q.entries@ == Seq::new(FLOOR_QUEUE_SIZE as nat, |i: int| floor_entry_at(data@, 10 + FLOOR_ENTRY_SIZE * i))),
{
    if owner != program_id() || data.len() < FLOOR_QUEUE_LEN || !disc_matches(data, &FLOOR_QUEUE_DISCRIMINATOR) {
        return Err(ErrorCode::InvalidAccount);
    }
    if data[9] as usize > FLOOR_QUEUE_SIZE {
        return Err(ErrorCode::InvalidAccount);
    }
    let mut entries: Vec<FloorEntry> = Vec::new();
    let mut i: usize = 0;
    while i < FLOOR_QUEUE_SIZE
        invariant
            data@.len() >= FLOOR_QUEUE_LEN,
            i <= FLOOR_QUEUE_SIZE,
            entries@ == Seq::new(i as nat, |k: int| floor_entry_at(data@, 10 + FLOOR_ENTRY_SIZE * k)),
        decreases FLOOR_QUEUE_SIZE - i,
    {
        let e = read_floor_entry(data, 10 + FLOOR_ENTRY_SIZE * i);
        entries.push(e);
        i += 1;
        assert(entries@ =~= Seq::new(i as nat, |k: int| floor_entry_at(data@, 10 + FLOOR_ENTRY_SIZE * k)));
    }
    Ok(FloorQueue { bump: data[8], entries_count: data[9], entries })
}

/// Reads a sale history account: the game program's, long enough, of the
/// sale-history kind (`InvalidAccount` otherwise).
pub fn decode_sale_history(owner: Key, data: &[u8]) -> (r: Result<SaleHistory, ErrorCode>)
    ensures
        !raw_account_ok(owner, data@, SALE_HISTORY_DISCRIMINATOR@, SALE_HISTORY_LEN as int) ==> r == Err::<SaleHistory, ErrorCode>(
            ErrorCode::InvalidAccount),
        raw_account_ok(owner, data@, SALE_HISTORY_DISCRIMINATOR@, SALE_HISTORY_LEN as int) ==> (r matches Ok(h)
            && h.head == data@[8]
            && h.entries@ == Seq::new(SALE_HISTORY_SIZE as nat, |i: int| sale_entry_at(data@, 9 + SALE_ENTRY_SIZE * i))),
{
    if owner != program_id() || data.len() < SALE_HISTORY_LEN || !disc_matches(data, &SALE_HISTORY_DISCRIMINATOR) {
        return Err(ErrorCode::InvalidAccount);
    }
    let mut entries: Vec<SaleEntry> = Vec::new();
    let mut i: usize = 0;
    while i < SALE_HISTORY_SIZE
        invariant
            data@.len() >= SALE_HISTORY_LEN,
            i <= SALE_HISTORY_SIZE,
            entries@ == Seq::new(i as nat, |k: int| sale_entry_at(data@, 9 + SALE_ENTRY_SIZE * k)),
        decreases SALE_HISTORY_SIZE - i,
    {
        let e = read_sale_entry(data, 9 + SALE_ENTRY_SIZE * i);
        entries.push(e);
        i += 1;
        assert(entries@ =~= Seq::new(i as nat, |k: int| sale_entry_at(data@, 9 + SALE_ENTRY_SIZE * k)));
    }
    Ok(SaleHistory { head: data[8], entries })
}

/// Reads a floor history account: the game program's, long enough, of the
/// floor-history kind (`InvalidAccount` otherwise).
pub fn decode_floor_history(owner: Key, data: &[u8]) -> (r: Result<FloorHistory, ErrorCode>)
    ensures
        !raw_account_ok(owner, data@, FLOOR_HISTORY_DISCRIMINATOR@, FLOOR_HISTORY_LEN as int) ==> r == Err::<FloorHistory, ErrorCode>(
            ErrorCode::InvalidAccount),
        raw_account_ok(owner, data@, FLOOR_HISTORY_DISCRIMINATOR@, FLOOR_HISTORY_LEN as int) ==> (r matches Ok(h)
            && h.bump == data@[8] && h.head == data@[9]
            && h.last_snapshot_at == le_u64(data@, 10) as i64
            && h.snapshots@ == Seq::new(FLOOR_HISTORY_SIZE as nat, |i: int| snapshot_at(data@, 18 + FLOOR_SNAPSHOT_SIZE * i))),
{
    if owner != program_id() || data.len() < FLOOR_HISTORY_LEN || !disc_matches(data, &FLOOR_HISTORY_DISCRIMINATOR) {
        return Err(ErrorCode::InvalidAccount);
    }
    let mut snapshots: Vec<FloorSnapshot> = Vec::new();
    let mut i: usize = 0;
    while i < FLOOR_HISTORY_SIZE
        invariant
            data@.len() >= FLOOR_HISTORY_LEN,
            i <= FLOOR_HISTORY_SIZE,
            snapshots@ == Seq::new(i as nat, |k: int| snapshot_at(data@, 18 + FLOOR_SNAPSHOT_SIZE * k)),
        decreases FLOOR_HISTORY_SIZE - i,
    {
        let off = 18 + FLOOR_SNAPSHOT_SIZE * i;
        let s = FloorSnapshot { timestamp: read_u64(data, off) as i64, anchor_price: read_u64(data, off + 8) };
        snapshots.push(s);
        i += 1;
        assert(snapshots@ =~= Seq::new(i as nat, |k: int| snapshot_at(data@, 18 + FLOOR_SNAPSHOT_SIZE * k)));
    }
    Ok(FloorHistory { bump: data[8], head: data[9], last_snapshot_at: read_u64(data, 10) as i64, snapshots })
}

} // verus!
