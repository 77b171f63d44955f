//! The market maker's floor book: a sorted queue of the cheapest live
//! listings, the sale and anchor histories, and the decisions of the sweep,
//! expiry and proceeds cranks.
use vstd::prelude::*;

use crate::constants::{
    BURN_TREND_BPS_THRESHOLD, EXPIRE_GRACE_SECS, FLOOR_ANCHOR_MAX_AGE_SECS,
    FLOOR_ANCHOR_MAX_UPWARD_MOVE_BPS, FLOOR_HISTORY_SIZE, FLOOR_QUEUE_SIZE,
    FLOOR_SNAPSHOT_INTERVAL_SECS, INVENTORY_SWEEP_RESERVE_BPS, KEEPER_REWARD_LAMPORTS,
    LOOTBOX_QUEUE_SIZE, MAX_EXPIRES, MAX_INVENTORY, MIN_SALES_FOR_ANCHOR,
    MIN_SWEEP_RESERVE_LAMPORTS, SALE_HISTORY_SIZE, SALE_QUALIFY_MIN_LISTING_AGE_SECS,
    SALE_RECENT_WINDOW_SECS, STALE_PURGE_KEEPER_REWARD_LAMPORTS, SWEEP_ATTRACTIVE_BPS,
    SWEEP_MAX_PCT_BPS, SWEEP_MIN_ANCHOR_LAMPORTS,
};
use crate::errors::ErrorCode;
use crate::state::Key;

verus! {

/// One tracked marketplace listing.
#[derive(Debug, Clone, Copy, PartialEq, Eq, Structural)]
pub struct FloorEntry {
    pub listing: Key,
    pub asset: Key,
    pub seller: Key,
    pub price: u64,
    pub registered_at: i64,
}

impl FloorEntry {
    pub open spec fn blank() -> FloorEntry {
        FloorEntry {
            listing: Key { w0: 0, w1: 0, w2: 0, w3: 0 },
            asset: Key { w0: 0, w1: 0, w2: 0, w3: 0 },
            seller: Key { w0: 0, w1: 0, w2: 0, w3: 0 },
            price: 0,
            registered_at: 0,
        }
    }

    /// The empty slot value.
    pub fn empty() -> (e: FloorEntry)
        ensures
            e == FloorEntry::blank(),
    {
        FloorEntry {
            listing: Key::zero(),
            asset: Key::zero(),
            seller: Key::zero(),
            price: 0,
            registered_at: 0,
        }
    }
}

/// The cheapest tracked listings, ascending by price, in a fixed-size buffer
/// whose first `entries_count` slots are live.
#[derive(Debug, Clone)]
pub struct FloorQueue {
    pub bump: u8,
    pub entries_count: u8,
    pub entries: Vec<FloorEntry>,
}

pub open spec fn sorted_by_price(s: Seq<FloorEntry>) -> bool {
    forall|i: int, j: int| 0 <= i <= j < s.len() ==> s[i].price <= s[j].price
}

pub open spec fn distinct_assets(s: Seq<FloorEntry>) -> bool {
    forall|i: int, j: int| 0 <= i < j < s.len() ==> s[i].asset != s[j].asset
}

impl FloorQueue {
    /// The live entries.
    pub open spec fn live(self) -> Seq<FloorEntry> {
        self.entries@.take(self.entries_count as int)
    }

    /// A full-size buffer whose live entries are sorted by price and hold
    /// each asset at most once.
    pub open spec fn wf(self) -> bool {
        &&& self.entries.len() == FLOOR_QUEUE_SIZE
        &&& self.entries_count <= FLOOR_QUEUE_SIZE
        &&& sorted_by_price(self.live())
        &&& distinct_assets(self.live())
    }
}

/// Checks a loaded floor queue against its invariant.
pub fn floor_queue_is_wf(q: &FloorQueue) -> (b: bool)
    ensures
        b == q.wf(),
{
    if q.entries.len() != FLOOR_QUEUE_SIZE || q.entries_count as usize > FLOOR_QUEUE_SIZE {
        return false;
    }
    let n = q.entries_count as usize;
    let ghost live = q.live();
    let mut i: usize = 0;
    while i < n
        invariant
            n == q.entries_count,
            n <= FLOOR_QUEUE_SIZE,
            q.entries.len() == FLOOR_QUEUE_SIZE,
            live == q.live(),
            live.len() == n,
            i <= n,
            forall|a: int, b: int| 0 <= a <= b < i ==> live[a].price <= live[b].price,
            forall|a: int, b: int| 0 <= a < b < i ==> live[a].asset != live[b].asset,
        decreases n - i,
    {
        let mut j: usize = 0;
        while j < i
            invariant
                n == q.entries_count,
                n <= FLOOR_QUEUE_SIZE,
                q.entries.len() == FLOOR_QUEUE_SIZE,
                live == q.live(),
                live.len() == n,
                j <= i,
                i < n,
                forall|a: int| 0 <= a < j ==> live[a].price <= live[i as int].price && live[a].asset != live[i as int].asset,
            decreases i - j,
        {
            if q.entries[j].price > q.entries[i].price || q.entries[j].asset == q.entries[i].asset {
                proof {
                    assert(live[j as int] == q.entries@[j as int]);
                    assert(live[i as int] == q.entries@[i as int]);
                }
                return false;
            }
            proof {
                assert(live[j as int] == q.entries@[j as int]);
                assert(live[i as int] == q.entries@[i as int]);
            }
            j += 1;
        }
        proof {
            assert forall|a: int, b: int| 0 <= a <= b < i + 1 implies live[a].price <= live[b].price by {
                if b < i as int {
                } else if a < i as int {
                } else {
                }
            }
        }
        i += 1;
    }
    true
}

/// Where an entry of `price` enters sorted `s` (from index `i` on): before
/// the first strictly dearer entry, so equal prices keep arrival order.
pub open spec fn first_dearer(s: Seq<FloorEntry>, price: u64, i: int) -> int
    decreases s.len() - i,
{
    if i >= s.len() {
        s.len() as int
    } else if price < s[i].price {
        i
    } else {
        first_dearer(s, price, i + 1)
    }
}

pub proof fn lemma_first_dearer(s: Seq<FloorEntry>, price: u64, i: int)
    requires
        0 <= i <= s.len(),
    ensures
        i <= first_dearer(s, price, i) <= s.len(),
        forall|t: int| i <= t < first_dearer(s, price, i) ==> s[t].price <= price,
        first_dearer(s, price, i) < s.len() ==> price < s[first_dearer(s, price, i)].price,
    decreases s.len() - i,
{
    if i < s.len() && !(price < s[i].price) {
        lemma_first_dearer(s, price, i + 1);
    }
}

/// Whether some live entry is for `asset`.
pub open spec fn holds_asset(s: Seq<FloorEntry>, asset: Key) -> bool {
    exists|i: int| 0 <= i < s.len() && (#[trigger] s[i]).asset == asset
}

/// The live entries with `e` inserted at its sorted place.
pub open spec fn inserted(live: Seq<FloorEntry>, e: FloorEntry) -> Seq<FloorEntry> {
    let k = first_dearer(live, e.price, 0);
    live.take(k).push(e) + live.skip(k)
}

/// Why `e` cannot enter the queue: its asset is already tracked, or the
/// queue is full and `e` is not cheaper than its dearest entry.
pub open spec fn insert_error(q: FloorQueue, e: FloorEntry) -> Option<ErrorCode> {
    if holds_asset(q.live(), e.asset) {
        Some(ErrorCode::AssetAlreadyInQueue)
    } else if q.entries_count >= FLOOR_QUEUE_SIZE && e.price >= q.entries@[FLOOR_QUEUE_SIZE - 1].price {
        Some(ErrorCode::FloorQueueFull)
    } else {
        None
    }
}

/// Inserts `e` at its sorted place, evicting the dearest entry when the
/// queue is full. Returns the index `e` took.
pub fn insert_floor_entry(q: &mut FloorQueue, e: FloorEntry) -> (r: Result<u8, ErrorCode>)
    requires
        old(q).wf(),
    ensures
        r is Err ==> r == Err::<u8, ErrorCode>(insert_error(*old(q), e)->Some_0) && *final(q)
            == *old(q),
        r is Ok <==> insert_error(*old(q), e) is None,
        r matches Ok(k) ==> k == first_dearer(old(q).live(), e.price, 0),
        r is Ok ==> final(q).entries@ == (inserted(old(q).live(), e) + old(q).entries@.skip(
            old(q).entries_count + 1,
        )).take(FLOOR_QUEUE_SIZE as int),
        r is Ok ==> final(q).entries_count == if old(q).entries_count < FLOOR_QUEUE_SIZE {
            old(q).entries_count + 1
        } else {
            old(q).entries_count as int
        },
        r is Ok ==> final(q).live() == inserted(old(q).live(), e).take(final(q).entries_count as int),
        r is Ok ==> final(q).wf(),
        final(q).bump == old(q).bump,
{
    let count = q.entries_count as usize;
    let ghost live = q.live();
    let mut i: usize = 0;
    while i < count
        invariant
            q.wf(),
            count == q.entries_count,
            live == q.live(),
            i <= count,
            forall|t: int| 0 <= t < i ==> (#[trigger] live[t]).asset != e.asset,
        decreases count - i,
    {
        if q.entries[i].asset == e.asset {
            proof {
                assert(live[i as int].asset == e.asset);
            }
            return Err(ErrorCode::AssetAlreadyInQueue);
        }
        i += 1;
    }
    if count >= FLOOR_QUEUE_SIZE {
        let worst_price = q.entries[FLOOR_QUEUE_SIZE - 1].price;
        if !(e.price < worst_price) {
            return Err(ErrorCode::FloorQueueFull);
        }
    }
    let mut k: usize = 0;
    while k < count && !(e.price < q.entries[k].price)
        invariant
            q.wf(),
            count == q.entries_count,
            live == q.live(),
            k <= count,
            forall|u: int| 0 <= u < k ==> (#[trigger] live[u]).price <= e.price,
        decreases count - k,
    {
        k += 1;
    }
    proof {
        assert(k < count ==> e.price < live[k as int].price);
        lemma_first_dearer_is_first(live, e.price, k as int);
        if count >= FLOOR_QUEUE_SIZE {
            assert(live[FLOOR_QUEUE_SIZE - 1] == q.entries@[FLOOR_QUEUE_SIZE - 1]);
            assert(k < FLOOR_QUEUE_SIZE);
        }
    }
    let end: usize = if count >= FLOOR_QUEUE_SIZE {
        FLOOR_QUEUE_SIZE - 1
    } else {
        count
    };
    let ghost old_entries = q.entries@;
    let mut j: usize = end;
    while j > k
        invariant
            q.entries.len() == FLOOR_QUEUE_SIZE,
            old_entries.len() == FLOOR_QUEUE_SIZE,
            k <= j <= end,
            end < FLOOR_QUEUE_SIZE,
            forall|u: int| 0 <= u <= j ==> #[trigger] q.entries@[u] == old_entries[u],
            forall|u: int| j < u <= end ==> #[trigger] q.entries@[u] == old_entries[u - 1],
            forall|u: int| end < u < FLOOR_QUEUE_SIZE ==> #[trigger] q.entries@[u] == old_entries[u],
            q.entries_count == count,
            q.bump == old(q).bump,
        decreases j - k,
    {
        let prev = q.entries[j - 1];
        q.entries.set(j, prev);
        j -= 1;
    }
    q.entries.set(k, e);
    if count < FLOOR_QUEUE_SIZE {
        q.entries_count = q.entries_count + 1;
    }
    proof {
        let ins = inserted(live, e);
        let target = (ins + old_entries.skip(count + 1)).take(FLOOR_QUEUE_SIZE as int);
        assert(live =~= old_entries.take(count as int));
        assert forall|u: int| 0 <= u < FLOOR_QUEUE_SIZE implies #[trigger] q.entries@[u] == target[u] by {
            if u < k {
                assert(target[u] == live[u]);
            } else if u == k {
                assert(target[u] == e);
            } else if u <= end {
                assert(target[u] == ins[u]);
                assert(ins[u] == live[u - 1]);
            } else {
                assert(count < FLOOR_QUEUE_SIZE && u > count);
                assert(target[u] == old_entries[u]);
            }
        }
        assert(q.entries@ =~= target);
        lemma_inserted_wf(live, e);
        assert(q.live() =~= ins.take(q.entries_count as int));
        lemma_take_keeps_wf(ins, q.entries_count as int);
    }
    Ok(k as u8)
}

/// `first_dearer` is the first index whose price exceeds `price`.
pub proof fn lemma_first_dearer_is_first(s: Seq<FloorEntry>, price: u64, k: int)
    requires
        0 <= k <= s.len(),
        forall|u: int| 0 <= u < k ==> (#[trigger] s[u]).price <= price,
        k < s.len() ==> price < s[k].price,
    ensures
        first_dearer(s, price, 0) == k,
{
    lemma_first_dearer_from(s, price, 0, k);
}

proof fn lemma_first_dearer_from(s: Seq<FloorEntry>, price: u64, i: int, k: int)
    requires
        0 <= i <= k <= s.len(),
        forall|u: int| 0 <= u < k ==> (#[trigger] s[u]).price <= price,
        k < s.len() ==> price < s[k].price,
    ensures
        first_dearer(s, price, i) == k,
    decreases k - i,
{
    if i < k {
        lemma_first_dearer_from(s, price, i + 1, k);
    }
}

/// Inserting at the sorted place keeps the entries sorted, and keeps assets
/// distinct when the new asset was not tracked.
pub proof fn lemma_inserted_wf(live: Seq<FloorEntry>, e: FloorEntry)
    requires
        sorted_by_price(live),
        distinct_assets(live),
        !holds_asset(live, e.asset),
    ensures
        sorted_by_price(inserted(live, e)),
        distinct_assets(inserted(live, e)),
        inserted(live, e).len() == live.len() + 1,
        inserted(live, e)[first_dearer(live, e.price, 0)] == e,
{
    lemma_first_dearer(live, e.price, 0);
    let k = first_dearer(live, e.price, 0);
    let ins = inserted(live, e);
    assert forall|i: int| 0 <= i < ins.len() implies #[trigger] ins[i] == (if i < k {
        live[i]
    } else if i == k {
        e
    } else {
        live[i - 1]
    }) by {}
    assert forall|i: int, j: int| 0 <= i <= j < ins.len() implies ins[i].price <= ins[j].price by {
        if i < k && j > k {
            assert(live[i].price <= live[j - 1].price);
        }
        if i == k && j > k {
            assert(e.price < live[k].price);
            assert(live[k].price <= live[j - 1].price);
        }
    }
    assert forall|i: int, j: int| 0 <= i < j < ins.len() implies ins[i].asset != ins[j].asset by {
        if i == k {
            if ins[j].asset == e.asset {
                assert(live[j - 1].asset == e.asset);
            }
        } else if j == k {
            if ins[i].asset == e.asset {
                assert(live[i].asset == e.asset);
            }
        }
    }
}

/// A prefix of sorted, distinct entries is sorted and distinct.
pub proof fn lemma_take_keeps_wf(s: Seq<FloorEntry>, n: int)
    requires
        0 <= n <= s.len(),
        sorted_by_price(s),
        distinct_assets(s),
    ensures
        sorted_by_price(s.take(n)),
        distinct_assets(s.take(n)),
{
}


/// Index of the live entry for `asset`, if any.
pub fn find_floor_entry_by_asset(q: &FloorQueue, asset: Key) -> (r: Option<u8>)
    requires
        q.wf(),
    ensures
        r matches Some(i) ==> i < q.entries_count && q.live()[i as int].asset == asset,
        r is None <==> !holds_asset(q.live(), asset),
{
    let count = q.entries_count as usize;
    let mut i: usize = 0;
    while i < count
        invariant
            q.wf(),
            count == q.entries_count,
            i <= count,
            forall|t: int| 0 <= t < i ==> (#[trigger] q.live()[t]).asset != asset,
        decreases count - i,
    {
        if q.entries[i].asset == asset {
            proof {
                assert(q.live()[i as int] == q.entries@[i as int]);
            }
            return Some(i as u8);
        }
        i += 1;
    }
    None
}

/// Removes the live entry at `idx`, shifting later entries left and blanking
/// the freed slot; an index past the live entries changes nothing.
pub fn remove_floor_entry_at(q: &mut FloorQueue, idx: u8)
    requires
        old(q).wf(),
    ensures
        idx >= old(q).entries_count ==> *final(q) == *old(q),
        idx < old(q).entries_count ==> final(q).entries@ == old(q).entries@.take(idx as int)
            + old(q).entries@.subrange(idx as int + 1, old(q).entries_count as int).push(
            FloorEntry::blank(),
        ) + old(q).entries@.skip(old(q).entries_count as int),
        idx < old(q).entries_count ==> final(q).entries_count == old(q).entries_count - 1,
        idx < old(q).entries_count ==> final(q).live() == old(q).live().remove(idx as int),
        final(q).wf(),
        final(q).bump == old(q).bump,
{
    let count = q.entries_count as usize;
    let i = idx as usize;
    if i >= count {
        return;
    }
    let ghost old_entries = q.entries@;
    let ghost live = q.live();
    let mut j: usize = i;
    while j < count - 1
        invariant
            q.entries.len() == FLOOR_QUEUE_SIZE,
            old_entries.len() == FLOOR_QUEUE_SIZE,
            i <= j <= count - 1,
            count <= FLOOR_QUEUE_SIZE,
            q.entries_count == count,
            q.bump == old(q).bump,
            forall|u: int| 0 <= u < i ==> #[trigger] q.entries@[u] == old_entries[u],
            forall|u: int| i <= u < j ==> #[trigger] q.entries@[u] == old_entries[u + 1],
            forall|u: int| j <= u < FLOOR_QUEUE_SIZE ==> #[trigger] q.entries@[u] == old_entries[u],
        decreases count - 1 - j,
    {
        let next = q.entries[j + 1];
        q.entries.set(j, next);
        j += 1;
    }
    let blank = FloorEntry::empty();
    q.entries.set(count - 1, blank);
    q.entries_count = (count - 1) as u8;
    proof {
        let target = old_entries.take(i as int) + old_entries.subrange(i as int + 1, count as int).push(
            FloorEntry::blank(),
        ) + old_entries.skip(count as int);
        assert(q.entries@ =~= target);
        assert(q.live() =~= live.remove(i as int));
        assert forall|a: int, b: int| 0 <= a <= b < q.live().len() implies q.live()[a].price <= q.live()[b].price by {
            let a0 = if a < i { a } else { a + 1 };
            let b0 = if b < i { b } else { b + 1 };
            assert(live[a0].price <= live[b0].price);
        }
        assert forall|a: int, b: int| 0 <= a < b < q.live().len() implies q.live()[a].asset != q.live()[b].asset by {
            let a0 = if a < i { a } else { a + 1 };
            let b0 = if b < i { b } else { b + 1 };
            assert(live[a0].asset != live[b0].asset);
        }
    }
}

/// The cheapest live entry.
pub fn floor_queue_head(q: &FloorQueue) -> (r: Result<FloorEntry, ErrorCode>)
    requires
        q.wf(),
    ensures
        q.entries_count == 0 <==> r == Err::<FloorEntry, ErrorCode>(ErrorCode::FloorQueueEmpty),
        q.entries_count > 0 <==> r is Ok,
        r matches Ok(e) ==> e == q.live()[0] && forall|i: int| 0 <= i < q.live().len() ==> e.price <= #[trigger] q.live()[i].price,
{
    if q.entries_count == 0 {
        return Err(ErrorCode::FloorQueueEmpty);
    }
    proof {
        assert(q.live()[0] == q.entries@[0]);
    }
    Ok(q.entries[0])
}

/// The median live entry (the upper one for an even count) and the count;
/// a blank entry and zero for an empty queue.
pub fn floor_queue_median_entry(q: &FloorQueue) -> (r: (FloorEntry, u32))
    requires
        q.wf(),
    ensures
        r.1 == q.entries_count,
        q.entries_count == 0 ==> r.0 == FloorEntry::blank(),
        q.entries_count > 0 ==> r.0 == q.live()[(q.entries_count / 2) as int],
{
    let count = q.entries_count as usize;
    if count == 0 {
        return (FloorEntry::empty(), 0);
    }
    proof {
        assert(q.live()[(count / 2) as int] == q.entries@[(count / 2) as int]);
    }
    (q.entries[count / 2], count as u32)
}

/// The first reason, if any, to refuse the marketplace accounts of a user
/// listing call: a program or a config other than the inventory pool's, or
/// a config that failed its own checks (`config_check`, from the caller).
pub open spec fn marketplace_accounts_error(
    program: Key,
    pool_program: Key,
    config: Key,
    pool_config: Key,
    config_check: Result<(), ErrorCode>,
) -> Option<ErrorCode> {
    if program != pool_program {
        Some(ErrorCode::InvalidMarketplaceProgram)
    } else if config != pool_config {
        Some(ErrorCode::InvalidMarketplaceConfig)
    } else if config_check is Err {
        Some(config_check->Err_0)
    } else {
        None
    }
}

/// Checks the marketplace accounts of a user listing call against the
/// inventory pool's.
pub fn check_marketplace_accounts(
    program: Key,
    pool_program: Key,
    config: Key,
    pool_config: Key,
    config_check: Result<(), ErrorCode>,
) -> (r: Result<(), ErrorCode>)
    ensures
        r == (match marketplace_accounts_error(program, pool_program, config, pool_config, config_check) {
            Some(e) => Err::<(), ErrorCode>(e),
            None => Ok(()),
        }),
{
    if program != pool_program {
        return Err(ErrorCode::InvalidMarketplaceProgram);
    }
    if config != pool_config {
        return Err(ErrorCode::InvalidMarketplaceConfig);
    }
    match config_check {
        Ok(()) => Ok(()),
        Err(e) => Err(e),
    }
}

/// Checks a user's request to list: the marketplace accounts, and a seller
/// other than the inventory pool, whose listings go another way.
pub fn check_user_listing(
    program: Key,
    pool_program: Key,
    config: Key,
    pool_config: Key,
    config_check: Result<(), ErrorCode>,
    seller: Key,
    pool: Key,
) -> (r: Result<(), ErrorCode>)
    ensures
        r == (match marketplace_accounts_error(program, pool_program, config, pool_config, config_check) {
            Some(e) => Err::<(), ErrorCode>(e),
            None => if seller == pool { Err(ErrorCode::ProgramListingNotAllowed) } else { Ok(()) },
        }),
{
    check_marketplace_accounts(program, pool_program, config, pool_config, config_check)?;
    if seller == pool {
        return Err(ErrorCode::ProgramListingNotAllowed);
    }
    Ok(())
}

/// Re-registers a listing after a (re)list or a price update. Returns the
/// index it took, or `None` when it is not tracked after all.
pub fn refresh_floor_entry(q: &mut FloorQueue, e: FloorEntry) -> (r: Option<u8>)
    requires
        old(q).wf(),
    ensures
        final(q).wf(),
        !holds_asset(old(q).live(), e.asset) ==> (match insert_error(*old(q), e) {
            Some(_) => r is None && *final(q) == *old(q),
            None => r == Some(first_dearer(old(q).live(), e.price, 0) as u8)
                && final(q).live() == inserted(old(q).live(), e).take(final(q).entries_count as int),
        }),
        holds_asset(old(q).live(), e.asset) && old(q).entries_count >= FLOOR_QUEUE_SIZE && e.price
            >= old(q).entries@[FLOOR_QUEUE_SIZE - 1].price ==> r is None && !holds_asset(
            final(q).live(),
            e.asset,
        ) && final(q).entries_count == old(q).entries_count - 1,
        holds_asset(old(q).live(), e.asset) && !(old(q).entries_count >= FLOOR_QUEUE_SIZE && e.price
            >= old(q).entries@[FLOOR_QUEUE_SIZE - 1].price) ==> exists|i: int|
            0 <= i < old(q).entries_count && #[trigger] old(q).live()[i].asset == e.asset
                && r == Some(first_dearer(old(q).live().remove(i), e.price, 0) as u8)
                && final(q).entries_count == old(q).entries_count
                && final(q).live() == inserted(old(q).live().remove(i), e).take(final(q).entries_count as int),
        r matches Some(k) ==> k < final(q).entries_count && final(q).live()[k as int] == e,
        r is None ==> !holds_asset(final(q).live(), e.asset),
{
    let full_before = (q.entries_count as usize) >= FLOOR_QUEUE_SIZE;
    let previous_worst = if full_before {
        q.entries[FLOOR_QUEUE_SIZE - 1].price
    } else {
        0
    };
    let mut replaced = false;
    match find_floor_entry_by_asset(q, e.asset) {
        Some(idx) => {
            replaced = true;
            proof {
                assert forall|t: int| 0 <= t < old(q).live().len() && t != idx implies (#[trigger] old(q).live()[t]).asset != e.asset by {
                    if t < idx {
                        assert(old(q).live()[t].asset != old(q).live()[idx as int].asset);
                    } else {
                        assert(old(q).live()[idx as int].asset != old(q).live()[t].asset);
                    }
                }
            }
            remove_floor_entry_at(q, idx);
            proof {
                assert forall|t: int| 0 <= t < q.live().len() implies (#[trigger] q.live()[t]).asset != e.asset by {
                    let t0 = if t < idx { t } else { t + 1 };
                    assert(q.live()[t] == old(q).live()[t0]);
                }
            }
        },
        None => {},
    }
    if replaced && full_before && e.price >= previous_worst {
        return None;
    }
    let ghost mid = *q;
    match insert_floor_entry(q, e) {
        Ok(k) => {
            proof {
                lemma_inserted_wf(mid.live(), e);
                lemma_first_dearer(mid.live(), e.price, 0);
                let ins = inserted(mid.live(), e);
                assert(k < q.entries_count) by {
                    if mid.entries_count >= FLOOR_QUEUE_SIZE {
                        assert(mid.live()[FLOOR_QUEUE_SIZE - 1] == mid.entries@[FLOOR_QUEUE_SIZE - 1]);
                    }
                }
                assert(q.live()[k as int] == ins[k as int]);
            }
            Some(k)
        },
        Err(_) => {
            proof {
                assert(*q == mid);
            }
            None
        },
    }
}


/// One recorded user-to-user sale.
#[derive(Debug, Clone, Copy, PartialEq, Eq, Structural)]
pub struct SaleEntry {
    pub asset: Key,
    pub price: u64,
    pub listed_at: i64,
    pub sold_at: i64,
    pub buyer: Key,
    pub seller: Key,
}

/// Ring buffer of the last qualifying sales; `head` is the next slot written.
#[derive(Debug, Clone)]
pub struct SaleHistory {
    pub head: u8,
    pub entries: Vec<SaleEntry>,
}

impl SaleHistory {
    /// A full-size ring whose listing ages fit the timestamp type.
    pub open spec fn wf(self) -> bool {
        &&& self.entries.len() == SALE_HISTORY_SIZE
        &&& forall|i: int|
            0 <= i < self.entries.len() ==> i64::MIN <= #[trigger] self.entries@[i].sold_at
                - self.entries@[i].listed_at <= i64::MAX
    }
}

/// Checks a loaded sale history against its invariant.
pub fn sale_history_is_wf(h: &SaleHistory) -> (b: bool)
    ensures
        b == h.wf(),
{
    if h.entries.len() != SALE_HISTORY_SIZE {
        return false;
    }
    let mut i: usize = 0;
    while i < SALE_HISTORY_SIZE
        invariant
            h.entries.len() == SALE_HISTORY_SIZE,
            i <= SALE_HISTORY_SIZE,
            forall|k: int| 0 <= k < i ==> i64::MIN <= #[trigger] h.entries@[k].sold_at - h.entries@[k].listed_at <= i64::MAX,
        decreases SALE_HISTORY_SIZE - i,
    {
        if h.entries[i].sold_at.checked_sub(h.entries[i].listed_at).is_none() {
            return false;
        }
        i += 1;
    }
    true
}

/// Whether a sale is a real-demand signal worth recording: user to user, not
/// a self-trade, after the listing aged at least the minimum.
pub open spec fn sale_qualifies_spec(seller: Key, buyer: Key, inventory: Key, now: i64, listed_at: i64) -> bool {
    &&& seller != inventory
    &&& buyer != inventory
    &&& buyer != seller
    &&& now - listed_at >= SALE_QUALIFY_MIN_LISTING_AGE_SECS
}

pub fn sale_qualifies(seller: Key, buyer: Key, inventory: Key, now: i64, listed_at: i64) -> (b: bool)
    requires
        i64::MIN <= now - listed_at <= i64::MAX,
    ensures
        b == sale_qualifies_spec(seller, buyer, inventory, now, listed_at),
{
    seller != inventory && buyer != inventory && buyer != seller && (now - listed_at)
        >= SALE_QUALIFY_MIN_LISTING_AGE_SECS
}

/// Writes `e` at the ring's head and advances the head.
pub fn record_sale(h: &mut SaleHistory, e: SaleEntry)
    requires
        old(h).wf(),
        i64::MIN <= e.sold_at - e.listed_at <= i64::MAX,
    ensures
        final(h).wf(),
        final(h).entries@ == old(h).entries@.update(old(h).head as int % SALE_HISTORY_SIZE as int, e),
        final(h).head == (old(h).head as int % SALE_HISTORY_SIZE as int + 1) % SALE_HISTORY_SIZE as int,
{
    let head = (h.head as usize) % SALE_HISTORY_SIZE;
    h.entries.set(head, e);
    h.head = ((head + 1) % SALE_HISTORY_SIZE) as u8;
}

/// `a - b`, clamped to the `i64` range.
pub open spec fn saturating_sub_i64(a: i64, b: i64) -> int {
    if a - b > i64::MAX {
        i64::MAX as int
    } else if a - b < i64::MIN {
        i64::MIN as int
    } else {
        a - b
    }
}

/// `a - b` clamped to the `i64` range.
pub fn sat_sub_i64(a: i64, b: i64) -> (r: i64)
    ensures
        r == saturating_sub_i64(a, b),
{
    let d: i128 = (a as i128) - (b as i128);
    if d > (i64::MAX as i128) {
        i64::MAX
    } else if d < (i64::MIN as i128) {
        i64::MIN
    } else {
        d as i64
    }
}

/// Whether a recorded sale counts toward the sale median at `now`: priced,
/// sold within the recent window, after the minimum listing age.
pub open spec fn counts_for_anchor(e: SaleEntry, now: i64) -> bool {
    &&& e.price != 0
    &&& e.sold_at != 0
    &&& saturating_sub_i64(now, e.sold_at) <= SALE_RECENT_WINDOW_SECS
    &&& e.sold_at - e.listed_at >= SALE_QUALIFY_MIN_LISTING_AGE_SECS
}

/// Prices of the sales that count, in ring order.
pub open spec fn anchor_prices(entries: Seq<SaleEntry>, now: i64) -> Seq<u64>
    decreases entries.len(),
{
    if entries.len() == 0 {
        Seq::empty()
    } else {
        let p = anchor_prices(entries.drop_last(), now);
        if counts_for_anchor(entries.last(), now) {
            p.push(entries.last().price)
        } else {
            p
        }
    }
}

pub proof fn lemma_anchor_prices_len(entries: Seq<SaleEntry>, now: i64)
    ensures
        anchor_prices(entries, now).len() <= entries.len(),
    decreases entries.len(),
{
    if entries.len() > 0 {
        lemma_anchor_prices_len(entries.drop_last(), now);
    }
}

pub open spec fn price_leq() -> spec_fn(u64, u64) -> bool {
    |a: u64, b: u64| a <= b
}

/// Sorts prices ascending with `slice::sort_unstable`. Its documentation
/// says that it sorts the slice; the contract states exactly that: the result
/// is ascending and holds the same prices.
#[verifier::external_body]
fn sort_prices(v: &mut Vec<u64>)
    ensures
        vstd::relations::sorted_by(final(v)@, price_leq()),
        final(v)@.to_multiset() == old(v)@.to_multiset(),
{
    v.sort_unstable();
}

/// The floor anchor a snapshot proposes, with its source (0 sale median,
/// 1 queue median, 2 sale median capped by the queue, 3 capped to the
/// marketplace minimum, 4 capped by the previous anchor) and sample count.
/// Enough recent sales give their median, capped by a cheaper queue median,
/// by the minimum on the first snapshot, and by a bounded rise otherwise.
/// Thin volume falls back to the queue median, which may lower but never
/// raise an existing anchor, and bootstraps at most at the minimum.
pub open spec fn snapshot_anchor(
    prices: Seq<u64>,
    queue_median: u64,
    queue_count: u32,
    previous_anchor: u64,
    min_price: u64,
) -> (u64, u8, u32) {
    let n = prices.len();
    if n >= MIN_SALES_FOR_ANCHOR {
        let median = prices.sort_by(price_leq())[n as int / 2];
        let (a1, s1) = if queue_median > 0 && queue_median < median {
            (queue_median, 2u8)
        } else {
            (median, 0u8)
        };
        let raise = (previous_anchor as int) * (FLOOR_ANCHOR_MAX_UPWARD_MOVE_BPS as int) / 10_000;
        let capped = if previous_anchor + raise > u64::MAX {
            u64::MAX as int
        } else {
            previous_anchor + raise
        };
        if previous_anchor == 0 && a1 > min_price {
            (min_price, 3u8, n as u32)
        } else if previous_anchor > 0 && a1 > capped {
            (capped as u64, 4u8, n as u32)
        } else {
            (a1, s1, n as u32)
        }
    } else if queue_median == 0 {
        (0, 1u8, queue_count)
    } else if previous_anchor > 0 {
        if queue_median > previous_anchor {
            (previous_anchor, 4u8, queue_count)
        } else {
            (queue_median, 1u8, queue_count)
        }
    } else if queue_median > min_price {
        (min_price, 3u8, queue_count)
    } else {
        (queue_median, 1u8, queue_count)
    }
}

/// Computes the anchor a snapshot at `now` would record; see `snapshot_anchor`.
pub fn compute_snapshot_anchor(
    sales: &SaleHistory,
    queue_median: u64,
    queue_count: u32,
    previous_anchor: u64,
    min_price: u64,
    now: i64,
) -> (r: (u64, u8, u32))
    requires
        sales.wf(),
    ensures
        r == snapshot_anchor(anchor_prices(sales.entries@, now), queue_median, queue_count, previous_anchor, min_price),
{
    let mut prices: Vec<u64> = Vec::new();
    let mut i: usize = 0;
    while i < SALE_HISTORY_SIZE
        invariant
            sales.wf(),
            i <= SALE_HISTORY_SIZE,
            prices@ == anchor_prices(sales.entries@.take(i as int), now),
        decreases SALE_HISTORY_SIZE - i,
    {
        let e = sales.entries[i];
        proof {
            assert(sales.entries@.take(i + 1).drop_last() =~= sales.entries@.take(i as int));
            assert(sales.entries@.take(i + 1).last() == e);
            assert(i64::MIN <= e.sold_at - e.listed_at <= i64::MAX);
        }
        let recent = sat_sub_i64(now, e.sold_at) <= SALE_RECENT_WINDOW_SECS;
        if e.price != 0 && e.sold_at != 0 && recent && e.sold_at - e.listed_at
            >= SALE_QUALIFY_MIN_LISTING_AGE_SECS {
            prices.push(e.price);
        }
        i += 1;
    }
    proof {
        assert(sales.entries@.take(SALE_HISTORY_SIZE as int) =~= sales.entries@);
    }
    let ghost collected = prices@;
    let n = prices.len();
    if n >= MIN_SALES_FOR_ANCHOR {
        sort_prices(&mut prices);
        proof {
            broadcast use vstd::seq_lib::group_to_multiset_ensures;

            let leq = price_leq();
            assert(vstd::relations::total_ordering(leq)) by {
                assert(vstd::relations::reflexive(leq));
                assert(vstd::relations::antisymmetric(leq));
                assert(vstd::relations::transitive(leq));
                assert(vstd::relations::strongly_connected(leq));
            }
            collected.lemma_sort_by_ensures(leq);
            vstd::seq_lib::lemma_sorted_unique(prices@, collected.sort_by(leq), leq);
            assert(prices@.to_multiset().len() == prices@.len());
            assert(collected.to_multiset().len() == collected.len());
            assert(prices@.len() == n);
        }
        let median = prices[n / 2];
        let mut anchor = median;
        let mut source: u8 = 0;
        if queue_median > 0 && queue_median < anchor {
            anchor = queue_median;
            source = 2;
        }
        if previous_anchor == 0 && anchor > min_price {
            anchor = min_price;
            source = 3;
        } else if previous_anchor > 0 {
            proof {
                assert((previous_anchor as int) * 2000 / 10_000 <= previous_anchor) by (nonlinear_arith);
            }
            let raise = ((previous_anchor as u128) * (FLOOR_ANCHOR_MAX_UPWARD_MOVE_BPS as u128) / 10_000) as u64;
            let capped = previous_anchor.saturating_add(raise);
            if anchor > capped {
                anchor = capped;
                source = 4;
            }
        }
        return (anchor, source, n as u32);
    }
    if queue_median == 0 {
        return (0, 1, queue_count);
    }
    if previous_anchor > 0 {
        if queue_median > previous_anchor {
            (previous_anchor, 4, queue_count)
        } else {
            (queue_median, 1, queue_count)
        }
    } else if queue_median > min_price {
        (min_price, 3, queue_count)
    } else {
        (queue_median, 1, queue_count)
    }
}

/// One daily anchor snapshot.
#[derive(Debug, Clone, Copy, PartialEq, Eq, Structural)]
pub struct FloorSnapshot {
    pub timestamp: i64,
    pub anchor_price: u64,
}

/// Ring of the last daily anchors; `head` is the latest.
#[derive(Debug, Clone)]
pub struct FloorHistory {
    pub bump: u8,
    pub head: u8,
    pub last_snapshot_at: i64,
    pub snapshots: Vec<FloorSnapshot>,
}

impl FloorHistory {
    pub open spec fn wf(self) -> bool {
        self.snapshots.len() == FLOOR_HISTORY_SIZE
    }

    pub open spec fn head_index(self) -> int {
        self.head as int % FLOOR_HISTORY_SIZE as int
    }

    /// The anchor the protocol prices against: the latest snapshot's.
    pub open spec fn anchor(self) -> u64 {
        self.snapshots@[self.head_index()].anchor_price
    }
}

/// The current floor anchor.
pub fn current_anchor(h: &FloorHistory) -> (r: u64)
    requires
        h.wf(),
    ensures
        r == h.anchor(),
{
    h.snapshots[(h.head as usize) % FLOOR_HISTORY_SIZE].anchor_price
}

/// Checks a loaded floor history against its invariant.
pub fn floor_history_is_wf(h: &FloorHistory) -> (b: bool)
    ensures
        b == h.wf(),
{
    h.snapshots.len() == FLOOR_HISTORY_SIZE
}

/// Whether a new snapshot may be taken at `now` (one per interval).
pub fn snapshot_due(h: &FloorHistory, now: i64) -> (b: bool)
    ensures
        b == (saturating_sub_i64(now, h.last_snapshot_at) >= FLOOR_SNAPSHOT_INTERVAL_SECS),
{
    sat_sub_i64(now, h.last_snapshot_at) >= FLOOR_SNAPSHOT_INTERVAL_SECS
}

/// Whether the anchor is recent enough to spend against.
pub open spec fn anchor_fresh(h: FloorHistory, now: i64) -> bool {
    h.last_snapshot_at > 0 && saturating_sub_i64(now, h.last_snapshot_at) <= FLOOR_ANCHOR_MAX_AGE_SECS
}

pub fn require_fresh_floor_anchor(h: &FloorHistory, now: i64) -> (r: Result<(), ErrorCode>)
    ensures
        anchor_fresh(*h, now) <==> r is Ok,
        r is Err ==> r == Err::<(), ErrorCode>(ErrorCode::FloorAnchorStale),
{
    if h.last_snapshot_at > 0 && sat_sub_i64(now, h.last_snapshot_at) <= FLOOR_ANCHOR_MAX_AGE_SECS {
        Ok(())
    } else {
        Err(ErrorCode::FloorAnchorStale)
    }
}

/// Advances the ring and records `anchor_price` at `timestamp` as the latest.
pub fn record_floor_snapshot(h: &mut FloorHistory, timestamp: i64, anchor_price: u64)
    requires
        old(h).wf(),
    ensures
        final(h).wf(),
        final(h).head == (old(h).head_index() + 1) % FLOOR_HISTORY_SIZE as int,
        final(h).snapshots@ == old(h).snapshots@.update(
            (old(h).head_index() + 1) % FLOOR_HISTORY_SIZE as int,
            FloorSnapshot { timestamp, anchor_price },
        ),
        final(h).last_snapshot_at == timestamp,
        final(h).anchor() == anchor_price,
        final(h).bump == old(h).bump,
{
    let head = (h.head as usize) % FLOOR_HISTORY_SIZE;
    let next = (head + 1) % FLOOR_HISTORY_SIZE;
    h.head = next as u8;
    h.snapshots.set(next, FloorSnapshot { timestamp, anchor_price });
    h.last_snapshot_at = timestamp;
}

/// The first reason, if any, to refuse a floor snapshot at `now`: too soon
/// after the last one, a queue median whose accounts failed their checks,
/// no sample, or an anchor under the sweep minimum.
pub open spec fn snapshot_error(h: FloorHistory, q: FloorQueue, median_check: Result<(), ErrorCode>, anchor: (u64, u8, u32), now: i64) -> Option<ErrorCode> {
    if saturating_sub_i64(now, h.last_snapshot_at) < FLOOR_SNAPSHOT_INTERVAL_SECS {
        Some(ErrorCode::SnapshotTooSoon)
    } else if q.entries_count > 0 && median_check is Err {
        Some(median_check->Err_0)
    } else if anchor.2 == 0 {
        Some(ErrorCode::NoLiveFloorEntries)
    } else if anchor.0 < SWEEP_MIN_ANCHOR_LAMPORTS {
        Some(ErrorCode::SweepAnchorTooLow)
    } else {
        None
    }
}

/// The anchor a snapshot at `now` takes from the sale history, the queue
/// median and the previous anchor.
pub open spec fn snapshot_candidate(h: FloorHistory, sales: SaleHistory, q: FloorQueue, min_price: u64, now: i64) -> (u64, u8, u32) {
    let median_price = if q.entries_count > 0 { q.live()[(q.entries_count / 2) as int].price } else { FloorEntry::blank().price };
    snapshot_anchor(anchor_prices(sales.entries@, now), median_price, q.entries_count as u32, h.anchor(), min_price)
}

/// Takes a floor snapshot at `now`: once per interval, after the accounts of
/// the queue median passed their checks (`median_check`, from the caller),
/// computes the anchor and records it when it has samples and reaches the
/// sweep minimum. Returns `(anchor, source, samples)`.
pub fn internal_record_floor_snapshot(
    h: &mut FloorHistory,
    sales: &SaleHistory,
    q: &FloorQueue,
    min_price: u64,
    median_check: Result<(), ErrorCode>,
    now: i64,
) -> (r: Result<(u64, u8, u32), ErrorCode>)
    requires
        old(h).wf(),
        sales.wf(),
        q.wf(),
    ensures
        final(h).wf(),
        match snapshot_error(*old(h), *q, median_check, snapshot_candidate(*old(h), *sales, *q, min_price, now), now) {
            Some(e) => r == Err::<(u64, u8, u32), ErrorCode>(e) && *final(h) == *old(h),
            None => {
                let a = snapshot_candidate(*old(h), *sales, *q, min_price, now);
                &&& r == Ok::<(u64, u8, u32), ErrorCode>(a)
                &&& final(h).head == (old(h).head_index() + 1) % FLOOR_HISTORY_SIZE as int
                &&& final(h).snapshots@ == old(h).snapshots@.update(
                    (old(h).head_index() + 1) % FLOOR_HISTORY_SIZE as int,
                    FloorSnapshot { timestamp: now, anchor_price: a.0 },
                )
                &&& final(h).last_snapshot_at == now
                &&& final(h).anchor() == a.0
                &&& final(h).bump == old(h).bump
            },
        },
{
    if !snapshot_due(h, now) {
        return Err(ErrorCode::SnapshotTooSoon);
    }
    let previous = current_anchor(h);
    let (median, count) = floor_queue_median_entry(q);
    if count > 0 {
        if let Err(e) = median_check {
            return Err(e);
        }
    }
    let a = compute_snapshot_anchor(sales, median.price, count, previous, min_price, now);
    if a.2 == 0 {
        return Err(ErrorCode::NoLiveFloorEntries);
    }
    if a.0 < SWEEP_MIN_ANCHOR_LAMPORTS {
        return Err(ErrorCode::SweepAnchorTooLow);
    }
    record_floor_snapshot(h, now, a.0);
    Ok(a)
}

/// The first populated slot at or after `start + k` (cyclically), among the
/// `FLOOR_HISTORY_SIZE - k` slots left to scan.
pub open spec fn first_populated(s: Seq<FloorSnapshot>, start: int, k: int) -> Option<int>
    decreases FLOOR_HISTORY_SIZE - k,
{
    if k >= FLOOR_HISTORY_SIZE {
        None
    } else if s[(start + k) % FLOOR_HISTORY_SIZE as int].anchor_price > 0 {
        Some((start + k) % FLOOR_HISTORY_SIZE as int)
    } else {
        first_populated(s, start, k + 1)
    }
}

/// `a / b` rounded toward zero, for `b > 0`.
pub open spec fn div_toward_zero(a: int, b: int) -> int {
    if a >= 0 {
        a / b
    } else {
        -((-a) / b)
    }
}

pub open spec fn clamp_bps(x: int) -> int {
    if x < -10_000 {
        -10_000
    } else if x > 10_000 {
        10_000
    } else {
        x
    }
}

/// The anchor's move from the oldest populated snapshot to the latest, in
/// basis points rounded toward zero and clamped to +-100%; zero without two
/// distinct populated snapshots.
pub open spec fn trend_bps(h: FloorHistory) -> int {
    let head = h.head_index();
    match first_populated(h.snapshots@, (head + 1) % FLOOR_HISTORY_SIZE as int, 0) {
        None => 0,
        Some(oldest) => if oldest == head {
            0
        } else {
            let o = h.snapshots@[oldest].anchor_price as int;
            let n = h.snapshots@[head].anchor_price as int;
            clamp_bps(div_toward_zero((n - o) * 10_000, o))
        },
    }
}

pub fn compute_trend_bps(h: &FloorHistory) -> (r: i32)
    requires
        h.wf(),
    ensures
        r == trend_bps(*h),
{
    let head = (h.head as usize) % FLOOR_HISTORY_SIZE;
    let start = (head + 1) % FLOOR_HISTORY_SIZE;
    let mut k: usize = 0;
    let mut found: Option<usize> = None;
    while k < FLOOR_HISTORY_SIZE && found.is_none()
        invariant
            h.wf(),
            k <= FLOOR_HISTORY_SIZE,
            start < FLOOR_HISTORY_SIZE,
            found is None ==> first_populated(h.snapshots@, start as int, 0) == first_populated(h.snapshots@, start as int, k as int),
            found matches Some(o) ==> first_populated(h.snapshots@, start as int, 0) == Some(o as int) && o < FLOOR_HISTORY_SIZE
                && h.snapshots@[o as int].anchor_price > 0,
        decreases FLOOR_HISTORY_SIZE - k + if found is None { 1int } else { 0int },
    {
        let idx = (start + k) % FLOOR_HISTORY_SIZE;
        if h.snapshots[idx].anchor_price > 0 {
            proof {
                assert(first_populated(h.snapshots@, start as int, k as int) == Some(idx as int));
            }
            found = Some(idx);
        } else {
            k += 1;
        }
    }
    let oldest_idx = match found {
        None => return 0,
        Some(o) => o,
    };
    if oldest_idx == head {
        return 0;
    }
    let oldest = h.snapshots[oldest_idx].anchor_price;
    let newest = h.snapshots[head].anchor_price;
    let scaled: i32 = if newest >= oldest {
        let up = ((newest - oldest) as u128) * 10_000 / (oldest as u128);
        if up > 10_000 {
            10_000
        } else {
            up as i32
        }
    } else {
        let down = ((oldest - newest) as u128) * 10_000 / (oldest as u128);
        if down > 10_000 {
            -10_000
        } else {
            -(down as i32)
        }
    };
    scaled
}


/// A keeper bounty out of the sweep vault: the requested amount, but never
/// below the vault's reserve floor (the larger of the rent minimum and the
/// sweep reserve).
pub open spec fn keeper_payout_spec(lamports: u64, vault_lamports: u64, rent_minimum: u64) -> int {
    let floor = if rent_minimum > MIN_SWEEP_RESERVE_LAMPORTS {
        rent_minimum as int
    } else {
        MIN_SWEEP_RESERVE_LAMPORTS as int
    };
    let available = if vault_lamports >= floor {
        vault_lamports - floor
    } else {
        0
    };
    if lamports <= available {
        lamports as int
    } else {
        available
    }
}

pub fn keeper_payout(lamports: u64, vault_lamports: u64, rent_minimum: u64) -> (r: u64)
    ensures
        r == keeper_payout_spec(lamports, vault_lamports, rent_minimum),
        r <= lamports,
        r > 0 ==> vault_lamports - r >= MIN_SWEEP_RESERVE_LAMPORTS,
{
    if lamports == 0 {
        return 0;
    }
    let floor = if rent_minimum > MIN_SWEEP_RESERVE_LAMPORTS {
        rent_minimum
    } else {
        MIN_SWEEP_RESERVE_LAMPORTS
    };
    let available = vault_lamports.saturating_sub(floor);
    if lamports <= available {
        lamports
    } else {
        available
    }
}

/// A faction's queue of HashBeasts reserved as loser-roll prizes.
#[derive(Debug, Clone)]
pub struct LootboxQueue {
    pub faction_id: u8,
    pub filled_count: u8,
    pub slots: Vec<Key>,
}

impl LootboxQueue {
    pub open spec fn wf(self) -> bool {
        &&& self.slots.len() == LOOTBOX_QUEUE_SIZE
        &&& self.filled_count <= LOOTBOX_QUEUE_SIZE
    }

    pub open spec fn has_space(self) -> bool {
        self.filled_count < LOOTBOX_QUEUE_SIZE
    }
}

/// Appends `asset` to a lootbox queue with space.
pub fn push_lootbox(q: &mut LootboxQueue, asset: Key) -> (depth: u8)
    requires
        old(q).wf(),
        old(q).has_space(),
    ensures
        final(q).wf(),
        final(q).filled_count == old(q).filled_count + 1,
        final(q).slots@ == old(q).slots@.update(old(q).filled_count as int, asset),
        final(q).faction_id == old(q).faction_id,
        depth == final(q).filled_count,
{
    let idx = q.filled_count as usize;
    q.slots.set(idx, asset);
    q.filled_count = q.filled_count + 1;
    q.filled_count
}

/// What becomes of an asset the inventory now holds.
#[derive(Debug, Clone, Copy, PartialEq, Eq, Structural)]
pub enum Disposition {
    /// Reserved in the faction's lootbox queue.
    Lootbox,
    /// Burned (deep bearish trend, or out of relist strikes).
    Burn,
    /// Listed again at the given price.
    Relist { price: u64 },
}

/// The disposition cascade: the lootbox queue while it has space; a burn
/// when the trend is below the burn threshold; otherwise a relist at the
/// marked-up price, never below the marketplace minimum.
pub open spec fn disposition_spec(has_space: bool, trend: int, marked_up_price: u64, min_price: u64) -> Disposition {
    if has_space {
        Disposition::Lootbox
    } else if trend < BURN_TREND_BPS_THRESHOLD {
        Disposition::Burn
    } else {
        Disposition::Relist {
            price: if marked_up_price >= min_price {
                marked_up_price
            } else {
                min_price
            },
        }
    }
}

/// The live state of the queue head's listing, as read from the marketplace
/// and the asset: `None` where the account is gone or unreadable.
#[derive(Debug, Clone, Copy, PartialEq, Eq, Structural)]
pub struct LiveListing {
    pub price: u64,
    pub seller: Key,
    pub asset: Key,
}

/// Everything the sweep crank reads besides the floor book.
#[derive(Debug, Clone, Copy)]
pub struct SweepInputs {
    pub target_listing: Key,
    pub asset_key: Key,
    pub seller_key: Key,
    pub escrow_key: Key,
    pub escrow_pda_ok: bool,
    pub listing_pda_ok: bool,
    pub live: Option<LiveListing>,
    pub asset_owner: Option<Key>,
    pub inventory_key: Key,
    pub inventory_total_count: u64,
    pub marketplace_min_price: u64,
    pub vault_lamports: u64,
    pub relist_rent: u64,
    /// The head's price marked up by the floor trend (no expire strikes
    /// yet); the relist price is this, never below the marketplace minimum.
    pub marked_up_price: u64,
    pub now: i64,
    pub reborn_entry_exists: bool,
}

/// What a sweep does.
#[derive(Debug, Clone, Copy, PartialEq, Eq, Structural)]
pub enum SweepPlan {
    /// The head was stale and is dropped; the keeper earns the reduced bounty.
    PurgeStale { keeper_reward: u64 },
    /// The head is bought from the sweep vault and disposed of.
    Buy {
        entry: FloorEntry,
        anchor: u64,
        trend_bps: i32,
        disposition: Disposition,
        keeper_reward: u64,
    },
}

/// Whether the head listing no longer matches the live marketplace state.
pub open spec fn head_is_stale(head: FloorEntry, inp: SweepInputs) -> bool {
    match inp.live {
        None => true,
        Some(l) => l.price != head.price || l.seller != head.seller || l.asset != head.asset
            || head.seller == inp.inventory_key || inp.asset_owner != Some(inp.escrow_key),
    }
}

/// The checks a non-stale sweep must pass, in order, with the error each
/// raises.
pub open spec fn sweep_buy_error(head: FloorEntry, h: FloorHistory, lootbox: LootboxQueue, inp: SweepInputs) -> Option<ErrorCode> {
    let will_relist = !lootbox.has_space() && trend_bps(h) >= BURN_TREND_BPS_THRESHOLD;
    let rent = if will_relist { inp.relist_rent as int } else { 0int };
    let needed = head.price + MIN_SWEEP_RESERVE_LAMPORTS + KEEPER_REWARD_LAMPORTS + rent;
    let max_price = (h.anchor() as int) * (10_000 + SWEEP_ATTRACTIVE_BPS) / 10_000;
    let tx_cap = (inp.vault_lamports as int) * (SWEEP_MAX_PCT_BPS as int) / 10_000;
    if inp.inventory_total_count >= MAX_INVENTORY {
        Some(ErrorCode::InventoryFull)
    } else if !inp.listing_pda_ok {
        Some(ErrorCode::InvalidAccount)
    } else if !anchor_fresh(h, inp.now) {
        Some(ErrorCode::FloorAnchorStale)
    } else if h.anchor() < SWEEP_MIN_ANCHOR_LAMPORTS {
        Some(ErrorCode::SweepAnchorTooLow)
    } else if head.price > max_price {
        Some(ErrorCode::FloorPriceTooHigh)
    } else if needed > u64::MAX {
        Some(ErrorCode::ArithmeticOverflow)
    } else if inp.vault_lamports < needed {
        Some(ErrorCode::SweepVaultBelowReserve)
    } else if head.price > tx_cap {
        Some(ErrorCode::SweepTxCapExceeded)
    } else if !lootbox.has_space() && inp.reborn_entry_exists && trend_bps(h) >= BURN_TREND_BPS_THRESHOLD {
        Some(ErrorCode::InvalidState)
    } else if lootbox.has_space() && inp.reborn_entry_exists {
        Some(ErrorCode::InvalidState)
    } else {
        None
    }
}

/// Decides and books a floor sweep: validates the caller's accounts against
/// the queue head, purges a stale head, or checks the buy against the fresh
/// anchor (price at most 5% above it), the vault reserve and the per-sweep
/// cap, pops the head and disposes of the asset.
pub fn internal_sweep_floor_lowest(
    q: &mut FloorQueue,
    h: &FloorHistory,
    lootbox: &mut LootboxQueue,
    inventory_total_count: &mut u64,
    inp: SweepInputs,
) -> (r: Result<SweepPlan, ErrorCode>)
    requires
        old(q).wf(),
        h.wf(),
        old(lootbox).wf(),
        *old(inventory_total_count) == inp.inventory_total_count,
    ensures
        r is Err ==> *final(q) == *old(q) && *final(lootbox) == *old(lootbox) && *final(inventory_total_count) == *old(inventory_total_count),
        final(q).wf(),
        final(lootbox).wf(),
        old(q).entries_count == 0 ==> r == Err::<SweepPlan, ErrorCode>(ErrorCode::FloorQueueEmpty),
        old(q).entries_count > 0 ==> ({
            let head = old(q).live()[0];
            if head.listing != inp.target_listing {
                r == Err::<SweepPlan, ErrorCode>(ErrorCode::StaleFloorEntry)
            } else if inp.asset_key != head.asset || inp.seller_key != head.seller || !inp.escrow_pda_ok {
                r == Err::<SweepPlan, ErrorCode>(ErrorCode::InvalidAccount)
            } else if head_is_stale(head, inp) {
                r == Ok::<SweepPlan, ErrorCode>(SweepPlan::PurgeStale { keeper_reward: STALE_PURGE_KEEPER_REWARD_LAMPORTS })
                    && final(q).live() == old(q).live().remove(0)
                    && *final(lootbox) == *old(lootbox)
                    && *final(inventory_total_count) == *old(inventory_total_count)
            } else {
                match sweep_buy_error(head, *h, *old(lootbox), inp) {
                    Some(e) => r == Err::<SweepPlan, ErrorCode>(e),
                    None => {
                        let d = disposition_spec(old(lootbox).has_space(), trend_bps(*h), inp.marked_up_price, inp.marketplace_min_price);
                        &&& r == Ok::<SweepPlan, ErrorCode>(SweepPlan::Buy {
                            entry: head,
                            anchor: h.anchor(),
                            trend_bps: trend_bps(*h) as i32,
                            disposition: d,
                            keeper_reward: KEEPER_REWARD_LAMPORTS,
                        })
                        &&& final(q).live() == old(q).live().remove(0)
                        &&& (d == Disposition::Lootbox ==> final(lootbox).slots@ == old(lootbox).slots@.update(old(lootbox).filled_count as int, head.asset)
                            && final(lootbox).filled_count == old(lootbox).filled_count + 1)
                        &&& (d != Disposition::Lootbox ==> *final(lootbox) == *old(lootbox))
                        &&& *final(inventory_total_count) == *old(inventory_total_count) + if d == Disposition::Burn { 0int } else { 1int }
                    },
                }
            }
        }),
{
    let head = floor_queue_head(q)?;
    if head.listing != inp.target_listing {
        return Err(ErrorCode::StaleFloorEntry);
    }
    if inp.asset_key != head.asset || inp.seller_key != head.seller || !inp.escrow_pda_ok {
        return Err(ErrorCode::InvalidAccount);
    }
    let stale = match inp.live {
        None => true,
        Some(l) => l.price != head.price || l.seller != head.seller || l.asset != head.asset
            || head.seller == inp.inventory_key || !match inp.asset_owner {
            Some(owner) => owner == inp.escrow_key,
            None => false,
        },
    };
    if stale {
        remove_floor_entry_at(q, 0);
        return Ok(SweepPlan::PurgeStale { keeper_reward: STALE_PURGE_KEEPER_REWARD_LAMPORTS });
    }
    if *inventory_total_count >= MAX_INVENTORY {
        return Err(ErrorCode::InventoryFull);
    }
    if !inp.listing_pda_ok {
        return Err(ErrorCode::InvalidAccount);
    }
    require_fresh_floor_anchor(h, inp.now)?;
    let trend = compute_trend_bps(h);
    let anchor = current_anchor(h);
    if anchor < SWEEP_MIN_ANCHOR_LAMPORTS {
        return Err(ErrorCode::SweepAnchorTooLow);
    }
    let max_price = ((anchor as u128) * (10_000u128 + SWEEP_ATTRACTIVE_BPS as u128) / 10_000u128);
    if (head.price as u128) > max_price {
        return Err(ErrorCode::FloorPriceTooHigh);
    }
    let has_space = (lootbox.filled_count as usize) < LOOTBOX_QUEUE_SIZE;
    let will_relist = !has_space && trend >= BURN_TREND_BPS_THRESHOLD;
    let rent: u64 = if will_relist {
        inp.relist_rent
    } else {
        0
    };
    let needed = match head.price.checked_add(MIN_SWEEP_RESERVE_LAMPORTS) {
        Some(v) => match v.checked_add(KEEPER_REWARD_LAMPORTS) {
            Some(v2) => match v2.checked_add(rent) {
                Some(v3) => v3,
                None => return Err(ErrorCode::ArithmeticOverflow),
            },
            None => return Err(ErrorCode::ArithmeticOverflow),
        },
        None => return Err(ErrorCode::ArithmeticOverflow),
    };
    if inp.vault_lamports < needed {
        return Err(ErrorCode::SweepVaultBelowReserve);
    }
    let tx_cap = (inp.vault_lamports as u128) * (SWEEP_MAX_PCT_BPS as u128) / 10_000u128;
    if (head.price as u128) > tx_cap {
        return Err(ErrorCode::SweepTxCapExceeded);
    }
    if inp.reborn_entry_exists && (has_space || trend >= BURN_TREND_BPS_THRESHOLD) {
        return Err(ErrorCode::InvalidState);
    }
    remove_floor_entry_at(q, 0);
    let disposition = if has_space {
        push_lootbox(lootbox, head.asset);
        *inventory_total_count = *inventory_total_count + 1;
        Disposition::Lootbox
    } else if trend < BURN_TREND_BPS_THRESHOLD {
        Disposition::Burn
    } else {
        let price = if inp.marked_up_price >= inp.marketplace_min_price {
            inp.marked_up_price
        } else {
            inp.marketplace_min_price
        };
        *inventory_total_count = *inventory_total_count + 1;
        Disposition::Relist { price }
    };
    Ok(
        SweepPlan::Buy {
            entry: head,
            anchor,
            trend_bps: trend,
            disposition,
            keeper_reward: KEEPER_REWARD_LAMPORTS,
        },
    )
}


/// Where an inventory-held asset sits.
#[derive(Debug, Clone, Copy, PartialEq, Eq, Structural)]
pub enum RebornStatus {
    Listed,
    Lootbox,
}

/// The inventory's record of one asset it holds.
#[derive(Debug, Clone, Copy, PartialEq, Eq, Structural)]
pub struct RebornEntry {
    pub asset: Key,
    pub faction_id: u8,
    pub status: RebornStatus,
    pub listing_price: u64,
    pub original_buy_price: u64,
    pub expire_count: u8,
}

/// The inventory's own marketplace listing, as read.
#[derive(Debug, Clone, Copy, PartialEq, Eq, Structural)]
pub struct ProgramListing {
    pub seller: Key,
    pub asset: Key,
    pub created_at: i64,
}

/// Everything the expiry crank reads besides the books.
#[derive(Debug, Clone, Copy)]
pub struct ExpiryInputs {
    pub asset_key: Key,
    pub inventory_key: Key,
    pub listing: ProgramListing,
    pub listing_pda_ok: bool,
    pub escrow_pda_ok: bool,
    pub asset_owner_is_escrow: bool,
    pub marketplace_min_price: u64,
    pub vault_lamports: u64,
    pub relist_rent: u64,
    /// The asset's original buy price marked up by the floor trend and
    /// discounted by its expire strikes after this one; the relist price is
    /// this, never below the marketplace minimum.
    pub marked_up_price: u64,
    pub now: i64,
}

/// What an expiry does with the asset after its listing is cancelled.
pub open spec fn expiry_disposition(entry: RebornEntry, lootbox: LootboxQueue, h: FloorHistory, inp: ExpiryInputs) -> Disposition {
    let strikes = if entry.expire_count == u8::MAX { u8::MAX as int } else { entry.expire_count + 1 };
    if strikes >= MAX_EXPIRES {
        Disposition::Burn
    } else {
        disposition_spec(lootbox.has_space(), trend_bps(h), inp.marked_up_price, inp.marketplace_min_price)
    }
}

/// The checks an expiry must pass, in order, with the error each raises.
pub open spec fn expiry_error(entry: RebornEntry, lootbox: LootboxQueue, h: FloorHistory, total: u64, inp: ExpiryInputs) -> Option<ErrorCode> {
    let strikes = if entry.expire_count == u8::MAX { u8::MAX as int } else { entry.expire_count + 1 };
    let checks_anchor = !lootbox.has_space() && strikes < MAX_EXPIRES;
    let will_relist = checks_anchor && trend_bps(h) >= BURN_TREND_BPS_THRESHOLD;
    let needed = inp.relist_rent + MIN_SWEEP_RESERVE_LAMPORTS + KEEPER_REWARD_LAMPORTS;
    let d = expiry_disposition(entry, lootbox, h, inp);
    if entry.status != RebornStatus::Listed {
        Some(ErrorCode::InvalidRebornStatus)
    } else if entry.asset != inp.asset_key {
        Some(ErrorCode::InvalidAccount)
    } else if entry.faction_id != lootbox.faction_id {
        Some(ErrorCode::InvalidFactionId)
    } else if inp.listing.seller != inp.inventory_key {
        Some(ErrorCode::NotProgramListing)
    } else if inp.listing.asset != inp.asset_key || !inp.listing_pda_ok || !inp.escrow_pda_ok {
        Some(ErrorCode::InvalidAccount)
    } else if !inp.asset_owner_is_escrow {
        Some(ErrorCode::StaleFloorEntry)
    } else if saturating_sub_i64(inp.now, inp.listing.created_at) < EXPIRE_GRACE_SECS {
        Some(ErrorCode::ListingNotYetExpirable)
    } else if checks_anchor && h.anchor() < SWEEP_MIN_ANCHOR_LAMPORTS {
        Some(ErrorCode::SweepAnchorTooLow)
    } else if checks_anchor && !anchor_fresh(h, inp.now) {
        Some(ErrorCode::FloorAnchorStale)
    } else if will_relist && needed > u64::MAX {
        Some(ErrorCode::ArithmeticOverflow)
    } else if will_relist && inp.vault_lamports < needed {
        Some(ErrorCode::SweepVaultBelowReserve)
    } else if d == Disposition::Burn && total == 0 {
        Some(ErrorCode::ArithmeticOverflow)
    } else {
        None
    }
}

/// Expires a stuck inventory listing after its grace period: counts a
/// strike, then burns the asset once strikes run out, reserves it as a
/// lootbox while the faction queue has space, burns it on a deep bear trend,
/// or relists it at the marked-up price. Returns the disposition; a burned
/// asset leaves the inventory count.
pub fn internal_expire_program_listing(
    entry: &mut RebornEntry,
    lootbox: &mut LootboxQueue,
    h: &FloorHistory,
    inventory_total_count: &mut u64,
    inp: ExpiryInputs,
) -> (r: Result<Disposition, ErrorCode>)
    requires
        old(lootbox).wf(),
        h.wf(),
    ensures
        final(lootbox).wf(),
        match expiry_error(*old(entry), *old(lootbox), *h, *old(inventory_total_count), inp) {
            Some(e) => r == Err::<Disposition, ErrorCode>(e),
            None => {
                let d = expiry_disposition(*old(entry), *old(lootbox), *h, inp);
                let strikes = if old(entry).expire_count == u8::MAX { u8::MAX } else { (old(entry).expire_count + 1) as u8 };
                &&& r == Ok::<Disposition, ErrorCode>(d)
                &&& final(entry).expire_count == strikes
                &&& final(entry).status == (if d == Disposition::Lootbox { RebornStatus::Lootbox } else { RebornStatus::Listed })
                &&& final(entry).listing_price == (match d { Disposition::Relist { price } => price, _ => 0 })
                &&& final(entry).asset == old(entry).asset
                &&& final(entry).faction_id == old(entry).faction_id
                &&& final(entry).original_buy_price == old(entry).original_buy_price
                &&& (d == Disposition::Lootbox ==> final(lootbox).slots@ == old(lootbox).slots@.update(old(lootbox).filled_count as int, old(entry).asset)
                    && final(lootbox).filled_count == old(lootbox).filled_count + 1)
                &&& (d != Disposition::Lootbox ==> *final(lootbox) == *old(lootbox))
                &&& *final(inventory_total_count) == *old(inventory_total_count) - if d == Disposition::Burn { 1int } else { 0int }
            },
        },
{
    if entry.status != RebornStatus::Listed {
        return Err(ErrorCode::InvalidRebornStatus);
    }
    if entry.asset != inp.asset_key {
        return Err(ErrorCode::InvalidAccount);
    }
    if entry.faction_id != lootbox.faction_id {
        return Err(ErrorCode::InvalidFactionId);
    }
    if inp.listing.seller != inp.inventory_key {
        return Err(ErrorCode::NotProgramListing);
    }
    if inp.listing.asset != inp.asset_key || !inp.listing_pda_ok || !inp.escrow_pda_ok {
        return Err(ErrorCode::InvalidAccount);
    }
    if !inp.asset_owner_is_escrow {
        return Err(ErrorCode::StaleFloorEntry);
    }
    if sat_sub_i64(inp.now, inp.listing.created_at) < EXPIRE_GRACE_SECS {
        return Err(ErrorCode::ListingNotYetExpirable);
    }
    let strikes = entry.expire_count.saturating_add(1);
    let has_space = (lootbox.filled_count as usize) < LOOTBOX_QUEUE_SIZE;
    let trend = compute_trend_bps(h);
    if !has_space && strikes < MAX_EXPIRES {
        if current_anchor(h) < SWEEP_MIN_ANCHOR_LAMPORTS {
            return Err(ErrorCode::SweepAnchorTooLow);
        }
        require_fresh_floor_anchor(h, inp.now)?;
    }
    let will_relist = !has_space && strikes < MAX_EXPIRES && trend >= BURN_TREND_BPS_THRESHOLD;
    if will_relist {
        let needed = match inp.relist_rent.checked_add(MIN_SWEEP_RESERVE_LAMPORTS) {
            Some(v) => match v.checked_add(KEEPER_REWARD_LAMPORTS) {
                Some(v2) => v2,
                None => return Err(ErrorCode::ArithmeticOverflow),
            },
            None => return Err(ErrorCode::ArithmeticOverflow),
        };
        if inp.vault_lamports < needed {
            return Err(ErrorCode::SweepVaultBelowReserve);
        }
    }
    let burn = strikes >= MAX_EXPIRES || (!has_space && trend < BURN_TREND_BPS_THRESHOLD);
    if burn && *inventory_total_count == 0 {
        return Err(ErrorCode::ArithmeticOverflow);
    }
    entry.expire_count = strikes;
    entry.listing_price = 0;
    if burn {
        *inventory_total_count = *inventory_total_count - 1;
        Ok(Disposition::Burn)
    } else if has_space {
        push_lootbox(lootbox, entry.asset);
        entry.status = RebornStatus::Lootbox;
        Ok(Disposition::Lootbox)
    } else {
        let price = if inp.marked_up_price >= inp.marketplace_min_price {
            inp.marked_up_price
        } else {
            inp.marketplace_min_price
        };
        entry.status = RebornStatus::Listed;
        entry.listing_price = price;
        Ok(Disposition::Relist { price })
    }
}

/// Splits the inventory's spendable lamports (above its rent-exempt minimum)
/// between the sweep vault and the treasury: `(to_sweep, to_protocol)`.
pub fn internal_handle_inventory_proceeds(lamports: u64, rent_exempt: u64) -> (r: (u64, u64))
    ensures
        r.0 == (if lamports >= rent_exempt { lamports - rent_exempt } else { 0 }) * INVENTORY_SWEEP_RESERVE_BPS as int / 10_000,
        r.0 + r.1 == if lamports >= rent_exempt { lamports - rent_exempt } else { 0 },
{
    let available = lamports.saturating_sub(rent_exempt);
    if available == 0 {
        return (0, 0);
    }
    proof {
        assert((available as int) * 5000 / 10_000 <= available) by (nonlinear_arith);
    }
    let to_sweep = (available / 10_000) * 5_000 + (available % 10_000) * 5_000 / 10_000;
    proof {
        assert(to_sweep == (available as int) * 5000 / 10_000) by (nonlinear_arith)
            requires
                to_sweep == (available as int / 10_000) * 5_000 + (available as int % 10_000) * 5_000 / 10_000,
                available >= 0;
    }
    (to_sweep, available - to_sweep)
}

/// Closes the record of a sold inventory asset: the asset must have left
/// both the inventory and the marketplace escrow.
pub fn internal_inventory_finalize_sale(
    entry: &RebornEntry,
    asset_key: Key,
    asset_owner: Key,
    inventory_key: Key,
    escrow_key: Key,
    inventory_total_count: u64,
) -> (r: Result<u64, ErrorCode>)
    ensures
        r == (if entry.status != RebornStatus::Listed {
            Err::<u64, ErrorCode>(ErrorCode::InvalidRebornStatus)
        } else if asset_key != entry.asset {
            Err(ErrorCode::InvalidAccount)
        } else if asset_owner == inventory_key {
            Err(ErrorCode::AssetStillOwnedByInventory)
        } else if asset_owner == escrow_key {
            Err(ErrorCode::AssetStillListed)
        } else if inventory_total_count == 0 {
            Err(ErrorCode::ArithmeticOverflow)
        } else {
            Ok((inventory_total_count - 1) as u64)
        }),
{
    if entry.status != RebornStatus::Listed {
        return Err(ErrorCode::InvalidRebornStatus);
    }
    if asset_key != entry.asset {
        return Err(ErrorCode::InvalidAccount);
    }
    if asset_owner == inventory_key {
        return Err(ErrorCode::AssetStillOwnedByInventory);
    }
    if asset_owner == escrow_key {
        return Err(ErrorCode::AssetStillListed);
    }
    if inventory_total_count == 0 {
        return Err(ErrorCode::ArithmeticOverflow);
    }
    Ok(inventory_total_count - 1)
}

/// A loser-roll reservation of a lootbox asset for a user.
#[derive(Debug, Clone, Copy, PartialEq, Eq, Structural)]
pub struct LootboxClaim {
    pub user: Key,
    pub asset: Key,
    pub faction_id: u8,
}

/// Checks a lootbox delivery: the reservation is the user's and for this
/// asset, the inventory holds the asset as a lootbox of the same faction.
/// Returns the inventory count after delivery.
pub fn internal_claim_lootbox_nft(
    claim: &LootboxClaim,
    entry: &RebornEntry,
    user: Key,
    asset_key: Key,
    has_collection: bool,
    asset_owner: Key,
    inventory_key: Key,
    inventory_total_count: u64,
) -> (r: Result<u64, ErrorCode>)
    ensures
        r == (if claim.user != user {
            Err::<u64, ErrorCode>(ErrorCode::InvalidOwner)
        } else if claim.asset != asset_key || asset_key.is_zero() {
            Err(ErrorCode::InvalidAccount)
        } else if entry.status != RebornStatus::Lootbox {
            Err(ErrorCode::InvalidRebornStatus)
        } else if entry.asset != asset_key {
            Err(ErrorCode::InvalidAccount)
        } else if entry.faction_id != claim.faction_id {
            Err(ErrorCode::InvalidFactionId)
        } else if !has_collection {
            Err(ErrorCode::InvalidAccount)
        } else if asset_owner != inventory_key {
            Err(ErrorCode::AssetNotInInventory)
        } else if inventory_total_count == 0 {
            Err(ErrorCode::ArithmeticOverflow)
        } else {
            Ok((inventory_total_count - 1) as u64)
        }),
{
    if claim.user != user {
        return Err(ErrorCode::InvalidOwner);
    }
    if claim.asset != asset_key || asset_key.is_default() {
        return Err(ErrorCode::InvalidAccount);
    }
    if entry.status != RebornStatus::Lootbox {
        return Err(ErrorCode::InvalidRebornStatus);
    }
    if entry.asset != asset_key {
        return Err(ErrorCode::InvalidAccount);
    }
    if entry.faction_id != claim.faction_id {
        return Err(ErrorCode::InvalidFactionId);
    }
    if !has_collection {
        return Err(ErrorCode::InvalidAccount);
    }
    if asset_owner != inventory_key {
        return Err(ErrorCode::AssetNotInInventory);
    }
    if inventory_total_count == 0 {
        return Err(ErrorCode::ArithmeticOverflow);
    }
    Ok(inventory_total_count - 1)
}


/// A user's marketplace listing, as read.
#[derive(Debug, Clone, Copy, PartialEq, Eq, Structural)]
pub struct UserListing {
    pub seller: Key,
    pub asset: Key,
    pub price: u64,
    pub created_at: i64,
}

/// Registers a live user listing in the floor queue (permissionless): the
/// listing must be the canonical one for a tracked-collection asset held in
/// escrow, not the inventory's own, and priced at least at the marketplace
/// minimum. Returns the queue index it took.
pub fn internal_register_floor_listing(
    q: &mut FloorQueue,
    listing_key: Key,
    listing: UserListing,
    asset_key: Key,
    metadata_mint: Key,
    collection_ok: bool,
    pdas_ok: bool,
    asset_owner_is_escrow: bool,
    inventory_key: Key,
    min_price: u64,
    now: i64,
) -> (r: Result<u8, ErrorCode>)
    requires
        old(q).wf(),
    ensures
        final(q).wf(),
        ({
            let e = FloorEntry { listing: listing_key, asset: asset_key, seller: listing.seller, price: listing.price, registered_at: now };
            if !collection_ok || listing.asset != asset_key || metadata_mint != asset_key || !pdas_ok {
                r == Err::<u8, ErrorCode>(ErrorCode::InvalidAccount)
            } else if !asset_owner_is_escrow {
                r == Err::<u8, ErrorCode>(ErrorCode::StaleFloorEntry)
            } else if listing.seller == inventory_key {
                r == Err::<u8, ErrorCode>(ErrorCode::ProgramListingNotAllowed)
            } else if listing.price < min_price {
                r == Err::<u8, ErrorCode>(ErrorCode::ListingPriceTooLow)
            } else {
                match insert_error(*old(q), e) {
                    Some(err) => r == Err::<u8, ErrorCode>(err),
                    None => r == Ok::<u8, ErrorCode>(first_dearer(old(q).live(), e.price, 0) as u8)
                        && final(q).live() == inserted(old(q).live(), e).take(final(q).entries_count as int),
                }
            }
        }),
{
    if !collection_ok || listing.asset != asset_key || metadata_mint != asset_key || !pdas_ok {
        return Err(ErrorCode::InvalidAccount);
    }
    if !asset_owner_is_escrow {
        return Err(ErrorCode::StaleFloorEntry);
    }
    if listing.seller == inventory_key {
        return Err(ErrorCode::ProgramListingNotAllowed);
    }
    if listing.price < min_price {
        return Err(ErrorCode::ListingPriceTooLow);
    }
    let e = FloorEntry {
        listing: listing_key,
        asset: asset_key,
        seller: listing.seller,
        price: listing.price,
        registered_at: now,
    };
    insert_floor_entry(q, e)
}

/// Drops the tracked entry of `asset` (after a cancel or a sale), returning
/// its former index.
pub fn untrack_asset(q: &mut FloorQueue, asset: Key) -> (r: Option<u8>)
    requires
        old(q).wf(),
    ensures
        final(q).wf(),
        r is None <==> !holds_asset(old(q).live(), asset),
        r is None ==> *final(q) == *old(q),
        r matches Some(i) ==> old(q).live()[i as int].asset == asset && final(q).live() == old(q).live().remove(i as int)
            && final(q).entries_count == old(q).entries_count - 1,
        !holds_asset(final(q).live(), asset),
{
    match find_floor_entry_by_asset(q, asset) {
        Some(i) => {
            proof {
                assert forall|t: int| 0 <= t < old(q).live().len() && t != i implies (#[trigger] old(q).live()[t]).asset != asset by {
                    if t < i {
                        assert(old(q).live()[t].asset != old(q).live()[i as int].asset);
                    } else {
                        assert(old(q).live()[i as int].asset != old(q).live()[t].asset);
                    }
                }
            }
            remove_floor_entry_at(q, i);
            proof {
                assert forall|t: int| 0 <= t < q.live().len() implies (#[trigger] q.live()[t]).asset != asset by {
                    let t0 = if t < i { t } else { t + 1 };
                    assert(q.live()[t] == old(q).live()[t0]);
                }
            }
            Some(i)
        },
        None => None,
    }
}

/// Checks a user's purchase of a listing before it is bought: the accounts
/// match the listing and the price is within the buyer's maximum.
pub fn check_user_purchase(
    listing: UserListing,
    seller_key: Key,
    asset_key: Key,
    pdas_ok: bool,
    collection_ok: bool,
    max_price: u64,
) -> (r: Result<(), ErrorCode>)
    ensures
        r == (if listing.seller != seller_key || listing.asset != asset_key || !pdas_ok || !collection_ok {
            Err::<(), ErrorCode>(ErrorCode::InvalidAccount)
        } else if listing.price > max_price {
            Err(ErrorCode::ListingPriceExceedsMax)
        } else {
            Ok(())
        }),
{
    if listing.seller != seller_key || listing.asset != asset_key || !pdas_ok || !collection_ok {
        return Err(ErrorCode::InvalidAccount);
    }
    if listing.price > max_price {
        return Err(ErrorCode::ListingPriceExceedsMax);
    }
    Ok(())
}

/// Books a completed user purchase: the asset leaves the floor queue, and a
/// qualifying user-to-user sale enters the sale history. Returns whether the
/// sale was recorded.
pub fn settle_user_purchase(
    q: &mut FloorQueue,
    sales: &mut SaleHistory,
    listing: UserListing,
    buyer: Key,
    inventory_key: Key,
    now: i64,
) -> (recorded: bool)
    requires
        old(q).wf(),
        old(sales).wf(),
        i64::MIN <= now - listing.created_at <= i64::MAX,
    ensures
        final(q).wf(),
        final(sales).wf(),
        !holds_asset(final(q).live(), listing.asset),
        holds_asset(old(q).live(), listing.asset) ==> final(q).entries_count == old(q).entries_count - 1,
        !holds_asset(old(q).live(), listing.asset) ==> *final(q) == *old(q),
        recorded == sale_qualifies_spec(listing.seller, buyer, inventory_key, now, listing.created_at),
        recorded ==> final(sales).entries@ == old(sales).entries@.update(
            old(sales).head as int % SALE_HISTORY_SIZE as int,
            SaleEntry { asset: listing.asset, price: listing.price, listed_at: listing.created_at, sold_at: now, buyer, seller: listing.seller },
        ),
        !recorded ==> *final(sales) == *old(sales),
{
    untrack_asset(q, listing.asset);
    let qualifies = sale_qualifies(listing.seller, buyer, inventory_key, now, listing.created_at);
    if qualifies {
        record_sale(
            sales,
            SaleEntry {
                asset: listing.asset,
                price: listing.price,
                listed_at: listing.created_at,
                sold_at: now,
                buyer,
                seller: listing.seller,
            },
        );
    }
    qualifies
}


/// The anchor guardrails: a first snapshot never starts above the
/// marketplace minimum; an existing anchor never rises by more than the
/// daily cap in one snapshot; and without enough sales, listings alone never
/// raise it at all.
pub proof fn lemma_snapshot_anchor_guardrails(
    prices: Seq<u64>,
    queue_median: u64,
    queue_count: u32,
    previous_anchor: u64,
    min_price: u64,
)
    ensures
        previous_anchor == 0 ==> snapshot_anchor(prices, queue_median, queue_count, previous_anchor, min_price).0 <= min_price,
        previous_anchor > 0 ==> snapshot_anchor(prices, queue_median, queue_count, previous_anchor, min_price).0
            <= previous_anchor + (previous_anchor as int) * (FLOOR_ANCHOR_MAX_UPWARD_MOVE_BPS as int) / 10_000,
        previous_anchor > 0 && prices.len() < MIN_SALES_FOR_ANCHOR ==> snapshot_anchor(prices, queue_median, queue_count, previous_anchor, min_price).0
            <= previous_anchor,
{
}

/// What a sweep that passes its checks spends: at most 5% above the anchor,
/// at most the per-sweep share of the vault, and never the vault's reserve
/// and keeper bounty; and it only buys while the inventory has room.
pub proof fn lemma_sweep_spending_bounded(head: FloorEntry, h: FloorHistory, lootbox: LootboxQueue, inp: SweepInputs)
    requires
        sweep_buy_error(head, h, lootbox, inp) is None,
    ensures
        head.price <= (h.anchor() as int) * (10_000 + SWEEP_ATTRACTIVE_BPS) / 10_000,
        head.price <= (inp.vault_lamports as int) * (SWEEP_MAX_PCT_BPS as int) / 10_000,
        inp.vault_lamports - head.price >= MIN_SWEEP_RESERVE_LAMPORTS + KEEPER_REWARD_LAMPORTS,
        inp.inventory_total_count < MAX_INVENTORY,
        anchor_fresh(h, inp.now),
{
}

} // verus!
