//! Plain-value models of the on-chain accounts that the game logic reads and writes.
use vstd::prelude::*;

use crate::constants::{DIRECTION_COUNT, NUM_FACTIONS};

verus! {

/// A 32-byte account address, held as four little-endian 64-bit words.
#[derive(Debug, Clone, Copy, PartialEq, Eq, Structural)]
pub struct Key {
    pub w0: u64,
    pub w1: u64,
    pub w2: u64,
    pub w3: u64,
}

impl Key {
    /// The all-zero address (the "unset" sentinel).
    pub fn zero() -> (k: Key)
        ensures
            k.is_zero(),
    {
        Key { w0: 0, w1: 0, w2: 0, w3: 0 }
    }

    pub open spec fn is_zero(self) -> bool {
        self.w0 == 0 && self.w1 == 0 && self.w2 == 0 && self.w3 == 0
    }

    pub fn is_default(&self) -> (b: bool)
        ensures
            b == self.is_zero(),
    {
        self.w0 == 0 && self.w1 == 0 && self.w2 == 0 && self.w3 == 0
    }

    /// Word `i` of the address (0 to 3).
    pub open spec fn word(self, i: int) -> u64 {
        if i == 0 {
            self.w0
        } else if i == 1 {
            self.w1
        } else if i == 2 {
            self.w2
        } else {
            self.w3
        }
    }

    /// The 32 address bytes: each word in turn, least significant byte first.
    pub open spec fn bytes(self) -> Seq<u8> {
        Seq::new(32, |k: int| ((self.word(k / 8) >> (((k % 8) * 8) as u64)) & 0xff) as u8)
    }

    /// The 32 address bytes.
    pub fn to_bytes(&self) -> (r: [u8; 32])
        ensures
            r@ == self.bytes(),
    {
        let mut out = [0u8; 32];
        let words: [u64; 4] = [self.w0, self.w1, self.w2, self.w3];
        let mut i: usize = 0;
        while i < 4
            invariant
                i <= 4,
                words@ == seq![self.w0, self.w1, self.w2, self.w3],
                out@.len() == 32,
                forall|k: int| 0 <= k < i * 8 ==> out@[k] == #[trigger] self.bytes()[k],
            decreases 4 - i,
        {
            let w = words[i];
            assert(w == self.word(i as int));
            let mut j: usize = 0;
            while j < 8
                invariant
                    i < 4,
                    j <= 8,
                    w == self.word(i as int),
                    out@.len() == 32,
                    forall|k: int| 0 <= k < i * 8 + j ==> out@[k] == #[trigger] self.bytes()[k],
                decreases 8 - j,
            {
                let shift: u64 = (j as u64) * 8;
                out[i * 8 + j] = ((w >> shift) & 0xff) as u8;
                proof {
                    let k = i * 8 + j;
                    assert(k / 8 == i && k % 8 == j);
                    assert(out@[k as int] == self.bytes()[k as int]);
                }
                j += 1;
            }
            i += 1;
        }
        assert(out@ =~= self.bytes());
        out
    }

    /// The address with the given 32 bytes (inverse of `to_bytes`).
    pub fn from_bytes(b: &[u8; 32]) -> (k: Key)
        ensures
            k.bytes() == b@,
    {
        let k = Key { w0: word_from_bytes(b, 0), w1: word_from_bytes(b, 1), w2: word_from_bytes(b, 2), w3: word_from_bytes(b, 3) };
        assert forall|n: int| 0 <= n < 32 implies #[trigger] k.bytes()[n] == b@[n] by {
            let i = n / 8;
            let j = n % 8;
            assert(n == i * 8 + j);
            assert(k.word(i) == word_of(b@, i));
        }
        assert(k.bytes() =~= b@);
        k
    }
}

/// The little-endian word made of bytes `8 * i` to `8 * i + 7` of `b`.
pub open spec fn word_of(b: Seq<u8>, i: int) -> u64 {
    (b[i * 8] as u64) | ((b[i * 8 + 1] as u64) << 8u64) | ((b[i * 8 + 2] as u64) << 16u64) | ((b[i * 8 + 3] as u64) << 24u64)
        | ((b[i * 8 + 4] as u64) << 32u64) | ((b[i * 8 + 5] as u64) << 40u64) | ((b[i * 8 + 6] as u64) << 48u64)
        | ((b[i * 8 + 7] as u64) << 56u64)
}

pub proof fn lemma_word_bytes(w: u64, b0: u8, b1: u8, b2: u8, b3: u8, b4: u8, b5: u8, b6: u8, b7: u8)
    by (bit_vector)
    requires
        w == (b0 as u64) | ((b1 as u64) << 8u64) | ((b2 as u64) << 16u64) | ((b3 as u64) << 24u64) | ((b4 as u64) << 32u64)
            | ((b5 as u64) << 40u64) | ((b6 as u64) << 48u64) | ((b7 as u64) << 56u64),
    ensures
        ((w >> 0u64) & 0xff) as u8 == b0,
        ((w >> 8u64) & 0xff) as u8 == b1,
        ((w >> 16u64) & 0xff) as u8 == b2,
        ((w >> 24u64) & 0xff) as u8 == b3,
        ((w >> 32u64) & 0xff) as u8 == b4,
        ((w >> 40u64) & 0xff) as u8 == b5,
        ((w >> 48u64) & 0xff) as u8 == b6,
        ((w >> 56u64) & 0xff) as u8 == b7,
{
}

pub proof fn lemma_word_from_its_bytes(w: u64)
    by (bit_vector)
    ensures
        w == (((w >> 0u64) & 0xff) as u8 as u64) | ((((w >> 8u64) & 0xff) as u8 as u64) << 8u64)
            | ((((w >> 16u64) & 0xff) as u8 as u64) << 16u64) | ((((w >> 24u64) & 0xff) as u8 as u64) << 24u64)
            | ((((w >> 32u64) & 0xff) as u8 as u64) << 32u64) | ((((w >> 40u64) & 0xff) as u8 as u64) << 40u64)
            | ((((w >> 48u64) & 0xff) as u8 as u64) << 48u64) | ((((w >> 56u64) & 0xff) as u8 as u64) << 56u64),
{
}

pub proof fn lemma_word_of_key_bytes(k: Key, i: int)
    requires
        0 <= i < 4,
    ensures
        word_of(k.bytes(), i) == k.word(i),
{
    let b = k.bytes();
    let w = k.word(i);
    assert(b[i * 8] == ((w >> 0u64) & 0xff) as u8);
    assert(b[i * 8 + 1] == ((w >> 8u64) & 0xff) as u8);
    assert(b[i * 8 + 2] == ((w >> 16u64) & 0xff) as u8);
    assert(b[i * 8 + 3] == ((w >> 24u64) & 0xff) as u8);
    assert(b[i * 8 + 4] == ((w >> 32u64) & 0xff) as u8);
    assert(b[i * 8 + 5] == ((w >> 40u64) & 0xff) as u8);
    assert(b[i * 8 + 6] == ((w >> 48u64) & 0xff) as u8);
    assert(b[i * 8 + 7] == ((w >> 56u64) & 0xff) as u8);
    lemma_word_from_its_bytes(w);
}

/// An address is determined by its 32 bytes: reading back the bytes an
/// address writes gives the same address.
pub proof fn lemma_key_bytes_roundtrip(k1: Key, k2: Key)
    requires
        k1.bytes() == k2.bytes(),
    ensures
        k1 == k2,
{
    lemma_word_of_key_bytes(k1, 0);
    lemma_word_of_key_bytes(k1, 1);
    lemma_word_of_key_bytes(k1, 2);
    lemma_word_of_key_bytes(k1, 3);
    lemma_word_of_key_bytes(k2, 0);
    lemma_word_of_key_bytes(k2, 1);
    lemma_word_of_key_bytes(k2, 2);
    lemma_word_of_key_bytes(k2, 3);
}

fn word_from_bytes(b: &[u8; 32], i: usize) -> (w: u64)
    requires
        i < 4,
    ensures
        w == word_of(b@, i as int),
        forall|j: int| 0 <= j < 8 ==> ((w >> ((j * 8) as u64)) & 0xff) as u8 == #[trigger] b@[i * 8 + j],
{
    let o = i * 8;
    let w = (b[o] as u64) | ((b[o + 1] as u64) << 8u64) | ((b[o + 2] as u64) << 16u64) | ((b[o + 3] as u64) << 24u64)
        | ((b[o + 4] as u64) << 32u64) | ((b[o + 5] as u64) << 40u64) | ((b[o + 6] as u64) << 48u64) | ((b[o + 7] as u64) << 56u64);
    proof {
        lemma_word_bytes(w, b[o as int], b[o + 1], b[o + 2], b[o + 3], b[o + 4], b[o + 5], b[o + 6], b[o + 7]);
        assert forall|j: int| 0 <= j < 8 implies ((w >> ((j * 8) as u64)) & 0xff) as u8 == #[trigger] b@[i * 8 + j] by {
            if j == 0 {
                assert((j * 8) as u64 == 0u64);
            } else if j == 1 {
                assert((j * 8) as u64 == 8u64);
            } else if j == 2 {
                assert((j * 8) as u64 == 16u64);
            } else if j == 3 {
                assert((j * 8) as u64 == 24u64);
            } else if j == 4 {
                assert((j * 8) as u64 == 32u64);
            } else if j == 5 {
                assert((j * 8) as u64 == 40u64);
            } else if j == 6 {
                assert((j * 8) as u64 == 48u64);
            } else {
                assert((j * 8) as u64 == 56u64);
            }
        }
    }
    w
}

pub const PROGRAM_ID_W0: u64 = 4172631483162041016;
pub const PROGRAM_ID_W1: u64 = 4168247642216434456;
pub const PROGRAM_ID_W2: u64 = 2638762696249210749;
pub const PROGRAM_ID_W3: u64 = 4162820782279942256;

/// Address of the game program that owns every account the logic reads.
pub fn program_id() -> (k: Key)
    ensures
        k == game_program(),
{
    Key { w0: PROGRAM_ID_W0, w1: PROGRAM_ID_W1, w2: PROGRAM_ID_W2, w3: PROGRAM_ID_W3 }
}

/// The game program's address, as a value of the model.
pub open spec fn game_program() -> Key {
    Key { w0: PROGRAM_ID_W0, w1: PROGRAM_ID_W1, w2: PROGRAM_ID_W2, w3: PROGRAM_ID_W3 }
}

/// The program-derived address of the seeds `prefix` and `seed` under
/// `program`, if the derivation finds a viable bump.
pub uninterp spec fn derived_address(prefix: Seq<u8>, seed: Seq<u8>, program: Key) -> Option<Key>;

/// Derives the address of the seeds `[prefix, seed]` under `program` with
/// `Pubkey::try_find_program_address` (anchor_lang's re-export of
/// solana-pubkey). The contract claims only that the result is a function of
/// the seeds and the program; `None` is the documented "no viable bump"
/// outcome.
#[verifier::external_body]
pub(crate) fn find_program_address(prefix: &[u8], seed: &[u8], program: Key) -> (r: Option<Key>)
    ensures
        r == derived_address(prefix@, seed@, program),
{
    let program = anchor_lang::prelude::Pubkey::new_from_array(program.to_bytes());
    let seeds: [&[u8]; 2] = [prefix, seed];
    anchor_lang::prelude::Pubkey::try_find_program_address(&seeds, &program).map(
        |found| Key::from_bytes(&found.0.to_bytes()),
    )
}

/// Which way a country moves (or is predicted to move) on the leaderboard.
#[derive(Debug, Clone, Copy, PartialEq, Eq, Structural)]
pub enum PredictionDirection {
    Up,
    Neutral,
    Down,
}

impl PredictionDirection {
    pub open spec fn index(self) -> nat {
        match self {
            PredictionDirection::Up => 0,
            PredictionDirection::Neutral => 1,
            PredictionDirection::Down => 2,
        }
    }

    /// Position of the direction in per-direction tables.
    pub fn as_index(&self) -> (i: usize)
        ensures
            i == self.index(),
            i < DIRECTION_COUNT,
    {
        match self {
            PredictionDirection::Up => 0,
            PredictionDirection::Neutral => 1,
            PredictionDirection::Down => 2,
        }
    }
}

/// One country + direction prediction.
#[derive(Debug, Clone, Copy, PartialEq, Eq, Structural)]
pub struct BetType {
    pub faction_id: u8,
    pub direction: PredictionDirection,
}

/// Index of a (faction, direction) cell in a flattened per-faction table.
pub open spec fn cell(faction: int, direction: int) -> int {
    faction * DIRECTION_COUNT + direction
}

pub fn cell_index(faction: usize, direction: usize) -> (i: usize)
    requires
        faction < NUM_FACTIONS,
        direction < DIRECTION_COUNT,
    ensures
        i == cell(faction as int, direction as int),
        i < NUM_FACTIONS * DIRECTION_COUNT,
{
    faction * 3 + direction
}

/// One staking lane of a player (degenBTC or LP): the open position slots,
/// the hashpower and stake they give, and the reward debts per index.
#[derive(Debug, Clone)]
pub struct StakeLane {
    pub position_indices: Vec<u8>,
    pub hashpower: u64,
    pub staked: u64,
    pub sol_reward_debt: u128,
    pub dbtc_reward_debt: u128,
}

/// One staking lane of a faction: totals and the reward indexes per unit of
/// hashpower.
#[derive(Debug, Clone, Copy, PartialEq, Eq, Structural)]
pub struct FactionLane {
    pub staked: u64,
    pub hashpower: u64,
    pub sol_reward_index: u128,
    pub dbtc_reward_index: u128,
}

/// A faction's staking state.
#[derive(Debug, Clone, Copy, PartialEq, Eq, Structural)]
pub struct FactionState {
    pub faction_id: u8,
    pub hashbeasts_staked: u64,
    pub hashbeasts_playing: u64,
    pub degenbtc: FactionLane,
    pub lp: FactionLane,
}

/// The player's account: home faction, referral link, staking positions,
/// passive and gameplay HashBeast state, tickets and pending rewards.
#[derive(Debug, Clone)]
pub struct PlayerData {
    pub owner: Key,
    pub bump: u8,
    pub faction_id: u8,
    pub origin_faction_id: u8,
    /// Whether anyone may crank this player's reward claims.
    pub allow_bots_to_claim: bool,
    pub referral_code: Key,
    pub referrer_faction_id: u8,
    /// Staking of degenBTC: positions, hashpower, stake and reward debts.
    pub degenbtc: StakeLane,
    /// Staking of LP tokens, kept the same way.
    pub lp: StakeLane,
    pub staked_hashbeasts: Vec<Key>,
    pub hashbeast_multiplier: u16,
    pub active_multiplier: u32,
    pub pending_sol_rewards: u64,
    pub pending_dbtc_rewards: u64,
    pub pending_staking_dbtc_rewards: u64,
    pub unrefined_dbtc_rewards: u64,
    pub hodl_tax_index: u128,
    pub free_tickets: Vec<u64>,
    pub free_tickets_remaining: Vec<u64>,
    pub gameplay_hashbeast: Key,
    pub gameplay_hashbeast_dna: [u8; 32],
    pub gameplay_hashbeast_xp: u64,
    pub gameplay_unlock_request_faction_war: u64,
    pub current_war_score: u64,
    pub current_war_score_cycle_id: u64,
    pub pending_round_claims: u64,
    pub pending_war_claims: u64,
    pub pending_rebase_claims: u64,
}

} // verus!
