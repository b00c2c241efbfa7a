//! The four ledger record types (`Config`, `Bus`, `MinerState`,
//! `RewardState`) plus the standalone `MineState` record, each with its
//! fixed little-endian byte layout: a mathematical view, an encoder, and a
//! validating decoder. Every field is fixed-width, so a buffer is accepted
//! exactly when its length matches the record's layout.

use vstd::prelude::*;
use vstd::bytes::{
    lemma_auto_spec_u64_to_from_le_bytes, spec_u64_from_le_bytes, spec_u64_to_le_bytes,
};
use crate::codec::{
    copy_range, push_bytes, read_i64_le, read_u64_le, spec_i64_from_le_bytes,
    spec_i64_to_le_bytes, write_i64_le, write_u64_le, lemma_i64_le_bytes_round_trip,
};
use crate::error::MineError;

verus! {

/// Encoded length of a `Config` record.
pub const CONFIG_LEN: usize = 96;

/// Encoded length of a `Bus` record.
pub const BUS_LEN: usize = 16;

/// Encoded length of a `MinerState` record.
pub const MINER_STATE_LEN: usize = 168;

/// Encoded length of a `RewardState` record.
pub const REWARD_STATE_LEN: usize = 344;

/// Encoded length of a `MineState` record.
pub const MINE_STATE_LEN: usize = 56;

// ----------------------------------------------------------------------
// Config
// ----------------------------------------------------------------------

/// Deployment-wide settings; mutated only by the authority at epoch resets.
#[derive(Debug)]
pub struct Config {
    /// Identity allowed to reset epochs (32 bytes).
    pub authority: Vec<u8>,
    /// Identity of the reward token (32 bytes).
    pub mint: Vec<u8>,
    /// Timestamp anchoring the current epoch.
    pub last_reset_at: i64,
    /// Leading zero bits a candidate hash must reach.
    pub min_difficulty: u64,
    /// Reward units paid per unit of required difficulty.
    pub base_reward_rate: u64,
    /// Highest leaderboard reward seen at the last reset.
    pub top_balance: u64,
}

/// Mathematical image of a `Config`.
pub struct ConfigV {
    pub authority: Seq<u8>,
    pub mint: Seq<u8>,
    pub last_reset_at: i64,
    pub min_difficulty: u64,
    pub base_reward_rate: u64,
    pub top_balance: u64,
}

impl View for Config {
    type V = ConfigV;

    open spec fn view(&self) -> ConfigV {
        ConfigV {
            authority: self.authority@,
            mint: self.mint@,
            last_reset_at: self.last_reset_at,
            min_difficulty: self.min_difficulty,
            base_reward_rate: self.base_reward_rate,
            top_balance: self.top_balance,
        }
    }
}

impl ConfigV {
    /// Structural validity: both identities are 32 bytes wide.
    pub open spec fn wf(self) -> bool {
        self.authority.len() == 32 && self.mint.len() == 32
    }
}

/// The byte image of a `Config` view under the fixed layout.
pub open spec fn spec_config_bytes(c: ConfigV) -> Seq<u8> {
    c.authority + c.mint + spec_i64_to_le_bytes(c.last_reset_at)
        + spec_u64_to_le_bytes(c.min_difficulty) + spec_u64_to_le_bytes(c.base_reward_rate)
        + spec_u64_to_le_bytes(c.top_balance)
}

/// The `Config` view read from a 96-byte buffer.
pub open spec fn spec_config_of(b: Seq<u8>) -> ConfigV {
    ConfigV {
        authority: b.subrange(0, 32),
        mint: b.subrange(32, 64),
        last_reset_at: spec_i64_from_le_bytes(b.subrange(64, 72)),
        min_difficulty: spec_u64_from_le_bytes(b.subrange(72, 80)),
        base_reward_rate: spec_u64_from_le_bytes(b.subrange(80, 88)),
        top_balance: spec_u64_from_le_bytes(b.subrange(88, 96)),
    }
}

/// A well-formed `Config` survives encode-then-decode unchanged.
pub proof fn lemma_config_round_trip(c: ConfigV)
    requires
        c.wf(),
    ensures
        spec_config_bytes(c).len() == CONFIG_LEN,
        spec_config_of(spec_config_bytes(c)) == c,
{
    lemma_auto_spec_u64_to_from_le_bytes();
    lemma_i64_le_bytes_round_trip(c.last_reset_at);
    let b = spec_config_bytes(c);
    assert(b.subrange(0, 32) =~= c.authority);
    assert(b.subrange(32, 64) =~= c.mint);
    assert(b.subrange(64, 72) =~= spec_i64_to_le_bytes(c.last_reset_at));
    assert(b.subrange(72, 80) =~= spec_u64_to_le_bytes(c.min_difficulty));
    assert(b.subrange(80, 88) =~= spec_u64_to_le_bytes(c.base_reward_rate));
    assert(b.subrange(88, 96) =~= spec_u64_to_le_bytes(c.top_balance));
}

impl Config {
    /// Decode a `Config` from its fixed 96-byte layout; any other length is
    /// structurally invalid.
    pub fn try_from_bytes(data: &Vec<u8>) -> (r: Result<Config, MineError>)
        ensures
            data@.len() == CONFIG_LEN ==> (r matches Ok(c) && c@ == spec_config_of(data@)
                && c@.wf()),
            data@.len() != CONFIG_LEN ==> r == Err::<Config, MineError>(
                MineError::InvalidAccountData,
            ),
    {
        if data.len() != CONFIG_LEN {
            return Err(MineError::InvalidAccountData);
        }
        let c = Config {
            authority: copy_range(data, 0, 32),
            mint: copy_range(data, 32, 32),
            last_reset_at: read_i64_le(data, 64),
            min_difficulty: read_u64_le(data, 72),
            base_reward_rate: read_u64_le(data, 80),
            top_balance: read_u64_le(data, 88),
        };
        Ok(c)
    }

    /// Encode this record into its fixed 96-byte layout.
    pub fn to_bytes(&self) -> (r: Vec<u8>)
        ensures
            r@ == spec_config_bytes(self@),
    {
        let mut out: Vec<u8> = Vec::new();
        push_bytes(&mut out, &self.authority);
        push_bytes(&mut out, &self.mint);
        write_i64_le(&mut out, self.last_reset_at);
        write_u64_le(&mut out, self.min_difficulty);
        write_u64_le(&mut out, self.base_reward_rate);
        write_u64_le(&mut out, self.top_balance);
        proof {
            assert(out@ =~= spec_config_bytes(self@));
        }
        out
    }
}

// ----------------------------------------------------------------------
// Bus
// ----------------------------------------------------------------------

/// One independent reward-pool shard; its remaining allocation can never go
/// below zero because a debit is applied only when it is covered.
#[derive(Clone, Copy, PartialEq, Eq, Structural, Debug)]
pub struct Bus {
    /// Shard index.
    pub id: u64,
    /// Remaining reward allocation of this shard.
    pub rewards: u64,
}

/// The byte image of a `Bus` under the fixed layout.
pub open spec fn spec_bus_bytes(b: Bus) -> Seq<u8> {
    spec_u64_to_le_bytes(b.id) + spec_u64_to_le_bytes(b.rewards)
}

/// The `Bus` read from a 16-byte buffer.
pub open spec fn spec_bus_of(s: Seq<u8>) -> Bus {
    Bus {
        id: spec_u64_from_le_bytes(s.subrange(0, 8)),
        rewards: spec_u64_from_le_bytes(s.subrange(8, 16)),
    }
}

/// A `Bus` survives encode-then-decode unchanged.
pub proof fn lemma_bus_round_trip(b: Bus)
    ensures
        spec_bus_bytes(b).len() == BUS_LEN,
        spec_bus_of(spec_bus_bytes(b)) == b,
{
    lemma_auto_spec_u64_to_from_le_bytes();
    let s = spec_bus_bytes(b);
    assert(s.subrange(0, 8) =~= spec_u64_to_le_bytes(b.id));
    assert(s.subrange(8, 16) =~= spec_u64_to_le_bytes(b.rewards));
}

impl Bus {
    /// Decode a `Bus` from its fixed 16-byte layout.
    pub fn try_from_bytes(data: &Vec<u8>) -> (r: Result<Bus, MineError>)
        ensures
            data@.len() == BUS_LEN ==> r == Ok::<Bus, MineError>(spec_bus_of(data@)),
            data@.len() != BUS_LEN ==> r == Err::<Bus, MineError>(MineError::InvalidAccountData),
    {
        if data.len() != BUS_LEN {
            return Err(MineError::InvalidAccountData);
        }
        Ok(Bus { id: read_u64_le(data, 0), rewards: read_u64_le(data, 8) })
    }

    /// Encode this record into its fixed 16-byte layout.
    pub fn to_bytes(&self) -> (r: Vec<u8>)
        ensures
            r@ == spec_bus_bytes(*self),
    {
        let mut out: Vec<u8> = Vec::new();
        write_u64_le(&mut out, self.id);
        write_u64_le(&mut out, self.rewards);
        proof {
            assert(out@ =~= spec_bus_bytes(*self));
        }
        out
    }
}

// ----------------------------------------------------------------------
// MinerState
// ----------------------------------------------------------------------

/// Per-participant record; mutated only by accepted `Mine` calls from its
/// own authority (and by `Auth`, which rebinds the linkage fields).
#[derive(Debug)]
pub struct MinerState {
    /// Identity whose signature authorizes submissions (32 bytes).
    pub authority: Vec<u8>,
    /// Identity credited with the rewards (32 bytes).
    pub miner: Vec<u8>,
    /// Spendable balance credited so far.
    pub balance: u64,
    /// Candidate hash of the last accepted submission (32 bytes).
    pub last_hash: Vec<u8>,
    /// Timestamp of the last accepted submission.
    pub last_hash_at: i64,
    /// Timestamp of the last stake movement.
    pub last_stake_at: i64,
    /// Number of accepted submissions.
    pub total_hashes: u64,
    /// Total reward units ever credited.
    pub total_rewards: u64,
    /// Value the next submission must extend (32 bytes).
    pub challenge: Vec<u8>,
}

/// Mathematical image of a `MinerState`.
pub struct MinerStateV {
    pub authority: Seq<u8>,
    pub miner: Seq<u8>,
    pub balance: u64,
    pub last_hash: Seq<u8>,
    pub last_hash_at: i64,
    pub last_stake_at: i64,
    pub total_hashes: u64,
    pub total_rewards: u64,
    pub challenge: Seq<u8>,
}

impl View for MinerState {
    type V = MinerStateV;

    open spec fn view(&self) -> MinerStateV {
        MinerStateV {
            authority: self.authority@,
            miner: self.miner@,
            balance: self.balance,
            last_hash: self.last_hash@,
            last_hash_at: self.last_hash_at,
            last_stake_at: self.last_stake_at,
            total_hashes: self.total_hashes,
            total_rewards: self.total_rewards,
            challenge: self.challenge@,
        }
    }
}

impl MinerStateV {
    /// Structural validity: every identity and hash field is 32 bytes wide.
    pub open spec fn wf(self) -> bool {
        self.authority.len() == 32 && self.miner.len() == 32 && self.last_hash.len() == 32
            && self.challenge.len() == 32
    }
}

/// The byte image of a `MinerState` view under the fixed layout.
pub open spec fn spec_miner_state_bytes(m: MinerStateV) -> Seq<u8> {
    m.authority + m.miner + spec_u64_to_le_bytes(m.balance) + m.last_hash
        + spec_i64_to_le_bytes(m.last_hash_at) + spec_i64_to_le_bytes(m.last_stake_at)
        + spec_u64_to_le_bytes(m.total_hashes) + spec_u64_to_le_bytes(m.total_rewards)
        + m.challenge
}

/// The `MinerState` view read from a 168-byte buffer.
pub open spec fn spec_miner_state_of(b: Seq<u8>) -> MinerStateV {
    MinerStateV {
        authority: b.subrange(0, 32),
        miner: b.subrange(32, 64),
        balance: spec_u64_from_le_bytes(b.subrange(64, 72)),
        last_hash: b.subrange(72, 104),
        last_hash_at: spec_i64_from_le_bytes(b.subrange(104, 112)),
        last_stake_at: spec_i64_from_le_bytes(b.subrange(112, 120)),
        total_hashes: spec_u64_from_le_bytes(b.subrange(120, 128)),
        total_rewards: spec_u64_from_le_bytes(b.subrange(128, 136)),
        challenge: b.subrange(136, 168),
    }
}

/// A well-formed `MinerState` survives encode-then-decode unchanged.
pub proof fn lemma_miner_state_round_trip(m: MinerStateV)
    requires
        m.wf(),
    ensures
        spec_miner_state_bytes(m).len() == MINER_STATE_LEN,
        spec_miner_state_of(spec_miner_state_bytes(m)) == m,
{
    lemma_auto_spec_u64_to_from_le_bytes();
    lemma_i64_le_bytes_round_trip(m.last_hash_at);
    lemma_i64_le_bytes_round_trip(m.last_stake_at);
    let b = spec_miner_state_bytes(m);
    assert(b.subrange(0, 32) =~= m.authority);
    assert(b.subrange(32, 64) =~= m.miner);
    assert(b.subrange(64, 72) =~= spec_u64_to_le_bytes(m.balance));
    assert(b.subrange(72, 104) =~= m.last_hash);
    assert(b.subrange(104, 112) =~= spec_i64_to_le_bytes(m.last_hash_at));
    assert(b.subrange(112, 120) =~= spec_i64_to_le_bytes(m.last_stake_at));
    assert(b.subrange(120, 128) =~= spec_u64_to_le_bytes(m.total_hashes));
    assert(b.subrange(128, 136) =~= spec_u64_to_le_bytes(m.total_rewards));
    assert(b.subrange(136, 168) =~= m.challenge);
}

impl MinerState {
    /// Decode a `MinerState` from its fixed 168-byte layout.
    pub fn try_from_bytes(data: &Vec<u8>) -> (r: Result<MinerState, MineError>)
        ensures
            data@.len() == MINER_STATE_LEN ==> (r matches Ok(m) && m@ == spec_miner_state_of(
                data@,
            ) && m@.wf()),
            data@.len() != MINER_STATE_LEN ==> r == Err::<MinerState, MineError>(
                MineError::InvalidAccountData,
            ),
    {
        if data.len() != MINER_STATE_LEN {
            return Err(MineError::InvalidAccountData);
        }
        let m = MinerState {
            authority: copy_range(data, 0, 32),
            miner: copy_range(data, 32, 32),
            balance: read_u64_le(data, 64),
            last_hash: copy_range(data, 72, 32),
            last_hash_at: read_i64_le(data, 104),
            last_stake_at: read_i64_le(data, 112),
            total_hashes: read_u64_le(data, 120),
            total_rewards: read_u64_le(data, 128),
            challenge: copy_range(data, 136, 32),
        };
        Ok(m)
    }

    /// Encode this record into its fixed 168-byte layout.
    pub fn to_bytes(&self) -> (r: Vec<u8>)
        ensures
            r@ == spec_miner_state_bytes(self@),
    {
        let mut out: Vec<u8> = Vec::new();
        push_bytes(&mut out, &self.authority);
        push_bytes(&mut out, &self.miner);
        write_u64_le(&mut out, self.balance);
        push_bytes(&mut out, &self.last_hash);
        write_i64_le(&mut out, self.last_hash_at);
        write_i64_le(&mut out, self.last_stake_at);
        write_u64_le(&mut out, self.total_hashes);
        write_u64_le(&mut out, self.total_rewards);
        push_bytes(&mut out, &self.challenge);
        proof {
            assert(out@ =~= spec_miner_state_bytes(self@));
        }
        out
    }
}

// ----------------------------------------------------------------------
// RewardState
// ----------------------------------------------------------------------

/// The leaderboard snapshot: two parallel eight-slot arrays, kept sorted
/// descending by reward.
#[derive(Debug)]
pub struct RewardState {
    /// Epoch counter of the snapshot.
    pub id: u64,
    /// Reward units accumulated across snapshots.
    pub rewards: u64,
    /// Reward units already claimed.
    pub claimed: u64,
    /// Identities of the best eight miners (32 bytes each).
    pub top_miners: Vec<Vec<u8>>,
    /// Their reward totals, parallel to `top_miners`.
    pub top_rewards: Vec<u64>,
}

/// Mathematical image of a `RewardState`.
pub struct RewardStateV {
    pub id: u64,
    pub rewards: u64,
    pub claimed: u64,
    pub top_miners: Seq<Seq<u8>>,
    pub top_rewards: Seq<u64>,
}

impl View for RewardState {
    type V = RewardStateV;

    open spec fn view(&self) -> RewardStateV {
        RewardStateV {
            id: self.id,
            rewards: self.rewards,
            claimed: self.claimed,
            top_miners: self.top_miners.deep_view(),
            top_rewards: self.top_rewards@,
        }
    }
}

impl RewardStateV {
    /// Structural validity: both arrays hold exactly eight slots and every
    /// identity is 32 bytes wide.
    pub open spec fn wf(self) -> bool {
        self.top_miners.len() == 8 && self.top_rewards.len() == 8 && (forall|i: int|
            0 <= i < 8 ==> #[trigger] self.top_miners[i].len() == 32)
    }

    /// The leaderboard is sorted descending by reward.
    pub open spec fn sorted(self) -> bool {
        forall|i: int, j: int|
            0 <= i <= j < self.top_rewards.len() ==> self.top_rewards[i] >= self.top_rewards[j]
    }
}

/// The byte image of a `RewardState` view under the fixed layout.
pub open spec fn spec_reward_state_bytes(r: RewardStateV) -> Seq<u8> {
    spec_u64_to_le_bytes(r.id) + spec_u64_to_le_bytes(r.rewards) + spec_u64_to_le_bytes(r.claimed)
        + r.top_miners[0] + r.top_miners[1] + r.top_miners[2] + r.top_miners[3] + r.top_miners[4]
        + r.top_miners[5] + r.top_miners[6] + r.top_miners[7]
        + spec_u64_to_le_bytes(r.top_rewards[0]) + spec_u64_to_le_bytes(r.top_rewards[1])
        + spec_u64_to_le_bytes(r.top_rewards[2]) + spec_u64_to_le_bytes(r.top_rewards[3])
        + spec_u64_to_le_bytes(r.top_rewards[4]) + spec_u64_to_le_bytes(r.top_rewards[5])
        + spec_u64_to_le_bytes(r.top_rewards[6]) + spec_u64_to_le_bytes(r.top_rewards[7])
}

/// The `RewardState` view read from a 344-byte buffer.
pub open spec fn spec_reward_state_of(b: Seq<u8>) -> RewardStateV {
    RewardStateV {
        id: spec_u64_from_le_bytes(b.subrange(0, 8)),
        rewards: spec_u64_from_le_bytes(b.subrange(8, 16)),
        claimed: spec_u64_from_le_bytes(b.subrange(16, 24)),
        top_miners: Seq::new(8, |i: int| b.subrange(24 + 32 * i, 56 + 32 * i)),
        top_rewards: Seq::new(
            8,
            |i: int| spec_u64_from_le_bytes(b.subrange(280 + 8 * i, 288 + 8 * i)),
        ),
    }
}

/// A well-formed `RewardState` survives encode-then-decode unchanged.
pub proof fn lemma_reward_state_round_trip(r: RewardStateV)
    requires
        r.wf(),
    ensures
        spec_reward_state_bytes(r).len() == REWARD_STATE_LEN,
        spec_reward_state_of(spec_reward_state_bytes(r)) == r,
{
    lemma_auto_spec_u64_to_from_le_bytes();
    let b = spec_reward_state_bytes(r);
    let d = spec_reward_state_of(b);
    assert(b.subrange(0, 8) =~= spec_u64_to_le_bytes(r.id));
    assert(b.subrange(8, 16) =~= spec_u64_to_le_bytes(r.rewards));
    assert(b.subrange(16, 24) =~= spec_u64_to_le_bytes(r.claimed));
    assert forall|i: int| 0 <= i < 8 implies #[trigger] d.top_miners[i] == r.top_miners[i] by {
        assert(b.subrange(24 + 32 * i, 56 + 32 * i) =~= r.top_miners[i]);
    }
    assert forall|i: int| 0 <= i < 8 implies #[trigger] d.top_rewards[i] == r.top_rewards[i] by {
        assert(b.subrange(280 + 8 * i, 288 + 8 * i) =~= spec_u64_to_le_bytes(r.top_rewards[i]));
    }
    assert(d.top_miners =~= r.top_miners);
    assert(d.top_rewards =~= r.top_rewards);
}

impl RewardState {
    /// Decode a `RewardState` from its fixed 344-byte layout.
    pub fn try_from_bytes(data: &Vec<u8>) -> (r: Result<RewardState, MineError>)
        ensures
            data@.len() == REWARD_STATE_LEN ==> (r matches Ok(s) && s@ == spec_reward_state_of(
                data@,
            ) && s@.wf()),
            data@.len() != REWARD_STATE_LEN ==> r == Err::<RewardState, MineError>(
                MineError::InvalidAccountData,
            ),
    {
        if data.len() != REWARD_STATE_LEN {
            return Err(MineError::InvalidAccountData);
        }
        let mut top_miners: Vec<Vec<u8>> = Vec::new();
        let mut i: usize = 0;
        while i < 8
            invariant
                i <= 8,
                data@.len() == REWARD_STATE_LEN,
                top_miners@.len() == i,
                forall|k: int|
                    0 <= k < i ==> #[trigger] top_miners@[k]@ == data@.subrange(
                        24 + 32 * k,
                        56 + 32 * k,
                    ),
            decreases 8 - i,
        {
            top_miners.push(copy_range(data, 24 + 32 * i, 32));
            i += 1;
        }
        let mut top_rewards: Vec<u64> = Vec::new();
        let mut j: usize = 0;
        while j < 8
            invariant
                j <= 8,
                data@.len() == REWARD_STATE_LEN,
                top_rewards@.len() == j,
                forall|k: int|
                    0 <= k < j ==> #[trigger] top_rewards@[k] == spec_u64_from_le_bytes(
                        data@.subrange(280 + 8 * k, 288 + 8 * k),
                    ),
            decreases 8 - j,
        {
            top_rewards.push(read_u64_le(data, 280 + 8 * j));
            j += 1;
        }
        let s = RewardState {
            id: read_u64_le(data, 0),
            rewards: read_u64_le(data, 8),
            claimed: read_u64_le(data, 16),
            top_miners,
            top_rewards,
        };
        proof {
            assert forall|k: int| 0 <= k < 8 implies #[trigger] s@.top_miners[k]
                == data@.subrange(24 + 32 * k, 56 + 32 * k) by {
                assert(s@.top_miners[k] =~= s.top_miners@[k]@);
            }
            assert(s@.top_miners =~= spec_reward_state_of(data@).top_miners);
            assert(s@.top_rewards =~= spec_reward_state_of(data@).top_rewards);
        }
        Ok(s)
    }

    /// Encode this record into its fixed 344-byte layout.
    pub fn to_bytes(&self) -> (r: Vec<u8>)
        requires
            self@.wf(),
        ensures
            r@ == spec_reward_state_bytes(self@),
            r@.len() == REWARD_STATE_LEN,
    {
        let mut out: Vec<u8> = Vec::new();
        write_u64_le(&mut out, self.id);
        write_u64_le(&mut out, self.rewards);
        write_u64_le(&mut out, self.claimed);
        let mut i: usize = 0;
        while i < 8
            invariant
                i <= 8,
                self@.wf(),
                out@ == spec_u64_to_le_bytes(self@.id) + spec_u64_to_le_bytes(self@.rewards)
                    + spec_u64_to_le_bytes(self@.claimed) + spec_pubkeys_prefix(
                    self@.top_miners,
                    i as int,
                ),
            decreases 8 - i,
        {
            push_bytes(&mut out, &self.top_miners[i]);
            proof {
                assert(self.top_miners.deep_view()[i as int] =~= self.top_miners@[i as int]@);
                assert(spec_pubkeys_prefix(self@.top_miners, i as int) + self@.top_miners[i as int]
                    =~= spec_pubkeys_prefix(self@.top_miners, i as int + 1));
                assert(out@ =~= spec_u64_to_le_bytes(self@.id) + spec_u64_to_le_bytes(self@.rewards)
                    + spec_u64_to_le_bytes(self@.claimed) + spec_pubkeys_prefix(
                    self@.top_miners,
                    i as int + 1,
                ));
            }
            i += 1;
        }
        let mut j: usize = 0;
        while j < 8
            invariant
                j <= 8,
                self@.wf(),
                out@ == spec_u64_to_le_bytes(self@.id) + spec_u64_to_le_bytes(self@.rewards)
                    + spec_u64_to_le_bytes(self@.claimed) + spec_pubkeys_prefix(self@.top_miners, 8)
                    + spec_rewards_prefix(self@.top_rewards, j as int),
            decreases 8 - j,
        {
            write_u64_le(&mut out, self.top_rewards[j]);
            proof {
                assert(spec_rewards_prefix(self@.top_rewards, j as int) + spec_u64_to_le_bytes(
                    self@.top_rewards[j as int],
                ) =~= spec_rewards_prefix(self@.top_rewards, j as int + 1));
                assert(out@ =~= spec_u64_to_le_bytes(self@.id) + spec_u64_to_le_bytes(
                    self@.rewards,
                ) + spec_u64_to_le_bytes(self@.claimed) + spec_pubkeys_prefix(self@.top_miners, 8)
                    + spec_rewards_prefix(self@.top_rewards, j as int + 1));
            }
            j += 1;
        }
        proof {
            lemma_auto_spec_u64_to_from_le_bytes();
            reveal_with_fuel(spec_pubkeys_prefix, 9);
            reveal_with_fuel(spec_rewards_prefix, 9);
            assert(out@ =~= spec_reward_state_bytes(self@));
        }
        out
    }
}

/// Bridge between the element views of a vector of byte vectors and its
/// deep view: they agree pointwise.
pub proof fn lemma_deep_view_bytes(v: Vec<Vec<u8>>)
    ensures
        v.deep_view().len() == v@.len(),
        forall|i: int| 0 <= i < v@.len() ==> #[trigger] v.deep_view()[i] == v@[i]@,
{
    assert forall|i: int| 0 <= i < v@.len() implies #[trigger] v.deep_view()[i] == v@[i]@ by {
        assert(v@[i].deep_view() =~= v@[i]@);
    }
}

/// The concatenated bytes of the first `n` leaderboard identities.
pub open spec fn spec_pubkeys_prefix(s: Seq<Seq<u8>>, n: int) -> Seq<u8>
    decreases n,
{
    if n <= 0 {
        Seq::empty()
    } else {
        spec_pubkeys_prefix(s, n - 1) + s[n - 1]
    }
}

/// The concatenated little-endian bytes of the first `n` leaderboard rewards.
pub open spec fn spec_rewards_prefix(s: Seq<u64>, n: int) -> Seq<u8>
    decreases n,
{
    if n <= 0 {
        Seq::empty()
    } else {
        spec_rewards_prefix(s, n - 1) + spec_u64_to_le_bytes(s[n - 1])
    }
}

// ----------------------------------------------------------------------
// MineState
// ----------------------------------------------------------------------

/// The standalone mining record: a difficulty setting, a running effort
/// counter, the hash the next proof must extend, and a reward pool.
#[derive(Debug)]
pub struct MineState {
    /// Current difficulty setting.
    pub difficulty: u64,
    /// Number of accepted proofs.
    pub total_effort: u64,
    /// Hash of the last accepted proof (32 bytes).
    pub last_block_hash: Vec<u8>,
    /// Remaining reward units.
    pub reward_pool: u64,
}

/// Mathematical image of a `MineState`.
pub struct MineStateV {
    pub difficulty: u64,
    pub total_effort: u64,
    pub last_block_hash: Seq<u8>,
    pub reward_pool: u64,
}

impl View for MineState {
    type V = MineStateV;

    open spec fn view(&self) -> MineStateV {
        MineStateV {
            difficulty: self.difficulty,
            total_effort: self.total_effort,
            last_block_hash: self.last_block_hash@,
            reward_pool: self.reward_pool,
        }
    }
}

impl MineStateV {
    /// Structural validity: the stored hash is 32 bytes wide.
    pub open spec fn wf(self) -> bool {
        self.last_block_hash.len() == 32
    }
}

/// The byte image of a `MineState` view under the fixed layout.
pub open spec fn spec_mine_state_bytes(m: MineStateV) -> Seq<u8> {
    spec_u64_to_le_bytes(m.difficulty) + spec_u64_to_le_bytes(m.total_effort)
        + m.last_block_hash + spec_u64_to_le_bytes(m.reward_pool)
}

/// The `MineState` view read from a 56-byte buffer.
pub open spec fn spec_mine_state_of(b: Seq<u8>) -> MineStateV {
    MineStateV {
        difficulty: spec_u64_from_le_bytes(b.subrange(0, 8)),
        total_effort: spec_u64_from_le_bytes(b.subrange(8, 16)),
        last_block_hash: b.subrange(16, 48),
        reward_pool: spec_u64_from_le_bytes(b.subrange(48, 56)),
    }
}

/// A well-formed `MineState` survives encode-then-decode unchanged.
pub proof fn lemma_mine_state_round_trip(m: MineStateV)
    requires
        m.wf(),
    ensures
        spec_mine_state_bytes(m).len() == MINE_STATE_LEN,
        spec_mine_state_of(spec_mine_state_bytes(m)) == m,
{
    lemma_auto_spec_u64_to_from_le_bytes();
    let b = spec_mine_state_bytes(m);
    assert(b.subrange(0, 8) =~= spec_u64_to_le_bytes(m.difficulty));
    assert(b.subrange(8, 16) =~= spec_u64_to_le_bytes(m.total_effort));
    assert(b.subrange(16, 48) =~= m.last_block_hash);
    assert(b.subrange(48, 56) =~= spec_u64_to_le_bytes(m.reward_pool));
}

impl MineState {
    /// Decode a `MineState` from its fixed 56-byte layout.
    pub fn try_from_bytes(data: &Vec<u8>) -> (r: Result<MineState, MineError>)
        ensures
            data@.len() == MINE_STATE_LEN ==> (r matches Ok(m) && m@ == spec_mine_state_of(data@)
                && m@.wf()),
            data@.len() != MINE_STATE_LEN ==> r == Err::<MineState, MineError>(
                MineError::InvalidAccountData,
            ),
    {
        if data.len() != MINE_STATE_LEN {
            return Err(MineError::InvalidAccountData);
        }
        let m = MineState {
            difficulty: read_u64_le(data, 0),
            total_effort: read_u64_le(data, 8),
            last_block_hash: copy_range(data, 16, 32),
            reward_pool: read_u64_le(data, 48),
        };
        Ok(m)
    }

    /// Encode this record into its fixed 56-byte layout.
    pub fn to_bytes(&self) -> (r: Vec<u8>)
        ensures
            r@ == spec_mine_state_bytes(self@),
    {
        let mut out: Vec<u8> = Vec::new();
        write_u64_le(&mut out, self.difficulty);
        write_u64_le(&mut out, self.total_effort);
        push_bytes(&mut out, &self.last_block_hash);
        write_u64_le(&mut out, self.reward_pool);
        proof {
            assert(out@ =~= spec_mine_state_bytes(self@));
        }
        out
    }
}

} // verus!
