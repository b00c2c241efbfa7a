//! The ledger state machine: the `Mine` and `Auth` handlers, epoch
//! finalization, the leaderboard update, and the handlers of the standalone
//! mining record. Every handler either completes fully or returns an error
//! having mutated nothing.

use vstd::prelude::*;
use crate::bytes_eq;
use crate::codec::clone_bytes;
use crate::error::MineError;
use crate::codec::zero_bytes;
use crate::consts::{BUS_COUNT, COAL_EPOCH_DURATION, TARGET_EPOCH_SUBMISSIONS};
use crate::hash::{
    compute_candidate, hash_pair, meets_difficulty, rotate_challenge, sha256_of, spec_candidate,
    spec_meets_difficulty, spec_next_challenge,
};
use crate::instruction::{spec_mine_instruction_of, MineInstruction, MineInstructionV};
use crate::state::{
    lemma_deep_view_bytes, Bus, Config, ConfigV, MineState, MineStateV, MinerState, MinerStateV,
    RewardState, RewardStateV,
};

verus! {

// ----------------------------------------------------------------------
// The Mine handler
// ----------------------------------------------------------------------

/// Reward units owed for an accepted submission: the base rate scaled by
/// the difficulty the call was required to satisfy, one unit of the base
/// rate at difficulty zero.
pub open spec fn spec_reward_amount(c: ConfigV) -> int {
    c.base_reward_rate * (c.min_difficulty + 1)
}

/// The candidate a submission against miner record `m` must equal.
pub open spec fn spec_mine_candidate(m: MinerStateV, nonce: Seq<u8>) -> Seq<u8> {
    spec_candidate(m.challenge, m.miner, nonce)
}

/// Why a `Mine` call is rejected, or `None` when it is accepted. The checks
/// run in this order: signature, hash recomputation, difficulty, shard
/// coverage.
pub open spec fn spec_mine_error(
    c: ConfigV,
    bus: Bus,
    m: MinerStateV,
    signer: Seq<u8>,
    is_signer: bool,
    hash: Seq<u8>,
    nonce: Seq<u8>,
) -> Option<MineError> {
    if !(is_signer && signer == m.authority) {
        Some(MineError::MissingRequiredSignature)
    } else if hash != spec_mine_candidate(m, nonce) {
        Some(MineError::InvalidArgument)
    } else if !spec_meets_difficulty(hash, c.min_difficulty) {
        Some(MineError::DifficultyNotMet)
    } else if spec_reward_amount(c) > bus.rewards {
        Some(MineError::InsufficientBusRewards)
    } else {
        None
    }
}

/// Whether a `Mine` call is accepted.
pub open spec fn spec_mine_ok(
    c: ConfigV,
    bus: Bus,
    m: MinerStateV,
    signer: Seq<u8>,
    is_signer: bool,
    hash: Seq<u8>,
    nonce: Seq<u8>,
) -> bool {
    spec_mine_error(c, bus, m, signer, is_signer, hash, nonce) is None
}

/// The miner record after an accepted submission: balance and totals
/// credited, the candidate recorded, and the challenge rotated to the
/// candidate's own digest.
pub open spec fn spec_mined_miner(c: ConfigV, m: MinerStateV, hash: Seq<u8>, now: i64) -> MinerStateV {
    MinerStateV {
        balance: (m.balance + spec_reward_amount(c)) as u64,
        last_hash: hash,
        last_hash_at: now,
        total_hashes: (m.total_hashes + 1) as u64,
        total_rewards: (m.total_rewards + spec_reward_amount(c)) as u64,
        challenge: spec_next_challenge(hash),
        ..m
    }
}

/// Handle a `Mine(hash, nonce)` call: verify the submission against the
/// miner's stored challenge and the required difficulty, debit the selected
/// bus, credit the miner, rotate the challenge, and record the new total in
/// the leaderboard. On rejection nothing is mutated.
pub fn process_mine(
    config: &Config,
    bus: &mut Bus,
    miner: &mut MinerState,
    reward_state: &mut RewardState,
    signer: &Vec<u8>,
    is_signer: bool,
    hash: &Vec<u8>,
    nonce: &Vec<u8>,
    now: i64,
) -> (r: Result<u64, MineError>)
    requires
        old(miner)@.wf(),
        old(reward_state)@.wf(),
        old(reward_state)@.sorted(),
        // the credited counters must stay within machine range
        spec_reward_amount(config@) <= old(bus).rewards ==> {
            &&& old(miner)@.balance + spec_reward_amount(config@) <= u64::MAX
            &&& old(miner)@.total_rewards + spec_reward_amount(config@) <= u64::MAX
            &&& old(miner)@.total_hashes < u64::MAX
        },
        // the leaderboard never records more than a miner's cumulative total
        forall|i: int|
            0 <= i < 8 && old(reward_state)@.top_miners[i] == old(miner)@.miner ==> old(reward_state)@.top_rewards[i] <= old(miner)@.total_rewards,
    ensures
        ({
            let e = spec_mine_error(
                config@,
                *old(bus),
                old(miner)@,
                signer@,
                is_signer,
                hash@,
                nonce@,
            );
            &&& (e matches Some(err) ==> r == Err::<u64, MineError>(err) && *final(bus) == *old(bus) && final(miner)@ == old(miner)@ && final(reward_state)@ == old(reward_state)@)
            &&& (e is None ==> {
                let m2 = spec_mined_miner(config@, old(miner)@, hash@, now);
                &&& r == Ok::<u64, MineError>(spec_reward_amount(config@) as u64)
                &&& final(bus).id == old(bus).id
                &&& final(bus).rewards == old(bus).rewards - spec_reward_amount(config@)
                &&& final(miner)@ == m2
                &&& final(reward_state)@.wf()
                &&& final(reward_state)@.sorted()
                &&& final(reward_state)@.id == old(reward_state)@.id
                &&& final(reward_state)@.rewards == old(reward_state)@.rewards
                &&& final(reward_state)@.claimed == old(reward_state)@.claimed
                &&& (forall|i: int|
                    0 <= i < 8 ==> ((final(reward_state)@.top_miners[i] == m2.miner && final(reward_state)@.top_rewards[i] == m2.total_rewards) || spec_lb_pair_from(
                        old(reward_state)@,
                        final(reward_state)@,
                        i,
                    )))
                &&& (spec_lb_contains(old(reward_state)@, m2.miner) || m2.total_rewards > old(reward_state)@.top_rewards[7] ==> spec_lb_has(final(reward_state)@, m2.miner, m2.total_rewards))
                &&& (!spec_lb_contains(old(reward_state)@, m2.miner) && m2.total_rewards <= old(reward_state)@.top_rewards[7] ==> final(reward_state)@ == old(reward_state)@)
            })
        }),
        final(miner)@.wf(),
{
    if !is_signer {
        return Err(MineError::MissingRequiredSignature);
    }
    if !bytes_eq(signer, &miner.authority) {
        return Err(MineError::MissingRequiredSignature);
    }
    let candidate = compute_candidate(&miner.challenge, &miner.miner, nonce);
    if !bytes_eq(hash, &candidate) {
        return Err(MineError::InvalidArgument);
    }
    if !meets_difficulty(&candidate, config.min_difficulty) {
        return Err(MineError::DifficultyNotMet);
    }
    let reward: u64;
    if config.base_reward_rate == 0 {
        proof {
            assert(spec_reward_amount(config@) == 0) by (nonlinear_arith)
                requires
                    config@.base_reward_rate == 0,
                    spec_reward_amount(config@) == config@.base_reward_rate * (
                    config@.min_difficulty + 1),
            ;
        }
        reward = 0;
    } else {
        let d1 = match config.min_difficulty.checked_add(1) {
            Some(d1) => d1,
            None => {
                proof {
                    assert(spec_reward_amount(config@) > u64::MAX) by (nonlinear_arith)
                        requires
                            config@.base_reward_rate >= 1,
                            config@.min_difficulty == u64::MAX,
                            spec_reward_amount(config@) == config@.base_reward_rate * (
                            config@.min_difficulty + 1),
                    ;
                }
                return Err(MineError::InsufficientBusRewards);
            },
        };
        reward = match config.base_reward_rate.checked_mul(d1) {
            Some(rw) => rw,
            None => {
                return Err(MineError::InsufficientBusRewards);
            },
        };
    }
    if reward > bus.rewards {
        return Err(MineError::InsufficientBusRewards);
    }
    bus.rewards = bus.rewards - reward;
    miner.balance = miner.balance + reward;
    miner.total_rewards = miner.total_rewards + reward;
    miner.total_hashes = miner.total_hashes + 1;
    miner.last_hash = clone_bytes(hash);
    miner.challenge = rotate_challenge(&candidate);
    miner.last_hash_at = now;
    let new_total = miner.total_rewards;
    update_leaderboard(reward_state, &miner.miner, new_total);
    Ok(reward)
}

// ----------------------------------------------------------------------
// The Auth handler
// ----------------------------------------------------------------------

/// Handle an `Auth` call: bind the submitting authority and the beneficiary
/// into the miner record's linkage fields. No hashing, no reward movement.
pub fn process_auth(
    miner: &mut MinerState,
    signer: &Vec<u8>,
    is_signer: bool,
    beneficiary: &Vec<u8>,
) -> (r: Result<(), MineError>)
    requires
        old(miner)@.wf(),
        signer@.len() == 32,
        beneficiary@.len() == 32,
    ensures
        !is_signer ==> r == Err::<(), MineError>(MineError::MissingRequiredSignature) && final(miner)@ == old(miner)@,
        is_signer ==> r == Ok::<(), MineError>(()) && final(miner)@ == (MinerStateV {
            authority: signer@,
            miner: beneficiary@,
            ..old(miner)@
        }),
        final(miner)@.wf(),
{
    if !is_signer {
        return Err(MineError::MissingRequiredSignature);
    }
    miner.authority = clone_bytes(signer);
    miner.miner = clone_bytes(beneficiary);
    Ok(())
}

// ----------------------------------------------------------------------
// Leaderboard
// ----------------------------------------------------------------------

/// Whether the pair `(m, t)` stands in some slot of the two parallel
/// arrays.
pub open spec fn spec_pair_in(tm: Seq<Seq<u8>>, tr: Seq<u64>, m: Seq<u8>, t: u64) -> bool {
    exists|j: int| 0 <= j < 8 && tm[j] == m && tr[j] == t
}

/// Whether an identity holds some leaderboard slot.
pub open spec fn spec_lb_contains(rs: RewardStateV, m: Seq<u8>) -> bool {
    exists|i: int| 0 <= i < rs.top_miners.len() && rs.top_miners[i] == m
}

/// Whether an identity holds some leaderboard slot with reward `t`.
pub open spec fn spec_lb_has(rs: RewardStateV, m: Seq<u8>, t: u64) -> bool {
    spec_pair_in(rs.top_miners, rs.top_rewards, m, t)
}

/// Whether slot `i` of `b` carries a pair that already stood somewhere in
/// `a`.
pub open spec fn spec_lb_pair_from(a: RewardStateV, b: RewardStateV, i: int) -> bool {
    spec_pair_in(a.top_miners, a.top_rewards, b.top_miners[i], b.top_rewards[i])
}

/// Record a miner's new cumulative total in the leaderboard: an existing
/// slot is raised in place, a newcomer displaces the eighth slot when it
/// beats it (ties keep the incumbent), and the arrays stay sorted
/// descending by reward.
pub fn update_leaderboard(rs: &mut RewardState, miner: &Vec<u8>, total: u64)
    requires
        old(rs)@.wf(),
        old(rs)@.sorted(),
        miner@.len() == 32,
        forall|i: int|
            0 <= i < 8 && old(rs)@.top_miners[i] == miner@ ==> old(rs)@.top_rewards[i] <= total,
    ensures
        final(rs)@.wf(),
        final(rs)@.sorted(),
        final(rs)@.id == old(rs)@.id,
        final(rs)@.rewards == old(rs)@.rewards,
        final(rs)@.claimed == old(rs)@.claimed,
        forall|i: int|
            0 <= i < 8 ==> ((final(rs)@.top_miners[i] == miner@ && final(rs)@.top_rewards[i]
                == total) || spec_lb_pair_from(old(rs)@, final(rs)@, i)),
        spec_lb_contains(old(rs)@, miner@) || total > old(rs)@.top_rewards[7] ==> spec_lb_has(
            final(rs)@,
            miner@,
            total,
        ),
        !spec_lb_contains(old(rs)@, miner@) && total <= old(rs)@.top_rewards[7] ==> final(rs)@
            == old(rs)@,
{
    proof {
        lemma_deep_view_bytes(rs.top_miners);
    }
    // Find the first slot already held by this miner, if any.
    let mut found: usize = 8;
    let mut i: usize = 0;
    while i < 8
        invariant
            i <= 8,
            found <= 8,
            rs == old(rs),
            old(rs)@.wf(),
            found == 8 ==> forall|k: int| 0 <= k < i ==> old(rs)@.top_miners[k] != miner@,
            found < 8 ==> old(rs)@.top_miners[found as int] == miner@,
        decreases 8 - i,
    {
        proof {
            lemma_deep_view_bytes(rs.top_miners);
        }
        if found == 8 && bytes_eq(&rs.top_miners[i], miner) {
            found = i;
        }
        i += 1;
    }
    let idx: usize;
    if found == 8 {
        proof {
            assert(!spec_lb_contains(old(rs)@, miner@));
        }
        if total <= rs.top_rewards[7] {
            proof {
                assert(rs@ =~~= old(rs)@);
                assert forall|i: int| 0 <= i < 8 implies spec_lb_pair_from(old(rs)@, rs@, i) by {
                    assert(0 <= i < 8 && old(rs)@.top_miners[i] == rs@.top_miners[i]
                        && old(rs)@.top_rewards[i] == rs@.top_rewards[i]);
                }
            }
            return ;
        }
        rs.top_miners[7] = clone_bytes(miner);
        rs.top_rewards[7] = total;
        idx = 7;
    } else {
        rs.top_rewards[found] = total;
        idx = found;
    }
    proof {
        lemma_deep_view_bytes(rs.top_miners);
        assert forall|i: int| 0 <= i < 8 && i != idx implies #[trigger] rs@.top_miners[i] == old(rs)@.top_miners[i] && rs@.top_rewards[i] == old(rs)@.top_rewards[i] by {
            assert(rs.top_miners@[i]@ == old(rs).top_miners@[i]@);
        }
        assert forall|i: int| 0 <= i < 8 && i != idx implies spec_lb_pair_from(
            old(rs)@,
            rs@,
            i,
        ) by {
            assert(0 <= i < 8 && old(rs)@.top_miners[i] == rs@.top_miners[i]
                && old(rs)@.top_rewards[i] == rs@.top_rewards[i]);
        }
    }
    // Restore descending order: the raised slot sifts toward the front,
    // never past an equal incumbent.
    let mut k = idx;
    while k > 0 && rs.top_rewards[k - 1] < rs.top_rewards[k]
        invariant
            k <= idx < 8,
            rs@.wf(),
            rs@.id == old(rs)@.id,
            rs@.rewards == old(rs)@.rewards,
            rs@.claimed == old(rs)@.claimed,
            rs@.top_miners[k as int] == miner@,
            rs@.top_rewards[k as int] == total,
            spec_lb_contains(old(rs)@, miner@) || total > old(rs)@.top_rewards[7],
            forall|i: int, j: int|
                0 <= i <= j < 8 && !(j == k && i < k) ==> rs@.top_rewards[i]
                    >= rs@.top_rewards[j],
            forall|i: int|
                0 <= i < 8 ==> ((#[trigger] rs@.top_miners[i] == miner@ && rs@.top_rewards[i]
                    == total) || spec_lb_pair_from(old(rs)@, rs@, i)),
        decreases k,
    {
        proof {
            lemma_deep_view_bytes(rs.top_miners);
        }
        let ghost tm0 = rs@.top_miners;
        let ghost tr0 = rs@.top_rewards;
        let ghost v0 = rs.top_miners@;
        let hi = rs.top_rewards[k - 1];
        let lo = rs.top_rewards[k];
        rs.top_rewards[k - 1] = lo;
        rs.top_rewards[k] = hi;
        let m_hi = clone_bytes(&rs.top_miners[k - 1]);
        let m_lo = clone_bytes(&rs.top_miners[k]);
        rs.top_miners[k - 1] = m_lo;
        rs.top_miners[k] = m_hi;
        proof {
            lemma_deep_view_bytes(rs.top_miners);
            assert forall|i: int| 0 <= i < 8 implies #[trigger] rs@.top_miners[i] == (if i == k
                - 1 {
                tm0[k as int]
            } else if i == k {
                tm0[k as int - 1]
            } else {
                tm0[i]
            }) by {
                if i == k - 1 {
                    assert(rs.top_miners@[i] == m_lo);
                    assert(m_lo@ == v0[k as int]@);
                    assert(v0[k as int]@ == tm0[k as int]);
                } else if i == k {
                    assert(rs.top_miners@[i] == m_hi);
                    assert(m_hi@ == v0[k as int - 1]@);
                    assert(v0[k as int - 1]@ == tm0[k as int - 1]);
                } else {
                    assert(rs.top_miners@[i] == v0[i]);
                    assert(v0[i]@ == tm0[i]);
                }
            }
            assert forall|i: int| 0 <= i < 8 implies #[trigger] rs@.top_rewards[i] == (if i == k
                - 1 {
                tr0[k as int]
            } else if i == k {
                tr0[k as int - 1]
            } else {
                tr0[i]
            }) by {}
            assert forall|i: int|
                0 <= i < 8 implies ((#[trigger] rs@.top_miners[i] == miner@ && rs@.top_rewards[i]
                == total) || spec_lb_pair_from(old(rs)@, rs@, i)) by {
                if i == k - 1 {
                    assert((tm0[k as int] == miner@ && tr0[k as int] == total) || spec_pair_in(
                        old(rs)@.top_miners,
                        old(rs)@.top_rewards,
                        tm0[k as int],
                        tr0[k as int],
                    ));
                } else if i == k {
                    assert((tm0[k as int - 1] == miner@ && tr0[k as int - 1] == total)
                        || spec_pair_in(
                        old(rs)@.top_miners,
                        old(rs)@.top_rewards,
                        tm0[k as int - 1],
                        tr0[k as int - 1],
                    ));
                }
            }
        }
        k = k - 1;
    }
    proof {
        assert forall|i: int, j: int| 0 <= i <= j < 8 implies rs@.top_rewards[i]
            >= rs@.top_rewards[j] by {
            if j == k as int && i < j {
                assert(rs@.top_rewards[i] >= rs@.top_rewards[k as int - 1]);
            }
        }
        assert(spec_lb_has(rs@, miner@, total)) by {
            assert(0 <= k < 8 && rs@.top_miners[k as int] == miner@ && rs@.top_rewards[k as int]
                == total);
        }
    }
}


// ----------------------------------------------------------------------
// Epoch reset
// ----------------------------------------------------------------------

/// Total remaining allocation across a sequence of bus shards.
pub open spec fn spec_bus_total(buses: Seq<Bus>) -> int
    decreases buses.len(),
{
    if buses.len() == 0 {
        0
    } else {
        buses[0].rewards + spec_bus_total(buses.drop_first())
    }
}

/// A total of allocations is never negative.
pub proof fn lemma_bus_total_nonneg(buses: Seq<Bus>)
    ensures
        spec_bus_total(buses) >= 0,
    decreases buses.len(),
{
    if buses.len() > 0 {
        lemma_bus_total_nonneg(buses.drop_first());
    }
}

/// Peel one shard off the front of a total.
pub proof fn lemma_bus_total_skip(buses: Seq<Bus>, i: int)
    requires
        0 <= i < buses.len(),
    ensures
        spec_bus_total(buses.skip(i)) == buses[i].rewards + spec_bus_total(buses.skip(i + 1)),
{
    assert(buses.skip(i)[0] == buses[i]);
    assert(buses.skip(i).drop_first() =~= buses.skip(i + 1));
}

/// The even share of `total` that shard `i` receives at a reset; the
/// remainder goes one unit each to the lowest-indexed shards.
pub open spec fn spec_even_share(total: int, i: int) -> int {
    total / 8 + if i < total % 8 {
        1int
    } else {
        0int
    }
}

/// The difficulty after a reset: one step toward the target submission
/// volume per epoch.
pub open spec fn spec_adjusted_difficulty(d: u64, epoch_hashes: u64) -> u64 {
    if epoch_hashes > TARGET_EPOCH_SUBMISSIONS && d < u64::MAX {
        (d + 1) as u64
    } else if epoch_hashes < TARGET_EPOCH_SUBMISSIONS && d > 0 {
        (d - 1) as u64
    } else {
        d
    }
}

/// Finalize an epoch, when one is due: recompute the difficulty from the
/// epoch's submission volume, rebalance the bus allocations evenly without
/// creating or destroying a single reward unit, stamp the leaderboard
/// snapshot with the next epoch id, record the leading reward in the
/// config, and anchor the new epoch at `now`. Before the boundary the call
/// is a no-op returning `Ok(false)`; without the authority's signature it
/// is rejected.
pub fn reset_epoch(
    config: &mut Config,
    buses: &mut Vec<Bus>,
    reward_state: &mut RewardState,
    signer: &Vec<u8>,
    is_signer: bool,
    epoch_hashes: u64,
    now: i64,
) -> (r: Result<bool, MineError>)
    requires
        old(config)@.wf(),
        old(buses)@.len() == BUS_COUNT,
        old(reward_state)@.wf(),
        old(config)@.last_reset_at <= now,
        now - old(config)@.last_reset_at <= i64::MAX,
        spec_bus_total(old(buses)@) <= u64::MAX,
        old(reward_state)@.id < u64::MAX,
    ensures
        !(is_signer && signer@ == old(config)@.authority) ==> r == Err::<bool, MineError>(
            MineError::MissingRequiredSignature,
        ) && final(config)@ == old(config)@ && final(buses)@ == old(buses)@ && final(reward_state)@ == old(reward_state)@,
        is_signer && signer@ == old(config)@.authority && now - old(config)@.last_reset_at
            < COAL_EPOCH_DURATION ==> r == Ok::<bool, MineError>(false) && final(config)@ == old(config)@ && final(buses)@ == old(buses)@ && final(reward_state)@ == old(reward_state)@,
        is_signer && signer@ == old(config)@.authority && now - old(config)@.last_reset_at
            >= COAL_EPOCH_DURATION ==> {
            &&& r == Ok::<bool, MineError>(true)
            &&& final(config)@ == (ConfigV {
                last_reset_at: now,
                min_difficulty: spec_adjusted_difficulty(
                    old(config)@.min_difficulty,
                    epoch_hashes,
                ),
                top_balance: old(reward_state)@.top_rewards[0],
                ..old(config)@
            })
            &&& final(buses)@.len() == BUS_COUNT
            &&& (forall|i: int|
                0 <= i < BUS_COUNT ==> final(buses)@[i].id == old(buses)@[i].id)
            &&& (forall|i: int|
                0 <= i < BUS_COUNT ==> final(buses)@[i].rewards == spec_even_share(
                    spec_bus_total(old(buses)@),
                    i,
                ))
            &&& spec_bus_total(final(buses)@) == spec_bus_total(old(buses)@)
            &&& final(reward_state)@ == (RewardStateV {
                id: (old(reward_state)@.id + 1) as u64,
                ..old(reward_state)@
            })
        },
        final(config)@.wf(),
        final(reward_state)@.wf(),
        old(reward_state)@.sorted() ==> final(reward_state)@.sorted(),
{
    if !is_signer {
        return Err(MineError::MissingRequiredSignature);
    }
    if !bytes_eq(signer, &config.authority) {
        return Err(MineError::MissingRequiredSignature);
    }
    if now - config.last_reset_at < COAL_EPOCH_DURATION {
        return Ok(false);
    }
    // One difficulty step toward the target volume.
    if epoch_hashes > TARGET_EPOCH_SUBMISSIONS {
        if config.min_difficulty < u64::MAX {
            config.min_difficulty = config.min_difficulty + 1;
        }
    } else if epoch_hashes < TARGET_EPOCH_SUBMISSIONS {
        if config.min_difficulty > 0 {
            config.min_difficulty = config.min_difficulty - 1;
        }
    }
    // Sum the remaining allocations.
    let ghost all = buses@;
    proof {
        assert(buses@.skip(0) =~= buses@);
    }
    let mut total: u64 = 0;
    let mut i: usize = 0;
    while i < 8
        invariant
            i <= 8,
            buses@ == all,
            all.len() == 8,
            spec_bus_total(all) <= u64::MAX,
            total + spec_bus_total(all.skip(i as int)) == spec_bus_total(all),
        decreases 8 - i,
    {
        proof {
            lemma_bus_total_skip(all, i as int);
            lemma_bus_total_nonneg(all.skip(i as int + 1));
            lemma_bus_total_nonneg(all.skip(i as int));
        }
        total = total + buses[i].rewards;
        i += 1;
    }
    proof {
        assert(all.skip(8) =~= Seq::<Bus>::empty());
    }
    // Redistribute them evenly; the remainder goes to the lowest shards.
    let q = total / 8;
    let rem = total % 8;
    let mut nb: Vec<Bus> = Vec::new();
    let mut j: usize = 0;
    while j < 8
        invariant
            j <= 8,
            buses@ == all,
            all.len() == 8,
            total == spec_bus_total(all),
            q == total / 8,
            rem == total % 8,
            nb@.len() == j,
            forall|k: int|
                0 <= k < j ==> (#[trigger] nb@[k]).id == all[k].id && nb@[k].rewards
                    == spec_even_share(total as int, k),
        decreases 8 - j,
    {
        let extra: u64 = if (j as u64) < rem {
            1
        } else {
            0
        };
        nb.push(Bus { id: buses[j].id, rewards: q + extra });
        j += 1;
    }
    *buses = nb;
    config.last_reset_at = now;
    config.top_balance = reward_state.top_rewards[0];
    reward_state.id = reward_state.id + 1;
    proof {
        reveal_with_fuel(spec_bus_total, 9);
        assert(spec_bus_total(buses@) == spec_bus_total(all));
    }
    Ok(true)
}

// ----------------------------------------------------------------------
// The standalone mining record
// ----------------------------------------------------------------------

/// Why a proof against the standalone record is rejected, or `None` when it
/// is accepted. Its chain hashes the miner key and the last block hash, in
/// that order.
pub open spec fn spec_verify_error(
    s: MineStateV,
    miner_key: Seq<u8>,
    is_signer: bool,
    proof_hash: Seq<u8>,
) -> Option<MineError> {
    if !is_signer {
        Some(MineError::MissingRequiredSignature)
    } else if proof_hash != sha256_of(miner_key + s.last_block_hash) {
        Some(MineError::InvalidArgument)
    } else if s.reward_pool == 0 {
        Some(MineError::InsufficientBusRewards)
    } else {
        None
    }
}

/// The standalone record after an accepted proof: effort counted, the chain
/// advanced to the proof, one reward unit paid out of the pool.
pub open spec fn spec_verified_state(s: MineStateV, proof_hash: Seq<u8>) -> MineStateV {
    MineStateV {
        total_effort: (s.total_effort + 1) as u64,
        last_block_hash: proof_hash,
        reward_pool: (s.reward_pool - 1) as u64,
        ..s
    }
}

/// Reset the standalone record: the given difficulty, no effort, an
/// all-zero chain anchor, and a fresh pool of a billion reward units.
pub fn initialize(state: &mut MineState, initial_difficulty: u64)
    ensures
        final(state)@ == (MineStateV {
            difficulty: initial_difficulty,
            total_effort: 0,
            last_block_hash: Seq::new(32, |i: int| 0u8),
            reward_pool: 1_000_000_000u64,
        }),
        final(state)@.wf(),
{
    state.difficulty = initial_difficulty;
    state.total_effort = 0;
    state.last_block_hash = zero_bytes(32);
    state.reward_pool = 1_000_000_000;
}

/// Verify a proof against the standalone record: the submitter must sign,
/// the proof must equal the digest of the miner key followed by the last
/// block hash, and the pool must still cover one unit. On rejection nothing
/// is mutated.
pub fn verify_mine(
    state: &mut MineState,
    miner_key: &Vec<u8>,
    is_signer: bool,
    proof_hash: &Vec<u8>,
) -> (r: Result<(), MineError>)
    requires
        old(state)@.wf(),
        old(state)@.total_effort < u64::MAX,
    ensures
        ({
            let e = spec_verify_error(old(state)@, miner_key@, is_signer, proof_hash@);
            &&& (e matches Some(err) ==> r == Err::<(), MineError>(err) && final(state)@ == old(state)@)
            &&& (e is None ==> r == Ok::<(), MineError>(()) && final(state)@
                == spec_verified_state(old(state)@, proof_hash@))
        }),
        final(state)@.wf(),
{
    if !is_signer {
        return Err(MineError::MissingRequiredSignature);
    }
    let candidate = hash_pair(miner_key, &state.last_block_hash);
    if !bytes_eq(proof_hash, &candidate) {
        return Err(MineError::InvalidArgument);
    }
    if state.reward_pool == 0 {
        return Err(MineError::InsufficientBusRewards);
    }
    state.total_effort = state.total_effort + 1;
    state.last_block_hash = clone_bytes(proof_hash);
    state.reward_pool = state.reward_pool - 1;
    Ok(())
}

/// Dispatch a raw payload against the standalone record: decode it, then
/// run the handler it names; a buffer that fits neither call shape is
/// rejected with no mutation.
pub fn process_instruction(
    state: &mut MineState,
    miner_key: &Vec<u8>,
    is_signer: bool,
    instruction_data: &Vec<u8>,
) -> (r: Result<(), MineError>)
    requires
        old(state)@.wf(),
        old(state)@.total_effort < u64::MAX,
    ensures
        ({
            let d = spec_mine_instruction_of(instruction_data@);
            &&& (d matches Err(e) ==> r == Err::<(), MineError>(e) && final(state)@ == old(state)@)
            &&& (d matches Ok(i) ==> match i {
                MineInstructionV::Initialize { initial_difficulty } => r == Ok::<(), MineError>(
                    (),
                ) && final(state)@ == (MineStateV {
                    difficulty: initial_difficulty,
                    total_effort: 0,
                    last_block_hash: Seq::new(32, |i: int| 0u8),
                    reward_pool: 1_000_000_000u64,
                }),
                MineInstructionV::VerifyMine { proof_hash } => ({
                    let e = spec_verify_error(old(state)@, miner_key@, is_signer, proof_hash);
                    &&& (e matches Some(err) ==> r == Err::<(), MineError>(err) && final(state)@
                        == old(state)@)
                    &&& (e is None ==> r == Ok::<(), MineError>(()) && final(state)@
                        == spec_verified_state(old(state)@, proof_hash))
                }),
            })
        }),
        final(state)@.wf(),
{
    match MineInstruction::decode(instruction_data) {
        Err(e) => Err(e),
        Ok(MineInstruction::Initialize { initial_difficulty }) => {
            initialize(state, initial_difficulty);
            Ok(())
        },
        Ok(MineInstruction::VerifyMine { proof_hash }) => verify_mine(
            state,
            miner_key,
            is_signer,
            &proof_hash,
        ),
    }
}

// ----------------------------------------------------------------------
// Laws
// ----------------------------------------------------------------------

/// A submission that passes every check is accepted and strictly increases
/// the miner's counters, and replaying the identical `(hash, nonce)`
/// against the advanced record is rejected: the challenge has rotated, so
/// the recomputed candidate no longer equals the submitted hash. That the
/// rotated challenge yields a different candidate is the stated
/// no-collision hypothesis; it cannot be derived for an uninterpreted
/// digest.
pub proof fn lemma_mine_once_then_replay_fails(
    c: ConfigV,
    bus: Bus,
    bus2: Bus,
    m: MinerStateV,
    signer: Seq<u8>,
    hash: Seq<u8>,
    nonce: Seq<u8>,
    now: i64,
)
    requires
        spec_mine_ok(c, bus, m, signer, true, hash, nonce),
        c.base_reward_rate >= 1,
        m.total_rewards + spec_reward_amount(c) <= u64::MAX,
        m.total_hashes < u64::MAX,
        spec_candidate(spec_next_challenge(hash), m.miner, nonce) != hash,
    ensures
        spec_mined_miner(c, m, hash, now).total_hashes == m.total_hashes + 1,
        spec_mined_miner(c, m, hash, now).total_rewards > m.total_rewards,
        spec_mine_error(c, bus2, spec_mined_miner(c, m, hash, now), signer, true, hash, nonce)
            == Some(MineError::InvalidArgument),
{
    assert(spec_reward_amount(c) >= 1) by (nonlinear_arith)
        requires
            c.base_reward_rate >= 1,
            spec_reward_amount(c) == c.base_reward_rate * (c.min_difficulty + 1),
    ;
    let m2 = spec_mined_miner(c, m, hash, now);
    assert(m2.challenge == spec_next_challenge(hash));
    assert(spec_mine_candidate(m2, nonce) == spec_candidate(
        spec_next_challenge(hash),
        m.miner,
        nonce,
    ));
}

/// A bus balance never goes negative under any sequence of calls: an
/// accepted call debits no more than the remaining allocation, and a
/// rejected call debits nothing at all.
pub proof fn lemma_bus_never_negative(
    c: ConfigV,
    bus: Bus,
    m: MinerStateV,
    signer: Seq<u8>,
    is_signer: bool,
    hash: Seq<u8>,
    nonce: Seq<u8>,
)
    ensures
        spec_reward_amount(c) >= 0,
        spec_mine_ok(c, bus, m, signer, is_signer, hash, nonce) ==> 0 <= bus.rewards
            - spec_reward_amount(c),
{
    assert(spec_reward_amount(c) >= 0) by (nonlinear_arith)
        requires
            spec_reward_amount(c) == c.base_reward_rate * (c.min_difficulty + 1),
    ;
}

} // verus!
