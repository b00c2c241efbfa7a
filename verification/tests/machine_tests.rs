use sha2::Digest;

use dead_api::error::MineError;
use dead_api::hash::{compute_candidate, hash_pair, leading_zero_bits};
use dead_api::instruction::MineInstruction;
use dead_api::machine::{
    initialize, process_auth, process_instruction, process_mine, reset_epoch, update_leaderboard,
    verify_mine,
};
use dead_api::state::{Bus, Config, MineState, MinerState, RewardState};

fn key(b: u8) -> Vec<u8> {
    vec![b; 32]
}

fn sha256_direct(parts: &[&[u8]]) -> Vec<u8> {
    let mut h = sha2::Sha256::new();
    for p in parts {
        h.update(p);
    }
    h.finalize().to_vec()
}

fn fresh_config(min_difficulty: u64, base_reward_rate: u64) -> Config {
    Config {
        authority: key(1),
        mint: key(2),
        last_reset_at: 0,
        min_difficulty,
        base_reward_rate,
        top_balance: 0,
    }
}

fn fresh_miner(authority: u8, miner: u8, challenge: u8) -> MinerState {
    MinerState {
        authority: key(authority),
        miner: key(miner),
        balance: 0,
        last_hash: key(0),
        last_hash_at: 0,
        last_stake_at: 0,
        total_hashes: 0,
        total_rewards: 0,
        challenge: key(challenge),
    }
}

fn empty_rewards() -> RewardState {
    RewardState {
        id: 0,
        rewards: 0,
        claimed: 0,
        top_miners: vec![key(0); 8],
        top_rewards: vec![0u64; 8],
    }
}

#[test]
fn wrapper_digest_matches_a_direct_computation() {
    let c = key(3);
    let m = key(4);
    let n = vec![5u8; 8];
    let got = compute_candidate(&c, &m, &n);
    let want = sha256_direct(&[&c, &m, &n]);
    assert_eq!(got, want);
}

#[test]
fn hash_pair_matches_the_known_digest_of_abc() {
    let a = vec![b'a', b'b'];
    let b = vec![b'c'];
    let got = hash_pair(&a, &b);
    let want: Vec<u8> = vec![
        0xba, 0x78, 0x16, 0xbf, 0x8f, 0x01, 0xcf, 0xea, 0x41, 0x41, 0x40, 0xde, 0x5d, 0xae,
        0x22, 0x23, 0xb0, 0x03, 0x61, 0xa3, 0x96, 0x17, 0x7a, 0x9c, 0xb4, 0x10, 0xff, 0x61,
        0xf2, 0x00, 0x15, 0xad,
    ];
    assert_eq!(got, want);
}

#[test]
fn leading_zero_bits_counts_exactly() {
    assert_eq!(leading_zero_bits(&vec![]), 0);
    assert_eq!(leading_zero_bits(&vec![0x80, 0x00]), 0);
    assert_eq!(leading_zero_bits(&vec![0x40]), 1);
    assert_eq!(leading_zero_bits(&vec![0x01]), 7);
    assert_eq!(leading_zero_bits(&vec![0x00, 0x20]), 10);
    assert_eq!(leading_zero_bits(&vec![0u8; 32]), 256);
}

// At minimum difficulty zero a correctly recomputed submission is accepted,
// the counters advance, and the bus is debited by exactly one unit of the
// base rate.
#[test]
fn zero_difficulty_submission_is_accepted() {
    let config = fresh_config(0, 5);
    let mut bus = Bus { id: 0, rewards: 100 };
    let mut miner = fresh_miner(1, 4, 3);
    let mut rewards = empty_rewards();
    let nonce = vec![0u8; 8];
    let hash = sha256_direct(&[&key(3), &key(4), &nonce]);

    let r = process_mine(
        &config, &mut bus, &mut miner, &mut rewards, &key(1), true, &hash, &nonce, 42,
    );
    assert_eq!(r, Ok(5));
    assert_eq!(bus.rewards, 95);
    assert_eq!(miner.balance, 5);
    assert_eq!(miner.total_hashes, 1);
    assert_eq!(miner.total_rewards, 5);
    assert_eq!(miner.last_hash, hash);
    assert_eq!(miner.last_hash_at, 42);
    assert_eq!(miner.challenge, sha256_direct(&[&hash]));
    // the new total enters the leaderboard at the top
    assert_eq!(rewards.top_miners[0], key(4));
    assert_eq!(rewards.top_rewards[0], 5);
}

// Replaying the identical (hash, nonce) fails: the challenge has rotated.
#[test]
fn replaying_a_submission_fails() {
    let config = fresh_config(0, 5);
    let mut bus = Bus { id: 0, rewards: 100 };
    let mut miner = fresh_miner(1, 4, 3);
    let mut rewards = empty_rewards();
    let nonce = vec![0u8; 8];
    let hash = sha256_direct(&[&key(3), &key(4), &nonce]);

    let first = process_mine(
        &config, &mut bus, &mut miner, &mut rewards, &key(1), true, &hash, &nonce, 42,
    );
    assert_eq!(first, Ok(5));
    let replay = process_mine(
        &config, &mut bus, &mut miner, &mut rewards, &key(1), true, &hash, &nonce, 43,
    );
    assert_eq!(replay, Err(MineError::InvalidArgument));
    assert_eq!(miner.total_hashes, 1);
    assert_eq!(bus.rewards, 95);
}

#[test]
fn missing_signature_is_rejected() {
    let config = fresh_config(0, 5);
    let mut bus = Bus { id: 0, rewards: 100 };
    let mut miner = fresh_miner(1, 4, 3);
    let mut rewards = empty_rewards();
    let nonce = vec![0u8; 8];
    let hash = sha256_direct(&[&key(3), &key(4), &nonce]);

    let r = process_mine(
        &config, &mut bus, &mut miner, &mut rewards, &key(1), false, &hash, &nonce, 0,
    );
    assert_eq!(r, Err(MineError::MissingRequiredSignature));
    // a signer other than the record's authority is rejected the same way
    let r = process_mine(
        &config, &mut bus, &mut miner, &mut rewards, &key(9), true, &hash, &nonce, 0,
    );
    assert_eq!(r, Err(MineError::MissingRequiredSignature));
    assert_eq!(bus.rewards, 100);
    assert_eq!(miner.total_hashes, 0);
}

#[test]
fn forged_hash_is_rejected() {
    let config = fresh_config(0, 5);
    let mut bus = Bus { id: 0, rewards: 100 };
    let mut miner = fresh_miner(1, 4, 3);
    let mut rewards = empty_rewards();
    let nonce = vec![0u8; 8];
    let wrong = vec![0xFFu8; 32];

    let r = process_mine(
        &config, &mut bus, &mut miner, &mut rewards, &key(1), true, &wrong, &nonce, 0,
    );
    assert_eq!(r, Err(MineError::InvalidArgument));
    assert_eq!(bus.rewards, 100);
}

#[test]
fn insufficient_difficulty_is_rejected() {
    let config = fresh_config(200, 5);
    let mut bus = Bus { id: 0, rewards: 100 };
    let mut miner = fresh_miner(1, 4, 3);
    let mut rewards = empty_rewards();
    let nonce = vec![0u8; 8];
    let hash = sha256_direct(&[&key(3), &key(4), &nonce]);
    assert!(leading_zero_bits(&hash) < 200);

    let r = process_mine(
        &config, &mut bus, &mut miner, &mut rewards, &key(1), true, &hash, &nonce, 0,
    );
    assert_eq!(r, Err(MineError::DifficultyNotMet));
    assert_eq!(miner.total_hashes, 0);
}

// An exhausted bus rejects an otherwise valid submission and leaves the
// miner record untouched.
#[test]
fn exhausted_bus_is_rejected() {
    let config = fresh_config(0, 5);
    let mut bus = Bus { id: 0, rewards: 0 };
    let mut miner = fresh_miner(1, 4, 3);
    let mut rewards = empty_rewards();
    let nonce = vec![0u8; 8];
    let hash = sha256_direct(&[&key(3), &key(4), &nonce]);

    let r = process_mine(
        &config, &mut bus, &mut miner, &mut rewards, &key(1), true, &hash, &nonce, 0,
    );
    assert_eq!(r, Err(MineError::InsufficientBusRewards));
    assert_eq!(bus.rewards, 0);
    assert_eq!(miner.total_hashes, 0);
    assert_eq!(miner.total_rewards, 0);
    assert_eq!(miner.balance, 0);
    assert_eq!(miner.challenge, key(3));
}

#[test]
fn auth_binds_the_linkage_fields() {
    let mut miner = fresh_miner(1, 4, 3);
    let r = process_auth(&mut miner, &key(7), true, &key(8));
    assert_eq!(r, Ok(()));
    assert_eq!(miner.authority, key(7));
    assert_eq!(miner.miner, key(8));
    assert_eq!(miner.balance, 0);

    let r = process_auth(&mut miner, &key(9), false, &key(8));
    assert_eq!(r, Err(MineError::MissingRequiredSignature));
    assert_eq!(miner.authority, key(7));
}

// A due reset rotates the epoch anchor, recomputes the difficulty, and
// rebalances the buses without creating or destroying a reward unit; a
// second attempt before the next boundary is a no-op.
#[test]
fn epoch_reset_then_early_retry() {
    let mut config = fresh_config(1, 5);
    let mut buses: Vec<Bus> = (0..8u64).map(|i| Bus { id: i, rewards: 0 }).collect();
    buses[0].rewards = 10;
    buses[1].rewards = 2;
    let mut rewards = empty_rewards();
    rewards.top_rewards[0] = 321;

    // 24 hours later, with fewer submissions than the target
    let r = reset_epoch(&mut config, &mut buses, &mut rewards, &key(1), true, 0, 86_400);
    assert_eq!(r, Ok(true));
    assert_eq!(config.last_reset_at, 86_400);
    assert_eq!(config.min_difficulty, 0);
    assert_eq!(config.top_balance, 321);
    let shares: Vec<u64> = buses.iter().map(|b| b.rewards).collect();
    assert_eq!(shares, vec![2, 2, 2, 2, 1, 1, 1, 1]);
    assert_eq!(shares.iter().sum::<u64>(), 12);
    assert_eq!(rewards.id, 1);

    // before the next boundary: a no-op
    let r = reset_epoch(&mut config, &mut buses, &mut rewards, &key(1), true, 9999, 86_500);
    assert_eq!(r, Ok(false));
    assert_eq!(config.last_reset_at, 86_400);
    assert_eq!(config.min_difficulty, 0);
    assert_eq!(rewards.id, 1);

    // a busy epoch raises the difficulty again
    let r = reset_epoch(
        &mut config, &mut buses, &mut rewards, &key(1), true, 10_000, 2 * 86_400,
    );
    assert_eq!(r, Ok(true));
    assert_eq!(config.min_difficulty, 1);

    // only the authority may reset
    let r = reset_epoch(
        &mut config, &mut buses, &mut rewards, &key(9), true, 0, 4 * 86_400,
    );
    assert_eq!(r, Err(MineError::MissingRequiredSignature));
}

#[test]
fn leaderboard_sorts_and_keeps_incumbents_on_ties() {
    let mut rewards = empty_rewards();
    update_leaderboard(&mut rewards, &key(10), 50);
    update_leaderboard(&mut rewards, &key(11), 70);
    update_leaderboard(&mut rewards, &key(12), 60);
    assert_eq!(rewards.top_miners[0], key(11));
    assert_eq!(rewards.top_rewards[0], 70);
    assert_eq!(rewards.top_miners[1], key(12));
    assert_eq!(rewards.top_rewards[1], 60);
    assert_eq!(rewards.top_miners[2], key(10));
    assert_eq!(rewards.top_rewards[2], 50);

    // raising an existing entry moves it up
    update_leaderboard(&mut rewards, &key(10), 80);
    assert_eq!(rewards.top_miners[0], key(10));
    assert_eq!(rewards.top_rewards[0], 80);
    assert_eq!(rewards.top_miners[1], key(11));

    // a tie with the eighth slot keeps the incumbent out of courtesy to
    // the earlier-recorded entry: slot eight still holds reward zero here
    let before = rewards.top_miners.clone();
    update_leaderboard(&mut rewards, &key(13), 0);
    assert_eq!(rewards.top_miners, before);

    // descending order holds throughout
    for i in 1..8 {
        assert!(rewards.top_rewards[i - 1] >= rewards.top_rewards[i]);
    }
}

#[test]
fn standalone_record_initialize_and_verify() {
    let mut state = MineState {
        difficulty: 0,
        total_effort: 0,
        last_block_hash: key(0),
        reward_pool: 0,
    };
    initialize(&mut state, 9);
    assert_eq!(state.difficulty, 9);
    assert_eq!(state.total_effort, 0);
    assert_eq!(state.last_block_hash, vec![0u8; 32]);
    assert_eq!(state.reward_pool, 1_000_000_000);

    let miner_key = key(21);
    let good = sha256_direct(&[&miner_key, &state.last_block_hash]);
    assert_eq!(
        verify_mine(&mut state, &miner_key, false, &good),
        Err(MineError::MissingRequiredSignature)
    );
    assert_eq!(
        verify_mine(&mut state, &miner_key, true, &vec![9u8; 32]),
        Err(MineError::InvalidArgument)
    );
    assert_eq!(verify_mine(&mut state, &miner_key, true, &good), Ok(()));
    assert_eq!(state.total_effort, 1);
    assert_eq!(state.last_block_hash, good);
    assert_eq!(state.reward_pool, 999_999_999);
}

#[test]
fn standalone_record_dispatch() {
    let mut state = MineState {
        difficulty: 0,
        total_effort: 0,
        last_block_hash: key(0),
        reward_pool: 0,
    };
    let init = MineInstruction::Initialize { initial_difficulty: 3 }.encode();
    assert_eq!(process_instruction(&mut state, &key(21), true, &init), Ok(()));
    assert_eq!(state.difficulty, 3);
    assert_eq!(state.reward_pool, 1_000_000_000);

    let miner_key = key(21);
    let good = sha256_direct(&[&miner_key, &state.last_block_hash]);
    let verify = MineInstruction::VerifyMine { proof_hash: good.clone() }.encode();
    assert_eq!(process_instruction(&mut state, &miner_key, true, &verify), Ok(()));
    assert_eq!(state.total_effort, 1);
    assert_eq!(state.last_block_hash, good);

    assert_eq!(
        process_instruction(&mut state, &miner_key, true, &vec![7u8; 4]),
        Err(MineError::MalformedInstruction)
    );
}

#[test]
fn exhausted_standalone_pool_is_rejected() {
    let mut state = MineState {
        difficulty: 0,
        total_effort: 5,
        last_block_hash: key(1),
        reward_pool: 0,
    };
    let miner_key = key(21);
    let good = sha256_direct(&[&miner_key, &state.last_block_hash]);
    assert_eq!(
        verify_mine(&mut state, &miner_key, true, &good),
        Err(MineError::InsufficientBusRewards)
    );
    assert_eq!(state.total_effort, 5);
    assert_eq!(state.last_block_hash, key(1));
}
