use dead_api::error::MineError;
use dead_api::instruction::{DeadInstruction, MineInstruction, ProgramAddresses};
use dead_api::state::{Bus, Config, MineState, MinerState, RewardState};

fn key(b: u8) -> Vec<u8> {
    vec![b; 32]
}

fn sample_config() -> Config {
    Config {
        authority: key(1),
        mint: key(2),
        last_reset_at: -7,
        min_difficulty: 3,
        base_reward_rate: 500,
        top_balance: 9000,
    }
}

#[test]
fn config_round_trip() {
    let c = sample_config();
    let bytes = c.to_bytes();
    assert_eq!(bytes.len(), 96);
    let d = Config::try_from_bytes(&bytes).unwrap();
    assert_eq!(d.authority, key(1));
    assert_eq!(d.mint, key(2));
    assert_eq!(d.last_reset_at, -7);
    assert_eq!(d.min_difficulty, 3);
    assert_eq!(d.base_reward_rate, 500);
    assert_eq!(d.top_balance, 9000);
}

#[test]
fn config_layout_is_little_endian_and_padding_free() {
    let c = sample_config();
    let bytes = c.to_bytes();
    let mut expected: Vec<u8> = Vec::new();
    expected.extend_from_slice(&key(1));
    expected.extend_from_slice(&key(2));
    expected.extend_from_slice(&(-7i64).to_le_bytes());
    expected.extend_from_slice(&3u64.to_le_bytes());
    expected.extend_from_slice(&500u64.to_le_bytes());
    expected.extend_from_slice(&9000u64.to_le_bytes());
    assert_eq!(bytes, expected);
}

#[test]
fn config_rejects_wrong_length() {
    assert_eq!(
        Config::try_from_bytes(&vec![0u8; 95]).unwrap_err(),
        MineError::InvalidAccountData
    );
    assert_eq!(
        Config::try_from_bytes(&vec![0u8; 97]).unwrap_err(),
        MineError::InvalidAccountData
    );
}

#[test]
fn bus_round_trip() {
    let b = Bus { id: 5, rewards: 123_456_789 };
    let bytes = b.to_bytes();
    assert_eq!(bytes.len(), 16);
    let d = Bus::try_from_bytes(&bytes).unwrap();
    assert_eq!(d.id, 5);
    assert_eq!(d.rewards, 123_456_789);
    assert_eq!(
        Bus::try_from_bytes(&vec![0u8; 15]).unwrap_err(),
        MineError::InvalidAccountData
    );
}

#[test]
fn miner_state_round_trip() {
    let m = MinerState {
        authority: key(9),
        miner: key(8),
        balance: 77,
        last_hash: key(7),
        last_hash_at: 1_000,
        last_stake_at: -2,
        total_hashes: 11,
        total_rewards: 22,
        challenge: key(6),
    };
    let bytes = m.to_bytes();
    assert_eq!(bytes.len(), 168);
    let d = MinerState::try_from_bytes(&bytes).unwrap();
    assert_eq!(d.authority, key(9));
    assert_eq!(d.miner, key(8));
    assert_eq!(d.balance, 77);
    assert_eq!(d.last_hash, key(7));
    assert_eq!(d.last_hash_at, 1_000);
    assert_eq!(d.last_stake_at, -2);
    assert_eq!(d.total_hashes, 11);
    assert_eq!(d.total_rewards, 22);
    assert_eq!(d.challenge, key(6));
    assert_eq!(
        MinerState::try_from_bytes(&vec![0u8; 167]).unwrap_err(),
        MineError::InvalidAccountData
    );
}

#[test]
fn reward_state_round_trip() {
    let mut top_miners = Vec::new();
    let mut top_rewards = Vec::new();
    for i in 0..8u8 {
        top_miners.push(key(100 + i));
        top_rewards.push(800 - (i as u64) * 100);
    }
    let r = RewardState { id: 4, rewards: 40, claimed: 14, top_miners, top_rewards };
    let bytes = r.to_bytes();
    assert_eq!(bytes.len(), 344);
    let d = RewardState::try_from_bytes(&bytes).unwrap();
    assert_eq!(d.id, 4);
    assert_eq!(d.rewards, 40);
    assert_eq!(d.claimed, 14);
    for i in 0..8usize {
        assert_eq!(d.top_miners[i], key(100 + i as u8));
        assert_eq!(d.top_rewards[i], 800 - (i as u64) * 100);
    }
    assert_eq!(
        RewardState::try_from_bytes(&vec![0u8; 343]).unwrap_err(),
        MineError::InvalidAccountData
    );
}

#[test]
fn mine_state_round_trip() {
    let m = MineState {
        difficulty: 12,
        total_effort: 34,
        last_block_hash: key(5),
        reward_pool: 56,
    };
    let bytes = m.to_bytes();
    assert_eq!(bytes.len(), 56);
    let d = MineState::try_from_bytes(&bytes).unwrap();
    assert_eq!(d.difficulty, 12);
    assert_eq!(d.total_effort, 34);
    assert_eq!(d.last_block_hash, key(5));
    assert_eq!(d.reward_pool, 56);
}

#[test]
fn mine_payload_round_trip() {
    let hash = key(0xAB);
    let nonce = vec![1, 2, 3, 4, 5, 6, 7, 8];
    let i = DeadInstruction::Mine { hash: hash.clone(), nonce: nonce.clone() };
    let bytes = i.encode();
    assert_eq!(bytes.len(), 41);
    assert_eq!(bytes[0], 0);
    assert_eq!(&bytes[1..33], hash.as_slice());
    assert_eq!(&bytes[33..41], nonce.as_slice());
    match DeadInstruction::decode(&bytes).unwrap() {
        DeadInstruction::Mine { hash: h, nonce: n } => {
            assert_eq!(h, hash);
            assert_eq!(n, nonce);
        }
        _ => panic!("decoded the wrong variant"),
    }
}

#[test]
fn auth_payload_round_trip() {
    let bytes = DeadInstruction::Auth.encode();
    assert_eq!(bytes, vec![1u8]);
    assert!(matches!(
        DeadInstruction::decode(&bytes).unwrap(),
        DeadInstruction::Auth
    ));
}

#[test]
fn malformed_payloads_are_rejected() {
    assert_eq!(
        DeadInstruction::decode(&Vec::new()).unwrap_err(),
        MineError::MalformedInstruction
    );
    // unknown discriminant
    assert_eq!(
        DeadInstruction::decode(&vec![2u8]).unwrap_err(),
        MineError::MalformedInstruction
    );
    // Mine payload one byte short
    assert_eq!(
        DeadInstruction::decode(&vec![0u8; 40]).unwrap_err(),
        MineError::MalformedInstruction
    );
    // Auth with trailing bytes
    assert_eq!(
        DeadInstruction::decode(&vec![1u8, 0u8]).unwrap_err(),
        MineError::MalformedInstruction
    );
}

#[test]
fn mine_instruction_round_trip() {
    let bytes = MineInstruction::Initialize { initial_difficulty: 77 }.encode();
    assert_eq!(bytes.len(), 9);
    assert_eq!(bytes[0], 0);
    assert_eq!(&bytes[1..9], &77u64.to_le_bytes());
    match MineInstruction::decode(&bytes).unwrap() {
        MineInstruction::Initialize { initial_difficulty } => {
            assert_eq!(initial_difficulty, 77)
        }
        _ => panic!("decoded the wrong variant"),
    }

    let ph = key(0xCD);
    let bytes = MineInstruction::VerifyMine { proof_hash: ph.clone() }.encode();
    assert_eq!(bytes.len(), 33);
    assert_eq!(bytes[0], 1);
    match MineInstruction::decode(&bytes).unwrap() {
        MineInstruction::VerifyMine { proof_hash } => assert_eq!(proof_hash, ph),
        _ => panic!("decoded the wrong variant"),
    }

    assert_eq!(
        MineInstruction::decode(&vec![3u8]).unwrap_err(),
        MineError::MalformedInstruction
    );
    assert_eq!(
        MineInstruction::decode(&vec![0u8; 8]).unwrap_err(),
        MineError::MalformedInstruction
    );
}

#[test]
fn to_instruction_fixes_the_account_order() {
    let addrs = ProgramAddresses {
        program_id: key(10),
        mint: key(11),
        token_program: key(12),
        system_program: key(13),
    };
    let signer = key(20);
    let beneficiary = key(21);
    let bus = key(22);
    let hash = key(0xEE);
    let nonce = vec![9, 9, 9, 9, 9, 9, 9, 9];
    let inst = DeadInstruction::Mine { hash: hash.clone(), nonce: nonce.clone() }
        .to_instruction(&addrs, &signer, &beneficiary, &bus);
    assert_eq!(inst.program_id, key(10));
    assert_eq!(inst.accounts.len(), 6);
    assert_eq!(inst.accounts[0].key, signer);
    assert!(inst.accounts[0].is_signer);
    assert!(!inst.accounts[0].is_writable);
    assert_eq!(inst.accounts[1].key, beneficiary);
    assert!(!inst.accounts[1].is_signer);
    assert!(!inst.accounts[1].is_writable);
    assert_eq!(inst.accounts[2].key, bus);
    assert!(inst.accounts[2].is_writable);
    assert_eq!(inst.accounts[3].key, key(11));
    assert_eq!(inst.accounts[4].key, key(12));
    assert_eq!(inst.accounts[5].key, key(13));
    assert_eq!(inst.data[0], 0);
    assert_eq!(&inst.data[1..33], hash.as_slice());
    assert_eq!(&inst.data[33..41], nonce.as_slice());

    let auth_inst = dead_api::instruction::auth(&addrs, &signer, &beneficiary, &bus);
    assert_eq!(auth_inst.data, vec![1u8]);
    assert_eq!(auth_inst.accounts.len(), 6);

    let mine_inst =
        dead_api::instruction::mine(&addrs, &signer, &beneficiary, &bus, hash, nonce);
    assert_eq!(mine_inst.data, inst.data);
}
