//! Deployment-wide constants: shard count, epoch timing, and the seed tags
//! used to derive sub-account identities.

use vstd::prelude::*;

verus! {

/// Number of independent reward-pool shards ("buses").
pub const BUS_COUNT: usize = 8;

/// One minute, in seconds.
pub const ONE_MINUTE: i64 = 60;

/// Length of a coal reward epoch, in seconds (24 hours).
pub const COAL_EPOCH_DURATION: i64 = 60 * 60 * 24;

/// Length of a wood reward epoch, in seconds (24 hours).
pub const WOOD_EPOCH_DURATION: i64 = 60 * 60 * 24;

/// Submissions per epoch the difficulty adjustment aims at: one per minute
/// over a 24-hour epoch.
pub const TARGET_EPOCH_SUBMISSIONS: u64 = 60 * 24;

/// Seed tag for deriving a miner's proof sub-account (the bytes of "proof").
pub const PROOF: [u8; 5] = [112, 114, 111, 111, 102];

/// Seed tag for deriving the treasury sub-account (the bytes of "treasury").
pub const TREASURY: [u8; 8] = [116, 114, 101, 97, 115, 117, 114, 121];

/// Seed tag for deriving the config sub-account (the bytes of "config").
pub const CONFIG: [u8; 6] = [99, 111, 110, 102, 105, 103];

/// Seed tag for deriving a bus sub-account (the bytes of "bus").
pub const BUS: [u8; 3] = [98, 117, 115];

} // verus!
