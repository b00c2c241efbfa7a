//! Core of a ledger-resident mining verification engine: fixed-layout account
//! and instruction codecs, a proof-of-work verifier, and the epoch/reward
//! state machine that ties them together.

use vstd::prelude::*;

pub mod codec;
pub mod consts;
pub mod error;
pub mod hash;
pub mod instruction;
pub mod machine;
pub mod state;

verus! {

/// Compare two byte vectors for equality of contents.
pub fn bytes_eq(a: &Vec<u8>, b: &Vec<u8>) -> (r: bool)
    ensures
        r <==> a@ == b@,
{
    if a.len() != b.len() {
        proof {
            assert(a@.len() != b@.len());
        }
        return false;
    }
    let n = a.len();
    let mut i: usize = 0;
    while i < n
        invariant
            n == a@.len(),
            n == b@.len(),
            i <= n,
            forall|j: int| 0 <= j < i ==> a@[j] == b@[j],
        decreases n - i,
    {
        if a[i] != b[i] {
            return false;
        }
        i += 1;
    }
    proof {
        assert(a@ =~= b@);
    }
    true
}

} // verus!
