//! The plain Blake2b digest: a hasher that needs no lookup table.

use crate::mining::worker::{digest_meets, leading_word, meets_mask, parse_difficulty, PowHasher};
use blake2::Digest;
use vstd::prelude::*;

verus! {

/// The Blake2b digest of 512 bits of `data`.
pub uninterp spec fn blake2b_512(data: Seq<u8>) -> Seq<u8>;

/// Calls `Blake2b512` of `blake2` through `Digest::new`, `update` and
/// `finalize`: the 64 bytes are the digest of `data`.
#[verifier::external_body]
fn blake2b512(data: &[u8]) -> (digest: [u8; 64])
    ensures
        digest@ == blake2b_512(data@),
{
    let mut hasher = blake2::Blake2b512::new();
    hasher.update(data);
    let full = hasher.finalize();
    let mut out = [0u8; 64];
    out.copy_from_slice(&full);
    out
}

/// A Blake2b hasher. It holds no state.
pub struct BlakeCtx;

impl BlakeCtx {
    pub fn new(_label: &str) -> (ctx: Self) {
        BlakeCtx
    }
}

impl PowHasher for BlakeCtx {
    open spec fn digest_of(&self, preimage: Seq<u8>) -> Seq<u8> {
        blake2b_512(preimage)
    }

    fn hash(&self, preimage: &[u8]) -> (digest: [u8; 64]) {
        blake2b512(preimage)
    }
}

/// The first 32 bytes of the Blake2b-512 digest of `preimage`.
pub fn hash_preimage(_ctx: &BlakeCtx, preimage: &[u8]) -> (out: [u8; 32])
    ensures
        out@ == blake2b_512(preimage@).take(32),
{
    let full = blake2b512(preimage);
    let mut out: [u8; 32] = [0u8; 32];
    let mut i: usize = 0;
    while i < 32
        invariant
            i <= 32,
            forall|j: int| 0 <= j < i ==> out@[j] == full@[j],
        decreases 32 - i,
    {
        out[i] = full[i];
        i += 1;
    }
    assert(out@ =~= full@.take(32));
    out
}

/// Whether `hash` meets the difficulty `difficulty_hex` under the subset
/// rule. A text that stands for no mask is met by nothing.
pub fn difficulty_meets(hash: &[u8; 64], difficulty_hex: &str) -> (accepted: bool)
    ensures
        accepted == digest_meets(hash@, difficulty_hex@),
{
    match parse_difficulty(difficulty_hex) {
        Some(mask) => meets_mask(leading_word(hash), mask),
        None => false,
    }
}

} // verus!
