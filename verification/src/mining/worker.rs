//! One worker's part of the nonce search: the preimage, the difficulty
//! rule, the test of a nonce, and a batch of draws.
//!
//! The difficulty rule is the subset rule: a digest is accepted when every
//! bit set in its first 32-bit word is also set in the mask. No other rule
//! is implemented.

use crate::api::types::{Challenge, ChallengeView};
use crate::util::hexcode::{encode, hex_text, hex_value};
use crate::util::text::chars_of;
use rand_chacha::rand_core::RngCore;
use rand_chacha::rand_core::SeedableRng;
use vstd::prelude::*;
use vstd::string::StringExecFns;
use vstd::string::StringSliceAdditionalSpecFns;

verus! {

/// Passes of the memory-hard hash over its lookup table.
pub const LOOPS: u32 = 8;

/// Instructions the memory-hard hash runs per pass.
pub const INSTR: u32 = 256;

/// Size of the lookup table in bytes.
pub const ROM_SIZE: usize = 1_073_741_824;

/// Size of the buffer the lookup table is grown from, in bytes.
pub const PRE_SIZE: usize = 16_777_216;

/// Mixing passes over the lookup table while it is built.
pub const MIXING: usize = 4;

/// Attempts a worker makes between two looks at the clock and the found
/// signal.
pub const BATCH: usize = 256;

/// A hash function that gives 64 bytes for a preimage, the same bytes for
/// the same preimage.
pub trait PowHasher {
    /// The digest of `preimage`. A hasher that says no more of its digests
    /// than that they depend on the hasher and the preimage alone leaves
    /// this as it is.
    open spec fn digest_of(&self, preimage: Seq<u8>) -> Seq<u8> {
        (arbitrary::<spec_fn(&Self, Seq<u8>) -> Seq<u8>>())(self, preimage)
    }

    fn hash(&self, preimage: &[u8]) -> (digest: [u8; 64])
        ensures
            digest@ == self.digest_of(preimage@),
    ;
}

/// The seven fields of a preimage in their fixed order, with nothing
/// between them.
pub open spec fn preimage_text(
    nonce_hex: Seq<char>,
    address: Seq<char>,
    challenge_id: Seq<char>,
    difficulty: Seq<char>,
    no_pre_mine: Seq<char>,
    latest_submission: Seq<char>,
    no_pre_mine_hour: Seq<char>,
) -> Seq<char> {
    nonce_hex + address + challenge_id + difficulty + no_pre_mine + latest_submission
        + no_pre_mine_hour
}

pub fn build_preimage(
    nonce_hex: &str,
    address: &str,
    challenge_id: &str,
    difficulty: &str,
    no_pre_mine: &str,
    latest_submission: &str,
    no_pre_mine_hour: &str,
) -> (preimage: String)
    ensures
        preimage@ == preimage_text(
            nonce_hex@,
            address@,
            challenge_id@,
            difficulty@,
            no_pre_mine@,
            latest_submission@,
            no_pre_mine_hour@,
        ),
{
    let mut s = String::new();
    s.append(nonce_hex);
    s.append(address);
    s.append(challenge_id);
    s.append(difficulty);
    s.append(no_pre_mine);
    s.append(latest_submission);
    s.append(no_pre_mine_hour);
    assert(s@ == preimage_text(
        nonce_hex@,
        address@,
        challenge_id@,
        difficulty@,
        no_pre_mine@,
        latest_submission@,
        no_pre_mine_hour@,
    ));
    s
}

/// The first four bytes of a digest as a big-endian 32-bit word.
pub open spec fn digest_word(digest: Seq<u8>) -> u32 {
    (digest[0] as int * 0x100_0000 + digest[1] as int * 0x1_0000 + digest[2] as int * 0x100
        + digest[3] as int) as u32
}

/// The number that eight hexadecimal digits spell.
pub open spec fn eight_digits(d: Seq<char>) -> int {
    hex_value(d[0])->0 * 0x1000_0000 + hex_value(d[1])->0 * 0x100_0000 + hex_value(d[2])->0
        * 0x10_0000 + hex_value(d[3])->0 * 0x1_0000 + hex_value(d[4])->0 * 0x1000 + hex_value(
        d[5],
    )->0 * 0x100 + hex_value(d[6])->0 * 0x10 + hex_value(d[7])->0
}

/// The mask a difficulty text stands for: its first eight characters read
/// as hexadecimal digits of either case. A text that is shorter, or holds
/// anything else among them, stands for no mask.
pub open spec fn difficulty_mask(difficulty: Seq<char>) -> Option<u32> {
    if difficulty.len() >= 8 && (forall|i: int| 0 <= i < 8 ==> (#[trigger] hex_value(
        difficulty[i],
    )) is Some) {
        Some(eight_digits(difficulty) as u32)
    } else {
        None
    }
}

/// The acceptance rule: no bit of the word lies outside the mask.
pub open spec fn mask_accepts(word: u32, mask: u32) -> bool {
    word & !mask == 0
}

/// Whether a digest meets a difficulty text. A text that stands for no mask
/// is met by nothing.
pub open spec fn digest_meets(digest: Seq<u8>, difficulty: Seq<char>) -> bool {
    match difficulty_mask(difficulty) {
        Some(mask) => mask_accepts(digest_word(digest), mask),
        None => false,
    }
}

/// The all-ones mask accepts every word.
pub proof fn lemma_full_mask_accepts_all(word: u32)
    ensures
        mask_accepts(word, 0xFFFF_FFFF),
{
    assert(word & !0xFFFF_FFFFu32 == 0) by (bit_vector);
}

/// The zero word is accepted by every mask, and the zero mask accepts
/// nothing else.
pub proof fn lemma_zero_word_and_zero_mask(word: u32, mask: u32)
    ensures
        mask_accepts(0, mask),
        mask_accepts(word, 0) <==> word == 0,
{
    assert(0u32 & !mask == 0) by (bit_vector);
    assert((word & !0u32 == 0) <==> word == 0) by (bit_vector);
}

/// The rule in its other spelling: the word adds no bit to the mask.
pub proof fn lemma_accepts_iff_no_new_bit(word: u32, mask: u32)
    ensures
        mask_accepts(word, mask) <==> (word | mask) == mask,
{
    assert((word & !mask == 0) <==> ((word | mask) == mask)) by (bit_vector);
}

/// A mask that holds every bit of another accepts every word the other
/// accepts.
pub proof fn lemma_wider_mask_accepts_more(word: u32, narrow: u32, wide: u32)
    requires
        mask_accepts(narrow, wide),
        mask_accepts(word, narrow),
    ensures
        mask_accepts(word, wide),
{
    assert((narrow & !wide == 0 && word & !narrow == 0) ==> word & !wide == 0) by (bit_vector);
}

/// Whether `mask` accepts `word`.
pub fn meets_mask(word: u32, mask: u32) -> (accepted: bool)
    ensures
        accepted == mask_accepts(word, mask),
{
    proof {
        lemma_accepts_iff_no_new_bit(word, mask);
    }
    (word | mask) == mask
}

/// The value of a hexadecimal digit of either case.
pub fn digit_value(c: char) -> (value: Option<u32>)
    ensures
        match value {
            Some(v) => hex_value(c) == Some(v as int) && v < 16,
            None => hex_value(c) is None,
        },
{
    let n: u32 = c as u32;
    if 48 <= n && n <= 57 {
        Some(n - 48)
    } else if 97 <= n && n <= 102 {
        Some(n - 87)
    } else if 65 <= n && n <= 70 {
        Some(n - 55)
    } else {
        None
    }
}

/// Reads a difficulty text as its mask.
pub fn parse_difficulty(difficulty: &str) -> (mask: Option<u32>)
    ensures
        mask == difficulty_mask(difficulty@),
{
    let chars = chars_of(difficulty);
    if chars.len() < 8 {
        return None;
    }
    let digits = (
        digit_value(chars[0]),
        digit_value(chars[1]),
        digit_value(chars[2]),
        digit_value(chars[3]),
        digit_value(chars[4]),
        digit_value(chars[5]),
        digit_value(chars[6]),
        digit_value(chars[7]),
    );
    match digits {
        (Some(d0), Some(d1), Some(d2), Some(d3), Some(d4), Some(d5), Some(d6), Some(d7)) => {
            assert forall|i: int| 0 <= i < 8 implies (#[trigger] hex_value(difficulty@[i]))
                is Some by {
                if i == 0 {
                } else if i == 1 {
                } else if i == 2 {
                } else if i == 3 {
                } else if i == 4 {
                } else if i == 5 {
                } else if i == 6 {
                } else {
                    assert(i == 7);
                }
            }
            Some(
                d0 * 0x1000_0000 + d1 * 0x100_0000 + d2 * 0x10_0000 + d3 * 0x1_0000 + d4 * 0x1000
                    + d5 * 0x100 + d6 * 0x10 + d7,
            )
        },
        _ => None,
    }
}

/// Reads the first four bytes of a digest as a big-endian word.
pub fn leading_word(digest: &[u8; 64]) -> (word: u32)
    ensures
        word == digest_word(digest@),
{
    (digest[0] as u32) * 0x100_0000 + (digest[1] as u32) * 0x1_0000 + (digest[2] as u32) * 0x100
        + (digest[3] as u32)
}

/// Whether `digest` meets the difficulty `diff`, which stands for a mask.
pub fn matches_diff(digest: &[u8; 64], diff: &str) -> (accepted: bool)
    requires
        difficulty_mask(diff@) is Some,
    ensures
        accepted == digest_meets(digest@, diff@),
{
    match parse_difficulty(diff) {
        Some(mask) => meets_mask(leading_word(digest), mask),
        None => false,
    }
}

/// The preimage of a nonce for an address and a challenge.
pub open spec fn challenge_preimage(
    nonce: Seq<u8>,
    address: Seq<char>,
    challenge: ChallengeView,
) -> Seq<char> {
    preimage_text(
        hex_text(nonce),
        address,
        challenge.challenge_id,
        challenge.difficulty,
        challenge.no_pre_mine,
        challenge.latest_submission,
        challenge.no_pre_mine_hour,
    )
}

/// Whether a nonce solves a challenge for an address under a hasher: the
/// digest of the preimage's UTF-8 bytes meets the challenge's difficulty.
#[verifier::opaque]
pub open spec fn nonce_solves<H: PowHasher>(
    hasher: &H,
    nonce: Seq<u8>,
    address: Seq<char>,
    challenge: ChallengeView,
) -> bool {
    digest_meets(
        hasher.digest_of(vstd::utf8::encode_utf8(challenge_preimage(nonce, address, challenge))),
        challenge.difficulty,
    )
}

/// The preimage of `nonce` for `address` and `challenge`.
pub fn preimage_for(nonce: &[u8; 8], address: &str, challenge: &Challenge) -> (preimage: String)
    ensures
        preimage@ == challenge_preimage(nonce@, address@, challenge@),
{
    let nonce_hex = encode(nonce.as_slice());
    build_preimage(
        nonce_hex.as_str(),
        address,
        challenge.challenge_id.as_str(),
        challenge.difficulty.as_str(),
        challenge.no_pre_mine.as_str(),
        challenge.latest_submission.as_str(),
        challenge.no_pre_mine_hour.as_str(),
    )
}

/// Tests one nonce: builds its preimage, hashes it and holds the digest
/// against the challenge's difficulty.
pub fn try_nonce<H: PowHasher>(
    hasher: &H,
    nonce: &[u8; 8],
    address: &str,
    challenge: &Challenge,
) -> (solved: bool)
    ensures
        solved == nonce_solves(hasher, nonce@, address@, challenge@),
{
    proof {
        reveal(nonce_solves);
    }
    let preimage = preimage_for(nonce, address, challenge);
    let digest = hasher.hash(preimage.as_str().as_bytes());
    match parse_difficulty(challenge.difficulty.as_str()) {
        Some(mask) => meets_mask(leading_word(&digest), mask),
        None => false,
    }
}

/// The position of the first of `candidates` that solves the challenge, if
/// any of them does.
pub fn first_accepted<H: PowHasher>(
    hasher: &H,
    candidates: &Vec<[u8; 8]>,
    address: &str,
    challenge: &Challenge,
) -> (found: Option<usize>)
    ensures
        match found {
            Some(i) => i < candidates.len() && nonce_solves(
                hasher,
                candidates[i as int]@,
                address@,
                challenge@,
            ) && forall|j: int|
                0 <= j < i ==> !nonce_solves(
                    hasher,
                    (#[trigger] candidates[j])@,
                    address@,
                    challenge@,
                ),
            None => forall|j: int|
                0 <= j < candidates.len() ==> !nonce_solves(
                    hasher,
                    (#[trigger] candidates[j])@,
                    address@,
                    challenge@,
                ),
        },
{
    let mut i: usize = 0;
    while i < candidates.len()
        invariant
            i <= candidates.len(),
            forall|j: int|
                0 <= j < i ==> !nonce_solves(
                    hasher,
                    (#[trigger] candidates[j])@,
                    address@,
                    challenge@,
                ),
        decreases candidates.len() - i,
    {
        if try_nonce(hasher, &candidates[i], address, challenge) {
            return Some(i);
        }
        i += 1;
    }
    None
}

/// The seed of a worker's nonce stream: the worker's index in eight
/// little-endian bytes, then 24 bytes of entropy of the caller's choosing.
pub open spec fn seed_bytes(worker_id: u64, entropy: Seq<u8>) -> Seq<u8> {
    Seq::new(
        32,
        |i: int|
            if i == 0 {
                (worker_id % 0x100) as u8
            } else if i == 1 {
                (worker_id / 0x100 % 0x100) as u8
            } else if i == 2 {
                (worker_id / 0x1_0000 % 0x100) as u8
            } else if i == 3 {
                (worker_id / 0x100_0000 % 0x100) as u8
            } else if i == 4 {
                (worker_id / 0x1_0000_0000 % 0x100) as u8
            } else if i == 5 {
                (worker_id / 0x100_0000_0000 % 0x100) as u8
            } else if i == 6 {
                (worker_id / 0x1_0000_0000_0000 % 0x100) as u8
            } else if i == 7 {
                (worker_id / 0x100_0000_0000_0000 % 0x100) as u8
            } else {
                entropy[i - 8]
            },
    )
}

/// Builds the seed of worker `worker_id`.
pub fn worker_seed(worker_id: u64, entropy: &[u8; 24]) -> (seed: [u8; 32])
    ensures
        seed@ == seed_bytes(worker_id, entropy@),
{
    let mut seed: [u8; 32] = [0u8; 32];
    seed[0] = (worker_id % 0x100) as u8;
    seed[1] = (worker_id / 0x100 % 0x100) as u8;
    seed[2] = (worker_id / 0x1_0000 % 0x100) as u8;
    seed[3] = (worker_id / 0x100_0000 % 0x100) as u8;
    seed[4] = (worker_id / 0x1_0000_0000 % 0x100) as u8;
    seed[5] = (worker_id / 0x100_0000_0000 % 0x100) as u8;
    seed[6] = (worker_id / 0x1_0000_0000_0000 % 0x100) as u8;
    seed[7] = (worker_id / 0x100_0000_0000_0000 % 0x100) as u8;
    let mut i: usize = 0;
    while i < 24
        invariant
            i <= 24,
            forall|j: int| 0 <= j < 8 ==> seed@[j] == seed_bytes(worker_id, entropy@)[j],
            forall|j: int| 8 <= j < 8 + i ==> seed@[j] == entropy@[j - 8],
        decreases 24 - i,
    {
        seed[i + 8] = entropy[i];
        i += 1;
    }
    assert(seed@ =~= seed_bytes(worker_id, entropy@));
    seed
}

/// Two workers with different indices never share a seed, whatever their
/// entropy.
pub proof fn lemma_seeds_differ(a: u64, b: u64, entropy_a: Seq<u8>, entropy_b: Seq<u8>)
    requires
        a != b,
    ensures
        seed_bytes(a, entropy_a) != seed_bytes(b, entropy_b),
{
    let sa = seed_bytes(a, entropy_a);
    let sb = seed_bytes(b, entropy_b);
    if sa == sb {
        assert(sa[0] == sb[0] && sa[1] == sb[1] && sa[2] == sb[2] && sa[3] == sb[3] && sa[4]
            == sb[4] && sa[5] == sb[5] && sa[6] == sb[6] && sa[7] == sb[7]);
        lemma_le_bytes_decide(a, b);
    }
}

/// A 64-bit number is decided by its eight bytes.
proof fn lemma_le_bytes_decide(a: u64, b: u64)
    by (bit_vector)
    requires
        a % 0x100 == b % 0x100,
        a / 0x100 % 0x100 == b / 0x100 % 0x100,
        a / 0x1_0000 % 0x100 == b / 0x1_0000 % 0x100,
        a / 0x100_0000 % 0x100 == b / 0x100_0000 % 0x100,
        a / 0x1_0000_0000 % 0x100 == b / 0x1_0000_0000 % 0x100,
        a / 0x100_0000_0000 % 0x100 == b / 0x100_0000_0000 % 0x100,
        a / 0x1_0000_0000_0000 % 0x100 == b / 0x1_0000_0000_0000 % 0x100,
        a / 0x100_0000_0000_0000 % 0x100 == b / 0x100_0000_0000_0000 % 0x100,
    ensures
        a == b,
{
}

/// The eight bytes that the ChaCha12 stream of a 32-byte seed holds from
/// the 32-bit word at `word_pos` on.
pub uninterp spec fn chacha12_eight(seed: Seq<u8>, word_pos: u128) -> Seq<u8>;

/// Calls `ChaCha12Rng::from_seed`, `set_word_pos` and `fill_bytes` of
/// `rand_chacha`: the eight bytes of the seed's stream from the given word
/// on. They depend on the seed and the position alone.
#[verifier::external_body]
fn stream_bytes(seed: &[u8; 32], word_pos: u128) -> (bytes: [u8; 8])
    ensures
        bytes@ == chacha12_eight(seed@, word_pos),
{
    let mut generator = rand_chacha::ChaCha12Rng::from_seed(*seed);
    generator.set_word_pos(word_pos);
    let mut bytes = [0u8; 8];
    generator.fill_bytes(&mut bytes);
    bytes
}

/// The nonce with number `index` of a seed's stream: the stream's bytes
/// taken eight at a time.
pub open spec fn nonce_of(seed: Seq<u8>, index: u64) -> Seq<u8> {
    chacha12_eight(seed, (index as int * 2) as u128)
}

/// The number after `index`; behind the largest number the stream starts
/// over.
pub open spec fn next_index(index: u64) -> u64 {
    if index == u64::MAX {
        0
    } else {
        (index + 1) as u64
    }
}

/// A worker's stream of nonces: a seed and how far the stream has been
/// drawn.
pub struct NonceStream {
    seed: [u8; 32],
    drawn: u64,
}

impl NonceStream {
    /// The seed of the stream.
    pub closed spec fn seed(&self) -> Seq<u8> {
        self.seed@
    }

    /// The number of the nonce that is drawn next.
    pub closed spec fn position(&self) -> u64 {
        self.drawn
    }

    /// The stream of the worker with index `worker_id`, at its start.
    pub fn for_worker(worker_id: u64, entropy: &[u8; 24]) -> (stream: NonceStream)
        ensures
            stream.seed() == seed_bytes(worker_id, entropy@),
            stream.position() == 0,
    {
        NonceStream { seed: worker_seed(worker_id, entropy), drawn: 0 }
    }

    /// The next nonce of the stream.
    pub fn next_nonce(&mut self) -> (nonce: [u8; 8])
        ensures
            nonce@ == nonce_of(old(self).seed(), old(self).position()),
            final(self).seed() == old(self).seed(),
            final(self).position() == next_index(old(self).position()),
    {
        let nonce = stream_bytes(&self.seed, (self.drawn as u128) * 2);
        self.drawn = if self.drawn == u64::MAX {
            0
        } else {
            self.drawn + 1
        };
        nonce
    }
}

/// The number of the first nonce that solves the challenge among the
/// `attempts` nonces of the seed's stream from number `from` on, if one of
/// them does.
pub open spec fn first_solving<H: PowHasher>(
    hasher: &H,
    seed: Seq<u8>,
    address: Seq<char>,
    challenge: ChallengeView,
    from: u64,
    attempts: nat,
) -> Option<u64>
    decreases attempts,
{
    if attempts == 0 {
        None
    } else if nonce_solves(hasher, nonce_of(seed, from), address, challenge) {
        Some(from)
    } else {
        first_solving(hasher, seed, address, challenge, next_index(from), (attempts - 1) as nat)
    }
}

/// Where the stream stands after `steps` draws from `from`.
pub open spec fn index_after(from: u64, steps: nat) -> u64
    decreases steps,
{
    if steps == 0 {
        from
    } else {
        index_after(next_index(from), (steps - 1) as nat)
    }
}

/// Draws up to `attempts` nonces from `stream` and tests each. The first
/// that solves the challenge is returned, and the stream stands just
/// behind it. Where none of them solves it, nothing is returned and the
/// stream stands behind them all.
pub fn mine_batch<H: PowHasher>(
    hasher: &H,
    stream: &mut NonceStream,
    address: &str,
    challenge: &Challenge,
    attempts: usize,
) -> (found: Option<[u8; 8]>)
    ensures
        final(stream).seed() == old(stream).seed(),
        match first_solving(
            hasher,
            old(stream).seed(),
            address@,
            challenge@,
            old(stream).position(),
            attempts as nat,
        ) {
            Some(index) => found matches Some(nonce) && nonce@ == nonce_of(
                old(stream).seed(),
                index,
            ) && nonce_solves(hasher, nonce@, address@, challenge@) && final(stream).position()
                == next_index(index),
            None => found is None && final(stream).position() == index_after(
                old(stream).position(),
                attempts as nat,
            ),
        },
{
    let ghost seed = stream.seed();
    let ghost start = stream.position();
    let mut done: usize = 0;
    while done < attempts
        invariant
            done <= attempts,
            seed == old(stream).seed(),
            start == old(stream).position(),
            stream.seed() == seed,
            stream.position() == index_after(start, done as nat),
            first_solving(hasher, seed, address@, challenge@, start, attempts as nat)
                == first_solving(
                hasher,
                seed,
                address@,
                challenge@,
                stream.position(),
                (attempts - done) as nat,
            ),
        decreases attempts - done,
    {
        let ghost at = stream.position();
        let ghost left = (attempts - done) as nat;
        assert(first_solving(hasher, seed, address@, challenge@, at, left) == if nonce_solves(
            hasher,
            nonce_of(seed, at),
            address@,
            challenge@,
        ) {
            Some(at)
        } else {
            first_solving(hasher, seed, address@, challenge@, next_index(at), (left - 1) as nat)
        });
        let nonce = stream.next_nonce();
        if try_nonce(hasher, &nonce, address, challenge) {
            return Some(nonce);
        }
        proof {
            lemma_index_after_step(start, done as nat);
        }
        done += 1;
    }
    assert(first_solving(hasher, seed, address@, challenge@, stream.position(), 0) is None);
    None
}

/// One more draw moves the stream on by one.
proof fn lemma_index_after_step(from: u64, steps: nat)
    ensures
        index_after(from, steps + 1) == next_index(index_after(from, steps)),
    decreases steps,
{
    if steps > 0 {
        lemma_index_after_step(next_index(from), (steps - 1) as nat);
        assert(index_after(from, steps) == index_after(next_index(from), (steps - 1) as nat));
        assert(index_after(from, steps + 1) == index_after(next_index(from), steps));
    } else {
        assert(index_after(next_index(from), 0) == next_index(from));
        assert(index_after(from, 1) == index_after(next_index(from), 0));
    }
}

/// A point in time: whole seconds since the start of 1970 in UTC, and the
/// nanoseconds behind them.
#[derive(Copy, Clone, Debug, PartialEq, Eq, Structural)]
pub struct Timestamp {
    pub secs: i64,
    pub nanos: u32,
}

impl Timestamp {
    /// The point in time as nanoseconds since the start of 1970.
    pub open spec fn total_nanos(self) -> int {
        self.secs as int * 1_000_000_000 + self.nanos as int
    }

    /// Whether this point in time lies behind `other`.
    pub open spec fn is_after(self, other: Timestamp) -> bool {
        self.total_nanos() > other.total_nanos()
    }

    /// Whether this point in time lies behind `other`.
    pub fn after(&self, other: &Timestamp) -> (later: bool)
        ensures
            later == self.is_after(*other),
    {
        let mine: i128 = (self.secs as i128) * 1_000_000_000 + (self.nanos as i128);
        let theirs: i128 = (other.secs as i128) * 1_000_000_000 + (other.nanos as i128);
        mine > theirs
    }
}

/// The point in time that an RFC 3339 text names, as seconds and
/// nanoseconds, if it names one.
pub uninterp spec fn rfc3339_instant(text: Seq<char>) -> Option<(i64, u32)>;

/// Calls `DateTime::parse_from_rfc3339` of `chrono` and reads the result
/// with `timestamp` and `timestamp_subsec_nanos`. The text carries its own
/// offset from UTC, so what comes back depends on the text alone.
#[verifier::external_body]
fn parse_rfc3339(text: &str) -> (parsed: Option<Timestamp>)
    ensures
        parsed is Some <==> rfc3339_instant(text@) is Some,
        parsed is Some ==> (parsed->0.secs, parsed->0.nanos) == rfc3339_instant(text@)->0,
{
    match chrono::DateTime::parse_from_rfc3339(text) {
        Ok(moment) => Some(
            Timestamp { secs: moment.timestamp(), nanos: moment.timestamp_subsec_nanos() },
        ),
        Err(_) => None,
    }
}

/// The deadline a text stands for. A text that names no point in time
/// stands for no deadline.
pub open spec fn deadline_of(text: Seq<char>) -> Option<Timestamp> {
    match rfc3339_instant(text) {
        Some((secs, nanos)) => Some(Timestamp { secs, nanos }),
        None => None,
    }
}

/// The deadline of a challenge: its latest time of submission.
pub fn challenge_deadline(challenge: &Challenge) -> (deadline: Option<Timestamp>)
    ensures
        deadline == deadline_of(challenge@.latest_submission),
{
    parse_rfc3339(challenge.latest_submission.as_str())
}

/// Whether a worker stops before its next batch: a solution was found, by
/// this worker or another, or the deadline lies behind.
pub open spec fn must_stop(found: bool, now: Timestamp, deadline: Option<Timestamp>) -> bool {
    found || match deadline {
        Some(limit) => now.is_after(limit),
        None => false,
    }
}

/// Whether a worker stops before its next batch.
pub fn worker_should_stop(found: bool, now: &Timestamp, deadline: &Option<Timestamp>) -> (stop:
    bool)
    ensures
        stop == must_stop(found, *now, *deadline),
{
    if found {
        return true;
    }
    match deadline {
        Some(limit) => now.after(limit),
        None => false,
    }
}

/// How long the engine waits for a worker's nonce.
#[derive(Copy, Clone, Debug, PartialEq, Eq, Structural)]
pub enum WaitPlan {
    /// There is no deadline: until a nonce comes.
    Unbounded,
    /// Until a nonce comes, and no longer than this many nanoseconds.
    For { nanos: u128 },
    /// The deadline lies behind, or is now: not at all.
    Expired,
}

/// The wait that a deadline leaves at `now`.
pub open spec fn wait_of(deadline: Option<Timestamp>, now: Timestamp) -> WaitPlan {
    match deadline {
        None => WaitPlan::Unbounded,
        Some(limit) => if limit.is_after(now) {
            WaitPlan::For { nanos: (limit.total_nanos() - now.total_nanos()) as u128 }
        } else {
            WaitPlan::Expired
        },
    }
}

/// Plans the engine's wait for a nonce.
pub fn wait_plan(deadline: &Option<Timestamp>, now: &Timestamp) -> (plan: WaitPlan)
    ensures
        plan == wait_of(*deadline, *now),
{
    match deadline {
        None => WaitPlan::Unbounded,
        Some(limit) => {
            let end: i128 = (limit.secs as i128) * 1_000_000_000 + (limit.nanos as i128);
            let start: i128 = (now.secs as i128) * 1_000_000_000 + (now.nanos as i128);
            if end > start {
                WaitPlan::For { nanos: (end - start) as u128 }
            } else {
                WaitPlan::Expired
            }
        },
    }
}

/// A worker that must not stop for the deadline has time left to wait for,
/// and one that must stop for it has none.
pub proof fn lemma_wait_agrees_with_stop(deadline: Timestamp, now: Timestamp)
    ensures
        must_stop(false, now, Some(deadline)) ==> wait_of(Some(deadline), now)
            == WaitPlan::Expired,
        wait_of(Some(deadline), now) is For ==> !must_stop(false, now, Some(deadline)),
{
}

/// The nonce as the protocol spells it: sixteen lower-case hexadecimal
/// digits.
pub fn nonce_hex(nonce: &[u8; 8]) -> (text: String)
    ensures
        text@ == hex_text(nonce@),
        text@.len() == 16,
{
    encode(nonce.as_slice())
}

} // verus!
