use rand_chacha::rand_core::{RngCore, SeedableRng};
use scavenger_miner::api::types::Challenge;
use scavenger_miner::mining::blakehash::{hash_preimage, BlakeCtx};
use scavenger_miner::mining::worker::{
    build_preimage, challenge_deadline, first_accepted, mine_batch, nonce_hex, preimage_for,
    try_nonce, wait_plan, worker_seed, worker_should_stop, NonceStream, PowHasher, Timestamp,
    WaitPlan, BATCH, INSTR, LOOPS, MIXING, PRE_SIZE, ROM_SIZE,
};

fn challenge(difficulty: &str, latest_submission: &str) -> Challenge {
    Challenge {
        challenge_id: "**D06C22".to_string(),
        day: 6,
        challenge_number: 22,
        issued_at: "2025-11-04T21:00:00.000Z".to_string(),
        latest_submission: latest_submission.to_string(),
        difficulty: difficulty.to_string(),
        no_pre_mine: "seedseed".to_string(),
        no_pre_mine_hour: "548571128".to_string(),
    }
}

/// Accepts exactly the preimages that start with the all-zero nonce.
struct ZeroNonceOnly;

impl PowHasher for ZeroNonceOnly {
    fn hash(&self, preimage: &[u8]) -> [u8; 64] {
        if preimage.starts_with(b"0000000000000000") {
            [0u8; 64]
        } else {
            [0xffu8; 64]
        }
    }
}

/// Accepts everything.
struct AcceptAll;

impl PowHasher for AcceptAll {
    fn hash(&self, _preimage: &[u8]) -> [u8; 64] {
        [0u8; 64]
    }
}

/// Accepts nothing.
struct AcceptNone;

impl PowHasher for AcceptNone {
    fn hash(&self, _preimage: &[u8]) -> [u8; 64] {
        [0xffu8; 64]
    }
}

#[test]
fn protocol_constants() {
    assert_eq!(LOOPS, 8);
    assert_eq!(INSTR, 256);
    assert_eq!(ROM_SIZE, 1 << 30);
    assert_eq!(PRE_SIZE, 16 * 1024 * 1024);
    assert_eq!(MIXING, 4);
    assert_eq!(BATCH, 256);
}

#[test]
fn preimage_field_order() {
    assert_eq!(
        build_preimage("N", "A", "C", "D", "P", "L", "H"),
        "NACDPLH".to_string()
    );
    assert_eq!(
        build_preimage(
            "00000000000000ff",
            "addr1xyz",
            "**D06C22",
            "00001FFF",
            "seed",
            "2025-11-04T22:00:00.000Z",
            "548571128"
        ),
        "00000000000000ffaddr1xyz**D06C2200001FFFseed2025-11-04T22:00:00.000Z548571128"
    );
    assert_eq!(build_preimage("", "", "", "", "", "", ""), "");
}

#[test]
fn nonce_is_spelled_in_lower_case_hex() {
    assert_eq!(nonce_hex(&[0u8; 8]), "0000000000000000");
    assert_eq!(
        nonce_hex(&[0x01, 0x23, 0x45, 0x67, 0x89, 0xab, 0xcd, 0xef]),
        "0123456789abcdef"
    );
    assert_eq!(nonce_hex(&[0xff; 8]), "ffffffffffffffff");
}

#[test]
fn preimage_of_a_nonce() {
    let ch = challenge("00001FFF", "2025-11-04T22:00:00.000Z");
    assert_eq!(
        preimage_for(&[0, 0, 0, 0, 0, 0, 0x0a, 0xbc], "addr_test1abc", &ch),
        "0000000000000abcaddr_test1abc**D06C2200001FFFseedseed2025-11-04T22:00:00.000Z548571128"
    );
}

#[test]
fn hash_accepting_zero_nonce_is_found_before_deadline() {
    let ch = challenge("00001FFF", "2030-01-01T00:00:02Z");
    let deadline = challenge_deadline(&ch);
    let now = Timestamp { secs: 1_893_456_000, nanos: 0 };
    assert_eq!(deadline, Some(Timestamp { secs: 1_893_456_002, nanos: 0 }));
    assert_eq!(wait_plan(&deadline, &now), WaitPlan::For { nanos: 2_000_000_000 });
    assert!(!worker_should_stop(false, &now, &deadline));

    assert!(try_nonce(&ZeroNonceOnly, &[0u8; 8], "addr_test1abc", &ch));
    assert!(!try_nonce(&ZeroNonceOnly, &[1u8; 8], "addr_test1abc", &ch));

    let candidates = vec![[7u8; 8], [9u8; 8], [0u8; 8], [3u8; 8], [0u8; 8]];
    let found = first_accepted(&ZeroNonceOnly, &candidates, "addr_test1abc", &ch);
    assert_eq!(found, Some(2));
    assert_eq!(nonce_hex(&candidates[found.unwrap()]), "0000000000000000");
}

#[test]
fn first_accepted_finds_nothing_where_nothing_solves() {
    let ch = challenge("00001FFF", "2030-01-01T00:00:02Z");
    let candidates = vec![[7u8; 8], [9u8; 8]];
    assert_eq!(first_accepted(&ZeroNonceOnly, &candidates, "a", &ch), None);
    assert_eq!(first_accepted(&AcceptAll, &Vec::new(), "a", &ch), None);
    assert_eq!(first_accepted(&AcceptAll, &candidates, "a", &ch), Some(0));
}

#[test]
fn nothing_solves_an_unreadable_difficulty() {
    let ch = challenge("zzzz", "2030-01-01T00:00:02Z");
    assert!(!try_nonce(&AcceptAll, &[0u8; 8], "a", &ch));
}

#[test]
fn batch_returns_a_solving_nonce_or_nothing() {
    let ch = challenge("00001FFF", "2030-01-01T00:00:02Z");
    let mut stream = NonceStream::for_worker(0, &[0u8; 24]);
    let found = mine_batch(&AcceptAll, &mut stream, "addr", &ch, BATCH);
    let mut again = NonceStream::for_worker(0, &[0u8; 24]);
    assert_eq!(found, Some(again.next_nonce()));

    let mut stream = NonceStream::for_worker(0, &[0u8; 24]);
    assert_eq!(mine_batch(&AcceptNone, &mut stream, "addr", &ch, BATCH), None);
    let mut stream = NonceStream::for_worker(0, &[0u8; 24]);
    assert_eq!(mine_batch(&AcceptAll, &mut stream, "addr", &ch, 0), None);
}

#[test]
fn batch_with_a_real_hasher_returns_only_solutions() {
    let ch = challenge("0FFFFFFF", "2030-01-01T00:00:02Z");
    let hasher = BlakeCtx::new("unused");
    let mut stream = NonceStream::for_worker(3, &[5u8; 24]);
    let mut solved = 0;
    for _ in 0..8 {
        if let Some(nonce) = mine_batch(&hasher, &mut stream, "addr_test1abc", &ch, BATCH) {
            assert!(try_nonce(&hasher, &nonce, "addr_test1abc", &ch));
            let digest = hasher.hash(preimage_for(&nonce, "addr_test1abc", &ch).as_bytes());
            assert_eq!(digest[0] & 0xf0, 0);
            solved += 1;
        }
    }
    assert!(solved > 0);
}

#[test]
fn blake_hasher_is_blake2b_512() {
    let hasher = BlakeCtx::new("label");
    let digest = hasher.hash(b"abc");
    let expected: [u8; 64] = [
        0xba, 0x80, 0xa5, 0x3f, 0x98, 0x1c, 0x4d, 0x0d, 0x6a, 0x27, 0x97, 0xb6, 0x9f, 0x12, 0xf6,
        0xe9, 0x4c, 0x21, 0x2f, 0x14, 0x68, 0x5a, 0xc4, 0xb7, 0x4b, 0x12, 0xbb, 0x6f, 0xdb, 0xff,
        0xa2, 0xd1, 0x7d, 0x87, 0xc5, 0x39, 0x2a, 0xab, 0x79, 0x2d, 0xc2, 0x52, 0xd5, 0xde, 0x45,
        0x33, 0xcc, 0x95, 0x18, 0xd3, 0x8a, 0xa8, 0xdb, 0xf1, 0x92, 0x5a, 0xb9, 0x23, 0x86, 0xed,
        0xd4, 0x00, 0x99, 0x23,
    ];
    assert_eq!(digest, expected);
    assert_eq!(hash_preimage(&hasher, b"abc"), expected[..32]);
    assert_ne!(hasher.hash(b"abd"), expected);
}

#[test]
fn worker_seed_layout() {
    let entropy: [u8; 24] = core::array::from_fn(|i| (i as u8) + 100);
    let seed = worker_seed(0x0102_0304_0506_0708, &entropy);
    assert_eq!(&seed[..8], &[0x08, 0x07, 0x06, 0x05, 0x04, 0x03, 0x02, 0x01]);
    assert_eq!(&seed[8..], &entropy[..]);
    let zero = worker_seed(0, &[0u8; 24]);
    assert_eq!(zero, [0u8; 32]);
    let one = worker_seed(1, &[0u8; 24]);
    assert_eq!(one[0], 1);
    assert_eq!(&one[1..], &[0u8; 31][..]);
}

#[test]
fn workers_are_seeded_distinctly() {
    let entropy = [9u8; 24];
    for a in 0..16u64 {
        for b in 0..16u64 {
            if a != b {
                assert_ne!(worker_seed(a, &entropy), worker_seed(b, &entropy));
            }
        }
    }
    assert_ne!(worker_seed(1, &[0u8; 24]), worker_seed(1 << 56, &[0u8; 24]));
}

#[test]
fn nonce_streams_follow_their_seed() {
    let mut a = NonceStream::for_worker(1, &[0u8; 24]);
    let mut b = NonceStream::for_worker(1, &[0u8; 24]);
    let mut c = NonceStream::for_worker(2, &[0u8; 24]);
    let mut d = NonceStream::for_worker(1, &[1u8; 24]);
    let first = a.next_nonce();
    assert_eq!(first, b.next_nonce());
    assert_ne!(first, c.next_nonce());
    assert_ne!(first, d.next_nonce());
    let second = a.next_nonce();
    assert_ne!(first, second);
    assert_eq!(second, b.next_nonce());
}

#[test]
fn nonce_stream_is_the_chacha12_stream_of_the_seed() {
    let mut seed = [0u8; 32];
    seed[..8].copy_from_slice(&5u64.to_le_bytes());
    let mut reference = rand_chacha::ChaCha12Rng::from_seed(seed);
    let mut stream = NonceStream::for_worker(5, &[0u8; 24]);
    for _ in 0..600 {
        let mut expected = [0u8; 8];
        reference.fill_bytes(&mut expected);
        assert_eq!(stream.next_nonce(), expected);
    }
}

#[test]
fn batches_go_on_where_the_stream_stands() {
    let ch = challenge("00001FFF", "2030-01-01T00:00:02Z");
    let mut stream = NonceStream::for_worker(7, &[3u8; 24]);
    assert_eq!(mine_batch(&AcceptNone, &mut stream, "addr", &ch, 5), None);
    let mut reference = NonceStream::for_worker(7, &[3u8; 24]);
    for _ in 0..5 {
        reference.next_nonce();
    }
    let sixth = reference.next_nonce();
    assert_eq!(mine_batch(&AcceptAll, &mut stream, "addr", &ch, 5), Some(sixth));
    assert_eq!(stream.next_nonce(), reference.next_nonce());
}

#[test]
fn batch_returns_the_first_nonce_that_solves() {
    let ch = challenge("00FFFFFF", "2030-01-01T00:00:02Z");
    let hasher = BlakeCtx::new("unused");
    let mut stream = NonceStream::for_worker(11, &[0u8; 24]);
    let found = mine_batch(&hasher, &mut stream, "addr", &ch, 4096);
    let mut reference = NonceStream::for_worker(11, &[0u8; 24]);
    let mut expected = None;
    for _ in 0..4096 {
        let nonce = reference.next_nonce();
        if try_nonce(&hasher, &nonce, "addr", &ch) {
            expected = Some(nonce);
            break;
        }
    }
    assert!(expected.is_some());
    assert_eq!(found, expected);
    assert_eq!(stream.next_nonce(), reference.next_nonce());
}

#[test]
fn deadline_is_read_from_rfc3339() {
    let ch = challenge("00001FFF", "2025-11-04T21:26:06.133Z");
    assert_eq!(
        challenge_deadline(&ch),
        Some(Timestamp { secs: 1_762_291_566, nanos: 133_000_000 })
    );
    let offset = challenge("00001FFF", "1996-12-19T16:39:57-08:00");
    assert_eq!(challenge_deadline(&offset), Some(Timestamp { secs: 851_042_397, nanos: 0 }));
    let epoch = challenge("00001FFF", "1970-01-01T00:00:00Z");
    assert_eq!(challenge_deadline(&epoch), Some(Timestamp { secs: 0, nanos: 0 }));
}

#[test]
fn unreadable_deadline_is_no_deadline() {
    assert_eq!(challenge_deadline(&challenge("00001FFF", "tomorrow")), None);
    assert_eq!(challenge_deadline(&challenge("00001FFF", "")), None);
    assert_eq!(challenge_deadline(&challenge("00001FFF", "2025-11-04 21:26:06")), None);
    let now = Timestamp { secs: 10, nanos: 0 };
    assert_eq!(wait_plan(&None, &now), WaitPlan::Unbounded);
    assert!(!worker_should_stop(false, &now, &None));
    assert!(worker_should_stop(true, &now, &None));
}

#[test]
fn timestamps_compare_by_seconds_then_nanoseconds() {
    let a = Timestamp { secs: 5, nanos: 10 };
    let b = Timestamp { secs: 5, nanos: 11 };
    let c = Timestamp { secs: 6, nanos: 0 };
    let before_epoch = Timestamp { secs: -1, nanos: 999_999_999 };
    assert!(b.after(&a));
    assert!(!a.after(&b));
    assert!(!a.after(&a));
    assert!(c.after(&b));
    assert!(a.after(&before_epoch));
    assert!(!before_epoch.after(&a));
    assert!(Timestamp { secs: i64::MAX, nanos: u32::MAX }.after(&Timestamp { secs: i64::MIN, nanos: 0 }));
}

#[test]
fn worker_stops_on_found_signal_or_past_deadline() {
    let deadline = Some(Timestamp { secs: 100, nanos: 500 });
    let early = Timestamp { secs: 100, nanos: 499 };
    let at = Timestamp { secs: 100, nanos: 500 };
    let late = Timestamp { secs: 100, nanos: 501 };
    assert!(!worker_should_stop(false, &early, &deadline));
    assert!(!worker_should_stop(false, &at, &deadline));
    assert!(worker_should_stop(false, &late, &deadline));
    assert!(worker_should_stop(true, &early, &deadline));
}

#[test]
fn wait_is_the_time_left() {
    let deadline = Some(Timestamp { secs: 100, nanos: 500 });
    assert_eq!(
        wait_plan(&deadline, &Timestamp { secs: 98, nanos: 700 }),
        WaitPlan::For { nanos: 1_999_999_800 }
    );
    assert_eq!(
        wait_plan(&deadline, &Timestamp { secs: 100, nanos: 499 }),
        WaitPlan::For { nanos: 1 }
    );
    assert_eq!(wait_plan(&deadline, &Timestamp { secs: 100, nanos: 500 }), WaitPlan::Expired);
    assert_eq!(wait_plan(&deadline, &Timestamp { secs: 101, nanos: 0 }), WaitPlan::Expired);
    assert_eq!(
        wait_plan(
            &Some(Timestamp { secs: i64::MAX, nanos: 0 }),
            &Timestamp { secs: i64::MIN, nanos: 0 }
        ),
        WaitPlan::For { nanos: (u64::MAX as u128) * 1_000_000_000 }
    );
}
