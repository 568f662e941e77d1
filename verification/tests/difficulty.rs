use scavenger_miner::mining::blakehash::difficulty_meets;
use scavenger_miner::mining::worker::{
    digit_value, leading_word, matches_diff, meets_mask, parse_difficulty,
};

fn digest_with_word(word: u32) -> [u8; 64] {
    let mut digest = [0xabu8; 64];
    digest[..4].copy_from_slice(&word.to_be_bytes());
    digest
}

#[test]
fn full_mask_accepts_every_word() {
    for word in [0u32, 1, 0x8000_0000, 0x1234_5678, 0xdead_beef, u32::MAX] {
        assert!(meets_mask(word, 0xFFFF_FFFF));
    }
}

#[test]
fn zero_mask_accepts_only_zero() {
    assert!(meets_mask(0, 0));
    assert!(!meets_mask(1, 0));
    assert!(!meets_mask(0x8000_0000, 0));
}

#[test]
fn mask_rule_is_the_subset_rule() {
    assert!(meets_mask(0x0000_1FFF, 0x0000_1FFF));
    assert!(meets_mask(0x0000_1000, 0x0000_1FFF));
    assert!(meets_mask(0x0000_0000, 0x0000_1FFF));
    assert!(!meets_mask(0x0000_2000, 0x0000_1FFF));
    assert!(!meets_mask(0x8000_0001, 0x0000_1FFF));
    // A word that shares no bit with the mask is refused unless it is zero:
    // the rule is not "word AND mask is zero".
    assert!(!meets_mask(0xFFFF_E000, 0x0000_1FFF));
}

#[test]
fn mask_rule_agrees_with_both_spellings_everywhere_sampled() {
    let mut state: u64 = 0x9e37_79b9_7f4a_7c15;
    for _ in 0..2000 {
        state = state.wrapping_mul(6364136223846793005).wrapping_add(1442695040888963407);
        let word = (state >> 32) as u32;
        state = state.wrapping_mul(6364136223846793005).wrapping_add(1442695040888963407);
        let mask = (state >> 32) as u32;
        let expected = word & !mask == 0;
        assert_eq!(meets_mask(word, mask), expected);
        assert_eq!(meets_mask(word, mask), (word | mask) == mask);
        assert_eq!(meets_mask(word, mask), meets_mask(word, mask));
    }
}

#[test]
fn difficulty_text_is_read_as_eight_hex_digits() {
    assert_eq!(parse_difficulty("00001FFF"), Some(0x0000_1FFF));
    assert_eq!(parse_difficulty("00001fff"), Some(0x0000_1FFF));
    assert_eq!(parse_difficulty("FFFFFFFF"), Some(u32::MAX));
    assert_eq!(parse_difficulty("00000000"), Some(0));
    assert_eq!(parse_difficulty("12345678"), Some(0x1234_5678));
    assert_eq!(parse_difficulty("aBcDeF09"), Some(0xabcd_ef09));
}

#[test]
fn difficulty_text_longer_than_eight_uses_the_first_eight() {
    assert_eq!(parse_difficulty("00001FFFzz"), Some(0x0000_1FFF));
    assert_eq!(parse_difficulty("0000000F1"), Some(0xF));
}

#[test]
fn difficulty_text_that_is_no_mask() {
    assert_eq!(parse_difficulty(""), None);
    assert_eq!(parse_difficulty("1FFF"), None);
    assert_eq!(parse_difficulty("0000000"), None);
    assert_eq!(parse_difficulty("0000G000"), None);
    assert_eq!(parse_difficulty("+0001FFF"), None);
    assert_eq!(parse_difficulty("0x001FFF"), None);
    assert_eq!(parse_difficulty("\u{e9}0001FFF"), None);
    assert_eq!(parse_difficulty(" 0001FFF"), None);
}

#[test]
fn digit_values() {
    assert_eq!(digit_value('0'), Some(0));
    assert_eq!(digit_value('9'), Some(9));
    assert_eq!(digit_value('a'), Some(10));
    assert_eq!(digit_value('f'), Some(15));
    assert_eq!(digit_value('A'), Some(10));
    assert_eq!(digit_value('F'), Some(15));
    assert_eq!(digit_value('g'), None);
    assert_eq!(digit_value('/'), None);
    assert_eq!(digit_value(':'), None);
    assert_eq!(digit_value('@'), None);
    assert_eq!(digit_value('`'), None);
    assert_eq!(digit_value('\u{ff10}'), None);
}

#[test]
fn leading_word_is_big_endian() {
    let mut digest = [0u8; 64];
    digest[0] = 0x01;
    digest[1] = 0x02;
    digest[2] = 0x03;
    digest[3] = 0x04;
    digest[4] = 0xff;
    assert_eq!(leading_word(&digest), 0x0102_0304);
    assert_eq!(leading_word(&[0xffu8; 64]), u32::MAX);
}

#[test]
fn digest_against_difficulty_text() {
    assert!(matches_diff(&digest_with_word(0x0000_1ABC), "00001FFF"));
    assert!(!matches_diff(&digest_with_word(0x0001_0000), "00001FFF"));
    assert!(difficulty_meets(&digest_with_word(0x0000_1ABC), "00001FFF"));
    assert!(!difficulty_meets(&digest_with_word(0x0001_0000), "00001FFF"));
    assert!(difficulty_meets(&digest_with_word(0), "00000000"));
    assert!(!difficulty_meets(&digest_with_word(1), "00000000"));
}

#[test]
fn unreadable_difficulty_is_met_by_nothing() {
    assert!(!difficulty_meets(&digest_with_word(0), "nothex"));
    assert!(!difficulty_meets(&digest_with_word(0), ""));
    assert!(!difficulty_meets(&digest_with_word(0), "0000"));
}
