use ciborium::value::Value;
use scavenger_miner::util::cbor::{
    copy_range, read_boolean, read_head, read_string, write_boolean, write_bytes, write_head,
    write_raw, write_text, MAJOR_ARRAY, MAJOR_BYTES, MAJOR_MAP, MAJOR_NEGATIVE, MAJOR_TEXT,
    MAJOR_UNSIGNED,
};

fn reference(value: &Value) -> Vec<u8> {
    let mut out = Vec::new();
    ciborium::ser::into_writer(value, &mut out).unwrap();
    out
}

fn head(major: u8, n: u64) -> Vec<u8> {
    let mut out = Vec::new();
    write_head(&mut out, major, n);
    out
}

#[test]
fn heads_take_the_fewest_bytes() {
    assert_eq!(head(MAJOR_UNSIGNED, 0), vec![0x00]);
    assert_eq!(head(MAJOR_UNSIGNED, 23), vec![0x17]);
    assert_eq!(head(MAJOR_UNSIGNED, 24), vec![0x18, 0x18]);
    assert_eq!(head(MAJOR_UNSIGNED, 255), vec![0x18, 0xff]);
    assert_eq!(head(MAJOR_UNSIGNED, 256), vec![0x19, 0x01, 0x00]);
    assert_eq!(head(MAJOR_UNSIGNED, 65535), vec![0x19, 0xff, 0xff]);
    assert_eq!(head(MAJOR_UNSIGNED, 65536), vec![0x1a, 0x00, 0x01, 0x00, 0x00]);
    assert_eq!(head(MAJOR_UNSIGNED, 0xffff_ffff), vec![0x1a, 0xff, 0xff, 0xff, 0xff]);
    assert_eq!(
        head(MAJOR_UNSIGNED, 0x1_0000_0000),
        vec![0x1b, 0x00, 0x00, 0x00, 0x01, 0x00, 0x00, 0x00, 0x00]
    );
    assert_eq!(
        head(MAJOR_UNSIGNED, 0x0102_0304_0506_0708),
        vec![0x1b, 0x01, 0x02, 0x03, 0x04, 0x05, 0x06, 0x07, 0x08]
    );
    assert_eq!(head(MAJOR_UNSIGNED, u64::MAX), vec![0x1b, 0xff, 0xff, 0xff, 0xff, 0xff, 0xff, 0xff, 0xff]);
    assert_eq!(head(MAJOR_NEGATIVE, 7), vec![0x27]);
    assert_eq!(head(MAJOR_BYTES, 3), vec![0x43]);
    assert_eq!(head(MAJOR_TEXT, 10), vec![0x6a]);
    assert_eq!(head(MAJOR_ARRAY, 4), vec![0x84]);
    assert_eq!(head(MAJOR_MAP, 2), vec![0xa2]);
}

#[test]
fn unsigned_heads_match_the_reference_encoder() {
    for n in [0u64, 1, 23, 24, 100, 255, 256, 1000, 65535, 65536, 1 << 31, u32::MAX as u64, 1 << 32, u64::MAX] {
        assert_eq!(head(MAJOR_UNSIGNED, n), reference(&Value::Integer(n.into())));
    }
    for n in [0u64, 7, 23, 24, 255, 256, 65536] {
        let value = -1i128 - (n as i128);
        assert_eq!(head(MAJOR_NEGATIVE, n), reference(&Value::Integer((value as i64).into())));
    }
}

#[test]
fn strings_match_the_reference_encoder() {
    for len in [0usize, 1, 23, 24, 255, 256, 65535, 65536] {
        let content = vec![0x5au8; len];
        let mut out = Vec::new();
        write_bytes(&mut out, &content);
        assert_eq!(out, reference(&Value::Bytes(content.clone())));
        let text = "t".repeat(len);
        let mut out = Vec::new();
        write_text(&mut out, &text);
        assert_eq!(out, reference(&Value::Text(text)));
    }
    let mut out = Vec::new();
    write_text(&mut out, "h\u{e9}llo");
    assert_eq!(out, reference(&Value::Text("h\u{e9}llo".to_string())));
}

#[test]
fn booleans_and_raw_bytes() {
    let mut out = vec![1u8];
    write_boolean(&mut out, false);
    write_boolean(&mut out, true);
    write_raw(&mut out, &[9, 8]);
    assert_eq!(out, vec![1, 0xf4, 0xf5, 9, 8]);
    assert_eq!(reference(&Value::Bool(false)), vec![0xf4]);
    assert_eq!(reference(&Value::Bool(true)), vec![0xf5]);
}

#[test]
fn heads_read_back() {
    for major in 0..8u8 {
        for n in [0u64, 23, 24, 255, 256, 65535, 65536, u32::MAX as u64, 1 << 32, u64::MAX] {
            let mut input = vec![0xeeu8, 0xee];
            write_head(&mut input, major, n);
            let end = input.len();
            input.push(0x55);
            assert_eq!(read_head(&input, 2), Some((major, n, end)));
        }
    }
}

#[test]
fn truncated_and_indefinite_heads_are_not_read() {
    assert_eq!(read_head(&[], 0), None);
    assert_eq!(read_head(&[0x18], 0), None);
    assert_eq!(read_head(&[0x19, 0x01], 0), None);
    assert_eq!(read_head(&[0x1a, 0, 0, 0], 0), None);
    assert_eq!(read_head(&[0x1b, 0, 0, 0, 0, 0, 0, 0], 0), None);
    assert_eq!(read_head(&[0x5f], 0), None);
    assert_eq!(read_head(&[0x1c], 0), None);
    assert_eq!(read_head(&[0x00], 1), None);
    assert_eq!(read_head(&[0x00], 0), Some((0, 0, 1)));
}

#[test]
fn strings_read_back() {
    let mut input = Vec::new();
    write_bytes(&mut input, b"hello");
    write_text(&mut input, "key");
    assert_eq!(read_string(&input, 0, MAJOR_BYTES), Some((1, 6)));
    assert_eq!(copy_range(&input, 1, 6), b"hello".to_vec());
    assert_eq!(read_string(&input, 6, MAJOR_TEXT), Some((7, 10)));
    assert_eq!(read_string(&input, 0, MAJOR_TEXT), None);
    assert_eq!(read_string(&input[..5], 0, MAJOR_BYTES), None);
    assert_eq!(read_string(&[0x5b, 0xff, 0xff, 0xff, 0xff, 0xff, 0xff, 0xff, 0xff, 1], 0, MAJOR_BYTES), None);
    assert_eq!(read_string(&[0x40], 0, MAJOR_BYTES), Some((1, 1)));
}

#[test]
fn booleans_read_back() {
    assert_eq!(read_boolean(&[0xf4, 0xf5], 0), Some((false, 1)));
    assert_eq!(read_boolean(&[0xf4, 0xf5], 1), Some((true, 2)));
    assert_eq!(read_boolean(&[0xf4, 0xf5], 2), None);
    assert_eq!(read_boolean(&[0xf6], 0), None);
    assert_eq!(read_boolean(&[0x01], 0), None);
}
