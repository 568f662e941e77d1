use ciborium::value::Value;
use ed25519_dalek::{Signature, SigningKey, Verifier};
use scavenger_miner::util::cip8::{cose_sign1_ed25519_with_headers, open_envelope, seal, to_be_signed};

fn cbor(value: &Value) -> Vec<u8> {
    let mut out = Vec::new();
    ciborium::ser::into_writer(value, &mut out).unwrap();
    out
}

fn reference_envelope(privkey: &[u8; 32], payload: &str, address: &[u8], hashed: bool) -> Vec<u8> {
    let protected = cbor(&Value::Map(vec![(
        Value::Integer(1i64.into()),
        Value::Integer((-8i64).into()),
    )]));
    let to_sign = cbor(&Value::Array(vec![
        Value::Text("Signature1".into()),
        Value::Bytes(protected.clone()),
        Value::Bytes(Vec::new()),
        Value::Bytes(payload.as_bytes().to_vec()),
    ]));
    let signature = ed25519_dalek::Signer::sign(&SigningKey::from_bytes(privkey), &to_sign);
    cbor(&Value::Array(vec![
        Value::Bytes(protected),
        Value::Map(vec![
            (Value::Text("address".into()), Value::Bytes(address.to_vec())),
            (Value::Text("hashed".into()), Value::Bool(hashed)),
        ]),
        Value::Bytes(payload.as_bytes().to_vec()),
        Value::Bytes(signature.to_bytes().to_vec()),
    ]))
}

#[test]
fn envelope_matches_reference_encoder() {
    let key = [7u8; 32];
    let address = [0x60u8, 1, 2, 3, 4, 5];
    for payload in ["", "hello", "I agree to abide by the terms and conditions"] {
        for hashed in [false, true] {
            assert_eq!(
                cose_sign1_ed25519_with_headers(&key, payload, &address, hashed),
                reference_envelope(&key, payload, &address, hashed)
            );
        }
    }
}

#[test]
fn envelope_matches_reference_encoder_for_long_payloads() {
    let key = [9u8; 32];
    let address: Vec<u8> = (0..29u8).collect();
    for len in [23usize, 24, 255, 256, 65535, 65536, 70000] {
        let payload = "x".repeat(len);
        assert_eq!(
            cose_sign1_ed25519_with_headers(&key, &payload, &address, false),
            reference_envelope(&key, &payload, &address, false)
        );
    }
}

#[test]
fn envelope_starts_with_fixed_bytes() {
    let out = cose_sign1_ed25519_with_headers(&[1u8; 32], "abc", &[0xaa, 0xbb], false);
    let expected_prefix: Vec<u8> = vec![
        0x84, 0x43, 0xa1, 0x01, 0x27, 0xa2, 0x67, b'a', b'd', b'd', b'r', b'e', b's', b's', 0x42,
        0xaa, 0xbb, 0x66, b'h', b'a', b's', b'h', b'e', b'd', 0xf4, 0x43, b'a', b'b', b'c', 0x58,
        0x40,
    ];
    assert_eq!(&out[..expected_prefix.len()], &expected_prefix[..]);
    assert_eq!(out.len(), expected_prefix.len() + 64);
}

#[test]
fn sig_structure_bytes() {
    let expected: Vec<u8> = vec![
        0x84, 0x6a, b'S', b'i', b'g', b'n', b'a', b't', b'u', b'r', b'e', b'1', 0x43, 0xa1, 0x01,
        0x27, 0x40, 0x42, b'h', b'i',
    ];
    assert_eq!(to_be_signed(b"hi"), expected);
}

#[test]
fn signed_envelope_is_independently_verifiable() {
    let key = [42u8; 32];
    let signing = SigningKey::from_bytes(&key);
    let public = signing.verifying_key();
    let address = vec![0x61u8; 29];
    let payload = "terms \u{00e9}\u{4e2d} and conditions";
    let out = cose_sign1_ed25519_with_headers(&key, payload, &address, false);

    let decoded: Value = ciborium::de::from_reader(&out[..]).unwrap();
    let items = decoded.as_array().unwrap();
    assert_eq!(items.len(), 4);
    let protected = items[0].as_bytes().unwrap().clone();
    assert_eq!(protected, vec![0xa1, 0x01, 0x27]);
    let header = items[1].as_map().unwrap();
    assert_eq!(header.len(), 2);
    assert_eq!(header[0].0.as_text().unwrap(), "address");
    assert_eq!(header[0].1.as_bytes().unwrap(), &address);
    assert_eq!(header[1].0.as_text().unwrap(), "hashed");
    assert_eq!(header[1].1.as_bool().unwrap(), false);
    assert_eq!(items[2].as_bytes().unwrap(), payload.as_bytes());
    let signature_bytes: [u8; 64] = items[3].as_bytes().unwrap().clone().try_into().unwrap();

    let signed = to_be_signed(payload.as_bytes());
    assert!(public.verify(&signed, &Signature::from_bytes(&signature_bytes)).is_ok());
    assert!(public.verify(b"something else", &Signature::from_bytes(&signature_bytes)).is_err());
}

#[test]
fn open_envelope_recovers_the_parts() {
    let key = [3u8; 32];
    let address = vec![1u8, 2, 3];
    let out = cose_sign1_ed25519_with_headers(&key, "payload text", &address, true);
    let parts = open_envelope(&out).unwrap();
    assert_eq!(parts.protected, vec![0xa1, 0x01, 0x27]);
    assert_eq!(parts.address, address);
    assert!(parts.hashed);
    assert_eq!(parts.payload, b"payload text".to_vec());
    assert_eq!(parts.signature.len(), 64);
}

#[test]
fn open_envelope_rejects_what_is_no_envelope() {
    let out = seal(b"p", b"a", false, &[0u8; 64]);
    assert!(open_envelope(&out).is_some());
    assert!(open_envelope(&out[..out.len() - 1]).is_none());
    let mut longer = out.clone();
    longer.push(0);
    assert!(open_envelope(&longer).is_none());
    let mut other_key = out.clone();
    other_key[7] = b'b';
    assert!(open_envelope(&other_key).is_none());
    assert!(open_envelope(&[]).is_none());
    assert!(open_envelope(&[0x84]).is_none());
}

#[test]
fn different_keys_give_different_signatures() {
    let a = cose_sign1_ed25519_with_headers(&[1u8; 32], "same", &[1], false);
    let b = cose_sign1_ed25519_with_headers(&[2u8; 32], "same", &[1], false);
    assert_ne!(a, b);
    assert_eq!(a.len(), b.len());
}
