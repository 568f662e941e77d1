//! The signed envelope that authenticates an address to the coordinator: a
//! COSE_Sign1 structure over Ed25519, byte for byte.
//!
//! The envelope is an array of four items: the protected header as a byte
//! string, the unprotected header map, the payload as a byte string and the
//! signature as a byte string. The signature covers the canonical
//! `Sig_structure`, not the envelope. The payload is signed as given: a
//! caller that wants trailing whitespace removed removes it first.

use crate::util::cbor::{
    boolean, byte_string, copy_range, head, lemma_boolean_round_trip, lemma_head_round_trip,
    lemma_string_round_trip, parse_boolean, parse_head, parse_string, read_boolean, read_head,
    read_string, text_string, write_boolean, write_bytes, write_head, write_text, MAJOR_ARRAY,
    MAJOR_BYTES, MAJOR_MAP, MAJOR_NEGATIVE, MAJOR_TEXT, MAJOR_UNSIGNED,
};
use crate::util::keys::{ed25519_signature, sign};
use vstd::prelude::*;
use vstd::string::StringSliceAdditionalSpecFns;

verus! {

/// The protected header `{1: -8}`: the algorithm is EdDSA.
pub open spec fn protected_header() -> Seq<u8> {
    head(MAJOR_MAP, 1) + head(MAJOR_UNSIGNED, 1) + head(MAJOR_NEGATIVE, 7)
}

/// The unprotected header `{"address": address, "hashed": hashed}`, its
/// two entries in this order.
pub open spec fn unprotected_header(address: Seq<u8>, hashed: bool) -> Seq<u8> {
    head(MAJOR_MAP, 2) + text_string("address".spec_bytes()) + byte_string(address) + text_string(
        "hashed".spec_bytes(),
    ) + boolean(hashed)
}

/// What is signed: `["Signature1", protected, h'', payload]`.
pub open spec fn sig_structure(payload: Seq<u8>) -> Seq<u8> {
    head(MAJOR_ARRAY, 4) + text_string("Signature1".spec_bytes()) + byte_string(protected_header())
        + byte_string(Seq::empty()) + byte_string(payload)
}

/// The envelope `[protected, unprotected, payload, signature]`.
pub open spec fn envelope(
    payload: Seq<u8>,
    address: Seq<u8>,
    hashed: bool,
    signature: Seq<u8>,
) -> Seq<u8> {
    head(MAJOR_ARRAY, 4) + byte_string(protected_header()) + unprotected_header(address, hashed)
        + byte_string(payload) + byte_string(signature)
}

/// The envelope over `payload` signed with `secret`.
pub open spec fn signed_envelope(
    secret: Seq<u8>,
    payload: Seq<u8>,
    address: Seq<u8>,
    hashed: bool,
) -> Seq<u8> {
    envelope(payload, address, hashed, ed25519_signature(secret, sig_structure(payload)))
}

/// Appends the protected header to `out`.
fn write_protected_header(out: &mut Vec<u8>)
    ensures
        final(out)@ == old(out)@ + protected_header(),
{
    write_head(out, MAJOR_MAP, 1);
    write_head(out, MAJOR_UNSIGNED, 1);
    write_head(out, MAJOR_NEGATIVE, 7);
    assert(out@ == old(out)@ + protected_header());
}

/// The bytes that get signed for `payload`.
pub fn to_be_signed(payload: &[u8]) -> (out: Vec<u8>)
    ensures
        out@ == sig_structure(payload@),
{
    let mut protected: Vec<u8> = Vec::new();
    write_protected_header(&mut protected);
    let no_aad: Vec<u8> = Vec::new();
    let mut out: Vec<u8> = Vec::new();
    write_head(&mut out, MAJOR_ARRAY, 4);
    write_text(&mut out, "Signature1");
    write_bytes(&mut out, protected.as_slice());
    write_bytes(&mut out, no_aad.as_slice());
    write_bytes(&mut out, payload);
    assert(protected@ == protected_header());
    assert(no_aad@ == Seq::<u8>::empty());
    assert(out@ == sig_structure(payload@));
    out
}

/// Puts an envelope together from its parts. The envelope opens to them
/// again.
pub fn seal(payload: &[u8], address_raw: &[u8], hashed: bool, signature: &[u8]) -> (out: Vec<u8>)
    ensures
        out@ == envelope(payload@, address_raw@, hashed, signature@),
        parse_envelope(out@) == Some(
            EnvelopeParts {
                protected: protected_header(),
                address: address_raw@,
                hashed,
                payload: payload@,
                signature: signature@,
            },
        ),
{
    let mut protected: Vec<u8> = Vec::new();
    write_protected_header(&mut protected);
    assert(protected@ == protected_header());
    let mut out: Vec<u8> = Vec::new();
    write_head(&mut out, MAJOR_ARRAY, 4);
    write_bytes(&mut out, protected.as_slice());
    let ghost before_map = out@;
    write_head(&mut out, MAJOR_MAP, 2);
    write_text(&mut out, "address");
    write_bytes(&mut out, address_raw);
    write_text(&mut out, "hashed");
    write_boolean(&mut out, hashed);
    assert(out@ == before_map + unprotected_header(address_raw@, hashed));
    write_bytes(&mut out, payload);
    write_bytes(&mut out, signature);
    assert(out@ == envelope(payload@, address_raw@, hashed, signature@));
    proof {
        lemma_envelope_opens(payload@, address_raw@, hashed, signature@);
    }
    out
}

/// Signs `payload_utf8` with `privkey` and wraps payload, address and
/// signature into the envelope.
pub fn cose_sign1_ed25519_with_headers(
    privkey: &[u8; 32],
    payload_utf8: &str,
    address_raw: &[u8],
    hashed: bool,
) -> (out: Vec<u8>)
    ensures
        out@ == signed_envelope(privkey@, payload_utf8.spec_bytes(), address_raw@, hashed),
        parse_envelope(out@) == Some(
            EnvelopeParts {
                protected: protected_header(),
                address: address_raw@,
                hashed,
                payload: payload_utf8.spec_bytes(),
                signature: ed25519_signature(privkey@, sig_structure(payload_utf8.spec_bytes())),
            },
        ),
{
    let payload = payload_utf8.as_bytes();
    let message = to_be_signed(payload);
    let signature = sign(privkey, message.as_slice());
    seal(payload, address_raw, hashed, signature.as_slice())
}

/// What an envelope holds, as mathematical values.
pub struct EnvelopeParts {
    pub protected: Seq<u8>,
    pub address: Seq<u8>,
    pub hashed: bool,
    pub payload: Seq<u8>,
    pub signature: Seq<u8>,
}

/// What an envelope holds.
pub struct Envelope {
    pub protected: Vec<u8>,
    pub address: Vec<u8>,
    pub hashed: bool,
    pub payload: Vec<u8>,
    pub signature: Vec<u8>,
}

impl View for Envelope {
    type V = EnvelopeParts;

    open spec fn view(&self) -> EnvelopeParts {
        EnvelopeParts {
            protected: self.protected@,
            address: self.address@,
            hashed: self.hashed,
            payload: self.payload@,
            signature: self.signature@,
        }
    }
}

/// What follows the head of an array or a map of exactly `count` entries
/// at the front of `input`.
pub open spec fn parse_count(major: u8, count: nat, input: Seq<u8>) -> Option<Seq<u8>> {
    match parse_head(input) {
        Some((found, n, used)) => if found == major && n == count {
            Some(input.skip(used as int))
        } else {
            None
        },
        None => None,
    }
}

/// What follows the text string `key` at the front of `input`.
pub open spec fn parse_key(key: Seq<u8>, input: Seq<u8>) -> Option<Seq<u8>> {
    match parse_string(MAJOR_TEXT, input) {
        Some((found, rest)) => if found == key {
            Some(rest)
        } else {
            None
        },
        None => None,
    }
}

/// The two entries of the unprotected header at the front of `input`, and
/// what follows them.
pub open spec fn parse_unprotected(input: Seq<u8>) -> Option<(Seq<u8>, bool, Seq<u8>)> {
    match parse_count(MAJOR_MAP, 2, input) {
        Some(r1) => match parse_key("address".spec_bytes(), r1) {
            Some(r2) => match parse_string(MAJOR_BYTES, r2) {
                Some((address, r3)) => match parse_key("hashed".spec_bytes(), r3) {
                    Some(r4) => match parse_boolean(r4) {
                        Some((hashed, r5)) => Some((address, hashed, r5)),
                        None => None,
                    },
                    None => None,
                },
                None => None,
            },
            None => None,
        },
        None => None,
    }
}

/// The parts of the envelope that `input` is, if it is one: the four items
/// in their order, the header's two keys in theirs, and nothing behind.
pub open spec fn parse_envelope(input: Seq<u8>) -> Option<EnvelopeParts> {
    match parse_count(MAJOR_ARRAY, 4, input) {
        Some(r1) => match parse_string(MAJOR_BYTES, r1) {
            Some((protected, r2)) => match parse_unprotected(r2) {
                Some((address, hashed, r3)) => match parse_string(MAJOR_BYTES, r3) {
                    Some((payload, r4)) => match parse_string(MAJOR_BYTES, r4) {
                        Some((signature, r5)) => if r5.len() == 0 {
                            Some(EnvelopeParts { protected, address, hashed, payload, signature })
                        } else {
                            None
                        },
                        None => None,
                    },
                    None => None,
                },
                None => None,
            },
            None => None,
        },
        None => None,
    }
}

/// Reading the head of an array or map that was written leaves what
/// followed it.
proof fn lemma_count_round_trip(major: u8, count: nat, rest: Seq<u8>)
    requires
        major < 8,
        count <= u64::MAX,
    ensures
        parse_count(major, count, head(major, count) + rest) == Some(rest),
{
    lemma_head_round_trip(major, count, rest);
    assert((head(major, count) + rest).skip(head(major, count).len() as int) == rest);
}

/// Reading a key that was written leaves what followed it.
proof fn lemma_key_round_trip(key: Seq<u8>, rest: Seq<u8>)
    requires
        key.len() <= u64::MAX,
    ensures
        parse_key(key, text_string(key) + rest) == Some(rest),
{
    lemma_string_round_trip(MAJOR_TEXT, key, rest);
}

/// Reading the unprotected header that was written gives back the address
/// and the flag and leaves what followed.
proof fn lemma_unprotected_round_trip(address: Seq<u8>, hashed: bool, rest: Seq<u8>)
    requires
        address.len() <= u64::MAX,
    ensures
        parse_unprotected(unprotected_header(address, hashed) + rest) == Some(
            (address, hashed, rest),
        ),
{
    let k1 = "address".spec_bytes();
    let k2 = "hashed".spec_bytes();
    let t4 = boolean(hashed) + rest;
    let t3 = text_string(k2) + t4;
    let t2 = byte_string(address) + t3;
    let t1 = text_string(k1) + t2;
    assert(unprotected_header(address, hashed) + rest == head(MAJOR_MAP, 2) + t1);
    lemma_count_round_trip(MAJOR_MAP, 2, t1);
    lemma_fixed_texts();
    lemma_key_round_trip(k1, t2);
    assert(t2 == head(MAJOR_BYTES, address.len()) + address + t3);
    lemma_string_round_trip(MAJOR_BYTES, address, t3);
    lemma_key_round_trip(k2, t4);
    lemma_boolean_round_trip(hashed, rest);
}

/// The protected header is the three bytes `a1 01 27`.
pub proof fn lemma_protected_header()
    ensures
        protected_header() == seq![0xa1u8, 0x01, 0x27],
{
    reveal(head);
    assert(protected_header() =~= seq![0xa1u8, 0x01, 0x27]);
}

/// The bytes of the three texts that the envelope and the `Sig_structure`
/// spell out.
pub proof fn lemma_fixed_texts()
    ensures
        "address".spec_bytes() == seq![0x61u8, 0x64, 0x64, 0x72, 0x65, 0x73, 0x73],
        "hashed".spec_bytes() == seq![0x68u8, 0x61, 0x73, 0x68, 0x65, 0x64],
        "Signature1".spec_bytes() == seq![
            0x53u8,
            0x69,
            0x67,
            0x6e,
            0x61,
            0x74,
            0x75,
            0x72,
            0x65,
            0x31,
        ],
{
    reveal_strlit("address");
    reveal_strlit("hashed");
    reveal_strlit("Signature1");
    vstd::utf8::is_ascii_chars_encode_utf8("address"@);
    vstd::utf8::is_ascii_chars_encode_utf8("hashed"@);
    vstd::utf8::is_ascii_chars_encode_utf8("Signature1"@);
    assert("address".spec_bytes() =~= seq![0x61u8, 0x64, 0x64, 0x72, 0x65, 0x73, 0x73]);
    assert("hashed".spec_bytes() =~= seq![0x68u8, 0x61, 0x73, 0x68, 0x65, 0x64]);
    assert("Signature1".spec_bytes() =~= seq![
        0x53u8,
        0x69,
        0x67,
        0x6e,
        0x61,
        0x74,
        0x75,
        0x72,
        0x65,
        0x31,
    ]);
}

/// An envelope opens to what it was made from: reading the bytes of
/// `envelope(payload, address, hashed, signature)` back gives the payload,
/// the address, the flag and the signature, each unchanged, and the
/// protected header `{1: -8}`.
pub proof fn lemma_envelope_opens(
    payload: Seq<u8>,
    address: Seq<u8>,
    hashed: bool,
    signature: Seq<u8>,
)
    requires
        payload.len() <= u64::MAX,
        address.len() <= u64::MAX,
        signature.len() <= u64::MAX,
    ensures
        parse_envelope(envelope(payload, address, hashed, signature)) == Some(
            EnvelopeParts { protected: protected_header(), address, hashed, payload, signature },
        ),
{
    let protected = protected_header();
    let t4 = byte_string(signature);
    let t3 = byte_string(payload) + t4;
    let t2 = unprotected_header(address, hashed) + t3;
    let t1 = byte_string(protected) + t2;
    assert(envelope(payload, address, hashed, signature) == head(MAJOR_ARRAY, 4) + t1);
    lemma_count_round_trip(MAJOR_ARRAY, 4, t1);
    lemma_protected_header();
    assert(t1 == head(MAJOR_BYTES, protected.len()) + protected + t2);
    lemma_string_round_trip(MAJOR_BYTES, protected, t2);
    lemma_unprotected_round_trip(address, hashed, t3);
    assert(t3 == head(MAJOR_BYTES, payload.len()) + payload + t4);
    lemma_string_round_trip(MAJOR_BYTES, payload, t4);
    assert(t4 == head(MAJOR_BYTES, signature.len()) + signature + Seq::<u8>::empty());
    lemma_string_round_trip(MAJOR_BYTES, signature, Seq::<u8>::empty());
}

/// A signed envelope opens to the payload and the address it was given and
/// to the Ed25519 signature of the `Sig_structure` over that payload.
pub proof fn lemma_signed_envelope_opens(
    secret: Seq<u8>,
    payload: Seq<u8>,
    address: Seq<u8>,
    hashed: bool,
)
    requires
        payload.len() <= u64::MAX,
        address.len() <= u64::MAX,
        ed25519_signature(secret, sig_structure(payload)).len() == 64,
    ensures
        parse_envelope(signed_envelope(secret, payload, address, hashed)) == Some(
            EnvelopeParts {
                protected: protected_header(),
                address,
                hashed,
                payload,
                signature: ed25519_signature(secret, sig_structure(payload)),
            },
        ),
{
    lemma_envelope_opens(
        payload,
        address,
        hashed,
        ed25519_signature(secret, sig_structure(payload)),
    );
}

/// Whether the bytes of `input` from `from` up to `to` are exactly `other`.
fn range_equals(input: &[u8], from: usize, to: usize, other: &[u8]) -> (same: bool)
    requires
        from <= to <= input.len(),
    ensures
        same == (input@.subrange(from as int, to as int) == other@),
{
    let ghost range = input@.subrange(from as int, to as int);
    if to - from != other.len() {
        return false;
    }
    let mut i: usize = 0;
    while i < other.len()
        invariant
            from <= to <= input.len(),
            to - from == other.len(),
            i <= other.len(),
            range == input@.subrange(from as int, to as int),
            forall|j: int| 0 <= j < i ==> range[j] == other@[j],
        decreases other.len() - i,
    {
        if input[from + i] != other[i] {
            assert(range[i as int] != other@[i as int]);
            return false;
        }
        i += 1;
    }
    assert(range =~= other@);
    true
}

/// Reads the head of an array or map of exactly `count` entries at `at`
/// and gives the position just behind it.
fn read_count(input: &[u8], at: usize, major: u8, count: u64) -> (found: Option<usize>)
    requires
        at <= input.len(),
    ensures
        match found {
            Some(next) => at < next <= input.len() && parse_count(
                major,
                count as nat,
                input@.skip(at as int),
            ) == Some(input@.skip(next as int)),
            None => parse_count(major, count as nat, input@.skip(at as int)) is None,
        },
{
    match read_head(input, at) {
        Some((found, n, next)) => {
            if found == major && n == count {
                assert(input@.skip(at as int).skip(next - at) == input@.skip(next as int));
                Some(next)
            } else {
                None
            }
        },
        None => None,
    }
}

/// Reads the text string `key` at `at` and gives the position just behind
/// it.
fn read_key(input: &[u8], at: usize, key: &str) -> (found: Option<usize>)
    requires
        at <= input.len(),
    ensures
        match found {
            Some(next) => at < next <= input.len() && parse_key(
                key.spec_bytes(),
                input@.skip(at as int),
            ) == Some(input@.skip(next as int)),
            None => parse_key(key.spec_bytes(), input@.skip(at as int)) is None,
        },
{
    match read_string(input, at, MAJOR_TEXT) {
        Some((from, to)) => {
            if range_equals(input, from, to, key.as_bytes()) {
                Some(to)
            } else {
                None
            }
        },
        None => None,
    }
}

/// Reads the unprotected header at `at`: where the address lies, the flag,
/// and the position just behind the header.
fn read_unprotected(input: &[u8], at: usize) -> (found: Option<(usize, usize, bool, usize)>)
    requires
        at <= input.len(),
    ensures
        match found {
            Some((from, to, hashed, next)) => from <= to <= next <= input.len()
                && parse_unprotected(input@.skip(at as int)) == Some(
                (input@.subrange(from as int, to as int), hashed, input@.skip(next as int)),
            ),
            None => parse_unprotected(input@.skip(at as int)) is None,
        },
{
    let behind_head = match read_count(input, at, MAJOR_MAP, 2) {
        Some(p) => p,
        None => { return None; },
    };
    let behind_key = match read_key(input, behind_head, "address") {
        Some(p) => p,
        None => { return None; },
    };
    let (from, to) = match read_string(input, behind_key, MAJOR_BYTES) {
        Some(range) => range,
        None => { return None; },
    };
    let behind_flag = match read_key(input, to, "hashed") {
        Some(p) => p,
        None => { return None; },
    };
    match read_boolean(input, behind_flag) {
        Some((hashed, next)) => Some((from, to, hashed, next)),
        None => None,
    }
}

/// Opens an envelope: the payload, the address, the flag and the signature
/// it carries, or `None` when `input` is not an envelope of this layout.
pub fn open_envelope(input: &[u8]) -> (opened: Option<Envelope>)
    ensures
        match opened {
            Some(parts) => parse_envelope(input@) == Some(parts@),
            None => parse_envelope(input@) is None,
        },
{
    assert(input@.skip(0) == input@);
    let behind_head = match read_count(input, 0, MAJOR_ARRAY, 4) {
        Some(p) => p,
        None => { return None; },
    };
    let (protected_from, protected_to) = match read_string(input, behind_head, MAJOR_BYTES) {
        Some(range) => range,
        None => { return None; },
    };
    let (address_from, address_to, hashed, behind_header) = match read_unprotected(input, protected_to) {
        Some(found) => found,
        None => { return None; },
    };
    let (payload_from, payload_to) = match read_string(input, behind_header, MAJOR_BYTES) {
        Some(range) => range,
        None => { return None; },
    };
    let (signature_from, signature_to) = match read_string(input, payload_to, MAJOR_BYTES) {
        Some(range) => range,
        None => { return None; },
    };
    if signature_to != input.len() {
        return None;
    }
    Some(
        Envelope {
            protected: copy_range(input, protected_from, protected_to),
            address: copy_range(input, address_from, address_to),
            hashed,
            payload: copy_range(input, payload_from, payload_to),
            signature: copy_range(input, signature_from, signature_to),
        },
    )
}

} // verus!
