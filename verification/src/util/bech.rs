//! The address codec: the 224-bit Blake2b digest that names a key, and the
//! Bech32 text an address is written in.

use bech32::FromBase32;
use bech32::ToBase32;
use blake2::digest::Update;
use blake2::digest::VariableOutput;
use crate::util::text::chars_of;
use vstd::prelude::*;

verus! {

/// The Blake2b digest of 224 bits of `data`.
pub uninterp spec fn blake2b_224(data: Seq<u8>) -> Seq<u8>;

/// The Bech32 text of `data` under the prefix `hrp`, where the prefix is
/// one that Bech32 admits.
pub uninterp spec fn bech32_text(hrp: Seq<char>, data: Seq<u8>) -> Seq<char>;

/// The bytes that a Bech32 text carries, if it is one and carries whole
/// bytes.
pub uninterp spec fn bech32_payload(text: Seq<char>) -> Option<Seq<u8>>;

/// A lower-case ASCII letter.
pub open spec fn is_lower(c: char) -> bool {
    97 <= c as int <= 122
}

/// An upper-case ASCII letter.
pub open spec fn is_upper(c: char) -> bool {
    65 <= c as int <= 90
}

/// A printable ASCII character other than the space.
pub open spec fn is_printable(c: char) -> bool {
    33 <= c as int <= 126
}

/// The prefixes that Bech32 admits: 1 to 83 printable ASCII characters,
/// not of both cases.
pub open spec fn valid_hrp(hrp: Seq<char>) -> bool {
    &&& 1 <= hrp.len() <= 83
    &&& forall|i: int| 0 <= i < hrp.len() ==> is_printable(#[trigger] hrp[i])
    &&& !((exists|i: int| 0 <= i < hrp.len() && is_lower(#[trigger] hrp[i])) && (exists|i: int|
        0 <= i < hrp.len() && is_upper(#[trigger] hrp[i])))
}

/// Calls `Blake2bVar` of `blake2` with an output of 28 bytes, through
/// `new`, `update` and `finalize_variable`: the bytes are the digest of
/// `data`.
#[verifier::external_body]
pub fn blake2b224(data: &[u8]) -> (digest: [u8; 28])
    ensures
        digest@ == blake2b_224(data@),
{
    let mut hasher = blake2::Blake2bVar::new(28).unwrap();
    hasher.update(data);
    let mut out = [0u8; 28];
    hasher.finalize_variable(&mut out).unwrap();
    out
}

/// Calls `bech32::encode` with the `Bech32` variant on the base-32 form of
/// `data` (`ToBase32::to_base32`). The call fails exactly on a prefix that
/// Bech32 does not admit; otherwise the text depends on prefix and data
/// alone.
#[verifier::external_body]
fn encode_checked(hrp: &str, data: &[u8]) -> (text: Option<String>)
    ensures
        text is Some <==> valid_hrp(hrp@),
        text is Some ==> text->0@ == bech32_text(hrp@, data@),
{
    bech32::encode(hrp, data.to_base32(), bech32::Variant::Bech32).ok()
}

/// Whether a character is printable, a lower-case letter, an upper-case
/// letter.
fn char_kind(c: char) -> (kind: (bool, bool, bool))
    ensures
        kind.0 == is_printable(c),
        kind.1 == is_lower(c),
        kind.2 == is_upper(c),
{
    let n: u32 = c as u32;
    (33 <= n && n <= 126, 97 <= n && n <= 122, 65 <= n && n <= 90)
}

/// Whether Bech32 admits a prefix.
pub fn hrp_is_valid(hrp: &str) -> (valid: bool)
    ensures
        valid == valid_hrp(hrp@),
{
    let chars = chars_of(hrp);
    if chars.len() < 1 || chars.len() > 83 {
        return false;
    }
    let mut lower = false;
    let mut upper = false;
    let mut i: usize = 0;
    while i < chars.len()
        invariant
            i <= chars.len(),
            chars@ == hrp@,
            forall|j: int| 0 <= j < i ==> is_printable(#[trigger] chars@[j]),
            lower == (exists|j: int| 0 <= j < i && is_lower(#[trigger] chars@[j])),
            upper == (exists|j: int| 0 <= j < i && is_upper(#[trigger] chars@[j])),
        decreases chars.len() - i,
    {
        let kind = char_kind(chars[i]);
        if !kind.0 {
            assert(!is_printable(hrp@[i as int]));
            return false;
        }
        let ghost seen_lower = lower;
        let ghost seen_upper = upper;
        if kind.1 {
            lower = true;
        }
        if kind.2 {
            upper = true;
        }
        i += 1;
        proof {
            assert(lower == (seen_lower || is_lower(chars@[i - 1])));
            assert(upper == (seen_upper || is_upper(chars@[i - 1])));
            if lower {
                if seen_lower {
                    let j = choose|j: int| 0 <= j < i - 1 && is_lower(#[trigger] chars@[j]);
                    assert(0 <= j < i && is_lower(chars@[j]));
                } else {
                    assert(is_lower(chars@[i - 1]));
                }
            } else {
                assert forall|j: int| 0 <= j < i implies !is_lower(#[trigger] chars@[j]) by {
                    if j < i - 1 {
                    }
                }
            }
            if upper {
                if seen_upper {
                    let j = choose|j: int| 0 <= j < i - 1 && is_upper(#[trigger] chars@[j]);
                    assert(0 <= j < i && is_upper(chars@[j]));
                } else {
                    assert(is_upper(chars@[i - 1]));
                }
            } else {
                assert forall|j: int| 0 <= j < i implies !is_upper(#[trigger] chars@[j]) by {
                    if j < i - 1 {
                    }
                }
            }
        }
    }
    !(lower && upper)
}

/// The Bech32 text of `data` under a prefix that Bech32 admits.
pub fn bech32_encode(hrp: &str, data: &[u8]) -> (text: String)
    requires
        valid_hrp(hrp@),
    ensures
        text@ == bech32_text(hrp@, data@),
{
    match encode_checked(hrp, data) {
        Some(text) => text,
        None => String::new(),
    }
}

/// Calls `bech32::decode` and turns the five-bit groups back into bytes
/// (`FromBase32::from_base32`): the bytes a Bech32 address carries, or
/// `None` where the text is no Bech32 text of whole bytes. What comes back
/// depends on the text alone.
#[verifier::external_body]
pub fn bech32_decode_to_bytes(addr: &str) -> (data: Option<Vec<u8>>)
    ensures
        data is Some <==> bech32_payload(addr@) is Some,
        data is Some ==> data->0@ == bech32_payload(addr@)->0,
{
    match bech32::decode(addr) {
        Ok((_hrp, groups, _variant)) => Vec::<u8>::from_base32(&groups).ok(),
        Err(_) => None,
    }
}

} // verus!
