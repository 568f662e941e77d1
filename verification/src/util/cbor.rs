//! The few CBOR items the signed envelope is built from, written in their
//! shortest definite-length form, and the reading of them back.

use vstd::prelude::*;
use vstd::string::StringSliceAdditionalSpecFns;

verus! {

pub const MAJOR_UNSIGNED: u8 = 0;

pub const MAJOR_NEGATIVE: u8 = 1;

pub const MAJOR_BYTES: u8 = 2;

pub const MAJOR_TEXT: u8 = 3;

pub const MAJOR_ARRAY: u8 = 4;

pub const MAJOR_MAP: u8 = 5;

pub const SIMPLE_FALSE: u8 = 0xf4;

pub const SIMPLE_TRUE: u8 = 0xf5;

/// The head of an item: the major type in the top three bits of the first
/// byte and the argument `n` in the fewest bytes that hold it, big-endian.
#[verifier::opaque]
pub open spec fn head(major: u8, n: nat) -> Seq<u8> {
    let m = major as int * 32;
    if n < 24 {
        seq![(m + n) as u8]
    } else if n < 0x100 {
        seq![(m + 24) as u8, n as u8]
    } else if n < 0x1_0000 {
        seq![(m + 25) as u8, (n / 0x100) as u8, (n % 0x100) as u8]
    } else if n < 0x1_0000_0000 {
        seq![
            (m + 26) as u8,
            (n / 0x100_0000) as u8,
            (n / 0x1_0000 % 0x100) as u8,
            (n / 0x100 % 0x100) as u8,
            (n % 0x100) as u8,
        ]
    } else {
        seq![
            (m + 27) as u8,
            (n / 0x100_0000_0000_0000 % 0x100) as u8,
            (n / 0x1_0000_0000_0000 % 0x100) as u8,
            (n / 0x100_0000_0000 % 0x100) as u8,
            (n / 0x1_0000_0000 % 0x100) as u8,
            (n / 0x100_0000 % 0x100) as u8,
            (n / 0x1_0000 % 0x100) as u8,
            (n / 0x100 % 0x100) as u8,
            (n % 0x100) as u8,
        ]
    }
}

/// A byte string: its head, then the bytes.
pub open spec fn byte_string(content: Seq<u8>) -> Seq<u8> {
    head(MAJOR_BYTES, content.len()) + content
}

/// A text string: its head, then the text's UTF-8 bytes.
pub open spec fn text_string(utf8: Seq<u8>) -> Seq<u8> {
    head(MAJOR_TEXT, utf8.len()) + utf8
}

/// The one byte that stands for a truth value.
pub open spec fn boolean(value: bool) -> Seq<u8> {
    if value {
        seq![SIMPLE_TRUE]
    } else {
        seq![SIMPLE_FALSE]
    }
}

/// What a head read from the front of `input` says: the major type, the
/// argument, and how many bytes the head took. Indefinite and reserved
/// forms are not read.
#[verifier::opaque]
pub open spec fn parse_head(input: Seq<u8>) -> Option<(u8, nat, nat)> {
    if input.len() == 0 {
        None
    } else {
        let major = (input[0] / 32) as u8;
        let info = input[0] % 32;
        if info < 24 {
            Some((major, info as nat, 1))
        } else if info == 24 && input.len() >= 2 {
            Some((major, input[1] as nat, 2))
        } else if info == 25 && input.len() >= 3 {
            Some((major, (input[1] as nat) * 0x100 + input[2] as nat, 3))
        } else if info == 26 && input.len() >= 5 {
            Some(
                (
                    major,
                    (input[1] as nat) * 0x100_0000 + (input[2] as nat) * 0x1_0000 + (
                    input[3] as nat) * 0x100 + input[4] as nat,
                    5,
                ),
            )
        } else if info == 27 && input.len() >= 9 {
            Some(
                (
                    major,
                    (input[1] as nat) * 0x100_0000_0000_0000 + (input[2] as nat)
                        * 0x1_0000_0000_0000 + (input[3] as nat) * 0x100_0000_0000 + (
                    input[4] as nat) * 0x1_0000_0000 + (input[5] as nat) * 0x100_0000 + (
                    input[6] as nat) * 0x1_0000 + (input[7] as nat) * 0x100 + input[8] as nat,
                    9,
                ),
            )
        } else {
            None
        }
    }
}

/// A string of the given major type read from the front of `input`: its
/// content and what follows it.
pub open spec fn parse_string(major: u8, input: Seq<u8>) -> Option<(Seq<u8>, Seq<u8>)> {
    match parse_head(input) {
        Some((found, n, used)) => if found == major && used + n <= input.len() {
            Some((input.subrange(used as int, (used + n) as int), input.skip((used + n) as int)))
        } else {
            None
        },
        None => None,
    }
}

/// A truth value read from the front of `input`, and what follows it.
pub open spec fn parse_boolean(input: Seq<u8>) -> Option<(bool, Seq<u8>)> {
    if input.len() >= 1 && input[0] == SIMPLE_TRUE {
        Some((true, input.skip(1)))
    } else if input.len() >= 1 && input[0] == SIMPLE_FALSE {
        Some((false, input.skip(1)))
    } else {
        None
    }
}

/// The first byte of a head splits back into its major type and its
/// additional information.
proof fn lemma_first_byte(major: u8, info: int)
    requires
        major < 8,
        0 <= info < 32,
    ensures
        ((major as int * 32 + info) as u8) / 32 == major,
        ((major as int * 32 + info) as u8) % 32 == info,
{
}

/// Two big-endian bytes put together again.
proof fn lemma_join_2(n: u64)
    by (bit_vector)
    requires
        n < 0x1_0000,
    ensures
        (n / 0x100) < 0x100,
        (n / 0x100) * 0x100 + n % 0x100 == n,
{
}

/// Four big-endian bytes put together again.
proof fn lemma_join_4(n: u64)
    by (bit_vector)
    requires
        n < 0x1_0000_0000,
    ensures
        (n / 0x100_0000) < 0x100,
        (n / 0x100_0000) * 0x100_0000 + (n / 0x1_0000 % 0x100) * 0x1_0000 + (n / 0x100 % 0x100)
            * 0x100 + n % 0x100 == n,
{
}

/// Eight big-endian bytes put together again.
proof fn lemma_join_8(n: u64)
    by (bit_vector)
    ensures
        (n / 0x100_0000_0000_0000 % 0x100) * 0x100_0000_0000_0000 + (n / 0x1_0000_0000_0000
            % 0x100) * 0x1_0000_0000_0000 + (n / 0x100_0000_0000 % 0x100) * 0x100_0000_0000 + (n
            / 0x1_0000_0000 % 0x100) * 0x1_0000_0000 + (n / 0x100_0000 % 0x100) * 0x100_0000 + (n
            / 0x1_0000 % 0x100) * 0x1_0000 + (n / 0x100 % 0x100) * 0x100 + n % 0x100 == n,
{
}

/// Reading a head that was written gives back its major type and argument
/// and stops where the head ends, whatever follows.
pub proof fn lemma_head_round_trip(major: u8, n: nat, rest: Seq<u8>)
    requires
        major < 8,
        n <= u64::MAX,
    ensures
        parse_head(head(major, n) + rest) == Some((major, n, head(major, n).len())),
{
    reveal(head);
    reveal(parse_head);
    let input = head(major, n) + rest;
    let w = n as u64;
    if n < 24 {
        lemma_first_byte(major, n as int);
        assert(input[0] == head(major, n)[0]);
    } else if n < 0x100 {
        lemma_first_byte(major, 24);
        assert(input[0] == head(major, n)[0]);
        assert(input[1] == head(major, n)[1]);
    } else if n < 0x1_0000 {
        lemma_first_byte(major, 25);
        lemma_join_2(w);
        assert(input[0] == head(major, n)[0]);
        assert(input[1] == head(major, n)[1]);
        assert(input[2] == head(major, n)[2]);
    } else if n < 0x1_0000_0000 {
        lemma_first_byte(major, 26);
        lemma_join_4(w);
        assert(input[0] == head(major, n)[0]);
        assert(input[1] == head(major, n)[1]);
        assert(input[2] == head(major, n)[2]);
        assert(input[3] == head(major, n)[3]);
        assert(input[4] == head(major, n)[4]);
    } else {
        lemma_first_byte(major, 27);
        lemma_join_8(w);
        assert(input[0] == head(major, n)[0]);
        assert(input[1] == head(major, n)[1]);
        assert(input[2] == head(major, n)[2]);
        assert(input[3] == head(major, n)[3]);
        assert(input[4] == head(major, n)[4]);
        assert(input[5] == head(major, n)[5]);
        assert(input[6] == head(major, n)[6]);
        assert(input[7] == head(major, n)[7]);
        assert(input[8] == head(major, n)[8]);
    }
}

/// Reading a string that was written gives back its content and leaves
/// exactly what followed it.
pub proof fn lemma_string_round_trip(major: u8, content: Seq<u8>, rest: Seq<u8>)
    requires
        major < 8,
        content.len() <= u64::MAX,
    ensures
        parse_string(major, head(major, content.len()) + content + rest) == Some((content, rest)),
{
    let h = head(major, content.len());
    let input = h + content + rest;
    assert(input == h + (content + rest));
    lemma_head_round_trip(major, content.len(), content + rest);
    assert(input.subrange(h.len() as int, (h.len() + content.len()) as int) == content);
    assert(input.skip((h.len() + content.len()) as int) == rest);
}

/// Reading a truth value that was written gives it back.
pub proof fn lemma_boolean_round_trip(value: bool, rest: Seq<u8>)
    ensures
        parse_boolean(boolean(value) + rest) == Some((value, rest)),
{
    let input = boolean(value) + rest;
    assert(input.skip(1) == rest);
}

/// Appends the head of an item to `out`.
pub fn write_head(out: &mut Vec<u8>, major: u8, n: u64)
    requires
        major < 8,
    ensures
        final(out)@ == old(out)@ + head(major, n as nat),
{
    proof {
        reveal(head);
    }
    let m: u8 = major * 32;
    if n < 24 {
        out.push(m + (n as u8));
        assert(out@ == old(out)@ + head(major, n as nat));
    } else if n < 0x100 {
        out.push(m + 24);
        out.push(n as u8);
        assert(out@ == old(out)@ + head(major, n as nat));
    } else if n < 0x1_0000 {
        out.push(m + 25);
        out.push((n / 0x100) as u8);
        out.push((n % 0x100) as u8);
        assert(out@ == old(out)@ + head(major, n as nat));
    } else if n < 0x1_0000_0000 {
        out.push(m + 26);
        out.push((n / 0x100_0000) as u8);
        out.push((n / 0x1_0000 % 0x100) as u8);
        out.push((n / 0x100 % 0x100) as u8);
        out.push((n % 0x100) as u8);
        assert(out@ == old(out)@ + head(major, n as nat));
    } else {
        out.push(m + 27);
        out.push((n / 0x100_0000_0000_0000 % 0x100) as u8);
        out.push((n / 0x1_0000_0000_0000 % 0x100) as u8);
        out.push((n / 0x100_0000_0000 % 0x100) as u8);
        out.push((n / 0x1_0000_0000 % 0x100) as u8);
        out.push((n / 0x100_0000 % 0x100) as u8);
        out.push((n / 0x1_0000 % 0x100) as u8);
        out.push((n / 0x100 % 0x100) as u8);
        out.push((n % 0x100) as u8);
        assert(out@ == old(out)@ + head(major, n as nat));
    }
}

/// Appends `bytes` to `out` as they are.
pub fn write_raw(out: &mut Vec<u8>, bytes: &[u8])
    ensures
        final(out)@ == old(out)@ + bytes@,
{
    let mut i: usize = 0;
    while i < bytes.len()
        invariant
            i <= bytes.len(),
            out@ == old(out)@ + bytes@.take(i as int),
        decreases bytes.len() - i,
    {
        out.push(bytes[i]);
        i += 1;
        assert(bytes@.take(i as int) == bytes@.take(i - 1).push(bytes@[i - 1]));
    }
    assert(bytes@.take(i as int) == bytes@);
}

/// Appends a byte string to `out`.
pub fn write_bytes(out: &mut Vec<u8>, content: &[u8])
    ensures
        final(out)@ == old(out)@ + byte_string(content@),
        content@.len() <= usize::MAX,
{
    write_head(out, MAJOR_BYTES, content.len() as u64);
    write_raw(out, content);
    assert(out@ == old(out)@ + byte_string(content@));
}

/// Appends a text string to `out`.
pub fn write_text(out: &mut Vec<u8>, text: &str)
    ensures
        final(out)@ == old(out)@ + text_string(text.spec_bytes()),
{
    let utf8 = text.as_bytes();
    write_head(out, MAJOR_TEXT, utf8.len() as u64);
    write_raw(out, utf8);
    assert(out@ == old(out)@ + text_string(text.spec_bytes()));
}

/// Appends a truth value to `out`.
pub fn write_boolean(out: &mut Vec<u8>, value: bool)
    ensures
        final(out)@ == old(out)@ + boolean(value),
{
    if value {
        out.push(SIMPLE_TRUE);
    } else {
        out.push(SIMPLE_FALSE);
    }
    assert(out@ == old(out)@ + boolean(value));
}

/// Reads the head that starts at `at`: its major type, its argument, and
/// the position just behind it.
pub fn read_head(input: &[u8], at: usize) -> (found: Option<(u8, u64, usize)>)
    requires
        at <= input.len(),
    ensures
        match found {
            Some((major, n, next)) => at < next <= input.len() && parse_head(
                input@.skip(at as int),
            ) == Some((major, n as nat, (next - at) as nat)),
            None => parse_head(input@.skip(at as int)) is None,
        },
{
    proof {
        reveal(parse_head);
    }
    let ghost rest = input@.skip(at as int);
    let left: usize = input.len() - at;
    if left == 0 {
        return None;
    }
    let first: u8 = input[at];
    assert(rest[0] == first);
    let major: u8 = first / 32;
    let info: u8 = first % 32;
    if info < 24 {
        Some((major, info as u64, at + 1))
    } else if info == 24 && left >= 2 {
        assert(rest[1] == input[at + 1]);
        Some((major, input[at + 1] as u64, at + 2))
    } else if info == 25 && left >= 3 {
        assert(rest[1] == input[at + 1]);
        assert(rest[2] == input[at + 2]);
        let n: u64 = (input[at + 1] as u64) * 0x100 + (input[at + 2] as u64);
        Some((major, n, at + 3))
    } else if info == 26 && left >= 5 {
        assert(rest[1] == input[at + 1]);
        assert(rest[2] == input[at + 2]);
        assert(rest[3] == input[at + 3]);
        assert(rest[4] == input[at + 4]);
        let n: u64 = (input[at + 1] as u64) * 0x100_0000 + (input[at + 2] as u64) * 0x1_0000 + (
        input[at + 3] as u64) * 0x100 + (input[at + 4] as u64);
        Some((major, n, at + 5))
    } else if info == 27 && left >= 9 {
        assert(rest[1] == input[at + 1]);
        assert(rest[2] == input[at + 2]);
        assert(rest[3] == input[at + 3]);
        assert(rest[4] == input[at + 4]);
        assert(rest[5] == input[at + 5]);
        assert(rest[6] == input[at + 6]);
        assert(rest[7] == input[at + 7]);
        assert(rest[8] == input[at + 8]);
        let n: u64 = (input[at + 1] as u64) * 0x100_0000_0000_0000 + (input[at + 2] as u64)
            * 0x1_0000_0000_0000 + (input[at + 3] as u64) * 0x100_0000_0000 + (input[at
            + 4] as u64) * 0x1_0000_0000 + (input[at + 5] as u64) * 0x100_0000 + (input[at
            + 6] as u64) * 0x1_0000 + (input[at + 7] as u64) * 0x100 + (input[at + 8] as u64);
        Some((major, n, at + 9))
    } else {
        None
    }
}

/// Reads the string of the given major type that starts at `at`: where its
/// content begins and where it ends, which is where the next item starts.
pub fn read_string(input: &[u8], at: usize, major: u8) -> (found: Option<(usize, usize)>)
    requires
        at <= input.len(),
    ensures
        match found {
            Some((from, to)) => at < from <= to <= input.len() && parse_string(
                major,
                input@.skip(at as int),
            ) == Some((input@.subrange(from as int, to as int), input@.skip(to as int))),
            None => parse_string(major, input@.skip(at as int)) is None,
        },
{
    let ghost rest = input@.skip(at as int);
    match read_head(input, at) {
        Some((found, n, from)) => {
            if found == major && n <= (input.len() - from) as u64 {
                let to: usize = from + (n as usize);
                assert(rest.subrange(from - at, to - at) == input@.subrange(from as int, to as int));
                assert(rest.skip(to - at) == input@.skip(to as int));
                Some((from, to))
            } else {
                None
            }
        },
        None => None,
    }
}

/// Reads the truth value at `at`, and the position just behind it.
pub fn read_boolean(input: &[u8], at: usize) -> (found: Option<(bool, usize)>)
    requires
        at <= input.len(),
    ensures
        match found {
            Some((value, next)) => next == at + 1 && next <= input.len() && parse_boolean(
                input@.skip(at as int),
            ) == Some((value, input@.skip(next as int))),
            None => parse_boolean(input@.skip(at as int)) is None,
        },
{
    let ghost rest = input@.skip(at as int);
    if at < input.len() {
        assert(rest[0] == input[at as int]);
        assert(rest.skip(1) == input@.skip(at + 1));
        if input[at] == SIMPLE_TRUE {
            Some((true, at + 1))
        } else if input[at] == SIMPLE_FALSE {
            Some((false, at + 1))
        } else {
            None
        }
    } else {
        None
    }
}

/// A copy of the bytes of `input` from `from` up to `to`.
pub fn copy_range(input: &[u8], from: usize, to: usize) -> (out: Vec<u8>)
    requires
        from <= to <= input.len(),
    ensures
        out@ == input@.subrange(from as int, to as int),
{
    let mut out: Vec<u8> = Vec::new();
    let mut i: usize = from;
    while i < to
        invariant
            from <= i <= to <= input.len(),
            out@ == input@.subrange(from as int, i as int),
        decreases to - i,
    {
        out.push(input[i]);
        i += 1;
        assert(input@.subrange(from as int, i as int) == input@.subrange(from as int, i - 1).push(
            input@[i - 1],
        ));
    }
    out
}

} // verus!
