//! What is asked of the coordinator, and what its answer to a probe means.
//!
//! A probe is a submission of a nonce that cannot be right. The answer
//! tells whether the address has a solution for the challenge already: the
//! coordinator refuses a second solution before it looks at the nonce.

use crate::util::text::chars_of;
use vstd::prelude::*;
use vstd::string::StringExecFns;

verus! {

/// What the answer to a probe means.
#[derive(Copy, Clone, Debug, PartialEq, Eq, Structural)]
pub enum ProbeOutcome {
    /// The address has an accepted solution for the challenge.
    AlreadySolved,
    /// The address has none yet.
    NotYetSolved,
    /// The answer is neither of the two refusals a probe can get: an
    /// error of the protocol, which is reported and never taken for one of
    /// them.
    ProtocolError,
}

/// The status of a refused request.
pub const STATUS_REFUSED: u16 = 400;

/// Whether `pattern` stands at position `at` of `body`.
pub open spec fn occurs_at(body: Seq<char>, at: int, pattern: Seq<char>) -> bool {
    0 <= at && at + pattern.len() <= body.len() && body.subrange(at, at + pattern.len())
        == pattern
}

/// Whether `pattern` stands somewhere in `body`.
pub open spec fn contains_text(body: Seq<char>, pattern: Seq<char>) -> bool {
    exists|at: int| occurs_at(body, at, pattern)
}

/// What the coordinator's refusal of a second solution says.
pub open spec fn duplicate_marker() -> Seq<char> {
    "Solution already exists"@
}

/// The meaning of an answer to a probe: a refusal that names an existing
/// solution, any other refusal, or anything else, success included.
pub open spec fn probe_class(status: u16, body: Seq<char>) -> ProbeOutcome {
    if status == STATUS_REFUSED {
        if contains_text(body, duplicate_marker()) {
            ProbeOutcome::AlreadySolved
        } else {
            ProbeOutcome::NotYetSolved
        }
    } else {
        ProbeOutcome::ProtocolError
    }
}

/// Two answers of the same status that agree on whether they name an
/// existing solution mean the same.
pub proof fn lemma_probe_class_repeats(status: u16, first: Seq<char>, second: Seq<char>)
    requires
        contains_text(first, duplicate_marker()) == contains_text(second, duplicate_marker()),
    ensures
        probe_class(status, first) == probe_class(status, second),
{
}

/// Whether `pattern` stands at position `at` of `body`.
fn stands_at(body: &Vec<char>, at: usize, pattern: &Vec<char>) -> (found: bool)
    requires
        at + pattern.len() <= body.len(),
    ensures
        found == occurs_at(body@, at as int, pattern@),
{
    let ghost window = body@.subrange(at as int, at + pattern.len());
    let mut i: usize = 0;
    while i < pattern.len()
        invariant
            at + pattern.len() <= body.len(),
            i <= pattern.len(),
            window == body@.subrange(at as int, at + pattern.len()),
            forall|j: int| 0 <= j < i ==> window[j] == pattern@[j],
        decreases pattern.len() - i,
    {
        if body[at + i] != pattern[i] {
            assert(window[i as int] != pattern@[i as int]);
            return false;
        }
        i += 1;
    }
    assert(window =~= pattern@);
    true
}

/// Whether `pattern` stands somewhere in `body`.
pub fn text_contains(body: &str, pattern: &str) -> (found: bool)
    ensures
        found == contains_text(body@, pattern@),
{
    let text = chars_of(body);
    let wanted = chars_of(pattern);
    if wanted.len() > text.len() {
        return false;
    }
    let last: usize = text.len() - wanted.len();
    let mut at: usize = 0;
    loop
        invariant
            last == text.len() - wanted.len(),
            at <= last,
            text@ == body@,
            wanted@ == pattern@,
            forall|k: int| 0 <= k < at ==> !occurs_at(body@, k, pattern@),
        decreases last - at,
    {
        if stands_at(&text, at, &wanted) {
            return true;
        }
        if at == last {
            return false;
        }
        at += 1;
    }
}

/// Reads the answer to a probe.
pub fn classify_probe(status: u16, body: &str) -> (outcome: ProbeOutcome)
    ensures
        outcome == probe_class(status, body@),
{
    if status == STATUS_REFUSED {
        if text_contains(body, "Solution already exists") {
            ProbeOutcome::AlreadySolved
        } else {
            ProbeOutcome::NotYetSolved
        }
    } else {
        ProbeOutcome::ProtocolError
    }
}

/// The nonce a probe submits. No preimage of it is ever hashed.
pub fn probe_nonce() -> (nonce: &'static str)
    ensures
        nonce@ == "0000000000000000"@,
{
    "0000000000000000"
}

/// A path of a name and three parts: `/name/a/b/c`.
pub open spec fn path_of_three(name: Seq<char>, a: Seq<char>, b: Seq<char>, c: Seq<char>) -> Seq<
    char,
> {
    "/"@ + name + "/"@ + a + "/"@ + b + "/"@ + c
}

/// Builds `/name/a/b/c`.
fn join_three(name: &str, a: &str, b: &str, c: &str) -> (path: String)
    ensures
        path@ == path_of_three(name@, a@, b@, c@),
{
    let mut path = String::from_str("/");
    path.append(name);
    path.append("/");
    path.append(a);
    path.append("/");
    path.append(b);
    path.append("/");
    path.append(c);
    path
}

/// Where the terms and conditions are fetched: the current ones, or those
/// of a version.
pub fn tandc_path(version: Option<&str>) -> (path: String)
    ensures
        path@ == match version {
            Some(v) => "/TandC/"@ + v@,
            None => "/TandC"@,
        },
{
    match version {
        Some(v) => {
            let mut path = String::from_str("/TandC/");
            path.append(v);
            path
        },
        None => String::from_str("/TandC"),
    }
}

/// Where the current challenge is polled.
pub fn challenge_path() -> (path: &'static str)
    ensures
        path@ == "/challenge"@,
{
    "/challenge"
}

/// Where the per-day rates are fetched.
pub fn rate_path() -> (path: &'static str)
    ensures
        path@ == "/work_to_star_rate"@,
{
    "/work_to_star_rate"
}

/// Where an address is registered with its signed envelope and its public
/// key, both in hexadecimal.
pub fn register_path(address: &str, signature_hex: &str, pubkey_hex: &str) -> (path: String)
    ensures
        path@ == path_of_three("register"@, address@, signature_hex@, pubkey_hex@),
{
    join_three("register", address, signature_hex, pubkey_hex)
}

/// Where a nonce is submitted for an address and a challenge.
pub fn solution_path(address: &str, challenge_id: &str, nonce_hex: &str) -> (path: String)
    ensures
        path@ == path_of_three("solution"@, address@, challenge_id@, nonce_hex@),
{
    join_three("solution", address, challenge_id, nonce_hex)
}

/// Where an address is probed for a challenge: the submission of the
/// probe nonce.
pub fn probe_path(address: &str, challenge_id: &str) -> (path: String)
    ensures
        path@ == path_of_three("solution"@, address@, challenge_id@, "0000000000000000"@),
{
    solution_path(address, challenge_id, probe_nonce())
}

/// Where the claims of `src_addr` are donated to `dest_addr`.
pub fn donate_path(dest_addr: &str, src_addr: &str, sig_hex: &str) -> (path: String)
    ensures
        path@ == path_of_three("donate_to"@, dest_addr@, src_addr@, sig_hex@),
{
    join_three("donate_to", dest_addr, src_addr, sig_hex)
}

} // verus!
