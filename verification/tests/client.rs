use scavenger_miner::api::client::{
    challenge_path, classify_probe, donate_path, probe_nonce, probe_path, rate_path,
    register_path, solution_path, tandc_path, text_contains, ProbeOutcome,
};
use scavenger_miner::util::text::{chars_of, same_text};

#[test]
fn refusal_naming_an_existing_solution_is_a_duplicate() {
    assert_eq!(classify_probe(400, "Solution already exists"), ProbeOutcome::AlreadySolved);
    assert_eq!(
        classify_probe(400, "{\"message\":\"Solution already exists for this address\"}"),
        ProbeOutcome::AlreadySolved
    );
}

#[test]
fn any_other_refusal_is_not_yet_solved() {
    assert_eq!(classify_probe(400, "Invalid nonce"), ProbeOutcome::NotYetSolved);
    assert_eq!(classify_probe(400, ""), ProbeOutcome::NotYetSolved);
    assert_eq!(classify_probe(400, "solution already exists"), ProbeOutcome::NotYetSolved);
    assert_eq!(classify_probe(400, "Solution already exist"), ProbeOutcome::NotYetSolved);
}

#[test]
fn success_and_other_statuses_are_protocol_errors() {
    assert_eq!(classify_probe(200, "{}"), ProbeOutcome::ProtocolError);
    assert_eq!(classify_probe(201, "Solution already exists"), ProbeOutcome::ProtocolError);
    assert_eq!(classify_probe(404, "Solution already exists"), ProbeOutcome::ProtocolError);
    assert_eq!(classify_probe(500, ""), ProbeOutcome::ProtocolError);
    assert_eq!(classify_probe(0, ""), ProbeOutcome::ProtocolError);
}

#[test]
fn probing_twice_gives_the_same_reading() {
    for (status, body) in [(400u16, "Solution already exists"), (400, "bad nonce"), (503, "down")] {
        assert_eq!(classify_probe(status, body), classify_probe(status, body));
        assert_eq!(probe_path("addr", "C1"), probe_path("addr", "C1"));
    }
}

#[test]
fn text_search() {
    assert!(text_contains("abc", ""));
    assert!(text_contains("", ""));
    assert!(!text_contains("", "a"));
    assert!(text_contains("abc", "abc"));
    assert!(text_contains("abc", "bc"));
    assert!(text_contains("abc", "a"));
    assert!(!text_contains("abc", "abcd"));
    assert!(!text_contains("abc", "ac"));
    assert!(text_contains("aab", "ab"));
    assert!(text_contains("h\u{e9}llo w\u{f6}rld", "o w\u{f6}"));
    assert!(!text_contains("h\u{e9}llo", "e"));
}

#[test]
fn text_helpers() {
    assert_eq!(chars_of("a\u{e9}\u{4e2d}"), vec!['a', '\u{e9}', '\u{4e2d}']);
    assert!(chars_of("").is_empty());
    assert!(same_text("abc", "abc"));
    assert!(!same_text("abc", "abd"));
    assert!(!same_text("abc", "ab"));
}

#[test]
fn request_paths() {
    assert_eq!(tandc_path(None), "/TandC");
    assert_eq!(tandc_path(Some("1-0")), "/TandC/1-0");
    assert_eq!(challenge_path(), "/challenge");
    assert_eq!(rate_path(), "/work_to_star_rate");
    assert_eq!(register_path("addr1x", "a1b2", "c3d4"), "/register/addr1x/a1b2/c3d4");
    assert_eq!(
        solution_path("addr1x", "**D06C22", "00000000000000ff"),
        "/solution/addr1x/**D06C22/00000000000000ff"
    );
    assert_eq!(donate_path("addr1dest", "addr1src", "beef"), "/donate_to/addr1dest/addr1src/beef");
}

#[test]
fn probe_submits_the_all_zero_nonce() {
    assert_eq!(probe_nonce(), "0000000000000000");
    assert_eq!(probe_path("addr1x", "**D06C22"), "/solution/addr1x/**D06C22/0000000000000000");
    assert_eq!(probe_path("addr1x", "**D06C22"), solution_path("addr1x", "**D06C22", probe_nonce()));
}
