use scavenger_miner::donations::{DonationRecord, DonationRefusal, Donations};
use scavenger_miner::util::text::Reading;

fn record(source: &str, target: &str) -> DonationRecord {
    DonationRecord {
        source: source.to_string(),
        target: target.to_string(),
        timestamp: "2025-11-04T21:26:06Z".to_string(),
    }
}

fn log_of(pairs: &[(&str, &str)]) -> Donations {
    let mut log = Donations::new();
    for (source, target) in pairs {
        log.append_donation(&record(source, target));
    }
    log
}

#[test]
fn empty_log_allows_a_donation() {
    let log = Donations::new();
    assert_eq!(log.can_donate("A", "B", false, false), Ok(()));
    assert_eq!(log.can_donate("A", "B", true, true), Ok(()));
    assert!(log.read_all().is_empty());
}

#[test]
fn receipt_requirement_comes_first() {
    let log = log_of(&[("A", "B")]);
    assert_eq!(log.can_donate("A", "B", true, false), Err(DonationRefusal::NoReceipts));
    assert_eq!(log.can_donate("X", "Y", true, false), Err(DonationRefusal::NoReceipts));
    assert_eq!(log.can_donate("X", "Y", false, false), Ok(()));
    assert_eq!(log.can_donate("X", "Y", true, true), Ok(()));
}

#[test]
fn a_source_donates_once() {
    let log = log_of(&[("A", "B")]);
    assert_eq!(log.can_donate("A", "C", false, false), Err(DonationRefusal::SourceAlreadyDonated));
    assert_eq!(log.can_donate("A", "B", false, false), Err(DonationRefusal::SourceAlreadyDonated));
}

#[test]
fn a_target_must_not_have_donated() {
    let log = log_of(&[("A", "B")]);
    assert_eq!(log.can_donate("C", "A", false, false), Err(DonationRefusal::TargetHasDonated));
}

#[test]
fn a_target_receives_once() {
    let log = log_of(&[("A", "B")]);
    assert_eq!(log.can_donate("C", "B", false, false), Err(DonationRefusal::TargetAlreadyReceived));
}

#[test]
fn chain_from_a_recipient_is_refused_before_any_network_call() {
    let log = log_of(&[("A", "B")]);
    let verdict = log.can_donate("B", "C", true, true);
    assert_eq!(verdict, Err(DonationRefusal::SourceAlreadyReceived));
    let why = verdict.unwrap_err();
    assert!(why.is_chain_violation());
    assert_eq!(
        why.reason("B", "C"),
        "source B already received a donation (cannot donate further)"
    );
}

#[test]
fn rules_apply_in_order() {
    let log = log_of(&[("A", "B"), ("C", "D")]);
    // A is a source and the target D has received: the source rule is named.
    assert_eq!(log.can_donate("A", "D", false, false), Err(DonationRefusal::SourceAlreadyDonated));
    // The target C has donated and the source B has received: the target rule is named.
    assert_eq!(log.can_donate("B", "C", false, false), Err(DonationRefusal::TargetHasDonated));
    // The target D has received and the source B has received.
    assert_eq!(log.can_donate("B", "D", false, false), Err(DonationRefusal::TargetAlreadyReceived));
}

#[test]
fn refusal_reasons() {
    assert_eq!(DonationRefusal::NoReceipts.reason("s", "t"), "source address has no receipts yet");
    assert_eq!(DonationRefusal::SourceAlreadyDonated.reason("s", "t"), "source s already donated");
    assert_eq!(
        DonationRefusal::TargetHasDonated.reason("s", "t"),
        "target t has acted as a source before (donation chain not allowed)"
    );
    assert_eq!(
        DonationRefusal::TargetAlreadyReceived.reason("s", "t"),
        "target t already received a donation (single-level only)"
    );
    assert_eq!(
        DonationRefusal::SourceAlreadyReceived.reason("s", "t"),
        "source s already received a donation (cannot donate further)"
    );
    assert!(DonationRefusal::TargetHasDonated.is_chain_violation());
    assert!(DonationRefusal::SourceAlreadyReceived.is_chain_violation());
    assert!(!DonationRefusal::NoReceipts.is_chain_violation());
    assert!(!DonationRefusal::SourceAlreadyDonated.is_chain_violation());
    assert!(!DonationRefusal::TargetAlreadyReceived.is_chain_violation());
}

#[test]
fn sets_follow_the_log() {
    let log = log_of(&[("A", "B"), ("C", "D")]);
    let (sources, targets) = log.build_sets();
    assert_eq!(sources, vec!["A".to_string(), "C".to_string()]);
    assert_eq!(targets, vec!["B".to_string(), "D".to_string()]);
    let all = log.read_all();
    assert_eq!(all.len(), 2);
    assert_eq!(all[1].source, "C");
    assert_eq!(all[1].target, "D");
    assert_eq!(all[1].timestamp, "2025-11-04T21:26:06Z");
}

#[test]
fn recording_only_what_is_allowed() {
    let mut log = Donations::new();
    assert_eq!(log.record_if_allowed(&record("A", "B"), true, true), Ok(()));
    assert_eq!(
        log.record_if_allowed(&record("B", "C"), true, true),
        Err(DonationRefusal::SourceAlreadyReceived)
    );
    assert_eq!(log.record_if_allowed(&record("C", "D"), true, false), Err(DonationRefusal::NoReceipts));
    assert_eq!(log.record_if_allowed(&record("C", "D"), true, true), Ok(()));
    assert_eq!(log.read_all().len(), 2);
}

#[test]
fn randomly_attempted_donations_keep_the_log_flat() {
    let names = ["a", "b", "c", "d", "e", "f", "g", "h"];
    let mut state: u64 = 0xfeed_beef;
    for _ in 0..40 {
        let mut log = Donations::new();
        for _ in 0..60 {
            state = state.wrapping_mul(6364136223846793005).wrapping_add(1442695040888963407);
            let source = names[((state >> 33) % 8) as usize];
            state = state.wrapping_mul(6364136223846793005).wrapping_add(1442695040888963407);
            let target = names[((state >> 33) % 8) as usize];
            let _ = log.record_if_allowed(&record(source, target), false, false);
        }
        let all = log.read_all();
        for i in 0..all.len() {
            for j in 0..all.len() {
                if i != j {
                    assert_ne!(all[i].source, all[j].source);
                    assert_ne!(all[i].target, all[j].target);
                    assert_ne!(all[i].source, all[j].target);
                }
            }
        }
    }
}

#[test]
fn donation_lines() {
    let rec = record("addr1source", "addr1target");
    let line = rec.to_line().unwrap();
    assert!(!line.contains('\n'));
    let parsed: serde_json::Value = serde_json::from_str(&line).unwrap();
    assert_eq!(parsed["source"].as_str().unwrap(), "addr1source");
    assert_eq!(parsed["target"].as_str().unwrap(), "addr1target");
    assert_eq!(parsed["timestamp"].as_str().unwrap(), "2025-11-04T21:26:06Z");
    match DonationRecord::from_line(&line) {
        Reading::Record(read) => {
            assert_eq!(read.source, rec.source);
            assert_eq!(read.target, rec.target);
            assert_eq!(read.timestamp, rec.timestamp);
        }
        _ => panic!("a written line must read back"),
    }
    assert!(matches!(
        DonationRecord::from_line("{\"source\":\"s\",\"target\":\"t\",\"timestamp\":\"x\",\"more\":1}"),
        Reading::Record(_)
    ));
    assert!(matches!(DonationRecord::from_line(""), Reading::Blank));
    assert!(matches!(DonationRecord::from_line("  \t "), Reading::Blank));
    assert!(matches!(DonationRecord::from_line("{"), Reading::Malformed));
    assert!(matches!(DonationRecord::from_line("{\"source\":\"s\"}"), Reading::Malformed));
    assert!(matches!(
        DonationRecord::from_line("{\"source\":\"s\",\"target\":5,\"timestamp\":\"x\"}"),
        Reading::Malformed
    ));
}
