//! The donation log and the rules that keep it flat.
//!
//! A donation moves what one address has earned to another. The log of
//! donations made is append-only. Before a donation is asked of the
//! coordinator it is held against the log: a source donates once, a target
//! receives once, and no address is ever both.

use crate::util::json::{json_line_of_texts, json_text_field, line_of_texts, text_field};
use crate::util::text::{blank_line, is_blank, same_text, Reading};
use vstd::prelude::*;
use vstd::string::StringExecFns;

verus! {

/// One donation that was made.
#[derive(Debug)]
pub struct DonationRecord {
    /// The address that gave its claims away.
    pub source: String,
    /// The address that received them.
    pub target: String,
    /// When the donation was recorded.
    pub timestamp: String,
}

/// A donation record as mathematical values.
pub struct DonationView {
    pub source: Seq<char>,
    pub target: Seq<char>,
    pub timestamp: Seq<char>,
}

impl View for DonationRecord {
    type V = DonationView;

    open spec fn view(&self) -> DonationView {
        DonationView { source: self.source@, target: self.target@, timestamp: self.timestamp@ }
    }
}

impl Clone for DonationRecord {
    fn clone(&self) -> (copy: Self)
        ensures
            copy@ == self@,
    {
        DonationRecord {
            source: self.source.clone(),
            target: self.target.clone(),
            timestamp: self.timestamp.clone(),
        }
    }
}

/// The donation that a line of the log holds: a JSON object with the three
/// texts of a donation.
pub open spec fn line_donation(line: Seq<char>) -> Option<DonationView> {
    match (
        json_text_field(line, "source"@),
        json_text_field(line, "target"@),
        json_text_field(line, "timestamp"@),
    ) {
        (Some(source), Some(target), Some(timestamp)) => Some(
            DonationView { source, target, timestamp },
        ),
        _ => None,
    }
}

/// The line of the log that holds a donation.
pub open spec fn donation_line(donation: DonationView) -> Option<Seq<char>> {
    json_line_of_texts(
        "source"@,
        donation.source,
        "target"@,
        donation.target,
        "timestamp"@,
        donation.timestamp,
    )
}

impl DonationRecord {
    /// Reads one line of the log.
    pub fn from_line(line: &str) -> (read: Reading<DonationRecord>)
        ensures
            match read {
                Reading::Blank => is_blank(line@),
                Reading::Malformed => !is_blank(line@) && line_donation(line@) is None,
                Reading::Record(donation) => !is_blank(line@) && line_donation(line@) == Some(
                    donation@,
                ),
            },
    {
        if blank_line(line) {
            return Reading::Blank;
        }
        let source = match text_field(line, "source") {
            Some(text) => text,
            None => { return Reading::Malformed; },
        };
        let target = match text_field(line, "target") {
            Some(text) => text,
            None => { return Reading::Malformed; },
        };
        let timestamp = match text_field(line, "timestamp") {
            Some(text) => text,
            None => { return Reading::Malformed; },
        };
        Reading::Record(DonationRecord { source, target, timestamp })
    }

    /// Writes the line of the log that holds this donation. `None` where
    /// the JSON writer gives none.
    pub fn to_line(&self) -> (line: Option<String>)
        ensures
            match line {
                Some(text) => donation_line(self@) == Some(text@),
                None => donation_line(self@) is None,
            },
    {
        line_of_texts(
            ("source", self.source.as_str()),
            ("target", self.target.as_str()),
            ("timestamp", self.timestamp.as_str()),
        )
    }
}

/// Why a donation is not allowed.
#[derive(Copy, Clone, Debug, PartialEq, Eq, Structural)]
pub enum DonationRefusal {
    /// A receipt is required and the source has none.
    NoReceipts,
    /// The source has donated before.
    SourceAlreadyDonated,
    /// The target has donated before: the donation would extend a chain.
    TargetHasDonated,
    /// The target has received a donation before.
    TargetAlreadyReceived,
    /// The source has received a donation before: the donation would
    /// extend a chain.
    SourceAlreadyReceived,
}

/// The views of a list of records, in order.
pub open spec fn log_views(records: Seq<DonationRecord>) -> Seq<DonationView> {
    records.map_values(|r: DonationRecord| r@)
}

/// Whether `address` is the source of some donation in the log.
pub open spec fn has_donated(log: Seq<DonationView>, address: Seq<char>) -> bool {
    exists|i: int| 0 <= i < log.len() && (#[trigger] log[i]).source == address
}

/// Whether `address` is the target of some donation in the log.
pub open spec fn has_received(log: Seq<DonationView>, address: Seq<char>) -> bool {
    exists|i: int| 0 <= i < log.len() && (#[trigger] log[i]).target == address
}

/// The rules, in the order they are applied: the first that is broken
/// names the refusal, and `None` means the donation is allowed.
pub open spec fn refusal(
    log: Seq<DonationView>,
    source: Seq<char>,
    target: Seq<char>,
    require_receipt: bool,
    has_source_receipts: bool,
) -> Option<DonationRefusal> {
    if require_receipt && !has_source_receipts {
        Some(DonationRefusal::NoReceipts)
    } else if has_donated(log, source) {
        Some(DonationRefusal::SourceAlreadyDonated)
    } else if has_donated(log, target) {
        Some(DonationRefusal::TargetHasDonated)
    } else if has_received(log, target) {
        Some(DonationRefusal::TargetAlreadyReceived)
    } else if has_received(log, source) {
        Some(DonationRefusal::SourceAlreadyReceived)
    } else {
        None
    }
}

/// A flat log: among any two of its donations the sources differ, the
/// targets differ, and the source of one is not the target of the other.
pub open spec fn flat(log: Seq<DonationView>) -> bool {
    forall|i: int, j: int|
        0 <= i < log.len() && 0 <= j < log.len() && i != j ==> (#[trigger] log[i]).source != (
        #[trigger] log[j]).source && log[i].target != log[j].target && log[i].source
            != log[j].target
}

/// The log that results when each of `attempts`, a source and a target, is
/// made in turn and recorded only where the rules allow it.
pub open spec fn replay(attempts: Seq<(Seq<char>, Seq<char>)>) -> Seq<DonationView>
    decreases attempts.len(),
{
    if attempts.len() == 0 {
        Seq::empty()
    } else {
        let before = replay(attempts.drop_last());
        let (source, target) = attempts.last();
        if refusal(before, source, target, false, false) is None {
            before.push(DonationView { source, target, timestamp: Seq::empty() })
        } else {
            before
        }
    }
}

/// A donation that the rules allow leaves a flat log flat.
pub proof fn lemma_allowed_donation_keeps_log_flat(
    log: Seq<DonationView>,
    record: DonationView,
    require_receipt: bool,
    has_source_receipts: bool,
)
    requires
        flat(log),
        refusal(log, record.source, record.target, require_receipt, has_source_receipts) is None,
    ensures
        flat(log.push(record)),
{
    let after = log.push(record);
    assert forall|i: int, j: int|
        0 <= i < after.len() && 0 <= j < after.len() && i != j implies (#[trigger] after[i]).source
        != (#[trigger] after[j]).source && after[i].target != after[j].target && after[i].source
        != after[j].target by {
        if i < log.len() {
            assert(after[i] == log[i]);
        }
        if j < log.len() {
            assert(after[j] == log[j]);
        }
    }
}

/// Whatever donations are attempted, in whatever order, the log of those
/// the rules allowed is flat: no address is a source twice, no address is
/// a target twice, and no address is the source of one donation and the
/// target of another.
pub proof fn lemma_replayed_log_is_flat(attempts: Seq<(Seq<char>, Seq<char>)>)
    ensures
        flat(replay(attempts)),
    decreases attempts.len(),
{
    if attempts.len() > 0 {
        lemma_replayed_log_is_flat(attempts.drop_last());
        let before = replay(attempts.drop_last());
        let (source, target) = attempts.last();
        if refusal(before, source, target, false, false) is None {
            lemma_allowed_donation_keeps_log_flat(
                before,
                DonationView { source, target, timestamp: Seq::empty() },
                false,
                false,
            );
        }
    }
}

/// Whether one of `list` is the text `wanted`.
fn holds_text(list: &Vec<String>, wanted: &str) -> (held: bool)
    ensures
        held == exists|i: int| 0 <= i < list@.len() && (#[trigger] list@[i])@ == wanted@,
{
    let mut i: usize = 0;
    while i < list.len()
        invariant
            i <= list.len(),
            forall|j: int| 0 <= j < i ==> (#[trigger] list@[j])@ != wanted@,
        decreases list.len() - i,
    {
        if same_text(list[i].as_str(), wanted) {
            return true;
        }
        i += 1;
    }
    false
}

impl DonationRefusal {
    /// Whether the refusal is of a donation that would have extended a
    /// chain: an address would have been both source and target.
    pub fn is_chain_violation(&self) -> (chained: bool)
        ensures
            chained == (*self == DonationRefusal::TargetHasDonated || *self
                == DonationRefusal::SourceAlreadyReceived),
    {
        match self {
            DonationRefusal::TargetHasDonated => true,
            DonationRefusal::SourceAlreadyReceived => true,
            _ => false,
        }
    }

    /// The reason in words, as it is reported.
    pub open spec fn reason_text(self, source: Seq<char>, target: Seq<char>) -> Seq<char> {
        match self {
            DonationRefusal::NoReceipts => "source address has no receipts yet"@,
            DonationRefusal::SourceAlreadyDonated => "source "@ + source + " already donated"@,
            DonationRefusal::TargetHasDonated => "target "@ + target
                + " has acted as a source before (donation chain not allowed)"@,
            DonationRefusal::TargetAlreadyReceived => "target "@ + target
                + " already received a donation (single-level only)"@,
            DonationRefusal::SourceAlreadyReceived => "source "@ + source
                + " already received a donation (cannot donate further)"@,
        }
    }

    /// The reason in words for a refused donation from `source` to
    /// `target`.
    pub fn reason(&self, source: &str, target: &str) -> (text: String)
        ensures
            text@ == self.reason_text(source@, target@),
    {
        match self {
            DonationRefusal::NoReceipts => String::from_str("source address has no receipts yet"),
            DonationRefusal::SourceAlreadyDonated => {
                let mut text = String::from_str("source ");
                text.append(source);
                text.append(" already donated");
                text
            },
            DonationRefusal::TargetHasDonated => {
                let mut text = String::from_str("target ");
                text.append(target);
                text.append(" has acted as a source before (donation chain not allowed)");
                text
            },
            DonationRefusal::TargetAlreadyReceived => {
                let mut text = String::from_str("target ");
                text.append(target);
                text.append(" already received a donation (single-level only)");
                text
            },
            DonationRefusal::SourceAlreadyReceived => {
                let mut text = String::from_str("source ");
                text.append(source);
                text.append(" already received a donation (cannot donate further)");
                text
            },
        }
    }
}

/// The donation log.
pub struct Donations {
    records: Vec<DonationRecord>,
}

impl View for Donations {
    type V = Seq<DonationView>;

    closed spec fn view(&self) -> Seq<DonationView> {
        log_views(self.records@)
    }
}

impl Donations {
    /// An empty log.
    pub fn new() -> (log: Self)
        ensures
            log@ == Seq::<DonationView>::empty(),
    {
        let log = Donations { records: Vec::new() };
        assert(log@ =~= Seq::<DonationView>::empty());
        log
    }

    /// Appends one record to the log, whatever it says.
    pub fn append_donation(&mut self, rec: &DonationRecord)
        ensures
            final(self)@ == old(self)@.push(rec@),
    {
        self.records.push(rec.clone());
        assert(self@ =~= old(self)@.push(rec@));
    }

    /// Every record of the log, oldest first.
    pub fn read_all(&self) -> (all: Vec<DonationRecord>)
        ensures
            log_views(all@) == self@,
    {
        let mut all: Vec<DonationRecord> = Vec::new();
        let mut i: usize = 0;
        while i < self.records.len()
            invariant
                i <= self.records.len(),
                all@.len() == i,
                forall|j: int| 0 <= j < i ==> (#[trigger] all@[j])@ == self.records@[j]@,
            decreases self.records.len() - i,
        {
            all.push(self.records[i].clone());
            i += 1;
        }
        assert(log_views(all@) =~= self@);
        all
    }

    /// The sources and the targets of the log, each in the log's order.
    pub fn build_sets(&self) -> (sets: (Vec<String>, Vec<String>))
        ensures
            sets.0@.len() == self@.len(),
            sets.1@.len() == self@.len(),
            forall|i: int| 0 <= i < self@.len() ==> (#[trigger] sets.0@[i])@ == self@[i].source,
            forall|i: int| 0 <= i < self@.len() ==> (#[trigger] sets.1@[i])@ == self@[i].target,
    {
        let mut sources: Vec<String> = Vec::new();
        let mut targets: Vec<String> = Vec::new();
        let mut i: usize = 0;
        while i < self.records.len()
            invariant
                i <= self.records.len(),
                sources@.len() == i,
                targets@.len() == i,
                forall|j: int| 0 <= j < i ==> (#[trigger] sources@[j])@ == self.records@[j].source@,
                forall|j: int| 0 <= j < i ==> (#[trigger] targets@[j])@ == self.records@[j].target@,
            decreases self.records.len() - i,
        {
            sources.push(self.records[i].source.clone());
            targets.push(self.records[i].target.clone());
            i += 1;
        }
        (sources, targets)
    }

    /// Holds a donation from `source` to `target` against the log and the
    /// receipt requirement. `Ok` means the donation is allowed; an error
    /// names the first rule it breaks.
    pub fn can_donate(
        &self,
        source: &str,
        target: &str,
        require_receipt: bool,
        has_source_receipts: bool,
    ) -> (allowed: Result<(), DonationRefusal>)
        ensures
            allowed == match refusal(
                self@,
                source@,
                target@,
                require_receipt,
                has_source_receipts,
            ) {
                Some(why) => Err::<(), DonationRefusal>(why),
                None => Ok(()),
            },
    {
        if require_receipt && !has_source_receipts {
            return Err(DonationRefusal::NoReceipts);
        }
        let (sources, targets) = self.build_sets();
        let ghost log = self@;
        assert(forall|a: Seq<char>|
            has_donated(log, a) <==> exists|i: int|
                0 <= i < sources@.len() && (#[trigger] sources@[i])@ == a) by {
            assert forall|a: Seq<char>| has_donated(log, a) implies exists|i: int|
                0 <= i < sources@.len() && (#[trigger] sources@[i])@ == a by {
                let i = choose|i: int| 0 <= i < log.len() && (#[trigger] log[i]).source == a;
                assert(sources@[i]@ == a);
            }
            assert forall|a: Seq<char>|
                (exists|i: int|
                    0 <= i < sources@.len() && (#[trigger] sources@[i])@ == a) implies has_donated(
                log,
                a,
            ) by {
                let i = choose|i: int| 0 <= i < sources@.len() && (#[trigger] sources@[i])@ == a;
                assert(log[i].source == a);
            }
        }
        assert(forall|a: Seq<char>|
            has_received(log, a) <==> exists|i: int|
                0 <= i < targets@.len() && (#[trigger] targets@[i])@ == a) by {
            assert forall|a: Seq<char>| has_received(log, a) implies exists|i: int|
                0 <= i < targets@.len() && (#[trigger] targets@[i])@ == a by {
                let i = choose|i: int| 0 <= i < log.len() && (#[trigger] log[i]).target == a;
                assert(targets@[i]@ == a);
            }
            assert forall|a: Seq<char>|
                (exists|i: int|
                    0 <= i < targets@.len() && (#[trigger] targets@[i])@ == a) implies has_received(
                log,
                a,
            ) by {
                let i = choose|i: int| 0 <= i < targets@.len() && (#[trigger] targets@[i])@ == a;
                assert(log[i].target == a);
            }
        }
        if holds_text(&sources, source) {
            return Err(DonationRefusal::SourceAlreadyDonated);
        }
        if holds_text(&sources, target) {
            return Err(DonationRefusal::TargetHasDonated);
        }
        if holds_text(&targets, target) {
            return Err(DonationRefusal::TargetAlreadyReceived);
        }
        if holds_text(&targets, source) {
            return Err(DonationRefusal::SourceAlreadyReceived);
        }
        Ok(())
    }

    /// Records a donation if the rules allow it, and says why not if they
    /// do not. A flat log stays flat either way.
    pub fn record_if_allowed(
        &mut self,
        rec: &DonationRecord,
        require_receipt: bool,
        has_source_receipts: bool,
    ) -> (outcome: Result<(), DonationRefusal>)
        ensures
            outcome == match refusal(
                old(self)@,
                rec@.source,
                rec@.target,
                require_receipt,
                has_source_receipts,
            ) {
                Some(why) => Err::<(), DonationRefusal>(why),
                None => Ok(()),
            },
            outcome is Ok ==> final(self)@ == old(self)@.push(rec@),
            outcome is Err ==> final(self)@ == old(self)@,
            flat(old(self)@) ==> flat(final(self)@),
    {
        match self.can_donate(
            rec.source.as_str(),
            rec.target.as_str(),
            require_receipt,
            has_source_receipts,
        ) {
            Ok(()) => {
                proof {
                    if flat(self@) {
                        lemma_allowed_donation_keeps_log_flat(
                            self@,
                            rec@,
                            require_receipt,
                            has_source_receipts,
                        );
                    }
                }
                self.append_donation(rec);
                Ok(())
            },
            Err(why) => Err(why),
        }
    }
}

} // verus!
