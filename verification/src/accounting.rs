//! Receipts of accepted solutions and what they are worth.
//!
//! Every accepted solution earns the rate of its day. The rates are a list
//! whose first entry is the rate of day 1; a receipt of day 0, or of a day
//! beyond the list, earns nothing. Earnings are counted in STAR, and one
//! NIGHT is a million STAR.

use crate::util::json::{
    json_line_with_numbers, json_number_field, json_text_field, line_with_numbers, number_field,
    text_field,
};
use crate::util::text::{blank_line, is_blank, Reading};
use vstd::prelude::*;
use vstd::string::StringExecFns;

verus! {

/// STAR per NIGHT.
pub const STAR_PER_NIGHT: u128 = 1_000_000;

/// One accepted solution.
#[derive(Debug)]
pub struct ReceiptRecord {
    /// When the coordinator accepted it.
    pub timestamp: String,
    /// The address it was submitted for.
    pub address: String,
    /// The challenge it solved.
    pub challenge_id: String,
    /// The day of that challenge.
    pub day: u32,
    /// The number of that challenge within its day.
    pub challenge_number: u32,
}

/// A receipt as mathematical values.
pub struct ReceiptView {
    pub timestamp: Seq<char>,
    pub address: Seq<char>,
    pub challenge_id: Seq<char>,
    pub day: u32,
    pub challenge_number: u32,
}

impl View for ReceiptRecord {
    type V = ReceiptView;

    open spec fn view(&self) -> ReceiptView {
        ReceiptView {
            timestamp: self.timestamp@,
            address: self.address@,
            challenge_id: self.challenge_id@,
            day: self.day,
            challenge_number: self.challenge_number,
        }
    }
}

impl Clone for ReceiptRecord {
    fn clone(&self) -> (copy: Self)
        ensures
            copy@ == self@,
    {
        ReceiptRecord {
            timestamp: self.timestamp.clone(),
            address: self.address.clone(),
            challenge_id: self.challenge_id.clone(),
            day: self.day,
            challenge_number: self.challenge_number,
        }
    }
}

/// The receipt that a line of the ledger holds: a JSON object with the
/// three texts and the two numbers of a receipt, the numbers within 32
/// bits.
pub open spec fn line_receipt(line: Seq<char>) -> Option<ReceiptView> {
    match (
        json_text_field(line, "timestamp"@),
        json_text_field(line, "address"@),
        json_text_field(line, "challenge_id"@),
        json_number_field(line, "day"@),
        json_number_field(line, "challenge_number"@),
    ) {
        (Some(timestamp), Some(address), Some(challenge_id), Some(day), Some(challenge_number)) =>
            if day <= u32::MAX && challenge_number <= u32::MAX {
                Some(
                    ReceiptView {
                        timestamp,
                        address,
                        challenge_id,
                        day: day as u32,
                        challenge_number: challenge_number as u32,
                    },
                )
            } else {
                None
            },
        _ => None,
    }
}

/// The line of the ledger that holds a receipt.
pub open spec fn receipt_line(receipt: ReceiptView) -> Option<Seq<char>> {
    json_line_with_numbers(
        "timestamp"@,
        receipt.timestamp,
        "address"@,
        receipt.address,
        "challenge_id"@,
        receipt.challenge_id,
        "day"@,
        receipt.day as u64,
        "challenge_number"@,
        receipt.challenge_number as u64,
    )
}

impl ReceiptRecord {
    /// Reads one line of the ledger.
    pub fn from_line(line: &str) -> (read: Reading<ReceiptRecord>)
        ensures
            match read {
                Reading::Blank => is_blank(line@),
                Reading::Malformed => !is_blank(line@) && line_receipt(line@) is None,
                Reading::Record(receipt) => !is_blank(line@) && line_receipt(line@) == Some(
                    receipt@,
                ),
            },
    {
        if blank_line(line) {
            return Reading::Blank;
        }
        let timestamp = match text_field(line, "timestamp") {
            Some(text) => text,
            None => { return Reading::Malformed; },
        };
        let address = match text_field(line, "address") {
            Some(text) => text,
            None => { return Reading::Malformed; },
        };
        let challenge_id = match text_field(line, "challenge_id") {
            Some(text) => text,
            None => { return Reading::Malformed; },
        };
        let day = match number_field(line, "day") {
            Some(n) => n,
            None => { return Reading::Malformed; },
        };
        let challenge_number = match number_field(line, "challenge_number") {
            Some(n) => n,
            None => { return Reading::Malformed; },
        };
        if day > u32::MAX as u64 || challenge_number > u32::MAX as u64 {
            return Reading::Malformed;
        }
        Reading::Record(
            ReceiptRecord {
                timestamp,
                address,
                challenge_id,
                day: day as u32,
                challenge_number: challenge_number as u32,
            },
        )
    }

    /// Writes the line of the ledger that holds this receipt. `None` where
    /// the JSON writer gives none.
    pub fn to_line(&self) -> (line: Option<String>)
        ensures
            match line {
                Some(text) => receipt_line(self@) == Some(text@),
                None => receipt_line(self@) is None,
            },
    {
        line_with_numbers(
            ("timestamp", self.timestamp.as_str()),
            ("address", self.address.as_str()),
            ("challenge_id", self.challenge_id.as_str()),
            ("day", self.day as u64),
            ("challenge_number", self.challenge_number as u64),
        )
    }
}

/// The views of a list of receipts, in order.
pub open spec fn receipt_views(records: Seq<ReceiptRecord>) -> Seq<ReceiptView> {
    records.map_values(|r: ReceiptRecord| r@)
}

/// What one solution of `day` earns.
pub open spec fn rate_of_day(rates: Seq<u64>, day: u32) -> nat {
    if 1 <= day <= rates.len() {
        rates[day - 1] as nat
    } else {
        0
    }
}

/// What all receipts together earn, in STAR.
pub open spec fn star_total(receipts: Seq<ReceiptView>, rates: Seq<u64>) -> nat
    decreases receipts.len(),
{
    if receipts.len() == 0 {
        0
    } else {
        star_total(receipts.drop_last(), rates) + rate_of_day(rates, receipts.last().day)
    }
}

/// How many of the receipts are of `day`.
pub open spec fn count_of_day(receipts: Seq<ReceiptView>, day: u32) -> nat
    decreases receipts.len(),
{
    if receipts.len() == 0 {
        0
    } else {
        count_of_day(receipts.drop_last(), day) + if receipts.last().day == day {
            1nat
        } else {
            0nat
        }
    }
}

/// Whether some receipt is for `address`.
pub open spec fn has_receipt(receipts: Seq<ReceiptView>, address: Seq<char>) -> bool {
    exists|i: int| 0 <= i < receipts.len() && (#[trigger] receipts[i]).address == address
}

/// The earnings never exceed the largest rate times the number of
/// receipts.
pub proof fn lemma_star_total_bounded(receipts: Seq<ReceiptView>, rates: Seq<u64>)
    ensures
        star_total(receipts, rates) <= receipts.len() * u64::MAX,
    decreases receipts.len(),
{
    if receipts.len() > 0 {
        lemma_star_total_bounded(receipts.drop_last(), rates);
        assert(receipts.len() * u64::MAX == (receipts.len() - 1) * u64::MAX + u64::MAX)
            by (nonlinear_arith);
    }
}

/// Receipts of days that all earn the same rate earn that rate times their
/// number.
pub proof fn lemma_star_total_single_rate(receipts: Seq<ReceiptView>, rates: Seq<u64>, rate: nat)
    requires
        forall|i: int|
            0 <= i < receipts.len() ==> rate_of_day(rates, (#[trigger] receipts[i]).day) == rate,
    ensures
        star_total(receipts, rates) == receipts.len() * rate,
    decreases receipts.len(),
{
    if receipts.len() > 0 {
        let front = receipts.drop_last();
        assert forall|i: int| 0 <= i < front.len() implies rate_of_day(
            rates,
            (#[trigger] front[i]).day,
        ) == rate by {
            assert(front[i] == receipts[i]);
        }
        lemma_star_total_single_rate(front, rates, rate);
        assert(receipts.len() * rate == (receipts.len() - 1) * rate + rate) by (nonlinear_arith);
    } else {
        assert(receipts.len() * rate == 0) by (nonlinear_arith)
            requires
                receipts.len() == 0,
        ;
    }
}

/// The days that can earn: as many as there are rates, and no more than a
/// day number can name.
pub open spec fn earning_days(rates: Seq<u64>) -> nat {
    if rates.len() <= u32::MAX {
        rates.len()
    } else {
        u32::MAX as nat
    }
}

/// What the receipts of the days from 1 up to `upto` earn, counted day by
/// day: for each day the number of its receipts times its rate.
pub open spec fn star_by_days(receipts: Seq<ReceiptView>, rates: Seq<u64>, upto: nat) -> nat
    decreases upto,
{
    if upto == 0 {
        0
    } else {
        star_by_days(receipts, rates, (upto - 1) as nat) + count_of_day(receipts, upto as u32)
            * rates[upto - 1] as nat
    }
}

/// One more receipt adds its day's rate to the earnings counted day by
/// day, where its day is among the days counted.
proof fn lemma_by_days_push(
    front: Seq<ReceiptView>,
    receipt: ReceiptView,
    rates: Seq<u64>,
    upto: nat,
)
    requires
        upto <= earning_days(rates),
    ensures
        star_by_days(front.push(receipt), rates, upto) == star_by_days(front, rates, upto) + if 1
            <= receipt.day <= upto {
            rates[receipt.day - 1] as nat
        } else {
            0nat
        },
    decreases upto,
{
    if upto > 0 {
        lemma_by_days_push(front, receipt, rates, (upto - 1) as nat);
        let all = front.push(receipt);
        assert(all.drop_last() == front);
        assert(all.last() == receipt);
        let before = count_of_day(front, upto as u32);
        let rate = rates[upto - 1] as nat;
        if receipt.day == upto {
            assert(count_of_day(all, upto as u32) == before + 1);
            assert((before + 1) * rate == before * rate + rate) by (nonlinear_arith);
        } else {
            assert(count_of_day(all, upto as u32) == before);
        }
    }
}

/// Counting receipt by receipt and counting day by day give the same
/// earnings: the total is, summed over the days that have a rate, the
/// number of receipts of the day times the rate of the day.
pub proof fn lemma_star_total_by_days(receipts: Seq<ReceiptView>, rates: Seq<u64>)
    ensures
        star_total(receipts, rates) == star_by_days(receipts, rates, earning_days(rates)),
    decreases receipts.len(),
{
    if receipts.len() == 0 {
        lemma_no_receipts_by_days(receipts, rates, earning_days(rates));
    } else {
        let front = receipts.drop_last();
        lemma_star_total_by_days(front, rates);
        assert(receipts == front.push(receipts.last()));
        lemma_by_days_push(front, receipts.last(), rates, earning_days(rates));
    }
}

/// No receipts earn nothing, however many days are counted.
proof fn lemma_no_receipts_by_days(receipts: Seq<ReceiptView>, rates: Seq<u64>, upto: nat)
    requires
        receipts.len() == 0,
    ensures
        star_by_days(receipts, rates, upto) == 0,
    decreases upto,
{
    if upto > 0 {
        lemma_no_receipts_by_days(receipts, rates, (upto - 1) as nat);
        assert(count_of_day(receipts, upto as u32) * rates[upto - 1] as nat == 0)
            by (nonlinear_arith)
            requires
                count_of_day(receipts, upto as u32) == 0,
        ;
    }
}

/// The digit for a value below ten.
pub open spec fn decimal_digit(d: nat) -> char {
    ((48 + d) as u8) as char
}

/// A number in decimal, without leading zeros.
pub open spec fn decimal_text(n: nat) -> Seq<char>
    decreases n,
{
    if n < 10 {
        seq![decimal_digit(n)]
    } else {
        decimal_text(n / 10).push(decimal_digit(n % 10))
    }
}

/// The six decimal places of a number below a million.
pub open spec fn six_places(n: nat) -> Seq<char> {
    seq![
        decimal_digit(n / 100_000 % 10),
        decimal_digit(n / 10_000 % 10),
        decimal_digit(n / 1_000 % 10),
        decimal_digit(n / 100 % 10),
        decimal_digit(n / 10 % 10),
        decimal_digit(n % 10),
    ]
}

/// An amount of STAR written in NIGHT with six decimal places.
pub open spec fn night_text(star: nat) -> Seq<char> {
    decimal_text(star / 1_000_000) + seq!['.'] + six_places(star % 1_000_000)
}

/// The line that reports the totals.
pub open spec fn totals_text(solutions: nat, star: nat) -> Seq<char> {
    "Accounting \u{2014} solutions total: "@ + decimal_text(solutions) + " \u{2014} STAR: "@
        + decimal_text(star) + " \u{2014} NIGHT: "@ + night_text(star)
}

/// The text of one digit.
fn digit_text(d: u8) -> (text: &'static str)
    requires
        d < 10,
    ensures
        text@ == seq![decimal_digit(d as nat)],
{
    proof {
        reveal_strlit("0");
        reveal_strlit("1");
        reveal_strlit("2");
        reveal_strlit("3");
        reveal_strlit("4");
        reveal_strlit("5");
        reveal_strlit("6");
        reveal_strlit("7");
        reveal_strlit("8");
        reveal_strlit("9");
    }
    let text = if d == 0 {
        "0"
    } else if d == 1 {
        "1"
    } else if d == 2 {
        "2"
    } else if d == 3 {
        "3"
    } else if d == 4 {
        "4"
    } else if d == 5 {
        "5"
    } else if d == 6 {
        "6"
    } else if d == 7 {
        "7"
    } else if d == 8 {
        "8"
    } else {
        "9"
    };
    assert(text@ =~= seq![decimal_digit(d as nat)]);
    text
}

/// Appends `n` in decimal to `out`.
pub fn append_decimal(out: &mut String, n: u128)
    ensures
        final(out)@ == old(out)@ + decimal_text(n as nat),
    decreases n,
{
    if n >= 10 {
        append_decimal(out, n / 10);
    }
    out.append(digit_text((n % 10) as u8));
    assert(out@ =~= old(out)@ + decimal_text(n as nat));
}

/// Appends an amount of STAR written in NIGHT to `out`.
pub fn append_night(out: &mut String, star: u128)
    ensures
        final(out)@ == old(out)@ + night_text(star as nat),
{
    proof {
        reveal_strlit(".");
    }
    let whole: u128 = star / STAR_PER_NIGHT;
    let part: u128 = star % STAR_PER_NIGHT;
    append_decimal(out, whole);
    out.append(".");
    out.append(digit_text((part / 100_000 % 10) as u8));
    out.append(digit_text((part / 10_000 % 10) as u8));
    out.append(digit_text((part / 1_000 % 10) as u8));
    out.append(digit_text((part / 100 % 10) as u8));
    out.append(digit_text((part / 10 % 10) as u8));
    out.append(digit_text((part % 10) as u8));
    assert(out@ =~= old(out)@ + night_text(star as nat));
}

/// The receipts and the rates they are valued at.
pub struct Accounting {
    receipts: Vec<ReceiptRecord>,
    star_rates: Vec<u64>,
}

impl Accounting {
    /// The receipts, oldest first.
    pub closed spec fn receipts(&self) -> Seq<ReceiptView> {
        receipt_views(self.receipts@)
    }

    /// The rates: the first is the rate of day 1.
    pub closed spec fn rates(&self) -> Seq<u64> {
        self.star_rates@
    }

    /// No receipts and no rates.
    pub fn new() -> (books: Self)
        ensures
            books.receipts() == Seq::<ReceiptView>::empty(),
            books.rates() == Seq::<u64>::empty(),
    {
        let books = Accounting { receipts: Vec::new(), star_rates: Vec::new() };
        assert(books.receipts() =~= Seq::<ReceiptView>::empty());
        books
    }

    /// Appends one receipt.
    pub fn append_receipt(&mut self, rec: &ReceiptRecord)
        ensures
            final(self).receipts() == old(self).receipts().push(rec@),
            final(self).rates() == old(self).rates(),
    {
        self.receipts.push(rec.clone());
        assert(self.receipts() =~= old(self).receipts().push(rec@));
    }

    /// Every receipt, oldest first.
    pub fn read_all_receipts(&self) -> (all: Vec<ReceiptRecord>)
        ensures
            receipt_views(all@) == self.receipts(),
    {
        let mut all: Vec<ReceiptRecord> = Vec::new();
        let mut i: usize = 0;
        while i < self.receipts.len()
            invariant
                i <= self.receipts.len(),
                all@.len() == i,
                forall|j: int| 0 <= j < i ==> (#[trigger] all@[j])@ == self.receipts@[j]@,
            decreases self.receipts.len() - i,
        {
            all.push(self.receipts[i].clone());
            i += 1;
        }
        assert(receipt_views(all@) =~= self.receipts());
        all
    }

    /// Replaces the rates.
    pub fn write_star_rates(&mut self, rates: &[u64])
        ensures
            final(self).rates() == rates@,
            final(self).receipts() == old(self).receipts(),
    {
        let mut fresh: Vec<u64> = Vec::new();
        let mut i: usize = 0;
        while i < rates.len()
            invariant
                i <= rates.len(),
                fresh@ == rates@.take(i as int),
            decreases rates.len() - i,
        {
            fresh.push(rates[i]);
            i += 1;
            assert(rates@.take(i as int) == rates@.take(i - 1).push(rates@[i - 1]));
        }
        assert(rates@.take(i as int) == rates@);
        self.star_rates = fresh;
    }

    /// The rates.
    pub fn read_star_rates(&self) -> (rates: Vec<u64>)
        ensures
            rates@ == self.rates(),
    {
        self.star_rates.clone()
    }

    /// Whether some receipt is for `address`.
    pub fn has_receipt_for(&self, address: &str) -> (found: bool)
        ensures
            found == has_receipt(self.receipts(), address@),
    {
        let wanted: String = address.to_owned();
        let mut i: usize = 0;
        while i < self.receipts.len()
            invariant
                i <= self.receipts.len(),
                wanted@ == address@,
                forall|j: int| 0 <= j < i ==> (#[trigger] self.receipts()[j]).address != address@,
            decreases self.receipts.len() - i,
        {
            if self.receipts[i].address == wanted {
                assert(self.receipts()[i as int].address == address@);
                return true;
            }
            assert(self.receipts()[i as int].address != address@);
            i += 1;
        }
        false
    }

    /// The number of solutions and what they earn in STAR.
    pub fn totals(&self) -> (sums: (u64, u128))
        ensures
            sums.0 == self.receipts().len(),
            sums.1 == star_total(self.receipts(), self.rates()),
    {
        let ghost all = self.receipts();
        let ghost rates = self.rates();
        let mut star: u128 = 0;
        let mut i: usize = 0;
        while i < self.receipts.len()
            invariant
                i <= self.receipts.len(),
                all == receipt_views(self.receipts@),
                rates == self.star_rates@,
                star == star_total(all.take(i as int), rates),
            decreases self.receipts.len() - i,
        {
            let day: u32 = self.receipts[i].day;
            let rate: u64 = if day >= 1 && ((day - 1) as usize) < self.star_rates.len() {
                self.star_rates[(day - 1) as usize]
            } else {
                0
            };
            proof {
                let next = all.take(i + 1);
                assert(next.drop_last() == all.take(i as int));
                assert(next.last() == all[i as int]);
                assert(all[i as int].day == day);
                assert(rate == rate_of_day(rates, day));
                lemma_star_total_bounded(next, rates);
                assert(next.len() * u64::MAX <= usize::MAX * u64::MAX) by (nonlinear_arith)
                    requires
                        next.len() <= usize::MAX,
                ;
            }
            star = star + rate as u128;
            i += 1;
        }
        assert(all.take(i as int) == all);
        (self.receipts.len() as u64, star)
    }

    /// The line that reports the totals: the number of solutions, their
    /// earnings in STAR, and the same in NIGHT.
    pub fn log_totals(&self) -> (line: String)
        ensures
            line@ == totals_text(
                self.receipts().len(),
                star_total(self.receipts(), self.rates()),
            ),
    {
        let (solutions, star) = self.totals();
        let mut line = String::from_str("Accounting \u{2014} solutions total: ");
        append_decimal(&mut line, solutions as u128);
        line.append(" \u{2014} STAR: ");
        append_decimal(&mut line, star);
        line.append(" \u{2014} NIGHT: ");
        append_night(&mut line, star);
        line
    }
}

} // verus!
