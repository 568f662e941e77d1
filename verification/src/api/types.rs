//! The coordinator's answers, as plain values.

use vstd::prelude::*;

verus! {

/// The terms and conditions: `message` is the text an address signs to
/// register.
#[derive(Debug)]
pub struct TandCResponse {
    pub version: String,
    pub content: String,
    pub message: String,
}

impl Clone for TandCResponse {
    fn clone(&self) -> (copy: Self)
        ensures
            copy.version@ == self.version@,
            copy.content@ == self.content@,
            copy.message@ == self.message@,
    {
        TandCResponse {
            version: self.version.clone(),
            content: self.content.clone(),
            message: self.message.clone(),
        }
    }
}

/// A unit of work: its identity, its difficulty mask, its deadline and the
/// seed material that goes into every preimage.
#[derive(Debug)]
pub struct Challenge {
    pub challenge_id: String,
    pub day: u32,
    pub challenge_number: u32,
    pub issued_at: String,
    pub latest_submission: String,
    pub difficulty: String,
    pub no_pre_mine: String,
    pub no_pre_mine_hour: String,
}

/// A challenge as mathematical values.
pub struct ChallengeView {
    pub challenge_id: Seq<char>,
    pub day: u32,
    pub challenge_number: u32,
    pub issued_at: Seq<char>,
    pub latest_submission: Seq<char>,
    pub difficulty: Seq<char>,
    pub no_pre_mine: Seq<char>,
    pub no_pre_mine_hour: Seq<char>,
}

impl View for Challenge {
    type V = ChallengeView;

    open spec fn view(&self) -> ChallengeView {
        ChallengeView {
            challenge_id: self.challenge_id@,
            day: self.day,
            challenge_number: self.challenge_number,
            issued_at: self.issued_at@,
            latest_submission: self.latest_submission@,
            difficulty: self.difficulty@,
            no_pre_mine: self.no_pre_mine@,
            no_pre_mine_hour: self.no_pre_mine_hour@,
        }
    }
}

impl Clone for Challenge {
    fn clone(&self) -> (copy: Self)
        ensures
            copy@ == self@,
    {
        Challenge {
            challenge_id: self.challenge_id.clone(),
            day: self.day,
            challenge_number: self.challenge_number,
            issued_at: self.issued_at.clone(),
            latest_submission: self.latest_submission.clone(),
            difficulty: self.difficulty.clone(),
            no_pre_mine: self.no_pre_mine.clone(),
            no_pre_mine_hour: self.no_pre_mine_hour.clone(),
        }
    }
}

/// One answer to a poll: the lifecycle code, the challenge while one is
/// active, and the start time while none has begun.
#[derive(Debug)]
pub struct ChallengeEnvelope {
    pub code: String,
    pub challenge: Option<Challenge>,
    pub mining_period_ends: Option<String>,
    pub max_day: Option<u32>,
    pub total_challenges: Option<u32>,
    pub current_day: Option<u32>,
    pub next_challenge_starts_at: Option<String>,
    pub starts_at: Option<String>,
}

/// The coordinator's acknowledgement of a registration.
#[derive(Debug)]
pub struct RegistrationReceiptInner {
    pub preimage: String,
    pub signature: String,
    pub timestamp: String,
}

/// The answer to a registration.
#[derive(Debug)]
pub struct RegistrationReceipt {
    pub registration_receipt: RegistrationReceiptInner,
}

/// The coordinator's signed acknowledgement of an accepted solution.
#[derive(Debug)]
pub struct CryptoReceipt {
    pub preimage: String,
    pub timestamp: String,
    pub signature: String,
}

/// The answer to an accepted submission.
#[derive(Debug)]
pub struct CryptoReceiptEnvelope {
    pub crypto_receipt: CryptoReceipt,
}

impl Clone for ChallengeEnvelope {
    fn clone(&self) -> (copy: Self)
        ensures
            copy.code@ == self.code@,
            copy.challenge is Some == self.challenge is Some,
            copy.challenge is Some ==> copy.challenge->0@ == self.challenge->0@,
    {
        ChallengeEnvelope {
            code: self.code.clone(),
            challenge: match &self.challenge {
                Some(challenge) => Some(challenge.clone()),
                None => None,
            },
            mining_period_ends: self.mining_period_ends.clone(),
            max_day: self.max_day,
            total_challenges: self.total_challenges,
            current_day: self.current_day,
            next_challenge_starts_at: self.next_challenge_starts_at.clone(),
            starts_at: self.starts_at.clone(),
        }
    }
}

impl Clone for RegistrationReceiptInner {
    fn clone(&self) -> (copy: Self)
        ensures
            copy.preimage@ == self.preimage@,
            copy.signature@ == self.signature@,
            copy.timestamp@ == self.timestamp@,
    {
        RegistrationReceiptInner {
            preimage: self.preimage.clone(),
            signature: self.signature.clone(),
            timestamp: self.timestamp.clone(),
        }
    }
}

impl Clone for RegistrationReceipt {
    fn clone(&self) -> (copy: Self)
        ensures
            copy.registration_receipt.timestamp@ == self.registration_receipt.timestamp@,
    {
        RegistrationReceipt { registration_receipt: self.registration_receipt.clone() }
    }
}

impl Clone for CryptoReceipt {
    fn clone(&self) -> (copy: Self)
        ensures
            copy.preimage@ == self.preimage@,
            copy.timestamp@ == self.timestamp@,
            copy.signature@ == self.signature@,
    {
        CryptoReceipt {
            preimage: self.preimage.clone(),
            timestamp: self.timestamp.clone(),
            signature: self.signature.clone(),
        }
    }
}

impl Clone for CryptoReceiptEnvelope {
    fn clone(&self) -> (copy: Self)
        ensures
            copy.crypto_receipt.timestamp@ == self.crypto_receipt.timestamp@,
    {
        CryptoReceiptEnvelope { crypto_receipt: self.crypto_receipt.clone() }
    }
}

} // verus!
