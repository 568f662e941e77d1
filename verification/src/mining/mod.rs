//! The controller of the challenge cycle.
//!
//! The controller decides and the caller acts: the caller polls, probes,
//! registers, mines and submits, and tells the controller what came of it;
//! the controller answers each time with what to do next. One round goes
//! from a poll that finds an active challenge through the choice of an
//! address, its registration and the search to the submission.
//!
//! Choosing an address: the pool is tried in rotation, each candidate with
//! a probe. The first that has no solution for the challenge yet is taken.
//! When every address of the pool has one, or the pool is empty, a fresh
//! address is made, once, and taken without a probe. A probe whose answer
//! is an error of the protocol ends the cycle with that error.

pub mod blakehash;
pub mod worker;

use crate::accounting::{has_receipt, Accounting, ReceiptRecord, ReceiptView};
use crate::address::AddressBundle;
use crate::api::client::ProbeOutcome;
use crate::api::types::{Challenge, ChallengeEnvelope};
use crate::donations::{refusal, DonationRefusal, DonationView, Donations};
use crate::util::cip8::{cose_sign1_ed25519_with_headers, signed_envelope};
use crate::util::hexcode::{encode, hex_text};
use crate::util::text::{same_text, trim_end, trimmed_end};
use vstd::prelude::*;
use vstd::string::StringExecFns;
use vstd::string::StringSliceAdditionalSpecFns;

verus! {

/// Seconds to wait before the next poll while no challenge has begun.
pub const BEFORE_WAIT_SECS: u64 = 10;

/// Seconds to wait before the next poll after a code that is not known.
pub const UNKNOWN_WAIT_SECS: u64 = 5;

/// The state of the challenge cycle as a poll reports it.
#[derive(Copy, Clone, Debug, PartialEq, Eq, Structural)]
pub enum LifecycleCode {
    Before,
    Active,
    After,
    Unknown,
}

/// The state a code text names. Every text but the three known ones names
/// `Unknown`.
pub open spec fn code_of(code: Seq<char>) -> LifecycleCode {
    if code == "active"@ {
        LifecycleCode::Active
    } else if code == "before"@ {
        LifecycleCode::Before
    } else if code == "after"@ {
        LifecycleCode::After
    } else {
        LifecycleCode::Unknown
    }
}

/// Reads a code text.
pub fn lifecycle_code(code: &str) -> (state: LifecycleCode)
    ensures
        state == code_of(code@),
{
    if same_text(code, "active") {
        LifecycleCode::Active
    } else if same_text(code, "before") {
        LifecycleCode::Before
    } else if same_text(code, "after") {
        LifecycleCode::After
    } else {
        LifecycleCode::Unknown
    }
}

/// Where a round stands.
#[derive(Copy, Clone, Debug, PartialEq, Eq, Structural)]
pub enum Stage {
    /// Between rounds: the next thing is a poll.
    Idle,
    /// A candidate of the pool is being probed, and `left` more have not
    /// been tried.
    Probing { left: usize },
    /// A fresh address is being made.
    Generating,
    /// The chosen address is being registered.
    Registering,
    /// The search is running.
    Mining,
    /// The nonce is being submitted.
    Submitting,
    /// The cycle is over.
    Finished,
    /// The cycle ended with an error.
    Failed,
}

/// What the caller tells the controller.
#[derive(Copy, Clone, Debug, PartialEq, Eq, Structural)]
pub enum Event {
    /// A poll was answered. `has_challenge` says whether the answer
    /// carried a challenge, `pool` how many addresses the pool holds.
    Polled { code: LifecycleCode, has_challenge: bool, pool: usize },
    /// The probe of the current candidate was answered.
    Probed(ProbeOutcome),
    /// A fresh address was made.
    Generated,
    /// No fresh address could be made.
    GenerationFailed,
    /// The chosen address is registered.
    Registered,
    /// The registration was refused or did not get through.
    RegistrationFailed,
    /// The search returned: with a nonce, or without one at the deadline.
    Mined { found: bool },
    /// The nonce was accepted.
    Submitted,
    /// The submission was refused or did not get through.
    SubmissionFailed,
}

/// Why the cycle ended with an error.
#[derive(Copy, Clone, Debug, PartialEq, Eq, Structural)]
pub enum RoundError {
    /// An active answer to a poll carried no challenge.
    MissingChallenge,
    /// A probe was answered with an error of the protocol.
    ProbeProtocol,
    /// No fresh address could be made.
    Generation,
    /// The address could not be registered.
    Registration,
    /// The nonce could not be submitted.
    Submission,
    /// The caller told of something the round was not waiting for.
    OutOfOrder,
}

/// What the controller tells the caller to do next.
#[derive(Copy, Clone, Debug, PartialEq, Eq, Structural)]
pub enum Action {
    /// Wait this many seconds, then poll.
    Sleep { seconds: u64 },
    /// Poll now.
    Poll,
    /// Take the next address of the rotation and probe it.
    ProbeNext,
    /// Make a fresh address.
    GenerateFresh,
    /// Register the chosen address.
    Register,
    /// Run the search until the challenge's deadline.
    Mine,
    /// Submit the nonce.
    Submit,
    /// Keep the receipt, donate if that is set up, report the totals, then
    /// poll.
    Record,
    /// Stop: the cycle is over.
    Stop,
    /// Stop with this error.
    Fail(RoundError),
}

/// What happens when the round is told of something it was not waiting
/// for: it fails, unless the cycle has ended already.
pub open spec fn out_of_order(stage: Stage) -> (Stage, Action) {
    match stage {
        Stage::Finished => (Stage::Finished, Action::Stop),
        Stage::Failed => (Stage::Failed, Action::Stop),
        _ => (Stage::Failed, Action::Fail(RoundError::OutOfOrder)),
    }
}

/// The controller's rule: from where the round stands and what the caller
/// tells, where the round goes and what the caller does next.
pub open spec fn transition(stage: Stage, event: Event) -> (Stage, Action) {
    match (stage, event) {
        (Stage::Idle, Event::Polled { code, has_challenge, pool }) => match code {
            LifecycleCode::Before => (Stage::Idle, Action::Sleep { seconds: BEFORE_WAIT_SECS }),
            LifecycleCode::Unknown => (Stage::Idle, Action::Sleep { seconds: UNKNOWN_WAIT_SECS }),
            LifecycleCode::After => (Stage::Finished, Action::Stop),
            LifecycleCode::Active => if !has_challenge {
                (Stage::Failed, Action::Fail(RoundError::MissingChallenge))
            } else if pool == 0 {
                (Stage::Generating, Action::GenerateFresh)
            } else {
                (Stage::Probing { left: (pool - 1) as usize }, Action::ProbeNext)
            },
        },
        (Stage::Probing { left }, Event::Probed(outcome)) => match outcome {
            ProbeOutcome::NotYetSolved => (Stage::Registering, Action::Register),
            ProbeOutcome::AlreadySolved => if left == 0 {
                (Stage::Generating, Action::GenerateFresh)
            } else {
                (Stage::Probing { left: (left - 1) as usize }, Action::ProbeNext)
            },
            ProbeOutcome::ProtocolError => (
                Stage::Failed,
                Action::Fail(RoundError::ProbeProtocol),
            ),
        },
        (Stage::Generating, Event::Generated) => (Stage::Registering, Action::Register),
        (Stage::Generating, Event::GenerationFailed) => (
            Stage::Failed,
            Action::Fail(RoundError::Generation),
        ),
        (Stage::Registering, Event::Registered) => (Stage::Mining, Action::Mine),
        (Stage::Registering, Event::RegistrationFailed) => (
            Stage::Failed,
            Action::Fail(RoundError::Registration),
        ),
        (Stage::Mining, Event::Mined { found }) => if found {
            (Stage::Submitting, Action::Submit)
        } else {
            (Stage::Idle, Action::Poll)
        },
        (Stage::Submitting, Event::Submitted) => (Stage::Idle, Action::Record),
        (Stage::Submitting, Event::SubmissionFailed) => (
            Stage::Failed,
            Action::Fail(RoundError::Submission),
        ),
        _ => out_of_order(stage),
    }
}

/// Where the round stands after a run of events.
pub open spec fn stage_after(stage: Stage, events: Seq<Event>) -> Stage
    decreases events.len(),
{
    if events.len() == 0 {
        stage
    } else {
        transition(stage_after(stage, events.drop_last()), events.last()).0
    }
}

/// What the caller was told to do in answer to each of a run of events.
pub open spec fn actions_of(stage: Stage, events: Seq<Event>) -> Seq<Action>
    decreases events.len(),
{
    if events.len() == 0 {
        Seq::empty()
    } else {
        actions_of(stage, events.drop_last()).push(
            transition(stage_after(stage, events.drop_last()), events.last()).1,
        )
    }
}

/// How often an action occurs in a run of actions.
pub open spec fn count_of(actions: Seq<Action>, wanted: Action) -> nat
    decreases actions.len(),
{
    if actions.len() == 0 {
        0
    } else {
        count_of(actions.drop_last(), wanted) + if actions.last() == wanted {
            1nat
        } else {
            0nat
        }
    }
}

/// Whether none of the events is the answer to a poll.
pub open spec fn no_poll_among(events: Seq<Event>) -> bool {
    forall|i: int| 0 <= i < events.len() ==> !((#[trigger] events[i]) is Polled)
}

/// While no challenge has begun the caller is told to wait ten seconds and
/// the round stays idle: nothing is probed, registered or mined.
pub proof fn lemma_before_only_waits(has_challenge: bool, pool: usize)
    ensures
        transition(
            Stage::Idle,
            Event::Polled { code: LifecycleCode::Before, has_challenge, pool },
        ) == (Stage::Idle, Action::Sleep { seconds: 10 }),
{
}

/// The search is started in one place only: when the chosen address has
/// just been registered.
pub proof fn lemma_mine_only_after_registration(stage: Stage, event: Event)
    requires
        transition(stage, event).1 == Action::Mine,
    ensures
        stage == Stage::Registering,
        event == Event::Registered,
        transition(stage, event).0 == Stage::Mining,
{
}

/// A nonce is submitted in one place only: when the search has just
/// returned one.
pub proof fn lemma_submit_only_after_find(stage: Stage, event: Event)
    requires
        transition(stage, event).1 == Action::Submit,
    ensures
        stage == Stage::Mining,
        event == (Event::Mined { found: true }),
{
}

/// Once the cycle is over or has failed it stays so, and the caller is
/// told to stop.
pub proof fn lemma_ended_stays_ended(stage: Stage, event: Event)
    requires
        stage == Stage::Finished || stage == Stage::Failed,
    ensures
        transition(stage, event) == (stage, Action::Stop),
{
}

/// How many fresh addresses can still be asked for before the next poll.
pub open spec fn generations_ahead(stage: Stage) -> nat {
    match stage {
        Stage::Probing { .. } => 1,
        _ => 0,
    }
}

/// Between two polls a fresh address is asked for at most as often as
/// `generations_ahead` tells, and what is left shrinks accordingly.
proof fn lemma_generations_within_round(stage: Stage, events: Seq<Event>)
    requires
        no_poll_among(events),
    ensures
        count_of(actions_of(stage, events), Action::GenerateFresh) + generations_ahead(
            stage_after(stage, events),
        ) <= generations_ahead(stage),
    decreases events.len(),
{
    if events.len() > 0 {
        let front = events.drop_last();
        assert forall|i: int| 0 <= i < front.len() implies !((#[trigger] front[i]) is Polled) by {
            assert(front[i] == events[i]);
        }
        lemma_generations_within_round(stage, front);
        assert(!(events[events.len() - 1] is Polled));
        assert(actions_of(stage, events).drop_last() == actions_of(stage, front));
    }
}

/// In one round, from the answer to a poll up to the next poll, a fresh
/// address is asked for at most once.
pub proof fn lemma_one_generation_per_round(poll: Event, events: Seq<Event>)
    requires
        poll is Polled,
        no_poll_among(events),
    ensures
        count_of(actions_of(Stage::Idle, seq![poll] + events), Action::GenerateFresh) <= 1,
    decreases events.len(),
{
    let all = seq![poll] + events;
    if events.len() == 0 {
        assert(all.drop_last() == Seq::<Event>::empty());
        assert(actions_of(Stage::Idle, all).drop_last() == actions_of(
            Stage::Idle,
            all.drop_last(),
        ));
        assert(count_of(actions_of(Stage::Idle, all.drop_last()), Action::GenerateFresh) == 0);
    } else {
        let first = transition(Stage::Idle, poll);
        lemma_split_first(Stage::Idle, poll, events);
        lemma_generations_within_round(first.0, events);
        lemma_count_concat(seq![first.1], actions_of(first.0, events), Action::GenerateFresh);
        assert(count_of(seq![first.1], Action::GenerateFresh) + generations_ahead(first.0) <= 1)
            by {
            assert(seq![first.1].drop_last() == Seq::<Action>::empty());
            assert(count_of(Seq::<Action>::empty(), Action::GenerateFresh) == 0);
            assert(seq![first.1].last() == first.1);
        }
    }
}

/// A run of events is its first event, then the rest from where the first
/// leads.
proof fn lemma_split_first(stage: Stage, first: Event, rest: Seq<Event>)
    ensures
        stage_after(stage, seq![first] + rest) == stage_after(transition(stage, first).0, rest),
        actions_of(stage, seq![first] + rest) == seq![transition(stage, first).1] + actions_of(
            transition(stage, first).0,
            rest,
        ),
    decreases rest.len(),
{
    let all = seq![first] + rest;
    let next = transition(stage, first).0;
    if rest.len() == 0 {
        assert(all.drop_last() == Seq::<Event>::empty());
        assert(all.last() == first);
        assert(stage_after(stage, Seq::<Event>::empty()) == stage);
        assert(actions_of(stage, Seq::<Event>::empty()) == Seq::<Action>::empty());
        assert(actions_of(stage, all) =~= seq![transition(stage, first).1]);
        assert(actions_of(next, rest) =~= Seq::<Action>::empty());
    } else {
        assert(all.drop_last() == seq![first] + rest.drop_last());
        assert(all.last() == rest.last());
        lemma_split_first(stage, first, rest.drop_last());
        assert(actions_of(stage, all) =~= seq![transition(stage, first).1] + actions_of(
            next,
            rest,
        ));
    }
}

/// Counting in two runs of actions one after the other adds up.
proof fn lemma_count_concat(a: Seq<Action>, b: Seq<Action>, wanted: Action)
    ensures
        count_of(a + b, wanted) == count_of(a, wanted) + count_of(b, wanted),
    decreases b.len(),
{
    if b.len() == 0 {
        assert(a + b == a);
    } else {
        assert((a + b).drop_last() == a + b.drop_last());
        assert((a + b).last() == b.last());
        lemma_count_concat(a, b.drop_last(), wanted);
    }
}

/// A run of `n` probes that each found a solution already there.
pub open spec fn all_solved(n: nat) -> Seq<Event> {
    Seq::new(n, |i: int| Event::Probed(ProbeOutcome::AlreadySolved))
}

/// A pool in which every address has a solution already is tried to its
/// end: while fewer probes than the pool holds have been answered the next
/// address is probed, and the answer to the last one asks for a fresh
/// address.
pub proof fn lemma_exhausted_pool_generates(pool: usize, answered: nat)
    requires
        pool > 0,
        answered <= pool,
    ensures
        answered < pool ==> stage_after(Stage::Probing { left: (pool - 1) as usize }, all_solved(answered))
            == (Stage::Probing { left: (pool - 1 - answered) as usize }),
        answered == pool ==> stage_after(Stage::Probing { left: (pool - 1) as usize }, all_solved(answered))
            == Stage::Generating,
        answered > 0 ==> actions_of(Stage::Probing { left: (pool - 1) as usize }, all_solved(answered)).last()
            == if answered == pool {
            Action::GenerateFresh
        } else {
            Action::ProbeNext
        },
    decreases answered,
{
    if answered > 0 {
        lemma_exhausted_pool_generates(pool, (answered - 1) as nat);
        assert(all_solved(answered).drop_last() =~= all_solved((answered - 1) as nat));
        assert(all_solved(answered).last() == Event::Probed(ProbeOutcome::AlreadySolved));
    }
}

/// The controller: where the round stands, the challenge it is for, how
/// many solutions were accepted, and what is set up for donations.
pub struct Miner {
    workers: usize,
    stage: Stage,
    current_challenge_id: String,
    current_solutions: u64,
    global_solutions: u64,
    enable_donate: bool,
    donate_to: Option<String>,
}

/// The controller as mathematical values.
pub struct MinerView {
    pub workers: usize,
    pub stage: Stage,
    pub current_challenge_id: Seq<char>,
    pub current_solutions: u64,
    pub global_solutions: u64,
    pub enable_donate: bool,
    pub donate_to: Option<Seq<char>>,
}

impl View for Miner {
    type V = MinerView;

    closed spec fn view(&self) -> MinerView {
        MinerView {
            workers: self.workers,
            stage: self.stage,
            current_challenge_id: self.current_challenge_id@,
            current_solutions: self.current_solutions,
            global_solutions: self.global_solutions,
            enable_donate: self.enable_donate,
            donate_to: match self.donate_to {
                Some(dest) => Some(dest@),
                None => None,
            },
        }
    }
}

/// A counter one further, back at zero behind its largest value.
pub open spec fn counted(n: u64) -> u64 {
    if n == u64::MAX {
        0
    } else {
        (n + 1) as u64
    }
}

/// The controller after an event.
pub open spec fn miner_after(before: MinerView, event: Event) -> MinerView {
    let (stage, action) = transition(before.stage, event);
    if action == Action::Record {
        MinerView {
            stage,
            current_solutions: counted(before.current_solutions),
            global_solutions: counted(before.global_solutions),
            ..before
        }
    } else {
        MinerView { stage, ..before }
    }
}

/// The address that donations go to, where donating is switched on and an
/// address is named.
pub open spec fn donation_target_of(miner: MinerView) -> Option<Seq<char>> {
    match miner.donate_to {
        Some(dest) => if miner.enable_donate && dest.len() > 0 {
            Some(dest)
        } else {
            None
        },
        None => None,
    }
}

/// What the caller does after a poll, and whether the poll brought a
/// challenge other than the one before: then the rates are fetched anew
/// and the totals reported before anything else.
#[derive(Copy, Clone, Debug, PartialEq, Eq, Structural)]
pub struct PollOutcome {
    pub action: Action,
    pub challenge_changed: bool,
}

impl Miner {
    /// A controller between rounds that has seen no challenge yet.
    /// `workers` is the number of workers asked for, `available` the number
    /// the machine offers, which is taken where none is asked for.
    pub fn new(
        workers: Option<usize>,
        available: usize,
        enable_donate: bool,
        donate_to: Option<String>,
    ) -> (miner: Self)
        ensures
            miner@ == (MinerView {
                workers: match workers {
                    Some(n) => n,
                    None => available,
                },
                stage: Stage::Idle,
                current_challenge_id: Seq::<char>::empty(),
                current_solutions: 0,
                global_solutions: 0,
                enable_donate,
                donate_to: match donate_to {
                    Some(dest) => Some(dest@),
                    None => None,
                },
            }),
    {
        let count = match workers {
            Some(n) => n,
            None => available,
        };
        Miner {
            workers: count,
            stage: Stage::Idle,
            current_challenge_id: String::new(),
            current_solutions: 0,
            global_solutions: 0,
            enable_donate,
            donate_to,
        }
    }

    pub fn worker_count(&self) -> (count: usize)
        ensures
            count == self@.workers,
    {
        self.workers
    }

    /// Where the round stands.
    pub fn stage(&self) -> (stage: Stage)
        ensures
            stage == self@.stage,
    {
        self.stage
    }

    /// Solutions accepted for the current challenge.
    pub fn current_solutions(&self) -> (count: u64)
        ensures
            count == self@.current_solutions,
    {
        self.current_solutions
    }

    /// Solutions accepted since the controller was made.
    pub fn global_solutions(&self) -> (count: u64)
        ensures
            count == self@.global_solutions,
    {
        self.global_solutions
    }

    /// The address that donations go to, where donating is switched on and
    /// an address is named.
    pub fn donation_target(&self) -> (target: Option<String>)
        ensures
            match target {
                Some(dest) => donation_target_of(self@) == Some(dest@),
                None => donation_target_of(self@) is None,
            },
    {
        if !self.enable_donate {
            return None;
        }
        match &self.donate_to {
            Some(dest) => {
                if dest.as_str().is_empty() {
                    None
                } else {
                    Some(dest.clone())
                }
            },
            None => None,
        }
    }

    /// Takes an event and says what to do next.
    pub fn step(&mut self, event: Event) -> (action: Action)
        ensures
            action == transition(old(self)@.stage, event).1,
            final(self)@ == miner_after(old(self)@, event),
    {
        let (stage, action) = decide(self.stage, event);
        self.stage = stage;
        match action {
            Action::Record => {
                self.current_solutions = if self.current_solutions == u64::MAX {
                    0
                } else {
                    self.current_solutions + 1
                };
                self.global_solutions = if self.global_solutions == u64::MAX {
                    0
                } else {
                    self.global_solutions + 1
                };
            },
            _ => {},
        }
        action
    }

    /// Takes the answer to a poll. Where it carries a challenge other than
    /// the one before, that challenge becomes the current one and the
    /// count of its solutions starts at zero; this happens before the
    /// round goes on, whatever it goes on to.
    pub fn on_poll(&mut self, envelope: &ChallengeEnvelope, pool: usize) -> (outcome: PollOutcome)
        ensures
            outcome.action == transition(
                old(self)@.stage,
                poll_event(envelope.code@, envelope.challenge is Some, pool),
            ).1,
            outcome.challenge_changed == challenge_changes(
                old(self)@,
                envelope.code@,
                match envelope.challenge {
                    Some(ch) => Some(ch@.challenge_id),
                    None => None,
                },
            ),
            final(self)@ == miner_after(
                if outcome.challenge_changed {
                    MinerView {
                        current_challenge_id: envelope.challenge->0@.challenge_id,
                        current_solutions: 0,
                        ..old(self)@
                    }
                } else {
                    old(self)@
                },
                poll_event(envelope.code@, envelope.challenge is Some, pool),
            ),
    {
        let code = lifecycle_code(envelope.code.as_str());
        let mut changed = false;
        match &envelope.challenge {
            Some(challenge) => {
                if code == LifecycleCode::Active && self.stage == Stage::Idle
                    && challenge.challenge_id != self.current_challenge_id {
                    self.current_challenge_id = challenge.challenge_id.clone();
                    self.current_solutions = 0;
                    changed = true;
                }
            },
            None => {},
        }
        let action = self.step(
            Event::Polled { code, has_challenge: envelope.challenge.is_some(), pool },
        );
        PollOutcome { action, challenge_changed: changed }
    }
}

/// The event that an answer to a poll is.
pub open spec fn poll_event(code: Seq<char>, has_challenge: bool, pool: usize) -> Event {
    Event::Polled { code: code_of(code), has_challenge, pool }
}

/// Whether an answer to a poll brings a challenge other than the current
/// one: it is active, the round is idle, and the challenge's identity
/// differs.
pub open spec fn challenge_changes(
    miner: MinerView,
    code: Seq<char>,
    challenge_id: Option<Seq<char>>,
) -> bool {
    match challenge_id {
        Some(id) => code_of(code) == LifecycleCode::Active && miner.stage == Stage::Idle && id
            != miner.current_challenge_id,
        None => false,
    }
}

/// The controller's rule, computed.
pub fn decide(stage: Stage, event: Event) -> (next: (Stage, Action))
    ensures
        next == transition(stage, event),
{
    match (stage, event) {
        (Stage::Idle, Event::Polled { code, has_challenge, pool }) => match code {
            LifecycleCode::Before => (Stage::Idle, Action::Sleep { seconds: BEFORE_WAIT_SECS }),
            LifecycleCode::Unknown => (Stage::Idle, Action::Sleep { seconds: UNKNOWN_WAIT_SECS }),
            LifecycleCode::After => (Stage::Finished, Action::Stop),
            LifecycleCode::Active => if !has_challenge {
                (Stage::Failed, Action::Fail(RoundError::MissingChallenge))
            } else if pool == 0 {
                (Stage::Generating, Action::GenerateFresh)
            } else {
                (Stage::Probing { left: pool - 1 }, Action::ProbeNext)
            },
        },
        (Stage::Probing { left }, Event::Probed(outcome)) => match outcome {
            ProbeOutcome::NotYetSolved => (Stage::Registering, Action::Register),
            ProbeOutcome::AlreadySolved => if left == 0 {
                (Stage::Generating, Action::GenerateFresh)
            } else {
                (Stage::Probing { left: left - 1 }, Action::ProbeNext)
            },
            ProbeOutcome::ProtocolError => (
                Stage::Failed,
                Action::Fail(RoundError::ProbeProtocol),
            ),
        },
        (Stage::Generating, Event::Generated) => (Stage::Registering, Action::Register),
        (Stage::Generating, Event::GenerationFailed) => (
            Stage::Failed,
            Action::Fail(RoundError::Generation),
        ),
        (Stage::Registering, Event::Registered) => (Stage::Mining, Action::Mine),
        (Stage::Registering, Event::RegistrationFailed) => (
            Stage::Failed,
            Action::Fail(RoundError::Registration),
        ),
        (Stage::Mining, Event::Mined { found }) => if found {
            (Stage::Submitting, Action::Submit)
        } else {
            (Stage::Idle, Action::Poll)
        },
        (Stage::Submitting, Event::Submitted) => (Stage::Idle, Action::Record),
        (Stage::Submitting, Event::SubmissionFailed) => (
            Stage::Failed,
            Action::Fail(RoundError::Submission),
        ),
        (Stage::Finished, _) => (Stage::Finished, Action::Stop),
        (Stage::Failed, _) => (Stage::Failed, Action::Stop),
        _ => (Stage::Failed, Action::Fail(RoundError::OutOfOrder)),
    }
}

/// What registers an address: the signed envelope over the terms'
/// message without the white space at its end, and the public key, both in
/// hexadecimal.
pub struct RegistrationMaterial {
    pub signature_hex: String,
    pub pubkey_hex: String,
}

/// The envelope that registers an address: it carries the address's raw
/// bytes, is not hashed, and signs the message without the white space at
/// its end.
pub open spec fn registration_envelope(
    message: Seq<char>,
    privkey: Seq<u8>,
    address_raw: Seq<u8>,
) -> Seq<u8> {
    signed_envelope(privkey, vstd::utf8::encode_utf8(trimmed_end(message)), address_raw, false)
}

/// Signs the terms' message for `bundle`.
pub fn registration_material(message: &str, bundle: &AddressBundle) -> (material:
    RegistrationMaterial)
    ensures
        material.signature_hex@ == hex_text(
            registration_envelope(message@, bundle@.privkey, bundle@.address_raw),
        ),
        material.pubkey_hex@ == hex_text(bundle@.pubkey),
{
    let payload = trim_end(message);
    let envelope = cose_sign1_ed25519_with_headers(
        &bundle.privkey,
        payload,
        bundle.address_raw.as_slice(),
        false,
    );
    RegistrationMaterial {
        signature_hex: encode(envelope.as_slice()),
        pubkey_hex: encode(bundle.pubkey.as_slice()),
    }
}

/// The receipt of a solution that was accepted at `timestamp` for
/// `address` and `challenge`.
pub fn receipt_for(timestamp: &str, address: &str, challenge: &Challenge) -> (receipt:
    ReceiptRecord)
    ensures
        receipt@ == (ReceiptView {
            timestamp: timestamp@,
            address: address@,
            challenge_id: challenge@.challenge_id,
            day: challenge@.day,
            challenge_number: challenge@.challenge_number,
        }),
{
    ReceiptRecord {
        timestamp: timestamp.to_owned(),
        address: address.to_owned(),
        challenge_id: challenge.challenge_id.clone(),
        day: challenge.day,
        challenge_number: challenge.challenge_number,
    }
}

/// The message a donor signs to give its claims to `dest`.
pub open spec fn donation_message_text(dest: Seq<char>) -> Seq<char> {
    "Assign accumulated Scavenger rights to: "@ + dest
}

/// The message a donor signs to give its claims to `dest`.
pub fn donation_message(dest: &str) -> (message: String)
    ensures
        message@ == donation_message_text(dest@),
{
    let mut message = String::from_str("Assign accumulated Scavenger rights to: ");
    message.append(dest);
    message
}

/// The donor's signed envelope over the donation message, in hexadecimal.
/// The message is signed as it is.
pub fn donation_signature_hex(donor: &AddressBundle, dest: &str) -> (signature_hex: String)
    ensures
        signature_hex@ == hex_text(
            signed_envelope(
                donor@.privkey,
                vstd::utf8::encode_utf8(donation_message_text(dest@)),
                donor@.address_raw,
                false,
            ),
        ),
{
    let message = donation_message(dest);
    let envelope = cose_sign1_ed25519_with_headers(
        &donor.privkey,
        message.as_str(),
        donor.address_raw.as_slice(),
        false,
    );
    encode(envelope.as_slice())
}

/// What consolidation does with one address of the pool.
#[derive(Copy, Clone, Debug, PartialEq, Eq, Structural)]
pub enum ConsolidationStep {
    /// The address is the recipient itself: nothing to do.
    SkipRecipient,
    /// The address has no receipt: nothing to give.
    SkipNoReceipts,
    /// The rules refuse the donation.
    SkipRefused(DonationRefusal),
    /// Ask the coordinator for the donation.
    Donate,
}

/// What consolidation does with `donor`, given the receipts and the log:
/// the recipient and addresses without receipts are passed over, and the
/// rest is held against the rules. A receipt is always required.
pub open spec fn consolidation_of(
    donor: Seq<char>,
    recipient: Seq<char>,
    receipts: Seq<ReceiptView>,
    log: Seq<DonationView>,
) -> ConsolidationStep {
    if donor == recipient {
        ConsolidationStep::SkipRecipient
    } else if !has_receipt(receipts, donor) {
        ConsolidationStep::SkipNoReceipts
    } else {
        match refusal(log, donor, recipient, true, true) {
            Some(why) => ConsolidationStep::SkipRefused(why),
            None => ConsolidationStep::Donate,
        }
    }
}

/// Decides what consolidation does with `donor`.
pub fn consolidation_step(
    donor: &str,
    recipient: &str,
    books: &Accounting,
    log: &Donations,
) -> (step: ConsolidationStep)
    ensures
        step == consolidation_of(donor@, recipient@, books.receipts(), log@),
{
    if same_text(donor, recipient) {
        return ConsolidationStep::SkipRecipient;
    }
    if !books.has_receipt_for(donor) {
        return ConsolidationStep::SkipNoReceipts;
    }
    match log.can_donate(donor, recipient, true, true) {
        Ok(()) => ConsolidationStep::Donate,
        Err(why) => ConsolidationStep::SkipRefused(why),
    }
}

/// Holds the donation that follows an accepted solution against the rules:
/// from the address that solved to `dest`, with a receipt required.
pub fn donation_after_solution(
    donor: &str,
    dest: &str,
    books: &Accounting,
    log: &Donations,
) -> (allowed: Result<(), DonationRefusal>)
    ensures
        allowed == match refusal(
            log@,
            donor@,
            dest@,
            true,
            has_receipt(books.receipts(), donor@),
        ) {
            Some(why) => Err::<(), DonationRefusal>(why),
            None => Ok(()),
        },
{
    let has_source_receipts = books.has_receipt_for(donor);
    log.can_donate(donor, dest, true, has_source_receipts)
}

} // verus!
