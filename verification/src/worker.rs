//! The decisions of a search worker: what one candidate gives rise to, and
//! whether the worker goes on.

use vstd::prelude::*;
use vstd::utf8::{decode_utf8, encode_utf8, encode_utf8_decode_utf8};
use crate::events::{message_model, MessageModel, OutputMessage};
use crate::generator::KeyGenerator;
use crate::keys::{base58_text_32, encode_private_key, private_key_text, Keypair};
use crate::matcher::{prefix_match, starts_with};
use crate::rarity::{find_rare_pattern, rarity_match};
use crate::rules::{compiled_rule_set, JobContext, JobModel, PatternConfig};
use crate::shared::SharedSearchState;

verus! {

/// The two states of a worker. `Stopped` is final.
#[derive(Clone, Copy, Debug, PartialEq, Eq, Structural)]
pub enum WorkerState {
    Running,
    Stopped,
}

/// The state of a running worker after one turn of its loop: it stops when
/// it sees the stop flag set, or when its candidate hits the target prefix.
pub open spec fn state_after(stop_seen: bool, prefix_hit: bool) -> WorkerState {
    if stop_seen || prefix_hit {
        WorkerState::Stopped
    } else {
        WorkerState::Running
    }
}

/// What the evaluation of one candidate reports.
pub struct CandidateReport {
    pub rare: Option<OutputMessage>,
    pub found: Option<OutputMessage>,
}

/// The rare find that a candidate gives rise to: one where the job's rarity
/// rules find something in the address, with the text that they matched.
pub open spec fn rare_message(
    address: Seq<char>,
    secret: Seq<u8>,
    public: Seq<u8>,
    attempts: nat,
    job: JobModel,
) -> Option<MessageModel> {
    match rarity_match(encode_utf8(address), job) {
        Some(matched) => Some(
            MessageModel::Rare {
                address,
                private_key: private_key_text(secret, public),
                pattern: decode_utf8(matched),
                attempts,
            },
        ),
        None => None,
    }
}

/// The find that ends the job: one where the address starts with the job's
/// target prefix.
pub open spec fn found_message(
    address: Seq<char>,
    secret: Seq<u8>,
    public: Seq<u8>,
    attempts: nat,
    job: JobModel,
) -> Option<MessageModel> {
    if starts_with(encode_utf8(address), job.prefix) {
        Some(MessageModel::Found { address, private_key: private_key_text(secret, public), attempts })
    } else {
        None
    }
}

/// The report on `keypair` is the one that the job asks for, given that the
/// candidate was the `attempts`-th.
pub open spec fn reports_candidate(
    rare: Option<OutputMessage>,
    found: Option<OutputMessage>,
    keypair: Keypair,
    attempts: u64,
    job: JobModel,
) -> bool {
    let address = base58_text_32(keypair.public_key@);
    &&& message_model(rare) == rare_message(
        address,
        keypair.secret_seed@,
        keypair.public_key@,
        attempts as nat,
        job,
    )
    &&& message_model(found) == found_message(
        address,
        keypair.secret_seed@,
        keypair.public_key@,
        attempts as nat,
        job,
    )
}

/// Evaluates one candidate against a job: first the rarity rules, then the
/// target prefix. Both are evaluated whatever the other gives.
pub fn evaluate_candidate(keypair: &Keypair, attempts: u64, job: &JobContext) -> (report: CandidateReport)
    ensures
        reports_candidate(report.rare, report.found, *keypair, attempts, job@),
{
    let address = keypair.address();
    let address_bytes = address.as_str().as_bytes();
    let rare = match find_rare_pattern(address_bytes, job) {
        Some(pattern) => {
            proof {
                encode_utf8_decode_utf8(pattern@);
            }
            let private_key = encode_private_key(&keypair.secret_seed, &keypair.public_key);
            Some(OutputMessage::Rare { address: address.clone(), private_key, pattern, attempts })
        },
        None => None,
    };
    let found = if prefix_match(address_bytes, job.prefix_bytes.as_slice()) {
        let private_key = encode_private_key(&keypair.secret_seed, &keypair.public_key);
        Some(OutputMessage::Found { address, private_key, attempts })
    } else {
        None
    };
    CandidateReport { rare, found }
}

/// What one turn of a worker's loop reports.
pub struct StepReport {
    pub state: WorkerState,
    pub rare: Option<OutputMessage>,
    pub found: Option<OutputMessage>,
}

/// One turn of a worker's loop, given what the worker has seen of the stop
/// flag. Where it has seen the flag set it stops and reports nothing.
/// Otherwise it draws one candidate, counts the attempt and reports what the
/// candidate gives rise to; on a hit of the target prefix it sets the stop
/// flag and stops.
pub fn step_on(
    stop_seen: bool,
    generator: &mut KeyGenerator,
    job: &JobContext,
    shared: &SharedSearchState,
) -> (report: StepReport)
    ensures
        stop_seen ==> report.state == WorkerState::Stopped && report.rare is None && report.found
            is None,
        !stop_seen ==> exists|keypair: Keypair, attempts: u64|
            keypair.well_formed() && reports_candidate(
                report.rare,
                report.found,
                keypair,
                attempts,
                job@,
            ) && report.state == state_after(false, report.found is Some),
{
    if stop_seen {
        return StepReport { state: WorkerState::Stopped, rare: None, found: None };
    }
    let keypair = generator.next_keypair();
    let attempts = shared.record_attempt();
    let candidate = evaluate_candidate(&keypair, attempts, job);
    let state = if candidate.found.is_some() {
        shared.request_stop();
        WorkerState::Stopped
    } else {
        WorkerState::Running
    };
    StepReport { state, rare: candidate.rare, found: candidate.found }
}

/// One turn of a worker's loop: the worker looks at the stop flag and takes
/// the step that belongs to what it sees. What it sees depends on the other
/// workers, so the report is one of the two that a step can give.
pub fn worker_step(generator: &mut KeyGenerator, job: &JobContext, shared: &SharedSearchState) -> (report: StepReport)
    ensures
        (report.state == WorkerState::Stopped && report.rare is None && report.found is None) || (
        exists|keypair: Keypair, attempts: u64|
            keypair.well_formed() && reports_candidate(
                report.rare,
                report.found,
                keypair,
                attempts,
                job@,
            ) && report.state == state_after(false, report.found is Some)),
{
    step_on(shared.stop_requested(), generator, job, shared)
}

/// A job compiled without a configuration, or from an empty one, gives rise
/// to no rare find, whatever the candidate.
pub proof fn no_configuration_no_rare_message(
    config: Option<Seq<PatternConfig>>,
    job: JobModel,
    address: Seq<char>,
    secret: Seq<u8>,
    public: Seq<u8>,
    attempts: nat,
)
    requires
        config matches Some(entries) ==> entries.len() == 0,
        job.rules == compiled_rule_set(config),
    ensures
        rare_message(address, secret, public, attempts, job) is None,
{
}

} // verus!
