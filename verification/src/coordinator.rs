//! The decisions of the coordinator while a job runs: when a progress
//! snapshot is due and when the job is over.

use vstd::prelude::*;
use crate::events::{message_model, MessageModel, OutputMessage};

verus! {

/// Milliseconds between two progress snapshots.
pub const REPORT_INTERVAL_MS: u64 = 250;

/// What the coordinator does after one poll.
pub struct PollDecision {
    /// The progress snapshot to emit, if one is due. Emitting it restarts
    /// the interval.
    pub progress: Option<OutputMessage>,
    /// The job is over: every worker has stopped.
    pub finished: bool,
}

/// A progress snapshot is due once a full interval has passed since the last.
pub open spec fn progress_due(elapsed_ms: u128) -> bool {
    elapsed_ms >= REPORT_INTERVAL_MS
}

/// The snapshot of a poll: the total of the attempts, where one is due.
pub open spec fn progress_message(elapsed_ms: u128, total_attempts: u64) -> Option<MessageModel> {
    if progress_due(elapsed_ms) {
        Some(MessageModel::Progress { tid: 0, attempts: total_attempts as nat })
    } else {
        None
    }
}

/// Decides one poll of a running job from the time since the last snapshot,
/// the attempts counted so far and whether every worker has stopped.
pub fn poll_decision(elapsed_ms: u128, total_attempts: u64, workers_finished: bool) -> (decision: PollDecision)
    ensures
        message_model(decision.progress) == progress_message(elapsed_ms, total_attempts),
        decision.finished == workers_finished,
{
    let progress = if elapsed_ms >= REPORT_INTERVAL_MS as u128 {
        Some(OutputMessage::Progress { tid: 0, attempts: total_attempts })
    } else {
        None
    };
    PollDecision { progress, finished: workers_finished }
}

} // verus!
