use vstd::prelude::*;

use crate::compaction::pass::{described, CompactionOutcome};
use crate::compaction::turns::CompactionLimits;

verus! {

/// What a hook wants done about a failed provider request.
#[derive(Debug, Clone, PartialEq, Eq)]
pub enum RequestRecovery {
    /// Leave the failure alone; the next hook, then the caller, decides.
    Propagate,
    /// The messages were changed so that re-issuing the request is worth it;
    /// `reason` is shown to the user.
    Retry { reason: String },
}

/// Whether a pass reduced anything.
pub open spec fn progressed(o: CompactionOutcome) -> bool {
    o.snipped_chars > 0 || o.snipped_messages > 0 || o.pruned_chars > 0 || o.summarized_messages > 0
}

/// The notice a pressure pass surfaces before a request.
pub open spec fn pressure_notice_text(o: CompactionOutcome) -> Seq<char> {
    "Compacted context before this request: "@ + described(o)
}

/// The reason given when an overflowing request is retried after a pass.
pub open spec fn overflow_retry_text(o: CompactionOutcome) -> Seq<char> {
    "The request exceeded the model's context window, so history was compacted and the request retried: "@
        + described(o)
}

/// Compaction attached around a step: a pressure pass before the request,
/// and an overflow pass after the provider rejects one as too long.
#[derive(Debug, Clone, Copy)]
pub struct CompactionHook;

impl CompactionHook {
    /// How the hook is named in logs and notices.
    pub fn name(&self) -> (r: &'static str)
        ensures
            r@ == "compaction"@,
    {
        "compaction"
    }

    /// What the compaction hook says before a step, given what its pressure pass
    /// returned: a notice only when a pass ran and made progress.
    pub fn pressure_notice(&self, outcome: Option<CompactionOutcome>) -> (r: Option<String>)
        ensures
            match outcome {
                Some(o) => if progressed(o) {
                    r matches Some(t) && t@ == pressure_notice_text(o)
                } else {
                    r is None
                },
                None => r is None,
            },
    {
        match outcome {
            Some(o) => if o.made_progress() {
                let mut t = "Compacted context before this request: ".to_owned();
                t.append(o.describe().as_str());
                Some(t)
            } else {
                None
            },
            None => None,
        }
    }

    /// The limits an overflow pass runs under: those the provider declares, or
    /// else the current estimate (at least one token) taken as the ceiling.
    pub fn overflow_limits(&self, declared: Option<CompactionLimits>, estimate: i64) -> (r: CompactionLimits)
        ensures
            r == match declared {
                Some(l) => l,
                None => CompactionLimits { usable_tokens: if estimate >= 1 { estimate } else { 1 } },
            },
    {
        match declared {
            Some(l) => l,
            None => CompactionLimits { usable_tokens: if estimate >= 1 { estimate } else { 1 } },
        }
    }

    /// What the compaction hook answers a request the provider rejected as too
    /// long, given what its overflow pass returned: a retry only when the pass
    /// made progress, since retrying a request that could not be shrunk would
    /// fail the same way.
    pub fn overflow_recovery(&self, outcome: Option<CompactionOutcome>) -> (r: RequestRecovery)
        ensures
            match outcome {
                Some(o) => if progressed(o) {
                    r matches RequestRecovery::Retry { reason } && reason@ == overflow_retry_text(o)
                } else {
                    r is Propagate
                },
                None => r is Propagate,
            },
    {
        match outcome {
            Some(o) => if o.made_progress() {
                let mut reason =
                    "The request exceeded the model's context window, so history was compacted and the request retried: "
                        .to_owned();
                reason.append(o.describe().as_str());
                RequestRecovery::Retry { reason }
            } else {
                RequestRecovery::Propagate
            },
            None => RequestRecovery::Propagate,
        }
    }
}

/// The answer of a chain of hooks to a failed request, given the answers of
/// its hooks in order: the first retry wins and the hooks after it are not
/// asked. Returns the answer and how many hooks were asked.
pub fn chain_recovery(answers: &[RequestRecovery]) -> (r: (RequestRecovery, usize))
    ensures
        r.1 <= answers@.len(),
        forall|k: int| 0 <= k < r.1 - 1 ==> answers@[k] is Propagate,
        match r.0 {
            RequestRecovery::Retry { .. } => r.1 >= 1 && answers@[r.1 - 1] == r.0,
            RequestRecovery::Propagate => r.1 == answers@.len() && forall|k: int|
                0 <= k < answers@.len() ==> answers@[k] is Propagate,
        },
{
    let mut i: usize = 0;
    while i < answers.len()
        invariant
            i <= answers@.len(),
            forall|k: int| 0 <= k < i ==> answers@[k] is Propagate,
        decreases answers@.len() - i,
    {
        match &answers[i] {
            RequestRecovery::Propagate => {},
            RequestRecovery::Retry { reason } => {
                return (RequestRecovery::Retry { reason: reason.clone() }, i + 1);
            },
        }
        i = i + 1;
    }
    (RequestRecovery::Propagate, i)
}

} // verus!
