use vstd::prelude::*;

use std::time::Duration;

use crate::text::{chars_of, same_text, string_from_chars, take_chars, take_chars_exec, trim_chars, trim_spec};

verus! {

/// Longest objective handed to the moderator, in characters.
pub const MAX_OBJECTIVE_CHARS: usize = 2_000;

/// Most recent messages handed to the moderator.
pub const MAX_RECENT_MESSAGES: usize = 4;

/// Longest message field handed to the moderator, in characters.
pub const MAX_MESSAGE_CHARS: usize = 1_000;

/// Longest progress summary handed to or accepted from the moderator.
pub const MAX_PROGRESS_SUMMARY_CHARS: usize = 4_000;

/// Which provider and model moderate a group, for whom, and how long a call
/// may take.
#[derive(Debug)]
pub struct ModeratorConfig {
    pub owner_id: String,
    pub provider_id: String,
    pub model: String,
    pub timeout: Duration,
}

/// One agent the moderator may choose.
#[derive(Debug, Clone, PartialEq, Eq)]
pub struct ModeratorCandidate {
    pub agent_id: String,
    pub display_name: String,
    pub reason: String,
}

/// One recent message shown to the moderator.
#[derive(Debug, Clone, PartialEq, Eq)]
pub struct ModeratorMessage {
    pub role: String,
    pub content: String,
    pub agent_id: Option<String>,
    pub display_name: Option<String>,
    pub outcome: Option<String>,
}

/// Counters of the running turn shown to an automatic moderator.
#[derive(Debug, Clone, Copy, PartialEq, Eq, Structural)]
pub struct ModeratorTurnState {
    pub agent_steps: u32,
    pub moderator_calls: u32,
    pub consecutive_same_speaker: u32,
}

/// Everything the moderator is asked to decide on.
#[derive(Debug, Clone)]
pub struct ModeratorRequest {
    pub objective: String,
    pub recent_messages: Vec<ModeratorMessage>,
    pub candidates: Vec<ModeratorCandidate>,
    pub remaining_steps: u32,
    pub automatic: bool,
    pub progress_summary: Option<String>,
    pub turn_state: Option<ModeratorTurnState>,
}

/// The agent the moderator chose.
#[derive(Debug, Clone, PartialEq, Eq)]
pub struct ModeratorSelection {
    pub agent_id: String,
}

/// What the moderator decided.
#[derive(Debug, Clone, PartialEq, Eq)]
pub enum ModeratorDecision {
    Dispatch { selection: ModeratorSelection, summary: Option<String>, remaining_work: Option<String> },
    Finish { summary: String },
}

/// Why a moderator call produced no decision.
#[derive(Debug, Clone, Copy, PartialEq, Eq, Structural)]
pub enum ModeratorFailure {
    MissingConfiguration,
    ProviderUnavailable,
    Provider,
    Timeout,
    InvalidResponse,
    UnexpectedDelta,
}

/// The wire name of a failure.
pub open spec fn failure_name(f: ModeratorFailure) -> Seq<char> {
    match f {
        ModeratorFailure::MissingConfiguration => "missing_configuration"@,
        ModeratorFailure::ProviderUnavailable => "provider_unavailable"@,
        ModeratorFailure::Provider => "provider_error"@,
        ModeratorFailure::Timeout => "timeout"@,
        ModeratorFailure::InvalidResponse => "invalid_response"@,
        ModeratorFailure::UnexpectedDelta => "unexpected_delta"@,
    }
}

impl ModeratorFailure {
    /// Stable wire name reported alongside a moderator fallback, so a deleted
    /// provider or a misbehaving model is told apart from a plain budget
    /// fallback.
    pub fn as_str(self) -> (r: &'static str)
        ensures
            r@ == failure_name(self),
    {
        match self {
            ModeratorFailure::MissingConfiguration => "missing_configuration",
            ModeratorFailure::ProviderUnavailable => "provider_unavailable",
            ModeratorFailure::Provider => "provider_error",
            ModeratorFailure::Timeout => "timeout",
            ModeratorFailure::InvalidResponse => "invalid_response",
            ModeratorFailure::UnexpectedDelta => "unexpected_delta",
        }
    }
}

/// One moderator call: its decision or failure, whether a provider was
/// reached, and the tokens it reported.
#[derive(Debug, PartialEq, Eq)]
pub struct ModeratorAttempt {
    pub result: Result<ModeratorDecision, ModeratorFailure>,
    pub provider_called: bool,
    pub total_tokens: u64,
}

/// The first `limit` characters of `value`.
pub fn truncate(value: &str, limit: usize) -> (r: String)
    ensures
        r@ == take_chars(value@, limit as int),
{
    let v = chars_of(value);
    let t = take_chars_exec(v.as_slice(), limit);
    string_from_chars(t.as_slice())
}

fn truncate_opt(value: &Option<String>, limit: usize) -> (r: Option<String>)
    ensures
        match value {
            Some(v) => r matches Some(t) && t@ == take_chars(v@, limit as int),
            None => r is None,
        },
{
    match value {
        Some(v) => Some(truncate(v.as_str(), limit)),
        None => None,
    }
}

/// An optional text truncated to `limit` characters, as the contracts see it.
pub open spec fn opt_taken(value: Option<String>, limit: int) -> Option<Seq<char>> {
    match value {
        Some(v) => Some(take_chars(v@, limit)),
        None => None,
    }
}

/// An optional text, as the contracts see it.
pub open spec fn opt_view(value: Option<String>) -> Option<Seq<char>> {
    match value {
        Some(v) => Some(v@),
        None => None,
    }
}

/// `b` is `a` with every field cut to the message limit.
pub open spec fn message_bounded(a: ModeratorMessage, b: ModeratorMessage) -> bool {
    &&& b.role@ == take_chars(a.role@, MAX_MESSAGE_CHARS as int)
    &&& b.content@ == take_chars(a.content@, MAX_MESSAGE_CHARS as int)
    &&& opt_view(b.agent_id) == opt_taken(a.agent_id, MAX_MESSAGE_CHARS as int)
    &&& opt_view(b.display_name) == opt_taken(a.display_name, MAX_MESSAGE_CHARS as int)
    &&& opt_view(b.outcome) == opt_taken(a.outcome, MAX_MESSAGE_CHARS as int)
}

/// `b` is `a` with every field cut to the message limit.
pub open spec fn candidate_bounded(a: ModeratorCandidate, b: ModeratorCandidate) -> bool {
    &&& b.agent_id@ == take_chars(a.agent_id@, MAX_MESSAGE_CHARS as int)
    &&& b.display_name@ == take_chars(a.display_name@, MAX_MESSAGE_CHARS as int)
    &&& b.reason@ == take_chars(a.reason@, MAX_MESSAGE_CHARS as int)
}

/// The index of the first recent message the moderator sees.
pub open spec fn first_recent(len: int) -> int {
    if len > MAX_RECENT_MESSAGES { len - MAX_RECENT_MESSAGES } else { 0 }
}

/// Bound a request before it is sent: the objective, every message and
/// candidate field, and the progress summary are cut to their character
/// limits, and only the last four messages are kept.
pub fn bounded_request(request: ModeratorRequest) -> (r: ModeratorRequest)
    ensures
        r.objective@ == take_chars(request.objective@, MAX_OBJECTIVE_CHARS as int),
        r.recent_messages@.len() == request.recent_messages@.len() - first_recent(request.recent_messages@.len() as int),
        forall|i: int| 0 <= i < r.recent_messages@.len() ==> message_bounded(
            #[trigger] request.recent_messages@[first_recent(request.recent_messages@.len() as int) + i],
            r.recent_messages@[i],
        ),
        r.candidates@.len() == request.candidates@.len(),
        forall|i: int| 0 <= i < r.candidates@.len() ==> candidate_bounded(
            #[trigger] request.candidates@[i],
            r.candidates@[i],
        ),
        r.remaining_steps == request.remaining_steps,
        r.automatic == request.automatic,
        opt_view(r.progress_summary) == opt_taken(request.progress_summary, MAX_PROGRESS_SUMMARY_CHARS as int),
        r.turn_state == request.turn_state,
{
    let n = request.recent_messages.len();
    let start = if n > MAX_RECENT_MESSAGES { n - MAX_RECENT_MESSAGES } else { 0 };
    let mut messages: Vec<ModeratorMessage> = Vec::new();
    let mut i: usize = start;
    while i < n
        invariant
            n == request.recent_messages@.len(),
            start == first_recent(n as int),
            start <= i <= n,
            messages@.len() == i - start,
            forall|k: int| 0 <= k < messages@.len() ==> message_bounded(
                #[trigger] request.recent_messages@[start + k],
                messages@[k],
            ),
        decreases n - i,
    {
        let m = &request.recent_messages[i];
        let bounded = ModeratorMessage {
            role: truncate(m.role.as_str(), MAX_MESSAGE_CHARS),
            content: truncate(m.content.as_str(), MAX_MESSAGE_CHARS),
            agent_id: truncate_opt(&m.agent_id, MAX_MESSAGE_CHARS),
            display_name: truncate_opt(&m.display_name, MAX_MESSAGE_CHARS),
            outcome: truncate_opt(&m.outcome, MAX_MESSAGE_CHARS),
        };
        messages.push(bounded);
        i = i + 1;
    }
    let mut candidates: Vec<ModeratorCandidate> = Vec::new();
    let mut j: usize = 0;
    while j < request.candidates.len()
        invariant
            j <= request.candidates@.len(),
            candidates@.len() == j,
            forall|k: int| 0 <= k < candidates@.len() ==> candidate_bounded(
                #[trigger] request.candidates@[k],
                candidates@[k],
            ),
        decreases request.candidates@.len() - j,
    {
        let c = &request.candidates[j];
        let bounded = ModeratorCandidate {
            agent_id: truncate(c.agent_id.as_str(), MAX_MESSAGE_CHARS),
            display_name: truncate(c.display_name.as_str(), MAX_MESSAGE_CHARS),
            reason: truncate(c.reason.as_str(), MAX_MESSAGE_CHARS),
        };
        candidates.push(bounded);
        j = j + 1;
    }
    let objective = truncate(request.objective.as_str(), MAX_OBJECTIVE_CHARS);
    let progress_summary = truncate_opt(&request.progress_summary, MAX_PROGRESS_SUMMARY_CHARS);
    ModeratorRequest {
        objective: objective,
        recent_messages: messages,
        candidates: candidates,
        remaining_steps: request.remaining_steps,
        automatic: request.automatic,
        progress_summary: progress_summary,
        turn_state: request.turn_state,
    }
}

/// Whether some candidate has the id `agent_id`.
pub open spec fn is_candidate(agent_id: Seq<char>, candidates: Seq<ModeratorCandidate>) -> bool {
    exists|i: int| 0 <= i < candidates.len() && #[trigger] candidates[i].agent_id@ == agent_id
}

/// Accept `agent_id` only when it names a candidate.
pub fn validate_candidate(agent_id: &str, candidates: &[ModeratorCandidate]) -> (r: Result<(), ModeratorFailure>)
    ensures
        r matches Ok(_) <==> is_candidate(agent_id@, candidates@),
        r matches Err(f) ==> f == ModeratorFailure::InvalidResponse,
{
    let mut i: usize = 0;
    while i < candidates.len()
        invariant
            i <= candidates@.len(),
            forall|k: int| 0 <= k < i ==> candidates@[k].agent_id@ != agent_id@,
        decreases candidates@.len() - i,
    {
        if same_text(candidates[i].agent_id.as_str(), agent_id) {
            return Ok(());
        }
        i = i + 1;
    }
    Err(ModeratorFailure::InvalidResponse)
}

/// Accept a summary only when it is not blank; it comes back trimmed and cut
/// to the summary limit.
pub fn validate_summary(summary: String) -> (r: Result<String, ModeratorFailure>)
    ensures
        trim_spec(summary@).len() == 0 <==> r is Err,
        r matches Err(f) ==> f == ModeratorFailure::InvalidResponse,
        r matches Ok(s) ==> s@ == take_chars(trim_spec(summary@), MAX_PROGRESS_SUMMARY_CHARS as int),
{
    let v = chars_of(summary.as_str());
    let trimmed = trim_chars(v.as_slice());
    if trimmed.len() == 0 {
        Err(ModeratorFailure::InvalidResponse)
    } else {
        let t = take_chars_exec(trimmed.as_slice(), MAX_PROGRESS_SUMMARY_CHARS);
        Ok(string_from_chars(t.as_slice()))
    }
}

/// An attempt that produced no decision.
pub fn failed(failure: ModeratorFailure, provider_called: bool, total_tokens: u64) -> (r: ModeratorAttempt)
    ensures
        r.result == Err::<ModeratorDecision, ModeratorFailure>(failure),
        r.provider_called == provider_called,
        r.total_tokens == total_tokens,
{
    ModeratorAttempt { result: Err(failure), provider_called: provider_called, total_tokens: total_tokens }
}

/// A moderator reply read into its fields: a bare selection, or an automatic
/// moderator's dispatch or finish.
#[derive(Debug, Clone, PartialEq, Eq)]
pub enum ModeratorResponse {
    Selection { agent_id: String },
    Dispatch { agent_id: String, remaining_work: String, summary: String },
    Finish { summary: String },
}

/// The decision a reply yields, as the contracts see it: `None` for a reply
/// that did not read as the form the mode asks for, or that names no
/// candidate, or that carries a blank summary or remaining work.
pub open spec fn decision_spec(
    parsed: Option<ModeratorResponse>,
    candidates: Seq<ModeratorCandidate>,
    automatic: bool,
) -> Option<(Seq<char>, Option<Seq<char>>, Option<Seq<char>>, bool)> {
    match parsed {
        None => None,
        Some(ModeratorResponse::Selection { agent_id }) => if !automatic && is_candidate(agent_id@, candidates) {
            Some((agent_id@, None, None, false))
        } else {
            None
        },
        Some(ModeratorResponse::Dispatch { agent_id, remaining_work, summary }) => if automatic && is_candidate(
            agent_id@,
            candidates,
        ) && trim_spec(summary@).len() > 0 && trim_spec(remaining_work@).len() > 0 {
            Some(
                (
                    agent_id@,
                    Some(take_chars(trim_spec(summary@), MAX_PROGRESS_SUMMARY_CHARS as int)),
                    Some(take_chars(trim_spec(remaining_work@), MAX_PROGRESS_SUMMARY_CHARS as int)),
                    false,
                ),
            )
        } else {
            None
        },
        Some(ModeratorResponse::Finish { summary }) => if automatic && trim_spec(summary@).len() > 0 {
            Some((Seq::empty(), Some(take_chars(trim_spec(summary@), MAX_PROGRESS_SUMMARY_CHARS as int)), None, true))
        } else {
            None
        },
    }
}

/// A reply only ever dispatches to a candidate, and to the one it names: a
/// decision that is not a finish chooses the agent the reply names, which is
/// one of `candidates`, through a bare selection in selection mode or a
/// dispatch in automatic mode; a finish comes only from an automatic
/// moderator's finish. A dispatch decision reads as a choice of its
/// selection, never as a finish.
pub proof fn lemma_decision_names_a_candidate(
    parsed: Option<ModeratorResponse>,
    candidates: Seq<ModeratorCandidate>,
    automatic: bool,
)
    ensures
        decision_spec(parsed, candidates, automatic) matches Some(d) ==> {
            &&& !d.3 ==> exists|k: int| 0 <= k < candidates.len() && candidates[k].agent_id@ == d.0
            &&& !d.3 ==> (!automatic && (parsed matches Some(ModeratorResponse::Selection { agent_id })
                && agent_id@ == d.0)) || (automatic && (parsed matches Some(ModeratorResponse::Dispatch { agent_id, .. })
                && agent_id@ == d.0))
            &&& d.3 ==> automatic && parsed matches Some(ModeratorResponse::Finish { .. })
        },
        forall|m: ModeratorDecision| #[trigger] decision_view(m).3 <==> m is Finish,
        forall|m: ModeratorDecision| m matches ModeratorDecision::Dispatch { selection, .. } ==> #[trigger] decision_view(m).0
            == selection.agent_id@,
{
}

/// A decision, as the contracts see it: the chosen agent, the summary, the
/// remaining work, and whether it finishes the turn.
pub open spec fn decision_view(d: ModeratorDecision) -> (Seq<char>, Option<Seq<char>>, Option<Seq<char>>, bool) {
    match d {
        ModeratorDecision::Dispatch { selection, summary, remaining_work } => (
            selection.agent_id@,
            opt_view(summary),
            opt_view(remaining_work),
            false,
        ),
        ModeratorDecision::Finish { summary } => (Seq::empty(), Some(summary@), None, true),
    }
}

/// Turn a moderator reply into a decision. `parsed` is the reply read as the
/// form the mode asks for (`None` when it did not read as that form); the
/// chosen agent must be a candidate, and an automatic moderator's summary and
/// remaining work must not be blank. Every refusal is an invalid response.
pub fn decide(parsed: Option<ModeratorResponse>, candidates: &[ModeratorCandidate], automatic: bool) -> (r: Result<
    ModeratorDecision,
    ModeratorFailure,
>)
    ensures
        match decision_spec(parsed, candidates@, automatic) {
            Some(d) => r matches Ok(decision) && decision_view(decision) == d,
            None => r == Err::<ModeratorDecision, ModeratorFailure>(ModeratorFailure::InvalidResponse),
        },
{
    match parsed {
        None => Err(ModeratorFailure::InvalidResponse),
        Some(ModeratorResponse::Selection { agent_id }) => {
            if automatic {
                return Err(ModeratorFailure::InvalidResponse);
            }
            match validate_candidate(agent_id.as_str(), candidates) {
                Ok(_) => Ok(
                    ModeratorDecision::Dispatch {
                        selection: ModeratorSelection { agent_id: agent_id },
                        summary: None,
                        remaining_work: None,
                    },
                ),
                Err(f) => Err(f),
            }
        },
        Some(ModeratorResponse::Dispatch { agent_id, remaining_work, summary }) => {
            if !automatic {
                return Err(ModeratorFailure::InvalidResponse);
            }
            match validate_candidate(agent_id.as_str(), candidates) {
                Ok(_) => {},
                Err(f) => return Err(f),
            }
            let summary = match validate_summary(summary) {
                Ok(s) => s,
                Err(f) => return Err(f),
            };
            let remaining_work = match validate_summary(remaining_work) {
                Ok(s) => s,
                Err(f) => return Err(f),
            };
            Ok(
                ModeratorDecision::Dispatch {
                    selection: ModeratorSelection { agent_id: agent_id },
                    summary: Some(summary),
                    remaining_work: Some(remaining_work),
                },
            )
        },
        Some(ModeratorResponse::Finish { summary }) => {
            if !automatic {
                return Err(ModeratorFailure::InvalidResponse);
            }
            match validate_summary(summary) {
                Ok(s) => Ok(ModeratorDecision::Finish { summary: s }),
                Err(f) => Err(f),
            }
        },
    }
}

impl Clone for ModeratorConfig {
    fn clone(&self) -> (r: Self) {
        ModeratorConfig {
            owner_id: self.owner_id.clone(),
            provider_id: self.provider_id.clone(),
            model: self.model.clone(),
            timeout: self.timeout,
        }
    }
}

impl Clone for ModeratorAttempt {
    fn clone(&self) -> (r: Self) {
        ModeratorAttempt {
            result: match &self.result {
                Ok(decision) => Ok(decision.clone()),
                Err(failure) => Err(*failure),
            },
            provider_called: self.provider_called,
            total_tokens: self.total_tokens,
        }
    }
}

} // verus!
