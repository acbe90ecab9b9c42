use vstd::prelude::*;

use crate::agent_tool::{AgentAsToolFailure, AgentAsToolMode};
use crate::conversation::{json_string_literal, quote_json};
use crate::group::round::{account_scheduled_tokens, unaccounted};
use crate::group::run::AgentExecutionOutcome;
use crate::scheduler::budget::{rejection_text, sat_add_u64, TurnBudget};
use crate::scheduler::model::{ActionKind, SelectionReason};
use crate::scheduler::state::DispatchStatus;
use crate::scheduler::topology::{allows_agent_edge, edge_allowed, TopologySnapshot};

verus! {

/// The refusal when the group's topology does not let the caller reach the
/// helper.
pub const TOPOLOGY_REFUSAL: &'static str = "group topology does not allow this agent dispatch";

/// What a refusal by the turn's budget says before the limit that refused.
pub const BUDGET_REFUSAL_PREFIX: &'static str = "scheduler dispatch budget rejected the helper: ";

/// The hop one step further from the turn's start, never past the largest.
pub open spec fn next_hop(hop: u32) -> u32 {
    if hop < u32::MAX { (hop + 1) as u32 } else { u32::MAX }
}

/// Whether a caller may hand work to a helper now: the topology must allow
/// the edge; then the caller's spent tokens are counted, and the budget must
/// allow the helper one hop further on. The result is that hop.
pub fn dispatch_gate(
    topology: &TopologySnapshot,
    budget: &mut TurnBudget,
    scheduled_total: u64,
    scheduled_accounted: &mut u64,
    caller_id: &str,
    helper_id: &str,
    hop: u32,
) -> (r: Result<u32, AgentAsToolFailure>)
    ensures
        !edge_allowed(*topology, caller_id@, helper_id@) ==> {
            &&& r matches Err(f) && f.status@ == "unavailable"@ && f.message@ == TOPOLOGY_REFUSAL@
            &&& *final(budget) == *old(budget)
            &&& *final(scheduled_accounted) == *old(scheduled_accounted)
        },
        edge_allowed(*topology, caller_id@, helper_id@) ==> {
            &&& final(budget).spec_total_tokens() == sat_add_u64(
                old(budget).spec_total_tokens(),
                unaccounted(scheduled_total, *old(scheduled_accounted)),
            )
            &&& final(budget).spec_limits() == old(budget).spec_limits()
            &&& final(budget).spec_agent_steps() == old(budget).spec_agent_steps()
            &&& final(budget).spec_consecutive_failures() == old(budget).spec_consecutive_failures()
            &&& final(budget).spec_total_failures() == old(budget).spec_total_failures()
            &&& *final(scheduled_accounted) == scheduled_total
            &&& match final(budget).dispatch_rejection(helper_id@, next_hop(hop)) {
                Some(why) => r matches Err(f) && f.status@ == "unavailable"@ && f.message@ == BUDGET_REFUSAL_PREFIX@
                    + rejection_text(why),
                None => r == Ok::<u32, AgentAsToolFailure>(next_hop(hop)),
            }
        },
{
    if !allows_agent_edge(topology, caller_id, helper_id) {
        return Err(AgentAsToolFailure::unavailable(TOPOLOGY_REFUSAL.to_owned()));
    }
    account_scheduled_tokens(scheduled_total, scheduled_accounted, budget);
    let child_hop = hop.saturating_add(1);
    match budget.check_dispatch(helper_id, child_hop) {
        Ok(()) => Ok(child_hop),
        Err(why) => {
            let mut message = BUDGET_REFUSAL_PREFIX.to_owned();
            message.append(why.message());
            Err(AgentAsToolFailure::unavailable(message))
        },
    }
}

/// Why a helper is dispatched, and what it is asked to do, for a mode that
/// hands work to one helper.
pub fn dispatch_kinds(mode: AgentAsToolMode) -> (r: (SelectionReason, ActionKind))
    requires
        mode != AgentAsToolMode::FanOut,
    ensures
        mode == AgentAsToolMode::Call ==> r == (SelectionReason::AgentCall, ActionKind::Call),
        mode == AgentAsToolMode::Handoff ==> r == (SelectionReason::AgentHandoff, ActionKind::Handoff),
{
    match mode {
        AgentAsToolMode::Handoff => (SelectionReason::AgentHandoff, ActionKind::Handoff),
        _ => (SelectionReason::AgentCall, ActionKind::Call),
    }
}

/// Whether a handoff made inside a private call leaves its caller's own
/// dispatch open: the call it belongs to finishes it, with the helper's
/// result standing for the caller's.
pub fn defers_private_call_parent(mode: AgentAsToolMode, caller_private: bool, parent_action: ActionKind) -> (r: bool)
    ensures
        r == (mode == AgentAsToolMode::Handoff && caller_private && parent_action == ActionKind::Call),
{
    let handoff = match mode {
        AgentAsToolMode::Handoff => true,
        _ => false,
    };
    let called = match parent_action {
        ActionKind::Call => true,
        _ => false,
    };
    handoff && caller_private && called
}

/// The artifact a caller's dispatch closes with when it hands off: the mode,
/// the helper and the helper's dispatch, as JSON with its keys in byte
/// order.
pub open spec fn handoff_artifact_json(target_agent_id: Seq<char>, child_dispatch_id: Seq<char>) -> Seq<char> {
    "{\"child_dispatch_id\":"@ + json_string_literal(child_dispatch_id) + ",\"mode\":\"handoff\",\"target_agent_id\":"@
        + json_string_literal(target_agent_id) + "}"@
}

/// The artifact a caller's dispatch closes with when it hands off.
pub fn handoff_artifact(target_agent_id: &str, child_dispatch_id: &str) -> (r: String)
    ensures
        r@ == handoff_artifact_json(target_agent_id@, child_dispatch_id@),
{
    let mut out = "{\"child_dispatch_id\":".to_owned();
    out.append(quote_json(child_dispatch_id).as_str());
    out.append(",\"mode\":\"handoff\",\"target_agent_id\":");
    out.append(quote_json(target_agent_id).as_str());
    out.append("}");
    out
}

/// The artifact a called helper's dispatch closes with when the turn is
/// cancelled under it.
pub const CANCELLED_CALL_ARTIFACT: &'static str = "{\"final_content\":\"helper execution cancelled\",\"mode\":\"call\",\"outcome\":\"cancelled\"}";

/// How a helper's dispatch closes when the turn is cancelled while it runs:
/// a called helper completes with a note of the cancellation; a helper
/// handed the turn is interrupted. The result is the status, the artifact
/// (JSON text) and the failure code.
pub fn cancelled_helper_finish(mode: AgentAsToolMode) -> (r: (DispatchStatus, Option<&'static str>, Option<&'static str>))
    ensures
        mode == AgentAsToolMode::Call ==> r.0 == DispatchStatus::Completed && r.1 == Some(CANCELLED_CALL_ARTIFACT)
            && r.2 is None,
        mode != AgentAsToolMode::Call ==> (r.0 == DispatchStatus::Interrupted && r.1 is None && (r.2 matches Some(c)
            && c@ == "stream_cancelled"@)),
{
    match mode {
        AgentAsToolMode::Call => (DispatchStatus::Completed, Some(CANCELLED_CALL_ARTIFACT), None),
        _ => (DispatchStatus::Interrupted, None, Some("stream_cancelled")),
    }
}

/// How a called helper's dispatch closes after its private run: failed
/// with a code when it failed, completed otherwise (with a code when it only
/// asked for input).
pub fn called_helper_finish(outcome: AgentExecutionOutcome) -> (r: (DispatchStatus, Option<&'static str>))
    ensures
        outcome == AgentExecutionOutcome::Failed ==> (r.0 == DispatchStatus::Failed && (r.1 matches Some(c) && c@
            == "helper_execution_failed"@)),
        outcome == AgentExecutionOutcome::WaitingForUser ==> (r.0 == DispatchStatus::Completed && (r.1 matches Some(c)
            && c@ == "helper_input_required"@)),
        outcome != AgentExecutionOutcome::Failed && outcome != AgentExecutionOutcome::WaitingForUser ==> r.0
            == DispatchStatus::Completed && r.1 is None,
{
    match outcome {
        AgentExecutionOutcome::Failed => (DispatchStatus::Failed, Some("helper_execution_failed")),
        AgentExecutionOutcome::WaitingForUser => (DispatchStatus::Completed, Some("helper_input_required")),
        _ => (DispatchStatus::Completed, None),
    }
}

/// What the caller's tool result says when a called helper did not answer:
/// it failed, or it asked for input it cannot get in private; `None` when it
/// answered.
pub fn called_helper_refusal(outcome: AgentExecutionOutcome) -> (r: Option<AgentAsToolFailure>)
    ensures
        outcome == AgentExecutionOutcome::Failed ==> (r matches Some(f) && f.status@ == "unavailable"@ && f.message@
            == "helper execution failed"@),
        outcome == AgentExecutionOutcome::WaitingForUser ==> (r matches Some(f) && f.status@ == "unavailable"@
            && f.message@ == "helper requested additional input and could not complete privately"@),
        outcome != AgentExecutionOutcome::Failed && outcome != AgentExecutionOutcome::WaitingForUser ==> r is None,
{
    match outcome {
        AgentExecutionOutcome::Failed => Some(AgentAsToolFailure::unavailable("helper execution failed".to_owned())),
        AgentExecutionOutcome::WaitingForUser => Some(
            AgentAsToolFailure::unavailable(
                "helper requested additional input and could not complete privately".to_owned(),
            ),
        ),
        _ => None,
    }
}

/// The tool result a refused dispatch gives the caller: the refusal's status,
/// then its message.
pub fn failure_result_text(failure: &AgentAsToolFailure) -> (r: String)
    ensures
        r@ == "status: "@ + failure.status@ + "\n"@ + failure.message@,
{
    let mut out = "status: ".to_owned();
    out.append(failure.status);
    out.append("\n");
    out.append(failure.message.as_str());
    out
}

/// What the caller's tool result says after a handoff.
pub fn handoff_summary(helper_display_name: &str) -> (r: String)
    ensures
        r@ == "Handed off to @"@ + helper_display_name@ + "."@,
{
    let mut out = "Handed off to @".to_owned();
    out.append(helper_display_name);
    out.append(".");
    out
}

} // verus!
