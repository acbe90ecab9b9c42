use vstd::prelude::*;

use crate::group::turn_data::TurnData;
use crate::conversation::{json_string_literal, quote_json};
use crate::text::{decimal, push_decimal};
pub use crate::group::text::{outcome_text, AgentExecutionOutcome};
use crate::group::text::{finished_reply, reply_shown};

verus! {

/// What a privately run agent produced: its final text, its turn record and
/// how it ended.
#[derive(Debug)]
pub struct AgentExecution {
    pub final_content: String,
    pub turn_data: TurnData,
    pub outcome: AgentExecutionOutcome,
}

/// How one agent's run ended: nothing visible, a visible reply, a pause for
/// the user, a handoff to a helper whose own result stands in its place, or
/// a private execution handed back to the caller.
#[derive(Debug)]
pub enum AgentRunResult {
    NoVisible,
    Visible { agent_id: String, content: String, dispatch_id: Option<String>, dispatch_hop: u32 },
    WaitingForUser,
    BoundedHandoff { helper_result: Box<AgentRunResult> },
    Private(AgentExecution),
}

/// The result a chain of handoffs ends in.
pub open spec fn innermost_result(result: AgentRunResult) -> AgentRunResult
    decreases result,
{
    match result {
        AgentRunResult::BoundedHandoff { helper_result } => innermost_result(*helper_result),
        _ => result,
    }
}

/// The result that stands once every handoff is followed to the helper that
/// answered, and whether there was a handoff at all (the caller's own turn
/// is then already over).
pub fn flatten_bounded_handoff(result: AgentRunResult) -> (r: (AgentRunResult, bool))
    ensures
        r.0 == innermost_result(result),
        !(r.0 is BoundedHandoff),
        r.1 == result is BoundedHandoff,
    decreases result,
{
    match result {
        AgentRunResult::BoundedHandoff { helper_result } => {
            let (inner, _) = flatten_bounded_handoff(*helper_result);
            (inner, true)
        },
        other => (other, false),
    }
}

/// The artifact a private execution leaves on its dispatch, as JSON with
/// its keys in byte order: the mode, the final text, the outcome, the
/// tokens it spent and how many tool calls it made.
pub open spec fn artifact_json(mode: Seq<char>, e: AgentExecution, total_tokens: u64) -> Seq<char> {
    "{\"final_content\":"@ + json_string_literal(e.final_content@) + ",\"mode\":"@ + json_string_literal(mode)
        + ",\"outcome\":"@ + json_string_literal(outcome_text(e.outcome)) + ",\"tool_call_count\":"@ + decimal(
        e.turn_data.tool_calls@.len(),
    ) + ",\"usage\":{\"total_tokens\":"@ + decimal(total_tokens as nat) + "}}"@
}

/// Describe a private execution for its dispatch record.
pub fn private_execution_artifact(mode: &str, execution: &AgentExecution, total_tokens: u64) -> (r: String)
    ensures
        r@ == artifact_json(mode@, *execution, total_tokens),
{
    let mut out = "{\"final_content\":".to_owned();
    out.append(quote_json(execution.final_content.as_str()).as_str());
    out.append(",\"mode\":");
    out.append(quote_json(mode).as_str());
    out.append(",\"outcome\":");
    out.append(quote_json(execution.outcome.as_str()).as_str());
    out.append(",\"tool_call_count\":");
    let count = execution.turn_data.tool_calls.len();
    push_decimal(&mut out, count as u64);
    out.append(",\"usage\":{\"total_tokens\":");
    push_decimal(&mut out, total_tokens);
    out.append("}}");
    out
}

/// How a private execution (one run for a caller, or a resumed one) ends,
/// given the agent's final reply: nothing visible, the text it shows, or
/// the text with which it hands the turn back to the user; the turn's
/// record goes with it.
pub fn private_execution_result(content: &str, proactive: bool, turn_data: TurnData) -> (r: AgentRunResult)
    ensures
        r matches AgentRunResult::Private(e) && e.turn_data == turn_data && match reply_shown(content@, proactive) {
            None => e.final_content@.len() == 0 && e.outcome == AgentExecutionOutcome::NoVisible,
            Some((text, waiting)) => e.final_content@ == text && e.outcome == if waiting {
                AgentExecutionOutcome::WaitingForUser
            } else {
                AgentExecutionOutcome::Visible
            },
        },
{
    match finished_reply(content, proactive) {
        None => AgentRunResult::Private(
            AgentExecution { final_content: String::new(), turn_data, outcome: AgentExecutionOutcome::NoVisible },
        ),
        Some((visible, waiting)) => AgentRunResult::Private(
            AgentExecution {
                final_content: visible,
                turn_data,
                outcome: if waiting {
                    AgentExecutionOutcome::WaitingForUser
                } else {
                    AgentExecutionOutcome::Visible
                },
            },
        ),
    }
}

} // verus!
