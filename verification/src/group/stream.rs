use vstd::prelude::*;

use crate::compaction::message::ToolCall;
use crate::group::run::{AgentExecution, AgentExecutionOutcome, AgentRunResult};
use crate::group::text::ToolStatus;
use crate::group::turn_data::{pushed_segment, TurnData, TurnView};

verus! {

/// Segments joined end to end.
pub open spec fn joined_text(segments: Seq<Seq<char>>) -> Seq<char>
    decreases segments.len(),
{
    if segments.len() == 0 {
        Seq::empty()
    } else {
        joined_text(segments.drop_last()) + segments.last()
    }
}

/// Splitting a stream into segments neither loses nor reorders text: the
/// segments after a delta, joined, are the segments before it joined and
/// then the delta.
pub proof fn lemma_segments_keep_the_text(segments: Seq<Seq<char>>, text: Seq<char>, new_segment: bool)
    ensures
        joined_text(pushed_segment(segments, text, new_segment)) == joined_text(segments) + text,
{
    if new_segment || segments.len() == 0 {
        assert(pushed_segment(segments, text, new_segment).drop_last() =~= segments);
    } else {
        let after = pushed_segment(segments, text, new_segment);
        assert(after.drop_last() =~= segments.drop_last());
        assert(joined_text(segments) == joined_text(segments.drop_last()) + segments.last());
        assert(joined_text(after) =~= joined_text(segments) + text);
    }
}

/// What one provider round has produced so far: the turn's visible text,
/// this round's text, thinking and thinking signature, the calls it asked
/// for, and whether the last delta was thinking or visible text (a delta of
/// the other kind in between starts a new segment).
pub struct RoundStream {
    pub content: String,
    pub round_content: String,
    pub round_reasoning: String,
    pub round_signature: Option<String>,
    pub tool_calls: Vec<ToolCall>,
    pub last_was_reasoning: bool,
    pub last_was_response: bool,
}

/// Everything of a turn record but its two segment lists.
pub open spec fn same_but_segments(a: TurnView, b: TurnView) -> bool {
    a.tool_calls == b.tool_calls && a.todos == b.todos && a.context_usage == b.context_usage
}

impl RoundStream {
    /// A round of a turn whose visible text so far is `content`.
    pub fn new(content: String) -> (r: RoundStream)
        ensures
            r.content == content,
            r.round_content@.len() == 0,
            r.round_reasoning@.len() == 0,
            r.round_signature is None,
            r.tool_calls@.len() == 0,
            !r.last_was_reasoning,
            !r.last_was_response,
    {
        RoundStream {
            content,
            round_content: String::new(),
            round_reasoning: String::new(),
            round_signature: None,
            tool_calls: Vec::new(),
            last_was_reasoning: false,
            last_was_response: false,
        }
    }

    /// Visible text arrived (and was shown): it joins the current response
    /// segment unless something else came in between.
    pub fn on_token(&mut self, turn: &mut TurnData, text: &str)
        ensures
            final(turn)@.response_segments == pushed_segment(old(turn)@.response_segments, text@, !old(self).last_was_response),
            final(turn)@.reasoning == old(turn)@.reasoning,
            same_but_segments(final(turn)@, old(turn)@),
            final(self).content@ == old(self).content@ + text@,
            final(self).round_content@ == old(self).round_content@ + text@,
            final(self).round_reasoning == old(self).round_reasoning,
            final(self).round_signature == old(self).round_signature,
            final(self).tool_calls == old(self).tool_calls,
            !final(self).last_was_reasoning,
            final(self).last_was_response,
    {
        self.last_was_reasoning = false;
        turn.push_response(text, !self.last_was_response);
        self.last_was_response = true;
        self.content.append(text);
        self.round_content.append(text);
    }

    /// Thinking arrived: it joins the current reasoning segment unless
    /// something else came in between.
    pub fn on_reasoning(&mut self, turn: &mut TurnData, text: &str)
        ensures
            final(turn)@.reasoning == pushed_segment(old(turn)@.reasoning, text@, !old(self).last_was_reasoning),
            final(turn)@.response_segments == old(turn)@.response_segments,
            same_but_segments(final(turn)@, old(turn)@),
            final(self).round_reasoning@ == old(self).round_reasoning@ + text@,
            final(self).content == old(self).content,
            final(self).round_content == old(self).round_content,
            final(self).round_signature == old(self).round_signature,
            final(self).tool_calls == old(self).tool_calls,
            final(self).last_was_reasoning,
            !final(self).last_was_response,
    {
        self.last_was_response = false;
        turn.push_reasoning(text, !self.last_was_reasoning);
        self.last_was_reasoning = true;
        self.round_reasoning.append(text);
    }

    /// The provider signed this round's thinking; the signature travels back
    /// with the round's calls.
    pub fn on_reasoning_signature(&mut self, signature: String)
        ensures
            final(self).round_signature == Some(signature),
            final(self).content == old(self).content,
            final(self).round_content == old(self).round_content,
            final(self).round_reasoning == old(self).round_reasoning,
            final(self).tool_calls == old(self).tool_calls,
            final(self).last_was_reasoning == old(self).last_was_reasoning,
            final(self).last_was_response == old(self).last_was_response,
    {
        self.round_signature = Some(signature);
    }

    /// The round asked for a tool call; both segment lists are interrupted.
    pub fn on_tool_call(&mut self, call: ToolCall)
        ensures
            final(self).tool_calls@ == old(self).tool_calls@.push(call),
            final(self).content == old(self).content,
            final(self).round_content == old(self).round_content,
            final(self).round_reasoning == old(self).round_reasoning,
            final(self).round_signature == old(self).round_signature,
            !final(self).last_was_reasoning,
            !final(self).last_was_response,
    {
        self.last_was_reasoning = false;
        self.last_was_response = false;
        self.tool_calls.push(call);
    }

    /// The round reported usage (JSON text); it interrupts the reasoning
    /// segment and becomes the turn's context usage.
    pub fn on_usage(&mut self, turn: &mut TurnData, usage: String)
        ensures
            final(turn)@.context_usage == Some(usage@),
            final(turn)@.response_segments == old(turn)@.response_segments,
            final(turn)@.reasoning == old(turn)@.reasoning,
            final(turn)@.tool_calls == old(turn)@.tool_calls,
            final(turn)@.todos == old(turn)@.todos,
            final(self).content == old(self).content,
            final(self).round_content == old(self).round_content,
            final(self).round_reasoning == old(self).round_reasoning,
            final(self).round_signature == old(self).round_signature,
            final(self).tool_calls == old(self).tool_calls,
            !final(self).last_was_reasoning,
            final(self).last_was_response == old(self).last_was_response,
    {
        self.last_was_reasoning = false;
        turn.set_context_usage(usage);
    }
}

/// What a turn does after one tool result of a batch: go on to the next
/// result, pause for the user's approval of the call, or stop and wait for
/// the user's input.
#[derive(Debug, Clone, Copy, PartialEq, Eq, Structural)]
pub enum AfterToolResult {
    Next,
    PauseForApproval,
    WaitForInput,
}

/// A call that asks for approval, with a question to show, pauses the turn
/// and gets no tool result; a call waiting for the user's input gets its
/// result and then the turn waits; anything else gets its result and the
/// turn goes on.
pub fn after_tool_result(status: ToolStatus, has_approval_request: bool) -> (r: AfterToolResult)
    ensures
        r == if status == ToolStatus::ApprovalRequired && has_approval_request {
            AfterToolResult::PauseForApproval
        } else if status == ToolStatus::WaitingForUser {
            AfterToolResult::WaitForInput
        } else {
            AfterToolResult::Next
        },
{
    match status {
        ToolStatus::ApprovalRequired => if has_approval_request {
            AfterToolResult::PauseForApproval
        } else {
            AfterToolResult::Next
        },
        ToolStatus::WaitingForUser => AfterToolResult::WaitForInput,
        _ => AfterToolResult::Next,
    }
}

/// The name a status goes by in the tool result the model reads.
pub open spec fn status_debug_name(s: ToolStatus) -> Seq<char> {
    match s {
        ToolStatus::Completed => "Completed"@,
        ToolStatus::SetupRequired => "SetupRequired"@,
        ToolStatus::WorkspaceRequired => "WorkspaceRequired"@,
        ToolStatus::WaitingForUser => "WaitingForUser"@,
        ToolStatus::InputRequested => "InputRequested"@,
        ToolStatus::ApprovalRequired => "ApprovalRequired"@,
        ToolStatus::Failed => "Failed"@,
    }
}

/// The tool result the model reads: the call's status, then its output.
pub fn tool_result_text(status: ToolStatus, output: &str) -> (r: String)
    ensures
        r@ == "status: "@ + status_debug_name(status) + "\n"@ + output@,
{
    let name = match status {
        ToolStatus::Completed => "Completed",
        ToolStatus::SetupRequired => "SetupRequired",
        ToolStatus::WorkspaceRequired => "WorkspaceRequired",
        ToolStatus::WaitingForUser => "WaitingForUser",
        ToolStatus::InputRequested => "InputRequested",
        ToolStatus::ApprovalRequired => "ApprovalRequired",
        ToolStatus::Failed => "Failed",
    };
    let mut out = "status: ".to_owned();
    out.append(name);
    out.append("\n");
    out.append(output);
    out
}

/// How a private execution ends when a tool asked for the user's input: it
/// cannot be answered privately.
pub fn private_input_request(turn_data: TurnData) -> (r: AgentRunResult)
    ensures
        r matches AgentRunResult::Private(e) && e.final_content@ == "Helper requested additional input."@
            && e.turn_data == turn_data && e.outcome == AgentExecutionOutcome::WaitingForUser,
{
    AgentRunResult::Private(
        AgentExecution {
            final_content: "Helper requested additional input.".to_owned(),
            turn_data,
            outcome: AgentExecutionOutcome::WaitingForUser,
        },
    )
}

} // verus!
