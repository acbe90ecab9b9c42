use backend::compaction::message::ToolCall;
use backend::group::run::{AgentExecutionOutcome, AgentRunResult};
use backend::group::stream::{after_tool_result, private_input_request, tool_result_text, AfterToolResult, RoundStream};
use backend::group::text::ToolStatus;
use backend::group::turn_data::TurnData;

#[test]
fn deltas_split_into_segments_at_interruptions() {
    let mut turn = TurnData::new();
    let mut round = RoundStream::new("earlier ".to_string());
    round.on_reasoning(&mut turn, "think ");
    round.on_reasoning(&mut turn, "more");
    round.on_token(&mut turn, "Hello");
    round.on_token(&mut turn, ", world");
    round.on_reasoning(&mut turn, "again");
    round.on_tool_call(ToolCall { id: "c".to_string(), name: "Read".to_string(), args: "{}".to_string() });
    round.on_token(&mut turn, "after");
    round.on_reasoning_signature("sig".to_string());
    round.on_usage(&mut turn, r#"{"total_tokens":5}"#.to_string());

    assert_eq!(turn.reasoning, vec!["think more".to_string(), "again".to_string()]);
    assert_eq!(turn.response_segments, vec!["Hello, world".to_string(), "after".to_string()]);
    assert_eq!(turn.context_usage.as_deref(), Some(r#"{"total_tokens":5}"#));
    assert_eq!(round.content, "earlier Hello, worldafter");
    assert_eq!(round.round_content, "Hello, worldafter");
    assert_eq!(round.round_reasoning, "think moreagain");
    assert_eq!(round.round_signature.as_deref(), Some("sig"));
    assert_eq!(round.tool_calls.len(), 1);
}

#[test]
fn a_batch_stops_for_approval_or_input() {
    assert_eq!(after_tool_result(ToolStatus::ApprovalRequired, true), AfterToolResult::PauseForApproval);
    assert_eq!(after_tool_result(ToolStatus::ApprovalRequired, false), AfterToolResult::Next);
    assert_eq!(after_tool_result(ToolStatus::WaitingForUser, false), AfterToolResult::WaitForInput);
    assert_eq!(after_tool_result(ToolStatus::InputRequested, true), AfterToolResult::Next);
    assert_eq!(after_tool_result(ToolStatus::Completed, false), AfterToolResult::Next);
    assert_eq!(tool_result_text(ToolStatus::Failed, "boom"), "status: Failed\nboom");
    assert_eq!(tool_result_text(ToolStatus::WaitingForUser, ""), "status: WaitingForUser\n");
    match private_input_request(TurnData::new()) {
        AgentRunResult::Private(execution) => {
            assert_eq!(execution.final_content, "Helper requested additional input.");
            assert_eq!(execution.outcome, AgentExecutionOutcome::WaitingForUser);
        },
        _ => panic!("a private execution ends privately"),
    }
}
