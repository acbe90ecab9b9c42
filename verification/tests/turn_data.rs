use backend::compaction::message::ToolCall;
use backend::group::text::ToolStatus;
use backend::group::turn_data::TurnData;

fn json(text: &str) -> serde_json::Value {
    serde_json::from_str(text).expect("valid JSON")
}

#[test]
fn turn_data_persists_full_tool_context() {
    let mut turn = TurnData::default();
    turn.record_tool_start(
        Some("call-1".to_string()),
        Some("Read".to_string()),
        Some("started".to_string()),
        Some("{\"file_path\":\"note.txt\"}".to_string()),
    );
    turn.record_tool_args("call-1", r#"{"file_path":"note.txt"}"#.to_string());
    turn.record_tool_result(
        Some("call-1".to_string()),
        Some("Read".to_string()),
        Some("completed".to_string()),
        Some("summary".to_string()),
    );
    turn.record_tool_output("call-1", "complete file contents".to_string());

    let payload = json(&turn.to_content_json().unwrap());
    assert_eq!(payload["tool_calls"][0]["args"], json(r#"{"file_path": "note.txt"}"#));
    assert_eq!(payload["tool_calls"][0]["result"], "complete file contents");
}

#[test]
fn turn_data_persists_response_bubble_boundaries() {
    let mut turn = TurnData::default();
    turn.push_response("First ", true);
    turn.push_response("bubble", false);
    turn.push_response("Second bubble", true);

    let payload = json(&turn.to_content_json().unwrap());
    assert_eq!(payload["response_segments"], json(r#"["First bubble", "Second bubble"]"#));
}

#[test]
fn an_empty_turn_keeps_no_structured_content() {
    let mut turn = TurnData::default();
    assert!(turn.is_empty());
    assert_eq!(turn.to_content_json(), None);
    turn.push_response("", true);
    turn.push_reasoning("", true);
    assert!(turn.is_empty());
    assert_eq!(turn.to_content_json(), None);
    turn.set_context_usage(r#"{"total_tokens":3}"#.to_string());
    assert!(!turn.is_empty());
}

#[test]
fn the_content_json_carries_every_part_and_skips_empty_segments() {
    let mut turn = TurnData::new();
    turn.push_reasoning("think", true);
    turn.push_reasoning("", true);
    turn.push_response("Hi \"there\"", true);
    turn.record_todos(vec![r#"{"content":"a","status":"pending"}"#.to_string()]);
    turn.set_context_usage(r#"{"total_tokens":7}"#.to_string());
    turn.record_tool_start(Some("c1".to_string()), Some("Bash".to_string()), None, Some("not json".to_string()));

    let text = turn.to_content_json().unwrap();
    let payload = json(&text);
    assert_eq!(payload["schema_version"], 1);
    assert_eq!(payload["reasoning"], json(r#"["think"]"#));
    assert_eq!(payload["response_segments"], json(r#"["Hi \"there\""]"#));
    assert_eq!(payload["todos"], json(r#"[{"content":"a","status":"pending"}]"#));
    assert_eq!(payload["context_usage"], json(r#"{"total_tokens":7}"#));
    let call = &payload["tool_calls"][0];
    assert_eq!(call["tool_call_id"], "c1");
    assert_eq!(call["tool_name"], "Bash");
    assert!(call["status"].is_null());
    assert_eq!(call["args_summary"], "not json");
    assert!(call["args"].is_null());
    assert!(call["approval_request"].is_null());
    assert!(text.starts_with(r#"{"context_usage":{"total_tokens":7},"reasoning":["think"],"#));
}

#[test]
fn a_result_without_a_start_is_recorded_on_its_own() {
    let mut turn = TurnData::new();
    turn.record_tool_start(Some("a".to_string()), Some("Read".to_string()), Some("started".to_string()), None);
    turn.record_tool_result(Some("b".to_string()), None, Some("failed".to_string()), Some("boom".to_string()));
    turn.record_tool_result(None, None, None, None);
    assert_eq!(turn.tool_calls.len(), 3);
    assert_eq!(turn.tool_calls[1].result.as_deref(), Some("boom"));
    assert_eq!(turn.tool_calls[1].result_summary.as_deref(), Some("boom"));
    assert_eq!(turn.tool_calls[0].status.as_deref(), Some("started"));

    turn.record_tool_result(Some("a".to_string()), None, Some("completed".to_string()), None);
    assert_eq!(turn.tool_calls.len(), 3);
    assert_eq!(turn.tool_calls[0].status.as_deref(), Some("completed"));
    assert_eq!(turn.tool_calls[0].tool_name.as_deref(), Some("Read"));
    assert_eq!(turn.tool_calls[0].result, None);
}

#[test]
fn the_latest_reasoning_skips_blank_blocks() {
    let mut turn = TurnData::new();
    assert_eq!(turn.latest_reasoning(), None);
    turn.push_reasoning("first", true);
    turn.push_reasoning("second", true);
    turn.push_reasoning("  \n", true);
    assert_eq!(turn.latest_reasoning(), Some("second"));
    turn.push_reasoning(" more", false);
    assert_eq!(turn.latest_reasoning(), Some("  \n more"));
}

#[test]
fn an_approval_is_pending_only_until_the_call_has_a_result() {
    let mut turn = TurnData::new();
    turn.record_tool_start(
        Some("call-9".to_string()),
        Some("Bash".to_string()),
        Some("approval_required".to_string()),
        Some(r#"{"command": "ls"}"#.to_string()),
    );
    assert!(turn.pending_approval("call-9").is_none());
    turn.record_tool_approval_request("call-9", r#"{"question":"run ls?"}"#.to_string());
    let (call, request) = turn.pending_approval("call-9").unwrap();
    assert_eq!(call.id, "call-9");
    assert_eq!(call.name, "Bash");
    assert_eq!(json(&call.args), json(r#"{"command":"ls"}"#));
    assert_eq!(request, r#"{"question":"run ls?"}"#);
    assert!(turn.pending_approval("other").is_none());

    turn.record_tool_output("call-9", "listing".to_string());
    assert!(turn.pending_approval("call-9").is_none());
}

fn call(id: &str, name: &str, args: &str) -> ToolCall {
    ToolCall { id: id.to_string(), name: name.to_string(), args: args.to_string() }
}

#[test]
fn a_batch_is_recorded_as_started_with_its_full_arguments() {
    let mut turn = TurnData::new();
    let long = format!(r#"{{"content":"{}"}}"#, "x".repeat(300));
    turn.record_batch_start(&[call("a", "Read", r#"{"path":"a.txt"}"#), call("b", "Write", &long)]);
    assert_eq!(turn.tool_calls.len(), 2);
    assert_eq!(turn.tool_calls[0].status.as_deref(), Some("started"));
    assert_eq!(turn.tool_calls[0].args_summary.as_deref(), Some(r#"{"path":"a.txt"}"#));
    assert_eq!(turn.tool_calls[0].args.as_deref(), Some(r#"{"path":"a.txt"}"#));
    let summary = turn.tool_calls[1].args_summary.clone().unwrap();
    assert_eq!(summary.chars().count(), 243);
    assert!(summary.ends_with("..."));
    assert_eq!(turn.tool_calls[1].args.as_deref(), Some(long.as_str()));
}

#[test]
fn a_call_paused_for_approval_keeps_no_result_and_stays_resumable() {
    let mut turn = TurnData::new();
    let bash = call("c1", "Bash", r#"{"command":"rm -rf build"}"#);
    let read = call("c2", "Read", r#"{"path":"x"}"#);
    turn.record_batch_start(&[bash.clone(), read.clone()]);
    turn.record_tool_outcome(
        &bash,
        ToolStatus::ApprovalRequired,
        "needs approval",
        Some(r#"{"question":"Run it?"}"#.to_string()),
        None,
    );
    turn.record_tool_outcome(
        &read,
        ToolStatus::Completed,
        "file text",
        None,
        Some(vec![r#"{"content":"step","status":"pending"}"#.to_string()]),
    );
    assert_eq!(turn.tool_calls[0].status.as_deref(), Some("approval_required"));
    assert_eq!(turn.tool_calls[0].result, None);
    assert_eq!(turn.tool_calls[0].result_summary, None);
    assert_eq!(turn.tool_calls[1].result.as_deref(), Some("file text"));
    assert_eq!(turn.tool_calls[1].result_summary.as_deref(), Some("file text"));
    assert_eq!(turn.todos, vec![r#"{"content":"step","status":"pending"}"#.to_string()]);

    let (resumed, question) = turn.pending_approval("c1").unwrap();
    assert_eq!(resumed, bash);
    assert_eq!(question, r#"{"question":"Run it?"}"#);
    assert!(turn.pending_approval("c2").is_none());
}
