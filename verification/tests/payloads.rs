use backend::group::config::muted_in_group;
use backend::group::payloads::{budget_limits_payload, turn_budget_payload};
use backend::group::round::{account_scheduled_tokens, complete_scheduled_usage};
use backend::group::routing::{CandidateLoadDisposition, CandidateLoadError};
use backend::group::run::{private_execution_artifact, AgentExecution, AgentExecutionOutcome};
use backend::group::text::{summarize_value, tool_input_request_payload};
use backend::group::turn_data::TurnData;
use backend::scheduler::budget::{BudgetLimits, TurnBudget};

fn json(text: &str) -> serde_json::Value {
    serde_json::from_str(text).expect("valid JSON")
}

fn limits() -> BudgetLimits {
    BudgetLimits {
        max_agent_steps: 8,
        max_steps_per_agent: 3,
        max_hops: 4,
        max_moderator_calls: 5,
        max_consecutive_failures: 2,
        max_total_failures: 6,
        max_total_tokens: 100_000,
    }
}

#[test]
fn candidate_reload_errors_skip_only_expected_ineligible_state() {
    let inactive = CandidateLoadError::Ineligible("inactive");
    let persistence = CandidateLoadError::Persistence("no rows returned by a query that expected to return at least one row".to_string());

    assert_eq!(inactive.disposition(), CandidateLoadDisposition::Skip);
    assert_eq!(persistence.disposition(), CandidateLoadDisposition::FailTurn);
}

#[test]
fn a_value_summary_keeps_two_hundred_forty_characters() {
    assert_eq!(summarize_value(r#"{"a":1}"#), r#"{"a":1}"#);
    let long = "é".repeat(300);
    let summary = summarize_value(&long);
    assert_eq!(summary.chars().count(), 243);
    assert!(summary.ends_with("é..."));
    assert_eq!(summarize_value(&"x".repeat(240)), "x".repeat(240));
}

#[test]
fn a_private_execution_leaves_a_compact_artifact() {
    let mut turn_data = TurnData::new();
    turn_data.record_tool_start(Some("c".to_string()), None, None, None);
    let execution = AgentExecution {
        final_content: "line \"one\"".to_string(),
        turn_data,
        outcome: AgentExecutionOutcome::WaitingForUser,
    };
    let text = private_execution_artifact("call", &execution, 1234);
    assert_eq!(
        text,
        r#"{"final_content":"line \"one\"","mode":"call","outcome":"waiting_for_user","tool_call_count":1,"usage":{"total_tokens":1234}}"#
    );
    assert_eq!(AgentExecutionOutcome::NoVisible.as_str(), "no_visible");
}

#[test]
fn an_agent_is_muted_when_listed_or_when_its_group_is_gone() {
    assert!(muted_in_group(None, "a"));
    assert!(!muted_in_group(Some(None), "a"));
    assert!(muted_in_group(Some(Some(r#"["b","a"]"#)), "a"));
    assert!(!muted_in_group(Some(Some(r#"["b"]"#)), "a"));
    assert!(!muted_in_group(Some(Some("not json")), "a"));
}

#[test]
fn scheduled_tokens_are_counted_once() {
    let mut budget = TurnBudget::new(limits());
    let mut accounted = 0u64;
    account_scheduled_tokens(40, &mut accounted, &mut budget);
    assert_eq!(accounted, 40);
    assert_eq!(budget.total_tokens(), 40);
    account_scheduled_tokens(40, &mut accounted, &mut budget);
    assert_eq!(budget.total_tokens(), 40);
    budget.record_failure();
    assert_eq!(budget.consecutive_failures(), 1);
    complete_scheduled_usage(100, &mut accounted, &mut budget);
    assert_eq!(budget.total_tokens(), 100);
    assert_eq!(budget.consecutive_failures(), 0);
    assert_eq!(accounted, 100);
    complete_scheduled_usage(50, &mut accounted, &mut budget);
    assert_eq!(budget.total_tokens(), 100);
    assert_eq!(accounted, 50);
}

#[test]
fn an_input_request_falls_back_to_a_generic_question() {
    assert_eq!(json(&tool_input_request_payload(r#"{"input_request":{"question":"Which?","choices":["a"]}}"#)), json(r#"{"question":"Which?","choices":["a"]}"#));
    assert_eq!(
        json(&tool_input_request_payload("plain text")),
        json(r#"{"question":"The agent requested input.","required":true}"#)
    );
    assert_eq!(json(&tool_input_request_payload(r#"{"other":1}"#))["required"], true);
}

#[test]
fn budget_payloads_report_every_counter_and_limit() {
    assert_eq!(
        budget_limits_payload(&limits(), false),
        r#"{"max_agent_steps":8,"max_consecutive_failures":2,"max_hops":4,"max_moderator_calls":5,"max_steps_per_agent":3,"max_total_failures":6,"max_total_tokens":100000,"unbounded":false}"#
    );
    let mut budget = TurnBudget::new(limits());
    budget.record_completion(77);
    budget.record_failure();
    let payload = json(&turn_budget_payload(&budget, true));
    assert_eq!(payload["total_tokens"], 77);
    assert_eq!(payload["total_failures"], 1);
    assert_eq!(payload["consecutive_failures"], 1);
    assert_eq!(payload["agent_steps"], 0);
    assert_eq!(payload["moderator_calls"], 0);
    assert_eq!(payload["limits"]["unbounded"], true);
    assert_eq!(payload["limits"]["max_hops"], 4);
}
