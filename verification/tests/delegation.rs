use backend::agent_tool::{AgentAsToolFailure, AgentAsToolMode};
use backend::group::delegation::{
    called_helper_finish, called_helper_refusal, cancelled_helper_finish, defers_private_call_parent, dispatch_gate,
    dispatch_kinds, failure_result_text, handoff_artifact, handoff_summary, CANCELLED_CALL_ARTIFACT,
};
use backend::group::run::AgentExecutionOutcome;
use backend::scheduler::budget::{BudgetLimits, TurnBudget};
use backend::scheduler::model::{ActionKind, SelectionReason};
use backend::scheduler::state::DispatchStatus;
use backend::scheduler::topology::TopologySnapshot;

fn limits(max_hops: u32, max_total_tokens: u64) -> BudgetLimits {
    BudgetLimits {
        max_agent_steps: 10,
        max_steps_per_agent: 3,
        max_hops,
        max_moderator_calls: 5,
        max_consecutive_failures: 2,
        max_total_failures: 6,
        max_total_tokens,
    }
}

fn star() -> TopologySnapshot {
    TopologySnapshot::Star { hub: "hub".to_string(), spokes: vec!["a".to_string(), "b".to_string()] }
}

#[test]
fn a_dispatch_needs_the_edge_and_the_budget() {
    let mut budget = TurnBudget::new(limits(2, 1000));
    let mut accounted = 0u64;
    let refused = dispatch_gate(&star(), &mut budget, 50, &mut accounted, "a", "b", 0).unwrap_err();
    assert_eq!(refused.status, "unavailable");
    assert_eq!(refused.message, "group topology does not allow this agent dispatch");
    assert_eq!(accounted, 0);
    assert_eq!(budget.total_tokens(), 0);

    assert_eq!(dispatch_gate(&star(), &mut budget, 50, &mut accounted, "hub", "a", 0), Ok(1));
    assert_eq!(accounted, 50);
    assert_eq!(budget.total_tokens(), 50);

    let refused = dispatch_gate(&star(), &mut budget, 60, &mut accounted, "hub", "b", 2).unwrap_err();
    assert_eq!(refused.message, "scheduler dispatch budget rejected the helper: hop budget exhausted");
    assert_eq!(budget.total_tokens(), 60);

    let mut spent = TurnBudget::new(limits(5, 100));
    let mut accounted = 0u64;
    let refused = dispatch_gate(&star(), &mut spent, 100, &mut accounted, "hub", "a", 0).unwrap_err();
    assert_eq!(refused.message, "scheduler dispatch budget rejected the helper: token budget exhausted");
}

#[test]
fn the_modes_of_a_dispatch_decide_how_it_is_recorded_and_closed() {
    assert_eq!(dispatch_kinds(AgentAsToolMode::Call), (SelectionReason::AgentCall, ActionKind::Call));
    assert_eq!(dispatch_kinds(AgentAsToolMode::Handoff), (SelectionReason::AgentHandoff, ActionKind::Handoff));
    assert!(defers_private_call_parent(AgentAsToolMode::Handoff, true, ActionKind::Call));
    assert!(!defers_private_call_parent(AgentAsToolMode::Handoff, false, ActionKind::Call));
    assert!(!defers_private_call_parent(AgentAsToolMode::Call, true, ActionKind::Call));
    assert!(!defers_private_call_parent(AgentAsToolMode::Handoff, true, ActionKind::Handoff));

    assert_eq!(cancelled_helper_finish(AgentAsToolMode::Call), (DispatchStatus::Completed, Some(CANCELLED_CALL_ARTIFACT), None));
    assert_eq!(cancelled_helper_finish(AgentAsToolMode::Handoff), (DispatchStatus::Interrupted, None, Some("stream_cancelled")));
    let artifact: serde_json::Value = serde_json::from_str(CANCELLED_CALL_ARTIFACT).unwrap();
    assert_eq!(artifact["outcome"], "cancelled");

    assert_eq!(called_helper_finish(AgentExecutionOutcome::Failed), (DispatchStatus::Failed, Some("helper_execution_failed")));
    assert_eq!(called_helper_finish(AgentExecutionOutcome::WaitingForUser), (DispatchStatus::Completed, Some("helper_input_required")));
    assert_eq!(called_helper_finish(AgentExecutionOutcome::Visible), (DispatchStatus::Completed, None));
    assert_eq!(called_helper_refusal(AgentExecutionOutcome::Failed).unwrap().message, "helper execution failed");
    assert!(called_helper_refusal(AgentExecutionOutcome::WaitingForUser).unwrap().message.contains("privately"));
    assert!(called_helper_refusal(AgentExecutionOutcome::NoVisible).is_none());
}

#[test]
fn handoff_texts_name_the_helper() {
    assert_eq!(
        handoff_artifact("helper", "d-2"),
        r#"{"child_dispatch_id":"d-2","mode":"handoff","target_agent_id":"helper"}"#
    );
    assert_eq!(handoff_summary("Coder"), "Handed off to @Coder.");
    let failure = AgentAsToolFailure::unavailable("nobody home".to_string());
    assert_eq!(failure_result_text(&failure), "status: unavailable\nnobody home");
}

#[test]
fn identifiers_are_escaped_as_json_string_literals() {
    assert_eq!(
        handoff_artifact("a\"b\\c", "d\te\u{1}\u{7f}é"),
        "{\"child_dispatch_id\":\"d\\te\\u0001\u{7f}é\",\"mode\":\"handoff\",\"target_agent_id\":\"a\\\"b\\\\c\"}"
    );
}
