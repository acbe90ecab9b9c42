use backend::scheduler::budget::{BudgetLimits, BudgetRejection, TurnBudget};
use backend::scheduler::model::{ActionKind, SchedulerDecision, SelectionReason, TurnReason};
use backend::scheduler::next_decision;
use backend::scheduler::state::{
    is_terminal_turn, validate_dispatch_transition, validate_turn_transition, DispatchStatus, TurnStatus,
};
use backend::scheduler::topology::{allows_agent_edge, validate_topology, TopologyError, TopologySnapshot};

fn ids(values: &[&str]) -> Vec<String> {
    values.iter().map(|value| (*value).to_owned()).collect()
}

#[test]
fn auto_step_limit_is_clamped() {
    assert_eq!(BudgetLimits::with_auto_steps(1, None).max_agent_steps, 8);
    assert_eq!(BudgetLimits::with_auto_steps(4, None).max_agent_steps, 12);
    assert_eq!(BudgetLimits::with_auto_steps(20, None).max_agent_steps, 24);
}

#[test]
fn one_pass_auto_limit_matches_the_candidate_count() {
    assert_eq!(BudgetLimits::resolve_agent_steps(30, None, 1, 0), 30);
    assert_eq!(BudgetLimits::resolve_agent_steps(30, Some(7), 1, 0), 7);
}

#[test]
fn budget_rejects_each_hard_limit() {
    let mut budget = TurnBudget::new(BudgetLimits {
        max_agent_steps: 1,
        max_steps_per_agent: 1,
        max_hops: 0,
        max_moderator_calls: 0,
        max_consecutive_failures: 1,
        max_total_failures: 2,
        max_total_tokens: 10,
    });
    assert_eq!(budget.check_dispatch("a", 1), Err(BudgetRejection::Hops));
    budget.record_dispatch("a");
    assert_eq!(budget.check_dispatch("b", 0), Err(BudgetRejection::AgentSteps));
    budget.record_failure();
    assert_eq!(budget.check_dispatch("b", 0), Err(BudgetRejection::AgentSteps));
    assert_eq!(budget.record_moderator_usage(1), Err(BudgetRejection::ModeratorCalls));
}

#[test]
fn moderator_check_rejects_call_token_and_failure_limits_without_mutating() {
    let call_limited = TurnBudget::new(BudgetLimits {
        max_agent_steps: 8,
        max_steps_per_agent: 3,
        max_hops: 5,
        max_moderator_calls: 0,
        max_consecutive_failures: 3,
        max_total_failures: 6,
        max_total_tokens: 120_000,
    });
    assert_eq!(call_limited.check_moderator(), Err(BudgetRejection::ModeratorCalls));

    let token_limited = TurnBudget::new(BudgetLimits {
        max_agent_steps: 8,
        max_steps_per_agent: 3,
        max_hops: 5,
        max_moderator_calls: 4,
        max_consecutive_failures: 3,
        max_total_failures: 6,
        max_total_tokens: 0,
    });
    assert_eq!(token_limited.check_moderator(), Err(BudgetRejection::Tokens));

    let failure_limited = TurnBudget::new(BudgetLimits {
        max_agent_steps: 8,
        max_steps_per_agent: 3,
        max_hops: 5,
        max_moderator_calls: 4,
        max_consecutive_failures: 0,
        max_total_failures: 6,
        max_total_tokens: 120_000,
    });
    assert_eq!(failure_limited.check_moderator(), Err(BudgetRejection::Failures));
}

#[test]
fn a_completion_resets_the_failure_streak_and_counts_tokens() {
    let mut budget = TurnBudget::new(BudgetLimits::with_auto_steps(2, None));
    budget.record_failure();
    budget.record_failure();
    assert_eq!(budget.consecutive_failures(), 2);
    budget.record_completion(500);
    assert_eq!(budget.consecutive_failures(), 0);
    assert_eq!(budget.total_failures(), 2);
    assert_eq!(budget.total_tokens(), 500);
    assert_eq!(budget.record_moderator_usage(100), Ok(()));
    assert_eq!(budget.moderator_calls(), 1);
    assert_eq!(budget.total_tokens(), 600);
    budget.record_dispatch("a");
    budget.record_dispatch("a");
    assert_eq!(budget.steps_for("a"), 2);
    assert_eq!(budget.steps_for("b"), 0);
    assert!(budget.has_dispatched("a"));
    assert!(!budget.has_dispatched("b"));
    assert_eq!(budget.agent_steps(), 2);
}

#[test]
fn a_per_agent_limit_refuses_only_that_agent() {
    let mut budget = TurnBudget::new(BudgetLimits::with_auto_steps(2, Some(8)));
    for _ in 0..3 {
        budget.record_dispatch("a");
    }
    assert_eq!(budget.check_dispatch("a", 0), Err(BudgetRejection::PerAgentSteps));
    assert_eq!(budget.check_dispatch("b", 0), Ok(()));
}

#[test]
fn scheduler_decision_priority_is_user_then_agent_mention_then_deterministic() {
    let budget = TurnBudget::new(BudgetLimits::with_auto_steps(2, Some(8)));
    let candidates = ids(&["a", "b"]);

    assert!(matches!(
        next_decision(&budget, None, &ids(&["b"]), &ids(&["a"]), &candidates, 0, false),
        SchedulerDecision::Dispatch(ref value)
            if value.target_agent_id == "b" && value.selection_reason == SelectionReason::UserMention
    ));
    assert!(matches!(
        next_decision(&budget, None, &[], &ids(&["b"]), &candidates, 0, false),
        SchedulerDecision::Dispatch(ref value)
            if value.target_agent_id == "b" && value.selection_reason == SelectionReason::AgentTextMention
    ));
    assert!(matches!(
        next_decision(&budget, Some("a"), &[], &[], &candidates, 0, false),
        SchedulerDecision::Dispatch(ref value)
            if value.target_agent_id == "b" && value.selection_reason == SelectionReason::DeterministicOrder
    ));
}

#[test]
fn scheduler_decision_reports_failure_budget_exhaustion() {
    let mut budget = TurnBudget::new(BudgetLimits {
        max_agent_steps: 8,
        max_steps_per_agent: 3,
        max_hops: 5,
        max_moderator_calls: 4,
        max_consecutive_failures: 1,
        max_total_failures: 6,
        max_total_tokens: 120_000,
    });
    budget.record_failure();

    assert!(matches!(
        next_decision(&budget, None, &[], &[], &ids(&["a"]), 0, false),
        SchedulerDecision::Finish {
            status: TurnStatus::FailureBudgetExhausted,
            reason: TurnReason::FailureBudgetExhausted,
        }
    ));
}

#[test]
fn deterministic_order_skips_a_candidate_that_is_out_of_per_agent_budget() {
    let mut budget = TurnBudget::new(BudgetLimits::with_auto_steps(2, Some(8)));
    for _ in 0..budget.limits().max_steps_per_agent {
        budget.record_dispatch("a");
    }

    assert!(matches!(
        next_decision(&budget, None, &[], &[], &ids(&["a", "b"]), 0, false),
        SchedulerDecision::Dispatch(ref dispatch)
            if dispatch.target_agent_id == "b" && dispatch.selection_reason == SelectionReason::DeterministicOrder
    ));
}

#[test]
fn moderator_toggle_does_not_change_whether_a_candidate_is_reachable() {
    let mut budget = TurnBudget::new(BudgetLimits::with_auto_steps(3, Some(8)));
    for _ in 0..budget.limits().max_steps_per_agent {
        budget.record_dispatch("a");
    }
    let candidates = ids(&["a", "b"]);

    for moderator_enabled in [false, true] {
        assert!(matches!(
            next_decision(&budget, None, &[], &[], &candidates, 0, moderator_enabled),
            SchedulerDecision::Dispatch(ref dispatch) if dispatch.target_agent_id == "b"
        ));
    }
}

#[test]
fn everyone_out_of_budget_finishes_the_turn() {
    let mut budget = TurnBudget::new(BudgetLimits::with_auto_steps(2, Some(8)));
    for agent_id in ["a", "b"] {
        for _ in 0..budget.limits().max_steps_per_agent {
            budget.record_dispatch(agent_id);
        }
    }

    assert!(matches!(
        next_decision(&budget, None, &[], &[], &ids(&["a", "b"]), 0, false),
        SchedulerDecision::Finish { .. }
    ));
}

#[test]
fn exhausting_the_candidate_list_is_a_natural_finish() {
    let mut budget = TurnBudget::new(BudgetLimits {
        max_agent_steps: 1,
        max_steps_per_agent: 1,
        max_hops: 0,
        max_moderator_calls: 0,
        max_consecutive_failures: 1,
        max_total_failures: 1,
        max_total_tokens: 120_000,
    });
    budget.record_dispatch("a");

    assert!(matches!(
        next_decision(&budget, Some("a"), &[], &[], &[], 0, false),
        SchedulerDecision::Finish { status: TurnStatus::Silence, reason: TurnReason::Silence }
    ));
}

#[test]
fn empty_candidates_do_not_hide_a_failure_terminal() {
    let mut budget = TurnBudget::new(BudgetLimits {
        max_agent_steps: 1,
        max_steps_per_agent: 1,
        max_hops: 0,
        max_moderator_calls: 0,
        max_consecutive_failures: 1,
        max_total_failures: 1,
        max_total_tokens: 120_000,
    });
    budget.record_failure();

    assert!(matches!(
        next_decision(&budget, None, &[], &[], &[], 0, false),
        SchedulerDecision::Finish {
            status: TurnStatus::FailureBudgetExhausted,
            reason: TurnReason::FailureBudgetExhausted,
        }
    ));
}

#[test]
fn moderator_call_budget_uses_the_stable_first_candidate_as_fallback() {
    let budget = TurnBudget::new(BudgetLimits {
        max_agent_steps: 8,
        max_steps_per_agent: 3,
        max_hops: 5,
        max_moderator_calls: 0,
        max_consecutive_failures: 3,
        max_total_failures: 6,
        max_total_tokens: 120_000,
    });

    assert!(matches!(
        next_decision(&budget, None, &[], &[], &ids(&["a", "b"]), 0, true),
        SchedulerDecision::Dispatch(ref dispatch)
            if dispatch.target_agent_id == "a" && dispatch.selection_reason == SelectionReason::ModeratorFallback
    ));
}

#[test]
fn two_affordable_candidates_go_to_the_moderator() {
    let budget = TurnBudget::new(BudgetLimits::with_auto_steps(2, Some(8)));
    assert!(matches!(
        next_decision(&budget, None, &[], &[], &ids(&["a", "b"]), 0, true),
        SchedulerDecision::RequestModerator
    ));
}

#[test]
fn scheduler_model_database_enums_round_trip_and_reject_unknown_values() {
    for (reason, persisted) in [
        (SelectionReason::UserMention, "user_mention"),
        (SelectionReason::AgentCall, "agent_call"),
        (SelectionReason::AgentHandoff, "agent_handoff"),
        (SelectionReason::AgentTextMention, "agent_text_mention"),
        (SelectionReason::DeterministicOrder, "deterministic_order"),
        (SelectionReason::Moderator, "moderator"),
        (SelectionReason::ModeratorFallback, "moderator_fallback"),
    ] {
        assert_eq!(reason.as_str(), persisted);
        assert_eq!(SelectionReason::try_from(persisted).unwrap(), reason);
    }
    for (reason, persisted) in [
        (TurnReason::WaitingForUser, "waiting_for_user"),
        (TurnReason::BudgetExhausted, "budget_exhausted"),
        (TurnReason::FailureBudgetExhausted, "failure_budget_exhausted"),
        (TurnReason::UserCancelled, "user_cancelled"),
        (TurnReason::Superseded, "superseded"),
        (TurnReason::ServerRestart, "server_restart"),
        (TurnReason::PersistenceFailed, "persistence_failed"),
        (TurnReason::Silence, "silence"),
    ] {
        assert_eq!(reason.as_str(), persisted);
        assert_eq!(TurnReason::try_from(persisted).unwrap(), reason);
    }
    for action in [ActionKind::Speak, ActionKind::Call, ActionKind::Handoff, ActionKind::Wait, ActionKind::Silent] {
        assert_eq!(ActionKind::try_from(action.as_str()).unwrap(), action);
    }
    assert!(SelectionReason::try_from("fallback").is_err());
    assert!(SelectionReason::try_from("structured_action").is_err());
    assert!(SelectionReason::try_from("agent_mention").is_err());
    assert!(SelectionReason::try_from("deterministic").is_err());
    assert!(TurnReason::try_from("no_candidates").is_err());
    assert!(TurnReason::try_from("new_user_message").is_err());
    assert!(ActionKind::try_from("message").is_err());
}

#[test]
fn turn_transitions_allow_running_lifecycle_outcomes() {
    for next in [
        TurnStatus::WaitingForUser,
        TurnStatus::Completed,
        TurnStatus::Silence,
        TurnStatus::BudgetExhausted,
        TurnStatus::FailureBudgetExhausted,
        TurnStatus::Cancelled,
        TurnStatus::Superseded,
        TurnStatus::Failed,
    ] {
        assert!(validate_turn_transition(TurnStatus::Running, next).is_ok());
    }
}

#[test]
fn turn_transitions_reject_terminal_to_running() {
    for terminal in [
        TurnStatus::Completed,
        TurnStatus::Silence,
        TurnStatus::BudgetExhausted,
        TurnStatus::FailureBudgetExhausted,
        TurnStatus::Cancelled,
        TurnStatus::Superseded,
        TurnStatus::Failed,
    ] {
        assert!(validate_turn_transition(terminal, TurnStatus::Running).is_err());
        assert!(is_terminal_turn(terminal));
    }
    assert!(!is_terminal_turn(TurnStatus::Running));
}

#[test]
fn dispatch_transitions_allow_queue_cancellation_and_running_outcomes() {
    assert!(validate_dispatch_transition(DispatchStatus::Queued, DispatchStatus::Cancelled).is_ok());

    for next in [
        DispatchStatus::Completed,
        DispatchStatus::Silent,
        DispatchStatus::WaitingForUser,
        DispatchStatus::Interrupted,
        DispatchStatus::Cancelled,
        DispatchStatus::Failed,
    ] {
        assert!(validate_dispatch_transition(DispatchStatus::Running, next).is_ok());
    }
}

#[test]
fn dispatch_transitions_reject_terminal_to_running() {
    for terminal in [
        DispatchStatus::Completed,
        DispatchStatus::Silent,
        DispatchStatus::WaitingForUser,
        DispatchStatus::Interrupted,
        DispatchStatus::Cancelled,
        DispatchStatus::Failed,
    ] {
        assert!(validate_dispatch_transition(terminal, DispatchStatus::Running).is_err());
    }
}

#[test]
fn status_database_strings_round_trip_and_reject_unknown_values() {
    for status in [
        TurnStatus::Pending,
        TurnStatus::Running,
        TurnStatus::WaitingForUser,
        TurnStatus::Completed,
        TurnStatus::Silence,
        TurnStatus::BudgetExhausted,
        TurnStatus::FailureBudgetExhausted,
        TurnStatus::Cancelled,
        TurnStatus::Superseded,
        TurnStatus::Failed,
    ] {
        assert_eq!(TurnStatus::try_from(status.as_str()).unwrap(), status);
    }
    for status in [
        DispatchStatus::Queued,
        DispatchStatus::Running,
        DispatchStatus::Completed,
        DispatchStatus::Silent,
        DispatchStatus::WaitingForUser,
        DispatchStatus::Interrupted,
        DispatchStatus::Cancelled,
        DispatchStatus::Failed,
    ] {
        assert_eq!(DispatchStatus::try_from(status.as_str()).unwrap(), status);
    }
    assert!(TurnStatus::try_from("RUNNING").is_err());
    assert!(DispatchStatus::try_from("done").is_err());
}

#[test]
fn topologies_allow_only_their_documented_edges() {
    let mesh = TopologySnapshot::Mesh { agents: ids(&["a", "b"]) };
    let star = TopologySnapshot::Star { hub: "a".into(), spokes: ids(&["b", "c"]) };
    let hierarchy = TopologySnapshot::Hierarchical { leaders: ids(&["a"]), workers: ids(&["b", "c"]) };
    let ring = TopologySnapshot::Ring { ordered: ids(&["a", "b", "c"]) };
    for snapshot in [&mesh, &star, &hierarchy, &ring] {
        assert!(validate_topology(snapshot).is_ok());
    }
    assert!(allows_agent_edge(&mesh, "a", "b"));
    assert!(allows_agent_edge(&star, "b", "a"));
    assert!(!allows_agent_edge(&star, "b", "c"));
    assert!(allows_agent_edge(&hierarchy, "a", "b"));
    assert!(!allows_agent_edge(&hierarchy, "b", "c"));
    assert!(allows_agent_edge(&ring, "c", "a"));
    assert!(!allows_agent_edge(&ring, "a", "c"));
}

#[test]
fn malformed_topologies_are_refused_with_their_reason() {
    let duplicated = TopologySnapshot::Mesh { agents: ids(&["a", "a"]) };
    assert_eq!(validate_topology(&duplicated), Err(TopologyError::DuplicateAgent));
    let hubless = TopologySnapshot::Star { hub: String::new(), spokes: ids(&["b"]) };
    assert_eq!(validate_topology(&hubless), Err(TopologyError::MissingRequiredRole));
    let short_ring = TopologySnapshot::Ring { ordered: ids(&["a"]) };
    assert_eq!(validate_topology(&short_ring), Err(TopologyError::InvalidRing));
    let leaderless = TopologySnapshot::Hierarchical { leaders: Vec::new(), workers: ids(&["b"]) };
    assert_eq!(validate_topology(&leaderless), Err(TopologyError::MissingRequiredRole));
    let blank = TopologySnapshot::Mesh { agents: ids(&["a", ""]) };
    assert_eq!(validate_topology(&blank), Err(TopologyError::InvalidAgent));
}

#[test]
fn dispatching_only_what_the_check_allows_stays_within_the_limits() {
    let mut budget = TurnBudget::new(BudgetLimits {
        max_agent_steps: 5,
        max_steps_per_agent: 2,
        max_hops: 3,
        max_moderator_calls: 1,
        max_consecutive_failures: 10,
        max_total_failures: 10,
        max_total_tokens: 1_000,
    });
    let mut dispatched = 0;
    for round in 0..20u32 {
        let agent = ["a", "b", "c"][(round % 3) as usize];
        if budget.check_dispatch(agent, round % 5).is_ok() {
            budget.record_dispatch(agent);
            dispatched += 1;
        }
        assert!(budget.agent_steps() <= 5);
        assert!(budget.steps_for(agent) <= 2);
    }
    assert_eq!(dispatched, 5);
    assert_eq!(budget.record_moderator_usage(1), Ok(()));
    assert_eq!(budget.record_moderator_usage(1), Err(BudgetRejection::ModeratorCalls));
    assert_eq!(budget.moderator_calls(), 1);
}
