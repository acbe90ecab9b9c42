use backend::group::round::{
    asks_moderator, current_moderator_candidates, moderator_selection_reason, plan_round, queue_reply_mentions, round_decision,
    round_pool, settle_pending_mentions, terminal_outcome, unserved_user_mentions, PendingMention, TurnOutcome,
};
use backend::group::routing::Candidate;
use backend::scheduler::budget::{BudgetLimits, BudgetRejection, TurnBudget};
use backend::scheduler::model::{SchedulerDecision, SelectionReason, TurnReason};
use backend::scheduler::state::TurnStatus;
use backend::scheduler::topology::TopologySnapshot;

fn ids(values: &[&str]) -> Vec<String> {
    values.iter().map(|value| (*value).to_owned()).collect()
}

fn candidate(id: &str) -> Candidate {
    Candidate {
        agent_id: id.to_string(),
        owner_id: "owner".to_string(),
        display_name: id.to_uppercase(),
        system_prompt: String::new(),
        runtime_kind: "native".to_string(),
        provider_id: None,
        model_config_json: None,
        tool_config_json: None,
        external_runtime_json: None,
        skill_ids_json: None,
        workspace_id: None,
        is_system: false,
        response_mode: "auto".to_string(),
        topology_role: None,
        speaking_order: None,
    }
}

fn mention(target: &str, hop: u32) -> PendingMention {
    PendingMention {
        parent_dispatch_id: "d-1".to_string(),
        source_agent_id: "a".to_string(),
        target_agent_id: target.to_string(),
        hop,
    }
}

#[test]
fn unaffordable_mentions_are_dropped_from_the_head_of_the_queue() {
    let mut budget = TurnBudget::new(BudgetLimits::with_auto_steps(3, Some(8)));
    for _ in 0..3 {
        budget.record_dispatch("b");
    }
    let mut pending = vec![mention("b", 1), mention("c", 9), mention("c", 1), mention("b", 1)];
    let blocked = settle_pending_mentions(&budget, &mut pending, None, 5, false, 0);
    assert_eq!(blocked, Some(BudgetRejection::Hops));
    assert_eq!(pending.len(), 2);
    assert_eq!(pending[0].target_agent_id, "c");
    assert_eq!(pending[0].hop, 1);

    let mut affordable = vec![mention("c", 1)];
    assert_eq!(
        settle_pending_mentions(&budget, &mut affordable, Some(BudgetRejection::Tokens), 5, false, 0),
        Some(BudgetRejection::Tokens)
    );
    assert_eq!(affordable.len(), 1);
}

#[test]
fn a_spent_mention_allowance_clears_the_queue_in_bounded_turns_only() {
    let budget = TurnBudget::new(BudgetLimits::with_auto_steps(3, Some(8)));
    let mut bounded = vec![mention("c", 1)];
    assert_eq!(settle_pending_mentions(&budget, &mut bounded, None, 2, false, 2), None);
    assert!(bounded.is_empty());
    let mut automatic = vec![mention("c", 1)];
    settle_pending_mentions(&budget, &mut automatic, None, 2, true, 2);
    assert_eq!(automatic.len(), 1);
    let mut never = vec![mention("c", 1)];
    settle_pending_mentions(&budget, &mut never, None, 0, true, 0);
    assert!(never.is_empty());
}

#[test]
fn a_round_draws_from_unclaimed_remaining_candidates() {
    let remaining = vec![Some(candidate("a")), None, Some(candidate("b")), Some(candidate("c"))];
    let claims = ids(&["b"]);
    assert_eq!(round_pool(&remaining, &claims, false), ids(&["a", "c"]));
    assert_eq!(round_pool(&remaining, &claims, true), ids(&["a", "b", "c"]));
    assert_eq!(unserved_user_mentions(&ids(&["c", "x", "a"]), &ids(&["a", "c"])), ids(&["c", "a"]));
}

#[test]
fn a_refused_mention_with_nobody_left_ends_the_turn_on_that_refusal() {
    let budget = TurnBudget::new(BudgetLimits::with_auto_steps(2, Some(8)));
    assert!(matches!(
        round_decision(&budget, None, &[], &[], &[], 0, false, Some(BudgetRejection::Failures)),
        SchedulerDecision::Finish { status: TurnStatus::FailureBudgetExhausted, .. }
    ));
    assert!(matches!(
        round_decision(&budget, None, &[], &[], &[], 0, false, Some(BudgetRejection::PerAgentSteps)),
        SchedulerDecision::Finish { status: TurnStatus::BudgetExhausted, reason: TurnReason::BudgetExhausted }
    ));
    assert!(matches!(
        round_decision(&budget, None, &[], &[], &ids(&["a"]), 0, false, Some(BudgetRejection::Hops)),
        SchedulerDecision::Dispatch(ref d) if d.target_agent_id == "a"
    ));
    assert!(matches!(
        round_decision(&budget, None, &[], &[], &[], 0, false, None),
        SchedulerDecision::Finish { status: TurnStatus::Silence, .. }
    ));
}

#[test]
fn the_moderator_only_sees_eligible_candidates() {
    let mut budget = TurnBudget::new(BudgetLimits::with_auto_steps(4, Some(8)));
    for _ in 0..3 {
        budget.record_dispatch("d");
    }
    let remaining = vec![Some(candidate("a")), Some(candidate("b")), Some(candidate("c")), Some(candidate("d")), None];
    let topology = TopologySnapshot::Star { hub: "a".to_string(), spokes: ids(&["b", "c", "d"]) };
    let offered = current_moderator_candidates(
        &remaining,
        &ids(&["c"]),
        Some("b"),
        0,
        None,
        &ids(&["a", "b", "c", "d"]),
        false,
        &budget,
        &topology,
    );
    let names: Vec<&str> = offered.iter().map(|c| c.agent_id.as_str()).collect();
    assert_eq!(names, vec!["a"]);
    assert_eq!(offered[0].display_name, "A");
    assert_eq!(offered[0].reason, "eligible");

    let from_spoke = current_moderator_candidates(
        &remaining,
        &[],
        None,
        0,
        Some("b"),
        &ids(&["a", "b", "c", "d"]),
        true,
        &budget,
        &topology,
    );
    let names: Vec<&str> = from_spoke.iter().map(|c| c.agent_id.as_str()).collect();
    assert_eq!(names, vec!["a"]);
}

#[test]
fn a_moderator_pick_is_labelled_by_how_it_was_made() {
    assert_eq!(moderator_selection_reason(false, Some("a"), "a", 2, false), SelectionReason::ModeratorFallback);
    assert_eq!(moderator_selection_reason(true, Some("a"), "a", 2, false), SelectionReason::Moderator);
    assert_eq!(moderator_selection_reason(true, None, "a", 1, false), SelectionReason::DeterministicOrder);
    assert_eq!(moderator_selection_reason(true, None, "a", 1, true), SelectionReason::ModeratorFallback);
    assert_eq!(moderator_selection_reason(true, Some("b"), "a", 3, false), SelectionReason::ModeratorFallback);
    assert!(asks_moderator(true, 2, false));
    assert!(!asks_moderator(true, 1, false));
    assert!(asks_moderator(true, 1, true));
    assert!(!asks_moderator(false, 5, true));
}

#[test]
fn a_silent_finish_is_recorded_by_what_happened_before_it() {
    assert_eq!(
        terminal_outcome(TurnStatus::Silence, TurnReason::Silence, true, 0),
        (TurnStatus::Completed, None, TurnOutcome::Completed)
    );
    assert_eq!(
        terminal_outcome(TurnStatus::Silence, TurnReason::Silence, false, 2),
        (TurnStatus::Failed, None, TurnOutcome::Error)
    );
    assert_eq!(
        terminal_outcome(TurnStatus::Silence, TurnReason::Silence, false, 0),
        (TurnStatus::Silence, Some(TurnReason::Silence), TurnOutcome::Silence)
    );
    assert_eq!(
        terminal_outcome(TurnStatus::BudgetExhausted, TurnReason::BudgetExhausted, true, 0),
        (TurnStatus::BudgetExhausted, Some(TurnReason::BudgetExhausted), TurnOutcome::Silence)
    );
}

#[test]
fn a_reply_queues_only_the_agents_its_speaker_may_address() {
    let ring = TopologySnapshot::Ring { ordered: ids(&["a", "b", "c"]) };
    let mut pending = vec![mention("z", 0)];
    queue_reply_mentions(&ring, "a", "d-9", 2, &ids(&["c", "b", "a"]), &mut pending);
    assert_eq!(pending.len(), 2);
    assert_eq!(pending[1].target_agent_id, "b");
    assert_eq!(pending[1].source_agent_id, "a");
    assert_eq!(pending[1].parent_dispatch_id, "d-9");
    assert_eq!(pending[1].hop, 3);
    let mut saturated = Vec::new();
    queue_reply_mentions(&ring, "a", "d-9", u32::MAX, &ids(&["b"]), &mut saturated);
    assert_eq!(saturated[0].hop, u32::MAX);
}

#[test]
fn a_planned_round_draws_from_the_pool_the_topology_and_the_queue() {
    let budget = TurnBudget::new(BudgetLimits::with_auto_steps(3, Some(8)));
    let ring = TopologySnapshot::Ring { ordered: ids(&["a", "b", "c"]) };
    let mut pending = vec![mention("c", 1)];
    let remaining = vec![Some(candidate("a")), None, Some(candidate("c"))];
    let plan = plan_round(&budget, &ring, &mut pending, None, &remaining, &[], &ids(&["c", "b"]), None, false, false, 5, 0);
    assert_eq!(plan.pool, ids(&["a", "c"]));
    assert_eq!(plan.candidates, ids(&["a"]));
    assert_eq!(plan.user_mentions, ids(&["c"]));
    assert_eq!(plan.agent_mentions, ids(&["c"]));
    assert_eq!(plan.hop, 1);
    assert_eq!(plan.blocked, None);
    match plan.decision {
        SchedulerDecision::Dispatch(d) => {
            assert_eq!(d.target_agent_id, "c");
            assert_eq!(d.hop, 1);
        },
        other => panic!("expected a dispatch, got {other:?}"),
    }

    let mut refused = vec![mention("b", 99)];
    let plan = plan_round(&budget, &ring, &mut refused, None, &[], &[], &[], Some("a"), true, false, 5, 0);
    assert!(refused.is_empty());
    assert_eq!(plan.blocked, Some(BudgetRejection::Hops));
    assert_eq!(
        plan.decision,
        SchedulerDecision::Finish { status: TurnStatus::BudgetExhausted, reason: TurnReason::BudgetExhausted }
    );
}
