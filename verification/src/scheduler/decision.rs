use vstd::prelude::*;

use crate::scheduler::budget::{BudgetRejection, TurnBudget};
use crate::scheduler::model::{ActionKind, SchedulerDecision, SchedulerDispatch, SelectionReason, TurnReason};
use crate::scheduler::state::TurnStatus;
use crate::text::same_text;

verus! {

/// A scheduler decision with the chosen agent read as its characters.
pub enum DecisionModel {
    Dispatch { target: Seq<char>, selection: SelectionReason, kind: ActionKind, hop: u32 },
    RequestModerator,
    Finish { status: TurnStatus, reason: TurnReason },
}

impl View for SchedulerDecision {
    type V = DecisionModel;

    open spec fn view(&self) -> DecisionModel {
        match self {
            SchedulerDecision::Dispatch(d) => DecisionModel::Dispatch {
                target: d.target_agent_id@,
                selection: d.selection_reason,
                kind: d.action_kind,
                hop: d.hop,
            },
            SchedulerDecision::RequestModerator => DecisionModel::RequestModerator,
            SchedulerDecision::Finish { status, reason } => DecisionModel::Finish {
                status: *status,
                reason: *reason,
            },
        }
    }
}

/// Whether `id` is the agent that spoke last.
pub open spec fn is_previous(previous: Option<&str>, id: Seq<char>) -> bool {
    match previous {
        Some(p) => p@ == id,
        None => false,
    }
}

/// `id` may speak now: it did not speak last and the budget affords it.
pub open spec fn eligible(budget: TurnBudget, previous: Option<&str>, id: Seq<char>, hop: u32) -> bool {
    !is_previous(previous, id) && budget.dispatch_rejection(id, hop) is None
}

/// The index of the first eligible candidate at or after `i`.
pub open spec fn first_eligible_from(
    budget: TurnBudget,
    previous: Option<&str>,
    candidates: Seq<String>,
    hop: u32,
    i: int,
) -> Option<int>
    decreases candidates.len() - i,
{
    if i < 0 || i >= candidates.len() {
        None
    } else if eligible(budget, previous, candidates[i]@, hop) {
        Some(i)
    } else {
        first_eligible_from(budget, previous, candidates, hop, i + 1)
    }
}

/// How a turn with no candidates at all ends.
pub open spec fn empty_finish(budget: TurnBudget) -> DecisionModel {
    match budget.dispatch_rejection("terminal"@, 0) {
        Some(BudgetRejection::Failures) => DecisionModel::Finish {
            status: TurnStatus::FailureBudgetExhausted,
            reason: TurnReason::FailureBudgetExhausted,
        },
        Some(BudgetRejection::Tokens) => DecisionModel::Finish {
            status: TurnStatus::BudgetExhausted,
            reason: TurnReason::BudgetExhausted,
        },
        _ => DecisionModel::Finish { status: TurnStatus::Silence, reason: TurnReason::Silence },
    }
}

/// How a turn ends when no candidate is eligible.
pub open spec fn exhausted_finish(budget: TurnBudget) -> DecisionModel {
    match budget.dispatch_rejection("terminal"@, 0) {
        Some(BudgetRejection::Failures) => DecisionModel::Finish {
            status: TurnStatus::FailureBudgetExhausted,
            reason: TurnReason::FailureBudgetExhausted,
        },
        Some(_) => DecisionModel::Finish {
            status: TurnStatus::BudgetExhausted,
            reason: TurnReason::BudgetExhausted,
        },
        None => DecisionModel::Finish { status: TurnStatus::Silence, reason: TurnReason::Silence },
    }
}

/// Who speaks next, or why the turn is over: the first eligible user mention,
/// else the first eligible agent mention, else the speaking order, where the
/// moderator arbitrates when enabled and at least two candidates are eligible.
pub open spec fn next_decision_spec(
    budget: TurnBudget,
    previous: Option<&str>,
    user_mentions: Seq<String>,
    agent_mentions: Seq<String>,
    deterministic: Seq<String>,
    hop: u32,
    moderator_enabled: bool,
) -> DecisionModel {
    if user_mentions.len() == 0 && agent_mentions.len() == 0 && deterministic.len() == 0 {
        empty_finish(budget)
    } else if let Some(i) = first_eligible_from(budget, previous, user_mentions, hop, 0) {
        DecisionModel::Dispatch {
            target: user_mentions[i]@,
            selection: SelectionReason::UserMention,
            kind: ActionKind::Speak,
            hop,
        }
    } else if let Some(i) = first_eligible_from(budget, previous, agent_mentions, hop, 0) {
        DecisionModel::Dispatch {
            target: agent_mentions[i]@,
            selection: SelectionReason::AgentTextMention,
            kind: ActionKind::Speak,
            hop,
        }
    } else if let Some(i) = first_eligible_from(budget, previous, deterministic, hop, 0) {
        if moderator_enabled && first_eligible_from(budget, previous, deterministic, hop, i + 1) is Some {
            match budget.moderator_rejection() {
                None => DecisionModel::RequestModerator,
                Some(BudgetRejection::ModeratorCalls) => DecisionModel::Dispatch {
                    target: deterministic[i]@,
                    selection: SelectionReason::ModeratorFallback,
                    kind: ActionKind::Speak,
                    hop,
                },
                Some(BudgetRejection::Tokens) => DecisionModel::Finish {
                    status: TurnStatus::BudgetExhausted,
                    reason: TurnReason::BudgetExhausted,
                },
                Some(_) => DecisionModel::Finish {
                    status: TurnStatus::FailureBudgetExhausted,
                    reason: TurnReason::FailureBudgetExhausted,
                },
            }
        } else {
            DecisionModel::Dispatch {
                target: deterministic[i]@,
                selection: SelectionReason::DeterministicOrder,
                kind: ActionKind::Speak,
                hop,
            }
        }
    } else {
        exhausted_finish(budget)
    }
}

/// The candidates of `list` that may speak now include `id`.
pub open spec fn listed(list: Seq<String>, id: Seq<char>) -> bool {
    exists|k: int| 0 <= k < list.len() && list[k]@ == id
}

/// Enabling the moderator changes who is chosen, never whether anyone is: the
/// turn finishes with the moderator on exactly when it finishes with it off,
/// and then for the same reason. The moderator is only consulted when it is
/// enabled and at least two candidates are eligible.
pub proof fn lemma_moderator_never_decides_whether_anyone_speaks(
    budget: TurnBudget,
    previous: Option<&str>,
    user_mentions: Seq<String>,
    agent_mentions: Seq<String>,
    deterministic: Seq<String>,
    hop: u32,
)
    ensures
        ({
            let on = next_decision_spec(budget, previous, user_mentions, agent_mentions, deterministic, hop, true);
            let off = next_decision_spec(budget, previous, user_mentions, agent_mentions, deterministic, hop, false);
            &&& (on is Finish <==> off is Finish)
            &&& (off is Finish ==> on == off)
            &&& !(off is RequestModerator)
            &&& (on is RequestModerator ==> exists|i: int, j: int|
                0 <= i < j < deterministic.len() && eligible(budget, previous, deterministic[i]@, hop)
                    && eligible(budget, previous, deterministic[j]@, hop))
        }),
{
    lemma_first_eligible_is_eligible(budget, previous, deterministic, hop, 0);
    if let Some(i) = first_eligible_from(budget, previous, deterministic, hop, 0) {
        lemma_first_eligible_is_eligible(budget, previous, deterministic, hop, i + 1);
        if let Some(j) = first_eligible_from(budget, previous, deterministic, hop, i + 1) {
            assert(eligible(budget, previous, deterministic[i]@, hop));
            assert(eligible(budget, previous, deterministic[j]@, hop));
        }
    }
}

/// Every dispatch names a candidate from one of the three lists, who did not
/// speak last, and whom the budget affords at this hop.
pub proof fn lemma_dispatch_is_eligible(
    budget: TurnBudget,
    previous: Option<&str>,
    user_mentions: Seq<String>,
    agent_mentions: Seq<String>,
    deterministic: Seq<String>,
    hop: u32,
    moderator_enabled: bool,
)
    ensures
        next_decision_spec(budget, previous, user_mentions, agent_mentions, deterministic, hop, moderator_enabled)
            matches DecisionModel::Dispatch { target, hop: h, .. } ==> {
            &&& !is_previous(previous, target)
            &&& budget.dispatch_rejection(target, hop) is None
            &&& h == hop
            &&& (listed(user_mentions, target) || listed(agent_mentions, target) || listed(deterministic, target))
        },
{
    lemma_first_eligible_is_eligible(budget, previous, user_mentions, hop, 0);
    lemma_first_eligible_is_eligible(budget, previous, agent_mentions, hop, 0);
    lemma_first_eligible_is_eligible(budget, previous, deterministic, hop, 0);
}

proof fn lemma_first_eligible_is_first(
    budget: TurnBudget,
    previous: Option<&str>,
    candidates: Seq<String>,
    hop: u32,
    i: int,
)
    requires
        0 <= i,
    ensures
        first_eligible_from(budget, previous, candidates, hop, i) matches Some(j) ==> i <= j < candidates.len()
            && forall|k: int| i <= k < j ==> !eligible(budget, previous, #[trigger] candidates[k]@, hop),
        first_eligible_from(budget, previous, candidates, hop, i) is None ==> forall|k: int|
            i <= k < candidates.len() ==> !eligible(budget, previous, #[trigger] candidates[k]@, hop),
    decreases candidates.len() - i,
{
    if i < candidates.len() {
        lemma_first_eligible_is_first(budget, previous, candidates, hop, i + 1);
    }
}

/// Whether `id` may speak now, spelled out: it is not the agent that spoke
/// last, and the budget does not refuse it at `hop`.
pub open spec fn may_speak(budget: TurnBudget, previous: Option<&str>, id: Seq<char>, hop: u32) -> bool {
    !(previous matches Some(p) && p@ == id) && budget.dispatch_rejection(id, hop) is None
}

/// The candidate at `i` of `list` may speak, and none before it may.
pub open spec fn first_that_may_speak(budget: TurnBudget, previous: Option<&str>, list: Seq<String>, hop: u32, i: int) -> bool {
    &&& 0 <= i < list.len()
    &&& may_speak(budget, previous, list[i]@, hop)
    &&& forall|k: int| 0 <= k < i ==> !may_speak(budget, previous, #[trigger] list[k]@, hop)
}

/// Who is dispatched and why: a user mention is the first user mention that
/// may speak; an agent mention is the first agent mention that may speak,
/// when no user mention may; a pick by speaking order is the first candidate
/// of the order that may speak, when no mention may, and without the
/// moderator's arbitration only when the moderator is off or nobody after it
/// may speak; every dispatch is at the round's hop.
pub proof fn lemma_dispatch_follows_priority(
    budget: TurnBudget,
    previous: Option<&str>,
    user_mentions: Seq<String>,
    agent_mentions: Seq<String>,
    deterministic: Seq<String>,
    hop: u32,
    moderator_enabled: bool,
)
    ensures
        next_decision_spec(budget, previous, user_mentions, agent_mentions, deterministic, hop, moderator_enabled)
            matches DecisionModel::Dispatch { target, selection, hop: h, .. } ==> {
            &&& h == hop
            &&& selection == SelectionReason::UserMention ==> exists|i: int|
                #[trigger] first_that_may_speak(budget, previous, user_mentions, hop, i) && user_mentions[i]@ == target
            &&& selection == SelectionReason::AgentTextMention ==> {
                &&& forall|k: int| 0 <= k < user_mentions.len() ==> !may_speak(budget, previous, #[trigger] user_mentions[k]@, hop)
                &&& exists|i: int| #[trigger] first_that_may_speak(budget, previous, agent_mentions, hop, i)
                    && agent_mentions[i]@ == target
            }
            &&& (selection == SelectionReason::DeterministicOrder || selection == SelectionReason::ModeratorFallback)
                ==> {
                &&& forall|k: int| 0 <= k < user_mentions.len() ==> !may_speak(budget, previous, #[trigger] user_mentions[k]@, hop)
                &&& forall|k: int| 0 <= k < agent_mentions.len() ==> !may_speak(budget, previous, #[trigger] agent_mentions[k]@, hop)
                &&& exists|i: int| #[trigger] first_that_may_speak(budget, previous, deterministic, hop, i)
                    && deterministic[i]@ == target
                    && (selection == SelectionReason::DeterministicOrder ==> (!moderator_enabled || forall|k: int|
                    i < k < deterministic.len() ==> !may_speak(budget, previous, #[trigger] deterministic[k]@, hop)))
            }
            &&& (selection == SelectionReason::UserMention || selection == SelectionReason::AgentTextMention
                || selection == SelectionReason::DeterministicOrder || selection == SelectionReason::ModeratorFallback)
        },
{
    lemma_first_that_may_speak(budget, previous, user_mentions, hop);
    lemma_first_that_may_speak(budget, previous, agent_mentions, hop);
    lemma_first_that_may_speak(budget, previous, deterministic, hop);
    if let Some(i) = first_eligible_from(budget, previous, deterministic, hop, 0) {
        lemma_first_eligible_is_first(budget, previous, deterministic, hop, i + 1);
        assert forall|k: int| i < k < deterministic.len() && first_eligible_from(budget, previous, deterministic, hop, i + 1) is None
            implies !may_speak(budget, previous, #[trigger] deterministic[k]@, hop) by {
            assert(!eligible(budget, previous, deterministic[k]@, hop));
        }
    }
}

/// A turn ends, or waits on the moderator, only for a reason: it finishes
/// when nobody in any list may speak, or when the moderator would have to
/// arbitrate and the budget refuses its call for tokens or failures; it asks
/// the moderator only when the moderator is on, no mention may speak, and at
/// least two candidates of the speaking order may.
pub proof fn lemma_turn_ends_only_when_nobody_may_speak(
    budget: TurnBudget,
    previous: Option<&str>,
    user_mentions: Seq<String>,
    agent_mentions: Seq<String>,
    deterministic: Seq<String>,
    hop: u32,
    moderator_enabled: bool,
)
    ensures
        next_decision_spec(budget, previous, user_mentions, agent_mentions, deterministic, hop, moderator_enabled)
            is Finish ==> {
            ||| (forall|k: int| 0 <= k < user_mentions.len() ==> !may_speak(budget, previous, #[trigger] user_mentions[k]@, hop))
                && (forall|k: int| 0 <= k < agent_mentions.len() ==> !may_speak(budget, previous, #[trigger] agent_mentions[k]@, hop))
                && (forall|k: int| 0 <= k < deterministic.len() ==> !may_speak(budget, previous, #[trigger] deterministic[k]@, hop))
            ||| moderator_enabled && budget.moderator_rejection() is Some && budget.moderator_rejection()
                != Some(BudgetRejection::ModeratorCalls)
        },
        next_decision_spec(budget, previous, user_mentions, agent_mentions, deterministic, hop, moderator_enabled)
            is RequestModerator ==> {
            &&& moderator_enabled
            &&& budget.moderator_rejection() is None
            &&& forall|k: int| 0 <= k < user_mentions.len() ==> !may_speak(budget, previous, #[trigger] user_mentions[k]@, hop)
            &&& forall|k: int| 0 <= k < agent_mentions.len() ==> !may_speak(budget, previous, #[trigger] agent_mentions[k]@, hop)
            &&& exists|i: int, j: int| 0 <= i < j < deterministic.len() && may_speak(budget, previous, #[trigger] deterministic[i]@, hop)
                && may_speak(budget, previous, #[trigger] deterministic[j]@, hop)
        },
{
    lemma_first_that_may_speak(budget, previous, user_mentions, hop);
    lemma_first_that_may_speak(budget, previous, agent_mentions, hop);
    lemma_first_that_may_speak(budget, previous, deterministic, hop);
    if let Some(i) = first_eligible_from(budget, previous, deterministic, hop, 0) {
        lemma_first_eligible_is_eligible(budget, previous, deterministic, hop, i + 1);
        if let Some(j) = first_eligible_from(budget, previous, deterministic, hop, i + 1) {
            assert(may_speak(budget, previous, deterministic[j]@, hop));
            assert(may_speak(budget, previous, deterministic[i]@, hop));
        }
    }
}

proof fn lemma_first_that_may_speak(budget: TurnBudget, previous: Option<&str>, list: Seq<String>, hop: u32)
    ensures
        first_eligible_from(budget, previous, list, hop, 0) matches Some(i) ==> first_that_may_speak(
            budget,
            previous,
            list,
            hop,
            i,
        ),
        first_eligible_from(budget, previous, list, hop, 0) is None ==> forall|k: int|
            0 <= k < list.len() ==> !may_speak(budget, previous, #[trigger] list[k]@, hop),
{
    lemma_first_eligible_is_first(budget, previous, list, hop, 0);
    lemma_first_eligible_is_eligible(budget, previous, list, hop, 0);
    if let Some(i) = first_eligible_from(budget, previous, list, hop, 0) {
        assert(eligible(budget, previous, list[i]@, hop));
        assert forall|k: int| 0 <= k < i implies !may_speak(budget, previous, #[trigger] list[k]@, hop) by {
            assert(!eligible(budget, previous, list[k]@, hop));
        }
    } else {
        assert forall|k: int| 0 <= k < list.len() implies !may_speak(budget, previous, #[trigger] list[k]@, hop) by {
            assert(!eligible(budget, previous, list[k]@, hop));
        }
    }
}

proof fn lemma_first_eligible_is_eligible(
    budget: TurnBudget,
    previous: Option<&str>,
    candidates: Seq<String>,
    hop: u32,
    i: int,
)
    ensures
        first_eligible_from(budget, previous, candidates, hop, i) matches Some(j) ==> {
            &&& i <= j < candidates.len()
            &&& 0 <= j
            &&& eligible(budget, previous, candidates[j]@, hop)
        },
    decreases candidates.len() - i,
{
    if 0 <= i < candidates.len() {
        lemma_first_eligible_is_eligible(budget, previous, candidates, hop, i + 1);
    }
}

fn is_previous_speaker(previous: Option<&str>, id: &str) -> (r: bool)
    ensures
        r == is_previous(previous, id@),
{
    match previous {
        Some(p) => same_text(p, id),
        None => false,
    }
}

fn first_eligible(
    budget: &TurnBudget,
    previous: Option<&str>,
    candidates: &[String],
    hop: u32,
    start: usize,
) -> (r: Option<usize>)
    ensures
        match r {
            Some(i) => first_eligible_from(*budget, previous, candidates@, hop, start as int) == Some(i as int),
            None => first_eligible_from(*budget, previous, candidates@, hop, start as int) is None,
        },
{
    let mut i = start;
    if i >= candidates.len() {
        return None;
    }
    while i < candidates.len()
        invariant
            start <= i <= candidates@.len(),
            first_eligible_from(*budget, previous, candidates@, hop, start as int)
                == first_eligible_from(*budget, previous, candidates@, hop, i as int),
        decreases candidates@.len() - i,
    {
        let id = candidates[i].as_str();
        if !is_previous_speaker(previous, id) && budget.check_dispatch(id, hop).is_ok() {
            return Some(i);
        }
        i = i + 1;
    }
    None
}

/// The status a turn ends with when nobody is eligible: failure budget
/// exhausted, some other budget exhausted, or silence.
fn terminal_status(budget: &TurnBudget) -> (r: TurnStatus)
    ensures
        r == match budget.dispatch_rejection("terminal"@, 0) {
            Some(BudgetRejection::Failures) => TurnStatus::FailureBudgetExhausted,
            Some(_) => TurnStatus::BudgetExhausted,
            None => TurnStatus::Silence,
        },
{
    match budget.check_dispatch("terminal", 0) {
        Err(BudgetRejection::Failures) => TurnStatus::FailureBudgetExhausted,
        Err(_) => TurnStatus::BudgetExhausted,
        Ok(()) => TurnStatus::Silence,
    }
}

/// The reason a turn ends with when nobody is eligible.
fn terminal_reason(budget: &TurnBudget) -> (r: TurnReason)
    ensures
        r == match budget.dispatch_rejection("terminal"@, 0) {
            Some(BudgetRejection::Failures) => TurnReason::FailureBudgetExhausted,
            Some(_) => TurnReason::BudgetExhausted,
            None => TurnReason::Silence,
        },
{
    match budget.check_dispatch("terminal", 0) {
        Err(BudgetRejection::Failures) => TurnReason::FailureBudgetExhausted,
        Err(_) => TurnReason::BudgetExhausted,
        Ok(()) => TurnReason::Silence,
    }
}

/// Pick who speaks next, or report why the turn is over.
///
/// Priority is user `@mentions`, then the agent `@mentions` queued by the last
/// speaker, then the group's deterministic speaking order. Every path draws from
/// the same budget-filtered candidate set, so enabling the moderator changes
/// who is chosen, never whether anyone is.
pub fn next_decision(
    budget: &TurnBudget,
    previous_speaker: Option<&str>,
    user_mentions: &[String],
    agent_mentions: &[String],
    deterministic_candidates: &[String],
    hop: u32,
    moderator_enabled: bool,
) -> (r: SchedulerDecision)
    ensures
        r@ == next_decision_spec(
            *budget,
            previous_speaker,
            user_mentions@,
            agent_mentions@,
            deterministic_candidates@,
            hop,
            moderator_enabled,
        ),
{
    if user_mentions.len() == 0 && agent_mentions.len() == 0 && deterministic_candidates.len() == 0 {
        return match budget.check_dispatch("terminal", 0) {
            Err(BudgetRejection::Failures) => SchedulerDecision::Finish {
                status: TurnStatus::FailureBudgetExhausted,
                reason: TurnReason::FailureBudgetExhausted,
            },
            Err(BudgetRejection::Tokens) => SchedulerDecision::Finish {
                status: TurnStatus::BudgetExhausted,
                reason: TurnReason::BudgetExhausted,
            },
            _ => SchedulerDecision::Finish { status: TurnStatus::Silence, reason: TurnReason::Silence },
        };
    }
    proof {
        lemma_first_eligible_is_eligible(*budget, previous_speaker, user_mentions@, hop, 0);
        lemma_first_eligible_is_eligible(*budget, previous_speaker, agent_mentions@, hop, 0);
        lemma_first_eligible_is_eligible(*budget, previous_speaker, deterministic_candidates@, hop, 0);
    }
    if let Some(i) = first_eligible(budget, previous_speaker, user_mentions, hop, 0) {
        return SchedulerDecision::Dispatch(SchedulerDispatch {
            target_agent_id: user_mentions[i].clone(),
            selection_reason: SelectionReason::UserMention,
            action_kind: ActionKind::Speak,
            hop,
        });
    }
    if let Some(i) = first_eligible(budget, previous_speaker, agent_mentions, hop, 0) {
        return SchedulerDecision::Dispatch(SchedulerDispatch {
            target_agent_id: agent_mentions[i].clone(),
            selection_reason: SelectionReason::AgentTextMention,
            action_kind: ActionKind::Speak,
            hop,
        });
    }
    match first_eligible(budget, previous_speaker, deterministic_candidates, hop, 0) {
        Some(i) => {
            let count = deterministic_candidates.len();
            assert(i < count);
            let second = first_eligible(budget, previous_speaker, deterministic_candidates, hop, i + 1);
            if moderator_enabled && second.is_some() {
                match budget.check_moderator() {
                    Ok(()) => SchedulerDecision::RequestModerator,
                    Err(BudgetRejection::ModeratorCalls) => SchedulerDecision::Dispatch(SchedulerDispatch {
                        target_agent_id: deterministic_candidates[i].clone(),
                        selection_reason: SelectionReason::ModeratorFallback,
                        action_kind: ActionKind::Speak,
                        hop,
                    }),
                    Err(BudgetRejection::Tokens) => SchedulerDecision::Finish {
                        status: TurnStatus::BudgetExhausted,
                        reason: TurnReason::BudgetExhausted,
                    },
                    Err(_) => SchedulerDecision::Finish {
                        status: TurnStatus::FailureBudgetExhausted,
                        reason: TurnReason::FailureBudgetExhausted,
                    },
                }
            } else {
                SchedulerDecision::Dispatch(SchedulerDispatch {
                    target_agent_id: deterministic_candidates[i].clone(),
                    selection_reason: SelectionReason::DeterministicOrder,
                    action_kind: ActionKind::Speak,
                    hop,
                })
            }
        },
        None => SchedulerDecision::Finish { status: terminal_status(budget), reason: terminal_reason(budget) },
    }
}

} // verus!
