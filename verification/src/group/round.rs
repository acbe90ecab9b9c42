use vstd::prelude::*;

use crate::text::same_text;
use crate::scheduler::budget::{lemma_checked_dispatch_stays_within_limits, sat_add_u64, BudgetRejection, TurnBudget};
use crate::scheduler::decision::{is_previous, lemma_dispatch_is_eligible, next_decision, next_decision_spec, DecisionModel};
use crate::scheduler::model::{SchedulerDecision, SelectionReason, TurnReason};
use crate::scheduler::moderator::ModeratorCandidate;
use crate::scheduler::state::TurnStatus;
use crate::scheduler::topology::{allows_agent_edge, edge_allowed, TopologySnapshot};
use crate::group::routing::{frontier, ids_view, str_view, topology_frontier, Candidate};

verus! {

/// An agent `@mention` in a reply, waiting to be dispatched.
#[derive(Debug, Clone, PartialEq, Eq)]
pub struct PendingMention {
    pub parent_dispatch_id: String,
    pub source_agent_id: String,
    pub target_agent_id: String,
    pub hop: u32,
}

/// How a turn ended.
#[derive(Debug, Clone, Copy, PartialEq, Eq, Structural)]
pub enum TurnOutcome {
    /// At least one agent produced a visible message.
    Completed,
    /// No agent spoke.
    Silence,
    /// An agent paused the turn for human input.
    WaitingForUser,
    /// The client went away before any replayable thread state existed.
    Cancelled,
    /// A configuration or provider error ended the turn.
    Error,
}

/// The index of the first pending mention from `k` on that the budget can
/// still afford (the length when there is none).
pub open spec fn first_affordable(budget: TurnBudget, pending: Seq<PendingMention>, k: int) -> int
    decreases pending.len() - k,
{
    if k < 0 || k >= pending.len() {
        pending.len() as int
    } else if budget.dispatch_rejection(pending[k].target_agent_id@, pending[k].hop) is None {
        k
    } else {
        first_affordable(budget, pending, k + 1)
    }
}

proof fn lemma_first_affordable(budget: TurnBudget, pending: Seq<PendingMention>, k: int)
    requires
        0 <= k <= pending.len(),
    ensures
        k <= first_affordable(budget, pending, k) <= pending.len(),
        forall|m: int|
            k <= m < first_affordable(budget, pending, k) ==> budget.dispatch_rejection(
                #[trigger] pending[m].target_agent_id@,
                pending[m].hop,
            ) is Some,
        first_affordable(budget, pending, k) < pending.len() ==> budget.dispatch_rejection(
            pending[first_affordable(budget, pending, k)].target_agent_id@,
            pending[first_affordable(budget, pending, k)].hop,
        ) is None,
    decreases pending.len() - k,
{
    if k < pending.len() {
        lemma_first_affordable(budget, pending, k + 1);
    }
}

/// Whether agent-to-agent mentions stop being followed up: never allowed, or
/// a bounded turn has used up its allowance.
pub open spec fn mentions_closed(max_dispatches: i64, automatic: bool, dispatched: i64) -> bool {
    max_dispatches == 0 || (!automatic && dispatched >= max_dispatches)
}

/// The mention queue a round works from, and the budget rejection that last
/// dropped a mention from its head.
pub open spec fn settled_mentions(
    budget: TurnBudget,
    pending: Seq<PendingMention>,
    blocked: Option<BudgetRejection>,
    max_dispatches: i64,
    automatic: bool,
    dispatched: i64,
) -> (Seq<PendingMention>, Option<BudgetRejection>) {
    let queue = if mentions_closed(max_dispatches, automatic, dispatched) {
        Seq::empty()
    } else {
        pending
    };
    let k = first_affordable(budget, queue, 0);
    (queue.skip(k), if k == 0 {
        blocked
    } else {
        budget.dispatch_rejection(queue[k - 1].target_agent_id@, queue[k - 1].hop)
    })
}

/// After settling, the mention at the head of the queue, if any, is one the
/// budget can afford, and only refused mentions were dropped before it.
pub proof fn lemma_settled_head_is_affordable(
    budget: TurnBudget,
    pending: Seq<PendingMention>,
    blocked: Option<BudgetRejection>,
    max_dispatches: i64,
    automatic: bool,
    dispatched: i64,
)
    ensures
        ({
            let (queue, _) = settled_mentions(budget, pending, blocked, max_dispatches, automatic, dispatched);
            &&& queue.len() > 0 ==> budget.dispatch_rejection(queue[0].target_agent_id@, queue[0].hop) is None
            &&& mentions_closed(max_dispatches, automatic, dispatched) ==> queue.len() == 0
            &&& !mentions_closed(max_dispatches, automatic, dispatched) ==> pending.skip(pending.len() - queue.len()) == queue
        }),
{
    let queue = if mentions_closed(max_dispatches, automatic, dispatched) {
        Seq::<PendingMention>::empty()
    } else {
        pending
    };
    lemma_first_affordable(budget, queue, 0);
    let k = first_affordable(budget, queue, 0);
    if k < queue.len() {
        assert(queue.skip(k)[0] == queue[k]);
    }
    assert(queue.skip(queue.len() - queue.skip(k).len()) =~= queue.skip(k));
}

/// Settle the mention queue before a round: drop it when mentions are no
/// longer followed up, then drop from its head every mention the budget
/// refuses, remembering the last refusal (`blocked` is the one remembered so
/// far).
pub fn settle_pending_mentions(
    budget: &TurnBudget,
    pending: &mut Vec<PendingMention>,
    blocked: Option<BudgetRejection>,
    max_dispatches: i64,
    automatic: bool,
    dispatched: i64,
) -> (r: Option<BudgetRejection>)
    ensures
        (final(pending)@, r) == settled_mentions(*budget, old(pending)@, blocked, max_dispatches, automatic, dispatched),
{
    if max_dispatches == 0 || (!automatic && dispatched >= max_dispatches) {
        pending.clear();
    }
    let ghost queue = pending@;
    proof {
        lemma_first_affordable(*budget, queue, 0);
    }
    let mut k: usize = 0;
    let mut last = blocked;
    while k < pending.len()
        invariant
            pending@ == queue,
            k <= queue.len(),
            first_affordable(*budget, queue, k as int) == first_affordable(*budget, queue, 0),
            last == (if k == 0 {
                blocked
            } else {
                budget.dispatch_rejection(queue[k - 1].target_agent_id@, queue[k - 1].hop)
            }),
        ensures
            pending@ == queue,
            k as int == first_affordable(*budget, queue, 0),
            last == (if k == 0 {
                blocked
            } else {
                budget.dispatch_rejection(queue[k - 1].target_agent_id@, queue[k - 1].hop)
            }),
        decreases queue.len() - k,
    {
        match budget.check_dispatch(pending[k].target_agent_id.as_str(), pending[k].hop) {
            Ok(()) => break,
            Err(rejection) => {
                last = Some(rejection);
                k = k + 1;
            },
        }
    }
    let rest = pending.split_off(k);
    assert(rest@ =~= queue.skip(k as int));
    *pending = rest;
    last
}

/// The ids of the candidates still to speak, in order, without those that
/// already claimed their place in a bounded turn's first round.
pub open spec fn pool_spec(remaining: Seq<Option<Candidate>>, claims: Seq<String>, automatic: bool) -> Seq<Seq<char>>
    decreases remaining.len(),
{
    if remaining.len() == 0 {
        Seq::empty()
    } else {
        let rest = pool_spec(remaining.drop_last(), claims, automatic);
        match remaining.last() {
            Some(c) => if automatic || !ids_view(claims).contains(c.agent_id@) {
                rest.push(c.agent_id@)
            } else {
                rest
            },
            None => rest,
        }
    }
}

fn listed(list: &[String], id: &str) -> (r: bool)
    ensures
        r == ids_view(list@).contains(id@),
{
    let mut i: usize = 0;
    while i < list.len()
        invariant
            i <= list@.len(),
            forall|k: int| 0 <= k < i ==> list@[k]@ != id@,
        decreases list@.len() - i,
    {
        if same_text(list[i].as_str(), id) {
            assert(ids_view(list@)[i as int] == id@);
            return true;
        }
        i = i + 1;
    }
    proof {
        if ids_view(list@).contains(id@) {
            let k = choose|k: int| 0 <= k < ids_view(list@).len() && ids_view(list@)[k] == id@;
            assert(ids_view(list@)[k] == list@[k]@);
        }
    }
    false
}

/// The candidates a round draws from.
pub fn round_pool(remaining: &[Option<Candidate>], claims: &[String], automatic: bool) -> (r: Vec<String>)
    ensures
        ids_view(r@) == pool_spec(remaining@, claims@, automatic),
{
    let mut out: Vec<String> = Vec::new();
    let mut i: usize = 0;
    while i < remaining.len()
        invariant
            i <= remaining@.len(),
            ids_view(out@) == pool_spec(remaining@.take(i as int), claims@, automatic),
        decreases remaining@.len() - i,
    {
        assert(remaining@.take(i as int + 1).drop_last() =~= remaining@.take(i as int));
        let ghost prev = out@;
        match &remaining[i] {
            Some(c) => {
                if automatic || !listed(claims, c.agent_id.as_str()) {
                    out.push(c.agent_id.as_str().to_owned());
                    assert(ids_view(out@) =~= ids_view(prev).push(c.agent_id@));
                }
            },
            None => {},
        }
        i = i + 1;
    }
    assert(remaining@.take(i as int) =~= remaining@);
    out
}

/// The members of `list` that are also in `pool`, in order.
pub open spec fn kept_in(list: Seq<String>, pool: Seq<String>) -> Seq<Seq<char>>
    decreases list.len(),
{
    if list.len() == 0 {
        Seq::empty()
    } else if ids_view(pool).contains(list.last()@) {
        kept_in(list.drop_last(), pool).push(list.last()@)
    } else {
        kept_in(list.drop_last(), pool)
    }
}

/// The user mentions still to be served: those whose agent is in the pool.
pub fn unserved_user_mentions(pending_user_mentions: &[String], pool: &[String]) -> (r: Vec<String>)
    ensures
        ids_view(r@) == kept_in(pending_user_mentions@, pool@),
{
    let mut out: Vec<String> = Vec::new();
    let mut i: usize = 0;
    while i < pending_user_mentions.len()
        invariant
            i <= pending_user_mentions@.len(),
            ids_view(out@) == kept_in(pending_user_mentions@.take(i as int), pool@),
        decreases pending_user_mentions@.len() - i,
    {
        assert(pending_user_mentions@.take(i as int + 1).drop_last() =~= pending_user_mentions@.take(i as int));
        let ghost prev = out@;
        if listed(pool, pending_user_mentions[i].as_str()) {
            out.push(pending_user_mentions[i].as_str().to_owned());
            assert(ids_view(out@) =~= ids_view(prev).push(pending_user_mentions@[i as int]@));
        }
        i = i + 1;
    }
    assert(pending_user_mentions@.take(i as int) =~= pending_user_mentions@);
    out
}

/// The finish a refused mention leads to.
pub open spec fn refusal_finish(why: BudgetRejection) -> DecisionModel {
    match why {
        BudgetRejection::Failures => DecisionModel::Finish {
            status: TurnStatus::FailureBudgetExhausted,
            reason: TurnReason::FailureBudgetExhausted,
        },
        _ => DecisionModel::Finish { status: TurnStatus::BudgetExhausted, reason: TurnReason::BudgetExhausted },
    }
}

/// The decision of a round: when nobody is left to choose from and the last
/// mention was refused by the budget, the turn ends on that refusal;
/// otherwise the scheduler decides.
pub open spec fn round_decision_spec(
    budget: TurnBudget,
    previous: Option<&str>,
    user_mentions: Seq<String>,
    agent_mentions: Seq<String>,
    candidates: Seq<String>,
    hop: u32,
    moderator_enabled: bool,
    blocked: Option<BudgetRejection>,
) -> DecisionModel {
    match blocked {
        Some(why) if candidates.len() == 0 && user_mentions.len() == 0 && agent_mentions.len() == 0 => refusal_finish(
            why,
        ),
        _ => next_decision_spec(budget, previous, user_mentions, agent_mentions, candidates, hop, moderator_enabled),
    }
}

/// Decide a round of a scheduled turn.
pub fn round_decision(
    budget: &TurnBudget,
    previous_speaker: Option<&str>,
    user_mentions: &[String],
    agent_mentions: &[String],
    candidates: &[String],
    hop: u32,
    moderator_enabled: bool,
    blocked: Option<BudgetRejection>,
) -> (r: SchedulerDecision)
    ensures
        r@ == round_decision_spec(
            *budget,
            previous_speaker,
            user_mentions@,
            agent_mentions@,
            candidates@,
            hop,
            moderator_enabled,
            blocked,
        ),
{
    if candidates.len() == 0 && user_mentions.len() == 0 && agent_mentions.len() == 0 {
        match blocked {
            Some(BudgetRejection::Failures) => {
                return SchedulerDecision::Finish {
                    status: TurnStatus::FailureBudgetExhausted,
                    reason: TurnReason::FailureBudgetExhausted,
                };
            },
            Some(_) => {
                return SchedulerDecision::Finish {
                    status: TurnStatus::BudgetExhausted,
                    reason: TurnReason::BudgetExhausted,
                };
            },
            None => {},
        }
    }
    next_decision(budget, previous_speaker, user_mentions, agent_mentions, candidates, hop, moderator_enabled)
}

/// Every dispatch a round decides names an agent from one of the round's
/// lists, who did not speak last, at the round's hop, and whom the budget
/// affords at that hop; a refused mention with nobody left ends the turn
/// instead.
pub proof fn lemma_round_dispatch_is_affordable(
    budget: TurnBudget,
    previous: Option<&str>,
    user_mentions: Seq<String>,
    agent_mentions: Seq<String>,
    candidates: Seq<String>,
    hop: u32,
    moderator_enabled: bool,
    blocked: Option<BudgetRejection>,
)
    ensures
        round_decision_spec(budget, previous, user_mentions, agent_mentions, candidates, hop, moderator_enabled, blocked)
            matches DecisionModel::Dispatch { target, hop: h, .. } ==> {
            &&& budget.dispatch_rejection(target, h) is None
            &&& h == hop
            &&& !is_previous(previous, target)
            &&& (crate::scheduler::decision::listed(user_mentions, target) || crate::scheduler::decision::listed(
                agent_mentions,
                target,
            ) || crate::scheduler::decision::listed(candidates, target))
        },
{
    lemma_dispatch_is_eligible(budget, previous, user_mentions, agent_mentions, candidates, hop, moderator_enabled);
}

/// A turn that dispatches only what its rounds decide stays within its step
/// limits: recording the dispatch a round decides, on a budget within its
/// limits, leaves it within them.
pub proof fn lemma_round_dispatch_stays_within_limits(
    budget: TurnBudget,
    after: TurnBudget,
    previous: Option<&str>,
    user_mentions: Seq<String>,
    agent_mentions: Seq<String>,
    candidates: Seq<String>,
    hop: u32,
    moderator_enabled: bool,
    blocked: Option<BudgetRejection>,
)
    requires
        budget.within_step_limits(),
        round_decision_spec(budget, previous, user_mentions, agent_mentions, candidates, hop, moderator_enabled, blocked)
            matches DecisionModel::Dispatch { target, .. } && after.dispatch_recorded(&budget, target),
    ensures
        after.within_step_limits(),
{
    lemma_round_dispatch_is_affordable(budget, previous, user_mentions, agent_mentions, candidates, hop, moderator_enabled, blocked);
    if let DecisionModel::Dispatch { target, hop: h, .. } = round_decision_spec(
        budget,
        previous,
        user_mentions,
        agent_mentions,
        candidates,
        hop,
        moderator_enabled,
        blocked,
    ) {
        lemma_checked_dispatch_stays_within_limits(budget, after, target, h);
    }
}

/// What a round of a scheduled turn works from, and what it decides.
pub struct RoundPlan {
    /// The budget refusal that last dropped a mention, if one did.
    pub blocked: Option<BudgetRejection>,
    /// The candidates still to speak.
    pub pool: Vec<String>,
    /// Those of the pool the topology lets speak next.
    pub candidates: Vec<String>,
    /// The user's mentions still to be served.
    pub user_mentions: Vec<String>,
    /// The agent mention at the head of the queue, if any.
    pub agent_mentions: Vec<String>,
    /// The hop of that mention (zero without one).
    pub hop: u32,
    /// What the round does.
    pub decision: SchedulerDecision,
}

/// Plan a round of a scheduled turn: settle the mention queue, draw the pool
/// of candidates still to speak, narrow it by the topology (after the
/// previous speaker only in an automatic turn), keep the user mentions whose
/// agent is in the pool, and decide.
pub fn plan_round(
    budget: &TurnBudget,
    topology: &TopologySnapshot,
    pending: &mut Vec<PendingMention>,
    blocked: Option<BudgetRejection>,
    remaining: &[Option<Candidate>],
    claims: &[String],
    pending_user_mentions: &[String],
    previous_speaker: Option<&str>,
    automatic: bool,
    moderator_enabled: bool,
    max_mention_dispatches: i64,
    mention_dispatches: i64,
) -> (r: RoundPlan)
    ensures
        (final(pending)@, r.blocked) == settled_mentions(
            *budget,
            old(pending)@,
            blocked,
            max_mention_dispatches,
            automatic,
            mention_dispatches,
        ),
        ids_view(r.pool@) == pool_spec(remaining@, claims@, automatic),
        ids_view(r.candidates@) == frontier(
            *topology,
            r.pool@,
            if automatic {
                str_view(previous_speaker)
            } else {
                None
            },
        ),
        ids_view(r.user_mentions@) == kept_in(pending_user_mentions@, r.pool@),
        ids_view(r.agent_mentions@) == (if final(pending)@.len() > 0 {
            seq![final(pending)@[0].target_agent_id@]
        } else {
            Seq::<Seq<char>>::empty()
        }),
        r.hop == (if final(pending)@.len() > 0 {
            final(pending)@[0].hop
        } else {
            0
        }),
        r.decision@ == round_decision_spec(
            *budget,
            previous_speaker,
            r.user_mentions@,
            r.agent_mentions@,
            r.candidates@,
            r.hop,
            moderator_enabled,
            r.blocked,
        ),
{
    let now_blocked = settle_pending_mentions(
        budget,
        pending,
        blocked,
        max_mention_dispatches,
        automatic,
        mention_dispatches,
    );
    let pool = round_pool(remaining, claims, automatic);
    let frontier_source = if automatic {
        previous_speaker
    } else {
        None
    };
    let candidates = topology_frontier(topology, pool.as_slice(), frontier_source);
    let user_mentions = unserved_user_mentions(pending_user_mentions, pool.as_slice());
    let mut agent_mentions: Vec<String> = Vec::new();
    let mut hop: u32 = 0;
    if pending.len() > 0 {
        agent_mentions.push(pending[0].target_agent_id.as_str().to_owned());
        hop = pending[0].hop;
        assert(ids_view(agent_mentions@) =~= seq![pending@[0].target_agent_id@]);
    } else {
        assert(ids_view(agent_mentions@) =~= Seq::<Seq<char>>::empty());
    }
    let decision = round_decision(
        budget,
        previous_speaker,
        user_mentions.as_slice(),
        agent_mentions.as_slice(),
        candidates.as_slice(),
        hop,
        moderator_enabled,
        now_blocked,
    );
    RoundPlan {
        blocked: now_blocked,
        pool,
        candidates,
        user_mentions,
        agent_mentions,
        hop,
        decision,
    }
}

/// Whether a candidate may be put before the moderator.
pub open spec fn moderator_eligible(
    c: Candidate,
    claims: Seq<String>,
    previous: Option<Seq<char>>,
    hop: u32,
    source: Option<Seq<char>>,
    allowed: Seq<String>,
    automatic: bool,
    budget: TurnBudget,
    topology: TopologySnapshot,
) -> bool {
    &&& ids_view(allowed).contains(c.agent_id@)
    &&& automatic || !ids_view(claims).contains(c.agent_id@)
    &&& automatic || previous != Some(c.agent_id@)
    &&& budget.dispatch_rejection(c.agent_id@, hop) is None
    &&& match source {
        Some(s) => edge_allowed(topology, s, c.agent_id@),
        None => true,
    }
}

/// The candidates put before the moderator, as `(id, name)`, in order.
pub open spec fn moderator_pool(
    remaining: Seq<Option<Candidate>>,
    claims: Seq<String>,
    previous: Option<Seq<char>>,
    hop: u32,
    source: Option<Seq<char>>,
    allowed: Seq<String>,
    automatic: bool,
    budget: TurnBudget,
    topology: TopologySnapshot,
) -> Seq<(Seq<char>, Seq<char>)>
    decreases remaining.len(),
{
    if remaining.len() == 0 {
        Seq::empty()
    } else {
        let rest = moderator_pool(
            remaining.drop_last(),
            claims,
            previous,
            hop,
            source,
            allowed,
            automatic,
            budget,
            topology,
        );
        match remaining.last() {
            Some(c) => if moderator_eligible(c, claims, previous, hop, source, allowed, automatic, budget, topology) {
                rest.push((c.agent_id@, c.display_name@))
            } else {
                rest
            },
            None => rest,
        }
    }
}

/// A moderator candidate as `(id, name)`.
pub open spec fn candidate_pair(c: ModeratorCandidate) -> (Seq<char>, Seq<char>) {
    (c.agent_id@, c.display_name@)
}

/// The optional text a contract sees.
pub open spec fn opt_str(s: Option<&str>) -> Option<Seq<char>> {
    match s {
        Some(t) => Some(t@),
        None => None,
    }
}

/// The candidates the moderator chooses from: still to speak, on the
/// round's frontier, unclaimed and not the last speaker in a bounded turn,
/// affordable at `hop`, and reachable from the mentioning agent when a
/// mention is being served. Each is offered as eligible.
pub fn current_moderator_candidates(
    remaining: &[Option<Candidate>],
    claims: &[String],
    previous_speaker: Option<&str>,
    hop: u32,
    source_agent_id: Option<&str>,
    allowed_candidate_ids: &[String],
    automatic: bool,
    budget: &TurnBudget,
    topology: &TopologySnapshot,
) -> (r: Vec<ModeratorCandidate>)
    ensures
        r@.map_values(|c: ModeratorCandidate| candidate_pair(c)) == moderator_pool(
            remaining@,
            claims@,
            opt_str(previous_speaker),
            hop,
            opt_str(source_agent_id),
            allowed_candidate_ids@,
            automatic,
            *budget,
            *topology,
        ),
        forall|i: int| 0 <= i < r@.len() ==> (#[trigger] r@[i]).reason@ == "eligible"@,
{
    let ghost prev_id = opt_str(previous_speaker);
    let ghost src = opt_str(source_agent_id);
    let mut out: Vec<ModeratorCandidate> = Vec::new();
    let mut i: usize = 0;
    while i < remaining.len()
        invariant
            i <= remaining@.len(),
            prev_id == opt_str(previous_speaker),
            src == opt_str(source_agent_id),
            out@.map_values(|c: ModeratorCandidate| candidate_pair(c)) == moderator_pool(
                remaining@.take(i as int),
                claims@,
                prev_id,
                hop,
                src,
                allowed_candidate_ids@,
                automatic,
                *budget,
                *topology,
            ),
            forall|k: int| 0 <= k < out@.len() ==> (#[trigger] out@[k]).reason@ == "eligible"@,
        decreases remaining@.len() - i,
    {
        assert(remaining@.take(i as int + 1).drop_last() =~= remaining@.take(i as int));
        let ghost prev = out@;
        match &remaining[i] {
            Some(c) => {
                let id = c.agent_id.as_str();
                let on_frontier = listed(allowed_candidate_ids, id);
                let unclaimed = automatic || !listed(claims, id);
                let not_previous = automatic || match previous_speaker {
                    Some(p) => !same_text(p, id),
                    None => true,
                };
                let affordable = budget.check_dispatch(id, hop).is_ok();
                let reachable = match source_agent_id {
                    Some(s) => allows_agent_edge(topology, s, id),
                    None => true,
                };
                if on_frontier && unclaimed && not_previous && affordable && reachable {
                    let candidate = ModeratorCandidate {
                        agent_id: id.to_owned(),
                        display_name: c.display_name.as_str().to_owned(),
                        reason: "eligible".to_owned(),
                    };
                    out.push(candidate);
                    assert(out@.map_values(|c: ModeratorCandidate| candidate_pair(c)) =~= prev.map_values(
                        |c: ModeratorCandidate| candidate_pair(c),
                    ).push((c.agent_id@, c.display_name@)));
                }
            },
            None => {},
        }
        i = i + 1;
    }
    assert(remaining@.take(i as int) =~= remaining@);
    out
}

/// Whether the moderator is asked at all: only when the scheduler asked for
/// it, and then when there is a real choice or the turn runs automatically.
pub fn asks_moderator(may_call_moderator: bool, candidate_count: usize, automatic: bool) -> (r: bool)
    ensures
        r == (may_call_moderator && (candidate_count >= 2 || automatic)),
{
    may_call_moderator && (candidate_count >= 2 || automatic)
}

/// Why the agent the moderator step produced was chosen: a fallback when the
/// moderator could not be asked; the moderator's own pick when it named that
/// agent; deterministic order when there was no choice to make and nothing
/// failed; a fallback otherwise.
pub open spec fn moderator_reason(
    may_call_moderator: bool,
    moderator_choice: Option<Seq<char>>,
    selected: Seq<char>,
    candidate_count: int,
    moderator_failed: bool,
) -> SelectionReason {
    if !may_call_moderator {
        SelectionReason::ModeratorFallback
    } else if moderator_choice == Some(selected) {
        SelectionReason::Moderator
    } else if candidate_count == 1 && !moderator_failed {
        SelectionReason::DeterministicOrder
    } else {
        SelectionReason::ModeratorFallback
    }
}

/// Label the agent the moderator step produced.
pub fn moderator_selection_reason(
    may_call_moderator: bool,
    moderator_choice: Option<&str>,
    selected_agent_id: &str,
    candidate_count: usize,
    moderator_failed: bool,
) -> (r: SelectionReason)
    ensures
        r == moderator_reason(
            may_call_moderator,
            opt_str(moderator_choice),
            selected_agent_id@,
            candidate_count as int,
            moderator_failed,
        ),
{
    if !may_call_moderator {
        return SelectionReason::ModeratorFallback;
    }
    match moderator_choice {
        Some(choice) => if same_text(choice, selected_agent_id) {
            return SelectionReason::Moderator;
        },
        None => {},
    }
    if candidate_count == 1 && !moderator_failed {
        SelectionReason::DeterministicOrder
    } else {
        SelectionReason::ModeratorFallback
    }
}

/// How a finished turn is recorded: a silent finish after a visible reply is
/// a completion; a silent finish after a failed dispatch is a failure, not a
/// quiet success; a completion keeps its reason; anything else is a silence
/// with its reason.
pub open spec fn terminal_spec(status: TurnStatus, reason: TurnReason, had_visible: bool, total_failures: u32) -> (
    TurnStatus,
    Option<TurnReason>,
    TurnOutcome,
) {
    if status == TurnStatus::Silence && had_visible {
        (TurnStatus::Completed, None, TurnOutcome::Completed)
    } else if status == TurnStatus::Silence && total_failures > 0 {
        (TurnStatus::Failed, None, TurnOutcome::Error)
    } else if status == TurnStatus::Completed {
        (TurnStatus::Completed, Some(reason), TurnOutcome::Completed)
    } else {
        (status, Some(reason), TurnOutcome::Silence)
    }
}

/// Record a finish decision.
pub fn terminal_outcome(status: TurnStatus, reason: TurnReason, had_visible: bool, total_failures: u32) -> (r: (
    TurnStatus,
    Option<TurnReason>,
    TurnOutcome,
))
    ensures
        r == terminal_spec(status, reason, had_visible, total_failures),
{
    match status {
        TurnStatus::Silence => if had_visible {
            (TurnStatus::Completed, None, TurnOutcome::Completed)
        } else if total_failures > 0 {
            (TurnStatus::Failed, None, TurnOutcome::Error)
        } else {
            (status, Some(reason), TurnOutcome::Silence)
        },
        TurnStatus::Completed => (TurnStatus::Completed, Some(reason), TurnOutcome::Completed),
        _ => (status, Some(reason), TurnOutcome::Silence),
    }
}

/// A pending mention, as the contracts see it.
pub open spec fn mention_view(m: PendingMention) -> (Seq<char>, Seq<char>, Seq<char>, u32) {
    (m.parent_dispatch_id@, m.source_agent_id@, m.target_agent_id@, m.hop)
}

/// The mentions a visible reply adds to the queue: each mentioned agent the
/// speaker may address, one hop further.
pub open spec fn reply_mentions(
    topology: TopologySnapshot,
    speaker: Seq<char>,
    parent: Seq<char>,
    hop: u32,
    mentioned: Seq<String>,
) -> Seq<(Seq<char>, Seq<char>, Seq<char>, u32)>
    decreases mentioned.len(),
{
    if mentioned.len() == 0 {
        Seq::empty()
    } else {
        let rest = reply_mentions(topology, speaker, parent, hop, mentioned.drop_last());
        if edge_allowed(topology, speaker, mentioned.last()@) {
            rest.push((parent, speaker, mentioned.last()@, if hop < u32::MAX { (hop + 1) as u32 } else { hop }))
        } else {
            rest
        }
    }
}

/// Queue the agents a visible reply mentions, in mention order.
pub fn queue_reply_mentions(
    topology: &TopologySnapshot,
    speaker: &str,
    parent_dispatch_id: &str,
    dispatch_hop: u32,
    mentioned: &[String],
    pending: &mut Vec<PendingMention>,
)
    ensures
        final(pending)@.map_values(|m: PendingMention| mention_view(m)) == old(pending)@.map_values(
            |m: PendingMention| mention_view(m),
        ) + reply_mentions(*topology, speaker@, parent_dispatch_id@, dispatch_hop, mentioned@),
{
    let ghost start = pending@.map_values(|m: PendingMention| mention_view(m));
    let next_hop: u32 = if dispatch_hop < u32::MAX { dispatch_hop + 1 } else { dispatch_hop };
    let mut i: usize = 0;
    while i < mentioned.len()
        invariant
            i <= mentioned@.len(),
            next_hop == (if dispatch_hop < u32::MAX { (dispatch_hop + 1) as u32 } else { dispatch_hop }),
            pending@.map_values(|m: PendingMention| mention_view(m)) == start + reply_mentions(
                *topology,
                speaker@,
                parent_dispatch_id@,
                dispatch_hop,
                mentioned@.take(i as int),
            ),
        decreases mentioned@.len() - i,
    {
        assert(mentioned@.take(i as int + 1).drop_last() =~= mentioned@.take(i as int));
        let ghost prev = pending@;
        if allows_agent_edge(topology, speaker, mentioned[i].as_str()) {
            pending.push(
                PendingMention {
                    parent_dispatch_id: parent_dispatch_id.to_owned(),
                    source_agent_id: speaker.to_owned(),
                    target_agent_id: mentioned[i].as_str().to_owned(),
                    hop: next_hop,
                },
            );
            assert(pending@.map_values(|m: PendingMention| mention_view(m)) =~= prev.map_values(
                |m: PendingMention| mention_view(m),
            ).push((parent_dispatch_id@, speaker@, mentioned@[i as int]@, next_hop)));
        }
        i = i + 1;
    }
    assert(mentioned@.take(i as int) =~= mentioned@);
}

/// Tokens spent since the last accounting: the turn's running total less
/// what was already counted, never below zero.
pub open spec fn unaccounted(total: u64, accounted: u64) -> u64 {
    if total >= accounted { (total - accounted) as u64 } else { 0 }
}

/// Count the tokens spent since the last accounting against the budget
/// without touching its failure streak, and mark them counted.
pub fn account_scheduled_tokens(total: u64, accounted: &mut u64, budget: &mut TurnBudget)
    ensures
        final(budget).spec_total_tokens() == sat_add_u64(old(budget).spec_total_tokens(), unaccounted(total, *old(accounted))),
        final(budget).spec_consecutive_failures() == old(budget).spec_consecutive_failures(),
        final(budget).spec_total_failures() == old(budget).spec_total_failures(),
        final(budget).spec_limits() == old(budget).spec_limits(),
        final(budget).spec_agent_steps() == old(budget).spec_agent_steps(),
        final(budget).spec_moderator_calls() == old(budget).spec_moderator_calls(),
        forall|id: Seq<char>| final(budget).steps_of(id) == old(budget).steps_of(id)
            && final(budget).dispatched(id) == old(budget).dispatched(id),
        *final(accounted) == total,
{
    let tokens = total.saturating_sub(*accounted);
    budget.record_tokens(tokens);
    *accounted = total;
}

/// Count the tokens of a completed step against the budget, which also ends
/// the failure streak, and mark them counted.
pub fn complete_scheduled_usage(total: u64, accounted: &mut u64, budget: &mut TurnBudget)
    ensures
        final(budget).spec_total_tokens() == sat_add_u64(old(budget).spec_total_tokens(), unaccounted(total, *old(accounted))),
        final(budget).spec_consecutive_failures() == 0,
        final(budget).spec_total_failures() == old(budget).spec_total_failures(),
        final(budget).spec_limits() == old(budget).spec_limits(),
        final(budget).spec_agent_steps() == old(budget).spec_agent_steps(),
        final(budget).spec_moderator_calls() == old(budget).spec_moderator_calls(),
        forall|id: Seq<char>| final(budget).steps_of(id) == old(budget).steps_of(id)
            && final(budget).dispatched(id) == old(budget).dispatched(id),
        *final(accounted) == total,
{
    let tokens = total.saturating_sub(*accounted);
    budget.record_completion(tokens);
    *accounted = total;
}

} // verus!
