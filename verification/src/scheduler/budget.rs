use vstd::prelude::*;

use crate::text::same_text;

verus! {

/// The hard limits one scheduler turn runs under.
#[derive(Debug, Clone, Copy, PartialEq, Eq, Structural)]
pub struct BudgetLimits {
    pub max_agent_steps: u32,
    pub max_steps_per_agent: u32,
    pub max_hops: u32,
    pub max_moderator_calls: u32,
    pub max_consecutive_failures: u32,
    pub max_total_failures: u32,
    pub max_total_tokens: u64,
}

/// `a + b` capped at the largest `u32`.
pub open spec fn sat_add_u32(a: u32, b: u32) -> u32 {
    if a + b > u32::MAX { u32::MAX } else { (a + b) as u32 }
}

/// `a + b` capped at the largest `u64`.
pub open spec fn sat_add_u64(a: u64, b: u64) -> u64 {
    if a + b > u64::MAX { u64::MAX } else { (a + b) as u64 }
}

/// The agent-step limit a turn gets when none is configured.
pub open spec fn auto_agent_steps(
    candidate_count: usize,
    max_agent_steps: Option<u32>,
    max_steps_per_agent: u32,
    max_hops: u32,
) -> u32 {
    match max_agent_steps {
        Some(v) => v,
        None => if max_steps_per_agent == 1 && max_hops == 0 {
            if candidate_count > u32::MAX { u32::MAX } else { candidate_count as u32 }
        } else {
            let tripled = (candidate_count as u32) * 3;
            let capped: u32 = if tripled > u32::MAX { u32::MAX } else { tripled as u32 };
            if capped < 8 { 8 } else if capped > 24 { 24 } else { capped }
        },
    }
}

impl BudgetLimits {
    /// The configured agent-step limit, or one derived from the candidate count:
    /// one step per candidate for a single pass, otherwise three per candidate
    /// clamped to `8..=24`.
    pub fn resolve_agent_steps(
        candidate_count: usize,
        max_agent_steps: Option<u32>,
        max_steps_per_agent: u32,
        max_hops: u32,
    ) -> (r: u32)
        ensures
            r == auto_agent_steps(candidate_count, max_agent_steps, max_steps_per_agent, max_hops),
    {
        match max_agent_steps {
            Some(v) => v,
            None => {
                if max_steps_per_agent == 1 && max_hops == 0 {
                    if candidate_count > u32::MAX as usize {
                        u32::MAX
                    } else {
                        candidate_count as u32
                    }
                } else {
                    let count = candidate_count as u32;
                    let capped: u32 = if count > u32::MAX / 3 {
                        u32::MAX
                    } else {
                        count * 3
                    };
                    if capped < 8 {
                        8
                    } else if capped > 24 {
                        24
                    } else {
                        capped
                    }
                }
            },
        }
    }

    /// The default limits for a group with `active_agents` candidates.
    pub fn with_auto_steps(active_agents: usize, max_agent_steps: Option<u32>) -> (r: Self)
        ensures
            r.max_agent_steps == auto_agent_steps(active_agents, max_agent_steps, 3, 5),
            r.max_steps_per_agent == 3,
            r.max_hops == 5,
            r.max_moderator_calls == 4,
            r.max_consecutive_failures == 3,
            r.max_total_failures == 6,
            r.max_total_tokens == 120_000,
    {
        BudgetLimits {
            max_agent_steps: Self::resolve_agent_steps(active_agents, max_agent_steps, 3, 5),
            max_steps_per_agent: 3,
            max_hops: 5,
            max_moderator_calls: 4,
            max_consecutive_failures: 3,
            max_total_failures: 6,
            max_total_tokens: 120_000,
        }
    }
}

/// Which limit refused a step.
#[derive(Debug, Clone, Copy, PartialEq, Eq, Structural)]
pub enum BudgetRejection {
    AgentSteps,
    PerAgentSteps,
    Hops,
    ModeratorCalls,
    Failures,
    Tokens,
}

/// What a rejection says.
pub open spec fn rejection_text(r: BudgetRejection) -> Seq<char> {
    match r {
        BudgetRejection::AgentSteps => "agent step budget exhausted"@,
        BudgetRejection::PerAgentSteps => "per-agent step budget exhausted"@,
        BudgetRejection::Hops => "hop budget exhausted"@,
        BudgetRejection::ModeratorCalls => "moderator call budget exhausted"@,
        BudgetRejection::Failures => "failure budget exhausted"@,
        BudgetRejection::Tokens => "token budget exhausted"@,
    }
}

impl BudgetRejection {
    /// What this rejection says.
    pub fn message(self) -> (r: &'static str)
        ensures
            r@ == rejection_text(self),
    {
        match self {
            BudgetRejection::AgentSteps => "agent step budget exhausted",
            BudgetRejection::PerAgentSteps => "per-agent step budget exhausted",
            BudgetRejection::Hops => "hop budget exhausted",
            BudgetRejection::ModeratorCalls => "moderator call budget exhausted",
            BudgetRejection::Failures => "failure budget exhausted",
            BudgetRejection::Tokens => "token budget exhausted",
        }
    }
}

/// The step count recorded for `id`, searching `entries` from `i` on.
pub open spec fn lookup_from(entries: Seq<(String, u32)>, id: Seq<char>, i: int) -> Option<u32>
    decreases entries.len() - i,
{
    if i < 0 || i >= entries.len() {
        None
    } else if entries[i].0@ == id {
        Some(entries[i].1)
    } else {
        lookup_from(entries, id, i + 1)
    }
}

proof fn lemma_lookup_push(entries: Seq<(String, u32)>, e: (String, u32), id: Seq<char>, i: int)
    requires
        0 <= i <= entries.len(),
    ensures
        lookup_from(entries.push(e), id, i) == (match lookup_from(entries, id, i) {
            Some(v) => Some(v),
            None => if e.0@ == id { Some(e.1) } else { None },
        }),
    decreases entries.len() - i,
{
    assert(entries.push(e)[i] == if i < entries.len() { entries[i] } else { e });
    if i < entries.len() {
        lemma_lookup_push(entries, e, id, i + 1);
    }
}

proof fn lemma_lookup_update(entries: Seq<(String, u32)>, k: int, v: u32, id: Seq<char>, i: int)
    requires
        0 <= k < entries.len(),
        0 <= i,
    ensures
        ({
            let updated = entries.update(k, (entries[k].0, v));
            &&& id != entries[k].0@ ==> lookup_from(updated, id, i) == lookup_from(entries, id, i)
            &&& (id == entries[k].0@ && i <= k && (forall|m: int| i <= m < k ==> entries[m].0@ != id))
                ==> lookup_from(updated, id, i) == Some(v)
        }),
    decreases entries.len() - i,
{
    if i < entries.len() {
        lemma_lookup_update(entries, k, v, id, i + 1);
    }
}

proof fn lemma_lookup_skip(entries: Seq<(String, u32)>, id: Seq<char>, i: int)
    requires
        0 <= i,
        forall|m: int| 0 <= m < i && m < entries.len() ==> entries[m].0@ != id,
    ensures
        lookup_from(entries, id, 0) == lookup_from(entries, id, i),
    decreases i,
{
    if i > 0 {
        lemma_lookup_skip(entries, id, i - 1);
    }
}

/// Counters of one running turn, checked against its limits.
#[derive(Debug, Clone)]
pub struct TurnBudget {
    limits: BudgetLimits,
    agent_steps: u32,
    steps_per_agent: Vec<(String, u32)>,
    moderator_calls: u32,
    consecutive_failures: u32,
    total_failures: u32,
    total_tokens: u64,
}

impl TurnBudget {
    pub closed spec fn spec_limits(&self) -> BudgetLimits {
        self.limits
    }

    pub closed spec fn spec_agent_steps(&self) -> u32 {
        self.agent_steps
    }

    pub closed spec fn spec_moderator_calls(&self) -> u32 {
        self.moderator_calls
    }

    pub closed spec fn spec_consecutive_failures(&self) -> u32 {
        self.consecutive_failures
    }

    pub closed spec fn spec_total_failures(&self) -> u32 {
        self.total_failures
    }

    pub closed spec fn spec_total_tokens(&self) -> u64 {
        self.total_tokens
    }

    /// Whether `id` has been dispatched in this turn.
    pub closed spec fn dispatched(&self, id: Seq<char>) -> bool {
        lookup_from(self.steps_per_agent@, id, 0) is Some
    }

    /// How many times `id` has been dispatched in this turn.
    pub closed spec fn steps_of(&self, id: Seq<char>) -> u32 {
        match lookup_from(self.steps_per_agent@, id, 0) {
            Some(v) => v,
            None => 0,
        }
    }

    /// Whether the failure counters have reached either failure limit.
    pub open spec fn failures_exhausted(&self) -> bool {
        self.spec_consecutive_failures() >= self.spec_limits().max_consecutive_failures
            || self.spec_total_failures() >= self.spec_limits().max_total_failures
    }

    /// The limit that refuses dispatching `id` at `hop`, checked in order.
    pub open spec fn dispatch_rejection(&self, id: Seq<char>, hop: u32) -> Option<BudgetRejection> {
        if self.spec_agent_steps() >= self.spec_limits().max_agent_steps {
            Some(BudgetRejection::AgentSteps)
        } else if self.steps_of(id) >= self.spec_limits().max_steps_per_agent {
            Some(BudgetRejection::PerAgentSteps)
        } else if hop > self.spec_limits().max_hops {
            Some(BudgetRejection::Hops)
        } else if self.spec_total_tokens() >= self.spec_limits().max_total_tokens {
            Some(BudgetRejection::Tokens)
        } else if self.failures_exhausted() {
            Some(BudgetRejection::Failures)
        } else {
            None
        }
    }

    /// The limit that refuses another moderator call, checked in order.
    pub open spec fn moderator_rejection(&self) -> Option<BudgetRejection> {
        if self.spec_moderator_calls() >= self.spec_limits().max_moderator_calls {
            Some(BudgetRejection::ModeratorCalls)
        } else if self.spec_total_tokens() >= self.spec_limits().max_total_tokens {
            Some(BudgetRejection::Tokens)
        } else if self.failures_exhausted() {
            Some(BudgetRejection::Failures)
        } else {
            None
        }
    }

    /// The counters other than `agent_steps`, the per-agent steps and
    /// `moderator_calls` are those of `other`.
    pub open spec fn same_except_steps(&self, other: &TurnBudget) -> bool {
        &&& self.spec_limits() == other.spec_limits()
        &&& self.spec_consecutive_failures() == other.spec_consecutive_failures()
        &&& self.spec_total_failures() == other.spec_total_failures()
        &&& self.spec_total_tokens() == other.spec_total_tokens()
    }

    /// A fresh budget: every counter at zero, nobody dispatched.
    pub fn new(limits: BudgetLimits) -> (r: Self)
        ensures
            r.spec_limits() == limits,
            r.spec_agent_steps() == 0,
            r.spec_moderator_calls() == 0,
            r.spec_consecutive_failures() == 0,
            r.spec_total_failures() == 0,
            r.spec_total_tokens() == 0,
            forall|id: Seq<char>| !r.dispatched(id) && r.steps_of(id) == 0,
    {
        TurnBudget {
            limits,
            agent_steps: 0,
            steps_per_agent: Vec::new(),
            moderator_calls: 0,
            consecutive_failures: 0,
            total_failures: 0,
            total_tokens: 0,
        }
    }

    pub fn limits(&self) -> (r: BudgetLimits)
        ensures
            r == self.spec_limits(),
    {
        self.limits
    }

    pub fn agent_steps(&self) -> (r: u32)
        ensures
            r == self.spec_agent_steps(),
    {
        self.agent_steps
    }

    pub fn total_tokens(&self) -> (r: u64)
        ensures
            r == self.spec_total_tokens(),
    {
        self.total_tokens
    }

    pub fn moderator_calls(&self) -> (r: u32)
        ensures
            r == self.spec_moderator_calls(),
    {
        self.moderator_calls
    }

    pub fn consecutive_failures(&self) -> (r: u32)
        ensures
            r == self.spec_consecutive_failures(),
    {
        self.consecutive_failures
    }

    pub fn total_failures(&self) -> (r: u32)
        ensures
            r == self.spec_total_failures(),
    {
        self.total_failures
    }

    /// The index of the entry for `id`, if it has one.
    fn find_entry(&self, id: &str) -> (r: Option<usize>)
        ensures
            match r {
                Some(i) => i < self.steps_per_agent@.len()
                    && self.steps_per_agent@[i as int].0@ == id@
                    && (forall|m: int| 0 <= m < i ==> self.steps_per_agent@[m].0@ != id@)
                    && lookup_from(self.steps_per_agent@, id@, 0) == Some(self.steps_per_agent@[i as int].1),
                None => lookup_from(self.steps_per_agent@, id@, 0) is None,
            },
    {
        let mut i: usize = 0;
        while i < self.steps_per_agent.len()
            invariant
                i <= self.steps_per_agent@.len(),
                forall|m: int| 0 <= m < i ==> self.steps_per_agent@[m].0@ != id@,
            decreases self.steps_per_agent@.len() - i,
        {
            if same_text(self.steps_per_agent[i].0.as_str(), id) {
                proof {
                    lemma_lookup_skip(self.steps_per_agent@, id@, i as int);
                }
                return Some(i);
            }
            i = i + 1;
        }
        proof {
            lemma_lookup_skip(self.steps_per_agent@, id@, i as int);
        }
        None
    }

    pub fn has_dispatched(&self, agent_id: &str) -> (r: bool)
        ensures
            r == self.dispatched(agent_id@),
    {
        self.find_entry(agent_id).is_some()
    }

    /// How many times `agent_id` has been dispatched in this turn.
    pub fn steps_for(&self, agent_id: &str) -> (r: u32)
        ensures
            r == self.steps_of(agent_id@),
    {
        match self.find_entry(agent_id) {
            Some(i) => self.steps_per_agent[i].1,
            None => 0,
        }
    }

    /// Whether `target_agent_id` may be dispatched at `hop`; the error names the
    /// first limit that refuses it.
    pub fn check_dispatch(&self, target_agent_id: &str, hop: u32) -> (r: Result<(), BudgetRejection>)
        ensures
            match self.dispatch_rejection(target_agent_id@, hop) {
                Some(why) => r == Err::<(), BudgetRejection>(why),
                None => r is Ok,
            },
    {
        if self.agent_steps >= self.limits.max_agent_steps {
            return Err(BudgetRejection::AgentSteps);
        }
        if self.steps_for(target_agent_id) >= self.limits.max_steps_per_agent {
            return Err(BudgetRejection::PerAgentSteps);
        }
        if hop > self.limits.max_hops {
            return Err(BudgetRejection::Hops);
        }
        if self.total_tokens >= self.limits.max_total_tokens {
            return Err(BudgetRejection::Tokens);
        }
        if self.consecutive_failures >= self.limits.max_consecutive_failures
            || self.total_failures >= self.limits.max_total_failures
        {
            return Err(BudgetRejection::Failures);
        }
        Ok(())
    }

    /// Whether another moderator call is affordable; the error names the first
    /// limit that refuses it.
    pub fn check_moderator(&self) -> (r: Result<(), BudgetRejection>)
        ensures
            match self.moderator_rejection() {
                Some(why) => r == Err::<(), BudgetRejection>(why),
                None => r is Ok,
            },
    {
        if self.moderator_calls >= self.limits.max_moderator_calls {
            return Err(BudgetRejection::ModeratorCalls);
        }
        if self.total_tokens >= self.limits.max_total_tokens {
            return Err(BudgetRejection::Tokens);
        }
        if self.consecutive_failures >= self.limits.max_consecutive_failures
            || self.total_failures >= self.limits.max_total_failures
        {
            return Err(BudgetRejection::Failures);
        }
        Ok(())
    }

    /// `self` is `before` with one dispatch of `id` counted: one more step
    /// for the turn and for `id`, everything else as it was.
    pub open spec fn dispatch_recorded(&self, before: &TurnBudget, id: Seq<char>) -> bool {
        &&& self.same_except_steps(before)
        &&& self.spec_moderator_calls() == before.spec_moderator_calls()
        &&& self.spec_agent_steps() == sat_add_u32(before.spec_agent_steps(), 1)
        &&& self.steps_of(id) == sat_add_u32(before.steps_of(id), 1)
        &&& self.dispatched(id)
        &&& forall|other: Seq<char>| other != id ==> self.steps_of(other) == before.steps_of(other)
            && self.dispatched(other) == before.dispatched(other)
    }

    /// The step counters are within their limits: the turn's steps, every
    /// agent's steps and the moderator calls.
    pub open spec fn within_step_limits(&self) -> bool {
        &&& self.spec_agent_steps() <= self.spec_limits().max_agent_steps
        &&& forall|id: Seq<char>| #[trigger] self.steps_of(id) <= self.spec_limits().max_steps_per_agent
        &&& self.spec_moderator_calls() <= self.spec_limits().max_moderator_calls
    }

    /// Count one step for the turn and one for `target_agent_id`.
    pub fn record_dispatch(&mut self, target_agent_id: &str)
        ensures
            final(self).dispatch_recorded(old(self), target_agent_id@),
    {
        self.agent_steps = self.agent_steps.saturating_add(1);
        match self.find_entry(target_agent_id) {
            Some(i) => {
                let ghost before = self.steps_per_agent@;
                let key = self.steps_per_agent[i].0.clone();
                let count = self.steps_per_agent[i].1.saturating_add(1);
                self.steps_per_agent.set(i, (key, count));
                proof {
                    assert(self.steps_per_agent@ =~= before.update(i as int, (before[i as int].0, count)));
                    lemma_lookup_update(before, i as int, count, target_agent_id@, 0);
                    assert forall|other: Seq<char>| other != target_agent_id@ implies lookup_from(
                        self.steps_per_agent@,
                        other,
                        0,
                    ) == lookup_from(before, other, 0) by {
                        lemma_lookup_update(before, i as int, count, other, 0);
                    }
                }
            },
            None => {
                let ghost before = self.steps_per_agent@;
                let entry = (target_agent_id.to_owned(), 1u32);
                self.steps_per_agent.push(entry);
                proof {
                    lemma_lookup_push(before, entry, target_agent_id@, 0);
                    assert forall|other: Seq<char>| other != target_agent_id@ implies lookup_from(
                        self.steps_per_agent@,
                        other,
                        0,
                    ) == lookup_from(before, other, 0) by {
                        lemma_lookup_push(before, entry, other, 0);
                    }
                }
            },
        }
    }

    /// A successful step: its tokens count and the failure streak ends.
    pub fn record_completion(&mut self, tokens: u64)
        ensures
            final(self).spec_total_tokens() == sat_add_u64(old(self).spec_total_tokens(), tokens),
            final(self).spec_consecutive_failures() == 0,
            final(self).spec_total_failures() == old(self).spec_total_failures(),
            final(self).spec_limits() == old(self).spec_limits(),
            final(self).spec_agent_steps() == old(self).spec_agent_steps(),
            final(self).spec_moderator_calls() == old(self).spec_moderator_calls(),
            forall|id: Seq<char>| final(self).steps_of(id) == old(self).steps_of(id)
                && final(self).dispatched(id) == old(self).dispatched(id),
    {
        self.record_tokens(tokens);
        self.consecutive_failures = 0;
    }

    pub fn record_tokens(&mut self, tokens: u64)
        ensures
            final(self).spec_total_tokens() == sat_add_u64(old(self).spec_total_tokens(), tokens),
            final(self).spec_consecutive_failures() == old(self).spec_consecutive_failures(),
            final(self).spec_total_failures() == old(self).spec_total_failures(),
            final(self).spec_limits() == old(self).spec_limits(),
            final(self).spec_agent_steps() == old(self).spec_agent_steps(),
            final(self).spec_moderator_calls() == old(self).spec_moderator_calls(),
            forall|id: Seq<char>| final(self).steps_of(id) == old(self).steps_of(id)
                && final(self).dispatched(id) == old(self).dispatched(id),
    {
        self.total_tokens = self.total_tokens.saturating_add(tokens);
    }

    /// A failed step: both failure counters grow.
    pub fn record_failure(&mut self)
        ensures
            final(self).spec_consecutive_failures() == sat_add_u32(old(self).spec_consecutive_failures(), 1),
            final(self).spec_total_failures() == sat_add_u32(old(self).spec_total_failures(), 1),
            final(self).spec_total_tokens() == old(self).spec_total_tokens(),
            final(self).spec_limits() == old(self).spec_limits(),
            final(self).spec_agent_steps() == old(self).spec_agent_steps(),
            final(self).spec_moderator_calls() == old(self).spec_moderator_calls(),
            forall|id: Seq<char>| final(self).steps_of(id) == old(self).steps_of(id)
                && final(self).dispatched(id) == old(self).dispatched(id),
    {
        self.consecutive_failures = self.consecutive_failures.saturating_add(1);
        self.total_failures = self.total_failures.saturating_add(1);
    }

    /// Charge one moderator call and its tokens. A call over the call limit is
    /// refused without charging anything; a call that pushes the tokens past
    /// their limit is charged and then reported.
    pub fn record_moderator_usage(&mut self, tokens: u64) -> (r: Result<(), BudgetRejection>)
        ensures
            final(self).spec_limits() == old(self).spec_limits(),
            final(self).spec_agent_steps() == old(self).spec_agent_steps(),
            final(self).spec_consecutive_failures() == old(self).spec_consecutive_failures(),
            final(self).spec_total_failures() == old(self).spec_total_failures(),
            forall|id: Seq<char>| final(self).steps_of(id) == old(self).steps_of(id)
                && final(self).dispatched(id) == old(self).dispatched(id),
            old(self).spec_moderator_calls() >= old(self).spec_limits().max_moderator_calls ==> {
                &&& r == Err::<(), BudgetRejection>(BudgetRejection::ModeratorCalls)
                &&& final(self).spec_moderator_calls() == old(self).spec_moderator_calls()
                &&& final(self).spec_total_tokens() == old(self).spec_total_tokens()
            },
            old(self).spec_moderator_calls() < old(self).spec_limits().max_moderator_calls ==> {
                &&& final(self).spec_moderator_calls() == sat_add_u32(old(self).spec_moderator_calls(), 1)
                &&& final(self).spec_total_tokens() == sat_add_u64(old(self).spec_total_tokens(), tokens)
                &&& (final(self).spec_total_tokens() > old(self).spec_limits().max_total_tokens
                    ==> r == Err::<(), BudgetRejection>(BudgetRejection::Tokens))
                &&& (final(self).spec_total_tokens() <= old(self).spec_limits().max_total_tokens
                    ==> r is Ok)
            },
    {
        if self.moderator_calls >= self.limits.max_moderator_calls {
            return Err(BudgetRejection::ModeratorCalls);
        }
        self.moderator_calls = self.moderator_calls.saturating_add(1);
        self.total_tokens = self.total_tokens.saturating_add(tokens);
        if self.total_tokens > self.limits.max_total_tokens {
            return Err(BudgetRejection::Tokens);
        }
        Ok(())
    }
}

/// A fresh budget is within its step limits.
pub proof fn lemma_fresh_budget_is_within_limits(b: TurnBudget)
    requires
        b.spec_agent_steps() == 0,
        b.spec_moderator_calls() == 0,
        forall|id: Seq<char>| #[trigger] b.steps_of(id) == 0,
    ensures
        b.within_step_limits(),
{
}

/// Dispatching only what `check_dispatch` lets through keeps a turn within
/// its step limits: a budget within them, with a dispatch of `id` at `hop`
/// that passed the check and was then recorded, is still within them, and
/// the hop was within the hop limit.
pub proof fn lemma_checked_dispatch_stays_within_limits(before: TurnBudget, after: TurnBudget, id: Seq<char>, hop: u32)
    requires
        before.within_step_limits(),
        before.dispatch_rejection(id, hop) is None,
        after.dispatch_recorded(&before, id),
    ensures
        after.within_step_limits(),
        hop <= after.spec_limits().max_hops,
        after.spec_agent_steps() == before.spec_agent_steps() + 1,
{
    assert forall|other: Seq<char>| #[trigger] after.steps_of(other) <= after.spec_limits().max_steps_per_agent by {
        if other != id {
            assert(before.steps_of(other) <= before.spec_limits().max_steps_per_agent);
        }
    }
}

/// Charging the moderator through `record_moderator_usage` keeps a turn
/// within its step limits, whether the charge is accepted or refused.
pub proof fn lemma_moderator_charge_stays_within_limits(before: TurnBudget, after: TurnBudget)
    requires
        before.within_step_limits(),
        after.spec_limits() == before.spec_limits(),
        after.spec_agent_steps() == before.spec_agent_steps(),
        forall|id: Seq<char>| #[trigger] after.steps_of(id) == before.steps_of(id),
        before.spec_moderator_calls() >= before.spec_limits().max_moderator_calls ==> after.spec_moderator_calls()
            == before.spec_moderator_calls(),
        before.spec_moderator_calls() < before.spec_limits().max_moderator_calls ==> after.spec_moderator_calls()
            == sat_add_u32(before.spec_moderator_calls(), 1),
    ensures
        after.within_step_limits(),
{
    assert forall|id: Seq<char>| #[trigger] after.steps_of(id) <= after.spec_limits().max_steps_per_agent by {
        assert(before.steps_of(id) <= before.spec_limits().max_steps_per_agent);
    }
}

} // verus!
