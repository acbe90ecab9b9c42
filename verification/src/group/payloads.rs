use vstd::prelude::*;

use crate::scheduler::budget::{BudgetLimits, TurnBudget};
use crate::text::{decimal, push_decimal};

verus! {

/// `true` or `false` as JSON.
pub open spec fn json_bool(b: bool) -> Seq<char> {
    if b { "true"@ } else { "false"@ }
}

/// A turn's budget limits as JSON, its keys in byte order, with whether the
/// turn runs without them.
pub open spec fn limits_json(l: BudgetLimits, unbounded: bool) -> Seq<char> {
    "{\"max_agent_steps\":"@ + decimal(l.max_agent_steps as nat) + ",\"max_consecutive_failures\":"@ + decimal(
        l.max_consecutive_failures as nat,
    ) + ",\"max_hops\":"@ + decimal(l.max_hops as nat) + ",\"max_moderator_calls\":"@ + decimal(
        l.max_moderator_calls as nat,
    ) + ",\"max_steps_per_agent\":"@ + decimal(l.max_steps_per_agent as nat) + ",\"max_total_failures\":"@
        + decimal(l.max_total_failures as nat) + ",\"max_total_tokens\":"@ + decimal(l.max_total_tokens as nat)
        + ",\"unbounded\":"@ + json_bool(unbounded) + "}"@
}

fn push_bool(out: &mut String, b: bool)
    ensures
        final(out)@ == old(out)@ + json_bool(b),
{
    if b {
        out.append("true");
    } else {
        out.append("false");
    }
}

fn push_limits(out: &mut String, limits: &BudgetLimits, unbounded: bool)
    ensures
        final(out)@ == old(out)@ + limits_json(*limits, unbounded),
{
    let ghost start = out@;
    out.append("{\"max_agent_steps\":");
    push_decimal(out, limits.max_agent_steps as u64);
    out.append(",\"max_consecutive_failures\":");
    push_decimal(out, limits.max_consecutive_failures as u64);
    out.append(",\"max_hops\":");
    push_decimal(out, limits.max_hops as u64);
    out.append(",\"max_moderator_calls\":");
    push_decimal(out, limits.max_moderator_calls as u64);
    let ghost half = "{\"max_agent_steps\":"@ + decimal(limits.max_agent_steps as nat)
        + ",\"max_consecutive_failures\":"@ + decimal(limits.max_consecutive_failures as nat) + ",\"max_hops\":"@
        + decimal(limits.max_hops as nat) + ",\"max_moderator_calls\":"@ + decimal(limits.max_moderator_calls as nat);
    assert(out@ =~= start + half);
    out.append(",\"max_steps_per_agent\":");
    push_decimal(out, limits.max_steps_per_agent as u64);
    out.append(",\"max_total_failures\":");
    push_decimal(out, limits.max_total_failures as u64);
    out.append(",\"max_total_tokens\":");
    push_decimal(out, limits.max_total_tokens);
    out.append(",\"unbounded\":");
    push_bool(out, unbounded);
    out.append("}");
    let ghost rest = ",\"max_steps_per_agent\":"@ + decimal(limits.max_steps_per_agent as nat)
        + ",\"max_total_failures\":"@ + decimal(limits.max_total_failures as nat) + ",\"max_total_tokens\":"@
        + decimal(limits.max_total_tokens as nat) + ",\"unbounded\":"@ + json_bool(unbounded) + "}"@;
    assert(out@ =~= start + half + rest);
    assert(half + rest =~= limits_json(*limits, unbounded));
}

/// The budget limits an event reports, as JSON text.
pub fn budget_limits_payload(limits: &BudgetLimits, unbounded: bool) -> (r: String)
    ensures
        r@ == limits_json(*limits, unbounded),
{
    let mut out = String::new();
    push_limits(&mut out, limits, unbounded);
    out
}

/// A turn's budget as JSON, its keys in byte order: what it has spent, and
/// its limits.
pub open spec fn budget_json(b: TurnBudget, unbounded: bool) -> Seq<char> {
    "{\"agent_steps\":"@ + decimal(b.spec_agent_steps() as nat) + ",\"consecutive_failures\":"@ + decimal(
        b.spec_consecutive_failures() as nat,
    ) + ",\"limits\":"@ + limits_json(b.spec_limits(), unbounded) + ",\"moderator_calls\":"@ + decimal(
        b.spec_moderator_calls() as nat,
    ) + ",\"total_failures\":"@ + decimal(b.spec_total_failures() as nat) + ",\"total_tokens\":"@ + decimal(
        b.spec_total_tokens() as nat,
    ) + "}"@
}

/// The budget a terminal event reports, as JSON text; `unbounded` says
/// whether the turn ran without limits.
pub fn turn_budget_payload(budget: &TurnBudget, unbounded: bool) -> (r: String)
    ensures
        r@ == budget_json(*budget, unbounded),
{
    let mut out = "{\"agent_steps\":".to_owned();
    push_decimal(&mut out, budget.agent_steps() as u64);
    out.append(",\"consecutive_failures\":");
    push_decimal(&mut out, budget.consecutive_failures() as u64);
    out.append(",\"limits\":");
    let limits = budget.limits();
    push_limits(&mut out, &limits, unbounded);
    out.append(",\"moderator_calls\":");
    push_decimal(&mut out, budget.moderator_calls() as u64);
    out.append(",\"total_failures\":");
    push_decimal(&mut out, budget.total_failures() as u64);
    out.append(",\"total_tokens\":");
    push_decimal(&mut out, budget.total_tokens());
    out.append("}");
    out
}

} // verus!
