use vstd::prelude::*;

use crate::text::chars_of;
use crate::compaction::message::{ChatMessage, MessageModel, models, role_is};
use crate::compaction::tokens::{cap_i64, estimate_tokens_from, messages_tokens};

verus! {


/// Turns at the end of the thread that are never pruned or summarized under
/// normal pressure.
pub const RETAINED_TAIL_TURNS: usize = 8;

/// The retained tail in emergency and overflow mode: only the most recent
/// couple of turns survive intact.
pub const EMERGENCY_RETAINED_TAIL_TURNS: usize = 2;

/// The longest opening user message compaction will pin.
pub const MAX_PINNED_TASK_CHARS: usize = 4_000;

/// Why compaction is being considered.
#[derive(Debug, Clone, Copy, PartialEq, Eq, Structural)]
pub enum CompactionTrigger {
    /// The estimated request is approaching the window.
    Pressure,
    /// The estimate is past the emergency threshold; the tail is squeezed.
    Emergency,
    /// The provider rejected the request as too long; compaction runs whatever
    /// the estimate says.
    Overflow,
}

/// The window a thread has to fit into.
#[derive(Debug, Clone, Copy, PartialEq, Eq, Structural)]
pub struct CompactionLimits {
    /// Tokens available for the message list, after the provider's output
    /// reserve and the fixed per-request overhead.
    pub usable_tokens: i64,
}

/// `pct` percent of `x`, rounded toward zero.
pub open spec fn scaled(x: int, pct: int) -> int {
    if x >= 0 {
        x * pct / 100
    } else {
        -((-x) * pct / 100)
    }
}

fn scale(x: i64, pct: u64) -> (r: i64)
    requires
        pct <= 100,
    ensures
        r == scaled(x as int, pct as int),
{
    let wide: i128 = x as i128;
    let mag: u128 = if wide >= 0 { wide as u128 } else { (-wide) as u128 };
    assert(mag <= 0x8000_0000_0000_0000);
    assert(mag * (pct as u128) <= 0x8000_0000_0000_0000 * 100) by (nonlinear_arith)
        requires
            mag <= 0x8000_0000_0000_0000,
            pct <= 100,
    ;
    let prod: u128 = mag * (pct as u128);
    assert(prod <= mag * 100) by (nonlinear_arith)
        requires
            prod == mag * pct,
            pct <= 100,
    ;
    let q: u128 = prod / 100;
    assert(q <= mag);
    if wide >= 0 {
        q as i64
    } else {
        (-(q as i128)) as i64
    }
}

impl CompactionLimits {
    /// Limits from a declared window, or `None` when none is declared (a
    /// window of zero or less counts as none). `reserve_tokens` is the output
    /// reserve; `fixed_overhead_tokens` is what the request carries besides its
    /// messages (a negative overhead counts as zero). The budget left is never
    /// below one token.
    pub fn from_window(context_window_tokens: Option<i64>, reserve_tokens: i64, fixed_overhead_tokens: i64) -> (r:
        Option<Self>)
        requires
            0 <= reserve_tokens,
            context_window_tokens matches Some(w) ==> reserve_tokens <= w,
        ensures
            match context_window_tokens {
                Some(w) if w > 0 => r matches Some(l) && l.usable_tokens == (if w - reserve_tokens - (if fixed_overhead_tokens > 0 { fixed_overhead_tokens as int } else { 0 }) >= 1 {
                    w - reserve_tokens - (if fixed_overhead_tokens > 0 { fixed_overhead_tokens as int } else { 0 })
                } else {
                    1
                }),
                _ => r is None,
            },
    {
        let window = match context_window_tokens {
            Some(w) => w,
            None => return None,
        };
        if window <= 0 {
            return None;
        }
        let overhead: i64 = if fixed_overhead_tokens > 0 { fixed_overhead_tokens } else { 0 };
        let left: i64 = window - reserve_tokens - overhead;
        Some(CompactionLimits { usable_tokens: if left >= 1 { left } else { 1 } })
    }

    /// Tokens above which pressure compaction runs: 75% of the window.
    pub fn pressure_threshold(&self) -> (r: i64)
        ensures
            r == scaled(self.usable_tokens as int, 75),
    {
        scale(self.usable_tokens, 75)
    }

    /// Tokens above which the emergency tier runs: 92% of the window.
    pub fn emergency_threshold(&self) -> (r: i64)
        ensures
            r == scaled(self.usable_tokens as int, 92),
    {
        scale(self.usable_tokens, 92)
    }

    /// Tokens a compaction aims to land under: 55% of the window.
    pub fn target(&self) -> (r: i64)
        ensures
            r == scaled(self.usable_tokens as int, 55),
    {
        scale(self.usable_tokens, 55)
    }

    /// Tokens the retained tail may occupy before its tool results are
    /// pruned: 40% of the window.
    pub fn tail_ceiling(&self) -> (r: i64)
        ensures
            r == scaled(self.usable_tokens as int, 40),
    {
        scale(self.usable_tokens, 40)
    }
}

/// For a window of any non-negative size the thresholds are ordered: the
/// tail ceiling sits under the target, the target under the pressure
/// threshold, that under the emergency threshold, and all within the window;
/// from six tokens up the emergency threshold is strictly above the pressure
/// one.
pub proof fn lemma_thresholds_are_ordered(usable: i64)
    requires
        usable >= 0,
    ensures
        0 <= scaled(usable as int, 40) <= scaled(usable as int, 55),
        scaled(usable as int, 55) <= scaled(usable as int, 75),
        scaled(usable as int, 75) <= scaled(usable as int, 92),
        scaled(usable as int, 92) <= usable,
        usable >= 6 ==> scaled(usable as int, 75) < scaled(usable as int, 92),
{
    let x = usable as int;
    assert(x * 40 / 100 <= x * 55 / 100) by (nonlinear_arith)
        requires
            x >= 0,
    ;
    assert(x * 55 / 100 <= x * 75 / 100) by (nonlinear_arith)
        requires
            x >= 0,
    ;
    assert(x * 75 / 100 <= x * 92 / 100) by (nonlinear_arith)
        requires
            x >= 0,
    ;
    assert(x * 92 / 100 <= x) by (nonlinear_arith)
        requires
            x >= 0,
    ;
    assert(0 <= x * 40 / 100) by (nonlinear_arith)
        requires
            x >= 0,
    ;
    assert(x >= 6 ==> x * 75 / 100 < x * 92 / 100) by (nonlinear_arith)
        requires
            x >= 0,
    ;
}

/// The number of leading messages compaction never touches: the system
/// prompt, and the opening user message when it is short enough to pin.
pub open spec fn prefix_len(ms: Seq<MessageModel>) -> int {
    if ms.len() > 1 && ms[1].role == "user"@ && ms[1].content.len() <= MAX_PINNED_TASK_CHARS {
        2
    } else {
        1
    }
}

/// The number of leading messages compaction never touches.
pub fn preserved_prefix(messages: &[ChatMessage]) -> (r: usize)
    ensures
        r == prefix_len(models(messages@)),
{
    if messages.len() > 1 && role_is(&messages[1], "user") && chars_of(messages[1].content.as_str()).len()
        <= MAX_PINNED_TASK_CHARS {
        2
    } else {
        1
    }
}

/// Whether message `i` can start the retained tail without cutting a turn in
/// two: a tool result never can; an assistant message can when it makes calls
/// or does not follow a tool result; anything else can.
pub open spec fn turn_head(ms: Seq<MessageModel>, i: int) -> bool {
    if ms[i].role == "assistant"@ {
        ms[i].tool_calls.len() > 0 || i == 0 || ms[i - 1].role != "tool"@
    } else {
        ms[i].role != "tool"@
    }
}

/// Whether `index` can start the retained tail without cutting a turn in two.
pub fn is_turn_head(messages: &[ChatMessage], index: usize) -> (r: bool)
    requires
        index < models(messages@).len(),
    ensures
        r == turn_head(models(messages@), index as int),
{
    if role_is(&messages[index], "assistant") {
        messages[index].tool_calls.len() > 0 || index == 0 || !role_is(&messages[index - 1], "tool")
    } else {
        !role_is(&messages[index], "tool")
    }
}

/// A tool result never starts a turn.
pub proof fn lemma_tool_result_is_not_a_turn_head(ms: Seq<MessageModel>, i: int)
    requires
        0 <= i < ms.len(),
        ms[i].role == "tool"@,
    ensures
        !turn_head(ms, i),
{
    reveal_strlit("tool");
    reveal_strlit("assistant");
    assert("tool"@[0] != "assistant"@[0]);
}

/// The turn heads in `[start, end)`, in increasing order.
pub open spec fn heads_between(ms: Seq<MessageModel>, start: int, end: int) -> Seq<int>
    decreases end - start,
{
    if end <= start {
        Seq::empty()
    } else if turn_head(ms, end - 1) {
        heads_between(ms, start, end - 1).push(end - 1)
    } else {
        heads_between(ms, start, end - 1)
    }
}

/// Every listed head lies in `[start, end)`, is a turn head, and the list
/// is strictly increasing.
pub proof fn lemma_heads_between(ms: Seq<MessageModel>, start: int, end: int)
    ensures
        forall|k: int| 0 <= k < heads_between(ms, start, end).len() ==> start <= #[trigger] heads_between(ms, start, end)[k] < end
            && turn_head(ms, heads_between(ms, start, end)[k]),
        forall|a: int, b: int| 0 <= a < b < heads_between(ms, start, end).len() ==> #[trigger] heads_between(ms, start, end)[a]
            < #[trigger] heads_between(ms, start, end)[b],
    decreases end - start,
{
    if end > start {
        lemma_heads_between(ms, start, end - 1);
        let prev = heads_between(ms, start, end - 1);
        if turn_head(ms, end - 1) {
            let h = prev.push(end - 1);
            assert(heads_between(ms, start, end) == h);
            assert forall|k: int| 0 <= k < h.len() implies start <= #[trigger] h[k] < end && turn_head(ms, h[k]) by {
                if k < prev.len() {
                    assert(h[k] == prev[k]);
                }
            }
            assert forall|a: int, b: int| 0 <= a < b < h.len() implies #[trigger] h[a] < #[trigger] h[b] by {
                assert(h[a] == prev[a]);
                if b < prev.len() {
                    assert(h[b] == prev[b]);
                }
            }
        }
    }
}

/// Where the retained tail begins when it keeps `turns` turns: the `turns`-th
/// turn head from the end, or just after the preserved prefix when there are
/// no more turns than that.
pub open spec fn tail_start_spec(ms: Seq<MessageModel>, turns: int) -> int {
    let start = prefix_len(ms);
    let heads = heads_between(ms, start, ms.len() as int);
    if heads.len() <= turns {
        start
    } else {
        heads[heads.len() - turns]
    }
}

/// The turns the retained tail keeps for a trigger.
pub open spec fn tail_turns(trigger: CompactionTrigger) -> int {
    match trigger {
        CompactionTrigger::Pressure => RETAINED_TAIL_TURNS as int,
        _ => EMERGENCY_RETAINED_TAIL_TURNS as int,
    }
}

/// The message index at which the retained tail begins for a trigger.
pub fn retained_tail_start(messages: &[ChatMessage], trigger: CompactionTrigger) -> (r: usize)
    ensures
        r == tail_start_spec(models(messages@), tail_turns(trigger)),
{
    let turns: usize = match trigger {
        CompactionTrigger::Pressure => RETAINED_TAIL_TURNS,
        _ => EMERGENCY_RETAINED_TAIL_TURNS,
    };
    let start = preserved_prefix(messages);
    let mut heads: Vec<usize> = Vec::new();
    let mut index: usize = start;
    let n = messages.len();
    while index < n
        invariant
            n == models(messages@).len(),
            start == prefix_len(models(messages@)),
            start <= index,
            index <= n || index == start,
            heads@.map_values(|h: usize| h as int) == heads_between(models(messages@), start as int, index as int),
        decreases n - index,
    {
        let ghost before = heads@;
        if is_turn_head(messages, index) {
            heads.push(index);
            assert(heads@.map_values(|h: usize| h as int) =~= before.map_values(|h: usize| h as int).push(index as int));
        }
        index = index + 1;
    }
    proof {
        if n < start {
            assert(heads_between(models(messages@), start as int, n as int) =~= Seq::<int>::empty());
            assert(heads_between(models(messages@), start as int, index as int) =~= Seq::<int>::empty());
        }
    }
    assert(heads@.map_values(|h: usize| h as int) =~= heads_between(models(messages@), start as int, n as int)) by {
        if n < start {
            assert(heads_between(models(messages@), start as int, n as int) =~= Seq::<int>::empty());
        }
    }
    if heads.len() <= turns {
        start
    } else {
        heads[heads.len() - turns]
    }
}

/// The retained tail begins at the preserved prefix or on a turn head, never
/// before the prefix; and under emergency or overflow it begins no earlier
/// than under pressure.
pub proof fn lemma_tail_starts_on_a_turn(ms: Seq<MessageModel>)
    ensures
        forall|t: CompactionTrigger| {
            let s = #[trigger] tail_start_spec(ms, tail_turns(t));
            &&& prefix_len(ms) <= s
            &&& (s == prefix_len(ms) || (s < ms.len() && turn_head(ms, s)))
        },
        tail_start_spec(ms, tail_turns(CompactionTrigger::Pressure)) <= tail_start_spec(
            ms,
            tail_turns(CompactionTrigger::Emergency),
        ),
        tail_start_spec(ms, tail_turns(CompactionTrigger::Emergency)) == tail_start_spec(
            ms,
            tail_turns(CompactionTrigger::Overflow),
        ),
{
    lemma_heads_between(ms, prefix_len(ms), ms.len() as int);
    let heads = heads_between(ms, prefix_len(ms), ms.len() as int);
    if heads.len() > 8 {
        assert(heads[heads.len() - 8] < heads[heads.len() - 2]);
    } else if heads.len() > 2 {
        assert(prefix_len(ms) <= heads[heads.len() - 2]);
    }
}

/// Step `end` back towards `start` to the start of the turn it touches.
pub open spec fn retreat_spec(ms: Seq<MessageModel>, end: int, start: int) -> int
    decreases end - start,
{
    if end > start && !turn_head(ms, end) {
        retreat_spec(ms, end - 1, start)
    } else {
        end
    }
}

/// Step `end` forward past the turn it touches.
pub open spec fn advance_spec(ms: Seq<MessageModel>, end: int) -> int
    decreases ms.len() - end,
{
    if 0 <= end < ms.len() && !turn_head(ms, end) {
        advance_spec(ms, end + 1)
    } else {
        end
    }
}

pub proof fn lemma_retreat(ms: Seq<MessageModel>, end: int, start: int)
    requires
        0 <= start,
        end < ms.len() || end <= start,
    ensures
        retreat_spec(ms, end, start) <= end,
        end > start ==> start <= retreat_spec(ms, end, start),
        retreat_spec(ms, end, start) > start ==> turn_head(ms, retreat_spec(ms, end, start)),
    decreases end - start,
{
    if end > start && !turn_head(ms, end) {
        lemma_retreat(ms, end - 1, start);
    }
}

pub proof fn lemma_advance(ms: Seq<MessageModel>, end: int)
    requires
        0 <= end,
    ensures
        end <= advance_spec(ms, end),
        end <= ms.len() ==> advance_spec(ms, end) <= ms.len(),
        advance_spec(ms, end) < ms.len() ==> turn_head(ms, advance_spec(ms, end)),
    decreases ms.len() - end,
{
    if 0 <= end < ms.len() && !turn_head(ms, end) {
        lemma_advance(ms, end + 1);
    }
}

/// Step `end` back to the start of the turn it touches, if it touches one.
pub fn retreat_to_turn_head(messages: &[ChatMessage], end: usize, start: usize) -> (r: usize)
    requires
        end < models(messages@).len() || end <= start,
    ensures
        r == retreat_spec(models(messages@), end as int, start as int),
{
    let mut e = end;
    while e > start && !is_turn_head(messages, e)
        invariant
            e <= end,
            end < models(messages@).len() || end <= start,
            retreat_spec(models(messages@), e as int, start as int) == retreat_spec(models(messages@), end as int, start as int),
        decreases e,
    {
        e = e - 1;
    }
    e
}

/// Step `end` forward past the turn it touches so the whole turn goes.
pub fn advance_to_turn_head(messages: &[ChatMessage], end: usize) -> (r: usize)
    ensures
        r == advance_spec(models(messages@), end as int),
{
    let mut e = end;
    while e < messages.len() && !is_turn_head(messages, e)
        invariant
            end <= e,
            advance_spec(models(messages@), e as int) == advance_spec(models(messages@), end as int),
        decreases models(messages@).len() - e,
    {
        e = e + 1;
    }
    e
}

/// The span replaced by a summary, as `(start, end)`: it starts after the
/// preserved prefix; its end is the raw boundary snapped back to a turn start
/// when that leaves more than one message to summarize and a tail within the
/// target, and otherwise snapped forward past the straddling turn. No span
/// when it would hold fewer than two messages.
pub open spec fn span_spec(ms: Seq<MessageModel>, raw: int, target: int) -> Option<(int, int)> {
    let start = prefix_len(ms);
    let retreat = retreat_spec(ms, raw, start);
    let advance = advance_spec(ms, raw);
    let keep_tail = retreat > start + 1 && cap_i64(messages_tokens(ms.subrange(retreat, ms.len() as int))) <= target;
    let end = if keep_tail { retreat } else { advance };
    if end > start + 1 {
        Some((start, end))
    } else {
        None
    }
}

/// The span of messages to replace with a summary.
pub fn select_span(messages: &[ChatMessage], raw: usize, limits: CompactionLimits) -> (r: Option<
    core::ops::Range<usize>,
>)
    requires
        raw < models(messages@).len() || raw <= prefix_len(models(messages@)),
    ensures
        match span_spec(models(messages@), raw as int, scaled(limits.usable_tokens as int, 55)) {
            Some((s, e)) => r matches Some(range) && range.start == s && range.end == e,
            None => r is None,
        },
{
    let start = preserved_prefix(messages);
    let retreat = retreat_to_turn_head(messages, raw, start);
    let advance = advance_to_turn_head(messages, raw);
    proof {
        lemma_retreat(models(messages@), raw as int, start as int);
    }
    let keep_tail = retreat > start + 1 && estimate_tokens_from(messages, retreat) <= limits.target();
    let end = if keep_tail { retreat } else { advance };
    if end > start + 1 {
        Some(core::ops::Range { start: start, end: end })
    } else {
        None
    }
}

/// A summarized span starts right after the preserved prefix, holds at least
/// two messages, and ends on a turn head or at the end of the thread, so the
/// retained tail never begins with a tool result; a raw boundary that is
/// already a turn start past the prefix is kept as it is.
pub proof fn lemma_span_respects_turns(ms: Seq<MessageModel>, raw: int, target: int)
    requires
        0 <= raw,
        raw < ms.len() || raw <= prefix_len(ms),
    ensures
        span_spec(ms, raw, target) matches Some((s, e)) ==> {
            &&& s == prefix_len(ms)
            &&& s + 1 < e <= ms.len()
            &&& (e == ms.len() || turn_head(ms, e))
            &&& (e < ms.len() ==> ms[e].role != "tool"@)
        },
        raw < ms.len() && raw > prefix_len(ms) + 1 && turn_head(ms, raw) ==> (span_spec(ms, raw, target) matches Some((
            _,
            e,
        )) && e == raw),
{
    let start = prefix_len(ms);
    lemma_retreat(ms, raw, start);
    lemma_advance(ms, raw);
    if let Some((s, e)) = span_spec(ms, raw, target) {
        if e < ms.len() && ms[e].role == "tool"@ {
            lemma_tool_result_is_not_a_turn_head(ms, e);
        }
    }
}



} // verus!
