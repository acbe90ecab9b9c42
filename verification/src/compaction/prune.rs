use vstd::prelude::*;

use crate::text::{chars_of, chars_range, decimal, lemma_decimal_len, push_decimal, string_from_chars};
use crate::compaction::message::{ChatMessage, MessageModel, models, role_is, with_content};
use crate::compaction::tokens::{cap_i64, estimate_tokens_from, messages_tokens};
use crate::compaction::turns::{CompactionLimits, scaled};

verus! {

/// A tool result longer than this is pruned once it leaves the retained tail.
pub const MAX_RETAINED_TOOL_RESULT_CHARS: usize = 4_000;

/// A tool result in the retained tail longer than this is pruned once the tail
/// exceeds its token ceiling.
pub const TAIL_RETAINED_TOOL_RESULT_CHARS: usize = 8_000;

/// Characters of a pruned tool result kept from the start.
pub const PRUNE_HEAD_CHARS: usize = 1_200;

/// Characters of a pruned tool result kept from the end.
pub const PRUNE_TAIL_CHARS: usize = 2_000;

/// The line standing in for the elided middle of a tool result.
pub open spec fn elision_notice(elided: nat) -> Seq<char> {
    "\n[... "@ + decimal(elided)
        + " characters elided from this tool result to stay inside the context window; re-run the tool if you need the middle ...]\n"@
}

/// `text` with its middle elided when it is longer than `max_chars`: the first
/// 1 200 and last 2 000 characters survive around a notice.
pub open spec fn pruned_text(text: Seq<char>, max_chars: int) -> Option<Seq<char>> {
    let total = text.len() as int;
    if total <= max_chars {
        None
    } else {
        Some(text.take(PRUNE_HEAD_CHARS as int) + elision_notice((total - PRUNE_HEAD_CHARS - PRUNE_TAIL_CHARS) as nat)
            + text.skip(total - PRUNE_TAIL_CHARS))
    }
}

/// Keep the head and tail of `text`, replacing the middle with a marker, when
/// it is longer than `max_chars`.
pub fn prune_text_budget(text: &str, max_chars: usize) -> (r: Option<String>)
    requires
        text@.len() <= max_chars || text@.len() >= PRUNE_HEAD_CHARS + PRUNE_TAIL_CHARS,
    ensures
        match pruned_text(text@, max_chars as int) {
            Some(t) => r matches Some(s) && s@ == t,
            None => r is None,
        },
{
    let v = chars_of(text);
    let total = v.len();
    if total <= max_chars {
        return None;
    }
    let head = chars_range(v.as_slice(), 0, PRUNE_HEAD_CHARS);
    let mut out = string_from_chars(head.as_slice());
    out.append("\n[... ");
    push_decimal(&mut out, (total - PRUNE_HEAD_CHARS - PRUNE_TAIL_CHARS) as u64);
    out.append(
        " characters elided from this tool result to stay inside the context window; re-run the tool if you need the middle ...]\n",
    );
    let tail = string_from_chars(chars_range(v.as_slice(), total - PRUNE_TAIL_CHARS, total).as_slice());
    out.append(tail.as_str());
    assert(v@.subrange(0, PRUNE_HEAD_CHARS as int) =~= v@.take(PRUNE_HEAD_CHARS as int));
    assert(v@.subrange(total - PRUNE_TAIL_CHARS, total as int) =~= v@.skip(total - PRUNE_TAIL_CHARS));
    assert(out@ =~= pruned_text(text@, max_chars as int)->0);
    Some(out)
}

/// A pruned result is shorter than the unpruned text once the threshold is at least
/// the prefix threshold.
proof fn lemma_pruned_is_shorter(text: Seq<char>, max_chars: int)
    requires
        max_chars >= MAX_RETAINED_TOOL_RESULT_CHARS,
        text.len() > max_chars,
    ensures
        pruned_text(text, max_chars)->0.len() < text.len(),
{
    let total = text.len() as int;
    let elided = (total - 3200) as nat;
    lemma_decimal_len(elided);
    reveal_strlit("\n[... ");
    reveal_strlit(
        " characters elided from this tool result to stay inside the context window; re-run the tool if you need the middle ...]\n",
    );
}


/// Whether `m` is a tool result that pruning at `max_chars` elides: longer than
/// the threshold and not a checklist.
pub open spec fn prunable(m: MessageModel, max_chars: int) -> bool {
    m.role == "tool"@ && m.todos is None && m.content.len() > max_chars
}

/// The content `m` has after pruning at `max_chars`.
pub open spec fn pruned_content(m: MessageModel, max_chars: int) -> Seq<char> {
    if prunable(m, max_chars) {
        pruned_text(m.content, max_chars)->0
    } else {
        m.content
    }
}

/// `m` after pruning at `max_chars`.
pub open spec fn pruned(m: MessageModel, max_chars: int) -> MessageModel {
    with_content(m, pruned_content(m, max_chars))
}

/// Characters pruning at `max_chars` removes from `m`.
pub open spec fn prune_gain(m: MessageModel, max_chars: int) -> int {
    m.content.len() - pruned_content(m, max_chars).len()
}

/// Pruning leaves a message that is not prunable exactly as it was, and
/// shortens one that is.
pub proof fn lemma_pruned(m: MessageModel, max_chars: int)
    requires
        max_chars >= MAX_RETAINED_TOOL_RESULT_CHARS,
    ensures
        !prunable(m, max_chars) ==> pruned(m, max_chars) == m,
        prunable(m, max_chars) ==> 0 < prune_gain(m, max_chars) <= m.content.len(),
        !prunable(m, max_chars) ==> prune_gain(m, max_chars) == 0,
{
    if prunable(m, max_chars) {
        lemma_pruned_is_shorter(m.content, max_chars);
    } else {
        assert(pruned(m, max_chars) =~= m);
    }
}

/// Prune one message in place, returning how many results were pruned (zero or
/// one) and how many characters were removed. A checklist is never touched,
/// and short results pass through.
pub fn prune_tool_result(message: &mut ChatMessage, max_chars: usize) -> (r: (usize, usize))
    requires
        max_chars >= MAX_RETAINED_TOOL_RESULT_CHARS,
    ensures
        final(message)@ == pruned(old(message)@, max_chars as int),
        prunable(old(message)@, max_chars as int) ==> r.0 == 1 && r.1 == prune_gain(old(message)@, max_chars as int),
        !prunable(old(message)@, max_chars as int) ==> r.0 == 0 && r.1 == 0,
{
    proof {
        lemma_pruned(message@, max_chars as int);
    }
    if !role_is(message, "tool") {
        return (0, 0);
    }
    if message.todos.is_some() {
        return (0, 0);
    }
    let total = chars_of(message.content.as_str()).len();
    if total <= max_chars {
        return (0, 0);
    }
    match prune_text_budget(message.content.as_str(), max_chars) {
        Some(pruned_text) => {
            let kept = chars_of(pruned_text.as_str()).len();
            message.content = pruned_text;
            assert(message@ =~= pruned(old(message)@, max_chars as int));
            (1, total - kept)
        },
        None => (0, 0),
    }
}

/// The threshold message `j` is pruned at when the tail starts at `t`.
pub open spec fn threshold_at(t: int, j: int) -> int {
    if j < t {
        MAX_RETAINED_TOOL_RESULT_CHARS as int
    } else {
        TAIL_RETAINED_TOOL_RESULT_CHARS as int
    }
}

/// The thread after pruning its first `n` messages, each at its threshold.
pub open spec fn pruned_upto(ms: Seq<MessageModel>, t: int, n: int) -> Seq<MessageModel> {
    Seq::new(ms.len(), |j: int| if j < n { pruned(ms[j], threshold_at(t, j)) } else { ms[j] })
}

/// Where pruning inside the tail stops: at the first index from `k` on where
/// the tail, as pruned so far, fits under `ceiling`, or at the end.
pub open spec fn tail_stop(ms: Seq<MessageModel>, t: int, k: int, ceiling: int) -> int
    decreases ms.len() - k,
{
    if k >= ms.len() || cap_i64(messages_tokens(pruned_upto(ms, t, k).subrange(t, ms.len() as int))) <= ceiling {
        k
    } else {
        tail_stop(ms, t, k + 1, ceiling)
    }
}

/// Results pruned among the first `n` messages.
pub open spec fn pruned_count(ms: Seq<MessageModel>, t: int, n: int) -> int
    decreases n,
{
    if n <= 0 {
        0
    } else {
        pruned_count(ms, t, n - 1) + if prunable(ms[n - 1], threshold_at(t, n - 1)) { 1int } else { 0int }
    }
}

/// Characters pruning removes from the first `n` messages.
pub open spec fn pruned_chars(ms: Seq<MessageModel>, t: int, n: int) -> int
    decreases n,
{
    if n <= 0 {
        0
    } else {
        pruned_chars(ms, t, n - 1) + prune_gain(ms[n - 1], threshold_at(t, n - 1))
    }
}

/// Characters of content in the first `n` messages.
pub open spec fn chars_upto(ms: Seq<MessageModel>, n: int) -> int
    decreases n,
{
    if n <= 0 {
        0
    } else {
        chars_upto(ms, n - 1) + ms[n - 1].content.len()
    }
}

/// Characters of content in the whole thread.
pub open spec fn total_chars(ms: Seq<MessageModel>) -> int {
    chars_upto(ms, ms.len() as int)
}

pub proof fn lemma_chars_upto_monotone(ms: Seq<MessageModel>, a: int, b: int)
    requires
        0 <= a <= b <= ms.len(),
    ensures
        chars_upto(ms, a) <= chars_upto(ms, b),
    decreases b - a,
{
    if a < b {
        lemma_chars_upto_monotone(ms, a, b - 1);
    }
}

/// Characters of the first `n` messages depend on those messages only.
pub proof fn lemma_chars_upto_take(ms: Seq<MessageModel>, n: int)
    requires
        0 <= n <= ms.len(),
    ensures
        chars_upto(ms.take(n), n) == chars_upto(ms, n),
    decreases n,
{
    if n > 0 {
        lemma_chars_upto_take(ms, n - 1);
        assert(ms.take(n)[n - 1] == ms[n - 1]);
        assert(ms.take(n - 1) =~= ms.take(n).take(n - 1));
        lemma_chars_upto_take(ms.take(n), n - 1);
    }
}

proof fn lemma_pruned_chars_bounded(ms: Seq<MessageModel>, t: int, n: int)
    requires
        0 <= n <= ms.len(),
    ensures
        0 <= pruned_chars(ms, t, n) <= chars_upto(ms, n),
        0 <= pruned_count(ms, t, n) <= n,
    decreases n,
{
    if n > 0 {
        lemma_pruned_chars_bounded(ms, t, n - 1);
        lemma_pruned(ms[n - 1], threshold_at(t, n - 1));
    }
}

proof fn lemma_tail_stop(ms: Seq<MessageModel>, t: int, k: int, ceiling: int)
    requires
        0 <= k,
    ensures
        k <= tail_stop(ms, t, k, ceiling),
        k <= ms.len() ==> tail_stop(ms, t, k, ceiling) <= ms.len(),
    decreases ms.len() - k,
{
    if !(k >= ms.len() || cap_i64(messages_tokens(pruned_upto(ms, t, k).subrange(t, ms.len() as int))) <= ceiling) {
        lemma_tail_stop(ms, t, k + 1, ceiling);
    }
}

/// The thread after a full pruning pass with the tail starting at `t` and the
/// tail's token ceiling `ceiling`.
pub open spec fn prune_result(ms: Seq<MessageModel>, t: int, ceiling: int) -> Seq<MessageModel> {
    pruned_upto(ms, t, tail_stop(ms, t, t, ceiling))
}

/// Elide oversized tool results so the request stays inside its budget: every
/// result before the tail at the strict threshold, then tail results in order
/// at the laxer one, only while the tail is above its ceiling. Returns the
/// number of results pruned and the characters removed.
pub fn prune_tool_results(messages: &mut Vec<ChatMessage>, tail_start: usize, limits: CompactionLimits) -> (r: (
    usize,
    usize,
))
    requires
        tail_start <= old(messages)@.len(),
        total_chars(models(old(messages)@)) <= usize::MAX,
    ensures
        models(final(messages)@) == prune_result(
            models(old(messages)@),
            tail_start as int,
            scaled(limits.usable_tokens as int, 40),
        ),
        r.0 == pruned_count(
            models(old(messages)@),
            tail_start as int,
            tail_stop(models(old(messages)@), tail_start as int, tail_start as int, scaled(limits.usable_tokens as int, 40)),
        ),
        r.1 == pruned_chars(
            models(old(messages)@),
            tail_start as int,
            tail_stop(models(old(messages)@), tail_start as int, tail_start as int, scaled(limits.usable_tokens as int, 40)),
        ),
{
    let ghost old_ms = models(messages@);
    let ghost t = tail_start as int;
    let n = messages.len();
    let mut count: usize = 0;
    let mut removed: usize = 0;
    let mut i: usize = 0;
    assert(models(messages@) =~= pruned_upto(old_ms, t, 0));
    while i < tail_start
        invariant
            n == messages@.len(),
            tail_start <= n,
            t == tail_start as int,
            old_ms.len() == n,
            total_chars(old_ms) <= usize::MAX,
            i <= tail_start,
            models(messages@) == pruned_upto(old_ms, t, i as int),
            count == pruned_count(old_ms, t, i as int),
            removed == pruned_chars(old_ms, t, i as int),
        decreases tail_start - i,
    {
        proof {
            lemma_pruned_chars_bounded(old_ms, t, i as int + 1);
            lemma_chars_upto_monotone(old_ms, i as int + 1, n as int);
            assert(models(messages@)[i as int] == messages@[i as int]@);
            assert(pruned_upto(old_ms, t, i as int)[i as int] == old_ms[i as int]);
            assert(messages@[i as int]@ == old_ms[i as int]);
        }
        let ghost before = messages@;
        let (c, r) = prune_tool_result(&mut messages[i], MAX_RETAINED_TOOL_RESULT_CHARS);
        assert(messages@.len() == n);
        assert(messages@[i as int]@ == pruned(old_ms[i as int], MAX_RETAINED_TOOL_RESULT_CHARS as int));
        assert(forall|j: int| 0 <= j < n && j != i ==> messages@[j] == before[j]);
        assert(r == prune_gain(old_ms[i as int], threshold_at(t, i as int)));
        count = count + c;
        removed = removed + r;
        assert forall|j: int| 0 <= j < n implies #[trigger] models(messages@)[j] == pruned_upto(old_ms, t, i as int + 1)[j] by {
            assert(models(before)[j] == before[j]@);
            if j != i {
                assert(messages@[j] == before[j]);
            }
        }
        i = i + 1;
        assert(models(messages@) =~= pruned_upto(old_ms, t, i as int));
    }
    let ceiling = limits.tail_ceiling();
    let mut tail_tokens = estimate_tokens_from(messages.as_slice(), tail_start);
    let mut index: usize = tail_start;
    proof {
        lemma_tail_stop(old_ms, t, t, ceiling as int);
    }
    while index < n && tail_tokens > ceiling
        invariant
            n == messages@.len(),
            tail_start <= index <= n,
            t == tail_start as int,
            old_ms.len() == n,
            total_chars(old_ms) <= usize::MAX,
            ceiling == scaled(limits.usable_tokens as int, 40),
            models(messages@) == pruned_upto(old_ms, t, index as int),
            tail_tokens == cap_i64(messages_tokens(models(messages@).subrange(t, n as int))),
            tail_stop(old_ms, t, index as int, ceiling as int) == tail_stop(old_ms, t, t, ceiling as int),
            count == pruned_count(old_ms, t, index as int),
            removed == pruned_chars(old_ms, t, index as int),
        decreases n - index,
    {
        proof {
            lemma_pruned_chars_bounded(old_ms, t, index as int + 1);
            lemma_chars_upto_monotone(old_ms, index as int + 1, n as int);
            assert(models(messages@)[index as int] == messages@[index as int]@);
            assert(pruned_upto(old_ms, t, index as int)[index as int] == old_ms[index as int]);
            assert(messages@[index as int]@ == old_ms[index as int]);
            lemma_pruned(old_ms[index as int], TAIL_RETAINED_TOOL_RESULT_CHARS as int);
        }
        let ghost before = messages@;
        let (c, r) = prune_tool_result(&mut messages[index], TAIL_RETAINED_TOOL_RESULT_CHARS);
        assert forall|j: int| 0 <= j < n implies #[trigger] models(messages@)[j] == pruned_upto(old_ms, t, index as int + 1)[j] by {
            assert(models(before)[j] == before[j]@);
            if j != index {
                assert(messages@[j] == before[j]);
            }
        }
        assert(models(messages@) =~= pruned_upto(old_ms, t, index as int + 1));
        if c > 0 {
            tail_tokens = estimate_tokens_from(messages.as_slice(), tail_start);
        } else {
            assert(models(messages@) =~= pruned_upto(old_ms, t, index as int));
        }
        count = count + c;
        removed = removed + r;
        index = index + 1;
    }
    (count, removed)
}

/// A pruning pass never touches a checklist, and leaves the tail exactly as it
/// was when the tail already fits under its ceiling; every message keeps its
/// role and every field but its content.
pub proof fn lemma_prune_spares_checklists_and_a_small_tail(ms: Seq<MessageModel>, t: int, ceiling: int)
    requires
        0 <= t <= ms.len(),
    ensures
        prune_result(ms, t, ceiling).len() == ms.len(),
        forall|j: int| 0 <= j < ms.len() && ms[j].todos is Some ==> #[trigger] prune_result(ms, t, ceiling)[j] == ms[j],
        forall|j: int| 0 <= j < ms.len() ==> #[trigger] prune_result(ms, t, ceiling)[j] == with_content(ms[j], prune_result(ms, t, ceiling)[j].content),
        cap_i64(messages_tokens(ms.subrange(t, ms.len() as int))) <= ceiling ==> forall|j: int| t <= j < ms.len() ==> #[trigger] prune_result(ms, t, ceiling)[j] == ms[j],
{
    lemma_tail_stop(ms, t, t, ceiling);
    assert forall|j: int| 0 <= j < ms.len() && ms[j].todos is Some implies #[trigger] prune_result(ms, t, ceiling)[j] == ms[j] by {
        lemma_pruned(ms[j], threshold_at(t, j));
    }
    assert forall|j: int| 0 <= j < ms.len() implies #[trigger] prune_result(ms, t, ceiling)[j] == with_content(ms[j], prune_result(ms, t, ceiling)[j].content) by {
    }
    if cap_i64(messages_tokens(ms.subrange(t, ms.len() as int))) <= ceiling {
        assert(pruned_upto(ms, t, t).subrange(t, ms.len() as int) =~= ms.subrange(t, ms.len() as int));
        assert(tail_stop(ms, t, t, ceiling) == t);
    }
}

} // verus!
