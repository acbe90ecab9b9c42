use vstd::prelude::*;

use crate::text::{chars_of, decimal, is_blank, push_decimal, push_signed_decimal, signed_decimal, trim, trim_spec};
use crate::compaction::message::{ChatMessage, ContentPart, MessageModel, TodoItem, TodoStatus, ToolCall, items_view, models};
use crate::compaction::checklist::{carried_checklist, carried_spec, render_checklist, rendered_checklist};
use crate::compaction::message::{role_is, take_message};
use crate::compaction::tokens::{cap_i64, estimate_tokens, messages_tokens};
use crate::compaction::turns::{
    CompactionLimits, CompactionTrigger, lemma_tail_starts_on_a_turn, prefix_len, retained_tail_start, scaled,
    select_span, span_spec, tail_start_spec, tail_turns, lemma_span_respects_turns,
};
use crate::compaction::snip::{
    collapse_repeated_lines, silent, silent_count, snip_chars, snip_compact, snip_gain, snip_safe, snip_spec, snipped,
};
use crate::compaction::prune::{
    lemma_prune_spares_checklists_and_a_small_tail, lemma_pruned, prune_result, prune_tool_results, pruned_chars,
    pruned_count, tail_stop, threshold_at, total_chars, lemma_chars_upto_take, chars_upto, lemma_chars_upto_monotone,
};

verus! {

/// What one compaction pass changed.
#[derive(Debug, Clone, Copy, PartialEq, Eq, Structural, Default)]
pub struct CompactionOutcome {
    /// Silent messages dropped by the rule pass.
    pub snipped_messages: usize,
    /// Characters removed by the rule pass.
    pub snipped_chars: usize,
    /// Tool results whose middles were elided.
    pub pruned_results: usize,
    /// Characters removed by pruning.
    pub pruned_chars: usize,
    /// Messages replaced by the summary.
    pub summarized_messages: usize,
    /// Estimated tokens before the pass.
    pub tokens_before: i64,
    /// Estimated tokens after the pass.
    pub tokens_after: i64,
}

/// The one-line account of a pass.
pub open spec fn described(o: CompactionOutcome) -> Seq<char> {
    "snipped "@ + decimal(o.snipped_messages as nat) + " message(s) (-"@ + decimal(o.snipped_chars as nat)
        + " chars), pruned "@ + decimal(o.pruned_results as nat) + " tool result(s) (-"@ + decimal(
        o.pruned_chars as nat,
    ) + " chars), summarized "@ + decimal(o.summarized_messages as nat) + " message(s); estimated "@
        + signed_decimal(o.tokens_before as int) + " -> "@ + signed_decimal(o.tokens_after as int) + " tokens"@
}

impl CompactionOutcome {
    /// Whether the pass actually reduced anything. A retry keys off this: a
    /// request compaction could not shrink would fail the same way again.
    pub fn made_progress(&self) -> (r: bool)
        ensures
            r == (self.snipped_chars > 0 || self.snipped_messages > 0 || self.pruned_chars > 0
                || self.summarized_messages > 0),
    {
        self.snipped_chars > 0 || self.snipped_messages > 0 || self.pruned_chars > 0 || self.summarized_messages > 0
    }

    /// A one-line account of the pass, for logs.
    pub fn describe(&self) -> (r: String)
        ensures
            r@ == described(*self),
    {
        let mut out = String::new();
        out.append("snipped ");
        push_decimal(&mut out, self.snipped_messages as u64);
        out.append(" message(s) (-");
        push_decimal(&mut out, self.snipped_chars as u64);
        out.append(" chars), pruned ");
        push_decimal(&mut out, self.pruned_results as u64);
        out.append(" tool result(s) (-");
        push_decimal(&mut out, self.pruned_chars as u64);
        out.append(" chars), summarized ");
        push_decimal(&mut out, self.summarized_messages as u64);
        out.append(" message(s); estimated ");
        push_signed_decimal(&mut out, self.tokens_before);
        out.append(" -> ");
        push_signed_decimal(&mut out, self.tokens_after);
        out.append(" tokens");
        assert(out@ =~= described(*self));
        out
    }
}

/// `pieces` joined with `sep` between them.
pub open spec fn join_with(pieces: Seq<Seq<char>>, sep: Seq<char>) -> Seq<char>
    decreases pieces.len(),
{
    if pieces.len() == 0 {
        Seq::empty()
    } else if pieces.len() == 1 {
        pieces[0]
    } else {
        join_with(pieces.drop_last(), sep) + sep + pieces.last()
    }
}

/// One call as the summarizer reads it: `name(args)`.
pub open spec fn call_text(c: ToolCall) -> Seq<char> {
    c.name@ + "("@ + c.args@ + ")"@
}

/// The reasoning line of a transcript entry, when there is reasoning to show.
pub open spec fn thinking_part(reasoning: Option<String>) -> Seq<char> {
    match reasoning {
        Some(r) => if trim_spec(r@).len() > 0 {
            "\n[thinking] "@ + trim_spec(r@)
        } else {
            Seq::empty()
        },
        None => Seq::empty(),
    }
}

/// The calls line of a transcript entry, when the message made calls.
pub open spec fn calls_part(calls: Seq<ToolCall>) -> Seq<char> {
    if calls.len() > 0 {
        "\n[tool calls] "@ + join_with(calls.map_values(|c: ToolCall| call_text(c)), ", "@)
    } else {
        Seq::empty()
    }
}

/// One message as the summarizer reads it.
pub open spec fn transcript_entry(m: MessageModel) -> Seq<char> {
    "["@ + m.role + "] "@ + trim_spec(m.content) + thinking_part(m.reasoning) + calls_part(m.tool_calls)
}

/// A span as the summarizer reads it: its entries separated by blank lines.
pub open spec fn transcript(ms: Seq<MessageModel>) -> Seq<char> {
    join_with(ms.map_values(|m: MessageModel| transcript_entry(m)), "\n\n"@)
}

fn entry_text(m: &ChatMessage) -> (r: String)
    ensures
        r@ == transcript_entry(m@),
{
    let mut line = String::new();
    line.append("[");
    line.append(m.role.as_str());
    line.append("] ");
    let content = trim(m.content.as_str());
    line.append(content.as_str());
    let ghost base = line@;
    match &m.reasoning_content {
        Some(reasoning) => {
            let r = trim(reasoning.as_str());
            if !is_blank(reasoning.as_str()) {
                line.append("\n[thinking] ");
                line.append(r.as_str());
            }
        },
        None => {},
    }
    assert(line@ =~= base + thinking_part(m@.reasoning));
    let ghost with_thinking = line@;
    if m.tool_calls.len() > 0 {
        line.append("\n[tool calls] ");
        let ghost texts = m.tool_calls@.map_values(|c: ToolCall| call_text(c));
        let ghost start = line@;
        let mut i: usize = 0;
        while i < m.tool_calls.len()
            invariant
                i <= m.tool_calls@.len(),
                texts == m.tool_calls@.map_values(|c: ToolCall| call_text(c)),
                line@ == start + join_with(texts.take(i as int), ", "@),
            decreases m.tool_calls@.len() - i,
        {
            assert(texts.take(i as int + 1).drop_last() =~= texts.take(i as int));
            if i > 0 {
                line.append(", ");
            }
            line.append(m.tool_calls[i].name.as_str());
            line.append("(");
            line.append(m.tool_calls[i].args.as_str());
            line.append(")");
            i = i + 1;
            assert(line@ =~= start + join_with(texts.take(i as int), ", "@));
        }
        assert(texts.take(i as int) =~= texts);
    }
    assert(line@ =~= with_thinking + calls_part(m@.tool_calls));
    line
}

/// The span `messages[start..end]` as plain text for the summarizer.
pub fn render_transcript_range(messages: &[ChatMessage], start: usize, end: usize) -> (r: String)
    requires
        start <= end <= messages@.len(),
    ensures
        r@ == transcript(models(messages@).subrange(start as int, end as int)),
{
    let ghost entries = models(messages@).subrange(start as int, end as int).map_values(
        |m: MessageModel| transcript_entry(m),
    );
    let mut out = String::new();
    let mut i: usize = start;
    while i < end
        invariant
            start <= i <= end <= messages@.len(),
            entries == models(messages@).subrange(start as int, end as int).map_values(
                |m: MessageModel| transcript_entry(m),
            ),
            out@ == join_with(entries.take(i - start), "\n\n"@),
        decreases end - i,
    {
        assert(entries.take(i - start + 1).drop_last() =~= entries.take(i - start));
        assert(entries[i - start] == transcript_entry(messages@[i as int]@));
        if i > start {
            out.append("\n\n");
        }
        let entry = entry_text(&messages[i]);
        out.append(entry.as_str());
        i = i + 1;
        assert(out@ =~= join_with(entries.take(i - start), "\n\n"@));
    }
    assert(entries.take(end - start) =~= entries);
    out
}

/// Render messages as plain text for the summarizer.
pub fn render_transcript(messages: &[ChatMessage]) -> (r: String)
    ensures
        r@ == transcript(models(messages@)),
{
    assert(models(messages@).subrange(0, messages@.len() as int) =~= models(messages@));
    render_transcript_range(messages, 0, messages.len())
}

/// The text of the message that replaces a summarized span.
pub open spec fn summary_text(summary: Seq<char>, replaced: nat, checklist: Option<Seq<(Seq<char>, TodoStatus)>>) -> Seq<
    char,
> {
    "<qunica-context-summary replaced_messages=\""@ + decimal(replaced)
        + "\">\nThe earlier part of this conversation was replaced by this summary to stay inside the context window. Treat it as an accurate record of what happened, and say so if you need detail it does not carry.\n\n"@
        + summary + "\n</qunica-context-summary>"@ + match checklist {
        Some(items) => "\n\n"@ + rendered_checklist(items),
        None => Seq::empty(),
    }
}

/// Wrap `summary` in the host envelope, as a user message, with the carried
/// checklist after the envelope when there is one.
pub fn summary_message(summary: &str, replaced: usize, checklist: Option<&[TodoItem]>) -> (r: ChatMessage)
    ensures
        r@.role == "user"@,
        r@.content == summary_text(
            summary@,
            replaced as nat,
            match checklist {
                Some(items) => Some(items_view(items@)),
                None => None,
            },
        ),
        r@.tool_calls.len() == 0,
        r@.tool_call_id is None,
        r@.tool_name is None,
        r@.parts.len() == 0,
        r@.reasoning is None,
        r@.todos is None,
{
    let mut content = String::new();
    content.append("<qunica-context-summary replaced_messages=\"");
    push_decimal(&mut content, replaced as u64);
    content.append(
        "\">\nThe earlier part of this conversation was replaced by this summary to stay inside the context window. Treat it as an accurate record of what happened, and say so if you need detail it does not carry.\n\n",
    );
    content.append(summary);
    content.append("\n</qunica-context-summary>");
    let ghost base = content@;
    match checklist {
        Some(todos) => {
            content.append("\n\n");
            let block = render_checklist(todos);
            content.append(block.as_str());
        },
        None => {},
    }
    ChatMessage::text("user", content.as_str())
}

/// What a pass needs next once the rules, pruning and span selection are
/// done: nothing more, or a summary of `messages[start..end]`.
pub struct PendingSummary {
    /// The outcome so far; nothing has been summarized yet.
    pub outcome: CompactionOutcome,
    /// The first message of the span.
    pub start: usize,
    /// One past the last message of the span.
    pub end: usize,
    /// The span as the summarizer reads it.
    pub transcript: String,
    /// The checklist the summary must carry across, if any.
    pub carried: Option<Vec<TodoItem>>,
}

/// Where a compaction pass stands after its deterministic part.
pub enum CompactionStep {
    /// The pass is complete.
    Finished(CompactionOutcome),
    /// A summary of a span is needed to complete the pass.
    Summarize(PendingSummary),
}

/// The trigger a pass runs under: a pressure pass already past the emergency
/// threshold runs as an emergency.
pub open spec fn escalated(trigger: CompactionTrigger, before: int, limits: CompactionLimits) -> CompactionTrigger {
    if trigger == CompactionTrigger::Pressure && before > scaled(limits.usable_tokens as int, 92) {
        CompactionTrigger::Emergency
    } else {
        trigger
    }
}

/// Whether a pass runs at all: always on emergency or overflow, and on
/// pressure only above the pressure threshold.
pub open spec fn pass_runs(ms: Seq<MessageModel>, limits: CompactionLimits, trigger: CompactionTrigger) -> bool {
    !(trigger == CompactionTrigger::Pressure && cap_i64(messages_tokens(ms)) <= scaled(limits.usable_tokens as int, 75))
}

/// The trigger the pass over `ms` runs under.
pub open spec fn pass_trigger(ms: Seq<MessageModel>, limits: CompactionLimits, trigger: CompactionTrigger) -> CompactionTrigger {
    escalated(trigger, cap_i64(messages_tokens(ms)), limits)
}

/// Where the retained tail of the pass over `ms` begins, read after the rule
/// pass; at the start when the rule pass left nothing.
pub open spec fn pass_tail(ms: Seq<MessageModel>, limits: CompactionLimits, trigger: CompactionTrigger) -> int {
    if snip_spec(ms).len() == 0 {
        0
    } else {
        tail_start_spec(snip_spec(ms), tail_turns(pass_trigger(ms, limits, trigger)))
    }
}

/// Where pruning inside the tail stops in the pass over `ms`.
pub open spec fn pass_stop(ms: Seq<MessageModel>, limits: CompactionLimits, trigger: CompactionTrigger) -> int {
    tail_stop(snip_spec(ms), pass_tail(ms, limits, trigger), pass_tail(ms, limits, trigger), scaled(limits.usable_tokens as int, 40))
}

/// The thread after the rule pass and pruning.
pub open spec fn pass_thread(ms: Seq<MessageModel>, limits: CompactionLimits, trigger: CompactionTrigger) -> Seq<MessageModel> {
    prune_result(snip_spec(ms), pass_tail(ms, limits, trigger), scaled(limits.usable_tokens as int, 40))
}

/// The outcome of the deterministic part of the pass over `ms`.
pub open spec fn pass_outcome(ms: Seq<MessageModel>, limits: CompactionLimits, trigger: CompactionTrigger) -> CompactionOutcome {
    CompactionOutcome {
        snipped_messages: silent_count(ms) as usize,
        snipped_chars: snip_chars(ms) as usize,
        pruned_results: pruned_count(snip_spec(ms), pass_tail(ms, limits, trigger), pass_stop(ms, limits, trigger)) as usize,
        pruned_chars: pruned_chars(snip_spec(ms), pass_tail(ms, limits, trigger), pass_stop(ms, limits, trigger)) as usize,
        summarized_messages: 0,
        tokens_before: cap_i64(messages_tokens(ms)) as i64,
        tokens_after: cap_i64(messages_tokens(pass_thread(ms, limits, trigger))) as i64,
    }
}

/// Whether pruning alone finished the pass: only under pressure, and only
/// when the estimate landed under the target.
pub open spec fn pass_stops_early(ms: Seq<MessageModel>, limits: CompactionLimits, trigger: CompactionTrigger) -> bool {
    pass_trigger(ms, limits, trigger) == CompactionTrigger::Pressure && cap_i64(
        messages_tokens(pass_thread(ms, limits, trigger)),
    ) <= scaled(limits.usable_tokens as int, 55)
}

/// The span the pass over `ms` summarizes, if it summarizes one.
pub open spec fn pass_span(ms: Seq<MessageModel>, limits: CompactionLimits, trigger: CompactionTrigger) -> Option<(int, int)> {
    if pass_stops_early(ms, limits, trigger) {
        None
    } else {
        span_spec(pass_thread(ms, limits, trigger), pass_tail(ms, limits, trigger), scaled(limits.usable_tokens as int, 55))
    }
}

/// Whether the pass over `ms` can be carried out: when it runs, collapsing
/// must never lengthen a tool result, and the thread's characters must be
/// countable.
pub open spec fn pass_defined(ms: Seq<MessageModel>, limits: CompactionLimits, trigger: CompactionTrigger) -> bool {
    pass_runs(ms, limits, trigger) ==> {
        &&& snip_safe(ms)
        &&& total_chars(ms) <= usize::MAX
    }
}

proof fn lemma_chars_upto_push(ms: Seq<MessageModel>, x: MessageModel)
    ensures
        total_chars(ms.push(x)) == total_chars(ms) + x.content.len(),
{
    let s = ms.push(x);
    assert(s.take(ms.len() as int) =~= ms);
    lemma_chars_upto_take(s, ms.len() as int);
}

proof fn lemma_snip_total(ms: Seq<MessageModel>)
    requires
        snip_safe(ms),
    ensures
        total_chars(snip_spec(ms)) <= total_chars(ms),
    decreases ms.len(),
{
    if ms.len() > 0 {
        let init = ms.drop_last();
        assert forall|i: int| 0 <= i < init.len() implies #[trigger] snip_gain(init[i]) >= 0 by {
            assert(init[i] == ms[i]);
        }
        lemma_snip_total(init);
        assert(init.push(ms.last()) =~= ms);
        lemma_chars_upto_push(init, ms.last());
        assert(snip_gain(ms[ms.len() - 1]) >= 0);
        if !silent(ms.last()) {
            lemma_chars_upto_push(snip_spec(init), snipped(ms.last()));
        }
    }
}

proof fn lemma_snip_len(ms: Seq<MessageModel>)
    ensures
        snip_spec(ms).len() <= ms.len(),
    decreases ms.len(),
{
    if ms.len() > 0 {
        lemma_snip_len(ms.drop_last());
    }
}

proof fn lemma_prune_keeps_prefix(ms: Seq<MessageModel>, t: int, ceiling: int)
    requires
        0 <= t <= ms.len(),
    ensures
        prefix_len(prune_result(ms, t, ceiling)) == prefix_len(ms),
        prune_result(ms, t, ceiling).len() == ms.len(),
{
    lemma_prune_spares_checklists_and_a_small_tail(ms, t, ceiling);
    if ms.len() > 1 && ms[1].role == "user"@ {
        reveal_strlit("user");
        reveal_strlit("tool");
        assert("user"@[0] != "tool"@[0]);
        let k = tail_stop(ms, t, t, ceiling);
        assert(prune_result(ms, t, ceiling)[1] == ms[1]) by {
            lemma_pruned(ms[1], threshold_at(t, 1));
        }
    }
}

/// The deterministic part of a compaction pass: estimate, drop silent
/// messages and collapse repeated lines, prune tool results around the
/// retained tail, and choose the span a summary replaces. `None` when a
/// pressure pass is not needed; otherwise the messages are rewritten in place
/// and the step says whether a summary is still needed.
pub fn compact_prepare(messages: &mut Vec<ChatMessage>, limits: CompactionLimits, trigger: CompactionTrigger) -> (r:
    Option<CompactionStep>)
    requires
        pass_defined(models(old(messages)@), limits, trigger),
    ensures
        !pass_runs(models(old(messages)@), limits, trigger) ==> r is None && final(messages)@ == old(messages)@,
        pass_runs(models(old(messages)@), limits, trigger) ==> {
            &&& models(final(messages)@) == pass_thread(models(old(messages)@), limits, trigger)
            &&& match pass_span(models(old(messages)@), limits, trigger) {
                None => r matches Some(CompactionStep::Finished(o)) && o == pass_outcome(
                    models(old(messages)@),
                    limits,
                    trigger,
                ),
                Some((s, e)) => r matches Some(CompactionStep::Summarize(p)) && {
                    &&& p.outcome == pass_outcome(models(old(messages)@), limits, trigger)
                    &&& p.start == s
                    &&& p.end == e
                    &&& p.transcript@ == transcript(models(final(messages)@).subrange(s, e))
                    &&& match carried_spec(models(final(messages)@), e) {
                        Some(items) => p.carried matches Some(v) && items_view(v@) == items,
                        None => p.carried is None,
                    }
                },
            }
        },
{
    let ghost ms = models(messages@);
    let tokens_before = estimate_tokens(messages.as_slice());
    if trigger == CompactionTrigger::Pressure && tokens_before <= limits.pressure_threshold() {
        return None;
    }
    let run_as = if trigger == CompactionTrigger::Pressure && tokens_before > limits.emergency_threshold() {
        CompactionTrigger::Emergency
    } else {
        trigger
    };
    assert(run_as == pass_trigger(ms, limits, trigger));
    let snip = snip_compact(messages);
    let ghost mid = models(messages@);
    proof {
        lemma_snip_total(ms);
        lemma_tail_starts_on_a_turn(mid);
    }
    if messages.len() == 0 {
        // Nothing is left to prune or summarize: the pass ends with what the
        // rule pass did.
        let tokens_after = estimate_tokens(messages.as_slice());
        let outcome = CompactionOutcome {
            snipped_messages: snip.dropped_messages,
            snipped_chars: snip.snipped_chars,
            pruned_results: 0,
            pruned_chars: 0,
            summarized_messages: 0,
            tokens_before: tokens_before,
            tokens_after: tokens_after,
        };
        proof {
            assert(pass_thread(ms, limits, trigger) =~= mid);
            assert(pass_span(ms, limits, trigger) is None);
        }
        assert(outcome == pass_outcome(ms, limits, trigger));
        return Some(CompactionStep::Finished(outcome));
    }
    let tail_start = retained_tail_start(messages.as_slice(), run_as);
    let ghost t = tail_start as int;
    assert(t <= mid.len()) by {
        assert(prefix_len(mid) <= mid.len());
    }
    let (pruned_results, pruned_chars_count) = prune_tool_results(messages, tail_start, limits);
    proof {
        lemma_prune_keeps_prefix(mid, t, scaled(limits.usable_tokens as int, 40));
    }
    let tokens_after = estimate_tokens(messages.as_slice());
    let outcome = CompactionOutcome {
        snipped_messages: snip.dropped_messages,
        snipped_chars: snip.snipped_chars,
        pruned_results: pruned_results,
        pruned_chars: pruned_chars_count,
        summarized_messages: 0,
        tokens_before: tokens_before,
        tokens_after: tokens_after,
    };
    assert(outcome == pass_outcome(ms, limits, trigger));
    if run_as == CompactionTrigger::Pressure && tokens_after <= limits.target() {
        return Some(CompactionStep::Finished(outcome));
    }
    proof {
        lemma_span_respects_turns(models(messages@), t, scaled(limits.usable_tokens as int, 55));
    }
    match select_span(messages.as_slice(), tail_start, limits) {
        Some(span) => {
            let transcript_text = render_transcript_range(messages.as_slice(), span.start, span.end);
            let carried = carried_checklist(messages.as_slice(), span.end);
            Some(
                CompactionStep::Summarize(
                    PendingSummary {
                        outcome: outcome,
                        start: span.start,
                        end: span.end,
                        transcript: transcript_text,
                        carried: carried,
                    },
                ),
            )
        },
        None => Some(CompactionStep::Finished(outcome)),
    }
}

/// The text standing in for a summary that failed or came back empty.
pub open spec fn dropped_notice(count: nat) -> Seq<char> {
    decimal(count)
        + " earlier messages were dropped to stay inside the context window, and could not be summarized. Ask the user to restate anything you need from them."@
}

/// The summary a pass splices in: the summarizer's, unless it failed or is
/// blank.
pub open spec fn summary_used(summary: Option<Seq<char>>, count: nat) -> Seq<char> {
    match summary {
        Some(s) => if trim_spec(s).len() > 0 {
            s
        } else {
            dropped_notice(count)
        },
        None => dropped_notice(count),
    }
}

/// The message that replaces a summarized span.
pub open spec fn summary_model(text: Seq<char>, count: nat, carried: Option<Seq<(Seq<char>, TodoStatus)>>) -> MessageModel {
    MessageModel {
        role: "user"@,
        content: summary_text(text, count, carried),
        tool_calls: Seq::empty(),
        tool_call_id: None,
        tool_name: None,
        parts: Seq::empty(),
        reasoning: None,
        todos: None,
    }
}

/// `ms` with the span from `start` to `end` replaced by the one summary
/// message a completed pass splices in.
pub open spec fn summarized(
    ms: Seq<MessageModel>,
    start: int,
    end: int,
    summary: Option<Seq<char>>,
    carried: Option<Seq<(Seq<char>, TodoStatus)>>,
) -> Seq<MessageModel> {
    let count = (end - start) as nat;
    ms.take(start).push(summary_model(summary_used(summary, count), count, carried)) + ms.skip(end)
}

/// Complete a pass: replace `messages[start..end]` with one summary message
/// (the summarizer's text, or a plain notice when it failed or came back
/// blank), with the carried checklist after the summary.
pub fn compact_finish(messages: &mut Vec<ChatMessage>, pending: PendingSummary, summary: Option<String>) -> (r:
    CompactionOutcome)
    requires
        pending.start < pending.end <= old(messages)@.len(),
    ensures
        models(final(messages)@) == summarized(
            models(old(messages)@),
            pending.start as int,
            pending.end as int,
            match summary {
                Some(s) => Some(s@),
                None => None,
            },
            match pending.carried {
                Some(v) => Some(items_view(v@)),
                None => None,
            },
        ),
        r == (CompactionOutcome {
            summarized_messages: (pending.end - pending.start) as usize,
            tokens_after: cap_i64(messages_tokens(models(final(messages)@))) as i64,
            ..pending.outcome
        }),
{
    let count = pending.end - pending.start;
    let ghost summary_view = match &summary {
        Some(s) => Some(s@),
        None => None,
    };
    let text = match summary {
        Some(s) => if !is_blank(s.as_str()) {
            s
        } else {
            dropped_notice_text(count)
        },
        None => dropped_notice_text(count),
    };
    let message = match &pending.carried {
        Some(items) => summary_message(text.as_str(), count, Some(items.as_slice())),
        None => summary_message(text.as_str(), count, None),
    };
    let ghost carried_view = match pending.carried {
        Some(v) => Some(items_view(v@)),
        None => None,
    };
    let ghost used = summary_used(summary_view, count as nat);
    assert(text@ == used);
    assert(message@.tool_calls =~= Seq::<ToolCall>::empty());
    assert(message@.parts =~= Seq::<ContentPart>::empty());
    assert(message@ == summary_model(used, count as nat, carried_view));
    let ghost old_ms = models(messages@);
    let mut incoming: Vec<ChatMessage> = Vec::new();
    std::mem::swap(&mut incoming, messages);
    let n = incoming.len();
    let mut out: Vec<ChatMessage> = Vec::new();
    let mut i: usize = 0;
    while i < pending.start
        invariant
            n == incoming@.len(),
            old_ms.len() == n,
            pending.start < pending.end <= n,
            i <= pending.start,
            forall|j: int| i <= j < n ==> #[trigger] incoming@[j]@ == old_ms[j],
            models(out@) == old_ms.take(i as int),
        decreases pending.start - i,
    {
        let m = take_message(&mut incoming, i);
        assert(m@ == old_ms[i as int]);
        let ghost prev = out@;
        out.push(m);
        assert(models(out@) =~= models(prev).push(m@));
        assert(old_ms.take(i as int + 1) =~= old_ms.take(i as int).push(old_ms[i as int]));
        assert(models(out@) =~= old_ms.take(i as int + 1));
        i = i + 1;
    }
    let ghost head = out@;
    out.push(message);
    let mut k: usize = pending.end;
    while k < n
        invariant
            n == incoming@.len(),
            old_ms.len() == n,
            pending.start < pending.end <= k <= n,
            forall|j: int| k <= j < n ==> #[trigger] incoming@[j]@ == old_ms[j],
            models(out@) == models(head).push(message@) + old_ms.subrange(pending.end as int, k as int),
        decreases n - k,
    {
        let m = take_message(&mut incoming, k);
        assert(m@ == old_ms[k as int]);
        let ghost prev = out@;
        out.push(m);
        assert(models(out@) =~= models(prev).push(m@));
        assert(old_ms.subrange(pending.end as int, k as int + 1) =~= old_ms.subrange(pending.end as int, k as int).push(
            old_ms[k as int],
        ));
        assert(models(out@) =~= models(head).push(message@) + old_ms.subrange(pending.end as int, k as int + 1));
        k = k + 1;
    }
    assert(old_ms.subrange(pending.end as int, n as int) =~= old_ms.skip(pending.end as int));
    *messages = out;
    let tokens_after = estimate_tokens(messages.as_slice());
    CompactionOutcome { summarized_messages: count, tokens_after: tokens_after, ..pending.outcome }
}

fn dropped_notice_text(count: usize) -> (r: String)
    ensures
        r@ == dropped_notice(count as nat),
{
    let mut out = String::new();
    push_decimal(&mut out, count as u64);
    out.append(
        " earlier messages were dropped to stay inside the context window, and could not be summarized. Ask the user to restate anything you need from them.",
    );
    out
}

/// Whether a pass can run on `messages` (see `pass_defined`): a pass that
/// runs needs collapsing never to lengthen a tool result, and a character
/// count that fits in memory. Check it before
/// `compact_prepare`; a thread that fails it is one the pass cannot take.
pub fn pass_is_defined(messages: &Vec<ChatMessage>, limits: CompactionLimits, trigger: CompactionTrigger) -> (r: bool)
    ensures
        r == pass_defined(models(messages@), limits, trigger),
{
    let ghost ms = models(messages@);
    let tokens = estimate_tokens(messages.as_slice());
    if trigger == CompactionTrigger::Pressure && tokens <= limits.pressure_threshold() {
        return true;
    }
    let mut safe = true;
    let mut total: u128 = 0;
    let mut fits = true;
    let mut i: usize = 0;
    while i < messages.len()
        invariant
            i <= messages@.len(),
            ms == models(messages@),
            safe == forall|j: int| 0 <= j < i ==> #[trigger] snip_gain(ms[j]) >= 0,
            fits == (chars_upto(ms, i as int) <= usize::MAX),
            fits ==> total == chars_upto(ms, i as int),
        decreases messages@.len() - i,
    {
        let message = &messages[i];
        assert(message@ == ms[i as int]);
        let length = chars_of(message.content.as_str()).len();
        let ghost safe_before = safe;
        if role_is(message, "tool") {
            match collapse_repeated_lines(message.content.as_str()) {
                Some(collapsed) => {
                    if chars_of(collapsed.as_str()).len() > length {
                        safe = false;
                    }
                },
                None => {},
            }
        }
        assert(safe == (safe_before && snip_gain(ms[i as int]) >= 0));
        assert forall|j: int| 0 <= j < i + 1 implies (#[trigger] snip_gain(ms[j]) >= 0) == (if j < i {
            snip_gain(ms[j]) >= 0
        } else {
            snip_gain(ms[i as int]) >= 0
        }) by {}
        proof {
            lemma_chars_upto_monotone(ms, 0, i as int);
        }
        if fits {
            total = total + length as u128;
            if total > usize::MAX as u128 {
                fits = false;
            }
        }
        proof {
            if !fits {
                lemma_chars_upto_monotone(ms, 0, i as int);
            }
        }
        i = i + 1;
    }
    assert(ms.take(i as int) =~= ms);
    safe && fits
}

proof fn lemma_snip_keeps_first(ms: Seq<MessageModel>)
    requires
        ms.len() > 0,
        !silent(ms[0]),
    ensures
        snip_spec(ms).len() > 0,
        snip_spec(ms)[0] == snipped(ms[0]),
    decreases ms.len(),
{
    let init = ms.drop_last();
    if ms.len() > 1 {
        assert(init[0] == ms[0]);
        lemma_snip_keeps_first(init);
        if !silent(ms.last()) {
            assert(snip_spec(ms)[0] == snip_spec(init)[0]);
        }
    } else {
        assert(init.len() == 0);
        assert(snip_spec(init) =~= Seq::<MessageModel>::empty());
        assert(ms.last() == ms[0]);
    }
}

proof fn lemma_snip_count(ms: Seq<MessageModel>)
    ensures
        snip_spec(ms).len() == ms.len() - silent_count(ms),
    decreases ms.len(),
{
    if ms.len() > 0 {
        lemma_snip_count(ms.drop_last());
    }
}

/// The shape of a summarized thread. When the pass over a thread that opens
/// with a system prompt summarizes a span, the thread it leaves after the
/// summary is spliced in keeps the system prompt first; is shorter by the
/// silent messages dropped and by the span, less the one summary; holds the
/// summary, a user message opening with the summary envelope, right after
/// the preserved prefix of the thread as the rule pass left it; and has no
/// tool result right after the summary.
pub proof fn lemma_summarized_thread_shape(
    ms: Seq<MessageModel>,
    limits: CompactionLimits,
    trigger: CompactionTrigger,
    summary: Option<Seq<char>>,
    carried: Option<Seq<(Seq<char>, TodoStatus)>>,
)
    requires
        ms.len() > 0,
        ms[0].role == "system"@,
        trim_spec(ms[0].content).len() > 0,
        pass_span(ms, limits, trigger) is Some,
    ensures
        pass_span(ms, limits, trigger) matches Some((s, e)) && {
            let fin = summarized(pass_thread(ms, limits, trigger), s, e, summary, carried);
            &&& s == prefix_len(snip_spec(ms))
            &&& fin[0] == ms[0]
            &&& fin.len() == ms.len() - silent_count(ms) - (e - s) + 1
            &&& fin[s].role == "user"@
            &&& fin[s].content.take(23) == "<qunica-context-summary"@
            &&& (s + 1 < fin.len() ==> fin[s + 1].role != "tool"@)
        },
{
    reveal_strlit("system");
    reveal_strlit("tool");
    assert("system"@[0] != "tool"@[0]);
    let snip = snip_spec(ms);
    lemma_snip_keeps_first(ms);
    lemma_snip_count(ms);
    lemma_tail_starts_on_a_turn(snip);
    let t = pass_tail(ms, limits, trigger);
    let ceiling = scaled(limits.usable_tokens as int, 40);
    assert(t == tail_start_spec(snip, tail_turns(pass_trigger(ms, limits, trigger))));
    assert(prefix_len(snip) <= snip.len());
    assert(0 <= t <= snip.len());
    let mid = pass_thread(ms, limits, trigger);
    lemma_prune_keeps_prefix(snip, t, ceiling);
    lemma_span_respects_turns(mid, t, scaled(limits.usable_tokens as int, 55));
    let (s, e) = pass_span(ms, limits, trigger)->0;
    assert(s == prefix_len(mid));
    assert(mid[0] == snip[0]) by {
        lemma_pruned(snip[0], threshold_at(t, 0));
    }
    let count = (e - s) as nat;
    let fin = summarized(mid, s, e, summary, carried);
    let text = summary_used(summary, count);
    assert(fin[0] == mid[0]);
    assert(fin[s] == summary_model(text, count, carried));
    let head = "<qunica-context-summary replaced_messages=\""@;
    reveal_strlit("<qunica-context-summary replaced_messages=\"");
    reveal_strlit("<qunica-context-summary");
    assert(summary_text(text, count, carried).take(23) =~= head.take(23));
    assert(head.take(23) =~= "<qunica-context-summary"@);
    reveal_strlit("user");
    if s + 1 < fin.len() {
        assert(fin[s + 1] == mid[e]);
    }
}

} // verus!
