use vstd::prelude::*;

use crate::text::{chars_eq, chars_of, is_blank, join_lines, join_lines_exec, split_lines, split_lines_exec, trim_bounds, trim_spec};
use crate::compaction::message::{ChatMessage, MessageModel, models, role_is, with_content};
use crate::compaction::prune::{chars_upto, lemma_chars_upto_monotone, lemma_chars_upto_take, total_chars};

verus! {

/// Consecutive identical non-blank lines beyond this many collapse to one copy.
pub const REPEATED_LINE_RUN_THRESHOLD: usize = 4;

/// The line that replaces the dropped copies of a repeated run.
pub open spec fn run_marker() -> Seq<char> {
    "[... dropped a run of repeated identical lines; one copy kept ...]"@
}

/// The length of the run of lines equal to `lines[i]` starting at `i`.
pub open spec fn run_len(lines: Seq<Seq<char>>, i: int) -> int
    decreases lines.len() - i,
{
    if 0 <= i && i + 1 < lines.len() && lines[i + 1] == lines[i] {
        1 + run_len(lines, i + 1)
    } else {
        1
    }
}

pub proof fn lemma_run_len(lines: Seq<Seq<char>>, i: int)
    requires
        0 <= i < lines.len(),
    ensures
        1 <= run_len(lines, i) <= lines.len() - i,
        forall|k: int| i <= k < i + run_len(lines, i) ==> lines[k] == lines[i],
        i + run_len(lines, i) < lines.len() ==> lines[i + run_len(lines, i)] != lines[i],
    decreases lines.len() - i,
{
    if i + 1 < lines.len() && lines[i + 1] == lines[i] {
        lemma_run_len(lines, i + 1);
    }
}

/// Whether a run of `r` copies of `line` is collapsed.
pub open spec fn collapses(line: Seq<char>, r: int) -> bool {
    trim_spec(line).len() != 0 && r > REPEATED_LINE_RUN_THRESHOLD
}

/// The lines from `i` on, with each long run of a non-blank line replaced by
/// one copy and the marker.
pub open spec fn collapse_from(lines: Seq<Seq<char>>, i: int) -> Seq<Seq<char>>
    decreases lines.len() - i,
{
    if i < 0 || i >= lines.len() {
        Seq::empty()
    } else {
        let r = run_len(lines, i);
        proof {
            lemma_run_len(lines, i);
        }
        if collapses(lines[i], r) {
            seq![lines[i], run_marker()] + collapse_from(lines, i + r)
        } else {
            lines.subrange(i, i + r) + collapse_from(lines, i + r)
        }
    }
}

/// Whether some run from `i` on is collapsed.
pub open spec fn any_collapse_from(lines: Seq<Seq<char>>, i: int) -> bool
    decreases lines.len() - i,
{
    if i < 0 || i >= lines.len() {
        false
    } else {
        let r = run_len(lines, i);
        proof {
            lemma_run_len(lines, i);
        }
        collapses(lines[i], r) || any_collapse_from(lines, i + r)
    }
}

/// What collapsing repeated lines makes of `text`, if any run collapses.
pub open spec fn collapsed_text(text: Seq<char>) -> Option<Seq<char>> {
    let lines = split_lines(text);
    if any_collapse_from(lines, 0) {
        Some(join_lines(collapse_from(lines, 0)))
    } else {
        None
    }
}

fn marker_line() -> (r: Vec<char>)
    ensures
        r@ == run_marker(),
{
    chars_of("[... dropped a run of repeated identical lines; one copy kept ...]")
}

/// Collapse runs of more than four identical non-blank lines to one copy plus
/// a marker; `None` when nothing was repeated.
pub fn collapse_repeated_lines(text: &str) -> (r: Option<String>)
    ensures
        match collapsed_text(text@) {
            Some(t) => r matches Some(s) && s@ == t,
            None => r is None,
        },
{
    let v = chars_of(text);
    let lines = split_lines_exec(v.as_slice());
    let ghost ls = split_lines(text@);
    assert(lines@.map_values(|l: Vec<char>| l@) =~= ls);
    let mut out: Vec<Vec<char>> = Vec::new();
    let mut changed = false;
    let mut index: usize = 0;
    let n = lines.len();
    while index < n
        invariant
            n == lines@.len(),
            index <= lines@.len(),
            ls == lines@.map_values(|l: Vec<char>| l@),
            out@.map_values(|l: Vec<char>| l@) + collapse_from(ls, index as int) == collapse_from(ls, 0),
            changed || any_collapse_from(ls, index as int) == any_collapse_from(ls, 0),
            changed ==> any_collapse_from(ls, 0),
        decreases lines@.len() - index,
    {
        let mut run: usize = 1;
        while index + run < n && chars_eq(lines[index + run].as_slice(), lines[index].as_slice())
            invariant
                n == lines@.len(),
                index < lines@.len(),
                1 <= run <= lines@.len() - index,
                ls == lines@.map_values(|l: Vec<char>| l@),
                run_len(ls, index as int) == run - 1 + run_len(ls, (index + run - 1) as int),
                forall|k: int| index <= k < index + run ==> ls[k] == ls[index as int],
            decreases lines@.len() - index - run,
        {
            run = run + 1;
        }
        proof {
            lemma_run_len(ls, index as int);
        }
        assert(run as int == run_len(ls, index as int));
        let ghost before = out@.map_values(|l: Vec<char>| l@);
        if !is_blank_line(&lines[index]) && run > REPEATED_LINE_RUN_THRESHOLD {
            let copy = clone_line(&lines[index]);
            out.push(copy);
            out.push(marker_line());
            changed = true;
            assert(out@.map_values(|l: Vec<char>| l@) =~= before + seq![ls[index as int], run_marker()]);
        } else {
            let mut k: usize = 0;
            while k < run
                invariant
                    k <= run,
                    n == lines@.len(),
                    index + run <= lines@.len(),
                    ls == lines@.map_values(|l: Vec<char>| l@),
                    out@.map_values(|l: Vec<char>| l@) == before + ls.subrange(index as int, index + k),
                decreases run - k,
            {
                let copy = clone_line(&lines[index + k]);
                assert(ls[index + k] == lines@[index + k]@);
                let ghost prev = out@;
                out.push(copy);
                assert(out@.map_values(|l: Vec<char>| l@) =~= prev.map_values(|l: Vec<char>| l@).push(copy@));
                assert(ls.subrange(index as int, index + k + 1) =~= ls.subrange(index as int, index + k).push(ls[index + k]));
                k = k + 1;
                assert(out@.map_values(|l: Vec<char>| l@) =~= before + ls.subrange(index as int, index + k));
            }
        }
        index = index + run;
        assert(out@.map_values(|l: Vec<char>| l@) + collapse_from(ls, index as int) =~= collapse_from(ls, 0));
    }
    if changed {
        assert(collapse_from(ls, index as int) =~= Seq::<Seq<char>>::empty());
        assert(out@.map_values(|l: Vec<char>| l@) =~= collapse_from(ls, 0));
        Some(join_lines_exec(&out))
    } else {
        None
    }
}

fn clone_line(line: &Vec<char>) -> (r: Vec<char>)
    ensures
        r@ == line@,
{
    let mut out: Vec<char> = Vec::new();
    let mut i: usize = 0;
    while i < line.len()
        invariant
            i <= line@.len(),
            out@ == line@.take(i as int),
        decreases line@.len() - i,
    {
        out.push(line[i]);
        i = i + 1;
        assert(out@ =~= line@.take(i as int));
    }
    assert(line@.take(i as int) =~= line@);
    out
}

fn is_blank_line(line: &Vec<char>) -> (r: bool)
    ensures
        r == (trim_spec(line@).len() == 0),
{
    let (a, b) = trim_bounds(line.as_slice());
    a == b
}



/// Whether `m` says nothing at all: not a tool result, and blank in content
/// and reasoning, with no calls and no parts. An empty tool result still says
/// that the call ran, so it is never silent.
pub open spec fn silent(m: MessageModel) -> bool {
    &&& m.role != "tool"@
    &&& trim_spec(m.content).len() == 0
    &&& m.tool_calls.len() == 0
    &&& m.parts.len() == 0
    &&& match m.reasoning {
        Some(r) => trim_spec(r@).len() == 0,
        None => true,
    }
}

/// `m` after the rule pass: a tool result with its repeated lines collapsed.
pub open spec fn snipped(m: MessageModel) -> MessageModel {
    if m.role == "tool"@ {
        match collapsed_text(m.content) {
            Some(t) => with_content(m, t),
            None => m,
        }
    } else {
        m
    }
}

/// Characters the rule pass removes from `m`.
pub open spec fn snip_gain(m: MessageModel) -> int {
    m.content.len() - snipped(m).content.len()
}

/// The thread after the rule pass: silent messages dropped, the rest snipped,
/// in order.
pub open spec fn snip_spec(ms: Seq<MessageModel>) -> Seq<MessageModel>
    decreases ms.len(),
{
    if ms.len() == 0 {
        Seq::empty()
    } else if silent(ms.last()) {
        snip_spec(ms.drop_last())
    } else {
        snip_spec(ms.drop_last()).push(snipped(ms.last()))
    }
}

/// Silent messages in `ms`.
pub open spec fn silent_count(ms: Seq<MessageModel>) -> int
    decreases ms.len(),
{
    if ms.len() == 0 {
        0
    } else {
        silent_count(ms.drop_last()) + if silent(ms.last()) { 1int } else { 0int }
    }
}

/// Characters the rule pass removes from the messages it keeps.
pub open spec fn snip_chars(ms: Seq<MessageModel>) -> int
    decreases ms.len(),
{
    if ms.len() == 0 {
        0
    } else {
        snip_chars(ms.drop_last()) + if silent(ms.last()) { 0int } else { snip_gain(ms.last()) }
    }
}

/// Whether collapsing never lengthens a tool result of `ms`. A run of very
/// short lines can come out longer with its marker, and the count of removed
/// characters would then go below zero.
pub open spec fn snip_safe(ms: Seq<MessageModel>) -> bool {
    forall|i: int| 0 <= i < ms.len() ==> #[trigger] snip_gain(ms[i]) >= 0
}

proof fn lemma_snip_bounds(ms: Seq<MessageModel>)
    requires
        snip_safe(ms),
    ensures
        0 <= snip_chars(ms) <= chars_upto(ms, ms.len() as int),
        0 <= silent_count(ms) <= ms.len(),
    decreases ms.len(),
{
    if ms.len() > 0 {
        let init = ms.drop_last();
        assert forall|i: int| 0 <= i < init.len() implies #[trigger] snip_gain(init[i]) >= 0 by {
            assert(init[i] == ms[i]);
        }
        lemma_snip_bounds(init);
        assert(snip_gain(ms[ms.len() - 1]) >= 0);
        assert(ms.take(ms.len() - 1) =~= init);
        lemma_chars_upto_take(ms, ms.len() - 1);
    }
}



fn placeholder() -> (r: ChatMessage)
    ensures
        r.role@ == ""@,
        r.content@ == ""@,
        r.tool_calls@.len() == 0,
        r.tool_call_id is None,
        r.tool_name is None,
        r.parts@.len() == 0,
        r.reasoning_content is None,
        r.todos is None,
{
    ChatMessage::text("", "")
}

/// The rule pass: drop silent messages, and collapse runs of repeated lines
/// in tool results. Returns how many messages were dropped and how many
/// characters collapsing removed.
pub fn snip_compact(messages: &mut Vec<ChatMessage>) -> (r: SnipOutcome)
    requires
        snip_safe(models(old(messages)@)),
        total_chars(models(old(messages)@)) <= usize::MAX,
    ensures
        models(final(messages)@) == snip_spec(models(old(messages)@)),
        r.dropped_messages == silent_count(models(old(messages)@)),
        r.snipped_chars == snip_chars(models(old(messages)@)),
{
    let ghost old_ms = models(messages@);
    let mut incoming: Vec<ChatMessage> = Vec::new();
    std::mem::swap(&mut incoming, messages);
    let mut kept: Vec<ChatMessage> = Vec::new();
    let mut dropped: usize = 0;
    let mut snipped_chars: usize = 0;
    let n = incoming.len();
    let mut i: usize = 0;
    while i < n
        invariant
            n == incoming@.len(),
            old_ms.len() == n,
            i <= n,
            snip_safe(old_ms),
            total_chars(old_ms) <= usize::MAX,
            forall|j: int| i <= j < n ==> #[trigger] incoming@[j]@ == old_ms[j],
            models(kept@) == snip_spec(old_ms.take(i as int)),
            dropped == silent_count(old_ms.take(i as int)),
            snipped_chars == snip_chars(old_ms.take(i as int)),
        decreases n - i,
    {
        let ghost next = old_ms.take(i as int + 1);
        assert(next.drop_last() =~= old_ms.take(i as int));
        assert(next.last() == old_ms[i as int]);
        proof {
            assert forall|j: int| 0 <= j < next.len() implies #[trigger] snip_gain(next[j]) >= 0 by {
                assert(next[j] == old_ms[j]);
            }
            lemma_snip_bounds(next);
            lemma_chars_upto_take(old_ms, i as int + 1);
            lemma_chars_upto_monotone(old_ms, i as int + 1, n as int);
        }
        let mut message = placeholder();
        std::mem::swap(&mut message, &mut incoming[i]);
        assert(message@ == old_ms[i as int]);
        let quiet = !role_is(&message, "tool") && is_blank(message.content.as_str()) && message.tool_calls.len() == 0
            && message.parts.len() == 0 && match &message.reasoning_content {
            Some(reasoning) => is_blank(reasoning.as_str()),
            None => true,
        };
        if quiet {
            dropped = dropped + 1;
        } else {
            if role_is(&message, "tool") {
                match collapse_repeated_lines(message.content.as_str()) {
                    Some(collapsed) => {
                        let before_len = chars_of(message.content.as_str()).len();
                        let after_len = chars_of(collapsed.as_str()).len();
                        assert(snip_gain(old_ms[i as int]) >= 0);
                        snipped_chars = snipped_chars + (before_len - after_len);
                        message.content = collapsed;
                    },
                    None => {},
                }
            }
            assert(message@ == snipped(old_ms[i as int]));
            let ghost prev = kept@;
            kept.push(message);
            assert(models(kept@) =~= models(prev).push(snipped(old_ms[i as int])));
        }
        i = i + 1;
    }
    assert(old_ms.take(n as int) =~= old_ms);
    *messages = kept;
    SnipOutcome { dropped_messages: dropped, snipped_chars: snipped_chars }
}


/// What the rule pass removed.
#[derive(Debug, Clone, Copy, PartialEq, Eq, Structural)]
pub struct SnipOutcome {
    /// Silent messages dropped.
    pub dropped_messages: usize,
    /// Characters removed by collapsing repeated lines.
    pub snipped_chars: usize,
}


} // verus!
