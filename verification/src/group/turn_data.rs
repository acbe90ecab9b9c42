use vstd::prelude::*;

use crate::conversation::{opt_seq, json_normalized, normalize_json, json_string_literal, quote_json};
use crate::text::{same_text, trim_spec, is_blank};
use crate::compaction::message::ToolCall;
use crate::group::text::{
    cut_with, summarize_text, summarize_value, tool_status_text, tool_status_wire, ToolStatus, SUMMARY_LIMIT,
    VALUE_SUMMARY_LIMIT,
};

verus! {

/// One tool call recorded for persistence. `args` and `approval_request`
/// hold JSON text.
#[derive(Debug, Clone, PartialEq, Eq)]
pub struct RecordedToolCall {
    pub tool_call_id: Option<String>,
    pub tool_name: Option<String>,
    pub status: Option<String>,
    pub args_summary: Option<String>,
    pub result_summary: Option<String>,
    pub args: Option<String>,
    pub result: Option<String>,
    pub approval_request: Option<String>,
}

/// A recorded call as the contracts see it.
pub struct CallView {
    pub id: Option<Seq<char>>,
    pub name: Option<Seq<char>>,
    pub status: Option<Seq<char>>,
    pub args_summary: Option<Seq<char>>,
    pub result_summary: Option<Seq<char>>,
    pub args: Option<Seq<char>>,
    pub result: Option<Seq<char>>,
    pub approval_request: Option<Seq<char>>,
}

impl View for RecordedToolCall {
    type V = CallView;

    open spec fn view(&self) -> CallView {
        CallView {
            id: opt_seq(self.tool_call_id),
            name: opt_seq(self.tool_name),
            status: opt_seq(self.status),
            args_summary: opt_seq(self.args_summary),
            result_summary: opt_seq(self.result_summary),
            args: opt_seq(self.args),
            result: opt_seq(self.result),
            approval_request: opt_seq(self.approval_request),
        }
    }
}

/// What one agent turn accumulates so that its response segments, reasoning
/// blocks, tool cards, checklist and final context usage survive a restart.
/// `todos` holds each checklist item as JSON text, `context_usage` JSON text.
#[derive(Debug, Clone, PartialEq, Eq)]
pub struct TurnData {
    pub response_segments: Vec<String>,
    pub reasoning: Vec<String>,
    pub tool_calls: Vec<RecordedToolCall>,
    pub todos: Vec<String>,
    pub context_usage: Option<String>,
}

/// A turn's record as the contracts see it.
pub struct TurnView {
    pub response_segments: Seq<Seq<char>>,
    pub reasoning: Seq<Seq<char>>,
    pub tool_calls: Seq<CallView>,
    pub todos: Seq<Seq<char>>,
    pub context_usage: Option<Seq<char>>,
}

/// The texts of a list of strings.
pub open spec fn texts(v: Seq<String>) -> Seq<Seq<char>> {
    v.map_values(|s: String| s@)
}

/// The views of a list of recorded calls.
pub open spec fn call_views(v: Seq<RecordedToolCall>) -> Seq<CallView> {
    v.map_values(|c: RecordedToolCall| c@)
}

impl View for TurnData {
    type V = TurnView;

    open spec fn view(&self) -> TurnView {
        TurnView {
            response_segments: texts(self.response_segments@),
            reasoning: texts(self.reasoning@),
            tool_calls: call_views(self.tool_calls@),
            todos: texts(self.todos@),
            context_usage: opt_seq(self.context_usage),
        }
    }
}

/// A segment list after a delta: a new segment when asked for or when there
/// is none yet, else the delta appended to the last one.
pub open spec fn pushed_segment(segments: Seq<Seq<char>>, text: Seq<char>, new_segment: bool) -> Seq<Seq<char>> {
    if new_segment || segments.len() == 0 {
        segments.push(text)
    } else {
        segments.update(segments.len() - 1, segments.last() + text)
    }
}

/// The last segment that is not blank.
pub open spec fn last_non_blank(segments: Seq<Seq<char>>) -> Option<Seq<char>>
    decreases segments.len(),
{
    if segments.len() == 0 {
        None
    } else if trim_spec(segments.last()).len() > 0 {
        Some(segments.last())
    } else {
        last_non_blank(segments.drop_last())
    }
}

/// Whether every segment is empty.
pub open spec fn all_segments_empty(segments: Seq<Seq<char>>) -> bool {
    forall|i: int| 0 <= i < segments.len() ==> #[trigger] segments[i].len() == 0
}

/// Whether a turn's record holds nothing worth persisting.
pub open spec fn turn_is_empty(t: TurnView) -> bool {
    &&& all_segments_empty(t.response_segments)
    &&& all_segments_empty(t.reasoning)
    &&& t.tool_calls.len() == 0
    &&& t.todos.len() == 0
    &&& t.context_usage is None
}

/// Whether a call is the one looked for: recorded under `id`, and, when
/// `unanswered` is asked for, still waiting on the user (it asked for
/// approval and has no result yet).
pub open spec fn call_matches(c: CallView, id: Seq<char>, unanswered: bool) -> bool {
    c.id == Some(id) && (unanswered ==> c.status == Some("approval_required"@) && c.result is None)
}

/// The index of the first call that matches, if any.
pub open spec fn first_match(calls: Seq<CallView>, id: Seq<char>, unanswered: bool) -> Option<int>
    decreases calls.len(),
{
    if calls.len() == 0 {
        None
    } else {
        match first_match(calls.drop_last(), id, unanswered) {
            Some(k) => Some(k),
            None => if call_matches(calls.last(), id, unanswered) {
                Some(calls.len() - 1)
            } else {
                None
            },
        }
    }
}

/// The index of the first call recorded under `id`, if any.
pub open spec fn first_call_with(calls: Seq<CallView>, id: Seq<char>) -> Option<int> {
    first_match(calls, id, false)
}

/// The index of the first call recorded under `id` that still waits on the
/// user, if any.
pub open spec fn first_unanswered(calls: Seq<CallView>, id: Seq<char>) -> Option<int> {
    first_match(calls, id, true)
}

/// `first_match` finds the first matching call.
pub proof fn lemma_first_match(calls: Seq<CallView>, id: Seq<char>, unanswered: bool)
    ensures
        match first_match(calls, id, unanswered) {
            Some(k) => 0 <= k < calls.len() && call_matches(calls[k], id, unanswered) && forall|j: int|
                0 <= j < k ==> !call_matches(#[trigger] calls[j], id, unanswered),
            None => forall|j: int| 0 <= j < calls.len() ==> !call_matches(#[trigger] calls[j], id, unanswered),
        },
    decreases calls.len(),
{
    if calls.len() > 0 {
        lemma_first_match(calls.drop_last(), id, unanswered);
        assert forall|j: int| 0 <= j < calls.len() - 1 implies #[trigger] calls[j] == calls.drop_last()[j] by {}
    }
}

/// A call after its result arrives: each field the result carries replaces
/// the one recorded at the start.
pub open spec fn merged_result(
    c: CallView,
    name: Option<Seq<char>>,
    status: Option<Seq<char>>,
    result_summary: Option<Seq<char>>,
) -> CallView {
    CallView {
        id: c.id,
        name: if name is Some { name } else { c.name },
        status: if status is Some { status } else { c.status },
        args_summary: c.args_summary,
        result_summary: if result_summary is Some { result_summary } else { c.result_summary },
        args: c.args,
        result: if result_summary is Some { result_summary } else { c.result },
        approval_request: c.approval_request,
    }
}

/// The calls after a result: merged into the call started under the same id
/// when there is one, else recorded on its own.
pub open spec fn result_recorded(
    calls: Seq<CallView>,
    id: Option<Seq<char>>,
    name: Option<Seq<char>>,
    status: Option<Seq<char>>,
    result_summary: Option<Seq<char>>,
) -> Seq<CallView> {
    match id {
        Some(i) => match first_call_with(calls, i) {
            Some(k) => calls.update(k, merged_result(calls[k], name, status, result_summary)),
            None => calls.push(
                CallView {
                    id,
                    name,
                    status,
                    args_summary: None,
                    result_summary,
                    args: None,
                    result: result_summary,
                    approval_request: None,
                },
            ),
        },
        None => calls.push(
            CallView {
                id,
                name,
                status,
                args_summary: None,
                result_summary,
                args: None,
                result: result_summary,
                approval_request: None,
            },
        ),
    }
}

/// The calls with the question a paused call waits on attached to the
/// first call recorded under `id`.
pub open spec fn with_approval_request(calls: Seq<CallView>, id: Seq<char>, request: Seq<char>) -> Seq<CallView> {
    match first_call_with(calls, id) {
        Some(k) => calls.update(k, CallView { approval_request: Some(request), ..calls[k] }),
        None => calls,
    }
}

/// The calls with the full arguments of the first call recorded under `id`.
pub open spec fn with_args(calls: Seq<CallView>, id: Seq<char>, args: Seq<char>) -> Seq<CallView> {
    match first_call_with(calls, id) {
        Some(k) => calls.update(k, CallView { args: Some(args), ..calls[k] }),
        None => calls,
    }
}

/// The calls with the complete output of the first call recorded under
/// `id`.
pub open spec fn with_output(calls: Seq<CallView>, id: Seq<char>, output: Seq<char>) -> Seq<CallView> {
    match first_call_with(calls, id) {
        Some(k) => calls.update(k, CallView { result: Some(output), ..calls[k] }),
        None => calls,
    }
}

/// The calls after one call of a batch is recorded as started: its
/// argument summary is its arguments' text cut to the value-summary limit,
/// and its full arguments are kept beside it.
pub open spec fn call_started(calls: Seq<CallView>, call: ToolCall) -> Seq<CallView> {
    let summary = cut_with(call.args@, VALUE_SUMMARY_LIMIT as int, "..."@);
    with_args(
        calls.push(
            CallView {
                id: Some(call.id@),
                name: Some(call.name@),
                status: Some("started"@),
                args_summary: Some(summary),
                result_summary: None,
                args: started_args(Some(summary)),
                result: None,
                approval_request: None,
            },
        ),
        call.id@,
        call.args@,
    )
}

/// The calls after every call of a batch is recorded as started, in order.
pub open spec fn batch_started(calls: Seq<CallView>, batch: Seq<ToolCall>) -> Seq<CallView>
    decreases batch.len(),
{
    if batch.len() == 0 {
        calls
    } else {
        call_started(batch_started(calls, batch.drop_last()), batch.last())
    }
}

/// The calls after one call's outcome: the status and, unless the call
/// waits for approval, a summary of its output are merged into it; a call
/// waiting for approval gets its question (when it has one) and no result,
/// any other call keeps its complete output.
pub open spec fn outcome_calls(
    calls: Seq<CallView>,
    call: ToolCall,
    status: ToolStatus,
    output: Seq<char>,
    approval_request: Option<Seq<char>>,
) -> Seq<CallView> {
    let awaiting = status == ToolStatus::ApprovalRequired;
    let merged = result_recorded(
        calls,
        Some(call.id@),
        Some(call.name@),
        Some(tool_status_text(status)),
        if awaiting { None } else { Some(cut_with(output, SUMMARY_LIMIT as int, "..."@)) },
    );
    if awaiting {
        match approval_request {
            Some(q) => with_approval_request(merged, call.id@, q),
            None => merged,
        }
    } else {
        with_output(merged, call.id@, output)
    }
}

/// The arguments a call started with: its argument summary read as JSON.
pub open spec fn started_args(args_summary: Option<Seq<char>>) -> Option<Seq<char>> {
    match args_summary {
        Some(raw) => json_normalized(raw),
        None => None,
    }
}

/// A JSON value, or `null` when absent.
pub open spec fn json_or_null(t: Option<Seq<char>>) -> Seq<char> {
    match t {
        Some(v) => v,
        None => "null"@,
    }
}

/// A text as a JSON string, or `null` when absent.
pub open spec fn string_or_null(t: Option<Seq<char>>) -> Seq<char> {
    match t {
        Some(v) => json_string_literal(v),
        None => "null"@,
    }
}

/// JSON values separated by commas.
pub open spec fn joined(items: Seq<Seq<char>>) -> Seq<char>
    decreases items.len(),
{
    if items.len() == 0 {
        Seq::empty()
    } else if items.len() == 1 {
        items[0]
    } else {
        joined(items.drop_last()) + ","@ + items.last()
    }
}

/// The segments that are not empty, in order.
pub open spec fn non_empty_segments(segments: Seq<Seq<char>>) -> Seq<Seq<char>>
    decreases segments.len(),
{
    if segments.len() == 0 {
        segments
    } else if segments.last().len() > 0 {
        non_empty_segments(segments.drop_last()).push(segments.last())
    } else {
        non_empty_segments(segments.drop_last())
    }
}

/// Texts as JSON strings.
pub open spec fn literals(texts: Seq<Seq<char>>) -> Seq<Seq<char>> {
    texts.map_values(|t: Seq<char>| json_string_literal(t))
}

/// One recorded call as a JSON object, its keys in byte order.
pub open spec fn call_json(c: CallView) -> Seq<char> {
    "{\"approval_request\":"@ + json_or_null(c.approval_request) + ",\"args\":"@ + json_or_null(c.args)
        + ",\"args_summary\":"@ + string_or_null(c.args_summary) + ",\"result\":"@ + string_or_null(c.result)
        + ",\"result_summary\":"@ + string_or_null(c.result_summary) + ",\"status\":"@ + string_or_null(c.status)
        + ",\"tool_call_id\":"@ + string_or_null(c.id) + ",\"tool_name\":"@ + string_or_null(c.name) + "}"@
}

/// The recorded calls as JSON objects.
pub open spec fn calls_json(calls: Seq<CallView>) -> Seq<Seq<char>> {
    calls.map_values(|c: CallView| call_json(c))
}

/// A turn's record in the versioned `content_json` form (schema version
/// 1), its keys in byte order: empty segments are left out, the checklist
/// items, the arguments, the questions and the context usage go in as the
/// JSON they are.
pub open spec fn content_json(t: TurnView) -> Seq<char> {
    "{\"context_usage\":"@ + json_or_null(t.context_usage) + ",\"reasoning\":["@ + joined(
        literals(non_empty_segments(t.reasoning)),
    ) + "],\"response_segments\":["@ + joined(literals(non_empty_segments(t.response_segments)))
        + "],\"schema_version\":1,\"todos\":["@ + joined(t.todos) + "],\"tool_calls\":["@ + joined(
        calls_json(t.tool_calls),
    ) + "]}"@
}

fn push_segment(segments: &mut Vec<String>, text: &str, new_segment: bool)
    ensures
        texts(final(segments)@) == pushed_segment(texts(old(segments)@), text@, new_segment),
{
    let n = segments.len();
    if new_segment || n == 0 {
        segments.push(text.to_owned());
        assert(texts(segments@) =~= texts(old(segments)@).push(text@));
    } else {
        let mut last = segments.pop().unwrap();
        last.append(text);
        segments.push(last);
        assert(texts(segments@) =~= texts(old(segments)@).update(n - 1, texts(old(segments)@).last() + text@));
    }
}

fn find_call(calls: &Vec<RecordedToolCall>, id: &str, unanswered: bool) -> (r: Option<usize>)
    ensures
        r matches Some(k) ==> k < calls@.len(),
        match first_match(call_views(calls@), id@, unanswered) {
            Some(k) => r matches Some(i) && i as int == k,
            None => r is None,
        },
{
    let ghost views = call_views(calls@);
    proof {
        lemma_first_match(views, id@, unanswered);
    }
    let mut i: usize = 0;
    while i < calls.len()
        invariant
            i <= calls@.len(),
            views == call_views(calls@),
            forall|j: int| 0 <= j < i ==> !call_matches(#[trigger] views[j], id@, unanswered),
            match first_match(views, id@, unanswered) {
                Some(k) => 0 <= k < views.len() && call_matches(views[k], id@, unanswered) && forall|j: int|
                    0 <= j < k ==> !call_matches(#[trigger] views[j], id@, unanswered),
                None => forall|j: int| 0 <= j < views.len() ==> !call_matches(#[trigger] views[j], id@, unanswered),
            },
        decreases calls@.len() - i,
    {
        let c = &calls[i];
        let id_matches = match &c.tool_call_id {
            Some(t) => same_text(t.as_str(), id),
            None => false,
        };
        let hit = if unanswered {
            let awaiting = match &c.status {
                Some(st) => same_text(st.as_str(), "approval_required"),
                None => false,
            };
            id_matches && awaiting && c.result.is_none()
        } else {
            id_matches
        };
        assert(hit == call_matches(views[i as int], id@, unanswered));
        if hit {
            return Some(i);
        }
        i = i + 1;
    }
    None
}

fn copy_text(o: &Option<String>) -> (r: Option<String>)
    ensures
        opt_seq(r) == opt_seq(*o),
{
    match o {
        Some(t) => Some(t.clone()),
        None => None,
    }
}

fn copy_call(c: &RecordedToolCall) -> (r: RecordedToolCall)
    ensures
        r@ == c@,
{
    RecordedToolCall {
        tool_call_id: copy_text(&c.tool_call_id),
        tool_name: copy_text(&c.tool_name),
        status: copy_text(&c.status),
        args_summary: copy_text(&c.args_summary),
        result_summary: copy_text(&c.result_summary),
        args: copy_text(&c.args),
        result: copy_text(&c.result),
        approval_request: copy_text(&c.approval_request),
    }
}

fn replace_call(calls: &mut Vec<RecordedToolCall>, k: usize, call: RecordedToolCall)
    requires
        k < old(calls)@.len(),
    ensures
        call_views(final(calls)@) == call_views(old(calls)@).update(k as int, call@),
{
    let _ = calls.remove(k);
    calls.insert(k, call);
    assert(calls@ =~= old(calls)@.update(k as int, call));
    assert(call_views(calls@) =~= call_views(old(calls)@).update(k as int, call@));
}

fn append_or_null(out: &mut String, t: &Option<String>)
    ensures
        final(out)@ == old(out)@ + json_or_null(opt_seq(*t)),
{
    match t {
        Some(v) => out.append(v.as_str()),
        None => out.append("null"),
    }
}

fn append_string_or_null(out: &mut String, t: &Option<String>)
    ensures
        final(out)@ == old(out)@ + string_or_null(opt_seq(*t)),
{
    match t {
        Some(v) => out.append(quote_json(v.as_str()).as_str()),
        None => out.append("null"),
    }
}

fn append_call(out: &mut String, c: &RecordedToolCall)
    ensures
        final(out)@ == old(out)@ + call_json(c@),
{
    let ghost start = out@;
    let ghost v = c@;
    out.append("{\"approval_request\":");
    append_or_null(out, &c.approval_request);
    out.append(",\"args\":");
    append_or_null(out, &c.args);
    let ghost a = "{\"approval_request\":"@ + json_or_null(v.approval_request) + ",\"args\":"@ + json_or_null(v.args);
    assert(out@ =~= start + a);
    out.append(",\"args_summary\":");
    append_string_or_null(out, &c.args_summary);
    out.append(",\"result\":");
    append_string_or_null(out, &c.result);
    let ghost b = a + ",\"args_summary\":"@ + string_or_null(v.args_summary) + ",\"result\":"@ + string_or_null(v.result);
    assert(out@ =~= start + b);
    out.append(",\"result_summary\":");
    append_string_or_null(out, &c.result_summary);
    out.append(",\"status\":");
    append_string_or_null(out, &c.status);
    let ghost d = b + ",\"result_summary\":"@ + string_or_null(v.result_summary) + ",\"status\":"@ + string_or_null(v.status);
    assert(out@ =~= start + d);
    out.append(",\"tool_call_id\":");
    append_string_or_null(out, &c.tool_call_id);
    out.append(",\"tool_name\":");
    append_string_or_null(out, &c.tool_name);
    out.append("}");
    let ghost e = d + ",\"tool_call_id\":"@ + string_or_null(v.id) + ",\"tool_name\":"@ + string_or_null(v.name) + "}"@;
    assert(out@ =~= start + e);
    assert(e =~= call_json(v));
}

fn append_segment_literals(out: &mut String, segments: &Vec<String>)
    ensures
        final(out)@ == old(out)@ + joined(literals(non_empty_segments(texts(segments@)))),
{
    let ghost all = texts(segments@);
    let mut count: usize = 0;
    let mut i: usize = 0;
    while i < segments.len()
        invariant
            i <= segments@.len(),
            all == texts(segments@),
            count == non_empty_segments(all.take(i as int)).len(),
            count <= i,
            out@ == old(out)@ + joined(literals(non_empty_segments(all.take(i as int)))),
        decreases segments@.len() - i,
    {
        assert(all.take(i as int + 1).drop_last() =~= all.take(i as int));
        let ghost before = non_empty_segments(all.take(i as int));
        if !segments[i].as_str().is_empty() {
            if count > 0 {
                out.append(",");
            }
            out.append(quote_json(segments[i].as_str()).as_str());
            count = count + 1;
            assert(literals(before.push(all[i as int])) =~= literals(before).push(json_string_literal(all[i as int])));
            assert(literals(before.push(all[i as int])).drop_last() =~= literals(before));
        }
        i = i + 1;
    }
    assert(all.take(i as int) =~= all);
}

fn append_joined(out: &mut String, items: &Vec<String>)
    ensures
        final(out)@ == old(out)@ + joined(texts(items@)),
{
    let ghost all = texts(items@);
    let mut i: usize = 0;
    while i < items.len()
        invariant
            i <= items@.len(),
            all == texts(items@),
            out@ == old(out)@ + joined(all.take(i as int)),
        decreases items@.len() - i,
    {
        assert(all.take(i as int + 1).drop_last() =~= all.take(i as int));
        if i > 0 {
            out.append(",");
        }
        out.append(items[i].as_str());
        i = i + 1;
    }
    assert(all.take(i as int) =~= all);
}

fn append_calls(out: &mut String, calls: &Vec<RecordedToolCall>)
    ensures
        final(out)@ == old(out)@ + joined(calls_json(call_views(calls@))),
{
    let ghost all = calls_json(call_views(calls@));
    let mut i: usize = 0;
    while i < calls.len()
        invariant
            i <= calls@.len(),
            all == calls_json(call_views(calls@)),
            out@ == old(out)@ + joined(all.take(i as int)),
        decreases calls@.len() - i,
    {
        assert(all.take(i as int + 1).drop_last() =~= all.take(i as int));
        if i > 0 {
            out.append(",");
        }
        append_call(out, &calls[i]);
        i = i + 1;
    }
    assert(all.take(i as int) =~= all);
}

fn all_empty(segments: &Vec<String>) -> (r: bool)
    ensures
        r == all_segments_empty(texts(segments@)),
{
    let mut i: usize = 0;
    while i < segments.len()
        invariant
            i <= segments@.len(),
            forall|k: int| 0 <= k < i ==> #[trigger] texts(segments@)[k].len() == 0,
        decreases segments@.len() - i,
    {
        if !segments[i].as_str().is_empty() {
            assert(texts(segments@)[i as int].len() != 0);
            return false;
        }
        i = i + 1;
    }
    true
}

impl TurnData {
    /// A turn with nothing recorded yet.
    pub fn new() -> (r: TurnData)
        ensures
            r@.response_segments.len() == 0,
            r@.reasoning.len() == 0,
            r@.tool_calls.len() == 0,
            r@.todos.len() == 0,
            r@.context_usage is None,
    {
        TurnData {
            response_segments: Vec::new(),
            reasoning: Vec::new(),
            tool_calls: Vec::new(),
            todos: Vec::new(),
            context_usage: None,
        }
    }

    /// Add a response delta: a new bubble when asked for (or when there is
    /// none yet), else more text in the current one.
    pub fn push_response(&mut self, text: &str, new_segment: bool)
        ensures
            final(self)@.response_segments == pushed_segment(old(self)@.response_segments, text@, new_segment),
            final(self)@.reasoning == old(self)@.reasoning,
            final(self)@.tool_calls == old(self)@.tool_calls,
            final(self)@.todos == old(self)@.todos,
            final(self)@.context_usage == old(self)@.context_usage,
    {
        push_segment(&mut self.response_segments, text, new_segment);
    }

    /// Add a reasoning delta: a new block when the previous one was
    /// interrupted (or when there is none yet), else more of the current one.
    pub fn push_reasoning(&mut self, text: &str, new_segment: bool)
        ensures
            final(self)@.reasoning == pushed_segment(old(self)@.reasoning, text@, new_segment),
            final(self)@.response_segments == old(self)@.response_segments,
            final(self)@.tool_calls == old(self)@.tool_calls,
            final(self)@.todos == old(self)@.todos,
            final(self)@.context_usage == old(self)@.context_usage,
    {
        push_segment(&mut self.reasoning, text, new_segment);
    }

    /// The most recent reasoning block that is not blank: what the model was
    /// thinking about just before the call it is paused on.
    pub fn latest_reasoning(&self) -> (r: Option<&str>)
        ensures
            match last_non_blank(self@.reasoning) {
                Some(s) => r matches Some(t) && t@ == s,
                None => r is None,
            },
    {
        let ghost all = self@.reasoning;
        let mut i: usize = self.reasoning.len();
        assert(all.take(i as int) =~= all);
        while i > 0
            invariant
                i <= self.reasoning@.len(),
                all == texts(self.reasoning@),
                last_non_blank(all) == last_non_blank(all.take(i as int)),
            decreases i,
        {
            assert(all.take(i as int).drop_last() =~= all.take(i as int - 1));
            if !is_blank(self.reasoning[i - 1].as_str()) {
                return Some(self.reasoning[i - 1].as_str());
            }
            i = i - 1;
        }
        None
    }

    /// Record the start of a tool call; its arguments are its argument
    /// summary read as JSON, when it reads.
    pub fn record_tool_start(
        &mut self,
        tool_call_id: Option<String>,
        tool_name: Option<String>,
        status: Option<String>,
        args_summary: Option<String>,
    )
        ensures
            final(self)@.tool_calls == old(self)@.tool_calls.push(
                CallView {
                    id: opt_seq(tool_call_id),
                    name: opt_seq(tool_name),
                    status: opt_seq(status),
                    args_summary: opt_seq(args_summary),
                    result_summary: None,
                    args: started_args(opt_seq(args_summary)),
                    result: None,
                    approval_request: None,
                },
            ),
            final(self)@.response_segments == old(self)@.response_segments,
            final(self)@.reasoning == old(self)@.reasoning,
            final(self)@.todos == old(self)@.todos,
            final(self)@.context_usage == old(self)@.context_usage,
    {
        let args = match &args_summary {
            Some(raw) => normalize_json(raw.as_str()),
            None => None,
        };
        self.tool_calls.push(
            RecordedToolCall {
                tool_call_id,
                tool_name,
                status,
                args_summary,
                result_summary: None,
                args,
                result: None,
                approval_request: None,
            },
        );
        assert(self@.tool_calls =~= old(self)@.tool_calls.push(self.tool_calls@.last()@));
    }

    /// Merge a tool result into the call started under the same id, or
    /// record it on its own when no start was seen.
    pub fn record_tool_result(
        &mut self,
        tool_call_id: Option<String>,
        tool_name: Option<String>,
        status: Option<String>,
        result_summary: Option<String>,
    )
        ensures
            final(self)@.tool_calls == result_recorded(
                old(self)@.tool_calls,
                opt_seq(tool_call_id),
                opt_seq(tool_name),
                opt_seq(status),
                opt_seq(result_summary),
            ),
            final(self)@.response_segments == old(self)@.response_segments,
            final(self)@.reasoning == old(self)@.reasoning,
            final(self)@.todos == old(self)@.todos,
            final(self)@.context_usage == old(self)@.context_usage,
    {
        let found = match &tool_call_id {
            Some(id) => find_call(&self.tool_calls, id.as_str(), false),
            None => None,
        };
        match found {
            Some(k) => {
                let mut call = copy_call(&self.tool_calls[k]);
                if status.is_some() {
                    call.status = status;
                }
                if tool_name.is_some() {
                    call.tool_name = tool_name;
                }
                match result_summary {
                    Some(text) => {
                        call.result = Some(text.clone());
                        call.result_summary = Some(text);
                    },
                    None => {},
                }
                replace_call(&mut self.tool_calls, k, call);
                assert(self@.tool_calls =~= result_recorded(
                    old(self)@.tool_calls,
                    opt_seq(tool_call_id),
                    opt_seq(tool_name),
                    opt_seq(status),
                    opt_seq(result_summary),
                ));
            },
            None => {
                let result = copy_text(&result_summary);
                self.tool_calls.push(
                    RecordedToolCall {
                        tool_call_id,
                        tool_name,
                        status,
                        args_summary: None,
                        result_summary,
                        args: None,
                        result,
                        approval_request: None,
                    },
                );
                assert(self@.tool_calls =~= result_recorded(
                    old(self)@.tool_calls,
                    opt_seq(tool_call_id),
                    opt_seq(tool_name),
                    opt_seq(status),
                    opt_seq(result_summary),
                ));
            },
        }
    }

    /// Attach the question a paused call is waiting on (as JSON text) to the
    /// first call recorded under `tool_call_id`.
    pub fn record_tool_approval_request(&mut self, tool_call_id: &str, request: String)
        ensures
            final(self)@.tool_calls == with_approval_request(old(self)@.tool_calls, tool_call_id@, request@),
            final(self)@.response_segments == old(self)@.response_segments,
            final(self)@.reasoning == old(self)@.reasoning,
            final(self)@.todos == old(self)@.todos,
            final(self)@.context_usage == old(self)@.context_usage,
    {
        match find_call(&self.tool_calls, tool_call_id, false) {
            Some(k) => {
                let mut call = copy_call(&self.tool_calls[k]);
                call.approval_request = Some(request);
                replace_call(&mut self.tool_calls, k, call);
                assert(self@.tool_calls =~= old(self)@.tool_calls.update(
                    k as int,
                    CallView { approval_request: Some(request@), ..old(self)@.tool_calls[k as int] },
                ));
            },
            None => {},
        }
    }

    /// Keep the full arguments (JSON text) of the first call recorded under
    /// `tool_call_id`.
    pub fn record_tool_args(&mut self, tool_call_id: &str, args: String)
        ensures
            final(self)@.tool_calls == with_args(old(self)@.tool_calls, tool_call_id@, args@),
            final(self)@.response_segments == old(self)@.response_segments,
            final(self)@.reasoning == old(self)@.reasoning,
            final(self)@.todos == old(self)@.todos,
            final(self)@.context_usage == old(self)@.context_usage,
    {
        match find_call(&self.tool_calls, tool_call_id, false) {
            Some(k) => {
                let mut call = copy_call(&self.tool_calls[k]);
                call.args = Some(args);
                replace_call(&mut self.tool_calls, k, call);
                assert(self@.tool_calls =~= old(self)@.tool_calls.update(
                    k as int,
                    CallView { args: Some(args@), ..old(self)@.tool_calls[k as int] },
                ));
            },
            None => {},
        }
    }

    /// Keep the complete output of the first call recorded under
    /// `tool_call_id`.
    pub fn record_tool_output(&mut self, tool_call_id: &str, result: String)
        ensures
            final(self)@.tool_calls == with_output(old(self)@.tool_calls, tool_call_id@, result@),
            final(self)@.response_segments == old(self)@.response_segments,
            final(self)@.reasoning == old(self)@.reasoning,
            final(self)@.todos == old(self)@.todos,
            final(self)@.context_usage == old(self)@.context_usage,
    {
        match find_call(&self.tool_calls, tool_call_id, false) {
            Some(k) => {
                let mut call = copy_call(&self.tool_calls[k]);
                call.result = Some(result);
                replace_call(&mut self.tool_calls, k, call);
                assert(self@.tool_calls =~= old(self)@.tool_calls.update(
                    k as int,
                    CallView { result: Some(result@), ..old(self)@.tool_calls[k as int] },
                ));
            },
            None => {},
        }
    }

    /// Replace the checklist (each item as JSON text) with the latest one.
    pub fn record_todos(&mut self, todos: Vec<String>)
        ensures
            final(self)@.todos == texts(todos@),
            final(self)@.response_segments == old(self)@.response_segments,
            final(self)@.reasoning == old(self)@.reasoning,
            final(self)@.tool_calls == old(self)@.tool_calls,
            final(self)@.context_usage == old(self)@.context_usage,
    {
        self.todos = todos;
    }

    /// Keep the turn's final context usage (JSON text).
    pub fn set_context_usage(&mut self, usage: String)
        ensures
            final(self)@.context_usage == Some(usage@),
            final(self)@.response_segments == old(self)@.response_segments,
            final(self)@.reasoning == old(self)@.reasoning,
            final(self)@.tool_calls == old(self)@.tool_calls,
            final(self)@.todos == old(self)@.todos,
    {
        self.context_usage = Some(usage);
    }

    /// The call and question a resume answers: the first call recorded under
    /// `tool_call_id` that asked for approval and has no result yet, with its
    /// tool, its arguments and its question (JSON text), when it kept all
    /// three.
    pub fn pending_approval(&self, tool_call_id: &str) -> (r: Option<(ToolCall, String)>)
        ensures
            match first_unanswered(self@.tool_calls, tool_call_id@) {
                Some(k) => {
                    let c = self@.tool_calls[k];
                    if c.name is Some && c.args is Some && c.approval_request is Some {
                        r matches Some((call, request)) && call.id@ == tool_call_id@ && call.name@ == c.name->0
                            && call.args@ == c.args->0 && request@ == c.approval_request->0
                    } else {
                        r is None
                    }
                },
                None => r is None,
            },
    {
        let k = match find_call(&self.tool_calls, tool_call_id, true) {
            Some(k) => k,
            None => return None,
        };
        let recorded = &self.tool_calls[k];
        assert(recorded@ == self@.tool_calls[k as int]);
        let request = match &recorded.approval_request {
            Some(q) => q.clone(),
            None => return None,
        };
        let name = match &recorded.tool_name {
            Some(n) => n.clone(),
            None => return None,
        };
        let args = match &recorded.args {
            Some(a) => a.clone(),
            None => return None,
        };
        Some((ToolCall { id: tool_call_id.to_owned(), name, args }, request))
    }

    /// The versioned `content_json` form of the turn, or `None` when nothing
    /// is worth persisting, so that a plain text message keeps no structured
    /// column.
    pub fn to_content_json(&self) -> (r: Option<String>)
        ensures
            turn_is_empty(self@) ==> r is None,
            !turn_is_empty(self@) ==> (r matches Some(t) && t@ == content_json(self@)),
    {
        if self.is_empty() {
            return None;
        }
        let mut out = "{\"context_usage\":".to_owned();
        append_or_null(&mut out, &self.context_usage);
        out.append(",\"reasoning\":[");
        append_segment_literals(&mut out, &self.reasoning);
        out.append("],\"response_segments\":[");
        append_segment_literals(&mut out, &self.response_segments);
        out.append("],\"schema_version\":1,\"todos\":[");
        append_joined(&mut out, &self.todos);
        out.append("],\"tool_calls\":[");
        append_calls(&mut out, &self.tool_calls);
        out.append("]}");
        assert(out@ =~= content_json(self@));
        Some(out)
    }

    /// Record every call of a batch as started, in order: its status
    /// `started`, its arguments' summary, and its full arguments.
    pub fn record_batch_start(&mut self, calls: &[ToolCall])
        ensures
            final(self)@.tool_calls == batch_started(old(self)@.tool_calls, calls@),
            final(self)@.response_segments == old(self)@.response_segments,
            final(self)@.reasoning == old(self)@.reasoning,
            final(self)@.todos == old(self)@.todos,
            final(self)@.context_usage == old(self)@.context_usage,
    {
        let mut i: usize = 0;
        while i < calls.len()
            invariant
                i <= calls@.len(),
                self@.tool_calls == batch_started(old(self)@.tool_calls, calls@.take(i as int)),
                self@.response_segments == old(self)@.response_segments,
                self@.reasoning == old(self)@.reasoning,
                self@.todos == old(self)@.todos,
                self@.context_usage == old(self)@.context_usage,
            decreases calls@.len() - i,
        {
            assert(calls@.take(i as int + 1).drop_last() =~= calls@.take(i as int));
            let call = &calls[i];
            self.record_tool_start(
                Some(call.id.clone()),
                Some(call.name.clone()),
                Some("started".to_owned()),
                Some(summarize_value(call.args.as_str())),
            );
            self.record_tool_args(call.id.as_str(), call.args.clone());
            i = i + 1;
        }
        assert(calls@.take(i as int) =~= calls@);
    }

    /// Record what one call produced. A call waiting for approval has
    /// produced nothing yet: it keeps no result (else a resume would find it
    /// answered), only the question it waits on (JSON text, when the output
    /// carried one). The checklist the output carried (each item as JSON
    /// text), if any, replaces the turn's.
    pub fn record_tool_outcome(
        &mut self,
        call: &ToolCall,
        status: ToolStatus,
        output: &str,
        approval_request: Option<String>,
        todos: Option<Vec<String>>,
    )
        ensures
            final(self)@.tool_calls == outcome_calls(
                old(self)@.tool_calls,
                *call,
                status,
                output@,
                opt_seq(approval_request),
            ),
            final(self)@.todos == match todos {
                Some(items) => texts(items@),
                None => old(self)@.todos,
            },
            final(self)@.response_segments == old(self)@.response_segments,
            final(self)@.reasoning == old(self)@.reasoning,
            final(self)@.context_usage == old(self)@.context_usage,
    {
        let awaiting = match status {
            ToolStatus::ApprovalRequired => true,
            _ => false,
        };
        let summary = if awaiting {
            None
        } else {
            Some(summarize_text(output))
        };
        self.record_tool_result(
            Some(call.id.clone()),
            Some(call.name.clone()),
            Some(tool_status_wire(status).to_owned()),
            summary,
        );
        if awaiting {
            match approval_request {
                Some(q) => self.record_tool_approval_request(call.id.as_str(), q),
                None => {},
            }
        } else {
            self.record_tool_output(call.id.as_str(), output.to_owned());
        }
        match todos {
            Some(items) => self.record_todos(items),
            None => {},
        }
    }

    /// Whether nothing structured is worth persisting.
    pub fn is_empty(&self) -> (r: bool)
        ensures
            r == turn_is_empty(self@),
    {
        let segments_empty = all_empty(&self.response_segments);
        let reasoning_empty = all_empty(&self.reasoning);
        let r = segments_empty && reasoning_empty && self.tool_calls.len() == 0 && self.todos.len() == 0
            && self.context_usage.is_none();
        assert(self@.tool_calls.len() == self.tool_calls@.len());
        assert(self@.todos.len() == self.todos@.len());
        r
    }
}

impl Default for TurnData {
    fn default() -> (r: TurnData)
        ensures
            turn_is_empty(r@),
            r@.response_segments.len() == 0,
            r@.reasoning.len() == 0,
    {
        TurnData::new()
    }
}

/// A result for a call that was started under the same id is merged into
/// that call: no call is added, and what the start recorded (its id, its
/// argument summary, its arguments) stays.
pub proof fn lemma_result_merges_into_its_start(
    calls: Seq<CallView>,
    id: Seq<char>,
    name: Option<Seq<char>>,
    status: Option<Seq<char>>,
    result_summary: Option<Seq<char>>,
)
    requires
        exists|k: int| 0 <= k < calls.len() && #[trigger] calls[k].id == Some(id),
    ensures
        first_call_with(calls, id) matches Some(k) && {
            let after = result_recorded(calls, Some(id), name, status, result_summary);
            &&& after.len() == calls.len()
            &&& after[k].id == calls[k].id
            &&& after[k].args_summary == calls[k].args_summary
            &&& after[k].args == calls[k].args
            &&& (result_summary is Some ==> after[k].result == result_summary)
        },
{
    lemma_first_match(calls, id, false);
    let w = choose|k: int| 0 <= k < calls.len() && #[trigger] calls[k].id == Some(id);
    assert(call_matches(calls[w], id, false));
}

/// A response delta that continues the current bubble lands in the bubble
/// the previous delta opened.
pub proof fn lemma_continued_response_joins_its_bubble(segments: Seq<Seq<char>>, first: Seq<char>, more: Seq<char>)
    ensures
        pushed_segment(pushed_segment(segments, first, true), more, false) == segments.push(first + more),
{
    assert(pushed_segment(pushed_segment(segments, first, true), more, false) =~= segments.push(first + more));
}

/// A call that already has a result is never the one a resume answers, so
/// answering an approval twice finds nothing the second time.
pub proof fn lemma_answered_call_is_not_pending(calls: Seq<CallView>, id: Seq<char>, j: int)
    requires
        0 <= j < calls.len(),
        calls[j].result is Some,
    ensures
        first_unanswered(calls, id) != Some(j),
{
    lemma_first_match(calls, id, true);
}

/// A call started under an id no earlier call used, then paused for
/// approval with its question recorded, is the call a resume answers: it
/// still waits on the user, and it offers the tool, the full arguments and
/// the question it was paused with.
pub proof fn lemma_paused_call_is_resumable(
    calls: Seq<CallView>,
    call: ToolCall,
    output: Seq<char>,
    question: Seq<char>,
)
    requires
        forall|j: int| 0 <= j < calls.len() ==> #[trigger] calls[j].id != Some(call.id@),
    ensures
        ({
            let paused = outcome_calls(
                batch_started(calls, seq![call]),
                call,
                ToolStatus::ApprovalRequired,
                output,
                Some(question),
            );
            let n = calls.len() as int;
            &&& first_unanswered(paused, call.id@) == Some(n)
            &&& paused[n].name == Some(call.name@)
            &&& paused[n].args == Some(call.args@)
            &&& paused[n].approval_request == Some(question)
        }),
{
    let n = calls.len() as int;
    let id = call.id@;
    assert(seq![call].drop_last() =~= Seq::<ToolCall>::empty());
    assert(batch_started(calls, seq![call].drop_last()) == calls);
    assert(seq![call].last() == call);
    let summary = cut_with(call.args@, VALUE_SUMMARY_LIMIT as int, "..."@);
    let pushed = calls.push(
        CallView {
            id: Some(id),
            name: Some(call.name@),
            status: Some("started"@),
            args_summary: Some(summary),
            result_summary: None,
            args: started_args(Some(summary)),
            result: None,
            approval_request: None,
        },
    );
    lemma_first_match(pushed, id, false);
    assert(call_matches(pushed[n], id, false));
    let started = batch_started(calls, seq![call]);
    assert(started == with_args(pushed, id, call.args@));
    assert(first_call_with(pushed, id) == Some(n));
    lemma_first_match(started, id, false);
    assert(call_matches(started[n], id, false));
    assert forall|j: int| 0 <= j < n implies started[j] == calls[j] by {}
    assert(first_call_with(started, id) == Some(n));
    let merged = result_recorded(started, Some(id), Some(call.name@), Some("approval_required"@), None);
    lemma_first_match(merged, id, false);
    assert(call_matches(merged[n], id, false));
    assert forall|j: int| 0 <= j < n implies merged[j] == calls[j] by {}
    assert(first_call_with(merged, id) == Some(n));
    let paused = with_approval_request(merged, id, question);
    lemma_first_match(paused, id, true);
    assert(call_matches(paused[n], id, true));
    assert forall|j: int| 0 <= j < n implies paused[j] == calls[j] by {}
}

} // verus!
