use vstd::prelude::*;

use crate::text::{
    chars_of, push_decimal, same_text, split_lines, split_lines_exec, string_from_chars, take_chars, take_chars_exec,
    decimal, trim, trim_chars, trim_spec,
};
use crate::compaction::message::{ToolCall, call_view};
use crate::agent_tool::AGENT_AS_TOOL_NAME;

verus! {

/// The reply an agent gives when it has nothing to say.
pub const SILENT_MARKER: &'static str = "<SILENT>";

/// The prefix of a reply that hands the turn back to the user.
pub const WAITING_MARKER: &'static str = "<WAITING_FOR_USER>";

/// Characters of a tool result summary before it is cut.
pub const SUMMARY_LIMIT: usize = 500;

/// How many characters of a JSON value's text its summary keeps.
pub const VALUE_SUMMARY_LIMIT: usize = 240;

/// Characters of a helper's result handed back before it is cut.
pub const HELPER_RESULT_LIMIT: usize = 8_000;

/// Characters of an automatic task title.
pub const TASK_TITLE_LIMIT: usize = 80;

/// The tools without side effects, which may run concurrently.
pub open spec fn read_only_name(name: Seq<char>) -> bool {
    ||| name == "Read"@
    ||| name == "Glob"@
    ||| name == "Grep"@
    ||| name == "Fetch"@
    ||| name == "WebSearch"@
    ||| name == "SkillManager"@
    ||| name == "AppList"@
    ||| name == "AppGet"@
    ||| name == "AppState"@
    ||| name == "AppDocs"@
    ||| name == "ShellJobs"@
    ||| name == "ShellOutput"@
}

/// Whether the tool `name` has no side effects and may run concurrently.
/// Everything else, MCP tools included, runs alone in model order.
pub fn is_read_only_tool(name: &str) -> (r: bool)
    ensures
        r == read_only_name(name@),
{
    same_text(name, "Read") || same_text(name, "Glob") || same_text(name, "Grep") || same_text(name, "Fetch")
        || same_text(name, "WebSearch") || same_text(name, "SkillManager") || same_text(name, "AppList")
        || same_text(name, "AppGet") || same_text(name, "AppState") || same_text(name, "AppDocs") || same_text(
        name,
        "ShellJobs",
    ) || same_text(name, "ShellOutput")
}

/// Whether call `i` is read-only.
pub open spec fn call_read_only(calls: Seq<ToolCall>, i: int) -> bool {
    read_only_name(calls[i].name@)
}

/// One past the end of the run of read-only calls starting at `i`.
pub open spec fn read_only_run_end(calls: Seq<ToolCall>, i: int) -> int
    decreases calls.len() - i,
{
    if 0 <= i < calls.len() && call_read_only(calls, i) {
        read_only_run_end(calls, i + 1)
    } else {
        i
    }
}

pub proof fn lemma_read_only_run_end(calls: Seq<ToolCall>, i: int)
    requires
        0 <= i <= calls.len(),
    ensures
        i <= read_only_run_end(calls, i) <= calls.len(),
        forall|k: int| i <= k < read_only_run_end(calls, i) ==> call_read_only(calls, k),
        read_only_run_end(calls, i) < calls.len() ==> !call_read_only(calls, read_only_run_end(calls, i)),
    decreases calls.len() - i,
{
    if i < calls.len() && call_read_only(calls, i) {
        lemma_read_only_run_end(calls, i + 1);
    }
}

/// The batches of the calls from `start` on, as `(start, end)` ranges: a run
/// of consecutive read-only calls is one batch, every other call a batch of
/// its own.
pub open spec fn batches_from(calls: Seq<ToolCall>, start: int) -> Seq<(int, int)>
    decreases calls.len() - start,
{
    if start < 0 || start >= calls.len() {
        Seq::empty()
    } else if !call_read_only(calls, start) {
        seq![(start, start + 1)] + batches_from(calls, start + 1)
    } else {
        let end = read_only_run_end(calls, start);
        proof {
            lemma_read_only_run_end(calls, start);
        }
        seq![(start, end)] + batches_from(calls, end)
    }
}

/// Whether `b` tiles the calls from `start` to the end: nonempty batches in
/// order, each beginning where the last one ended, and a batch of several
/// calls only ever holding read-only ones.
pub open spec fn tiles(calls: Seq<ToolCall>, b: Seq<(int, int)>, start: int) -> bool {
    &&& (b.len() == 0 <==> start == calls.len())
    &&& b.len() > 0 ==> b[0].0 == start && b.last().1 == calls.len()
    &&& forall|i: int| 0 <= i < b.len() ==> #[trigger] b[i].0 < b[i].1
    &&& forall|i: int| 0 <= i < b.len() - 1 ==> #[trigger] b[i].1 == b[i + 1].0
    &&& forall|i: int, k: int|
        0 <= i < b.len() && b[i].0 <= k < b[i].1 && b[i].1 - b[i].0 > 1 ==> call_read_only(calls, k)
}

/// Batching never drops, repeats or reorders a call: the batches run end to
/// end over the whole call list, and only read-only calls ever share one.
pub proof fn lemma_batches_tile_the_calls(calls: Seq<ToolCall>, start: int)
    requires
        0 <= start <= calls.len(),
    ensures
        tiles(calls, batches_from(calls, start), start),
    decreases calls.len() - start,
{
    if start < calls.len() {
        let end = if !call_read_only(calls, start) {
            start + 1
        } else {
            lemma_read_only_run_end(calls, start);
            read_only_run_end(calls, start)
        };
        lemma_batches_tile_the_calls(calls, end);
        let rest = batches_from(calls, end);
        let b = batches_from(calls, start);
        assert(b == seq![(start, end)] + rest);
        assert forall|i: int| 0 <= i < b.len() - 1 implies #[trigger] b[i].1 == b[i + 1].0 by {
            if i > 0 {
                assert(b[i] == rest[i - 1]);
                assert(b[i + 1] == rest[i]);
            }
        }
        assert forall|i: int| 0 <= i < b.len() implies #[trigger] b[i].0 < b[i].1 by {
            if i > 0 {
                assert(b[i] == rest[i - 1]);
            }
        }
        assert forall|i: int, k: int|
            0 <= i < b.len() && b[i].0 <= k < b[i].1 && b[i].1 - b[i].0 > 1 implies call_read_only(calls, k) by {
            if i > 0 {
                assert(b[i] == rest[i - 1]);
            }
        }
    }
}

/// Split one assistant message's tool calls into batches that may run
/// together, as ranges of the call list in order.
pub fn tool_call_batches(calls: &[ToolCall]) -> (r: Vec<core::ops::Range<usize>>)
    ensures
        r@.map_values(|b: core::ops::Range<usize>| (b.start as int, b.end as int)) == batches_from(calls@, 0),
{
    let n = calls.len();
    let mut batches: Vec<core::ops::Range<usize>> = Vec::new();
    let mut start: usize = 0;
    while start < n
        invariant
            n == calls@.len(),
            start <= n,
            batches@.map_values(|b: core::ops::Range<usize>| (b.start as int, b.end as int)) + batches_from(
                calls@,
                start as int,
            ) == batches_from(calls@, 0),
        decreases n - start,
    {
        let ghost before = batches@.map_values(|b: core::ops::Range<usize>| (b.start as int, b.end as int));
        if !is_read_only_tool(calls[start].name.as_str()) {
            batches.push(core::ops::Range { start: start, end: start + 1 });
            assert(batches@.map_values(|b: core::ops::Range<usize>| (b.start as int, b.end as int)) =~= before.push(
                (start as int, start + 1),
            ));
            start = start + 1;
            continue;
        }
        let mut end = start;
        while end < n && is_read_only_tool(calls[end].name.as_str())
            invariant
                n == calls@.len(),
                start <= end <= n,
                read_only_run_end(calls@, end as int) == read_only_run_end(calls@, start as int),
            decreases n - end,
        {
            end = end + 1;
        }
        batches.push(core::ops::Range { start: start, end: end });
        assert(batches@.map_values(|b: core::ops::Range<usize>| (b.start as int, b.end as int)) =~= before.push(
            (start as int, end as int),
        ));
        start = end;
    }
    batches
}

/// How a tool run ended.
#[derive(Debug, Clone, Copy, PartialEq, Eq, Structural)]
pub enum ToolStatus {
    Completed,
    SetupRequired,
    WorkspaceRequired,
    WaitingForUser,
    InputRequested,
    ApprovalRequired,
    Failed,
}

/// The wire name of a tool status; waiting for the user and a request for
/// input share one.
pub open spec fn tool_status_text(s: ToolStatus) -> Seq<char> {
    match s {
        ToolStatus::Completed => "completed"@,
        ToolStatus::SetupRequired => "setup_required"@,
        ToolStatus::WorkspaceRequired => "workspace_required"@,
        ToolStatus::WaitingForUser => "input_required"@,
        ToolStatus::InputRequested => "input_required"@,
        ToolStatus::ApprovalRequired => "approval_required"@,
        ToolStatus::Failed => "failed"@,
    }
}

/// The wire name of a tool status.
pub fn tool_status_wire(status: ToolStatus) -> (r: &'static str)
    ensures
        r@ == tool_status_text(status),
{
    match status {
        ToolStatus::Completed => "completed",
        ToolStatus::SetupRequired => "setup_required",
        ToolStatus::WorkspaceRequired => "workspace_required",
        ToolStatus::WaitingForUser => "input_required",
        ToolStatus::InputRequested => "input_required",
        ToolStatus::ApprovalRequired => "approval_required",
        ToolStatus::Failed => "failed",
    }
}

/// `value` cut to `limit` characters with `suffix` appended, when it is
/// longer than that.
pub open spec fn cut_with(value: Seq<char>, limit: int, suffix: Seq<char>) -> Seq<char> {
    if value.len() > limit {
        value.take(limit) + suffix
    } else {
        value
    }
}

/// A JSON value's summary, given the value's text: the first 240
/// characters and `...` when longer.
pub fn summarize_value(text: &str) -> (r: String)
    ensures
        r@ == cut_with(text@, VALUE_SUMMARY_LIMIT as int, "..."@),
{
    let v = chars_of(text);
    if v.len() > VALUE_SUMMARY_LIMIT {
        let head = take_chars_exec(v.as_slice(), VALUE_SUMMARY_LIMIT);
        let mut out = string_from_chars(head.as_slice());
        out.append("...");
        out
    } else {
        text.to_owned()
    }
}

/// A tool result summary: the first 500 characters and `...` when longer.
pub fn summarize_text(value: &str) -> (r: String)
    ensures
        r@ == cut_with(value@, SUMMARY_LIMIT as int, "..."@),
{
    let v = chars_of(value);
    if v.len() > SUMMARY_LIMIT {
        let head = take_chars_exec(v.as_slice(), SUMMARY_LIMIT);
        let mut out = string_from_chars(head.as_slice());
        out.append("...");
        out
    } else {
        value.to_owned()
    }
}

/// A helper's result as handed back: the first 8 000 characters and a
/// truncation note when longer.
pub fn bounded_helper_result(content: &str) -> (r: String)
    ensures
        r@ == cut_with(content@, HELPER_RESULT_LIMIT as int, "\n\n[helper result truncated]"@),
{
    let v = chars_of(content);
    if v.len() > HELPER_RESULT_LIMIT {
        let head = take_chars_exec(v.as_slice(), HELPER_RESULT_LIMIT);
        let mut out = string_from_chars(head.as_slice());
        out.append("\n\n[helper result truncated]");
        out
    } else {
        content.to_owned()
    }
}

/// A token count as a signed count, capped at the largest `i64`.
pub fn token_count_i64(tokens: u64) -> (r: i64)
    ensures
        r == (if tokens > i64::MAX { i64::MAX as int } else { tokens as int }),
{
    if tokens > i64::MAX as u64 {
        i64::MAX
    } else {
        tokens as i64
    }
}

/// What an interrupted reply leaves visible: nothing for a blank or silent
/// reply, the words after the waiting marker (nothing when none), and
/// otherwise the reply as it was.
pub open spec fn interrupted_visible(content: Seq<char>) -> Option<Seq<char>> {
    let t = trim_spec(content);
    let w = "<WAITING_FOR_USER>"@;
    if t.len() == 0 || t == "<SILENT>"@ {
        None
    } else if t.len() >= w.len() && t.take(w.len() as int) == w {
        let rest = trim_spec(t.skip(w.len() as int));
        if rest.len() == 0 {
            None
        } else {
            Some(rest)
        }
    } else {
        Some(content)
    }
}

/// The visible text an interrupted reply leaves, if any.
pub fn interrupted_visible_content(content: &str) -> (r: Option<String>)
    ensures
        match interrupted_visible(content@) {
            Some(t) => r matches Some(s) && s@ == t,
            None => r is None,
        },
{
    let v = chars_of(content);
    let t = trim_chars(v.as_slice());
    let silent = chars_of(SILENT_MARKER);
    let waiting = chars_of(WAITING_MARKER);
    if t.len() == 0 || crate::text::chars_eq(t.as_slice(), silent.as_slice()) {
        return None;
    }
    if t.len() >= waiting.len() && crate::text::chars_eq(
        crate::text::chars_range(t.as_slice(), 0, waiting.len()).as_slice(),
        waiting.as_slice(),
    ) {
        assert(t@.subrange(0, waiting@.len() as int) =~= t@.take(waiting@.len() as int));
        let after = crate::text::chars_range(t.as_slice(), waiting.len(), t.len());
        assert(after@ =~= t@.skip(waiting@.len() as int));
        let rest = trim_chars(after.as_slice());
        if rest.len() == 0 {
            return None;
        }
        return Some(string_from_chars(rest.as_slice()));
    }
    proof {
        if t@.len() >= waiting@.len() && t@.take(waiting@.len() as int) == waiting@ {
            assert(t@.subrange(0, waiting@.len() as int) =~= t@.take(waiting@.len() as int));
        }
    }
    Some(content.to_owned())
}

/// What a finished reply shows, as `(text, waiting)`: nothing for a
/// proactive agent's silent marker or a reply with no visible text; the text
/// after the waiting marker (or a stock prompt when there is none) for a
/// reply that hands the turn back; the reply itself otherwise.
pub open spec fn reply_shown(content: Seq<char>, proactive: bool) -> Option<(Seq<char>, bool)> {
    let t = trim_spec(content);
    let w = "<WAITING_FOR_USER>"@;
    if proactive && t == "<SILENT>"@ {
        None
    } else if t.len() >= w.len() && t.take(w.len() as int) == w {
        let rest = trim_spec(t.skip(w.len() as int));
        Some((if rest.len() == 0 { "Waiting for your input"@ } else { rest }, true))
    } else if t.len() == 0 {
        None
    } else {
        Some((content, false))
    }
}

/// Classify an agent's finished reply: `None` when nothing visible is left,
/// otherwise the text to show and whether it hands the turn back to the user.
pub fn finished_reply(content: &str, proactive: bool) -> (r: Option<(String, bool)>)
    ensures
        match reply_shown(content@, proactive) {
            Some((text, waiting)) => r matches Some((s, w)) && s@ == text && w == waiting,
            None => r is None,
        },
{
    let v = chars_of(content);
    let t = trim_chars(v.as_slice());
    let silent = chars_of(SILENT_MARKER);
    let waiting = chars_of(WAITING_MARKER);
    if proactive && crate::text::chars_eq(t.as_slice(), silent.as_slice()) {
        return None;
    }
    if t.len() >= waiting.len() && crate::text::chars_eq(
        crate::text::chars_range(t.as_slice(), 0, waiting.len()).as_slice(),
        waiting.as_slice(),
    ) {
        assert(t@.subrange(0, waiting@.len() as int) =~= t@.take(waiting@.len() as int));
        let after = crate::text::chars_range(t.as_slice(), waiting.len(), t.len());
        assert(after@ =~= t@.skip(waiting@.len() as int));
        let rest = trim_chars(after.as_slice());
        if rest.len() == 0 {
            return Some(("Waiting for your input".to_owned(), true));
        }
        return Some((string_from_chars(rest.as_slice()), true));
    }
    proof {
        if t@.len() >= waiting@.len() && t@.take(waiting@.len() as int) == waiting@ {
            assert(t@.subrange(0, waiting@.len() as int) =~= t@.take(waiting@.len() as int));
        }
    }
    if t.len() == 0 {
        return None;
    }
    Some((content.to_owned(), false))
}

/// The automatic title of a task: its first line, trimmed and cut to 80
/// characters, or `Task` when that is empty.
pub open spec fn task_title(content: Seq<char>) -> Seq<char> {
    let title = take_chars(trim_spec(split_lines(content)[0]), TASK_TITLE_LIMIT as int);
    if title.len() == 0 {
        "Task"@
    } else {
        title
    }
}

/// The automatic title of a task.
pub fn default_task_title(content: &str) -> (r: String)
    ensures
        r@ == task_title(content@),
{
    let v = chars_of(content);
    let lines = split_lines_exec(v.as_slice());
    proof {
        crate::text::lemma_split_lines_nonempty(v@);
    }
    let first = trim_chars(lines[0].as_slice());
    let title = take_chars_exec(first.as_slice(), TASK_TITLE_LIMIT);
    if title.len() == 0 {
        "Task".to_owned()
    } else {
        string_from_chars(title.as_slice())
    }
}

/// How an agent's part in a turn ended.
#[derive(Debug, Clone, Copy, PartialEq, Eq, Structural)]
pub enum AgentExecutionOutcome {
    NoVisible,
    Visible,
    WaitingForUser,
    Failed,
}

/// The wire name of an agent's outcome.
pub open spec fn outcome_text(o: AgentExecutionOutcome) -> Seq<char> {
    match o {
        AgentExecutionOutcome::NoVisible => "no_visible"@,
        AgentExecutionOutcome::Visible => "visible"@,
        AgentExecutionOutcome::WaitingForUser => "waiting_for_user"@,
        AgentExecutionOutcome::Failed => "failed"@,
    }
}

impl AgentExecutionOutcome {
    /// The wire name of the outcome.
    pub fn as_str(self) -> (r: &'static str)
        ensures
            r@ == outcome_text(self),
    {
        match self {
            AgentExecutionOutcome::NoVisible => "no_visible",
            AgentExecutionOutcome::Visible => "visible",
            AgentExecutionOutcome::WaitingForUser => "waiting_for_user",
            AgentExecutionOutcome::Failed => "failed",
        }
    }
}

/// The index of the first call to the agent-as-tool tool from `i` on.
pub open spec fn first_agent_call(calls: Seq<ToolCall>, i: int) -> Option<int>
    decreases calls.len() - i,
{
    if i < 0 || i >= calls.len() {
        None
    } else if calls[i].name@ == "AgentAsTool"@ {
        Some(i)
    } else {
        first_agent_call(calls, i + 1)
    }
}

/// A copy of `call`, field by field.
pub fn copy_call(call: &ToolCall) -> (r: ToolCall)
    ensures
        call_view(r) == call_view(*call),
{
    ToolCall {
        id: call.id.as_str().to_owned(),
        name: call.name.as_str().to_owned(),
        args: call.args.as_str().to_owned(),
    }
}

/// The first call to the agent-as-tool tool, if the message makes one.
pub fn agent_as_tool_call(tool_calls: &[ToolCall]) -> (r: Option<ToolCall>)
    ensures
        match first_agent_call(tool_calls@, 0) {
            Some(k) => r matches Some(c) && call_view(c) == call_view(tool_calls@[k]),
            None => r is None,
        },
{
    let mut i: usize = 0;
    while i < tool_calls.len()
        invariant
            i <= tool_calls@.len(),
            first_agent_call(tool_calls@, i as int) == first_agent_call(tool_calls@, 0),
        decreases tool_calls@.len() - i,
    {
        if same_text(tool_calls[i].name.as_str(), AGENT_AS_TOOL_NAME) {
            return Some(copy_call(&tool_calls[i]));
        }
        i = i + 1;
    }
    None
}

/// The image types a provider accepts inline.
pub open spec fn native_image_type(m: Seq<char>) -> bool {
    m == "image/png"@ || m == "image/jpeg"@ || m == "image/webp"@ || m == "image/gif"@
}

/// Whether an attachment of `mime_type` can be sent to a provider as an image.
pub fn native_image_mime_type(mime_type: &str) -> (r: bool)
    ensures
        r == native_image_type(mime_type@),
{
    same_text(mime_type, "image/png") || same_text(mime_type, "image/jpeg") || same_text(mime_type, "image/webp")
        || same_text(mime_type, "image/gif")
}

/// What `serde_json` writes back for the value under `key` at the top level
/// of the JSON text `raw`: `None` when the text is not JSON or has no such
/// field.
pub uninterp spec fn json_field_text(raw: Seq<char>, key: Seq<char>) -> Option<Seq<char>>;

/// `serde_json::from_str::<Value>`, `Value::get` and `Value::to_string`: the
/// value under `key` at the top level of `raw`, as JSON text. The contract
/// only names the result.
#[verifier::external_body]
pub(crate) fn read_json_field_text(raw: &str, key: &str) -> (r: Option<String>)
    ensures
        match json_field_text(raw@, key@) {
            Some(t) => r matches Some(s) && s@ == t,
            None => r is None,
        },
{
    serde_json::from_str::<serde_json::Value>(raw).ok().and_then(|value| value.get(key).map(|field| field.to_string()))
}

/// The question shown when a tool asks for input without saying what.
pub const DEFAULT_INPUT_REQUEST: &'static str = r#"{"question":"The agent requested input.","required":true}"#;

/// The input request a tool's output carries (its `input_request` field,
/// as JSON text), or a generic required question when it carries none.
pub fn tool_input_request_payload(output: &str) -> (r: String)
    ensures
        r@ == match json_field_text(output@, "input_request"@) {
            Some(t) => t,
            None => DEFAULT_INPUT_REQUEST@,
        },
{
    match read_json_field_text(output, "input_request") {
        Some(t) => t,
        None => DEFAULT_INPUT_REQUEST.to_owned(),
    }
}

} // verus!
