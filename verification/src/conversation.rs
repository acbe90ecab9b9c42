//! The prompts an agent is given of a group conversation: the transcript as
//! provider messages for a native agent, and the task envelope for an
//! external ACP agent.

use vstd::prelude::*;

use crate::text::{join_lines, same_text};
use crate::context::{
    attachment_block, escape_xml, escaped, fallback_display_name, non_empty, render_attachment_references,
    sanitize_acp_agent_brief, sanitized_brief, AttachmentAccess, ConversationActor, ConversationAttachment,
    RenderedConversation,
};
use crate::compaction::message::{call_view, ChatMessage, ToolCall};

verus! {

/// One tool call an agent turn recorded. `args` is the call's JSON arguments
/// in serialized form, when they were recorded.
#[derive(Debug, Clone, PartialEq, Eq)]
pub struct ConversationToolCall {
    pub tool_call_id: Option<String>,
    pub tool_name: Option<String>,
    pub status: Option<String>,
    pub args_summary: Option<String>,
    pub result_summary: Option<String>,
    pub args: Option<String>,
    pub result: Option<String>,
}

/// One visible message of a conversation.
#[derive(Debug, Clone, PartialEq, Eq)]
pub struct ConversationMessage {
    pub id: String,
    pub actor: ConversationActor,
    pub content: String,
    pub turn_id: Option<String>,
    pub dispatch_id: Option<String>,
    pub reply_to_message_id: Option<String>,
    pub attachments: Vec<ConversationAttachment>,
    pub tool_calls: Vec<ConversationToolCall>,
    /// The thinking this agent turn produced, in order; replayed only into the
    /// agent's own history.
    pub reasoning: Vec<String>,
}

/// Whether `m` is a message of the agent `me`.
pub open spec fn is_own(m: ConversationMessage, me: Seq<char>) -> bool {
    m.actor matches ConversationActor::Agent { id, .. } && id@ == me
}

/// Whether `row` is a message of the agent being prompted.
pub fn is_current_agent(row: &ConversationMessage, current_agent_id: &str) -> (r: bool)
    ensures
        r == is_own(*row, current_agent_id@),
{
    match &row.actor {
        ConversationActor::Agent { id, .. } => same_text(id.as_str(), current_agent_id),
        ConversationActor::Human { .. } => false,
    }
}

/// The kind, id and name of a speaker.
pub open spec fn actor_parts(a: ConversationActor) -> (Seq<char>, Seq<char>, Seq<char>) {
    match a {
        ConversationActor::Human { id, display_name } => ("human"@, id@, display_name@),
        ConversationActor::Agent { id, display_name } => ("agent"@, id@, display_name@),
    }
}

/// A message wrapped in the host's envelope: who said it, escaped, and its
/// escaped text and attachments.
pub open spec fn untrusted_text(m: ConversationMessage, access: AttachmentAccess) -> Seq<char> {
    let (kind, id, name) = actor_parts(m.actor);
    "<conversation-message actor_type=\""@ + kind + "\" actor_id=\""@ + escaped(id) + "\" display_name=\""@
        + escaped(name) + "\">"@ + escaped(m.content@) + attachment_block(m.attachments@, access)
        + "</conversation-message>"@
}

/// Render a human's or a peer's message inside the host's envelope; message
/// text from anyone but the agent itself is untrusted.
pub fn render_untrusted_message(row: &ConversationMessage, access: AttachmentAccess) -> (r: String)
    ensures
        r@ == untrusted_text(*row, access),
{
    let (kind, id, name) = match &row.actor {
        ConversationActor::Human { id, display_name } => ("human", id, display_name),
        ConversationActor::Agent { id, display_name } => ("agent", id, display_name),
    };
    let mut out = "<conversation-message actor_type=\"".to_owned();
    out.append(kind);
    out.append("\" actor_id=\"");
    out.append(escape_xml(id.as_str()).as_str());
    out.append("\" display_name=\"");
    out.append(escape_xml(name.as_str()).as_str());
    out.append("\">");
    out.append(escape_xml(row.content.as_str()).as_str());
    out.append(render_attachment_references(row.attachments.as_slice(), access).as_str());
    out.append("</conversation-message>");
    out
}

/// A message as the ACP transcript shows it: the agent's own as plain
/// assistant text, anyone else's inside the envelope.
pub open spec fn history_text(m: ConversationMessage, me: Seq<char>, access: AttachmentAccess) -> Seq<char> {
    if is_own(m, me) {
        "assistant: "@ + escaped(m.content@)
    } else {
        untrusted_text(m, access)
    }
}

/// Render one message of an ACP transcript.
pub fn render_acp_history_message(row: &ConversationMessage, current_agent_id: &str, access: AttachmentAccess) -> (r:
    String)
    ensures
        r@ == history_text(*row, current_agent_id@, access),
{
    if is_current_agent(row, current_agent_id) {
        let mut out = "assistant: ".to_owned();
        out.append(escape_xml(row.content.as_str()).as_str());
        out
    } else {
        render_untrusted_message(row, access)
    }
}

/// The transcript lines of `rows`, each followed by a newline.
pub open spec fn history_block(rows: Seq<ConversationMessage>, me: Seq<char>, access: AttachmentAccess) -> Seq<char>
    decreases rows.len(),
{
    if rows.len() == 0 {
        Seq::empty()
    } else {
        history_block(rows.drop_last(), me, access) + history_text(rows.last(), me, access) + "\n"@
    }
}

/// Whether the conversation ends with a human's message, which the task then
/// carries as the current message.
pub open spec fn ends_with_human(rows: Seq<ConversationMessage>) -> bool {
    rows.len() > 0 && rows.last().actor is Human
}

/// The complete task an ACP agent is given: the host's envelope, the
/// sanitized agent brief, the transcript without the current human message,
/// and that message on its own.
pub open spec fn acp_prompt_text(
    system_prompt: Seq<char>,
    me: Seq<char>,
    rows: Seq<ConversationMessage>,
    access: AttachmentAccess,
) -> Seq<char> {
    let current = ends_with_human(rows);
    "<ag-swarmer-task>\n"@
        + "This is host-provided task context for the external ACP agent runtime; it is not the ACP runtime native system prompt.\n\n"@
        + "<agent-brief>\n"@ + escaped(sanitized_brief(system_prompt)) + "\n</agent-brief>\n\n"@
        + "<conversation untrusted=\"true\">\n"@ + history_block(
        if current {
            rows.drop_last()
        } else {
            rows
        },
        me,
        access,
    ) + "</conversation>\n\n"@ + (if current {
        "<current-message>\n"@ + untrusted_text(rows.last(), access) + "\n</current-message>\n"@
    } else {
        Seq::empty()
    }) + "</ag-swarmer-task>\n"@
}

/// Render the complete ACP task.
pub fn to_acp_prompt(
    system_prompt: &str,
    current_agent_id: &str,
    rows: &[ConversationMessage],
    access: AttachmentAccess,
) -> (r: String)
    ensures
        r@ == acp_prompt_text(system_prompt@, current_agent_id@, rows@, access),
{
    let n = rows.len();
    let current = n > 0 && match rows[n - 1].actor {
        ConversationActor::Human { .. } => true,
        ConversationActor::Agent { .. } => false,
    };
    let history_len = if current { n - 1 } else { n };
    assert(rows@.take(history_len as int) =~= (if current { rows@.drop_last() } else { rows@ }));
    let mut out = "<ag-swarmer-task>\n".to_owned();
    out.append(
        "This is host-provided task context for the external ACP agent runtime; it is not the ACP runtime native system prompt.\n\n",
    );
    out.append("<agent-brief>\n");
    out.append(escape_xml(sanitize_acp_agent_brief(system_prompt).as_str()).as_str());
    out.append("\n</agent-brief>\n\n");
    out.append("<conversation untrusted=\"true\">\n");
    let ghost head = out@;
    let mut i: usize = 0;
    while i < history_len
        invariant
            history_len <= rows@.len(),
            i <= history_len,
            out@ == head + history_block(rows@.take(i as int), current_agent_id@, access),
        decreases history_len - i,
    {
        assert(rows@.take(i as int + 1).drop_last() =~= rows@.take(i as int));
        let line = render_acp_history_message(&rows[i], current_agent_id, access);
        out.append(line.as_str());
        out.append("\n");
        i = i + 1;
    }
    out.append("</conversation>\n\n");
    if current {
        out.append("<current-message>\n");
        out.append(render_untrusted_message(&rows[n - 1], access).as_str());
        out.append("\n</current-message>\n");
    }
    out.append("</ag-swarmer-task>\n");
    out
}

/// The index of the last message of `me` before `i`.
pub open spec fn last_own_before(rows: Seq<ConversationMessage>, me: Seq<char>, i: int) -> Option<int>
    decreases i,
{
    if i <= 0 || i > rows.len() {
        None
    } else if is_own(rows[i - 1], me) {
        Some(i - 1)
    } else {
        last_own_before(rows, me, i - 1)
    }
}

/// The index of the last message not by `me` before `i`.
pub open spec fn last_other_before(rows: Seq<ConversationMessage>, me: Seq<char>, i: int) -> Option<int>
    decreases i,
{
    if i <= 0 || i > rows.len() {
        None
    } else if !is_own(rows[i - 1], me) {
        Some(i - 1)
    } else {
        last_other_before(rows, me, i - 1)
    }
}

/// The messages of `rows` not by `me`, in order.
pub open spec fn others(rows: Seq<ConversationMessage>, me: Seq<char>) -> Seq<ConversationMessage>
    decreases rows.len(),
{
    if rows.len() == 0 {
        Seq::empty()
    } else if is_own(rows.last(), me) {
        others(rows.drop_last(), me)
    } else {
        others(rows.drop_last(), me).push(rows.last())
    }
}

/// What an open ACP session has not been shown: everything others said after
/// the agent's own last message; failing that, only the latest message by
/// someone else (the session was opened from the full transcript).
pub open spec fn undelivered(rows: Seq<ConversationMessage>, me: Seq<char>) -> Seq<ConversationMessage> {
    let since = match last_own_before(rows, me, rows.len() as int) {
        Some(k) => others(rows.skip(k + 1), me),
        None => Seq::empty(),
    };
    if since.len() > 0 {
        since
    } else {
        match last_other_before(rows, me, rows.len() as int) {
            Some(j) => seq![rows[j]],
            None => Seq::empty(),
        }
    }
}

/// Messages in the envelope, one per line.
pub open spec fn envelope_lines(rows: Seq<ConversationMessage>, access: AttachmentAccess) -> Seq<char>
    decreases rows.len(),
{
    if rows.len() == 0 {
        Seq::empty()
    } else if rows.len() == 1 {
        untrusted_text(rows[0], access)
    } else {
        envelope_lines(rows.drop_last(), access) + "\n"@ + untrusted_text(rows.last(), access)
    }
}

/// The prompt that brings an open ACP session up to date: the earlier
/// undelivered messages as a transcript and the latest as the current one.
pub open spec fn incremental_text(me: Seq<char>, rows: Seq<ConversationMessage>, access: AttachmentAccess) -> Seq<char> {
    let u = undelivered(rows, me);
    let earlier = if u.len() > 0 {
        u.drop_last()
    } else {
        Seq::empty()
    };
    "<ag-swarmer-message>\n"@ + (if earlier.len() == 0 {
        Seq::empty()
    } else {
        "<conversation untrusted=\"true\">\n"@ + envelope_lines(earlier, access) + "\n</conversation>\n"@
    }) + "<current-message>\n"@ + (if u.len() > 0 {
        untrusted_text(u.last(), access)
    } else {
        Seq::empty()
    }) + "\n</current-message>\n</ag-swarmer-message>\n"@
}

fn find_last_own(rows: &[ConversationMessage], me: &str) -> (r: Option<usize>)
    ensures
        match last_own_before(rows@, me@, rows@.len() as int) {
            Some(k) => r == Some(k as usize),
            None => r is None,
        },
{
    let mut i: usize = rows.len();
    while i > 0
        invariant
            i <= rows@.len(),
            last_own_before(rows@, me@, i as int) == last_own_before(rows@, me@, rows@.len() as int),
        decreases i,
    {
        if is_current_agent(&rows[i - 1], me) {
            return Some(i - 1);
        }
        i = i - 1;
    }
    None
}

fn find_last_other(rows: &[ConversationMessage], me: &str) -> (r: Option<usize>)
    ensures
        match last_other_before(rows@, me@, rows@.len() as int) {
            Some(k) => r == Some(k as usize),
            None => r is None,
        },
{
    let mut i: usize = rows.len();
    while i > 0
        invariant
            i <= rows@.len(),
            last_other_before(rows@, me@, i as int) == last_other_before(rows@, me@, rows@.len() as int),
        decreases i,
    {
        if !is_current_agent(&rows[i - 1], me) {
            return Some(i - 1);
        }
        i = i - 1;
    }
    None
}

proof fn lemma_last_before_bounds(rows: Seq<ConversationMessage>, me: Seq<char>, i: int)
    requires
        0 <= i <= rows.len(),
    ensures
        last_own_before(rows, me, i) matches Some(k) ==> 0 <= k < i,
        last_other_before(rows, me, i) matches Some(k) ==> 0 <= k < i,
    decreases i,
{
    if i > 0 {
        lemma_last_before_bounds(rows, me, i - 1);
    }
}

/// The rows at `idx`, in order.
pub open spec fn rows_at(rows: Seq<ConversationMessage>, idx: Seq<usize>) -> Seq<ConversationMessage> {
    idx.map_values(|j: usize| rows[j as int])
}

fn others_after(rows: &[ConversationMessage], me: &str, k: usize) -> (r: Vec<usize>)
    requires
        k < rows@.len(),
    ensures
        forall|j: int| 0 <= j < r@.len() ==> #[trigger] r@[j] < rows@.len(),
        rows_at(rows@, r@) == others(rows@.skip(k + 1), me@),
{
    let ghost tail = rows@.skip(k + 1);
    let n = rows.len();
    let mut picked: Vec<usize> = Vec::new();
    let mut i: usize = k + 1;
    assert(tail.take(0) =~= Seq::<ConversationMessage>::empty());
    assert(rows_at(rows@, picked@) =~= Seq::<ConversationMessage>::empty());
    while i < rows.len()
        invariant
            k < rows@.len(),
            k + 1 <= i <= rows@.len(),
            tail == rows@.skip(k + 1),
            forall|j: int| 0 <= j < picked@.len() ==> #[trigger] picked@[j] < rows@.len(),
            rows_at(rows@, picked@) == others(tail.take(i - k - 1), me@),
        decreases rows@.len() - i,
    {
        assert(tail.take(i - k) =~= tail.take(i - k - 1).push(rows@[i as int]));
        assert(tail.take(i - k).drop_last() =~= tail.take(i - k - 1));
        if !is_current_agent(&rows[i], me) {
            let ghost before = picked@;
            picked.push(i);
            assert(rows_at(rows@, picked@) =~= rows_at(rows@, before).push(rows@[i as int]));
        }
        i = i + 1;
    }
    assert(tail.take(rows@.len() - k - 1) =~= tail);
    picked
}

fn render_envelope(rows: &[ConversationMessage], picked: &Vec<usize>, count: usize, access: AttachmentAccess) -> (r:
    String)
    requires
        count <= picked@.len(),
        forall|j: int| 0 <= j < picked@.len() ==> #[trigger] picked@[j] < rows@.len(),
    ensures
        r@ == envelope_lines(rows_at(rows@, picked@).take(count as int), access),
{
    let ghost sel = rows_at(rows@, picked@);
    let mut out = String::new();
    let mut e: usize = 0;
    while e < count
        invariant
            count <= picked@.len(),
            e <= count,
            sel == rows_at(rows@, picked@),
            forall|j: int| 0 <= j < picked@.len() ==> #[trigger] picked@[j] < rows@.len(),
            out@ == envelope_lines(sel.take(e as int), access),
        decreases count - e,
    {
        assert(sel.take(e as int + 1).drop_last() =~= sel.take(e as int));
        assert(sel[e as int] == rows@[picked@[e as int] as int]);
        let line = render_untrusted_message(&rows[picked[e]], access);
        if e > 0 {
            out.append("\n");
        }
        out.append(line.as_str());
        e = e + 1;
    }
    out
}

/// Render what an open ACP session has not been shown yet.
pub fn to_acp_incremental_prompt(current_agent_id: &str, rows: &[ConversationMessage], access: AttachmentAccess) -> (r:
    String)
    ensures
        r@ == incremental_text(current_agent_id@, rows@, access),
{
    let ghost me = current_agent_id@;
    let n = rows.len();
    proof {
        lemma_last_before_bounds(rows@, me, rows@.len() as int);
    }
    let ghost since = match last_own_before(rows@, me, rows@.len() as int) {
        Some(k) => others(rows@.skip(k + 1), me),
        None => Seq::empty(),
    };
    let mut picked: Vec<usize> = match find_last_own(rows, current_agent_id) {
        Some(k) => {
            proof {
                let kk = last_own_before(rows@, me, rows@.len() as int)->0;
                assert(0 <= kk < rows@.len());
                assert(kk == k as int);
            }
            others_after(rows, current_agent_id, k)
        },
        None => {
            let none: Vec<usize> = Vec::new();
            assert(rows_at(rows@, none@) =~= Seq::<ConversationMessage>::empty());
            none
        },
    };
    assert(rows_at(rows@, picked@) == since);
    if picked.len() == 0 {
        match find_last_other(rows, current_agent_id) {
            Some(j) => {
                proof {
                    let jj = last_other_before(rows@, me, rows@.len() as int)->0;
                    assert(0 <= jj < rows@.len());
                    assert(jj == j as int);
                }
                picked.push(j);
                assert(rows_at(rows@, picked@) =~= seq![rows@[j as int]]);
            },
            None => {},
        }
    }
    let ghost u = rows_at(rows@, picked@);
    assert(u == undelivered(rows@, me));
    let mut out = "<ag-swarmer-message>\n".to_owned();
    let count = picked.len();
    if count > 1 {
        out.append("<conversation untrusted=\"true\">\n");
        let lines = render_envelope(rows, &picked, count - 1, access);
        assert(u.take(count - 1) =~= u.drop_last());
        out.append(lines.as_str());
        out.append("\n</conversation>\n");
    }
    out.append("<current-message>\n");
    if count > 0 {
        assert(u.last() == rows@[picked@[count - 1] as int]);
        out.append(render_untrusted_message(&rows[picked[count - 1]], access).as_str());
    }
    out.append("\n</current-message>\n</ag-swarmer-message>\n");
    out
}

/// What `serde_json` makes of `raw` read as JSON and written back out: `None`
/// when `raw` is not JSON.
pub uninterp spec fn json_normalized(raw: Seq<char>) -> Option<Seq<char>>;

/// `serde_json::from_str::<Value>` and `Value::to_string`: the JSON text
/// `raw`, normalized, when it is JSON. The contract only names the result.
#[verifier::external_body]
pub(crate) fn normalize_json(raw: &str) -> (r: Option<String>)
    ensures
        match json_normalized(raw@) {
            Some(t) => r matches Some(s) && s@ == t,
            None => r is None,
        },
{
    serde_json::from_str::<serde_json::Value>(raw).ok().map(|value| value.to_string())
}

/// A lowercase hexadecimal digit for `n` below sixteen.
pub open spec fn hex_digit(n: int) -> char {
    if n < 10 {
        (n + 48) as char
    } else {
        (n + 87) as char
    }
}

/// How `serde_json` writes `c` inside a string literal: a quote and a
/// backslash behind a backslash, backspace, tab, line feed, form feed and
/// carriage return as `\b`, `\t`, `\n`, `\f`, `\r`, the other characters
/// below U+0020 as `\u00` and two lowercase hex digits, and every other
/// character as itself.
pub open spec fn escaped_char(c: char) -> Seq<char> {
    let u = c as u32;
    if c == '"' {
        seq!['\\', '"']
    } else if c == '\\' {
        seq!['\\', '\\']
    } else if u == 0x08 {
        seq!['\\', 'b']
    } else if u == 0x09 {
        seq!['\\', 't']
    } else if u == 0x0A {
        seq!['\\', 'n']
    } else if u == 0x0C {
        seq!['\\', 'f']
    } else if u == 0x0D {
        seq!['\\', 'r']
    } else if u < 0x20 {
        seq!['\\', 'u', '0', '0', hex_digit((u / 16) as int), hex_digit((u % 16) as int)]
    } else {
        seq![c]
    }
}

/// The characters of `s`, each escaped.
pub open spec fn escaped_text(s: Seq<char>) -> Seq<char>
    decreases s.len(),
{
    if s.len() == 0 {
        Seq::empty()
    } else {
        escaped_text(s.drop_last()) + escaped_char(s.last())
    }
}

/// The JSON string literal `serde_json` writes for the text `s`: the escaped
/// characters between double quotes.
#[verifier::opaque]
pub open spec fn json_string_literal(s: Seq<char>) -> Seq<char> {
    seq!['"'] + escaped_text(s) + seq!['"']
}

/// `Value::to_string` on `Value::String`: `s` as a JSON string literal, with
/// the escapes that `serde_json`'s serializer table gives.
#[verifier::external_body]
pub(crate) fn quote_json(s: &str) -> (r: String)
    ensures
        r@ == json_string_literal(s@),
{
    serde_json::Value::String(s.to_owned()).to_string()
}

/// A rendered provider message, as the contracts see it: role, content, the
/// calls it makes as `(id, name, args)`, the call a tool result answers and
/// that call's tool, and the reasoning it carries.
pub struct MessageText {
    pub role: Seq<char>,
    pub content: Seq<char>,
    pub calls: Seq<(Seq<char>, Seq<char>, Seq<char>)>,
    pub call_id: Option<Seq<char>>,
    pub tool: Option<Seq<char>>,
    pub reasoning: Option<Seq<char>>,
}

/// An optional text, as the contracts see it.
pub open spec fn opt_seq(s: Option<String>) -> Option<Seq<char>> {
    match s {
        Some(t) => Some(t@),
        None => None,
    }
}

/// A message, as the contracts of rendering see it.
pub open spec fn text_of(m: ChatMessage) -> MessageText {
    MessageText {
        role: m.role@,
        content: m.content@,
        calls: m.tool_calls@.map_values(|c: ToolCall| call_view(c)),
        call_id: opt_seq(m.tool_call_id),
        tool: opt_seq(m.tool_name),
        reasoning: opt_seq(m.reasoning_content),
    }
}

/// A plain text message from `role`.
pub open spec fn plain(role: Seq<char>, content: Seq<char>) -> MessageText {
    MessageText { role, content, calls: Seq::empty(), call_id: None, tool: None, reasoning: None }
}

/// The result a recorded call reports: its full result, else its summary.
pub open spec fn call_result(c: ConversationToolCall) -> Option<Seq<char>> {
    match c.result {
        Some(r) => Some(r@),
        None => opt_seq(c.result_summary),
    }
}

/// The arguments a replayed call carries: those recorded; else the recorded
/// summary, as JSON when it reads as JSON and as a JSON string otherwise.
pub open spec fn args_text(c: ConversationToolCall) -> Seq<char> {
    match c.args {
        Some(a) => a@,
        None => match c.args_summary {
            Some(s) => match json_normalized(s@) {
                Some(n) => n,
                None => json_string_literal(s@),
            },
            None => json_string_literal(Seq::empty()),
        },
    }
}

/// A recorded call that completed, as the call to replay and its result
/// text (prefixed by its status when one was recorded); `None` for a call
/// without an id, a tool or a result.
pub open spec fn completed_call(c: ConversationToolCall) -> Option<((Seq<char>, Seq<char>, Seq<char>), Seq<char>)> {
    match (c.tool_call_id, c.tool_name, call_result(c)) {
        (Some(id), Some(name), Some(res)) => Some(
            (
                (id@, name@, args_text(c)),
                match c.status {
                    Some(st) => "status: "@ + st@ + "\n"@ + res,
                    None => res,
                },
            ),
        ),
        _ => None,
    }
}

/// The completed calls of a turn, in order.
pub open spec fn completed_calls(cs: Seq<ConversationToolCall>) -> Seq<((Seq<char>, Seq<char>, Seq<char>), Seq<char>)>
    decreases cs.len(),
{
    if cs.len() == 0 {
        Seq::empty()
    } else {
        match completed_call(cs.last()) {
            Some(d) => completed_calls(cs.drop_last()).push(d),
            None => completed_calls(cs.drop_last()),
        }
    }
}

/// The reasoning a replayed tool call carries: the turn's thinking blocks,
/// one per line, or none when that is empty.
pub open spec fn reasoning_text(reasoning: Seq<String>) -> Option<Seq<char>> {
    let joined = join_lines(reasoning.map_values(|t: String| t@));
    if joined.len() == 0 {
        None
    } else {
        Some(joined)
    }
}

/// The tool message replaying one completed call's result.
pub open spec fn tool_text(d: ((Seq<char>, Seq<char>, Seq<char>), Seq<char>)) -> MessageText {
    MessageText { role: "tool"@, content: d.1, calls: Seq::empty(), call_id: Some(d.0.0), tool: Some(d.0.1), reasoning: None }
}

/// The call a completed call replays.
pub open spec fn call_of(d: ((Seq<char>, Seq<char>, Seq<char>), Seq<char>)) -> (Seq<char>, Seq<char>, Seq<char>) {
    d.0
}

/// Whether an agent's own turn renders a text message of its own: when it
/// said something, or made no calls at all.
pub open spec fn has_text(row: ConversationMessage) -> bool {
    row.content@.len() > 0 || row.tool_calls@.len() == 0
}

/// The messages an agent's own turn replays as: its completed calls as one
/// assistant message carrying the turn's reasoning, a tool message per
/// result, then its text.
pub open spec fn own_texts(row: ConversationMessage) -> Seq<MessageText> {
    let done = completed_calls(row.tool_calls@);
    (if done.len() > 0 {
        seq![
            MessageText {
                role: "assistant"@,
                content: Seq::empty(),
                calls: done.map_values(|d: ((Seq<char>, Seq<char>, Seq<char>), Seq<char>)| call_of(d)),
                call_id: None,
                tool: None,
                reasoning: reasoning_text(row.reasoning@),
            },
        ] + done.map_values(|d: ((Seq<char>, Seq<char>, Seq<char>), Seq<char>)| tool_text(d))
    } else {
        Seq::empty()
    }) + (if has_text(row) {
        seq![plain("assistant"@, row.content@)]
    } else {
        Seq::empty()
    })
}

/// The messages one row renders as: the agent's own turn replayed, anyone
/// else's message as an enveloped user message.
pub open spec fn row_texts(row: ConversationMessage, me: Seq<char>, access: AttachmentAccess) -> Seq<MessageText> {
    if is_own(row, me) {
        own_texts(row)
    } else {
        seq![plain("user"@, untrusted_text(row, access))]
    }
}

/// The messages the rows render as, in order.
pub open spec fn rows_texts(rows: Seq<ConversationMessage>, me: Seq<char>, access: AttachmentAccess) -> Seq<MessageText>
    decreases rows.len(),
{
    if rows.len() == 0 {
        Seq::empty()
    } else {
        rows_texts(rows.drop_last(), me, access) + row_texts(rows.last(), me, access)
    }
}

/// Where row `i`'s own text lands among the rendered messages, after the
/// system prompt and whatever the earlier rows expanded into; `None` when it
/// renders no text of its own.
pub open spec fn own_index(rows: Seq<ConversationMessage>, me: Seq<char>, access: AttachmentAccess, i: int) -> Option<int> {
    let before = (1 + rows_texts(rows.take(i), me, access).len()) as int;
    if !is_own(rows[i], me) {
        Some(before)
    } else if has_text(rows[i]) {
        Some(before + row_texts(rows[i], me, access).len() - 1)
    } else {
        None
    }
}

fn args_of(c: &ConversationToolCall) -> (r: String)
    ensures
        r@ == args_text(*c),
{
    match &c.args {
        Some(a) => a.as_str().to_owned(),
        None => match &c.args_summary {
            Some(s) => match normalize_json(s.as_str()) {
                Some(n) => n,
                None => quote_json(s.as_str()),
            },
            None => {
                proof {
                    reveal_strlit("");
                }
                assert(""@ =~= Seq::<char>::empty());
                quote_json("")
            },
        },
    }
}

fn completed_of(c: &ConversationToolCall) -> (r: Option<(ToolCall, String)>)
    ensures
        match completed_call(*c) {
            Some((cv, res)) => r matches Some((tc, s)) && call_view(tc) == cv && s@ == res,
            None => r is None,
        },
{
    let id = match &c.tool_call_id {
        Some(id) => id,
        None => return None,
    };
    let name = match &c.tool_name {
        Some(n) => n,
        None => return None,
    };
    let result: &String = match &c.result {
        Some(r) => r,
        None => match &c.result_summary {
            Some(r) => r,
            None => return None,
        },
    };
    let text = match &c.status {
        Some(st) => {
            let mut out = "status: ".to_owned();
            out.append(st.as_str());
            out.append("\n");
            out.append(result.as_str());
            out
        },
        None => result.as_str().to_owned(),
    };
    Some((ToolCall { id: id.as_str().to_owned(), name: name.as_str().to_owned(), args: args_of(c) }, text))
}

fn reasoning_of(reasoning: &Vec<String>) -> (r: Option<String>)
    ensures
        opt_seq(r) == reasoning_text(reasoning@),
{
    let ghost views = reasoning@.map_values(|t: String| t@);
    proof {
        reveal_strlit("\n");
    }
    let mut out = String::new();
    let mut i: usize = 0;
    while i < reasoning.len()
        invariant
            i <= reasoning@.len(),
            views == reasoning@.map_values(|t: String| t@),
            out@ == join_lines(views.take(i as int)),
        decreases reasoning@.len() - i,
    {
        assert(views.take(i as int + 1).drop_last() =~= views.take(i as int));
        assert(views.take(i as int + 1).last() == reasoning@[i as int]@);
        proof {
            reveal_strlit("\n");
        }
        assert("\n"@ =~= seq!['\n']);
        let ghost before = out@;
        if i > 0 {
            out.append("\n");
        }
        out.append(reasoning[i].as_str());
        proof {
            if i == 0 {
                assert(before =~= Seq::<char>::empty());
                assert(views.take(1)[0] == reasoning@[0]@);
            }
        }
        assert(out@ =~= join_lines(views.take(i as int + 1)));
        i = i + 1;
    }
    assert(views.take(i as int) =~= views);
    if out.as_str().is_empty() {
        None
    } else {
        Some(out)
    }
}

/// Messages, as the contracts of rendering see them.
pub open spec fn texts_of(ms: Seq<ChatMessage>) -> Seq<MessageText> {
    ms.map_values(|m: ChatMessage| text_of(m))
}

/// Whether every message is a bare one: no content parts, no checklist.
pub open spec fn bare(ms: Seq<ChatMessage>) -> bool {
    forall|k: int| 0 <= k < ms.len() ==> (#[trigger] ms[k]).parts@.len() == 0 && ms[k].todos is None
}

fn push_own_turn(messages: &mut Vec<ChatMessage>, row: &ConversationMessage)
    requires
        bare(old(messages)@),
    ensures
        texts_of(final(messages)@) == texts_of(old(messages)@) + own_texts(*row),
        bare(final(messages)@),
{
    let ghost start = texts_of(messages@);
    let ghost done = completed_calls(row.tool_calls@);
    proof {
        reveal_strlit("");
    }
    let mut calls: Vec<ToolCall> = Vec::new();
    let mut results: Vec<String> = Vec::new();
    let mut j: usize = 0;
    while j < row.tool_calls.len()
        invariant
            j <= row.tool_calls@.len(),
            calls@.len() == results@.len(),
            calls@.len() == completed_calls(row.tool_calls@.take(j as int)).len(),
            forall|k: int|
                0 <= k < calls@.len() ==> call_view(#[trigger] calls@[k]) == completed_calls(row.tool_calls@.take(j as int))[k].0
                    && results@[k]@ == completed_calls(row.tool_calls@.take(j as int))[k].1,
        decreases row.tool_calls@.len() - j,
    {
        assert(row.tool_calls@.take(j as int + 1).drop_last() =~= row.tool_calls@.take(j as int));
        assert(row.tool_calls@.take(j as int + 1).last() == row.tool_calls@[j as int]);
        match completed_of(&row.tool_calls[j]) {
            Some((call, text)) => {
                calls.push(call);
                results.push(text);
            },
            None => {},
        }
        j = j + 1;
    }
    assert(row.tool_calls@.take(j as int) =~= row.tool_calls@);
    let n = calls.len();
    let ghost calls_part: Seq<MessageText> = Seq::empty();
    if n > 0 {
        let mut call_copies: Vec<ToolCall> = Vec::new();
        let mut c: usize = 0;
        while c < n
            invariant
                n == calls@.len(),
                c <= n,
                call_copies@.len() == c,
                forall|k: int| 0 <= k < c ==> call_view(#[trigger] call_copies@[k]) == call_view(calls@[k]),
            decreases n - c,
        {
            call_copies.push(
                ToolCall {
                    id: calls[c].id.as_str().to_owned(),
                    name: calls[c].name.as_str().to_owned(),
                    args: calls[c].args.as_str().to_owned(),
                },
            );
            c = c + 1;
        }
        let mut assistant = ChatMessage::assistant_tool_calls("", call_copies);
        assistant.reasoning_content = reasoning_of(&row.reasoning);
        let ghost av = MessageText {
            role: "assistant"@,
            content: Seq::empty(),
            calls: done.map_values(|d: ((Seq<char>, Seq<char>, Seq<char>), Seq<char>)| call_of(d)),
            call_id: None,
            tool: None,
            reasoning: reasoning_text(row.reasoning@),
        };
        assert(assistant.tool_calls@.map_values(|c: ToolCall| call_view(c)) =~= av.calls);
        assert(assistant.content@ =~= Seq::<char>::empty());
        assert(text_of(assistant) == av);
        let ghost before_assistant = messages@;
        messages.push(assistant);
        assert(texts_of(messages@) =~= texts_of(before_assistant).push(av));
        let ghost head = texts_of(messages@);
        let mut t: usize = 0;
        while t < n
            invariant
                n == calls@.len(),
                n == results@.len(),
                n == done.len(),
                t <= n,
                forall|k: int| 0 <= k < n ==> call_view(#[trigger] calls@[k]) == done[k].0 && results@[k]@ == done[k].1,
                texts_of(messages@) == head + done.take(t as int).map_values(
                    |d: ((Seq<char>, Seq<char>, Seq<char>), Seq<char>)| tool_text(d),
                ),
                bare(messages@),
            decreases n - t,
        {
            let m = ChatMessage::tool_result(calls[t].id.as_str(), calls[t].name.as_str(), results[t].as_str());
            assert(call_view(calls@[t as int]) == done[t as int].0);
            assert(m.tool_calls@.map_values(|c: ToolCall| call_view(c)) =~= Seq::<(Seq<char>, Seq<char>, Seq<char>)>::empty());
            assert(text_of(m) == tool_text(done[t as int]));
            let ghost prev = messages@;
            messages.push(m);
            assert(texts_of(messages@) =~= texts_of(prev).push(text_of(m)));
            assert(done.take(t as int + 1).map_values(|d: ((Seq<char>, Seq<char>, Seq<char>), Seq<char>)| tool_text(d))
                =~= done.take(t as int).map_values(|d: ((Seq<char>, Seq<char>, Seq<char>), Seq<char>)| tool_text(d)).push(
                tool_text(done[t as int]),
            ));
            t = t + 1;
        }
        assert(done.take(n as int) =~= done);
        assert(texts_of(messages@) =~= start + (seq![av] + done.map_values(
            |d: ((Seq<char>, Seq<char>, Seq<char>), Seq<char>)| tool_text(d),
        )));
    } else {
        assert(texts_of(messages@) =~= start + Seq::<MessageText>::empty());
    }
    let ghost mid = messages@;
    if !row.content.as_str().is_empty() || row.tool_calls.len() == 0 {
        let m = ChatMessage::text("assistant", row.content.as_str());
        assert(m.tool_calls@.map_values(|c: ToolCall| call_view(c)) =~= Seq::<(Seq<char>, Seq<char>, Seq<char>)>::empty());
        assert(text_of(m) == plain("assistant"@, row.content@));
        messages.push(m);
        assert(texts_of(messages@) =~= texts_of(mid).push(text_of(m)));
    }
}

/// Render a conversation as provider messages for the agent
/// `current_agent_id`: the system prompt, then each row, the agent's own
/// turns replayed with their calls and everyone else's messages enveloped;
/// and, for each row, where its own text landed.
pub fn render_conversation(
    system_prompt: &str,
    current_agent_id: &str,
    rows: &[ConversationMessage],
    access: AttachmentAccess,
) -> (r: RenderedConversation)
    ensures
        texts_of(r.messages@) == seq![plain("system"@, system_prompt@)] + rows_texts(rows@, current_agent_id@, access),
        bare(r.messages@),
        r.message_index_by_row@.len() == rows@.len(),
        forall|i: int|
            0 <= i < rows@.len() ==> match own_index(rows@, current_agent_id@, access, i) {
                Some(k) => #[trigger] r.message_index_by_row@[i] == Some(k as usize),
                None => r.message_index_by_row@[i] is None,
            },
{
    let mut messages: Vec<ChatMessage> = Vec::new();
    let system = ChatMessage::text("system", system_prompt);
    assert(system.tool_calls@.map_values(|c: ToolCall| call_view(c)) =~= Seq::<(Seq<char>, Seq<char>, Seq<char>)>::empty());
    assert(text_of(system) == plain("system"@, system_prompt@));
    messages.push(system);
    assert(texts_of(messages@) =~= seq![plain("system"@, system_prompt@)]);
    let mut index: Vec<Option<usize>> = Vec::new();
    let mut i: usize = 0;
    while i < rows.len()
        invariant
            i <= rows@.len(),
            texts_of(messages@) == seq![plain("system"@, system_prompt@)] + rows_texts(
                rows@.take(i as int),
                current_agent_id@,
                access,
            ),
            bare(messages@),
            messages@.len() == 1 + rows_texts(rows@.take(i as int), current_agent_id@, access).len(),
            index@.len() == i,
            forall|k: int|
                0 <= k < i ==> match own_index(rows@, current_agent_id@, access, k) {
                    Some(v) => #[trigger] index@[k] == Some(v as usize),
                    None => index@[k] is None,
                },
        decreases rows@.len() - i,
    {
        assert(rows@.take(i as int + 1).drop_last() =~= rows@.take(i as int));
        assert(rows@.take(i as int + 1).last() == rows@[i as int]);
        let row = &rows[i];
        let before = messages.len();
        let ghost index_before = index@;
        if is_current_agent(row, current_agent_id) {
            push_own_turn(&mut messages, row);
            assert(texts_of(messages@).len() == messages@.len());
            assert(row_texts(rows@[i as int], current_agent_id@, access) == own_texts(*row));
            if !row.content.as_str().is_empty() || row.tool_calls.len() == 0 {
                assert(own_texts(*row).len() >= 1);
                assert(own_index(rows@, current_agent_id@, access, i as int) == Some((messages@.len() - 1) as int));
                index.push(Some(messages.len() - 1));
            } else {
                assert(own_index(rows@, current_agent_id@, access, i as int) is None);
                index.push(None);
            }
        } else {
            let m = ChatMessage::text("user", render_untrusted_message(row, access).as_str());
            assert(m.tool_calls@.map_values(|c: ToolCall| call_view(c)) =~= Seq::<(Seq<char>, Seq<char>, Seq<char>)>::empty());
            assert(text_of(m) == plain("user"@, untrusted_text(*row, access)));
            let ghost prev = messages@;
            messages.push(m);
            assert(texts_of(messages@) =~= texts_of(prev).push(text_of(m)));
            assert(own_index(rows@, current_agent_id@, access, i as int) == Some(before as int));
            index.push(Some(before));
        }
        assert(forall|k: int| 0 <= k < i ==> index@[k] == index_before[k]);
        i = i + 1;
    }
    assert(rows@.take(i as int) =~= rows@);
    RenderedConversation { messages: messages, message_index_by_row: index }
}

/// The provider messages of a conversation.
pub fn to_llm_messages(
    system_prompt: &str,
    current_agent_id: &str,
    rows: &[ConversationMessage],
    access: AttachmentAccess,
) -> (r: Vec<ChatMessage>)
    ensures
        texts_of(r@) == seq![plain("system"@, system_prompt@)] + rows_texts(rows@, current_agent_id@, access),
        bare(r@),
{
    render_conversation(system_prompt, current_agent_id, rows, access).messages
}

proof fn lemma_rows_texts_split(rows: Seq<ConversationMessage>, me: Seq<char>, access: AttachmentAccess, i: int)
    requires
        0 <= i <= rows.len(),
    ensures
        rows_texts(rows, me, access) == rows_texts(rows.take(i), me, access) + rows_texts(rows.skip(i), me, access),
    decreases rows.len() - i,
{
    if i < rows.len() {
        lemma_rows_texts_split(rows, me, access, i + 1);
        let tail = rows.skip(i);
        assert(tail.drop_last() =~= rows.subrange(i, rows.len() - 1));
        lemma_rows_texts_split(rows.drop_last(), me, access, i);
        assert(rows.drop_last().take(i) =~= rows.take(i));
        assert(rows.drop_last().skip(i) =~= tail.drop_last());
        if rows.len() > 0 {
            assert(tail.last() == rows.last());
        }
    } else {
        assert(rows.take(i) =~= rows);
        assert(rows.skip(i) =~= Seq::<ConversationMessage>::empty());
    }
}

/// The position recorded for a row holds that row's own text: the agent's
/// own words as an assistant message, anyone else's message enveloped as a
/// user message; a row gets no position only when it is the agent's own turn
/// that made calls and said nothing.
pub proof fn lemma_row_index_points_at_its_text(
    system_prompt: Seq<char>,
    rows: Seq<ConversationMessage>,
    me: Seq<char>,
    access: AttachmentAccess,
    i: int,
)
    requires
        0 <= i < rows.len(),
    ensures
        ({
            let all = seq![plain("system"@, system_prompt)] + rows_texts(rows, me, access);
            match own_index(rows, me, access, i) {
                Some(k) => 0 <= k < all.len() && all[k] == (if is_own(rows[i], me) {
                    plain("assistant"@, rows[i].content@)
                } else {
                    plain("user"@, untrusted_text(rows[i], access))
                }),
                None => is_own(rows[i], me) && !has_text(rows[i]),
            }
        }),
{
    lemma_rows_texts_split(rows, me, access, i);
    let after = rows.skip(i);
    lemma_rows_texts_split(after, me, access, 1);
    assert(after.take(1) =~= seq![rows[i]]);
    assert(rows_texts(seq![rows[i]], me, access) =~= row_texts(rows[i], me, access)) by {
        assert(seq![rows[i]].drop_last() =~= Seq::<ConversationMessage>::empty());
        assert(rows_texts(Seq::<ConversationMessage>::empty(), me, access) == Seq::<MessageText>::empty());
        assert(Seq::<MessageText>::empty() + row_texts(rows[i], me, access) =~= row_texts(rows[i], me, access));
    }
}

/// A stored message row with the names its sender goes by.
#[derive(Debug, Clone)]
pub struct ConversationRow {
    pub id: String,
    pub sender_type: String,
    pub sender_id: Option<String>,
    pub content: Option<String>,
    pub agent_name: Option<String>,
    pub group_agent_display_name: Option<String>,
    pub human_display_name: Option<String>,
    pub turn_id: Option<String>,
    pub dispatch_id: Option<String>,
    pub reply_to_message_id: Option<String>,
}

/// What a row's stored JSON content holds, each part `None` when the JSON
/// does not read in that shape: the attachment payload with its version, the
/// recorded tool calls, and the recorded reasoning.
#[derive(Debug, Clone)]
pub struct ContentPayloads {
    pub attachments: Option<(i64, Vec<ConversationAttachment>)>,
    pub tool_calls: Option<Vec<ConversationToolCall>>,
    pub reasoning: Option<Vec<String>>,
}

/// A name unless it is missing or blank.
pub open spec fn usable(name: Option<String>) -> bool {
    name matches Some(n) && crate::text::trim_spec(n@).len() > 0
}

/// The name a sender goes by: the first usable of its names, else its id,
/// else the stand-in for an unknown sender.
pub open spec fn sender_name(names: Seq<Option<String>>, id: Seq<char>, unknown: Seq<char>) -> Seq<char>
    decreases names.len(),
{
    if names.len() == 0 {
        if id.len() == 0 {
            unknown
        } else {
            id
        }
    } else if usable(names[0]) {
        names[0]->0@
    } else {
        sender_name(names.skip(1), id, unknown)
    }
}

/// The id a row's sender has (empty when none was stored).
pub open spec fn sender_id_of(row: ConversationRow) -> Seq<char> {
    match row.sender_id {
        Some(id) => id@,
        None => Seq::empty(),
    }
}

/// Whether a row was written by an agent.
pub open spec fn by_agent(row: ConversationRow) -> bool {
    row.sender_type@ == "agent"@
}

fn pick_name(first: Option<String>, second: Option<String>, id: &str, unknown: &str) -> (r: String)
    ensures
        r@ == sender_name(seq![first, second], id@, unknown@),
{
    let ghost names = seq![first, second];
    proof {
        reveal_with_fuel(sender_name, 3);
    }
    assert(names.skip(1) =~= seq![second]);
    assert(names.skip(1).skip(1) =~= Seq::<Option<String>>::empty());
    match non_empty(first) {
        Some(n) => n,
        None => match non_empty(second) {
            Some(n) => n,
            None => fallback_display_name(id, unknown),
        },
    }
}

/// A visible message from its stored row and what its JSON content holds:
/// an agent's message carries its recorded calls and reasoning, a human's its
/// attachments (from a version 1 payload only).
pub fn message_from_row(row: ConversationRow, payloads: ContentPayloads) -> (r: ConversationMessage)
    ensures
        r.id == row.id,
        r.content@ == (match row.content {
            Some(c) => c@,
            None => Seq::<char>::empty(),
        }),
        r.turn_id == row.turn_id,
        r.dispatch_id == row.dispatch_id,
        r.reply_to_message_id == row.reply_to_message_id,
        by_agent(row) ==> (r.actor matches ConversationActor::Agent { id, display_name } && id@ == sender_id_of(row)
            && display_name@ == sender_name(
            seq![row.group_agent_display_name, row.agent_name],
            sender_id_of(row),
            "Unknown Agent"@,
        )),
        !by_agent(row) ==> (r.actor matches ConversationActor::Human { id, display_name } && id@ == sender_id_of(row)
            && display_name@ == sender_name(seq![row.human_display_name], sender_id_of(row), "Unknown Human"@)),
        r.attachments@ == (if by_agent(row) {
            Seq::<ConversationAttachment>::empty()
        } else {
            match payloads.attachments {
                Some((version, v)) => if version == 1 {
                    v@
                } else {
                    Seq::empty()
                },
                None => Seq::empty(),
            }
        }),
        r.tool_calls@ == (if by_agent(row) {
            match payloads.tool_calls {
                Some(v) => v@,
                None => Seq::empty(),
            }
        } else {
            Seq::<ConversationToolCall>::empty()
        }),
        r.reasoning@ == (if by_agent(row) {
            match payloads.reasoning {
                Some(v) => v@,
                None => Seq::empty(),
            }
        } else {
            Seq::<String>::empty()
        }),
{
    let is_agent = same_text(row.sender_type.as_str(), "agent");
    let actor_id: String = match row.sender_id {
        Some(id) => id,
        None => String::new(),
    };
    let content: String = match row.content {
        Some(c) => c,
        None => String::new(),
    };
    let actor = if is_agent {
        let name = pick_name(row.group_agent_display_name, row.agent_name, actor_id.as_str(), "Unknown Agent");
        ConversationActor::Agent { id: actor_id, display_name: name }
    } else {
        let ghost names = seq![row.human_display_name];
        proof {
            reveal_with_fuel(sender_name, 2);
        }
        assert(names.skip(1) =~= Seq::<Option<String>>::empty());
        let name = match non_empty(row.human_display_name) {
            Some(n) => n,
            None => fallback_display_name(actor_id.as_str(), "Unknown Human"),
        };
        ConversationActor::Human { id: actor_id, display_name: name }
    };
    let attachments: Vec<ConversationAttachment> = if is_agent {
        Vec::new()
    } else {
        match payloads.attachments {
            Some((version, v)) => if version == 1 {
                v
            } else {
                Vec::new()
            },
            None => Vec::new(),
        }
    };
    let tool_calls: Vec<ConversationToolCall> = if is_agent {
        match payloads.tool_calls {
            Some(v) => v,
            None => Vec::new(),
        }
    } else {
        Vec::new()
    };
    let reasoning: Vec<String> = if is_agent {
        match payloads.reasoning {
            Some(v) => v,
            None => Vec::new(),
        }
    } else {
        Vec::new()
    };
    ConversationMessage {
        id: row.id,
        actor: actor,
        content: content,
        turn_id: row.turn_id,
        dispatch_id: row.dispatch_id,
        reply_to_message_id: row.reply_to_message_id,
        attachments: attachments,
        tool_calls: tool_calls,
        reasoning: reasoning,
    }
}

} // verus!
