use vstd::prelude::*;

use crate::text::same_text;

verus! {

/// One call an assistant message makes; `args` is the call's JSON arguments
/// in their serialized form.
#[derive(Debug, Clone, PartialEq, Eq)]
pub struct ToolCall {
    pub id: String,
    pub name: String,
    pub args: String,
}

/// A piece of multi-part message content.
#[derive(Debug, Clone, PartialEq, Eq)]
pub enum ContentPart {
    Text { text: String },
    Image { mime_type: String, data_base64: String },
}

/// Progress of one checklist item.
#[derive(Debug, Clone, Copy, PartialEq, Eq, Structural)]
pub enum TodoStatus {
    Pending,
    InProgress,
    Completed,
}

impl TodoStatus {
    /// The label the checklist tool's schema uses for this status.
    pub fn as_str(&self) -> (r: &'static str)
        ensures
            r@ == status_label(*self),
    {
        match self {
            TodoStatus::Pending => "pending",
            TodoStatus::InProgress => "in_progress",
            TodoStatus::Completed => "completed",
        }
    }

    /// The status a label names. A label the schema does not know reads as
    /// pending: an item of unknown progress is still open.
    pub fn parse(label: &str) -> (r: TodoStatus)
        ensures
            r == status_of_label(label@),
    {
        if same_text(label, "in_progress") {
            TodoStatus::InProgress
        } else if same_text(label, "completed") {
            TodoStatus::Completed
        } else {
            TodoStatus::Pending
        }
    }
}

/// The label of a status.
pub open spec fn status_label(s: TodoStatus) -> Seq<char> {
    match s {
        TodoStatus::Pending => "pending"@,
        TodoStatus::InProgress => "in_progress"@,
        TodoStatus::Completed => "completed"@,
    }
}

/// The status a label names; anything unknown is pending.
pub open spec fn status_of_label(label: Seq<char>) -> TodoStatus {
    if label == "in_progress"@ {
        TodoStatus::InProgress
    } else if label == "completed"@ {
        TodoStatus::Completed
    } else {
        TodoStatus::Pending
    }
}

/// Every status reads back from its own label.
pub proof fn lemma_status_label_round_trip(s: TodoStatus)
    ensures
        status_of_label(status_label(s)) == s,
{
    reveal_strlit("pending");
    reveal_strlit("in_progress");
    reveal_strlit("completed");
    assert("pending"@[0] != "in_progress"@[0]);
    assert("pending"@[0] != "completed"@[0]);
    assert("in_progress"@[0] != "completed"@[0]);
}

/// One item of an agent's checklist.
#[derive(Debug, Clone, PartialEq, Eq)]
pub struct TodoItem {
    pub content: String,
    pub status: TodoStatus,
}

/// One message of a provider request.
///
/// `todos` holds the checklist a checklist tool result reports, when the
/// message is one; compaction never elides such a result.
#[derive(Debug, Clone)]
pub struct ChatMessage {
    pub role: String,
    pub content: String,
    pub tool_calls: Vec<ToolCall>,
    pub tool_call_id: Option<String>,
    pub tool_name: Option<String>,
    pub parts: Vec<ContentPart>,
    pub reasoning_content: Option<String>,
    pub todos: Option<Vec<TodoItem>>,
}

/// What one tool call is, as the contracts see it.
pub open spec fn call_view(c: ToolCall) -> (Seq<char>, Seq<char>, Seq<char>) {
    (c.id@, c.name@, c.args@)
}

impl View for TodoItem {
    type V = (Seq<char>, TodoStatus);

    open spec fn view(&self) -> (Seq<char>, TodoStatus) {
        (self.content@, self.status)
    }
}

/// The items of a checklist, as the contracts see them.
pub open spec fn items_view(items: Seq<TodoItem>) -> Seq<(Seq<char>, TodoStatus)> {
    items.map_values(|t: TodoItem| t@)
}

/// A message as the contracts see it: every field by its value.
pub struct MessageModel {
    pub role: Seq<char>,
    pub content: Seq<char>,
    pub tool_calls: Seq<ToolCall>,
    pub tool_call_id: Option<String>,
    pub tool_name: Option<String>,
    pub parts: Seq<ContentPart>,
    pub reasoning: Option<String>,
    pub todos: Option<Seq<(Seq<char>, TodoStatus)>>,
}

impl View for ChatMessage {
    type V = MessageModel;

    open spec fn view(&self) -> MessageModel {
        MessageModel {
            role: self.role@,
            content: self.content@,
            tool_calls: self.tool_calls@,
            tool_call_id: self.tool_call_id,
            tool_name: self.tool_name,
            parts: self.parts@,
            reasoning: self.reasoning_content,
            todos: match self.todos {
                Some(v) => Some(items_view(v@)),
                None => None,
            },
        }
    }
}

/// The messages of a thread, as the contracts see them.
pub open spec fn models(ms: Seq<ChatMessage>) -> Seq<MessageModel> {
    ms.map_values(|m: ChatMessage| m@)
}

/// `m` with its content replaced by `content`.
pub open spec fn with_content(m: MessageModel, content: Seq<char>) -> MessageModel {
    MessageModel { content: content, ..m }
}

/// Whether `m` has the role `role`.
pub fn role_is(m: &ChatMessage, role: &str) -> (r: bool)
    ensures
        r == (m.role@ == role@),
{
    same_text(m.role.as_str(), role)
}

impl ChatMessage {
    /// A plain text message from `role`.
    pub fn text(role: &str, content: &str) -> (r: Self)
        ensures
            r.role@ == role@,
            r.content@ == content@,
            r.tool_calls@.len() == 0,
            r.tool_call_id is None,
            r.tool_name is None,
            r.parts@.len() == 0,
            r.reasoning_content is None,
            r.todos is None,
    {
        ChatMessage {
            role: role.to_owned(),
            content: content.to_owned(),
            tool_calls: Vec::new(),
            tool_call_id: None,
            tool_name: None,
            parts: Vec::new(),
            reasoning_content: None,
            todos: None,
        }
    }

    /// An assistant message making `calls`.
    pub fn assistant_tool_calls(content: &str, calls: Vec<ToolCall>) -> (r: Self)
        ensures
            r.role@ == "assistant"@,
            r.content@ == content@,
            r.tool_calls@ == calls@,
            r.tool_call_id is None,
            r.tool_name is None,
            r.parts@.len() == 0,
            r.reasoning_content is None,
            r.todos is None,
    {
        ChatMessage {
            role: "assistant".to_owned(),
            content: content.to_owned(),
            tool_calls: calls,
            tool_call_id: None,
            tool_name: None,
            parts: Vec::new(),
            reasoning_content: None,
            todos: None,
        }
    }

    /// The result of the call `call_id` to `name`.
    pub fn tool_result(call_id: &str, name: &str, content: &str) -> (r: Self)
        ensures
            r.role@ == "tool"@,
            r.content@ == content@,
            r.tool_calls@.len() == 0,
            r.tool_call_id matches Some(id) && id@ == call_id@,
            r.tool_name matches Some(n) && n@ == name@,
            r.parts@.len() == 0,
            r.reasoning_content is None,
            r.todos is None,
    {
        ChatMessage {
            role: "tool".to_owned(),
            content: content.to_owned(),
            tool_calls: Vec::new(),
            tool_call_id: Some(call_id.to_owned()),
            tool_name: Some(name.to_owned()),
            parts: Vec::new(),
            reasoning_content: None,
            todos: None,
        }
    }
}


/// Move message `i` out of `v`, leaving an empty message in its place.
pub fn take_message(v: &mut Vec<ChatMessage>, i: usize) -> (r: ChatMessage)
    requires
        i < old(v)@.len(),
    ensures
        r == old(v)@[i as int],
        final(v)@.len() == old(v)@.len(),
        forall|j: int| 0 <= j < old(v)@.len() && j != i ==> final(v)@[j] == old(v)@[j],
{
    let mut m = ChatMessage::text("", "");
    std::mem::swap(&mut m, &mut v[i]);
    m
}

} // verus!
