use vstd::prelude::*;

use crate::text::{chars_of, decimal, lowercase, push_decimal, same_text, to_lowercase};
use crate::context::{contains_text, text_contains};
use crate::compaction::tokens::ToolDefinition;

verus! {

/// The provider-facing name of a configured builtin tool, by its id; saved
/// placeholders and unknown ids have none.
pub open spec fn builtin_name(id: Seq<char>) -> Option<Seq<char>> {
    if id == "read"@ {
        Some("Read"@)
    } else if id == "write"@ {
        Some("Write"@)
    } else if id == "edit"@ {
        Some("Edit"@)
    } else if id == "delete_file"@ {
        Some("DeleteFile"@)
    } else if id == "glob"@ {
        Some("Glob"@)
    } else if id == "grep"@ {
        Some("Grep"@)
    } else if id == "bash"@ {
        Some("Bash"@)
    } else if id == "ask_user"@ {
        Some("AskUser"@)
    } else if id == "web_search"@ {
        Some("WebSearch"@)
    } else if id == "fetch"@ {
        Some("Fetch"@)
    } else if id == "generate_image"@ {
        Some("GenerateImage"@)
    } else if id == "generate_video"@ {
        Some("GenerateVideo"@)
    } else if id == "skill_manager"@ {
        Some("SkillManager"@)
    } else if id == "todo_write"@ {
        Some("TodoWrite"@)
    } else if id == "exit_plan_mode"@ {
        Some("ExitPlanMode"@)
    } else if id == "app_list"@ {
        Some("AppList"@)
    } else if id == "app_get"@ {
        Some("AppGet"@)
    } else if id == "app_state"@ {
        Some("AppState"@)
    } else if id == "app_docs"@ {
        Some("AppDocs"@)
    } else if id == "app_propose"@ {
        Some("AppPropose"@)
    } else if id == "app_prefill"@ {
        Some("AppPrefill"@)
    } else {
        None
    }
}

/// The provider-facing name of a configured builtin tool.
pub fn builtin_tool_name(id: &str) -> (r: Option<&'static str>)
    ensures
        match builtin_name(id@) {
            Some(n) => r matches Some(s) && s@ == n,
            None => r is None,
        },
{
    if same_text(id, "read") {
        Some("Read")
    } else if same_text(id, "write") {
        Some("Write")
    } else if same_text(id, "edit") {
        Some("Edit")
    } else if same_text(id, "delete_file") {
        Some("DeleteFile")
    } else if same_text(id, "glob") {
        Some("Glob")
    } else if same_text(id, "grep") {
        Some("Grep")
    } else if same_text(id, "bash") {
        Some("Bash")
    } else if same_text(id, "ask_user") {
        Some("AskUser")
    } else if same_text(id, "web_search") {
        Some("WebSearch")
    } else if same_text(id, "fetch") {
        Some("Fetch")
    } else if same_text(id, "generate_image") {
        Some("GenerateImage")
    } else if same_text(id, "generate_video") {
        Some("GenerateVideo")
    } else if same_text(id, "skill_manager") {
        Some("SkillManager")
    } else if same_text(id, "todo_write") {
        Some("TodoWrite")
    } else if same_text(id, "exit_plan_mode") {
        Some("ExitPlanMode")
    } else if same_text(id, "app_list") {
        Some("AppList")
    } else if same_text(id, "app_get") {
        Some("AppGet")
    } else if same_text(id, "app_state") {
        Some("AppState")
    } else if same_text(id, "app_docs") {
        Some("AppDocs")
    } else if same_text(id, "app_propose") {
        Some("AppPropose")
    } else if same_text(id, "app_prefill") {
        Some("AppPrefill")
    } else {
        None
    }
}

/// One tool an MCP server offers, under the name it is exposed as; the schema
/// is the tool's JSON schema in serialized form.
#[derive(Debug, Clone, PartialEq, Eq)]
pub struct McpToolBinding {
    pub exposed_name: String,
    pub server_id: String,
    pub server_name: String,
    pub tool_name: String,
    pub description: String,
    pub input_schema: String,
}

/// The description a provider sees for an MCP tool: the server's own, marked
/// with the server's name, or a generic one naming tool and server.
pub open spec fn mcp_description(b: McpToolBinding) -> Seq<char> {
    if b.description@.len() == 0 {
        "Tool '"@ + b.tool_name@ + "' from MCP server '"@ + b.server_name@ + "'."@
    } else {
        "[MCP: "@ + b.server_name@ + "] "@ + b.description@
    }
}

/// The provider-facing definition of an MCP tool.
pub fn mcp_tool_definition(binding: &McpToolBinding) -> (r: ToolDefinition)
    ensures
        r.name@ == binding.exposed_name@,
        r.description@ == mcp_description(*binding),
        r.input_schema@ == binding.input_schema@,
{
    let mut description = String::new();
    if binding.description.as_str().is_empty() {
        description.append("Tool '");
        description.append(binding.tool_name.as_str());
        description.append("' from MCP server '");
        description.append(binding.server_name.as_str());
        description.append("'.");
    } else {
        description.append("[MCP: ");
        description.append(binding.server_name.as_str());
        description.append("] ");
        description.append(binding.description.as_str());
    }
    ToolDefinition {
        name: binding.exposed_name.as_str().to_owned(),
        description: description,
        input_schema: binding.input_schema.as_str().to_owned(),
    }
}

/// The failure lines of the MCP prompt section, one per unavailable server.
pub open spec fn failure_lines(failures: Seq<(String, String)>) -> Seq<char>
    decreases failures.len(),
{
    if failures.len() == 0 {
        Seq::empty()
    } else {
        failure_lines(failures.drop_last()) + "\n- "@ + failures.last().0@ + ": "@ + failures.last().1@
    }
}

/// The MCP section of a system prompt: empty when every server is available,
/// otherwise a heading and one line per unavailable server with its reason.
pub open spec fn mcp_section(failures: Seq<(String, String)>) -> Seq<char> {
    if failures.len() == 0 {
        Seq::empty()
    } else {
        "Unavailable MCP servers this turn:"@ + failure_lines(failures)
    }
}

/// Report only the MCP servers that could not be reached this turn.
pub fn render_mcp_section(failures: &[(String, String)]) -> (r: String)
    ensures
        r@ == mcp_section(failures@),
{
    if failures.len() == 0 {
        return String::new();
    }
    let mut out = "Unavailable MCP servers this turn:".to_owned();
    let ghost head = out@;
    let mut i: usize = 0;
    while i < failures.len()
        invariant
            i <= failures@.len(),
            out@ == head + failure_lines(failures@.take(i as int)),
        decreases failures@.len() - i,
    {
        assert(failures@.take(i as int + 1).drop_last() =~= failures@.take(i as int));
        out.append("\n- ");
        out.append(failures[i].0.as_str());
        out.append(": ");
        out.append(failures[i].1.as_str());
        i = i + 1;
    }
    assert(failures@.take(i as int) =~= failures@);
    out
}

/// Why a step of a turn failed: the provider refused with an HTTP status and
/// a body of its own, or something the host reports in its own words.
#[derive(Debug, Clone, PartialEq, Eq)]
pub enum StepFailure {
    ProviderHttp { status: u16, body: String },
    Other { message: String },
}

/// What a user is told of a failed step: a provider failure only by its
/// status, since providers echo submitted credentials in error bodies;
/// anything else in the host's own words.
pub open spec fn user_facing_text(f: StepFailure) -> Seq<char> {
    match f {
        StepFailure::ProviderHttp { status, .. } => "The provider returned HTTP "@ + decimal(status as nat) + "."@,
        StepFailure::Other { message } => message@,
    }
}

/// Render a failed step for the user.
pub fn user_facing_error(error: &StepFailure) -> (r: String)
    ensures
        r@ == user_facing_text(*error),
{
    match error {
        StepFailure::ProviderHttp { status, .. } => {
            let mut out = "The provider returned HTTP ".to_owned();
            push_decimal(&mut out, *status as u64);
            out.append(".");
            out
        },
        StepFailure::Other { message } => message.as_str().to_owned(),
    }
}

/// Whether a failed step is the provider refusing a request as longer than
/// its context window: an HTTP 400 whose body names the context length
/// (in any case).
pub open spec fn overflow_failure(f: StepFailure) -> bool {
    match f {
        StepFailure::ProviderHttp { status, body } => status == 400 && (contains_text(
            lowercase(body@),
            "context_length_exceeded"@,
        ) || contains_text(lowercase(body@), "maximum context length"@)),
        StepFailure::Other { .. } => false,
    }
}

/// Whether a failed step is a context overflow, the one failure compaction
/// can recover from.
pub fn is_context_overflow(error: &StepFailure) -> (r: bool)
    ensures
        r == overflow_failure(*error),
{
    match error {
        StepFailure::ProviderHttp { status, body } => {
            if *status != 400 {
                return false;
            }
            let lowered = to_lowercase(body.as_str());
            let v = chars_of(lowered.as_str());
            text_contains(v.as_slice(), "context_length_exceeded") || text_contains(
                v.as_slice(),
                "maximum context length",
            )
        },
        StepFailure::Other { .. } => false,
    }
}

} // verus!
