use vstd::prelude::*;

use crate::text::same_text;
use crate::compaction::tokens::ToolDefinition;
use crate::conversation::{json_string_literal, quote_json};
use crate::agent_tool::{AssistantMember, AGENT_AS_TOOL_NAME};
use crate::group::config::distinct_strings;

verus! {

/// A tool definition, as the contracts see it: name, description, schema.
pub open spec fn definition_view(d: ToolDefinition) -> (Seq<char>, Seq<char>, Seq<char>) {
    (d.name@, d.description@, d.input_schema@)
}

/// What the model is told the `ReadGroupNotes` tool does.
pub const READ_GROUP_NOTES_DESCRIPTION: &'static str = "List shared group notes, or read one note by its path. Omit path to read the index.";

/// What the model is told the `Read` tool does.
pub const READ_DESCRIPTION: &'static str = "Read UTF-8 file contents. Output is capped at 2000 lines; use offset and limit for large files.";

/// The JSON schema of the `Read` tool's input.
pub const READ_SCHEMA: &'static str = r#"{"type":"object","properties":{"path":{"type":"string","description":"Workspace-relative path to the file"},"offset":{"type":"integer","minimum":0,"description":"1-based line number to start from; 0 also starts at the beginning"},"limit":{"type":"integer","minimum":1,"description":"Maximum number of lines to read"}},"required":["path"],"additionalProperties":false}"#;

/// What the model is told the `Write` tool does.
pub const WRITE_DESCRIPTION: &'static str = "Create or overwrite a UTF-8 file, creating parent directories when needed.";

/// The JSON schema of the `Write` tool's input.
pub const WRITE_SCHEMA: &'static str = r#"{"type":"object","properties":{"path":{"type":"string","description":"Workspace-relative path to write"},"content":{"type":"string","description":"Complete file content"}},"required":["path","content"],"additionalProperties":false}"#;

/// What the model is told the `Edit` tool does.
pub const EDIT_DESCRIPTION: &'static str = "Make precise, atomic edits to one UTF-8 file. Every oldText must match one unique, non-overlapping block in the original file.";

/// The JSON schema of the `Edit` tool's input.
pub const EDIT_SCHEMA: &'static str = r#"{"type":"object","properties":{"path":{"type":"string","description":"Workspace-relative path to edit"},"edits":{"type":"array","minItems":1,"description":"One or more exact replacements, all validated before writing","items":{"type":"object","properties":{"oldText":{"type":"string"},"newText":{"type":"string"}},"required":["oldText","newText"],"additionalProperties":false}}},"required":["path","edits"],"additionalProperties":false}"#;

/// What the model is told the `DeleteFile` tool does.
pub const DELETE_FILE_DESCRIPTION: &'static str = "Delete one regular workspace file. Directories and symlinks are rejected.";

/// What the model is told the `Glob` tool does.
pub const GLOB_DESCRIPTION: &'static str = "Find workspace files by glob pattern.";

/// What the model is told the `Grep` tool does.
pub const GREP_DESCRIPTION: &'static str = "Search workspace file contents.";

/// What the model is told the `ShellOutput` tool does.
pub const SHELL_OUTPUT_DESCRIPTION: &'static str = "Read whatever a background shell job has produced since the last read. Reads are incremental and never repeat output.";

/// What the model is told the `ShellKill` tool does.
pub const SHELL_KILL_DESCRIPTION: &'static str = "Terminate a background shell job and every process it started.";

/// What the model is told the `ShellJobs` tool does.
pub const SHELL_JOBS_DESCRIPTION: &'static str = "List the background shell jobs started in this workspace, with their status and log locations.";

/// What the model is told the `AskUser` tool does.
pub const ASK_USER_DESCRIPTION: &'static str = "Ask the human user for bounded input without blocking the server.";

/// What the model is told the `WebSearch` tool does.
pub const WEB_SEARCH_DESCRIPTION: &'static str = "Search the web when a provider is configured; otherwise report setup required.";

/// What the model is told the `Fetch` tool does.
pub const FETCH_DESCRIPTION: &'static str = "Fetch a bounded HTTP(S) text URL.";

/// What the model is told the `RunSubAgent` tool does.
pub const RUN_SUB_AGENT_DESCRIPTION: &'static str = "Request a bounded sub-agent delegation if infrastructure is configured.";

/// What the model is told the `GenerateImage` tool does.
pub const GENERATE_IMAGE_DESCRIPTION: &'static str = "Generate an image through the configured OpenAI-compatible media provider and save it under generations/ in the workspace.";

/// What the model is told the `GenerateVideo` tool does.
pub const GENERATE_VIDEO_DESCRIPTION: &'static str = "Generate a video through the configured OpenAI-compatible media provider and save it under generations/ in the workspace.";

/// What the model is told the `SkillManager` tool does.
pub const SKILL_MANAGER_DESCRIPTION: &'static str = "List or inspect mounted skill metadata and instructions.";

/// What the model is told the `TodoWrite` tool does.
pub const TODO_WRITE_DESCRIPTION: &'static str = "Record the checklist for the work in front of you. Each call replaces the whole list, so send every item every time with its status as of now: exactly one item should be in_progress while you work on it.";

/// The JSON schema of the `TodoWrite` tool's input.
pub const TODO_WRITE_SCHEMA: &'static str = r#"{"type":"object","properties":{"todos":{"type":"array","description":"The complete checklist, in the order the work happens","items":{"type":"object","properties":{"content":{"type":"string","description":"One short line naming the step"},"status":{"type":"string","enum":["pending","in_progress","completed"],"description":"Where this step stands right now"}},"required":["content","status"],"additionalProperties":false}}},"required":["todos"],"additionalProperties":false}"#;

/// What the model is told the `ExitPlanMode` tool does.
pub const EXIT_PLAN_MODE_DESCRIPTION: &'static str = "Request user approval for an implementation plan.";

/// What the model is told the `AppList` tool does.
pub const APP_LIST_DESCRIPTION: &'static str = "List the user's configured resources of one kind. Use this before proposing a              change, so you do not propose something that already exists.";

/// The JSON schema of the `AppList` tool's input.
pub const APP_LIST_SCHEMA: &'static str = r#"{"type":"object","properties":{"kind":{"type":"string","enum":["agent","provider","mcp","skill","workspace","group","group_template","group_note","chat"],"description":"Which family of resources to list"}},"required":["kind"],"additionalProperties":false}"#;

/// What the model is told the `AppGet` tool does.
pub const APP_GET_DESCRIPTION: &'static str = "Read one configured resource in full. A group also includes its current Agent              and user members; a group_note includes its current app-managed content. Secrets              are never returned: a provider reports whether an API key is set, not the key itself.";

/// The JSON schema of the `AppGet` tool's input.
pub const APP_GET_SCHEMA: &'static str = r#"{"type":"object","properties":{"kind":{"type":"string","enum":["agent","provider","mcp","skill","workspace","group","group_template","group_note","chat"],"description":"Which family the id belongs to"},"id":{"type":"string","description":"The resource id"}},"required":["kind","id"],"additionalProperties":false}"#;

/// What the model is told the `AppState` tool does.
pub const APP_STATE_DESCRIPTION: &'static str = "Summarize what the user has configured so far, including which first-run setup              steps are still missing.";

/// The JSON schema of the `AppState` tool's input.
pub const APP_STATE_SCHEMA: &'static str = r#"{"type":"object","properties":{},"additionalProperties":false}"#;

/// What the model is told the `AppPropose` tool does.
pub const APP_PROPOSE_DESCRIPTION: &'static str = "Stage an app action for the user to approve. This does NOT apply the action immediately:              the user sees a card, unless auto-approval mode applies it automatically. Never tell the user              something has changed after calling this — say you have proposed it.";

/// The JSON schema of the `AppPropose` tool's input.
pub const APP_PROPOSE_SCHEMA: &'static str = r#"{"type":"object","properties":{"target_kind":{"type":"string","enum":["agent","skill","workspace","group","group_template","group_note","mcp","chat"],"description":"What to change. Providers, secrets and deletions                                         cannot be staged; use AppPrefill for those."},"action":{"type":"string","enum":["create","update"],"description":"Deletion cannot be proposed"},"target_id":{"type":"string","description":"The id to update. Required when action is update."},"payload":{"type":"object","description":"The fields for this kind. Must not contain an API key,                                         MCP headers, or env. For group/create include a                                         workspace_id or template_id; initial_agents and message                                         are optional. For group/update, provide target_id and                                         {\"message\": \"...\"} to message it. To change                                         membership, propose it separately with {\"membership\":                                         {\"operation\": \"add_agent\" or \"remove_agent\",                                         \"agent_id\": \"...\"}} or {\"membership\":                                         {\"operation\": \"add_user\" or \"remove_user\",                                         \"email\": \"exact address\"}}. For                                         group_template/create use {\"name\": \"...\",                                         \"group_id\": \"...\"}. For group_note/create use                                         {\"group_id\": \"...\", \"title\": \"...\",                                         \"content\": \"optional\"}; for update provide                                         target_id and title and/or content. For chat/create use                                         {\"agent_id\": \"...\", \"message\": \"optional                                         first message\"}; for chat/update provide target_id                                         and {\"message\": \"...\"}. For a workspace, prefer                                         {\"backend_type\": \"local\", \"auto_create\":                                         true} and omit local_path."}},"required":["target_kind","action"],"additionalProperties":false}"#;

/// What the model is told the `AppPrefill` tool does.
pub const APP_PREFILL_DESCRIPTION: &'static str = "Hand the user a link to a prefilled form for a change you are not allowed to              stage — provider API keys, stdio MCP servers, CLI installs, and deletions.              Writes nothing.";

/// The JSON schema of the `AppPrefill` tool's input.
pub const APP_PREFILL_SCHEMA: &'static str = r#"{"type":"object","properties":{"target_kind":{"type":"string","enum":["agent","provider","mcp","skill","workspace"]},"action":{"type":"string","enum":["create","update"]},"target_id":{"type":"string"},"fields":{"type":"object","description":"Values to prefill. Never include a secret; leave                                         those for the user."}},"required":["target_kind","action"],"additionalProperties":false}"#;

/// What the model is told the `AppDocs` tool does.
pub const APP_DOCS_DESCRIPTION: &'static str = "Search the bundled AG Swarmer usage guide. Prefer this over your own recollection              for any question about how this app works. Pass a query to search, or a slug to              read one page whole.";

/// The JSON schema of the `AppDocs` tool's input.
pub const APP_DOCS_SCHEMA: &'static str = r#"{"type":"object","properties":{"query":{"type":"string","description":"What to search for, in the user's own words"},"slug":{"type":"string","description":"Read one page by its exact slug instead of searching"}},"additionalProperties":false}"#;

/// What the model is told a group note edit does.
pub const EDIT_GROUP_NOTE_DESCRIPTION: &'static str = "Edit one existing shared group note by the path returned from ReadGroupNotes.";

/// The schema of one property of a generated object schema: a list of
/// strings for `array`, otherwise a value of the named JSON type.
pub open spec fn property_text(field: (Seq<char>, Seq<char>)) -> Seq<char> {
    "\""@ + field.0 + "\":"@ + (if field.1 == "array"@ {
        "{\"type\":\"array\",\"items\":{\"type\":\"string\"}}"@
    } else {
        "{\"type\":\""@ + field.1 + "\"}"@
    })
}

/// The properties of a generated object schema, comma separated.
pub open spec fn properties_text(fields: Seq<(Seq<char>, Seq<char>)>) -> Seq<char>
    decreases fields.len(),
{
    if fields.len() == 0 {
        Seq::empty()
    } else if fields.len() == 1 {
        property_text(fields[0])
    } else {
        properties_text(fields.drop_last()) + ","@ + property_text(fields.last())
    }
}

/// Names as a comma separated list of JSON strings.
pub open spec fn names_text(names: Seq<Seq<char>>) -> Seq<char>
    decreases names.len(),
{
    if names.len() == 0 {
        Seq::empty()
    } else if names.len() == 1 {
        "\""@ + names[0] + "\""@
    } else {
        names_text(names.drop_last()) + ",\""@ + names.last() + "\""@
    }
}

/// The schema of an object with the given properties, of which `required`
/// must be present, and nothing else.
pub open spec fn object_schema_text(fields: Seq<(Seq<char>, Seq<char>)>, required: Seq<Seq<char>>) -> Seq<char> {
    "{\"type\":\"object\",\"properties\":{"@ + properties_text(fields) + "},\"required\":["@ + names_text(required)
        + "],\"additionalProperties\":false}"@
}

/// Fields, as the contracts see them.
pub open spec fn fields_view(fields: Seq<(&str, &str)>) -> Seq<(Seq<char>, Seq<char>)> {
    fields.map_values(|f: (&str, &str)| (f.0@, f.1@))
}

/// Names, as the contracts see them.
pub open spec fn names_view(names: Seq<&str>) -> Seq<Seq<char>> {
    names.map_values(|n: &str| n@)
}

/// The JSON schema of an object with the given `(name, kind)` properties,
/// `required` naming those that must be present, and no others allowed.
pub fn object_schema(fields: &[(&str, &str)], required: &[&str]) -> (r: String)
    ensures
        r@ == object_schema_text(fields_view(fields@), names_view(required@)),
{
    let mut out = "{\"type\":\"object\",\"properties\":{".to_owned();
    let ghost head = out@;
    let mut i: usize = 0;
    while i < fields.len()
        invariant
            i <= fields@.len(),
            out@ == head + properties_text(fields_view(fields@.take(i as int))),
        decreases fields@.len() - i,
    {
        assert(fields_view(fields@.take(i as int + 1)).drop_last() =~= fields_view(fields@.take(i as int)));
        assert(fields_view(fields@.take(i as int + 1)).last() == (fields@[i as int].0@, fields@[i as int].1@));
        if i > 0 {
            out.append(",");
        }
        out.append("\"");
        out.append(fields[i].0);
        out.append("\":");
        if same_text(fields[i].1, "array") {
            out.append("{\"type\":\"array\",\"items\":{\"type\":\"string\"}}");
        } else {
            out.append("{\"type\":\"");
            out.append(fields[i].1);
            out.append("\"}");
        }
        i = i + 1;
        assert(out@ =~= head + properties_text(fields_view(fields@.take(i as int))));
    }
    assert(fields@.take(i as int) =~= fields@);
    out.append("},\"required\":[");
    let ghost mid = out@;
    let mut j: usize = 0;
    while j < required.len()
        invariant
            j <= required@.len(),
            out@ == mid + names_text(names_view(required@.take(j as int))),
        decreases required@.len() - j,
    {
        assert(names_view(required@.take(j as int + 1)).drop_last() =~= names_view(required@.take(j as int)));
        assert(names_view(required@.take(j as int + 1)).last() == required@[j as int]@);
        if j > 0 {
            out.append(",\"");
        } else {
            out.append("\"");
        }
        out.append(required[j]);
        out.append("\"");
        j = j + 1;
        assert(out@ =~= mid + names_text(names_view(required@.take(j as int))));
    }
    assert(required@.take(j as int) =~= required@);
    out.append("],\"additionalProperties\":false}");
    out
}

/// The description and input schema of each statically defined tool.
pub open spec fn tool_entry(name: Seq<char>) -> Option<(Seq<char>, Seq<char>)> {
    if name == "ReadGroupNotes"@ {
        Some((READ_GROUP_NOTES_DESCRIPTION@, object_schema_text(seq![("path"@, "string"@)], Seq::empty())))
    } else if name == "Read"@ {
        Some((READ_DESCRIPTION@, READ_SCHEMA@))
    } else if name == "Write"@ {
        Some((WRITE_DESCRIPTION@, WRITE_SCHEMA@))
    } else if name == "Edit"@ {
        Some((EDIT_DESCRIPTION@, EDIT_SCHEMA@))
    } else if name == "DeleteFile"@ {
        Some((DELETE_FILE_DESCRIPTION@, object_schema_text(seq![("path"@, "string"@)], seq!["path"@])))
    } else if name == "Glob"@ {
        Some((GLOB_DESCRIPTION@, object_schema_text(seq![("pattern"@, "string"@), ("limit"@, "integer"@)], Seq::empty())))
    } else if name == "Grep"@ {
        Some((GREP_DESCRIPTION@, object_schema_text(seq![("pattern"@, "string"@), ("path"@, "string"@), ("limit"@, "integer"@)], seq!["pattern"@])))
    } else if name == "ShellOutput"@ {
        Some((SHELL_OUTPUT_DESCRIPTION@, object_schema_text(seq![("job_id"@, "string"@)], seq!["job_id"@])))
    } else if name == "ShellKill"@ {
        Some((SHELL_KILL_DESCRIPTION@, object_schema_text(seq![("job_id"@, "string"@)], seq!["job_id"@])))
    } else if name == "ShellJobs"@ {
        Some((SHELL_JOBS_DESCRIPTION@, object_schema_text(Seq::empty(), Seq::empty())))
    } else if name == "AskUser"@ {
        Some((ASK_USER_DESCRIPTION@, object_schema_text(seq![("question"@, "string"@), ("required"@, "boolean"@), ("choices"@, "array"@)], seq!["question"@])))
    } else if name == "WebSearch"@ {
        Some((WEB_SEARCH_DESCRIPTION@, object_schema_text(seq![("query"@, "string"@), ("max_results"@, "integer"@)], seq!["query"@])))
    } else if name == "Fetch"@ {
        Some((FETCH_DESCRIPTION@, object_schema_text(seq![("url"@, "string"@), ("timeout_seconds"@, "integer"@)], seq!["url"@])))
    } else if name == "RunSubAgent"@ {
        Some((RUN_SUB_AGENT_DESCRIPTION@, object_schema_text(seq![("task"@, "string"@)], seq!["task"@])))
    } else if name == "GenerateImage"@ {
        Some((GENERATE_IMAGE_DESCRIPTION@, object_schema_text(seq![("prompt"@, "string"@), ("model"@, "string"@)], seq!["prompt"@])))
    } else if name == "GenerateVideo"@ {
        Some((GENERATE_VIDEO_DESCRIPTION@, object_schema_text(seq![("prompt"@, "string"@), ("model"@, "string"@)], seq!["prompt"@])))
    } else if name == "SkillManager"@ {
        Some((SKILL_MANAGER_DESCRIPTION@, object_schema_text(seq![("action"@, "string"@), ("skill_name"@, "string"@)], Seq::empty())))
    } else if name == "TodoWrite"@ {
        Some((TODO_WRITE_DESCRIPTION@, TODO_WRITE_SCHEMA@))
    } else if name == "ExitPlanMode"@ {
        Some((EXIT_PLAN_MODE_DESCRIPTION@, object_schema_text(seq![("plan"@, "string"@)], seq!["plan"@])))
    } else if name == "AppList"@ {
        Some((APP_LIST_DESCRIPTION@, APP_LIST_SCHEMA@))
    } else if name == "AppGet"@ {
        Some((APP_GET_DESCRIPTION@, APP_GET_SCHEMA@))
    } else if name == "AppState"@ {
        Some((APP_STATE_DESCRIPTION@, APP_STATE_SCHEMA@))
    } else if name == "AppPropose"@ {
        Some((APP_PROPOSE_DESCRIPTION@, APP_PROPOSE_SCHEMA@))
    } else if name == "AppPrefill"@ {
        Some((APP_PREFILL_DESCRIPTION@, APP_PREFILL_SCHEMA@))
    } else if name == "AppDocs"@ {
        Some((APP_DOCS_DESCRIPTION@, APP_DOCS_SCHEMA@))
    } else {
        None
    }
}

/// The definition of a statically defined tool, as `(name, description,
/// schema)`: a group note edit is an edit under its own name and
/// description.
pub open spec fn tool_spec(name: Seq<char>) -> Option<(Seq<char>, Seq<char>, Seq<char>)> {
    if name == "EditGroupNote"@ {
        match tool_entry("Edit"@) {
            Some((_, schema)) => Some((name, EDIT_GROUP_NOTE_DESCRIPTION@, schema)),
            None => None,
        }
    } else {
        match tool_entry(name) {
            Some((description, schema)) => Some((name, description, schema)),
            None => None,
        }
    }
}

fn tool_entry_exec(name: &str) -> (r: Option<(&'static str, String)>)
    ensures
        match tool_entry(name@) {
            Some((d, s)) => r matches Some((rd, rs)) && rd@ == d && rs@ == s,
            None => r is None,
        },
{
    if same_text(name, "ReadGroupNotes") {
        let fields: [(&str, &str); 1] = [("path", "string")];
        let required: [&str; 0] = [];
        assert(fields_view(fields@) =~= seq![("path"@, "string"@)]);
        assert(names_view(required@) =~= Seq::empty());
        return Some((READ_GROUP_NOTES_DESCRIPTION, object_schema(&fields, &required)));
    }
    if same_text(name, "Read") {
        return Some((READ_DESCRIPTION, READ_SCHEMA.to_owned()));
    }
    if same_text(name, "Write") {
        return Some((WRITE_DESCRIPTION, WRITE_SCHEMA.to_owned()));
    }
    if same_text(name, "Edit") {
        return Some((EDIT_DESCRIPTION, EDIT_SCHEMA.to_owned()));
    }
    if same_text(name, "DeleteFile") {
        let fields: [(&str, &str); 1] = [("path", "string")];
        let required: [&str; 1] = ["path"];
        assert(fields_view(fields@) =~= seq![("path"@, "string"@)]);
        assert(names_view(required@) =~= seq!["path"@]);
        return Some((DELETE_FILE_DESCRIPTION, object_schema(&fields, &required)));
    }
    if same_text(name, "Glob") {
        let fields: [(&str, &str); 2] = [("pattern", "string"), ("limit", "integer")];
        let required: [&str; 0] = [];
        assert(fields_view(fields@) =~= seq![("pattern"@, "string"@), ("limit"@, "integer"@)]);
        assert(names_view(required@) =~= Seq::empty());
        return Some((GLOB_DESCRIPTION, object_schema(&fields, &required)));
    }
    if same_text(name, "Grep") {
        let fields: [(&str, &str); 3] = [("pattern", "string"), ("path", "string"), ("limit", "integer")];
        let required: [&str; 1] = ["pattern"];
        assert(fields_view(fields@) =~= seq![("pattern"@, "string"@), ("path"@, "string"@), ("limit"@, "integer"@)]);
        assert(names_view(required@) =~= seq!["pattern"@]);
        return Some((GREP_DESCRIPTION, object_schema(&fields, &required)));
    }
    if same_text(name, "ShellOutput") {
        let fields: [(&str, &str); 1] = [("job_id", "string")];
        let required: [&str; 1] = ["job_id"];
        assert(fields_view(fields@) =~= seq![("job_id"@, "string"@)]);
        assert(names_view(required@) =~= seq!["job_id"@]);
        return Some((SHELL_OUTPUT_DESCRIPTION, object_schema(&fields, &required)));
    }
    if same_text(name, "ShellKill") {
        let fields: [(&str, &str); 1] = [("job_id", "string")];
        let required: [&str; 1] = ["job_id"];
        assert(fields_view(fields@) =~= seq![("job_id"@, "string"@)]);
        assert(names_view(required@) =~= seq!["job_id"@]);
        return Some((SHELL_KILL_DESCRIPTION, object_schema(&fields, &required)));
    }
    if same_text(name, "ShellJobs") {
        let fields: [(&str, &str); 0] = [];
        let required: [&str; 0] = [];
        assert(fields_view(fields@) =~= Seq::empty());
        assert(names_view(required@) =~= Seq::empty());
        return Some((SHELL_JOBS_DESCRIPTION, object_schema(&fields, &required)));
    }
    if same_text(name, "AskUser") {
        let fields: [(&str, &str); 3] = [("question", "string"), ("required", "boolean"), ("choices", "array")];
        let required: [&str; 1] = ["question"];
        assert(fields_view(fields@) =~= seq![("question"@, "string"@), ("required"@, "boolean"@), ("choices"@, "array"@)]);
        assert(names_view(required@) =~= seq!["question"@]);
        return Some((ASK_USER_DESCRIPTION, object_schema(&fields, &required)));
    }
    if same_text(name, "WebSearch") {
        let fields: [(&str, &str); 2] = [("query", "string"), ("max_results", "integer")];
        let required: [&str; 1] = ["query"];
        assert(fields_view(fields@) =~= seq![("query"@, "string"@), ("max_results"@, "integer"@)]);
        assert(names_view(required@) =~= seq!["query"@]);
        return Some((WEB_SEARCH_DESCRIPTION, object_schema(&fields, &required)));
    }
    if same_text(name, "Fetch") {
        let fields: [(&str, &str); 2] = [("url", "string"), ("timeout_seconds", "integer")];
        let required: [&str; 1] = ["url"];
        assert(fields_view(fields@) =~= seq![("url"@, "string"@), ("timeout_seconds"@, "integer"@)]);
        assert(names_view(required@) =~= seq!["url"@]);
        return Some((FETCH_DESCRIPTION, object_schema(&fields, &required)));
    }
    if same_text(name, "RunSubAgent") {
        let fields: [(&str, &str); 1] = [("task", "string")];
        let required: [&str; 1] = ["task"];
        assert(fields_view(fields@) =~= seq![("task"@, "string"@)]);
        assert(names_view(required@) =~= seq!["task"@]);
        return Some((RUN_SUB_AGENT_DESCRIPTION, object_schema(&fields, &required)));
    }
    if same_text(name, "GenerateImage") {
        let fields: [(&str, &str); 2] = [("prompt", "string"), ("model", "string")];
        let required: [&str; 1] = ["prompt"];
        assert(fields_view(fields@) =~= seq![("prompt"@, "string"@), ("model"@, "string"@)]);
        assert(names_view(required@) =~= seq!["prompt"@]);
        return Some((GENERATE_IMAGE_DESCRIPTION, object_schema(&fields, &required)));
    }
    if same_text(name, "GenerateVideo") {
        let fields: [(&str, &str); 2] = [("prompt", "string"), ("model", "string")];
        let required: [&str; 1] = ["prompt"];
        assert(fields_view(fields@) =~= seq![("prompt"@, "string"@), ("model"@, "string"@)]);
        assert(names_view(required@) =~= seq!["prompt"@]);
        return Some((GENERATE_VIDEO_DESCRIPTION, object_schema(&fields, &required)));
    }
    if same_text(name, "SkillManager") {
        let fields: [(&str, &str); 2] = [("action", "string"), ("skill_name", "string")];
        let required: [&str; 0] = [];
        assert(fields_view(fields@) =~= seq![("action"@, "string"@), ("skill_name"@, "string"@)]);
        assert(names_view(required@) =~= Seq::empty());
        return Some((SKILL_MANAGER_DESCRIPTION, object_schema(&fields, &required)));
    }
    if same_text(name, "TodoWrite") {
        return Some((TODO_WRITE_DESCRIPTION, TODO_WRITE_SCHEMA.to_owned()));
    }
    if same_text(name, "ExitPlanMode") {
        let fields: [(&str, &str); 1] = [("plan", "string")];
        let required: [&str; 1] = ["plan"];
        assert(fields_view(fields@) =~= seq![("plan"@, "string"@)]);
        assert(names_view(required@) =~= seq!["plan"@]);
        return Some((EXIT_PLAN_MODE_DESCRIPTION, object_schema(&fields, &required)));
    }
    if same_text(name, "AppList") {
        return Some((APP_LIST_DESCRIPTION, APP_LIST_SCHEMA.to_owned()));
    }
    if same_text(name, "AppGet") {
        return Some((APP_GET_DESCRIPTION, APP_GET_SCHEMA.to_owned()));
    }
    if same_text(name, "AppState") {
        return Some((APP_STATE_DESCRIPTION, APP_STATE_SCHEMA.to_owned()));
    }
    if same_text(name, "AppPropose") {
        return Some((APP_PROPOSE_DESCRIPTION, APP_PROPOSE_SCHEMA.to_owned()));
    }
    if same_text(name, "AppPrefill") {
        return Some((APP_PREFILL_DESCRIPTION, APP_PREFILL_SCHEMA.to_owned()));
    }
    if same_text(name, "AppDocs") {
        return Some((APP_DOCS_DESCRIPTION, APP_DOCS_SCHEMA.to_owned()));
    }
    None
}

/// The provider-facing definition of a statically defined tool.
pub fn tool_definition(name: &str) -> (r: Option<ToolDefinition>)
    ensures
        match tool_spec(name@) {
            Some(d) => r matches Some(def) && definition_view(def) == d,
            None => r is None,
        },
{
    if same_text(name, "EditGroupNote") {
        return match tool_entry_exec("Edit") {
            Some((_, schema)) => Some(
                ToolDefinition {
                    name: name.to_owned(),
                    description: EDIT_GROUP_NOTE_DESCRIPTION.to_owned(),
                    input_schema: schema,
                },
            ),
            None => None,
        };
    }
    match tool_entry_exec(name) {
        Some((description, schema)) => Some(
            ToolDefinition { name: name.to_owned(), description: description.to_owned(), input_schema: schema },
        ),
        None => None,
    }
}

/// The input schema of the agent-as-tool tool up to the list of assistants.
pub const AGENT_SCHEMA_HEAD: &'static str = r#"{"type":"object","properties":{"assistant":{"type":"string","enum":"#;

/// The input schema of the agent-as-tool tool after the list of assistants.
pub const AGENT_SCHEMA_TAIL: &'static str = r#","description":"Which assistant to dispatch to, by the name listed above"},"task":{"type":"string","description":"The work to delegate, written so the assistant can act on it without further context"},"instructions":{"type":"string","description":"Optional constraints on how to do it — format, depth, what to leave alone"},"mode":{"type":"string","enum":["call","handoff"],"description":"call: the assistant runs privately and its reply comes back to you as this tool's result, so you keep the turn and answer the group yourself. handoff: the assistant takes the turn and replies to the group in your place, and you do not speak again. Defaults to handoff, so pass call whenever you intend to use the answer."}},"required":["assistant","task"],"additionalProperties":false}"#;

/// The input schema of the shell tool up to the command's description.
pub const SHELL_SCHEMA_HEAD: &'static str = r#"{"type":"object","properties":{"command":{"type":"string","description":"#;

/// The input schema of the shell tool after the command's description.
pub const SHELL_SCHEMA_TAIL: &'static str = r#"},"timeout_seconds":{"type":"integer","minimum":1,"description":"Seconds before the command's whole process tree is terminated"},"run_in_background":{"type":"boolean","description":"Return a job id immediately instead of waiting for the command to finish"}},"required":["command"],"additionalProperties":false}"#;

/// The shell tool's definition for a dialect, given the dialect's tool
/// name, its guidance and its label.
pub open spec fn shell_spec(tool_name: Seq<char>, guidance: Seq<char>, label: Seq<char>) -> (Seq<char>, Seq<char>, Seq<char>) {
    (
        tool_name,
        "Run a guarded shell command in the bound workspace. "@ + guidance
            + " Output is capped and truncation keeps the tail, spilling the complete text to a workspace file. Set run_in_background for work that outlives one reply (builds, test suites, servers) and read it back with ShellOutput."@,
        SHELL_SCHEMA_HEAD@ + json_string_literal("A single "@ + label + " command line"@) + SHELL_SCHEMA_TAIL@,
    )
}

/// The shell tool, named and described for the dialect that will parse
/// its commands.
pub fn shell_tool_definition(tool_name: &str, guidance: &str, label: &str) -> (r: ToolDefinition)
    ensures
        definition_view(r) == shell_spec(tool_name@, guidance@, label@),
{
    let mut description = "Run a guarded shell command in the bound workspace. ".to_owned();
    description.append(guidance);
    description.append(
        " Output is capped and truncation keeps the tail, spilling the complete text to a workspace file. Set run_in_background for work that outlives one reply (builds, test suites, servers) and read it back with ShellOutput.",
    );
    let mut command = "A single ".to_owned();
    command.append(label);
    command.append(" command line");
    let mut schema = SHELL_SCHEMA_HEAD.to_owned();
    schema.append(quote_json(command.as_str()).as_str());
    schema.append(SHELL_SCHEMA_TAIL);
    ToolDefinition { name: tool_name.to_owned(), description: description, input_schema: schema }
}

/// The definition of a named tool as a sequence of at most one item.
pub open spec fn defined(name: Seq<char>) -> Seq<(Seq<char>, Seq<char>, Seq<char>)> {
    match tool_spec(name) {
        Some(d) => seq![d],
        None => Seq::empty(),
    }
}

/// The definitions that stand for one configured tool: its own, except that
/// the shell brings its three job tools and the shell itself under the
/// dialect's name.
pub open spec fn definitions_spec(name: Seq<char>, shell: (Seq<char>, Seq<char>, Seq<char>)) -> Seq<(Seq<char>, Seq<char>, Seq<char>)> {
    if name != "Bash"@ {
        defined(name)
    } else {
        defined("ShellOutput"@) + defined("ShellKill"@) + defined("ShellJobs"@) + seq![shell]
    }
}

/// Provider-facing definitions for one configured tool name; the shell is
/// described by its dialect's tool name, guidance and label.
pub fn tool_definitions_for(name: &str, shell_tool_name: &str, guidance: &str, label: &str) -> (r: Vec<ToolDefinition>)
    ensures
        r@.map_values(|d: ToolDefinition| definition_view(d)) == definitions_spec(
            name@,
            shell_spec(shell_tool_name@, guidance@, label@),
        ),
{
    let mut out: Vec<ToolDefinition> = Vec::new();
    if !same_text(name, "Bash") {
        push_defined(&mut out, name);
        assert(out@.map_values(|d: ToolDefinition| definition_view(d)) =~= defined(name@));
        return out;
    }
    push_defined(&mut out, "ShellOutput");
    push_defined(&mut out, "ShellKill");
    push_defined(&mut out, "ShellJobs");
    out.push(shell_tool_definition(shell_tool_name, guidance, label));
    assert(out@.map_values(|d: ToolDefinition| definition_view(d)) =~= defined("ShellOutput"@)
        + defined("ShellKill"@) + defined("ShellJobs"@) + seq![shell_spec(shell_tool_name@, guidance@, label@)]);
    out
}

/// Appends the definition of a named tool, where there is one.
fn push_defined(out: &mut Vec<ToolDefinition>, name: &str)
    ensures
        final(out)@.map_values(|d: ToolDefinition| definition_view(d)) == old(out)@.map_values(
            |d: ToolDefinition| definition_view(d),
        ) + defined(name@),
{
    match tool_definition(name) {
        Some(d) => {
            out.push(d);
        },
        None => {},
    }
    assert(out@.map_values(|d: ToolDefinition| definition_view(d)) =~= old(out)@.map_values(
        |d: ToolDefinition| definition_view(d),
    ) + defined(name@));
}

/// Display names as JSON strings, comma separated.
pub open spec fn quoted_list(items: Seq<Seq<char>>) -> Seq<char>
    decreases items.len(),
{
    if items.len() == 0 {
        Seq::empty()
    } else if items.len() == 1 {
        json_string_literal(items[0])
    } else {
        quoted_list(items.drop_last()) + ","@ + json_string_literal(items.last())
    }
}

/// How an assistant is listed in the tool's description: by its display
/// name, with its own name after it when they differ.
pub open spec fn roster_entry(a: AssistantMember) -> Seq<char> {
    if a.name@ == a.display_name@ {
        "@"@ + a.display_name@
    } else {
        "@"@ + a.display_name@ + " ("@ + a.name@ + ")"@
    }
}

/// The assistants as the description lists them, comma separated.
pub open spec fn roster_text(assistants: Seq<AssistantMember>) -> Seq<char>
    decreases assistants.len(),
{
    if assistants.len() == 0 {
        Seq::empty()
    } else if assistants.len() == 1 {
        roster_entry(assistants[0])
    } else {
        roster_text(assistants.drop_last()) + ", "@ + roster_entry(assistants.last())
    }
}

/// The display names of the assistants, in order.
pub open spec fn display_names(assistants: Seq<AssistantMember>) -> Seq<Seq<char>> {
    assistants.map_values(|a: AssistantMember| a.display_name@)
}

/// The agent-as-tool tool as a caller sees it: the assistants it can reach
/// listed in the description, and the assistant field constrained to their
/// display names, each once.
pub open spec fn agent_tool_spec(assistants: Seq<AssistantMember>) -> (Seq<char>, Seq<char>, Seq<char>) {
    (
        "AgentAsTool"@,
        "Delegate a task to one of the assistant agents bound to you. Available in this group right now: "@
            + roster_text(assistants)
            + ". The assistant does not see your reasoning, so state the task on its own terms."@,
        AGENT_SCHEMA_HEAD@ + "["@ + quoted_list(distinct_strings(display_names(assistants))) + "]"@ + AGENT_SCHEMA_TAIL@,
    )
}

fn has_name(list: &Vec<String>, name: &str) -> (r: bool)
    ensures
        r == list@.map_values(|s: String| s@).contains(name@),
{
    let ghost view = list@.map_values(|s: String| s@);
    let mut i: usize = 0;
    while i < list.len()
        invariant
            i <= list@.len(),
            view == list@.map_values(|s: String| s@),
            forall|k: int| 0 <= k < i ==> view[k] != name@,
        decreases list@.len() - i,
    {
        if same_text(list[i].as_str(), name) {
            assert(view[i as int] == name@);
            return true;
        }
        i = i + 1;
    }
    false
}

/// Describe the agent-as-tool tool in terms of the assistants this caller
/// can reach.
pub fn agent_as_tool_definition(assistants: &[AssistantMember]) -> (r: ToolDefinition)
    ensures
        definition_view(r) == agent_tool_spec(assistants@),
{
    let ghost names = display_names(assistants@);
    let mut choices: Vec<String> = Vec::new();
    let mut roster = String::new();
    let mut i: usize = 0;
    assert(choices@.map_values(|s: String| s@) =~= distinct_strings(names.take(0)));
    while i < assistants.len()
        invariant
            i <= assistants@.len(),
            names == display_names(assistants@),
            choices@.map_values(|s: String| s@) == distinct_strings(names.take(i as int)),
            roster@ == roster_text(assistants@.take(i as int)),
        decreases assistants@.len() - i,
    {
        assert(names.take(i as int + 1).drop_last() =~= names.take(i as int));
        assert(assistants@.take(i as int + 1).drop_last() =~= assistants@.take(i as int));
        let a = &assistants[i];
        let ghost prev = choices@;
        if !has_name(&choices, a.display_name.as_str()) {
            choices.push(a.display_name.as_str().to_owned());
            assert(choices@.map_values(|s: String| s@) =~= prev.map_values(|s: String| s@).push(names[i as int]));
        }
        if i > 0 {
            roster.append(", ");
        }
        roster.append("@");
        roster.append(a.display_name.as_str());
        if !same_text(a.name.as_str(), a.display_name.as_str()) {
            roster.append(" (");
            roster.append(a.name.as_str());
            roster.append(")");
        }
        i = i + 1;
        assert(roster@ =~= roster_text(assistants@.take(i as int)));
    }
    assert(names.take(i as int) =~= names);
    assert(assistants@.take(i as int) =~= assistants@);
    let mut description = "Delegate a task to one of the assistant agents bound to you. Available in this group right now: ".to_owned();
    description.append(roster.as_str());
    description.append(". The assistant does not see your reasoning, so state the task on its own terms.");
    let mut schema = AGENT_SCHEMA_HEAD.to_owned();
    schema.append("[");
    let ghost views = choices@.map_values(|s: String| s@);
    let ghost head = schema@;
    let mut j: usize = 0;
    while j < choices.len()
        invariant
            j <= choices@.len(),
            views == choices@.map_values(|s: String| s@),
            schema@ == head + quoted_list(views.take(j as int)),
        decreases choices@.len() - j,
    {
        assert(views.take(j as int + 1).drop_last() =~= views.take(j as int));
        if j > 0 {
            schema.append(",");
        }
        schema.append(quote_json(choices[j].as_str()).as_str());
        j = j + 1;
        assert(schema@ =~= head + quoted_list(views.take(j as int)));
    }
    assert(views.take(j as int) =~= views);
    schema.append("]");
    schema.append(AGENT_SCHEMA_TAIL);
    ToolDefinition { name: AGENT_AS_TOOL_NAME.to_owned(), description: description, input_schema: schema }
}

} // verus!
