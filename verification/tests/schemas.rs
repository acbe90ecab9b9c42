use backend::agent_tool::AssistantMember;
use backend::group::schemas::{
    agent_as_tool_definition, object_schema, shell_tool_definition, tool_definition, tool_definitions_for,
};

fn schema(text: &str) -> serde_json::Value {
    serde_json::from_str(text).expect("a tool schema is JSON")
}

#[test]
fn tau_style_file_tool_schemas_are_exposed() {
    let read = tool_definition("Read").unwrap();
    let read_schema = schema(&read.input_schema);
    assert!(read_schema["properties"].get("path").is_some());
    assert!(read_schema["properties"].get("offset").is_some());
    assert!(read_schema["properties"].get("file_path").is_none());

    let edit = tool_definition("Edit").unwrap();
    let edit_schema = schema(&edit.input_schema);
    assert_eq!(edit_schema["properties"]["edits"]["items"]["type"], "object");
    assert_eq!(
        edit_schema["properties"]["edits"]["items"]["required"],
        serde_json::Value::Array(vec!["oldText".into(), "newText".into()])
    );
}

#[test]
fn enabling_bash_advertises_the_host_shell_and_its_job_tools() {
    let names: Vec<String> = tool_definitions_for("Bash", "Bash", "Commands are parsed by bash.", "bash")
        .into_iter()
        .map(|tool| tool.name)
        .collect();

    assert!(names.contains(&"Bash".to_string()), "{names:?}");
    for job_tool in ["ShellOutput", "ShellKill", "ShellJobs"] {
        assert!(names.contains(&job_tool.to_string()), "{names:?}");
    }
    assert_eq!(names.len(), 4);

    assert_eq!(tool_definitions_for("Read", "Bash", "", "bash").len(), 1);
    assert!(tool_definitions_for("NotATool", "Bash", "", "bash").is_empty());
}

#[test]
fn the_shell_tool_description_states_its_dialect() {
    let definition = shell_tool_definition("Pwsh", "Commands are parsed by PowerShell.", "PowerShell");
    assert_eq!(definition.name, "Pwsh");
    assert!(definition.description.contains("parsed by PowerShell"), "{}", definition.description);
    let input = schema(&definition.input_schema);
    assert!(input["properties"]["run_in_background"].is_object());
    assert_eq!(input["properties"]["command"]["description"], "A single PowerShell command line");
}

#[test]
fn every_static_tool_schema_is_an_object_schema() {
    for name in [
        "ReadGroupNotes", "Read", "Write", "Edit", "EditGroupNote", "DeleteFile", "Glob", "Grep", "ShellOutput",
        "ShellKill", "ShellJobs", "AskUser", "WebSearch", "Fetch", "RunSubAgent", "GenerateImage", "GenerateVideo",
        "SkillManager", "TodoWrite", "ExitPlanMode", "AppList", "AppGet", "AppState", "AppPropose", "AppPrefill",
        "AppDocs",
    ] {
        let definition = tool_definition(name).unwrap();
        assert_eq!(definition.name, name);
        assert!(!definition.description.is_empty(), "{name}");
        assert_eq!(schema(&definition.input_schema)["type"], "object", "{name}");
    }
    assert!(tool_definition("Bash").is_none());
    assert!(tool_definition("read").is_none());
}

#[test]
fn a_group_note_edit_is_an_edit_under_its_own_name() {
    let note = tool_definition("EditGroupNote").unwrap();
    let edit = tool_definition("Edit").unwrap();
    assert_eq!(note.name, "EditGroupNote");
    assert_eq!(note.input_schema, edit.input_schema);
    assert_ne!(note.description, edit.description);
}

#[test]
fn an_object_schema_lists_its_fields_and_required_names() {
    assert_eq!(
        object_schema(&[("question", "string"), ("choices", "array")], &["question"]),
        r#"{"type":"object","properties":{"question":{"type":"string"},"choices":{"type":"array","items":{"type":"string"}}},"required":["question"],"additionalProperties":false}"#
    );
    assert_eq!(
        object_schema(&[], &[]),
        r#"{"type":"object","properties":{},"required":[],"additionalProperties":false}"#
    );
}

fn member(name: &str, display_name: &str) -> AssistantMember {
    AssistantMember { agent_id: format!("id-{name}"), name: name.to_string(), display_name: display_name.to_string() }
}

#[test]
fn the_agent_tool_lists_each_assistant_and_offers_each_display_name_once() {
    let definition = agent_as_tool_definition(&[
        member("coder", "Coder"),
        member("helper", "helper"),
        member("coder2", "Coder"),
    ]);
    assert_eq!(definition.name, "AgentAsTool");
    assert!(
        definition.description.contains("right now: @Coder (coder), @helper, @Coder (coder2). The assistant"),
        "{}",
        definition.description
    );
    let input = schema(&definition.input_schema);
    assert_eq!(
        input["properties"]["assistant"]["enum"],
        serde_json::Value::Array(vec!["Coder".into(), "helper".into()])
    );
    assert_eq!(input["required"], serde_json::Value::Array(vec!["assistant".into(), "task".into()]));

    let quoted = agent_as_tool_definition(&[member("q", "Say \"hi\"")]);
    assert_eq!(
        schema(&quoted.input_schema)["properties"]["assistant"]["enum"],
        serde_json::Value::Array(vec!["Say \"hi\"".into()])
    );
}
