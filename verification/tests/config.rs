use backend::context::AttachmentAccess;
use backend::group::config::{
    bypass_approvals, enabled_mcp_selections, enabled_tool_names, narrow_bindings, parse_string_set, McpSelection,
    McpServerEntry, ToolConfig,
};
use backend::group::text::finished_reply;
use backend::group::tools::McpToolBinding;
use backend::group::workspace::{
    acp_context_hash, attachment_access, hex16, render_workspace_section, workspace_plan, ResolvedWorkspaces,
    WorkspaceMode, WorkspaceMount,
};

fn strings(values: &[&str]) -> Vec<String> {
    values.iter().map(|value| (*value).to_owned()).collect()
}

#[test]
fn unattended_mode_is_off_for_every_agent_that_does_not_ask_for_it() {
    assert!(!bypass_approvals(None));
    assert!(!bypass_approvals(Some("{}")));
    assert!(!bypass_approvals(Some("not json")));
    assert!(!bypass_approvals(Some(r#"{"bypass_approvals":"yes"}"#)));
    assert!(!bypass_approvals(Some(r#"{"bypass_approvals":false}"#)));
    assert!(bypass_approvals(Some(r#"{"bypass_approvals":true}"#)));
}

#[test]
fn a_stored_string_list_reads_as_a_set() {
    assert_eq!(parse_string_set(Some(r#"["a","b","a"]"#)), strings(&["a", "b"]));
    assert!(parse_string_set(Some(r#"["a",1]"#)).is_empty());
    assert!(parse_string_set(Some("oops")).is_empty());
    assert!(parse_string_set(None).is_empty());
}

#[test]
fn enabled_tools_are_sorted_deduplicated_and_only_builtin() {
    let config = ToolConfig {
        tools: vec![
            ("write".to_string(), Some(true)),
            ("read".to_string(), Some(true)),
            ("bash".to_string(), Some(false)),
            ("run_sub_agent".to_string(), Some(true)),
            ("grep".to_string(), None),
        ],
        enabled: vec![Some("read".to_string()), None, Some("todo_write".to_string()), Some("nope".to_string())],
        assistant_agents: Some(vec![Some(false), None]),
    };
    assert_eq!(enabled_tool_names(Some(&config)), strings(&["AgentAsTool", "Read", "TodoWrite", "Write"]));

    let switched_off = ToolConfig {
        tools: Vec::new(),
        enabled: Vec::new(),
        assistant_agents: Some(vec![Some(false)]),
    };
    assert!(enabled_tool_names(Some(&switched_off)).is_empty());
    assert_eq!(enabled_tool_names(None), strings(&["Read", "Glob", "Grep"]));
}

/// The builtin tool section of a stored config, read as the host reads it.
fn tool_config(raw: Option<&str>) -> Option<ToolConfig> {
    let value: serde_json::Value = serde_json::from_str(raw?).ok()?;
    let tools = value
        .get("tools")
        .and_then(serde_json::Value::as_object)
        .map(|tools| {
            tools
                .iter()
                .map(|(id, selection)| (id.clone(), selection.get("enabled").and_then(serde_json::Value::as_bool)))
                .collect()
        })
        .unwrap_or_default();
    let enabled = value
        .get("enabled")
        .and_then(serde_json::Value::as_array)
        .map(|ids| ids.iter().map(|id| id.as_str().map(str::to_owned)).collect())
        .unwrap_or_default();
    let assistant_agents = value.get("assistant_agents").and_then(serde_json::Value::as_array).map(|agents| {
        agents
            .iter()
            .map(|entry| entry.get("enabled").and_then(serde_json::Value::as_bool))
            .collect()
    });
    Some(ToolConfig { tools, enabled, assistant_agents })
}

/// The `mcp_servers` section of a stored config, read as the host reads it.
fn mcp_entries(raw: Option<&str>) -> Option<Vec<McpServerEntry>> {
    let value: serde_json::Value = serde_json::from_str(raw?).ok()?;
    let entries = value.get("mcp_servers")?.as_array()?;
    Some(
        entries
            .iter()
            .map(|entry| match entry {
                serde_json::Value::String(id) => McpServerEntry::Id(id.clone()),
                serde_json::Value::Object(_) => McpServerEntry::Object {
                    enabled: entry.get("enabled").and_then(serde_json::Value::as_bool),
                    server_id: entry.get("server_id").and_then(serde_json::Value::as_str).map(str::to_owned),
                    tools: entry
                        .get("tools")
                        .and_then(serde_json::Value::as_array)
                        .map(|names| names.iter().map(|name| name.as_str().map(str::to_owned)).collect()),
                },
                _ => McpServerEntry::Other,
            })
            .collect(),
    )
}

fn selections(raw: Option<&str>) -> Vec<McpSelection> {
    enabled_mcp_selections(mcp_entries(raw).as_ref())
}

fn tool_names(raw: Option<&str>) -> Vec<String> {
    enabled_tool_names(tool_config(raw).as_ref())
}

#[test]
fn mcp_selections_read_enabled_servers_and_their_tool_narrowing() {
    let raw = r#"{
        "tools": {"read": {"enabled": true}},
        "mcp_servers": [
            {"server_id":"srv-a","enabled":true,"tools":["search"]},
            {"server_id":"srv-b","enabled":true},
            {"server_id":"srv-c","enabled":false}
        ]
    }"#;

    let selections = selections(Some(raw));

    assert_eq!(selections.len(), 2);
    assert_eq!(selections[0].server_id, "srv-a");
    assert_eq!(selections[0].tools, vec!["search"]);
    assert_eq!(selections[1].server_id, "srv-b");
    assert!(selections[1].tools.is_empty());
}

#[test]
fn mcp_selections_accept_bare_server_ids() {
    let selections = selections(Some(r#"{"mcp_servers":["srv-a","srv-a"]}"#));

    assert_eq!(selections.len(), 1);
    assert_eq!(selections[0].server_id, "srv-a");
    assert!(selections[0].tools.is_empty());
}

#[test]
fn mcp_selections_are_empty_without_the_section() {
    assert!(selections(None).is_empty());
    assert!(selections(Some("not json")).is_empty());
    assert!(selections(Some(r#"{"tools":{}}"#)).is_empty());
    assert!(selections(Some(r#"{"mcp_servers":[{"enabled":true},{"server_id":"  "}]}"#)).is_empty());
}

#[test]
fn mcp_selections_do_not_disable_the_builtin_tool_list() {
    let raw = r#"{"tools":{"read":{"enabled":true}},"mcp_servers":[{"server_id":"srv-a"}]}"#;
    assert_eq!(tool_names(Some(raw)), vec!["Read".to_string()]);
}

#[test]
fn only_planned_builtin_tools_are_hidden_from_the_runtime() {
    let raw = r#"{"tools":{"read":{"enabled":true},"run_sub_agent":{"enabled":true},"generate_image":{"enabled":true},"generate_video":{"enabled":true}}}"#;

    assert_eq!(
        tool_names(Some(raw)),
        vec!["GenerateImage".to_string(), "GenerateVideo".to_string(), "Read".to_string()]
    );
}

#[test]
fn mcp_selections_trim_ids_skip_disabled_and_keep_the_first_of_a_server() {
    let entries = vec![
        McpServerEntry::Object {
            enabled: Some(true),
            server_id: Some(" srv-a ".to_string()),
            tools: Some(vec![Some("create_issue".to_string()), None]),
        },
        McpServerEntry::Object { enabled: Some(false), server_id: Some("srv-b".to_string()), tools: None },
        McpServerEntry::Id("srv-c".to_string()),
        McpServerEntry::Object { enabled: None, server_id: Some("   ".to_string()), tools: None },
        McpServerEntry::Id("srv-a".to_string()),
        McpServerEntry::Other,
    ];
    assert_eq!(
        enabled_mcp_selections(Some(&entries)),
        vec![
            McpSelection { server_id: "srv-a".to_string(), tools: strings(&["create_issue"]) },
            McpSelection { server_id: "srv-c".to_string(), tools: Vec::new() },
        ]
    );
    assert!(enabled_mcp_selections(None).is_empty());
    assert_eq!(tool_names(Some("not json")), strings(&["Read", "Glob", "Grep"]));
}

fn binding(tool: &str) -> McpToolBinding {
    McpToolBinding {
        exposed_name: format!("mcp__srv__{tool}"),
        server_id: "srv".to_string(),
        server_name: "Srv".to_string(),
        tool_name: tool.to_string(),
        description: String::new(),
        input_schema: "{}".to_string(),
    }
}

#[test]
fn a_tool_selection_narrows_a_server_to_the_named_tools() {
    let all = vec![binding("a"), binding("b"), binding("c")];
    let kept = narrow_bindings(all.clone(), &strings(&["c", "a"]));
    let names: Vec<&str> = kept.iter().map(|b| b.tool_name.as_str()).collect();
    assert_eq!(names, vec!["a", "c"]);
    assert_eq!(narrow_bindings(all.clone(), &Vec::new()), all);
}

#[test]
fn attachments_are_readable_only_from_the_conversation_workspace() {
    assert_eq!(attachment_access(Some("/w/conv"), Some("/w/conv/")), AttachmentAccess::Readable);
    assert_eq!(attachment_access(Some("/w/self"), Some("/w/conv")), AttachmentAccess::Unreachable);
    assert_eq!(attachment_access(None, Some("/w/conv")), AttachmentAccess::Unreachable);
    assert_eq!(attachment_access(Some("/w/conv"), None), AttachmentAccess::Unreachable);
}

#[test]
fn a_brief_fingerprint_is_sixteen_hex_digits_and_ignores_host_reminders() {
    assert_eq!(hex16(0), "0000000000000000");
    assert_eq!(hex16(0xdead_beef), "00000000deadbeef");
    assert_eq!(hex16(u64::MAX), "ffffffffffffffff");
    let plain = acp_context_hash("Be helpful.");
    assert_eq!(plain.len(), 16);
    assert!(plain.chars().all(|c| c.is_ascii_hexdigit() && !c.is_ascii_uppercase()));
    assert_eq!(plain, acp_context_hash("Be helpful.\n<system-reminder>\nnote\n</system-reminder>"));
    assert_ne!(plain, acp_context_hash("Be terse."));
}

#[test]
fn the_workspace_section_names_the_primary_root_and_every_mount() {
    let mounts = vec![
        WorkspaceMount { name: "self".to_string(), root: "/w/agent".to_string() },
        WorkspaceMount { name: "docs".to_string(), root: "/w/docs".to_string() },
    ];
    let section = render_workspace_section(
        WorkspaceMode::GroupAndSelf,
        "group_and_self",
        true,
        false,
        Some("/w/group"),
        &mounts,
        "self",
    );
    assert_eq!(
        section,
        "Workspace:\n- mode: group_and_self\n- source: group\n- primary (plain relative paths resolve here): /w/group\n- mount self/ (your own workspace): /w/agent\n- mount docs/: /w/docs\nAddress a mounted file by keeping its prefix, e.g. `Read` with path `self/notes.md`. Glob and Grep return mounted matches with the same prefix. Bash runs in the primary root only and cannot reach mounts."
    );
    let direct = render_workspace_section(WorkspaceMode::Group, "group", true, true, Some("/w/c"), &[], "self");
    assert_eq!(
        direct,
        "Workspace:\n- mode: conversation\n- source: conversation\n- primary (plain relative paths resolve here): /w/c\n- mounts: none"
    );
    let none = render_workspace_section(WorkspaceMode::SelfOnly, "self", false, false, None, &[], "self");
    assert!(none.ends_with("file and shell tools are unavailable this turn."));
    let resolved = ResolvedWorkspaces { primary: None, mounts: mounts.clone(), notes_root: None };
    assert_eq!(resolved.mounts(), mounts);
}

#[test]
fn a_finished_reply_is_shown_unless_it_is_silent_or_empty() {
    assert_eq!(finished_reply(" <SILENT> ", true), None);
    assert_eq!(finished_reply("<SILENT>", false), Some(("<SILENT>".to_string(), false)));
    assert_eq!(finished_reply("  \n ", false), None);
    assert_eq!(finished_reply("<WAITING_FOR_USER>", false), Some(("Waiting for your input".to_string(), true)));
    assert_eq!(finished_reply("<WAITING_FOR_USER> which file?", true), Some(("which file?".to_string(), true)));
    assert_eq!(finished_reply(" done \n", false), Some((" done \n".to_string(), false)));
}

fn mount(name: &str, root: &str) -> WorkspaceMount {
    WorkspaceMount { name: name.to_string(), root: root.to_string() }
}

#[test]
fn each_workspace_mode_resolves_its_primary_root_and_mounts() {
    let own = vec![("w1".to_string(), "/ws/one".to_string()), ("w2".to_string(), "/ws/two".to_string())];

    assert_eq!(
        workspace_plan(WorkspaceMode::Group, Some("/conv"), Some("/tree"), &own, Some("w1"), "self"),
        (Some("/tree".to_string()), Vec::new())
    );
    assert_eq!(
        workspace_plan(WorkspaceMode::Group, Some("/conv"), None, &own, None, "self"),
        (Some("/conv".to_string()), Vec::new())
    );
    assert_eq!(
        workspace_plan(WorkspaceMode::SelfOnly, Some("/conv"), None, &own, Some("w1"), "self"),
        (Some("/ws/one".to_string()), vec![mount("~ws-w2", "/ws/two")])
    );
    assert_eq!(workspace_plan(WorkspaceMode::SelfOnly, Some("/conv"), None, &[], None, "self"), (None, Vec::new()));
    assert_eq!(
        workspace_plan(WorkspaceMode::GroupAndSelf, Some("/conv"), None, &own, Some("w1"), "self"),
        (Some("/conv".to_string()), vec![mount("self", "/ws/one"), mount("~ws-w2", "/ws/two")])
    );
    assert_eq!(
        workspace_plan(WorkspaceMode::GroupAndSelf, Some("/conv"), None, &own, Some("w2"), "self"),
        (Some("/conv".to_string()), vec![mount("~ws-w1", "/ws/one"), mount("~ws-w2", "/ws/two")])
    );
    assert_eq!(workspace_plan(WorkspaceMode::GroupAndSelf, None, None, &own, Some("w1"), "self"), (None, Vec::new()));
    assert!(WorkspaceMode::GroupAndSelf.uses_group_workspace());
    assert!(!WorkspaceMode::SelfOnly.uses_group_workspace());
}
