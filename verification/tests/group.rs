use backend::compaction::message::ToolCall;
use backend::group::acp::{acp_context_window, context_window_override, AcpRuntimeProfile, DSH_CONTEXT_WINDOW_TOKENS};
use backend::group::routing::{
    candidate_from_row, ordered_moderator_candidate_ids, record_moderator_visible_message, resolve_topology,
    topology_frontier, Candidate, CandidateRow,
};
use backend::group::select::{mentions_within_text, scan_mentions, select_agents, select_responders};
use backend::group::text::{
    agent_as_tool_call, bounded_helper_result, default_task_title, interrupted_visible_content, is_read_only_tool,
    native_image_mime_type, summarize_text, token_count_i64, tool_call_batches, tool_status_wire,
    AgentExecutionOutcome, ToolStatus,
};
use backend::group::tools::{
    builtin_tool_name, mcp_tool_definition, render_mcp_section, user_facing_error, McpToolBinding, StepFailure,
};
use backend::scheduler::moderator::{ModeratorCandidate, ModeratorMessage};
use backend::scheduler::topology::TopologySnapshot;

fn call(name: &str) -> ToolCall {
    ToolCall { id: name.to_string(), name: name.to_string(), args: "{}".to_string() }
}

fn candidate(id: &str, name: &str) -> Candidate {
    Candidate {
        agent_id: id.to_string(),
        owner_id: "owner".to_string(),
        display_name: name.to_string(),
        system_prompt: String::new(),
        runtime_kind: "native".to_string(),
        provider_id: None,
        model_config_json: None,
        tool_config_json: None,
        external_runtime_json: None,
        skill_ids_json: None,
        workspace_id: None,
        is_system: false,
        response_mode: "auto".to_string(),
        topology_role: None,
        speaking_order: None,
    }
}

fn with_role(mut c: Candidate, role: &str) -> Candidate {
    c.topology_role = Some(role.to_string());
    c
}

fn ids(values: &[&str]) -> Vec<String> {
    values.iter().map(|value| (*value).to_owned()).collect()
}

#[test]
fn acp_context_windows_come_from_the_agent_first_and_the_profile_second() {
    assert_eq!(acp_context_window(AcpRuntimeProfile::Dsh, None), Some(DSH_CONTEXT_WINDOW_TOKENS));
    assert_eq!(acp_context_window(AcpRuntimeProfile::Custom, None), None);
    assert_eq!(acp_context_window(AcpRuntimeProfile::Codex, None), None);

    let override_json = r#"{"context_window_tokens": 32000}"#;
    assert_eq!(acp_context_window(AcpRuntimeProfile::Dsh, Some(override_json)), Some(32_000));
    assert_eq!(acp_context_window(AcpRuntimeProfile::Custom, Some(override_json)), Some(32_000));
}

#[test]
fn a_window_override_must_be_a_positive_integer() {
    assert_eq!(context_window_override(Some(r#"{"context_window_tokens": 0}"#)), None);
    assert_eq!(context_window_override(Some(r#"{"context_window_tokens": -5}"#)), None);
    assert_eq!(context_window_override(Some(r#"{"context_window_tokens": "big"}"#)), None);
    assert_eq!(context_window_override(Some("not json")), None);
    assert_eq!(context_window_override(Some(r#"{"context_window_tokens": 8192}"#)), Some(8192));
    assert_eq!(acp_context_window(AcpRuntimeProfile::Dsh, Some(r#"{"context_window_tokens": 0}"#)), Some(1_000_000));
}

#[test]
fn automatic_task_title_uses_a_bounded_first_line() {
    assert_eq!(default_task_title("  Ship release\nignore this"), "Ship release");
    assert_eq!(default_task_title("   "), "Task");
    assert_eq!(default_task_title(&"x".repeat(81)).chars().count(), 80);
}

#[test]
fn a_provider_http_failure_reaches_the_user_as_a_status_and_nothing_else() {
    let error = StepFailure::ProviderHttp {
        status: 401,
        body: r#"{"error":{"message":"Incorrect API key provided: sk-live-abc123"}}"#.to_string(),
    };

    let rendered = user_facing_error(&error);
    assert_eq!(rendered, "The provider returned HTTP 401.");
    assert!(!rendered.contains("sk-live-abc123"));
    assert_eq!(
        user_facing_error(&StepFailure::Other { message: "thread is already closed".to_string() }),
        "thread is already closed"
    );
}

#[test]
fn consecutive_read_only_calls_batch_and_a_write_breaks_the_batch() {
    let calls = vec![call("Read"), call("Grep"), call("Write"), call("Read"), call("Glob")];
    let batches: Vec<Vec<&str>> = tool_call_batches(&calls)
        .into_iter()
        .map(|batch| calls[batch].iter().map(|c| c.name.as_str()).collect())
        .collect();

    assert_eq!(
        batches,
        vec![vec!["Read", "Grep"], vec!["Write"], vec!["Read", "Glob"]],
        "a write must not be reordered around the reads on either side of it"
    );

    let mcp = vec![call("Read"), call("mcp__notion__search")];
    assert_eq!(tool_call_batches(&mcp).len(), 2);
    assert!(tool_call_batches(&[]).is_empty());
}

#[test]
fn mcp_tool_definitions_name_their_server() {
    let binding = McpToolBinding {
        exposed_name: "mcp__github__create_issue".to_string(),
        server_id: "srv-a".to_string(),
        server_name: "GitHub".to_string(),
        tool_name: "create_issue".to_string(),
        description: "Open an issue.".to_string(),
        input_schema: r#"{"type":"object","properties":{}}"#.to_string(),
    };

    let definition = mcp_tool_definition(&binding);

    assert_eq!(definition.name, "mcp__github__create_issue");
    assert_eq!(definition.description, "[MCP: GitHub] Open an issue.");
    assert_eq!(definition.input_schema, binding.input_schema);
}

#[test]
fn mcp_tool_definitions_describe_tools_the_server_did_not_document() {
    let binding = McpToolBinding {
        exposed_name: "mcp__github__ping".to_string(),
        server_id: "srv-a".to_string(),
        server_name: "GitHub".to_string(),
        tool_name: "ping".to_string(),
        description: String::new(),
        input_schema: r#"{"type":"object","properties":{}}"#.to_string(),
    };

    assert_eq!(mcp_tool_definition(&binding).description, "Tool 'ping' from MCP server 'GitHub'.");
}

#[test]
fn the_mcp_prompt_section_only_names_unreachable_servers() {
    let section = render_mcp_section(&[("Weather".to_string(), "connection refused".to_string())]);
    assert!(!section.contains("GitHub"), "{section}");
    assert!(section.contains("- Weather: connection refused"), "{section}");
}

#[test]
fn the_mcp_prompt_section_is_omitted_when_everything_is_available() {
    assert!(render_mcp_section(&[]).is_empty());
}

#[test]
fn builtin_ids_map_to_provider_names() {
    assert_eq!(builtin_tool_name("read"), Some("Read"));
    assert_eq!(builtin_tool_name("todo_write"), Some("TodoWrite"));
    assert_eq!(builtin_tool_name("nope"), None);
}

#[test]
fn only_side_effect_free_tools_are_read_only() {
    assert!(is_read_only_tool("Grep"));
    assert!(is_read_only_tool("ShellOutput"));
    assert!(!is_read_only_tool("Write"));
    assert!(!is_read_only_tool("mcp__notion__search"));
}

#[test]
fn tool_statuses_have_wire_names() {
    assert_eq!(tool_status_wire(ToolStatus::Completed), "completed");
    assert_eq!(tool_status_wire(ToolStatus::WaitingForUser), "input_required");
    assert_eq!(tool_status_wire(ToolStatus::InputRequested), "input_required");
    assert_eq!(tool_status_wire(ToolStatus::ApprovalRequired), "approval_required");
    assert_eq!(AgentExecutionOutcome::NoVisible.as_str(), "no_visible");
    assert_eq!(AgentExecutionOutcome::WaitingForUser.as_str(), "waiting_for_user");
}

#[test]
fn long_texts_are_cut_with_a_marker() {
    assert_eq!(summarize_text("short"), "short");
    let summary = summarize_text(&"y".repeat(600));
    assert_eq!(summary.chars().count(), 503);
    assert!(summary.ends_with("..."));
    let helper = bounded_helper_result(&"z".repeat(8_001));
    assert!(helper.ends_with("\n\n[helper result truncated]"));
    assert_eq!(bounded_helper_result("fine"), "fine");
    assert_eq!(token_count_i64(u64::MAX), i64::MAX);
    assert_eq!(token_count_i64(42), 42);
}

#[test]
fn an_interrupted_reply_keeps_only_visible_text() {
    assert_eq!(interrupted_visible_content("   "), None);
    assert_eq!(interrupted_visible_content("<SILENT>"), None);
    assert_eq!(interrupted_visible_content("<WAITING_FOR_USER>  "), None);
    assert_eq!(interrupted_visible_content("<WAITING_FOR_USER> later"), Some("later".to_string()));
    assert_eq!(interrupted_visible_content("partial answer"), Some("partial answer".to_string()));
}

#[test]
fn only_native_image_types_are_inlined() {
    assert!(native_image_mime_type("image/png"));
    assert!(native_image_mime_type("image/webp"));
    assert!(!native_image_mime_type("image/svg+xml"));
}

#[test]
fn the_first_agent_as_tool_call_is_found() {
    let calls = vec![call("Read"), call("AgentAsTool"), call("AgentAsTool")];
    let found = agent_as_tool_call(&calls).unwrap();
    assert_eq!(found.name, "AgentAsTool");
    assert!(agent_as_tool_call(&[call("Read")]).is_none());
}

#[test]
fn a_mention_selects_exactly_the_named_agents_in_mention_order() {
    let candidates = vec![candidate("a", "Alice"), candidate("b", "Bob"), candidate("c", "Carol")];
    let picked = select_agents(candidates.clone(), "@Carol and @alice please", false, false);
    let names: Vec<&str> = picked.iter().map(|c| c.agent_id.as_str()).collect();
    assert_eq!(names, vec!["c", "a"]);
    assert_eq!(scan_mentions("@Bob @Bob", &candidates), vec![1]);
    assert!(mentions_within_text("hi @Bob", &candidates));
    assert!(mentions_within_text("hi Bob", &candidates));
}

#[test]
fn without_a_mention_free_speech_fans_out_to_everyone_who_joins_freely() {
    let mut muted = candidate("b", "Bob");
    muted.response_mode = "muted".to_string();
    let candidates = vec![candidate("a", "Alice"), muted];
    let picked = select_agents(candidates.clone(), "hello all", true, false);
    assert_eq!(picked.len(), 1);
    assert_eq!(picked[0].agent_id, "a");
    assert!(select_agents(candidates.clone(), "hello all", false, false).is_empty());
    assert_eq!(select_responders(candidates, "@Bob", false, false).map(|v| v.len()), Some(1));
}

#[test]
fn a_star_without_a_hub_degrades_with_a_stand_in() {
    let candidates = vec![candidate("a", "Alice"), candidate("b", "Bob")];
    let resolved = resolve_topology("star", &candidates);
    assert_eq!(resolved.snapshot, TopologySnapshot::Star { hub: "a".to_string(), spokes: ids(&["b"]) });
    assert_eq!(resolved.degraded_reason.as_deref(), Some("star mode has no hub available; a is standing in"));

    let with_hub = vec![candidate("a", "Alice"), with_role(candidate("b", "Bob"), "hub")];
    let resolved = resolve_topology("star", &with_hub);
    assert_eq!(resolved.snapshot, TopologySnapshot::Star { hub: "b".to_string(), spokes: ids(&["a"]) });
    assert_eq!(resolved.degraded_reason, None);
}

#[test]
fn an_unusable_mode_falls_back_to_a_mesh_of_everyone() {
    let candidates = vec![candidate("a", "Alice")];
    let ring = resolve_topology("ring", &candidates);
    assert_eq!(ring.snapshot, TopologySnapshot::Mesh { agents: ids(&["a"]) });
    assert_eq!(ring.degraded_reason.as_deref(), Some("ring mode needs at least two available agents"));

    let unknown = resolve_topology("tree", &candidates);
    assert_eq!(unknown.degraded_reason.as_deref(), Some("unsupported group topology tree"));

    let hierarchy = resolve_topology("hierarchical", &[with_role(candidate("a", "A"), "leader"), candidate("b", "B")]);
    assert_eq!(hierarchy.snapshot, TopologySnapshot::Hierarchical { leaders: ids(&["a"]), workers: ids(&["b"]) });

    let duplicated = resolve_topology("ring", &[candidate("a", "A"), candidate("a", "A2")]);
    assert_eq!(
        duplicated.degraded_reason.as_deref(),
        Some("ring topology is not usable: topology contains duplicate agents")
    );
}

#[test]
fn the_frontier_follows_the_topology() {
    let ring = TopologySnapshot::Ring { ordered: ids(&["a", "b", "c"]) };
    assert_eq!(topology_frontier(&ring, &ids(&["b", "c"]), None), ids(&["b"]));
    assert_eq!(topology_frontier(&ring, &ids(&["a", "b", "c"]), Some("c")), ids(&["a"]));
    let star = TopologySnapshot::Star { hub: "h".to_string(), spokes: ids(&["x", "y"]) };
    assert_eq!(topology_frontier(&star, &ids(&["h", "x", "y"]), None), ids(&["h"]));
    assert_eq!(topology_frontier(&star, &ids(&["x", "y"]), None), ids(&["x", "y"]));
    assert_eq!(topology_frontier(&star, &ids(&["h", "x", "y"]), Some("x")), ids(&["h"]));
    let mesh = TopologySnapshot::Mesh { agents: ids(&["a", "b"]) };
    assert_eq!(topology_frontier(&mesh, &ids(&["a", "b"]), Some("a")), ids(&["a", "b"]));
}

#[test]
fn the_preferred_moderator_candidate_is_tried_first() {
    let candidates = vec![
        ModeratorCandidate { agent_id: "a".into(), display_name: "A".into(), reason: "r".into() },
        ModeratorCandidate { agent_id: "b".into(), display_name: "B".into(), reason: "r".into() },
        ModeratorCandidate { agent_id: "c".into(), display_name: "C".into(), reason: "r".into() },
    ];
    assert_eq!(ordered_moderator_candidate_ids(&candidates, Some("c")), ids(&["c", "a", "b"]));
    assert_eq!(ordered_moderator_candidate_ids(&candidates, Some("zz")), ids(&["a", "b", "c"]));
    assert_eq!(ordered_moderator_candidate_ids(&candidates, None), ids(&["a", "b", "c"]));
}

#[test]
fn the_moderator_sees_only_the_last_four_visible_messages() {
    let mut recent: Vec<ModeratorMessage> = Vec::new();
    for index in 0..6 {
        record_moderator_visible_message(&mut recent, "assistant", &format!("m{index}"));
    }
    let contents: Vec<&str> = recent.iter().map(|m| m.content.as_str()).collect();
    assert_eq!(contents, vec!["m2", "m3", "m4", "m5"]);
}

#[test]
fn a_row_without_a_group_name_uses_the_agent_name() {
    let row = CandidateRow {
        id: "a".into(),
        owner_id: "o".into(),
        display_name: None,
        name: "Agent A".into(),
        system_prompt: String::new(),
        runtime_kind: "native".into(),
        provider_id: None,
        model_config_json: None,
        tool_config_json: None,
        external_runtime_json: None,
        skill_ids_json: None,
        workspace_id: None,
        is_system: 1,
        response_mode: "auto".into(),
        topology_role: None,
        speaking_order: Some(2),
    };
    let c = candidate_from_row(row);
    assert_eq!(c.display_name, "Agent A");
    assert!(c.is_system);
    assert_eq!(c.speaking_order, Some(2));
}

#[test]
fn after_a_speaker_only_those_it_may_address_are_offered() {
    let star = TopologySnapshot::Star { hub: "h".to_string(), spokes: ids(&["a", "b"]) };
    assert_eq!(topology_frontier(&star, &ids(&["a", "b", "h"]), Some("a")), ids(&["h"]));
    assert_eq!(topology_frontier(&star, &ids(&["a", "b", "h"]), Some("h")), ids(&["a", "b"]));
    let tiers = TopologySnapshot::Hierarchical { leaders: ids(&["l"]), workers: ids(&["w1", "w2"]) };
    assert_eq!(topology_frontier(&tiers, &ids(&["w1", "w2", "l"]), Some("w1")), ids(&["l"]));
    assert_eq!(topology_frontier(&tiers, &ids(&["w1", "w2", "l"]), Some("l")), ids(&["w1", "w2"]));
}
