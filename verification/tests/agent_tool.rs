use backend::agent_tool::{
    refusal_after_name_lookup, require_bound, resolve_in_group, AgentAsToolTarget, DispatchResolution, assistant_roster, enabled_assistant_ids, AssistantConfig, AssistantSelection, build_dispatch_content, enabled_default, from_fields, agent_call_from_json, AgentAsToolCall, matches_requested, parse_target, AgentAsToolFailure,
    AgentAsToolMode, AssistantMember, TargetFields, MAX_FAN_OUT_TARGETS,
};

fn fields(assistant: Option<&str>, task: Option<&str>, instructions: Option<&str>) -> TargetFields {
    TargetFields {
        selector: assistant.map(str::to_string),
        task: task.map(str::to_string),
        instructions: instructions.map(str::to_string),
    }
}

fn empty() -> TargetFields {
    fields(None, None, None)
}

fn mode(name: &str) -> Option<Option<String>> {
    Some(Some(name.to_string()))
}

fn parse(args: &str) -> Result<AgentAsToolCall, AgentAsToolFailure> {
    agent_call_from_json("call_1".to_owned(), args)
}

#[test]
fn single_target_modes_read_the_top_level_fields() {
    let call = parse(r#"{"assistant": "@Helper", "task": " audit ", "mode": "call"}"#).unwrap();

    assert_eq!(call.mode, AgentAsToolMode::Call);
    assert_eq!(call.targets.len(), 1);
    assert_eq!(call.targets[0].requested_agent, "Helper");
    assert_eq!(call.targets[0].task, "audit");
    assert_eq!(call.targets[0].instructions, None);
    assert_eq!(call.tool_call_id, "call_1");
}

#[test]
fn fan_out_gives_every_assistant_its_own_task() {
    let call = parse(
        r#"{
            "mode": "fan_out",
            "dispatches": [
                {"assistant": "Alice", "task": "review module a"},
                {"assistant": "@Bob", "task": "review module b", "instructions": "cite lines"}
            ]
        }"#,
    )
    .unwrap();

    assert_eq!(call.mode, AgentAsToolMode::FanOut);
    assert_eq!(call.targets.len(), 2);
    assert_eq!(call.targets[0].task, "review module a");
    assert_eq!(call.targets[1].requested_agent, "Bob");
    assert_eq!(call.targets[1].instructions.as_deref(), Some("cite lines"));
}

#[test]
fn mode_is_reported_before_the_fields_it_selects() {
    let missing = parse(r#"{"assistant": "Helper", "task": "audit"}"#).unwrap_err();
    assert!(missing.message.contains("mode is required"));

    let unknown = parse(r#"{"assistant": "Helper", "task": "audit", "mode": "delegate"}"#).unwrap_err();
    assert!(unknown.message.contains("call, handoff, or fan_out"));

    let no_dispatches = parse(r#"{"mode": "fan_out"}"#).unwrap_err();
    assert!(no_dispatches.message.contains("fan_out requires dispatches"));
}

#[test]
fn fan_out_rejects_a_list_it_cannot_run_whole() {
    let single = parse(r#"{"mode": "fan_out", "dispatches": [{"assistant": "Alice", "task": "review"}]}"#).unwrap_err();
    assert!(single.message.contains("at least two dispatches"));

    let duplicated = parse(
        r#"{"mode": "fan_out", "dispatches": [
            {"assistant": "Alice", "task": "review a"},
            {"assistant": "alice", "task": "review b"}
        ]}"#,
    )
    .unwrap_err();
    assert!(duplicated.message.contains("appears twice"));

    let oversized: Vec<String> = (0..=MAX_FAN_OUT_TARGETS)
        .map(|index| format!(r#"{{"assistant": "Helper{index}", "task": "review"}}"#))
        .collect();
    let too_many = parse(&format!(r#"{{"mode": "fan_out", "dispatches": [{}]}}"#, oversized.join(","))).unwrap_err();
    assert!(too_many.message.contains("at most"));

    let incomplete = parse(
        r#"{"mode": "fan_out", "dispatches": [
            {"assistant": "Alice", "task": "review a"},
            {"assistant": "Bob"}
        ]}"#,
    )
    .unwrap_err();
    assert!(incomplete.message.contains("task is required"));
}

#[test]
fn the_fields_can_also_be_handed_over_read() {
    let call = from_fields("call_2".to_owned(), mode("handoff"), fields(Some("@Helper"), Some(" audit "), None), None)
        .unwrap();
    assert_eq!(call.mode, AgentAsToolMode::Handoff);
    assert_eq!(call.targets[0].requested_agent, "Helper");

    let oversized: Vec<TargetFields> = (0..=MAX_FAN_OUT_TARGETS)
        .map(|index| fields(Some(&format!("Helper{index}")), Some("review"), None))
        .collect();
    let too_many = from_fields("call_2".to_owned(), mode("fan_out"), empty(), Some(oversized)).unwrap_err();
    assert_eq!(too_many.message, "fan_out accepts at most 8 dispatches");
}

#[test]
fn the_selector_is_the_first_key_holding_a_string_and_a_non_string_mode_is_refused() {
    let call = parse(r#"{"mode": "call", "agent_id": 7, "assistant_id": "helper-1", "assistant": "Other", "task": "t"}"#)
        .unwrap();
    assert_eq!(call.targets[0].requested_agent, "helper-1");

    let numeric_mode = parse(r#"{"mode": 1, "assistant": "Helper", "task": "t"}"#).unwrap_err();
    assert_eq!(numeric_mode.message, "mode must be call, handoff, or fan_out");

    let not_json = parse("call Helper").unwrap_err();
    assert_eq!(not_json.message, "mode is required: use call, handoff, or fan_out");

    let not_a_list = parse(r#"{"mode": "fan_out", "dispatches": {"assistant": "A", "task": "t"}}"#).unwrap_err();
    assert!(not_a_list.message.contains("fan_out requires dispatches"));

    let entry_not_object = parse(r#"{"mode": "fan_out", "dispatches": ["Alice", {"assistant": "Bob", "task": "t"}]}"#)
        .unwrap_err();
    assert_eq!(entry_not_object.message, "assistant selector is required");
}

#[test]
fn every_refusal_is_a_failure_with_its_reason() {
    assert_eq!(
        parse_target(&fields(None, Some("t"), None)).unwrap_err(),
        AgentAsToolFailure::failed("assistant selector is required".to_string())
    );
    assert_eq!(parse_target(&fields(Some(" @ "), Some("t"), None)).unwrap_err().message, "assistant selector must not be empty");
    assert_eq!(parse_target(&fields(Some("A"), Some("  "), None)).unwrap_err().message, "task must not be empty");
    let blank_instructions = parse_target(&fields(Some("A"), Some("t"), Some("   "))).unwrap();
    assert_eq!(blank_instructions.instructions, None);
    assert_eq!(AgentAsToolFailure::unavailable("x".to_string()).status, "unavailable");
    assert_eq!(AgentAsToolFailure::already_scheduled("x".to_string()).status, "already_scheduled");
    assert!(enabled_default());
}

#[test]
fn a_dispatch_addresses_the_helper_and_carries_the_callers_instructions() {
    assert_eq!(
        build_dispatch_content("Helper", "Lead", "  audit the parser ", Some(" be brief ")).unwrap(),
        "@Helper audit the parser\n\nInstructions from @Lead: be brief"
    );
    assert_eq!(build_dispatch_content("Helper", "Lead", "audit", Some("  ")).unwrap(), "@Helper audit");
    assert_eq!(build_dispatch_content("Helper", "Lead", "  ", None).unwrap_err().message, "task must not be empty");
}

#[test]
fn a_helper_is_matched_by_id_or_name_without_case() {
    let helper = AssistantMember {
        agent_id: "Agent-7".to_string(),
        name: "Auditor".to_string(),
        display_name: "Code Auditor".to_string(),
    };
    assert!(matches_requested(&helper, "agent-7", "agent-7"));
    assert!(matches_requested(&helper, "AUDITOR", "auditor"));
    assert!(matches_requested(&helper, "Code Auditor", "code auditor"));
    assert!(!matches_requested(&helper, "someone", "someone"));
}

#[test]
fn only_enabled_bindings_count_and_an_unreadable_config_fails() {
    assert_eq!(enabled_assistant_ids(&AssistantConfig::Absent), Ok(Vec::new()));
    let failure = enabled_assistant_ids(&AssistantConfig::Invalid).unwrap_err();
    assert_eq!(failure.status, "failed");
    assert_eq!(failure.message, "invalid assistant tool configuration");
    let config = AssistantConfig::Parsed(vec![
        AssistantSelection { agent_id: "a".to_string(), enabled: true },
        AssistantSelection { agent_id: "b".to_string(), enabled: false },
        AssistantSelection { agent_id: "c".to_string(), enabled: true },
    ]);
    assert_eq!(enabled_assistant_ids(&config), Ok(vec!["a".to_string(), "c".to_string()]));
}

#[test]
fn a_caller_never_lists_itself_among_its_assistants() {
    let member = |id: &str| AssistantMember { agent_id: id.to_string(), name: id.to_string(), display_name: id.to_uppercase() };
    let roster = assistant_roster(3, &[member("a"), member("me"), member("b")], "me");
    assert_eq!(roster.bound, 3);
    assert_eq!(roster.dispatchable, vec![member("a"), member("b")]);
}

fn helper(id: &str, name: &str, display: &str) -> AssistantMember {
    AssistantMember { agent_id: id.to_string(), name: name.to_string(), display_name: display.to_string() }
}

fn target(requested: &str, task: &str) -> AgentAsToolTarget {
    AgentAsToolTarget { requested_agent: requested.to_string(), task: task.to_string(), instructions: None }
}

#[test]
fn a_dispatch_goes_to_the_first_member_answering_to_the_request() {
    let bound = vec!["id-coder".to_string(), "id-me".to_string(), "id-away".to_string()];
    let members = vec![helper("id-me", "me", "Me"), helper("id-coder", "coder", "Coder")];

    match resolve_in_group(&bound, &members, "id-me", "Me", &target("  CODER ", "fix it")) {
        DispatchResolution::Dispatch { helper: chosen, content } => {
            assert_eq!(chosen.agent_id, "id-coder");
            assert_eq!(content, "@Coder fix it");
        },
        other => panic!("unexpected {other:?}"),
    }
    match resolve_in_group(&bound, &members, "id-me", "Me", &target("ID-CODER", "  ")) {
        DispatchResolution::Refused(f) => assert_eq!((f.status, f.message.as_str()), ("failed", "task must not be empty")),
        other => panic!("unexpected {other:?}"),
    }
    match resolve_in_group(&bound, &members, "id-me", "Me", &target("me", "work")) {
        DispatchResolution::Refused(f) => {
            assert_eq!((f.status, f.message.as_str()), ("unavailable", "agent cannot delegate to itself"))
        },
        other => panic!("unexpected {other:?}"),
    }
    match resolve_in_group(&bound, &members, "id-me", "Me", &target("ID-AWAY", "work")) {
        DispatchResolution::Refused(f) => assert_eq!(
            f.message,
            "assistant agent must be added to this group before AgentAsTool can dispatch to it"
        ),
        other => panic!("unexpected {other:?}"),
    }
    assert!(matches!(
        resolve_in_group(&bound, &members, "id-me", "Me", &target("stranger", "work")),
        DispatchResolution::LookUpByName
    ));
    assert_eq!(refusal_after_name_lookup(false).message, "assistant is not enabled for this agent");
    assert_eq!(refusal_after_name_lookup(true).status, "unavailable");
    assert!(require_bound(&bound).is_ok());
    assert_eq!(require_bound(&[]).unwrap_err().message, "assistant is not enabled for this agent");
}
