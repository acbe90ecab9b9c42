use backend::agent_tool::{AssistantMember, AssistantRoster};
use backend::group::tool_list::{invocation_tools, name_le, settings_needed, sort_definitions};
use backend::group::tools::McpToolBinding;
use backend::compaction::tokens::ToolDefinition;

fn strings(values: &[&str]) -> Vec<String> {
    values.iter().map(|value| (*value).to_owned()).collect()
}

fn definition(name: &str, description: &str) -> ToolDefinition {
    ToolDefinition { name: name.to_string(), description: description.to_string(), input_schema: "{}".to_string() }
}

fn binding(exposed: &str) -> McpToolBinding {
    McpToolBinding {
        exposed_name: exposed.to_string(),
        server_id: "srv".to_string(),
        server_name: "Srv".to_string(),
        tool_name: "t".to_string(),
        description: String::new(),
        input_schema: "{}".to_string(),
    }
}

#[test]
fn names_order_as_strings_do() {
    assert!(name_le("Bash", "Read"));
    assert!(name_le("Read", "Read"));
    assert!(name_le("Read", "ReadGroupNotes"));
    assert!(!name_le("ReadGroupNotes", "Read"));
    assert!(name_le("Zed", "abc"));
    assert!(name_le("", ""));
    assert!(!name_le("é", "z"));
}

#[test]
fn sorting_keeps_equal_names_in_their_order() {
    let sorted = sort_definitions(&vec![
        definition("b", "1"),
        definition("a", "2"),
        definition("b", "3"),
        definition("a", "4"),
    ]);
    let seen: Vec<(&str, &str)> = sorted.iter().map(|d| (d.name.as_str(), d.description.as_str())).collect();
    assert_eq!(seen, vec![("a", "2"), ("a", "4"), ("b", "1"), ("b", "3")]);
}

#[test]
fn the_tool_list_is_sorted_and_names_what_the_turn_can_use() {
    let roster = AssistantRoster {
        bound: 1,
        dispatchable: vec![AssistantMember {
            agent_id: "h".to_string(),
            name: "helper".to_string(),
            display_name: "Helper".to_string(),
        }],
    };
    let (tools, warnings) = invocation_tools(
        &strings(&["Write", "AgentAsTool", "Bash", "Read"]),
        "Bash",
        "Commands run in bash.",
        "bash",
        &roster,
        "Ada",
        &[binding("mcp__srv__z"), binding("mcp__srv__a")],
        true,
    );
    let names: Vec<&str> = tools.iter().map(|tool| tool.name.as_str()).collect();
    assert_eq!(
        names,
        vec![
            "AgentAsTool", "Bash", "EditGroupNote", "Read", "ReadGroupNotes", "ShellJobs", "ShellKill", "ShellOutput",
            "Write", "mcp__srv__a", "mcp__srv__z",
        ]
    );
    assert!(warnings.is_empty());

    let empty_roster = AssistantRoster { bound: 2, dispatchable: Vec::new() };
    let (tools, warnings) =
        invocation_tools(&strings(&["AgentAsTool"]), "Bash", "", "bash", &empty_roster, "Ada", &[], false);
    assert!(tools.is_empty());
    assert_eq!(
        warnings,
        vec!["@Ada has assistant agents bound for delegation, but none of them are active members of this group, so AgentAsTool is unavailable this turn.".to_string()]
    );
    let unbound = AssistantRoster { bound: 0, dispatchable: Vec::new() };
    let (_, warnings) = invocation_tools(&strings(&["AgentAsTool"]), "Bash", "", "bash", &unbound, "Ada", &[], false);
    assert!(warnings.is_empty());
}

#[test]
fn settings_are_loaded_only_for_the_tools_that_need_them() {
    assert_eq!(settings_needed(&strings(&["Read"])), (false, false));
    assert_eq!(settings_needed(&strings(&["WebSearch", "GenerateVideo"])), (true, true));
    assert_eq!(settings_needed(&strings(&["GenerateImage"])), (false, true));
}
