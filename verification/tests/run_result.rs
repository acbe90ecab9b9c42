use backend::group::run::{flatten_bounded_handoff, private_execution_result, AgentExecutionOutcome, AgentRunResult};
use backend::group::turn_data::TurnData;

fn visible(content: &str) -> AgentRunResult {
    AgentRunResult::Visible { agent_id: "helper".to_string(), content: content.to_string(), dispatch_id: None, dispatch_hop: 1 }
}

#[test]
fn a_chain_of_handoffs_ends_in_the_helper_that_answered() {
    let nested = AgentRunResult::BoundedHandoff {
        helper_result: Box::new(AgentRunResult::BoundedHandoff { helper_result: Box::new(visible("done")) }),
    };
    let (result, parent_done) = flatten_bounded_handoff(nested);
    assert!(parent_done);
    assert!(matches!(result, AgentRunResult::Visible { ref content, .. } if content == "done"));

    let (result, parent_done) = flatten_bounded_handoff(AgentRunResult::WaitingForUser);
    assert!(!parent_done);
    assert!(matches!(result, AgentRunResult::WaitingForUser));
}

fn private_outcome(content: &str, proactive: bool) -> (String, AgentExecutionOutcome) {
    match private_execution_result(content, proactive, TurnData::new()) {
        AgentRunResult::Private(execution) => (execution.final_content, execution.outcome),
        _ => panic!("a private execution always ends privately"),
    }
}

#[test]
fn a_private_execution_reports_what_the_reply_shows() {
    assert_eq!(private_outcome(" <SILENT> ", true), (String::new(), AgentExecutionOutcome::NoVisible));
    assert_eq!(private_outcome("  ", false), (String::new(), AgentExecutionOutcome::NoVisible));
    assert_eq!(private_outcome("<SILENT>", false), ("<SILENT>".to_string(), AgentExecutionOutcome::Visible));
    assert_eq!(
        private_outcome("<WAITING_FOR_USER>  which file? ", false),
        ("which file?".to_string(), AgentExecutionOutcome::WaitingForUser)
    );
    assert_eq!(
        private_outcome("<WAITING_FOR_USER>", true),
        ("Waiting for your input".to_string(), AgentExecutionOutcome::WaitingForUser)
    );
    assert_eq!(private_outcome(" done ", false), (" done ".to_string(), AgentExecutionOutcome::Visible));
}
