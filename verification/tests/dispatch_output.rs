use backend::scheduler::output::validate_dispatch_output;
use backend::scheduler::state::DispatchStatus;

#[test]
fn only_a_finished_agent_message_naming_its_message_is_stored() {
    assert_eq!(validate_dispatch_output(DispatchStatus::Completed, true, Some("m1"), "m1"), Ok(()));
    assert_eq!(validate_dispatch_output(DispatchStatus::WaitingForUser, true, Some("m1"), "m1"), Ok(()));
    assert_eq!(
        validate_dispatch_output(DispatchStatus::Silent, true, Some("m1"), "m1"),
        Err("dispatch status silent cannot produce visible output".to_string())
    );
    assert_eq!(
        validate_dispatch_output(DispatchStatus::Completed, false, Some("m1"), "m1"),
        Err("visible dispatch output requires an agent_message event".to_string())
    );
    assert_eq!(
        validate_dispatch_output(DispatchStatus::Completed, true, Some("m2"), "m1"),
        Err("dispatch output event message_id does not match the message".to_string())
    );
    assert_eq!(
        validate_dispatch_output(DispatchStatus::Completed, true, None, "m1"),
        Err("dispatch output event message_id does not match the message".to_string())
    );
}
