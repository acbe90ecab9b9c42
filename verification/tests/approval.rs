use backend::approval::{declined_result, ApprovalRequest};

fn request() -> ApprovalRequest {
    ApprovalRequest {
        rule: "delete-files".to_string(),
        capability: "delete files in this workspace".to_string(),
        reason: "it deletes files".to_string(),
        tool_name: "Pwsh".to_string(),
        subject: "rm -rf build".to_string(),
    }
}

#[test]
fn a_decline_tells_the_model_it_was_a_decision_not_a_failure() {
    let text = declined_result(&request(), None);
    assert!(text.contains("declined"));
    assert!(text.contains("rm -rf build"));
    assert!(
        text.contains("Do not run it again"),
        "a retry loop is the failure mode this text exists to prevent: {text}"
    );
}

#[test]
fn a_user_note_leads_the_decline() {
    let text = declined_result(&request(), Some("  keep the build, I need the artifacts  "));
    assert!(text.contains("The user said: keep the build, I need the artifacts"));
    assert!(!text.contains("  keep"), "the note should be trimmed: {text}");
}

#[test]
fn an_empty_note_is_omitted_rather_than_rendered_blank() {
    let text = declined_result(&request(), Some("   "));
    assert!(!text.contains("The user said"), "{text}");
}

#[test]
fn a_note_sits_between_the_refusal_and_the_command() {
    let with_note = declined_result(&request(), Some("no"));
    let without = declined_result(&request(), None);
    assert!(with_note.contains("it was not run.\nThe user said: no\nDeclined command: rm -rf build"));
    assert!(without.contains("it was not run.\nDeclined command: rm -rf build"));
}
