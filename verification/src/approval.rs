use vstd::prelude::*;

use crate::text::{concat, trim, trim_spec};

verus! {

/// A tool call paused for a human decision.
#[derive(Debug, Clone, PartialEq, Eq)]
pub struct ApprovalRequest {
    pub rule: String,
    pub capability: String,
    pub reason: String,
    pub tool_name: String,
    pub subject: String,
}

/// The part of a decline that carries the user's note, if it has any text.
pub open spec fn note_part(note: Option<&str>) -> Seq<char> {
    match note {
        Some(n) => if trim_spec(n@).len() > 0 {
            "\nThe user said: "@ + trim_spec(n@)
        } else {
            Seq::empty()
        },
        None => Seq::empty(),
    }
}

/// The tool result reporting a declined call to the model.
pub open spec fn declined_text(subject: Seq<char>, note: Option<&str>) -> Seq<char> {
    "The user declined to approve this command; it was not run."@ + note_part(note)
        + "\nDeclined command: "@ + subject
        + "\nDo not run it again, and do not try to work around the restriction. Continue with another approach, or explain what you need and why."@
}

/// The tool result a declined call reports back to the model: a decision
/// already made, the user's trimmed note when there is one, and the command.
pub fn declined_result(request: &ApprovalRequest, note: Option<&str>) -> (r: String)
    ensures
        r@ == declined_text(request.subject@, note),
{
    let mut text = String::from_str("The user declined to approve this command; it was not run.");
    match note {
        Some(n) => {
            let trimmed = trim(n);
            if trimmed.as_str().is_empty() {
            } else {
                text.append("\nThe user said: ");
                text.append(trimmed.as_str());
            }
        },
        None => {},
    }
    text.append("\nDeclined command: ");
    text.append(request.subject.as_str());
    text.append(
        "\nDo not run it again, and do not try to work around the restriction. Continue with another approach, or explain what you need and why.",
    );
    text
}

} // verus!
