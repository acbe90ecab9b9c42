use vstd::prelude::*;

use crate::scheduler::state::{dispatch_status_text, DispatchStatus};
use crate::text::same_text;

verus! {

/// Why a dispatch's visible output cannot be stored, if it cannot: only a
/// completed dispatch or one waiting for the user produces visible output,
/// the event must be an agent message, and the event must name the message
/// it carries.
pub open spec fn dispatch_output_refusal(
    next: DispatchStatus,
    event_is_agent_message: bool,
    event_message_id: Option<Seq<char>>,
    message_id: Seq<char>,
) -> Option<Seq<char>> {
    if !(next == DispatchStatus::Completed || next == DispatchStatus::WaitingForUser) {
        Some("dispatch status "@ + dispatch_status_text(next) + " cannot produce visible output"@)
    } else if !event_is_agent_message {
        Some("visible dispatch output requires an agent_message event"@)
    } else if event_message_id != Some(message_id) {
        Some("dispatch output event message_id does not match the message"@)
    } else {
        None
    }
}

/// Check a dispatch's visible output before it is stored: `next` is the
/// status the dispatch finishes with, `event_is_agent_message` whether its
/// event is an agent message, `event_message_id` the `message_id` string
/// of the event's payload, and `message_id` the id of the message stored
/// with it. The error is the reason the input is refused.
pub fn validate_dispatch_output(
    next: DispatchStatus,
    event_is_agent_message: bool,
    event_message_id: Option<&str>,
    message_id: &str,
) -> (r: Result<(), String>)
    ensures
        match dispatch_output_refusal(
            next,
            event_is_agent_message,
            match event_message_id {
                Some(m) => Some(m@),
                None => None,
            },
            message_id@,
        ) {
            Some(reason) => r matches Err(e) && e@ == reason,
            None => r is Ok,
        },
{
    let visible = match next {
        DispatchStatus::Completed | DispatchStatus::WaitingForUser => true,
        _ => false,
    };
    if !visible {
        let mut reason = "dispatch status ".to_owned();
        reason.append(next.as_str());
        reason.append(" cannot produce visible output");
        return Err(reason);
    }
    if !event_is_agent_message {
        return Err("visible dispatch output requires an agent_message event".to_owned());
    }
    let matches = match event_message_id {
        Some(m) => same_text(m, message_id),
        None => false,
    };
    if !matches {
        return Err("dispatch output event message_id does not match the message".to_owned());
    }
    Ok(())
}

} // verus!
