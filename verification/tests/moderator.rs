use backend::scheduler::moderator_input::{attempt_from_reply, check_configuration, moderator_chat_request};
use backend::scheduler::moderator::{ModeratorConfig, 
    bounded_request, decide, failed, truncate, validate_candidate, validate_summary, ModeratorCandidate,
    ModeratorDecision, ModeratorFailure, ModeratorMessage, ModeratorRequest, ModeratorResponse, ModeratorTurnState,
    MAX_MESSAGE_CHARS, MAX_OBJECTIVE_CHARS, MAX_RECENT_MESSAGES,
};

fn candidates() -> Vec<ModeratorCandidate> {
    vec![ModeratorCandidate {
        agent_id: "a".to_owned(),
        display_name: "Alpha".to_owned(),
        reason: "eligible".to_owned(),
    }]
}

#[test]
fn moderator_request_bounds_unicode_text_and_recent_messages() {
    let request = ModeratorRequest {
        objective: "a".repeat(MAX_OBJECTIVE_CHARS - 1) + "\u{1f680}\u{1f680}",
        recent_messages: (0..=MAX_RECENT_MESSAGES)
            .map(|index| ModeratorMessage {
                role: format!("role-{index}"),
                content: "\u{1f680}".repeat(MAX_MESSAGE_CHARS + index),
                agent_id: Some("agent".repeat(MAX_MESSAGE_CHARS)),
                display_name: Some("name".repeat(MAX_MESSAGE_CHARS)),
                outcome: Some("visible".to_owned()),
            })
            .collect(),
        candidates: Vec::new(),
        remaining_steps: 3,
        automatic: true,
        progress_summary: Some("progress".repeat(2_000)),
        turn_state: Some(ModeratorTurnState { agent_steps: 2, moderator_calls: 1, consecutive_same_speaker: 1 }),
    };

    let bounded = bounded_request(request);
    assert_eq!(bounded.objective.chars().count(), MAX_OBJECTIVE_CHARS);
    assert_eq!(bounded.recent_messages.len(), MAX_RECENT_MESSAGES);
    assert_eq!(bounded.recent_messages[0].role, "role-1");
    assert_eq!(bounded.recent_messages[0].content.chars().count(), MAX_MESSAGE_CHARS);
    assert_eq!(bounded.progress_summary.unwrap().chars().count(), 4_000);
}

#[test]
fn moderator_replies_must_name_one_known_agent() {
    let cs = candidates();
    assert!(matches!(
        decide(Some(ModeratorResponse::Selection { agent_id: "a".into() }), &cs, false),
        Ok(ModeratorDecision::Dispatch { selection, summary: None, remaining_work: None }) if selection.agent_id == "a"
    ));
    assert_eq!(decide(None, &cs, false), Err(ModeratorFailure::InvalidResponse));
    assert_eq!(
        decide(Some(ModeratorResponse::Selection { agent_id: "missing".into() }), &cs, false),
        Err(ModeratorFailure::InvalidResponse)
    );
    assert!(matches!(
        decide(Some(ModeratorResponse::Finish { summary: "done".into() }), &cs, true),
        Ok(ModeratorDecision::Finish { summary }) if summary == "done"
    ));
    assert!(matches!(
        decide(
            Some(ModeratorResponse::Dispatch {
                agent_id: "a".into(),
                remaining_work: "write tests".into(),
                summary: "implementation done".into(),
            }),
            &cs,
            true,
        ),
        Ok(ModeratorDecision::Dispatch { selection, summary: Some(summary), remaining_work: Some(remaining_work) })
            if selection.agent_id == "a" && summary == "implementation done" && remaining_work == "write tests"
    ));
    assert_eq!(
        decide(
            Some(ModeratorResponse::Dispatch { agent_id: "a".into(), remaining_work: "  ".into(), summary: "x".into() }),
            &cs,
            true,
        ),
        Err(ModeratorFailure::InvalidResponse)
    );
    assert_eq!(
        decide(Some(ModeratorResponse::Selection { agent_id: "a".into() }), &cs, true),
        Err(ModeratorFailure::InvalidResponse)
    );
    assert_eq!(
        decide(Some(ModeratorResponse::Finish { summary: "done".into() }), &cs, false),
        Err(ModeratorFailure::InvalidResponse)
    );
}

#[test]
fn summaries_are_trimmed_and_blank_ones_refused() {
    assert_eq!(validate_summary("  done  ".to_string()), Ok("done".to_string()));
    assert_eq!(validate_summary("   ".to_string()), Err(ModeratorFailure::InvalidResponse));
    assert_eq!(validate_summary("x".repeat(5_000)).unwrap().chars().count(), 4_000);
    assert_eq!(validate_candidate("a", &candidates()), Ok(()));
    assert_eq!(validate_candidate("b", &candidates()), Err(ModeratorFailure::InvalidResponse));
    assert_eq!(truncate("\u{1f680}\u{1f680}\u{1f680}", 2), "\u{1f680}\u{1f680}");
}

#[test]
fn a_failed_attempt_records_what_it_spent() {
    let attempt = failed(ModeratorFailure::Timeout, true, 12);
    assert_eq!(attempt.result, Err(ModeratorFailure::Timeout));
    assert!(attempt.provider_called);
    assert_eq!(attempt.total_tokens, 12);
    assert_eq!(ModeratorFailure::Timeout.as_str(), "timeout");
    assert_eq!(ModeratorFailure::InvalidResponse.as_str(), "invalid_response");
}

/// A moderator reply read as the form its mode asks for: a lone `agent_id`,
/// or an `action` of `dispatch` or `finish` with exactly its own fields.
fn read_response(response: &str, automatic: bool) -> Option<ModeratorResponse> {
    let value: serde_json::Value = serde_json::from_str(response).ok()?;
    let object = value.as_object()?;
    let text = |key: &str| object.get(key).and_then(serde_json::Value::as_str).map(str::to_owned);
    if !automatic {
        if object.len() != 1 {
            return None;
        }
        return Some(ModeratorResponse::Selection { agent_id: text("agent_id")? });
    }
    match object.get("action")?.as_str()? {
        "dispatch" if object.len() == 4 => Some(ModeratorResponse::Dispatch {
            agent_id: text("agent_id")?,
            remaining_work: text("remaining_work")?,
            summary: text("summary")?,
        }),
        "finish" if object.len() == 2 => Some(ModeratorResponse::Finish { summary: text("summary")? }),
        _ => None,
    }
}

fn parse_decision(
    response: &str,
    candidates: &[ModeratorCandidate],
    automatic: bool,
) -> Result<ModeratorDecision, ModeratorFailure> {
    decide(read_response(response, automatic), candidates, automatic)
}

#[test]
fn moderator_response_requires_one_known_agent_id() {
    let candidates = candidates();
    assert!(matches!(
        parse_decision(r#"{"agent_id":"a"}"#, &candidates, false),
        Ok(ModeratorDecision::Dispatch { selection, summary: None, remaining_work: None })
            if selection.agent_id == "a"
    ));
    assert!(parse_decision(r#"{"agent_id":"a","reason":"x"}"#, &candidates, false).is_err());
    assert!(parse_decision(r#"{"agent_id":7}"#, &candidates, false).is_err());
    assert!(parse_decision(r#"{"agent_id":"missing"}"#, &candidates, false).is_err());
    assert!(matches!(
        parse_decision(r#"{"action":"finish","summary":"done"}"#, &candidates, true),
        Ok(ModeratorDecision::Finish { summary }) if summary == "done"
    ));
    assert!(matches!(
        parse_decision(
            r#"{"action":"dispatch","agent_id":"a","remaining_work":"write tests","summary":"implementation done"}"#,
            &candidates,
            true,
        ),
        Ok(ModeratorDecision::Dispatch {
            selection,
            summary: Some(summary),
            remaining_work: Some(remaining_work),
        }) if selection.agent_id == "a"
            && summary == "implementation done"
            && remaining_work == "write tests"
    ));
    assert!(parse_decision(
        r#"{"action":"dispatch","agent_id":"a","summary":"implementation done"}"#,
        &candidates,
        true,
    )
    .is_err());
}

fn config(model: &str) -> ModeratorConfig {
    ModeratorConfig {
        owner_id: "owner".to_owned(),
        provider_id: "provider".to_owned(),
        model: model.to_owned(),
        timeout: std::time::Duration::from_secs(1),
    }
}

#[test]
fn moderator_chat_request_uses_explicit_model_and_structured_input() {
    let config = config("configured-moderator-model");
    let request = bounded_request(ModeratorRequest {
        objective: "objective".to_owned(),
        recent_messages: vec![ModeratorMessage {
            role: "assistant".to_owned(),
            content: "message".to_owned(),
            agent_id: Some("a".to_owned()),
            display_name: Some("Alpha".to_owned()),
            outcome: Some("visible".to_owned()),
        }],
        candidates: vec![ModeratorCandidate {
            agent_id: "a".to_owned(),
            display_name: "Alpha".to_owned(),
            reason: "eligible".to_owned(),
        }],
        remaining_steps: 2,
        automatic: true,
        progress_summary: Some("progress".to_owned()),
        turn_state: Some(ModeratorTurnState { agent_steps: 1, moderator_calls: 0, consecutive_same_speaker: 1 }),
    });

    let chat = moderator_chat_request(&config, &request);
    assert_eq!(chat.model, "configured-moderator-model");
    assert!(!chat.reasoning_passback);
    assert!(chat.include_empty_tools);
    assert!(chat.tools.is_empty());
    assert_eq!(chat.messages.len(), 2);
    assert_eq!(chat.messages[0].role, "system");
    assert!(chat.messages[0].content.contains("remaining_work"));
    let payload: serde_json::Value = serde_json::from_str(&chat.messages[1].content).unwrap();
    assert_eq!(payload["objective"], "objective");
    assert_eq!(payload["recent_messages"][0]["content"], "message");
    assert_eq!(payload["recent_messages"][0]["agent_id"], "a");
    assert_eq!(payload["recent_messages"][0]["outcome"], "visible");
    assert_eq!(payload["candidates"][0]["agent_id"], "a");
    assert_eq!(payload["remaining_steps"], 2);
    assert_eq!(payload["turn_state"]["agent_steps"], 1);
    assert_eq!(payload["turn_state"]["consecutive_same_speaker"], 1);
}

#[test]
fn a_bounded_moderator_input_leaves_out_progress_and_absent_fields() {
    let request = ModeratorRequest {
        objective: "pick".to_owned(),
        recent_messages: vec![ModeratorMessage {
            role: "user".to_owned(),
            content: "hi".to_owned(),
            agent_id: None,
            display_name: None,
            outcome: None,
        }],
        candidates: Vec::new(),
        remaining_steps: 0,
        automatic: false,
        progress_summary: Some("ignored".to_owned()),
        turn_state: None,
    };
    let chat = moderator_chat_request(&config("m"), &request);
    assert!(chat.messages[0].content.contains("Select exactly one candidate"));
    assert_eq!(
        chat.messages[1].content,
        r#"{"candidates":[],"objective":"pick","recent_messages":[{"content":"hi","role":"user"}],"remaining_steps":0}"#
    );
    let automatic = ModeratorRequest { automatic: true, progress_summary: None, ..request };
    let chat = moderator_chat_request(&config("m"), &automatic);
    let payload: serde_json::Value = serde_json::from_str(&chat.messages[1].content).unwrap();
    assert!(payload["progress_summary"].is_null());
    assert!(payload["turn_state"].is_null());
}

#[test]
fn an_incomplete_moderator_is_never_called_and_a_reply_becomes_an_attempt() {
    let missing = check_configuration(&config("")).unwrap();
    assert_eq!(missing.result, Err(ModeratorFailure::MissingConfiguration));
    assert!(!missing.provider_called);
    assert_eq!(missing.total_tokens, 0);
    assert!(check_configuration(&config("m")).is_none());

    let candidates = candidates();
    let chosen = attempt_from_reply(
        Some(ModeratorResponse::Selection { agent_id: "a".to_owned() }),
        &candidates,
        false,
        12,
    );
    assert!(chosen.provider_called);
    assert_eq!(chosen.total_tokens, 12);
    assert!(matches!(chosen.result, Ok(ModeratorDecision::Dispatch { .. })));
    let invalid = attempt_from_reply(None, &candidates, false, 3);
    assert_eq!(invalid.result, Err(ModeratorFailure::InvalidResponse));
    assert!(invalid.provider_called);
}
