use backend::compaction::checklist::{carried_checklist, CHECKLIST_OPEN, latest_checklist, parse_checklist, render_checklist};
use backend::compaction::message::{ChatMessage, ContentPart, TodoItem, TodoStatus, ToolCall};
use backend::compaction::pass::{compact_finish, compact_prepare, pass_is_defined, CompactionOutcome, CompactionStep};
use backend::compaction::prune::{prune_text_budget, prune_tool_results, MAX_RETAINED_TOOL_RESULT_CHARS};
use backend::compaction::snip::snip_compact;
use backend::compaction::tokens::{
    estimate_message_tokens, estimate_text_tokens, estimate_tokens, estimate_tool_schema_tokens, ToolDefinition,
};
use backend::compaction::turns::{
    is_turn_head, preserved_prefix, retained_tail_start, select_span, CompactionLimits, CompactionTrigger,
    MAX_PINNED_TASK_CHARS, RETAINED_TAIL_TURNS,
};

fn thread(length: usize) -> Vec<ChatMessage> {
    let mut messages = vec![ChatMessage::text("system", "You are a test agent.")];
    for index in 0..length {
        messages.push(ChatMessage::text("user", &format!("question {index}")));
        messages.push(ChatMessage::text("assistant", &format!("answer {index}")));
    }
    messages
}

fn build_call() -> ToolCall {
    ToolCall {
        id: "call-1".to_string(),
        name: "Bash".to_string(),
        args: r#"{"command":"cargo build"}"#.to_string(),
    }
}

fn tool_exchange(output: &str) -> Vec<ChatMessage> {
    let call = build_call();
    vec![
        ChatMessage::assistant_tool_calls("", vec![call.clone()]),
        ChatMessage::tool_result(&call.id, &call.name, output),
    ]
}

fn status_of(label: &str) -> TodoStatus {
    TodoStatus::parse(label)
}

/// A `TodoWrite` exchange as the runtime appends it: the call, then its
/// result carrying the checklist it wrote.
fn todo_exchange(todos: &[(&str, &str)]) -> Vec<ChatMessage> {
    let items: Vec<TodoItem> = todos
        .iter()
        .map(|(content, status)| TodoItem { content: content.to_string(), status: status_of(status) })
        .collect();
    let call = ToolCall {
        id: "call-todo".to_string(),
        name: "TodoWrite".to_string(),
        args: "{\"todos\":[]}".to_string(),
    };
    let mut result = ChatMessage::tool_result(&call.id, &call.name, "status: Completed");
    result.todos = Some(items);
    vec![ChatMessage::assistant_tool_calls("", vec![call]), result]
}

fn without_first(messages: Vec<ChatMessage>) -> Vec<ChatMessage> {
    messages.into_iter().skip(1).collect()
}

/// One compaction pass, with `summary` standing in for what the summarizer
/// answers.
fn run_pass(
    messages: &mut Vec<ChatMessage>,
    limits: CompactionLimits,
    trigger: CompactionTrigger,
    summary: Option<&str>,
) -> Option<CompactionOutcome> {
    assert!(pass_is_defined(messages, limits, trigger));
    match compact_prepare(messages, limits, trigger)? {
        CompactionStep::Finished(outcome) => Some(outcome),
        CompactionStep::Summarize(pending) => {
            Some(compact_finish(messages, pending, summary.map(|s| s.to_string())))
        }
    }
}

fn compacted_text(messages: &[ChatMessage]) -> String {
    messages
        .iter()
        .find(|message| message.content.contains("qunica-context-summary"))
        .expect("a summary should have been spliced in")
        .content
        .clone()
}

#[test]
fn cjk_text_is_not_estimated_as_a_quarter_token_per_character() {
    let ascii = estimate_text_tokens(&"a".repeat(400));
    let chinese = estimate_text_tokens(&"文".repeat(400));
    assert_eq!(ascii, 100);
    assert_eq!(chinese, 400);
}

#[test]
fn limits_subtract_the_reserve_and_the_tool_overhead() {
    assert_eq!(CompactionLimits::from_window(None, 0, 0), None);
    assert_eq!(CompactionLimits::from_window(Some(0), 0, 0), None);
    assert_eq!(CompactionLimits::from_window(Some(100_000), 20_000, 0).unwrap().usable_tokens, 80_000);
    assert_eq!(CompactionLimits::from_window(Some(100_000), 0, 0).unwrap().usable_tokens, 100_000);
    assert_eq!(CompactionLimits::from_window(Some(100_000), 20_000, 30_000).unwrap().usable_tokens, 50_000);
    assert_eq!(CompactionLimits::from_window(Some(1_000), 0, 5_000).unwrap().usable_tokens, 1);
}

#[test]
fn thresholds_are_fixed_shares_of_the_budget() {
    let limits = CompactionLimits { usable_tokens: 10_000 };
    assert_eq!(limits.pressure_threshold(), 7_500);
    assert_eq!(limits.emergency_threshold(), 9_200);
    assert_eq!(limits.target(), 5_500);
    assert_eq!(limits.tail_ceiling(), 4_000);
}

#[test]
fn tool_definitions_are_not_free() {
    let tools = vec![ToolDefinition {
        name: "Read".to_string(),
        description: "Read a file from the workspace.".to_string(),
        input_schema: r#"{"type":"object","properties":{"file_path":{"type":"string"}},"required":["file_path"]}"#
            .to_string(),
    }];
    assert!(estimate_tool_schema_tokens(&tools) > 30);
    assert_eq!(estimate_tool_schema_tokens(&[]), 0);
}

#[test]
fn an_image_is_not_estimated_as_free() {
    let mut message = ChatMessage::text("user", "");
    message.parts = vec![ContentPart::Image {
        mime_type: "image/png".to_string(),
        data_base64: "A".repeat(1_200_000),
    }];
    let tokens = estimate_message_tokens(&message);
    assert!(tokens > 1_000, "{tokens}");
}

#[test]
fn text_carried_as_a_part_is_not_counted_twice() {
    let text = "x".repeat(4_000);
    let plain = ChatMessage::text("user", &text);
    let mut as_part = ChatMessage::text("user", &text);
    as_part.parts = vec![ContentPart::Text { text: text.clone() }];
    assert_eq!(estimate_message_tokens(&plain), estimate_message_tokens(&as_part));
}

#[test]
fn pressure_below_the_threshold_does_nothing() {
    let mut messages = thread(3);
    let before = messages.clone();
    let outcome = run_pass(
        &mut messages,
        CompactionLimits { usable_tokens: 100_000 },
        CompactionTrigger::Pressure,
        Some("unused"),
    );
    assert!(outcome.is_none());
    assert_eq!(messages.len(), before.len());
    for (a, b) in messages.iter().zip(before.iter()) {
        assert_eq!((&a.role, &a.content), (&b.role, &b.content));
    }
}

#[test]
fn pruning_alone_is_preferred_over_a_model_call() {
    let mut messages = thread(1);
    messages.extend(tool_exchange(&"x".repeat(30_000)));
    messages.extend(without_first(thread(4)));

    let outcome = run_pass(
        &mut messages,
        CompactionLimits { usable_tokens: 9_000 },
        CompactionTrigger::Pressure,
        None,
    )
    .expect("pressure should trigger");

    assert_eq!(outcome.pruned_results, 1);
    assert!(outcome.pruned_chars > 25_000, "{outcome:?}");
    assert_eq!(outcome.summarized_messages, 0, "pruning was enough, so no span should have been summarized");
    assert!(outcome.tokens_after < outcome.tokens_before);
    assert!(messages.iter().any(|m| m.content.contains("characters elided")));
}

#[test]
fn a_span_is_replaced_by_one_summary_message() {
    let mut messages = thread(20);
    let original = messages.len();

    let outcome = run_pass(
        &mut messages,
        CompactionLimits { usable_tokens: 100 },
        CompactionTrigger::Pressure,
        Some("The agent answered twenty questions."),
    )
    .expect("pressure should trigger");

    assert!(outcome.summarized_messages > 0);
    assert_eq!(messages.len(), original - outcome.summarized_messages + 1);
    assert_eq!(messages[0].role, "system", "the system prompt must survive");
    assert_eq!(messages[1].content, "question 0", "the opening task must survive");
    assert!(messages[2].content.contains("The agent answered twenty questions."));
    assert!(messages[2].content.contains("qunica-context-summary"));
    assert!(outcome.made_progress());
}

#[test]
fn the_opening_task_is_never_summarized_away() {
    let mut messages = vec![
        ChatMessage::text("system", "You are a test agent."),
        ChatMessage::text("user", "Refactor the parser. Do not add dependencies."),
    ];
    messages.extend(without_first(thread(20)));
    let limits = CompactionLimits { usable_tokens: 100 };

    for pass in ["first", "second"] {
        run_pass(&mut messages, limits, CompactionTrigger::Pressure, Some("the agent did some work"))
            .unwrap_or_else(|| panic!("the {pass} pass should compact"));
        messages.extend(without_first(thread(20)));
    }

    assert_eq!(
        messages[1].content, "Refactor the parser. Do not add dependencies.",
        "a constraint the user stated once is not recoverable by re-running anything"
    );
}

#[test]
fn an_enormous_opening_message_is_not_pinned() {
    let mut messages = vec![
        ChatMessage::text("system", "system"),
        ChatMessage::text("user", &"x".repeat(MAX_PINNED_TASK_CHARS + 1)),
    ];
    messages.extend(without_first(thread(20)));
    assert_eq!(preserved_prefix(&messages), 1);
}

#[test]
fn a_failed_summary_still_reduces_and_says_so() {
    let mut messages = thread(20);
    let outcome = run_pass(
        &mut messages,
        CompactionLimits { usable_tokens: 100 },
        CompactionTrigger::Overflow,
        None,
    )
    .expect("overflow always runs");

    assert!(outcome.made_progress());
    assert!(messages[2].content.contains("could not be summarized"));
}

#[test]
fn overflow_compacts_even_when_the_estimate_looks_fine() {
    let mut messages = thread(20);
    let outcome = run_pass(
        &mut messages,
        CompactionLimits { usable_tokens: 1_000_000 },
        CompactionTrigger::Overflow,
        Some("summary"),
    )
    .expect("overflow ignores the estimate");
    assert!(outcome.made_progress());
}

/// A thread whose tail edge holds one tool turn, `assistant(calls) -> tool ->
/// assistant(text)`, followed by trailing pairs; with the indices of the call
/// and of the concluding answer.
fn turn_on_the_tail_edge() -> (Vec<ChatMessage>, usize, usize) {
    let mut messages = thread(4);
    let call = build_call();
    messages.push(ChatMessage::assistant_tool_calls("", vec![call.clone()]));
    messages.push(ChatMessage::tool_result(&call.id, &call.name, "build output"));
    messages.push(ChatMessage::text("assistant", "the build failed due to X"));
    let calls_index = messages.len() - 3;
    let conclusion_index = messages.len() - 1;
    messages.extend(without_first(thread(2)));
    (messages, calls_index, conclusion_index)
}

#[test]
fn a_span_never_leaves_an_orphan_tool_result_at_the_head_of_the_tail() {
    let mut messages = thread(2);
    messages.extend(tool_exchange("build output"));
    messages.extend(without_first(thread(3)));
    let raw = messages.iter().position(|message| message.role == "tool").unwrap();

    let span = select_span(&messages, raw, CompactionLimits { usable_tokens: 10_000 })
        .expect("a span should be selectable");
    assert_eq!(span.start, preserved_prefix(&messages));
    assert!(
        is_turn_head(&messages, span.end),
        "the retained tail must begin with a complete turn, not a tool result or a dangling answer"
    );
}

#[test]
fn a_straddling_tool_result_pulls_the_whole_turn_into_the_tail() {
    let (messages, calls_index, conclusion_index) = turn_on_the_tail_edge();
    let raw = calls_index + 1;
    let limits = CompactionLimits { usable_tokens: 10_000 };

    let span = select_span(&messages, raw, limits).expect("a span should be selectable");

    assert_eq!(span.end, calls_index);
    assert!(span.end < conclusion_index, "the answer must stay with the call that produced it");
}

#[test]
fn a_boundary_on_a_concluding_answer_is_not_split() {
    let (messages, calls_index, _) = turn_on_the_tail_edge();
    let raw = calls_index + 2;
    let limits = CompactionLimits { usable_tokens: 10_000 };

    let span = select_span(&messages, raw, limits).expect("a span should be selectable");

    assert_eq!(span.end, calls_index);
}

#[test]
fn a_turn_too_large_for_the_tail_is_summarized_instead() {
    let mut messages = thread(4);
    let call = build_call();
    messages.push(ChatMessage::assistant_tool_calls("", vec![call.clone()]));
    messages.push(ChatMessage::tool_result(&call.id, &call.name, &"x".repeat(30_000)));
    messages.push(ChatMessage::text("assistant", "done"));
    let huge_index = messages.len() - 2;
    messages.extend(without_first(thread(3)));

    let raw = huge_index;
    let limits = CompactionLimits { usable_tokens: 10_000 };
    let span = select_span(&messages, raw, limits).expect("a span should be selectable");

    assert!(span.end > huge_index);
    assert!(estimate_tokens(&messages[span.end..]) <= limits.target());
}

#[test]
fn an_emergency_tail_never_begins_with_a_tool_result() {
    let mut messages = thread(4);
    let call = build_call();
    messages.push(ChatMessage::assistant_tool_calls("", vec![call.clone()]));
    messages.push(ChatMessage::tool_result(&call.id, &call.name, "output"));
    messages.push(ChatMessage::text("assistant", "done"));

    let tail_start = retained_tail_start(&messages, CompactionTrigger::Emergency);
    assert!(
        is_turn_head(&messages, tail_start),
        "even the skeleton tail begins on a turn start, never a tool result"
    );
    assert_ne!(messages[tail_start].role, "tool");
}

#[test]
fn a_clean_boundary_is_left_untouched() {
    let messages = thread(6);
    let raw = messages.len() - 4;
    let span = select_span(&messages, raw, CompactionLimits { usable_tokens: 10_000 })
        .expect("a span should be selectable");
    assert_eq!(span.end, raw, "a boundary already on a turn start must not move");
}

#[test]
fn a_thread_shorter_than_the_retained_tail_has_no_span() {
    let limits = CompactionLimits { usable_tokens: 10_000 };
    let messages = thread(1);
    let tail_start = retained_tail_start(&messages, CompactionTrigger::Pressure);
    assert!(select_span(&messages, tail_start, limits).is_none());

    let empty: Vec<ChatMessage> = Vec::new();
    assert_eq!(retained_tail_start(&empty, CompactionTrigger::Pressure), 1);
}

#[test]
fn pruning_keeps_both_ends_of_a_tool_result() {
    let text = format!("HEAD{}TAIL", "m".repeat(20_000));
    let pruned = prune_text_budget(&text, MAX_RETAINED_TOOL_RESULT_CHARS).unwrap();
    assert!(pruned.starts_with("HEAD"));
    assert!(pruned.ends_with("TAIL"));
    assert!(pruned.chars().count() < text.chars().count());
    assert!(prune_text_budget("short", MAX_RETAINED_TOOL_RESULT_CHARS).is_none());
}

#[test]
fn snip_drops_silent_non_tool_messages_and_keeps_empty_tool_results() {
    let mut messages = vec![
        ChatMessage::text("system", "You are a test agent."),
        ChatMessage::text("user", "   "),
        ChatMessage::text("assistant", ""),
        ChatMessage::tool_result("call-1", "Bash", ""),
    ];

    let outcome = snip_compact(&mut messages);

    assert_eq!(outcome.dropped_messages, 2, "the blank user and assistant");
    let shape: Vec<(String, String)> = messages.iter().map(|m| (m.role.clone(), m.content.clone())).collect();
    assert_eq!(
        shape,
        vec![
            ("system".to_string(), "You are a test agent.".to_string()),
            ("tool".to_string(), String::new()),
        ],
        "an empty tool result is a statement that the call ran, not noise"
    );
}

#[test]
fn snip_collapses_a_run_of_identical_log_lines() {
    let mut lines = vec!["building", "packages"];
    lines.extend(std::iter::repeat("error: conflicting type in crate `foo`").take(500));
    lines.push("done");
    let mut messages = vec![ChatMessage::tool_result("call-1", "Bash", &lines.join("\n"))];

    let outcome = snip_compact(&mut messages);

    assert_eq!(outcome.dropped_messages, 0);
    assert!(outcome.snipped_chars > 0);
    let content = &messages[0].content;
    assert!(content.contains("error: conflicting type"), "{content}");
    assert!(content.contains("repeated identical lines"), "{content}");
    assert_eq!(content.matches("error: conflicting type").count(), 1, "one copy survives: {content}");
}

#[test]
fn snip_leaves_distinct_lines_and_short_runs_alone() {
    let text = "a\nb\nc\nd\nd\n";
    let mut messages = vec![ChatMessage::tool_result("call-1", "Bash", text)];
    snip_compact(&mut messages);
    assert_eq!(messages[0].content, text);
}

#[test]
fn the_tail_keeps_fewer_turns_under_emergency_than_pressure() {
    let messages = thread(20);
    let pressure = retained_tail_start(&messages, CompactionTrigger::Pressure);
    let emergency = retained_tail_start(&messages, CompactionTrigger::Emergency);
    let overflow = retained_tail_start(&messages, CompactionTrigger::Overflow);
    assert!(pressure < emergency, "pressure keeps more turns than emergency");
    assert_eq!(emergency, overflow, "emergency and overflow share a skeleton");
}

#[test]
fn the_emergency_ceiling_sits_above_the_pressure_ceiling() {
    let limits = CompactionLimits { usable_tokens: 10_000 };
    assert!(limits.emergency_threshold() > limits.pressure_threshold());
}

#[test]
fn pressure_near_overflow_escalates_to_the_skeleton_tail() {
    let mut messages = thread(30);
    let outcome = run_pass(
        &mut messages,
        CompactionLimits { usable_tokens: 600 },
        CompactionTrigger::Pressure,
        Some("summary"),
    )
    .expect("the estimate sits above 92%, so the pass must run");
    assert!(outcome.summarized_messages > 0);
    assert_eq!(messages.len(), 5, "an emergency pass keeps only a skeleton, but kept {} messages", messages.len());
}

#[test]
fn a_normal_pressure_pass_keeps_the_full_tail() {
    let mut messages = thread(30);
    let outcome = run_pass(
        &mut messages,
        CompactionLimits { usable_tokens: 800 },
        CompactionTrigger::Pressure,
        Some("summary"),
    )
    .expect("pressure should trigger");
    assert_eq!(messages.len(), 2 + 1 + RETAINED_TAIL_TURNS);
    assert!(outcome.summarized_messages > 0);
}

#[test]
fn the_tail_is_pruned_only_above_the_ceiling() {
    let mut small = vec![ChatMessage::text("system", "s")];
    small.extend(tool_exchange(&"x".repeat(30_000)));
    let tail_start = retained_tail_start(&small, CompactionTrigger::Pressure);
    let (count, removed) =
        prune_tool_results(&mut small, tail_start, CompactionLimits { usable_tokens: 1_000_000 });
    assert_eq!((count, removed), (0, 0));

    let mut big = vec![ChatMessage::text("system", "s")];
    big.extend(tool_exchange(&"x".repeat(30_000)));
    let tail_start = retained_tail_start(&big, CompactionTrigger::Pressure);
    let (count, removed) = prune_tool_results(&mut big, tail_start, CompactionLimits { usable_tokens: 10_000 });
    assert!(count > 0);
    assert!(removed > 0);
}

#[test]
fn a_tool_exchange_counts_as_one_turn() {
    let mut messages = vec![ChatMessage::text("system", "s")];
    let call = build_call();
    messages.push(ChatMessage::assistant_tool_calls("", vec![call.clone()]));
    for _ in 0..20 {
        messages.push(ChatMessage::tool_result(&call.id, &call.name, "output"));
    }
    messages.push(ChatMessage::text("assistant", "done"));

    assert_eq!(
        retained_tail_start(&messages, CompactionTrigger::Emergency),
        1,
        "a tool exchange must count as one turn, not twenty-two messages"
    );
}

#[test]
fn a_checklist_in_the_tail_survives_ceiling_pruning() {
    let long: Vec<(String, &str)> =
        (0..30).map(|index| (format!("step {index} {}", "x".repeat(400)), "pending")).collect();
    let borrowed: Vec<(&str, &str)> = long.iter().map(|(content, status)| (content.as_str(), *status)).collect();
    let mut messages = vec![ChatMessage::text("system", "s")];
    messages.extend(todo_exchange(&borrowed));

    let tail_start = retained_tail_start(&messages, CompactionTrigger::Pressure);
    let (count, removed) =
        prune_tool_results(&mut messages, tail_start, CompactionLimits { usable_tokens: 1_000 });
    assert_eq!((count, removed), (0, 0), "a checklist is exempt even in the tail");
    assert_eq!(latest_checklist(&messages).unwrap().len(), 30);
}

#[test]
fn a_summarized_checklist_is_carried_across_verbatim() {
    let mut messages = thread(2);
    messages.extend(todo_exchange(&[
        ("read the code", "completed"),
        ("write the fix", "in_progress"),
        ("run the tests", "pending"),
    ]));
    messages.extend(without_first(thread(20)));

    let outcome = run_pass(
        &mut messages,
        CompactionLimits { usable_tokens: 100 },
        CompactionTrigger::Pressure,
        Some("The agent did some work."),
    )
    .expect("pressure should trigger");
    assert!(outcome.summarized_messages > 0);

    let summary = compacted_text(&messages);
    assert!(summary.contains("- [completed] read the code"), "{summary}");
    assert!(summary.contains("- [in_progress] write the fix"), "{summary}");
    assert!(summary.contains("- [pending] run the tests"), "{summary}");
    assert!(summary.find(CHECKLIST_OPEN) > summary.find("</qunica-context-summary>"), "{summary}");
}

#[test]
fn a_carried_checklist_survives_the_next_compaction_too() {
    let mut messages = thread(2);
    messages.extend(todo_exchange(&[("run the tests", "in_progress")]));
    messages.extend(without_first(thread(20)));
    let limits = CompactionLimits { usable_tokens: 100 };

    run_pass(&mut messages, limits, CompactionTrigger::Pressure, Some("first pass"))
        .expect("the first pass should compact");
    messages.extend(without_first(thread(20)));
    run_pass(&mut messages, limits, CompactionTrigger::Pressure, Some("second pass"))
        .expect("the second pass should compact");

    let summary = compacted_text(&messages);
    assert!(
        summary.contains("- [in_progress] run the tests"),
        "a checklist must not survive exactly one compaction: {summary}"
    );
}

#[test]
fn a_checklist_still_in_the_retained_tail_is_not_restated() {
    let mut messages = thread(20);
    messages.extend(todo_exchange(&[("write the fix", "in_progress")]));

    run_pass(&mut messages, CompactionLimits { usable_tokens: 100 }, CompactionTrigger::Pressure, Some("summary"))
        .expect("pressure should trigger");

    assert!(!compacted_text(&messages).contains(CHECKLIST_OPEN));
}

#[test]
fn a_cleared_checklist_is_not_replaced_by_an_older_one() {
    let mut messages = thread(1);
    messages.extend(todo_exchange(&[("write the fix", "in_progress")]));
    messages.extend(todo_exchange(&[]));
    let tail_start = messages.len();
    assert_eq!(carried_checklist(&messages, tail_start), None);
}

#[test]
fn a_checklist_is_never_pruned_down_the_middle() {
    let long: Vec<(String, &str)> =
        (0..20).map(|index| (format!("step {index} {}", "x".repeat(200)), "pending")).collect();
    let borrowed: Vec<(&str, &str)> = long.iter().map(|(content, status)| (content.as_str(), *status)).collect();
    let mut messages = vec![ChatMessage::text("system", "s")];
    messages.extend(todo_exchange(&borrowed));
    messages.extend(without_first(thread(6)));

    let tail_start = retained_tail_start(&messages, CompactionTrigger::Pressure);
    let (count, removed) =
        prune_tool_results(&mut messages, tail_start, CompactionLimits { usable_tokens: 100_000 });
    assert_eq!((count, removed), (0, 0), "an oversized checklist is still a checklist");
    assert_eq!(latest_checklist(&messages).unwrap().len(), 20);
}

#[test]
fn a_rendered_checklist_reads_back_as_the_same_items() {
    let todos = vec![
        TodoItem { content: "read the code".to_string(), status: TodoStatus::Completed },
        TodoItem { content: "write the fix".to_string(), status: TodoStatus::InProgress },
    ];
    assert_eq!(parse_checklist(&render_checklist(&todos)).unwrap(), todos);
    assert_eq!(parse_checklist("no checklist here"), None);
}

#[test]
fn an_unknown_status_label_reads_as_pending() {
    assert_eq!(TodoStatus::parse("completed"), TodoStatus::Completed);
    assert_eq!(TodoStatus::parse("in_progress"), TodoStatus::InProgress);
    assert_eq!(TodoStatus::parse("later"), TodoStatus::Pending);
    assert_eq!(TodoStatus::Completed.as_str(), "completed");
}

#[test]
fn a_pass_needs_collapses_that_never_lengthen() {
    let limits = CompactionLimits { usable_tokens: 1_000 };
    assert!(pass_is_defined(&thread(3), limits, CompactionTrigger::Overflow));
    assert!(pass_is_defined(&Vec::new(), limits, CompactionTrigger::Pressure));
    assert!(pass_is_defined(&Vec::new(), limits, CompactionTrigger::Overflow));
    assert!(pass_is_defined(&vec![ChatMessage::text("assistant", "  ")], limits, CompactionTrigger::Emergency));

    let mut short_repeats = thread(1);
    short_repeats.extend(tool_exchange("a\na\na\na\na"));
    assert!(!pass_is_defined(&short_repeats, limits, CompactionTrigger::Overflow));

    let mut long_repeats = thread(1);
    let line = "error: the same long line printed again and again by the build";
    long_repeats.extend(tool_exchange(&vec![line; 6].join("\n")));
    assert!(pass_is_defined(&long_repeats, limits, CompactionTrigger::Overflow));
}

#[test]
fn an_empty_thread_under_overflow_reports_no_progress() {
    let limits = CompactionLimits { usable_tokens: 1 };
    let mut messages: Vec<ChatMessage> = Vec::new();
    let outcome = run_pass(&mut messages, limits, CompactionTrigger::Overflow, None).unwrap();
    assert!(messages.is_empty());
    assert!(!outcome.made_progress());

    let mut silent = vec![ChatMessage::text("assistant", "  ")];
    let outcome = run_pass(&mut silent, limits, CompactionTrigger::Emergency, Some("unused")).unwrap();
    assert!(silent.is_empty());
    assert_eq!(outcome.snipped_messages, 1);
    assert_eq!(outcome.pruned_results, 0);
    assert_eq!(outcome.summarized_messages, 0);
    assert_eq!(outcome.tokens_after, 0);
}

#[test]
fn a_summarized_thread_keeps_its_shape_when_silent_messages_go() {
    let mut messages = thread(20);
    messages.insert(3, ChatMessage::text("assistant", "   "));
    messages.extend(tool_exchange("done"));
    messages.push(ChatMessage::text("user", "  "));
    messages.push(ChatMessage::text("user", "and now?"));
    let system = messages[0].clone();
    let original = messages.len();

    let outcome = run_pass(&mut messages, CompactionLimits { usable_tokens: 100 }, CompactionTrigger::Overflow, None)
        .expect("overflow always runs");

    assert_eq!(outcome.snipped_messages, 2);
    assert!(outcome.summarized_messages > 0);
    assert_eq!(messages[0].role, system.role);
    assert_eq!(messages[0].content, system.content);
    assert_eq!(messages.len(), original - outcome.snipped_messages - outcome.summarized_messages + 1);
    let p = 2;
    assert_eq!(messages[p].role, "user");
    assert!(messages[p].content.starts_with("<qunica-context-summary"));
    assert!(messages[p].content.contains("could not be summarized"));
    if p + 1 < messages.len() {
        assert_ne!(messages[p + 1].role, "tool");
    }
}
