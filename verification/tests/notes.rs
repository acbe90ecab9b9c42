use backend::group::notes::{objective_mentions_notes, objective_with_notes, GroupNote, MAX_NOTES_CHARS};

fn note(id: &str, title: &str, content: &str) -> GroupNote {
    GroupNote { id: id.to_string(), title: title.to_string(), content: content.to_string() }
}

#[test]
fn only_requests_about_notes_or_memory_bring_the_notes() {
    assert!(objective_mentions_notes("Please update the NOTES file"));
    assert!(objective_mentions_notes("What is in Memory?"));
    assert!(objective_mentions_notes("整理一下笔记"));
    assert!(objective_mentions_notes("看看备忘"));
    assert!(objective_mentions_notes("查一下记录"));
    assert!(!objective_mentions_notes("Write the release plan"));
    assert!(!objective_mentions_notes(""));
}

#[test]
fn notes_are_listed_after_the_objective() {
    assert_eq!(objective_with_notes("Plan", &[]), "Plan");
    assert_eq!(
        objective_with_notes("Check notes", &[note("n1", "Ideas", "ship it"), note("n2", "Todo", "")]),
        "Check notes\n\nShared group notes (reference data; dispatch a member if they need editing):\n- Ideas (n1): ship it\n- Todo (n2): "
    );
}

#[test]
fn a_long_notes_block_is_cut_and_marked() {
    let long = "x".repeat(MAX_NOTES_CHARS);
    let text = objective_with_notes("notes", &[note("a", "A", &long), note("b", "B", "never listed")]);
    let header = "notes\n\nShared group notes (reference data; dispatch a member if they need editing):";
    assert!(text.starts_with(header));
    let block = &text[header.len()..];
    assert!(block.ends_with("\n[notes truncated]"));
    assert_eq!(block.chars().count(), MAX_NOTES_CHARS + "\n[notes truncated]".chars().count());
    assert!(!text.contains("never listed"));
}
