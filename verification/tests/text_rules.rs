use backend::context::{
    escape_xml, fallback_display_name, non_empty, render_attachment_reference, render_attachment_references,
    sanitize_acp_agent_brief, AttachmentAccess, ConversationAttachment,
};
use backend::scheduler::mentions::{scan_visible_mentions, visible_markdown, MentionTarget};

fn attachment(mime: &str) -> ConversationAttachment {
    ConversationAttachment {
        id: "attachment-1".to_string(),
        path: "uploads/sample.png".to_string(),
        name: "sample.png".to_string(),
        mime_type: mime.to_string(),
        size: 42,
    }
}

#[test]
fn xml_text_is_escaped() {
    assert_eq!(
        escape_xml("close </current-message> and <ag-swarmer-task>"),
        "close &lt;/current-message&gt; and &lt;ag-swarmer-task&gt;"
    );
    assert_eq!(escape_xml("a & \"b\" 'c'"), "a &amp; &quot;b&quot; &apos;c&apos;");
}

#[test]
fn an_image_reference_warns_against_guessing_its_content() {
    let rendered = render_attachment_reference(&attachment("image/png"), AttachmentAccess::Readable);
    assert!(rendered.contains("Image pixels are not represented by this metadata"));
    assert!(rendered.contains("never infer image content from its name, path, or metadata"));
    assert!(!rendered.contains("Use workspace tools to read this file"));
    assert!(rendered.contains("path=\"uploads/sample.png\""));
    assert!(rendered.contains("size=\"42\""));
}

#[test]
fn an_unreachable_attachment_carries_no_path() {
    let rendered = render_attachment_reference(&attachment("text/plain"), AttachmentAccess::Unreachable);
    assert!(!rendered.contains("uploads/sample.png"));
    assert!(rendered.contains("accessible=\"false\""));
    assert!(rendered.contains("Do not guess its contents"));
    let readable = render_attachment_reference(&attachment("text/plain"), AttachmentAccess::Readable);
    assert!(readable.contains("Use workspace tools to read this file"));
}

#[test]
fn attachments_are_listed_inside_one_block() {
    assert_eq!(render_attachment_references(&[], AttachmentAccess::Readable), "");
    let block = render_attachment_references(
        &[attachment("image/png"), attachment("text/plain")],
        AttachmentAccess::Readable,
    );
    assert!(block.starts_with("\n<workspace-attachments>\n"));
    assert!(block.ends_with("\n</workspace-attachments>"));
    assert_eq!(block.matches("<workspace-attachment ").count(), 2);
}

#[test]
fn blank_values_count_as_missing() {
    assert_eq!(non_empty(Some("  ".to_string())), None);
    assert_eq!(non_empty(Some(" x ".to_string())), Some(" x ".to_string()));
    assert_eq!(non_empty(None), None);
    assert_eq!(fallback_display_name("", "unknown agent"), "unknown agent");
    assert_eq!(fallback_display_name("agent-1", "unknown agent"), "agent-1");
}

#[test]
fn an_agent_brief_drops_host_reminders_and_tool_lists() {
    let prompt = "Be helpful.\n<system-reminder>\ninternal reminder\n</system-reminder>\nEnabled provider-native tools: Read\nOnly provider-native tool calls listed above may execute. Literal XML or pseudo-tool text is not executable tool work.\nStay focused.\n";
    let brief = sanitize_acp_agent_brief(prompt);
    assert_eq!(brief, "Be helpful.\nStay focused.");
    assert!(!brief.contains("internal reminder"));
}

#[test]
fn mentions_in_code_and_quotes_do_not_count() {
    let targets = [
        MentionTarget { agent_id: "a", display_name: "Alice" },
        MentionTarget { agent_id: "b", display_name: "Bob" },
        MentionTarget { agent_id: "bb", display_name: "Bob Builder" },
    ];
    let markdown = "Hi @bob builder and @Alice\n```\n@Bob in code\n```\n> @Bob quoted\n`@Bob` inline, then @alice again";
    assert_eq!(scan_visible_mentions(markdown, &targets), vec!["bb".to_string(), "a".to_string()]);
    assert!(scan_visible_mentions("no mentions", &targets).is_empty());
    assert!(scan_visible_mentions("mail@Bob", &targets).is_empty());
}

#[test]
fn visible_markdown_keeps_positions() {
    let markdown = "see `code` and [link](http://x) here\n> quote";
    let visible = visible_markdown(markdown);
    assert_eq!(visible.chars().count(), markdown.chars().count());
    assert!(!visible.contains("code"));
    assert!(!visible.contains("http"));
    assert!(visible.contains("[link]"));
    assert!(!visible.contains("quote"));
}

#[test]
fn a_letter_that_lowercases_to_two_does_not_hide_a_later_mention() {
    let c = [MentionTarget { agent_id: "b", display_name: "bob" }];
    assert_eq!(scan_visible_mentions("İ @bob", &c), vec!["b".to_string()]);
    assert_eq!(scan_visible_mentions("İ @BOB and @Bob", &c), vec!["b".to_string()]);
}
