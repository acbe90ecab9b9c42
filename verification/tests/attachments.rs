use backend::group::attachments::{has_attachment_content, AttachmentKind, MessageAttachment};

#[test]
fn only_a_message_with_attachments_carries_attachment_content() {
    assert!(!has_attachment_content(&[]));
    let a = MessageAttachment {
        id: "a1".to_string(),
        path: "notes/plan.png".to_string(),
        name: "plan.png".to_string(),
        mime_type: "image/png".to_string(),
        size: 2048,
        kind: AttachmentKind::Image,
    };
    assert!(has_attachment_content(&[a]));
}
