use vstd::prelude::*;

verus! {

/// Whether an attached workspace file is shown to the model as an image or
/// offered as a file.
#[derive(Debug, Clone, Copy, PartialEq, Eq, Structural)]
pub enum AttachmentKind {
    Image,
    File,
}

/// Durable metadata for a workspace file referenced by a user message.
#[derive(Debug, Clone, PartialEq, Eq)]
pub struct MessageAttachment {
    pub id: String,
    pub path: String,
    pub name: String,
    pub mime_type: String,
    pub size: i64,
    pub kind: AttachmentKind,
}

/// Whether a user message carries attachment content: it does exactly when
/// it has an attachment.
pub fn has_attachment_content(attachments: &[MessageAttachment]) -> (r: bool)
    ensures
        r == (attachments@.len() > 0),
{
    attachments.len() > 0
}

} // verus!
