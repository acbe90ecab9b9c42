use vstd::prelude::*;

use crate::compaction::message::{ChatMessage, ContentPart};
use crate::group::text::{native_image_mime_type, native_image_type};

verus! {

/// The most images one provider request carries.
pub const MAX_NATIVE_IMAGES_PER_REQUEST: usize = 4;

/// The largest single image sent, in bytes.
pub const MAX_NATIVE_IMAGE_BYTES: u64 = 5 * 1024 * 1024;

/// The most image bytes one provider request carries.
pub const MAX_NATIVE_IMAGE_TOTAL_BYTES: u64 = 12 * 1024 * 1024;

/// The most image warnings reported for one request.
pub const MAX_IMAGE_WARNINGS: usize = 8;

/// Warning: an image attachment cannot be read without a conversation
/// workspace.
pub const NO_WORKSPACE_WARNING: &'static str = "Attachment image could not be read from the conversation workspace.";

/// Warning: the request already carries as many images as it may.
pub const IMAGE_COUNT_WARNING: &'static str = "Attachment image was not sent because the request image limit was reached.";

/// Warning: an image attachment could not be read.
pub const UNREADABLE_IMAGE_WARNING: &'static str = "Attachment image could not be read from the workspace.";

/// Warning: an image would take the request past its size limit.
pub const IMAGE_SIZE_WARNING: &'static str = "Attachment image was not sent because it exceeds the request size limit.";

/// How reading an image attachment went: its size in bytes, unreadable (or
/// outside the workspace), or larger than one image may be.
#[derive(Debug, Clone, Copy, PartialEq, Eq, Structural)]
pub enum ImageLoad {
    Loaded(u64),
    Unreadable,
    TooLarge,
}

/// The images admitted to one request so far, their bytes, and the
/// warnings for those left out.
#[derive(Debug)]
pub struct ImageBudget {
    pub count: usize,
    pub bytes: u64,
    pub warnings: Vec<String>,
}

/// What a budget holds, as the contracts see it.
pub open spec fn budget_view(b: &ImageBudget) -> (int, int, Seq<Seq<char>>) {
    (b.count as int, b.bytes as int, b.warnings@.map_values(|w: String| w@))
}

impl ImageBudget {
    /// A request never carries more images, or more image bytes, than its
    /// limits allow.
    pub open spec fn within_limits(&self) -> bool {
        self.count <= MAX_NATIVE_IMAGES_PER_REQUEST && self.bytes <= MAX_NATIVE_IMAGE_TOTAL_BYTES
    }

    /// No image admitted yet.
    pub fn new() -> (r: ImageBudget)
        ensures
            r.within_limits(),
            budget_view(&r) == (0int, 0int, Seq::<Seq<char>>::empty()),
    {
        let r = ImageBudget { count: 0, bytes: 0, warnings: Vec::new() };
        assert(budget_view(&r).2 =~= Seq::<Seq<char>>::empty());
        r
    }

    fn warn(&mut self, warning: &str)
        ensures
            budget_view(final(self)) == (
                budget_view(old(self)).0,
                budget_view(old(self)).1,
                budget_view(old(self)).2.push(warning@),
            ),
    {
        self.warnings.push(warning.to_owned());
        assert(budget_view(self).2 =~= budget_view(old(self)).2.push(warning@));
    }

    /// Whether an attachment is worth reading: only a native image type is,
    /// and only when there is a workspace to read it from and room for one
    /// more image (else a warning says why it was left out).
    pub fn admit_before_read(&mut self, mime_type: &str, has_workspace: bool) -> (r: bool)
        requires
            old(self).within_limits(),
        ensures
            final(self).within_limits(),
            r == (native_image_type(mime_type@) && has_workspace && old(self).count < MAX_NATIVE_IMAGES_PER_REQUEST),
            budget_view(final(self)) == if !native_image_type(mime_type@) || r {
                budget_view(old(self))
            } else if !has_workspace {
                (budget_view(old(self)).0, budget_view(old(self)).1, budget_view(old(self)).2.push(NO_WORKSPACE_WARNING@))
            } else {
                (budget_view(old(self)).0, budget_view(old(self)).1, budget_view(old(self)).2.push(IMAGE_COUNT_WARNING@))
            },
    {
        if !native_image_mime_type(mime_type) {
            return false;
        }
        if !has_workspace {
            self.warn(NO_WORKSPACE_WARNING);
            return false;
        }
        if self.count >= MAX_NATIVE_IMAGES_PER_REQUEST {
            self.warn(IMAGE_COUNT_WARNING);
            return false;
        }
        true
    }

    /// Whether an image that was read goes into the request: it does when it
    /// loaded and fits the request's remaining bytes, and is then counted;
    /// otherwise a warning says why it was left out.
    pub fn admit_after_read(&mut self, load: ImageLoad) -> (r: bool)
        requires
            old(self).within_limits(),
            old(self).count < MAX_NATIVE_IMAGES_PER_REQUEST,
        ensures
            final(self).within_limits(),
            r == (load matches ImageLoad::Loaded(size) && old(self).bytes + size <= MAX_NATIVE_IMAGE_TOTAL_BYTES),
            budget_view(final(self)) == match load {
                ImageLoad::Loaded(size) => if r {
                    (budget_view(old(self)).0 + 1, budget_view(old(self)).1 + size, budget_view(old(self)).2)
                } else {
                    (budget_view(old(self)).0, budget_view(old(self)).1, budget_view(old(self)).2.push(IMAGE_SIZE_WARNING@))
                },
                ImageLoad::Unreadable => (
                    budget_view(old(self)).0,
                    budget_view(old(self)).1,
                    budget_view(old(self)).2.push(UNREADABLE_IMAGE_WARNING@),
                ),
                ImageLoad::TooLarge => (
                    budget_view(old(self)).0,
                    budget_view(old(self)).1,
                    budget_view(old(self)).2.push(IMAGE_SIZE_WARNING@),
                ),
            },
    {
        match load {
            ImageLoad::Unreadable => {
                self.warn(UNREADABLE_IMAGE_WARNING);
                false
            },
            ImageLoad::TooLarge => {
                self.warn(IMAGE_SIZE_WARNING);
                false
            },
            ImageLoad::Loaded(size) => {
                if self.bytes.saturating_add(size) > MAX_NATIVE_IMAGE_TOTAL_BYTES {
                    self.warn(IMAGE_SIZE_WARNING);
                    false
                } else {
                    self.count = self.count + 1;
                    self.bytes = self.bytes + size;
                    assert(budget_view(self).2 =~= budget_view(old(self)).2);
                    true
                }
            },
        }
    }

    /// The warnings to report: the first eight.
    pub fn into_warnings(self) -> (r: Vec<String>)
        ensures
            r@.map_values(|w: String| w@) == budget_view(&self).2.take(
                if budget_view(&self).2.len() <= MAX_IMAGE_WARNINGS { budget_view(&self).2.len() as int } else { MAX_IMAGE_WARNINGS as int },
            ),
    {
        let mut warnings = self.warnings;
        let ghost all = warnings@;
        warnings.truncate(MAX_IMAGE_WARNINGS);
        assert(warnings@.map_values(|w: String| w@) =~= all.map_values(|w: String| w@).take(
            if all.len() <= MAX_IMAGE_WARNINGS { all.len() as int } else { MAX_IMAGE_WARNINGS as int },
        ));
        warnings
    }
}

/// A user message carrying the text of `message` followed by `images`, or
/// `message` itself when there are no images.
pub fn with_images(message: ChatMessage, images: Vec<ContentPart>) -> (r: ChatMessage)
    ensures
        images@.len() == 0 ==> r@ == message@,
        images@.len() > 0 ==> {
            &&& r.role@ == "user"@
            &&& r.content@ == message.content@
            &&& r.parts@ == seq![ContentPart::Text { text: message.content }] + images@
            &&& r.tool_calls@.len() == 0
            &&& r.tool_call_id is None
            &&& r.tool_name is None
            &&& r.reasoning_content is None
            &&& r.todos is None
        },
{
    if images.len() == 0 {
        return message;
    }
    let text = message.content;
    let mut parts: Vec<ContentPart> = Vec::new();
    parts.push(ContentPart::Text { text: text.clone() });
    let mut rest = images;
    parts.append(&mut rest);
    ChatMessage {
        role: "user".to_owned(),
        content: text,
        tool_calls: Vec::new(),
        tool_call_id: None,
        tool_name: None,
        parts: parts,
        reasoning_content: None,
        todos: None,
    }
}

} // verus!
