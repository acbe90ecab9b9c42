use backend::compaction::message::{ChatMessage, ContentPart};
use backend::group::vision::{
    with_images, ImageBudget, ImageLoad, IMAGE_COUNT_WARNING, IMAGE_SIZE_WARNING, MAX_IMAGE_WARNINGS,
    MAX_NATIVE_IMAGES_PER_REQUEST, MAX_NATIVE_IMAGE_TOTAL_BYTES, NO_WORKSPACE_WARNING, UNREADABLE_IMAGE_WARNING,
};

#[test]
fn only_native_images_with_a_workspace_are_read() {
    let mut budget = ImageBudget::new();
    assert!(!budget.admit_before_read("application/pdf", true));
    assert!(budget.warnings.is_empty());
    assert!(!budget.admit_before_read("image/png", false));
    assert_eq!(budget.warnings, vec![NO_WORKSPACE_WARNING.to_string()]);
    assert!(budget.admit_before_read("image/jpeg", true));
}

#[test]
fn a_request_carries_at_most_four_images_and_twelve_megabytes() {
    let mut budget = ImageBudget::new();
    for _ in 0..MAX_NATIVE_IMAGES_PER_REQUEST {
        assert!(budget.admit_before_read("image/png", true));
        assert!(budget.admit_after_read(ImageLoad::Loaded(1024)));
    }
    assert_eq!(budget.count, MAX_NATIVE_IMAGES_PER_REQUEST);
    assert_eq!(budget.bytes, 4096);
    assert!(!budget.admit_before_read("image/png", true));
    assert_eq!(budget.warnings, vec![IMAGE_COUNT_WARNING.to_string()]);

    let mut budget = ImageBudget::new();
    assert!(budget.admit_after_read(ImageLoad::Loaded(MAX_NATIVE_IMAGE_TOTAL_BYTES - 10)));
    assert!(!budget.admit_after_read(ImageLoad::Loaded(11)));
    assert!(budget.admit_after_read(ImageLoad::Loaded(10)));
    assert!(!budget.admit_after_read(ImageLoad::Unreadable));
    assert!(!budget.admit_after_read(ImageLoad::TooLarge));
    assert_eq!(budget.bytes, MAX_NATIVE_IMAGE_TOTAL_BYTES);
    assert_eq!(
        budget.warnings,
        vec![IMAGE_SIZE_WARNING.to_string(), UNREADABLE_IMAGE_WARNING.to_string(), IMAGE_SIZE_WARNING.to_string()]
    );
}

#[test]
fn at_most_eight_warnings_are_reported() {
    let mut budget = ImageBudget::new();
    for _ in 0..12 {
        assert!(!budget.admit_before_read("image/gif", false));
    }
    assert_eq!(budget.into_warnings().len(), MAX_IMAGE_WARNINGS);
}

#[test]
fn images_join_the_text_of_the_message_they_belong_to() {
    let message = ChatMessage::text("user", "look at this");
    let same = with_images(message.clone(), Vec::new());
    assert_eq!(same.content, "look at this");
    assert!(same.parts.is_empty());
    let image = ContentPart::Image { mime_type: "image/png".to_string(), data_base64: "AAAA".to_string() };
    let combined = with_images(message, vec![image.clone()]);
    assert_eq!(combined.role, "user");
    assert_eq!(combined.content, "look at this");
    assert_eq!(combined.parts, vec![ContentPart::Text { text: "look at this".to_string() }, image]);
}
