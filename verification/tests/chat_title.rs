use backend::chat_title::{accept_title, direct_title_eligible as eligible, title_prompt, excerpt, sanitize_title, strip_title_label, strip_wrapping_quotes, MAX_TITLE_CHARS};

#[test]
fn strips_ascii_and_cjk_wrapping_quotes() {
    assert_eq!(sanitize_title("\"Rust ownership\""), "Rust ownership");
    assert_eq!(
        sanitize_title("\u{201c}\u{9519}\u{8bef}\u{5904}\u{7406}\u{201d}"),
        "\u{9519}\u{8bef}\u{5904}\u{7406}"
    );
    assert_eq!(
        sanitize_title("\u{300c}\u{6240}\u{6709}\u{6743}\u{300d}"),
        "\u{6240}\u{6709}\u{6743}"
    );
}

#[test]
fn strips_title_labels_in_both_languages() {
    assert_eq!(sanitize_title("Title: Debugging async"), "Debugging async");
    assert_eq!(
        sanitize_title("\u{6807}\u{9898}\u{ff1a}\u{5f02}\u{6b65}\u{8c03}\u{8bd5}"),
        "\u{5f02}\u{6b65}\u{8c03}\u{8bd5}"
    );
}

#[test]
fn strips_a_nested_label_inside_quotes() {
    assert_eq!(sanitize_title("\"Title: weekly notes\""), "weekly notes");
}

#[test]
fn collapses_newlines_and_repeated_spaces() {
    assert_eq!(sanitize_title("Line one\n\nline  two\tthree"), "Line one line two three");
}

#[test]
fn caps_by_characters_not_bytes() {
    let cjk: String = "\u{6d4b}".repeat(80);
    assert_eq!(sanitize_title(&cjk).chars().count(), MAX_TITLE_CHARS);
    let latin: String = "a".repeat(80);
    assert_eq!(sanitize_title(&latin).chars().count(), MAX_TITLE_CHARS);
}

#[test]
fn empty_and_blank_answers_yield_empty_titles() {
    assert_eq!(sanitize_title(""), "");
    assert_eq!(sanitize_title("   \n  "), "");
    assert_eq!(sanitize_title("\"\""), "");
}

#[test]
fn excerpts_normalize_space_and_cap_length() {
    assert_eq!(excerpt("  hello   world  ", 20), "hello world");
    assert_eq!(excerpt("abcdef", 3).chars().count(), 3);
}

#[test]
fn a_title_is_never_longer_than_the_cap() {
    let long = format!("\"Title: {}\"", "word ".repeat(40));
    let title = sanitize_title(&long);
    assert!(title.chars().count() <= MAX_TITLE_CHARS);
    assert!(title.starts_with("word word"));
    assert!(!title.ends_with(' '));
}

#[test]
fn quotes_are_peeled_only_in_matching_pairs() {
    let chars: Vec<char> = "\"half".chars().collect();
    assert_eq!(strip_wrapping_quotes(&chars), chars);
    let paired: Vec<char> = "'x'".chars().collect();
    assert_eq!(strip_wrapping_quotes(&paired), vec!['x']);
    let mismatched: Vec<char> = "\"x'".chars().collect();
    assert_eq!(strip_wrapping_quotes(&mismatched), mismatched);
}

#[test]
fn a_label_is_peeled_in_either_case_and_with_either_colon() {
    let lower: Vec<char> = "title:  notes".chars().collect();
    assert_eq!(strip_title_label(&lower).iter().collect::<String>(), "notes");
    let unlabelled: Vec<char> = "Titles: notes".chars().collect();
    assert_eq!(strip_title_label(&unlabelled), unlabelled);
}

#[test]
fn only_a_fresh_direct_chat_with_an_owned_provider_backed_agent_is_named() {
    assert!(eligible("automatic", Some("agent"), 1, Some("hello"), Some("me"), "me", true));
    assert!(!eligible("manual", Some("agent"), 1, Some("hello"), Some("me"), "me", true));
    assert!(!eligible("automatic", None, 1, Some("hello"), Some("me"), "me", true));
    assert!(!eligible("automatic", Some("agent"), 2, Some("hello"), Some("me"), "me", true));
    assert!(!eligible("automatic", Some("agent"), 1, Some("   "), Some("me"), "me", true));
    assert!(!eligible("automatic", Some("agent"), 1, None, Some("me"), "me", true));
    assert!(!eligible("automatic", Some("agent"), 1, Some("hello"), Some("other"), "me", true));
    assert!(!eligible("automatic", Some("agent"), 1, Some("hello"), None, "me", true));
    assert!(!eligible("automatic", Some("agent"), 1, Some("hello"), Some("me"), "me", false));
}

#[test]
fn a_blank_answer_gives_no_title_and_the_prompt_quotes_one_line() {
    assert_eq!(accept_title("  Title: \"Trip plan\" "), Some("Trip plan".to_string()));
    assert_eq!(accept_title("  \"\"  "), None);
    assert_eq!(title_prompt("fix\n the   bug"), "First user message:\nfix the bug");
}
