use not_news::agent::runner::ResearchTermination;
use not_news::input::{
    append_bounded_predicate, append_bounded_secret, append_bounded_text, masked_secret, menu_row_from_key,
    menu_text, remove_last_grapheme, termination_message, MAX_RESEARCH_BYTES, MAX_RESEARCH_CHARS,
};

#[test]
fn composer_fields_bound_unicode_without_splitting_graphemes() {
    let mut input = String::from("A👨‍👩‍👧‍👦e\u{301}");
    remove_last_grapheme(&mut input);
    assert_eq!(input, "A👨‍👩‍👧‍👦");
    remove_last_grapheme(&mut input);
    assert_eq!(input, "A");
    remove_last_grapheme(&mut input);
    assert_eq!(input, "");
    remove_last_grapheme(&mut input);
    assert_eq!(input, "");

    let mut bounded = String::new();
    append_bounded_text(&mut bounded, &format!("{}\nignored\0", "界".repeat(6_000)));
    assert_eq!(bounded.chars().count(), MAX_RESEARCH_CHARS);
    assert!(bounded.len() <= MAX_RESEARCH_BYTES);
    assert!(!bounded.contains('\0'));
}

#[test]
fn line_breaks_become_spaces_and_control_characters_vanish() {
    let mut input = String::from("a");
    append_bounded_text(&mut input, "b\tc\nd\u{7}e");
    assert_eq!(input, "ab c de");
    let mut predicate = String::new();
    append_bounded_predicate(&mut predicate, &"p".repeat(200));
    assert_eq!(predicate.len(), 96);
    let mut secret = String::new();
    append_bounded_secret(&mut secret, " gsk 12\t34\n ");
    assert_eq!(secret, "gsk1234");
}

#[test]
fn secrets_are_masked_per_grapheme() {
    assert_eq!(masked_secret("abc"), "●●●");
    assert_eq!(masked_secret(""), "");
    assert_eq!(masked_secret(&"x".repeat(40)), format!("{}…", "●".repeat(32)));
    assert_eq!(masked_secret("e\u{301}"), "●");
}

#[test]
fn menu_labels_and_digit_keys() {
    assert_eq!(menu_text("short", 22), "short");
    assert_eq!(menu_text("abcdef", 4), "abc…");
    assert_eq!(menu_text("abc", 0), "…");
    assert_eq!(menu_row_from_key("1"), Some(0));
    assert_eq!(menu_row_from_key("9"), Some(8));
    assert_eq!(menu_row_from_key("0"), None);
    assert_eq!(menu_row_from_key("12"), None);
    assert_eq!(menu_row_from_key("١"), None);
}

#[test]
fn terminations_are_reported_in_words() {
    assert_eq!(termination_message(&ResearchTermination::Completed), "Research completed.");
    assert_eq!(
        termination_message(&ResearchTermination::ExitFailure(Some(-3))),
        "Research backend exited with status -3."
    );
    assert_eq!(
        termination_message(&ResearchTermination::ExitFailure(None)),
        "Research backend exited unsuccessfully."
    );
    assert_eq!(
        termination_message(&ResearchTermination::IoFailure("pipe closed".into())),
        "Research process communication failed: pipe closed"
    );
    assert_eq!(
        termination_message(&ResearchTermination::IdleTimedOut),
        "Research backend stopped producing output and was terminated."
    );
}
