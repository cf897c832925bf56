use not_news::audio::speech::{clean_spoken_text, truncate_spoken_text};
use not_news::domain::curation::{normalize_predicate, CurationCommandError, MAX_PREDICATE_CHARS};

#[test]
fn predicate_normalization_is_bounded_without_flattening_case() {
    assert_eq!(
        normalize_predicate("  Supports — with   evidence ").unwrap(),
        "Supports - with evidence"
    );
    assert!(matches!(
        normalize_predicate("has\na newline"),
        Err(CurationCommandError::ControlCharacter)
    ));
    assert!(matches!(
        normalize_predicate(&"x".repeat(MAX_PREDICATE_CHARS + 1)),
        Err(CurationCommandError::PredicateTooLong)
    ));
}

#[test]
fn voice_text_is_cleaned_and_shortened_on_unicode_boundaries() {
    let cleaned = clean_spoken_text(
        "**Done**: see [the source](https://example.test/a) and `code` https://discard.test",
    );
    assert_eq!(cleaned, "Done : see the source and code");
    let shortened = truncate_spoken_text(
        "I found a useful source about the release and I am checking whether it changes the canvas relationships.",
        64,
    );
    assert!(shortened.chars().count() <= 64);
    assert!(shortened.ends_with('.'));
}
