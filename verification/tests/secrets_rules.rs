use not_news::agent::runner::{agent_text, research_line, stderr_diagnostic};
use not_news::agent::secrets::{redact_ambient, SecretFilter};
use not_news::encoding::{hex_encode, percent_encode};

#[test]
fn every_echo_form_of_a_secret_is_redacted() {
    let mut filter = SecretFilter::new();
    filter.extend(vec!["s3cr3t-vault-key".to_owned(), "short".to_owned()]);
    let secret = "s3cr3t-vault-key";
    for echo in [
        secret.to_owned(),
        "czNjcjN0LXZhdWx0LWtleQ==".to_owned(),
        "czNjcjN0LXZhdWx0LWtleQ".to_owned(),
        hex_encode(secret.as_bytes(), false),
        hex_encode(secret.as_bytes(), true),
        percent_encode(secret.as_bytes()),
    ] {
        assert_eq!(filter.sanitize(&format!("x {echo} y")), "x <redacted> y", "{echo}");
    }
    assert_eq!(filter.sanitize("short stays"), "short stays");
}

#[test]
fn encodings_match_their_definitions() {
    assert_eq!(hex_encode(&[0x00, 0xab, 0x7f], false), "00ab7f");
    assert_eq!(hex_encode(&[0x00, 0xab, 0x7f], true), "00AB7F");
    assert_eq!(percent_encode(b"a b/~"), "a%20b%2F~");
}

#[test]
fn longer_patterns_are_redacted_before_shorter_ones_inside_them() {
    let mut filter = SecretFilter::new();
    filter.extend(vec!["password".to_owned(), "password-extended".to_owned()]);
    assert_eq!(filter.sanitize("password-extended"), "<redacted>");
}

#[test]
fn ambient_credentials_are_redacted_and_text_bounded() {
    let environment = vec![
        ("EXA_API_KEY".to_owned(), "exa-secret-value".to_owned()),
        ("Github_Token".to_owned(), "ghp-123456789".to_owned()),
        ("PATH".to_owned(), "/usr/local/bin".to_owned()),
        ("SECRET".to_owned(), "tiny".to_owned()),
    ];
    assert_eq!(
        redact_ambient("exa-secret-value ghp-123456789 /usr/local/bin tiny", 100, &environment),
        "<redacted> <redacted> /usr/local/bin tiny"
    );
    assert_eq!(redact_ambient("abcdef", 3, &environment), "abc…");
}

#[test]
fn research_output_lines_are_cleaned_and_diagnostics_bounded() {
    assert_eq!(research_line(b"  \x1b[31mred\x1b[0m text\r "), "31mred0m text");
    assert_eq!(research_line(b"\x1b]title\x07 done"), "title done");
    assert_eq!(research_line(&[0x66, 0xff, 0x6f]), "f\u{fffd}o");
    let filter = SecretFilter::new();
    let environment = Vec::new();
    let mut reported = 0u8;
    assert_eq!(stderr_diagnostic("plain warning", true, &mut reported, &filter, &environment), None);
    assert_eq!(
        stderr_diagnostic("Traceback (most recent call last)", true, &mut reported, &filter, &environment),
        Some("Traceback (most recent call last)".to_owned())
    );
    for _ in 0..5 {
        stderr_diagnostic("[ERROR] again", true, &mut reported, &filter, &environment);
    }
    assert_eq!(reported, 4);
    let mut lines = 0u8;
    assert!(stderr_diagnostic("anything", false, &mut lines, &filter, &environment).is_some());
    assert_eq!(agent_text("plain", &filter), "plain");
}
