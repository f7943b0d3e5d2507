use open_audit::subject::text::{new, TextError, MAX_TEXT_BYTES};

#[test]
fn rejects_empty_content() {
    let err = new("stdin", "").unwrap_err();
    assert!(err.message().contains("no input on stdin"));
}

#[test]
fn rejects_empty_label() {
    let err = new("", "hello").unwrap_err();
    assert!(err.message().contains("--label cannot be empty"));
}

#[test]
fn rejects_oversize_content() {
    let big = "x".repeat(MAX_TEXT_BYTES + 1);
    let err = new("stdin", &big).unwrap_err();
    assert!(err.message().contains("over the"), "got: {}", err.message());
}

#[test]
fn accepts_valid_input() {
    let t = new("stdin", "audit me").unwrap();
    assert_eq!(t.label, "stdin");
    assert_eq!(t.content, "audit me");
}

#[test]
fn oversize_message_states_both_sizes() {
    let big = "x".repeat(MAX_TEXT_BYTES + 1);
    let err = new("stdin", &big).unwrap_err();
    assert_eq!(err, TextError::TooLarge { len: 262145 });
    assert_eq!(
        err.message(),
        "stdin input is 262145 bytes \u{2014} over the 262144 byte limit. Audit smaller chunks."
    );
}

#[test]
fn size_limit_counts_utf8_bytes() {
    // 131073 two-byte characters: 262146 bytes, over the limit.
    let wide = "\u{e9}".repeat(131073);
    assert!(matches!(new("stdin", &wide), Err(TextError::TooLarge { len: 262146 })));
    // Exactly at the limit is accepted.
    let exact = "x".repeat(MAX_TEXT_BYTES);
    assert!(new("stdin", &exact).is_ok());
}

#[test]
fn empty_label_is_checked_before_content() {
    assert_eq!(new("", "").unwrap_err(), TextError::EmptyLabel);
}

#[test]
fn text_limit_is_the_file_limit() {
    assert_eq!(MAX_TEXT_BYTES as u64, open_audit::evidence::MAX_FILE_BYTES);
}
