use pico_autofill::text::{AutofillText, MAX_TEXT_LEN};

#[test]
fn text_should_trim_editor_line_endings() {
    let text = AutofillText::from_file_bytes(b"correct horse\r\n");
    assert_eq!(text.as_bytes(), b"correct horse");
}

#[test]
fn text_should_truncate_at_fifty_printable_ascii_bytes() {
    let text = AutofillText::from_file_bytes(
        b"12345678901234567890123456789012345678901234567890EXTRA",
    );
    assert_eq!(text.len(), MAX_TEXT_LEN);
}

#[test]
fn text_should_drop_unsupported_bytes() {
    let text = AutofillText::from_file_bytes(b"a\t\xffb");
    assert_eq!(text.as_bytes(), b"ab");
}

#[test]
fn text_stops_at_the_first_nul() {
    let text = AutofillText::from_file_bytes(b"abc\0def");
    assert_eq!(text.as_bytes(), b"abc");
}

#[test]
fn text_keeps_inner_line_endings_out_but_trims_only_trailing() {
    let text = AutofillText::from_file_bytes(b"a\r\nb\n\n\r");
    assert_eq!(text.as_bytes(), b"ab");
}

#[test]
fn text_truncation_counts_printable_bytes_only() {
    let mut input = Vec::new();
    for _ in 0..60 {
        input.push(b'x');
        input.push(b'\t');
    }
    let text = AutofillText::from_file_bytes(&input);
    assert_eq!(text.as_bytes(), &[b'x'; MAX_TEXT_LEN][..]);
}

#[test]
fn empty_text_is_empty() {
    let text = AutofillText::empty();
    assert!(text.is_empty());
    assert_eq!(text.len(), 0);
    assert_eq!(text.as_bytes(), b"");
    assert_eq!(AutofillText::default(), text);
    assert!(!AutofillText::from_file_bytes(b"a").is_empty());
}

#[test]
fn texts_with_same_bytes_are_equal() {
    let a = AutofillText::from_file_bytes(b"same\r\n");
    let b = AutofillText::from_file_bytes(b"\x01same");
    assert_eq!(a, b);
    assert_eq!(a.clone(), b);
}
