use cargo_boj::normalize::{is_whitespace, normalize_output};

#[test]
fn trailing_spaces_on_lines_are_dropped() {
    assert_eq!(normalize_output("1 2 \n3\t\n"), "1 2\n3");
}

#[test]
fn crlf_line_endings_are_dropped() {
    assert_eq!(normalize_output("a\r\nb\r\n"), "a\nb");
}

#[test]
fn empty_and_blank_outputs_normalize_to_empty() {
    assert_eq!(normalize_output(""), "");
    assert_eq!(normalize_output(" \n\t\r\n  "), "");
}

#[test]
fn inner_blank_lines_are_kept() {
    assert_eq!(normalize_output("a\n\n  \nb  \n\n"), "a\n\n\nb");
}

#[test]
fn leading_whitespace_is_kept() {
    assert_eq!(normalize_output("  x\n y"), "  x\n y");
}

#[test]
fn unicode_whitespace_is_trimmed() {
    assert_eq!(normalize_output("x\u{3000}\u{A0}\ny\u{2003}"), "x\ny");
    assert!(is_whitespace('\u{85}'));
    assert!(!is_whitespace('\u{200B}'));
}

#[test]
fn normalization_is_idempotent_on_examples() {
    for s in ["", "a \n b\t\n\n", "x\r\n\r\ny  ", "\n\n\n", "1 2 3"] {
        let once = normalize_output(s);
        assert_eq!(normalize_output(&once), once);
    }
}

#[test]
fn trailing_whitespace_does_not_change_the_form() {
    assert_eq!(normalize_output("ab\ncd"), normalize_output("ab\ncd \n\t \r\n"));
}

#[test]
fn crlf_and_line_end_spaces_give_the_same_form() {
    assert_eq!(normalize_output("a\nb c\n"), normalize_output("a \r\nb c\t\r\n\r\n\n"));
    assert_eq!(normalize_output("x\r"), "x");
}
