use cargo_boj::cli::{code_open_choice, language_or_default, source_paths};
use cargo_boj::optparse::{CodeOpen, ParseError};

#[test]
fn code_open_choices_parse() {
    assert_eq!(CodeOpen::parse("y"), Ok(CodeOpen::Yes));
    assert_eq!(CodeOpen::parse("n"), Ok(CodeOpen::No));
    assert_eq!(CodeOpen::parse("ac"), Ok(CodeOpen::YesOnAc));
    assert_eq!(CodeOpen::parse("yes"), Err(ParseError));
    assert_eq!(CodeOpen::parse(""), Err(ParseError));
    assert_eq!("ac".parse::<CodeOpen>(), Ok(CodeOpen::YesOnAc));
    assert_eq!("Y".parse::<CodeOpen>(), Err(ParseError));
}

#[test]
fn code_open_form_values() {
    assert_eq!(CodeOpen::Yes.to_string(), "open");
    assert_eq!(CodeOpen::No.to_string(), "close");
    assert_eq!(CodeOpen::YesOnAc.to_string(), "onlyaccepted");
}

#[test]
fn parse_error_texts() {
    assert_eq!(ParseError.message(), "provided string was not `y`, `n`, or `ac`");
    assert_eq!(ParseError.description(), "failed to parse code-open");
}

#[test]
fn submit_defaults() {
    assert_eq!(language_or_default(None), 113);
    assert_eq!(language_or_default(Some(94)), 94);
    assert_eq!(source_paths(&None), vec!["src/main.rs".to_string(), "src/bin/main.rs".to_string()]);
    assert_eq!(source_paths(&Some("a.rs".to_string())), vec!["a.rs".to_string()]);
    assert_eq!(code_open_choice(Some(CodeOpen::No)), Some("close".to_string()));
    assert_eq!(code_open_choice(None), None);
}
