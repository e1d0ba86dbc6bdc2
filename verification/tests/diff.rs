use cargo_boj::diff::{case_verdict, change_sign, compare_outputs, format_elapsed, CaseVerdict, LineTag};

#[test]
fn equal_outputs_pass() {
    let c = compare_outputs("3\n", "3");
    assert!(!c.failed);
    assert!(c.changes.iter().all(|x| x.tag == LineTag::Equal));
}

#[test]
fn outputs_equal_up_to_trailing_whitespace_pass() {
    let c = compare_outputs("1 2  \r\n3 \n\n", "1 2\n3\n");
    assert!(!c.failed);
}

#[test]
fn different_outputs_fail_with_a_diff() {
    let c = compare_outputs("1\n2\n", "1\n3\n");
    assert!(c.failed);
    let tags: Vec<LineTag> = c.changes.iter().map(|x| x.tag).collect();
    assert!(tags.contains(&LineTag::Delete));
    assert!(tags.contains(&LineTag::Insert));
    let deleted: Vec<&str> = c.changes.iter().filter(|x| x.tag == LineTag::Delete).map(|x| x.text.as_str()).collect();
    assert_eq!(deleted, vec!["2\n"]);
}

#[test]
fn missing_line_fails() {
    let c = compare_outputs("1", "1\n2");
    assert!(c.failed);
}

#[test]
fn verdicts_of_a_case() {
    assert_eq!(case_verdict(false, false, false), CaseVerdict::Passed);
    assert_eq!(case_verdict(true, false, false), CaseVerdict::Passed);
    assert_eq!(case_verdict(false, true, false), CaseVerdict::Failed);
    assert_eq!(case_verdict(true, true, false), CaseVerdict::FailedLenient);
    assert_eq!(case_verdict(false, false, true), CaseVerdict::Failed);
    assert_eq!(case_verdict(true, false, true), CaseVerdict::FailedLenient);
}

#[test]
fn signs_of_changes() {
    assert_eq!(change_sign(LineTag::Delete), "-");
    assert_eq!(change_sign(LineTag::Insert), "+");
    assert_eq!(change_sign(LineTag::Equal), " ");
}

#[test]
fn elapsed_time_is_shown_with_six_decimals() {
    assert_eq!(format_elapsed(0), "0.000000");
    assert_eq!(format_elapsed(5), "0.000005");
    assert_eq!(format_elapsed(1_234_567), "1.234567");
    assert_eq!(format_elapsed(12_000_000), "12.000000");
    assert_eq!(format_elapsed(999_999), "0.999999");
}

#[test]
fn line_trailing_whitespace_and_crlf_do_not_change_the_verdict() {
    let plain = compare_outputs("1 2\n3\n", "1 2\n3\n");
    let noisy = compare_outputs("1 2 \t\r\n3\r\n\n\n", "1 2\r\n3  \n \n");
    assert_eq!(plain.failed, noisy.failed);
    assert!(!noisy.failed);
    let wrong = compare_outputs("1 2\n4\n", "1 2\n3\n");
    let wrong_noisy = compare_outputs("1 2  \r\n4\t\n\n", "1 2\r\n3\r\n");
    assert!(wrong.failed && wrong_noisy.failed);
}
