use cargo_boj::datastore::Cookies;
use cargo_boj::submit::{
    classify_class, cookie_header, is_login_redirect, judge_finished, solution_from_ids,
    solution_from_page, status_from_classes, status_from_page, status_selector, submit_form,
    submit_form_from_page, submit_page_url, submitted_message,
};

#[test]
fn classify_each_result_class() {
    let cases = [
        ("result-wait", "Pending"),
        ("result-compile", "Compiling"),
        ("result-judging", "Judging"),
        ("result-ac", "Accepted"),
        ("result-pac", "Partially Accepted"),
        ("result-pe", "Presentation Error"),
        ("result-wa", "Wrong Answer"),
        ("result-tle", "Time Limit Exceeded"),
        ("result-mle", "Memory Limit Exceeded"),
        ("result-ole", "Output Limit Exceeded"),
        ("result-rte", "Runtime Error"),
        ("result-ce", "Compilation Error"),
        ("result-co", "Cannot Judge"),
    ];
    for (class, verdict) in cases {
        assert_eq!(classify_class(&["result-text", class]), verdict);
    }
    assert_eq!(classify_class(&["result-text"]), "Unknown Error");
    assert_eq!(classify_class(&[]), "Unknown Error");
}

#[test]
fn classify_follows_precedence() {
    assert_eq!(classify_class(&["result-ac", "result-wait"]), "Pending");
    assert_eq!(classify_class(&["result-wa", "result-ac"]), "Accepted");
}

#[test]
fn judging_ends_after_pending_states() {
    assert!(!judge_finished("Pending"));
    assert!(!judge_finished("Compiling"));
    assert!(!judge_finished("Judging"));
    assert!(judge_finished("Accepted"));
    assert!(judge_finished("Unknown Error"));
    assert!(!judge_finished(classify_class(&["result-judging"])));
    assert!(judge_finished(classify_class(&["result-tle"])));
}

#[test]
fn cookie_header_holds_both_cookies() {
    let c = Cookies { onlinejudge: "OJ".to_string(), bojautologin: "AUTO".to_string() };
    assert_eq!(
        cookie_header(&c),
        "bojautologin=AUTO; domain=.acmicpc.net, OnlineJudge=OJ; domain=.acmicpc.net"
    );
}

#[test]
fn submit_page_and_login_redirect() {
    assert_eq!(submit_page_url("1000"), "https://www.acmicpc.net/submit/1000");
    assert!(is_login_redirect("https://www.acmicpc.net/login?next=%2Fsubmit%2F1000"));
    assert!(!is_login_redirect("https://www.acmicpc.net/submit/1000"));
}

#[test]
fn submit_form_uses_page_values() {
    let form = submit_form("1000", 113, None, "fn main(){}", &vec![Some("open".to_string())], &vec![Some("KEY".to_string())]).unwrap();
    let expect: Vec<(String, String)> = [
        ("problem_id", "1000"),
        ("language", "113"),
        ("code_open", "open"),
        ("source", "fn main(){}"),
        ("csrf_key", "KEY"),
    ].iter().map(|(a, b)| (a.to_string(), b.to_string())).collect();
    assert_eq!(form, expect);
}

#[test]
fn submit_form_prefers_the_users_choice() {
    let form = submit_form("7", 0, Some("close".to_string()), "", &vec![Some("open".to_string())], &vec![Some("K".to_string())]).unwrap();
    assert_eq!(form[1].1, "0");
    assert_eq!(form[2].1, "close");
}

#[test]
fn submit_form_needs_both_page_values() {
    assert!(submit_form("1", 1, None, "", &vec![], &vec![Some("K".to_string())]).is_none());
    assert!(submit_form("1", 1, Some("open".to_string()), "", &vec![None], &vec![Some("K".to_string())]).is_none());
    assert!(submit_form("1", 1, None, "", &vec![Some("open".to_string())], &vec![]).is_none());
    assert!(submit_form("1", 1, None, "", &vec![Some("open".to_string())], &vec![None]).is_none());
}

const SUBMIT_PAGE: &str = r#"<html><body><form>
<input type="radio" name="code_open" value="open">
<input type="radio" name="code_open" value="onlyaccepted" checked>
<input type="hidden" name="csrf_key" value="abc123">
</form></body></html>"#;

#[test]
fn submit_form_from_a_submit_page() {
    let form = submit_form_from_page(SUBMIT_PAGE, "1000", 113, None, "src").unwrap();
    assert_eq!(form[2], ("code_open".to_string(), "onlyaccepted".to_string()));
    assert_eq!(form[4], ("csrf_key".to_string(), "abc123".to_string()));
    assert!(submit_form_from_page("<html></html>", "1000", 113, None, "src").is_none());
}

#[test]
fn solution_from_row_ids() {
    let s = solution_from_ids(&vec![Some("solution-12345".to_string()), Some("solution-1".to_string())]).unwrap();
    assert_eq!(s.row_id, "solution-12345");
    assert_eq!(s.number, "12345");
    let s = solution_from_ids(&vec![Some("a-b-c".to_string())]).unwrap();
    assert_eq!(s.number, "b");
    assert!(solution_from_ids(&vec![]).is_none());
    assert!(solution_from_ids(&vec![None]).is_none());
    assert!(solution_from_ids(&vec![Some("nodash".to_string())]).is_none());
}

const STATUS_PAGE: &str = r#"<html><body><table><tbody>
<tr id="solution-777"><td class="result"><span class="result-text result-ac">맞았습니다!!</span></td></tr>
<tr id="solution-776"><td class="result"><span class="result-text result-wa">틀렸습니다</span></td></tr>
</tbody></table></body></html>"#;

#[test]
fn solution_and_status_from_a_status_page() {
    let s = solution_from_page(STATUS_PAGE).unwrap();
    assert_eq!(s.row_id, "solution-777");
    assert_eq!(s.number, "777");
    assert_eq!(status_from_page(STATUS_PAGE, "solution-777"), Some("Accepted"));
    assert_eq!(status_from_page(STATUS_PAGE, "solution-776"), Some("Wrong Answer"));
    assert_eq!(status_from_page(STATUS_PAGE, "solution-1"), None);
    assert!(solution_from_page("<p>no table</p>").is_none());
}

#[test]
fn status_from_class_lists() {
    assert_eq!(status_from_classes(&vec![vec!["result-wait".to_string()]]), Some("Pending"));
    assert_eq!(status_from_classes(&vec![]), None);
}

#[test]
fn status_selector_and_message() {
    assert_eq!(status_selector("solution-9"), "#solution-9 td.result span.result-text");
    assert_eq!(
        submitted_message("9", "https://www.acmicpc.net/status"),
        "Submit successful (sol ID 9). Status page: https://www.acmicpc.net/status"
    );
}

#[test]
fn contest_problems_are_submitted_to_the_contest_page() {
    assert_eq!(submit_page_url("963/1"), "https://www.acmicpc.net/contest/submit/963/1");
}
