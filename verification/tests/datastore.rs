use cargo_boj::datastore::{cache_path, is_contest_problem, problem_url, use_cached, Cookies, Credentials, ProblemData};

#[test]
fn problem_urls() {
    assert_eq!(problem_url("1000"), "https://www.acmicpc.net/problem/1000");
    assert_eq!(problem_url("963/1"), "https://www.acmicpc.net/contest/problem/963/1");
    assert!(is_contest_problem("963/1"));
    assert!(!is_contest_problem("1000"));
}

#[test]
fn cache_paths() {
    assert_eq!(cache_path("1000"), "1000");
    assert_eq!(cache_path("963/1"), "contest/963/1");
}

#[test]
fn cache_is_used_unless_refreshed() {
    assert!(use_cached(true, false));
    assert!(!use_cached(true, true));
    assert!(!use_cached(false, false));
}

fn strings(v: &[&str]) -> Vec<String> {
    v.iter().map(|s| s.to_string()).collect()
}

#[test]
fn samples_are_paired() {
    let d = ProblemData::from_matches(false, false, &strings(&["1 2", "3", "4 5", "9"])).unwrap();
    assert!(!d.spj);
    assert_eq!(d.testcases, vec![("1 2".to_string(), "3".to_string()), ("4 5".to_string(), "9".to_string())]);
}

#[test]
fn odd_sample_count_is_refused() {
    assert!(ProblemData::from_matches(true, false, &strings(&["1", "2", "3"])).is_none());
}

#[test]
fn unrunnable_samples_give_no_cases() {
    let d = ProblemData::from_matches(true, true, &strings(&["1", "2", "3"])).unwrap();
    assert!(d.spj);
    assert!(d.testcases.is_empty());
}

const PROBLEM_PAGE: &str = r#"<html><body>
<span class="problem-label problem-label-spj">스페셜 저지</span>
<pre class="sampledata" id="sample-input-1">1 2
</pre>
<pre class="sampledata" id="sample-output-1">3
</pre>
</body></html>"#;

#[test]
fn problem_page_is_read() {
    let d = ProblemData::from_problem_page(PROBLEM_PAGE).unwrap();
    assert!(d.spj);
    assert_eq!(d.testcases, vec![("1 2\n".to_string(), "3\n".to_string())]);
    let plain = ProblemData::from_problem_page("<pre class=\"sampledata\">x</pre><pre class=\"sampledata\">y</pre>").unwrap();
    assert!(!plain.spj);
    assert_eq!(plain.testcases.len(), 1);
    let interactive = ProblemData::from_problem_page("<span class=\"problem-label-interactive\"></span><pre class=\"sampledata\">x</pre>").unwrap();
    assert!(interactive.testcases.is_empty());
}

#[test]
fn credentials_updates() {
    let mut c = Credentials::default();
    assert!(c.id.is_none() && c.cookies.is_none());
    c.update_id("alice");
    assert_eq!(c.id.as_deref(), Some("alice"));
    let k = Cookies { onlinejudge: "o".to_string(), bojautologin: "b".to_string() };
    c.update_cookie(&k);
    assert_eq!(c.id.as_deref(), Some("alice"));
    let got = c.cookies.as_ref().unwrap();
    assert_eq!(got.onlinejudge, "o");
    assert_eq!(got.bojautologin, "b");
    let d = k.duplicate();
    assert_eq!(d.onlinejudge, "o");
    c.remove();
    assert!(c.id.is_none() && c.cookies.is_none());
}
