//! Submitting a solution: the request that is sent, what is read back from
//! the judge's pages, and how a submission's status is told.
use vstd::prelude::*;

use crate::datastore::{is_contest_problem, is_contest_problem_spec, Cookies};
use crate::html::{
    html_select_attrs, html_select_classes, html_select_ids, opt_strings_view, select_attrs,
    select_classes, select_ids, strings_view, nested_strings_view,
};
use crate::text::{
    digits_value, is_digit, law_decimal_reads_back, concat, contains_seq, contains_str, decimal, push_decimal, second_piece, second_piece_of,
    str_eq,
};

verus! {

/// The views of a list of string slices.
pub open spec fn strs_view(v: Seq<&str>) -> Seq<Seq<char>> {
    v.map_values(|s: &str| s@)
}

/// The status shown for a submission whose status element has `classes`.
pub open spec fn classify_spec(classes: Seq<Seq<char>>) -> Seq<char> {
    if classes.contains("result-wait"@) {
        "Pending"@
    } else if classes.contains("result-compile"@) {
        "Compiling"@
    } else if classes.contains("result-judging"@) {
        "Judging"@
    } else if classes.contains("result-ac"@) {
        "Accepted"@
    } else if classes.contains("result-pac"@) {
        "Partially Accepted"@
    } else if classes.contains("result-pe"@) {
        "Presentation Error"@
    } else if classes.contains("result-wa"@) {
        "Wrong Answer"@
    } else if classes.contains("result-tle"@) {
        "Time Limit Exceeded"@
    } else if classes.contains("result-mle"@) {
        "Memory Limit Exceeded"@
    } else if classes.contains("result-ole"@) {
        "Output Limit Exceeded"@
    } else if classes.contains("result-rte"@) {
        "Runtime Error"@
    } else if classes.contains("result-ce"@) {
        "Compilation Error"@
    } else if classes.contains("result-co"@) {
        "Cannot Judge"@
    } else {
        "Unknown Error"@
    }
}

/// Whether judging has ended once a submission shows `verdict`.
pub open spec fn judge_finished_spec(verdict: Seq<char>) -> bool {
    !(verdict == "Pending"@ || verdict == "Compiling"@ || verdict == "Judging"@)
}

/// Whether `classes` holds `name`.
fn has_class(classes: &[&str], name: &str) -> (r: bool)
    ensures
        r == strs_view(classes@).contains(name@),
{
    let mut i: usize = 0;
    while i < classes.len()
        invariant
            i <= classes.len(),
            forall|k: int| 0 <= k < i ==> classes@[k]@ != name@,
        decreases classes.len() - i,
    {
        if str_eq(classes[i], name) {
            assert(strs_view(classes@)[i as int] == name@);
            return true;
        }
        i = i + 1;
    }
    assert forall|k: int| 0 <= k < strs_view(classes@).len() implies strs_view(classes@)[k]
        != name@ by {
        assert(strs_view(classes@)[k] == classes@[k]@);
    }
    false
}

/// The status shown for a submission, from the classes of its status
/// element: the first of the known result classes, in a fixed order of
/// precedence, that the element has, or `"Unknown Error"`.
pub fn classify_class(classes: &[&str]) -> (r: &'static str)
    ensures
        r@ == classify_spec(strs_view(classes@)),
{
    if has_class(classes, "result-wait") {
        "Pending"
    } else if has_class(classes, "result-compile") {
        "Compiling"
    } else if has_class(classes, "result-judging") {
        "Judging"
    } else if has_class(classes, "result-ac") {
        "Accepted"
    } else if has_class(classes, "result-pac") {
        "Partially Accepted"
    } else if has_class(classes, "result-pe") {
        "Presentation Error"
    } else if has_class(classes, "result-wa") {
        "Wrong Answer"
    } else if has_class(classes, "result-tle") {
        "Time Limit Exceeded"
    } else if has_class(classes, "result-mle") {
        "Memory Limit Exceeded"
    } else if has_class(classes, "result-ole") {
        "Output Limit Exceeded"
    } else if has_class(classes, "result-rte") {
        "Runtime Error"
    } else if has_class(classes, "result-ce") {
        "Compilation Error"
    } else if has_class(classes, "result-co") {
        "Cannot Judge"
    } else {
        "Unknown Error"
    }
}

/// Whether judging has ended: every status but `Pending`, `Compiling` and
/// `Judging` is final.
pub fn judge_finished(verdict: &str) -> (r: bool)
    ensures
        r == judge_finished_spec(verdict@),
{
    !(str_eq(verdict, "Pending") || str_eq(verdict, "Compiling") || str_eq(verdict, "Judging"))
}

/// Judging of a submission goes on exactly while its status element has
/// one of the classes `result-wait`, `result-compile`, `result-judging`.
pub proof fn law_judging_continues_while_waiting(classes: Seq<Seq<char>>)
    ensures
        !judge_finished_spec(classify_spec(classes)) <==> (classes.contains("result-wait"@)
            || classes.contains("result-compile"@) || classes.contains("result-judging"@)),
{
    reveal_strlit("Pending");
    assert("Pending"@.len() == 7);
    reveal_strlit("Compiling");
    assert("Compiling"@.len() == 9);
    reveal_strlit("Judging");
    assert("Judging"@.len() == 7);
    reveal_strlit("Accepted");
    assert("Accepted"@.len() == 8);
    reveal_strlit("Partially Accepted");
    assert("Partially Accepted"@.len() == 18);
    reveal_strlit("Presentation Error");
    assert("Presentation Error"@.len() == 18);
    reveal_strlit("Wrong Answer");
    assert("Wrong Answer"@.len() == 12);
    reveal_strlit("Time Limit Exceeded");
    assert("Time Limit Exceeded"@.len() == 19);
    reveal_strlit("Memory Limit Exceeded");
    assert("Memory Limit Exceeded"@.len() == 21);
    reveal_strlit("Output Limit Exceeded");
    assert("Output Limit Exceeded"@.len() == 21);
    reveal_strlit("Runtime Error");
    assert("Runtime Error"@.len() == 13);
    reveal_strlit("Compilation Error");
    assert("Compilation Error"@.len() == 17);
    reveal_strlit("Cannot Judge");
    assert("Cannot Judge"@.len() == 12);
    reveal_strlit("Unknown Error");
    assert("Unknown Error"@.len() == 13);
}

/// A submission's status is `"Unknown Error"` exactly when its status
/// element has none of the known result classes.
pub proof fn law_unknown_status_iff_no_known_class(classes: Seq<Seq<char>>)
    ensures
        classify_spec(classes) == "Unknown Error"@ <==> !(classes.contains("result-wait"@) || classes.contains("result-compile"@) || classes.contains("result-judging"@) || classes.contains("result-ac"@) || classes.contains("result-pac"@) || classes.contains("result-pe"@) || classes.contains("result-wa"@) || classes.contains("result-tle"@) || classes.contains("result-mle"@) || classes.contains("result-ole"@) || classes.contains("result-rte"@) || classes.contains("result-ce"@) || classes.contains("result-co"@)),
{
    reveal_strlit("Pending");
    reveal_strlit("Compiling");
    reveal_strlit("Judging");
    reveal_strlit("Accepted");
    reveal_strlit("Partially Accepted");
    reveal_strlit("Presentation Error");
    reveal_strlit("Wrong Answer");
    reveal_strlit("Time Limit Exceeded");
    reveal_strlit("Memory Limit Exceeded");
    reveal_strlit("Output Limit Exceeded");
    reveal_strlit("Runtime Error");
    reveal_strlit("Compilation Error");
    reveal_strlit("Cannot Judge");
    reveal_strlit("Unknown Error");
    assert("Unknown Error"@[0] == 'U');
    assert("Pending"@[0] == 'P');
    assert("Compiling"@[0] == 'C');
    assert("Judging"@[0] == 'J');
    assert("Accepted"@[0] == 'A');
    assert("Partially Accepted"@[0] == 'P');
    assert("Presentation Error"@[0] == 'P');
    assert("Wrong Answer"@[0] == 'W');
    assert("Time Limit Exceeded"@[0] == 'T');
    assert("Memory Limit Exceeded"@[0] == 'M');
    assert("Output Limit Exceeded"@[0] == 'O');
    assert("Runtime Error"@[0] == 'R');
    assert("Compilation Error"@[0] == 'C');
    assert("Cannot Judge"@[0] == 'C');
}

/// The cookie header sent with every request of a submission.
pub open spec fn cookie_header_spec(c: (Seq<char>, Seq<char>)) -> Seq<char> {
    "bojautologin="@ + c.1 + "; domain=.acmicpc.net, OnlineJudge="@ + c.0
        + "; domain=.acmicpc.net"@
}

/// The cookie header sent with every request of a submission:
/// `bojautologin=..; domain=.acmicpc.net, OnlineJudge=..; domain=.acmicpc.net`.
pub fn cookie_header(cookies: &Cookies) -> (r: String)
    ensures
        r@ == cookie_header_spec(cookies@),
{
    let a = concat("bojautologin=", cookies.bojautologin.as_str());
    let b = concat(a.as_str(), "; domain=.acmicpc.net, OnlineJudge=");
    let c = concat(b.as_str(), cookies.onlinejudge.as_str());
    concat(c.as_str(), "; domain=.acmicpc.net")
}

/// The address of the submit page of a problem.
pub open spec fn submit_page_url_spec(problem_id: Seq<char>) -> Seq<char> {
    if is_contest_problem_spec(problem_id) {
        "https://www.acmicpc.net/contest/submit/"@ + problem_id
    } else {
        "https://www.acmicpc.net/submit/"@ + problem_id
    }
}

/// The address of the submit page of a problem: contest problems
/// (`"963/1"`) are submitted under `/contest/submit/`, others under
/// `/submit/`.
pub fn submit_page_url(problem_id: &str) -> (r: String)
    ensures
        r@ == submit_page_url_spec(problem_id@),
{
    if is_contest_problem(problem_id) {
        concat("https://www.acmicpc.net/contest/submit/", problem_id)
    } else {
        concat("https://www.acmicpc.net/submit/", problem_id)
    }
}

/// Whether the submit page answered by sending to the login page, that is,
/// the session is not logged in: its address holds `"login"`.
pub fn is_login_redirect(url: &str) -> (r: bool)
    ensures
        r == contains_seq(url@, "login"@),
{
    contains_str(url, "login")
}

/// The checked code-sharing choice on the submit page.
pub const CODE_OPEN_SELECTOR: &'static str = "input[name=\"code_open\"][checked]";

/// The anti-forgery token field of the submit page.
pub const CSRF_SELECTOR: &'static str = "[name=\"csrf_key\"]";

/// The rows of the status table shown after a submission.
pub const SOLUTION_ROW_SELECTOR: &'static str = "tbody tr";

/// The views of a list of string pairs.
pub open spec fn pairs_view(v: Seq<(String, String)>) -> Seq<(Seq<char>, Seq<char>)> {
    v.map_values(|p: (String, String)| (p.0@, p.1@))
}

/// The form sent to submit a solution, from the values found on the submit
/// page: the first checked code-sharing choice and the first anti-forgery
/// token. Both must be there; the choice given by the user, when there is
/// one, is sent in place of the page's.
pub open spec fn submit_form_spec(
    problem_id: Seq<char>,
    language: nat,
    code_open: Option<Seq<char>>,
    source: Seq<char>,
    page_code_open: Seq<Option<Seq<char>>>,
    page_csrf: Seq<Option<Seq<char>>>,
) -> Option<Seq<(Seq<char>, Seq<char>)>> {
    if page_code_open.len() == 0 || page_code_open[0] is None || page_csrf.len() == 0
        || page_csrf[0] is None {
        None
    } else {
        let chosen = match code_open {
            Some(c) => c,
            None => page_code_open[0]->0,
        };
        Some(
            seq![
                ("problem_id"@, problem_id),
                ("language"@, decimal(language)),
                ("code_open"@, chosen),
                ("source"@, source),
                ("csrf_key"@, page_csrf[0]->0),
            ],
        )
    }
}

/// The submit page of a problem id without `'/'` is `/submit/` followed
/// by the id; an id holding `'/'` (a contest problem) is under
/// `/contest/submit/`.
pub proof fn law_submit_address(problem_id: Seq<char>)
    ensures
        !problem_id.contains('/') ==> submit_page_url_spec(problem_id)
            == "https://www.acmicpc.net/submit/"@ + problem_id,
        problem_id.contains('/') ==> submit_page_url_spec(problem_id)
            == "https://www.acmicpc.net/contest/submit/"@ + problem_id,
{
}

/// The submit form exists exactly when the page shows a first code-sharing
/// choice and a first anti-forgery token. It then has five fields, in
/// order: the problem id as given; the language as decimal digits read as
/// the language number, with no leading zero; the user's code-sharing
/// choice, or the page's when there is none; the source exactly as given;
/// and the page's token.
pub proof fn law_submit_form_fields(
    problem_id: Seq<char>,
    language: nat,
    code_open: Option<Seq<char>>,
    source: Seq<char>,
    page_code_open: Seq<Option<Seq<char>>>,
    page_csrf: Seq<Option<Seq<char>>>,
)
    ensures
        ({
            let r = submit_form_spec(problem_id, language, code_open, source, page_code_open, page_csrf);
            &&& r is Some <==> (page_code_open.len() > 0 && page_code_open[0] is Some
                && page_csrf.len() > 0 && page_csrf[0] is Some)
            &&& r matches Some(f) ==> {
                &&& f.len() == 5
                &&& f[0] == ("problem_id"@, problem_id)
                &&& f[1].0 == "language"@
                &&& f[1].1.len() >= 1
                &&& (forall|i: int| 0 <= i < f[1].1.len() ==> is_digit(#[trigger] f[1].1[i]))
                &&& digits_value(f[1].1) == language
                &&& (f[1].1.len() > 1 ==> f[1].1[0] != '0')
                &&& f[2] == ("code_open"@, match code_open {
                    Some(c) => c,
                    None => page_code_open[0]->0,
                })
                &&& f[3] == ("source"@, source)
                &&& f[4] == ("csrf_key"@, page_csrf[0]->0)
            }
        }),
{
    law_decimal_reads_back(language);
}

/// The view of an optional string.
pub open spec fn opt_view(s: Option<String>) -> Option<Seq<char>> {
    crate::html::opt_string_view(s)
}

/// The view of an optional list of string pairs.
pub open spec fn opt_pairs_view(v: Option<Vec<(String, String)>>) -> Option<
    Seq<(Seq<char>, Seq<char>)>,
> {
    match v {
        Some(x) => Some(pairs_view(x@)),
        None => None,
    }
}

fn first_value(v: &Vec<Option<String>>) -> (r: Option<String>)
    ensures
        match r {
            Some(s) => v@.len() > 0 && opt_strings_view(v@)[0] == Some(s@),
            None => v@.len() == 0 || v@[0] is None,
        },
{
    if v.len() == 0 {
        return None;
    }
    match &v[0] {
        Some(s) => {
            assert(opt_strings_view(v@)[0] == crate::html::opt_string_view(v@[0]));
            Some(s.clone())
        },
        None => None,
    }
}

/// The form sent to submit a solution (see `submit_form_spec`).
pub fn submit_form(
    problem_id: &str,
    language: usize,
    code_open: Option<String>,
    source: &str,
    page_code_open: &Vec<Option<String>>,
    page_csrf: &Vec<Option<String>>,
) -> (r: Option<Vec<(String, String)>>)
    ensures
        opt_pairs_view(r) == submit_form_spec(
            problem_id@,
            language as nat,
            opt_view(code_open),
            source@,
            opt_strings_view(page_code_open@),
            opt_strings_view(page_csrf@),
        ),
{
    let page_choice = match first_value(page_code_open) {
        Some(s) => s,
        None => return None,
    };
    let csrf = match first_value(page_csrf) {
        Some(s) => s,
        None => return None,
    };
    let chosen = match code_open {
        Some(c) => c,
        None => page_choice,
    };
    let mut lang = String::new();
    push_decimal(&mut lang, language as u128);
    let mut form: Vec<(String, String)> = Vec::new();
    form.push(("problem_id".to_owned(), problem_id.to_owned()));
    form.push(("language".to_owned(), lang));
    form.push(("code_open".to_owned(), chosen));
    form.push(("source".to_owned(), source.to_owned()));
    form.push(("csrf_key".to_owned(), csrf));
    let r = Some(form);
    proof {
        let ghost e: Seq<char> = Seq::empty();
        assert(e + decimal(language as nat) =~= decimal(language as nat));
        assert(pairs_view(form@) =~= submit_form_spec(
            problem_id@,
            language as nat,
            opt_view(code_open),
            source@,
            opt_strings_view(page_code_open@),
            opt_strings_view(page_csrf@),
        )->0);
    }
    r
}

/// The form sent to submit a solution, from the HTML of the submit page:
/// the `value` of the elements matching `CODE_OPEN_SELECTOR` and
/// `CSRF_SELECTOR` (see `submit_form_spec`).
pub fn submit_form_from_page(
    page: &str,
    problem_id: &str,
    language: usize,
    code_open: Option<String>,
    source: &str,
) -> (r: Option<Vec<(String, String)>>)
    ensures
        opt_pairs_view(r) == match (
            html_select_attrs(page@, CODE_OPEN_SELECTOR@, "value"@),
            html_select_attrs(page@, CSRF_SELECTOR@, "value"@),
        ) {
            (Some(a), Some(b)) => submit_form_spec(
                problem_id@,
                language as nat,
                opt_view(code_open),
                source@,
                a,
                b,
            ),
            _ => None,
        },
{
    let choices = match select_attrs(page, CODE_OPEN_SELECTOR, "value") {
        Some(v) => v,
        None => return None,
    };
    let tokens = match select_attrs(page, CSRF_SELECTOR, "value") {
        Some(v) => v,
        None => return None,
    };
    submit_form(problem_id, language, code_open, source, &choices, &tokens)
}

/// A submission as read from the status table: the id of its row
/// (`"solution-12345"`) and its number (`"12345"`).
pub struct Solution {
    pub row_id: String,
    pub number: String,
}

/// The submission in the first row of the status table: the row's id and
/// the piece of it after the first `'-'`. Nothing when the table has no
/// row, the row has no id, or the id has no `'-'`.
pub open spec fn solution_spec(ids: Seq<Option<Seq<char>>>) -> Option<(Seq<char>, Seq<char>)> {
    if ids.len() == 0 || ids[0] is None {
        None
    } else {
        match second_piece(ids[0]->0, '-') {
            Some(n) => Some((ids[0]->0, n)),
            None => None,
        }
    }
}

/// The view of an optional `Solution`.
pub open spec fn opt_solution_view(s: Option<Solution>) -> Option<(Seq<char>, Seq<char>)> {
    match s {
        Some(x) => Some((x.row_id@, x.number@)),
        None => None,
    }
}

/// The submission in the first row of the status table, from the ids of
/// the rows (see `solution_spec`).
pub fn solution_from_ids(ids: &Vec<Option<String>>) -> (r: Option<Solution>)
    ensures
        opt_solution_view(r) == solution_spec(opt_strings_view(ids@)),
{
    let row_id = match first_value(ids) {
        Some(s) => s,
        None => return None,
    };
    match second_piece_of(row_id.as_str(), '-') {
        Some(number) => Some(Solution { row_id, number }),
        None => None,
    }
}

/// The submission in the first row of the status table, from the HTML of
/// the status page: the ids of the elements matching
/// `SOLUTION_ROW_SELECTOR` (see `solution_spec`).
pub fn solution_from_page(page: &str) -> (r: Option<Solution>)
    ensures
        opt_solution_view(r) == match html_select_ids(page@, SOLUTION_ROW_SELECTOR@) {
            Some(ids) => solution_spec(ids),
            None => None,
        },
{
    match select_ids(page, SOLUTION_ROW_SELECTOR) {
        Some(ids) => solution_from_ids(&ids),
        None => None,
    }
}

/// The message shown once a solution is submitted.
pub fn submitted_message(number: &str, url: &str) -> (r: String)
    ensures
        r@ == "Submit successful (sol ID "@ + number@ + "). Status page: "@ + url@,
{
    let a = concat("Submit successful (sol ID ", number);
    let b = concat(a.as_str(), "). Status page: ");
    concat(b.as_str(), url)
}

/// The selector of a submission's status text on the status page.
pub open spec fn status_selector_spec(row_id: Seq<char>) -> Seq<char> {
    "#"@ + row_id + " td.result span.result-text"@
}

/// The selector of a submission's status text on the status page.
pub fn status_selector(row_id: &str) -> (r: String)
    ensures
        r@ == status_selector_spec(row_id@),
{
    let a = concat("#", row_id);
    concat(a.as_str(), " td.result span.result-text")
}

/// The string slices of a list of strings.
fn as_strs(v: &Vec<String>) -> (r: Vec<&str>)
    ensures
        strs_view(r@) == strings_view(v@),
{
    let mut r: Vec<&str> = Vec::new();
    let mut i: usize = 0;
    while i < v.len()
        invariant
            i <= v.len(),
            r@.len() == i,
            forall|k: int| 0 <= k < i ==> (#[trigger] r@[k])@ == v@[k]@,
        decreases v.len() - i,
    {
        r.push(v[i].as_str());
        i = i + 1;
    }
    assert(strs_view(r@) =~= strings_view(v@));
    r
}

/// The status of a submission from the classes of the elements that its
/// status selector matches: that of the first one; nothing when none
/// matches.
pub open spec fn status_spec(matches: Seq<Seq<Seq<char>>>) -> Option<Seq<char>> {
    if matches.len() == 0 {
        None
    } else {
        Some(classify_spec(matches[0]))
    }
}

/// The view of an optional status.
pub open spec fn opt_status_view(r: Option<&'static str>) -> Option<Seq<char>> {
    match r {
        Some(v) => Some(v@),
        None => None,
    }
}

/// The status of a submission from the classes of the matching elements
/// (see `status_spec`).
pub fn status_from_classes(matches: &Vec<Vec<String>>) -> (r: Option<&'static str>)
    ensures
        opt_status_view(r) == status_spec(nested_strings_view(matches@)),
{
    if matches.len() == 0 {
        return None;
    }
    let first = as_strs(&matches[0]);
    let v = classify_class(first.as_slice());
    assert(nested_strings_view(matches@)[0] == strings_view(matches@[0]@));
    Some(v)
}

/// The status of a submission from the HTML of the status page: the
/// classes of the elements matching its status selector (see
/// `status_spec`). Nothing when the selector does not parse.
pub fn status_from_page(page: &str, row_id: &str) -> (r: Option<&'static str>)
    ensures
        opt_status_view(r) == match html_select_classes(page@, status_selector_spec(row_id@)) {
            Some(m) => status_spec(m),
            None => None,
        },
{
    let selector = status_selector(row_id);
    match select_classes(page, selector.as_str()) {
        Some(m) => status_from_classes(&m),
        None => None,
    }
}

} // verus!
