//! The data kept between runs: the sample tests of a problem, and the login
//! credentials.
use vstd::prelude::*;

use crate::html::{html_select_texts, select_texts, strings_view};
use crate::text::concat;

verus! {

/// The sample tests of a problem.
#[derive(Debug, Clone)]
pub struct ProblemData {
    /// Whether the output is judged by other means than plain comparison
    /// (special judge, or partial score).
    pub spj: bool,
    /// The sample tests, as (input, expected output) pairs.
    pub testcases: Vec<(String, String)>,
}

impl View for ProblemData {
    type V = (bool, Seq<(Seq<char>, Seq<char>)>);

    open spec fn view(&self) -> Self::V {
        (self.spj, self.testcases@.map_values(|p: (String, String)| (p.0@, p.1@)))
    }
}

/// The two cookies of a logged in session.
#[derive(Debug, Clone)]
pub struct Cookies {
    pub onlinejudge: String,
    pub bojautologin: String,
}

impl View for Cookies {
    type V = (Seq<char>, Seq<char>);

    open spec fn view(&self) -> Self::V {
        (self.onlinejudge@, self.bojautologin@)
    }
}

impl Cookies {
    /// A copy of the cookies.
    pub fn duplicate(&self) -> (r: Cookies)
        ensures
            r@ == self@,
    {
        Cookies { onlinejudge: self.onlinejudge.clone(), bojautologin: self.bojautologin.clone() }
    }
}

/// The stored login: a user id and the session cookies, each maybe absent.
#[derive(Debug, Clone)]
pub struct Credentials {
    pub id: Option<String>,
    pub cookies: Option<Cookies>,
}

/// The view of optional cookies.
pub open spec fn opt_cookies_view(c: Option<Cookies>) -> Option<(Seq<char>, Seq<char>)> {
    match c {
        Some(x) => Some(x@),
        None => None,
    }
}

impl View for Credentials {
    type V = (Option<Seq<char>>, Option<(Seq<char>, Seq<char>)>);

    open spec fn view(&self) -> Self::V {
        (crate::html::opt_string_view(self.id), opt_cookies_view(self.cookies))
    }
}

impl Default for Credentials {
    fn default() -> (r: Self)
        ensures
            r.id is None,
            r.cookies is None,
    {
        Credentials { id: None, cookies: None }
    }
}

impl Credentials {
    /// Sets the user id; the cookies stay as they were.
    pub fn update_id(&mut self, id: &str)
        ensures
            final(self)@.0 == Some(id@),
            final(self)@.1 == old(self)@.1,
    {
        self.id = Some(id.to_owned());
    }

    /// Sets the session cookies; the user id stays as it was.
    pub fn update_cookie(&mut self, cookies: &Cookies)
        ensures
            final(self)@.0 == old(self)@.0,
            final(self)@.1 == Some(cookies@),
    {
        self.cookies = Some(cookies.duplicate());
    }

    /// Forgets the user id and the cookies.
    pub fn remove(&mut self)
        ensures
            final(self).id is None,
            final(self).cookies is None,
    {
        self.id = None;
        self.cookies = None;
    }
}

/// Whether a problem id names a problem of a contest (`"963/1"`).
pub open spec fn is_contest_problem_spec(problem_id: Seq<char>) -> bool {
    problem_id.contains('/')
}

/// Whether a problem id names a problem of a contest (`"963/1"`): it holds
/// a `'/'`.
pub fn is_contest_problem(problem_id: &str) -> (r: bool)
    ensures
        r == is_contest_problem_spec(problem_id@),
{
    let v = crate::text::chars_of(problem_id);
    let mut i: usize = 0;
    while i < v.len()
        invariant
            v@ == problem_id@,
            i <= v.len(),
            forall|k: int| 0 <= k < i ==> v@[k] != '/',
        decreases v.len() - i,
    {
        if v[i] == '/' {
            assert(problem_id@[i as int] == '/');
            return true;
        }
        i = i + 1;
    }
    false
}

/// The address of a problem's page.
pub open spec fn problem_url_spec(problem_id: Seq<char>) -> Seq<char> {
    if is_contest_problem_spec(problem_id) {
        "https://www.acmicpc.net/contest/problem/"@ + problem_id
    } else {
        "https://www.acmicpc.net/problem/"@ + problem_id
    }
}

/// The address of a problem's page: contest problems live under
/// `/contest/problem/`, others under `/problem/`.
pub fn problem_url(problem_id: &str) -> (r: String)
    ensures
        r@ == problem_url_spec(problem_id@),
{
    if is_contest_problem(problem_id) {
        concat("https://www.acmicpc.net/contest/problem/", problem_id)
    } else {
        concat("https://www.acmicpc.net/problem/", problem_id)
    }
}

/// Where the sample tests of a problem are cached, relative to the cache
/// directory.
pub open spec fn cache_path_spec(problem_id: Seq<char>) -> Seq<char> {
    if is_contest_problem_spec(problem_id) {
        "contest/"@ + problem_id
    } else {
        problem_id
    }
}

/// Where the sample tests of a problem are cached, relative to the cache
/// directory: contest problems under `contest/`, others at the top.
pub fn cache_path(problem_id: &str) -> (r: String)
    ensures
        r@ == cache_path_spec(problem_id@),
{
    if is_contest_problem(problem_id) {
        concat("contest/", problem_id)
    } else {
        problem_id.to_owned()
    }
}

/// Whether cached sample tests are used: they are when the cache could be
/// read as sample tests and no refresh was asked for.
pub fn use_cached(cache_parsed: bool, refresh: bool) -> (r: bool)
    ensures
        r == (cache_parsed && !refresh),
{
    cache_parsed && !refresh
}

/// Elements marking a problem as judged by a special judge or by score.
pub const SPJ_SELECTOR: &'static str = "span.problem-label-spj, span.problem-label-partial";

/// Elements marking a problem whose samples cannot be run (two-step and
/// interactive problems).
pub const DONT_RUN_SELECTOR: &'static str = "span.problem-label-two-steps, span.problem-label-interactive";

/// The sample inputs and outputs, alternating.
pub const SAMPLE_SELECTOR: &'static str = "pre.sampledata";

/// Consecutive texts paired up: `(s[0], s[1]), (s[2], s[3]), ...`.
pub open spec fn pair_up(s: Seq<Seq<char>>) -> Seq<(Seq<char>, Seq<char>)> {
    Seq::new(s.len() / 2, |i: int| (s[2 * i], s[2 * i + 1]))
}

/// The sample tests read from what a problem page shows: whether it is
/// leniently judged, whether its samples must not be run, and the texts of
/// its sample blocks. Samples that cannot be run give no test cases; an odd
/// number of sample blocks (an input without its output) gives nothing.
pub open spec fn problem_data_spec(spj: bool, dont_run: bool, samples: Seq<Seq<char>>) -> Option<
    (bool, Seq<(Seq<char>, Seq<char>)>),
> {
    if dont_run {
        Some((spj, Seq::empty()))
    } else if samples.len() % 2 == 1 {
        None
    } else {
        Some((spj, pair_up(samples)))
    }
}

/// On a problem whose samples can be run, an even number of sample texts
/// gives one test case per pair of texts, in order: case `i` has text `2i`
/// as its input and text `2i + 1` as its expected output, and there are no
/// other cases.
pub proof fn law_samples_become_cases_in_pairs(spj: bool, samples: Seq<Seq<char>>)
    requires
        samples.len() % 2 == 0,
    ensures
        problem_data_spec(spj, false, samples) matches Some((s, cases)) && s == spj && cases.len()
            * 2 == samples.len() && forall|i: int|
            0 <= i < samples.len() / 2 ==> #[trigger] cases[i] == (samples[2 * i], samples[2 * i
                + 1]),
{
}

/// Samples that cannot be run give no test case, whatever the page shows;
/// a runnable problem with an odd number of sample texts gives nothing.
pub proof fn law_unrunnable_or_unpaired_samples(spj: bool, samples: Seq<Seq<char>>)
    ensures
        problem_data_spec(spj, true, samples) == Some((spj, Seq::<(Seq<char>, Seq<char>)>::empty())),
        samples.len() % 2 == 1 ==> problem_data_spec(spj, false, samples) is None,
{
}

/// The page of a problem id without `'/'` is `/problem/` followed by the
/// id; an id holding `'/'` (a contest problem) is under
/// `/contest/problem/`. Likewise its cache entry is the id itself, or the
/// id under `contest/`.
pub proof fn law_problem_addresses(problem_id: Seq<char>)
    ensures
        !problem_id.contains('/') ==> problem_url_spec(problem_id)
            == "https://www.acmicpc.net/problem/"@ + problem_id,
        problem_id.contains('/') ==> problem_url_spec(problem_id)
            == "https://www.acmicpc.net/contest/problem/"@ + problem_id,
        !problem_id.contains('/') ==> cache_path_spec(problem_id) == problem_id,
        problem_id.contains('/') ==> cache_path_spec(problem_id) == "contest/"@ + problem_id,
{
}

/// The view of an optional `ProblemData`.
pub open spec fn opt_problem_view(p: Option<ProblemData>) -> Option<
    (bool, Seq<(Seq<char>, Seq<char>)>),
> {
    match p {
        Some(d) => Some(d@),
        None => None,
    }
}

impl ProblemData {
    /// The sample tests from what a problem page shows (see
    /// `problem_data_spec`).
    pub fn from_matches(spj: bool, dont_run: bool, samples: &Vec<String>) -> (r: Option<
        ProblemData,
    >)
        ensures
            opt_problem_view(r) == problem_data_spec(spj, dont_run, strings_view(samples@)),
    {
        let mut testcases: Vec<(String, String)> = Vec::new();
        if dont_run {
            let r = ProblemData { spj, testcases };
            assert(r@.1 =~= Seq::<(Seq<char>, Seq<char>)>::empty());
            return Some(r);
        }
        if samples.len() % 2 == 1 {
            return None;
        }
        let ghost sv = strings_view(samples@);
        let mut i: usize = 0;
        while i < samples.len() / 2
            invariant
                samples.len() % 2 == 0,
                sv == strings_view(samples@),
                i <= samples.len() / 2,
                testcases@.len() == i,
                forall|k: int|
                    0 <= k < i ==> (#[trigger] testcases@[k]).0@ == sv[2 * k] && testcases@[k].1@
                        == sv[2 * k + 1],
            decreases samples.len() / 2 - i,
        {
            let input = samples[2 * i].clone();
            let output = samples[2 * i + 1].clone();
            testcases.push((input, output));
            i = i + 1;
        }
        let r = ProblemData { spj, testcases };
        assert(r@.1 =~= pair_up(sv));
        Some(r)
    }

    /// The sample tests of a problem from the HTML of its page: lenient
    /// judging when an element matches `SPJ_SELECTOR`, no runnable samples
    /// when one matches `DONT_RUN_SELECTOR`, and the samples from the texts
    /// of the elements matching `SAMPLE_SELECTOR`.
    pub fn from_problem_page(page: &str) -> (r: Option<ProblemData>)
        ensures
            opt_problem_view(r) == match (
                html_select_texts(page@, SPJ_SELECTOR@),
                html_select_texts(page@, DONT_RUN_SELECTOR@),
                html_select_texts(page@, SAMPLE_SELECTOR@),
            ) {
                (Some(a), Some(b), Some(c)) => problem_data_spec(a.len() > 0, b.len() > 0, c),
                _ => None,
            },
    {
        let spj = match select_texts(page, SPJ_SELECTOR) {
            Some(v) => v.len() > 0,
            None => return None,
        };
        let dont_run = match select_texts(page, DONT_RUN_SELECTOR) {
            Some(v) => v.len() > 0,
            None => return None,
        };
        let samples = match select_texts(page, SAMPLE_SELECTOR) {
            Some(v) => v,
            None => return None,
        };
        Self::from_matches(spj, dont_run, &samples)
    }
}

} // verus!
