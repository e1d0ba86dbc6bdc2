//! Comparing a solution's output with the expected output of a sample test:
//! a line diff of their comparison forms, and the verdict on one test case.
use vstd::prelude::*;

use crate::normalize::{
    law_normalized_ignores_line_trailing_whitespace, normalize_output, normalized,
    same_lines_up_to_trailing_ws,
};
use crate::text::{
    concat, decimal, digits_value, is_digit, law_decimal_reads_back,
    lemma_digits_value_leading_zeros, push_decimal,
};

verus! {

/// What a line of a line diff is: common to both sides, only in the
/// solution's output, or only in the expected output.
#[derive(Debug, Clone, Copy, PartialEq, Eq, Structural)]
pub enum LineTag {
    Equal,
    Delete,
    Insert,
}

/// One line of a line diff, as `similar` displays a change: the line with
/// its line ending, a last line without one being given a `'\n'`.
#[derive(Debug)]
pub struct LineChange {
    pub tag: LineTag,
    pub text: String,
}

impl View for LineChange {
    type V = (LineTag, Seq<char>);

    open spec fn view(&self) -> (LineTag, Seq<char>) {
        (self.tag, self.text@)
    }
}

/// The changes of `similar::TextDiff::from_lines(old, new)`, in order, as
/// `(tag, displayed line)` pairs.
pub uninterp spec fn line_diff(old: Seq<char>, new: Seq<char>) -> Seq<(LineTag, Seq<char>)>;

/// The views of a list of changes.
pub open spec fn changes_view(v: Seq<LineChange>) -> Seq<(LineTag, Seq<char>)> {
    v.map_values(|c: LineChange| c@)
}

/// Whether a list of changes holds a line that is not common to both sides.
pub open spec fn has_difference(d: Seq<(LineTag, Seq<char>)>) -> bool {
    exists|i: int| 0 <= i < d.len() && d[i].0 != LineTag::Equal
}

/// Line diff by `similar::TextDiff::from_lines(old, new)`, flattened with
/// `iter_all_changes` (the ops of the diff, each expanded by `iter_changes`);
/// each change is kept as its tag and its `Display` text.
///
/// Claimed of `similar`: the result is the named `line_diff` of the two
/// texts; when the texts are equal every change is `Equal` (every algorithm
/// path of the default Myers diff first takes the common prefix of both
/// sides as one `Equal` run); when every change is `Equal` the texts are
/// equal (the changes of a diff cover each side, tokenized into lines with
/// their endings, in order). Nothing else is said of the lines.
#[verifier::external_body]
fn diff_lines(old: &str, new: &str) -> (r: Vec<LineChange>)
    ensures
        changes_view(r@) == line_diff(old@, new@),
        old@ == new@ ==> !has_difference(changes_view(r@)),
        !has_difference(changes_view(r@)) ==> old@ == new@,
{
    let diff = similar::TextDiff::from_lines(old, new);
    diff.iter_all_changes().map(|c| LineChange {
        tag: match c.tag() {
            similar::ChangeTag::Equal => LineTag::Equal,
            similar::ChangeTag::Delete => LineTag::Delete,
            similar::ChangeTag::Insert => LineTag::Insert,
        },
        text: c.to_string(),
    }).collect()
}

/// Whether some change in `changes` is not `Equal`.
pub fn any_difference(changes: &Vec<LineChange>) -> (r: bool)
    ensures
        r == has_difference(changes_view(changes@)),
{
    let mut i: usize = 0;
    while i < changes.len()
        invariant
            i <= changes.len(),
            forall|k: int| 0 <= k < i ==> changes@[k].tag == LineTag::Equal,
        decreases changes.len() - i,
    {
        if changes[i].tag != LineTag::Equal {
            assert(changes_view(changes@)[i as int].0 != LineTag::Equal);
            return true;
        }
        i = i + 1;
    }
    assert forall|k: int| 0 <= k < changes@.len() implies changes_view(changes@)[k].0
        == LineTag::Equal by {
        assert(changes_view(changes@)[k] == changes@[k]@);
    }
    false
}

/// The comparison of a solution's output (`result`) with the expected
/// output of a test case.
pub struct Comparison {
    /// The line diff of the comparison forms, from the solution's output to
    /// the expected output.
    pub changes: Vec<LineChange>,
    /// Whether the diff holds a line that is not common to both.
    pub failed: bool,
}

/// Compares a solution's output with the expected output: both are put in
/// their comparison form and diffed line by line; the case failed exactly
/// when the two forms differ.
pub fn compare_outputs(result: &str, expected: &str) -> (r: Comparison)
    ensures
        changes_view(r.changes@) == line_diff(normalized(result@), normalized(expected@)),
        r.failed == has_difference(changes_view(r.changes@)),
        r.failed == (normalized(result@) != normalized(expected@)),
{
    let out = normalize_output(expected);
    let res = normalize_output(result);
    let changes = diff_lines(res.as_str(), out.as_str());
    let failed = any_difference(&changes);
    Comparison { changes, failed }
}

/// Whether a test case fails (as `compare_outputs` and `case_verdict` decide
/// it) does not change when the solution's output or the expected output
/// gets whitespace at the ends of its lines, `"\r\n"` line endings, or
/// blank lines at its end.
pub proof fn law_case_ignores_line_trailing_whitespace(
    out1: Seq<char>,
    out2: Seq<char>,
    exp1: Seq<char>,
    exp2: Seq<char>,
    runtime_error: bool,
)
    requires
        same_lines_up_to_trailing_ws(out1, out2),
        same_lines_up_to_trailing_ws(exp1, exp2),
    ensures
        case_failed(normalized(out1) != normalized(exp1), runtime_error) == case_failed(
            normalized(out2) != normalized(exp2),
            runtime_error,
        ),
{
    law_normalized_ignores_line_trailing_whitespace(out1, out2);
    law_normalized_ignores_line_trailing_whitespace(exp1, exp2);
}

/// The sign printed in front of a line of the diff.
pub fn change_sign(tag: LineTag) -> (r: &'static str)
    ensures
        tag == LineTag::Delete ==> r@ == "-"@,
        tag == LineTag::Insert ==> r@ == "+"@,
        tag == LineTag::Equal ==> r@ == " "@,
{
    match tag {
        LineTag::Delete => "-",
        LineTag::Insert => "+",
        LineTag::Equal => " ",
    }
}

/// What becomes of one run of a test case.
#[derive(Debug, Clone, Copy, PartialEq, Eq, Structural)]
pub enum CaseVerdict {
    /// The output matched.
    Passed,
    /// The output did not match on a problem that is judged strictly: the
    /// input is reported and the run of the test command stops with an error.
    Failed,
    /// The output did not match on a problem that is not judged by plain
    /// comparison (special judge or score): the case counts as failed but
    /// is reported like a passing one.
    FailedLenient,
}

/// Whether a test case failed: its output differs from the expected one,
/// or the solution ended with a runtime error.
pub open spec fn case_failed(output_differs: bool, runtime_error: bool) -> bool {
    output_differs || runtime_error
}

/// The verdict on a test case from whether its problem is leniently judged,
/// whether the comparison of outputs failed, and whether the solution ended
/// with a runtime error.
pub fn case_verdict(spj: bool, output_differs: bool, runtime_error: bool) -> (r: CaseVerdict)
    ensures
        !case_failed(output_differs, runtime_error) ==> r == CaseVerdict::Passed,
        case_failed(output_differs, runtime_error) && !spj ==> r == CaseVerdict::Failed,
        case_failed(output_differs, runtime_error) && spj ==> r == CaseVerdict::FailedLenient,
{
    if !(output_differs || runtime_error) {
        CaseVerdict::Passed
    } else if spj {
        CaseVerdict::FailedLenient
    } else {
        CaseVerdict::Failed
    }
}

/// `s` with `'0'`s in front up to width `w`.
pub open spec fn zero_padded(s: Seq<char>, w: nat) -> Seq<char> {
    if s.len() >= w {
        s
    } else {
        Seq::new((w - s.len()) as nat, |i: int| '0') + s
    }
}

/// The running time shown for a test case, `"{}.{:06}"` of the whole
/// seconds and the microseconds.
pub open spec fn elapsed_text(micros: nat) -> Seq<char> {
    decimal(micros / 1000000) + seq!['.'] + zero_padded(decimal(micros % 1000000), 6)
}

/// `10` to the power `d`.
pub open spec fn pow10(d: nat) -> nat
    decreases d,
{
    if d == 0 {
        1
    } else {
        10 * pow10((d - 1) as nat)
    }
}

proof fn lemma_decimal_len(n: nat, d: nat)
    requires
        1 <= d,
        n < pow10(d),
    ensures
        1 <= decimal(n).len() <= d,
    decreases n,
{
    if n >= 10 {
        let p = pow10((d - 1) as nat);
        assert(n / 10 < p) by (nonlinear_arith)
            requires
                n < 10 * p,
        ;
        if d == 1 {
            assert(pow10(0) == 1);
        }
        lemma_decimal_len(n / 10, (d - 1) as nat);
    }
}

/// The running time shown for `micros` microseconds is whole seconds, a
/// `'.'`, and exactly six digits: the digits before the `'.'` read as
/// `micros / 1000000`, the six after it as `micros % 1000000`.
pub proof fn law_elapsed_text_reads_back(micros: nat)
    ensures
        ({
            let t = elapsed_text(micros);
            &&& t.len() >= 8
            &&& t[t.len() - 7] == '.'
            &&& forall|i: int| 0 <= i < t.len() - 7 ==> is_digit(#[trigger] t[i])
            &&& forall|i: int| t.len() - 6 <= i < t.len() ==> is_digit(#[trigger] t[i])
            &&& digits_value(t.take(t.len() - 7)) == micros / 1000000
            &&& digits_value(t.skip(t.len() - 6)) == micros % 1000000
        }),
{
    let whole = decimal(micros / 1000000);
    let f = decimal(micros % 1000000);
    law_decimal_reads_back(micros / 1000000);
    law_decimal_reads_back(micros % 1000000);
    assert(pow10(6) == 1000000) by {
        reveal_with_fuel(pow10, 7);
    }
    lemma_decimal_len(micros % 1000000, 6);
    let z = Seq::new((6 - f.len()) as nat, |i: int| '0');
    let padded = zero_padded(f, 6);
    if f.len() < 6 {
        assert(padded == z + f);
    } else {
        assert(z =~= Seq::<char>::empty());
        assert(padded =~= z + f);
    }
    lemma_digits_value_leading_zeros(z, f);
    let t = elapsed_text(micros);
    assert(t == whole + seq!['.'] + padded);
    assert(padded.len() == 6);
    assert(t.take(t.len() - 7) =~= whole);
    assert(t.skip(t.len() - 6) =~= padded);
    assert forall|i: int| t.len() - 6 <= i < t.len() implies is_digit(#[trigger] t[i]) by {
        let j = i - (t.len() - 6);
        assert(t[i] == padded[j]);
        if j < z.len() {
            assert(padded[j] == z[j]);
        } else {
            assert(padded[j] == f[j - z.len()]);
        }
    }
    assert forall|i: int| 0 <= i < t.len() - 7 implies is_digit(#[trigger] t[i]) by {
        assert(t[i] == whole[i]);
    }
}

/// The running time of a test case in seconds with six decimals.
pub fn format_elapsed(micros: u128) -> (r: String)
    ensures
        r@ == elapsed_text(micros as nat),
{
    let mut r = String::new();
    push_decimal(&mut r, micros / 1000000);
    let dot = concat(r.as_str(), ".");
    let mut frac = String::new();
    push_decimal(&mut frac, micros % 1000000);
    let ghost fd = decimal((micros % 1000000) as nat);
    proof {
        assert(pow10(6) == 1000000) by {
            reveal_with_fuel(pow10, 7);
        }
        lemma_decimal_len((micros % 1000000) as nat, 6);
    }
    let mut pad = String::new();
    let mut k: usize = frac.as_str().unicode_len();
    while k < 6
        invariant
            fd == frac@,
            fd.len() <= k <= 6,
            pad@ == Seq::new((k - fd.len()) as nat, |i: int| '0'),
        decreases 6 - k,
    {
        crate::text::push_char(&mut pad, '0');
        assert(pad@ =~= Seq::new((k + 1 - fd.len()) as nat, |i: int| '0'));
        k = k + 1;
    }
    let padded = concat(pad.as_str(), frac.as_str());
    let r2 = concat(dot.as_str(), padded.as_str());
    proof {
        reveal_strlit(".");
        if fd.len() >= 6 {
            assert(pad@ =~= Seq::<char>::empty());
            assert(padded@ =~= fd);
        }
        assert(r2@ =~= elapsed_text(micros as nat));
    }
    r2
}

} // verus!
