//! The comparison form of a program's output: trailing whitespace is removed
//! from the whole text and from every line, and lines are joined by `'\n'`.
//! This is the form in which a solution's output and the expected output of a
//! sample test are compared.
use vstd::prelude::*;

use crate::text::{chars_of, push_char};

verus! {

/// `char::is_whitespace`: the Unicode `White_Space` property.
pub open spec fn is_ws(c: char) -> bool {
    ||| '\t' <= c <= '\r'
    ||| c == ' '
    ||| c == '\u{85}'
    ||| c == '\u{A0}'
    ||| c == '\u{1680}'
    ||| '\u{2000}' <= c <= '\u{200A}'
    ||| c == '\u{2028}'
    ||| c == '\u{2029}'
    ||| c == '\u{202F}'
    ||| c == '\u{205F}'
    ||| c == '\u{3000}'
}

/// `str::trim_end`: the text without its trailing whitespace.
pub open spec fn trim_end(s: Seq<char>) -> Seq<char>
    decreases s.len(),
{
    if s.len() > 0 && is_ws(s.last()) {
        trim_end(s.drop_last())
    } else {
        s
    }
}

/// The pieces of `s` between `'\n'` characters (always at least one piece).
pub open spec fn split_lines(s: Seq<char>) -> Seq<Seq<char>>
    decreases s.len(),
{
    if s.len() == 0 {
        seq![Seq::empty()]
    } else {
        let prev = split_lines(s.drop_last());
        if s.last() == '\n' {
            prev.push(Seq::empty())
        } else {
            prev.update(prev.len() - 1, prev.last().push(s.last()))
        }
    }
}

/// A line without the `'\r'` of a `"\r\n"` line ending.
pub open spec fn strip_cr(l: Seq<char>) -> Seq<char> {
    if l.len() > 0 && l.last() == '\r' {
        l.drop_last()
    } else {
        l
    }
}

/// `str::lines`: lines split at `'\n'` or `"\r\n"`; a final line ending
/// does not start another line, the empty text has no lines, and a `'\r'`
/// is removed only where a `'\n'` follows it.
pub open spec fn rust_lines(s: Seq<char>) -> Seq<Seq<char>> {
    if s.len() == 0 {
        Seq::empty()
    } else if s.last() == '\n' {
        split_lines(s).drop_last().map_values(|l: Seq<char>| strip_cr(l))
    } else {
        let parts = split_lines(s);
        parts.drop_last().map_values(|l: Seq<char>| strip_cr(l)).push(parts.last())
    }
}

/// Lines joined with `'\n'` between them (`[..].join("\n")`).
pub open spec fn join_lines(ls: Seq<Seq<char>>) -> Seq<char>
    decreases ls.len(),
{
    if ls.len() == 0 {
        Seq::empty()
    } else if ls.len() == 1 {
        ls[0]
    } else {
        join_lines(ls.drop_last()) + seq!['\n'] + ls.last()
    }
}

/// The comparison form of an output:
/// `s.trim_end().lines().map(|l| l.trim_end()).collect::<Vec<_>>().join("\n")`.
pub open spec fn normalized(s: Seq<char>) -> Seq<char> {
    join_lines(rust_lines(trim_end(s)).map_values(|l: Seq<char>| trim_end(l)))
}

/// Whether a text holds no `'\n'`.
pub open spec fn no_newline(s: Seq<char>) -> bool {
    forall|i: int| 0 <= i < s.len() ==> s[i] != '\n'
}

// ---------------------------------------------------------------------
// Lemmas on the definitions above
// ---------------------------------------------------------------------

proof fn lemma_trim_end_prefix(s: Seq<char>)
    ensures
        trim_end(s).len() <= s.len(),
        trim_end(s) == s.take(trim_end(s).len() as int),
        trim_end(s).len() > 0 ==> !is_ws(trim_end(s).last()),
        trim_end(trim_end(s)) == trim_end(s),
        forall|i: int| trim_end(s).len() <= i < s.len() ==> is_ws(#[trigger] s[i]),
    decreases s.len(),
{
    if s.len() > 0 && is_ws(s.last()) {
        lemma_trim_end_prefix(s.drop_last());
        assert(s.drop_last().take(trim_end(s).len() as int) =~= s.take(trim_end(s).len() as int));
        assert forall|i: int| trim_end(s).len() <= i < s.len() implies is_ws(#[trigger] s[i]) by {
            if i < s.len() - 1 {
                assert(s.drop_last()[i] == s[i]);
            }
        }
    } else {
        assert(s.take(s.len() as int) =~= s);
    }
}

proof fn lemma_trim_end_of_cr(l: Seq<char>)
    ensures
        trim_end(strip_cr(l)) == trim_end(l),
{
}

proof fn lemma_split_lines_shape(s: Seq<char>)
    ensures
        split_lines(s).len() >= 1,
        forall|i: int| 0 <= i < split_lines(s).len() ==> no_newline(#[trigger] split_lines(s)[i]),
        s.len() > 0 && s.last() != '\n' ==> split_lines(s).last().len() > 0
            && split_lines(s).last().last() == s.last(),
    decreases s.len(),
{
    if s.len() > 0 {
        let prev = split_lines(s.drop_last());
        lemma_split_lines_shape(s.drop_last());
        if s.last() != '\n' {
            let l = prev.last().push(s.last());
            assert forall|i: int| 0 <= i < split_lines(s).len() implies no_newline(
                #[trigger] split_lines(s)[i],
            ) by {
                if i == prev.len() - 1 {
                    assert(split_lines(s)[i] == l);
                    assert(no_newline(prev[i]));
                } else {
                    assert(split_lines(s)[i] == prev[i]);
                }
            }
        } else {
            assert forall|i: int| 0 <= i < split_lines(s).len() implies no_newline(
                #[trigger] split_lines(s)[i],
            ) by {
                if i < prev.len() {
                    assert(split_lines(s)[i] == prev[i]);
                }
            }
        }
    }
}

/// Splitting text that is followed by a piece without `'\n'` extends the
/// last piece.
proof fn lemma_split_append_plain(a: Seq<char>, b: Seq<char>)
    requires
        no_newline(b),
    ensures
        split_lines(a + b) == split_lines(a).update(
            split_lines(a).len() - 1,
            split_lines(a).last() + b,
        ),
    decreases b.len(),
{
    lemma_split_lines_shape(a);
    if b.len() == 0 {
        assert(a + b =~= a);
        assert(split_lines(a).last() + b =~= split_lines(a).last());
        assert(split_lines(a).update(split_lines(a).len() - 1, split_lines(a).last())
            =~= split_lines(a));
    } else {
        let b0 = b.drop_last();
        lemma_split_append_plain(a, b0);
        assert((a + b).drop_last() =~= a + b0);
        assert((a + b).last() == b.last());
        assert(split_lines(a).last() + b =~= (split_lines(a).last() + b0).push(b.last()));
        assert(split_lines(a + b) =~= split_lines(a).update(
            split_lines(a).len() - 1,
            split_lines(a).last() + b,
        ));
    }
}

/// Splitting the joined lines gives the lines back.
proof fn lemma_split_join(ls: Seq<Seq<char>>)
    requires
        ls.len() >= 1,
        forall|i: int| 0 <= i < ls.len() ==> no_newline(#[trigger] ls[i]),
    ensures
        split_lines(join_lines(ls)) == ls,
    decreases ls.len(),
{
    if ls.len() == 1 {
        let e: Seq<char> = Seq::empty();
        lemma_split_append_plain(e, ls[0]);
        assert(e + ls[0] =~= ls[0]);
        assert(split_lines(e) =~= seq![e]);
        assert(split_lines(join_lines(ls)) =~= ls);
    } else {
        let init = ls.drop_last();
        assert forall|i: int| 0 <= i < init.len() implies no_newline(#[trigger] init[i]) by {
            assert(init[i] == ls[i]);
        }
        lemma_split_join(init);
        let j = join_lines(init) + seq!['\n'];
        assert(j.drop_last() =~= join_lines(init));
        assert(split_lines(j) =~= init.push(Seq::empty()));
        assert(no_newline(ls.last()));
        lemma_split_append_plain(j, ls.last());
        assert(Seq::<char>::empty() + ls.last() =~= ls.last());
        assert(split_lines(join_lines(ls)) =~= ls);
    }
}

proof fn lemma_join_push(ls: Seq<Seq<char>>, x: Seq<char>)
    ensures
        join_lines(ls.push(x)) == if ls.len() == 0 {
            x
        } else {
            join_lines(ls) + seq!['\n'] + x
        },
{
    assert(ls.push(x).drop_last() =~= ls);
}

/// The last character of joined lines is that of the last line, when it is
/// not empty.
proof fn lemma_join_last(ls: Seq<Seq<char>>)
    requires
        ls.len() >= 1,
        ls.last().len() > 0,
    ensures
        join_lines(ls).len() > 0,
        join_lines(ls).last() == ls.last().last(),
{
    lemma_join_push(ls.drop_last(), ls.last());
    assert(ls.drop_last().push(ls.last()) =~= ls);
}

/// Trimming a text that does not end in `'\n'` and then taking Rust's lines
/// and trimming each of them equals trimming each piece between `'\n'`s.
proof fn lemma_lines_of_trimmed(t: Seq<char>)
    requires
        t.len() > 0,
        !is_ws(t.last()),
    ensures
        rust_lines(t).map_values(|l: Seq<char>| trim_end(l)) == split_lines(t).map_values(
            |l: Seq<char>| trim_end(l),
        ),
{
    let p = split_lines(t);
    let a = rust_lines(t).map_values(|l: Seq<char>| trim_end(l));
    let b = p.map_values(|l: Seq<char>| trim_end(l));
    assert(t.last() != '\n');
    lemma_split_lines_shape(t);
    let r = rust_lines(t);
    assert(r == p.drop_last().map_values(|l: Seq<char>| strip_cr(l)).push(p.last()));
    assert(r.len() == p.len());
    assert forall|i: int| 0 <= i < p.len() implies a[i] == b[i] by {
        if i < p.len() - 1 {
            assert(r[i] == strip_cr(p[i]));
            lemma_trim_end_of_cr(p[i]);
        } else {
            assert(r[i] == p[i]);
        }
    }
    assert(a =~= b);
}

// ---------------------------------------------------------------------
// Laws of the comparison form
// ---------------------------------------------------------------------

/// Facts on the comparison form of a text: it is either empty or ends with
/// a character that is not whitespace, and its lines are the trimmed pieces
/// of the trimmed text.
proof fn lemma_normalized_shape(s: Seq<char>)
    ensures
        trim_end(s).len() == 0 ==> normalized(s).len() == 0,
        trim_end(s).len() > 0 ==> {
            let m = split_lines(trim_end(s)).map_values(|l: Seq<char>| trim_end(l));
            &&& normalized(s) == join_lines(m)
            &&& m.len() >= 1
            &&& forall|i: int| 0 <= i < m.len() ==> no_newline(#[trigger] m[i])
            &&& forall|i: int| 0 <= i < m.len() ==> trim_end(#[trigger] m[i]) == m[i]
            &&& normalized(s).len() > 0
            &&& !is_ws(normalized(s).last())
            &&& m.last().len() > 0
        },
{
    let t = trim_end(s);
    lemma_trim_end_prefix(s);
    if t.len() > 0 {
        lemma_lines_of_trimmed(t);
        let p = split_lines(t);
        let m = p.map_values(|l: Seq<char>| trim_end(l));
        lemma_split_lines_shape(t);
        assert forall|i: int| 0 <= i < m.len() implies no_newline(#[trigger] m[i])
            && trim_end(m[i]) == m[i] by {
            lemma_trim_end_prefix(p[i]);
            assert(no_newline(p[i]));
            assert forall|k: int| 0 <= k < m[i].len() implies m[i][k] != '\n' by {
                assert(m[i][k] == p[i][k]);
            }
        }
        // the last piece ends with the last character of `t`
        let last = p.last();
        assert(last.len() > 0 && last.last() == t.last());
        assert(trim_end(last) == last);
        assert(m.last() == last);
        lemma_join_last(m);
    }
}

/// The comparison form is stable: putting an already compared form through
/// the comparison again changes nothing.
pub proof fn law_normalized_idempotent(s: Seq<char>)
    ensures
        normalized(normalized(s)) == normalized(s),
{
    lemma_normalized_shape(s);
    let t = trim_end(s);
    let n = normalized(s);
    if t.len() == 0 {
        assert(n.len() == 0);
        assert(trim_end(n) =~= n);
        assert(rust_lines(trim_end(n)) =~= Seq::<Seq<char>>::empty());
        assert(normalized(n) =~= n);
    } else {
        let m = split_lines(t).map_values(|l: Seq<char>| trim_end(l));
        assert(trim_end(n) == n);
        lemma_split_join(m);
        lemma_lines_of_trimmed(n);
        let m2 = split_lines(n).map_values(|l: Seq<char>| trim_end(l));
        assert(m2 =~= m);
    }
}

/// Whitespace at the end of an output does not change its comparison form.
pub proof fn law_normalized_ignores_trailing_whitespace(s: Seq<char>, w: Seq<char>)
    requires
        forall|i: int| 0 <= i < w.len() ==> is_ws(#[trigger] w[i]),
    ensures
        normalized(s + w) == normalized(s),
    decreases w.len(),
{
    if w.len() > 0 {
        let w0 = w.drop_last();
        assert forall|i: int| 0 <= i < w0.len() implies is_ws(#[trigger] w0[i]) by {
            assert(w0[i] == w[i]);
        }
        law_normalized_ignores_trailing_whitespace(s, w0);
        assert((s + w).drop_last() =~= s + w0);
        assert(trim_end(s + w) == trim_end(s + w0));
    } else {
        assert(s + w =~= s);
    }
}

/// The pieces of `s` between `'\n'`s, each without its trailing whitespace.
pub open spec fn trimmed_pieces(s: Seq<char>) -> Seq<Seq<char>> {
    split_lines(s).map_values(|l: Seq<char>| trim_end(l))
}

/// Lines without the empty lines at their end.
pub open spec fn drop_blank_tail(ls: Seq<Seq<char>>) -> Seq<Seq<char>>
    decreases ls.len(),
{
    if ls.len() > 0 && ls.last().len() == 0 {
        drop_blank_tail(ls.drop_last())
    } else {
        ls
    }
}

/// `b` has the lines of `a` (the pieces between `'\n'`s), each possibly
/// with more whitespace at its end (a `'\r'` of a `"\r\n"` ending among
/// it), followed possibly by further lines of whitespace only.
pub open spec fn same_lines_up_to_trailing_ws(a: Seq<char>, b: Seq<char>) -> bool {
    let la = split_lines(a);
    let lb = split_lines(b);
    &&& la.len() <= lb.len()
    &&& forall|i: int| 0 <= i < la.len() ==> trim_end(#[trigger] la[i]) == trim_end(lb[i])
    &&& forall|i: int| la.len() <= i < lb.len() ==> trim_end(#[trigger] lb[i]).len() == 0
}

proof fn lemma_trim_end_push_ws(x: Seq<char>, c: char)
    requires
        is_ws(c),
    ensures
        trim_end(x.push(c)) == trim_end(x),
{
    assert(x.push(c).drop_last() =~= x);
}

/// A whitespace character at the end either leaves the trimmed pieces as
/// they are or, for `'\n'`, adds an empty one.
proof fn lemma_trimmed_pieces_push_ws(s: Seq<char>, c: char)
    requires
        is_ws(c),
    ensures
        trimmed_pieces(s.push(c)) == if c == '\n' {
            trimmed_pieces(s).push(Seq::empty())
        } else {
            trimmed_pieces(s)
        },
{
    let p = split_lines(s);
    lemma_split_lines_shape(s);
    assert(s.push(c).drop_last() =~= s);
    assert(s.push(c).last() == c);
    if c == '\n' {
        assert(trim_end(Seq::<char>::empty()) =~= Seq::<char>::empty());
        assert(trimmed_pieces(s.push(c)) =~= trimmed_pieces(s).push(Seq::empty()));
    } else {
        lemma_trim_end_push_ws(p.last(), c);
        assert(trimmed_pieces(s.push(c)) =~= trimmed_pieces(s));
    }
}

proof fn lemma_drop_blank_tail_push_empty(ls: Seq<Seq<char>>)
    ensures
        drop_blank_tail(ls.push(Seq::empty())) == drop_blank_tail(ls),
{
    assert(ls.push(Seq::empty()).drop_last() =~= ls);
}

/// Whitespace at the end of a text only adds empty trimmed pieces.
proof fn lemma_trimmed_pieces_ws_suffix(s: Seq<char>, w: Seq<char>)
    requires
        forall|i: int| 0 <= i < w.len() ==> is_ws(#[trigger] w[i]),
    ensures
        drop_blank_tail(trimmed_pieces(s + w)) == drop_blank_tail(trimmed_pieces(s)),
    decreases w.len(),
{
    if w.len() == 0 {
        assert(s + w =~= s);
    } else {
        let w0 = w.drop_last();
        assert forall|i: int| 0 <= i < w0.len() implies is_ws(#[trigger] w0[i]) by {
            assert(w0[i] == w[i]);
        }
        lemma_trimmed_pieces_ws_suffix(s, w0);
        assert(s + w =~= (s + w0).push(w.last()));
        lemma_trimmed_pieces_push_ws(s + w0, w.last());
        if w.last() == '\n' {
            lemma_drop_blank_tail_push_empty(trimmed_pieces(s + w0));
        }
    }
}

/// Empty lines added at the end are dropped again.
proof fn lemma_drop_blank_tail_append_blank(x: Seq<Seq<char>>, y: Seq<Seq<char>>)
    requires
        forall|i: int| 0 <= i < y.len() ==> (#[trigger] y[i]).len() == 0,
    ensures
        drop_blank_tail(x + y) == drop_blank_tail(x),
    decreases y.len(),
{
    if y.len() == 0 {
        assert(x + y =~= x);
    } else {
        let y0 = y.drop_last();
        assert forall|i: int| 0 <= i < y0.len() implies (#[trigger] y0[i]).len() == 0 by {
            assert(y0[i] == y[i]);
        }
        lemma_drop_blank_tail_append_blank(x, y0);
        assert(y.last() =~= Seq::<char>::empty());
        assert(x + y =~= (x + y0).push(Seq::empty()));
        lemma_drop_blank_tail_push_empty(x + y0);
    }
}

/// The comparison form is the trimmed pieces of the text, without the empty
/// ones at the end, joined by `'\n'`.
proof fn lemma_normalized_by_pieces(s: Seq<char>)
    ensures
        normalized(s) == join_lines(drop_blank_tail(trimmed_pieces(s))),
{
    let t = trim_end(s);
    lemma_trim_end_prefix(s);
    lemma_normalized_shape(s);
    let w = s.skip(t.len() as int);
    assert(s =~= t + w);
    assert forall|i: int| 0 <= i < w.len() implies is_ws(#[trigger] w[i]) by {
        assert(w[i] == s[i + t.len()]);
    }
    lemma_trimmed_pieces_ws_suffix(t, w);
    if t.len() == 0 {
        let e = Seq::<char>::empty();
        assert(t =~= e);
        assert(split_lines(e) =~= seq![e]);
        assert(trim_end(e) =~= e);
        assert(trimmed_pieces(t) =~= seq![e]);
        assert(seq![e].drop_last() =~= Seq::<Seq<char>>::empty());
        assert(drop_blank_tail(Seq::<Seq<char>>::empty()) == Seq::<Seq<char>>::empty());
        assert(seq![e].last().len() == 0);
        assert(drop_blank_tail(seq![e]) == drop_blank_tail(seq![e].drop_last()));
        assert(drop_blank_tail(trimmed_pieces(t)) =~= Seq::<Seq<char>>::empty());
        assert(normalized(s) =~= e);
    } else {
        assert(drop_blank_tail(trimmed_pieces(t)) == trimmed_pieces(t));
    }
}

/// Whitespace at the end of lines, `"\r\n"` in place of `'\n'`, and
/// blank lines at the end do not change the comparison form: texts with the
/// same lines up to trailing whitespace have the same comparison form.
pub proof fn law_normalized_ignores_line_trailing_whitespace(a: Seq<char>, b: Seq<char>)
    requires
        same_lines_up_to_trailing_ws(a, b),
    ensures
        normalized(a) == normalized(b),
{
    lemma_normalized_by_pieces(a);
    lemma_normalized_by_pieces(b);
    let pa = trimmed_pieces(a);
    let pb = trimmed_pieces(b);
    let extra = pb.skip(pa.len() as int);
    assert forall|i: int| 0 <= i < extra.len() implies (#[trigger] extra[i]).len() == 0 by {
        assert(extra[i] == pb[i + pa.len()]);
        assert(split_lines(b)[i + pa.len()] == split_lines(b)[i + pa.len()]);
    }
    assert(pb =~= pa + extra);
    lemma_drop_blank_tail_append_blank(pa, extra);
}

// ---------------------------------------------------------------------
// Executable code
// ---------------------------------------------------------------------

/// `char::is_whitespace`.
pub fn is_whitespace(c: char) -> (r: bool)
    ensures
        r == is_ws(c),
{
    ('\t' <= c && c <= '\r') || c == ' ' || c == '\u{85}' || c == '\u{A0}' || c == '\u{1680}'
        || ('\u{2000}' <= c && c <= '\u{200A}') || c == '\u{2028}' || c == '\u{2029}' || c
        == '\u{202F}' || c == '\u{205F}' || c == '\u{3000}'
}

/// The length of `v` without its trailing whitespace.
fn trimmed_len(v: &Vec<char>, end: usize) -> (k: usize)
    requires
        end <= v.len(),
    ensures
        k <= end,
        v@.take(k as int) == trim_end(v@.take(end as int)),
{
    let mut k = end;
    while k > 0 && is_whitespace(v[k - 1])
        invariant
            k <= end <= v.len(),
            trim_end(v@.take(k as int)) == trim_end(v@.take(end as int)),
        decreases k,
    {
        assert(v@.take(k as int).drop_last() =~= v@.take(k - 1));
        k = k - 1;
    }
    k
}

/// Appends `line` without its trailing whitespace to `out`.
fn push_trimmed(out: &mut String, line: &Vec<char>)
    ensures
        final(out)@ == old(out)@ + trim_end(line@),
{
    let k = trimmed_len(line, line.len());
    assert(line@.take(line.len() as int) =~= line@);
    let mut i: usize = 0;
    while i < k
        invariant
            k <= line.len(),
            i <= k,
            out@ == old(out)@ + line@.take(i as int),
        decreases k - i,
    {
        push_char(out, line[i]);
        assert(line@.take(i + 1) =~= line@.take(i as int).push(line[i as int]));
        i = i + 1;
    }
    assert(line@.take(k as int) == trim_end(line@));
}

/// The comparison form of an output: trailing whitespace removed from the
/// whole text and from each line, lines joined by `'\n'`.
pub fn normalize_output(s: &str) -> (r: String)
    ensures
        r@ == normalized(s@),
{
    let v = chars_of(s);
    let k = trimmed_len(&v, v.len());
    proof {
        assert(v@.take(v.len() as int) =~= v@);
    }
    let ghost t = v@.take(k as int);
    let mut out = String::new();
    let mut line: Vec<char> = Vec::new();
    let ghost mut done: Seq<Seq<char>> = Seq::empty();
    let mut i: usize = 0;
    while i < k
        invariant
            k <= v.len(),
            t == v@.take(k as int),
            i <= k,
            split_lines(t.take(i as int)) == done.push(line@),
            out@ == if done.len() == 0 {
                Seq::<char>::empty()
            } else {
                join_lines(done.map_values(|l: Seq<char>| trim_end(l))) + seq!['\n']
            },
        decreases k - i,
    {
        let c = v[i];
        proof {
            assert(t.take(i + 1).drop_last() =~= t.take(i as int));
            assert(t.take(i + 1).last() == c);
        }
        if c == '\n' {
            push_trimmed(&mut out, &line);
            push_char(&mut out, '\n');
            proof {
                let ms = done.map_values(|l: Seq<char>| trim_end(l));
                lemma_join_push(ms, trim_end(line@));
                assert(done.push(line@).map_values(|l: Seq<char>| trim_end(l)) =~= ms.push(
                    trim_end(line@),
                ));
                done = done.push(line@);
            }
            line = Vec::new();
            proof {
                assert(split_lines(t.take(i + 1)) =~= done.push(line@));
            }
        } else {
            line.push(c);
            proof {
                assert(split_lines(t.take(i + 1)) =~= done.push(line@));
            }
        }
        i = i + 1;
    }
    push_trimmed(&mut out, &line);
    proof {
        assert(t.take(k as int) =~= t);
        let ms = done.map_values(|l: Seq<char>| trim_end(l));
        lemma_join_push(ms, trim_end(line@));
        let all = split_lines(t).map_values(|l: Seq<char>| trim_end(l));
        assert(all =~= ms.push(trim_end(line@)));
        assert(out@ =~= join_lines(all));
        lemma_trim_end_prefix(s@);
        if t.len() > 0 {
            lemma_lines_of_trimmed(t);
        } else {
            assert(split_lines(t) =~= seq![Seq::<char>::empty()]);
            assert(rust_lines(t).map_values(|l: Seq<char>| trim_end(l)) =~= Seq::<
                Seq<char>,
            >::empty());
        }
    }
    out
}

} // verus!
