//! Running a solution against the sample tests of a problem: what is built,
//! what is run, and how the verdicts of the test cases decide the outcome of
//! the `test` command.
use vstd::prelude::*;

use crate::diff::{case_failed, CaseVerdict};
use crate::normalize::normalized;
use crate::optparse::BinOrCmd;
use crate::text::concat;

verus! {

/// The arguments of the `cargo` call that builds a binary before testing.
pub fn build_args(bin: &str) -> (r: Vec<String>)
    ensures
        r@.len() == 4,
        r@[0]@ == "build"@,
        r@[1]@ == "--bin"@,
        r@[2]@ == bin@,
        r@[3]@ == "--release"@,
{
    let mut r: Vec<String> = Vec::new();
    r.push("build".to_owned());
    r.push("--bin".to_owned());
    r.push(bin.to_owned());
    r.push("--release".to_owned());
    r
}

/// The binary that is built before testing: a named binary is; a shell
/// command needs no build.
pub fn build_target(bin_or_cmd: &BinOrCmd) -> (r: Option<String>)
    ensures
        match (bin_or_cmd, r) {
            (BinOrCmd::Bin(b), Some(t)) => t@ == b@,
            (BinOrCmd::Cmd(_), None) => true,
            _ => false,
        },
{
    match bin_or_cmd {
        BinOrCmd::Bin(b) => Some(b.clone()),
        BinOrCmd::Cmd(_) => None,
    }
}

/// The error reported when building the binary fails.
pub fn build_failure_message(bin: &str) -> (r: String)
    ensures
        r@ == "Error: `cargo build --bin "@ + bin@ + " --release` failed."@,
{
    let a = concat("Error: `cargo build --bin ", bin);
    concat(a.as_str(), " --release` failed.")
}

/// How a solution is started.
pub enum CommandLine {
    /// The release build of a binary of the current crate, by its name.
    Executable(String),
    /// A program with its arguments.
    Program(String, Vec<String>),
}

/// How a solution is started: a binary runs from the release build
/// directory; a command runs through `cmd /C` on Windows and `sh -c`
/// elsewhere.
pub fn command_line(bin_or_cmd: &BinOrCmd, windows: bool) -> (r: CommandLine)
    ensures
        match (bin_or_cmd, r) {
            (BinOrCmd::Bin(b), CommandLine::Executable(e)) => e@ == b@,
            (BinOrCmd::Cmd(c), CommandLine::Program(p, args)) => {
                &&& p@ == (if windows {
                    "cmd"@
                } else {
                    "sh"@
                })
                &&& args@.len() == 2
                &&& args@[0]@ == (if windows {
                    "/C"@
                } else {
                    "-c"@
                })
                &&& args@[1]@ == c@
            },
            _ => false,
        },
{
    match bin_or_cmd {
        BinOrCmd::Bin(b) => CommandLine::Executable(b.clone()),
        BinOrCmd::Cmd(c) => {
            let mut args: Vec<String> = Vec::new();
            if windows {
                args.push("/C".to_owned());
                args.push(c.clone());
                CommandLine::Program("cmd".to_owned(), args)
            } else {
                args.push("-c".to_owned());
                args.push(c.clone());
                CommandLine::Program("sh".to_owned(), args)
            }
        },
    }
}

/// The position of the last `'.'` in `s`, or `-1` when there is none.
pub open spec fn last_dot(s: Seq<char>) -> int
    decreases s.len(),
{
    if s.len() == 0 {
        -1
    } else if s.last() == '.' {
        s.len() - 1
    } else {
        last_dot(s.drop_last())
    }
}

/// A file name without its extension: without the part from its last
/// `'.'`, unless that `'.'` starts the name.
pub open spec fn file_stem(name: Seq<char>) -> Seq<char> {
    if last_dot(name) <= 0 {
        name
    } else {
        name.take(last_dot(name))
    }
}

/// The file run for a binary of the current crate:
/// `target/release/<bin>` with its extension set to `ext` (the stem of
/// `bin`, then `'.'` and `ext` when `ext` is not empty). For the names cargo
/// accepts for a binary (letters, digits, `-`, `_`) this is the path that
/// `PathBuf::push` and `PathBuf::set_extension` give.
pub open spec fn executable_path_spec(bin: Seq<char>, ext: Seq<char>) -> Seq<char> {
    "target/release/"@ + file_stem(bin) + if ext.len() == 0 {
        Seq::empty()
    } else {
        "."@ + ext
    }
}

proof fn lemma_last_dot(s: Seq<char>)
    ensures
        -1 <= last_dot(s) < s.len(),
        last_dot(s) >= 0 ==> s[last_dot(s)] == '.',
        forall|k: int| last_dot(s) < k < s.len() ==> s[k] != '.',
    decreases s.len(),
{
    if s.len() > 0 && s.last() != '.' {
        lemma_last_dot(s.drop_last());
        assert forall|k: int| last_dot(s) < k < s.len() implies s[k] != '.' by {
            if k < s.len() - 1 {
                assert(s[k] == s.drop_last()[k]);
            }
        }
    }
}

/// A binary name without `'.'` is kept unchanged in the path of the file
/// run: `target/release/`, the name, then `'.'` and the extension when the
/// extension is not empty.
pub proof fn law_executable_path_keeps_plain_names(bin: Seq<char>, ext: Seq<char>)
    requires
        !bin.contains('.'),
    ensures
        ext.len() == 0 ==> executable_path_spec(bin, ext) == "target/release/"@ + bin,
        ext.len() > 0 ==> executable_path_spec(bin, ext) == "target/release/"@ + bin + "."@
            + ext,
{
    lemma_last_dot(bin);
    if last_dot(bin) >= 0 {
        assert(bin.contains('.')) by {
            assert(bin[last_dot(bin)] == '.');
        }
    }
    assert(file_stem(bin) == bin);
    if ext.len() == 0 {
        assert("target/release/"@ + bin + Seq::<char>::empty() =~= "target/release/"@ + bin);
    } else {
        assert("target/release/"@ + bin + ("."@ + ext) =~= "target/release/"@ + bin + "."@ + ext);
    }
}

/// The file run for a binary of the current crate (see
/// `executable_path_spec`); `ext` is the platform's executable extension.
pub fn executable_path(bin: &str, ext: &str) -> (r: String)
    ensures
        r@ == executable_path_spec(bin@, ext@),
{
    let v = crate::text::chars_of(bin);
    let mut i: usize = v.len();
    while i > 0 && v[i - 1] != '.'
        invariant
            v@ == bin@,
            i <= v.len(),
            forall|k: int| i <= k < v.len() ==> v@[k] != '.',
        decreases i,
    {
        i = i - 1;
    }
    proof {
        lemma_last_dot(bin@);
        let d = last_dot(bin@);
        if i > 0 {
            assert(v@[i - 1] == '.');
            if d > i - 1 {
                assert(bin@[d] == '.');
            }
            assert(d >= i - 1);
            assert(d == i - 1);
        } else {
            if d >= 0 {
                assert(bin@[d] == '.');
            }
            assert(d == -1);
        }
    }
    let stem = if i <= 1 {
        bin.to_owned()
    } else {
        crate::text::string_of_range(&v, 0, i - 1)
    };
    proof {
        if !(i <= 1) {
            assert(v@.subrange(0, i - 1) =~= bin@.take(i - 1));
        }
    }
    let dir = concat("target/release/", stem.as_str());
    if ext.unicode_len() == 0 {
        let r = dir;
        proof {
            assert(r@ =~= executable_path_spec(bin@, ext@));
        }
        r
    } else {
        let dotted = concat(".", ext);
        let r = concat(dir.as_str(), dotted.as_str());
        proof {
            assert(r@ =~= executable_path_spec(bin@, ext@));
        }
        r
    }
}

/// Which binary is tested when none is named.
#[derive(Debug, Clone, Copy, PartialEq, Eq, Structural)]
pub enum DefaultBin {
    /// `src/main.rs`: the binary named after the crate's directory.
    CrateDir,
    /// `src/bin/main.rs`: the binary `main`.
    Main,
    /// Neither file is there.
    Missing,
}

/// Which binary is tested when none is named: `src/main.rs` comes before
/// `src/bin/main.rs`.
pub fn default_bin(main_rs_exists: bool, bin_main_rs_exists: bool) -> (r: DefaultBin)
    ensures
        main_rs_exists ==> r == DefaultBin::CrateDir,
        !main_rs_exists && bin_main_rs_exists ==> r == DefaultBin::Main,
        !main_rs_exists && !bin_main_rs_exists ==> r == DefaultBin::Missing,
{
    if main_rs_exists {
        DefaultBin::CrateDir
    } else if bin_main_rs_exists {
        DefaultBin::Main
    } else {
        DefaultBin::Missing
    }
}

/// The error reported when no binary is named and none can be found.
pub fn missing_bin_message() -> (r: &'static str)
    ensures
        r@ == "Error: Neither src/main.rs nor src/bin/main.rs is present. Please specify --bin flag."@,
{
    "Error: Neither src/main.rs nor src/bin/main.rs is present. Please specify --bin flag."
}

/// The state of a run of the `test` command over the sample tests.
pub struct TestSession {
    /// Whether the problem is leniently judged (special judge or score).
    pub spj: bool,
    /// Whether to ask the user before succeeding when a leniently judged
    /// problem failed a sample.
    pub spj_prompt: bool,
    /// Whether a sample failed so far.
    pub failed: bool,
}

/// The first component tells whether more samples are run, the second
/// whether some sample has failed. Strict judging ends the run at a failing
/// sample; lenient judging goes on.
pub open spec fn record_spec(spj: bool, failed: bool, verdict: CaseVerdict) -> (bool, bool) {
    (spj || verdict == CaseVerdict::Passed, failed || verdict != CaseVerdict::Passed)
}

impl TestSession {
    /// A session that has run no sample yet.
    pub fn new(spj: bool, spj_prompt: bool) -> (r: TestSession)
        ensures
            r.spj == spj,
            r.spj_prompt == spj_prompt,
            !r.failed,
    {
        TestSession { spj, spj_prompt, failed: false }
    }

    /// Records the verdict of one sample; returns whether the run goes on
    /// (when not, the `test` command fails).
    pub fn record(&mut self, verdict: CaseVerdict) -> (go_on: bool)
        ensures
            final(self).spj == old(self).spj,
            final(self).spj_prompt == old(self).spj_prompt,
            (go_on, final(self).failed) == record_spec(old(self).spj, old(self).failed, verdict),
    {
        self.failed = self.failed || verdict != CaseVerdict::Passed;
        self.spj || verdict == CaseVerdict::Passed
    }

    /// Whether the user is asked to confirm before the command succeeds:
    /// when asked for, on a leniently judged problem that failed a sample.
    pub fn needs_prompt(&self) -> (r: bool)
        ensures
            r == (self.spj && self.spj_prompt && self.failed),
    {
        self.spj && self.spj_prompt && self.failed
    }

    /// Whether the command succeeds once all samples ran; `proceed` is the
    /// user's answer when they were asked.
    pub fn succeeds(&self, proceed: bool) -> (r: bool)
        ensures
            r == (!(self.spj && self.spj_prompt && self.failed) || proceed),
    {
        !self.needs_prompt() || proceed
    }
}

/// The session after the samples with pass/fail results `passes`:
/// `None` when the run stopped at a failing sample, else whether a sample
/// failed.
pub open spec fn session_after(spj: bool, failed: bool, passes: Seq<bool>) -> Option<bool>
    decreases passes.len(),
{
    if passes.len() == 0 {
        Some(failed)
    } else {
        let verdict = if passes[0] {
            CaseVerdict::Passed
        } else if spj {
            CaseVerdict::FailedLenient
        } else {
            CaseVerdict::Failed
        };
        let (go_on, failed2) = record_spec(spj, failed, verdict);
        if go_on {
            session_after(spj, failed2, passes.drop_first())
        } else {
            None
        }
    }
}

/// Whether the `test` command succeeds on samples with results `passes`,
/// `proceed` being the user's answer if asked.
pub open spec fn test_command_succeeds(
    spj: bool,
    spj_prompt: bool,
    passes: Seq<bool>,
    proceed: bool,
) -> bool {
    match session_after(spj, false, passes) {
        None => false,
        Some(failed) => !(spj && spj_prompt && failed) || proceed,
    }
}

proof fn lemma_session_after(spj: bool, failed: bool, passes: Seq<bool>)
    ensures
        !spj ==> (session_after(spj, failed, passes) is Some <==> forall|i: int|
            0 <= i < passes.len() ==> #[trigger] passes[i]),
        !spj ==> (session_after(spj, failed, passes) matches Some(f) ==> f == failed),
        spj ==> session_after(spj, failed, passes) == Some(
            failed || exists|i: int| 0 <= i < passes.len() && !#[trigger] passes[i],
        ),
    decreases passes.len(),
{
    if passes.len() > 0 {
        let rest = passes.drop_first();
        lemma_session_after(spj, failed || !passes[0], rest);
        lemma_session_after(spj, failed, rest);
        assert forall|i: int| 0 <= i < rest.len() implies rest[i] == passes[i + 1] by {}
        if !spj {
            if passes[0] {
                assert((forall|i: int| 0 <= i < rest.len() ==> #[trigger] rest[i]) <==> (forall|
                    i: int,
                | 0 <= i < passes.len() ==> #[trigger] passes[i])) by {
                    if forall|i: int| 0 <= i < rest.len() ==> #[trigger] rest[i] {
                        assert forall|i: int| 0 <= i < passes.len() implies #[trigger] passes[i] by {
                            if i > 0 {
                                assert(rest[i - 1] == passes[i]);
                            }
                        }
                    }
                }
            }
        } else {
            let f2 = failed || !passes[0];
            assert((f2 || exists|i: int| 0 <= i < rest.len() && !#[trigger] rest[i]) == (failed
                || exists|i: int| 0 <= i < passes.len() && !#[trigger] passes[i])) by {
                if exists|i: int| 0 <= i < passes.len() && !#[trigger] passes[i] {
                    let i = choose|i: int| 0 <= i < passes.len() && !#[trigger] passes[i];
                    if i > 0 {
                        assert(!rest[i - 1]);
                    }
                }
                if exists|i: int| 0 <= i < rest.len() && !#[trigger] rest[i] {
                    let i = choose|i: int| 0 <= i < rest.len() && !#[trigger] rest[i];
                    assert(!passes[i + 1]);
                }
            }
        }
    }
}

/// The outcome of the `test` command: on a strictly judged problem it
/// succeeds exactly when every sample passes; on a leniently judged problem
/// it succeeds unless a sample failed, the prompt was asked for, and the
/// user declined.
pub proof fn law_test_command_outcome(spj: bool, spj_prompt: bool, passes: Seq<bool>, proceed: bool)
    ensures
        !spj ==> (test_command_succeeds(spj, spj_prompt, passes, proceed) <==> forall|i: int|
            0 <= i < passes.len() ==> #[trigger] passes[i]),
        spj && !spj_prompt ==> test_command_succeeds(spj, spj_prompt, passes, proceed),
        spj && spj_prompt ==> (test_command_succeeds(spj, spj_prompt, passes, proceed) <==> (
        forall|i: int| 0 <= i < passes.len() ==> #[trigger] passes[i]) || proceed),
{
    lemma_session_after(spj, false, passes);
}

/// The `test` command on a strictly judged problem succeeds exactly when,
/// on every sample, the solution ends without a runtime error and its output
/// equals the expected output once trailing whitespace is ignored on every
/// line and at the end.
pub proof fn law_strict_test_compares_outputs(
    results: Seq<Seq<char>>,
    expected: Seq<Seq<char>>,
    runtime_errors: Seq<bool>,
    spj_prompt: bool,
    proceed: bool,
)
    requires
        results.len() == expected.len(),
        runtime_errors.len() == results.len(),
    ensures
        test_command_succeeds(
            false,
            spj_prompt,
            Seq::new(
                results.len(),
                |i: int|
                    !case_failed(normalized(results[i]) != normalized(expected[i]), runtime_errors[i]),
            ),
            proceed,
        ) <==> forall|i: int|
            0 <= i < results.len() ==> !#[trigger] runtime_errors[i] && normalized(results[i])
                == normalized(expected[i]),
{
    let passes = Seq::new(
        results.len(),
        |i: int| !case_failed(normalized(results[i]) != normalized(expected[i]), runtime_errors[i]),
    );
    law_test_command_outcome(false, spj_prompt, passes, proceed);
    assert forall|i: int| 0 <= i < results.len() implies passes[i] == (!runtime_errors[i]
        && normalized(results[i]) == normalized(expected[i])) by {}
    if forall|i: int| 0 <= i < passes.len() ==> #[trigger] passes[i] {
        assert forall|i: int| 0 <= i < results.len() implies !#[trigger] runtime_errors[i]
            && normalized(results[i]) == normalized(expected[i]) by {
            assert(passes[i]);
        }
    }
    if forall|i: int| 0 <= i < results.len() ==> !#[trigger] runtime_errors[i] && normalized(
        results[i],
    ) == normalized(expected[i]) {
        assert forall|i: int| 0 <= i < passes.len() implies #[trigger] passes[i] by {
            assert(!runtime_errors[i]);
        }
    }
}

} // verus!
