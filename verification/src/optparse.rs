//! The commands and options of the tool, and the code-sharing choice of a
//! submission.
use vstd::prelude::*;

use crate::datastore::Cookies;
use crate::text::str_eq;

verus! {

/// A command of the tool.
pub enum Opts {
    Login(Login),
    Test(Test),
    Submit(Submit),
}

/// `login`: store the session cookies, given as options or asked for.
#[derive(Clone)]
pub struct Login {
    pub cookies: Option<Cookies>,
}

/// `test`: run a solution against the sample tests of a problem.
pub struct Test {
    pub problem_id: String,
    pub bin_or_cmd: Option<BinOrCmd>,
    /// `-p, --spj-prompt`: ask before going on when a leniently judged
    /// problem fails its samples.
    pub spj_prompt: bool,
    /// `-r, --refresh`: fetch the sample tests again.
    pub refresh: bool,
}

/// What to run: a binary of the current crate, or a shell command.
pub enum BinOrCmd {
    Bin(String),
    Cmd(String),
}

/// `submit`: submit a solution to a problem.
pub struct Submit {
    pub problem_id: String,
    pub path: Option<String>,
    pub language: Option<usize>,
    pub code_open: Option<CodeOpen>,
}

/// Whether the submitted code is shown to others: always, never, or once
/// it is accepted.
#[derive(Debug, Clone, Copy, PartialEq, Eq, Structural)]
pub enum CodeOpen {
    Yes,
    No,
    YesOnAc,
}

/// A code-sharing choice that is none of `y`, `n`, `ac`.
#[derive(Debug, Clone, Copy, PartialEq, Eq, Structural)]
pub struct ParseError;

impl ParseError {
    /// What went wrong, as shown to the user.
    pub fn message(&self) -> (r: &'static str)
        ensures
            r@ == "provided string was not `y`, `n`, or `ac`"@,
    {
        "provided string was not `y`, `n`, or `ac`"
    }

    /// A short description of the error.
    pub fn description(&self) -> (r: &'static str)
        ensures
            r@ == "failed to parse code-open"@,
    {
        "failed to parse code-open"
    }
}

/// The code-sharing choice written as `s`.
pub open spec fn code_open_spec(s: Seq<char>) -> Result<CodeOpen, ParseError> {
    if s == "y"@ {
        Ok(CodeOpen::Yes)
    } else if s == "n"@ {
        Ok(CodeOpen::No)
    } else if s == "ac"@ {
        Ok(CodeOpen::YesOnAc)
    } else {
        Err(ParseError)
    }
}

/// The value of a code-sharing choice in the submit form.
pub open spec fn code_open_value(c: CodeOpen) -> Seq<char> {
    match c {
        CodeOpen::Yes => "open"@,
        CodeOpen::No => "close"@,
        CodeOpen::YesOnAc => "onlyaccepted"@,
    }
}

impl CodeOpen {
    /// Reads a code-sharing choice: `y`, `n` or `ac`.
    pub fn parse(s: &str) -> (r: Result<CodeOpen, ParseError>)
        ensures
            r == code_open_spec(s@),
    {
        if str_eq(s, "y") {
            Ok(CodeOpen::Yes)
        } else if str_eq(s, "n") {
            Ok(CodeOpen::No)
        } else if str_eq(s, "ac") {
            Ok(CodeOpen::YesOnAc)
        } else {
            Err(ParseError)
        }
    }

    /// The value sent in the submit form: `open`, `close` or
    /// `onlyaccepted`.
    pub fn to_string(&self) -> (r: String)
        ensures
            r@ == code_open_value(*self),
    {
        match self {
            CodeOpen::Yes => "open".to_owned(),
            CodeOpen::No => "close".to_owned(),
            CodeOpen::YesOnAc => "onlyaccepted".to_owned(),
        }
    }
}

impl std::str::FromStr for CodeOpen {
    type Err = ParseError;

    fn from_str(s: &str) -> (r: Result<Self, Self::Err>)
        ensures
            r == code_open_spec(s@),
    {
        CodeOpen::parse(s)
    }
}

/// The written choices are exactly `y`, `n` and `ac`, and each reads as
/// a different choice.
pub proof fn law_code_open_parse(s: Seq<char>)
    ensures
        code_open_spec(s) is Ok <==> (s == "y"@ || s == "n"@ || s == "ac"@),
        code_open_spec("y"@) == Ok::<CodeOpen, ParseError>(CodeOpen::Yes),
        code_open_spec("n"@) == Ok::<CodeOpen, ParseError>(CodeOpen::No),
        code_open_spec("ac"@) == Ok::<CodeOpen, ParseError>(CodeOpen::YesOnAc),
{
    reveal_strlit("y");
    reveal_strlit("n");
    reveal_strlit("ac");
    assert("y"@[0] == 'y' && "n"@[0] == 'n' && "ac"@.len() == 2 && "y"@.len() == 1);
    assert("y"@ != "n"@);
    assert("y"@ != "ac"@);
    assert("n"@ != "ac"@);
}

/// Different code-sharing choices are sent as different form values.
pub proof fn law_code_open_values_distinct(a: CodeOpen, b: CodeOpen)
    ensures
        code_open_value(a) == code_open_value(b) ==> a == b,
{
    reveal_strlit("open");
    reveal_strlit("close");
    reveal_strlit("onlyaccepted");
    assert("open"@.len() == 4);
    assert("close"@.len() == 5);
    assert("onlyaccepted"@.len() == 12);
}

} // verus!
