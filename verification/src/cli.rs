//! The defaults of the `submit` command.
use vstd::prelude::*;

use crate::optparse::CodeOpen;

verus! {

/// The language submitted when none is given: Rust 2021.
pub const DEFAULT_LANGUAGE: usize = 113;

/// The language id of a submission: the one given, or Rust 2021 (113).
pub fn language_or_default(language: Option<usize>) -> (r: usize)
    ensures
        r == match language {
            Some(l) => l,
            None => DEFAULT_LANGUAGE,
        },
{
    match language {
        Some(l) => l,
        None => DEFAULT_LANGUAGE,
    }
}

/// The files tried, in order, for the source of a submission: the path
/// given, or `src/main.rs` then `src/bin/main.rs`.
pub fn source_paths(path: &Option<String>) -> (r: Vec<String>)
    ensures
        match path {
            Some(p) => r@.len() == 1 && r@[0]@ == p@,
            None => r@.len() == 2 && r@[0]@ == "src/main.rs"@ && r@[1]@ == "src/bin/main.rs"@,
        },
{
    let mut r: Vec<String> = Vec::new();
    match path {
        Some(p) => {
            r.push(p.clone());
        },
        None => {
            r.push("src/main.rs".to_owned());
            r.push("src/bin/main.rs".to_owned());
        },
    }
    r
}

/// The code-sharing value sent, when the user chose one.
pub fn code_open_choice(code_open: Option<CodeOpen>) -> (r: Option<String>)
    ensures
        match (code_open, r) {
            (Some(c), Some(v)) => v@ == crate::optparse::code_open_value(c),
            (None, None) => true,
            _ => false,
        },
{
    match code_open {
        Some(c) => Some(c.to_string()),
        None => None,
    }
}

} // verus!
