//! The decisions of the browser-driven login: whether the session is
//! already logged in, whether auto-login must be ticked, and whether the
//! login went through.
use vstd::prelude::*;

use crate::text::str_eq;

verus! {

/// The login page, which goes back to the front page once logged in.
pub const LOGIN_PAGE: &'static str = "https://www.acmicpc.net/login?next=%2F";

/// The front page, where a successful login lands.
pub const FRONT_PAGE: &'static str = "https://www.acmicpc.net/";

/// Whether the browser is already logged in: opening the login page led
/// somewhere else.
pub fn already_logged_in(current_url: &str) -> (r: bool)
    ensures
        r == (current_url@ != LOGIN_PAGE@),
{
    !str_eq(current_url, LOGIN_PAGE)
}

/// Whether the auto-login box must be clicked: its `checked` property is
/// not `"true"`.
pub fn autologin_needs_click(checked: &Option<String>) -> (r: bool)
    ensures
        r == !(checked matches Some(c) && c@ == "true"@),
{
    match checked {
        Some(c) => !str_eq(c.as_str(), "true"),
        None => true,
    }
}

/// Whether the login went through: the browser landed on the front page.
pub fn login_succeeded(url_after_login: &str) -> (r: bool)
    ensures
        r == (url_after_login@ == FRONT_PAGE@),
{
    str_eq(url_after_login, FRONT_PAGE)
}

} // verus!
