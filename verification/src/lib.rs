//! Verified core of a command-line helper that tests solutions against the
//! sample tests of Baekjoon Online Judge problems and submits them.
pub mod text;
pub mod normalize;
pub mod diff;
pub mod html;
pub mod datastore;
pub mod submit;
pub mod optparse;
pub mod runner;
pub mod login;
pub mod cli;
