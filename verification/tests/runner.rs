use cargo_boj::diff::CaseVerdict;
use cargo_boj::login::{already_logged_in, autologin_needs_click, login_succeeded};
use cargo_boj::optparse::BinOrCmd;
use cargo_boj::runner::{
    build_args, build_failure_message, command_line, executable_path, default_bin, missing_bin_message, CommandLine,
    DefaultBin, TestSession,
};

#[test]
fn build_command() {
    assert_eq!(build_args("sol"), vec!["build", "--bin", "sol", "--release"]);
    assert_eq!(build_failure_message("sol"), "Error: `cargo build --bin sol --release` failed.");
}

#[test]
fn command_lines() {
    match command_line(&BinOrCmd::Bin("main".to_string()), false) {
        CommandLine::Executable(b) => assert_eq!(b, "main"),
        _ => panic!("expected an executable"),
    }
    match command_line(&BinOrCmd::Cmd("python a.py".to_string()), false) {
        CommandLine::Program(p, a) => {
            assert_eq!(p, "sh");
            assert_eq!(a, vec!["-c", "python a.py"]);
        }
        _ => panic!("expected a program"),
    }
    match command_line(&BinOrCmd::Cmd("a.exe".to_string()), true) {
        CommandLine::Program(p, a) => {
            assert_eq!(p, "cmd");
            assert_eq!(a, vec!["/C", "a.exe"]);
        }
        _ => panic!("expected a program"),
    }
}

#[test]
fn default_binaries() {
    assert_eq!(default_bin(true, true), DefaultBin::CrateDir);
    assert_eq!(default_bin(false, true), DefaultBin::Main);
    assert_eq!(default_bin(false, false), DefaultBin::Missing);
    assert!(missing_bin_message().starts_with("Error: Neither"));
}

#[test]
fn strict_session_stops_at_first_failure() {
    let mut s = TestSession::new(false, false);
    assert!(s.record(CaseVerdict::Passed));
    assert!(!s.failed);
    assert!(!s.record(CaseVerdict::Failed));
    assert!(s.failed);
    assert!(!s.needs_prompt());
}

#[test]
fn lenient_session_runs_everything() {
    let mut s = TestSession::new(true, true);
    assert!(s.record(CaseVerdict::FailedLenient));
    assert!(s.record(CaseVerdict::Passed));
    assert!(s.failed);
    assert!(s.needs_prompt());
    assert!(!s.succeeds(false));
    assert!(s.succeeds(true));
    let mut quiet = TestSession::new(true, false);
    quiet.record(CaseVerdict::FailedLenient);
    assert!(!quiet.needs_prompt());
    assert!(quiet.succeeds(false));
}

#[test]
fn login_decisions() {
    assert!(!already_logged_in("https://www.acmicpc.net/login?next=%2F"));
    assert!(already_logged_in("https://www.acmicpc.net/"));
    assert!(autologin_needs_click(&None));
    assert!(autologin_needs_click(&Some("false".to_string())));
    assert!(!autologin_needs_click(&Some("true".to_string())));
    assert!(login_succeeded("https://www.acmicpc.net/"));
    assert!(!login_succeeded("https://www.acmicpc.net/login"));
}


#[test]
fn only_named_binaries_are_built() {
    assert_eq!(cargo_boj::runner::build_target(&BinOrCmd::Bin("sol".to_string())), Some("sol".to_string()));
    assert_eq!(cargo_boj::runner::build_target(&BinOrCmd::Cmd("python a.py".to_string())), None);
}

#[test]
fn executable_paths() {
    assert_eq!(executable_path("sol", ""), "target/release/sol");
    assert_eq!(executable_path("sol", "exe"), "target/release/sol.exe");
    assert_eq!(executable_path("a.b", "exe"), "target/release/a.exe");
    assert_eq!(executable_path(".hidden", "exe"), "target/release/.hidden.exe");
}
