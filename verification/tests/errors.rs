//! Errors: what they say, and what they are recognized as.

use gitbatch::error::Timeout;
use gitbatch::mode::Mode;
use gitbatch::tui::repo::{fail_kind, op_state_from_result, FailKind, RepoOpState};
use gitbatch::{AppError, Result};

#[test]
fn cycle_skips_fetch() {
    let mut mode = Mode::Pull;
    for _ in 0..8 {
        mode = mode.cycle();
        assert_ne!(mode, Mode::Fetch);
    }
    // A stale Fetch mode re-enters the cycle at Pull.
    assert_eq!(Mode::Fetch.cycle(), Mode::Pull);
}

#[test]
fn cycle_visits_four_modes_in_order() {
    assert_eq!(Mode::Pull.cycle(), Mode::Merge);
    assert_eq!(Mode::Merge.cycle(), Mode::Rebase);
    assert_eq!(Mode::Rebase.cycle(), Mode::Push);
    assert_eq!(Mode::Push.cycle(), Mode::Pull);
    assert_eq!(Mode::default(), Mode::Pull);
    assert_eq!(Mode::Rebase.as_str(), "rebase");
}

#[test]
fn detects_auth_related_git_errors() {
    let error = AppError::GitCommandFailed {
        command: "git fetch".into(),
        code: Some(128),
        output: "fatal: Authentication failed for 'https://example.invalid/repo.git/'".into(),
    };
    assert!(error.requires_credentials());
    assert!(!error.suggests_force_push());
}

#[test]
fn detects_force_push_suggestion() {
    let error = AppError::GitCommandFailed {
        command: "git push".into(),
        code: Some(1),
        output: "! [rejected] main -> main (non-fast-forward)\nerror: failed to push some refs"
            .into(),
    };
    assert!(error.suggests_force_push());
    assert!(!error.requires_credentials());
}

fn git_err(output: &str) -> AppError {
    AppError::GitCommandFailed {
        command: "git test".into(),
        code: Some(1),
        output: output.into(),
    }
}

#[test]
fn fail_kind_categorizes_git_errors() {
    assert_eq!(
        fail_kind(&git_err("fatal: Authentication failed for 'https://x'")),
        FailKind::Credentials
    );
    assert_eq!(
        fail_kind(&git_err("CONFLICT (content): Merge conflict in f.txt")),
        FailKind::Conflict
    );
    assert_eq!(
        fail_kind(&git_err(
            "fatal: unable to access: Failed to connect to host"
        )),
        FailKind::Network
    );
    assert_eq!(fail_kind(&git_err("some other failure")), FailKind::Generic);
}

#[test]
fn op_state_from_result_builds_success_and_fail() {
    let ok: Result<String> = Ok("line one\nline two".into());
    match op_state_from_result(&ok, "done") {
        RepoOpState::Success(m) => assert_eq!(m, "line one | line two"),
        _ => panic!("expected success"),
    }
    let ok_empty: Result<String> = Ok("  ".into());
    match op_state_from_result(&ok_empty, "fallback msg") {
        RepoOpState::Success(m) => assert_eq!(m, "fallback msg"),
        _ => panic!("expected success"),
    }
    let err: Result<String> = Err(git_err("Could not resolve host: example.com"));
    match op_state_from_result(&err, "unused") {
        RepoOpState::Fail { kind, .. } => assert_eq!(kind, FailKind::Network),
        _ => panic!("expected fail"),
    }
}

#[test]
fn every_error_has_its_message() {
    assert_eq!(
        AppError::CommandTimeout {
            command: "git fetch".into(),
            timeout: Timeout::new(1, 500_000_000),
        }
        .message(),
        "git command timed out after 1.5s: git fetch"
    );
    assert_eq!(AppError::Config("no home".into()).message(), "configuration error: no home");
    assert_eq!(AppError::Io("denied".into()).message(), "io error: denied");
    assert_eq!(AppError::Yaml("bad".into()).message(), "yaml error: bad");
    assert_eq!(
        AppError::NoRepositoriesFound.message(),
        "no git repositories found in the selected directories"
    );
    assert_eq!(
        AppError::NotRepository("/x".into()).message(),
        "path does not look like a git repository: /x"
    );
    assert_eq!(
        AppError::UnsupportedQuickMode("m".into()).message(),
        "unsupported quick mode: m"
    );
    assert_eq!(
        AppError::BatchFailures { failed: 2, total: 7 }.message(),
        "batch completed with failures: 2/7"
    );
    assert_eq!(
        AppError::AutoStashNotRestored { reason: "why".into() }.message(),
        "auto-stash not restored: why"
    );
    assert!(AppError::CredentialPromptDetected { output: "Password:".into() }
        .requires_credentials());
    assert_eq!(
        git_err("boom").message(),
        "git command failed (git test, exit=Some(1)): boom"
    );
    assert_eq!(
        AppError::GitCommandFailed { command: "git x".into(), code: None, output: "y".into() }
            .message(),
        "git command failed (git x, exit=None): y"
    );
}

#[test]
fn recognition_ignores_case() {
    assert!(git_err("COULD NOT RESOLVE HOST: x").is_network_error());
    assert!(git_err("Automatic merge failed; fix conflicts").is_merge_conflict());
    assert!(!git_err("all good").is_merge_conflict());
    assert!(!git_err("all good").is_rebase_conflict());
}

#[test]
fn a_run_that_took_too_long_is_a_network_failure() {
    let late = AppError::CommandTimeout {
        command: "git fetch --prune".into(),
        timeout: Timeout::from_secs(90),
    };
    assert!(late.is_network_error());
    assert_eq!(fail_kind(&late), FailKind::Network);
    assert!(!AppError::NoRepositoriesFound.is_network_error());
}

#[test]
fn a_failure_is_told_on_one_line() {
    let err: Result<String> = Err(git_err("error: one\nfatal: two"));
    match op_state_from_result(&err, "unused") {
        RepoOpState::Fail { message, kind } => {
            assert_eq!(
                message,
                "git command failed (git test, exit=Some(1)): error: one | fatal: two"
            );
            assert_eq!(kind, FailKind::Generic);
        }
        other => panic!("expected fail, got {other:?}"),
    }
}
