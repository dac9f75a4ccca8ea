//! Commands, their outcomes, and the operations made of several of them.

use gitbatch::error::Timeout;
use gitbatch::git::command::{
    askpass_file_name, askpass_script, classify, interpret, looks_like_credential_prompt,
    trace_line, written_text, RunEnd,
};
use gitbatch::git::fast_forward::parse_nul_list;
use gitbatch::git::remote_run::run_remote_with_autostash;
use gitbatch::git::worker_limit;
use gitbatch::git::{
    AutoRestore, AutoStash, AutoStashGuard, Credentials, FastForwardCheck, GitCommand, GitOutput,
    GitRunner, RemoteAction, RemoteRun, RepositorySnapshot, Task,
};
use gitbatch::mode::Mode;
use gitbatch::{AppError, Result};

fn out(text: &str) -> Result<GitOutput> {
    Ok(GitOutput {
        code: Some(0),
        stdout: text.to_string(),
        stderr: String::new(),
    })
}

fn failed(code: i32, text: &str) -> Result<GitOutput> {
    Err(AppError::GitCommandFailed {
        command: "git".to_string(),
        code: Some(code),
        output: text.to_string(),
    })
}

fn args(command: &Option<GitCommand>) -> String {
    match command {
        Some(c) => c.display(),
        None => "nothing".to_string(),
    }
}

#[test]
fn combined_output_is_trimmed_and_stacked() {
    let both = GitOutput {
        code: Some(0),
        stdout: " out \n".into(),
        stderr: "\nerr".into(),
    };
    assert_eq!(both.combined(), "out\nerr");
    let one = GitOutput {
        code: Some(0),
        stdout: "  ".into(),
        stderr: "err\n".into(),
    };
    assert_eq!(one.combined(), "err");
}

#[test]
fn worker_limit_is_four_per_core_and_at_least_four() {
    assert_eq!(worker_limit(Some(8)), 32);
    assert_eq!(worker_limit(Some(0)), 4);
    assert_eq!(worker_limit(None), 4);
    assert_eq!(worker_limit(Some(usize::MAX)), usize::MAX);
}

#[test]
fn reading_commands_take_no_optional_locks() {
    let c = GitRunner::default().branch_list("/r");
    assert_eq!(c.display(), "git branch --all --verbose --verbose --no-abbrev");
    let env = c.environment("/tmp/ask");
    assert!(env.contains(&("GIT_OPTIONAL_LOCKS".to_string(), "0".to_string())));
    assert!(!env.iter().any(|(k, _)| k == "GIT_ASKPASS"));
    let plain = GitRunner::default().run("/r", &["status"]).environment("/tmp/ask");
    assert!(!plain.iter().any(|(k, _)| k == "GIT_OPTIONAL_LOCKS"));
    assert!(plain.contains(&("GIT_TERMINAL_PROMPT".to_string(), "0".to_string())));
}

#[test]
fn credentials_are_handed_over_through_the_environment() {
    let credentials = Credentials {
        username: "ann".into(),
        password: "secret".into(),
    };
    let c = GitRunner::default().run_with_credentials("/r", &["fetch"], &credentials);
    let env = c.environment("/tmp/ask.sh");
    assert!(env.contains(&("GIT_ASKPASS".to_string(), "/tmp/ask.sh".to_string())));
    assert!(env.contains(&("GITBATCH_USERNAME".to_string(), "ann".to_string())));
    assert!(env.contains(&("GITBATCH_PASSWORD".to_string(), "secret".to_string())));
    assert!(askpass_script().starts_with("#!/bin/sh\n"));
    assert_eq!(askpass_file_name(7, 12), "gitbatch-askpass-7-12.sh");
}

#[test]
fn credential_prompts_are_recognized() {
    for text in [
        "Password:",
        "git@example.com's password:",
        "Password for 'https://ann@example.com':",
        "Username for 'https://example.com':",
        "Enter passphrase for key '/home/ann/.ssh/id':",
        "Enter PIN for ECDSA-SK key /home/ann/.ssh/id:",
        "please give your 2FA Token now",
    ] {
        assert!(looks_like_credential_prompt(text), "{text}");
    }
    assert!(!looks_like_credential_prompt("fatal: not a git repository"));
}

#[test]
fn a_run_is_judged_by_its_exit_code() {
    let c = GitRunner::default().run("/r", &["fetch", "--prune"]);
    let ok = interpret(
        &c,
        Timeout::from_secs(90),
        RunEnd::Exited {
            code: Some(0),
            stdout: b" fine \n".to_vec(),
            stderr: vec![0xff],
        },
    );
    match ok {
        Ok(o) => {
            assert_eq!(o.stdout, "fine");
            assert_eq!(o.stderr, "\u{fffd}");
        }
        Err(e) => panic!("{}", e.message()),
    }
    let bad = interpret(
        &c,
        Timeout::from_secs(90),
        RunEnd::Exited {
            code: Some(1),
            stdout: Vec::new(),
            stderr: b"boom".to_vec(),
        },
    );
    match bad {
        Err(AppError::GitCommandFailed {
            command,
            code,
            output,
        }) => {
            assert_eq!(command, "git fetch --prune");
            assert_eq!(code, Some(1));
            assert_eq!(output, "boom");
        }
        other => panic!("{other:?}"),
    }
    let asked = interpret(
        &c,
        Timeout::from_secs(90),
        RunEnd::Exited {
            code: None,
            stdout: b"Username for 'https://x':".to_vec(),
            stderr: Vec::new(),
        },
    );
    assert!(matches!(
        asked,
        Err(AppError::CredentialPromptDetected { .. })
    ));
    let late = interpret(&c, Timeout::from_secs(90), RunEnd::TimedOut);
    match late {
        Err(e) => assert_eq!(
            e.message(),
            "git command timed out after 90s: git fetch --prune"
        ),
        Ok(_) => panic!("expected a timeout"),
    }
    assert!(matches!(
        interpret(&c, Timeout::from_secs(1), RunEnd::NotRun("no git".into())),
        Err(AppError::Io(_))
    ));
    assert!(matches!(
        interpret(&c, Timeout::from_secs(1), RunEnd::NoHelper("full".into())),
        Err(AppError::Config(_))
    ));
    assert!(classify(&c, Some(0), "", "", true).is_ok());
    assert_eq!(written_text(b"a\n", b" b "), "a\nb");
}

#[test]
fn trace_has_one_line_per_run() {
    let c = GitRunner::default().run("/home/user/projects/repo1", &["fetch", "--prune"]);
    assert_eq!(
        trace_line(
            1718123456,
            &c,
            Some(0),
            "From github.com:user/repo1\nnew branch"
        ),
        "[1718123456] cwd=/home/user/projects/repo1 code=0 cmd=git fetch --prune \
         output=From github.com:user/repo1 | new branch"
    );
    assert!(trace_line(1, &c, None, "").contains(" code=None "));
}

#[test]
fn modes_map_to_actions() {
    assert_eq!(RemoteAction::from_mode(Mode::Fetch), RemoteAction::Fetch);
    assert_eq!(RemoteAction::from_mode(Mode::Pull), RemoteAction::PullFfOnly);
    assert_eq!(RemoteAction::from_mode(Mode::Merge), RemoteAction::Merge);
    assert_eq!(RemoteAction::from_mode(Mode::Rebase), RemoteAction::Rebase);
    assert_eq!(
        RemoteAction::from_mode(Mode::Push),
        RemoteAction::Push { force: false }
    );
    assert!(RemoteAction::Push { force: true }.is_push());
    assert!(!RemoteAction::Merge.is_push());
}

#[test]
fn pull_is_fast_forward_only() {
    let t = GitRunner::default().run_mode("/r", Mode::Pull);
    assert_eq!(
        args(&t.command()),
        "git pull --ff-only --no-rebase --stat --progress"
    );
    match t.advance(out("Already up to date.")) {
        Task::Done(Ok(m)) => assert_eq!(m, "Already up to date."),
        other => panic!("{other:?}"),
    }
}

#[test]
fn merge_fetches_first_and_stops_where_that_fails() {
    let t = GitRunner::default().run_mode("/r", Mode::Merge);
    assert_eq!(args(&t.command()), "git fetch --prune");
    let t = t.advance(out(""));
    assert_eq!(args(&t.command()), "git merge --no-edit @{upstream}");
    let t = GitRunner::default()
        .run_mode("/r", Mode::Merge)
        .advance(failed(128, "no route"));
    assert!(matches!(t, Task::Done(Err(_))));
    assert!(t.command().is_none());
}

#[test]
fn push_without_upstream_publishes_the_branch() {
    let runner = GitRunner::default();
    let t = runner.run_remote_action("/r", RemoteAction::Push { force: false });
    assert_eq!(args(&t.command()), "git rev-parse --abbrev-ref @{upstream}");
    let known = runner
        .run_remote_action("/r", RemoteAction::Push { force: false })
        .advance(out("origin/main"));
    assert_eq!(args(&known.command()), "git push");
    let t = t.advance(failed(128, "no upstream"));
    assert_eq!(args(&t.command()), "git remote");
    let t = t.advance(out("backup\n origin \n"));
    assert_eq!(args(&t.command()), "git push -u origin HEAD");
    let other = runner
        .run_remote_action("/r", RemoteAction::Push { force: true })
        .advance(failed(128, ""))
        .advance(out("backup\n"));
    assert_eq!(
        args(&other.command()),
        "git push -u backup HEAD --force-with-lease --force-if-includes"
    );
}

#[test]
fn forced_push_keeps_its_guards() {
    let t = GitRunner::default()
        .run_remote_action("/r", RemoteAction::Push { force: true })
        .advance(out("origin/main"));
    assert_eq!(
        args(&t.command()),
        "git push --force-with-lease --force-if-includes"
    );
}

#[test]
fn checkout_of_a_remote_branch_keeps_its_nested_name() {
    let runner = GitRunner::default();
    let t = runner.checkout_remote_branch("/r", "origin/feature/foo");
    let probe = args(&t.command());
    assert!(probe.contains("refs/heads/feature/foo"), "{probe}");
    let create = args(&t.advance(failed(1, "")).command());
    assert!(create.contains("feature/foo") && create.contains("origin/feature/foo"), "{create}");
    let switch = args(
        &runner
            .checkout_remote_branch("/r", "origin/feature/foo")
            .advance(out(""))
            .command(),
    );
    assert!(switch.ends_with("feature/foo"), "{switch}");
}

#[test]
fn deleting_a_remote_branch_pushes_a_deletion() {
    let c = GitRunner::default().delete_remote_branch("/r", "origin/zap");
    assert_eq!(c.display(), "git push origin --delete zap");
}

#[test]
fn commit_adds_everything_first() {
    let t = GitRunner::default().commit_all("/r", "message");
    assert_eq!(args(&t.command()), "git add -A");
    let t = t.advance(out(""));
    assert_eq!(args(&t.command()), "git commit -m message");
}

fn guard() -> AutoStashGuard {
    let s = GitRunner::default()
        .create_auto_stash("/r")
        .advance(failed(1, ""))
        .advance(out("Saved"))
        .advance(out("abc"));
    match s {
        AutoStash::Done(Ok(Some(g))) => g,
        other => panic!("dirty tree must create an auto-stash: {other:?}"),
    }
}

#[test]
fn a_clean_tree_gives_no_guard() {
    let s = GitRunner::default().create_auto_stash("/r");
    assert_eq!(args(&s.command()), "git rev-parse -q --verify refs/stash");
    let s = s.advance(out("old"));
    assert_eq!(
        args(&s.command()),
        "git stash push --include-untracked -m gitbatch auto-stash"
    );
    let s = s.advance(out("No local changes to save")).advance(out("old"));
    assert!(
        matches!(s, AutoStash::Done(Ok(None))),
        "a clean tree must not produce an auto-stash"
    );
}

#[test]
fn a_guard_restores_its_own_entry_only() {
    let runner = GitRunner::default();
    let r = runner.restore_auto_stash("/r", guard()).advance(out("abc"));
    assert_eq!(args(&r.command()), "git stash pop");
    match r.advance(out("Dropped")) {
        AutoRestore::Done(Ok(m)) => assert_eq!(m, "Dropped"),
        other => panic!("{other:?}"),
    }
    let r = runner.restore_auto_stash("/r", guard()).advance(out("other"));
    match r {
        AutoRestore::Done(Err(e)) => assert_eq!(
            e.message(),
            "auto-stash not restored: the stash stack changed since the auto-stash was created"
        ),
        other => panic!("a changed stash stack must not be popped automatically: {other:?}"),
    }
}

#[test]
fn an_action_is_wrapped_in_an_auto_stash() {
    let runner = GitRunner::default();
    let run = run_remote_with_autostash(&runner, "/r", RemoteAction::Rebase, &None, true)
        .advance(&runner, failed(1, ""))
        .advance(&runner, out("Saved"))
        .advance(&runner, out("abc"));
    assert_eq!(args(&run.command()), "git pull --rebase --stat --progress");
    let run = run
        .advance(&runner, out("rebased"))
        .advance(&runner, out("abc"))
        .advance(&runner, out("Dropped"));
    match run {
        RemoteRun::Done(Ok(m)) => assert_eq!(m, "rebased\nauto-stash restored"),
        other => panic!("{other:?}"),
    }
}

#[test]
fn an_unstashed_action_restores_nothing() {
    let runner = GitRunner::default();
    let run = run_remote_with_autostash(&runner, "/r", RemoteAction::Fetch, &None, false);
    assert_eq!(args(&run.command()), "git fetch --prune");
    let run = run.advance(&runner, out("done"));
    assert!(matches!(run, RemoteRun::Done(Ok(_))));
    assert!(run.command().is_none());
}

#[test]
fn fast_forward_check_accepts_a_clean_descendant() {
    let c = GitRunner::default().fast_forward_safe("/r", "origin/main", true);
    let commands = c.commands();
    assert_eq!(
        commands[0].display(),
        "git merge-base --is-ancestor HEAD origin/main"
    );
    assert!(matches!(
        c.advance(vec![out("")]),
        FastForwardCheck::Done(true)
    ));
    let diverged = GitRunner::default().fast_forward_safe("/r", "origin/main", true);
    assert!(matches!(
        diverged.advance(vec![failed(1, "")]),
        FastForwardCheck::Done(false)
    ));
}

#[test]
fn fast_forward_check_compares_dirty_paths() {
    let start = || {
        GitRunner::default()
            .fast_forward_safe("/r", "origin/main", false)
            .advance(vec![out("")])
    };
    let check = start();
    assert_eq!(check.commands().len(), 4);
    assert!(matches!(
        check.advance(vec![out("local.txt\0"), out(""), out(""), out("remote.txt\0")]),
        FastForwardCheck::Done(true)
    ));
    assert!(matches!(
        start().advance(vec![out("tracked.txt\0"), out(""), out(""), out("tracked.txt\0")]),
        FastForwardCheck::Done(false)
    ));
    assert!(matches!(
        start().advance(vec![out(""), out(""), out("new_file.txt\0"), out("new_file.txt\0")]),
        FastForwardCheck::Done(false)
    ));
    assert!(matches!(
        start().advance(vec![out(""), out(""), failed(1, ""), out("")]),
        FastForwardCheck::Done(false)
    ));
    assert_eq!(parse_nul_list("a\0b c\0\0"), vec!["a".to_string(), "b c".to_string()]);
}

fn snapshot(status: &str) -> RepositorySnapshot {
    match RepositorySnapshot::load(
        "/work/repo",
        true,
        out(status),
        out("1700000000\ninitial\n"),
    ) {
        Ok(s) => s,
        Err(e) => panic!("{}", e.message()),
    }
}

#[test]
fn a_snapshot_reads_the_status() {
    let s = snapshot(
        "# branch.oid abc\n# branch.head main\n# branch.upstream origin/main\n# branch.ab +2 -3\n\
         # stash 4\n",
    );
    assert_eq!(s.name, "repo");
    assert_eq!(s.branch.name, "main");
    assert_eq!(s.branch.upstream, Some("origin/main".to_string()));
    assert_eq!((s.branch.ahead, s.branch.behind), (2, 3));
    assert!(!s.branch.no_upstream && !s.branch.detached);
    assert!(!s.dirty && !s.has_conflicts);
    assert_eq!(s.stash_count, 4);
    assert_eq!(s.commit_subject, "initial");
    assert_eq!(s.last_modified, Some(1_700_000_000_000_000_000));
}

#[test]
fn a_snapshot_tells_dirt_and_conflicts() {
    let dirty = snapshot("# branch.head main\n1 .M N... 100644 100644 100644 a b tracked.txt\n");
    assert!(dirty.dirty && !dirty.has_conflicts && dirty.branch.no_upstream);
    let untracked = snapshot("# branch.head main\n? new_file.txt\n");
    assert!(untracked.dirty);
    let conflict = snapshot("# branch.head main\nu UU N... 1 2 3 4 a b c tracked.txt\n");
    assert!(conflict.dirty && conflict.has_conflicts);
    let detached = snapshot("# branch.head (detached)\n");
    assert!(detached.branch.detached && !detached.branch.no_upstream);
    assert_eq!(detached.branch.name, "detached");
    assert_eq!(snapshot("").branch.name, "unknown");
}

#[test]
fn a_snapshot_needs_a_repository() {
    let missing = RepositorySnapshot::load("/x", false, out(""), out(""));
    assert!(matches!(missing, Err(AppError::NotRepository(p)) if p == "/x"));
    let broken = RepositorySnapshot::load("/x", true, failed(128, "bad"), out(""));
    assert!(matches!(broken, Err(AppError::GitCommandFailed { .. })));
    let fresh = RepositorySnapshot::load("/x", true, out(""), failed(128, "no commits"));
    assert!(matches!(fresh, Ok(s) if s.commit_subject.is_empty() && s.last_modified.is_none()));
    let (status, log) = GitRunner::default().status_snapshot("/x");
    assert_eq!(
        status.display(),
        "git status --porcelain=v2 --branch --show-stash"
    );
    assert_eq!(log.display(), "git log -1 --pretty=format:%ct%n%s");
}

#[test]
fn the_time_of_a_snapshot_is_that_of_the_last_commit() {
    let at = |log: &str| match RepositorySnapshot::load("/x", true, out(""), out(log)) {
        Ok(s) => (s.last_modified, s.commit_subject),
        Err(e) => panic!("{}", e.message()),
    };
    assert_eq!(at("7\nfix: a thing"), (Some(7_000_000_000), "fix: a thing".to_string()));
    assert_eq!(at("7\n"), (Some(7_000_000_000), String::new()));
    assert_eq!(at("7"), (Some(7_000_000_000), String::new()));
    assert_eq!(at("soon\nfix"), (None, "fix".to_string()));
    assert_eq!(at(""), (None, String::new()));
}

#[test]
fn plain_and_reading_runs_differ_in_their_locks_only() {
    let runner = GitRunner::default();
    let reading = runner.run_readonly("/r", &["log", "-1"]);
    assert_eq!(reading.display(), "git log -1");
    assert!(!reading.take_optional_locks);
    let plain = runner.run("/r", &["log", "-1"]);
    assert!(plain.take_optional_locks);
    assert_eq!(plain.display(), reading.display());
    let (status, subject) = runner.status_snapshot("/r");
    assert_eq!(
        status.display(),
        "git status --porcelain=v2 --branch --show-stash"
    );
    assert_eq!(subject.display(), "git log -1 --pretty=format:%ct%n%s");
}

#[test]
fn a_simple_run_reports_what_git_says() {
    let task = GitRunner::default().run_simple("/r", &["stash", "list"]);
    assert_eq!(args(&task.command()), "git stash list");
    let Task::Done(Ok(said)) = task.advance(out("stash@{0}: work")) else {
        panic!("one command is all there is");
    };
    assert_eq!(said, "stash@{0}: work");
}

#[test]
fn credentials_go_with_the_action_but_not_into_its_messages() {
    let credentials = Credentials {
        username: "ann".into(),
        password: "hunter2".into(),
    };
    let task = GitRunner::default().run_remote_action_with_credentials(
        "/r",
        RemoteAction::Fetch,
        &credentials,
    );
    let Some(command) = task.command() else {
        panic!("a fetch is a command");
    };
    assert_eq!(command.display(), "git fetch --prune");
    assert!(!trace_line(1, &command, Some(0), "").contains("hunter2"));
    let env = command.environment("/tmp/ask.sh");
    assert!(env.contains(&("GITBATCH_PASSWORD".to_string(), "hunter2".to_string())));
    let plain = GitRunner::default().run_remote_action("/r", RemoteAction::Fetch);
    assert_eq!(args(&plain.command()), "git fetch --prune");
}

#[test]
fn a_stashed_tree_is_restored_after_a_failure_too() {
    let runner = GitRunner::default();
    let run = run_remote_with_autostash(&runner, "/r", RemoteAction::Rebase, &None, true)
        .advance(&runner, failed(1, ""))
        .advance(&runner, out("Saved"))
        .advance(&runner, out("abc"))
        .advance(&runner, failed(128, "conflict"));
    assert_eq!(args(&run.command()), "git rev-parse -q --verify refs/stash");
    let run = run.advance(&runner, out("abc"));
    assert_eq!(args(&run.command()), "git stash pop");
    let RemoteRun::Done(Err(e)) = run.advance(&runner, out("Dropped")) else {
        panic!("the action failed");
    };
    assert!(e.message().contains("conflict"));
}

#[test]
fn a_failed_stash_stops_the_action() {
    let runner = GitRunner::default();
    let run = run_remote_with_autostash(&runner, "/r", RemoteAction::Merge, &None, true)
        .advance(&runner, failed(1, ""))
        .advance(&runner, failed(128, "index is locked"));
    assert!(matches!(run, RemoteRun::Done(Err(_))));
    assert_eq!(args(&run.command()), "nothing");
}
