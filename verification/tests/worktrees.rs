//! Worktrees: their listings, their rows, and the operations on them.

use gitbatch::git::{GitOutput, GitRunner, Task};
use gitbatch::tui::worktree::{
    parse_worktree_listing, run_worktree_op, worktree_context, worktree_rows, WorktreeOp,
    WorktreeRun, WtListing,
};
use gitbatch::{AppError, Result};

const LISTING: &str = "worktree /src/app\nHEAD 1\nbranch refs/heads/main\n\n\
                       worktree /src/app.fix\nHEAD 2\nbranch refs/heads/fix\nlocked\n\n\
                       worktree /src/app.new\nHEAD 3\nbranch refs/heads/new\n";

fn out(text: &str) -> Result<GitOutput> {
    Ok(GitOutput {
        code: Some(0),
        stdout: text.to_string(),
        stderr: String::new(),
    })
}

fn next(run: &WorktreeRun) -> String {
    match run.command(&GitRunner::default()) {
        Some(c) => format!("{}: {}", c.dir, c.display()),
        None => "nothing".to_string(),
    }
}

/// The run of `op` on `selected` once the worktrees are listed, where all paths are canonical.
fn listed(op: &WorktreeOp, selected: &str) -> WorktreeRun {
    let runner = GitRunner::default();
    let run = run_worktree_op(&runner, selected, op);
    assert_eq!(
        next(&run),
        format!("{selected}: git worktree list --porcelain")
    );
    run.advance(&runner, out(LISTING), selected, &Vec::new())
}

#[test]
fn the_first_worktree_in_a_listing_is_the_primary_one() {
    let entries = parse_worktree_listing(LISTING);
    let paths: Vec<&str> = entries.iter().map(|e| e.path.as_str()).collect();
    assert_eq!(paths, ["/src/app", "/src/app.fix", "/src/app.new"]);
    let primary: Vec<bool> = entries.iter().map(|e| e.is_primary).collect();
    assert_eq!(primary, [true, false, false]);
    assert!(parse_worktree_listing("HEAD 1\n").is_empty());
}

#[test]
fn rows_come_in_the_order_of_the_list() {
    let rows = worktree_rows(vec![
        WtListing {
            order: 1,
            repo_path: "/src/lib".into(),
            repo_name: "lib".into(),
            listing: "worktree /src/lib\n".into(),
        },
        WtListing {
            order: 0,
            repo_path: "/src/app".into(),
            repo_name: "app".into(),
            listing: LISTING.into(),
        },
    ]);
    let labels: Vec<&str> = rows.iter().map(|r| r.wt_label.as_str()).collect();
    assert_eq!(labels, ["[main]", "[app.fix]", "[app.new]", "lib"]);
    assert_eq!(rows[2].repo_path, "/src/app");
    assert_eq!(rows[3].path, "/src/lib");
}

#[test]
fn a_context_goes_by_canonical_paths() {
    let norms = vec![
        "/real/app".to_string(),
        "/real/app.fix".to_string(),
        "/real/app.new".to_string(),
    ];
    let fix = worktree_context("/src/app.fix", "/real/app.fix", LISTING, &norms);
    assert_eq!(fix.primary_path, "/src/app");
    assert!(!fix.selected_is_primary);
    assert!(fix.selected_is_locked);
    let app = worktree_context("/link", "/real/app", LISTING, &norms);
    assert!(app.selected_is_primary);
    assert!(!app.selected_is_locked);
    let none = worktree_context("/x", "/x", "", &Vec::new());
    assert_eq!(none.primary_path, "/x");
    assert!(none.selected_is_primary);
}

#[test]
fn the_primary_worktree_is_left_alone() {
    for (op, why) in [
        (WorktreeOp::Remove, "cannot remove primary worktree"),
        (WorktreeOp::ToggleLock, "cannot lock primary worktree"),
    ] {
        let run = listed(&op, "/src/app");
        assert_eq!(next(&run), "nothing");
        match run {
            WorktreeRun::Acting(Task::Done(Err(AppError::Config(e)))) => assert_eq!(e, why),
            other => panic!("refused: {other:?}"),
        }
    }
}

#[test]
fn a_linked_worktree_is_removed_and_its_lock_toggled_from_the_primary_one() {
    assert_eq!(
        next(&listed(&WorktreeOp::Remove, "/src/app.new")),
        "/src/app: git worktree remove /src/app.new"
    );
    assert_eq!(
        next(&listed(&WorktreeOp::ToggleLock, "/src/app.new")),
        "/src/app: git worktree lock /src/app.new"
    );
    assert_eq!(
        next(&listed(&WorktreeOp::ToggleLock, "/src/app.fix")),
        "/src/app: git worktree unlock /src/app.fix"
    );
}

#[test]
fn pruning_and_adding_need_no_listing() {
    let runner = GitRunner::default();
    let prune = run_worktree_op(&runner, "/src/app", &WorktreeOp::Prune);
    assert_eq!(next(&prune), "/src/app: git worktree prune");
    let add = WorktreeOp::Add {
        dest: "/src/app.auth".into(),
        branch: "auth".into(),
    };
    let run = run_worktree_op(&runner, "/src/app", &add);
    assert_eq!(
        next(&run),
        "/src/app: git worktree add -b auth /src/app.auth"
    );
}

#[test]
fn a_family_of_worktrees_is_shown_once() {
    let listing = |order: usize, path: &str, name: &str| WtListing {
        order,
        repo_path: path.into(),
        repo_name: name.into(),
        listing: LISTING.into(),
    };
    // The primary worktree stands for the family, wherever it is in the list.
    let rows = worktree_rows(vec![
        listing(0, "/src/app.fix", "app.fix"),
        listing(1, "/src/app", "app"),
        listing(2, "/src/app.new", "app.new"),
    ]);
    let names: Vec<&str> = rows.iter().map(|r| r.display_name.as_str()).collect();
    assert_eq!(names, ["app", "app", "app"]);
    assert!(rows.iter().all(|r| r.repo_path == "/src/app"));
    // Where it is not in the list, the first one does.
    let rows = worktree_rows(vec![
        listing(4, "/src/app.new", "app.new"),
        listing(3, "/src/app.fix", "app.fix"),
    ]);
    assert_eq!(rows.len(), 3);
    assert!(rows.iter().all(|r| r.repo_path == "/src/app.fix"));
}
