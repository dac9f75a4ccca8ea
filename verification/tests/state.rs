//! The state of the user interface: selection, keys, dialogs and events.

use gitbatch::git::{BranchStatus, RemoteAction, RepositorySnapshot};
use gitbatch::mode::Mode;
use gitbatch::tui::app::{App, Effect, Keep, SortMode};
use gitbatch::tui::dialog::{ConfirmAction, LocalAction};
use gitbatch::tui::events::BgEvent;
use gitbatch::tui::key::{KeyCode, KeyModifiers};
use gitbatch::tui::panel::{load_panel_content, PanelKind};
use gitbatch::tui::prompt::{CommitField, PromptKind, PromptState};
use gitbatch::tui::repo::{FailKind, QueueOrigin, RepoOpState, RepoView};
use gitbatch::tui::worktree::{WorktreeOp, WtDisplayRow};
use gitbatch::AppError;

const PLAIN: KeyModifiers = KeyModifiers {
    control: false,
    alt: false,
};

const CONTROL: KeyModifiers = KeyModifiers {
    control: true,
    alt: false,
};

fn test_repo_view(name: &str, dirty: bool) -> RepoView {
    RepoView::new(RepositorySnapshot {
        path: name.to_string(),
        name: name.to_string(),
        branch: BranchStatus::default(),
        dirty,
        has_conflicts: false,
        last_modified: None,
        commit_subject: String::new(),
        stash_count: 0,
    })
}

fn behind(name: &str, commits: u32) -> RepoView {
    let mut r = test_repo_view(name, false);
    r.snapshot.branch.name = "main".to_string();
    r.snapshot.branch.behind = commits;
    r.snapshot.branch.upstream = Some("origin/main".to_string());
    r
}

fn app_of(repos: Vec<RepoView>) -> App {
    let mut app = App::new(Mode::Pull, false, 0);
    app.loading = false;
    app.repos = repos;
    app
}

fn press(app: &mut App, keys: &str) {
    for c in keys.chars() {
        assert!(!app.handle_key(KeyCode::Char(c), PLAIN));
    }
}

fn selected(app: &App) -> Vec<String> {
    app.repos
        .iter()
        .filter(|r| r.is_queued())
        .map(|r| r.snapshot.name.clone())
        .collect()
}

#[test]
fn target_paths_where_is_empty_when_selected_repos_fail_keep() {
    let mut app = App::new(Mode::Pull, false, 0);
    app.loading = false;

    let mut a = test_repo_view("a-clean-selected", false);
    a.state = RepoOpState::Queued(QueueOrigin::User);
    let mut b = test_repo_view("b-clean-selected", false);
    b.state = RepoOpState::Queued(QueueOrigin::User);
    // Not selected, but dirty and under the cursor — a fallback-to-cursor
    // bug would incorrectly pick this one up.
    let c = test_repo_view("c-dirty-unselected", true);
    app.repos = vec![a, b, c];
    app.cursor = 2;

    let dirty_targets = app.target_paths_where(Keep::Dirty);

    assert!(
        dirty_targets.is_empty(),
        "two repos are selected (both clean); the dirty, unselected \
         cursor repo must not be silently substituted in: {dirty_targets:?}"
    );
}

#[test]
fn target_paths_where_falls_back_to_cursor_when_nothing_selected() {
    let mut app = App::new(Mode::Pull, false, 0);
    app.loading = false;
    app.repos = vec![test_repo_view("only-repo", true)];
    app.cursor = 0;

    assert_eq!(
        app.target_paths_where(Keep::Dirty),
        vec!["only-repo".to_string()]
    );
}

#[test]
fn multi_repo_pull_runs_without_confirmation() {
    let mut app = App::new(Mode::Pull, false, 0);
    app.loading = false;
    let mut a = test_repo_view("a", false);
    a.state = RepoOpState::Queued(QueueOrigin::User);
    let mut b = test_repo_view("b", false);
    b.state = RepoOpState::Queued(QueueOrigin::User);
    app.repos = vec![a, b];

    app.run_action_on_targets(Mode::Pull);

    assert!(
        app.confirm_prompt.is_none(),
        "pull/fetch/merge/rebase only read from the remote and write \
         locally, so a multi-repo run must not require confirmation"
    );
}

#[test]
fn multi_repo_push_requires_confirmation() {
    let mut app = App::new(Mode::Pull, false, 0);
    app.loading = false;
    let mut a = test_repo_view("a", false);
    a.state = RepoOpState::Queued(QueueOrigin::User);
    let mut b = test_repo_view("b", false);
    b.state = RepoOpState::Queued(QueueOrigin::User);
    app.repos = vec![a, b];

    app.run_action_on_targets(Mode::Push);

    assert!(
        app.confirm_prompt.is_some(),
        "push changes what's on the remote, so a multi-repo push must \
         still require confirmation"
    );
}

#[test]
fn ctrl_c_quits_even_when_prompt_is_open() {
    let mut app = App::new(Mode::Pull, false, 0);
    app.loading = false;
    app.prompt = Some(PromptState {
        kind: PromptKind::Branch,
        input: "feature/test".into(),
        cursor: "feature/test".len(),
        error: None,
        description: String::new(),
        commit_field: CommitField::Subject,
    });

    let quit = app.handle_key(KeyCode::Char('c'), CONTROL);
    assert!(quit);
}

#[test]
fn confirming_a_batch_push_runs_it() {
    let mut app = app_of(vec![test_repo_view("a", false), test_repo_view("b", false)]);
    press(&mut app, " ");
    app.cursor = 1;
    press(&mut app, " P");
    assert!(app.take_effects().is_empty());
    match &app.confirm_prompt {
        Some(p) => {
            assert_eq!(p.title, "Push?");
            assert_eq!(p.subject, "Push to 2 remotes");
            assert!(matches!(
                p.action,
                ConfirmAction::RunMode {
                    mode: Mode::Push,
                    ..
                }
            ));
        }
        None => panic!("expected a dialog"),
    }
    press(&mut app, "y");
    assert!(app.confirm_prompt.is_none());
    let effects = app.take_effects();
    assert_eq!(effects.len(), 2);
    for e in &effects {
        assert!(matches!(
            e,
            Effect::Remote {
                action: RemoteAction::Push { force: false },
                ..
            }
        ));
    }
    assert!(app.repos.iter().all(|r| matches!(r.state, RepoOpState::Working)));
}

#[test]
fn refusing_a_batch_push_runs_nothing() {
    let mut app = app_of(vec![test_repo_view("a", false), test_repo_view("b", false)]);
    press(&mut app, " j Pn");
    assert!(app.confirm_prompt.is_none());
    assert!(app.take_effects().is_empty());
}

#[test]
fn loading_ignores_keys_but_quits() {
    let mut app = App::new(Mode::Pull, false, 3);
    press(&mut app, "m?P");
    assert_eq!(app.mode, Mode::Pull);
    assert!(!app.show_help);
    assert!(app.handle_key(KeyCode::Char('c'), CONTROL));
    assert!(app.handle_key(KeyCode::Char('q'), PLAIN));
}

#[test]
fn q_closes_a_panel_before_it_quits() {
    let mut app = app_of(vec![test_repo_view("a", false)]);
    app.pending_panel = Some(PanelKind::Status);
    app.apply_bg_event(BgEvent::PanelReady {
        kind: PanelKind::Status,
        result: load_panel_content(PanelKind::Status, 1, Ok(vec!["## main\n".to_string()])),
    });
    assert!(app.panel.is_some());
    assert!(!app.handle_key(KeyCode::Char('q'), PLAIN));
    assert!(app.panel.is_none());
    assert!(app.handle_key(KeyCode::Char('q'), PLAIN));
}

#[test]
fn a_stale_panel_is_dropped() {
    let mut app = app_of(vec![test_repo_view("a", false)]);
    app.pending_panel = Some(PanelKind::Commits);
    app.apply_bg_event(BgEvent::PanelReady {
        kind: PanelKind::Status,
        result: load_panel_content(PanelKind::Status, 1, Ok(vec!["## main\n".to_string()])),
    });
    assert!(app.panel.is_none());
    assert_eq!(app.pending_panel, Some(PanelKind::Commits));
}

#[test]
fn select_all_takes_what_can_be_pulled() {
    let mut unsafe_pull = behind("d", 2);
    unsafe_pull.pull_safe = false;
    let mut conflicted = behind("e", 1);
    conflicted.snapshot.has_conflicts = true;
    let mut alone = test_repo_view("c", false);
    alone.snapshot.branch.no_upstream = true;
    let mut app = app_of(vec![
        behind("a", 1),
        test_repo_view("b", false),
        alone,
        unsafe_pull,
        conflicted,
    ]);
    let outcome = app.queue_all();
    assert_eq!(selected(&app), vec!["a".to_string()]);
    assert_eq!(
        outcome.notice(),
        "Selected 1; skipped 1 no upstream, 1 no updates, 1 conflicted, 1 not FF-safe"
    );
    let again = app.queue_all();
    assert_eq!(again.selected, 0);
    assert_eq!(selected(&app), vec!["a".to_string()]);
    app.clear_queue();
    assert!(selected(&app).is_empty());
}

#[test]
fn changing_the_mode_keeps_what_the_user_selected() {
    let mut auto = behind("auto", 1);
    auto.state = RepoOpState::Queued(QueueOrigin::Auto);
    let mut user = behind("user", 1);
    user.state = RepoOpState::Queued(QueueOrigin::User);
    let mut app = app_of(vec![auto, user]);
    press(&mut app, "m");
    assert_eq!(app.mode, Mode::Merge);
    assert_eq!(selected(&app), vec!["user".to_string()]);
    assert!(app.active_notice().is_some());
}

#[test]
fn sorting_keeps_the_cursor_on_its_repository() {
    let mut old = test_repo_view("a-old", false);
    old.snapshot.last_modified = Some(1);
    let mut new = test_repo_view("z-new", false);
    new.snapshot.last_modified = Some(9);
    let unknown = test_repo_view("m-unknown", false);
    let mut app = app_of(vec![old, new, unknown]);
    assert_eq!(app.sort_mode, SortMode::Modified);
    app.sort();
    let names: Vec<&str> = app.repos.iter().map(|r| r.snapshot.name.as_str()).collect();
    assert_eq!(names, vec!["z-new", "a-old", "m-unknown"]);
    app.cursor = 0;
    press(&mut app, "t");
    assert_eq!(app.sort_mode, SortMode::Name);
    let names: Vec<&str> = app.repos.iter().map(|r| r.snapshot.name.as_str()).collect();
    assert_eq!(names, vec!["a-old", "m-unknown", "z-new"]);
    assert_eq!(app.cursor, 2);
}

#[test]
fn a_rejected_push_asks_before_forcing() {
    let mut app = app_of(vec![test_repo_view("a", false)]);
    press(&mut app, "P");
    assert_eq!(app.take_effects().len(), 1);
    app.apply_bg_event(BgEvent::OpResult {
        path: "a".into(),
        action: RemoteAction::Push { force: false },
        result: Err(AppError::GitCommandFailed {
            command: "git push".into(),
            code: Some(1),
            output: "! [rejected] main -> main (non-fast-forward)".into(),
        }),
        snapshot: None,
    });
    assert!(matches!(
        app.repos[0].state,
        RepoOpState::Fail {
            kind: FailKind::ForcePush,
            ..
        }
    ));
    assert!(matches!(
        app.confirm_prompt.as_ref().map(|p| &p.action),
        Some(ConfirmAction::ForcePush { .. })
    ));
    assert!(app.take_effects().is_empty());
    assert!(!app.handle_key(KeyCode::Enter, PLAIN));
    match app.take_effects().as_slice() {
        [Effect::Remote { action, .. }] => {
            assert_eq!(*action, RemoteAction::Push { force: true })
        }
        other => panic!("{other:?}"),
    }
}

#[test]
fn refused_credentials_are_asked_for_and_tried_again() {
    let mut app = app_of(vec![test_repo_view("a", false)]);
    press(&mut app, "f");
    app.take_effects();
    app.apply_bg_event(BgEvent::OpResult {
        path: "a".into(),
        action: RemoteAction::Fetch,
        result: Err(AppError::CredentialPromptDetected {
            output: "Username for 'https://x':".into(),
        }),
        snapshot: None,
    });
    assert!(app.auth_prompt.is_some());
    press(&mut app, "ann");
    assert!(!app.handle_key(KeyCode::Enter, PLAIN));
    press(&mut app, "pw");
    assert!(!app.handle_key(KeyCode::Enter, PLAIN));
    assert!(app.auth_prompt.is_none());
    match app.take_effects().as_slice() {
        [Effect::Remote {
            action,
            credentials: Some(c),
            ..
        }] => {
            assert_eq!(*action, RemoteAction::Fetch);
            assert_eq!((c.username.as_str(), c.password.as_str()), ("ann", "pw"));
        }
        other => panic!("{other:?}"),
    }
}

#[test]
fn a_fetched_repository_is_preselected_only_where_it_is_safe() {
    let mut app = app_of(vec![behind("a", 0), behind("b", 0)]);
    for (path, queue) in [("a", true), ("b", false)] {
        app.apply_bg_event(BgEvent::RepoFetchDone {
            path: path.into(),
            snapshot: Some(behind(path, 2).snapshot),
            queue,
            fetch_error: None,
        });
    }
    assert_eq!(selected(&app), vec!["a".to_string()]);
    assert!(app.repos[0].pull_safe);
    assert!(!app.repos[1].pull_safe);
}

#[test]
fn the_last_loaded_repository_ends_loading() {
    let mut app = App::new(Mode::Pull, false, 2);
    app.start_loading(vec!["a".into(), "b".into()]);
    assert!(matches!(app.take_effects().as_slice(), [Effect::Load(p)] if p.len() == 2));
    app.apply_bg_event(BgEvent::RepoLoaded(test_repo_view("a", false).snapshot));
    assert!(app.loading);
    app.apply_bg_event(BgEvent::RepoSkipped);
    assert!(!app.loading);
    assert_eq!(app.repos.len(), 1);
}

#[test]
fn a_new_branch_goes_to_all_selected() {
    let mut app = app_of(vec![test_repo_view("a", false), test_repo_view("b", false)]);
    press(&mut app, " j nfeature/x");
    assert!(!app.handle_key(KeyCode::Enter, PLAIN));
    assert!(app.prompt.is_none());
    let effects = app.take_effects();
    assert_eq!(effects.len(), 2);
    for e in &effects {
        assert!(matches!(
            e,
            Effect::Local {
                action: LocalAction::CreateBranch(n),
                ..
            } if n == "feature/x"
        ));
    }
}

#[test]
fn an_invalid_branch_name_stays_in_the_prompt() {
    let mut app = app_of(vec![test_repo_view("a", false)]);
    press(&mut app, "na..b");
    assert!(!app.handle_key(KeyCode::Enter, PLAIN));
    match &app.prompt {
        Some(p) => {
            assert_eq!(p.error, Some("invalid '.' placement in branch name"));
            assert_eq!(p.input, "a..b");
        }
        None => panic!("the prompt must stay open"),
    }
    assert!(app.take_effects().is_empty());
}

#[test]
fn a_prompt_is_edited_by_characters_and_words() {
    let mut p = PromptState::open(PromptKind::Branch, "feat/öb".to_string());
    assert_eq!(p.cursor, "feat/öb".len());
    p.key(KeyCode::Left, PLAIN);
    p.key(KeyCode::Backspace, PLAIN);
    assert_eq!((p.input.as_str(), p.cursor), ("feat/b", 5));
    p.key(KeyCode::Char('x'), PLAIN);
    assert_eq!(p.input, "feat/xb");
    p.key(KeyCode::End, PLAIN);
    p.key(KeyCode::Char('w'), CONTROL);
    assert_eq!((p.input.as_str(), p.cursor), ("feat/", 5));
    p.paste("one\ntwo");
    assert_eq!(p.input, "feat/one");
}

#[test]
fn notices_expire() {
    let mut app = app_of(Vec::new());
    app.set_notice("hello".into());
    assert_eq!(app.active_notice(), Some("hello"));
    app.tick += 38;
    assert_eq!(app.active_notice(), Some("hello"));
    app.tick += 1;
    assert_eq!(app.active_notice(), None);
    assert!(app.expire_notice());
    assert!(app.notice.is_none());
}

#[test]
fn the_list_is_loaded_anew_only_when_nothing_is_open() {
    let mut app = app_of(vec![test_repo_view("a", false)]);
    app.now = 30_000_000_000;
    app.repos[0].state = RepoOpState::Working;
    assert!(app.begin_frame(false));
    assert!(app.take_effects().is_empty());
    app.repos[0].state = RepoOpState::Idle;
    assert!(!app.begin_frame(false));
    assert!(matches!(app.take_effects().as_slice(), [Effect::Refresh(_)]));
    assert!(!app.begin_frame(false));
    assert!(app.take_effects().is_empty());
    assert!(app.begin_frame(true));
}

#[test]
fn branches_in_common_are_listed_once_and_sorted() {
    let a = "* main a\n  zeta b\n  alpha c".to_string();
    let b = "* alpha x\n  main y\n  other z".to_string();
    match load_panel_content(PanelKind::Branches, 2, Ok(vec![a, b])) {
        Ok(p) => {
            assert_eq!(p.title, "Branches (2 repos)");
            assert_eq!(p.lines, vec!["alpha".to_string(), "main".to_string()]);
            assert!(p.is_navigable());
        }
        Err(e) => panic!("{}", e.message()),
    }
}

#[test]
fn deleting_and_dropping_take_an_answer() {
    let mut stashed = test_repo_view("a", false);
    stashed.snapshot.stash_count = 1;
    let mut app = app_of(vec![stashed]);
    press(&mut app, "D");
    assert!(app.outbox.is_empty());
    match &app.confirm_prompt {
        Some(p) => {
            assert_eq!(p.title, "Drop Stash?");
            assert_eq!(p.subject, "a");
        }
        None => panic!("a dialog asks first"),
    }
    press(&mut app, "H");
    assert!(app.confirm_prompt.is_some(), "H is for resets only");
    press(&mut app, "y");
    assert!(matches!(
        app.outbox.as_slice(),
        [Effect::Local {
            action: LocalAction::StashDrop,
            ..
        }]
    ));
}

#[test]
fn a_declined_dialog_does_nothing() {
    for code in [KeyCode::Esc, KeyCode::Char('n'), KeyCode::Char('N')] {
        let mut one = test_repo_view("a", false);
        one.snapshot.stash_count = 1;
        let mut app = app_of(vec![one]);
        press(&mut app, "D");
        assert!(!app.handle_key(code, PLAIN));
        assert!(app.confirm_prompt.is_none());
        assert!(app.outbox.is_empty());
        assert!(matches!(app.repos[0].state, RepoOpState::Idle));
    }
}

#[test]
fn a_reset_leaves_out_repositories_without_an_upstream() {
    let mut with = behind("with", 1);
    with.state = RepoOpState::Queued(QueueOrigin::User);
    let mut without = test_repo_view("without", false);
    without.snapshot.branch.no_upstream = true;
    without.state = RepoOpState::Queued(QueueOrigin::User);
    let mut app = app_of(vec![with, without]);
    press(&mut app, "U");
    press(&mut app, "H");
    match app.outbox.as_slice() {
        [Effect::Local {
            path,
            action: LocalAction::ResetUpstream { hard: true },
        }] => assert_eq!(path, "with"),
        other => panic!("one hard reset: {other:?}"),
    }
    let mut alone = test_repo_view("without", false);
    alone.snapshot.branch.no_upstream = true;
    let mut app = app_of(vec![alone]);
    press(&mut app, "U");
    assert!(app.confirm_prompt.is_none());
}

#[test]
fn an_auto_stash_wraps_what_needs_a_clean_tree() {
    for (key, stashes) in [("f", false), ("p", true), ("P", false)] {
        let mut app = app_of(vec![test_repo_view("a", true)]);
        app.auto_stash = true;
        press(&mut app, key);
        match app.outbox.as_slice() {
            [Effect::Remote { stash, .. }] => assert_eq!(*stash, stashes, "{key}"),
            other => panic!("one action: {other:?}"),
        }
    }
    let mut clean = app_of(vec![test_repo_view("a", false)]);
    clean.auto_stash = true;
    press(&mut clean, "p");
    assert!(matches!(
        clean.outbox.as_slice(),
        [Effect::Remote { stash: false, .. }]
    ));
}

#[test]
fn the_cursor_stays_on_a_row() {
    let mut app = app_of(vec![behind("a", 1), behind("b", 1), behind("c", 1)]);
    assert!(!app.handle_key(KeyCode::PageDown, PLAIN));
    assert_eq!(app.cursor, 2);
    press(&mut app, "jt");
    assert_eq!(app.repos[app.cursor].snapshot.name, "c");
    assert!(!app.handle_key(KeyCode::PageUp, PLAIN));
    press(&mut app, "k");
    assert_eq!(app.cursor, 0);
    press(&mut app, "W");
    press(&mut app, "jG");
    assert_eq!(app.wt_cursor, 0);
    app.wt_cursor = 4;
    app.apply_bg_event(BgEvent::WorktreesReady(Vec::new()));
    assert_eq!(app.wt_cursor, 0);
}

/// An app in worktree mode, with the prompt for a new worktree beside `/work/myproject` open.
fn asking_for_worktree() -> App {
    let mut repo = test_repo_view("myproject", false);
    repo.snapshot.path = "/work/myproject".to_string();
    let mut app = app_of(vec![repo]);
    app.worktree_mode = true;
    app.wt_rows = vec![WtDisplayRow {
        path: "/work/myproject".into(),
        display_name: "myproject".into(),
        wt_label: "main".into(),
        repo_path: "/work/myproject".into(),
    }];
    press(&mut app, "n");
    app
}

/// The path in the prompt.
fn path_in(app: &App) -> &str {
    match &app.prompt {
        Some(p) => p.description.as_str(),
        None => panic!("no prompt"),
    }
}

/// Submits the prompt, and gives where the new worktree goes and its branch.
fn new_worktree(app: &mut App) -> Option<(String, String)> {
    assert!(!app.handle_key(KeyCode::Enter, PLAIN));
    assert!(app.prompt.is_none());
    match app.take_effects().as_slice() {
        [] => None,
        [Effect::Worktree {
            selected,
            op: WorktreeOp::Add { dest, branch },
            ..
        }] => {
            assert_eq!(selected, "/work/myproject");
            Some((dest.clone(), branch.clone()))
        }
        other => panic!("{other:?}"),
    }
}

#[test]
fn the_path_of_a_new_worktree_is_prefilled_from_its_branch() {
    let mut app = asking_for_worktree();
    assert_eq!(path_in(&app), "");
    press(&mut app, "feature/aut");
    app.handle_paste("h\nrest");
    assert_eq!(path_in(&app), "/work/myproject.feature-auth");
    app.handle_key(KeyCode::Backspace, CONTROL);
    assert_eq!(path_in(&app), "/work/myproject.feature");
    press(&mut app, "auth");
    assert_eq!(
        new_worktree(&mut app),
        Some(("/work/myproject.feature-auth".into(), "feature/auth".into()))
    );
}

#[test]
fn a_new_worktree_goes_to_the_path_that_was_entered() {
    let mut app = asking_for_worktree();
    press(&mut app, "fix");
    app.handle_key(KeyCode::Tab, PLAIN);
    for _ in 0.."/work/myproject.fix".len() {
        app.handle_key(KeyCode::Backspace, PLAIN);
    }
    assert_eq!(path_in(&app), "");
    press(&mut app, "/tmp/");
    app.handle_paste("x\r\ny");
    assert_eq!(path_in(&app), "/tmp/x");
    // The path stays when the branch changes.
    app.handle_key(KeyCode::Tab, PLAIN);
    press(&mut app, "ed");
    assert_eq!(path_in(&app), "/tmp/x");
    assert_eq!(new_worktree(&mut app), Some(("/tmp/x".into(), "fixed".into())));
}

#[test]
fn a_worktree_is_submitted_from_its_path_too() {
    let mut app = asking_for_worktree();
    press(&mut app, "fix");
    app.handle_key(KeyCode::Tab, PLAIN);
    press(&mut app, "2");
    assert_eq!(
        new_worktree(&mut app),
        Some(("/work/myproject.fix2".into(), "fix".into()))
    );
}

#[test]
fn a_worktree_without_a_valid_branch_or_a_path_is_not_made() {
    let mut app = asking_for_worktree();
    press(&mut app, "a b");
    app.handle_key(KeyCode::Tab, PLAIN);
    assert!(!app.handle_key(KeyCode::Enter, PLAIN));
    assert!(matches!(&app.prompt, Some(p) if p.error.is_some()));
    assert!(app.take_effects().is_empty());
    let mut app = asking_for_worktree();
    press(&mut app, "a");
    app.handle_key(KeyCode::Tab, PLAIN);
    for _ in 0.."/work/myproject.a".len() {
        app.handle_key(KeyCode::Backspace, PLAIN);
    }
    assert_eq!(new_worktree(&mut app), None);
}
