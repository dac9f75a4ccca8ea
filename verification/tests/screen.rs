//! What is drawn.

use gitbatch::git::{BranchStatus, RepositorySnapshot};
use gitbatch::mode::Mode;
use gitbatch::tui::app::App;
use gitbatch::tui::area::{centered_rect, inner_rect, Rect};
use gitbatch::tui::bars::fit_hint;
use gitbatch::tui::cells::{format_age, shorten, truncate};
use gitbatch::tui::dialog::AuthPromptState;
use gitbatch::tui::help::HelpView;
use gitbatch::tui::key::{KeyCode, KeyModifiers};
use gitbatch::tui::overlay::{loading_rect, panel_areas, too_small_text, Overlay};
use gitbatch::tui::panel::{PanelKind, PanelState};
use gitbatch::tui::popup::{draw_auth_popup, draw_confirm_popup, draw_input_popup};
use gitbatch::tui::prompt::{PromptKind, PromptState};
use gitbatch::tui::repo::{FailKind, QueueOrigin, RepoOpState, RepoView};
use gitbatch::tui::row::{repo_row_visual, spinner};
use gitbatch::tui::style::{Line, Paint};
use gitbatch::tui::table::column_names;
use gitbatch::tui::worktree::WtDisplayRow;
use unicode_width::UnicodeWidthStr;

const SCREEN: Rect = Rect {
    x: 0,
    y: 0,
    width: 120,
    height: 40,
};

fn text(line: &Line) -> String {
    line.spans.iter().map(|s| s.text.as_str()).collect()
}

fn repo(name: &str) -> RepoView {
    RepoView::new(RepositorySnapshot {
        path: format!("/work/{name}"),
        name: name.to_string(),
        branch: BranchStatus {
            name: "main".to_string(),
            detached: false,
            ahead: 0,
            behind: 0,
            no_upstream: false,
            upstream: Some("origin/main".to_string()),
        },
        dirty: false,
        has_conflicts: false,
        last_modified: None,
        commit_subject: "subject".to_string(),
        stash_count: 0,
    })
}

fn app_of(repos: Vec<RepoView>) -> App {
    let mut app = App::new(Mode::Pull, false, 0);
    app.loading = false;
    app.repos = repos;
    app
}

#[test]
fn truncate_leaves_short_ascii_untouched() {
    assert_eq!(truncate("main", 10), "main");
    assert_eq!(truncate("main", 4), "main");
}

#[test]
fn truncate_adds_ellipsis_for_long_ascii() {
    assert_eq!(truncate("feature/very-long-name", 8), "feature…");
}

#[test]
fn truncate_respects_double_width_cjk_cells() {
    // Each CJK char is 2 display cells wide; a char-count budget would
    // let this run to 8 cells (4 chars) and overrun an 8-cell column.
    let s = "仓库仓库仓库仓库"; // 8 chars, 16 cells
    let out = truncate(s, 8);
    assert!(
        out.width() <= 8,
        "{out:?} is {} cells wide, over the 8-cell budget",
        out.width()
    );
    assert!(out.ends_with('…'), "{out:?}");
}

#[test]
fn printable_text_is_cut_by_its_length() {
    assert_eq!(truncate("main", 3), "ma…");
    assert_eq!(truncate("main", 2), "m…");
    assert_eq!(truncate("main", 1), "m");
}

#[test]
fn truncate_zero_budget_is_empty() {
    assert_eq!(truncate("main", 0), "");
}

#[test]
fn shortening_goes_by_the_widths_given() {
    assert_eq!(shorten("abc", 2, 6, &vec![2, 2, 2]), "…");
    assert_eq!(shorten("abc", 3, 6, &vec![2, 2, 2]), "a…");
    assert_eq!(shorten("abc", 1, 6, &vec![1, 2, 2]), "a");
    assert_eq!(shorten("abc", 6, 6, &vec![2, 2, 2]), "abc");
    assert_eq!(truncate("仓库", 3), "仓…");
}

#[test]
fn ages_are_given_in_the_largest_unit() {
    let second: i128 = 1_000_000_000;
    for (secs, age) in [
        (0, "0s"),
        (59, "59s"),
        (60, "1m"),
        (3_599, "59m"),
        (3_600, "1h"),
        (86_400, "1d"),
        (7 * 86_400, "1w"),
        (30 * 86_400, "1mo"),
        (365 * 86_400, "1y"),
        (800 * 86_400, "2y"),
    ] {
        assert_eq!(format_age(secs * second, 0), age);
    }
    assert_eq!(format_age(0, 5 * second), "0s");
    assert_eq!(format_age(second - 1, 0), "0s");
}

#[test]
fn areas_are_centered_and_shrink() {
    assert_eq!(
        centered_rect(60, 8, SCREEN),
        Rect {
            x: 30,
            y: 16,
            width: 60,
            height: 8
        }
    );
    assert_eq!(centered_rect(200, 80, SCREEN), SCREEN);
    assert_eq!(
        inner_rect(SCREEN, 2, 1),
        Rect {
            x: 2,
            y: 1,
            width: 116,
            height: 38
        }
    );
    let tiny = Rect {
        x: 5,
        y: 5,
        width: 3,
        height: 3,
    };
    assert_eq!(inner_rect(tiny, 2, 1).width, 0);
    let (frame, inner) = loading_rect(SCREEN);
    assert_eq!((frame.width, frame.height), (50, 10));
    assert!(inner.is_some());
    let a = panel_areas(SCREEN);
    assert_eq!((a.frame.width, a.frame.height), (90, 32));
    assert_eq!(a.body.height, 27);
    assert_eq!(a.body.y, a.head.y + 3);
}

#[test]
fn the_spinner_turns_every_other_tick() {
    assert_eq!(spinner(0), "⠋");
    assert_eq!(spinner(1), "⠋");
    assert_eq!(spinner(2), "⠙");
    assert_eq!(spinner(14), "⠧");
    assert_eq!(spinner(16), "⠋");
}

#[test]
fn branches_show_how_far_they_diverged() {
    let mut r = repo("a");
    r.snapshot.branch.ahead = 3;
    assert_eq!(r.branch_display(), "main ↖ +3");
    r.snapshot.branch.ahead = 0;
    r.snapshot.branch.behind = 2;
    assert_eq!(r.branch_display(), "main ↘ +2");
    r.snapshot.branch.ahead = 1;
    r.snapshot.branch.behind = 1;
    assert_eq!(r.branch_display(), "main ↖+1 ↘+1");
    let mut alone = repo("b");
    alone.snapshot.branch.no_upstream = true;
    assert_eq!(alone.branch_display(), "main ~");
    assert_eq!(repo("c").branch_display(), "main");
}

#[test]
fn rows_show_the_state_of_their_repository() {
    let mut r = repo("a");
    let v = repo_row_visual(&r, "a", false, 0, 20);
    assert_eq!(text(&v.cell), "    a");
    assert_eq!(v.style.fg, None);
    assert_eq!(v.message, "subject");
    r.snapshot.dirty = true;
    let v = repo_row_visual(&r, "a", true, 0, 20);
    assert_eq!(text(&v.cell), "› ~ a");
    assert_eq!(v.style.bg, Some(Paint::SelLocalBg));
    assert!(v.style.bold);
    r.snapshot.branch.behind = 1;
    r.pull_safe = false;
    assert_eq!(text(&repo_row_visual(&r, "a", false, 0, 20).cell), "  ⚠ a");
    r.snapshot.stash_count = 2;
    r.state = RepoOpState::Queued(QueueOrigin::User);
    let v = repo_row_visual(&r, "a-long-name", false, 0, 12);
    assert_eq!(text(&v.cell), "  ● a-l… {2}");
    assert_eq!(v.cell.spans.last().map(|s| s.style.fg), Some(Some(Paint::StashFg)));
    r.state = RepoOpState::Fail {
        message: "boom".into(),
        kind: FailKind::Network,
    };
    let v = repo_row_visual(&r, "a", false, 0, 20);
    assert_eq!(v.style.fg, Some(Paint::NetFg));
    assert_eq!(v.message, "boom");
}

#[test]
fn a_failed_startup_fetch_is_marked_quietly() {
    let mut r = repo("a");
    r.fetch_error = Some("no route".into());
    let v = repo_row_visual(&r, "a", false, 0, 20);
    assert_eq!(text(&v.cell), "  ! a");
    assert_eq!(v.cell.spans[1].style.fg, Some(Paint::NetFg));
    r.snapshot.dirty = true;
    assert_eq!(text(&repo_row_visual(&r, "a", false, 0, 20).cell), "  ~ a");
    r.fetching = true;
    assert_eq!(text(&repo_row_visual(&r, "a", false, 0, 20).cell), "  ⠋ a");
}

#[test]
fn failures_have_icons_of_their_own() {
    for (kind, icon) in [
        (FailKind::Credentials, "?"),
        (FailKind::ForcePush, "!"),
        (FailKind::Conflict, "⚠"),
        (FailKind::Network, "✗"),
        (FailKind::Generic, "✗"),
    ] {
        let state = RepoOpState::Fail {
            message: String::new(),
            kind,
        };
        assert_eq!(state.icon(0), icon);
    }
    assert_eq!(RepoOpState::Success(String::new()).icon(0), "✓");
}

#[test]
fn column_widths_follow_the_contents_within_bounds() {
    let mut app = app_of(vec![repo("a-rather-long-repository-name"), repo("b")]);
    app.repos[1].snapshot.branch.ahead = 12;
    let c = app.compute_col_widths(120, 0);
    assert_eq!(c.repo_col_w, 33);
    assert_eq!(c.branch_col_w, "main ↖ +12".chars().count() as u16 + 1);
    assert!(c.show_age);
    assert_eq!(c.age_col_w, 3);
    let narrow = app.compute_col_widths(60, 0);
    assert_eq!(narrow.repo_col_w, 19);
    assert!(!narrow.show_age);
    let empty = app_of(Vec::new()).compute_col_widths(120, 0);
    assert_eq!((empty.repo_col_w, empty.branch_col_w), (14, 7));
}

#[test]
fn the_table_follows_the_cursor() {
    let mut app = app_of((0..30).map(|i| repo(&format!("r{i:02}"))).collect());
    app.cursor = 20;
    let area = Rect {
        x: 0,
        y: 1,
        width: 100,
        height: 13,
    };
    let t = app.draw_repo_table(area, 0);
    assert_eq!(t.rows.len(), 10);
    assert_eq!(app.table_offset, 11);
    assert!(t.header && t.more_above && t.more_below);
    assert_eq!(text(&t.rows[9].cells[0]), "›   r20");
    assert_eq!(text(&t.rows[9].cells[2]), "subject");
    app.cursor = 2;
    let t = app.draw_repo_table(area, 0);
    assert_eq!(app.table_offset, 2);
    assert_eq!(text(&t.rows[0].cells[0]), "›   r02");
    assert_eq!(
        column_names(false, true),
        vec!["    repo", "branch", "message", "age"]
    );
    assert_eq!(column_names(true, false)[1], "worktree");
}

#[test]
fn messages_scroll_no_further_than_their_end() {
    let mut app = app_of(vec![repo("a")]);
    app.msg_scroll = 100;
    let t = app.draw_repo_table(SCREEN, 0);
    assert_eq!(app.msg_scroll, 6);
    assert_eq!(text(&t.rows[0].cells[2]), "t");
}

#[test]
fn worktree_rows_find_their_repository_by_path() {
    let mut app = app_of(vec![repo("a")]);
    app.worktree_mode = true;
    app.wt_rows = vec![
        WtDisplayRow {
            path: "/work/a.x".into(),
            display_name: "a".into(),
            wt_label: "x".into(),
            repo_path: "/work/a/".into(),
        },
        WtDisplayRow {
            path: "/gone".into(),
            display_name: "gone".into(),
            wt_label: "y".into(),
            repo_path: "/gone".into(),
        },
    ];
    let t = app.draw_repo_table(SCREEN, 0);
    assert_eq!(t.rows[0].cells.len(), 3);
    assert_eq!(text(&t.rows[0].cells[1]), "x");
    assert_eq!(t.rows[1].cells.len(), 1);
    assert_eq!(t.rows[1].style.fg, Some(Paint::DimFg));
}

#[test]
fn the_title_bar_is_as_wide_as_the_screen() {
    let mut app = app_of(vec![repo("a"), repo("b")]);
    app.repos[0].state = RepoOpState::Queued(QueueOrigin::User);
    app.repos[1].state = RepoOpState::Working;
    let bar = text(&app.draw_title_bar(80, "dev"));
    assert_eq!(bar.chars().count(), 80);
    assert!(bar.starts_with(" gitbatch dev "), "{bar}");
    assert!(
        bar.ends_with("repos:2  selected:1  working:1  sort:time   ?:help "),
        "{bar}"
    );
}

#[test]
fn hints_give_way_to_the_status() {
    let tiers = ["  a long hint ", "  short ", " ? "];
    assert_eq!(fit_hint(&tiers, 60, 8), "  a long hint ");
    assert_eq!(fit_hint(&tiers, 36, 8), "  short ");
    assert_eq!(fit_hint(&tiers, 10, 8), " ? ");
    assert_eq!(fit_hint(&[], 10, 8), "");
}

#[test]
fn the_status_bar_tells_mode_state_and_keys() {
    let mut app = app_of(vec![repo("a")]);
    app.repos[0].snapshot.branch.behind = 2;
    app.repos[0].snapshot.stash_count = 1;
    let bar = app.draw_status_bar(100);
    assert_eq!(bar.spans[0].text, " ↓ PULL ");
    assert_eq!(bar.spans[0].style.bg, Some(Paint::ModePullBg));
    assert!(bar.spans[1].text.starts_with(" a  main ↘ +2  {1} "), "{bar:?}");
    assert_eq!(
        bar.spans[2].text,
        "  current repo · p:pull  f:fetch  TAB:lazygit "
    );
    assert_eq!(text(&bar).chars().count(), 99);
    app.set_notice("hello".into());
    let bar = app.draw_status_bar(100);
    assert!(bar.spans[1].text.starts_with(" hello "));
    assert_eq!(bar.spans[1].style.fg, Some(Paint::NoticeFg));
    let empty = app_of(Vec::new());
    assert!(empty.draw_status_bar(80).spans[1]
        .text
        .starts_with(" no repositories"));
}

#[test]
fn the_status_bar_tells_conflicts_apart() {
    let mut app = app_of(vec![repo("a")]);
    app.repos[0].snapshot.branch.no_upstream = true;
    app.repos[0].snapshot.dirty = true;
    assert!(app.draw_status_bar(120).spans[1]
        .text
        .starts_with(" a  main  no upstream  dirty "));
    app.repos[0].snapshot.branch.no_upstream = false;
    app.repos[0].snapshot.branch.behind = 1;
    app.repos[0].pull_safe = false;
    assert!(app.draw_status_bar(120).spans[1]
        .text
        .starts_with(" a  main ↘ +1  would conflict "));
    app.repos[0].snapshot.branch.ahead = 1;
    assert!(app.draw_status_bar(120).spans[1]
        .text
        .starts_with(" a  main ↖+1 ↘+1  conflict "));
    app.repos[0].snapshot.has_conflicts = true;
    assert!(app.draw_status_bar(120).spans[1]
        .text
        .starts_with(" a  main ↖+1 ↘+1  merge conflict "));
}

#[test]
fn overlays_have_an_order() {
    let mut app = app_of(vec![repo("a")]);
    assert_eq!(app.overlay(49, 40), Overlay::TooSmall);
    assert_eq!(app.overlay(50, 7), Overlay::TooSmall);
    assert_eq!(app.overlay(50, 8), Overlay::Nothing);
    app.show_prompt(PromptKind::Branch);
    assert_eq!(app.overlay(80, 24), Overlay::Prompt);
    app.show_help = true;
    assert_eq!(app.overlay(80, 24), Overlay::Help);
    app.loading = true;
    assert_eq!(app.overlay(80, 24), Overlay::Loading);
    assert_eq!(too_small_text(), "Terminal too small  minimum 50×8");
}

#[test]
fn loading_counts_repositories() {
    let mut app = App::new(Mode::Pull, false, 12);
    app.load_done = 5;
    let v = app.draw_loading();
    assert_eq!(v.counter, "  5 / 12 repositories");
    assert_eq!(v.spinner, "  ⠋ Loading repositories…");
    assert_eq!(App::new(Mode::Pull, false, 0).draw_loading().total, 1);
}

#[test]
fn help_is_scrolled_on_a_short_terminal() {
    let mut app = app_of(Vec::new());
    match app.draw_help_popup(SCREEN) {
        HelpView::Columns { left, right, icons } => {
            assert_eq!((left.len(), right.len(), icons.len()), (23, 18, 10));
            assert_eq!(text(&left[0]), "Navigation");
            assert_eq!(text(&left[1]), "  j/k ↑↓      move cursor");
        }
        other => panic!("{other:?}"),
    }
    let low = Rect {
        x: 0,
        y: 0,
        width: 80,
        height: 24,
    };
    app.help_scroll = 100;
    match app.draw_help_popup(low) {
        HelpView::Column(lines) => {
            assert_eq!(lines.len(), 20);
            assert_eq!(app.help_scroll, 33);
            assert_eq!(text(&lines[0]), "  ↑ more above (k)");
            assert!(text(&lines[19]).contains("stash"));
        }
        other => panic!("{other:?}"),
    }
    let tiny = Rect {
        x: 0,
        y: 0,
        width: 20,
        height: 5,
    };
    assert!(matches!(app.draw_help_popup(tiny), HelpView::Nothing));
}

#[test]
fn panels_mark_the_cursor_and_the_current_branch() {
    let mut app = app_of(vec![repo("a")]);
    let lines: Vec<String> = (0..40)
        .map(|i| {
            if i == 3 {
                "* main".to_string()
            } else {
                format!("  b{i}")
            }
        })
        .collect();
    app.panel = Some(PanelState::new_navigable(
        PanelKind::Branches,
        "Branches".into(),
        &lines.join("\n"),
    ));
    match app.draw_panel_popup(SCREEN) {
        Some(v) => {
            assert_eq!(v.title, "Branches");
            assert_eq!(v.head, "  a  main");
            assert_eq!(app.panel_viewport, 27);
            assert_eq!(v.body.len(), 28);
            assert_eq!(text(&v.body[0]), "▶   b0");
            assert_eq!(v.body[3].spans[0].style.fg, Some(Paint::BranchCur));
            assert_eq!(text(&v.body[27]), "  ↓ more below");
            assert!(text(&v.hint).starts_with("j/k navigate"));
        }
        None => panic!("expected a panel"),
    }
    app.panel = None;
    assert!(app.draw_panel_popup(SCREEN).is_none());
}

#[test]
fn a_prompt_shows_its_cursor_and_its_error() {
    let mut p = PromptState::open(PromptKind::Branch, "aö".to_string());
    p.key(
        KeyCode::Left,
        KeyModifiers {
            control: false,
            alt: false,
        },
    );
    p.error = Some("bad");
    let v = draw_input_popup(SCREEN, &p, 3);
    assert_eq!(v.title, "New Branch — 3 repos");
    assert_eq!((v.frame.width, v.frame.height), (64, 7));
    assert_eq!(text(&v.lines[1]), "─".repeat(60));
    let input = &v.lines[3].spans;
    assert_eq!(input[1].text, "a");
    assert_eq!(input[2].text, "ö");
    assert!(input[2].style.reversed);
    assert_eq!(text(&v.lines[4]), "bad");
    let at_end = PromptState::open(PromptKind::Stash, "x".to_string());
    let v = draw_input_popup(SCREEN, &at_end, 1);
    assert_eq!(v.title, "Stash");
    assert_eq!(text(&v.lines[3]), "> x ");
}

#[test]
fn a_commit_prompt_shows_the_end_of_its_description() {
    let mut p = PromptState::open(PromptKind::Commit, "subject".to_string());
    let v = draw_input_popup(SCREEN, &p, 1);
    assert_eq!(v.lines.len(), 9);
    assert_eq!(text(&v.lines[0]), "> Summary:     subject ");
    p.key(
        KeyCode::Tab,
        KeyModifiers {
            control: false,
            alt: false,
        },
    );
    p.description = "1\n2\n3\n4\n5".to_string();
    let v = draw_input_popup(SCREEN, &p, 1);
    assert_eq!(v.lines.len(), 9);
    assert_eq!(text(&v.lines[3]), "  2");
    assert_eq!(text(&v.lines[6]), "  5_");
    assert_eq!(text(&v.lines[8]), "Tab summary  Esc cancel");
}

#[test]
fn a_worktree_prompt_shows_its_branch_and_its_path() {
    let mut p = PromptState::open(PromptKind::WorktreeBranch, "fix".to_string());
    p.description = "/work/a.fix".to_string();
    let v = draw_input_popup(SCREEN, &p, 1);
    assert_eq!(v.title, "New Branch");
    assert_eq!((v.frame.height, v.lines.len()), (9, 7));
    assert_eq!(text(&v.lines[0]), "New worktree branch");
    assert_eq!(text(&v.lines[3]), "> Branch: fix ");
    assert_eq!(text(&v.lines[4]), "  Path:   /work/a.fix");
    assert_eq!(text(&v.lines[6]), "Enter create  Tab path  Esc cancel");
    p.key(
        KeyCode::Tab,
        KeyModifiers {
            control: false,
            alt: false,
        },
    );
    p.error = Some("bad");
    let v = draw_input_popup(SCREEN, &p, 1);
    assert_eq!(text(&v.lines[3]), "  Branch: fix");
    assert_eq!(text(&v.lines[4]), "> Path:   /work/a.fix_");
    assert_eq!(text(&v.lines[5]), "bad");
    assert_eq!(text(&v.lines[6]), "Enter create  Tab branch  Esc cancel");
}

#[test]
fn a_password_is_never_shown() {
    let mut p = AuthPromptState::open("/a".into(), None, gitbatch::git::RemoteAction::Fetch);
    for c in "ann".chars() {
        p.key(KeyCode::Char(c));
    }
    p.key(KeyCode::Tab);
    for c in "secret".chars() {
        p.key(KeyCode::Char(c));
    }
    let v = draw_auth_popup(SCREEN, &p);
    assert_eq!(v.title, "Credentials Required");
    assert_eq!(text(&v.lines[0]), "Repository: ?");
    assert_eq!(text(&v.lines[2]), "  Username  ann");
    assert_eq!(text(&v.lines[3]), "  Password  ••••••_");
}

#[test]
fn a_reset_offers_both_kinds() {
    let mut app = app_of(vec![repo("a")]);
    assert!(!app.handle_key(
        KeyCode::Char('U'),
        KeyModifiers {
            control: false,
            alt: false,
        }
    ));
    match &app.confirm_prompt {
        Some(p) => {
            let v = draw_confirm_popup(SCREEN, p);
            assert_eq!((v.frame.width, v.frame.height), (60, 8));
            assert_eq!(
                text(&v.lines[4]),
                "y / Enter  mixed reset    H  hard reset    n / Esc  cancel"
            );
        }
        None => panic!("expected a dialog"),
    }
}
