//! What every key, every event and every frame keeps: the cursors stand on a row, and the dialogs
//! wait in turn, each of them once.

use vstd::prelude::*;

use crate::chars::{halves, trimmed};
use crate::git::command::{report, CredentialsModel};
use crate::git::runner::RemoteAction;
use crate::git::status::SnapshotModel;
use crate::mode::Mode;
use crate::order::{by_rule, lemma_sorted_is_permutation};
use crate::paths::same_path;
use crate::tui::app::{initial, lemma_place, opt_view, place, AppModel, Keep};
use crate::tui::area::Rect;
use crate::tui::dialog::{ConfirmActionModel, ConfirmModel, CredentialField, LocalModel};
use crate::tui::events::{repo_after_op, snapshots_of, verdicts_of, BgEvent};
use crate::tui::key::{KeyCode, KeyModifiers};
use crate::tui::panel::PanelModel;
use crate::tui::prompt::PromptModel;
use crate::tui::repo::{FailKind, OpModel, RepoModel, RepoView};
use crate::tui::select::lemma_start_place;
use crate::tui::spawn::{
    auth_dialogs, auth_in_order, confirm_dialogs, forces, lemma_auth_dialogs_are_distinct,
    lemma_next_auth_in_order,
};
use crate::tui::submit::commit_message;
use crate::tui::text::short_ref;

verus! {

/// Whether a cursor stands on one of `rows` rows, or at the start where there are none.
pub open spec fn on_row(cursor: usize, rows: nat) -> bool {
    cursor < rows || (cursor == 0 && rows == 0)
}

/// Whether two dialogs ask to force the push of the same path.
pub open spec fn same_force(a: ConfirmModel, b: ConfirmModel) -> bool {
    match (a.action, b.action) {
        (
            ConfirmActionModel::ForcePush { path: p },
            ConfirmActionModel::ForcePush { path: q },
        ) => same_path(p, q),
        _ => false,
    }
}

/// Whether no push has two dialogs that ask to force it, and no dialog waits while none is shown.
pub open spec fn confirm_in_order(app: AppModel) -> bool {
    &&& app.confirm_prompt is None ==> app.confirm_queue.len() == 0
    &&& forall|i: int, j: int|
        0 <= i < j < confirm_dialogs(app).len() ==> !same_force(
            #[trigger] confirm_dialogs(app)[i],
            #[trigger] confirm_dialogs(app)[j],
        )
}

/// Whether the cursors stand on a row, and the dialogs wait in turn, each of them once.
pub open spec fn sound(app: AppModel) -> bool {
    &&& on_row(app.cursor, app.repos.len())
    &&& on_row(app.wt_cursor, app.wt_rows.len())
    &&& auth_in_order(app)
    &&& confirm_in_order(app)
}

/// Whether `b` has as many rows as `a`, its cursors, and its dialogs.
spec fn alike(a: AppModel, b: AppModel) -> bool {
    &&& b.repos.len() == a.repos.len()
    &&& b.cursor == a.cursor
    &&& b.wt_rows == a.wt_rows
    &&& b.wt_cursor == a.wt_cursor
    &&& b.auth_prompt == a.auth_prompt
    &&& b.auth_queue == a.auth_queue
    &&& b.confirm_prompt == a.confirm_prompt
    &&& b.confirm_queue == a.confirm_queue
}

/// What is alike is as sound.
proof fn lemma_alike(a: AppModel, b: AppModel)
    requires
        sound(a),
        alike(a, b),
    ensures
        sound(b),
{
    assert(auth_dialogs(b) == auth_dialogs(a));
    assert(confirm_dialogs(b) == confirm_dialogs(a));
}

/// The place of a repository is in the list, whatever its path.
proof fn lemma_places(app: AppModel)
    ensures
        forall|path: Seq<char>|
            (#[trigger] place(app.repos, path)) matches Some(i) ==> 0 <= i < app.repos.len(),
        app.current_place() matches Some(i) ==> 0 <= i < app.repos.len(),
{
    assert forall|path: Seq<char>|
        (#[trigger] place(app.repos, path)) matches Some(i) ==> 0 <= i < app.repos.len() by {
        lemma_place(app.repos, path);
    }
}

// ── Operations ───────────────────────────────────────────────────────────────

/// Starting remote actions leaves rows, cursors and dialogs as they are.
proof fn lemma_ops(app: AppModel, paths: Seq<Seq<char>>, action: RemoteAction)
    ensures
        alike(app, app.with_ops(paths, action)),
    decreases paths.len(),
{
    if paths.len() > 0 {
        lemma_ops(app, paths.drop_last(), action);
        lemma_places(app.with_ops(paths.drop_last(), action));
    }
}

/// Starting local operations leaves rows, cursors and dialogs as they are.
proof fn lemma_locals(app: AppModel, paths: Seq<Seq<char>>, action: LocalModel)
    ensures
        alike(app, app.with_locals(paths, action)),
    decreases paths.len(),
{
    if paths.len() > 0 {
        lemma_locals(app, paths.drop_last(), action);
        lemma_places(app.with_locals(paths.drop_last(), action));
    }
}

/// Setting upstreams leaves rows, cursors and dialogs as they are.
proof fn lemma_upstreams(
    app: AppModel,
    paths: Seq<Seq<char>>,
    remote: Seq<char>,
    fixed: Option<Seq<char>>,
)
    ensures
        alike(app, app.with_upstreams(paths, remote, fixed)),
    decreases paths.len(),
{
    if paths.len() > 0 {
        lemma_upstreams(app, paths.drop_last(), remote, fixed);
        lemma_places(app.with_upstreams(paths.drop_last(), remote, fixed));
    }
}

/// Taking in snapshots leaves rows, cursors and dialogs as they are.
proof fn lemma_snapshots(app: AppModel, snaps: Seq<(Seq<char>, SnapshotModel)>)
    ensures
        alike(app, app.with_snapshots(snaps)),
    decreases snaps.len(),
{
    if snaps.len() > 0 {
        lemma_snapshots(app, snaps.drop_last());
        lemma_places(app.with_snapshots(snaps.drop_last()));
    }
}

/// Taking in verdicts leaves rows, cursors and dialogs as they are.
proof fn lemma_verdicts(app: AppModel, verdicts: Seq<(Seq<char>, bool)>)
    ensures
        alike(app, app.with_verdicts(verdicts)),
    decreases verdicts.len(),
{
    if verdicts.len() > 0 {
        lemma_verdicts(app, verdicts.drop_last());
        lemma_places(app.with_verdicts(verdicts.drop_last()));
    }
}

/// Sorting keeps the state sound.
proof fn lemma_resorted(app: AppModel)
    requires
        sound(app),
        app.repos.len() <= usize::MAX,
    ensures
        sound(app.resorted()),
        app.resorted().repos.len() == app.repos.len(),
{
    broadcast use vstd::seq_lib::group_to_multiset_ensures;

    let after = app.resorted();
    lemma_sorted_is_permutation(app.repos, by_rule::<RepoView>(app.sort_mode));
    assert(after.repos.to_multiset().len() == after.repos.len());
    assert(app.repos.to_multiset().len() == app.repos.len());
    match app.current_path() {
        Some(path) => {
            lemma_place(after.repos, path);
        },
        None => {},
    }
    assert(auth_dialogs(after) == auth_dialogs(app));
    assert(confirm_dialogs(after) == confirm_dialogs(app));
}

// ── Dialogs ──────────────────────────────────────────────────────────────────

/// Asking for confirmation keeps the state sound.
proof fn lemma_with_confirm(app: AppModel, prompt: ConfirmModel)
    requires
        sound(app),
    ensures
        sound(app.with_confirm(prompt)),
{
    let after = app.with_confirm(prompt);
    assert(auth_dialogs(after) == auth_dialogs(app));
    if after != app {
        let before = confirm_dialogs(app);
        let now = confirm_dialogs(after);
        assert(now =~= before.push(prompt));
        assert forall|i: int, j: int| 0 <= i < j < now.len() implies !same_force(
            #[trigger] now[i],
            #[trigger] now[j],
        ) by {
            if j < before.len() {
                assert(!same_force(before[i], before[j]));
            } else {
                match prompt.action {
                    ConfirmActionModel::ForcePush { path } => {
                        match app.confirm_prompt {
                            Some(p) => {
                                if i == 0 {
                                    assert(!forces(p, path));
                                } else {
                                    assert(before[i] == app.confirm_queue[i - 1]);
                                    assert(!forces(app.confirm_queue[i - 1], path));
                                }
                            },
                            None => {},
                        }
                    },
                    _ => {},
                }
            }
        }
    }
}

/// Going on to the next confirm dialog keeps the state sound.
proof fn lemma_next_confirm(app: AppModel)
    requires
        sound(app),
    ensures
        sound(app.next_confirm()),
{
    let after = app.next_confirm();
    assert(auth_dialogs(after) == auth_dialogs(app));
    if app.confirm_queue.len() > 0 {
        let before = confirm_dialogs(app);
        let now = confirm_dialogs(after);
        assert(now =~= app.confirm_queue);
        assert forall|i: int, j: int| 0 <= i < j < now.len() implies !same_force(
            #[trigger] now[i],
            #[trigger] now[j],
        ) by {
            assert(before[i + 1] == now[i]);
            assert(before[j + 1] == now[j]);
        }
    }
}

/// Asking for credentials keeps the state sound.
proof fn lemma_with_auth(app: AppModel, path: Seq<char>, action: RemoteAction)
    requires
        sound(app),
    ensures
        sound(app.with_auth(path, action)),
{
    lemma_auth_dialogs_are_distinct(app, path, action);
    assert(confirm_dialogs(app.with_auth(path, action)) == confirm_dialogs(app));
}

/// Going on to the next credentials dialog keeps the state sound.
proof fn lemma_next_auth(app: AppModel)
    requires
        sound(app),
    ensures
        sound(app.next_auth()),
{
    lemma_next_auth_in_order(app);
    assert(confirm_dialogs(app.next_auth()) == confirm_dialogs(app));
}

/// A credentials dialog may be edited, as long as it stays with its repository.
proof fn lemma_edited_auth(app: AppModel, after: AppModel)
    requires
        sound(app),
        app.auth_prompt is Some,
        after.auth_prompt is Some,
        after.auth_prompt->0.repo_path == app.auth_prompt->0.repo_path,
        alike(AppModel { auth_prompt: after.auth_prompt, ..app }, after),
    ensures
        sound(after),
{
    let before = auth_dialogs(app);
    let now = auth_dialogs(after);
    assert(confirm_dialogs(after) == confirm_dialogs(app));
    assert forall|i: int, j: int| 0 <= i < j < now.len() implies !same_path(
        (#[trigger] now[i]).repo_path,
        (#[trigger] now[j]).repo_path,
    ) by {
        assert(now[i].repo_path == before[i].repo_path);
        assert(now[j].repo_path == before[j].repo_path);
        assert(!same_path(before[i].repo_path, before[j].repo_path));
    }
}

// ── Keys ─────────────────────────────────────────────────────────────────────

/// A key in the credentials dialog keeps the state sound.
proof fn lemma_auth_key(app: AppModel, code: KeyCode)
    requires
        sound(app),
        app.auth_prompt is Some,
    ensures
        sound(app.after_auth_key(code)),
{
    let p = app.auth_prompt->0;
    lemma_places(app);
    match code {
        KeyCode::Esc => {
            let cancelled = app.with_state(
                place(app.repos, p.repo_path),
                OpModel::Fail {
                    message: "credentials cancelled"@,
                    kind: FailKind::Generic,
                },
            );
            lemma_alike(app, cancelled);
            lemma_next_auth(cancelled);
        },
        KeyCode::Enter => {
            if p.field == CredentialField::Username {
                lemma_edited_auth(app, app.after_auth_key(code));
            } else {
                let going = app.with_op(
                    p.repo_path,
                    p.action,
                    Some(
                        CredentialsModel {
                            username: trimmed(p.username),
                            password: p.input,
                        },
                    ),
                );
                lemma_alike(app, going);
                lemma_next_auth(going);
            }
        },
        _ => {
            lemma_edited_auth(app, app.after_auth_key(code));
        },
    }
}

/// A key in the confirm dialog keeps the state sound.
proof fn lemma_confirm_key(app: AppModel, code: KeyCode)
    requires
        sound(app),
        app.confirm_prompt is Some,
    ensures
        sound(app.after_confirm_key(code)),
{
    let p = app.confirm_prompt->0;
    let rest = app.next_confirm();
    lemma_next_confirm(app);
    lemma_carried_out(rest, p.action, false);
    lemma_carried_out(rest, p.action, true);
}

/// Carrying out what was confirmed keeps the state sound.
proof fn lemma_carried_out(app: AppModel, action: ConfirmActionModel, hard: bool)
    requires
        sound(app),
    ensures
        sound(app.carried_out(action, hard)),
{
    lemma_places(app);
    match action {
        ConfirmActionModel::ForcePush { path } => {},
        ConfirmActionModel::StashDrop { paths } => {
            lemma_locals(app, paths, LocalModel::StashDrop);
        },
        ConfirmActionModel::DeleteBranch { name, paths } => {
            lemma_locals(app, paths, LocalModel::DeleteBranch(name));
        },
        ConfirmActionModel::ForceDeleteBranch { name, paths } => {
            lemma_locals(app, paths, LocalModel::ForceDeleteBranch(name));
        },
        ConfirmActionModel::DeleteRemoteBranch { name, paths } => {
            lemma_locals(app, paths, LocalModel::DeleteRemoteBranch(name));
        },
        ConfirmActionModel::ResetToUpstream { paths } => {
            lemma_locals(app, paths, LocalModel::ResetUpstream { hard });
        },
        ConfirmActionModel::RunMode { mode, paths } => {
            lemma_ops(app, paths, RemoteAction::of_mode(mode));
        },
    }
    lemma_alike(app, app.carried_out(action, hard));
}

/// A submitted prompt keeps the state sound.
#[verifier::rlimit(40)]
proof fn lemma_submitted(app: AppModel, p: PromptModel)
    requires
        sound(app),
    ensures
        sound(app.submitted(p)),
{
    let input = trimmed(p.input);
    lemma_places(app);
    let all = app.targets(Keep::All);
    let dirty = app.targets(Keep::Dirty);
    let message = commit_message(input, trimmed(p.description));
    lemma_locals(app, dirty, LocalModel::Commit(message));
    lemma_locals(app, all, LocalModel::CreateBranch(input));
    lemma_locals(app, dirty, LocalModel::StashPush(None));
    lemma_locals(app, dirty, LocalModel::StashPush(Some(input)));
    lemma_locals(app, all, LocalModel::Checkout(input));
    lemma_locals(app, all, LocalModel::DeleteBranch(input));
    lemma_locals(app, all, LocalModel::ForceDeleteBranch(input));
    lemma_locals(app, all, LocalModel::CheckoutRemote(input));
    lemma_locals(app, all, LocalModel::DeleteRemoteBranch(input));
    lemma_upstreams(app, all, input, None);
    match halves(input, '/') {
        Some((remote, branch)) => {
            lemma_upstreams(app, all, remote, Some(branch));
        },
        None => {},
    }
    assert(alike(app, app.submitted(p)));
    lemma_alike(app, app.submitted(p));
}

/// A key in a panel keeps the state sound.
#[verifier::rlimit(40)]
proof fn lemma_panel_key(app: AppModel, p: PanelModel, code: KeyCode)
    requires
        sound(app),
    ensures
        sound(app.after_panel_key(p, code)),
{
    let after = app.after_panel_key(p, code);
    let s = AppModel { panel: None, ..app };
    lemma_alike(app, s);
    match app.selected_branch() {
        Some(name) => {
            lemma_checking_out(s, name);
            lemma_deleting(s, name, false);
            lemma_deleting(s, name, true);
        },
        None => {},
    }
    if alike(app, after) {
        lemma_alike(app, after);
    }
}

/// Checking out a branch keeps the state sound.
proof fn lemma_checking_out(app: AppModel, name: Seq<char>)
    requires
        sound(app),
    ensures
        sound(app.checking_out(name)),
{
    let all = app.targets(Keep::All);
    lemma_locals(app, all, LocalModel::Checkout(name));
    match short_ref(name) {
        Some(short) => {
            lemma_locals(app, all, LocalModel::CheckoutRemote(short));
        },
        None => {},
    }
    lemma_alike(app, app.checking_out(name));
}

/// Asking whether to delete a branch keeps the state sound.
proof fn lemma_deleting(app: AppModel, name: Seq<char>, force: bool)
    requires
        sound(app),
    ensures
        sound(app.deleting(name, force)),
{
    let after = app.deleting(name, force);
    if app.multi_target() {
        assert forall|prompt: ConfirmModel| sound(#[trigger] app.with_confirm(prompt)) by {
            lemma_with_confirm(app, prompt);
        }
    } else {
        lemma_alike(app, after);
    }
}

/// Running a mode keeps the state sound.
proof fn lemma_run(app: AppModel, mode: Mode)
    requires
        sound(app),
    ensures
        sound(app.after_run(mode)),
{
    let paths = app.targets(Keep::All);
    lemma_ops(app, paths, RemoteAction::of_mode(mode));
    lemma_alike(app, app.with_ops(paths, RemoteAction::of_mode(mode)));
    lemma_with_confirm(app, AppModel::mode_dialog(mode, paths));
}

/// A letter in the list keeps the state sound.
#[verifier::rlimit(60)]
proof fn lemma_letter(app: AppModel, c: char)
    requires
        sound(app),
        app.repos.len() <= usize::MAX,
        app.wt_rows.len() <= usize::MAX,
    ensures
        sound(app.after_letter(c)),
{
    let after = app.after_letter(c);
    lemma_places(app);
    if c == 'f' {
        lemma_run(app, Mode::Fetch);
    } else if c == 'p' {
        lemma_run(app, Mode::Pull);
    } else if c == 'P' {
        lemma_run(app, Mode::Push);
    } else if c == 't' {
        let turned = AppModel { sort_mode: after.sort_mode, ..app };
        lemma_alike(app, turned);
        lemma_resorted(turned);
    } else if c == 'U' || c == 'D' {
        assert forall|prompt: ConfirmModel| sound(#[trigger] app.with_confirm(prompt)) by {
            lemma_with_confirm(app, prompt);
        }
    } else if c == 'W' || c == 'k' || c == 'j' || c == 'g' || c == 'G' {
        assert(auth_dialogs(after) == auth_dialogs(app));
        assert(confirm_dialogs(after) == confirm_dialogs(app));
    } else {
        lemma_locals(app, app.targets(Keep::Stashed), LocalModel::StashPop);
        lemma_alike(app, after);
    }
}

/// A key in the list keeps the state sound.
#[verifier::rlimit(60)]
proof fn lemma_main_key(app: AppModel, code: KeyCode)
    requires
        sound(app),
        app.repos.len() <= usize::MAX,
        app.wt_rows.len() <= usize::MAX,
    ensures
        sound(app.after_main_key(code)),
{
    let after = app.after_main_key(code);
    lemma_places(app);
    match code {
        KeyCode::Char(c) => {
            lemma_letter(app, c);
        },
        KeyCode::Enter => {
            lemma_run(app, app.mode);
        },
        KeyCode::Up | KeyCode::Down | KeyCode::Home | KeyCode::End | KeyCode::PageUp
        | KeyCode::PageDown => {
            assert(auth_dialogs(after) == auth_dialogs(app));
            assert(confirm_dialogs(after) == confirm_dialogs(app));
        },
        _ => {
            lemma_alike(app, after);
        },
    }
}

/// Whatever is open, a key leaves the cursors on a row, and the dialogs in turn, each of them once.
#[verifier::rlimit(60)]
pub proof fn lemma_keys_keep_sound(app: AppModel, code: KeyCode, mods: KeyModifiers)
    requires
        sound(app),
        app.repos.len() <= usize::MAX,
        app.wt_rows.len() <= usize::MAX,
    ensures
        sound(app.after_key(code, mods)),
{
    if app.quits(code, mods) || app.loading {
    } else if app.auth_prompt is Some {
        lemma_auth_key(app, code);
    } else if app.confirm_prompt is Some {
        lemma_confirm_key(app, code);
    } else if app.prompt is Some {
        let p = app.prompt->0;
        let closed = AppModel { prompt: None, ..app };
        lemma_alike(app, closed);
        let edited = app.path_filled(p, p.after_key(code, mods));
        lemma_submitted(closed, edited);
        lemma_alike(app, AppModel { prompt: Some(edited), ..app });
    } else if app.show_help {
        lemma_alike(app, app.after_help_key(code));
    } else if code != KeyCode::Esc && app.panel is Some {
        lemma_panel_key(app, app.panel->0, code);
    } else {
        lemma_main_key(app, code);
    }
}

// ── Events ───────────────────────────────────────────────────────────────────

/// What is done when everything is loaded keeps the state sound.
proof fn lemma_after_load(app: AppModel)
    requires
        sound(app),
        app.repos.len() <= usize::MAX,
    ensures
        sound(app.after_load()),
{
    let done = AppModel { loading: false, ..app };
    lemma_alike(app, done);
    lemma_resorted(done);
    let s = done.resorted();
    lemma_start_place(s);
    let placed = AppModel { cursor: s.start_place() as usize, last_refresh: app.now, ..s };
    assert(auth_dialogs(placed) == auth_dialogs(s));
    assert(confirm_dialogs(placed) == confirm_dialogs(s));
    lemma_alike(placed, app.after_load());
}

/// Counting one more repository keeps the state sound.
proof fn lemma_one_loaded(app: AppModel)
    requires
        sound(app),
        app.repos.len() <= usize::MAX,
    ensures
        sound(app.one_loaded()),
{
    let done = if app.load_done < usize::MAX {
        (app.load_done + 1) as usize
    } else {
        app.load_done
    };
    let s = AppModel { load_done: done, ..app };
    lemma_alike(app, s);
    lemma_after_load(s);
}

/// Whatever comes back from the background leaves the cursors on a row, and the dialogs in turn,
/// each of them once.
#[verifier::rlimit(60)]
pub proof fn lemma_events_keep_sound(app: AppModel, event: BgEvent)
    requires
        sound(app),
        app.repos.len() < usize::MAX,
    ensures
        sound(app.after_event(event)),
{
    let s = AppModel { col_widths: None, ..app };
    let after = app.after_event(event);
    lemma_alike(app, s);
    lemma_places(s);
    match event {
        BgEvent::RepoLoaded(snapshot) => {
            let grown = AppModel {
                repos: s.repos.push(RepoModel::fresh(snapshot@)),
                ..s
            };
            assert(auth_dialogs(grown) == auth_dialogs(s));
            assert(confirm_dialogs(grown) == confirm_dialogs(s));
            lemma_one_loaded(grown);
        },
        BgEvent::RepoSkipped => {
            lemma_one_loaded(s);
        },
        BgEvent::OpResult { path, action, result, snapshot } => {
            assert forall|t: AppModel, p: ConfirmModel| sound(t) implies sound(
                #[trigger] t.with_confirm(p),
            ) by {
                lemma_with_confirm(t, p);
            }
            assert forall|t: AppModel, p: Seq<char>, a: RemoteAction| sound(t) implies sound(
                #[trigger] t.with_auth(p, a),
            ) by {
                lemma_with_auth(t, p, a);
            }
            let settled = s.with_repo(
                place(s.repos, path@),
                |r: RepoModel|
                    repo_after_op(
                        r,
                        action,
                        report(result),
                        opt_view(snapshot),
                    ),
            ).with_safety_check(
                s.op_recheck(
                    path@,
                    action,
                    report(result),
                    opt_view(snapshot),
                ),
            );
            lemma_alike(s, settled);
        },
        BgEvent::RefreshComplete { snapshots } => {
            let snaps = snapshots_of(snapshots@);
            lemma_snapshots(s, snaps);
            lemma_alike(s, s.with_snapshots(snaps));
            lemma_resorted(s.with_snapshots(snaps));
            lemma_alike(s.with_snapshots(snaps).resorted(), after);
        },
        BgEvent::WorktreesReady(rows) => {
            assert(auth_dialogs(after) == auth_dialogs(s));
            assert(confirm_dialogs(after) == confirm_dialogs(s));
        },
        BgEvent::PullSafetyChecked(results) => {
            lemma_verdicts(s, verdicts_of(results@));
            lemma_alike(s, after);
        },
        _ => {
            lemma_alike(s, after);
        },
    }
}

// ── The rest ─────────────────────────────────────────────────────────────────

/// At the start, in the next frame, after a paste and after lazygit, too, the cursors stand on a
/// row, and the dialogs wait in turn, each of them once.
pub proof fn lemma_rest_keeps_sound(app: AppModel, text: Seq<char>, launched: bool)
    requires
        sound(app),
    ensures
        forall|mode: Mode, auto_stash: bool, total: usize| sound(
            #[trigger] initial(mode, auto_stash, total),
        ),
        sound(app.next_frame()),
        sound(app.after_paste(text)),
        sound(app.after_lazygit(launched)),
{
    lemma_places(app);
    lemma_alike(app, app.next_frame());
    lemma_alike(app, app.after_lazygit(launched));
    if app.prompt is None && app.auth_prompt is Some {
        lemma_edited_auth(app, app.after_paste(text));
    } else {
        lemma_alike(app, app.after_paste(text));
    }
}

/// Drawing leaves the cursors on a row, and the dialogs in turn, each of them once.
pub proof fn lemma_drawing_keeps_sound(app: AppModel, area: Rect, clock: int)
    requires
        sound(app),
    ensures
        sound(app.laid_out(area, clock)),
        sound(app.with_help_in_view(area)),
        sound(app.with_panel_height(area)),
{
    lemma_alike(app, app.laid_out(area, clock));
    lemma_alike(app, app.with_help_in_view(area));
    lemma_alike(app, app.with_panel_height(area));
}

} // verus!
