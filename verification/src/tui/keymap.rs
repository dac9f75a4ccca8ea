//! What keys come to, told by what is asked of git, what opens, and what changes in the list.

use vstd::prelude::*;
use vstd::string::*;

use crate::git::command::Outcome;
use crate::git::runner::RemoteAction;
use crate::mode::Mode;
use crate::tui::app::{
    count_where, lemma_place, paths_where, place, AppModel, EffectModel, Keep,
};
use crate::tui::commands::{lemma_only_hard_reset_is_hard, ran, runs};
use crate::tui::dialog::{ConfirmActionModel, ConfirmModel, LocalModel};
use crate::tui::key::{KeyCode, KeyModifiers};
use crate::tui::ops::queued;
use crate::tui::panel::PanelKind;
use crate::tui::prompt::PromptKind;
use crate::tui::repo::{OpModel, QueueOrigin, RepoModel};
use crate::tui::select::outcome_of;
use crate::tui::worktree::WorktreeOpModel;

verus! {

// ── What is started ──────────────────────────────────────────────────────────

/// Whether keys go to the list: everything is loaded, and nothing is open.
pub open spec fn in_list(app: AppModel) -> bool {
    &&& !app.loading
    &&& app.auth_prompt is None
    &&& app.confirm_prompt is None
    &&& app.prompt is None
    &&& !app.show_help
    &&& app.panel is None
}

/// Whether the repository at `path` has changes that are not committed.
pub open spec fn dirty_at_path(app: AppModel, path: Seq<char>) -> bool {
    place(app.repos, path) matches Some(i) && app.repos[i].snapshot.dirty
}

/// One remote action for each of `paths`. It is wrapped in an auto-stash where that is configured,
/// the action needs a clean tree, and the tree is not.
pub open spec fn remotes(app: AppModel, paths: Seq<Seq<char>>, action: RemoteAction) -> Seq<
    EffectModel,
> {
    Seq::new(
        paths.len(),
        |k: int|
            EffectModel::Remote {
                path: paths[k],
                action,
                credentials: None,
                stash: app.auto_stash && (action == RemoteAction::PullFfOnly || action
                    == RemoteAction::Merge || action == RemoteAction::Rebase) && dirty_at_path(
                    app,
                    paths[k],
                ),
            },
    )
}

/// One local operation for each of `paths`.
pub open spec fn locals(paths: Seq<Seq<char>>, action: LocalModel) -> Seq<EffectModel> {
    Seq::new(paths.len(), |k: int| EffectModel::Local { path: paths[k], action })
}

/// Whether one of `paths` leads to the repository at place `i`.
pub open spec fn led_to(repos: Seq<RepoModel>, paths: Seq<Seq<char>>, i: int) -> bool {
    exists|k: int| 0 <= k < paths.len() && place(repos, #[trigger] paths[k]) == Some(i)
}

/// Lists with the same paths have the same places.
proof fn lemma_same_places(a: Seq<RepoModel>, b: Seq<RepoModel>, path: Seq<char>)
    requires
        a.len() == b.len(),
        forall|i: int| 0 <= i < a.len() ==> (#[trigger] a[i]).snapshot.path == b[i].snapshot.path,
    ensures
        place(a, path) == place(b, path),
    decreases a.len(),
{
    if a.len() > 0 {
        assert forall|i: int| 0 <= i < a.drop_last().len() implies (
        #[trigger] a.drop_last()[i]).snapshot.path == b.drop_last()[i].snapshot.path by {
            assert(a.drop_last()[i] == a[i]);
            assert(b.drop_last()[i] == b[i]);
        }
        lemma_same_places(a.drop_last(), b.drop_last(), path);
        assert(a[a.len() - 1].snapshot.path == b[a.len() - 1].snapshot.path);
    }
}

/// Starting a local operation on several repositories starts one on each, in that order, and marks
/// exactly these as being worked on.
pub proof fn lemma_locals_start_on_each(app: AppModel, paths: Seq<Seq<char>>, action: LocalModel)
    ensures
        ({
            let after = app.with_locals(paths, action);
            &&& after.outbox == app.outbox + locals(paths, action)
            &&& after.repos.len() == app.repos.len()
            &&& forall|i: int|
                0 <= i < app.repos.len() ==> #[trigger] after.repos[i] == (if led_to(
                    app.repos,
                    paths,
                    i,
                ) {
                    RepoModel { state: OpModel::Working, ..app.repos[i] }
                } else {
                    app.repos[i]
                })
            &&& after == (AppModel { outbox: after.outbox, repos: after.repos, ..app })
        }),
    decreases paths.len(),
{
    let after = app.with_locals(paths, action);
    if paths.len() == 0 {
        assert(locals(paths, action) =~= Seq::<EffectModel>::empty());
        assert(app.outbox + locals(paths, action) =~= app.outbox);
    } else {
        let most = paths.drop_last();
        let path = paths.last();
        lemma_locals_start_on_each(app, most, action);
        let s = app.with_locals(most, action);
        assert(locals(paths, action) =~= locals(most, action).push(
            EffectModel::Local { path, action },
        ));
        lemma_same_places(s.repos, app.repos, path);
        lemma_place(app.repos, path);
        assert forall|i: int| 0 <= i < app.repos.len() implies #[trigger] after.repos[i] == (
        if led_to(app.repos, paths, i) {
            RepoModel { state: OpModel::Working, ..app.repos[i] }
        } else {
            app.repos[i]
        }) by {
            lemma_led_to(app.repos, paths, i);
            assert(s.repos[i] == (if led_to(app.repos, most, i) {
                RepoModel { state: OpModel::Working, ..app.repos[i] }
            } else {
                app.repos[i]
            }));
        }
    }
}

/// A repository is led to by the last path or by one before it.
proof fn lemma_led_to(repos: Seq<RepoModel>, paths: Seq<Seq<char>>, i: int)
    requires
        paths.len() > 0,
    ensures
        led_to(repos, paths, i) <==> led_to(repos, paths.drop_last(), i) || place(
            repos,
            paths.last(),
        ) == Some(i),
{
    let most = paths.drop_last();
    if led_to(repos, paths, i) {
        let k = choose|k: int|
            0 <= k < paths.len() && place(repos, #[trigger] paths[k]) == Some(i);
        if k < most.len() {
            assert(most[k] == paths[k]);
        }
    }
    if led_to(repos, most, i) {
        let k = choose|k: int| 0 <= k < most.len() && place(repos, #[trigger] most[k]) == Some(i);
        assert(paths[k] == most[k]);
    }
    if place(repos, paths.last()) == Some(i) {
        assert(paths[paths.len() - 1] == paths.last());
    }
}

/// Starting a remote action on several repositories starts one on each, in that order, and marks
/// exactly these as being worked on by that action.
pub proof fn lemma_remotes_start_on_each(
    app: AppModel,
    paths: Seq<Seq<char>>,
    action: RemoteAction,
)
    ensures
        ({
            let after = app.with_ops(paths, action);
            &&& after.outbox == app.outbox + remotes(app, paths, action)
            &&& after.repos.len() == app.repos.len()
            &&& forall|i: int|
                0 <= i < app.repos.len() ==> #[trigger] after.repos[i] == (if led_to(
                    app.repos,
                    paths,
                    i,
                ) {
                    RepoModel {
                        state: OpModel::Working,
                        last_action: Some(action),
                        ..app.repos[i]
                    }
                } else {
                    app.repos[i]
                })
            &&& after == (AppModel { outbox: after.outbox, repos: after.repos, ..app })
        }),
    decreases paths.len(),
{
    let after = app.with_ops(paths, action);
    if paths.len() == 0 {
        assert(remotes(app, paths, action) =~= Seq::<EffectModel>::empty());
        assert(app.outbox + remotes(app, paths, action) =~= app.outbox);
    } else {
        let most = paths.drop_last();
        let path = paths.last();
        lemma_remotes_start_on_each(app, most, action);
        let s = app.with_ops(most, action);
        lemma_same_places(s.repos, app.repos, path);
        lemma_place(app.repos, path);
        assert(after.outbox.last() == remotes(app, paths, action).last());
        assert(remotes(app, paths, action) =~= remotes(app, most, action).push(
            after.outbox.last(),
        ));
        assert forall|i: int| 0 <= i < app.repos.len() implies #[trigger] after.repos[i] == (
        if led_to(app.repos, paths, i) {
            RepoModel { state: OpModel::Working, last_action: Some(action), ..app.repos[i] }
        } else {
            app.repos[i]
        }) by {
            lemma_led_to(app.repos, paths, i);
            assert(s.repos[i] == (if led_to(app.repos, most, i) {
                RepoModel { state: OpModel::Working, last_action: Some(action), ..app.repos[i] }
            } else {
                app.repos[i]
            }));
        }
    }
}

// ── What an operation applies to ─────────────────────────────────────────────

/// Whether no repository is selected.
pub open spec fn none_selected(app: AppModel) -> bool {
    forall|i: int| 0 <= i < app.repos.len() ==> !((#[trigger] app.repos[i]).state is Queued)
}

/// A repository that `pred` holds of counts.
proof fn lemma_counted(repos: Seq<RepoModel>, pred: spec_fn(RepoModel) -> bool)
    ensures
        count_where(repos, pred) > 0 <==> exists|i: int|
            0 <= i < repos.len() && pred(#[trigger] repos[i]),
    decreases repos.len(),
{
    if repos.len() > 0 {
        let most = repos.drop_last();
        lemma_counted(most, pred);
        if count_where(most, pred) > 0 {
            let i = choose|i: int| 0 <= i < most.len() && pred(#[trigger] most[i]);
            assert(pred(repos[i]));
        }
        if pred(repos.last()) {
            assert(pred(repos[repos.len() - 1]));
        }
        if exists|i: int| 0 <= i < repos.len() && pred(#[trigger] repos[i]) {
            let i = choose|i: int| 0 <= i < repos.len() && pred(#[trigger] repos[i]);
            if i < most.len() {
                assert(pred(most[i]));
            }
        }
    }
}

/// The paths of those that `pred` holds of are those of the filtered list.
proof fn lemma_paths_filter(repos: Seq<RepoModel>, pred: spec_fn(RepoModel) -> bool)
    ensures
        paths_where(repos, pred) == repos.filter(pred).map_values(
            |r: RepoModel| r.snapshot.path,
        ),
    decreases repos.len(),
{
    reveal(Seq::filter);
    if repos.len() > 0 {
        lemma_paths_filter(repos.drop_last(), pred);
        let f = |r: RepoModel| r.snapshot.path;
        let before = repos.drop_last().filter(pred);
        assert(before.push(repos.last()).map_values(f) =~= before.map_values(f).push(
            f(repos.last()),
        ));
    } else {
        assert(repos.filter(pred).map_values(|r: RepoModel| r.snapshot.path) =~= Seq::<
            Seq<char>,
        >::empty());
    }
}

/// An operation applies to the selected repositories, in the order of the list; where none is
/// selected, to the one under the cursor. Commits and stashes leave out repositories without changes,
/// popping and dropping those without a stash entry, and a reset those without an upstream.
pub proof fn lemma_operations_apply_to_selection_or_cursor(app: AppModel)
    ensures
        !none_selected(app) ==> {
            &&& app.targets(Keep::All) == app.repos.filter(
                |r: RepoModel| r.state is Queued,
            ).map_values(|r: RepoModel| r.snapshot.path)
            &&& app.targets(Keep::Dirty) == app.repos.filter(
                |r: RepoModel| r.state is Queued && r.snapshot.dirty,
            ).map_values(|r: RepoModel| r.snapshot.path)
            &&& app.targets(Keep::Stashed) == app.repos.filter(
                |r: RepoModel| r.state is Queued && r.snapshot.stash_count > 0,
            ).map_values(|r: RepoModel| r.snapshot.path)
            &&& app.targets(Keep::Upstream) == app.repos.filter(
                |r: RepoModel| r.state is Queued && !r.snapshot.branch.no_upstream,
            ).map_values(|r: RepoModel| r.snapshot.path)
        },
        none_selected(app) && app.cursor < app.repos.len() ==> {
            let r = app.repos[app.cursor as int];
            let one = seq![r.snapshot.path];
            let none = Seq::<Seq<char>>::empty();
            &&& app.targets(Keep::All) == one
            &&& app.targets(Keep::Dirty) == (if r.snapshot.dirty {
                one
            } else {
                none
            })
            &&& app.targets(Keep::Stashed) == (if r.snapshot.stash_count > 0 {
                one
            } else {
                none
            })
            &&& app.targets(Keep::Upstream) == (if r.snapshot.branch.no_upstream {
                none
            } else {
                one
            })
        },
        none_selected(app) && app.cursor >= app.repos.len() ==> app.targets(Keep::All).len() == 0,
{
    lemma_counted(app.repos, queued());
    if app.queued_count() > 0 {
        lemma_targets_filter(app, Keep::All, |r: RepoModel| r.state is Queued);
        lemma_targets_filter(
            app,
            Keep::Dirty,
            |r: RepoModel| r.state is Queued && r.snapshot.dirty,
        );
        lemma_targets_filter(
            app,
            Keep::Stashed,
            |r: RepoModel| r.state is Queued && r.snapshot.stash_count > 0,
        );
        lemma_targets_filter(
            app,
            Keep::Upstream,
            |r: RepoModel| r.state is Queued && !r.snapshot.branch.no_upstream,
        );
    }
}

/// The targets among the selected are those that `pred` holds of, where it says the same.
proof fn lemma_targets_filter(app: AppModel, keep: Keep, pred: spec_fn(RepoModel) -> bool)
    requires
        app.queued_count() > 0,
        forall|r: RepoModel| #[trigger] pred(r) <==> r.state is Queued && keep.admits(r),
    ensures
        app.targets(keep) == app.repos.filter(pred).map_values(|r: RepoModel| r.snapshot.path),
{
    let own = |r: RepoModel| r.state is Queued && keep.admits(r);
    assert(own =~= pred);
    lemma_paths_filter(app.repos, pred);
}

// ── Keys that run something ──────────────────────────────────────────────────

/// Where nothing is open, the list takes every key, but for those that quit.
pub proof fn lemma_list_takes_keys(app: AppModel, code: KeyCode, mods: KeyModifiers)
    requires
        in_list(app),
        !app.quits(code, mods),
    ensures
        one_state(app.after_key(code, mods), app.after_main_key(code)),
        code matches KeyCode::Char(c) ==> one_state(app.after_key(code, mods), app.after_letter(c)),
{
}

/// Only `q`, `Q` and Ctrl+C quit, where nothing is open.
pub proof fn lemma_only_q_quits(app: AppModel, code: KeyCode, mods: KeyModifiers)
    requires
        in_list(app),
    ensures
        app.quits(code, mods) <==> code == KeyCode::Char('q') || code == KeyCode::Char('Q')
            || (mods.control && code == KeyCode::Char('c')),
{
}

/// Whether two states are one.
pub open spec fn one_state(a: AppModel, b: AppModel) -> bool {
    a == b
}

/// `f` fetches everything that is selected, or else what is under the cursor; nothing is asked first.
pub proof fn lemma_f_fetches(app: AppModel)
    requires
        in_list(app),
    ensures
        app.after_letter('f').outbox == app.outbox + remotes(
            app,
            app.targets(Keep::All),
            RemoteAction::Fetch,
        ),
        app.after_letter('f').confirm_prompt is None,
{
    lemma_run_starts(app, Mode::Fetch);
    assert(one_state(app.after_letter('f'), app.after_run(Mode::Fetch)));
}

/// `p` pulls everything that is selected, or else what is under the cursor, by fast-forward only;
/// nothing is asked first.
pub proof fn lemma_p_pulls(app: AppModel)
    requires
        in_list(app),
    ensures
        app.after_letter('p').outbox == app.outbox + remotes(
            app,
            app.targets(Keep::All),
            RemoteAction::PullFfOnly,
        ),
        app.after_letter('p').confirm_prompt is None,
{
    lemma_run_starts(app, Mode::Pull);
    assert(one_state(app.after_letter('p'), app.after_run(Mode::Pull)));
}

/// In Fetch mode Enter fetches everything that is selected, or else what is under the cursor.
pub proof fn lemma_enter_fetches_in_fetch_mode(app: AppModel)
    requires
        in_list(app),
        app.mode == Mode::Fetch,
    ensures
        app.after_main_key(KeyCode::Enter).outbox == app.outbox + remotes(
            app,
            app.targets(Keep::All),
            RemoteAction::Fetch,
        ),
        app.after_main_key(KeyCode::Enter).confirm_prompt is None,
{
    lemma_run_starts(app, Mode::Fetch);
    assert(one_state(app.after_main_key(KeyCode::Enter), app.after_run(Mode::Fetch)));
}

/// In Pull mode Enter pulls everything that is selected, or else what is under the cursor.
pub proof fn lemma_enter_pulls_in_pull_mode(app: AppModel)
    requires
        in_list(app),
        app.mode == Mode::Pull,
    ensures
        app.after_main_key(KeyCode::Enter).outbox == app.outbox + remotes(
            app,
            app.targets(Keep::All),
            RemoteAction::PullFfOnly,
        ),
        app.after_main_key(KeyCode::Enter).confirm_prompt is None,
{
    lemma_run_starts(app, Mode::Pull);
    assert(one_state(app.after_main_key(KeyCode::Enter), app.after_run(Mode::Pull)));
}

/// In Merge mode Enter merges everything that is selected, or else what is under the cursor.
pub proof fn lemma_enter_merges_in_merge_mode(app: AppModel)
    requires
        in_list(app),
        app.mode == Mode::Merge,
    ensures
        app.after_main_key(KeyCode::Enter).outbox == app.outbox + remotes(
            app,
            app.targets(Keep::All),
            RemoteAction::Merge,
        ),
        app.after_main_key(KeyCode::Enter).confirm_prompt is None,
{
    lemma_run_starts(app, Mode::Merge);
    assert(one_state(app.after_main_key(KeyCode::Enter), app.after_run(Mode::Merge)));
}

/// In Rebase mode Enter rebases everything that is selected, or else what is under the cursor.
pub proof fn lemma_enter_rebases_in_rebase_mode(app: AppModel)
    requires
        in_list(app),
        app.mode == Mode::Rebase,
    ensures
        app.after_main_key(KeyCode::Enter).outbox == app.outbox + remotes(
            app,
            app.targets(Keep::All),
            RemoteAction::Rebase,
        ),
        app.after_main_key(KeyCode::Enter).confirm_prompt is None,
{
    lemma_run_starts(app, Mode::Rebase);
    assert(one_state(app.after_main_key(KeyCode::Enter), app.after_run(Mode::Rebase)));
}

/// `P` pushes a single repository at once, and never by force. Several are named in a dialog first.
pub proof fn lemma_big_p_pushes(app: AppModel)
    requires
        in_list(app),
    ensures
        ({
            let paths = app.targets(Keep::All);
            let after = app.after_letter('P');
            &&& paths.len() == 0 ==> after.outbox == app.outbox && after.confirm_prompt is None
            &&& paths.len() == 1 ==> after.confirm_prompt is None && after.outbox == app.outbox
                + remotes(app, paths, RemoteAction::Push { force: false })
            &&& paths.len() > 1 ==> {
                &&& after.outbox == app.outbox
                &&& after.repos == app.repos
                &&& after.confirm_prompt matches Some(p) && p.title == "Push?"@ && p.action == (
                ConfirmActionModel::RunMode { mode: Mode::Push, paths })
            }
        }),
{
    assert(one_state(app.after_letter('P'), app.after_run(Mode::Push)));
    if app.targets(Keep::All).len() == 1 {
        lemma_run_starts(app, Mode::Push);
    }
}

/// In Push mode Enter does as `P` does.
pub proof fn lemma_enter_pushes_in_push_mode(app: AppModel)
    requires
        in_list(app),
        app.mode == Mode::Push,
    ensures
        ({
            let paths = app.targets(Keep::All);
            let after = app.after_main_key(KeyCode::Enter);
            &&& paths.len() == 0 ==> after.outbox == app.outbox && after.confirm_prompt is None
            &&& paths.len() == 1 ==> after.confirm_prompt is None && after.outbox == app.outbox
                + remotes(app, paths, RemoteAction::Push { force: false })
            &&& paths.len() > 1 ==> {
                &&& after.outbox == app.outbox
                &&& after.repos == app.repos
                &&& after.confirm_prompt matches Some(p) && p.title == "Push?"@ && p.action == (
                ConfirmActionModel::RunMode { mode: Mode::Push, paths })
            }
        }),
{
    assert(one_state(app.after_main_key(KeyCode::Enter), app.after_run(Mode::Push)));
    if app.targets(Keep::All).len() == 1 {
        lemma_run_starts(app, Mode::Push);
    }
}

/// Running a mode that asks nothing starts its action on each target.
proof fn lemma_run_starts(app: AppModel, mode: Mode)
    requires
        mode != Mode::Push || app.targets(Keep::All).len() == 1,
    ensures
        app.after_run(mode).outbox == app.outbox + remotes(
            app,
            app.targets(Keep::All),
            RemoteAction::of_mode(mode),
        ),
        app.after_run(mode).confirm_prompt == app.confirm_prompt,
{
    let paths = app.targets(Keep::All);
    let action = RemoteAction::of_mode(mode);
    lemma_remotes_start_on_each(app, paths, action);
    if paths.len() == 0 {
        assert(app.outbox + remotes(app, paths, action) =~= app.outbox);
    }
}

/// `O` brings back the newest stash entry of each target that has one.
pub proof fn lemma_o_pops_stashes(app: AppModel)
    requires
        in_list(app),
    ensures
        app.after_letter('O').outbox == app.outbox + locals(
            app.targets(Keep::Stashed),
            LocalModel::StashPop,
        ),
{
    lemma_locals_start_on_each(app, app.targets(Keep::Stashed), LocalModel::StashPop);
}

// ── Dialogs ──────────────────────────────────────────────────────────────────

/// `U` and `D` start nothing: where there is something to reset or to drop, a dialog names exactly
/// the repositories with an upstream, or with a stash entry.
pub proof fn lemma_reset_and_drop_ask_first(app: AppModel)
    requires
        in_list(app),
    ensures
        ({
            let up = app.targets(Keep::Upstream);
            let stashed = app.targets(Keep::Stashed);
            let reset = app.after_letter('U');
            let drop = app.after_letter('D');
            &&& reset.outbox == app.outbox && reset.repos == app.repos
            &&& drop.outbox == app.outbox && drop.repos == app.repos
            &&& up.len() == 0 ==> reset.confirm_prompt is None
            &&& up.len() > 0 ==> (reset.confirm_prompt matches Some(p) && p.title
                == "Reset to Upstream?"@ && p.action == (ConfirmActionModel::ResetToUpstream {
                paths: up,
            }))
            &&& stashed.len() == 0 ==> drop.confirm_prompt is None
            &&& stashed.len() > 0 ==> (drop.confirm_prompt matches Some(p) && p.title
                == "Drop Stash?"@ && p.action == (ConfirmActionModel::StashDrop { paths: stashed }))
        }),
{
}

/// A confirm dialog that is open takes every key, but Ctrl+C; only a credentials dialog goes first.
pub proof fn lemma_dialog_takes_keys(app: AppModel, code: KeyCode, mods: KeyModifiers)
    requires
        !app.loading,
        app.auth_prompt is None,
        app.confirm_prompt is Some,
        !(mods.control && code == KeyCode::Char('c')),
    ensures
        one_state(app.after_key(code, mods), app.after_confirm_key(code)),
        !app.quits(code, mods),
{
}

/// Accepting the dialog of a reset resets what it names: with Enter and `y` one way, with `H` the
/// other.
proof fn lemma_accepted_reset(
    app: AppModel,
    paths: Seq<Seq<char>>,
    code: KeyCode,
    hard: bool,
)
    requires
        app.confirm_prompt matches Some(p) && p.action == (ConfirmActionModel::ResetToUpstream {
            paths,
        }),
        !hard ==> code == KeyCode::Enter || code == KeyCode::Char('y') || code == KeyCode::Char(
            'Y',
        ),
        hard ==> code == KeyCode::Char('H'),
    ensures
        app.after_confirm_key(code).outbox == app.outbox + locals(
            paths,
            LocalModel::ResetUpstream { hard },
        ),
{
    let closed = app.next_confirm();
    let action = LocalModel::ResetUpstream { hard };
    lemma_locals_start_on_each(closed, paths, action);
    assert(one_state(app.after_confirm_key(code), closed.with_locals(paths, action)));
}

/// Accepting the dialog of a reset with Enter or `y` resets every repository that it names and keeps
/// the changes: no command that follows is given `--hard`, however the commands end.
pub proof fn lemma_accepted_reset_keeps_changes(
    app: AppModel,
    paths: Seq<Seq<char>>,
    code: KeyCode,
    k: int,
    os: Seq<Outcome>,
)
    requires
        app.confirm_prompt matches Some(p) && p.action == (ConfirmActionModel::ResetToUpstream {
            paths,
        }),
        code == KeyCode::Enter || code == KeyCode::Char('y') || code == KeyCode::Char('Y'),
        0 <= k < paths.len(),
    ensures
        ({
            let after = app.after_confirm_key(code).outbox;
            &&& after.len() == app.outbox.len() + paths.len()
            &&& after[app.outbox.len() + k] matches EffectModel::Local { path, action } && {
                &&& path == paths[k]
                &&& runs(
                    action.task(path).command(),
                    path,
                    seq!["reset"@, "--mixed"@, "@{upstream}"@],
                )
                &&& ran(action.task(path), os).command() matches Some(c) ==> !c.args.contains(
                    "--hard"@,
                )
            }
        }),
{
    lemma_accepted_reset(app, paths, code, false);
    lemma_only_hard_reset_is_hard(LocalModel::ResetUpstream { hard: false }, paths[k], os);
}

/// Only `H` resets hard, and it does so in every repository that the dialog names.
pub proof fn lemma_h_resets_hard(app: AppModel, paths: Seq<Seq<char>>, k: int)
    requires
        app.confirm_prompt matches Some(p) && p.action == (ConfirmActionModel::ResetToUpstream {
            paths,
        }),
        0 <= k < paths.len(),
    ensures
        ({
            let after = app.after_confirm_key(KeyCode::Char('H')).outbox;
            &&& after.len() == app.outbox.len() + paths.len()
            &&& after[app.outbox.len() + k] matches EffectModel::Local { path, action } && {
                &&& path == paths[k]
                &&& runs(
                    action.task(path).command(),
                    path,
                    seq!["reset"@, "--hard"@, "@{upstream}"@],
                )
            }
        }),
{
    lemma_accepted_reset(app, paths, KeyCode::Char('H'), true);
}

/// What an accepted dialog asks of git: what its title says, on the repositories that it names, and
/// nothing else.
pub proof fn lemma_accepted_dialogs(
    app: AppModel,
    p: ConfirmModel,
    code: KeyCode,
)
    requires
        app.confirm_prompt == Some(p),
        code == KeyCode::Enter || code == KeyCode::Char('y') || code == KeyCode::Char('Y'),
    ensures
        ({
            let after = app.after_confirm_key(code);
            match p.action {
                ConfirmActionModel::ForcePush { path } => after.outbox == app.outbox + remotes(
                    app,
                    seq![path],
                    RemoteAction::Push { force: true },
                ),
                ConfirmActionModel::StashDrop { paths } => after.outbox == app.outbox + locals(
                    paths,
                    LocalModel::StashDrop,
                ),
                ConfirmActionModel::DeleteBranch { name, paths } => after.outbox == app.outbox
                    + locals(paths, LocalModel::DeleteBranch(name)),
                ConfirmActionModel::ForceDeleteBranch { name, paths } => after.outbox == app.outbox
                    + locals(paths, LocalModel::ForceDeleteBranch(name)),
                ConfirmActionModel::DeleteRemoteBranch { name, paths } => after.outbox == app.outbox
                    + locals(paths, LocalModel::DeleteRemoteBranch(name)),
                ConfirmActionModel::ResetToUpstream { paths } => after.outbox == app.outbox
                    + locals(paths, LocalModel::ResetUpstream { hard: false }),
                ConfirmActionModel::RunMode { mode, paths } => {
                    &&& mode == Mode::Push ==> after.outbox == app.outbox + remotes(
                        app,
                        paths,
                        RemoteAction::Push { force: false },
                    )
                    &&& mode == Mode::Fetch ==> after.outbox == app.outbox + remotes(
                        app,
                        paths,
                        RemoteAction::Fetch,
                    )
                },
            }
        }),
        app.confirm_queue.len() == 0 ==> app.after_confirm_key(code).confirm_prompt is None,
        app.confirm_queue.len() > 0 ==> app.after_confirm_key(code).confirm_prompt == Some(
            app.confirm_queue[0],
        ),
{
    let s = app.next_confirm();
    match p.action {
        ConfirmActionModel::ForcePush { path } => {
            let one = seq![path];
            let force = RemoteAction::Push { force: true };
            lemma_remotes_start_on_each(s, one, force);
            assert(one.drop_last() =~= Seq::<Seq<char>>::empty());
            assert(s.with_ops(one.drop_last(), force) == s);
            assert(remotes(s, one, force) =~= remotes(app, one, force));
        },
        ConfirmActionModel::StashDrop { paths } => {
            lemma_locals_start_on_each(s, paths, LocalModel::StashDrop);
        },
        ConfirmActionModel::DeleteBranch { name, paths } => {
            lemma_locals_start_on_each(s, paths, LocalModel::DeleteBranch(name));
        },
        ConfirmActionModel::ForceDeleteBranch { name, paths } => {
            lemma_locals_start_on_each(s, paths, LocalModel::ForceDeleteBranch(name));
        },
        ConfirmActionModel::DeleteRemoteBranch { name, paths } => {
            lemma_locals_start_on_each(s, paths, LocalModel::DeleteRemoteBranch(name));
        },
        ConfirmActionModel::ResetToUpstream { paths } => {
            lemma_locals_start_on_each(s, paths, LocalModel::ResetUpstream { hard: false });
        },
        ConfirmActionModel::RunMode { mode, paths } => {
            let push = RemoteAction::Push { force: false };
            lemma_remotes_start_on_each(s, paths, RemoteAction::of_mode(mode));
            assert(remotes(s, paths, push) =~= remotes(app, paths, push));
            assert(remotes(s, paths, RemoteAction::Fetch) =~= remotes(
                app,
                paths,
                RemoteAction::Fetch,
            ));
        },
    }
}

// ── Keys that change the selection ───────────────────────────────────────────

/// Space selects what is under the cursor, or deselects it; a finished one becomes selected again, and
/// what is being worked on stays. No other repository changes, and nothing is started.
pub proof fn lemma_space_toggles_one(app: AppModel)
    requires
        in_list(app),
    ensures
        ({
            let after = app.after_letter(' ');
            &&& after.outbox == app.outbox
            &&& after.repos.len() == app.repos.len()
            &&& forall|i: int|
                0 <= i < app.repos.len() ==> #[trigger] after.repos[i] == (if app.current_place()
                    == Some(i) {
                    let r = app.repos[i];
                    RepoModel {
                        state: if r.state is Working {
                            OpModel::Working
                        } else if r.state is Queued {
                            OpModel::Idle
                        } else {
                            OpModel::Queued(QueueOrigin::User)
                        },
                        ..r
                    }
                } else {
                    app.repos[i]
                })
        }),
{
    match app.current_repo_path() {
        Some(path) => {
            lemma_place(app.repos, path);
        },
        None => {},
    }
}

/// `a` selects every repository that the mode applies to, tells how many, and starts nothing.
pub proof fn lemma_a_selects_all(app: AppModel)
    requires
        in_list(app),
    ensures
        ({
            let after = app.after_letter('a');
            &&& after.repos == app.selecting_all().repos
            &&& after.outbox == app.outbox
            &&& after.mode == app.mode
            &&& after.shown_notice() == Some(outcome_of(app.repos, app.mode).notice_text())
        }),
{
}

/// `A` deselects everything and clears every result; what is being worked on goes on.
pub proof fn lemma_big_a_clears_all(app: AppModel)
    requires
        in_list(app),
    ensures
        ({
            let after = app.after_letter('A');
            &&& after.outbox == app.outbox
            &&& after.repos.len() == app.repos.len()
            &&& forall|i: int|
                0 <= i < app.repos.len() ==> {
                    &&& (#[trigger] after.repos[i]).state == (if app.repos[i].state is Working {
                        OpModel::Working
                    } else {
                        OpModel::Idle
                    })
                    &&& after.repos[i].fetch_error is None
                    &&& after.repos[i].snapshot == app.repos[i].snapshot
                }
        }),
{
}

/// `m` goes from Pull to Merge, to Rebase, to Push, and back to Pull. What the user selected stays
/// selected, and what the program selected on its own account does not.
pub proof fn lemma_m_cycles_modes(app: AppModel)
    requires
        in_list(app),
    ensures
        ({
            let after = app.after_letter('m');
            &&& app.mode == Mode::Pull ==> after.mode == Mode::Merge
            &&& app.mode == Mode::Merge ==> after.mode == Mode::Rebase
            &&& app.mode == Mode::Rebase ==> after.mode == Mode::Push
            &&& app.mode == Mode::Push ==> after.mode == Mode::Pull
            &&& app.mode == Mode::Fetch ==> after.mode == Mode::Pull
            &&& after.outbox == app.outbox
            &&& after.repos.len() == app.repos.len()
            &&& forall|i: int|
                0 <= i < app.repos.len() ==> (#[trigger] after.repos[i]).state == (
                if app.repos[i].state == OpModel::Queued(QueueOrigin::Auto) {
                    OpModel::Idle
                } else {
                    app.repos[i].state
                })
        }),
{
}

/// `t` sorts the list the other way, and starts nothing.
pub proof fn lemma_t_sorts(app: AppModel)
    requires
        in_list(app),
    ensures
        ({
            let after = app.after_letter('t');
            &&& after.sort_mode != app.sort_mode
            &&& after.repos == app.sort_toggled().repos
            &&& after.outbox == app.outbox
        }),
{
}

// ── Keys that move ───────────────────────────────────────────────────────────

/// The row that the cursor is on: of the worktrees, or of the repositories.
pub open spec fn row_of(app: AppModel) -> int {
    if app.worktree_mode {
        app.wt_cursor as int
    } else {
        app.cursor as int
    }
}

/// The number of rows.
pub open spec fn rows_of(app: AppModel) -> int {
    if app.worktree_mode {
        app.wt_rows.len() as int
    } else {
        app.repos.len() as int
    }
}

/// The row `n` rows below `row`, or above it, as far as there are rows.
pub open spec fn row_moved(row: int, n: int, rows: int) -> int {
    if row + n < 0 {
        0
    } else if row + n >= rows {
        rows - 1
    } else {
        row + n
    }
}

/// `j` goes down a row, as far as there are rows.
pub proof fn lemma_j_moves(app: AppModel)
    requires
        in_list(app),
        0 <= row_of(app) < rows_of(app) <= usize::MAX,
    ensures
        ({
            let after = app.after_letter('j');
            &&& row_of(after) == row_moved(row_of(app), 1, rows_of(app))
            &&& after.repos == app.repos && after.outbox == app.outbox
        }),
{
}

/// Down goes down a row, as far as there are rows.
pub proof fn lemma_down_moves(app: AppModel)
    requires
        in_list(app),
        0 <= row_of(app) < rows_of(app) <= usize::MAX,
    ensures
        ({
            let after = app.after_main_key(KeyCode::Down);
            &&& row_of(after) == row_moved(row_of(app), 1, rows_of(app))
            &&& after.repos == app.repos && after.outbox == app.outbox
        }),
{
}

/// `k` goes up a row, as far as there are rows.
pub proof fn lemma_k_moves(app: AppModel)
    requires
        in_list(app),
        0 <= row_of(app) < rows_of(app) <= usize::MAX,
    ensures
        ({
            let after = app.after_letter('k');
            &&& row_of(after) == row_moved(row_of(app), -1, rows_of(app))
            &&& after.repos == app.repos && after.outbox == app.outbox
        }),
{
}

/// Up goes up a row, as far as there are rows.
pub proof fn lemma_up_moves(app: AppModel)
    requires
        in_list(app),
        0 <= row_of(app) < rows_of(app) <= usize::MAX,
    ensures
        ({
            let after = app.after_main_key(KeyCode::Up);
            &&& row_of(after) == row_moved(row_of(app), -1, rows_of(app))
            &&& after.repos == app.repos && after.outbox == app.outbox
        }),
{
}

/// Page Down goes down ten rows, as far as there are rows.
pub proof fn lemma_page_down_moves(app: AppModel)
    requires
        in_list(app),
        0 <= row_of(app) < rows_of(app) <= usize::MAX,
    ensures
        ({
            let after = app.after_main_key(KeyCode::PageDown);
            &&& row_of(after) == row_moved(row_of(app), 10, rows_of(app))
            &&& after.repos == app.repos && after.outbox == app.outbox
        }),
{
}

/// Page Up goes up ten rows, as far as there are rows.
pub proof fn lemma_page_up_moves(app: AppModel)
    requires
        in_list(app),
        0 <= row_of(app) < rows_of(app) <= usize::MAX,
    ensures
        ({
            let after = app.after_main_key(KeyCode::PageUp);
            &&& row_of(after) == row_moved(row_of(app), -10, rows_of(app))
            &&& after.repos == app.repos && after.outbox == app.outbox
        }),
{
}

/// `g` goes to the first row.
pub proof fn lemma_g_moves(app: AppModel)
    requires
        in_list(app),
        0 < rows_of(app) <= usize::MAX,
    ensures
        ({
            let after = app.after_letter('g');
            &&& row_of(after) == 0
            &&& after.repos == app.repos && after.outbox == app.outbox
        }),
{
}

/// Home goes to the first row.
pub proof fn lemma_home_moves(app: AppModel)
    requires
        in_list(app),
        0 < rows_of(app) <= usize::MAX,
    ensures
        ({
            let after = app.after_main_key(KeyCode::Home);
            &&& row_of(after) == 0
            &&& after.repos == app.repos && after.outbox == app.outbox
        }),
{
}

/// `G` goes to the last row.
pub proof fn lemma_big_g_moves(app: AppModel)
    requires
        in_list(app),
        0 < rows_of(app) <= usize::MAX,
    ensures
        ({
            let after = app.after_letter('G');
            &&& row_of(after) == rows_of(app) - 1
            &&& after.repos == app.repos && after.outbox == app.outbox
        }),
{
}

/// End goes to the last row.
pub proof fn lemma_end_moves(app: AppModel)
    requires
        in_list(app),
        0 < rows_of(app) <= usize::MAX,
    ensures
        ({
            let after = app.after_main_key(KeyCode::End);
            &&& row_of(after) == rows_of(app) - 1
            &&& after.repos == app.repos && after.outbox == app.outbox
        }),
{
}

// ── Keys that open something ─────────────────────────────────────────────────

/// `b` asks for the branches of what is under the cursor, and of everything that is selected where that is more
/// than one.
pub proof fn lemma_b_opens_branches(app: AppModel)
    requires
        in_list(app),
    ensures
        ({
            let after = app.after_letter('b');
            match app.current_path() {
                Some(current) => {
                    &&& after.pending_panel == Some(PanelKind::Branches)
                    &&& after.outbox == app.outbox.push(
                        EffectModel::LoadPanel {
                            kind: PanelKind::Branches,
                            current,
                            targets: if app.queued_count() > 1 {
                                app.targets(Keep::All)
                            } else {
                                Seq::empty()
                            },
                        },
                    )
                },
                None => after.outbox == app.outbox,
            }
        }),
{
}

/// `s` asks for the state of what is under the cursor, and of everything that is selected where that is more
/// than one.
pub proof fn lemma_s_opens_status(app: AppModel)
    requires
        in_list(app),
    ensures
        ({
            let after = app.after_letter('s');
            match app.current_path() {
                Some(current) => {
                    &&& after.pending_panel == Some(PanelKind::Status)
                    &&& after.outbox == app.outbox.push(
                        EffectModel::LoadPanel {
                            kind: PanelKind::Status,
                            current,
                            targets: if app.queued_count() > 1 {
                                app.targets(Keep::All)
                            } else {
                                Seq::empty()
                            },
                        },
                    )
                },
                None => after.outbox == app.outbox,
            }
        }),
{
}

/// `v` asks for the last commits of what is under the cursor, and of everything that is selected where that is more
/// than one.
pub proof fn lemma_v_opens_commits(app: AppModel)
    requires
        in_list(app),
    ensures
        ({
            let after = app.after_letter('v');
            match app.current_path() {
                Some(current) => {
                    &&& after.pending_panel == Some(PanelKind::Commits)
                    &&& after.outbox == app.outbox.push(
                        EffectModel::LoadPanel {
                            kind: PanelKind::Commits,
                            current,
                            targets: if app.queued_count() > 1 {
                                app.targets(Keep::All)
                            } else {
                                Seq::empty()
                            },
                        },
                    )
                },
                None => after.outbox == app.outbox,
            }
        }),
{
}

/// `?` opens the help at its start.
pub proof fn lemma_question_mark_opens_help(app: AppModel)
    requires
        in_list(app),
    ensures
        ({
            let after = app.after_letter('?');
            &&& after.show_help && after.help_scroll == 0
            &&& after.outbox == app.outbox && after.repos == app.repos
        }),
{
}

/// `c` asks for the message of a commit; where what is under the cursor has a result, that is cleared
/// first.
pub proof fn lemma_c_commits(app: AppModel)
    requires
        in_list(app),
    ensures
        ({
            let after = app.after_letter('c');
            &&& app.shows_result() ==> after.prompt is None && !after.shows_result()
            &&& !app.shows_result() ==> (after.prompt matches Some(p) && p.kind
                == PromptKind::Commit && p.input.len() == 0 && p.description.len() == 0)
            &&& after.outbox == app.outbox
        }),
{
    match app.current_repo_path() {
        Some(path) => {
            lemma_place(app.repos, path);
            if app.shows_result() {
                let cleared = app.result_cleared();
                lemma_same_places(cleared.repos, app.repos, path);
            }
        },
        None => {},
    }
}

/// `n` asks for the name of a new branch, and in worktree mode for that of a new worktree.
pub proof fn lemma_n_asks_for_a_branch(app: AppModel)
    requires
        in_list(app),
    ensures
        ({
            let after = app.after_letter('n');
            &&& after.prompt matches Some(p) && p.input.len() == 0 && p.kind == (
            if app.worktree_mode {
                PromptKind::WorktreeBranch
            } else {
                PromptKind::Branch
            })
            &&& after.outbox == app.outbox
        }),
{
}

/// `u` asks for an upstream, and offers `origin`.
pub proof fn lemma_u_asks_for_an_upstream(app: AppModel)
    requires
        in_list(app),
    ensures
        ({
            let after = app.after_letter('u');
            &&& after.prompt matches Some(p) && p.kind == PromptKind::SetUpstream && p.input
                == "origin"@
            &&& after.outbox == app.outbox
        }),
{
}

/// `S` asks for the message of a stash.
pub proof fn lemma_big_s_asks_for_a_stash(app: AppModel)
    requires
        in_list(app),
    ensures
        ({
            let after = app.after_letter('S');
            &&& after.prompt matches Some(p) && p.kind == PromptKind::Stash && p.input.len() == 0
            &&& after.outbox == app.outbox
        }),
{
}

/// Tab opens lazygit for what is under the cursor.
pub proof fn lemma_tab_opens_lazygit(app: AppModel)
    requires
        in_list(app),
    ensures
        ({
            let after = app.after_main_key(KeyCode::Tab);
            match app.current_path() {
                Some(path) => after.outbox == app.outbox.push(EffectModel::OpenLazygit { path }),
                None => after.outbox == app.outbox,
            }
        }),
{
}

/// `W` shows the worktrees of all repositories, or the repositories again.
pub proof fn lemma_big_w_toggles_worktrees(app: AppModel)
    requires
        in_list(app),
    ensures
        ({
            let after = app.after_letter('W');
            &&& after.worktree_mode == !app.worktree_mode
            &&& app.worktree_mode ==> after.outbox == app.outbox
            &&& !app.worktree_mode ==> {
                &&& after.outbox.len() == app.outbox.len() + 1
                &&& after.outbox.last() matches EffectModel::LoadWorktrees(sources)
                    && sources.len() == app.repos.len() && forall|i: int|
                    0 <= i < sources.len() ==> (#[trigger] sources[i]).path
                        == app.repos[i].snapshot.path && sources[i].name
                        == app.repos[i].snapshot.name
                &&& after.wt_rows.len() == 0 && after.wt_cursor == 0
            }
        }),
{
}

/// In worktree mode `d` removes the selected worktree; elsewhere it does nothing.
pub proof fn lemma_d_removes_worktree(app: AppModel)
    requires
        in_list(app),
    ensures
        ({
            let after = app.after_letter('d');
            &&& !app.worktree_mode ==> after.outbox == app.outbox && after.repos == app.repos
            &&& app.worktree_mode && app.wt_cursor < app.wt_rows.len() ==> {
                let row = app.wt_rows[app.wt_cursor as int];
                after.outbox == app.outbox.push(
                    EffectModel::Worktree {
                        selected: row.path,
                        repo_path: row.repo_path,
                        op: WorktreeOpModel::Remove,
                    },
                )
            }
        }),
{
}

/// In worktree mode `L` locks or unlocks the selected worktree; elsewhere it does nothing.
pub proof fn lemma_big_l_toggles_lock(app: AppModel)
    requires
        in_list(app),
    ensures
        ({
            let after = app.after_letter('L');
            &&& !app.worktree_mode ==> after.outbox == app.outbox && after.repos == app.repos
            &&& app.worktree_mode && app.wt_cursor < app.wt_rows.len() ==> {
                let row = app.wt_rows[app.wt_cursor as int];
                after.outbox == app.outbox.push(
                    EffectModel::Worktree {
                        selected: row.path,
                        repo_path: row.repo_path,
                        op: WorktreeOpModel::ToggleLock,
                    },
                )
            }
        }),
{
}

/// In worktree mode `X` forgets worktrees that are gone; elsewhere it does nothing.
pub proof fn lemma_big_x_prunes(app: AppModel)
    requires
        in_list(app),
    ensures
        ({
            let after = app.after_letter('X');
            &&& !app.worktree_mode ==> after.outbox == app.outbox && after.repos == app.repos
            &&& app.worktree_mode && app.wt_cursor < app.wt_rows.len() ==> {
                let row = app.wt_rows[app.wt_cursor as int];
                after.outbox == app.outbox.push(
                    EffectModel::Worktree {
                        selected: row.path,
                        repo_path: row.repo_path,
                        op: WorktreeOpModel::Prune,
                    },
                )
            }
        }),
{
}

} // verus!
