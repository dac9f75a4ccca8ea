//! What holds of every key: pushing to several remotes, forcing a push, and losing work all take
//! an answer first.

use vstd::prelude::*;

use crate::chars::{halves, trimmed};
use crate::git::command::CredentialsModel;
use crate::git::runner::RemoteAction;
use crate::mode::Mode;
use crate::tui::app::{place, AppModel, EffectModel, Keep};
use crate::tui::dialog::{ConfirmActionModel, LocalModel};
use crate::tui::key::{KeyCode, KeyModifiers};
use crate::tui::panel::PanelModel;
use crate::tui::prompt::PromptModel;
use crate::tui::select::lemma_targets_make_sense;
use crate::tui::submit::commit_message;
use crate::tui::text::short_ref;
use crate::tui::worktree::WorktreeOpModel;

verus! {

/// The number of effects among `es` that `pred` holds of.
pub open spec fn started(es: Seq<EffectModel>, pred: spec_fn(EffectModel) -> bool) -> nat
    decreases es.len(),
{
    if es.len() == 0 {
        0
    } else {
        started(es.drop_last(), pred) + (if pred(es.last()) {
            1nat
        } else {
            0nat
        })
    }
}

/// Whether an effect pushes.
pub open spec fn pushing() -> spec_fn(EffectModel) -> bool {
    |e: EffectModel|
        e matches EffectModel::Remote { path, action, credentials, stash } && action is Push
}

/// Whether an effect pushes by force.
pub open spec fn forcing() -> spec_fn(EffectModel) -> bool {
    |e: EffectModel|
        e matches EffectModel::Remote { path, action, credentials, stash } && action
            == RemoteAction::Push { force: true }
}

/// Whether a local operation loses something that cannot be had back: a branch, a stash entry, or
/// commits and changes.
pub open spec fn loses_work(action: LocalModel) -> bool {
    match action {
        LocalModel::DeleteBranch(_) => true,
        LocalModel::ForceDeleteBranch(_) => true,
        LocalModel::DeleteRemoteBranch(_) => true,
        LocalModel::StashDrop => true,
        LocalModel::ResetUpstream { hard } => true,
        _ => false,
    }
}

/// Whether an effect loses something that cannot be had back.
pub open spec fn destroying() -> spec_fn(EffectModel) -> bool {
    |e: EffectModel| e matches EffectModel::Local { path, action } && loses_work(action)
}

/// Whether `pred` is one of the three that are counted here.
pub open spec fn counted(pred: spec_fn(EffectModel) -> bool) -> bool {
    pred == pushing() || pred == forcing() || pred == destroying()
}

/// Whether `pred` holds of a remote action, whatever repository it is for.
pub open spec fn counts_remote(pred: spec_fn(EffectModel) -> bool, action: RemoteAction) -> bool {
    ||| pred == pushing() && action is Push
    ||| pred == forcing() && action == RemoteAction::Push { force: true }
}

/// Whether `pred` holds of a local operation, whatever repository it is for.
pub open spec fn counts_local(pred: spec_fn(EffectModel) -> bool, action: LocalModel) -> bool {
    pred == destroying() && loses_work(action)
}

/// One more effect counts for itself.
proof fn lemma_one_more(es: Seq<EffectModel>, e: EffectModel, pred: spec_fn(EffectModel) -> bool)
    ensures
        started(es.push(e), pred) == started(es, pred) + (if pred(e) {
            1nat
        } else {
            0nat
        }),
{
    assert(es.push(e).drop_last() =~= es);
}

/// The three that are counted are different.
proof fn lemma_predicates_differ()
    ensures
        pushing() != destroying(),
        forcing() != destroying(),
{
    let push = EffectModel::Remote {
        path: Seq::empty(),
        action: RemoteAction::Push { force: true },
        credentials: None,
        stash: false,
    };
    assert(pushing()(push) && forcing()(push) && !destroying()(push));
}

/// A remote action counts for itself.
proof fn lemma_op(
    app: AppModel,
    path: Seq<char>,
    action: RemoteAction,
    credentials: Option<CredentialsModel>,
    pred: spec_fn(EffectModel) -> bool,
)
    requires
        counted(pred),
    ensures
        started(app.with_op(path, action, credentials).outbox, pred) == started(app.outbox, pred)
            + (if counts_remote(pred, action) {
            1nat
        } else {
            0nat
        }),
{
    let after = app.with_op(path, action, credentials);
    lemma_predicates_differ();
    lemma_one_more(app.outbox, after.outbox.last(), pred);
    assert(after.outbox =~= app.outbox.push(after.outbox.last()));
}

/// A batch of remote actions counts for each.
proof fn lemma_ops(
    app: AppModel,
    paths: Seq<Seq<char>>,
    action: RemoteAction,
    pred: spec_fn(EffectModel) -> bool,
)
    requires
        counted(pred),
    ensures
        started(app.with_ops(paths, action).outbox, pred) == started(app.outbox, pred) + (
        if counts_remote(pred, action) {
            paths.len()
        } else {
            0nat
        }),
    decreases paths.len(),
{
    if paths.len() > 0 {
        lemma_ops(app, paths.drop_last(), action, pred);
        lemma_op(app.with_ops(paths.drop_last(), action), paths.last(), action, None, pred);
    }
}

/// A local operation counts for itself.
proof fn lemma_local(
    app: AppModel,
    path: Seq<char>,
    action: LocalModel,
    pred: spec_fn(EffectModel) -> bool,
)
    requires
        counted(pred),
        !counts_local(pred, action),
    ensures
        started(app.with_local(path, action).outbox, pred) == started(app.outbox, pred),
{
    let after = app.with_local(path, action);
    lemma_one_more(app.outbox, after.outbox.last(), pred);
    assert(after.outbox =~= app.outbox.push(after.outbox.last()));
}

/// A batch of local operations counts for each.
proof fn lemma_locals(
    app: AppModel,
    paths: Seq<Seq<char>>,
    action: LocalModel,
    pred: spec_fn(EffectModel) -> bool,
)
    requires
        counted(pred),
        !counts_local(pred, action),
    ensures
        started(app.with_locals(paths, action).outbox, pred) == started(app.outbox, pred),
    decreases paths.len(),
{
    if paths.len() > 0 {
        lemma_locals(app, paths.drop_last(), action, pred);
        lemma_local(app.with_locals(paths.drop_last(), action), paths.last(), action, pred);
    }
}

/// Setting upstreams counts for nothing.
proof fn lemma_upstreams(
    app: AppModel,
    paths: Seq<Seq<char>>,
    remote: Seq<char>,
    fixed: Option<Seq<char>>,
    pred: spec_fn(EffectModel) -> bool,
)
    requires
        counted(pred),
    ensures
        started(app.with_upstreams(paths, remote, fixed).outbox, pred) == started(
            app.outbox,
            pred,
        ),
    decreases paths.len(),
{
    if paths.len() > 0 {
        lemma_upstreams(app, paths.drop_last(), remote, fixed, pred);
        let s = app.with_upstreams(paths.drop_last(), remote, fixed);
        match s.upstream_branch(paths.last(), fixed) {
            Some(branch) => {
                lemma_local(s, paths.last(), LocalModel::SetUpstream { remote, branch }, pred);
            },
            None => {},
        }
    }
}

/// An operation on a worktree counts for nothing.
proof fn lemma_worktree(app: AppModel, op: WorktreeOpModel, pred: spec_fn(EffectModel) -> bool)
    requires
        counted(pred),
    ensures
        started(app.with_worktree_op(op).outbox, pred) == started(app.outbox, pred),
{
    let after = app.with_worktree_op(op);
    if after.outbox.len() > app.outbox.len() {
        lemma_one_more(app.outbox, after.outbox.last(), pred);
        assert(after.outbox =~= app.outbox.push(after.outbox.last()));
    }
}

/// A submitted prompt starts no push.
#[verifier::rlimit(40)]
proof fn lemma_submitted(app: AppModel, p: PromptModel, pred: spec_fn(EffectModel) -> bool)
    requires
        pred == pushing() || pred == forcing(),
    ensures
        started(app.submitted(p).outbox, pred) == started(app.outbox, pred),
{
    let input = trimmed(p.input);
    let all = app.targets(Keep::All);
    let dirty = app.targets(Keep::Dirty);
    let message = commit_message(input, trimmed(p.description));
    lemma_predicates_differ();
    lemma_locals(app, dirty, LocalModel::Commit(message), pred);
    lemma_locals(app, all, LocalModel::CreateBranch(input), pred);
    lemma_locals(app, dirty, LocalModel::StashPush(None), pred);
    lemma_locals(app, dirty, LocalModel::StashPush(Some(input)), pred);
    lemma_locals(app, all, LocalModel::Checkout(input), pred);
    lemma_locals(app, all, LocalModel::DeleteBranch(input), pred);
    lemma_locals(app, all, LocalModel::ForceDeleteBranch(input), pred);
    lemma_locals(app, all, LocalModel::CheckoutRemote(input), pred);
    lemma_locals(app, all, LocalModel::DeleteRemoteBranch(input), pred);
    lemma_upstreams(app, all, input, None, pred);
    match halves(input, '/') {
        Some((remote, branch)) => {
            lemma_upstreams(app, all, remote, Some(branch), pred);
        },
        None => {},
    }
    lemma_worktree(
        app,
        WorktreeOpModel::Add { dest: p.description, branch: input },
        pred,
    );
}

/// Checking out branches, and asking whether to delete them, counts for nothing.
#[verifier::rlimit(40)]
proof fn lemma_branch_flows(
    app: AppModel,
    name: Seq<char>,
    force: bool,
    pred: spec_fn(EffectModel) -> bool,
)
    requires
        counted(pred),
    ensures
        started(app.checking_out(name).outbox, pred) == started(app.outbox, pred),
        started(app.deleting(name, force).outbox, pred) == started(app.outbox, pred),
{
    let all = app.targets(Keep::All);
    lemma_locals(app, all, LocalModel::Checkout(name), pred);
    match short_ref(name) {
        Some(short) => {
            lemma_locals(app, all, LocalModel::CheckoutRemote(short), pred);
        },
        None => {},
    }
}

/// A key in a panel counts for nothing.
proof fn lemma_panel_key(
    app: AppModel,
    p: PanelModel,
    code: KeyCode,
    pred: spec_fn(EffectModel) -> bool,
)
    requires
        counted(pred),
    ensures
        started(app.after_panel_key(p, code).outbox, pred) == started(app.outbox, pred),
{
    let s = AppModel { panel: None, ..app };
    match app.selected_branch() {
        Some(name) => {
            lemma_branch_flows(s, name, false, pred);
            lemma_branch_flows(s, name, true, pred);
        },
        None => {},
    }
}

/// Running a mode counts for each target, unless it is a push to several.
proof fn lemma_run(app: AppModel, mode: Mode, pred: spec_fn(EffectModel) -> bool)
    requires
        counted(pred),
    ensures
        started(app.after_run(mode).outbox, pred) == started(app.outbox, pred) + (
        if counts_remote(pred, RemoteAction::of_mode(mode)) && (mode != Mode::Push
            || app.targets(Keep::All).len() <= 1) {
            app.targets(Keep::All).len()
        } else {
            0nat
        }),
{
    lemma_ops(app, app.targets(Keep::All), RemoteAction::of_mode(mode), pred);
}

/// A letter in the list counts for nothing, but for `P` on one repository.
#[verifier::rlimit(60)]
proof fn lemma_letter(app: AppModel, c: char, pred: spec_fn(EffectModel) -> bool)
    requires
        counted(pred),
    ensures
        c != 'P' ==> started(app.after_letter(c).outbox, pred) == started(app.outbox, pred),
        c == 'P' ==> started(app.after_letter(c).outbox, pred) == started(
            app.after_run(Mode::Push).outbox,
            pred,
        ),
{
    lemma_run(app, Mode::Fetch, pred);
    lemma_run(app, Mode::Pull, pred);
    lemma_locals(app, app.targets(Keep::Stashed), LocalModel::StashPop, pred);
    lemma_worktree(app, WorktreeOpModel::Remove, pred);
    lemma_worktree(app, WorktreeOpModel::ToggleLock, pred);
    lemma_worktree(app, WorktreeOpModel::Prune, pred);
    let after = app.after_letter(c);
    if c == 'b' || c == 's' || c == 'v' || c == 'W' {
        if after.outbox.len() > app.outbox.len() {
            lemma_one_more(app.outbox, after.outbox.last(), pred);
            assert(after.outbox =~= app.outbox.push(after.outbox.last()));
        }
    }
}

/// A key in the list counts for nothing but a plain push of a single repository.
#[verifier::rlimit(60)]
proof fn lemma_main_key(app: AppModel, code: KeyCode, pred: spec_fn(EffectModel) -> bool)
    requires
        counted(pred),
    ensures
        started(app.outbox, pred) <= started(app.after_main_key(code).outbox, pred),
        started(app.after_main_key(code).outbox, pred) <= started(app.outbox, pred) + (
        if counts_remote(pred, RemoteAction::Push { force: false }) && app.targets(Keep::All).len()
            == 1 {
            1nat
        } else {
            0nat
        }),
{
    lemma_run(app, Mode::Push, pred);
    lemma_run(app, app.mode, pred);
    match code {
        KeyCode::Char(c) => {
            lemma_letter(app, c, pred);
        },
        KeyCode::Tab => {
            let after = app.after_main_key(code);
            if after.outbox.len() > app.outbox.len() {
                lemma_one_more(app.outbox, after.outbox.last(), pred);
                assert(after.outbox =~= app.outbox.push(after.outbox.last()));
            }
        },
        _ => {},
    }
}

/// While no dialog is open, a key counts for nothing but a plain push of a single repository.
#[verifier::rlimit(60)]
proof fn lemma_no_dialog_key(
    app: AppModel,
    code: KeyCode,
    mods: KeyModifiers,
    pred: spec_fn(EffectModel) -> bool,
)
    requires
        app.confirm_prompt is None,
        app.auth_prompt is None,
        counted(pred),
        app.prompt is Some ==> pred == pushing() || pred == forcing(),
    ensures
        started(app.outbox, pred) <= started(app.after_key(code, mods).outbox, pred),
        started(app.after_key(code, mods).outbox, pred) <= started(app.outbox, pred) + (
        if counts_remote(pred, RemoteAction::Push { force: false }) && app.targets(Keep::All).len()
            == 1 {
            1nat
        } else {
            0nat
        }),
{
    if app.quits(code, mods) || app.loading {
    } else if app.prompt is Some {
        let p = app.prompt->0;
        let edited = app.path_filled(p, p.after_key(code, mods));
        lemma_submitted(AppModel { prompt: None, ..app }, edited, pred);
    } else if app.show_help {
    } else if code != KeyCode::Esc && app.panel is Some {
        lemma_panel_key(app, app.panel->0, code, pred);
    } else {
        lemma_main_key(app, code, pred);
    }
}

/// With several repositories selected, no key pushes to any of them while no dialog is open: a
/// push to several remotes never fires without a confirmation.
pub proof fn lemma_batch_push_needs_confirmation(app: AppModel, code: KeyCode, mods: KeyModifiers)
    requires
        app.confirm_prompt is None,
        app.auth_prompt is None,
        app.targets(Keep::All).len() > 1,
    ensures
        started(app.after_key(code, mods).outbox, pushing()) == started(app.outbox, pushing()),
{
    lemma_no_dialog_key(app, code, mods, pushing());
}

/// Forced and plain pushes are told apart.
proof fn lemma_forcing_is_not_pushing()
    ensures
        pushing() != forcing(),
{
    let push = EffectModel::Remote {
        path: Seq::empty(),
        action: RemoteAction::Push { force: false },
        credentials: None,
        stash: false,
    };
    assert(pushing()(push) && !forcing()(push));
}

/// No key forces a push while no dialog is open.
pub proof fn lemma_forced_push_needs_confirmation(app: AppModel, code: KeyCode, mods: KeyModifiers)
    requires
        app.confirm_prompt is None,
        app.auth_prompt is None,
    ensures
        started(app.after_key(code, mods).outbox, forcing()) == started(app.outbox, forcing()),
{
    lemma_no_dialog_key(app, code, mods, forcing());
    lemma_forcing_is_not_pushing();
}

/// No single key deletes a branch, drops a stash entry or resets to the upstream: each of these
/// first opens a dialog or a prompt.
pub proof fn lemma_destruction_needs_an_answer(app: AppModel, code: KeyCode, mods: KeyModifiers)
    requires
        app.confirm_prompt is None,
        app.auth_prompt is None,
        app.prompt is None,
    ensures
        started(app.after_key(code, mods).outbox, destroying()) == started(
            app.outbox,
            destroying(),
        ),
{
    lemma_no_dialog_key(app, code, mods, destroying());
    lemma_predicates_differ();
}

/// A reset leaves out repositories without an upstream.
pub proof fn lemma_reset_skips_missing_upstreams(app: AppModel, k: int)
    requires
        app.confirm_prompt is None,
    ensures
        match app.after_letter('U').confirm_prompt {
            Some(p) => match p.action {
                ConfirmActionModel::ResetToUpstream { paths } => {
                    &&& paths.len() > 0
                    &&& 0 <= k < paths.len() ==> exists|i: int|
                        0 <= i < app.repos.len()
                            && !(#[trigger] app.repos[i]).snapshot.branch.no_upstream
                            && app.repos[i].snapshot.path == paths[k]
                },
                _ => false,
            },
            None => app.targets(Keep::Upstream).len() == 0,
        },
{
    let paths = app.targets(Keep::Upstream);
    if 0 <= k < paths.len() {
        lemma_targets_make_sense(app, Keep::Upstream, k);
        let i = choose|i: int|
            0 <= i < app.repos.len() && Keep::Upstream.admits(#[trigger] app.repos[i])
                && app.repos[i].snapshot.path == paths[k];
        assert(!app.repos[i].snapshot.branch.no_upstream);
    }
}

/// Accepting the dialog of a batch runs the mode on exactly the repositories that it names.
pub proof fn lemma_confirmed_batch_runs(
    app: AppModel,
    mode: Mode,
    paths: Seq<Seq<char>>,
    mods: KeyModifiers,
)
    requires
        !app.loading,
        app.auth_prompt is None,
        app.confirm_prompt matches Some(p) && p.action
            == (ConfirmActionModel::RunMode { mode, paths }),
    ensures
        app.after_key(KeyCode::Enter, mods) == app.next_confirm().with_ops(
            paths,
            RemoteAction::of_mode(mode),
        ),
        started(app.after_key(KeyCode::Esc, mods).outbox, pushing()) == started(
            app.outbox,
            pushing(),
        ),
{
}

/// Turning a dialog down starts nothing and changes no repository.
pub proof fn lemma_declined_dialog_does_nothing(app: AppModel, code: KeyCode, mods: KeyModifiers)
    requires
        !app.loading,
        app.auth_prompt is None,
        app.confirm_prompt is Some,
        code == KeyCode::Esc || code == KeyCode::Char('n') || code == KeyCode::Char('N'),
    ensures
        app.after_key(code, mods).outbox == app.outbox,
        app.after_key(code, mods).repos == app.repos,
        app.after_key(code, mods) == app.next_confirm(),
{
}

/// Whether an effect resets hard, discarding local changes and commits.
pub open spec fn resets_hard(e: EffectModel) -> bool {
    e matches EffectModel::Local { path, action } && action == LocalModel::ResetUpstream {
        hard: true,
    }
}

/// A batch of local operations adds no hard reset, unless it is one.
proof fn lemma_no_hard_reset(app: AppModel, paths: Seq<Seq<char>>, action: LocalModel)
    requires
        action != (LocalModel::ResetUpstream { hard: true }),
        forall|i: int| 0 <= i < app.outbox.len() ==> !resets_hard(#[trigger] app.outbox[i]),
    ensures
        forall|i: int|
            0 <= i < app.with_locals(paths, action).outbox.len() ==> !resets_hard(
                #[trigger] app.with_locals(paths, action).outbox[i],
            ),
    decreases paths.len(),
{
    if paths.len() > 0 {
        lemma_no_hard_reset(app, paths.drop_last(), action);
    }
}

/// A batch of remote actions adds no hard reset.
proof fn lemma_no_hard_reset_remote(app: AppModel, paths: Seq<Seq<char>>, action: RemoteAction)
    requires
        forall|i: int| 0 <= i < app.outbox.len() ==> !resets_hard(#[trigger] app.outbox[i]),
    ensures
        forall|i: int|
            0 <= i < app.with_ops(paths, action).outbox.len() ==> !resets_hard(
                #[trigger] app.with_ops(paths, action).outbox[i],
            ),
    decreases paths.len(),
{
    if paths.len() > 0 {
        lemma_no_hard_reset_remote(app, paths.drop_last(), action);
    }
}

/// In a dialog no key but `H` resets hard, and `H` does so only in the dialog that offers it:
/// elsewhere it does nothing.
pub proof fn lemma_hard_reset_takes_its_own_key(app: AppModel, code: KeyCode)
    requires
        app.confirm_prompt is Some,
        forall|i: int| 0 <= i < app.outbox.len() ==> !resets_hard(#[trigger] app.outbox[i]),
    ensures
        code != KeyCode::Char('H') ==> forall|i: int|
            0 <= i < app.after_confirm_key(code).outbox.len() ==> !resets_hard(
                #[trigger] app.after_confirm_key(code).outbox[i],
            ),
        !(app.confirm_prompt->0.action is ResetToUpstream) ==> app.after_confirm_key(
            KeyCode::Char('H'),
        ) == app,
{
    let rest = app.next_confirm();
    match app.confirm_prompt->0.action {
        ConfirmActionModel::ForcePush { path } => {},
        ConfirmActionModel::StashDrop { paths } => {
            lemma_no_hard_reset(rest, paths, LocalModel::StashDrop);
        },
        ConfirmActionModel::DeleteBranch { name, paths } => {
            lemma_no_hard_reset(rest, paths, LocalModel::DeleteBranch(name));
        },
        ConfirmActionModel::ForceDeleteBranch { name, paths } => {
            lemma_no_hard_reset(rest, paths, LocalModel::ForceDeleteBranch(name));
        },
        ConfirmActionModel::DeleteRemoteBranch { name, paths } => {
            lemma_no_hard_reset(rest, paths, LocalModel::DeleteRemoteBranch(name));
        },
        ConfirmActionModel::ResetToUpstream { paths } => {
            lemma_no_hard_reset(rest, paths, LocalModel::ResetUpstream { hard: false });
        },
        ConfirmActionModel::RunMode { mode, paths } => {
            lemma_no_hard_reset_remote(rest, paths, RemoteAction::of_mode(mode));
        },
    }
}

/// A remote action is wrapped in an auto-stash exactly where that is configured, the action is a
/// pull, a merge or a rebase, and the tree is dirty.
pub proof fn lemma_auto_stash_where_needed(
    app: AppModel,
    path: Seq<char>,
    action: RemoteAction,
    credentials: Option<CredentialsModel>,
)
    ensures
        ({
            let dirty = place(app.repos, path) matches Some(i) && app.repos[i].snapshot.dirty;
            let local = action == RemoteAction::PullFfOnly || action == RemoteAction::Merge
                || action == RemoteAction::Rebase;
            app.with_op(path, action, credentials).outbox == app.outbox.push(
                EffectModel::Remote {
                    path,
                    action,
                    credentials,
                    stash: app.auto_stash && local && dirty,
                },
            )
        }),
{
}

} // verus!
