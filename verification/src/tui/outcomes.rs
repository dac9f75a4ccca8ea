//! What results and other events come to, for the repositories and for the user.

use vstd::prelude::*;
use vstd::string::*;

use crate::chars::{blank, lemma_nothing_replaced, lemma_replaced_piecewise};
use crate::error::{says_conflict, says_rebase_conflict, Fault};
use crate::git::command::{OutputModel, Report};
use crate::git::remote_run::with_restore;
use crate::git::runner::RemoteAction;
use crate::git::status::SnapshotModel;
use crate::git::task::AutoRestoreModel;
use crate::mode::Mode;
use crate::native::shown;
use crate::numbers::decimal;
use crate::quick::{in_directory_order, line_of, printed, PrintedModel, RepoOutcomeModel};
use crate::tui::app::{lemma_place, place, AppModel, EffectModel, Keep};
use crate::tui::panel::{PanelKind, PanelModel};
use crate::tui::repo::{
    ended, failure_in, one_line, FailKind, OpModel, QueueOrigin, RepoModel,
};
use crate::tui::spawn::fetchable;

verus! {

// ── Messages ─────────────────────────────────────────────────────────────────

/// A message of one line is shown as it is, and one of two with a bar between them; where git said
/// nothing, the fallback is shown.
pub proof fn lemma_messages_become_one_line(a: Seq<char>, b: Seq<char>, fallback: Seq<char>)
    requires
        !a.contains('\n'),
        !b.contains('\n'),
    ensures
        blank(a) ==> one_line(Ok(a), fallback) == fallback,
        !blank(a) ==> one_line(Ok(a), fallback) == a,
        !blank(a + seq!['\n'] + b) ==> one_line(Ok(a + seq!['\n'] + b), fallback) == a + " | "@
            + b,
{
    lemma_nothing_replaced(a, '\n', " | "@);
    lemma_nothing_replaced(b, '\n', " | "@);
    lemma_replaced_piecewise(a, seq!['\n'], '\n', " | "@);
    lemma_replaced_piecewise(a + seq!['\n'], b, '\n', " | "@);
}

/// An error is shown by its message.
pub proof fn lemma_errors_are_shown(e: Fault, fallback: Seq<char>)
    requires
        !e.message().contains('\n'),
    ensures
        one_line(Err(e), fallback) == e.message(),
{
    lemma_nothing_replaced(e.message(), '\n', " | "@);
}

/// What the user is told of each error.
pub proof fn lemma_errors_say(s: Seq<char>, code: i32, failed: nat, total: nat, command: Seq<char>)
    requires
        code >= 0,
    ensures
        Fault::Config(s).message() == "configuration error: "@ + s,
        Fault::Io(s).message() == "io error: "@ + s,
        Fault::Yaml(s).message() == "yaml error: "@ + s,
        (Fault::CredentialPromptDetected { output: s }).message()
            == "git requested interactive credentials: "@ + s,
        (Fault::GitCommandFailed { command, code: Some(code), output: s }).message()
            == "git command failed ("@ + command + ", exit="@ + ("Some("@ + decimal(code as nat)
            + ")"@) + "): "@ + s,
        (Fault::GitCommandFailed { command, code: None, output: s }).message()
            == "git command failed ("@ + command + ", exit="@ + "None"@ + "): "@ + s,
        Fault::NoRepositoriesFound.message()
            == "no git repositories found in the selected directories"@,
        Fault::NotRepository(s).message() == "path does not look like a git repository: "@ + shown(
            s,
        ),
        (Fault::BatchFailures { failed, total }).message() == "batch completed with failures: "@
            + decimal(failed) + "/"@ + decimal(total),
        (Fault::AutoStashNotRestored { reason: s }).message() == "auto-stash not restored: "@ + s,
{
}

/// A success ends in success and an error in failure. The kind of the failure is what the error
/// tells first of: credentials, a conflict, the network.
pub proof fn lemma_results_end_operations(result: Report, fallback: Seq<char>, lower: Seq<char>)
    ensures
        result is Ok <==> ended(result, fallback) is Success,
        result is Err <==> ended(result, fallback) is Fail,
        result matches Err(e) ==> {
            &&& e.wants_credentials(lower) ==> failure_in(e, lower) == FailKind::Credentials
            &&& !e.wants_credentials(lower) && says_conflict(lower) ==> failure_in(e, lower)
                == FailKind::Conflict
            &&& !e.wants_credentials(lower) && says_rebase_conflict(lower) ==> failure_in(e, lower)
                == FailKind::Conflict
            &&& !e.wants_credentials(lower) && !says_conflict(lower) && !says_rebase_conflict(lower)
                && e.blames_network(lower) ==> failure_in(e, lower) == FailKind::Network
            &&& !e.wants_credentials(lower) && !says_conflict(lower) && !says_rebase_conflict(lower)
                && !e.blames_network(lower) ==> failure_in(e, lower) == FailKind::Generic
        },
{
}

/// What the user is told of an action inside an auto-stash: what the action said and that the stash
/// was restored, or why it was kept; a failed action stays failed.
pub proof fn lemma_stash_is_reported(said: Seq<char>, e: Fault, kept: Fault, popped: Seq<char>)
    ensures
        with_restore(Ok(said), Ok(popped)) == Ok::<Seq<char>, Fault>(
            said + "\nauto-stash restored"@,
        ),
        with_restore(Ok(said), Err(kept)) == Ok::<Seq<char>, Fault>(
            said + "\nauto-stash kept ("@ + kept.message() + ") — resolve manually"@,
        ),
        with_restore(Err(e), Ok(popped)) == Err::<Seq<char>, Fault>(e),
        with_restore(Err(e), Err(kept)) matches Err(both) && both == Fault::Config(
            e.message() + "\n(auto-stash also kept: "@ + kept.message() + ")"@,
        ),
{
}

/// A stash whose top is another entry by now is not restored, and the user is told why; the entry of
/// the run is popped.
pub proof fn lemma_only_own_entry_is_restored(dir: Seq<char>, guard: Seq<char>, top: OutputModel)
    ensures
        ({
            let next = (AutoRestoreModel::Probe { dir, guard }).advance(Ok(top));
            &&& top.stdout == guard ==> (next.command() matches Some(c) && c.dir == dir && c.args
                == seq!["stash"@, "pop"@])
            &&& top.stdout != guard ==> next == AutoRestoreModel::Done(
                Err(
                    Fault::AutoStashNotRestored {
                        reason: "the stash stack changed since the auto-stash was created"@,
                    },
                ),
            )
        }),
{
}

// ── The list ─────────────────────────────────────────────────────────────────

/// A branch is shown with the commits that it is ahead and those that it is behind, each with its
/// own arrow, and with a mark where it has no upstream.
pub proof fn lemma_branch_shows_counts(r: RepoModel)
    ensures
        ({
            let b = r.snapshot.branch;
            &&& b.ahead > 0 && b.behind == 0 ==> r.branch_display() == b.name + " "@ + ("↖ +"@
                + decimal(b.ahead as nat))
            &&& b.ahead == 0 && b.behind > 0 ==> r.branch_display() == b.name + " "@ + ("↘ +"@
                + decimal(b.behind as nat))
            &&& b.ahead > 0 && b.behind > 0 ==> r.branch_display() == b.name + " "@ + ("↖+"@
                + decimal(b.ahead as nat) + " ↘+"@ + decimal(b.behind as nat))
            &&& b.ahead == 0 && b.behind == 0 && b.no_upstream ==> r.branch_display() == b.name
                + " ~"@
            &&& b.ahead == 0 && b.behind == 0 && !b.no_upstream ==> r.branch_display() == b.name
        }),
{
}

/// A repository starts out idle, and is shown as it was found.
pub proof fn lemma_loaded_repository_is_idle(s: SnapshotModel)
    ensures
        RepoModel::fresh(s).snapshot == s,
        RepoModel::fresh(s).state is Idle,
        RepoModel::fresh(s).pull_safe,
        !RepoModel::fresh(s).fetching,
        RepoModel::fresh(s).fetch_error is None,
{
}

/// Selecting changes what is selected into idle, and what is idle or finished into selected, by the
/// user; what is under way stays.
pub proof fn lemma_selecting_toggles(s: OpModel)
    ensures
        s is Idle ==> s.toggled() == OpModel::Queued(QueueOrigin::User),
        s is Queued ==> s.toggled() is Idle,
        s is Success ==> s.toggled() == OpModel::Queued(QueueOrigin::User),
        s is Fail ==> s.toggled() == OpModel::Queued(QueueOrigin::User),
        s is Working ==> s.toggled() is Working,
{
}

/// Which repositories an operation makes sense for: those with changes, with stash entries, or with
/// an upstream.
pub proof fn lemma_operations_make_sense_for(r: RepoModel)
    ensures
        Keep::All.admits(r),
        Keep::Dirty.admits(r) <==> r.snapshot.dirty,
        Keep::Stashed.admits(r) <==> r.snapshot.stash_count >= 1,
        Keep::Upstream.admits(r) <==> !r.snapshot.branch.no_upstream,
{
}

// ── Events ───────────────────────────────────────────────────────────────────

/// A local operation that ended is shown on its repository and on no other: the state, and what was
/// found afterwards.
pub proof fn lemma_local_result_is_shown(
    app: AppModel,
    path: Seq<char>,
    label: Seq<char>,
    result: Report,
    snapshot: Option<SnapshotModel>,
    i: int,
    j: int,
)
    requires
        place(app.repos, path) == Some(i),
        0 <= j < app.repos.len(),
        j != i,
    ensures
        ({
            let after = app.after_local(path, label, result, snapshot);
            let r = after.repos[i];
            &&& after.repos.len() == app.repos.len()
            &&& after.repos[j] == app.repos[j]
            &&& !r.fetching
            &&& snapshot matches Some(s) ==> r.snapshot == s
            &&& snapshot is None ==> r.snapshot == app.repos[i].snapshot
            &&& result is Err ==> r.state is Fail
            &&& result matches Ok(said) ==> {
                &&& blank(said) ==> r.state == OpModel::Success(label + " done"@)
                &&& !blank(said) && !said.contains('\n') ==> r.state == OpModel::Success(said)
            }
            &&& after.outbox == app.outbox
        }),
{
    lemma_place(app.repos, path);
    match result {
        Ok(said) => {
            if !said.contains('\n') {
                lemma_nothing_replaced(said, '\n', " | "@);
            }
        },
        Err(e) => {},
    }
}

/// A snapshot replaces the one that is shown, and leaves the state of the repository as it is.
pub proof fn lemma_snapshots_are_taken_in(
    app: AppModel,
    path: Seq<char>,
    snapshot: SnapshotModel,
    i: int,
    j: int,
)
    requires
        place(app.repos, path) == Some(i),
        0 <= j < app.repos.len(),
        j != i,
    ensures
        ({
            let after = app.with_snapshots(seq![(path, snapshot)]);
            &&& after.repos.len() == app.repos.len()
            &&& after.repos[i].snapshot == snapshot
            &&& !after.repos[i].fetching
            &&& after.repos[i].state == app.repos[i].state
            &&& after.repos[i].pull_safe == app.repos[i].pull_safe
            &&& after.repos[j] == app.repos[j]
        }),
{
    lemma_place(app.repos, path);
    let snaps = seq![(path, snapshot)];
    assert(snaps.drop_last() =~= Seq::<(Seq<char>, SnapshotModel)>::empty());
    assert(app.with_snapshots(snaps.drop_last()) == app);
}

/// The verdict of a check is taken in as it is, and changes nothing else.
pub proof fn lemma_verdicts_are_taken_in(
    app: AppModel,
    path: Seq<char>,
    safe: bool,
    i: int,
    j: int,
)
    requires
        place(app.repos, path) == Some(i),
        0 <= j < app.repos.len(),
        j != i,
    ensures
        ({
            let after = app.with_verdicts(seq![(path, safe)]);
            &&& after.repos.len() == app.repos.len()
            &&& after.repos[i].pull_safe == safe
            &&& after.repos[i].snapshot == app.repos[i].snapshot
            &&& after.repos[i].state == app.repos[i].state
            &&& after.repos[j] == app.repos[j]
        }),
{
    lemma_place(app.repos, path);
    let verdicts = seq![(path, safe)];
    assert(verdicts.drop_last() =~= Seq::<(Seq<char>, bool)>::empty());
    assert(app.with_verdicts(verdicts.drop_last()) == app);
}

/// After an operation on a worktree the list is loaded anew, and so are the worktrees where they are
/// what is shown.
pub proof fn lemma_worktree_result_refreshes(
    app: AppModel,
    repo_path: Seq<char>,
    label: Seq<char>,
    result: Report,
    i: int,
)
    requires
        place(app.repos, repo_path) == Some(i),
    ensures
        ({
            let after = app.after_worktree_op(repo_path, label, result);
            let n = app.outbox.len() as int;
            &&& after.outbox.len() == n + (if app.worktree_mode {
                2int
            } else {
                1int
            })
            &&& after.outbox[n] is Refresh
            &&& after.outbox[n]->Refresh_0.len() == app.repos.len()
            &&& app.worktree_mode ==> after.outbox[n + 1] is LoadWorktrees
            &&& result is Ok ==> after.repos[i].state is Success
            &&& result is Err ==> after.repos[i].state is Fail
        }),
{
    lemma_place(app.repos, repo_path);
}

/// The content of the panel that was asked for last is shown; where it could not be had, there is no
/// panel, and a notice says why.
pub proof fn lemma_panel_is_shown(app: AppModel, kind: PanelKind, panel: PanelModel, e: Fault)
    requires
        app.pending_panel == Some(kind),
    ensures
        app.after_panel(kind, Ok(panel)).panel == Some(panel),
        app.after_panel(kind, Ok(panel)).pending_panel is None,
        app.after_panel(kind, Err(e)).panel is None,
        app.after_panel(kind, Err(e)).pending_panel is None,
        app.after_panel(kind, Err(e)).notice matches Some(n) && n.0 == "Could not load panel: "@
            + e.message(),
{
}

/// Fetching in the background goes to every repository with an upstream, if only a configured one,
/// and to no other.
pub proof fn lemma_background_fetch_goes_to(app: AppModel)
    ensures
        forall|i: int|
            0 <= i < app.repos.len() && (!(#[trigger] app.repos[i]).snapshot.branch.no_upstream
                || app.repos[i].snapshot.branch.upstream is Some) ==> app.fetch_candidates().contains(
                app.repos[i].snapshot.path,
            ),
        forall|p: Seq<char>| #[trigger]
            app.fetch_candidates().contains(p) ==> exists|i: int|
                0 <= i < app.repos.len() && (#[trigger] app.repos[i]).snapshot.path == p && (
                !app.repos[i].snapshot.branch.no_upstream || app.repos[i].snapshot.branch.upstream
                    is Some),
        app.fetch_candidates().len() > 0 ==> app.with_background_fetch().outbox == app.outbox.push(
            EffectModel::BackgroundFetch(app.fetch_candidates()),
        ),
        app.fetch_candidates().len() == 0 ==> app.with_background_fetch() == app,
{
    lemma_chosen_paths(app.repos);
}

/// The paths of those that are worth fetching.
proof fn lemma_chosen_paths(repos: Seq<RepoModel>)
    ensures
        ({
            let chosen = crate::tui::app::paths_where(repos, |r: RepoModel| fetchable(r));
            &&& forall|i: int|
                0 <= i < repos.len() && fetchable(#[trigger] repos[i]) ==> chosen.contains(
                    repos[i].snapshot.path,
                )
            &&& forall|p: Seq<char>| #[trigger]
                chosen.contains(p) ==> exists|i: int|
                    0 <= i < repos.len() && (#[trigger] repos[i]).snapshot.path == p && fetchable(
                        repos[i],
                    )
        }),
    decreases repos.len(),
{
    let pred = |r: RepoModel| fetchable(r);
    let chosen = crate::tui::app::paths_where(repos, pred);
    if repos.len() > 0 {
        let t = repos.drop_last();
        lemma_chosen_paths(t);
        let before = crate::tui::app::paths_where(t, pred);
        let n = repos.len() - 1;
        assert forall|i: int| 0 <= i < repos.len() && fetchable(
            #[trigger] repos[i],
        ) implies chosen.contains(repos[i].snapshot.path) by {
            if i < n {
                assert(repos[i] == t[i]);
                assert(before.contains(t[i].snapshot.path));
                let k = choose|k: int|
                    0 <= k < before.len() && before[k] == t[i].snapshot.path;
                assert(chosen[k] == before[k]);
            } else {
                assert(chosen.last() == repos[n].snapshot.path);
            }
        }
        assert forall|p: Seq<char>| #[trigger] chosen.contains(p) implies exists|i: int|
            0 <= i < repos.len() && (#[trigger] repos[i]).snapshot.path == p && fetchable(
                repos[i],
            ) by {
            let k = choose|k: int| 0 <= k < chosen.len() && chosen[k] == p;
            if k < before.len() {
                assert(before[k] == p);
                assert(before.contains(p));
                let i = choose|i: int|
                    0 <= i < t.len() && (#[trigger] t[i]).snapshot.path == p && fetchable(t[i]);
                assert(repos[i] == t[i]);
            } else {
                assert(repos[n].snapshot.path == p);
            }
        }
    }
}

/// A remote action that starts is shown as under way, and leaves the others as they are.
pub proof fn lemma_started_action_is_shown(
    app: AppModel,
    path: Seq<char>,
    action: RemoteAction,
    i: int,
    j: int,
)
    requires
        place(app.repos, path) == Some(i),
        0 <= j < app.repos.len(),
        j != i,
    ensures
        ({
            let after = app.with_op(path, action, None);
            &&& after.repos[i].state is Working
            &&& after.repos[i].last_action == Some(action)
            &&& after.repos[i].snapshot == app.repos[i].snapshot
            &&& after.repos[j] == app.repos[j]
            &&& after.outbox.len() == app.outbox.len() + 1
            &&& after.outbox.last() matches EffectModel::Remote {
                path: p,
                action: a,
                credentials,
                stash,
            } && p == path && a == action && credentials is None && (stash <==> app.auto_stash
                && app.repos[i].snapshot.dirty && (a is PullFfOnly || a is Merge || a is Rebase))
        }),
{
    lemma_place(app.repos, path);
}

/// A successful fetch has its repository checked anew where commits have arrived; no other action has,
/// and none that failed.
pub proof fn lemma_fetched_commits_are_checked(
    app: AppModel,
    path: Seq<char>,
    action: RemoteAction,
    result: Report,
    s: SnapshotModel,
    i: int,
)
    requires
        place(app.repos, path) == Some(i),
    ensures
        result is Err ==> app.op_recheck(path, action, result, Some(s)).len() == 0,
        !(action is Fetch) ==> app.op_recheck(path, action, result, Some(s)).len() == 0,
        result is Ok && action is Fetch && s.branch.behind > app.repos[i].snapshot.branch.behind
            && !s.branch.no_upstream && !s.has_conflicts && s.branch.upstream is Some ==> {
            let c = app.op_recheck(path, action, result, Some(s));
            &&& c.len() == 1
            &&& c[0].path == path
            &&& Some(c[0].upstream) == s.branch.upstream
            &&& c[0].clean == !s.dirty
        },
        s.branch.behind <= app.repos[i].snapshot.branch.behind ==> app.op_recheck(
            path,
            action,
            result,
            Some(s),
        ).len() == 0,
{
}

/// Until all repositories are loaded or skipped, loading goes on; after the last the list is sorted
/// and there is no loading any more.
pub proof fn lemma_loading_ends_with_last(app: AppModel)
    requires
        app.loading,
        app.load_done < app.load_total,
    ensures
        app.load_done + 1 < app.load_total ==> app.one_loaded().loading
            && app.one_loaded().load_done == app.load_done + 1 && app.one_loaded().repos
            == app.repos && app.one_loaded().outbox == app.outbox,
        app.load_done + 1 == app.load_total ==> !app.one_loaded().loading,
{
}

// ── Quick mode ───────────────────────────────────────────────────────────────

/// The modes go by their names.
pub proof fn lemma_modes_have_names()
    ensures
        Mode::Fetch.name() == "fetch"@,
        Mode::Pull.name() == "pull"@,
        Mode::Merge.name() == "merge"@,
        Mode::Rebase.name() == "rebase"@,
        Mode::Push.name() == "push"@,
{
}

/// A success is printed with what git said, and a failure as an error with the mode, the directory
/// and the message; the last line tells how many there were.
pub proof fn lemma_what_is_printed(
    directory: Seq<char>,
    said: Seq<char>,
    e: Fault,
    mode: Mode,
    all: Seq<RepoOutcomeModel>,
    elapsed: Seq<char>,
)
    requires
        !said.contains('\n'),
    ensures
        ({
            let fine = line_of((RepoOutcomeModel { directory, result: Ok(said) }), mode);
            &&& !blank(said) ==> fine == PrintedModel::Output(shown(directory) + ": "@ + said)
            &&& blank(said) ==> fine == PrintedModel::Output(
                shown(directory) + ": "@ + "successful"@,
            )
        }),
        line_of((RepoOutcomeModel { directory, result: Err(e) }), mode) == PrintedModel::Failure(
            "could not perform "@ + mode.name() + " on "@ + (shown(directory) + ": "@
                + e.message()),
        ),
        printed(all, mode, elapsed).last() == PrintedModel::Output(
            decimal(all.len()) + " repositories finished in: "@ + elapsed,
        ),
        printed(all, mode, elapsed).len() == in_directory_order(all).len() + 1,
{
    lemma_nothing_replaced(said, '\n', " | "@);
}

} // verus!
