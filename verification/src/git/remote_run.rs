//! A remote action, wrapped in an auto-stash where one is asked for.

use vstd::prelude::*;
use vstd::string::*;

use crate::chars::{cat2, cat4};
use crate::error::{AppError, Fault, Result};
use crate::git::command::{
    copy_credentials, opt_credentials, outcome, plain_command, report, CommandModel, Credentials,
    CredentialsModel, GitCommand, GitOutput, Outcome, Report,
};
use crate::git::runner::{GitRunner, RemoteAction};
use crate::git::task::{
    action_task, stash_top, AutoRestore, AutoRestoreModel, AutoStash, AutoStashGuard,
    AutoStashModel, Task, TaskModel,
};

verus! {

/// A remote action under way, with the stashing before it and the restoring after it.
#[derive(Debug)]
pub enum RemoteRun {
    /// The tree is being stashed.
    Stashing {
        stash: AutoStash,
        dir: String,
        action: RemoteAction,
        credentials: Option<Credentials>,
    },
    /// The action is being carried out.
    Acting { task: Task, dir: String, guard: Option<AutoStashGuard> },
    /// The tree is being restored.
    Restoring { restore: AutoRestore, result: Result<String> },
    /// Nothing is left.
    Done(Result<String>),
}

/// A run with its texts as sequences of characters.
pub enum RemoteRunModel {
    Stashing {
        stash: AutoStashModel,
        dir: Seq<char>,
        action: RemoteAction,
        credentials: Option<CredentialsModel>,
    },
    Acting { task: TaskModel, dir: Seq<char>, guard: Option<Seq<char>> },
    Restoring { restore: AutoRestoreModel, result: Report },
    Done(Report),
}

/// The view of an optional guard.
pub open spec fn opt_guard(o: Option<AutoStashGuard>) -> Option<Seq<char>> {
    match o {
        Some(g) => Some(g@),
        None => None,
    }
}

impl View for RemoteRun {
    type V = RemoteRunModel;

    open spec fn view(&self) -> RemoteRunModel {
        match self {
            RemoteRun::Stashing { stash, dir, action, credentials } => RemoteRunModel::Stashing {
                stash: stash@,
                dir: dir@,
                action: *action,
                credentials: opt_credentials(*credentials),
            },
            RemoteRun::Acting { task, dir, guard } => RemoteRunModel::Acting {
                task: task@,
                dir: dir@,
                guard: opt_guard(*guard),
            },
            RemoteRun::Restoring { restore, result } => RemoteRunModel::Restoring {
                restore: restore@,
                result: report(*result),
            },
            RemoteRun::Done(r) => RemoteRunModel::Done(report(*r)),
        }
    }
}

/// What the user is told of an action that ended with `result` and of the restoring after it.
pub open spec fn with_restore(result: Report, restored: Report) -> Report {
    match (result, restored) {
        (Ok(said), Ok(_)) => Ok(said + "\nauto-stash restored"@),
        (Ok(said), Err(e)) => Ok(
            said + "\nauto-stash kept ("@ + e.message() + ") — resolve manually"@,
        ),
        (Err(e), Ok(_)) => Err(e),
        (Err(e), Err(kept)) => Err(
            Fault::Config(e.message() + "\n(auto-stash also kept: "@ + kept.message() + ")"@),
        ),
    }
}

/// What the user is told of an action that ended with `result` and of the restoring after it.
fn report_restore(result: Result<String>, restored: Result<String>) -> (r: Result<String>)
    ensures
        report(r) == with_restore(report(result), report(restored)),
{
    match (result, restored) {
        (Ok(said), Ok(_)) => Ok(cat2(said.as_str(), "\nauto-stash restored")),
        (Ok(said), Err(e)) => {
            let why = e.message();
            Ok(cat4(said.as_str(), "\nauto-stash kept (", why.as_str(), ") — resolve manually"))
        },
        (Err(e), Ok(_)) => Err(e),
        (Err(e), Err(kept)) => {
            let first = e.message();
            let second = kept.message();
            Err(
                AppError::Config(
                    cat4(first.as_str(), "\n(auto-stash also kept: ", second.as_str(), ")"),
                ),
            )
        },
    }
}

impl RemoteRunModel {
    /// The command to run next.
    pub open spec fn command(self) -> Option<CommandModel> {
        match self {
            RemoteRunModel::Stashing { stash, dir, action, credentials } => stash.command(),
            RemoteRunModel::Acting { task, dir, guard } => task.command(),
            RemoteRunModel::Restoring { restore, result } => restore.command(),
            RemoteRunModel::Done(_) => None,
        }
    }

    /// The run after the command ended with `o`.
    pub open spec fn advance(self, o: Outcome) -> RemoteRunModel {
        match self {
            RemoteRunModel::Stashing { stash, dir, action, credentials } => match stash.advance(o) {
                AutoStashModel::Done(Ok(guard)) => RemoteRunModel::Acting {
                    task: action_task(dir, action, credentials),
                    dir,
                    guard,
                },
                AutoStashModel::Done(Err(e)) => RemoteRunModel::Done(Err(e)),
                other => RemoteRunModel::Stashing { stash: other, dir, action, credentials },
            },
            RemoteRunModel::Acting { task, dir, guard } => match task.advance(o) {
                TaskModel::Done(result) => match guard {
                    Some(oid) => RemoteRunModel::Restoring {
                        restore: AutoRestoreModel::Probe { dir, guard: oid },
                        result,
                    },
                    None => RemoteRunModel::Done(result),
                },
                other => RemoteRunModel::Acting { task: other, dir, guard },
            },
            RemoteRunModel::Restoring { restore, result } => match restore.advance(o) {
                AutoRestoreModel::Done(restored) => RemoteRunModel::Done(
                    with_restore(result, restored),
                ),
                other => RemoteRunModel::Restoring { restore: other, result },
            },
            RemoteRunModel::Done(r) => RemoteRunModel::Done(r),
        }
    }
}

/// The run of a remote action, wrapped in an auto-stash where `stash` says so.
pub open spec fn remote_run(
    dir: Seq<char>,
    action: RemoteAction,
    credentials: Option<CredentialsModel>,
    stash: bool,
) -> RemoteRunModel {
    if stash {
        RemoteRunModel::Stashing {
            stash: AutoStashModel::Before { dir },
            dir,
            action,
            credentials,
        }
    } else {
        RemoteRunModel::Acting { task: action_task(dir, action, credentials), dir, guard: None }
    }
}

/// Run a remote action, optionally wrapped in an auto-stash (the changes of a dirty tree are
/// stashed first and restored afterwards).
///
/// A stash with nothing to save produces no guard, so a clean tree can never pop an unrelated,
/// pre-existing stash entry; and a changed stash at restore time is reported instead of popping
/// the wrong entry.
pub fn run_remote_with_autostash(
    runner: &GitRunner,
    dir: &str,
    action: RemoteAction,
    credentials: &Option<Credentials>,
    stash: bool,
) -> (r: RemoteRun)
    ensures
        r@ == remote_run(dir@, action, opt_credentials(*credentials), stash),
{
    if stash {
        RemoteRun::Stashing {
            stash: runner.create_auto_stash(dir),
            dir: dir.to_owned(),
            action,
            credentials: copy_credentials(credentials),
        }
    } else {
        RemoteRun::Acting {
            task: runner.run_remote_action_with_optional_credentials(dir, action, credentials),
            dir: dir.to_owned(),
            guard: None,
        }
    }
}

impl RemoteRun {
    /// The command to run next; none when the run is done.
    pub fn command(&self) -> (r: Option<GitCommand>)
        ensures
            match r {
                Some(c) => self@.command() == Some(c@),
                None => self@.command() is None,
            },
    {
        match self {
            RemoteRun::Stashing { stash, dir, action, credentials } => stash.command(),
            RemoteRun::Acting { task, dir, guard } => task.command(),
            RemoteRun::Restoring { restore, result } => restore.command(),
            RemoteRun::Done(_) => None,
        }
    }

    /// The run after its command ended with `result`.
    pub fn advance(self, runner: &GitRunner, result: Result<GitOutput>) -> (r: RemoteRun)
        ensures
            r@ == self@.advance(outcome(result)),
    {
        match self {
            RemoteRun::Stashing { stash, dir, action, credentials } => match stash.advance(result) {
                AutoStash::Done(Ok(guard)) => {
                    let task = runner.run_remote_action_with_optional_credentials(
                        dir.as_str(),
                        action,
                        &credentials,
                    );
                    RemoteRun::Acting { task, dir, guard }
                },
                AutoStash::Done(Err(e)) => RemoteRun::Done(Err(e)),
                other => RemoteRun::Stashing { stash: other, dir, action, credentials },
            },
            RemoteRun::Acting { task, dir, guard } => match task.advance(result) {
                Task::Done(ended) => match guard {
                    Some(g) => RemoteRun::Restoring {
                        restore: runner.restore_auto_stash(dir.as_str(), g),
                        result: ended,
                    },
                    None => RemoteRun::Done(ended),
                },
                other => RemoteRun::Acting { task: other, dir, guard },
            },
            RemoteRun::Restoring { restore, result: ended } => match restore.advance(result) {
                AutoRestore::Done(restored) => RemoteRun::Done(report_restore(ended, restored)),
                other => RemoteRun::Restoring { restore: other, result: ended },
            },
            RemoteRun::Done(r) => RemoteRun::Done(r),
        }
    }
}

// ── What holds of every run ──────────────────────────────────────────────────

/// A guard is given only for a stash entry that was on top afterwards and not before: stashing
/// with nothing to save gives none.
pub proof fn lemma_guard_is_new_entry(
    dir: Seq<char>,
    before: Outcome,
    push: Outcome,
    after: Outcome,
    guard: Seq<char>,
)
    requires
        (AutoStashModel::Before { dir }).advance(before).advance(push).advance(after)
            == AutoStashModel::Done(Ok(Some(guard))),
    ensures
        push is Ok,
        stash_top(after) == Ok::<Option<Seq<char>>, Fault>(Some(guard)),
        stash_top(before) is Ok,
        stash_top(before) != stash_top(after),
{
}

/// A stash that is the same before and after gives no guard.
pub proof fn lemma_unchanged_stash_gives_no_guard(
    dir: Seq<char>,
    before: Outcome,
    push: Outcome,
    after: Outcome,
)
    requires
        push is Ok,
        stash_top(before) is Ok,
        stash_top(before) == stash_top(after),
    ensures
        (AutoStashModel::Before { dir }).advance(before).advance(push).advance(after)
            == AutoStashModel::Done(Ok(None)),
{
}

/// A run that holds no guard never comes to restore anything: it goes on with the action, or ends
/// with what the action reported.
pub proof fn lemma_no_guard_no_restore(task: TaskModel, dir: Seq<char>, o: Outcome)
    ensures
        match (RemoteRunModel::Acting { task, dir, guard: None }).advance(o) {
            RemoteRunModel::Acting { task: next, dir: d, guard: g } => g is None,
            RemoteRunModel::Done(r) => task.advance(o) == TaskModel::Done(r),
            _ => false,
        },
{
}

/// The stash is popped only where its top is the very entry of the guard; otherwise it stays as it
/// is, and the run ends.
pub proof fn lemma_restore_pops_own_entry_only(
    dir: Seq<char>,
    guard: Seq<char>,
    result: Report,
    o: Outcome,
)
    ensures
        ({
            let next = (RemoteRunModel::Restoring {
                restore: AutoRestoreModel::Probe { dir, guard },
                result,
            }).advance(o);
            if stash_top(o) == Ok::<Option<Seq<char>>, Fault>(Some(guard)) {
                next.command() == Some(plain_command(dir, seq!["stash"@, "pop"@]))
            } else {
                next is Done
            }
        }),
{
}

/// However an action ends, a tree that was stashed for it is looked after next.
pub proof fn lemma_stashed_tree_is_restored(
    task: TaskModel,
    dir: Seq<char>,
    guard: Seq<char>,
    o: Outcome,
    result: Report,
)
    requires
        task.advance(o) == TaskModel::Done(result),
    ensures
        (RemoteRunModel::Acting { task, dir, guard: Some(guard) }).advance(o) == (
        RemoteRunModel::Restoring { restore: AutoRestoreModel::Probe { dir, guard }, result }),
{
}

/// A failed stashing ends the run before the action begins.
pub proof fn lemma_failed_stash_stops_action(
    stash: AutoStashModel,
    dir: Seq<char>,
    action: RemoteAction,
    credentials: Option<CredentialsModel>,
    o: Outcome,
    e: Fault,
)
    requires
        stash.advance(o) == AutoStashModel::Done(Err(e)),
    ensures
        (RemoteRunModel::Stashing { stash, dir, action, credentials }).advance(o)
            == RemoteRunModel::Done(Err(e)),
{
}

/// The message of an action that succeeded ends with a word on the stash.
pub proof fn lemma_restored_is_said(said: Seq<char>, restored: Report)
    ensures
        with_restore(Ok(said), restored) matches Ok(text) && {
            &&& said.is_prefix_of(text)
            &&& restored is Ok ==> "auto-stash restored"@.is_suffix_of(text)
            &&& restored is Err ==> ") — resolve manually"@.is_suffix_of(text)
        },
{
    reveal_strlit("\nauto-stash restored");
    reveal_strlit("auto-stash restored");
    let text = with_restore(Ok(said), restored)->Ok_0;
    match restored {
        Ok(_) => {
            let word = "auto-stash restored"@;
            assert("\nauto-stash restored"@ =~= seq!['\n'] + word);
            assert(text.subrange(text.len() - word.len(), text.len() as int) =~= word);
            assert(text.take(said.len() as int) =~= said);
        },
        Err(e) => {
            let word = ") — resolve manually"@;
            assert(text.subrange(text.len() - word.len(), text.len() as int) =~= word);
            assert(text.take(said.len() as int) =~= said);
        },
    }
}

/// An action that succeeded is reported as a success whatever becomes of the stash, and one that
/// failed as a failure.
pub proof fn lemma_restore_keeps_verdict(result: Report, restored: Report)
    ensures
        with_restore(result, restored) is Ok <==> result is Ok,
{
}

/// A forced push asks for a lease and for the remote's tip to have been seen, whether or not the
/// branch has an upstream and whatever the remotes are.
pub proof fn lemma_forced_push_is_guarded(
    dir: Seq<char>,
    credentials: Option<CredentialsModel>,
    upstream: Outcome,
    remotes: Outcome,
)
    ensures
        ({
            let probed = action_task(dir, RemoteAction::Push { force: true }, credentials).advance(
                upstream,
            );
            let ready = if upstream is Ok {
                probed
            } else {
                probed.advance(remotes)
            };
            &&& ready is Last
            &&& ready->Last_0.args.contains("--force-with-lease"@)
            &&& ready->Last_0.args.contains("--force-if-includes"@)
        }),
{
    let probed = action_task(dir, RemoteAction::Push { force: true }, credentials).advance(upstream);
    if upstream is Ok {
        let args = probed->Last_0.args;
        assert(args[1] == "--force-with-lease"@);
        assert(args[2] == "--force-if-includes"@);
    } else {
        let args = probed.advance(remotes)->Last_0.args;
        assert(args[4] == "--force-with-lease"@);
        assert(args[5] == "--force-if-includes"@);
    }
}

/// A pull fast-forwards or fails: it neither merges nor rebases, whatever is configured.
pub proof fn lemma_pull_only_fast_forwards(dir: Seq<char>, credentials: Option<CredentialsModel>)
    ensures
        action_task(dir, RemoteAction::PullFfOnly, credentials) matches TaskModel::Last(command)
            && command.args[0] == "pull"@ && command.args.contains("--ff-only"@)
            && command.args.contains("--no-rebase"@),
{
    let args = action_task(dir, RemoteAction::PullFfOnly, credentials)->Last_0.args;
    assert(args[1] == "--ff-only"@);
    assert(args[2] == "--no-rebase"@);
}

/// A merge merges only what was fetched: a failed fetch ends it.
pub proof fn lemma_merge_fetches_first(
    dir: Seq<char>,
    credentials: Option<CredentialsModel>,
    fetch: Outcome,
)
    ensures
        ({
            let begun = action_task(dir, RemoteAction::Merge, credentials);
            &&& begun.command() matches Some(command) && command.args == seq![
                "fetch"@,
                "--prune"@,
            ]
            &&& fetch matches Err(e) ==> begun.advance(fetch) == TaskModel::Done(Err(e))
            &&& fetch is Ok ==> (begun.advance(fetch).command() matches Some(command)
                && command.args == seq!["merge"@, "--no-edit"@, "@{upstream}"@])
        }),
{
}

} // verus!
