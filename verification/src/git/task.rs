//! Operations of several runs of git: what to run next, given how the last run ended.

use vstd::prelude::*;
use vstd::string::*;

use crate::chars::{
    cat2, copy_texts, halves, holds_text, lemma_texts_push, lines, non_empty, opt_text,
    same_opt_text, same_text, split_lines, split_once, texts, trim, trimmed,
};
use crate::error::{AppError, Fault, Result};
use crate::git::command::{
    copy_credentials, opt_credentials, outcome, plain_command, report, said, say, views,
    CommandModel, Credentials, CredentialsModel, GitCommand, GitOutput, Outcome, Report,
};
use crate::git::runner::{stash_args, GitRunner, RemoteAction};
use crate::mode::Mode;

verus! {

/// The command that runs git in `dir` with `args`, answering with `credentials`.
pub open spec fn remote_command(
    dir: Seq<char>,
    args: Seq<Seq<char>>,
    credentials: Option<CredentialsModel>,
) -> CommandModel {
    CommandModel { dir, args, take_optional_locks: true, credentials }
}

// ── Tasks ────────────────────────────────────────────────────────────────────

/// An operation under way whose report is what git says at the end.
#[derive(Debug)]
pub enum Task {
    /// One command is left.
    Last(GitCommand),
    /// A merge is to fetch, then to merge the upstream.
    MergeFetch { dir: String, credentials: Option<Credentials> },
    /// A push is to find out whether the branch has an upstream.
    PushProbe { dir: String, force: bool, credentials: Option<Credentials> },
    /// A push of a branch without an upstream is to find out which remotes there are.
    PushRemotes { dir: String, force: bool, credentials: Option<Credentials> },
    /// A commit is to add all changes, then to commit under `message`.
    CommitAdd { dir: String, message: String },
    /// A checkout of the remote branch `name` is to find out whether the branch `local` exists.
    CheckoutProbe { dir: String, name: String, local: String },
    /// Nothing is left.
    Done(Result<String>),
}

/// A task with its texts as sequences of characters.
#[verifier::ext_equal]
pub enum TaskModel {
    Last(CommandModel),
    MergeFetch { dir: Seq<char>, credentials: Option<CredentialsModel> },
    PushProbe { dir: Seq<char>, force: bool, credentials: Option<CredentialsModel> },
    PushRemotes { dir: Seq<char>, force: bool, credentials: Option<CredentialsModel> },
    CommitAdd { dir: Seq<char>, message: Seq<char> },
    CheckoutProbe { dir: Seq<char>, name: Seq<char>, local: Seq<char> },
    Done(Report),
}

impl View for Task {
    type V = TaskModel;

    open spec fn view(&self) -> TaskModel {
        match self {
            Task::Last(c) => TaskModel::Last(c@),
            Task::MergeFetch { dir, credentials } => TaskModel::MergeFetch {
                dir: dir@,
                credentials: opt_credentials(*credentials),
            },
            Task::PushProbe { dir, force, credentials } => TaskModel::PushProbe {
                dir: dir@,
                force: *force,
                credentials: opt_credentials(*credentials),
            },
            Task::PushRemotes { dir, force, credentials } => TaskModel::PushRemotes {
                dir: dir@,
                force: *force,
                credentials: opt_credentials(*credentials),
            },
            Task::CommitAdd { dir, message } => TaskModel::CommitAdd {
                dir: dir@,
                message: message@,
            },
            Task::CheckoutProbe { dir, name, local } => TaskModel::CheckoutProbe {
                dir: dir@,
                name: name@,
                local: local@,
            },
            Task::Done(r) => TaskModel::Done(report(*r)),
        }
    }
}

/// The names of the remotes in the output of `git remote`.
pub open spec fn remote_names(text: Seq<char>) -> Seq<Seq<char>> {
    non_empty(lines(text).map_values(|l: Seq<char>| trimmed(l)))
}

/// The remote to push a new branch to: `origin` where there is one, else the first, and `origin`
/// where there is none.
pub open spec fn push_remote(text: Seq<char>) -> Seq<char> {
    let names = remote_names(text);
    if names.contains("origin"@) || names.len() == 0 {
        "origin"@
    } else {
        names[0]
    }
}

/// The arguments that push a branch which has an upstream.
pub open spec fn push_args(force: bool) -> Seq<Seq<char>> {
    if force {
        seq!["push"@, "--force-with-lease"@, "--force-if-includes"@]
    } else {
        seq!["push"@]
    }
}

/// The arguments that push a branch which has no upstream, and let it track what was pushed.
pub open spec fn first_push_args(remote: Seq<char>, force: bool) -> Seq<Seq<char>> {
    if force {
        seq!["push"@, "-u"@, remote, "HEAD"@, "--force-with-lease"@, "--force-if-includes"@]
    } else {
        seq!["push"@, "-u"@, remote, "HEAD"@]
    }
}

impl TaskModel {
    /// The command to run next.
    pub open spec fn command(self) -> Option<CommandModel> {
        match self {
            TaskModel::Last(c) => Some(c),
            TaskModel::MergeFetch { dir, credentials } => Some(
                remote_command(dir, seq!["fetch"@, "--prune"@], credentials),
            ),
            TaskModel::PushProbe { dir, force, credentials } => Some(
                plain_command(dir, seq!["rev-parse"@, "--abbrev-ref"@, "@{upstream}"@]),
            ),
            TaskModel::PushRemotes { dir, force, credentials } => Some(
                plain_command(dir, seq!["remote"@]),
            ),
            TaskModel::CommitAdd { dir, message } => Some(plain_command(dir, seq!["add"@, "-A"@])),
            TaskModel::CheckoutProbe { dir, name, local } => Some(
                plain_command(
                    dir,
                    seq!["show-ref"@, "--verify"@, "--quiet"@, "refs/heads/"@ + local],
                ),
            ),
            TaskModel::Done(_) => None,
        }
    }

    /// The task after the command ended with `o`.
    pub open spec fn advance(self, o: Outcome) -> TaskModel {
        match self {
            TaskModel::Last(_) => TaskModel::Done(said(o)),
            TaskModel::MergeFetch { dir, credentials } => match o {
                Ok(_) => TaskModel::Last(
                    remote_command(
                        dir,
                        seq!["merge"@, "--no-edit"@, "@{upstream}"@],
                        credentials,
                    ),
                ),
                Err(e) => TaskModel::Done(Err(e)),
            },
            TaskModel::PushProbe { dir, force, credentials } => if o is Ok {
                TaskModel::Last(remote_command(dir, push_args(force), credentials))
            } else {
                TaskModel::PushRemotes { dir, force, credentials }
            },
            TaskModel::PushRemotes { dir, force, credentials } => {
                let remotes = match o {
                    Ok(out) => out.combined(),
                    Err(_) => Seq::empty(),
                };
                TaskModel::Last(
                    remote_command(dir, first_push_args(push_remote(remotes), force), credentials),
                )
            },
            TaskModel::CommitAdd { dir, message } => match o {
                Ok(_) => TaskModel::Last(plain_command(dir, seq!["commit"@, "-m"@, message])),
                Err(e) => TaskModel::Done(Err(e)),
            },
            TaskModel::CheckoutProbe { dir, name, local } => if o is Ok {
                TaskModel::Last(plain_command(dir, seq!["checkout"@, local]))
            } else {
                TaskModel::Last(plain_command(dir, seq!["checkout"@, "--track"@, name]))
            },
            TaskModel::Done(r) => TaskModel::Done(r),
        }
    }
}

/// Which remote to push a new branch to, given the output of `git remote`.
pub fn choose_push_remote(text: &str) -> (r: String)
    ensures
        r@ == push_remote(text@),
{
    let ls = split_lines(text);
    let ghost all = lines(text@).map_values(|l: Seq<char>| trimmed(l));
    let mut names: Vec<String> = Vec::new();
    proof {
        assert(texts(names@) =~= non_empty(all.take(0)));
    }
    for i in 0..ls.len()
        invariant
            lines(text@) == texts(ls@),
            all == lines(text@).map_values(|l: Seq<char>| trimmed(l)),
            texts(names@) == non_empty(all.take(i as int)),
    {
        proof {
            assert(all.take(i + 1).drop_last() =~= all.take(i as int));
            assert(lines(text@)[i as int] == ls@[i as int]@);
            assert(all.take(i + 1).last() == trimmed(ls@[i as int]@));
        }
        let name = trim(ls[i].as_str());
        if !name.is_empty() {
            let owned = name.to_owned();
            proof {
                lemma_texts_push(names@, owned);
            }
            names.push(owned);
        }
    }
    proof {
        assert(all.take(all.len() as int) =~= all);
    }
    if names.len() == 0 || holds_text(&names, "origin") {
        "origin".to_owned()
    } else {
        proof {
            assert(texts(names@)[0] == names@[0]@);
        }
        names[0].clone()
    }
}

impl Task {
    /// The command to run next; none when the task is done.
    pub fn command(&self) -> (r: Option<GitCommand>)
        ensures
            match r {
                Some(c) => self@.command() == Some(c@),
                None => self@.command() is None,
            },
    {
        match self {
            Task::Last(c) => Some(copy_command(c)),
            Task::MergeFetch { dir, credentials } => Some(
                GitCommand::new(dir.as_str(), &["fetch", "--prune"]).answering(credentials),
            ),
            Task::PushProbe { dir, force, credentials } => Some(
                GitCommand::new(dir.as_str(), &["rev-parse", "--abbrev-ref", "@{upstream}"]),
            ),
            Task::PushRemotes { dir, force, credentials } => Some(
                GitCommand::new(dir.as_str(), &["remote"]),
            ),
            Task::CommitAdd { dir, message } => Some(
                GitCommand::new(dir.as_str(), &["add", "-A"]),
            ),
            Task::CheckoutProbe { dir, name, local } => {
                let full = cat2("refs/heads/", local.as_str());
                Some(
                    GitCommand::new(
                        dir.as_str(),
                        &["show-ref", "--verify", "--quiet", full.as_str()],
                    ),
                )
            },
            Task::Done(_) => None,
        }
    }

    /// The task after its command ended with `result`.
    pub fn advance(self, result: Result<GitOutput>) -> (r: Task)
        ensures
            r@ == self@.advance(outcome(result)),
    {
        match self {
            Task::Last(_) => Task::Done(say(result)),
            Task::MergeFetch { dir, credentials } => match result {
                Ok(_) => Task::Last(
                    GitCommand::new(
                        dir.as_str(),
                        &["merge", "--no-edit", "@{upstream}"],
                    ).answering(&credentials),
                ),
                Err(e) => Task::Done(Err(e)),
            },
            Task::PushProbe { dir, force, credentials } => if result.is_ok() {
                if force {
                    Task::Last(
                        GitCommand::new(
                            dir.as_str(),
                            &["push", "--force-with-lease", "--force-if-includes"],
                        ).answering(&credentials),
                    )
                } else {
                    Task::Last(GitCommand::new(dir.as_str(), &["push"]).answering(&credentials))
                }
            } else {
                Task::PushRemotes { dir, force, credentials }
            },
            Task::PushRemotes { dir, force, credentials } => {
                let remotes = match result {
                    Ok(out) => out.combined(),
                    Err(_) => String::new(),
                };
                let remote = choose_push_remote(remotes.as_str());
                let to = remote.as_str();
                if force {
                    Task::Last(
                        GitCommand::new(
                            dir.as_str(),
                            &["push", "-u", to, "HEAD", "--force-with-lease", "--force-if-includes"],
                        ).answering(&credentials),
                    )
                } else {
                    Task::Last(
                        GitCommand::new(dir.as_str(), &["push", "-u", to, "HEAD"]).answering(
                            &credentials,
                        ),
                    )
                }
            },
            Task::CommitAdd { dir, message } => match result {
                Ok(_) => Task::Last(
                    GitCommand::new(dir.as_str(), &["commit", "-m", message.as_str()]),
                ),
                Err(e) => Task::Done(Err(e)),
            },
            Task::CheckoutProbe { dir, name, local } => if result.is_ok() {
                Task::Last(GitCommand::new(dir.as_str(), &["checkout", local.as_str()]))
            } else {
                Task::Last(GitCommand::new(dir.as_str(), &["checkout", "--track", name.as_str()]))
            },
            Task::Done(r) => Task::Done(r),
        }
    }
}

/// A copy of a command.
fn copy_command(c: &GitCommand) -> (r: GitCommand)
    ensures
        r@ == c@,
{
    GitCommand {
        dir: c.dir.clone(),
        args: copy_texts(&c.args),
        take_optional_locks: c.take_optional_locks,
        credentials: copy_credentials(&c.credentials),
    }
}

/// The task that carries out a remote action.
pub open spec fn action_task(
    dir: Seq<char>,
    action: RemoteAction,
    credentials: Option<CredentialsModel>,
) -> TaskModel {
    match action {
        RemoteAction::Fetch => TaskModel::Last(
            remote_command(dir, seq!["fetch"@, "--prune"@], credentials),
        ),
        RemoteAction::PullFfOnly => TaskModel::Last(
            remote_command(
                dir,
                seq!["pull"@, "--ff-only"@, "--no-rebase"@, "--stat"@, "--progress"@],
                credentials,
            ),
        ),
        RemoteAction::Merge => TaskModel::MergeFetch { dir, credentials },
        RemoteAction::Rebase => TaskModel::Last(
            remote_command(dir, seq!["pull"@, "--rebase"@, "--stat"@, "--progress"@], credentials),
        ),
        RemoteAction::Push { force } => TaskModel::PushProbe { dir, force, credentials },
    }
}

/// The task that checks out a remote branch, in `remote/branch` form.
pub open spec fn checkout_task(dir: Seq<char>, name: Seq<char>) -> TaskModel {
    match halves(name, '/') {
        Some((_, local)) => TaskModel::CheckoutProbe { dir, name, local },
        None => TaskModel::Done(
            Err(Fault::Config("remote branch must be in remote/branch form: "@ + name)),
        ),
    }
}

impl GitRunner {
    /// The task that carries out `action`, answering git's questions with `credentials`.
    ///
    /// A pull says that it must not rebase: it is advertised as fast-forward-only and must not
    /// become a rebase because of a configuration. A forced push asks for a lease and also that
    /// the remote's tip was seen here, since background fetches keep advancing the tracking ref
    /// that a lease alone compares with. A branch without an upstream is pushed with `-u`.
    pub fn run_remote_action_with_optional_credentials(
        &self,
        dir: &str,
        action: RemoteAction,
        credentials: &Option<Credentials>,
    ) -> (r: Task)
        ensures
            r@ == action_task(dir@, action, opt_credentials(*credentials)),
    {
        match action {
            RemoteAction::Fetch => Task::Last(
                GitCommand::new(dir, &["fetch", "--prune"]).answering(credentials),
            ),
            RemoteAction::PullFfOnly => Task::Last(
                GitCommand::new(
                    dir,
                    &["pull", "--ff-only", "--no-rebase", "--stat", "--progress"],
                ).answering(credentials),
            ),
            RemoteAction::Merge => Task::MergeFetch {
                dir: dir.to_owned(),
                credentials: copy_credentials(credentials),
            },
            RemoteAction::Rebase => Task::Last(
                GitCommand::new(dir, &["pull", "--rebase", "--stat", "--progress"]).answering(
                    credentials,
                ),
            ),
            RemoteAction::Push { force } => Task::PushProbe {
                dir: dir.to_owned(),
                force,
                credentials: copy_credentials(credentials),
            },
        }
    }

    /// The task that carries out `action`.
    pub fn run_remote_action(&self, dir: &str, action: RemoteAction) -> (r: Task)
        ensures
            r@ == action_task(dir@, action, None),
    {
        self.run_remote_action_with_optional_credentials(dir, action, &None)
    }

    /// The task that carries out `action`, answering git's questions with `credentials`.
    pub fn run_remote_action_with_credentials(
        &self,
        dir: &str,
        action: RemoteAction,
        credentials: &Credentials,
    ) -> (r: Task)
        ensures
            r@ == action_task(dir@, action, Some(credentials@)),
    {
        self.run_remote_action_with_optional_credentials(dir, action, &Some(credentials.clone()))
    }

    /// The task that carries out the action of `mode`.
    pub fn run_mode(&self, dir: &str, mode: Mode) -> (r: Task)
        ensures
            r@ == action_task(dir@, RemoteAction::of_mode(mode), None),
    {
        self.run_remote_action(dir, RemoteAction::from_mode(mode))
    }

    /// The task of one plain command, whose report is what git says.
    pub fn run_simple(&self, dir: &str, args: &[&str]) -> (r: Task)
        ensures
            r@ == TaskModel::Last(plain_command(dir@, views(args@))),
    {
        Task::Last(GitCommand::new(dir, args))
    }

    /// The task that adds all changes and commits them under `message`.
    pub fn commit_all(&self, dir: &str, message: &str) -> (r: Task)
        ensures
            r@ == (TaskModel::CommitAdd { dir: dir@, message: message@ }),
    {
        Task::CommitAdd { dir: dir.to_owned(), message: message.to_owned() }
    }

    /// The task that checks out the remote branch `name`, in `remote/branch` form.
    ///
    /// A nested name is not shortened (`origin/feature/foo` to `foo`): that could select an
    /// unrelated local branch. Where the local branch exists it is checked out by its complete
    /// name; otherwise git creates the matching tracking branch.
    pub fn checkout_remote_branch(&self, dir: &str, name: &str) -> (r: Task)
        ensures
            r@ == checkout_task(dir@, name@),
    {
        match split_once(name, '/') {
            Some((_, local)) => Task::CheckoutProbe {
                dir: dir.to_owned(),
                name: name.to_owned(),
                local: local.to_owned(),
            },
            None => Task::Done(
                Err(
                    AppError::Config(cat2("remote branch must be in remote/branch form: ", name)),
                ),
            ),
        }
    }
}

// ── Auto-stash ───────────────────────────────────────────────────────────────

/// Identifies the stash entry created for one automatic operation.
///
/// The object name is private: callers can only give the guard back to `restore_auto_stash`, which
/// prevents an automatic restore from popping a stash entry that was already present (or was
/// created later).
#[derive(Debug)]
pub struct AutoStashGuard {
    oid: String,
}

impl View for AutoStashGuard {
    type V = Seq<char>;

    closed spec fn view(&self) -> Seq<char> {
        self.oid@
    }
}

/// What the stash holds on top, given how `git rev-parse -q --verify refs/stash` ended: the object
/// name of the newest entry, or nothing.
pub open spec fn stash_top(o: Outcome) -> std::result::Result<Option<Seq<char>>, Fault> {
    match o {
        Ok(out) => Ok(Some(out.stdout)),
        Err(e) => match e {
            Fault::GitCommandFailed { command, code, output } => if code == Some(1i32) {
                Ok(None)
            } else {
                Err(e)
            },
            _ => Err(e),
        },
    }
}

/// What the stash holds on top, given how `stash_oid` ended.
fn read_stash_top(result: Result<GitOutput>) -> (r: Result<Option<String>>)
    ensures
        match r {
            Ok(top) => stash_top(outcome(result)) == Ok::<Option<Seq<char>>, Fault>(opt_text(top)),
            Err(e) => stash_top(outcome(result)) == Err::<Option<Seq<char>>, Fault>(e@),
        },
{
    match result {
        Ok(out) => Ok(Some(out.stdout)),
        Err(AppError::GitCommandFailed { command, code, output }) => {
            let empty = match code {
                Some(n) => n == 1,
                None => false,
            };
            if empty {
                Ok(None)
            } else {
                Err(AppError::GitCommandFailed { command, code, output })
            }
        },
        Err(e) => Err(e),
    }
}

/// The stashing of a working tree for an automatic operation, under way.
#[derive(Debug)]
pub enum AutoStash {
    /// The stash is to be looked at.
    Before { dir: String },
    /// The tree is to be stashed.
    Push { dir: String, before: Option<String> },
    /// The stash is to be looked at again.
    After { dir: String, before: Option<String> },
    /// Nothing is left.
    Done(Result<Option<AutoStashGuard>>),
}

/// The outcome of stashing: the object name of the entry that was made, or nothing.
pub type StashReport = std::result::Result<Option<Seq<char>>, Fault>;

/// A stashing with its texts as sequences of characters.
pub enum AutoStashModel {
    Before { dir: Seq<char> },
    Push { dir: Seq<char>, before: Option<Seq<char>> },
    After { dir: Seq<char>, before: Option<Seq<char>> },
    Done(StashReport),
}

/// The view of the outcome of stashing.
pub open spec fn stash_report(r: Result<Option<AutoStashGuard>>) -> StashReport {
    match r {
        Ok(Some(guard)) => Ok(Some(guard@)),
        Ok(None) => Ok(None),
        Err(e) => Err(e@),
    }
}

impl View for AutoStash {
    type V = AutoStashModel;

    open spec fn view(&self) -> AutoStashModel {
        match self {
            AutoStash::Before { dir } => AutoStashModel::Before { dir: dir@ },
            AutoStash::Push { dir, before } => AutoStashModel::Push {
                dir: dir@,
                before: opt_text(*before),
            },
            AutoStash::After { dir, before } => AutoStashModel::After {
                dir: dir@,
                before: opt_text(*before),
            },
            AutoStash::Done(r) => AutoStashModel::Done(stash_report(*r)),
        }
    }
}

/// The command that looks at the top of the stash.
pub open spec fn stash_oid_command(dir: Seq<char>) -> CommandModel {
    plain_command(dir, seq!["rev-parse"@, "-q"@, "--verify"@, "refs/stash"@])
}

/// The command that stashes a tree for an automatic operation.
pub open spec fn auto_stash_command(dir: Seq<char>) -> CommandModel {
    plain_command(
        dir,
        stash_args(
            seq!["stash"@, "push"@, "--include-untracked"@],
            Some("gitbatch auto-stash"@),
        ),
    )
}

impl AutoStashModel {
    /// The command to run next.
    pub open spec fn command(self) -> Option<CommandModel> {
        match self {
            AutoStashModel::Before { dir } => Some(stash_oid_command(dir)),
            AutoStashModel::Push { dir, before } => Some(auto_stash_command(dir)),
            AutoStashModel::After { dir, before } => Some(stash_oid_command(dir)),
            AutoStashModel::Done(_) => None,
        }
    }

    /// The stashing after the command ended with `o`.
    pub open spec fn advance(self, o: Outcome) -> AutoStashModel {
        match self {
            AutoStashModel::Before { dir } => match stash_top(o) {
                Ok(before) => AutoStashModel::Push { dir, before },
                Err(e) => AutoStashModel::Done(Err(e)),
            },
            AutoStashModel::Push { dir, before } => match o {
                Ok(_) => AutoStashModel::After { dir, before },
                Err(e) => AutoStashModel::Done(Err(e)),
            },
            AutoStashModel::After { dir, before } => match stash_top(o) {
                Ok(after) => AutoStashModel::Done(
                    Ok(
                        if after != before {
                            after
                        } else {
                            None
                        },
                    ),
                ),
                Err(e) => AutoStashModel::Done(Err(e)),
            },
            AutoStashModel::Done(r) => AutoStashModel::Done(r),
        }
    }
}

impl AutoStash {
    /// The command to run next; none when the stashing is done.
    pub fn command(&self) -> (r: Option<GitCommand>)
        ensures
            match r {
                Some(c) => self@.command() == Some(c@),
                None => self@.command() is None,
            },
    {
        match self {
            AutoStash::Before { dir } => Some(stash_oid(dir.as_str())),
            AutoStash::Push { dir, before } => Some(push_auto_stash(dir.as_str())),
            AutoStash::After { dir, before } => Some(stash_oid(dir.as_str())),
            AutoStash::Done(_) => None,
        }
    }

    /// The stashing after its command ended with `result`.
    pub fn advance(self, result: Result<GitOutput>) -> (r: AutoStash)
        ensures
            r@ == self@.advance(outcome(result)),
    {
        match self {
            AutoStash::Before { dir } => match read_stash_top(result) {
                Ok(before) => AutoStash::Push { dir, before },
                Err(e) => AutoStash::Done(Err(e)),
            },
            AutoStash::Push { dir, before } => match result {
                Ok(_) => AutoStash::After { dir, before },
                Err(e) => AutoStash::Done(Err(e)),
            },
            AutoStash::After { dir, before } => match read_stash_top(result) {
                Ok(after) => {
                    if same_opt_text(&after, &before) {
                        AutoStash::Done(Ok(None))
                    } else {
                        match after {
                            Some(oid) => AutoStash::Done(Ok(Some(AutoStashGuard { oid }))),
                            None => AutoStash::Done(Ok(None)),
                        }
                    }
                },
                Err(e) => AutoStash::Done(Err(e)),
            },
            AutoStash::Done(r) => AutoStash::Done(r),
        }
    }
}

/// The command that looks at the top of the stash.
fn stash_oid(dir: &str) -> (r: GitCommand)
    ensures
        r@ == stash_oid_command(dir@),
{
    GitCommand::new(dir, &["rev-parse", "-q", "--verify", "refs/stash"])
}

/// The command that stashes a tree for an automatic operation.
fn push_auto_stash(dir: &str) -> (r: GitCommand)
    ensures
        r@ == auto_stash_command(dir@),
{
    let runner = GitRunner::default();
    runner.stash_push_include_untracked(dir, Some("gitbatch auto-stash"))
}

/// The restoring of a working tree after an automatic operation, under way.
#[derive(Debug)]
pub enum AutoRestore {
    /// The stash is to be looked at.
    Probe { dir: String, guard: AutoStashGuard },
    /// The newest entry is to be restored.
    Pop { dir: String },
    /// Nothing is left.
    Done(Result<String>),
}

/// A restoring with its texts as sequences of characters.
pub enum AutoRestoreModel {
    Probe { dir: Seq<char>, guard: Seq<char> },
    Pop { dir: Seq<char> },
    Done(Report),
}

impl View for AutoRestore {
    type V = AutoRestoreModel;

    open spec fn view(&self) -> AutoRestoreModel {
        match self {
            AutoRestore::Probe { dir, guard } => AutoRestoreModel::Probe {
                dir: dir@,
                guard: guard@,
            },
            AutoRestore::Pop { dir } => AutoRestoreModel::Pop { dir: dir@ },
            AutoRestore::Done(r) => AutoRestoreModel::Done(report(*r)),
        }
    }
}

/// The error of a stash whose top is no longer the entry to restore.
pub open spec fn stack_changed() -> Fault {
    Fault::AutoStashNotRestored {
        reason: "the stash stack changed since the auto-stash was created"@,
    }
}

impl AutoRestoreModel {
    /// The command to run next.
    pub open spec fn command(self) -> Option<CommandModel> {
        match self {
            AutoRestoreModel::Probe { dir, guard } => Some(stash_oid_command(dir)),
            AutoRestoreModel::Pop { dir } => Some(plain_command(dir, seq!["stash"@, "pop"@])),
            AutoRestoreModel::Done(_) => None,
        }
    }

    /// The restoring after the command ended with `o`.
    pub open spec fn advance(self, o: Outcome) -> AutoRestoreModel {
        match self {
            AutoRestoreModel::Probe { dir, guard } => match stash_top(o) {
                Ok(top) => if top == Some(guard) {
                    AutoRestoreModel::Pop { dir }
                } else {
                    AutoRestoreModel::Done(Err(stack_changed()))
                },
                Err(e) => AutoRestoreModel::Done(Err(e)),
            },
            AutoRestoreModel::Pop { dir } => AutoRestoreModel::Done(said(o)),
            AutoRestoreModel::Done(r) => AutoRestoreModel::Done(r),
        }
    }
}

impl AutoRestore {
    /// The command to run next; none when the restoring is done.
    pub fn command(&self) -> (r: Option<GitCommand>)
        ensures
            match r {
                Some(c) => self@.command() == Some(c@),
                None => self@.command() is None,
            },
    {
        match self {
            AutoRestore::Probe { dir, guard } => Some(stash_oid(dir.as_str())),
            AutoRestore::Pop { dir } => Some(GitCommand::new(dir.as_str(), &["stash", "pop"])),
            AutoRestore::Done(_) => None,
        }
    }

    /// The restoring after its command ended with `result`.
    pub fn advance(self, result: Result<GitOutput>) -> (r: AutoRestore)
        ensures
            r@ == self@.advance(outcome(result)),
    {
        match self {
            AutoRestore::Probe { dir, guard } => match read_stash_top(result) {
                Ok(top) => {
                    let own = match top {
                        Some(oid) => same_text(oid.as_str(), guard.oid.as_str()),
                        None => false,
                    };
                    if own {
                        AutoRestore::Pop { dir }
                    } else {
                        AutoRestore::Done(
                            Err(
                                AppError::AutoStashNotRestored {
                                    reason: "the stash stack changed since the auto-stash was created".to_owned(),
                                },
                            ),
                        )
                    }
                },
                Err(e) => AutoRestore::Done(Err(e)),
            },
            AutoRestore::Pop { dir } => AutoRestore::Done(say(result)),
            AutoRestore::Done(r) => AutoRestore::Done(r),
        }
    }
}

impl GitRunner {
    /// Stash a tree for an automatic operation; there is a guard at the end only when this
    /// actually created a new entry on top of the stash.
    ///
    /// `git stash push` succeeds even if there is nothing to save. Comparing `refs/stash` before
    /// and after avoids later popping a user's existing stash in that case.
    pub fn create_auto_stash(&self, dir: &str) -> (r: AutoStash)
        ensures
            r@ == (AutoStashModel::Before { dir: dir@ }),
    {
        AutoStash::Before { dir: dir.to_owned() }
    }

    /// Restore exactly the stash entry that `guard` identifies.
    ///
    /// A changed top of the stash means that a user or another process intervened. In that case
    /// every stash stays untouched and the restoring ends with an error, rather than risking
    /// restoration of the wrong entry.
    pub fn restore_auto_stash(&self, dir: &str, guard: AutoStashGuard) -> (r: AutoRestore)
        ensures
            r@ == (AutoRestoreModel::Probe { dir: dir@, guard: guard@ }),
    {
        AutoRestore::Probe { dir: dir.to_owned(), guard }
    }
}

} // verus!
