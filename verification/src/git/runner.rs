//! Which commands each operation on a repository takes.
//!
//! An operation of one command is a [`GitCommand`]; the user is told its combined output. An
//! operation of several is a [`Task`], which names the next command and takes its outcome.

use vstd::prelude::*;
use vstd::string::*;

use crate::chars::{blank, cat3, halves, is_blank, split_once};
use crate::error::Timeout;
use crate::git::command::{
    plain_command, reading_command, views, CommandModel, Credentials, GitCommand,
};
use crate::git::status::RepositorySnapshot;
use crate::mode::Mode;
use crate::native::{show, shown};

verus! {

/// The time limit of a run of git, in seconds.
pub const DEFAULT_TIMEOUT_SECS: u64 = 90;

/// How git is run: for how long at most, and where its runs are traced.
#[derive(Debug)]
pub struct GitRunner {
    pub timeout: Timeout,
    pub trace_log: Option<String>,
}

impl Default for GitRunner {
    fn default() -> (r: Self)
        ensures
            r.timeout@ == (90u64, 0u32),
            r.trace_log is None,
    {
        GitRunner { timeout: Timeout::from_secs(DEFAULT_TIMEOUT_SECS), trace_log: None }
    }
}

/// The arguments that stash the working tree under an optional message, after `head`.
pub open spec fn stash_args(head: Seq<Seq<char>>, message: Option<Seq<char>>) -> Seq<Seq<char>> {
    match message {
        Some(m) => if blank(m) {
            head
        } else {
            head + seq!["-m"@, m]
        },
        None => head,
    }
}

/// The view of an optional string slice.
pub open spec fn opt_str(o: Option<&str>) -> Option<Seq<char>> {
    match o {
        Some(s) => Some(s@),
        None => None,
    }
}

/// The remote and the branch of a remote branch; the whole name for both where it has no slash.
pub open spec fn remote_and_branch(name: Seq<char>) -> (Seq<char>, Seq<char>) {
    match halves(name, '/') {
        Some((remote, branch)) => (remote, branch),
        None => (name, name),
    }
}

impl GitRunner {
    /// A runner with the given time limit, and no trace.
    pub fn new(timeout: Timeout) -> (r: Self)
        ensures
            r.timeout == timeout,
            r.trace_log is None,
    {
        GitRunner { timeout, trace_log: None }
    }

    /// A runner with the given time limit that traces to the file `trace_log`, where there is one.
    pub fn with_trace(timeout: Timeout, trace_log: Option<String>) -> (r: Self)
        ensures
            r.timeout == timeout,
            r.trace_log == trace_log,
    {
        GitRunner { timeout, trace_log }
    }

    /// Run git in `dir` with `args`.
    pub fn run(&self, dir: &str, args: &[&str]) -> (r: GitCommand)
        ensures
            r@ == plain_command(dir@, views(args@)),
    {
        GitCommand::new(dir, args)
    }

    /// Run git in `dir` with `args`, answering its questions with `credentials`.
    pub fn run_with_credentials(&self, dir: &str, args: &[&str], credentials: &Credentials) -> (r:
        GitCommand)
        ensures
            r@ == (CommandModel {
                credentials: Some(credentials@),
                ..plain_command(dir@, views(args@))
            }),
    {
        GitCommand::new(dir, args).answering(&Some(credentials.clone()))
    }

    /// Run git in `dir` with `args` where it only reads repository state, without taking its
    /// optional locks. Never use this for a command that writes.
    pub fn run_readonly(&self, dir: &str, args: &[&str]) -> (r: GitCommand)
        ensures
            r@ == reading_command(dir@, views(args@)),
    {
        GitCommand::reading(dir, args)
    }

    /// The two commands that a snapshot of the repository at `dir` is loaded from: its status, and
    /// the subject of its last commit.
    pub fn status_snapshot(&self, dir: &str) -> (r: (GitCommand, GitCommand))
        ensures
            r.0@ == plain_command(
                dir@,
                seq!["status"@, "--porcelain=v2"@, "--branch"@, "--show-stash"@],
            ),
            r.1@ == plain_command(dir@, seq!["log"@, "-1"@, "--pretty=format:%ct%n%s"@]),
    {
        (RepositorySnapshot::status_command(dir), RepositorySnapshot::log_command(dir))
    }

    /// Every branch, local and remote, with its last commit and what it tracks.
    pub fn branch_list(&self, dir: &str) -> (r: GitCommand)
        ensures
            r@ == reading_command(
                dir@,
                seq!["branch"@, "--all"@, "--verbose"@, "--verbose"@, "--no-abbrev"@],
            ),
    {
        GitCommand::reading(dir, &["branch", "--all", "--verbose", "--verbose", "--no-abbrev"])
    }

    /// The last twenty commits, as a graph.
    pub fn commit_log(&self, dir: &str) -> (r: GitCommand)
        ensures
            r@ == reading_command(
                dir@,
                seq!["log"@, "--decorate"@, "--graph"@, "--oneline"@, "--max-count"@, "20"@],
            ),
    {
        GitCommand::reading(
            dir,
            &["log", "--decorate", "--graph", "--oneline", "--max-count", "20"],
        )
    }

    /// The state of the working tree, in short.
    pub fn status_text(&self, dir: &str) -> (r: GitCommand)
        ensures
            r@ == reading_command(dir@, seq!["status"@, "--short"@, "--branch"@]),
    {
        GitCommand::reading(dir, &["status", "--short", "--branch"])
    }

    /// Create the branch `name` and check it out.
    pub fn create_branch(&self, dir: &str, name: &str) -> (r: GitCommand)
        ensures
            r@ == plain_command(dir@, seq!["checkout"@, "-b"@, name@]),
    {
        GitCommand::new(dir, &["checkout", "-b", name])
    }

    /// Check out `name`.
    pub fn checkout_reference(&self, dir: &str, name: &str) -> (r: GitCommand)
        ensures
            r@ == plain_command(dir@, seq!["checkout"@, name@]),
    {
        GitCommand::new(dir, &["checkout", name])
    }

    /// Delete the local branch `name`, unless commits would be lost.
    pub fn delete_local_branch(&self, dir: &str, name: &str) -> (r: GitCommand)
        ensures
            r@ == plain_command(dir@, seq!["branch"@, "-d"@, name@]),
    {
        GitCommand::new(dir, &["branch", "-d", name])
    }

    /// Delete the local branch `name`, even where commits are lost.
    pub fn force_delete_local_branch(&self, dir: &str, name: &str) -> (r: GitCommand)
        ensures
            r@ == plain_command(dir@, seq!["branch"@, "-D"@, name@]),
    {
        GitCommand::new(dir, &["branch", "-D", name])
    }

    /// Delete the branch `name`, in `remote/branch` form, on its remote.
    pub fn delete_remote_branch(&self, dir: &str, name: &str) -> (r: GitCommand)
        ensures
            r@ == plain_command(
                dir@,
                seq!["push"@, remote_and_branch(name@).0, "--delete"@, remote_and_branch(name@).1],
            ),
    {
        match split_once(name, '/') {
            Some((remote, branch)) => GitCommand::new(dir, &["push", remote, "--delete", branch]),
            None => GitCommand::new(dir, &["push", name, "--delete", name]),
        }
    }

    /// Stash the changes of tracked files, under `message` unless it is blank.
    pub fn stash_push(&self, dir: &str, message: Option<&str>) -> (r: GitCommand)
        ensures
            r@ == plain_command(dir@, stash_args(seq!["stash"@, "push"@], opt_str(message))),
    {
        if let Some(m) = message {
            if !is_blank(m) {
                return GitCommand::new(dir, &["stash", "push", "-m", m]);
            }
        }
        GitCommand::new(dir, &["stash", "push"])
    }

    /// Stash all changes, those of untracked files too, under `message` unless it is blank.
    pub fn stash_push_include_untracked(&self, dir: &str, message: Option<&str>) -> (r: GitCommand)
        ensures
            r@ == plain_command(
                dir@,
                stash_args(seq!["stash"@, "push"@, "--include-untracked"@], opt_str(message)),
            ),
    {
        if let Some(m) = message {
            if !is_blank(m) {
                return GitCommand::new(dir, &["stash", "push", "--include-untracked", "-m", m]);
            }
        }
        GitCommand::new(dir, &["stash", "push", "--include-untracked"])
    }

    /// Restore the newest stash entry, and drop it.
    pub fn stash_pop(&self, dir: &str) -> (r: GitCommand)
        ensures
            r@ == plain_command(dir@, seq!["stash"@, "pop"@]),
    {
        GitCommand::new(dir, &["stash", "pop"])
    }

    /// Drop the newest stash entry.
    pub fn stash_drop(&self, dir: &str) -> (r: GitCommand)
        ensures
            r@ == plain_command(dir@, seq!["stash"@, "drop"@]),
    {
        GitCommand::new(dir, &["stash", "drop"])
    }

    /// The worktrees of a repository.
    pub fn worktree_list(&self, dir: &str) -> (r: GitCommand)
        ensures
            r@ == plain_command(dir@, seq!["worktree"@, "list"@, "--porcelain"@]),
    {
        GitCommand::new(dir, &["worktree", "list", "--porcelain"])
    }

    /// Add a worktree at `path` for `branch`, which is made where `create_new` says so.
    pub fn worktree_add(&self, dir: &str, path: &str, branch: &str, create_new: bool) -> (r:
        GitCommand)
        ensures
            r@ == plain_command(
                dir@,
                if create_new {
                    seq!["worktree"@, "add"@, "-b"@, branch@, shown(path@)]
                } else {
                    seq!["worktree"@, "add"@, shown(path@), branch@]
                },
            ),
    {
        let dest = show(path);
        if create_new {
            GitCommand::new(dir, &["worktree", "add", "-b", branch, dest.as_str()])
        } else {
            GitCommand::new(dir, &["worktree", "add", dest.as_str(), branch])
        }
    }

    /// Remove the worktree at `path`.
    pub fn worktree_remove(&self, dir: &str, path: &str) -> (r: GitCommand)
        ensures
            r@ == plain_command(dir@, seq!["worktree"@, "remove"@, shown(path@)]),
    {
        let text = show(path);
        GitCommand::new(dir, &["worktree", "remove", text.as_str()])
    }

    /// Lock the worktree at `path`.
    pub fn worktree_lock(&self, dir: &str, path: &str) -> (r: GitCommand)
        ensures
            r@ == plain_command(dir@, seq!["worktree"@, "lock"@, shown(path@)]),
    {
        let text = show(path);
        GitCommand::new(dir, &["worktree", "lock", text.as_str()])
    }

    /// Unlock the worktree at `path`.
    pub fn worktree_unlock(&self, dir: &str, path: &str) -> (r: GitCommand)
        ensures
            r@ == plain_command(dir@, seq!["worktree"@, "unlock"@, shown(path@)]),
    {
        let text = show(path);
        GitCommand::new(dir, &["worktree", "unlock", text.as_str()])
    }

    /// Forget worktrees that are gone.
    pub fn worktree_prune(&self, dir: &str) -> (r: GitCommand)
        ensures
            r@ == plain_command(dir@, seq!["worktree"@, "prune"@]),
    {
        GitCommand::new(dir, &["worktree", "prune"])
    }

    /// Reset the branch to its upstream, keeping the changes in the working tree.
    pub fn reset_to_upstream(&self, dir: &str) -> (r: GitCommand)
        ensures
            r@ == plain_command(dir@, seq!["reset"@, "--mixed"@, "@{upstream}"@]),
    {
        GitCommand::new(dir, &["reset", "--mixed", "@{upstream}"])
    }

    /// Reset the branch to its upstream, discarding all local changes and commits.
    pub fn hard_reset_to_upstream(&self, dir: &str) -> (r: GitCommand)
        ensures
            r@ == plain_command(dir@, seq!["reset"@, "--hard"@, "@{upstream}"@]),
    {
        GitCommand::new(dir, &["reset", "--hard", "@{upstream}"])
    }

    /// Let the branch track `branch` on `remote`.
    pub fn set_upstream(&self, dir: &str, remote: &str, branch: &str) -> (r: GitCommand)
        ensures
            r@ == plain_command(dir@, seq!["branch"@, "-u"@, remote@ + "/"@ + branch@]),
    {
        let tracking = cat3(remote, "/", branch);
        GitCommand::new(dir, &["branch", "-u", tracking.as_str()])
    }
}

// ── Remote actions ───────────────────────────────────────────────────────────

/// An operation that reaches out to a remote.
#[derive(Debug, Clone, Copy, PartialEq, Eq, Structural)]
pub enum RemoteAction {
    Fetch,
    /// Pull with fast-forward only (fails if branches diverge).
    PullFfOnly,
    Merge,
    /// Pull with rebase.
    Rebase,
    Push { force: bool },
}

impl RemoteAction {
    /// The operation that a mode stands for.
    pub open spec fn of_mode(mode: Mode) -> RemoteAction {
        match mode {
            Mode::Fetch => RemoteAction::Fetch,
            Mode::Pull => RemoteAction::PullFfOnly,
            Mode::Merge => RemoteAction::Merge,
            Mode::Rebase => RemoteAction::Rebase,
            Mode::Push => RemoteAction::Push { force: false },
        }
    }

    /// The operation that a mode stands for. A push is never forced.
    pub fn from_mode(mode: Mode) -> (r: Self)
        ensures
            r == RemoteAction::of_mode(mode),
    {
        match mode {
            Mode::Fetch => RemoteAction::Fetch,
            Mode::Pull => RemoteAction::PullFfOnly,
            Mode::Merge => RemoteAction::Merge,
            Mode::Rebase => RemoteAction::Rebase,
            Mode::Push => RemoteAction::Push { force: false },
        }
    }

    /// Whether the operation pushes.
    pub fn is_push(&self) -> (r: bool)
        ensures
            r == (self is Push),
    {
        matches!(self, RemoteAction::Push { .. })
    }
}

} // verus!
