//! One repository in the list: its snapshot, and what is being done with it.

use vstd::prelude::*;
use vstd::string::*;

use crate::chars::{
    blank, cat2, cat3, cat4, is_blank, lemma_replaced_is_gone, opt_text, replace_char, replaced,
};
use crate::error::{
    lower_case, says_conflict, says_rebase_conflict, tells_conflict, tells_rebase_conflict,
    AppError, Fault, Result,
};
use crate::git::command::{report, Report};
use crate::git::runner::RemoteAction;
use crate::git::status::{RepositorySnapshot, SnapshotModel};
use crate::mode::Mode;
use crate::numbers::{decimal, decimal_string};

verus! {

// ── Operation state ──────────────────────────────────────────────────────────

/// Where a `Queued` selection came from.
///
/// Distinguishing the two is what lets a mode change (`m`) clear the startup auto-selection, which
/// was computed for the previous mode and must not silently carry over, without discarding a
/// selection the user built deliberately with `Space` or `a`.
#[derive(Debug, Clone, Copy, PartialEq, Eq, Structural)]
pub enum QueueOrigin {
    /// Pre-selected by the startup fast-forward safety check.
    Auto,
    /// Selected by the user, via `Space` or `a` (queue-all).
    User,
}

/// Why an operation failed; decides the icon and the color of the row.
#[derive(Debug, Clone, Copy, PartialEq, Eq, Structural)]
pub enum FailKind {
    Generic,
    Credentials,
    ForcePush,
    Conflict,
    Network,
}

/// What is being done with a repository.
#[derive(Debug)]
pub enum RepoOpState {
    Idle,
    Queued(QueueOrigin),
    Working,
    Success(String),
    Fail { message: String, kind: FailKind },
}

/// An operation state with its text as a sequence of characters.
pub enum OpModel {
    Idle,
    Queued(QueueOrigin),
    Working,
    Success(Seq<char>),
    Fail { message: Seq<char>, kind: FailKind },
}

impl View for RepoOpState {
    type V = OpModel;

    open spec fn view(&self) -> OpModel {
        match self {
            RepoOpState::Idle => OpModel::Idle,
            RepoOpState::Queued(o) => OpModel::Queued(*o),
            RepoOpState::Working => OpModel::Working,
            RepoOpState::Success(m) => OpModel::Success(m@),
            RepoOpState::Fail { message, kind } => OpModel::Fail { message: message@, kind: *kind },
        }
    }
}

impl Default for RepoOpState {
    fn default() -> (r: Self)
        ensures
            r is Idle,
    {
        RepoOpState::Idle
    }
}

impl OpModel {
    /// Whether an operation has ended, one way or the other.
    pub open spec fn has_result(self) -> bool {
        self is Success || self is Fail
    }

    /// The state after the selection was toggled. What is being worked on stays as it is.
    pub open spec fn toggled(self) -> OpModel {
        match self {
            OpModel::Queued(_) => OpModel::Idle,
            OpModel::Working => OpModel::Working,
            _ => OpModel::Queued(QueueOrigin::User),
        }
    }
}

impl RepoOpState {
    /// Whether an operation has ended, one way or the other.
    pub fn has_result(&self) -> (r: bool)
        ensures
            r == self@.has_result(),
    {
        matches!(self, RepoOpState::Success(_) | RepoOpState::Fail { .. })
    }
}

/// What kind of failure an error is, where `lower` is its message in lower case.
pub open spec fn failure_in(f: Fault, lower: Seq<char>) -> FailKind {
    if f.wants_credentials(lower) {
        FailKind::Credentials
    } else if says_conflict(lower) || says_rebase_conflict(lower) {
        FailKind::Conflict
    } else if f.blames_network(lower) {
        FailKind::Network
    } else {
        FailKind::Generic
    }
}

/// What kind of failure an error is.
pub open spec fn failure(f: Fault) -> FailKind {
    failure_in(f, lower_case(f.message()))
}

/// What kind of failure `e` is, where `lower` is its message in lower case.
pub fn fail_kind_in(e: &AppError, lower: &str) -> (r: FailKind)
    ensures
        r == failure_in(e@, lower@),
{
    if e.asks_for_credentials(lower) {
        FailKind::Credentials
    } else if tells_conflict(lower) || tells_rebase_conflict(lower) {
        FailKind::Conflict
    } else if e.points_to_network(lower) {
        FailKind::Network
    } else {
        FailKind::Generic
    }
}

/// Categorize a git error. A suggestion to force-push is specific to pushes, and overlaid by what
/// handles the result of a remote operation.
pub fn fail_kind(e: &AppError) -> (r: FailKind)
    ensures
        r == failure(e@),
{
    let lower = e.message().as_str().to_lowercase();
    fail_kind_in(e, lower.as_str())
}

/// A result as a one-line message; `fallback` for a success of which git said nothing.
pub open spec fn one_line(result: Report, fallback: Seq<char>) -> Seq<char> {
    match result {
        Ok(m) => if blank(m) {
            fallback
        } else {
            replaced(m, '\n', " | "@)
        },
        Err(e) => replaced(e.message(), '\n', " | "@),
    }
}

/// Flatten a git result into a one-line status message.
pub fn result_message(result: &Result<String>, ok_fallback: &str) -> (r: String)
    ensures
        r@ == one_line(report(*result), ok_fallback@),
{
    match result {
        Ok(m) => if is_blank(m.as_str()) {
            ok_fallback.to_owned()
        } else {
            replace_char(m.as_str(), '\n', " | ")
        },
        Err(e) => {
            let message = e.message();
            replace_char(message.as_str(), '\n', " | ")
        },
    }
}

/// A message is a single line, where the fallback is one.
pub proof fn lemma_message_is_one_line(result: Report, fallback: Seq<char>)
    requires
        !fallback.contains('\n'),
    ensures
        !one_line(result, fallback).contains('\n'),
{
    reveal_strlit(" | ");
    assert(!" | "@.contains('\n'));
    match result {
        Ok(m) => {
            lemma_replaced_is_gone(m, '\n', " | "@);
        },
        Err(e) => {
            lemma_replaced_is_gone(e.message(), '\n', " | "@);
        },
    }
}

/// The state that a result leads to, without credential or force-push flags.
pub open spec fn ended(result: Report, fallback: Seq<char>) -> OpModel {
    match result {
        Ok(_) => OpModel::Success(one_line(result, fallback)),
        Err(e) => OpModel::Fail { message: one_line(result, fallback), kind: failure(e) },
    }
}

/// Success or failure from a git result, without credential or force-push flags.
pub fn op_state_from_result(result: &Result<String>, ok_fallback: &str) -> (r: RepoOpState)
    ensures
        r@ == ended(report(*result), ok_fallback@),
{
    let message = result_message(result, ok_fallback);
    match result {
        Ok(_) => RepoOpState::Success(message),
        Err(e) => RepoOpState::Fail { message, kind: fail_kind(e) },
    }
}

// ── Repositories ─────────────────────────────────────────────────────────────

/// One repository in the list.
#[derive(Debug)]
pub struct RepoView {
    pub snapshot: RepositorySnapshot,
    pub state: RepoOpState,
    pub last_action: Option<RemoteAction>,
    /// True while a background `git fetch` is running for this repo at startup.
    pub fetching: bool,
    /// Whether incoming commits (if any) can be pulled without conflicts, per the fast-forward
    /// check. Irrelevant when `branch.behind == 0`.
    pub pull_safe: bool,
    /// Error message from the startup background fetch, if it failed. Shown as a muted marker so
    /// the repo isn't painted as a hard failure.
    pub fetch_error: Option<String>,
}

/// A repository with its texts as sequences of characters.
#[verifier::ext_equal]
pub struct RepoModel {
    pub snapshot: SnapshotModel,
    pub state: OpModel,
    pub last_action: Option<RemoteAction>,
    pub fetching: bool,
    pub pull_safe: bool,
    pub fetch_error: Option<Seq<char>>,
}

impl View for RepoView {
    type V = RepoModel;

    open spec fn view(&self) -> RepoModel {
        RepoModel {
            snapshot: self.snapshot@,
            state: self.state@,
            last_action: self.last_action,
            fetching: self.fetching,
            pull_safe: self.pull_safe,
            fetch_error: opt_text(self.fetch_error),
        }
    }
}

/// The commits that a branch is ahead and behind, as the list shows them: `↖ +3`, `↘ +2`, or
/// `↖+1 ↘+1` for a branch that has diverged.
pub open spec fn divergence(ahead: u32, behind: u32) -> Seq<char> {
    if ahead > 0 && behind > 0 {
        "↖+"@ + decimal(ahead as nat) + " ↘+"@ + decimal(behind as nat)
    } else if ahead > 0 {
        "↖ +"@ + decimal(ahead as nat)
    } else if behind > 0 {
        "↘ +"@ + decimal(behind as nat)
    } else {
        Seq::empty()
    }
}

/// The commits that a branch is ahead and behind, as the list shows them.
pub fn divergence_text(ahead: u32, behind: u32) -> (r: String)
    ensures
        r@ == divergence(ahead, behind),
{
    if ahead > 0 && behind > 0 {
        let a = decimal_string(ahead as u64);
        let b = decimal_string(behind as u64);
        cat4("↖+", a.as_str(), " ↘+", b.as_str())
    } else if ahead > 0 {
        let a = decimal_string(ahead as u64);
        cat2("↖ +", a.as_str())
    } else if behind > 0 {
        let b = decimal_string(behind as u64);
        cat2("↘ +", b.as_str())
    } else {
        String::new()
    }
}

impl RepoModel {
    /// A repository just loaded.
    pub open spec fn fresh(snapshot: SnapshotModel) -> RepoModel {
        RepoModel {
            snapshot,
            state: OpModel::Idle,
            last_action: None,
            fetching: false,
            pull_safe: true,
            fetch_error: None,
        }
    }

    /// Whether the repository is selected.
    pub open spec fn is_queued(self) -> bool {
        self.state is Queued
    }

    /// The branch as the list shows it: with the commits that it is ahead and behind, or marked
    /// `~` where it has no upstream.
    pub open spec fn branch_display(self) -> Seq<char> {
        let b = self.snapshot.branch;
        if b.ahead > 0 || b.behind > 0 {
            b.name + " "@ + divergence(b.ahead, b.behind)
        } else if b.no_upstream {
            b.name + " ~"@
        } else {
            b.name
        }
    }

    /// Whether the repository has an upstream and commits that `mode` would move.
    pub open spec fn relevant(self, mode: Mode) -> bool {
        let b = self.snapshot.branch;
        &&& !b.no_upstream
        &&& !b.detached
        &&& if mode == Mode::Push {
            b.ahead > 0
        } else {
            b.behind > 0
        }
    }
}

impl RepoView {
    /// A repository just loaded.
    pub fn new(snapshot: RepositorySnapshot) -> (r: Self)
        ensures
            r@ == RepoModel::fresh(snapshot@),
    {
        RepoView {
            snapshot,
            state: RepoOpState::Idle,
            last_action: None,
            fetching: false,
            pull_safe: true,
            fetch_error: None,
        }
    }

    /// Whether the repository is selected.
    pub fn is_queued(&self) -> (r: bool)
        ensures
            r == self@.is_queued(),
    {
        matches!(self.state, RepoOpState::Queued(_))
    }

    /// Select the repository, or deselect it. Nothing happens while it is being worked on.
    pub fn toggle_queue(&mut self)
        ensures
            final(self)@ == (RepoModel { state: old(self)@.state.toggled(), ..old(self)@ }),
    {
        let next = match &self.state {
            RepoOpState::Queued(_) => RepoOpState::Idle,
            RepoOpState::Working => RepoOpState::Working,
            _ => RepoOpState::Queued(QueueOrigin::User),
        };
        self.state = next;
    }

    /// The branch as the list shows it: with the commits that it is ahead and behind, or marked
    /// `~` where it has no upstream.
    pub fn branch_display(&self) -> (r: String)
        ensures
            r@ == self@.branch_display(),
    {
        let b = &self.snapshot.branch;
        if b.ahead > 0 || b.behind > 0 {
            let d = divergence_text(b.ahead, b.behind);
            cat3(b.name.as_str(), " ", d.as_str())
        } else if b.no_upstream {
            cat2(b.name.as_str(), " ~")
        } else {
            b.name.clone()
        }
    }
}

/// Whether `repo` has an upstream and a commit count relevant to `mode` (ahead for Push, behind
/// for every pull-like mode). Deliberately ignores dirty and conflict state: callers that care
/// check that themselves.
pub fn mode_has_relevant_commits(repo: &RepoView, mode: Mode) -> (r: bool)
    ensures
        r == repo@.relevant(mode),
{
    let b = &repo.snapshot.branch;
    if b.no_upstream || b.detached {
        return false;
    }
    match mode {
        Mode::Push => b.ahead > 0,
        Mode::Pull | Mode::Merge | Mode::Rebase | Mode::Fetch => b.behind > 0,
    }
}

/// Whether `mode` updates the remote (pushes refs there), as opposed to only reading from it and
/// writing locally.
pub fn mode_writes_to_remote(mode: Mode) -> (r: bool)
    ensures
        r == (mode == Mode::Push),
{
    matches!(mode, Mode::Push)
}

/// Toggling twice leaves a selected or idle repository as it was, up to where the selection came
/// from; a finished one becomes idle.
pub proof fn lemma_toggle_twice(state: OpModel)
    ensures
        state is Idle ==> state.toggled().toggled() == state,
        state == OpModel::Queued(QueueOrigin::User) ==> state.toggled().toggled() == state,
        state is Queued ==> state.toggled().toggled() is Queued,
        state is Working ==> state.toggled() == state,
        state.has_result() ==> state.toggled().toggled() is Idle,
{
}

} // verus!
