//! Local operations, and the dialogs for credentials and for confirmation.

use vstd::prelude::*;
use vstd::string::*;

use crate::chars::{cat3, char_count, copy_opt, opt_text, texts, trim, trimmed};
use crate::git::command::plain_command;
use crate::git::runner::{remote_and_branch, stash_args, GitRunner, RemoteAction};
use crate::git::task::{checkout_task, Task, TaskModel};
use crate::mode::Mode;
use crate::numbers::{decimal, decimal_usize};
use crate::tui::key::KeyCode;

verus! {

// ── Local operations ─────────────────────────────────────────────────────────

/// An operation that does not reach out to a remote on its own account.
#[derive(Debug)]
pub enum LocalAction {
    Commit(String),
    CreateBranch(String),
    Checkout(String),
    CheckoutRemote(String),
    DeleteBranch(String),
    ForceDeleteBranch(String),
    DeleteRemoteBranch(String),
    StashPush(Option<String>),
    StashPop,
    StashDrop,
    ResetUpstream { hard: bool },
    SetUpstream { remote: String, branch: String },
}

/// A local operation with its texts as sequences of characters.
pub enum LocalModel {
    Commit(Seq<char>),
    CreateBranch(Seq<char>),
    Checkout(Seq<char>),
    CheckoutRemote(Seq<char>),
    DeleteBranch(Seq<char>),
    ForceDeleteBranch(Seq<char>),
    DeleteRemoteBranch(Seq<char>),
    StashPush(Option<Seq<char>>),
    StashPop,
    StashDrop,
    ResetUpstream { hard: bool },
    SetUpstream { remote: Seq<char>, branch: Seq<char> },
}

impl View for LocalAction {
    type V = LocalModel;

    open spec fn view(&self) -> LocalModel {
        match self {
            LocalAction::Commit(s) => LocalModel::Commit(s@),
            LocalAction::CreateBranch(s) => LocalModel::CreateBranch(s@),
            LocalAction::Checkout(s) => LocalModel::Checkout(s@),
            LocalAction::CheckoutRemote(s) => LocalModel::CheckoutRemote(s@),
            LocalAction::DeleteBranch(s) => LocalModel::DeleteBranch(s@),
            LocalAction::ForceDeleteBranch(s) => LocalModel::ForceDeleteBranch(s@),
            LocalAction::DeleteRemoteBranch(s) => LocalModel::DeleteRemoteBranch(s@),
            LocalAction::StashPush(o) => LocalModel::StashPush(opt_text(*o)),
            LocalAction::StashPop => LocalModel::StashPop,
            LocalAction::StashDrop => LocalModel::StashDrop,
            LocalAction::ResetUpstream { hard } => LocalModel::ResetUpstream { hard: *hard },
            LocalAction::SetUpstream { remote, branch } => LocalModel::SetUpstream {
                remote: remote@,
                branch: branch@,
            },
        }
    }
}

impl Clone for LocalAction {
    fn clone(&self) -> (r: Self)
        ensures
            r@ == self@,
    {
        match self {
            LocalAction::Commit(s) => LocalAction::Commit(s.clone()),
            LocalAction::CreateBranch(s) => LocalAction::CreateBranch(s.clone()),
            LocalAction::Checkout(s) => LocalAction::Checkout(s.clone()),
            LocalAction::CheckoutRemote(s) => LocalAction::CheckoutRemote(s.clone()),
            LocalAction::DeleteBranch(s) => LocalAction::DeleteBranch(s.clone()),
            LocalAction::ForceDeleteBranch(s) => LocalAction::ForceDeleteBranch(s.clone()),
            LocalAction::DeleteRemoteBranch(s) => LocalAction::DeleteRemoteBranch(s.clone()),
            LocalAction::StashPush(o) => LocalAction::StashPush(copy_opt(o)),
            LocalAction::StashPop => LocalAction::StashPop,
            LocalAction::StashDrop => LocalAction::StashDrop,
            LocalAction::ResetUpstream { hard } => LocalAction::ResetUpstream { hard: *hard },
            LocalAction::SetUpstream { remote, branch } => LocalAction::SetUpstream {
                remote: remote.clone(),
                branch: branch.clone(),
            },
        }
    }
}

impl LocalModel {
    /// What the operation is called.
    pub open spec fn label(self) -> Seq<char> {
        match self {
            LocalModel::Commit(_) => "commit"@,
            LocalModel::CreateBranch(_) => "new branch"@,
            LocalModel::Checkout(_) => "checkout"@,
            LocalModel::CheckoutRemote(_) => "checkout remote"@,
            LocalModel::DeleteBranch(_) => "delete branch"@,
            LocalModel::ForceDeleteBranch(_) => "force delete branch"@,
            LocalModel::DeleteRemoteBranch(_) => "delete remote branch"@,
            LocalModel::StashPush(_) => "stash push"@,
            LocalModel::StashPop => "stash pop"@,
            LocalModel::StashDrop => "stash drop"@,
            LocalModel::ResetUpstream { hard } => if hard {
                "hard reset"@
            } else {
                "reset to upstream"@
            },
            LocalModel::SetUpstream { remote, branch } => "set upstream"@,
        }
    }

    /// The task that carries the operation out in `dir`.
    pub open spec fn task(self, dir: Seq<char>) -> TaskModel {
        match self {
            LocalModel::Commit(message) => TaskModel::CommitAdd { dir, message },
            LocalModel::CreateBranch(name) => TaskModel::Last(
                plain_command(dir, seq!["checkout"@, "-b"@, name]),
            ),
            LocalModel::Checkout(name) => TaskModel::Last(
                plain_command(dir, seq!["checkout"@, name]),
            ),
            LocalModel::CheckoutRemote(name) => checkout_task(dir, name),
            LocalModel::DeleteBranch(name) => TaskModel::Last(
                plain_command(dir, seq!["branch"@, "-d"@, name]),
            ),
            LocalModel::ForceDeleteBranch(name) => TaskModel::Last(
                plain_command(dir, seq!["branch"@, "-D"@, name]),
            ),
            LocalModel::DeleteRemoteBranch(name) => TaskModel::Last(
                plain_command(
                    dir,
                    seq!["push"@, remote_and_branch(name).0, "--delete"@, remote_and_branch(name).1],
                ),
            ),
            LocalModel::StashPush(message) => TaskModel::Last(
                plain_command(dir, stash_args(seq!["stash"@, "push"@], message)),
            ),
            LocalModel::StashPop => TaskModel::Last(plain_command(dir, seq!["stash"@, "pop"@])),
            LocalModel::StashDrop => TaskModel::Last(plain_command(dir, seq!["stash"@, "drop"@])),
            LocalModel::ResetUpstream { hard } => TaskModel::Last(
                plain_command(
                    dir,
                    seq![
                        "reset"@,
                        if hard {
                            "--hard"@
                        } else {
                            "--mixed"@
                        },
                        "@{upstream}"@,
                    ],
                ),
            ),
            LocalModel::SetUpstream { remote, branch } => TaskModel::Last(
                plain_command(dir, seq!["branch"@, "-u"@, remote + "/"@ + branch]),
            ),
        }
    }
}

impl LocalAction {
    /// What the operation is called.
    pub fn label(&self) -> (r: &'static str)
        ensures
            r@ == self@.label(),
    {
        match self {
            LocalAction::Commit(_) => "commit",
            LocalAction::CreateBranch(_) => "new branch",
            LocalAction::Checkout(_) => "checkout",
            LocalAction::CheckoutRemote(_) => "checkout remote",
            LocalAction::DeleteBranch(_) => "delete branch",
            LocalAction::ForceDeleteBranch(_) => "force delete branch",
            LocalAction::DeleteRemoteBranch(_) => "delete remote branch",
            LocalAction::StashPush(_) => "stash push",
            LocalAction::StashPop => "stash pop",
            LocalAction::StashDrop => "stash drop",
            LocalAction::ResetUpstream { hard } => if *hard {
                "hard reset"
            } else {
                "reset to upstream"
            },
            LocalAction::SetUpstream { remote, branch } => "set upstream",
        }
    }

    /// The task that carries the operation out in `dir`.
    pub fn task(&self, runner: &GitRunner, dir: &str) -> (r: Task)
        ensures
            r@ == self@.task(dir@),
    {
        match self {
            LocalAction::Commit(message) => runner.commit_all(dir, message.as_str()),
            LocalAction::CreateBranch(name) => Task::Last(
                runner.create_branch(dir, name.as_str()),
            ),
            LocalAction::Checkout(name) => Task::Last(
                runner.checkout_reference(dir, name.as_str()),
            ),
            LocalAction::CheckoutRemote(name) => runner.checkout_remote_branch(dir, name.as_str()),
            LocalAction::DeleteBranch(name) => Task::Last(
                runner.delete_local_branch(dir, name.as_str()),
            ),
            LocalAction::ForceDeleteBranch(name) => Task::Last(
                runner.force_delete_local_branch(dir, name.as_str()),
            ),
            LocalAction::DeleteRemoteBranch(name) => Task::Last(
                runner.delete_remote_branch(dir, name.as_str()),
            ),
            LocalAction::StashPush(message) => match message {
                Some(m) => Task::Last(runner.stash_push(dir, Some(m.as_str()))),
                None => Task::Last(runner.stash_push(dir, None)),
            },
            LocalAction::StashPop => Task::Last(runner.stash_pop(dir)),
            LocalAction::StashDrop => Task::Last(runner.stash_drop(dir)),
            LocalAction::ResetUpstream { hard } => if *hard {
                Task::Last(runner.hard_reset_to_upstream(dir))
            } else {
                Task::Last(runner.reset_to_upstream(dir))
            },
            LocalAction::SetUpstream { remote, branch } => Task::Last(
                runner.set_upstream(dir, remote.as_str(), branch.as_str()),
            ),
        }
    }
}

// ── Credentials ──────────────────────────────────────────────────────────────

/// The field of the credentials dialog that is being edited.
#[derive(Debug, Clone, Copy, PartialEq, Eq, Structural)]
pub enum CredentialField {
    Username,
    Password,
}

/// The credentials dialog.
#[derive(Debug)]
pub struct AuthPromptState {
    pub repo_path: String,
    pub repo_name: Option<String>,
    pub action: RemoteAction,
    pub username: String,
    pub password: String,
    pub input: String,
    pub field: CredentialField,
}

/// A credentials dialog with its texts as sequences of characters.
#[verifier::ext_equal]
pub struct AuthModel {
    pub repo_path: Seq<char>,
    pub repo_name: Option<Seq<char>>,
    pub action: RemoteAction,
    pub username: Seq<char>,
    pub password: Seq<char>,
    pub input: Seq<char>,
    pub field: CredentialField,
}

impl View for AuthPromptState {
    type V = AuthModel;

    open spec fn view(&self) -> AuthModel {
        AuthModel {
            repo_path: self.repo_path@,
            repo_name: opt_text(self.repo_name),
            action: self.action,
            username: self.username@,
            password: self.password@,
            input: self.input@,
            field: self.field,
        }
    }
}

impl AuthModel {
    /// A dialog with nothing in it.
    pub open spec fn opened(
        repo_path: Seq<char>,
        repo_name: Option<Seq<char>>,
        action: RemoteAction,
    ) -> AuthModel {
        AuthModel {
            repo_path,
            repo_name,
            action,
            username: Seq::empty(),
            password: Seq::empty(),
            input: Seq::empty(),
            field: CredentialField::Username,
        }
    }

    /// With the user name taken from the input, and the password to be entered.
    pub open spec fn at_password(self) -> AuthModel {
        AuthModel {
            username: trimmed(self.input),
            field: CredentialField::Password,
            input: Seq::empty(),
            ..self
        }
    }

    /// The dialog after a key that edits it.
    pub open spec fn after_key(self, code: KeyCode) -> AuthModel {
        match code {
            KeyCode::Tab => match self.field {
                CredentialField::Username => self.at_password(),
                CredentialField::Password => AuthModel {
                    password: self.input,
                    field: CredentialField::Username,
                    input: self.username,
                    ..self
                },
            },
            KeyCode::Backspace => AuthModel {
                input: if self.input.len() > 0 {
                    self.input.drop_last()
                } else {
                    self.input
                },
                ..self
            },
            KeyCode::Char(c) => AuthModel { input: self.input.push(c), ..self },
            _ => self,
        }
    }
}

impl AuthPromptState {
    /// A dialog with nothing in it.
    pub fn open(repo_path: String, repo_name: Option<String>, action: RemoteAction) -> (r: Self)
        ensures
            r@ == AuthModel::opened(repo_path@, opt_text(repo_name), action),
    {
        AuthPromptState {
            repo_path,
            repo_name,
            action,
            username: String::new(),
            password: String::new(),
            input: String::new(),
            field: CredentialField::Username,
        }
    }

    /// Takes the user name from the input, and goes on to the password.
    pub fn to_password(&mut self)
        ensures
            final(self)@ == old(self)@.at_password(),
    {
        self.username = trim(self.input.as_str()).to_owned();
        self.field = CredentialField::Password;
        self.input = String::new();
    }

    /// Handles a key that edits the dialog.
    pub fn key(&mut self, code: KeyCode)
        ensures
            final(self)@ == old(self)@.after_key(code),
    {
        match code {
            KeyCode::Tab => match self.field {
                CredentialField::Username => self.to_password(),
                CredentialField::Password => {
                    self.password = self.input.clone();
                    self.field = CredentialField::Username;
                    self.input = self.username.clone();
                },
            },
            KeyCode::Backspace => {
                let n = char_count(self.input.as_str());
                if n > 0 {
                    let rest = self.input.as_str().substring_char(0, n - 1).to_owned();
                    proof {
                        assert(rest@ =~= self.input@.drop_last());
                    }
                    self.input = rest;
                }
            },
            KeyCode::Char(c) => {
                self.input.push(c);
            },
            _ => {},
        }
    }
}

// ── Confirmation ─────────────────────────────────────────────────────────────

/// What a confirm dialog executes when the user accepts it.
#[derive(Debug)]
pub enum ConfirmAction {
    ForcePush { path: String },
    StashDrop { paths: Vec<String> },
    DeleteBranch { name: String, paths: Vec<String> },
    ForceDeleteBranch { name: String, paths: Vec<String> },
    DeleteRemoteBranch { name: String, paths: Vec<String> },
    /// y or Enter is a mixed reset (keeps the working tree); H a hard reset.
    ResetToUpstream { paths: Vec<String> },
    /// A mode that writes to the remote, run over more than one repo: gated behind a confirmation
    /// so that a batch is never applied to remotes without the user seeing the count first.
    RunMode { mode: Mode, paths: Vec<String> },
}

/// An action with its texts as sequences of characters.
pub enum ConfirmActionModel {
    ForcePush { path: Seq<char> },
    StashDrop { paths: Seq<Seq<char>> },
    DeleteBranch { name: Seq<char>, paths: Seq<Seq<char>> },
    ForceDeleteBranch { name: Seq<char>, paths: Seq<Seq<char>> },
    DeleteRemoteBranch { name: Seq<char>, paths: Seq<Seq<char>> },
    ResetToUpstream { paths: Seq<Seq<char>> },
    RunMode { mode: Mode, paths: Seq<Seq<char>> },
}

impl View for ConfirmAction {
    type V = ConfirmActionModel;

    open spec fn view(&self) -> ConfirmActionModel {
        match self {
            ConfirmAction::ForcePush { path } => ConfirmActionModel::ForcePush { path: path@ },
            ConfirmAction::StashDrop { paths } => ConfirmActionModel::StashDrop {
                paths: texts(paths@),
            },
            ConfirmAction::DeleteBranch { name, paths } => ConfirmActionModel::DeleteBranch {
                name: name@,
                paths: texts(paths@),
            },
            ConfirmAction::ForceDeleteBranch { name, paths } =>
                ConfirmActionModel::ForceDeleteBranch { name: name@, paths: texts(paths@) },
            ConfirmAction::DeleteRemoteBranch { name, paths } =>
                ConfirmActionModel::DeleteRemoteBranch { name: name@, paths: texts(paths@) },
            ConfirmAction::ResetToUpstream { paths } => ConfirmActionModel::ResetToUpstream {
                paths: texts(paths@),
            },
            ConfirmAction::RunMode { mode, paths } => ConfirmActionModel::RunMode {
                mode: *mode,
                paths: texts(paths@),
            },
        }
    }
}

/// A confirm dialog.
#[derive(Debug)]
pub struct ConfirmPromptState {
    pub title: &'static str,
    /// Bold first line: repo name, or "'branch' in N repos".
    pub subject: String,
    /// Red warning line describing the irreversible consequence.
    pub warning: String,
    pub action: ConfirmAction,
}

/// A confirm dialog with its texts as sequences of characters.
#[verifier::ext_equal]
pub struct ConfirmModel {
    pub title: Seq<char>,
    pub subject: Seq<char>,
    pub warning: Seq<char>,
    pub action: ConfirmActionModel,
}

impl View for ConfirmPromptState {
    type V = ConfirmModel;

    open spec fn view(&self) -> ConfirmModel {
        ConfirmModel {
            title: self.title@,
            subject: self.subject@,
            warning: self.warning@,
            action: self.action@,
        }
    }
}

/// The title of the dialog that confirms a mode.
pub open spec fn mode_question(mode: Mode) -> Seq<char> {
    match mode {
        Mode::Fetch => "Fetch?"@,
        Mode::Pull => "Pull?"@,
        Mode::Merge => "Merge?"@,
        Mode::Rebase => "Rebase?"@,
        Mode::Push => "Push?"@,
    }
}

/// What the dialog that confirms a mode says it is about.
pub open spec fn mode_scope(mode: Mode, count: nat) -> Seq<char> {
    match mode {
        Mode::Push => "Push to "@ + decimal(count) + " remotes"@,
        Mode::Fetch => "Fetch "@ + decimal(count) + " repositories"@,
        Mode::Pull => "Pull "@ + decimal(count) + " repositories"@,
        Mode::Merge => "Merge "@ + decimal(count) + " repositories"@,
        Mode::Rebase => "Rebase "@ + decimal(count) + " repositories"@,
    }
}

/// What the dialog that confirms a mode warns of.
pub open spec fn mode_warning(mode: Mode) -> Seq<char> {
    match mode {
        Mode::Fetch => "Read-only, but reaches out to every remote below."@,
        Mode::Pull => "Fast-forwards every repo below from its remote."@,
        Mode::Merge => "Merges the upstream branch into every repo below."@,
        Mode::Rebase => "Rewrites local history in every repo below."@,
        Mode::Push => "Pushes local commits to every remote below."@,
    }
}

/// The title of the dialog that confirms a mode.
pub fn confirm_title_for_mode(mode: Mode) -> (r: &'static str)
    ensures
        r@ == mode_question(mode),
{
    match mode {
        Mode::Fetch => "Fetch?",
        Mode::Pull => "Pull?",
        Mode::Merge => "Merge?",
        Mode::Rebase => "Rebase?",
        Mode::Push => "Push?",
    }
}

/// What the dialog that confirms a mode says it is about.
pub fn confirm_subject_for_mode(mode: Mode, count: usize) -> (r: String)
    ensures
        r@ == mode_scope(mode, count as nat),
{
    let n = decimal_usize(count);
    match mode {
        Mode::Push => cat3("Push to ", n.as_str(), " remotes"),
        Mode::Fetch => cat3("Fetch ", n.as_str(), " repositories"),
        Mode::Pull => cat3("Pull ", n.as_str(), " repositories"),
        Mode::Merge => cat3("Merge ", n.as_str(), " repositories"),
        Mode::Rebase => cat3("Rebase ", n.as_str(), " repositories"),
    }
}

/// What the dialog that confirms a mode warns of.
pub fn confirm_warning_for_mode(mode: Mode) -> (r: String)
    ensures
        r@ == mode_warning(mode),
{
    match mode {
        Mode::Fetch => "Read-only, but reaches out to every remote below.".to_owned(),
        Mode::Pull => "Fast-forwards every repo below from its remote.".to_owned(),
        Mode::Merge => "Merges the upstream branch into every repo below.".to_owned(),
        Mode::Rebase => "Rewrites local history in every repo below.".to_owned(),
        Mode::Push => "Pushes local commits to every remote below.".to_owned(),
    }
}

/// What a remote action is called.
pub open spec fn action_name(action: RemoteAction) -> Seq<char> {
    match action {
        RemoteAction::Fetch => "fetch"@,
        RemoteAction::PullFfOnly => "pull (ff-only)"@,
        RemoteAction::Merge => "merge"@,
        RemoteAction::Rebase => "rebase"@,
        RemoteAction::Push { force } => if force {
            "force push"@
        } else {
            "push"@
        },
    }
}

/// What a remote action is called.
pub fn display_action(action: &RemoteAction) -> (r: &'static str)
    ensures
        r@ == action_name(*action),
{
    match action {
        RemoteAction::Fetch => "fetch",
        RemoteAction::PullFfOnly => "pull (ff-only)",
        RemoteAction::Merge => "merge",
        RemoteAction::Rebase => "rebase",
        RemoteAction::Push { force } => if *force {
            "force push"
        } else {
            "push"
        },
    }
}

} // verus!
