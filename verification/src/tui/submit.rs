//! What submitted prompts and accepted dialogs do.

use vstd::prelude::*;
use vstd::string::*;

use crate::chars::{
    blank, cat2, cat3, halves, is_blank, opt_text, same_text, split_once, texts, trim, trimmed,
};
use crate::git::command::{Credentials, CredentialsModel};
use crate::git::runner::RemoteAction;
use crate::numbers::{decimal, decimal_usize};
use crate::tui::app::{place, App, AppModel, Effect, EffectModel, Keep};
use crate::tui::dialog::{
    AuthModel, AuthPromptState, ConfirmAction, ConfirmActionModel, ConfirmModel,
    ConfirmPromptState, CredentialField, LocalAction, LocalModel,
};
use crate::tui::key::KeyCode;
use crate::tui::panel::PanelKind;
use crate::tui::prompt::{CommitField, PromptKind, PromptModel, PromptState};
use crate::tui::repo::{FailKind, OpModel, RepoOpState};
use crate::tui::text::{branch_name, parse_branch_name, remote_short_ref, short_ref};
use crate::tui::worktree::{default_worktree_path, worktree_path, WorktreeOp, WorktreeOpModel};

verus! {

// ── Prompts ──────────────────────────────────────────────────────────────────

impl AppModel {
    /// With a prompt.
    pub open spec fn prompting(self, kind: PromptKind, value: Seq<char>) -> AppModel {
        AppModel { prompt: Some(PromptModel::opened(kind, value)), ..self }
    }

    /// The path that a new worktree on the branch `input` goes to unless another one is entered: a
    /// sibling of the selected one. There is none while no branch is entered.
    pub open spec fn prefill(self, input: Seq<char>) -> Seq<char> {
        match self.current_path() {
            Some(path) => if trimmed(input).len() == 0 {
                Seq::empty()
            } else {
                worktree_path(path, trimmed(input))
            },
            None => Seq::empty(),
        }
    }

    /// The prompt `after` an edit of `before`: the path of a new worktree follows its branch as the
    /// branch is typed, as long as no other path was entered.
    pub open spec fn path_filled(self, before: PromptModel, after: PromptModel) -> PromptModel {
        if before.kind == PromptKind::WorktreeBranch && !before.in_second() && before.description
            == self.prefill(before.input) {
            PromptModel { description: self.prefill(after.input), ..after }
        } else {
            after
        }
    }

    /// With an operation started on each of `paths`, and no panel; unchanged where there are none.
    pub open spec fn fanned_out(self, paths: Seq<Seq<char>>, action: LocalModel) -> AppModel {
        if paths.len() == 0 {
            self
        } else {
            AppModel { panel: None, ..self.with_locals(paths, action) }
        }
    }

    /// The branch that the repository at `path` is to track: the given one, or else one named like
    /// the branch that it is on.
    pub open spec fn upstream_branch(self, path: Seq<char>, fixed: Option<Seq<char>>) -> Option<
        Seq<char>,
    > {
        match fixed {
            Some(branch) => Some(branch),
            None => match place(self.repos, path) {
                Some(i) => Some(self.repos[i].snapshot.branch.name),
                None => None,
            },
        }
    }

    /// With an upstream being set for each of `paths`, one after the other.
    pub open spec fn with_upstreams(
        self,
        paths: Seq<Seq<char>>,
        remote: Seq<char>,
        fixed: Option<Seq<char>>,
    ) -> AppModel
        decreases paths.len(),
    {
        if paths.len() == 0 {
            self
        } else {
            let s = self.with_upstreams(paths.drop_last(), remote, fixed);
            match s.upstream_branch(paths.last(), fixed) {
                Some(branch) => s.with_local(
                    paths.last(),
                    LocalModel::SetUpstream { remote, branch },
                ),
                None => s,
            }
        }
    }

    /// After a prompt was submitted. What is submitted empty does nothing, but for a stash, whose
    /// message is optional. A new worktree goes to the path that was entered.
    pub open spec fn submitted(self, p: PromptModel) -> AppModel {
        let input = trimmed(p.input);
        if input.len() == 0 && p.kind != PromptKind::Stash {
            self
        } else {
            match p.kind {
                PromptKind::Commit => self.fanned_out(
                    self.targets(Keep::Dirty),
                    LocalModel::Commit(commit_message(input, trimmed(p.description))),
                ),
                PromptKind::Branch => self.fanned_out(
                    self.targets(Keep::All),
                    LocalModel::CreateBranch(input),
                ),
                PromptKind::Stash => self.fanned_out(
                    self.targets(Keep::Dirty),
                    LocalModel::StashPush(
                        if input.len() == 0 {
                            None
                        } else {
                            Some(input)
                        },
                    ),
                ),
                PromptKind::CheckoutBranch => self.fanned_out(
                    self.targets(Keep::All),
                    LocalModel::Checkout(input),
                ),
                PromptKind::DeleteBranch => self.fanned_out(
                    self.targets(Keep::All),
                    LocalModel::DeleteBranch(input),
                ),
                PromptKind::ForceDeleteBranch => self.fanned_out(
                    self.targets(Keep::All),
                    LocalModel::ForceDeleteBranch(input),
                ),
                PromptKind::CheckoutRemoteBranch => self.fanned_out(
                    self.targets(Keep::All),
                    LocalModel::CheckoutRemote(input),
                ),
                PromptKind::DeleteRemoteBranch => self.fanned_out(
                    self.targets(Keep::All),
                    LocalModel::DeleteRemoteBranch(input),
                ),
                PromptKind::SetUpstream => match halves(input, '/') {
                    Some((remote, branch)) => self.with_upstreams(
                        self.targets(Keep::All),
                        remote,
                        Some(branch),
                    ),
                    None => self.with_upstreams(self.targets(Keep::All), input, None),
                },
                PromptKind::WorktreeBranch => if blank(p.description) {
                    self
                } else {
                    self.with_worktree_op(
                        WorktreeOpModel::Add { dest: p.description, branch: input },
                    )
                },
            }
        }
    }
}

/// A commit message of a summary and a description.
pub open spec fn commit_message(summary: Seq<char>, description: Seq<char>) -> Seq<char> {
    if description.len() == 0 {
        summary
    } else {
        summary + "\n\n"@ + description
    }
}

impl App {
    /// Opens an empty prompt.
    pub fn show_prompt(&mut self, kind: PromptKind)
        ensures
            final(self)@ == old(self)@.prompting(kind, Seq::empty()),
            final(self).wf(),
    {
        self.show_prompt_prefilled(kind, String::new());
    }

    /// Opens a prompt with `value` in it.
    pub fn show_prompt_prefilled(&mut self, kind: PromptKind, value: String)
        ensures
            final(self)@ == old(self)@.prompting(kind, value@),
            final(self).wf(),
    {
        self.prompt = Some(PromptState::open(kind, value));
    }

    /// The path that a new worktree on the branch `input` goes to unless another one is entered.
    pub fn prefilled_path(&self, input: &str) -> (r: String)
        ensures
            r@ == self@.prefill(input@),
    {
        let branch = trim(input);
        match self.current_path() {
            Some(path) => if branch.is_empty() {
                String::new()
            } else {
                default_worktree_path(path.as_str(), branch)
            },
            None => String::new(),
        }
    }

    /// Whether an edit of `prompt` is to fill in the path of a new worktree: its branch is being
    /// edited, and no other path was entered.
    pub fn fills_path(&self, prompt: &PromptState) -> (r: bool)
        ensures
            r == (prompt@.kind == PromptKind::WorktreeBranch && !prompt@.in_second()
                && prompt@.description == self@.prefill(prompt@.input)),
    {
        if !matches!(prompt.kind, PromptKind::WorktreeBranch) || matches!(
            prompt.commit_field,
            CommitField::Description
        ) {
            return false;
        }
        let path = self.prefilled_path(prompt.input.as_str());
        same_text(prompt.description.as_str(), path.as_str())
    }

    /// Starts an operation on each of `paths`, and closes the panel; does nothing where there are
    /// none.
    fn fan_out(&mut self, paths: &Vec<String>, action: &LocalAction)
        ensures
            final(self)@ == old(self)@.fanned_out(texts(paths@), action@),
            old(self).wf() ==> final(self).wf(),
    {
        if paths.len() == 0 {
            return;
        }
        self.spawn_local_ops(paths, action);
        self.panel = None;
    }

    /// Sets an upstream for each of `paths`: the given branch of `remote`, or one named like the
    /// branch that the repository is on.
    fn set_upstreams(&mut self, paths: &Vec<String>, remote: &str, fixed: &Option<String>)
        ensures
            final(self)@ == old(self)@.with_upstreams(texts(paths@), remote@, opt_text(*fixed)),
            old(self).wf() ==> final(self).wf(),
    {
        let ghost before = self@;
        let ghost all = texts(paths@);
        proof {
            assert(all.take(0) =~= Seq::<Seq<char>>::empty());
        }
        for i in 0..paths.len()
            invariant
                all == texts(paths@),
                self@ == before.with_upstreams(all.take(i as int), remote@, opt_text(*fixed)),
                old(self).wf() ==> self.wf(),
        {
            proof {
                assert(all.take(i + 1).drop_last() =~= all.take(i as int));
                assert(all.take(i + 1).last() == paths@[i as int]@);
            }
            let branch = match fixed {
                Some(b) => Some(b.clone()),
                None => match self.find_repo(paths[i].as_str()) {
                    Some(k) => Some(self.repos[k].snapshot.branch.name.clone()),
                    None => None,
                },
            };
            if let Some(branch) = branch {
                self.spawn_local_op(
                    paths[i].as_str(),
                    LocalAction::SetUpstream { remote: remote.to_owned(), branch },
                );
            }
        }
        proof {
            assert(all.take(all.len() as int) =~= all);
        }
    }

    /// Does what a submitted prompt asks for. Batchable actions fan out over all targets; worktree
    /// operations stay single.
    #[verifier::rlimit(40)]
    pub fn submit_prompt(&mut self, prompt: &PromptState)
        ensures
            final(self)@ == old(self)@.submitted(prompt@),
            old(self).wf() ==> final(self).wf(),
    {
        let input = trim(prompt.input.as_str()).to_owned();
        let empty = input.as_str().is_empty();
        if empty && !matches!(prompt.kind, PromptKind::Stash) {
            return;
        }
        match prompt.kind {
            PromptKind::Commit => {
                let desc = trim(prompt.description.as_str());
                let message = if desc.is_empty() {
                    input
                } else {
                    cat3(input.as_str(), "\n\n", desc)
                };
                let paths = self.target_paths_dirty();
                self.fan_out(&paths, &LocalAction::Commit(message));
            },
            PromptKind::Branch => {
                let paths = self.target_paths();
                self.fan_out(&paths, &LocalAction::CreateBranch(input));
            },
            PromptKind::Stash => {
                let message = if empty {
                    None
                } else {
                    Some(input)
                };
                let paths = self.target_paths_dirty();
                self.fan_out(&paths, &LocalAction::StashPush(message));
            },
            PromptKind::CheckoutBranch => {
                let paths = self.target_paths();
                self.fan_out(&paths, &LocalAction::Checkout(input));
            },
            PromptKind::DeleteBranch => {
                let paths = self.target_paths();
                self.fan_out(&paths, &LocalAction::DeleteBranch(input));
            },
            PromptKind::ForceDeleteBranch => {
                let paths = self.target_paths();
                self.fan_out(&paths, &LocalAction::ForceDeleteBranch(input));
            },
            PromptKind::CheckoutRemoteBranch => {
                let paths = self.target_paths();
                self.fan_out(&paths, &LocalAction::CheckoutRemote(input));
            },
            PromptKind::DeleteRemoteBranch => {
                let paths = self.target_paths();
                self.fan_out(&paths, &LocalAction::DeleteRemoteBranch(input));
            },
            PromptKind::SetUpstream => {
                // "origin" pairs each repo with its own current branch; "origin/main" sets the
                // same fixed target everywhere.
                let paths = self.target_paths();
                match split_once(input.as_str(), '/') {
                    Some((remote, branch)) => {
                        self.set_upstreams(&paths, remote, &Some(branch.to_owned()));
                    },
                    None => {
                        self.set_upstreams(&paths, input.as_str(), &None);
                    },
                }
            },
            PromptKind::WorktreeBranch => {
                if !is_blank(prompt.description.as_str()) {
                    let dest = prompt.description.clone();
                    self.spawn_worktree_op(WorktreeOp::Add { dest, branch: input });
                }
            },
        }
    }
}

// ── Credentials ──────────────────────────────────────────────────────────────

impl AppModel {
    /// After the credentials dialog `p` was submitted: on to the password, or on with the action.
    pub open spec fn auth_submitted(self, p: AuthModel) -> AppModel {
        match p.field {
            CredentialField::Username => AppModel { auth_prompt: Some(p.at_password()), ..self },
            CredentialField::Password => self.with_op(
                p.repo_path,
                p.action,
                Some(CredentialsModel { username: trimmed(p.username), password: p.input }),
            ).next_auth(),
        }
    }

    /// After the credentials dialog was cancelled: its repository has failed.
    pub open spec fn auth_cancelled(self) -> AppModel {
        match self.auth_prompt {
            Some(p) => self.with_state(
                place(self.repos, p.repo_path),
                OpModel::Fail {
                    message: "credentials cancelled"@,
                    kind: FailKind::Generic,
                },
            ).next_auth(),
            None => self.next_auth(),
        }
    }

    /// After a key in the credentials dialog.
    pub open spec fn after_auth_key(self, code: KeyCode) -> AppModel {
        match code {
            KeyCode::Esc => self.auth_cancelled(),
            KeyCode::Enter => match self.auth_prompt {
                Some(p) => self.auth_submitted(p),
                None => self,
            },
            _ => match self.auth_prompt {
                Some(p) => AppModel { auth_prompt: Some(p.after_key(code)), ..self },
                None => self,
            },
        }
    }
}

impl App {
    /// Submits the credentials dialog: goes on to the password, or on with the action.
    pub fn submit_auth_prompt(&mut self, prompt: AuthPromptState)
        ensures
            final(self)@ == old(self)@.auth_submitted(prompt@),
            old(self).wf() ==> final(self).wf(),
    {
        let mut prompt = prompt;
        if matches!(prompt.field, CredentialField::Username) {
            prompt.to_password();
            self.auth_prompt = Some(prompt);
            return;
        }
        let credentials = Credentials {
            username: trim(prompt.username.as_str()).to_owned(),
            password: prompt.input.clone(),
        };
        self.spawn_op_with_credentials(prompt.repo_path.as_str(), prompt.action, credentials);
        self.advance_auth_prompt();
    }

    /// Cancels the credentials dialog.
    pub fn cancel_auth_prompt(&mut self)
        ensures
            final(self)@ == old(self)@.auth_cancelled(),
            old(self).wf() ==> final(self).wf(),
    {
        let found = match &self.auth_prompt {
            Some(p) => self.find_repo(p.repo_path.as_str()),
            None => None,
        };
        let state = RepoOpState::Fail {
            message: "credentials cancelled".to_owned(),
            kind: FailKind::Generic,
        };
        self.set_state(found, state);
        self.advance_auth_prompt();
    }

    /// Handles a key in the credentials dialog.
    pub fn handle_auth_key(&mut self, code: KeyCode)
        ensures
            final(self)@ == old(self)@.after_auth_key(code),
            old(self).wf() ==> final(self).wf(),
    {
        match code {
            KeyCode::Esc => {
                self.cancel_auth_prompt();
            },
            KeyCode::Enter => {
                if let Some(prompt) = self.auth_prompt.take() {
                    self.submit_auth_prompt(prompt);
                }
            },
            _ => {
                if let Some(prompt) = self.auth_prompt.take() {
                    let mut prompt = prompt;
                    prompt.key(code);
                    self.auth_prompt = Some(prompt);
                }
            },
        }
    }
}

// ── Confirmation ─────────────────────────────────────────────────────────────

impl AppModel {
    /// With what a dialog confirms carried out.
    pub open spec fn carried_out(self, action: ConfirmActionModel, hard: bool) -> AppModel {
        match action {
            ConfirmActionModel::ForcePush { path } => self.with_op(
                path,
                RemoteAction::Push { force: true },
                None,
            ),
            ConfirmActionModel::StashDrop { paths } => self.with_locals(
                paths,
                LocalModel::StashDrop,
            ),
            ConfirmActionModel::DeleteBranch { name, paths } => self.with_locals(
                paths,
                LocalModel::DeleteBranch(name),
            ),
            ConfirmActionModel::ForceDeleteBranch { name, paths } => self.with_locals(
                paths,
                LocalModel::ForceDeleteBranch(name),
            ),
            ConfirmActionModel::DeleteRemoteBranch { name, paths } => self.with_locals(
                paths,
                LocalModel::DeleteRemoteBranch(name),
            ),
            ConfirmActionModel::ResetToUpstream { paths } => self.with_locals(
                paths,
                LocalModel::ResetUpstream { hard },
            ),
            ConfirmActionModel::RunMode { mode, paths } => self.with_ops(
                paths,
                RemoteAction::of_mode(mode),
            ),
        }
    }

    /// After the confirm dialog was accepted.
    pub open spec fn confirmed(self, hard: bool) -> AppModel {
        match self.confirm_prompt {
            Some(p) => self.next_confirm().carried_out(p.action, hard),
            None => self,
        }
    }

    /// After a key in the confirm dialog.
    pub open spec fn after_confirm_key(self, code: KeyCode) -> AppModel {
        match code {
            KeyCode::Esc => self.next_confirm(),
            KeyCode::Enter => self.confirmed(false),
            KeyCode::Char(c) => if c == 'n' || c == 'N' {
                self.next_confirm()
            } else if c == 'y' || c == 'Y' {
                self.confirmed(false)
            } else if c == 'H' && (self.confirm_prompt matches Some(p)
                && p.action is ResetToUpstream) {
                self.confirmed(true)
            } else {
                self
            },
            _ => self,
        }
    }

    /// What a confirm dialog on `paths` says it is about.
    pub open spec fn subject_of(self, paths: Seq<Seq<char>>) -> Seq<char> {
        if paths.len() == 1 {
            match self.repo_name(paths[0]) {
                Some(name) => name,
                None => "1 repo"@,
            }
        } else {
            decimal(paths.len()) + " repos"@
        }
    }
}

impl App {
    /// Carries out what the confirm dialog asks about.
    #[verifier::rlimit(40)]
    pub fn execute_confirm(&mut self, hard: bool)
        ensures
            final(self)@ == old(self)@.confirmed(hard),
            old(self).wf() ==> final(self).wf(),
    {
        let prompt = match self.confirm_prompt.take() {
            Some(p) => p,
            None => {
                return;
            },
        };
        self.dismiss_confirm();
        match prompt.action {
            ConfirmAction::ForcePush { path } => {
                self.spawn_op(path.as_str(), RemoteAction::Push { force: true });
            },
            ConfirmAction::StashDrop { paths } => {
                self.spawn_local_ops(&paths, &LocalAction::StashDrop);
            },
            ConfirmAction::DeleteBranch { name, paths } => {
                self.spawn_local_ops(&paths, &LocalAction::DeleteBranch(name));
            },
            ConfirmAction::ForceDeleteBranch { name, paths } => {
                self.spawn_local_ops(&paths, &LocalAction::ForceDeleteBranch(name));
            },
            ConfirmAction::DeleteRemoteBranch { name, paths } => {
                self.spawn_local_ops(&paths, &LocalAction::DeleteRemoteBranch(name));
            },
            ConfirmAction::ResetToUpstream { paths } => {
                self.spawn_local_ops(&paths, &LocalAction::ResetUpstream { hard });
            },
            ConfirmAction::RunMode { mode, paths } => {
                self.spawn_ops(&paths, RemoteAction::from_mode(mode));
            },
        }
    }

    /// Handles a key in the confirm dialog.
    #[verifier::spinoff_prover]
    #[verifier::rlimit(40)]
    pub fn handle_confirm_key(&mut self, code: KeyCode)
        ensures
            final(self)@ == old(self)@.after_confirm_key(code),
            old(self).wf() ==> final(self).wf(),
    {
        match code {
            KeyCode::Esc => self.dismiss_confirm(),
            KeyCode::Enter => self.execute_confirm(false),
            KeyCode::Char(c) => {
                if c == 'n' || c == 'N' {
                    self.dismiss_confirm();
                } else if c == 'y' || c == 'Y' {
                    self.execute_confirm(false);
                } else if c == 'H' {
                    let is_reset = match &self.confirm_prompt {
                        Some(p) => matches!(p.action, ConfirmAction::ResetToUpstream { .. }),
                        None => false,
                    };
                    if is_reset {
                        self.execute_confirm(true);
                    }
                }
            },
            _ => {},
        }
    }

    /// Subject line for a confirm dialog: the repo name, or the batch size.
    pub fn confirm_subject(&self, paths: &Vec<String>) -> (r: String)
        ensures
            r@ == self@.subject_of(texts(paths@)),
    {
        if paths.len() == 1 {
            proof {
                assert(texts(paths@)[0] == paths@[0]@);
            }
            match self.repo_name_for_path(paths[0].as_str()) {
                Some(name) => name,
                None => "1 repo".to_owned(),
            }
        } else {
            let n = decimal_usize(paths.len());
            cat2(n.as_str(), " repos")
        }
    }
}

// ── Panels ───────────────────────────────────────────────────────────────────

/// The dialog that confirms the deletion of a branch in several repositories.
pub open spec fn branch_dialog(
    title: Seq<char>,
    warning: Seq<char>,
    name: Seq<char>,
    count: nat,
    action: ConfirmActionModel,
) -> ConfirmModel {
    ConfirmModel {
        title,
        subject: "'"@ + name + "' in "@ + decimal(count) + " repos"@,
        warning,
        action,
    }
}

/// What a dialog on a branch in several repositories says it is about.
fn branch_subject(name: &str, count: usize) -> (r: String)
    ensures
        r@ == "'"@ + name@ + "' in "@ + decimal(count as nat) + " repos"@,
{
    let n = decimal_usize(count);
    let head = cat3("'", name, "' in ");
    cat3(head.as_str(), n.as_str(), " repos")
}

impl AppModel {
    /// The branch under the cursor of the panel.
    pub open spec fn selected_branch(self) -> Option<Seq<char>> {
        match self.panel {
            Some(p) => match p.selected() {
                Some(line) => branch_name(line),
                None => None,
            },
            None => None,
        }
    }

    /// With a panel being fetched.
    pub open spec fn opening(self, kind: PanelKind) -> AppModel {
        match self.current_path() {
            Some(current) => AppModel { pending_panel: Some(kind), ..self }.sent(
                EffectModel::LoadPanel {
                    kind,
                    current,
                    targets: if self.multi_target() {
                        self.targets(Keep::All)
                    } else {
                        Seq::empty()
                    },
                },
            ),
            None => self,
        }
    }

    /// With the deletion of a remote branch under way: a dialog for several repositories, a prompt
    /// for one.
    pub open spec fn deleting_remote(self, name: Seq<char>) -> AppModel {
        if self.multi_target() {
            let paths = self.targets(Keep::All);
            self.with_confirm(
                branch_dialog(
                    "Delete Remote Branch?"@,
                    "Deletes the branch on the remote — affects everyone."@,
                    name,
                    paths.len(),
                    ConfirmActionModel::DeleteRemoteBranch { name, paths },
                ),
            )
        } else {
            self.prompting(PromptKind::DeleteRemoteBranch, name)
        }
    }

    /// With the checkout of a branch under way: at once for several repositories, a prompt for one.
    /// A remote branch goes through the tracking checkout, not a literal one that would detach
    /// HEAD.
    pub open spec fn checking_out(self, name: Seq<char>) -> AppModel {
        match short_ref(name) {
            Some(short) => if self.multi_target() {
                self.with_locals(self.targets(Keep::All), LocalModel::CheckoutRemote(short))
            } else {
                self.prompting(PromptKind::CheckoutRemoteBranch, short)
            },
            None => if self.multi_target() {
                self.with_locals(self.targets(Keep::All), LocalModel::Checkout(name))
            } else {
                self.prompting(PromptKind::CheckoutBranch, name)
            },
        }
    }

    /// With the deletion of a branch under way: a dialog for several repositories, a prompt for
    /// one. Remote branches have no forced variant.
    pub open spec fn deleting(self, name: Seq<char>, force: bool) -> AppModel {
        match short_ref(name) {
            Some(short) => self.deleting_remote(short),
            None => if self.multi_target() {
                let paths = self.targets(Keep::All);
                if force {
                    self.with_confirm(
                        branch_dialog(
                            "Force Delete Branch?"@,
                            "Unmerged commits on this branch will be lost."@,
                            name,
                            paths.len(),
                            ConfirmActionModel::ForceDeleteBranch { name, paths },
                        ),
                    )
                } else {
                    self.with_confirm(
                        branch_dialog(
                            "Delete Branch?"@,
                            "Unmerged commits may be kept only in reflogs."@,
                            name,
                            paths.len(),
                            ConfirmActionModel::DeleteBranch { name, paths },
                        ),
                    )
                }
            } else if force {
                self.prompting(PromptKind::ForceDeleteBranch, name)
            } else {
                self.prompting(PromptKind::DeleteBranch, name)
            },
        }
    }
}

impl App {
    /// Fetch `kind`'s content in the background.
    pub fn open_panel(&mut self, kind: PanelKind)
        ensures
            final(self)@ == old(self)@.opening(kind),
            old(self).wf() ==> final(self).wf(),
    {
        let current = match self.current_path() {
            Some(path) => path,
            None => {
                return;
            },
        };
        let targets = if self.has_multi_target() {
            self.target_paths()
        } else {
            Vec::new()
        };
        proof {
            if !self@.multi_target() {
                assert(texts(targets@) =~= Seq::<Seq<char>>::empty());
            }
        }
        self.pending_panel = Some(kind);
        self.send(Effect::LoadPanel { kind, current, targets });
    }

    /// Branch name under the panel cursor, stripped of its markers.
    pub fn selected_branch_name(&self) -> (r: Option<String>)
        ensures
            opt_text(r) == self@.selected_branch(),
    {
        match &self.panel {
            Some(p) => match p.selected_text() {
                Some(line) => match parse_branch_name(line) {
                    Some(name) => Some(name.to_owned()),
                    None => None,
                },
                None => None,
            },
            None => None,
        }
    }

    /// Delete a remote branch (`origin/x` form): confirm dialog when fanning out over selected
    /// repos, editable prompt for a single repo.
    pub fn remote_delete_flow(&mut self, name: &str)
        ensures
            final(self)@ == old(self)@.deleting_remote(name@),
            old(self).wf() ==> final(self).wf(),
    {
        if self.has_multi_target() {
            let paths = self.target_paths();
            let subject = branch_subject(name, paths.len());
            self.enqueue_confirm(
                ConfirmPromptState {
                    title: "Delete Remote Branch?",
                    subject,
                    warning: "Deletes the branch on the remote — affects everyone.".to_owned(),
                    action: ConfirmAction::DeleteRemoteBranch { name: name.to_owned(), paths },
                },
            );
        } else {
            self.show_prompt_prefilled(PromptKind::DeleteRemoteBranch, name.to_owned());
        }
    }

    /// Check out the branch `name`.
    pub fn checkout_flow(&mut self, name: &str)
        ensures
            final(self)@ == old(self)@.checking_out(name@),
            old(self).wf() ==> final(self).wf(),
    {
        match remote_short_ref(name) {
            Some(short) => {
                if self.has_multi_target() {
                    let paths = self.target_paths();
                    self.spawn_local_ops(&paths, &LocalAction::CheckoutRemote(short.to_owned()));
                } else {
                    self.show_prompt_prefilled(PromptKind::CheckoutRemoteBranch, short.to_owned());
                }
            },
            None => {
                if self.has_multi_target() {
                    let paths = self.target_paths();
                    self.spawn_local_ops(&paths, &LocalAction::Checkout(name.to_owned()));
                } else {
                    self.show_prompt_prefilled(PromptKind::CheckoutBranch, name.to_owned());
                }
            },
        }
    }

    /// Delete the branch `name`.
    #[verifier::rlimit(40)]
    pub fn delete_flow(&mut self, name: &str, force: bool)
        ensures
            final(self)@ == old(self)@.deleting(name@, force),
            old(self).wf() ==> final(self).wf(),
    {
        if let Some(short) = remote_short_ref(name) {
            self.remote_delete_flow(short);
            return;
        }
        if !self.has_multi_target() {
            let kind = if force {
                PromptKind::ForceDeleteBranch
            } else {
                PromptKind::DeleteBranch
            };
            self.show_prompt_prefilled(kind, name.to_owned());
            return;
        }
        let paths = self.target_paths();
        let subject = branch_subject(name, paths.len());
        if force {
            self.enqueue_confirm(
                ConfirmPromptState {
                    title: "Force Delete Branch?",
                    subject,
                    warning: "Unmerged commits on this branch will be lost.".to_owned(),
                    action: ConfirmAction::ForceDeleteBranch { name: name.to_owned(), paths },
                },
            );
        } else {
            self.enqueue_confirm(
                ConfirmPromptState {
                    title: "Delete Branch?",
                    subject,
                    warning: "Unmerged commits may be kept only in reflogs.".to_owned(),
                    action: ConfirmAction::DeleteBranch { name: name.to_owned(), paths },
                },
            );
        }
    }
}

} // verus!
