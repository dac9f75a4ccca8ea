//! Starting operations, and queueing the dialogs that they need.

use vstd::prelude::*;
use vstd::string::*;

use crate::chars::{lemma_texts_push, texts};
use crate::git::command::{opt_credentials, Credentials, CredentialsModel};
use crate::git::runner::RemoteAction;
use crate::mode::Mode;
use crate::order::views_of;
use crate::paths::{is_same_path, same_path};
use crate::tui::app::{
    all_paths, paths_where, place, App, AppModel, Effect, EffectModel, Keep, PullCandidate,
    PullCandidateModel, WtSource, WtSourceModel,
};
use crate::tui::dialog::{
    confirm_subject_for_mode, confirm_title_for_mode, confirm_warning_for_mode, mode_question,
    mode_scope, mode_warning, AuthModel, AuthPromptState, ConfirmAction, ConfirmActionModel,
    ConfirmModel, ConfirmPromptState, LocalAction, LocalModel,
};
use crate::tui::repo::{mode_writes_to_remote, OpModel, RepoModel, RepoOpState};
use crate::tui::worktree::{WorktreeOp, WorktreeOpModel};

verus! {

// ── Effects ──────────────────────────────────────────────────────────────────

/// Whether an action refuses to run on a dirty tree, so that an auto-stash makes sense around it.
pub open spec fn needs_clean_tree(action: RemoteAction) -> bool {
    action is PullFfOnly || action is Rebase || action is Merge
}

impl AppModel {
    /// With one more thing to be done outside.
    pub open spec fn sent(self, e: EffectModel) -> AppModel {
        AppModel { outbox: self.outbox.push(e), ..self }
    }

    /// Whether an action on the repository at `path` is wrapped in an auto-stash.
    pub open spec fn stashes(self, path: Seq<char>, action: RemoteAction) -> bool {
        &&& self.auto_stash
        &&& needs_clean_tree(action)
        &&& match place(self.repos, path) {
            Some(i) => self.repos[i].snapshot.dirty,
            None => false,
        }
    }

    /// With a remote action started.
    pub open spec fn with_op(
        self,
        path: Seq<char>,
        action: RemoteAction,
        credentials: Option<CredentialsModel>,
    ) -> AppModel {
        self.with_repo(
            place(self.repos, path),
            |r: RepoModel|
                RepoModel { state: OpModel::Working, last_action: Some(action), ..r },
        ).sent(
            EffectModel::Remote { path, action, credentials, stash: self.stashes(path, action) },
        )
    }

    /// With a remote action started on each of `paths`, one after the other.
    pub open spec fn with_ops(self, paths: Seq<Seq<char>>, action: RemoteAction) -> AppModel
        decreases paths.len(),
    {
        if paths.len() == 0 {
            self
        } else {
            self.with_ops(paths.drop_last(), action).with_op(paths.last(), action, None)
        }
    }

    /// With a local operation started.
    pub open spec fn with_local(self, path: Seq<char>, action: LocalModel) -> AppModel {
        self.with_state(place(self.repos, path), OpModel::Working).sent(
            EffectModel::Local { path, action },
        )
    }

    /// With a local operation started on each of `paths`, one after the other.
    pub open spec fn with_locals(self, paths: Seq<Seq<char>>, action: LocalModel) -> AppModel
        decreases paths.len(),
    {
        if paths.len() == 0 {
            self
        } else {
            self.with_locals(paths.drop_last(), action).with_local(paths.last(), action)
        }
    }

    /// With a check started whether the candidates can be fast-forwarded, where there are any.
    pub open spec fn with_safety_check(self, candidates: Seq<PullCandidateModel>) -> AppModel {
        if candidates.len() == 0 {
            self
        } else {
            self.sent(EffectModel::CheckPullSafety(candidates))
        }
    }

    /// The repositories to fetch in the background: those with an upstream, those whose upstream
    /// is configured but gone among them, since fetching is how they recover.
    pub open spec fn fetch_candidates(self) -> Seq<Seq<char>> {
        paths_where(self.repos, |r: RepoModel| fetchable(r))
    }

    /// With all of them being fetched in the background, where there are any.
    pub open spec fn with_background_fetch(self) -> AppModel {
        let candidates = self.fetch_candidates();
        if candidates.len() == 0 {
            self
        } else {
            AppModel {
                repos: self.repos.map_values(
                    |r: RepoModel|
                        if among(candidates, r.snapshot.path) {
                            RepoModel { fetching: true, ..r }
                        } else {
                            r
                        },
                ),
                ..self
            }.sent(EffectModel::BackgroundFetch(candidates))
        }
    }

    /// With the list being loaded anew.
    pub open spec fn with_refresh(self) -> AppModel {
        AppModel { last_refresh: self.now, ..self }.sent(
            EffectModel::Refresh(all_paths(self.repos)),
        )
    }

    /// With the worktrees being listed.
    pub open spec fn with_worktree_load(self) -> AppModel {
        self.sent(
            EffectModel::LoadWorktrees(
                self.repos.map_values(
                    |r: RepoModel| WtSourceModel { path: r.snapshot.path, name: r.snapshot.name },
                ),
            ),
        )
    }

    /// With an operation started on the selected worktree, where one is selected.
    pub open spec fn with_worktree_op(self, op: WorktreeOpModel) -> AppModel {
        match (self.current_path(), self.current_repo_path()) {
            (Some(selected), Some(repo_path)) => self.with_state(
                place(self.repos, repo_path),
                OpModel::Working,
            ).sent(EffectModel::Worktree { selected, repo_path, op }),
            _ => self,
        }
    }
}

/// Whether a repository is worth fetching: it has an upstream, if only a configured one.
pub open spec fn fetchable(r: RepoModel) -> bool {
    !r.snapshot.branch.no_upstream || r.snapshot.branch.upstream is Some
}

/// Whether one of `paths` is `path`.
pub open spec fn among(paths: Seq<Seq<char>>, path: Seq<char>) -> bool {
    exists|i: int| 0 <= i < paths.len() && same_path(#[trigger] paths[i], path)
}

/// Whether one of `paths` is `path`.
fn is_among(paths: &Vec<String>, path: &str) -> (r: bool)
    ensures
        r == among(texts(paths@), path@),
{
    let ghost all = texts(paths@);
    for i in 0..paths.len()
        invariant
            all == texts(paths@),
            forall|j: int| 0 <= j < i ==> !same_path(#[trigger] all[j], path@),
    {
        proof {
            assert(all[i as int] == paths@[i as int]@);
        }
        if is_same_path(paths[i].as_str(), path) {
            return true;
        }
    }
    false
}

impl App {
    /// Puts one more thing into the outbox.
    pub fn send(&mut self, e: Effect)
        ensures
            final(self)@ == old(self)@.sent(e@),
            old(self).wf() ==> final(self).wf(),
    {
        let ghost before = self@;
        let ghost model = e@;
        self.outbox.push(e);
        proof {
            assert(self@.outbox =~= before.outbox.push(model));
        }
    }

    /// Hands out what is to be done outside.
    pub fn take_effects(&mut self) -> (r: Vec<Effect>)
        ensures
            views_of(r@) == old(self)@.outbox,
            final(self)@ == (AppModel { outbox: Seq::empty(), ..old(self)@ }),
            old(self).wf() ==> final(self).wf(),
    {
        let mut out: Vec<Effect> = Vec::new();
        std::mem::swap(&mut out, &mut self.outbox);
        proof {
            assert(self@.outbox =~= Seq::<EffectModel>::empty());
        }
        out
    }

    /// Starts loading the repositories at `paths`.
    pub fn start_loading(&mut self, paths: Vec<String>)
        ensures
            final(self)@ == (if paths@.len() == 0 {
                AppModel { loading: false, ..old(self)@ }
            } else {
                old(self)@.sent(EffectModel::Load(texts(paths@)))
            }),
            old(self).wf() ==> final(self).wf(),
    {
        if paths.len() == 0 {
            self.loading = false;
            return;
        }
        self.send(Effect::Load(paths));
    }

    /// Starts a remote action.
    pub fn spawn_op(&mut self, path: &str, action: RemoteAction)
        ensures
            final(self)@ == old(self)@.with_op(path@, action, None),
            old(self).wf() ==> final(self).wf(),
    {
        self.spawn_op_inner(path, action, None);
    }

    /// Starts a remote action with credentials to answer with.
    pub fn spawn_op_with_credentials(
        &mut self,
        path: &str,
        action: RemoteAction,
        credentials: Credentials,
    )
        ensures
            final(self)@ == old(self)@.with_op(path@, action, Some(credentials@)),
            old(self).wf() ==> final(self).wf(),
    {
        self.spawn_op_inner(path, action, Some(credentials));
    }

    /// Starts a remote action. An auto-stash only wraps operations that refuse to run on a dirty
    /// tree.
    fn spawn_op_inner(
        &mut self,
        path: &str,
        action: RemoteAction,
        credentials: Option<Credentials>,
    )
        ensures
            final(self)@ == old(self)@.with_op(path@, action, opt_credentials(credentials)),
            old(self).wf() ==> final(self).wf(),
    {
        let ghost before = self@;
        let found = self.find_repo(path);
        let dirty = match found {
            Some(i) => self.repos[i].snapshot.dirty,
            None => false,
        };
        let stash = self.auto_stash && matches!(
            action,
            RemoteAction::PullFfOnly | RemoteAction::Rebase | RemoteAction::Merge
        ) && dirty;
        if let Some(i) = found {
            self.repos[i].state = RepoOpState::Working;
            self.repos[i].last_action = Some(action);
            proof {
                assert(self@.repos =~= before.repos.update(
                    i as int,
                    RepoModel {
                        state: OpModel::Working,
                        last_action: Some(action),
                        ..before.repos[i as int]
                    },
                ));
            }
        }
        self.send(Effect::Remote { path: path.to_owned(), action, credentials, stash });
    }

    /// Starts a remote action on each of `paths`.
    pub fn spawn_ops(&mut self, paths: &Vec<String>, action: RemoteAction)
        ensures
            final(self)@ == old(self)@.with_ops(texts(paths@), action),
            old(self).wf() ==> final(self).wf(),
    {
        let ghost before = self@;
        let ghost all = texts(paths@);
        proof {
            assert(all.take(0) =~= Seq::<Seq<char>>::empty());
        }
        for i in 0..paths.len()
            invariant
                all == texts(paths@),
                self@ == before.with_ops(all.take(i as int), action),
                old(self).wf() ==> self.wf(),
        {
            proof {
                assert(all.take(i + 1).drop_last() =~= all.take(i as int));
                assert(all.take(i + 1).last() == paths@[i as int]@);
            }
            self.spawn_op(paths[i].as_str(), action);
        }
        proof {
            assert(all.take(all.len() as int) =~= all);
        }
    }

    /// Starts a local operation.
    pub fn spawn_local_op(&mut self, path: &str, action: LocalAction)
        ensures
            final(self)@ == old(self)@.with_local(path@, action@),
            old(self).wf() ==> final(self).wf(),
    {
        let found = self.find_repo(path);
        self.set_state(found, RepoOpState::Working);
        self.send(Effect::Local { path: path.to_owned(), action });
    }

    /// Starts a local operation on each of `paths`.
    pub fn spawn_local_ops(&mut self, paths: &Vec<String>, action: &LocalAction)
        ensures
            final(self)@ == old(self)@.with_locals(texts(paths@), action@),
            old(self).wf() ==> final(self).wf(),
    {
        let ghost before = self@;
        let ghost all = texts(paths@);
        proof {
            assert(all.take(0) =~= Seq::<Seq<char>>::empty());
        }
        for i in 0..paths.len()
            invariant
                all == texts(paths@),
                self@ == before.with_locals(all.take(i as int), action@),
                old(self).wf() ==> self.wf(),
        {
            proof {
                assert(all.take(i + 1).drop_last() =~= all.take(i as int));
                assert(all.take(i + 1).last() == paths@[i as int]@);
            }
            self.spawn_local_op(paths[i].as_str(), action.clone());
        }
        proof {
            assert(all.take(all.len() as int) =~= all);
        }
    }

    /// Starts a check whether the candidates can be fast-forwarded, where there are any.
    pub fn spawn_pull_safety_check(&mut self, candidates: Vec<PullCandidate>)
        ensures
            final(self)@ == old(self)@.with_safety_check(views_of(candidates@)),
            old(self).wf() ==> final(self).wf(),
    {
        if candidates.len() == 0 {
            return;
        }
        self.send(Effect::CheckPullSafety(candidates));
    }

    /// The repositories to fetch in the background.
    fn fetch_candidates(&self) -> (r: Vec<String>)
        ensures
            texts(r@) == self@.fetch_candidates(),
    {
        let ghost repos = self@.repos;
        let ghost pred = |r: RepoModel| fetchable(r);
        let mut out: Vec<String> = Vec::new();
        proof {
            assert(texts(out@) =~= paths_where(repos.take(0), pred));
        }
        for i in 0..self.repos.len()
            invariant
                repos == views_of(self.repos@),
                pred == (|r: RepoModel| fetchable(r)),
                texts(out@) == paths_where(repos.take(i as int), pred),
        {
            proof {
                assert(repos.take(i + 1).drop_last() =~= repos.take(i as int));
                assert(repos.take(i + 1).last() == self.repos@[i as int]@);
            }
            let branch = &self.repos[i].snapshot.branch;
            if !branch.no_upstream || branch.upstream.is_some() {
                let path = self.repos[i].snapshot.path.clone();
                proof {
                    lemma_texts_push(out@, path);
                }
                out.push(path);
            }
        }
        proof {
            assert(repos.take(repos.len() as int) =~= repos);
        }
        out
    }

    /// Starts fetching all repositories with an upstream in the background.
    pub fn spawn_background_fetch(&mut self)
        ensures
            final(self)@ == old(self)@.with_background_fetch(),
            old(self).wf() ==> final(self).wf(),
    {
        let candidates = self.fetch_candidates();
        if candidates.len() == 0 {
            return;
        }
        let ghost before = self@;
        let ghost repos = self@.repos;
        let ghost paths = texts(candidates@);
        let ghost f = |r: RepoModel|
            if among(paths, r.snapshot.path) {
                RepoModel { fetching: true, ..r }
            } else {
                r
            };
        let n = self.repos.len();
        for i in 0..n
            invariant
                n == self.repos@.len(),
                repos.len() == n,
                paths == texts(candidates@),
                f == (|r: RepoModel|
                    if among(paths, r.snapshot.path) {
                        RepoModel { fetching: true, ..r }
                    } else {
                        r
                    }),
                self@ == (AppModel { repos: self@.repos, ..before }),
                old(self).wf() ==> self.wf(),
                forall|j: int| 0 <= j < i ==> (#[trigger] self@.repos[j]) == f(repos[j]),
                forall|j: int| i <= j < n ==> (#[trigger] self@.repos[j]) == repos[j],
        {
            let ghost here = self@.repos;
            proof {
                assert(here[i as int] == self.repos@[i as int]@);
            }
            if is_among(&candidates, self.repos[i].snapshot.path.as_str()) {
                self.repos[i].fetching = true;
                proof {
                    assert(self@.repos =~= here.update(i as int, f(repos[i as int])));
                }
            }
        }
        proof {
            assert(self@.repos =~= repos.map_values(f));
        }
        self.send(Effect::BackgroundFetch(candidates));
    }

    /// Starts loading the list anew.
    pub fn spawn_refresh(&mut self)
        ensures
            final(self)@ == old(self)@.with_refresh(),
            old(self).wf() ==> final(self).wf(),
    {
        let ghost repos = self@.repos;
        let mut paths: Vec<String> = Vec::new();
        for i in 0..self.repos.len()
            invariant
                repos == views_of(self.repos@),
                paths@.len() == i,
                forall|j: int| 0 <= j < i ==> (#[trigger] paths@[j])@ == repos[j].snapshot.path,
        {
            paths.push(self.repos[i].snapshot.path.clone());
        }
        proof {
            assert(texts(paths@) =~= all_paths(repos));
        }
        self.last_refresh = self.now;
        self.send(Effect::Refresh(paths));
    }

    /// Starts listing the worktrees.
    pub fn spawn_load_worktrees(&mut self)
        ensures
            final(self)@ == old(self)@.with_worktree_load(),
            old(self).wf() ==> final(self).wf(),
    {
        let ghost repos = self@.repos;
        let ghost f = |r: RepoModel|
            WtSourceModel { path: r.snapshot.path, name: r.snapshot.name };
        let mut sources: Vec<WtSource> = Vec::new();
        for i in 0..self.repos.len()
            invariant
                repos == views_of(self.repos@),
                f == (|r: RepoModel|
                    WtSourceModel { path: r.snapshot.path, name: r.snapshot.name }),
                sources@.len() == i,
                forall|j: int| 0 <= j < i ==> (#[trigger] sources@[j])@ == f(repos[j]),
        {
            proof {
                assert(repos[i as int] == self.repos@[i as int]@);
            }
            sources.push(
                WtSource {
                    path: self.repos[i].snapshot.path.clone(),
                    name: self.repos[i].snapshot.name.clone(),
                },
            );
        }
        proof {
            assert(views_of(sources@) =~= repos.map_values(f));
        }
        self.send(Effect::LoadWorktrees(sources));
    }

    /// Run `op` against the currently selected worktree. The result lands on the primary repo
    /// (`current_repo_path`, not necessarily the same path as the worktree acted on).
    pub fn spawn_worktree_op(&mut self, op: WorktreeOp)
        ensures
            final(self)@ == old(self)@.with_worktree_op(op@),
            old(self).wf() ==> final(self).wf(),
    {
        let selected = match self.current_path() {
            Some(path) => path,
            None => {
                return;
            },
        };
        let repo_path = match self.current_repo_path() {
            Some(path) => path,
            None => {
                return;
            },
        };
        let found = self.find_repo(repo_path.as_str());
        self.set_state(found, RepoOpState::Working);
        self.send(Effect::Worktree { selected, repo_path, op });
    }
}

// ── Loading ──────────────────────────────────────────────────────────────────

impl AppModel {
    /// When everything is loaded: sorted, with the cursor on a repository that needs attention, and
    /// fetching in the background.
    pub open spec fn after_load(self) -> AppModel {
        let s = AppModel { loading: false, ..self }.resorted();
        AppModel {
            cursor: s.start_place() as usize,
            last_refresh: self.now,
            ..s
        }.with_background_fetch()
    }

    /// When one more repository is loaded or skipped.
    pub open spec fn one_loaded(self) -> AppModel {
        let done = if self.load_done < usize::MAX {
            (self.load_done + 1) as usize
        } else {
            self.load_done
        };
        let s = AppModel { load_done: done, ..self };
        if s.loading && s.load_done >= s.load_total {
            s.after_load()
        } else {
            s
        }
    }
}

impl App {
    /// What happens when everything is loaded.
    pub fn post_load(&mut self)
        ensures
            final(self)@ == old(self)@.after_load(),
            old(self).wf() ==> final(self).wf(),
    {
        self.loading = false;
        self.sort();
        self.auto_select();
        self.last_refresh = self.now;
        self.spawn_background_fetch();
    }

    /// Counts one more repository that was loaded or skipped.
    pub fn count_loaded(&mut self)
        ensures
            final(self)@ == old(self)@.one_loaded(),
            old(self).wf() ==> final(self).wf(),
    {
        self.load_done = self.load_done.saturating_add(1);
        if self.loading && self.load_done >= self.load_total {
            self.post_load();
        }
    }
}

// ── Dialogs ──────────────────────────────────────────────────────────────────

impl AppModel {
    /// Whether a credentials dialog for `path` is shown or waits.
    pub open spec fn asks_for(self, path: Seq<char>) -> bool {
        ||| (self.auth_prompt matches Some(p) && same_path(p.repo_path, path))
        ||| exists|i: int|
            0 <= i < self.auth_queue.len() && same_path(
                (#[trigger] self.auth_queue[i]).repo_path,
                path,
            )
    }

    /// With a credentials dialog for `path`, unless there is one.
    pub open spec fn with_auth(self, path: Seq<char>, action: RemoteAction) -> AppModel {
        if self.asks_for(path) {
            self
        } else {
            let prompt = AuthModel::opened(path, self.repo_name(path), action);
            if self.auth_prompt is None {
                AppModel { auth_prompt: Some(prompt), ..self }
            } else {
                AppModel { auth_queue: self.auth_queue.push(prompt), ..self }
            }
        }
    }

    /// With the next credentials dialog.
    pub open spec fn next_auth(self) -> AppModel {
        if self.auth_queue.len() > 0 {
            AppModel {
                auth_prompt: Some(self.auth_queue[0]),
                auth_queue: self.auth_queue.drop_first(),
                ..self
            }
        } else {
            AppModel { auth_prompt: None, ..self }
        }
    }

    /// Whether a dialog that confirms a forced push of `path` is shown or waits.
    pub open spec fn confirms_force(self, path: Seq<char>) -> bool {
        ||| (self.confirm_prompt matches Some(p) && forces(p, path))
        ||| exists|i: int|
            0 <= i < self.confirm_queue.len() && forces(#[trigger] self.confirm_queue[i], path)
    }

    /// With a confirm dialog, unless it is for a forced push and there is one for that.
    pub open spec fn with_confirm(self, prompt: ConfirmModel) -> AppModel {
        if prompt.action matches ConfirmActionModel::ForcePush { path } && self.confirms_force(path) {
            self
        } else if self.confirm_prompt is None {
            AppModel { confirm_prompt: Some(prompt), ..self }
        } else {
            AppModel { confirm_queue: self.confirm_queue.push(prompt), ..self }
        }
    }

    /// With the next confirm dialog.
    pub open spec fn next_confirm(self) -> AppModel {
        if self.confirm_queue.len() > 0 {
            AppModel {
                confirm_prompt: Some(self.confirm_queue[0]),
                confirm_queue: self.confirm_queue.drop_first(),
                ..self
            }
        } else {
            AppModel { confirm_prompt: None, ..self }
        }
    }
}

/// Whether a dialog confirms a forced push of `path`.
pub open spec fn forces(p: ConfirmModel, path: Seq<char>) -> bool {
    p.action matches ConfirmActionModel::ForcePush { path: other } && same_path(other, path)
}

/// Whether a dialog confirms a forced push of `path`.
fn is_force_push(p: &ConfirmPromptState, path: &str) -> (r: bool)
    ensures
        r == forces(p@, path@),
{
    match &p.action {
        ConfirmAction::ForcePush { path: other } => is_same_path(other.as_str(), path),
        _ => false,
    }
}

impl App {
    /// Asks for credentials for the repository at `path`, unless that is being asked already.
    pub fn enqueue_auth_prompt(&mut self, path: &str, action: RemoteAction)
        ensures
            final(self)@ == old(self)@.with_auth(path@, action),
            old(self).wf() ==> final(self).wf(),
    {
        if let Some(p) = &self.auth_prompt {
            if is_same_path(p.repo_path.as_str(), path) {
                return;
            }
        }
        let ghost queue = self@.auth_queue;
        let n = self.auth_prompt_queue.len();
        for i in 0..n
            invariant
                n == self.auth_prompt_queue@.len(),
                queue == views_of(self.auth_prompt_queue@),
                queue == old(self)@.auth_queue,
                self@ == old(self)@,
                old(self).wf() ==> self.wf(),
                forall|j: int| 0 <= j < i ==> !same_path((#[trigger] queue[j]).repo_path, path@),
        {
            proof {
                assert(queue[i as int] == self.auth_prompt_queue@[i as int]@);
            }
            if is_same_path(self.auth_prompt_queue[i].repo_path.as_str(), path) {
                proof {
                    assert(same_path(queue[i as int].repo_path, path@));
                }
                return;
            }
        }
        let name = self.repo_name_for_path(path);
        let prompt = AuthPromptState::open(path.to_owned(), name, action);
        if self.auth_prompt.is_none() {
            self.auth_prompt = Some(prompt);
        } else {
            let ghost model = prompt@;
            self.auth_prompt_queue.push_back(prompt);
            proof {
                assert(self@.auth_queue =~= queue.push(model));
            }
        }
    }

    /// Goes on to the next credentials dialog.
    pub fn advance_auth_prompt(&mut self)
        ensures
            final(self)@ == old(self)@.next_auth(),
            old(self).wf() ==> final(self).wf(),
    {
        let ghost queue = self@.auth_queue;
        self.auth_prompt = self.auth_prompt_queue.pop_front();
        proof {
            if queue.len() > 0 {
                assert(self@.auth_queue =~= queue.drop_first());
            }
        }
    }

    /// Asks for confirmation. Repeated push failures do not stack duplicate force-push dialogs.
    pub fn enqueue_confirm(&mut self, prompt: ConfirmPromptState)
        ensures
            final(self)@ == old(self)@.with_confirm(prompt@),
            old(self).wf() ==> final(self).wf(),
    {
        let ghost queue = self@.confirm_queue;
        if let ConfirmAction::ForcePush { path } = &prompt.action {
            if let Some(p) = &self.confirm_prompt {
                if is_force_push(p, path.as_str()) {
                    return;
                }
            }
            let n = self.confirm_prompt_queue.len();
            for i in 0..n
                invariant
                    n == self.confirm_prompt_queue@.len(),
                    queue == views_of(self.confirm_prompt_queue@),
                    queue == old(self)@.confirm_queue,
                    self@ == old(self)@,
                    old(self).wf() ==> self.wf(),
                    prompt@.action == (ConfirmActionModel::ForcePush { path: path@ }),
                    forall|j: int| 0 <= j < i ==> !forces(#[trigger] queue[j], path@),
            {
                proof {
                    assert(queue[i as int] == self.confirm_prompt_queue@[i as int]@);
                }
                if is_force_push(&self.confirm_prompt_queue[i], path.as_str()) {
                    proof {
                        assert(forces(queue[i as int], path@));
                    }
                    return;
                }
            }
        }
        if self.confirm_prompt.is_none() {
            self.confirm_prompt = Some(prompt);
        } else {
            let ghost model = prompt@;
            self.confirm_prompt_queue.push_back(prompt);
            proof {
                assert(self@.confirm_queue =~= queue.push(model));
            }
        }
    }

    /// Goes on to the next confirm dialog.
    pub fn dismiss_confirm(&mut self)
        ensures
            final(self)@ == old(self)@.next_confirm(),
            old(self).wf() ==> final(self).wf(),
    {
        let ghost queue = self@.confirm_queue;
        self.confirm_prompt = self.confirm_prompt_queue.pop_front();
        proof {
            if queue.len() > 0 {
                assert(self@.confirm_queue =~= queue.drop_first());
            }
        }
    }
}

// ── Running a mode ───────────────────────────────────────────────────────────

impl AppModel {
    /// The dialog that confirms a mode on several repositories.
    pub open spec fn mode_dialog(mode: Mode, paths: Seq<Seq<char>>) -> ConfirmModel {
        ConfirmModel {
            title: mode_question(mode),
            subject: mode_scope(mode, paths.len()),
            warning: mode_warning(mode),
            action: ConfirmActionModel::RunMode { mode, paths },
        }
    }

    /// With `mode` run on the targets, or with a confirmation asked where it writes to several
    /// remotes.
    pub open spec fn after_run(self, mode: Mode) -> AppModel {
        let paths = self.targets(Keep::All);
        if paths.len() == 0 {
            self
        } else if paths.len() == 1 || mode != Mode::Push {
            self.with_ops(paths, RemoteAction::of_mode(mode))
        } else {
            self.with_confirm(AppModel::mode_dialog(mode, paths))
        }
    }
}

impl App {
    /// Run a remote action (fetch, pull, merge, rebase, push) on all target repos: directly for a
    /// single target or for a mode that only reads from the remote, otherwise behind a
    /// confirmation naming the mode and repo count.
    ///
    /// This is the single chokepoint for every outward-facing batch trigger (`Enter`, `p`, `P`,
    /// `f`), so a multi-repo push can never fire without the user seeing its scope first.
    pub fn run_action_on_targets(&mut self, mode: Mode)
        ensures
            final(self)@ == old(self)@.after_run(mode),
            old(self).wf() ==> final(self).wf(),
    {
        let paths = self.target_paths();
        if paths.len() == 0 {
            return;
        }
        if paths.len() == 1 || !mode_writes_to_remote(mode) {
            self.spawn_ops(&paths, RemoteAction::from_mode(mode));
            return;
        }
        self.enqueue_confirm(
            ConfirmPromptState {
                title: confirm_title_for_mode(mode),
                subject: confirm_subject_for_mode(mode, paths.len()),
                warning: confirm_warning_for_mode(mode),
                action: ConfirmAction::RunMode { mode, paths },
            },
        );
    }

    /// Runs the mode on the targets.
    pub fn run_current_mode(&mut self)
        ensures
            final(self)@ == old(self)@.after_run(old(self)@.mode),
            old(self).wf() ==> final(self).wf(),
    {
        self.run_action_on_targets(self.mode);
    }
}

/// A push to several repositories starts nothing: a dialog that names them is shown, or waits
/// behind the one that is shown.
pub proof fn lemma_batch_push_asks_first(app: AppModel)
    requires
        app.targets(Keep::All).len() > 1,
    ensures
        app.after_run(Mode::Push).outbox == app.outbox,
        app.after_run(Mode::Push).repos == app.repos,
        app.confirm_prompt is None ==> app.after_run(Mode::Push).confirm_prompt == Some(
            AppModel::mode_dialog(Mode::Push, app.targets(Keep::All)),
        ),
        app.confirm_prompt is Some ==> app.after_run(Mode::Push).confirm_queue
            == app.confirm_queue.push(AppModel::mode_dialog(Mode::Push, app.targets(Keep::All))),
{
}

/// Starting a batch leaves the dialogs as they are, and starts one action for each path.
proof fn lemma_ops_started(app: AppModel, paths: Seq<Seq<char>>, action: RemoteAction)
    ensures
        app.with_ops(paths, action).outbox.len() == app.outbox.len() + paths.len(),
        app.with_ops(paths, action).confirm_prompt == app.confirm_prompt,
        app.with_ops(paths, action).confirm_queue == app.confirm_queue,
        forall|i: int|
            0 <= i < app.outbox.len() ==> #[trigger] app.with_ops(paths, action).outbox[i]
                == app.outbox[i],
        forall|i: int|
            0 <= i < paths.len() ==> ((#[trigger] app.with_ops(paths, action).outbox[app.outbox.len()
                + i]) matches EffectModel::Remote { path, action: a, credentials, stash } && path
                == paths[i] && a == action && credentials is None),
    decreases paths.len(),
{
    if paths.len() > 0 {
        lemma_ops_started(app, paths.drop_last(), action);
    }
}

/// Fetching, pulling, merging and rebasing ask for no confirmation, however many repositories are
/// selected: one action is started for each.
pub proof fn lemma_batch_read_runs_at_once(app: AppModel, mode: Mode)
    requires
        mode != Mode::Push,
    ensures
        app.after_run(mode).confirm_prompt == app.confirm_prompt,
        app.after_run(mode).confirm_queue == app.confirm_queue,
        app.after_run(mode).outbox.len() == app.outbox.len() + app.targets(Keep::All).len(),
{
    lemma_ops_started(app, app.targets(Keep::All), RemoteAction::of_mode(mode));
}

// ── What dialogs keep ────────────────────────────────────────────────────────

/// The credentials dialogs, the one that is shown first.
pub open spec fn auth_dialogs(app: AppModel) -> Seq<AuthModel> {
    match app.auth_prompt {
        Some(p) => seq![p] + app.auth_queue,
        None => app.auth_queue,
    }
}

/// Whether no repository has two credentials dialogs, and none waits while none is shown.
pub open spec fn auth_in_order(app: AppModel) -> bool {
    &&& app.auth_prompt is None ==> app.auth_queue.len() == 0
    &&& forall|i: int, j: int|
        0 <= i < j < auth_dialogs(app).len() ==> !same_path(
            (#[trigger] auth_dialogs(app)[i]).repo_path,
            (#[trigger] auth_dialogs(app)[j]).repo_path,
        )
}

/// Asking for credentials never leads to two dialogs for one repository.
pub proof fn lemma_auth_dialogs_are_distinct(app: AppModel, path: Seq<char>, action: RemoteAction)
    requires
        auth_in_order(app),
    ensures
        auth_in_order(app.with_auth(path, action)),
        app.with_auth(path, action).asks_for(path),
{
    let after = app.with_auth(path, action);
    if !app.asks_for(path) {
        let prompt = AuthModel::opened(path, app.repo_name(path), action);
        let before = auth_dialogs(app);
        let now = auth_dialogs(after);
        assert(now =~= before.push(prompt));
        assert forall|i: int, j: int| 0 <= i < j < now.len() implies !same_path(
            (#[trigger] now[i]).repo_path,
            (#[trigger] now[j]).repo_path,
        ) by {
            if j < before.len() {
                assert(!same_path(before[i].repo_path, before[j].repo_path));
            } else {
                assert(now[j] == prompt);
                match app.auth_prompt {
                    Some(p) => {
                        if i > 0 {
                            assert(before[i] == app.auth_queue[i - 1]);
                        }
                    },
                    None => {},
                }
            }
        }
        if app.auth_prompt is Some {
            assert(after.auth_queue[after.auth_queue.len() - 1] == prompt);
        }
    }
}

/// Going on to the next credentials dialog keeps them in order.
pub proof fn lemma_next_auth_in_order(app: AppModel)
    requires
        auth_in_order(app),
    ensures
        auth_in_order(app.next_auth()),
{
    let now = auth_dialogs(app.next_auth());
    if app.auth_queue.len() > 0 {
        assert(now =~= app.auth_queue);
        assert forall|i: int, j: int| 0 <= i < j < now.len() implies !same_path(
            (#[trigger] now[i]).repo_path,
            (#[trigger] now[j]).repo_path,
        ) by {
            assert(auth_dialogs(app)[i + 1] == now[i]);
            assert(auth_dialogs(app)[j + 1] == now[j]);
        }
    }
}

/// The dialogs that confirm a forced push of `path`, among `ps`.
pub open spec fn force_dialogs(ps: Seq<ConfirmModel>, path: Seq<char>) -> nat
    decreases ps.len(),
{
    if ps.len() == 0 {
        0
    } else {
        force_dialogs(ps.drop_last(), path) + (if forces(ps.last(), path) {
            1nat
        } else {
            0nat
        })
    }
}

/// The confirm dialogs, the one that is shown first.
pub open spec fn confirm_dialogs(app: AppModel) -> Seq<ConfirmModel> {
    match app.confirm_prompt {
        Some(p) => seq![p] + app.confirm_queue,
        None => app.confirm_queue,
    }
}

/// Where no dialog confirms a forced push of `path` there are none.
proof fn lemma_no_force_dialogs(ps: Seq<ConfirmModel>, path: Seq<char>)
    requires
        forall|i: int| 0 <= i < ps.len() ==> !forces(#[trigger] ps[i], path),
    ensures
        force_dialogs(ps, path) == 0,
    decreases ps.len(),
{
    if ps.len() > 0 {
        let most = ps.drop_last();
        assert forall|i: int| 0 <= i < most.len() implies !forces(#[trigger] most[i], path) by {
            assert(most[i] == ps[i]);
        }
        lemma_no_force_dialogs(most, path);
        assert(ps.last() == ps[ps.len() - 1]);
    }
}

/// However often a push is rejected, no more than one dialog asks to force the push of a path.
pub proof fn lemma_force_dialogs_do_not_stack(app: AppModel, prompt: ConfirmModel, path: Seq<char>)
    requires
        force_dialogs(confirm_dialogs(app), path) <= 1,
        app.confirm_prompt is None ==> app.confirm_queue.len() == 0,
    ensures
        force_dialogs(confirm_dialogs(app.with_confirm(prompt)), path) <= 1,
        app.with_confirm(prompt).confirm_prompt is None ==> app.with_confirm(
            prompt,
        ).confirm_queue.len() == 0,
{
    let before = confirm_dialogs(app);
    let after = app.with_confirm(prompt);
    let now = confirm_dialogs(after);
    if after != app {
        assert(now =~= before.push(prompt));
        assert(now.drop_last() =~= before);
        if forces(prompt, path) {
            assert forall|i: int| 0 <= i < before.len() implies !forces(#[trigger] before[i], path) by {
                match app.confirm_prompt {
                    Some(p) => {
                        if i > 0 {
                            assert(before[i] == app.confirm_queue[i - 1]);
                        }
                    },
                    None => {},
                }
            }
            lemma_no_force_dialogs(before, path);
        }
    }
}

} // verus!
