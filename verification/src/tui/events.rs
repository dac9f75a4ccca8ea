//! What comes back from the background, and what it does to the state.

use vstd::prelude::*;
use vstd::string::*;

use crate::chars::{
    blank, cat2, has_text, lemma_nothing_replaced, opt_text, replace_char, replaced,
};
use crate::error::{lower_case, says_rejected, AppError, Fault, Result};
use crate::git::command::{report, Outcome, OutputModel, Report};
use crate::git::fast_forward::{
    apart, fast_forward, nul_paths, FastForwardCheck, FastForwardModel,
};
use crate::git::runner::{GitRunner, RemoteAction};
use crate::git::status::{RepositorySnapshot, SnapshotModel};
use crate::order::views_of;
use crate::tui::app::{
    lemma_place, opt_view, place, App, AppModel, PullCandidate, PullCandidateModel,
};
use crate::tui::dialog::{
    action_name, display_action, ConfirmAction, ConfirmActionModel, ConfirmModel,
    ConfirmPromptState,
};
use crate::tui::panel::{panel_view, PanelKind, PanelModel, PanelState};
use crate::tui::repo::{
    ended, fail_kind, failure, one_line, op_state_from_result, result_message, FailKind, OpModel,
    QueueOrigin, RepoModel, RepoOpState, RepoView,
};
use crate::tui::worktree::{WtDisplayRow, WtRowModel};

verus! {

/// What comes back from the background.
#[allow(inconsistent_fields)]
#[derive(Debug)]
pub enum BgEvent {
    RepoLoaded(RepositorySnapshot),
    RepoSkipped,
    /// Result of a remote action.
    OpResult {
        path: String,
        action: RemoteAction,
        result: Result<String>,
        snapshot: Option<RepositorySnapshot>,
    },
    RefreshComplete { snapshots: Vec<(String, RepositorySnapshot)> },
    WorktreesReady(Vec<WtDisplayRow>),
    /// Result of a local (non-remote) git operation.
    LocalResult {
        path: String,
        label: &'static str,
        result: Result<String>,
        snapshot: Option<RepositorySnapshot>,
    },
    /// Per-repo result of the startup background fetch and its fast-forward check.
    RepoFetchDone {
        path: String,
        snapshot: Option<RepositorySnapshot>,
        queue: bool,
        fetch_error: Option<String>,
    },
    /// Results of a fast-forward check triggered after a fetch (manual or periodic) increased a
    /// repo's `behind` count.
    PullSafetyChecked(Vec<(String, bool)>),
    /// Result of a worktree action, for the primary repo: a linked (non-primary) worktree has no
    /// place in the list of its own.
    WorktreeOpResult { repo_path: String, label: &'static str, result: Result<String> },
    /// Content fetched for a panel (`b`, `s`, `v`).
    PanelReady { kind: PanelKind, result: Result<PanelState> },
}

// ── Fast-forward checks ──────────────────────────────────────────────────────

/// What is to be checked for fast-forward safety after a repository that was `old_behind` commits
/// behind was found as in `s`: it, where new commits have arrived that could be pulled.
pub open spec fn recheck(
    path: Seq<char>,
    old_behind: u32,
    s: SnapshotModel,
) -> Seq<PullCandidateModel> {
    if s.branch.behind > old_behind && !s.branch.no_upstream && !s.has_conflicts {
        match s.branch.upstream {
            Some(upstream) => seq![PullCandidateModel { path, upstream, clean: !s.dirty }],
            None => Seq::empty(),
        }
    } else {
        Seq::empty()
    }
}

/// Appends what is to be checked for fast-forward safety.
fn push_recheck(
    list: &mut Vec<PullCandidate>,
    path: &str,
    old_behind: u32,
    s: &RepositorySnapshot,
)
    ensures
        views_of(final(list)@) == views_of(old(list)@) + recheck(path@, old_behind, s@),
{
    let ghost before = views_of(list@);
    if s.branch.behind > old_behind && !s.branch.no_upstream && !s.has_conflicts {
        if let Some(up) = &s.branch.upstream {
            let c = PullCandidate {
                path: path.to_owned(),
                upstream: up.clone(),
                clean: !s.dirty,
            };
            list.push(c);
            proof {
                assert(views_of(list@) =~= before + recheck(path@, old_behind, s@));
            }
            return;
        }
    }
    proof {
        assert(before + recheck(path@, old_behind, s@) =~= before);
    }
}

/// The check that decides whether a repository is pre-selected after the startup fetch: none but
/// one that is behind an upstream, without conflicts, and can be fast-forwarded.
pub open spec fn startup_check_of(s: SnapshotModel) -> FastForwardModel {
    match s.branch.upstream {
        Some(up) => if s.branch.behind > 0 && !s.branch.no_upstream && !s.has_conflicts {
            fast_forward(s.path, up, !s.dirty)
        } else {
            FastForwardModel::Done(false)
        },
        None => FastForwardModel::Done(false),
    }
}

/// The check that decides whether a repository is pre-selected after the startup fetch.
pub fn startup_check(runner: &GitRunner, snapshot: &RepositorySnapshot) -> (r: FastForwardCheck)
    ensures
        r@ == startup_check_of(snapshot@),
{
    let b = &snapshot.branch;
    match &b.upstream {
        Some(up) => if b.behind > 0 && !b.no_upstream && !snapshot.has_conflicts {
            runner.fast_forward_safe(snapshot.path.as_str(), up.as_str(), !snapshot.dirty)
        } else {
            FastForwardCheck::Done(false)
        },
        None => FastForwardCheck::Done(false),
    }
}

/// The error of a startup fetch, on one line.
pub fn fetch_error_text(error: &AppError) -> (r: String)
    ensures
        r@ == replaced(error@.message(), '\n', " | "@),
{
    let message = error.message();
    replace_char(message.as_str(), '\n', " | ")
}

// ── Remote actions ───────────────────────────────────────────────────────────

/// Whether a result asks for credentials.
pub open spec fn wants_credentials(result: Report) -> bool {
    result matches Err(e) && e.needs_credentials()
}

/// Whether a result suggests to force a push.
pub open spec fn wants_force(action: RemoteAction, result: Report) -> bool {
    result matches Err(e) && action is Push && says_rejected(lower_case(e.message()))
}

/// The state that the result of a remote action leads to.
pub open spec fn op_ended(action: RemoteAction, result: Report) -> OpModel {
    let message = one_line(result, action_name(action) + " successful"@);
    match result {
        Ok(_) => OpModel::Success(message),
        Err(e) => OpModel::Fail {
            message,
            kind: if wants_force(action, result) {
                FailKind::ForcePush
            } else {
                failure(e)
            },
        },
    }
}

/// A repository after a remote action ended. The result is authoritative: no spinner of a startup
/// fetch runs past it, and a success supersedes a stale fetch failure.
pub open spec fn repo_after_op(
    r: RepoModel,
    action: RemoteAction,
    result: Report,
    snapshot: Option<SnapshotModel>,
) -> RepoModel {
    RepoModel {
        fetching: false,
        state: op_ended(action, result),
        fetch_error: if result is Ok {
            None
        } else {
            r.fetch_error
        },
        snapshot: match snapshot {
            Some(s) => s,
            None => r.snapshot,
        },
        ..r
    }
}

/// The dialog that asks to force a push.
pub open spec fn force_dialog(subject: Seq<char>, path: Seq<char>) -> ConfirmModel {
    ConfirmModel {
        title: "Force Push?"@,
        subject,
        warning: "This will rewrite remote history."@,
        action: ConfirmActionModel::ForcePush { path },
    }
}

impl AppModel {
    /// What is to be checked after a remote action ended: a successful fetch may have brought new
    /// commits.
    pub open spec fn op_recheck(
        self,
        path: Seq<char>,
        action: RemoteAction,
        result: Report,
        snapshot: Option<SnapshotModel>,
    ) -> Seq<PullCandidateModel> {
        match (place(self.repos, path), snapshot) {
            (Some(i), Some(s)) => if result is Ok && action is Fetch {
                recheck(path, self.repos[i].snapshot.branch.behind, s)
            } else {
                Seq::empty()
            },
            _ => Seq::empty(),
        }
    }

    /// After a remote action ended: with its result, and with the dialog that it calls for.
    pub open spec fn after_op(
        self,
        path: Seq<char>,
        action: RemoteAction,
        result: Report,
        snapshot: Option<SnapshotModel>,
    ) -> AppModel {
        let s = self.with_repo(
            place(self.repos, path),
            |r: RepoModel| repo_after_op(r, action, result, snapshot),
        ).with_safety_check(self.op_recheck(path, action, result, snapshot));
        if wants_credentials(result) {
            s.with_auth(path, action)
        } else if wants_force(action, result) {
            s.with_confirm(
                force_dialog(
                    match s.repo_name(path) {
                        Some(name) => name,
                        None => "?"@,
                    },
                    path,
                ),
            )
        } else {
            s
        }
    }

    /// After a local operation ended.
    pub open spec fn after_local(
        self,
        path: Seq<char>,
        label: Seq<char>,
        result: Report,
        snapshot: Option<SnapshotModel>,
    ) -> AppModel {
        self.with_repo(
            place(self.repos, path),
            |r: RepoModel|
                RepoModel {
                    fetching: false,
                    state: ended(result, label + " done"@),
                    snapshot: match snapshot {
                        Some(s) => s,
                        None => r.snapshot,
                    },
                    ..r
                },
        )
    }
}

/// The state that the result of a remote action leads to.
fn op_state(action: RemoteAction, result: &Result<String>, suggest_force: bool) -> (r: RepoOpState)
    requires
        suggest_force == wants_force(action, report(*result)),
    ensures
        r@ == op_ended(action, report(*result)),
{
    let fallback = cat2(display_action(&action), " successful");
    let message = result_message(result, fallback.as_str());
    match result {
        Ok(_) => RepoOpState::Success(message),
        Err(e) => RepoOpState::Fail {
            message,
            kind: if suggest_force {
                FailKind::ForcePush
            } else {
                fail_kind(e)
            },
        },
    }
}

impl App {
    /// Puts the result of a remote action on its repository, and hands out what is to be checked.
    fn settle_op(
        &mut self,
        path: &str,
        action: RemoteAction,
        result: &Result<String>,
        snapshot: Option<RepositorySnapshot>,
        suggest_force: bool,
    ) -> (r: Vec<PullCandidate>)
        requires
            suggest_force == wants_force(action, report(*result)),
        ensures
            final(self)@ == old(self)@.with_repo(
                place(old(self)@.repos, path@),
                |r: RepoModel| repo_after_op(r, action, report(*result), opt_view(snapshot)),
            ),
            views_of(r@) == old(self)@.op_recheck(
                path@,
                action,
                report(*result),
                opt_view(snapshot),
            ),
            old(self).wf() ==> final(self).wf(),
    {
        let ghost before = self@;
        let ghost shot = opt_view(snapshot);
        let ghost rep = report(*result);
        let mut candidates: Vec<PullCandidate> = Vec::new();
        proof {
            assert(views_of(candidates@) =~= Seq::<PullCandidateModel>::empty());
        }
        if let Some(i) = self.find_repo(path) {
            let state = op_state(action, result, suggest_force);
            self.repos[i].fetching = false;
            self.repos[i].state = state;
            if result.is_ok() {
                self.repos[i].fetch_error = None;
            }
            if let Some(snap) = snapshot {
                let old_behind = self.repos[i].snapshot.branch.behind;
                if result.is_ok() && matches!(action, RemoteAction::Fetch) {
                    push_recheck(&mut candidates, path, old_behind, &snap);
                    proof {
                        assert(views_of(candidates@) =~= recheck(path@, old_behind, snap@));
                    }
                }
                self.repos[i].snapshot = snap;
            }
            proof {
                assert(self@.repos =~= before.repos.update(
                    i as int,
                    repo_after_op(before.repos[i as int], action, rep, shot),
                ));
            }
        }
        candidates
    }

    /// Takes in the result of a remote action.
    #[verifier::rlimit(40)]
    fn apply_op_result(
        &mut self,
        path: String,
        action: RemoteAction,
        result: Result<String>,
        snapshot: Option<RepositorySnapshot>,
    )
        ensures
            final(self)@ == old(self)@.after_op(path@, action, report(result), opt_view(snapshot)),
            old(self).wf() ==> final(self).wf(),
    {
        let requires_creds = match &result {
            Ok(_) => false,
            Err(e) => e.requires_credentials(),
        };
        let suggest_force = match &result {
            Ok(_) => false,
            Err(e) => action.is_push() && e.suggests_force_push(),
        };
        let candidates = self.settle_op(path.as_str(), action, &result, snapshot, suggest_force);
        self.spawn_pull_safety_check(candidates);
        if requires_creds {
            self.enqueue_auth_prompt(path.as_str(), action);
        } else if suggest_force {
            self.ask_to_force(path);
        }
    }

    /// Asks whether to force a push.
    fn ask_to_force(&mut self, path: String)
        ensures
            final(self)@ == old(self)@.with_confirm(
                force_dialog(
                    match old(self)@.repo_name(path@) {
                        Some(name) => name,
                        None => "?"@,
                    },
                    path@,
                ),
            ),
            old(self).wf() ==> final(self).wf(),
    {
        let subject = match self.repo_name_for_path(path.as_str()) {
            Some(name) => name,
            None => "?".to_owned(),
        };
        self.enqueue_confirm(
            ConfirmPromptState {
                title: "Force Push?",
                subject,
                warning: "This will rewrite remote history.".to_owned(),
                action: ConfirmAction::ForcePush { path },
            },
        );
    }

    /// Takes in the result of a local operation.
    fn apply_local_result(
        &mut self,
        path: String,
        label: &str,
        result: Result<String>,
        snapshot: Option<RepositorySnapshot>,
    )
        ensures
            final(self)@ == old(self)@.after_local(
                path@,
                label@,
                report(result),
                opt_view(snapshot),
            ),
            old(self).wf() ==> final(self).wf(),
    {
        let ghost before = self@;
        let ghost shot = opt_view(snapshot);
        let ghost rep = report(result);
        if let Some(i) = self.find_repo(path.as_str()) {
            let fallback = cat2(label, " done");
            self.repos[i].fetching = false;
            self.repos[i].state = op_state_from_result(&result, fallback.as_str());
            if let Some(snap) = snapshot {
                self.repos[i].snapshot = snap;
            }
            proof {
                let r = before.repos[i as int];
                assert(self@.repos =~= before.repos.update(
                    i as int,
                    RepoModel {
                        fetching: false,
                        state: ended(rep, label@ + " done"@),
                        snapshot: match shot {
                            Some(s) => s,
                            None => r.snapshot,
                        },
                        ..r
                    },
                ));
            }
        }
    }
}

// ── Refreshes ────────────────────────────────────────────────────────────────

/// The views of snapshots with their paths.
pub open spec fn snapshots_of(v: Seq<(String, RepositorySnapshot)>) -> Seq<
    (Seq<char>, SnapshotModel),
> {
    v.map_values(|p: (String, RepositorySnapshot)| (p.0@, p.1@))
}

/// The views of verdicts with their paths.
pub open spec fn verdicts_of(v: Seq<(String, bool)>) -> Seq<(Seq<char>, bool)> {
    v.map_values(|p: (String, bool)| (p.0@, p.1))
}

impl AppModel {
    /// With snapshots taken in, one after the other.
    pub open spec fn with_snapshots(self, snaps: Seq<(Seq<char>, SnapshotModel)>) -> AppModel
        decreases snaps.len(),
    {
        if snaps.len() == 0 {
            self
        } else {
            let s = self.with_snapshots(snaps.drop_last());
            let (path, snapshot) = snaps.last();
            s.with_repo(
                place(s.repos, path),
                |r: RepoModel| RepoModel { fetching: false, snapshot, ..r },
            )
        }
    }

    /// What is to be checked after snapshots were taken in.
    pub open spec fn snapshot_rechecks(self, snaps: Seq<(Seq<char>, SnapshotModel)>) -> Seq<
        PullCandidateModel,
    >
        decreases snaps.len(),
    {
        if snaps.len() == 0 {
            Seq::empty()
        } else {
            let s = self.with_snapshots(snaps.drop_last());
            let (path, snapshot) = snaps.last();
            self.snapshot_rechecks(snaps.drop_last()) + (match place(s.repos, path) {
                Some(i) => recheck(path, s.repos[i].snapshot.branch.behind, snapshot),
                None => Seq::empty(),
            })
        }
    }

    /// After the list was loaded anew.
    pub open spec fn refreshed(self, snaps: Seq<(Seq<char>, SnapshotModel)>) -> AppModel {
        self.with_snapshots(snaps).resorted().with_safety_check(self.snapshot_rechecks(snaps))
    }

    /// With the verdicts of fast-forward checks taken in, one after the other.
    pub open spec fn with_verdicts(self, verdicts: Seq<(Seq<char>, bool)>) -> AppModel
        decreases verdicts.len(),
    {
        if verdicts.len() == 0 {
            self
        } else {
            let s = self.with_verdicts(verdicts.drop_last());
            let (path, safe) = verdicts.last();
            s.with_repo(
                place(s.repos, path),
                |r: RepoModel| RepoModel { pull_safe: safe, ..r },
            )
        }
    }

    /// After a startup fetch ended. Only an idle repository takes in what was found, and becomes
    /// selected where it can be fast-forwarded.
    pub open spec fn after_fetch(
        self,
        path: Seq<char>,
        snapshot: Option<SnapshotModel>,
        queue: bool,
        fetch_error: Option<Seq<char>>,
    ) -> AppModel {
        self.with_repo(
            place(self.repos, path),
            |r: RepoModel| fetched(r, snapshot, queue, fetch_error),
        )
    }

    /// After the worktrees were listed.
    pub open spec fn with_rows(self, rows: Seq<WtRowModel>) -> AppModel {
        AppModel {
            wt_rows: rows,
            wt_cursor: if rows.len() == 0 {
                0
            } else if self.wt_cursor >= rows.len() {
                (rows.len() - 1) as usize
            } else {
                self.wt_cursor
            },
            ..self
        }
    }

    /// After an operation on a worktree ended.
    pub open spec fn after_worktree_op(
        self,
        repo_path: Seq<char>,
        label: Seq<char>,
        result: Report,
    ) -> AppModel {
        let s = self.with_state(place(self.repos, repo_path), ended(result, label)).with_refresh();
        if self.worktree_mode {
            s.with_worktree_load()
        } else {
            s
        }
    }

    /// After the content of a panel was fetched. A result for a panel that the user has since moved
    /// past is dropped.
    pub open spec fn after_panel(
        self,
        kind: PanelKind,
        result: std::result::Result<PanelModel, Fault>,
    ) -> AppModel {
        if self.pending_panel != Some(kind) {
            self
        } else {
            match result {
                Ok(panel) => AppModel { pending_panel: None, panel: Some(panel), ..self },
                Err(e) => AppModel { pending_panel: None, panel: None, ..self }.noticed(
                    "Could not load panel: "@ + e.message(),
                ),
            }
        }
    }
}

/// A repository after its startup fetch ended.
pub open spec fn fetched(
    r: RepoModel,
    snapshot: Option<SnapshotModel>,
    queue: bool,
    fetch_error: Option<Seq<char>>,
) -> RepoModel {
    let s = RepoModel { fetching: false, fetch_error, ..r };
    match snapshot {
        Some(found) => if r.state is Idle {
            RepoModel {
                snapshot: found,
                pull_safe: queue,
                state: if queue {
                    OpModel::Queued(QueueOrigin::Auto)
                } else {
                    r.state
                },
                ..s
            }
        } else {
            s
        },
        None => s,
    }
}

impl App {
    /// Takes in the snapshots of a refresh.
    fn apply_refresh(&mut self, snapshots: Vec<(String, RepositorySnapshot)>)
        ensures
            final(self)@ == old(self)@.refreshed(snapshots_of(snapshots@)),
            old(self).wf() ==> final(self).wf(),
    {
        let ghost before = self@;
        let ghost all = snapshots_of(snapshots@);
        let mut candidates: Vec<PullCandidate> = Vec::new();
        proof {
            assert(views_of(candidates@) =~= Seq::<PullCandidateModel>::empty());
            assert(all.take(0) =~= Seq::<(Seq<char>, SnapshotModel)>::empty());
        }
        for k in 0..snapshots.len()
            invariant
                all == snapshots_of(snapshots@),
                self@ == before.with_snapshots(all.take(k as int)),
                views_of(candidates@) == before.snapshot_rechecks(all.take(k as int)),
                old(self).wf() ==> self.wf(),
        {
            let ghost here = self@;
            proof {
                assert(all.take(k + 1).drop_last() =~= all.take(k as int));
                assert(all.take(k + 1).last() == (snapshots@[k as int].0@, snapshots@[k as int].1@));
            }
            let path = snapshots[k].0.as_str();
            if let Some(i) = self.find_repo(path) {
                let old_behind = self.repos[i].snapshot.branch.behind;
                push_recheck(&mut candidates, path, old_behind, &snapshots[k].1);
                self.repos[i].fetching = false;
                self.repos[i].snapshot = snapshots[k].1.clone();
                proof {
                    let r = here.repos[i as int];
                    assert(self@.repos =~= here.repos.update(
                        i as int,
                        RepoModel { fetching: false, snapshot: snapshots@[k as int].1@, ..r },
                    ));
                }
            } else {
                proof {
                    let so_far = before.snapshot_rechecks(all.take(k as int));
                    assert(so_far + Seq::<PullCandidateModel>::empty() =~= so_far);
                }
            }
        }
        proof {
            assert(all.take(all.len() as int) =~= all);
        }
        self.sort();
        self.spawn_pull_safety_check(candidates);
    }

    /// Takes in the verdicts of fast-forward checks.
    fn apply_verdicts(&mut self, results: Vec<(String, bool)>)
        ensures
            final(self)@ == old(self)@.with_verdicts(verdicts_of(results@)),
            old(self).wf() ==> final(self).wf(),
    {
        let ghost before = self@;
        let ghost all = verdicts_of(results@);
        proof {
            assert(all.take(0) =~= Seq::<(Seq<char>, bool)>::empty());
        }
        for k in 0..results.len()
            invariant
                all == verdicts_of(results@),
                self@ == before.with_verdicts(all.take(k as int)),
                old(self).wf() ==> self.wf(),
        {
            let ghost here = self@;
            proof {
                assert(all.take(k + 1).drop_last() =~= all.take(k as int));
                assert(all.take(k + 1).last() == (results@[k as int].0@, results@[k as int].1));
            }
            if let Some(i) = self.find_repo(results[k].0.as_str()) {
                self.repos[i].pull_safe = results[k].1;
                proof {
                    let r = here.repos[i as int];
                    assert(self@.repos =~= here.repos.update(
                        i as int,
                        RepoModel { pull_safe: results@[k as int].1, ..r },
                    ));
                }
            }
        }
        proof {
            assert(all.take(all.len() as int) =~= all);
        }
    }

    /// Takes in the result of a startup fetch.
    fn apply_fetch(
        &mut self,
        path: String,
        snapshot: Option<RepositorySnapshot>,
        queue: bool,
        fetch_error: Option<String>,
    )
        ensures
            final(self)@ == old(self)@.after_fetch(
                path@,
                opt_view(snapshot),
                queue,
                opt_text(fetch_error),
            ),
            old(self).wf() ==> final(self).wf(),
    {
        let ghost before = self@;
        let ghost shot = opt_view(snapshot);
        let ghost error = opt_text(fetch_error);
        if let Some(i) = self.find_repo(path.as_str()) {
            self.repos[i].fetching = false;
            self.repos[i].fetch_error = fetch_error;
            let idle = matches!(self.repos[i].state, RepoOpState::Idle);
            if let Some(snap) = snapshot {
                if idle {
                    self.repos[i].snapshot = snap;
                    self.repos[i].pull_safe = queue;
                    if queue {
                        self.repos[i].state = RepoOpState::Queued(QueueOrigin::Auto);
                    }
                }
            }
            proof {
                let r = before.repos[i as int];
                assert(self@.repos =~= before.repos.update(
                    i as int,
                    fetched(r, shot, queue, error),
                ));
            }
        }
    }
}

// ── Events ───────────────────────────────────────────────────────────────────

impl AppModel {
    /// After an event. Every one of them may change the longest name, branch or age in the list,
    /// so the widths of the columns are forgotten.
    pub open spec fn after_event(self, event: BgEvent) -> AppModel {
        let s = AppModel { col_widths: None, ..self };
        match event {
            BgEvent::RepoLoaded(snapshot) => AppModel {
                repos: s.repos.push(RepoModel::fresh(snapshot@)),
                ..s
            }.one_loaded(),
            BgEvent::RepoSkipped => s.one_loaded(),
            BgEvent::OpResult { path, action, result, snapshot } => s.after_op(
                path@,
                action,
                report(result),
                opt_view(snapshot),
            ),
            BgEvent::LocalResult { path, label, result, snapshot } => s.after_local(
                path@,
                label@,
                report(result),
                opt_view(snapshot),
            ),
            BgEvent::RefreshComplete { snapshots } => s.refreshed(snapshots_of(snapshots@)),
            BgEvent::WorktreesReady(rows) => s.with_rows(views_of(rows@)),
            BgEvent::RepoFetchDone { path, snapshot, queue, fetch_error } => s.after_fetch(
                path@,
                opt_view(snapshot),
                queue,
                opt_text(fetch_error),
            ),
            BgEvent::PullSafetyChecked(results) => s.with_verdicts(verdicts_of(results@)),
            BgEvent::WorktreeOpResult { repo_path, label, result } => s.after_worktree_op(
                repo_path@,
                label@,
                report(result),
            ),
            BgEvent::PanelReady { kind, result } => s.after_panel(kind, panel_view(result)),
        }
    }
}

impl App {
    /// Takes in a repository that was loaded.
    fn apply_loaded(&mut self, snapshot: RepositorySnapshot)
        ensures
            final(self)@ == (AppModel {
                repos: old(self)@.repos.push(RepoModel::fresh(snapshot@)),
                ..old(self)@
            }).one_loaded(),
            old(self).wf() ==> final(self).wf(),
    {
        let ghost before = self@;
        let ghost shot = snapshot@;
        self.repos.push(RepoView::new(snapshot));
        proof {
            assert(self@.repos =~= before.repos.push(RepoModel::fresh(shot)));
        }
        self.count_loaded();
    }

    /// Takes in the rows of the worktree view.
    fn apply_rows(&mut self, rows: Vec<WtDisplayRow>)
        ensures
            final(self)@ == old(self)@.with_rows(views_of(rows@)),
            old(self).wf() ==> final(self).wf(),
    {
        self.wt_rows = rows;
        if self.wt_rows.len() == 0 {
            self.wt_cursor = 0;
        } else if self.wt_cursor >= self.wt_rows.len() {
            self.wt_cursor = self.wt_rows.len() - 1;
        }
    }

    /// Takes in the result of an operation on a worktree. Both the repo table and the worktree
    /// table are kept in sync: a remove, lock or add changes what `git worktree list` reports.
    fn apply_worktree_op(&mut self, repo_path: &str, label: &str, result: &Result<String>)
        ensures
            final(self)@ == old(self)@.after_worktree_op(repo_path@, label@, report(*result)),
            old(self).wf() ==> final(self).wf(),
    {
        let found = self.find_repo(repo_path);
        let state = op_state_from_result(result, label);
        self.set_state(found, state);
        self.spawn_refresh();
        if self.worktree_mode {
            self.spawn_load_worktrees();
        }
    }

    /// Takes in the content of a panel.
    fn apply_panel(&mut self, kind: PanelKind, result: Result<PanelState>)
        ensures
            final(self)@ == old(self)@.after_panel(kind, panel_view(result)),
            old(self).wf() ==> final(self).wf(),
    {
        let wanted = match self.pending_panel {
            Some(k) => k == kind,
            None => false,
        };
        if !wanted {
            return;
        }
        self.pending_panel = None;
        match result {
            Ok(state) => {
                self.panel = Some(state);
            },
            Err(e) => {
                self.panel = None;
                let why = e.message();
                let notice = cat2("Could not load panel: ", why.as_str());
                self.set_notice(notice);
            },
        }
    }

    /// Takes in what comes back from the background.
    #[verifier::rlimit(40)]
    pub fn apply_bg_event(&mut self, event: BgEvent)
        ensures
            final(self)@ == old(self)@.after_event(event),
            old(self).wf() ==> final(self).wf(),
    {
        self.col_widths = None;
        match event {
            BgEvent::RepoLoaded(snapshot) => self.apply_loaded(snapshot),
            BgEvent::RepoSkipped => self.count_loaded(),
            BgEvent::OpResult { path, action, result, snapshot } => self.apply_op_result(
                path,
                action,
                result,
                snapshot,
            ),
            BgEvent::LocalResult { path, label, result, snapshot } => self.apply_local_result(
                path,
                label,
                result,
                snapshot,
            ),
            BgEvent::RefreshComplete { snapshots } => self.apply_refresh(snapshots),
            BgEvent::WorktreesReady(rows) => self.apply_rows(rows),
            BgEvent::RepoFetchDone { path, snapshot, queue, fetch_error } => self.apply_fetch(
                path,
                snapshot,
                queue,
                fetch_error,
            ),
            BgEvent::PullSafetyChecked(results) => self.apply_verdicts(results),
            BgEvent::WorktreeOpResult { repo_path, label, result } => self.apply_worktree_op(
                repo_path.as_str(),
                label,
                &result,
            ),
            BgEvent::PanelReady { kind, result } => self.apply_panel(kind, result),
        }
    }
}

// ── What events keep ─────────────────────────────────────────────────────────

/// The content of a panel that was not asked for last, or was closed since, changes nothing.
pub proof fn lemma_stale_panel_is_dropped(
    app: AppModel,
    kind: PanelKind,
    result: std::result::Result<PanelModel, Fault>,
)
    requires
        app.pending_panel != Some(kind),
    ensures
        app.after_panel(kind, result) == app,
{
}

/// A startup fetch never overrides what is selected, under way or finished.
pub proof fn lemma_fetch_keeps_state(
    app: AppModel,
    path: Seq<char>,
    snapshot: Option<SnapshotModel>,
    queue: bool,
    fetch_error: Option<Seq<char>>,
    i: int,
)
    requires
        0 <= i < app.repos.len(),
        !(app.repos[i].state is Idle),
    ensures
        ({
            let is = app.after_fetch(path, snapshot, queue, fetch_error).repos[i];
            &&& is.state == app.repos[i].state
            &&& is.snapshot == app.repos[i].snapshot
            &&& is.pull_safe == app.repos[i].pull_safe
        }),
{
    lemma_place(app.repos, path);
}

/// A startup fetch selects nothing but an idle repository that can be fast-forwarded, and then on
/// its own account.
pub proof fn lemma_fetch_selects_safe_only(
    app: AppModel,
    path: Seq<char>,
    snapshot: Option<SnapshotModel>,
    queue: bool,
    fetch_error: Option<Seq<char>>,
    i: int,
)
    requires
        0 <= i < app.repos.len(),
        !(app.repos[i].state is Queued),
        app.after_fetch(path, snapshot, queue, fetch_error).repos[i].state is Queued,
    ensures
        queue,
        app.after_fetch(path, snapshot, queue, fetch_error).repos[i].state == OpModel::Queued(
            QueueOrigin::Auto,
        ),
        app.after_fetch(path, snapshot, queue, fetch_error).repos[i].pull_safe,
{
    lemma_place(app.repos, path);
}

/// A rejected push is answered with a dialog that asks to force it, unless credentials are asked
/// for; nothing is pushed before it is confirmed.
pub proof fn lemma_rejected_push_asks_first(
    app: AppModel,
    path: Seq<char>,
    action: RemoteAction,
    result: Report,
    snapshot: Option<SnapshotModel>,
)
    requires
        wants_force(action, result),
        !wants_credentials(result),
    ensures
        app.after_op(path, action, result, snapshot).confirms_force(path),
        app.after_op(path, action, result, snapshot).outbox == app.outbox,
{
    let after = app.after_op(path, action, result, snapshot);
    if app.confirm_prompt is Some && !app.confirms_force(path) {
        assert(after.confirm_queue[after.confirm_queue.len() - 1].action
            == (ConfirmActionModel::ForcePush { path }));
    }
}

/// A result that asks for credentials is answered with a dialog for that repository.
pub proof fn lemma_refused_credentials_are_asked_for(
    app: AppModel,
    path: Seq<char>,
    action: RemoteAction,
    result: Report,
    snapshot: Option<SnapshotModel>,
)
    requires
        wants_credentials(result),
    ensures
        app.after_op(path, action, result, snapshot).asks_for(path),
{
    let after = app.after_op(path, action, result, snapshot);
    if app.auth_prompt is Some && !app.asks_for(path) {
        assert(after.auth_queue[after.auth_queue.len() - 1].repo_path == path);
    }
}

// ── What a fast-forward check comes to ───────────────────────────────────────

/// Whether a path is both incoming and changed here: modified, staged or untracked.
pub open spec fn collides(
    modified: OutputModel,
    staged: OutputModel,
    untracked: OutputModel,
    incoming: OutputModel,
) -> bool {
    exists|p: Seq<char>| #[trigger]
        nul_paths(incoming.stdout).contains(p) && (nul_paths(modified.stdout).contains(p)
            || nul_paths(staged.stdout).contains(p) || nul_paths(untracked.stdout).contains(p))
}

/// The startup check, followed through to its end, says yes exactly when the head is an ancestor of
/// the upstream and the tree is clean or no incoming path is modified, staged or untracked. It asks
/// for the paths of a dirty tree, and of no other.
pub proof fn lemma_startup_check_followed_through(
    s: SnapshotModel,
    upstream: Seq<char>,
    ancestry: Outcome,
    modified: OutputModel,
    staged: OutputModel,
    untracked: OutputModel,
    incoming: OutputModel,
)
    requires
        s.branch.upstream == Some(upstream),
        upstream.len() > 0,
        s.branch.behind >= 1,
        !s.branch.no_upstream,
        !s.has_conflicts,
    ensures
        ({
            let begun = startup_check_of(s);
            let next = begun.advance(seq![ancestry]);
            let end = next.advance(seq![Ok(modified), Ok(staged), Ok(untracked), Ok(incoming)]);
            &&& begun.commands().len() == 1
            &&& begun.commands()[0].dir == s.path
            &&& begun.commands()[0].args == seq![
                "merge-base"@,
                "--is-ancestor"@,
                "HEAD"@,
                upstream,
            ]
            &&& ancestry is Err ==> next == FastForwardModel::Done(false)
            &&& ancestry is Ok && !s.dirty ==> next == FastForwardModel::Done(true)
            &&& ancestry is Ok && s.dirty ==> {
                let asked = next.commands();
                &&& asked.len() == 4
                &&& forall|i: int| 0 <= i < 4 ==> (#[trigger] asked[i]).dir == s.path
                &&& asked[0].args == seq!["diff"@, "-z"@, "--name-only"@]
                &&& asked[1].args == seq!["diff"@, "-z"@, "--cached"@, "--name-only"@]
                &&& asked[2].args == seq!["ls-files"@, "-z"@, "--others"@, "--exclude-standard"@]
                &&& asked[3].args == seq!["diff"@, "-z"@, "--name-only"@, "HEAD"@, upstream]
            }
            &&& end matches FastForwardModel::Done(safe) && (safe <==> ancestry is Ok && (!s.dirty
                || !collides(modified, staged, untracked, incoming)))
        }),
{
    let lists: Seq<Outcome> = seq![Ok(modified), Ok(staged), Ok(untracked), Ok(incoming)];
    let next = startup_check_of(s).advance(seq![ancestry]);
    assert(next.advance(lists) is Done);
    if collides(modified, staged, untracked, incoming) {
        let p = choose|p: Seq<char>| #[trigger]
            nul_paths(incoming.stdout).contains(p) && (nul_paths(modified.stdout).contains(p)
                || nul_paths(staged.stdout).contains(p) || nul_paths(untracked.stdout).contains(p));
        assert(nul_paths(incoming.stdout).contains(p));
    } else {
        assert(apart(nul_paths(modified.stdout), nul_paths(incoming.stdout)));
        assert(apart(nul_paths(staged.stdout), nul_paths(incoming.stdout)));
        assert(apart(nul_paths(untracked.stdout), nul_paths(incoming.stdout)));
    }
}

/// A check of the paths of a dirty tree that cannot be made says no.
pub proof fn lemma_unknown_paths_are_unsafe(
    s: SnapshotModel,
    ancestry: Outcome,
    lists: Seq<Outcome>,
    k: int,
)
    requires
        s.dirty,
        0 <= k < lists.len(),
        lists[k] is Err,
    ensures
        startup_check_of(s).advance(seq![ancestry]).advance(lists) == FastForwardModel::Done(false),
{
}

/// A repository that is not behind, has no upstream or has conflicts is not checked at all, and is
/// not pre-selected.
pub proof fn lemma_nothing_to_check(s: SnapshotModel)
    requires
        s.branch.behind == 0 || s.branch.no_upstream || s.has_conflicts || s.branch.upstream
            is None,
    ensures
        startup_check_of(s) == FastForwardModel::Done(false),
        startup_check_of(s).commands().len() == 0,
{
}

/// What the startup check says decides: an idle repository becomes selected, on the program's own
/// account, exactly when the check says yes; and it is safe to pull from then on exactly when the
/// check says so.
pub proof fn lemma_verdict_decides_selection(
    app: AppModel,
    path: Seq<char>,
    found: SnapshotModel,
    queue: bool,
    fetch_error: Option<Seq<char>>,
    i: int,
)
    requires
        place(app.repos, path) == Some(i),
        app.repos[i].state is Idle,
    ensures
        ({
            let r = app.after_fetch(path, Some(found), queue, fetch_error).repos[i];
            &&& r.snapshot == found
            &&& r.pull_safe == queue
            &&& r.fetching == false
            &&& r.fetch_error == fetch_error
            &&& queue ==> r.state == OpModel::Queued(QueueOrigin::Auto)
            &&& !queue ==> r.state is Idle
        }),
{
    lemma_place(app.repos, path);
}

/// A repository is checked anew where commits have arrived that could be pulled, and then under the
/// same terms: against its own upstream, and as clean only where it has no changes.
pub proof fn lemma_new_commits_are_checked(path: Seq<char>, old_behind: u32, s: SnapshotModel)
    ensures
        recheck(path, old_behind, s).len() <= 1,
        recheck(path, old_behind, s).len() == 1 <==> s.branch.behind > old_behind
            && !s.branch.no_upstream && !s.has_conflicts && s.branch.upstream is Some,
        recheck(path, old_behind, s).len() == 1 ==> {
            let c = recheck(path, old_behind, s)[0];
            &&& c.path == path
            &&& Some(c.upstream) == s.branch.upstream
            &&& c.clean <==> !s.dirty
        },
{
}

// ── What a finished action comes to ──────────────────────────────────────────

/// A push that failed with one of the words of a rejection, and without asking for credentials, is
/// marked as such and asks whether to force it, for that repository; nothing is pushed before.
pub proof fn lemma_rejected_push_offers_force(
    app: AppModel,
    path: Seq<char>,
    force: bool,
    e: Fault,
    snapshot: Option<SnapshotModel>,
    i: int,
)
    requires
        place(app.repos, path) == Some(i),
        !e.needs_credentials(),
        has_text(lower_case(e.message()), "non-fast-forward"@) || has_text(
            lower_case(e.message()),
            "failed to push some refs"@,
        ) || has_text(lower_case(e.message()), "updates were rejected because"@) || has_text(
            lower_case(e.message()),
            "tip of your current branch is behind"@,
        ) || has_text(lower_case(e.message()), "[rejected]"@) || has_text(
            lower_case(e.message()),
            "fetch first"@,
        ),
    ensures
        ({
            let after = app.after_op(path, RemoteAction::Push { force }, Err(e), snapshot);
            &&& after.repos[i].state matches OpModel::Fail { message, kind } && kind
                == FailKind::ForcePush
            &&& after.confirms_force(path)
            &&& app.confirm_prompt is None && app.confirm_queue.len() == 0 ==> (
            after.confirm_prompt matches Some(p) && p.title == "Force Push?"@ && p.action == (
            ConfirmActionModel::ForcePush { path }))
            &&& after.outbox == app.outbox
            &&& after.auth_prompt == app.auth_prompt
        }),
{
    lemma_place(app.repos, path);
    lemma_rejected_push_asks_first(app, path, RemoteAction::Push { force }, Err(e), snapshot);
}

/// Only a push is ever offered to be forced: after any other action, and after a success, no dialog
/// opens.
pub proof fn lemma_only_pushes_are_forced(
    app: AppModel,
    path: Seq<char>,
    action: RemoteAction,
    result: Report,
    snapshot: Option<SnapshotModel>,
)
    requires
        !(action is Push) || result is Ok,
    ensures
        app.after_op(path, action, result, snapshot).confirm_prompt == app.confirm_prompt,
        app.after_op(path, action, result, snapshot).confirm_queue == app.confirm_queue,
{
}

/// A result is put on its repository: a success with what git said, or else that the action was
/// successful, and a failure with its message on one line; the spinner stops, and what was found
/// afterwards is shown.
pub proof fn lemma_result_is_shown(
    app: AppModel,
    path: Seq<char>,
    action: RemoteAction,
    result: Report,
    found: SnapshotModel,
    i: int,
)
    requires
        place(app.repos, path) == Some(i),
    ensures
        ({
            let r = app.after_op(path, action, result, Some(found)).repos[i];
            &&& r.snapshot == found
            &&& !r.fetching
            &&& result matches Ok(said) ==> {
                &&& r.fetch_error is None
                &&& blank(said) ==> r.state == OpModel::Success(
                    action_name(action) + " successful"@,
                )
                &&& !blank(said) && !said.contains('\n') ==> r.state == OpModel::Success(said)
            }
            &&& result matches Err(e) ==> {
                &&& r.fetch_error == app.repos[i].fetch_error
                &&& r.state is Fail
                &&& !e.message().contains('\n') ==> (r.state matches OpModel::Fail {
                    message,
                    kind,
                } && message == e.message())
            }
        }),
{
    lemma_place(app.repos, path);
    match result {
        Ok(said) => {
            if !said.contains('\n') {
                lemma_nothing_replaced(said, '\n', " | "@);
            }
        },
        Err(e) => {
            if !e.message().contains('\n') {
                lemma_nothing_replaced(e.message(), '\n', " | "@);
            }
        },
    }
}

/// A result that asks for credentials opens a dialog for them, for that repository and that action;
/// the answer carries the action out again.
pub proof fn lemma_credentials_are_asked_for(
    app: AppModel,
    path: Seq<char>,
    action: RemoteAction,
    e: Fault,
    snapshot: Option<SnapshotModel>,
    i: int,
)
    requires
        place(app.repos, path) == Some(i),
        e.needs_credentials(),
        app.auth_prompt is None,
        app.auth_queue.len() == 0,
    ensures
        ({
            let after = app.after_op(path, action, Err(e), snapshot);
            &&& after.auth_prompt matches Some(p) && p.repo_path == path && p.action == action
                && p.username.len() == 0 && p.password.len() == 0 && p.input.len() == 0
            &&& after.confirm_prompt == app.confirm_prompt
        }),
{
    lemma_place(app.repos, path);
}

} // verus!
