//! Selecting every repository that the mode applies to, clearing the selection, and sorting.

use vstd::prelude::*;
use vstd::string::*;

use crate::chars::{cat2, cat4, join, joined, lemma_texts_push, texts};
use crate::mode::Mode;
use crate::numbers::{decimal, decimal_usize};
use crate::order::{
    by_rule, in_order, lemma_sorted_is_in_order, lemma_sorted_is_permutation,
    lemma_sorted_is_stable, lemma_text_order_total, peers, sort_by, sorted, text_before,
};
use crate::paths::same_path;
use crate::tui::app::{
    count_where, lemma_place, lemma_sort_modes_rank, paths_where, place, App, AppModel, Keep,
    SortMode,
};
use crate::tui::ops::{auto_queued, queued, without_auto};
use crate::tui::repo::{
    mode_has_relevant_commits, OpModel, QueueOrigin, RepoModel, RepoOpState, RepoView,
};

verus! {

// ── Selecting all ────────────────────────────────────────────────────────────

/// Why `a` left one or more repositories out of the batch selection.
///
/// The fields describe user-visible eligibility rather than implementation state, so the status
/// bar can explain a partial selection.
#[derive(Debug, Clone, Copy, PartialEq, Eq, Structural)]
pub struct SelectionOutcome {
    pub selected: usize,
    pub no_upstream: usize,
    pub no_updates: usize,
    /// Skipped due to an active, unresolved merge/rebase conflict. A merely dirty tree is not
    /// skipped for this reason; see `unsafe_pull`.
    pub conflicted: usize,
    /// Skipped because `git pull --ff-only` would fail: either the branches diverged, or (on a
    /// dirty tree) an incoming path collides with a local change. Pull-mode only; Merge and Rebase
    /// have no such restriction.
    pub unsafe_pull: usize,
}

/// A number of things, or nothing where there are none.
pub open spec fn tally(n: usize, what: Seq<char>) -> Seq<Seq<char>> {
    if n > 0 {
        seq![decimal(n as nat) + what]
    } else {
        Seq::empty()
    }
}

impl SelectionOutcome {
    /// What was skipped, and why.
    pub open spec fn skipped(self) -> Seq<Seq<char>> {
        tally(self.no_upstream, " no upstream"@) + tally(self.no_updates, " no updates"@) + tally(
            self.conflicted,
            " conflicted"@,
        ) + tally(self.unsafe_pull, " not FF-safe"@)
    }

    /// What the user is told of the selection.
    pub open spec fn notice_text(self) -> Seq<char> {
        if self.skipped().len() == 0 {
            "Selected "@ + decimal(self.selected as nat)
        } else {
            "Selected "@ + decimal(self.selected as nat) + "; skipped "@ + joined(
                self.skipped(),
                ", "@,
            )
        }
    }

    /// What the user is told of the selection.
    pub fn notice(&self) -> (r: String)
        ensures
            r@ == self.notice_text(),
    {
        let mut skipped: Vec<String> = Vec::new();
        proof {
            assert(texts(skipped@) =~= Seq::<Seq<char>>::empty());
        }
        push_tally(&mut skipped, self.no_upstream, " no upstream");
        push_tally(&mut skipped, self.no_updates, " no updates");
        push_tally(&mut skipped, self.conflicted, " conflicted");
        push_tally(&mut skipped, self.unsafe_pull, " not FF-safe");
        proof {
            assert(texts(skipped@) =~= self.skipped());
        }
        let n = decimal_usize(self.selected);
        if skipped.len() == 0 {
            cat2("Selected ", n.as_str())
        } else {
            let list = join(&skipped, ", ");
            cat4("Selected ", n.as_str(), "; skipped ", list.as_str())
        }
    }
}

/// Appends a number of things, unless there are none.
fn push_tally(list: &mut Vec<String>, n: usize, what: &str)
    ensures
        texts(final(list)@) == texts(old(list)@) + tally(n, what@),
{
    if n > 0 {
        let d = decimal_usize(n);
        let entry = cat2(d.as_str(), what);
        proof {
            lemma_texts_push(list@, entry);
            assert(texts(list@) + tally(n, what@) =~= texts(list@).push(entry@));
        }
        list.push(entry);
    } else {
        proof {
            assert(texts(list@) + tally(n, what@) =~= texts(list@));
        }
    }
}

/// What becomes of a repository when all are selected.
pub enum Eligibility {
    /// It has no upstream, or its head is detached: remote operations are impossible.
    NoUpstream,
    /// It has unresolved conflicts.
    Conflicted,
    /// The mode has nothing to do there.
    NoUpdates,
    /// It is to be pulled, but cannot be fast-forwarded.
    UnsafePull,
    /// It is selected.
    Selected,
    /// It is selected already, or being worked on.
    Busy,
}

/// What becomes of a repository when all are selected in `mode`.
pub open spec fn eligibility(r: RepoModel, mode: Mode) -> Eligibility {
    if r.snapshot.branch.no_upstream || r.snapshot.branch.detached {
        Eligibility::NoUpstream
    } else if r.snapshot.has_conflicts {
        Eligibility::Conflicted
    } else if !r.relevant(mode) {
        Eligibility::NoUpdates
    } else if mode == Mode::Pull && !r.pull_safe {
        Eligibility::UnsafePull
    } else if r.state is Idle || r.state.has_result() {
        Eligibility::Selected
    } else {
        Eligibility::Busy
    }
}

/// Whether `e` becomes of a repository when all are selected in `mode`.
pub open spec fn becomes(e: Eligibility, mode: Mode) -> spec_fn(RepoModel) -> bool {
    |r: RepoModel| eligibility(r, mode) == e
}

/// A repository after all were selected in `mode`.
pub open spec fn chosen(r: RepoModel, mode: Mode) -> RepoModel {
    if eligibility(r, mode) is Selected {
        RepoModel { state: OpModel::Queued(QueueOrigin::User), ..r }
    } else {
        r
    }
}

/// What selecting all in `mode` comes to: how many are selected, and how many are skipped for
/// which reason.
pub open spec fn outcome_of(repos: Seq<RepoModel>, mode: Mode) -> SelectionOutcome {
    SelectionOutcome {
        selected: count_where(repos, becomes(Eligibility::Selected, mode)) as usize,
        no_upstream: count_where(repos, becomes(Eligibility::NoUpstream, mode)) as usize,
        no_updates: count_where(repos, becomes(Eligibility::NoUpdates, mode)) as usize,
        conflicted: count_where(repos, becomes(Eligibility::Conflicted, mode)) as usize,
        unsafe_pull: count_where(repos, becomes(Eligibility::UnsafePull, mode)) as usize,
    }
}

impl AppModel {
    /// With every repository selected that the mode applies to.
    pub open spec fn all_chosen(self) -> AppModel {
        AppModel { repos: self.repos.map_values(|r: RepoModel| chosen(r, self.mode)), ..self }
    }
}

impl App {
    /// Selects every repository that the mode applies to.
    ///
    /// A live conflict blocks any remote operation outright. A merely dirty tree is not skipped:
    /// the fast-forward check says whether it can still be pulled. Fast-forward safety is a
    /// requirement of Pull only; Merge and Rebase are the intentional ways to resolve diverged
    /// branches.
    pub fn queue_all(&mut self) -> (r: SelectionOutcome)
        ensures
            final(self)@ == old(self)@.all_chosen(),
            old(self).wf() ==> final(self).wf(),
            r == outcome_of(old(self)@.repos, old(self)@.mode),
    {
        let mode = self.mode;
        let ghost before = self@;
        let ghost repos = self@.repos;
        let n = self.repos.len();
        let mut selected: usize = 0;
        let mut no_upstream: usize = 0;
        let mut no_updates: usize = 0;
        let mut conflicted: usize = 0;
        let mut unsafe_pull: usize = 0;
        for i in 0..n
            invariant
                n == self.repos@.len(),
                repos.len() == n,
                mode == before.mode,
                self@ == (AppModel { repos: self@.repos, ..before }),
                old(self).wf() ==> self.wf(),
                forall|j: int| 0 <= j < i ==> (#[trigger] self@.repos[j]) == chosen(repos[j], mode),
                forall|j: int| i <= j < n ==> (#[trigger] self@.repos[j]) == repos[j],
                selected == count_where(
                    repos.take(i as int),
                    becomes(Eligibility::Selected, mode),
                ),
                no_upstream == count_where(
                    repos.take(i as int),
                    becomes(Eligibility::NoUpstream, mode),
                ),
                no_updates == count_where(
                    repos.take(i as int),
                    becomes(Eligibility::NoUpdates, mode),
                ),
                conflicted == count_where(
                    repos.take(i as int),
                    becomes(Eligibility::Conflicted, mode),
                ),
                unsafe_pull == count_where(
                    repos.take(i as int),
                    becomes(Eligibility::UnsafePull, mode),
                ),
                selected <= i,
                no_upstream <= i,
                no_updates <= i,
                conflicted <= i,
                unsafe_pull <= i,
        {
            proof {
                assert(repos.take(i + 1).drop_last() =~= repos.take(i as int));
                assert(repos.take(i + 1).last() == repos[i as int]);
                assert(self@.repos[i as int] == self.repos@[i as int]@);
            }
            let ghost here = self@.repos;
            let repo = &self.repos[i];
            if repo.snapshot.branch.no_upstream || repo.snapshot.branch.detached {
                no_upstream = no_upstream + 1;
            } else if repo.snapshot.has_conflicts {
                conflicted = conflicted + 1;
            } else if !mode_has_relevant_commits(repo, mode) {
                no_updates = no_updates + 1;
            } else if matches!(mode, Mode::Pull) && !repo.pull_safe {
                unsafe_pull = unsafe_pull + 1;
            } else if matches!(
                repo.state,
                RepoOpState::Idle | RepoOpState::Success(_) | RepoOpState::Fail { .. }
            ) {
                self.repos[i].state = RepoOpState::Queued(QueueOrigin::User);
                selected = selected + 1;
                proof {
                    assert(self@.repos =~= here.update(i as int, chosen(repos[i as int], mode)));
                }
            }
        }
        proof {
            assert(repos.take(n as int) =~= repos);
            assert(self@.repos =~= repos.map_values(|r: RepoModel| chosen(r, mode)));
        }
        SelectionOutcome { selected, no_upstream, no_updates, conflicted, unsafe_pull }
    }
}

/// Every repository is either selected now, or counted as skipped, or was selected or being worked
/// on before: the counts add up.
pub proof fn lemma_selection_adds_up(repos: Seq<RepoModel>, mode: Mode)
    ensures
        count_where(repos, becomes(Eligibility::NoUpstream, mode)) + count_where(
            repos,
            becomes(Eligibility::Conflicted, mode),
        ) + count_where(repos, becomes(Eligibility::NoUpdates, mode)) + count_where(
            repos,
            becomes(Eligibility::UnsafePull, mode),
        ) + count_where(repos, becomes(Eligibility::Selected, mode)) + count_where(
            repos,
            becomes(Eligibility::Busy, mode),
        ) == repos.len(),
    decreases repos.len(),
{
    if repos.len() > 0 {
        lemma_selection_adds_up(repos.drop_last(), mode);
    }
}

/// Selecting all deselects nothing, and selects only repositories with an upstream, without
/// conflicts, that the mode has something to do in; in Pull mode only those that can be
/// fast-forwarded.
pub proof fn lemma_select_all_is_safe(app: AppModel, i: int)
    requires
        0 <= i < app.repos.len(),
    ensures
        ({
            let was = app.repos[i];
            let is = app.all_chosen().repos[i];
            &&& was.state is Queued ==> is == was
            &&& was.state is Working ==> is == was
            &&& is.state is Queued && !(was.state is Queued) ==> {
                &&& !was.snapshot.branch.no_upstream
                &&& !was.snapshot.branch.detached
                &&& !was.snapshot.has_conflicts
                &&& was.relevant(app.mode)
                &&& app.mode == Mode::Pull ==> was.pull_safe
            }
        }),
{
}

/// Selecting all twice is selecting all once.
pub proof fn lemma_select_all_twice(app: AppModel)
    ensures
        app.all_chosen().all_chosen() == app.all_chosen(),
{
    assert(app.all_chosen().all_chosen().repos =~= app.all_chosen().repos);
}

// ── Clearing ─────────────────────────────────────────────────────────────────

/// A repository without its selection, its result and its fetch error.
pub open spec fn cleared(r: RepoModel) -> RepoModel {
    RepoModel {
        state: if r.state is Queued || r.state.has_result() {
            OpModel::Idle
        } else {
            r.state
        },
        fetch_error: None,
        ..r
    }
}

impl AppModel {
    /// Without any selection, result or fetch error.
    pub open spec fn all_cleared(self) -> AppModel {
        AppModel { repos: self.repos.map_values(|r: RepoModel| cleared(r)), ..self }
    }
}

impl App {
    /// `A`: clear the queue and all finished results and markers in one stroke, the bulk
    /// counterpart to per-repo Esc.
    pub fn clear_queue(&mut self)
        ensures
            final(self)@ == old(self)@.all_cleared(),
            old(self).wf() ==> final(self).wf(),
    {
        let ghost before = self@;
        let ghost repos = self@.repos;
        let n = self.repos.len();
        for i in 0..n
            invariant
                n == self.repos@.len(),
                repos.len() == n,
                self@ == (AppModel { repos: self@.repos, ..before }),
                old(self).wf() ==> self.wf(),
                forall|j: int| 0 <= j < i ==> (#[trigger] self@.repos[j]) == cleared(repos[j]),
                forall|j: int| i <= j < n ==> (#[trigger] self@.repos[j]) == repos[j],
        {
            let ghost here = self@.repos;
            proof {
                assert(here[i as int] == self.repos@[i as int]@);
            }
            if self.repos[i].is_queued() || self.repos[i].state.has_result() {
                self.repos[i].state = RepoOpState::Idle;
            }
            self.repos[i].fetch_error = None;
            proof {
                assert(self@.repos =~= here.update(i as int, cleared(repos[i as int])));
            }
        }
        proof {
            assert(self@.repos =~= repos.map_values(|r: RepoModel| cleared(r)));
        }
    }
}

/// After clearing, nothing is selected and no result or fetch error is left; what is being worked
/// on goes on.
pub proof fn lemma_clearing_leaves_nothing(app: AppModel, i: int)
    requires
        0 <= i < app.repos.len(),
    ensures
        ({
            let was = app.repos[i];
            let is = app.all_cleared().repos[i];
            &&& is.state is Idle || is.state is Working
            &&& is.state is Working <==> was.state is Working
            &&& is.fetch_error is None
            &&& is.snapshot == was.snapshot
        }),
{
}

// ── What a change of mode keeps ──────────────────────────────────────────────

/// A change of mode takes away the selections of the startup check and nothing else: what the user
/// selected stays selected, and nothing becomes selected.
pub proof fn lemma_mode_change_keeps_user_selection(app: AppModel, mode: Mode, i: int)
    requires
        0 <= i < app.repos.len(),
        mode != app.mode,
    ensures
        ({
            let was = app.repos[i];
            let is = app.in_mode(mode).repos[i];
            &&& was.state == OpModel::Queued(QueueOrigin::Auto) ==> is.state is Idle
            &&& was.state != OpModel::Queued(QueueOrigin::Auto) ==> is == was
        }),
        app.in_mode(mode).repos.len() == app.repos.len(),
        app.in_mode(mode).outbox == app.outbox,
{
}

/// No repository stays selected by the startup check in a mode that it was not made for.
pub proof fn lemma_mode_change_clears_auto_selection(app: AppModel, mode: Mode)
    requires
        mode != app.mode,
    ensures
        count_where(app.in_mode(mode).repos, auto_queued()) == 0,
{
    lemma_none_auto(app.repos);
}

/// Without the selections of the startup check there are none.
proof fn lemma_none_auto(repos: Seq<RepoModel>)
    ensures
        count_where(repos.map_values(|r: RepoModel| without_auto(r)), auto_queued()) == 0,
    decreases repos.len(),
{
    let f = |r: RepoModel| without_auto(r);
    if repos.len() > 0 {
        lemma_none_auto(repos.drop_last());
        assert(repos.map_values(f).drop_last() =~= repos.drop_last().map_values(f));
    }
}

// ── What targets are ─────────────────────────────────────────────────────────

/// The path of a repository that `pred` holds of is among those collected, and no other.
proof fn lemma_paths_where(repos: Seq<RepoModel>, pred: spec_fn(RepoModel) -> bool, k: int)
    requires
        0 <= k < paths_where(repos, pred).len(),
    ensures
        exists|i: int|
            0 <= i < repos.len() && pred(#[trigger] repos[i]) && repos[i].snapshot.path
                == paths_where(repos, pred)[k],
    decreases repos.len(),
{
    let most = repos.drop_last();
    if pred(repos.last()) && k == paths_where(most, pred).len() {
        assert(pred(repos[repos.len() - 1]));
    } else {
        lemma_paths_where(most, pred, k);
        let i = choose|i: int|
            0 <= i < most.len() && pred(#[trigger] most[i]) && most[i].snapshot.path
                == paths_where(most, pred)[k];
        assert(repos[i] == most[i]);
        assert(pred(repos[i]));
    }
}

/// Where repositories are selected, no operation targets one that is not.
pub proof fn lemma_targets_are_selected(app: AppModel, keep: Keep, k: int)
    requires
        app.queued_count() > 0,
        0 <= k < app.targets(keep).len(),
    ensures
        exists|i: int|
            0 <= i < app.repos.len() && (#[trigger] app.repos[i]).state is Queued && keep.admits(
                app.repos[i],
            ) && app.repos[i].snapshot.path == app.targets(keep)[k],
{
    let pred = |r: RepoModel| r.state is Queued && keep.admits(r);
    lemma_paths_where(app.repos, pred, k);
    let i = choose|i: int|
        0 <= i < app.repos.len() && pred(#[trigger] app.repos[i]) && app.repos[i].snapshot.path
            == paths_where(app.repos, pred)[k];
    assert(app.repos[i].state is Queued);
}

/// No operation targets a repository that it makes no sense for.
pub proof fn lemma_targets_make_sense(app: AppModel, keep: Keep, k: int)
    requires
        0 <= k < app.targets(keep).len(),
    ensures
        exists|i: int|
            0 <= i < app.repos.len() && keep.admits(#[trigger] app.repos[i])
                && app.repos[i].snapshot.path == app.targets(keep)[k],
{
    if app.queued_count() > 0 {
        lemma_targets_are_selected(app, keep, k);
    } else {
        assert(keep.admits(app.repos[app.cursor as int]));
    }
}

/// Every selected repository is a target of an operation that makes sense for all.
pub proof fn lemma_selected_are_targets(app: AppModel)
    ensures
        app.queued_count() > 0 ==> app.targets(Keep::All).len() == app.queued_count(),
{
    let pred = |r: RepoModel| r.state is Queued && Keep::All.admits(r);
    lemma_as_many_paths(app.repos, pred, queued());
}

/// As many paths are collected as repositories are counted.
proof fn lemma_as_many_paths(
    repos: Seq<RepoModel>,
    p: spec_fn(RepoModel) -> bool,
    q: spec_fn(RepoModel) -> bool,
)
    requires
        forall|r: RepoModel| #[trigger] p(r) == q(r),
    ensures
        paths_where(repos, p).len() == count_where(repos, q),
    decreases repos.len(),
{
    if repos.len() > 0 {
        lemma_as_many_paths(repos.drop_last(), p, q);
        assert(p(repos.last()) == q(repos.last()));
    }
}

// ── Sorting ──────────────────────────────────────────────────────────────────

impl AppModel {
    /// With the list sorted, and the cursor on what it was on.
    pub open spec fn resorted(self) -> AppModel {
        let repos = sorted(self.repos, by_rule::<RepoView>(self.sort_mode));
        let cursor = match self.current_path() {
            Some(path) => match place(repos, path) {
                Some(i) => i as usize,
                None => self.cursor,
            },
            None => self.cursor,
        };
        AppModel { repos, cursor, ..self }
    }

    /// Sorted the other way.
    pub open spec fn sort_toggled(self) -> AppModel {
        AppModel {
            sort_mode: match self.sort_mode {
                SortMode::Name => SortMode::Modified,
                SortMode::Modified => SortMode::Name,
            },
            ..self
        }.resorted()
    }

    /// The place to start at: a repository with incoming commits, else a dirty one, else the first.
    pub open spec fn start_place(self) -> int {
        if exists|i: int| behind_at(self.repos, i) {
            first_where(self.repos, |r: RepoModel| r.snapshot.branch.behind > 0)
        } else if exists|i: int| dirty_at(self.repos, i) {
            first_where(self.repos, |r: RepoModel| r.snapshot.dirty)
        } else {
            0
        }
    }
}

/// Whether the repository at place `i` has incoming commits.
pub open spec fn behind_at(repos: Seq<RepoModel>, i: int) -> bool {
    0 <= i < repos.len() && repos[i].snapshot.branch.behind > 0
}

/// Whether the repository at place `i` is dirty.
pub open spec fn dirty_at(repos: Seq<RepoModel>, i: int) -> bool {
    0 <= i < repos.len() && repos[i].snapshot.dirty
}

/// The place of the first repository that `pred` holds of; the number of repositories where it
/// holds of none.
pub open spec fn first_where(repos: Seq<RepoModel>, pred: spec_fn(RepoModel) -> bool) -> int
    decreases repos.len(),
{
    if repos.len() == 0 {
        0
    } else {
        let i = first_where(repos.drop_last(), pred);
        if i < repos.len() - 1 {
            i
        } else if pred(repos.last()) {
            repos.len() - 1
        } else {
            repos.len() as int
        }
    }
}

/// The first is the first.
proof fn lemma_first_where(repos: Seq<RepoModel>, pred: spec_fn(RepoModel) -> bool, i: int)
    requires
        0 <= i < repos.len(),
        pred(repos[i]),
        forall|j: int| 0 <= j < i ==> !pred(#[trigger] repos[j]),
    ensures
        first_where(repos, pred) == i,
    decreases repos.len(),
{
    let most = repos.drop_last();
    if i < most.len() {
        assert forall|j: int| 0 <= j < i implies !pred(#[trigger] most[j]) by {
            assert(most[j] == repos[j]);
        }
        lemma_first_where(most, pred, i);
    } else {
        lemma_first_nowhere(most, pred);
    }
}

/// Where it holds of none there is no first.
proof fn lemma_first_nowhere(repos: Seq<RepoModel>, pred: spec_fn(RepoModel) -> bool)
    requires
        forall|j: int| 0 <= j < repos.len() ==> !pred(#[trigger] repos[j]),
    ensures
        first_where(repos, pred) == repos.len(),
    decreases repos.len(),
{
    if repos.len() > 0 {
        let most = repos.drop_last();
        assert forall|j: int| 0 <= j < most.len() implies !pred(#[trigger] most[j]) by {
            assert(most[j] == repos[j]);
        }
        lemma_first_nowhere(most, pred);
        assert(repos.last() == repos[repos.len() - 1]);
    }
}

/// The first is in the list, where there is one.
proof fn lemma_first_exists(repos: Seq<RepoModel>, pred: spec_fn(RepoModel) -> bool, i: int)
    requires
        0 <= i < repos.len(),
        pred(repos[i]),
    ensures
        0 <= first_where(repos, pred) < repos.len(),
    decreases repos.len(),
{
    let most = repos.drop_last();
    lemma_first_bounded(most, pred);
    if i < most.len() {
        lemma_first_exists(most, pred, i);
    }
}

/// The first is never before the list nor far behind it.
proof fn lemma_first_bounded(repos: Seq<RepoModel>, pred: spec_fn(RepoModel) -> bool)
    ensures
        0 <= first_where(repos, pred) <= repos.len(),
    decreases repos.len(),
{
    if repos.len() > 0 {
        lemma_first_bounded(repos.drop_last(), pred);
    }
}

/// The place to start at is in the list, or zero where the list is empty.
pub proof fn lemma_start_place(app: AppModel)
    ensures
        0 <= app.start_place() < app.repos.len() || (app.start_place() == 0 && app.repos.len()
            == 0),
{
    if exists|i: int| behind_at(app.repos, i) {
        let i = choose|i: int| behind_at(app.repos, i);
        lemma_first_exists(app.repos, |r: RepoModel| r.snapshot.branch.behind > 0, i);
    } else if exists|i: int| dirty_at(app.repos, i) {
        let i = choose|i: int| dirty_at(app.repos, i);
        lemma_first_exists(app.repos, |r: RepoModel| r.snapshot.dirty, i);
    }
}

impl App {
    /// Sorts the list, and keeps the cursor on what it is on.
    pub fn sort(&mut self)
        ensures
            final(self)@ == old(self)@.resorted(),
            old(self).wf() ==> final(self).wf(),
    {
        let selected = self.current_path();
        let rule = self.sort_mode;
        sort_by(&mut self.repos, &rule);
        if let Some(path) = selected {
            if let Some(i) = self.find_repo(path.as_str()) {
                self.cursor = i;
            }
        }
    }

    /// Sorts the list the other way.
    pub fn toggle_sort(&mut self)
        ensures
            final(self)@ == old(self)@.sort_toggled(),
            old(self).wf() ==> final(self).wf(),
    {
        self.sort_mode = match self.sort_mode {
            SortMode::Name => SortMode::Modified,
            SortMode::Modified => SortMode::Name,
        };
        self.sort();
    }

    /// Puts the cursor on a repo that needs attention: incoming commits first, then dirty.
    pub fn auto_select(&mut self)
        ensures
            final(self)@ == (AppModel { cursor: old(self)@.start_place() as usize, ..old(self)@ }),
            old(self).wf() ==> final(self).wf(),
    {
        let ghost repos = self@.repos;
        let n = self.repos.len();
        for i in 0..n
            invariant
                n == self.repos@.len(),
                self@ == old(self)@,
                old(self).wf() ==> self.wf(),
                repos == self@.repos,
                forall|j: int| 0 <= j < i ==> !behind_at(repos, j),
        {
            proof {
                assert(repos[i as int] == self.repos@[i as int]@);
            }
            if self.repos[i].snapshot.branch.behind > 0 {
                self.cursor = i;
                proof {
                    assert(behind_at(repos, i as int));
                    let pred = |r: RepoModel| r.snapshot.branch.behind > 0;
                    assert forall|j: int| 0 <= j < i implies !pred(#[trigger] repos[j]) by {
                        assert(!behind_at(repos, j));
                    }
                    lemma_first_where(repos, pred, i as int);
                }
                return;
            }
        }
        for i in 0..n
            invariant
                n == self.repos@.len(),
                self@ == old(self)@,
                old(self).wf() ==> self.wf(),
                repos == self@.repos,
                forall|j: int| 0 <= j < n ==> !behind_at(repos, j),
                forall|j: int| 0 <= j < i ==> !dirty_at(repos, j),
        {
            proof {
                assert(repos[i as int] == self.repos@[i as int]@);
            }
            if self.repos[i].snapshot.dirty {
                self.cursor = i;
                proof {
                    assert(dirty_at(repos, i as int));
                    let pred = |r: RepoModel| r.snapshot.dirty;
                    assert forall|j: int| 0 <= j < i implies !pred(#[trigger] repos[j]) by {
                        assert(!dirty_at(repos, j));
                    }
                    lemma_first_where(repos, pred, i as int);
                }
                return;
            }
        }
        self.cursor = 0;
    }
}

/// Sorting keeps every repository, puts them in order, and keeps those of equal rank as they stood.
pub proof fn lemma_resorted_list(app: AppModel, x: RepoModel)
    ensures
        app.resorted().repos.to_multiset() == app.repos.to_multiset(),
        in_order(app.resorted().repos, by_rule::<RepoView>(app.sort_mode)),
        peers(app.resorted().repos, x, by_rule::<RepoView>(app.sort_mode)) == peers(
            app.repos,
            x,
            by_rule::<RepoView>(app.sort_mode),
        ),
{
    let before = by_rule::<RepoView>(app.sort_mode);
    lemma_sort_modes_rank(app.sort_mode);
    lemma_sorted_is_permutation(app.repos, before);
    lemma_sorted_is_in_order(app.repos, before);
    lemma_sorted_is_stable(app.repos, x, before);
}

/// A sorted list holds every repository of the list before.
proof fn lemma_resorted_holds(app: AppModel, i: int)
    requires
        0 <= i < app.repos.len(),
    ensures
        exists|j: int|
            0 <= j < app.resorted().repos.len() && #[trigger] app.resorted().repos[j]
                == app.repos[i],
{
    broadcast use vstd::seq_lib::group_to_multiset_ensures;

    lemma_sorted_is_permutation(app.repos, by_rule::<RepoView>(app.sort_mode));
    let r = app.repos[i];
    let after = app.resorted().repos;
    assert(app.repos.contains(r));
    assert(app.repos.to_multiset().count(r) > 0);
    assert(after.to_multiset().count(r) > 0);
    assert(after.contains(r));
    let j = choose|j: int| 0 <= j < after.len() && after[j] == r;
    assert(after[j] == app.repos[i]);
}

/// Sorting leaves the cursor on the path that it was on.
pub proof fn lemma_sort_keeps_selection(app: AppModel)
    requires
        !app.worktree_mode,
        app.cursor < app.repos.len() <= usize::MAX,
    ensures
        app.resorted().current() matches Some(repo) && same_path(
            repo.snapshot.path,
            app.repos[app.cursor as int].snapshot.path,
        ),
{
    let path = app.repos[app.cursor as int].snapshot.path;
    let after = app.resorted().repos;
    lemma_resorted_holds(app, app.cursor as int);
    lemma_sorted_is_permutation(app.repos, by_rule::<RepoView>(app.sort_mode));
    let j = choose|j: int|
        0 <= j < after.len() && #[trigger] after[j] == app.repos[app.cursor as int];
    assert(same_path(after[j].snapshot.path, path));
    lemma_place(after, path);
}

// ── What selecting all comes to ──────────────────────────────────────────────

/// Whether a repository could be selected: nothing is under way there and it is not selected, it is
/// on a branch with an upstream, and it has no conflicts.
pub open spec fn selectable(r: RepoModel) -> bool {
    &&& r.state is Idle || r.state is Success || r.state is Fail
    &&& !r.snapshot.branch.no_upstream
    &&& !r.snapshot.branch.detached
    &&& !r.snapshot.has_conflicts
}

/// In Push mode `a` selects a repository exactly when it is ahead of its upstream, whatever it is
/// behind; in Merge and in Rebase mode exactly when it is behind, whatever it is ahead; and in Pull
/// mode when it is behind and safe to pull.
pub proof fn lemma_select_all_goes_by_counts(app: AppModel, i: int)
    requires
        0 <= i < app.repos.len(),
        selectable(app.repos[i]),
    ensures
        ({
            let was = app.repos[i];
            let is = app.selecting_all().repos[i];
            let ahead = was.snapshot.branch.ahead;
            let behind = was.snapshot.branch.behind;
            &&& app.mode == Mode::Push ==> (is.state is Queued <==> ahead >= 1)
            &&& app.mode == Mode::Merge ==> (is.state is Queued <==> behind >= 1)
            &&& app.mode == Mode::Rebase ==> (is.state is Queued <==> behind >= 1)
            &&& app.mode == Mode::Pull ==> (is.state is Queued <==> behind >= 1 && was.pull_safe)
            &&& is.state is Queued ==> is.state == OpModel::Queued(QueueOrigin::User)
            &&& !(is.state is Queued) ==> is == was
            &&& is.snapshot == was.snapshot
        }),
{
}

/// What cannot be selected is left as it is when all are selected.
pub proof fn lemma_select_all_leaves_the_rest(app: AppModel, i: int)
    requires
        0 <= i < app.repos.len(),
        !selectable(app.repos[i]),
    ensures
        app.selecting_all().repos[i] == app.repos[i],
        app.selecting_all().repos.len() == app.repos.len(),
        app.selecting_all().outbox == app.outbox,
{
}

/// Counting by two predicates that say the same gives the same.
proof fn lemma_same_count(
    repos: Seq<RepoModel>,
    p: spec_fn(RepoModel) -> bool,
    q: spec_fn(RepoModel) -> bool,
)
    requires
        forall|r: RepoModel| #[trigger] p(r) == q(r),
    ensures
        count_where(repos, p) == count_where(repos, q),
    decreases repos.len(),
{
    if repos.len() > 0 {
        lemma_same_count(repos.drop_last(), p, q);
    }
}

/// No more are counted than there are.
proof fn lemma_count_bound(repos: Seq<RepoModel>, p: spec_fn(RepoModel) -> bool)
    ensures
        count_where(repos, p) <= repos.len(),
    decreases repos.len(),
{
    if repos.len() > 0 {
        lemma_count_bound(repos.drop_last(), p);
    }
}

/// Whether commits are there that the mode would move.
pub open spec fn has_commits_for(r: RepoModel, mode: Mode) -> bool {
    if mode == Mode::Push {
        r.snapshot.branch.ahead >= 1
    } else {
        r.snapshot.branch.behind >= 1
    }
}

/// The reasons that are given for skipping are told apart by what a repository is: without an
/// upstream or a branch; in conflict; with no commits to move, ahead of the upstream for a push and
/// behind it otherwise; or, in Pull mode, not safe to pull. The first that holds is given.
pub proof fn lemma_skipped_for_a_reason(repos: Seq<RepoModel>, mode: Mode)
    requires
        repos.len() <= usize::MAX,
    ensures
        ({
            let o = outcome_of(repos, mode);
            let homeless = |r: RepoModel| r.snapshot.branch.no_upstream || r.snapshot.branch.detached;
            &&& o.no_upstream == count_where(repos, homeless)
            &&& o.conflicted == count_where(
                repos,
                |r: RepoModel|
                    !(r.snapshot.branch.no_upstream || r.snapshot.branch.detached)
                        && r.snapshot.has_conflicts,
            )
            &&& o.no_updates == count_where(
                repos,
                |r: RepoModel|
                    !(r.snapshot.branch.no_upstream || r.snapshot.branch.detached)
                        && !r.snapshot.has_conflicts && !has_commits_for(r, mode),
            )
            &&& o.unsafe_pull == count_where(
                repos,
                |r: RepoModel|
                    !(r.snapshot.branch.no_upstream || r.snapshot.branch.detached)
                        && !r.snapshot.has_conflicts && has_commits_for(r, mode) && mode
                        == Mode::Pull && !r.pull_safe,
            )
            &&& o.selected == count_where(
                repos,
                |r: RepoModel|
                    selectable(r) && has_commits_for(r, mode) && (mode == Mode::Pull
                        ==> r.pull_safe),
            )
        }),
{
    let a = |r: RepoModel| r.snapshot.branch.no_upstream || r.snapshot.branch.detached;
    let b = |r: RepoModel|
        !(r.snapshot.branch.no_upstream || r.snapshot.branch.detached) && r.snapshot.has_conflicts;
    let c = |r: RepoModel|
        !(r.snapshot.branch.no_upstream || r.snapshot.branch.detached) && !r.snapshot.has_conflicts
            && !has_commits_for(r, mode);
    let d = |r: RepoModel|
        !(r.snapshot.branch.no_upstream || r.snapshot.branch.detached) && !r.snapshot.has_conflicts
            && has_commits_for(r, mode) && mode == Mode::Pull && !r.pull_safe;
    let e = |r: RepoModel|
        selectable(r) && has_commits_for(r, mode) && (mode == Mode::Pull ==> r.pull_safe);
    lemma_count_bound(repos, a);
    lemma_count_bound(repos, b);
    lemma_count_bound(repos, c);
    lemma_count_bound(repos, d);
    lemma_count_bound(repos, e);
    lemma_same_count(repos, becomes(Eligibility::NoUpstream, mode), a);
    lemma_same_count(repos, becomes(Eligibility::Conflicted, mode), b);
    lemma_same_count(repos, becomes(Eligibility::NoUpdates, mode), c);
    lemma_same_count(repos, becomes(Eligibility::UnsafePull, mode), d);
    lemma_same_count(repos, becomes(Eligibility::Selected, mode), e);
}

/// The notice tells how many were selected, and each reason for skipping with its number, where
/// there is one.
pub proof fn lemma_notice_tells_numbers(o: SelectionOutcome)
    ensures
        ("Selected "@ + decimal(o.selected as nat)).is_prefix_of(o.notice_text()),
        o.no_upstream == 0 && o.no_updates == 0 && o.conflicted == 0 && o.unsafe_pull == 0
            ==> o.notice_text() == "Selected "@ + decimal(o.selected as nat),
        o.no_upstream > 0 ==> o.skipped().contains(
            decimal(o.no_upstream as nat) + " no upstream"@,
        ),
        o.no_updates > 0 ==> o.skipped().contains(decimal(o.no_updates as nat) + " no updates"@),
        o.conflicted > 0 ==> o.skipped().contains(decimal(o.conflicted as nat) + " conflicted"@),
        o.unsafe_pull > 0 ==> o.skipped().contains(
            decimal(o.unsafe_pull as nat) + " not FF-safe"@,
        ),
        o.skipped().len() == (if o.no_upstream > 0 {
            1int
        } else {
            0
        }) + (if o.no_updates > 0 {
            1int
        } else {
            0
        }) + (if o.conflicted > 0 {
            1int
        } else {
            0
        }) + (if o.unsafe_pull > 0 {
            1int
        } else {
            0
        }),
        o.skipped().len() > 0 ==> (("; skipped "@ + joined(o.skipped(), ", "@)).is_suffix_of(
            o.notice_text(),
        )),
{
    let a = tally(o.no_upstream, " no upstream"@);
    let b = tally(o.no_updates, " no updates"@);
    let c = tally(o.conflicted, " conflicted"@);
    let d = tally(o.unsafe_pull, " not FF-safe"@);
    let all = o.skipped();
    if o.no_upstream > 0 {
        assert(all[0] == a[0]);
    }
    if o.no_updates > 0 {
        assert(all[a.len() as int] == b[0]);
    }
    if o.conflicted > 0 {
        assert(all[(a.len() + b.len()) as int] == c[0]);
    }
    if o.unsafe_pull > 0 {
        assert(all[(a.len() + b.len() + c.len()) as int] == d[0]);
    }
}

// ── What sorting comes to ────────────────────────────────────────────────────

/// By name the list goes from the first name to the last; by time from the latest commit to the
/// oldest, with what has none behind.
pub proof fn lemma_sorted_list_goes_by_name_or_time(app: AppModel, i: int, j: int)
    requires
        0 <= i < j < app.resorted().repos.len(),
    ensures
        ({
            let a = app.resorted().repos[i].snapshot;
            let b = app.resorted().repos[j].snapshot;
            &&& app.sort_mode == SortMode::Name ==> a.name == b.name || text_before(a.name, b.name)
            &&& app.sort_mode == SortMode::Modified ==> match (a.last_modified, b.last_modified) {
                (Some(x), Some(y)) => x >= y,
                (Some(_), None) => true,
                (None, Some(_)) => false,
                (None, None) => a.name == b.name || text_before(a.name, b.name),
            }
        }),
{
    let before = by_rule::<RepoView>(app.sort_mode);
    let rs = app.resorted().repos;
    lemma_resorted_list(app, rs[i]);
    assert(in_order(rs, before));
    assert(!before(rs[j], rs[i]));
    lemma_text_order_total(rs[i].snapshot.name, rs[j].snapshot.name);
}

/// `t` sorts the other way: from time to name, and from name to time.
pub proof fn lemma_t_changes_the_order(app: AppModel)
    ensures
        app.sort_mode == SortMode::Name ==> app.sort_toggled().sort_mode == SortMode::Modified,
        app.sort_mode == SortMode::Modified ==> app.sort_toggled().sort_mode == SortMode::Name,
        app.sort_toggled().repos.to_multiset() == app.repos.to_multiset(),
{
    let other = AppModel {
        sort_mode: match app.sort_mode {
            SortMode::Name => SortMode::Modified,
            SortMode::Modified => SortMode::Name,
        },
        ..app
    };
    if app.repos.len() > 0 {
        lemma_resorted_list(other, app.repos[0]);
    } else {
        assert(other.resorted().repos =~= app.repos);
    }
}

/// The cursor starts on the first repository with incoming commits; where there is none, on the
/// first with changes; where there is none either, on the first.
pub proof fn lemma_start_on_what_needs_attention(app: AppModel, i: int)
    requires
        0 <= i < app.repos.len(),
    ensures
        app.repos[i].snapshot.branch.behind > 0 ==> app.start_place() <= i
            && app.repos[app.start_place()].snapshot.branch.behind > 0,
        (forall|j: int| 0 <= j < app.repos.len() ==> (#[trigger] app.repos[j]).snapshot.branch.behind
            == 0) && app.repos[i].snapshot.dirty ==> app.start_place() <= i
            && app.repos[app.start_place()].snapshot.dirty,
        (forall|j: int|
            0 <= j < app.repos.len() ==> (#[trigger] app.repos[j]).snapshot.branch.behind == 0
                && !app.repos[j].snapshot.dirty) ==> app.start_place() == 0,
{
    let behind = |r: RepoModel| r.snapshot.branch.behind > 0;
    let dirty = |r: RepoModel| r.snapshot.dirty;
    if app.repos[i].snapshot.branch.behind > 0 {
        assert(behind_at(app.repos, i));
        lemma_first_holds(app.repos, behind, i);
    }
    if (forall|j: int| 0 <= j < app.repos.len() ==> (#[trigger] app.repos[j]).snapshot.branch.behind
        == 0) && app.repos[i].snapshot.dirty {
        assert(dirty_at(app.repos, i));
        lemma_first_holds(app.repos, dirty, i);
    }
}

/// The first that `pred` holds of is no later than any, and `pred` holds of it.
proof fn lemma_first_holds(repos: Seq<RepoModel>, pred: spec_fn(RepoModel) -> bool, i: int)
    requires
        0 <= i < repos.len(),
        pred(repos[i]),
    ensures
        0 <= first_where(repos, pred) <= i,
        pred(repos[first_where(repos, pred)]),
    decreases repos.len(),
{
    let most = repos.drop_last();
    lemma_first_in_range(most, pred);
    if i < most.len() {
        assert(most[i] == repos[i]);
        lemma_first_holds(most, pred, i);
        assert(most[first_where(most, pred)] == repos[first_where(most, pred)]);
    } else if first_where(most, pred) < most.len() {
        assert(most[first_where(most, pred)] == repos[first_where(most, pred)]);
    }
}

/// The place of the first is in the list and `pred` holds of it, or it is behind the list.
proof fn lemma_first_in_range(repos: Seq<RepoModel>, pred: spec_fn(RepoModel) -> bool)
    ensures
        0 <= first_where(repos, pred) <= repos.len(),
        first_where(repos, pred) < repos.len() ==> pred(repos[first_where(repos, pred)]),
    decreases repos.len(),
{
    if repos.len() > 0 {
        let most = repos.drop_last();
        lemma_first_in_range(most, pred);
        if first_where(most, pred) < most.len() {
            assert(most[first_where(most, pred)] == repos[first_where(most, pred)]);
        }
    }
}

} // verus!
