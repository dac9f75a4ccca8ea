//! Moving about the list, selecting repositories, and sorting them.

use std::collections::VecDeque;

use vstd::prelude::*;
use vstd::string::*;

use crate::chars::{cat2, cat3, cat4, lemma_texts_push, opt_text, texts};
use crate::mode::Mode;
use crate::numbers::{decimal, decimal_usize};
use crate::order::views_of;
use crate::paths::{is_same_path, same_path};
use crate::tui::app::{
    count_where, initial, lemma_place, paths_where, place, App, AppModel, Keep, SortMode,
};
use crate::tui::panel::{clamped, moved};
use crate::tui::repo::{
    mode_has_relevant_commits, OpModel, QueueOrigin, RepoModel, RepoOpState, RepoView,
};
use crate::tui::worktree::WtRowModel;

verus! {

// ── Finding repositories ─────────────────────────────────────────────────────

impl AppModel {
    /// The repository under the cursor.
    pub open spec fn current(self) -> Option<RepoModel> {
        if self.cursor < self.repos.len() {
            Some(self.repos[self.cursor as int])
        } else {
            None
        }
    }

    /// The row of the worktree view under the cursor.
    pub open spec fn current_row(self) -> Option<WtRowModel> {
        if self.wt_cursor < self.wt_rows.len() {
            Some(self.wt_rows[self.wt_cursor as int])
        } else {
            None
        }
    }

    /// The path of what is selected: a worktree in worktree mode, else a repository.
    pub open spec fn current_path(self) -> Option<Seq<char>> {
        if self.worktree_mode {
            match self.current_row() {
                Some(row) => Some(row.path),
                None => None,
            }
        } else {
            match self.current() {
                Some(repo) => Some(repo.snapshot.path),
                None => None,
            }
        }
    }

    /// The path of the repository that what is selected belongs to.
    pub open spec fn current_repo_path(self) -> Option<Seq<char>> {
        if self.worktree_mode {
            match self.current_row() {
                Some(row) => Some(row.repo_path),
                None => None,
            }
        } else {
            match self.current() {
                Some(repo) => Some(repo.snapshot.path),
                None => None,
            }
        }
    }

    /// The place of the repository that what is selected belongs to.
    pub open spec fn current_place(self) -> Option<int> {
        match self.current_repo_path() {
            Some(path) => place(self.repos, path),
            None => None,
        }
    }

    /// With the repository at place `i` replaced, where there is such a place.
    pub open spec fn with_repo(self, i: Option<int>, f: spec_fn(RepoModel) -> RepoModel) -> AppModel {
        match i {
            Some(k) => AppModel { repos: self.repos.update(k, f(self.repos[k])), ..self },
            None => self,
        }
    }

    /// With the state of the repository at place `i` replaced.
    pub open spec fn with_state(self, i: Option<int>, state: OpModel) -> AppModel {
        self.with_repo(i, |r: RepoModel| RepoModel { state, ..r })
    }

    /// The name of the repository at `path`.
    pub open spec fn repo_name(self, path: Seq<char>) -> Option<Seq<char>> {
        match place(self.repos, path) {
            Some(i) => Some(self.repos[i].snapshot.name),
            None => None,
        }
    }
}

/// The view of an optional index.
pub open spec fn opt_index(o: Option<usize>) -> Option<int> {
    match o {
        Some(i) => Some(i as int),
        None => None,
    }
}

impl App {
    /// Whether the prompt, where there is one, has its cursor on a char boundary.
    pub open spec fn wf(self) -> bool {
        match self.prompt {
            Some(p) => p.wf(),
            None => true,
        }
    }

    /// The state at the start, with `load_total` repositories to be loaded.
    pub fn new(mode: Mode, auto_stash: bool, load_total: usize) -> (r: Self)
        ensures
            r@ == initial(mode, auto_stash, load_total),
            r.wf(),
    {
        let r = App {
            repos: Vec::new(),
            cursor: 0,
            table_offset: 0,
            loading: true,
            load_done: 0,
            load_total,
            mode,
            auto_stash,
            show_help: false,
            help_scroll: 0,
            sort_mode: SortMode::Modified,
            panel: None,
            pending_panel: None,
            panel_viewport: 1,
            prompt: None,
            worktree_mode: false,
            wt_rows: Vec::new(),
            wt_cursor: 0,
            wt_offset: 0,
            msg_scroll: 0,
            auth_prompt: None,
            auth_prompt_queue: VecDeque::new(),
            confirm_prompt: None,
            confirm_prompt_queue: VecDeque::new(),
            tick: 0,
            now: 0,
            last_refresh: 0,
            needs_full_redraw: false,
            notice: None,
            col_widths: None,
            outbox: Vec::new(),
        };
        proof {
            assert(r@ =~= initial(mode, auto_stash, load_total));
        }
        r
    }

    /// The place of the first repository at `path`.
    pub fn find_repo(&self, path: &str) -> (r: Option<usize>)
        ensures
            opt_index(r) == place(self@.repos, path@),
            r matches Some(i) ==> i < self.repos@.len(),
    {
        let ghost repos = self@.repos;
        proof {
            lemma_place(repos, path@);
        }
        for i in 0..self.repos.len()
            invariant
                repos == views_of(self.repos@),
                forall|j: int| 0 <= j < i ==> !same_path((#[trigger] repos[j]).snapshot.path, path@),
                match place(repos, path@) {
                    Some(k) => {
                        &&& 0 <= k < repos.len()
                        &&& same_path(repos[k].snapshot.path, path@)
                        &&& forall|j: int|
                            0 <= j < k ==> !same_path((#[trigger] repos[j]).snapshot.path, path@)
                    },
                    None => forall|j: int|
                        0 <= j < repos.len() ==> !same_path(
                            (#[trigger] repos[j]).snapshot.path,
                            path@,
                        ),
                },
        {
            proof {
                assert(repos[i as int] == self.repos@[i as int]@);
            }
            if is_same_path(self.repos[i].snapshot.path.as_str(), path) {
                return Some(i);
            }
        }
        None
    }

    /// The repository under the cursor.
    pub fn current(&self) -> (r: Option<&RepoView>)
        ensures
            match r {
                Some(repo) => self@.current() == Some(repo@),
                None => self@.current() is None,
            },
    {
        if self.cursor < self.repos.len() {
            Some(&self.repos[self.cursor])
        } else {
            None
        }
    }

    /// The path of what is selected: a worktree in worktree mode, else a repository.
    pub fn current_path(&self) -> (r: Option<String>)
        ensures
            opt_text(r) == self@.current_path(),
    {
        if self.worktree_mode {
            if self.wt_cursor < self.wt_rows.len() {
                Some(self.wt_rows[self.wt_cursor].path.clone())
            } else {
                None
            }
        } else {
            match self.current() {
                Some(repo) => Some(repo.snapshot.path.clone()),
                None => None,
            }
        }
    }

    /// The primary repo that owns the current selection: itself outside worktree mode, or the repo
    /// a selected worktree row belongs to. A linked (non-primary) worktree has no place in the
    /// list of its own, so this is not always the same as `current_path()`.
    pub fn current_repo_path(&self) -> (r: Option<String>)
        ensures
            opt_text(r) == self@.current_repo_path(),
    {
        if self.worktree_mode {
            if self.wt_cursor < self.wt_rows.len() {
                Some(self.wt_rows[self.wt_cursor].repo_path.clone())
            } else {
                None
            }
        } else {
            match self.current() {
                Some(repo) => Some(repo.snapshot.path.clone()),
                None => None,
            }
        }
    }

    /// The place of the repository that what is selected belongs to.
    pub fn current_place(&self) -> (r: Option<usize>)
        ensures
            opt_index(r) == self@.current_place(),
            r matches Some(i) ==> i < self.repos@.len(),
    {
        match self.current_repo_path() {
            Some(path) => self.find_repo(path.as_str()),
            None => None,
        }
    }

    /// The name of the repository at `path`.
    pub fn repo_name_for_path(&self, path: &str) -> (r: Option<String>)
        ensures
            opt_text(r) == self@.repo_name(path@),
    {
        match self.find_repo(path) {
            Some(i) => Some(self.repos[i].snapshot.name.clone()),
            None => None,
        }
    }

    /// Replaces the state of the repository at place `i`, where there is such a place.
    pub fn set_state(&mut self, i: Option<usize>, state: RepoOpState)
        requires
            i matches Some(k) ==> k < old(self).repos@.len(),
        ensures
            final(self)@ == old(self)@.with_state(opt_index(i), state@),
            old(self).wf() ==> final(self).wf(),
    {
        let ghost before = self@;
        if let Some(k) = i {
            let ghost s = state@;
            self.repos[k].state = state;
            proof {
                assert(self@.repos =~= before.repos.update(
                    k as int,
                    RepoModel { state: s, ..before.repos[k as int] },
                ));
            }
        }
    }
}

// ── Moving ───────────────────────────────────────────────────────────────────

impl AppModel {
    /// With the cursor moved by `delta` rows, and messages scrolled back.
    pub open spec fn after_move(self, delta: int) -> AppModel {
        let s = AppModel { msg_scroll: 0, ..self };
        if self.worktree_mode {
            if self.wt_rows.len() == 0 {
                s
            } else {
                AppModel {
                    wt_cursor: clamped(self.wt_cursor + delta, 0, self.wt_rows.len() - 1) as usize,
                    ..s
                }
            }
        } else if self.repos.len() == 0 {
            s
        } else {
            AppModel {
                cursor: clamped(self.cursor + delta, 0, self.repos.len() - 1) as usize,
                ..s
            }
        }
    }

    /// With the cursor on the first row.
    pub open spec fn at_top(self) -> AppModel {
        if self.worktree_mode {
            AppModel { wt_cursor: 0, ..self }
        } else {
            AppModel { cursor: 0, ..self }
        }
    }

    /// With the cursor on the last row.
    pub open spec fn at_bottom(self) -> AppModel {
        if self.worktree_mode {
            AppModel {
                wt_cursor: if self.wt_rows.len() > 0 {
                    (self.wt_rows.len() - 1) as usize
                } else {
                    0
                },
                ..self
            }
        } else {
            AppModel {
                cursor: if self.repos.len() > 0 {
                    (self.repos.len() - 1) as usize
                } else {
                    0
                },
                ..self
            }
        }
    }

    /// With what is selected toggled.
    pub open spec fn after_toggle(self) -> AppModel {
        self.with_repo(
            self.current_place(),
            |r: RepoModel| RepoModel { state: r.state.toggled(), ..r },
        )
    }
}

impl App {
    /// Moves the cursor by `delta` rows.
    pub fn move_cursor(&mut self, delta: isize)
        ensures
            final(self)@ == old(self)@.after_move(delta as int),
            old(self).wf() ==> final(self).wf(),
    {
        self.msg_scroll = 0;
        if self.worktree_mode {
            if self.wt_rows.len() == 0 {
                return;
            }
            let max: usize = self.wt_rows.len() - 1;
            self.wt_cursor = moved(self.wt_cursor, delta, max);
        } else {
            if self.repos.len() == 0 {
                return;
            }
            let max: usize = self.repos.len() - 1;
            self.cursor = moved(self.cursor, delta, max);
        }
    }

    /// Puts the cursor on the first row.
    pub fn move_to_top(&mut self)
        ensures
            final(self)@ == old(self)@.at_top(),
            old(self).wf() ==> final(self).wf(),
    {
        if self.worktree_mode {
            self.wt_cursor = 0;
        } else {
            self.cursor = 0;
        }
    }

    /// Puts the cursor on the last row.
    pub fn move_to_bottom(&mut self)
        ensures
            final(self)@ == old(self)@.at_bottom(),
            old(self).wf() ==> final(self).wf(),
    {
        if self.worktree_mode {
            self.wt_cursor = if self.wt_rows.len() > 0 {
                self.wt_rows.len() - 1
            } else {
                0
            };
        } else {
            self.cursor = if self.repos.len() > 0 {
                self.repos.len() - 1
            } else {
                0
            };
        }
    }

    /// Selects what the cursor is on, or deselects it.
    pub fn toggle_queue(&mut self)
        ensures
            final(self)@ == old(self)@.after_toggle(),
            old(self).wf() ==> final(self).wf(),
    {
        let ghost before = self@;
        if let Some(k) = self.current_place() {
            self.repos[k].toggle_queue();
            proof {
                let r = before.repos[k as int];
                assert(self@.repos =~= before.repos.update(
                    k as int,
                    RepoModel { state: r.state.toggled(), ..r },
                ));
            }
        }
    }
}

// ── Notices ──────────────────────────────────────────────────────────────────

/// The tick `n` ticks from `tick`, or the last one.
pub open spec fn later(tick: u64, n: u64) -> u64 {
    if tick + n > u64::MAX {
        u64::MAX
    } else {
        (tick + n) as u64
    }
}

impl AppModel {
    /// With a notice, which lasts for just over three seconds.
    pub open spec fn noticed(self, message: Seq<char>) -> AppModel {
        AppModel { notice: Some((message, later(self.tick, 38))), ..self }
    }

    /// The notice that is shown.
    pub open spec fn shown_notice(self) -> Option<Seq<char>> {
        match self.notice {
            Some((message, until)) => if self.tick <= until {
                Some(message)
            } else {
                None
            },
            None => None,
        }
    }

    /// Whether there is a notice whose time has passed.
    pub open spec fn notice_is_over(self) -> bool {
        match self.notice {
            Some((message, until)) => self.tick > until,
            None => false,
        }
    }
}

impl App {
    /// Shows a notice for just over three seconds: at an 80ms tick, 38 ticks.
    pub fn set_notice(&mut self, message: String)
        ensures
            final(self)@ == old(self)@.noticed(message@),
            old(self).wf() ==> final(self).wf(),
    {
        self.notice = Some((message, self.tick.saturating_add(38)));
    }

    /// The notice that is shown.
    pub fn active_notice(&self) -> (r: Option<&str>)
        ensures
            match r {
                Some(m) => self@.shown_notice() == Some(m@),
                None => self@.shown_notice() is None,
            },
    {
        match &self.notice {
            Some(pair) => if self.tick <= pair.1 {
                Some(pair.0.as_str())
            } else {
                None
            },
            None => None,
        }
    }

    /// Clear an expired notice and report whether it did: that is what earns it the one frame in
    /// which it vanishes from the screen.
    pub fn expire_notice(&mut self) -> (r: bool)
        ensures
            r == old(self)@.notice_is_over(),
            final(self)@ == (if old(self)@.notice_is_over() {
                AppModel { notice: None, ..old(self)@ }
            } else {
                old(self)@
            }),
            old(self).wf() ==> final(self).wf(),
    {
        let over = match &self.notice {
            Some(pair) => self.tick > pair.1,
            None => false,
        };
        if over {
            self.notice = None;
        }
        over
    }
}

// ── Counting ─────────────────────────────────────────────────────────────────

/// Whether a repository is selected.
pub open spec fn queued() -> spec_fn(RepoModel) -> bool {
    |r: RepoModel| r.state is Queued
}

/// Whether a repository is selected by the startup check.
pub open spec fn auto_queued() -> spec_fn(RepoModel) -> bool {
    |r: RepoModel| r.state == OpModel::Queued(QueueOrigin::Auto)
}

/// Whether a repository is selected by the user.
pub open spec fn user_queued() -> spec_fn(RepoModel) -> bool {
    |r: RepoModel| r.state == OpModel::Queued(QueueOrigin::User)
}

/// Whether a repository is being worked on.
pub open spec fn working() -> spec_fn(RepoModel) -> bool {
    |r: RepoModel| r.state is Working
}

impl AppModel {
    /// The number of selected repositories.
    pub open spec fn queued_count(self) -> nat {
        count_where(self.repos, queued())
    }

    /// Whether a repository is being worked on.
    pub open spec fn any_working(self) -> bool {
        exists|i: int| 0 <= i < self.repos.len() && (#[trigger] self.repos[i]).state is Working
    }

    /// Whether something on screen moves by itself.
    pub open spec fn is_animating(self) -> bool {
        ||| self.loading
        ||| self.any_working()
        ||| exists|i: int| 0 <= i < self.repos.len() && (#[trigger] self.repos[i]).fetching
        ||| self.shown_notice() is Some
    }

    /// What an operation applies to.
    pub open spec fn scope_label(self) -> Seq<char> {
        let n = self.queued_count();
        if n == 0 {
            "current repo"@
        } else {
            decimal(n) + " selected"@
        }
    }
}

impl App {
    /// The number of selected repositories.
    pub fn queued_count(&self) -> (r: usize)
        ensures
            r == self@.queued_count(),
    {
        let ghost repos = self@.repos;
        let mut n: usize = 0;
        for i in 0..self.repos.len()
            invariant
                repos == views_of(self.repos@),
                n == count_where(repos.take(i as int), queued()),
                n <= i,
        {
            proof {
                assert(repos.take(i + 1).drop_last() =~= repos.take(i as int));
                assert(repos.take(i + 1).last() == self.repos@[i as int]@);
            }
            if self.repos[i].is_queued() {
                n = n + 1;
            }
        }
        proof {
            assert(repos.take(repos.len() as int) =~= repos);
        }
        n
    }

    /// The number of repositories that are being worked on.
    pub fn working_count(&self) -> (r: usize)
        ensures
            r == count_where(self@.repos, working()),
    {
        let ghost repos = self@.repos;
        let mut n: usize = 0;
        for i in 0..self.repos.len()
            invariant
                repos == views_of(self.repos@),
                n == count_where(repos.take(i as int), working()),
                n <= i,
        {
            proof {
                assert(repos.take(i + 1).drop_last() =~= repos.take(i as int));
                assert(repos.take(i + 1).last() == self.repos@[i as int]@);
            }
            if matches!(self.repos[i].state, RepoOpState::Working) {
                n = n + 1;
            }
        }
        proof {
            assert(repos.take(repos.len() as int) =~= repos);
        }
        n
    }

    /// Whether a repository is being worked on.
    pub fn any_working(&self) -> (r: bool)
        ensures
            r == self@.any_working(),
    {
        let ghost repos = self@.repos;
        for i in 0..self.repos.len()
            invariant
                repos == views_of(self.repos@),
                forall|j: int| 0 <= j < i ==> !((#[trigger] repos[j]).state is Working),
        {
            proof {
                assert(repos[i as int] == self.repos@[i as int]@);
            }
            if matches!(self.repos[i].state, RepoOpState::Working) {
                return true;
            }
        }
        false
    }

    /// Whether a repository is being fetched in the background.
    fn any_fetching(&self) -> (r: bool)
        ensures
            r == exists|i: int|
                0 <= i < self@.repos.len() && (#[trigger] self@.repos[i]).fetching,
    {
        let ghost repos = self@.repos;
        for i in 0..self.repos.len()
            invariant
                repos == views_of(self.repos@),
                forall|j: int| 0 <= j < i ==> !(#[trigger] repos[j]).fetching,
        {
            proof {
                assert(repos[i as int] == self.repos@[i as int]@);
            }
            if self.repos[i].fetching {
                return true;
            }
        }
        false
    }

    /// True while something on screen is mid-animation (a spinner, or a counting-down notice) and
    /// therefore needs a redraw every tick even with no new event to react to.
    pub fn is_animating(&self) -> (r: bool)
        ensures
            r == self@.is_animating(),
    {
        self.loading || self.any_working() || self.any_fetching() || self.active_notice().is_some()
    }

    /// What an operation applies to, in words.
    pub fn selection_scope_label(&self) -> (r: String)
        ensures
            r@ == self@.scope_label(),
    {
        let n = self.queued_count();
        if n == 0 {
            "current repo".to_owned()
        } else {
            let d = decimal_usize(n);
            cat2(d.as_str(), " selected")
        }
    }
}

// ── Targets ──────────────────────────────────────────────────────────────────

impl AppModel {
    /// The repositories that an operation applies to: the selected ones, or the one under the
    /// cursor where none is selected; of those, the ones that it makes sense for.
    pub open spec fn targets(self, keep: Keep) -> Seq<Seq<char>> {
        if self.queued_count() > 0 {
            paths_where(self.repos, |r: RepoModel| r.state is Queued && keep.admits(r))
        } else {
            match self.current() {
                Some(repo) => if keep.admits(repo) {
                    seq![repo.snapshot.path]
                } else {
                    Seq::empty()
                },
                None => Seq::empty(),
            }
        }
    }

    /// Whether more than one repository is selected.
    pub open spec fn multi_target(self) -> bool {
        self.queued_count() > 1
    }
}

impl App {
    /// Paths of selected repos, or just the cursor repo when none are selected, filtered.
    ///
    /// Where repos are selected but none pass the filter, that is a real empty result, not
    /// "nothing selected": falling back to the cursor would silently target a repo the user never
    /// chose.
    pub fn target_paths_where(&self, keep: Keep) -> (r: Vec<String>)
        ensures
            texts(r@) == self@.targets(keep),
    {
        let ghost repos = self@.repos;
        let ghost pred = |r: RepoModel| r.state is Queued && keep.admits(r);
        let mut selected: Vec<String> = Vec::new();
        let mut any_queued = false;
        proof {
            assert(texts(selected@) =~= paths_where(repos.take(0), pred));
        }
        for i in 0..self.repos.len()
            invariant
                repos == views_of(self.repos@),
                pred == (|r: RepoModel| r.state is Queued && keep.admits(r)),
                texts(selected@) == paths_where(repos.take(i as int), pred),
                any_queued == (count_where(repos.take(i as int), queued()) > 0),
        {
            proof {
                assert(repos.take(i + 1).drop_last() =~= repos.take(i as int));
                assert(repos.take(i + 1).last() == self.repos@[i as int]@);
            }
            if self.repos[i].is_queued() {
                any_queued = true;
                if keep.keeps(&self.repos[i]) {
                    let path = self.repos[i].snapshot.path.clone();
                    proof {
                        lemma_texts_push(selected@, path);
                    }
                    selected.push(path);
                }
            }
        }
        proof {
            assert(repos.take(repos.len() as int) =~= repos);
        }
        if any_queued {
            return selected;
        }
        let mut out: Vec<String> = Vec::new();
        proof {
            assert(texts(out@) =~= Seq::<Seq<char>>::empty());
        }
        if let Some(repo) = self.current() {
            if keep.keeps(repo) {
                out.push(repo.snapshot.path.clone());
                proof {
                    assert(texts(out@) =~= seq![repo@.snapshot.path]);
                }
            }
        }
        out
    }

    /// Paths of selected repos, or just the cursor repo when none are selected.
    pub fn target_paths(&self) -> (r: Vec<String>)
        ensures
            texts(r@) == self@.targets(Keep::All),
    {
        self.target_paths_where(Keep::All)
    }

    /// Like `target_paths`, but only repos with local (dirty) changes.
    pub fn target_paths_dirty(&self) -> (r: Vec<String>)
        ensures
            texts(r@) == self@.targets(Keep::Dirty),
    {
        self.target_paths_where(Keep::Dirty)
    }

    /// Like `target_paths`, but only repos that have stash entries.
    pub fn target_paths_with_stash(&self) -> (r: Vec<String>)
        ensures
            texts(r@) == self@.targets(Keep::Stashed),
    {
        self.target_paths_where(Keep::Stashed)
    }

    /// True when more than one repo is selected.
    pub fn has_multi_target(&self) -> (r: bool)
        ensures
            r == self@.multi_target(),
    {
        self.queued_count() > 1
    }

    /// Number of repos that would be targeted, for the titles of prompts.
    pub fn target_count(&self) -> (r: usize)
        ensures
            r == (if self@.queued_count() > 0 {
                self@.queued_count()
            } else {
                1
            }),
    {
        let n = self.queued_count();
        if n > 0 {
            n
        } else {
            1
        }
    }
}

// ── Modes ────────────────────────────────────────────────────────────────────

/// Without the selection of the startup check.
pub open spec fn without_auto(r: RepoModel) -> RepoModel {
    if r.state == OpModel::Queued(QueueOrigin::Auto) {
        RepoModel { state: OpModel::Idle, ..r }
    } else {
        r
    }
}

/// Whether a repository is selected by the user although `mode` has nothing to do there.
pub open spec fn idle_in(mode: Mode) -> spec_fn(RepoModel) -> bool {
    |r: RepoModel| r.state == OpModel::Queued(QueueOrigin::User) && !r.relevant(mode)
}

/// What the user is told of a change of mode.
pub open spec fn mode_notice(mode: Mode, cleared: nat, idle: nat, selected: nat) -> Seq<char> {
    "Mode: "@ + mode.name() + (if cleared > 0 {
        " · cleared "@ + decimal(cleared) + " auto-selected"@
    } else {
        Seq::empty()
    }) + (if idle > 0 {
        " · "@ + decimal(idle) + " of "@ + decimal(selected) + " selected have nothing to "@
            + mode.name()
    } else {
        Seq::empty()
    })
}

impl AppModel {
    /// In another mode: without the selection of the startup check, which was made for the mode
    /// before.
    pub open spec fn in_mode(self, mode: Mode) -> AppModel {
        if self.mode == mode {
            self
        } else {
            AppModel {
                mode,
                repos: self.repos.map_values(|r: RepoModel| without_auto(r)),
                ..self
            }.noticed(
                mode_notice(
                    mode,
                    count_where(self.repos, auto_queued()),
                    count_where(self.repos, idle_in(mode)),
                    count_where(self.repos, user_queued()),
                ),
            )
        }
    }
}

/// What the user is told of a change of mode.
fn mode_notice_text(mode: Mode, cleared: usize, idle: usize, selected: usize) -> (r: String)
    ensures
        r@ == mode_notice(mode, cleared as nat, idle as nat, selected as nat),
{
    let mut notice = cat2("Mode: ", mode.as_str());
    proof {
        assert(notice@ + Seq::<char>::empty() =~= notice@);
    }
    if cleared > 0 {
        let n = decimal_usize(cleared);
        let part = cat3(" · cleared ", n.as_str(), " auto-selected");
        notice.append(part.as_str());
    }
    proof {
        assert(notice@ + Seq::<char>::empty() =~= notice@);
    }
    if idle > 0 {
        let n = decimal_usize(idle);
        let m = decimal_usize(selected);
        let head = cat4(" · ", n.as_str(), " of ", m.as_str());
        let part = cat3(head.as_str(), " selected have nothing to ", mode.as_str());
        notice.append(part.as_str());
    }
    notice
}

impl App {
    /// Switch operation mode.
    ///
    /// Clears only the startup auto-selection (computed for the previous mode: a pull preselection
    /// must never silently become a push batch). A selection the user built deliberately survives;
    /// the notice instead reports how many of those no longer have anything relevant to do in the
    /// new mode.
    pub fn set_mode(&mut self, mode: Mode)
        ensures
            final(self)@ == old(self)@.in_mode(mode),
            old(self).wf() ==> final(self).wf(),
    {
        if self.mode == mode {
            return;
        }
        let ghost before = self@;
        let ghost repos = self@.repos;
        self.mode = mode;
        let n = self.repos.len();
        let mut cleared: usize = 0;
        let mut idle: usize = 0;
        let mut selected: usize = 0;
        for i in 0..n
            invariant
                n == self.repos@.len(),
                repos.len() == n,
                self@ == (AppModel { mode, repos: self@.repos, ..before }),
                old(self).wf() ==> self.wf(),
                forall|j: int| 0 <= j < i ==> (#[trigger] self@.repos[j]) == without_auto(repos[j]),
                forall|j: int| i <= j < n ==> (#[trigger] self@.repos[j]) == repos[j],
                cleared == count_where(repos.take(i as int), auto_queued()),
                idle == count_where(repos.take(i as int), idle_in(mode)),
                selected == count_where(repos.take(i as int), user_queued()),
                cleared <= i,
                idle <= i,
                selected <= i,
        {
            proof {
                assert(repos.take(i + 1).drop_last() =~= repos.take(i as int));
                assert(repos.take(i + 1).last() == repos[i as int]);
                assert(self@.repos[i as int] == self.repos@[i as int]@);
            }
            let ghost here = self@.repos;
            let origin = match &self.repos[i].state {
                RepoOpState::Queued(o) => Some(*o),
                _ => None,
            };
            match origin {
                Some(QueueOrigin::Auto) => {
                    self.repos[i].state = RepoOpState::Idle;
                    cleared = cleared + 1;
                    proof {
                        assert(self@.repos =~= here.update(i as int, without_auto(repos[i as int])));
                    }
                },
                Some(QueueOrigin::User) => {
                    selected = selected + 1;
                    if !mode_has_relevant_commits(&self.repos[i], mode) {
                        idle = idle + 1;
                    }
                },
                None => {},
            }
        }
        proof {
            assert(repos.take(n as int) =~= repos);
            assert(self@.repos =~= repos.map_values(|r: RepoModel| without_auto(r)));
        }
        let notice = mode_notice_text(mode, cleared, idle, selected);
        self.set_notice(notice);
    }
}

} // verus!
