//! The state of the user interface, and the operations that change it.
//!
//! What has to be done outside, such as running git, is put into the outbox as an [`Effect`]; its
//! result comes back as an event.

use std::collections::VecDeque;

use vstd::prelude::*;
use vstd::string::*;

use crate::chars::texts;
use crate::git::command::{opt_credentials, Credentials, CredentialsModel};
use crate::git::runner::RemoteAction;
use crate::mode::Mode;
use crate::order::{
    by_rule, comes_before, lemma_text_order_antisymmetric, lemma_text_order_total,
    lemma_text_order_transitive, ranks, text_before, views_of, Ranked,
};
use crate::paths::same_path;
use crate::tui::dialog::{
    AuthModel, AuthPromptState, ConfirmModel, ConfirmPromptState, LocalAction, LocalModel,
};
use crate::tui::panel::{PanelKind, PanelModel, PanelState};
use crate::tui::prompt::{PromptModel, PromptState};
use crate::tui::repo::{RepoModel, RepoView};
use crate::tui::worktree::{WorktreeOp, WorktreeOpModel, WtDisplayRow, WtRowModel};

verus! {

// ── Effects ──────────────────────────────────────────────────────────────────

/// A repository whose fast-forward safety is to be checked.
#[derive(Debug)]
pub struct PullCandidate {
    pub path: String,
    pub upstream: String,
    pub clean: bool,
}

/// A candidate with its texts as sequences of characters.
pub struct PullCandidateModel {
    pub path: Seq<char>,
    pub upstream: Seq<char>,
    pub clean: bool,
}

impl View for PullCandidate {
    type V = PullCandidateModel;

    open spec fn view(&self) -> PullCandidateModel {
        PullCandidateModel { path: self.path@, upstream: self.upstream@, clean: self.clean }
    }
}

/// A repository whose worktrees are to be listed.
#[derive(Debug)]
pub struct WtSource {
    pub path: String,
    pub name: String,
}

/// A source with its texts as sequences of characters.
pub struct WtSourceModel {
    pub path: Seq<char>,
    pub name: Seq<char>,
}

impl View for WtSource {
    type V = WtSourceModel;

    open spec fn view(&self) -> WtSourceModel {
        WtSourceModel { path: self.path@, name: self.name@ }
    }
}

/// Something to be done outside.
#[allow(inconsistent_fields)]
#[derive(Debug)]
pub enum Effect {
    /// Load the repositories at these paths.
    Load(Vec<String>),
    /// Run a remote action, wrapped in an auto-stash where `stash` says so.
    Remote {
        path: String,
        action: RemoteAction,
        credentials: Option<Credentials>,
        stash: bool,
    },
    /// Run a local operation.
    Local { path: String, action: LocalAction },
    /// Run an operation on the worktree at `selected`, on behalf of the repository at `repo_path`.
    Worktree { selected: String, repo_path: String, op: WorktreeOp },
    /// Check whether these repositories can be fast-forwarded.
    CheckPullSafety(Vec<PullCandidate>),
    /// Fetch these repositories, and check whether they can be fast-forwarded.
    BackgroundFetch(Vec<String>),
    /// Load the repositories at these paths anew.
    Refresh(Vec<String>),
    /// List the worktrees of these repositories.
    LoadWorktrees(Vec<WtSource>),
    /// Fetch what a panel shows.
    LoadPanel { kind: PanelKind, current: String, targets: Vec<String> },
    /// Hand the terminal over to lazygit.
    OpenLazygit { path: String },
}

/// An effect with its texts as sequences of characters.
#[allow(inconsistent_fields)]
#[verifier::ext_equal]
pub enum EffectModel {
    Load(Seq<Seq<char>>),
    Remote {
        path: Seq<char>,
        action: RemoteAction,
        credentials: Option<CredentialsModel>,
        stash: bool,
    },
    Local { path: Seq<char>, action: LocalModel },
    Worktree { selected: Seq<char>, repo_path: Seq<char>, op: WorktreeOpModel },
    CheckPullSafety(Seq<PullCandidateModel>),
    BackgroundFetch(Seq<Seq<char>>),
    Refresh(Seq<Seq<char>>),
    LoadWorktrees(Seq<WtSourceModel>),
    LoadPanel { kind: PanelKind, current: Seq<char>, targets: Seq<Seq<char>> },
    OpenLazygit { path: Seq<char> },
}

impl View for Effect {
    type V = EffectModel;

    open spec fn view(&self) -> EffectModel {
        match self {
            Effect::Load(paths) => EffectModel::Load(texts(paths@)),
            Effect::Remote { path, action, credentials, stash } => EffectModel::Remote {
                path: path@,
                action: *action,
                credentials: opt_credentials(*credentials),
                stash: *stash,
            },
            Effect::Local { path, action } => EffectModel::Local { path: path@, action: action@ },
            Effect::Worktree { selected, repo_path, op } => EffectModel::Worktree {
                selected: selected@,
                repo_path: repo_path@,
                op: op@,
            },
            Effect::CheckPullSafety(cs) => EffectModel::CheckPullSafety(views_of(cs@)),
            Effect::BackgroundFetch(paths) => EffectModel::BackgroundFetch(texts(paths@)),
            Effect::Refresh(paths) => EffectModel::Refresh(texts(paths@)),
            Effect::LoadWorktrees(sources) => EffectModel::LoadWorktrees(views_of(sources@)),
            Effect::LoadPanel { kind, current, targets } => EffectModel::LoadPanel {
                kind: *kind,
                current: current@,
                targets: texts(targets@),
            },
            Effect::OpenLazygit { path } => EffectModel::OpenLazygit { path: path@ },
        }
    }
}

// ── Sorting ──────────────────────────────────────────────────────────────────

/// What the list is sorted by.
#[derive(Debug, Clone, Copy, PartialEq, Eq, Structural)]
pub enum SortMode {
    Name,
    Modified,
}

/// Whether the repository `a` comes before `b`: by name, or the one with the latest commit first,
/// and those without one at the end by name.
pub open spec fn repo_before(mode: SortMode, a: RepoModel, b: RepoModel) -> bool {
    match mode {
        SortMode::Name => text_before(a.snapshot.name, b.snapshot.name),
        SortMode::Modified => match (a.snapshot.last_modified, b.snapshot.last_modified) {
            (Some(l), Some(r)) => r < l,
            (Some(_), None) => true,
            (None, Some(_)) => false,
            (None, None) => text_before(a.snapshot.name, b.snapshot.name),
        },
    }
}

impl Ranked for RepoView {
    type Rule = SortMode;

    open spec fn before(rule: SortMode, a: RepoModel, b: RepoModel) -> bool {
        repo_before(rule, a, b)
    }

    fn is_before(rule: &SortMode, a: &RepoView, b: &RepoView) -> (r: bool) {
        match rule {
            SortMode::Name => comes_before(a.snapshot.name.as_str(), b.snapshot.name.as_str()),
            SortMode::Modified => match (a.snapshot.last_modified, b.snapshot.last_modified) {
                (Some(l), Some(r)) => r < l,
                (Some(_), None) => true,
                (None, Some(_)) => false,
                (None, None) => comes_before(
                    a.snapshot.name.as_str(),
                    b.snapshot.name.as_str(),
                ),
            },
        }
    }
}

/// Both ways of sorting rank the repositories.
pub proof fn lemma_sort_modes_rank(mode: SortMode)
    ensures
        ranks(by_rule::<RepoView>(mode)),
{
    let before = by_rule::<RepoView>(mode);
    assert forall|a: RepoModel| !#[trigger] before(a, a) by {
        lemma_text_order_antisymmetric(a.snapshot.name, a.snapshot.name);
    }
    assert forall|a: RepoModel, b: RepoModel, c: RepoModel| #[trigger]
        before(a, b) && #[trigger] before(b, c) implies before(a, c) by {
        if text_before(a.snapshot.name, b.snapshot.name) && text_before(
            b.snapshot.name,
            c.snapshot.name,
        ) {
            lemma_text_order_transitive(a.snapshot.name, b.snapshot.name, c.snapshot.name);
        }
    }
    assert forall|a: RepoModel, b: RepoModel, c: RepoModel|
        !#[trigger] before(a, b) && !#[trigger] before(b, c) implies !before(a, c) by {
        let (x, y, z) = (a.snapshot.name, b.snapshot.name, c.snapshot.name);
        if text_before(x, z) && !text_before(x, y) && !text_before(y, z) {
            lemma_text_order_total(x, y);
            lemma_text_order_total(y, z);
            if text_before(y, x) {
                lemma_text_order_transitive(y, x, z);
            }
        }
    }
}

// ── State ────────────────────────────────────────────────────────────────────

/// Repo-table column widths, cached across frames.
#[derive(Debug, Clone, Copy, PartialEq, Eq, Structural)]
pub struct ColWidths {
    pub area_width: u16,
    pub in_wt: bool,
    pub repo_col_w: u16,
    pub branch_col_w: u16,
    pub age_col_w: u16,
    pub show_age: bool,
}

/// The state of the user interface.
#[derive(Debug)]
pub struct App {
    pub repos: Vec<RepoView>,
    pub cursor: usize,
    pub table_offset: usize,
    pub loading: bool,
    pub load_done: usize,
    pub load_total: usize,
    pub mode: Mode,
    pub auto_stash: bool,
    pub show_help: bool,
    pub help_scroll: usize,
    pub sort_mode: SortMode,
    pub panel: Option<PanelState>,
    /// Kind of panel content currently being fetched in the background, if any. Guards against
    /// clobbering a newer view: if the user closed the panel or switched to a different kind
    /// before a fetch completes, the stale result is dropped instead of applied.
    pub pending_panel: Option<PanelKind>,
    /// Measured visible body height of the active panel. Updated when the panel is drawn, so that
    /// keyboard navigation follows the actual terminal size.
    pub panel_viewport: usize,
    pub prompt: Option<PromptState>,
    pub worktree_mode: bool,
    pub wt_rows: Vec<WtDisplayRow>,
    pub wt_cursor: usize,
    pub wt_offset: usize,
    pub msg_scroll: usize,
    pub auth_prompt: Option<AuthPromptState>,
    pub auth_prompt_queue: VecDeque<AuthPromptState>,
    pub confirm_prompt: Option<ConfirmPromptState>,
    pub confirm_prompt_queue: VecDeque<ConfirmPromptState>,
    pub tick: u64,
    /// The time, in nanoseconds since the start.
    pub now: u64,
    /// When the list was last loaded anew.
    pub last_refresh: u64,
    pub needs_full_redraw: bool,
    /// Brief non-blocking feedback for selection and mode changes, and the tick that it lasts to.
    pub notice: Option<(String, u64)>,
    /// Cached repo-table column widths, keyed by the area width and repo/worktree mode they were
    /// computed for. `None` whenever repo or worktree data changes.
    pub col_widths: Option<ColWidths>,
    /// What is to be done outside.
    pub outbox: Vec<Effect>,
}

/// The state with its texts as sequences of characters.
#[verifier::ext_equal]
pub struct AppModel {
    pub repos: Seq<RepoModel>,
    pub cursor: usize,
    pub table_offset: usize,
    pub loading: bool,
    pub load_done: usize,
    pub load_total: usize,
    pub mode: Mode,
    pub auto_stash: bool,
    pub show_help: bool,
    pub help_scroll: usize,
    pub sort_mode: SortMode,
    pub panel: Option<PanelModel>,
    pub pending_panel: Option<PanelKind>,
    pub panel_viewport: usize,
    pub prompt: Option<PromptModel>,
    pub worktree_mode: bool,
    pub wt_rows: Seq<WtRowModel>,
    pub wt_cursor: usize,
    pub wt_offset: usize,
    pub msg_scroll: usize,
    pub auth_prompt: Option<AuthModel>,
    pub auth_queue: Seq<AuthModel>,
    pub confirm_prompt: Option<ConfirmModel>,
    pub confirm_queue: Seq<ConfirmModel>,
    pub tick: u64,
    pub now: u64,
    pub last_refresh: u64,
    pub needs_full_redraw: bool,
    pub notice: Option<(Seq<char>, u64)>,
    pub col_widths: Option<ColWidths>,
    pub outbox: Seq<EffectModel>,
}

/// The view of what may be there.
pub open spec fn opt_view<T: View>(o: Option<T>) -> Option<T::V> {
    match o {
        Some(x) => Some(x@),
        None => None,
    }
}

/// The view of a notice.
pub open spec fn notice_view(o: Option<(String, u64)>) -> Option<(Seq<char>, u64)> {
    match o {
        Some((s, until)) => Some((s@, until)),
        None => None,
    }
}

impl View for App {
    type V = AppModel;

    open spec fn view(&self) -> AppModel {
        AppModel {
            repos: views_of(self.repos@),
            cursor: self.cursor,
            table_offset: self.table_offset,
            loading: self.loading,
            load_done: self.load_done,
            load_total: self.load_total,
            mode: self.mode,
            auto_stash: self.auto_stash,
            show_help: self.show_help,
            help_scroll: self.help_scroll,
            sort_mode: self.sort_mode,
            panel: opt_view(self.panel),
            pending_panel: self.pending_panel,
            panel_viewport: self.panel_viewport,
            prompt: opt_view(self.prompt),
            worktree_mode: self.worktree_mode,
            wt_rows: views_of(self.wt_rows@),
            wt_cursor: self.wt_cursor,
            wt_offset: self.wt_offset,
            msg_scroll: self.msg_scroll,
            auth_prompt: opt_view(self.auth_prompt),
            auth_queue: views_of(self.auth_prompt_queue@),
            confirm_prompt: opt_view(self.confirm_prompt),
            confirm_queue: views_of(self.confirm_prompt_queue@),
            tick: self.tick,
            now: self.now,
            last_refresh: self.last_refresh,
            needs_full_redraw: self.needs_full_redraw,
            notice: notice_view(self.notice),
            col_widths: self.col_widths,
            outbox: views_of(self.outbox@),
        }
    }
}

/// The state at the start.
pub open spec fn initial(mode: Mode, auto_stash: bool, load_total: usize) -> AppModel {
    AppModel {
        repos: Seq::empty(),
        cursor: 0,
        table_offset: 0,
        loading: true,
        load_done: 0,
        load_total,
        mode,
        auto_stash,
        show_help: false,
        help_scroll: 0,
        sort_mode: SortMode::Modified,
        panel: None,
        pending_panel: None,
        panel_viewport: 1,
        prompt: None,
        worktree_mode: false,
        wt_rows: Seq::empty(),
        wt_cursor: 0,
        wt_offset: 0,
        msg_scroll: 0,
        auth_prompt: None,
        auth_queue: Seq::empty(),
        confirm_prompt: None,
        confirm_queue: Seq::empty(),
        tick: 0,
        now: 0,
        last_refresh: 0,
        needs_full_redraw: false,
        notice: None,
        col_widths: None,
        outbox: Seq::empty(),
    }
}

/// The place of the first repository at `path`.
pub open spec fn place(repos: Seq<RepoModel>, path: Seq<char>) -> Option<int>
    decreases repos.len(),
{
    if repos.len() == 0 {
        None
    } else {
        match place(repos.drop_last(), path) {
            Some(i) => Some(i),
            None => if same_path(repos.last().snapshot.path, path) {
                Some(repos.len() - 1)
            } else {
                None
            },
        }
    }
}

/// The place of a repository is in the list, and it is the first at its path.
pub proof fn lemma_place(repos: Seq<RepoModel>, path: Seq<char>)
    ensures
        match place(repos, path) {
            Some(i) => {
                &&& 0 <= i < repos.len()
                &&& same_path(repos[i].snapshot.path, path)
                &&& forall|j: int|
                    0 <= j < i ==> !same_path((#[trigger] repos[j]).snapshot.path, path)
            },
            None => forall|j: int|
                0 <= j < repos.len() ==> !same_path((#[trigger] repos[j]).snapshot.path, path),
        },
    decreases repos.len(),
{
    if repos.len() > 0 {
        let most = repos.drop_last();
        lemma_place(most, path);
        assert forall|j: int| 0 <= j < most.len() implies most[j] == #[trigger] repos[j] by {}
    }
}

/// The number of repositories that `pred` holds of.
pub open spec fn count_where(repos: Seq<RepoModel>, pred: spec_fn(RepoModel) -> bool) -> nat
    decreases repos.len(),
{
    if repos.len() == 0 {
        0
    } else {
        count_where(repos.drop_last(), pred) + (if pred(repos.last()) {
            1nat
        } else {
            0nat
        })
    }
}

/// The paths of the repositories that `pred` holds of, in order.
pub open spec fn paths_where(
    repos: Seq<RepoModel>,
    pred: spec_fn(RepoModel) -> bool,
) -> Seq<Seq<char>>
    decreases repos.len(),
{
    if repos.len() == 0 {
        Seq::empty()
    } else if pred(repos.last()) {
        paths_where(repos.drop_last(), pred).push(repos.last().snapshot.path)
    } else {
        paths_where(repos.drop_last(), pred)
    }
}

/// The paths of all repositories.
pub open spec fn all_paths(repos: Seq<RepoModel>) -> Seq<Seq<char>> {
    repos.map_values(|r: RepoModel| r.snapshot.path)
}

/// Which repositories an operation makes sense for.
#[derive(Debug, Clone, Copy, PartialEq, Eq, Structural)]
pub enum Keep {
    /// All of them.
    All,
    /// Those with local changes.
    Dirty,
    /// Those with stash entries.
    Stashed,
    /// Those with an upstream.
    Upstream,
}

impl Keep {
    /// Whether the operation makes sense for `repo`.
    pub open spec fn admits(self, repo: RepoModel) -> bool {
        match self {
            Keep::All => true,
            Keep::Dirty => repo.snapshot.dirty,
            Keep::Stashed => repo.snapshot.stash_count > 0,
            Keep::Upstream => !repo.snapshot.branch.no_upstream,
        }
    }

    /// Whether the operation makes sense for `repo`.
    pub fn keeps(self, repo: &RepoView) -> (r: bool)
        ensures
            r == self.admits(repo@),
    {
        match self {
            Keep::All => true,
            Keep::Dirty => repo.snapshot.dirty,
            Keep::Stashed => repo.snapshot.stash_count > 0,
            Keep::Upstream => !repo.snapshot.branch.no_upstream,
        }
    }
}

} // verus!
