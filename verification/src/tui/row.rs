//! One row of the table: its colors, its icon, and its first column.

use vstd::prelude::*;
use vstd::string::*;

use crate::chars::{cat2, cat3, cat5, char_count, same_text};
use crate::numbers::{decimal, decimal_usize};
use crate::order::views_of;
use crate::tui::area::minus;
use crate::tui::cells::{truncate, truncated};
use crate::tui::repo::{FailKind, OpModel, RepoModel, RepoOpState, RepoView};
use crate::tui::style::{
    bold_on, colored, piece, push_span, unstyled, Line, Paint, Span, SpanModel, Style,
};

verus! {

// ── Icons ────────────────────────────────────────────────────────────────────

/// The picture of the spinner at `tick`.
pub open spec fn spinner_at(tick: u64) -> Seq<char> {
    let k = tick / 2 % 8;
    if k == 0 {
        "⠋"@
    } else if k == 1 {
        "⠙"@
    } else if k == 2 {
        "⠹"@
    } else if k == 3 {
        "⠸"@
    } else if k == 4 {
        "⠼"@
    } else if k == 5 {
        "⠴"@
    } else if k == 6 {
        "⠦"@
    } else {
        "⠧"@
    }
}

/// The picture of the spinner at `tick`.
pub fn spinner(tick: u64) -> (r: &'static str)
    ensures
        r@ == spinner_at(tick),
{
    let k: u64 = tick / 2 % 8;
    match k {
        0 => "⠋",
        1 => "⠙",
        2 => "⠹",
        3 => "⠸",
        4 => "⠼",
        5 => "⠴",
        6 => "⠦",
        _ => "⠧",
    }
}

impl OpModel {
    /// The icon of what is being done.
    pub open spec fn icon_text(self, tick: u64) -> Seq<char> {
        match self {
            OpModel::Idle => " "@,
            OpModel::Queued(_) => "●"@,
            OpModel::Working => spinner_at(tick),
            OpModel::Success(_) => "✓"@,
            OpModel::Fail { message, kind } => match kind {
                FailKind::Credentials => "?"@,
                FailKind::ForcePush => "!"@,
                FailKind::Conflict => "⚠"@,
                FailKind::Generic | FailKind::Network => "✗"@,
            },
        }
    }

    /// The icon of the row: that of what is being done, or else of the state of the branch.
    pub open spec fn status_icon_text(self, conflict: bool, has_local: bool, tick: u64) -> Seq<char> {
        if self is Idle && has_local {
            "~"@
        } else if self is Idle && conflict {
            "⚠"@
        } else {
            self.icon_text(tick)
        }
    }

    /// The background of the row under the cursor.
    pub open spec fn cursor_color(self, conflict: bool, has_local: bool, no_upstream: bool) -> Paint {
        match self {
            OpModel::Success(_) => Paint::SelSuccessBg,
            OpModel::Fail { message, kind } => match kind {
                FailKind::Credentials => Paint::SelCredsBg,
                FailKind::Conflict => Paint::SelConflictBg,
                _ => Paint::SelFailBg,
            },
            OpModel::Queued(_) => Paint::SelQueuedBg,
            OpModel::Working => Paint::SelWorkingBg,
            OpModel::Idle => if no_upstream {
                Paint::SelNoUpstreamBg
            } else if has_local {
                Paint::SelLocalBg
            } else if conflict {
                Paint::SelConflictBg
            } else {
                Paint::SelDefaultBg
            },
        }
    }

    /// The color of a row that is not under the cursor; none where there is nothing to say.
    pub open spec fn row_color(
        self,
        conflict: bool,
        has_local: bool,
        no_upstream: bool,
    ) -> Option<Paint> {
        match self {
            OpModel::Success(_) => Some(Paint::SuccessFg),
            OpModel::Fail { message, kind } => match kind {
                FailKind::Credentials => Some(Paint::CredsFg),
                FailKind::Conflict => Some(Paint::ConflictFg),
                FailKind::Network => Some(Paint::NetFg),
                _ => Some(Paint::FailFg),
            },
            OpModel::Queued(_) => Some(Paint::QueuedFg),
            OpModel::Working => Some(Paint::WorkingFg),
            OpModel::Idle => if no_upstream {
                Some(Paint::NoUpstreamFg)
            } else if has_local {
                Some(Paint::LocalFg)
            } else if conflict {
                Some(Paint::ConflictFg)
            } else {
                None
            },
        }
    }

    /// The style of a row.
    pub open spec fn style_of_row(
        self,
        conflict: bool,
        has_local: bool,
        no_upstream: bool,
        selected: bool,
    ) -> Style {
        if selected {
            bold_on(Paint::White, self.cursor_color(conflict, has_local, no_upstream))
        } else {
            Style { fg: self.row_color(conflict, has_local, no_upstream), ..unstyled() }
        }
    }
}

impl RepoOpState {
    /// The icon of what is being done.
    pub fn icon(&self, tick: u64) -> (r: &'static str)
        ensures
            r@ == self@.icon_text(tick),
    {
        match self {
            RepoOpState::Idle => " ",
            RepoOpState::Queued(_) => "●",
            RepoOpState::Working => spinner(tick),
            RepoOpState::Success(_) => "✓",
            RepoOpState::Fail { kind, .. } => match kind {
                FailKind::Credentials => "?",
                FailKind::ForcePush => "!",
                FailKind::Conflict => "⚠",
                FailKind::Generic | FailKind::Network => "✗",
            },
        }
    }

    /// The icon of the row: that of what is being done, or else of the state of the branch.
    pub fn status_icon(&self, conflict: bool, has_local: bool, tick: u64) -> (r: &'static str)
        ensures
            r@ == self@.status_icon_text(conflict, has_local, tick),
    {
        match self {
            RepoOpState::Idle => if has_local {
                "~"
            } else if conflict {
                "⚠"
            } else {
                " "
            },
            _ => self.icon(tick),
        }
    }

    /// The style of a row.
    pub fn row_style(
        &self,
        conflict: bool,
        has_local: bool,
        no_upstream: bool,
        selected: bool,
    ) -> (r: Style)
        ensures
            r == self@.style_of_row(conflict, has_local, no_upstream, selected),
    {
        if selected {
            let bg = match self {
                RepoOpState::Success(_) => Paint::SelSuccessBg,
                RepoOpState::Fail { kind, .. } => match kind {
                    FailKind::Credentials => Paint::SelCredsBg,
                    FailKind::Conflict => Paint::SelConflictBg,
                    _ => Paint::SelFailBg,
                },
                RepoOpState::Queued(_) => Paint::SelQueuedBg,
                RepoOpState::Working => Paint::SelWorkingBg,
                RepoOpState::Idle => if no_upstream {
                    Paint::SelNoUpstreamBg
                } else if has_local {
                    Paint::SelLocalBg
                } else if conflict {
                    Paint::SelConflictBg
                } else {
                    Paint::SelDefaultBg
                },
            };
            Style::strong_on(Paint::White, bg)
        } else {
            let fg = match self {
                RepoOpState::Success(_) => Some(Paint::SuccessFg),
                RepoOpState::Fail { kind, .. } => match kind {
                    FailKind::Credentials => Some(Paint::CredsFg),
                    FailKind::Conflict => Some(Paint::ConflictFg),
                    FailKind::Network => Some(Paint::NetFg),
                    _ => Some(Paint::FailFg),
                },
                RepoOpState::Queued(_) => Some(Paint::QueuedFg),
                RepoOpState::Working => Some(Paint::WorkingFg),
                RepoOpState::Idle => if no_upstream {
                    Some(Paint::NoUpstreamFg)
                } else if has_local {
                    Some(Paint::LocalFg)
                } else if conflict {
                    Some(Paint::ConflictFg)
                } else {
                    None
                },
            };
            Style { fg, bg: None, bold: false, underlined: false, reversed: false }
        }
    }
}

// ── Rows ─────────────────────────────────────────────────────────────────────

impl RepoModel {
    /// Whether pulling would run into conflicts.
    pub open spec fn pull_conflict(self) -> bool {
        self.snapshot.branch.behind > 0 && !self.pull_safe
    }

    /// Whether there is a conflict, or pulling would create one.
    pub open spec fn conflicted(self) -> bool {
        self.snapshot.has_conflicts || self.pull_conflict()
    }

    /// Whether there is local work, and nothing that pulling it would conflict with.
    pub open spec fn local_work(self) -> bool {
        !self.conflicted() && (self.snapshot.branch.ahead > 0 || self.snapshot.dirty)
    }

    /// Whether the startup fetch is what the row shows.
    pub open spec fn fetch_spins(self) -> bool {
        self.fetching && self.state is Idle
    }

    /// The icon of the row.
    pub open spec fn row_icon(self, tick: u64) -> Seq<char> {
        if self.fetch_spins() {
            spinner_at(tick)
        } else {
            self.state.status_icon_text(self.conflicted(), self.local_work(), tick)
        }
    }

    /// Whether the row marks a failed startup fetch: only where nothing more important takes the
    /// place of the icon.
    pub open spec fn marks_fetch_failure(self, tick: u64) -> bool {
        &&& !self.fetching
        &&& self.fetch_error is Some
        &&& self.row_icon(tick) == " "@
        &&& self.state is Idle
    }

    /// The number of stash entries in braces, after a space; nothing where there are none.
    pub open spec fn stash_badge(self) -> Seq<char> {
        if self.snapshot.stash_count > 0 {
            " {"@ + decimal(self.snapshot.stash_count as nat) + "}"@
        } else {
            Seq::empty()
        }
    }

    /// The message of the row: that of a failure, or else the subject of the last commit.
    pub open spec fn row_message(self) -> Seq<char> {
        match self.state {
            OpModel::Fail { message, kind } => message,
            _ => self.snapshot.commit_subject,
        }
    }

    /// The style of the row.
    pub open spec fn row_look(self, selected: bool) -> Style {
        self.state.style_of_row(
            self.conflicted(),
            self.local_work(),
            self.snapshot.branch.no_upstream,
            selected,
        )
    }

    /// The first column, `width` cells wide: the cursor, the icon, the name and the stash badge.
    pub open spec fn first_cell(
        self,
        name: Seq<char>,
        selected: bool,
        tick: u64,
        width: u16,
    ) -> Seq<SpanModel> {
        let cursor = if selected {
            "›"@
        } else {
            " "@
        };
        let badge = self.stash_badge();
        // The cursor, the icon, and a space after each take four cells.
        let shown = truncated(name, minus(width as int, 4int + badge.len()) as nat);
        let failed = self.marks_fetch_failure(tick);
        let colored_badge = badge.len() > 0 && !selected;
        if self.fetch_spins() || failed || colored_badge {
            seq![
                piece(cursor + " "@, unstyled()),
                if self.fetch_spins() {
                    piece(self.row_icon(tick), colored(Paint::White))
                } else if failed {
                    piece("!"@, colored(Paint::NetFg))
                } else {
                    piece(self.row_icon(tick), unstyled())
                },
                piece(" "@ + shown, unstyled()),
            ] + (if colored_badge {
                seq![piece(badge, colored(Paint::StashFg))]
            } else if badge.len() > 0 {
                seq![piece(badge, unstyled())]
            } else {
                Seq::empty()
            })
        } else {
            seq![
                piece(cursor + " "@ + self.row_icon(tick) + " "@ + (shown + badge), unstyled()),
            ]
        }
    }
}

/// What a row looks like: its style, its first column, and its message.
#[derive(Debug)]
pub struct RowVisual {
    pub style: Style,
    pub cell: Line,
    pub message: String,
}

impl RepoView {
    /// Whether pulling would run into conflicts.
    pub fn has_pull_conflict(&self) -> (r: bool)
        ensures
            r == self@.pull_conflict(),
    {
        self.snapshot.branch.behind > 0 && !self.pull_safe
    }

    /// The message of the row: that of a failure, or else the subject of the last commit.
    pub fn row_text(&self) -> (r: &str)
        ensures
            r@ == self@.row_message(),
    {
        match &self.state {
            RepoOpState::Fail { message, .. } => message.as_str(),
            _ => self.snapshot.commit_subject.as_str(),
        }
    }

    /// The number of stash entries in braces, after a space; nothing where there are none.
    fn badge(&self) -> (r: String)
        ensures
            r@ == self@.stash_badge(),
    {
        if self.snapshot.stash_count > 0 {
            let n = decimal_usize(self.snapshot.stash_count);
            cat3(" {", n.as_str(), "}")
        } else {
            String::new()
        }
    }
}

/// Shared per-row visuals (style, the cursor/icon/name/stash cell, and the message text), used by
/// both the repo table and the worktree table.
#[verifier::rlimit(60)]
pub fn repo_row_visual(
    repo: &RepoView,
    display_name: &str,
    selected: bool,
    tick: u64,
    repo_col_w: u16,
) -> (r: RowVisual)
    ensures
        r.style == repo@.row_look(selected),
        r.cell@ == repo@.first_cell(display_name@, selected, tick, repo_col_w),
        r.message@ == repo@.row_message(),
{
    let ghost m = repo@;
    let conflict = repo.snapshot.has_conflicts || repo.has_pull_conflict();
    let has_local = !conflict && (repo.snapshot.branch.ahead > 0 || repo.snapshot.dirty);
    let style = repo.state.row_style(
        conflict,
        has_local,
        repo.snapshot.branch.no_upstream,
        selected,
    );
    let idle = matches!(repo.state, RepoOpState::Idle);
    let fetch_spin = repo.fetching && idle;
    let icon = if fetch_spin {
        spinner(tick)
    } else {
        repo.state.status_icon(conflict, has_local, tick)
    };
    let fetch_failed = !repo.fetching && repo.fetch_error.is_some() && same_text(icon, " ") && idle;
    let cursor_sym = if selected {
        "›"
    } else {
        " "
    };
    let badge = repo.badge();
    let badge_w = char_count(badge.as_str());
    // The cursor, the icon, and a space after each take four cells.
    let name_w: usize = if repo_col_w as usize >= 4 && repo_col_w as usize - 4 >= badge_w {
        repo_col_w as usize - 4 - badge_w
    } else {
        0
    };
    let name = truncate(display_name, name_w);
    let mut spans: Vec<Span> = Vec::new();
    proof {
        assert(views_of(spans@) =~= Seq::<SpanModel>::empty());
        assert(name_w == minus(repo_col_w as int, 4int + m.stash_badge().len()));
    }
    if fetch_spin || fetch_failed || (badge_w > 0 && !selected) {
        let head = cat2(cursor_sym, " ");
        push_span(&mut spans, head.as_str(), Style::plain());
        if fetch_spin {
            push_span(&mut spans, icon, Style::color(Paint::White));
        } else if fetch_failed {
            push_span(&mut spans, "!", Style::color(Paint::NetFg));
        } else {
            push_span(&mut spans, icon, Style::plain());
        }
        let text = cat2(" ", name.as_str());
        push_span(&mut spans, text.as_str(), Style::plain());
        if badge_w > 0 && !selected {
            push_span(&mut spans, badge.as_str(), Style::color(Paint::StashFg));
        } else if badge_w > 0 {
            push_span(&mut spans, badge.as_str(), Style::plain());
        }
    } else {
        let tail = cat2(name.as_str(), badge.as_str());
        let text = cat5(cursor_sym, " ", icon, " ", tail.as_str());
        push_span(&mut spans, text.as_str(), Style::plain());
    }
    proof {
        assert(views_of(spans@) =~= m.first_cell(display_name@, selected, tick, repo_col_w));
    }
    RowVisual { style, cell: Line { spans }, message: repo.row_text().to_owned() }
}

/// A repository with a conflict is never shown as one that is safe to pull.
pub proof fn lemma_conflict_is_not_local(repo: RepoModel, tick: u64)
    requires
        repo.state is Idle,
        !repo.fetching,
        repo.conflicted(),
    ensures
        repo.row_icon(tick) == "⚠"@,
        !repo.local_work(),
{
}

} // verus!
