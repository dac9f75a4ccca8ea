//! The table of repositories, or of worktrees.

use vstd::prelude::*;
use vstd::string::*;

use crate::chars::char_count;
use crate::git::command::views;
use crate::order::views_of;
use crate::tui::app::{place, App, AppModel, ColWidths};
use crate::tui::area::{least, min_u16, minus, Rect};
use crate::tui::cells::{age, format_age, seconds_between, truncate, truncated, widths_of};
use crate::tui::panel::clamped;
use crate::tui::repo::{RepoModel, RepoView};
use crate::tui::row::repo_row_visual;
use crate::tui::style::{colored, piece, push_line, unstyled, Line, Paint, SpanModel, Style};
use crate::tui::worktree::WtRowModel;

verus! {

// ── Column widths ────────────────────────────────────────────────────────────

/// The largest of `ns`; zero where there is none.
pub open spec fn maximum(ns: Seq<nat>) -> nat
    decreases ns.len(),
{
    if ns.len() == 0 {
        0
    } else if ns.last() > maximum(ns.drop_last()) {
        ns.last()
    } else {
        maximum(ns.drop_last())
    }
}

/// The largest of `ns`, or `none` where there is none.
pub open spec fn widest(ns: Seq<nat>, none: nat) -> nat {
    if ns.len() == 0 {
        none
    } else {
        maximum(ns)
    }
}

/// The numbers of characters of some texts.
pub open spec fn lengths(ts: Seq<Seq<char>>) -> Seq<nat> {
    ts.map_values(|t: Seq<char>| t.len())
}

/// The largest of `ns`, or `none` where there is none.
fn largest(ns: &Vec<usize>, none: usize) -> (r: usize)
    ensures
        r == widest(widths_of(ns@), none as nat),
{
    let ghost all = widths_of(ns@);
    if ns.len() == 0 {
        return none;
    }
    let mut best: usize = 0;
    for i in 0..ns.len()
        invariant
            all == widths_of(ns@),
            best == maximum(all.take(i as int)),
    {
        proof {
            assert(all.take(i + 1).drop_last() =~= all.take(i as int));
            assert(all.take(i + 1).last() == ns@[i as int]);
        }
        if ns[i] > best {
            best = ns[i];
        }
    }
    proof {
        assert(all.take(ns@.len() as int) =~= all);
    }
    best
}

/// `x`, or the nearer of the two bounds where it lies outside of them.
fn clamp_len(x: usize, low: u16, high: u16) -> (r: u16)
    requires
        low <= high,
    ensures
        r == clamped(x as int, low as int, high as int),
{
    if x < low as usize {
        low
    } else if x > high as usize {
        high
    } else {
        x as u16
    }
}

impl RepoModel {
    /// The age of the repository, as its row shows it at `clock`.
    pub open spec fn age_text(self, clock: int) -> Seq<char> {
        match self.snapshot.last_modified {
            Some(t) => age(seconds_between(clock, t as int)),
            None => ""@,
        }
    }
}

impl AppModel {
    /// The names in the first column.
    pub open spec fn row_names(self) -> Seq<Seq<char>> {
        if self.worktree_mode {
            self.wt_rows.map_values(|r: WtRowModel| r.display_name)
        } else {
            self.repos.map_values(|r: RepoModel| r.snapshot.name)
        }
    }

    /// The texts in the second column.
    pub open spec fn row_labels(self) -> Seq<Seq<char>> {
        if self.worktree_mode {
            self.wt_rows.map_values(|r: WtRowModel| r.wt_label)
        } else {
            self.repos.map_values(|r: RepoModel| r.branch_display())
        }
    }

    /// The ages of the repositories.
    pub open spec fn row_ages(self, clock: int) -> Seq<Seq<char>> {
        self.repos.map_values(|r: RepoModel| r.age_text(clock))
    }

    /// The column widths for a table of the given width: as wide as the contents, within bounds.
    /// The age is shown for repositories, and only where there is room for it.
    pub open spec fn col_widths_for(self, area_width: u16, clock: int) -> ColWidths {
        let inner = minus(area_width as int, 2);
        let show_age = !self.worktree_mode && area_width >= 112;
        let name = clamped(widest(lengths(self.row_names()), 10) as int, 8, 36);
        let label = clamped(widest(lengths(self.row_labels()), 6) as int, 6, 28);
        ColWidths {
            area_width,
            in_wt: self.worktree_mode,
            repo_col_w: least(name + 4, inner / 3) as u16,
            branch_col_w: least(label + 1, inner / 4) as u16,
            age_col_w: if show_age {
                (clamped(widest(lengths(self.row_ages(clock)), 2) as int, 2, 5) + 1) as u16
            } else {
                0
            },
            show_age,
        }
    }

    /// The column widths in use: the cached ones where they are for this width and this view.
    pub open spec fn col_widths_at(self, area_width: u16, clock: int) -> ColWidths {
        match self.col_widths {
            Some(c) => if c.area_width == area_width && c.in_wt == self.worktree_mode {
                c
            } else {
                self.col_widths_for(area_width, clock)
            },
            None => self.col_widths_for(area_width, clock),
        }
    }
}

/// The age of a repository, as its row shows it at `clock`.
fn age_of(repo: &RepoView, clock: i128) -> (r: String)
    ensures
        r@ == repo@.age_text(clock as int),
{
    match repo.snapshot.last_modified {
        Some(t) => format_age(clock, t),
        None => "".to_owned(),
    }
}

impl App {
    /// The numbers of characters in the first column.
    fn name_lengths(&self) -> (r: Vec<usize>)
        ensures
            widths_of(r@) == lengths(self@.row_names()),
    {
        let mut out: Vec<usize> = Vec::new();
        if self.worktree_mode {
            for i in 0..self.wt_rows.len()
                invariant
                    out@.len() == i,
                    forall|j: int|
                        0 <= j < i ==> #[trigger] out@[j] == self.wt_rows@[j].display_name@.len(),
            {
                out.push(char_count(self.wt_rows[i].display_name.as_str()));
            }
        } else {
            for i in 0..self.repos.len()
                invariant
                    out@.len() == i,
                    forall|j: int|
                        0 <= j < i ==> #[trigger] out@[j] == self.repos@[j].snapshot.name@.len(),
            {
                out.push(char_count(self.repos[i].snapshot.name.as_str()));
            }
        }
        proof {
            assert(widths_of(out@) =~= lengths(self@.row_names()));
        }
        out
    }

    /// The numbers of characters in the second column.
    fn label_lengths(&self) -> (r: Vec<usize>)
        ensures
            widths_of(r@) == lengths(self@.row_labels()),
    {
        let mut out: Vec<usize> = Vec::new();
        if self.worktree_mode {
            for i in 0..self.wt_rows.len()
                invariant
                    out@.len() == i,
                    forall|j: int|
                        0 <= j < i ==> #[trigger] out@[j] == self.wt_rows@[j].wt_label@.len(),
            {
                out.push(char_count(self.wt_rows[i].wt_label.as_str()));
            }
        } else {
            for i in 0..self.repos.len()
                invariant
                    out@.len() == i,
                    forall|j: int|
                        0 <= j < i ==> #[trigger] out@[j]
                            == self.repos@[j]@.branch_display().len(),
            {
                let label = self.repos[i].branch_display();
                out.push(char_count(label.as_str()));
            }
        }
        proof {
            assert(widths_of(out@) =~= lengths(self@.row_labels()));
        }
        out
    }

    /// The numbers of characters of the ages.
    fn age_lengths(&self, clock: i128) -> (r: Vec<usize>)
        ensures
            widths_of(r@) == lengths(self@.row_ages(clock as int)),
    {
        let mut out: Vec<usize> = Vec::new();
        for i in 0..self.repos.len()
            invariant
                out@.len() == i,
                forall|j: int|
                    0 <= j < i ==> #[trigger] out@[j]
                        == self.repos@[j]@.age_text(clock as int).len(),
        {
            let text = age_of(&self.repos[i], clock);
            out.push(char_count(text.as_str()));
        }
        proof {
            assert(widths_of(out@) =~= lengths(self@.row_ages(clock as int)));
        }
        out
    }

    /// Compute the column widths from the current repositories or worktrees: a scan of all rows,
    /// done only when the cached widths are invalidated or the terminal width or view changed.
    pub fn compute_col_widths(&self, area_width: u16, clock: i128) -> (r: ColWidths)
        ensures
            r == self@.col_widths_for(area_width, clock as int),
    {
        let inner_w = area_width.saturating_sub(2);
        let in_wt = self.worktree_mode;
        let show_age = !in_wt && area_width >= 112;
        let age_col_w: u16 = if show_age {
            clamp_len(largest(&self.age_lengths(clock), 2), 2, 5) + 1
        } else {
            0
        };
        let max_name: u16 = clamp_len(largest(&self.name_lengths(), 10), 8, 36);
        let max_label: u16 = clamp_len(largest(&self.label_lengths(), 6), 6, 28);
        ColWidths {
            area_width,
            in_wt,
            repo_col_w: min_u16(max_name + 4, inner_w / 3),
            branch_col_w: min_u16(max_label + 1, inner_w / 4),
            age_col_w,
            show_age,
        }
    }
}

/// The columns leave room for the message: they take at most seven twelfths of the table and the
/// six cells of the age.
pub proof fn lemma_columns_leave_room(app: AppModel, area_width: u16, clock: int)
    ensures
        ({
            let c = app.col_widths_for(area_width, clock);
            let inner = minus(area_width as int, 2);
            &&& c.repo_col_w <= 40 && c.repo_col_w <= inner / 3
            &&& c.branch_col_w <= 29 && c.branch_col_w <= inner / 4
            &&& c.age_col_w <= 6
            &&& c.show_age == (c.age_col_w > 0)
        }),
{
}

// ── Scrolling ────────────────────────────────────────────────────────────────

/// The first row to show of `total`, where `viewport` of them fit: as far from `offset` as it
/// takes to show the row `cursor`, and no further than to the last screen.
pub open spec fn first_shown(offset: int, cursor: int, viewport: int, total: int) -> int {
    if total == 0 {
        offset
    } else {
        let near = if cursor < offset {
            cursor
        } else if viewport > 0 && cursor >= offset + viewport {
            cursor + 1 - viewport
        } else {
            offset
        };
        least(near, minus(total, viewport))
    }
}

/// The first row to show of `total`, where `viewport` of them fit.
fn scroll_to(offset: usize, cursor: usize, viewport: usize, total: usize) -> (r: usize)
    ensures
        r == first_shown(offset as int, cursor as int, viewport as int, total as int),
{
    if total == 0 {
        return offset;
    }
    let near: usize = if cursor < offset {
        cursor
    } else if viewport > 0 && cursor - offset >= viewport {
        cursor - (viewport - 1)
    } else {
        offset
    };
    let last: usize = total.saturating_sub(viewport);
    if near < last {
        near
    } else {
        last
    }
}

/// The row under the cursor is among those shown, wherever the table stood before.
pub proof fn lemma_cursor_row_is_shown(offset: int, cursor: int, viewport: int, total: int)
    requires
        offset >= 0,
        0 <= cursor < total,
        viewport > 0,
    ensures
        ({
            let start = first_shown(offset, cursor, viewport, total);
            &&& 0 <= start <= cursor < start + viewport
            &&& start + viewport <= total || start == 0
        }),
{
}

/// Whether there is room for the row of column names.
pub open spec fn header_shown(height: u16) -> bool {
    height >= 10
}

/// The number of rows that fit.
pub open spec fn rows_that_fit(height: u16) -> int {
    minus(
        height as int,
        if header_shown(height) {
            3
        } else {
            2
        },
    )
}

impl AppModel {
    /// The number of rows.
    pub open spec fn row_count(self) -> int {
        if self.worktree_mode {
            self.wt_rows.len() as int
        } else {
            self.repos.len() as int
        }
    }

    /// The first row shown.
    pub open spec fn shown_from(self) -> int {
        least(
            if self.worktree_mode {
                self.wt_offset as int
            } else {
                self.table_offset as int
            },
            self.row_count(),
        )
    }

    /// The row after the last one shown.
    pub open spec fn shown_to(self, height: u16) -> int {
        least(self.shown_from() + rows_that_fit(height), self.row_count())
    }

    /// The messages of the repositories shown.
    pub open spec fn shown_messages(self, height: u16) -> Seq<Seq<char>> {
        self.repos.subrange(self.shown_from(), self.shown_to(height)).map_values(
            |r: RepoModel| r.row_message(),
        )
    }

    /// With the column widths for the table of the given width.
    pub open spec fn with_widths(self, area_width: u16, clock: int) -> AppModel {
        AppModel { col_widths: Some(self.col_widths_at(area_width, clock)), ..self }
    }

    /// Scrolled to the row under the cursor.
    pub open spec fn with_offset(self, height: u16) -> AppModel {
        let viewport = rows_that_fit(height);
        if self.worktree_mode {
            AppModel {
                wt_offset: first_shown(
                    self.wt_offset as int,
                    self.wt_cursor as int,
                    viewport,
                    self.row_count(),
                ) as usize,
                ..self
            }
        } else {
            AppModel {
                table_offset: first_shown(
                    self.table_offset as int,
                    self.cursor as int,
                    viewport,
                    self.row_count(),
                ) as usize,
                ..self
            }
        }
    }

    /// With the messages scrolled no further than to the last character of the longest one shown.
    pub open spec fn with_message_in_view(self, height: u16) -> AppModel {
        if self.worktree_mode {
            self
        } else {
            AppModel {
                msg_scroll: least(
                    self.msg_scroll as int,
                    minus(maximum(lengths(self.shown_messages(height))) as int, 1),
                ) as usize,
                ..self
            }
        }
    }

    /// Ready for the table to be drawn.
    pub open spec fn laid_out(self, area: Rect, clock: int) -> AppModel {
        self.with_widths(area.width, clock).with_offset(area.height).with_message_in_view(
            area.height,
        )
    }
}

/// However far the messages were scrolled, some of the longest one stays in view.
pub proof fn lemma_message_stays_in_view(app: AppModel, height: u16)
    requires
        !app.worktree_mode,
    ensures
        ({
            let s = app.with_message_in_view(height);
            let longest = maximum(lengths(app.shown_messages(height)));
            &&& s.msg_scroll <= app.msg_scroll
            &&& longest > 0 ==> s.msg_scroll < longest
        }),
{
}

// ── Rows ─────────────────────────────────────────────────────────────────────

/// A row of the table, as styled text.
#[derive(Debug)]
pub struct TableRow {
    pub style: Style,
    pub cells: Vec<Line>,
}

/// A row with its texts as sequences of characters.
#[verifier::ext_equal]
pub struct RowModel {
    pub style: Style,
    pub cells: Seq<Seq<SpanModel>>,
}

impl View for TableRow {
    type V = RowModel;

    open spec fn view(&self) -> RowModel {
        RowModel { style: self.style, cells: views_of(self.cells@) }
    }
}

/// A cell of plain text.
pub open spec fn plain_cell(text: Seq<char>) -> Seq<SpanModel> {
    seq![piece(text, unstyled())]
}

/// The width of the message column.
pub open spec fn message_width(c: ColWidths) -> nat {
    let room = minus(minus(c.area_width as int, 2), c.repo_col_w + c.branch_col_w + c.age_col_w);
    if room < 8 {
        8
    } else {
        room as nat
    }
}

/// `s` without its first `n` characters.
pub open spec fn without_first(s: Seq<char>, n: nat) -> Seq<char> {
    if n < s.len() {
        s.skip(n as int)
    } else {
        Seq::empty()
    }
}

impl AppModel {
    /// The row of the repository at place `i`.
    pub open spec fn repo_row(self, i: int, c: ColWidths, clock: int) -> RowModel {
        let repo = self.repos[i];
        let selected = i == self.cursor;
        RowModel {
            style: repo.row_look(selected),
            cells: seq![
                repo.first_cell(repo.snapshot.name, selected, self.tick, c.repo_col_w),
                plain_cell(truncated(repo.branch_display(), c.branch_col_w as nat)),
                plain_cell(
                    truncated(
                        without_first(repo.row_message(), self.msg_scroll as nat),
                        message_width(c),
                    ),
                ),
            ] + (if c.show_age {
                seq![
                    seq![
                        piece(
                            repo.age_text(clock),
                            if selected {
                                unstyled()
                            } else {
                                colored(Paint::AgeFg)
                            },
                        ),
                    ],
                ]
            } else {
                Seq::empty()
            }),
        }
    }

    /// The row of the worktree at place `i`. Its repository is found by path.
    pub open spec fn worktree_row(self, i: int, c: ColWidths) -> RowModel {
        let row = self.wt_rows[i];
        let selected = i == self.wt_cursor;
        match place(self.repos, row.repo_path) {
            Some(k) => RowModel {
                style: self.repos[k].row_look(selected),
                cells: seq![
                    self.repos[k].first_cell(row.display_name, selected, self.tick, c.repo_col_w),
                    plain_cell(truncated(row.wt_label, c.branch_col_w as nat)),
                    plain_cell(truncated(self.repos[k].row_message(), message_width(c))),
                ],
            },
            None => RowModel {
                style: colored(Paint::DimFg),
                cells: seq![plain_cell(row.display_name)],
            },
        }
    }

    /// The row at place `i`.
    pub open spec fn row_at(self, i: int, c: ColWidths, clock: int) -> RowModel {
        if self.worktree_mode {
            self.worktree_row(i, c)
        } else {
            self.repo_row(i, c, clock)
        }
    }

    /// The rows shown.
    pub open spec fn shown_rows(self, height: u16, c: ColWidths, clock: int) -> Seq<RowModel> {
        Seq::new(
            (self.shown_to(height) - self.shown_from()) as nat,
            |k: int| self.row_at(self.shown_from() + k, c, clock),
        )
    }
}

/// The table as it is shown.
#[derive(Debug)]
pub struct TableView {
    pub rows: Vec<TableRow>,
    pub widths: ColWidths,
    /// Whether to show the names of the columns.
    pub header: bool,
    pub more_above: bool,
    pub more_below: bool,
}

/// The width of the message column.
fn message_room(c: &ColWidths) -> (r: usize)
    ensures
        r == message_width(*c),
{
    let inner = c.area_width.saturating_sub(2) as usize;
    let used = c.repo_col_w as usize + c.branch_col_w as usize + c.age_col_w as usize;
    let room = inner.saturating_sub(used);
    if room < 8 {
        8
    } else {
        room
    }
}

/// A row of three cells.
fn row_of(style: Style, first: Line, second: &str, third: &str) -> (r: TableRow)
    ensures
        r@.style == style,
        r@.cells == seq![first@, plain_cell(second@), plain_cell(third@)],
{
    let mut cells: Vec<Line> = Vec::new();
    proof {
        assert(views_of(cells@) =~= Seq::<Seq<SpanModel>>::empty());
    }
    let ghost f = first@;
    push_line(&mut cells, first);
    push_line(&mut cells, Line::one(second, Style::plain()));
    push_line(&mut cells, Line::one(third, Style::plain()));
    proof {
        assert(views_of(cells@) =~= seq![f, plain_cell(second@), plain_cell(third@)]);
    }
    TableRow { style, cells }
}

impl App {
    /// The row of the repository at place `i`.
    fn draw_repo_row(&self, i: usize, c: &ColWidths, clock: i128) -> (r: TableRow)
        requires
            i < self.repos@.len(),
        ensures
            r@ == self@.repo_row(i as int, *c, clock as int),
    {
        let repo = &self.repos[i];
        let selected = i == self.cursor;
        let v = repo_row_visual(
            repo,
            repo.snapshot.name.as_str(),
            selected,
            self.tick,
            c.repo_col_w,
        );
        let branch = repo.branch_display();
        let label = truncate(branch.as_str(), c.branch_col_w as usize);
        let n = char_count(v.message.as_str());
        let scrolled: &str = if self.msg_scroll < n {
            v.message.as_str().substring_char(self.msg_scroll, n)
        } else {
            ""
        };
        proof {
            reveal_strlit("");
            assert(scrolled@ =~= without_first(v.message@, self.msg_scroll as nat));
        }
        let message = truncate(scrolled, message_room(c));
        let mut row = row_of(v.style, v.cell, label.as_str(), message.as_str());
        if c.show_age {
            let text = age_of(repo, clock);
            push_line(
                &mut row.cells,
                Line::one(
                    text.as_str(),
                    if selected {
                        Style::plain()
                    } else {
                        Style::color(Paint::AgeFg)
                    },
                ),
            );
        }
        proof {
            assert(row@.cells =~= self@.repo_row(i as int, *c, clock as int).cells);
        }
        row
    }

    /// The row of the worktree at place `i`.
    fn draw_worktree_row(&self, i: usize, c: &ColWidths) -> (r: TableRow)
        requires
            i < self.wt_rows@.len(),
        ensures
            r@ == self@.worktree_row(i as int, *c),
    {
        let wt_row = &self.wt_rows[i];
        let selected = i == self.wt_cursor;
        match self.find_repo(wt_row.repo_path.as_str()) {
            Some(k) => {
                let v = repo_row_visual(
                    &self.repos[k],
                    wt_row.display_name.as_str(),
                    selected,
                    self.tick,
                    c.repo_col_w,
                );
                let label = truncate(wt_row.wt_label.as_str(), c.branch_col_w as usize);
                let message = truncate(v.message.as_str(), message_room(c));
                row_of(v.style, v.cell, label.as_str(), message.as_str())
            },
            None => {
                let mut cells: Vec<Line> = Vec::new();
                proof {
                    assert(views_of(cells@) =~= Seq::<Seq<SpanModel>>::empty());
                }
                push_line(&mut cells, Line::one(wt_row.display_name.as_str(), Style::plain()));
                proof {
                    assert(views_of(cells@) =~= seq![plain_cell(wt_row.display_name@)]);
                }
                TableRow { style: Style::color(Paint::DimFg), cells }
            },
        }
    }

    /// Scrolls the messages back to where some of the longest one shown is in view.
    fn clamp_messages(&mut self, start: usize, end: usize, Ghost(height): Ghost<u16>)
        requires
            start == old(self)@.shown_from(),
            end == old(self)@.shown_to(height),
            start <= end,
            end <= old(self)@.row_count(),
        ensures
            final(self)@ == old(self)@.with_message_in_view(height),
            old(self).wf() ==> final(self).wf(),
    {
        if self.worktree_mode {
            return;
        }
        let ghost app = self@;
        let mut ns: Vec<usize> = Vec::new();
        for i in start..end
            invariant
                end <= self.repos@.len(),
                start <= end,
                ns@.len() == i - start,
                forall|j: int|
                    0 <= j < ns@.len() ==> #[trigger] ns@[j]
                        == self.repos@[start + j]@.row_message().len(),
        {
            ns.push(char_count(self.repos[i].row_text()));
        }
        proof {
            assert(widths_of(ns@) =~= lengths(app.shown_messages(height)));
        }
        let longest = largest(&ns, 0);
        let last: usize = longest.saturating_sub(1);
        if self.msg_scroll > last {
            self.msg_scroll = last;
        }
    }

    /// Takes over the column widths for a table of the given width. Cached ones are reused unless
    /// they were invalidated or the width or view changed: recomputing is a scan of all rows, and a
    /// frame is drawn on every tick.
    fn update_widths(&mut self, area_width: u16, clock: i128) -> (r: ColWidths)
        ensures
            final(self)@ == old(self)@.with_widths(area_width, clock as int),
            final(self)@.col_widths == Some(r),
            old(self).wf() ==> final(self).wf(),
    {
        let widths = match self.col_widths {
            Some(c) => if c.area_width == area_width && c.in_wt == self.worktree_mode {
                c
            } else {
                self.compute_col_widths(area_width, clock)
            },
            None => self.compute_col_widths(area_width, clock),
        };
        self.col_widths = Some(widths);
        widths
    }

    /// Scrolls to the row under the cursor, and gives the rows that are then shown.
    fn update_offset(&mut self, height: u16) -> (r: (usize, usize))
        ensures
            final(self)@ == old(self)@.with_offset(height),
            r.0 == final(self)@.shown_from(),
            r.1 == final(self)@.shown_to(height),
            r.0 <= r.1 <= final(self)@.row_count(),
            old(self).wf() ==> final(self).wf(),
    {
        // A header row costs one more line than the borders alone; skip it on very short
        // terminals so that every row still goes to data.
        let borders: u16 = if height >= 10 {
            3
        } else {
            2
        };
        let viewport = height.saturating_sub(borders) as usize;
        let (offset, total) = if self.worktree_mode {
            let total = self.wt_rows.len();
            self.wt_offset = scroll_to(self.wt_offset, self.wt_cursor, viewport, total);
            (self.wt_offset, total)
        } else {
            let total = self.repos.len();
            self.table_offset = scroll_to(self.table_offset, self.cursor, viewport, total);
            (self.table_offset, total)
        };
        let start: usize = if offset < total {
            offset
        } else {
            total
        };
        let end: usize = if total - start < viewport {
            total
        } else {
            start + viewport
        };
        (start, end)
    }

    /// The rows from `start` to `end`.
    fn draw_rows(&self, start: usize, end: usize, c: &ColWidths, clock: i128) -> (r: Vec<TableRow>)
        requires
            start <= end,
            end <= self@.row_count(),
        ensures
            r@.len() == end - start,
            forall|k: int|
                0 <= k < r@.len() ==> (#[trigger] r@[k])@ == self@.row_at(
                    start + k,
                    *c,
                    clock as int,
                ),
    {
        let mut rows: Vec<TableRow> = Vec::new();
        for i in start..end
            invariant
                start <= end,
                end <= self@.row_count(),
                rows@.len() == i - start,
                forall|k: int|
                    0 <= k < rows@.len() ==> (#[trigger] rows@[k])@ == self@.row_at(
                        start + k,
                        *c,
                        clock as int,
                    ),
        {
            let row = if self.worktree_mode {
                self.draw_worktree_row(i, c)
            } else {
                self.draw_repo_row(i, c, clock)
            };
            rows.push(row);
        }
        rows
    }

    /// Brings the row under the cursor into view, and lays the table out for the given area.
    /// `clock` is the time in nanoseconds since the epoch.
    pub fn draw_repo_table(&mut self, area: Rect, clock: i128) -> (r: TableView)
        ensures
            final(self)@ == old(self)@.laid_out(area, clock as int),
            views_of(r.rows@) == final(self)@.shown_rows(area.height, r.widths, clock as int),
            final(self)@.col_widths == Some(r.widths),
            r.header == header_shown(area.height),
            r.more_above == (final(self)@.shown_from() > 0),
            r.more_below == (final(self)@.shown_to(area.height) < final(self)@.row_count()),
            old(self).wf() ==> final(self).wf(),
    {
        let widths = self.update_widths(area.width, clock);
        let (start, end) = self.update_offset(area.height);
        self.clamp_messages(start, end, Ghost(area.height));
        let rows = self.draw_rows(start, end, &widths, clock);
        let total = if self.worktree_mode {
            self.wt_rows.len()
        } else {
            self.repos.len()
        };
        proof {
            assert(views_of(rows@) =~= self@.shown_rows(area.height, widths, clock as int));
        }
        TableView {
            rows,
            widths,
            header: area.height >= 10,
            more_above: start > 0,
            more_below: end < total,
        }
    }
}

/// The names of the columns.
pub fn column_names(in_wt: bool, show_age: bool) -> (r: Vec<&'static str>)
    ensures
        views(r@) == seq![
            // Indented to where the names begin.
            "    repo"@,
            if in_wt {
                "worktree"@
            } else {
                "branch"@
            },
            "message"@,
        ] + (if show_age {
            seq!["age"@]
        } else {
            Seq::empty()
        }),
{
    let mut out: Vec<&'static str> = Vec::new();
    out.push("    repo");
    out.push(
        if in_wt {
            "worktree"
        } else {
            "branch"
        },
    );
    out.push("message");
    if show_age {
        out.push("age");
    }
    out
}

} // verus!
