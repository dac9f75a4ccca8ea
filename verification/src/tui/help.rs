//! The help.

use vstd::prelude::*;
use vstd::string::*;

use crate::chars::{cat3, char_count, repeat, repeated};
use crate::order::views_of;
use crate::tui::app::{App, AppModel};
use crate::tui::area::{centered, inner_rect, inside, least, minus, popup_rect, Rect};
use crate::tui::style::{
    blank_line, bold, colored, copy_line, piece, push_line, Line, Paint, SpanModel, Style,
};

verus! {

// ── Contents ─────────────────────────────────────────────────────────────────

/// The heading of a section.
pub open spec fn section(label: Seq<char>) -> Seq<SpanModel> {
    seq![piece(label, bold(Paint::SectionHdr))]
}

/// A key or an icon, in a column of twelve characters, and what it means.
pub open spec fn key_row(key: Seq<char>, meaning: Seq<char>, color: Paint) -> Seq<SpanModel> {
    seq![
        piece("  "@ + key + repeated(" "@, minus(12, key.len() as int) as nat), bold(color)),
        piece(meaning, colored(Paint::White)),
    ]
}

/// The heading of a section.
fn section_line(label: &str) -> (r: Line)
    ensures
        r@ == section(label@),
{
    Line::one(label, Style::strong(Paint::SectionHdr))
}

/// A key or an icon, in a column of twelve characters, and what it means.
fn kv_line(key: &str, meaning: &str, color: Paint) -> (r: Line)
    ensures
        r@ == key_row(key@, meaning@, color),
{
    let n: usize = char_count(key);
    let missing: usize = if n < 12 {
        12 - n
    } else {
        0
    };
    let space = repeat(" ", missing);
    let padded = cat3("  ", key, space.as_str());
    Line::two(padded.as_str(), Style::strong(color), meaning, Style::color(Paint::White))
}

/// The keys in the left column.
pub open spec fn help_left() -> Seq<Seq<SpanModel>> {
    seq![
        section("Navigation"@),
        key_row("j/k ↑↓"@, "move cursor"@, Paint::KeyFg),
        key_row("g/G"@, "top / bottom"@, Paint::KeyFg),
        key_row("PgUp/PgDn"@, "jump page"@, Paint::KeyFg),
        key_row("← / →"@, "scroll message"@, Paint::KeyFg),
        blank_line(),
        section("Git"@),
        key_row("f"@, "fetch"@, Paint::KeyFg),
        key_row("p"@, "pull"@, Paint::KeyFg),
        key_row("P"@, "push"@, Paint::KeyFg),
        key_row("m"@, "cycle mode"@, Paint::KeyFg),
        blank_line(),
        section("Local"@),
        key_row("c"@, "commit"@, Paint::KeyFg),
        key_row("n"@, "new branch"@, Paint::KeyFg),
        key_row("u"@, "set upstream"@, Paint::KeyFg),
        key_row("U"@, "reset to upstream"@, Paint::KeyFg),
        key_row("S / O / D"@, "stash/pop/drop"@, Paint::KeyFg),
        blank_line(),
        section("Worktrees"@),
        key_row("W"@, "toggle worktree view"@, Paint::KeyFg),
        key_row("n / d"@, "new / remove"@, Paint::KeyFg),
        key_row("L / X"@, "lock / prune"@, Paint::KeyFg),
    ]
}

/// The keys in the left column.
pub fn left_lines() -> (r: Vec<Line>)
    ensures
        views_of(r@) == help_left(),
{
    let mut out: Vec<Line> = Vec::new();
    proof {
        assert(views_of(out@) =~= Seq::<Seq<SpanModel>>::empty());
    }
    push_line(&mut out, section_line("Navigation"));
    push_line(&mut out, kv_line("j/k ↑↓", "move cursor", Paint::KeyFg));
    push_line(&mut out, kv_line("g/G", "top / bottom", Paint::KeyFg));
    push_line(&mut out, kv_line("PgUp/PgDn", "jump page", Paint::KeyFg));
    push_line(&mut out, kv_line("← / →", "scroll message", Paint::KeyFg));
    push_line(&mut out, Line::empty());
    push_line(&mut out, section_line("Git"));
    push_line(&mut out, kv_line("f", "fetch", Paint::KeyFg));
    push_line(&mut out, kv_line("p", "pull", Paint::KeyFg));
    push_line(&mut out, kv_line("P", "push", Paint::KeyFg));
    push_line(&mut out, kv_line("m", "cycle mode", Paint::KeyFg));
    push_line(&mut out, Line::empty());
    push_line(&mut out, section_line("Local"));
    push_line(&mut out, kv_line("c", "commit", Paint::KeyFg));
    push_line(&mut out, kv_line("n", "new branch", Paint::KeyFg));
    push_line(&mut out, kv_line("u", "set upstream", Paint::KeyFg));
    push_line(&mut out, kv_line("U", "reset to upstream", Paint::KeyFg));
    push_line(&mut out, kv_line("S / O / D", "stash/pop/drop", Paint::KeyFg));
    push_line(&mut out, Line::empty());
    push_line(&mut out, section_line("Worktrees"));
    push_line(&mut out, kv_line("W", "toggle worktree view", Paint::KeyFg));
    push_line(&mut out, kv_line("n / d", "new / remove", Paint::KeyFg));
    push_line(&mut out, kv_line("L / X", "lock / prune", Paint::KeyFg));
    proof {
        assert(views_of(out@) =~= help_left());
    }
    out
}

/// The keys in the right column.
pub open spec fn help_right() -> Seq<Seq<SpanModel>> {
    seq![
        section("Batch (select to apply to all)"@),
        key_row("Space"@, "select / deselect repo"@, Paint::KeyFg),
        key_row("a / A"@, "select all / clear all"@, Paint::KeyFg),
        key_row("Enter"@, "run mode on selection"@, Paint::KeyFg),
        key_row(""@, "(push to >1 repo confirms"@, Paint::KeyFg),
        key_row(""@, "first; other modes don't)"@, Paint::KeyFg),
        key_row(""@, "all actions apply to the"@, Paint::KeyFg),
        key_row(""@, "selection when non-empty"@, Paint::KeyFg),
        section("Panels"@),
        key_row("b"@, "branches"@, Paint::KeyFg),
        key_row("s"@, "status"@, Paint::KeyFg),
        key_row("v"@, "commits"@, Paint::KeyFg),
        key_row("q / Esc"@, "close panel"@, Paint::KeyFg),
        blank_line(),
        section("Other"@),
        key_row("t"@, "toggle sort"@, Paint::KeyFg),
        key_row("TAB"@, "lazygit"@, Paint::KeyFg),
        key_row("q / Ctrl+C"@, "quit"@, Paint::KeyFg),
    ]
}

/// The keys in the right column.
pub fn right_lines() -> (r: Vec<Line>)
    ensures
        views_of(r@) == help_right(),
{
    let mut out: Vec<Line> = Vec::new();
    proof {
        assert(views_of(out@) =~= Seq::<Seq<SpanModel>>::empty());
    }
    push_line(&mut out, section_line("Batch (select to apply to all)"));
    push_line(&mut out, kv_line("Space", "select / deselect repo", Paint::KeyFg));
    push_line(&mut out, kv_line("a / A", "select all / clear all", Paint::KeyFg));
    push_line(&mut out, kv_line("Enter", "run mode on selection", Paint::KeyFg));
    push_line(&mut out, kv_line("", "(push to >1 repo confirms", Paint::KeyFg));
    push_line(&mut out, kv_line("", "first; other modes don't)", Paint::KeyFg));
    push_line(&mut out, kv_line("", "all actions apply to the", Paint::KeyFg));
    push_line(&mut out, kv_line("", "selection when non-empty", Paint::KeyFg));
    push_line(&mut out, section_line("Panels"));
    push_line(&mut out, kv_line("b", "branches", Paint::KeyFg));
    push_line(&mut out, kv_line("s", "status", Paint::KeyFg));
    push_line(&mut out, kv_line("v", "commits", Paint::KeyFg));
    push_line(&mut out, kv_line("q / Esc", "close panel", Paint::KeyFg));
    push_line(&mut out, Line::empty());
    push_line(&mut out, section_line("Other"));
    push_line(&mut out, kv_line("t", "toggle sort", Paint::KeyFg));
    push_line(&mut out, kv_line("TAB", "lazygit", Paint::KeyFg));
    push_line(&mut out, kv_line("q / Ctrl+C", "quit", Paint::KeyFg));
    proof {
        assert(views_of(out@) =~= help_right());
    }
    out
}

/// The legend of the status icons.
pub open spec fn help_icons() -> Seq<Seq<SpanModel>> {
    seq![
        section("Status Icons"@),
        key_row(
            "⚠"@,
            "conflict — active merge conflict, or pull would create conflicts"@,
            Paint::ConflictFg,
        ),
        key_row(
            "~"@,
            "local — uncommitted/unpushed changes, safe to pull"@,
            Paint::LocalFg,
        ),
        key_row(
            "↖"@,
            "ahead — branch is ahead of its remote"@,
            Paint::AheadFg,
        ),
        key_row(
            "↘"@,
            "behind — branch is behind its remote"@,
            Paint::BehindFg,
        ),
        key_row(
            "●"@,
            "selected — included in the batch selection"@,
            Paint::QueuedFg,
        ),
        key_row(
            "✓"@,
            "ok — last operation succeeded"@,
            Paint::SuccessFg,
        ),
        key_row(
            "✗"@,
            "failed — last operation failed (gray: network error)"@,
            Paint::FailFg,
        ),
        key_row(
            "?  /  !"@,
            "failed — credentials needed / push rejected (non-FF)"@,
            Paint::CredsFg,
        ),
        key_row(
            "{N}"@,
            "stash — repo has N stashed changesets"@,
            Paint::StashFg,
        ),
    ]
}

/// The legend of the status icons.
pub fn icon_lines() -> (r: Vec<Line>)
    ensures
        views_of(r@) == help_icons(),
{
    let mut out: Vec<Line> = Vec::new();
    proof {
        assert(views_of(out@) =~= Seq::<Seq<SpanModel>>::empty());
    }
    push_line(&mut out, section_line("Status Icons"));
    push_line(
        &mut out,
        kv_line(
            "⚠",
            "conflict — active merge conflict, or pull would create conflicts",
            Paint::ConflictFg,
        ),
    );
    push_line(
        &mut out,
        kv_line(
            "~",
            "local — uncommitted/unpushed changes, safe to pull",
            Paint::LocalFg,
        ),
    );
    push_line(
        &mut out,
        kv_line(
            "↖",
            "ahead — branch is ahead of its remote",
            Paint::AheadFg,
        ),
    );
    push_line(
        &mut out,
        kv_line(
            "↘",
            "behind — branch is behind its remote",
            Paint::BehindFg,
        ),
    );
    push_line(
        &mut out,
        kv_line(
            "●",
            "selected — included in the batch selection",
            Paint::QueuedFg,
        ),
    );
    push_line(
        &mut out,
        kv_line(
            "✓",
            "ok — last operation succeeded",
            Paint::SuccessFg,
        ),
    );
    push_line(
        &mut out,
        kv_line(
            "✗",
            "failed — last operation failed (gray: network error)",
            Paint::FailFg,
        ),
    );
    push_line(
        &mut out,
        kv_line(
            "?  /  !",
            "failed — credentials needed / push rejected (non-FF)",
            Paint::CredsFg,
        ),
    );
    push_line(
        &mut out,
        kv_line(
            "{N}",
            "stash — repo has N stashed changesets",
            Paint::StashFg,
        ),
    );
    proof {
        assert(views_of(out@) =~= help_icons());
    }
    out
}

// ── Layout ───────────────────────────────────────────────────────────────────

/// The height of the keys.
pub const KEYS_H: u16 = 23;

/// The height of the legend.
pub const ICONS_H: u16 = 10;

/// Everything in one column.
pub open spec fn help_column() -> Seq<Seq<SpanModel>> {
    help_left() + seq![blank_line()] + help_right() + seq![blank_line()] + help_icons()
}

/// Where the help stands.
pub open spec fn help_area(area: Rect) -> Rect {
    centered(
        least(78, minus(area.width as int, 4)),
        least(35, minus(area.height as int, 2)),
        area,
    )
}

/// Where its contents stand.
pub open spec fn help_inner(area: Rect) -> Rect {
    inside(help_area(area), 2, 1)
}

/// Whether there is room for anything at all.
pub open spec fn help_fits(area: Rect) -> bool {
    help_inner(area).width >= 20 && help_inner(area).height >= 3
}

/// Whether there is room for two columns of keys with the legend below.
pub open spec fn help_is_tall(area: Rect) -> bool {
    help_inner(area).height >= KEYS_H + ICONS_H
}

/// `visible` lines of `all` from `start` on. Where there is more above or below, the first or the
/// last of them says so instead.
pub open spec fn window(all: Seq<Seq<SpanModel>>, start: int, visible: int) -> Seq<
    Seq<SpanModel>,
> {
    let end = least(start + visible, all.len() as int);
    let from = if start > 0 {
        start + 1
    } else {
        start
    };
    let to = if end < all.len() {
        end - 1
    } else {
        end
    };
    (if start > 0 {
        seq![seq![piece("  ↑ more above (k)"@, colored(Paint::DimFg))]]
    } else {
        Seq::empty()
    }) + all.subrange(from, to) + (if end < all.len() {
        seq![seq![piece("  ↓ more below (j)"@, colored(Paint::DimFg))]]
    } else {
        Seq::empty()
    })
}

/// How far the help is scrolled where it is `visible` lines high.
pub open spec fn help_start(scroll: int, visible: int) -> int {
    least(scroll, minus(help_column().len() as int, visible))
}

impl AppModel {
    /// With the help scrolled no further than to its end.
    pub open spec fn with_help_in_view(self, area: Rect) -> AppModel {
        if !help_fits(area) {
            self
        } else if help_is_tall(area) {
            AppModel { help_scroll: 0, ..self }
        } else {
            AppModel {
                help_scroll: help_start(
                    self.help_scroll as int,
                    help_inner(area).height as int,
                ) as usize,
                ..self
            }
        }
    }
}

/// The help as it is shown.
#[derive(Debug)]
pub enum HelpView {
    /// There is no room for it.
    Nothing,
    /// Two columns of keys with the legend below.
    Columns { left: Vec<Line>, right: Vec<Line>, icons: Vec<Line> },
    /// As much of one column as there is room for.
    Column(Vec<Line>),
}

/// Appends the lines of `more` from `from` to `to`.
fn push_lines(list: &mut Vec<Line>, more: &Vec<Line>, from: usize, to: usize)
    requires
        from <= to <= more@.len(),
    ensures
        views_of(final(list)@) == views_of(old(list)@) + views_of(more@).subrange(
            from as int,
            to as int,
        ),
{
    let ghost before = views_of(list@);
    let ghost all = views_of(more@);
    proof {
        assert(before + all.subrange(from as int, from as int) =~= before);
    }
    for i in from..to
        invariant
            from <= to <= more@.len(),
            all == views_of(more@),
            views_of(list@) == before + all.subrange(from as int, i as int),
    {
        push_line(list, copy_line(&more[i]));
        proof {
            assert(all.subrange(from as int, i + 1) =~= all.subrange(from as int, i as int).push(
                more@[i as int]@,
            ));
            assert(views_of(list@) =~= before + all.subrange(from as int, i + 1));
        }
    }
}

/// Everything in one column.
fn column_lines() -> (r: Vec<Line>)
    ensures
        views_of(r@) == help_column(),
        r@.len() == 53,
{
    let mut flat = left_lines();
    let right = right_lines();
    let icons = icon_lines();
    push_line(&mut flat, Line::empty());
    proof {
        assert(views_of(right@).len() == right@.len());
        assert(views_of(icons@).len() == icons@.len());
    }
    push_lines(&mut flat, &right, 0, right.len());
    push_line(&mut flat, Line::empty());
    push_lines(&mut flat, &icons, 0, icons.len());
    proof {
        assert(help_right().subrange(0, 18) =~= help_right());
        assert(help_icons().subrange(0, 10) =~= help_icons());
        assert(views_of(flat@) =~= help_column());
        assert(views_of(flat@).len() == flat@.len());
    }
    flat
}

/// `visible` lines of `all` from `start` on.
fn window_lines(all: &Vec<Line>, start: usize, visible: usize) -> (r: Vec<Line>)
    requires
        visible >= 3,
        visible <= all@.len(),
        start <= all@.len() - visible,
    ensures
        views_of(r@) == window(views_of(all@), start as int, visible as int),
{
    let n = all.len();
    let end: usize = start + visible;
    let mut lines: Vec<Line> = Vec::new();
    proof {
        assert(views_of(lines@) =~= Seq::<Seq<SpanModel>>::empty());
        assert(views_of(all@).len() == n);
    }
    let mut from: usize = start;
    if start > 0 {
        push_line(&mut lines, Line::one("  ↑ more above (k)", Style::color(Paint::DimFg)));
        from = start + 1;
    }
    let mut to: usize = end;
    if end < n {
        to = end - 1;
    }
    push_lines(&mut lines, all, from, to);
    if end < n {
        push_line(&mut lines, Line::one("  ↓ more below (j)", Style::color(Paint::DimFg)));
    }
    proof {
        assert(views_of(lines@) =~= window(views_of(all@), start as int, visible as int));
    }
    lines
}

impl App {
    /// The help in `area`: two columns of keys with the legend below on a tall terminal, else
    /// everything in one column that is scrolled.
    pub fn draw_help_popup(&mut self, area: Rect) -> (r: HelpView)
        requires
            area.wf(),
        ensures
            final(self)@ == old(self)@.with_help_in_view(area),
            match r {
                HelpView::Nothing => !help_fits(area),
                HelpView::Columns { left, right, icons } => {
                    &&& help_fits(area)
                    &&& help_is_tall(area)
                    &&& views_of(left@) == help_left()
                    &&& views_of(right@) == help_right()
                    &&& views_of(icons@) == help_icons()
                },
                HelpView::Column(lines) => {
                    &&& help_fits(area)
                    &&& !help_is_tall(area)
                    &&& views_of(lines@) == window(
                        help_column(),
                        final(self)@.help_scroll as int,
                        help_inner(area).height as int,
                    )
                },
            },
            old(self).wf() ==> final(self).wf(),
    {
        let inner = inner_rect(popup_rect(78, 35, area), 2, 1);
        if inner.width < 20 || inner.height < 3 {
            return HelpView::Nothing;
        }
        if inner.height >= KEYS_H + ICONS_H {
            self.help_scroll = 0;
            return HelpView::Columns {
                left: left_lines(),
                right: right_lines(),
                icons: icon_lines(),
            };
        }
        let flat = column_lines();
        let visible = inner.height as usize;
        let last: usize = flat.len() - visible;
        if self.help_scroll > last {
            self.help_scroll = last;
        }
        HelpView::Column(window_lines(&flat, self.help_scroll, visible))
    }
}

/// However far it is scrolled, the help fills the popup and goes no further.
pub proof fn lemma_help_fills_popup(scroll: int, visible: int)
    requires
        scroll >= 0,
        3 <= visible <= help_column().len(),
    ensures
        window(help_column(), help_start(scroll, visible), visible).len() == visible,
{
}

} // verus!
