//! What lies over the list: which popup is open, where it stands, and what a panel shows.

use vstd::prelude::*;
use vstd::string::*;

use crate::chars::{begins_with, cat2, cat3, cat4, starts_with, trim_start, trimmed_start};
use crate::numbers::{decimal, decimal_usize};
use crate::order::views_of;
use crate::tui::app::{App, AppModel};
use crate::tui::area::{
    centered, centered_rect, inner_rect, inside, least, min_u16, minus, popup_rect, Rect,
};
use crate::tui::panel::{clamped, PanelKind, PanelModel, PanelState};
use crate::tui::row::{spinner, spinner_at};
use crate::tui::style::{
    bold, bold_on, colored, hint_piece, key_piece, piece, push_hint, push_line, unstyled, Line,
    Paint, Span, SpanModel, Style,
};

verus! {

// ── Which one ────────────────────────────────────────────────────────────────

/// The smallest terminal that the list is drawn on.
pub const MIN_WIDTH: u16 = 50;

/// The smallest terminal that the list is drawn on.
pub const MIN_HEIGHT: u16 = 8;

/// What is drawn over the list.
#[derive(Debug, Clone, Copy, PartialEq, Eq, Structural)]
pub enum Overlay {
    /// The terminal is too small for anything else.
    TooSmall,
    Loading,
    Help,
    Panel,
    Confirm,
    Credentials,
    Prompt,
    Nothing,
}

impl AppModel {
    /// What is drawn over the list on a terminal of the given size.
    pub open spec fn overlay(self, width: u16, height: u16) -> Overlay {
        if width < MIN_WIDTH || height < MIN_HEIGHT {
            Overlay::TooSmall
        } else if self.loading {
            Overlay::Loading
        } else if self.show_help {
            Overlay::Help
        } else if self.panel is Some {
            Overlay::Panel
        } else if self.confirm_prompt is Some {
            Overlay::Confirm
        } else if self.auth_prompt is Some {
            Overlay::Credentials
        } else if self.prompt is Some {
            Overlay::Prompt
        } else {
            Overlay::Nothing
        }
    }
}

impl App {
    /// What is drawn over the list on a terminal of the given size.
    pub fn overlay(&self, width: u16, height: u16) -> (r: Overlay)
        ensures
            r == self@.overlay(width, height),
    {
        if width < MIN_WIDTH || height < MIN_HEIGHT {
            Overlay::TooSmall
        } else if self.loading {
            Overlay::Loading
        } else if self.show_help {
            Overlay::Help
        } else if self.panel.is_some() {
            Overlay::Panel
        } else if self.confirm_prompt.is_some() {
            Overlay::Confirm
        } else if self.auth_prompt.is_some() {
            Overlay::Credentials
        } else if self.prompt.is_some() {
            Overlay::Prompt
        } else {
            Overlay::Nothing
        }
    }
}

/// What is said on a terminal that is too small.
pub fn too_small_text() -> (r: String)
    ensures
        r@ == "Terminal too small  minimum "@ + decimal(MIN_WIDTH as nat) + "×"@ + decimal(
            MIN_HEIGHT as nat,
        ),
{
    let w = decimal_usize(MIN_WIDTH as usize);
    let h = decimal_usize(MIN_HEIGHT as usize);
    cat4("Terminal too small  minimum ", w.as_str(), "×", h.as_str())
}

// ── Loading ──────────────────────────────────────────────────────────────────

/// The progress of loading.
#[derive(Debug)]
pub struct LoadingView {
    /// What the spinner says.
    pub spinner: String,
    /// How far it is.
    pub counter: String,
    pub done: usize,
    pub total: usize,
}

impl AppModel {
    /// The number of repositories to load, as it is shown: at least one.
    pub open spec fn shown_total(self) -> usize {
        if self.load_total == 0 {
            1
        } else {
            self.load_total
        }
    }
}

impl App {
    /// The progress of loading.
    pub fn draw_loading(&self) -> (r: LoadingView)
        ensures
            r.spinner@ == "  "@ + spinner_at(self@.tick) + " Loading repositories…"@,
            r.counter@ == "  "@ + decimal(self@.load_done as nat) + " / "@ + (decimal(
                self@.shown_total() as nat,
            ) + " repositories"@),
            r.done == self@.load_done,
            r.total == self@.shown_total(),
            r.total > 0,
    {
        let total: usize = if self.load_total == 0 {
            1
        } else {
            self.load_total
        };
        let all = cat2(decimal_usize(total).as_str(), " repositories");
        LoadingView {
            spinner: cat3("  ", spinner(self.tick), " Loading repositories…"),
            counter: cat4(
                "  ",
                decimal_usize(self.load_done).as_str(),
                " / ",
                all.as_str(),
            ),
            done: self.load_done,
            total,
        }
    }
}

/// The box of the progress of loading, and the lines within it; no lines where it is too low for
/// them.
pub fn loading_rect(area: Rect) -> (r: (Rect, Option<Rect>))
    requires
        area.wf(),
    ensures
        r.0 == centered(
            least(50, minus(area.width as int, 4)),
            least(10, minus(area.height as int, 2)),
            area,
        ),
        r.1 == (if inside(r.0, 2, 1).height < 5 {
            None
        } else {
            Some(inside(r.0, 2, 1))
        }),
{
    let frame = popup_rect(50, 10, area);
    let inner = inner_rect(frame, 2, 1);
    if inner.height < 5 {
        (frame, None)
    } else {
        (frame, Some(inner))
    }
}

// ── Panels ───────────────────────────────────────────────────────────────────

/// The box of a panel: three quarters of the width and four fifths of the height, within bounds.
pub open spec fn panel_area(area: Rect) -> Rect {
    centered(
        least(clamped(area.width * 3 / 4, 50, 120), minus(area.width as int, 4)),
        least(clamped(area.height * 4 / 5, 12, 60), minus(area.height as int, 2)),
        area,
    )
}

/// `n` times `num` over `den`, between two bounds.
fn share(n: u16, num: u32, den: u32, low: u16, high: u16) -> (r: u16)
    requires
        0 < den,
        num <= den <= 100,
        low <= high,
    ensures
        r == clamped(n * num / (den as int), low as int, high as int),
{
    assert(0 <= n * num <= 65535 * 100) by (nonlinear_arith)
        requires
            num <= 100,
            n <= 65535,
    ;
    assert(n as u32 == n);
    let x: u32 = n as u32 * num / den;
    assert(x == n * num / (den as int));
    if x < low as u32 {
        low
    } else if x > high as u32 {
        high
    } else {
        x as u16
    }
}

/// The areas of a panel: its box, its title line, its hint line and its body.
#[derive(Debug, Clone, Copy, PartialEq, Eq, Structural)]
pub struct PanelAreas {
    pub frame: Rect,
    pub head: Rect,
    pub hint: Rect,
    pub body: Rect,
}

/// `y` moved down by `n` lines, as far as coordinates go.
pub open spec fn lower(y: u16, n: int) -> u16 {
    least(y + n, u16::MAX as int) as u16
}

/// The areas of a panel.
pub open spec fn panel_areas_of(area: Rect) -> PanelAreas {
    let inner = inside(panel_area(area), 1, 1);
    PanelAreas {
        frame: panel_area(area),
        head: Rect { height: 1, ..inner },
        hint: Rect { y: lower(inner.y, 1), height: 1, ..inner },
        body: Rect {
            y: lower(inner.y, 3),
            height: minus(inner.height as int, 3) as u16,
            ..inner
        },
    }
}

/// The areas of a panel.
pub fn panel_areas(area: Rect) -> (r: PanelAreas)
    requires
        area.wf(),
    ensures
        r == panel_areas_of(area),
{
    let frame = centered_rect(
        min_u16(share(area.width, 3, 4, 50, 120), area.width.saturating_sub(4)),
        min_u16(share(area.height, 4, 5, 12, 60), area.height.saturating_sub(2)),
        area,
    );
    let inner = inner_rect(frame, 1, 1);
    PanelAreas {
        frame,
        head: Rect { x: inner.x, y: inner.y, width: inner.width, height: 1 },
        hint: Rect { x: inner.x, y: inner.y.saturating_add(1), width: inner.width, height: 1 },
        body: Rect {
            x: inner.x,
            y: inner.y.saturating_add(3),
            width: inner.width,
            height: inner.height.saturating_sub(3),
        },
    }
}

/// The keys of a panel.
pub open spec fn panel_hint(kind: PanelKind) -> Seq<SpanModel> {
    if kind == PanelKind::Branches {
        seq![
            key_piece("j/k"@),
            hint_piece(" navigate  "@),
            key_piece("space/c"@),
            hint_piece(" checkout  "@),
            key_piece("n"@),
            hint_piece(" new  "@),
            key_piece("d"@),
            hint_piece(" delete  "@),
            key_piece("D"@),
            hint_piece(" force-del  "@),
            key_piece("Esc"@),
            hint_piece(" close"@),
        ]
    } else {
        seq![
            key_piece("j/k"@),
            hint_piece(" scroll  "@),
            key_piece("Esc"@),
            hint_piece(" close"@),
        ]
    }
}

/// The keys of a panel.
fn hint_of_panel(kind: PanelKind) -> (r: Line)
    ensures
        r@ == panel_hint(kind),
{
    let mut spans: Vec<Span> = Vec::new();
    proof {
        assert(views_of(spans@) =~= Seq::<SpanModel>::empty());
    }
    if matches!(kind, PanelKind::Branches) {
        push_hint(&mut spans, "j/k", " navigate  ");
        push_hint(&mut spans, "space/c", " checkout  ");
        push_hint(&mut spans, "n", " new  ");
        push_hint(&mut spans, "d", " delete  ");
        push_hint(&mut spans, "D", " force-del  ");
    } else {
        push_hint(&mut spans, "j/k", " scroll  ");
    }
    push_hint(&mut spans, "Esc", " close");
    proof {
        assert(views_of(spans@) =~= panel_hint(kind));
    }
    Line { spans }
}

impl PanelModel {
    /// The line at `i` as it is shown: the one under the cursor, and the current branch, stand out.
    pub open spec fn shown_line(self, i: int) -> Seq<SpanModel> {
        if self.navigable() && i == self.cursor {
            seq![piece("▶ "@ + self.lines[i], bold_on(Paint::White, Paint::SelDefaultBg))]
        } else if begins_with(trimmed_start(self.lines[i]), "*"@) {
            seq![piece(self.lines[i], bold(Paint::BranchCur))]
        } else {
            seq![piece(self.lines[i], unstyled())]
        }
    }

    /// The first line shown.
    pub open spec fn first_line(self) -> int {
        least(self.scroll as int, self.lines.len() as int)
    }

    /// The line after the last one shown, where `visible` fit.
    pub open spec fn end_line(self, visible: int) -> int {
        least(self.first_line() + visible, self.lines.len() as int)
    }

    /// What the body of the panel says.
    pub open spec fn body(self, visible: int) -> Seq<Seq<SpanModel>> {
        (if self.scroll > 0 {
            seq![seq![piece("  ↑ more above"@, colored(Paint::DimFg))]]
        } else {
            Seq::empty()
        }) + Seq::new(
            (self.end_line(visible) - self.first_line()) as nat,
            |k: int| self.shown_line(self.first_line() + k),
        ) + (if self.end_line(visible) < self.lines.len() {
            seq![seq![piece("  ↓ more below"@, colored(Paint::DimFg))]]
        } else {
            Seq::empty()
        })
    }
}

impl PanelState {
    /// The line at `i` as it is shown.
    fn draw_line(&self, i: usize) -> (r: Line)
        requires
            i < self.lines@.len(),
        ensures
            r@ == self@.shown_line(i as int),
    {
        let line = self.lines[i].as_str();
        proof {
            assert(self@.lines[i as int] == self.lines@[i as int]@);
        }
        if self.is_navigable() && i == self.cursor {
            let text = cat2("▶ ", line);
            Line::one(text.as_str(), Style::strong_on(Paint::White, Paint::SelDefaultBg))
        } else if starts_with(trim_start(line), "*") {
            Line::one(line, Style::strong(Paint::BranchCur))
        } else {
            Line::one(line, Style::plain())
        }
    }

    /// What the body of the panel says, where `visible` lines fit.
    fn draw_body(&self, visible: usize) -> (r: Vec<Line>)
        ensures
            views_of(r@) == self@.body(visible as int),
    {
        let n = self.lines.len();
        let ghost panel = self@;
        let start: usize = if self.scroll < n {
            self.scroll
        } else {
            n
        };
        let end: usize = if n - start < visible {
            n
        } else {
            start + visible
        };
        let mut lines: Vec<Line> = Vec::new();
        proof {
            assert(views_of(lines@) =~= Seq::<Seq<SpanModel>>::empty());
            assert(panel.lines.len() == n);
        }
        if self.scroll > 0 {
            push_line(&mut lines, Line::one("  ↑ more above", Style::color(Paint::DimFg)));
        }
        let ghost head = views_of(lines@);
        proof {
            assert(head + Seq::new(0, |k: int| panel.shown_line(start + k)) =~= head);
        }
        for i in start..end
            invariant
                n == self.lines@.len(),
                start <= end <= n,
                panel == self@,
                views_of(lines@) == head + Seq::new(
                    (i - start) as nat,
                    |k: int| panel.shown_line(start + k),
                ),
        {
            push_line(&mut lines, self.draw_line(i));
            proof {
                assert(views_of(lines@) =~= head + Seq::new(
                    (i + 1 - start) as nat,
                    |k: int| panel.shown_line(start + k),
                ));
            }
        }
        if end < n {
            push_line(&mut lines, Line::one("  ↓ more below", Style::color(Paint::DimFg)));
        }
        proof {
            assert(views_of(lines@) =~= panel.body(visible as int));
        }
        lines
    }
}

/// A panel as it is shown.
#[derive(Debug)]
pub struct PanelView {
    pub areas: PanelAreas,
    pub title: String,
    pub head: String,
    pub hint: Line,
    pub body: Vec<Line>,
}

impl AppModel {
    /// The repository under the cursor and its branch, above what a panel shows.
    pub open spec fn panel_head(self) -> Seq<char> {
        match self.current() {
            Some(r) => "  "@ + r.snapshot.name + "  "@ + r.snapshot.branch.name,
            None => Seq::empty(),
        }
    }

    /// With the number of lines that the panel shows.
    pub open spec fn with_panel_height(self, area: Rect) -> AppModel {
        if self.panel is Some {
            AppModel { panel_viewport: panel_areas_of(area).body.height as usize, ..self }
        } else {
            self
        }
    }
}

impl App {
    /// The open panel, where there is one. The height of its body is remembered, so that the keys
    /// that move by a page follow the actual size of the popup.
    pub fn draw_panel_popup(&mut self, area: Rect) -> (r: Option<PanelView>)
        requires
            area.wf(),
        ensures
            final(self)@ == old(self)@.with_panel_height(area),
            r is Some == old(self)@.panel is Some,
            match (r, old(self)@.panel) {
                (Some(v), Some(panel)) => {
                    &&& v.areas == panel_areas_of(area)
                    &&& v.title@ == panel.title
                    &&& v.head@ == old(self)@.panel_head()
                    &&& v.hint@ == panel_hint(panel.kind)
                    &&& views_of(v.body@) == panel.body(v.areas.body.height as int)
                },
                _ => true,
            },
            old(self).wf() ==> final(self).wf(),
    {
        let head = match self.current() {
            Some(r) => cat4(
                "  ",
                r.snapshot.name.as_str(),
                "  ",
                r.snapshot.branch.name.as_str(),
            ),
            None => String::new(),
        };
        let view = match &self.panel {
            Some(panel) => {
                let areas = panel_areas(area);
                PanelView {
                    areas,
                    title: panel.title.clone(),
                    head,
                    hint: hint_of_panel(panel.kind),
                    body: panel.draw_body(areas.body.height as usize),
                }
            },
            None => {
                return None;
            },
        };
        self.panel_viewport = view.areas.body.height as usize;
        Some(view)
    }
}

} // verus!
