//! The title bar and the status bar.

use vstd::prelude::*;
use vstd::string::*;

use crate::chars::{cat2, cat3, cat4, char_count, repeat, repeated};
use crate::git::command::views;
use crate::mode::Mode;
use crate::numbers::{decimal, decimal_usize};
use crate::order::views_of;
use crate::tui::app::{count_where, App, AppModel, SortMode};
use crate::tui::area::minus;
use crate::tui::cells::{truncate, truncated};
use crate::tui::ops::working;
use crate::tui::panel::PanelKind;
use crate::tui::repo::{divergence, divergence_text, OpModel, RepoModel, RepoOpState, RepoView};
use crate::tui::style::{
    bold, bold_on, colored, piece, push_span, unstyled, Line, Paint, Span, SpanModel, Style,
};

verus! {

// ── Title bar ────────────────────────────────────────────────────────────────

/// The number of characters of some pieces of text.
pub open spec fn chars_in(spans: Seq<SpanModel>) -> nat
    decreases spans.len(),
{
    if spans.len() == 0 {
        0
    } else {
        chars_in(spans.drop_last()) + spans.last().text.len()
    }
}

/// A piece of text in no style of its own.
pub open spec fn raw(text: Seq<char>) -> SpanModel {
    piece(text, unstyled())
}

/// The style of the key that toggles the sorting.
pub open spec fn sort_key_style() -> Style {
    Style { underlined: true, ..bold_on(Paint::White, Paint::TitleBg) }
}

impl AppModel {
    /// What the title bar says at the right.
    pub open spec fn title_right(self) -> Seq<SpanModel> {
        let queued = self.queued_count();
        let busy = count_where(self.repos, working());
        let sort = match self.sort_mode {
            SortMode::Name => ":name"@,
            SortMode::Modified => ":time"@,
        };
        seq![raw("repos:"@ + decimal(self.repos.len()))] + (if queued > 0 {
            seq![raw("  "@), raw("selected:"@ + decimal(queued))]
        } else {
            Seq::empty()
        }) + (if busy > 0 {
            seq![raw("  "@), raw("working:"@ + decimal(busy))]
        } else {
            Seq::empty()
        }) + seq![raw("  "@), raw("sor"@), piece("t"@, sort_key_style()), raw(sort)] + (
        if self.worktree_mode {
            seq![raw("  "@), raw("worktree"@)]
        } else {
            Seq::empty()
        }) + seq![raw("  "@), raw(" ?:help "@)]
    }

    /// The title bar, `width` cells wide, of the given version of the program.
    pub open spec fn title_bar(self, width: u16, version: Seq<char>) -> Seq<SpanModel> {
        let left = " gitbatch "@ + version;
        let right = self.title_right();
        let gap = minus(width as int, (left.len() + chars_in(right)) as int);
        seq![raw(left), raw(repeated(" "@, gap as nat))] + right
    }
}

/// The number of characters of some pieces of text, or `max` where there are more.
fn count_chars(spans: &Vec<Span>, max: usize) -> (r: usize)
    ensures
        r == (if chars_in(views_of(spans@)) > max {
            max as nat
        } else {
            chars_in(views_of(spans@))
        }),
{
    let ghost all = views_of(spans@);
    let mut n: usize = 0;
    for i in 0..spans.len()
        invariant
            all == views_of(spans@),
            n == (if chars_in(all.take(i as int)) > max {
                max as nat
            } else {
                chars_in(all.take(i as int))
            }),
            n <= max,
    {
        proof {
            assert(all.take(i + 1).drop_last() =~= all.take(i as int));
            assert(all.take(i + 1).last() == spans@[i as int]@);
        }
        let k = char_count(spans[i].text.as_str());
        n = if k > max - n {
            max
        } else {
            n + k
        };
    }
    proof {
        assert(all.take(spans@.len() as int) =~= all);
    }
    n
}

impl App {
    /// What the title bar says at the right.
    fn draw_title_right(&self) -> (r: Vec<Span>)
        ensures
            views_of(r@) == self@.title_right(),
    {
        let queued = self.queued_count();
        let busy = self.working_count();
        let plain = Style::plain();
        let mut spans: Vec<Span> = Vec::new();
        proof {
            assert(views_of(spans@) =~= Seq::<SpanModel>::empty());
        }
        let repos = cat2("repos:", decimal_usize(self.repos.len()).as_str());
        push_span(&mut spans, repos.as_str(), plain);
        if queued > 0 {
            let text = cat2("selected:", decimal_usize(queued).as_str());
            push_span(&mut spans, "  ", plain);
            push_span(&mut spans, text.as_str(), plain);
        }
        if busy > 0 {
            let text = cat2("working:", decimal_usize(busy).as_str());
            push_span(&mut spans, "  ", plain);
            push_span(&mut spans, text.as_str(), plain);
        }
        push_span(&mut spans, "  ", plain);
        push_span(&mut spans, "sor", plain);
        push_span(
            &mut spans,
            "t",
            Style {
                fg: Some(Paint::White),
                bg: Some(Paint::TitleBg),
                bold: true,
                underlined: true,
                reversed: false,
            },
        );
        push_span(
            &mut spans,
            match self.sort_mode {
                SortMode::Name => ":name",
                SortMode::Modified => ":time",
            },
            plain,
        );
        if self.worktree_mode {
            push_span(&mut spans, "  ", plain);
            push_span(&mut spans, "worktree", plain);
        }
        push_span(&mut spans, "  ", plain);
        push_span(&mut spans, " ?:help ", plain);
        proof {
            assert(views_of(spans@) =~= self@.title_right());
        }
        spans
    }

    /// The title bar, `width` cells wide, of the given version of the program.
    pub fn draw_title_bar(&self, width: u16, version: &str) -> (r: Line)
        ensures
            r@ == self@.title_bar(width, version@),
    {
        let left = cat2(" gitbatch ", version);
        let mut right = self.draw_title_right();
        let ghost tail = views_of(right@);
        let total_w = width as usize;
        let right_w = count_chars(&right, total_w);
        let gap = total_w.saturating_sub(char_count(left.as_str())).saturating_sub(right_w);
        let mut spans: Vec<Span> = Vec::new();
        proof {
            assert(views_of(spans@) =~= Seq::<SpanModel>::empty());
        }
        push_span(&mut spans, left.as_str(), Style::plain());
        let space = repeat(" ", gap);
        push_span(&mut spans, space.as_str(), Style::plain());
        let ghost head = views_of(spans@);
        spans.append(&mut right);
        proof {
            assert(views_of(spans@) =~= head + tail);
            assert(views_of(spans@) =~= self@.title_bar(width, version@));
        }
        Line { spans }
    }
}

// ── Hints ────────────────────────────────────────────────────────────────────

/// The columns that a hint leaves to the status in the middle, at least.
pub const STATUS_CENTER_FLOOR: usize = 20;

/// The first of `tiers` that leaves the status in the middle at least `STATUS_CENTER_FLOOR` of
/// `total` columns beside a mode badge of `mode_w`, or else the last.
pub open spec fn fitting_hint(tiers: Seq<Seq<char>>, total: nat, mode_w: nat) -> Seq<char>
    decreases tiers.len(),
{
    if tiers.len() == 0 {
        Seq::empty()
    } else if tiers.len() == 1 || minus(total as int, (mode_w + tiers[0].len()) as int)
        >= STATUS_CENTER_FLOOR {
        tiers[0]
    } else {
        fitting_hint(tiers.drop_first(), total, mode_w)
    }
}

/// Pick the widest of `tiers` (ordered full, short, minimal) whose width still leaves the status
/// bar's center status at least `STATUS_CENTER_FLOOR` columns, given the total bar width and the
/// mode badge's width. Falls back to the last (shortest) tier if none fit: the center is then
/// squeezed or empty, rather than the hint clipped mid-word.
pub fn fit_hint(tiers: &[&str], total_w: usize, mode_w: usize) -> (r: String)
    ensures
        r@ == fitting_hint(views(tiers@), total_w as nat, mode_w as nat),
{
    let ghost all = views(tiers@);
    let n = tiers.len();
    proof {
        assert(all.skip(0) =~= all);
    }
    for i in 0..n
        invariant
            n == tiers@.len(),
            all == views(tiers@),
            fitting_hint(all, total_w as nat, mode_w as nat) == fitting_hint(
                all.skip(i as int),
                total_w as nat,
                mode_w as nat,
            ),
    {
        proof {
            assert(all.skip(i as int)[0] == tiers@[i as int]@);
            assert(all.skip(i as int).drop_first() =~= all.skip(i + 1));
        }
        let right_w = char_count(tiers[i]);
        if i + 1 == n || total_w.saturating_sub(mode_w).saturating_sub(right_w)
            >= STATUS_CENTER_FLOOR {
            return tiers[i].to_owned();
        }
    }
    String::new()
}

/// The hint is one of the tiers; where one leaves enough room, so does the one that is shown.
pub proof fn lemma_hint_leaves_room(tiers: Seq<Seq<char>>, total: nat, mode_w: nat, i: int)
    requires
        0 <= i < tiers.len(),
    ensures
        tiers.contains(fitting_hint(tiers, total, mode_w)),
        ({
            let hint = fitting_hint(tiers, total, mode_w);
            minus(total as int, (mode_w + tiers[i].len()) as int) >= STATUS_CENTER_FLOOR ==> minus(
                total as int,
                (mode_w + hint.len()) as int,
            ) >= STATUS_CENTER_FLOOR
        }),
    decreases tiers.len(),
{
    let first = minus(total as int, (mode_w + tiers[0].len()) as int) >= STATUS_CENTER_FLOOR;
    if tiers.len() == 1 || first {
        assert(tiers[0] == fitting_hint(tiers, total, mode_w));
    } else {
        let rest = tiers.drop_first();
        let j = if i > 0 {
            i - 1
        } else {
            0
        };
        lemma_hint_leaves_room(rest, total, mode_w, j);
        let k = choose|k: int| 0 <= k < rest.len() && rest[k] == fitting_hint(rest, total, mode_w);
        assert(tiers[k + 1] == rest[k]);
        assert(i > 0 ==> tiers[i] == rest[i - 1]);
    }
}

// ── Status bar ───────────────────────────────────────────────────────────────

/// The badge of a mode: its symbol and its name in capitals.
pub open spec fn mode_badge(mode: Mode) -> Seq<char> {
    match mode {
        Mode::Pull => " ↓ PULL "@,
        Mode::Merge => " ↣ MERGE "@,
        Mode::Rebase => " ↯ REBASE "@,
        Mode::Push => " ↑ PUSH "@,
        Mode::Fetch => " ↺ FETCH "@,
    }
}

/// The colors of the badge of a mode.
pub open spec fn mode_style(mode: Mode) -> Style {
    match mode {
        Mode::Pull => bold_on(Paint::White, Paint::ModePullBg),
        Mode::Merge => bold_on(Paint::White, Paint::ModeMergeBg),
        Mode::Rebase => bold_on(Paint::White, Paint::ModeRebaseBg),
        Mode::Push => bold_on(Paint::ModeDarkFg, Paint::ModePushBg),
        Mode::Fetch => bold_on(Paint::White, Paint::ModeFetchBg),
    }
}

/// The badge of a mode, and its colors.
fn badge_of(mode: Mode) -> (r: (&'static str, Style))
    ensures
        r.0@ == mode_badge(mode),
        r.1 == mode_style(mode),
{
    match mode {
        Mode::Pull => (" ↓ PULL ", Style::strong_on(Paint::White, Paint::ModePullBg)),
        Mode::Merge => (" ↣ MERGE ", Style::strong_on(Paint::White, Paint::ModeMergeBg)),
        Mode::Rebase => (" ↯ REBASE ", Style::strong_on(Paint::White, Paint::ModeRebaseBg)),
        Mode::Push => (" ↑ PUSH ", Style::strong_on(Paint::ModeDarkFg, Paint::ModePushBg)),
        Mode::Fetch => (" ↺ FETCH ", Style::strong_on(Paint::White, Paint::ModeFetchBg)),
    }
}

impl RepoModel {
    /// What the status bar says of where the branch stands.
    pub open spec fn upstream_note(self) -> Seq<char> {
        let b = self.snapshot.branch;
        if b.no_upstream {
            "  no upstream"@
        } else if b.ahead > 0 || b.behind > 0 {
            " "@ + divergence(b.ahead, b.behind)
        } else {
            Seq::empty()
        }
    }

    /// What the status bar says of conflicts and local changes.
    pub open spec fn change_note(self) -> Seq<char> {
        if self.snapshot.has_conflicts {
            "  merge conflict"@
        } else if self.pull_conflict() && self.snapshot.branch.ahead > 0 {
            "  conflict"@
        } else if self.pull_conflict() {
            "  would conflict"@
        } else if self.snapshot.dirty {
            "  dirty"@
        } else {
            Seq::empty()
        }
    }

    /// What the status bar says of stash entries.
    pub open spec fn stash_note(self) -> Seq<char> {
        if self.snapshot.stash_count > 0 {
            "  {"@ + decimal(self.snapshot.stash_count as nat) + "}"@
        } else {
            Seq::empty()
        }
    }

    /// What the status bar says of the startup fetch.
    pub open spec fn fetch_note(self) -> Seq<char> {
        if self.fetch_error is Some {
            "  ⚠ auto-fetch failed"@
        } else {
            Seq::empty()
        }
    }

    /// What the status bar says of the repository.
    pub open spec fn status_text(self) -> Seq<char> {
        match self.state {
            OpModel::Success(m) => " ✓ "@ + m,
            OpModel::Fail { message, kind } => " ✗ "@ + message,
            OpModel::Working => " "@ + self.snapshot.name + " working…"@,
            _ => " "@ + self.snapshot.name + "  "@ + self.snapshot.branch.name
                + self.upstream_note() + self.change_note() + self.stash_note() + self.fetch_note(),
        }
    }

    /// The hints for the repository, from the longest to the shortest; `scope` is what an
    /// operation applies to.
    pub open spec fn hints(self, scope: Seq<char>) -> Seq<Seq<char>> {
        match self.state {
            OpModel::Success(_) | OpModel::Fail { .. } => seq![
                "  c/Esc:clear "@,
                "  c/Esc "@,
                "  ?:help "@,
            ],
            OpModel::Working => seq!["  working… "@, "  working… "@, "  working… "@],
            _ => if self.snapshot.dirty {
                seq![
                    "  "@ + scope + " · c:commit  S:stash  TAB:lazygit "@,
                    "  c:commit  S:stash  TAB:lazygit "@,
                    "  c  S  TAB "@,
                    "  ?:help "@,
                ]
            } else if self.snapshot.branch.behind > 0 {
                seq![
                    "  "@ + scope + " · p:pull  f:fetch  TAB:lazygit "@,
                    "  p:pull  f:fetch  TAB:lazygit "@,
                    "  p  f  TAB "@,
                    "  ?:help "@,
                ]
            } else if self.snapshot.branch.ahead > 0 {
                seq![
                    "  "@ + scope + " · P:push  TAB:lazygit "@,
                    "  P:push  TAB:lazygit "@,
                    "  P  TAB "@,
                    "  ?:help "@,
                ]
            } else {
                seq!["  m:mode  TAB:lazygit "@, "  m  TAB "@, "  ?:help "@]
            },
        }
    }
}

impl AppModel {
    /// What the status bar says in the middle. A notice outranks the state of the repository:
    /// nowhere else is it visible.
    pub open spec fn status_center(self) -> Seq<char> {
        match self.shown_notice() {
            Some(notice) => " "@ + notice,
            None => match self.current() {
                Some(repo) => repo.status_text(),
                None => " no repositories"@,
            },
        }
    }

    /// The hints of the status bar, from the longest to the shortest.
    pub open spec fn status_hints(self) -> Seq<Seq<char>> {
        if self.worktree_mode {
            seq![
                "  n:new  d:rm  L:lock  X:prune  W:exit "@,
                "  n/d/L/X  W:exit "@,
                "  ?:help "@,
            ]
        } else {
            match self.panel {
                Some(panel) => if panel.kind == PanelKind::Branches {
                    seq![
                        "  j/k:nav  space:checkout  n:new  d/D:del  Esc:close "@,
                        "  j/k  space:co  d/D  Esc "@,
                        "  ?:help "@,
                    ]
                } else {
                    seq!["  j/k:scroll  Esc:close "@, "  j/k  Esc "@, "  ?:help "@]
                },
                None => match self.current() {
                    Some(repo) => repo.hints(self.scope_label()),
                    None => seq!["  m:mode "@, "  m:mode "@, "  ?:help "@],
                },
            }
        }
    }

    /// The hint of the status bar, `width` cells wide.
    pub open spec fn status_right(self, width: u16) -> Seq<char> {
        fitting_hint(self.status_hints(), width as nat, mode_badge(self.mode).len())
    }

    /// The status bar, `width` cells wide: the mode, what there is to say, and a hint.
    pub open spec fn status_bar(self, width: u16) -> Seq<SpanModel> {
        let badge = mode_badge(self.mode);
        let right = self.status_right(width);
        let room = minus(width as int, (badge.len() + right.len()) as int);
        let center = truncated(self.status_center(), minus(room, 1) as nat);
        let pad = minus(room, center.len() + 1int);
        seq![
            piece(badge, mode_style(self.mode)),
            piece(
                center + repeated(" "@, pad as nat),
                if self.shown_notice() is Some {
                    bold(Paint::NoticeFg)
                } else {
                    unstyled()
                },
            ),
            piece(right, colored(Paint::HelpFg)),
        ]
    }
}

impl RepoView {
    /// What the status bar says of where the branch stands.
    fn tell_upstream(&self) -> (r: String)
        ensures
            r@ == self@.upstream_note(),
    {
        let b = &self.snapshot.branch;
        if b.no_upstream {
            "  no upstream".to_owned()
        } else if b.ahead > 0 || b.behind > 0 {
            let d = divergence_text(b.ahead, b.behind);
            cat2(" ", d.as_str())
        } else {
            String::new()
        }
    }

    /// What the status bar says of conflicts and local changes.
    fn tell_changes(&self) -> (r: String)
        ensures
            r@ == self@.change_note(),
    {
        let pull_conflict = self.has_pull_conflict();
        if self.snapshot.has_conflicts {
            "  merge conflict".to_owned()
        } else if pull_conflict && self.snapshot.branch.ahead > 0 {
            "  conflict".to_owned()
        } else if pull_conflict {
            "  would conflict".to_owned()
        } else if self.snapshot.dirty {
            "  dirty".to_owned()
        } else {
            String::new()
        }
    }

    /// What the status bar says of stash entries.
    fn tell_stash(&self) -> (r: String)
        ensures
            r@ == self@.stash_note(),
    {
        if self.snapshot.stash_count > 0 {
            cat3("  {", decimal_usize(self.snapshot.stash_count).as_str(), "}")
        } else {
            String::new()
        }
    }

    /// What the status bar says of the startup fetch.
    fn tell_fetch(&self) -> (r: String)
        ensures
            r@ == self@.fetch_note(),
    {
        if self.fetch_error.is_some() {
            "  ⚠ auto-fetch failed".to_owned()
        } else {
            String::new()
        }
    }

    /// What the status bar says of the repository.
    fn tell_status(&self) -> (r: String)
        ensures
            r@ == self@.status_text(),
    {
        match &self.state {
            RepoOpState::Success(m) => cat2(" ✓ ", m.as_str()),
            RepoOpState::Fail { message, .. } => cat2(" ✗ ", message.as_str()),
            RepoOpState::Working => cat3(" ", self.snapshot.name.as_str(), " working…"),
            _ => {
                let upstream = self.tell_upstream();
                let changes = self.tell_changes();
                let stash = self.tell_stash();
                let fetch = self.tell_fetch();
                let mut s = cat4(
                    " ",
                    self.snapshot.name.as_str(),
                    "  ",
                    self.snapshot.branch.name.as_str(),
                );
                s.append(upstream.as_str());
                s.append(changes.as_str());
                s.append(stash.as_str());
                s.append(fetch.as_str());
                s
            },
        }
    }

    /// The hint for the repository, in a bar of `total_w` columns with a badge of `mode_w`.
    fn hint(&self, scope: &str, total_w: usize, mode_w: usize) -> (r: String)
        ensures
            r@ == fitting_hint(self@.hints(scope@), total_w as nat, mode_w as nat),
    {
        match &self.state {
            RepoOpState::Success(_) | RepoOpState::Fail { .. } => {
                let tiers = ["  c/Esc:clear ", "  c/Esc ", "  ?:help "];
                proof {
                    assert(views(tiers@) =~= self@.hints(scope@));
                }
                fit_hint(&tiers, total_w, mode_w)
            },
            RepoOpState::Working => {
                let tiers = ["  working… ", "  working… ", "  working… "];
                proof {
                    assert(views(tiers@) =~= self@.hints(scope@));
                }
                fit_hint(&tiers, total_w, mode_w)
            },
            _ => if self.snapshot.dirty {
                // These three fan out over the selection, so the widest tier names the scope:
                // `p:pull` reads as "current repo" or "12 selected" before it runs, not after.
                let scoped = cat3("  ", scope, " · c:commit  S:stash  TAB:lazygit ");
                let tiers = [
                    scoped.as_str(),
                    "  c:commit  S:stash  TAB:lazygit ",
                    "  c  S  TAB ",
                    "  ?:help ",
                ];
                proof {
                    assert(views(tiers@) =~= self@.hints(scope@));
                }
                fit_hint(&tiers, total_w, mode_w)
            } else if self.snapshot.branch.behind > 0 {
                let scoped = cat3("  ", scope, " · p:pull  f:fetch  TAB:lazygit ");
                let tiers = [
                    scoped.as_str(),
                    "  p:pull  f:fetch  TAB:lazygit ",
                    "  p  f  TAB ",
                    "  ?:help ",
                ];
                proof {
                    assert(views(tiers@) =~= self@.hints(scope@));
                }
                fit_hint(&tiers, total_w, mode_w)
            } else if self.snapshot.branch.ahead > 0 {
                let scoped = cat3("  ", scope, " · P:push  TAB:lazygit ");
                let tiers = [scoped.as_str(), "  P:push  TAB:lazygit ", "  P  TAB ", "  ?:help "];
                proof {
                    assert(views(tiers@) =~= self@.hints(scope@));
                }
                fit_hint(&tiers, total_w, mode_w)
            } else {
                let tiers = ["  m:mode  TAB:lazygit ", "  m  TAB ", "  ?:help "];
                proof {
                    assert(views(tiers@) =~= self@.hints(scope@));
                }
                fit_hint(&tiers, total_w, mode_w)
            },
        }
    }
}

impl App {
    /// What the status bar says in the middle.
    fn tell_center(&self) -> (r: String)
        ensures
            r@ == self@.status_center(),
    {
        match self.active_notice() {
            Some(notice) => cat2(" ", notice),
            None => match self.current() {
                Some(repo) => repo.tell_status(),
                None => " no repositories".to_owned(),
            },
        }
    }

    /// The hint of the status bar, of `total_w` columns with a badge of `mode_w`.
    fn tell_hint(&self, total_w: usize, mode_w: usize) -> (r: String)
        ensures
            r@ == fitting_hint(self@.status_hints(), total_w as nat, mode_w as nat),
    {
        if self.worktree_mode {
            let tiers = [
                "  n:new  d:rm  L:lock  X:prune  W:exit ",
                "  n/d/L/X  W:exit ",
                "  ?:help ",
            ];
            proof {
                assert(views(tiers@) =~= self@.status_hints());
            }
            return fit_hint(&tiers, total_w, mode_w);
        }
        match &self.panel {
            Some(panel) => {
                let tiers = if matches!(panel.kind, PanelKind::Branches) {
                    [
                        "  j/k:nav  space:checkout  n:new  d/D:del  Esc:close ",
                        "  j/k  space:co  d/D  Esc ",
                        "  ?:help ",
                    ]
                } else {
                    ["  j/k:scroll  Esc:close ", "  j/k  Esc ", "  ?:help "]
                };
                proof {
                    assert(views(tiers@) =~= self@.status_hints());
                }
                fit_hint(&tiers, total_w, mode_w)
            },
            None => match self.current() {
                Some(repo) => {
                    let scope = self.selection_scope_label();
                    repo.hint(scope.as_str(), total_w, mode_w)
                },
                None => {
                    let tiers = ["  m:mode ", "  m:mode ", "  ?:help "];
                    proof {
                        assert(views(tiers@) =~= self@.status_hints());
                    }
                    fit_hint(&tiers, total_w, mode_w)
                },
            },
        }
    }

    /// The status bar, `width` cells wide: the mode, what there is to say, and a hint.
    pub fn draw_status_bar(&self, width: u16) -> (r: Line)
        ensures
            r@ == self@.status_bar(width),
    {
        let (badge, badge_style) = badge_of(self.mode);
        let total_w = width as usize;
        let mode_w = char_count(badge);
        let right = self.tell_hint(total_w, mode_w);
        let room = total_w.saturating_sub(mode_w).saturating_sub(char_count(right.as_str()));
        let center = self.tell_center();
        let shown = truncate(center.as_str(), room.saturating_sub(1));
        let pad = room.saturating_sub(char_count(shown.as_str())).saturating_sub(1);
        let space = repeat(" ", pad);
        let middle = cat2(shown.as_str(), space.as_str());
        let mut spans: Vec<Span> = Vec::new();
        proof {
            assert(views_of(spans@) =~= Seq::<SpanModel>::empty());
        }
        push_span(&mut spans, badge, badge_style);
        push_span(
            &mut spans,
            middle.as_str(),
            if self.active_notice().is_some() {
                Style::strong(Paint::NoticeFg)
            } else {
                Style::plain()
            },
        );
        push_span(&mut spans, right.as_str(), Style::color(Paint::HelpFg));
        proof {
            assert(views_of(spans@) =~= self@.status_bar(width));
        }
        Line { spans }
    }
}

/// A notice is shown whatever the state of the repository under the cursor.
pub proof fn lemma_notice_outranks_status(app: AppModel)
    ensures
        app.shown_notice() matches Some(notice) ==> app.status_center() == " "@ + notice,
{
}

} // verus!
