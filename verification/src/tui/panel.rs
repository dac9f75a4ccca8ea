//! Panels: branches, commits and status, shown over the list.

use vstd::prelude::*;
use vstd::string::*;

use crate::chars::{
    cat3, holds_text, join, joined, lemma_texts_push, lines, split_lines, texts, trim, trimmed,
};
use crate::error::{Fault, Result};
use crate::git::command::{reading_command, CommandModel, GitCommand};
use crate::git::fast_forward::commands_of;
use crate::git::runner::GitRunner;
use crate::numbers::{decimal, decimal_usize};
use crate::order::{
    by_rule, comes_before, in_order, lemma_sorted_is_in_order, lemma_sorted_is_permutation,
    lemma_text_order_antisymmetric, lemma_text_order_total, lemma_text_order_transitive, ranks,
    sort_by, sorted, text_before, views_of, Ranked,
};
use crate::tui::text::{
    branch_names, filter_tracked_remotes, parse_branch_names, without_redundant,
};

verus! {

// ── Panels ───────────────────────────────────────────────────────────────────

/// What a panel shows.
#[derive(Debug, Clone, Copy, PartialEq, Eq, Structural)]
pub enum PanelKind {
    Branches,
    Commits,
    Status,
}

/// A panel. Its cursor is `usize::MAX` where the panel is text that is only scrolled.
#[derive(Debug)]
pub struct PanelState {
    pub kind: PanelKind,
    pub title: String,
    pub lines: Vec<String>,
    pub cursor: usize,
    pub scroll: usize,
}

/// A panel with its texts as sequences of characters.
#[verifier::ext_equal]
pub struct PanelModel {
    pub kind: PanelKind,
    pub title: Seq<char>,
    pub lines: Seq<Seq<char>>,
    pub cursor: usize,
    pub scroll: usize,
}

impl View for PanelState {
    type V = PanelModel;

    open spec fn view(&self) -> PanelModel {
        PanelModel {
            kind: self.kind,
            title: self.title@,
            lines: texts(self.lines@),
            cursor: self.cursor,
            scroll: self.scroll,
        }
    }
}

/// `x`, or the nearer of the two bounds where it lies outside of them.
pub open spec fn clamped(x: int, low: int, high: int) -> int {
    if x < low {
        low
    } else if x > high {
        high
    } else {
        x
    }
}

/// `at` moved by `delta`, between zero and `max`.
pub fn moved(at: usize, delta: isize, max: usize) -> (r: usize)
    ensures
        r == clamped(at + delta, 0, max as int),
{
    let far = at as i128 + delta as i128;
    if far < 0 {
        0
    } else if far > max as i128 {
        max
    } else {
        far as usize
    }
}

impl PanelModel {
    /// Whether the panel has a cursor.
    pub open spec fn navigable(self) -> bool {
        self.cursor != usize::MAX
    }

    /// Whether the cursor, where there is one, stands on a line (on none where there are none).
    pub open spec fn wf(self) -> bool {
        self.navigable() ==> self.cursor < self.lines.len() || (self.lines.len() == 0
            && self.cursor == 0)
    }

    /// A panel with a cursor.
    pub open spec fn with_cursor(kind: PanelKind, title: Seq<char>, content: Seq<char>) -> PanelModel {
        PanelModel { kind, title, lines: lines(content), cursor: 0, scroll: 0 }
    }

    /// A panel of text.
    pub open spec fn of_text(kind: PanelKind, title: Seq<char>, content: Seq<char>) -> PanelModel {
        PanelModel { kind, title, lines: lines(content), cursor: usize::MAX, scroll: 0 }
    }

    /// The line under the cursor, without the white space around it.
    pub open spec fn selected(self) -> Option<Seq<char>> {
        if self.navigable() && self.cursor < self.lines.len() {
            Some(trimmed(self.lines[self.cursor as int]))
        } else {
            None
        }
    }

    /// Scrolled just as far as it takes to show the cursor among `viewport` lines.
    pub open spec fn revealed(self, viewport: usize) -> PanelModel {
        if viewport == 0 {
            self
        } else if self.cursor < self.scroll {
            PanelModel { scroll: self.cursor, ..self }
        } else if self.cursor >= self.scroll + viewport {
            PanelModel { scroll: (self.cursor - (viewport - 1)) as usize, ..self }
        } else {
            self
        }
    }

    /// With the cursor on line `at`, and that line in view.
    pub open spec fn at_line(self, at: int, viewport: usize) -> PanelModel {
        if !self.navigable() || self.lines.len() == 0 {
            self
        } else {
            PanelModel {
                cursor: clamped(at, 0, self.lines.len() - 1) as usize,
                ..self
            }.revealed(viewport)
        }
    }

    /// With the cursor moved by `delta` lines, and its line in view.
    pub open spec fn after_move(self, delta: int, viewport: usize) -> PanelModel {
        self.at_line(self.cursor + delta, viewport)
    }

    /// Scrolled by `delta` lines, no further than to the last screen.
    pub open spec fn after_scroll(self, delta: int, viewport: usize) -> PanelModel {
        let last = if self.lines.len() > viewport {
            self.lines.len() - viewport
        } else {
            0
        };
        PanelModel { scroll: clamped(self.scroll + delta, 0, last) as usize, ..self }
    }
}

impl PanelState {
    /// A panel with a cursor on its first line.
    pub fn new_navigable(kind: PanelKind, title: String, content: &str) -> (r: Self)
        ensures
            r@ == PanelModel::with_cursor(kind, title@, content@),
    {
        PanelState { kind, title, lines: split_lines(content), cursor: 0, scroll: 0 }
    }

    /// A panel of text.
    pub fn new_text(kind: PanelKind, title: String, content: &str) -> (r: Self)
        ensures
            r@ == PanelModel::of_text(kind, title@, content@),
    {
        PanelState { kind, title, lines: split_lines(content), cursor: usize::MAX, scroll: 0 }
    }

    /// Whether the panel has a cursor.
    pub fn is_navigable(&self) -> (r: bool)
        ensures
            r == self@.navigable(),
    {
        self.cursor != usize::MAX
    }

    /// The line under the cursor, without the white space around it.
    pub fn selected_text(&self) -> (r: Option<&str>)
        ensures
            match r {
                Some(t) => self@.selected() == Some(t@),
                None => self@.selected() is None,
            },
    {
        if self.is_navigable() && self.cursor < self.lines.len() {
            proof {
                assert(self@.lines[self.cursor as int] == self.lines@[self.cursor as int]@);
            }
            Some(trim(self.lines[self.cursor].as_str()))
        } else {
            None
        }
    }

    /// Moves the cursor by `delta` lines and brings its line into view.
    pub fn move_cursor(&mut self, delta: isize, viewport: usize)
        ensures
            final(self)@ == old(self)@.after_move(delta as int, viewport),
    {
        if !self.is_navigable() || self.lines.len() == 0 {
            return;
        }
        let max: usize = self.lines.len() - 1;
        self.cursor = moved(self.cursor, delta, max);
        self.ensure_cursor_visible(viewport);
    }

    /// Puts the cursor on line `idx`, or on the last, and brings its line into view.
    pub fn cursor_to(&mut self, idx: usize, viewport: usize)
        ensures
            final(self)@ == old(self)@.at_line(idx as int, viewport),
    {
        if !self.is_navigable() || self.lines.len() == 0 {
            return;
        }
        let max: usize = self.lines.len() - 1;
        self.cursor = if idx > max {
            max
        } else {
            idx
        };
        self.ensure_cursor_visible(viewport);
    }

    /// Scrolls just as far as it takes to show the cursor among `viewport` lines.
    pub fn ensure_cursor_visible(&mut self, viewport: usize)
        ensures
            final(self)@ == old(self)@.revealed(viewport),
    {
        if viewport == 0 {
            return;
        }
        if self.cursor < self.scroll {
            self.scroll = self.cursor;
        } else if self.cursor - self.scroll >= viewport {
            self.scroll = self.cursor - (viewport - 1);
        }
    }

    /// Scrolls by `delta` lines, no further than to the last screen.
    pub fn scroll_text(&mut self, delta: isize, viewport: usize)
        ensures
            final(self)@ == old(self)@.after_scroll(delta as int, viewport),
    {
        let max: usize = if self.lines.len() > viewport {
            self.lines.len() - viewport
        } else {
            0
        };
        self.scroll = moved(self.scroll, delta, max);
    }
}

/// Wherever the cursor is sent, it stands on a line of the panel, and that line is in view.
pub proof fn lemma_cursor_stays_in_view(panel: PanelModel, at: int, viewport: usize)
    requires
        panel.navigable(),
        panel.lines.len() > 0,
        panel.lines.len() <= usize::MAX,
        viewport > 0,
    ensures
        ({
            let next = panel.at_line(at, viewport);
            &&& next.wf()
            &&& next.cursor < next.lines.len()
            &&& next.scroll <= next.cursor < next.scroll + viewport
            &&& next.lines == panel.lines
        }),
{
}

/// Text is scrolled no further than to its last screen.
pub proof fn lemma_scroll_stops_at_last_screen(panel: PanelModel, delta: int, viewport: usize)
    requires
        panel.lines.len() <= usize::MAX,
    ensures
        ({
            let next = panel.after_scroll(delta, viewport);
            &&& next.scroll == 0 || next.scroll + viewport <= panel.lines.len()
            &&& next.cursor == panel.cursor
        }),
{
}

// ── Content ──────────────────────────────────────────────────────────────────

impl Ranked for String {
    type Rule = ();

    open spec fn before(rule: (), a: Seq<char>, b: Seq<char>) -> bool {
        text_before(a, b)
    }

    fn is_before(rule: &(), a: &String, b: &String) -> (r: bool) {
        comes_before(a.as_str(), b.as_str())
    }
}

/// Whether a panel shows what several repositories have in common.
pub open spec fn shared_panel(kind: PanelKind, targets: int) -> bool {
    kind == PanelKind::Branches && targets > 1
}

/// The commands that fetch what a panel shows.
pub open spec fn panel_commands_of(
    kind: PanelKind,
    current: Seq<char>,
    targets: Seq<Seq<char>>,
) -> Seq<CommandModel> {
    if shared_panel(kind, targets.len() as int) {
        targets.map_values(
            |dir: Seq<char>|
                reading_command(
                    dir,
                    seq!["branch"@, "--all"@, "--verbose"@, "--verbose"@, "--no-abbrev"@],
                ),
        )
    } else {
        seq![
            match kind {
                PanelKind::Branches => reading_command(
                    current,
                    seq!["branch"@, "--all"@, "--verbose"@, "--verbose"@, "--no-abbrev"@],
                ),
                PanelKind::Commits => reading_command(
                    current,
                    seq!["log"@, "--decorate"@, "--graph"@, "--oneline"@, "--max-count"@, "20"@],
                ),
                PanelKind::Status => reading_command(
                    current,
                    seq!["status"@, "--short"@, "--branch"@],
                ),
            },
        ]
    }
}

/// The commands that fetch what a panel shows, to be run side by side: the branches of every
/// target where there are several, else the content of `current`.
pub fn panel_commands(
    runner: &GitRunner,
    kind: PanelKind,
    current: &str,
    targets: &Vec<String>,
) -> (r: Vec<GitCommand>)
    ensures
        commands_of(r@) == panel_commands_of(kind, current@, texts(targets@)),
{
    let mut out: Vec<GitCommand> = Vec::new();
    if matches!(kind, PanelKind::Branches) && targets.len() > 1 {
        for i in 0..targets.len()
            invariant
                out@.len() == i,
                forall|j: int|
                    0 <= j < i ==> (#[trigger] out@[j])@ == reading_command(
                        targets@[j]@,
                        seq!["branch"@, "--all"@, "--verbose"@, "--verbose"@, "--no-abbrev"@],
                    ),
        {
            out.push(runner.branch_list(targets[i].as_str()));
        }
    } else {
        match kind {
            PanelKind::Branches => out.push(runner.branch_list(current)),
            PanelKind::Commits => out.push(runner.commit_log(current)),
            PanelKind::Status => out.push(runner.status_text(current)),
        }
    }
    proof {
        assert(commands_of(out@) =~= panel_commands_of(kind, current@, texts(targets@)));
    }
    out
}

/// Those of `names` that every list of `others` holds, in order.
pub open spec fn held_by_all(names: Seq<Seq<char>>, others: Seq<Seq<Seq<char>>>) -> Seq<Seq<char>>
    decreases names.len(),
{
    if names.len() == 0 {
        names
    } else if forall|i: int|
        0 <= i < others.len() ==> (#[trigger] others[i]).contains(names.last()) {
        held_by_all(names.drop_last(), others).push(names.last())
    } else {
        held_by_all(names.drop_last(), others)
    }
}

/// The branches of a repository, given the output of `branch_list`.
pub open spec fn shown_branches(output: Seq<char>) -> Seq<Seq<char>> {
    branch_names(without_redundant(output))
}

/// The branches that all repositories have, given the output of `branch_list` for each, by name.
pub open spec fn common_branches(outputs: Seq<Seq<char>>) -> Seq<Seq<char>> {
    let lists = outputs.map_values(|o: Seq<char>| shown_branches(o));
    if lists.len() == 0 {
        Seq::empty()
    } else {
        sorted(held_by_all(lists[0], lists.skip(1)), by_rule::<String>(()))
    }
}

/// The panel for `outputs`, what git said to the commands of `panel_commands`.
pub open spec fn panel_of(
    kind: PanelKind,
    targets: nat,
    outputs: Seq<Seq<char>>,
) -> PanelModel {
    if shared_panel(kind, targets as int) {
        PanelModel::with_cursor(
            kind,
            "Branches ("@ + decimal(targets) + " repos)"@,
            joined(common_branches(outputs), "\n"@),
        )
    } else {
        let content = if outputs.len() > 0 {
            outputs[0]
        } else {
            Seq::empty()
        };
        match kind {
            PanelKind::Branches => PanelModel::with_cursor(
                kind,
                "Branches"@,
                without_redundant(content),
            ),
            PanelKind::Commits => PanelModel::of_text(kind, "Commits"@, content),
            PanelKind::Status => PanelModel::of_text(kind, "Status"@, content),
        }
    }
}

/// The views of lists of texts.
pub open spec fn lists_of(v: Seq<Vec<String>>) -> Seq<Seq<Seq<char>>> {
    v.map_values(|l: Vec<String>| texts(l@))
}

/// Whether every list but the first holds `name`.
fn held_elsewhere(lists: &Vec<Vec<String>>, name: &str) -> (r: bool)
    requires
        lists@.len() > 0,
    ensures
        r == forall|i: int|
            0 <= i < lists_of(lists@).skip(1).len() ==> (#[trigger] lists_of(lists@).skip(
                1,
            )[i]).contains(name@),
{
    let ghost others = lists_of(lists@).skip(1);
    for i in 1..lists.len()
        invariant
            lists@.len() > 0,
            others == lists_of(lists@).skip(1),
            forall|j: int| 0 <= j < i - 1 ==> (#[trigger] others[j]).contains(name@),
    {
        proof {
            assert(others[i - 1] == texts(lists@[i as int]@));
        }
        if !holds_text(&lists[i], name) {
            return false;
        }
    }
    true
}

/// The branches that all repositories have, by name.
fn branches_in_common(outputs: &Vec<String>) -> (r: Vec<String>)
    ensures
        texts(r@) == common_branches(texts(outputs@)),
{
    let ghost model = texts(outputs@).map_values(|o: Seq<char>| shown_branches(o));
    let mut lists: Vec<Vec<String>> = Vec::new();
    for i in 0..outputs.len()
        invariant
            lists@.len() == i,
            model == texts(outputs@).map_values(|o: Seq<char>| shown_branches(o)),
            forall|j: int| 0 <= j < i ==> texts((#[trigger] lists@[j])@) == model[j],
    {
        let shown = filter_tracked_remotes(outputs[i].as_str());
        let names = parse_branch_names(shown.as_str());
        proof {
            assert(texts(outputs@)[i as int] == outputs@[i as int]@);
        }
        lists.push(names);
    }
    proof {
        assert(lists_of(lists@) =~= model);
    }
    let mut common: Vec<String> = Vec::new();
    proof {
        assert(texts(common@) =~= Seq::<Seq<char>>::empty());
    }
    if lists.len() == 0 {
        return common;
    }
    let ghost first = model[0];
    let ghost others = model.skip(1);
    proof {
        assert(first.take(0) =~= Seq::<Seq<char>>::empty());
    }
    let n = lists[0].len();
    for i in 0..n
        invariant
            lists@.len() > 0,
            n == lists@[0]@.len(),
            lists_of(lists@) == model,
            first == texts(lists@[0]@),
            others == model.skip(1),
            texts(common@) == held_by_all(first.take(i as int), others),
    {
        proof {
            assert(first.take(i + 1).drop_last() =~= first.take(i as int));
            assert(first.take(i + 1).last() == lists@[0]@[i as int]@);
        }
        if held_elsewhere(&lists, lists[0][i].as_str()) {
            let name = lists[0][i].clone();
            proof {
                lemma_texts_push(common@, name);
            }
            common.push(name);
        }
    }
    proof {
        assert(first.take(first.len() as int) =~= first);
        assert(views_of(common@) =~= texts(common@));
    }
    sort_by(&mut common, &());
    proof {
        assert(views_of(common@) =~= texts(common@));
    }
    common
}

/// The view of the outcome of loading a panel.
pub open spec fn panel_view(r: Result<PanelState>) -> std::result::Result<PanelModel, Fault> {
    match r {
        Ok(p) => Ok(p@),
        Err(e) => Err(e@),
    }
}

/// The content for a `b`, `s` or `v` panel, from what git said to the commands of
/// `panel_commands`. With more than one target and `kind == Branches` it shows only the branches
/// common to every target; otherwise the content of the current repository.
pub fn load_panel_content(kind: PanelKind, targets: usize, outputs: Result<Vec<String>>) -> (r:
    Result<PanelState>)
    ensures
        panel_view(r) == match outputs {
            Ok(said) => Ok(panel_of(kind, targets as nat, texts(said@))),
            Err(e) => Err(e@),
        },
{
    let said = match outputs {
        Ok(said) => said,
        Err(e) => {
            return Err(e);
        },
    };
    if matches!(kind, PanelKind::Branches) && targets > 1 {
        let names = branches_in_common(&said);
        let content = join(&names, "\n");
        let n = decimal_usize(targets);
        let title = cat3("Branches (", n.as_str(), " repos)");
        return Ok(PanelState::new_navigable(kind, title, content.as_str()));
    }
    let content = if said.len() > 0 {
        said[0].clone()
    } else {
        String::new()
    };
    proof {
        if said@.len() > 0 {
            assert(texts(said@)[0] == said@[0]@);
        }
    }
    Ok(
        match kind {
            PanelKind::Branches => {
                let shown = filter_tracked_remotes(content.as_str());
                PanelState::new_navigable(kind, "Branches".to_owned(), shown.as_str())
            },
            PanelKind::Commits => PanelState::new_text(
                kind,
                "Commits".to_owned(),
                content.as_str(),
            ),
            PanelKind::Status => PanelState::new_text(kind, "Status".to_owned(), content.as_str()),
        },
    )
}

// ── Laws ─────────────────────────────────────────────────────────────────────

/// What all lists hold of some names.
proof fn lemma_held_by_all(names: Seq<Seq<char>>, others: Seq<Seq<Seq<char>>>, name: Seq<char>)
    ensures
        held_by_all(names, others).contains(name) <==> names.contains(name) && forall|i: int|
            0 <= i < others.len() ==> (#[trigger] others[i]).contains(name),
    decreases names.len(),
{
    if names.len() > 0 {
        let most = names.drop_last();
        let kept = held_by_all(most, others);
        let next = kept.push(names.last());
        lemma_held_by_all(most, others, name);
        if names.contains(name) {
            let i = choose|i: int| 0 <= i < names.len() && names[i] == name;
            if i < most.len() {
                assert(most[i] == name);
            }
        }
        if most.contains(name) {
            let i = choose|i: int| 0 <= i < most.len() && most[i] == name;
            assert(names[i] == name);
        }
        assert(next[kept.len() as int] == names.last());
        if kept.contains(name) {
            let i = choose|i: int| 0 <= i < kept.len() && kept[i] == name;
            assert(next[i] == name);
        }
        if next.contains(name) {
            let i = choose|i: int| 0 <= i < next.len() && next[i] == name;
            if i < kept.len() {
                assert(kept[i] == name);
            }
        }
        if names.last() == name {
            assert(names[names.len() - 1] == name);
        }
    }
}

/// Texts are ranked.
proof fn lemma_texts_rank()
    ensures
        ranks(by_rule::<String>(())),
{
    let before = by_rule::<String>(());
    assert forall|a: Seq<char>| !#[trigger] before(a, a) by {
        lemma_text_order_antisymmetric(a, a);
    }
    assert forall|a: Seq<char>, b: Seq<char>, c: Seq<char>| #[trigger]
        before(a, b) && #[trigger] before(b, c) implies before(a, c) by {
        lemma_text_order_transitive(a, b, c);
    }
    assert forall|a: Seq<char>, b: Seq<char>, c: Seq<char>|
        !#[trigger] before(a, b) && !#[trigger] before(b, c) implies !before(a, c) by {
        lemma_text_order_total(a, b);
        lemma_text_order_total(b, c);
        if before(a, c) && before(b, a) {
            lemma_text_order_transitive(b, a, c);
        }
    }
}

/// The panel of several repositories lists exactly the branches that each of them shows, by name.
pub proof fn lemma_shared_panel_lists_common_branches(outputs: Seq<Seq<char>>, name: Seq<char>)
    requires
        outputs.len() > 0,
    ensures
        common_branches(outputs).contains(name) <==> forall|i: int|
            0 <= i < outputs.len() ==> shown_branches(#[trigger] outputs[i]).contains(name),
        in_order(common_branches(outputs), by_rule::<String>(())),
{
    broadcast use vstd::seq_lib::group_to_multiset_ensures;

    let before = by_rule::<String>(());
    let lists = outputs.map_values(|o: Seq<char>| shown_branches(o));
    let others = lists.skip(1);
    let held = held_by_all(lists[0], others);
    lemma_held_by_all(lists[0], others, name);
    lemma_texts_rank();
    lemma_sorted_is_permutation(held, before);
    lemma_sorted_is_in_order(held, before);
    let all = sorted(held, before);
    assert(all.to_multiset().count(name) > 0 <==> all.contains(name));
    assert(held.to_multiset().count(name) > 0 <==> held.contains(name));
    assert forall|i: int| 0 <= i < others.len() implies #[trigger] others[i] == shown_branches(
        outputs[i + 1],
    ) by {}
    if held.contains(name) {
        assert forall|i: int| 0 <= i < outputs.len() implies shown_branches(
            #[trigger] outputs[i],
        ).contains(name) by {
            if i > 0 {
                assert(others[i - 1].contains(name));
            }
        }
    }
}

} // verus!
