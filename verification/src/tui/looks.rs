//! What the rows, the bars and the panels say of the repositories.

use vstd::prelude::*;
use vstd::string::*;

use crate::chars::{
    after_prefix, begins_with, has_text, hex_digit, trimmed_end_set, trimmed_start_set, words,
};
use crate::meaning::{lemma_words_stand_between_white_space, solid};
use crate::mode::Mode;
use crate::numbers::decimal;
use crate::tui::app::AppModel;
use crate::tui::area::{centered, Rect};
use crate::tui::bars::{mode_badge, mode_style};
use crate::tui::cells::{age, seconds_between};
use crate::tui::overlay::{Overlay, MIN_HEIGHT, MIN_WIDTH};
use crate::tui::panel::{panel_of, PanelKind};
use crate::tui::repo::{FailKind, OpModel, RepoModel};
use crate::tui::style::{bold_on, Paint};
use crate::tui::text::{
    back_over_separators, back_over_word, branch_name, markers, object_name, separator, unmarked,
    upstream_of,
};

verus! {

// ── Rows ─────────────────────────────────────────────────────────────────────

/// Every state has its icon; an idle repository has that of a conflict or of local work.
pub proof fn lemma_icons_tell_states(s: OpModel, conflict: bool, has_local: bool, tick: u64)
    ensures
        s is Success ==> s.status_icon_text(conflict, has_local, tick) == "✓"@,
        s is Queued ==> s.status_icon_text(conflict, has_local, tick) == "●"@,
        s matches OpModel::Fail { message, kind } ==> {
            let icon = s.status_icon_text(conflict, has_local, tick);
            &&& kind == FailKind::Credentials ==> icon == "?"@
            &&& kind == FailKind::ForcePush ==> icon == "!"@
            &&& kind == FailKind::Conflict ==> icon == "⚠"@
            &&& kind == FailKind::Generic ==> icon == "✗"@
            &&& kind == FailKind::Network ==> icon == "✗"@
        },
        s is Idle && has_local ==> s.status_icon_text(conflict, has_local, tick) == "~"@,
        s is Idle && !has_local && conflict ==> s.status_icon_text(conflict, has_local, tick)
            == "⚠"@,
        s is Idle && !has_local && !conflict ==> s.status_icon_text(conflict, has_local, tick)
            == " "@,
{
}

/// A repository is in conflict where it has unmerged files, or is behind and not safe to pull; it
/// has local work where it has changes or commits of its own and is in no conflict.
pub proof fn lemma_rows_tell_work(r: RepoModel)
    ensures
        r.conflicted() <==> r.snapshot.has_conflicts || (r.snapshot.branch.behind >= 1
            && !r.pull_safe),
        r.local_work() <==> !r.snapshot.has_conflicts && (r.snapshot.branch.behind == 0
            || r.pull_safe) && (r.snapshot.dirty || r.snapshot.branch.ahead >= 1),
        r.fetch_spins() <==> r.fetching && r.state is Idle,
        r.state matches OpModel::Fail { message, kind } ==> r.row_message() == message,
        !(r.state is Fail) ==> r.row_message() == r.snapshot.commit_subject,
        r.snapshot.stash_count == 0 ==> r.stash_badge().len() == 0,
        r.snapshot.stash_count >= 1 ==> r.stash_badge() == " {"@ + decimal(
            r.snapshot.stash_count as nat,
        ) + "}"@,
{
}

/// Rows are colored by what came of them, and idle ones by what there is to say of them: no
/// upstream, local work, a conflict.
pub proof fn lemma_colors_tell_results(
    s: OpModel,
    conflict: bool,
    has_local: bool,
    no_upstream: bool,
)
    ensures
        ({
            let c = s.row_color(conflict, has_local, no_upstream);
            &&& s is Success ==> c == Some(Paint::SuccessFg)
            &&& s is Queued ==> c == Some(Paint::QueuedFg)
            &&& s is Working ==> c == Some(Paint::WorkingFg)
            &&& s matches OpModel::Fail { message, kind } ==> {
                &&& kind == FailKind::Credentials ==> c == Some(Paint::CredsFg)
                &&& kind == FailKind::Conflict ==> c == Some(Paint::ConflictFg)
                &&& kind == FailKind::Network ==> c == Some(Paint::NetFg)
                &&& kind == FailKind::Generic || kind == FailKind::ForcePush ==> c == Some(
                    Paint::FailFg,
                )
            }
            &&& s is Idle && no_upstream ==> c == Some(Paint::NoUpstreamFg)
            &&& s is Idle && !no_upstream && has_local ==> c == Some(Paint::LocalFg)
            &&& s is Idle && !no_upstream && !has_local && conflict ==> c == Some(
                Paint::ConflictFg,
            )
            &&& s is Idle && !no_upstream && !has_local && !conflict ==> c is None
        }),
        ({
            let c = s.cursor_color(conflict, has_local, no_upstream);
            &&& s is Success ==> c == Paint::SelSuccessBg
            &&& s is Queued ==> c == Paint::SelQueuedBg
            &&& s is Working ==> c == Paint::SelWorkingBg
            &&& s matches OpModel::Fail { message, kind } ==> {
                &&& kind == FailKind::Credentials ==> c == Paint::SelCredsBg
                &&& kind == FailKind::Conflict ==> c == Paint::SelConflictBg
                &&& kind != FailKind::Credentials && kind != FailKind::Conflict ==> c
                    == Paint::SelFailBg
            }
            &&& s is Idle && no_upstream ==> c == Paint::SelNoUpstreamBg
            &&& s is Idle && !no_upstream && has_local ==> c == Paint::SelLocalBg
            &&& s is Idle && !no_upstream && !has_local && conflict ==> c == Paint::SelConflictBg
            &&& s is Idle && !no_upstream && !has_local && !conflict ==> c == Paint::SelDefaultBg
        }),
        s.style_of_row(conflict, has_local, no_upstream, true).bg == Some(
            s.cursor_color(conflict, has_local, no_upstream),
        ),
        s.style_of_row(conflict, has_local, no_upstream, true).bold,
        s.style_of_row(conflict, has_local, no_upstream, false).bg is None,
        s.style_of_row(conflict, has_local, no_upstream, false).fg == s.row_color(
            conflict,
            has_local,
            no_upstream,
        ),
{
}

/// An age is told in the largest unit that it fills, rounded down.
pub proof fn lemma_age_is_told_in_largest_unit(n: nat, rest: nat)
    ensures
        n < 60 ==> age(n) == decimal(n) + "s"@,
        1 <= n < 60 && rest < 60 ==> age((n * 60 + rest) as nat) == decimal(n) + "m"@,
        1 <= n < 24 && rest < 3600 ==> age((n * 3600 + rest) as nat) == decimal(n) + "h"@,
        1 <= n < 7 && rest < 86400 ==> age((n * 86400 + rest) as nat) == decimal(n) + "d"@,
        1 <= n < 4 && rest < 604800 ==> age((n * 604800 + rest) as nat) == decimal(n) + "w"@,
        1 <= n < 12 && rest < 2592000 ==> age((n * 2592000 + rest) as nat) == decimal(n) + "mo"@,
        1 <= n && rest < 31536000 ==> age((n * 31536000 + rest) as nat) == decimal(n) + "y"@,
{
}

/// The time between two points is told in whole seconds, and there is none to what is yet to come.
pub proof fn lemma_time_between(then_ns: int, n: nat, rest: int)
    requires
        0 <= rest < 1_000_000_000,
    ensures
        n > 0 || rest > 0 ==> seconds_between(then_ns + n * 1_000_000_000 + rest, then_ns) == n,
        seconds_between(then_ns - rest, then_ns) == 0,
{
}

// ── Bars ─────────────────────────────────────────────────────────────────────

/// Every mode has its badge and its color.
pub proof fn lemma_modes_have_badges()
    ensures
        mode_badge(Mode::Pull) == " ↓ PULL "@,
        mode_badge(Mode::Merge) == " ↣ MERGE "@,
        mode_badge(Mode::Rebase) == " ↯ REBASE "@,
        mode_badge(Mode::Push) == " ↑ PUSH "@,
        mode_badge(Mode::Fetch) == " ↺ FETCH "@,
        mode_style(Mode::Pull) == bold_on(Paint::White, Paint::ModePullBg),
        mode_style(Mode::Merge) == bold_on(Paint::White, Paint::ModeMergeBg),
        mode_style(Mode::Rebase) == bold_on(Paint::White, Paint::ModeRebaseBg),
        mode_style(Mode::Push) == bold_on(Paint::ModeDarkFg, Paint::ModePushBg),
{
}

/// The status bar tells what came of a repository, that it is being worked on, or else its name, its
/// branch and what there is to say of them.
pub proof fn lemma_status_bar_tells_state(r: RepoModel)
    ensures
        r.state matches OpModel::Success(m) ==> r.status_text() == " ✓ "@ + m,
        r.state matches OpModel::Fail { message, kind } ==> r.status_text() == " ✗ "@ + message,
        r.state is Working ==> r.status_text() == " "@ + r.snapshot.name + " working…"@,
        r.state is Idle || r.state is Queued ==> (" "@ + r.snapshot.name + "  "@
            + r.snapshot.branch.name).is_prefix_of(r.status_text()),
        r.snapshot.branch.no_upstream ==> r.upstream_note() == "  no upstream"@,
        r.snapshot.has_conflicts ==> r.change_note() == "  merge conflict"@,
        !r.snapshot.has_conflicts && r.snapshot.branch.behind >= 1 && !r.pull_safe
            && r.snapshot.branch.ahead >= 1 ==> r.change_note() == "  conflict"@,
        !r.snapshot.has_conflicts && r.snapshot.branch.behind >= 1 && !r.pull_safe
            && r.snapshot.branch.ahead == 0 ==> r.change_note() == "  would conflict"@,
        !r.snapshot.has_conflicts && (r.snapshot.branch.behind == 0 || r.pull_safe)
            && r.snapshot.dirty ==> r.change_note() == "  dirty"@,
        !r.snapshot.has_conflicts && (r.snapshot.branch.behind == 0 || r.pull_safe)
            && !r.snapshot.dirty ==> r.change_note().len() == 0,
        r.snapshot.stash_count == 0 ==> r.stash_note().len() == 0,
        r.snapshot.stash_count >= 1 ==> r.stash_note() == "  {"@ + decimal(
            r.snapshot.stash_count as nat,
        ) + "}"@,
        r.fetch_error is Some ==> r.fetch_note() == "  ⚠ auto-fetch failed"@,
        r.fetch_error is None ==> r.fetch_note().len() == 0,
{
    if r.state is Idle || r.state is Queued {
        let head = " "@ + r.snapshot.name + "  "@ + r.snapshot.branch.name;
        let t = r.status_text();
        assert(t.subrange(0, head.len() as int) =~= head);
    }
}

/// What covers the list: a terminal that is too small outranks loading, that the help, that a panel,
/// that a confirmation, that credentials, that a prompt.
pub proof fn lemma_what_covers_the_list(app: AppModel, width: u16, height: u16)
    ensures
        ({
            let fits = width >= MIN_WIDTH && height >= MIN_HEIGHT;
            let o = app.overlay(width, height);
            &&& !fits ==> o == Overlay::TooSmall
            &&& fits && app.loading ==> o == Overlay::Loading
            &&& fits && !app.loading && app.show_help ==> o == Overlay::Help
            &&& fits && !app.loading && !app.show_help && app.panel is Some ==> o == Overlay::Panel
            &&& fits && !app.loading && !app.show_help && app.panel is None && app.confirm_prompt
                is Some ==> o == Overlay::Confirm
            &&& fits && !app.loading && !app.show_help && app.panel is None && app.confirm_prompt
                is None && app.auth_prompt is Some ==> o == Overlay::Credentials
            &&& fits && !app.loading && !app.show_help && app.panel is None && app.confirm_prompt
                is None && app.auth_prompt is None && app.prompt is Some ==> o == Overlay::Prompt
            &&& fits && !app.loading && !app.show_help && app.panel is None && app.confirm_prompt
                is None && app.auth_prompt is None && app.prompt is None ==> o == Overlay::Nothing
        }),
{
}

/// A box in the middle lies within the area, is as large as was asked or as the area, and has as
/// much room to its left as to its right, and above as below, give or take one cell.
pub proof fn lemma_centered_lies_in_the_middle(width: int, height: int, area: Rect)
    requires
        area.wf(),
        width >= 0,
        height >= 0,
    ensures
        ({
            let c = centered(width, height, area);
            let left = c.x - area.x;
            let right = area.x + area.width - (c.x + c.width);
            let above = c.y - area.y;
            let below = area.y + area.height - (c.y + c.height);
            &&& width <= area.width ==> c.width == width
            &&& width > area.width ==> c.width == area.width
            &&& height <= area.height ==> c.height == height
            &&& height > area.height ==> c.height == area.height
            &&& 0 <= left <= right <= left + 1
            &&& 0 <= above <= below <= above + 1
        }),
{
}

// ── Panels ───────────────────────────────────────────────────────────────────

/// A panel has its title, and a cursor where it lists branches.
pub proof fn lemma_panels_have_titles(targets: nat, outputs: Seq<Seq<char>>)
    ensures
        panel_of(PanelKind::Commits, targets, outputs).title == "Commits"@,
        panel_of(PanelKind::Status, targets, outputs).title == "Status"@,
        targets <= 1 ==> panel_of(PanelKind::Branches, targets, outputs).title == "Branches"@,
        targets > 1 ==> panel_of(PanelKind::Branches, targets, outputs).title == "Branches ("@
            + decimal(targets) + " repos)"@,
        panel_of(PanelKind::Branches, targets, outputs).navigable(),
        !panel_of(PanelKind::Commits, targets, outputs).navigable(),
        !panel_of(PanelKind::Status, targets, outputs).navigable(),
        outputs.len() > 0 ==> panel_of(PanelKind::Commits, targets, outputs).lines
            == crate::chars::lines(outputs[0]),
        outputs.len() > 0 ==> panel_of(PanelKind::Status, targets, outputs).lines
            == crate::chars::lines(outputs[0]),
{
}

/// What follows two markers is what is left of a line.
proof fn lemma_two_markers_go(a: char, b: char, rest: Seq<char>)
    requires
        markers().contains(a),
        markers().contains(b),
        rest.len() > 0,
        !markers().contains(rest[0]),
    ensures
        unmarked(seq![a, b] + rest) == rest,
{
    let s = seq![a, b] + rest;
    assert(s.drop_first() =~= seq![b] + rest);
    assert((seq![b] + rest).drop_first() =~= rest);
    reveal_with_fuel(trimmed_start_set, 4);
}

/// The branch of a line is its first word behind the markers, whether it is checked out here or
/// elsewhere or not at all.
pub proof fn lemma_branch_of_line(a: char, name: Seq<char>, rest: Seq<char>)
    requires
        a == '*' || a == '+' || a == ' ',
        solid(name),
        name.len() > 0,
        name[0] != '*' && name[0] != '+',
        !has_text(name + seq![' '] + rest, " -> "@),
    ensures
        branch_name(seq![a, ' '] + (name + seq![' '] + rest)) == Some(name),
{
    let tail = name + seq![' '] + rest;
    let m = markers();
    assert(m[0] == '*' && m[1] == '+' && m[2] == ' ');
    assert(tail[0] == name[0]);
    assert(!m.contains(name[0])) by {
        assert(name[0] != ' ');
    }
    lemma_two_markers_go(a, ' ', tail);
    lemma_words_stand_between_white_space(name, ' ', rest);
}

/// A line about a symbolic ref names no branch.
pub proof fn lemma_symbolic_refs_are_no_branches(line: Seq<char>)
    requires
        has_text(unmarked(line), " -> "@),
    ensures
        branch_name(line) is None,
{
}

/// The upstream of a local branch stands in brackets behind its object name, alone or with what
/// there is to say of it.
pub proof fn lemma_upstream_of_line(
    a: char,
    name: Seq<char>,
    oid: Seq<char>,
    upstream: Seq<char>,
    close: char,
    rest: Seq<char>,
)
    requires
        a == '*' || a == '+' || a == ' ',
        solid(name),
        name.len() > 0,
        name[0] != '*' && name[0] != '+',
        !begins_with(name, "remotes/"@),
        oid.len() == 40,
        forall|i: int| 0 <= i < oid.len() ==> hex_digit(#[trigger] oid[i]),
        solid(upstream),
        upstream.len() > 0,
        upstream.last() != ']' && upstream.last() != ':',
        close == ']' || close == ':',
        !has_text(
            name + seq![' '] + (oid + seq![' '] + (seq!['['] + upstream + seq![close] + seq![' ']
                + rest)),
            " -> "@,
        ),
    ensures
        upstream_of(
            seq![a, ' '] + (name + seq![' '] + (oid + seq![' '] + (seq!['['] + upstream
                + seq![close] + seq![' '] + rest))),
        ) == Some(upstream),
{
    reveal_strlit("[");
    let bracket = seq!['['] + upstream + seq![close];
    let third = bracket + seq![' '] + rest;
    let second = oid + seq![' '] + third;
    let tail = name + seq![' '] + second;
    let line = seq![a, ' '] + tail;
    lemma_branch_of_line(a, name, second);
    let m = markers();
    assert(m[0] == '*' && m[1] == '+' && m[2] == ' ');
    assert(tail[0] == name[0]);
    assert(!m.contains(name[0])) by {
        assert(name[0] != ' ');
    }
    lemma_two_markers_go(a, ' ', tail);
    assert(solid(oid));
    assert forall|i: int| 0 <= i < bracket.len() implies !crate::chars::white_space(
        #[trigger] bracket[i],
    ) by {
        if 1 <= i < bracket.len() - 1 {
            assert(bracket[i] == upstream[i - 1]);
        }
    }
    lemma_words_stand_between_white_space(name, ' ', second);
    lemma_words_stand_between_white_space(oid, ' ', third);
    lemma_words_stand_between_white_space(bracket, ' ', rest);
    let tokens = words(tail);
    assert(tokens == seq![name] + (seq![oid] + (seq![bracket] + words(rest))));
    assert(tokens[0] == name && tokens[1] == oid && tokens[2] == bracket);
    assert(object_name(oid));
    assert(bracket.subrange(0, 1) =~= "["@);
    assert(bracket.skip(1) =~= upstream + seq![close]);
    assert(after_prefix(bracket, "["@) == Some(upstream + seq![close]));
    let set = seq![']', ':'];
    assert(set[0] == ']' && set[1] == ':');
    assert((upstream + seq![close]).drop_last() =~= upstream);
    assert(set.contains(close));
    assert(!set.contains(upstream.last()));
    reveal_with_fuel(trimmed_end_set, 3);
}

/// A remote branch has no upstream, and neither has a line without an object name behind its branch.
pub proof fn lemma_lines_without_upstream(line: Seq<char>, name: Seq<char>)
    requires
        branch_name(line) == Some(name),
    ensures
        begins_with(name, "remotes/"@) ==> upstream_of(line) is None,
        words(unmarked(line)).len() < 3 ==> upstream_of(line) is None,
        words(unmarked(line)).len() >= 3 && words(unmarked(line))[1].len() != 40 ==> upstream_of(
            line,
        ) is None,
{
}

/// Going back over a word and the separators behind it stops at the start, or behind the separator
/// before the word.
pub proof fn lemma_back_to_start_of_word(s: Seq<char>, k: int)
    requires
        0 <= k <= s.len(),
    ensures
        ({
            let end = back_over_separators(s, k);
            let start = back_over_word(s, end);
            &&& 0 <= start <= end <= k
            &&& forall|i: int| end <= i < k ==> separator(#[trigger] s[i])
            &&& forall|i: int| start <= i < end ==> !separator(#[trigger] s[i])
            &&& start > 0 ==> separator(s[start - 1])
        }),
{
    lemma_back_over_separators(s, k);
    lemma_back_over_word(s, back_over_separators(s, k));
}

/// Separators that were gone back over.
proof fn lemma_back_over_separators(s: Seq<char>, k: int)
    requires
        0 <= k <= s.len(),
    ensures
        0 <= back_over_separators(s, k) <= k,
        forall|i: int| back_over_separators(s, k) <= i < k ==> separator(#[trigger] s[i]),
    decreases k,
{
    if k > 0 && separator(s[k - 1]) {
        lemma_back_over_separators(s, k - 1);
    }
}

/// A word that was gone back over.
proof fn lemma_back_over_word(s: Seq<char>, k: int)
    requires
        0 <= k <= s.len(),
    ensures
        0 <= back_over_word(s, k) <= k,
        forall|i: int| back_over_word(s, k) <= i < k ==> !separator(#[trigger] s[i]),
        back_over_word(s, k) > 0 ==> separator(s[back_over_word(s, k) - 1]),
    decreases k,
{
    if k > 0 && !separator(s[k - 1]) {
        lemma_back_over_word(s, k - 1);
    }
}

/// The separators of the words of a name: a slash, a dash, an underscore, a dot and a space.
pub proof fn lemma_separators(c: char)
    ensures
        separator(c) <==> c == '/' || c == '-' || c == '_' || c == '.' || c == ' ',
{
}

} // verus!
