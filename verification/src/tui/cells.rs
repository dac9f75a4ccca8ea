//! Text in terminal cells: its width, what fits into a column, and ages.

use vstd::prelude::*;
use vstd::string::*;

use crate::chars::{cat2, chars_of};
use crate::numbers::{decimal, decimal_wide};

verus! {

// ── Width ────────────────────────────────────────────────────────────────────

/// The number of terminal cells that a text takes, as `unicode-width` measures it.
pub uninterp spec fn text_cells(s: Seq<char>) -> usize;

/// The number of terminal cells that a character takes, as `unicode-width` measures it; nothing
/// for a control character.
pub uninterp spec fn char_cells(c: char) -> Option<usize>;

/// Whether `c` is a printable ASCII character.
pub open spec fn printable(c: char) -> bool {
    ' ' <= c <= '~'
}

/// The number of terminal cells that `s` takes.
///
/// Calls `unicode_width::UnicodeWidthStr::width`. The result depends on nothing but the text, and
/// is the number of characters for a text of printable ASCII characters. The width of other texts
/// is named, and left unsaid.
#[verifier::external_body]
fn measure(s: &str) -> (r: usize)
    ensures
        r == text_cells(s@),
        (forall|i: int| 0 <= i < s@.len() ==> printable(#[trigger] s@[i])) ==> r == s@.len(),
{
    unicode_width::UnicodeWidthStr::width(s)
}

/// The number of terminal cells that `c` takes; nothing for a control character.
///
/// Calls `unicode_width::UnicodeWidthChar::width`. The result depends on nothing but the character;
/// a printable ASCII character and the ellipsis take one cell. The width of other characters is
/// named, and left unsaid.
#[verifier::external_body]
fn measure_char(c: char) -> (r: Option<usize>)
    ensures
        r == char_cells(c),
        printable(c) ==> r == Some(1usize),
        c == '…' ==> r == Some(1usize),
{
    unicode_width::UnicodeWidthChar::width(c)
}

/// The number of terminal cells of `c` in a row of characters.
pub open spec fn cell(c: char) -> nat {
    match char_cells(c) {
        Some(n) => n as nat,
        None => 0,
    }
}

/// The cells of each character of `s`.
pub open spec fn cells_of(s: Seq<char>) -> Seq<nat> {
    s.map_values(|c: char| cell(c))
}

/// The sum of `ws`.
pub open spec fn sum(ws: Seq<nat>) -> nat
    decreases ws.len(),
{
    if ws.len() == 0 {
        0
    } else {
        sum(ws.drop_last()) + ws.last()
    }
}

/// The number of leading widths of `ws` that fit into `budget` together.
pub open spec fn fit(ws: Seq<nat>, budget: nat) -> nat
    decreases ws.len(),
{
    if ws.len() == 0 || ws[0] > budget {
        0
    } else {
        1 + fit(ws.drop_first(), (budget - ws[0]) as nat)
    }
}

/// `s` cut to `max` cells, where `total` is its width and `ws` are those of its characters: the
/// whole of it where it fits, else as much as leaves room for an ellipsis.
pub open spec fn shortened(s: Seq<char>, max: nat, total: nat, ws: Seq<nat>) -> Seq<char> {
    if max == 0 {
        Seq::empty()
    } else if total <= max {
        s
    } else if max == 1 {
        s.take(fit(ws, 1) as int)
    } else {
        s.take(fit(ws, (max - 1) as nat) as int).push('…')
    }
}

/// `s` cut to `max` cells.
pub open spec fn truncated(s: Seq<char>, max: nat) -> Seq<char> {
    shortened(s, max, text_cells(s) as nat, cells_of(s))
}

/// `s` cut to `max` characters: the whole of it where it is no longer, else as much as leaves room
/// for an ellipsis.
pub open spec fn cut_by_length(s: Seq<char>, max: nat) -> Seq<char> {
    if s.len() <= max {
        s
    } else if max <= 1 {
        s.take(max as int)
    } else {
        s.take(max - 1).push('…')
    }
}

/// A text whose characters take one cell each is cut by its length.
pub proof fn lemma_narrow_text_cut_by_length(s: Seq<char>, max: nat)
    requires
        text_cells(s) == s.len(),
        forall|i: int| 0 <= i < s.len() ==> cell(#[trigger] s[i]) == 1,
    ensures
        truncated(s, max) == cut_by_length(s, max),
{
    let ws = cells_of(s);
    assert forall|i: int| 0 <= i < ws.len() implies #[trigger] ws[i] == 1 by {
        assert(ws[i] == cell(s[i]));
    }
    if s.len() > max {
        lemma_fit_ones(ws, 1);
        if max > 0 {
            lemma_fit_ones(ws, (max - 1) as nat);
        }
        assert(s.take(0) =~= Seq::<char>::empty());
    } else if max == 0 {
        assert(s =~= Seq::<char>::empty());
    }
}

/// As many widths of one fit as the budget allows.
proof fn lemma_fit_ones(ws: Seq<nat>, budget: nat)
    requires
        forall|i: int| 0 <= i < ws.len() ==> #[trigger] ws[i] == 1,
        budget <= ws.len(),
    ensures
        fit(ws, budget) == budget,
    decreases ws.len(),
{
    if budget > 0 {
        let t = ws.drop_first();
        assert forall|i: int| 0 <= i < t.len() implies #[trigger] t[i] == 1 by {
            assert(t[i] == ws[i + 1]);
        }
        assert(ws[0] == 1);
        lemma_fit_ones(t, (budget - 1) as nat);
    } else if ws.len() > 0 {
        assert(ws[0] == 1);
    }
}

/// The view of a list of widths.
pub open spec fn widths_of(v: Seq<usize>) -> Seq<nat> {
    v.map_values(|n: usize| n as nat)
}

/// What fits is no more than there is.
proof fn lemma_fit_bounded(ws: Seq<nat>, budget: nat)
    ensures
        fit(ws, budget) <= ws.len(),
    decreases ws.len(),
{
    if ws.len() > 0 && ws[0] <= budget {
        lemma_fit_bounded(ws.drop_first(), (budget - ws[0]) as nat);
    }
}

/// `s` cut to `max` cells, where `total` is its width and `ws` are those of its characters.
pub fn shorten(s: &str, max: usize, total: usize, ws: &Vec<usize>) -> (r: String)
    requires
        ws@.len() == s@.len(),
    ensures
        r@ == shortened(s@, max as nat, total as nat, widths_of(ws@)),
{
    if max == 0 {
        return String::new();
    }
    if total <= max {
        return s.to_owned();
    }
    // No room for an ellipsis at a one-cell budget; otherwise reserve one cell for it.
    let budget: usize = if max == 1 {
        1
    } else {
        max - 1
    };
    let n = ws.len();
    let ghost all = widths_of(ws@);
    let mut left: usize = budget;
    let mut k: usize = 0;
    proof {
        assert(all.skip(0) =~= all);
        lemma_fit_bounded(all, budget as nat);
    }
    while k < n && ws[k] <= left
        invariant
            n == ws@.len(),
            k <= n,
            all == widths_of(ws@),
            fit(all, budget as nat) == k + fit(all.skip(k as int), left as nat),
        decreases n - k,
    {
        proof {
            assert(all.skip(k as int)[0] == ws@[k as int]);
            assert(all.skip(k as int).drop_first() =~= all.skip(k + 1));
        }
        left = left - ws[k];
        k = k + 1;
    }
    proof {
        if k < n {
            assert(all.skip(k as int)[0] == ws@[k as int]);
        }
        assert(fit(all, budget as nat) == k);
    }
    let mut out = s.substring_char(0, k).to_owned();
    proof {
        assert(out@ =~= s@.take(k as int));
    }
    if max > 1 {
        out.push('…');
    }
    out
}

/// Truncate `s` to at most `max` terminal display cells (not chars), adding an ellipsis when it
/// doesn't fit. A char-count budget would let a name containing CJK or emoji (two cells wide)
/// overrun its column and break the table's alignment.
pub fn truncate(s: &str, max: usize) -> (r: String)
    ensures
        r@ == truncated(s@, max as nat),
        text_cells(s@) > max ==> sum(cells_of(r@)) <= max,
        cell('…') == 1,
        (forall|i: int| 0 <= i < s@.len() ==> printable(#[trigger] s@[i])) ==> text_cells(s@)
            == s@.len() && (forall|i: int| 0 <= i < s@.len() ==> cell(#[trigger] s@[i]) == 1),
        (forall|i: int| 0 <= i < s@.len() ==> printable(#[trigger] s@[i])) ==> r@ == cut_by_length(
            s@,
            max as nat,
        ),
{
    // What is reserved for the ellipsis is what it takes.
    let _ = measure_char('…');
    let cs = chars_of(s);
    let mut ws: Vec<usize> = Vec::new();
    for i in 0..cs.len()
        invariant
            cs@ == s@,
            ws@.len() == i,
            forall|j: int| 0 <= j < i ==> #[trigger] ws@[j] == cell(s@[j]),
            forall|j: int| 0 <= j < i && printable(#[trigger] s@[j]) ==> cell(s@[j]) == 1,
    {
        ws.push(
            match measure_char(cs[i]) {
                Some(n) => n,
                None => 0,
            },
        );
    }
    proof {
        assert(widths_of(ws@) =~= cells_of(s@));
        lemma_cut_text_fits(s@, max as nat);
    }
    let total = measure(s);
    proof {
        if forall|i: int| 0 <= i < s@.len() ==> printable(#[trigger] s@[i]) {
            assert forall|i: int| 0 <= i < s@.len() implies cell(#[trigger] s@[i]) == 1 by {}
            lemma_narrow_text_cut_by_length(s@, max as nat);
        }
    }
    shorten(s, max, total, &ws)
}

/// What fits keeps to the budget.
proof fn lemma_fit_sum(ws: Seq<nat>, budget: nat)
    ensures
        fit(ws, budget) <= ws.len(),
        sum(ws.take(fit(ws, budget) as int)) <= budget,
    decreases ws.len(),
{
    if ws.len() == 0 || ws[0] > budget {
        assert(ws.take(0) =~= Seq::<nat>::empty());
    } else {
        let t = ws.drop_first();
        let b = (budget - ws[0]) as nat;
        lemma_fit_sum(t, b);
        let k = fit(t, b) as int;
        assert(ws.take(k + 1) =~= seq![ws[0]] + t.take(k));
        lemma_sum_first(ws[0], t.take(k));
    }
}

/// A sum with one more number at the start.
proof fn lemma_sum_first(w: nat, ws: Seq<nat>)
    ensures
        sum(seq![w] + ws) == w + sum(ws),
    decreases ws.len(),
{
    let all = seq![w] + ws;
    if ws.len() == 0 {
        assert(all.drop_last() =~= Seq::<nat>::empty());
        assert(all.last() == w);
        assert(sum(all.drop_last()) == 0);
    } else {
        lemma_sum_first(w, ws.drop_last());
        assert(all.drop_last() =~= seq![w] + ws.drop_last());
        assert(all.last() == ws.last());
    }
}

/// A text that was cut takes no more cells than it was cut to, counted by its characters, where
/// the ellipsis takes one.
pub proof fn lemma_cut_text_fits(s: Seq<char>, max: nat)
    ensures
        text_cells(s) > max && cell('…') == 1 ==> sum(cells_of(truncated(s, max))) <= max,
{
    if max == 0 {
        assert(cells_of(truncated(s, 0)) =~= Seq::<nat>::empty());
    } else {
        let ws = cells_of(s);
        let budget = if max == 1 {
            1
        } else {
            (max - 1) as nat
        };
        lemma_fit_sum(ws, budget);
        let k = fit(ws, budget) as int;
        let head = s.take(k);
        assert(cells_of(head) =~= ws.take(k));
        if max > 1 {
            let whole = head.push('…');
            assert(cells_of(whole).drop_last() =~= cells_of(head));
            assert(cells_of(whole).last() == cell('…'));
        }
    }
}

/// A text that fits is left as it is, and nothing fits into no cells.
pub proof fn lemma_fitting_text_stays(s: Seq<char>, max: nat)
    ensures
        max > 0 && text_cells(s) <= max ==> truncated(s, max) == s,
        truncated(s, 0).len() == 0,
{
}

// ── Ages ─────────────────────────────────────────────────────────────────────

/// The whole seconds from `then` to `now`, both in nanoseconds; none where `then` is later.
pub open spec fn seconds_between(now: int, then: int) -> nat {
    if now > then {
        ((now - then) / 1_000_000_000) as nat
    } else {
        0
    }
}

/// An age of `secs` seconds, in the largest unit that it fills.
pub open spec fn age(secs: nat) -> Seq<char> {
    if secs < 60 {
        decimal(secs) + "s"@
    } else if secs < 3_600 {
        decimal(secs / 60) + "m"@
    } else if secs < 86_400 {
        decimal(secs / 3_600) + "h"@
    } else if secs < 604_800 {
        decimal(secs / 86_400) + "d"@
    } else if secs < 2_592_000 {
        decimal(secs / 604_800) + "w"@
    } else if secs < 31_536_000 {
        decimal(secs / 2_592_000) + "mo"@
    } else {
        decimal(secs / 31_536_000) + "y"@
    }
}

/// `now - then`, where `now` is not the smaller one.
fn difference(now: i128, then: i128) -> (r: u128)
    requires
        now >= then,
    ensures
        r == now - then,
{
    if then >= 0 || now < 0 {
        (now - then) as u128
    } else {
        now as u128 + (-(then + 1)) as u128 + 1
    }
}

/// The age of what happened at `then`, seen from `now`, both in nanoseconds since the epoch.
pub fn format_age(now: i128, then: i128) -> (r: String)
    ensures
        r@ == age(seconds_between(now as int, then as int)),
{
    let secs: u128 = if now > then {
        difference(now, then) / 1_000_000_000
    } else {
        0
    };
    if secs < 60 {
        cat2(decimal_wide(secs).as_str(), "s")
    } else if secs < 3_600 {
        cat2(decimal_wide(secs / 60).as_str(), "m")
    } else if secs < 86_400 {
        cat2(decimal_wide(secs / 3_600).as_str(), "h")
    } else if secs < 604_800 {
        cat2(decimal_wide(secs / 86_400).as_str(), "d")
    } else if secs < 2_592_000 {
        cat2(decimal_wide(secs / 604_800).as_str(), "w")
    } else if secs < 31_536_000 {
        cat2(decimal_wide(secs / 2_592_000).as_str(), "mo")
    } else {
        cat2(decimal_wide(secs / 31_536_000).as_str(), "y")
    }
}

} // verus!
