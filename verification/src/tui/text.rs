//! Pure text-parsing and text-editing helpers used by the TUI: branch-name parsing from
//! `git branch` output, and single-line prompt input editing (char-boundary math, word-wise
//! backspace, branch-name validation). None of this touches `App`.

use vstd::prelude::*;
use vstd::string::*;

use crate::chars::{
    after_prefix, begins_with, chars_of, contains_text, control, ends_with, finishes_with,
    first_occurrences, has_text, hex_digit, holds_text, is_control_char, is_hex_digit,
    is_white_space, join, joined, lemma_first_occurrences_distinct, lemma_texts_push, lines,
    non_empty, pieces, push_new, same_text, space_pieces, split_char, split_lines, split_words,
    starts_with, strip_prefix, texts, trim_end_set, trim_start, trim_start_set, trimmed_end_set,
    trimmed_start, trimmed_start_set, white_space, words,
};
use crate::offsets::{
    begins_at, boundary, bytes_in, index_at, index_of_offset, lemma_index_at, lemma_offset_grows,
    offset, width, width_of,
};

verus! {

// ── Branch-name parsing ──────────────────────────────────────────────────────

/// The markers that `git branch` sets before a branch name.
pub open spec fn markers() -> Seq<char> {
    seq!['*', '+', ' ']
}

/// A line of `git branch` output without its leading markers.
pub open spec fn unmarked(line: Seq<char>) -> Seq<char> {
    trimmed_start_set(line, markers())
}

/// The ref name that a line of `git branch --all -vv` output is about: its first word after the
/// markers. A line about a symbolic ref has none.
pub open spec fn branch_name(line: Seq<char>) -> Option<Seq<char>> {
    if words(unmarked(line)).len() == 0 || has_text(unmarked(line), " -> "@) {
        None
    } else {
        Some(words(unmarked(line))[0])
    }
}

/// Extract the branch name from one line of `git branch --all -vv` output. Strips leading markers
/// (`*`, `+`, spaces) and returns the first whitespace-delimited token (the ref name). Returns
/// `None` for header and arrow lines (such as `remotes/origin/HEAD -> origin/main`).
pub fn parse_branch_name(line: &str) -> (r: Option<&str>)
    ensures
        match r {
            Some(name) => branch_name(line@) == Some(name@),
            None => branch_name(line@) is None,
        },
{
    let set: [char; 3] = ['*', '+', ' '];
    proof {
        assert(set@ =~= markers());
    }
    let bare = trim_start_set(line, &set);
    match first_word(bare) {
        Some(name) => {
            if contains_text(bare, " -> ") {
                None
            } else {
                Some(name)
            }
        },
        None => None,
    }
}

/// The first word of `s`.
fn first_word(s: &str) -> (r: Option<&str>)
    ensures
        match r {
            Some(w) => words(s@).len() > 0 && words(s@)[0] == w@,
            None => words(s@).len() == 0,
        },
{
    let t = trim_start(s);
    let cs = chars_of(t);
    let mut end: usize = 0;
    while end < cs.len() && !is_white_space(cs[end])
        invariant
            end <= cs@.len(),
            cs@ == t@,
            forall|i: int| 0 <= i < end ==> !white_space(#[trigger] cs@[i]),
        decreases cs@.len() - end,
    {
        end = end + 1;
    }
    proof {
        lemma_trim_start_cuts(s@);
        let pre = s@.take(s@.len() - t@.len());
        let w = t@.subrange(0, end as int);
        let rest = t@.skip(end as int);
        assert(s@ =~= pre + w + rest);
        if end == 0 {
            assert(t@.len() == 0);
            assert(s@ =~= pre);
            lemma_spaces_have_no_words(pre);
        } else {
            assert(rest.len() > 0 ==> rest[0] == cs@[end as int]);
            lemma_first_word(pre, w, rest);
        }
    }
    if end == 0 {
        None
    } else {
        Some(t.substring_char(0, end))
    }
}

/// `trimmed_start` cuts off white space only.
proof fn lemma_trim_start_cuts(s: Seq<char>)
    ensures
        trimmed_start(s).len() <= s.len(),
        s == s.take(s.len() - trimmed_start(s).len()) + trimmed_start(s),
        forall|i: int|
            0 <= i < s.len() - trimmed_start(s).len() ==> white_space(#[trigger] s[i]),
        trimmed_start(s).len() > 0 ==> !white_space(trimmed_start(s)[0]),
    decreases s.len(),
{
    if s.len() > 0 && white_space(s[0]) {
        let t = s.drop_first();
        lemma_trim_start_cuts(t);
        let n = s.len() - trimmed_start(s).len();
        assert(s =~= seq![s[0]] + t);
        assert(s.take(n) =~= seq![s[0]] + t.take(n - 1));
        assert forall|i: int| 0 <= i < n implies white_space(#[trigger] s[i]) by {
            if i > 0 {
                assert(s[i] == t[i - 1]);
            }
        }
    } else {
        assert(s.take(0) + s =~= s);
    }
}

/// White space alone has no words, and leaves the next word open.
proof fn lemma_spaces_have_no_words(s: Seq<char>)
    requires
        forall|i: int| 0 <= i < s.len() ==> white_space(#[trigger] s[i]),
    ensures
        space_pieces(s).len() > 0,
        space_pieces(s).last().len() == 0,
        non_empty(space_pieces(s).drop_last()).len() == 0,
        words(s).len() == 0,
    decreases s.len(),
{
    if s.len() > 0 {
        let t = s.drop_last();
        assert forall|i: int| 0 <= i < t.len() implies white_space(#[trigger] t[i]) by {
            assert(t[i] == s[i]);
        }
        lemma_spaces_have_no_words(t);
        assert(s.last() == s[s.len() - 1]);
        assert(space_pieces(s).drop_last() =~= space_pieces(t));
    } else {
        assert(space_pieces(s).drop_last() =~= Seq::<Seq<char>>::empty());
    }
}

/// A word that follows white space is the one still open.
proof fn lemma_open_word(pre: Seq<char>, w: Seq<char>)
    requires
        forall|i: int| 0 <= i < pre.len() ==> white_space(#[trigger] pre[i]),
        forall|i: int| 0 <= i < w.len() ==> !white_space(#[trigger] w[i]),
    ensures
        space_pieces(pre + w).len() > 0,
        space_pieces(pre + w).last() == w,
        non_empty(space_pieces(pre + w).drop_last()).len() == 0,
    decreases w.len(),
{
    if w.len() == 0 {
        assert(pre + w =~= pre);
        lemma_spaces_have_no_words(pre);
        assert(space_pieces(pre).last() =~= w);
    } else {
        let v = w.drop_last();
        assert forall|i: int| 0 <= i < v.len() implies !white_space(#[trigger] v[i]) by {
            assert(v[i] == w[i]);
        }
        lemma_open_word(pre, v);
        assert((pre + w).drop_last() =~= pre + v);
        assert((pre + w).last() == w[w.len() - 1]);
        let before = space_pieces(pre + v);
        assert(space_pieces(pre + w).drop_last() =~= before.drop_last());
        assert(v.push(w.last()) =~= w);
    }
}

/// The first word stays first whatever follows it.
proof fn lemma_first_word(pre: Seq<char>, w: Seq<char>, rest: Seq<char>)
    requires
        forall|i: int| 0 <= i < pre.len() ==> white_space(#[trigger] pre[i]),
        forall|i: int| 0 <= i < w.len() ==> !white_space(#[trigger] w[i]),
        w.len() > 0,
        rest.len() > 0 ==> white_space(rest[0]),
    ensures
        space_pieces(pre + w + rest).len() > 0,
        words(pre + w + rest).len() > 0,
        words(pre + w + rest)[0] == w,
        rest.len() > 0 ==> non_empty(space_pieces(pre + w + rest).drop_last()).len() > 0
            && non_empty(space_pieces(pre + w + rest).drop_last())[0] == w,
    decreases rest.len(),
{
    if rest.len() == 0 {
        assert(pre + w + rest =~= pre + w);
        lemma_open_word(pre, w);
    } else {
        let most = rest.drop_last();
        let s = pre + w + rest;
        assert(s.drop_last() =~= pre + w + most);
        assert(s.last() == rest.last());
        lemma_first_word(pre, w, most);
        let before = space_pieces(pre + w + most);
        if white_space(rest.last()) {
            assert(space_pieces(s).drop_last() =~= before);
        } else {
            assert(most.len() > 0);
            assert(space_pieces(s).drop_last() =~= before.drop_last());
        }
    }
}

/// The branch names of the lines `ls`, one for each line that has one.
pub open spec fn names_in(ls: Seq<Seq<char>>) -> Seq<Seq<char>>
    decreases ls.len(),
{
    if ls.len() == 0 {
        Seq::empty()
    } else {
        match branch_name(ls.last()) {
            Some(name) => names_in(ls.drop_last()).push(name),
            None => names_in(ls.drop_last()),
        }
    }
}

/// The set of branch names in `git branch` output, listed without repetition.
pub open spec fn branch_names(output: Seq<char>) -> Seq<Seq<char>> {
    first_occurrences(names_in(lines(output)))
}

/// Collect the set of branch names from `git branch [-r] -vv` output: each name once, in the order
/// of first occurrence.
pub fn parse_branch_names(output: &str) -> (r: Vec<String>)
    ensures
        texts(r@) == branch_names(output@),
{
    let ls = split_lines(output);
    let ghost all = lines(output@);
    let mut out: Vec<String> = Vec::new();
    proof {
        assert(all.take(0) =~= Seq::<Seq<char>>::empty());
        assert(texts(out@) =~= Seq::<Seq<char>>::empty());
    }
    for i in 0..ls.len()
        invariant
            all == texts(ls@),
            texts(out@) == first_occurrences(names_in(all.take(i as int))),
    {
        proof {
            assert(all.take(i + 1).drop_last() =~= all.take(i as int));
            assert(all.take(i + 1).last() == ls@[i as int]@);
        }
        if let Some(name) = parse_branch_name(ls[i].as_str()) {
            let ghost before = names_in(all.take(i as int));
            proof {
                assert(before.push(name@).drop_last() =~= before);
            }
            push_new(&mut out, name);
        }
    }
    proof {
        assert(all.take(all.len() as int) =~= all);
    }
    out
}

/// The names in two listings that are joined are those of the one with those of the other.
pub proof fn lemma_joined_listings_hold_both(one: Seq<Seq<char>>, other: Seq<Seq<char>>)
    ensures
        names_in(one + other) == names_in(one) + names_in(other),
        forall|n: Seq<char>| #[trigger]
            first_occurrences(names_in(one + other)).contains(n) <==> first_occurrences(
                names_in(one),
            ).contains(n) || first_occurrences(names_in(other)).contains(n),
    decreases other.len(),
{
    let all = one + other;
    if other.len() == 0 {
        assert(all =~= one);
        assert(names_in(one) + names_in(other) =~= names_in(one));
    } else {
        lemma_joined_listings_hold_both(one, other.drop_last());
        assert(all.drop_last() =~= one + other.drop_last());
        assert(all.last() == other.last());
        assert(names_in(all) =~= names_in(one) + names_in(other));
    }
    lemma_first_occurrences_distinct(names_in(all));
    lemma_first_occurrences_distinct(names_in(one));
    lemma_first_occurrences_distinct(names_in(other));
    let x = names_in(one);
    let y = names_in(other);
    assert forall|n: Seq<char>| (x + y).contains(n) implies x.contains(n) || y.contains(n) by {
        let i = choose|i: int| 0 <= i < (x + y).len() && (x + y)[i] == n;
        if i < x.len() {
            assert(x[i] == n);
        } else {
            assert(y[i - x.len()] == n);
        }
    }
    assert forall|n: Seq<char>| x.contains(n) || y.contains(n) implies (x + y).contains(n) by {
        if x.contains(n) {
            let i = choose|i: int| 0 <= i < x.len() && x[i] == n;
            assert((x + y)[i] == n);
        } else {
            let i = choose|i: int| 0 <= i < y.len() && y[i] == n;
            assert((x + y)[i + x.len()] == n);
        }
    }
    assert forall|n: Seq<char>| #[trigger]
        first_occurrences(names_in(all)).contains(n) <==> first_occurrences(x).contains(n)
            || first_occurrences(y).contains(n) by {
        assert(names_in(all).contains(n) <==> (x + y).contains(n));
        assert(x.contains(n) <==> first_occurrences(x).contains(n));
        assert(y.contains(n) <==> first_occurrences(y).contains(n));
    }
}

/// The `origin/x` form of the name of a remote-tracking branch.
pub open spec fn short_ref(name: Seq<char>) -> Option<Seq<char>> {
    after_prefix(name, "remotes/"@)
}

/// For a `git branch --all` row naming a remote-tracking branch (`remotes/origin/x`), return the
/// `origin/x` form used by the remote flows.
pub fn remote_short_ref(name: &str) -> (r: Option<&str>)
    ensures
        match r {
            Some(t) => short_ref(name@) == Some(t@),
            None => short_ref(name@) is None,
        },
{
    strip_prefix(name, "remotes/")
}

/// Whether `s` is a full object name: 40 hexadecimal digits.
pub open spec fn object_name(s: Seq<char>) -> bool {
    s.len() == 40 && forall|i: int| 0 <= i < s.len() ==> hex_digit(#[trigger] s[i])
}

/// The upstream short ref in the tracking bracket that follows the object name on the line of a
/// local branch.
pub open spec fn upstream_of(line: Seq<char>) -> Option<Seq<char>> {
    match branch_name(line) {
        Some(name) => {
            let tokens = words(unmarked(line));
            if begins_with(name, "remotes/"@) || tokens.len() < 3 || !object_name(tokens[1]) {
                None
            } else {
                match after_prefix(tokens[2], "["@) {
                    Some(bracket) => Some(trimmed_end_set(bracket, seq![']', ':'])),
                    None => None,
                }
            }
        },
        None => None,
    }
}

/// Whether `s` is a full object name.
fn is_object_name(s: &str) -> (r: bool)
    ensures
        r == object_name(s@),
{
    let cs = chars_of(s);
    if cs.len() != 40 {
        return false;
    }
    for i in 0..cs.len()
        invariant
            cs@ == s@,
            cs@.len() == 40,
            forall|j: int| 0 <= j < i ==> hex_digit(#[trigger] s@[j]),
    {
        if !is_hex_digit(cs[i]) {
            return false;
        }
    }
    true
}

/// From one local-branch line of `git branch --all -vv --no-abbrev` output, extract the upstream
/// short ref (`origin/x`) out of the tracking bracket that follows the object name, as in
/// `[origin/x]` or `[origin/x: ahead 1]`.
pub fn upstream_of_local_line(line: &str) -> (r: Option<String>)
    ensures
        match r {
            Some(t) => upstream_of(line@) == Some(t@),
            None => upstream_of(line@) is None,
        },
{
    match parse_branch_name(line) {
        Some(name) => {
            if starts_with(name, "remotes/") {
                return None;
            }
        },
        None => {
            return None;
        },
    }
    let set: [char; 3] = ['*', '+', ' '];
    proof {
        assert(set@ =~= markers());
    }
    let tokens = split_words(trim_start_set(line, &set));
    let ghost all = words(unmarked(line@));
    proof {
        assert(all == texts(tokens@));
    }
    if tokens.len() < 3 {
        return None;
    }
    proof {
        assert(all[1] == tokens@[1]@);
        assert(all[2] == tokens@[2]@);
    }
    if !is_object_name(tokens[1].as_str()) {
        return None;
    }
    match strip_prefix(tokens[2].as_str(), "[") {
        Some(bracket) => {
            let closing: [char; 2] = [']', ':'];
            proof {
                assert(closing@ =~= seq![']', ':']);
            }
            Some(trim_end_set(bracket, &closing).to_owned())
        },
        None => None,
    }
}

/// Whether a line of `ls` is that of a local branch whose upstream is `short`.
pub open spec fn has_local(ls: Seq<Seq<char>>, short: Seq<char>) -> bool {
    exists|i: int| 0 <= i < ls.len() && #[trigger] upstream_of(ls[i]) == Some(short)
}

/// Whether a line stays when `all` is the whole output: it stays unless it names a remote branch
/// that a local branch tracks.
pub open spec fn stays(line: Seq<char>, all: Seq<Seq<char>>) -> bool {
    match branch_name(line) {
        Some(name) => match short_ref(name) {
            Some(short) => !has_local(all, short),
            None => true,
        },
        None => true,
    }
}

/// Those of `ls` that stay, in order.
pub open spec fn staying(ls: Seq<Seq<char>>, all: Seq<Seq<char>>) -> Seq<Seq<char>>
    decreases ls.len(),
{
    if ls.len() == 0 {
        Seq::empty()
    } else if stays(ls.last(), all) {
        staying(ls.drop_last(), all).push(ls.last())
    } else {
        staying(ls.drop_last(), all)
    }
}

/// `output` without the rows of tracked remote branches.
pub open spec fn without_redundant(output: Seq<char>) -> Seq<char> {
    joined(staying(lines(output), lines(output)), "\n"@)
}

/// Drop `remotes/origin/x` rows from `git branch --all -vv` output when a local branch in the same
/// output already tracks `origin/x`: the tracking info shown on the local line makes the remote
/// row redundant.
pub fn filter_tracked_remotes(output: &str) -> (r: String)
    ensures
        r@ == without_redundant(output@),
{
    let ls = split_lines(output);
    let ghost all = lines(output@);
    let mut upstreams: Vec<String> = Vec::new();
    for i in 0..ls.len()
        invariant
            all == texts(ls@),
            forall|t: Seq<char>|
                #![trigger texts(upstreams@).contains(t)]
                texts(upstreams@).contains(t) <==> exists|j: int|
                    0 <= j < i && #[trigger] upstream_of(all[j]) == Some(t),
    {
        let ghost before = upstreams@;
        proof {
            assert(all[i as int] == ls@[i as int]@);
        }
        if let Some(up) = upstream_of_local_line(ls[i].as_str()) {
            upstreams.push(up);
            proof {
                lemma_texts_push(before, up);
                assert forall|t: Seq<char>| #[trigger]
                    texts(upstreams@).contains(t) <==> exists|j: int|
                    0 <= j < i + 1 && #[trigger] upstream_of(all[j]) == Some(t) by {
                    if texts(upstreams@).contains(t) {
                        let k = choose|k: int|
                            0 <= k < texts(upstreams@).len() && texts(upstreams@)[k] == t;
                        if k < before.len() {
                            assert(texts(before)[k] == t);
                            assert(texts(before).contains(t));
                        } else {
                            assert(upstream_of(all[i as int]) == Some(t));
                        }
                    }
                    if exists|j: int| 0 <= j < i + 1 && #[trigger] upstream_of(all[j]) == Some(t) {
                        let j = choose|j: int|
                            0 <= j < i + 1 && #[trigger] upstream_of(all[j]) == Some(t);
                        if j < i {
                            assert(texts(before).contains(t));
                            let k = choose|k: int|
                                0 <= k < texts(before).len() && texts(before)[k] == t;
                            assert(texts(upstreams@)[k] == t);
                        } else {
                            assert(texts(upstreams@)[before.len() as int] == t);
                        }
                    }
                }
            }
        }
    }
    let mut kept: Vec<String> = Vec::new();
    proof {
        assert(all.take(0) =~= Seq::<Seq<char>>::empty());
        assert(texts(kept@) =~= Seq::<Seq<char>>::empty());
    }
    for i in 0..ls.len()
        invariant
            all == texts(ls@),
            forall|t: Seq<char>|
                #![trigger texts(upstreams@).contains(t)]
                texts(upstreams@).contains(t) <==> has_local(all, t),
            texts(kept@) == staying(all.take(i as int), all),
    {
        proof {
            assert(all.take(i + 1).drop_last() =~= all.take(i as int));
            assert(all.take(i + 1).last() == ls@[i as int]@);
            lemma_texts_push(kept@, ls@[i as int]);
        }
        let keep = match parse_branch_name(ls[i].as_str()) {
            Some(name) => match remote_short_ref(name) {
                Some(short) => !holds_text(&upstreams, short),
                None => true,
            },
            None => true,
        };
        if keep {
            kept.push(ls[i].clone());
        }
    }
    proof {
        assert(all.take(all.len() as int) =~= all);
    }
    join(&kept, "\n")
}

/// What stays of some lines is what they hold that stays.
proof fn lemma_staying(ls: Seq<Seq<char>>, all: Seq<Seq<char>>, line: Seq<char>)
    ensures
        staying(ls, all).contains(line) <==> ls.contains(line) && stays(line, all),
    decreases ls.len(),
{
    if ls.len() > 0 {
        let most = ls.drop_last();
        let kept = staying(most, all);
        lemma_staying(most, all, line);
        if ls.contains(line) {
            let i = choose|i: int| 0 <= i < ls.len() && ls[i] == line;
            if i < most.len() {
                assert(most[i] == line);
            }
        }
        if most.contains(line) {
            let i = choose|i: int| 0 <= i < most.len() && most[i] == line;
            assert(ls[i] == line);
        }
        if stays(ls.last(), all) {
            assert(staying(ls, all) == kept.push(ls.last()));
            assert(kept.push(ls.last())[kept.len() as int] == ls.last());
            if kept.contains(line) {
                let i = choose|i: int| 0 <= i < kept.len() && kept[i] == line;
                assert(kept.push(ls.last())[i] == line);
            }
            if kept.push(ls.last()).contains(line) {
                let i = choose|i: int|
                    0 <= i < kept.push(ls.last()).len() && kept.push(ls.last())[i] == line;
                if i < kept.len() {
                    assert(kept[i] == line);
                }
            }
        }
        if ls.last() == line {
            assert(ls[ls.len() - 1] == line);
        }
    }
}

/// Of a listing of branches only the rows of remote branches go that a local branch tracks: every
/// other row stays, and nothing is added.
pub proof fn lemma_only_tracked_remote_rows_go(output: Seq<char>, line: Seq<char>)
    ensures
        staying(lines(output), lines(output)).contains(line) <==> lines(output).contains(line)
            && stays(line, lines(output)),
        branch_name(line) matches Some(name) && short_ref(name) is None ==> stays(
            line,
            lines(output),
        ),
{
    lemma_staying(lines(output), lines(output), line);
}

// ── Prompt editing helpers ───────────────────────────────────────────────────

/// The byte offset of the character before byte offset `at`, or 0 at the start.
pub open spec fn prev_boundary(s: Seq<char>, at: int) -> int {
    if at == 0 {
        0
    } else {
        offset(s, index_at(s, at) - 1) as int
    }
}

/// The byte offset of the character after the one at byte offset `at`, or `at` itself at the end.
pub open spec fn next_boundary(s: Seq<char>, at: int) -> int {
    if index_at(s, at) < s.len() {
        offset(s, index_at(s, at) + 1) as int
    } else {
        at
    }
}

/// Byte offset of the char boundary before `idx` (0 if already at the start).
pub fn prev_char_boundary(s: &str, idx: usize) -> (r: usize)
    requires
        boundary(s@, idx as int),
    ensures
        r == prev_boundary(s@, idx as int),
        boundary(s@, r as int),
        r <= idx,
{
    let cs = chars_of(s);
    let k = index_of_offset(&cs, idx);
    if k == 0 {
        proof {
            assert(begins_at(s@, 0, 0));
        }
        0
    } else {
        proof {
            lemma_index_at(s@, k - 1);
            assert(offset(s@, k as int) == offset(s@, k - 1) + width(s@[k - 1]));
        }
        idx - width_of(cs[k - 1])
    }
}

/// Byte offset of the char boundary after `idx` (unchanged if at the end).
pub fn next_char_boundary(s: &str, idx: usize) -> (r: usize)
    requires
        boundary(s@, idx as int),
    ensures
        r == next_boundary(s@, idx as int),
        boundary(s@, r as int),
        r >= idx,
{
    let cs = chars_of(s);
    // No offset is larger than the length in bytes.
    let _ = bytes_in(s);
    let k = index_of_offset(&cs, idx);
    if k < cs.len() {
        proof {
            lemma_index_at(s@, k + 1);
            lemma_offset_grows(s@, k + 1, s@.len() as int);
        }
        idx + width_of(cs[k])
    } else {
        idx
    }
}

/// The characters that part the segments of a branch name.
pub open spec fn separator(c: char) -> bool {
    c == '/' || c == '-' || c == '_' || c == '.' || c == ' '
}

/// Whether `c` parts the segments of a branch name.
fn is_separator(c: char) -> (r: bool)
    ensures
        r == separator(c),
{
    c == '/' || c == '-' || c == '_' || c == '.' || c == ' '
}

/// The index reached from `k` by going back over separators.
pub open spec fn back_over_separators(s: Seq<char>, k: int) -> int
    decreases k,
{
    if k > 0 && separator(s[k - 1]) {
        back_over_separators(s, k - 1)
    } else {
        k
    }
}

/// The index reached from `k` by going back over characters that are not separators.
pub open spec fn back_over_word(s: Seq<char>, k: int) -> int
    decreases k,
{
    if k > 0 && !separator(s[k - 1]) {
        back_over_word(s, k - 1)
    } else {
        k
    }
}

/// The byte offset at which the word before byte offset `cursor` starts.
pub open spec fn word_start(s: Seq<char>, cursor: int) -> int {
    offset(s, back_over_word(s, back_over_separators(s, index_at(s, cursor)))) as int
}

/// Start of the "word" preceding `cursor`: skips separators backwards, then the run of
/// non-separator chars, so that `feat/my-branch` is deleted one segment at a time.
pub fn word_back_start(s: &str, cursor: usize) -> (r: usize)
    requires
        boundary(s@, cursor as int),
    ensures
        r == word_start(s@, cursor as int),
        boundary(s@, r as int),
        r <= cursor,
{
    let cs = chars_of(s);
    let mut k = index_of_offset(&cs, cursor);
    let mut at = cursor;
    let ghost start = k as int;
    while k > 0 && is_separator(cs[k - 1])
        invariant
            cs@ == s@,
            k <= cs@.len(),
            at == offset(s@, k as int),
            at <= cursor,
            back_over_separators(s@, start) == back_over_separators(s@, k as int),
        decreases k,
    {
        at = at - width_of(cs[k - 1]);
        k = k - 1;
    }
    let ghost middle = k as int;
    while k > 0 && !is_separator(cs[k - 1])
        invariant
            cs@ == s@,
            k <= cs@.len(),
            at == offset(s@, k as int),
            at <= cursor,
            back_over_word(s@, middle) == back_over_word(s@, k as int),
        decreases k,
    {
        at = at - width_of(cs[k - 1]);
        k = k - 1;
    }
    proof {
        lemma_index_at(s@, k as int);
    }
    at
}

/// What is wrong with `name` as a branch name.
pub open spec fn branch_name_fault(name: Seq<char>) -> Option<Seq<char>> {
    if name.len() == 0 {
        Some("branch name is empty"@)
    } else if name == "@"@ {
        Some("'@' is not a valid branch name"@)
    } else if begins_with(name, "-"@) {
        Some("branch name must not start with '-'"@)
    } else if begins_with(name, "/"@) || finishes_with(name, "/"@) || has_text(name, "//"@) {
        Some("invalid '/' placement in branch name"@)
    } else if finishes_with(name, "."@) || has_text(name, ".."@) {
        Some("invalid '.' placement in branch name"@)
    } else if has_text(name, "@{"@) {
        Some("branch name must not contain '@{'"@)
    } else if exists|i: int|
        0 <= i < pieces(name, '/').len() && #[trigger] bad_segment(pieces(name, '/')[i]) {
        Some("segment must not start with '.' or end with '.lock'"@)
    } else if exists|i: int| 0 <= i < name.len() && #[trigger] bad_char(name[i]) {
        Some("branch name contains invalid characters"@)
    } else {
        None
    }
}

/// A segment that starts with a dot or ends in `.lock`.
pub open spec fn bad_segment(segment: Seq<char>) -> bool {
    begins_with(segment, "."@) || finishes_with(segment, ".lock"@)
}

/// A character that no branch name may hold.
pub open spec fn bad_char(c: char) -> bool {
    white_space(c) || control(c) || c == '~' || c == '^' || c == ':' || c == '?' || c == '*' || c
        == '[' || c == '\\'
}

/// Whether no branch name may hold `c`.
fn is_bad_char(c: char) -> (r: bool)
    ensures
        r == bad_char(c),
{
    is_white_space(c) || is_control_char(c) || c == '~' || c == '^' || c == ':' || c == '?' || c
        == '*' || c == '[' || c == '\\'
}

/// Whether a segment of `name` starts with a dot or ends in `.lock`.
fn has_bad_segment(name: &str) -> (r: bool)
    ensures
        r == exists|i: int|
            0 <= i < pieces(name@, '/').len() && #[trigger] bad_segment(pieces(name@, '/')[i]),
{
    let segments = split_char(name, '/');
    let ghost all = pieces(name@, '/');
    for i in 0..segments.len()
        invariant
            all == pieces(name@, '/'),
            all == texts(segments@),
            forall|j: int| 0 <= j < i ==> !#[trigger] bad_segment(all[j]),
    {
        proof {
            assert(all[i as int] == segments@[i as int]@);
        }
        if starts_with(segments[i].as_str(), ".") || ends_with(segments[i].as_str(), ".lock") {
            proof {
                assert(bad_segment(all[i as int]));
            }
            return true;
        }
    }
    false
}

/// Whether `name` holds a character that no branch name may hold.
fn has_bad_char(name: &str) -> (r: bool)
    ensures
        r == exists|i: int| 0 <= i < name@.len() && #[trigger] bad_char(name@[i]),
{
    let cs = chars_of(name);
    for i in 0..cs.len()
        invariant
            cs@ == name@,
            forall|j: int| 0 <= j < i ==> !#[trigger] bad_char(name@[j]),
    {
        if is_bad_char(cs[i]) {
            return true;
        }
    }
    false
}

/// Approximate `git check-ref-format --branch`: catch obviously invalid names before handing them
/// to git.
pub fn validate_branch_name(name: &str) -> (r: Result<(), &'static str>)
    ensures
        match r {
            Ok(_) => branch_name_fault(name@) is None,
            Err(fault) => branch_name_fault(name@) == Some(fault@),
        },
{
    if name.is_empty() {
        return Err("branch name is empty");
    }
    if same_text(name, "@") {
        return Err("'@' is not a valid branch name");
    }
    if starts_with(name, "-") {
        return Err("branch name must not start with '-'");
    }
    if starts_with(name, "/") || ends_with(name, "/") || contains_text(name, "//") {
        return Err("invalid '/' placement in branch name");
    }
    if ends_with(name, ".") || contains_text(name, "..") {
        return Err("invalid '.' placement in branch name");
    }
    if contains_text(name, "@{") {
        return Err("branch name must not contain '@{'");
    }
    if has_bad_segment(name) {
        return Err("segment must not start with '.' or end with '.lock'");
    }
    if has_bad_char(name) {
        return Err("branch name contains invalid characters");
    }
    Ok(())
}

} // verus!
