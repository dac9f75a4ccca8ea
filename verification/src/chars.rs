//! Text as sequences of characters: trimming, splitting, searching and joining.
//!
//! Every function here is stated over `Seq<char>`, the view of `str` and `String`.

use vstd::prelude::*;
use vstd::string::*;

verus! {

// ── Conversions ──────────────────────────────────────────────────────────────

/// Appends one character to a string.
///
/// Stands for `String::push`, of which it claims what its documentation says: the character is
/// appended to the end of the string.
pub assume_specification[ String::push ](s: &mut String, c: char)
    ensures
        final(s)@ == old(s)@.push(c),
;

/// The characters of `s`, in order.
pub fn chars_of(s: &str) -> (r: Vec<char>)
    ensures
        r@ == s@,
{
    let mut out: Vec<char> = Vec::new();
    for c in it: s.chars()
        invariant
            out@ == it.seq().take(it.index() as int),
            it.seq() == s@,
    {
        out.push(c);
    }
    out
}

/// The string made of `cs`.
pub fn string_of(cs: &[char]) -> (r: String)
    ensures
        r@ == cs@,
{
    let mut out = String::new();
    for i in 0..cs.len()
        invariant
            out@ == cs@.take(i as int),
    {
        out.push(cs[i]);
    }
    proof {
        assert(cs@.take(cs@.len() as int) == cs@);
    }
    out
}

/// The views of a sequence of strings.
pub open spec fn texts(v: Seq<String>) -> Seq<Seq<char>> {
    v.map_values(|s: String| s@)
}

/// The view of an optional string.
pub open spec fn opt_text(o: Option<String>) -> Option<Seq<char>> {
    match o {
        Some(s) => Some(s@),
        None => None,
    }
}

/// A copy of an optional string.
pub fn copy_opt(o: &Option<String>) -> (r: Option<String>)
    ensures
        opt_text(r) == opt_text(*o),
        r == *o,
{
    match o {
        Some(s) => Some(s.clone()),
        None => None,
    }
}

/// A copy of a list of strings.
pub fn copy_texts(v: &Vec<String>) -> (r: Vec<String>)
    ensures
        texts(r@) == texts(v@),
{
    let mut out: Vec<String> = Vec::new();
    for i in 0..v.len()
        invariant
            texts(out@) == texts(v@).take(i as int),
    {
        out.push(v[i].clone());
        proof {
            assert(texts(out@) =~= texts(v@).take(i as int).push(v@[i as int]@));
            assert(texts(v@).take(i + 1) =~= texts(v@).take(i as int).push(v@[i as int]@));
        }
    }
    proof {
        assert(texts(v@).take(v@.len() as int) =~= texts(v@));
    }
    out
}

/// Pushing a string pushes its view.
pub proof fn lemma_texts_push(v: Seq<String>, s: String)
    ensures
        texts(v.push(s)) == texts(v).push(s@),
{
    assert(texts(v.push(s)) =~= texts(v).push(s@));
}

/// Whether two strings hold the same characters.
pub fn same_text(a: &str, b: &str) -> (r: bool)
    ensures
        r == (a@ == b@),
{
    a.to_owned() == b.to_owned()
}

/// Whether two optional strings are both absent or hold the same characters.
pub fn same_opt_text(a: &Option<String>, b: &Option<String>) -> (r: bool)
    ensures
        r == (opt_text(*a) == opt_text(*b)),
{
    match (a, b) {
        (Some(x), Some(y)) => *x == *y,
        (None, None) => true,
        _ => false,
    }
}

// ── Character classes ────────────────────────────────────────────────────────

/// Unicode `White_Space`.
pub open spec fn white_space(c: char) -> bool {
    ||| '\u{9}' <= c <= '\u{d}'
    ||| c == ' '
    ||| c == '\u{85}'
    ||| c == '\u{a0}'
    ||| c == '\u{1680}'
    ||| '\u{2000}' <= c <= '\u{200a}'
    ||| c == '\u{2028}'
    ||| c == '\u{2029}'
    ||| c == '\u{202f}'
    ||| c == '\u{205f}'
    ||| c == '\u{3000}'
}

/// Whether `c` is white space.
pub fn is_white_space(c: char) -> (r: bool)
    ensures
        r == white_space(c),
{
    ('\u{9}' <= c && c <= '\u{d}') || c == ' ' || c == '\u{85}' || c == '\u{a0}' || c == '\u{1680}'
        || ('\u{2000}' <= c && c <= '\u{200a}') || c == '\u{2028}' || c == '\u{2029}' || c
        == '\u{202f}' || c == '\u{205f}' || c == '\u{3000}'
}

/// Unicode general category `Cc`.
pub open spec fn control(c: char) -> bool {
    c <= '\u{1f}' || '\u{7f}' <= c <= '\u{9f}'
}

/// Whether `c` is a control character.
pub fn is_control_char(c: char) -> (r: bool)
    ensures
        r == control(c),
{
    c <= '\u{1f}' || ('\u{7f}' <= c && c <= '\u{9f}')
}

/// An ASCII hexadecimal digit.
pub open spec fn hex_digit(c: char) -> bool {
    '0' <= c <= '9' || 'a' <= c <= 'f' || 'A' <= c <= 'F'
}

/// Whether `c` is an ASCII hexadecimal digit.
pub fn is_hex_digit(c: char) -> (r: bool)
    ensures
        r == hex_digit(c),
{
    ('0' <= c && c <= '9') || ('a' <= c && c <= 'f') || ('A' <= c && c <= 'F')
}

/// An ASCII letter or digit.
pub open spec fn alphanumeric(c: char) -> bool {
    'a' <= c <= 'z' || 'A' <= c <= 'Z' || '0' <= c <= '9'
}

/// Whether `c` is an ASCII letter or digit.
pub fn is_alphanumeric(c: char) -> (r: bool)
    ensures
        r == alphanumeric(c),
{
    ('a' <= c && c <= 'z') || ('A' <= c && c <= 'Z') || ('0' <= c && c <= '9')
}

/// Whether `set` holds `c`.
pub fn in_set(set: &[char], c: char) -> (r: bool)
    ensures
        r == set@.contains(c),
{
    for i in 0..set.len()
        invariant
            forall|j: int| 0 <= j < i ==> set@[j] != c,
    {
        if set[i] == c {
            return true;
        }
    }
    false
}

// ── Trimming ─────────────────────────────────────────────────────────────────

/// `s` without its leading characters that `set` holds.
pub open spec fn trimmed_start_set(s: Seq<char>, set: Seq<char>) -> Seq<char>
    decreases s.len(),
{
    if s.len() > 0 && set.contains(s[0]) {
        trimmed_start_set(s.drop_first(), set)
    } else {
        s
    }
}

/// `s` without its trailing characters that `set` holds.
pub open spec fn trimmed_end_set(s: Seq<char>, set: Seq<char>) -> Seq<char>
    decreases s.len(),
{
    if s.len() > 0 && set.contains(s.last()) {
        trimmed_end_set(s.drop_last(), set)
    } else {
        s
    }
}

/// `s` without leading white space.
pub open spec fn trimmed_start(s: Seq<char>) -> Seq<char>
    decreases s.len(),
{
    if s.len() > 0 && white_space(s[0]) {
        trimmed_start(s.drop_first())
    } else {
        s
    }
}

/// `s` without trailing white space.
pub open spec fn trimmed_end(s: Seq<char>) -> Seq<char>
    decreases s.len(),
{
    if s.len() > 0 && white_space(s.last()) {
        trimmed_end(s.drop_last())
    } else {
        s
    }
}

/// `s` without leading and trailing white space.
pub open spec fn trimmed(s: Seq<char>) -> Seq<char> {
    trimmed_end(trimmed_start(s))
}

/// `s` without its leading characters that `set` holds.
pub fn trim_start_set<'a>(s: &'a str, set: &[char]) -> (r: &'a str)
    ensures
        r@ == trimmed_start_set(s@, set@),
{
    let cs = chars_of(s);
    let mut from: usize = 0;
    proof {
        assert(cs@.skip(0) == cs@);
    }
    while from < cs.len() && in_set(set, cs[from])
        invariant
            from <= cs@.len(),
            cs@ == s@,
            trimmed_start_set(s@, set@) == trimmed_start_set(cs@.skip(from as int), set@),
        decreases cs@.len() - from,
    {
        proof {
            assert(cs@.skip(from as int).drop_first() == cs@.skip(from + 1));
        }
        from = from + 1;
    }
    proof {
        assert(cs@.skip(from as int) == s@.subrange(from as int, cs@.len() as int));
    }
    s.substring_char(from, cs.len())
}

/// `s` without its trailing characters that `set` holds.
pub fn trim_end_set<'a>(s: &'a str, set: &[char]) -> (r: &'a str)
    ensures
        r@ == trimmed_end_set(s@, set@),
{
    let cs = chars_of(s);
    let mut to: usize = cs.len();
    proof {
        assert(cs@.take(to as int) == cs@);
    }
    while to > 0 && in_set(set, cs[to - 1])
        invariant
            to <= cs@.len(),
            cs@ == s@,
            trimmed_end_set(s@, set@) == trimmed_end_set(cs@.take(to as int), set@),
        decreases to,
    {
        proof {
            assert(cs@.take(to as int).drop_last() == cs@.take(to - 1));
        }
        to = to - 1;
    }
    proof {
        assert(cs@.take(to as int) == s@.subrange(0, to as int));
    }
    s.substring_char(0, to)
}

/// `s` without leading white space.
pub fn trim_start(s: &str) -> (r: &str)
    ensures
        r@ == trimmed_start(s@),
{
    let cs = chars_of(s);
    let mut from: usize = 0;
    proof {
        assert(cs@.skip(0) == cs@);
    }
    while from < cs.len() && is_white_space(cs[from])
        invariant
            from <= cs@.len(),
            cs@ == s@,
            trimmed_start(s@) == trimmed_start(cs@.skip(from as int)),
        decreases cs@.len() - from,
    {
        proof {
            assert(cs@.skip(from as int).drop_first() == cs@.skip(from + 1));
        }
        from = from + 1;
    }
    proof {
        assert(cs@.skip(from as int) == s@.subrange(from as int, cs@.len() as int));
    }
    s.substring_char(from, cs.len())
}

/// `s` without trailing white space.
pub fn trim_end(s: &str) -> (r: &str)
    ensures
        r@ == trimmed_end(s@),
{
    let cs = chars_of(s);
    let mut to: usize = cs.len();
    proof {
        assert(cs@.take(to as int) == cs@);
    }
    while to > 0 && is_white_space(cs[to - 1])
        invariant
            to <= cs@.len(),
            cs@ == s@,
            trimmed_end(s@) == trimmed_end(cs@.take(to as int)),
        decreases to,
    {
        proof {
            assert(cs@.take(to as int).drop_last() == cs@.take(to - 1));
        }
        to = to - 1;
    }
    proof {
        assert(cs@.take(to as int) == s@.subrange(0, to as int));
    }
    s.substring_char(0, to)
}

/// `s` without leading and trailing white space.
pub fn trim(s: &str) -> (r: &str)
    ensures
        r@ == trimmed(s@),
{
    trim_end(trim_start(s))
}

/// Whether `s` holds nothing but white space.
pub open spec fn blank(s: Seq<char>) -> bool {
    trimmed(s).len() == 0
}

/// A text with a character that is not white space is not blank.
pub proof fn lemma_visible_is_not_blank(s: Seq<char>, i: int)
    requires
        0 <= i < s.len(),
        !white_space(s[i]),
    ensures
        !blank(s),
    decreases s.len(),
{
    if white_space(s[0]) {
        assert(s.drop_first()[i - 1] == s[i]);
        lemma_visible_is_not_blank(s.drop_first(), i - 1);
    } else {
        lemma_trim_end_keeps_visible(s, i);
    }
}

/// Trimming the end of a text leaves a character that is not white space.
proof fn lemma_trim_end_keeps_visible(s: Seq<char>, i: int)
    requires
        0 <= i < s.len(),
        !white_space(s[i]),
    ensures
        trimmed_end(s).len() > 0,
    decreases s.len(),
{
    if white_space(s.last()) {
        assert(s.drop_last()[i] == s[i]);
        lemma_trim_end_keeps_visible(s.drop_last(), i);
    }
}

/// Whether `s` holds nothing but white space.
pub fn is_blank(s: &str) -> (r: bool)
    ensures
        r == blank(s@),
{
    trim(s).is_empty()
}

// ── Searching ────────────────────────────────────────────────────────────────

/// Whether `pat` stands in `s` at index `i`.
pub open spec fn stands_at(s: Seq<char>, pat: Seq<char>, i: int) -> bool {
    0 <= i && i + pat.len() <= s.len() && s.subrange(i, i + pat.len()) == pat
}

/// Whether `pat` stands somewhere in `s`.
pub open spec fn has_text(s: Seq<char>, pat: Seq<char>) -> bool {
    exists|i: int| stands_at(s, pat, i)
}

/// Whether `s` begins with `pat`.
pub open spec fn begins_with(s: Seq<char>, pat: Seq<char>) -> bool {
    stands_at(s, pat, 0)
}

/// Whether `s` ends with `pat`.
pub open spec fn finishes_with(s: Seq<char>, pat: Seq<char>) -> bool {
    stands_at(s, pat, s.len() - pat.len())
}

/// What follows `pat` at the start of `s`.
pub open spec fn after_prefix(s: Seq<char>, pat: Seq<char>) -> Option<Seq<char>> {
    if begins_with(s, pat) {
        Some(s.skip(pat.len() as int))
    } else {
        None
    }
}

/// A text holds another exactly when it is that text with something before and something behind it;
/// it begins with it when there is nothing before, and ends with it when there is nothing behind.
pub proof fn lemma_text_is_held(s: Seq<char>, pat: Seq<char>)
    ensures
        has_text(s, pat) <==> exists|a: Seq<char>, b: Seq<char>| s == #[trigger] (a + pat + b),
        begins_with(s, pat) <==> pat.is_prefix_of(s),
        finishes_with(s, pat) <==> pat.is_suffix_of(s),
        after_prefix(s, pat) is Some <==> pat.is_prefix_of(s),
        after_prefix(s, pat) matches Some(rest) ==> s == pat + rest,
{
    if has_text(s, pat) {
        let i = choose|i: int| stands_at(s, pat, i);
        let a = s.take(i);
        let b = s.skip(i + pat.len());
        assert(s =~= a + s.subrange(i, i + pat.len()) + b);
        assert(s == a + pat + b);
    }
    if exists|a: Seq<char>, b: Seq<char>| s == #[trigger] (a + pat + b) {
        let (a, b) = choose|a: Seq<char>, b: Seq<char>| s == #[trigger] (a + pat + b);
        lemma_holds_middle(a, pat, b);
    }
    if begins_with(s, pat) {
        assert(s =~= s.subrange(0, pat.len() as int) + s.skip(pat.len() as int));
    }
}

/// A text holds what stands in its middle.
pub proof fn lemma_holds_middle(a: Seq<char>, pat: Seq<char>, b: Seq<char>)
    ensures
        has_text(a + pat + b, pat),
{
    let s = a + pat + b;
    assert(s.subrange(a.len() as int, a.len() as int + pat.len()) =~= pat);
    assert(stands_at(s, pat, a.len() as int));
}

/// Whether `pat` stands in `s` at index `at`.
fn matches_from(s: &[char], pat: &[char], at: usize) -> (r: bool)
    requires
        at <= s@.len(),
    ensures
        r == stands_at(s@, pat@, at as int),
{
    if pat.len() > s.len() - at {
        return false;
    }
    let n = s.len();
    for j in 0..pat.len()
        invariant
            n == s@.len(),
            at + pat@.len() <= n,
            forall|k: int| 0 <= k < j ==> s@[at + k] == pat@[k],
    {
        if s[at + j] != pat[j] {
            proof {
                assert(s@.subrange(at as int, at + pat@.len())[j as int] != pat@[j as int]);
            }
            return false;
        }
    }
    proof {
        assert(s@.subrange(at as int, at + pat@.len()) =~= pat@);
    }
    true
}

/// Whether `pat` stands somewhere in `s`.
pub fn contains_text(s: &str, pat: &str) -> (r: bool)
    ensures
        r == has_text(s@, pat@),
{
    let cs = chars_of(s);
    let ps = chars_of(pat);
    for i in 0..cs.len()
        invariant
            cs@ == s@,
            ps@ == pat@,
            forall|k: int| 0 <= k < i ==> !stands_at(s@, pat@, k),
    {
        if matches_from(&cs, &ps, i) {
            return true;
        }
    }
    let last = matches_from(&cs, &ps, cs.len());
    proof {
        if !last {
            assert forall|k: int| !stands_at(s@, pat@, k) by {
                if k == cs@.len() {
                } else if k > cs@.len() {
                    assert(k + pat@.len() > s@.len());
                }
            }
        }
    }
    last
}

/// Whether `s` begins with `pat`.
pub fn starts_with(s: &str, pat: &str) -> (r: bool)
    ensures
        r == begins_with(s@, pat@),
{
    let cs = chars_of(s);
    let ps = chars_of(pat);
    matches_from(&cs, &ps, 0)
}

/// Whether `s` ends with `pat`.
pub fn ends_with(s: &str, pat: &str) -> (r: bool)
    ensures
        r == finishes_with(s@, pat@),
{
    let cs = chars_of(s);
    let ps = chars_of(pat);
    if ps.len() > cs.len() {
        return false;
    }
    matches_from(&cs, &ps, cs.len() - ps.len())
}

/// What follows `pat` at the start of `s`.
pub fn strip_prefix<'a>(s: &'a str, pat: &str) -> (r: Option<&'a str>)
    ensures
        match r {
            Some(t) => after_prefix(s@, pat@) == Some(t@),
            None => after_prefix(s@, pat@) is None,
        },
{
    let cs = chars_of(s);
    let ps = chars_of(pat);
    if matches_from(&cs, &ps, 0) {
        proof {
            assert(s@.subrange(ps@.len() as int, cs@.len() as int) == s@.skip(pat@.len() as int));
        }
        Some(s.substring_char(ps.len(), cs.len()))
    } else {
        None
    }
}

/// What precedes and what follows the first `sep` in `s`.
pub open spec fn halves(s: Seq<char>, sep: char) -> Option<(Seq<char>, Seq<char>)>
    decreases s.len(),
{
    if s.len() == 0 {
        None
    } else if s[0] == sep {
        Some((Seq::empty(), s.drop_first()))
    } else {
        match halves(s.drop_first(), sep) {
            Some((a, b)) => Some((seq![s[0]] + a, b)),
            None => None,
        }
    }
}

/// `halves` cuts at the first separator, and finds one exactly when there is one.
pub proof fn lemma_halves(s: Seq<char>, sep: char)
    ensures
        halves(s, sep) is Some <==> s.contains(sep),
        halves(s, sep) matches Some((a, b)) ==> s == a + seq![sep] + b && !a.contains(sep),
    decreases s.len(),
{
    if s.len() > 0 {
        let t = s.drop_first();
        lemma_halves(t, sep);
        if s[0] == sep {
            assert(s.contains(sep));
            assert(s == Seq::<char>::empty() + seq![sep] + t);
        } else {
            if t.contains(sep) {
                let i = choose|i: int| 0 <= i < t.len() && t[i] == sep;
                assert(s[i + 1] == sep);
                assert(s.contains(sep));
            }
            if s.contains(sep) {
                let i = choose|i: int| 0 <= i < s.len() && s[i] == sep;
                assert(t[i - 1] == sep);
                assert(t.contains(sep));
            }
            if let Some((a, b)) = halves(t, sep) {
                assert(s =~= seq![s[0]] + t);
                assert(s =~= seq![s[0]] + a + seq![sep] + b);
                let a2 = seq![s[0]] + a;
                assert forall|i: int| 0 <= i < a2.len() implies a2[i] != sep by {
                    if i > 0 {
                        assert(a2[i] == a[i - 1]);
                        assert(a.contains(a[i - 1]));
                    }
                }
            }
        }
    }
}

/// A cut at index `i` where the first separator stands is what `halves` gives.
pub proof fn lemma_halves_at(s: Seq<char>, sep: char, i: int)
    requires
        0 <= i < s.len(),
        s[i] == sep,
        forall|j: int| 0 <= j < i ==> s[j] != sep,
    ensures
        halves(s, sep) == Some((s.take(i), s.skip(i + 1))),
    decreases s.len(),
{
    let t = s.drop_first();
    if i == 0 {
        assert(s.take(0) =~= Seq::<char>::empty());
        assert(s.skip(1) =~= t);
    } else {
        lemma_halves_at(t, sep, i - 1);
        assert(seq![s[0]] + t.take(i - 1) =~= s.take(i));
        assert(t.skip(i) =~= s.skip(i + 1));
    }
}

/// What precedes and what follows the first `sep` in `s`.
pub fn split_once<'a>(s: &'a str, sep: char) -> (r: Option<(&'a str, &'a str)>)
    ensures
        match r {
            Some((a, b)) => halves(s@, sep) == Some((a@, b@)),
            None => halves(s@, sep) is None,
        },
{
    let cs = chars_of(s);
    for i in 0..cs.len()
        invariant
            cs@ == s@,
            forall|j: int| 0 <= j < i ==> s@[j] != sep,
    {
        if cs[i] == sep {
            proof {
                lemma_halves_at(s@, sep, i as int);
                assert(s@.subrange(0, i as int) == s@.take(i as int));
                assert(s@.subrange(i + 1, cs@.len() as int) == s@.skip(i + 1));
            }
            return Some((s.substring_char(0, i), s.substring_char(i + 1, cs.len())));
        }
    }
    proof {
        lemma_halves(s@, sep);
    }
    None
}

// ── Splitting ────────────────────────────────────────────────────────────────

/// The pieces of `s` between the separators `sep`.
pub open spec fn pieces(s: Seq<char>, sep: char) -> Seq<Seq<char>>
    decreases s.len(),
{
    if s.len() == 0 {
        seq![Seq::empty()]
    } else {
        let before = pieces(s.drop_last(), sep);
        if s.last() == sep {
            before.push(Seq::empty())
        } else {
            before.drop_last().push(before.last().push(s.last()))
        }
    }
}

/// The pieces of `s` between single white-space characters.
pub open spec fn space_pieces(s: Seq<char>) -> Seq<Seq<char>>
    decreases s.len(),
{
    if s.len() == 0 {
        seq![Seq::empty()]
    } else {
        let before = space_pieces(s.drop_last());
        if white_space(s.last()) {
            before.push(Seq::empty())
        } else {
            before.drop_last().push(before.last().push(s.last()))
        }
    }
}

/// Those of `ps` that are not empty, in order.
pub open spec fn non_empty(ps: Seq<Seq<char>>) -> Seq<Seq<char>>
    decreases ps.len(),
{
    if ps.len() == 0 {
        Seq::empty()
    } else if ps.last().len() > 0 {
        non_empty(ps.drop_last()).push(ps.last())
    } else {
        non_empty(ps.drop_last())
    }
}

/// The words of `s`: its maximal runs of characters that are not white space.
pub open spec fn words(s: Seq<char>) -> Seq<Seq<char>> {
    non_empty(space_pieces(s))
}

/// `s` without one trailing carriage return.
pub open spec fn without_cr(s: Seq<char>) -> Seq<char> {
    if s.len() > 0 && s.last() == '\r' {
        s.drop_last()
    } else {
        s
    }
}

/// The lines of `s`. A line ends in a line feed, which a carriage return may precede; what
/// follows the last line feed is a line of its own unless it is empty.
pub open spec fn lines(s: Seq<char>) -> Seq<Seq<char>> {
    let ps = pieces(s, '\n');
    let ended = ps.drop_last().map_values(|p: Seq<char>| without_cr(p));
    if ps.last().len() == 0 {
        ended
    } else {
        ended.push(ps.last())
    }
}

/// There is always at least one piece.
pub proof fn lemma_pieces_some(s: Seq<char>, sep: char)
    ensures
        pieces(s, sep).len() > 0,
    decreases s.len(),
{
    if s.len() > 0 {
        lemma_pieces_some(s.drop_last(), sep);
    }
}

proof fn lemma_space_pieces_some(s: Seq<char>)
    ensures
        space_pieces(s).len() > 0,
    decreases s.len(),
{
    if s.len() > 0 {
        lemma_space_pieces_some(s.drop_last());
    }
}

/// The pieces of `s` between the separators `sep`.
pub fn split_char(s: &str, sep: char) -> (r: Vec<String>)
    ensures
        texts(r@) == pieces(s@, sep),
{
    let cs = chars_of(s);
    let mut done: Vec<String> = Vec::new();
    let mut cur = String::new();
    proof {
        assert(cs@.take(0) == Seq::<char>::empty());
        assert(texts(done@).push(cur@) =~= pieces(cs@.take(0), sep));
    }
    for i in 0..cs.len()
        invariant
            cs@ == s@,
            texts(done@).push(cur@) == pieces(cs@.take(i as int), sep),
    {
        let ghost before = pieces(cs@.take(i as int), sep);
        proof {
            assert(cs@.take(i + 1).drop_last() == cs@.take(i as int));
            assert(before.drop_last() =~= texts(done@));
            assert(before.last() == cur@);
        }
        if cs[i] == sep {
            proof {
                lemma_texts_push(done@, cur);
            }
            done.push(cur);
            cur = String::new();
        } else {
            cur.push(cs[i]);
        }
    }
    proof {
        assert(cs@.take(cs@.len() as int) == s@);
        lemma_texts_push(done@, cur);
    }
    done.push(cur);
    done
}

/// The words of `s`: its maximal runs of characters that are not white space.
pub fn split_words(s: &str) -> (r: Vec<String>)
    ensures
        texts(r@) == words(s@),
{
    let cs = chars_of(s);
    let mut done: Vec<String> = Vec::new();
    let mut cur = String::new();
    proof {
        assert(cs@.take(0) == Seq::<char>::empty());
        let ps = space_pieces(cs@.take(0));
        assert(ps.drop_last() =~= Seq::<Seq<char>>::empty());
        assert(texts(done@) =~= non_empty(ps.drop_last()));
        assert(cur@ =~= ps.last());
    }
    for i in 0..cs.len()
        invariant
            cs@ == s@,
            texts(done@) == non_empty(space_pieces(cs@.take(i as int)).drop_last()),
            cur@ == space_pieces(cs@.take(i as int)).last(),
    {
        let ghost before = space_pieces(cs@.take(i as int));
        proof {
            lemma_space_pieces_some(cs@.take(i as int));
            assert(cs@.take(i + 1).drop_last() == cs@.take(i as int));
        }
        if is_white_space(cs[i]) {
            proof {
                lemma_texts_push(done@, cur);
                assert(before.push(Seq::empty()).drop_last() =~= before);
            }
            if !cur.as_str().is_empty() {
                done.push(cur);
            }
            cur = String::new();
        } else {
            cur.push(cs[i]);
            proof {
                let after = before.drop_last().push(before.last().push(cs@[i as int]));
                assert(after.drop_last() =~= before.drop_last());
            }
        }
    }
    proof {
        assert(cs@.take(cs@.len() as int) == s@);
        lemma_texts_push(done@, cur);
        lemma_space_pieces_some(s@);
    }
    if !cur.as_str().is_empty() {
        done.push(cur);
    }
    done
}

/// `s` without one trailing carriage return.
fn strip_cr(s: &String) -> (r: String)
    ensures
        r@ == without_cr(s@),
{
    let cs = chars_of(s.as_str());
    if cs.len() > 0 && cs[cs.len() - 1] == '\r' {
        proof {
            assert(s@.subrange(0, cs@.len() - 1) == s@.drop_last());
        }
        s.as_str().substring_char(0, cs.len() - 1).to_owned()
    } else {
        s.clone()
    }
}

/// The lines of `s`. A line ends in a line feed, which a carriage return may precede; what
/// follows the last line feed is a line of its own unless it is empty.
pub fn split_lines(s: &str) -> (r: Vec<String>)
    ensures
        texts(r@) == lines(s@),
{
    let ps = split_char(s, '\n');
    let ghost all = pieces(s@, '\n');
    let ghost ended = all.drop_last().map_values(|p: Seq<char>| without_cr(p));
    proof {
        lemma_pieces_some(s@, '\n');
        assert(texts(ps@).len() == ps@.len());
    }
    let mut out: Vec<String> = Vec::new();
    let last: usize = ps.len() - 1;
    for i in 0..last
        invariant
            last == ps@.len() - 1,
            texts(ps@) == all,
            ended == all.drop_last().map_values(|p: Seq<char>| without_cr(p)),
            texts(out@) == ended.take(i as int),
    {
        let line = strip_cr(&ps[i]);
        proof {
            lemma_texts_push(out@, line);
            assert(all[i as int] == ps@[i as int]@);
            assert(ended.take(i + 1) =~= ended.take(i as int).push(ended[i as int]));
        }
        out.push(line);
    }
    proof {
        assert(ended.take(last as int) =~= ended);
        assert(all.last() == ps@[last as int]@);
    }
    if !ps[last].as_str().is_empty() {
        proof {
            lemma_texts_push(out@, ps@[last as int]);
        }
        out.push(ps[last].clone());
    }
    out
}

// ── Lists without repetition ─────────────────────────────────────────────────

/// Those of `names` that did not occur before, in order.
pub open spec fn first_occurrences(names: Seq<Seq<char>>) -> Seq<Seq<char>>
    decreases names.len(),
{
    if names.len() == 0 {
        Seq::empty()
    } else {
        let before = first_occurrences(names.drop_last());
        if before.contains(names.last()) {
            before
        } else {
            before.push(names.last())
        }
    }
}

/// Whether `list` holds `text`.
pub fn holds_text(list: &Vec<String>, text: &str) -> (r: bool)
    ensures
        r == texts(list@).contains(text@),
{
    for i in 0..list.len()
        invariant
            forall|j: int| 0 <= j < i ==> texts(list@)[j] != text@,
    {
        if same_text(list[i].as_str(), text) {
            proof {
                assert(texts(list@)[i as int] == text@);
            }
            return true;
        }
    }
    false
}

/// Appends `text` to `list`, unless the list holds it already.
pub fn push_new(list: &mut Vec<String>, text: &str)
    ensures
        texts(final(list)@) == (if texts(old(list)@).contains(text@) {
            texts(old(list)@)
        } else {
            texts(old(list)@).push(text@)
        }),
{
    if !holds_text(list, text) {
        let owned = text.to_owned();
        proof {
            lemma_texts_push(list@, owned);
        }
        list.push(owned);
    }
}

/// First occurrences hold nothing twice, and hold what the whole holds.
pub proof fn lemma_first_occurrences_distinct(names: Seq<Seq<char>>)
    ensures
        first_occurrences(names).no_duplicates(),
        forall|n: Seq<char>| first_occurrences(names).contains(n) <==> names.contains(n),
    decreases names.len(),
{
    if names.len() > 0 {
        let most = names.drop_last();
        let before = first_occurrences(most);
        lemma_first_occurrences_distinct(most);
        let after = first_occurrences(names);
        assert forall|n: Seq<char>| after.contains(n) <==> names.contains(n) by {
            if after.contains(n) {
                let i = choose|i: int| 0 <= i < after.len() && after[i] == n;
                if i < before.len() {
                    assert(before[i] == n);
                    assert(before.contains(n));
                    assert(most.contains(n));
                    let j = choose|j: int| 0 <= j < most.len() && most[j] == n;
                    assert(names[j] == n);
                } else {
                    assert(names[names.len() - 1] == n);
                }
            }
            if names.contains(n) {
                let j = choose|j: int| 0 <= j < names.len() && names[j] == n;
                if j < most.len() {
                    assert(most[j] == n);
                    assert(most.contains(n));
                    assert(before.contains(n));
                    let i = choose|i: int| 0 <= i < before.len() && before[i] == n;
                    assert(after[i] == n);
                } else if !before.contains(n) {
                    assert(after[before.len() as int] == n);
                } else {
                    let i = choose|i: int| 0 <= i < before.len() && before[i] == n;
                    assert(after[i] == n);
                }
            }
        }
    }
}

// ── Building ─────────────────────────────────────────────────────────────────

/// `parts` in order, with `sep` between each two.
pub open spec fn joined(parts: Seq<Seq<char>>, sep: Seq<char>) -> Seq<char>
    decreases parts.len(),
{
    if parts.len() == 0 {
        Seq::empty()
    } else if parts.len() == 1 {
        parts[0]
    } else {
        joined(parts.drop_last(), sep) + sep + parts.last()
    }
}

/// `s` with every `from` replaced by `to`.
pub open spec fn replaced(s: Seq<char>, from: char, to: Seq<char>) -> Seq<char>
    decreases s.len(),
{
    if s.len() == 0 {
        Seq::empty()
    } else if s.last() == from {
        replaced(s.drop_last(), from, to) + to
    } else {
        replaced(s.drop_last(), from, to).push(s.last())
    }
}

/// What is replaced by a text that does not hold it is gone.
pub proof fn lemma_replaced_is_gone(s: Seq<char>, from: char, to: Seq<char>)
    requires
        !to.contains(from),
    ensures
        !replaced(s, from, to).contains(from),
    decreases s.len(),
{
    if s.len() > 0 {
        lemma_replaced_is_gone(s.drop_last(), from, to);
        let rest = replaced(s.drop_last(), from, to);
        let all = replaced(s, from, to);
        assert forall|i: int| 0 <= i < all.len() implies #[trigger] all[i] != from by {
            if i < rest.len() {
                assert(rest.contains(rest[i]));
            } else if s.last() == from {
                assert(to.contains(to[i - rest.len()]));
            }
        }
    }
}

/// A text without the character stays as it is.
pub proof fn lemma_nothing_replaced(s: Seq<char>, from: char, to: Seq<char>)
    requires
        !s.contains(from),
    ensures
        replaced(s, from, to) == s,
    decreases s.len(),
{
    if s.len() > 0 {
        let t = s.drop_last();
        if t.contains(from) {
            let i = choose|i: int| 0 <= i < t.len() && t[i] == from;
            assert(s[i] == from);
        }
        lemma_nothing_replaced(t, from, to);
        assert(s[s.len() - 1] == s.last());
        assert(s =~= t.push(s.last()));
    }
}

/// Replacing goes character by character: of two texts in a row, each is replaced on its own, and
/// the character itself becomes the other text.
pub proof fn lemma_replaced_piecewise(a: Seq<char>, b: Seq<char>, from: char, to: Seq<char>)
    ensures
        replaced(a + b, from, to) == replaced(a, from, to) + replaced(b, from, to),
        replaced(seq![from], from, to) == to,
    decreases b.len(),
{
    let none = Seq::<char>::empty();
    assert(seq![from].drop_last() =~= none);
    assert(replaced(none, from, to) =~= none);
    assert(none + to =~= to);
    if b.len() == 0 {
        assert(a + b =~= a);
        assert(replaced(a, from, to) + none =~= replaced(a, from, to));
    } else {
        lemma_replaced_piecewise(a, b.drop_last(), from, to);
        assert((a + b).drop_last() =~= a + b.drop_last());
        assert((a + b).last() == b.last());
        let x = replaced(a, from, to);
        let y = replaced(b.drop_last(), from, to);
        assert(x + y + to =~= x + (y + to));
        assert((x + y).push(b.last()) =~= x + y.push(b.last()));
    }
}

/// `s` with its ASCII capital letters in lower case.
pub open spec fn ascii_lower(s: Seq<char>) -> Seq<char> {
    s.map_values(
        |c: char|
            if 'A' <= c <= 'Z' {
                ((c as u32) + 32) as char
            } else {
                c
            },
    )
}

/// `parts` in order, with `sep` between each two.
pub fn join(parts: &Vec<String>, sep: &str) -> (r: String)
    ensures
        r@ == joined(texts(parts@), sep@),
{
    let ghost all = texts(parts@);
    let mut out = String::new();
    for i in 0..parts.len()
        invariant
            all == texts(parts@),
            out@ == joined(all.take(i as int), sep@),
    {
        proof {
            assert(all.take(i + 1).drop_last() =~= all.take(i as int));
            assert(all.take(i + 1).last() == parts@[i as int]@);
        }
        if i > 0 {
            out.append(sep);
            out.append(parts[i].as_str());
        } else {
            out.append(parts[i].as_str());
            proof {
                assert(out@ =~= parts@[0]@);
            }
        }
    }
    proof {
        assert(all.take(all.len() as int) =~= all);
    }
    out
}

/// `s` with every `from` replaced by `to`.
pub fn replace_char(s: &str, from: char, to: &str) -> (r: String)
    ensures
        r@ == replaced(s@, from, to@),
{
    let cs = chars_of(s);
    let mut out = String::new();
    for i in 0..cs.len()
        invariant
            cs@ == s@,
            out@ == replaced(cs@.take(i as int), from, to@),
    {
        proof {
            assert(cs@.take(i + 1).drop_last() == cs@.take(i as int));
        }
        if cs[i] == from {
            out.append(to);
        } else {
            out.push(cs[i]);
        }
    }
    proof {
        assert(cs@.take(cs@.len() as int) == s@);
    }
    out
}

/// `n` copies of `s`, one after the other.
pub open spec fn repeated(s: Seq<char>, n: nat) -> Seq<char>
    decreases n,
{
    if n == 0 {
        Seq::empty()
    } else {
        repeated(s, (n - 1) as nat) + s
    }
}

/// `n` copies of `s`, one after the other.
pub fn repeat(s: &str, n: usize) -> (r: String)
    ensures
        r@ == repeated(s@, n as nat),
{
    let mut out = String::new();
    for i in 0..n
        invariant
            out@ == repeated(s@, i as nat),
    {
        out.append(s);
    }
    out
}

/// `a` followed by `b`.
pub fn cat2(a: &str, b: &str) -> (r: String)
    ensures
        r@ == a@ + b@,
{
    let mut out = a.to_owned();
    out.append(b);
    out
}

/// `a`, `b` and `c`, one after the other.
pub fn cat3(a: &str, b: &str, c: &str) -> (r: String)
    ensures
        r@ == a@ + b@ + c@,
{
    let mut out = cat2(a, b);
    out.append(c);
    out
}

/// `a`, `b`, `c` and `d`, one after the other.
pub fn cat4(a: &str, b: &str, c: &str, d: &str) -> (r: String)
    ensures
        r@ == a@ + b@ + c@ + d@,
{
    let mut out = cat3(a, b, c);
    out.append(d);
    out
}

/// `a`, `b`, `c`, `d` and `e`, one after the other.
pub fn cat5(a: &str, b: &str, c: &str, d: &str, e: &str) -> (r: String)
    ensures
        r@ == a@ + b@ + c@ + d@ + e@,
{
    let mut out = cat4(a, b, c, d);
    out.append(e);
    out
}

/// The number of characters of `s`.
pub fn char_count(s: &str) -> (r: usize)
    ensures
        r == s@.len(),
{
    s.unicode_len()
}

} // verus!
