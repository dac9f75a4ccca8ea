//! What cutting, trimming and joining texts comes to, in terms of the texts alone.

use vstd::prelude::*;
use vstd::string::*;

use crate::chars::{
    blank, joined, lemma_pieces_some, lines, non_empty, pieces, repeated, space_pieces, trimmed,
    trimmed_end, trimmed_start, white_space, without_cr, words,
};
use crate::order::text_before;

verus! {

/// Whether `s` is white space throughout.
pub open spec fn all_white(s: Seq<char>) -> bool {
    forall|i: int| 0 <= i < s.len() ==> white_space(#[trigger] s[i])
}

/// Whether `s` holds no white space.
pub open spec fn solid(s: Seq<char>) -> bool {
    forall|i: int| 0 <= i < s.len() ==> !white_space(#[trigger] s[i])
}

/// What is left out before a text is white space.
proof fn lemma_trimmed_start(s: Seq<char>)
    ensures
        trimmed_start(s).len() <= s.len(),
        s == s.take(s.len() - trimmed_start(s).len()) + trimmed_start(s),
        all_white(s.take(s.len() - trimmed_start(s).len())),
        trimmed_start(s).len() > 0 ==> !white_space(trimmed_start(s)[0]),
    decreases s.len(),
{
    if s.len() > 0 && white_space(s[0]) {
        let t = s.drop_first();
        lemma_trimmed_start(t);
        let n = s.len() - trimmed_start(s).len();
        assert(s.take(n) =~= seq![s[0]] + t.take(n - 1));
        assert forall|i: int| 0 <= i < s.take(n).len() implies white_space(
            #[trigger] s.take(n)[i],
        ) by {
            if i > 0 {
                assert(s.take(n)[i] == t.take(n - 1)[i - 1]);
            }
        }
        assert(s =~= seq![s[0]] + t);
        assert(s =~= s.take(n) + trimmed_start(s));
    } else {
        assert(s =~= s.take(0) + s);
    }
}

/// What is left out behind a text is white space.
proof fn lemma_trimmed_end(s: Seq<char>)
    ensures
        trimmed_end(s).len() <= s.len(),
        s == trimmed_end(s) + s.skip(trimmed_end(s).len() as int),
        all_white(s.skip(trimmed_end(s).len() as int)),
        trimmed_end(s).len() > 0 ==> !white_space(trimmed_end(s).last()),
    decreases s.len(),
{
    let n = trimmed_end(s).len() as int;
    if s.len() > 0 && white_space(s.last()) {
        let t = s.drop_last();
        lemma_trimmed_end(t);
        assert(s.skip(n) =~= t.skip(n).push(s.last()));
        assert(s =~= t.push(s.last()));
        assert(s =~= trimmed_end(t) + t.skip(n).push(s.last()));
    } else {
        assert(s =~= s + s.skip(n));
    }
}

/// Trimming leaves out white space on either side, and nothing else; what is left neither starts nor
/// ends with any.
pub proof fn lemma_trimming_takes_white_space_off(s: Seq<char>)
    ensures
        exists|a: Seq<char>, b: Seq<char>|
            s == #[trigger] (a + trimmed(s) + b) && all_white(a) && all_white(b),
        trimmed(s).len() > 0 ==> !white_space(trimmed(s)[0]) && !white_space(trimmed(s).last()),
        blank(s) <==> all_white(s),
{
    let t = trimmed_start(s);
    lemma_trimmed_start(s);
    lemma_trimmed_end(t);
    let a = s.take(s.len() - t.len());
    let b = t.skip(trimmed(s).len() as int);
    assert(s =~= a + trimmed(s) + b);
    if trimmed(s).len() > 0 {
        assert(t[0] == trimmed(s)[0]);
        assert(s[a.len() as int] == trimmed(s)[0]);
    } else {
        assert forall|i: int| 0 <= i < s.len() implies white_space(#[trigger] s[i]) by {
            if i < a.len() {
                assert(s[i] == a[i]);
            } else {
                assert(s[i] == b[i - a.len()]);
            }
        }
    }
}

/// Cutting goes at every separator: the pieces of two texts with one between them are the pieces of
/// the one and those of the other.
pub proof fn lemma_pieces_of_both(a: Seq<char>, b: Seq<char>, sep: char)
    ensures
        pieces(a + seq![sep] + b, sep) == pieces(a, sep) + pieces(b, sep),
    decreases b.len(),
{
    let s = a + seq![sep] + b;
    lemma_pieces_some(b, sep);
    if b.len() == 0 {
        assert(s.drop_last() =~= a);
        assert(s.last() == sep);
        assert(pieces(b, sep) =~= seq![Seq::<char>::empty()]);
        assert(pieces(s, sep) =~= pieces(a, sep) + pieces(b, sep));
    } else {
        let c = b.drop_last();
        lemma_pieces_of_both(a, c, sep);
        lemma_pieces_some(c, sep);
        assert(s.drop_last() =~= a + seq![sep] + c);
        assert(s.last() == b.last());
        let before = pieces(a, sep) + pieces(c, sep);
        assert(before.last() == pieces(c, sep).last());
        assert(before.drop_last() =~= pieces(a, sep) + pieces(c, sep).drop_last());
        assert(pieces(s, sep) =~= pieces(a, sep) + pieces(b, sep));
    }
}

/// A text without the separator is one piece, and no piece holds it.
pub proof fn lemma_pieces_hold_no_separator(s: Seq<char>, sep: char)
    ensures
        !s.contains(sep) ==> pieces(s, sep) == seq![s],
        forall|i: int| 0 <= i < pieces(s, sep).len() ==> !(#[trigger] pieces(s, sep)[i]).contains(sep),
    decreases s.len(),
{
    if s.len() > 0 {
        let t = s.drop_last();
        lemma_pieces_hold_no_separator(t, sep);
        lemma_pieces_some(t, sep);
        let before = pieces(t, sep);
        if !s.contains(sep) {
            assert(s[s.len() - 1] != sep);
            assert forall|i: int| 0 <= i < t.len() implies t[i] != sep by {
                assert(t[i] == s[i]);
            }
            assert(!t.contains(sep));
            assert(t.push(s.last()) =~= s);
            assert(seq![t].drop_last().push(s) =~= seq![s]);
        }
        assert forall|i: int| 0 <= i < pieces(s, sep).len() implies !(#[trigger] pieces(
            s,
            sep,
        )[i]).contains(sep) by {
            let p = pieces(s, sep)[i];
            if s.last() != sep && i == before.len() - 1 {
                let q = before[i];
                assert(p == q.push(s.last()));
                if p.contains(sep) {
                    let k = choose|k: int| 0 <= k < p.len() && p[k] == sep;
                    assert(k < q.len());
                    assert(q[k] == sep);
                }
            } else if i < before.len() {
                assert(p == before[i]);
            }
        }
    } else {
        assert(s =~= Seq::<char>::empty());
    }
}

/// The pieces with the separators between them are the text again.
pub proof fn lemma_pieces_make_the_whole(s: Seq<char>, sep: char)
    ensures
        joined(pieces(s, sep), seq![sep]) == s,
    decreases s.len(),
{
    if s.len() > 0 {
        let t = s.drop_last();
        lemma_pieces_make_the_whole(t, sep);
        lemma_pieces_some(t, sep);
        let before = pieces(t, sep);
        assert(t.push(s.last()) =~= s);
        if s.last() == sep {
            assert(pieces(s, sep).drop_last() =~= before);
            assert(joined(pieces(s, sep), seq![sep]) =~= t + seq![sep] + Seq::<char>::empty());
            assert(s =~= t + seq![sep]);
        } else {
            let now = before.drop_last().push(before.last().push(s.last()));
            assert(now.drop_last() =~= before.drop_last());
            if before.len() > 1 {
                let head = joined(before.drop_last(), seq![sep]) + seq![sep];
                assert(head + before.last().push(s.last()) =~= (head + before.last()).push(
                    s.last(),
                ));
            }
        }
    } else {
        assert(s =~= Seq::<char>::empty());
    }
}

/// A line feed ends a line, which may have a carriage return before it; what stands behind the last
/// is a line where there is something.
pub proof fn lemma_lines_end_in_line_feeds(line: Seq<char>, rest: Seq<char>)
    requires
        !line.contains('\n'),
    ensures
        lines(line + seq!['\n'] + rest) == seq![without_cr(line)] + lines(rest),
        line.len() > 0 ==> lines(line) == seq![line],
        lines(Seq::<char>::empty()) == Seq::<Seq<char>>::empty(),
        without_cr(line.push('\r')) == line,
        line.len() > 0 && line.last() != '\r' ==> without_cr(line) == line,
{
    lemma_pieces_of_both(line, rest, '\n');
    lemma_pieces_hold_no_separator(line, '\n');
    lemma_pieces_some(rest, '\n');
    let s = line + seq!['\n'] + rest;
    let ps = pieces(s, '\n');
    let rs = pieces(rest, '\n');
    assert(ps =~= seq![line] + rs);
    assert(ps.last() == rs.last());
    assert(ps.drop_last() =~= seq![line] + rs.drop_last());
    assert(ps.drop_last().map_values(|p: Seq<char>| without_cr(p)) =~= seq![without_cr(line)]
        + rs.drop_last().map_values(|p: Seq<char>| without_cr(p)));
    assert(lines(s) =~= seq![without_cr(line)] + lines(rest));
    if line.len() > 0 {
        assert(pieces(line, '\n').drop_last().map_values(|p: Seq<char>| without_cr(p))
            =~= Seq::<Seq<char>>::empty());
        assert(lines(line) =~= seq![line]);
    }
    assert(lines(Seq::<char>::empty()) =~= Seq::<Seq<char>>::empty());
    assert(line.push('\r').drop_last() =~= line);
}

/// Leaving out what is empty goes piece by piece.
proof fn lemma_non_empty_of_both(a: Seq<Seq<char>>, b: Seq<Seq<char>>)
    ensures
        non_empty(a + b) == non_empty(a) + non_empty(b),
    decreases b.len(),
{
    if b.len() == 0 {
        assert(a + b =~= a);
        assert(non_empty(a) + non_empty(b) =~= non_empty(a));
    } else {
        lemma_non_empty_of_both(a, b.drop_last());
        assert((a + b).drop_last() =~= a + b.drop_last());
        assert((a + b).last() == b.last());
        assert(non_empty(a + b) =~= non_empty(a) + non_empty(b));
    }
}

/// There is always a piece between white space.
proof fn lemma_some_space_piece(s: Seq<char>)
    ensures
        space_pieces(s).len() > 0,
    decreases s.len(),
{
    if s.len() > 0 {
        lemma_some_space_piece(s.drop_last());
    }
}

/// Cutting at white space goes at every such character.
proof fn lemma_space_pieces_of_both(a: Seq<char>, c: char, b: Seq<char>)
    requires
        white_space(c),
    ensures
        space_pieces(a + seq![c] + b) == space_pieces(a) + space_pieces(b),
    decreases b.len(),
{
    let s = a + seq![c] + b;
    lemma_some_space_piece(b);
    if b.len() == 0 {
        assert(s.drop_last() =~= a);
        assert(s.last() == c);
        assert(space_pieces(b) =~= seq![Seq::<char>::empty()]);
        assert(space_pieces(s) =~= space_pieces(a) + space_pieces(b));
    } else {
        let d = b.drop_last();
        lemma_space_pieces_of_both(a, c, d);
        lemma_some_space_piece(d);
        assert(s.drop_last() =~= a + seq![c] + d);
        assert(s.last() == b.last());
        let before = space_pieces(a) + space_pieces(d);
        assert(before.last() == space_pieces(d).last());
        assert(before.drop_last() =~= space_pieces(a) + space_pieces(d).drop_last());
        assert(space_pieces(s) =~= space_pieces(a) + space_pieces(b));
    }
}

/// A text without white space is one piece.
proof fn lemma_solid_is_one_piece(s: Seq<char>)
    requires
        solid(s),
    ensures
        space_pieces(s) == seq![s],
    decreases s.len(),
{
    if s.len() > 0 {
        let t = s.drop_last();
        assert forall|i: int| 0 <= i < t.len() implies !white_space(#[trigger] t[i]) by {
            assert(t[i] == s[i]);
        }
        lemma_solid_is_one_piece(t);
        assert(!white_space(s[s.len() - 1]));
        assert(t.push(s.last()) =~= s);
        assert(seq![t].drop_last().push(s) =~= seq![s]);
    } else {
        assert(s =~= Seq::<char>::empty());
    }
}

/// White space parts words, however much there is of it, and what holds none is one word.
pub proof fn lemma_words_stand_between_white_space(a: Seq<char>, c: char, b: Seq<char>)
    requires
        white_space(c),
    ensures
        words(a + seq![c] + b) == words(a) + words(b),
        solid(a) && a.len() > 0 ==> words(a) == seq![a],
        words(Seq::<char>::empty()) == Seq::<Seq<char>>::empty(),
{
    lemma_space_pieces_of_both(a, c, b);
    lemma_non_empty_of_both(space_pieces(a), space_pieces(b));
    reveal_with_fuel(non_empty, 3);
    if solid(a) && a.len() > 0 {
        lemma_solid_is_one_piece(a);
        assert(seq![a].drop_last() =~= Seq::<Seq<char>>::empty());
        assert(words(a) =~= seq![a]);
    }
    let none = seq![Seq::<char>::empty()];
    assert(space_pieces(Seq::<char>::empty()) =~= none);
    assert(none.drop_last() =~= Seq::<Seq<char>>::empty());
}

/// Texts are joined with the separator between each two, and none at either end.
pub proof fn lemma_joined_has_separators_between(
    parts: Seq<Seq<char>>,
    last: Seq<char>,
    sep: Seq<char>,
)
    ensures
        joined(seq![last], sep) == last,
        parts.len() > 0 ==> joined(parts.push(last), sep) == joined(parts, sep) + sep + last,
        joined(Seq::<Seq<char>>::empty(), sep).len() == 0,
{
    assert(parts.push(last).drop_last() =~= parts);
}

/// A text comes before another where it is a beginning of it, or has the smaller character where the
/// two first differ.
pub proof fn lemma_order_goes_by_first_difference(
    same: Seq<char>,
    a: Seq<char>,
    b: Seq<char>,
)
    ensures
        a.len() == 0 && b.len() > 0 ==> text_before(same + a, same + b),
        a.len() > 0 && b.len() > 0 && (a[0] as u32) < (b[0] as u32) ==> text_before(
            same + a,
            same + b,
        ),
        a.len() > 0 && b.len() > 0 && (b[0] as u32) < (a[0] as u32) ==> !text_before(
            same + a,
            same + b,
        ),
        b.len() == 0 ==> !text_before(same + a, same + b),
    decreases same.len(),
{
    if same.len() == 0 {
        assert(same + a =~= a);
        assert(same + b =~= b);
    } else {
        lemma_order_goes_by_first_difference(same.drop_first(), a, b);
        assert((same + a).drop_first() =~= same.drop_first() + a);
        assert((same + b).drop_first() =~= same.drop_first() + b);
    }
}

/// Copies have the text at every multiple of its length.
pub proof fn lemma_repeated_length(s: Seq<char>, n: nat)
    ensures
        repeated(s, n).len() == n * s.len(),
        n > 0 ==> s.is_suffix_of(repeated(s, n)),
    decreases n,
{
    if n > 0 {
        lemma_repeated_length(s, (n - 1) as nat);
        assert(n * s.len() == (n - 1) * s.len() + s.len()) by (nonlinear_arith)
            requires
                n > 0,
        ;
        let r = repeated(s, n);
        assert(r.subrange(r.len() - s.len(), r.len() as int) =~= s);
    } else {
        assert(0 * s.len() == 0) by (nonlinear_arith);
    }
}

} // verus!
