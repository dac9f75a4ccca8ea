//! The order of texts, and sorting that keeps equals in place.

use vstd::prelude::*;
use vstd::string::*;

use crate::chars::chars_of;

verus! {

// ── Texts ────────────────────────────────────────────────────────────────────

/// Whether `a` comes before `b` in the order of their code points.
pub open spec fn text_before(a: Seq<char>, b: Seq<char>) -> bool
    decreases a.len(),
{
    if b.len() == 0 {
        false
    } else if a.len() == 0 {
        true
    } else if a[0] != b[0] {
        (a[0] as u32) < (b[0] as u32)
    } else {
        text_before(a.drop_first(), b.drop_first())
    }
}

/// Whether `a` comes before `b` in the order of their code points.
pub fn comes_before(a: &str, b: &str) -> (r: bool)
    ensures
        r == text_before(a@, b@),
{
    let x = chars_of(a);
    let y = chars_of(b);
    let n = x.len();
    let m = y.len();
    let mut i: usize = 0;
    proof {
        assert(a@.skip(0) =~= a@);
        assert(b@.skip(0) =~= b@);
    }
    while i < n && i < m
        invariant
            x@ == a@,
            y@ == b@,
            n == x@.len(),
            m == y@.len(),
            i <= n,
            i <= m,
            text_before(a@, b@) == text_before(a@.skip(i as int), b@.skip(i as int)),
        decreases n - i,
    {
        proof {
            assert(a@.skip(i as int)[0] == a@[i as int]);
            assert(b@.skip(i as int)[0] == b@[i as int]);
            assert(a@.skip(i as int).drop_first() =~= a@.skip(i + 1));
            assert(b@.skip(i as int).drop_first() =~= b@.skip(i + 1));
        }
        if x[i] != y[i] {
            return (x[i] as u32) < (y[i] as u32);
        }
        i = i + 1;
    }
    i < m
}

/// No text comes before itself, and of two texts at most one comes before the other.
pub proof fn lemma_text_order_antisymmetric(a: Seq<char>, b: Seq<char>)
    ensures
        !(text_before(a, b) && text_before(b, a)),
        !text_before(a, a),
    decreases a.len(),
{
    if a.len() > 0 {
        if b.len() > 0 {
            lemma_text_order_antisymmetric(a.drop_first(), b.drop_first());
        } else {
            lemma_text_order_antisymmetric(a.drop_first(), b);
        }
    }
}

/// Of two texts that differ, one comes before the other.
pub proof fn lemma_text_order_total(a: Seq<char>, b: Seq<char>)
    ensures
        a == b || text_before(a, b) || text_before(b, a),
    decreases a.len(),
{
    if a.len() > 0 && b.len() > 0 {
        if a[0] == b[0] {
            lemma_text_order_total(a.drop_first(), b.drop_first());
            if a.drop_first() == b.drop_first() {
                assert(a =~= seq![a[0]] + a.drop_first());
                assert(b =~= seq![b[0]] + b.drop_first());
            }
        } else {
            lemma_codes_differ(a[0], b[0]);
        }
    } else if a.len() == 0 && b.len() == 0 {
        assert(a =~= b);
    }
}

/// Different characters have different codes.
proof fn lemma_codes_differ(a: char, b: char)
    requires
        a != b,
    ensures
        (a as u32) != (b as u32),
{
}

/// What comes before a text comes before all that the text comes before.
pub proof fn lemma_text_order_transitive(a: Seq<char>, b: Seq<char>, c: Seq<char>)
    requires
        text_before(a, b),
        text_before(b, c),
    ensures
        text_before(a, c),
    decreases a.len(),
{
    if a.len() > 0 && b.len() > 0 && c.len() > 0 {
        if a[0] == b[0] && b[0] == c[0] {
            lemma_text_order_transitive(a.drop_first(), b.drop_first(), c.drop_first());
        }
    }
}

// ── Sorting ──────────────────────────────────────────────────────────────────

/// `s` with `x` put behind the last element that it does not come before.
pub open spec fn inserted<T>(s: Seq<T>, x: T, before: spec_fn(T, T) -> bool) -> Seq<T>
    decreases s.len(),
{
    if s.len() == 0 || !before(x, s.last()) {
        s.push(x)
    } else {
        inserted(s.drop_last(), x, before).push(s.last())
    }
}

/// The elements of `s` in order, those of equal rank as they stood.
pub open spec fn sorted<T>(s: Seq<T>, before: spec_fn(T, T) -> bool) -> Seq<T>
    decreases s.len(),
{
    if s.len() == 0 {
        s
    } else {
        inserted(sorted(s.drop_last(), before), s.last(), before)
    }
}

/// Types whose values are sorted by a rule.
pub trait Ranked: View + Sized {
    /// What decides which of two values comes first.
    type Rule;

    /// Whether `a` comes before `b`.
    spec fn before(rule: Self::Rule, a: Self::V, b: Self::V) -> bool;

    /// Whether `a` comes before `b`.
    fn is_before(rule: &Self::Rule, a: &Self, b: &Self) -> (r: bool)
        ensures
            r == Self::before(*rule, a@, b@),
    ;
}

/// The views of the elements.
pub open spec fn views_of<T: View>(s: Seq<T>) -> Seq<T::V> {
    s.map_values(|x: T| x@)
}

/// The rule as a relation.
pub open spec fn by_rule<T: Ranked>(rule: T::Rule) -> spec_fn(T::V, T::V) -> bool {
    |a: T::V, b: T::V| T::before(rule, a, b)
}

/// Inserting is putting an element at the place found from the end.
proof fn lemma_inserted_at<T>(s: Seq<T>, x: T, before: spec_fn(T, T) -> bool, j: int)
    requires
        0 <= j <= s.len(),
        forall|k: int| j <= k < s.len() ==> before(x, #[trigger] s[k]),
        j > 0 ==> !before(x, s[j - 1]),
    ensures
        inserted(s, x, before) == s.insert(j, x),
    decreases s.len(),
{
    if s.len() == j {
        assert(s.insert(j, x) =~= s.push(x));
        if s.len() > 0 {
            assert(s.last() == s[j - 1]);
        }
    } else {
        let t = s.drop_last();
        assert(before(x, s[s.len() - 1]));
        assert forall|k: int| j <= k < t.len() implies before(x, #[trigger] t[k]) by {
            assert(t[k] == s[k]);
        }
        lemma_inserted_at(t, x, before, j);
        assert(t.insert(j, x).push(s.last()) =~= s.insert(j, x));
    }
}

/// Sorts `v` by `rule`, keeping elements of equal rank as they stand.
pub fn sort_by<T: Ranked>(v: &mut Vec<T>, rule: &T::Rule)
    ensures
        views_of(final(v)@) == sorted(views_of(old(v)@), by_rule::<T>(*rule)),
{
    let n = v.len();
    let ghost start = v@;
    let ghost before = by_rule::<T>(*rule);
    for i in 0..n
        invariant
            n == v@.len(),
            n == start.len(),
            before == by_rule::<T>(*rule),
            views_of(v@).take(i as int) == sorted(views_of(start).take(i as int), before),
            forall|k: int| i <= k < n ==> v@[k] == start[k],
    {
        let ghost old_v = v@;
        let x = v.remove(i);
        let mut j: usize = i;
        let ghost head = views_of(old_v).take(i as int);
        while j > 0 && T::is_before(rule, &x, &v[j - 1])
            invariant
                j <= i,
                i < n,
                v@.len() == n - 1,
                v@ == old_v.remove(i as int),
                n == old_v.len(),
                x == old_v[i as int],
                head == views_of(old_v).take(i as int),
                before == by_rule::<T>(*rule),
                forall|k: int| j <= k < i ==> before(x@, #[trigger] head[k]),
            decreases j,
        {
            proof {
                assert(v@[j - 1] == old_v[j - 1]);
                assert(head[j - 1] == v@[j - 1]@);
            }
            j = j - 1;
        }
        proof {
            if j > 0 {
                assert(v@[j - 1] == old_v[j - 1]);
                assert(head[j - 1] == v@[j - 1]@);
            }
            lemma_inserted_at(head, x@, before, j as int);
        }
        v.insert(j, x);
        proof {
            let whole = views_of(start).take(i + 1);
            assert(whole.drop_last() =~= views_of(start).take(i as int));
            assert(whole.last() == x@);
            assert(views_of(v@).take(i + 1) =~= head.insert(j as int, x@));
        }
    }
    proof {
        assert(views_of(v@).take(n as int) =~= views_of(v@));
        assert(views_of(start).take(n as int) =~= views_of(start));
    }
}

// ── What sorting does ────────────────────────────────────────────────────────

/// A relation that ranks: nothing comes before itself, and both coming before and not coming
/// before carry over.
pub open spec fn ranks<T>(before: spec_fn(T, T) -> bool) -> bool {
    &&& forall|a: T| !#[trigger] before(a, a)
    &&& forall|a: T, b: T, c: T| #[trigger]
        before(a, b) && #[trigger] before(b, c) ==> before(a, c)
    &&& forall|a: T, b: T, c: T|
        !#[trigger] before(a, b) && !#[trigger] before(b, c) ==> !before(a, c)
}

/// Whether no element comes before one that stands ahead of it.
pub open spec fn in_order<T>(s: Seq<T>, before: spec_fn(T, T) -> bool) -> bool {
    forall|i: int, j: int| 0 <= i < j < s.len() ==> !before(#[trigger] s[j], #[trigger] s[i])
}

/// Inserting adds one element to the others.
proof fn lemma_inserted_holds<T>(s: Seq<T>, x: T, before: spec_fn(T, T) -> bool)
    ensures
        inserted(s, x, before).to_multiset() == s.to_multiset().insert(x),
        inserted(s, x, before).len() == s.len() + 1,
    decreases s.len(),
{
    broadcast use vstd::seq_lib::group_to_multiset_ensures;

    if s.len() > 0 && before(x, s.last()) {
        let t = s.drop_last();
        lemma_inserted_holds(t, x, before);
        assert(s =~= t.push(s.last()));
        assert(inserted(s, x, before).to_multiset() =~= s.to_multiset().insert(x));
    } else {
        assert(inserted(s, x, before).to_multiset() =~= s.to_multiset().insert(x));
    }
}

/// Sorting loses nothing and adds nothing.
pub proof fn lemma_sorted_is_permutation<T>(s: Seq<T>, before: spec_fn(T, T) -> bool)
    ensures
        sorted(s, before).to_multiset() == s.to_multiset(),
        sorted(s, before).len() == s.len(),
    decreases s.len(),
{
    broadcast use vstd::seq_lib::group_to_multiset_ensures;

    if s.len() > 0 {
        let t = s.drop_last();
        lemma_sorted_is_permutation(t, before);
        lemma_inserted_holds(sorted(t, before), s.last(), before);
        assert(s =~= t.push(s.last()));
    }
}

/// An element of an inserted sequence was there, or is the new one.
proof fn lemma_inserted_elements<T>(s: Seq<T>, x: T, before: spec_fn(T, T) -> bool)
    ensures
        forall|i: int|
            0 <= i < inserted(s, x, before).len() ==> s.contains(
                #[trigger] inserted(s, x, before)[i],
            ) || inserted(s, x, before)[i] == x,
        inserted(s, x, before).len() == s.len() + 1,
    decreases s.len(),
{
    if s.len() > 0 && before(x, s.last()) {
        let t = s.drop_last();
        lemma_inserted_elements(t, x, before);
        assert forall|i: int| 0 <= i < inserted(s, x, before).len() implies s.contains(
            #[trigger] inserted(s, x, before)[i],
        ) || inserted(s, x, before)[i] == x by {
            if i < t.len() + 1 {
                let y = inserted(t, x, before)[i];
                if t.contains(y) {
                    let k = choose|k: int| 0 <= k < t.len() && t[k] == y;
                    assert(s[k] == y);
                }
            } else {
                assert(s[s.len() - 1] == s.last());
            }
        }
    } else {
        assert forall|i: int| 0 <= i < s.push(x).len() implies s.contains(#[trigger] s.push(x)[i])
            || s.push(x)[i] == x by {
            if i < s.len() {
                assert(s[i] == s.push(x)[i]);
            }
        }
    }
}

/// Inserting into a sequence in order keeps it in order.
proof fn lemma_inserted_in_order<T>(s: Seq<T>, x: T, before: spec_fn(T, T) -> bool)
    requires
        ranks(before),
        in_order(s, before),
    ensures
        in_order(inserted(s, x, before), before),
    decreases s.len(),
{
    if s.len() > 0 && before(x, s.last()) {
        let t = s.drop_last();
        assert forall|i: int, j: int| 0 <= i < j < t.len() implies !before(
            #[trigger] t[j],
            #[trigger] t[i],
        ) by {
            assert(t[i] == s[i] && t[j] == s[j]);
        }
        lemma_inserted_in_order(t, x, before);
        lemma_inserted_elements(t, x, before);
        let head = inserted(t, x, before);
        let z = s.last();
        assert forall|i: int, j: int| 0 <= i < j < head.push(z).len() implies !before(
            #[trigger] head.push(z)[j],
            #[trigger] head.push(z)[i],
        ) by {
            if j < head.len() {
                assert(!before(head[j], head[i]));
            } else {
                let y = head[i];
                if y == x {
                    if before(z, x) {
                        assert(before(z, z));
                    }
                } else {
                    assert(t.contains(y));
                    let k = choose|k: int| 0 <= k < t.len() && t[k] == y;
                    assert(s[k] == y && s[s.len() - 1] == z);
                    assert(!before(s[s.len() - 1], s[k]));
                }
            }
        }
    } else {
        assert forall|i: int, j: int| 0 <= i < j < s.push(x).len() implies !before(
            #[trigger] s.push(x)[j],
            #[trigger] s.push(x)[i],
        ) by {
            if j < s.len() {
                assert(!before(s[j], s[i]));
            } else {
                assert(!before(x, s.last()));
                if i < s.len() - 1 {
                    assert(!before(s[s.len() - 1], s[i]));
                }
            }
        }
    }
}

/// Sorting puts the elements in order.
pub proof fn lemma_sorted_is_in_order<T>(s: Seq<T>, before: spec_fn(T, T) -> bool)
    requires
        ranks(before),
    ensures
        in_order(sorted(s, before), before),
    decreases s.len(),
{
    if s.len() > 0 {
        lemma_sorted_is_in_order(s.drop_last(), before);
        lemma_inserted_in_order(sorted(s.drop_last(), before), s.last(), before);
    }
}

/// What is in order stays as it is.
pub proof fn lemma_sorted_keeps_order<T>(s: Seq<T>, before: spec_fn(T, T) -> bool)
    requires
        in_order(s, before),
    ensures
        sorted(s, before) == s,
    decreases s.len(),
{
    if s.len() > 0 {
        let t = s.drop_last();
        assert forall|i: int, j: int| 0 <= i < j < t.len() implies !before(
            #[trigger] t[j],
            #[trigger] t[i],
        ) by {
            assert(t[i] == s[i] && t[j] == s[j]);
        }
        lemma_sorted_keeps_order(t, before);
        if t.len() > 0 {
            assert(t.last() == s[s.len() - 2]);
            assert(!before(s[s.len() - 1], s[s.len() - 2]));
        }
        assert(s =~= t.push(s.last()));
    }
}

/// The elements of `s` of the same rank as `x`, in order.
pub open spec fn peers<T>(s: Seq<T>, x: T, before: spec_fn(T, T) -> bool) -> Seq<T>
    decreases s.len(),
{
    if s.len() == 0 {
        s
    } else if before(s.last(), x) || before(x, s.last()) {
        peers(s.drop_last(), x, before)
    } else {
        peers(s.drop_last(), x, before).push(s.last())
    }
}

/// Inserting puts an element behind those of its rank.
proof fn lemma_inserted_peers<T>(s: Seq<T>, y: T, x: T, before: spec_fn(T, T) -> bool)
    requires
        ranks(before),
    ensures
        peers(inserted(s, y, before), x, before) == (if before(y, x) || before(x, y) {
            peers(s, x, before)
        } else {
            peers(s, x, before).push(y)
        }),
    decreases s.len(),
{
    if s.len() > 0 && before(y, s.last()) {
        let t = s.drop_last();
        lemma_inserted_peers(t, y, x, before);
        let whole = inserted(s, y, before);
        assert(whole.drop_last() =~= inserted(t, y, before));
        assert(whole.last() == s.last());
        if !(before(y, x) || before(x, y)) {
            // The element passed is of another rank than the one that is put before it.
            assert(before(x, s.last())) by {
                if !before(x, s.last()) {
                    assert(!before(y, x) && !before(x, s.last()));
                    assert(!before(y, s.last()));
                }
            }
        }
    } else {
        assert(s.push(y).drop_last() =~= s);
    }
}

/// Sorting keeps elements of the same rank as they stood.
pub proof fn lemma_sorted_is_stable<T>(s: Seq<T>, x: T, before: spec_fn(T, T) -> bool)
    requires
        ranks(before),
    ensures
        peers(sorted(s, before), x, before) == peers(s, x, before),
    decreases s.len(),
{
    if s.len() > 0 {
        let t = s.drop_last();
        lemma_sorted_is_stable(t, x, before);
        lemma_inserted_peers(sorted(t, before), s.last(), x, before);
    }
}

} // verus!
