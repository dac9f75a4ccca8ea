//! Byte offsets of characters in UTF-8 text.

use vstd::prelude::*;
use vstd::string::*;
use vstd::utf8::*;


verus! {

/// The number of bytes that UTF-8 takes for `c`.
pub open spec fn width(c: char) -> nat {
    if c <= '\u{7f}' {
        1
    } else if c <= '\u{7ff}' {
        2
    } else if c <= '\u{ffff}' {
        3
    } else {
        4
    }
}

/// The byte offset at which the character with index `k` begins.
pub open spec fn offset(s: Seq<char>, k: int) -> nat
    decreases k,
{
    if k <= 0 {
        0
    } else {
        offset(s, k - 1) + width(s[k - 1])
    }
}

/// The number of bytes of `s`.
pub open spec fn byte_len(s: Seq<char>) -> nat {
    offset(s, s.len() as int)
}

/// Whether the character with index `k`, or the end of `s`, stands at byte offset `at`.
pub open spec fn begins_at(s: Seq<char>, k: int, at: int) -> bool {
    0 <= k <= s.len() && offset(s, k) == at
}

/// Whether byte offset `at` lies on a character boundary of `s`.
pub open spec fn boundary(s: Seq<char>, at: int) -> bool {
    exists|k: int| begins_at(s, k, at)
}

/// The index of the character that begins at byte offset `at`.
pub open spec fn index_at(s: Seq<char>, at: int) -> int {
    choose|k: int| begins_at(s, k, at)
}

/// Offsets grow with the index.
pub proof fn lemma_offset_grows(s: Seq<char>, i: int, j: int)
    requires
        0 <= i <= j,
    ensures
        offset(s, i) + (j - i) <= offset(s, j),
    decreases j,
{
    if i < j {
        lemma_offset_grows(s, i, j - 1);
    }
}

/// A byte offset is that of one character only.
pub proof fn lemma_index_at(s: Seq<char>, k: int)
    requires
        0 <= k <= s.len(),
    ensures
        boundary(s, offset(s, k) as int),
        index_at(s, offset(s, k) as int) == k,
{
    let at = offset(s, k) as int;
    assert(begins_at(s, k, at));
    let m = index_at(s, at);
    assert(begins_at(s, m, at));
    if m < k {
        lemma_offset_grows(s, m, k);
    } else if k < m {
        lemma_offset_grows(s, k, m);
    }
}

/// The offset of a character rests on what precedes it only.
pub proof fn lemma_offset_prefix(s: Seq<char>, t: Seq<char>, k: int)
    requires
        0 <= k <= s.len(),
        k <= t.len(),
        forall|i: int| 0 <= i < k ==> s[i] == t[i],
    ensures
        offset(s, k) == offset(t, k),
    decreases k,
{
    if k > 0 {
        lemma_offset_prefix(s, t, k - 1);
    }
}

/// The offset of a character of the tail.
proof fn lemma_offset_tail(s: Seq<char>, k: int)
    requires
        0 < k <= s.len(),
    ensures
        offset(s, k) == width(s[0]) + offset(s.drop_first(), k - 1),
    decreases k,
{
    if k > 1 {
        lemma_offset_tail(s, k - 1);
    } else {
        assert(offset(s, 0) == 0);
        assert(offset(s.drop_first(), 0) == 0);
        assert(offset(s, 1) == offset(s, 0) + width(s[0]));
    }
}

/// The encoding of `c` has `width(c)` bytes.
proof fn lemma_encoded_width(c: char)
    ensures
        encode_scalar(c as u32).len() == width(c),
{
    char_is_scalar(c);
}

/// The encoding of `s` has `byte_len(s)` bytes.
pub proof fn lemma_encoded_len(s: Seq<char>)
    ensures
        encode_utf8(s).len() == byte_len(s),
    decreases s.len(),
{
    if s.len() > 0 {
        lemma_encoded_len(s.drop_first());
        lemma_offset_tail(s, s.len() as int);
        lemma_encoded_width(s[0]);
    }
}

/// The number of bytes that UTF-8 takes for `c`.
pub fn width_of(c: char) -> (r: usize)
    ensures
        r == width(c),
{
    if c <= '\u{7f}' {
        1
    } else if c <= '\u{7ff}' {
        2
    } else if c <= '\u{ffff}' {
        3
    } else {
        4
    }
}

/// The number of bytes of `s`.
pub fn bytes_in(s: &str) -> (r: usize)
    ensures
        r == byte_len(s@),
{
    proof {
        lemma_encoded_len(s@);
    }
    s.as_bytes().len()
}

/// The index of the character that begins at byte offset `at`.
pub fn index_of_offset(cs: &Vec<char>, at: usize) -> (r: usize)
    requires
        boundary(cs@, at as int),
    ensures
        r == index_at(cs@, at as int),
        r <= cs@.len(),
        offset(cs@, r as int) == at,
{
    let n = cs.len();
    let mut k: usize = 0;
    let mut pos: usize = 0;
    let ghost target = index_at(cs@, at as int);
    proof {
        assert(begins_at(cs@, target, at as int));
    }
    while pos != at
        invariant
            0 <= k <= target <= n,
            n == cs@.len(),
            pos == offset(cs@, k as int),
            offset(cs@, target) == at,
        decreases target - k,
    {
        proof {
            lemma_offset_grows(cs@, k as int + 1, target);
        }
        pos = pos + width_of(cs[k]);
        k = k + 1;
    }
    proof {
        lemma_offset_grows(cs@, k as int, target);
    }
    k
}

} // verus!
