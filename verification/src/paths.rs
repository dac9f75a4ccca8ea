//! Paths as text: parts with slashes between them.
//!
//! Every path has this form here, on every system; see `native` for the system's own.

use vstd::prelude::*;
use vstd::string::*;

use crate::chars::{
    begins_with, cat2, cat3, chars_of, ends_with, finishes_with, lemma_texts_push, pieces,
    same_text, split_char, starts_with, texts,
};
use crate::native::{byte_key, byte_key_of, lemma_bytes_order_as_text};
use crate::order::{
    comes_before, lemma_text_order_antisymmetric, lemma_text_order_total,
    lemma_text_order_transitive, text_before,
};

verus! {

// ── Components ───────────────────────────────────────────────────────────────

/// Whether `path` starts at the root.
pub open spec fn rooted(path: Seq<char>) -> bool {
    path.len() > 0 && path[0] == '/'
}

/// Those of the first `n` pieces that count: none that is empty, and no dot but the first.
pub open spec fn counting(ps: Seq<Seq<char>>, n: int) -> Seq<Seq<char>>
    decreases n,
{
    if n <= 0 {
        Seq::empty()
    } else if ps[n - 1].len() == 0 || (ps[n - 1] == "."@ && n > 1) {
        counting(ps, n - 1)
    } else {
        counting(ps, n - 1).push(ps[n - 1])
    }
}

/// The components of a path: the root as `/`, then its parts. Repeated slashes, a slash at the end
/// and dots between parts do not count.
pub open spec fn components(path: Seq<char>) -> Seq<Seq<char>> {
    let ps = pieces(path, '/');
    if rooted(path) {
        seq!["/"@] + counting(ps, ps.len() as int)
    } else {
        counting(ps, ps.len() as int)
    }
}

/// Whether two texts are the same path.
pub open spec fn same_path(a: Seq<char>, b: Seq<char>) -> bool {
    components(a) == components(b)
}

/// The components of `path`.
pub fn split_path(path: &str) -> (r: Vec<String>)
    ensures
        texts(r@) == components(path@),
{
    let ps = split_char(path, '/');
    let ghost all = pieces(path@, '/');
    let mut out: Vec<String> = Vec::new();
    let root = starts_with(path, "/");
    proof {
        reveal_strlit("/");
        assert("/"@ =~= seq!['/']);
        if path@.len() > 0 {
            assert(path@.subrange(0, "/"@.len() as int) =~= seq![path@[0]]);
            assert(seq![path@[0]][0] == path@[0]);
        }
        assert(root == rooted(path@));
    }
    let ghost head: Seq<Seq<char>> = if rooted(path@) {
        seq!["/"@]
    } else {
        Seq::empty()
    };
    if root {
        out.push("/".to_owned());
    }
    proof {
        assert(texts(out@) =~= head + counting(all, 0));
    }
    for i in 0..ps.len()
        invariant
            all == texts(ps@),
            texts(out@) == head + counting(all, i as int),
    {
        proof {
            assert(all[i as int] == ps@[i as int]@);
        }
        let dot = same_text(ps[i].as_str(), ".");
        if !(ps[i].as_str().is_empty() || (dot && i > 0)) {
            proof {
                lemma_texts_push(out@, ps@[i as int]);
                assert(head + counting(all, i as int).push(all[i as int]) =~= (head + counting(
                    all,
                    i as int,
                )).push(all[i as int]));
            }
            out.push(ps[i].clone());
        }
    }
    proof {
        assert(head + counting(all, all.len() as int) =~= components(path@));
    }
    out
}

/// Whether two lists of texts are equal.
fn same_texts(a: &Vec<String>, b: &Vec<String>) -> (r: bool)
    ensures
        r == (texts(a@) == texts(b@)),
{
    if a.len() != b.len() {
        proof {
            assert(texts(a@).len() != texts(b@).len());
        }
        return false;
    }
    for i in 0..a.len()
        invariant
            a@.len() == b@.len(),
            forall|j: int| 0 <= j < i ==> texts(a@)[j] == texts(b@)[j],
    {
        if !same_text(a[i].as_str(), b[i].as_str()) {
            proof {
                assert(texts(a@)[i as int] != texts(b@)[i as int]);
            }
            return false;
        }
    }
    proof {
        assert(texts(a@) =~= texts(b@));
    }
    true
}

/// Whether `a` and `b` are the same path.
pub fn is_same_path(a: &str, b: &str) -> (r: bool)
    ensures
        r == same_path(a@, b@),
{
    if same_text(a, b) {
        return true;
    }
    let x = split_path(a);
    let y = split_path(b);
    same_texts(&x, &y)
}

/// The name at the end of a path: its last component, unless that is the root or a dot or two.
pub open spec fn file_name(path: Seq<char>) -> Option<Seq<char>> {
    let cs = components(path);
    if cs.len() == 0 || cs.last() == "/"@ || cs.last() == "."@ || cs.last() == ".."@ {
        None
    } else {
        Some(cs.last())
    }
}

/// The name at the end of `path`.
pub fn file_name_of(path: &str) -> (r: Option<String>)
    ensures
        match r {
            Some(name) => file_name(path@) == Some(name@),
            None => file_name(path@) is None,
        },
{
    let cs = split_path(path);
    if cs.len() == 0 {
        return None;
    }
    let last = cs[cs.len() - 1].as_str();
    proof {
        assert(texts(cs@).last() == last@);
    }
    if same_text(last, "/") || same_text(last, ".") || same_text(last, "..") {
        None
    } else {
        Some(last.to_owned())
    }
}

// ── Order ────────────────────────────────────────────────────────────────────

/// The rank of a kind of component: the root, a dot, two dots, a name.
pub open spec fn component_rank(c: Seq<char>) -> int {
    if c == "/"@ {
        0
    } else if c == "."@ {
        1
    } else if c == ".."@ {
        2
    } else {
        3
    }
}

/// Whether the component `a` comes before `b`: names come in the order of their bytes.
pub open spec fn component_before(a: Seq<char>, b: Seq<char>) -> bool {
    if component_rank(a) != component_rank(b) {
        component_rank(a) < component_rank(b)
    } else if byte_key(a) != byte_key(b) {
        text_before(byte_key(a), byte_key(b))
    } else {
        text_before(a, b)
    }
}

/// Whether the list of components `a` comes before `b`.
pub open spec fn components_before(a: Seq<Seq<char>>, b: Seq<Seq<char>>) -> bool
    decreases a.len(),
{
    if b.len() == 0 {
        false
    } else if a.len() == 0 {
        true
    } else if a[0] != b[0] {
        component_before(a[0], b[0])
    } else {
        components_before(a.drop_first(), b.drop_first())
    }
}

/// Whether the path `a` comes before `b`, component by component.
pub open spec fn path_before(a: Seq<char>, b: Seq<char>) -> bool {
    components_before(components(a), components(b))
}

/// The rank of a kind of component.
fn rank_of(c: &str) -> (r: u8)
    ensures
        r == component_rank(c@),
{
    if same_text(c, "/") {
        0
    } else if same_text(c, ".") {
        1
    } else if same_text(c, "..") {
        2
    } else {
        3
    }
}

/// Whether the component `a` comes before `b`.
fn is_component_before(a: &str, b: &str) -> (r: bool)
    ensures
        r == component_before(a@, b@),
{
    let x = rank_of(a);
    let y = rank_of(b);
    if x != y {
        return x < y;
    }
    let p = byte_key_of(a);
    let q = byte_key_of(b);
    if !same_text(p.as_str(), q.as_str()) {
        comes_before(p.as_str(), q.as_str())
    } else {
        comes_before(a, b)
    }
}

/// Whether the path `a` comes before `b`, component by component.
pub fn is_path_before(a: &str, b: &str) -> (r: bool)
    ensures
        r == path_before(a@, b@),
{
    let x = split_path(a);
    let y = split_path(b);
    let n = x.len();
    let m = y.len();
    let ghost cs = components(a@);
    let ghost ds = components(b@);
    let mut i: usize = 0;
    proof {
        assert(cs.skip(0) =~= cs);
        assert(ds.skip(0) =~= ds);
    }
    while i < n && i < m
        invariant
            cs == components(a@),
            ds == components(b@),
            texts(x@) == cs,
            texts(y@) == ds,
            n == x@.len(),
            m == y@.len(),
            i <= n,
            i <= m,
            components_before(cs, ds) == components_before(cs.skip(i as int), ds.skip(i as int)),
        decreases n - i,
    {
        proof {
            assert(cs[i as int] == x@[i as int]@);
            assert(ds[i as int] == y@[i as int]@);
            assert(cs.skip(i as int).drop_first() =~= cs.skip(i + 1));
            assert(ds.skip(i as int).drop_first() =~= ds.skip(i + 1));
        }
        if !same_text(x[i].as_str(), y[i].as_str()) {
            return is_component_before(x[i].as_str(), y[i].as_str());
        }
        i = i + 1;
    }
    i < m
}

/// Of two different components exactly one comes before the other, and coming before carries over.
proof fn lemma_component_order(a: Seq<char>, b: Seq<char>, c: Seq<char>)
    ensures
        !component_before(a, a),
        !(component_before(a, b) && component_before(b, a)),
        a == b || component_before(a, b) || component_before(b, a),
        component_before(a, b) && component_before(b, c) ==> component_before(a, c),
{
    let (x, y, z) = (byte_key(a), byte_key(b), byte_key(c));
    lemma_text_order_antisymmetric(a, b);
    lemma_text_order_antisymmetric(x, y);
    lemma_text_order_antisymmetric(y, z);
    lemma_text_order_total(a, b);
    lemma_text_order_total(x, y);
    if text_before(a, b) && text_before(b, c) {
        lemma_text_order_transitive(a, b, c);
    }
    if text_before(x, y) && text_before(y, z) {
        lemma_text_order_transitive(x, y, z);
    }
}

/// Of two different lists exactly one comes before the other, and coming before carries over.
proof fn lemma_components_order(a: Seq<Seq<char>>, b: Seq<Seq<char>>, c: Seq<Seq<char>>)
    ensures
        !components_before(a, a),
        !(components_before(a, b) && components_before(b, a)),
        a == b || components_before(a, b) || components_before(b, a),
        components_before(a, b) && components_before(b, c) ==> components_before(a, c),
    decreases a.len(),
{
    if a.len() > 0 {
        let t = a.drop_first();
        let u = if b.len() > 0 {
            b.drop_first()
        } else {
            b
        };
        let v = if c.len() > 0 {
            c.drop_first()
        } else {
            c
        };
        lemma_components_order(t, u, v);
        if b.len() > 0 {
            lemma_component_order(a[0], b[0], a[0]);
            if a[0] == b[0] && t == u {
                assert(a =~= seq![a[0]] + t);
                assert(b =~= seq![b[0]] + u);
            }
            if c.len() > 0 {
                lemma_component_order(a[0], b[0], c[0]);
                lemma_component_order(b[0], c[0], b[0]);
            }
        }
    } else if b.len() == 0 {
        assert(a =~= b);
    }
}

/// Of two paths that differ exactly one comes before the other; no path comes before itself, and
/// coming before carries over.
pub proof fn lemma_path_order(a: Seq<char>, b: Seq<char>, c: Seq<char>)
    ensures
        !path_before(a, a),
        !(path_before(a, b) && path_before(b, a)),
        same_path(a, b) || path_before(a, b) || path_before(b, a),
        path_before(a, b) && path_before(b, c) ==> path_before(a, c),
        same_path(a, b) ==> path_before(a, c) == path_before(b, c),
        same_path(a, b) ==> path_before(c, a) == path_before(c, b),
{
    lemma_components_order(components(a), components(b), components(c));
}

/// Names that are UTF-8 come in the order of their characters.
pub proof fn lemma_names_order_as_text(a: Seq<char>, b: Seq<char>)
    requires
        component_rank(a) == component_rank(b),
        !a.contains('\0'),
        !b.contains('\0'),
    ensures
        component_before(a, b) == text_before(a, b),
{
    lemma_bytes_order_as_text(a, b);
    lemma_text_order_antisymmetric(a, b);
}

// ── Parents and children ─────────────────────────────────────────────────────

/// The length of what stands before the parts of a path: the slash of the root, or the dot that a
/// path starts with.
pub open spec fn before_parts(path: Seq<char>) -> int {
    if rooted(path) {
        1
    } else if path.len() > 0 && path[0] == '.' && (path.len() == 1 || path[1] == '/') {
        1
    } else {
        0
    }
}

/// Where the last piece of `path` starts, among what stands at or behind `floor`.
pub open spec fn last_piece_start(path: Seq<char>, floor: int) -> int
    decreases path.len(),
{
    if path.len() == 0 || path.len() <= floor {
        floor
    } else if path.last() == '/' {
        path.len() as int
    } else {
        last_piece_start(path.drop_last(), floor)
    }
}

/// `path` without its last piece and the slash before that.
pub open spec fn without_last_piece(path: Seq<char>, floor: int) -> Seq<char> {
    let k = last_piece_start(path, floor);
    if k > floor {
        path.take(k - 1)
    } else {
        path.take(floor)
    }
}

/// The last piece of `path`.
pub open spec fn last_piece(path: Seq<char>, floor: int) -> Seq<char> {
    path.skip(last_piece_start(path, floor))
}

/// A last piece starts between the floor and the end.
proof fn lemma_last_piece_start(path: Seq<char>, floor: int)
    requires
        0 <= floor <= path.len(),
    ensures
        floor <= last_piece_start(path, floor) <= path.len(),
        last_piece_start(path, floor) > floor ==> path[last_piece_start(path, floor) - 1] == '/',
    decreases path.len(),
{
    if path.len() > floor && path.last() != '/' {
        lemma_last_piece_start(path.drop_last(), floor);
    }
}

/// `path` without slashes and dots at its end.
pub open spec fn without_tail(path: Seq<char>, floor: int) -> Seq<char>
    decreases path.len(),
{
    if !(0 <= floor < path.len()) {
        path
    } else if last_piece(path, floor).len() == 0 || last_piece(path, floor) == "."@ {
        let rest = without_last_piece(path, floor);
        if rest.len() < path.len() {
            without_tail(rest, floor)
        } else {
            path
        }
    } else {
        path
    }
}

/// The path of the directory that `path` is in: nothing for the root and for the empty path.
pub open spec fn parent(path: Seq<char>) -> Option<Seq<char>> {
    let floor = before_parts(path);
    let t = without_tail(path, floor);
    if t.len() > floor {
        Some(without_tail(without_last_piece(t, floor), floor))
    } else if floor == 1 && !rooted(path) {
        Some(Seq::empty())
    } else {
        None
    }
}

/// The path of `name` in the directory `dir`.
pub open spec fn child(dir: Seq<char>, name: Seq<char>) -> Seq<char> {
    if begins_with(name, "/"@) || dir.len() == 0 {
        name
    } else if finishes_with(dir, "/"@) {
        dir + name
    } else {
        dir + "/"@ + name
    }
}

/// Where the last piece of the first `len` characters starts.
fn find_last_piece(cs: &Vec<char>, len: usize, floor: usize) -> (r: usize)
    requires
        floor <= len <= cs@.len(),
    ensures
        r == last_piece_start(cs@.take(len as int), floor as int),
        floor <= r <= len,
        r > floor ==> cs@[r - 1] == '/',
{
    let mut k = len;
    let ghost all = cs@.take(len as int);
    proof {
        lemma_last_piece_start(all, floor as int);
    }
    while k > floor && cs[k - 1] != '/'
        invariant
            floor <= k <= len <= cs@.len(),
            last_piece_start(all, floor as int) == last_piece_start(
                cs@.take(k as int),
                floor as int,
            ),
        decreases k,
    {
        proof {
            assert(cs@.take(k as int).drop_last() =~= cs@.take(k - 1));
            assert(cs@.take(k as int).last() == cs@[k - 1]);
        }
        k = k - 1;
    }
    proof {
        if k > floor {
            assert(cs@.take(k as int).last() == cs@[k - 1]);
        }
    }
    k
}

/// The length of the first `len` characters without slashes and dots at their end.
fn tail_cut(cs: &Vec<char>, len: usize, floor: usize) -> (r: usize)
    requires
        floor <= len <= cs@.len(),
    ensures
        cs@.take(r as int) == without_tail(cs@.take(len as int), floor as int),
        floor <= r <= len,
{
    let mut n = len;
    let ghost all = cs@.take(len as int);
    proof {
        reveal_strlit(".");
    }
    while n > floor
        invariant
            floor <= n <= len <= cs@.len(),
            all == cs@.take(len as int),
            without_tail(all, floor as int) == without_tail(cs@.take(n as int), floor as int),
            "."@ =~= seq!['.'],
        decreases n,
    {
        let k = find_last_piece(cs, n, floor);
        let ghost here = cs@.take(n as int);
        proof {
            assert(last_piece(here, floor as int) =~= cs@.subrange(k as int, n as int));
            if n - k == 1 {
                assert(cs@.subrange(k as int, n as int) =~= seq![cs@[k as int]]);
            }
        }
        let dot = n - k == 1 && cs[k] == '.';
        proof {
            assert(dot == (last_piece(here, floor as int) == "."@)) by {
                if last_piece(here, floor as int) == "."@ {
                    assert(cs@.subrange(k as int, n as int).len() == 1);
                    assert(cs@.subrange(k as int, n as int)[0] == '.');
                }
            }
        }
        if n == k || dot {
            let m = if k > floor {
                k - 1
            } else {
                floor
            };
            proof {
                assert(without_last_piece(here, floor as int) =~= cs@.take(m as int));
            }
            n = m;
        } else {
            return n;
        }
    }
    n
}

/// The path of the directory that `path` is in; nothing for the root and for the empty path.
pub fn parent_of(path: &str) -> (r: Option<String>)
    ensures
        match r {
            Some(p) => parent(path@) == Some(p@),
            None => parent(path@) is None,
        },
{
    let cs = chars_of(path);
    let root = cs.len() > 0 && cs[0] == '/';
    let dotted = !root && cs.len() > 0 && cs[0] == '.' && (cs.len() == 1 || cs[1] == '/');
    let floor: usize = if root || dotted {
        1
    } else {
        0
    };
    let n = tail_cut(&cs, cs.len(), floor);
    proof {
        assert(cs@.take(cs@.len() as int) =~= cs@);
    }
    if n > floor {
        let k = find_last_piece(&cs, n, floor);
        let m = if k > floor {
            k - 1
        } else {
            floor
        };
        proof {
            assert(cs@.take(n as int).take(m as int) =~= cs@.take(m as int));
        }
        let e = tail_cut(&cs, m, floor);
        let text = path.substring_char(0, e);
        proof {
            assert(text@ =~= cs@.take(e as int));
        }
        Some(text.to_owned())
    } else if dotted {
        Some(String::new())
    } else {
        None
    }
}

/// The path of `name` in the directory `dir`.
pub fn child_of(dir: &str, name: &str) -> (r: String)
    ensures
        r@ == child(dir@, name@),
{
    if starts_with(name, "/") || dir.is_empty() {
        name.to_owned()
    } else if ends_with(dir, "/") {
        cat2(dir, name)
    } else {
        cat3(dir, "/", name)
    }
}

} // verus!
