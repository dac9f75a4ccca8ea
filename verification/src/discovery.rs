//! Finding repositories: which directories are searched, level by level, and what is found.

use vstd::prelude::*;
use vstd::string::*;

use crate::chars::{
    begins_with, lemma_texts_push, opt_text, same_text, starts_with, texts,
};
use crate::error::{AppError, Fault, Result};
use crate::order::{
    by_rule, in_order, lemma_sorted_is_in_order, lemma_sorted_is_permutation, ranks, sort_by, sorted,
    views_of, Ranked,
};
use crate::paths::{is_path_before, is_same_path, lemma_path_order, path_before, same_path};

verus! {

// ── What stands on disk ──────────────────────────────────────────────────────

/// What stands under the name `.git` in a directory.
#[derive(Debug)]
pub enum Marker {
    /// Nothing, or nothing that could be looked at.
    Missing,
    Directory,
    /// A file, and its first line where that could be read.
    File(Option<String>),
    /// Neither a directory nor a file.
    Other,
}

/// A marker with its text as a sequence of characters.
pub enum MarkerModel {
    Missing,
    Directory,
    File(Option<Seq<char>>),
    Other,
}

impl View for Marker {
    type V = MarkerModel;

    open spec fn view(&self) -> MarkerModel {
        match self {
            Marker::Missing => MarkerModel::Missing,
            Marker::Directory => MarkerModel::Directory,
            Marker::File(line) => MarkerModel::File(opt_text(*line)),
            Marker::Other => MarkerModel::Other,
        }
    }
}

impl MarkerModel {
    /// Whether it marks a repository: a directory, or a file that points to one.
    pub open spec fn marks(self) -> bool {
        match self {
            MarkerModel::Directory => true,
            MarkerModel::File(Some(line)) => begins_with(line, "gitdir:"@),
            _ => false,
        }
    }
}

/// Whether a directory with the given marker is a repository: `.git` is a directory, or a file
/// whose first line is a `gitdir:` pointer.
pub fn is_git_repository(marker: &Marker) -> (r: bool)
    ensures
        r == marker@.marks(),
{
    match marker {
        Marker::Missing => false,
        Marker::Directory => true,
        Marker::File(line) => match line {
            Some(text) => starts_with(text.as_str(), "gitdir:"),
            None => false,
        },
        Marker::Other => false,
    }
}

/// A directory.
#[derive(Debug)]
pub struct Candidate {
    pub path: String,
    /// Its canonical path, where that could be found out.
    pub canonical: Option<String>,
    pub marker: Marker,
}

/// A directory with its texts as sequences of characters.
pub struct CandidateModel {
    pub path: Seq<char>,
    pub canonical: Option<Seq<char>>,
    pub marker: MarkerModel,
}

impl View for Candidate {
    type V = CandidateModel;

    open spec fn view(&self) -> CandidateModel {
        CandidateModel {
            path: self.path@,
            canonical: opt_text(self.canonical),
            marker: self.marker@,
        }
    }
}

impl CandidateModel {
    /// The canonical path, or else the path as it was given.
    pub open spec fn resolved(self) -> Seq<char> {
        match self.canonical {
            Some(p) => p,
            None => self.path,
        }
    }
}

/// An entry of a directory.
#[derive(Debug)]
pub struct Entry {
    pub name: String,
    pub is_dir: bool,
    pub place: Candidate,
}

/// An entry with its texts as sequences of characters.
pub struct EntryModel {
    pub name: Seq<char>,
    pub is_dir: bool,
    pub place: CandidateModel,
}

impl View for Entry {
    type V = EntryModel;

    open spec fn view(&self) -> EntryModel {
        EntryModel { name: self.name@, is_dir: self.is_dir, place: self.place@ }
    }
}

impl EntryModel {
    /// Whether the entry is a directory that is looked into.
    pub open spec fn counts(self) -> bool {
        self.is_dir && self.name != ".git"@
    }
}

// ── One level ────────────────────────────────────────────────────────────────

/// The repositories among some directories.
pub open spec fn roots_found(roots: Seq<CandidateModel>) -> Seq<Seq<char>>
    decreases roots.len(),
{
    if roots.len() == 0 {
        Seq::empty()
    } else if roots.last().marker.marks() {
        roots_found(roots.drop_last()).push(roots.last().resolved())
    } else {
        roots_found(roots.drop_last())
    }
}

/// The repositories among the entries.
pub open spec fn found_among(entries: Seq<EntryModel>) -> Seq<Seq<char>>
    decreases entries.len(),
{
    if entries.len() == 0 {
        Seq::empty()
    } else if entries.last().counts() && entries.last().place.marker.marks() {
        found_among(entries.drop_last()).push(entries.last().place.resolved())
    } else {
        found_among(entries.drop_last())
    }
}

/// The directories among the entries that are no repositories: those are searched next.
pub open spec fn searched_next(entries: Seq<EntryModel>) -> Seq<Seq<char>>
    decreases entries.len(),
{
    if entries.len() == 0 {
        Seq::empty()
    } else if entries.last().counts() && !entries.last().place.marker.marks() {
        searched_next(entries.drop_last()).push(entries.last().place.resolved())
    } else {
        searched_next(entries.drop_last())
    }
}

/// The canonical path of a directory, or else the path as it was given.
fn canonical_or_original(place: &Candidate) -> (r: String)
    ensures
        r@ == place@.resolved(),
{
    match &place.canonical {
        Some(p) => p.clone(),
        None => place.path.clone(),
    }
}

/// Parts the entries of the directories that were searched into the directories to search next and
/// the repositories.
pub fn walk_once(entries: &Vec<Entry>) -> (r: (Vec<String>, Vec<String>))
    ensures
        texts(r.0@) == searched_next(views_of(entries@)),
        texts(r.1@) == found_among(views_of(entries@)),
{
    let ghost all = views_of(entries@);
    let mut next_search: Vec<String> = Vec::new();
    let mut repositories: Vec<String> = Vec::new();
    proof {
        assert(texts(next_search@) =~= searched_next(all.take(0)));
        assert(texts(repositories@) =~= found_among(all.take(0)));
    }
    for i in 0..entries.len()
        invariant
            all == views_of(entries@),
            texts(next_search@) == searched_next(all.take(i as int)),
            texts(repositories@) == found_among(all.take(i as int)),
    {
        let entry = &entries[i];
        proof {
            assert(all.take(i + 1).drop_last() =~= all.take(i as int));
            assert(all.take(i + 1).last() == entries@[i as int]@);
        }
        if entry.is_dir && !same_text(entry.name.as_str(), ".git") {
            let path = canonical_or_original(&entry.place);
            if is_git_repository(&entry.place.marker) {
                proof {
                    lemma_texts_push(repositories@, path);
                }
                repositories.push(path);
            } else {
                proof {
                    lemma_texts_push(next_search@, path);
                }
                next_search.push(path);
            }
        }
    }
    proof {
        assert(all.take(entries@.len() as int) =~= all);
    }
    (next_search, repositories)
}

// ── The search ───────────────────────────────────────────────────────────────

/// A path, ranked as paths are.
#[derive(Debug)]
pub struct Location {
    pub path: String,
}

impl View for Location {
    type V = Seq<char>;

    open spec fn view(&self) -> Seq<char> {
        self.path@
    }
}

impl Ranked for Location {
    type Rule = ();

    open spec fn before(rule: (), a: Seq<char>, b: Seq<char>) -> bool {
        path_before(a, b)
    }

    fn is_before(rule: &(), a: &Location, b: &Location) -> (r: bool) {
        is_path_before(a.path.as_str(), b.path.as_str())
    }
}

/// A search that is under way.
#[derive(Debug)]
pub struct Discovery {
    /// The directories to search next.
    search: Vec<String>,
    /// The repositories found so far.
    found: Vec<Location>,
    /// How many levels are left.
    left: usize,
}

/// A search with its texts as sequences of characters.
#[verifier::ext_equal]
pub struct DiscoveryModel {
    pub search: Seq<Seq<char>>,
    pub found: Seq<Seq<char>>,
    pub left: nat,
}

impl View for Discovery {
    type V = DiscoveryModel;

    closed spec fn view(&self) -> DiscoveryModel {
        DiscoveryModel {
            search: texts(self.search@),
            found: views_of(self.found@),
            left: self.left as nat,
        }
    }
}

/// The number of levels searched: at least the immediate children.
pub open spec fn levels(depth: usize) -> nat {
    if depth == 0 {
        1
    } else {
        depth as nat
    }
}

/// A search at its start: the roots are searched, and those that are repositories count.
pub open spec fn begun(roots: Seq<CandidateModel>, depth: usize) -> DiscoveryModel {
    DiscoveryModel {
        search: roots.map_values(|c: CandidateModel| c.path),
        found: roots_found(roots),
        left: levels(depth),
    }
}

/// `s` without what stands behind its like.
pub open spec fn deduped(s: Seq<Seq<char>>) -> Seq<Seq<char>>
    decreases s.len(),
{
    if s.len() == 0 {
        s
    } else {
        let d = deduped(s.drop_last());
        if d.len() > 0 && same_path(d.last(), s.last()) {
            d
        } else {
            d.push(s.last())
        }
    }
}

/// The repositories in the order of their paths, each once.
pub open spec fn in_path_order(found: Seq<Seq<char>>) -> Seq<Seq<char>> {
    deduped(sorted(found, by_rule::<Location>(())))
}

impl DiscoveryModel {
    /// One level on, where `entries` are those of the directories that were searched.
    pub open spec fn after(self, entries: Seq<EntryModel>) -> DiscoveryModel {
        if self.left == 0 {
            self
        } else {
            DiscoveryModel {
                search: searched_next(entries),
                found: self.found + found_among(entries),
                left: (self.left - 1) as nat,
            }
        }
    }
}

/// The outcome of a search.
pub type Discovered = std::result::Result<Seq<Seq<char>>, Fault>;

/// The view of the outcome of a search.
pub open spec fn discovered(r: Result<Vec<String>>) -> Discovered {
    match r {
        Ok(v) => Ok(texts(v@)),
        Err(e) => Err(e@),
    }
}

impl DiscoveryModel {
    /// The outcome of the search: the repositories found, or the error that there are none.
    pub open spec fn outcome(self) -> Discovered {
        if self.found.len() == 0 {
            Err(Fault::NoRepositoriesFound)
        } else {
            Ok(in_path_order(self.found))
        }
    }
}

/// Starts the search for repositories below `roots`, `depth` levels deep; zero means the immediate
/// children, as one does. Without a root there is nothing to search.
pub fn discover_repositories(roots: &Vec<Candidate>, depth: usize) -> (r: Result<Discovery>)
    ensures
        match r {
            Ok(d) => roots@.len() > 0 && d@ == begun(views_of(roots@), depth),
            Err(e) => roots@.len() == 0 && e@ == Fault::NoRepositoriesFound,
        },
{
    if roots.len() == 0 {
        return Err(AppError::NoRepositoriesFound);
    }
    let ghost all = views_of(roots@);
    let mut found: Vec<Location> = Vec::new();
    let mut search: Vec<String> = Vec::new();
    proof {
        assert(views_of(found@) =~= roots_found(all.take(0)));
    }
    for i in 0..roots.len()
        invariant
            all == views_of(roots@),
            views_of(found@) == roots_found(all.take(i as int)),
            search@.len() == i,
            forall|j: int| 0 <= j < i ==> (#[trigger] search@[j])@ == roots@[j].path@,
    {
        proof {
            assert(all.take(i + 1).drop_last() =~= all.take(i as int));
            assert(all.take(i + 1).last() == roots@[i as int]@);
        }
        if is_git_repository(&roots[i].marker) {
            let ghost before = views_of(found@);
            let path = canonical_or_original(&roots[i]);
            found.push(Location { path });
            proof {
                assert(views_of(found@) =~= before.push(path@));
            }
        }
        search.push(roots[i].path.clone());
    }
    proof {
        assert(all.take(roots@.len() as int) =~= all);
        assert(texts(search@) =~= all.map_values(|c: CandidateModel| c.path));
    }
    Ok(
        Discovery {
            search,
            found,
            left: if depth == 0 {
                1
            } else {
                depth
            },
        },
    )
}

impl Discovery {
    /// The directories whose entries are to be listed next; nothing at the end of the search.
    pub fn directories(&self) -> (r: Option<&Vec<String>>)
        ensures
            match r {
                Some(dirs) => self@.left > 0 && texts(dirs@) == self@.search,
                None => self@.left == 0,
            },
    {
        if self.left > 0 {
            Some(&self.search)
        } else {
            None
        }
    }

    /// Goes one level on, where `entries` are those of the directories that were to be listed; a
    /// directory that could not be read has none.
    pub fn advance(&mut self, entries: &Vec<Entry>)
        ensures
            final(self)@ == old(self)@.after(views_of(entries@)),
    {
        if self.left == 0 {
            return;
        }
        let ghost start = self@.found;
        let (search, repositories) = walk_once(entries);
        let ghost more = texts(repositories@);
        proof {
            assert(start + more.take(0) =~= start);
        }
        for i in 0..repositories.len()
            invariant
                more == texts(repositories@),
                views_of(self.found@) == start + more.take(i as int),
                self.left == old(self).left,
        {
            let ghost before = views_of(self.found@);
            let path = repositories[i].clone();
            self.found.push(Location { path });
            proof {
                assert(views_of(self.found@) =~= before.push(more[i as int]));
                assert(start + more.take(i + 1) =~= (start + more.take(i as int)).push(
                    more[i as int],
                ));
            }
        }
        proof {
            assert(more.take(repositories@.len() as int) =~= more);
        }
        self.search = search;
        self.left = self.left - 1;
    }

    /// The repositories that were found, in the order of their paths and each once, or the error
    /// that there are none.
    pub fn finish(self) -> (r: Result<Vec<String>>)
        ensures
            discovered(r) == self@.outcome(),
    {
        let ghost model = self@;
        let mut found = self.found;
        sort_by(&mut found, &());
        let ghost all = views_of(found@);
        proof {
            lemma_sorted_is_permutation(model.found, by_rule::<Location>(()));
        }
        let mut out: Vec<String> = Vec::new();
        proof {
            assert(texts(out@) =~= deduped(all.take(0)));
        }
        for i in 0..found.len()
            invariant
                all == views_of(found@),
                texts(out@) == deduped(all.take(i as int)),
        {
            proof {
                assert(all.take(i + 1).drop_last() =~= all.take(i as int));
                assert(all.take(i + 1).last() == found@[i as int]@);
                assert(texts(out@).len() == out@.len());
                if out@.len() > 0 {
                    assert(texts(out@).last() == out@.last()@);
                }
            }
            let n = out.len();
            if n == 0 || !is_same_path(out[n - 1].as_str(), found[i].path.as_str()) {
                let path = found[i].path.clone();
                proof {
                    lemma_texts_push(out@, path);
                }
                out.push(path);
            }
        }
        proof {
            assert(all.take(found@.len() as int) =~= all);
            lemma_deduped(all);
            assert(texts(out@).len() == out@.len());
        }
        if out.len() == 0 {
            return Err(AppError::NoRepositoriesFound);
        }
        Ok(out)
    }
}

// ── Laws ─────────────────────────────────────────────────────────────────────

/// What is left without what stands behind its like: something of each, and nothing else.
proof fn lemma_deduped(s: Seq<Seq<char>>)
    ensures
        deduped(s).len() == 0 <==> s.len() == 0,
        s.len() > 0 ==> same_path(deduped(s).last(), s.last()),
        forall|i: int| 0 <= i < deduped(s).len() ==> s.contains(#[trigger] deduped(s)[i]),
        forall|j: int|
            0 <= j < s.len() ==> exists|i: int|
                0 <= i < deduped(s).len() && same_path(deduped(s)[i], #[trigger] s[j]),
    decreases s.len(),
{
    if s.len() > 0 {
        let t = s.drop_last();
        let d = deduped(t);
        let e = deduped(s);
        lemma_deduped(t);
        assert forall|i: int| 0 <= i < e.len() implies s.contains(#[trigger] e[i]) by {
            if i < d.len() {
                assert(d[i] == e[i]);
                let k = choose|k: int| 0 <= k < t.len() && t[k] == d[i];
                assert(s[k] == e[i]);
            } else {
                assert(s[s.len() - 1] == e[i]);
            }
        }
        assert forall|j: int| 0 <= j < s.len() implies exists|i: int|
            0 <= i < e.len() && same_path(e[i], #[trigger] s[j]) by {
            if j < t.len() {
                assert(t[j] == s[j]);
                let i = choose|i: int| 0 <= i < d.len() && same_path(d[i], t[j]);
                assert(e[i] == d[i]);
            } else {
                assert(same_path(e[e.len() - 1], s[j]));
            }
        }
    }
}

/// Paths are ranked.
pub proof fn lemma_paths_rank()
    ensures
        ranks(by_rule::<Location>(())),
{
    let before = by_rule::<Location>(());
    assert forall|a: Seq<char>| !#[trigger] before(a, a) by {
        lemma_path_order(a, a, a);
    }
    assert forall|a: Seq<char>, b: Seq<char>, c: Seq<char>| #[trigger]
        before(a, b) && #[trigger] before(b, c) implies before(a, c) by {
        lemma_path_order(a, b, c);
    }
    assert forall|a: Seq<char>, b: Seq<char>, c: Seq<char>|
        !#[trigger] before(a, b) && !#[trigger] before(b, c) implies !before(a, c) by {
        lemma_path_order(a, b, c);
        lemma_path_order(b, c, a);
        lemma_path_order(c, b, a);
        lemma_path_order(b, a, c);
    }
}

/// What is in order is in strict order without what stands behind its like.
proof fn lemma_deduped_in_order(s: Seq<Seq<char>>)
    requires
        in_order(s, by_rule::<Location>(())),
    ensures
        forall|i: int, j: int|
            0 <= i < j < deduped(s).len() ==> path_before(
                #[trigger] deduped(s)[i],
                #[trigger] deduped(s)[j],
            ),
    decreases s.len(),
{
    if s.len() > 0 {
        let before = by_rule::<Location>(());
        let t = s.drop_last();
        let d = deduped(t);
        let e = deduped(s);
        let x = s.last();
        assert forall|i: int, j: int| 0 <= i < j < t.len() implies !before(
            #[trigger] t[j],
            #[trigger] t[i],
        ) by {
            assert(t[i] == s[i] && t[j] == s[j]);
        }
        lemma_deduped_in_order(t);
        lemma_deduped(t);
        assert forall|i: int, j: int| 0 <= i < j < e.len() implies path_before(
            #[trigger] e[i],
            #[trigger] e[j],
        ) by {
            if j < d.len() {
                assert(e[i] == d[i] && e[j] == d[j]);
            } else {
                assert(e[i] == d[i] && e[j] == x);
                let k = choose|k: int| 0 <= k < t.len() && t[k] == d[d.len() - 1];
                assert(t.contains(d[d.len() - 1]));
                assert(s[k] == d.last());
                assert(!before(s[s.len() - 1], s[k]));
                lemma_path_order(d.last(), x, d.last());
                assert(path_before(d.last(), x));
                if i < d.len() - 1 {
                    lemma_path_order(d[i], d.last(), x);
                }
            }
        }
    }
}

/// The repositories come in the order of their paths, and no path comes twice.
pub proof fn lemma_repositories_in_order(found: Seq<Seq<char>>)
    ensures
        forall|i: int, j: int|
            0 <= i < j < in_path_order(found).len() ==> path_before(
                #[trigger] in_path_order(found)[i],
                #[trigger] in_path_order(found)[j],
            ) && !same_path(in_path_order(found)[i], in_path_order(found)[j]),
{
    let before = by_rule::<Location>(());
    lemma_paths_rank();
    lemma_sorted_is_in_order(found, before);
    lemma_deduped_in_order(sorted(found, before));
    let r = in_path_order(found);
    assert forall|i: int, j: int| 0 <= i < j < r.len() implies path_before(
        #[trigger] r[i],
        #[trigger] r[j],
    ) && !same_path(r[i], r[j]) by {
        lemma_path_order(r[i], r[j], r[j]);
    }
}

/// Every repository that was found is among those reported, and nothing else is.
pub proof fn lemma_repositories_are_those_found(found: Seq<Seq<char>>)
    ensures
        forall|i: int|
            0 <= i < in_path_order(found).len() ==> found.contains(#[trigger] in_path_order(found)[i]),
        forall|j: int|
            0 <= j < found.len() ==> exists|i: int|
                0 <= i < in_path_order(found).len() && same_path(
                    in_path_order(found)[i],
                    #[trigger] found[j],
                ),
        found.len() > 0 ==> in_path_order(found).len() > 0,
{
    let before = by_rule::<Location>(());
    let s = sorted(found, before);
    let r = in_path_order(found);
    lemma_sorted_is_permutation(found, before);
    lemma_deduped(s);
    assert(s.to_multiset() == found.to_multiset());
    broadcast use vstd::seq_lib::group_to_multiset_ensures;

    assert forall|i: int| 0 <= i < r.len() implies found.contains(#[trigger] r[i]) by {
        assert(s.contains(r[i]));
        assert(s.to_multiset().count(r[i]) > 0);
        assert(found.to_multiset().count(r[i]) > 0);
    }
    assert forall|j: int| 0 <= j < found.len() implies exists|i: int|
        0 <= i < r.len() && same_path(r[i], #[trigger] found[j]) by {
        assert(found.contains(found[j]));
        assert(found.to_multiset().count(found[j]) > 0);
        assert(s.to_multiset().count(found[j]) > 0);
        assert(s.contains(found[j]));
        let k = choose|k: int| 0 <= k < s.len() && s[k] == found[j];
        let i = choose|i: int| 0 <= i < r.len() && same_path(r[i], s[k]);
        assert(same_path(r[i], found[j]));
    }
}

/// A depth of zero means the immediate children, as a depth of one does.
pub proof fn lemma_depth_zero_is_depth_one(roots: Seq<CandidateModel>)
    ensures
        begun(roots, 0) == begun(roots, 1),
{
}

/// The search after some levels, where `rounds` are the entries found at each.
pub open spec fn walked(search: DiscoveryModel, rounds: Seq<Seq<EntryModel>>) -> DiscoveryModel
    decreases rounds.len(),
{
    if rounds.len() == 0 {
        search
    } else {
        walked(search, rounds.drop_last()).after(rounds.last())
    }
}

/// A deeper search asks for the same directories as long as the other one goes on, and finds all
/// that the other one finds.
pub proof fn lemma_deeper_search_finds_no_less(
    roots: Seq<CandidateModel>,
    depth: usize,
    deeper: usize,
    rounds: Seq<Seq<EntryModel>>,
)
    requires
        depth <= deeper,
    ensures
        ({
            let one = walked(begun(roots, depth), rounds);
            let other = walked(begun(roots, deeper), rounds);
            &&& one.left <= other.left
            &&& one.left > 0 ==> one.search == other.search && one.found == other.found
            &&& one.found.is_prefix_of(other.found)
        }),
    decreases rounds.len(),
{
    if rounds.len() > 0 {
        lemma_deeper_search_finds_no_less(roots, depth, deeper, rounds.drop_last());
    }
}

/// What is searched next is no repository: nothing inside a repository is reported.
pub proof fn lemma_repositories_are_not_searched(entries: Seq<EntryModel>)
    ensures
        forall|i: int|
            0 <= i < searched_next(entries).len() ==> exists|k: int|
                0 <= k < entries.len() && !(#[trigger] entries[k]).place.marker.marks()
                    && entries[k].counts() && entries[k].place.resolved()
                    == #[trigger] searched_next(entries)[i],
    decreases entries.len(),
{
    if entries.len() > 0 {
        let t = entries.drop_last();
        lemma_repositories_are_not_searched(t);
        let s = searched_next(entries);
        let before = searched_next(t);
        assert forall|i: int| 0 <= i < s.len() implies exists|k: int|
            0 <= k < entries.len() && !(#[trigger] entries[k]).place.marker.marks()
                && entries[k].counts() && entries[k].place.resolved() == #[trigger] s[i] by {
            if i < before.len() {
                assert(s[i] == before[i]);
                let k = choose|k: int|
                    0 <= k < t.len() && !(#[trigger] t[k]).place.marker.marks() && t[k].counts()
                        && t[k].place.resolved() == before[i];
                assert(entries[k] == t[k]);
            } else {
                assert(entries[entries.len() - 1] == entries.last());
            }
        }
    }
}

} // verus!
