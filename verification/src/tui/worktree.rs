//! Worktrees: reading `git worktree list --porcelain`, the rows of the worktree view, and the
//! operations on a worktree.

use vstd::prelude::*;
use vstd::string::*;

use crate::chars::{
    after_prefix, alphanumeric, blank, cat3, chars_of, is_alphanumeric, lemma_texts_push,
    lemma_visible_is_not_blank, lines, opt_text, same_text, split_lines, string_of, strip_prefix,
    texts, trim, trim_end_set, trim_start_set, trimmed, trimmed_end_set, trimmed_start_set,
};
use crate::error::{AppError, Fault, Result};
use crate::git::command::{
    outcome, plain_command, said, say, CommandModel, GitCommand, GitOutput, Outcome,
};
use crate::git::runner::GitRunner;
use crate::git::task::{Task, TaskModel};
use crate::native::{show, shown};
use crate::order::{by_rule, lemma_sorted_is_permutation, sort_by, sorted, views_of, Ranked};
use crate::paths::{
    child, child_of, file_name, file_name_of, is_same_path, parent, parent_of, same_path,
};

verus! {

// ── Listings ─────────────────────────────────────────────────────────────────

/// The paths of the worktrees in the lines of a listing, the primary one first.
pub open spec fn worktree_paths(ls: Seq<Seq<char>>) -> Seq<Seq<char>>
    decreases ls.len(),
{
    if ls.len() == 0 {
        Seq::empty()
    } else {
        match after_prefix(ls.last(), "worktree "@) {
            Some(path) => worktree_paths(ls.drop_last()).push(path),
            None => worktree_paths(ls.drop_last()),
        }
    }
}

/// The paths of the worktrees in a listing, the primary one first.
pub fn listed_paths(listing: &str) -> (r: Vec<String>)
    ensures
        texts(r@) == worktree_paths(lines(listing@)),
{
    let ls = split_lines(listing);
    let ghost all = lines(listing@);
    let mut out: Vec<String> = Vec::new();
    proof {
        assert(all.take(0) =~= Seq::<Seq<char>>::empty());
        assert(texts(out@) =~= Seq::<Seq<char>>::empty());
    }
    for i in 0..ls.len()
        invariant
            all == texts(ls@),
            texts(out@) == worktree_paths(all.take(i as int)),
    {
        proof {
            assert(all.take(i + 1).drop_last() =~= all.take(i as int));
            assert(all.take(i + 1).last() == ls@[i as int]@);
        }
        if let Some(path) = strip_prefix(ls[i].as_str(), "worktree ") {
            let owned = path.to_owned();
            proof {
                lemma_texts_push(out@, owned);
            }
            out.push(owned);
        }
    }
    proof {
        assert(all.take(all.len() as int) =~= all);
    }
    out
}

/// A worktree in a listing.
#[derive(Debug)]
pub struct WtEntry {
    pub path: String,
    pub is_primary: bool,
}

/// The worktrees in a listing. The first one is the primary.
pub fn parse_worktree_listing(text: &str) -> (r: Vec<WtEntry>)
    ensures
        r@.len() == worktree_paths(lines(text@)).len(),
        forall|i: int|
            0 <= i < r@.len() ==> (#[trigger] r@[i]).path@ == worktree_paths(lines(text@))[i]
                && r@[i].is_primary == (i == 0),
{
    let paths = listed_paths(text);
    let mut out: Vec<WtEntry> = Vec::new();
    for i in 0..paths.len()
        invariant
            out@.len() == i,
            forall|j: int|
                0 <= j < i ==> (#[trigger] out@[j]).path@ == texts(paths@)[j] && out@[j].is_primary
                    == (j == 0),
    {
        out.push(WtEntry { path: paths[i].clone(), is_primary: i == 0 });
    }
    out
}

// ── Display rows ─────────────────────────────────────────────────────────────

/// A row of the worktree view.
#[derive(Debug)]
pub struct WtDisplayRow {
    pub path: String,
    pub display_name: String,
    pub wt_label: String,
    /// The owning repo's own path, not an index into the list: an index captured when worktrees
    /// were loaded goes stale the next time the list is sorted. A path stays a valid, stable key
    /// across any reordering.
    pub repo_path: String,
}

/// A row with its texts as sequences of characters.
pub struct WtRowModel {
    pub path: Seq<char>,
    pub display_name: Seq<char>,
    pub wt_label: Seq<char>,
    pub repo_path: Seq<char>,
}

impl View for WtDisplayRow {
    type V = WtRowModel;

    open spec fn view(&self) -> WtRowModel {
        WtRowModel {
            path: self.path@,
            display_name: self.display_name@,
            wt_label: self.wt_label@,
            repo_path: self.repo_path@,
        }
    }
}

/// What `git worktree list` said of one repository.
#[derive(Debug)]
pub struct WtListing {
    /// The place of the repository in the list.
    pub order: usize,
    pub repo_path: String,
    pub repo_name: String,
    pub listing: String,
}

/// A listing with its texts as sequences of characters.
pub struct WtListingModel {
    pub order: usize,
    pub repo_path: Seq<char>,
    pub repo_name: Seq<char>,
    pub listing: Seq<char>,
}

impl View for WtListing {
    type V = WtListingModel;

    open spec fn view(&self) -> WtListingModel {
        WtListingModel {
            order: self.order,
            repo_path: self.repo_path@,
            repo_name: self.repo_name@,
            listing: self.listing@,
        }
    }
}

impl Ranked for WtListing {
    type Rule = ();

    open spec fn before(rule: (), a: WtListingModel, b: WtListingModel) -> bool {
        a.order < b.order
    }

    fn is_before(rule: &(), a: &WtListing, b: &WtListing) -> (r: bool) {
        a.order < b.order
    }
}

/// How the worktree `i` at `path` is called beside others.
pub open spec fn worktree_label(path: Seq<char>, i: int) -> Seq<char> {
    if i == 0 {
        "[main]"@
    } else {
        "["@ + (match file_name(path) {
            Some(name) => shown(name),
            None => Seq::empty(),
        }) + "]"@
    }
}

/// The rows of one repository: one for each of its worktrees, or one for the repository where it
/// has no more than one.
pub open spec fn rows_of(l: WtListingModel) -> Seq<WtRowModel> {
    let paths = worktree_paths(lines(l.listing));
    if paths.len() <= 1 {
        seq![
            WtRowModel {
                path: if paths.len() == 1 {
                    paths[0]
                } else {
                    Seq::empty()
                },
                display_name: l.repo_name,
                wt_label: l.repo_name,
                repo_path: l.repo_path,
            },
        ]
    } else {
        Seq::new(
            paths.len(),
            |i: int|
                WtRowModel {
                    path: paths[i],
                    display_name: l.repo_name,
                    wt_label: worktree_label(paths[i], i),
                    repo_path: l.repo_path,
                },
        )
    }
}

/// The primary worktree in a listing, where there is one.
pub open spec fn primary_of(l: WtListingModel) -> Option<Seq<char>> {
    let paths = worktree_paths(lines(l.listing));
    if paths.len() > 0 {
        Some(paths[0])
    } else {
        None
    }
}

/// Whether two listings are of the same family: they have the same primary worktree.
pub open spec fn kin(a: WtListingModel, b: WtListingModel) -> bool {
    match (primary_of(a), primary_of(b)) {
        (Some(p), Some(q)) => same_path(p, q),
        _ => false,
    }
}

/// Whether a listing is that of the primary worktree itself.
pub open spec fn is_own(l: WtListingModel) -> bool {
    primary_of(l) matches Some(p) && same_path(p, l.repo_path)
}

/// Whether the listing at place `i` stands for its family rather than the one at place `j`: that of
/// the primary worktree does, or else the first.
pub open spec fn goes_first(ls: Seq<WtListingModel>, i: int, j: int) -> bool {
    if is_own(ls[i]) == is_own(ls[j]) {
        i <= j
    } else {
        is_own(ls[i])
    }
}

/// Whether the listing at place `i` stands for its family.
pub open spec fn heads_family(ls: Seq<WtListingModel>, i: int) -> bool {
    forall|j: int| 0 <= j < ls.len() && kin(ls[i], #[trigger] ls[j]) ==> goes_first(ls, i, j)
}

/// The rows of the first `n` repositories, one after the other, each family once.
pub open spec fn family_rows(ls: Seq<WtListingModel>, n: int) -> Seq<WtRowModel>
    decreases n,
{
    if n <= 0 {
        Seq::empty()
    } else if heads_family(ls, n - 1) {
        family_rows(ls, n - 1) + rows_of(ls[n - 1])
    } else {
        family_rows(ls, n - 1)
    }
}

/// Of two repositories of a family only one stands for it.
pub proof fn lemma_family_has_one_head(ls: Seq<WtListingModel>, i: int, j: int)
    requires
        0 <= i < ls.len(),
        0 <= j < ls.len(),
        kin(ls[i], ls[j]),
        heads_family(ls, i),
        heads_family(ls, j),
    ensures
        i == j,
{
    assert(kin(ls[j], ls[i]));
    assert(goes_first(ls, i, j));
    assert(goes_first(ls, j, i));
}

/// A repository with a primary worktree belongs to a family that is shown.
pub proof fn lemma_family_has_a_head(ls: Seq<WtListingModel>, i: int) -> (head: int)
    requires
        0 <= i < ls.len(),
        primary_of(ls[i]) is Some,
    ensures
        0 <= head < ls.len(),
        kin(ls[i], ls[head]),
        heads_family(ls, head),
    decreases
            (if is_own(ls[i]) {
                0int
            } else {
                1int
            }),
            i,
{
    if heads_family(ls, i) {
        i
    } else {
        let j = choose|j: int|
            0 <= j < ls.len() && kin(ls[i], #[trigger] ls[j]) && !goes_first(ls, i, j);
        lemma_family_has_a_head(ls, j)
    }
}

/// Appends the rows of one repository.
fn push_rows(rows: &mut Vec<WtDisplayRow>, l: &WtListing)
    ensures
        views_of(final(rows)@) == views_of(old(rows)@) + rows_of(l@),
{
    let ghost before = views_of(rows@);
    let paths = listed_paths(l.listing.as_str());
    let ghost all = worktree_paths(lines(l.listing@));
    if paths.len() <= 1 {
        let path = if paths.len() == 1 {
            proof {
                assert(all[0] == paths@[0]@);
            }
            paths[0].clone()
        } else {
            String::new()
        };
        rows.push(
            WtDisplayRow {
                path,
                display_name: l.repo_name.clone(),
                wt_label: l.repo_name.clone(),
                repo_path: l.repo_path.clone(),
            },
        );
        proof {
            assert(path@ =~= rows_of(l@)[0].path);
            assert(views_of(rows@) =~= before + rows_of(l@));
        }
        return;
    }
    let ghost model = rows_of(l@);
    proof {
        assert(before + model.take(0) =~= before);
    }
    for i in 0..paths.len()
        invariant
            texts(paths@) == all,
            all == worktree_paths(lines(l.listing@)),
            all.len() > 1,
            model == rows_of(l@),
            views_of(rows@) == before + model.take(i as int),
    {
        proof {
            assert(all[i as int] == paths@[i as int]@);
        }
        let wt_label = if i == 0 {
            "[main]".to_owned()
        } else {
            let base = match file_name_of(paths[i].as_str()) {
                Some(name) => show(name.as_str()),
                None => String::new(),
            };
            cat3("[", base.as_str(), "]")
        };
        let ghost so_far = views_of(rows@);
        let row = WtDisplayRow {
            path: paths[i].clone(),
            display_name: l.repo_name.clone(),
            wt_label,
            repo_path: l.repo_path.clone(),
        };
        rows.push(row);
        proof {
            assert(row@ == model[i as int]);
            assert(views_of(rows@) =~= so_far.push(row@));
            assert(before + model.take(i + 1) =~= so_far.push(model[i as int]));
        }
    }
    proof {
        assert(model.take(model.len() as int) =~= model);
    }
}

/// The primary worktree in a listing, where there is one.
fn primary_in(l: &WtListing) -> (r: Option<String>)
    ensures
        opt_text(r) == primary_of(l@),
{
    let paths = listed_paths(l.listing.as_str());
    if paths.len() > 0 {
        proof {
            assert(texts(paths@)[0] == paths@[0]@);
        }
        Some(paths[0].clone())
    } else {
        None
    }
}

/// Whether the listing at place `i` stands for its family, where `primaries` are the primary
/// worktrees of the listings.
fn is_head(ls: &Vec<WtListing>, primaries: &Vec<Option<String>>, i: usize) -> (r: bool)
    requires
        i < ls@.len(),
        primaries@.len() == ls@.len(),
        forall|j: int|
            0 <= j < ls@.len() ==> opt_text(#[trigger] primaries@[j]) == primary_of(ls@[j]@),
    ensures
        r == heads_family(views_of(ls@), i as int),
{
    let ghost all = views_of(ls@);
    proof {
        assert(all[i as int] == ls@[i as int]@);
    }
    let primary = match &primaries[i] {
        Some(p) => p,
        None => {
            return true;
        },
    };
    let own = is_same_path(primary.as_str(), ls[i].repo_path.as_str());
    for j in 0..ls.len()
        invariant
            i < ls@.len(),
            primaries@.len() == ls@.len(),
            forall|k: int|
                0 <= k < ls@.len() ==> opt_text(#[trigger] primaries@[k]) == primary_of(ls@[k]@),
            all == views_of(ls@),
            primary_of(all[i as int]) == Some(primary@),
            own == is_own(all[i as int]),
            forall|k: int|
                0 <= k < j && kin(all[i as int], #[trigger] all[k]) ==> goes_first(all, i as int, k),
    {
        proof {
            assert(all[j as int] == ls@[j as int]@);
            assert(opt_text(primaries@[j as int]) == primary_of(ls@[j as int]@));
        }
        if let Some(p) = &primaries[j] {
            if is_same_path(primary.as_str(), p.as_str()) {
                let other = is_same_path(p.as_str(), ls[j].repo_path.as_str());
                let first = if own == other {
                    i <= j
                } else {
                    own
                };
                if !first {
                    proof {
                        assert(kin(all[i as int], all[j as int]));
                    }
                    return false;
                }
            }
        }
    }
    true
}

/// The rows of the worktree view, in the order of the list, whatever the order in which the
/// listings came in. Repositories that share a primary worktree are shown together as one family,
/// once.
pub fn worktree_rows(listings: Vec<WtListing>) -> (r: Vec<WtDisplayRow>)
    ensures
        views_of(r@) == family_rows(
            sorted(views_of(listings@), by_rule::<WtListing>(())),
            listings@.len() as int,
        ),
{
    let ghost unsorted = views_of(listings@);
    let mut ls = listings;
    sort_by(&mut ls, &());
    let ghost all = views_of(ls@);
    proof {
        lemma_sorted_is_permutation(unsorted, by_rule::<WtListing>(()));
        unsorted.to_multiset_ensures();
        all.to_multiset_ensures();
        assert(all.len() == unsorted.len());
    }
    let mut primaries: Vec<Option<String>> = Vec::new();
    for i in 0..ls.len()
        invariant
            primaries@.len() == i,
            forall|j: int|
                0 <= j < i ==> opt_text(#[trigger] primaries@[j]) == primary_of(ls@[j]@),
    {
        primaries.push(primary_in(&ls[i]));
    }
    let mut rows: Vec<WtDisplayRow> = Vec::new();
    proof {
        assert(views_of(rows@) =~= Seq::<WtRowModel>::empty());
    }
    for i in 0..ls.len()
        invariant
            all == views_of(ls@),
            primaries@.len() == ls@.len(),
            forall|j: int|
                0 <= j < ls@.len() ==> opt_text(#[trigger] primaries@[j]) == primary_of(ls@[j]@),
            views_of(rows@) == family_rows(all, i as int),
    {
        proof {
            assert(all[i as int] == ls@[i as int]@);
        }
        if is_head(&ls, &primaries, i) {
            push_rows(&mut rows, &ls[i]);
        }
    }
    rows
}

// ── Operations ───────────────────────────────────────────────────────────────

/// An operation on the selected worktree.
#[derive(Debug)]
pub enum WorktreeOp {
    Remove,
    ToggleLock,
    Prune,
    Add { dest: String, branch: String },
}

/// An operation with its texts as sequences of characters.
pub enum WorktreeOpModel {
    Remove,
    ToggleLock,
    Prune,
    Add { dest: Seq<char>, branch: Seq<char> },
}

impl View for WorktreeOp {
    type V = WorktreeOpModel;

    open spec fn view(&self) -> WorktreeOpModel {
        match self {
            WorktreeOp::Remove => WorktreeOpModel::Remove,
            WorktreeOp::ToggleLock => WorktreeOpModel::ToggleLock,
            WorktreeOp::Prune => WorktreeOpModel::Prune,
            WorktreeOp::Add { dest, branch } => WorktreeOpModel::Add {
                dest: dest@,
                branch: branch@,
            },
        }
    }
}

impl WorktreeOpModel {
    /// What the user is told when the operation succeeded without a word.
    pub open spec fn label(self) -> Seq<char> {
        match self {
            WorktreeOpModel::Remove => "worktree removed"@,
            WorktreeOpModel::ToggleLock => "worktree lock toggled"@,
            WorktreeOpModel::Prune => "worktree pruned"@,
            WorktreeOpModel::Add { dest, branch } => "new worktree done"@,
        }
    }
}

impl WorktreeOp {
    /// What the user is told when the operation succeeded without a word.
    pub fn label(&self) -> (r: &'static str)
        ensures
            r@ == self@.label(),
    {
        match self {
            WorktreeOp::Remove => "worktree removed",
            WorktreeOp::ToggleLock => "worktree lock toggled",
            WorktreeOp::Prune => "worktree pruned",
            WorktreeOp::Add { dest, branch } => "new worktree done",
        }
    }
}

/// What a worktree is among the others.
#[derive(Debug)]
pub struct WorktreeContext {
    pub primary_path: String,
    pub selected_is_primary: bool,
    pub selected_is_locked: bool,
}

/// A context with its text as a sequence of characters.
pub struct ContextModel {
    pub primary_path: Seq<char>,
    pub selected_is_primary: bool,
    pub selected_is_locked: bool,
}

impl View for WorktreeContext {
    type V = ContextModel;

    open spec fn view(&self) -> ContextModel {
        ContextModel {
            primary_path: self.primary_path@,
            selected_is_primary: self.selected_is_primary,
            selected_is_locked: self.selected_is_locked,
        }
    }
}

/// The path `i` in its canonical form, which is the path itself where it has none.
pub open spec fn canonical(paths: Seq<Seq<char>>, norms: Seq<Seq<char>>, i: int) -> Seq<char> {
    if i < norms.len() {
        norms[i]
    } else {
        paths[i]
    }
}

/// Whether line `i` says that the worktree which it belongs to is locked, and that worktree is the
/// one with the canonical path `selected`.
pub open spec fn locks(
    ls: Seq<Seq<char>>,
    norms: Seq<Seq<char>>,
    selected: Seq<char>,
    i: int,
) -> bool {
    let paths = worktree_paths(ls.take(i));
    &&& after_prefix(ls[i], "worktree "@) is None
    &&& trimmed(ls[i]) == "locked"@
    &&& paths.len() > 0
    &&& canonical(paths, norms, paths.len() - 1) == selected
}

/// What the worktree at `selected` is in a listing, where `norm` is its canonical path and `norms`
/// are those of the paths in the listing.
pub open spec fn context_of(
    selected: Seq<char>,
    norm: Seq<char>,
    listing: Seq<char>,
    norms: Seq<Seq<char>>,
) -> ContextModel {
    let ls = lines(listing);
    let paths = worktree_paths(ls);
    ContextModel {
        primary_path: if paths.len() > 0 {
            paths[0]
        } else {
            selected
        },
        selected_is_primary: paths.len() == 0 || canonical(paths, norms, 0) == norm,
        selected_is_locked: exists|i: int| 0 <= i < ls.len() && #[trigger] locks(ls, norms, norm, i),
    }
}

/// What the worktree at `selected` is in a listing.
pub fn worktree_context(selected: &str, norm: &str, listing: &str, norms: &Vec<String>) -> (r:
    WorktreeContext)
    ensures
        r@ == context_of(selected@, norm@, listing@, texts(norms@)),
{
    let ls = split_lines(listing);
    let ghost all = lines(listing@);
    let ghost ns = texts(norms@);
    let mut paths: Vec<String> = Vec::new();
    let mut locked = false;
    proof {
        assert(all.take(0) =~= Seq::<Seq<char>>::empty());
        assert(texts(paths@) =~= Seq::<Seq<char>>::empty());
    }
    for i in 0..ls.len()
        invariant
            all == texts(ls@),
            ns == texts(norms@),
            texts(paths@) == worktree_paths(all.take(i as int)),
            locked <==> exists|j: int| 0 <= j < i && #[trigger] locks(all, ns, norm@, j),
    {
        proof {
            assert(all.take(i + 1).drop_last() =~= all.take(i as int));
            assert(all.take(i + 1).last() == ls@[i as int]@);
            assert(all[i as int] == ls@[i as int]@);
        }
        if let Some(path) = strip_prefix(ls[i].as_str(), "worktree ") {
            let owned = path.to_owned();
            proof {
                assert(!locks(all, ns, norm@, i as int));
                lemma_texts_push(paths@, owned);
            }
            paths.push(owned);
        } else {
            let ghost here = worktree_paths(all.take(i as int));
            let is_lock = same_text(trim(ls[i].as_str()), "locked");
            let own = if paths.len() > 0 {
                let k: usize = paths.len() - 1;
                proof {
                    assert(here[k as int] == paths@[k as int]@);
                }
                if k < norms.len() {
                    proof {
                        assert(ns[k as int] == norms@[k as int]@);
                    }
                    same_text(norms[k].as_str(), norm)
                } else {
                    same_text(paths[k].as_str(), norm)
                }
            } else {
                false
            };
            proof {
                assert(locks(all, ns, norm@, i as int) == (is_lock && own));
            }
            if is_lock && own {
                locked = true;
            }
        }
    }
    proof {
        assert(all.take(all.len() as int) =~= all);
    }
    if paths.len() == 0 {
        return WorktreeContext {
            primary_path: selected.to_owned(),
            selected_is_primary: true,
            selected_is_locked: locked,
        };
    }
    proof {
        assert(texts(paths@)[0] == paths@[0]@);
        if ns.len() > 0 {
            assert(ns[0] == norms@[0]@);
        }
    }
    let primary = if norms.len() > 0 {
        same_text(norms[0].as_str(), norm)
    } else {
        same_text(paths[0].as_str(), norm)
    };
    WorktreeContext {
        primary_path: paths[0].clone(),
        selected_is_primary: primary,
        selected_is_locked: locked,
    }
}

/// An operation on a worktree under way.
#[derive(Debug)]
pub enum WorktreeRun {
    /// The worktrees are to be listed, to remove the selected one.
    Removing { selected: String },
    /// The worktrees are to be listed, to lock or unlock the selected one.
    Locking { selected: String },
    /// The operation is being carried out.
    Acting(Task),
}

/// A run with its texts as sequences of characters.
#[verifier::ext_equal]
pub enum WorktreeRunModel {
    Removing { selected: Seq<char> },
    Locking { selected: Seq<char> },
    Acting(TaskModel),
}

impl View for WorktreeRun {
    type V = WorktreeRunModel;

    open spec fn view(&self) -> WorktreeRunModel {
        match self {
            WorktreeRun::Removing { selected } => WorktreeRunModel::Removing {
                selected: selected@,
            },
            WorktreeRun::Locking { selected } => WorktreeRunModel::Locking { selected: selected@ },
            WorktreeRun::Acting(task) => WorktreeRunModel::Acting(task@),
        }
    }
}

/// The run of `op` on the worktree at `selected`.
pub open spec fn worktree_run(selected: Seq<char>, op: WorktreeOpModel) -> WorktreeRunModel {
    match op {
        WorktreeOpModel::Prune => WorktreeRunModel::Acting(
            TaskModel::Last(plain_command(selected, seq!["worktree"@, "prune"@])),
        ),
        WorktreeOpModel::Add { dest, branch } => WorktreeRunModel::Acting(
            TaskModel::Last(
                plain_command(selected, seq!["worktree"@, "add"@, "-b"@, branch, shown(dest)]),
            ),
        ),
        WorktreeOpModel::Remove => WorktreeRunModel::Removing { selected },
        WorktreeOpModel::ToggleLock => WorktreeRunModel::Locking { selected },
    }
}

/// The task that removes the worktree at `selected`, unless that is the primary one.
pub open spec fn removal(selected: Seq<char>, ctx: ContextModel) -> TaskModel {
    if ctx.selected_is_primary {
        TaskModel::Done(Err(Fault::Config("cannot remove primary worktree"@)))
    } else {
        TaskModel::Last(
            plain_command(ctx.primary_path, seq!["worktree"@, "remove"@, shown(selected)]),
        )
    }
}

/// The task that locks the worktree at `selected`, or unlocks it where it is locked, unless that
/// is the primary one.
pub open spec fn lock_toggle(selected: Seq<char>, ctx: ContextModel) -> TaskModel {
    if ctx.selected_is_primary {
        TaskModel::Done(Err(Fault::Config("cannot lock primary worktree"@)))
    } else if ctx.selected_is_locked {
        TaskModel::Last(
            plain_command(ctx.primary_path, seq!["worktree"@, "unlock"@, shown(selected)]),
        )
    } else {
        TaskModel::Last(
            plain_command(ctx.primary_path, seq!["worktree"@, "lock"@, shown(selected)]),
        )
    }
}

impl WorktreeRunModel {
    /// The command to run next.
    pub open spec fn command(self) -> Option<CommandModel> {
        match self {
            WorktreeRunModel::Removing { selected } | WorktreeRunModel::Locking { selected } =>
                Some(
                plain_command(selected, seq!["worktree"@, "list"@, "--porcelain"@]),
            ),
            WorktreeRunModel::Acting(task) => task.command(),
        }
    }

    /// The run after the command ended with `o`, where `norm` and `norms` are the canonical paths
    /// of the selected worktree and of those that were listed.
    pub open spec fn advance(self, o: Outcome, norm: Seq<char>, norms: Seq<Seq<char>>) -> Self {
        match self {
            WorktreeRunModel::Removing { selected } => WorktreeRunModel::Acting(
                match said(o) {
                    Ok(listing) => removal(selected, context_of(selected, norm, listing, norms)),
                    Err(e) => TaskModel::Done(Err(e)),
                },
            ),
            WorktreeRunModel::Locking { selected } => WorktreeRunModel::Acting(
                match said(o) {
                    Ok(listing) => lock_toggle(
                        selected,
                        context_of(selected, norm, listing, norms),
                    ),
                    Err(e) => TaskModel::Done(Err(e)),
                },
            ),
            WorktreeRunModel::Acting(task) => WorktreeRunModel::Acting(task.advance(o)),
        }
    }
}

/// Run `op` against the worktree at `selected`. Removing and locking first list the worktrees, and
/// refuse on the primary checkout.
pub fn run_worktree_op(runner: &GitRunner, selected: &str, op: &WorktreeOp) -> (r: WorktreeRun)
    ensures
        r@ == worktree_run(selected@, op@),
{
    match op {
        WorktreeOp::Prune => WorktreeRun::Acting(Task::Last(runner.worktree_prune(selected))),
        WorktreeOp::Add { dest, branch } => WorktreeRun::Acting(
            Task::Last(runner.worktree_add(selected, dest.as_str(), branch.as_str(), true)),
        ),
        WorktreeOp::Remove => WorktreeRun::Removing { selected: selected.to_owned() },
        WorktreeOp::ToggleLock => WorktreeRun::Locking { selected: selected.to_owned() },
    }
}

impl WorktreeRun {
    /// The command to run next; none when the run is done.
    pub fn command(&self, runner: &GitRunner) -> (r: Option<GitCommand>)
        ensures
            match r {
                Some(c) => self@.command() == Some(c@),
                None => self@.command() is None,
            },
    {
        match self {
            WorktreeRun::Removing { selected } | WorktreeRun::Locking { selected } => Some(
                runner.worktree_list(selected.as_str()),
            ),
            WorktreeRun::Acting(task) => task.command(),
        }
    }

    /// The run after its command ended with `result`, where `norm` and `norms` are the canonical
    /// paths of the selected worktree and of those that were listed.
    pub fn advance(
        self,
        runner: &GitRunner,
        result: Result<GitOutput>,
        norm: &str,
        norms: &Vec<String>,
    ) -> (r: WorktreeRun)
        ensures
            r@ == self@.advance(outcome(result), norm@, texts(norms@)),
    {
        match self {
            WorktreeRun::Removing { selected } => {
                let listing = match say(result) {
                    Ok(listing) => listing,
                    Err(e) => {
                        return WorktreeRun::Acting(Task::Done(Err(e)));
                    },
                };
                let ctx = worktree_context(selected.as_str(), norm, listing.as_str(), norms);
                if ctx.selected_is_primary {
                    return WorktreeRun::Acting(
                        Task::Done(
                            Err(AppError::Config("cannot remove primary worktree".to_owned())),
                        ),
                    );
                }
                WorktreeRun::Acting(
                    Task::Last(
                        runner.worktree_remove(ctx.primary_path.as_str(), selected.as_str()),
                    ),
                )
            },
            WorktreeRun::Locking { selected } => {
                let listing = match say(result) {
                    Ok(listing) => listing,
                    Err(e) => {
                        return WorktreeRun::Acting(Task::Done(Err(e)));
                    },
                };
                let ctx = worktree_context(selected.as_str(), norm, listing.as_str(), norms);
                if ctx.selected_is_primary {
                    return WorktreeRun::Acting(
                        Task::Done(
                            Err(AppError::Config("cannot lock primary worktree".to_owned())),
                        ),
                    );
                }
                let primary = ctx.primary_path.as_str();
                let command = if ctx.selected_is_locked {
                    runner.worktree_unlock(primary, selected.as_str())
                } else {
                    runner.worktree_lock(primary, selected.as_str())
                };
                WorktreeRun::Acting(Task::Last(command))
            },
            WorktreeRun::Acting(task) => WorktreeRun::Acting(task.advance(result)),
        }
    }
}

/// The primary worktree is never removed, locked or unlocked: no command follows the listing that
/// shows the selected worktree to be the primary one.
pub proof fn lemma_primary_worktree_is_safe(
    selected: Seq<char>,
    o: Outcome,
    norm: Seq<char>,
    norms: Seq<Seq<char>>,
)
    requires
        said(o) matches Ok(listing) && context_of(
            selected,
            norm,
            listing,
            norms,
        ).selected_is_primary,
    ensures
        worktree_run(selected, WorktreeOpModel::Remove).advance(o, norm, norms).command() is None,
        worktree_run(selected, WorktreeOpModel::ToggleLock).advance(o, norm, norms).command()
            is None,
{
}

// ── New worktrees ────────────────────────────────────────────────────────────

/// `c`, or a dash where it is neither a letter nor a digit.
pub open spec fn dashed_char(c: char) -> char {
    if alphanumeric(c) {
        c
    } else {
        '-'
    }
}

/// `s` with dashes for all but letters and digits.
pub open spec fn dashed(s: Seq<char>) -> Seq<char> {
    s.map_values(|c: char| dashed_char(c))
}

/// A branch name as part of a directory name: dashes for all but letters and digits, and none at
/// either end.
pub open spec fn sanitized(branch: Seq<char>) -> Seq<char> {
    trimmed_end_set(trimmed_start_set(dashed(branch), seq!['-']), seq!['-'])
}

/// The path of a new worktree: beside the repository, named after it and the branch.
pub open spec fn worktree_path(repo: Seq<char>, branch: Seq<char>) -> Seq<char> {
    let name = match file_name(repo) {
        Some(n) => shown(n),
        None => "worktree"@,
    };
    let dir = match parent(repo) {
        Some(p) => p,
        None => repo,
    };
    child(dir, name + "."@ + sanitized(branch))
}

/// The path of a new worktree is not blank.
pub proof fn lemma_worktree_path_is_not_blank(repo: Seq<char>, branch: Seq<char>)
    ensures
        !blank(worktree_path(repo, branch)),
{
    let name = match file_name(repo) {
        Some(n) => shown(n),
        None => "worktree"@,
    };
    let clean = sanitized(branch);
    let leaf = name + "."@ + clean;
    let path = worktree_path(repo, branch);
    reveal_strlit(".");
    assert(leaf[name.len() as int] == '.');
    let at = path.len() - leaf.len() + name.len();
    assert(path[at] == '.');
    lemma_visible_is_not_blank(path, at);
}

/// Default sibling path for a new linked worktree: `<repo>.<branch-sanitized>` next to the repo
/// it's created from.
pub fn default_worktree_path(repo_path: &str, branch: &str) -> (r: String)
    ensures
        r@ == worktree_path(repo_path@, branch@),
{
    let name = match file_name_of(repo_path) {
        Some(n) => show(n.as_str()),
        None => "worktree".to_owned(),
    };
    let cs = chars_of(branch);
    let mut out: Vec<char> = Vec::new();
    for i in 0..cs.len()
        invariant
            cs@ == branch@,
            out@ == dashed(branch@).take(i as int),
    {
        out.push(
            if is_alphanumeric(cs[i]) {
                cs[i]
            } else {
                '-'
            },
        );
    }
    proof {
        assert(dashed(branch@).take(branch@.len() as int) =~= dashed(branch@));
    }
    let all = string_of(out.as_slice());
    let dash: [char; 1] = ['-'];
    proof {
        assert(dash@ =~= seq!['-']);
    }
    let clean = trim_end_set(trim_start_set(all.as_str(), &dash), &dash);
    let dir = match parent_of(repo_path) {
        Some(p) => p,
        None => repo_path.to_owned(),
    };
    let leaf = cat3(name.as_str(), ".", clean);
    child_of(dir.as_str(), leaf.as_str())
}

/// Trimming keeps to what was there.
proof fn lemma_trim_keeps(s: Seq<char>, set: Seq<char>)
    requires
        forall|i: int| 0 <= i < s.len() ==> alphanumeric(#[trigger] s[i]) || s[i] == '-',
    ensures
        forall|i: int|
            0 <= i < trimmed_start_set(s, set).len() ==> alphanumeric(
                #[trigger] trimmed_start_set(s, set)[i],
            ) || trimmed_start_set(s, set)[i] == '-',
        forall|i: int|
            0 <= i < trimmed_end_set(s, set).len() ==> alphanumeric(
                #[trigger] trimmed_end_set(s, set)[i],
            ) || trimmed_end_set(s, set)[i] == '-',
        trimmed_start_set(s, set).len() > 0 ==> !set.contains(trimmed_start_set(s, set)[0]),
        trimmed_end_set(s, set).len() > 0 ==> !set.contains(trimmed_end_set(s, set).last()),
        trimmed_end_set(s, set).len() > 0 ==> trimmed_end_set(s, set)[0] == s[0],
    decreases s.len(),
{
    if s.len() > 0 {
        let t = s.drop_first();
        let u = s.drop_last();
        assert forall|i: int| 0 <= i < t.len() implies alphanumeric(#[trigger] t[i]) || t[i]
            == '-' by {
            assert(t[i] == s[i + 1]);
        }
        assert forall|i: int| 0 <= i < u.len() implies alphanumeric(#[trigger] u[i]) || u[i]
            == '-' by {
            assert(u[i] == s[i]);
        }
        lemma_trim_keeps(t, set);
        lemma_trim_keeps(u, set);
    }
}

/// A sanitized name holds letters, digits and dashes only, and has no dash at either end: it is a
/// single part of a path, whatever the name of the branch.
pub proof fn lemma_sanitized_is_one_part(branch: Seq<char>)
    ensures
        forall|i: int|
            0 <= i < sanitized(branch).len() ==> alphanumeric(#[trigger] sanitized(branch)[i])
                || sanitized(branch)[i] == '-',
        sanitized(branch).len() > 0 ==> sanitized(branch)[0] != '-' && sanitized(branch).last()
            != '-',
{
    let d = dashed(branch);
    let set = seq!['-'];
    assert(set[0] == '-');
    assert(set.contains('-'));
    lemma_trim_keeps(d, set);
    lemma_trim_keeps(trimmed_start_set(d, set), set);
}

} // verus!
