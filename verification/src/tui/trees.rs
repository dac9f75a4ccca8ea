//! What is read back of a listing of worktrees, and what is done to them.

use vstd::prelude::*;
use vstd::string::*;

use crate::chars::{alphanumeric, lines, trimmed};
use crate::error::Fault;
use crate::git::command::{said, CommandModel, Outcome};
use crate::native::shown;
use crate::paths::{child, file_name, parent, same_path};
use crate::scanning::{lemma_child_is_in_directory, lemma_parent_of_child, plain_name};
use crate::tui::worktree::{
    canonical, dashed, family_rows, goes_first, heads_family, kin, locks, rows_of, sanitized,
    worktree_path, worktree_paths,
    worktree_run, WorktreeOpModel, WtListingModel,
};

verus! {

/// A line of a listing that starts with `worktree ` tells the path of one more worktree, and no
/// other line does.
pub proof fn lemma_listing_tells_worktrees(ls: Seq<Seq<char>>, path: Seq<char>, line: Seq<char>)
    ensures
        worktree_paths(ls.push("worktree "@ + path)) == worktree_paths(ls).push(path),
        !"worktree "@.is_prefix_of(line) ==> worktree_paths(ls.push(line)) == worktree_paths(ls),
        worktree_paths(Seq::empty()).len() == 0,
{
    let told = "worktree "@ + path;
    assert(told.subrange(0, 0 + "worktree "@.len() as int) =~= "worktree "@);
    assert(told.skip("worktree "@.len() as int) =~= path);
    assert(ls.push(told).drop_last() =~= ls);
    assert(ls.push(line).drop_last() =~= ls);
}

/// A repository with worktrees has a row for each, at its path: the first is called `[main]`, and
/// any other after its directory. One without has a row under its own name.
pub proof fn lemma_rows_show_worktrees(l: WtListingModel, i: int)
    ensures
        ({
            let paths = worktree_paths(lines(l.listing));
            let rows = rows_of(l);
            &&& paths.len() > 1 ==> rows.len() == paths.len()
            &&& paths.len() > 1 ==> rows[0].wt_label == "[main]"@
            &&& paths.len() > 1 && 0 <= i < paths.len() ==> {
                &&& rows[i].path == paths[i]
                &&& rows[i].repo_path == l.repo_path
                &&& rows[i].display_name == l.repo_name
                &&& i > 0 ==> (file_name(paths[i]) matches Some(name) ==> rows[i].wt_label == "["@
                    + shown(name) + "]"@)
            }
            &&& paths.len() <= 1 ==> rows.len() == 1 && rows[0].repo_path == l.repo_path
                && rows[0].wt_label == l.repo_name && rows[0].display_name == l.repo_name
            &&& paths.len() == 1 ==> rows[0].path == paths[0]
        }),
{
}

/// Of the repositories of a family the rows of one are shown, and of one without worktrees its own.
pub proof fn lemma_families_are_shown_once(ls: Seq<WtListingModel>, n: int)
    requires
        0 <= n < ls.len(),
    ensures
        heads_family(ls, n) ==> family_rows(ls, n + 1) == family_rows(ls, n) + rows_of(ls[n]),
        !heads_family(ls, n) ==> family_rows(ls, n + 1) == family_rows(ls, n),
        family_rows(ls, 0).len() == 0,
        worktree_paths(lines(ls[n].listing)).len() == 0 ==> heads_family(ls, n),
{
}

/// A family is shown by the repository that is its first worktree, where that is in the list.
pub proof fn lemma_first_worktree_stands_for_family(ls: Seq<WtListingModel>, i: int, j: int)
    requires
        0 <= i < ls.len(),
        0 <= j < ls.len(),
        heads_family(ls, i),
        worktree_paths(lines(ls[i].listing)).len() > 0,
        worktree_paths(lines(ls[j].listing)).len() > 0,
        same_path(
            worktree_paths(lines(ls[i].listing))[0],
            worktree_paths(lines(ls[j].listing))[0],
        ),
        same_path(worktree_paths(lines(ls[j].listing))[0], ls[j].repo_path),
    ensures
        same_path(worktree_paths(lines(ls[i].listing))[0], ls[i].repo_path),
{
    assert(kin(ls[i], ls[j]));
    assert(goes_first(ls, i, j));
}

/// Whether `command` is git run in `dir` with `args`.
pub open spec fn does(command: Option<CommandModel>, dir: Seq<char>, args: Seq<Seq<char>>) -> bool {
    command matches Some(c) && c.dir == dir && c.args == args && c.credentials is None
}

/// Pruning and adding are done at once: a new worktree comes with a new branch, at its place.
pub proof fn lemma_prune_and_add(selected: Seq<char>, dest: Seq<char>, branch: Seq<char>)
    ensures
        does(
            worktree_run(selected, WorktreeOpModel::Prune).command(),
            selected,
            seq!["worktree"@, "prune"@],
        ),
        does(
            worktree_run(selected, WorktreeOpModel::Add { dest, branch }).command(),
            selected,
            seq!["worktree"@, "add"@, "-b"@, branch, shown(dest)],
        ),
{
}

/// Removing, locking and unlocking ask for the listing first, and a listing that could not be had
/// ends them with its error.
pub proof fn lemma_listing_comes_first(
    selected: Seq<char>,
    op: WorktreeOpModel,
    o: Outcome,
    norm: Seq<char>,
    norms: Seq<Seq<char>>,
)
    requires
        op is Remove || op is ToggleLock,
    ensures
        does(
            worktree_run(selected, op).command(),
            selected,
            seq!["worktree"@, "list"@, "--porcelain"@],
        ),
        o is Err ==> worktree_run(selected, op).advance(o, norm, norms).command() is None,
{
}

/// Whether the listing has the selected worktree as its first.
pub open spec fn selected_is_first(
    ls: Seq<Seq<char>>,
    norm: Seq<char>,
    norms: Seq<Seq<char>>,
) -> bool {
    worktree_paths(ls).len() == 0 || canonical(worktree_paths(ls), norms, 0) == norm
}

/// A worktree that is not the first is removed, from the first.
pub proof fn lemma_removal_removes(
    selected: Seq<char>,
    o: Outcome,
    listing: Seq<char>,
    norm: Seq<char>,
    norms: Seq<Seq<char>>,
)
    requires
        said(o) == Ok::<Seq<char>, Fault>(listing),
        !selected_is_first(lines(listing), norm, norms),
    ensures
        does(
            worktree_run(selected, WorktreeOpModel::Remove).advance(o, norm, norms).command(),
            worktree_paths(lines(listing))[0],
            seq!["worktree"@, "remove"@, shown(selected)],
        ),
{
}

/// A worktree that is not the first is unlocked where a line below its own says that it is locked.
pub proof fn lemma_locked_is_unlocked(
    selected: Seq<char>,
    o: Outcome,
    listing: Seq<char>,
    norm: Seq<char>,
    norms: Seq<Seq<char>>,
    i: int,
)
    requires
        said(o) == Ok::<Seq<char>, Fault>(listing),
        !selected_is_first(lines(listing), norm, norms),
        0 <= i < lines(listing).len(),
        trimmed(lines(listing)[i]) == "locked"@,
        !"worktree "@.is_prefix_of(lines(listing)[i]),
        worktree_paths(lines(listing).take(i)).len() > 0,
        canonical(
            worktree_paths(lines(listing).take(i)),
            norms,
            worktree_paths(lines(listing).take(i)).len() - 1,
        ) == norm,
    ensures
        does(
            worktree_run(selected, WorktreeOpModel::ToggleLock).advance(o, norm, norms).command(),
            worktree_paths(lines(listing))[0],
            seq!["worktree"@, "unlock"@, shown(selected)],
        ),
{
    let ls = lines(listing);
    assert(locks(ls, norms, norm, i));
}

/// A worktree that is not the first is locked where no line says of any that it is locked.
pub proof fn lemma_unlocked_is_locked(
    selected: Seq<char>,
    o: Outcome,
    listing: Seq<char>,
    norm: Seq<char>,
    norms: Seq<Seq<char>>,
)
    requires
        said(o) == Ok::<Seq<char>, Fault>(listing),
        !selected_is_first(lines(listing), norm, norms),
        forall|i: int|
            0 <= i < lines(listing).len() ==> trimmed(#[trigger] lines(listing)[i]) != "locked"@,
    ensures
        does(
            worktree_run(selected, WorktreeOpModel::ToggleLock).advance(o, norm, norms).command(),
            worktree_paths(lines(listing))[0],
            seq!["worktree"@, "lock"@, shown(selected)],
        ),
{
    let ls = lines(listing);
    assert forall|i: int| 0 <= i < ls.len() implies !(#[trigger] locks(ls, norms, norm, i)) by {
        assert(trimmed(ls[i]) != "locked"@);
    }
}

/// The first worktree is neither removed nor locked, and the user is told so.
pub proof fn lemma_first_is_refused(
    selected: Seq<char>,
    o: Outcome,
    listing: Seq<char>,
    norm: Seq<char>,
    norms: Seq<Seq<char>>,
)
    requires
        said(o) == Ok::<Seq<char>, Fault>(listing),
        selected_is_first(lines(listing), norm, norms),
    ensures
        worktree_run(selected, WorktreeOpModel::Remove).advance(o, norm, norms).command() is None,
        worktree_run(selected, WorktreeOpModel::ToggleLock).advance(o, norm, norms).command()
            is None,
{
}

/// Letters and digits are all that is left as it is of a name of letters and digits.
proof fn lemma_letters_stay(branch: Seq<char>)
    requires
        branch.len() > 0,
        forall|i: int| 0 <= i < branch.len() ==> alphanumeric(#[trigger] branch[i]),
    ensures
        sanitized(branch) == branch,
{
    assert(dashed(branch) =~= branch);
    let set = seq!['-'];
    assert(!set.contains(branch[0]));
    assert(!set.contains(branch[branch.len() - 1]));
}

/// A new worktree goes beside its repository, under the name of the repository and that of the
/// branch with a dot between them.
pub proof fn lemma_worktree_goes_beside_repository(
    dir: Seq<char>,
    name: Seq<char>,
    branch: Seq<char>,
)
    requires
        plain_name(name),
        !name.contains('\0'),
        dir.len() > 0,
        dir.last() != '/',
        dir.last() != '.',
        branch.len() > 0,
        forall|i: int| 0 <= i < branch.len() ==> alphanumeric(#[trigger] branch[i]),
    ensures
        worktree_path(child(dir, name), branch) == child(dir, name + "."@ + branch),
{
    lemma_child_is_in_directory(dir, name);
    lemma_parent_of_child(dir, name);
    lemma_letters_stay(branch);
}

/// A repository without a name gives its new worktree one.
pub proof fn lemma_worktree_of_nameless_repository(repo: Seq<char>, dir: Seq<char>, branch: Seq<char>)
    requires
        file_name(repo) is None,
        branch.len() > 0,
        forall|i: int| 0 <= i < branch.len() ==> alphanumeric(#[trigger] branch[i]),
    ensures
        parent(repo) == Some(dir) ==> worktree_path(repo, branch) == child(
            dir,
            "worktree"@ + "."@ + branch,
        ),
        parent(repo) is None ==> worktree_path(repo, branch) == child(
            repo,
            "worktree"@ + "."@ + branch,
        ),
{
    lemma_letters_stay(branch);
}

/// Any other character of a branch becomes a dash in the name of its worktree.
pub proof fn lemma_other_characters_become_dashes(a: Seq<char>, c: char, b: Seq<char>)
    requires
        a.len() > 0,
        b.len() > 0,
        forall|i: int| 0 <= i < a.len() ==> alphanumeric(#[trigger] a[i]),
        forall|i: int| 0 <= i < b.len() ==> alphanumeric(#[trigger] b[i]),
        !alphanumeric(c),
    ensures
        sanitized(a + seq![c] + b) == a + seq!['-'] + b,
{
    let s = a + seq![c] + b;
    let t = a + seq!['-'] + b;
    assert(dashed(s) =~= t);
    let set = seq!['-'];
    assert(t[0] == a[0]);
    assert(t.last() == b[b.len() - 1]);
    assert(!set.contains(t[0]));
    assert(!set.contains(t.last()));
}

} // verus!
