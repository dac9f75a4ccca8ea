//! What paths, searching for repositories and the configuration come to.

use vstd::prelude::*;
use vstd::string::*;

use crate::chars::{begins_with, finishes_with, pieces};
use crate::config::{
    at_home, config_file_of, existing, first_file, first_of, migrated, requested, FileModel,
    ProbeModel,
};
use crate::discovery::{
    begun, found_among, searched_next, CandidateModel, DiscoveryModel, EntryModel,
    MarkerModel,
};
use crate::error::Fault;
use crate::meaning::{lemma_pieces_hold_no_separator, lemma_pieces_of_both};
use crate::mode::Mode;
use crate::paths::{
    before_parts, child, components, counting, file_name, last_piece, last_piece_start, parent,
    rooted, same_path, without_last_piece, without_tail,
};

verus! {

// ── Paths ────────────────────────────────────────────────────────────────────

/// Whether `name` is a single part of a path, and neither a dot nor two.
pub open spec fn plain_name(name: Seq<char>) -> bool {
    &&& name.len() > 0
    &&& !name.contains('/')
    &&& name != "."@
    &&& name != ".."@
}

/// Which pieces count depends on the pieces alone.
proof fn lemma_counting_same(ps: Seq<Seq<char>>, qs: Seq<Seq<char>>, n: int)
    requires
        n <= ps.len(),
        n <= qs.len(),
        forall|i: int| 0 <= i < n ==> #[trigger] ps[i] == qs[i],
    ensures
        counting(ps, n) == counting(qs, n),
    decreases n,
{
    if n > 0 {
        lemma_counting_same(ps, qs, n - 1);
        assert(ps[n - 1] == qs[n - 1]);
    }
}

/// The path of a name in a directory has the components of the directory, and then the name.
pub proof fn lemma_child_is_in_directory(dir: Seq<char>, name: Seq<char>)
    requires
        plain_name(name),
    ensures
        components(child(dir, name)) == components(dir).push(name),
        file_name(child(dir, name)) == Some(name),
{
    reveal_strlit("/");
    reveal_strlit(".");
    assert(name[0] != '/') by {
        if name[0] == '/' {
            assert(name.contains('/'));
        }
    }
    assert(!begins_with(name, "/"@)) by {
        if begins_with(name, "/"@) {
            assert(name.subrange(0, 1)[0] == '/');
        }
    }
    lemma_pieces_hold_no_separator(name, '/');
    let path = child(dir, name);
    let ps = pieces(path, '/');
    if dir.len() == 0 {
        assert(path == name);
        assert(ps =~= seq![name]);
        reveal_with_fuel(counting, 2);
        assert(dir =~= Seq::<char>::empty());
        assert(pieces(dir, '/') =~= seq![Seq::<char>::empty()]);
        assert(components(dir) =~= Seq::<Seq<char>>::empty());
        assert(components(path) =~= seq![name]);
    } else {
        let base = if finishes_with(dir, "/"@) {
            dir.drop_last()
        } else {
            dir
        };
        if finishes_with(dir, "/"@) {
            assert(dir.subrange(dir.len() - 1, dir.len() as int)[0] == dir.last());
            assert(dir =~= base + seq!['/'] + Seq::<char>::empty());
            assert(path =~= base + seq!['/'] + name);
            lemma_pieces_of_both(base, Seq::empty(), '/');
            assert(pieces(dir, '/') =~= pieces(base, '/').push(Seq::empty()));
        } else {
            assert("/"@ =~= seq!['/']);
            assert(path =~= base + seq!['/'] + name);
        }
        lemma_pieces_of_both(base, name, '/');
        let bs = pieces(base, '/');
        let ds = pieces(dir, '/');
        let n = bs.len() as int;
        crate::chars::lemma_pieces_some(base, '/');
        assert(ps =~= bs.push(name));
        lemma_counting_same(ps, bs, n);
        lemma_counting_same(ds, bs, n);
        assert(counting(ds, ds.len() as int) == counting(bs, n));
        assert(counting(ps, n + 1) == counting(bs, n).push(name));
        assert(path[0] == dir[0]);
        assert(rooted(path) == rooted(dir));
        assert(components(path) =~= components(dir).push(name));
    }
    assert(name != "/"@);
}

/// A name without slashes is the last piece of a path.
proof fn lemma_last_piece_is_name(dir: Seq<char>, name: Seq<char>, floor: int)
    requires
        0 <= floor <= dir.len(),
        !name.contains('/'),
    ensures
        last_piece_start(dir + seq!['/'] + name, floor) == dir.len() + 1,
    decreases name.len(),
{
    let path = dir + seq!['/'] + name;
    if name.len() > 0 {
        let short = name.drop_last();
        assert(name[name.len() - 1] != '/') by {
            if name[name.len() - 1] == '/' {
                assert(name.contains('/'));
            }
        }
        assert(!short.contains('/')) by {
            if short.contains('/') {
                let k = choose|k: int| 0 <= k < short.len() && short[k] == '/';
                assert(name[k] == '/');
            }
        }
        lemma_last_piece_is_name(dir, short, floor);
        assert(path.drop_last() =~= dir + seq!['/'] + short);
        assert(path.last() == name.last());
    } else {
        assert(path.last() == '/');
    }
}

/// The directory that a name was put into is where it is found again.
pub proof fn lemma_parent_of_child(dir: Seq<char>, name: Seq<char>)
    requires
        plain_name(name),
        dir.len() > 0,
        dir.last() != '/',
        dir.last() != '.',
    ensures
        parent(child(dir, name)) == Some(dir),
{
    reveal_strlit("/");
    reveal_strlit(".");
    assert(!begins_with(name, "/"@)) by {
        if begins_with(name, "/"@) {
            assert(name.subrange(0, 1)[0] == '/');
            assert(name.contains('/'));
        }
    }
    assert(!finishes_with(dir, "/"@)) by {
        if finishes_with(dir, "/"@) {
            assert(dir.subrange(dir.len() - 1, dir.len() as int)[0] == dir.last());
        }
    }
    assert("/"@ =~= seq!['/']);
    let path = child(dir, name);
    assert(path == dir + seq!['/'] + name);
    let floor = before_parts(path);
    assert(path[0] == dir[0]);
    lemma_last_piece_is_name(dir, name, floor);
    assert(last_piece(path, floor) =~= name);
    assert(without_tail(path, floor) == path);
    assert(without_last_piece(path, floor) =~= dir);
    if dir.len() > floor {
        lemma_start_in_path(dir.drop_last(), floor);
        let last = last_piece(dir, floor);
        assert(last.last() == dir.last());
        assert(without_tail(dir, floor) == dir);
    }
}

/// The last piece starts within the path.
proof fn lemma_start_in_path(path: Seq<char>, floor: int)
    requires
        0 <= floor <= path.len(),
    ensures
        floor <= last_piece_start(path, floor) <= path.len(),
    decreases path.len(),
{
    if path.len() > floor && path.last() != '/' {
        lemma_start_in_path(path.drop_last(), floor);
    }
}

/// Repeated slashes, a slash at the end and dots between parts make no other path.
pub proof fn lemma_slashes_and_dots_do_not_count(dir: Seq<char>)
    requires
        dir.len() > 0,
    ensures
        same_path(dir, dir + seq!['/']),
        same_path(dir, dir + seq!['/', '.']),
{
    reveal_strlit(".");
    let none = Seq::<char>::empty();
    let dot = seq!['.'];
    let bs = pieces(dir, '/');
    let n = bs.len() as int;
    crate::chars::lemma_pieces_some(dir, '/');
    assert(dir + seq!['/'] =~= dir + seq!['/'] + none);
    lemma_pieces_of_both(dir, none, '/');
    let one = pieces(dir + seq!['/'], '/');
    assert(one =~= bs.push(none));
    lemma_counting_same(one, bs, n);
    assert(dir + seq!['/', '.'] =~= dir + seq!['/'] + dot);
    lemma_pieces_of_both(dir, dot, '/');
    lemma_pieces_hold_no_separator(dot, '/');
    let other = pieces(dir + seq!['/', '.'], '/');
    assert(!dot.contains('/'));
    assert(other =~= bs.push(dot));
    lemma_counting_same(other, bs, n);
    assert(dot =~= "."@);
    assert((dir + seq!['/'])[0] == dir[0]);
    assert((dir + seq!['/', '.'])[0] == dir[0]);
}

// ── Searching ────────────────────────────────────────────────────────────────

/// A `.git` marks a repository where it is a directory, or a file that starts with `gitdir:`; and
/// nothing else does.
pub proof fn lemma_what_marks_a_repository(rest: Seq<char>, line: Seq<char>)
    ensures
        MarkerModel::Directory.marks(),
        !MarkerModel::Missing.marks(),
        !MarkerModel::Other.marks(),
        !MarkerModel::File(None).marks(),
        MarkerModel::File(Some("gitdir:"@ + rest)).marks(),
        MarkerModel::File(Some(line)).marks() <==> "gitdir:"@.is_prefix_of(line),
{
    let s = "gitdir:"@ + rest;
    assert(s.subrange(0, 0 + "gitdir:"@.len() as int) =~= "gitdir:"@);
}

/// Whether an entry is a directory other than `.git`.
pub open spec fn directory(e: EntryModel) -> bool {
    e.is_dir && e.name != ".git"@
}

/// Where a directory is: its canonical path, where it has one.
pub open spec fn whereabouts(c: CandidateModel) -> Seq<char> {
    match c.canonical {
        Some(p) => p,
        None => c.path,
    }
}

/// A directory that is marked is a repository, one that is not is searched in its turn, and what is
/// no directory is neither.
pub proof fn lemma_entries_are_told_apart(entries: Seq<EntryModel>, e: EntryModel)
    ensures
        ({
            let all = entries.push(e);
            &&& directory(e) && e.place.marker.marks() ==> found_among(all) == found_among(
                entries,
            ).push(whereabouts(e.place)) && searched_next(all) == searched_next(entries)
            &&& directory(e) && !e.place.marker.marks() ==> searched_next(all) == searched_next(
                entries,
            ).push(whereabouts(e.place)) && found_among(all) == found_among(entries)
            &&& !directory(e) ==> found_among(all) == found_among(entries) && searched_next(all)
                == searched_next(entries)
            &&& found_among(Seq::empty()).len() == 0
            &&& searched_next(Seq::empty()).len() == 0
        }),
{
    assert(entries.push(e).drop_last() =~= entries);
}

/// A root that is marked is a repository, and is searched as all roots are.
pub proof fn lemma_roots_count_and_are_searched(
    roots: Seq<CandidateModel>,
    c: CandidateModel,
    depth: usize,
)
    ensures
        ({
            let one = begun(roots, depth);
            let other = begun(roots.push(c), depth);
            &&& other.search == one.search.push(c.path)
            &&& c.marker.marks() ==> other.found == one.found.push(whereabouts(c))
            &&& !c.marker.marks() ==> other.found == one.found
            &&& depth > 0 ==> one.left == depth
            &&& depth == 0 ==> one.left == 1
        }),
{
    assert(roots.push(c).drop_last() =~= roots);
    assert(begun(roots.push(c), depth).search =~= begun(roots, depth).search.push(c.path));
}

/// A level takes the repositories in, hands on the other directories, and counts down; when there is
/// no level left, nothing changes. Without a repository the search has failed.
pub proof fn lemma_levels_count_down(s: DiscoveryModel, entries: Seq<EntryModel>)
    ensures
        s.left > 0 ==> s.after(entries).left == s.left - 1,
        s.left > 0 ==> s.after(entries).found == s.found + found_among(entries),
        s.left > 0 ==> s.after(entries).search == searched_next(entries),
        s.left == 0 ==> s.after(entries) == s,
        s.outcome() is Err <==> s.found.len() == 0,
        s.found.len() == 0 ==> s.outcome()->Err_0 == Fault::NoRepositoriesFound,
{
}

// ── Configuration ────────────────────────────────────────────────────────────

/// The configuration lies in `gitbatch/config.yml` below that of the user, and cannot lie anywhere
/// where that is not known.
pub proof fn lemma_where_configuration_lies(base: Seq<char>)
    ensures
        config_file_of(Some(base)) == Ok::<Seq<char>, Fault>(
            child(child(base, "gitbatch"@), "config.yml"@),
        ),
        config_file_of(None) is Err,
{
}

/// A leading `~` stands for the home directory, alone or before a slash; any other path stays.
pub proof fn lemma_tilde_is_home(home: Seq<char>, rest: Seq<char>, path: Seq<char>)
    ensures
        at_home("~/"@ + rest, Some(home)) == home + "/"@ + rest,
        at_home("~"@, Some(home)) == home,
        at_home(path, None) == path,
        path != "~"@ && !"~/"@.is_prefix_of(path) ==> at_home(path, Some(home)) == path,
{
    reveal_strlit("~/");
    reveal_strlit("~");
    reveal_strlit("/");
    let p = "~/"@ + rest;
    assert(p.subrange(0, 2) =~= "~/"@);
    assert(home + p.skip(1) =~= home + "/"@ + rest);
    assert(home + "~"@.skip(1) =~= home);
}

/// The directories of the command line outrank those of the file, and those the current one.
pub proof fn lemma_directories_to_scan(
    given: Seq<Seq<char>>,
    file: FileModel,
    paths: Seq<Seq<char>>,
    current: Seq<char>,
    home: Option<Seq<char>>,
    i: int,
)
    ensures
        given.len() > 0 ==> requested(given, file, current, home) == given,
        given.len() == 0 && file.paths is None ==> requested(given, file, current, home)
            == seq![current],
        given.len() == 0 && file.paths == Some(Seq::<Seq<char>>::empty()) ==> requested(
            given,
            file,
            current,
            home,
        ) == seq![current],
        given.len() == 0 && file.paths == Some(paths) && 0 <= i < paths.len() ==> {
            let r = requested(given, file, current, home);
            r.len() == paths.len() && r[i] == at_home(paths[i], home)
        },
{
}

/// Of the command line, the file and the default the first that says something counts.
pub proof fn lemma_command_line_outranks_file<T>(a: T, b: T, otherwise: T, of_file: Option<T>)
    ensures
        first_of(Some(a), of_file, otherwise) == a,
        first_of(None, Some(b), otherwise) == b,
        first_of(None, None, otherwise) == otherwise,
{
}

/// Directories that are not there are left out, and the others go by their canonical paths.
pub proof fn lemma_missing_directories_are_left_out(probes: Seq<ProbeModel>, p: ProbeModel)
    ensures
        !p.exists ==> existing(probes.push(p)) == existing(probes),
        p.exists && p.canonical is Some ==> existing(probes.push(p)) == existing(probes).push(
            p.canonical->0,
        ),
        p.exists && p.canonical is None ==> existing(probes.push(p)) == existing(probes).push(p.path),
        existing(Seq::empty()).len() == 0,
{
    assert(probes.push(p).drop_last() =~= probes);
}

/// The first file asks for the least: pulling, one level deep, and nothing quick, traced or stashed.
/// A file in which fetching was a batch mode pulls from then on, and any other mode stays.
pub proof fn lemma_modes_of_files(file: FileModel, mode: Mode)
    ensures
        first_file().mode == Some(Mode::Pull),
        first_file().recursion == Some(1usize),
        first_file().quick == Some(false) && first_file().trace == Some(false)
            && first_file().auto_stash == Some(false),
        first_file().paths is None,
        file.mode == Some(Mode::Fetch) ==> migrated(file).mode == Some(Mode::Pull),
        file.mode == Some(mode) && mode != Mode::Fetch ==> migrated(file).mode == Some(mode),
        file.mode is None ==> migrated(file).mode is None,
        migrated(file).paths == file.paths && migrated(file).recursion == file.recursion
            && migrated(file).quick == file.quick && migrated(file).trace == file.trace
            && migrated(file).auto_stash == file.auto_stash,
{
}

} // verus!
