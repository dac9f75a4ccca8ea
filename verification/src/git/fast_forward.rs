//! Whether a fast-forward-only pull can run without touching local changes.

use vstd::prelude::*;
use vstd::string::*;

use crate::chars::{
    first_occurrences, holds_text, lemma_first_occurrences_distinct, non_empty, pieces, push_new,
    split_char, texts,
};
use crate::error::Result;
use crate::git::command::{outcome, reading_command, CommandModel, GitCommand, GitOutput, Outcome};
use crate::git::runner::GitRunner;

verus! {

/// The paths in the NUL-delimited output of a `git … -z` command.
pub open spec fn nul_paths(output: Seq<char>) -> Seq<Seq<char>> {
    non_empty(pieces(output, '\0'))
}

/// Split NUL-delimited `git … -z` output into its paths, each listed once. NUL-delimiting (rather
/// than the newline-delimited default) is what keeps this correct for paths containing newlines
/// and other unusual bytes.
pub fn parse_nul_list(output: &str) -> (r: Vec<String>)
    ensures
        texts(r@) == first_occurrences(nul_paths(output@)),
{
    let parts = split_char(output, '\0');
    let ghost all = pieces(output@, '\0');
    let mut out: Vec<String> = Vec::new();
    proof {
        assert(texts(out@) =~= first_occurrences(non_empty(all.take(0))));
    }
    for i in 0..parts.len()
        invariant
            all == texts(parts@),
            texts(out@) == first_occurrences(non_empty(all.take(i as int))),
    {
        proof {
            assert(all.take(i + 1).drop_last() =~= all.take(i as int));
            assert(all.take(i + 1).last() == parts@[i as int]@);
        }
        if !parts[i].as_str().is_empty() {
            proof {
                let before = non_empty(all.take(i as int));
                assert(before.push(parts@[i as int]@).drop_last() =~= before);
            }
            push_new(&mut out, parts[i].as_str());
        }
    }
    proof {
        assert(all.take(all.len() as int) =~= all);
    }
    out
}

/// Whether no path is in both lists.
pub open spec fn apart(a: Seq<Seq<char>>, b: Seq<Seq<char>>) -> bool {
    forall|p: Seq<char>| !(#[trigger] a.contains(p) && b.contains(p))
}

/// Whether no path is in both outputs.
fn are_apart(a: &str, b: &str) -> (r: bool)
    ensures
        r == apart(nul_paths(a@), nul_paths(b@)),
{
    let left = parse_nul_list(a);
    let right = parse_nul_list(b);
    proof {
        lemma_first_occurrences_distinct(nul_paths(a@));
        lemma_first_occurrences_distinct(nul_paths(b@));
    }
    for i in 0..left.len()
        invariant
            texts(left@) == first_occurrences(nul_paths(a@)),
            texts(right@) == first_occurrences(nul_paths(b@)),
            forall|p: Seq<char>| #[trigger]
                texts(left@).contains(p) <==> nul_paths(a@).contains(p),
            forall|p: Seq<char>|
                texts(right@).contains(p) <==> #[trigger] nul_paths(b@).contains(p),
            forall|j: int| 0 <= j < i ==> !nul_paths(b@).contains(#[trigger] texts(left@)[j]),
    {
        let shared = holds_text(&right, left[i].as_str());
        proof {
            assert(texts(left@)[i as int] == left@[i as int]@);
            assert(texts(left@).contains(texts(left@)[i as int]));
        }
        if shared {
            proof {
                assert(nul_paths(a@).contains(left@[i as int]@));
                assert(nul_paths(b@).contains(left@[i as int]@));
            }
            return false;
        }
    }
    proof {
        assert forall|p: Seq<char>| !(#[trigger] nul_paths(a@).contains(p) && nul_paths(
            b@,
        ).contains(p)) by {
            if nul_paths(a@).contains(p) {
                assert(texts(left@).contains(p));
                let j = choose|j: int| 0 <= j < texts(left@).len() && texts(left@)[j] == p;
                assert(!nul_paths(b@).contains(texts(left@)[j]));
            }
        }
    }
    true
}

/// The views of the outcomes of several runs.
pub open spec fn outcomes(v: Seq<Result<GitOutput>>) -> Seq<Outcome> {
    v.map_values(|r: Result<GitOutput>| outcome(r))
}

/// Whether the incoming paths (last) touch none of the local ones (modified, staged, untracked),
/// where each of the four lists could be had.
pub open spec fn lists_apart(os: Seq<Outcome>) -> bool {
    if os.len() == 4 {
        match (os[0], os[1], os[2], os[3]) {
            (Ok(unstaged), Ok(staged), Ok(others), Ok(incoming)) => {
                &&& apart(nul_paths(unstaged.stdout), nul_paths(incoming.stdout))
                &&& apart(nul_paths(staged.stdout), nul_paths(incoming.stdout))
                &&& apart(nul_paths(others.stdout), nul_paths(incoming.stdout))
            },
            _ => false,
        }
    } else {
        false
    }
}

/// A fast-forward check under way.
#[derive(Debug)]
pub enum FastForwardCheck {
    /// It is to be found out whether `HEAD` is an ancestor of `upstream`.
    Ancestry { dir: String, upstream: String, clean: bool },
    /// The local and the incoming paths are to be listed.
    Paths { dir: String, upstream: String },
    /// Nothing is left.
    Done(bool),
}

/// A check with its texts as sequences of characters.
pub enum FastForwardModel {
    Ancestry { dir: Seq<char>, upstream: Seq<char>, clean: bool },
    Paths { dir: Seq<char>, upstream: Seq<char> },
    Done(bool),
}

impl View for FastForwardCheck {
    type V = FastForwardModel;

    open spec fn view(&self) -> FastForwardModel {
        match self {
            FastForwardCheck::Ancestry { dir, upstream, clean } => FastForwardModel::Ancestry {
                dir: dir@,
                upstream: upstream@,
                clean: *clean,
            },
            FastForwardCheck::Paths { dir, upstream } => FastForwardModel::Paths {
                dir: dir@,
                upstream: upstream@,
            },
            FastForwardCheck::Done(b) => FastForwardModel::Done(*b),
        }
    }
}

/// The commands that list the modified, the staged, the untracked and the incoming paths.
pub open spec fn path_commands(dir: Seq<char>, upstream: Seq<char>) -> Seq<CommandModel> {
    seq![
        reading_command(dir, seq!["diff"@, "-z"@, "--name-only"@]),
        reading_command(dir, seq!["diff"@, "-z"@, "--cached"@, "--name-only"@]),
        reading_command(dir, seq!["ls-files"@, "-z"@, "--others"@, "--exclude-standard"@]),
        reading_command(dir, seq!["diff"@, "-z"@, "--name-only"@, "HEAD"@, upstream]),
    ]
}

impl FastForwardModel {
    /// The commands to run next, side by side.
    pub open spec fn commands(self) -> Seq<CommandModel> {
        match self {
            FastForwardModel::Ancestry { dir, upstream, clean } => seq![
                reading_command(dir, seq!["merge-base"@, "--is-ancestor"@, "HEAD"@, upstream]),
            ],
            FastForwardModel::Paths { dir, upstream } => path_commands(dir, upstream),
            FastForwardModel::Done(_) => Seq::empty(),
        }
    }

    /// The check after the commands ended with `os`.
    pub open spec fn advance(self, os: Seq<Outcome>) -> FastForwardModel {
        match self {
            FastForwardModel::Ancestry { dir, upstream, clean } => {
                if os.len() != 1 || os[0] is Err {
                    FastForwardModel::Done(false)
                } else if clean {
                    FastForwardModel::Done(true)
                } else {
                    FastForwardModel::Paths { dir, upstream }
                }
            },
            FastForwardModel::Paths { dir, upstream } => FastForwardModel::Done(lists_apart(os)),
            FastForwardModel::Done(b) => FastForwardModel::Done(b),
        }
    }
}

/// The views of a sequence of commands.
pub open spec fn commands_of(v: Seq<GitCommand>) -> Seq<CommandModel> {
    v.map_values(|c: GitCommand| c@)
}

impl FastForwardCheck {
    /// The commands to run next, side by side; none when the check is done.
    pub fn commands(&self) -> (r: Vec<GitCommand>)
        ensures
            commands_of(r@) == self@.commands(),
    {
        let mut out: Vec<GitCommand> = Vec::new();
        match self {
            FastForwardCheck::Ancestry { dir, upstream, clean } => {
                out.push(
                    GitCommand::reading(
                        dir.as_str(),
                        &["merge-base", "--is-ancestor", "HEAD", upstream.as_str()],
                    ),
                );
            },
            FastForwardCheck::Paths { dir, upstream } => {
                let d = dir.as_str();
                out.push(GitCommand::reading(d, &["diff", "-z", "--name-only"]));
                out.push(GitCommand::reading(d, &["diff", "-z", "--cached", "--name-only"]));
                out.push(
                    GitCommand::reading(d, &["ls-files", "-z", "--others", "--exclude-standard"]),
                );
                out.push(
                    GitCommand::reading(
                        d,
                        &["diff", "-z", "--name-only", "HEAD", upstream.as_str()],
                    ),
                );
            },
            FastForwardCheck::Done(_) => {},
        }
        proof {
            assert(commands_of(out@) =~~= self@.commands());
        }
        out
    }

    /// The check after its commands ended with `results`. Errors are treated as unsafe.
    pub fn advance(self, results: Vec<Result<GitOutput>>) -> (r: FastForwardCheck)
        ensures
            r@ == self@.advance(outcomes(results@)),
    {
        match self {
            FastForwardCheck::Ancestry { dir, upstream, clean } => {
                if results.len() != 1 || results[0].is_err() {
                    FastForwardCheck::Done(false)
                } else if clean {
                    FastForwardCheck::Done(true)
                } else {
                    FastForwardCheck::Paths { dir, upstream }
                }
            },
            FastForwardCheck::Paths { dir, upstream } => {
                if results.len() != 4 {
                    return FastForwardCheck::Done(false);
                }
                let safe = match (&results[0], &results[1], &results[2], &results[3]) {
                    (Ok(unstaged), Ok(staged), Ok(others), Ok(incoming)) => {
                        let new = incoming.stdout.as_str();
                        are_apart(unstaged.stdout.as_str(), new) && are_apart(
                            staged.stdout.as_str(),
                            new,
                        ) && are_apart(others.stdout.as_str(), new)
                    },
                    _ => false,
                };
                FastForwardCheck::Done(safe)
            },
            FastForwardCheck::Done(b) => FastForwardCheck::Done(b),
        }
    }
}

/// The check of a fast-forward-only pull against `upstream`.
pub open spec fn fast_forward(dir: Seq<char>, upstream: Seq<char>, clean: bool) -> FastForwardModel {
    if upstream.len() == 0 {
        FastForwardModel::Done(false)
    } else {
        FastForwardModel::Ancestry { dir, upstream, clean }
    }
}

impl GitRunner {
    /// The check whether a fast-forward-only pull against `upstream` can run without conflicting
    /// with the current worktree.
    ///
    /// `HEAD` must be an ancestor of `upstream`: that is exactly the condition under which
    /// `git pull --ff-only` succeeds; a clean three-way merge is still not a fast-forward. On a
    /// clean tree that ancestry alone is sufficient. On a dirty tree the pull still succeeds
    /// unless an incoming path collides with a path git considers locally changed (modified,
    /// staged, or untracked). Errors are treated as unsafe.
    pub fn fast_forward_safe(&self, dir: &str, upstream: &str, clean: bool) -> (r: FastForwardCheck)
        ensures
            r@ == fast_forward(dir@, upstream@, clean),
    {
        if upstream.is_empty() {
            FastForwardCheck::Done(false)
        } else {
            FastForwardCheck::Ancestry { dir: dir.to_owned(), upstream: upstream.to_owned(), clean }
        }
    }
}

/// What the whole check says, given the outcome of the ancestry test and those of the four lists.
pub open spec fn verdict(
    dir: Seq<char>,
    upstream: Seq<char>,
    clean: bool,
    ancestry: Outcome,
    lists: Seq<Outcome>,
) -> FastForwardModel {
    fast_forward(dir, upstream, clean).advance(seq![ancestry]).advance(lists)
}

/// A pull is safe exactly when there is an upstream that `HEAD` is an ancestor of, and the tree is
/// clean or no incoming path is modified, staged or untracked here.
pub proof fn lemma_fast_forward_verdict(
    dir: Seq<char>,
    upstream: Seq<char>,
    clean: bool,
    ancestry: Outcome,
    lists: Seq<Outcome>,
)
    ensures
        verdict(dir, upstream, clean, ancestry, lists) == FastForwardModel::Done(
            upstream.len() > 0 && ancestry is Ok && (clean || lists_apart(lists)),
        ),
{
}

/// A path that is both incoming and changed locally makes a pull into a dirty tree unsafe.
pub proof fn lemma_shared_path_is_unsafe(
    dir: Seq<char>,
    upstream: Seq<char>,
    ancestry: Outcome,
    lists: Seq<Outcome>,
    local: int,
    path: Seq<char>,
)
    requires
        lists.len() == 4,
        0 <= local < 3,
        lists[local] matches Ok(out) && nul_paths(out.stdout).contains(path),
        lists[3] matches Ok(out) && nul_paths(out.stdout).contains(path),
    ensures
        verdict(dir, upstream, false, ancestry, lists) == FastForwardModel::Done(false),
{
}

} // verus!
