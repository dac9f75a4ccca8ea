//! Quick mode: one operation on all repositories, without the user interface.

use vstd::prelude::*;
use vstd::string::*;

use crate::chars::{cat3, cat4};
use crate::error::{duration_text, AppError, Fault, Result, Timeout};
use crate::git::command::{report, Report};
use crate::mode::Mode;
use crate::numbers::{decimal, decimal_usize};
use crate::order::{
    by_rule, in_order, lemma_sorted_is_in_order, lemma_sorted_is_permutation, ranks, sort_by, sorted,
    views_of, Ranked,
};
use crate::native::{show, shown};
use crate::paths::{is_path_before, lemma_path_order, path_before, same_path};
use crate::tui::repo::{one_line, result_message};

verus! {

/// What became of one repository.
#[derive(Debug)]
pub struct RepoOutcome {
    pub directory: String,
    pub result: Result<String>,
}

/// An outcome with its texts as sequences of characters.
pub struct RepoOutcomeModel {
    pub directory: Seq<char>,
    pub result: Report,
}

impl View for RepoOutcome {
    type V = RepoOutcomeModel;

    open spec fn view(&self) -> RepoOutcomeModel {
        RepoOutcomeModel { directory: self.directory@, result: report(self.result) }
    }
}

impl Ranked for RepoOutcome {
    type Rule = ();

    open spec fn before(rule: (), a: RepoOutcomeModel, b: RepoOutcomeModel) -> bool {
        path_before(a.directory, b.directory)
    }

    fn is_before(rule: &(), a: &RepoOutcome, b: &RepoOutcome) -> (r: bool) {
        is_path_before(a.directory.as_str(), b.directory.as_str())
    }
}

/// A line of output.
#[derive(Debug)]
pub enum Printed {
    /// To the standard output.
    Output(String),
    /// To the standard error.
    Failure(String),
}

/// A line of output with its text as a sequence of characters.
pub enum PrintedModel {
    Output(Seq<char>),
    Failure(Seq<char>),
}

impl View for Printed {
    type V = PrintedModel;

    open spec fn view(&self) -> PrintedModel {
        match self {
            Printed::Output(s) => PrintedModel::Output(s@),
            Printed::Failure(s) => PrintedModel::Failure(s@),
        }
    }
}

/// The line of one repository.
pub open spec fn line_of(o: RepoOutcomeModel, mode: Mode) -> PrintedModel {
    match o.result {
        Ok(m) => PrintedModel::Output(shown(o.directory) + ": "@ + one_line(o.result, "successful"@)),
        Err(e) => PrintedModel::Failure(
            "could not perform "@ + mode.name() + " on "@ + (shown(o.directory) + ": "@ + e.message()),
        ),
    }
}

/// The number of repositories on which the operation failed.
pub open spec fn failures(all: Seq<RepoOutcomeModel>) -> nat
    decreases all.len(),
{
    if all.len() == 0 {
        0
    } else {
        failures(all.drop_last()) + (if all.last().result is Err {
            1nat
        } else {
            0nat
        })
    }
}

/// The outcomes in the order of the directories.
pub open spec fn in_directory_order(all: Seq<RepoOutcomeModel>) -> Seq<RepoOutcomeModel> {
    sorted(all, by_rule::<RepoOutcome>(()))
}

/// What is printed: a line for each repository in the order of the directories, and how long it
/// all took.
pub open spec fn printed(
    all: Seq<RepoOutcomeModel>,
    mode: Mode,
    elapsed: Seq<char>,
) -> Seq<PrintedModel> {
    in_directory_order(all).map_values(|o: RepoOutcomeModel| line_of(o, mode)).push(
        PrintedModel::Output(decimal(all.len()) + " repositories finished in: "@ + elapsed),
    )
}

/// What is printed at the end of a batch, and whether it succeeded.
#[derive(Debug)]
pub struct Batch {
    pub lines: Vec<Printed>,
    pub result: Result<()>,
}

/// The line of one repository.
fn print_line(o: &RepoOutcome, mode: Mode) -> (r: Printed)
    ensures
        r@ == line_of(o@, mode),
{
    let directory = show(o.directory.as_str());
    match &o.result {
        Ok(_) => {
            let message = result_message(&o.result, "successful");
            Printed::Output(cat3(directory.as_str(), ": ", message.as_str()))
        },
        Err(e) => {
            let what = cat3(directory.as_str(), ": ", e.message().as_str());
            Printed::Failure(cat4("could not perform ", mode.as_str(), " on ", what.as_str()))
        },
    }
}

/// Prints the outcomes, where `elapsed` tells how long it all took. The batch fails where the
/// operation failed on any repository. The outcomes are sorted by directory, so that two runs over
/// the same repositories print identically, whichever finished first.
pub fn report_outcomes(results: Vec<RepoOutcome>, mode: Mode, elapsed: &str) -> (r: Batch)
    ensures
        views_of(r.lines@) == printed(views_of(results@), mode, elapsed@),
        match r.result {
            Ok(_) => failures(in_directory_order(views_of(results@))) == 0,
            Err(e) => {
                &&& failures(in_directory_order(views_of(results@))) > 0
                &&& e@ == Fault::BatchFailures {
                    failed: failures(in_directory_order(views_of(results@))),
                    total: results@.len(),
                }
            },
        },
{
    let ghost given = views_of(results@);
    let mut results = results;
    sort_by(&mut results, &());
    let ghost all = views_of(results@);
    proof {
        lemma_sorted_is_permutation(given, by_rule::<RepoOutcome>(()));
        given.to_multiset_ensures();
        all.to_multiset_ensures();
    }
    let total = results.len();
    let mut failed: usize = 0;
    let mut lines: Vec<Printed> = Vec::new();
    let ghost f = |o: RepoOutcomeModel| line_of(o, mode);
    for i in 0..total
        invariant
            total == results@.len(),
            all == views_of(results@),
            f == (|o: RepoOutcomeModel| line_of(o, mode)),
            failed == failures(all.take(i as int)),
            failed <= i,
            lines@.len() == i,
            forall|j: int| 0 <= j < i ==> (#[trigger] lines@[j])@ == line_of(all[j], mode),
    {
        proof {
            assert(all.take(i + 1).drop_last() =~= all.take(i as int));
            assert(all.take(i + 1).last() == results@[i as int]@);
        }
        lines.push(print_line(&results[i], mode));
        if results[i].result.is_err() {
            failed = failed + 1;
        }
    }
    let count = decimal_usize(total);
    lines.push(Printed::Output(cat3(count.as_str(), " repositories finished in: ", elapsed)));
    proof {
        assert(all.take(total as int) =~= all);
        assert(views_of(lines@) =~= printed(given, mode, elapsed@));
    }
    let result = if failed > 0 {
        Err(AppError::BatchFailures { failed, total })
    } else {
        Ok(())
    };
    Batch { lines, result }
}

/// Prints the outcomes of an operation on all repositories, which took `elapsed`.
pub fn run(results: Vec<RepoOutcome>, mode: Mode, elapsed: Timeout) -> (r: Batch)
    ensures
        views_of(r.lines@) == printed(
            views_of(results@),
            mode,
            duration_text(elapsed@.0, elapsed@.1),
        ),
        match r.result {
            Ok(_) => failures(in_directory_order(views_of(results@))) == 0,
            Err(e) => {
                &&& failures(in_directory_order(views_of(results@))) > 0
                &&& e@ == Fault::BatchFailures {
                    failed: failures(in_directory_order(views_of(results@))),
                    total: results@.len(),
                }
            },
        },
{
    let text = elapsed.text();
    report_outcomes(results, mode, text.as_str())
}

// ── Laws ─────────────────────────────────────────────────────────────────────

/// A failure among the outcomes is counted.
proof fn lemma_failures_count(all: Seq<RepoOutcomeModel>)
    ensures
        failures(all) > 0 <==> exists|i: int| 0 <= i < all.len() && (#[trigger] all[i]).result is Err,
        failures(all) <= all.len(),
    decreases all.len(),
{
    if all.len() > 0 {
        let t = all.drop_last();
        lemma_failures_count(t);
        if failures(t) > 0 {
            let i = choose|i: int| 0 <= i < t.len() && (#[trigger] t[i]).result is Err;
            assert(all[i] == t[i]);
        }
        if all.last().result is Err {
            assert(all[all.len() - 1].result is Err);
        }
        if exists|i: int| 0 <= i < all.len() && (#[trigger] all[i]).result is Err {
            let i = choose|i: int| 0 <= i < all.len() && (#[trigger] all[i]).result is Err;
            if i < t.len() {
                assert(t[i] == all[i]);
            }
        }
    }
}

/// A batch fails exactly where the operation failed on some repository.
pub proof fn lemma_batch_fails_on_any_failure(all: Seq<RepoOutcomeModel>)
    ensures
        failures(in_directory_order(all)) > 0 <==> exists|i: int|
            0 <= i < all.len() && (#[trigger] all[i]).result is Err,
{
    let s = in_directory_order(all);
    lemma_failures_count(s);
    lemma_sorted_is_permutation(all, by_rule::<RepoOutcome>(()));
    broadcast use vstd::seq_lib::group_to_multiset_ensures;

    if failures(s) > 0 {
        let i = choose|i: int| 0 <= i < s.len() && (#[trigger] s[i]).result is Err;
        assert(s.contains(s[i]));
        assert(s.to_multiset().count(s[i]) > 0);
        assert(all.contains(s[i]));
        let k = choose|k: int| 0 <= k < all.len() && all[k] == s[i];
        assert(all[k].result is Err);
    }
    if exists|i: int| 0 <= i < all.len() && (#[trigger] all[i]).result is Err {
        let i = choose|i: int| 0 <= i < all.len() && (#[trigger] all[i]).result is Err;
        assert(all.contains(all[i]));
        assert(all.to_multiset().count(all[i]) > 0);
        assert(s.contains(all[i]));
        let k = choose|k: int| 0 <= k < s.len() && s[k] == all[i];
        assert(s[k].result is Err);
    }
}

/// Outcomes are ranked by their directories.
proof fn lemma_outcomes_rank()
    ensures
        ranks(by_rule::<RepoOutcome>(())),
{
    let before = by_rule::<RepoOutcome>(());
    assert forall|a: RepoOutcomeModel| !#[trigger] before(a, a) by {
        lemma_path_order(a.directory, a.directory, a.directory);
    }
    assert forall|a: RepoOutcomeModel, b: RepoOutcomeModel, c: RepoOutcomeModel| #[trigger]
        before(a, b) && #[trigger] before(b, c) implies before(a, c) by {
        lemma_path_order(a.directory, b.directory, c.directory);
    }
    assert forall|a: RepoOutcomeModel, b: RepoOutcomeModel, c: RepoOutcomeModel|
        !#[trigger] before(a, b) && !#[trigger] before(b, c) implies !before(a, c) by {
        lemma_path_order(a.directory, b.directory, c.directory);
        lemma_path_order(b.directory, c.directory, a.directory);
        lemma_path_order(c.directory, b.directory, a.directory);
        lemma_path_order(b.directory, a.directory, c.directory);
    }
}

/// Whether no two outcomes are of the same directory.
pub open spec fn one_each(all: Seq<RepoOutcomeModel>) -> bool {
    forall|i: int, j: int|
        0 <= i < all.len() && 0 <= j < all.len() && same_path(
            (#[trigger] all[i]).directory,
            (#[trigger] all[j]).directory,
        ) ==> all[i] == all[j]
}

/// Two lists of the same outcomes that are both in order are the same list.
proof fn lemma_order_is_unique(a: Seq<RepoOutcomeModel>, b: Seq<RepoOutcomeModel>)
    requires
        in_order(a, by_rule::<RepoOutcome>(())),
        in_order(b, by_rule::<RepoOutcome>(())),
        a.to_multiset() == b.to_multiset(),
        one_each(a),
    ensures
        a == b,
    decreases a.len(),
{
    broadcast use vstd::seq_lib::group_to_multiset_ensures;

    let before = by_rule::<RepoOutcome>(());
    assert(a.to_multiset().len() == a.len());
    assert(b.to_multiset().len() == b.len());
    if a.len() > 0 {
        let n = a.len() - 1;
        let x = a[n];
        let y = b[n];
        assert(b.contains(y));
        assert(b.to_multiset().count(y) > 0);
        assert(a.contains(y));
        let i = choose|i: int| 0 <= i < a.len() && a[i] == y;
        assert(a.contains(x));
        assert(a.to_multiset().count(x) > 0);
        assert(b.contains(x));
        let k = choose|k: int| 0 <= k < b.len() && b[k] == x;
        lemma_path_order(x.directory, y.directory, y.directory);
        if i < n {
            assert(!before(a[n], a[i]));
        }
        if k < n {
            assert(!before(b[n], b[k]));
        }
        assert(same_path(a[n].directory, a[i].directory)) by {
            if i < n && k < n {
                assert(!path_before(x.directory, y.directory));
                assert(!path_before(y.directory, x.directory));
            }
        }
        assert(x == y);
        let s = a.drop_last();
        let t = b.drop_last();
        assert(a =~= s.push(x));
        assert(b =~= t.push(y));
        assert(s.to_multiset() =~= a.to_multiset().remove(x));
        assert(t.to_multiset() =~= b.to_multiset().remove(y));
        assert forall|p: int, q: int| 0 <= p < q < s.len() implies !before(
            #[trigger] s[q],
            #[trigger] s[p],
        ) by {
            assert(s[p] == a[p] && s[q] == a[q]);
        }
        assert forall|p: int, q: int| 0 <= p < q < t.len() implies !before(
            #[trigger] t[q],
            #[trigger] t[p],
        ) by {
            assert(t[p] == b[p] && t[q] == b[q]);
        }
        assert forall|p: int, q: int|
            0 <= p < s.len() && 0 <= q < s.len() && same_path(
                (#[trigger] s[p]).directory,
                (#[trigger] s[q]).directory,
            ) implies s[p] == s[q] by {
            assert(s[p] == a[p] && s[q] == a[q]);
        }
        lemma_order_is_unique(s, t);
    } else {
        assert(a =~= b);
    }
}

/// Two runs with the same outcomes print identically, in whatever order the repositories finished.
pub proof fn lemma_output_is_reproducible(
    one: Seq<RepoOutcomeModel>,
    other: Seq<RepoOutcomeModel>,
    mode: Mode,
    elapsed: Seq<char>,
)
    requires
        one.to_multiset() == other.to_multiset(),
        one_each(one),
    ensures
        printed(one, mode, elapsed) == printed(other, mode, elapsed),
        failures(in_directory_order(one)) == failures(in_directory_order(other)),
{
    broadcast use vstd::seq_lib::group_to_multiset_ensures;

    let before = by_rule::<RepoOutcome>(());
    let a = in_directory_order(one);
    let b = in_directory_order(other);
    lemma_outcomes_rank();
    lemma_sorted_is_in_order(one, before);
    lemma_sorted_is_in_order(other, before);
    lemma_sorted_is_permutation(one, before);
    lemma_sorted_is_permutation(other, before);
    assert forall|i: int, j: int|
        0 <= i < a.len() && 0 <= j < a.len() && same_path(
            (#[trigger] a[i]).directory,
            (#[trigger] a[j]).directory,
        ) implies a[i] == a[j] by {
        assert(a.contains(a[i]));
        assert(a.contains(a[j]));
        assert(a.to_multiset().count(a[i]) > 0);
        assert(a.to_multiset().count(a[j]) > 0);
        assert(one.contains(a[i]));
        assert(one.contains(a[j]));
        let p = choose|p: int| 0 <= p < one.len() && one[p] == a[i];
        let q = choose|q: int| 0 <= q < one.len() && one[q] == a[j];
        assert(one[p] == one[q]);
    }
    lemma_order_is_unique(a, b);
    assert(one.to_multiset().len() == one.len());
    assert(other.to_multiset().len() == other.len());
}

} // verus!
