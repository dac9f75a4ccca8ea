//! Which commands operations come to, told by their arguments.

use vstd::prelude::*;
use vstd::string::*;

use crate::chars::{
    blank, halves, has_text, lemma_halves, lemma_halves_at, lemma_holds_middle,
    lemma_visible_is_not_blank, lines, non_empty, stands_at, trimmed,
};
use crate::error::Fault;
use crate::git::command::{said, CommandModel, CredentialsModel, Outcome, OutputModel};
use crate::git::remote_run::{remote_run, RemoteRunModel};
use crate::git::runner::RemoteAction;
use crate::git::task::{action_task, push_remote, remote_names, TaskModel};
use crate::mode::Mode;
use crate::tui::dialog::LocalModel;

verus! {

// ── Runs ─────────────────────────────────────────────────────────────────────

/// Whether a command runs git in `dir` with `args`, asking nobody for credentials.
pub open spec fn runs(c: Option<CommandModel>, dir: Seq<char>, args: Seq<Seq<char>>) -> bool {
    c matches Some(c) && c.dir == dir && c.args == args && c.credentials is None
}

/// Whether a command runs git in `dir` with `args`, answering with `credentials`.
pub open spec fn answers(
    c: Option<CommandModel>,
    dir: Seq<char>,
    args: Seq<Seq<char>>,
    credentials: Option<CredentialsModel>,
) -> bool {
    c matches Some(c) && c.dir == dir && c.args == args && c.credentials == credentials
}

/// A task after its commands ended one after the other with `os`.
pub open spec fn ran(task: TaskModel, os: Seq<Outcome>) -> TaskModel
    decreases os.len(),
{
    if os.len() == 0 {
        task
    } else {
        ran(task, os.drop_last()).advance(os.last())
    }
}

/// Whether a task runs one command in `dir` with `args`, and ends with what git says to it.
pub open spec fn runs_alone(task: TaskModel, dir: Seq<char>, args: Seq<Seq<char>>, o: Outcome) -> bool {
    &&& runs(task.command(), dir, args)
    &&& task.advance(o).command() is None
    &&& task.advance(o) == TaskModel::Done(said(o))
}

/// What git says is reported, and so is that it failed; nothing is made up.
pub proof fn lemma_reports_what_git_says(out: OutputModel, e: Fault)
    ensures
        said(Err(e)) == Err::<Seq<char>, Fault>(e),
        said(Ok(out)) is Ok,
        trimmed(out.stderr).len() == 0 ==> said(Ok(out)) == Ok::<Seq<char>, Fault>(
            trimmed(out.stdout),
        ),
        trimmed(out.stdout).len() == 0 ==> said(Ok(out)) == Ok::<Seq<char>, Fault>(
            trimmed(out.stderr),
        ),
        said(Ok(out)) matches Ok(text) && trimmed(out.stdout).is_prefix_of(text)
            && trimmed(out.stderr).is_suffix_of(text),
{
    if trimmed(out.stdout).len() == 0 && trimmed(out.stderr).len() == 0 {
        assert(trimmed(out.stdout) =~= trimmed(out.stderr));
    }
}

// ── Local operations ─────────────────────────────────────────────────────────

/// A commit takes in every change, new and deleted files among them, and only where that worked
/// commits it under the message.
pub proof fn lemma_commit_takes_all(dir: Seq<char>, message: Seq<char>, add: Outcome, commit: Outcome)
    ensures
        ({
            let begun = LocalModel::Commit(message).task(dir);
            &&& runs(begun.command(), dir, seq!["add"@, "-A"@])
            &&& add matches Err(e) ==> begun.advance(add) == TaskModel::Done(Err(e))
            &&& add is Ok ==> runs_alone(
                begun.advance(add),
                dir,
                seq!["commit"@, "-m"@, message],
                commit,
            )
        }),
{
}

/// Checking out the branch of a remote first asks whether there is a local branch of that name.
/// Where there is, that one is checked out; where there is none, one is made that follows the branch
/// of the remote. Nothing else is run, and no name is checked out that would detach the head.
pub proof fn lemma_remote_checkout_tracks(
    dir: Seq<char>,
    remote: Seq<char>,
    branch: Seq<char>,
    probe: Outcome,
    last: Outcome,
)
    requires
        !remote.contains('/'),
    ensures
        ({
            let name = remote + "/"@ + branch;
            let begun = LocalModel::CheckoutRemote(name).task(dir);
            &&& runs(
                begun.command(),
                dir,
                seq!["show-ref"@, "--verify"@, "--quiet"@, "refs/heads/"@ + branch],
            )
            &&& probe is Ok ==> runs_alone(
                begun.advance(probe),
                dir,
                seq!["checkout"@, branch],
                last,
            )
            &&& probe is Err ==> runs_alone(
                begun.advance(probe),
                dir,
                seq!["checkout"@, "--track"@, name],
                last,
            )
        }),
{
    let name = remote + "/"@ + branch;
    lemma_cut_at_slash(remote, branch);
}

/// A name with a slash falls apart at its first slash.
proof fn lemma_cut_at_slash(remote: Seq<char>, branch: Seq<char>)
    requires
        !remote.contains('/'),
    ensures
        halves(remote + "/"@ + branch, '/') == Some((remote, branch)),
{
    reveal_strlit("/");
    let name = remote + "/"@ + branch;
    let n = remote.len() as int;
    assert(name[n] == '/');
    assert forall|j: int| 0 <= j < n implies name[j] != '/' by {
        assert(name[j] == remote[j]);
        assert(remote.contains(remote[j]));
    }
    lemma_halves_at(name, '/', n);
    assert(name.take(n) =~= remote);
    assert(name.skip(n + 1) =~= branch);
}

/// A name without a slash is no branch of a remote: nothing is run, and the user is told so.
pub proof fn lemma_remote_checkout_needs_a_remote(dir: Seq<char>, name: Seq<char>)
    requires
        !name.contains('/'),
    ensures
        LocalModel::CheckoutRemote(name).task(dir).command() is None,
        LocalModel::CheckoutRemote(name).task(dir) matches TaskModel::Done(Err(e))
            && name.is_suffix_of(e.message()),
{
    lemma_halves(name, '/');
}

/// A new branch is checked out as it is made, and a branch is checked out under its own name.
pub proof fn lemma_branches_are_checked_out(dir: Seq<char>, name: Seq<char>, o: Outcome)
    ensures
        runs_alone(
            LocalModel::CreateBranch(name).task(dir),
            dir,
            seq!["checkout"@, "-b"@, name],
            o,
        ),
        runs_alone(LocalModel::Checkout(name).task(dir), dir, seq!["checkout"@, name], o),
{
}

/// A branch is deleted only where it is merged, unless the deletion is forced; and a branch of a
/// remote is deleted on that remote.
pub proof fn lemma_deletion_is_safe_unless_forced(
    dir: Seq<char>,
    name: Seq<char>,
    remote: Seq<char>,
    o: Outcome,
)
    requires
        !remote.contains('/'),
    ensures
        runs_alone(LocalModel::DeleteBranch(name).task(dir), dir, seq!["branch"@, "-d"@, name], o),
        runs_alone(
            LocalModel::ForceDeleteBranch(name).task(dir),
            dir,
            seq!["branch"@, "-D"@, name],
            o,
        ),
        runs_alone(
            LocalModel::DeleteRemoteBranch(remote + "/"@ + name).task(dir),
            dir,
            seq!["push"@, remote, "--delete"@, name],
            o,
        ),
{
    lemma_cut_at_slash(remote, name);
}

/// Stashing saves the changes under the message that was given, or under git's own; popping brings
/// the newest entry back, and dropping throws it away.
pub proof fn lemma_stash_operations(dir: Seq<char>, message: Seq<char>, o: Outcome)
    ensures
        runs_alone(LocalModel::StashPush(None).task(dir), dir, seq!["stash"@, "push"@], o),
        !blank(message) ==> runs_alone(
            LocalModel::StashPush(Some(message)).task(dir),
            dir,
            seq!["stash"@, "push"@, "-m"@, message],
            o,
        ),
        blank(message) ==> runs_alone(
            LocalModel::StashPush(Some(message)).task(dir),
            dir,
            seq!["stash"@, "push"@],
            o,
        ),
        runs_alone(LocalModel::StashPop.task(dir), dir, seq!["stash"@, "pop"@], o),
        runs_alone(LocalModel::StashDrop.task(dir), dir, seq!["stash"@, "drop"@], o),
{
    assert(seq!["stash"@, "push"@] + seq!["-m"@, message] =~= seq![
        "stash"@,
        "push"@,
        "-m"@,
        message,
    ]);
}

/// A reset goes to the upstream. It keeps the changes in the working tree unless it is hard.
pub proof fn lemma_reset_keeps_changes_unless_hard(dir: Seq<char>, o: Outcome)
    ensures
        runs_alone(
            (LocalModel::ResetUpstream { hard: false }).task(dir),
            dir,
            seq!["reset"@, "--mixed"@, "@{upstream}"@],
            o,
        ),
        runs_alone(
            (LocalModel::ResetUpstream { hard: true }).task(dir),
            dir,
            seq!["reset"@, "--hard"@, "@{upstream}"@],
            o,
        ),
{
}

/// The upstream of a branch is set to the given branch of the given remote.
pub proof fn lemma_upstream_is_set(dir: Seq<char>, remote: Seq<char>, branch: Seq<char>, o: Outcome)
    ensures
        runs_alone(
            (LocalModel::SetUpstream { remote, branch }).task(dir),
            dir,
            seq!["branch"@, "-u"@, remote + "/"@ + branch],
            o,
        ),
{
}

/// What the operations are called tells which is which: the two kinds of reset and of deletion have
/// different names.
pub proof fn lemma_labels_tell_operations_apart(name: Seq<char>)
    ensures
        (LocalModel::ResetUpstream { hard: true }).label() == "hard reset"@,
        (LocalModel::ResetUpstream { hard: false }).label() == "reset to upstream"@,
        LocalModel::DeleteBranch(name).label() == "delete branch"@,
        LocalModel::ForceDeleteBranch(name).label() == "force delete branch"@,
        LocalModel::DeleteRemoteBranch(name).label() == "delete remote branch"@,
        LocalModel::StashPop.label() == "stash pop"@,
        LocalModel::StashDrop.label() == "stash drop"@,
        LocalModel::StashPush(None).label() == "stash push"@,
        LocalModel::Commit(name).label() == "commit"@,
        LocalModel::CreateBranch(name).label() == "new branch"@,
        LocalModel::Checkout(name).label() == "checkout"@,
        LocalModel::CheckoutRemote(name).label() == "checkout remote"@,
        (LocalModel::SetUpstream { remote: name, branch: name }).label() == "set upstream"@,
{
}

// ── What a local operation may destroy ───────────────────────────────────────

/// Whether a text that the user gave for an operation holds `word`.
pub open spec fn given_holds(action: LocalModel, word: Seq<char>) -> bool {
    match action {
        LocalModel::Commit(s) => has_text(s, word),
        LocalModel::CreateBranch(s) => has_text(s, word),
        LocalModel::Checkout(s) => has_text(s, word),
        LocalModel::CheckoutRemote(s) => has_text(s, word),
        LocalModel::DeleteBranch(s) => has_text(s, word),
        LocalModel::ForceDeleteBranch(s) => has_text(s, word),
        LocalModel::DeleteRemoteBranch(s) => has_text(s, word),
        LocalModel::StashPush(Some(s)) => has_text(s, word),
        LocalModel::SetUpstream { remote, branch } => has_text(remote, word) || has_text(
            branch,
            word,
        ),
        _ => false,
    }
}

/// A text holds itself.
proof fn lemma_holds_itself(s: Seq<char>)
    ensures
        has_text(s, s),
{
    assert(s.subrange(0, s.len() as int) =~= s);
    assert(stands_at(s, s, 0));
}

/// A text holds what it holds on either side of a slash.
proof fn lemma_holds_parts(s: Seq<char>, word: Seq<char>)
    requires
        !has_text(s, word),
    ensures
        halves(s, '/') matches Some((a, b)) ==> !(a == word) && !(b == word),
        !(s == word),
{
    lemma_halves(s, '/');
    lemma_holds_itself(s);
    if let Some((a, b)) = halves(s, '/') {
        lemma_holds_both_sides(a, b);
    }
}

/// A text holds what stands on either side of a slash in it.
proof fn lemma_holds_both_sides(a: Seq<char>, b: Seq<char>)
    ensures
        has_text(a + seq!['/'] + b, a),
        has_text(a + seq!['/'] + b, b),
{
    let none = Seq::<char>::empty();
    lemma_holds_middle(none, a, seq!['/'] + b);
    lemma_holds_middle(a + seq!['/'], b, none);
    assert(none + a + (seq!['/'] + b) =~= a + seq!['/'] + b);
    assert(a + seq!['/'] + b + none =~= a + seq!['/'] + b);
}

/// No word that git is given here is `--hard`, but for the one.
proof fn lemma_words_are_not_hard(branch: Seq<char>, remote: Seq<char>)
    ensures
        "add"@ != "--hard"@,
        "-A"@ != "--hard"@,
        "commit"@ != "--hard"@,
        "-m"@ != "--hard"@,
        "checkout"@ != "--hard"@,
        "-b"@ != "--hard"@,
        "--track"@ != "--hard"@,
        "branch"@ != "--hard"@,
        "-d"@ != "--hard"@,
        "-D"@ != "--hard"@,
        "-u"@ != "--hard"@,
        "push"@ != "--hard"@,
        "--delete"@ != "--hard"@,
        "stash"@ != "--hard"@,
        "pop"@ != "--hard"@,
        "drop"@ != "--hard"@,
        "reset"@ != "--hard"@,
        "--mixed"@ != "--hard"@,
        "@{upstream}"@ != "--hard"@,
        "show-ref"@ != "--hard"@,
        "--verify"@ != "--hard"@,
        "--quiet"@ != "--hard"@,
        "refs/heads/"@ + branch != "--hard"@,
        remote + "/"@ + branch != "--hard"@,
{
    reveal_strlit("--hard");
    reveal_strlit("add");
    reveal_strlit("-A");
    reveal_strlit("commit");
    reveal_strlit("-m");
    reveal_strlit("checkout");
    reveal_strlit("-b");
    reveal_strlit("--track");
    reveal_strlit("branch");
    reveal_strlit("-d");
    reveal_strlit("-D");
    reveal_strlit("-u");
    reveal_strlit("push");
    reveal_strlit("--delete");
    reveal_strlit("stash");
    reveal_strlit("pop");
    reveal_strlit("drop");
    reveal_strlit("reset");
    reveal_strlit("--mixed");
    reveal_strlit("@{upstream}");
    reveal_strlit("show-ref");
    reveal_strlit("--verify");
    reveal_strlit("--quiet");
    reveal_strlit("refs/heads/");
    reveal_strlit("/");
    let h = "--hard"@;
    assert("commit"@[0] == 'c' && h[0] == '-');
    assert("branch"@[0] == 'b');
    assert("--track"@.len() != h.len());
    assert(("refs/heads/"@ + branch)[0] == 'r');
    if remote + "/"@ + branch == h {
        assert((remote + "/"@ + branch)[remote.len() as int] == '/');
        assert(h[remote.len() as int] == '/');
    }
}

/// Whether neither the next command of a task nor one that may follow it resets hard.
spec fn harmless(t: TaskModel) -> bool {
    match t {
        TaskModel::Last(c) => !c.args.contains("--hard"@),
        TaskModel::CommitAdd { dir, message } => message != "--hard"@,
        TaskModel::CheckoutProbe { dir, name, local } => name != "--hard"@ && local != "--hard"@,
        TaskModel::Done(_) => true,
        _ => false,
    }
}

/// A task that is harmless stays so.
proof fn lemma_harmless_goes_on(t: TaskModel, o: Outcome)
    requires
        harmless(t),
    ensures
        harmless(t.advance(o)),
        t.command() matches Some(c) ==> !c.args.contains("--hard"@),
{
    match t {
        TaskModel::CheckoutProbe { dir, name, local } => {
            lemma_words_are_not_hard(local, name);
        },
        _ => {
            lemma_words_are_not_hard(Seq::empty(), Seq::empty());
        },
    }
}

/// No local operation but a hard reset ever comes to a command with the argument `--hard`, however
/// its commands end, unless the user wrote that word: accepting any other operation discards no
/// changes that way.
pub proof fn lemma_only_hard_reset_is_hard(action: LocalModel, dir: Seq<char>, os: Seq<Outcome>)
    requires
        action != (LocalModel::ResetUpstream { hard: true }),
        !given_holds(action, "--hard"@),
    ensures
        ran(action.task(dir), os).command() matches Some(c) ==> !c.args.contains("--hard"@),
{
    lemma_begins_harmless(action, dir);
    lemma_ran_harmless(action.task(dir), os);
    lemma_harmless_goes_on(ran(action.task(dir), os), Err(Fault::NoRepositoriesFound));
}

/// A task that begins harmless is so throughout.
proof fn lemma_ran_harmless(t: TaskModel, os: Seq<Outcome>)
    requires
        harmless(t),
    ensures
        harmless(ran(t, os)),
    decreases os.len(),
{
    if os.len() > 0 {
        lemma_ran_harmless(t, os.drop_last());
        lemma_harmless_goes_on(ran(t, os.drop_last()), os.last());
    }
}

/// All but a hard reset begin harmless.
proof fn lemma_begins_harmless(action: LocalModel, dir: Seq<char>)
    requires
        action != (LocalModel::ResetUpstream { hard: true }),
        !given_holds(action, "--hard"@),
    ensures
        harmless(action.task(dir)),
{
    let h = "--hard"@;
    lemma_words_are_not_hard(Seq::empty(), Seq::empty());
    match action {
        LocalModel::Commit(s) => {
            lemma_holds_parts(s, h);
        },
        LocalModel::CreateBranch(s) => {
            lemma_holds_parts(s, h);
        },
        LocalModel::Checkout(s) => {
            lemma_holds_parts(s, h);
        },
        LocalModel::CheckoutRemote(s) => {
            lemma_holds_parts(s, h);
        },
        LocalModel::DeleteBranch(s) => {
            lemma_holds_parts(s, h);
        },
        LocalModel::ForceDeleteBranch(s) => {
            lemma_holds_parts(s, h);
        },
        LocalModel::DeleteRemoteBranch(s) => {
            lemma_holds_parts(s, h);
        },
        LocalModel::StashPush(Some(s)) => {
            lemma_holds_parts(s, h);
        },
        LocalModel::SetUpstream { remote, branch } => {
            lemma_words_are_not_hard(branch, remote);
        },
        _ => {},
    }
}

// ── Remote actions ───────────────────────────────────────────────────────────

/// Fetching forgets what is gone on the remote, and touches nothing else.
pub proof fn lemma_fetch_prunes(
    dir: Seq<char>,
    credentials: Option<CredentialsModel>,
    o: Outcome,
)
    ensures
        ({
            let begun = action_task(dir, RemoteAction::Fetch, credentials);
            &&& answers(begun.command(), dir, seq!["fetch"@, "--prune"@], credentials)
            &&& begun.advance(o) == TaskModel::Done(said(o))
        }),
{
}

/// A pull fast-forwards or fails, a rebase puts the local commits on top of the upstream, and a
/// merge brings the upstream in after it was fetched; each answers with the credentials it was
/// given.
pub proof fn lemma_pull_rebase_and_merge(
    dir: Seq<char>,
    credentials: Option<CredentialsModel>,
    first: Outcome,
    second: Outcome,
)
    ensures
        ({
            let pull = action_task(dir, RemoteAction::PullFfOnly, credentials);
            &&& answers(
                pull.command(),
                dir,
                seq!["pull"@, "--ff-only"@, "--no-rebase"@, "--stat"@, "--progress"@],
                credentials,
            )
            &&& pull.advance(first) == TaskModel::Done(said(first))
        }),
        ({
            let rebase = action_task(dir, RemoteAction::Rebase, credentials);
            &&& answers(
                rebase.command(),
                dir,
                seq!["pull"@, "--rebase"@, "--stat"@, "--progress"@],
                credentials,
            )
            &&& rebase.advance(first) == TaskModel::Done(said(first))
        }),
        ({
            let merge = action_task(dir, RemoteAction::Merge, credentials);
            &&& answers(merge.command(), dir, seq!["fetch"@, "--prune"@], credentials)
            &&& first is Ok ==> answers(
                merge.advance(first).command(),
                dir,
                seq!["merge"@, "--no-edit"@, "@{upstream}"@],
                credentials,
            )
            &&& first is Ok ==> merge.advance(first).advance(second) == TaskModel::Done(
                said(second),
            )
            &&& first matches Err(e) ==> merge.advance(first) == TaskModel::Done(Err(e))
        }),
{
}

/// A push asks for the upstream first. A branch that has one is pushed to it. One that has none is
/// pushed under its own name, and follows what was pushed from then on: the first push of a branch
/// publishes it. A push that is not forced carries no word of force.
pub proof fn lemma_push_publishes(
    dir: Seq<char>,
    credentials: Option<CredentialsModel>,
    upstream: Outcome,
    remotes: OutputModel,
    last: Outcome,
)
    ensures
        ({
            let begun = action_task(dir, RemoteAction::Push { force: false }, credentials);
            let forced = action_task(dir, RemoteAction::Push { force: true }, credentials);
            let remote = push_remote(remotes.combined());
            &&& runs(begun.command(), dir, seq!["rev-parse"@, "--abbrev-ref"@, "@{upstream}"@])
            &&& runs(forced.command(), dir, seq!["rev-parse"@, "--abbrev-ref"@, "@{upstream}"@])
            &&& upstream is Ok ==> {
                &&& answers(begun.advance(upstream).command(), dir, seq!["push"@], credentials)
                &&& answers(
                    forced.advance(upstream).command(),
                    dir,
                    seq!["push"@, "--force-with-lease"@, "--force-if-includes"@],
                    credentials,
                )
                &&& begun.advance(upstream).advance(last) == TaskModel::Done(said(last))
            }
            &&& upstream is Err ==> {
                &&& runs(begun.advance(upstream).command(), dir, seq!["remote"@])
                &&& answers(
                    begun.advance(upstream).advance(Ok(remotes)).command(),
                    dir,
                    seq!["push"@, "-u"@, remote, "HEAD"@],
                    credentials,
                )
                &&& answers(
                    forced.advance(upstream).advance(Ok(remotes)).command(),
                    dir,
                    seq![
                        "push"@,
                        "-u"@,
                        remote,
                        "HEAD"@,
                        "--force-with-lease"@,
                        "--force-if-includes"@,
                    ],
                    credentials,
                )
                &&& begun.advance(upstream).advance(Ok(remotes)).advance(last) == TaskModel::Done(
                    said(last),
                )
            }
        }),
{
}

/// A new branch is pushed to `origin` where there is such a remote or none is known; else to the
/// remote that is named first.
pub proof fn lemma_push_goes_to_origin_or_first(text: Seq<char>, i: int)
    requires
        0 <= i < lines(text).len(),
        !blank(lines(text)[i]),
        forall|j: int| 0 <= j < i ==> blank(#[trigger] lines(text)[j]),
    ensures
        (exists|k: int| 0 <= k < lines(text).len() && trimmed(#[trigger] lines(text)[k])
            == "origin"@) ==> push_remote(text) == "origin"@,
        !(exists|k: int| 0 <= k < lines(text).len() && trimmed(#[trigger] lines(text)[k])
            == "origin"@) ==> push_remote(text) == trimmed(lines(text)[i]),
{
    let ls = lines(text).map_values(|l: Seq<char>| trimmed(l));
    assert(ls[i] == trimmed(lines(text)[i]));
    assert forall|j: int| 0 <= j < i implies (#[trigger] ls[j]).len() == 0 by {
        assert(ls[j] == trimmed(lines(text)[j]));
    }
    reveal_strlit("origin");
    lemma_non_empty_holds(ls, "origin"@);
    lemma_first_non_empty(ls, i);
    if remote_names(text).contains("origin"@) {
        let k = choose|k: int| 0 <= k < ls.len() && ls[k] == "origin"@;
        assert(trimmed(lines(text)[k]) == "origin"@);
    }
    if exists|k: int| 0 <= k < lines(text).len() && trimmed(#[trigger] lines(text)[k])
        == "origin"@ {
        let k = choose|k: int| 0 <= k < lines(text).len() && trimmed(#[trigger] lines(text)[k])
            == "origin"@;
        assert(ls[k] == "origin"@);
        assert(ls.contains("origin"@));
    }
}

/// Where no remote is known, a new branch is pushed to `origin`.
pub proof fn lemma_push_goes_to_origin_where_none_is_known(text: Seq<char>)
    requires
        forall|j: int| 0 <= j < lines(text).len() ==> blank(#[trigger] lines(text)[j]),
    ensures
        push_remote(text) == "origin"@,
{
    let ls = lines(text).map_values(|l: Seq<char>| trimmed(l));
    assert forall|j: int| 0 <= j < ls.len() implies (#[trigger] ls[j]).len() == 0 by {
        assert(ls[j] == trimmed(lines(text)[j]));
    }
    lemma_all_empty(ls);
}

/// What is not empty stays when the empty ones go.
proof fn lemma_non_empty_holds(ps: Seq<Seq<char>>, x: Seq<char>)
    requires
        x.len() > 0,
    ensures
        non_empty(ps).contains(x) <==> ps.contains(x),
    decreases ps.len(),
{
    if ps.len() > 0 {
        let most = ps.drop_last();
        lemma_non_empty_holds(most, x);
        let before = non_empty(most);
        if ps.contains(x) {
            let i = choose|i: int| 0 <= i < ps.len() && ps[i] == x;
            if i < most.len() {
                assert(most[i] == x);
                assert(most.contains(x));
                let j = choose|j: int| 0 <= j < before.len() && before[j] == x;
                assert(non_empty(ps)[j] == x);
            } else {
                assert(non_empty(ps).last() == x);
                assert(non_empty(ps)[before.len() as int] == x);
            }
        }
        if non_empty(ps).contains(x) {
            let j = choose|j: int| 0 <= j < non_empty(ps).len() && non_empty(ps)[j] == x;
            if j < before.len() {
                assert(before[j] == x);
                assert(before.contains(x));
                let i = choose|i: int| 0 <= i < most.len() && most[i] == x;
                assert(ps[i] == x);
            } else {
                assert(ps[ps.len() - 1] == x);
            }
        }
    }
}

/// The first that is not empty comes first when the empty ones go.
proof fn lemma_first_non_empty(ps: Seq<Seq<char>>, i: int)
    requires
        0 <= i < ps.len(),
        ps[i].len() > 0,
        forall|j: int| 0 <= j < i ==> (#[trigger] ps[j]).len() == 0,
    ensures
        non_empty(ps).len() > 0,
        non_empty(ps)[0] == ps[i],
    decreases ps.len(),
{
    let most = ps.drop_last();
    if i < most.len() {
        assert(most[i] == ps[i]);
        assert forall|j: int| 0 <= j < i implies (#[trigger] most[j]).len() == 0 by {
            assert(most[j] == ps[j]);
        }
        lemma_first_non_empty(most, i);
    } else {
        assert forall|j: int| 0 <= j < most.len() implies (#[trigger] most[j]).len() == 0 by {
            assert(most[j] == ps[j]);
        }
        lemma_all_empty(most);
    }
}

/// Where all are empty, none is left when they go.
proof fn lemma_all_empty(ps: Seq<Seq<char>>)
    requires
        forall|j: int| 0 <= j < ps.len() ==> (#[trigger] ps[j]).len() == 0,
    ensures
        non_empty(ps).len() == 0,
    decreases ps.len(),
{
    if ps.len() > 0 {
        assert(ps[ps.len() - 1].len() == 0);
        assert forall|j: int| 0 <= j < ps.drop_last().len() implies (
        #[trigger] ps.drop_last()[j]).len() == 0 by {
            assert(ps.drop_last()[j] == ps[j]);
        }
        lemma_all_empty(ps.drop_last());
    }
}

/// Each mode stands for the action of its name, and no mode forces a push.
pub proof fn lemma_modes_stand_for_actions(
    dir: Seq<char>,
    credentials: Option<CredentialsModel>,
)
    ensures
        action_task(dir, RemoteAction::of_mode(Mode::Fetch), credentials).command() matches Some(c)
            && c.args == seq!["fetch"@, "--prune"@],
        action_task(dir, RemoteAction::of_mode(Mode::Pull), credentials).command() matches Some(c)
            && c.args[0] == "pull"@ && c.args[1] == "--ff-only"@,
        action_task(dir, RemoteAction::of_mode(Mode::Rebase), credentials).command() matches Some(c)
            && c.args[0] == "pull"@ && c.args[1] == "--rebase"@,
        RemoteAction::of_mode(Mode::Merge) is Merge,
        RemoteAction::of_mode(Mode::Push) is Push,
        forall|mode: Mode| #[trigger]
            RemoteAction::of_mode(mode) != (RemoteAction::Push { force: true }),
{
}

// ── Auto-stash ───────────────────────────────────────────────────────────────

/// Around an action that is to be stashed for, the top of the stash is looked at, then everything
/// is stashed, untracked files too, then the top is looked at again; only then the action begins.
/// An action that needs no stash begins at once.
pub proof fn lemma_stash_wraps_action(
    dir: Seq<char>,
    action: RemoteAction,
    credentials: Option<CredentialsModel>,
    before: OutputModel,
    push: OutputModel,
    after: OutputModel,
)
    ensures
        ({
            let begun = remote_run(dir, action, credentials, true);
            let looked = begun.advance(Ok(before));
            let stashed = looked.advance(Ok(push));
            let ready = stashed.advance(Ok(after));
            let top = seq!["rev-parse"@, "-q"@, "--verify"@, "refs/stash"@];
            &&& runs(begun.command(), dir, top)
            &&& runs(
                looked.command(),
                dir,
                seq![
                    "stash"@,
                    "push"@,
                    "--include-untracked"@,
                    "-m"@,
                    "gitbatch auto-stash"@,
                ],
            )
            &&& runs(stashed.command(), dir, top)
            &&& ready.command() == action_task(dir, action, credentials).command()
            &&& remote_run(dir, action, credentials, false).command() == action_task(
                dir,
                action,
                credentials,
            ).command()
        }),
{
    reveal_strlit("gitbatch auto-stash");
    let m = "gitbatch auto-stash"@;
    lemma_visible_is_not_blank(m, 0);
    assert(seq!["stash"@, "push"@, "--include-untracked"@] + seq!["-m"@, m] =~= seq![
        "stash"@,
        "push"@,
        "--include-untracked"@,
        "-m"@,
        m,
    ]);
}

/// A stash that is not there is no reason to stop: git tells so with the exit code 1, and with any
/// other failure the run ends before anything is stashed.
pub proof fn lemma_missing_stash_is_no_failure(
    dir: Seq<char>,
    action: RemoteAction,
    credentials: Option<CredentialsModel>,
    command: Seq<char>,
    code: Option<i32>,
    output: Seq<char>,
)
    ensures
        ({
            let e = Fault::GitCommandFailed { command, code, output };
            let next = remote_run(dir, action, credentials, true).advance(Err(e));
            &&& code == Some(1i32) ==> (next.command() matches Some(c) && c.args[0] == "stash"@
                && c.args[1] == "push"@)
            &&& code != Some(1i32) ==> next == RemoteRunModel::Done(Err(e))
        }),
{
    reveal_strlit("gitbatch auto-stash");
    lemma_visible_is_not_blank("gitbatch auto-stash"@, 0);
}

/// Without a stash a run reports what its action reports.
pub proof fn lemma_plain_run_reports_action(
    dir: Seq<char>,
    credentials: Option<CredentialsModel>,
    o: Outcome,
)
    ensures
        remote_run(dir, RemoteAction::Fetch, credentials, false).advance(o) == RemoteRunModel::Done(
            said(o),
        ),
        remote_run(dir, RemoteAction::PullFfOnly, credentials, false).advance(o)
            == RemoteRunModel::Done(said(o)),
        remote_run(dir, RemoteAction::Rebase, credentials, false).advance(o)
            == RemoteRunModel::Done(said(o)),
{
}

} // verus!
