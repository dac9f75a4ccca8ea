//! What is read back of what git writes, and what git is told by its environment.

use vstd::prelude::*;
use vstd::string::*;

use crate::chars::{
    after_prefix, begins_with, blank, lines, non_empty, pieces, trimmed, white_space, words,
};
use crate::error::Fault;
use crate::git::command::{
    classified, interpreted, CommandModel, Outcome, OutputModel, RunEnd,
};
use crate::git::fast_forward::nul_paths;
use crate::git::status::{
    entry, lemma_dirty_means_entry, loaded, read_lines, SnapshotModel,
};
use crate::meaning::{
    lemma_pieces_hold_no_separator, lemma_pieces_of_both, lemma_trimming_takes_white_space_off,
    lemma_words_stand_between_white_space, solid,
};
use crate::numbers::{all_digits, decimal, lemma_decimal_reads_back, parsed};

verus! {

// ── Lines of the status ──────────────────────────────────────────────────────

/// What follows a text at the start is had back.
proof fn lemma_rest(pat: Seq<char>, rest: Seq<char>)
    ensures
        after_prefix(pat + rest, pat) == Some(rest),
{
    let s = pat + rest;
    assert(s.subrange(0, 0 + pat.len() as int) =~= pat);
    assert(s.skip(pat.len() as int) =~= rest);
}

/// A text does not start with one from which it differs at some character.
proof fn lemma_other_start(s: Seq<char>, pat: Seq<char>, k: int)
    requires
        0 <= k < pat.len(),
        k < s.len(),
        s[k] != pat[k],
    ensures
        after_prefix(s, pat) is None,
        !begins_with(s, pat),
{
    if begins_with(s, pat) {
        assert(s.subrange(0, pat.len() as int)[k] == pat[k]);
    }
}

/// The head that git names becomes the name of the branch; a detached head is known as such.
pub proof fn lemma_head_is_read(ls: Seq<Seq<char>>, name: Seq<char>)
    ensures
        ({
            let before = read_lines(ls);
            let after = read_lines(ls.push("# branch.head "@ + name));
            &&& name != "(detached)"@ ==> after.branch.name == name && after.branch.detached
                == before.branch.detached
            &&& name == "(detached)"@ ==> after.branch.detached && after.branch.name
                == "detached"@
            &&& after.branch.ahead == before.branch.ahead && after.branch.behind
                == before.branch.behind && after.branch.upstream == before.branch.upstream
            &&& after.dirty == before.dirty && after.has_conflicts == before.has_conflicts
                && after.counted == before.counted && after.stash_count == before.stash_count
        }),
{
    lemma_rest("# branch.head "@, name);
    assert(ls.push("# branch.head "@ + name).drop_last() =~= ls);
}

/// The upstream that git names is that of the branch.
pub proof fn lemma_upstream_is_read(ls: Seq<Seq<char>>, upstream: Seq<char>)
    ensures
        ({
            let before = read_lines(ls);
            let after = read_lines(ls.push("# branch.upstream "@ + upstream));
            &&& after.branch.upstream == Some(upstream)
            &&& after.branch.name == before.branch.name && after.branch.detached
                == before.branch.detached && after.branch.ahead == before.branch.ahead
                && after.branch.behind == before.branch.behind
            &&& after.dirty == before.dirty && after.has_conflicts == before.has_conflicts
                && after.counted == before.counted && after.stash_count == before.stash_count
        }),
{
    reveal_strlit("# branch.head ");
    reveal_strlit("# branch.upstream ");
    let line = "# branch.upstream "@ + upstream;
    lemma_rest("# branch.upstream "@, upstream);
    lemma_other_start(line, "# branch.head "@, 9);
    assert(ls.push(line).drop_last() =~= ls);
}

/// A sign and a number make one word, which is read back.
proof fn lemma_signed_number(sign: Seq<char>, n: u32)
    requires
        sign.len() == 1,
        !white_space(sign[0]),
    ensures
        solid(sign + decimal(n as nat)),
        (sign + decimal(n as nat)).len() > 0,
        after_prefix(sign + decimal(n as nat), sign) == Some(decimal(n as nat)),
        parsed(decimal(n as nat), u32::MAX as nat) == Some(n as nat),
{
    let d = decimal(n as nat);
    lemma_decimal_reads_back(n as nat);
    lemma_rest(sign, d);
    assert(d[0] != '+');
    assert forall|i: int| 0 <= i < (sign + d).len() implies !white_space(
        #[trigger] (sign + d)[i],
    ) by {
        if i > 0 {
            assert((sign + d)[i] == d[i - 1]);
        }
    }
}

/// The numbers of commits ahead and behind are those that git tells, each as itself.
pub proof fn lemma_counts_are_read(ls: Seq<Seq<char>>, ahead: u32, behind: u32)
    ensures
        ({
            let before = read_lines(ls);
            let after = read_lines(
                ls.push(
                    "# branch.ab "@ + ("+"@ + decimal(ahead as nat) + " "@ + ("-"@ + decimal(
                        behind as nat,
                    ))),
                ),
            );
            &&& after.branch.ahead == ahead
            &&& after.branch.behind == behind
            &&& after.counted
            &&& after.branch.name == before.branch.name && after.branch.detached
                == before.branch.detached && after.branch.upstream == before.branch.upstream
            &&& after.dirty == before.dirty && after.has_conflicts == before.has_conflicts
                && after.stash_count == before.stash_count
        }),
{
    reveal_strlit("# branch.head ");
    reveal_strlit("# branch.upstream ");
    reveal_strlit("# branch.ab ");
    reveal_strlit("+");
    reveal_strlit("-");
    reveal_strlit(" ");
    let a = "+"@ + decimal(ahead as nat);
    let b = "-"@ + decimal(behind as nat);
    let ab = a + " "@ + b;
    let line = "# branch.ab "@ + ab;
    lemma_rest("# branch.ab "@, ab);
    lemma_other_start(line, "# branch.head "@, 9);
    lemma_other_start(line, "# branch.upstream "@, 9);
    lemma_signed_number("+"@, ahead);
    lemma_signed_number("-"@, behind);
    assert(" "@ =~= seq![' ']);
    lemma_words_stand_between_white_space(a, ' ', b);
    lemma_words_stand_between_white_space(b, ' ', b);
    assert(words(ab) =~= seq![a, b]);
    assert(ls.push(line).drop_last() =~= ls);
}

/// The number of stash entries is the one that git tells.
pub proof fn lemma_stashes_are_read(ls: Seq<Seq<char>>, n: u32)
    ensures
        ({
            let before = read_lines(ls);
            let after = read_lines(ls.push("# stash "@ + decimal(n as nat)));
            &&& after.stash_count == n
            &&& after.branch == before.branch && after.dirty == before.dirty && after.has_conflicts
                == before.has_conflicts && after.counted == before.counted
        }),
{
    reveal_strlit("# branch.head ");
    reveal_strlit("# branch.upstream ");
    reveal_strlit("# branch.ab ");
    reveal_strlit("# stash ");
    let d = decimal(n as nat);
    let line = "# stash "@ + d;
    lemma_rest("# stash "@, d);
    lemma_other_start(line, "# branch.head "@, 2);
    lemma_other_start(line, "# branch.upstream "@, 2);
    lemma_other_start(line, "# branch.ab "@, 2);
    lemma_decimal_reads_back(n as nat);
    lemma_digits_stay_whole(d);
    assert(d[0] != '+');
    assert(ls.push(line).drop_last() =~= ls);
}

/// Digits have no white space around them to be left out.
proof fn lemma_digits_stay_whole(d: Seq<char>)
    requires
        all_digits(d),
    ensures
        trimmed(d) == d,
{
    if d.len() > 0 {
        assert(!white_space(d[0]));
        assert(!white_space(d[d.len() - 1]));
    }
}

/// Entries and other headers leave what is known of the branch as it is.
pub proof fn lemma_entries_leave_branch(ls: Seq<Seq<char>>, line: Seq<char>)
    requires
        !begins_with(line, "# branch.head "@),
        !begins_with(line, "# branch.upstream "@),
        !begins_with(line, "# branch.ab "@),
    ensures
        read_lines(ls.push(line)).branch == read_lines(ls).branch,
        read_lines(ls.push(line)).counted == read_lines(ls).counted,
{
    assert(ls.push(line).drop_last() =~= ls);
}

/// Counts are known exactly when git told some, and a head is detached exactly when git said so.
pub proof fn lemma_what_is_known_was_told(ls: Seq<Seq<char>>)
    ensures
        read_lines(ls).counted <==> exists|i: int|
            0 <= i < ls.len() && #[trigger] begins_with(ls[i], "# branch.ab "@),
        read_lines(ls).branch.detached ==> exists|i: int|
            0 <= i < ls.len() && #[trigger] begins_with(ls[i], "# branch.head "@),
        read_lines(ls).branch.upstream is Some ==> exists|i: int|
            0 <= i < ls.len() && #[trigger] begins_with(ls[i], "# branch.upstream "@),
    decreases ls.len(),
{
    if ls.len() > 0 {
        let t = ls.drop_last();
        lemma_what_is_known_was_told(t);
        reveal_strlit("# branch.head ");
        reveal_strlit("# branch.upstream ");
        reveal_strlit("# branch.ab ");
        let last = ls.last();
        let n = ls.len() - 1;
        assert(last == ls[n]);
        if begins_with(last, "# branch.ab "@) {
            assert(last.subrange(0, "# branch.ab "@.len() as int)[9] == 'a');
            lemma_other_start(last, "# branch.head "@, 9);
            lemma_other_start(last, "# branch.upstream "@, 9);
            assert(begins_with(ls[n], "# branch.ab "@));
        }
        if read_lines(t).counted {
            let i = choose|i: int|
                0 <= i < t.len() && #[trigger] begins_with(t[i], "# branch.ab "@);
            assert(begins_with(ls[i], "# branch.ab "@));
        }
        if exists|i: int| 0 <= i < ls.len() && #[trigger] begins_with(ls[i], "# branch.ab "@) {
            let i = choose|i: int|
                0 <= i < ls.len() && #[trigger] begins_with(ls[i], "# branch.ab "@);
            if i < n {
                assert(begins_with(t[i], "# branch.ab "@));
            }
        }
        if read_lines(t).branch.detached {
            let i = choose|i: int|
                0 <= i < t.len() && #[trigger] begins_with(t[i], "# branch.head "@);
            assert(begins_with(ls[i], "# branch.head "@));
        }
        if begins_with(last, "# branch.head "@) {
            assert(begins_with(ls[n], "# branch.head "@));
        }
        if read_lines(t).branch.upstream is Some {
            let i = choose|i: int|
                0 <= i < t.len() && #[trigger] begins_with(t[i], "# branch.upstream "@);
            assert(begins_with(ls[i], "# branch.upstream "@));
        }
        if begins_with(last, "# branch.upstream "@) {
            assert(begins_with(ls[n], "# branch.upstream "@));
        }
    }
}

/// What is loaded of a repository: a directory without a `.git` is none, and a status that could not
/// be had is its error; how `git log` ended decides on the last commit alone.
pub proof fn lemma_loading(path: Seq<char>, status: Outcome, log: Outcome)
    ensures
        loaded(path, false, status, log) == Err::<SnapshotModel, Fault>(
            Fault::NotRepository(path),
        ),
        status matches Err(e) ==> loaded(path, true, status, log) == Err::<
            SnapshotModel,
            Fault,
        >(e),
        status matches Ok(out) ==> (loaded(path, true, status, log) matches Ok(s) && {
            let ls = lines(out.stdout);
            &&& s.path == path
            &&& s.dirty <==> exists|i: int| 0 <= i < ls.len() && #[trigger] entry(ls[i])
            &&& s.has_conflicts <==> exists|i: int|
                0 <= i < ls.len() && #[trigger] begins_with(ls[i], "u "@)
            &&& s.branch.no_upstream <==> !s.branch.detached && !exists|i: int|
                0 <= i < ls.len() && #[trigger] begins_with(ls[i], "# branch.ab "@)
            &&& s.branch.ahead == read_lines(ls).branch.ahead
            &&& s.branch.behind == read_lines(ls).branch.behind
            &&& s.branch.upstream == read_lines(ls).branch.upstream
            &&& s.branch.detached == read_lines(ls).branch.detached
            &&& s.stash_count == read_lines(ls).stash_count
            &&& log is Err ==> s.last_modified is None && s.commit_subject.len() == 0
        }),
{
    match status {
        Ok(out) => {
            lemma_dirty_means_entry(lines(out.stdout));
            lemma_what_is_known_was_told(lines(out.stdout));
        },
        Err(e) => {},
    }
    lemma_trimming_takes_white_space_off(Seq::<char>::empty());
}

// ── Lists of paths ───────────────────────────────────────────────────────────

/// The paths in a list are those that a NUL ends, whatever else they hold.
pub proof fn lemma_paths_end_in_nul(path: Seq<char>, rest: Seq<char>)
    requires
        path.len() > 0,
        !path.contains('\0'),
    ensures
        nul_paths(path + seq!['\0'] + rest) == seq![path] + nul_paths(rest),
        nul_paths(Seq::<char>::empty()) == Seq::<Seq<char>>::empty(),
{
    lemma_pieces_of_both(path, rest, '\0');
    lemma_pieces_hold_no_separator(path, '\0');
    lemma_one_and_others(path, pieces(rest, '\0'));
    let none = seq![Seq::<char>::empty()];
    assert(none.drop_last() =~= Seq::<Seq<char>>::empty());
    reveal_with_fuel(non_empty, 2);
}

/// A piece that is not empty stays at its place.
proof fn lemma_one_and_others(path: Seq<char>, others: Seq<Seq<char>>)
    requires
        path.len() > 0,
    ensures
        non_empty(seq![path] + others) == seq![path] + non_empty(others),
    decreases others.len(),
{
    let all = seq![path] + others;
    if others.len() == 0 {
        assert(all =~= seq![path]);
        assert(all.drop_last() =~= Seq::<Seq<char>>::empty());
        reveal_with_fuel(non_empty, 2);
        assert(non_empty(all) =~= seq![path] + non_empty(others));
    } else {
        lemma_one_and_others(path, others.drop_last());
        assert(all.drop_last() =~= seq![path] + others.drop_last());
        assert(all.last() == others.last());
        assert(non_empty(all) =~= seq![path] + non_empty(others));
    }
}

// ── Runs ─────────────────────────────────────────────────────────────────────

/// Whether a run sets the variable `name` to `value`.
pub open spec fn sets(
    command: CommandModel,
    askpass: Seq<char>,
    name: Seq<char>,
    value: Seq<char>,
) -> bool {
    command.environment(askpass).contains((name, value))
}

/// No run waits for the terminal or an editor, and all speak the same language; one that only reads
/// takes no locks; one with credentials is handed the helper that answers with them.
pub proof fn lemma_environment_of_runs(command: CommandModel, askpass: Seq<char>)
    ensures
        sets(command, askpass, "GIT_TERMINAL_PROMPT"@, "0"@),
        sets(command, askpass, "GIT_EDITOR"@, "true"@),
        sets(command, askpass, "GIT_SEQUENCE_EDITOR"@, "true"@),
        sets(command, askpass, "LC_ALL"@, "C"@),
        sets(command, askpass, "LANG"@, "C"@),
        !command.take_optional_locks ==> sets(command, askpass, "GIT_OPTIONAL_LOCKS"@, "0"@),
        command.credentials matches Some(c) ==> {
            &&& sets(command, askpass, "GIT_ASKPASS"@, askpass)
            &&& sets(command, askpass, "SSH_ASKPASS"@, askpass)
            &&& sets(command, askpass, "SSH_ASKPASS_REQUIRE"@, "force"@)
            &&& sets(command, askpass, "GITBATCH_USERNAME"@, c.username)
            &&& sets(command, askpass, "GITBATCH_PASSWORD"@, c.password)
        },
        command.credentials is None && command.take_optional_locks ==> command.environment(
            askpass,
        ).len() == 8,
{
    let e = command.environment(askpass);
    assert(e[0] == ("GIT_TERMINAL_PROMPT"@, "0"@));
    assert(e[4] == ("LANG"@, "C"@));
    assert(e[5] == ("LC_ALL"@, "C"@));
    assert(e[6] == ("GIT_EDITOR"@, "true"@));
    assert(e[7] == ("GIT_SEQUENCE_EDITOR"@, "true"@));
    if !command.take_optional_locks {
        assert(e[8] == ("GIT_OPTIONAL_LOCKS"@, "0"@));
    }
    let n = if command.take_optional_locks {
        8int
    } else {
        9int
    };
    match command.credentials {
        Some(c) => {
            assert(e[n] == ("GIT_ASKPASS"@, askpass));
            assert(e[n + 1] == ("SSH_ASKPASS"@, askpass));
            assert(e[n + 2] == ("SSH_ASKPASS_REQUIRE"@, "force"@));
            assert(e[n + 4] == ("GITBATCH_USERNAME"@, c.username));
            assert(e[n + 5] == ("GITBATCH_PASSWORD"@, c.password));
        },
        None => {},
    }
}

/// How a run ended is told as it is: git's own output where it exits with zero; else a demand of
/// credentials where it asked for some; else the command, its code and all that it wrote.
pub proof fn lemma_end_of_run_is_told(
    command: CommandModel,
    code: Option<i32>,
    out: Seq<char>,
    err: Seq<char>,
    prompt: bool,
)
    ensures
        ({
            let end = classified(command, code, out, err, prompt);
            &&& code == Some(0i32) ==> (end matches Ok(o) && o.stdout == trimmed(out) && o.stderr
                == trimmed(err))
            &&& code != Some(0i32) && prompt ==> end is Err && end->Err_0
                is CredentialPromptDetected
            &&& code != Some(0i32) && !prompt ==> (end matches Err(
                Fault::GitCommandFailed { command: line, code: told, output },
            ) && line == command.display() && told == code)
        }),
{
}

/// A run that took too long is told with its command and the limit, and one that could not be
/// started as such.
pub proof fn lemma_unfinished_run_is_told(command: CommandModel, limit: (u64, u32), why: String)
    ensures
        interpreted(command, limit, RunEnd::TimedOut) matches Err(
            Fault::CommandTimeout { command: line, timeout },
        ) && line == command.display() && timeout == limit,
        interpreted(command, limit, RunEnd::NotRun(why)) matches Err(Fault::Io(e)) && e == why@,
        "git "@.is_prefix_of(command.display()),
{
    let d = command.display();
    assert(d.subrange(0, "git "@.len() as int) =~= "git "@);
}

/// All that git wrote is told: what it wrote to its output, and below that what it wrote to its
/// error output.
pub proof fn lemma_both_outputs_are_told(o: OutputModel)
    ensures
        blank(o.stderr) ==> o.combined() == trimmed(o.stdout),
        blank(o.stdout) ==> o.combined() == trimmed(o.stderr),
        !blank(o.stdout) && !blank(o.stderr) ==> o.combined() == trimmed(o.stdout) + "\n"@
            + trimmed(o.stderr),
{
    if blank(o.stderr) && blank(o.stdout) {
        assert(trimmed(o.stdout) =~= trimmed(o.stderr));
    }
}

} // verus!
