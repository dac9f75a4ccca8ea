//! The state of a repository, as read from git.

use vstd::prelude::*;
use vstd::string::*;

use crate::chars::{
    after_prefix, begins_with, blank, copy_opt, halves, is_blank, lemma_halves_at,
    lemma_visible_is_not_blank, lines, opt_text, same_text, split_lines, split_once, split_words, starts_with, strip_prefix, texts, trim,
    trimmed, trimmed_end, trimmed_start, words,
};
use crate::error::{AppError, Fault, Result};
use crate::git::command::{outcome, plain_command, GitCommand, GitOutput, Outcome, OutputModel};
use crate::native::{show, shown};
use crate::numbers::{
    decimal, lemma_decimal_reads_back, parse_u32_or_zero, parse_u64, parse_usize_or_zero, parsed,
};
use crate::paths::{file_name, file_name_of};

verus! {

// ── Branch and snapshot ──────────────────────────────────────────────────────

/// What a repository is on, and how that compares with its upstream.
#[derive(Debug)]
pub struct BranchStatus {
    pub name: String,
    pub detached: bool,
    pub ahead: u32,
    pub behind: u32,
    /// True when no upstream tracking branch is configured (and branch is not detached).
    pub no_upstream: bool,
    /// The upstream tracking ref name (such as `origin/main`), when configured.
    pub upstream: Option<String>,
}

/// A branch with its texts as sequences of characters.
#[verifier::ext_equal]
pub struct BranchModel {
    pub name: Seq<char>,
    pub detached: bool,
    pub ahead: u32,
    pub behind: u32,
    pub no_upstream: bool,
    pub upstream: Option<Seq<char>>,
}

impl View for BranchStatus {
    type V = BranchModel;

    open spec fn view(&self) -> BranchModel {
        BranchModel {
            name: self.name@,
            detached: self.detached,
            ahead: self.ahead,
            behind: self.behind,
            no_upstream: self.no_upstream,
            upstream: opt_text(self.upstream),
        }
    }
}

impl Clone for BranchStatus {
    fn clone(&self) -> (r: Self)
        ensures
            r@ == self@,
    {
        BranchStatus {
            name: self.name.clone(),
            detached: self.detached,
            ahead: self.ahead,
            behind: self.behind,
            no_upstream: self.no_upstream,
            upstream: copy_opt(&self.upstream),
        }
    }
}

/// A branch of which nothing is known.
pub open spec fn no_branch() -> BranchModel {
    BranchModel {
        name: Seq::empty(),
        detached: false,
        ahead: 0,
        behind: 0,
        no_upstream: false,
        upstream: None,
    }
}

impl Default for BranchStatus {
    fn default() -> (r: Self)
        ensures
            r@ == no_branch(),
    {
        BranchStatus {
            name: String::new(),
            detached: false,
            ahead: 0,
            behind: 0,
            no_upstream: false,
            upstream: None,
        }
    }
}

/// The state of a repository.
#[derive(Debug)]
pub struct RepositorySnapshot {
    pub path: String,
    pub name: String,
    pub branch: BranchStatus,
    pub dirty: bool,
    /// True when the working tree has unresolved merge conflicts (unmerged paths).
    pub has_conflicts: bool,
    /// When the last commit was made, in nanoseconds since the epoch; nothing on new repos.
    pub last_modified: Option<i128>,
    /// First line of the HEAD commit message, empty on new repos.
    pub commit_subject: String,
    /// Number of stash entries.
    pub stash_count: usize,
}

/// A snapshot with its texts as sequences of characters.
#[verifier::ext_equal]
pub struct SnapshotModel {
    pub path: Seq<char>,
    pub name: Seq<char>,
    pub branch: BranchModel,
    pub dirty: bool,
    pub has_conflicts: bool,
    pub last_modified: Option<i128>,
    pub commit_subject: Seq<char>,
    pub stash_count: usize,
}

impl View for RepositorySnapshot {
    type V = SnapshotModel;

    open spec fn view(&self) -> SnapshotModel {
        SnapshotModel {
            path: self.path@,
            name: self.name@,
            branch: self.branch@,
            dirty: self.dirty,
            has_conflicts: self.has_conflicts,
            last_modified: self.last_modified,
            commit_subject: self.commit_subject@,
            stash_count: self.stash_count,
        }
    }
}

impl Clone for RepositorySnapshot {
    fn clone(&self) -> (r: Self)
        ensures
            r@ == self@,
    {
        RepositorySnapshot {
            path: self.path.clone(),
            name: self.name.clone(),
            branch: self.branch.clone(),
            dirty: self.dirty,
            has_conflicts: self.has_conflicts,
            last_modified: self.last_modified,
            commit_subject: self.commit_subject.clone(),
            stash_count: self.stash_count,
        }
    }
}

// ── Reading the status ───────────────────────────────────────────────────────

/// What `git status --porcelain=v2 --branch --show-stash` has told so far.
#[verifier::ext_equal]
pub struct StatusModel {
    pub branch: BranchModel,
    pub dirty: bool,
    pub has_conflicts: bool,
    /// Whether the counts of commits ahead and behind were told.
    pub counted: bool,
    pub stash_count: usize,
}

/// What `git status` has told so far.
struct Status {
    branch: BranchStatus,
    dirty: bool,
    has_conflicts: bool,
    counted: bool,
    stash_count: usize,
}

impl View for Status {
    type V = StatusModel;

    closed spec fn view(&self) -> StatusModel {
        StatusModel {
            branch: self.branch@,
            dirty: self.dirty,
            has_conflicts: self.has_conflicts,
            counted: self.counted,
            stash_count: self.stash_count,
        }
    }
}

/// The number behind `sign` in the word `k` of `ws`; `otherwise` where there is no such word.
pub open spec fn signed_count(ws: Seq<Seq<char>>, k: int, sign: Seq<char>, otherwise: u32) -> u32 {
    if k < ws.len() {
        match after_prefix(ws[k], sign) {
            Some(digits) => match parsed(digits, u32::MAX as nat) {
                Some(n) => n as u32,
                None => 0,
            },
            None => otherwise,
        }
    } else {
        otherwise
    }
}

/// The branch on which `name` stands in the line of the head.
pub open spec fn with_head(b: BranchModel, name: Seq<char>) -> BranchModel {
    if name == "(detached)"@ {
        BranchModel { name: "detached"@, detached: true, ..b }
    } else {
        BranchModel { name, ..b }
    }
}

/// The number of stash entries that `text` tells.
pub open spec fn stash_entries(text: Seq<char>) -> usize {
    match parsed(trimmed(text), usize::MAX as nat) {
        Some(n) => n as usize,
        None => 0,
    }
}

/// What is known after one more line.
pub open spec fn read_line(s: StatusModel, line: Seq<char>) -> StatusModel {
    match after_prefix(line, "# branch.head "@) {
        Some(name) => StatusModel { branch: with_head(s.branch, name), ..s },
        None => match after_prefix(line, "# branch.upstream "@) {
            Some(up) => StatusModel {
                branch: BranchModel { upstream: Some(up), ..s.branch },
                ..s
            },
            None => match after_prefix(line, "# branch.ab "@) {
                Some(ab) => StatusModel {
                    counted: true,
                    branch: BranchModel {
                        ahead: signed_count(words(ab), 0, "+"@, s.branch.ahead),
                        behind: signed_count(words(ab), 1, "-"@, s.branch.behind),
                        ..s.branch
                    },
                    ..s
                },
                None => match after_prefix(line, "# stash "@) {
                    Some(n) => StatusModel { stash_count: stash_entries(n), ..s },
                    None => if begins_with(line, "u "@) {
                        StatusModel { has_conflicts: true, dirty: true, ..s }
                    } else if !begins_with(line, "#"@) && !blank(line) {
                        StatusModel { dirty: true, ..s }
                    } else {
                        s
                    },
                },
            },
        },
    }
}

/// What is known before the first line.
pub open spec fn nothing_read() -> StatusModel {
    StatusModel {
        branch: no_branch(),
        dirty: false,
        has_conflicts: false,
        counted: false,
        stash_count: 0,
    }
}

/// What is known after the lines `ls`.
pub open spec fn read_lines(ls: Seq<Seq<char>>) -> StatusModel
    decreases ls.len(),
{
    if ls.len() == 0 {
        nothing_read()
    } else {
        read_line(read_lines(ls.drop_last()), ls.last())
    }
}

/// The branch that the lines tell of. Without counts there is no upstream, unless the head is
/// detached; without a name the branch is unknown.
pub open spec fn branch_read(s: StatusModel) -> BranchModel {
    BranchModel {
        no_upstream: !s.counted && !s.branch.detached,
        name: if s.branch.name.len() == 0 {
            "unknown"@
        } else {
            s.branch.name
        },
        ..s.branch
    }
}

/// The number behind `sign` in the word `k` of `ws`; `otherwise` where there is no such word.
fn count_of(ws: &Vec<String>, k: usize, sign: &str, otherwise: u32) -> (r: u32)
    ensures
        r == signed_count(texts(ws@), k as int, sign@, otherwise),
{
    if k < ws.len() {
        proof {
            assert(texts(ws@)[k as int] == ws@[k as int]@);
        }
        match strip_prefix(ws[k].as_str(), sign) {
            Some(digits) => parse_u32_or_zero(digits),
            None => otherwise,
        }
    } else {
        otherwise
    }
}

/// Takes in one more line.
fn take_line(s: &mut Status, line: &str)
    ensures
        final(s)@ == read_line(old(s)@, line@),
{
    if let Some(name) = strip_prefix(line, "# branch.head ") {
        if same_text(name, "(detached)") {
            s.branch.name = "detached".to_owned();
            s.branch.detached = true;
        } else {
            s.branch.name = name.to_owned();
        }
    } else if let Some(up) = strip_prefix(line, "# branch.upstream ") {
        s.branch.upstream = Some(up.to_owned());
    } else if let Some(ab) = strip_prefix(line, "# branch.ab ") {
        s.counted = true;
        let parts = split_words(ab);
        s.branch.ahead = count_of(&parts, 0, "+", s.branch.ahead);
        s.branch.behind = count_of(&parts, 1, "-", s.branch.behind);
    } else if let Some(n) = strip_prefix(line, "# stash ") {
        s.stash_count = parse_usize_or_zero(trim(n));
    } else if starts_with(line, "u ") {
        s.has_conflicts = true;
        s.dirty = true;
    } else if !starts_with(line, "#") && !is_blank(line) {
        s.dirty = true;
    }
}

/// What the whole output of `git status` tells.
fn read_status(output: &str) -> (r: Status)
    ensures
        r@ == read_lines(lines(output@)),
{
    let ls = split_lines(output);
    let ghost all = lines(output@);
    let mut s = Status {
        branch: BranchStatus::default(),
        dirty: false,
        has_conflicts: false,
        counted: false,
        stash_count: 0,
    };
    for i in 0..ls.len()
        invariant
            all == texts(ls@),
            s@ == read_lines(all.take(i as int)),
    {
        proof {
            assert(all.take(i + 1).drop_last() =~= all.take(i as int));
            assert(all.take(i + 1).last() == ls@[i as int]@);
        }
        take_line(&mut s, ls[i].as_str());
    }
    proof {
        assert(all.take(all.len() as int) =~= all);
    }
    s
}

// ── Loading ──────────────────────────────────────────────────────────────────

/// The name of a repository: that of its directory, or the whole path where that has none, as paths
/// are shown.
pub open spec fn repository_name(path: Seq<char>) -> Seq<char> {
    match file_name(path) {
        Some(name) => shown(name),
        None => shown(path),
    }
}

/// The two lines that `git log` writes of the last commit: its time, and its subject.
pub open spec fn commit_lines(log: Outcome) -> (Seq<char>, Seq<char>) {
    match log {
        Ok(out) => match halves(out.stdout, '\n') {
            Some(parts) => parts,
            None => (out.stdout, Seq::empty()),
        },
        Err(_) => (Seq::empty(), Seq::empty()),
    }
}

/// The first line of the last commit, given how `git log` ended.
pub open spec fn subject_of(log: Outcome) -> Seq<char> {
    trimmed(commit_lines(log).1)
}

/// When the last commit was made, in nanoseconds since the epoch, given how `git log` ended: git
/// tells the seconds. Where there is no commit, there is no time.
pub open spec fn commit_time(log: Outcome) -> Option<i128> {
    match parsed(trimmed(commit_lines(log).0), u64::MAX as nat) {
        Some(seconds) => Some((seconds * 1_000_000_000) as i128),
        None => None,
    }
}

/// The time and the subject of the last commit are read back as `git log` writes them: the seconds
/// in decimal on the first line, and the subject on the second.
pub proof fn lemma_commit_reads_back(out: OutputModel, seconds: u64, subject: Seq<char>)
    requires
        out.stdout == decimal(seconds as nat) + seq!['\n'] + subject,
    ensures
        commit_time(Ok(out)) == Some((seconds * 1_000_000_000) as i128),
        subject_of(Ok(out)) == trimmed(subject),
{
    let time = decimal(seconds as nat);
    let all = out.stdout;
    lemma_decimal_reads_back(seconds as nat);
    assert forall|j: int| 0 <= j < time.len() implies all[j] != '\n' by {
        assert(all[j] == time[j]);
    }
    lemma_halves_at(all, '\n', time.len() as int);
    assert(all.take(time.len() as int) =~= time);
    assert(all.skip(time.len() as int + 1) =~= subject);
    assert('0' <= time[0] <= '9');
    assert('0' <= time[time.len() - 1] <= '9');
    assert(trimmed_start(time) == time);
    assert(trimmed_end(time) == time);
}

/// The snapshot of the repository at `path`, whose `git status` wrote `output`.
pub open spec fn snapshot_of(
    path: Seq<char>,
    output: Seq<char>,
    log: Outcome,
) -> SnapshotModel {
    let s = read_lines(lines(output));
    SnapshotModel {
        path,
        name: repository_name(path),
        branch: branch_read(s),
        dirty: s.dirty,
        has_conflicts: s.has_conflicts,
        last_modified: commit_time(log),
        commit_subject: subject_of(log),
        stash_count: s.stash_count,
    }
}

/// The outcome of loading, given whether the directory holds a `.git`, and how the two commands
/// ended.
pub open spec fn loaded(
    path: Seq<char>,
    marked: bool,
    status: Outcome,
    log: Outcome,
) -> std::result::Result<SnapshotModel, Fault> {
    if !marked {
        Err(Fault::NotRepository(path))
    } else {
        match status {
            Err(e) => Err(e),
            Ok(out) => Ok(snapshot_of(path, out.stdout, log)),
        }
    }
}

/// The view of the outcome of loading.
pub open spec fn load_view(r: Result<RepositorySnapshot>) -> std::result::Result<
    SnapshotModel,
    Fault,
> {
    match r {
        Ok(s) => Ok(s@),
        Err(e) => Err(e@),
    }
}

/// A number of seconds as nanoseconds, where `text` is one.
fn nanos_of(text: &str) -> (r: Option<i128>)
    ensures
        r == (match parsed(trimmed(text@), u64::MAX as nat) {
            Some(seconds) => Some((seconds * 1_000_000_000) as i128),
            None => None,
        }),
{
    match parse_u64(trim(text)) {
        Some(seconds) => Some(seconds as i128 * 1_000_000_000),
        None => None,
    }
}

impl RepositorySnapshot {
    /// The command that tells the state of the repository at `dir`.
    pub fn status_command(dir: &str) -> (r: GitCommand)
        ensures
            r@ == plain_command(
                dir@,
                seq!["status"@, "--porcelain=v2"@, "--branch"@, "--show-stash"@],
            ),
    {
        GitCommand::new(dir, &["status", "--porcelain=v2", "--branch", "--show-stash"])
    }

    /// The command that tells the time and the subject of the last commit of the repository at
    /// `dir`, each on a line.
    pub fn log_command(dir: &str) -> (r: GitCommand)
        ensures
            r@ == plain_command(dir@, seq!["log"@, "-1"@, "--pretty=format:%ct%n%s"@]),
    {
        GitCommand::new(dir, &["log", "-1", "--pretty=format:%ct%n%s"])
    }

    /// The snapshot of the repository at `dir`, given whether the directory holds a `.git`
    /// (`marked`), and how the two commands ended.
    pub fn load(
        dir: &str,
        marked: bool,
        status: Result<GitOutput>,
        log: Result<GitOutput>,
    ) -> (r: Result<Self>)
        ensures
            load_view(r) == loaded(dir@, marked, outcome(status), outcome(log)),
    {
        if !marked {
            return Err(AppError::NotRepository(dir.to_owned()));
        }
        let output = match status {
            Ok(out) => out,
            Err(e) => {
                return Err(e);
            },
        };
        let (last_modified, commit_subject) = match &log {
            Ok(out) => match split_once(out.stdout.as_str(), '\n') {
                Some((time, subject)) => (nanos_of(time), trim(subject).to_owned()),
                None => (nanos_of(out.stdout.as_str()), String::new()),
            },
            Err(_) => (None, String::new()),
        };
        let s = read_status(output.stdout.as_str());
        let mut branch = s.branch;
        branch.no_upstream = !s.counted && !branch.detached;
        if branch.name.as_str().is_empty() {
            branch.name = "unknown".to_owned();
        }
        let name = match file_name_of(dir) {
            Some(name) => show(name.as_str()),
            None => show(dir),
        };
        Ok(
            RepositorySnapshot {
                path: dir.to_owned(),
                name,
                branch,
                dirty: s.dirty,
                has_conflicts: s.has_conflicts,
                last_modified,
                commit_subject,
                stash_count: s.stash_count,
            },
        )
    }
}

// ── What a status means ──────────────────────────────────────────────────────

/// Whether a line is the entry of a changed file, rather than a header or blank.
pub open spec fn entry(line: Seq<char>) -> bool {
    !begins_with(line, "#"@) && !blank(line)
}

/// A header line, told by its first character, is no entry; and a line of a conflict is one.
proof fn lemma_line_kinds(line: Seq<char>)
    ensures
        begins_with(line, "# branch.head "@) ==> begins_with(line, "#"@),
        begins_with(line, "# branch.upstream "@) ==> begins_with(line, "#"@),
        begins_with(line, "# branch.ab "@) ==> begins_with(line, "#"@),
        begins_with(line, "# stash "@) ==> begins_with(line, "#"@),
        begins_with(line, "u "@) ==> entry(line),
{
    reveal_strlit("#");
    reveal_strlit("# branch.head ");
    reveal_strlit("# branch.upstream ");
    reveal_strlit("# branch.ab ");
    reveal_strlit("# stash ");
    reveal_strlit("u ");
    assert("#"@ =~= seq!['#']);
    if begins_with(line, "# branch.head "@) {
        assert(line[0] == line.subrange(0, "# branch.head "@.len() as int)[0]);
        assert(line.subrange(0, "#"@.len() as int) =~= "#"@);
    }
    if begins_with(line, "# branch.upstream "@) {
        assert(line[0] == line.subrange(0, "# branch.upstream "@.len() as int)[0]);
        assert(line.subrange(0, "#"@.len() as int) =~= "#"@);
    }
    if begins_with(line, "# branch.ab "@) {
        assert(line[0] == line.subrange(0, "# branch.ab "@.len() as int)[0]);
        assert(line.subrange(0, "#"@.len() as int) =~= "#"@);
    }
    if begins_with(line, "# stash "@) {
        assert(line[0] == line.subrange(0, "# stash "@.len() as int)[0]);
        assert(line.subrange(0, "#"@.len() as int) =~= "#"@);
    }
    if begins_with(line, "u "@) {
        assert(line[0] == line.subrange(0, "u "@.len() as int)[0]);
        if begins_with(line, "#"@) {
            assert(line[0] == line.subrange(0, "#"@.len() as int)[0]);
        }
        lemma_visible_is_not_blank(line, 0);
    }
}

/// A repository is dirty exactly when its status has an entry, and has conflicts exactly when it
/// has an unmerged one: headers such as `# branch.oid` make nothing dirty.
pub proof fn lemma_dirty_means_entry(ls: Seq<Seq<char>>)
    ensures
        read_lines(ls).dirty <==> exists|i: int| 0 <= i < ls.len() && #[trigger] entry(ls[i]),
        read_lines(ls).has_conflicts <==> exists|i: int|
            0 <= i < ls.len() && #[trigger] begins_with(ls[i], "u "@),
    decreases ls.len(),
{
    if ls.len() > 0 {
        let most = ls.drop_last();
        lemma_dirty_means_entry(most);
        lemma_line_kinds(ls.last());
        let n = ls.len() - 1;
        assert(ls[n] == ls.last());
        assert(entry(ls.last()) ==> entry(ls[n]));
        assert(begins_with(ls.last(), "u "@) ==> begins_with(ls[n], "u "@));
        assert(read_lines(ls).dirty <==> read_lines(most).dirty || entry(ls.last()));
        if read_lines(most).dirty {
            let i = choose|i: int| 0 <= i < most.len() && #[trigger] entry(most[i]);
            assert(entry(ls[i]));
        }
        if read_lines(most).has_conflicts {
            let i = choose|i: int|
                0 <= i < most.len() && #[trigger] begins_with(most[i], "u "@);
            assert(begins_with(ls[i], "u "@));
        }
        if exists|i: int| 0 <= i < ls.len() && #[trigger] entry(ls[i]) {
            let i = choose|i: int| 0 <= i < ls.len() && #[trigger] entry(ls[i]);
            if i < n {
                assert(entry(most[i]));
            }
        }
        if exists|i: int| 0 <= i < ls.len() && #[trigger] begins_with(ls[i], "u "@) {
            let i = choose|i: int| 0 <= i < ls.len() && #[trigger] begins_with(ls[i], "u "@);
            if i < n {
                assert(begins_with(most[i], "u "@));
            }
        }
    }
}

/// A repository with conflicts is dirty.
pub proof fn lemma_conflicts_are_dirty(ls: Seq<Seq<char>>)
    ensures
        read_lines(ls).has_conflicts ==> read_lines(ls).dirty,
    decreases ls.len(),
{
    if ls.len() > 0 {
        lemma_conflicts_are_dirty(ls.drop_last());
    }
}

/// A branch always has a name.
pub proof fn lemma_branch_has_name(s: StatusModel)
    ensures
        branch_read(s).name.len() > 0,
{
    reveal_strlit("unknown");
}

} // verus!
