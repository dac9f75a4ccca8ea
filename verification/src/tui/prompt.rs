//! Prompts: a line of input that is edited, for commits a description, and for worktrees a path.

use vstd::prelude::*;
use vstd::string::*;

use crate::chars::{
    cat2, char_count, chars_of, lemma_pieces_some, lines, pieces, replace_char, replaced,
    split_lines, texts, trim, trimmed,
};
use crate::offsets::{
    boundary, bytes_in, index_at, index_of_offset, lemma_index_at, lemma_offset_prefix, offset,
};
use crate::git::runner::opt_str;
use crate::tui::key::{KeyCode, KeyModifiers};
use crate::tui::text::{
    back_over_separators, back_over_word, branch_name_fault, next_char_boundary, prev_char_boundary,
    separator, validate_branch_name, word_back_start,
};

verus! {

/// What a prompt asks for.
#[derive(Debug, Clone, Copy, PartialEq, Eq, Structural)]
pub enum PromptKind {
    Commit,
    Branch,
    Stash,
    WorktreeBranch,
    CheckoutBranch,
    DeleteBranch,
    ForceDeleteBranch,
    CheckoutRemoteBranch,
    DeleteRemoteBranch,
    SetUpstream,
}

impl PromptKind {
    /// What stands above the line of input.
    pub open spec fn label_text(self) -> Seq<char> {
        match self {
            PromptKind::Commit => "Summary"@,
            PromptKind::Branch => "New branch name"@,
            PromptKind::Stash => "Stash message (optional)"@,
            PromptKind::WorktreeBranch => "New worktree branch"@,
            PromptKind::CheckoutBranch => "Checkout branch"@,
            PromptKind::DeleteBranch => "Delete branch (safe)"@,
            PromptKind::ForceDeleteBranch => "Force delete branch"@,
            PromptKind::DeleteRemoteBranch => "Delete remote branch"@,
            PromptKind::CheckoutRemoteBranch => "Checkout remote branch"@,
            PromptKind::SetUpstream => "Upstream (remote or remote/branch)"@,
        }
    }

    /// The title of the prompt.
    pub open spec fn title_text(self) -> Seq<char> {
        match self {
            PromptKind::Commit => "Commit"@,
            PromptKind::Branch | PromptKind::WorktreeBranch => "New Branch"@,
            PromptKind::Stash => "Stash"@,
            PromptKind::CheckoutBranch | PromptKind::CheckoutRemoteBranch => "Checkout"@,
            PromptKind::DeleteBranch => "Delete Branch"@,
            PromptKind::ForceDeleteBranch => "Force Delete Branch"@,
            PromptKind::DeleteRemoteBranch => "Delete Remote Branch"@,
            PromptKind::SetUpstream => "Set Upstream"@,
        }
    }

    /// What stands above the line of input.
    pub fn label(self) -> (r: &'static str)
        ensures
            r@ == self.label_text(),
    {
        match self {
            PromptKind::Commit => "Summary",
            PromptKind::Branch => "New branch name",
            PromptKind::Stash => "Stash message (optional)",
            PromptKind::WorktreeBranch => "New worktree branch",
            PromptKind::CheckoutBranch => "Checkout branch",
            PromptKind::DeleteBranch => "Delete branch (safe)",
            PromptKind::ForceDeleteBranch => "Force delete branch",
            PromptKind::DeleteRemoteBranch => "Delete remote branch",
            PromptKind::CheckoutRemoteBranch => "Checkout remote branch",
            PromptKind::SetUpstream => "Upstream (remote or remote/branch)",
        }
    }

    /// The title of the prompt.
    pub fn title(self) -> (r: &'static str)
        ensures
            r@ == self.title_text(),
    {
        match self {
            PromptKind::Commit => "Commit",
            PromptKind::Branch | PromptKind::WorktreeBranch => "New Branch",
            PromptKind::Stash => "Stash",
            PromptKind::CheckoutBranch | PromptKind::CheckoutRemoteBranch => "Checkout",
            PromptKind::DeleteBranch => "Delete Branch",
            PromptKind::ForceDeleteBranch => "Force Delete Branch",
            PromptKind::DeleteRemoteBranch => "Delete Remote Branch",
            PromptKind::SetUpstream => "Set Upstream",
        }
    }
}

/// The field of a prompt of two fields that is being edited: the line of input, or what goes with
/// it (the description of a commit, the path of a worktree).
#[derive(Debug, Clone, Copy, PartialEq, Eq, Structural)]
pub enum CommitField {
    Subject,
    Description,
}

/// A prompt.
#[derive(Debug)]
pub struct PromptState {
    pub kind: PromptKind,
    pub input: String,
    /// Byte offset of the edit cursor within `input` (always on a char boundary).
    pub cursor: usize,
    /// Validation error shown under the input; cleared on the next edit.
    pub error: Option<&'static str>,
    /// Commit description (body) when the kind is `Commit`, path of the new worktree when it is
    /// `WorktreeBranch`, and otherwise unused. Append-only: cursor editing applies to the
    /// single-line `input` field only.
    pub description: String,
    /// Which field is active in a prompt of two fields.
    pub commit_field: CommitField,
}

/// A prompt with its texts as sequences of characters.
#[verifier::ext_equal]
pub struct PromptModel {
    pub kind: PromptKind,
    pub input: Seq<char>,
    /// The index of the character at the cursor.
    pub at: int,
    pub error: Option<Seq<char>>,
    pub description: Seq<char>,
    pub commit_field: CommitField,
}

impl View for PromptState {
    type V = PromptModel;

    open spec fn view(&self) -> PromptModel {
        PromptModel {
            kind: self.kind,
            input: self.input@,
            at: index_at(self.input@, self.cursor as int),
            error: opt_str(self.error),
            description: self.description@,
            commit_field: self.commit_field,
        }
    }
}

/// What becomes of a prompt after a key.
#[derive(Debug, Clone, Copy, PartialEq, Eq, Structural)]
pub enum PromptNext {
    Stay,
    Close,
    Submit,
}

impl PromptModel {
    /// A prompt with `input` in it, and the cursor at the end.
    pub open spec fn opened(kind: PromptKind, input: Seq<char>) -> PromptModel {
        PromptModel {
            kind,
            input,
            at: input.len() as int,
            error: None,
            description: Seq::empty(),
            commit_field: CommitField::Subject,
        }
    }

    /// Whether the prompt has a second field.
    pub open spec fn two_fields(self) -> bool {
        self.kind == PromptKind::Commit || self.kind == PromptKind::WorktreeBranch
    }

    /// Whether the second field is being edited.
    pub open spec fn in_second(self) -> bool {
        self.two_fields() && self.commit_field == CommitField::Description
    }

    /// Whether the description of a commit is being edited.
    pub open spec fn in_description(self) -> bool {
        self.kind == PromptKind::Commit && self.in_second()
    }

    /// What stands before the cursor.
    pub open spec fn left(self) -> Seq<char> {
        self.input.take(self.at)
    }

    /// What stands behind the cursor.
    pub open spec fn right(self) -> Seq<char> {
        self.input.skip(self.at)
    }

    /// With the cursor between `left` and `right`, and no error.
    pub open spec fn edited(self, left: Seq<char>, right: Seq<char>) -> PromptModel {
        PromptModel { input: left + right, at: left.len() as int, error: None, ..self }
    }

    /// Without the word before the cursor.
    pub open spec fn word_deleted(self) -> PromptModel {
        let start = back_over_word(self.input, back_over_separators(self.input, self.at));
        self.edited(self.input.take(start), self.right())
    }

    /// What is wrong with the input, where it is to be the name of a new branch.
    pub open spec fn fault(self) -> Option<Seq<char>> {
        if self.kind == PromptKind::Branch || self.kind == PromptKind::WorktreeBranch {
            branch_name_fault(trimmed(self.input))
        } else {
            None
        }
    }

    /// The prompt after a key.
    pub open spec fn after_key(self, code: KeyCode, mods: KeyModifiers) -> PromptModel {
        let d = self.in_second();
        match code {
            KeyCode::Tab => if self.two_fields() {
                PromptModel {
                    commit_field: if self.commit_field == CommitField::Subject {
                        CommitField::Description
                    } else {
                        CommitField::Subject
                    },
                    ..self
                }
            } else {
                self
            },
            KeyCode::Left => if !d && self.at > 0 {
                PromptModel { at: self.at - 1, ..self }
            } else {
                self
            },
            KeyCode::Right => if !d && self.at < self.input.len() {
                PromptModel { at: self.at + 1, ..self }
            } else {
                self
            },
            KeyCode::Home => if d {
                self
            } else {
                PromptModel { at: 0, ..self }
            },
            KeyCode::End => if d {
                self
            } else {
                PromptModel { at: self.input.len() as int, ..self }
            },
            KeyCode::Delete => if !d && self.at < self.input.len() {
                self.edited(self.left(), self.right().drop_first())
            } else {
                self
            },
            KeyCode::Backspace => if d {
                PromptModel {
                    description: if self.description.len() > 0 {
                        self.description.drop_last()
                    } else {
                        self.description
                    },
                    ..self
                }
            } else if mods.alt || mods.control {
                self.word_deleted()
            } else if self.at > 0 {
                self.edited(self.left().drop_last(), self.right())
            } else {
                self
            },
            KeyCode::Enter => if self.in_description() {
                PromptModel { description: self.description.push('\n'), ..self }
            } else if self.fault() is Some {
                PromptModel { error: self.fault(), ..self }
            } else {
                self
            },
            KeyCode::Char(c) => if mods.control {
                if !d && (c == 'w' || c == 'h') {
                    self.word_deleted()
                } else {
                    self
                }
            } else if d {
                PromptModel { description: self.description.push(c), ..self }
            } else {
                self.edited(self.left().push(c), self.right())
            },
            _ => self,
        }
    }

    /// What becomes of the prompt after a key: Esc closes it, and Enter submits it unless a
    /// description is being edited or the name of a new branch is not valid.
    pub open spec fn next(self, code: KeyCode) -> PromptNext {
        match code {
            KeyCode::Esc => PromptNext::Close,
            KeyCode::Enter => if self.in_description() || self.fault() is Some {
                PromptNext::Stay
            } else {
                PromptNext::Submit
            },
            _ => PromptNext::Stay,
        }
    }

    /// The prompt after `text` was pasted: a description takes it whole, a line of input and a path
    /// take its first line, so that an embedded newline cannot submit the prompt.
    pub open spec fn pasted(self, text: Seq<char>) -> PromptModel {
        if self.in_description() {
            PromptModel {
                description: self.description + replaced(text, '\r', Seq::empty()),
                ..self
            }
        } else if self.in_second() {
            PromptModel { description: self.description + first_line(text), ..self }
        } else {
            self.edited(self.left() + first_line(text), self.right())
        }
    }
}

/// The first line of `text`, without carriage returns.
pub open spec fn first_line(text: Seq<char>) -> Seq<char> {
    if lines(text).len() > 0 {
        replaced(lines(text)[0], '\r', Seq::empty())
    } else {
        Seq::empty()
    }
}

/// The first line of `text`, without carriage returns.
pub fn first_line_of(text: &str) -> (r: String)
    ensures
        r@ == first_line(text@),
{
    let ls = split_lines(text);
    if ls.len() > 0 {
        proof {
            assert(texts(ls@)[0] == ls@[0]@);
            reveal_strlit("");
            assert(""@ =~= Seq::<char>::empty());
        }
        replace_char(ls[0].as_str(), '\r', "")
    } else {
        String::new()
    }
}

impl PromptState {
    /// Whether the cursor is on a char boundary.
    pub open spec fn wf(self) -> bool {
        boundary(self.input@, self.cursor as int)
    }

    /// A prompt with `value` in it, and the cursor at the end.
    pub fn open(kind: PromptKind, value: String) -> (r: Self)
        ensures
            r@ == PromptModel::opened(kind, value@),
            r.wf(),
    {
        proof {
            lemma_index_at(value@, value@.len() as int);
        }
        let cursor = bytes_in(value.as_str());
        PromptState {
            kind,
            input: value,
            cursor,
            error: None,
            description: String::new(),
            commit_field: CommitField::Subject,
        }
    }

    /// Puts `left` and `right` on either side of the cursor.
    fn put(&mut self, left: &str, right: &str)
        ensures
            final(self)@ == old(self)@.edited(left@, right@),
            final(self).wf(),
    {
        proof {
            let all = left@ + right@;
            lemma_offset_prefix(left@, all, left@.len() as int);
            lemma_index_at(all, left@.len() as int);
        }
        self.input = cat2(left, right);
        self.cursor = bytes_in(left);
        self.error = None;
    }

    /// The index of the character at the cursor.
    fn index(&self) -> (r: usize)
        requires
            self.wf(),
        ensures
            r == self@.at,
            r <= self@.input.len(),
            offset(self.input@, r as int) == self.cursor,
    {
        let cs = chars_of(self.input.as_str());
        index_of_offset(&cs, self.cursor)
    }

    /// Deletes the word before the cursor.
    fn delete_word(&mut self)
        requires
            old(self).wf(),
        ensures
            final(self)@ == old(self)@.word_deleted(),
            final(self).wf(),
    {
        let k = self.index();
        let n = char_count(self.input.as_str());
        let start = word_back_start(self.input.as_str(), self.cursor);
        let cs = chars_of(self.input.as_str());
        let s = index_of_offset(&cs, start);
        proof {
            let i = self.input@;
            lemma_back_over(i, k as int);
            lemma_index_at(i, back_over_word(i, back_over_separators(i, k as int)));
        }
        let left = self.input.as_str().substring_char(0, s).to_owned();
        let right = self.input.as_str().substring_char(k, n).to_owned();
        proof {
            assert(left@ =~= self.input@.take(s as int));
            assert(right@ =~= self.input@.skip(k as int));
        }
        self.put(left.as_str(), right.as_str());
    }

    /// Handles a key, and says what becomes of the prompt.
    pub fn key(&mut self, code: KeyCode, mods: KeyModifiers) -> (r: PromptNext)
        requires
            old(self).wf(),
        ensures
            final(self)@ == old(self)@.after_key(code, mods),
            final(self).wf(),
            r == old(self)@.next(code),
    {
        let is_commit = matches!(self.kind, PromptKind::Commit);
        let two_fields = is_commit || matches!(self.kind, PromptKind::WorktreeBranch);
        let in_desc = two_fields && matches!(self.commit_field, CommitField::Description);
        let k = self.index();
        let n = char_count(self.input.as_str());
        match code {
            KeyCode::Esc => {
                return PromptNext::Close;
            },
            KeyCode::Tab => {
                if two_fields {
                    self.commit_field = match self.commit_field {
                        CommitField::Subject => CommitField::Description,
                        CommitField::Description => CommitField::Subject,
                    };
                }
            },
            KeyCode::Left => {
                if !in_desc {
                    proof {
                        if k > 0 {
                            lemma_index_at(self.input@, k - 1);
                        }
                        assert(k == 0 ==> self.cursor == 0);
                        assert(k > 0 ==> self.cursor > 0);
                    }
                    self.cursor = prev_char_boundary(self.input.as_str(), self.cursor);
                }
            },
            KeyCode::Right => {
                if !in_desc {
                    proof {
                        if k < n {
                            lemma_index_at(self.input@, k + 1);
                        }
                    }
                    self.cursor = next_char_boundary(self.input.as_str(), self.cursor);
                }
            },
            KeyCode::Home => {
                if !in_desc {
                    proof {
                        lemma_index_at(self.input@, 0);
                    }
                    self.cursor = 0;
                }
            },
            KeyCode::End => {
                if !in_desc {
                    proof {
                        lemma_index_at(self.input@, n as int);
                    }
                    self.cursor = bytes_in(self.input.as_str());
                }
            },
            KeyCode::Delete => {
                if !in_desc && k < n {
                    let left = self.input.as_str().substring_char(0, k).to_owned();
                    let right = self.input.as_str().substring_char(k + 1, n).to_owned();
                    proof {
                        assert(left@ =~= self@.left());
                        assert(right@ =~= self@.right().drop_first());
                    }
                    self.put(left.as_str(), right.as_str());
                }
            },
            KeyCode::Backspace => {
                if in_desc {
                    let m = char_count(self.description.as_str());
                    if m > 0 {
                        let rest = self.description.as_str().substring_char(0, m - 1).to_owned();
                        proof {
                            assert(rest@ =~= self.description@.drop_last());
                        }
                        self.description = rest;
                    }
                } else if mods.alt || mods.control {
                    self.delete_word();
                } else if k > 0 {
                    let left = self.input.as_str().substring_char(0, k - 1).to_owned();
                    let right = self.input.as_str().substring_char(k, n).to_owned();
                    proof {
                        assert(left@ =~= self@.left().drop_last());
                        assert(right@ =~= self@.right());
                    }
                    self.put(left.as_str(), right.as_str());
                }
            },
            KeyCode::Enter => {
                if is_commit && in_desc {
                    self.description.push('\n');
                } else {
                    if matches!(self.kind, PromptKind::Branch | PromptKind::WorktreeBranch) {
                        if let Err(msg) = validate_branch_name(trim(self.input.as_str())) {
                            self.error = Some(msg);
                            return PromptNext::Stay;
                        }
                    }
                    return PromptNext::Submit;
                }
            },
            KeyCode::Char(c) => {
                if mods.control {
                    // Many terminals send Ctrl+Backspace as Ctrl+W or Ctrl+H.
                    if !in_desc && (c == 'w' || c == 'h') {
                        self.delete_word();
                    }
                } else if in_desc {
                    self.description.push(c);
                } else {
                    let mut left = self.input.as_str().substring_char(0, k).to_owned();
                    let right = self.input.as_str().substring_char(k, n).to_owned();
                    proof {
                        assert(left@ =~= self@.left());
                        assert(right@ =~= self@.right());
                    }
                    left.push(c);
                    self.put(left.as_str(), right.as_str());
                }
            },
            _ => {},
        }
        PromptNext::Stay
    }

    /// Takes in pasted text.
    pub fn paste(&mut self, text: &str)
        requires
            old(self).wf(),
        ensures
            final(self)@ == old(self)@.pasted(text@),
            final(self).wf(),
    {
        let k = self.index();
        let n = char_count(self.input.as_str());
        let is_commit = matches!(self.kind, PromptKind::Commit);
        let two_fields = is_commit || matches!(self.kind, PromptKind::WorktreeBranch);
        let in_desc = two_fields && matches!(self.commit_field, CommitField::Description);
        if is_commit && in_desc {
            proof {
                reveal_strlit("");
                assert(""@ =~= Seq::<char>::empty());
            }
            let flat = replace_char(text, '\r', "");
            self.description.append(flat.as_str());
        } else if in_desc {
            let line = first_line_of(text);
            self.description.append(line.as_str());
        } else {
            let line = first_line_of(text);
            let left = self.input.as_str().substring_char(0, k).to_owned();
            let right = self.input.as_str().substring_char(k, n).to_owned();
            proof {
                assert(left@ =~= self@.left());
                assert(right@ =~= self@.right());
            }
            let grown = cat2(left.as_str(), line.as_str());
            self.put(grown.as_str(), right.as_str());
        }
    }
}

/// Going back over a word ends between the start and where it began.
proof fn lemma_back_over(s: Seq<char>, k: int)
    requires
        0 <= k <= s.len(),
    ensures
        0 <= back_over_separators(s, k) <= k,
        0 <= back_over_word(s, k) <= k,
        0 <= back_over_word(s, back_over_separators(s, k)) <= k,
    decreases k,
{
    lemma_back_over_separators(s, k);
    lemma_back_over_word(s, k);
    lemma_back_over_word(s, back_over_separators(s, k));
}

/// Going back over separators ends between the start and where it began.
proof fn lemma_back_over_separators(s: Seq<char>, k: int)
    requires
        0 <= k <= s.len(),
    ensures
        0 <= back_over_separators(s, k) <= k,
    decreases k,
{
    if k > 0 && separator(s[k - 1]) {
        lemma_back_over_separators(s, k - 1);
    }
}

/// Going back over a word ends between the start and where it began.
proof fn lemma_back_over_word(s: Seq<char>, k: int)
    requires
        0 <= k <= s.len(),
    ensures
        0 <= back_over_word(s, k) <= k,
    decreases k,
{
    if k > 0 && !separator(s[k - 1]) {
        lemma_back_over_word(s, k - 1);
    }
}

/// Deleting what was just typed leaves the line as it was, and no error.
pub proof fn lemma_backspace_undoes_typing(
    p: PromptModel,
    c: char,
    typed: KeyModifiers,
    deleted: KeyModifiers,
)
    requires
        !p.in_second(),
        0 <= p.at <= p.input.len(),
        !typed.control,
        !deleted.control && !deleted.alt,
    ensures
        p.after_key(KeyCode::Char(c), typed).after_key(KeyCode::Backspace, deleted) == (
        PromptModel { error: None, ..p }),
{
    let q = p.after_key(KeyCode::Char(c), typed);
    assert(q.left() =~= p.left().push(c));
    assert(q.right() =~= p.right());
    assert(p.left().push(c).drop_last() =~= p.left());
    assert(p.left() + p.right() =~= p.input);
}

/// No piece holds the separator.
proof fn lemma_pieces_lack_separator(s: Seq<char>, sep: char)
    ensures
        forall|i: int, j: int|
            0 <= i < pieces(s, sep).len() && 0 <= j < pieces(s, sep)[i].len()
                ==> #[trigger] pieces(s, sep)[i][j] != sep,
    decreases s.len(),
{
    if s.len() > 0 {
        lemma_pieces_lack_separator(s.drop_last(), sep);
        lemma_pieces_some(s.drop_last(), sep);
    }
}

/// Replacing a character by nothing brings in nothing new.
proof fn lemma_removed_lacks(s: Seq<char>, from: char, c: char)
    requires
        forall|i: int| 0 <= i < s.len() ==> #[trigger] s[i] != c,
    ensures
        forall|i: int|
            0 <= i < replaced(s, from, Seq::empty()).len() ==> #[trigger] replaced(
                s,
                from,
                Seq::empty(),
            )[i] != c,
    decreases s.len(),
{
    if s.len() > 0 {
        let t = s.drop_last();
        assert forall|i: int| 0 <= i < t.len() implies #[trigger] t[i] != c by {
            assert(t[i] == s[i]);
        }
        lemma_removed_lacks(t, from, c);
        assert(s.last() == s[s.len() - 1]);
        let rest = replaced(t, from, Seq::empty());
        assert(rest + Seq::<char>::empty() =~= rest);
        assert forall|i: int| 0 <= i < rest.push(s.last()).len() implies #[trigger] rest.push(
            s.last(),
        )[i] != c by {
            if i < rest.len() {
                assert(rest[i] != c);
            }
        }
    }
}

/// Pasting into a line of input puts one line at the cursor, and pasting into the path of a worktree
/// puts one at its end, and nothing else: no line break comes with it.
pub proof fn lemma_paste_adds_one_line(p: PromptModel, text: Seq<char>)
    requires
        !p.in_description(),
        0 <= p.at <= p.input.len(),
    ensures
        p.in_second() ==> p.pasted(text) == (PromptModel {
            description: p.description + first_line(text),
            ..p
        }),
        !p.in_second() ==> p.pasted(text).input == p.left() + first_line(text) + p.right(),
        !p.in_second() ==> p.pasted(text).at == p.at + first_line(text).len(),
        !p.in_second() ==> p.pasted(text).description == p.description,
        forall|i: int| 0 <= i < first_line(text).len() ==> #[trigger] first_line(text)[i] != '\n',
{
    if lines(text).len() > 0 {
        lemma_pieces_lack_separator(text, '\n');
        let line = lines(text)[0];
        assert forall|i: int| 0 <= i < line.len() implies #[trigger] line[i] != '\n' by {
            assert(line[i] == pieces(text, '\n')[0][i]);
        }
        lemma_removed_lacks(line, '\r', '\n');
    }
}

} // verus!
