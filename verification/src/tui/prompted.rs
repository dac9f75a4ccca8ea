//! What answers come to: submitted prompts, keys in the branches panel, and credentials.

use vstd::prelude::*;
use vstd::string::*;

use crate::chars::{
    begins_with, blank, finishes_with, halves, has_text, lemma_halves_at, pieces, trimmed,
    white_space,
};
use crate::git::command::CredentialsModel;
use crate::tui::app::{lemma_place, place, AppModel, EffectModel, Keep};
use crate::tui::dialog::{AuthModel, ConfirmActionModel, CredentialField, LocalModel};
use crate::tui::key::{KeyCode, KeyModifiers};
use crate::tui::keymap::{lemma_locals_start_on_each, locals};
use crate::tui::panel::{panel_commands_of, PanelKind};
use crate::tui::prompt::{PromptKind, PromptModel, PromptNext};
use crate::tui::repo::{FailKind, OpModel};
use crate::tui::text::{bad_char, bad_segment, branch_name_fault, short_ref};
use crate::tui::worktree::WorktreeOpModel;

verus! {

// ── Submitted prompts ────────────────────────────────────────────────────────

/// What a prompt that goes to several repositories asks of git, where `text` was entered.
pub open spec fn asked_for(kind: PromptKind, text: Seq<char>) -> LocalModel {
    match kind {
        PromptKind::Branch => LocalModel::CreateBranch(text),
        PromptKind::CheckoutBranch => LocalModel::Checkout(text),
        PromptKind::CheckoutRemoteBranch => LocalModel::CheckoutRemote(text),
        PromptKind::DeleteBranch => LocalModel::DeleteBranch(text),
        PromptKind::ForceDeleteBranch => LocalModel::ForceDeleteBranch(text),
        _ => LocalModel::DeleteRemoteBranch(text),
    }
}

/// Fanning out starts the operation on each.
proof fn lemma_fanned_out(app: AppModel, paths: Seq<Seq<char>>, action: LocalModel)
    ensures
        app.fanned_out(paths, action).outbox == app.outbox + locals(paths, action),
{
    lemma_locals_start_on_each(app, paths, action);
    if paths.len() == 0 {
        assert(app.outbox + locals(paths, action) =~= app.outbox);
    }
}

/// A branch that was entered is made, checked out or deleted in everything that is selected, or else
/// in what is under the cursor: as the prompt says, and under the name that was entered.
pub proof fn lemma_entered_branch_goes_to_targets(app: AppModel, p: PromptModel)
    requires
        trimmed(p.input).len() > 0,
        p.kind == PromptKind::Branch || p.kind == PromptKind::CheckoutBranch || p.kind
            == PromptKind::CheckoutRemoteBranch || p.kind == PromptKind::DeleteBranch || p.kind
            == PromptKind::ForceDeleteBranch || p.kind == PromptKind::DeleteRemoteBranch,
    ensures
        app.submitted(p).outbox == app.outbox + locals(
            app.targets(Keep::All),
            asked_for(p.kind, trimmed(p.input)),
        ),
{
    lemma_fanned_out(app, app.targets(Keep::All), asked_for(p.kind, trimmed(p.input)));
}

/// A commit goes to the targets with changes, under its summary alone, or under the summary, a blank
/// line and the description.
pub proof fn lemma_entered_commit_goes_to_changed(app: AppModel, p: PromptModel)
    requires
        p.kind == PromptKind::Commit,
        trimmed(p.input).len() > 0,
    ensures
        blank(p.description) ==> app.submitted(p).outbox == app.outbox + locals(
            app.targets(Keep::Dirty),
            LocalModel::Commit(trimmed(p.input)),
        ),
        !blank(p.description) ==> app.submitted(p).outbox == app.outbox + locals(
            app.targets(Keep::Dirty),
            LocalModel::Commit(trimmed(p.input) + "\n\n"@ + trimmed(p.description)),
        ),
{
    lemma_fanned_out(app, app.targets(Keep::Dirty), LocalModel::Commit(trimmed(p.input)));
    lemma_fanned_out(
        app,
        app.targets(Keep::Dirty),
        LocalModel::Commit(trimmed(p.input) + "\n\n"@ + trimmed(p.description)),
    );
}

/// A stash goes to the targets with changes, under its message where one was entered.
pub proof fn lemma_entered_stash_goes_to_changed(app: AppModel, p: PromptModel)
    requires
        p.kind == PromptKind::Stash,
    ensures
        blank(p.input) ==> app.submitted(p).outbox == app.outbox + locals(
            app.targets(Keep::Dirty),
            LocalModel::StashPush(None),
        ),
        !blank(p.input) ==> app.submitted(p).outbox == app.outbox + locals(
            app.targets(Keep::Dirty),
            LocalModel::StashPush(Some(trimmed(p.input))),
        ),
{
    lemma_fanned_out(app, app.targets(Keep::Dirty), LocalModel::StashPush(None));
    lemma_fanned_out(app, app.targets(Keep::Dirty), LocalModel::StashPush(Some(trimmed(p.input))));
}

/// A prompt that was submitted empty does nothing, but for a stash.
pub proof fn lemma_empty_answer_does_nothing(app: AppModel, p: PromptModel)
    requires
        blank(p.input),
        p.kind != PromptKind::Stash,
    ensures
        app.submitted(p).outbox == app.outbox,
        app.submitted(p).repos == app.repos,
{
}

/// A worktree goes to the path that was entered, on the branch that was entered, beside what is
/// under the cursor.
pub proof fn lemma_entered_worktree_is_added(
    app: AppModel,
    p: PromptModel,
    selected: Seq<char>,
    repo_path: Seq<char>,
)
    requires
        p.kind == PromptKind::WorktreeBranch,
        !blank(p.input),
        app.current_path() == Some(selected),
        app.current_repo_path() == Some(repo_path),
    ensures
        !blank(p.description) ==> app.submitted(p).outbox == app.outbox.push(
            EffectModel::Worktree {
                selected,
                repo_path,
                op: WorktreeOpModel::Add { dest: p.description, branch: trimmed(p.input) },
            },
        ),
        blank(p.description) ==> app.submitted(p).outbox == app.outbox,
{
}

/// An upstream that was entered as remote and branch is set everywhere as it was entered.
pub proof fn lemma_entered_upstream_is_set(
    app: AppModel,
    p: PromptModel,
    remote: Seq<char>,
    branch: Seq<char>,
)
    requires
        p.kind == PromptKind::SetUpstream,
        trimmed(p.input) == remote + "/"@ + branch,
        !remote.contains('/'),
    ensures
        app.submitted(p).outbox == app.outbox + locals(
            app.targets(Keep::All),
            LocalModel::SetUpstream { remote, branch },
        ),
{
    reveal_strlit("/");
    let name = trimmed(p.input);
    let n = remote.len() as int;
    assert(name[n] == '/');
    assert forall|j: int| 0 <= j < n implies name[j] != '/' by {
        assert(name[j] == remote[j]);
        assert(remote.contains(remote[j]));
    }
    lemma_halves_at(name, '/', n);
    assert(name.take(n) =~= remote);
    assert(name.skip(n + 1) =~= branch);
    lemma_fixed_upstreams(app, app.targets(Keep::All), remote, branch);
}

/// One upstream for all starts setting it in each.
proof fn lemma_fixed_upstreams(
    app: AppModel,
    paths: Seq<Seq<char>>,
    remote: Seq<char>,
    branch: Seq<char>,
)
    ensures
        app.with_upstreams(paths, remote, Some(branch)).outbox == app.outbox + locals(
            paths,
            LocalModel::SetUpstream { remote, branch },
        ),
    decreases paths.len(),
{
    let action = LocalModel::SetUpstream { remote, branch };
    if paths.len() == 0 {
        assert(app.outbox + locals(paths, action) =~= app.outbox);
    } else {
        lemma_fixed_upstreams(app, paths.drop_last(), remote, branch);
        assert(locals(paths, action) =~= locals(paths.drop_last(), action).push(
            EffectModel::Local { path: paths.last(), action },
        ));
    }
}

/// A remote that was entered without a branch becomes the upstream of what is under the cursor under
/// the name of the branch that it is on.
pub proof fn lemma_entered_remote_pairs_with_own_branch(app: AppModel, p: PromptModel, i: int)
    requires
        p.kind == PromptKind::SetUpstream,
        !blank(p.input),
        halves(trimmed(p.input), '/') is None,
        app.targets(Keep::All).len() == 1,
        place(app.repos, app.targets(Keep::All)[0]) == Some(i),
    ensures
        app.submitted(p).outbox == app.outbox.push(
            EffectModel::Local {
                path: app.targets(Keep::All)[0],
                action: LocalModel::SetUpstream {
                    remote: trimmed(p.input),
                    branch: app.repos[i].snapshot.branch.name,
                },
            },
        ),
{
    let paths = app.targets(Keep::All);
    assert(paths.drop_last() =~= Seq::<Seq<char>>::empty());
    assert(paths.last() == paths[0]);
    let s = app.with_upstreams(paths.drop_last(), trimmed(p.input), None);
    assert(s.outbox == app.outbox && s.repos == app.repos);
}

// ── Editing ──────────────────────────────────────────────────────────────────

/// A letter goes in at the cursor, and the cursor goes on behind it.
pub proof fn lemma_typing_inserts(p: PromptModel, c: char, mods: KeyModifiers)
    requires
        !p.in_second(),
        0 <= p.at <= p.input.len(),
        !mods.control,
    ensures
        ({
            let q = p.after_key(KeyCode::Char(c), mods);
            &&& q.input == p.input.insert(p.at, c)
            &&& q.at == p.at + 1
            &&& q.error is None
            &&& q.kind == p.kind && q.description == p.description
        }),
{
    assert(p.input.take(p.at).push(c) + p.input.skip(p.at) =~= p.input.insert(p.at, c));
}

/// The cursor goes left and right by one character, and to either end; the text stays.
pub proof fn lemma_cursor_keys_keep_text(p: PromptModel, code: KeyCode, mods: KeyModifiers)
    requires
        !p.in_second(),
        0 <= p.at <= p.input.len(),
        code == KeyCode::Left || code == KeyCode::Right || code == KeyCode::Home || code
            == KeyCode::End,
    ensures
        ({
            let q = p.after_key(code, mods);
            &&& q == (PromptModel { at: q.at, ..p })
            &&& code == KeyCode::Left ==> q.at == (if p.at == 0 {
                0
            } else {
                p.at - 1
            })
            &&& code == KeyCode::Right ==> q.at == (if p.at == p.input.len() {
                p.at
            } else {
                p.at + 1
            })
            &&& code == KeyCode::Home ==> q.at == 0
            &&& code == KeyCode::End ==> q.at == p.input.len()
        }),
{
}

/// Backspace takes away the character before the cursor, and Delete the one behind it.
pub proof fn lemma_deleting_takes_one_away(p: PromptModel, mods: KeyModifiers)
    requires
        !p.in_second(),
        0 <= p.at <= p.input.len(),
        !mods.control && !mods.alt,
    ensures
        p.at > 0 ==> p.after_key(KeyCode::Backspace, mods).input == p.input.remove(p.at - 1)
            && p.after_key(KeyCode::Backspace, mods).at == p.at - 1,
        p.at == 0 ==> p.after_key(KeyCode::Backspace, mods) == p,
        p.at < p.input.len() ==> p.after_key(KeyCode::Delete, mods).input == p.input.remove(p.at)
            && p.after_key(KeyCode::Delete, mods).at == p.at,
        p.at == p.input.len() ==> p.after_key(KeyCode::Delete, mods) == p,
{
    if p.at > 0 {
        assert(p.input.take(p.at).drop_last() + p.input.skip(p.at) =~= p.input.remove(p.at - 1));
    }
    if p.at < p.input.len() {
        assert(p.input.take(p.at) + p.input.skip(p.at).drop_first() =~= p.input.remove(p.at));
    }
}

/// Esc closes a prompt, and Enter submits it; but the name of a new branch must be valid first, and
/// in the description of a commit Enter starts a new line.
pub proof fn lemma_enter_and_esc(p: PromptModel, mods: KeyModifiers)
    ensures
        p.next(KeyCode::Esc) == PromptNext::Close,
        p.kind == PromptKind::Commit && p.in_second() ==> p.next(KeyCode::Enter)
            == PromptNext::Stay && p.after_key(KeyCode::Enter, mods).description
            == p.description.push('\n'),
        !(p.kind == PromptKind::Commit && p.in_second()) && (p.kind == PromptKind::Branch || p.kind
            == PromptKind::WorktreeBranch) ==> (p.next(KeyCode::Enter) == PromptNext::Submit
            <==> branch_name_fault(trimmed(p.input)) is None),
        p.kind != PromptKind::Branch && p.kind != PromptKind::WorktreeBranch && !(p.kind
            == PromptKind::Commit && p.in_second()) ==> p.next(KeyCode::Enter)
            == PromptNext::Submit,
{
}

// ── Names of branches ────────────────────────────────────────────────────────

/// A name is refused where git would refuse it: empty, the single `@`, with a dash at its start,
/// with a slash at an end or two in a row, with a dot at its end or two in a row, with `@{`, with
/// white space, a control character or one of `~^:?*[\`.
pub proof fn lemma_bad_names_are_refused(name: Seq<char>)
    ensures
        name.len() == 0 ==> branch_name_fault(name) is Some,
        name == "@"@ ==> branch_name_fault(name) is Some,
        begins_with(name, "-"@) ==> branch_name_fault(name) is Some,
        begins_with(name, "/"@) ==> branch_name_fault(name) is Some,
        finishes_with(name, "/"@) ==> branch_name_fault(name) is Some,
        has_text(name, "//"@) ==> branch_name_fault(name) is Some,
        finishes_with(name, "."@) ==> branch_name_fault(name) is Some,
        has_text(name, ".."@) ==> branch_name_fault(name) is Some,
        has_text(name, "@{"@) ==> branch_name_fault(name) is Some,
        forall|i: int|
            0 <= i < name.len() && (white_space(#[trigger] name[i]) || name[i] == '~' || name[i]
                == '^' || name[i] == ':' || name[i] == '?' || name[i] == '*' || name[i] == '['
                || name[i] == '\\' || name[i] < ' ' || '\u{7f}' <= name[i] <= '\u{9f}')
                ==> branch_name_fault(name) is Some,
        forall|i: int|
            0 <= i < pieces(name, '/').len() && (begins_with(#[trigger] pieces(name, '/')[i], "."@)
                || finishes_with(pieces(name, '/')[i], ".lock"@)) ==> branch_name_fault(name)
                is Some,
{
    assert forall|i: int|
        0 <= i < name.len() && (white_space(#[trigger] name[i]) || name[i] == '~' || name[i] == '^'
            || name[i] == ':' || name[i] == '?' || name[i] == '*' || name[i] == '[' || name[i]
            == '\\' || name[i] < ' ' || '\u{7f}' <= name[i] <= '\u{9f}') implies branch_name_fault(
        name,
    ) is Some by {
        assert(bad_char(name[i]));
    }
    assert forall|i: int|
        0 <= i < pieces(name, '/').len() && (begins_with(#[trigger] pieces(name, '/')[i], "."@)
            || finishes_with(pieces(name, '/')[i], ".lock"@)) implies branch_name_fault(name)
        is Some by {
        assert(bad_segment(pieces(name, '/')[i]));
    }
}

/// A name of letters, digits, dashes and underscores that does not start with a dash is accepted.
pub proof fn lemma_plain_names_are_accepted(name: Seq<char>)
    requires
        name.len() > 0,
        name[0] != '-',
        forall|i: int|
            0 <= i < name.len() ==> {
                let c = #[trigger] name[i];
                'a' <= c <= 'z' || 'A' <= c <= 'Z' || '0' <= c <= '9' || c == '-' || c == '_'
            },
    ensures
        branch_name_fault(name) is None,
{
    reveal_strlit("@");
    reveal_strlit("-");
    reveal_strlit("/");
    reveal_strlit("//");
    reveal_strlit(".");
    reveal_strlit("..");
    reveal_strlit("@{");
    reveal_strlit(".lock");
    lemma_starts_with_none(name, "-"@);
    lemma_starts_with_none(name, "/"@);
    lemma_holds_none(name, "/"@);
    lemma_holds_none(name, "//"@);
    lemma_holds_none(name, "."@);
    lemma_holds_none(name, ".."@);
    lemma_holds_none(name, "@{"@);
    lemma_one_piece(name);
    assert(pieces(name, '/') =~= seq![name]);
    lemma_starts_with_none(name, "."@);
    lemma_holds_none(name, ".lock"@);
    assert forall|i: int| 0 <= i < pieces(name, '/').len() implies !(#[trigger] bad_segment(
        pieces(name, '/')[i],
    )) by {
        assert(pieces(name, '/')[i] == name);
    }
}

/// A text does not start with one whose first character it does not start with.
proof fn lemma_starts_with_none(s: Seq<char>, pat: Seq<char>)
    requires
        s.len() > 0,
        pat.len() > 0,
        s[0] != pat[0],
    ensures
        !begins_with(s, pat),
{
    if begins_with(s, pat) {
        assert(s.subrange(0, pat.len() as int)[0] == pat[0]);
    }
}

/// A text does not hold one whose first character it does not hold.
proof fn lemma_holds_none(s: Seq<char>, pat: Seq<char>)
    requires
        pat.len() > 0,
        forall|i: int| 0 <= i < s.len() ==> #[trigger] s[i] != pat[0],
    ensures
        !has_text(s, pat),
        !finishes_with(s, pat),
{
    if has_text(s, pat) {
        let i = choose|i: int| crate::chars::stands_at(s, pat, i);
        assert(s.subrange(i, i + pat.len())[0] == s[i]);
    }
    if finishes_with(s, pat) {
        let i = s.len() - pat.len();
        assert(s.subrange(i, i + pat.len())[0] == s[i]);
    }
}

/// A text without a slash is one piece.
proof fn lemma_one_piece(s: Seq<char>)
    requires
        forall|i: int| 0 <= i < s.len() ==> #[trigger] s[i] != '/',
    ensures
        pieces(s, '/') == seq![s],
    decreases s.len(),
{
    if s.len() > 0 {
        let t = s.drop_last();
        assert forall|i: int| 0 <= i < t.len() implies #[trigger] t[i] != '/' by {
            assert(t[i] == s[i]);
        }
        lemma_one_piece(t);
        assert(s[s.len() - 1] != '/');
        assert(t.push(s.last()) =~= s);
        assert(seq![t].drop_last().push(s) =~= seq![s]);
    } else {
        assert(s =~= Seq::<char>::empty());
    }
}

// ── The branches panel ───────────────────────────────────────────────────────

/// The branch of a remote is checked out so that a local one follows it, and a local branch as it
/// is: in all selected repositories at once, or in one after a prompt.
pub proof fn lemma_branch_is_checked_out(app: AppModel, name: Seq<char>)
    ensures
        app.queued_count() > 1 ==> {
            &&& short_ref(name) matches Some(short) ==> app.checking_out(name).outbox == app.outbox
                + locals(app.targets(Keep::All), LocalModel::CheckoutRemote(short))
            &&& short_ref(name) is None ==> app.checking_out(name).outbox == app.outbox + locals(
                app.targets(Keep::All),
                LocalModel::Checkout(name),
            )
        },
        app.queued_count() <= 1 ==> {
            &&& app.checking_out(name).outbox == app.outbox
            &&& short_ref(name) matches Some(short) ==> (app.checking_out(name).prompt matches Some(
                p,
            ) && p.kind == PromptKind::CheckoutRemoteBranch && p.input == short)
            &&& short_ref(name) is None ==> (app.checking_out(name).prompt matches Some(p)
                && p.kind == PromptKind::CheckoutBranch && p.input == name)
        },
{
    let paths = app.targets(Keep::All);
    lemma_locals_start_on_each(app, paths, LocalModel::Checkout(name));
    match short_ref(name) {
        Some(short) => {
            lemma_locals_start_on_each(app, paths, LocalModel::CheckoutRemote(short));
        },
        None => {},
    }
}

/// Deleting a branch starts nothing: several repositories are named in a dialog, and one takes a
/// prompt. What is deleted is the branch of a remote, or a local branch, by force or not.
pub proof fn lemma_branch_deletion_asks_first(app: AppModel, name: Seq<char>, force: bool)
    requires
        app.confirm_prompt is None,
    ensures
        app.deleting(name, force).outbox == app.outbox,
        app.deleting(name, force).repos == app.repos,
        app.queued_count() > 1 ==> (app.deleting(name, force).confirm_prompt matches Some(d) && {
            let paths = app.targets(Keep::All);
            &&& short_ref(name) matches Some(short) ==> d.action == (
            ConfirmActionModel::DeleteRemoteBranch { name: short, paths })
            &&& short_ref(name) is None && force ==> d.action == (
            ConfirmActionModel::ForceDeleteBranch { name, paths })
            &&& short_ref(name) is None && !force ==> d.action == (
            ConfirmActionModel::DeleteBranch { name, paths })
        }),
        app.queued_count() <= 1 ==> (app.deleting(name, force).prompt matches Some(p) && {
            &&& short_ref(name) matches Some(short) ==> p.kind == PromptKind::DeleteRemoteBranch
                && p.input == short
            &&& short_ref(name) is None && force ==> p.kind == PromptKind::ForceDeleteBranch
                && p.input == name
            &&& short_ref(name) is None && !force ==> p.kind == PromptKind::DeleteBranch && p.input
                == name
        }),
{
}

/// A branch is one of a remote exactly when its name starts with `remotes/`, and goes by the rest.
pub proof fn lemma_remote_branches_are_told(rest: Seq<char>, name: Seq<char>)
    ensures
        short_ref("remotes/"@ + rest) == Some(rest),
        short_ref(name) is Some <==> "remotes/"@.is_prefix_of(name),
{
    let whole = "remotes/"@ + rest;
    let n = "remotes/"@.len() as int;
    assert(whole.subrange(0, n) =~= "remotes/"@);
    assert(whole.skip(n) =~= rest);
}

/// What each panel asks of git: the branches, the last commits, or the state; in one repository, or
/// the branches in each of several. Nothing is asked that writes.
pub proof fn lemma_panels_ask(current: Seq<char>, targets: Seq<Seq<char>>, k: int)
    ensures
        panel_commands_of(PanelKind::Commits, current, targets).len() == 1,
        panel_commands_of(PanelKind::Status, current, targets).len() == 1,
        ({
            let c = panel_commands_of(PanelKind::Commits, current, targets)[0];
            &&& c.dir == current && !c.take_optional_locks
            &&& c.args == seq![
                "log"@,
                "--decorate"@,
                "--graph"@,
                "--oneline"@,
                "--max-count"@,
                "20"@,
            ]
        }),
        ({
            let c = panel_commands_of(PanelKind::Status, current, targets)[0];
            &&& c.dir == current && !c.take_optional_locks
            &&& c.args == seq!["status"@, "--short"@, "--branch"@]
        }),
        ({
            let cs = panel_commands_of(PanelKind::Branches, current, targets);
            &&& targets.len() > 1 ==> cs.len() == targets.len()
            &&& targets.len() <= 1 ==> cs.len() == 1 && cs[0].dir == current
            &&& targets.len() > 1 && 0 <= k < targets.len() ==> cs[k].dir == targets[k]
            &&& 0 <= k < cs.len() ==> !cs[k].take_optional_locks && cs[k].args == seq![
                "branch"@,
                "--all"@,
                "--verbose"@,
                "--verbose"@,
                "--no-abbrev"@,
            ]
        }),
{
}

// ── Credentials ──────────────────────────────────────────────────────────────

/// A user name and then a password carry the action out again with them, in the repository that
/// asked: the name without white space around it, and the password as it was typed.
pub proof fn lemma_credentials_carry_on(app: AppModel, p: AuthModel)
    requires
        app.auth_prompt == Some(p),
    ensures
        p.field == CredentialField::Username ==> {
            let after = app.after_auth_key(KeyCode::Enter);
            &&& after.outbox == app.outbox
            &&& after.auth_prompt matches Some(q) && q.field == CredentialField::Password
                && q.username == trimmed(p.input) && q.input.len() == 0 && q.repo_path
                == p.repo_path && q.action == p.action
        },
        p.field == CredentialField::Password ==> {
            let after = app.after_auth_key(KeyCode::Enter);
            &&& after.outbox.len() == app.outbox.len() + 1
            &&& after.outbox.last() matches EffectModel::Remote {
                path,
                action,
                credentials,
                stash,
            } && path == p.repo_path && action == p.action && credentials == Some(
                CredentialsModel { username: trimmed(p.username), password: p.input },
            )
            &&& app.auth_queue.len() == 0 ==> after.auth_prompt is None
            &&& app.auth_queue.len() > 0 ==> after.auth_prompt == Some(app.auth_queue[0])
        },
{
}

/// Giving up on the credentials starts nothing, and marks the repository as failed.
pub proof fn lemma_cancelled_credentials_fail(app: AppModel, p: AuthModel, i: int)
    requires
        app.auth_prompt == Some(p),
        place(app.repos, p.repo_path) == Some(i),
    ensures
        ({
            let after = app.after_auth_key(KeyCode::Esc);
            &&& after.outbox == app.outbox
            &&& after.repos[i].state matches OpModel::Fail { message, kind } && message
                == "credentials cancelled"@ && kind == FailKind::Generic
            &&& app.auth_queue.len() == 0 ==> after.auth_prompt is None
        }),
{
    lemma_place(app.repos, p.repo_path);
}

/// What is typed goes to the end of the field, and Backspace takes it away again.
pub proof fn lemma_credentials_are_typed(p: AuthModel, c: char)
    ensures
        p.after_key(KeyCode::Char(c)).input == p.input.push(c),
        p.after_key(KeyCode::Char(c)).after_key(KeyCode::Backspace) == p,
        p.after_key(KeyCode::Char(c)).field == p.field,
{
    assert(p.input.push(c).drop_last() =~= p.input);
}

} // verus!
