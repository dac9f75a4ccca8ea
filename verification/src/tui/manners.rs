//! What keys do in panels and in the help, what time brings about, and what the user reads.

use vstd::prelude::*;
use vstd::string::*;

use crate::chars::trimmed;
use crate::git::command::{asks_credentials, pattern_found, prompt_patterns};
use crate::git::runner::RemoteAction;
use crate::mode::Mode;
use crate::numbers::{decimal, lemma_decimal_reads_back, parsed, signed_decimal};
use crate::paths::{child, component_before, components, components_before, path_before};
use crate::scanning::{lemma_child_is_in_directory, plain_name};
use crate::tui::app::{
    all_paths, count_where, place, AppModel, ColWidths, EffectModel, Keep, SortMode,
};
use crate::tui::cells::truncated;
use crate::tui::dialog::{
    action_name, AuthModel, ConfirmActionModel, ConfirmModel, CredentialField,
};
use crate::tui::key::{KeyCode, KeyModifiers};
use crate::tui::keymap::one_state;
use crate::tui::keys::{drop_dialog, panel_moved, reset_dialog};
use crate::tui::looks::lemma_back_to_start_of_word;
use crate::tui::ops::{auto_queued, mode_notice, queued, user_queued, working};
use crate::tui::panel::{PanelKind, PanelModel};
use crate::tui::popup::{confirm_text, shown_username};
use crate::tui::prompt::{PromptKind, PromptModel};
use crate::tui::repo::{FailKind, OpModel, QueueOrigin, RepoModel};
use crate::tui::row::spinner_at;
use crate::tui::table::{lengths, maximum, message_width, rows_that_fit, widest, without_first};
use crate::tui::text::{back_over_separators, back_over_word, branch_name, short_ref};
use crate::tui::worktree::WtRowModel;

verus! {

// ── Keys in panels ───────────────────────────────────────────────────────────

/// The branch that a panel acts on is that of the line under its cursor.
pub proof fn lemma_panel_acts_on_line_under_cursor(app: AppModel, p: PanelModel)
    requires
        app.panel == Some(p),
        p.navigable(),
        p.cursor < p.lines.len(),
    ensures
        app.selected_branch() == branch_name(trimmed(p.lines[p.cursor as int])),
{
}

/// In the branches panel `c` and the space bar check the branch out, `d` deletes it and `D` deletes it
/// by force; the panel closes.
pub proof fn lemma_keys_act_on_branch(app: AppModel, p: PanelModel, name: Seq<char>)
    requires
        p.kind == PanelKind::Branches,
        app.selected_branch() == Some(name),
    ensures
        ({
            let closed = AppModel { panel: None, ..app };
            &&& one_state(
                app.after_panel_key(p, KeyCode::Char('c')),
                closed.checking_out(name),
            )
            &&& one_state(
                app.after_panel_key(p, KeyCode::Char(' ')),
                closed.checking_out(name),
            )
            &&& one_state(
                app.after_panel_key(p, KeyCode::Char('d')),
                closed.deleting(name, false),
            )
            &&& one_state(
                app.after_panel_key(p, KeyCode::Char('D')),
                closed.deleting(name, true),
            )
        }),
{
}

/// `q` closes a panel, and `n` asks for a new branch in that of the branches; nothing is started.
pub proof fn lemma_panels_close(app: AppModel, p: PanelModel)
    ensures
        app.after_panel_key(p, KeyCode::Char('q')).panel is None,
        app.after_panel_key(p, KeyCode::Char('q')).outbox == app.outbox,
        p.kind == PanelKind::Branches ==> app.after_panel_key(p, KeyCode::Char('n')).panel is None,
        p.kind == PanelKind::Branches ==> (app.after_panel_key(
            p,
            KeyCode::Char('n'),
        ).prompt matches Some(q) && q.kind == PromptKind::Branch && q.input.len() == 0),
        p.kind == PanelKind::Branches ==> app.after_panel_key(p, KeyCode::Char('n')).outbox
            == app.outbox,
{
}

/// Only the branches panel acts on anything.
pub proof fn lemma_other_panels_only_show(app: AppModel, p: PanelModel, c: char)
    requires
        p.kind != PanelKind::Branches,
        c != 'q',
    ensures
        app.after_panel_key(p, KeyCode::Char(c)).outbox == app.outbox,
        app.after_panel_key(p, KeyCode::Char(c)).prompt == app.prompt,
        app.after_panel_key(p, KeyCode::Char(c)).confirm_prompt == app.confirm_prompt,
        app.after_panel_key(p, KeyCode::Char(c)).repos == app.repos,
{
}

/// The cursor of a panel goes down and up by a line with `j` and `k` or the arrows, by ten with the
/// page keys, and to the first and the last with `g` and `G`; it never leaves the lines.
pub proof fn lemma_panel_cursor_moves(p: PanelModel, viewport: usize)
    requires
        p.navigable(),
        p.lines.len() > 0,
        p.lines.len() < usize::MAX,
        p.cursor < p.lines.len(),
    ensures
        ({
            let n = p.lines.len();
            let down = panel_moved(p, KeyCode::Char('j'), viewport);
            let up = panel_moved(p, KeyCode::Char('k'), viewport);
            &&& down.cursor == (if p.cursor + 1 < n {
                p.cursor + 1
            } else {
                n - 1
            })
            &&& up.cursor == (if p.cursor > 0 {
                p.cursor - 1
            } else {
                0
            })
            &&& panel_moved(p, KeyCode::Down, viewport).cursor == down.cursor
            &&& panel_moved(p, KeyCode::Up, viewport).cursor == up.cursor
            &&& panel_moved(p, KeyCode::PageDown, viewport).cursor == (if p.cursor + 10 < n {
                p.cursor + 10
            } else {
                n - 1
            })
            &&& panel_moved(p, KeyCode::PageUp, viewport).cursor == (if p.cursor > 10 {
                p.cursor - 10
            } else {
                0
            })
            &&& panel_moved(p, KeyCode::Char('g'), viewport).cursor == 0
            &&& panel_moved(p, KeyCode::Home, viewport).cursor == 0
            &&& panel_moved(p, KeyCode::Char('G'), viewport).cursor == n - 1
            &&& panel_moved(p, KeyCode::End, viewport).cursor == n - 1
        }),
{
}

/// A panel of text scrolls down and up by a line, as long as there is more of it.
pub proof fn lemma_panel_text_scrolls(p: PanelModel, viewport: usize)
    requires
        !p.navigable(),
        p.lines.len() <= usize::MAX,
    ensures
        p.scroll + viewport < p.lines.len() ==> panel_moved(
            p,
            KeyCode::Char('j'),
            viewport,
        ).scroll == p.scroll + 1,
        p.scroll >= 1 && p.scroll + viewport <= p.lines.len() ==> panel_moved(
            p,
            KeyCode::Char('k'),
            viewport,
        ).scroll == p.scroll - 1,
        panel_moved(p, KeyCode::Char('g'), viewport).scroll == 0,
        p.lines.len() > viewport ==> panel_moved(p, KeyCode::Char('G'), viewport).scroll
            == p.lines.len() - viewport,
{
}

/// The help closes with Esc, `?` and `q`, and scrolls down and up; nothing else changes.
pub proof fn lemma_help_keys(app: AppModel, code: KeyCode)
    ensures
        !app.after_help_key(KeyCode::Esc).show_help,
        !app.after_help_key(KeyCode::Char('?')).show_help,
        !app.after_help_key(KeyCode::Char('q')).show_help,
        app.help_scroll < usize::MAX ==> app.after_help_key(KeyCode::Char('j')).help_scroll
            == app.help_scroll + 1 && app.after_help_key(KeyCode::Down).help_scroll
            == app.help_scroll + 1,
        app.help_scroll > 0 ==> app.after_help_key(KeyCode::Char('k')).help_scroll
            == app.help_scroll - 1 && app.after_help_key(KeyCode::Up).help_scroll
            == app.help_scroll - 1,
        app.after_help_key(KeyCode::Home).help_scroll == 0,
        app.after_help_key(KeyCode::Char('g')).help_scroll == 0,
        app.after_help_key(code).outbox == app.outbox,
        app.after_help_key(code).repos == app.repos,
{
}

/// Left and Right scroll the messages by four characters.
pub proof fn lemma_messages_scroll(app: AppModel)
    ensures
        app.msg_scroll <= usize::MAX - 4 ==> app.after_main_key(KeyCode::Right).msg_scroll
            == app.msg_scroll + 4,
        app.msg_scroll >= 4 ==> app.after_main_key(KeyCode::Left).msg_scroll == app.msg_scroll - 4,
        app.msg_scroll < 4 ==> app.after_main_key(KeyCode::Left).msg_scroll == 0,
{
}

/// Ctrl+W takes away the word before the cursor, with the separators behind it, and nothing else.
pub proof fn lemma_word_before_cursor_goes(p: PromptModel, mods: KeyModifiers)
    requires
        !p.in_second(),
        0 <= p.at <= p.input.len(),
        mods.control,
    ensures
        ({
            let end = back_over_separators(p.input, p.at);
            let start = back_over_word(p.input, end);
            let q = p.after_key(KeyCode::Char('w'), mods);
            &&& q.input == p.input.take(start) + p.input.skip(p.at)
            &&& q.at == start
            &&& p.after_key(KeyCode::Backspace, mods) == q
        }),
{
    lemma_back_to_start_of_word(p.input, p.at);
}

/// Tab goes from one field to the other where there are two; what was entered stays.
pub proof fn lemma_tab_changes_field(p: PromptModel, mods: KeyModifiers)
    ensures
        ({
            let q = p.after_key(KeyCode::Tab, mods);
            let two = p.kind == PromptKind::Commit || p.kind == PromptKind::WorktreeBranch;
            &&& two ==> q.in_second() == !p.in_second()
            &&& !two ==> q == p
            &&& q.input == p.input && q.description == p.description && q.kind == p.kind
        }),
{
}

// ── Time ─────────────────────────────────────────────────────────────────────

/// The list is loaded anew half a minute after the last time, where nothing is under way and no
/// dialog is open; and not before.
pub proof fn lemma_list_is_loaded_anew(app: AppModel)
    requires
        !app.loading,
        !app.any_working(),
        app.auth_prompt is None,
        app.confirm_prompt is None,
    ensures
        app.now - app.last_refresh >= 30_000_000_000 ==> app.next_frame().outbox == app.outbox.push(
            EffectModel::Refresh(all_paths(app.repos)),
        ) && app.next_frame().last_refresh == app.now,
        app.now - app.last_refresh < 30_000_000_000 ==> app.next_frame().outbox == app.outbox
            && app.next_frame().last_refresh == app.last_refresh,
{
}

/// Every frame is a tick; a notice is shown for thirty-eight more and goes after that.
pub proof fn lemma_notice_passes(app: AppModel, message: Seq<char>, later: AppModel)
    requires
        app.tick <= u64::MAX - 100,
        later.notice == app.noticed(message).notice,
    ensures
        app.next_frame().tick == app.tick + 1,
        app.noticed(message).shown_notice() == Some(message),
        app.tick <= later.tick <= app.tick + 38 ==> later.shown_notice() == Some(message),
        later.tick > app.tick + 38 ==> later.shown_notice() is None,
        app.tick + 38 <= later.tick < u64::MAX ==> later.next_frame().notice is None,
        app.tick <= later.tick < app.tick + 38 ==> later.next_frame().notice == later.notice,
{
}

/// Something moves on the screen exactly while repositories are loaded, worked on or fetched, or a
/// notice is shown.
pub proof fn lemma_what_moves(app: AppModel, i: int)
    ensures
        app.loading ==> app.is_animating(),
        0 <= i < app.repos.len() && app.repos[i].state is Working ==> app.is_animating(),
        0 <= i < app.repos.len() && app.repos[i].fetching ==> app.is_animating(),
        app.shown_notice() is Some ==> app.is_animating(),
        !app.loading && app.shown_notice() is None && app.repos.len() == 0 ==> !app.is_animating(),
{
}

/// The spinner has eight pictures, each for two ticks, and comes round.
pub proof fn lemma_spinner_turns(n: u64)
    requires
        n < 1000,
    ensures
        spinner_at((16 * n) as u64) == "⠋"@,
        spinner_at((16 * n + 1) as u64) == "⠋"@,
        spinner_at((16 * n + 2) as u64) == "⠙"@,
        spinner_at((16 * n + 4) as u64) == "⠹"@,
        spinner_at((16 * n + 6) as u64) == "⠸"@,
        spinner_at((16 * n + 8) as u64) == "⠼"@,
        spinner_at((16 * n + 10) as u64) == "⠴"@,
        spinner_at((16 * n + 12) as u64) == "⠦"@,
        spinner_at((16 * n + 14) as u64) == "⠧"@,
        spinner_at((16 * n + 15) as u64) == "⠧"@,
{
}

/// After lazygit the list is loaded anew and everything drawn anew; where it could not be launched,
/// what is selected says so.
pub proof fn lemma_after_lazygit(app: AppModel, i: int)
    requires
        app.current_place() == Some(i),
        0 <= i < app.repos.len(),
    ensures
        app.after_lazygit(true).needs_full_redraw,
        app.after_lazygit(true).outbox.last() is Refresh,
        app.after_lazygit(true).outbox.len() == app.outbox.len() + 1,
        app.after_lazygit(true).repos == app.repos,
        app.after_lazygit(false).repos[i].state matches OpModel::Fail { message, kind } && kind
            == FailKind::Generic && message
            == "lazygit failed to launch (is it installed and on PATH?)"@,
        app.after_lazygit(false).outbox.last() is Refresh,
{
}

// ── What the user reads ──────────────────────────────────────────────────────

/// What an operation applies to is told by number, or as the repository under the cursor.
pub proof fn lemma_scope_is_told(app: AppModel, paths: Seq<Seq<char>>, i: int)
    ensures
        app.queued_count() == 0 ==> app.scope_label() == "current repo"@,
        app.queued_count() > 0 ==> app.scope_label() == decimal(app.queued_count()) + " selected"@,
        paths.len() != 1 ==> app.subject_of(paths) == decimal(paths.len()) + " repos"@,
        paths.len() == 1 && place(app.repos, paths[0]) == Some(i) ==> app.subject_of(paths)
            == app.repos[i].snapshot.name,
{
}

/// A change of mode is told, with how many selections it cleared and how many have nothing to do.
pub proof fn lemma_mode_change_is_told(mode: Mode, cleared: nat, idle: nat, selected: nat)
    requires
        cleared > 0,
        idle > 0,
    ensures
        mode_notice(mode, 0, 0, selected) == "Mode: "@ + mode.name(),
        mode_notice(mode, cleared, 0, selected) == "Mode: "@ + mode.name() + (" · cleared "@
            + decimal(cleared) + " auto-selected"@),
        mode_notice(mode, 0, idle, selected) == "Mode: "@ + mode.name() + (" · "@ + decimal(idle)
            + " of "@ + decimal(selected) + " selected have nothing to "@ + mode.name()),
{
    let m = "Mode: "@ + mode.name();
    let none = Seq::<char>::empty();
    assert(m + none =~= m);
    let told = m + (" · cleared "@ + decimal(cleared) + " auto-selected"@);
    assert(told + none =~= told);
}

/// Another mode drops what the startup check selected, and keeps what the user did.
pub proof fn lemma_mode_change_keeps_own_selection(app: AppModel, mode: Mode, i: int)
    requires
        app.mode != mode,
        0 <= i < app.repos.len(),
    ensures
        app.in_mode(mode).mode == mode,
        app.repos[i].state == OpModel::Queued(QueueOrigin::Auto) ==> app.in_mode(
            mode,
        ).repos[i].state is Idle,
        app.repos[i].state != OpModel::Queued(QueueOrigin::Auto) ==> app.in_mode(mode).repos[i]
            == app.repos[i],
        app.in_mode(app.mode) == app,
        app.in_mode(mode).outbox == app.outbox,
{
}

/// What dialogs ask and warn of: a reset, a dropped stash, and a mode on several repositories.
pub proof fn lemma_dialogs_say(subject: Seq<char>, paths: Seq<Seq<char>>)
    ensures
        ({
            let d = reset_dialog(subject, paths);
            &&& d.title == "Reset to Upstream?"@
            &&& d.warning
                == "Mixed keeps your changes; hard DISCARDS all local changes and commits."@
            &&& d.subject == subject
            &&& d.action == (ConfirmActionModel::ResetToUpstream { paths })
        }),
        ({
            let d = drop_dialog(subject, paths);
            &&& d.title == "Drop Stash?"@
            &&& d.warning == "Discards the newest stash entry — cannot be undone."@
            &&& d.subject == subject
            &&& d.action == (ConfirmActionModel::StashDrop { paths })
        }),
        ({
            let d = AppModel::mode_dialog(Mode::Push, paths);
            &&& d.title == "Push?"@
            &&& d.subject == "Push to "@ + decimal(paths.len()) + " remotes"@
            &&& d.warning == "Pushes local commits to every remote below."@
            &&& d.action == (ConfirmActionModel::RunMode { mode: Mode::Push, paths })
        }),
{
}

/// What the dialogs that delete a branch in several repositories ask, name and warn of.
pub proof fn lemma_deletion_dialogs_say(app: AppModel, name: Seq<char>, rest: Seq<char>)
    requires
        app.queued_count() > 1,
        app.confirm_prompt is None,
        short_ref(name) is None,
        short_ref("remotes/"@ + rest) == Some(rest),
    ensures
        ({
            let many = "' in "@ + decimal(app.targets(Keep::All).len()) + " repos"@;
            &&& app.deleting(name, false).confirm_prompt matches Some(d) && d.title
                == "Delete Branch?"@ && d.warning == "Unmerged commits may be kept only in reflogs."@
                && d.subject == "'"@ + name + many
            &&& app.deleting(name, true).confirm_prompt matches Some(d) && d.title
                == "Force Delete Branch?"@ && d.warning
                == "Unmerged commits on this branch will be lost."@ && d.subject == "'"@ + name
                + many
            &&& app.deleting("remotes/"@ + rest, true).confirm_prompt matches Some(d) && d.title
                == "Delete Remote Branch?"@ && d.warning
                == "Deletes the branch on the remote — affects everyone."@ && d.subject == "'"@
                + rest + many
        }),
{
    let n = decimal(app.targets(Keep::All).len());
    assert("'"@ + name + "' in "@ + n + " repos"@ =~= "'"@ + name + ("' in "@ + n + " repos"@));
    assert("'"@ + rest + "' in "@ + n + " repos"@ =~= "'"@ + rest + ("' in "@ + n + " repos"@));
}

/// Selections are told apart by who made them.
pub proof fn lemma_selections_are_told_apart(r: RepoModel)
    ensures
        queued()(r) <==> r.state is Queued,
        user_queued()(r) <==> r.state == OpModel::Queued(QueueOrigin::User),
        auto_queued()(r) <==> r.state == OpModel::Queued(QueueOrigin::Auto),
        working()(r) <==> r.state is Working,
{
}

/// Counting counts each repository that is meant, once.
pub proof fn lemma_counting_counts(
    repos: Seq<RepoModel>,
    r: RepoModel,
    pred: spec_fn(RepoModel) -> bool,
)
    ensures
        pred(r) ==> count_where(repos.push(r), pred) == count_where(repos, pred) + 1,
        !pred(r) ==> count_where(repos.push(r), pred) == count_where(repos, pred),
        count_where(Seq::empty(), pred) == 0,
{
    assert(repos.push(r).drop_last() =~= repos);
}

/// A dialog shows what it is about, what it warns of, and its keys; only a reset has the key for a
/// hard one.
pub proof fn lemma_confirm_dialog_shows(p: ConfirmModel)
    ensures
        confirm_text(p).len() == 5,
        confirm_text(p)[0].len() == 1 && confirm_text(p)[0][0].text == p.subject,
        confirm_text(p)[2].len() == 1 && confirm_text(p)[2][0].text == p.warning,
        confirm_text(p)[4][0].text == "y / Enter"@,
        p.action is ResetToUpstream ==> confirm_text(p)[4].len() == 6 && confirm_text(p)[4][2].text
            == "H"@ && confirm_text(p)[4][1].text == "  mixed reset    "@
            && confirm_text(p)[4][3].text == "  hard reset    "@,
        !(p.action is ResetToUpstream) ==> confirm_text(p)[4].len() == 4
            && confirm_text(p)[4][1].text == "  confirm    "@,
{
}

/// The user name is shown as it is typed, and as it was entered.
pub proof fn lemma_username_is_shown(p: AuthModel)
    ensures
        p.field == CredentialField::Username ==> shown_username(p) == p.input + "_"@,
        p.field == CredentialField::Password ==> shown_username(p) == p.username,
{
}

/// What the prompts are called and ask for.
pub proof fn lemma_prompts_are_called()
    ensures
        PromptKind::Commit.title_text() == "Commit"@,
        PromptKind::Branch.title_text() == "New Branch"@,
        PromptKind::Stash.title_text() == "Stash"@,
        PromptKind::CheckoutBranch.title_text() == "Checkout"@,
        PromptKind::CheckoutRemoteBranch.title_text() == "Checkout"@,
        PromptKind::DeleteBranch.title_text() == "Delete Branch"@,
        PromptKind::ForceDeleteBranch.title_text() == "Force Delete Branch"@,
        PromptKind::DeleteRemoteBranch.title_text() == "Delete Remote Branch"@,
        PromptKind::SetUpstream.title_text() == "Set Upstream"@,
        PromptKind::WorktreeBranch.title_text() == "New Branch"@,
        PromptKind::Commit.label_text() == "Summary"@,
        PromptKind::WorktreeBranch.label_text() == "New worktree branch"@,
        PromptKind::CheckoutBranch.label_text() == "Checkout branch"@,
        PromptKind::CheckoutRemoteBranch.label_text() == "Checkout remote branch"@,
        PromptKind::Branch.label_text() == "New branch name"@,
        PromptKind::Stash.label_text() == "Stash message (optional)"@,
        PromptKind::DeleteBranch.label_text() == "Delete branch (safe)"@,
        PromptKind::ForceDeleteBranch.label_text() == "Force delete branch"@,
        PromptKind::DeleteRemoteBranch.label_text() == "Delete remote branch"@,
        PromptKind::SetUpstream.label_text() == "Upstream (remote or remote/branch)"@,
{
}

/// What the actions are called.
pub proof fn lemma_actions_are_called()
    ensures
        action_name(RemoteAction::Fetch) == "fetch"@,
        action_name(RemoteAction::PullFfOnly) == "pull (ff-only)"@,
        action_name(RemoteAction::Merge) == "merge"@,
        action_name(RemoteAction::Rebase) == "rebase"@,
        action_name(RemoteAction::Push { force: false }) == "push"@,
        action_name(RemoteAction::Push { force: true }) == "force push"@,
{
}

/// The title bar counts the repositories, those selected and those worked on, and tells the order.
pub proof fn lemma_title_bar_counts(app: AppModel)
    ensures
        ({
            let t = app.title_right();
            let n = t.len() as int;
            &&& n >= 7
            &&& t[0].text == "repos:"@ + decimal(app.repos.len())
            &&& app.queued_count() > 0 ==> t[2].text == "selected:"@ + decimal(app.queued_count())
            &&& !app.worktree_mode && app.sort_mode == SortMode::Name ==> t[n - 3].text == ":name"@
            &&& !app.worktree_mode && app.sort_mode == SortMode::Modified ==> t[n - 3].text
                == ":time"@
            &&& app.worktree_mode ==> t[n - 3].text == "worktree"@
            &&& t[n - 1].text == " ?:help "@
        }),
{
}

/// A row shows the branch and the message of its repository, the message from where it is scrolled to,
/// and its age where there is room.
pub proof fn lemma_rows_show(app: AppModel, i: int, c: ColWidths, clock: int)
    requires
        0 <= i < app.repos.len(),
    ensures
        ({
            let row = app.repo_row(i, c, clock);
            let r = app.repos[i];
            &&& row.cells.len() == (if c.show_age {
                4int
            } else {
                3int
            })
            &&& row.cells[1].len() == 1 && row.cells[1][0].text == truncated(
                r.branch_display(),
                c.branch_col_w as nat,
            )
            &&& row.cells[2].len() == 1 && row.cells[2][0].text == truncated(
                without_first(r.row_message(), app.msg_scroll as nat),
                message_width(c),
            )
            &&& c.show_age ==> row.cells[3].len() == 1 && row.cells[3][0].text == r.age_text(clock)
            &&& row.style == r.row_look(i == app.cursor)
        }),
        app.msg_scroll == 0 ==> without_first(app.repos[i].row_message(), app.msg_scroll as nat)
            == app.repos[i].row_message(),
{
    let m = app.repos[i].row_message();
    assert(m.skip(0) =~= m);
    if m.len() == 0 {
        assert(m =~= Seq::<char>::empty());
    }
}

/// The columns are as wide as what they hold, within bounds: the longest name with the cursor and the
/// icon before it, and the longest branch; the age is shown where the table is wide enough.
pub proof fn lemma_columns_fit_contents(app: AppModel, area_width: u16, clock: int)
    ensures
        ({
            let c = app.col_widths_for(area_width, clock);
            let name = widest(lengths(app.row_names()), 10);
            let label = widest(lengths(app.row_labels()), 6);
            &&& c.area_width == area_width
            &&& c.show_age <==> !app.worktree_mode && area_width >= 112
            &&& area_width >= 130 && 8 <= name <= 36 ==> c.repo_col_w == name + 4
            &&& area_width >= 130 && name > 36 ==> c.repo_col_w == 40
            &&& area_width >= 130 && name < 8 ==> c.repo_col_w == 12
            &&& area_width >= 130 && 6 <= label <= 28 ==> c.branch_col_w == label + 1
            &&& area_width >= 130 && label > 28 ==> c.branch_col_w == 29
        }),
{
}

/// The widest is one that is there, and none is wider.
pub proof fn lemma_widest_is_widest(ns: Seq<nat>, none: nat)
    ensures
        ns.len() == 0 ==> widest(ns, none) == none,
        ns.len() > 0 ==> ns.contains(widest(ns, none)),
        forall|i: int| 0 <= i < ns.len() ==> #[trigger] ns[i] <= widest(ns, none),
    decreases ns.len(),
{
    if ns.len() > 0 {
        let t = ns.drop_last();
        lemma_widest_is_widest(t, none);
        if ns.last() > maximum(t) || t.len() == 0 {
            assert(ns[ns.len() - 1] == ns.last());
            if t.len() == 0 {
                assert(maximum(t) == 0);
            }
        } else {
            let k = choose|k: int| 0 <= k < t.len() && t[k] == widest(t, none);
            assert(ns[k] == t[k]);
        }
        assert forall|i: int| 0 <= i < ns.len() implies #[trigger] ns[i] <= widest(ns, none) by {
            if i < t.len() {
                assert(ns[i] == t[i]);
            }
        }
    }
}

/// A table has room for its rows between its borders, and below the names of its columns where it is
/// ten lines high or more.
pub proof fn lemma_rows_that_fit(height: u16)
    ensures
        height >= 10 ==> rows_that_fit(height) == height - 3,
        2 <= height < 10 ==> rows_that_fit(height) == height - 2,
        height < 2 ==> rows_that_fit(height) == 0,
{
}

/// The line under the cursor of a panel stands out with an arrow, and any other shows as it is.
pub proof fn lemma_panel_lines_are_shown(p: PanelModel, i: int)
    requires
        0 <= i < p.lines.len(),
    ensures
        p.shown_line(i).len() == 1,
        p.navigable() && i == p.cursor ==> p.shown_line(i)[0].text == "▶ "@ + p.lines[i],
        !p.navigable() || i != p.cursor ==> p.shown_line(i)[0].text == p.lines[i],
{
}

/// The first column shows the cursor, the icon, the name and the number of stash entries.
pub proof fn lemma_first_column_shows(
    r: RepoModel,
    name: Seq<char>,
    selected: bool,
    tick: u64,
    width: u16,
)
    requires
        !r.fetching,
        r.fetch_error is None,
        r.snapshot.stash_count == 0,
        width >= 4,
    ensures
        r.first_cell(name, selected, tick, width).len() == 1,
        selected ==> r.first_cell(name, selected, tick, width)[0].text == "›"@ + " "@ + r.row_icon(
            tick,
        ) + " "@ + truncated(name, (width - 4) as nat),
        !selected ==> r.first_cell(name, selected, tick, width)[0].text == " "@ + " "@ + r.row_icon(
            tick,
        ) + " "@ + truncated(name, (width - 4) as nat),
{
    let shown = truncated(name, (width - 4) as nat);
    assert(shown + Seq::<char>::empty() =~= shown);
}

/// The worktrees that were listed are shown, with the cursor on one of them.
pub proof fn lemma_listed_worktrees_are_shown(app: AppModel, rows: Seq<WtRowModel>)
    requires
        rows.len() <= usize::MAX,
    ensures
        app.with_rows(rows).wt_rows == rows,
        app.wt_cursor < rows.len() ==> app.with_rows(rows).wt_cursor == app.wt_cursor,
        app.wt_cursor >= rows.len() && rows.len() > 0 ==> app.with_rows(rows).wt_cursor
            == rows.len() - 1,
        rows.len() == 0 ==> app.with_rows(rows).wt_cursor == 0,
{
}

// ── Questions, numbers and the order of paths ────────────────────────────────

/// Git asks for credentials where its output holds one of the seven questions, and not otherwise.
pub proof fn lemma_questions_are_recognized(text: Seq<char>)
    ensures
        asks_credentials(text) <==> {
            ||| pattern_found("Password:"@, text) == Some(true)
            ||| pattern_found(".+['’]s password:"@, text) == Some(true)
            ||| pattern_found("Password\\s*for\\s*'.+':"@, text) == Some(true)
            ||| pattern_found("Username\\s*for\\s*'.+':"@, text) == Some(true)
            ||| pattern_found("Enter\\s*passphrase\\s*for\\s*key\\s*'.+':"@, text) == Some(true)
            ||| pattern_found("Enter\\s*PIN\\s*for\\s*.+\\s*key\\s*.+:"@, text) == Some(true)
            ||| pattern_found(".*2FA Token.*"@, text) == Some(true)
        },
{
    let ps = prompt_patterns();
    assert(pattern_found(ps[0], text) == pattern_found("Password:"@, text));
    assert(pattern_found(ps[1], text) == pattern_found(".+['’]s password:"@, text));
    assert(pattern_found(ps[2], text) == pattern_found("Password\\s*for\\s*'.+':"@, text));
    assert(pattern_found(ps[3], text) == pattern_found("Username\\s*for\\s*'.+':"@, text));
    assert(pattern_found(ps[4], text) == pattern_found(
        "Enter\\s*passphrase\\s*for\\s*key\\s*'.+':"@,
        text,
    ));
    assert(pattern_found(ps[5], text) == pattern_found(
        "Enter\\s*PIN\\s*for\\s*.+\\s*key\\s*.+:"@,
        text,
    ));
    assert(pattern_found(ps[6], text) == pattern_found(".*2FA Token.*"@, text));
}

/// A number that was written is read back where it is not too large, with a plus sign or without;
/// what is empty or holds anything but digits is no number.
pub proof fn lemma_numbers_are_read(n: nat, max: nat, s: Seq<char>, i: int)
    ensures
        n <= max ==> parsed(decimal(n), max) == Some(n),
        n <= max ==> parsed(seq!['+'] + decimal(n), max) == Some(n),
        n > max ==> parsed(decimal(n), max) is None,
        parsed(Seq::<char>::empty(), max) is None,
        signed_decimal(n as int) == decimal(n),
        n > 0 ==> signed_decimal(-(n as int)) == seq!['-'] + decimal(n),
        0 < i < s.len() && !('0' <= s[i] <= '9') ==> parsed(s, max) is None,
{
    lemma_decimal_reads_back(n);
    let d = decimal(n);
    assert(d[0] != '+');
    assert((seq!['+'] + d).drop_first() =~= d);
    if 0 < i < s.len() && !('0' <= s[i] <= '9') {
        assert(s.drop_first()[i - 1] == s[i]);
    }
}

/// The root comes before a dot, that before two, and those before names.
pub proof fn lemma_kinds_of_components_in_order(name: Seq<char>)
    requires
        plain_name(name),
    ensures
        component_before("/"@, "."@),
        component_before("."@, ".."@),
        component_before(".."@, name),
        component_before("/"@, name),
        !component_before(name, ".."@),
        !component_before("."@, "/"@),
{
    reveal_strlit("/");
    reveal_strlit(".");
    reveal_strlit("..");
    assert("/"@[0] == '/');
    assert("."@[0] == '.');
    assert("/"@ != "."@);
    assert("."@.len() == 1 && ".."@.len() == 2);
    assert(name != "/"@) by {
        if name == "/"@ {
            assert(name[0] == '/');
            assert(name.contains('/'));
        }
    }
}

/// A directory comes before what it holds.
pub proof fn lemma_directory_comes_first(dir: Seq<char>, name: Seq<char>)
    requires
        plain_name(name),
    ensures
        path_before(dir, child(dir, name)),
{
    lemma_child_is_in_directory(dir, name);
    lemma_shorter_comes_first(components(dir), name);
}

/// A list comes before the same list with one more.
proof fn lemma_shorter_comes_first(cs: Seq<Seq<char>>, name: Seq<char>)
    ensures
        components_before(cs, cs.push(name)),
    decreases cs.len(),
{
    if cs.len() > 0 {
        lemma_shorter_comes_first(cs.drop_first(), name);
        assert(cs.push(name).drop_first() =~= cs.drop_first().push(name));
    }
}

} // verus!
