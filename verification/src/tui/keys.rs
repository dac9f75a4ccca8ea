//! Key handling: `App::handle_key` and the handlers of what is open.

use vstd::prelude::*;
use vstd::string::*;

use crate::chars::trimmed;
use crate::mode::Mode;
use crate::tui::app::{App, AppModel, Effect, EffectModel, Keep};
use crate::tui::dialog::{
    AuthModel, ConfirmAction, ConfirmActionModel, ConfirmModel, ConfirmPromptState, LocalAction,
    LocalModel,
};
use crate::tui::key::{ctrl_c, is_ctrl_c, KeyCode, KeyModifiers};
use crate::tui::panel::{PanelKind, PanelModel, PanelState};
use crate::tui::prompt::{first_line, first_line_of, PromptKind, PromptModel, PromptNext};
use crate::tui::repo::{FailKind, OpModel, RepoOpState};
use crate::tui::select::outcome_of;
use crate::tui::worktree::{
    lemma_worktree_path_is_not_blank, worktree_path, WorktreeOp, WorktreeOpModel, WtRowModel,
};

verus! {

// ── Panel keys ───────────────────────────────────────────────────────────────

/// A panel after a key that moves about it; its cursor moves where it has one, else its text.
pub open spec fn panel_moved(p: PanelModel, code: KeyCode, viewport: usize) -> PanelModel {
    let up = |n: int|
        if p.navigable() {
            p.after_move(n, viewport)
        } else {
            p.after_scroll(n, viewport)
        };
    match code {
        KeyCode::Up => up(-1),
        KeyCode::Down => up(1),
        KeyCode::PageUp => up(-10),
        KeyCode::PageDown => up(10),
        KeyCode::Home => panel_top(p, viewport),
        KeyCode::End => panel_bottom(p, viewport),
        KeyCode::Char(c) => if c == 'k' {
            up(-1)
        } else if c == 'j' {
            up(1)
        } else if c == 'g' {
            panel_top(p, viewport)
        } else if c == 'G' {
            panel_bottom(p, viewport)
        } else {
            p
        },
        _ => p,
    }
}

/// A panel at its first line.
pub open spec fn panel_top(p: PanelModel, viewport: usize) -> PanelModel {
    if p.navigable() {
        p.at_line(0, viewport)
    } else {
        PanelModel { scroll: 0, ..p }
    }
}

/// A panel at its last line.
pub open spec fn panel_bottom(p: PanelModel, viewport: usize) -> PanelModel {
    if p.navigable() {
        p.at_line(
            if p.lines.len() > 0 {
                p.lines.len() - 1
            } else {
                0
            },
            viewport,
        )
    } else {
        p.after_scroll(p.lines.len() as int, viewport)
    }
}

/// Whether a key moves about a panel.
pub open spec fn moves(code: KeyCode) -> bool {
    match code {
        KeyCode::Up | KeyCode::Down | KeyCode::PageUp | KeyCode::PageDown | KeyCode::Home
        | KeyCode::End => true,
        KeyCode::Char(c) => c == 'k' || c == 'j' || c == 'g' || c == 'G',
        _ => false,
    }
}

impl AppModel {
    /// After a key in the panel `p`.
    pub open spec fn after_panel_key(self, p: PanelModel, code: KeyCode) -> AppModel {
        let viewport: usize = if self.panel_viewport > 1 {
            self.panel_viewport
        } else {
            1
        };
        if moves(code) {
            AppModel { panel: Some(panel_moved(p, code, viewport)), ..self }
        } else {
            match code {
                KeyCode::Char(c) => if c == 'q' {
                    AppModel { panel: None, ..self }
                } else if p.kind != PanelKind::Branches {
                    self
                } else if c == 'n' {
                    AppModel { panel: None, ..self }.prompting(PromptKind::Branch, Seq::empty())
                } else if c == 'c' || c == ' ' || c == 'd' || c == 'D' {
                    match self.selected_branch() {
                        Some(name) => {
                            let s = AppModel { panel: None, ..self };
                            if c == 'd' {
                                s.deleting(name, false)
                            } else if c == 'D' {
                                s.deleting(name, true)
                            } else {
                                s.checking_out(name)
                            }
                        },
                        None => self,
                    }
                } else {
                    self
                },
                _ => self,
            }
        }
    }
}

/// Moves about a panel.
fn move_panel(p: &mut PanelState, code: KeyCode, viewport: usize)
    ensures
        final(p)@ == panel_moved(old(p)@, code, viewport),
{
    let delta: isize = match code {
        KeyCode::Up => -1,
        KeyCode::Down => 1,
        KeyCode::PageUp => -10,
        KeyCode::PageDown => 10,
        KeyCode::Char(c) => if c == 'k' {
            -1
        } else if c == 'j' {
            1
        } else {
            0
        },
        _ => 0,
    };
    let top = match code {
        KeyCode::Home => true,
        KeyCode::Char(c) => c == 'g',
        _ => false,
    };
    let bottom = match code {
        KeyCode::End => true,
        KeyCode::Char(c) => c == 'G',
        _ => false,
    };
    if delta != 0 {
        if p.is_navigable() {
            p.move_cursor(delta, viewport);
        } else {
            p.scroll_text(delta, viewport);
        }
    } else if top {
        if p.is_navigable() {
            p.cursor_to(0, viewport);
        } else {
            p.scroll = 0;
        }
    } else if bottom {
        if p.is_navigable() {
            let last: usize = if p.lines.len() > 0 {
                p.lines.len() - 1
            } else {
                0
            };
            p.cursor_to(last, viewport);
        } else {
            scroll_to_end(p, viewport);
        }
    }
}

/// Scrolls a panel of text to its last screen.
fn scroll_to_end(p: &mut PanelState, viewport: usize)
    ensures
        final(p)@ == old(p)@.after_scroll(old(p)@.lines.len() as int, viewport),
{
    let last: usize = if p.lines.len() > viewport {
        p.lines.len() - viewport
    } else {
        0
    };
    p.scroll = last;
}

/// Whether a key moves about a panel.
fn is_move(code: KeyCode) -> (r: bool)
    ensures
        r == moves(code),
{
    match code {
        KeyCode::Up | KeyCode::Down | KeyCode::PageUp | KeyCode::PageDown | KeyCode::Home
        | KeyCode::End => true,
        KeyCode::Char(c) => c == 'k' || c == 'j' || c == 'g' || c == 'G',
        _ => false,
    }
}

impl App {
    /// Handles a key while a panel is open, and says whether it did. Only quit (Ctrl+C) and close
    /// (Esc) fall through to the main handler; every other key is consumed, so that hotkeys of the
    /// list do not fire behind the panel.
    #[verifier::rlimit(40)]
    pub fn handle_panel_key(&mut self, code: KeyCode, mods: KeyModifiers) -> (r: bool)
        ensures
            old(self).wf() ==> final(self).wf(),
            match old(self)@.panel {
                Some(p) => {
                    &&& r == !(code == KeyCode::Esc || ctrl_c(code, mods))
                    &&& final(self)@ == (if r {
                        old(self)@.after_panel_key(p, code)
                    } else {
                        old(self)@
                    })
                },
                None => !r && final(self)@ == old(self)@,
            },
    {
        let kind = match &self.panel {
            Some(p) => p.kind,
            None => {
                return false;
            },
        };
        if matches!(code, KeyCode::Esc) || is_ctrl_c(code, mods) {
            return false;
        }
        let viewport = if self.panel_viewport > 1 {
            self.panel_viewport
        } else {
            1
        };
        if is_move(code) {
            if let Some(p) = self.panel.take() {
                let mut p = p;
                move_panel(&mut p, code, viewport);
                self.panel = Some(p);
            }
            return true;
        }
        if let KeyCode::Char(c) = code {
            if c == 'q' {
                self.panel = None;
            } else if matches!(kind, PanelKind::Branches) {
                if c == 'n' {
                    self.panel = None;
                    self.show_prompt(PromptKind::Branch);
                } else if c == 'c' || c == ' ' || c == 'd' || c == 'D' {
                    if let Some(name) = self.selected_branch_name() {
                        self.panel = None;
                        if c == 'd' {
                            self.delete_flow(name.as_str(), false);
                        } else if c == 'D' {
                            self.delete_flow(name.as_str(), true);
                        } else {
                            self.checkout_flow(name.as_str());
                        }
                    }
                }
            }
        }
        true
    }
}

// ── Prompt keys ──────────────────────────────────────────────────────────────

impl AppModel {
    /// After a key in the prompt.
    pub open spec fn after_prompt_key(self, code: KeyCode, mods: KeyModifiers) -> AppModel {
        match self.prompt {
            Some(p) => {
                let edited = self.path_filled(p, p.after_key(code, mods));
                match p.next(code) {
                    PromptNext::Stay => AppModel { prompt: Some(edited), ..self },
                    PromptNext::Close => AppModel { prompt: None, ..self },
                    PromptNext::Submit => AppModel { prompt: None, ..self }.submitted(edited),
                }
            },
            None => self,
        }
    }

    /// After text was pasted: into the prompt, or else into the credentials dialog.
    pub open spec fn after_paste(self, text: Seq<char>) -> AppModel {
        match self.prompt {
            Some(p) => AppModel {
                prompt: Some(self.path_filled(p, p.pasted(text))),
                ..self
            },
            None => match self.auth_prompt {
                Some(a) => AppModel {
                    auth_prompt: Some(
                        AuthModel { input: a.input + first_line(text), ..a },
                    ),
                    ..self
                },
                None => self,
            },
        }
    }
}

impl App {
    /// Handles a key in the prompt.
    pub fn handle_prompt_key(&mut self, code: KeyCode, mods: KeyModifiers)
        requires
            old(self).wf(),
        ensures
            final(self)@ == old(self)@.after_prompt_key(code, mods),
            final(self).wf(),
    {
        if let Some(prompt) = self.prompt.take() {
            let mut prompt = prompt;
            let fill = self.fills_path(&prompt);
            let next = prompt.key(code, mods);
            if fill {
                prompt.description = self.prefilled_path(prompt.input.as_str());
            }
            match next {
                PromptNext::Stay => {
                    self.prompt = Some(prompt);
                },
                PromptNext::Close => {},
                PromptNext::Submit => {
                    self.submit_prompt(&prompt);
                },
            }
        }
    }

    /// Takes in pasted text.
    pub fn handle_paste(&mut self, text: &str)
        requires
            old(self).wf(),
        ensures
            final(self)@ == old(self)@.after_paste(text@),
            final(self).wf(),
    {
        if let Some(prompt) = self.prompt.take() {
            let mut prompt = prompt;
            let fill = self.fills_path(&prompt);
            prompt.paste(text);
            if fill {
                prompt.description = self.prefilled_path(prompt.input.as_str());
            }
            self.prompt = Some(prompt);
        } else if let Some(auth) = self.auth_prompt.take() {
            let mut auth = auth;
            let line = first_line_of(text);
            auth.input.append(line.as_str());
            self.auth_prompt = Some(auth);
        }
    }
}

/// While the branch of a new worktree is typed or pasted, its path is the sibling that goes with the
/// branch, as long as no other path was entered. It is so from the start: an opened prompt has
/// neither a branch nor a path.
pub proof fn lemma_path_follows_branch(
    app: AppModel,
    p: PromptModel,
    code: KeyCode,
    mods: KeyModifiers,
    text: Seq<char>,
)
    requires
        app.prompt == Some(p),
        p.kind == PromptKind::WorktreeBranch,
        !p.in_second(),
        p.description == app.prefill(p.input),
    ensures
        p.next(code) == PromptNext::Stay ==> (app.after_prompt_key(code, mods).prompt matches Some(q)
            && q.description == app.prefill(q.input)),
        app.after_paste(text).prompt matches Some(q) && q.description == app.prefill(q.input),
        PromptModel::opened(PromptKind::WorktreeBranch, Seq::empty()).description == app.prefill(
            Seq::empty(),
        ),
{
    assert(trimmed(Seq::empty()) =~= Seq::<char>::empty());
}

/// A new worktree whose path was left as it was filled in goes beside the selected one, to a
/// directory that is named after it and the branch.
pub proof fn lemma_untouched_path_is_sibling(app: AppModel, p: PromptModel, selected: Seq<char>)
    requires
        p.kind == PromptKind::WorktreeBranch,
        p.description == app.prefill(p.input),
        trimmed(p.input).len() > 0,
        app.current_path() == Some(selected),
    ensures
        app.submitted(p) == app.with_worktree_op(
            WorktreeOpModel::Add {
                dest: worktree_path(selected, trimmed(p.input)),
                branch: trimmed(p.input),
            },
        ),
{
    lemma_worktree_path_is_not_blank(selected, trimmed(p.input));
}

/// A path that was entered for a new worktree is kept, whatever becomes of the branch: keys and
/// pasted text in the branch leave it as it is.
pub proof fn lemma_entered_path_is_kept(
    app: AppModel,
    p: PromptModel,
    code: KeyCode,
    mods: KeyModifiers,
    text: Seq<char>,
)
    requires
        app.prompt == Some(p),
        p.kind == PromptKind::WorktreeBranch,
        !p.in_second(),
        p.description != app.prefill(p.input),
    ensures
        p.next(code) == PromptNext::Stay ==> (app.after_prompt_key(code, mods).prompt matches Some(q)
            && q.description == p.description),
        app.after_paste(text).prompt matches Some(q) && q.description == p.description,
{
}

// ── Help keys ────────────────────────────────────────────────────────────────

/// `at` scrolled down by `n` lines.
pub open spec fn down(at: usize, n: int) -> usize {
    if at + n > usize::MAX {
        usize::MAX
    } else {
        (at + n) as usize
    }
}

/// `at` scrolled up by `n` lines.
pub open spec fn up(at: usize, n: int) -> usize {
    if at < n {
        0
    } else {
        (at - n) as usize
    }
}

impl AppModel {
    /// After a key while the help is open.
    pub open spec fn after_help_key(self, code: KeyCode) -> AppModel {
        match code {
            KeyCode::Esc => AppModel { show_help: false, ..self },
            KeyCode::Down => AppModel { help_scroll: down(self.help_scroll, 1), ..self },
            KeyCode::Up => AppModel { help_scroll: up(self.help_scroll, 1), ..self },
            KeyCode::PageDown => AppModel { help_scroll: down(self.help_scroll, 10), ..self },
            KeyCode::PageUp => AppModel { help_scroll: up(self.help_scroll, 10), ..self },
            KeyCode::Home => AppModel { help_scroll: 0, ..self },
            KeyCode::End => AppModel { help_scroll: usize::MAX / 2, ..self },
            KeyCode::Char(c) => if c == '?' || c == 'q' {
                AppModel { show_help: false, ..self }
            } else if c == 'j' {
                AppModel { help_scroll: down(self.help_scroll, 1), ..self }
            } else if c == 'k' {
                AppModel { help_scroll: up(self.help_scroll, 1), ..self }
            } else if c == 'g' {
                AppModel { help_scroll: 0, ..self }
            } else if c == 'G' {
                AppModel { help_scroll: usize::MAX / 2, ..self }
            } else {
                self
            },
            _ => self,
        }
    }
}

impl App {
    /// Handles a key while the help is open; every other key is swallowed.
    pub fn handle_help_key(&mut self, code: KeyCode)
        ensures
            final(self)@ == old(self)@.after_help_key(code),
            old(self).wf() ==> final(self).wf(),
    {
        match code {
            KeyCode::Esc => {
                self.show_help = false;
            },
            KeyCode::Down => {
                self.help_scroll = self.help_scroll.saturating_add(1);
            },
            KeyCode::Up => {
                self.help_scroll = self.help_scroll.saturating_sub(1);
            },
            KeyCode::PageDown => {
                self.help_scroll = self.help_scroll.saturating_add(10);
            },
            KeyCode::PageUp => {
                self.help_scroll = self.help_scroll.saturating_sub(10);
            },
            KeyCode::Home => {
                self.help_scroll = 0;
            },
            // The drawing clamps this.
            KeyCode::End => {
                self.help_scroll = usize::MAX / 2;
            },
            KeyCode::Char(c) => {
                if c == '?' || c == 'q' {
                    self.show_help = false;
                } else if c == 'j' {
                    self.help_scroll = self.help_scroll.saturating_add(1);
                } else if c == 'k' {
                    self.help_scroll = self.help_scroll.saturating_sub(1);
                } else if c == 'g' {
                    self.help_scroll = 0;
                } else if c == 'G' {
                    self.help_scroll = usize::MAX / 2;
                }
            },
            _ => {},
        }
    }
}

// ── Main keys ────────────────────────────────────────────────────────────────

/// The dialog that confirms a reset.
pub open spec fn reset_dialog(subject: Seq<char>, paths: Seq<Seq<char>>) -> ConfirmModel {
    ConfirmModel {
        title: "Reset to Upstream?"@,
        subject,
        warning: "Mixed keeps your changes; hard DISCARDS all local changes and commits."@,
        action: ConfirmActionModel::ResetToUpstream { paths },
    }
}

/// The dialog that confirms the dropping of stash entries.
pub open spec fn drop_dialog(subject: Seq<char>, paths: Seq<Seq<char>>) -> ConfirmModel {
    ConfirmModel {
        title: "Drop Stash?"@,
        subject,
        warning: "Discards the newest stash entry — cannot be undone."@,
        action: ConfirmActionModel::StashDrop { paths },
    }
}

impl AppModel {
    /// With the result of what is selected cleared, where it has one.
    pub open spec fn result_cleared(self) -> AppModel {
        match self.current_place() {
            Some(i) => if self.repos[i].state.has_result() {
                self.with_state(Some(i), OpModel::Idle)
            } else {
                self
            },
            None => self,
        }
    }

    /// Whether what is selected has a result.
    pub open spec fn shows_result(self) -> bool {
        self.current_place() matches Some(i) && self.repos[i].state.has_result()
    }

    /// With every repository selected that the mode applies to, and a notice of the outcome.
    pub open spec fn selecting_all(self) -> AppModel {
        self.all_chosen().noticed(outcome_of(self.repos, self.mode).notice_text())
    }

    /// With a reset to be confirmed, where something can be reset.
    pub open spec fn resetting(self) -> AppModel {
        let paths = self.targets(Keep::Upstream);
        if paths.len() == 0 {
            self
        } else {
            self.with_confirm(reset_dialog(self.subject_of(paths), paths))
        }
    }

    /// With the dropping of stash entries to be confirmed, where there are any.
    pub open spec fn dropping(self) -> AppModel {
        let paths = self.targets(Keep::Stashed);
        if paths.len() == 0 {
            self
        } else {
            self.with_confirm(drop_dialog(self.subject_of(paths), paths))
        }
    }

    /// In worktree mode, or out of it.
    pub open spec fn worktree_toggled(self) -> AppModel {
        if self.worktree_mode {
            AppModel { worktree_mode: false, ..self }
        } else {
            AppModel {
                worktree_mode: true,
                wt_rows: Seq::empty(),
                wt_cursor: 0,
                wt_offset: 0,
                ..self
            }.with_worktree_load()
        }
    }

    /// With lazygit to be opened for what is selected.
    pub open spec fn opening_lazygit(self) -> AppModel {
        match self.current_path() {
            Some(path) => self.sent(EffectModel::OpenLazygit { path }),
            None => self,
        }
    }

    /// After a letter, in the list.
    pub open spec fn after_letter(self, c: char) -> AppModel {
        if c == '?' {
            AppModel { show_help: true, help_scroll: 0, ..self }
        } else if c == 'k' {
            self.after_move(-1)
        } else if c == 'j' {
            self.after_move(1)
        } else if c == 'g' {
            self.at_top()
        } else if c == 'G' {
            self.at_bottom()
        } else if c == ' ' {
            self.after_toggle()
        } else if c == 'a' {
            self.selecting_all()
        } else if c == 'A' {
            self.all_cleared()
        } else if c == 'm' {
            self.in_mode(self.mode.next())
        } else if c == 't' {
            self.sort_toggled()
        } else if c == 'b' {
            self.opening(PanelKind::Branches)
        } else if c == 's' {
            self.opening(PanelKind::Status)
        } else if c == 'v' {
            self.opening(PanelKind::Commits)
        } else if c == 'f' {
            self.after_run(Mode::Fetch)
        } else if c == 'p' {
            self.after_run(Mode::Pull)
        } else if c == 'P' {
            self.after_run(Mode::Push)
        } else if c == 'c' {
            if self.shows_result() {
                self.result_cleared()
            } else {
                self.prompting(PromptKind::Commit, Seq::empty())
            }
        } else if c == 'n' {
            self.prompting(
                if self.worktree_mode {
                    PromptKind::WorktreeBranch
                } else {
                    PromptKind::Branch
                },
                Seq::empty(),
            )
        } else if c == 'u' {
            self.prompting(PromptKind::SetUpstream, "origin"@)
        } else if c == 'U' {
            self.resetting()
        } else if c == 'S' {
            self.prompting(PromptKind::Stash, Seq::empty())
        } else if c == 'O' {
            self.with_locals(self.targets(Keep::Stashed), LocalModel::StashPop)
        } else if c == 'D' {
            self.dropping()
        } else if c == 'W' {
            self.worktree_toggled()
        } else if c == 'd' && self.worktree_mode {
            self.with_worktree_op(WorktreeOpModel::Remove)
        } else if c == 'L' && self.worktree_mode {
            self.with_worktree_op(WorktreeOpModel::ToggleLock)
        } else if c == 'X' && self.worktree_mode {
            self.with_worktree_op(WorktreeOpModel::Prune)
        } else {
            self
        }
    }

    /// After a key, in the list.
    pub open spec fn after_main_key(self, code: KeyCode) -> AppModel {
        match code {
            KeyCode::Char(c) => self.after_letter(c),
            KeyCode::Esc => if self.panel is Some {
                AppModel { panel: None, ..self }
            } else {
                self.result_cleared()
            },
            KeyCode::Up => self.after_move(-1),
            KeyCode::Down => self.after_move(1),
            KeyCode::Home => self.at_top(),
            KeyCode::End => self.at_bottom(),
            KeyCode::PageUp => self.after_move(-10),
            KeyCode::PageDown => self.after_move(10),
            KeyCode::Left => AppModel { msg_scroll: up(self.msg_scroll, 4), ..self },
            KeyCode::Right => AppModel { msg_scroll: down(self.msg_scroll, 4), ..self },
            KeyCode::Enter => self.after_run(self.mode),
            KeyCode::Tab => self.opening_lazygit(),
            _ => self,
        }
    }

    /// Whether a key quits. Ctrl+C always does; `q` does in the list, and while repositories are
    /// loaded; it closes what is open first.
    pub open spec fn quits(self, code: KeyCode, mods: KeyModifiers) -> bool {
        let q = code == KeyCode::Char('q') || code == KeyCode::Char('Q');
        if ctrl_c(code, mods) {
            true
        } else if self.loading {
            q
        } else if self.auth_prompt is Some || self.confirm_prompt is Some || self.prompt is Some
            || self.show_help || self.panel is Some {
            false
        } else {
            q
        }
    }

    /// After a key. What is open takes it: the credentials dialog first, then the confirm dialog,
    /// the prompt, the help, and the panel.
    pub open spec fn after_key(self, code: KeyCode, mods: KeyModifiers) -> AppModel {
        if self.quits(code, mods) || self.loading {
            self
        } else if self.auth_prompt is Some {
            self.after_auth_key(code)
        } else if self.confirm_prompt is Some {
            self.after_confirm_key(code)
        } else if self.prompt is Some {
            self.after_prompt_key(code, mods)
        } else if self.show_help {
            self.after_help_key(code)
        } else if code != KeyCode::Esc && self.panel is Some {
            self.after_panel_key(self.panel->0, code)
        } else {
            self.after_main_key(code)
        }
    }
}

impl App {
    /// Selects every repository that the mode applies to, and says what came of it.
    fn select_all(&mut self)
        ensures
            final(self)@ == old(self)@.selecting_all(),
            old(self).wf() ==> final(self).wf(),
    {
        let outcome = self.queue_all();
        let notice = outcome.notice();
        self.set_notice(notice);
    }

    /// Clears the result of what is selected, and says whether it had one.
    fn clear_result(&mut self) -> (r: bool)
        ensures
            final(self)@ == old(self)@.result_cleared(),
            r == old(self)@.shows_result(),
            old(self).wf() ==> final(self).wf(),
    {
        if let Some(i) = self.current_place() {
            proof {
                assert(self@.repos[i as int] == self.repos@[i as int]@);
            }
            if self.repos[i].state.has_result() {
                self.set_state(Some(i), RepoOpState::Idle);
                return true;
            }
        }
        false
    }

    /// Asks whether to reset to upstream.
    fn ask_to_reset(&mut self)
        ensures
            final(self)@ == old(self)@.resetting(),
            old(self).wf() ==> final(self).wf(),
    {
        let paths = self.target_paths_where(Keep::Upstream);
        if paths.len() == 0 {
            return;
        }
        let subject = self.confirm_subject(&paths);
        self.enqueue_confirm(
            ConfirmPromptState {
                title: "Reset to Upstream?",
                subject,
                warning: "Mixed keeps your changes; hard DISCARDS all local changes and commits.".to_owned(),
                action: ConfirmAction::ResetToUpstream { paths },
            },
        );
    }

    /// Asks whether to drop stash entries.
    fn ask_to_drop(&mut self)
        ensures
            final(self)@ == old(self)@.dropping(),
            old(self).wf() ==> final(self).wf(),
    {
        let paths = self.target_paths_with_stash();
        if paths.len() == 0 {
            return;
        }
        let subject = self.confirm_subject(&paths);
        self.enqueue_confirm(
            ConfirmPromptState {
                title: "Drop Stash?",
                subject,
                warning: "Discards the newest stash entry — cannot be undone.".to_owned(),
                action: ConfirmAction::StashDrop { paths },
            },
        );
    }

    /// Goes into worktree mode, or out of it.
    fn toggle_worktree_mode(&mut self)
        ensures
            final(self)@ == old(self)@.worktree_toggled(),
            old(self).wf() ==> final(self).wf(),
    {
        self.worktree_mode = !self.worktree_mode;
        if self.worktree_mode {
            self.wt_rows = Vec::new();
            self.wt_cursor = 0;
            self.wt_offset = 0;
            proof {
                assert(self@.wt_rows =~= Seq::<WtRowModel>::empty());
            }
            self.spawn_load_worktrees();
        }
    }

    /// Hands the terminal over to lazygit for what is selected.
    pub fn open_lazygit(&mut self)
        ensures
            final(self)@ == old(self)@.opening_lazygit(),
            old(self).wf() ==> final(self).wf(),
    {
        if let Some(path) = self.current_path() {
            self.send(Effect::OpenLazygit { path });
        }
    }

    /// Takes the terminal back from lazygit, which could be launched or not.
    pub fn lazygit_closed(&mut self, launched: bool)
        ensures
            final(self)@ == old(self)@.after_lazygit(launched),
            old(self).wf() ==> final(self).wf(),
    {
        if !launched {
            let found = self.current_place();
            let state = RepoOpState::Fail {
                message: "lazygit failed to launch (is it installed and on PATH?)".to_owned(),
                kind: FailKind::Generic,
            };
            self.set_state(found, state);
        }
        self.spawn_refresh();
        self.needs_full_redraw = true;
    }

    /// Handles a letter in the list that moves, selects or shows something.
    #[verifier::rlimit(40)]
    fn handle_letter(&mut self, c: char)
        ensures
            final(self)@ == old(self)@.after_letter(c),
            old(self).wf() ==> final(self).wf(),
    {
        if c == '?' {
            self.show_help = true;
            self.help_scroll = 0;
        } else if c == 'k' {
            self.move_cursor(-1);
        } else if c == 'j' {
            self.move_cursor(1);
        } else if c == 'g' {
            self.move_to_top();
        } else if c == 'G' {
            self.move_to_bottom();
        } else if c == ' ' {
            self.toggle_queue();
        } else if c == 'a' {
            self.select_all();
        } else if c == 'A' {
            self.clear_queue();
        } else if c == 'm' {
            let next = self.mode.cycle();
            self.set_mode(next);
        } else if c == 't' {
            self.toggle_sort();
        } else if c == 'b' {
            self.open_panel(PanelKind::Branches);
        } else if c == 's' {
            self.open_panel(PanelKind::Status);
        } else if c == 'v' {
            self.open_panel(PanelKind::Commits);
        } else if c == 'f' {
            self.run_action_on_targets(Mode::Fetch);
        } else if c == 'p' {
            self.run_action_on_targets(Mode::Pull);
        } else if c == 'P' {
            self.run_action_on_targets(Mode::Push);
        } else if c == 'c' {
            // Clear error/success state first; if clean, show commit prompt.
            if !self.clear_result() {
                self.show_prompt(PromptKind::Commit);
            }
        } else if c == 'n' {
            let kind = if self.worktree_mode {
                PromptKind::WorktreeBranch
            } else {
                PromptKind::Branch
            };
            self.show_prompt(kind);
        } else if c == 'u' {
            self.show_prompt_prefilled(PromptKind::SetUpstream, "origin".to_owned());
        } else if c == 'U' {
            self.ask_to_reset();
        } else if c == 'S' {
            self.show_prompt(PromptKind::Stash);
        } else if c == 'O' {
            let paths = self.target_paths_with_stash();
            self.spawn_local_ops(&paths, &LocalAction::StashPop);
        } else if c == 'D' {
            self.ask_to_drop();
        } else if c == 'W' {
            self.toggle_worktree_mode();
        } else if c == 'd' && self.worktree_mode {
            self.spawn_worktree_op(WorktreeOp::Remove);
        } else if c == 'L' && self.worktree_mode {
            self.spawn_worktree_op(WorktreeOp::ToggleLock);
        } else if c == 'X' && self.worktree_mode {
            self.spawn_worktree_op(WorktreeOp::Prune);
        }
    }

    /// Handles a key in the list.
    #[verifier::rlimit(40)]
    fn handle_main_key(&mut self, code: KeyCode)
        ensures
            final(self)@ == old(self)@.after_main_key(code),
            old(self).wf() ==> final(self).wf(),
    {
        match code {
            KeyCode::Char(c) => self.handle_letter(c),
            KeyCode::Esc => {
                if self.panel.is_some() {
                    self.panel = None;
                } else {
                    self.clear_result();
                }
            },
            KeyCode::Up => self.move_cursor(-1),
            KeyCode::Down => self.move_cursor(1),
            KeyCode::Home => self.move_to_top(),
            KeyCode::End => self.move_to_bottom(),
            KeyCode::PageUp => self.move_cursor(-10),
            KeyCode::PageDown => self.move_cursor(10),
            KeyCode::Left => {
                self.msg_scroll = self.msg_scroll.saturating_sub(4);
            },
            KeyCode::Right => {
                self.msg_scroll = self.msg_scroll.saturating_add(4);
            },
            KeyCode::Enter => self.run_current_mode(),
            KeyCode::Tab => self.open_lazygit(),
            _ => {},
        }
    }

    /// Handles a key, and says whether it quits.
    #[verifier::rlimit(40)]
    pub fn handle_key(&mut self, code: KeyCode, mods: KeyModifiers) -> (r: bool)
        requires
            old(self).wf(),
        ensures
            r == old(self)@.quits(code, mods),
            final(self)@ == old(self)@.after_key(code, mods),
            final(self).wf(),
    {
        if is_ctrl_c(code, mods) {
            return true;
        }
        let q = match code {
            KeyCode::Char(c) => c == 'q' || c == 'Q',
            _ => false,
        };
        if self.loading {
            return q;
        }
        if self.auth_prompt.is_some() {
            self.handle_auth_key(code);
            return false;
        }
        if self.confirm_prompt.is_some() {
            self.handle_confirm_key(code);
            return false;
        }
        if self.prompt.is_some() {
            self.handle_prompt_key(code, mods);
            return false;
        }
        if self.show_help {
            self.handle_help_key(code);
            return false;
        }
        if self.panel.is_some() && self.handle_panel_key(code, mods) {
            return false;
        }
        if q {
            return true;
        }
        self.handle_main_key(code);
        false
    }
}

impl AppModel {
    /// After lazygit was closed, which could be launched or not.
    pub open spec fn after_lazygit(self, launched: bool) -> AppModel {
        let s = if launched {
            self
        } else {
            self.with_state(
                self.current_place(),
                OpModel::Fail {
                    message: "lazygit failed to launch (is it installed and on PATH?)"@,
                    kind: FailKind::Generic,
                },
            )
        };
        AppModel { needs_full_redraw: true, ..s.with_refresh() }
    }
}

// ── What keys do ─────────────────────────────────────────────────────────────

/// Ctrl+C quits whatever is open or under way.
pub proof fn lemma_ctrl_c_quits(app: AppModel, mods: KeyModifiers)
    requires
        mods.control,
    ensures
        app.quits(KeyCode::Char('c'), mods),
{
}

/// While repositories are loaded a key does nothing but quit.
pub proof fn lemma_loading_ignores_keys(app: AppModel, code: KeyCode, mods: KeyModifiers)
    requires
        app.loading,
    ensures
        app.after_key(code, mods) == app,
        app.quits(code, mods) <==> ctrl_c(code, mods) || code == KeyCode::Char('q') || code
            == KeyCode::Char('Q'),
{
}

/// `q` closes an open panel or the help before it quits.
pub proof fn lemma_q_closes_first(app: AppModel, mods: KeyModifiers)
    requires
        !app.loading,
        app.auth_prompt is None,
        app.confirm_prompt is None,
        app.prompt is None,
    ensures
        app.show_help ==> !app.quits(KeyCode::Char('q'), mods) && !app.after_key(
            KeyCode::Char('q'),
            mods,
        ).show_help,
        !app.show_help && app.panel is Some ==> !app.quits(KeyCode::Char('q'), mods)
            && app.after_key(KeyCode::Char('q'), mods).panel is None,
        !app.show_help && app.panel is None ==> app.quits(KeyCode::Char('q'), mods),
{
}

} // verus!
