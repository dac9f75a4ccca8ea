//! What the popups, the bars and the table put on the screen.

use vstd::prelude::*;
use vstd::string::*;

use crate::chars::repeated;
use crate::git::command::{traced, CommandModel};
use crate::git::status::repository_name;
use crate::meaning::lemma_repeated_length;
use crate::native::{shown, slashed};
use crate::numbers::decimal;
use crate::paths::child;
use crate::scanning::{lemma_child_is_in_directory, plain_name};
use crate::tui::app::{place, AppModel, ColWidths};
use crate::tui::area::{dialog_area, inside, Rect};
use crate::tui::bars::{chars_in, mode_badge};
use crate::tui::cells::{age, seconds_between, truncated};
use crate::tui::dialog::{AuthModel, CredentialField};
use crate::tui::overlay::panel_area;
use crate::tui::panel::PanelModel;
use crate::tui::popup::{
    auth_text, input_height, line_text, prompt_title, shown_password, shown_username, with_cursor,
    worktree_text,
};
use crate::tui::prompt::{first_line, PromptKind, PromptModel};
use crate::tui::repo::RepoModel;
use crate::tui::style::{SpanModel, Style};
use crate::tui::table::message_width;

verus! {

// ── Bars ─────────────────────────────────────────────────────────────────────

/// Characters are counted piece by piece.
proof fn lemma_chars_in_both(a: Seq<SpanModel>, b: Seq<SpanModel>)
    ensures
        chars_in(a + b) == chars_in(a) + chars_in(b),
    decreases b.len(),
{
    if b.len() == 0 {
        assert(a + b =~= a);
    } else {
        lemma_chars_in_both(a, b.drop_last());
        assert((a + b).drop_last() =~= a + b.drop_last());
        assert((a + b).last() == b.last());
    }
}

/// The title bar starts with the name of the program and its version, ends with the counts, and fills
/// its width where there is room.
pub proof fn lemma_title_bar_fills_width(app: AppModel, width: u16, version: Seq<char>)
    ensures
        ({
            let left = " gitbatch "@ + version;
            let right = app.title_right();
            let bar = app.title_bar(width, version);
            &&& bar[0].text == left
            &&& bar.skip(2) == right
            &&& left.len() + chars_in(right) <= width ==> chars_in(bar) == width
        }),
{
    reveal_strlit(" ");
    let left = " gitbatch "@ + version;
    let right = app.title_right();
    let bar = app.title_bar(width, version);
    let head = bar.take(2);
    assert(bar =~= head + right);
    assert(bar.skip(2) =~= right);
    lemma_chars_in_both(head, right);
    let one = seq![bar[0]];
    assert(head.drop_last() =~= one);
    assert(one.drop_last() =~= Seq::<SpanModel>::empty());
    reveal_with_fuel(chars_in, 3);
    if left.len() + chars_in(right) <= width {
        let gap = (width - (left.len() + chars_in(right))) as nat;
        lemma_repeated_length(" "@, gap);
        assert(gap * 1 == gap) by (nonlinear_arith);
        assert(bar[1].text == repeated(" "@, gap));
    }
}

/// The status bar shows the mode, what there is to say, and a hint.
pub proof fn lemma_status_bar_parts(app: AppModel, width: u16)
    ensures
        app.status_bar(width).len() == 3,
        app.status_bar(width)[0].text == mode_badge(app.mode),
        app.status_bar(width)[2].text == app.status_right(width),
        app.shown_notice() is None && app.current() is None ==> app.status_center()
            == " no repositories"@,
        app.shown_notice() is None ==> (app.current() matches Some(r) ==> app.status_center()
            == r.status_text()),
{
}

/// The hints name the keys that make sense: for changes, for commits to pull, for commits to push.
pub proof fn lemma_hints_name_keys(r: RepoModel, scope: Seq<char>)
    requires
        r.state is Idle || r.state is Queued,
    ensures
        r.snapshot.dirty ==> r.hints(scope)[0] == "  "@ + scope
            + " · c:commit  S:stash  TAB:lazygit "@,
        !r.snapshot.dirty && r.snapshot.branch.behind > 0 ==> r.hints(scope)[0] == "  "@ + scope
            + " · p:pull  f:fetch  TAB:lazygit "@,
        !r.snapshot.dirty && r.snapshot.branch.behind == 0 && r.snapshot.branch.ahead > 0
            ==> r.hints(scope)[0] == "  "@ + scope + " · P:push  TAB:lazygit "@,
        !r.snapshot.dirty && r.snapshot.branch.behind == 0 && r.snapshot.branch.ahead == 0
            ==> r.hints(scope)[0] == "  m:mode  TAB:lazygit "@,
{
}

// ── The table ────────────────────────────────────────────────────────────────

/// The age of a repository is that of its last commit; one without a commit has none.
pub proof fn lemma_age_of_repository(r: RepoModel, clock: int, at: i128)
    ensures
        r.snapshot.last_modified == Some(at) ==> r.age_text(clock) == age(
            seconds_between(clock, at as int),
        ),
        r.snapshot.last_modified is None ==> r.age_text(clock) == ""@,
{
}

/// The messages have what the other columns leave, and eight cells at least.
pub proof fn lemma_messages_have_the_rest(c: ColWidths)
    ensures
        c.area_width >= 10 + c.repo_col_w + c.branch_col_w + c.age_col_w ==> message_width(c)
            == c.area_width - 2 - c.repo_col_w - c.branch_col_w - c.age_col_w,
        c.area_width < 10 + c.repo_col_w + c.branch_col_w + c.age_col_w ==> message_width(c) == 8,
{
}

/// The row of a worktree shows its label, and looks as the repository that it belongs to does; the
/// message is that of the repository.
pub proof fn lemma_worktree_rows_show(app: AppModel, i: int, c: ColWidths, k: int)
    requires
        0 <= i < app.wt_rows.len(),
        place(app.repos, app.wt_rows[i].repo_path) == Some(k),
    ensures
        ({
            let row = app.worktree_row(i, c);
            &&& row.cells.len() == 3
            &&& row.cells[1][0].text == truncated(app.wt_rows[i].wt_label, c.branch_col_w as nat)
            &&& row.cells[2][0].text == truncated(app.repos[k].row_message(), message_width(c))
            &&& row.style == app.repos[k].row_look(i == app.wt_cursor)
        }),
{
}

/// The rows shown are those from the first one on, one after the other.
pub proof fn lemma_rows_follow_each_other(
    app: AppModel,
    height: u16,
    c: ColWidths,
    clock: int,
    k: int,
)
    requires
        0 <= k < app.shown_rows(height, c, clock).len(),
    ensures
        !app.worktree_mode ==> app.shown_rows(height, c, clock)[k] == app.repo_row(
            app.shown_from() + k,
            c,
            clock,
        ),
        app.worktree_mode ==> app.shown_rows(height, c, clock)[k] == app.worktree_row(
            app.shown_from() + k,
            c,
        ),
{
}

/// A failed startup fetch is marked on an idle row that has nothing else to say.
pub proof fn lemma_failed_fetch_is_marked(r: RepoModel, name: Seq<char>, tick: u64, width: u16)
    requires
        !r.fetching,
        r.fetch_error is Some,
        r.state is Idle,
        !r.conflicted(),
        !r.local_work(),
    ensures
        r.marks_fetch_failure(tick),
        r.first_cell(name, false, tick, width)[1].text == "!"@,
{
}

// ── Popups ───────────────────────────────────────────────────────────────────

/// The text of some pieces in a row.
pub open spec fn text_of(spans: Seq<SpanModel>) -> Seq<char>
    decreases spans.len(),
{
    if spans.len() == 0 {
        Seq::empty()
    } else {
        text_of(spans.drop_last()) + spans.last().text
    }
}

/// A line of input is shown whole, with the character under the cursor reversed, or a space at its
/// end.
pub proof fn lemma_input_is_shown_whole(input: Seq<char>, at: int, style: Style)
    requires
        0 <= at <= input.len(),
    ensures
        at < input.len() ==> text_of(with_cursor(input, at, style)) == input,
        at == input.len() ==> text_of(with_cursor(input, at, style)) == input + " "@,
        with_cursor(input, at, style)[1].style.reversed,
        at < input.len() ==> with_cursor(input, at, style)[1].text == seq![input[at]],
{
    reveal_with_fuel(text_of, 4);
    let w = with_cursor(input, at, style);
    if at < input.len() {
        assert(w.drop_last().drop_last().drop_last() =~= Seq::<SpanModel>::empty());
        assert(w.last().text == input.skip(at + 1));
        assert(w.drop_last().last().text == seq![input[at]]);
        assert(w.drop_last().drop_last().last().text == input.take(at));
        assert(text_of(w) =~= input.take(at) + seq![input[at]] + input.skip(at + 1));
        assert(text_of(w) =~= input);
    } else {
        assert(w.drop_last().drop_last() =~= Seq::<SpanModel>::empty());
        assert(text_of(w) =~= input + " "@);
    }
}

/// A prompt says what it asks for, shows what was entered, and below that what is wrong with it.
pub proof fn lemma_prompt_shows(p: PromptModel, width: nat, count: nat, e: Seq<char>)
    ensures
        line_text(p, width)[0][0].text == p.kind.label_text(),
        p.error == Some(e) ==> line_text(p, width)[4][0].text == e,
        p.error is None ==> line_text(p, width)[4][0].text == ""@,
        count > 1 ==> prompt_title(p.kind, count) == p.kind.title_text() + " — "@ + decimal(count)
            + " repos"@,
        count <= 1 ==> prompt_title(p.kind, count) == p.kind.title_text(),
        input_height(PromptKind::Commit) == 14,
        input_height(PromptKind::WorktreeBranch) == 9,
        input_height(PromptKind::Stash) == 7,
{
}

/// The prompt of a worktree shows its branch and its path.
pub proof fn lemma_worktree_prompt_shows(p: PromptModel, width: nat)
    requires
        p.kind == PromptKind::WorktreeBranch,
    ensures
        worktree_text(p, width)[3][1].text == "Branch: "@,
        worktree_text(p, width)[4][1].text == "Path:   "@,
        p.in_second() ==> worktree_text(p, width)[3][2].text == p.input,
        p.in_second() ==> worktree_text(p, width)[4][2].text == shown(p.description) + "_"@,
        !p.in_second() ==> worktree_text(p, width)[4][2].text == shown(p.description),
{
}

/// The credentials dialog shows the repository, the user name, and a dot for each character of the
/// password.
pub proof fn lemma_credentials_dialog_shows(p: AuthModel, name: Seq<char>)
    ensures
        p.repo_name == Some(name) ==> auth_text(p)[0][1].text == name,
        p.repo_name is None ==> auth_text(p)[0][1].text == "?"@,
        auth_text(p)[2][1].text == shown_username(p),
        auth_text(p)[3][1].text == shown_password(p),
        p.field == CredentialField::Username ==> shown_password(p).len() == p.password.len(),
        p.field == CredentialField::Password ==> shown_password(p).len() == p.input.len() + 1,
{
    reveal_strlit("•");
    reveal_strlit("_");
    lemma_repeated_length("•"@, p.password.len());
    lemma_repeated_length("•"@, p.input.len());
    assert(p.password.len() * 1 == p.password.len()) by (nonlinear_arith);
    assert(p.input.len() * 1 == p.input.len()) by (nonlinear_arith);
}

/// Tab in the credentials dialog goes to the other field, and keeps what was entered in the one that
/// it leaves.
pub proof fn lemma_tab_keeps_credentials(p: AuthModel)
    ensures
        ({
            let q = p.after_key(crate::tui::key::KeyCode::Tab);
            &&& p.field == CredentialField::Username ==> q.field == CredentialField::Password
                && q.username == crate::chars::trimmed(p.input) && q.password == p.password
                && q.input.len() == 0
            &&& p.field == CredentialField::Password ==> q.field == CredentialField::Username
                && q.password == p.input && q.username == p.username && q.input == p.username
            &&& q.repo_path == p.repo_path && q.action == p.action
        }),
{
}

/// Text is pasted into the prompt, or else into the credentials dialog, of which it takes the first
/// line.
pub proof fn lemma_paste_goes_to(app: AppModel, text: Seq<char>, a: AuthModel)
    requires
        app.prompt is None,
    ensures
        app.auth_prompt == Some(a) ==> (app.after_paste(text).auth_prompt matches Some(b) && b.input
            == a.input + first_line(text) && b.field == a.field && b.username == a.username),
        app.auth_prompt is None ==> app.after_paste(text) == app,
        app.after_paste(text).outbox == app.outbox,
{
}

/// A panel tells where there is more of it, and shows its lines in between.
pub proof fn lemma_panel_tells_of_more(p: PanelModel, visible: int)
    requires
        visible > 0,
        p.scroll < p.lines.len(),
    ensures
        ({
            let b = p.body(visible);
            let above = if p.scroll > 0 {
                1int
            } else {
                0int
            };
            &&& p.scroll > 0 ==> b[0][0].text == "  ↑ more above"@
            &&& b[above] == p.shown_line(p.scroll as int)
            &&& p.scroll + visible < p.lines.len() ==> b.last()[0].text == "  ↓ more below"@
                && b.len() == above + visible + 1
            &&& p.scroll + visible >= p.lines.len() ==> b.len() == above + (p.lines.len()
                - p.scroll)
        }),
{
}

/// Areas within areas: without its margins an area is smaller by them on each side, and a dialog is as
/// wide as was asked, or four cells narrower than a narrow terminal.
pub proof fn lemma_areas_lie_within(area: Rect, h: int, v: int, width: int, height: int)
    requires
        area.wf(),
        0 <= h,
        0 <= v,
        0 <= width <= u16::MAX,
        0 <= height <= u16::MAX,
    ensures
        2 * h <= area.width && 2 * v <= area.height ==> {
            let i = inside(area, h, v);
            &&& i.x == area.x + h && i.y == area.y + v
            &&& i.width == area.width - 2 * h && i.height == area.height - 2 * v
        },
        area.width >= 4 && width + 4 <= area.width ==> dialog_area(width, height, area).width
            == width,
        area.width >= 4 && width + 4 > area.width ==> dialog_area(width, height, area).width
            == area.width - 4,
        area.width >= 68 && area.width <= 160 ==> panel_area(area).width == area.width * 3 / 4,
{
}

/// The head of a panel names the repository and its branch.
pub proof fn lemma_panel_head_names(app: AppModel, r: RepoModel)
    ensures
        app.current() == Some(r) ==> app.panel_head() == "  "@ + r.snapshot.name + "  "@
            + r.snapshot.branch.name,
        app.current() is None ==> app.panel_head().len() == 0,
{
}

// ── Names and the trace ──────────────────────────────────────────────────────

/// A repository goes by the name of its directory.
pub proof fn lemma_repository_goes_by_directory(dir: Seq<char>, name: Seq<char>)
    requires
        plain_name(name),
        !name.contains('\0'),
    ensures
        repository_name(child(dir, name)) == name,
{
    lemma_child_is_in_directory(dir, name);
}

/// A path without bytes that are no text is shown as it is, and one of a system without backslashes
/// between its parts is kept.
pub proof fn lemma_plain_paths_are_kept(path: Seq<char>)
    ensures
        !path.contains('\0') ==> shown(path) == path,
        slashed(path, false) == path,
        !path.contains('\\') ==> slashed(path, true) == path,
{
    if !path.contains('\\') {
        crate::chars::lemma_nothing_replaced(path, '\\', "/"@);
    }
}

/// A line of the trace tells the time, the directory, the code, the command and what it wrote.
pub proof fn lemma_trace_tells(time: nat, command: CommandModel, code: i32, output: Seq<char>)
    requires
        !output.contains('\n'),
        code >= 0,
    ensures
        traced(time, command, Some(code), output) == "["@ + decimal(time) + "] cwd="@ + shown(
            command.dir,
        ) + " code="@ + decimal(code as nat) + " cmd="@ + command.display() + " output="@ + output,
        traced(time, command, None, output) == "["@ + decimal(time) + "] cwd="@ + shown(command.dir)
            + " code="@ + "None"@ + " cmd="@ + command.display() + " output="@ + output,
{
    crate::chars::lemma_nothing_replaced(output, '\n', " | "@);
}

} // verus!
