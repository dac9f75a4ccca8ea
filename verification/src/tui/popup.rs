//! The popups: where they stand, and what they say.

use vstd::prelude::*;
use vstd::string::*;

use crate::chars::{cat2, cat4, char_count, chars_of, lines, repeat, repeated, split_lines, texts};
use crate::native::{show, shown};
use crate::numbers::{decimal, decimal_usize};
use crate::offsets::{boundary, index_at, index_of_offset};
use crate::order::views_of;
use crate::tui::area::{dialog_area, dialog_rect, inner_rect, inside, minus, Rect};
use crate::tui::dialog::{
    AuthModel, AuthPromptState, ConfirmAction, ConfirmModel, ConfirmPromptState, CredentialField,
};
use crate::tui::prompt::{CommitField, PromptKind, PromptModel, PromptState};
use crate::tui::style::{
    blank_line, bold, colored, hint_piece, key_piece, piece, push_hint, push_line, push_span, Line,
    Paint, Span, SpanModel, Style,
};

verus! {

// ── Confirm dialog ───────────────────────────────────────────────────────────

/// The keys of a confirm dialog.
pub open spec fn confirm_hint(p: ConfirmModel) -> Seq<SpanModel> {
    if p.action is ResetToUpstream {
        seq![
            key_piece("y / Enter"@),
            hint_piece("  mixed reset    "@),
            key_piece("H"@),
            hint_piece("  hard reset    "@),
            key_piece("n / Esc"@),
            hint_piece("  cancel"@),
        ]
    } else {
        seq![
            key_piece("y / Enter"@),
            hint_piece("  confirm    "@),
            key_piece("n / Esc"@),
            hint_piece("  cancel"@),
        ]
    }
}

/// The lines of a confirm dialog.
pub open spec fn confirm_text(p: ConfirmModel) -> Seq<Seq<SpanModel>> {
    seq![
        seq![piece(p.subject, bold(Paint::White))],
        blank_line(),
        seq![piece(p.warning, colored(Paint::FailFg))],
        blank_line(),
        confirm_hint(p),
    ]
}

/// The lines of a confirm dialog.
fn confirm_lines(prompt: &ConfirmPromptState) -> (r: Vec<Line>)
    ensures
        views_of(r@) == confirm_text(prompt@),
{
    let mut out: Vec<Line> = Vec::new();
    out.push(Line::one(prompt.subject.as_str(), Style::strong(Paint::White)));
    out.push(Line::empty());
    out.push(Line::one(prompt.warning.as_str(), Style::color(Paint::FailFg)));
    out.push(Line::empty());
    let mut hint: Vec<Span> = Vec::new();
    proof {
        assert(views_of(hint@) =~= Seq::<SpanModel>::empty());
    }
    if matches!(prompt.action, ConfirmAction::ResetToUpstream { .. }) {
        push_hint(&mut hint, "y / Enter", "  mixed reset    ");
        push_hint(&mut hint, "H", "  hard reset    ");
    } else {
        push_hint(&mut hint, "y / Enter", "  confirm    ");
    }
    push_hint(&mut hint, "n / Esc", "  cancel");
    proof {
        assert(views_of(hint@) =~= confirm_hint(prompt@));
    }
    out.push(Line { spans: hint });
    proof {
        assert(views_of(out@) =~= confirm_text(prompt@));
    }
    out
}

// ── Credentials dialog ───────────────────────────────────────────────────────

/// How a field looks, which is being edited or not.
pub open spec fn field_style(active: bool) -> Style {
    if active {
        bold(Paint::White)
    } else {
        colored(Paint::HelpFg)
    }
}

/// How a field looks, which is being edited or not.
fn style_of_field(active: bool) -> (r: Style)
    ensures
        r == field_style(active),
{
    if active {
        Style::strong(Paint::White)
    } else {
        Style::color(Paint::HelpFg)
    }
}

/// The user name as it is shown.
pub open spec fn shown_username(p: AuthModel) -> Seq<char> {
    if p.field == CredentialField::Username {
        p.input + "_"@
    } else {
        p.username
    }
}

/// The password as it is shown: a dot for each character.
pub open spec fn shown_password(p: AuthModel) -> Seq<char> {
    if p.field == CredentialField::Password {
        repeated("•"@, p.input.len()) + "_"@
    } else {
        repeated("•"@, p.password.len())
    }
}

/// The lines of the credentials dialog.
pub open spec fn auth_text(p: AuthModel) -> Seq<Seq<SpanModel>> {
    let repo = match p.repo_name {
        Some(name) => name,
        None => "?"@,
    };
    seq![
        seq![piece("Repository: "@, colored(Paint::HelpFg)), piece(repo, bold(Paint::White))],
        blank_line(),
        seq![
            piece("  Username  "@, colored(Paint::HelpFg)),
            piece(shown_username(p), field_style(p.field == CredentialField::Username)),
        ],
        seq![
            piece("  Password  "@, colored(Paint::HelpFg)),
            piece(shown_password(p), field_style(p.field == CredentialField::Password)),
        ],
        blank_line(),
        seq![
            key_piece("Tab"@),
            hint_piece(" switch  "@),
            key_piece("Enter"@),
            hint_piece(" submit  "@),
            key_piece("Esc"@),
            hint_piece(" cancel"@),
        ],
    ]
}

/// The lines of the credentials dialog.
fn auth_lines(prompt: &AuthPromptState) -> (r: Vec<Line>)
    ensures
        views_of(r@) == auth_text(prompt@),
{
    let on_user = matches!(prompt.field, CredentialField::Username);
    let on_pass = matches!(prompt.field, CredentialField::Password);
    let user = if on_user {
        cat2(prompt.input.as_str(), "_")
    } else {
        prompt.username.clone()
    };
    let pass = if on_pass {
        let dots = repeat("•", char_count(prompt.input.as_str()));
        cat2(dots.as_str(), "_")
    } else {
        repeat("•", char_count(prompt.password.as_str()))
    };
    let repo = match &prompt.repo_name {
        Some(name) => name.as_str(),
        None => "?",
    };
    let mut out: Vec<Line> = Vec::new();
    out.push(
        Line::two(
            "Repository: ",
            Style::color(Paint::HelpFg),
            repo,
            Style::strong(Paint::White),
        ),
    );
    out.push(Line::empty());
    out.push(
        Line::two(
            "  Username  ",
            Style::color(Paint::HelpFg),
            user.as_str(),
            style_of_field(on_user),
        ),
    );
    out.push(
        Line::two(
            "  Password  ",
            Style::color(Paint::HelpFg),
            pass.as_str(),
            style_of_field(on_pass),
        ),
    );
    out.push(Line::empty());
    let mut hint: Vec<Span> = Vec::new();
    proof {
        assert(views_of(hint@) =~= Seq::<SpanModel>::empty());
    }
    push_hint(&mut hint, "Tab", " switch  ");
    push_hint(&mut hint, "Enter", " submit  ");
    push_hint(&mut hint, "Esc", " cancel");
    out.push(Line { spans: hint });
    proof {
        assert(views_of(hint@) =~= auth_text(prompt@)[5]);
        assert(views_of(out@) =~= auth_text(prompt@));
    }
    out
}

/// No character of a password is ever shown.
pub proof fn lemma_password_is_hidden(p: AuthModel, i: int)
    requires
        0 <= i < shown_password(p).len(),
    ensures
        shown_password(p)[i] == '•' || shown_password(p)[i] == '_',
{
    reveal_strlit("•");
    reveal_strlit("_");
    lemma_dots(p.input.len());
    lemma_dots(p.password.len());
}

/// Repeated dots are dots.
proof fn lemma_dots(n: nat)
    ensures
        forall|i: int| 0 <= i < repeated("•"@, n).len() ==> #[trigger] repeated("•"@, n)[i] == '•',
    decreases n,
{
    reveal_strlit("•");
    if n > 0 {
        let before = repeated("•"@, (n - 1) as nat);
        lemma_dots((n - 1) as nat);
        assert(repeated("•"@, n) == before + "•"@);
        assert("•"@.len() == 1 && "•"@[0] == '•');
    }
}

// ── Cursor ───────────────────────────────────────────────────────────────────

/// `style` in reversed video.
pub open spec fn inverted(style: Style) -> Style {
    Style { reversed: true, ..style }
}

/// A line of input with the cursor at index `at`, in reversed video; at the end it is a space.
pub open spec fn with_cursor(input: Seq<char>, at: int, style: Style) -> Seq<SpanModel> {
    if at < input.len() {
        seq![
            piece(input.take(at), style),
            piece(seq![input[at]], inverted(style)),
            piece(input.skip(at + 1), style),
        ]
    } else {
        seq![piece(input, style), piece(" "@, inverted(style))]
    }
}

/// Render `input` with a reversed-video cursor at byte offset `cursor`, and append it to `line`.
fn push_cursor_spans(line: &mut Vec<Span>, input: &str, cursor: usize, style: Style)
    requires
        boundary(input@, cursor as int),
    ensures
        views_of(final(line)@) == views_of(old(line)@) + with_cursor(
            input@,
            index_at(input@, cursor as int),
            style,
        ),
{
    let ghost before = views_of(line@);
    let cs = chars_of(input);
    let k = index_of_offset(&cs, cursor);
    let n = cs.len();
    let reversed = Style {
        fg: style.fg,
        bg: style.bg,
        bold: style.bold,
        underlined: style.underlined,
        reversed: true,
    };
    if k < n {
        let left = input.substring_char(0, k);
        let at = input.substring_char(k, k + 1);
        let right = input.substring_char(k + 1, n);
        proof {
            assert(left@ =~= input@.take(k as int));
            assert(at@ =~= seq![input@[k as int]]);
            assert(right@ =~= input@.skip(k + 1));
        }
        push_span(line, left, style);
        push_span(line, at, reversed);
        push_span(line, right, style);
    } else {
        push_span(line, input, style);
        push_span(line, " ", reversed);
    }
    proof {
        assert(views_of(line@) =~= before + with_cursor(input@, k as int, style));
    }
}

// ── Prompt ───────────────────────────────────────────────────────────────────

/// The title of a prompt, with the number of repositories where there are several.
pub open spec fn prompt_title(kind: PromptKind, count: nat) -> Seq<char> {
    if count > 1 {
        kind.title_text() + " — "@ + decimal(count) + " repos"@
    } else {
        kind.title_text()
    }
}

/// The title of a prompt, with the number of repositories where there are several.
fn input_title(kind: PromptKind, count: usize) -> (r: String)
    ensures
        r@ == prompt_title(kind, count as nat),
{
    if count > 1 {
        let n = decimal_usize(count);
        cat4(kind.title(), " — ", n.as_str(), " repos")
    } else {
        kind.title().to_owned()
    }
}

/// The description of a commit as it is shown: its last four lines.
pub open spec fn shown_description(p: PromptModel) -> Seq<Seq<char>> {
    let text = if p.commit_field == CommitField::Subject {
        p.description
    } else {
        p.description + "_"@
    };
    if text.len() == 0 {
        seq![""@]
    } else if lines(text).len() > 4 {
        lines(text).skip(lines(text).len() - 4)
    } else {
        lines(text)
    }
}

/// The lines of a commit prompt.
pub open spec fn commit_text(p: PromptModel) -> Seq<Seq<SpanModel>> {
    let on_subject = p.commit_field == CommitField::Subject;
    let header = colored(Paint::SectionHdr);
    let shown = shown_description(p);
    let style = field_style(!on_subject);
    let subject = seq![
        piece(
            if on_subject {
                "> "@
            } else {
                "  "@
            },
            header,
        ),
        piece("Summary:     "@, header),
    ] + (if on_subject {
        with_cursor(p.input, p.at, field_style(true))
    } else {
        seq![piece(p.input, field_style(false))]
    });
    let description = seq![
        piece(
            if on_subject {
                "  "@
            } else {
                "> "@
            },
            header,
        ),
        piece("Description:"@, header),
    ];
    seq![subject, blank_line(), description] + shown.map_values(
        |l: Seq<char>| seq![piece("  "@ + l, style)],
    ) + Seq::new(minus(4, shown.len() as int) as nat, |i: int| blank_line()) + seq![
        blank_line(),
        if on_subject {
            seq![
                key_piece("Enter"@),
                hint_piece(" commit  "@),
                key_piece("Tab"@),
                hint_piece(" description  "@),
                key_piece("Esc"@),
                hint_piece(" cancel"@),
            ]
        } else {
            seq![
                key_piece("Tab"@),
                hint_piece(" summary  "@),
                key_piece("Esc"@),
                hint_piece(" cancel"@),
            ]
        },
    ]
}

/// The lines of a prompt of one line, `width` cells wide.
pub open spec fn line_text(p: PromptModel, width: nat) -> Seq<Seq<SpanModel>> {
    let active = field_style(true);
    seq![
        seq![piece(p.kind.label_text(), colored(Paint::SectionHdr))],
        seq![piece(repeated("─"@, width), colored(Paint::Border))],
        blank_line(),
        seq![piece("> "@, active)] + with_cursor(p.input, p.at, active),
        match p.error {
            Some(e) => seq![piece(e, colored(Paint::FailFg))],
            None => blank_line(),
        },
        seq![
            key_piece("Enter"@),
            hint_piece(" confirm  "@),
            key_piece("Esc"@),
            hint_piece(" cancel"@),
        ],
    ]
}

/// The mark before a field that is being edited, or the room for it.
pub open spec fn field_mark(active: bool) -> Seq<char> {
    if active {
        "> "@
    } else {
        "  "@
    }
}

/// The lines of a worktree prompt, `width` cells wide: its branch and its path.
pub open spec fn worktree_text(p: PromptModel, width: nat) -> Seq<Seq<SpanModel>> {
    let on_branch = p.commit_field == CommitField::Subject;
    let header = colored(Paint::SectionHdr);
    seq![
        seq![piece(p.kind.label_text(), header)],
        seq![piece(repeated("─"@, width), colored(Paint::Border))],
        blank_line(),
        seq![piece(field_mark(on_branch), header), piece("Branch: "@, header)] + (if on_branch {
            with_cursor(p.input, p.at, field_style(true))
        } else {
            seq![piece(p.input, field_style(false))]
        }),
        seq![
            piece(field_mark(!on_branch), header),
            piece("Path:   "@, header),
            piece(
                if on_branch {
                    shown(p.description)
                } else {
                    shown(p.description) + "_"@
                },
                field_style(!on_branch),
            ),
        ],
        match p.error {
            Some(e) => seq![piece(e, colored(Paint::FailFg))],
            None => blank_line(),
        },
        seq![
            key_piece("Enter"@),
            hint_piece(" create  "@),
            key_piece("Tab"@),
            hint_piece(
                if on_branch {
                    " path  "@
                } else {
                    " branch  "@
                },
            ),
            key_piece("Esc"@),
            hint_piece(" cancel"@),
        ],
    ]
}

/// The lines of a prompt, `width` cells wide.
pub open spec fn prompt_text(p: PromptModel, width: nat) -> Seq<Seq<SpanModel>> {
    match p.kind {
        PromptKind::Commit => commit_text(p),
        PromptKind::WorktreeBranch => worktree_text(p, width),
        _ => line_text(p, width),
    }
}

/// The description of a commit as it is shown: its last four lines.
fn description_lines(prompt: &PromptState) -> (r: Vec<String>)
    ensures
        texts(r@) == shown_description(prompt@),
{
    let text = if matches!(prompt.commit_field, CommitField::Subject) {
        prompt.description.clone()
    } else {
        cat2(prompt.description.as_str(), "_")
    };
    let mut out: Vec<String> = Vec::new();
    if text.as_str().is_empty() {
        out.push("".to_owned());
        proof {
            assert(texts(out@) =~= shown_description(prompt@));
        }
        return out;
    }
    let all = split_lines(text.as_str());
    let start: usize = if all.len() > 4 {
        all.len() - 4
    } else {
        0
    };
    for i in start..all.len()
        invariant
            start <= all@.len(),
            out@.len() == i - start,
            forall|j: int| 0 <= j < out@.len() ==> (#[trigger] out@[j])@ == all@[j + start]@,
    {
        out.push(all[i].clone());
    }
    proof {
        assert(texts(out@) =~= texts(all@).skip(start as int));
        assert(texts(all@).skip(0) =~= texts(all@));
    }
    out
}

/// The lines of a commit prompt.
#[verifier::rlimit(40)]
fn commit_lines(prompt: &PromptState) -> (r: Vec<Line>)
    requires
        prompt.wf(),
    ensures
        views_of(r@) == commit_text(prompt@),
{
    let ghost p = prompt@;
    let on_subject = matches!(prompt.commit_field, CommitField::Subject);
    let header = Style::color(Paint::SectionHdr);
    let mut out: Vec<Line> = Vec::new();
    let mut subject: Vec<Span> = Vec::new();
    proof {
        assert(views_of(out@) =~= Seq::<Seq<SpanModel>>::empty());
        assert(views_of(subject@) =~= Seq::<SpanModel>::empty());
    }
    push_span(
        &mut subject,
        if on_subject {
            "> "
        } else {
            "  "
        },
        header,
    );
    push_span(&mut subject, "Summary:     ", header);
    if on_subject {
        push_cursor_spans(&mut subject, prompt.input.as_str(), prompt.cursor, style_of_field(true));
    } else {
        push_span(&mut subject, prompt.input.as_str(), style_of_field(false));
    }
    proof {
        assert(views_of(subject@) =~= commit_text(p)[0]);
    }
    push_line(&mut out, Line { spans: subject });
    push_line(&mut out, Line::empty());
    push_line(
        &mut out,
        Line::two(
            if on_subject {
                "  "
            } else {
                "> "
            },
            header,
            "Description:",
            header,
        ),
    );
    let ghost head = views_of(out@);
    let shown = description_lines(prompt);
    let ghost all = shown_description(p);
    let style = style_of_field(!on_subject);
    let ghost f = |l: Seq<char>| seq![piece("  "@ + l, style)];
    let n = shown.len();
    proof {
        assert(head + all.map_values(f).take(0) =~= head);
    }
    for i in 0..n
        invariant
            n == shown@.len(),
            all == texts(shown@),
            f == (|l: Seq<char>| seq![piece("  "@ + l, style)]),
            views_of(out@) == head + all.map_values(f).take(i as int),
    {
        proof {
            assert(all[i as int] == shown@[i as int]@);
            assert(all.map_values(f).take(i + 1) =~= all.map_values(f).take(i as int).push(
                f(all[i as int]),
            ));
            assert(head + all.map_values(f).take(i as int).push(f(all[i as int])) =~= (head
                + all.map_values(f).take(i as int)).push(f(all[i as int])));
        }
        let text = cat2("  ", shown[i].as_str());
        push_line(&mut out, Line::one(text.as_str(), style));
    }
    let ghost body = views_of(out@);
    proof {
        assert(all.map_values(f).take(n as int) =~= all.map_values(f));
        assert(body == head + all.map_values(f));
    }
    let ghost blanks = |k: nat| Seq::new(k, |i: int| blank_line());
    let mut k: usize = 0;
    proof {
        assert(body + blanks(0) =~= body);
    }
    while n + k < 4
        invariant
            n == all.len(),
            n + k <= 4 || k == 0,
            blanks == (|k: nat| Seq::new(k, |i: int| blank_line())),
            views_of(out@) == body + blanks(k as nat),
        decreases 4 - n - k,
    {
        push_line(&mut out, Line::empty());
        proof {
            assert(body + blanks((k + 1) as nat) =~= (body + blanks(k as nat)).push(blank_line()));
        }
        k = k + 1;
    }
    proof {
        assert(k == minus(4, all.len() as int));
    }
    push_line(&mut out, Line::empty());
    let mut hint: Vec<Span> = Vec::new();
    proof {
        assert(views_of(hint@) =~= Seq::<SpanModel>::empty());
    }
    if on_subject {
        push_hint(&mut hint, "Enter", " commit  ");
        push_hint(&mut hint, "Tab", " description  ");
        push_hint(&mut hint, "Esc", " cancel");
    } else {
        push_hint(&mut hint, "Tab", " summary  ");
        push_hint(&mut hint, "Esc", " cancel");
    }
    let ghost keys = views_of(hint@);
    proof {
        assert(keys =~= commit_text(p).last());
    }
    push_line(&mut out, Line { spans: hint });
    proof {
        assert(head =~= commit_text(p).take(3));
        assert(views_of(out@) =~= commit_text(p));
    }
    out
}

/// The mark before a field that is being edited, or the room for it.
fn mark_of_field(active: bool) -> (r: &'static str)
    ensures
        r@ == field_mark(active),
{
    if active {
        "> "
    } else {
        "  "
    }
}

/// The line under the input: what is wrong with it, if anything.
fn error_line(prompt: &PromptState) -> (r: Line)
    ensures
        r@ == (match prompt@.error {
            Some(e) => seq![piece(e, colored(Paint::FailFg))],
            None => blank_line(),
        }),
{
    match prompt.error {
        Some(e) => Line::one(e, Style::color(Paint::FailFg)),
        None => Line::empty(),
    }
}

/// The lines of a worktree prompt, `width` cells wide: its branch and its path.
fn worktree_lines(prompt: &PromptState, width: u16) -> (r: Vec<Line>)
    requires
        prompt.wf(),
    ensures
        views_of(r@) == worktree_text(prompt@, width as nat),
{
    let ghost p = prompt@;
    let on_branch = matches!(prompt.commit_field, CommitField::Subject);
    let header = Style::color(Paint::SectionHdr);
    let mut out: Vec<Line> = Vec::new();
    out.push(Line::one(prompt.kind.label(), header));
    let rule = repeat("─", width as usize);
    out.push(Line::one(rule.as_str(), Style::color(Paint::Border)));
    out.push(Line::empty());
    let mut branch: Vec<Span> = Vec::new();
    let mut path: Vec<Span> = Vec::new();
    let mut hint: Vec<Span> = Vec::new();
    proof {
        assert(views_of(branch@) =~= Seq::<SpanModel>::empty());
        assert(views_of(path@) =~= Seq::<SpanModel>::empty());
        assert(views_of(hint@) =~= Seq::<SpanModel>::empty());
    }
    push_span(&mut branch, mark_of_field(on_branch), header);
    push_span(&mut branch, "Branch: ", header);
    if on_branch {
        push_cursor_spans(&mut branch, prompt.input.as_str(), prompt.cursor, style_of_field(true));
    } else {
        push_span(&mut branch, prompt.input.as_str(), style_of_field(false));
    }
    proof {
        assert(views_of(branch@) =~= worktree_text(p, width as nat)[3]);
    }
    out.push(Line { spans: branch });
    push_span(&mut path, mark_of_field(!on_branch), header);
    push_span(&mut path, "Path:   ", header);
    let text = show(prompt.description.as_str());
    let text = if on_branch {
        text
    } else {
        cat2(text.as_str(), "_")
    };
    push_span(&mut path, text.as_str(), style_of_field(!on_branch));
    proof {
        assert(views_of(path@) =~= worktree_text(p, width as nat)[4]);
    }
    out.push(Line { spans: path });
    out.push(error_line(prompt));
    push_hint(&mut hint, "Enter", " create  ");
    push_hint(
        &mut hint,
        "Tab",
        if on_branch {
            " path  "
        } else {
            " branch  "
        },
    );
    push_hint(&mut hint, "Esc", " cancel");
    proof {
        assert(views_of(hint@) =~= worktree_text(p, width as nat)[6]);
    }
    out.push(Line { spans: hint });
    proof {
        assert(views_of(out@) =~= worktree_text(p, width as nat));
    }
    out
}

/// The lines of a prompt, `width` cells wide.
fn input_lines(prompt: &PromptState, width: u16) -> (r: Vec<Line>)
    requires
        prompt.wf(),
    ensures
        views_of(r@) == prompt_text(prompt@, width as nat),
{
    if matches!(prompt.kind, PromptKind::Commit) {
        return commit_lines(prompt);
    }
    if matches!(prompt.kind, PromptKind::WorktreeBranch) {
        return worktree_lines(prompt, width);
    }
    let ghost p = prompt@;
    let active = style_of_field(true);
    let mut out: Vec<Line> = Vec::new();
    out.push(Line::one(prompt.kind.label(), Style::color(Paint::SectionHdr)));
    let rule = repeat("─", width as usize);
    out.push(Line::one(rule.as_str(), Style::color(Paint::Border)));
    out.push(Line::empty());
    let mut input: Vec<Span> = Vec::new();
    proof {
        assert(views_of(input@) =~= Seq::<SpanModel>::empty());
    }
    push_span(&mut input, "> ", active);
    push_cursor_spans(&mut input, prompt.input.as_str(), prompt.cursor, active);
    proof {
        assert(views_of(input@) =~= line_text(p, width as nat)[3]);
    }
    out.push(Line { spans: input });
    out.push(error_line(prompt));
    let mut hint: Vec<Span> = Vec::new();
    proof {
        assert(views_of(hint@) =~= Seq::<SpanModel>::empty());
    }
    push_hint(&mut hint, "Enter", " confirm  ");
    push_hint(&mut hint, "Esc", " cancel");
    proof {
        assert(views_of(hint@) =~= line_text(p, width as nat)[5]);
    }
    out.push(Line { spans: hint });
    proof {
        assert(views_of(out@) =~= line_text(p, width as nat));
    }
    out
}

/// The height of the popup of a prompt.
pub open spec fn input_height(kind: PromptKind) -> int {
    match kind {
        PromptKind::Commit => 14,
        PromptKind::WorktreeBranch => 9,
        _ => 7,
    }
}

/// A commit prompt is as many lines high whichever field is edited and however long the
/// description is, so that its hint stays in place.
pub proof fn lemma_commit_prompt_keeps_height(p: PromptModel)
    ensures
        shown_description(p).len() <= 4,
        commit_text(p).len() == 9,
{
}

// ── Popups ───────────────────────────────────────────────────────────────────

/// A dialog as it is shown: its box, the area within, its title and its lines.
#[derive(Debug)]
pub struct DialogView {
    pub frame: Rect,
    pub inner: Rect,
    pub title: String,
    pub lines: Vec<Line>,
}

/// A confirm dialog in `area`.
pub fn draw_confirm_popup(area: Rect, prompt: &ConfirmPromptState) -> (r: DialogView)
    requires
        area.wf(),
    ensures
        r.frame == dialog_area(60, 8, area),
        r.inner == inside(r.frame, 2, 1),
        r.title@ == prompt@.title,
        views_of(r.lines@) == confirm_text(prompt@),
{
    let frame = dialog_rect(60, 8, area);
    DialogView {
        frame,
        inner: inner_rect(frame, 2, 1),
        title: prompt.title.to_owned(),
        lines: confirm_lines(prompt),
    }
}

/// The credentials dialog in `area`.
pub fn draw_auth_popup(area: Rect, prompt: &AuthPromptState) -> (r: DialogView)
    requires
        area.wf(),
    ensures
        r.frame == dialog_area(58, 11, area),
        r.inner == inside(r.frame, 2, 1),
        r.title@ == "Credentials Required"@,
        views_of(r.lines@) == auth_text(prompt@),
{
    let frame = dialog_rect(58, 11, area);
    DialogView {
        frame,
        inner: inner_rect(frame, 2, 1),
        title: "Credentials Required".to_owned(),
        lines: auth_lines(prompt),
    }
}

/// A prompt in `area`, whose answer goes to `target_count` repositories.
pub fn draw_input_popup(area: Rect, prompt: &PromptState, target_count: usize) -> (r: DialogView)
    requires
        area.wf(),
        prompt.wf(),
    ensures
        r.frame == dialog_area(64, input_height(prompt@.kind), area),
        r.inner == inside(r.frame, 2, 1),
        r.title@ == prompt_title(prompt@.kind, target_count as nat),
        views_of(r.lines@) == prompt_text(prompt@, r.inner.width as nat),
{
    let height: u16 = match prompt.kind {
        PromptKind::Commit => 14,
        PromptKind::WorktreeBranch => 9,
        _ => 7,
    };
    let frame = dialog_rect(64, height, area);
    let inner = inner_rect(frame, 2, 1);
    DialogView {
        frame,
        inner,
        title: input_title(prompt.kind, target_count),
        lines: input_lines(prompt, inner.width),
    }
}

} // verus!
