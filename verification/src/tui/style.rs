//! Colors, styles, and pieces of styled text.

use vstd::prelude::*;
use vstd::string::*;

use crate::order::views_of;

verus! {

/// A color of the palette.
#[derive(Debug, Clone, Copy, PartialEq, Eq, Structural)]
pub enum Paint {
    White,
    Border,
    TitleBg,
    ModePullBg,
    ModeMergeBg,
    ModeRebaseBg,
    ModePushBg,
    ModeFetchBg,
    ModeDarkFg,
    SuccessFg,
    FailFg,
    QueuedFg,
    WorkingFg,
    ConflictFg,
    LocalFg,
    NoUpstreamFg,
    CredsFg,
    HelpFg,
    DimFg,
    NetFg,
    SelDefaultBg,
    SelSuccessBg,
    SelFailBg,
    SelConflictBg,
    SelLocalBg,
    SelNoUpstreamBg,
    SelCredsBg,
    SelWorkingBg,
    SelQueuedBg,
    PopupBg,
    PopupBorder,
    PopupTitle,
    SectionHdr,
    KeyFg,
    BranchCur,
    GaugeFg,
    GaugeBg,
    /// Vibrant green: commits to push.
    AheadFg,
    /// Amber: commits to pull.
    BehindFg,
    /// Muted: the age column.
    AgeFg,
    /// Muted purple: the stash badge.
    StashFg,
    /// Lavender: a notice in the status bar.
    NoticeFg,
    TooSmallBg,
    LoadingBg,
}

impl Paint {
    /// The red, green and blue of a color; white is the white of the terminal, and has none.
    pub open spec fn parts(self) -> Option<(u8, u8, u8)> {
        match self {
            Paint::White => None,
            Paint::Border => Some((70, 70, 90)),
            Paint::TitleBg => Some((62, 35, 150)),
            Paint::ModePullBg => Some((21, 101, 192)),
            Paint::ModeMergeBg => Some((0, 150, 136)),
            Paint::ModeRebaseBg => Some((46, 125, 50)),
            Paint::ModePushBg => Some((230, 190, 40)),
            Paint::ModeFetchBg => Some((21, 101, 192)),
            Paint::ModeDarkFg => Some((27, 27, 27)),
            Paint::SuccessFg => Some((102, 187, 106)),
            Paint::FailFg => Some((239, 83, 80)),
            Paint::QueuedFg => Some((66, 165, 245)),
            Paint::WorkingFg => Some((38, 198, 218)),
            Paint::ConflictFg => Some((180, 115, 55)),
            Paint::LocalFg => Some((255, 213, 79)),
            Paint::NoUpstreamFg => Some((110, 110, 130)),
            Paint::CredsFg => Some((171, 71, 188)),
            Paint::HelpFg => Some((140, 140, 160)),
            Paint::DimFg => Some((90, 90, 110)),
            Paint::NetFg => Some((130, 140, 150)),
            Paint::SelDefaultBg => Some((21, 101, 192)),
            Paint::SelSuccessBg => Some((27, 94, 32)),
            Paint::SelFailBg => Some((183, 28, 28)),
            Paint::SelConflictBg => Some((120, 68, 0)),
            Paint::SelLocalBg => Some((130, 100, 0)),
            Paint::SelNoUpstreamBg => Some((55, 55, 70)),
            Paint::SelCredsBg => Some((74, 20, 140)),
            Paint::SelWorkingBg => Some((0, 105, 120)),
            Paint::SelQueuedBg => Some((13, 71, 161)),
            Paint::PopupBg => Some((18, 18, 28)),
            Paint::PopupBorder => Some((100, 60, 200)),
            Paint::PopupTitle => Some((180, 140, 255)),
            Paint::SectionHdr => Some((130, 100, 230)),
            Paint::KeyFg => Some((100, 180, 255)),
            Paint::BranchCur => Some((77, 182, 172)),
            Paint::GaugeFg => Some((100, 60, 200)),
            Paint::GaugeBg => Some((40, 35, 55)),
            Paint::AheadFg => Some((102, 217, 131)),
            Paint::BehindFg => Some((255, 183, 77)),
            Paint::AgeFg => Some((95, 95, 115)),
            Paint::StashFg => Some((150, 100, 200)),
            Paint::NoticeFg => Some((179, 157, 219)),
            Paint::TooSmallBg => Some((150, 20, 20)),
            Paint::LoadingBg => Some((12, 12, 20)),
        }
    }

    /// The red, green and blue of a color; white is the white of the terminal, and has none.
    pub fn rgb(self) -> (r: Option<(u8, u8, u8)>)
        ensures
            r == self.parts(),
    {
        match self {
            Paint::White => None,
            Paint::Border => Some((70, 70, 90)),
            Paint::TitleBg => Some((62, 35, 150)),
            Paint::ModePullBg => Some((21, 101, 192)),
            Paint::ModeMergeBg => Some((0, 150, 136)),
            Paint::ModeRebaseBg => Some((46, 125, 50)),
            Paint::ModePushBg => Some((230, 190, 40)),
            Paint::ModeFetchBg => Some((21, 101, 192)),
            Paint::ModeDarkFg => Some((27, 27, 27)),
            Paint::SuccessFg => Some((102, 187, 106)),
            Paint::FailFg => Some((239, 83, 80)),
            Paint::QueuedFg => Some((66, 165, 245)),
            Paint::WorkingFg => Some((38, 198, 218)),
            Paint::ConflictFg => Some((180, 115, 55)),
            Paint::LocalFg => Some((255, 213, 79)),
            Paint::NoUpstreamFg => Some((110, 110, 130)),
            Paint::CredsFg => Some((171, 71, 188)),
            Paint::HelpFg => Some((140, 140, 160)),
            Paint::DimFg => Some((90, 90, 110)),
            Paint::NetFg => Some((130, 140, 150)),
            Paint::SelDefaultBg => Some((21, 101, 192)),
            Paint::SelSuccessBg => Some((27, 94, 32)),
            Paint::SelFailBg => Some((183, 28, 28)),
            Paint::SelConflictBg => Some((120, 68, 0)),
            Paint::SelLocalBg => Some((130, 100, 0)),
            Paint::SelNoUpstreamBg => Some((55, 55, 70)),
            Paint::SelCredsBg => Some((74, 20, 140)),
            Paint::SelWorkingBg => Some((0, 105, 120)),
            Paint::SelQueuedBg => Some((13, 71, 161)),
            Paint::PopupBg => Some((18, 18, 28)),
            Paint::PopupBorder => Some((100, 60, 200)),
            Paint::PopupTitle => Some((180, 140, 255)),
            Paint::SectionHdr => Some((130, 100, 230)),
            Paint::KeyFg => Some((100, 180, 255)),
            Paint::BranchCur => Some((77, 182, 172)),
            Paint::GaugeFg => Some((100, 60, 200)),
            Paint::GaugeBg => Some((40, 35, 55)),
            Paint::AheadFg => Some((102, 217, 131)),
            Paint::BehindFg => Some((255, 183, 77)),
            Paint::AgeFg => Some((95, 95, 115)),
            Paint::StashFg => Some((150, 100, 200)),
            Paint::NoticeFg => Some((179, 157, 219)),
            Paint::TooSmallBg => Some((150, 20, 20)),
            Paint::LoadingBg => Some((12, 12, 20)),
        }
    }
}

/// How a piece of text looks; a color that is not given is that of the terminal, or of what lies
/// below.
#[derive(Debug, Clone, Copy, PartialEq, Eq, Structural)]
pub struct Style {
    pub fg: Option<Paint>,
    pub bg: Option<Paint>,
    pub bold: bool,
    pub underlined: bool,
    pub reversed: bool,
}

/// Nothing in particular.
pub open spec fn unstyled() -> Style {
    Style { fg: None, bg: None, bold: false, underlined: false, reversed: false }
}

/// In the color `fg`.
pub open spec fn colored(fg: Paint) -> Style {
    Style { fg: Some(fg), ..unstyled() }
}

/// Bold in the color `fg`.
pub open spec fn bold(fg: Paint) -> Style {
    Style { fg: Some(fg), bold: true, ..unstyled() }
}

/// Bold in the color `fg` on `bg`.
pub open spec fn bold_on(fg: Paint, bg: Paint) -> Style {
    Style { fg: Some(fg), bg: Some(bg), bold: true, ..unstyled() }
}

impl Style {
    /// Nothing in particular.
    pub fn plain() -> (r: Self)
        ensures
            r == unstyled(),
    {
        Style { fg: None, bg: None, bold: false, underlined: false, reversed: false }
    }

    /// In the color `fg`.
    pub fn color(fg: Paint) -> (r: Self)
        ensures
            r == colored(fg),
    {
        Style { fg: Some(fg), bg: None, bold: false, underlined: false, reversed: false }
    }

    /// Bold in the color `fg`.
    pub fn strong(fg: Paint) -> (r: Self)
        ensures
            r == bold(fg),
    {
        Style { fg: Some(fg), bg: None, bold: true, underlined: false, reversed: false }
    }

    /// Bold in the color `fg` on `bg`.
    pub fn strong_on(fg: Paint, bg: Paint) -> (r: Self)
        ensures
            r == bold_on(fg, bg),
    {
        Style { fg: Some(fg), bg: Some(bg), bold: true, underlined: false, reversed: false }
    }
}

/// A piece of text in one style.
#[derive(Debug)]
pub struct Span {
    pub text: String,
    pub style: Style,
}

/// A piece with its text as a sequence of characters.
#[verifier::ext_equal]
pub struct SpanModel {
    pub text: Seq<char>,
    pub style: Style,
}

impl View for Span {
    type V = SpanModel;

    open spec fn view(&self) -> SpanModel {
        SpanModel { text: self.text@, style: self.style }
    }
}

/// A piece of text.
pub open spec fn piece(text: Seq<char>, style: Style) -> SpanModel {
    SpanModel { text, style }
}

/// Appends a piece of text to a line.
pub fn push_span(line: &mut Vec<Span>, text: &str, style: Style)
    ensures
        views_of(final(line)@) == views_of(old(line)@).push(piece(text@, style)),
{
    let ghost before = views_of(line@);
    line.push(Span { text: text.to_owned(), style });
    proof {
        assert(views_of(line@) =~= before.push(piece(text@, style)));
    }
}

/// A copy of a piece of text.
pub fn copy_span(s: &Span) -> (r: Span)
    ensures
        r@ == s@,
{
    Span { text: s.text.clone(), style: s.style }
}

/// A line of styled text.
#[derive(Debug)]
pub struct Line {
    pub spans: Vec<Span>,
}

impl View for Line {
    type V = Seq<SpanModel>;

    open spec fn view(&self) -> Seq<SpanModel> {
        views_of(self.spans@)
    }
}

impl Line {
    /// A line of one piece.
    pub fn one(text: &str, style: Style) -> (r: Self)
        ensures
            r@ == seq![piece(text@, style)],
    {
        let mut spans: Vec<Span> = Vec::new();
        proof {
            assert(views_of(spans@) =~= Seq::<SpanModel>::empty());
        }
        push_span(&mut spans, text, style);
        proof {
            assert(views_of(spans@) =~= seq![piece(text@, style)]);
        }
        Line { spans }
    }

    /// A line of two pieces.
    pub fn two(a: &str, style_a: Style, b: &str, style_b: Style) -> (r: Self)
        ensures
            r@ == seq![piece(a@, style_a), piece(b@, style_b)],
    {
        let mut spans: Vec<Span> = Vec::new();
        proof {
            assert(views_of(spans@) =~= Seq::<SpanModel>::empty());
        }
        push_span(&mut spans, a, style_a);
        push_span(&mut spans, b, style_b);
        proof {
            assert(views_of(spans@) =~= seq![piece(a@, style_a), piece(b@, style_b)]);
        }
        Line { spans }
    }

    /// An empty line.
    pub fn empty() -> (r: Self)
        ensures
            r@ == blank_line(),
    {
        Line::one("", Style::plain())
    }
}

/// An empty line.
pub open spec fn blank_line() -> Seq<SpanModel> {
    seq![piece(""@, unstyled())]
}

/// Appends a line to a list.
pub fn push_line(list: &mut Vec<Line>, line: Line)
    ensures
        views_of(final(list)@) == views_of(old(list)@).push(line@),
{
    let ghost before = views_of(list@);
    let ghost model = line@;
    list.push(line);
    proof {
        assert(views_of(list@) =~= before.push(model));
    }
}

/// A copy of a line.
pub fn copy_line(l: &Line) -> (r: Line)
    ensures
        r@ == l@,
{
    let mut spans: Vec<Span> = Vec::new();
    for i in 0..l.spans.len()
        invariant
            spans@.len() == i,
            forall|j: int| 0 <= j < i ==> (#[trigger] spans@[j])@ == l.spans@[j]@,
    {
        spans.push(copy_span(&l.spans[i]));
    }
    proof {
        assert(views_of(spans@) =~= l@);
    }
    Line { spans }
}

/// The name of a key, in a hint.
pub open spec fn key_piece(text: Seq<char>) -> SpanModel {
    piece(text, bold(Paint::KeyFg))
}

/// What a key does, in a hint.
pub open spec fn hint_piece(text: Seq<char>) -> SpanModel {
    piece(text, colored(Paint::HelpFg))
}

/// Appends the name of a key and what it does.
pub fn push_hint(line: &mut Vec<Span>, key: &str, does: &str)
    ensures
        views_of(final(line)@) == views_of(old(line)@) + seq![key_piece(key@), hint_piece(does@)],
{
    let ghost before = views_of(line@);
    push_span(line, key, Style::strong(Paint::KeyFg));
    push_span(line, does, Style::color(Paint::HelpFg));
    proof {
        assert(views_of(line@) =~= before + seq![key_piece(key@), hint_piece(does@)]);
    }
}

} // verus!
