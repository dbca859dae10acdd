//! Styled text, with its colours named rather than computed.
//!
//! A colour is a role in the theme, or a blend of two roles by a weight. Which
//! roles, and how far between them, is decided here; turning a blend into a
//! terminal colour is arithmetic on the theme's own values, and is left to
//! whoever paints.

use vstd::prelude::*;
use vstd::string::*;
use crate::list::{none, put};

verus! {

broadcast use vstd::string::group_string_axioms;

/// A colour the theme names.
#[derive(Clone, Copy, PartialEq, Eq, Debug, Structural)]
pub enum Role {
    Success,
    SuccessDim,
    Failure,
    FailureDim,
    Warning,
    Info,
    Primary,
    Accent,
    AccentDim,
    Unknown,
    Text,
    TextBright,
    TextMuted,
    TextFaint,
    TextGhost,
    Border,
    BorderDim,
    Surface,
    SurfaceAlt,
    Overlay,
    SelectBg,
    SelectBgDim,
    RowIdle,
    RowFailure,
    RowRunning,
    RowQueued,
    White,
}

/// How far a blend has gone from its first colour to its second.
#[derive(Clone, Copy, PartialEq, Eq, Debug, Structural)]
pub enum Weight {
    /// `num / den`.
    Share { num: u128, den: u128 },
    /// A slow breath with this period in ticks.
    Breath { period: u64 },
    /// The help beacon: a breath that shallows as the session's first ticks pass.
    Beacon { tick: u64 },
    /// The flash of a row whose CI moved at this tick.
    Flash { at: u64 },
    /// The breaths of a row whose run landed at this tick.
    Landing { at: u64 },
}

/// A tint laid over a row because its CI moved.
#[derive(Clone, Copy, PartialEq, Eq, Debug, Structural)]
pub struct Glow {
    pub tint: Role,
    pub by: Weight,
}

/// A colour: a role, or roles blended.
#[derive(Clone, Copy, PartialEq, Eq, Debug, Structural)]
pub enum Paint {
    Plain(Role),
    Mix { from: Role, to: Role, by: Weight },
    /// The fill of an environment chip `num / den` into its entrance.
    ChipFill { env: Role, num: u64, den: u64 },
    /// The text of an environment chip `num / den` into its entrance.
    ChipInk { env: Role, num: u64, den: u64 },
    /// A dashboard row's ground: its own colour, the glow of a change on it,
    /// banded when it is an odd row, tinted when it is the selected one.
    Row { base: Role, glow: Option<Glow>, odd: bool, selected: bool },
}

/// A blend `num / den` of the way from one role to another. At either end it
/// is simply that role.
#[verifier::allow_in_spec]
pub fn share(from: Role, to: Role, num: u128, den: u128) -> Paint
    returns
        (if num == 0 {
            Paint::Plain(from)
        } else if num >= den {
            Paint::Plain(to)
        } else {
            Paint::Mix { from, to, by: Weight::Share { num, den } }
        }),
{
    if num == 0 {
        Paint::Plain(from)
    } else if num >= den {
        Paint::Plain(to)
    } else {
        Paint::Mix { from, to, by: Weight::Share { num, den } }
    }
}

/// How a piece of text is drawn.
#[derive(Clone, Copy, PartialEq, Eq, Debug, Structural)]
pub struct Style {
    pub fg: Option<Paint>,
    pub bg: Option<Paint>,
    pub bold: bool,
    pub italic: bool,
    pub reversed: bool,
    /// The text is a program's own output: the colour codes in it are read, over
    /// this style, where they would otherwise be shown.
    pub coded: bool,
}

/// No style at all.
#[verifier::allow_in_spec]
pub fn plain() -> Style
    returns
        (Style { fg: None, bg: None, bold: false, italic: false, reversed: false, coded: false }),
{
    Style {
        fg: None,
        bg: None,
        bold: false,
        italic: false,
        reversed: false,
        coded: false,
    }
}

/// Text in one role.
#[verifier::allow_in_spec]
pub fn fg(r: Role) -> Style
    returns
        (Style {
            fg: Some(Paint::Plain(r)),
            bg: None,
            bold: false,
            italic: false,
            reversed: false,
            coded: false,
        }),
{
    Style {
        fg: Some(Paint::Plain(r)),
        bg: None,
        bold: false,
        italic: false,
        reversed: false,
        coded: false,
    }
}

/// Text in one paint.
#[verifier::allow_in_spec]
pub fn ink(p: Paint) -> Style
    returns
        (Style { fg: Some(p), bg: None, bold: false, italic: false, reversed: false, coded: false }),
{
    Style {
        fg: Some(p),
        bg: None,
        bold: false,
        italic: false,
        reversed: false,
        coded: false,
    }
}

/// A ground in one role.
#[verifier::allow_in_spec]
pub fn bg(r: Role) -> Style
    returns
        (Style {
            fg: None,
            bg: Some(Paint::Plain(r)),
            bold: false,
            italic: false,
            reversed: false,
            coded: false,
        }),
{
    Style {
        fg: None,
        bg: Some(Paint::Plain(r)),
        bold: false,
        italic: false,
        reversed: false,
        coded: false,
    }
}

impl Style {
    /// The same style in bold.
    #[verifier::allow_in_spec]
    pub fn bold(self) -> Style
        returns
            (Style { bold: true, ..self }),
    {
        Style { bold: true, ..self }
    }

    /// The same style in italics.
    #[verifier::allow_in_spec]
    pub fn italic(self) -> Style
        returns
            (Style { italic: true, ..self }),
    {
        Style { italic: true, ..self }
    }

    /// The same style in reverse video.
    #[verifier::allow_in_spec]
    pub fn reversed(self) -> Style
        returns
            (Style { reversed: true, ..self }),
    {
        Style { reversed: true, ..self }
    }

    /// The same style with the text's colour codes read.
    #[verifier::allow_in_spec]
    pub fn coded(self) -> Style
        returns
            (Style { coded: true, ..self }),
    {
        Style { coded: true, ..self }
    }

    /// The same style on a ground.
    #[verifier::allow_in_spec]
    pub fn on(self, r: Role) -> Style
        returns
            (Style { bg: Some(Paint::Plain(r)), ..self }),
    {
        Style { bg: Some(Paint::Plain(r)), ..self }
    }

    /// The same style on a painted ground.
    #[verifier::allow_in_spec]
    pub fn over(self, p: Paint) -> Style
        returns
            (Style { bg: Some(p), ..self }),
    {
        Style { bg: Some(p), ..self }
    }

    /// The same style with another text colour.
    #[verifier::allow_in_spec]
    pub fn with_fg(self, p: Paint) -> Style
        returns
            (Style { fg: Some(p), ..self }),
    {
        Style { fg: Some(p), ..self }
    }
}

/// A run of text in one style.
#[derive(PartialEq, Eq, Debug)]
pub struct Span {
    pub text: String,
    pub style: Style,
}

/// What a span shows.
pub struct SpanV {
    pub text: Seq<char>,
    pub style: Style,
}

impl DeepView for Span {
    type V = SpanV;

    open spec fn deep_view(&self) -> SpanV {
        SpanV { text: self.text@, style: self.style }
    }
}

/// A span, in contracts.
pub open spec fn sp(text: Seq<char>, style: Style) -> SpanV {
    SpanV { text, style }
}

/// A span holding a copy of `text`.
pub fn span(text: &str, style: Style) -> (r: Span)
    ensures
        r.deep_view() == sp(text@, style),
{
    Span { text: text.to_string(), style }
}

/// A span holding `text` itself.
pub fn span_of(text: String, style: Style) -> (r: Span)
    ensures
        r.deep_view() == sp(text@, style),
{
    Span { text, style }
}

/// Which edge a line of text keeps to.
#[derive(Clone, Copy, PartialEq, Eq, Debug, Structural)]
pub enum Align {
    Left,
    Center,
    Right,
}

/// A line of spans.
#[derive(PartialEq, Eq, Debug)]
pub struct Line {
    pub spans: Vec<Span>,
    pub align: Align,
    /// Laid under every span, for a line that is selected as a whole.
    pub style: Style,
}

/// What a line shows.
pub struct LineV {
    pub spans: Seq<SpanV>,
    pub align: Align,
    pub style: Style,
}

impl DeepView for Line {
    type V = LineV;

    open spec fn deep_view(&self) -> LineV {
        LineV { spans: self.spans.deep_view(), align: self.align, style: self.style }
    }
}

/// A left-aligned line, in contracts.
pub open spec fn ln(spans: Seq<SpanV>) -> LineV {
    LineV { spans, align: Align::Left, style: plain() }
}

/// A line of one span, in contracts.
pub open spec fn ln1(s: SpanV) -> LineV {
    ln(seq![s])
}

/// The same line kept to another edge, in contracts.
pub open spec fn aligned(l: LineV, align: Align) -> LineV {
    LineV { align, ..l }
}

/// A left-aligned line.
pub fn line(spans: Vec<Span>) -> (r: Line)
    ensures
        r.deep_view() == ln(spans.deep_view()),
{
    Line { spans, align: Align::Left, style: plain() }
}

/// A left-aligned line of one span.
pub fn line_of(s: Span) -> (r: Line)
    ensures
        r.deep_view() == ln1(s.deep_view()),
{
    let mut spans: Vec<Span> = none();
    put(&mut spans, s);
    line(spans)
}

/// A line with nothing on it.
pub fn empty_line() -> (r: Line)
    ensures
        r.deep_view() == ln(Seq::empty()),
{
    let spans: Vec<Span> = none();
    line(spans)
}

/// The same line kept to another edge.
pub fn align_line(l: Line, align: Align) -> (r: Line)
    ensures
        r.deep_view() == aligned(l.deep_view(), align),
{
    Line { spans: l.spans, align, style: l.style }
}

} // verus!
