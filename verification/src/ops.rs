//! What a frame is made of: a list of things to do, in order.
//!
//! A view decides every word, style, rectangle and click target of its frame
//! and hands them over as a list. Whoever paints carries the list out one
//! operation at a time and decides nothing.

use vstd::prelude::*;
use vstd::string::*;

use crate::columns::{disp_width, text_columns};
use crate::geometry::{framed, inner_of, less, no_padding, on_screen, Constraint, Padding, Rect};
use crate::list::{none, put, put_all};
use crate::paint::{align_line, aligned, empty_line, fg, line, line_of, ln, ln1, plain, sp, span, span_of, Align, Line, LineV, Role, Span, SpanV, Style};

verus! {

broadcast use vstd::string::group_string_axioms;

// ── Spans and lines ────────────────────────────────────────────────────────

/// Add a span holding a copy of `text`.
pub fn say(v: &mut Vec<Span>, text: &str, style: Style)
    ensures
        final(v).deep_view() == old(v).deep_view().push(sp(text@, style)),
{
    put(v, span(text, style));
}

/// Add a span holding `text` itself.
pub fn say_of(v: &mut Vec<Span>, text: String, style: Style)
    ensures
        final(v).deep_view() == old(v).deep_view().push(sp(text@, style)),
{
    put(v, span_of(text, style));
}

/// Add a line of spans.
pub fn add_line(v: &mut Vec<Line>, spans: Vec<Span>)
    ensures
        final(v).deep_view() == old(v).deep_view().push(ln(spans.deep_view())),
{
    put(v, line(spans));
}

/// Add a line of one span.
pub fn add_line_of(v: &mut Vec<Line>, text: &str, style: Style)
    ensures
        final(v).deep_view() == old(v).deep_view().push(ln1(sp(text@, style))),
{
    put(v, line_of(span(text, style)));
}

/// Add a line with nothing on it.
pub fn add_blank(v: &mut Vec<Line>)
    ensures
        final(v).deep_view() == old(v).deep_view().push(ln(Seq::empty())),
{
    put(v, empty_line());
}

/// A list of one line of one span, in contracts.
pub open spec fn one_line(text: Seq<char>, style: Style) -> Seq<LineV> {
    seq![ln1(sp(text, style))]
}

/// A list of one line of one span.
pub fn just(text: &str, style: Style) -> (v: Vec<Line>)
    ensures
        v.deep_view() == one_line(text@, style),
{
    let mut v: Vec<Line> = none();
    add_line_of(&mut v, text, style);
    v
}

/// How many columns a run of spans takes.
pub open spec fn all_columns(v: Seq<SpanV>) -> int
    decreases v.len(),
{
    if v.len() == 0 {
        0
    } else {
        all_columns(v.drop_last()) + text_columns(v.last().text)
    }
}

/// How many columns a run of spans takes, as far as a machine word counts.
pub open spec fn columns_of(v: Seq<SpanV>) -> int {
    if all_columns(v) <= usize::MAX {
        all_columns(v)
    } else {
        usize::MAX as int
    }
}

/// How many columns a run of spans takes.
pub fn width_of(v: &Vec<Span>) -> (w: usize)
    ensures
        w == columns_of(v.deep_view()),
{
    let mut w: usize = 0;
    let mut i: usize = 0;
    assert(v.deep_view().take(0) =~= Seq::empty());
    while i < v.len()
        invariant
            i <= v@.len(),
            w == columns_of(v.deep_view().take(i as int)),
            all_columns(v.deep_view().take(i as int)) >= 0,
        decreases v@.len() - i,
    {
        proof {
            let t = v.deep_view().take(i + 1);
            assert(t.drop_last() =~= v.deep_view().take(i as int));
            assert(t.last() == v@[i as int].deep_view());
        }
        w = w.saturating_add(disp_width(&v[i].text));
        i = i + 1;
    }
    assert(v.deep_view().take(v@.len() as int) =~= v.deep_view());
    w
}

// ── Operations ─────────────────────────────────────────────────────────────

/// What a click lands on.
#[derive(Clone, Copy, PartialEq, Eq, Debug, Structural)]
pub enum Hit {
    Repo(usize),
    GitEntry(usize),
    Workflow(usize),
    Run(usize),
    DetailItem(usize),
}

/// Something the frame has learned that the keys and the wheel go by.
#[derive(Clone, Copy, PartialEq, Eq, Debug, Structural)]
pub enum Reading {
    /// How wide the frame was.
    FrameWidth(u16),
    /// How far the help card can scroll.
    HelpMaxScroll(u16),
    /// How many rows the hook output has.
    OpViewport(u16),
    /// How many rows the diff has.
    DiffViewport(u16),
    /// How many rows or lines the diff's scrolling counts.
    DiffUnits(usize),
    /// Whether the diff is in two columns.
    DiffSideBySide(bool),
    /// A jump that was waiting on the layout has been taken.
    DiffJumpTaken,
    /// Where the diff now is.
    DiffScroll(usize),
    /// A file's band was first on the screen at this tick.
    BandSeen { file: usize, tick: u64 },
    /// How many rows the log has.
    LogsViewportHeight(u16),
    /// How many columns the log has.
    LogsViewportWidth(u16),
}

/// A frame with rounded corners, and what is written on it.
#[derive(Debug)]
pub struct Border {
    pub style: Style,
    pub top: Vec<Line>,
    pub bottom: Vec<Line>,
    pub padding: Padding,
    pub ground: Style,
}

/// What a border shows.
pub struct BorderV {
    pub style: Style,
    pub top: Seq<LineV>,
    pub bottom: Seq<LineV>,
    pub padding: Padding,
    pub ground: Style,
}

impl DeepView for Border {
    type V = BorderV;

    open spec fn deep_view(&self) -> BorderV {
        BorderV {
            style: self.style,
            top: self.top.deep_view(),
            bottom: self.bottom.deep_view(),
            padding: self.padding,
            ground: self.ground,
        }
    }
}

/// One cell of a table.
#[derive(Debug)]
pub struct Cell {
    pub lines: Vec<Line>,
    pub style: Style,
}

/// What a cell shows.
pub struct CellV {
    pub lines: Seq<LineV>,
    pub style: Style,
}

impl DeepView for Cell {
    type V = CellV;

    open spec fn deep_view(&self) -> CellV {
        CellV { lines: self.lines.deep_view(), style: self.style }
    }
}

/// A cell with nothing in it, in contracts.
pub open spec fn blank() -> CellV {
    CellV { lines: Seq::empty(), style: plain() }
}

/// A cell of one line, in contracts.
pub open spec fn cell(l: LineV) -> CellV {
    CellV { lines: seq![l], style: plain() }
}

/// A cell of one span, in contracts.
pub open spec fn cell1(text: Seq<char>, style: Style) -> CellV {
    cell(ln1(sp(text, style)))
}

/// Add a cell with nothing in it.
pub fn add_blank_cell(v: &mut Vec<Cell>)
    ensures
        final(v).deep_view() == old(v).deep_view().push(blank()),
{
    put(v, blank_cell());
}

/// A cell with nothing in it.
pub fn blank_cell() -> (c: Cell)
    ensures
        c.deep_view() == blank(),
{
    Cell { lines: none(), style: plain() }
}

/// A cell of one line.
pub fn cell_of(l: Line) -> (c: Cell)
    ensures
        c.deep_view() == cell(l.deep_view()),
{
    let mut lines: Vec<Line> = none();
    put(&mut lines, l);
    Cell { lines, style: plain() }
}

/// Add a cell of one span.
pub fn add_cell(v: &mut Vec<Cell>, text: &str, style: Style)
    ensures
        final(v).deep_view() == old(v).deep_view().push(cell1(text@, style)),
{
    put(v, cell_of(line_of(span(text, style))));
}

/// Add a cell of several spans.
pub fn add_cell_line(v: &mut Vec<Cell>, spans: Vec<Span>)
    ensures
        final(v).deep_view() == old(v).deep_view().push(cell(ln(spans.deep_view()))),
{
    put(v, cell_of(line(spans)));
}

/// Add a cell of one span against its right edge.
pub fn add_cell_right(v: &mut Vec<Cell>, text: &str, style: Style)
    ensures
        final(v).deep_view() == old(v).deep_view().push(
            cell(aligned(ln1(sp(text@, style)), Align::Right)),
        ),
{
    put(v, cell_of(align_line(line_of(span(text, style)), Align::Right)));
}

/// One row of a table.
#[derive(Debug)]
pub struct Row {
    pub cells: Vec<Cell>,
    pub height: u16,
    pub style: Style,
}

/// What a row shows.
pub struct RowV {
    pub cells: Seq<CellV>,
    pub height: u16,
    pub style: Style,
}

impl DeepView for Row {
    type V = RowV;

    open spec fn deep_view(&self) -> RowV {
        RowV { cells: self.cells.deep_view(), height: self.height, style: self.style }
    }
}

/// A table, its header a line tall with a blank one under it.
#[derive(Debug)]
pub struct Table {
    pub header: Vec<Cell>,
    pub rows: Vec<Row>,
    pub widths: Vec<Constraint>,
    pub spacing: u16,
    pub highlight: Style,
    pub symbol: Span,
    pub selected: Option<usize>,
}

/// What a table shows.
pub struct TableV {
    pub header: Seq<CellV>,
    pub rows: Seq<RowV>,
    pub widths: Seq<Constraint>,
    pub spacing: u16,
    pub highlight: Style,
    pub symbol: SpanV,
    pub selected: Option<usize>,
}

impl DeepView for Table {
    type V = TableV;

    open spec fn deep_view(&self) -> TableV {
        TableV {
            header: self.header.deep_view(),
            rows: self.rows.deep_view(),
            widths: self.widths@,
            spacing: self.spacing,
            highlight: self.highlight,
            symbol: self.symbol.deep_view(),
            selected: self.selected,
        }
    }
}

/// One thing a frame does.
#[derive(Debug)]
pub enum Op {
    /// Blank these cells.
    Clear(Rect),
    /// Lay a style under these cells.
    Ground { area: Rect, style: Style },
    /// Draw a border round the edge of these cells.
    Frame { area: Rect, border: Border },
    /// Write lines from the top of these cells, past the first `scroll` of them.
    /// A span may carry the terminal's own colour sequences.
    Text { area: Rect, lines: Vec<Line>, wrap: bool, scroll: u16, ground: Style },
    /// Draw a table in these cells.
    Grid { area: Rect, table: Table },
    /// Draw a gauge `num / den` full, its label in front.
    Gauge { area: Rect, num: u64, den: u64, label: Line, filled: Style, unfilled: Style },
    /// Write `count` rows of the rendered log from row `first`, wrapped.
    LogRows { area: Rect, first: usize, count: usize },
    /// Carry every coloured cell `num / den` of the way up from `from`.
    Fade { area: Rect, from: Role, num: u64, den: u64 },
    /// Let the comet that left at tick `at` light the cells it passes.
    Comet { area: Rect, at: u64 },
    /// A click in these cells lands on something.
    Click { area: Rect, hit: Hit },
    /// Something the keys and the wheel go by.
    Tell(Reading),
}

/// What an operation does.
pub enum OpV {
    Clear(Rect),
    Ground { area: Rect, style: Style },
    Frame { area: Rect, border: BorderV },
    Text { area: Rect, lines: Seq<LineV>, wrap: bool, scroll: u16, ground: Style },
    Grid { area: Rect, table: TableV },
    Gauge { area: Rect, num: u64, den: u64, label: LineV, filled: Style, unfilled: Style },
    LogRows { area: Rect, first: usize, count: usize },
    Fade { area: Rect, from: Role, num: u64, den: u64 },
    Comet { area: Rect, at: u64 },
    Click { area: Rect, hit: Hit },
    Tell(Reading),
}

impl DeepView for Op {
    type V = OpV;

    open spec fn deep_view(&self) -> OpV {
        match *self {
            Op::Clear(area) => OpV::Clear(area),
            Op::Ground { area, style } => OpV::Ground { area, style },
            Op::Frame { area, border } => OpV::Frame { area, border: border.deep_view() },
            Op::Text { area, lines, wrap, scroll, ground } => OpV::Text {
                area,
                lines: lines.deep_view(),
                wrap,
                scroll,
                ground,
            },
            Op::Grid { area, table } => OpV::Grid { area, table: table.deep_view() },
            Op::Gauge { area, num, den, label, filled, unfilled } => OpV::Gauge {
                area,
                num,
                den,
                label: label.deep_view(),
                filled,
                unfilled,
            },
            Op::LogRows { area, first, count } => OpV::LogRows { area, first, count },
            Op::Fade { area, from, num, den } => OpV::Fade { area, from, num, den },
            Op::Comet { area, at } => OpV::Comet { area, at },
            Op::Click { area, hit } => OpV::Click { area, hit },
            Op::Tell(r) => OpV::Tell(r),
        }
    }
}

/// Lines written as they are, in contracts.
pub open spec fn text_op(area: Rect, lines: Seq<LineV>) -> OpV {
    OpV::Text { area, lines, wrap: false, scroll: 0, ground: plain() }
}

/// Lines wrapped at the edge, in contracts.
pub open spec fn wrapped_op(area: Rect, lines: Seq<LineV>) -> OpV {
    OpV::Text { area, lines, wrap: true, scroll: 0, ground: plain() }
}

/// Add lines written as they are.
pub fn add_text(ops: &mut Vec<Op>, area: Rect, lines: Vec<Line>)
    ensures
        final(ops).deep_view() == old(ops).deep_view().push(text_op(area, lines.deep_view())),
{
    put(ops, Op::Text { area, lines, wrap: false, scroll: 0, ground: plain() });
}

/// Add lines wrapped at the edge.
pub fn add_wrapped(ops: &mut Vec<Op>, area: Rect, lines: Vec<Line>)
    ensures
        final(ops).deep_view() == old(ops).deep_view().push(wrapped_op(area, lines.deep_view())),
{
    put(ops, Op::Text { area, lines, wrap: true, scroll: 0, ground: plain() });
}

/// Add a border.
pub fn add_frame(ops: &mut Vec<Op>, area: Rect, border: Border)
    ensures
        final(ops).deep_view() == old(ops).deep_view().push(
            OpV::Frame { area, border: border.deep_view() },
        ),
{
    put(ops, Op::Frame { area, border });
}

/// Add a click target.
pub fn add_click(ops: &mut Vec<Op>, area: Rect, hit: Hit)
    ensures
        final(ops).deep_view() == old(ops).deep_view().push(OpV::Click { area, hit }),
{
    put(ops, Op::Click { area, hit });
}

/// Add a reading.
pub fn tell(ops: &mut Vec<Op>, r: Reading)
    ensures
        final(ops).deep_view() == old(ops).deep_view().push(OpV::Tell(r)),
{
    put(ops, Op::Tell(r));
}

/// Add a table.
pub fn add_table(ops: &mut Vec<Op>, area: Rect, table: Table)
    ensures
        final(ops).deep_view() == old(ops).deep_view().push(
            OpV::Grid { area, table: table.deep_view() },
        ),
{
    put(ops, Op::Grid { area, table });
}

// ── Panels ─────────────────────────────────────────────────────────────────

/// A border with one title and nothing else on it, in contracts.
pub open spec fn titled(title: LineV, edge: Role) -> BorderV {
    BorderV {
        style: fg(edge),
        top: seq![title],
        bottom: Seq::empty(),
        padding: no_padding(),
        ground: plain(),
    }
}

/// A border with one title and nothing else on it.
pub fn titled_border(title: Line, edge: Role) -> (b: Border)
    ensures
        b.deep_view() == titled(title.deep_view(), edge),
{
    let mut top: Vec<Line> = none();
    put(&mut top, title);
    Border { style: fg(edge), top, bottom: none(), padding: no_padding(), ground: plain() }
}

/// A border with one bold title in the colour of its edge, in contracts.
pub open spec fn bold_titled(title: Seq<char>, edge: Role, align: Align) -> BorderV {
    titled(aligned(ln1(sp(title, fg(edge).bold())), align), edge)
}

/// A border with one bold title in the colour of its edge.
pub fn bold_border(title: &str, edge: Role, align: Align) -> (b: Border)
    ensures
        b.deep_view() == bold_titled(title@, edge, align),
{
    titled_border(align_line(line_of(span(title, fg(edge).bold())), align), edge)
}

/// A name in a chip cut into a rule.
pub open spec fn chip(name: Seq<char>, rule: Role, accent: Role) -> LineV {
    ln(
        seq![sp("─┤ "@, fg(rule))].push(sp(name, fg(accent).bold())).push(sp(" ├"@, fg(rule))),
    )
}

/// A name in a chip cut into a rule.
pub fn chip_line(name: &str, rule: Role, accent: Role) -> (l: Line)
    ensures
        l.deep_view() == chip(name@, rule, accent),
{
    let mut v: Vec<Span> = none();
    say(&mut v, "─┤ ", fg(rule));
    say(&mut v, name, fg(accent).bold());
    say(&mut v, " ├", fg(rule));
    line(v)
}

/// A summary at the right end of a rule.
pub open spec fn rule_end(right: Seq<SpanV>) -> LineV {
    aligned(
        ln((seq![sp("─ "@, fg(Role::Border))] + right).push(sp(" ─"@, fg(Role::Border)))),
        Align::Right,
    )
}

/// One panel: its name in a chip cut into the top rule, anything summarising it
/// at the right end of that rule.
pub open spec fn panel_border(name: Seq<char>, right: Seq<SpanV>, accent: Role) -> BorderV {
    BorderV {
        style: fg(Role::Border),
        top: if right.len() > 0 {
            seq![chip(name, Role::Border, accent)].push(rule_end(right))
        } else {
            seq![chip(name, Role::Border, accent)]
        },
        bottom: Seq::empty(),
        padding: no_padding(),
        ground: plain(),
    }
}

/// One panel, drawn the same way everywhere.
///
/// The name sits in a chip cut into the top rule, and anything summarising the
/// panel goes to the right end of that rule.
pub fn panel(name: &str, right: Vec<Span>, accent: Role) -> (b: Border)
    ensures
        b.deep_view() == panel_border(name@, right.deep_view(), accent),
{
    broadcast use crate::list::lemma_deep_len;

    let mut top: Vec<Line> = none();
    put(&mut top, chip_line(name, Role::Border, accent));
    if right.len() > 0 {
        let mut v: Vec<Span> = none();
        say(&mut v, "─ ", fg(Role::Border));
        put_all(&mut v, right);
        say(&mut v, " ─", fg(Role::Border));
        put(&mut top, align_line(line(v), Align::Right));
    }
    Border { style: fg(Role::Border), top, bottom: none(), padding: no_padding(), ground: plain() }
}

/// A panel with nothing to summarise.
pub open spec fn plain_panel(title: Seq<char>) -> BorderV {
    panel_border(title, Seq::empty(), Role::Primary)
}

/// A panel with nothing to summarise.
pub fn styled_block(title: &str) -> (b: Border)
    ensures
        b.deep_view() == plain_panel(title@),
{
    let right: Vec<Span> = none();
    panel(title, right, Role::Primary)
}

/// A panel holding lines, in contracts.
pub open spec fn boxed(area: Rect, title: Seq<char>, lines: Seq<LineV>, wrap: bool) -> Seq<OpV> {
    seq![OpV::Frame { area, border: plain_panel(title) }].push(
        OpV::Text {
            area: framed(area, no_padding()),
            lines,
            wrap,
            scroll: 0,
            ground: plain(),
        },
    )
}

/// A panel holding lines.
pub fn in_a_box(area: Rect, title: &str, lines: Vec<Line>, wrap: bool) -> (ops: Vec<Op>)
    requires
        on_screen(area),
    ensures
        ops.deep_view() == boxed(area, title@, lines.deep_view(), wrap),
{
    let mut ops: Vec<Op> = none();
    add_frame(&mut ops, area, styled_block(title));
    let inner = inner_of(area, no_padding());
    put(&mut ops, Op::Text { area: inner, lines, wrap, scroll: 0, ground: plain() });
    ops
}

// ── Having nothing to show ─────────────────────────────────────────────────

/// What a view says when it has nothing to show: a glyph, one sentence of what
/// is not here, and the way to change that, in the middle of the area.
pub open spec fn empty_ops(
    area: Rect,
    glyph: Seq<char>,
    what: Seq<char>,
    how: Seq<char>,
) -> Seq<OpV> {
    if area.height < 3 || area.width < 20 {
        seq![wrapped_op(area, one_line(what, fg(Role::TextFaint)))]
    } else {
        let rows: int = if area.height < 4 {
            area.height as int
        } else {
            4
        };
        seq![
            wrapped_op(
                Rect {
                    y: (area.y + less(area.height as int, 4) / 2) as u16,
                    height: rows as u16,
                    ..area
                },
                seq![aligned(ln1(sp(glyph, fg(Role::TextGhost))), Align::Center)].push(
                    ln(Seq::empty()),
                ).push(aligned(ln1(sp(what, fg(Role::TextMuted))), Align::Center)).push(
                    aligned(ln1(sp(how, fg(Role::TextFaint).italic())), Align::Center),
                ),
            ),
        ]
    }
}

/// What a view says when it has nothing to show.
///
/// A grey line in the corner reads as the app failing to draw something; this
/// reads as an answer to a question.
pub fn render_empty(area: Rect, glyph: &str, what: &str, how: &str) -> (ops: Vec<Op>)
    requires
        on_screen(area),
    ensures
        ops.deep_view() == empty_ops(area, glyph@, what@, how@),
{
    let mut ops: Vec<Op> = none();
    if area.height < 3 || area.width < 20 {
        // No room to be graceful; the sentence still beats nothing.
        add_wrapped(&mut ops, area, just(what, fg(Role::TextFaint)));
        return ops;
    }
    let mut lines: Vec<Line> = none();
    put(&mut lines, align_line(line_of(span(glyph, fg(Role::TextGhost))), Align::Center));
    add_blank(&mut lines);
    put(&mut lines, align_line(line_of(span(what, fg(Role::TextMuted))), Align::Center));
    put(&mut lines, align_line(line_of(span(how, fg(Role::TextFaint).italic())), Align::Center));
    let top: u16 = area.y + area.height.saturating_sub(4) / 2;
    let height: u16 = if area.height < 4 {
        area.height
    } else {
        4
    };
    add_wrapped(&mut ops, Rect { y: top, height, ..area }, lines);
    ops
}

} // verus!
