//! Rectangles on the screen: framed, split, and centred.

use ratatui::{layout, widgets};
use vstd::prelude::*;

verus! {

/// A rectangle of terminal cells.
#[derive(Clone, Copy, PartialEq, Eq, Debug, Structural)]
pub struct Rect {
    pub x: u16,
    pub y: u16,
    pub width: u16,
    pub height: u16,
}

impl DeepView for Rect {
    type V = Rect;

    open spec fn deep_view(&self) -> Rect {
        *self
    }
}

/// A rectangle whose right and bottom edges can be written down.
pub open spec fn on_screen(r: Rect) -> bool {
    r.x + r.width <= 0xffff && r.y + r.height <= 0xffff
}

/// Whether `r` lies inside `area`.
pub open spec fn inside(r: Rect, area: Rect) -> bool {
    &&& area.x <= r.x
    &&& r.x + r.width <= area.x + area.width
    &&& area.y <= r.y
    &&& r.y + r.height <= area.y + area.height
}

/// What a piece of a split asks for along the axis being split.
#[derive(Clone, Copy, PartialEq, Eq, Debug, Structural)]
pub enum Constraint {
    Length(u16),
    Min(u16),
    Percentage(u16),
    Fill(u16),
}

impl DeepView for Constraint {
    type V = Constraint;

    open spec fn deep_view(&self) -> Constraint {
        *self
    }
}

/// How much a piece asks for before there is any slack to share out.
pub open spec fn asked(c: Constraint) -> int {
    match c {
        Constraint::Length(n) => n as int,
        Constraint::Min(n) => n as int,
        _ => 0,
    }
}

/// What the pieces ask for together.
pub open spec fn asked_by_all(cs: Seq<Constraint>) -> int
    decreases cs.len(),
{
    if cs.len() == 0 {
        0
    } else {
        asked_by_all(cs.drop_last()) + asked(cs.last())
    }
}

/// Whether the pieces can all have what they ask for, and only one of them can
/// grow: fixed lengths, at most one of them a minimum, and room for them all.
pub open spec fn fits(cs: Seq<Constraint>, room: int) -> bool {
    &&& asked_by_all(cs) <= room
    &&& forall|i: int|
        0 <= i < cs.len() ==> match #[trigger] cs[i] {
            Constraint::Length(_) => true,
            Constraint::Min(n) => n <= 0x7fff,
            _ => false,
        }
    &&& forall|i: int, j: int|
        0 <= i < j < cs.len() ==> !((#[trigger] cs[i]) is Min && (#[trigger] cs[j]) is Min)
}

/// How long piece `i` is when they fit: what it asked for, and the slack too
/// if it is the one that grows.
pub open spec fn granted(cs: Seq<Constraint>, room: int, i: int) -> int {
    asked(cs[i]) + (if cs[i] is Min {
        room - asked_by_all(cs)
    } else {
        0
    })
}

/// How far along the area piece `i` starts when they fit.
pub open spec fn granted_before(cs: Seq<Constraint>, room: int, i: int) -> int
    decreases i,
{
    if i <= 0 {
        0
    } else {
        granted_before(cs, room, i - 1) + granted(cs, room, i - 1)
    }
}

/// Whether every piece asks for cells, and none for a share: lengths and
/// minimums, and fewer than two hundred of them.
pub open spec fn in_cells(cs: Seq<Constraint>) -> bool {
    &&& cs.len() < 200
    &&& forall|i: int| 0 <= i < cs.len() ==> (#[trigger] cs[i]) is Length || cs[i] is Min
}

/// Whether lengths and at most one minimum ask for more than there is, though
/// the minimum alone would fit.
pub open spec fn cramped(cs: Seq<Constraint>, room: int) -> bool {
    &&& in_cells(cs)
    &&& asked_by_all(cs) > room
    &&& forall|i: int|
        0 <= i < cs.len() ==> match #[trigger] cs[i] {
            Constraint::Min(n) => n <= room && n <= 0x7fff,
            _ => true,
        }
    &&& forall|i: int, j: int|
        0 <= i < j < cs.len() ==> !((#[trigger] cs[i]) is Min && (#[trigger] cs[j]) is Min)
}

/// The percentage a piece asks for.
pub open spec fn percent_of(c: Constraint) -> int {
    match c {
        Constraint::Percentage(p) => p as int,
        _ => 0,
    }
}

/// What the first `n` pieces ask for together, in percent.
pub open spec fn share_before(cs: Seq<Constraint>, n: int) -> int
    decreases n,
{
    if n <= 0 {
        0
    } else {
        share_before(cs, n - 1) + percent_of(cs[n - 1])
    }
}

/// Whether every piece asks for a share, and together for no more than there is.
pub open spec fn in_shares(cs: Seq<Constraint>) -> bool {
    &&& share_before(cs, cs.len() as int) <= 100
    &&& forall|i: int| 0 <= i < cs.len() ==> (#[trigger] cs[i]) is Percentage
}

/// `percent` of `room`, to the nearest cell.
pub open spec fn nearest(room: int, percent: int) -> int {
    (room * percent + 50) / 100
}

/// The ways a rectangle may have been split: as many pieces as were asked for,
/// each inside it and as long as it is across the split.
///
/// When lengths and at most one minimum fit, the pieces follow one another and
/// each gets what it asked for. Where they do not fit, no piece starts before
/// the one in front of it ends, and the minimum gets no more than that. Shares
/// follow one another too, each edge on the cell nearest to it.
pub open spec fn laid_into(
    pieces: Seq<Rect>,
    vertical: bool,
    cs: Seq<Constraint>,
    area: Rect,
) -> bool {
    let room = if vertical {
        area.height as int
    } else {
        area.width as int
    };
    &&& pieces.len() == cs.len()
    &&& forall|i: int|
        0 <= i < cs.len() ==> {
            let p = #[trigger] pieces[i];
            &&& inside(p, area)
            &&& vertical ==> p.x == area.x && p.width == area.width
            &&& !vertical ==> p.y == area.y && p.height == area.height
            &&& fits(cs, room) && vertical ==> p.height == granted(cs, room, i) && p.y == area.y
                + granted_before(cs, room, i)
            &&& fits(cs, room) && !vertical ==> p.width == granted(cs, room, i) && p.x == area.x
                + granted_before(cs, room, i)
            &&& cramped(cs, room) && cs[i] is Min && vertical ==> p.height == asked(cs[i])
            &&& cramped(cs, room) && cs[i] is Min && !vertical ==> p.width == asked(cs[i])
            &&& in_shares(cs) && vertical ==> p.y == area.y + nearest(room, share_before(cs, i))
                && p.y + p.height == area.y + nearest(room, share_before(cs, i + 1))
            &&& in_shares(cs) && !vertical ==> p.x == area.x + nearest(room, share_before(cs, i))
                && p.x + p.width == area.x + nearest(room, share_before(cs, i + 1))
        }
    &&& in_cells(cs) ==> forall|i: int, j: int|
        0 <= i < j < cs.len() ==> follows(#[trigger] pieces[i], #[trigger] pieces[j], vertical)
}

/// Whether `q` does not start before `p` ends.
pub open spec fn follows(p: Rect, q: Rect, vertical: bool) -> bool {
    if vertical {
        p.y + p.height <= q.y
    } else {
        p.x + p.width <= q.x
    }
}

/// `ratatui::layout::Layout::split`: one rectangle per constraint, each inside
/// the area and spanning it across the split.
///
/// When fixed lengths and at most one minimum fit, each gets what it asked for,
/// one after another, and the minimum takes the slack. When they do not, it is
/// the lengths that give way: a minimum is held above them, and wishing to grow
/// counts below them, so it gets what it asked for and no more. Percentages that
/// come to no more than the whole follow one another from the edge, each edge
/// rounded to the nearest cell, a half upwards. Lengths and minimums do not
/// overlap even where they do not fit; the solver counts in hundredths of a
/// cell, and with fewer than two hundred pieces no edge can fall where its
/// rounding is in doubt. Which of the lengths give way is not claimed: the
/// solver walks hash maps seeded anew in each process.
#[verifier::external_body]
fn solve(vertical: bool, constraints: &Vec<Constraint>, area: Rect) -> (pieces: Vec<
    Rect,
>)
    requires
        on_screen(area),
        constraints@.len() > 0,
    ensures
        laid_into(pieces@, vertical, constraints@, area),
{
    let direction = match vertical {
        true => layout::Direction::Vertical,
        false => layout::Direction::Horizontal,
    };
    let wanted = constraints.iter().map(|c| match *c {
        Constraint::Length(n) => layout::Constraint::Length(n),
        Constraint::Min(n) => layout::Constraint::Min(n),
        Constraint::Percentage(n) => layout::Constraint::Percentage(n),
        Constraint::Fill(n) => layout::Constraint::Fill(n),
    });
    let area = layout::Rect::new(area.x, area.y, area.width, area.height);
    let parts = layout::Layout::new(direction, wanted).split(area);
    parts.iter().map(|r| Rect { x: r.x, y: r.y, width: r.width, height: r.height }).collect()
}

/// Whether these are the pieces the solver cuts `area` into when it is asked for
/// `cs`.
pub closed spec fn solved(pieces: Seq<Rect>, vertical: bool, cs: Seq<Constraint>, area: Rect) -> bool {
    exists|asked: Vec<Constraint>, r: Vec<Rect>| #[trigger]
        call_ensures(solve, (vertical, &asked, area), r) && asked@ == cs && r@ == pieces
}

/// The pieces a rectangle is split into: those the solver answers with, laid out
/// as `laid_into` says.
pub open spec fn split_into(
    pieces: Seq<Rect>,
    vertical: bool,
    cs: Seq<Constraint>,
    area: Rect,
) -> bool {
    laid_into(pieces, vertical, cs, area) && solved(pieces, vertical, cs, area)
}

/// Split a rectangle into one piece per constraint.
pub(crate) fn split(vertical: bool, constraints: &Vec<Constraint>, area: Rect) -> (pieces: Vec<
    Rect,
>)
    requires
        on_screen(area),
        constraints@.len() > 0,
    ensures
        split_into(pieces@, vertical, constraints@, area),
{
    solve(vertical, constraints, area)
}

/// Blank cells kept between a frame and what it holds.
#[derive(Clone, Copy, PartialEq, Eq, Debug, Structural)]
pub struct Padding {
    pub left: u16,
    pub right: u16,
    pub top: u16,
    pub bottom: u16,
}

/// No padding.
#[verifier::allow_in_spec]
pub fn no_padding() -> Padding
    returns
        (Padding { left: 0, right: 0, top: 0, bottom: 0 }),
{
    Padding { left: 0, right: 0, top: 0, bottom: 0 }
}

/// `a - b`, or zero when `b` is the larger.
pub open spec fn less(a: int, b: int) -> int {
    if a >= b {
        a - b
    } else {
        0
    }
}

/// The smaller of two numbers.
pub open spec fn lesser(a: int, b: int) -> int {
    if a <= b {
        a
    } else {
        b
    }
}

/// The larger of two numbers.
pub open spec fn larger(a: int, b: int) -> int {
    if a >= b {
        a
    } else {
        b
    }
}

/// The room inside a frame drawn round the edge of `area`.
pub open spec fn framed(area: Rect, pad: Padding) -> Rect {
    Rect {
        x: lesser(area.x + (if area.width > 0 { 1int } else { 0 }) + pad.left, 0xffff) as u16,
        y: lesser(area.y + (if area.height > 0 { 1int } else { 0 }) + pad.top, 0xffff) as u16,
        width: less(less(area.width as int, 2), pad.left + pad.right) as u16,
        height: less(less(area.height as int, 2), pad.top + pad.bottom) as u16,
    }
}

/// `ratatui::widgets::Block::inner` of a block with borders on all four sides:
/// a cell is taken from each edge that has one to give, then the padding.
#[verifier::external_body]
pub(crate) fn frame_inner(area: Rect, pad: Padding) -> (r: Rect)
    requires
        on_screen(area),
        pad.left + pad.right <= 0xffff,
        pad.top + pad.bottom <= 0xffff,
    ensures
        r == framed(area, pad),
{
    let area = layout::Rect::new(area.x, area.y, area.width, area.height);
    let pad = widgets::Padding::new(pad.left, pad.right, pad.top, pad.bottom);
    let r = widgets::Block::bordered().padding(pad).inner(area);
    Rect { x: r.x, y: r.y, width: r.width, height: r.height }
}

/// The room inside a frame is a rectangle on the screen too.
pub proof fn lemma_framed(area: Rect, pad: Padding)
    requires
        on_screen(area),
    ensures
        on_screen(framed(area, pad)),
        framed(area, pad).width <= area.width,
        framed(area, pad).height <= area.height,
{
}

/// The room inside a frame round `area`.
pub fn inner_of(area: Rect, pad: Padding) -> (r: Rect)
    requires
        on_screen(area),
        pad.left + pad.right <= 0xffff,
        pad.top + pad.bottom <= 0xffff,
    ensures
        r == framed(area, pad),
        on_screen(r),
        r.width <= area.width,
        r.height <= area.height,
{
    proof {
        lemma_framed(area, pad);
    }
    frame_inner(area, pad)
}

/// A dialog of the given size over `area`: centred across it, and `1 / below`
/// of the spare rows above it.
pub open spec fn dialog(area: Rect, w: u16, h: u16, below: u16) -> Rect {
    Rect {
        x: (area.x + less(area.width as int, w as int) / 2) as u16,
        y: (area.y + less(area.height as int, h as int) / (below as int)) as u16,
        width: w,
        height: h,
    }
}

/// A dialog of the given size over `area`.
pub fn dialog_over(area: Rect, w: u16, h: u16, below: u16) -> (r: Rect)
    requires
        on_screen(area),
        below > 0,
    ensures
        r == dialog(area, w, h, below),
        w <= area.width && h <= area.height ==> inside(r, area),
{
    let dx: u16 = area.width.saturating_sub(w) / 2;
    let dy: u16 = area.height.saturating_sub(h) / below;
    proof {
        let spare = less(area.height as int, h as int);
        assert(0 <= spare / (below as int) <= spare) by (nonlinear_arith)
            requires
                spare >= 0,
                below > 0,
        ;
    }
    Rect { x: area.x + dx, y: area.y + dy, width: w, height: h }
}

/// Three pieces, the middle one the given percentage.
pub open spec fn thirds(percent: u16) -> Seq<Constraint> {
    seq![
        Constraint::Percentage(((100 - percent) / 2) as u16),
        Constraint::Percentage(percent),
        Constraint::Percentage(((100 - percent) / 2) as u16),
    ]
}

/// Where the middle one of three pieces starts, the given percentage of `room`
/// to the nearest cell.
pub open spec fn middle_start(room: int, percent: u16) -> int {
    nearest(room, (100 - percent) / 2)
}

/// Where it ends.
pub open spec fn middle_end(room: int, percent: u16) -> int {
    nearest(room, (100 - percent) / 2 + percent)
}

/// The rectangle in the middle of `area`, the given percentage of each side.
pub open spec fn centred(percent_x: u16, percent_y: u16, area: Rect) -> Rect {
    let w = area.width as int;
    let h = area.height as int;
    Rect {
        x: (area.x + middle_start(w, percent_x)) as u16,
        y: (area.y + middle_start(h, percent_y)) as u16,
        width: (middle_end(w, percent_x) - middle_start(w, percent_x)) as u16,
        height: (middle_end(h, percent_y) - middle_start(h, percent_y)) as u16,
    }
}

/// Three shares around a middle one come to no more than the whole.
proof fn lemma_thirds(percent: u16)
    requires
        percent <= 100,
    ensures
        in_shares(thirds(percent)),
        share_before(thirds(percent), 1) == (100 - percent) / 2,
        share_before(thirds(percent), 2) == (100 - percent) / 2 + percent,
{
    reveal_with_fuel(share_before, 4);
}

fn in_thirds(percent: u16) -> (v: Vec<Constraint>)
    requires
        percent <= 100,
    ensures
        v@ == thirds(percent),
{
    let margin: u16 = (100 - percent) / 2;
    let mut v: Vec<Constraint> = Vec::new();
    v.push(Constraint::Percentage(margin));
    v.push(Constraint::Percentage(percent));
    v.push(Constraint::Percentage(margin));
    v
}

/// A rectangle in the middle of `area`, at most the given share of each side.
pub fn centered_rect(percent_x: u16, percent_y: u16, area: Rect) -> (r: Rect)
    requires
        percent_x <= 100,
        percent_y <= 100,
        on_screen(area),
    ensures
        r == centred(percent_x, percent_y, area),
        inside(r, area),
        on_screen(r),
{
    proof {
        lemma_thirds(percent_x);
        lemma_thirds(percent_y);
    }
    let rows = in_thirds(percent_y);
    let vertical = split(true, &rows, area);
    let cols = in_thirds(percent_x);
    let middle = vertical[1];
    assert(inside(vertical@[1], area));
    let horizontal = split(false, &cols, middle);
    assert(inside(horizontal@[1], middle));
    horizontal[1]
}

/// The left `percent` of `area`, to the nearest cell.
pub open spec fn left_share(percent: u16, area: Rect) -> Rect {
    Rect { width: nearest(area.width as int, percent as int) as u16, ..area }
}

/// What the left `percent` of `area` leaves.
pub open spec fn right_share(percent: u16, area: Rect) -> Rect {
    let w = nearest(area.width as int, percent as int);
    Rect { x: (area.x + w) as u16, width: (area.width - w) as u16, ..area }
}

/// Two panes side by side, the left one `percent` of `area`.
pub fn side_by_side(percent: u16, area: Rect) -> (r: (Rect, Rect))
    requires
        percent <= 100,
        on_screen(area),
    ensures
        r.0 == left_share(percent, area),
        r.1 == right_share(percent, area),
        on_screen(r.0),
        on_screen(r.1),
{
    let mut cs: Vec<Constraint> = Vec::new();
    cs.push(Constraint::Percentage(percent));
    cs.push(Constraint::Percentage(100 - percent));
    proof {
        reveal_with_fuel(share_before, 3);
        assert(in_shares(cs@));
        assert(share_before(cs@, 0) == 0 && share_before(cs@, 2) == 100);
        assert(nearest(area.width as int, 0) == 0);
        assert(nearest(area.width as int, 100) == area.width);
    }
    let pieces = split(false, &cs, area);
    assert(inside(pieces@[0], area));
    assert(inside(pieces@[1], area));
    (pieces[0], pieces[1])
}

/// Two panes side by side meet, and between them are the whole area: no cell is
/// in both, and none is left over.
pub proof fn law_panes_share_the_width(percent: u16, area: Rect)
    requires
        percent <= 100,
        on_screen(area),
    ensures
        left_share(percent, area).x == area.x,
        left_share(percent, area).x + left_share(percent, area).width == right_share(
            percent,
            area,
        ).x,
        right_share(percent, area).x + right_share(percent, area).width == area.x + area.width,
{
    assert(0 <= area.width * percent <= area.width * 100) by (nonlinear_arith)
        requires
            percent <= 100,
    ;
}

} // verus!
