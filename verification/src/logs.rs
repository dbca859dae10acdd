//! The log of a run, and a map of where it went wrong.

use vstd::prelude::*;
use vstd::string::*;

use crate::geometry::{framed, inner_of, larger, less, lesser, on_screen, Padding, Rect};
use crate::list::{each, find_of, first_where, none, push_if, put, put_all};
use crate::ops::{add_frame, just, one_line, plain_panel, styled_block, tell, text_op, Border, BorderV, Op, OpV, Reading};
use crate::paint::{fg, plain, Role};
use crate::state::{App, Log};
use crate::text::{cat3, cat5, dec, num};

verus! {

broadcast use vstd::string::group_string_axioms;

// ── The title ──────────────────────────────────────────────────────────────

/// The name at `i`, or a question mark.
pub open spec fn name_at(names: Seq<String>, i: int) -> Seq<char> {
    if i < names.len() {
        names[i]@
    } else {
        "?"@
    }
}

/// Which of `names` is being read.
pub open spec fn part_title(names: Seq<String>, i: int) -> Seq<char> {
    "Logs — "@ + name_at(names, i) + "  ["@ + dec((i + 1) as nat) + "/"@ + dec(names.len()) + "]"@
}

/// The step or section being read.
pub open spec fn where_in(l: Log) -> Seq<char> {
    match (l.section, l.step) {
        (Some(_), Some(i)) => part_title(l.step_names@, i as int),
        (Some(i), None) => part_title(l.sections@, i as int),
        (None, _) => "Logs"@,
    }
}

/// What is being searched for, and which match this is.
pub open spec fn search_text(l: Log) -> Seq<char> {
    match l.query {
        None => ""@,
        Some(q) => if l.matches == 0 {
            "   /"@ + q@ + "  (no match)"@
        } else {
            "   /"@ + q@ + "  ["@ + dec(
                match l.match_at {
                    Some(i) => (i + 1) as nat,
                    None => 0,
                },
            ) + "/"@ + dec(l.matches as nat) + "]"@
        },
    }
}

/// How much there is, and how much of it is bad: in focus mode, what survived
/// the filter.
pub open spec fn size_text(l: Log) -> Seq<char> {
    if l.focus {
        "   focus  ("@ + dec((l.rendered@.len() - l.folds) as nat) + " of "@ + dec(l.lines as nat)
            + " lines · "@ + dec(l.errors@.len()) + "✗ "@ + dec(l.warnings@.len()) + "⚠)"@
    } else {
        let a = "  ("@ + dec(l.lines as nat) + " lines"@;
        let b = if l.errors@.len() > 0 {
            a + (" · "@ + dec(l.errors@.len()) + "✗"@)
        } else {
            a
        };
        (if l.warnings@.len() > 0 {
            b + (" · "@ + dec(l.warnings@.len()) + "⚠"@)
        } else {
            b
        }) + ")"@
    }
}

/// The log's title.
pub open spec fn log_title(l: Log) -> Seq<char> {
    where_in(l) + search_text(l) + size_text(l)
}

fn part_title_of(names: &Vec<String>, i: usize) -> (t: String)
    ensures
        t@ == part_title(names@, i as int),
{
    let name = if i < names.len() {
        names[i].as_str()
    } else {
        "?"
    };
    let a = num(i as u128 + 1);
    let b = num(names.len() as u128);
    let mut t = cat5("Logs — ", name, "  [", &a, "/");
    t.append(&b);
    t.append("]");
    t
}

fn search_text_of(l: &Log) -> (t: String)
    ensures
        t@ == search_text(*l),
{
    match &l.query {
        None => "".to_string(),
        Some(q) => {
            if l.matches == 0 {
                return cat3("   /", q, "  (no match)");
            }
            let at: u128 = match l.match_at {
                Some(i) => i as u128 + 1,
                None => 0,
            };
            let a = num(at);
            let b = num(l.matches as u128);
            let mut t = cat5("   /", q, "  [", &a, "/");
            t.append(&b);
            t.append("]");
            t
        },
    }
}

fn size_text_of(l: &Log) -> (t: String)
    requires
        l.focus ==> l.folds <= l.rendered@.len(),
    ensures
        t@ == size_text(*l),
{
    let all = num(l.lines as u128);
    let e = num(l.errors.len() as u128);
    let w = num(l.warnings.len() as u128);
    if l.focus {
        // Fold markers are not log lines; counting them would overstate how much
        // of the log survived the filter.
        let kept = num((l.rendered.len() - l.folds) as u128);
        let mut t = cat5("   focus  (", &kept, " of ", &all, " lines · ");
        t.append(&e);
        t.append("✗ ");
        t.append(&w);
        t.append("⚠)");
        return t;
    }
    // "Is there anything wrong in here" is the first question a log has to
    // answer, and scrolling to find out is the slow way to ask it.
    let mut t = cat3("  (", &all, " lines");
    if l.errors.len() > 0 {
        let x = cat3(" · ", &e, "✗");
        t.append(&x);
    }
    if l.warnings.len() > 0 {
        let x = cat3(" · ", &w, "⚠");
        t.append(&x);
    }
    t.append(")");
    t
}

fn log_title_of(l: &Log) -> (t: String)
    requires
        l.focus ==> l.folds <= l.rendered@.len(),
    ensures
        t@ == log_title(*l),
{
    let mut t = match (l.section, l.step) {
        (Some(_), Some(i)) => part_title_of(&l.step_names, i),
        (Some(i), None) => part_title_of(&l.sections, i),
        (None, _) => "Logs".to_string(),
    };
    let s = search_text_of(l);
    t.append(&s);
    let z = size_text_of(l);
    t.append(&z);
    t
}

// ── The map ────────────────────────────────────────────────────────────────

/// Whether a log is long enough, and a pane large enough, for a map to say
/// anything.
pub open spec fn map_fits(area: Rect, total: int, viewport: int) -> bool {
    area.height >= 6 && area.width >= 30 && total > larger(viewport, 1) * 2
}

/// Whether a log is long enough, and a pane large enough, for a map to say
/// anything. Below a few screens everything is one page away.
pub fn minimap_fits(area: Rect, total: usize, viewport: usize) -> (r: bool)
    ensures
        r == map_fits(area, total as int, viewport as int),
{
    let most: u128 = if viewport > 1 {
        viewport as u128
    } else {
        1
    };
    area.height >= 6 && area.width >= 30 && total as u128 > most * 2
}

/// The band of a map `rows` tall that line `line` of `total` falls in.
pub open spec fn band(line: int, rows: int, total: int) -> int {
    (line * rows) / larger(total, 1)
}

/// Rendered rows that show log line `raw`.
pub open spec fn showing(raw: usize) -> spec_fn(Option<usize>) -> bool {
    |s: Option<usize>| s == Some(raw)
}

/// Whether log line `raw` is rendered, in band `r` of the map.
pub open spec fn lands(rendered: Seq<Option<usize>>, raw: usize, rows: int, r: int) -> bool {
    let k = first_where(rendered, showing(raw)) as int;
    k < rendered.len() && band(k, rows, rendered.len() as int) == r
}

/// Whether any of the first `n` of `lines` is in band `r` of the map.
pub open spec fn any_in(
    lines: Seq<usize>,
    n: int,
    rendered: Seq<Option<usize>>,
    rows: int,
    r: int,
) -> bool {
    exists|i: int| 0 <= i < n && lands(rendered, #[trigger] lines[i], rows, r)
}

/// What band `r` of the map says: an error wins over a warning, because it is
/// the one you are looking for.
pub open spec fn band_mark(l: Log, rows: int, r: int) -> int {
    if any_in(l.errors@, l.errors@.len() as int, l.rendered@, rows, r) {
        2
    } else if any_in(l.warnings@, l.warnings@.len() as int, l.rendered@, rows, r) {
        1
    } else {
        0
    }
}

/// Every error that is rendered is on the map, in the band it falls in.
pub proof fn law_every_error_is_on_the_map(l: Log, rows: int, i: int)
    requires
        rows > 0,
        0 <= i < l.errors@.len(),
        first_where(l.rendered@, showing(l.errors@[i])) < l.rendered@.len(),
    ensures
        ({
            let k = first_where(l.rendered@, showing(l.errors@[i])) as int;
            let r = band(k, rows, l.rendered@.len() as int);
            0 <= r < rows && band_mark(l, rows, r) == 2
        }),
{
    let k = first_where(l.rendered@, showing(l.errors@[i])) as int;
    let total = l.rendered@.len() as int;
    lemma_band(k, rows, total);
    let r = band(k, rows, total);
    assert(lands(l.rendered@, l.errors@[i], rows, r));
}

proof fn lemma_band(k: int, rows: int, total: int)
    requires
        0 <= k < total,
        0 < rows,
    ensures
        0 <= band(k, rows, total) < rows,
{
    assert(0 <= (k * rows) / total < rows) by (nonlinear_arith)
        requires
            0 <= k < total,
            0 < rows,
    ;
}

/// Band `r` of the map as drawn: what is bad in it, and whether it is on screen.
pub open spec fn band_op(l: Log, area: Rect, first: int, viewport: int, r: int) -> OpV {
    let rows = area.height - 2;
    let total = l.rendered@.len() as int;
    let here = band(first, rows, total) <= r <= band(lesser(first + viewport, total), rows, total);
    let m = band_mark(l, rows, r);
    let (ch, role) = if m == 2 {
        ("█"@, Role::Failure)
    } else if m == 1 {
        ("▓"@, Role::Warning)
    } else if here {
        ("│"@, Role::TextFaint)
    } else {
        ("·"@, Role::TextGhost)
    };
    text_op(
        Rect {
            x: (area.x + area.width - 2) as u16,
            y: (area.y + 1 + r) as u16,
            width: 1,
            height: 1,
        },
        one_line(
            ch,
            if here {
                fg(role).on(Role::SurfaceAlt)
            } else {
                fg(role)
            },
        ),
    )
}

/// A one-column map of the whole log.
pub open spec fn map_ops(l: Log, area: Rect, first: int, viewport: int) -> Seq<OpV> {
    Seq::new(
        less(area.height as int, 2) as nat,
        |r: int| band_op(l, area, first, viewport, r),
    )
}

fn band_of(line: usize, rows: usize, total: usize) -> (b: u128)
    requires
        rows <= 0xffff,
    ensures
        b == band(line as int, rows as int, total as int),
{
    let most: u128 = if total > 1 {
        total as u128
    } else {
        1
    };
    assert(0 <= line * rows <= 0xffff_ffff_ffff_ffff * 0xffff) by (nonlinear_arith)
        requires
            line <= 0xffff_ffff_ffff_ffff,
            rows <= 0xffff,
    ;
    line as u128 * rows as u128 / most
}

fn mark_bands(
    marks: &mut Vec<u8>,
    lines: &Vec<usize>,
    rendered: &Vec<Option<usize>>,
    by: u8,
)
    requires
        0 < old(marks)@.len() <= 0xffff,
        forall|r: int| 0 <= r < old(marks)@.len() ==> old(marks)@[r] < by,
    ensures
        final(marks)@.len() == old(marks)@.len(),
        forall|r: int|
            0 <= r < old(marks)@.len() ==> #[trigger] final(marks)@[r] == (if any_in(
                lines@,
                lines@.len() as int,
                rendered@,
                old(marks)@.len() as int,
                r,
            ) {
                by
            } else {
                old(marks)@[r]
            }),
{
    let rows: usize = marks.len();
    let ghost before = marks@;
    let mut i: usize = 0;
    assert forall|r: int| 0 <= r < rows implies !any_in(lines@, 0, rendered@, rows as int, r) by {}
    while i < lines.len()
        invariant
            i <= lines@.len(),
            marks@.len() == rows == before.len(),
            0 < rows <= 0xffff,
            forall|r: int|
                0 <= r < rows ==> #[trigger] marks@[r] == (if any_in(
                    lines@,
                    i as int,
                    rendered@,
                    rows as int,
                    r,
                ) {
                    by
                } else {
                    before[r]
                }),
        decreases lines@.len() - i,
    {
        let raw: usize = lines[i];
        let k: usize = find_of(
            rendered,
            (|s: &Option<usize>| -> (b: bool)
                ensures
                    b == (*s == Some(raw)),
            {
                match s {
                    Some(x) => *x == raw,
                    None => false,
                }
            }),
            Ghost(showing(raw)),
        );
        let ghost was = marks@;
        let ghost mut at: int = -1;
        if k < rendered.len() {
            let b: u128 = band_of(k, rows, rendered.len());
            proof {
                lemma_band(k as int, rows as int, rendered@.len() as int);
                at = b as int;
            }
            marks.set(b as usize, by);
        }
        proof {
            assert forall|r: int| 0 <= r < rows implies #[trigger] marks@[r] == (if any_in(
                lines@,
                i + 1,
                rendered@,
                rows as int,
                r,
            ) {
                by
            } else {
                before[r]
            }) by {
                assert(was[r] == (if any_in(lines@, i as int, rendered@, rows as int, r) {
                    by
                } else {
                    before[r]
                }));
                if r == at {
                    assert(lands(rendered@, lines@[i as int], rows as int, r));
                    assert(any_in(lines@, i + 1, rendered@, rows as int, r));
                } else {
                    assert(!lands(rendered@, lines@[i as int], rows as int, r));
                    if any_in(lines@, i as int, rendered@, rows as int, r) {
                        let j = choose|j: int|
                            0 <= j < i && lands(rendered@, #[trigger] lines@[j], rows as int, r);
                        assert(lands(rendered@, lines@[j], rows as int, r));
                    }
                    if any_in(lines@, i + 1, rendered@, rows as int, r) {
                        let j = choose|j: int|
                            0 <= j < i + 1 && lands(
                                rendered@,
                                #[trigger] lines@[j],
                                rows as int,
                                r,
                            );
                        assert(j < i);
                    }
                }
            }
        }
        i = i + 1;
    }
}

/// A one-column map of the whole log down the right-hand rule.
///
/// A scrollbar answers "how far down am I" and nothing else. This answers the
/// question a log actually gets asked: where are the bad parts, and am I near
/// one.
pub fn render_log_minimap(l: &Log, area: Rect, first: usize, viewport: usize) -> (ops: Vec<Op>)
    requires
        on_screen(area),
        area.width >= 2,
        first <= l.rendered@.len(),
        viewport <= 0xffff,
    ensures
        ops.deep_view() == map_ops(*l, area, first as int, viewport as int),
{
    let rows: usize = area.height.saturating_sub(2) as usize;
    if rows == 0 {
        let ops: Vec<Op> = none();
        assert(ops.deep_view() =~= map_ops(*l, area, first as int, viewport as int));
        return ops;
    }
    let mut marks: Vec<u8> = Vec::new();
    let mut i: usize = 0;
    while i < rows
        invariant
            i <= rows,
            marks@.len() == i,
            forall|r: int| 0 <= r < i ==> marks@[r] == 0,
        decreases rows - i,
    {
        marks.push(0);
        i = i + 1;
    }
    mark_bands(&mut marks, &l.warnings, &l.rendered, 1);
    mark_bands(&mut marks, &l.errors, &l.rendered, 2);
    let total: usize = l.rendered.len();
    let top: u128 = band_of(first, rows, total);
    let end: usize = if total - first <= viewport {
        total
    } else {
        first + viewport
    };
    let bottom: u128 = band_of(end, rows, total);
    let ghost g = |r: int| band_op(*l, area, first as int, viewport as int, r);
    assert forall|r: int| 0 <= r < rows implies #[trigger] marks@[r] == band_mark(
        *l,
        rows as int,
        r,
    ) by {}
    let ops = each(
        rows,
        (|r: usize| -> (op: Op)
            requires
                r < rows,
                rows == area.height - 2,
                marks@.len() == rows,
                marks@[r as int] == band_mark(*l, rows as int, r as int),
                on_screen(area),
                area.width >= 2,
                total == l.rendered@.len(),
                top == band(first as int, rows as int, total as int),
                bottom == band(lesser(first + viewport, total as int), rows as int, total as int),
            ensures
                op.deep_view() == band_op(*l, area, first as int, viewport as int, r as int),
        {
            let here = r as u128 >= top && r as u128 <= bottom;
            let m: u8 = marks[r];
            let (ch, role) = if m == 2 {
                ("█", Role::Failure)
            } else if m == 1 {
                ("▓", Role::Warning)
            } else if here {
                ("│", Role::TextFaint)
            } else {
                ("·", Role::TextGhost)
            };
            let style = if here {
                fg(role).on(Role::SurfaceAlt)
            } else {
                fg(role)
            };
            let slot = Rect {
                x: area.x + (area.width - 2),
                y: area.y + 1 + r as u16,
                width: 1,
                height: 1,
            };
            Op::Text {
                area: slot,
                lines: just(ch, style),
                wrap: false,
                scroll: 0,
                ground: plain(),
            }
        }),
        Ghost(g),
    );
    assert(ops.deep_view() =~= map_ops(*l, area, first as int, viewport as int));
    ops
}

// ── The view ───────────────────────────────────────────────────────────────

/// The padding of the log: the map needs a column of its own.
#[verifier::allow_in_spec]
pub fn log_padding(mapped: bool) -> Padding
    returns
        (if mapped {
            Padding { left: 0, right: 2, top: 0, bottom: 0 }
        } else {
            Padding { left: 0, right: 0, top: 0, bottom: 0 }
        }),
{
    if mapped {
        Padding { left: 0, right: 2, top: 0, bottom: 0 }
    } else {
        Padding { left: 0, right: 0, top: 0, bottom: 0 }
    }
}

/// The log.
#[verifier::opaque]
pub open spec fn log_ops(state: App, area: Rect) -> Seq<OpV> {
    let l = state.log;
    let view = less(area.height as int, 2);
    let total = l.rendered@.len() as int;
    let mapped = map_fits(area, total, view);
    let first = lesser(l.scroll as int, total);
    let told = push_if(
        seq![OpV::Tell(Reading::LogsViewportHeight(view as u16))].push(
            OpV::Tell(Reading::LogsViewportWidth(less(area.width as int, 2) as u16)),
        ),
        mapped,
        OpV::Tell(Reading::LogsViewportWidth(less(area.width as int, 4) as u16)),
    );
    let drawn = told.push(
        OpV::Frame {
            area,
            border: BorderV { padding: log_padding(mapped), ..plain_panel(log_title(l)) },
        },
    ).push(
        OpV::LogRows {
            area: framed(area, log_padding(mapped)),
            first: first as usize,
            count: view as usize,
        },
    );
    if mapped {
        drawn + map_ops(l, area, first, view)
    } else {
        drawn
    }
}

/// The log.
///
/// Scrolling counts rendered rows, not screen rows: a wrapped line's height
/// above the viewport can only be estimated, and the error compounds over a
/// long log, so jumps would land in the wrong place.
pub fn render_logs(state: &App, area: Rect) -> (ops: Vec<Op>)
    requires
        on_screen(area),
        state.log.focus ==> state.log.folds <= state.log.rendered@.len(),
    ensures
        ops.deep_view() == log_ops(*state, area),
{
    proof {
        reveal(log_ops);
    }
    let l = &state.log;
    let view: u16 = area.height.saturating_sub(2);
    let mut ops: Vec<Op> = none();
    tell(&mut ops, Reading::LogsViewportHeight(view));
    tell(&mut ops, Reading::LogsViewportWidth(area.width.saturating_sub(2)));
    let total: usize = l.rendered.len();
    let first: usize = if l.scroll < total {
        l.scroll
    } else {
        total
    };
    let mapped = minimap_fits(area, total, view as usize);
    if mapped {
        tell(&mut ops, Reading::LogsViewportWidth(area.width.saturating_sub(4)));
    }
    let title = log_title_of(l);
    let p = styled_block(&title);
    let pad = log_padding(mapped);
    add_frame(
        &mut ops,
        area,
        Border { style: p.style, top: p.top, bottom: p.bottom, padding: pad, ground: p.ground },
    );
    let inner = inner_of(area, pad);
    put(&mut ops, Op::LogRows { area: inner, first, count: view as usize });
    if mapped {
        put_all(&mut ops, render_log_minimap(l, area, first, view as usize));
    }
    ops
}

} // verus!
