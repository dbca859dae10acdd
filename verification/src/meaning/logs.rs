//! What the log says of itself, and where it starts.

use vstd::prelude::*;
use vstd::string::*;

use crate::geometry::Rect;
use crate::list::first_where;
use crate::logs::{any_in, band_mark, band_op, lands, log_ops, log_title, map_fits, map_ops, search_text, showing, size_text, where_in};
use crate::meaning::reading::{given, group_texts, law_the_first_is_found, least, said, titled};
use crate::ops::{OpV, Reading};

use crate::state::{App, Log};
use crate::text::dec;


verus! {

broadcast use {vstd::string::group_string_axioms, group_texts};

/// Which part of a log is being read: its name, and which of how many it is; the
/// whole of it has no name.
pub open spec fn part_says(l: Log) -> Seq<char> {
    let (names, i) = if l.step is Some {
        (l.step_names@, l.step->0)
    } else {
        (l.sections@, l.section->0)
    };
    if l.section is None {
        "Logs"@
    } else {
        "Logs — "@ + (if i < names.len() {
            names[i as int]@
        } else {
            "?"@
        }) + "  ["@ + dec((i + 1) as nat) + "/"@ + dec(names.len()) + "]"@
    }
}

/// What a search has come to: nothing without one, that it found nothing, or which
/// of its matches this is.
pub open spec fn found_says(l: Log) -> Seq<char> {
    given(
        l.query is Some,
        "   /"@ + l.query->0@ + (if l.matches == 0 {
            "  (no match)"@
        } else {
            "  ["@ + dec(
                if l.match_at is Some {
                    (l.match_at->0 + 1) as nat
                } else {
                    0
                },
            ) + "/"@ + dec(l.matches as nat) + "]"@
        }),
    )
}

/// How much of a log there is, and how much of that is bad: in focus, how many of
/// its lines are left with the folds not counted.
pub open spec fn amount_says(l: Log) -> Seq<char> {
    let bad = l.errors@.len();
    let odd = l.warnings@.len();
    if l.focus {
        "   focus  ("@ + dec((l.rendered@.len() - l.folds) as nat) + " of "@ + dec(l.lines as nat)
            + " lines · "@ + dec(bad) + "✗ "@ + dec(odd) + "⚠)"@
    } else {
        "  ("@ + dec(l.lines as nat) + " lines"@ + given(bad > 0, " · "@ + dec(bad) + "✗"@) + given(
            odd > 0,
            " · "@ + dec(odd) + "⚠"@,
        ) + ")"@
    }
}

/// The log is drawn from the row it is scrolled to, or its end, under a title that
/// says which part of it this is, what was searched for, and how much there is.
pub proof fn law_the_log_starts_at_its_scroll(state: App, area: Rect)
    ensures
        ({
            let l = state.log;
            let ops = log_ops(state, area);
            let rows = if area.height >= 2 {
                area.height - 2
            } else {
                0
            };
            let k: int = if map_fits(area, l.rendered@.len() as int, rows) {
                3
            } else {
                2
            };
            &&& ops.len() >= k + 2
            &&& ops[0] == OpV::Tell(Reading::LogsViewportHeight(rows as u16))
            &&& titled(ops[k], part_says(l) + found_says(l) + amount_says(l))
            &&& ops[k + 1] is LogRows
            &&& ops[k + 1]->first == least(l.scroll as int, l.rendered@.len() as int)
            &&& ops[k + 1]->count == rows
        }),
{
    reveal(log_ops);
    reveal_strlit("");
    let l = state.log;
    let ops = log_ops(state, area);
    let rows = if area.height >= 2 {
        area.height - 2
    } else {
        0
    };
    let k: int = if map_fits(area, l.rendered@.len() as int, rows) {
        3
    } else {
        2
    };
    assert(where_in(l) =~= part_says(l));
    assert(search_text(l) =~= found_says(l));
    assert(size_text(l) =~= amount_says(l));
    assert(log_title(l) =~= part_says(l) + found_says(l) + amount_says(l));
    assert(ops[k] is Frame);
    assert(said(ops[k]->border.top[0]) =~= "─┤ "@ + (part_says(l) + found_says(l) + amount_says(l))
        + " ├"@);
}

/// Whether log line `raw` first appears on a row that falls into part `r` of a map
/// `rows` tall.
pub open spec fn falls_in(rendered: Seq<Option<usize>>, raw: usize, rows: int, r: int) -> bool {
    exists|k: int|
        #![trigger rendered[k]]
        {
            &&& 0 <= k < rendered.len() && rendered[k] == Some(raw)
            &&& forall|j: int| 0 <= j < k ==> #[trigger] rendered[j] != Some(raw)
            &&& k * rows / (rendered.len() as int) == r
        }
}

proof fn lemma_falls(rendered: Seq<Option<usize>>, raw: usize, rows: int, r: int)
    ensures
        lands(rendered, raw, rows, r) == falls_in(rendered, raw, rows, r),
{
    law_the_first_is_found(rendered, showing(raw));
    let n = first_where(rendered, showing(raw)) as int;
    if n < rendered.len() {
        assert(rendered[n] == Some(raw));
        assert forall|j: int| 0 <= j < n implies #[trigger] rendered[j] != Some(raw) by {
            assert(!showing(raw)(rendered[j]));
        }
    }
    if falls_in(rendered, raw, rows, r) {
        let k = choose|k: int|
            #![trigger rendered[k]]
            {
                &&& 0 <= k < rendered.len() && rendered[k] == Some(raw)
                &&& forall|j: int| 0 <= j < k ==> #[trigger] rendered[j] != Some(raw)
                &&& k * rows / (rendered.len() as int) == r
            };
        assert(showing(raw)(rendered[k]));
        if n < k {
            assert(rendered[n] != Some(raw));
        }
    }
}

/// The map of a log is red exactly where an error is, and amber exactly where a
/// warning is and no error.
pub proof fn law_the_map_shows_the_worst(l: Log, area: Rect, first: int, viewport: int, r: int)
    requires
        area.height >= 3,
        0 <= r < area.height - 2,
    ensures
        ({
            let words = said(map_ops(l, area, first, viewport)[r]->lines[0]);
            let rows = area.height - 2;
            let bad = exists|i: int|
                0 <= i < l.errors@.len() && falls_in(l.rendered@, #[trigger] l.errors@[i], rows, r);
            let odd = exists|i: int|
                0 <= i < l.warnings@.len() && falls_in(
                    l.rendered@,
                    #[trigger] l.warnings@[i],
                    rows,
                    r,
                );
            &&& map_ops(l, area, first, viewport).len() == rows
            &&& map_ops(l, area, first, viewport)[r]->Text_area.y == (area.y + 1 + r) as u16
            &&& bad ==> words == "█"@
            &&& !bad && odd ==> words == "▓"@
            &&& !bad && !odd ==> words == "│"@ || words == "·"@
        }),
{
    let rows = area.height - 2;
    let op = map_ops(l, area, first, viewport)[r];
    assert(op == band_op(l, area, first, viewport, r));
    assert forall|raw: usize| lands(l.rendered@, raw, rows, r) == #[trigger] falls_in(
        l.rendered@,
        raw,
        rows,
        r,
    ) by {
        lemma_falls(l.rendered@, raw, rows, r);
    }
    let bad = exists|i: int|
        0 <= i < l.errors@.len() && falls_in(l.rendered@, #[trigger] l.errors@[i], rows, r);
    let odd = exists|i: int|
        0 <= i < l.warnings@.len() && falls_in(l.rendered@, #[trigger] l.warnings@[i], rows, r);
    if bad {
        let i = choose|i: int|
            0 <= i < l.errors@.len() && falls_in(l.rendered@, #[trigger] l.errors@[i], rows, r);
        assert(lands(l.rendered@, l.errors@[i], rows, r));
    } else {
        assert(!any_in(l.errors@, l.errors@.len() as int, l.rendered@, rows, r)) by {
            if any_in(l.errors@, l.errors@.len() as int, l.rendered@, rows, r) {
                let i = choose|i: int|
                    0 <= i < l.errors@.len() && lands(
                        l.rendered@,
                        #[trigger] l.errors@[i],
                        rows,
                        r,
                    );
                assert(falls_in(l.rendered@, l.errors@[i], rows, r));
            }
        }
    }
    if odd {
        let i = choose|i: int|
            0 <= i < l.warnings@.len() && falls_in(l.rendered@, #[trigger] l.warnings@[i], rows, r);
        assert(lands(l.rendered@, l.warnings@[i], rows, r));
    } else {
        assert(!any_in(l.warnings@, l.warnings@.len() as int, l.rendered@, rows, r)) by {
            if any_in(l.warnings@, l.warnings@.len() as int, l.rendered@, rows, r) {
                let i = choose|i: int|
                    0 <= i < l.warnings@.len() && lands(
                        l.rendered@,
                        #[trigger] l.warnings@[i],
                        rows,
                        r,
                    );
                assert(falls_in(l.rendered@, l.warnings@[i], rows, r));
            }
        }
    }
    let m = band_mark(l, rows, r);
    let words = said(op->lines[0]);
    if m == 2 {
        assert(words =~= "█"@);
    } else if m == 1 {
        assert(words =~= "▓"@);
    } else {
        assert(words =~= "│"@ || words =~= "·"@);
    }
}

/// What is on screen of a log is marked on its map: the parts from the one of the
/// first row shown to the one of the last are lit, and no others.
pub proof fn law_the_map_shows_what_is_on_screen(
    l: Log,
    area: Rect,
    first: int,
    viewport: int,
    r: int,
)
    requires
        area.height >= 3,
        0 <= r < area.height - 2,
        l.rendered@.len() > 0,
    ensures
        ({
            let rows = area.height - 2;
            let total = l.rendered@.len() as int;
            let style = map_ops(l, area, first, viewport)[r]->lines[0].spans[0].style;
            let here = first * rows / total <= r <= least(first + viewport, total) * rows / total;
            here == (style.bg is Some)
        }),
{
    let op = map_ops(l, area, first, viewport)[r];
    assert(op == band_op(l, area, first, viewport, r));
}

/// A log has its map beside it exactly when it is more than two screens long and its
/// pane is large enough for one: six rows and thirty columns.
pub proof fn law_long_logs_have_their_map(state: App, area: Rect)
    ensures
        ({
            let l = state.log;
            let ops = log_ops(state, area);
            let total = l.rendered@.len() as int;
            let rows = if area.height >= 2 {
                area.height - 2
            } else {
                0
            };
            let mapped = area.height >= 6 && area.width >= 30 && total > 2 * rows;
            let first = least(l.scroll as int, total);
            &&& mapped ==> ops.len() > 5 && ops.skip(5) == map_ops(l, area, first, rows)
            &&& !mapped ==> ops.len() == 4
        }),
{
    reveal(log_ops);
    let l = state.log;
    let ops = log_ops(state, area);
    let total = l.rendered@.len() as int;
    let rows = if area.height >= 2 {
        area.height - 2
    } else {
        0
    };
    let first = least(l.scroll as int, total);
    if area.height >= 6 && area.width >= 30 && total > 2 * rows {
        assert(ops.skip(5) =~= map_ops(l, area, first, rows));
    }
}

} // verus!
