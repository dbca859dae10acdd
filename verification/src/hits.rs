//! Click targets: the visible rows of a table.

use vstd::prelude::*;

use crate::geometry::{inside, less, lesser, on_screen, Rect};
use crate::ops::{add_click, Hit, Op, OpV};

verus! {

/// How many rows of a table are on screen at once, never less than one.
pub open spec fn visible_rows(inner: Rect, header_rows: u16, row_h: u16) -> int {
    let n = less(inner.height as int, header_rows as int) / (row_h as int);
    if n > 1 {
        n
    } else {
        1
    }
}

/// The first row on screen: a table is scrolled only as far as it must be for
/// the selected row to fit.
pub open spec fn first_row(inner: Rect, header_rows: u16, row_h: u16, selected: int) -> int {
    less(selected + 1, visible_rows(inner, header_rows, row_h))
}

/// Where row `r` is on screen.
pub open spec fn row_rect(
    inner: Rect,
    header_rows: u16,
    row_h: u16,
    selected: int,
    r: int,
) -> Rect {
    Rect {
        x: inner.x,
        y: (inner.y + header_rows + (r - first_row(inner, header_rows, row_h, selected)) * row_h) as u16,
        width: inner.width,
        height: row_h,
    }
}

/// The click targets of the rows from the first on screen up to row `to`.
pub open spec fn clicks_upto(
    inner: Rect,
    header_rows: u16,
    row_h: u16,
    selected: int,
    f: spec_fn(int) -> Option<Hit>,
    to: int,
) -> Seq<OpV>
    decreases to - first_row(inner, header_rows, row_h, selected),
{
    if to <= first_row(inner, header_rows, row_h, selected) {
        Seq::empty()
    } else {
        let front = clicks_upto(inner, header_rows, row_h, selected, f, to - 1);
        match f(to - 1) {
            Some(hit) => front.push(
                OpV::Click { area: row_rect(inner, header_rows, row_h, selected, to - 1), hit },
            ),
            None => front,
        }
    }
}

/// Whether a table has any room for rows, and any rows to put in it.
pub open spec fn has_rows(inner: Rect, header_rows: u16, row_h: u16, total: int) -> bool {
    inner.height > header_rows && row_h > 0 && total > 0
}

/// The click targets of a table: its rows on screen, those that stand for
/// something.
pub open spec fn table_clicks(
    inner: Rect,
    header_rows: u16,
    row_h: u16,
    total: int,
    selected: int,
    f: spec_fn(int) -> Option<Hit>,
) -> Seq<OpV> {
    if !has_rows(inner, header_rows, row_h, total) {
        Seq::empty()
    } else {
        clicks_upto(
            inner,
            header_rows,
            row_h,
            selected,
            f,
            lesser(
                total,
                first_row(inner, header_rows, row_h, selected) + visible_rows(
                    inner,
                    header_rows,
                    row_h,
                ),
            ),
        )
    }
}

/// The selected row is always among those on screen.
pub proof fn law_selected_row_is_on_screen(inner: Rect, header_rows: u16, row_h: u16, selected: int)
    requires
        selected >= 0,
    ensures
        first_row(inner, header_rows, row_h, selected) <= selected < first_row(
            inner,
            header_rows,
            row_h,
            selected,
        ) + visible_rows(inner, header_rows, row_h),
{
}

proof fn lemma_rows_fit(h: int, row_h: int, k: int)
    requires
        0 < row_h <= h,
        0 <= k < h / row_h,
    ensures
        0 <= k * row_h,
        k * row_h + row_h <= h,
{
    assert((k + 1) * row_h <= (h / row_h) * row_h) by (nonlinear_arith)
        requires
            k + 1 <= h / row_h,
            row_h > 0,
    ;
    assert((h / row_h) * row_h <= h) by (nonlinear_arith)
        requires
            row_h > 0,
            h >= 0,
    ;
    assert((k + 1) * row_h == k * row_h + row_h) by (nonlinear_arith);
    assert(0 <= k * row_h) by (nonlinear_arith)
        requires
            0 <= k,
            0 < row_h,
    ;
}

/// A click target never leaves its table, nor touches the header: every row on
/// screen is drawn whole below the header.
pub proof fn law_clicks_stay_in_the_table(
    inner: Rect,
    header_rows: u16,
    row_h: u16,
    selected: int,
    r: int,
)
    requires
        on_screen(inner),
        selected >= 0,
        0 < row_h,
        header_rows + row_h <= inner.height,
        first_row(inner, header_rows, row_h, selected) <= r < first_row(
            inner,
            header_rows,
            row_h,
            selected,
        ) + visible_rows(inner, header_rows, row_h),
    ensures
        inside(row_rect(inner, header_rows, row_h, selected, r), inner),
        row_rect(inner, header_rows, row_h, selected, r).y >= inner.y + header_rows,
{
    let h = inner.height - header_rows;
    let k = r - first_row(inner, header_rows, row_h, selected);
    assert(h / (row_h as int) >= 1) by (nonlinear_arith)
        requires
            h >= row_h,
            row_h > 0,
    ;
    lemma_rows_fit(h, row_h as int, k);
}

/// Two rows never answer to the same click: their targets do not meet.
pub proof fn law_clicks_do_not_overlap(
    inner: Rect,
    header_rows: u16,
    row_h: u16,
    selected: int,
    r: int,
    s: int,
)
    requires
        on_screen(inner),
        selected >= 0,
        0 < row_h,
        header_rows + row_h <= inner.height,
        first_row(inner, header_rows, row_h, selected) <= r < s < first_row(
            inner,
            header_rows,
            row_h,
            selected,
        ) + visible_rows(inner, header_rows, row_h),
    ensures
        row_rect(inner, header_rows, row_h, selected, r).y + row_h <= row_rect(
            inner,
            header_rows,
            row_h,
            selected,
            s,
        ).y,
{
    law_clicks_stay_in_the_table(inner, header_rows, row_h, selected, r);
    law_clicks_stay_in_the_table(inner, header_rows, row_h, selected, s);
    let f = first_row(inner, header_rows, row_h, selected);
    let h = inner.height - header_rows;
    lemma_rows_fit(h, row_h as int, r - f);
    lemma_rows_fit(h, row_h as int, s - f);
    assert((r - f) * row_h + row_h <= (s - f) * row_h) by (nonlinear_arith)
        requires
            r + 1 <= s,
            row_h > 0,
    ;
}

/// Register the visible rows of a just-drawn table as click targets.
///
/// The table is scrolled from the top only as far as it must be for the
/// selected row to fit. A table that never scrolls passes a selected row of
/// zero, which pins it to the top.
pub fn register_table_hits<F: Fn(usize) -> Option<Hit>>(
    ops: &mut Vec<Op>,
    inner: Rect,
    header_rows: u16,
    row_h: u16,
    total_rows: usize,
    selected_row: usize,
    hit_for: F,
    Ghost(f): Ghost<spec_fn(int) -> Option<Hit>>,
)
    requires
        on_screen(inner),
        selected_row < usize::MAX,
        forall|i: usize| i < total_rows ==> call_requires(hit_for, (i,)),
        forall|i: usize, h: Option<Hit>|
            i < total_rows && call_ensures(hit_for, (i,), h) ==> h == f(i as int),
    ensures
        final(ops).deep_view() == old(ops).deep_view() + table_clicks(
            inner,
            header_rows,
            row_h,
            total_rows as int,
            selected_row as int,
            f,
        ),
{
    let avail: u16 = inner.height.saturating_sub(header_rows);
    if avail == 0 || row_h == 0 || total_rows == 0 {
        assert(ops.deep_view() =~= old(ops).deep_view() + Seq::<OpV>::empty());
        return;
    }
    let shown: usize = (avail / row_h) as usize;
    let visible: usize = if shown > 1 {
        shown
    } else {
        1
    };
    assert(visible == visible_rows(inner, header_rows, row_h));
    let offset: usize = (selected_row + 1).saturating_sub(visible);
    assert(offset == first_row(inner, header_rows, row_h, selected_row as int));
    let end: usize = if total_rows < offset + visible {
        total_rows
    } else {
        offset + visible
    };
    let mut r: usize = offset;
    assert(ops.deep_view() =~= old(ops).deep_view() + Seq::<OpV>::empty());
    while r < end
        invariant
            offset <= r,
            r <= end || r == offset,
            end <= total_rows,
            end <= offset + visible,
            on_screen(inner),
            row_h > 0,
            avail == inner.height - header_rows,
            avail > 0,
            shown == avail / row_h,
            visible == (if shown > 1 { shown } else { 1 }),
            offset == first_row(inner, header_rows, row_h, selected_row as int),
            forall|i: usize| i < total_rows ==> call_requires(hit_for, (i,)),
            forall|i: usize, h: Option<Hit>|
                i < total_rows && call_ensures(hit_for, (i,), h) ==> h == f(i as int),
            ops.deep_view() == old(ops).deep_view() + clicks_upto(
                inner,
                header_rows,
                row_h,
                selected_row as int,
                f,
                r as int,
            ),
        decreases end - r,
    {
        proof {
            let k = r - offset;
            if row_h <= avail {
                assert(avail / row_h >= 1) by (nonlinear_arith)
                    requires
                        avail >= row_h,
                        row_h > 0,
                ;
                lemma_rows_fit(avail as int, row_h as int, k as int);
            } else {
                assert(avail / row_h == 0) by (nonlinear_arith)
                    requires
                        avail < row_h,
                ;
                assert(k * row_h == 0) by (nonlinear_arith)
                    requires
                        k == 0,
                ;
            }
        }
        let got = hit_for(r);
        let ghost before = ops.deep_view();
        if let Some(h) = got {
            let y: u16 = inner.y + header_rows + ((r - offset) as u16) * row_h;
            add_click(ops, Rect { x: inner.x, y, width: inner.width, height: row_h }, h);
        }
        assert(ops.deep_view() =~= old(ops).deep_view() + clicks_upto(
            inner,
            header_rows,
            row_h,
            selected_row as int,
            f,
            r + 1,
        ));
        r = r + 1;
    }
    if end <= offset {
        assert(clicks_upto(inner, header_rows, row_h, selected_row as int, f, end as int)
            == Seq::<OpV>::empty());
    }
}

/// What every row of a table stands for.
#[derive(Clone, Copy, PartialEq, Eq, Debug, Structural)]
pub enum RowKind {
    GitEntry,
    Workflow,
    Run,
    DetailItem,
}

impl RowKind {
    /// What a click on row `r` lands on.
    #[verifier::allow_in_spec]
    pub fn hit(self, r: usize) -> Hit
        returns
            (match self {
                RowKind::GitEntry => Hit::GitEntry(r),
                RowKind::Workflow => Hit::Workflow(r),
                RowKind::Run => Hit::Run(r),
                RowKind::DetailItem => Hit::DetailItem(r),
            }),
    {
        match self {
            RowKind::GitEntry => Hit::GitEntry(r),
            RowKind::Workflow => Hit::Workflow(r),
            RowKind::Run => Hit::Run(r),
            RowKind::DetailItem => Hit::DetailItem(r),
        }
    }
}

/// A click on any row lands on what it stands for.
pub open spec fn all_rows(kind: RowKind) -> spec_fn(int) -> Option<Hit> {
    |r: int| Some(kind.hit(r as usize))
}

/// Record the click targets of a table in which every row stands for something.
pub fn register_rows(
    ops: &mut Vec<Op>,
    inner: Rect,
    header_rows: u16,
    row_h: u16,
    total_rows: usize,
    selected_row: usize,
    kind: RowKind,
)
    requires
        on_screen(inner),
        selected_row < usize::MAX,
    ensures
        final(ops).deep_view() == old(ops).deep_view() + table_clicks(
            inner,
            header_rows,
            row_h,
            total_rows as int,
            selected_row as int,
            all_rows(kind),
        ),
{
    register_table_hits(
        ops,
        inner,
        header_rows,
        row_h,
        total_rows,
        selected_row,
        (|r: usize| -> (h: Option<Hit>)
            ensures
                h == Some(kind.hit(r)),
        {
            Some(kind.hit(r))
        }),
        Ghost(all_rows(kind)),
    );
}

} // verus!
