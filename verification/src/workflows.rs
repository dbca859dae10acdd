//! A repo's workflows, and the latest runs of the selected one.

use vstd::prelude::*;
use vstd::string::*;

use crate::clock::{ago_style, ago_text, relative_styled, secs_since};
use crate::geometry::{framed, inner_of, inside, left_share, less, lesser, no_padding, on_screen, right_share, side_by_side, split, split_into, Constraint, Rect};
use crate::hits::{all_rows, register_rows, table_clicks, RowKind};
use crate::list::{count_if, count_of, each, none, push_if, put_all};
use crate::ops::{add_blank_cell, add_cell, add_frame, add_table, add_text, blank, cell1, empty_ops, just, one_line, panel, panel_border, plain_panel, render_empty, say_of, styled_block, text_op, Cell, Op, OpV, Row, RowV, Table, TableV};
use crate::paint::{bg, fg, plain, sp, span, Paint, Role, Span, SpanV, Style};
use crate::state::{App, Run, Status, Workflow};
use crate::status::{row_bg_for_status, style_for_status};
use crate::text::{cat2, dec, num, same};

verus! {

broadcast use vstd::string::group_string_axioms;

/// Workflows whose last run has this status.
pub open spec fn last_in(s: Status) -> spec_fn(Workflow) -> bool {
    |w: Workflow| w.last_status == Some(s)
}

fn count_last(ws: &Vec<Workflow>, s: Status) -> (n: usize)
    ensures
        n as nat == count_if(ws@, last_in(s)),
{
    count_of(
        ws,
        (|w: &Workflow| -> (r: bool)
            ensures
                r == (w.last_status == Some(s)),
        {
            match w.last_status {
                Some(x) => x == s,
                None => false,
            }
        }),
        Ghost(last_in(s)),
    )
}

/// How runs stand, in three numbers: what is running only when anything is.
pub open spec fn three_tallies(ok: nat, fail: nat, going: nat) -> Seq<SpanV> {
    push_if(
        seq![sp("✓"@ + dec(ok), fg(Role::Success))].push(sp("  ✗"@ + dec(fail), fg(Role::Failure))),
        going > 0,
        sp("  ⏵"@ + dec(going), fg(Role::Warning).bold()),
    )
}

/// How runs stand, in three numbers.
pub fn tally_spans(ok: usize, fail: usize, going: usize) -> (v: Vec<Span>)
    ensures
        v.deep_view() == three_tallies(ok as nat, fail as nat, going as nat),
{
    let mut v: Vec<Span> = none();
    let n = num(ok as u128);
    say_of(&mut v, cat2("✓", &n), fg(Role::Success));
    let n = num(fail as u128);
    say_of(&mut v, cat2("  ✗", &n), fg(Role::Failure));
    if going > 0 {
        let n = num(going as u128);
        say_of(&mut v, cat2("  ⏵", &n), fg(Role::Warning).bold());
    }
    v
}

/// The style of a selected row.
#[verifier::allow_in_spec]
pub fn selected_on(ground: Role) -> Style
    returns
        (bg(ground).with_fg(Paint::Plain(Role::TextBright)).bold()),
{
    bg(ground).with_fg(Paint::Plain(Role::TextBright)).bold()
}

/// The status of a workflow's last run, unknown when it has never run.
pub open spec fn last_status(w: Workflow) -> Status {
    match w.last_status {
        Some(s) => s,
        None => Status::Unknown,
    }
}

/// One workflow.
pub open spec fn workflow_row(state: App, w: Workflow) -> RowV {
    let s = last_status(w);
    RowV {
        cells: seq![cell1(state.glyphs.mark(s), style_for_status(s))].push(
            cell1(w.name@, plain()),
        ).push(cell1(w.file_name@, fg(Role::TextMuted))).push(
            match w.last_run_at {
                Some(t) => cell1(
                    ago_text(secs_since(t, state.now)),
                    ago_style(secs_since(t, state.now)),
                ),
                None => cell1("—"@, fg(Role::Unknown)),
            },
        ).push(
            cell1(
                if w.triggerable {
                    "t"@
                } else {
                    " "@
                },
                fg(Role::Accent),
            ),
        ),
        height: 1,
        style: bg(row_bg_for_status(s)),
    }
}

fn workflow_row_of(state: &App, w: &Workflow) -> (r: Row)
    ensures
        r.deep_view() == workflow_row(*state, *w),
{
    let s = match w.last_status {
        Some(s) => s,
        None => Status::Unknown,
    };
    let mut cells: Vec<Cell> = none();
    add_cell(&mut cells, state.glyphs.of(s), style_for_status(s));
    add_cell(&mut cells, &w.name, plain());
    add_cell(&mut cells, &w.file_name, fg(Role::TextMuted));
    match w.last_run_at {
        Some(t) => {
            let (text, style) = relative_styled(t, state.now);
            add_cell(&mut cells, &text, style);
        },
        None => {
            add_cell(&mut cells, "—", fg(Role::Unknown));
        },
    }
    if w.triggerable {
        add_cell(&mut cells, "t", fg(Role::Accent));
    } else {
        add_cell(&mut cells, " ", fg(Role::Accent));
    }
    Row { cells, height: 1, style: bg(row_bg_for_status(s)) }
}

/// The table of workflows.
pub open spec fn workflow_table(state: App) -> TableV {
    let h = fg(Role::TextMuted);
    TableV {
        header: seq![blank()].push(cell1("Workflow"@, h)).push(cell1("File"@, h)).push(
            cell1("Last run"@, h),
        ).push(blank()),
        rows: Seq::new(state.workflows@.len(), |i: int| workflow_row(state, state.workflows@[i])),
        widths: seq![Constraint::Length(1)].push(Constraint::Fill(55)).push(
            Constraint::Fill(45),
        ).push(Constraint::Length(10)).push(Constraint::Length(1)),
        spacing: 2,
        highlight: selected_on(Role::SelectBg),
        symbol: sp("▶ "@, plain()),
        selected: Some(state.workflow_cursor),
    }
}

fn workflow_table_of(state: &App) -> (t: Table)
    ensures
        t.deep_view() == workflow_table(*state),
{
    let h = fg(Role::TextMuted);
    let mut header: Vec<Cell> = none();
    add_blank_cell(&mut header);
    add_cell(&mut header, "Workflow", h);
    add_cell(&mut header, "File", h);
    add_cell(&mut header, "Last run", h);
    add_blank_cell(&mut header);
    let mut widths: Vec<Constraint> = Vec::new();
    widths.push(Constraint::Length(1));  // status glyph
    widths.push(Constraint::Fill(55));  // workflow name
    widths.push(Constraint::Fill(45));  // file
    widths.push(Constraint::Length(10));  // last run
    widths.push(Constraint::Length(1));  // triggerable
    let ghost g = |i: int| workflow_row(*state, state.workflows@[i]);
    let rows = each(
        state.workflows.len(),
        (|i: usize| -> (r: Row)
            requires
                i < state.workflows@.len(),
            ensures
                r.deep_view() == workflow_row(*state, state.workflows@[i as int]),
        {
            workflow_row_of(state, &state.workflows[i])
        }),
        Ghost(g),
    );
    assert(rows.deep_view() =~= workflow_table(*state).rows);
    Table {
        header,
        rows,
        widths,
        spacing: 2,
        highlight: selected_on(Role::SelectBg),
        symbol: span("▶ ", plain()),
        selected: Some(state.workflow_cursor),
    }
}

/// The list of workflows.
pub open spec fn workflow_list(state: App, area: Rect) -> Seq<OpV> {
    let ws = state.workflows@;
    let inner = framed(area, no_padding());
    let frame = seq![
        OpV::Frame {
            area,
            border: panel_border(
                "Workflows  "@ + dec(ws.len()),
                three_tallies(
                    count_if(ws, last_in(Status::Success)),
                    count_if(ws, last_in(Status::Failure)),
                    count_if(ws, last_in(Status::Running)),
                ),
                Role::Primary,
            ),
        },
    ];
    if inner.height < 2 {
        frame
    } else if ws.len() == 0 {
        frame + empty_ops(
            inner,
            "⚙"@,
            "This repo has no workflows."@,
            "add one under .github/workflows, or press H for the other repos"@,
        )
    } else {
        frame.push(OpV::Grid { area: inner, table: workflow_table(state) }) + table_clicks(
            inner,
            2,
            1,
            ws.len() as int,
            state.workflow_cursor as int,
            all_rows(RowKind::Workflow),
        )
    }
}

/// The list of workflows.
pub fn render_workflows_list(state: &App, area: Rect) -> (ops: Vec<Op>)
    requires
        on_screen(area),
        state.workflow_cursor < usize::MAX,
    ensures
        ops.deep_view() == workflow_list(*state, area),
{
    let ws = &state.workflows;
    let tallies = tally_spans(
        count_last(ws, Status::Success),
        count_last(ws, Status::Failure),
        count_last(ws, Status::Running),
    );
    let n = num(ws.len() as u128);
    let name = cat2("Workflows  ", &n);
    let mut ops: Vec<Op> = none();
    add_frame(&mut ops, area, panel(&name, tallies, Role::Primary));
    let inner = inner_of(area, no_padding());
    if inner.height < 2 {
        return ops;
    }
    if ws.len() == 0 {
        put_all(
            &mut ops,
            render_empty(
                inner,
                "⚙",
                "This repo has no workflows.",
                "add one under .github/workflows, or press H for the other repos",
            ),
        );
        return ops;
    }
    add_table(&mut ops, inner, workflow_table_of(state));
    register_rows(
        &mut ops,
        inner,
        2,
        1,
        ws.len(),
        state.workflow_cursor,
        RowKind::Workflow,
    );
    ops
}

// ── The preview ────────────────────────────────────────────────────────────

/// The workflow under the cursor.
pub open spec fn selected(state: App) -> Option<Workflow> {
    if state.workflow_cursor < state.workflows@.len() {
        Some(state.workflows@[state.workflow_cursor as int])
    } else {
        None
    }
}

/// Whether the runs on hand are those of the workflow under the cursor.
pub open spec fn preview_ready(state: App) -> bool {
    &&& selected(state) is Some
    &&& state.workflow_preview_file is Some
    &&& state.workflow_preview_file->0@ == selected(state)->0.file_name@
    &&& state.workflow_preview_runs@.len() > 0
}

/// The colour of a run's block.
#[verifier::allow_in_spec]
pub fn block_role(s: Status) -> Role
    returns
        (match s {
            Status::Success => Role::Success,
            Status::Failure => Role::Failure,
            Status::Running => Role::Warning,
            _ => Role::Unknown,
        }),
{
    match s {
        Status::Success => Role::Success,
        Status::Failure => Role::Failure,
        Status::Running => Role::Warning,
        _ => Role::Unknown,
    }
}

/// How many blocks, three columns each and one apart, fit in `width`.
pub open spec fn blocks(runs: nat, width: u16) -> int {
    lesser(runs as int, (width + 1) / 4)
}

/// Block `i` from the left, oldest first.
pub open spec fn block(runs: Seq<Run>, area: Rect, i: int) -> OpV {
    let h = if area.height / 2 > 1 {
        (area.height / 2) as int
    } else {
        1
    };
    OpV::Ground {
        area: Rect {
            x: (area.x + i * 4) as u16,
            y: (area.y + less(area.height as int, h) / 2) as u16,
            width: 3,
            height: h as u16,
        },
        style: bg(block_role(runs[runs.len() - 1 - i].status)),
    }
}

/// Blocks stay in their band: none runs past its right edge, and no two touch.
pub proof fn law_blocks_stay_in_their_band(runs: nat, area: Rect, i: int)
    requires
        on_screen(area),
        0 <= i < blocks(runs, area.width),
    ensures
        area.x + i * 4 + 3 <= area.x + area.width,
{
}

fn blocks_of(runs: &Vec<Run>, area: Rect) -> (ops: Vec<Op>)
    requires
        on_screen(area),
        area.width < 0xffff,
        area.y < 0xffff,
    ensures
        ops.deep_view() == Seq::new(
            blocks(runs@.len(), area.width) as nat,
            |i: int| block(runs@, area, i),
        ),
{
    let most: usize = ((area.width + 1) / 4) as usize;
    let n: usize = if runs.len() < most {
        runs.len()
    } else {
        most
    };
    let h: u16 = if area.height / 2 > 1 {
        area.height / 2
    } else {
        1
    };
    let y: u16 = area.y + area.height.saturating_sub(h) / 2;
    let ghost g = |i: int| block(runs@, area, i);
    let ops = each(
        n,
        (|i: usize| -> (op: Op)
            requires
                i < n,
                n <= runs@.len(),
                n <= (area.width + 1) / 4,
                on_screen(area),
                h == (if area.height / 2 > 1 { (area.height / 2) as int } else { 1int }),
                y == area.y + less(area.height as int, h as int) / 2,
            ensures
                op.deep_view() == block(runs@, area, i as int),
        {
            let run = &runs[runs.len() - 1 - i];
            Op::Ground {
                area: Rect { x: area.x + i as u16 * 4, y, width: 3, height: h },
                style: bg(block_role(run.status)),
            }
        }),
        Ghost(g),
    );
    assert(ops.deep_view() =~= Seq::new(
        blocks(runs@.len(), area.width) as nat,
        |i: int| block(runs@, area, i),
    ));
    ops
}

/// One run of the preview.
pub open spec fn preview_row(state: App, r: Run) -> RowV {
    RowV {
        cells: seq![cell1(state.glyphs.mark(r.status), style_for_status(r.status))].push(
            cell1(r.head_branch@, fg(Role::Accent)),
        ).push(
            cell1(
                ago_text(secs_since(r.updated_at, state.now)),
                ago_style(secs_since(r.updated_at, state.now)),
            ),
        ),
        height: 1,
        style: bg(row_bg_for_status(r.status)),
    }
}

fn preview_row_of(state: &App, r: &Run) -> (row: Row)
    ensures
        row.deep_view() == preview_row(*state, *r),
{
    let mut cells: Vec<Cell> = none();
    add_cell(&mut cells, state.glyphs.of(r.status), style_for_status(r.status));
    add_cell(&mut cells, &r.head_branch, fg(Role::Accent));
    let (text, style) = relative_styled(r.updated_at, state.now);
    add_cell(&mut cells, &text, style);
    Row { cells, height: 1, style: bg(row_bg_for_status(r.status)) }
}

/// The preview's table, its newest run lit.
pub open spec fn preview_table(state: App) -> TableV {
    let h = fg(Role::TextMuted);
    let runs = state.workflow_preview_runs@;
    TableV {
        header: seq![blank()].push(cell1("Branch"@, h)).push(cell1("Updated"@, h)),
        rows: Seq::new(runs.len(), |i: int| preview_row(state, runs[i])),
        widths: seq![Constraint::Length(1)].push(Constraint::Fill(1)).push(Constraint::Length(10)),
        spacing: 2,
        highlight: selected_on(Role::SelectBgDim),
        symbol: sp("▶ "@, plain()),
        selected: Some(0),
    }
}

fn preview_table_of(state: &App) -> (t: Table)
    ensures
        t.deep_view() == preview_table(*state),
{
    let h = fg(Role::TextMuted);
    let mut header: Vec<Cell> = none();
    add_blank_cell(&mut header);
    add_cell(&mut header, "Branch", h);
    add_cell(&mut header, "Updated", h);
    let mut widths: Vec<Constraint> = Vec::new();
    widths.push(Constraint::Length(1));  // status glyph
    widths.push(Constraint::Fill(1));  // branch
    widths.push(Constraint::Length(10));  // updated
    let runs = &state.workflow_preview_runs;
    let ghost g = |i: int| preview_row(*state, runs@[i]);
    let rows = each(
        runs.len(),
        (|i: usize| -> (r: Row)
            requires
                i < runs@.len(),
            ensures
                r.deep_view() == preview_row(*state, runs@[i as int]),
        {
            preview_row_of(state, &runs[i])
        }),
        Ghost(g),
    );
    assert(rows.deep_view() =~= preview_table(*state).rows);
    Table {
        header,
        rows,
        widths,
        spacing: 2,
        highlight: selected_on(Role::SelectBgDim),
        symbol: span("▶ ", plain()),
        selected: Some(0),
    }
}

/// How the preview is cut: a band of blocks, and the runs.
pub open spec fn preview_cut() -> Seq<Constraint> {
    seq![Constraint::Length(3)].push(Constraint::Min(0))
}

/// The preview's parts, in the pieces it was cut into.
pub open spec fn preview_parts(state: App, pieces: Seq<Rect>) -> Seq<OpV> {
    let runs = state.workflow_preview_runs@;
    Seq::new(
        blocks(runs.len(), pieces[0].width) as nat,
        |i: int| block(runs, pieces[0], i),
    ).push(OpV::Grid { area: pieces[1], table: preview_table(state) })
}

/// Whether these are the operations of the preview.
pub open spec fn is_preview(ops: Seq<OpV>, state: App, area: Rect) -> bool {
    let inner = framed(area, no_padding());
    let frame = seq![
        OpV::Frame {
            area,
            border: plain_panel(
                match selected(state) {
                    Some(w) => w.name@,
                    None => "Runs"@,
                },
            ),
        },
    ];
    if inner.height < 2 {
        ops == frame
    } else if !preview_ready(state) {
        ops == frame.push(text_op(inner, one_line("loading…"@, fg(Role::TextFaint))))
    } else {
        exists|pieces: Seq<Rect>|
            #[trigger] split_into(pieces, true, preview_cut(), inner) && ops == frame
                + preview_parts(state, pieces)
    }
}

/// The latest runs of the workflow under the cursor.
pub fn render_workflows_preview(state: &App, area: Rect) -> (ops: Vec<Op>)
    requires
        on_screen(area),
    ensures
        is_preview(ops.deep_view(), *state, area),
{
    let mut ops: Vec<Op> = none();
    let mut ready = false;
    if state.workflow_cursor < state.workflows.len() {
        let w = &state.workflows[state.workflow_cursor];
        add_frame(&mut ops, area, styled_block(&w.name));
        if let Some(f) = &state.workflow_preview_file {
            ready = same(f, &w.file_name) && state.workflow_preview_runs.len() > 0;
        }
    } else {
        add_frame(&mut ops, area, styled_block("Runs"));
    }
    assert(ready == preview_ready(*state));
    let inner = inner_of(area, no_padding());
    if inner.height < 2 {
        return ops;
    }
    if !ready {
        add_text(&mut ops, inner, just("loading…", fg(Role::TextFaint)));
        return ops;
    }
    let ghost frame = ops.deep_view();
    let mut cs: Vec<Constraint> = Vec::new();
    cs.push(Constraint::Length(3));
    cs.push(Constraint::Min(0));
    let pieces = split(true, &cs, inner);
    assert(inside(pieces@[0], inner));
    let mut parts = blocks_of(&state.workflow_preview_runs, pieces[0]);
    add_table(&mut parts, pieces[1], preview_table_of(state));
    put_all(&mut ops, parts);
    assert(split_into(pieces@, true, preview_cut(), inner));
    ops
}

/// Whether these are the operations of the workflows view: the list, and the
/// preview beside it.
pub open spec fn is_workflows_view(ops: Seq<OpV>, state: App, area: Rect) -> bool {
    exists|rest: Seq<OpV>| #[trigger]
        is_preview(rest, state, right_share(58, area)) && ops == workflow_list(
            state,
            left_share(58, area),
        ) + rest
}

/// A repo's workflows, and the latest runs of the selected one.
pub fn render_workflows(state: &App, area: Rect) -> (ops: Vec<Op>)
    requires
        on_screen(area),
        state.workflow_cursor < usize::MAX,
    ensures
        is_workflows_view(ops.deep_view(), *state, area),
{
    let (list, preview) = side_by_side(58, area);
    let mut ops = render_workflows_list(state, list);
    let rest = render_workflows_preview(state, preview);
    let ghost r = rest.deep_view();
    put_all(&mut ops, rest);
    assert(is_preview(r, *state, right_share(58, area)));
    ops
}

} // verus!
