//! The runs of a workflow, and the steps of the selected one.

use vstd::prelude::*;
use vstd::string::*;

use crate::clock::{ago_style, ago_text, elapsed_seconds, elapsed_text, format_elapsed, relative_styled, run_secs, secs_since};
use crate::geometry::{framed, inner_of, no_padding, on_screen, Rect, left_share, right_share, side_by_side, Constraint};
use crate::hits::{all_rows, register_rows, table_clicks, RowKind};
use crate::keys::{display_key, shown};
use crate::list::{count_if, each, none, put, put_all};
use crate::ops::{add_blank, add_blank_cell, add_cell, add_frame, add_line, add_table, add_text, add_wrapped, blank, cell1, empty_ops, just, one_line, panel, panel_border, plain_panel, render_empty, say, say_of, styled_block, text_op, wrapped_op, Border, BorderV, Cell, CellV, Op, OpV, Row, RowV, Table, TableV};
use crate::paint::{bg, empty_line, fg, line, line_of, ln, ln1, plain, sp, span, Line, LineV, Role, Span};
use crate::state::{App, Job, Run, RunDetail, Status};
use crate::status::{count_runs, runs_in, style_for_status};
use crate::text::{cat2, cat3, cat4, chars_of, dec, num, text_between};
use crate::workflows::{selected_on, tally_spans, three_tallies};

verus! {

broadcast use vstd::string::group_string_axioms;

/// A commit message cut to one line of the table.
pub open spec fn brief(msg: Seq<char>) -> Seq<char> {
    if msg.len() > 52 {
        msg.take(52) + "…"@
    } else {
        msg
    }
}

/// The line under a run's branch: the start of its commit message.
pub open spec fn commit_line(msg: Seq<char>) -> LineV {
    if msg.len() == 0 {
        ln(Seq::empty())
    } else {
        ln(
            seq![sp("⎿ "@, fg(Role::TextGhost))].push(sp(brief(msg), fg(Role::TextMuted))),
        )
    }
}

fn commit_line_of(msg: &str) -> (l: Line)
    ensures
        l.deep_view() == commit_line(msg@),
{
    let v = chars_of(msg);
    if v.len() == 0 {
        return empty_line();
    }
    let mut spans: Vec<Span> = none();
    say(&mut spans, "⎿ ", fg(Role::TextGhost));
    if v.len() > 52 {
        let t = text_between(&v, 0, 52);
        assert(t@ =~= msg@.take(52));
        say_of(&mut spans, cat2(&t, "…"), fg(Role::TextMuted));
    } else {
        say(&mut spans, msg, fg(Role::TextMuted));
    }
    line(spans)
}

/// One run: two lines, its branch over its commit message.
pub open spec fn run_row(state: App, r: Run) -> RowV {
    let secs = run_secs(r, state.now);
    RowV {
        cells: seq![cell1(state.glyphs.mark(r.status), style_for_status(r.status))].push(
            CellV {
                lines: seq![ln1(sp(r.head_branch@, fg(Role::Accent)))].push(
                    commit_line(r.commit_msg@),
                ),
                style: plain(),
            },
        ).push(
            cell1(
                ago_text(secs_since(r.updated_at, state.now)),
                ago_style(secs_since(r.updated_at, state.now)),
            ),
        ).push(
            cell1(
                elapsed_text(secs),
                fg(
                    if secs > 900 {
                        Role::Accent
                    } else {
                        Role::TextMuted
                    },
                ),
            ),
        ),
        height: 2,
        style: plain(),
    }
}

fn run_row_of(state: &App, r: &Run) -> (row: Row)
    ensures
        row.deep_view() == run_row(*state, *r),
{
    let mut cells: Vec<Cell> = none();
    add_cell(&mut cells, state.glyphs.of(r.status), style_for_status(r.status));
    let mut lines: Vec<Line> = none();
    put(&mut lines, line_of(span(&r.head_branch, fg(Role::Accent))));
    put(&mut lines, commit_line_of(&r.commit_msg));
    put(&mut cells, Cell { lines, style: plain() });
    let (text, style) = relative_styled(r.updated_at, state.now);
    add_cell(&mut cells, &text, style);
    let secs: i64 = elapsed_seconds(r, state.now);
    let t = format_elapsed(secs);
    let role = if secs > 900 {
        Role::Accent
    } else {
        Role::TextMuted
    };
    add_cell(&mut cells, &t, fg(role));
    Row { cells, height: 2, style: plain() }
}

/// The table of runs.
pub open spec fn run_table(state: App) -> TableV {
    let h = fg(Role::TextMuted);
    TableV {
        header: seq![blank()].push(cell1("Branch"@, h)).push(cell1("Updated"@, h)).push(
            cell1("Dur"@, h),
        ),
        rows: Seq::new(state.runs@.len(), |i: int| run_row(state, state.runs@[i])),
        widths: seq![Constraint::Length(1)].push(Constraint::Fill(1)).push(
            Constraint::Length(10),
        ).push(Constraint::Length(7)),
        spacing: 2,
        highlight: selected_on(Role::SelectBgDim),
        symbol: sp("▶ "@, plain()),
        selected: Some(state.run_cursor),
    }
}

fn run_table_of(state: &App) -> (t: Table)
    ensures
        t.deep_view() == run_table(*state),
{
    let h = fg(Role::TextMuted);
    let mut header: Vec<Cell> = none();
    add_blank_cell(&mut header);
    add_cell(&mut header, "Branch", h);
    add_cell(&mut header, "Updated", h);
    add_cell(&mut header, "Dur", h);
    let mut widths: Vec<Constraint> = Vec::new();
    widths.push(Constraint::Length(1));  // glyph
    widths.push(Constraint::Fill(1));  // branch and commit
    widths.push(Constraint::Length(10));  // updated
    widths.push(Constraint::Length(7));  // duration
    let ghost g = |i: int| run_row(*state, state.runs@[i]);
    let rows = each(
        state.runs.len(),
        (|i: usize| -> (r: Row)
            requires
                i < state.runs@.len(),
            ensures
                r.deep_view() == run_row(*state, state.runs@[i as int]),
        {
            run_row_of(state, &state.runs[i])
        }),
        Ghost(g),
    );
    assert(rows.deep_view() =~= run_table(*state).rows);
    Table {
        header,
        rows,
        widths,
        spacing: 2,
        highlight: selected_on(Role::SelectBgDim),
        symbol: span("▶ ", plain()),
        selected: Some(state.run_cursor),
    }
}

/// The list's title.
pub open spec fn runs_title(state: App) -> Seq<char> {
    match state.workflow_for_runs {
        Some(wf) => "Runs — "@ + wf@ + "  "@ + dec(state.runs@.len()),
        None => "Runs  "@ + dec(state.runs@.len()),
    }
}

/// The list's border.
pub open spec fn runs_border(state: App) -> BorderV {
    BorderV {
        ground: bg(Role::Overlay),
        ..panel_border(
            runs_title(state),
            three_tallies(
                count_if(state.runs@, runs_in(Status::Success)),
                count_if(state.runs@, runs_in(Status::Failure)),
                count_if(state.runs@, runs_in(Status::Running)),
            ),
            Role::Primary,
        )
    }
}

/// The list of runs.
pub open spec fn run_list(state: App, area: Rect) -> Seq<OpV> {
    let inner = framed(area, no_padding());
    let frame = seq![OpV::Frame { area, border: runs_border(state) }];
    if inner.height < 2 {
        frame
    } else if state.runs@.len() == 0 {
        frame + empty_ops(
            inner,
            "◷"@,
            "This workflow has never run."@,
            shown(state.keymap.trigger@) + " triggers it"@,
        )
    } else {
        frame.push(OpV::Grid { area: inner, table: run_table(state) }) + table_clicks(
            inner,
            2,
            2,
            state.runs@.len() as int,
            state.run_cursor as int,
            all_rows(RowKind::Run),
        )
    }
}

fn runs_border_of(state: &App) -> (b: Border)
    ensures
        b.deep_view() == runs_border(*state),
{
    let n = num(state.runs.len() as u128);
    let title = match &state.workflow_for_runs {
        Some(wf) => cat4("Runs — ", wf, "  ", &n),
        None => cat2("Runs  ", &n),
    };
    let tallies = tally_spans(
        count_runs(&state.runs, Status::Success),
        count_runs(&state.runs, Status::Failure),
        count_runs(&state.runs, Status::Running),
    );
    let p = panel(&title, tallies, Role::Primary);
    Border {
        style: p.style,
        top: p.top,
        bottom: p.bottom,
        padding: p.padding,
        ground: bg(Role::Overlay),
    }
}

/// The list of runs.
pub fn render_runs_list(state: &App, area: Rect) -> (ops: Vec<Op>)
    requires
        on_screen(area),
        state.run_cursor < usize::MAX,
    ensures
        ops.deep_view() == run_list(*state, area),
{
    let mut ops: Vec<Op> = none();
    add_frame(&mut ops, area, runs_border_of(state));
    let inner = inner_of(area, no_padding());
    if inner.height < 2 {
        return ops;
    }
    if state.runs.len() == 0 {
        let how = cat2(display_key(&state.keymap.trigger), " triggers it");
        put_all(&mut ops, render_empty(inner, "◷", "This workflow has never run.", &how));
        return ops;
    }
    add_table(&mut ops, inner, run_table_of(state));
    register_rows(
        &mut ops,
        inner,
        2,
        2,
        state.runs.len(),
        state.run_cursor,
        RowKind::Run,
    );
    ops
}

// ── The preview ────────────────────────────────────────────────────────────

/// The run under the cursor.
pub open spec fn selected_run(state: App) -> Option<Run> {
    if state.run_cursor < state.runs@.len() {
        Some(state.runs@[state.run_cursor as int])
    } else {
        None
    }
}

/// A job's line.
pub open spec fn job_line(state: App, job: Job) -> LineV {
    ln(
        seq![sp(state.glyphs.mark(job.status), style_for_status(job.status))].push(
            sp(" "@, plain()),
        ).push(sp(job.name@, plain().bold())),
    )
}

/// A job's line.
pub fn job_line_of(state: &App, job: &Job) -> (l: Line)
    ensures
        l.deep_view() == job_line(*state, *job),
{
    let mut v: Vec<Span> = none();
    say(&mut v, state.glyphs.of(job.status), style_for_status(job.status));
    say(&mut v, " ", plain());
    say(&mut v, &job.name, plain().bold());
    line(v)
}

/// Step `i` of a job.
pub open spec fn step_line(state: App, job: Job, i: int) -> LineV {
    let s = job.steps@[i];
    ln(
        seq![sp("  "@, plain())].push(
            sp(state.glyphs.mark(s.status), style_for_status(s.status)),
        ).push(sp(" "@ + dec((i + 1) as nat) + ". "@ + s.name@, plain())),
    )
}

fn step_line_of(state: &App, job: &Job, i: usize) -> (l: Line)
    requires
        i < job.steps@.len(),
    ensures
        l.deep_view() == step_line(*state, *job, i as int),
{
    let s = &job.steps[i];
    let mut v: Vec<Span> = none();
    say(&mut v, "  ", plain());
    say(&mut v, state.glyphs.of(s.status), style_for_status(s.status));
    let n = num(i as u128 + 1);
    say_of(&mut v, cat4(" ", &n, ". ", &s.name), plain());
    line(v)
}

/// A job and its steps.
pub open spec fn job_lines(state: App, job: Job) -> Seq<LineV> {
    seq![job_line(state, job)] + Seq::new(job.steps@.len(), |i: int| step_line(state, job, i))
}

/// The first `n` jobs and their steps.
pub open spec fn jobs_lines(state: App, jobs: Seq<Job>, n: int) -> Seq<LineV>
    decreases n,
{
    if n <= 0 {
        Seq::empty()
    } else {
        jobs_lines(state, jobs, n - 1) + job_lines(state, jobs[n - 1])
    }
}

fn job_lines_of(state: &App, job: &Job) -> (v: Vec<Line>)
    ensures
        v.deep_view() == job_lines(*state, *job),
{
    let mut v: Vec<Line> = none();
    put(&mut v, job_line_of(state, job));
    let ghost g = |i: int| step_line(*state, *job, i);
    let steps = each(
        job.steps.len(),
        (|i: usize| -> (l: Line)
            requires
                i < job.steps@.len(),
            ensures
                l.deep_view() == step_line(*state, *job, i as int),
        {
            step_line_of(state, job, i)
        }),
        Ghost(g),
    );
    proof {
        assert(steps.deep_view() =~= Seq::new(
            job.steps@.len(),
            |i: int| step_line(*state, *job, i),
        ));
    }
    put_all(&mut v, steps);
    v
}

/// The selected run's commit message, when it has one.
pub open spec fn message_lines(run: Run) -> Seq<LineV> {
    if run.commit_msg@.len() == 0 {
        Seq::empty()
    } else {
        seq![
            ln(
                seq![sp("󰊢 "@, fg(Role::TextMuted))].push(
                    sp(run.commit_msg@, fg(Role::Text).italic()),
                ),
            ),
        ].push(ln(Seq::empty()))
    }
}

/// The preview of the run under the cursor.
pub open spec fn run_preview(state: App, area: Rect) -> Seq<OpV> {
    let inner = framed(area, no_padding());
    let frame = seq![
        OpV::Frame {
            area,
            border: plain_panel(
                match selected_run(state) {
                    Some(r) => r.display_title@ + " — "@ + r.head_branch@,
                    None => "Preview"@,
                },
            ),
        },
    ];
    if inner.height == 0 {
        frame
    } else {
        match (selected_run(state), state.runs_preview) {
            (Some(run), Some(d)) if state.runs_preview_id == Some(run.id) => frame.push(
                wrapped_op(
                    inner,
                    message_lines(run) + jobs_lines(state, d.jobs@, d.jobs@.len() as int),
                ),
            ),
            _ => frame.push(text_op(inner, one_line("loading…"@, fg(Role::TextFaint)))),
        }
    }
}

fn preview_lines_of(state: &App, run: &Run, d: &RunDetail) -> (v: Vec<Line>)
    ensures
        v.deep_view() == message_lines(*run) + jobs_lines(*state, d.jobs@, d.jobs@.len() as int),
{
    let mut v: Vec<Line> = none();
    if run.commit_msg.as_str().unicode_len() > 0 {
        let mut m: Vec<Span> = none();
        say(&mut m, "󰊢 ", fg(Role::TextMuted));
        say(&mut m, &run.commit_msg, fg(Role::Text).italic());
        add_line(&mut v, m);
        add_blank(&mut v);
    }
    let ghost lead = v.deep_view();
    assert(lead == message_lines(*run));
    assert(lead + jobs_lines(*state, d.jobs@, 0) =~= lead);
    let mut i: usize = 0;
    while i < d.jobs.len()
        invariant
            i <= d.jobs@.len(),
            v.deep_view() == lead + jobs_lines(*state, d.jobs@, i as int),
        decreases d.jobs@.len() - i,
    {
        put_all(&mut v, job_lines_of(state, &d.jobs[i]));
        assert(v.deep_view() =~= lead + jobs_lines(*state, d.jobs@, i + 1));
        i = i + 1;
    }
    v
}

/// The steps of the run under the cursor.
pub fn render_runs_preview(state: &App, area: Rect) -> (ops: Vec<Op>)
    requires
        on_screen(area),
    ensures
        ops.deep_view() == run_preview(*state, area),
{
    let mut ops: Vec<Op> = none();
    if state.run_cursor < state.runs.len() {
        let r = &state.runs[state.run_cursor];
        let title = cat3(&r.display_title, " — ", &r.head_branch);
        add_frame(&mut ops, area, styled_block(&title));
    } else {
        add_frame(&mut ops, area, styled_block("Preview"));
    }
    let inner = inner_of(area, no_padding());
    if inner.height == 0 {
        return ops;
    }
    if state.run_cursor < state.runs.len() {
        let r = &state.runs[state.run_cursor];
        let same_run = match state.runs_preview_id {
            Some(id) => id == r.id,
            None => false,
        };
        if same_run {
            if let Some(d) = &state.runs_preview {
                add_wrapped(&mut ops, inner, preview_lines_of(state, r, d));
                return ops;
            }
        }
    }
    add_text(&mut ops, inner, just("loading…", fg(Role::TextFaint)));
    ops
}

/// The runs of a workflow, and the steps of the selected one beside them.
pub open spec fn runs_view(state: App, area: Rect) -> Seq<OpV> {
    run_list(state, left_share(42, area)) + run_preview(state, right_share(42, area))
}

/// The runs of a workflow, and the steps of the selected one.
pub fn render_runs(state: &App, area: Rect) -> (ops: Vec<Op>)
    requires
        on_screen(area),
        state.run_cursor < usize::MAX,
    ensures
        ops.deep_view() == runs_view(*state, area),
{
    let (list, preview) = side_by_side(42, area);
    let mut ops = render_runs_list(state, list);
    put_all(&mut ops, render_runs_preview(state, preview));
    ops
}

} // verus!
