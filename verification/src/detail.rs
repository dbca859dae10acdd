//! One run: its jobs and steps, how long each took, and why it failed.

use vstd::prelude::*;
use vstd::string::*;

use crate::clock::{elapsed_seconds, elapsed_text, format_elapsed, millis_since, milliseconds_since, run_secs, units_between, Stamp};
use crate::columns::{cut, truncate};
use crate::geometry::{asked_by_all, fits, framed, granted_before, inner_of, inside, larger, no_padding, on_screen, split, split_into, Constraint, Rect};
use crate::hits::{all_rows, register_rows, table_clicks, RowKind};
use crate::list::{count_if, count_of, each, find_of, first_where, none, put, put_all};
use crate::ops::{add_blank_cell, add_cell_line, add_frame, add_line, add_table, add_text, blank, blank_cell, boxed, cell, in_a_box, just, one_line, plain_panel, say, say_of, styled_block, text_op, titled, titled_border, Cell, CellV, Op, OpV, Row, RowV, Table, TableV};
use crate::paint::{bg, fg, line_of, ln, ln1, plain, sp, span, span_of, Line, LineV, Role, Span, SpanV, Style};
use crate::state::{App, DetailItem, Digest, Job, RunDetail, Status, Step, StepStat};
use crate::status::{style_for_status, tint_of};
use crate::text::{align_right, cat2, cat3, cat4, cat5, dec, num, or_text, pad_left, plural, repeat_char, run_of, same, text_or};

verus! {

broadcast use vstd::string::group_string_axioms;

// ── Timing ─────────────────────────────────────────────────────────────────

/// `ms` in seconds, to the nearest; halfway goes to the even one.
pub open spec fn nearest_secs(ms: int) -> int {
    ms / 1000 + (if ms % 1000 > 500 || (ms % 1000 == 500 && (ms / 1000) % 2 == 1) {
        1int
    } else {
        0
    })
}

/// How long a step took: seconds to the nearest under a minute, whole minutes
/// and seconds after that.
pub open spec fn step_dur(ms: int) -> Seq<char> {
    let m = ms / 60000;
    let s = (ms / 1000) % 60;
    if ms < 60000 {
        dec(nearest_secs(ms) as nat) + "s"@
    } else if s == 0 {
        dec(m as nat) + "m"@
    } else {
        dec(m as nat) + "m "@ + dec(s as nat) + "s"@
    }
}

/// How long a step took.
pub fn format_step_dur(ms: i64) -> (t: String)
    requires
        ms >= 0,
    ensures
        t@ == step_dur(ms as int),
{
    if ms < 60000 {
        let up: i64 = if ms % 1000 > 500 || (ms % 1000 == 500 && (ms / 1000) % 2 == 1) {
            1
        } else {
            0
        };
        let n = num((ms / 1000 + up) as u128);
        return cat2(&n, "s");
    }
    let m = num((ms / 60000) as u128);
    let s: i64 = (ms / 1000) % 60;
    if s == 0 {
        cat2(&m, "m")
    } else {
        let s = num(s as u128);
        cat4(&m, "m ", &s, "s")
    }
}

/// Steps that took any time at all.
pub open spec fn timed() -> spec_fn(Step) -> bool {
    |s: Step|
        s.started_at is Some && s.completed_at is Some && units_between(
            s.started_at->0,
            s.completed_at->0,
            1_000_000,
        ) > 0
}

fn is_timed(s: &Step) -> (r: bool)
    ensures
        r == timed()(*s),
{
    match (s.started_at, s.completed_at) {
        (Some(a), Some(b)) => milliseconds_since(a, b) > 0,
        _ => false,
    }
}

/// Whether a job has anything to measure its steps against.
pub open spec fn measured(job: Job) -> bool {
    first_where(job.steps@, timed()) < job.steps@.len()
}

/// How long a finished step took, in milliseconds, and nothing for one that is
/// not.
pub open spec fn finished_millis(s: Step) -> int {
    if s.started_at is Some && s.completed_at is Some {
        millis_since(s.started_at->0, s.completed_at->0)
    } else {
        0
    }
}

/// How long the longest of the first `n` steps took.
pub open spec fn longest_of(steps: Seq<Step>, n: int) -> int
    decreases n,
{
    if n <= 0 {
        0
    } else {
        larger(longest_of(steps, n - 1), finished_millis(steps[n - 1]))
    }
}

/// How long the longest finished step of a job took, in milliseconds: what the
/// bars of its steps are measured against.
pub fn longest_step(job: &Job) -> (ms: i64)
    ensures
        ms == longest_of(job.steps@, job.steps@.len() as int),
        ms >= 0,
        ms > 0 <==> measured(*job),
{
    let mut ms: i64 = 0;
    let mut i: usize = 0;
    while i < job.steps.len()
        invariant
            i <= job.steps@.len(),
            ms == longest_of(job.steps@, i as int),
            ms >= 0,
            ms > 0 <==> exists|k: int| 0 <= k < i && timed()(#[trigger] job.steps@[k]),
        decreases job.steps@.len() - i,
    {
        let s = &job.steps[i];
        if let (Some(a), Some(b)) = (s.started_at, s.completed_at) {
            let took: i64 = milliseconds_since(a, b);
            if took > ms {
                ms = took;
            }
        }
        assert(timed()(job.steps@[i as int]) <==> finished_millis(job.steps@[i as int]) > 0);
        i = i + 1;
    }
    proof {
        lemma_measured(job.steps@);
    }
    ms
}

proof fn lemma_measured(steps: Seq<Step>)
    ensures
        first_where(steps, timed()) < steps.len() <==> exists|k: int|
            0 <= k < steps.len() && timed()(#[trigger] steps[k]),
    decreases steps.len(),
{
    if steps.len() > 0 {
        let t = steps.drop_first();
        lemma_measured(t);
        if exists|k: int| 0 <= k < steps.len() && timed()(#[trigger] steps[k]) {
            let k = choose|k: int| 0 <= k < steps.len() && timed()(#[trigger] steps[k]);
            if k > 0 {
                assert(t[k - 1] == steps[k]);
            }
        }
        if exists|k: int| 0 <= k < t.len() && timed()(#[trigger] t[k]) {
            let k = choose|k: int| 0 <= k < t.len() && timed()(#[trigger] t[k]);
            assert(steps[k + 1] == t[k]);
        }
    }
}

/// No finished step of a job took longer than its longest.
pub proof fn law_no_step_is_longer(steps: Seq<Step>, n: int, i: int)
    requires
        0 <= i < n <= steps.len(),
    ensures
        0 <= finished_millis(steps[i]) <= longest_of(steps, n),
    decreases n,
{
    if i < n - 1 {
        law_no_step_is_longer(steps, n - 1, i);
    }
}

/// How long a step has taken so far, in milliseconds.
pub open spec fn step_millis(s: Step, now: Stamp) -> int {
    millis_since(
        s.started_at->0,
        match s.completed_at {
            Some(end) => end,
            None => now,
        },
    )
}

/// How many of a step's ten cells are filled: a sweep while it runs, its share
/// of the job's longest step once it is over, and at least one if it took any
/// time.
pub open spec fn filled_cells(s: Step, measured: bool, now: Stamp, tick: u64) -> int {
    if s.completed_at is None && s.status == Status::Running {
        (tick / 3) as int % 11
    } else if !measured {
        0
    } else {
        let least: int = if step_millis(s, now) > 0 {
            1
        } else {
            0
        };
        if s.tenths < least {
            least
        } else if s.tenths > 10 {
            10
        } else {
            s.tenths as int
        }
    }
}

/// Ten cells, the first `n` of them filled.
pub open spec fn ten_cells(n: int) -> Seq<char> {
    run_of('■', n as nat) + run_of('□', (10 - n) as nat)
}

/// How long a step took, and its bar; nothing for one that has not started.
pub fn step_timing(s: &Step, measured: bool, now: Stamp, tick: u64) -> (r: Option<(String, String)>)
    ensures
        r is Some <==> s.started_at is Some,
        r matches Some((dur, bar)) ==> dur@ == step_dur(step_millis(*s, now)) && bar@ == ten_cells(
            filled_cells(*s, measured, now, tick),
        ),
{
    match s.started_at {
        None => None,
        Some(start) => {
            let end = match s.completed_at {
                Some(end) => end,
                None => now,
            };
            let ms: i64 = milliseconds_since(start, end);
            let dur = format_step_dur(ms);
            let n: usize = if s.completed_at.is_none() && s.status == Status::Running {
                ((tick / 3) % 11) as usize
            } else if !measured {
                0
            } else {
                let least: usize = if ms > 0 {
                    1
                } else {
                    0
                };
                if s.tenths < least {
                    least
                } else if s.tenths > 10 {
                    10
                } else {
                    s.tenths
                }
            };
            let a = repeat_char('■', n);
            let b = repeat_char('□', 10 - n);
            Some((dur, cat2(&a, &b)))
        },
    }
}

/// A step's bar is always ten cells wide.
pub proof fn law_step_bars_are_ten_cells(s: Step, measured: bool, now: Stamp, tick: u64)
    ensures
        0 <= filled_cells(s, measured, now, tick) <= 10,
        ten_cells(filled_cells(s, measured, now, tick)).len() == 10,
{
}

// ── Rows ───────────────────────────────────────────────────────────────────

/// Records of the step called `name`.
pub open spec fn about(name: Seq<char>) -> spec_fn(StepStat) -> bool {
    |s: StepStat| s.name@ == name
}

/// How often a step has failed lately, when it has.
pub open spec fn badge(stats: Seq<StepStat>, name: Seq<char>) -> CellV {
    let i = first_where(stats, about(name)) as int;
    if i < stats.len() && stats[i].failed > 0 {
        CellV {
            lines: one_line(
                "  "@ + dec(stats[i].failed as nat) + "/"@ + dec(stats[i].total as nat)
                    + " fails"@,
                plain(),
            ),
            style: if stats[i].failed * 2 >= stats[i].total {
                fg(Role::Failure).bold()
            } else {
                fg(Role::Accent)
            },
        }
    } else {
        blank()
    }
}

fn badge_of(stats: &Vec<StepStat>, name: &str) -> (c: Cell)
    ensures
        c.deep_view() == badge(stats@, name@),
{
    let i: usize = find_of(
        stats,
        (|s: &StepStat| -> (r: bool)
            ensures
                r == (s.name@ == name@),
        {
            same(&s.name, name)
        }),
        Ghost(about(name@)),
    );
    if i < stats.len() && stats[i].failed > 0 {
        let a = num(stats[i].failed as u128);
        let b = num(stats[i].total as u128);
        let t = cat5("  ", &a, "/", &b, " fails");
        let style = if stats[i].failed as u64 * 2 >= stats[i].total as u64 {
            fg(Role::Failure).bold()
        } else {
            fg(Role::Accent)
        };
        return Cell { lines: just(&t, plain()), style };
    }
    blank_cell()
}

/// The row of a job.
pub open spec fn job_cells(state: App, job: Job, selected: bool) -> Seq<CellV> {
    seq![
        cell(
            ln(
                seq![
                    sp(
                        if selected {
                            "▶ "@
                        } else {
                            "  "@
                        },
                        plain(),
                    ),
                ].push(sp(state.glyphs.mark(job.status), style_for_status(job.status))).push(
                    sp(" "@, plain()),
                ).push(
                    sp(
                        job.name@,
                        if selected {
                            fg(Role::Primary).bold()
                        } else {
                            plain().bold()
                        },
                    ),
                ),
            ),
        ),
    ].push(blank()).push(blank()).push(blank())
}

/// A cell of plain text under a style of its own.
pub open spec fn styled_cell(text: Seq<char>, style: Style) -> CellV {
    CellV { lines: one_line(text, plain()), style }
}

/// The row of a step.
pub open spec fn step_cells(state: App, job: Job, si: int, selected: bool) -> Seq<CellV> {
    let s = job.steps@[si];
    let name = cell(
        ln(
            seq![
                sp(
                    if selected {
                        "  ▶ "@
                    } else {
                        "    "@
                    },
                    plain(),
                ),
            ].push(sp(state.glyphs.mark(s.status), style_for_status(s.status))).push(
                sp(" "@ + align_right(dec((si + 1) as nat), 2) + ". "@, plain()),
            ).push(
                sp(
                    s.name@,
                    if selected {
                        fg(Role::TextBright).bold()
                    } else {
                        fg(Role::TextMuted)
                    },
                ),
            ),
        ),
    );
    let timing = if s.started_at is Some {
        seq![name].push(
            styled_cell(
                align_right(step_dur(step_millis(s, state.now)), 6),
                fg(Role::TextGhost),
            ),
        ).push(
            styled_cell(
                ten_cells(filled_cells(s, measured(job), state.now, state.tick_count)),
                fg(tint_of(s.status)),
            ),
        )
    } else {
        seq![name].push(blank()).push(blank())
    };
    timing.push(badge(state.step_stats@, s.name@))
}

/// Whether a row points at a job or step there is.
pub open spec fn item_ok(d: RunDetail, item: DetailItem) -> bool {
    match item {
        DetailItem::Job(j) => j < d.jobs@.len(),
        DetailItem::Step { job, step } => job < d.jobs@.len() && step
            < d.jobs@[job as int].steps@.len(),
    }
}

/// Whether every row points at a job or step there is.
pub open spec fn items_ok(state: App, d: RunDetail) -> bool {
    forall|i: int| 0 <= i < state.detail_items@.len() ==> item_ok(d, #[trigger] state.detail_items@[i])
}

/// Row `i` of the run.
pub open spec fn detail_row(state: App, d: RunDetail, i: int) -> RowV {
    let selected = i == state.detail_cursor;
    RowV {
        cells: match state.detail_items@[i] {
            DetailItem::Job(j) => job_cells(state, d.jobs@[j as int], selected),
            DetailItem::Step { job, step } => step_cells(
                state,
                d.jobs@[job as int],
                step as int,
                selected,
            ),
        },
        height: 1,
        style: if selected {
            bg(Role::SurfaceAlt)
        } else {
            plain()
        },
    }
}

fn job_cells_of(state: &App, job: &Job, selected: bool) -> (cells: Vec<Cell>)
    ensures
        cells.deep_view() == job_cells(*state, *job, selected),
{
    let mut v: Vec<Span> = none();
    if selected {
        say(&mut v, "▶ ", plain());
    } else {
        say(&mut v, "  ", plain());
    }
    say(&mut v, state.glyphs.of(job.status), style_for_status(job.status));
    say(&mut v, " ", plain());
    if selected {
        say(&mut v, &job.name, fg(Role::Primary).bold());
    } else {
        say(&mut v, &job.name, plain().bold());
    }
    let mut cells: Vec<Cell> = none();
    add_cell_line(&mut cells, v);
    add_blank_cell(&mut cells);
    add_blank_cell(&mut cells);
    add_blank_cell(&mut cells);
    cells
}

fn step_cells_of(state: &App, job: &Job, si: usize, selected: bool) -> (cells: Vec<Cell>)
    requires
        si < job.steps@.len(),
    ensures
        cells.deep_view() == step_cells(*state, *job, si as int, selected),
{
    let s = &job.steps[si];
    let mut v: Vec<Span> = none();
    if selected {
        say(&mut v, "  ▶ ", plain());
    } else {
        say(&mut v, "    ", plain());
    }
    say(&mut v, state.glyphs.of(s.status), style_for_status(s.status));
    let n = num(si as u128 + 1);
    let n = pad_left(&n, 2);
    say_of(&mut v, cat3(" ", &n, ". "), plain());
    if selected {
        say(&mut v, &s.name, fg(Role::TextBright).bold());
    } else {
        say(&mut v, &s.name, fg(Role::TextMuted));
    }
    let mut cells: Vec<Cell> = none();
    add_cell_line(&mut cells, v);
    let timed = find_of(&job.steps, is_timed, Ghost(timed())) < job.steps.len();
    match step_timing(s, timed, state.now, state.tick_count) {
        Some((dur, bar)) => {
            let d = pad_left(&dur, 6);
            put(&mut cells, Cell { lines: just(&d, plain()), style: fg(Role::TextGhost) });
            put(&mut cells, Cell { lines: just(&bar, plain()), style: fg(tint_of(s.status)) });
        },
        None => {
            add_blank_cell(&mut cells);
            add_blank_cell(&mut cells);
        },
    }
    put(&mut cells, badge_of(&state.step_stats, &s.name));
    cells
}

fn detail_row_of(state: &App, d: &RunDetail, i: usize) -> (r: Row)
    requires
        i < state.detail_items@.len(),
        items_ok(*state, *d),
    ensures
        r.deep_view() == detail_row(*state, *d, i as int),
{
    let selected = i == state.detail_cursor;
    assert(item_ok(*d, state.detail_items@[i as int]));
    let cells = match state.detail_items[i] {
        DetailItem::Job(j) => job_cells_of(state, &d.jobs[j], selected),
        DetailItem::Step { job, step } => step_cells_of(state, &d.jobs[job], step, selected),
    };
    let style = if selected {
        bg(Role::SurfaceAlt)
    } else {
        plain()
    };
    Row { cells, height: 1, style }
}

/// The table of jobs and steps.
pub open spec fn detail_table(state: App, d: RunDetail) -> TableV {
    TableV {
        header: Seq::empty(),
        rows: Seq::new(state.detail_items@.len(), |i: int| detail_row(state, d, i)),
        widths: seq![Constraint::Min(20)].push(Constraint::Length(6)).push(
            Constraint::Length(10),
        ).push(Constraint::Fill(1)),
        spacing: 1,
        highlight: plain(),
        symbol: sp(""@, plain()),
        selected: None,
    }
}

fn detail_table_of(state: &App, d: &RunDetail) -> (t: Table)
    requires
        items_ok(*state, *d),
    ensures
        t.deep_view() == detail_table(*state, *d),
{
    let mut widths: Vec<Constraint> = Vec::new();
    widths.push(Constraint::Min(20));  // name
    widths.push(Constraint::Length(6));  // duration
    widths.push(Constraint::Length(10));  // bar
    widths.push(Constraint::Fill(1));  // how often it has failed
    let ghost g = |i: int| detail_row(*state, *d, i);
    let rows = each(
        state.detail_items.len(),
        (|i: usize| -> (r: Row)
            requires
                i < state.detail_items@.len(),
                items_ok(*state, *d),
            ensures
                r.deep_view() == detail_row(*state, *d, i as int),
        {
            detail_row_of(state, d, i)
        }),
        Ghost(g),
    );
    assert(rows.deep_view() =~= detail_table(*state, *d).rows);
    Table {
        header: none(),
        rows,
        widths,
        spacing: 1,
        highlight: plain(),
        symbol: span("", plain()),
        selected: None,
    }
}

// ── The view ───────────────────────────────────────────────────────────────

/// Whether there is a digest of why this run failed.
pub open spec fn has_digest(state: App, d: RunDetail) -> bool {
    state.failure_digest is Some && state.failure_digest->0.run_id == d.run.id && d.run.status
        == Status::Failure
}

/// How tall the digest is: nothing when showing it would not leave the steps a
/// useful share.
pub open spec fn digest_height(state: App, d: RunDetail, inner: Rect) -> int {
    let h = (state.failure_digest->0.lines@.len() as u16) + 2;
    if has_digest(state, d) && inner.height >= h + 8 {
        h
    } else {
        0
    }
}

/// Line `i` of the digest.
pub open spec fn digest_line(g: Digest, i: int) -> LineV {
    ln1(
        sp(
            g.lines@[i]@,
            if g.error_rows@.contains(i as usize) {
                fg(Role::Failure).bold().coded()
            } else {
                fg(Role::TextMuted).coded()
            },
        ),
    )
}

/// The part of the log worth reading, above the steps rather than behind them.
pub open spec fn digest_ops(g: Digest, area: Rect) -> Seq<OpV> {
    seq![
        OpV::Frame {
            area,
            border: titled(
                ln1(
                    sp(
                        " why it failed — "@ + cut(text_or(g.step_name, g.job_name@), 48) + " "@,
                        fg(Role::Failure).bold(),
                    ),
                ),
                Role::FailureDim,
            ),
        },
    ].push(
        text_op(
            framed(area, no_padding()),
            Seq::new(g.lines@.len(), |i: int| digest_line(g, i)),
        ),
    )
}

/// Jobs that failed.
pub open spec fn failed_job() -> spec_fn(Job) -> bool {
    |j: Job| j.status == Status::Failure
}

fn is_failed_job(j: &Job) -> (r: bool)
    ensures
        r == failed_job()(*j),
{
    j.status == Status::Failure
}

/// The run in one line.
pub open spec fn run_summary(state: App, d: RunDetail) -> Seq<SpanV> {
    let failed = count_if(d.jobs@, failed_job());
    seq![
        sp(
            dec(d.jobs@.len()) + " job"@ + plural(d.jobs@.len() as usize)@,
            fg(Role::Primary),
        ),
    ].push(
        if failed > 0 {
            sp("  ✗ "@ + dec(failed) + " failed"@, fg(Role::Failure).bold())
        } else {
            sp("  ✓ all passed"@, fg(Role::Success))
        },
    ).push(sp("  ⏱ "@ + elapsed_text(run_secs(d.run, state.now)), fg(Role::TextMuted)))
}

/// How the view is cut: the summary, the digest, and the steps.
pub open spec fn detail_cut(state: App, d: RunDetail, inner: Rect) -> Seq<Constraint> {
    seq![Constraint::Length(2)].push(
        Constraint::Length(digest_height(state, d, inner) as u16),
    ).push(Constraint::Min(0))
}

/// The digest never crowds the steps out: where there is one, the steps keep at
/// least six rows.
pub proof fn law_the_digest_leaves_the_steps_room(
    state: App,
    d: RunDetail,
    inner: Rect,
    pieces: Seq<Rect>,
)
    requires
        on_screen(inner),
        digest_height(state, d, inner) > 0,
        split_into(pieces, true, detail_cut(state, d, inner), inner),
    ensures
        pieces[2].height >= 6,
        pieces[1].height == digest_height(state, d, inner),
{
    let cs = detail_cut(state, d, inner);
    assert(cs.len() == 3);
    reveal_with_fuel(asked_by_all, 4);
    reveal_with_fuel(granted_before, 4);
    assert(fits(cs, inner.height as int));
}

/// The run's parts, in the pieces its view was cut into.
pub open spec fn detail_parts(state: App, d: RunDetail, inner: Rect, pieces: Seq<Rect>) -> Seq<OpV> {
    let digest = if digest_height(state, d, inner) > 0 {
        digest_ops(state.failure_digest->0, pieces[1])
    } else {
        Seq::empty()
    };
    digest.push(text_op(pieces[0], seq![ln(run_summary(state, d))])).push(
        OpV::Grid { area: pieces[2], table: detail_table(state, d) },
    ) + table_clicks(
        pieces[2],
        0,
        1,
        state.detail_items@.len() as int,
        0,
        all_rows(RowKind::DetailItem),
    )
}

/// Whether these are the operations of the run's view.
pub open spec fn is_detail_view(ops: Seq<OpV>, state: App, area: Rect) -> bool {
    match state.run_detail {
        None => ops == boxed(area, "Run"@, one_line("loading…"@, plain()), false),
        Some(d) => {
            let inner = framed(area, no_padding());
            let frame = seq![
                OpV::Frame {
                    area,
                    border: plain_panel(
                        "Run "@ + dec(d.run.id as nat) + " — "@ + d.run.display_title@ + " ("@
                            + d.run.head_branch@ + ")"@,
                    ),
                },
            ];
            exists|pieces: Seq<Rect>|
                #[trigger] split_into(pieces, true, detail_cut(state, d, inner), inner) && ops
                    == frame + detail_parts(state, d, inner, pieces)
        },
    }
}

fn in_rows(rows: &Vec<usize>, i: usize) -> (r: bool)
    ensures
        r == rows@.contains(i),
{
    for k in 0..rows.len()
        invariant
            forall|j: int| 0 <= j < k ==> rows@[j] != i,
    {
        if rows[k] == i {
            return true;
        }
    }
    false
}

fn digest_ops_of(g: &Digest, area: Rect) -> (ops: Vec<Op>)
    requires
        on_screen(area),
    ensures
        ops.deep_view() == digest_ops(*g, area),
{
    let what = truncate(or_text(&g.step_name, &g.job_name), 48);
    let title = cat3(" why it failed — ", &what, " ");
    let mut ops: Vec<Op> = none();
    add_frame(
        &mut ops,
        area,
        titled_border(line_of(span_of(title, fg(Role::Failure).bold())), Role::FailureDim),
    );
    let inner = inner_of(area, no_padding());
    let ghost f = |i: int| digest_line(*g, i);
    let lines = each(
        g.lines.len(),
        (|i: usize| -> (l: Line)
            requires
                i < g.lines@.len(),
            ensures
                l.deep_view() == digest_line(*g, i as int),
        {
            let style = if in_rows(&g.error_rows, i) {
                fg(Role::Failure).bold()
            } else {
                fg(Role::TextMuted)
            };
            line_of(span(&g.lines[i], style.coded()))
        }),
        Ghost(f),
    );
    assert(lines.deep_view() =~= Seq::new(g.lines@.len(), |i: int| digest_line(*g, i)));
    add_text(&mut ops, inner, lines);
    ops
}

fn run_summary_of(state: &App, d: &RunDetail) -> (v: Vec<Span>)
    ensures
        v.deep_view() == run_summary(*state, *d),
{
    let mut v: Vec<Span> = none();
    let n = num(d.jobs.len() as u128);
    say_of(&mut v, cat3(&n, " job", plural(d.jobs.len())), fg(Role::Primary));
    let failed: usize = count_of(&d.jobs, is_failed_job, Ghost(failed_job()));
    if failed > 0 {
        let f = num(failed as u128);
        say_of(&mut v, cat3("  ✗ ", &f, " failed"), fg(Role::Failure).bold());
    } else {
        say(&mut v, "  ✓ all passed", fg(Role::Success));
    }
    let t = format_elapsed(elapsed_seconds(&d.run, state.now));
    say_of(&mut v, cat2("  ⏱ ", &t), fg(Role::TextMuted));
    v
}

fn digest_height_of(state: &App, d: &RunDetail, inner: Rect) -> (h: u16)
    ensures
        h == digest_height(*state, *d, inner),
{
    if let Some(g) = &state.failure_digest {
        if g.run_id == d.run.id && d.run.status == Status::Failure {
            let n: u16 = g.lines.len() as u16;
            if inner.height as u32 >= n as u32 + 10 {
                return n + 2;
            }
        }
    }
    0
}

/// One run: its jobs and steps, how long each took, and why it failed.
pub fn render_run_detail(state: &App, area: Rect) -> (ops: Vec<Op>)
    requires
        on_screen(area),
        state.run_detail matches Some(d) ==> items_ok(*state, d),
    ensures
        is_detail_view(ops.deep_view(), *state, area),
{
    match &state.run_detail {
        None => in_a_box(area, "Run", just("loading…", plain()), false),
        Some(d) => {
            let id = num(d.run.id as u128);
            let mut title = cat5("Run ", &id, " — ", &d.run.display_title, " (");
            title.append(&d.run.head_branch);
            title.append(")");
            let mut ops: Vec<Op> = none();
            add_frame(&mut ops, area, styled_block(&title));
            let ghost frame = ops.deep_view();
            let inner = inner_of(area, no_padding());
            let h: u16 = digest_height_of(state, d, inner);
            let mut cs: Vec<Constraint> = Vec::new();
            cs.push(Constraint::Length(2));
            cs.push(Constraint::Length(h));
            cs.push(Constraint::Min(0));
            assert(cs@ =~= detail_cut(*state, *d, inner));
            let pieces = split(true, &cs, inner);
            assert(inside(pieces@[1], inner));
            assert(inside(pieces@[2], inner));
            let mut parts: Vec<Op> = none();
            if h > 0 {
                if let Some(g) = &state.failure_digest {
                    parts = digest_ops_of(g, pieces[1]);
                }
            }
            let mut lines: Vec<Line> = none();
            add_line(&mut lines, run_summary_of(state, d));
            add_text(&mut parts, pieces[0], lines);
            add_table(&mut parts, pieces[2], detail_table_of(state, d));
            register_rows(
                &mut parts,
                pieces[2],
                0,
                1,
                state.detail_items.len(),
                0,
                RowKind::DetailItem,
            );
            put_all(&mut ops, parts);
            assert(split_into(pieces@, true, detail_cut(*state, *d, inner), inner));
            assert(ops.deep_view() == frame + detail_parts(*state, *d, inner, pieces@));
            ops
        },
    }
}

} // verus!
