//! One run, watched: where it is, what it is doing, and how far along each job is.

use vstd::prelude::*;
use vstd::string::*;

use crate::clock::{elapsed_seconds, elapsed_text, eta, eta_text, format_elapsed, run_secs, typical, typical_run_secs};
use crate::geometry::{asked_by_all, fits, follows, granted, granted_before, inside, larger, less, on_screen, split, split_into, Constraint, Rect};
use crate::list::{count_if, each, find_of, first_where, none, put, put_all};
use crate::live::{current_step, has_tail, live_body, live_lines, step_in_flight};
use crate::ops::{add_line, add_text, boxed, in_a_box, just, one_line, say, say_of, text_op, Op, OpV};
use crate::paint::{fg, line, ln, plain, sp, Line, LineV, Role, Span, SpanV, Style};
use crate::state::{App, Job, RunDetail, Status};
use crate::status::style_for_status;
use crate::strip::{finished_step, finished_steps, is_running_job, running_job};
use crate::text::{cat2, cat3, cat4, cat5, dec, num};

verus! {

broadcast use vstd::string::group_string_axioms;

// ── The live pane ──────────────────────────────────────────────────────────

/// Which job has something to follow: the first still running, while the run is.
pub open spec fn tail_job(state: App) -> Option<Job> {
    match state.run_detail {
        Some(d) => if !d.run.status.is_terminal() && first_where(d.jobs@, running_job())
            < d.jobs@.len() {
            Some(d.jobs@[first_where(d.jobs@, running_job()) as int])
        } else {
            None
        },
        None => None,
    }
}

/// How tall the live pane is.
pub open spec fn tail_height(state: App, area: Rect) -> int {
    let third = area.height as int / 3;
    if tail_job(state) is None || area.height < 20 {
        0
    } else if third > 14 {
        14
    } else {
        third
    }
}

/// What the live pane is called.
pub open spec fn tail_title(state: App, job: Job) -> Seq<char> {
    if has_tail(state.watch_tail, job) {
        "Live log — "@ + state.watch_tail->0.job_name@ + "  ("@ + dec(
            state.watch_tail->0.lines@.len(),
        ) + " lines)"@
    } else {
        "Live steps — "@ + job.name@
    }
}

/// The live pane.
pub open spec fn tail_ops(state: App, job: Job, area: Rect) -> Seq<OpV> {
    boxed(
        area,
        tail_title(state, job),
        live_body(state, job, less(area.height as int, 2)),
        false,
    )
}

fn tail_job_of(state: &App) -> (r: Option<&Job>)
    ensures
        r is Some <==> tail_job(*state) is Some,
        r matches Some(j) ==> tail_job(*state) == Some(*j),
{
    match &state.run_detail {
        Some(d) => {
            if d.run.status.is_terminal() {
                return None;
            }
            let i: usize = find_of(&d.jobs, is_running_job, Ghost(running_job()));
            if i < d.jobs.len() {
                Some(&d.jobs[i])
            } else {
                None
            }
        },
        None => None,
    }
}

fn tail_ops_of(state: &App, job: &Job, area: Rect) -> (ops: Vec<Op>)
    requires
        on_screen(area),
    ensures
        ops.deep_view() == tail_ops(*state, *job, area),
{
    let mut title = cat2("Live steps — ", &job.name);
    if let Some(t) = &state.watch_tail {
        if t.job_id == job.id && t.lines.len() > 0 {
            let n = num(t.lines.len() as u128);
            title = cat5("Live log — ", &t.job_name, "  (", &n, " lines)");
        }
    }
    let rows: usize = area.height.saturating_sub(2) as usize;
    in_a_box(area, &title, live_lines(state, job, rows), false)
}

// ── The summary ────────────────────────────────────────────────────────────

/// The run's clock: how long it has been, and what the recent runs make of that.
pub open spec fn clock_spans(state: App, d: RunDetail) -> Seq<SpanV> {
    let secs = run_secs(d.run, state.now);
    let usual = typical(state.runs@, d.run.display_title@);
    let v = seq![sp("Elapsed:"@, fg(Role::Primary).bold())].push(
        sp(" "@ + elapsed_text(secs), plain()),
    );
    if !d.run.status.is_terminal() && usual is Some {
        v.push(sp("  ·  usually "@ + elapsed_text(usual->0), fg(Role::TextMuted))).push(
            sp("  ·  "@ + eta(usual->0, secs), fg(Role::Warning)),
        )
    } else {
        v
    }
}

/// Where the run is.
pub open spec fn watch_lines(state: App) -> Seq<LineV> {
    match state.run_detail {
        Some(d) => seq![
            ln(
                seq![sp("Status: "@, fg(Role::Primary).bold())].push(
                    sp(d.run.status.name()@, style_for_status(d.run.status)),
                ),
            ),
        ].push(
            ln(
                seq![sp("Step:   "@, fg(Role::Primary).bold())].push(
                    sp(current_step(d), plain()),
                ),
            ),
        ).push(ln(clock_spans(state, d))).push(
            ln(
                seq![sp("Run:    "@, fg(Role::Primary).bold())].push(
                    sp(d.run.display_title@ + " on "@ + d.run.head_branch@, plain()),
                ),
            ),
        ),
        None => if state.runs@.len() > 0 {
            one_line("waiting on run "@ + dec(state.runs@[0].id as nat) + "…"@, plain())
        } else {
            one_line("loading runs…"@, plain())
        },
    }
}

fn clock_spans_of(state: &App, d: &RunDetail) -> (v: Vec<Span>)
    ensures
        v.deep_view() == clock_spans(*state, *d),
{
    let secs: i64 = elapsed_seconds(&d.run, state.now);
    let e = format_elapsed(secs);
    let mut v: Vec<Span> = none();
    say(&mut v, "Elapsed:", fg(Role::Primary).bold());
    say_of(&mut v, cat2(" ", &e), plain());
    if !d.run.status.is_terminal() {
        if let Some(t) = typical_run_secs(&state.runs, &d.run.display_title) {
            let u = format_elapsed(t);
            say_of(&mut v, cat2("  ·  usually ", &u), fg(Role::TextMuted));
            let left = eta_text(t, secs);
            say_of(&mut v, cat2("  ·  ", &left), fg(Role::Warning));
        }
    }
    v
}

fn watch_lines_of(state: &App) -> (v: Vec<Line>)
    ensures
        v.deep_view() == watch_lines(*state),
{
    match &state.run_detail {
        Some(d) => {
            let mut lines: Vec<Line> = none();
            let mut a: Vec<Span> = none();
            say(&mut a, "Status: ", fg(Role::Primary).bold());
            say(&mut a, d.run.status.name(), style_for_status(d.run.status));
            add_line(&mut lines, a);
            let mut b: Vec<Span> = none();
            say(&mut b, "Step:   ", fg(Role::Primary).bold());
            say(&mut b, step_in_flight(d), plain());
            add_line(&mut lines, b);
            add_line(&mut lines, clock_spans_of(state, d));
            let mut c: Vec<Span> = none();
            say(&mut c, "Run:    ", fg(Role::Primary).bold());
            say_of(&mut c, cat3(&d.run.display_title, " on ", &d.run.head_branch), plain());
            add_line(&mut lines, c);
            lines
        },
        None => {
            if state.runs.len() > 0 {
                let id = num(state.runs[0].id as u128);
                let t = cat3("waiting on run ", &id, "…");
                just(&t, plain())
            } else {
                just("loading runs…", plain())
            }
        },
    }
}

// ── The jobs ───────────────────────────────────────────────────────────────

/// How a step's mark and name are drawn.
#[verifier::allow_in_spec]
pub fn step_styles(s: Status) -> (Style, Style)
    returns
        (match s {
            Status::Success => (fg(Role::Success), fg(Role::SuccessDim)),
            Status::Failure => (fg(Role::Failure).bold(), fg(Role::FailureDim).bold()),
            Status::Running => (style_for_status(s).bold(), fg(Role::TextBright).bold()),
            Status::Cancelled | Status::Skipped => (fg(Role::Unknown), fg(Role::TextGhost)),
            Status::Queued | Status::Unknown => (fg(Role::TextGhost), fg(Role::TextGhost)),
        }),
{
    match s {
        Status::Success => (fg(Role::Success), fg(Role::SuccessDim)),
        Status::Failure => (fg(Role::Failure).bold(), fg(Role::FailureDim).bold()),
        Status::Running => (style_for_status(s).bold(), fg(Role::TextBright).bold()),
        Status::Cancelled | Status::Skipped => (fg(Role::Unknown), fg(Role::TextGhost)),
        Status::Queued | Status::Unknown => (fg(Role::TextGhost), fg(Role::TextGhost)),
    }
}

/// Step `i` of a job.
pub open spec fn step_line(state: App, job: Job, i: int) -> LineV {
    let s = job.steps@[i];
    ln(
        seq![sp("  "@, plain())].push(sp(state.glyphs.mark(s.status), step_styles(s.status).0)).push(
            sp(" "@ + dec((i + 1) as nat) + ". "@, fg(Role::TextGhost)),
        ).push(sp(s.name@, step_styles(s.status).1)),
    )
}

/// How far along a job is.
pub open spec fn gauge(state: App, job: Job, area: Rect) -> OpV {
    let done = count_if(job.steps@, finished_step());
    let total = larger(job.steps@.len() as int, 1);
    OpV::Gauge {
        area,
        num: done as u64,
        den: total as u64,
        label: ln(
            seq![sp(state.glyphs.mark(job.status), style_for_status(job.status))].push(
                sp(" "@, plain()),
            ).push(sp(job.name@, fg(Role::TextBright).bold())).push(
                sp("  "@ + dec(done) + "/"@ + dec(total as nat), fg(Role::TextMuted)),
            ),
        ),
        filled: style_for_status(job.status),
        unfilled: fg(Role::Border),
    }
}

/// One row for each job's gauge, and as many as it has steps for those.
pub open spec fn job_cut(jobs: Seq<Job>, n: int) -> Seq<Constraint>
    decreases n,
{
    if n <= 0 {
        Seq::empty()
    } else {
        job_cut(jobs, n - 1).push(Constraint::Length(1)).push(
            Constraint::Length(jobs[n - 1].steps@.len() as u16),
        )
    }
}

/// The first `n` jobs, in the pieces cut for them.
pub open spec fn job_ops(state: App, jobs: Seq<Job>, areas: Seq<Rect>, n: int) -> Seq<OpV>
    decreases n,
{
    if n <= 0 {
        Seq::empty()
    } else {
        let job = jobs[n - 1];
        let ops = job_ops(state, jobs, areas, n - 1).push(gauge(state, job, areas[2 * (n - 1)]));
        if job.steps@.len() > 0 {
            ops.push(
                text_op(
                    areas[2 * (n - 1) + 1],
                    Seq::new(job.steps@.len(), |i: int| step_line(state, job, i)),
                ),
            )
        } else {
            ops
        }
    }
}

/// Whether these are the operations of the jobs in `area`.
pub open spec fn is_job_list(ops: Seq<OpV>, state: App, area: Rect) -> bool {
    match state.run_detail {
        Some(d) => if d.jobs@.len() > 0 {
            exists|areas: Seq<Rect>| #[trigger]
                split_into(areas, true, job_cut(d.jobs@, d.jobs@.len() as int), area) && ops
                    == job_ops(state, d.jobs@, areas, d.jobs@.len() as int)
        } else {
            ops == Seq::<OpV>::empty()
        },
        None => ops == Seq::<OpV>::empty(),
    }
}

fn step_line_of(state: &App, job: &Job, i: usize) -> (l: Line)
    requires
        i < job.steps@.len(),
    ensures
        l.deep_view() == step_line(*state, *job, i as int),
{
    let s = &job.steps[i];
    let (mark, name) = step_styles(s.status);
    let mut v: Vec<Span> = none();
    say(&mut v, "  ", plain());
    say(&mut v, state.glyphs.of(s.status), mark);
    let n = num(i as u128 + 1);
    say_of(&mut v, cat3(" ", &n, ". "), fg(Role::TextGhost));
    say(&mut v, &s.name, name);
    line(v)
}

fn gauge_of(state: &App, job: &Job, area: Rect) -> (op: Op)
    ensures
        op.deep_view() == gauge(*state, *job, area),
{
    let done: usize = finished_steps(job);
    let total: usize = if job.steps.len() > 1 {
        job.steps.len()
    } else {
        1
    };
    let style = style_for_status(job.status);
    let mut v: Vec<Span> = none();
    say(&mut v, state.glyphs.of(job.status), style);
    say(&mut v, " ", plain());
    say(&mut v, &job.name, fg(Role::TextBright).bold());
    let a = num(done as u128);
    let b = num(total as u128);
    say_of(&mut v, cat4("  ", &a, "/", &b), fg(Role::TextMuted));
    Op::Gauge {
        area,
        num: done as u64,
        den: total as u64,
        label: line(v),
        filled: style,
        unfilled: fg(Role::Border),
    }
}

fn job_list(state: &App, area: Rect) -> (ops: Vec<Op>)
    requires
        on_screen(area),
    ensures
        is_job_list(ops.deep_view(), *state, area),
{
    let mut ops: Vec<Op> = none();
    let d = match &state.run_detail {
        Some(d) => d,
        None => return ops,
    };
    if d.jobs.len() == 0 {
        return ops;
    }
    let mut cs: Vec<Constraint> = Vec::new();
    let mut i: usize = 0;
    while i < d.jobs.len()
        invariant
            i <= d.jobs@.len(),
            cs@ == job_cut(d.jobs@, i as int),
            cs@.len() == 2 * i,
        decreases d.jobs@.len() - i,
    {
        cs.push(Constraint::Length(1));
        cs.push(Constraint::Length(d.jobs[i].steps.len() as u16));
        i = i + 1;
    }
    let cuts: usize = cs.len();
    let areas = split(true, &cs, area);
    let mut k: usize = 0;
    while k < d.jobs.len()
        invariant
            k <= d.jobs@.len(),
            areas@.len() == 2 * d.jobs@.len() == cuts,
            ops.deep_view() == job_ops(*state, d.jobs@, areas@, k as int),
        decreases d.jobs@.len() - k,
    {
        let job = &d.jobs[k];
        put(&mut ops, gauge_of(state, job, areas[2 * k]));
        if job.steps.len() > 0 {
            let ghost g = |i: int| step_line(*state, *job, i);
            let lines = each(
                job.steps.len(),
                (|i: usize| -> (l: Line)
                    requires
                        i < job.steps@.len(),
                    ensures
                        l.deep_view() == step_line(*state, *job, i as int),
                {
                    step_line_of(state, job, i)
                }),
                Ghost(g),
            );
            assert(lines.deep_view() =~= Seq::new(
                job.steps@.len(),
                |i: int| step_line(*state, *job, i),
            ));
            add_text(&mut ops, areas[2 * k + 1], lines);
        }
        k = k + 1;
    }
    assert(split_into(areas@, true, job_cut(d.jobs@, d.jobs@.len() as int), area));
    ops
}

/// The jobs are drawn in the order the run has them, one gauge each: the gauges
/// of the first `n` jobs come before those of any later one.
pub proof fn law_jobs_keep_their_order(state: App, jobs: Seq<Job>, areas: Seq<Rect>, n: int, m: int)
    requires
        0 <= n <= m <= jobs.len(),
    ensures
        job_ops(state, jobs, areas, n).is_prefix_of(job_ops(state, jobs, areas, m)),
    decreases m,
{
    if n < m {
        law_jobs_keep_their_order(state, jobs, areas, n, m - 1);
    }
}

proof fn lemma_job_cut(jobs: Seq<Job>, n: int)
    requires
        0 <= n,
    ensures
        job_cut(jobs, n).len() == 2 * n,
        forall|i: int| 0 <= i < 2 * n ==> (#[trigger] job_cut(jobs, n)[i]) is Length,
    decreases n,
{
    if n > 0 {
        lemma_job_cut(jobs, n - 1);
    }
}

/// No job is drawn over another: the pieces cut for the gauges and their steps
/// follow one another, whether or not there is room for them all. Job `i` has
/// pieces `2 * i` and `2 * i + 1`.
pub proof fn law_jobs_do_not_overlap(
    jobs: Seq<Job>,
    areas: Seq<Rect>,
    area: Rect,
    i: int,
    j: int,
)
    requires
        jobs.len() < 100 || fits(job_cut(jobs, jobs.len() as int), area.height as int),
        split_into(areas, true, job_cut(jobs, jobs.len() as int), area),
        0 <= i < j < 2 * jobs.len(),
    ensures
        areas[i].y + areas[i].height <= areas[j].y,
        inside(areas[i], area),
        inside(areas[j], area),
{
    let cs = job_cut(jobs, jobs.len() as int);
    lemma_job_cut(jobs, jobs.len() as int);
    if fits(cs, area.height as int) {
        lemma_pieces_follow(cs, area.height as int, i + 1, j);
        assert(granted_before(cs, area.height as int, i + 1) == granted_before(
            cs,
            area.height as int,
            i,
        ) + granted(cs, area.height as int, i));
    } else {
        assert(follows(areas[i], areas[j], true));
    }
}

proof fn lemma_pieces_follow(cs: Seq<Constraint>, room: int, i: int, j: int)
    requires
        0 <= i <= j <= cs.len(),
        forall|k: int| 0 <= k < cs.len() ==> (#[trigger] cs[k]) is Length,
    ensures
        granted_before(cs, room, i) <= granted_before(cs, room, j),
    decreases j,
{
    if i < j {
        lemma_pieces_follow(cs, room, i, j - 1);
        assert(cs[j - 1] is Length);
    }
}

// ── The view ───────────────────────────────────────────────────────────────

/// How the view is cut: where the run is, its jobs, and the live pane.
pub open spec fn watch_cut(state: App, area: Rect) -> Seq<Constraint> {
    seq![Constraint::Length(7)].push(Constraint::Min(0)).push(
        Constraint::Length(tail_height(state, area) as u16),
    )
}

/// The live pane never crowds the jobs out: where there is one, they keep at
/// least seven rows.
pub proof fn law_the_live_pane_leaves_the_jobs_room(state: App, area: Rect, pieces: Seq<Rect>)
    requires
        on_screen(area),
        tail_height(state, area) > 0,
        split_into(pieces, true, watch_cut(state, area), area),
    ensures
        pieces[1].height >= 7,
        pieces[2].height == tail_height(state, area),
{
    let cs = watch_cut(state, area);
    assert(cs.len() == 3);
    reveal_with_fuel(asked_by_all, 4);
    reveal_with_fuel(granted_before, 4);
    assert(fits(cs, area.height as int));
}

/// What is drawn above the jobs.
pub open spec fn watch_head(state: App, area: Rect, pieces: Seq<Rect>) -> Seq<OpV> {
    (if tail_height(state, area) > 0 {
        tail_ops(state, tail_job(state)->0, pieces[2])
    } else {
        Seq::empty()
    }) + boxed(pieces[0], "Watch"@, watch_lines(state), false)
}

/// Whether these are the operations of the watch view.
pub open spec fn is_watch_view(ops: Seq<OpV>, state: App, area: Rect) -> bool {
    exists|pieces: Seq<Rect>, jobs: Seq<OpV>|
        #![trigger split_into(pieces, true, watch_cut(state, area), area), is_job_list(
            jobs,
            state,
            pieces[1],
        )]
        split_into(pieces, true, watch_cut(state, area), area) && is_job_list(
            jobs,
            state,
            pieces[1],
        ) && ops == watch_head(state, area, pieces) + jobs
}

/// One run, watched.
///
/// The live pane earns its room only while a job is actually producing
/// something: between runs, and once everything has settled, the steps get the
/// room back.
pub fn render_watch(state: &App, area: Rect) -> (ops: Vec<Op>)
    requires
        on_screen(area),
    ensures
        is_watch_view(ops.deep_view(), *state, area),
{
    let tail = tail_job_of(state);
    let third: u16 = area.height / 3;
    let h: u16 = if tail.is_none() || area.height < 20 {
        0
    } else if third > 14 {
        14
    } else {
        third
    };
    let mut cs: Vec<Constraint> = Vec::new();
    cs.push(Constraint::Length(7));
    cs.push(Constraint::Min(0));
    cs.push(Constraint::Length(h));
    assert(cs@ =~= watch_cut(*state, area));
    let pieces = split(true, &cs, area);
    assert(inside(pieces@[0], area));
    assert(inside(pieces@[1], area));
    assert(inside(pieces@[2], area));
    let mut ops: Vec<Op> = none();
    if h > 0 {
        if let Some(job) = tail {
            ops = tail_ops_of(state, job, pieces[2]);
        }
    }
    put_all(&mut ops, in_a_box(pieces[0], "Watch", watch_lines_of(state), false));
    assert(ops.deep_view() == watch_head(*state, area, pieces@));
    let jobs = job_list(state, pieces[1]);
    let ghost j = jobs.deep_view();
    put_all(&mut ops, jobs);
    assert(split_into(pieces@, true, watch_cut(*state, area), area) && is_job_list(
        j,
        *state,
        pieces@[1],
    ));
    ops
}

} // verus!
