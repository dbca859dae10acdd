//! Runs in flight: their steps, their log tails, and the pane that follows one.

use vstd::prelude::*;
use vstd::string::*;

use crate::clock::{elapsed_seconds, elapsed_text, format_elapsed, run_secs, seconds_since, secs_since, Stamp};
use crate::geometry::{framed, inner_of, less, lesser, no_padding, on_screen, Rect};
use crate::list::{each, find_of, first_where, none, put_all};
use crate::ops::{add_blank, add_frame, add_line, add_text, just, one_line, plain_panel, say, say_of, styled_block, text_op, Op, OpV};
use crate::paint::{fg, line, line_of, ln, ln1, plain, sp, span, Line, LineV, Role, Span};
use crate::state::{App, Followed, Glyphs, Job, RunDetail, Status, Step, Tail};
use crate::status::style_for_status;
use crate::text::{cat2, cat3};

verus! {

broadcast use vstd::string::group_string_axioms;

/// Steps that are not over.
pub open spec fn unfinished() -> spec_fn(Step) -> bool {
    |s: Step| !s.status.is_terminal()
}

fn is_unfinished(s: &Step) -> (r: bool)
    ensures
        r == unfinished()(*s),
{
    !s.status.is_terminal()
}

/// How long a step took, or has taken so far; nothing when it has not started.
pub open spec fn step_clock(s: Step, now: Stamp) -> Seq<char> {
    match s.started_at {
        None => ""@,
        Some(from) => "  "@ + elapsed_text(
            secs_since(
                from,
                match s.completed_at {
                    Some(to) => to,
                    None => now,
                },
            ),
        ),
    }
}

/// One step of a running job.
pub open spec fn live_step(s: Step, glyphs: Glyphs, now: Stamp) -> LineV {
    ln(
        seq![sp(glyphs.mark(s.status), style_for_status(s.status))].push(sp(" "@, plain())).push(
            sp(
                s.name@,
                fg(
                    if s.status == Status::Running {
                        Role::TextBright
                    } else {
                        Role::Text
                    },
                ),
            ),
        ).push(sp(step_clock(s, now), fg(Role::TextMuted))),
    )
}

fn live_step_line(s: &Step, glyphs: &Glyphs, now: Stamp) -> (l: Line)
    ensures
        l.deep_view() == live_step(*s, *glyphs, now),
{
    let clock = match s.started_at {
        None => "".to_string(),
        Some(from) => {
            let to = match s.completed_at {
                Some(to) => to,
                None => now,
            };
            let t = format_elapsed(seconds_since(from, to));
            cat2("  ", &t)
        },
    };
    let mut v: Vec<Span> = none();
    say(&mut v, glyphs.of(s.status), style_for_status(s.status));
    say(&mut v, " ", plain());
    let name_role = if s.status == Status::Running {
        Role::TextBright
    } else {
        Role::Text
    };
    say(&mut v, &s.name, fg(name_role));
    say_of(&mut v, clock, fg(Role::TextMuted));
    line(v)
}

/// One past the last step worth showing: the step in flight, or the last.
pub open spec fn steps_end(job: Job) -> int {
    let n = first_where(job.steps@, unfinished()) as int;
    if n < job.steps@.len() {
        n + 1
    } else {
        job.steps@.len() as int
    }
}

/// The newest `rows` steps of a job, up to the one in flight.
pub open spec fn live_steps(job: Job, rows: int, glyphs: Glyphs, now: Stamp) -> Seq<LineV> {
    let end = steps_end(job);
    let start = less(end, rows);
    Seq::new((end - start) as nat, |i: int| live_step(job.steps@[start + i], glyphs, now))
}

/// The running job's own step list, newest at the bottom, anchored on the step
/// in flight.
///
/// A job's log does not exist until the job ends, so for a run still in flight
/// there is no tail to show. The steps are the part that genuinely moves.
pub fn live_step_lines(job: &Job, rows: usize, glyphs: &Glyphs, now: Stamp) -> (v: Vec<Line>)
    ensures
        v.deep_view() == live_steps(*job, rows as int, *glyphs, now),
        v@.len() == lesser(steps_end(*job), rows as int),
{
    let at: usize = find_of(&job.steps, is_unfinished, Ghost(unfinished()));
    let end: usize = if at < job.steps.len() {
        at + 1
    } else {
        job.steps.len()
    };
    let start: usize = end.saturating_sub(rows);
    let ghost g = |i: int| live_step(job.steps@[start + i], *glyphs, now);
    let v = each(
        end - start,
        (|i: usize| -> (l: Line)
            requires
                i < end - start,
                end <= job.steps@.len(),
            ensures
                l.deep_view() == live_step(job.steps@[start + i], *glyphs, now),
        {
            live_step_line(&job.steps[start + i], glyphs, now)
        }),
        Ghost(g),
    );
    assert(v.deep_view() =~= live_steps(*job, rows as int, *glyphs, now));
    v
}

/// The pane always shows the step in flight: when there is room for any step
/// and one is unfinished, the last line shown is the first such step.
pub proof fn law_step_in_flight_is_shown(job: Job, rows: int, glyphs: Glyphs, now: Stamp)
    requires
        rows > 0,
        first_where(job.steps@, unfinished()) < job.steps@.len(),
    ensures
        live_steps(job, rows, glyphs, now).len() > 0,
        live_steps(job, rows, glyphs, now).last() == live_step(
            job.steps@[first_where(job.steps@, unfinished()) as int],
            glyphs,
            now,
        ),
{
}

/// The newest `rows` lines of a log tail.
pub open spec fn newest(lines: Seq<String>, rows: int) -> Seq<LineV> {
    let n = lesser(lines.len() as int, rows);
    Seq::new(n as nat, |i: int| ln1(sp(lines[lines.len() - n + i]@, fg(Role::Text).coded())))
}

/// The newest `rows` lines of a log tail: it follows the newest lines by
/// definition, and scrolling back is what the log view is for.
pub fn tail_lines(lines: &Vec<String>, rows: usize) -> (v: Vec<Line>)
    ensures
        v.deep_view() == newest(lines@, rows as int),
{
    let n: usize = if lines.len() < rows {
        lines.len()
    } else {
        rows
    };
    let from: usize = lines.len() - n;
    let ghost g = |i: int| ln1(sp(lines@[from + i]@, fg(Role::Text).coded()));
    let v = each(
        n,
        (|i: usize| -> (l: Line)
            requires
                i < n,
                from + n == lines@.len(),
            ensures
                l.deep_view() == ln1(sp(lines@[from + i]@, fg(Role::Text).coded())),
        {
            line_of(span(&lines[from + i], fg(Role::Text).coded()))
        }),
        Ghost(g),
    );
    assert(v.deep_view() =~= newest(lines@, rows as int));
    v
}

/// Whether there is a log tail of this job to show.
pub open spec fn has_tail(tail: Option<Tail>, job: Job) -> bool {
    tail is Some && tail->0.job_id == job.id && tail->0.lines@.len() > 0
}

/// What a live pane shows of a job: its log tail when there is one, its steps
/// until then, and a word of patience before the first of them.
pub open spec fn live_body(state: App, job: Job, rows: int) -> Seq<LineV> {
    if has_tail(state.watch_tail, job) {
        newest(state.watch_tail->0.lines@, rows)
    } else if lesser(steps_end(job), rows) == 0 {
        one_line("waiting for the first step…"@, fg(Role::TextMuted).italic())
    } else {
        live_steps(job, rows, state.glyphs, state.now)
    }
}

/// What a live pane shows of a job.
pub fn live_lines(state: &App, job: &Job, rows: usize) -> (v: Vec<Line>)
    ensures
        v.deep_view() == live_body(*state, *job, rows as int),
{
    if let Some(t) = &state.watch_tail {
        if t.job_id == job.id && t.lines.len() > 0 {
            return tail_lines(&t.lines, rows);
        }
    }
    let steps = live_step_lines(job, rows, &state.glyphs, state.now);
    if steps.len() == 0 {
        just("waiting for the first step…", fg(Role::TextMuted).italic())
    } else {
        steps
    }
}

/// The run being followed, and where it stands.
pub open spec fn followed_head(state: App, d: RunDetail) -> Seq<LineV> {
    seq![
        ln(
            seq![sp(state.glyphs.mark(d.run.status), style_for_status(d.run.status))].push(
                sp(" "@, plain()),
            ).push(sp(d.run.display_title@, fg(Role::TextBright).bold())).push(
                sp("  ("@ + d.run.head_branch@ + ")"@, fg(Role::TextMuted)),
            ),
        ),
    ].push(
        ln(
            seq![sp("step "@, fg(Role::TextFaint))].push(
                sp(current_step(d), fg(Role::Text)),
            ).push(
                sp("  ·  "@ + elapsed_text(run_secs(d.run, state.now)), fg(Role::TextMuted)),
            ),
        ),
    ).push(ln(Seq::empty()))
}

/// The step in flight, or a dash.
pub open spec fn current_step(d: RunDetail) -> Seq<char> {
    match d.current_step {
        Some(s) => s@,
        None => "—"@,
    }
}

/// The step in flight, or a dash.
pub fn step_in_flight(d: &RunDetail) -> (s: &str)
    ensures
        s@ == current_step(*d),
{
    match &d.current_step {
        Some(s) => s.as_str(),
        None => "—",
    }
}

fn followed_lines(state: &App, d: &RunDetail) -> (v: Vec<Line>)
    ensures
        v.deep_view() == followed_head(*state, *d),
{
    let mut v: Vec<Line> = none();
    let mut a: Vec<Span> = none();
    say(&mut a, state.glyphs.of(d.run.status), style_for_status(d.run.status));
    say(&mut a, " ", plain());
    say(&mut a, &d.run.display_title, fg(Role::TextBright).bold());
    say_of(&mut a, cat3("  (", &d.run.head_branch, ")"), fg(Role::TextMuted));
    add_line(&mut v, a);
    let mut b: Vec<Span> = none();
    say(&mut b, "step ", fg(Role::TextFaint));
    say(&mut b, step_in_flight(d), fg(Role::Text));
    let t = format_elapsed(elapsed_seconds(&d.run, state.now));
    say_of(&mut b, cat2("  ·  ", &t), fg(Role::TextMuted));
    add_line(&mut v, b);
    add_blank(&mut v);
    v
}

/// The dashboard's live pane.
pub open spec fn live_pane(state: App, area: Rect, f: Followed) -> Seq<OpV> {
    let inner = framed(area, no_padding());
    let frame = seq![OpV::Frame { area, border: plain_panel("Live — "@ + f.spec@) }];
    if inner.height < 4 {
        frame
    } else {
        frame.push(
            text_op(
                inner,
                followed_head(state, f.detail) + live_body(state, f.job, inner.height - 3),
            ),
        )
    }
}

/// The dashboard's live pane: which run is being followed, where it stands, and
/// the tail of its running job's log.
pub fn render_dash_live(state: &App, area: Rect, f: &Followed) -> (ops: Vec<Op>)
    requires
        on_screen(area),
    ensures
        ops.deep_view() == live_pane(*state, area, *f),
{
    let mut ops: Vec<Op> = none();
    let title = cat2("Live — ", &f.spec);
    add_frame(&mut ops, area, styled_block(&title));
    let inner = inner_of(area, no_padding());
    if inner.height < 4 {
        return ops;
    }
    let mut lines = followed_lines(state, &f.detail);
    put_all(&mut lines, live_lines(state, &f.job, (inner.height - 3) as usize));
    add_text(&mut ops, inner, lines);
    ops
}

} // verus!
