//! The live strip along the bottom of the dashboard: for every run in flight,
//! which workflow is running and which step it is on.

use vstd::prelude::*;
use vstd::string::*;

use crate::bars::{bar_cells, drawable, progress_bar, Ratio};
use crate::clock::{elapsed_seconds, elapsed_text, eta, eta_text, format_elapsed, run_secs, typical, typical_run_secs};
use crate::columns::{cut, disp_width, text_columns, truncate};
use crate::geometry::{framed, inner_of, larger, less, lesser, no_padding, on_screen, Constraint, Rect};
use crate::list::{count_if, count_of, each, find_of, first_where, none, push_if, put};
use crate::ops::{add_cell, add_cell_line, add_cell_right, add_frame, add_table, cell, cell1, say, say_of, Border, BorderV, Cell, CellV, Op, OpV, Row, RowV, Table, TableV};
use crate::paint::{aligned, fg, ink, line, ln, ln1, plain, sp, span, Align, Line, Paint, Role, Span, SpanV, Weight};
use crate::state::{App, Job, RunDetail, Status, Step};
use crate::text::{cat3, cat4, dec, num, same};

verus! {

broadcast use vstd::string::group_string_axioms;

// ── Rows ───────────────────────────────────────────────────────────────────

/// The step column either names the step running, or says why none is.
#[derive(PartialEq, Eq, Debug)]
pub enum StepCell {
    Named(String),
    Note(String),
}

/// What a step column shows.
pub enum StepV {
    Named(Seq<char>),
    Note(Seq<char>),
}

impl DeepView for StepCell {
    type V = StepV;

    open spec fn deep_view(&self) -> StepV {
        match *self {
            StepCell::Named(s) => StepV::Named(s@),
            StepCell::Note(s) => StepV::Note(s@),
        }
    }
}

/// `a + b`, as far as a machine word counts.
pub open spec fn sum_held(a: int, b: int) -> int {
    lesser(a + b, usize::MAX as int)
}

/// How many columns a step would like, its marker included.
pub open spec fn step_width(s: StepV) -> int {
    match s {
        StepV::Named(t) => sum_held(text_columns(t) as int, 2),
        StepV::Note(t) => text_columns(t) as int,
    }
}

impl StepCell {
    /// Columns it would like, the `›` marker included.
    pub fn width(&self) -> (w: usize)
        ensures
            w == step_width(self.deep_view()),
    {
        match self {
            StepCell::Named(s) => disp_width(s).saturating_add(2),
            StepCell::Note(s) => disp_width(s),
        }
    }
}

/// One line of the live strip, before anything has been measured or cut.
#[derive(Debug)]
pub struct StripRow {
    pub glyph: String,
    /// The row above is the same repo, so the name is worth showing quietly.
    pub repeat: bool,
    pub repo: String,
    pub workflow: String,
    pub branch: String,
    /// Empty when no job is running yet: the step column says why.
    pub job: String,
    pub step: StepCell,
    pub ratio: Option<Ratio>,
    pub count: String,
    /// What this workflow's own recent durations say is left; empty when there
    /// is no history to predict from.
    pub eta: String,
    pub elapsed: String,
}

/// What a line of the strip shows.
pub struct StripV {
    pub glyph: Seq<char>,
    pub repeat: bool,
    pub repo: Seq<char>,
    pub workflow: Seq<char>,
    pub branch: Seq<char>,
    pub job: Seq<char>,
    pub step: StepV,
    pub ratio: Option<Ratio>,
    pub count: Seq<char>,
    pub eta: Seq<char>,
    pub elapsed: Seq<char>,
}

impl DeepView for StripRow {
    type V = StripV;

    open spec fn deep_view(&self) -> StripV {
        StripV {
            glyph: self.glyph@,
            repeat: self.repeat,
            repo: self.repo@,
            workflow: self.workflow@,
            branch: self.branch@,
            job: self.job@,
            step: self.step.deep_view(),
            ratio: self.ratio,
            count: self.count@,
            eta: self.eta@,
            elapsed: self.elapsed@,
        }
    }
}

/// Jobs that are running.
pub open spec fn running_job() -> spec_fn(Job) -> bool {
    |j: Job| j.status == Status::Running
}

/// Whether a job is running.
pub fn is_running_job(j: &Job) -> (r: bool)
    ensures
        r == running_job()(*j),
{
    j.status == Status::Running
}

/// Jobs that are over.
pub open spec fn finished_job() -> spec_fn(Job) -> bool {
    |j: Job| j.status.is_terminal()
}

fn is_finished_job(j: &Job) -> (r: bool)
    ensures
        r == finished_job()(*j),
{
    j.status.is_terminal()
}

/// Steps that are running.
pub open spec fn running_step() -> spec_fn(Step) -> bool {
    |s: Step| s.status == Status::Running
}

fn is_running_step(s: &Step) -> (r: bool)
    ensures
        r == running_step()(*s),
{
    s.status == Status::Running
}

/// Steps that are over.
pub open spec fn finished_step() -> spec_fn(Step) -> bool {
    |s: Step| s.status.is_terminal()
}

fn is_finished_step(s: &Step) -> (r: bool)
    ensures
        r == finished_step()(*s),
{
    s.status.is_terminal()
}

/// How many steps of a job are over.
pub fn finished_steps(j: &Job) -> (n: usize)
    ensures
        n as nat == count_if(j.steps@, finished_step()),
        n <= j.steps@.len(),
{
    count_of(&j.steps, is_finished_step, Ghost(finished_step()))
}

/// How far a run has come: a ratio, the count beside it, the job it is in and
/// what it is doing.
pub struct StandingV {
    pub ratio: Option<Ratio>,
    pub count: Seq<char>,
    pub job: Seq<char>,
    pub step: StepV,
}

/// How far a run has come.
#[derive(Debug)]
pub struct Standing {
    pub ratio: Option<Ratio>,
    pub count: String,
    pub job: String,
    pub step: StepCell,
}

impl DeepView for Standing {
    type V = StandingV;

    open spec fn deep_view(&self) -> StandingV {
        StandingV {
            ratio: self.ratio,
            count: self.count@,
            job: self.job@,
            step: self.step.deep_view(),
        }
    }
}

/// How far a running job has come: the step it is on out of how many, or how
/// many are over when it is between two.
pub open spec fn job_standing(job: Job) -> StandingV {
    let total = job.steps@.len();
    let done = count_if(job.steps@, finished_step());
    let cur = first_where(job.steps@, running_step());
    StandingV {
        ratio: if total > 0 {
            Some(Ratio { done: done as usize, total: total as usize })
        } else {
            None
        },
        count: if total == 0 {
            ""@
        } else if cur < total {
            dec(cur + 1) + "/"@ + dec(total)
        } else {
            dec(done) + "/"@ + dec(total)
        },
        job: job.name@,
        step: if cur < total {
            StepV::Named(job.steps@[cur as int].name@)
        } else {
            StepV::Note("wrapping up"@)
        },
    }
}

/// How far a run has come.
pub open spec fn standing(d: RunDetail) -> StandingV {
    let at = first_where(d.jobs@, running_job()) as int;
    let done = count_if(d.jobs@, finished_job());
    if at < d.jobs@.len() {
        job_standing(d.jobs@[at])
    } else if d.jobs@.len() == 0 {
        // Accepted, but not placed on a runner yet: there is no step to name.
        StandingV {
            ratio: None,
            count: ""@,
            job: ""@,
            step: StepV::Note(
                if d.run.status == Status::Queued {
                    "queued · waiting for a runner"@
                } else {
                    "starting up…"@
                },
            ),
        }
    } else {
        // Between two jobs, or one is still being scheduled.
        StandingV {
            ratio: Some(Ratio { done: done as usize, total: d.jobs@.len() as usize }),
            count: dec(done) + "/"@ + dec(d.jobs@.len()) + " jobs"@,
            job: ""@,
            step: StepV::Note("waiting for the next job"@),
        }
    }
}

fn job_standing_of(job: &Job) -> (s: Standing)
    ensures
        s.deep_view() == job_standing(*job),
        drawable(s.ratio),
{
    let total: usize = job.steps.len();
    let done: usize = finished_steps(job);
    let cur: usize = find_of(&job.steps, is_running_step, Ghost(running_step()));
    let ratio = if total > 0 {
        Some(Ratio { done, total })
    } else {
        None
    };
    let all = num(total as u128);
    let count = if total == 0 {
        "".to_string()
    } else if cur < total {
        let n = num(cur as u128 + 1);
        cat3(&n, "/", &all)
    } else {
        let n = num(done as u128);
        cat3(&n, "/", &all)
    };
    let step = if cur < total {
        StepCell::Named(job.steps[cur].name.as_str().to_string())
    } else {
        StepCell::Note("wrapping up".to_string())
    };
    Standing { ratio, count, job: job.name.as_str().to_string(), step }
}

fn standing_of(d: &RunDetail) -> (s: Standing)
    ensures
        s.deep_view() == standing(*d),
        drawable(s.ratio),
{
    let at: usize = find_of(&d.jobs, is_running_job, Ghost(running_job()));
    if at < d.jobs.len() {
        return job_standing_of(&d.jobs[at]);
    }
    if d.jobs.len() == 0 {
        let note = if d.run.status == Status::Queued {
            "queued · waiting for a runner"
        } else {
            "starting up…"
        };
        return Standing {
            ratio: None,
            count: "".to_string(),
            job: "".to_string(),
            step: StepCell::Note(note.to_string()),
        };
    }
    let done: usize = count_of(&d.jobs, is_finished_job, Ghost(finished_job()));
    let n = num(done as u128);
    let all = num(d.jobs.len() as u128);
    Standing {
        ratio: Some(Ratio { done, total: d.jobs.len() }),
        count: cat4(&n, "/", &all, " jobs"),
        job: "".to_string(),
        step: StepCell::Note("waiting for the next job".to_string()),
    }
}

/// A waiting run's pulse.
#[verifier::allow_in_spec]
pub fn pulse(tick: u64) -> &'static str
    returns
        (if (tick / 5) % 4 == 0 {
            "·"
        } else if (tick / 5) % 4 == 2 {
            "●"
        } else {
            "•"
        }),
{
    if (tick / 5) % 4 == 0 {
        "·"
    } else if (tick / 5) % 4 == 2 {
        "●"
    } else {
        "•"
    }
}

/// Line `i` of the strip.
pub open spec fn strip_row(state: App, i: int) -> StripV {
    let e = state.active@[i];
    let card = state.repos@[e.repo as int];
    let run = e.detail.run;
    let s = standing(e.detail);
    StripV {
        glyph: if run.status == Status::Queued {
            pulse(state.tick_count)@
        } else {
            state.glyphs.mark(run.status)
        },
        repeat: i > 0 && state.repos@[state.active@[i - 1].repo as int].spec@ == card.spec@,
        repo: card.spec@,
        workflow: run.display_title@,
        branch: run.head_branch@,
        job: s.job,
        step: s.step,
        ratio: s.ratio,
        count: s.count,
        eta: match typical(card.runs@, run.display_title@) {
            Some(t) => eta(t, run_secs(run, state.now)),
            None => ""@,
        },
        elapsed: elapsed_text(run_secs(run, state.now)),
    }
}

/// Whether every run in flight belongs to a row there is.
pub open spec fn active_ok(state: App) -> bool {
    forall|i: int|
        0 <= i < state.active@.len() ==> (#[trigger] state.active@[i]).repo < state.repos@.len()
}

fn strip_row_of(state: &App, i: usize) -> (r: StripRow)
    requires
        active_ok(*state),
        i < state.active@.len(),
    ensures
        r.deep_view() == strip_row(*state, i as int),
        drawable(r.ratio),
{
    let e = &state.active[i];
    assert(state.active@[i as int].repo < state.repos@.len());
    let card = &state.repos[e.repo];
    let run = &e.detail.run;
    let s = standing_of(&e.detail);
    let repeat = if i > 0 {
        assert(state.active@[i - 1].repo < state.repos@.len());
        same(&state.repos[state.active[i - 1].repo].spec, &card.spec)
    } else {
        false
    };
    // A queued run is waiting, not stopped: a static dot would be the only
    // still thing in a panel about motion.
    let glyph = if run.status == Status::Queued {
        pulse(state.tick_count)
    } else {
        state.glyphs.of(run.status)
    };
    let secs: i64 = elapsed_seconds(run, state.now);
    let left = match typical_run_secs(&card.runs, &run.display_title) {
        Some(t) => eta_text(t, secs),
        None => "".to_string(),
    };
    StripRow {
        glyph: glyph.to_string(),
        repeat,
        repo: card.spec.as_str().to_string(),
        workflow: run.display_title.as_str().to_string(),
        branch: run.head_branch.as_str().to_string(),
        job: s.job,
        step: s.step,
        ratio: s.ratio,
        count: s.count,
        eta: left,
        elapsed: format_elapsed(secs),
    }
}

// ── Sharing out the width ──────────────────────────────────────────────────

/// What the columns take together.
pub open spec fn total_of(cols: Seq<usize>) -> int
    decreases cols.len(),
{
    if cols.len() == 0 {
        0
    } else {
        total_of(cols.drop_last()) + cols.last()
    }
}

/// The widest of the first `n` columns that can still give: the last of them
/// when several are as wide.
pub open spec fn giver(cols: Seq<usize>, floors: Seq<usize>, n: int) -> Option<int>
    decreases n,
{
    if n <= 0 {
        None
    } else {
        let front = giver(cols, floors, n - 1);
        if cols[n - 1] <= floors[n - 1] {
            front
        } else {
            match front {
                Some(i) if cols[i] > cols[n - 1] => front,
                _ => Some(n - 1),
            }
        }
    }
}

/// Columns taken down from the widest end, one cell at a time, until they fit
/// or none can give any more.
pub open spec fn shrunk(cols: Seq<usize>, floors: Seq<usize>, avail: int) -> Seq<usize>
    decreases total_of(cols),
{
    match giver(cols, floors, cols.len() as int) {
        Some(i) if total_of(cols) > avail => {
            proof {
                lemma_giver(cols, floors, cols.len() as int);
                lemma_total_update(cols, i, (cols[i] - 1) as usize);
                lemma_total_pos(cols.update(i, (cols[i] - 1) as usize));
            }
            shrunk(cols.update(i, (cols[i] - 1) as usize), floors, avail)
        },
        _ => cols,
    }
}

/// One column changed changes the total by as much.
pub proof fn lemma_total_update(cols: Seq<usize>, i: int, x: usize)
    requires
        0 <= i < cols.len(),
    ensures
        total_of(cols.update(i, x)) == total_of(cols) - cols[i] + x,
        total_of(cols) >= cols[i],
    decreases cols.len(),
{
    lemma_total_pos(cols.drop_last());
    if i == cols.len() - 1 {
        assert(cols.update(i, x).drop_last() =~= cols.drop_last());
    } else {
        lemma_total_update(cols.drop_last(), i, x);
        assert(cols.update(i, x).drop_last() =~= cols.drop_last().update(i, x));
    }
}

/// Columns never total less than nothing.
pub proof fn lemma_total_pos(cols: Seq<usize>)
    ensures
        total_of(cols) >= 0,
    decreases cols.len(),
{
    if cols.len() > 0 {
        lemma_total_pos(cols.drop_last());
    }
}

/// The one that gives is above its floor, and no wider one is.
pub proof fn lemma_giver(cols: Seq<usize>, floors: Seq<usize>, n: int)
    requires
        0 <= n <= cols.len(),
    ensures
        match giver(cols, floors, n) {
            Some(i) => 0 <= i < n && cols[i] > floors[i] && forall|j: int|
                0 <= j < n && cols[j] > floors[j] ==> cols[j] <= cols[i],
            None => forall|j: int| 0 <= j < n ==> cols[j] <= floors[j],
        },
    decreases n,
{
    if n > 0 {
        lemma_giver(cols, floors, n - 1);
    }
}

/// Columns end up fitting, or none of them above its floor. Only what was above
/// its floor is cut, and never below it.
pub proof fn law_columns_shrink_to_fit(cols: Seq<usize>, floors: Seq<usize>, avail: int)
    ensures
        shrunk(cols, floors, avail).len() == cols.len(),
        total_of(shrunk(cols, floors, avail)) <= avail || forall|i: int|
            0 <= i < cols.len() ==> #[trigger] shrunk(cols, floors, avail)[i] <= floors[i],
        forall|i: int|
            0 <= i < cols.len() ==> lesser(cols[i] as int, floors[i] as int)
                <= #[trigger] shrunk(cols, floors, avail)[i] <= cols[i],
        total_of(cols) <= avail ==> shrunk(cols, floors, avail) == cols,
    decreases total_of(cols),
{
    lemma_giver(cols, floors, cols.len() as int);
    lemma_total_pos(cols);
    match giver(cols, floors, cols.len() as int) {
        Some(i) if total_of(cols) > avail => {
            let next = cols.update(i, (cols[i] - 1) as usize);
            lemma_total_update(cols, i, (cols[i] - 1) as usize);
            lemma_total_pos(next);
            law_columns_shrink_to_fit(next, floors, avail);
            assert(shrunk(cols, floors, avail) == shrunk(next, floors, avail));
        },
        _ => {},
    }
}

/// Nobody pays for somebody else's length: a column that was cut is never left
/// more than one cell narrower than another that could still have given.
pub proof fn law_the_widest_give_first(
    cols: Seq<usize>,
    floors: Seq<usize>,
    avail: int,
    i: int,
    j: int,
)
    requires
        0 <= i < cols.len(),
        0 <= j < cols.len(),
        shrunk(cols, floors, avail)[i] < cols[i],
        shrunk(cols, floors, avail)[j] > floors[j],
    ensures
        shrunk(cols, floors, avail)[j] <= shrunk(cols, floors, avail)[i] + 1,
    decreases total_of(cols),
{
    lemma_giver(cols, floors, cols.len() as int);
    lemma_total_pos(cols);
    match giver(cols, floors, cols.len() as int) {
        Some(k) if total_of(cols) > avail => {
            let next = cols.update(k, (cols[k] - 1) as usize);
            lemma_total_update(cols, k, (cols[k] - 1) as usize);
            lemma_total_pos(next);
            law_columns_shrink_to_fit(next, floors, avail);
            assert(shrunk(cols, floors, avail) == shrunk(next, floors, avail));
            if shrunk(next, floors, avail)[i] < next[i] {
                law_the_widest_give_first(next, floors, avail, i, j);
            } else {
                // Column `i` gave its last cell here, when it was the widest.
                assert(i == k);
                assert(shrunk(next, floors, avail)[j] <= next[j] <= cols[j]);
                assert(cols[j] > floors[j]);
            }
        },
        _ => {},
    }
}

fn sum_of(cols: &Vec<usize>) -> (s: u128)
    ensures
        s == total_of(cols@),
{
    let mut s: u128 = 0;
    let mut i: usize = 0;
    assert(cols@.take(0) =~= Seq::empty());
    while i < cols.len()
        invariant
            i <= cols@.len(),
            s == total_of(cols@.take(i as int)),
            s <= i * 0xffff_ffff_ffff_ffff,
        decreases cols@.len() - i,
    {
        assert(cols@.take(i + 1).drop_last() =~= cols@.take(i as int));
        assert((i + 1) * 0xffff_ffff_ffff_ffff <= 0xffff_ffff_ffff_ffff * 0xffff_ffff_ffff_ffff)
            by (nonlinear_arith)
            requires
                i + 1 <= 0xffff_ffff_ffff_ffff,
        ;
        assert((i + 1) * 0xffff_ffff_ffff_ffff == i * 0xffff_ffff_ffff_ffff + 0xffff_ffff_ffff_ffff)
            by (nonlinear_arith);
        s = s + cols[i] as u128;
        i = i + 1;
    }
    assert(cols@.take(cols@.len() as int) =~= cols@);
    s
}

fn find_giver(cols: &Vec<usize>, floors: &Vec<usize>) -> (r: Option<usize>)
    requires
        cols@.len() <= floors@.len(),
    ensures
        r is Some <==> giver(cols@, floors@, cols@.len() as int) is Some,
        r matches Some(i) ==> giver(cols@, floors@, cols@.len() as int) == Some(i as int),
{
    let mut best: Option<usize> = None;
    let mut i: usize = 0;
    while i < cols.len()
        invariant
            i <= cols@.len() <= floors@.len(),
            best is Some <==> giver(cols@, floors@, i as int) is Some,
            best matches Some(b) ==> giver(cols@, floors@, i as int) == Some(b as int) && b < i,
        decreases cols@.len() - i,
    {
        if cols[i] > floors[i] {
            best = match best {
                Some(b) if cols[b] > cols[i] => best,
                _ => Some(i),
            };
        }
        i = i + 1;
    }
    best
}

/// Take columns down from the widest end until they fit, never below `floors`.
///
/// Shrinking every column by the same share makes the short ones pay for the
/// long one; taking from whoever has the most to give keeps the narrow columns
/// whole and cuts only what was already too long to read.
pub fn shrink_to_fit(cols: &mut Vec<usize>, floors: &Vec<usize>, avail: usize)
    requires
        old(cols)@.len() <= floors@.len(),
    ensures
        final(cols)@ == shrunk(old(cols)@, floors@, avail as int),
        final(cols)@.len() == old(cols)@.len(),
{
    proof {
        law_columns_shrink_to_fit(cols@, floors@, avail as int);
    }
    loop
        invariant
            cols@.len() == old(cols)@.len(),
            cols@.len() <= floors@.len(),
            shrunk(cols@, floors@, avail as int) == shrunk(old(cols)@, floors@, avail as int),
        ensures
            cols@ == shrunk(old(cols)@, floors@, avail as int),
        decreases total_of(cols@),
    {
        let ghost now = cols@;
        proof {
            lemma_total_pos(now);
            lemma_giver(now, floors@, now.len() as int);
        }
        if sum_of(cols) <= avail as u128 {
            break;
        }
        match find_giver(cols, floors) {
            None => {
                break;
            },
            Some(i) => {
                proof {
                    lemma_total_update(now, i as int, (now[i as int] - 1) as usize);
                    lemma_total_pos(now.update(i as int, (now[i as int] - 1) as usize));
                }
                let w: usize = cols[i];
                cols.set(i, w - 1);
            },
        }
    }
}

// ── Layout ─────────────────────────────────────────────────────────────────

/// The largest of the first `n` values of `g`.
pub open spec fn widest(n: int, g: spec_fn(int) -> int) -> int
    decreases n,
{
    if n <= 0 {
        0
    } else {
        larger(widest(n - 1, g), g(n - 1))
    }
}

/// The largest of the first `n` values of `g`, which `f` computes.
pub fn widest_of<F: Fn(usize) -> usize>(n: usize, f: F, Ghost(g): Ghost<spec_fn(int) -> int>) -> (w:
    usize)
    requires
        forall|i: usize| i < n ==> call_requires(f, (i,)),
        forall|i: usize, r: usize| i < n && call_ensures(f, (i,), r) ==> r == g(i as int),
    ensures
        w == widest(n as int, g),
{
    let mut w: usize = 0;
    let mut i: usize = 0;
    while i < n
        invariant
            i <= n,
            w == widest(i as int, g),
            forall|i: usize| i < n ==> call_requires(f, (i,)),
            forall|i: usize, r: usize| i < n && call_ensures(f, (i,), r) ==> r == g(i as int),
        decreases n - i,
    {
        let x: usize = f(i);
        if x > w {
            w = x;
        }
        i = i + 1;
    }
    w
}

pub open spec fn repo_w(rows: Seq<StripV>) -> spec_fn(int) -> int {
    |i: int| text_columns(rows[i].repo) as int
}

pub open spec fn workflow_w(rows: Seq<StripV>) -> spec_fn(int) -> int {
    |i: int| text_columns(rows[i].workflow) as int
}

pub open spec fn branch_w(rows: Seq<StripV>) -> spec_fn(int) -> int {
    |i: int| text_columns(rows[i].branch) as int
}

pub open spec fn job_w(rows: Seq<StripV>) -> spec_fn(int) -> int {
    |i: int| text_columns(rows[i].job) as int
}

pub open spec fn step_w(rows: Seq<StripV>) -> spec_fn(int) -> int {
    |i: int| step_width(rows[i].step)
}

pub open spec fn count_w(rows: Seq<StripV>) -> spec_fn(int) -> int {
    |i: int| text_columns(rows[i].count) as int
}

pub open spec fn eta_w(rows: Seq<StripV>) -> spec_fn(int) -> int {
    |i: int| text_columns(rows[i].eta) as int
}

pub open spec fn elapsed_w(rows: Seq<StripV>) -> spec_fn(int) -> int {
    |i: int| text_columns(rows[i].elapsed) as int
}

/// How wide each column of the strip is.
#[derive(Debug)]
pub struct Layout {
    /// Repo, workflow, branch, job, step.
    pub cols: Vec<usize>,
    pub bar: usize,
    pub count: usize,
    pub eta: usize,
    pub show_eta: bool,
    pub elapsed: usize,
}

/// How wide each column of the strip is, in contracts.
pub struct LayoutV {
    pub cols: Seq<usize>,
    pub bar: int,
    pub count: int,
    pub eta: int,
    pub show_eta: bool,
    pub elapsed: int,
}

impl DeepView for Layout {
    type V = LayoutV;

    open spec fn deep_view(&self) -> LayoutV {
        LayoutV {
            cols: self.cols@,
            bar: self.bar as int,
            count: self.count as int,
            eta: self.eta as int,
            show_eta: self.show_eta,
            elapsed: self.elapsed as int,
        }
    }
}

/// Where a column refuses to shrink further: repo, workflow, branch, job, step.
pub open spec fn floors() -> Seq<usize> {
    seq![10usize].push(8).push(6).push(6).push(12)
}

/// What each column would like, up to where it stops growing.
pub open spec fn wanted(rows: Seq<StripV>) -> Seq<usize> {
    let n = rows.len() as int;
    seq![lesser(widest(n, repo_w(rows)), 28) as usize].push(
        lesser(widest(n, workflow_w(rows)), 30) as usize,
    ).push(lesser(widest(n, branch_w(rows)), 18) as usize).push(
        lesser(widest(n, job_w(rows)), 22) as usize,
    ).push(lesser(widest(n, step_w(rows)), 48) as usize)
}

/// The strip's columns: every field sized to the longest one on screen, shrunk
/// to fit, and the slack given to the step.
pub open spec fn layout(rows: Seq<StripV>, width: u16) -> LayoutV {
    let n = rows.len() as int;
    let inner = less(width as int, 2);
    let bar: int = if inner >= 96 {
        14
    } else {
        0
    };
    let count = lesser(widest(n, count_w(rows)), 9);
    let elapsed = larger(widest(n, elapsed_w(rows)), 4);
    let left = lesser(widest(n, eta_w(rows)), 14);
    let show_eta = left > 0 && inner >= 80;
    let eta = if show_eta {
        left
    } else {
        0
    };
    let fixed = 1 + bar + count + elapsed + eta + (if show_eta {
        2int
    } else {
        0
    }) + 16;
    let avail = less(inner, fixed);
    let cut = shrunk(wanted(rows), floors(), avail);
    LayoutV {
        cols: cut.update(4, (cut[4] + less(avail, total_of(cut))) as usize),
        bar,
        count,
        eta,
        show_eta,
        elapsed,
    }
}

fn capped(w: usize, cap: usize) -> (r: usize)
    ensures
        r == lesser(w as int, cap as int),
{
    if w <= cap {
        w
    } else {
        cap
    }
}

fn layout_of(rows: &Vec<StripRow>, width: u16) -> (l: Layout)
    ensures
        l.deep_view() == layout(rows.deep_view(), width),
        l.cols@.len() == 5,
        l.bar <= 14,
{
    let n: usize = rows.len();
    let ghost r = rows.deep_view();
    let w_repo: usize = widest_of(
        n,
        (|i: usize| -> (w: usize)
            requires
                i < rows@.len(),
            ensures
                w == text_columns(rows@[i as int].repo@),
        {
            disp_width(&rows[i].repo)
        }),
        Ghost(repo_w(r)),
    );
    let w_workflow: usize = widest_of(
        n,
        (|i: usize| -> (w: usize)
            requires
                i < rows@.len(),
            ensures
                w == text_columns(rows@[i as int].workflow@),
        {
            disp_width(&rows[i].workflow)
        }),
        Ghost(workflow_w(r)),
    );
    let w_branch: usize = widest_of(
        n,
        (|i: usize| -> (w: usize)
            requires
                i < rows@.len(),
            ensures
                w == text_columns(rows@[i as int].branch@),
        {
            disp_width(&rows[i].branch)
        }),
        Ghost(branch_w(r)),
    );
    let w_job: usize = widest_of(
        n,
        (|i: usize| -> (w: usize)
            requires
                i < rows@.len(),
            ensures
                w == text_columns(rows@[i as int].job@),
        {
            disp_width(&rows[i].job)
        }),
        Ghost(job_w(r)),
    );
    let w_step: usize = widest_of(
        n,
        (|i: usize| -> (w: usize)
            requires
                i < rows@.len(),
            ensures
                w == step_width(rows@[i as int].step.deep_view()),
        {
            rows[i].step.width()
        }),
        Ghost(step_w(r)),
    );
    let w_count: usize = widest_of(
        n,
        (|i: usize| -> (w: usize)
            requires
                i < rows@.len(),
            ensures
                w == text_columns(rows@[i as int].count@),
        {
            disp_width(&rows[i].count)
        }),
        Ghost(count_w(r)),
    );
    let w_eta: usize = widest_of(
        n,
        (|i: usize| -> (w: usize)
            requires
                i < rows@.len(),
            ensures
                w == text_columns(rows@[i as int].eta@),
        {
            disp_width(&rows[i].eta)
        }),
        Ghost(eta_w(r)),
    );
    let w_elapsed: usize = widest_of(
        n,
        (|i: usize| -> (w: usize)
            requires
                i < rows@.len(),
            ensures
                w == text_columns(rows@[i as int].elapsed@),
        {
            disp_width(&rows[i].elapsed)
        }),
        Ghost(elapsed_w(r)),
    );
    let mut cols: Vec<usize> = Vec::new();
    cols.push(capped(w_repo, 28));
    cols.push(capped(w_workflow, 30));
    cols.push(capped(w_branch, 18));
    cols.push(capped(w_job, 22));
    cols.push(capped(w_step, 48));
    assert(cols@ == wanted(r));
    let mut least: Vec<usize> = Vec::new();
    least.push(10);
    least.push(8);
    least.push(6);
    least.push(6);
    least.push(12);
    assert(least@ == floors());
    let inner: usize = width.saturating_sub(2) as usize;
    // The bar is the first thing to go: it repeats what the counter beside it
    // already says.
    let bar: usize = if inner >= 96 {
        14
    } else {
        0
    };
    let count: usize = capped(w_count, 9);
    let elapsed: usize = if w_elapsed > 4 {
        w_elapsed
    } else {
        4
    };
    let left: usize = capped(w_eta, 14);
    let show_eta = left > 0 && inner >= 80;
    let eta: usize = if show_eta {
        left
    } else {
        0
    };
    let toll: u128 = if show_eta {
        2
    } else {
        0
    };
    let fixed: u128 = 1 + bar as u128 + count as u128 + elapsed as u128 + eta as u128 + toll + 16;
    let avail: usize = if fixed >= inner as u128 {
        0
    } else {
        (inner as u128 - fixed) as usize
    };
    proof {
        law_columns_shrink_to_fit(cols@, least@, avail as int);
    }
    shrink_to_fit(&mut cols, &least, avail);
    // Slack goes to the step, so the elapsed clock keeps the right edge and the
    // field most likely to be cut gets whatever nobody else needed.
    let used: u128 = sum_of(&cols);
    let slack: usize = if used >= avail as u128 {
        0
    } else {
        (avail as u128 - used) as usize
    };
    let step: usize = cols[4];
    cols.set(4, step + slack);
    Layout { cols, bar, count, eta, show_eta, elapsed }
}

/// The strip is never wider than its frame while its columns have anything to
/// give: what the five fields take is what is left over for them, unless none
/// of them is above its floor.
pub proof fn law_strip_fills_its_frame(rows: Seq<StripV>, width: u16)
    ensures
        ({
            let l = layout(rows, width);
            let spare = less(width as int, 2) - (1 + l.bar + l.count + l.elapsed + l.eta + (if l.show_eta {
                2int
            } else {
                0
            }) + 16);
            &&& l.cols.len() == 5
            &&& spare >= 0 && (exists|i: int|
                0 <= i < 5 && #[trigger] l.cols[i] > floors()[i]) ==> total_of(l.cols) == spare
        }),
{
    let inner = less(width as int, 2);
    let l = layout(rows, width);
    let avail = less(
        inner,
        1 + l.bar + l.count + l.elapsed + l.eta + (if l.show_eta {
            2int
        } else {
            0
        }) + 16,
    );
    let cut = shrunk(wanted(rows), floors(), avail);
    law_columns_shrink_to_fit(wanted(rows), floors(), avail);
    lemma_total_update(cut, 4, (cut[4] + less(avail, total_of(cut))) as usize);
    assert(cut[4] <= wanted(rows)[4] <= 48);
    if exists|i: int| 0 <= i < 5 && #[trigger] l.cols[i] > floors()[i] {
        let i = choose|i: int| 0 <= i < 5 && #[trigger] l.cols[i] > floors()[i];
        if total_of(cut) > avail {
            assert(cut[i] <= floors()[i]);
        }
    }
}

// ── Drawing ────────────────────────────────────────────────────────────────

/// The running step's name breathes between two brightnesses.
#[verifier::allow_in_spec]
pub fn breathing() -> Paint
    returns
        (Paint::Mix { from: Role::Text, to: Role::TextBright, by: Weight::Breath { period: 16 } }),
{
    Paint::Mix { from: Role::Text, to: Role::TextBright, by: Weight::Breath { period: 16 } }
}

/// A line of the strip as the table shows it.
pub open spec fn strip_cells(state: App, r: StripV, l: LayoutV) -> Seq<CellV> {
    let step = match r.step {
        StepV::Named(name) => cell(
            ln(
                seq![sp("› "@, fg(Role::TextGhost))].push(
                    sp(cut(name, less(l.cols[4] as int, 2) as nat), ink(breathing()).bold()),
                ),
            ),
        ),
        StepV::Note(note) => cell1(cut(note, l.cols[4] as nat), fg(Role::TextMuted).italic()),
    };
    let lead = seq![cell1(r.glyph, fg(Role::Warning).bold())].push(
        cell1(
            cut(r.repo, l.cols[0] as nat),
            if r.repeat {
                fg(Role::TextGhost)
            } else {
                fg(Role::TextBright).bold()
            },
        ),
    ).push(cell1(cut(r.workflow, l.cols[1] as nat), fg(Role::Text))).push(
        cell1(cut(r.branch, l.cols[2] as nat), fg(Role::AccentDim)),
    ).push(cell1(cut(r.job, l.cols[3] as nat), fg(Role::TextMuted))).push(step).push(
        cell(ln(bar_cells(r.ratio, l.bar, state.bar_sweep as int, state.bar_bounce as int))),
    ).push(cell1(r.count, fg(Role::TextMuted)));
    push_if(
        lead,
        l.show_eta,
        cell(aligned(ln1(sp(r.eta, fg(Role::TextMuted))), Align::Right)),
    ).push(cell(aligned(ln1(sp(r.elapsed, fg(Role::Warning))), Align::Right)))
}

/// A row of the strip's table.
pub open spec fn strip_line(state: App, r: StripV, l: LayoutV) -> RowV {
    RowV { cells: strip_cells(state, r, l), height: 1, style: plain() }
}

fn strip_line_of(state: &App, r: &StripRow, l: &Layout) -> (row: Row)
    requires
        l.cols@.len() == 5,
        l.bar <= 14,
        drawable(r.ratio),
    ensures
        row.deep_view() == strip_line(*state, r.deep_view(), l.deep_view()),
{
    let mut cells: Vec<Cell> = none();
    add_cell(&mut cells, &r.glyph, fg(Role::Warning).bold());
    let repo = truncate(&r.repo, l.cols[0]);
    if r.repeat {
        add_cell(&mut cells, &repo, fg(Role::TextGhost));
    } else {
        add_cell(&mut cells, &repo, fg(Role::TextBright).bold());
    }
    let workflow = truncate(&r.workflow, l.cols[1]);
    add_cell(&mut cells, &workflow, fg(Role::Text));
    let branch = truncate(&r.branch, l.cols[2]);
    add_cell(&mut cells, &branch, fg(Role::AccentDim));
    let job = truncate(&r.job, l.cols[3]);
    add_cell(&mut cells, &job, fg(Role::TextMuted));
    match &r.step {
        StepCell::Named(name) => {
            let mut v: Vec<Span> = none();
            say(&mut v, "› ", fg(Role::TextGhost));
            say_of(&mut v, truncate(name, l.cols[4].saturating_sub(2)), ink(breathing()).bold());
            add_cell_line(&mut cells, v);
        },
        StepCell::Note(note) => {
            let t = truncate(note, l.cols[4]);
            add_cell(&mut cells, &t, fg(Role::TextMuted).italic());
        },
    }
    add_cell_line(&mut cells, progress_bar(r.ratio, l.bar, state.bar_sweep, state.bar_bounce));
    add_cell(&mut cells, &r.count, fg(Role::TextMuted));
    if l.show_eta {
        add_cell_right(&mut cells, &r.eta, fg(Role::TextMuted));
    }
    add_cell_right(&mut cells, &r.elapsed, fg(Role::Warning));
    Row { cells, height: 1, style: plain() }
}

/// The strip's column widths.
pub open spec fn strip_widths(l: LayoutV) -> Seq<Constraint> {
    let lead = seq![Constraint::Length(1)].push(Constraint::Length(l.cols[0] as u16)).push(
        Constraint::Length(l.cols[1] as u16),
    ).push(Constraint::Length(l.cols[2] as u16)).push(
        Constraint::Length(l.cols[3] as u16),
    ).push(Constraint::Length(l.cols[4] as u16)).push(Constraint::Length(l.bar as u16)).push(
        Constraint::Length(l.count as u16),
    );
    push_if(lead, l.show_eta, Constraint::Length(l.eta as u16)).push(
        Constraint::Length(l.elapsed as u16),
    )
}

fn strip_widths_of(l: &Layout) -> (v: Vec<Constraint>)
    requires
        l.cols@.len() == 5,
    ensures
        v@ == strip_widths(l.deep_view()),
{
    let mut v: Vec<Constraint> = Vec::new();
    v.push(Constraint::Length(1));  // spinner
    v.push(Constraint::Length(l.cols[0] as u16));
    v.push(Constraint::Length(l.cols[1] as u16));
    v.push(Constraint::Length(l.cols[2] as u16));
    v.push(Constraint::Length(l.cols[3] as u16));
    v.push(Constraint::Length(l.cols[4] as u16));
    v.push(Constraint::Length(l.bar as u16));
    v.push(Constraint::Length(l.count as u16));
    if l.show_eta {
        v.push(Constraint::Length(l.eta as u16));
    }
    v.push(Constraint::Length(l.elapsed as u16));
    v
}

/// How many runs the strip has room for.
pub open spec fn strip_shown(state: App, area: Rect) -> int {
    lesser(state.active@.len() as int, less(area.height as int, 2))
}

/// The strip's title: how many runs are in flight, and how many of them are
/// shown when that is not all.
pub open spec fn strip_title(state: App, shown: int) -> Seq<SpanV> {
    push_if(
        seq![
            sp(" "@ + state.glyphs.mark(Status::Running) + " "@, fg(Role::Warning).bold()),
        ].push(sp("Live"@, fg(Role::TextBright).bold())).push(
            sp("  "@ + dec(state.active@.len()) + " in flight "@, fg(Role::TextMuted)),
        ),
        shown < state.active@.len(),
        sp("(showing "@ + dec(shown as nat) + ") "@, fg(Role::TextMuted).italic()),
    )
}

fn strip_title_of(state: &App, shown: usize) -> (v: Vec<Span>)
    ensures
        v.deep_view() == strip_title(*state, shown as int),
{
    let mut v: Vec<Span> = none();
    say_of(&mut v, cat3(" ", state.glyphs.of(Status::Running), " "), fg(Role::Warning).bold());
    say(&mut v, "Live", fg(Role::TextBright).bold());
    let n = num(state.active.len() as u128);
    say_of(&mut v, cat3("  ", &n, " in flight "), fg(Role::TextMuted));
    // Never let the strip imply it is showing everything when it is not.
    if shown < state.active.len() {
        let s = num(shown as u128);
        say_of(&mut v, cat3("(showing ", &s, ") "), fg(Role::TextMuted).italic());
    }
    v
}

/// The strip's border: a slow breath, the one cue that survives peripheral
/// vision.
pub open spec fn strip_border(title: Seq<SpanV>) -> BorderV {
    BorderV {
        style: ink(
            Paint::Mix {
                from: Role::Border,
                to: Role::AccentDim,
                by: Weight::Breath { period: 20 },
            },
        ),
        top: seq![ln(title)],
        bottom: Seq::empty(),
        padding: no_padding(),
        ground: plain(),
    }
}

/// The live strip.
#[verifier::opaque]
pub open spec fn strip_ops(state: App, area: Rect) -> Seq<OpV> {
    let shown = strip_shown(state, area);
    let rows = Seq::new(shown as nat, |i: int| strip_row(state, i));
    let l = layout(rows, area.width);
    seq![OpV::Frame { area, border: strip_border(strip_title(state, shown)) }].push(
        OpV::Grid {
            area: framed(area, no_padding()),
            table: TableV {
                header: Seq::empty(),
                rows: Seq::new(shown as nat, |i: int| strip_line(state, rows[i], l)),
                widths: strip_widths(l),
                spacing: 2,
                highlight: plain(),
                symbol: sp(""@, plain()),
                selected: None,
            },
        },
    )
}

fn strip_rows_of(state: &App, shown: usize) -> (rows: Vec<StripRow>)
    requires
        active_ok(*state),
        shown <= state.active@.len(),
    ensures
        rows.deep_view() == Seq::new(shown as nat, |i: int| strip_row(*state, i)),
        rows@.len() == shown,
        forall|i: int| 0 <= i < rows@.len() ==> drawable((#[trigger] rows@[i]).ratio),
{
    let mut rows: Vec<StripRow> = none();
    let ghost g = |i: int| strip_row(*state, i);
    let mut i: usize = 0;
    assert(rows.deep_view() =~= Seq::new(0, g));
    while i < shown
        invariant
            i <= shown <= state.active@.len(),
            active_ok(*state),
            g == (|i: int| strip_row(*state, i)),
            rows@.len() == i,
            rows.deep_view() == Seq::new(i as nat, g),
            forall|k: int| 0 <= k < rows@.len() ==> drawable((#[trigger] rows@[k]).ratio),
        decreases shown - i,
    {
        put(&mut rows, strip_row_of(state, i));
        assert(rows.deep_view() =~= Seq::new((i + 1) as nat, g));
        i = i + 1;
    }
    rows
}

/// The live strip along the bottom of the dashboard.
///
/// The table above can only say that a repo is busy. Answering "busy doing
/// what?" otherwise costs two keystrokes and a screen change per repo, which is
/// exactly the question you have while waiting on a deploy.
pub fn render_activity_strip(state: &App, area: Rect) -> (ops: Vec<Op>)
    requires
        on_screen(area),
        active_ok(*state),
    ensures
        ops.deep_view() == strip_ops(*state, area),
{
    let room: usize = area.height.saturating_sub(2) as usize;
    let shown: usize = capped(state.active.len(), room);
    let rows = strip_rows_of(state, shown);
    let l = layout_of(&rows, area.width);
    let ghost r = rows.deep_view();
    let ghost lv = l.deep_view();
    let ghost g = |i: int| strip_line(*state, r[i], lv);
    let lines = each(
        shown,
        (|i: usize| -> (row: Row)
            requires
                i < rows@.len(),
                l.cols@.len() == 5,
                l.bar <= 14,
                forall|k: int| 0 <= k < rows@.len() ==> drawable((#[trigger] rows@[k]).ratio),
            ensures
                row.deep_view() == strip_line(*state, rows@[i as int].deep_view(), l.deep_view()),
        {
            strip_line_of(state, &rows[i], &l)
        }),
        Ghost(g),
    );
    let mut ops: Vec<Op> = none();
    let mut top: Vec<Line> = none();
    put(&mut top, line(strip_title_of(state, shown)));
    add_frame(
        &mut ops,
        area,
        Border {
            style: ink(
                Paint::Mix {
                    from: Role::Border,
                    to: Role::AccentDim,
                    by: Weight::Breath { period: 20 },
                },
            ),
            top,
            bottom: none(),
            padding: no_padding(),
            ground: plain(),
        },
    );
    let inner = inner_of(area, no_padding());
    proof {
        reveal(strip_ops);
        let rr = Seq::new(shown as nat, |i: int| strip_row(*state, i));
        assert(lines.deep_view() =~= Seq::new(shown as nat, |i: int| strip_line(*state, rr[i], lv)));
    }
    add_table(
        &mut ops,
        inner,
        Table {
            header: none(),
            rows: lines,
            widths: strip_widths_of(&l),
            spacing: 2,
            highlight: plain(),
            symbol: span("", plain()),
            selected: None,
        },
    );
    ops
}

/// The strip does not know which repo is selected.
pub proof fn lemma_strip_unselected(state: App, other: App, area: Rect)
    requires
        other == (App { repo_cursor: other.repo_cursor, ..state }),
    ensures
        strip_ops(other, area) == strip_ops(state, area),
{
    reveal(strip_ops);
    let shown = strip_shown(state, area);
    let rows = Seq::new(shown as nat, |i: int| strip_row(state, i));
    let same = Seq::new(shown as nat, |i: int| strip_row(other, i));
    assert(rows =~= same);
    let l = layout(rows, area.width);
    assert(Seq::new(shown as nat, |i: int| strip_line(state, rows[i], l)) =~= Seq::new(
        shown as nat,
        |i: int| strip_line(other, same[i], l),
    ));
}

} // verus!
