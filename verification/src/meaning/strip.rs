//! What the strip of runs in flight says.

use vstd::prelude::*;
use vstd::string::*;

use crate::bars::{bar_cells, Ratio};
use crate::clock::{elapsed_text, eta, run_secs, typical};
use crate::columns::{cut, text_columns};
use crate::geometry::Rect;
use crate::list::first_where;
use crate::meaning::reading::{given, group_texts, law_counts_are_how_many, law_the_first_is_found, least, over, said, told};
use crate::ops::{CellV, TableV};

use crate::state::{App, Job, RunDetail, Status, Step};
use crate::strip::{branch_w, count_w, elapsed_w, eta_w, finished_job, finished_step, floors, job_w, layout, pulse, running_job, repo_w, running_step, shrunk, standing, strip_cells, strip_line, strip_ops, strip_row, strip_shown, wanted, widest, workflow_w, StepV, StripV};
use crate::text::dec;


verus! {

broadcast use {vstd::string::group_string_axioms, group_texts};

/// Whether `k` is the first of the jobs that is running.
pub open spec fn first_running_job(jobs: Seq<Job>, k: int) -> bool {
    &&& 0 <= k < jobs.len() && jobs[k].status == Status::Running
    &&& forall|i: int| 0 <= i < k ==> (#[trigger] jobs[i]).status != Status::Running
}

/// Whether `k` is the first of the steps that is running.
pub open spec fn first_running_step(steps: Seq<Step>, k: int) -> bool {
    &&& 0 <= k < steps.len() && steps[k].status == Status::Running
    &&& forall|i: int| 0 <= i < k ==> (#[trigger] steps[i]).status != Status::Running
}

/// Whether none of the jobs is running.
pub open spec fn no_job_running(jobs: Seq<Job>) -> bool {
    forall|i: int| 0 <= i < jobs.len() ==> (#[trigger] jobs[i]).status != Status::Running
}

/// Whether none of the steps is running.
pub open spec fn no_step_running(steps: Seq<Step>) -> bool {
    forall|i: int| 0 <= i < steps.len() ==> (#[trigger] steps[i]).status != Status::Running
}

/// A run with a job running stands where the first such job does: on the first of
/// its steps that is running, counted from one out of how many; or between two, with
/// as many as are over. Its bar is as full as its steps are over.
pub proof fn law_a_run_stands_on_its_running_step(d: RunDetail, j: int, s: int)
    requires
        first_running_job(d.jobs@, j),
        first_running_step(d.jobs@[j].steps@, s) || no_step_running(d.jobs@[j].steps@),
    ensures
        ({
            let job = d.jobs@[j];
            let total = job.steps@.len();
            let done = job.steps@.filter(|x: Step| over(x.status)).len();
            let here = standing(d);
            &&& here.job == job.name@
            &&& total == 0 ==> here.ratio is None && here.count == ""@
            &&& total > 0 ==> here.ratio == Some(
                Ratio { done: done as usize, total: total as usize },
            )
            &&& first_running_step(job.steps@, s) ==> here.step == StepV::Named(
                job.steps@[s].name@,
            ) && here.count == dec((s + 1) as nat) + "/"@ + dec(total)
            &&& no_step_running(job.steps@) ==> here.step == StepV::Note("wrapping up"@)
            &&& no_step_running(job.steps@) && total > 0 ==> here.count == dec(done) + "/"@ + dec(
                total,
            )
        }),
{
    let job = d.jobs@[j];
    law_the_first_is_found(d.jobs@, running_job());
    let n = first_where(d.jobs@, running_job()) as int;
    assert(running_job()(d.jobs@[j]));
    if n < j {
        assert(d.jobs@[n].status == Status::Running);
    }
    law_the_first_is_found(job.steps@, running_step());
    let m = first_where(job.steps@, running_step()) as int;
    if first_running_step(job.steps@, s) {
        assert(running_step()(job.steps@[s]));
        if m < s {
            assert(job.steps@[m].status == Status::Running);
        }
    } else if m < job.steps@.len() {
        assert(job.steps@[m].status == Status::Running);
    }
    law_counts_are_how_many(job.steps@, finished_step(), |x: Step| over(x.status));
}

/// A run with no job running is waiting: for a runner or to start when it has no
/// jobs yet, for the next job when it has, with as many of them as are over.
pub proof fn law_a_run_between_jobs_is_waiting(d: RunDetail)
    requires
        no_job_running(d.jobs@),
    ensures
        ({
            let n = d.jobs@.len();
            let done = d.jobs@.filter(|x: Job| over(x.status)).len();
            let here = standing(d);
            &&& here.job == ""@
            &&& n == 0 ==> here.ratio is None && here.count == ""@ && here.step == StepV::Note(
                if d.run.status == Status::Queued {
                    "queued · waiting for a runner"@
                } else {
                    "starting up…"@
                },
            )
            &&& n > 0 ==> here.ratio == Some(Ratio { done: done as usize, total: n as usize })
                && here.count == dec(done) + "/"@ + dec(n) + " jobs"@ && here.step == StepV::Note(
                "waiting for the next job"@,
            )
        }),
{
    law_the_first_is_found(d.jobs@, running_job());
    let n = first_where(d.jobs@, running_job()) as int;
    if n < d.jobs@.len() {
        assert(d.jobs@[n].status == Status::Running);
    }
    law_counts_are_how_many(d.jobs@, finished_job(), |x: Job| over(x.status));
}

/// The strip says how many runs are in flight, and how many of them it shows where
/// that is not all. It shows the first of them, in order, a row each: its mark, the
/// repo, the run and its branch, the job and step it stands on, a bar, a count, what
/// is left of its usual time where that is shown, and how long it has been going.
#[verifier::rlimit(40)]
pub proof fn law_the_strip_shows_runs_in_flight(state: App, area: Rect)
    requires
        area.height >= 2,
    ensures
        ({
            let ops = strip_ops(state, area);
            let t = ops[1]->table;
            let n = state.active@.len();
            let shown = least(n as int, area.height - 2);
            &&& ops.len() == 2 && ops[0] is Frame && ops[1] is Grid
            &&& said(ops[0]->border.top[0]) == " "@ + state.glyphs.mark(Status::Running) + " "@
                + "Live"@ + "  "@ + dec(n) + " in flight "@ + given(
                shown < n,
                "(showing "@ + dec(shown as nat) + ") "@,
            )
            &&& t.rows.len() == shown
            &&& exists|cols: Seq<usize>, bar: int, timed: bool|
                #![trigger laid(t, state, cols, bar, timed)]
                laid(t, state, cols, bar, timed)
        }),
{
    reveal(strip_ops);
    let ops = strip_ops(state, area);
    let t = ops[1]->table;
    let n = state.active@.len();
    let shown = least(n as int, area.height - 2);
    assert(shown == strip_shown(state, area));
    assert(said(ops[0]->border.top[0]) =~= " "@ + state.glyphs.mark(Status::Running) + " "@
        + "Live"@ + "  "@ + dec(n) + " in flight "@ + given(
        shown < n,
        "(showing "@ + dec(shown as nat) + ") "@,
    ));
    let rows = Seq::new(shown as nat, |i: int| strip_row(state, i));
    let l = layout(rows, area.width);
    assert forall|i: int| #![trigger t.rows[i]] 0 <= i < t.rows.len() implies row_says(
        t.rows[i].cells,
        state,
        i,
        l.cols,
        l.bar,
        l.show_eta,
    ) by {
        let r = strip_row(state, i);
        let cells = t.rows[i].cells;
        assert(t.rows[i] == strip_line(state, rows[i], l));
        assert(cells == strip_cells(state, r, l));
        assert(told(cells[0]) =~= r.glyph);
        assert(told(cells[1]) =~= cut(r.repo, l.cols[0] as nat));
        assert(told(cells[2]) =~= cut(r.workflow, l.cols[1] as nat));
        assert(told(cells[3]) =~= cut(r.branch, l.cols[2] as nat));
        assert(told(cells[4]) =~= cut(r.job, l.cols[3] as nat));
        match r.step {
            StepV::Named(name) => {
                assert(told(cells[5]) =~= "› "@ + cut(
                    name,
                    (if l.cols[4] > 2 {
                        l.cols[4] - 2
                    } else {
                        0
                    }) as nat,
                ));
            },
            StepV::Note(note) => {
                assert(told(cells[5]) =~= cut(note, l.cols[4] as nat));
            },
        }
        assert(told(cells[7]) =~= r.count);
        if l.show_eta {
            assert(told(cells[8]) =~= r.eta);
        }
        assert(told(cells.last()) =~= r.elapsed);
        reveal_strlit("");
    }
    assert(laid(t, state, l.cols, l.bar, l.show_eta));
}

/// Whether row `i` of a table says what there is to say of run `i` in flight, as far
/// as its columns go.
pub open spec fn laid(t: TableV, state: App, cols: Seq<usize>, bar: int, timed: bool) -> bool {
    forall|i: int|
        #![trigger t.rows[i]]
        0 <= i < t.rows.len() ==> row_says(t.rows[i].cells, state, i, cols, bar, timed)
}

/// Whether these cells say what there is to say of run `i` in flight.
pub open spec fn row_says(
    cells: Seq<CellV>,
    state: App,
    i: int,
    cols: Seq<usize>,
    bar: int,
    timed: bool,
) -> bool {
    let e = state.active@[i];
    let card = state.repos@[e.repo as int];
    let run = e.detail.run;
    let here = standing(e.detail);
    let usual = typical(card.runs@, run.display_title@);
    let secs = run_secs(run, state.now);
    &&& cells.len() == if timed {
        10int
    } else {
        9
    }
    &&& told(cells[0]) == (if run.status == Status::Queued {
        pulse(state.tick_count)@
    } else {
        state.glyphs.mark(run.status)
    })
    &&& told(cells[1]) == cut(card.spec@, cols[0] as nat)
    &&& told(cells[2]) == cut(run.display_title@, cols[1] as nat)
    &&& told(cells[3]) == cut(run.head_branch@, cols[2] as nat)
    &&& told(cells[4]) == cut(here.job, cols[3] as nat)
    &&& match here.step {
        StepV::Named(name) => told(cells[5]) == "› "@ + cut(
            name,
            (if cols[4] > 2 {
                cols[4] - 2
            } else {
                0
            }) as nat,
        ),
        StepV::Note(note) => told(cells[5]) == cut(note, cols[4] as nat),
    }
    &&& cells[6].lines.len() == 1 && cells[6].lines[0].spans == bar_cells(
        here.ratio,
        bar,
        state.bar_sweep as int,
        state.bar_bounce as int,
    )
    &&& told(cells[7]) == here.count
    &&& timed ==> told(cells[8]) == given(usual is Some, eta(usual->0, secs))
    &&& told(cells.last()) == elapsed_text(secs)
}

/// The widest is as wide as any, and one of them.
pub proof fn law_the_widest_is_the_widest(n: int, g: spec_fn(int) -> int)
    requires
        forall|i: int| 0 <= i < n ==> #[trigger] g(i) >= 0,
    ensures
        forall|i: int| 0 <= i < n ==> #[trigger] g(i) <= widest(n, g),
        n > 0 ==> exists|i: int| 0 <= i < n && #[trigger] g(i) == widest(n, g),
    decreases n,
{
    if n > 0 {
        law_the_widest_is_the_widest(n - 1, g);
        if n > 1 {
            let k = choose|i: int| 0 <= i < n - 1 && #[trigger] g(i) == widest(n - 1, g);
            if widest(n, g) == widest(n - 1, g) {
                assert(g(k) == widest(n, g));
            } else {
                assert(g(n - 1) == widest(n, g));
            }
        } else {
            assert(widest(0, g) == 0);
            assert(g(0) >= 0);
            assert(widest(1, g) == g(0)) by {
                reveal_with_fuel(widest, 2);
            }
        }
    }
}

/// The strip has a bar of fourteen cells from ninety-six columns inside on, and says
/// what is left where there is anything to say and eighty columns for it.
pub proof fn law_the_strip_drops_its_extras(rows: Seq<StripV>, width: u16)
    requires
        width >= 2,
    ensures
        ({
            let l = layout(rows, width);
            &&& l.bar == if width >= 98 {
                14int
            } else {
                0
            }
            &&& l.show_eta <==> width >= 82 && exists|i: int|
                0 <= i < rows.len() && text_columns((#[trigger] rows[i]).eta) > 0
        }),
{
    let n = rows.len() as int;
    let g = eta_w(rows);
    law_the_widest_is_the_widest(n, g);
    if exists|i: int| 0 <= i < n && text_columns((#[trigger] rows[i]).eta) > 0 {
        let i = choose|i: int| 0 <= i < n && text_columns((#[trigger] rows[i]).eta) > 0;
        assert(g(i) > 0);
    } else if n > 0 {
        let i = choose|i: int| 0 <= i < n && #[trigger] g(i) == widest(n, g);
        assert(text_columns(rows[i].eta) == g(i));
    }
}

/// Where there is room for every column the strip cuts nothing that is not over long:
/// a repo of up to twenty-eight columns, a run of thirty, a branch of eighteen, a job
/// of twenty-two are shown whole.
pub proof fn law_a_roomy_strip_cuts_nothing(rows: Seq<StripV>, width: u16, i: int)
    requires
        0 <= i < rows.len(),
        shrunk(
            wanted(rows),
            floors(),
            strip_room(rows, width),
        ) == wanted(rows),
    ensures
        ({
            let l = layout(rows, width);
            &&& text_columns(rows[i].repo) <= 28 ==> text_columns(rows[i].repo) <= l.cols[0]
            &&& text_columns(rows[i].workflow) <= 30 ==> text_columns(rows[i].workflow) <= l.cols[1]
            &&& text_columns(rows[i].branch) <= 18 ==> text_columns(rows[i].branch) <= l.cols[2]
            &&& text_columns(rows[i].job) <= 22 ==> text_columns(rows[i].job) <= l.cols[3]
        }),
{
    let n = rows.len() as int;
    law_the_widest_is_the_widest(n, repo_w(rows));
    law_the_widest_is_the_widest(n, workflow_w(rows));
    law_the_widest_is_the_widest(n, branch_w(rows));
    law_the_widest_is_the_widest(n, job_w(rows));
    assert(repo_w(rows)(i) == text_columns(rows[i].repo));
    assert(workflow_w(rows)(i) == text_columns(rows[i].workflow));
    assert(branch_w(rows)(i) == text_columns(rows[i].branch));
    assert(job_w(rows)(i) == text_columns(rows[i].job));
}

/// How much room the strip has for the columns that can give.
pub open spec fn strip_room(rows: Seq<StripV>, width: u16) -> int {
    let n = rows.len() as int;
    let inner = if width >= 2 {
        width - 2
    } else {
        0
    };
    let bar: int = if inner >= 96 {
        14
    } else {
        0
    };
    let left = least(widest(n, eta_w(rows)), 14);
    let times = if left > 0 && inner >= 80 {
        left + 2
    } else {
        0
    };
    let elapsed = if widest(n, elapsed_w(rows)) > 4 {
        widest(n, elapsed_w(rows))
    } else {
        4
    };
    let taken = 1 + bar + least(widest(n, count_w(rows)), 9) + elapsed + times + 16;
    if inner > taken {
        inner - taken
    } else {
        0
    }
}

} // verus!
