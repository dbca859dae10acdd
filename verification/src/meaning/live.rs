//! What is said of a run in flight.

use vstd::prelude::*;
use vstd::string::*;

use crate::clock::{elapsed_text, eta, run_secs, secs_since, typical};
use crate::geometry::{split_into, Rect};
use crate::list::first_where;
use crate::live::{live_body, live_pane, unfinished};
use crate::meaning::reading::{group_texts, law_counts_are_how_many, law_the_first_is_found, least, lemma_writes, over, said, titled, writes};
use crate::ops::OpV;
use crate::paint::LineV;
use crate::state::{App, Followed, Job, Status, Step, Tail};
use crate::strip::{finished_step, running_job};
use crate::text::dec;
use crate::watch::{clock_spans, gauge, is_job_list, is_watch_view, job_cut, job_ops, tail_height, tail_job, watch_cut, watch_head, watch_lines};
use crate::wrap::texts;

verus! {

broadcast use {vstd::string::group_string_axioms, group_texts};

/// Whether `lines` are the end of a log: as many of its last lines as there are
/// or as fit in `rows`, in their order.
pub open spec fn ends(lines: Seq<LineV>, log: Seq<String>, rows: int) -> bool {
    &&& lines.len() == least(log.len() as int, rows)
    &&& forall|k: int|
        0 <= k < lines.len() ==> said(#[trigger] lines[k]) == log[log.len() - lines.len() + k]@
}

/// Whether this is the log of `job`, and has begun.
pub open spec fn tail_of(tail: Option<Tail>, job: Job) -> bool {
    tail matches Some(t) && t.job_id == job.id && t.lines@.len() > 0
}

/// A followed job's log is shown from its end: what is on screen are its last
/// lines, in order, and the last of them is the last line of the log.
pub proof fn law_the_newest_lines_are_shown(state: App, job: Job, rows: int)
    requires
        0 <= rows,
        tail_of(state.watch_tail, job),
    ensures
        ({
            let log = state.watch_tail->0.lines@;
            let shown = live_body(state, job, rows);
            &&& ends(shown, log, rows)
            &&& rows > 0 ==> shown.len() > 0 && said(shown.last()) == log.last()@
            &&& rows >= log.len() ==> shown.len() == log.len() && said(shown[0]) == log[0]@
        }),
{
    let log = state.watch_tail->0.lines@;
    let shown = live_body(state, job, rows);
    assert forall|k: int| 0 <= k < shown.len() implies said(#[trigger] shown[k]) == log[log.len()
        - shown.len() + k]@ by {
        assert(said(shown[k]) =~= log[log.len() - shown.len() + k]@);
    }
}

/// What is said of a step: its mark, its name, and how long it took, or has
/// taken so far; nothing of the time before it has begun.
pub open spec fn step_says(state: App, s: Step) -> Seq<char> {
    state.glyphs.mark(s.status) + " "@ + s.name@ + (match s.started_at {
        None => ""@,
        Some(from) => "  "@ + elapsed_text(
            secs_since(
                from,
                if s.completed_at is Some {
                    s.completed_at->0
                } else {
                    state.now
                },
            ),
        ),
    })
}

/// Until a followed job has a log its steps are shown, in order and without a
/// gap. The last of them is the first that is not over, or the last of all when
/// every one is.
pub proof fn law_the_steps_lead_up_to_the_one_in_flight(state: App, job: Job, rows: int, at: int)
    requires
        rows > 0,
        !tail_of(state.watch_tail, job),
        0 <= at < job.steps@.len(),
        forall|j: int| 0 <= j < at ==> over((#[trigger] job.steps@[j]).status),
        at < job.steps@.len() - 1 ==> !over(job.steps@[at].status),
    ensures
        ({
            let shown = live_body(state, job, rows);
            &&& shown.len() == least(at + 1, rows)
            &&& forall|k: int|
                0 <= k < shown.len() ==> said(#[trigger] shown[k]) == step_says(
                    state,
                    job.steps@[at + 1 - shown.len() + k],
                )
        }),
{
    law_the_first_is_found(job.steps@, unfinished());
    let n = first_where(job.steps@, unfinished());
    if n < at {
        assert(over(job.steps@[n as int].status));
    }
    if n > at {
        assert(!unfinished()(job.steps@[at]));
    }
    let shown = live_body(state, job, rows);
    assert forall|k: int| 0 <= k < shown.len() implies said(#[trigger] shown[k]) == step_says(
        state,
        job.steps@[at + 1 - shown.len() + k],
    ) by {
        assert(said(shown[k]) =~= step_says(state, job.steps@[at + 1 - shown.len() + k]));
    }
}

/// The dashboard's live pane names the repo, the run and its branch, the step it
/// is on and how long it has been going. Under that the log of its job ends on
/// the last row of the pane or above it.
pub proof fn law_the_live_pane_follows_its_run(state: App, area: Rect, f: Followed)
    requires
        area.height >= 6,
    ensures
        ({
            let ops = live_pane(state, area, f);
            let lines = ops[1]->lines;
            let run = f.detail.run;
            let rows = area.height - 5;
            &&& ops.len() == 2 && ops[1] is Text && ops[1]->scroll == 0 && !ops[1]->wrap
            &&& titled(ops[0], "Live — "@ + f.spec@)
            &&& lines.len() >= 3
            &&& said(lines[0]) == state.glyphs.mark(run.status) + " "@ + run.display_title@ + "  ("@
                + run.head_branch@ + ")"@
            &&& said(lines[1]) == "step "@ + (if f.detail.current_step is Some {
                f.detail.current_step->0@
            } else {
                "—"@
            }) + "  ·  "@ + elapsed_text(run_secs(run, state.now))
            &&& lines.skip(3) == live_body(state, f.job, rows)
            &&& tail_of(state.watch_tail, f.job) ==> lines.len() <= area.height - 2 && said(
                lines.last(),
            ) == state.watch_tail->0.lines@.last()@
        }),
{
    let ops = live_pane(state, area, f);
    let lines = ops[1]->lines;
    let run = f.detail.run;
    let rows = area.height - 5;
    assert(said(ops[0]->border.top[0]) =~= "─┤ "@ + ("Live — "@ + f.spec@) + " ├"@);
    assert(said(lines[0]) =~= state.glyphs.mark(run.status) + " "@ + run.display_title@ + "  ("@
        + run.head_branch@ + ")"@);
    let step = if f.detail.current_step is Some {
        f.detail.current_step->0@
    } else {
        "—"@
    };
    assert(said(lines[1]) =~= "step "@ + step + "  ·  "@ + elapsed_text(run_secs(run, state.now)));
    assert(lines.skip(3) =~= live_body(state, f.job, rows));
    if tail_of(state.watch_tail, f.job) {
        law_the_newest_lines_are_shown(state, f.job, rows);
        assert(lines.skip(3).last() == lines.last());
    }
}

// ── Watching a run ─────────────────────────────────────────────────────────

proof fn lemma_job_ops(state: App, jobs: Seq<Job>, areas: Seq<Rect>, n: int, m: int) -> (k: int)
    requires
        0 <= m < n <= jobs.len(),
    ensures
        ({
            let ops = job_ops(state, jobs, areas, n);
            &&& 0 <= k < ops.len()
            &&& ops[k] == gauge(state, jobs[m], areas[2 * m])
            &&& jobs[m].steps@.len() > 0 ==> k + 1 < ops.len() && ops[k + 1] is Text && ops[k
                + 1]->lines == Seq::new(
                jobs[m].steps@.len(),
                |i: int| crate::watch::step_line(state, jobs[m], i),
            )
        }),
    decreases n,
{
    let above = job_ops(state, jobs, areas, n - 1);
    if m == n - 1 {
        above.len() as int
    } else {
        let k = lemma_job_ops(state, jobs, areas, n - 1, m);
        k
    }
}

/// Every job of a watched run has its bar: as full as the steps of it that are
/// over, which are counted beside its name. Its steps are numbered under it.
#[verifier::rlimit(40)]
pub proof fn law_every_job_is_watched(ops: Seq<OpV>, state: App, area: Rect, m: int)
    requires
        is_watch_view(ops, state, area),
        state.run_detail is Some,
        0 <= m < state.run_detail->0.jobs@.len(),
    ensures
        ({
            let job = state.run_detail->0.jobs@[m];
            let done = job.steps@.filter(|s: Step| over(s.status)).len();
            let total = if job.steps@.len() == 0 {
                1
            } else {
                job.steps@.len()
            };
            exists|k: int|
                #![trigger ops[k]->label]
                {
                    &&& 0 <= k < ops.len() && ops[k] is Gauge
                    &&& ops[k]->Gauge_num == done as u64
                    &&& ops[k]->Gauge_den == total as u64
                    &&& said(ops[k]->label) == state.glyphs.mark(job.status) + " "@ + job.name@
                        + "  "@ + dec(done) + "/"@ + dec(total)
                    &&& job.steps@.len() > 0 ==> {
                        &&& k + 1 < ops.len() && ops[k + 1] is Text
                        &&& ops[k + 1]->lines.len() == job.steps@.len()
                        &&& forall|i: int|
                            0 <= i < job.steps@.len() ==> said(#[trigger] ops[k + 1]->lines[i])
                                == "  "@ + state.glyphs.mark(job.steps@[i].status) + " "@ + dec(
                                (i + 1) as nat,
                            ) + ". "@ + job.steps@[i].name@
                    }
                }
        }),
{
    let d = state.run_detail->0;
    let job = d.jobs@[m];
    let (pieces, jobs) = choose|pieces: Seq<Rect>, jobs: Seq<OpV>|
        #![trigger split_into(pieces, true, watch_cut(state, area), area), is_job_list(
            jobs,
            state,
            pieces[1],
        )]
        split_into(pieces, true, watch_cut(state, area), area) && is_job_list(
            jobs,
            state,
            pieces[1],
        ) && ops == watch_head(state, area, pieces) + jobs;
    let areas = choose|areas: Seq<Rect>| #[trigger]
        split_into(areas, true, job_cut(d.jobs@, d.jobs@.len() as int), pieces[1]) && jobs
            == job_ops(state, d.jobs@, areas, d.jobs@.len() as int);
    let j = lemma_job_ops(state, d.jobs@, areas, d.jobs@.len() as int, m);
    let head = watch_head(state, area, pieces);
    let k = head.len() + j;
    assert(ops[k] == jobs[j]);
    law_counts_are_how_many(job.steps@, finished_step(), |s: Step| over(s.status));
    let done = job.steps@.filter(|s: Step| over(s.status)).len();
    let total = if job.steps@.len() == 0 {
        1
    } else {
        job.steps@.len()
    };
    assert(said(ops[k]->label) =~= state.glyphs.mark(job.status) + " "@ + job.name@ + "  "@ + dec(
        done,
    ) + "/"@ + dec(total));
    if job.steps@.len() > 0 {
        assert(ops[k + 1] == jobs[j + 1]);
        assert forall|i: int| 0 <= i < job.steps@.len() implies said(#[trigger] ops[k
            + 1]->lines[i]) == "  "@ + state.glyphs.mark(job.steps@[i].status) + " "@ + dec(
            (i + 1) as nat,
        ) + ". "@ + job.steps@[i].name@ by {
            assert(ops[k + 1]->lines[i] == crate::watch::step_line(state, job, i));
            assert(said(ops[k + 1]->lines[i]) =~= "  "@ + state.glyphs.mark(
                job.steps@[i].status,
            ) + " "@ + dec((i + 1) as nat) + ". "@ + job.steps@[i].name@);
        }
    }
}

/// A watched run is told of in four lines: how it stands, the step it is on, how
/// long it has been going, and which run on which branch it is. While it is
/// going, and there is a usual time to hold it against, that is said too, and
/// what is left of it.
#[verifier::rlimit(40)]
pub proof fn law_the_watched_run_is_told_of(ops: Seq<OpV>, state: App, area: Rect)
    requires
        is_watch_view(ops, state, area),
        state.run_detail is Some,
    ensures
        ({
            let d = state.run_detail->0;
            let secs = run_secs(d.run, state.now);
            let usual = typical(state.runs@, d.run.display_title@);
            &&& writes(ops, "Status: "@ + d.run.status.name()@)
            &&& writes(
                ops,
                "Step:   "@ + (if d.current_step is Some {
                    d.current_step->0@
                } else {
                    "—"@
                }),
            )
            &&& writes(
                ops,
                "Elapsed:"@ + " "@ + elapsed_text(secs) + (if over(d.run.status) || usual is None {
                    ""@
                } else {
                    "  ·  usually "@ + elapsed_text(usual->0) + "  ·  "@ + eta(usual->0, secs)
                }),
            )
            &&& writes(ops, "Run:    "@ + d.run.display_title@ + " on "@ + d.run.head_branch@)
        }),
{
    let d = state.run_detail->0;
    let secs = run_secs(d.run, state.now);
    let usual = typical(state.runs@, d.run.display_title@);
    let (pieces, jobs) = choose|pieces: Seq<Rect>, jobs: Seq<OpV>|
        #![trigger split_into(pieces, true, watch_cut(state, area), area), is_job_list(
            jobs,
            state,
            pieces[1],
        )]
        split_into(pieces, true, watch_cut(state, area), area) && is_job_list(
            jobs,
            state,
            pieces[1],
        ) && ops == watch_head(state, area, pieces) + jobs;
    let k = watch_head(state, area, pieces).len() - 1;
    assert(ops[k] == watch_head(state, area, pieces)[k]);
    assert(ops[k] is Text && ops[k]->lines == watch_lines(state));
    let lines = watch_lines(state);
    let clock = "Elapsed:"@ + " "@ + elapsed_text(secs) + (if over(d.run.status) || usual is None {
        ""@
    } else {
        "  ·  usually "@ + elapsed_text(usual->0) + "  ·  "@ + eta(usual->0, secs)
    });
    let step = if d.current_step is Some {
        d.current_step->0@
    } else {
        "—"@
    };
    reveal_strlit("");
    assert(said(lines[0]) =~= "Status: "@ + d.run.status.name()@);
    assert(said(lines[1]) =~= "Step:   "@ + step);
    assert(texts(clock_spans(state, d)) =~= clock);
    assert(said(lines[2]) =~= clock);
    assert(said(lines[3]) =~= "Run:    "@ + d.run.display_title@ + " on "@ + d.run.head_branch@);
    lemma_writes(ops, k, 0, "Status: "@ + d.run.status.name()@);
    lemma_writes(ops, k, 1, "Step:   "@ + step);
    lemma_writes(ops, k, 2, clock);
    lemma_writes(ops, k, 3, "Run:    "@ + d.run.display_title@ + " on "@ + d.run.head_branch@);
}

/// While a watched run is going its first running job is followed: on a screen
/// tall enough for it, the pane drawn first ends with the last lines of that
/// job's log, and says how many there are.
pub proof fn law_the_watched_log_ends_with_its_last_line(
    ops: Seq<OpV>,
    state: App,
    area: Rect,
    m: int,
)
    requires
        is_watch_view(ops, state, area),
        area.height >= 20,
        state.run_detail is Some,
        !over(state.run_detail->0.run.status),
        0 <= m < state.run_detail->0.jobs@.len(),
        state.run_detail->0.jobs@[m].status == Status::Running,
        forall|j: int|
            0 <= j < m ==> (#[trigger] state.run_detail->0.jobs@[j]).status != Status::Running,
        tail_of(state.watch_tail, state.run_detail->0.jobs@[m]),
    ensures
        ({
            let tail = state.watch_tail->0;
            let high = ops[0]->Frame_area.height;
            &&& ops.len() > 2 && ops[0] is Frame && ops[1] is Text
            &&& titled(
                ops[0],
                "Live log — "@ + tail.job_name@ + "  ("@ + dec(tail.lines@.len()) + " lines)"@,
            )
            &&& high >= 2 ==> ends(ops[1]->lines, tail.lines@, high - 2)
            &&& high > 2 ==> said(ops[1]->lines.last()) == tail.lines@.last()@
        }),
{
    let d = state.run_detail->0;
    let (pieces, jobs) = choose|pieces: Seq<Rect>, jobs: Seq<OpV>|
        #![trigger split_into(pieces, true, watch_cut(state, area), area), is_job_list(
            jobs,
            state,
            pieces[1],
        )]
        split_into(pieces, true, watch_cut(state, area), area) && is_job_list(
            jobs,
            state,
            pieces[1],
        ) && ops == watch_head(state, area, pieces) + jobs;
    law_the_first_is_found(d.jobs@, running_job());
    let n = first_where(d.jobs@, running_job());
    if n < m {
        assert(running_job()(d.jobs@[n as int]));
    }
    if n > m {
        assert(!running_job()(d.jobs@[m]));
    }
    let job = d.jobs@[m];
    assert(tail_job(state) == Some(job));
    let tail = state.watch_tail->0;
    let head = watch_head(state, area, pieces);
    assert(ops[0] == head[0] && ops[1] == head[1]);
    assert(said(ops[0]->border.top[0]) =~= "─┤ "@ + ("Live log — "@ + tail.job_name@ + "  ("@ + dec(
        tail.lines@.len(),
    ) + " lines)"@) + " ├"@);
    let high = ops[0]->Frame_area.height;
    if high >= 2 {
        law_the_newest_lines_are_shown(state, job, high - 2);
    }
}

/// The pane that follows a job takes a third of the view, fourteen rows at most. It
/// is there on a view of twenty rows or more while the run and one of its jobs are
/// going.
pub proof fn law_the_watched_log_has_its_third(state: App, area: Rect)
    ensures
        ({
            let going = state.run_detail matches Some(d) && !over(d.run.status) && exists|i: int|
                0 <= i < d.jobs@.len() && (#[trigger] d.jobs@[i]).status == Status::Running;
            tail_height(state, area) == (if going && area.height >= 20 {
                least(area.height as int / 3, 14)
            } else {
                0
            })
        }),
{
    if state.run_detail is Some {
        let d = state.run_detail->0;
        law_the_first_is_found(d.jobs@, running_job());
        let n = first_where(d.jobs@, running_job()) as int;
        if n < d.jobs@.len() {
            assert(d.jobs@[n].status == Status::Running);
        } else {
            assert forall|i: int| 0 <= i < d.jobs@.len() implies (#[trigger] d.jobs@[i]).status
                != Status::Running by {
                assert(!running_job()(d.jobs@[i]));
            }
        }
    }
}

/// Until a watched run has been fetched the run it is waiting on is named, the newest
/// there is.
pub proof fn law_a_run_not_here_yet_is_awaited(ops: Seq<OpV>, state: App, area: Rect)
    requires
        is_watch_view(ops, state, area),
        state.run_detail is None,
    ensures
        writes(
            ops,
            if state.runs@.len() == 0 {
                "loading runs…"@
            } else {
                "waiting on run "@ + dec(state.runs@[0].id as nat) + "…"@
            },
        ),
{
    let (pieces, jobs) = choose|pieces: Seq<Rect>, jobs: Seq<OpV>|
        #![trigger split_into(pieces, true, watch_cut(state, area), area), is_job_list(
            jobs,
            state,
            pieces[1],
        )]
        split_into(pieces, true, watch_cut(state, area), area) && is_job_list(
            jobs,
            state,
            pieces[1],
        ) && ops == watch_head(state, area, pieces) + jobs;
    let k = watch_head(state, area, pieces).len() - 1;
    assert(ops[k] == watch_head(state, area, pieces)[k]);
    let words = if state.runs@.len() == 0 {
        "loading runs…"@
    } else {
        "waiting on run "@ + dec(state.runs@[0].id as nat) + "…"@
    };
    assert(said(watch_lines(state)[0]) =~= words);
    lemma_writes(ops, k, 0, words);
}

/// A followed job with no steps yet, and no log, is being waited for.
pub proof fn law_a_job_without_steps_is_waited_for(state: App, job: Job, rows: int)
    requires
        !tail_of(state.watch_tail, job),
        job.steps@.len() == 0,
        rows >= 0,
    ensures
        live_body(state, job, rows).len() == 1,
        said(live_body(state, job, rows)[0]) == "waiting for the first step…"@,
{
    assert(said(live_body(state, job, rows)[0]) =~= "waiting for the first step…"@);
}

} // verus!
