//! What is said of a run held against the last that succeeded.

use vstd::prelude::*;
use vstd::string::*;

use crate::geometry::Rect;
use crate::meaning::reading::{group_texts, said};

use crate::paint::ln;
use crate::rundiff::{baseline_for, change_line, changes_in, diff_body, ended, ended_in, job_changes, run_diff, versus};
use crate::state::{App, Baseline, Job, RunDetail, Status, Step};
use crate::text::dec;


verus! {

broadcast use {vstd::string::group_string_axioms, group_texts};

/// Whether step `q` of job `p` is the last that has these names: no later job of
/// that name has such a step, and that job has no later one.
pub open spec fn last_called(
    jobs: Seq<Job>,
    job: Seq<char>,
    step: Seq<char>,
    p: int,
    q: int,
) -> bool {
    &&& 0 <= p < jobs.len() && jobs[p].name@ == job
    &&& 0 <= q < jobs[p].steps@.len() && jobs[p].steps@[q].name@ == step
    &&& forall|k: int|
        q < k < jobs[p].steps@.len() ==> (#[trigger] jobs[p].steps@[k]).name@ != step
    &&& forall|j: int, k: int|
        #![trigger jobs[j].steps@[k]]
        p < j < jobs.len() && 0 <= k < jobs[j].steps@.len() && jobs[j].name@ == job
            ==> jobs[j].steps@[k].name@ != step
}

/// Whether no job of this name has a step of this name.
pub open spec fn never_called(jobs: Seq<Job>, job: Seq<char>, step: Seq<char>) -> bool {
    forall|j: int, k: int|
        #![trigger jobs[j].steps@[k]]
        0 <= j < jobs.len() && 0 <= k < jobs[j].steps@.len() && jobs[j].name@ == job
            ==> jobs[j].steps@[k].name@ != step
}

proof fn lemma_ended(steps: Seq<Step>, name: Seq<char>, n: int)
    requires
        0 <= n <= steps.len(),
    ensures
        ended(steps, name, n) is None <==> forall|k: int|
            0 <= k < n ==> (#[trigger] steps[k]).name@ != name,
        ended(steps, name, n) matches Some(s) ==> exists|q: int|
            0 <= q < n && (#[trigger] steps[q]).name@ == name && steps[q].status == s && forall|
                k: int,
            |
                q < k < n ==> (#[trigger] steps[k]).name@ != name,
    decreases n,
{
    if n > 0 {
        lemma_ended(steps, name, n - 1);
        if steps[n - 1].name@ == name {
            assert(steps[n - 1].status == ended(steps, name, n)->0);
        }
    }
}

/// How a step ended the last time is how the last step of its name ended, in the
/// last job of its job's name that has one; there is no last time when none has.
pub proof fn law_the_last_record_counts(
    jobs: Seq<Job>,
    job: Seq<char>,
    step: Seq<char>,
    p: int,
    q: int,
)
    ensures
        last_called(jobs, job, step, p, q) ==> ended_in(jobs, job, step, jobs.len() as int) == Some(
            jobs[p].steps@[q].status,
        ),
        never_called(jobs, job, step) ==> ended_in(jobs, job, step, jobs.len() as int) is None,
{
    let n = jobs.len() as int;
    if last_called(jobs, job, step, p, q) {
        lemma_skips(jobs, job, step, p, n);
        let steps = jobs[p].steps@;
        lemma_ended(steps, step, steps.len() as int);
        assert(steps[q].name@ == step);
        let s = ended(steps, step, steps.len() as int)->0;
        let r = choose|r: int|
            0 <= r < steps.len() && (#[trigger] steps[r]).name@ == step && steps[r].status == s
                && forall|k: int| r < k < steps.len() ==> (#[trigger] steps[k]).name@ != step;
        if r < q {
            assert(steps[q].name@ != step);
        }
        if q < r {
            assert(jobs[p].steps@[r].name@ != step);
        }
    }
    if never_called(jobs, job, step) {
        lemma_skips(jobs, job, step, -1, n);
    }
}

proof fn lemma_skips(jobs: Seq<Job>, job: Seq<char>, step: Seq<char>, p: int, n: int)
    requires
        -1 <= p < n <= jobs.len() || (p == -1 && n == 0),
        forall|j: int, k: int|
            #![trigger jobs[j].steps@[k]]
            p < j < n && 0 <= k < jobs[j].steps@.len() && jobs[j].name@ == job
                ==> jobs[j].steps@[k].name@ != step,
    ensures
        ended_in(jobs, job, step, n) == ended_in(jobs, job, step, p + 1),
    decreases n,
{
    if n > p + 1 {
        let steps = jobs[n - 1].steps@;
        lemma_ended(steps, step, steps.len() as int);
        if jobs[n - 1].name@ == job {
            assert forall|k: int| 0 <= k < steps.len() implies (#[trigger] steps[k]).name@
                != step by {
                assert(jobs[n - 1].steps@[k].name@ != step);
            }
        }
        lemma_skips(jobs, job, step, p, n - 1);
    }
}

/// The run this one is held against: the last that succeeded, unless it is this
/// very run.
pub open spec fn held_against(state: App, d: RunDetail) -> Option<Baseline> {
    match state.baseline {
        Some(b) if b.run_id != d.run.id => Some(b),
        _ => None,
    }
}

/// How a step ended in the run this one is held against.
pub open spec fn then_was(b: Baseline, job: Job, step: Step) -> Option<Status> {
    ended_in(b.jobs@, job.name@, step.name@, b.jobs@.len() as int)
}

/// What is said of a step that ended otherwise than the last time: how it ended
/// now, and how it did then or that it was not there.
pub open spec fn change_says(state: App, b: Baseline, job: Job, step: Step) -> Seq<char> {
    "    "@ + state.glyphs.mark(step.status) + " "@ + step.name@ + "  "@ + (if then_was(
        b,
        job,
        step,
    ) is Some {
        then_was(b, job, step)->0.name()@
    } else {
        "(absent)"@
    }) + " → "@ + step.status.name()@
}

/// Whether a step ended otherwise than the last time.
pub open spec fn differs(b: Baseline, job: Job, step: Step) -> bool {
    then_was(b, job, step) != Some(step.status)
}

/// How many of the first `n` steps of a job ended otherwise.
pub open spec fn differing(b: Baseline, job: Job, n: int) -> nat
    decreases n,
{
    if n <= 0 {
        0
    } else if differs(b, job, job.steps@[n - 1]) {
        differing(b, job, n - 1) + 1
    } else {
        differing(b, job, n - 1)
    }
}

/// Where in the comparison job `j` begins: two lines for every job above it with
/// anything to say, and one for each step of it that ended otherwise.
pub open spec fn begins_on(b: Baseline, jobs: Seq<Job>, j: int) -> int
    decreases j,
{
    if j <= 0 {
        0
    } else {
        let n = differing(b, jobs[j - 1], jobs[j - 1].steps@.len() as int);
        begins_on(b, jobs, j - 1) + if n == 0 {
            0
        } else {
            n + 2
        }
    }
}

proof fn lemma_changes_in(state: App, b: Baseline, job: Job, n: int, i: int)
    requires
        0 <= n <= job.steps@.len(),
    ensures
        changes_in(state, Some(b), job, n).len() == differing(b, job, n),
        0 <= i < n && differs(b, job, job.steps@[i]) ==> differing(b, job, i) < differing(
            b,
            job,
            n,
        ) && said(changes_in(state, Some(b), job, n)[differing(b, job, i) as int]) == change_says(
            state,
            b,
            job,
            job.steps@[i],
        ),
    decreases n,
{
    if n > 0 {
        lemma_changes_in(state, b, job, n - 1, i);
        if i == n - 1 && differs(b, job, job.steps@[i]) {
            let l = change_line(state, Some(b), job, job.steps@[i]);
            assert(said(l) =~= change_says(state, b, job, job.steps@[i]));
        }
    }
}

proof fn lemma_job_changes(state: App, b: Baseline, jobs: Seq<Job>, n: int, j: int)
    requires
        0 <= n <= jobs.len(),
    ensures
        ({
            let lines = job_changes(state, Some(b), jobs, n);
            let at = begins_on(b, jobs, j);
            let inside = changes_in(state, Some(b), jobs[j], jobs[j].steps@.len() as int);
            &&& lines.len() == begins_on(b, jobs, n)
            &&& 0 <= j < n && inside.len() > 0 ==> {
                &&& 0 <= at && at + inside.len() + 2 <= lines.len()
                &&& said(lines[at]) == state.glyphs.mark(jobs[j].status) + " "@ + jobs[j].name@
                &&& lines.subrange(at + 1, at + 1 + inside.len()) == inside
            }
        }),
    decreases n,
{
    if n > 0 {
        let job = jobs[n - 1];
        let lines = job_changes(state, Some(b), jobs, n);
        let above = job_changes(state, Some(b), jobs, n - 1);
        lemma_job_changes(state, b, jobs, n - 1, j);
        lemma_changes_in(state, b, job, job.steps@.len() as int, 0);
        let at = begins_on(b, jobs, j);
        let inside = changes_in(state, Some(b), jobs[j], jobs[j].steps@.len() as int);
        if 0 <= j < n && inside.len() > 0 {
            if j < n - 1 {
                assert(lines.subrange(at + 1, at + 1 + inside.len()) =~= above.subrange(
                    at + 1,
                    at + 1 + inside.len(),
                ));
            } else {
                assert(at == above.len());
                assert(said(lines[at]) =~= state.glyphs.mark(job.status) + " "@ + job.name@);
                assert(lines.subrange(at + 1, at + 1 + inside.len()) =~= inside);
            }
        }
    }
}

/// A run is held against the last that succeeded, step by step: every step that
/// ended otherwise than then, or was not there, is listed under its job, in order,
/// with how it ended then and how it ended now. Nothing else is listed: there are
/// two lines above the first job, two for each job with a change in it, and one for
/// each change.
pub proof fn law_every_change_is_listed(state: App, area: Rect, j: int, i: int)
    requires
        state.run_detail is Some,
        state.workflow_for_runs is Some,
        held_against(state, state.run_detail->0) is Some,
        0 <= j < state.run_detail->0.jobs@.len(),
        0 <= i < state.run_detail->0.jobs@[j].steps@.len(),
        ({
            let d = state.run_detail->0;
            differs(held_against(state, d)->0, d.jobs@[j], d.jobs@[j].steps@[i])
        }),
    ensures
        ({
            let d = state.run_detail->0;
            let b = held_against(state, d)->0;
            let ops = run_diff(state, area);
            let lines = ops[1]->lines;
            let at = 2 + begins_on(b, d.jobs@, j);
            let k = at + 1 + differing(b, d.jobs@[j], i);
            &&& ops.len() == 2 && ops[1] is Text
            &&& lines.len() == 2 + begins_on(b, d.jobs@, d.jobs@.len() as int)
            &&& said(lines[0]) == "current run #"@ + dec(d.run.id as nat) + "   vs   "@
                + "last success #"@ + dec(b.run_id as nat)
            &&& 2 <= at < k < lines.len()
            &&& said(lines[at]) == state.glyphs.mark(d.jobs@[j].status) + " "@ + d.jobs@[j].name@
            &&& said(lines[k]) == change_says(state, b, d.jobs@[j], d.jobs@[j].steps@[i])
        }),
{
    let d = state.run_detail->0;
    let b = held_against(state, d)->0;
    let ops = run_diff(state, area);
    let lines = ops[1]->lines;
    let n = d.jobs@.len() as int;
    let job = d.jobs@[j];
    assert(baseline_for(state, d) == Some(b));
    lemma_changes_in(state, b, job, job.steps@.len() as int, i);
    lemma_job_changes(state, b, d.jobs@, n, j);
    let found = job_changes(state, Some(b), d.jobs@, n);
    assert(lines == seq![ln(versus(d, Some(b)))].push(ln(Seq::empty())) + found);
    assert(said(lines[0]) =~= "current run #"@ + dec(d.run.id as nat) + "   vs   "@
        + "last success #"@ + dec(b.run_id as nat));
    let at = begins_on(b, d.jobs@, j);
    let inside = changes_in(state, Some(b), job, job.steps@.len() as int);
    let m = differing(b, job, i) as int;
    assert(lines[2 + at] == found[at]);
    assert(lines[2 + at + 1 + m] == found[at + 1 + m]);
    assert(found.subrange(at + 1, at + 1 + inside.len())[m] == inside[m]);
}

proof fn lemma_none_differing(b: Baseline, job: Job, n: int)
    requires
        0 <= n <= job.steps@.len(),
        forall|i: int| 0 <= i < n ==> !differs(b, job, #[trigger] job.steps@[i]),
    ensures
        differing(b, job, n) == 0,
    decreases n,
{
    if n > 0 {
        lemma_none_differing(b, job, n - 1);
    }
}

proof fn lemma_nothing_begins(b: Baseline, jobs: Seq<Job>, n: int)
    requires
        0 <= n <= jobs.len(),
        forall|j: int, i: int|
            #![trigger jobs[j].steps@[i]]
            0 <= j < n && 0 <= i < jobs[j].steps@.len() ==> !differs(
                b,
                jobs[j],
                jobs[j].steps@[i],
            ),
    ensures
        begins_on(b, jobs, n) == 0,
    decreases n,
{
    if n > 0 {
        lemma_nothing_begins(b, jobs, n - 1);
        lemma_none_differing(b, jobs[n - 1], jobs[n - 1].steps@.len() as int);
    }
}

/// When every step ended as it did the last time, that is what is said; and when
/// there is no run to hold this one against, that and what to do about it.
pub proof fn law_no_change_is_said_so(state: App, area: Rect)
    requires
        state.run_detail is Some,
        state.workflow_for_runs is Some,
        ({
            let d = state.run_detail->0;
            held_against(state, d) matches Some(b) ==> forall|j: int, i: int|
                #![trigger d.jobs@[j].steps@[i]]
                0 <= j < d.jobs@.len() && 0 <= i < d.jobs@[j].steps@.len() ==> !differs(
                    b,
                    d.jobs@[j],
                    d.jobs@[j].steps@[i],
                )
        }),
    ensures
        ({
            let d = state.run_detail->0;
            let lines = run_diff(state, area)[1]->lines;
            &&& lines.len() == 3
            &&& held_against(state, d) is Some ==> said(lines[2]) == "no step-status differences"@
            &&& held_against(state, d) is None ==> said(lines[0]) == "current run #"@ + dec(
                d.run.id as nat,
            ) + "   vs   "@ + "no successful run in history"@ && said(lines[2])
                == "browse a few completed runs first to populate history"@
        }),
{
    let d = state.run_detail->0;
    let lines = run_diff(state, area)[1]->lines;
    let n = d.jobs@.len() as int;
    assert(lines == diff_body(state, d));
    match held_against(state, d) {
        Some(b) => {
            assert(baseline_for(state, d) == Some(b));
            lemma_nothing_begins(b, d.jobs@, n);
            lemma_job_changes(state, b, d.jobs@, n, 0);
            assert(said(lines[2]) =~= "no step-status differences"@);
        },
        None => {
            assert(baseline_for(state, d) is None);
            crate::rundiff::law_no_baseline_no_changes(state, d.jobs@, n);
            assert(said(lines[0]) =~= "current run #"@ + dec(d.run.id as nat) + "   vs   "@
                + "no successful run in history"@);
            assert(said(lines[2]) =~= "browse a few completed runs first to populate history"@);
        },
    }
}

} // verus!
