//! This run against the last that succeeded: which steps ended differently.

use vstd::prelude::*;
use vstd::string::*;

use crate::geometry::{framed, inner_of, no_padding, on_screen, Rect};
use crate::list::{none, put_all};
use crate::ops::{add_blank, add_frame, add_line, add_line_of, add_text, add_wrapped, just, one_line, plain_panel, say, say_of, styled_block, text_op, wrapped_op, Op, OpV};
use crate::paint::{fg, ln, ln1, plain, sp, Line, LineV, Role, Span, SpanV};
use crate::state::{App, Baseline, Job, RunDetail, Status, Step};
use crate::status::style_for_status;
use crate::text::{cat2, dec, num, same};

verus! {

broadcast use vstd::string::group_string_axioms;

/// How the last of the first `n` steps called `name` ended.
pub open spec fn ended(steps: Seq<Step>, name: Seq<char>, n: int) -> Option<Status>
    decreases n,
{
    if n <= 0 {
        None
    } else if steps[n - 1].name@ == name {
        Some(steps[n - 1].status)
    } else {
        ended(steps, name, n - 1)
    }
}

/// How a job's step ended, in the last of the first `n` jobs that has both.
pub open spec fn ended_in(jobs: Seq<Job>, job: Seq<char>, step: Seq<char>, n: int) -> Option<Status>
    decreases n,
{
    if n <= 0 {
        None
    } else {
        let here = ended(jobs[n - 1].steps@, step, jobs[n - 1].steps@.len() as int);
        if jobs[n - 1].name@ == job && here is Some {
            here
        } else {
            ended_in(jobs, job, step, n - 1)
        }
    }
}

/// The run to hold this one against: the last that succeeded, unless it is this
/// one.
pub open spec fn baseline_for(state: App, d: RunDetail) -> Option<Baseline> {
    if state.baseline is Some && state.baseline->0.run_id != d.run.id {
        state.baseline
    } else {
        None
    }
}

/// How a step ended the last time.
pub open spec fn before(base: Option<Baseline>, job: Job, step: Step) -> Option<Status> {
    match base {
        Some(b) => ended_in(b.jobs@, job.name@, step.name@, b.jobs@.len() as int),
        None => None,
    }
}

/// Whether a step ended differently; one that was not there at all did.
pub open spec fn changed(base: Option<Baseline>, job: Job, step: Step) -> bool {
    base is Some && before(base, job, step) != Some(step.status)
}

/// How a step changed.
pub open spec fn change_line(state: App, base: Option<Baseline>, job: Job, step: Step) -> LineV {
    ln(
        seq![sp("    "@, plain())].push(
            sp(state.glyphs.mark(step.status), style_for_status(step.status)),
        ).push(sp(" "@, plain())).push(sp(step.name@, fg(Role::TextBright))).push(
            sp("  "@, plain()),
        ).push(
            sp(
                match before(base, job, step) {
                    Some(p) => p.name()@,
                    None => "(absent)"@,
                },
                fg(Role::TextFaint),
            ),
        ).push(sp(" → "@, plain())).push(
            sp(step.status.name()@, style_for_status(step.status)),
        ),
    )
}

/// How the first `n` steps of a job changed.
pub open spec fn changes_in(state: App, base: Option<Baseline>, job: Job, n: int) -> Seq<LineV>
    decreases n,
{
    if n <= 0 {
        Seq::empty()
    } else if changed(base, job, job.steps@[n - 1]) {
        changes_in(state, base, job, n - 1).push(
            change_line(state, base, job, job.steps@[n - 1]),
        )
    } else {
        changes_in(state, base, job, n - 1)
    }
}

/// How the first `n` jobs changed, each under its name; a job in which nothing
/// did is left out.
pub open spec fn job_changes(state: App, base: Option<Baseline>, jobs: Seq<Job>, n: int) -> Seq<LineV>
    decreases n,
{
    if n <= 0 {
        Seq::empty()
    } else {
        let job = jobs[n - 1];
        let inside = changes_in(state, base, job, job.steps@.len() as int);
        let above = job_changes(state, base, jobs, n - 1);
        if inside.len() == 0 {
            above
        } else {
            (above.push(
                ln(
                    seq![sp(state.glyphs.mark(job.status), style_for_status(job.status))].push(
                        sp(" "@, plain()),
                    ).push(sp(job.name@, plain().bold())),
                ),
            ) + inside).push(ln(Seq::empty()))
        }
    }
}

/// Which two runs these are.
pub open spec fn versus(d: RunDetail, base: Option<Baseline>) -> Seq<SpanV> {
    seq![
        sp("current run #"@ + dec(d.run.id as nat), fg(Role::TextBright).bold()),
    ].push(sp("   vs   "@, plain())).push(
        match base {
            Some(b) => sp(
                "last success #"@ + dec(b.run_id as nat),
                fg(Role::Success).bold(),
            ),
            None => sp("no successful run in history"@, fg(Role::TextFaint).italic()),
        },
    )
}

/// The comparison.
pub open spec fn diff_body(state: App, d: RunDetail) -> Seq<LineV> {
    let base = baseline_for(state, d);
    let found = job_changes(state, base, d.jobs@, d.jobs@.len() as int);
    let lines = seq![ln(versus(d, base))].push(ln(Seq::empty())) + found;
    if found.len() > 0 {
        lines
    } else if base is Some {
        lines.push(ln1(sp("no step-status differences"@, fg(Role::TextFaint).italic())))
    } else {
        lines.push(
            ln1(
                sp(
                    "browse a few completed runs first to populate history"@,
                    fg(Role::TextFaint).italic(),
                ),
            ),
        )
    }
}

/// This run against the last that succeeded.
pub open spec fn run_diff(state: App, area: Rect) -> Seq<OpV> {
    let inner = framed(area, no_padding());
    let frame = seq![
        OpV::Frame { area, border: plain_panel("Diff vs last successful run"@) },
    ];
    match (state.run_detail, state.workflow_for_runs) {
        (None, _) => frame.push(text_op(inner, one_line("(no run loaded)"@, plain()))),
        (Some(_), None) => frame.push(
            text_op(
                inner,
                one_line(
                    "(no workflow context — diff needs to be opened from a workflow's run list)"@,
                    plain(),
                ),
            ),
        ),
        (Some(d), Some(_)) => frame.push(wrapped_op(inner, diff_body(state, d))),
    }
}

/// With nothing to hold a run against, nothing has changed.
pub proof fn law_no_baseline_no_changes(state: App, jobs: Seq<Job>, n: int)
    requires
        0 <= n <= jobs.len(),
    ensures
        job_changes(state, None, jobs, n) == Seq::<LineV>::empty(),
    decreases n,
{
    if n > 0 {
        law_no_baseline_no_changes(state, jobs, n - 1);
        lemma_unchanged(state, jobs[n - 1], jobs[n - 1].steps@.len() as int);
    }
}

proof fn lemma_unchanged(state: App, job: Job, n: int)
    requires
        0 <= n <= job.steps@.len(),
    ensures
        changes_in(state, None, job, n) == Seq::<LineV>::empty(),
    decreases n,
{
    if n > 0 {
        lemma_unchanged(state, job, n - 1);
    }
}

/// A step that ended as it did the last time is not listed: only changes are.
pub proof fn law_only_changes_are_listed(state: App, base: Option<Baseline>, job: Job, n: int)
    requires
        0 <= n <= job.steps@.len(),
        forall|i: int| 0 <= i < n ==> before(base, job, #[trigger] job.steps@[i]) == Some(
            job.steps@[i].status,
        ),
    ensures
        changes_in(state, base, job, n) == Seq::<LineV>::empty(),
    decreases n,
{
    if n > 0 {
        law_only_changes_are_listed(state, base, job, n - 1);
    }
}

fn find_ended(jobs: &Vec<Job>, job: &str, step: &str) -> (r: Option<Status>)
    ensures
        r == ended_in(jobs@, job@, step@, jobs@.len() as int),
{
    let mut n: usize = jobs.len();
    while n > 0
        invariant
            n <= jobs@.len(),
            ended_in(jobs@, job@, step@, n as int) == ended_in(
                jobs@,
                job@,
                step@,
                jobs@.len() as int,
            ),
        decreases n,
    {
        let j = &jobs[n - 1];
        if same(&j.name, job) {
            let steps = &j.steps;
            let mut k: usize = steps.len();
            while k > 0
                invariant
                    0 < n <= jobs@.len(),
                    steps == jobs@[n - 1].steps,
                    jobs@[n - 1].name@ == job@,
                    k <= steps@.len(),
                    ended(steps@, step@, k as int) == ended(steps@, step@, steps@.len() as int),
                    ended_in(jobs@, job@, step@, n as int) == ended_in(
                        jobs@,
                        job@,
                        step@,
                        jobs@.len() as int,
                    ),
                decreases k,
            {
                if same(&steps[k - 1].name, step) {
                    return Some(steps[k - 1].status);
                }
                k = k - 1;
            }
        }
        n = n - 1;
    }
    None
}

fn before_of(base: Option<&Baseline>, job: &Job, step: &Step) -> (r: Option<Status>)
    ensures
        r == before(opt(base), *job, *step),
{
    match base {
        Some(b) => find_ended(&b.jobs, &job.name, &step.name),
        None => None,
    }
}

/// What is behind a reference that may not be there.
pub open spec fn opt(base: Option<&Baseline>) -> Option<Baseline> {
    match base {
        Some(b) => Some(*b),
        None => None,
    }
}

fn changes_of(state: &App, base: Option<&Baseline>, job: &Job) -> (v: Vec<Line>)
    ensures
        v.deep_view() == changes_in(*state, opt(base), *job, job.steps@.len() as int),
{
    let mut lines: Vec<Line> = none();
    let mut i: usize = 0;
    while i < job.steps.len()
        invariant
            i <= job.steps@.len(),
            lines.deep_view() == changes_in(*state, opt(base), *job, i as int),
        decreases job.steps@.len() - i,
    {
        let s = &job.steps[i];
        let prev = before_of(base, job, s);
        let differs = match prev {
            Some(p) => p != s.status,
            None => base.is_some(),
        };
        if differs {
            let mut v: Vec<Span> = none();
            say(&mut v, "    ", plain());
            say(&mut v, state.glyphs.of(s.status), style_for_status(s.status));
            say(&mut v, " ", plain());
            say(&mut v, &s.name, fg(Role::TextBright));
            say(&mut v, "  ", plain());
            let was = match prev {
                Some(p) => p.name(),
                None => "(absent)",
            };
            say(&mut v, was, fg(Role::TextFaint));
            say(&mut v, " → ", plain());
            say(&mut v, s.status.name(), style_for_status(s.status));
            add_line(&mut lines, v);
        }
        i = i + 1;
    }
    lines
}

fn diff_body_of(state: &App, d: &RunDetail) -> (v: Vec<Line>)
    ensures
        v.deep_view() == diff_body(*state, *d),
{
    broadcast use crate::list::lemma_deep_len;

    let base: Option<&Baseline> = match &state.baseline {
        Some(b) => if b.run_id != d.run.id {
            Some(b)
        } else {
            None
        },
        None => None,
    };
    assert(opt(base) == baseline_for(*state, *d));
    let mut head: Vec<Span> = none();
    let id = num(d.run.id as u128);
    say_of(&mut head, cat2("current run #", &id), fg(Role::TextBright).bold());
    say(&mut head, "   vs   ", plain());
    match base {
        Some(b) => {
            let id = num(b.run_id as u128);
            say_of(&mut head, cat2("last success #", &id), fg(Role::Success).bold());
        },
        None => {
            say(&mut head, "no successful run in history", fg(Role::TextFaint).italic());
        },
    }
    let mut lines: Vec<Line> = none();
    add_line(&mut lines, head);
    add_blank(&mut lines);
    let mut found: Vec<Line> = none();
    let mut i: usize = 0;
    while i < d.jobs.len()
        invariant
            i <= d.jobs@.len(),
            found.deep_view() == job_changes(*state, opt(base), d.jobs@, i as int),
        decreases d.jobs@.len() - i,
    {
        broadcast use crate::list::lemma_deep_len;

        let job = &d.jobs[i];
        let inside = changes_of(state, base, job);
        assert(inside.deep_view().len() == inside@.len());
        if inside.len() > 0 {
            let mut v: Vec<Span> = none();
            say(&mut v, state.glyphs.of(job.status), style_for_status(job.status));
            say(&mut v, " ", plain());
            say(&mut v, &job.name, plain().bold());
            add_line(&mut found, v);
            put_all(&mut found, inside);
            add_blank(&mut found);
        }
        i = i + 1;
    }
    assert(found.deep_view().len() == found@.len());
    let any = found.len() > 0;
    put_all(&mut lines, found);
    if !any {
        if base.is_some() {
            add_line_of(&mut lines, "no step-status differences", fg(Role::TextFaint).italic());
        } else {
            add_line_of(
                &mut lines,
                "browse a few completed runs first to populate history",
                fg(Role::TextFaint).italic(),
            );
        }
    }
    lines
}

/// This run against the last that succeeded.
pub fn render_diff(state: &App, area: Rect) -> (ops: Vec<Op>)
    requires
        on_screen(area),
    ensures
        ops.deep_view() == run_diff(*state, area),
{
    let mut ops: Vec<Op> = none();
    add_frame(&mut ops, area, styled_block("Diff vs last successful run"));
    let inner = inner_of(area, no_padding());
    match (&state.run_detail, &state.workflow_for_runs) {
        (None, _) => {
            add_text(&mut ops, inner, just("(no run loaded)", plain()));
        },
        (Some(_), None) => {
            add_text(
                &mut ops,
                inner,
                just(
                    "(no workflow context — diff needs to be opened from a workflow's run list)",
                    plain(),
                ),
            );
        },
        (Some(d), Some(_)) => {
            add_wrapped(&mut ops, inner, diff_body_of(state, d));
        },
    }
    ops
}

} // verus!
