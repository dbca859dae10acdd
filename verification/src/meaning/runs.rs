//! What is said of workflows and their runs.

use vstd::prelude::*;
use vstd::string::*;

use crate::clock::{ago_text, elapsed_text, run_secs, secs_since};
use crate::geometry::{framed, left_share, no_padding, right_share, split_into, Rect};

use crate::meaning::reading::{given, group_texts, heads, law_counts_are_how_many, said, tells, titled, told};
use crate::ops::{plain_panel, OpV};
use crate::paint::Paint;
use crate::runs::{job_lines, jobs_lines, message_lines, run_list, run_preview, run_row, runs_view, runs_title};
use crate::state::{App, Job, Run, Status, Workflow};
use crate::status::runs_in;
use crate::text::dec;
use crate::workflows::{block, block_role, is_preview, is_workflows_view, last_in, preview_cut, preview_parts, preview_ready, preview_row, preview_table, selected, three_tallies, workflow_list, workflow_row};
use crate::wrap::texts;

verus! {

broadcast use {vstd::string::group_string_axioms, group_texts};

/// What a rule ends with when it sums up how runs stand.
pub open spec fn standing_says(ok: nat, fail: nat, going: nat) -> Seq<char> {
    "─ "@ + ("✓"@ + dec(ok)) + ("  ✗"@ + dec(fail)) + given(going > 0, "  ⏵"@ + dec(going)) + " ─"@
}

proof fn lemma_standing(ok: nat, fail: nat, going: nat)
    ensures
        texts(three_tallies(ok, fail, going)) == "✓"@ + dec(ok) + ("  ✗"@ + dec(fail)) + given(
            going > 0,
            "  ⏵"@ + dec(going),
        ),
        three_tallies(ok, fail, going).len() > 0,
{
    assert(texts(three_tallies(ok, fail, going)) =~= "✓"@ + dec(ok) + ("  ✗"@ + dec(fail)) + given(
        going > 0,
        "  ⏵"@ + dec(going),
    ));
}

// ── Runs ───────────────────────────────────────────────────────────────────

/// How many runs have this status.
pub open spec fn runs_with(runs: Seq<Run>, s: Status) -> nat {
    runs.filter(|r: Run| r.status == s).len()
}

/// The list of runs is called after its workflow and counts its runs, in all and
/// by how they stand.
pub proof fn law_runs_are_counted(state: App, area: Rect)
    ensures
        ({
            let op = run_list(state, area)[0];
            &&& run_list(state, area).len() > 0
            &&& titled(
                op,
                "Runs"@ + (if state.workflow_for_runs is Some {
                    " — "@ + state.workflow_for_runs->0@
                } else {
                    ""@
                }) + "  "@ + dec(state.runs@.len()),
            )
            &&& op->border.top.len() == 2
            &&& said(op->border.top[1]) == standing_says(
                runs_with(state.runs@, Status::Success),
                runs_with(state.runs@, Status::Failure),
                runs_with(state.runs@, Status::Running),
            )
        }),
{
    let op = run_list(state, area)[0];
    let a = Status::Success;
    let b = Status::Failure;
    let c = Status::Running;
    law_counts_are_how_many(state.runs@, runs_in(a), |r: Run| r.status == a);
    law_counts_are_how_many(state.runs@, runs_in(b), |r: Run| r.status == b);
    law_counts_are_how_many(state.runs@, runs_in(c), |r: Run| r.status == c);
    let x = runs_with(state.runs@, a);
    let y = runs_with(state.runs@, b);
    let z = runs_with(state.runs@, c);
    lemma_standing(x, y, z);
    assert(said(op->border.top[1]) =~= standing_says(x, y, z));
    reveal_strlit("");
    reveal_strlit("Runs");
    reveal_strlit(" — ");
    reveal_strlit("Runs — ");
    reveal_strlit("  ");
    reveal_strlit("Runs  ");
    assert("Runs — "@ =~= "Runs"@ + " — "@);
    assert("Runs  "@ =~= "Runs"@ + "  "@);
    let name = "Runs"@ + (if state.workflow_for_runs is Some {
        " — "@ + state.workflow_for_runs->0@
    } else {
        ""@
    }) + "  "@ + dec(state.runs@.len());
    assert(runs_title(state) =~= name);
    assert(said(op->border.top[0]) =~= "─┤ "@ + name + " ├"@);
}

/// Every run has its row, in order, and the cursor's is the lit one. A row shows
/// the mark of its status, its branch over the start of its commit message, how
/// long ago it moved and how long it took.
#[verifier::rlimit(40)]
pub proof fn law_every_run_is_listed(state: App, area: Rect)
    requires
        area.height >= 4,
        state.runs@.len() > 0,
    ensures
        ({
            let op = run_list(state, area)[1];
            let t = op->table;
            &&& run_list(state, area).len() > 1 && op is Grid
            &&& t.rows.len() == state.runs@.len()
            &&& t.selected == Some(state.run_cursor)
            &&& forall|i: int|
                #![trigger t.rows[i]]
                0 <= i < t.rows.len() ==> {
                    let r = state.runs@[i];
                    &&& told(t.rows[i].cells[0]) == state.glyphs.mark(r.status)
                    &&& tells(t, i, "Branch"@, r.head_branch@)
                    &&& tells(t, i, "Updated"@, ago_text(secs_since(r.updated_at, state.now)))
                    &&& tells(t, i, "Dur"@, elapsed_text(run_secs(r, state.now)))
                    &&& t.rows[i].cells[1].lines.len() == 2
                    &&& said(t.rows[i].cells[1].lines[1]) == given(
                        r.commit_msg@.len() > 0,
                        "⎿ "@ + (if r.commit_msg@.len() <= 52 {
                            r.commit_msg@
                        } else {
                            r.commit_msg@.take(52) + "…"@
                        }),
                    )
                }
        }),
{
    let t = run_list(state, area)[1]->table;
    assert(heads(t, 1, "Branch"@));
    assert(heads(t, 2, "Updated"@));
    assert(heads(t, 3, "Dur"@));
    assert forall|i: int|
        #![trigger t.rows[i]]
        0 <= i < t.rows.len() implies {
        let r = state.runs@[i];
        &&& told(t.rows[i].cells[0]) == state.glyphs.mark(r.status)
        &&& tells(t, i, "Branch"@, r.head_branch@)
        &&& tells(t, i, "Updated"@, ago_text(secs_since(r.updated_at, state.now)))
        &&& tells(t, i, "Dur"@, elapsed_text(run_secs(r, state.now)))
        &&& t.rows[i].cells[1].lines.len() == 2
        &&& said(t.rows[i].cells[1].lines[1]) == given(
            r.commit_msg@.len() > 0,
            "⎿ "@ + (if r.commit_msg@.len() <= 52 {
                r.commit_msg@
            } else {
                r.commit_msg@.take(52) + "…"@
            }),
        )
    } by {
        let r = state.runs@[i];
        assert(t.rows[i] == run_row(state, r));
        assert(told(t.rows[i].cells[0]) =~= state.glyphs.mark(r.status));
        assert(told(t.rows[i].cells[1]) =~= r.head_branch@);
        assert(told(t.rows[i].cells[2]) =~= ago_text(secs_since(r.updated_at, state.now)));
        assert(told(t.rows[i].cells[3]) =~= elapsed_text(run_secs(r, state.now)));
        let words = given(
            r.commit_msg@.len() > 0,
            "⎿ "@ + (if r.commit_msg@.len() <= 52 {
                r.commit_msg@
            } else {
                r.commit_msg@.take(52) + "…"@
            }),
        );
        assert(said(t.rows[i].cells[1].lines[1]) =~= words);
    }
}

/// The list stands on the left and the preview on the right.
pub proof fn law_the_preview_stands_beside_the_runs(state: App, area: Rect)
    ensures
        runs_view(state, area) == run_list(state, left_share(42, area)) + run_preview(
            state,
            right_share(42, area),
        ),
{
}

/// How many lines the first `n` jobs take: one for each, and one for each of its
/// steps.
pub open spec fn lines_of(jobs: Seq<Job>, n: int) -> int
    decreases n,
{
    if n <= 0 {
        0
    } else {
        lines_of(jobs, n - 1) + 1 + jobs[n - 1].steps@.len()
    }
}

proof fn lemma_jobs_lines(state: App, jobs: Seq<Job>, n: int, j: int)
    requires
        0 <= j < n <= jobs.len(),
    ensures
        ({
            let lines = jobs_lines(state, jobs, n);
            let at = lines_of(jobs, j);
            &&& lines.len() == lines_of(jobs, n)
            &&& 0 <= at < at + 1 + jobs[j].steps@.len() <= lines.len()
            &&& lines.subrange(at, at + 1 + jobs[j].steps@.len()) == job_lines(state, jobs[j])
        }),
    decreases n,
{
    let lines = jobs_lines(state, jobs, n);
    let above = jobs_lines(state, jobs, n - 1);
    let at = lines_of(jobs, j);
    if n - 1 > 0 {
        lemma_jobs_lines(
            state,
            jobs,
            n - 1,
            if j < n - 1 {
                j
            } else {
                0
            },
        );
    }
    if j < n - 1 {
        assert(lines.subrange(at, at + 1 + jobs[j].steps@.len()) =~= above.subrange(
            at,
            at + 1 + jobs[j].steps@.len(),
        ));
    } else {
        assert(lines.subrange(at, at + 1 + jobs[j].steps@.len()) =~= job_lines(state, jobs[j]));
    }
}

/// The preview is of the run under the cursor, named by its title and branch.
/// Once its jobs are here it shows its commit message where there is one, then
/// every job in order, each with its steps under it, numbered.
pub proof fn law_the_preview_is_of_the_run_under_the_cursor(state: App, area: Rect, j: int)
    requires
        area.height >= 3,
        state.run_cursor < state.runs@.len(),
        state.runs_preview is Some,
        state.runs_preview_id == Some(state.runs@[state.run_cursor as int].id),
        0 <= j < state.runs_preview->0.jobs@.len(),
    ensures
        ({
            let run = state.runs@[state.run_cursor as int];
            let ops = run_preview(state, area);
            let lines = ops[1]->lines;
            let jobs = state.runs_preview->0.jobs@;
            let head = if run.commit_msg@.len() == 0 {
                0int
            } else {
                2
            };
            let at = head + lines_of(jobs, j);
            &&& ops.len() == 2 && ops[1] is Text
            &&& titled(ops[0], run.display_title@ + " — "@ + run.head_branch@)
            &&& lines.len() == head + lines_of(jobs, jobs.len() as int)
            &&& head == 2 ==> said(lines[0]) == "󰊢 "@ + run.commit_msg@
            &&& said(lines[at]) == state.glyphs.mark(jobs[j].status) + " "@ + jobs[j].name@
            &&& forall|i: int|
                #![trigger jobs[j].steps@[i]]
                0 <= i < jobs[j].steps@.len() ==> said(lines[at + 1 + i]) == "  "@
                    + state.glyphs.mark(jobs[j].steps@[i].status) + (" "@ + dec((i + 1) as nat)
                    + ". "@ + jobs[j].steps@[i].name@)
        }),
{
    let run = state.runs@[state.run_cursor as int];
    let ops = run_preview(state, area);
    let lines = ops[1]->lines;
    let jobs = state.runs_preview->0.jobs@;
    let n = jobs.len() as int;
    let head = if run.commit_msg@.len() == 0 {
        0int
    } else {
        2
    };
    let at = head + lines_of(jobs, j);
    assert(said(ops[0]->border.top[0]) =~= "─┤ "@ + (run.display_title@ + " — "@
        + run.head_branch@) + " ├"@);
    lemma_jobs_lines(state, jobs, n, j);
    let all = jobs_lines(state, jobs, n);
    assert(lines == message_lines(run) + all);
    if head == 2 {
        assert(said(lines[0]) =~= "󰊢 "@ + run.commit_msg@);
    }
    let here = all.subrange(lines_of(jobs, j), lines_of(jobs, j) + 1 + jobs[j].steps@.len());
    assert(lines[at] == here[0]);
    assert(said(lines[at]) =~= state.glyphs.mark(jobs[j].status) + " "@ + jobs[j].name@);
    assert forall|i: int|
        #![trigger jobs[j].steps@[i]]
        0 <= i < jobs[j].steps@.len() implies said(lines[at + 1 + i]) == "  "@ + state.glyphs.mark(
        jobs[j].steps@[i].status,
    ) + (" "@ + dec((i + 1) as nat) + ". "@ + jobs[j].steps@[i].name@) by {
        assert(lines[at + 1 + i] == here[1 + i]);
        assert(said(lines[at + 1 + i]) =~= "  "@ + state.glyphs.mark(jobs[j].steps@[i].status) + (
        " "@ + dec((i + 1) as nat) + ". "@ + jobs[j].steps@[i].name@));
    }
}

/// A preview that is not of the run under the cursor is not shown in its place.
pub proof fn law_no_other_run_is_previewed(state: App, area: Rect)
    requires
        area.height >= 3,
        state.run_cursor < state.runs@.len() && state.runs_preview is Some
            ==> state.runs_preview_id != Some(state.runs@[state.run_cursor as int].id),
    ensures
        ({
            let ops = run_preview(state, area);
            ops.len() == 2 && ops[1] is Text && ops[1]->lines.len() == 1 && said(ops[1]->lines[0])
                == "loading…"@
        }),
{
    let ops = run_preview(state, area);
    assert(said(ops[1]->lines[0]) =~= "loading…"@);
}

// ── Workflows ──────────────────────────────────────────────────────────────

/// How many workflows last ran with this status.
pub open spec fn last_with(ws: Seq<Workflow>, s: Status) -> nat {
    ws.filter(|w: Workflow| w.last_status == Some(s)).len()
}

/// The list of workflows counts them, in all and by how they last stood.
pub proof fn law_workflows_are_counted(state: App, area: Rect)
    ensures
        ({
            let op = workflow_list(state, area)[0];
            &&& workflow_list(state, area).len() > 0
            &&& titled(op, "Workflows  "@ + dec(state.workflows@.len()))
            &&& op->border.top.len() == 2
            &&& said(op->border.top[1]) == standing_says(
                last_with(state.workflows@, Status::Success),
                last_with(state.workflows@, Status::Failure),
                last_with(state.workflows@, Status::Running),
            )
        }),
{
    let ws = state.workflows@;
    let op = workflow_list(state, area)[0];
    let a = Status::Success;
    let b = Status::Failure;
    let c = Status::Running;
    law_counts_are_how_many(ws, last_in(a), |w: Workflow| w.last_status == Some(a));
    law_counts_are_how_many(ws, last_in(b), |w: Workflow| w.last_status == Some(b));
    law_counts_are_how_many(ws, last_in(c), |w: Workflow| w.last_status == Some(c));
    let x = last_with(ws, a);
    let y = last_with(ws, b);
    let z = last_with(ws, c);
    lemma_standing(x, y, z);
    assert(said(op->border.top[1]) =~= standing_says(x, y, z));
    assert(said(op->border.top[0]) =~= "─┤ "@ + ("Workflows  "@ + dec(ws.len())) + " ├"@);
}

/// Every workflow has its row, in order, and the cursor's is the lit one. A row
/// shows how its last run stands, its name and file, when it last ran, and a `t`
/// exactly when it can be triggered.
#[verifier::rlimit(40)]
pub proof fn law_every_workflow_is_listed(state: App, area: Rect)
    requires
        area.height >= 4,
        state.workflows@.len() > 0,
    ensures
        ({
            let op = workflow_list(state, area)[1];
            let t = op->table;
            &&& workflow_list(state, area).len() > 1 && op is Grid
            &&& t.rows.len() == state.workflows@.len()
            &&& t.selected == Some(state.workflow_cursor)
            &&& forall|i: int|
                #![trigger t.rows[i]]
                0 <= i < t.rows.len() ==> {
                    let w = state.workflows@[i];
                    &&& t.rows[i].cells.len() == 5
                    &&& told(t.rows[i].cells[0]) == (if w.last_status is Some {
                        state.glyphs.mark(w.last_status->0)
                    } else {
                        state.glyphs.unknown@
                    })
                    &&& tells(t, i, "Workflow"@, w.name@)
                    &&& tells(t, i, "File"@, w.file_name@)
                    &&& tells(
                        t,
                        i,
                        "Last run"@,
                        if w.last_run_at is Some {
                            ago_text(secs_since(w.last_run_at->0, state.now))
                        } else {
                            "—"@
                        },
                    )
                    &&& told(t.rows[i].cells[4]) == (if w.triggerable {
                        "t"@
                    } else {
                        " "@
                    })
                }
        }),
{
    let t = workflow_list(state, area)[1]->table;
    assert(heads(t, 1, "Workflow"@));
    assert(heads(t, 2, "File"@));
    assert(heads(t, 3, "Last run"@));
    assert forall|i: int|
        #![trigger t.rows[i]]
        0 <= i < t.rows.len() implies {
        let w = state.workflows@[i];
        &&& t.rows[i].cells.len() == 5
        &&& told(t.rows[i].cells[0]) == (if w.last_status is Some {
            state.glyphs.mark(w.last_status->0)
        } else {
            state.glyphs.unknown@
        })
        &&& tells(t, i, "Workflow"@, w.name@)
        &&& tells(t, i, "File"@, w.file_name@)
        &&& tells(
            t,
            i,
            "Last run"@,
            if w.last_run_at is Some {
                ago_text(secs_since(w.last_run_at->0, state.now))
            } else {
                "—"@
            },
        )
        &&& told(t.rows[i].cells[4]) == (if w.triggerable {
            "t"@
        } else {
            " "@
        })
    } by {
        let w = state.workflows@[i];
        assert(t.rows[i] == workflow_row(state, w));
        let mark = if w.last_status is Some {
            state.glyphs.mark(w.last_status->0)
        } else {
            state.glyphs.unknown@
        };
        assert(told(t.rows[i].cells[0]) =~= mark);
        assert(told(t.rows[i].cells[1]) =~= w.name@);
        assert(told(t.rows[i].cells[2]) =~= w.file_name@);
        let ago = if w.last_run_at is Some {
            ago_text(secs_since(w.last_run_at->0, state.now))
        } else {
            "—"@
        };
        assert(told(t.rows[i].cells[3]) =~= ago);
        let key = if w.triggerable {
            "t"@
        } else {
            " "@
        };
        assert(told(t.rows[i].cells[4]) =~= key);
    }
}

/// Whether the runs on hand are those of the workflow under the cursor.
pub open spec fn has_runs(state: App) -> bool {
    &&& state.workflow_cursor < state.workflows@.len()
    &&& state.workflow_preview_file is Some
    &&& state.workflow_preview_file->0@ == state.workflows@[state.workflow_cursor as int].file_name@
    &&& state.workflow_preview_runs@.len() > 0
}

/// The preview is of the workflow under the cursor: its runs, a row each in their
/// order, with the mark of its status, its branch and how long ago it moved; above
/// them a block for each as far as they fit, the oldest on the left, in the colour
/// of how it ended. The runs of another workflow are not shown in its place.
#[verifier::rlimit(40)]
pub proof fn law_the_preview_is_of_the_workflow_under_the_cursor(
    ops: Seq<OpV>,
    state: App,
    area: Rect,
)
    requires
        is_preview(ops, state, area),
        area.height >= 4,
    ensures
        ops.len() > 1,
        state.workflow_cursor < state.workflows@.len() ==> titled(
            ops[0],
            state.workflows@[state.workflow_cursor as int].name@,
        ),
        !has_runs(state) ==> ops.len() == 2 && ops[1] is Text && said(ops[1]->lines[0])
            == "loading…"@,
        has_runs(state) ==> {
            let runs = state.workflow_preview_runs@;
            let t = ops.last()->table;
            let n = ops.len() - 2;
            &&& ops.last() is Grid
            &&& t.rows.len() == runs.len()
            &&& forall|i: int|
                #![trigger t.rows[i]]
                0 <= i < runs.len() ==> {
                    &&& told(t.rows[i].cells[0]) == state.glyphs.mark(runs[i].status)
                    &&& tells(t, i, "Branch"@, runs[i].head_branch@)
                    &&& tells(t, i, "Updated"@, ago_text(secs_since(runs[i].updated_at, state.now)))
                }
            &&& n <= runs.len()
            &&& forall|i: int|
                #![trigger ops[1 + i]]
                0 <= i < n ==> ops[1 + i] is Ground && ops[1 + i]->Ground_style.bg == Some(
                    Paint::Plain(block_role(runs[runs.len() - 1 - i].status)),
                )
        },
{
    let runs = state.workflow_preview_runs@;
    assert(has_runs(state) == preview_ready(state));
    let inner = framed(area, no_padding());
    if state.workflow_cursor < state.workflows@.len() {
        let w = state.workflows@[state.workflow_cursor as int];
        assert(ops[0] is Frame && ops[0]->border == plain_panel(w.name@));
        assert(said(ops[0]->border.top[0]) =~= "─┤ "@ + w.name@ + " ├"@);
    }
    if has_runs(state) {
        let frame = seq![ops[0]];
        let pieces = choose|pieces: Seq<Rect>| #[trigger]
            split_into(pieces, true, preview_cut(), inner) && ops == seq![
                OpV::Frame {
                    area,
                    border: plain_panel(
                        match selected(state) {
                            Some(w) => w.name@,
                            None => "Runs"@,
                        },
                    ),
                },
            ] + preview_parts(state, pieces);
        let parts = preview_parts(state, pieces);
        let t = ops.last()->table;
        assert(ops.last() == parts.last());
        assert(t == preview_table(state));
        assert(heads(t, 1, "Branch"@));
        assert(heads(t, 2, "Updated"@));
        assert forall|i: int|
            #![trigger t.rows[i]]
            0 <= i < runs.len() implies {
            &&& told(t.rows[i].cells[0]) == state.glyphs.mark(runs[i].status)
            &&& tells(t, i, "Branch"@, runs[i].head_branch@)
            &&& tells(t, i, "Updated"@, ago_text(secs_since(runs[i].updated_at, state.now)))
        } by {
            assert(t.rows[i] == preview_row(state, runs[i]));
            assert(told(t.rows[i].cells[0]) =~= state.glyphs.mark(runs[i].status));
            assert(told(t.rows[i].cells[1]) =~= runs[i].head_branch@);
            assert(told(t.rows[i].cells[2]) =~= ago_text(
                secs_since(runs[i].updated_at, state.now),
            ));
        }
        let n = ops.len() - 2;
        assert forall|i: int|
            #![trigger ops[1 + i]]
            0 <= i < n implies ops[1 + i] is Ground && ops[1 + i]->Ground_style.bg == Some(
            Paint::Plain(block_role(runs[runs.len() - 1 - i].status)),
        ) by {
            assert(ops[1 + i] == parts[i]);
            assert(parts[i] == block(runs, pieces[0], i));
        }
    } else {
        assert(said(ops[1]->lines[0]) =~= "loading…"@);
    }
}

/// The list of workflows stands on the left, and the preview beside it.
pub proof fn law_the_preview_stands_beside_the_workflows(ops: Seq<OpV>, state: App, area: Rect)
    requires
        is_workflows_view(ops, state, area),
    ensures
        exists|rest: Seq<OpV>| #[trigger]
            is_preview(rest, state, right_share(58, area)) && ops == workflow_list(
                state,
                left_share(58, area),
            ) + rest,
{
}

} // verus!
