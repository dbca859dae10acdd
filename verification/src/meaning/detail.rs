//! What is said of one run, its jobs and its steps.

use vstd::prelude::*;
use vstd::string::*;

use crate::clock::{elapsed_text, run_secs};
use crate::columns::cut;
use crate::detail::{about, badge, detail_cut, detail_parts, detail_row, detail_table, digest_height, digest_line, digest_ops, failed_job, filled_cells, is_detail_view, job_cells, measured, run_summary, step_cells, step_dur, step_millis, ten_cells, timed};
use crate::geometry::{framed, no_padding, split_into, Rect};
use crate::list::first_where;
use crate::meaning::reading::{given, group_texts, law_counts_are_how_many, law_the_first_is_found, lemma_vec_len, lemma_writes, said, titled, told, writes};
use crate::ops::{plain_panel, OpV};
use crate::paint::{Paint, Role};
use crate::state::{App, DetailItem, Job, RunDetail, Status, Step, StepStat};
use crate::text::{align_right, dec};
use crate::wrap::texts;

verus! {

broadcast use {vstd::string::group_string_axioms, group_texts};

/// Whether the digest of why this run failed is shown: there is one of this very
/// run, it did fail, and the steps are left eight rows.
pub open spec fn explains(state: App, d: RunDetail, area: Rect) -> bool {
    &&& state.failure_digest is Some
    &&& state.failure_digest->0.run_id == d.run.id
    &&& d.run.status == Status::Failure
    &&& area.height >= state.failure_digest->0.lines@.len() as u16 + 12
}

#[verifier::rlimit(40)]
proof fn lemma_parts(ops: Seq<OpV>, state: App, area: Rect) -> (k: int)
    requires
        is_detail_view(ops, state, area),
        state.run_detail is Some,
    ensures
        ({
            let d = state.run_detail->0;
            &&& k == if explains(state, d, area) {
                3int
            } else {
                1
            }
            &&& k + 1 < ops.len()
            &&& ops[k] is Text && ops[k]->lines.len() == 1 && ops[k]->lines[0].spans == run_summary(
                state,
                d,
            )
            &&& ops[k + 1] is Grid && ops[k + 1]->table == detail_table(state, d)
            &&& titled(
                ops[0],
                "Run "@ + dec(d.run.id as nat) + " — "@ + d.run.display_title@ + " ("@
                    + d.run.head_branch@ + ")"@,
            )
            &&& explains(state, d, area) ==> exists|at: Rect|
                #![trigger digest_ops(state.failure_digest->0, at)]
                ops[1] == digest_ops(state.failure_digest->0, at)[0] && ops[2] == digest_ops(
                    state.failure_digest->0,
                    at,
                )[1]
        }),
{
    let d = state.run_detail->0;
    let inner = framed(area, no_padding());
    let name = "Run "@ + dec(d.run.id as nat) + " — "@ + d.run.display_title@ + " ("@
        + d.run.head_branch@ + ")"@;
    let frame = seq![OpV::Frame { area, border: plain_panel(name) }];
    let pieces = choose|pieces: Seq<Rect>| #[trigger]
        split_into(pieces, true, detail_cut(state, d, inner), inner) && ops == frame
            + detail_parts(state, d, inner, pieces);
    let parts = detail_parts(state, d, inner, pieces);
    let k = if explains(state, d, area) {
        3int
    } else {
        1
    };
    assert(explains(state, d, area) == (digest_height(state, d, inner) > 0));
    assert(ops[k] == parts[k - 1]);
    assert(ops[k + 1] == parts[k]);
    assert(said(ops[0]->border.top[0]) =~= "─┤ "@ + name + " ├"@);
    if explains(state, d, area) {
        let g = digest_ops(state.failure_digest->0, pieces[1]);
        assert(ops[1] == parts[0] && ops[2] == parts[1]);
        assert(ops[1] == g[0] && ops[2] == g[1]);
    }
    k
}

/// A run is summed up in a line: how many jobs it has, how many of them failed or
/// that none did, and how long it took or has taken.
pub proof fn law_the_run_is_summed_up(ops: Seq<OpV>, state: App, area: Rect)
    requires
        is_detail_view(ops, state, area),
        state.run_detail is Some,
    ensures
        ({
            let d = state.run_detail->0;
            let n = d.jobs@.len();
            let failed = d.jobs@.filter(|j: Job| j.status == Status::Failure).len();
            &&& titled(
                ops[0],
                "Run "@ + dec(d.run.id as nat) + " — "@ + d.run.display_title@ + " ("@
                    + d.run.head_branch@ + ")"@,
            )
            &&& writes(
                ops,
                dec(n) + " job"@ + given(n != 1, "s"@) + (if failed == 0 {
                    "  ✓ all passed"@
                } else {
                    "  ✗ "@ + dec(failed) + " failed"@
                }) + "  ⏱ "@ + elapsed_text(run_secs(d.run, state.now)),
            )
        }),
{
    let k = lemma_parts(ops, state, area);
    let d = state.run_detail->0;
    let n = d.jobs@.len();
    let failed = d.jobs@.filter(|j: Job| j.status == Status::Failure).len();
    law_counts_are_how_many(d.jobs@, failed_job(), |j: Job| j.status == Status::Failure);
    lemma_vec_len(d.jobs);
    reveal_strlit("");
    let words = dec(n) + " job"@ + given(n != 1, "s"@) + (if failed == 0 {
        "  ✓ all passed"@
    } else {
        "  ✗ "@ + dec(failed) + " failed"@
    }) + "  ⏱ "@ + elapsed_text(run_secs(d.run, state.now));
    assert(texts(run_summary(state, d)) =~= words);
    lemma_writes(ops, k, 0, words);
}

/// Whether record `k` is the first of the step called `name`.
pub open spec fn first_record(stats: Seq<StepStat>, name: Seq<char>, k: int) -> bool {
    &&& 0 <= k < stats.len() && stats[k].name@ == name
    &&& forall|i: int| 0 <= i < k ==> (#[trigger] stats[i]).name@ != name
}

/// A step that failed lately says how often of how many times; one that did not, or
/// that nothing is known of, says nothing.
pub proof fn law_flaky_steps_are_badged(stats: Seq<StepStat>, name: Seq<char>, k: int)
    ensures
        first_record(stats, name, k) ==> told(badge(stats, name)) == given(
            stats[k].failed > 0,
            "  "@ + dec(stats[k].failed as nat) + "/"@ + dec(stats[k].total as nat) + " fails"@,
        ),
        first_record(stats, name, k) && stats[k].failed > 0 ==> (badge(stats, name).style.fg
            == Some(Paint::Plain(Role::Failure)) <==> stats[k].failed * 2 >= stats[k].total),
        (forall|i: int| 0 <= i < stats.len() ==> (#[trigger] stats[i]).name@ != name) ==> told(
            badge(stats, name),
        ) == Seq::<char>::empty(),
{
    law_the_first_is_found(stats, about(name));
    let n = first_where(stats, about(name)) as int;
    if n < stats.len() {
        assert(stats[n].name@ == name);
    }
    if first_record(stats, name, k) {
        assert(about(name)(stats[k]));
        if n < k {
            assert(stats[n].name@ != name);
        }
        assert(told(badge(stats, name)) =~= given(
            stats[k].failed > 0,
            "  "@ + dec(stats[k].failed as nat) + "/"@ + dec(stats[k].total as nat) + " fails"@,
        ));
    }
    if forall|i: int| 0 <= i < stats.len() ==> (#[trigger] stats[i]).name@ != name {
        assert(told(badge(stats, name)) =~= Seq::<char>::empty());
    }
}

/// Every job and step has its row, in the order of the list, and the cursor's alone
/// is pointed at. A job shows how it stands and its name. A step shows how it
/// stands, its number in the job and its name; once it has begun, how long it took
/// and ten cells of that; and its badge.
#[verifier::rlimit(40)]
pub proof fn law_every_step_has_its_row(ops: Seq<OpV>, state: App, area: Rect)
    requires
        is_detail_view(ops, state, area),
        state.run_detail is Some,
    ensures
        ({
            let d = state.run_detail->0;
            exists|k: int|
                #![trigger ops[k]->table]
                {
                    let t = ops[k]->table;
                    &&& 0 <= k < ops.len() && ops[k] is Grid
                    &&& t.rows.len() == state.detail_items@.len()
                    &&& forall|i: int|
                        #![trigger t.rows[i]]
                        0 <= i < t.rows.len() ==> {
                            let cells = t.rows[i].cells;
                            let here = i == state.detail_cursor;
                            &&& cells.len() == 4
                            &&& t.rows[i].style.bg is Some == here
                            &&& match state.detail_items@[i] {
                                DetailItem::Job(j) => {
                                    let job = d.jobs@[j as int];
                                    told(cells[0]) == (if here {
                                        "▶ "@
                                    } else {
                                        "  "@
                                    }) + state.glyphs.mark(job.status) + " "@ + job.name@
                                },
                                DetailItem::Step { job, step } => {
                                    let s = d.jobs@[job as int].steps@[step as int];
                                    &&& told(cells[0]) == (if here {
                                        "  ▶ "@
                                    } else {
                                        "    "@
                                    }) + state.glyphs.mark(s.status) + (" "@ + align_right(
                                        dec((step + 1) as nat),
                                        2,
                                    ) + ". "@) + s.name@
                                    &&& s.started_at is None ==> cells[1].lines.len() == 0
                                        && cells[2].lines.len() == 0
                                    &&& s.started_at is Some ==> told(cells[1]) == align_right(
                                        step_dur(step_millis(s, state.now)),
                                        6,
                                    )
                                    &&& s.started_at is Some ==> exists|n: int|
                                        0 <= n <= 10 && told(cells[2]) == #[trigger] ten_cells(n)
                                            && n == filled_cells(
                                            s,
                                            measured(d.jobs@[job as int]),
                                            state.now,
                                            state.tick_count,
                                        )
                                    &&& cells[3] == badge(state.step_stats@, s.name@)
                                },
                            }
                        }
                }
        }),
{
    let k = lemma_parts(ops, state, area);
    let d = state.run_detail->0;
    let t = ops[k + 1]->table;
    assert forall|i: int|
        #![trigger t.rows[i]]
        0 <= i < t.rows.len() implies {
        let cells = t.rows[i].cells;
        let here = i == state.detail_cursor;
        &&& cells.len() == 4
        &&& t.rows[i].style.bg is Some == here
        &&& match state.detail_items@[i] {
            DetailItem::Job(j) => {
                let job = d.jobs@[j as int];
                told(cells[0]) == (if here {
                    "▶ "@
                } else {
                    "  "@
                }) + state.glyphs.mark(job.status) + " "@ + job.name@
            },
            DetailItem::Step { job, step } => {
                let s = d.jobs@[job as int].steps@[step as int];
                &&& told(cells[0]) == (if here {
                    "  ▶ "@
                } else {
                    "    "@
                }) + state.glyphs.mark(s.status) + (" "@ + align_right(dec((step + 1) as nat), 2)
                    + ". "@) + s.name@
                &&& s.started_at is None ==> cells[1].lines.len() == 0 && cells[2].lines.len() == 0
                &&& s.started_at is Some ==> told(cells[1]) == align_right(
                    step_dur(step_millis(s, state.now)),
                    6,
                )
                &&& s.started_at is Some ==> exists|n: int|
                    0 <= n <= 10 && told(cells[2]) == #[trigger] ten_cells(n) && n == filled_cells(
                        s,
                        measured(d.jobs@[job as int]),
                        state.now,
                        state.tick_count,
                    )
                &&& cells[3] == badge(state.step_stats@, s.name@)
            },
        }
    } by {
        assert(t.rows[i] == detail_row(state, d, i));
        let cells = t.rows[i].cells;
        let here = i == state.detail_cursor;
        match state.detail_items@[i] {
            DetailItem::Job(j) => {
                let job = d.jobs@[j as int];
                let lead = if here {
                    "▶ "@
                } else {
                    "  "@
                };
                assert(cells == job_cells(state, job, here));
                assert(told(cells[0]) =~= lead + state.glyphs.mark(job.status) + " "@ + job.name@);
            },
            DetailItem::Step { job, step } => {
                let s = d.jobs@[job as int].steps@[step as int];
                let lead = if here {
                    "  ▶ "@
                } else {
                    "    "@
                };
                assert(cells == step_cells(state, d.jobs@[job as int], step as int, here));
                assert(told(cells[0]) =~= lead + state.glyphs.mark(s.status) + (" "@ + align_right(
                    dec((step + 1) as nat),
                    2,
                ) + ". "@) + s.name@);
                if s.started_at is Some {
                    assert(told(cells[1]) =~= align_right(
                        step_dur(step_millis(s, state.now)),
                        6,
                    ));
                    let n = filled_cells(
                        s,
                        measured(d.jobs@[job as int]),
                        state.now,
                        state.tick_count,
                    );
                    assert(0 <= n <= 10);
                    assert(told(cells[2]) =~= ten_cells(n));
                }
            },
        }
    }
    let k2 = k + 1;
    assert(ops[k2]->table == t);
}

/// Ten cells show a share of ten: the full ones first, the empty ones after them.
pub proof fn law_full_cells_come_first(n: int, i: int)
    requires
        0 <= n <= 10,
        0 <= i < 10,
    ensures
        ten_cells(n).len() == 10,
        ten_cells(n)[i] == if i < n {
            '■'
        } else {
            '□'
        },
{
}

/// The cells of a step that is over show its share of the longest, and at least one
/// if it took any time; one that is still going sweeps; and where no step of the job
/// took any time there is nothing to show.
pub proof fn law_cells_show_the_share(s: Step, job: Job, state: App)
    requires
        s.started_at is Some,
        s.tenths <= 10,
    ensures
        ({
            let n = filled_cells(s, measured(job), state.now, state.tick_count);
            let any = exists|i: int|
                0 <= i < job.steps@.len() && timed()(#[trigger] job.steps@[i]);
            let going = s.completed_at is None && s.status == Status::Running;
            &&& measured(job) == any
            &&& going ==> n == (state.tick_count / 3) % 11
            &&& !going && !any ==> n == 0
            &&& !going && any && step_millis(s, state.now) > 0 ==> n == if s.tenths == 0 {
                1
            } else {
                s.tenths as int
            }
            &&& !going && any && step_millis(s, state.now) <= 0 ==> n == s.tenths
        }),
{
    law_the_first_is_found(job.steps@, timed());
    let n = first_where(job.steps@, timed()) as int;
    if n < job.steps@.len() {
        assert(timed()(job.steps@[n]));
    }
}

/// Why a run failed is shown above its steps, line by line, with what is in error
/// lit, under the step that it happened in or its job.
#[verifier::rlimit(40)]
pub proof fn law_failures_are_explained(ops: Seq<OpV>, state: App, area: Rect)
    requires
        is_detail_view(ops, state, area),
        state.run_detail is Some,
        explains(state, state.run_detail->0, area),
    ensures
        ({
            let g = state.failure_digest->0;
            &&& ops.len() > 4 && ops[1] is Frame && ops[2] is Text
            &&& said(ops[1]->border.top[0]) == " why it failed — "@ + cut(
                if g.step_name is Some {
                    g.step_name->0@
                } else {
                    g.job_name@
                },
                48,
            ) + " "@
            &&& ops[2]->lines.len() == g.lines@.len()
            &&& forall|i: int|
                #![trigger ops[2]->lines[i]]
                0 <= i < g.lines@.len() ==> {
                    &&& said(ops[2]->lines[i]) == g.lines@[i]@
                    &&& ops[2]->lines[i].spans[0].style.fg == Some(Paint::Plain(Role::Failure))
                        <==> g.error_rows@.contains(i as usize)
                }
        }),
{
    let k = lemma_parts(ops, state, area);
    let g = state.failure_digest->0;
    let at = choose|at: Rect|
        #![trigger digest_ops(state.failure_digest->0, at)]
        ops[1] == digest_ops(state.failure_digest->0, at)[0] && ops[2] == digest_ops(
            state.failure_digest->0,
            at,
        )[1];
    let name = if g.step_name is Some {
        g.step_name->0@
    } else {
        g.job_name@
    };
    assert(said(ops[1]->border.top[0]) =~= " why it failed — "@ + cut(name, 48) + " "@);
    assert forall|i: int|
        #![trigger ops[2]->lines[i]]
        0 <= i < g.lines@.len() implies {
        &&& said(ops[2]->lines[i]) == g.lines@[i]@
        &&& ops[2]->lines[i].spans[0].style.fg == Some(Paint::Plain(Role::Failure))
            <==> g.error_rows@.contains(i as usize)
    } by {
        assert(ops[2]->lines[i] == digest_line(g, i));
        assert(said(ops[2]->lines[i]) =~= g.lines@[i]@);
    }
}

/// The digest of another run, or of a run that did not fail, is not shown.
pub proof fn law_no_other_failure_is_explained(ops: Seq<OpV>, state: App, area: Rect)
    requires
        is_detail_view(ops, state, area),
        state.run_detail is Some,
        !explains(state, state.run_detail->0, area),
    ensures
        ops.len() > 2 && ops[1] is Text && ops[2] is Grid,
{
    let k = lemma_parts(ops, state, area);
}

} // verus!
