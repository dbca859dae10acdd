//! What the colours mean.

use vstd::prelude::*;

use crate::bars::{bar_role, fade_tenths};
use crate::batch::{batch_role, item_line};
use crate::changes::{file_row, op_role, tree_summary};
use crate::clock::run_secs;
use crate::dashboard::staged;
use crate::detail::{job_cells, step_cells};
use crate::footer::message_role;
use crate::live::live_step;
use crate::meaning::reading::law_counts_are_how_many;
use crate::paint::{Paint, Role};
use crate::runs::run_row;
use crate::services::verdict;
use crate::state::{App, Batch, BatchPhase, GitOp, GitView, Job, Run, ServiceState, Status, StatusKind, TreeEntry};
use crate::status::{row_bg_for_status, style_for_status, tint_of};
use crate::strip::{strip_cells, strip_row, LayoutV};
use crate::watch::step_styles;
use crate::workflows::block_role;

verus! {

/// Whether `r` is green, red and amber exactly for what went well, what went wrong
/// and what is going.
pub open spec fn tells_status(r: Role, s: Status) -> bool {
    &&& r == Role::Success <==> s == Status::Success
    &&& r == Role::Failure <==> s == Status::Failure
    &&& r == Role::Warning <==> s == Status::Running
}

/// A colour means the same wherever a status is shown: green passed, red failed,
/// amber is running, and nothing else wears them. In a history what waits to run is
/// amber too.
pub proof fn law_colours_tell_the_status(s: Status)
    ensures
        tells_status(tint_of(s), s),
        tells_status(block_role(s), s),
        bar_role(s) == Role::Success <==> s == Status::Success,
        bar_role(s) == Role::Failure <==> s == Status::Failure,
        bar_role(s) == Role::Warning <==> s == Status::Running || s == Status::Queued,
        style_for_status(s).fg == Some(Paint::Plain(tint_of(s))),
        row_bg_for_status(s) == Role::RowFailure <==> s == Status::Failure,
        row_bg_for_status(s) == Role::RowRunning <==> s == Status::Running,
        row_bg_for_status(s) == Role::RowQueued <==> s == Status::Queued,
        step_styles(s).0.fg == Some(Paint::Plain(Role::Success)) <==> s == Status::Success,
        step_styles(s).0.fg == Some(Paint::Plain(Role::Failure)) <==> s == Status::Failure,
        step_styles(s).0.fg == Some(Paint::Plain(Role::Warning)) <==> s == Status::Running,
{
}

/// What is still going never fades with age, and a failure fades less than what
/// passed.
pub proof fn law_failures_fade_least(s: Status)
    ensures
        s == Status::Running || s == Status::Queued <==> fade_tenths(s) == 0,
        fade_tenths(Status::Failure) < fade_tenths(Status::Success),
{
}

/// A command is amber while it goes, red when it failed and green when it did not.
pub proof fn law_commands_wear_how_they_stand(op: GitOp)
    ensures
        op_role(&op) == Role::Warning <==> !op.finished,
        op_role(&op) == Role::Failure <==> op.finished && op.failed,
        op_role(&op) == Role::Success <==> op.finished && !op.failed,
{
}

/// A batch is red while it waits on a failure and when it ended with one, and green
/// only when it ended without.
pub proof fn law_batches_wear_how_they_stand(b: Batch)
    ensures
        batch_role(&b) == Role::Failure <==> b.phase == BatchPhase::Paused || (b.phase
            == BatchPhase::Done && b.tally.failed > 0),
        batch_role(&b) == Role::Success <==> b.phase == BatchPhase::Done && b.tally.failed == 0,
{
}

/// A message is red when it is an error and green when it is a success.
pub proof fn law_messages_wear_their_kind(k: StatusKind)
    ensures
        message_role(k) == Role::Failure <==> k == StatusKind::Error,
        message_role(k) == Role::Success <==> k == StatusKind::Success,
{
}

/// A service is green exactly when it is up and red exactly when it is down, and is
/// said to be what it is.
pub proof fn law_services_wear_their_state(s: ServiceState)
    ensures
        verdict(s).1 == Role::Success <==> s == ServiceState::Up,
        verdict(s).1 == Role::Failure <==> s == ServiceState::Down,
        verdict(s).2@ == (match s {
            ServiceState::Up => "up"@,
            ServiceState::Down => "down"@,
            ServiceState::Pending => "pending"@,
            ServiceState::Maintenance => "maintenance"@,
        }),
{
}

/// What is lit in a list is what stands out of it: a staged file, the row under the
/// cursor, the repo being worked on, the step that is running, a run that took more
/// than a quarter of an hour; and a repo named right above is not named again as loud.
#[verifier::rlimit(40)]
pub proof fn law_what_stands_out_is_lit(
    state: App,
    e: TreeEntry,
    job: Job,
    si: int,
    b: Batch,
    i: int,
    width: u16,
    r: Run,
    selected: bool,
)
    requires
        0 <= si < job.steps@.len(),
        0 <= i < b.items@.len(),
    ensures
        file_row(e).cells[0].lines[0].spans[0].style.fg == Some(Paint::Plain(Role::Success))
            <==> e.staged,
        file_row(e).cells[3].lines[0].spans[0].style.fg == Some(Paint::Plain(Role::TextBright))
            <==> e.staged,
        step_cells(state, job, si, selected)[0].lines[0].spans[3].style.bold <==> selected,
        job_cells(state, job, selected)[0].lines[0].spans[3].style.fg == Some(
            Paint::Plain(Role::Primary),
        ) <==> selected,
        item_line(state, b, i, width).spans[1].style.bold <==> (b.items@[i].state is Running
            && b.working) || (b.phase == BatchPhase::Paused && i == b.cursor),
        live_step(job.steps@[si], state.glyphs, state.now).spans[2].style.fg == Some(
            Paint::Plain(Role::TextBright),
        ) <==> job.steps@[si].status == Status::Running,
        run_row(state, r).cells[3].lines[0].spans[0].style.fg == Some(Paint::Plain(Role::Accent))
            <==> run_secs(r, state.now) > 15 * 60,
{
}

/// In the strip a repo is bold on the first of its rows, and quiet on those right
/// under it.
pub proof fn law_a_repo_is_loud_once(state: App, i: int, l: LayoutV)
    ensures
        strip_cells(state, strip_row(state, i), l)[1].lines[0].spans[0].style.bold <==> !(i > 0
            && state.repos@[state.active@[i - 1].repo as int].spec@
            == state.repos@[state.active@[i].repo as int].spec@),
{
}

/// A number in the summary of a tree is loud only when something is staged.
pub proof fn law_staged_work_is_loud(state: App, gv: GitView)
    requires
        gv.status is Some,
        gv.status->0.entries@.len() > 0,
    ensures
        tree_summary(state, gv)[0].style.bold <==> gv.status->0.entries@.filter(
            |e: TreeEntry| e.staged,
        ).len() > 0,
{
    law_counts_are_how_many(gv.status->0.entries@, staged(), |e: TreeEntry| e.staged);
}

} // verus!
