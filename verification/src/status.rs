//! How each status looks, and how the watched repos stand.

use vstd::prelude::*;

use crate::list::{count_if, count_of};
use crate::paint::{fg, Role, Style};
use crate::state::{App, RepoCard, Run, Status};

verus! {

/// The colour of a status.
#[verifier::allow_in_spec]
pub fn tint_of(s: Status) -> Role
    returns
        (match s {
            Status::Success => Role::Success,
            Status::Failure => Role::Failure,
            Status::Running => Role::Warning,
            Status::Queued => Role::Info,
            Status::Cancelled | Status::Skipped | Status::Unknown => Role::Unknown,
        }),
{
    match s {
        Status::Success => Role::Success,
        Status::Failure => Role::Failure,
        Status::Running => Role::Warning,
        Status::Queued => Role::Info,
        Status::Cancelled | Status::Skipped | Status::Unknown => Role::Unknown,
    }
}

/// The style of a status: its colour, bold while it still says something.
#[verifier::allow_in_spec]
pub fn style_for_status(s: Status) -> Style
    returns
        (match s {
            Status::Success | Status::Failure | Status::Running | Status::Queued => fg(
                tint_of(s),
            ).bold(),
            Status::Cancelled | Status::Skipped | Status::Unknown => fg(tint_of(s)),
        }),
{
    match s {
        Status::Success | Status::Failure | Status::Running | Status::Queued => fg(
            tint_of(s),
        ).bold(),
        Status::Cancelled | Status::Skipped | Status::Unknown => fg(tint_of(s)),
    }
}

/// The ground of a row whose run has this status.
#[verifier::allow_in_spec]
pub fn row_bg_for_status(s: Status) -> Role
    returns
        (match s {
            Status::Failure => Role::RowFailure,
            Status::Running => Role::RowRunning,
            Status::Queued => Role::RowQueued,
            Status::Cancelled | Status::Skipped => Role::RowIdle,
            Status::Success | Status::Unknown => Role::Surface,
        }),
{
    match s {
        Status::Failure => Role::RowFailure,
        Status::Running => Role::RowRunning,
        Status::Queued => Role::RowQueued,
        Status::Cancelled | Status::Skipped => Role::RowIdle,
        Status::Success | Status::Unknown => Role::Surface,
    }
}

/// How the watched repos stand: the four numbers the header carries.
#[derive(Clone, Copy, PartialEq, Eq, Debug, Structural)]
pub struct Tallies {
    pub ok: u32,
    pub fail: u32,
    pub busy: u32,
    /// Rows that could not be fetched at all.
    pub broken: u32,
}

/// Repos whose latest run passed.
pub open spec fn passing() -> spec_fn(RepoCard) -> bool {
    |c: RepoCard| c.error is None && c.latest() == Some(Status::Success)
}

/// Repos whose latest run failed.
pub open spec fn failing() -> spec_fn(RepoCard) -> bool {
    |c: RepoCard| c.error is None && c.latest() == Some(Status::Failure)
}

/// Repos whose latest run is going, or about to.
pub open spec fn busy() -> spec_fn(RepoCard) -> bool {
    |c: RepoCard|
        c.error is None && (c.latest() == Some(Status::Running) || c.latest() == Some(
            Status::Queued,
        ))
}

/// Repos that could not be fetched.
pub open spec fn broken() -> spec_fn(RepoCard) -> bool {
    |c: RepoCard| c.error is Some
}

fn is_passing(c: &RepoCard) -> (r: bool)
    ensures
        r == passing()(*c),
{
    c.error.is_none() && stands(c.latest_status(), Status::Success)
}

fn is_failing(c: &RepoCard) -> (r: bool)
    ensures
        r == failing()(*c),
{
    c.error.is_none() && stands(c.latest_status(), Status::Failure)
}

fn is_busy(c: &RepoCard) -> (r: bool)
    ensures
        r == busy()(*c),
{
    c.error.is_none() && (stands(c.latest_status(), Status::Running) || stands(
        c.latest_status(),
        Status::Queued,
    ))
}

fn is_broken(c: &RepoCard) -> (r: bool)
    ensures
        r == broken()(*c),
{
    c.error.is_some()
}

/// How the watched repos stand.
pub open spec fn tallies(repos: Seq<RepoCard>) -> Tallies {
    Tallies {
        ok: count_if(repos, passing()) as u32,
        fail: count_if(repos, failing()) as u32,
        busy: count_if(repos, busy()) as u32,
        broken: count_if(repos, broken()) as u32,
    }
}

impl Tallies {
    /// How the watched repos stand.
    pub fn of(state: &App) -> (t: Tallies)
        requires
            state.repos@.len() <= u32::MAX,
        ensures
            t == tallies(state.repos@),
    {
        let ok: usize = count_of(&state.repos, is_passing, Ghost(passing()));
        let fail: usize = count_of(&state.repos, is_failing, Ghost(failing()));
        let going: usize = count_of(&state.repos, is_busy, Ghost(busy()));
        let lost: usize = count_of(&state.repos, is_broken, Ghost(broken()));
        Tallies { ok: ok as u32, fail: fail as u32, busy: going as u32, broken: lost as u32 }
    }
}

/// Whether an optional status is this one.
pub fn stands(s: Option<Status>, t: Status) -> (r: bool)
    ensures
        r == (s == Some(t)),
{
    match s {
        Some(x) => x == t,
        None => false,
    }
}

/// No repo is counted twice: the four numbers never add up to more than there
/// are repos.
pub proof fn law_tallies_do_not_overlap(repos: Seq<RepoCard>)
    requires
        repos.len() <= u32::MAX,
    ensures
        tallies(repos).ok + tallies(repos).fail + tallies(repos).busy + tallies(repos).broken
            <= repos.len(),
{
    lemma_disjoint(repos);
}

proof fn lemma_disjoint(repos: Seq<RepoCard>)
    ensures
        count_if(repos, passing()) + count_if(repos, failing()) + count_if(repos, busy())
            + count_if(repos, broken()) <= repos.len(),
    decreases repos.len(),
{
    if repos.len() > 0 {
        lemma_disjoint(repos.drop_last());
    }
}

/// Runs that ended or are going in this state.
pub open spec fn runs_in(s: Status) -> spec_fn(Run) -> bool {
    |r: Run| r.status == s
}

/// How many runs are in this state.
pub fn count_runs(runs: &Vec<Run>, s: Status) -> (n: usize)
    ensures
        n as nat == count_if(runs@, runs_in(s)),
        n <= runs@.len(),
{
    count_of(
        runs,
        (|r: &Run| -> (b: bool)
            ensures
                b == (r.status == s),
        {
            r.status == s
        }),
        Ghost(runs_in(s)),
    )
}

} // verus!
