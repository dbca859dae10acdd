//! What the header says.

use vstd::prelude::*;
use vstd::string::*;

use crate::clock::{after, clock_text, compact_text, countdown_text, eta, secs_between, secs_since, typical, HourMin};
use crate::columns::cut;
use crate::dashboard::{down, staged, unstaged};
use crate::geometry::Rect;
use crate::header::{all_agree, beating_heart, bell_spans, budget_spans, corner, crumbs, dirty_spans, face, fault_text, four_wide, happening, header_ops, heart_spans, inflight, left_end, place, poll_text, progress_wide, push_banner, right_end, run_banner, running_op, shared_fault, tally_spans, ticks_left, time_spans, turn, uncommitted, counted, quota_paint, Meter, Surroundings};
use crate::list::{count_if, first_where};
use crate::meaning::clock::whole_units;
use crate::meaning::reading::{given, group_texts, law_counts_are_how_many, law_the_first_is_found, lemma_any, least, said, sum_of};
use crate::ops::{all_columns, columns_of, OpV};
use crate::paint::{Align, Paint, Role, SpanV, Weight};
use crate::paths::{maybe, shortened};
use crate::state::{ApiError, App, Fault, OpEntry, RepoCard, Screen, Service, ServiceState, Status, TreeEntry};
use crate::status::{broken, busy, failing, passing, tallies};
use crate::text::{after_last, align_right, dec};
use crate::wrap::texts;

verus! {

broadcast use {vstd::string::group_string_axioms, group_texts};

// ── The left end ───────────────────────────────────────────────────────────

/// The place a screen is about: the directory being looked through on the screens
/// of many repos, where there is one; the repo entered and its branch otherwise.
pub open spec fn place_says(state: App, home: Option<Seq<char>>) -> Seq<char> {
    let many = state.view is Repos || state.view is GitStatus || state.view is GitDiff;
    if many && state.workspace_root is Some {
        shortened(state.workspace_root->0@, home, state.windows)
    } else {
        state.repo_label@ + "  ⎇ "@ + state.current_branch@
    }
}

/// A text that may be missing, a question mark where it is.
pub open spec fn or_ask(o: Option<String>) -> Seq<char> {
    if o is Some {
        o->0@
    } else {
        "?"@
    }
}

/// The way to the screen you are on, from where you started.
pub open spec fn way(state: App) -> Seq<Seq<char>> {
    match state.view {
        Screen::Repos => Seq::empty(),
        Screen::GitStatus => seq!["Repos"@].push(
            if state.git_view is Some {
                state.git_view->0.spec@
            } else {
                "?"@
            },
        ).push("Changes"@),
        Screen::GitDiff => seq!["Repos"@].push(
            if state.git_diff is Some {
                state.git_diff->0.spec@
            } else {
                "?"@
            },
        ).push("Changes"@).push(
            if state.git_diff is None {
                "?"@
            } else if state.git_diff->0.current_file is Some {
                state.git_diff->0.current_file->0@
            } else {
                state.git_diff->0.file@
            },
        ),
        Screen::Workflows => seq!["Workflows"@],
        Screen::Runs => seq!["Workflows"@].push(or_ask(state.workflow_for_runs)),
        Screen::RunDetail => seq!["Workflows"@].push(or_ask(state.workflow_for_runs)).push(
            if state.run_detail is Some {
                "#"@ + dec(state.run_detail->0.run.id as nat)
            } else if state.run_cursor < state.runs@.len() {
                "#"@ + dec(state.runs@[state.run_cursor as int].id as nat)
            } else {
                "?"@
            },
        ),
        Screen::Logs => seq!["Logs"@].push(
            if state.log.step is Some && state.log.step->0 < state.log.step_names@.len() {
                state.log.step_names@[state.log.step->0 as int]@
            } else if state.log.section is Some && state.log.section->0
                < state.log.sections@.len() {
                state.log.sections@[state.log.section->0 as int]@
            } else {
                "all steps"@
            },
        ),
        Screen::BatchCommit => seq!["Repos"@].push(
            "Batch commit ("@ + dec(
                if state.batch is Some {
                    state.batch->0.items@.len()
                } else {
                    0
                },
            ) + ")"@,
        ),
        Screen::Watch => seq!["Watch"@],
        Screen::Diff => seq!["Diff"@],
        Screen::TriggerPrompt => seq!["Trigger"@],
    }
}

/// Texts one after another, an arrow between them.
pub open spec fn with_arrows(v: Seq<Seq<char>>) -> Seq<char>
    decreases v.len(),
{
    if v.len() == 0 {
        Seq::empty()
    } else if v.len() == 1 {
        v[0]
    } else {
        with_arrows(v.drop_last()) + "  ›  "@ + v.last()
    }
}

#[verifier::rlimit(40)]
proof fn lemma_arrows(state: App)
    ensures
        texts(crumbs(state)) == with_arrows(way(state)),
        crumbs(state).len() > 0 <==> way(state).len() > 0,
{
    let w = way(state);
    reveal_with_fuel(with_arrows, 5);
    if w.len() >= 2 {
        assert(w.drop_last().last() == w[w.len() - 2]);
    }
    assert(texts(crumbs(state)) =~= with_arrows(w));
}

/// The left end names the program and its version, the place, the way to the
/// screen where there is one, and how many repos the dashboard has.
#[verifier::rlimit(40)]
pub proof fn law_the_left_end_says_where_you_are(
    state: App,
    m: Meter,
    at: Surroundings,
    area: Rect,
)
    ensures
        ({
            let ops = header_ops(state, m, at, area);
            &&& ops.len() > 0 && ops[0] is Text && ops[0]->lines.len() == 1
            &&& said(ops[0]->lines[0]) == " ⚡ "@ + "jog"@ + " "@ + state.version@ + "  ·  "@
                + place_says(state, maybe(at.home)) + given(
                way(state).len() > 0,
                "  ·  "@ + with_arrows(way(state)),
            ) + given(
                state.view is Repos && state.repos@.len() > 0,
                "  ·  "@ + dec(state.repos@.len()) + " repos"@,
            )
        }),
{
    reveal(header_ops);
    lemma_arrows(state);
    let home = maybe(at.home);
    assert(texts(place(state, home)) =~= place_says(state, home));
    assert(texts(left_end(state, home)) =~= " ⚡ "@ + "jog"@ + " "@ + state.version@ + "  ·  "@
        + place_says(state, home) + given(
        way(state).len() > 0,
        "  ·  "@ + with_arrows(way(state)),
    ) + given(
        state.view is Repos && state.repos@.len() > 0,
        "  ·  "@ + dec(state.repos@.len()) + " repos"@,
    ));
}

// ── The right end ──────────────────────────────────────────────────────────

/// How many repos were fetched and have this status on their newest run.
pub open spec fn newest_in(repos: Seq<RepoCard>, s: Status) -> nat {
    repos.filter(
        |c: RepoCard| c.error is None && c.runs@.len() > 0 && c.runs@[0].status == s,
    ).len()
}

/// The tallies count the repos by their newest run, and those that could not be
/// fetched apart: what passed, what failed, what is going or about to.
pub proof fn law_tallies_count_newest_runs(repos: Seq<RepoCard>)
    requires
        repos.len() <= u32::MAX,
    ensures
        tallies(repos).ok == newest_in(repos, Status::Success),
        tallies(repos).fail == newest_in(repos, Status::Failure),
        tallies(repos).busy == repos.filter(
            |c: RepoCard|
                c.error is None && c.runs@.len() > 0 && (c.runs@[0].status == Status::Running
                    || c.runs@[0].status == Status::Queued),
        ).len(),
        tallies(repos).broken == repos.filter(|c: RepoCard| c.error is Some).len(),
{
    law_counts_are_how_many(
        repos,
        passing(),
        |c: RepoCard| c.error is None && c.runs@.len() > 0 && c.runs@[0].status == Status::Success,
    );
    assert(newest_in(repos, Status::Success) == repos.filter(
        |c: RepoCard| c.error is None && c.runs@.len() > 0 && c.runs@[0].status == Status::Success,
    ).len()) by {
        law_counts_are_how_many(
            repos,
            passing(),
            |c: RepoCard|
                c.error is None && c.runs@.len() > 0 && c.runs@[0].status == Status::Success,
        );
        let s = Status::Success;
        law_counts_are_how_many(
            repos,
            passing(),
            |c: RepoCard| c.error is None && c.runs@.len() > 0 && c.runs@[0].status == s,
        );
    }
    let f = Status::Failure;
    law_counts_are_how_many(
        repos,
        failing(),
        |c: RepoCard| c.error is None && c.runs@.len() > 0 && c.runs@[0].status == f,
    );
    law_counts_are_how_many(
        repos,
        busy(),
        |c: RepoCard|
            c.error is None && c.runs@.len() > 0 && (c.runs@[0].status == Status::Running
                || c.runs@[0].status == Status::Queued),
    );
    law_counts_are_how_many(repos, broken(), |c: RepoCard| c.error is Some);
    lemma_few(repos, passing());
    lemma_few(repos, failing());
    lemma_few(repos, busy());
    lemma_few(repos, broken());
}

proof fn lemma_few(repos: Seq<RepoCard>, p: spec_fn(RepoCard) -> bool)
    ensures
        count_if(repos, p) <= repos.len(),
{
    crate::list::lemma_count(repos, p);
}

/// What is said of the services: how many there are, or how many of them are
/// left when any is down; nothing when there are none.
pub open spec fn heart_says(state: App) -> Seq<char> {
    let total = state.services@.len();
    let fallen = state.services@.filter(|s: Service| s.state == ServiceState::Down).len();
    if total == 0 {
        Seq::empty()
    } else if fallen == 0 {
        "♥"@ + dec(total) + "   "@
    } else {
        "♥"@ + dec((total - fallen) as nat) + "/"@ + dec(total) + "   "@
    }
}

/// What is said of CI: how many repos passed and how many failed, how many are
/// going where any is, and how many could not be fetched where any could not.
pub open spec fn tallies_say(state: App) -> Seq<char> {
    let t = tallies(state.repos@);
    heart_says(state) + given(
        state.repos@.len() > 0,
        "✓"@ + dec(t.ok as nat) + ("  ✗"@ + dec(t.fail as nat)) + given(
            t.busy > 0,
            "  ⏵"@ + dec(t.busy as nat),
        ) + given(t.broken > 0, "  !"@ + dec(t.broken as nat)) + "   "@,
    )
}

/// How many changes are not committed: what is staged and what is not, of every
/// checkout.
pub open spec fn loose_changes(repos: Seq<RepoCard>) -> nat {
    sum_of(
        repos.len() as int,
        |i: int|
            if repos[i].git is Some {
                repos[i].git->0.entries@.filter(|e: TreeEntry| e.staged).len()
                    + repos[i].git->0.entries@.filter(|e: TreeEntry| e.unstaged).len()
            } else {
                0
            },
    )
}

/// What is said of the changes: how many there are, nothing when there are none.
pub open spec fn loose_says(state: App) -> Seq<char> {
    given(
        loose_changes(state.repos@) > 0,
        "◆"@ + dec(loose_changes(state.repos@)) + " uncommitted   "@,
    )
}

/// What is said of notifications: that they are muted and for how many minutes
/// more, rounded up; that they are on; nothing when there are never any.
pub open spec fn bell_says(state: App) -> Seq<char> {
    if !state.notify_enabled {
        Seq::empty()
    } else if state.snooze_until is Some && after(state.snooze_until->0, state.now) {
        (if state.bell_off_icon@.len() == 0 {
            "muted"@
        } else {
            state.bell_off_icon@
        }) + " "@ + dec(
            ((secs_between(state.now, state.snooze_until->0) + 59) / 60) as nat,
        ) + "m   "@
    } else {
        given(state.bell_icon@.len() > 0, state.bell_icon@ + "   "@)
    }
}

/// What is said of the API budget: the share of it spent, and until when to stay
/// away once that is critical.
pub open spec fn budget_says(state: App, reset: HourMin) -> Seq<char> {
    if state.quota is None {
        Seq::empty()
    } else {
        "API "@ + dec(state.quota->0.percent as nat) + "%"@ + given(
            state.quota->0.critical,
            " · till "@ + clock_text(reset),
        ) + "   "@
    }
}

proof fn lemma_loose(repos: Seq<RepoCard>, n: int)
    requires
        0 <= n <= repos.len(),
    ensures
        uncommitted(repos, n) == sum_of(
            n,
            |i: int|
                if repos[i].git is Some {
                    repos[i].git->0.entries@.filter(|e: TreeEntry| e.staged).len()
                        + repos[i].git->0.entries@.filter(|e: TreeEntry| e.unstaged).len()
                } else {
                    0
                },
        ),
    decreases n,
{
    if n > 0 {
        lemma_loose(repos, n - 1);
        if repos[n - 1].git is Some {
            let v = repos[n - 1].git->0.entries@;
            law_counts_are_how_many(v, staged(), |e: TreeEntry| e.staged);
            law_counts_are_how_many(v, unstaged(), |e: TreeEntry| e.unstaged);
        }
    }
}

/// The parts of the right end say how the services, CI, the checkouts, the
/// notifications and the budget stand.
#[verifier::rlimit(40)]
pub proof fn law_the_right_end_sums_up(state: App, reset: HourMin)
    ensures
        texts(tally_spans(state)) == tallies_say(state),
        texts(dirty_spans(state)) == loose_says(state),
        texts(bell_spans(state)) == bell_says(state),
        texts(budget_spans(state, reset)) == budget_says(state, reset),
{
    let n = state.services@.len();
    law_counts_are_how_many(
        state.services@,
        down(),
        |s: Service| s.state == ServiceState::Down,
    );
    reveal_strlit("");
    assert(texts(heart_spans(state)) =~= heart_says(state));
    assert(texts(tally_spans(state)) =~= tallies_say(state));
    lemma_loose(state.repos@, state.repos@.len() as int);
    assert(uncommitted(state.repos@, state.repos@.len() as int) == loose_changes(state.repos@));
    assert(texts(dirty_spans(state)) =~= loose_says(state));
    assert(texts(bell_spans(state)) =~= bell_says(state));
    assert(texts(budget_spans(state, reset)) =~= budget_says(state, reset));
}

/// Whether the two ends leave each other two columns.
pub open spec fn clear(left: Seq<SpanV>, right: Seq<SpanV>, width: u16) -> bool {
    columns_of(left) + columns_of(right) + 2 <= width
}

/// The right end gives up its least weighty part first: what is uncommitted, then
/// the tallies, then the budget and the poll clock, then the bell. The time of
/// day is the last to go, and stands at the edge as long as anything does.
#[verifier::rlimit(40)]
pub proof fn law_the_right_end_gives_way_in_order(
    state: App,
    m: Meter,
    at: Surroundings,
    left: Seq<SpanV>,
    width: u16,
)
    ensures
        ({
            let right = right_end(state, m, at, left, width);
            let words = texts(right);
            let time = clock_text(at.clock) + " "@;
            let tail = bell_says(state) + budget_says(state, at.reset) + poll_text(state, m)
                + "   "@ + time;
            let whole = tally_spans(state) + dirty_spans(state) + corner(state, m, at);
            let tallied = tally_spans(state) + corner(state, m, at);
            let short = bell_spans(state) + time_spans(at);
            &&& clear(left, whole, width) ==> words == tallies_say(state) + loose_says(state) + tail
            &&& !clear(left, whole, width) && clear(left, tallied, width) ==> words == tallies_say(
                state,
            ) + tail
            &&& !clear(left, whole, width) && !clear(left, tallied, width) && clear(
                left,
                corner(state, m, at),
                width,
            ) ==> words == tail
            &&& clear(left, time_spans(at), width) ==> words.len() >= time.len() && words.skip(
                words.len() - time.len(),
            ) == time
            &&& texts(corner(state, m, at)) == tail
            &&& texts(short) == bell_says(state) + time
        }),
{
    law_the_right_end_sums_up(state, at.reset);
    let right = right_end(state, m, at, left, width);
    let words = texts(right);
    let time = clock_text(at.clock) + " "@;
    let tail = bell_says(state) + budget_says(state, at.reset) + poll_text(state, m) + "   "@
        + time;
    assert(texts(time_spans(at)) =~= time);
    assert(texts(corner(state, m, at)) =~= tail);
    let whole = tally_spans(state) + dirty_spans(state) + corner(state, m, at);
    let tallied = tally_spans(state) + corner(state, m, at);
    let short = bell_spans(state) + time_spans(at);
    assert(texts(whole) =~= tallies_say(state) + loose_says(state) + tail);
    assert(texts(tallied) =~= tallies_say(state) + tail);
    assert(texts(short) =~= bell_says(state) + time);
    if clear(left, time_spans(at), width) {
        let front = words.take(words.len() - time.len());
        assert(words.skip(words.len() - time.len()) =~= time);
    }
}

/// The header is drawn in its parts: the left end, what is happening where the
/// two ends leave room for it, and the right end against the right edge.
pub proof fn law_the_header_has_three_parts(state: App, m: Meter, at: Surroundings, area: Rect)
    ensures
        ({
            let ops = header_ops(state, m, at, area);
            let left = left_end(state, maybe(at.home));
            let right = right_end(state, m, at, left, area.width);
            let mid = happening(state, at.reset);
            let room = area.width - columns_of(left) - columns_of(right) - 6;
            let n: int = if columns_of(mid) > 0 && room >= columns_of(mid) {
                2
            } else {
                1
            };
            &&& ops.len() > n
            &&& ops[0]->lines[0].spans == left
            &&& n == 2 ==> ops[1] is Text && ops[1]->lines.len() == 1 && ops[1]->lines[0].spans
                == mid
            &&& ops[n] is Text && ops[n]->lines.len() == 1 && ops[n]->lines[0].spans == right
                && ops[n]->lines[0].align == Align::Right && ops[n]->Text_area == area
        }),
{
    reveal(header_ops);
    let left = left_end(state, maybe(at.home));
    lemma_columns(left);
    lemma_columns(right_end(state, m, at, left, area.width));
}

proof fn lemma_columns(v: Seq<SpanV>)
    ensures
        all_columns(v) >= 0,
        columns_of(v) >= 0,
    decreases v.len(),
{
    if v.len() > 0 {
        lemma_columns(v.drop_last());
    }
}

// ── The poll clock ─────────────────────────────────────────────────────────

/// How many fetches are in flight: what is pending, without the commands that are
/// still running.
pub open spec fn flying(state: App) -> int {
    let parked = state.git_ops@.filter(|e: OpEntry| !e.op.finished).len() as int;
    if state.pending > parked {
        state.pending - parked
    } else {
        0
    }
}

/// How many ticks are left of the wait for the next poll.
pub open spec fn wait_left(state: App) -> int {
    let gone = if state.tick_count > state.last_poll_tick {
        state.tick_count - state.last_poll_tick
    } else {
        0
    };
    if state.poll_ticks > gone {
        state.poll_ticks - gone
    } else {
        0
    }
}

/// A time in the poll clock takes four characters: whole seconds while they are
/// fewer than a thousand, then whole minutes, hours and days likewise.
pub proof fn law_the_poll_clock_tells_whole_units(secs: nat) -> (n: nat)
    ensures
        secs < 1000 ==> four_wide(secs) == align_right(dec(secs), 3) + "s"@,
        1000 <= secs < 60_000 ==> four_wide(secs) == align_right(dec(n), 3) + "m"@ && whole_units(
            secs as int,
            60,
            n as int,
        ),
        60_000 <= secs < 3_600_000 ==> four_wide(secs) == align_right(dec(n), 3) + "h"@
            && whole_units(secs as int, 3600, n as int),
        3_600_000 <= secs < 86_400_000 ==> four_wide(secs) == align_right(dec(n), 3) + "d"@
            && whole_units(secs as int, 86400, n as int),
        86_400_000 <= secs ==> four_wide(secs) == "long"@,
{
    if secs < 60_000 {
        secs / 60
    } else if secs < 3_600_000 {
        secs / 3600
    } else {
        secs / 86400
    }
}

/// The poll clock counts the wait down, in seconds rounded up, while nothing is
/// being fetched and for the first seconds of a fetch. A fetch that drags on says
/// how many of its requests are back, or how long its one has taken.
pub proof fn law_the_poll_clock_counts_down(state: App, m: Meter)
    ensures
        ({
            let wait = four_wide(((wait_left(state) + 9) / 10) as nat);
            let most = if m.most > flying(state) {
                m.most as int
            } else {
                flying(state)
            };
            let ticks = if m.most == 0 || state.tick_count < m.started {
                0
            } else {
                state.tick_count - m.started
            };
            let poll = if state.poll_ticks > 1 {
                state.poll_ticks as int
            } else {
                1
            };
            &&& flying(state) == 0 ==> poll_text(state, m) == face(
                least(wait_left(state) * 4 / poll, 3) as u8,
            )@ + " "@ + wait
            &&& flying(state) > 0 && ticks < 30 ==> poll_text(state, m) == turn(
                state.tick_count,
            )@ + " "@ + wait
            &&& flying(state) > 0 && ticks >= 30 && most > 1 ==> poll_text(state, m) == turn(
                state.tick_count,
            )@ + " "@ + progress_wide((most - flying(state)) as nat, most as nat)
            &&& flying(state) > 0 && ticks >= 30 && most <= 1 ==> poll_text(state, m) == turn(
                state.tick_count,
            )@ + " "@ + four_wide((ticks / 10) as nat)
        }),
{
    law_counts_are_how_many(state.git_ops@, running_op(), |e: OpEntry| !e.op.finished);
    assert(inflight(state) == flying(state));
    assert(ticks_left(state) == wait_left(state));
}

/// How far a fetch has come is told as so many of so many, or as whole hundredths
/// of them where that takes more than four characters.
pub proof fn law_progress_is_told_in_four(done: nat, total: nat)
    requires
        done <= total,
        total > 0,
    ensures
        ({
            let both = dec(done) + "/"@ + dec(total);
            &&& both.len() <= 4 ==> progress_wide(done, total) == align_right(both, 4)
            &&& both.len() > 4 ==> exists|p: nat|
                progress_wide(done, total) == #[trigger] align_right(dec(p) + "%"@, 4) && p * total
                    <= done * 100 < (p + 1) * total
        }),
{
    let p = done * 100 / total;
    assert(p * total <= done * 100 < (p + 1) * total) by (nonlinear_arith)
        requires
            p == done * 100 / total,
            total > 0,
    ;
    let both = dec(done) + "/"@ + dec(total);
    if both.len() > 4 {
        assert(progress_wide(done, total) == align_right(dec(p) + "%"@, 4));
    }
}

// ── What is happening ──────────────────────────────────────────────────────

/// Whether every repo that could not be fetched could not be for the same reason
/// as repo `i`.
pub open spec fn alone(repos: Seq<RepoCard>, i: int) -> bool {
    &&& 0 <= i < repos.len() && repos[i].error is Some
    &&& forall|j: int|
        0 <= j < repos.len() && (#[trigger] repos[j]).error is Some ==> repos[j].error->0.fault
            == repos[i].error->0.fault && repos[j].error->0.text@ == repos[i].error->0.text@
}

/// What a fault comes to.
pub open spec fn fault_says(state: App, e: ApiError, reset: HourMin) -> Seq<char> {
    match e.fault {
        Fault::RateLimited => "rate limited · "@ + (if state.quota is Some && after(
            state.quota->0.reset,
            state.now,
        ) {
            "retry "@ + clock_text(reset)
        } else {
            e.detail@
        }),
        Fault::Throttled => if state.hold_left is Some {
            "asked too fast · retrying in "@ + countdown_text(state.hold_left->0 as int)
        } else {
            "throttled · "@ + e.detail@
        },
        Fault::Known(_) => e.label@ + " · "@ + e.detail@,
        Fault::Other => e.text@,
    }
}

/// A fault that every broken row shares comes before everything else that is
/// happening, in one sentence.
pub proof fn law_a_shared_fault_comes_first(state: App, reset: HourMin, i: int)
    requires
        state.repos@.len() <= u32::MAX,
        alone(state.repos@, i),
        forall|j: int| 0 <= j < i ==> (#[trigger] state.repos@[j]).error is None,
    ensures
        texts(happening(state, reset)) == "⚠ "@ + cut(
            fault_says(state, state.repos@[i].error->0, reset),
            60,
        ),
{
    let repos = state.repos@;
    law_the_first_is_found(repos, broken());
    let n = first_where(repos, broken()) as int;
    assert(broken()(repos[i]));
    if n < i {
        assert(repos[n].error is Some);
    }
    assert(n == i);
    assert(all_agree(repos, i));
    lemma_any(repos, broken());
    lemma_few(repos, broken());
    assert(tallies(repos).broken > 0);
    reveal_strlit("rate limited · retry ");
    reveal_strlit("rate limited · ");
    reveal_strlit("retry ");
    assert("rate limited · retry "@ =~= "rate limited · "@ + "retry "@);
    assert(fault_text(state, repos[i].error->0, reset) =~= fault_says(
        state,
        repos[i].error->0,
        reset,
    ));
    assert(texts(happening(state, reset)) =~= "⚠ "@ + cut(
        fault_says(state, repos[i].error->0, reset),
        60,
    ));
}

/// Whether no fault is shared: nothing is broken, or not for one reason.
pub open spec fn no_shared_fault(repos: Seq<RepoCard>) -> bool {
    forall|i: int| 0 <= i < repos.len() ==> !#[trigger] alone(repos, i)
}

proof fn lemma_no_shared_fault(state: App, reset: HourMin)
    requires
        no_shared_fault(state.repos@),
    ensures
        shared_fault(state, reset) is None,
{
    let repos = state.repos@;
    law_the_first_is_found(repos, broken());
    let n = first_where(repos, broken()) as int;
    if n < repos.len() && all_agree(repos, n) {
        assert(alone(repos, n));
    }
}

/// How many more there are like the first.
pub open spec fn more_says(n: nat) -> Seq<char> {
    given(n > 1, "  +"@ + dec((n - 1) as nat))
}

/// A service that is down comes next: the first that is, and how many more are.
pub proof fn law_a_fallen_service_comes_next(state: App, reset: HourMin, i: int)
    requires
        no_shared_fault(state.repos@),
        0 <= i < state.services@.len(),
        state.services@[i].state == ServiceState::Down,
        forall|j: int| 0 <= j < i ==> (#[trigger] state.services@[j]).state != ServiceState::Down,
    ensures
        texts(happening(state, reset)) == beating_heart(state.tick_count).0@
            + state.services@[i].name@ + " down"@ + more_says(
            state.services@.filter(|s: Service| s.state == ServiceState::Down).len(),
        ),
{
    lemma_no_shared_fault(state, reset);
    let v = state.services@;
    law_the_first_is_found(v, down());
    let n = first_where(v, down()) as int;
    assert(down()(v[i]));
    if n < i {
        assert(v[n].state == ServiceState::Down);
    }
    law_counts_are_how_many(v, down(), |s: Service| s.state == ServiceState::Down);
    assert(texts(happening(state, reset)) =~= beating_heart(state.tick_count).0@ + v[i].name@
        + " down"@ + more_says(v.filter(|s: Service| s.state == ServiceState::Down).len()));
}

/// Whether nothing is wrong: no fault is shared, and no service is down.
pub open spec fn no_trouble(state: App) -> bool {
    &&& no_shared_fault(state.repos@)
    &&& forall|j: int|
        0 <= j < state.services@.len() ==> (#[trigger] state.services@[j]).state
            != ServiceState::Down
}

proof fn lemma_no_trouble(state: App, reset: HourMin)
    requires
        no_trouble(state),
    ensures
        shared_fault(state, reset) is None,
        first_where(state.services@, down()) == state.services@.len(),
{
    lemma_no_shared_fault(state, reset);
    law_the_first_is_found(state.services@, down());
    let n = first_where(state.services@, down()) as int;
    if n < state.services@.len() {
        assert(state.services@[n].state == ServiceState::Down);
    }
}

/// With no trouble, your own push: waiting for CI to notice it, or the run that
/// came of it and how long ago that began.
#[verifier::rlimit(40)]
pub proof fn law_your_push_comes_before_other_runs(state: App, reset: HourMin)
    requires
        no_trouble(state),
        state.push_watches@.len() > 0,
    ensures
        ({
            let w = state.push_watches@[0];
            texts(happening(state, reset)) == "⇡ "@ + after_last(w.spec@, '/') + (if w.run is None {
                "  pushed — waiting for CI "@ + state.glyphs.mark(Status::Running)
            } else {
                "  "@ + state.glyphs.mark(w.run->0.status) + " "@ + cut(
                    w.run->0.display_title@,
                    28,
                ) + "  "@ + compact_text(secs_since(w.run->0.created_at, state.now))
            }) + more_says(state.push_watches@.len())
        }),
{
    lemma_no_trouble(state, reset);
    let w = state.push_watches@[0];
    let body = if w.run is None {
        "  pushed — waiting for CI "@ + state.glyphs.mark(Status::Running)
    } else {
        "  "@ + state.glyphs.mark(w.run->0.status) + " "@ + cut(w.run->0.display_title@, 28)
            + "  "@ + compact_text(secs_since(w.run->0.created_at, state.now))
    };
    assert(texts(push_banner(state, w)) =~= "⇡ "@ + after_last(w.spec@, '/') + body + more_says(
        state.push_watches@.len(),
    ));
}

/// Otherwise a run in flight: whose it is, what it is called, how long it has been
/// going and, where there is a usual time, what is left of that. When there is
/// none of these there is nothing to say.
#[verifier::rlimit(40)]
pub proof fn law_a_run_in_flight_comes_last(state: App, reset: HourMin)
    requires
        no_trouble(state),
        state.push_watches@.len() == 0,
    ensures
        state.active@.len() == 0 ==> texts(happening(state, reset)) == Seq::<char>::empty(),
        state.active@.len() > 0 ==> {
            let e = state.active@[0];
            let card = state.repos@[e.repo as int];
            let run = e.detail.run;
            let secs = secs_since(run.created_at, state.now);
            let usual = typical(card.runs@, run.display_title@);
            texts(happening(state, reset)) == state.glyphs.mark(Status::Running) + " "@
                + after_last(card.spec@, '/') + "  "@ + cut(run.display_title@, 28) + "  "@
                + compact_text(secs) + given(usual is Some, " · "@ + eta(usual->0, secs))
                + more_says(state.active@.len())
        },
{
    lemma_no_trouble(state, reset);
    if state.active@.len() > 0 {
        let e = state.active@[0];
        let card = state.repos@[e.repo as int];
        let run = e.detail.run;
        let secs = secs_since(run.created_at, state.now);
        let usual = typical(card.runs@, run.display_title@);
        assert(texts(run_banner(state)) =~= state.glyphs.mark(Status::Running) + " "@ + after_last(
            card.spec@,
            '/',
        ) + "  "@ + cut(run.display_title@, 28) + "  "@ + compact_text(secs) + given(
            usual is Some,
            " · "@ + eta(usual->0, secs),
        ) + more_says(state.active@.len()));
    }
}

// ── Colours ────────────────────────────────────────────────────────────────

/// A count of nothing is quiet, and one of something is not.
pub proof fn law_noughts_are_quiet(n: u32, mark: Seq<char>, on: Role, strong: bool)
    requires
        on != Role::TextFaint,
    ensures
        counted(n, mark, on, strong).text == mark + dec(n as nat),
        counted(n, mark, on, strong).style.fg == Some(
            Paint::Plain(
                if n == 0 {
                    Role::TextFaint
                } else {
                    on
                },
            ),
        ),
{
}

/// The budget is quiet up to half, amber there, and red from where the alarm is; in
/// between it is that share of the way from the one to the other.
pub proof fn law_the_budget_reddens_towards_its_alarm(pct: u32, critical: u32)
    requires
        critical > 50,
    ensures
        pct < 50 ==> quota_paint(pct, critical) == Paint::Plain(Role::TextFaint),
        pct == 50 ==> quota_paint(pct, critical) == Paint::Plain(Role::Warning),
        pct >= critical ==> quota_paint(pct, critical) == Paint::Plain(Role::Failure),
        50 < pct < critical ==> quota_paint(pct, critical) == (Paint::Mix {
            from: Role::Warning,
            to: Role::Failure,
            by: Weight::Share { num: (pct - 50) as u128, den: (critical - 50) as u128 },
        }),
{
}

/// A sweep crosses the header for twenty ticks after everything turned green, and at
/// no other time.
pub proof fn law_all_green_is_celebrated(state: App, m: Meter, at: Surroundings, area: Rect)
    ensures
        ({
            let ops = header_ops(state, m, at, area);
            let green = state.all_green_tick matches Some(then) && (state.tick_count < then
                || state.tick_count - then < 20);
            &&& ops.len() > 0
            &&& ops.last() is Comet <==> green
            &&& green ==> ops.last() == (OpV::Comet { area, at: state.all_green_tick->0 })
        }),
{
    reveal(header_ops);
}

} // verus!
