//! The header: where you are, what is happening, how the machinery stands.

use vstd::prelude::*;
use vstd::string::*;

use crate::clock::{after, clock_at, clock_text, compact_elapsed, compact_text, countdown_text, eta, eta_text, format_countdown, is_after, on_the_clock, holdable, seconds_between, seconds_since, secs_between, secs_since, shown_at, typical, typical_run_secs, write_clock, HourMin};
use crate::columns::{cut, truncate};
use crate::dashboard::{down, is_down, staged, staged_count, unstaged, unstaged_count};
use crate::geometry::{less, lesser, on_screen, Rect};
use crate::list::{count_if, count_of, find_of, first_where, none, push_if, put, put_all};
use crate::motion::{still_going, ticks_since, CELEBRATE_TICKS};
use crate::ops::{add_text, all_columns, columns_of, say, say_of, text_op, width_of, Op, OpV};
use crate::paint::{aligned, align_line, bg, fg, ink, line, ln, plain, share, sp, Align, Line, Paint, Role, Span, SpanV};
use crate::paths::{at_home, home_here, maybe, shorten, shortened};
use crate::state::{ApiError, App, Fault, OpEntry, PushWatch, RepoCard, Screen, Status};
use crate::status::{broken, tallies, Tallies};
use crate::strip::active_ok;
use crate::text::{align_right, after_last, cat2, cat3, cat4, dec, num, or_text, pad_left, same, text_after, text_or};

verus! {

broadcast use vstd::string::group_string_axioms;

// ── The way here ───────────────────────────────────────────────────────────

/// The mark between two crumbs.
pub open spec fn sep() -> SpanV {
    sp("  ›  "@, fg(Role::BorderDim))
}

/// The crumb of the place you are in.
pub open spec fn here(t: Seq<char>) -> SpanV {
    sp(t, fg(Role::Primary).bold())
}

/// The crumb of a place you came through.
pub open spec fn past(t: Seq<char>) -> SpanV {
    sp(t, fg(Role::TextMuted))
}

fn say_sep(v: &mut Vec<Span>)
    ensures
        final(v).deep_view() == old(v).deep_view().push(sep()),
{
    say(v, "  ›  ", fg(Role::BorderDim));
}

fn say_here(v: &mut Vec<Span>, t: &str)
    ensures
        final(v).deep_view() == old(v).deep_view().push(here(t@)),
{
    say(v, t, fg(Role::Primary).bold());
}

fn say_past(v: &mut Vec<Span>, t: &str)
    ensures
        final(v).deep_view() == old(v).deep_view().push(past(t@)),
{
    say(v, t, fg(Role::TextMuted));
}

/// The run being looked at: the one loaded, or the one under the cursor.
pub open spec fn run_crumb(state: App) -> Seq<char> {
    match state.run_detail {
        Some(d) => "#"@ + dec(d.run.id as nat),
        None => if state.run_cursor < state.runs@.len() {
            "#"@ + dec(state.runs@[state.run_cursor as int].id as nat)
        } else {
            "?"@
        },
    }
}

/// The step whose log is being read.
pub open spec fn log_crumb(state: App) -> Seq<char> {
    let l = state.log;
    if l.step is Some && l.step->0 < l.step_names@.len() {
        l.step_names@[l.step->0 as int]@
    } else if l.section is Some && l.section->0 < l.sections@.len() {
        l.sections@[l.section->0 as int]@
    } else {
        "all steps"@
    }
}

/// The way to this screen. The dashboard has none: it is where you start.
pub open spec fn crumbs(state: App) -> Seq<SpanV> {
    match state.view {
        Screen::Repos => Seq::empty(),
        Screen::GitStatus => seq![past("Repos"@)].push(sep()).push(
            past(
                match state.git_view {
                    Some(g) => g.spec@,
                    None => "?"@,
                },
            ),
        ).push(sep()).push(here("Changes"@)),
        Screen::GitDiff => seq![past("Repos"@)].push(sep()).push(
            past(
                match state.git_diff {
                    Some(d) => d.spec@,
                    None => "?"@,
                },
            ),
        ).push(sep()).push(past("Changes"@)).push(sep()).push(
            here(
                match state.git_diff {
                    Some(d) => text_or(d.current_file, d.file@),
                    None => "?"@,
                },
            ),
        ),
        Screen::Workflows => seq![here("Workflows"@)],
        Screen::Runs => seq![past("Workflows"@)].push(sep()).push(
            here(text_or(state.workflow_for_runs, "?"@)),
        ),
        Screen::RunDetail => seq![past("Workflows"@)].push(sep()).push(
            past(text_or(state.workflow_for_runs, "?"@)),
        ).push(sep()).push(here(run_crumb(state))),
        Screen::Logs => seq![past("Logs"@)].push(sep()).push(here(log_crumb(state))),
        Screen::BatchCommit => seq![past("Repos"@)].push(sep()).push(
            here(
                "Batch commit ("@ + dec(
                    match state.batch {
                        Some(b) => b.items@.len(),
                        None => 0,
                    },
                ) + ")"@,
            ),
        ),
        Screen::Watch => seq![here("Watch"@)],
        Screen::Diff => seq![here("Diff"@)],
        Screen::TriggerPrompt => seq![here("Trigger"@)],
    }
}

fn log_crumb_of(state: &App) -> (t: &str)
    ensures
        t@ == log_crumb(*state),
{
    let l = &state.log;
    if let Some(i) = l.step {
        if i < l.step_names.len() {
            return l.step_names[i].as_str();
        }
    }
    if let Some(i) = l.section {
        if i < l.sections.len() {
            return l.sections[i].as_str();
        }
    }
    "all steps"
}

fn run_crumb_of(state: &App) -> (t: String)
    ensures
        t@ == run_crumb(*state),
{
    match &state.run_detail {
        Some(d) => {
            let n = num(d.run.id as u128);
            cat2("#", &n)
        },
        None => {
            if state.run_cursor < state.runs.len() {
                let n = num(state.runs[state.run_cursor].id as u128);
                cat2("#", &n)
            } else {
                "?".to_string()
            }
        },
    }
}

fn crumbs_of(state: &App) -> (v: Vec<Span>)
    ensures
        v.deep_view() == crumbs(*state),
{
    let mut v: Vec<Span> = none();
    match state.view {
        Screen::Repos => {},
        Screen::GitStatus => {
            say_past(&mut v, "Repos");
            say_sep(&mut v);
            match &state.git_view {
                Some(g) => {
                    say_past(&mut v, &g.spec);
                },
                None => {
                    say_past(&mut v, "?");
                },
            }
            say_sep(&mut v);
            say_here(&mut v, "Changes");
        },
        Screen::GitDiff => {
            say_past(&mut v, "Repos");
            say_sep(&mut v);
            match &state.git_diff {
                Some(d) => {
                    say_past(&mut v, &d.spec);
                },
                None => {
                    say_past(&mut v, "?");
                },
            }
            say_sep(&mut v);
            say_past(&mut v, "Changes");
            say_sep(&mut v);
            // The file the viewport is scrolled into: the crumb follows the
            // reading position through the combined diff.
            match &state.git_diff {
                Some(d) => {
                    say_here(&mut v, or_text(&d.current_file, &d.file));
                },
                None => {
                    say_here(&mut v, "?");
                },
            }
        },
        Screen::Workflows => {
            say_here(&mut v, "Workflows");
        },
        Screen::Runs => {
            say_past(&mut v, "Workflows");
            say_sep(&mut v);
            say_here(&mut v, or_text(&state.workflow_for_runs, "?"));
        },
        Screen::RunDetail => {
            say_past(&mut v, "Workflows");
            say_sep(&mut v);
            say_past(&mut v, or_text(&state.workflow_for_runs, "?"));
            say_sep(&mut v);
            let r = run_crumb_of(state);
            say_here(&mut v, &r);
        },
        Screen::Logs => {
            say_past(&mut v, "Logs");
            say_sep(&mut v);
            say_here(&mut v, log_crumb_of(state));
        },
        Screen::BatchCommit => {
            say_past(&mut v, "Repos");
            say_sep(&mut v);
            let items: usize = match &state.batch {
                Some(b) => b.items.len(),
                None => 0,
            };
            let n = num(items as u128);
            let t = cat3("Batch commit (", &n, ")");
            say_here(&mut v, &t);
        },
        Screen::Watch => {
            say_here(&mut v, "Watch");
        },
        Screen::Diff => {
            say_here(&mut v, "Diff");
        },
        Screen::TriggerPrompt => {
            say_here(&mut v, "Trigger");
        },
    }
    v
}

/// The mark between two parts of the header.
pub open spec fn dot() -> SpanV {
    sp("  ·  "@, fg(Role::BorderDim))
}

/// What the header names: the directory being scanned while no single repo is
/// entered, the repo and its branch otherwise.
pub open spec fn place(state: App, home: Option<Seq<char>>) -> Seq<SpanV> {
    let scanning = state.view == Screen::Repos || state.view == Screen::GitStatus || state.view
        == Screen::GitDiff;
    match state.workspace_root {
        Some(root) if scanning => seq![
            sp(shortened(root@, home, state.windows), fg(Role::TextBright)),
        ],
        _ => seq![sp(state.repo_label@, fg(Role::TextBright))].push(
            sp("  ⎇ "@, fg(Role::Info)),
        ).push(sp(state.current_branch@, fg(Role::Accent))),
    }
}

fn place_of(state: &App, home: &Option<String>) -> (v: Vec<Span>)
    ensures
        v.deep_view() == place(*state, maybe(*home)),
{
    let mut v: Vec<Span> = none();
    let scanning = state.view == Screen::Repos || state.view == Screen::GitStatus || state.view
        == Screen::GitDiff;
    if scanning {
        if let Some(root) = &state.workspace_root {
            say_of(&mut v, shorten(root, home, state.windows), fg(Role::TextBright));
            return v;
        }
    }
    say(&mut v, &state.repo_label, fg(Role::TextBright));
    say(&mut v, "  ⎇ ", fg(Role::Info));
    say(&mut v, &state.current_branch, fg(Role::Accent));
    v
}

/// The left end of the header.
pub open spec fn left_end(state: App, home: Option<Seq<char>>) -> Seq<SpanV> {
    let name = seq![sp(" ⚡ "@, fg(Role::Accent))].push(
        sp("jog"@, fg(Role::TextBright).bold()),
    ).push(sp(" "@ + state.version@, fg(Role::TextFaint))).push(dot());
    let named = name + place(state, home);
    let walked = if crumbs(state).len() > 0 {
        named.push(dot()) + crumbs(state)
    } else {
        named
    };
    if state.view == Screen::Repos && state.repos@.len() > 0 {
        walked.push(dot()).push(sp(dec(state.repos@.len()) + " repos"@, fg(Role::TextMuted)))
    } else {
        walked
    }
}

fn left_end_of(state: &App, home: &Option<String>) -> (v: Vec<Span>)
    ensures
        v.deep_view() == left_end(*state, maybe(*home)),
{
    broadcast use crate::list::lemma_deep_len;

    let mut v: Vec<Span> = none();
    say(&mut v, " ⚡ ", fg(Role::Accent));
    say(&mut v, "jog", fg(Role::TextBright).bold());
    say_of(&mut v, cat2(" ", &state.version), fg(Role::TextFaint));
    say(&mut v, "  ·  ", fg(Role::BorderDim));
    put_all(&mut v, place_of(state, home));
    let c = crumbs_of(state);
    if c.len() > 0 {
        say(&mut v, "  ·  ", fg(Role::BorderDim));
        put_all(&mut v, c);
    }
    // The total sits next to the directory it counts. The tallies do not cover
    // it: a checkout that has never run CI lands in none of the four.
    if state.view == Screen::Repos && state.repos.len() > 0 {
        say(&mut v, "  ·  ", fg(Role::BorderDim));
        let n = num(state.repos.len() as u128);
        say_of(&mut v, cat2(&n, " repos"), fg(Role::TextMuted));
    }
    v
}

// ── What is happening ──────────────────────────────────────────────────────

/// The heart of the down-banner, mid-beat: lub, dub, rest. Filled and bright on
/// the two beats, hollow and dim between.
#[verifier::allow_in_spec]
pub fn beating_heart(tick: u64) -> (&'static str, Role)
    returns
        (if tick % 12 == 0 || tick % 12 == 1 || tick % 12 == 4 || tick % 12 == 5 {
            ("♥ ", Role::Failure)
        } else {
            ("♡ ", Role::FailureDim)
        }),
{
    if tick % 12 == 0 || tick % 12 == 1 || tick % 12 == 4 || tick % 12 == 5 {
        ("♥ ", Role::Failure)
    } else {
        ("♡ ", Role::FailureDim)
    }
}

/// Two failed fetches that tell the same story.
pub open spec fn same_story(a: ApiError, b: ApiError) -> bool {
    a.fault == b.fault && a.text@ == b.text@
}

/// Whether every broken row is broken for the reason row `first` is.
pub open spec fn all_agree(repos: Seq<RepoCard>, first: int) -> bool {
    forall|i: int|
        0 <= i < repos.len() && (#[trigger] repos[i]).error is Some ==> same_story(
            repos[i].error->0,
            repos[first].error->0,
        )
}

/// What one fault comes to: how long to wait where that is known, what can be
/// done about it otherwise.
pub open spec fn fault_text(state: App, e: ApiError, reset: HourMin) -> Seq<char> {
    match e.fault {
        Fault::RateLimited => if state.quota is Some && after(state.quota->0.reset, state.now) {
            "rate limited · retry "@ + clock_text(reset)
        } else {
            "rate limited · "@ + e.detail@
        },
        Fault::Throttled => match state.hold_left {
            Some(secs) => "asked too fast · retrying in "@ + countdown_text(secs as int),
            None => "throttled · "@ + e.detail@,
        },
        Fault::Other => e.text@,
        Fault::Known(_) => e.label@ + " · "@ + e.detail@,
    }
}

/// The one reason every broken row is broken; nothing when they disagree.
pub open spec fn shared_fault(state: App, reset: HourMin) -> Option<Seq<char>> {
    let i = first_where(state.repos@, broken()) as int;
    if i < state.repos@.len() && all_agree(state.repos@, i) {
        Some(cut(fault_text(state, state.repos@[i].error->0, reset), 60))
    } else {
        None
    }
}

fn fails(c: &RepoCard) -> (r: bool)
    ensures
        r == broken()(*c),
{
    c.error.is_some()
}

fn fault_text_of(state: &App, e: &ApiError, reset: HourMin) -> (t: String)
    ensures
        t@ == fault_text(*state, *e, reset),
{
    match e.fault {
        // A wait is only bad news until you know how long it is.
        Fault::RateLimited => {
            if let Some(q) = state.quota {
                if is_after(q.reset, state.now) {
                    let c = write_clock(reset);
                    return cat2("rate limited · retry ", &c);
                }
            }
            cat2("rate limited · ", &e.detail)
        },
        // Not the hourly budget: what it needs to say is who is holding off,
        // and for how long.
        Fault::Throttled => match state.hold_left {
            Some(secs) => {
                let c = format_countdown(secs);
                cat2("asked too fast · retrying in ", &c)
            },
            None => cat2("throttled · ", &e.detail),
        },
        Fault::Other => e.text.as_str().to_string(),
        Fault::Known(_) => cat3(&e.label, " · ", &e.detail),
    }
}

/// The one reason every broken row is broken, worded for a header. Nothing when
/// the failures disagree: then no single line is true of all of them.
pub fn shared_fault_detail(state: &App, reset: HourMin) -> (r: Option<String>)
    ensures
        maybe(r) == shared_fault(*state, reset),
{
    let first: usize = find_of(&state.repos, fails, Ghost(broken()));
    if first >= state.repos.len() {
        return None;
    }
    match &state.repos[first].error {
        None => None,
        Some(e) => {
            let mut i: usize = 0;
            while i < state.repos.len()
                invariant
                    i <= state.repos@.len(),
                    first < state.repos@.len(),
                    state.repos@[first as int].error == Some(*e),
                    first == first_where(state.repos@, broken()),
                    forall|j: int|
                        0 <= j < i && (#[trigger] state.repos@[j]).error is Some ==> same_story(
                            state.repos@[j].error->0,
                            *e,
                        ),
                decreases state.repos@.len() - i,
            {
                if let Some(x) = &state.repos[i].error {
                    if x.fault != e.fault || !same(&x.text, &e.text) {
                        assert(!same_story(state.repos@[i as int].error->0, *e));
                        return None;
                    }
                }
                i = i + 1;
            }
            let t = fault_text_of(state, e, reset);
            Some(truncate(&t, 60))
        },
    }
}

/// How many more there are like the first.
pub open spec fn and_more(v: Seq<SpanV>, n: nat, role: Role) -> Seq<SpanV> {
    if n > 1 {
        v.push(sp("  +"@ + dec((n - 1) as nat), fg(role)))
    } else {
        v
    }
}

fn say_more(v: &mut Vec<Span>, n: usize, role: Role)
    ensures
        final(v).deep_view() == and_more(old(v).deep_view(), n as nat, role),
{
    if n > 1 {
        let m = num((n - 1) as u128);
        say_of(v, cat2("  +", &m), fg(role));
    }
}

/// A service being down.
pub open spec fn down_banner(state: App) -> Seq<SpanV> {
    let i = first_where(state.services@, down()) as int;
    let (heart, role) = beating_heart(state.tick_count);
    and_more(
        seq![sp(heart@, fg(role).bold())].push(
            sp(state.services@[i].name@ + " down"@, fg(Role::Failure).bold()),
        ),
        count_if(state.services@, down()),
        Role::Failure,
    )
}

/// Your own push, from waiting for CI to notice it through the run it spawned.
pub open spec fn push_banner(state: App, w: PushWatch) -> Seq<SpanV> {
    let name = seq![sp("⇡ "@, fg(Role::Accent).bold())].push(
        sp(after_last(w.spec@, '/'), fg(Role::TextBright).bold()),
    );
    and_more(
        match w.run {
            None => name.push(sp("  pushed — waiting for CI "@, fg(Role::TextMuted))).push(
                sp(state.glyphs.mark(Status::Running), fg(Role::TextFaint)),
            ),
            Some(run) => name.push(
                sp("  "@ + state.glyphs.mark(run.status) + " "@, fg(Role::Warning).bold()),
            ).push(sp(cut(run.display_title@, 28), fg(Role::TextMuted))).push(
                sp(
                    "  "@ + compact_text(secs_since(run.created_at, state.now)),
                    fg(Role::TextFaint),
                ),
            ),
        },
        state.push_watches@.len(),
        Role::TextFaint,
    )
}

/// The run in flight.
pub open spec fn run_banner(state: App) -> Seq<SpanV> {
    let e = state.active@[0];
    let card = state.repos@[e.repo as int];
    let run = e.detail.run;
    let out = seq![
        sp(state.glyphs.mark(Status::Running) + " "@, fg(Role::Warning).bold()),
    ].push(sp(after_last(card.spec@, '/'), fg(Role::TextBright).bold())).push(
        sp("  "@, plain()),
    ).push(sp(cut(run.display_title@, 28), fg(Role::TextMuted))).push(
        sp("  "@ + compact_text(secs_since(run.created_at, state.now)), fg(Role::TextFaint)),
    );
    and_more(
        match typical(card.runs@, run.display_title@) {
            Some(t) => out.push(
                sp(" · "@ + eta(t, secs_since(run.created_at, state.now)), fg(Role::TextFaint)),
            ),
            None => out,
        },
        state.active@.len(),
        Role::TextFaint,
    )
}

/// What is happening right now, trouble first: a fault every broken row shares,
/// a service down, your own push, a run in flight, or nothing.
pub open spec fn happening(state: App, reset: HourMin) -> Seq<SpanV> {
    if tallies(state.repos@).broken > 0 && shared_fault(state, reset) is Some {
        seq![sp("⚠ "@, fg(Role::Failure).bold())].push(
            sp(shared_fault(state, reset)->0, fg(Role::Failure)),
        )
    } else if first_where(state.services@, down()) < state.services@.len() {
        down_banner(state)
    } else if state.push_watches@.len() > 0 {
        push_banner(state, state.push_watches@[0])
    } else if state.active@.len() > 0 {
        run_banner(state)
    } else {
        Seq::empty()
    }
}

fn down_banner_of(state: &App, first: usize) -> (v: Vec<Span>)
    requires
        first < state.services@.len(),
        first == first_where(state.services@, down()),
    ensures
        v.deep_view() == down_banner(*state),
{
    let n: usize = count_of(&state.services, is_down, Ghost(down()));
    let (heart, role) = beating_heart(state.tick_count);
    let mut v: Vec<Span> = none();
    say(&mut v, heart, fg(role).bold());
    say_of(&mut v, cat2(&state.services[first].name, " down"), fg(Role::Failure).bold());
    say_more(&mut v, n, Role::Failure);
    v
}

fn push_banner_of(state: &App, w: &PushWatch) -> (v: Vec<Span>)
    ensures
        v.deep_view() == push_banner(*state, *w),
{
    let mut v: Vec<Span> = none();
    say(&mut v, "⇡ ", fg(Role::Accent).bold());
    say_of(&mut v, text_after(&w.spec, '/'), fg(Role::TextBright).bold());
    match &w.run {
        None => {
            say(&mut v, "  pushed — waiting for CI ", fg(Role::TextMuted));
            say(&mut v, state.glyphs.of(Status::Running), fg(Role::TextFaint));
        },
        Some(run) => {
            say_of(&mut v, cat3("  ", state.glyphs.of(run.status), " "), fg(Role::Warning).bold());
            say_of(&mut v, truncate(&run.display_title, 28), fg(Role::TextMuted));
            let t = compact_elapsed(run.created_at, state.now);
            say_of(&mut v, cat2("  ", &t), fg(Role::TextFaint));
        },
    }
    say_more(&mut v, state.push_watches.len(), Role::TextFaint);
    v
}

fn run_banner_of(state: &App) -> (v: Vec<Span>)
    requires
        state.active@.len() > 0,
        active_ok(*state),
    ensures
        v.deep_view() == run_banner(*state),
{
    let e = &state.active[0];
    assert(state.active@[0].repo < state.repos@.len());
    let card = &state.repos[e.repo];
    let run = &e.detail.run;
    let mut v: Vec<Span> = none();
    say_of(&mut v, cat2(state.glyphs.of(Status::Running), " "), fg(Role::Warning).bold());
    // The owner is the same for nearly every row; the name says which one.
    say_of(&mut v, text_after(&card.spec, '/'), fg(Role::TextBright).bold());
    say(&mut v, "  ", plain());
    say_of(&mut v, truncate(&run.display_title, 28), fg(Role::TextMuted));
    let t = compact_elapsed(run.created_at, state.now);
    say_of(&mut v, cat2("  ", &t), fg(Role::TextFaint));
    if let Some(usual) = typical_run_secs(&card.runs, &run.display_title) {
        let secs: i64 = seconds_since(run.created_at, state.now);
        let left = eta_text(usual, secs);
        say_of(&mut v, cat2(" · ", &left), fg(Role::TextFaint));
    }
    say_more(&mut v, state.active.len(), Role::TextFaint);
    v
}

/// What is happening right now, for the middle of the header.
///
/// One line, and only ever one. Trouble outranks progress: a run in flight is
/// worth knowing about, but not while eight rows cannot be fetched at all.
pub fn now_playing(state: &App, reset: HourMin) -> (v: Vec<Span>)
    requires
        state.repos@.len() <= u32::MAX,
        active_ok(*state),
    ensures
        v.deep_view() == happening(*state, reset),
{
    if Tallies::of(state).broken > 0 {
        if let Some(detail) = shared_fault_detail(state, reset) {
            let mut v: Vec<Span> = none();
            say(&mut v, "⚠ ", fg(Role::Failure).bold());
            say_of(&mut v, detail, fg(Role::Failure));
            return v;
        }
    }
    let first: usize = find_of(&state.services, is_down, Ghost(down()));
    if first < state.services.len() {
        return down_banner_of(state, first);
    }
    if state.push_watches.len() > 0 {
        return push_banner_of(state, &state.push_watches[0]);
    }
    if state.active.len() > 0 {
        return run_banner_of(state);
    }
    none()
}

// ── How the workspace stands ───────────────────────────────────────────────

/// A count, quiet at zero: a zero is the absence of a thing, not an instance of
/// it.
pub open spec fn counted(n: u32, mark: Seq<char>, on: Role, strong: bool) -> SpanV {
    sp(
        mark + dec(n as nat),
        if n == 0 {
            fg(Role::TextFaint)
        } else if strong {
            fg(on).bold()
        } else {
            fg(on)
        },
    )
}

fn say_count(v: &mut Vec<Span>, n: u32, mark: &str, on: Role, strong: bool)
    ensures
        final(v).deep_view() == old(v).deep_view().push(counted(n, mark@, on, strong)),
{
    let t = num(n as u128);
    let style = if n == 0 {
        fg(Role::TextFaint)
    } else if strong {
        fg(on).bold()
    } else {
        fg(on)
    };
    say_of(v, cat2(mark, &t), style);
}

/// Service health: quiet while everything answers, loud the moment something
/// does not.
pub open spec fn heart_spans(state: App) -> Seq<SpanV> {
    let total = state.services@.len();
    let n = count_if(state.services@, down());
    if total == 0 {
        Seq::empty()
    } else {
        seq![
            if n > 0 {
                sp("♥"@ + dec((total - n) as nat) + "/"@ + dec(total), fg(Role::Failure).bold())
            } else {
                sp("♥"@ + dec(total), fg(Role::SuccessDim))
            },
        ].push(sp("   "@, plain()))
    }
}

/// The workspace at a glance: how the services and CI stand.
pub open spec fn tally_spans(state: App) -> Seq<SpanV> {
    let t = tallies(state.repos@);
    if state.repos@.len() == 0 {
        heart_spans(state)
    } else {
        let both = heart_spans(state).push(counted(t.ok, "✓"@, Role::Success, false)).push(
            counted(t.fail, "  ✗"@, Role::Failure, false),
        );
        push_if(
            push_if(both, t.busy > 0, counted(t.busy, "  ⏵"@, Role::Warning, true)),
            t.broken > 0,
            counted(t.broken, "  !"@, Role::Failure, true),
        ).push(sp("   "@, plain()))
    }
}

/// The workspace at a glance: how the services and CI stand.
///
/// On every screen, so that a second repo going red is not missed while the
/// first one's logs are being read.
pub fn workspace_tallies(state: &App) -> (v: Vec<Span>)
    requires
        state.repos@.len() <= u32::MAX,
    ensures
        v.deep_view() == tally_spans(*state),
{
    let mut v: Vec<Span> = none();
    let total: usize = state.services.len();
    if total > 0 {
        let n: usize = count_of(&state.services, is_down, Ghost(down()));
        let all = num(total as u128);
        if n > 0 {
            let up = num((total - n) as u128);
            say_of(&mut v, cat4("♥", &up, "/", &all), fg(Role::Failure).bold());
        } else {
            say_of(&mut v, cat2("♥", &all), fg(Role::SuccessDim));
        }
        say(&mut v, "   ", plain());
    }
    assert(v.deep_view() == heart_spans(*state));
    if state.repos.len() == 0 {
        return v;
    }
    let t = Tallies::of(state);
    say_count(&mut v, t.ok, "✓", Role::Success, false);
    say_count(&mut v, t.fail, "  ✗", Role::Failure, false);
    if t.busy > 0 {
        say_count(&mut v, t.busy, "  ⏵", Role::Warning, true);
    }
    if t.broken > 0 {
        say_count(&mut v, t.broken, "  !", Role::Failure, true);
    }
    say(&mut v, "   ", plain());
    v
}

/// How many changes sit in the first `n` repos.
pub open spec fn uncommitted(repos: Seq<RepoCard>, n: int) -> nat
    decreases n,
{
    if n <= 0 {
        0
    } else {
        uncommitted(repos, n - 1) + match repos[n - 1].git {
            Some(g) => count_if(g.entries@, staged()) + count_if(g.entries@, unstaged()),
            None => 0,
        }
    }
}

/// How much work is sitting uncommitted across the workspace; nothing when
/// there is none.
pub open spec fn dirty_spans(state: App) -> Seq<SpanV> {
    let n = uncommitted(state.repos@, state.repos@.len() as int);
    if n == 0 {
        Seq::empty()
    } else {
        seq![sp("◆"@ + dec(n) + " uncommitted   "@, fg(Role::Accent))]
    }
}

/// How much work is sitting uncommitted across the workspace.
///
/// Files, not repos. Kept apart from the tallies because it is the widest thing
/// in the corner and so the first that a narrow terminal should lose.
pub fn uncommitted_span(state: &App) -> (v: Vec<Span>)
    requires
        state.repos@.len() <= u32::MAX,
    ensures
        v.deep_view() == dirty_spans(*state),
{
    let mut n: u128 = 0;
    let mut i: usize = 0;
    while i < state.repos.len()
        invariant
            i <= state.repos@.len() <= u32::MAX,
            n == uncommitted(state.repos@, i as int),
            n <= i * 0x1_ffff_ffff_ffff_fffe,
        decreases state.repos@.len() - i,
    {
        assert((i + 1) * 0x1_ffff_ffff_ffff_fffe == i * 0x1_ffff_ffff_ffff_fffe
            + 0x1_ffff_ffff_ffff_fffe) by (nonlinear_arith);
        assert((i + 1) * 0x1_ffff_ffff_ffff_fffe <= 0xffff_ffff * 0x1_ffff_ffff_ffff_fffe)
            by (nonlinear_arith)
            requires
                i + 1 <= 0xffff_ffff,
        ;
        if let Some(g) = &state.repos[i].git {
            n = n + staged_count(g) as u128 + unstaged_count(g) as u128;
        }
        i = i + 1;
    }
    let mut v: Vec<Span> = none();
    if n > 0 {
        let t = num(n);
        say_of(&mut v, cat3("◆", &t, " uncommitted   "), fg(Role::Accent));
    }
    v
}

// ── The corner ─────────────────────────────────────────────────────────────

/// Quiet, then yellow, then red: red exactly where the alarm is.
pub open spec fn quota_paint(pct: u32, critical: u32) -> Paint {
    if pct < 50 {
        Paint::Plain(Role::TextFaint)
    } else {
        share(Role::Warning, Role::Failure, (pct - 50) as u128, (critical - 50) as u128)
    }
}

/// Quiet, then yellow, then red.
///
/// A ramp rather than three steps: a colour already halfway to red says whether
/// the last few polls moved the number a lot, without arithmetic.
pub fn quota_color(pct: u32, critical: u32) -> (p: Paint)
    requires
        critical > 50,
    ensures
        p == quota_paint(pct, critical),
        pct >= critical ==> p == Paint::Plain(Role::Failure),
{
    if pct < 50 {
        Paint::Plain(Role::TextFaint)
    } else {
        share(Role::Warning, Role::Failure, (pct - 50) as u128, (critical - 50) as u128)
    }
}

/// The API budget, as a share spent; how long to stay away once it matters.
pub open spec fn budget_spans(state: App, reset: HourMin) -> Seq<SpanV> {
    match state.quota {
        None => Seq::empty(),
        Some(q) => {
            let p = quota_paint(q.percent, state.critical_percent);
            let style = if q.critical {
                ink(p).bold()
            } else {
                ink(p)
            };
            push_if(
                seq![sp("API "@ + dec(q.percent as nat) + "%"@, style)],
                q.critical,
                sp(" · till "@ + clock_text(reset), ink(p)),
            ).push(sp("   "@, plain()))
        },
    }
}

/// The API budget, as a share spent.
pub fn quota_spans(state: &App, reset: HourMin) -> (v: Vec<Span>)
    requires
        state.critical_percent > 50,
    ensures
        v.deep_view() == budget_spans(*state, reset),
{
    let mut v: Vec<Span> = none();
    if let Some(q) = state.quota {
        let p = quota_color(q.percent, state.critical_percent);
        let n = num(q.percent as u128);
        let t = cat3("API ", &n, "%");
        if q.critical {
            say_of(&mut v, t, ink(p).bold());
            let c = write_clock(reset);
            say_of(&mut v, cat2(" · till ", &c), ink(p));
        } else {
            say_of(&mut v, t, ink(p));
        }
        say(&mut v, "   ", plain());
    }
    v
}

/// What the poll clock remembers from one frame to the next.
#[derive(Clone, Copy, PartialEq, Eq, Debug, Structural)]
pub struct Meter {
    /// The most requests this fetch has had in flight.
    pub most: usize,
    /// The tick this fetch started at.
    pub started: u64,
}

/// Commands still running.
pub open spec fn running_op() -> spec_fn(OpEntry) -> bool {
    |e: OpEntry| !e.op.finished
}

fn is_running_op(e: &OpEntry) -> (r: bool)
    ensures
        r == running_op()(*e),
{
    !e.op.finished
}

/// How many fetches are in flight: git commands parked in hooks are pending
/// too, but fetch nothing.
pub open spec fn inflight(state: App) -> int {
    less(state.pending as int, count_if(state.git_ops@, running_op()) as int)
}

/// How many ticks are left until the next poll.
pub open spec fn ticks_left(state: App) -> int {
    less(state.poll_ticks as int, ticks_since(state.last_poll_tick, state.tick_count))
}

/// The meter once this frame has looked at it.
pub open spec fn metered(state: App, m: Meter) -> Meter {
    if inflight(state) > 0 {
        Meter {
            most: if m.most as int > inflight(state) {
                m.most
            } else {
                inflight(state) as usize
            },
            started: if m.most == 0 {
                state.tick_count
            } else {
                m.started
            },
        }
    } else {
        Meter { most: 0, started: m.started }
    }
}

/// A quarter of the spinner's turn.
#[verifier::allow_in_spec]
pub fn turn(tick: u64) -> &'static str
    returns
        (if (tick / 3) % 4 == 0 {
            "⠋"
        } else if (tick / 3) % 4 == 1 {
            "⠙"
        } else if (tick / 3) % 4 == 2 {
            "⠸"
        } else {
            "⠴"
        }),
{
    if (tick / 3) % 4 == 0 {
        "⠋"
    } else if (tick / 3) % 4 == 1 {
        "⠙"
    } else if (tick / 3) % 4 == 2 {
        "⠸"
    } else {
        "⠴"
    }
}

/// A clock face with so many quarters left.
#[verifier::allow_in_spec]
pub fn face(quarters: u8) -> &'static str
    returns
        (match quarters {
            0 => "◷",
            1 => "◶",
            2 => "◵",
            _ => "◴",
        }),
{
    match quarters {
        0 => "◷",
        1 => "◶",
        2 => "◵",
        _ => "◴",
    }
}

/// How many quarters of the wait are left.
pub open spec fn quarters(state: App) -> int {
    let whole = if state.poll_ticks > 1 {
        state.poll_ticks as int
    } else {
        1
    };
    lesser(ticks_left(state) * 4 / whole, 3)
}

/// A stretch of time in four characters: seconds, or the smallest larger unit
/// in which there are fewer than a thousand.
pub open spec fn four_wide(secs: nat) -> Seq<char> {
    if secs < 1000 {
        align_right(dec(secs), 3) + "s"@
    } else if secs / 60 < 1000 {
        align_right(dec(secs / 60), 3) + "m"@
    } else if secs / 3600 < 1000 {
        align_right(dec(secs / 3600), 3) + "h"@
    } else if secs / 86400 < 1000 {
        align_right(dec(secs / 86400), 3) + "d"@
    } else {
        "long"@
    }
}

/// Progress in four characters: how many of how many, or the share in percent
/// when the two numbers do not fit.
pub open spec fn progress_wide(done: nat, total: nat) -> Seq<char> {
    let both = dec(done) + "/"@ + dec(total);
    align_right(
        if both.len() <= 4 {
            both
        } else {
            dec(done * 100 / total) + "%"@
        },
        4,
    )
}

/// The poll clock: a glyph and a right-aligned field. The field counts down to
/// the next poll; a fetch that drags past a few seconds takes it over.
pub open spec fn poll_text(state: App, m: Meter) -> Seq<char> {
    let wait = four_wide(((ticks_left(state) + 9) / 10) as nat);
    let after = metered(state, m);
    let secs = ticks_since(after.started, state.tick_count) / 10;
    if inflight(state) > 0 {
        turn(state.tick_count)@ + " "@ + (if secs < 3 {
            wait
        } else if after.most > 1 {
            progress_wide((after.most - inflight(state)) as nat, after.most as nat)
        } else {
            four_wide(secs as nat)
        })
    } else {
        face(quarters(state) as u8)@ + " "@ + wait
    }
}

fn write_four(secs: u128) -> (t: String)
    ensures
        t@ == four_wide(secs as nat),
{
    let (n, unit) = if secs < 1000 {
        (secs, "s")
    } else if secs / 60 < 1000 {
        (secs / 60, "m")
    } else if secs / 3600 < 1000 {
        (secs / 3600, "h")
    } else if secs / 86400 < 1000 {
        (secs / 86400, "d")
    } else {
        return "long".to_string();
    };
    let n = num(n);
    let n = pad_left(&n, 3);
    cat2(&n, unit)
}

fn write_progress(done: usize, total: usize) -> (t: String)
    requires
        done < total,
    ensures
        t@ == progress_wide(done as nat, total as nat),
{
    let a = num(done as u128);
    let b = num(total as u128);
    let both = cat3(&a, "/", &b);
    if both.as_str().unicode_len() <= 4 {
        return pad_left(&both, 4);
    }
    let share = num(done as u128 * 100 / total as u128);
    let share = cat2(&share, "%");
    pad_left(&share, 4)
}

/// A quarter-turn clock face counting down to the next poll.
///
/// One fixed template, so that every character position keeps one role and
/// nothing in the corner ever shifts. A fetch swaps the draining clock face for
/// a spinner; only one that drags past a few seconds takes over the number
/// field, which is exactly when the anomaly should displace the routine.
pub fn poll_clock(state: &App, m: &mut Meter) -> (t: String)
    ensures
        t@ == poll_text(*state, *old(m)),
        t@.len() == 6,
        *final(m) == metered(*state, *old(m)),
{
    proof {
        law_clock_keeps_its_width(*state, *m);
    }
    let hooks: usize = count_of(&state.git_ops, is_running_op, Ghost(running_op()));
    let going: usize = state.pending.saturating_sub(hooks);
    let elapsed: u64 = state.tick_count.saturating_sub(state.last_poll_tick);
    let left: u64 = state.poll_ticks.saturating_sub(elapsed);
    let wait = write_four((left as u128 + 9) / 10);
    assert(left == ticks_left(*state));
    if going > 0 {
        if m.most == 0 {
            m.started = state.tick_count;
        }
        if m.most < going {
            m.most = going;
        }
        let secs: u64 = state.tick_count.saturating_sub(m.started) / 10;
        if secs < 3 {
            return cat3(turn(state.tick_count), " ", &wait);
        }
        let field = if m.most > 1 {
            write_progress(m.most - going, m.most)
        } else {
            write_four(secs as u128)
        };
        return cat3(turn(state.tick_count), " ", &field);
    }
    m.most = 0;
    let whole: u128 = if state.poll_ticks > 1 {
        state.poll_ticks as u128
    } else {
        1
    };
    let q: u128 = left as u128 * 4 / whole;
    let quarters: u8 = if q < 3 {
        q as u8
    } else {
        3
    };
    proof {
        let l4 = (left as int) * 4;
        assert(l4 / (whole as int) >= 0) by (nonlinear_arith)
            requires
                l4 >= 0,
                whole > 0,
        ;
        assert(quarters == self::quarters(*state));
    }
    cat3(face(quarters), " ", &wait)
}

proof fn lemma_dec_len(n: nat)
    ensures
        dec(n).len() >= 1,
        n < 10 ==> dec(n).len() == 1,
        n < 100 ==> dec(n).len() <= 2,
        n < 1000 ==> dec(n).len() <= 3,
    decreases n,
{
    if n >= 10 {
        lemma_dec_len(n / 10);
    }
}

/// Nothing in the corner ever shifts: the clock is six characters wide whatever
/// it is saying.
pub proof fn law_clock_keeps_its_width(state: App, m: Meter)
    ensures
        poll_text(state, m).len() == 6,
{
    reveal_strlit("⠋");
    reveal_strlit("⠙");
    reveal_strlit("⠸");
    reveal_strlit("⠴");
    reveal_strlit("◴");
    reveal_strlit("◵");
    reveal_strlit("◶");
    reveal_strlit("◷");
    reveal_strlit(" ");
    let after = metered(state, m);
    lemma_four_wide(((ticks_left(state) + 9) / 10) as nat);
    lemma_four_wide((ticks_since(after.started, state.tick_count) / 10) as nat);
    if inflight(state) > 0 {
        lemma_progress_wide((after.most - inflight(state)) as nat, after.most as nat);
    }
}

proof fn lemma_four_wide(secs: nat)
    ensures
        four_wide(secs).len() == 4,
{
    reveal_strlit("s");
    reveal_strlit("m");
    reveal_strlit("h");
    reveal_strlit("d");
    reveal_strlit("long");
    lemma_dec_len(secs);
    lemma_dec_len(secs / 60);
    lemma_dec_len(secs / 3600);
    lemma_dec_len(secs / 86400);
}

proof fn lemma_progress_wide(done: nat, total: nat)
    requires
        done < total,
    ensures
        progress_wide(done, total).len() == 4,
{
    reveal_strlit("%");
    assert(done * 100 / total < 100) by (nonlinear_arith)
        requires
            done < total,
    ;
    lemma_dec_len(done * 100 / total);
}

/// The bell: slashed with a countdown while snoozed, quietly lit otherwise, and
/// not there at all when nothing is ever announced.
pub open spec fn bell_spans(state: App) -> Seq<SpanV> {
    if !state.notify_enabled {
        Seq::empty()
    } else if state.snooze_until is Some && after(state.snooze_until->0, state.now) {
        let icon = if state.bell_off_icon@.len() == 0 {
            "muted"@
        } else {
            state.bell_off_icon@
        };
        let mins = (secs_between(state.now, state.snooze_until->0) + 59) / 60;
        seq![sp(icon + " "@ + dec(mins as nat) + "m   "@, fg(Role::Warning))]
    } else if state.bell_icon@.len() > 0 {
        seq![sp(state.bell_icon@ + "   "@, fg(Role::TextFaint))]
    } else {
        Seq::empty()
    }
}

fn bell_of(state: &App) -> (v: Vec<Span>)
    ensures
        v.deep_view() == bell_spans(*state),
{
    let mut v: Vec<Span> = none();
    if !state.notify_enabled {
        return v;
    }
    if let Some(until) = state.snooze_until {
        if is_after(until, state.now) {
            let secs: i64 = seconds_between(state.now, until);
            proof {
                let d = until.at() - state.now.at();
                assert(d / 1_000_000_000 >= 0) by (nonlinear_arith)
                    requires
                        d > 0,
                ;
            }
            let mins = num((secs as u128 + 59) / 60);
            // An empty glyph still says "muted" in words: hiding the bell is a
            // look, hiding the mute is a trap.
            let icon = if state.bell_off_icon.as_str().unicode_len() == 0 {
                "muted"
            } else {
                state.bell_off_icon.as_str()
            };
            say_of(&mut v, cat4(icon, " ", &mins, "m   "), fg(Role::Warning));
            return v;
        }
    }
    if state.bell_icon.as_str().unicode_len() > 0 {
        say_of(&mut v, cat2(&state.bell_icon, "   "), fg(Role::TextFaint));
    }
    v
}

/// What the machine says of itself, read once for a frame.
#[derive(Debug)]
pub struct Surroundings {
    pub home: Option<String>,
    /// The time of day.
    pub clock: HourMin,
    /// The time of day the API budget is refilled at; nothing reads it where there
    /// is no budget.
    pub reset: HourMin,
}

/// The time of day, at the edge of the corner.
pub open spec fn time_spans(at: Surroundings) -> Seq<SpanV> {
    seq![sp(clock_text(at.clock), fg(Role::TextMuted))].push(sp(" "@, plain()))
}

/// The corner's fixed part: the bell, the budget, the poll clock, the time.
pub open spec fn corner(state: App, m: Meter, at: Surroundings) -> Seq<SpanV> {
    (bell_spans(state) + budget_spans(state, at.reset)).push(
        sp(poll_text(state, m), fg(Role::TextFaint)),
    ).push(sp("   "@, plain())) + time_spans(at)
}

/// Whether the two ends stay clear of each other.
pub open spec fn apart(left: Seq<SpanV>, right: Seq<SpanV>, width: u16) -> bool {
    columns_of(left) + columns_of(right) + 2 <= width
}

/// The right end: shed from the least load-bearing part inwards rather than
/// letting the two ends meet. First what is uncommitted, then the tallies; then
/// the budget and the poll clock, the bell, and the time last of all.
pub open spec fn right_end(
    state: App,
    m: Meter,
    at: Surroundings,
    left: Seq<SpanV>,
    width: u16,
) -> Seq<SpanV> {
    let tail = corner(state, m, at);
    let tallied = tally_spans(state) + tail;
    let whole = tally_spans(state) + dirty_spans(state) + tail;
    let short = bell_spans(state) + time_spans(at);
    if apart(left, whole, width) {
        whole
    } else if apart(left, tallied, width) {
        tallied
    } else if apart(left, tail, width) {
        tail
    } else if apart(left, short, width) {
        short
    } else if apart(left, time_spans(at), width) {
        time_spans(at)
    } else {
        Seq::empty()
    }
}

/// The two ends of the header never meet: two columns stay free between them, or
/// there is no right end at all.
pub proof fn law_the_ends_do_not_meet(
    state: App,
    m: Meter,
    at: Surroundings,
    left: Seq<SpanV>,
    width: u16,
)
    ensures
        ({
            let right = right_end(state, m, at, left, width);
            right.len() == 0 || columns_of(left) + columns_of(right) + 2 <= width
        }),
{
}

/// Where the middle of the header goes: centred in the gap the two ends leave,
/// three columns clear of each, or nowhere when the gap will not hold it.
pub open spec fn middle_slot(left: int, right: int, mid: int, area: Rect) -> Option<Rect> {
    let start = left + 3;
    let end = less(area.width as int, right + 3);
    if mid > 0 && end > start && end - start >= mid {
        Some(
            Rect {
                x: (area.x + start + (end - start - mid) / 2) as u16,
                width: mid as u16,
                ..area
            },
        )
    } else {
        None
    }
}

/// The middle of the header touches neither end: three columns stay free on
/// either side of it.
pub proof fn law_middle_touches_neither_end(left: int, right: int, mid: int, area: Rect)
    requires
        left >= 0,
        right >= 0,
        on_screen(area),
    ensures
        middle_slot(left, right, mid, area) matches Some(slot) ==> {
            &&& slot.width == mid
            &&& area.x + left + 3 <= slot.x
            &&& slot.x + mid + 3 + right <= area.x + area.width
        },
{
}

/// The header.
#[verifier::opaque]
pub open spec fn header_ops(state: App, m: Meter, at: Surroundings, area: Rect) -> Seq<OpV> {
    let left = left_end(state, maybe(at.home));
    let right = right_end(state, m, at, left, area.width);
    let mid = happening(state, at.reset);
    let base = seq![
        OpV::Text {
            area,
            lines: seq![ln(left)],
            wrap: false,
            scroll: 0,
            ground: bg(Role::Surface),
        },
    ];
    let middle = match middle_slot(columns_of(left), columns_of(right), columns_of(mid), area) {
        Some(slot) => base.push(text_op(slot, seq![ln(mid)])),
        None => base,
    };
    let whole = middle.push(
        text_op(area, seq![aligned(ln(right), Align::Right)]),
    );
    match state.all_green_tick {
        Some(at) if still_going(at, state.tick_count, CELEBRATE_TICKS) => whole.push(
            OpV::Comet { area, at },
        ),
        _ => whole,
    }
}

fn line_alone(spans: Vec<Span>) -> (v: Vec<Line>)
    ensures
        v.deep_view() == seq![ln(spans.deep_view())],
{
    let mut v: Vec<Line> = none();
    put(&mut v, line(spans));
    v
}

fn add_time(v: &mut Vec<Span>, at: &Surroundings)
    ensures
        final(v).deep_view() == old(v).deep_view() + time_spans(*at),
{
    say_of(v, write_clock(at.clock), fg(Role::TextMuted));
    say(v, " ", plain());
    assert(v.deep_view() =~= old(v).deep_view() + time_spans(*at));
}

fn corner_of(state: &App, m: &mut Meter, at: &Surroundings) -> (v: Vec<Span>)
    requires
        state.critical_percent > 50,
    ensures
        v.deep_view() == corner(*state, *old(m), *at),
        *final(m) == metered(*state, *old(m)),
{
    let mut v = bell_of(state);
    put_all(&mut v, quota_spans(state, at.reset));
    say_of(&mut v, poll_clock(state, m), fg(Role::TextFaint));
    say(&mut v, "   ", plain());
    add_time(&mut v, at);
    v
}

proof fn lemma_columns_add(a: Seq<SpanV>, b: Seq<SpanV>)
    ensures
        all_columns(a + b) == all_columns(a) + all_columns(b),
        all_columns(a) >= 0,
        all_columns(b) >= 0,
    decreases b.len(), a.len(),
{
    if b.len() == 0 {
        assert(a + b =~= a);
        if a.len() > 0 {
            lemma_columns_add(a.drop_last(), b);
        }
    } else {
        assert((a + b).drop_last() =~= a + b.drop_last());
        lemma_columns_add(a, b.drop_last());
    }
}

fn right_end_of(
    state: &App,
    m: &mut Meter,
    at: &Surroundings,
    left: &Vec<Span>,
    width: u16,
) -> (v: Vec<Span>)
    requires
        state.critical_percent > 50,
        state.repos@.len() <= u32::MAX,
    ensures
        v.deep_view() == right_end(*state, *old(m), *at, left.deep_view(), width),
        *final(m) == metered(*state, *old(m)),
{
    let mut tally = workspace_tallies(state);
    let dirty = uncommitted_span(state);
    let tail = corner_of(state, m, at);
    proof {
        let (a, b, c) = (tally.deep_view(), dirty.deep_view(), tail.deep_view());
        lemma_columns_add(left.deep_view(), a);
        lemma_columns_add(a, b);
        lemma_columns_add(a + b, c);
        lemma_columns_add(a, c);
    }
    let left_w: u128 = width_of(left) as u128 + 2;
    let tail_w: u128 = left_w + width_of(&tail) as u128;
    let tally_w: u128 = tail_w + width_of(&tally) as u128;
    if tally_w + width_of(&dirty) as u128 <= width as u128 {
        put_all(&mut tally, dirty);
        put_all(&mut tally, tail);
        return tally;
    }
    if tally_w <= width as u128 {
        put_all(&mut tally, tail);
        return tally;
    }
    if tail_w <= width as u128 {
        return tail;
    }
    let mut short = bell_of(state);
    add_time(&mut short, at);
    if left_w + width_of(&short) as u128 <= width as u128 {
        return short;
    }
    let mut time: Vec<Span> = none();
    add_time(&mut time, at);
    assert(time.deep_view() =~= time_spans(*at));
    if left_w + width_of(&time) as u128 <= width as u128 {
        return time;
    }
    none()
}

/// The header, in these surroundings.
///
/// The right corner is for the state of the machinery rather than of the work,
/// and the middle for whatever is happening right now.
pub fn header_in(state: &App, m: &mut Meter, at: &Surroundings, area: Rect) -> (ops: Vec<Op>)
    requires
        on_screen(area),
        state.critical_percent > 50,
        state.repos@.len() <= u32::MAX,
        active_ok(*state),
    ensures
        ops.deep_view() == header_ops(*state, *old(m), *at, area),
        *final(m) == metered(*state, *old(m)),
{
    let left = left_end_of(state, &at.home);
    let left_w: usize = width_of(&left);
    let right = right_end_of(state, m, at, &left, area.width);
    let right_w: usize = width_of(&right);
    let mut ops: Vec<Op> = none();
    put(
        &mut ops,
        Op::Text {
            area,
            lines: line_alone(left),
            wrap: false,
            scroll: 0,
            ground: bg(Role::Surface),
        },
    );
    let mid = now_playing(state, at.reset);
    let mid_w: usize = width_of(&mid);
    let total: u128 = area.width as u128;
    let start: u128 = left_w as u128 + 3;
    let keep: u128 = right_w as u128 + 3;
    let end: u128 = if total >= keep {
        total - keep
    } else {
        0
    };
    if mid_w > 0 && end > start && end - start >= mid_w as u128 {
        let x: u128 = start + (end - start - mid_w as u128) / 2;
        let slot = Rect { x: area.x + x as u16, width: mid_w as u16, ..area };
        add_text(&mut ops, slot, line_alone(mid));
    }
    let mut ending: Vec<Line> = none();
    put(&mut ending, align_line(line(right), Align::Right));
    add_text(&mut ops, area, ending);
    // The moment the last run lands and every row is green, one comet of that
    // green crosses the header and is gone.
    if let Some(at) = state.all_green_tick {
        if still_going(at, state.tick_count, CELEBRATE_TICKS) {
            put(&mut ops, Op::Comet { area, at });
        }
    }
    proof {
        reveal(header_ops);
    }
    ops
}

/// Whether these are the surroundings the state is drawn in: home is where this
/// machine says, the clock shows the moment of the frame, and where there is a
/// budget, the moment it is refilled.
pub open spec fn surrounds(at: Surroundings, state: App) -> bool {
    &&& on_the_clock(at.clock)
    &&& on_the_clock(at.reset)
    &&& shown_at(state.now, at.clock)
    &&& state.quota matches Some(q) ==> shown_at(q.reset, at.reset)
    &&& at_home(maybe(at.home))
}

/// The header, where this machine is now.
pub fn render_header(state: &App, m: &mut Meter, area: Rect) -> (ops: Vec<Op>)
    requires
        on_screen(area),
        state.critical_percent > 50,
        state.repos@.len() <= u32::MAX,
        active_ok(*state),
        holdable(state.now),
        state.quota matches Some(q) ==> holdable(q.reset),
    ensures
        exists|at: Surroundings|
            surrounds(at, *state) && ops.deep_view() == #[trigger] header_ops(
                *state,
                *old(m),
                at,
                area,
            ),
        *final(m) == metered(*state, *old(m)),
{
    let reset = match state.quota {
        Some(q) => clock_at(q.reset),
        None => HourMin { hour: 0, minute: 0 },
    };
    let at = Surroundings { home: home_here(), clock: clock_at(state.now), reset };
    assert(surrounds(at, *state));
    header_in(state, m, &at, area)
}

} // verus!
