//! A whole frame: the header, the view, the footer, and what is drawn over them.

use vstd::prelude::*;
use vstd::string::*;

use crate::batch::{batch_ok, is_batch_view, render_batch_commit};
use crate::changes::{is_tree_view, render_git_status};
use crate::clock::holdable;
use crate::dashboard::{lemma_rest_of_the_list, render_repo_list, repo_list};
use crate::detail::{is_detail_view, items_ok, render_run_detail};
use crate::diffview::{diff_ok, diff_ops, render_git_diff};
use crate::footer::{footer_ops, render_footer};
use crate::geometry::{asked_by_all, fits, granted_before, inside, less, on_screen, split, split_into, Constraint, Rect};
use crate::grouping::{grouped, headings};
use crate::header::{header_ops, metered, render_header, surrounds, Meter, Surroundings};
use crate::help::{is_help_card, render_help_overlay};
use crate::list::{none, put_all};
use crate::live::{live_pane, render_dash_live};
use crate::logs::{log_ops, render_logs};
use crate::ops::{tell, Op, OpV, Reading};
use crate::prompts::{commit_ops, finder_ops, prompt_ops, push_ops, render_commit_overlay, render_finder_overlay, render_push_prompt, render_search_overlay, render_trigger_prompt, search_ops};
use crate::rundiff::{render_diff, run_diff};
use crate::runs::{render_runs, runs_view};
use crate::services::{card_ops, render_services_overlay};
use crate::state::{App, Screen};
use crate::strip::{active_ok, lemma_strip_unselected, render_activity_strip, strip_ops};
use crate::watch::{is_watch_view, render_watch};
use crate::workflows::{is_workflows_view, render_workflows};

verus! {

broadcast use vstd::string::group_string_axioms;

// ── The dashboard ──────────────────────────────────────────────────────────

/// Whether the dashboard has a live pane down its right edge.
pub open spec fn has_live_pane(state: App, area: Rect) -> bool {
    area.width >= state.split_min_width && state.followed is Some
}

/// How the dashboard is cut to make room for the live pane.
pub open spec fn pane_cut() -> Seq<Constraint> {
    seq![Constraint::Min(0)].push(Constraint::Length(56))
}

/// How many runs the activity strip wants to show.
pub open spec fn strip_rows(state: App) -> int {
    if state.active@.len() < 4 {
        state.active@.len() as int
    } else {
        4
    }
}

/// Whether the activity strip is given room: only where the list can still show
/// a useful number of rows.
pub open spec fn has_strip(state: App, area: Rect) -> bool {
    strip_rows(state) > 0 && area.height >= strip_rows(state) + 7
}

/// How the dashboard is cut to make room for the strip.
pub open spec fn strip_cut(state: App) -> Seq<Constraint> {
    seq![Constraint::Min(5)].push(Constraint::Length((strip_rows(state) + 2) as u16))
}

/// Whether these are the operations of the strip, where there is one, and of the
/// list above it.
pub open spec fn is_stack(ops: Seq<OpV>, state: App, area: Rect) -> bool {
    if has_strip(state, area) {
        exists|pieces: Seq<Rect>|
            #[trigger] split_into(pieces, true, strip_cut(state), area) && ops == strip_ops(
                state,
                pieces[1],
            ) + repo_list(state, pieces[0])
    } else {
        ops == repo_list(state, area)
    }
}

/// Whether these are the operations of the dashboard.
pub open spec fn is_dashboard(ops: Seq<OpV>, state: App, area: Rect) -> bool {
    if has_live_pane(state, area) {
        exists|pieces: Seq<Rect>, rest: Seq<OpV>|
            #![trigger split_into(pieces, false, pane_cut(), area), is_stack(rest, state, pieces[0])]
            split_into(pieces, false, pane_cut(), area) && is_stack(rest, state, pieces[0]) && ops
                == live_pane(state, pieces[1], state.followed->0) + rest
    } else {
        is_stack(ops, state, area)
    }
}

fn stack(state: &App, area: Rect) -> (ops: Vec<Op>)
    requires
        on_screen(area),
        active_ok(*state),
    ensures
        is_stack(ops.deep_view(), *state, area),
{
    let rows: u16 = if state.active.len() < 4 {
        state.active.len() as u16
    } else {
        4
    };
    if rows == 0 || area.height < rows + 7 {
        return render_repo_list(state, area);
    }
    let mut cs: Vec<Constraint> = Vec::new();
    cs.push(Constraint::Min(5));
    cs.push(Constraint::Length(rows + 2));
    assert(cs@ =~= strip_cut(*state));
    let pieces = split(true, &cs, area);
    assert(inside(pieces@[0], area));
    assert(inside(pieces@[1], area));
    let mut ops = render_activity_strip(state, pieces[1]);
    put_all(&mut ops, render_repo_list(state, pieces[0]));
    assert(split_into(pieces@, true, strip_cut(*state), area));
    ops
}

/// The dashboard.
///
/// On a wide terminal, anything mid-flight earns a live pane down the right
/// edge: the dashboard stays the view, and the log of the run most recently set
/// moving scrolls beside it.
pub fn render_repos(state: &App, area: Rect) -> (ops: Vec<Op>)
    requires
        on_screen(area),
        active_ok(*state),
    ensures
        is_dashboard(ops.deep_view(), *state, area),
{
    let f = match &state.followed {
        Some(f) => f,
        None => return stack(state, area),
    };
    if area.width < state.split_min_width {
        return stack(state, area);
    }
    let mut cs: Vec<Constraint> = Vec::new();
    cs.push(Constraint::Min(0));
    cs.push(Constraint::Length(56));
    assert(cs@ =~= pane_cut());
    let pieces = split(false, &cs, area);
    assert(inside(pieces@[0], area));
    assert(inside(pieces@[1], area));
    let mut ops = render_dash_live(state, pieces[1], f);
    let rest = stack(state, pieces[0]);
    let ghost r = rest.deep_view();
    put_all(&mut ops, rest);
    assert(split_into(pieces@, false, pane_cut(), area) && is_stack(r, *state, pieces@[0]));
    ops
}

/// The strip never squeezes the list out: where there is one, the list keeps
/// at least five rows, and the strip gets one for each run it shows and two for
/// its frame.
pub proof fn law_the_strip_leaves_the_list_its_rows(state: App, area: Rect, pieces: Seq<Rect>)
    requires
        on_screen(area),
        has_strip(state, area),
        split_into(pieces, true, strip_cut(state), area),
    ensures
        pieces[0].height >= 5,
        pieces[1].height == strip_rows(state) + 2,
        pieces[0].y + pieces[0].height == pieces[1].y,
{
    let cs = strip_cut(state);
    assert(cs.len() == 2);
    reveal_with_fuel(asked_by_all, 3);
    reveal_with_fuel(granted_before, 3);
    assert(fits(cs, area.height as int));
}

/// The room the live pane leaves.
pub open spec fn beside_pane(state: App, area: Rect) -> Rect {
    if has_live_pane(state, area) {
        Rect { width: less(area.width as int, 56) as u16, ..area }
    } else {
        area
    }
}

/// The room the activity strip leaves.
pub open spec fn above_strip(state: App, area: Rect) -> Rect {
    if has_strip(state, area) {
        Rect { height: (area.height - strip_rows(state) - 2) as u16, ..area }
    } else {
        area
    }
}

/// What the dashboard shows beside its list: the live pane, down its right edge,
/// and the activity strip, along its bottom.
pub open spec fn round_the_list(state: App, area: Rect) -> Seq<OpV> {
    let left = beside_pane(state, area);
    let pane = if has_live_pane(state, area) {
        live_pane(
            state,
            Rect { x: (area.x + area.width - 56) as u16, width: 56, ..area },
            state.followed->0,
        )
    } else {
        Seq::empty()
    };
    let rows = strip_rows(state) + 2;
    pane + if has_strip(state, left) {
        strip_ops(
            state,
            Rect { y: (left.y + left.height - rows) as u16, height: rows as u16, ..left },
        )
    } else {
        Seq::empty()
    }
}

/// Where there is room for the live pane, the dashboard leaves nothing to chance:
/// the pane has the right edge, the strip the bottom of what is left of it, and
/// the list the rest.
pub proof fn law_the_dashboard_has_its_places(ops: Seq<OpV>, state: App, area: Rect)
    requires
        on_screen(area),
        has_live_pane(state, area) ==> area.width >= 56,
        is_dashboard(ops, state, area),
    ensures
        ops == round_the_list(state, area) + repo_list(
            state,
            above_strip(state, beside_pane(state, area)),
        ),
{
    if has_live_pane(state, area) {
        let (pieces, rest) = choose|pieces: Seq<Rect>, rest: Seq<OpV>|
            #![trigger split_into(pieces, false, pane_cut(), area), is_stack(rest, state, pieces[0])]
            split_into(pieces, false, pane_cut(), area) && is_stack(rest, state, pieces[0]) && ops
                == live_pane(state, pieces[1], state.followed->0) + rest;
        let cs = pane_cut();
        assert(cs.len() == 2);
        reveal_with_fuel(asked_by_all, 3);
        reveal_with_fuel(granted_before, 3);
        assert(fits(cs, area.width as int));
        lemma_stack_has_its_places(rest, state, pieces[0]);
    } else {
        lemma_stack_has_its_places(ops, state, area);
    }
    assert(ops =~= round_the_list(state, area) + repo_list(
        state,
        above_strip(state, beside_pane(state, area)),
    ));
}

proof fn lemma_stack_has_its_places(ops: Seq<OpV>, state: App, area: Rect)
    requires
        on_screen(area),
        is_stack(ops, state, area),
    ensures
        ops == (if has_strip(state, area) {
            strip_ops(
                state,
                Rect {
                    y: (area.y + area.height - strip_rows(state) - 2) as u16,
                    height: (strip_rows(state) + 2) as u16,
                    ..area
                },
            )
        } else {
            Seq::empty()
        }) + repo_list(state, above_strip(state, area)),
{
    if has_strip(state, area) {
        let pieces = choose|pieces: Seq<Rect>|
            #[trigger] split_into(pieces, true, strip_cut(state), area) && ops == strip_ops(
                state,
                pieces[1],
            ) + repo_list(state, pieces[0]);
        let cs = strip_cut(state);
        assert(cs.len() == 2);
        reveal_with_fuel(asked_by_all, 3);
        reveal_with_fuel(granted_before, 3);
        assert(fits(cs, area.height as int));
    } else {
        assert(Seq::<OpV>::empty() + ops =~= ops);
    }
}

/// Moving the selection leaves all else as it was: the live pane, the strip, and
/// as long as every row is on screen, where the rows are, how far they have come
/// in, and what a click on them does. Only the table differs, as
/// `law_selection_changes_only_grounds` says.
pub proof fn law_selection_leaves_the_rest_alone(
    first: Seq<OpV>,
    again: Seq<OpV>,
    state: App,
    other: App,
    area: Rect,
)
    requires
        on_screen(area),
        has_live_pane(state, area) ==> area.width >= 56,
        other == (App { repo_cursor: other.repo_cursor, ..state }),
        state.repo_cursor < state.repos@.len(),
        other.repo_cursor < state.repos@.len(),
        state.repos@.len() + headings(grouped(state.repos@), state.repos@.len() as int) + 2
            <= above_strip(state, beside_pane(state, area)).height,
        is_dashboard(first, state, area),
        is_dashboard(again, other, area),
    ensures
        ({
            let room = above_strip(state, beside_pane(state, area));
            let n = round_the_list(state, area).len() as int;
            &&& first.len() == again.len()
            &&& first.skip(n) == repo_list(state, room)
            &&& again.skip(n) == repo_list(other, room)
            &&& forall|k: int|
                0 <= k < first.len() && k != n ==> #[trigger] first[k] == again[k]
        }),
{
    law_the_dashboard_has_its_places(first, state, area);
    law_the_dashboard_has_its_places(again, other, area);
    let room = above_strip(state, beside_pane(state, area));
    lemma_round_the_list(state, other, area);
    lemma_rest_of_the_list(state, other, room);
    let n = round_the_list(state, area).len() as int;
    let a = repo_list(state, room);
    let b = repo_list(other, room);
    assert(first.skip(n) =~= a);
    assert(again.skip(n) =~= b);
    assert forall|k: int| 0 <= k < first.len() && k != n implies #[trigger] first[k] == again[k] by {
        if k > n {
            assert(a.drop_first()[k - n - 1] == b.drop_first()[k - n - 1]);
        }
    }
}

proof fn lemma_round_the_list(state: App, other: App, area: Rect)
    requires
        other == (App { repo_cursor: other.repo_cursor, ..state }),
    ensures
        round_the_list(other, area) == round_the_list(state, area),
{
    let left = beside_pane(state, area);
    let rows = strip_rows(state) + 2;
    lemma_strip_unselected(
        state,
        other,
        Rect { y: (left.y + left.height - rows) as u16, height: rows as u16, ..left },
    );
}

// ── The frame ──────────────────────────────────────────────────────────────

/// Whether the state on screen is one a frame can be drawn from: what points at
/// something points at something there is, and the times can be told.
pub open spec fn drawable_state(state: App) -> bool {
    &&& state.critical_percent > 50
    &&& state.repos@.len() <= u32::MAX
    &&& active_ok(state)
    &&& holdable(state.now)
    &&& state.quota matches Some(q) ==> holdable(q.reset)
    &&& state.git_view matches Some(g) ==> g.cursor < usize::MAX
    &&& state.git_diff matches Some(d) ==> diff_ok(d)
    &&& state.batch matches Some(b) ==> batch_ok(b)
    &&& state.workflow_cursor < usize::MAX
    &&& state.run_cursor < usize::MAX
    &&& state.run_detail matches Some(d) ==> items_ok(state, d)
    &&& state.log.focus ==> state.log.folds <= state.log.rendered@.len()
}

/// Whether a frame of this state can be drawn on a screen of this size.
pub open spec fn drawable_on(state: App, area: Rect) -> bool {
    on_screen(area) && area.y + 8 <= 0xffff && (state.show_services ==> area.width >= 40)
}

/// Whether these are the operations of the view.
pub open spec fn is_view(ops: Seq<OpV>, state: App, area: Rect) -> bool {
    match state.view {
        Screen::Repos => is_dashboard(ops, state, area),
        Screen::GitStatus => is_tree_view(ops, state, area),
        Screen::GitDiff => ops == diff_ops(state, area),
        Screen::Workflows => is_workflows_view(ops, state, area),
        Screen::Runs => ops == runs_view(state, area),
        Screen::RunDetail => is_detail_view(ops, state, area),
        Screen::Logs => ops == log_ops(state, area),
        Screen::Watch => is_watch_view(ops, state, area),
        Screen::TriggerPrompt => ops == prompt_ops(state, area),
        Screen::Diff => ops == run_diff(state, area),
        Screen::BatchCommit => is_batch_view(ops, state, area),
    }
}

/// The view.
pub fn render_view(state: &App, area: Rect) -> (ops: Vec<Op>)
    requires
        on_screen(area),
        drawable_state(*state),
    ensures
        is_view(ops.deep_view(), *state, area),
{
    match state.view {
        Screen::Repos => render_repos(state, area),
        Screen::GitStatus => render_git_status(state, area),
        Screen::GitDiff => render_git_diff(state, area),
        Screen::Workflows => render_workflows(state, area),
        Screen::Runs => render_runs(state, area),
        Screen::RunDetail => render_run_detail(state, area),
        Screen::Logs => render_logs(state, area),
        Screen::Watch => render_watch(state, area),
        Screen::TriggerPrompt => render_trigger_prompt(state, area),
        Screen::Diff => render_diff(state, area),
        Screen::BatchCommit => render_batch_commit(state, area),
    }
}

/// The prompts and the services card, in the order they are laid over the view.
pub open spec fn overlays(state: App, area: Rect) -> Seq<OpV> {
    (if state.view == Screen::Logs {
        search_ops(state, area)
    } else if state.view == Screen::GitStatus {
        commit_ops(state, area)
    } else {
        Seq::empty()
    }) + push_ops(state, area) + finder_ops(state, area) + card_ops(state, area)
}

/// The prompts and the services card, in the order they are laid over the view.
pub fn render_overlays(state: &App, area: Rect) -> (ops: Vec<Op>)
    requires
        drawable_on(*state, area),
    ensures
        ops.deep_view() == overlays(*state, area),
{
    let mut ops: Vec<Op> = if state.view == Screen::Logs {
        render_search_overlay(state, area)
    } else if state.view == Screen::GitStatus {
        render_commit_overlay(state, area)
    } else {
        none()
    };
    put_all(&mut ops, render_push_prompt(state, area));
    put_all(&mut ops, render_finder_overlay(state, area));
    put_all(&mut ops, render_services_overlay(state, area));
    ops
}

/// How a frame is cut: a row for the header, a row for the footer, and the view
/// between them.
pub open spec fn frame_cut() -> Seq<Constraint> {
    seq![Constraint::Length(1)].push(Constraint::Min(0)).push(Constraint::Length(1))
}

/// Whether these are the operations of a frame: its width, the header, the view,
/// the footer, and what lies over them, the help above everything else.
pub open spec fn is_frame(ops: Seq<OpV>, state: App, m: Meter, area: Rect) -> bool {
    exists|pieces: Seq<Rect>, at: Surroundings, view: Seq<OpV>, help: Seq<OpV>|
        #![trigger split_into(pieces, true, frame_cut(), area), header_ops(state, m, at, pieces[0]), is_view(view, state, pieces[1]), is_help_card(help, state, area)]
        split_into(pieces, true, frame_cut(), area) && surrounds(at, state) && is_view(view, state, pieces[1]) && is_help_card(help, state, area) && ops == seq![
            OpV::Tell(Reading::FrameWidth(area.width)),
        ] + header_ops(state, m, at, pieces[0]) + view + footer_ops(state, pieces[2]) + overlays(
            state,
            area,
        ) + help
}

/// A whole frame.
pub fn render(state: &App, m: &mut Meter, area: Rect) -> (ops: Vec<Op>)
    requires
        drawable_state(*state),
        drawable_on(*state, area),
    ensures
        is_frame(ops.deep_view(), *state, *old(m), area),
        *final(m) == metered(*state, *old(m)),
{
    let ghost was = *m;
    let mut ops: Vec<Op> = none();
    tell(&mut ops, Reading::FrameWidth(area.width));
    let mut cs: Vec<Constraint> = Vec::new();
    cs.push(Constraint::Length(1));
    cs.push(Constraint::Min(0));
    cs.push(Constraint::Length(1));
    assert(cs@ =~= frame_cut());
    let pieces = split(true, &cs, area);
    assert(inside(pieces@[0], area));
    assert(inside(pieces@[1], area));
    let header = render_header(state, m, pieces[0]);
    let ghost at = choose|at: Surroundings|
        surrounds(at, *state) && header.deep_view() == #[trigger] header_ops(
            *state,
            was,
            at,
            pieces@[0],
        );
    put_all(&mut ops, header);
    let view = render_view(state, pieces[1]);
    let ghost v = view.deep_view();
    put_all(&mut ops, view);
    put_all(&mut ops, render_footer(state, pieces[2]));
    put_all(&mut ops, render_overlays(state, area));
    // Last, so it sits above every other overlay.
    let help = render_help_overlay(state, area);
    let ghost h = help.deep_view();
    put_all(&mut ops, help);
    assert(split_into(pieces@, true, frame_cut(), area) && is_view(v, *state, pieces@[1])
        && is_help_card(h, *state, area));
    assert(ops.deep_view() == seq![OpV::Tell(Reading::FrameWidth(area.width))] + header_ops(
        *state,
        was,
        at,
        pieces@[0],
    ) + v + footer_ops(*state, pieces@[2]) + overlays(*state, area) + h);
    ops
}

/// On a screen of two rows or more, the header has the first row, the footer the
/// last, and the view everything between: the three neither overlap nor leave a
/// row out.
pub proof fn law_the_frame_covers_the_screen(pieces: Seq<Rect>, area: Rect)
    requires
        on_screen(area),
        area.height >= 2,
        split_into(pieces, true, frame_cut(), area),
    ensures
        pieces[0] == (Rect { height: 1, ..area }),
        pieces[1] == (Rect { y: (area.y + 1) as u16, height: (area.height - 2) as u16, ..area }),
        pieces[2] == (Rect { y: (area.y + area.height - 1) as u16, height: 1, ..area }),
{
    let cs = frame_cut();
    assert(cs.len() == 3);
    reveal_with_fuel(asked_by_all, 4);
    reveal_with_fuel(granted_before, 4);
    assert(fits(cs, area.height as int));
}

} // verus!
