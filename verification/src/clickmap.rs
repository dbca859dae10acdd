//! The click map of a frame: which cells answer a click, and with what.

use vstd::prelude::*;
use vstd::string::*;

use crate::batch::is_batch_view;
use crate::changes::{files, is_tree_view, op_height, op_ops, tree_cut};
use crate::dashboard::{cursor_line, entrance, repo_clicks, repo_lines, repo_list, repo_table};
use crate::detail::{detail_cut, digest_height, is_detail_view};
use crate::diffview::{band_at, diff_ops, diff_shown, diff_tells, seen_tells};
use crate::footer::footer_ops;
use crate::geometry::{asked_by_all, cramped, fits, framed, granted_before, inside, left_share, less, lesser, no_padding, on_screen, right_share, split_into, Rect};
use crate::grouping::{grouped, headings};
use crate::header::{header_ops, surrounds, Meter, Surroundings};
use crate::help::is_help_card;
use crate::hits::{all_rows, clicks_upto, first_row, table_clicks, visible_rows, RowKind};
use crate::live::live_pane;
use crate::logs::log_ops;
use crate::ops::{Hit, OpV, Reading};
use crate::runs::{run_list, run_preview, runs_view};
use crate::screen::{above_strip, beside_pane, frame_cut, has_live_pane, has_strip, is_dashboard, is_frame, is_stack, is_view, law_the_frame_covers_the_screen, law_the_strip_leaves_the_list_its_rows, overlays, pane_cut, strip_cut};
use crate::state::{App, GitDiffView, Job, Screen};
use crate::strip::strip_ops;
use crate::watch::{is_job_list, is_watch_view, job_cut, job_ops, watch_cut, watch_head};
use crate::workflows::{is_preview, is_workflows_view, workflow_list};

verus! {

broadcast use vstd::string::group_string_axioms;

/// What makes a cell answer to a click.
pub open spec fn clickable() -> spec_fn(OpV) -> bool {
    |op: OpV| op is Click
}

/// The click targets among the operations of a frame, in the order they are laid
/// down.
pub open spec fn clicks(ops: Seq<OpV>) -> Seq<OpV> {
    ops.filter(clickable())
}

/// Whether nothing here answers to a click.
pub open spec fn silent(ops: Seq<OpV>) -> bool {
    forall|i: int| 0 <= i < ops.len() ==> !(#[trigger] ops[i] is Click)
}

proof fn lemma_clicks_add(a: Seq<OpV>, b: Seq<OpV>)
    ensures
        clicks(a + b) == clicks(a) + clicks(b),
{
    Seq::filter_distributes_over_add(a, b, clickable());
}

proof fn lemma_silent(ops: Seq<OpV>)
    requires
        silent(ops),
    ensures
        clicks(ops) == Seq::<OpV>::empty(),
    decreases ops.len(),
{
    reveal(Seq::filter);
    if ops.len() > 0 {
        assert(!(ops[ops.len() - 1] is Click));
        lemma_silent(ops.drop_last());
    }
}

/// What stands in front of click targets takes none of them away.
proof fn lemma_clicks_behind(a: Seq<OpV>, b: Seq<OpV>)
    requires
        silent(a),
    ensures
        clicks(a + b) == clicks(b),
{
    lemma_clicks_add(a, b);
    lemma_silent(a);
    assert(Seq::<OpV>::empty() + clicks(b) =~= clicks(b));
}

/// Nor does what follows them.
proof fn lemma_clicks_before(a: Seq<OpV>, b: Seq<OpV>)
    requires
        silent(b),
    ensures
        clicks(a + b) == clicks(a),
{
    lemma_clicks_add(a, b);
    lemma_silent(b);
    assert(clicks(a) + Seq::<OpV>::empty() =~= clicks(a));
}

proof fn lemma_clicks_upto(
    inner: Rect,
    header_rows: u16,
    row_h: u16,
    selected: int,
    f: spec_fn(int) -> Option<Hit>,
    to: int,
)
    ensures
        ({
            let ops = clicks_upto(inner, header_rows, row_h, selected, f, to);
            clicks(ops) == ops
        }),
    decreases to - first_row(inner, header_rows, row_h, selected),
{
    reveal(Seq::filter);
    let ops = clicks_upto(inner, header_rows, row_h, selected, f, to);
    if to > first_row(inner, header_rows, row_h, selected) {
        lemma_clicks_upto(inner, header_rows, row_h, selected, f, to - 1);
        if f(to - 1) is Some {
            assert(ops.drop_last() =~= clicks_upto(inner, header_rows, row_h, selected, f, to - 1));
        }
    }
}

proof fn lemma_table_clicks(
    inner: Rect,
    header_rows: u16,
    row_h: u16,
    total: int,
    selected: int,
    f: spec_fn(int) -> Option<Hit>,
)
    ensures
        ({
            let ops = table_clicks(inner, header_rows, row_h, total, selected, f);
            clicks(ops) == ops
        }),
{
    reveal(Seq::filter);
    let to = lesser(
        total,
        first_row(inner, header_rows, row_h, selected) + visible_rows(
            inner,
            header_rows,
            row_h,
        ),
    );
    lemma_clicks_upto(inner, header_rows, row_h, selected, f, to);
}

// ── Where the clicks are ───────────────────────────────────────────────────

/// The click targets of the repos in `area`.
pub open spec fn list_clicks(state: App, area: Rect) -> Seq<OpV> {
    let inner = Rect { x: (area.x + 1) as u16, width: less(area.width as int, 2) as u16, ..area };
    if inner.height < 2 || inner.width < 8 || state.repos@.len() == 0 {
        Seq::empty()
    } else {
        repo_clicks(state, inner)
    }
}

/// The click targets of the working tree's files.
pub open spec fn tree_clicks(state: App, area: Rect) -> Seq<OpV> {
    let inner = framed(area, no_padding());
    match state.git_view {
        Some(gv) => if inner.height < 2 || files(gv).len() == 0 {
            Seq::empty()
        } else {
            let pane = match state.current_op {
                Some(op) => op_height(op, inner),
                None => 0,
            };
            table_clicks(
                Rect {
                    y: (inner.y + 2) as u16,
                    height: (inner.height - 2 - pane) as u16,
                    ..inner
                },
                2,
                1,
                files(gv).len() as int,
                gv.cursor as int,
                all_rows(RowKind::GitEntry),
            )
        },
        None => Seq::empty(),
    }
}

/// The click targets of a framed list whose rows are each `row_h` lines tall.
pub open spec fn framed_clicks(area: Rect, row_h: u16, total: int, cursor: int, kind: RowKind) -> Seq<
    OpV,
> {
    let inner = framed(area, no_padding());
    if inner.height < 2 || total == 0 {
        Seq::empty()
    } else {
        table_clicks(inner, 2, row_h, total, cursor, all_rows(kind))
    }
}

/// The click targets of a run's jobs and steps.
pub open spec fn detail_clicks(state: App, area: Rect) -> Seq<OpV> {
    let inner = framed(area, no_padding());
    match state.run_detail {
        Some(d) => if inner.height < 2 {
            Seq::empty()
        } else {
            let above = 2 + digest_height(state, d, inner);
            table_clicks(
                Rect {
                    y: (inner.y + above) as u16,
                    height: (inner.height - above) as u16,
                    ..inner
                },
                0,
                1,
                state.detail_items@.len() as int,
                0,
                all_rows(RowKind::DetailItem),
            )
        },
        None => Seq::empty(),
    }
}

/// The click targets of the view.
pub open spec fn view_clicks(state: App, area: Rect) -> Seq<OpV> {
    match state.view {
        Screen::Repos => list_clicks(state, above_strip(state, beside_pane(state, area))),
        Screen::GitStatus => tree_clicks(state, area),
        Screen::Workflows => framed_clicks(
            left_share(58, area),
            1,
            state.workflows@.len() as int,
            state.workflow_cursor as int,
            RowKind::Workflow,
        ),
        Screen::Runs => framed_clicks(
            left_share(42, area),
            2,
            state.runs@.len() as int,
            state.run_cursor as int,
            RowKind::Run,
        ),
        Screen::RunDetail => detail_clicks(state, area),
        _ => Seq::empty(),
    }
}

/// The click map of a frame: that of the view between its header and its footer.
pub open spec fn click_map(state: App, area: Rect) -> Seq<OpV> {
    if area.height < 2 {
        Seq::empty()
    } else {
        view_clicks(
            state,
            Rect { y: (area.y + 1) as u16, height: (area.height - 2) as u16, ..area },
        )
    }
}

/// However often a state is drawn, and whatever the meters and the clock said
/// meanwhile, the click map is the same: a matter of the state and the screen
/// alone. The header, the footer and whatever lies over the view answer to no
/// click.
pub proof fn law_the_click_map_is_the_states(ops: Seq<OpV>, state: App, m: Meter, area: Rect)
    requires
        on_screen(area),
        is_frame(ops, state, m, area),
    ensures
        clicks(ops) == click_map(state, area),
{
    let (pieces, at, view, help) = choose|
        pieces: Seq<Rect>,
        at: Surroundings,
        view: Seq<OpV>,
        help: Seq<OpV>,
    |
        #![trigger split_into(pieces, true, frame_cut(), area), header_ops(state, m, at, pieces[0]), is_view(view, state, pieces[1]), is_help_card(help, state, area)]
        split_into(pieces, true, frame_cut(), area) && surrounds(at, state) && is_view(
            view,
            state,
            pieces[1],
        ) && is_help_card(help, state, area) && ops == seq![
            OpV::Tell(Reading::FrameWidth(area.width)),
        ] + header_ops(state, m, at, pieces[0]) + view + footer_ops(state, pieces[2]) + overlays(
            state,
            area,
        ) + help;
    if area.height >= 2 {
        law_the_frame_covers_the_screen(pieces, area);
    } else {
        lemma_no_room_for_the_view(pieces, area);
    }
    let head = seq![OpV::Tell(Reading::FrameWidth(area.width))] + header_ops(
        state,
        m,
        at,
        pieces[0],
    );
    assert(silent(head)) by {
        reveal(header_ops);
    }
    lemma_overlays_silent(state, area);
    lemma_help_silent(help, state, area);
    lemma_clicks_before(
        head + view + footer_ops(state, pieces[2]) + overlays(state, area),
        help,
    );
    lemma_clicks_before(head + view + footer_ops(state, pieces[2]), overlays(state, area));
    lemma_clicks_before(head + view, footer_ops(state, pieces[2]));
    lemma_clicks_behind(head, view);
    lemma_view_clicks(view, state, pieces[1]);
}

proof fn lemma_no_room_for_the_view(pieces: Seq<Rect>, area: Rect)
    requires
        on_screen(area),
        area.height < 2,
        split_into(pieces, true, frame_cut(), area),
    ensures
        pieces[1].height == 0,
        on_screen(pieces[1]),
{
    let cs = frame_cut();
    assert(cs.len() == 3);
    reveal_with_fuel(asked_by_all, 4);
    assert(cramped(cs, area.height as int));
    assert(cs[1] is Min);
    assert(inside(pieces[1], area));
}

/// Drawing a state again leaves the click map as it was, and tells the same width
/// of the frame.
pub proof fn law_drawing_again_keeps_the_click_map(
    first: Seq<OpV>,
    again: Seq<OpV>,
    state: App,
    m: Meter,
    later: Meter,
    area: Rect,
)
    requires
        on_screen(area),
        is_frame(first, state, m, area),
        is_frame(again, state, later, area),
    ensures
        clicks(first) == clicks(again),
        first[0] == OpV::Tell(Reading::FrameWidth(area.width)),
        again[0] == first[0],
{
    law_the_click_map_is_the_states(first, state, m, area);
    law_the_click_map_is_the_states(again, state, later, area);
    lemma_frame_begins(first, state, m, area);
    lemma_frame_begins(again, state, later, area);
}

#[verifier::rlimit(40)]
proof fn lemma_frame_begins(ops: Seq<OpV>, state: App, m: Meter, area: Rect)
    requires
        is_frame(ops, state, m, area),
    ensures
        ops[0] == OpV::Tell(Reading::FrameWidth(area.width)),
{
    let (pieces, at, view, help) = choose|
        pieces: Seq<Rect>,
        at: Surroundings,
        view: Seq<OpV>,
        help: Seq<OpV>,
    |
        #![trigger split_into(pieces, true, frame_cut(), area), header_ops(state, m, at, pieces[0]), is_view(view, state, pieces[1]), is_help_card(help, state, area)]
        split_into(pieces, true, frame_cut(), area) && surrounds(at, state) && is_view(
            view,
            state,
            pieces[1],
        ) && is_help_card(help, state, area) && ops == seq![
            OpV::Tell(Reading::FrameWidth(area.width)),
        ] + header_ops(state, m, at, pieces[0]) + view + footer_ops(state, pieces[2]) + overlays(
            state,
            area,
        ) + help;
}

proof fn lemma_overlays_silent(state: App, area: Rect)
    ensures
        silent(overlays(state, area)),
{
}

proof fn lemma_help_silent(ops: Seq<OpV>, state: App, area: Rect)
    requires
        is_help_card(ops, state, area),
    ensures
        silent(ops),
{
}

proof fn lemma_view_clicks(ops: Seq<OpV>, state: App, area: Rect)
    requires
        on_screen(area),
        is_view(ops, state, area),
    ensures
        clicks(ops) == view_clicks(state, area),
{
    match state.view {
        Screen::Repos => lemma_dashboard_clicks(ops, state, area),
        Screen::GitStatus => lemma_tree_clicks(ops, state, area),
        Screen::GitDiff => {
            lemma_diff_silent(state, area);
            lemma_silent(ops);
        },
        Screen::Workflows => lemma_workflow_clicks(ops, state, area),
        Screen::Runs => lemma_run_clicks(state, area),
        Screen::RunDetail => lemma_detail_clicks(ops, state, area),
        Screen::Logs => {
            reveal(log_ops);
            lemma_silent(ops);
        },
        Screen::Watch => {
            lemma_watch_silent(ops, state, area);
            lemma_silent(ops);
        },
        Screen::TriggerPrompt => lemma_silent(ops),
        Screen::Diff => lemma_silent(ops),
        Screen::BatchCommit => {
            lemma_batch_silent(ops, state, area);
            lemma_silent(ops);
        },
    }
}

proof fn lemma_list_clicks(state: App, area: Rect)
    ensures
        clicks(repo_list(state, area)) == list_clicks(state, area),
{
    let inner = Rect { x: (area.x + 1) as u16, width: less(area.width as int, 2) as u16, ..area };
    if inner.height < 2 || inner.width < 8 || state.repos@.len() == 0 {
        lemma_silent(repo_list(state, area));
    } else {
        lemma_repo_table(state, inner);
    }
}

proof fn lemma_repo_table(state: App, inner: Rect)
    ensures
        clicks(repo_table(state, inner)) == repo_clicks(state, inner),
{
    reveal(repo_table);
    let map = repo_clicks(state, inner);
    let n = (repo_table(state, inner).len() - map.len()) as int;
    let front = repo_table(state, inner).take(n);
    assert(repo_table(state, inner) =~= front + map);
    assert(silent(front)) by {
        lemma_entrance_silent(state, inner);
    }
    lemma_clicks_behind(front, map);
    let owners = grouped(state.repos@);
    lemma_table_clicks(
        inner,
        2,
        1,
        state.repos@.len() + headings(owners, state.repos@.len() as int),
        match cursor_line(state, owners) {
            Some(s) => s as int,
            None => 0,
        },
        repo_lines(state),
    );
}

proof fn lemma_entrance_silent(state: App, inner: Rect)
    ensures
        forall|n: int| silent(#[trigger] entrance(state, inner, n)),
{
    assert forall|n: int| silent(#[trigger] entrance(state, inner, n)) by {
        lemma_entrance_silent_upto(state, inner, n);
    }
}

proof fn lemma_entrance_silent_upto(state: App, inner: Rect, n: int)
    ensures
        silent(entrance(state, inner, n)),
    decreases n,
{
    if n > 0 {
        lemma_entrance_silent_upto(state, inner, n - 1);
    }
}

proof fn lemma_stack_clicks(ops: Seq<OpV>, state: App, area: Rect)
    requires
        on_screen(area),
        is_stack(ops, state, area),
    ensures
        clicks(ops) == list_clicks(state, above_strip(state, area)),
{
    if has_strip(state, area) {
        let pieces = choose|pieces: Seq<Rect>|
            #[trigger] split_into(pieces, true, strip_cut(state), area) && ops == strip_ops(
                state,
                pieces[1],
            ) + repo_list(state, pieces[0]);
        law_the_strip_leaves_the_list_its_rows(state, area, pieces);
        assert(pieces[0] == above_strip(state, area)) by {
            let cs = strip_cut(state);
            assert(cs.len() == 2);
            reveal_with_fuel(asked_by_all, 3);
            reveal_with_fuel(granted_before, 3);
            assert(fits(cs, area.height as int));
        }
        assert(silent(strip_ops(state, pieces[1]))) by {
            reveal(strip_ops);
        }
        lemma_clicks_behind(strip_ops(state, pieces[1]), repo_list(state, pieces[0]));
    }
    lemma_list_clicks(state, above_strip(state, area));
}

proof fn lemma_dashboard_clicks(ops: Seq<OpV>, state: App, area: Rect)
    requires
        on_screen(area),
        is_dashboard(ops, state, area),
    ensures
        clicks(ops) == list_clicks(state, above_strip(state, beside_pane(state, area))),
{
    if has_live_pane(state, area) {
        let (pieces, rest) = choose|pieces: Seq<Rect>, rest: Seq<OpV>|
            #![trigger split_into(pieces, false, pane_cut(), area), is_stack(rest, state, pieces[0])]
            split_into(pieces, false, pane_cut(), area) && is_stack(rest, state, pieces[0]) && ops
                == live_pane(state, pieces[1], state.followed->0) + rest;
        let cs = pane_cut();
        assert(cs.len() == 2);
        reveal_with_fuel(asked_by_all, 3);
        reveal_with_fuel(granted_before, 3);
        assert(area.width >= 56 ==> fits(cs, area.width as int));
        assert(area.width < 56 ==> cramped(cs, area.width as int));
        assert(cs[0] is Min);
        assert(inside(pieces[0], area));
        assert(area.width >= 56 ==> pieces[0] == beside_pane(state, area));
        assert(area.width < 56 ==> pieces[0].width == 0);
        lemma_clicks_behind(live_pane(state, pieces[1], state.followed->0), rest);
        lemma_stack_clicks(rest, state, pieces[0]);
    } else {
        lemma_stack_clicks(ops, state, area);
    }
}

proof fn lemma_tree_clicks(ops: Seq<OpV>, state: App, area: Rect)
    requires
        on_screen(area),
        is_tree_view(ops, state, area),
    ensures
        clicks(ops) == tree_clicks(state, area),
{
    let inner = framed(area, no_padding());
    if state.git_view is None || inner.height < 2 {
        lemma_silent(ops);
    } else {
        let gv = state.git_view->0;
        let cs = tree_cut(state, inner);
        assert(cs.len() == 2 || cs.len() == 3);
        reveal_with_fuel(asked_by_all, 4);
        reveal_with_fuel(granted_before, 4);
        assert(fits(cs, inner.height as int));
        reveal(op_ops);
        if files(gv).len() == 0 {
            lemma_silent(ops);
        } else {
            let map = tree_clicks(state, area);
            let front = ops.take(ops.len() - map.len());
            assert(ops =~= front + map);
            lemma_clicks_behind(front, map);
            let pane = match state.current_op {
                Some(op) => op_height(op, inner),
                None => 0,
            };
            lemma_table_clicks(
                Rect {
                    y: (inner.y + 2) as u16,
                    height: (inner.height - 2 - pane) as u16,
                    ..inner
                },
                2,
                1,
                files(gv).len() as int,
                gv.cursor as int,
                all_rows(RowKind::GitEntry),
            );
        }
    }
}

proof fn lemma_detail_clicks(ops: Seq<OpV>, state: App, area: Rect)
    requires
        on_screen(area),
        is_detail_view(ops, state, area),
    ensures
        clicks(ops) == detail_clicks(state, area),
{
    let inner = framed(area, no_padding());
    if state.run_detail is None {
        lemma_silent(ops);
    } else {
        let d = state.run_detail->0;
        let cs = detail_cut(state, d, inner);
        assert(cs.len() == 3);
        reveal_with_fuel(asked_by_all, 4);
        reveal_with_fuel(granted_before, 4);
        assert(inner.height >= 2 ==> fits(cs, inner.height as int));
        assert(inner.height < 2 ==> cramped(cs, inner.height as int));
        assert(cs[2] is Min);
        let map = detail_clicks(state, area);
        let front = ops.take(ops.len() - map.len());
        assert(ops =~= front + map);
        lemma_clicks_behind(front, map);
        let above = 2 + digest_height(state, d, inner);
        lemma_table_clicks(
            Rect { y: (inner.y + above) as u16, height: (inner.height - above) as u16, ..inner },
            0,
            1,
            state.detail_items@.len() as int,
            0,
            all_rows(RowKind::DetailItem),
        );
        lemma_silent(Seq::<OpV>::empty());
    }
}

proof fn lemma_workflow_clicks(ops: Seq<OpV>, state: App, area: Rect)
    requires
        is_workflows_view(ops, state, area),
    ensures
        clicks(ops) == view_clicks(App { view: Screen::Workflows, ..state }, area),
{
    let rest = choose|rest: Seq<OpV>| #[trigger]
        is_preview(rest, state, right_share(58, area)) && ops == workflow_list(
            state,
            left_share(58, area),
        ) + rest;
    assert(silent(rest));
    let list = workflow_list(state, left_share(58, area));
    lemma_clicks_before(list, rest);
    let inner = framed(left_share(58, area), no_padding());
    let map = framed_clicks(
        left_share(58, area),
        1,
        state.workflows@.len() as int,
        state.workflow_cursor as int,
        RowKind::Workflow,
    );
    let front = list.take(list.len() - map.len());
    assert(list =~= front + map);
    lemma_clicks_behind(front, map);
    lemma_table_clicks(
        inner,
        2,
        1,
        state.workflows@.len() as int,
        state.workflow_cursor as int,
        all_rows(RowKind::Workflow),
    );
    lemma_silent(Seq::<OpV>::empty());
}

proof fn lemma_run_clicks(state: App, area: Rect)
    ensures
        clicks(runs_view(state, area)) == view_clicks(App { view: Screen::Runs, ..state }, area),
{
    let list = run_list(state, left_share(42, area));
    let rest = run_preview(state, right_share(42, area));
    assert(silent(rest));
    lemma_clicks_before(list, rest);
    let inner = framed(left_share(42, area), no_padding());
    let map = framed_clicks(
        left_share(42, area),
        2,
        state.runs@.len() as int,
        state.run_cursor as int,
        RowKind::Run,
    );
    let front = list.take(list.len() - map.len());
    assert(list =~= front + map);
    lemma_clicks_behind(front, map);
    lemma_table_clicks(
        inner,
        2,
        2,
        state.runs@.len() as int,
        state.run_cursor as int,
        all_rows(RowKind::Run),
    );
    lemma_silent(Seq::<OpV>::empty());
}

proof fn lemma_seen_silent(
    state: App,
    dv: GitDiffView,
    paths: spec_fn(int) -> Option<Seq<char>>,
    n: int,
)
    ensures
        silent(seen_tells(state, dv, paths, n)),
    decreases n,
{
    if n > 0 {
        lemma_seen_silent(state, dv, paths, n - 1);
    }
}

proof fn lemma_diff_silent(state: App, area: Rect)
    ensures
        silent(diff_ops(state, area)),
{
    reveal(diff_ops);
    if let Some(dv) = state.git_diff {
        let paths = band_at(dv, area);
        let n = diff_shown(dv, area);
        lemma_seen_silent(state, dv, paths, n);
        assert(silent(diff_tells(dv, area)));
    }
}

proof fn lemma_jobs_silent(state: App, jobs: Seq<Job>, areas: Seq<Rect>, n: int)
    ensures
        silent(job_ops(state, jobs, areas, n)),
    decreases n,
{
    if n > 0 {
        lemma_jobs_silent(state, jobs, areas, n - 1);
    }
}

proof fn lemma_watch_silent(ops: Seq<OpV>, state: App, area: Rect)
    requires
        is_watch_view(ops, state, area),
    ensures
        silent(ops),
{
    let (pieces, jobs) = choose|pieces: Seq<Rect>, jobs: Seq<OpV>|
        #![trigger split_into(pieces, true, watch_cut(state, area), area), is_job_list(
            jobs,
            state,
            pieces[1],
        )]
        split_into(pieces, true, watch_cut(state, area), area) && is_job_list(
            jobs,
            state,
            pieces[1],
        ) && ops == watch_head(state, area, pieces) + jobs;
    assert(silent(watch_head(state, area, pieces)));
    if let Some(d) = state.run_detail {
        if d.jobs@.len() > 0 {
            let areas = choose|areas: Seq<Rect>| #[trigger]
                split_into(
                    areas,
                    true,
                    job_cut(d.jobs@, d.jobs@.len() as int),
                    pieces[1],
                ) && jobs == job_ops(state, d.jobs@, areas, d.jobs@.len() as int);
            lemma_jobs_silent(state, d.jobs@, areas, d.jobs@.len() as int);
        }
    }
}

proof fn lemma_batch_silent(ops: Seq<OpV>, state: App, area: Rect)
    requires
        is_batch_view(ops, state, area),
    ensures
        silent(ops),
{
    reveal(op_ops);
}

} // verus!
