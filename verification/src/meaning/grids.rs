//! What a click on a drawn table does, and how its rows arrive.

use vstd::prelude::*;

use crate::changes::{file_table, files, is_tree_view, op_ops, tree_cut, tree_parts, tree_title};
use crate::dashboard::{drawn_lines, entrance, law_clicks_find_their_repo, law_headings_take_no_clicks, law_rows_are_where_the_map_says, repo_clicks, repo_lines, repo_list, repo_table, shows_live};
use crate::detail::{detail_cut, detail_parts, detail_table, digest_height, digest_ops, is_detail_view};
use crate::geometry::{framed, less, no_padding, split_into, Rect};
use crate::grouping::{columns_for, grouped, opens};
use crate::hits::{all_rows, table_clicks, RowKind};
use crate::meaning::dashboard::{listed, lists_repos, row_of};
use crate::motion::{progress, DASH_STEP, WHOLE};
use crate::ops::{plain_panel, Hit, OpV, TableV};
use crate::paint::Role;
use crate::runs::run_list;
use crate::state::App;
use crate::text::dec;
use crate::workflows::workflow_list;

verus! {

/// How many rows a table's header takes: its names and a blank, or nothing.
pub open spec fn header_rows(t: TableV) -> u16 {
    if t.header.len() == 0 {
        0
    } else {
        2
    }
}

/// Whether what follows the table at `k` are its click targets: every row of it, at
/// its height and scrolled to the lit one, answers with what `f` says it stands for.
pub open spec fn answers(ops: Seq<OpV>, k: int, f: spec_fn(int) -> Option<Hit>) -> bool {
    let t = ops[k]->table;
    &&& 0 <= k < ops.len() && ops[k] is Grid && t.rows.len() > 0
    &&& forall|r: int| 0 <= r < t.rows.len() ==> (#[trigger] t.rows[r]).height == t.rows[0].height
    &&& ops.skip(k + 1) == table_clicks(
        ops[k]->Grid_area,
        header_rows(t),
        t.rows[0].height,
        t.rows.len() as int,
        match t.selected {
            Some(s) => s as int,
            None => 0,
        },
        f,
    )
}

/// A click on a row of the runs lands on its run.
pub proof fn law_runs_answer_to_clicks(state: App, area: Rect)
    requires
        area.height >= 4,
        state.runs@.len() > 0,
    ensures
        answers(run_list(state, area), 1, all_rows(RowKind::Run)),
{
    let ops = run_list(state, area);
    let t = ops[1]->table;
    assert(ops.skip(2) =~= table_clicks(
        ops[1]->Grid_area,
        2,
        2,
        state.runs@.len() as int,
        state.run_cursor as int,
        all_rows(RowKind::Run),
    ));
}

/// A click on a row of the workflows lands on its workflow.
pub proof fn law_workflows_answer_to_clicks(state: App, area: Rect)
    requires
        area.height >= 4,
        state.workflows@.len() > 0,
    ensures
        answers(workflow_list(state, area), 1, all_rows(RowKind::Workflow)),
{
    let ops = workflow_list(state, area);
    let t = ops[1]->table;
    assert(ops.skip(2) =~= table_clicks(
        ops[1]->Grid_area,
        2,
        1,
        state.workflows@.len() as int,
        state.workflow_cursor as int,
        all_rows(RowKind::Workflow),
    ));
}

/// A click on a row of the changed files lands on its file.
pub proof fn law_files_answer_to_clicks(ops: Seq<OpV>, state: App, area: Rect)
    requires
        is_tree_view(ops, state, area),
        area.height >= 4,
        state.git_view is Some,
        state.git_view->0.status is Some,
        state.git_view->0.status->0.entries@.len() > 0,
    ensures
        exists|k: int| #[trigger] answers(ops, k, all_rows(RowKind::GitEntry)),
{
    let gv = state.git_view->0;
    let inner = framed(area, no_padding());
    let frame = seq![OpV::Frame { area, border: plain_panel(tree_title(gv)) }];
    let pieces = choose|pieces: Seq<Rect>| #[trigger]
        split_into(pieces, true, tree_cut(state, inner), inner) && ops == frame + tree_parts(
            state,
            gv,
            pieces,
        );
    let pane = match state.current_op {
        Some(op) => op_ops(state, op, pieces[2]),
        None => Seq::empty(),
    };
    let k = 2 + pane.len() as int;
    let parts = tree_parts(state, gv, pieces);
    assert(ops[k] == parts[k - 1]);
    assert(ops[k] is Grid && ops[k]->table == file_table(files(gv), gv.cursor));
    assert(ops.skip(k + 1) =~= table_clicks(
        pieces[1],
        2,
        1,
        files(gv).len() as int,
        gv.cursor as int,
        all_rows(RowKind::GitEntry),
    ));
    assert(answers(ops, k, all_rows(RowKind::GitEntry)));
}

/// A click on a row of a run lands on its job or step.
pub proof fn law_steps_answer_to_clicks(ops: Seq<OpV>, state: App, area: Rect)
    requires
        is_detail_view(ops, state, area),
        state.run_detail is Some,
        state.detail_items@.len() > 0,
    ensures
        exists|k: int| #[trigger] answers(ops, k, all_rows(RowKind::DetailItem)),
{
    let d = state.run_detail->0;
    let inner = framed(area, no_padding());
    let border = plain_panel(
        "Run "@ + dec(d.run.id as nat) + " — "@ + d.run.display_title@ + " ("@
            + d.run.head_branch@ + ")"@,
    );
    let pieces = choose|pieces: Seq<Rect>| #[trigger]
        split_into(pieces, true, detail_cut(state, d, inner), inner) && ops == seq![
            OpV::Frame { area, border },
        ] + detail_parts(state, d, inner, pieces);
    let parts = detail_parts(state, d, inner, pieces);
    let digest = if digest_height(state, d, inner) > 0 {
        digest_ops(state.failure_digest->0, pieces[1])
    } else {
        Seq::empty()
    };
    let k = 2 + digest.len() as int;
    assert(ops[k] == parts[k - 1]);
    assert(ops[k] is Grid && ops[k]->table == detail_table(state, d));
    assert(ops.skip(k + 1) =~= table_clicks(
        pieces[2],
        0,
        1,
        state.detail_items@.len() as int,
        0,
        all_rows(RowKind::DetailItem),
    ));
    assert(answers(ops, k, all_rows(RowKind::DetailItem)));
}

/// A click on a repo's row lands on that repo, and one on a heading on nothing. The
/// targets come last, scrolled as the table is.
pub proof fn law_repos_answer_to_clicks(state: App, area: Rect, i: int)
    requires
        lists_repos(state, area),
        0 <= i < state.repos@.len() <= usize::MAX,
    ensures
        ({
            let ops = repo_list(state, area);
            let t = listed(state, area);
            let owners = grouped(state.repos@);
            let f = repo_lines(state);
            let clicks = table_clicks(
                ops[0]->Grid_area,
                2,
                1,
                t.rows.len() as int,
                match t.selected {
                    Some(s) => s as int,
                    None => 0,
                },
                f,
            );
            &&& clicks.len() < ops.len()
            &&& ops.skip(ops.len() - clicks.len()) == clicks
            &&& f(row_of(state, i)) == Some(Hit::Repo(i as usize))
            &&& opens(owners, i) ==> f(row_of(state, i) - 1) is None
        }),
{
    let ops = repo_list(state, area);
    let owners = grouped(state.repos@);
    let n = state.repos@.len() as int;
    let inner = Rect { x: (area.x + 1) as u16, width: less(area.width as int, 2) as u16, ..area };
    reveal(repo_table);
    law_rows_are_where_the_map_says(
        state,
        owners,
        columns_for(inner.width),
        shows_live(state, inner),
        i,
        n,
    );
    law_clicks_find_their_repo(owners, n, i);
    if opens(owners, i) {
        law_headings_take_no_clicks(owners, n, i);
    }
    let clicks = repo_clicks(state, inner);
    assert(ops.skip(ops.len() - clicks.len()) =~= clicks);
}

proof fn lemma_entrance(state: App, inner: Rect, n: int, j: int)
    requires
        0 <= n,
    ensures
        ({
            let v = entrance(state, inner, n);
            let p = progress(state.dash_opened_tick, state.tick_count, j, DASH_STEP as int);
            let line = Rect { x: inner.x, y: (inner.y + j) as u16, width: inner.width, height: 1 };
            &&& 0 <= j < n && p < WHOLE ==> v.contains(
                OpV::Fade { area: line, from: Role::RowIdle, num: p as u64, den: WHOLE },
            )
            &&& forall|k: int| 0 <= k < v.len() ==> #[trigger] v[k] is Fade
        }),
    decreases n,
{
    if n > 0 {
        lemma_entrance(state, inner, n - 1, j);
        let v = entrance(state, inner, n);
        let u = entrance(state, inner, n - 1);
        let p = progress(state.dash_opened_tick, state.tick_count, j, DASH_STEP as int);
        let line = Rect { x: inner.x, y: (inner.y + j) as u16, width: inner.width, height: 1 };
        let op = OpV::Fade { area: line, from: Role::RowIdle, num: p as u64, den: WHOLE };
        if 0 <= j < n && p < WHOLE {
            if j < n - 1 {
                let k = choose|k: int| 0 <= k < u.len() && u[k] == op;
                assert(v[k] == op);
            } else {
                assert(v.last() == op);
            }
        }
    }
}

/// A line of the dashboard that has not fully arrived is faded, as far as it has
/// come; a dashboard nobody started the clock of is simply there.
pub proof fn law_lines_arrive(state: App, area: Rect, j: int)
    requires
        lists_repos(state, area),
    ensures
        ({
            let ops = repo_list(state, area);
            let t = listed(state, area);
            let inner = ops[0]->Grid_area;
            let p = progress(state.dash_opened_tick, state.tick_count, j, DASH_STEP as int);
            let line = Rect { x: inner.x, y: (inner.y + j) as u16, width: inner.width, height: 1 };
            &&& state.dash_opened_tick is Some && 0 <= j < drawn_lines(
                inner,
                t.rows.len() as int,
                t.selected,
            ) && p < WHOLE ==> ops.contains(
                OpV::Fade { area: line, from: Role::RowIdle, num: p as u64, den: WHOLE },
            )
            &&& state.dash_opened_tick is None ==> ops.len() > 0 && ops.skip(1) == repo_clicks(
                state,
                inner,
            )
        }),
{
    reveal(repo_table);
    let ops = repo_list(state, area);
    let t = listed(state, area);
    let inner = Rect { x: (area.x + 1) as u16, width: less(area.width as int, 2) as u16, ..area };
    let n = drawn_lines(inner, t.rows.len() as int, t.selected);
    let p = progress(state.dash_opened_tick, state.tick_count, j, DASH_STEP as int);
    let line = Rect { x: inner.x, y: (inner.y + j) as u16, width: inner.width, height: 1 };
    let op = OpV::Fade { area: line, from: Role::RowIdle, num: p as u64, den: WHOLE };
    if state.dash_opened_tick is Some && 0 <= j < n && p < WHOLE {
        let v = entrance(state, inner, n);
        lemma_entrance(state, inner, n, j);
        let k = choose|k: int| 0 <= k < v.len() && v[k] == op;
        assert(ops[1 + k] == op);
    }
    if state.dash_opened_tick is None {
        assert(ops.skip(1) =~= repo_clicks(state, inner));
    }
}

} // verus!
