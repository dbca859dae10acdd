//! What the dashboard says of a repo.

use vstd::prelude::*;
use vstd::string::*;

use crate::bars::sparkline;
use crate::clock::{ago_text, secs_since};
use crate::columns::cut;
use crate::dashboard::{branch_spans, card_row, changes_cell, cursor_line, dash_header, dash_rows, down, glyph_cell, heading_row, law_rows_are_where_the_map_says, live_cell, local_cell, main_cell, mark_cell, monitored, name_cell, of_repo, ran_on_cell, recent_cell, repo_list, repo_table, shows_live, slowest, staged, unstaged, up, updated_cell};
use crate::geometry::{less, Constraint, Rect};
use crate::grouping::{columns_for, grouped, headings, law_heading_and_name_are_the_whole, line_of_row, opens, owner_of, owners_of, short, worth_grouping, Columns};
use crate::list::{count_if, first_where, reads};
use crate::meaning::reading::{given, group_texts, heads, law_counts_are_how_many, law_the_first_is_found, lemma_any, tells, told};
use crate::ops::{blank, TableV};
use crate::paint::{Glow, Paint, Role, Weight};
use crate::state::{App, RepoCard, Service, ServiceState, Status, TreeEntry};
use crate::status::{row_bg_for_status, tint_of};
use crate::text::{align_left, dec, run_of};
use crate::wrap::texts;

verus! {

broadcast use {vstd::string::group_string_axioms, group_texts};

/// Whether the dashboard has room for its table, and anything to put in it.
pub open spec fn lists_repos(state: App, area: Rect) -> bool {
    area.height >= 2 && area.width >= 10 && state.repos@.len() > 0
}

/// The table of the dashboard: the first thing its list draws.
pub open spec fn listed(state: App, area: Rect) -> TableV {
    repo_list(state, area)[0]->table
}

/// The row of the table that repo `i` is on.
pub open spec fn row_of(state: App, i: int) -> int {
    line_of_row(grouped(state.repos@), i)
}

proof fn lemma_listed(state: App, area: Rect, i: int)
    requires
        lists_repos(state, area),
        0 <= i < state.repos@.len(),
    ensures
        ({
            let inner = Rect { x: (area.x + 1) as u16, width: less(area.width as int, 2) as u16, ..area };
            let owners = grouped(state.repos@);
            let cols = columns_for(inner.width);
            let live = shows_live(state, inner);
            let t = listed(state, area);
            &&& repo_list(state, area).len() > 0
            &&& repo_list(state, area)[0] is Grid
            &&& t.header == dash_header(cols, live)
            &&& t.selected == cursor_line(state, owners)
            &&& 0 <= row_of(state, i) < t.rows.len()
            &&& t.rows[row_of(state, i)] == card_row(state, owners, cols, live, i, row_of(state, i))
        }),
{
    let inner = Rect { x: (area.x + 1) as u16, width: less(area.width as int, 2) as u16, ..area };
    reveal(repo_table);
    law_rows_are_where_the_map_says(
        state,
        grouped(state.repos@),
        columns_for(inner.width),
        shows_live(state, inner),
        i,
        state.repos@.len() as int,
    );
}

/// Under `Changes` a repo says `✓ clean` exactly when its tree has no changed
/// file. Otherwise it names how many files are staged, if any are, and how many
/// are not, if any are. One without a checkout says nothing.
pub proof fn law_changes_are_counted(state: App, area: Rect, i: int)
    requires
        lists_repos(state, area),
        0 <= i < state.repos@.len(),
    ensures
        ({
            let t = listed(state, area);
            let r = row_of(state, i);
            match state.repos@[i].git {
                None => tells(t, r, "Changes"@, ""@),
                Some(g) => {
                    let ready = g.entries@.filter(|e: TreeEntry| e.staged).len();
                    let rest = g.entries@.filter(|e: TreeEntry| e.unstaged).len();
                    if g.entries@.len() == 0 {
                        tells(t, r, "Changes"@, "✓ clean"@)
                    } else {
                        tells(
                            t,
                            r,
                            "Changes"@,
                            given(ready > 0, "✚"@ + dec(ready)) + given(ready > 0 && rest > 0, " "@)
                                + given(rest > 0, "●"@ + dec(rest)),
                        )
                    }
                },
            }
        }),
{
    lemma_listed(state, area, i);
    reveal(card_row);
    let t = listed(state, area);
    let r = row_of(state, i);
    let c = state.repos@[i];
    assert(heads(t, 4, "Changes"@));
    assert(t.rows[r].cells[4] == changes_cell(c));
    reveal_strlit("");
    reveal_strlit(" ");
    reveal_strlit("✓ ");
    reveal_strlit("clean");
    reveal_strlit("✓ clean");
    if c.git is Some {
        let g = c.git->0;
        law_counts_are_how_many(g.entries@, staged(), |e: TreeEntry| e.staged);
        law_counts_are_how_many(g.entries@, unstaged(), |e: TreeEntry| e.unstaged);
        let ready = g.entries@.filter(|e: TreeEntry| e.staged).len();
        let rest = g.entries@.filter(|e: TreeEntry| e.unstaged).len();
        let words = given(ready > 0, "✚"@ + dec(ready)) + given(ready > 0 && rest > 0, " "@) + given(
            rest > 0,
            "●"@ + dec(rest),
        );
        if g.entries@.len() == 0 {
            assert(told(t.rows[r].cells[4]) =~= "✓ clean"@);
        } else {
            assert(told(t.rows[r].cells[4]) =~= words);
        }
    } else {
        assert(told(t.rows[r].cells[4]) =~= ""@);
    }
}

/// Whether `j` is the first command under way in the repo called `spec`.
pub open spec fn first_op(state: App, spec: Seq<char>, j: int) -> bool {
    &&& 0 <= j < state.git_ops@.len()
    &&& state.git_ops@[j].spec@ == spec
    &&& forall|i: int| 0 <= i < j ==> (#[trigger] state.git_ops@[i]).spec@ != spec
}

/// Whether no command is under way in the repo called `spec`.
pub open spec fn no_op(state: App, spec: Seq<char>) -> bool {
    forall|i: int| 0 <= i < state.git_ops@.len() ==> (#[trigger] state.git_ops@[i]).spec@ != spec
}

/// Under `Local branch` a repo names the branch it stands on, how far that is
/// ahead where it is, and how far behind; and the command under way there, or
/// that one failed.
pub proof fn law_the_local_branch_is_named(state: App, area: Rect, i: int, j: int)
    requires
        lists_repos(state, area),
        0 <= i < state.repos@.len(),
        first_op(state, state.repos@[i].spec@, j) || no_op(state, state.repos@[i].spec@),
    ensures
        ({
            let t = listed(state, area);
            let r = row_of(state, i);
            let c = state.repos@[i];
            match c.git {
                None => tells(t, r, "Local branch"@, ""@),
                Some(g) => tells(
                    t,
                    r,
                    "Local branch"@,
                    cut(g.branch@, 20) + given(g.ahead > 0, " ↑"@ + dec(g.ahead as nat)) + given(
                        g.behind > 0,
                        " ↓"@ + dec(g.behind as nat),
                    ) + (if no_op(state, c.spec@) {
                        ""@
                    } else if state.git_ops@[j].op.finished {
                        "  ✗ "@ + state.git_ops@[j].op.verb@
                    } else {
                        "  "@ + state.glyphs.mark(Status::Running) + " "@
                            + state.git_ops@[j].op.verb@
                    }),
                ),
            }
        }),
{
    lemma_listed(state, area, i);
    reveal(card_row);
    let t = listed(state, area);
    let r = row_of(state, i);
    let c = state.repos@[i];
    reveal_strlit("");
    assert(heads(t, 3, "Local branch"@));
    assert(t.rows[r].cells[3] == local_cell(state, c));
    law_the_first_is_found(state.git_ops@, of_repo(c.spec@));
    let n = first_where(state.git_ops@, of_repo(c.spec@)) as int;
    if no_op(state, c.spec@) {
        if n < state.git_ops@.len() {
            assert(state.git_ops@[n].spec@ == c.spec@);
        }
    } else {
        if n < j {
            assert(state.git_ops@[n].spec@ == c.spec@);
        }
        if n > j {
            assert(!of_repo(c.spec@)(state.git_ops@[j]));
        }
    }
    if c.git is Some {
        let g = c.git->0;
        let branch = cut(g.branch@, 20) + given(g.ahead > 0, " ↑"@ + dec(g.ahead as nat)) + given(
            g.behind > 0,
            " ↓"@ + dec(g.behind as nat),
        );
        let op = if no_op(state, c.spec@) {
            ""@
        } else if state.git_ops@[j].op.finished {
            "  ✗ "@ + state.git_ops@[j].op.verb@
        } else {
            "  "@ + state.glyphs.mark(Status::Running) + " "@ + state.git_ops@[j].op.verb@
        };
        assert(texts(branch_spans(g)) =~= branch);
        assert(told(t.rows[r].cells[3]) =~= branch + op);
    } else {
        assert(told(t.rows[r].cells[3]) =~= ""@);
    }
}

/// Under `Latest run` a repo says why it could not be fetched, that it has no CI,
/// or what its newest run is called; that there is none where there is none.
pub proof fn law_the_latest_run_is_named(state: App, area: Rect, i: int)
    requires
        lists_repos(state, area),
        0 <= i < state.repos@.len(),
        ({
            let c = state.repos@[i];
            c.error is Some || !c.has_ci || c.loaded
        }),
    ensures
        ({
            let c = state.repos@[i];
            tells(
                listed(state, area),
                row_of(state, i),
                "Latest run"@,
                if c.error is Some {
                    cut(c.error->0.text@, 46)
                } else if !c.has_ci {
                    "local only — no GitHub remote"@
                } else if c.runs@.len() == 0 {
                    "no runs"@
                } else {
                    cut(c.runs@[0].display_title@, 28)
                },
            )
        }),
{
    lemma_listed(state, area, i);
    reveal(card_row);
    let t = listed(state, area);
    let r = row_of(state, i);
    let c = state.repos@[i];
    let inner = Rect { x: (area.x + 1) as u16, width: less(area.width as int, 2) as u16, ..area };
    let k = if shows_live(state, inner) {
        6int
    } else {
        5
    };
    assert(heads(t, k, "Latest run"@));
    assert(t.rows[r].cells[k] == main_cell(state, c));
    let words = if c.error is Some {
        cut(c.error->0.text@, 46)
    } else if !c.has_ci {
        "local only — no GitHub remote"@
    } else if c.runs@.len() == 0 {
        "no runs"@
    } else {
        cut(c.runs@[0].display_title@, 28)
    };
    assert(told(t.rows[r].cells[k]) =~= words);
}

/// The marks at the front of a row: a diamond exactly when the repo is marked for
/// a commit; an exclamation mark when it could not be fetched, and otherwise, once
/// there is CI to show, the mark of its newest run's status.
pub proof fn law_rows_wear_their_marks(state: App, area: Rect, i: int)
    requires
        lists_repos(state, area),
        0 <= i < state.repos@.len(),
    ensures
        ({
            let c = state.repos@[i];
            let cells = listed(state, area).rows[row_of(state, i)].cells;
            &&& cells.len() > 2
            &&& told(cells[0]) == (if exists|j: int|
                0 <= j < state.repo_marks@.len() && (#[trigger] state.repo_marks@[j])@ == c.spec@ {
                "◆"@
            } else {
                ""@
            })
            &&& told(cells[1]) == (if c.error is Some {
                "!"@
            } else if !c.has_ci || !c.loaded {
                ""@
            } else if c.runs@.len() == 0 {
                state.glyphs.unknown@
            } else {
                state.glyphs.mark(c.runs@[0].status)
            })
        }),
{
    lemma_listed(state, area, i);
    reveal(card_row);
    let c = state.repos@[i];
    let cells = listed(state, area).rows[row_of(state, i)].cells;
    reveal_strlit("");
    assert(cells[0] == mark_cell(state, c));
    assert(cells[1] == glyph_cell(state, c));
    law_the_first_is_found(state.repo_marks@, reads(c.spec@));
    let n = first_where(state.repo_marks@, reads(c.spec@)) as int;
    if exists|j: int| 0 <= j < state.repo_marks@.len() && (#[trigger] state.repo_marks@[j])@
        == c.spec@ {
        let j = choose|j: int| 0 <= j < state.repo_marks@.len() && (
        #[trigger] state.repo_marks@[j])@ == c.spec@;
        assert(reads(c.spec@)(state.repo_marks@[j]));
        assert(n < state.repo_marks@.len());
        assert(told(cells[0]) =~= "◆"@);
    } else {
        if n < state.repo_marks@.len() {
            assert(state.repo_marks@[n]@ == c.spec@);
        }
        assert(told(cells[0]) =~= ""@);
    }
    let m = if c.error is Some {
        "!"@
    } else if !c.has_ci || !c.loaded {
        ""@
    } else if c.runs@.len() == 0 {
        state.glyphs.unknown@
    } else {
        state.glyphs.mark(c.runs@[0].status)
    };
    assert(told(cells[1]) =~= m);
}

/// Under `Repo` a row names its repo: the whole of its name, or what follows the
/// owner where the owner stands above it as a heading. In front of it is the mark
/// of the forge, or blanks as wide; behind it, a dot when it has been entered.
pub proof fn law_rows_name_their_repo(state: App, area: Rect, i: int)
    requires
        lists_repos(state, area),
        0 <= i < state.repos@.len(),
    ensures
        ({
            let c = state.repos@[i];
            let icon = state.forge_icon@;
            let owner = owner_of(c.spec@);
            let headed = grouped(state.repos@).len() > 0;
            let name = if headed {
                c.spec@.skip(owner.len() as int + 1)
            } else {
                c.spec@
            };
            &&& headed ==> c.spec@ == owner + seq!['/'] + name
            &&& tells(
                listed(state, area),
                row_of(state, i),
                "Repo"@,
                given(
                    icon.len() > 0,
                    if c.remote {
                        icon + " "@
                    } else {
                        run_of(' ', icon.len() + 1)
                    },
                ) + name + given(
                    !state.repo_label_implicit && c.spec@ == state.repo_label@,
                    "  ●"@,
                ),
            )
        }),
{
    lemma_listed(state, area, i);
    reveal(card_row);
    let t = listed(state, area);
    let r = row_of(state, i);
    let c = state.repos@[i];
    let icon = state.forge_icon@;
    reveal_strlit("");
    assert(heads(t, 2, "Repo"@));
    let name = short(grouped(state.repos@), c.spec@);
    assert(t.rows[r].cells[2] == name_cell(state, c, grouped(state.repos@)));
    if grouped(state.repos@).len() > 0 {
        law_heading_and_name_are_the_whole(state.repos@, i);
        let owner = owner_of(c.spec@);
        assert((owner + seq!['/'] + name).skip(owner.len() as int + 1) =~= name);
    }
    let words = given(
        icon.len() > 0,
        if c.remote {
            icon + " "@
        } else {
            run_of(' ', icon.len() + 1)
        },
    ) + name + given(!state.repo_label_implicit && c.spec@ == state.repo_label@, "  ●"@);
    assert(told(t.rows[r].cells[2]) =~= words);
    assert(tells(t, r, "Repo"@, words));
}

/// The lit row is the cursor's, and it alone has the selection's ground.
pub proof fn law_the_cursor_lights_its_repo(state: App, area: Rect, i: int)
    requires
        lists_repos(state, area),
        0 <= i < state.repos@.len(),
    ensures
        ({
            let t = listed(state, area);
            &&& state.repo_cursor < state.repos@.len() ==> t.selected == Some(
                row_of(state, state.repo_cursor as int) as usize,
            )
            &&& state.repo_cursor >= state.repos@.len() ==> t.selected is None
            &&& t.rows[row_of(state, i)].style.bg matches Some(Paint::Row { selected, .. })
                && selected == (i == state.repo_cursor)
        }),
{
    lemma_listed(state, area, i);
    reveal(card_row);
}

#[verifier::rlimit(40)]
proof fn lemma_tail(state: App, area: Rect, i: int)
    requires
        lists_repos(state, area),
        0 <= i < state.repos@.len(),
    ensures
        ({
            let t = listed(state, area);
            let cells = t.rows[row_of(state, i)].cells;
            let c = state.repos@[i];
            let ci = c.error is None && c.has_ci && c.loaded;
            let cols = columns_for((area.width - 2) as u16);
            &&& area.width >= 122 ==> exists|k: int|
                #[trigger] heads(t, k, "Ran on"@) && k < cells.len() && cells[k] == (if ci {
                    ran_on_cell(c)
                } else {
                    blank()
                })
            &&& area.width >= 82 ==> exists|k: int|
                #[trigger] heads(t, k, "Updated"@) && k < cells.len() && cells[k] == (if ci {
                    updated_cell(state, c)
                } else {
                    blank()
                })
            &&& area.width >= 102 ==> exists|k: int|
                #[trigger] heads(t, k, "Recent runs"@) && k < cells.len() && cells[k] == (if ci {
                    recent_cell(c, cols.spark_w as int)
                } else {
                    blank()
                })
        }),
{
    lemma_listed(state, area, i);
    reveal(card_row);
    let t = listed(state, area);
    let cells = t.rows[row_of(state, i)].cells;
    let inner = Rect { x: (area.x + 1) as u16, width: less(area.width as int, 2) as u16, ..area };
    let n = if shows_live(state, inner) {
        7int
    } else {
        6
    };
    if area.width >= 122 {
        assert(heads(t, n, "Ran on"@));
        assert(heads(t, n + 1, "Updated"@));
        assert(heads(t, n + 2, "Recent runs"@));
    } else if area.width >= 102 {
        assert(heads(t, n, "Updated"@));
        assert(heads(t, n + 1, "Recent runs"@));
    } else if area.width >= 82 {
        assert(heads(t, n, "Updated"@));
    }
}

/// Under `Ran on` a repo with CI to show names the branch of its newest run,
/// flagged exactly when that is not the branch the checkout stands on.
pub proof fn law_runs_elsewhere_are_flagged(state: App, area: Rect, i: int)
    requires
        lists_repos(state, area),
        area.width >= 122,
        0 <= i < state.repos@.len(),
        state.repos@[i].error is None,
        state.repos@[i].has_ci,
        state.repos@[i].loaded,
    ensures
        ({
            let c = state.repos@[i];
            tells(
                listed(state, area),
                row_of(state, i),
                "Ran on"@,
                if c.runs@.len() == 0 || c.runs@[0].head_branch@.len() == 0 {
                    "—"@
                } else {
                    (if c.git is Some && c.git->0.branch@ != c.runs@[0].head_branch@ {
                        "≠ "@
                    } else {
                        "  "@
                    }) + cut(c.runs@[0].head_branch@, 18)
                },
            )
        }),
{
    lemma_tail(state, area, i);
    let c = state.repos@[i];
    let t = listed(state, area);
    let r = row_of(state, i);
    reveal_strlit("");
    let k = choose|k: int| #[trigger]
        heads(t, k, "Ran on"@) && k < t.rows[r].cells.len() && t.rows[r].cells[k] == ran_on_cell(
            c,
        );
    let words = if c.runs@.len() == 0 || c.runs@[0].head_branch@.len() == 0 {
        "—"@
    } else {
        (if c.git is Some && c.git->0.branch@ != c.runs@[0].head_branch@ {
            "≠ "@
        } else {
            "  "@
        }) + cut(c.runs@[0].head_branch@, 18)
    };
    assert(told(t.rows[r].cells[k]) =~= words);
    lemma_listed(state, area, i);
}

/// Under `Updated` a repo with CI to show says how long ago its newest run moved.
pub proof fn law_the_newest_run_is_dated(state: App, area: Rect, i: int)
    requires
        lists_repos(state, area),
        area.width >= 82,
        0 <= i < state.repos@.len(),
        state.repos@[i].error is None,
        state.repos@[i].has_ci,
        state.repos@[i].loaded,
    ensures
        ({
            let c = state.repos@[i];
            tells(
                listed(state, area),
                row_of(state, i),
                "Updated"@,
                if c.runs@.len() == 0 {
                    "—"@
                } else {
                    ago_text(secs_since(c.runs@[0].updated_at, state.now))
                },
            )
        }),
{
    lemma_tail(state, area, i);
    let c = state.repos@[i];
    let t = listed(state, area);
    let r = row_of(state, i);
    let k = choose|k: int| #[trigger]
        heads(t, k, "Updated"@) && k < t.rows[r].cells.len() && t.rows[r].cells[k]
            == updated_cell(state, c);
    let words = if c.runs@.len() == 0 {
        "—"@
    } else {
        ago_text(secs_since(c.runs@[0].updated_at, state.now))
    };
    assert(told(t.rows[r].cells[k]) =~= words);
    lemma_listed(state, area, i);
}

/// Under `Recent runs` a repo with CI to show draws its history, and says behind
/// it how many of its runs passed and, where any did, how many failed.
pub proof fn law_histories_are_summed_up(state: App, area: Rect, i: int)
    requires
        lists_repos(state, area),
        area.width >= 102,
        0 <= i < state.repos@.len(),
        state.repos@[i].error is None,
        state.repos@[i].has_ci,
        state.repos@[i].loaded,
    ensures
        ({
            let c = state.repos@[i];
            let bars = if area.width >= 172 {
                12
            } else if area.width >= 152 {
                8
            } else {
                5
            };
            tells(
                listed(state, area),
                row_of(state, i),
                "Recent runs"@,
                texts(sparkline(c.runs@, bars)) + " ✓"@ + align_left(dec(c.ok as nat), 3) + given(
                    c.fail > 0,
                    "✗"@ + align_left(dec(c.fail as nat), 3),
                ),
            )
        }),
{
    lemma_tail(state, area, i);
    let c = state.repos@[i];
    let t = listed(state, area);
    let r = row_of(state, i);
    let bars = if area.width >= 172 {
        12
    } else if area.width >= 152 {
        8
    } else {
        5
    };
    let k = choose|k: int| #[trigger]
        heads(t, k, "Recent runs"@) && k < t.rows[r].cells.len() && t.rows[r].cells[k]
            == recent_cell(c, columns_for((area.width - 2) as u16).spark_w as int);
    let words = texts(sparkline(c.runs@, bars)) + " ✓"@ + align_left(dec(c.ok as nat), 3) + given(
        c.fail > 0,
        "✗"@ + align_left(dec(c.fail as nat), 3),
    );
    assert(told(t.rows[r].cells[k]) =~= words);
    lemma_listed(state, area, i);
}

proof fn lemma_slowest(svcs: Seq<Service>)
    ensures
        slowest(svcs) is None <==> forall|j: int|
            0 <= j < svcs.len() ==> (#[trigger] svcs[j]).ping_ms is None,
        slowest(svcs) matches Some(p) ==> (exists|j: int|
            0 <= j < svcs.len() && (#[trigger] svcs[j]).ping_ms == Some(p)) && forall|j: int|
            0 <= j < svcs.len() && (#[trigger] svcs[j]).ping_ms is Some ==> svcs[j].ping_ms->0 <= p,
    decreases svcs.len(),
{
    if svcs.len() > 0 {
        let front = svcs.drop_last();
        lemma_slowest(front);
        let n = svcs.len() - 1;
        assert(svcs.last() == svcs[n]);
        assert(forall|j: int| 0 <= j < n ==> #[trigger] front[j] == svcs[j]);
        assert(forall|j: int| 0 <= j < n ==> front[j] == #[trigger] svcs[j]);
        if slowest(front) is Some {
            let p = slowest(front)->0;
            let j = choose|j: int| 0 <= j < front.len() && (#[trigger] front[j]).ping_ms == Some(p);
            assert(svcs[j].ping_ms == Some(p));
        }
        if slowest(front) is None {
            assert(forall|j: int| 0 <= j < n ==> (#[trigger] svcs[j]).ping_ms is None) by {
                assert(forall|j: int| 0 <= j < n ==> (#[trigger] front[j]).ping_ms is None);
            }
        }
    }
}

/// Under `Live`, shown where there is room and any repo is monitored, a repo says
/// that its services are down as soon as one is, and how many of how many where
/// it has several; that they are pending when none is up either; and otherwise
/// how slow the slowest of them answers. One without services says nothing.
#[verifier::rlimit(40)]
pub proof fn law_one_service_down_is_a_repo_down(state: App, area: Rect, i: int, j: int)
    requires
        lists_repos(state, area),
        area.width >= 102,
        0 <= j < state.repos@.len(),
        state.repos@[j].monitors@.len() > 0,
        0 <= i < state.repos@.len(),
    ensures
        ({
            let t = listed(state, area);
            let r = row_of(state, i);
            let svcs = state.repos@[i].monitors@;
            let fallen = svcs.filter(|s: Service| s.state == ServiceState::Down).len();
            if svcs.len() == 0 {
                tells(t, r, "Live"@, ""@)
            } else if exists|k: int|
                0 <= k < svcs.len() && (#[trigger] svcs[k]).state == ServiceState::Down {
                tells(
                    t,
                    r,
                    "Live"@,
                    if svcs.len() > 1 {
                        "✗ "@ + dec(fallen) + "/"@ + dec(svcs.len()) + " down"@
                    } else if svcs[0].uptime is Some {
                        "✗ down · "@ + dec(svcs[0].uptime->0.whole as nat) + "%"@
                    } else {
                        "✗ down"@
                    },
                )
            } else if forall|k: int|
                0 <= k < svcs.len() ==> (#[trigger] svcs[k]).state != ServiceState::Up {
                tells(t, r, "Live"@, "◌ pending"@)
            } else if forall|k: int|
                0 <= k < svcs.len() ==> (#[trigger] svcs[k]).ping_ms is None {
                tells(t, r, "Live"@, "● up"@)
            } else {
                exists|p: u64|
                    {
                        &&& #[trigger] tells(t, r, "Live"@, "● "@ + dec(p as nat) + "ms"@)
                        &&& exists|k: int|
                            0 <= k < svcs.len() && (#[trigger] svcs[k]).ping_ms == Some(p)
                        &&& forall|k: int|
                            0 <= k < svcs.len() && (#[trigger] svcs[k]).ping_ms is Some
                                ==> svcs[k].ping_ms->0 <= p
                    }
            }
        }),
{
    lemma_listed(state, area, i);
    reveal(card_row);
    let t = listed(state, area);
    let r = row_of(state, i);
    let svcs = state.repos@[i].monitors@;
    let inner = Rect { x: (area.x + 1) as u16, width: less(area.width as int, 2) as u16, ..area };
    law_the_first_is_found(state.repos@, monitored());
    assert(monitored()(state.repos@[j]));
    assert(shows_live(state, inner));
    reveal_strlit("");
    assert(heads(t, 5, "Live"@));
    assert(t.rows[r].cells[5] == live_cell(svcs));
    law_counts_are_how_many(svcs, down(), |s: Service| s.state == ServiceState::Down);
    lemma_any(svcs, down());
    law_the_first_is_found(svcs, up());
    lemma_slowest(svcs);
    let fallen = svcs.filter(|s: Service| s.state == ServiceState::Down).len();
    if svcs.len() == 0 {
        assert(told(t.rows[r].cells[5]) =~= ""@);
    } else if exists|k: int|
        0 <= k < svcs.len() && (#[trigger] svcs[k]).state == ServiceState::Down {
        let k = choose|k: int|
            0 <= k < svcs.len() && (#[trigger] svcs[k]).state == ServiceState::Down;
        assert(down()(svcs[k]));
        let words = if svcs.len() > 1 {
            "✗ "@ + dec(fallen) + "/"@ + dec(svcs.len()) + " down"@
        } else if svcs[0].uptime is Some {
            "✗ down · "@ + dec(svcs[0].uptime->0.whole as nat) + "%"@
        } else {
            "✗ down"@
        };
        assert(told(t.rows[r].cells[5]) =~= words);
    } else {
        assert(count_if(svcs, down()) == 0) by {
            if count_if(svcs, down()) > 0 {
                let k = choose|k: int| 0 <= k < svcs.len() && down()(#[trigger] svcs[k]);
                assert(svcs[k].state == ServiceState::Down);
            }
        }
        if forall|k: int| 0 <= k < svcs.len() ==> (#[trigger] svcs[k]).state != ServiceState::Up {
            let n = first_where(svcs, up()) as int;
            if n < svcs.len() {
                assert(svcs[n].state == ServiceState::Up);
            }
            assert(told(t.rows[r].cells[5]) =~= "◌ pending"@);
        } else {
            let k = choose|k: int|
                0 <= k < svcs.len() && (#[trigger] svcs[k]).state == ServiceState::Up;
            assert(up()(svcs[k]));
            if slowest(svcs) is None {
                assert(told(t.rows[r].cells[5]) =~= "● up"@);
            } else {
                let p = slowest(svcs)->0;
                assert(told(t.rows[r].cells[5]) =~= "● "@ + dec(p as nat) + "ms"@);
                assert(tells(t, r, "Live"@, "● "@ + dec(p as nat) + "ms"@));
            }
        }
    }
}

/// Where repos of several owners are listed, all of them with one, the owner of a
/// repo stands above the first of its rows; where they are not, there are rows
/// for the repos and no others.
pub proof fn law_owners_stand_above_their_repos(state: App, area: Rect, i: int)
    requires
        lists_repos(state, area),
        0 <= i < state.repos@.len(),
    ensures
        ({
            let t = listed(state, area);
            let r = row_of(state, i);
            let owner = |j: int| owner_of(state.repos@[j].spec@);
            let several = (exists|j: int|
                0 <= j < state.repos@.len() && owner_of((#[trigger] state.repos@[j]).spec@)
                    != owner(0)) && forall|j: int|
                0 <= j < state.repos@.len() ==> owner_of((#[trigger] state.repos@[j]).spec@).len()
                    > 0;
            &&& several && (i == 0 || owner(i - 1) != owner(i)) ==> r > 0 && t.rows[r
                - 1].cells.len() == 3 && told(t.rows[r - 1].cells[2]) == owner(i) + " ╌╌╌"@
            &&& several && i > 0 && owner(i - 1) == owner(i) ==> r == row_of(state, i - 1) + 1
            &&& !several ==> r == i && t.rows.len() == state.repos@.len()
        }),
{
    lemma_listed(state, area, i);
    let t = listed(state, area);
    let r = row_of(state, i);
    let repos = state.repos@;
    let n = repos.len() as int;
    let inner = Rect { x: (area.x + 1) as u16, width: less(area.width as int, 2) as u16, ..area };
    let cols = columns_for(inner.width);
    let live = shows_live(state, inner);
    let owners = grouped(repos);
    let names = owners_of(repos);
    let several = (exists|j: int|
        0 <= j < repos.len() && owner_of((#[trigger] repos[j]).spec@) != owner_of(repos[0].spec@))
        && forall|j: int| 0 <= j < repos.len() ==> owner_of((#[trigger] repos[j]).spec@).len() > 0;
    assert(several == worth_grouping(names)) by {
        if several {
            let j = choose|j: int|
                0 <= j < repos.len() && owner_of((#[trigger] repos[j]).spec@) != owner_of(
                    repos[0].spec@,
                );
            assert(names[j] != names[0]);
        }
        if worth_grouping(names) {
            let j = choose|j: int| 0 <= j < names.len() && #[trigger] names[j] != names[0];
            assert(owner_of(repos[j].spec@) != owner_of(repos[0].spec@));
            assert forall|j: int| 0 <= j < repos.len() implies owner_of(
                (#[trigger] repos[j]).spec@,
            ).len() > 0 by {
                assert(names[j].len() > 0);
            }
        }
    }
    reveal(repo_table);
    assert(t.rows == dash_rows(state, owners, cols, live, n));
    if several {
        if opens(owners, i) {
            lemma_heading_above(state, owners, cols, live, i, n);
            assert(told(heading_row(owners[i]).cells[2]) =~= owners[i] + " ╌╌╌"@);
        }
    } else {
        lemma_no_headings(i + 1);
        lemma_no_headings(n);
        law_rows_are_where_the_map_says(state, owners, cols, live, i, n);
    }
}

proof fn lemma_no_headings(n: int)
    ensures
        headings(Seq::empty(), n) == 0,
    decreases n,
{
    if n > 0 {
        lemma_no_headings(n - 1);
    }
}

proof fn lemma_heading_above(
    state: App,
    owners: Seq<Seq<char>>,
    cols: Columns,
    live: bool,
    i: int,
    n: int,
)
    requires
        0 <= i < n,
        opens(owners, i),
    ensures
        0 < line_of_row(owners, i) < dash_rows(state, owners, cols, live, n).len(),
        dash_rows(state, owners, cols, live, n)[line_of_row(owners, i) - 1] == heading_row(
            owners[i],
        ),
    decreases n,
{
    law_rows_are_where_the_map_says(state, owners, cols, live, i, n);
    let above = dash_rows(state, owners, cols, live, n - 1);
    if i < n - 1 {
        lemma_heading_above(state, owners, cols, live, i, n - 1);
    } else {
        if n - 1 > 0 {
            law_rows_are_where_the_map_says(state, owners, cols, live, n - 2, n - 1);
        }
        assert(above.len() == n - 1 + headings(owners, n - 1));
    }
}

/// How many ticks have passed since `then`.
pub open spec fn passed(then: u64, tick: u64) -> int {
    if tick > then {
        tick - then
    } else {
        0
    }
}

/// A row lies on the ground of how it stands: red when it could not be fetched, that
/// of its newest run's status once there is CI to show, and idle otherwise; every
/// other row is banded. A run that landed lights it for two dozen ticks in the colour
/// of how it ended, and any other change for ten in that of how it stands.
pub proof fn law_rows_lie_on_how_they_stand(state: App, area: Rect, i: int)
    requires
        lists_repos(state, area),
        0 <= i < state.repos@.len(),
    ensures
        ({
            let c = state.repos@[i];
            let r = row_of(state, i);
            let ci = c.error is None && c.has_ci && c.loaded;
            let status = if c.runs@.len() > 0 {
                c.runs@[0].status
            } else {
                Status::Unknown
            };
            listed(state, area).rows[r].style.bg == Some(
                Paint::Row {
                    base: if c.error is Some {
                        Role::RowFailure
                    } else if ci {
                        row_bg_for_status(status)
                    } else {
                        Role::RowIdle
                    },
                    glow: if ci && c.landing is Some && passed(c.landing->0.at, state.tick_count)
                        < 24 {
                        Some(
                            Glow {
                                tint: tint_of(c.landing->0.verdict),
                                by: Weight::Landing { at: c.landing->0.at },
                            },
                        )
                    } else if ci && c.changed_tick is Some && passed(
                        c.changed_tick->0,
                        state.tick_count,
                    ) < 10 {
                        Some(
                            Glow {
                                tint: tint_of(status),
                                by: Weight::Flash { at: c.changed_tick->0 },
                            },
                        )
                    } else {
                        None
                    },
                    odd: r % 2 == 1,
                    selected: i == state.repo_cursor,
                },
            )
        }),
{
    lemma_listed(state, area, i);
    reveal(card_row);
}

/// A repo that is still being fetched shows a rule of fourteen cells in place of its
/// run, of which the ones under the travelling light are heavy.
pub proof fn law_loading_rows_say_they_are(state: App, area: Rect, i: int)
    requires
        lists_repos(state, area),
        0 <= i < state.repos@.len(),
        state.repos@[i].error is None,
        state.repos@[i].has_ci,
        !state.repos@[i].loaded,
    ensures
        exists|k: int|
            #![trigger heads(listed(state, area), k, "Latest run"@)]
            {
                let cells = listed(state, area).rows[row_of(state, i)].cells;
                &&& heads(listed(state, area), k, "Latest run"@) && k < cells.len()
                &&& cells[k].lines.len() == 1 && cells[k].lines[0].spans.len() == 14
                &&& forall|j: int|
                    0 <= j < 14 ==> (#[trigger] cells[k].lines[0].spans[j]).text == (if j
                        == state.skeleton_head || j + 1 == state.skeleton_head {
                        "━"@
                    } else {
                        "─"@
                    })
            },
{
    lemma_listed(state, area, i);
    reveal(card_row);
    let t = listed(state, area);
    let inner = Rect { x: (area.x + 1) as u16, width: less(area.width as int, 2) as u16, ..area };
    let k = if shows_live(state, inner) {
        6int
    } else {
        5
    };
    assert(heads(t, k, "Latest run"@));
    assert(t.rows[row_of(state, i)].cells[k] == main_cell(state, state.repos@[i]));
}

/// The name of the repo that has been entered is bold, and no other is.
pub proof fn law_the_entered_repo_is_bold(state: App, c: RepoCard, owners: Seq<Seq<char>>)
    ensures
        name_cell(state, c, owners).lines[0].spans[1].style.bold <==> !state.repo_label_implicit
            && c.spec@ == state.repo_label@,
{
}

/// Every column of the table has a heading, a width, and a cell in each repo's row.
/// What is counted has room for its words: nine columns for changes, twelve for
/// services, ten for ages, and for a history its bars and nine more.
pub proof fn law_every_column_has_its_width(state: App, area: Rect, i: int)
    requires
        lists_repos(state, area),
        0 <= i < state.repos@.len(),
    ensures
        ({
            let t = listed(state, area);
            let n = t.header.len() as int;
            &&& t.widths.len() == n
            &&& t.rows[row_of(state, i)].cells.len() == n
            &&& t.widths[0] == Constraint::Length(1) && t.widths[1] == Constraint::Length(1)
            &&& heads(t, 4, "Changes"@) && t.widths[4] == Constraint::Length(9)
            &&& area.width >= 172 ==> t.widths[n - 1] == Constraint::Length(21)
            &&& 152 <= area.width < 172 ==> t.widths[n - 1] == Constraint::Length(17)
            &&& 102 <= area.width < 152 ==> t.widths[n - 1] == Constraint::Length(14)
            &&& area.width >= 102 ==> t.widths[n - 2] == Constraint::Length(10)
            &&& 82 <= area.width < 102 ==> t.widths[n - 1] == Constraint::Length(10)
        }),
{
    lemma_listed(state, area, i);
    reveal(card_row);
    reveal(repo_table);
}

} // verus!
