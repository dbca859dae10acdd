//! What the dialogs say.

use vstd::prelude::*;
use vstd::string::*;

use crate::columns::cut;
use crate::dashboard::staged;
use crate::geometry::{dialog, framed, no_padding, on_screen, Rect};
use crate::keys::shown;
use crate::list::first_where;
use crate::meaning::reading::{given, group_texts, law_counts_are_how_many, law_the_first_is_found, least, lemma_vec_len, said};
use crate::ops::OpV;
use crate::paint::{Paint, Role};
use crate::prompts::{commit_ops, dialog_width, field_spans, finder_label, finder_lines, finder_ops, has_options, list_len, list_start, match_line, name_width, prompt_hints, prompt_lines, prompt_ops, push_ops, push_question, rows_listed, search_ops};
use crate::state::{App, Finder, PromptField, TreeEntry, TriggerPrompt};
use crate::text::{align_left, dec, joined};


verus! {

broadcast use {vstd::string::group_string_axioms, group_texts};

/// Whether these are the operations of a dialog: what lies under it cleared, a
/// frame that says `title`, and lines inside.
pub open spec fn asks(ops: Seq<OpV>, title: Seq<char>) -> bool {
    &&& ops.len() == 3
    &&& ops[0] is Clear
    &&& ops[1] is Frame && ops[1]->border.top.len() == 1 && said(ops[1]->border.top[0]) == title
    &&& ops[2] is Text && ops[2]->scroll == 0
}

/// A log is searched for what is typed, shown before a caret; there is no dialog
/// while nothing is being typed.
pub proof fn law_what_is_searched_for_is_shown(state: App, area: Rect)
    ensures
        ({
            let ops = search_ops(state, area);
            match state.log.search_input {
                None => ops.len() == 0,
                Some(text) => asks(ops, " Search "@) && ops[2]->lines.len() == 1 && said(
                    ops[2]->lines[0],
                ) == "  "@ + text@ + "█"@,
            }
        }),
{
    let ops = search_ops(state, area);
    if state.log.search_input is Some {
        assert(said(ops[1]->border.top[0]) =~= " Search "@);
        assert(said(ops[2]->lines[0]) =~= "  "@ + state.log.search_input->0@ + "█"@);
    }
}

/// A commit is asked its message with the number of files that are staged, and
/// shows what has been typed of it.
pub proof fn law_a_commit_says_what_is_staged(state: App, area: Rect)
    ensures
        ({
            let ops = commit_ops(state, area);
            let asked = state.git_view matches Some(g) && g.commit_input is Some;
            &&& !asked ==> ops.len() == 0
            &&& asked ==> {
                let g = state.git_view->0;
                let n = if g.status is Some {
                    g.status->0.entries@.filter(|e: TreeEntry| e.staged).len()
                } else {
                    0
                };
                &&& asks(
                    ops,
                    " Commit "@ + dec(n) + " staged file"@ + given(n != 1, "s"@) + " "@,
                )
                &&& ops[2]->lines.len() == 2
                &&& said(ops[2]->lines[0]) == "  "@ + g.commit_input->0@ + "█"@
                &&& said(ops[2]->lines[1]) == "  ↵ commit · Esc cancel"@
            }
        }),
{
    let ops = commit_ops(state, area);
    if state.git_view matches Some(g) && g.commit_input is Some {
        let g = state.git_view->0;
        let n = if g.status is Some {
            g.status->0.entries@.filter(|e: TreeEntry| e.staged).len()
        } else {
            0
        };
        if g.status is Some {
            let v = g.status->0.entries;
            law_counts_are_how_many(v@, staged(), |e: TreeEntry| e.staged);
            crate::list::lemma_count(v@, staged());
            lemma_vec_len(v);
        }
        reveal_strlit("");
        assert(said(ops[1]->border.top[0]) =~= " Commit "@ + dec(n) + " staged file"@ + given(
            n != 1,
            "s"@,
        ) + " "@);
        assert(said(ops[2]->lines[0]) =~= "  "@ + g.commit_input->0@ + "█"@);
        assert(said(ops[2]->lines[1]) =~= "  ↵ commit · Esc cancel"@);
    }
}

/// The push question says what a yes would do: push so many repos, push a branch
/// that the remote has, or publish one that it has not. The answer that would be
/// taken is the lit one.
#[verifier::rlimit(40)]
pub proof fn law_the_push_question_says_what_yes_does(state: App, area: Rect)
    ensures
        ({
            let ops = push_ops(state, area);
            match state.push_prompt {
                None => ops.len() == 0,
                Some(p) => {
                    let lines = ops[2]->lines;
                    &&& asks(ops, " Push? "@)
                    &&& lines.len() == 4
                    &&& said(lines[0]) == cut(
                        match p.batch_count {
                            Some(n) => dec(n as nat) + " repo"@ + given(n != 1, "s"@)
                                + " committed — push them all?"@,
                            None => "committed — "@ + (if p.has_upstream {
                                "push "@
                            } else {
                                "publish "@
                            }) + p.branch@ + " to origin?"@,
                        },
                        framed(ops[1]->Frame_area, no_padding()).width as nat,
                    )
                    &&& said(lines[2]) == "  Yes  "@ + "   "@ + "  No  "@
                    &&& lines[2].spans.len() == 3
                    &&& (lines[2].spans[0].style.bg == Some(Paint::Plain(Role::Accent))) == p.yes
                    &&& (lines[2].spans[2].style.bg == Some(Paint::Plain(Role::Accent))) == !p.yes
                },
            }
        }),
{
    let ops = push_ops(state, area);
    if state.push_prompt is Some {
        let p = state.push_prompt->0;
        let lines = ops[2]->lines;
        reveal_strlit("");
        reveal_strlit("  ");
        reveal_strlit("Yes");
        reveal_strlit("No");
        reveal_strlit("  Yes  ");
        reveal_strlit("  No  ");
        reveal_strlit("committed — ");
        reveal_strlit("push ");
        reveal_strlit("publish ");
        reveal_strlit("committed — push ");
        reveal_strlit("committed — publish ");
        assert(said(ops[1]->border.top[0]) =~= " Push? "@);
        assert("committed — push "@ =~= "committed — "@ + "push "@);
        assert("committed — publish "@ =~= "committed — "@ + "publish "@);
        assert("  Yes  "@ =~= "  "@ + "Yes"@ + "  "@);
        assert("  No  "@ =~= "  "@ + "No"@ + "  "@);
        let q = match p.batch_count {
            Some(n) => dec(n as nat) + " repo"@ + given(n != 1, "s"@)
                + " committed — push them all?"@,
            None => "committed — "@ + (if p.has_upstream {
                "push "@
            } else {
                "publish "@
            }) + p.branch@ + " to origin?"@,
        };
        assert(push_question(p) =~= q);
        assert(said(lines[0]) =~= cut(q, framed(ops[1]->Frame_area, no_padding()).width as nat));
        assert(said(lines[2]) =~= "  Yes  "@ + "   "@ + "  No  "@);
    }
}

// ── The finder ─────────────────────────────────────────────────────────────

/// What a finder lists of match `k`: the item it stands for.
pub open spec fn match_says(f: Finder, k: int, width: int) -> Seq<char> {
    (if k == f.cursor {
        "▶ "@
    } else {
        "  "@
    }) + cut(
        if f.matches@[k] < f.items@.len() {
            f.items@[f.matches@[k] as int]@
        } else {
            ""@
        },
        (if width > 3 {
            width - 3
        } else {
            0
        }) as nat,
    )
}

/// How many of `n` matches are listed at once, `high` rows inside the dialog: a
/// dozen at most, what is left under the query and its rule, and always one.
pub open spec fn rows_for(n: int, high: int) -> int {
    let most = least(least(n, 12), high - 2);
    if most < 1 {
        1
    } else {
        most
    }
}

/// The finder is called after what it finds, how many of it match and how many
/// there are. Under what has been typed it lists matches without a gap, in their
/// order and from the first as long as the cursor is among them; the cursor's is
/// pointed at, and no other is.
#[verifier::rlimit(40)]
pub proof fn law_the_finder_lists_its_matches(state: App, area: Rect)
    requires
        state.finder is Some,
    ensures
        ({
            let f = state.finder->0;
            let ops = finder_ops(state, area);
            let inner = framed(ops[1]->Frame_area, no_padding());
            let lines = ops[2]->lines;
            let n = f.matches@.len() as int;
            let rows = rows_for(n, inner.height as int);
            let from = if f.cursor < rows {
                0
            } else {
                f.cursor - rows + 1
            };
            &&& asks(
                ops,
                " "@ + finder_label(f.kind)@ + "  ("@ + dec(f.matches@.len()) + "/"@ + dec(
                    f.items@.len(),
                ) + ") "@,
            )
            &&& lines.len() >= 2
            &&& said(lines[0]) == "  "@ + f.query@ + "█"@
            &&& n == 0 ==> lines.len() == 3 && said(lines[2]) == "  no matches"@
            &&& n > from ==> lines.len() == 2 + least(n - from, rows)
            &&& forall|k: int|
                #![trigger lines[2 + k]]
                0 <= k < least(n - from, rows) ==> said(lines[2 + k]) == match_says(
                    f,
                    from + k,
                    inner.width as int,
                )
        }),
{
    let f = state.finder->0;
    let ops = finder_ops(state, area);
    let inner = framed(ops[1]->Frame_area, no_padding());
    let lines = ops[2]->lines;
    let rows = rows_for(f.matches@.len() as int, inner.height as int);
    let from = if f.cursor < rows {
        0
    } else {
        f.cursor - rows + 1
    };
    assert(lines == finder_lines(f, inner));
    assert(rows == rows_listed(f, inner.height as int));
    assert(from == list_start(f, inner.height as int));
    assert(least(f.matches@.len() - from, rows) >= 0 ==> least(f.matches@.len() - from, rows)
        == list_len(f, inner.height as int));
    assert(said(ops[1]->border.top[0]) =~= " "@ + finder_label(f.kind)@ + "  ("@ + dec(
        f.matches@.len(),
    ) + "/"@ + dec(f.items@.len()) + ") "@);
    assert(said(lines[0]) =~= "  "@ + f.query@ + "█"@);
    if f.matches@.len() == 0 {
        assert(said(lines[2]) =~= "  no matches"@);
    }
    assert forall|k: int|
        #![trigger lines[2 + k]]
        0 <= k < least(f.matches@.len() - from, rows) implies said(lines[2 + k]) == match_says(
        f,
        from + k,
        inner.width as int,
    ) by {
        assert(lines[2 + k] == match_line(f, from + k, inner.width as int));
        assert(said(lines[2 + k]) =~= match_says(f, from + k, inner.width as int));
    }
}

// ── A workflow's inputs ────────────────────────────────────────────────────

/// What is said of an input: where the cursor is, its name in a column of its
/// own, its value or that it is empty, a caret while it is being edited; that the
/// value is from the last time, that there must be one, and what there is to
/// choose from.
pub open spec fn field_says(p: TriggerPrompt, i: int) -> Seq<char> {
    let f = p.fields@[i];
    (if i == p.cursor {
        "▶ "@
    } else {
        "  "@
    }) + align_left(f.name@, name_width(p.fields@, p.fields@.len() as int)) + "  "@ + (
    if f.value@.len() == 0 {
        "(empty)"@
    } else {
        f.value@
    }) + given(i == p.cursor && p.editing, "_"@) + given(f.recalled, "  ↺ last used"@) + given(
        f.required,
        "  (required)"@,
    ) + given(
        f.options is Some,
        "  ["@ + joined(f.options->0.deep_view(), "/"@, f.options->0@.len() as int) + "]"@,
    )
}

/// A workflow is started from a prompt that names it, its file and the branch, and
/// says of every input, in order, what it is called and what it is set to.
#[verifier::rlimit(40)]
pub proof fn law_every_input_is_shown(state: App, area: Rect)
    requires
        state.trigger_prompt is Some,
    ensures
        ({
            let p = state.trigger_prompt->0;
            let ops = prompt_ops(state, area);
            let lines = ops[1]->lines;
            let n = p.fields@.len();
            &&& ops.len() == 2 && ops[1] is Text
            &&& crate::meaning::reading::titled(
                ops[0],
                "Trigger: "@ + p.workflow_name@ + "  ("@ + p.workflow_file@ + ")  on "@
                    + state.current_branch@,
            )
            &&& n > 0 ==> lines.len() == n + 2
            &&& n == 0 ==> lines.len() == 3 && said(lines[0]) == "(no inputs)"@
            &&& forall|i: int|
                #![trigger lines[i]]
                0 <= i < n ==> said(lines[i]) == field_says(p, i)
            &&& said(lines.last()) == shown(state.keymap.tp_submit@) + " trigger  "@ + shown(
                state.keymap.back@,
            ) + " cancel"@ + (if exists|i: int|
                0 <= i < n && (#[trigger] p.fields@[i]).options is Some {
                "  Space"@ + " cycle"@
            } else {
                ""@
            })
        }),
{
    let p = state.trigger_prompt->0;
    let ops = prompt_ops(state, area);
    let lines = ops[1]->lines;
    let n = p.fields@.len();
    reveal_strlit("");
    assert(lines == prompt_lines(state, p));
    assert(said(ops[0]->border.top[0]) =~= "─┤ "@ + ("Trigger: "@ + p.workflow_name@ + "  ("@
        + p.workflow_file@ + ")  on "@ + state.current_branch@) + " ├"@);
    if n == 0 {
        assert(said(lines[0]) =~= "(no inputs)"@);
    }
    assert forall|i: int|
        #![trigger lines[i]]
        0 <= i < n implies said(lines[i]) == field_says(p, i) by {
        assert(lines[i].spans == field_spans(p, i));
        assert(said(lines[i]) =~= field_says(p, i));
    }
    law_the_first_is_found(p.fields@, has_options());
    let k = first_where(p.fields@, has_options()) as int;
    let lead = shown(state.keymap.tp_submit@) + " trigger  "@ + shown(state.keymap.back@)
        + " cancel"@;
    assert(lines.last().spans == prompt_hints(state, p));
    if exists|i: int| 0 <= i < n && (#[trigger] p.fields@[i]).options is Some {
        let i = choose|i: int| 0 <= i < n && (#[trigger] p.fields@[i]).options is Some;
        assert(has_options()(p.fields@[i]));
        assert(said(lines.last()) =~= lead + ("  Space"@ + " cycle"@));
    } else {
        if k < n {
            assert(p.fields@[k].options is Some);
        }
        assert(said(lines.last()) =~= lead + ""@);
    }
}

/// A dialog is centred over the screen, to within a column, and stands as far from
/// its top as asked.
pub proof fn law_dialogs_are_centred(area: Rect, w: u16, h: u16, below: u16)
    requires
        on_screen(area),
        w <= area.width,
        h <= area.height,
        below > 0,
    ensures
        ({
            let d = dialog(area, w, h, below);
            let left = d.x - area.x;
            let right = area.x + area.width - d.x - d.width;
            let over = d.y - area.y;
            &&& d.width == w && d.height == h
            &&& left >= 0 && (right == left || right == left + 1)
            &&& over >= 0 && over * below <= area.height - h < (over + 1) * below
        }),
{
    let spare = area.height - h;
    let over = spare / (below as int);
    assert(0 <= over <= spare && over * below <= spare < (over + 1) * below) by (nonlinear_arith)
        requires
            over == spare / (below as int),
            spare >= 0,
            below > 0,
    ;
}

/// A dialog takes its share of the width, forty columns at least and never more than
/// there are.
pub proof fn law_dialogs_take_their_share(area: Rect, percent: int)
    requires
        0 <= percent <= 100,
    ensures
        ({
            let w = dialog_width(area, percent);
            &&& 0 <= w <= area.width
            &&& area.width <= 40 ==> w == area.width
            &&& area.width > 40 ==> w >= 40 && (w == 40 || (w * 100 <= area.width * percent < (w
                + 1) * 100)) && (w == 40 ==> area.width * percent < 4100)
        }),
{
    assert(0 <= area.width * percent <= area.width * 100) by (nonlinear_arith)
        requires
            0 <= percent <= 100,
    ;
}

/// The finder is as tall as its matches need, a dozen at most and one at least, with
/// its frame, the query and the rule; or as tall as the screen.
pub proof fn law_the_finder_is_as_tall_as_its_matches(state: App, area: Rect)
    requires
        state.finder is Some,
    ensures
        ({
            let n = state.finder->0.matches@.len() as int;
            let rows = if n < 1 {
                1
            } else {
                least(n, 12)
            };
            finder_ops(state, area)[1]->Frame_area.height == least(rows + 4, area.height as int)
        }),
{
}

/// The match under the cursor is lit, and no other is.
pub proof fn law_the_match_under_the_cursor_is_lit(f: Finder, row: int, width: int)
    ensures
        ({
            let l = match_line(f, row, width);
            let here = row == f.cursor;
            &&& l.style.bg is Some <==> here
            &&& l.spans.last().style.bold <==> here
        }),
{
}

/// The input under the cursor is lit: its name and its value are bold, and the value
/// is in the accent's colour while it is being edited.
pub proof fn law_the_input_under_the_cursor_is_lit(p: TriggerPrompt, i: int)
    requires
        0 <= i < p.fields@.len(),
    ensures
        ({
            let v = field_spans(p, i);
            let here = i == p.cursor;
            &&& v.len() >= 5
            &&& v[1].style.bold <==> here
            &&& v[3].style.bold <==> here
            &&& v[3].style.fg == Some(Paint::Plain(Role::Accent)) <==> here && p.editing
        }),
{
}

/// The names of the inputs share a column: as wide as the longest of them, and eight
/// at least.
pub proof fn law_names_have_a_column(fields: Seq<PromptField>, n: int)
    requires
        0 <= n <= fields.len(),
    ensures
        name_width(fields, n) >= 8,
        forall|i: int| 0 <= i < n ==> (#[trigger] fields[i]).name@.len() <= name_width(fields, n),
        name_width(fields, n) > 8 ==> exists|i: int|
            0 <= i < n && (#[trigger] fields[i]).name@.len() == name_width(fields, n),
    decreases n,
{
    if n > 0 {
        law_names_have_a_column(fields, n - 1);
        let above = name_width(fields, n - 1);
        if fields[n - 1].name@.len() > above {
            assert(fields[n - 1].name@.len() == name_width(fields, n));
        } else if above > 8 {
            let i = choose|i: int|
                0 <= i < n - 1 && (#[trigger] fields[i]).name@.len() == above;
            assert(fields[i].name@.len() == name_width(fields, n));
        }
    }
}

} // verus!
