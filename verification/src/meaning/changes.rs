//! What the working tree's view says.

use vstd::prelude::*;
use vstd::string::*;

use crate::changes::{file_row, file_table, files, is_tree_view, label_style, op_body, op_height, op_ops, op_title, output_line, tree_cut, tree_line, tree_parts, tree_summary, tree_title};
use crate::columns::cut;
use crate::dashboard::{staged, unstaged};
use crate::geometry::{framed, no_padding, split_into, Rect};

use crate::meaning::reading::{given, group_texts, heads, law_counts_are_how_many, least, lemma_writes, said, tells, titled, told, writes};
use crate::ops::{plain_panel, OpV};
use crate::paint::{Paint, Role};
use crate::state::{App, GitOp, OutputLine, PullRequest, TreeEntry};
use crate::text::dec;
use crate::wrap::texts;

verus! {

broadcast use {vstd::string::group_string_axioms, group_texts};

/// Whether the view has room for more than its frame.
pub open spec fn has_room(area: Rect) -> bool {
    area.height >= 4
}

/// What follows the summary of a branch with a pull request open.
pub open spec fn pull_request(pr: Option<PullRequest>) -> Seq<char> {
    match pr {
        Some(p) => "   PR #"@ + dec(p.number as nat) + " "@ + cut(p.title@, 36) + given(
            p.draft,
            " · draft"@,
        ),
        None => Seq::empty(),
    }
}

proof fn lemma_summary_line(ops: Seq<OpV>, state: App, area: Rect) -> (k: int)
    requires
        is_tree_view(ops, state, area),
        state.git_view is Some,
        has_room(area),
    ensures
        0 <= k < ops.len(),
        ops[k] is Text,
        ops[k]->lines.len() == 1,
        ops[k]->lines[0].spans == tree_line(state, state.git_view->0),
        titled(ops[0], tree_title(state.git_view->0)),
        files(state.git_view->0).len() > 0 ==> k + 1 < ops.len() && ops[k + 1] is Grid
            && ops[k + 1]->table == file_table(
            files(state.git_view->0),
            state.git_view->0.cursor,
        ),
{
    let gv = state.git_view->0;
    let inner = framed(area, no_padding());
    let pieces = choose|pieces: Seq<Rect>| #[trigger]
        split_into(pieces, true, tree_cut(state, inner), inner) && ops == seq![
            OpV::Frame { area, border: plain_panel(tree_title(gv)) },
        ] + tree_parts(state, gv, pieces);
    let pane = match state.current_op {
        Some(op) => op_ops(state, op, pieces[2]),
        None => Seq::empty(),
    };
    let k = 1 + pane.len() as int;
    assert(tree_parts(state, gv, pieces)[pane.len() as int] is Text);
    assert(ops[k] == tree_parts(state, gv, pieces)[pane.len() as int]);
    if files(gv).len() > 0 {
        assert(ops[k + 1] == tree_parts(state, gv, pieces)[pane.len() as int + 1]);
    }
    assert(ops[0] == OpV::Frame { area, border: plain_panel(tree_title(gv)) });
    assert(said(ops[0]->border.top[0]) =~= "─┤ "@ + tree_title(gv) + " ├"@);
    k
}

/// The number before `staged` is how many files have anything staged, and the
/// number before `unstaged` how many have anything that is not.
pub proof fn law_the_summary_counts_each_side(ops: Seq<OpV>, state: App, area: Rect)
    requires
        is_tree_view(ops, state, area),
        has_room(area),
        state.git_view is Some,
        state.git_view->0.status is Some,
        state.git_view->0.status->0.entries@.len() > 0,
    ensures
        ({
            let gv = state.git_view->0;
            let entries = gv.status->0.entries@;
            writes(
                ops,
                dec(entries.filter(|e: TreeEntry| e.staged).len()) + " staged   "@ + dec(
                    entries.filter(|e: TreeEntry| e.unstaged).len(),
                ) + " unstaged   "@ + gv.path@ + pull_request(gv.open_pr),
            )
        }),
{
    let k = lemma_summary_line(ops, state, area);
    let gv = state.git_view->0;
    let entries = gv.status->0.entries@;
    let ready = entries.filter(|e: TreeEntry| e.staged).len();
    let rest = entries.filter(|e: TreeEntry| e.unstaged).len();
    law_counts_are_how_many(entries, staged(), |e: TreeEntry| e.staged);
    law_counts_are_how_many(entries, unstaged(), |e: TreeEntry| e.unstaged);
    reveal_strlit("   ");
    reveal_strlit(" staged");
    reveal_strlit(" staged   ");
    reveal_strlit(" unstaged");
    reveal_strlit(" unstaged   ");
    assert(" staged"@ + "   "@ =~= " staged   "@);
    assert(" unstaged"@ + "   "@ =~= " unstaged   "@);
    let words = dec(ready) + " staged   "@ + dec(rest) + " unstaged   "@ + gv.path@;
    assert(texts(tree_summary(state, gv)) =~= words);
    assert(said(ops[k]->lines[0]) =~= words + pull_request(gv.open_pr));
    lemma_writes(ops, k, 0, words + pull_request(gv.open_pr));
}

/// A tree with no changed file is called clean, and what is left to do with it
/// is said: to push what it is ahead by, or nothing.
pub proof fn law_clean_trees_say_so(ops: Seq<OpV>, state: App, area: Rect)
    requires
        is_tree_view(ops, state, area),
        has_room(area),
        state.git_view is Some,
        state.git_view->0.status is Some,
        state.git_view->0.status->0.entries@.len() == 0,
    ensures
        ({
            let gv = state.git_view->0;
            let ahead = gv.status->0.ahead;
            writes(
                ops,
                "✓ clean"@ + (if ahead == 0 {
                    "   nothing to commit"@
                } else {
                    "   ↑"@ + dec(ahead as nat) + " commit"@ + given(ahead > 1, "s"@)
                        + " not pushed"@ + ("   "@ + state.keymap.git_push@ + " pushes"@)
                }) + pull_request(gv.open_pr),
            )
        }),
{
    let k = lemma_summary_line(ops, state, area);
    let gv = state.git_view->0;
    let ahead = gv.status->0.ahead;
    reveal_strlit("");
    let words = "✓ clean"@ + (if ahead == 0 {
        "   nothing to commit"@
    } else {
        "   ↑"@ + dec(ahead as nat) + " commit"@ + given(ahead > 1, "s"@) + " not pushed"@ + ("   "@
            + state.keymap.git_push@ + " pushes"@)
    });
    assert(texts(tree_summary(state, gv)) =~= words);
    assert(said(ops[k]->lines[0]) =~= words + pull_request(gv.open_pr));
    lemma_writes(ops, k, 0, words + pull_request(gv.open_pr));
}

/// The panel is called after the repo and its branch; how far the branch is
/// ahead and behind is said where it is, and so is that it tracks nothing.
pub proof fn law_the_tree_is_titled(ops: Seq<OpV>, state: App, area: Rect)
    requires
        is_tree_view(ops, state, area),
        has_room(area),
        state.git_view is Some,
        state.git_view->0.status is Some,
    ensures
        ({
            let gv = state.git_view->0;
            let s = gv.status->0;
            titled(
                ops[0],
                gv.spec@ + " — "@ + s.branch@ + given(s.ahead > 0, "  ↑"@ + dec(s.ahead as nat))
                    + given(s.behind > 0, "  ↓"@ + dec(s.behind as nat)) + given(
                    !s.has_upstream,
                    "  (no upstream)"@,
                ),
            )
        }),
{
    let k = lemma_summary_line(ops, state, area);
    let gv = state.git_view->0;
    let s = gv.status->0;
    assert(tree_title(gv) =~= gv.spec@ + " — "@ + s.branch@ + given(
        s.ahead > 0,
        "  ↑"@ + dec(s.ahead as nat),
    ) + given(s.behind > 0, "  ↓"@ + dec(s.behind as nat)) + given(
        !s.has_upstream,
        "  (no upstream)"@,
    ));
}

/// Every changed file has its row, in order, and the cursor's is the lit one. A
/// row says what happened to the file and which file it is, behind a full mark
/// when all of it is staged, half a mark when some is, and a hollow one when
/// nothing is.
pub proof fn law_every_changed_file_is_listed(ops: Seq<OpV>, state: App, area: Rect)
    requires
        is_tree_view(ops, state, area),
        has_room(area),
        state.git_view is Some,
        state.git_view->0.status is Some,
        state.git_view->0.status->0.entries@.len() > 0,
    ensures
        ({
            let gv = state.git_view->0;
            let entries = gv.status->0.entries@;
            exists|k: int|
                #![trigger ops[k]->table]
                {
                    let t = ops[k]->table;
                    &&& 0 <= k < ops.len() && ops[k] is Grid
                    &&& t.rows.len() == entries.len()
                    &&& t.selected == Some(gv.cursor)
                    &&& forall|r: int|
                        #![trigger t.rows[r]]
                        0 <= r < entries.len() ==> {
                            &&& tells(t, r, "Change"@, entries[r].label@)
                            &&& tells(t, r, "File"@, entries[r].path@)
                            &&& told(t.rows[r].cells[1]) == entries[r].code@
                            &&& told(t.rows[r].cells[0]) == (if !entries[r].staged {
                                "○"@
                            } else if entries[r].unstaged {
                                "◐"@
                            } else {
                                "●"@
                            })
                        }
                }
        }),
{
    let k = lemma_summary_line(ops, state, area);
    let gv = state.git_view->0;
    let entries = gv.status->0.entries@;
    let t = ops[k + 1]->table;
    assert(heads(t, 2, "Change"@)) by {
        assert(told(t.header[2]) =~= "Change"@);
    }
    assert(heads(t, 3, "File"@)) by {
        assert(told(t.header[3]) =~= "File"@);
    }
    assert forall|r: int|
        #![trigger t.rows[r]]
        0 <= r < entries.len() implies {
        &&& tells(t, r, "Change"@, entries[r].label@)
        &&& tells(t, r, "File"@, entries[r].path@)
        &&& told(t.rows[r].cells[1]) == entries[r].code@
        &&& told(t.rows[r].cells[0]) == (if !entries[r].staged {
            "○"@
        } else if entries[r].unstaged {
            "◐"@
        } else {
            "●"@
        })
    } by {
        assert(t.rows[r] == file_row(entries[r]));
        assert(told(t.rows[r].cells[2]) =~= entries[r].label@);
        assert(told(t.rows[r].cells[3]) =~= entries[r].path@);
        assert(told(t.rows[r].cells[1]) =~= entries[r].code@);
        let m = if !entries[r].staged {
            "○"@
        } else if entries[r].unstaged {
            "◐"@
        } else {
            "●"@
        };
        assert(told(t.rows[r].cells[0]) =~= m);
    }
    let k2 = k + 1;
    assert(ops[k2]->table == t);
}

/// The first line on screen of a command's output: the first of the last page unless
/// it is held, and otherwise the line it is held at, or as near to it as still fills
/// the pane.
pub open spec fn output_top(op: GitOp, rows: int) -> int {
    let last = if op.lines@.len() <= rows {
        0
    } else {
        op.lines@.len() - rows
    };
    match op.held {
        None => last,
        Some(h) => least(h as int, last),
    }
}

/// A command's output is followed: unless it is held, the last line on screen is the
/// last line written. No line from the first on screen on is left out, and none of a
/// short output is.
pub proof fn law_output_is_followed(op: GitOp, rows: int)
    requires
        rows > 0,
        op.lines@.len() > 0,
        op.dropped == 0 || output_top(op, rows) > 0,
    ensures
        ({
            let body = op_body(op, rows);
            let all = op.lines@;
            &&& body.len() == least(all.len() as int, rows)
            &&& forall|k: int|
                0 <= k < body.len() ==> said(#[trigger] body[k]) == all[output_top(op, rows)
                    + k].text@
            &&& op.held is None ==> said(body.last()) == all.last().text@
        }),
{
    let body = op_body(op, rows);
    let all = op.lines@;
    let first = output_top(op, rows);
    assert forall|k: int| 0 <= k < body.len() implies said(#[trigger] body[k]) == all[first
        + k].text@ by {
        assert(said(body[k]) =~= all[first + k].text@);
    }
}

/// When the start of a long output was let go, what is on screen of its first
/// page says how much, above the oldest lines there are.
pub proof fn law_dropped_output_is_owned_up_to(op: GitOp, rows: int)
    requires
        rows > 0,
        op.dropped > 0,
        output_top(op, rows) == 0,
    ensures
        ({
            let body = op_body(op, rows);
            &&& body.len() == least(1 + op.lines@.len() as int, rows)
            &&& said(body[0]) == "⋯ "@ + dec(op.dropped as nat) + " earlier lines dropped ⋯"@
            &&& forall|k: int|
                1 <= k < body.len() ==> said(#[trigger] body[k]) == op.lines@[k - 1].text@
        }),
{
    let body = op_body(op, rows);
    assert(said(body[0]) =~= "⋯ "@ + dec(op.dropped as nat) + " earlier lines dropped ⋯"@);
    assert forall|k: int| 1 <= k < body.len() implies said(#[trigger] body[k])
        == op.lines@[k - 1].text@ by {
        assert(said(body[k]) =~= op.lines@[k - 1].text@);
    }
}

/// A line of output wears what it was found to be: an error first, a warning
/// next, and nothing of either otherwise.
pub proof fn law_output_wears_its_kind(l: OutputLine)
    ensures
        ({
            let ink = output_line(l).spans[0].style.fg;
            &&& l.error <==> ink == Some(Paint::Plain(Role::Failure))
            &&& !l.error && l.warn <==> ink == Some(Paint::Plain(Role::Warning))
        }),
{
}

/// The pane of a command shows its output, under what the command is and how it
/// stands: going, for how long; failed, and with how many errors; or done.
pub proof fn law_the_pane_says_how_the_command_stands(state: App, op: GitOp, area: Rect)
    ensures
        ({
            let ops = op_ops(state, op, area);
            &&& ops.len() > 0 && ops[0] is Frame && ops[0]->border.top.len() == 1
            &&& said(ops[0]->border.top[0]) == " "@ + (if !op.finished {
                state.spinner_slow@ + " "@ + op.label@ + " · "@ + dec(op.elapsed_secs as nat)
                    + "s"@
            } else if op.failed {
                "✗ "@ + op.label@ + " failed"@ + given(
                    op.errors > 0,
                    " · "@ + dec(op.errors as nat) + "✗"@,
                )
            } else {
                "✓ "@ + op.label@
            }) + " "@
            &&& area.height > 2 ==> ops.last() is Text && ops.last()->lines == op_body(
                op,
                area.height - 2,
            )
        }),
{
    reveal(op_ops);
    reveal_strlit("");
    let ops = op_ops(state, op, area);
    assert(said(ops[0]->border.top[0]) =~= " "@ + op_title(state, op) + " "@);
    assert(op_title(state, op) =~= (if !op.finished {
        state.spinner_slow@ + " "@ + op.label@ + " · "@ + dec(op.elapsed_secs as nat) + "s"@
    } else if op.failed {
        "✗ "@ + op.label@ + " failed"@ + given(
            op.errors > 0,
            " · "@ + dec(op.errors as nat) + "✗"@,
        )
    } else {
        "✓ "@ + op.label@
    }));
}

/// Until a tree has been read that is what is said of it.
pub proof fn law_unread_trees_say_so(ops: Seq<OpV>, state: App, area: Rect)
    requires
        is_tree_view(ops, state, area),
        has_room(area),
        state.git_view is Some,
        state.git_view->0.status is None,
    ensures
        ({
            let gv = state.git_view->0;
            &&& writes(ops, "reading working tree…"@ + pull_request(gv.open_pr))
            &&& titled(ops[0], gv.spec@ + " — loading…"@)
        }),
{
    let k = lemma_summary_line(ops, state, area);
    let gv = state.git_view->0;
    let words = "reading working tree…"@;
    assert(texts(tree_summary(state, gv)) =~= words);
    assert(said(ops[k]->lines[0]) =~= words + pull_request(gv.open_pr));
    lemma_writes(ops, k, 0, words + pull_request(gv.open_pr));
}

/// What happened to a file is red when it is gone or in conflict, bold in conflict
/// alone, quiet when nothing tracks it, and amber otherwise.
pub proof fn law_changes_wear_their_kind(label: Seq<char>)
    ensures
        label_style(label).fg == Some(Paint::Plain(Role::Failure)) <==> label == "deleted"@ || label
            == "conflict"@,
        label_style(label).fg == Some(Paint::Plain(Role::TextMuted)) <==> label == "untracked"@,
        label_style(label).bold <==> label == "conflict"@,
{
    reveal_strlit("deleted");
    reveal_strlit("conflict");
    reveal_strlit("untracked");
    assert("deleted"@.len() == 7 && "conflict"@.len() == 8 && "untracked"@.len() == 9);
}

/// The pane of a command is as tall as its output with its frame and a row to spare,
/// six rows at least and half the view at most, and leaves the files four rows.
pub proof fn law_the_pane_leaves_the_files_room(op: GitOp, inner: Rect)
    requires
        inner.height >= 4,
        op.lines@.len() <= 0xffff,
    ensures
        ({
            let h = op_height(op, inner);
            let most = if inner.height / 2 < 6 {
                6
            } else {
                inner.height as int / 2
            };
            let wanted = op.lines@.len() + 3;
            &&& 0 <= h <= inner.height - 4
            &&& h <= most
            &&& h == inner.height - 4 || h == most || h == wanted || (h == 6 && wanted < 6)
            &&& h < inner.height - 4 && h < most ==> h >= wanted
        }),
{
}

} // verus!
