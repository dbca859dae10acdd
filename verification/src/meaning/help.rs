//! What the help says: the reference, the card, and the rail of a command's pane.

use vstd::prelude::*;
use vstd::string::*;

use crate::geometry::Rect;
use crate::help::{built_lines, card_columns, card_rail, card_sections, desc_spans, filtered, floated, heading, is_help_card, row_line, row_lines, rows_lines, section_lines, titled as called, content_height, card_height, two_columns, card_border, card_width, column_width, key_column, line_count, longest_in, longest_key, poured, risen_line, risen_lines};
use crate::keys::{help_section_for, op_rail, pair, rail_kept, rail_spans, rail_text, reference, shown, HintV, SectionV};
use crate::list::first_where;
use crate::meaning::reading::{given, group_texts, law_the_first_is_found, said};
use crate::ops::{OpV, Reading};
use crate::paint::{bg, plain, sp, LineV, Paint, Role, SpanV, Style};
use crate::state::{App, GitOp, Keymap, Screen};
use crate::text::{align_right, dec, holds, holds_at, trimmed, words};
use crate::wrap::{alike, covered, covered_by, covers, cut_at, folded, folded_terms, highlighted, law_highlighting_keeps_the_text, lower_case, lower_terms, marks, row_matches, texts, wrapped};

verus! {

broadcast use {vstd::string::group_string_axioms, group_texts};

// ── The reference ──────────────────────────────────────────────────────────

/// The reference says what each key that works everywhere does.
pub proof fn law_the_global_reference(km: Keymap)
    ensures
        ({
            let s = reference(km)[0];
            &&& s.0 == "Global"@
            &&& s.1.len() == 13
            &&& s.1.contains((pair(km.down@, km.up@), "move cursor"@))
            &&& s.1.contains(("↵"@, "open / drill in"@))
            &&& s.1.contains((shown(km.back@) + "/⌫"@, "back one view"@))
            &&& s.1.contains((shown(km.finder@), "fuzzy find in the current list"@))
            &&& s.1.contains((shown(km.refresh@), "re-fetch whatever this screen shows"@))
            &&& s.1.contains((shown(km.repos_view@), "multi-repo dashboard"@))
            &&& s.1.contains((shown(km.services@), "service health, by monitor name"@))
            &&& s.1.contains((shown(km.snooze@), "snooze notifications — 30m, 60m, off"@))
            &&& s.1.contains((shown(km.open_browser@), "open in browser"@))
            &&& s.1.contains((shown(km.yank@), "copy the selection to the clipboard"@))
            &&& s.1.contains(("click"@, "select a row — again to open; wheel scrolls"@))
            &&& s.1.contains((shown(km.help@), "this help"@))
            &&& s.1.contains((shown(km.quit@), "quit"@))
        }),
{
    let s = reference(km)[0];
    assert(s.1[0] == (pair(km.down@, km.up@), "move cursor"@));
    assert(s.1[1] == ("↵"@, "open / drill in"@));
    assert(s.1[2] == (shown(km.back@) + "/⌫"@, "back one view"@));
    assert(s.1[3] == (shown(km.finder@), "fuzzy find in the current list"@));
    assert(s.1[4] == (shown(km.refresh@), "re-fetch whatever this screen shows"@));
    assert(s.1[5] == (shown(km.repos_view@), "multi-repo dashboard"@));
    assert(s.1[6] == (shown(km.services@), "service health, by monitor name"@));
    assert(s.1[7] == (shown(km.snooze@), "snooze notifications — 30m, 60m, off"@));
    assert(s.1[8] == (shown(km.open_browser@), "open in browser"@));
    assert(s.1[9] == (shown(km.yank@), "copy the selection to the clipboard"@));
    assert(s.1[10] == ("click"@, "select a row — again to open; wheel scrolls"@));
    assert(s.1[11] == (shown(km.help@), "this help"@));
    assert(s.1[12] == (shown(km.quit@), "quit"@));
}

/// The reference says what each key of the dashboard does.
pub proof fn law_the_repos_reference(km: Keymap)
    ensures
        ({
            let s = reference(km)[1];
            &&& s.0 == "Repos — dashboard"@
            &&& s.1.len() == 5
            &&& s.1.contains(("↵"@, "switch to this repo"@))
            &&& s.1.contains((shown(km.git_view@), "review local changes"@))
            &&& s.1.contains((shown(km.repo_mark@), "mark / unmark this repo for a batch commit"@))
            &&& s.1.contains((shown(km.batch_commit@), "commit every marked repo with one message"@))
            &&& s.1.contains((shown(km.open_browser@), "open the repo's Actions page"@))
        }),
{
    let s = reference(km)[1];
    assert(s.1[0] == ("↵"@, "switch to this repo"@));
    assert(s.1[1] == (shown(km.git_view@), "review local changes"@));
    assert(s.1[2] == (shown(km.repo_mark@), "mark / unmark this repo for a batch commit"@));
    assert(s.1[3] == (shown(km.batch_commit@), "commit every marked repo with one message"@));
    assert(s.1[4] == (shown(km.open_browser@), "open the repo's Actions page"@));
}

/// The reference says what each key of a batch commit does.
pub proof fn law_the_batch_reference(km: Keymap)
    ensures
        ({
            let s = reference(km)[2];
            &&& s.0 == "Batch commit"@
            &&& s.1.len() == 8
            &&& s.1.contains(("↵"@, "start — stages everything and commits each repo in turn"@))
            &&& s.1.contains((shown(km.batch_retry@), "retry the repo that failed"@))
            &&& s.1.contains((shown(km.batch_skip@), "skip it and carry on"@))
            &&& s.1.contains((shown(km.git_view@), "open the failed repo's working tree to fix it"@))
            &&& s.1.contains((pair(km.down@, km.up@), "scroll the hook output"@))
            &&& s.1.contains((pair(km.next_error@, km.prev_error@), "next / previous error"@))
            &&& s.1.contains((shown(km.git_push@), "push everything the batch committed"@))
            &&& s.1.contains((shown(km.back@), "stop — repos already committed keep their commits"@))
        }),
{
    let s = reference(km)[2];
    assert(s.1[0] == ("↵"@, "start — stages everything and commits each repo in turn"@));
    assert(s.1[1] == (shown(km.batch_retry@), "retry the repo that failed"@));
    assert(s.1[2] == (shown(km.batch_skip@), "skip it and carry on"@));
    assert(s.1[3] == (shown(km.git_view@), "open the failed repo's working tree to fix it"@));
    assert(s.1[4] == (pair(km.down@, km.up@), "scroll the hook output"@));
    assert(s.1[5] == (pair(km.next_error@, km.prev_error@), "next / previous error"@));
    assert(s.1[6] == (shown(km.git_push@), "push everything the batch committed"@));
    assert(s.1[7] == (shown(km.back@), "stop — repos already committed keep their commits"@));
}

/// The reference says what each key of the working tree does.
pub proof fn law_the_changes_reference(km: Keymap)
    ensures
        ({
            let s = reference(km)[3];
            &&& s.0 == "Changes — working tree"@
            &&& s.1.len() == 11
            &&& s.1.contains((shown(km.git_stage@), "stage / unstage the selected file"@))
            &&& s.1.contains((shown(km.git_stage_all@), "stage all"@))
            &&& s.1.contains((shown(km.git_commit@), "commit (opens a message prompt)"@))
            &&& s.1.contains((shown(km.git_push@), "push — sets upstream on first push"@))
            &&& s.1.contains((shown(km.trigger@), "open this repo's workflows to run CI"@))
            &&& s.1.contains((shown(km.open_browser@), "open the branch's PR — or the page that creates one"@))
            &&& s.1.contains((shown(km.git_diff@) + "/↵"@, "diff every changed file, from this one"@))
            &&& s.1.contains((pair(km.down@, km.up@), "scroll the hook output, while a commit/push is showing it"@))
            &&& s.1.contains((pair(km.next_error@, km.prev_error@), "next / previous error in that output"@))
            &&& s.1.contains((shown(km.yank@), "yank the whole hook output"@))
            &&& s.1.contains((shown(km.back@), "dismiss the output of a failed commit/push"@))
        }),
{
    let s = reference(km)[3];
    assert(s.1[0] == (shown(km.git_stage@), "stage / unstage the selected file"@));
    assert(s.1[1] == (shown(km.git_stage_all@), "stage all"@));
    assert(s.1[2] == (shown(km.git_commit@), "commit (opens a message prompt)"@));
    assert(s.1[3] == (shown(km.git_push@), "push — sets upstream on first push"@));
    assert(s.1[4] == (shown(km.trigger@), "open this repo's workflows to run CI"@));
    assert(s.1[5] == (shown(km.open_browser@), "open the branch's PR — or the page that creates one"@));
    assert(s.1[6] == (shown(km.git_diff@) + "/↵"@, "diff every changed file, from this one"@));
    assert(s.1[7] == (pair(km.down@, km.up@), "scroll the hook output, while a commit/push is showing it"@));
    assert(s.1[8] == (pair(km.next_error@, km.prev_error@), "next / previous error in that output"@));
    assert(s.1[9] == (shown(km.yank@), "yank the whole hook output"@));
    assert(s.1[10] == (shown(km.back@), "dismiss the output of a failed commit/push"@));
}

/// The reference says what each key of the diff does.
pub proof fn law_the_diff_reference(km: Keymap)
    ensures
        ({
            let s = reference(km)[4];
            &&& s.0 == "Diff — file changes"@
            &&& s.1.len() == 7
            &&& s.1.contains(("layout"@, "side by side — unified when the terminal is narrow"@))
            &&& s.1.contains((pair(km.down@, km.up@), "scroll"@))
            &&& s.1.contains((pair(km.page_down@, km.page_up@), "page"@))
            &&& s.1.contains((pair(km.scroll_top@, km.scroll_bottom@), "top / bottom"@))
            &&& s.1.contains((pair(km.next_step@, km.prev_step@), "next / previous changed file"@))
            &&& s.1.contains((shown(km.git_stage@), "stage / unstage this file"@))
            &&& s.1.contains((shown(km.back@), "back to the file list"@))
        }),
{
    let s = reference(km)[4];
    assert(s.1[0] == ("layout"@, "side by side — unified when the terminal is narrow"@));
    assert(s.1[1] == (pair(km.down@, km.up@), "scroll"@));
    assert(s.1[2] == (pair(km.page_down@, km.page_up@), "page"@));
    assert(s.1[3] == (pair(km.scroll_top@, km.scroll_bottom@), "top / bottom"@));
    assert(s.1[4] == (pair(km.next_step@, km.prev_step@), "next / previous changed file"@));
    assert(s.1[5] == (shown(km.git_stage@), "stage / unstage this file"@));
    assert(s.1[6] == (shown(km.back@), "back to the file list"@));
}

/// The reference says what each key of the workflows does.
pub proof fn law_the_workflows_reference(km: Keymap)
    ensures
        ({
            let s = reference(km)[5];
            &&& s.0 == "Workflows"@
            &&& s.1.len() == 3
            &&& s.1.contains(("↵"@, "list runs"@))
            &&& s.1.contains((shown(km.trigger@), "trigger"@))
            &&& s.1.contains((shown(km.watch@), "watch the latest run"@))
        }),
{
    let s = reference(km)[5];
    assert(s.1[0] == ("↵"@, "list runs"@));
    assert(s.1[1] == (shown(km.trigger@), "trigger"@));
    assert(s.1[2] == (shown(km.watch@), "watch the latest run"@));
}

/// The reference says what each key of the runs does.
pub proof fn law_the_runs_reference(km: Keymap)
    ensures
        ({
            let s = reference(km)[6];
            &&& s.0 == "Runs"@
            &&& s.1.len() == 6
            &&& s.1.contains(("↵"@, "run detail"@))
            &&& s.1.contains((shown(km.trigger@), "trigger"@))
            &&& s.1.contains((shown(km.rerun@), "rerun all jobs"@))
            &&& s.1.contains((shown(km.rerun_failed@), "rerun failed jobs"@))
            &&& s.1.contains((shown(km.cancel_run@), "cancel"@))
            &&& s.1.contains((shown(km.watch@), "watch"@))
        }),
{
    let s = reference(km)[6];
    assert(s.1[0] == ("↵"@, "run detail"@));
    assert(s.1[1] == (shown(km.trigger@), "trigger"@));
    assert(s.1[2] == (shown(km.rerun@), "rerun all jobs"@));
    assert(s.1[3] == (shown(km.rerun_failed@), "rerun failed jobs"@));
    assert(s.1[4] == (shown(km.cancel_run@), "cancel"@));
    assert(s.1[5] == (shown(km.watch@), "watch"@));
}

/// The reference says what each key of a run does.
pub proof fn law_the_detail_reference(km: Keymap)
    ensures
        ({
            let s = reference(km)[7];
            &&& s.0 == "Run detail"@
            &&& s.1.len() == 2
            &&& s.1.contains(("↵/"@ + shown(km.open_logs@), "open logs"@))
            &&& s.1.contains((shown(km.diff@), "diff against the last successful run"@))
        }),
{
    let s = reference(km)[7];
    assert(s.1[0] == ("↵/"@ + shown(km.open_logs@), "open logs"@));
    assert(s.1[1] == (shown(km.diff@), "diff against the last successful run"@));
}

/// The reference says what each key of the log does.
pub proof fn law_the_logs_reference(km: Keymap)
    ensures
        ({
            let s = reference(km)[8];
            &&& s.0 == "Logs"@
            &&& s.1.len() == 8
            &&& s.1.contains((pair(km.page_down@, km.page_up@), "page down / up"@))
            &&& s.1.contains((pair(km.scroll_top@, km.scroll_bottom@), "top / bottom"@))
            &&& s.1.contains((pair(km.next_step@, km.prev_step@), "next / previous step"@))
            &&& s.1.contains((shown(km.all_steps@), "show all steps"@))
            &&& s.1.contains((shown(km.search@), "search (then n/p cycle matches)"@))
            &&& s.1.contains((pair(km.next_error@, km.prev_error@), "next / previous error"@))
            &&& s.1.contains((shown(km.log_focus@), "focus mode — fold everything but errors"@))
            &&& s.1.contains(("↵"@, "expand a fold, or collapse a group"@))
        }),
{
    let s = reference(km)[8];
    assert(s.1[0] == (pair(km.page_down@, km.page_up@), "page down / up"@));
    assert(s.1[1] == (pair(km.scroll_top@, km.scroll_bottom@), "top / bottom"@));
    assert(s.1[2] == (pair(km.next_step@, km.prev_step@), "next / previous step"@));
    assert(s.1[3] == (shown(km.all_steps@), "show all steps"@));
    assert(s.1[4] == (shown(km.search@), "search (then n/p cycle matches)"@));
    assert(s.1[5] == (pair(km.next_error@, km.prev_error@), "next / previous error"@));
    assert(s.1[6] == (shown(km.log_focus@), "focus mode — fold everything but errors"@));
    assert(s.1[7] == ("↵"@, "expand a fold, or collapse a group"@));
}

/// The reference says what each key of the inputs does.
pub proof fn law_the_trigger_reference(km: Keymap)
    ensures
        ({
            let s = reference(km)[9];
            &&& s.0 == "Trigger prompt"@
            &&& s.1.len() == 4
            &&& s.1.contains(("↵/"@ + shown(km.tp_edit@), "edit the field"@))
            &&& s.1.contains((shown(km.tp_cycle@), "cycle a choice field"@))
            &&& s.1.contains((shown(km.tp_submit@), "submit"@))
            &&& s.1.contains((shown(km.back@), "cancel"@))
        }),
{
    let s = reference(km)[9];
    assert(s.1[0] == ("↵/"@ + shown(km.tp_edit@), "edit the field"@));
    assert(s.1[1] == (shown(km.tp_cycle@), "cycle a choice field"@));
    assert(s.1[2] == (shown(km.tp_submit@), "submit"@));
    assert(s.1[3] == (shown(km.back@), "cancel"@));
}

/// Every screen's section is the one that tells of it.
pub proof fn law_screens_have_their_section(view: Screen)
    ensures
        help_section_for(view)@ == (match view {
            Screen::Repos => "Repos — dashboard"@,
            Screen::BatchCommit => "Batch commit"@,
            Screen::GitStatus => "Changes — working tree"@,
            Screen::GitDiff => "Diff — file changes"@,
            Screen::Workflows => "Workflows"@,
            Screen::Runs | Screen::Watch => "Runs"@,
            Screen::RunDetail | Screen::Diff => "Run detail"@,
            Screen::Logs => "Logs"@,
            Screen::TriggerPrompt => "Trigger prompt"@,
        }),
{
}

// ── The card ───────────────────────────────────────────────────────────────

/// Whether a row is found by a query: every term of it occurs in the key or in what
/// it does, in small letters.
pub proof fn law_rows_are_found_by_their_words(key: Seq<char>, desc: Seq<char>, query: Seq<char>)
    ensures
        row_matches(key, desc, query) <==> forall|k: int|
            0 <= k < words(query).len() ==> holds(
                lower_case(key + " "@ + desc),
                lower_case(#[trigger] words(query)[k]),
            ),
{
    let hay = lower_case(key + " "@ + desc);
    let terms = lower_terms(query);
    assert forall|k: int| 0 <= k < words(query).len() implies terms[k] == lower_case(
        #[trigger] words(query)[k],
    ) by {}
    if row_matches(key, desc, query) {
        assert forall|k: int| 0 <= k < words(query).len() implies holds(
            hay,
            lower_case(#[trigger] words(query)[k]),
        ) by {
            assert(holds(hay, terms[k]));
        }
    }
}

/// The section of the screen you are on comes first, or right behind the keys that
/// work everywhere; no section is lost or told twice.
pub proof fn law_your_screen_comes_first(all: Seq<SectionV>, current: Seq<char>, i: int)
    requires
        0 <= i < all.len(),
        all[i].0 == current,
        forall|j: int| 0 <= j < i ==> (#[trigger] all[j]).0 != current,
    ensures
        ({
            let v = floated(all, current);
            let at = if all[0].0 == "Global"@ && i > 0 {
                1int
            } else {
                0
            };
            &&& v.len() == all.len()
            &&& v[at] == all[i]
            &&& all[0].0 == "Global"@ ==> v[0] == all[0]
            &&& v.to_multiset() =~= all.to_multiset()
        }),
{
    law_the_first_is_found(all, called(current));
    let n = first_where(all, called(current)) as int;
    assert(called(current)(all[i]));
    if n < i {
        assert(all[n].0 == current);
    }
    let dest = if all[0].0 == "Global"@ {
        1int
    } else {
        0
    };
    if i > dest {
        let rest = all.remove(i);
        vstd::seq_lib::to_multiset_insert(rest, dest, all[i]);
        vstd::seq_lib::to_multiset_remove(all, i);
        vstd::seq_lib::to_multiset_contains(all, all[i]);
        assert(all.contains(all[i]));
    }
}

/// Line `k` of what is said of a key: the key against the right of its column before
/// the first line of what it does, blanks as wide before the rest.
pub open spec fn key_says(key: Seq<char>, part: Seq<char>, key_w: int, k: int) -> Seq<char> {
    (if k == 0 {
        " "@ + (" "@ + align_right(key, key_w as nat) + " "@) + "  "@
    } else {
        crate::text::run_of(' ', (key_w + 5) as nat)
    }) + part
}

/// What a key does is wrapped beside it, whatever of it a query picks out.
pub proof fn law_keys_stand_beside_what_they_do(
    row: HintV,
    query: Seq<char>,
    key_w: int,
    desc_w: int,
    here: bool,
    k: int,
)
    requires
        0 <= k < wrapped(row.1, desc_w).len(),
    ensures
        row_lines(row, query, key_w, desc_w, here).len() == wrapped(row.1, desc_w).len(),
        said(row_lines(row, query, key_w, desc_w, here)[k]) == key_says(
            row.0,
            wrapped(row.1, desc_w)[k],
            key_w,
            k,
        ),
{
    let segs = wrapped(row.1, desc_w);
    let l = row_lines(row, query, key_w, desc_w, here)[k];
    assert(l == row_line(row.0, segs, query, key_w, here, k));
    assert(texts(desc_spans(segs[k], query)) == segs[k]) by {
        if query.len() == 0 {
            assert(texts(desc_spans(segs[k], query)) =~= segs[k]);
        } else {
            law_highlighting_keeps_the_text(
                segs[k],
                query,
                crate::paint::fg(crate::paint::Role::Text),
                crate::paint::fg(crate::paint::Role::Accent).bold(),
            );
        }
    }
    assert(said(l) =~= key_says(row.0, segs[k], key_w, k));
}

/// Whether `part` stands in `lines` from line `at` on, behind the first and before the
/// last.
pub open spec fn stands_at(lines: Seq<LineV>, part: Seq<LineV>, at: int) -> bool {
    &&& 1 <= at && at + part.len() < lines.len()
    &&& lines.subrange(at, at + part.len()) == part
}

/// Whether `part` stands in `lines`, behind the first and before the last.
pub open spec fn stands(lines: Seq<LineV>, part: Seq<LineV>) -> bool {
    exists|at: int| stands_at(lines, part, at)
}

/// A section is headed by its name, and by where you are when that is it. Under that
/// every one of its keys has its lines, and a blank one ends it.
pub proof fn law_sections_are_headed(
    s: SectionV,
    query: Seq<char>,
    key_w: int,
    desc_w: int,
    current: Seq<char>,
)
    ensures
        said(section_lines(s, query, key_w, desc_w, current)[0]) == " "@ + s.0 + " "@ + given(
            s.0 == current,
            " ← you are here"@,
        ),
        section_lines(s, query, key_w, desc_w, current).len() >= 2,
        section_lines(s, query, key_w, desc_w, current).last().spans.len() == 0,
        forall|j: int|
            0 <= j < s.1.len() ==> stands(
                section_lines(s, query, key_w, desc_w, current),
                row_lines(#[trigger] s.1[j], query, key_w, desc_w, s.0 == current),
            ),
{
    let lines = section_lines(s, query, key_w, desc_w, current);
    let here = s.0 == current;
    assert(lines[0] == heading(s.0, here));
    assert(said(lines[0]) =~= " "@ + s.0 + " "@ + given(here, " ← you are here"@));
    let body = rows_lines(s.1, query, key_w, desc_w, here, s.1.len() as int);
    assert forall|j: int| 0 <= j < s.1.len() implies stands(
        lines,
        row_lines(#[trigger] s.1[j], query, key_w, desc_w, here),
    ) by {
        let at = lemma_rows_lines(s.1, query, key_w, desc_w, here, s.1.len() as int, j);
        let n = row_lines(s.1[j], query, key_w, desc_w, here).len() as int;
        assert(lines.subrange(at + 1, at + 1 + n) =~= body.subrange(at, at + n));
        assert(stands_at(lines, row_lines(s.1[j], query, key_w, desc_w, here), at + 1));
    }
}

proof fn lemma_rows_lines(
    rows: Seq<HintV>,
    query: Seq<char>,
    key_w: int,
    desc_w: int,
    here: bool,
    n: int,
    j: int,
) -> (at: int)
    requires
        0 <= j < n <= rows.len(),
    ensures
        ({
            let lines = rows_lines(rows, query, key_w, desc_w, here, n);
            let row = row_lines(rows[j], query, key_w, desc_w, here);
            &&& 0 <= at && at + row.len() <= lines.len()
            &&& lines.subrange(at, at + row.len()) == row
        }),
    decreases n,
{
    let lines = rows_lines(rows, query, key_w, desc_w, here, n);
    let above = rows_lines(rows, query, key_w, desc_w, here, n - 1);
    let row = row_lines(rows[j], query, key_w, desc_w, here);
    if j < n - 1 {
        let at = lemma_rows_lines(rows, query, key_w, desc_w, here, n - 1, j);
        assert(lines.subrange(at, at + row.len()) =~= above.subrange(at, at + row.len()));
        at
    } else {
        let at = above.len() as int;
        assert(lines.subrange(at, at + row.len()) =~= row);
        at
    }
}

/// The card says how far it can be scrolled, and is scrolled as far as was asked, or
/// as far as it goes. Its rail says which of how many lines are shown when that is
/// not all of them, what it is filtered by, or what is being typed.
#[verifier::rlimit(40)]
pub proof fn law_the_card_says_where_it_is(ops: Seq<OpV>, state: App, area: Rect)
    requires
        is_help_card(ops, state, area),
        state.show_help,
    ensures
        ({
            let tall = content_height(state, area);
            let rows = card_height(state, area) - 4;
            let most = if tall > rows {
                tall - rows
            } else {
                0
            };
            let at = if state.help_scroll < most {
                state.help_scroll as int
            } else {
                most
            };
            let find = shown(state.keymap.search@);
            let query = trimmed(state.help_search@);
            &&& ops.len() >= 4
            &&& ops[0] == OpV::Tell(Reading::HelpMaxScroll(most as u16))
            &&& ops[3] is Text && ops[3]->scroll == at as u16
            &&& ops.last() is Text && ops.last()->scroll == at as u16
            &&& ops[2] is Frame && said(ops[2]->border.bottom[0]) == (if state.help_typing {
                " "@ + find + " "@ + state.help_search@ + "▏ · ↵ keeps it · Esc clears "@
            } else if query.len() > 0 {
                " filtered: "@ + query + " · "@ + find + " edits · Esc clears "@
            } else if tall > rows {
                " "@ + shown(state.keymap.down@) + "/"@ + shown(state.keymap.up@)
                    + " or wheel scroll · "@ + dec((at + 1) as nat) + "–"@ + dec(
                    (at + rows) as nat,
                ) + " of "@ + dec(tall as nat) + " · "@ + find
                    + " search · any other key closes "@
            } else {
                " "@ + find + " search · any other key closes "@
            })
        }),
{
    assert(ops[2] is Frame && ops[2]->border == card_border(state, area));
    assert(said(ops[2]->border.bottom[0]) =~= card_rail(state, area));
}

// ── Picking out ────────────────────────────────────────────────────────────

/// The style of character `i` of a run of spans.
pub open spec fn style_at(v: Seq<SpanV>, i: int) -> Style
    decreases v.len(),
{
    if v.len() == 0 {
        crate::paint::plain()
    } else if i < v[0].text.len() {
        v[0].style
    } else {
        style_at(v.drop_first(), i - v[0].text.len())
    }
}

/// Whether character `i` of a text lies inside a term of a query, whatever the case.
pub open spec fn picked(s: Seq<char>, query: Seq<char>, i: int) -> bool {
    exists|k: int, j: int|
        #![trigger holds_at(folded(s), folded(words(query)[k]), j)]
        0 <= k < words(query).len() && holds_at(folded(s), folded(words(query)[k]), j) && j <= i
            < j + words(query)[k].len()
}

proof fn lemma_alike(m: Seq<bool>, on: bool)
    ensures
        alike(m, on) <= m.len(),
        m.len() > 0 && m[0] == on ==> alike(m, on) > 0,
        forall|i: int| 0 <= i < alike(m, on) ==> #[trigger] m[i] == on,
    decreases m.len(),
{
    if m.len() > 0 && m[0] == on {
        let t = m.drop_first();
        lemma_alike(t, on);
        assert forall|i: int| 0 <= i < alike(m, on) implies #[trigger] m[i] == on by {
            if i > 0 {
                assert(m[i] == t[i - 1]);
            }
        }
    }
}

proof fn lemma_styles(s: Seq<char>, m: Seq<bool>, base: Style, hit: Style, i: int)
    requires
        m.len() == s.len(),
        0 <= i < s.len(),
    ensures
        style_at(cut_at(s, m, base, hit), i) == if m[i] {
            hit
        } else {
            base
        },
    decreases s.len(),
{
    lemma_alike(m, m[0]);
    let n = alike(m, m[0]) as int;
    let v = cut_at(s, m, base, hit);
    assert(v.drop_first() =~= cut_at(s.skip(n), m.skip(n), base, hit));
    if i >= n {
        lemma_styles(s.skip(n), m.skip(n), base, hit, i - n);
    }
}

/// What a query looks for is picked out wherever it occurs, and nothing else is.
pub proof fn law_only_what_is_searched_is_picked_out(
    s: Seq<char>,
    query: Seq<char>,
    base: Style,
    hit: Style,
    i: int,
)
    requires
        0 <= i < s.len(),
    ensures
        style_at(highlighted(s, query, base, hit), i) == if picked(s, query, i) {
            hit
        } else {
            base
        },
{
    let n = words(query).len() as int;
    let terms = folded_terms(query);
    lemma_styles(s, marks(s, query), base, hit, i);
    assert(marks(s, query)[i] == covered(folded(s), terms, n, i));
    if picked(s, query, i) {
        let (k, j) = choose|k: int, j: int|
            #![trigger holds_at(folded(s), folded(words(query)[k]), j)]
            0 <= k < words(query).len() && holds_at(folded(s), folded(words(query)[k]), j) && j <= i
                < j + words(query)[k].len();
        assert(terms[k] == folded(words(query)[k]));
        assert(covers(folded(s), terms[k], j, i));
        assert(covered_by(folded(s), terms[k], i));
    }
    if covered(folded(s), terms, n, i) {
        let k = choose|k: int| 0 <= k < n && covered_by(folded(s), #[trigger] terms[k], i);
        let j = choose|j: int| #[trigger] covers(folded(s), terms[k], j, i);
        assert(terms[k] == folded(words(query)[k]));
        assert(holds_at(folded(s), folded(words(query)[k]), j));
    }
}

// ── The rail of a command's pane ───────────────────────────────────────────

/// Entries one after another, each key before what it does, a dot between them.
pub open spec fn rail_says(rail: Seq<HintV>, n: int) -> Seq<char>
    decreases n,
{
    if n <= 0 {
        Seq::empty()
    } else {
        rail_says(rail, n - 1) + given(n > 1, " · "@) + rail[n - 1].0 + " "@ + rail[n - 1].1
    }
}

proof fn lemma_rail(rail: Seq<HintV>, n: int)
    requires
        0 <= n <= rail.len(),
    ensures
        texts(rail_spans(rail, n)) == rail_says(rail, n),
    decreases n,
{
    if n > 0 {
        lemma_rail(rail, n - 1);
    }
    assert(texts(rail_spans(rail, n)) =~= rail_says(rail, n));
}

/// A rail says its first entries, as many as are kept.
pub proof fn law_rails_say_their_first_entries(rail: Seq<HintV>, width: u16)
    ensures
        ({
            let n = rail_kept(rail, width);
            said(rail_text(rail, width)) == given(n > 0, " "@ + rail_says(rail, n) + " "@)
        }),
{
    let n = rail_kept(rail, width);
    crate::keys::law_rails_are_cut_between_entries(rail, width);
    lemma_rail(rail, n);
    assert(said(rail_text(rail, width)) =~= given(n > 0, " "@ + rail_says(rail, n) + " "@));
}

/// The pane of a command offers to walk its errors where there are any; to leave it
/// while it goes; once it is over, to dismiss it; and to try again when it failed. In
/// a batch what is over is the batch's to handle.
pub proof fn law_panes_offer_what_is_left_to_do(op: GitOp, state: App)
    ensures
        ({
            let km = state.keymap;
            let rail = op_rail(op, state);
            let alone = op.finished && !(state.view is BatchCommit);
            let n = if op.errors > 0 {
                3int
            } else {
                2
            };
            &&& rail[0] == (pair(km.down@, km.up@), "scroll"@)
            &&& op.errors > 0 ==> rail[1] == (pair(km.next_error@, km.prev_error@), "error"@)
            &&& rail[n - 1] == (shown(km.yank@), "yank"@)
            &&& !op.finished ==> rail.len() == n + 1 && rail[n] == (
                shown(km.back@),
                "leave, keeps running"@,
            )
            &&& op.finished && !alone ==> rail.len() == n
            &&& alone ==> rail[n] == (shown(km.back@), "dismiss"@)
            &&& alone && !op.failed ==> rail.len() == n + 1
            &&& alone && op.failed ==> rail.len() == n + 3 && rail[n + 1] == (
                shown(km.git_stage_all@),
                "stage all"@,
            ) && rail[n + 2] == (shown(km.git_commit@), "commit again"@)
        }),
{
}

/// A query that nothing matches is told so.
pub proof fn law_no_match_is_said_so(state: App, area: Rect)
    requires
        card_sections(state).len() == 0,
    ensures
        ({
            let (left, right) = card_columns(state, area);
            &&& left.len() == 1 && right.len() == 0
            &&& said(left[0]) == " "@ + ("no binding matches “"@ + trimmed(state.help_search@)
                + "”"@)
        }),
{
    let built = built_lines(state, area);
    let n = built.len() as int;
    assert(n == 0);
    let f = poured(built, two_columns(area), line_count(built, n), n);
    assert(f.left.len() == 0 && f.right.len() == 0);
    let (left, right) = card_columns(state, area);
    assert(said(left[0]) =~= " "@ + ("no binding matches “"@ + trimmed(state.help_search@)
        + "”"@));
}

/// A card that nobody started the clock of shows its lines as they are, and one on its
/// way shows the same words.
pub proof fn law_entrances_change_no_word(state: App, l: LineV, i: int)
    ensures
        said(risen_line(state, l, i)) == said(l),
        state.help_opened_tick is None ==> risen_line(state, l, i) == l,
{
    let r = risen_line(state, l, i);
    lemma_same_words(r.spans, l.spans);
}

proof fn lemma_same_words(v: Seq<SpanV>, w: Seq<SpanV>)
    requires
        v.len() == w.len(),
        forall|k: int| 0 <= k < v.len() ==> (#[trigger] v[k]).text == w[k].text,
    ensures
        texts(v) == texts(w),
    decreases v.len(),
{
    if v.len() > 0 {
        let a = v.drop_first();
        let b = w.drop_first();
        assert forall|k: int| 0 <= k < a.len() implies (#[trigger] a[k]).text == b[k].text by {
            assert(a[k] == v[k + 1]);
            assert(b[k] == w[k + 1]);
        }
        lemma_same_words(a, b);
        assert(v[0].text == w[0].text);
    }
}

/// The card is as wide as the screen with a margin, within forty-six and a hundred and
/// four columns, and has two columns from eighty-eight inside on.
pub proof fn law_the_card_takes_what_it_needs(area: Rect)
    ensures
        ({
            let w = card_width(area);
            &&& 0 <= w <= area.width
            &&& area.width >= 108 ==> w == 104
            &&& 50 <= area.width < 108 ==> w == area.width - 4
            &&& 46 <= area.width < 50 ==> w == 46
            &&& area.width < 46 ==> w == area.width
            &&& two_columns(area) <==> w >= 90
            &&& two_columns(area) ==> 2 * column_width(area) + 3 <= w - 2 <= 2 * column_width(area)
                + 4
        }),
{
}

/// Without a query the card tells of everything.
#[verifier::rlimit(40)]
pub proof fn law_without_a_query_all_is_told(state: App)
    requires
        trimmed(state.help_search@).len() == 0,
    ensures
        card_sections(state).len() == 10,
        card_sections(state)[0] == reference(state.keymap)[0],
        forall|i: int|
            0 <= i < 10 ==> card_sections(state).contains(#[trigger] reference(state.keymap)[i]),
        card_sections(state)[1].0 == help_section_for(state.view)@,
{
    let all = reference(state.keymap);
    let current = help_section_for(state.view)@;
    reveal_strlit("Global");
    reveal_strlit("Repos — dashboard");
    reveal_strlit("Batch commit");
    reveal_strlit("Changes — working tree");
    reveal_strlit("Diff — file changes");
    reveal_strlit("Workflows");
    reveal_strlit("Runs");
    reveal_strlit("Run detail");
    reveal_strlit("Logs");
    reveal_strlit("Trigger prompt");
    assert("Runs"@.len() == 4 && "Logs"@.len() == 4 && "Runs"@[0] == 'R' && "Logs"@[0] == 'L');
    assert("Global"@.len() == 6 && "Workflows"@.len() == 9 && "Run detail"@.len() == 10);
    assert("Batch commit"@.len() == 12 && "Trigger prompt"@.len() == 14);
    assert("Repos — dashboard"@.len() == 17 && "Diff — file changes"@.len() == 19);
    assert("Changes — working tree"@.len() == 22);
    law_the_first_is_found(all, called(current));
    let i = first_where(all, called(current)) as int;
    crate::keys::law_every_screen_has_a_section(state.keymap, state.view);
    let j = choose|j: int| 0 <= j < all.len() && (#[trigger] all[j]).0 == current;
    assert(called(current)(all[j]));
    assert(all[i].0 == current);
    assert(all[0].0 == "Global"@);
    assert(i > 0);
    assert forall|q: int| 0 <= q < i implies (#[trigger] all[q]).0 != current by {
        assert(!called(current)(all[q]));
    }
    law_your_screen_comes_first(all, current, i);
    let v = card_sections(state);
    assert(v == floated(all, current));
    assert forall|q: int| 0 <= q < 10 implies v.contains(#[trigger] all[q]) by {
        vstd::seq_lib::to_multiset_contains(all, all[q]);
        vstd::seq_lib::to_multiset_contains(v, all[q]);
        assert(all.contains(all[q]));
    }
}

/// The card has its sections in one column, or in two side by side: the left one first.
pub proof fn law_the_card_has_its_columns(ops: Seq<OpV>, state: App, area: Rect)
    requires
        is_help_card(ops, state, area),
    ensures
        ({
            let (left, right) = card_columns(state, area);
            &&& !state.show_help <==> ops.len() == 0
            &&& state.show_help ==> ops.len() == if two_columns(area) {
                5int
            } else {
                4
            }
            &&& state.show_help ==> ops[3]->lines == risen_lines(state, left)
            &&& state.show_help && two_columns(area) ==> ops[4] is Text && ops[4]->lines
                == risen_lines(state, right)
        }),
{
}

/// Where you are, keys are in the accent's colour; anywhere else they are bright.
pub proof fn law_keys_are_lit_where_you_are(
    key: Seq<char>,
    segs: Seq<Seq<char>>,
    query: Seq<char>,
    key_w: int,
    here: bool,
)
    ensures
        ({
            let style = row_line(key, segs, query, key_w, here, 0).spans[1].style;
            &&& style.bold
            &&& style.fg == Some(
                Paint::Plain(
                    if here {
                        Role::Accent
                    } else {
                        Role::TextBright
                    },
                ),
            )
        }),
{
    let l = row_line(key, segs, query, key_w, here, 0);
    let lead = seq![sp(" "@, plain())].push(
        sp(
            " "@ + align_right(key, key_w as nat) + " "@,
            bg(Role::Overlay).with_fg(
                Paint::Plain(
                    if here {
                        Role::Accent
                    } else {
                        Role::TextBright
                    },
                ),
            ).bold(),
        ),
    ).push(sp("  "@, plain()));
    assert(l.spans == lead + desc_spans(segs[0], query));
    assert(l.spans[1] == lead[1]);
}

/// The keys share a column: it has room for every one of them, and is six wide at
/// least.
pub proof fn law_keys_share_a_column(all: Seq<SectionV>, i: int, j: int)
    requires
        0 <= i < all.len(),
        0 <= j < all[i].1.len(),
    ensures
        all[i].1[j].0.len() <= key_column(all),
        key_column(all) >= 6,
{
    lemma_longest_key(all[i].1, all[i].1.len() as int, j);
    lemma_longest_in(all, all.len() as int, i);
}

proof fn lemma_longest_key(rows: Seq<HintV>, n: int, j: int)
    requires
        0 <= j < n <= rows.len(),
    ensures
        rows[j].0.len() <= longest_key(rows, n),
    decreases n,
{
    if j < n - 1 {
        lemma_longest_key(rows, n - 1, j);
    }
}

proof fn lemma_longest_in(all: Seq<SectionV>, n: int, i: int)
    requires
        0 <= i < n <= all.len(),
    ensures
        longest_key(all[i].1, all[i].1.len() as int) <= longest_in(all, n),
    decreases n,
{
    if i < n - 1 {
        lemma_longest_in(all, n - 1, i);
    }
}

} // verus!
