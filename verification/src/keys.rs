//! Keys: how they are written, what they do, and the rails that say so.

use vstd::prelude::*;
use vstd::string::*;

use crate::columns::{disp_width, text_columns};
use crate::geometry::less;
use crate::list::{none, put};
use crate::ops::{say, say_of};
use crate::paint::{empty_line, fg, line, ln, plain, sp, Line, LineV, Role, Span, SpanV};
use crate::state::{App, GitOp, Keymap, Screen};
use crate::text::{cat2, cat3, same};

verus! {

broadcast use vstd::string::group_string_axioms;

/// A key as it is written on the screen.
pub open spec fn shown(s: Seq<char>) -> Seq<char> {
    if s == "Enter"@ {
        "↵"@
    } else if s == "Esc"@ || s == "Escape"@ {
        "Esc"@
    } else if s == "Space"@ {
        "␣"@
    } else {
        s
    }
}

/// A key as it is written on the screen.
pub fn display_key(s: &str) -> (r: &str)
    ensures
        r@ == shown(s@),
{
    if same(s, "Enter") {
        "↵"
    } else if same(s, "Esc") || same(s, "Escape") {
        "Esc"
    } else if same(s, "Space") {
        "␣"
    } else {
        s
    }
}

/// Two keys, one stroke between them.
pub open spec fn pair(a: Seq<char>, b: Seq<char>) -> Seq<char> {
    shown(a) + "/"@ + shown(b)
}

/// Two keys, one stroke between them.
pub fn key_pair(a: &str, b: &str) -> (s: String)
    ensures
        s@ == pair(a@, b@),
{
    cat3(display_key(a), "/", display_key(b))
}

/// A key and what it does.
pub type Hint = (String, &'static str);

/// A key and what it does, in contracts.
pub type HintV = (Seq<char>, Seq<char>);

/// Add a configured key.
pub fn hint(v: &mut Vec<Hint>, key: &str, what: &'static str)
    ensures
        final(v).deep_view() == old(v).deep_view().push((shown(key@), what@)),
{
    put(v, (display_key(key).to_string(), what));
}

/// Add a key written as it stands.
pub fn hint_as(v: &mut Vec<Hint>, key: &str, what: &'static str)
    ensures
        final(v).deep_view() == old(v).deep_view().push((key@, what@)),
{
    put(v, (key.to_string(), what));
}

/// Add two configured keys at once.
pub fn hint_pair(v: &mut Vec<Hint>, a: &str, b: &str, what: &'static str)
    ensures
        final(v).deep_view() == old(v).deep_view().push((pair(a@, b@), what@)),
{
    put(v, (key_pair(a, b), what));
}

// ── The reference ──────────────────────────────────────────────────────────

pub open spec fn global_rows(km: Keymap) -> Seq<HintV> {
    seq![
        (pair(km.down@, km.up@), "move cursor"@),
        ("↵"@, "open / drill in"@),
        (shown(km.back@) + "/⌫"@, "back one view"@),
        (shown(km.finder@), "fuzzy find in the current list"@),
        (shown(km.refresh@), "re-fetch whatever this screen shows"@),
        (shown(km.repos_view@), "multi-repo dashboard"@),
        (shown(km.services@), "service health, by monitor name"@),
        (shown(km.snooze@), "snooze notifications — 30m, 60m, off"@),
        (shown(km.open_browser@), "open in browser"@),
        (shown(km.yank@), "copy the selection to the clipboard"@),
        ("click"@, "select a row — again to open; wheel scrolls"@),
        (shown(km.help@), "this help"@),
        (shown(km.quit@), "quit"@),
    ]
}

fn global_hints(km: &Keymap) -> (v: Vec<Hint>)
    ensures
        v.deep_view() == global_rows(*km),
{
    let mut v: Vec<Hint> = none();
    hint_pair(&mut v, &km.down, &km.up, "move cursor");
    hint_as(&mut v, "↵", "open / drill in");
    put(&mut v, (cat2(display_key(&km.back), "/⌫"), "back one view"));
    hint(&mut v, &km.finder, "fuzzy find in the current list");
    hint(&mut v, &km.refresh, "re-fetch whatever this screen shows");
    hint(&mut v, &km.repos_view, "multi-repo dashboard");
    hint(&mut v, &km.services, "service health, by monitor name");
    hint(&mut v, &km.snooze, "snooze notifications — 30m, 60m, off");
    hint(&mut v, &km.open_browser, "open in browser");
    hint(&mut v, &km.yank, "copy the selection to the clipboard");
    hint_as(&mut v, "click", "select a row — again to open; wheel scrolls");
    hint(&mut v, &km.help, "this help");
    hint(&mut v, &km.quit, "quit");
    v
}

pub open spec fn repos_rows(km: Keymap) -> Seq<HintV> {
    seq![
        ("↵"@, "switch to this repo"@),
        (shown(km.git_view@), "review local changes"@),
        (shown(km.repo_mark@), "mark / unmark this repo for a batch commit"@),
        (shown(km.batch_commit@), "commit every marked repo with one message"@),
        (shown(km.open_browser@), "open the repo's Actions page"@),
    ]
}

fn repos_hints(km: &Keymap) -> (v: Vec<Hint>)
    ensures
        v.deep_view() == repos_rows(*km),
{
    let mut v: Vec<Hint> = none();
    hint_as(&mut v, "↵", "switch to this repo");
    hint(&mut v, &km.git_view, "review local changes");
    hint(&mut v, &km.repo_mark, "mark / unmark this repo for a batch commit");
    hint(&mut v, &km.batch_commit, "commit every marked repo with one message");
    hint(&mut v, &km.open_browser, "open the repo's Actions page");
    v
}

pub open spec fn batch_rows(km: Keymap) -> Seq<HintV> {
    seq![
        ("↵"@, "start — stages everything and commits each repo in turn"@),
        (shown(km.batch_retry@), "retry the repo that failed"@),
        (shown(km.batch_skip@), "skip it and carry on"@),
        (shown(km.git_view@), "open the failed repo's working tree to fix it"@),
        (pair(km.down@, km.up@), "scroll the hook output"@),
        (pair(km.next_error@, km.prev_error@), "next / previous error"@),
        (shown(km.git_push@), "push everything the batch committed"@),
        (shown(km.back@), "stop — repos already committed keep their commits"@),
    ]
}

fn batch_hints(km: &Keymap) -> (v: Vec<Hint>)
    ensures
        v.deep_view() == batch_rows(*km),
{
    let mut v: Vec<Hint> = none();
    hint_as(&mut v, "↵", "start — stages everything and commits each repo in turn");
    hint(&mut v, &km.batch_retry, "retry the repo that failed");
    hint(&mut v, &km.batch_skip, "skip it and carry on");
    hint(&mut v, &km.git_view, "open the failed repo's working tree to fix it");
    hint_pair(&mut v, &km.down, &km.up, "scroll the hook output");
    hint_pair(&mut v, &km.next_error, &km.prev_error, "next / previous error");
    hint(&mut v, &km.git_push, "push everything the batch committed");
    hint(&mut v, &km.back, "stop — repos already committed keep their commits");
    v
}

pub open spec fn changes_rows(km: Keymap) -> Seq<HintV> {
    seq![
        (shown(km.git_stage@), "stage / unstage the selected file"@),
        (shown(km.git_stage_all@), "stage all"@),
        (shown(km.git_commit@), "commit (opens a message prompt)"@),
        (shown(km.git_push@), "push — sets upstream on first push"@),
        (shown(km.trigger@), "open this repo's workflows to run CI"@),
        (shown(km.open_browser@), "open the branch's PR — or the page that creates one"@),
        (shown(km.git_diff@) + "/↵"@, "diff every changed file, from this one"@),
        (pair(km.down@, km.up@), "scroll the hook output, while a commit/push is showing it"@),
        (pair(km.next_error@, km.prev_error@), "next / previous error in that output"@),
        (shown(km.yank@), "yank the whole hook output"@),
        (shown(km.back@), "dismiss the output of a failed commit/push"@),
    ]
}

fn changes_hints(km: &Keymap) -> (v: Vec<Hint>)
    ensures
        v.deep_view() == changes_rows(*km),
{
    let mut v: Vec<Hint> = none();
    hint(&mut v, &km.git_stage, "stage / unstage the selected file");
    hint(&mut v, &km.git_stage_all, "stage all");
    hint(&mut v, &km.git_commit, "commit (opens a message prompt)");
    hint(&mut v, &km.git_push, "push — sets upstream on first push");
    hint(&mut v, &km.trigger, "open this repo's workflows to run CI");
    hint(&mut v, &km.open_browser, "open the branch's PR — or the page that creates one");
    put(&mut v, (cat2(display_key(&km.git_diff), "/↵"), "diff every changed file, from this one"));
    hint_pair(&mut v, &km.down, &km.up, "scroll the hook output, while a commit/push is showing it");
    hint_pair(&mut v, &km.next_error, &km.prev_error, "next / previous error in that output");
    hint(&mut v, &km.yank, "yank the whole hook output");
    hint(&mut v, &km.back, "dismiss the output of a failed commit/push");
    v
}

pub open spec fn diff_rows(km: Keymap) -> Seq<HintV> {
    seq![
        ("layout"@, "side by side — unified when the terminal is narrow"@),
        (pair(km.down@, km.up@), "scroll"@),
        (pair(km.page_down@, km.page_up@), "page"@),
        (pair(km.scroll_top@, km.scroll_bottom@), "top / bottom"@),
        (pair(km.next_step@, km.prev_step@), "next / previous changed file"@),
        (shown(km.git_stage@), "stage / unstage this file"@),
        (shown(km.back@), "back to the file list"@),
    ]
}

fn diff_hints(km: &Keymap) -> (v: Vec<Hint>)
    ensures
        v.deep_view() == diff_rows(*km),
{
    let mut v: Vec<Hint> = none();
    hint_as(&mut v, "layout", "side by side — unified when the terminal is narrow");
    hint_pair(&mut v, &km.down, &km.up, "scroll");
    hint_pair(&mut v, &km.page_down, &km.page_up, "page");
    hint_pair(&mut v, &km.scroll_top, &km.scroll_bottom, "top / bottom");
    hint_pair(&mut v, &km.next_step, &km.prev_step, "next / previous changed file");
    hint(&mut v, &km.git_stage, "stage / unstage this file");
    hint(&mut v, &km.back, "back to the file list");
    v
}

pub open spec fn workflows_rows(km: Keymap) -> Seq<HintV> {
    seq![
        ("↵"@, "list runs"@),
        (shown(km.trigger@), "trigger"@),
        (shown(km.watch@), "watch the latest run"@),
    ]
}

fn workflows_hints(km: &Keymap) -> (v: Vec<Hint>)
    ensures
        v.deep_view() == workflows_rows(*km),
{
    let mut v: Vec<Hint> = none();
    hint_as(&mut v, "↵", "list runs");
    hint(&mut v, &km.trigger, "trigger");
    hint(&mut v, &km.watch, "watch the latest run");
    v
}

pub open spec fn runs_rows(km: Keymap) -> Seq<HintV> {
    seq![
        ("↵"@, "run detail"@),
        (shown(km.trigger@), "trigger"@),
        (shown(km.rerun@), "rerun all jobs"@),
        (shown(km.rerun_failed@), "rerun failed jobs"@),
        (shown(km.cancel_run@), "cancel"@),
        (shown(km.watch@), "watch"@),
    ]
}

fn runs_hints(km: &Keymap) -> (v: Vec<Hint>)
    ensures
        v.deep_view() == runs_rows(*km),
{
    let mut v: Vec<Hint> = none();
    hint_as(&mut v, "↵", "run detail");
    hint(&mut v, &km.trigger, "trigger");
    hint(&mut v, &km.rerun, "rerun all jobs");
    hint(&mut v, &km.rerun_failed, "rerun failed jobs");
    hint(&mut v, &km.cancel_run, "cancel");
    hint(&mut v, &km.watch, "watch");
    v
}

pub open spec fn detail_rows(km: Keymap) -> Seq<HintV> {
    seq![
        ("↵/"@ + shown(km.open_logs@), "open logs"@),
        (shown(km.diff@), "diff against the last successful run"@),
    ]
}

fn detail_hints(km: &Keymap) -> (v: Vec<Hint>)
    ensures
        v.deep_view() == detail_rows(*km),
{
    let mut v: Vec<Hint> = none();
    put(&mut v, (cat2("↵/", display_key(&km.open_logs)), "open logs"));
    hint(&mut v, &km.diff, "diff against the last successful run");
    v
}

pub open spec fn logs_rows(km: Keymap) -> Seq<HintV> {
    seq![
        (pair(km.page_down@, km.page_up@), "page down / up"@),
        (pair(km.scroll_top@, km.scroll_bottom@), "top / bottom"@),
        (pair(km.next_step@, km.prev_step@), "next / previous step"@),
        (shown(km.all_steps@), "show all steps"@),
        (shown(km.search@), "search (then n/p cycle matches)"@),
        (pair(km.next_error@, km.prev_error@), "next / previous error"@),
        (shown(km.log_focus@), "focus mode — fold everything but errors"@),
        ("↵"@, "expand a fold, or collapse a group"@),
    ]
}

fn logs_hints(km: &Keymap) -> (v: Vec<Hint>)
    ensures
        v.deep_view() == logs_rows(*km),
{
    let mut v: Vec<Hint> = none();
    hint_pair(&mut v, &km.page_down, &km.page_up, "page down / up");
    hint_pair(&mut v, &km.scroll_top, &km.scroll_bottom, "top / bottom");
    hint_pair(&mut v, &km.next_step, &km.prev_step, "next / previous step");
    hint(&mut v, &km.all_steps, "show all steps");
    hint(&mut v, &km.search, "search (then n/p cycle matches)");
    hint_pair(&mut v, &km.next_error, &km.prev_error, "next / previous error");
    hint(&mut v, &km.log_focus, "focus mode — fold everything but errors");
    hint_as(&mut v, "↵", "expand a fold, or collapse a group");
    v
}

pub open spec fn trigger_rows(km: Keymap) -> Seq<HintV> {
    seq![
        ("↵/"@ + shown(km.tp_edit@), "edit the field"@),
        (shown(km.tp_cycle@), "cycle a choice field"@),
        (shown(km.tp_submit@), "submit"@),
        (shown(km.back@), "cancel"@),
    ]
}

fn trigger_hints(km: &Keymap) -> (v: Vec<Hint>)
    ensures
        v.deep_view() == trigger_rows(*km),
{
    let mut v: Vec<Hint> = none();
    put(&mut v, (cat2("↵/", display_key(&km.tp_edit)), "edit the field"));
    hint(&mut v, &km.tp_cycle, "cycle a choice field");
    hint(&mut v, &km.tp_submit, "submit");
    hint(&mut v, &km.back, "cancel");
    v
}

/// A section of the reference: its title, and its rows.
pub type Section = (&'static str, Vec<Hint>);

/// A section of the reference, in contracts.
pub type SectionV = (Seq<char>, Seq<HintV>);

/// The full keybinding reference.
pub open spec fn reference(km: Keymap) -> Seq<SectionV> {
    seq![
        ("Global"@, global_rows(km)),
        ("Repos — dashboard"@, repos_rows(km)),
        ("Batch commit"@, batch_rows(km)),
        ("Changes — working tree"@, changes_rows(km)),
        ("Diff — file changes"@, diff_rows(km)),
        ("Workflows"@, workflows_rows(km)),
        ("Runs"@, runs_rows(km)),
        ("Run detail"@, detail_rows(km)),
        ("Logs"@, logs_rows(km)),
        ("Trigger prompt"@, trigger_rows(km)),
    ]
}

/// The full keybinding reference, built from the configured keys so that
/// remapped bindings show their real values rather than the defaults.
///
/// Section titles match the screens', so that the card can highlight wherever
/// the user currently is.
pub fn help_sections(km: &Keymap) -> (v: Vec<Section>)
    ensures
        v.deep_view() == reference(*km),
{
    let mut v: Vec<Section> = none();
    put(&mut v, ("Global", global_hints(km)));
    put(&mut v, ("Repos — dashboard", repos_hints(km)));
    put(&mut v, ("Batch commit", batch_hints(km)));
    put(&mut v, ("Changes — working tree", changes_hints(km)));
    put(&mut v, ("Diff — file changes", diff_hints(km)));
    put(&mut v, ("Workflows", workflows_hints(km)));
    put(&mut v, ("Runs", runs_hints(km)));
    put(&mut v, ("Run detail", detail_hints(km)));
    put(&mut v, ("Logs", logs_hints(km)));
    put(&mut v, ("Trigger prompt", trigger_hints(km)));
    v
}

/// The section that corresponds to the screen behind the card.
#[verifier::allow_in_spec]
pub fn help_section_for(view: Screen) -> &'static str
    returns
        (match view {
            Screen::Repos => "Repos — dashboard",
            Screen::GitStatus => "Changes — working tree",
            Screen::GitDiff => "Diff — file changes",
            Screen::Workflows => "Workflows",
            Screen::Runs | Screen::Watch => "Runs",
            Screen::RunDetail | Screen::Diff => "Run detail",
            Screen::Logs => "Logs",
            Screen::TriggerPrompt => "Trigger prompt",
            Screen::BatchCommit => "Batch commit",
        }),
{
    match view {
        Screen::Repos => "Repos — dashboard",
        Screen::GitStatus => "Changes — working tree",
        Screen::GitDiff => "Diff — file changes",
        Screen::Workflows => "Workflows",
        Screen::Runs | Screen::Watch => "Runs",
        Screen::RunDetail | Screen::Diff => "Run detail",
        Screen::Logs => "Logs",
        Screen::TriggerPrompt => "Trigger prompt",
        Screen::BatchCommit => "Batch commit",
    }
}

/// Every screen has a section of the reference to itself.
pub proof fn law_every_screen_has_a_section(km: Keymap, view: Screen)
    ensures
        exists|i: int|
            0 <= i < reference(km).len() && (#[trigger] reference(km)[i]).0 == help_section_for(view)@,
{
    let i: int = match view {
        Screen::Repos => 1,
        Screen::BatchCommit => 2,
        Screen::GitStatus => 3,
        Screen::GitDiff => 4,
        Screen::Workflows => 5,
        Screen::Runs | Screen::Watch => 6,
        Screen::RunDetail | Screen::Diff => 7,
        Screen::Logs => 8,
        Screen::TriggerPrompt => 9,
    };
    assert(reference(km)[i].0 == help_section_for(view)@);
}

/// No section of the reference is empty, whatever the keys are.
pub proof fn law_sections_are_populated(km: Keymap, i: int)
    requires
        0 <= i < reference(km).len(),
    ensures
        reference(km)[i].1.len() > 0,
{
}

// ── The hook output's own rail ─────────────────────────────────────────────

/// The keys the hook-output pane answers to, in the order they are worth
/// knowing.
pub open spec fn op_rail(op: GitOp, state: App) -> Seq<HintV> {
    let km = state.keymap;
    let scroll = seq![(pair(km.down@, km.up@), "scroll"@)];
    let walk = if op.errors > 0 {
        scroll.push((pair(km.next_error@, km.prev_error@), "error"@))
    } else {
        scroll
    };
    let yank = walk.push((shown(km.yank@), "yank"@));
    if !op.finished {
        yank.push((shown(km.back@), "leave, keeps running"@))
    } else if state.view == Screen::BatchCommit {
        yank
    } else {
        let out = yank.push((shown(km.back@), "dismiss"@));
        if op.failed {
            out.push((shown(km.git_stage_all@), "stage all"@)).push(
                (shown(km.git_commit@), "commit again"@),
            )
        } else {
            out
        }
    }
}

/// The keys the hook-output pane answers to, in the order they are worth
/// knowing. Scrolling and yanking always; the error walk only when there are
/// errors to walk; and then the way out, which in the working tree is also the
/// way forward. A batch keeps its own rail across the queue above.
pub fn op_key_rail(op: &GitOp, state: &App) -> (rail: Vec<Hint>)
    ensures
        rail.deep_view() == op_rail(*op, *state),
{
    let km = &state.keymap;
    let mut rail: Vec<Hint> = none();
    hint_pair(&mut rail, &km.down, &km.up, "scroll");
    if op.errors > 0 {
        hint_pair(&mut rail, &km.next_error, &km.prev_error, "error");
    }
    hint(&mut rail, &km.yank, "yank");
    if !op.finished {
        // The command is still going: stepping out leaves it running rather
        // than killing it, so say that and not "dismiss".
        hint(&mut rail, &km.back, "leave, keeps running");
        return rail;
    }
    if state.view != Screen::BatchCommit {
        hint(&mut rail, &km.back, "dismiss");
        if op.failed {
            hint(&mut rail, &km.git_stage_all, "stage all");
            hint(&mut rail, &km.git_commit, "commit again");
        }
    }
    rail
}

/// How many columns entry `i` of a rail takes, the mark before it included.
pub open spec fn entry_cost(rail: Seq<HintV>, i: int) -> int {
    text_columns(
        if i == 0 {
            ""@
        } else {
            " · "@
        },
    ) + text_columns(rail[i].0) + 1 + text_columns(rail[i].1)
}

/// How many columns the first `n` entries of a rail take.
pub open spec fn rail_cost(rail: Seq<HintV>, n: int) -> int
    decreases n,
{
    if n <= 0 {
        0
    } else {
        rail_cost(rail, n - 1) + entry_cost(rail, n - 1)
    }
}

/// How many entries of a rail are kept once `i` of them are: one after another
/// until the next would overrun.
pub open spec fn kept_from(rail: Seq<HintV>, room: int, i: int) -> int
    decreases rail.len() - i,
{
    if 0 <= i < rail.len() && rail_cost(rail, i + 1) <= room {
        kept_from(rail, room, i + 1)
    } else {
        i
    }
}

/// How many entries of a rail fit on a line of `width` columns: the corners and
/// a blank either side are not for writing on.
pub open spec fn rail_kept(rail: Seq<HintV>, width: u16) -> int {
    kept_from(rail, less(width as int, 4), 0)
}

/// The first `n` entries of a rail, marks between them.
pub open spec fn rail_spans(rail: Seq<HintV>, n: int) -> Seq<SpanV>
    decreases n,
{
    if n <= 0 {
        Seq::empty()
    } else {
        let front = rail_spans(rail, n - 1);
        let marked = if n == 1 {
            front
        } else {
            front.push(sp(" · "@, fg(Role::BorderDim)))
        };
        marked.push(sp(rail[n - 1].0, fg(Role::TextBright).bold())).push(
            sp(" "@ + rail[n - 1].1, fg(Role::TextFaint)),
        )
    }
}

/// A key rail as one line.
pub open spec fn rail_text(rail: Seq<HintV>, width: u16) -> LineV {
    let n = rail_kept(rail, width);
    if n == 0 {
        ln(Seq::empty())
    } else {
        ln((seq![sp(" "@, plain())] + rail_spans(rail, n)).push(sp(" "@, plain())))
    }
}

/// A rail is cut between entries: what is kept fits, and one more would not.
pub proof fn law_rails_are_cut_between_entries(rail: Seq<HintV>, width: u16)
    ensures
        0 <= rail_kept(rail, width) <= rail.len(),
        rail_cost(rail, rail_kept(rail, width)) <= less(width as int, 4),
        rail_kept(rail, width) < rail.len() ==> rail_cost(rail, rail_kept(rail, width) + 1)
            > less(width as int, 4),
{
    lemma_kept(rail, less(width as int, 4), 0);
}

proof fn lemma_kept(rail: Seq<HintV>, room: int, i: int)
    requires
        0 <= i <= rail.len(),
        rail_cost(rail, i) <= room,
    ensures
        i <= kept_from(rail, room, i) <= rail.len(),
        rail_cost(rail, kept_from(rail, room, i)) <= room,
        kept_from(rail, room, i) < rail.len() ==> rail_cost(rail, kept_from(rail, room, i) + 1)
            > room,
    decreases rail.len() - i,
{
    if i < rail.len() && rail_cost(rail, i + 1) <= room {
        lemma_kept(rail, room, i + 1);
    }
}

/// A key rail as one line, cut to `width` by dropping whole entries off the
/// end: a truncated rail is a rail whose last key reads as something it is not.
pub fn rail_line(rail: &Vec<Hint>, width: u16) -> (l: Line)
    ensures
        l.deep_view() == rail_text(rail.deep_view(), width),
{
    let room: usize = width.saturating_sub(4) as usize;
    let ghost r = rail.deep_view();
    let mut spans: Vec<Span> = none();
    say(&mut spans, " ", plain());
    let ghost lead = spans.deep_view();
    let mut used: usize = 0;
    let mut i: usize = 0;
    assert(lead + rail_spans(r, 0) =~= lead);
    while i < rail.len()
        invariant
            i <= rail@.len(),
            r == rail.deep_view(),
            room == less(width as int, 4),
            used == rail_cost(r, i as int),
            used <= room,
            spans.deep_view() == lead + rail_spans(r, i as int),
            kept_from(r, room as int, 0) == kept_from(r, room as int, i as int),
        ensures
            kept_from(r, room as int, 0) == i,
        decreases rail@.len() - i,
    {
        let sep = if i == 0 {
            ""
        } else {
            " · "
        };
        assert(r[i as int] == rail@[i as int].deep_view());
        let cost: u128 = disp_width(sep) as u128 + disp_width(&rail[i].0) as u128 + 1 + disp_width(
            rail[i].1,
        ) as u128;
        assert(cost == entry_cost(r, i as int));
        if used as u128 + cost > room as u128 {
            break;
        }
        used = (used as u128 + cost) as usize;
        let ghost before = rail_spans(r, i as int);
        if i > 0 {
            say(&mut spans, " · ", fg(Role::BorderDim));
        }
        say(&mut spans, &rail[i].0, fg(Role::TextBright).bold());
        say_of(&mut spans, cat2(" ", rail[i].1), fg(Role::TextFaint));
        proof {
            assert(spans.deep_view() =~= lead + rail_spans(r, i + 1));
        }
        i = i + 1;
    }
    if i == 0 {
        return empty_line();
    }
    say(&mut spans, " ", plain());
    line(spans)
}

} // verus!
