//! The footer: the keys of the screen, and the last thing that happened.

use vstd::prelude::*;
use vstd::string::*;

use crate::geometry::Rect;
use crate::keys::{display_key, hint, hint_as, hint_pair, pair, shown, Hint, HintV};
use crate::list::{none, push_if, put};
use crate::motion::HELP_BEACON_TICKS;
use crate::ops::{say, say_of, Op, OpV};
use crate::paint::{bg, fg, ink, line, ln, plain, sp, Line, Paint, Role, Span, SpanV, Weight};
use crate::state::{App, BatchPhase, Screen, StatusKind};
use crate::text::{cat2, cat3, dec, num};

verus! {

broadcast use vstd::string::group_string_axioms;

// ── Hints ──────────────────────────────────────────────────────────────────

/// The keys of the push question.
pub open spec fn push_keys() -> Seq<HintV> {
    seq![("↵"@, "take the highlighted answer"@)].push(("y/n"@, "answer outright"@)).push(
        ("←/→"@, "switch"@),
    ).push(("Esc"@, "not now"@))
}

/// The keys of the finder.
pub open spec fn finder_keys() -> Seq<HintV> {
    seq![("type"@, "filter"@)].push(("↑/↓"@, "move"@)).push(("↵"@, "select"@)).push(
        ("Esc"@, "cancel"@),
    )
}

/// The dashboard's keys. A key that would do nothing is not offered: a dead key
/// in the footer reads as a broken one.
pub open spec fn repos_keys(state: App) -> Seq<HintV> {
    let km = state.keymap;
    let marked = state.repo_marks@.len() > 0;
    let lead = seq![("↵"@, "open repo"@)].push((shown(km.git_view@), "changes"@)).push(
        (
            shown(km.repo_mark@),
            if marked {
                "mark/unmark"@
            } else {
                "mark"@
            },
        ),
    );
    push_if(
        push_if(lead, marked, (shown(km.batch_commit@), "commit marked"@)).push(
            (shown(km.refresh@), "refresh"@),
        ).push((shown(km.finder@), "find"@)),
        state.services@.len() > 0,
        (shown(km.services@), "services"@),
    ).push((shown(km.open_browser@), "open"@)).push((shown(km.quit@), "quit"@))
}

fn repos_hints(state: &App) -> (v: Vec<Hint>)
    ensures
        v.deep_view() == repos_keys(*state),
{
    let km = &state.keymap;
    let mut v: Vec<Hint> = none();
    hint_as(&mut v, "↵", "open repo");
    hint(&mut v, &km.git_view, "changes");
    if state.repo_marks.len() > 0 {
        hint(&mut v, &km.repo_mark, "mark/unmark");
        hint(&mut v, &km.batch_commit, "commit marked");
    } else {
        hint(&mut v, &km.repo_mark, "mark");
    }
    hint(&mut v, &km.refresh, "refresh");
    hint(&mut v, &km.finder, "find");
    if state.services.len() > 0 {
        hint(&mut v, &km.services, "services");
    }
    hint(&mut v, &km.open_browser, "open");
    hint(&mut v, &km.quit, "quit");
    v
}

/// A batch's keys, by how far it has got.
pub open spec fn batch_keys(state: App) -> Seq<HintV> {
    let km = state.keymap;
    match state.batch {
        Some(b) if b.phase == BatchPhase::Compose => seq![
            ("type"@, "message for every repo"@),
        ].push(("Bksp"@, "delete"@)).push(("↵"@, "start"@)).push(("Esc"@, "cancel"@)),
        Some(b) if b.phase == BatchPhase::Paused => seq![(shown(km.batch_retry@), "retry"@)].push(
            (shown(km.batch_skip@), "skip"@),
        ).push((shown(km.git_view@), "open repo"@)).push((pair(km.down@, km.up@), "scroll"@)).push(
            (pair(km.next_error@, km.prev_error@), "next/prev error"@),
        ).push((shown(km.back@), "stop"@)),
        Some(b) if b.phase == BatchPhase::AskPush => seq![(shown(km.git_push@), "push all"@)].push(
            (shown(km.back@), "done, don't push"@),
        ),
        Some(b) if b.phase == BatchPhase::Done => seq![
            (
                shown(km.back@),
                if b.returning {
                    "back to repos now"@
                } else {
                    "back to repos"@
                },
            ),
        ],
        _ => seq![(pair(km.down@, km.up@), "scroll"@)].push((shown(km.yank@), "yank output"@)).push(
            (shown(km.back@), "stop after this repo"@),
        ),
    }
}

fn batch_hints(state: &App) -> (v: Vec<Hint>)
    ensures
        v.deep_view() == batch_keys(*state),
{
    let km = &state.keymap;
    let mut v: Vec<Hint> = none();
    if let Some(b) = &state.batch {
        match b.phase {
            BatchPhase::Compose => {
                hint_as(&mut v, "type", "message for every repo");
                hint_as(&mut v, "Bksp", "delete");
                hint_as(&mut v, "↵", "start");
                hint_as(&mut v, "Esc", "cancel");
                return v;
            },
            BatchPhase::Paused => {
                hint(&mut v, &km.batch_retry, "retry");
                hint(&mut v, &km.batch_skip, "skip");
                hint(&mut v, &km.git_view, "open repo");
                hint_pair(&mut v, &km.down, &km.up, "scroll");
                hint_pair(&mut v, &km.next_error, &km.prev_error, "next/prev error");
                hint(&mut v, &km.back, "stop");
                return v;
            },
            BatchPhase::AskPush => {
                hint(&mut v, &km.git_push, "push all");
                hint(&mut v, &km.back, "done, don't push");
                return v;
            },
            // A clean run walks back to the dashboard by itself after a moment;
            // "now" is the difference between the key being the way out and the
            // key being a shortcut past the pause.
            BatchPhase::Done => {
                if b.returning {
                    hint(&mut v, &km.back, "back to repos now");
                } else {
                    hint(&mut v, &km.back, "back to repos");
                }
                return v;
            },
            _ => {},
        }
    }
    hint_pair(&mut v, &km.down, &km.up, "scroll");
    hint(&mut v, &km.yank, "yank output");
    hint(&mut v, &km.back, "stop after this repo");
    v
}

/// The working tree's keys: the message prompt's while it is up, what is left
/// of the view while hook output is on screen, its own otherwise.
pub open spec fn status_keys(state: App) -> Seq<HintV> {
    let km = state.keymap;
    if state.git_view is Some && state.git_view->0.commit_input is Some {
        seq![("type"@, "message"@)].push(("Bksp"@, "delete"@)).push(("↵"@, "commit"@)).push(
            ("Esc"@, "cancel"@),
        )
    } else if state.current_op is Some {
        push_if(
            seq![(pair(km.scroll_top@, km.scroll_bottom@), "top/tail"@)],
            state.current_op->0.finished,
            (shown(km.git_push@), "push"@),
        ).push((shown(km.refresh@), "refresh"@))
    } else {
        let lead = seq![(pair(km.down@, km.up@), "move"@)].push(
            (shown(km.git_stage@), "stage/unstage"@),
        ).push((shown(km.git_stage_all@), "stage all"@)).push(
            (shown(km.git_commit@), "commit"@),
        ).push((shown(km.git_push@), "push"@));
        let ci = if state.git_view is Some && state.git_view->0.has_ci {
            lead.push((shown(km.trigger@), "run CI"@)).push(
                (
                    shown(km.open_browser@),
                    if state.git_view->0.open_pr is Some {
                        "open PR"@
                    } else {
                        "new PR"@
                    },
                ),
            )
        } else {
            lead
        };
        ci.push((shown(km.refresh@), "refresh"@)).push((shown(km.back@), "back"@))
    }
}

fn status_hints(state: &App) -> (v: Vec<Hint>)
    ensures
        v.deep_view() == status_keys(*state),
{
    let km = &state.keymap;
    let mut v: Vec<Hint> = none();
    if let Some(g) = &state.git_view {
        if g.commit_input.is_some() {
            hint_as(&mut v, "type", "message");
            hint_as(&mut v, "Bksp", "delete");
            hint_as(&mut v, "↵", "commit");
            hint_as(&mut v, "Esc", "cancel");
            return v;
        }
    }
    if let Some(op) = &state.current_op {
        // The pane writes its own keys along its own border, so the footer
        // carries what is left of the view behind it.
        hint_pair(&mut v, &km.scroll_top, &km.scroll_bottom, "top/tail");
        if op.finished {
            hint(&mut v, &km.git_push, "push");
        }
        hint(&mut v, &km.refresh, "refresh");
        return v;
    }
    hint_pair(&mut v, &km.down, &km.up, "move");
    hint(&mut v, &km.git_stage, "stage/unstage");
    hint(&mut v, &km.git_stage_all, "stage all");
    hint(&mut v, &km.git_commit, "commit");
    hint(&mut v, &km.git_push, "push");
    if let Some(g) = &state.git_view {
        if g.has_ci {
            hint(&mut v, &km.trigger, "run CI");
            // The same key, but the honest label: it opens the one that exists,
            // or the page that creates the one that does not.
            if g.open_pr.is_some() {
                hint(&mut v, &km.open_browser, "open PR");
            } else {
                hint(&mut v, &km.open_browser, "new PR");
            }
        }
    }
    hint(&mut v, &km.refresh, "refresh");
    hint(&mut v, &km.back, "back");
    v
}

/// The log's keys.
pub open spec fn log_keys(state: App) -> Seq<HintV> {
    let km = state.keymap;
    let lead = seq![(pair(km.down@, km.up@), "move"@)].push(
        (pair(km.page_down@, km.page_up@), "page"@),
    ).push(
        (
            pair(km.next_step@, km.prev_step@),
            if state.log.query is Some {
                "match"@
            } else {
                "step"@
            },
        ),
    ).push((shown(km.all_steps@), "all"@)).push((shown(km.search@), "search"@)).push(
        (pair(km.next_error@, km.prev_error@), "error"@),
    ).push(
        (
            shown(km.log_focus@),
            if state.log.focus {
                "focus ✓"@
            } else {
                "focus"@
            },
        ),
    );
    let fold = if state.log.focus && state.log.folds > 0 {
        lead.push(("↵"@, "show hidden"@))
    } else if state.log.groups {
        lead.push(("↵"@, "expand/collapse"@))
    } else {
        lead
    };
    fold.push((shown(km.open_browser@), "open"@)).push((shown(km.back@), "back"@)).push(
        (shown(km.quit@), "quit"@),
    )
}

fn log_hints(state: &App) -> (v: Vec<Hint>)
    ensures
        v.deep_view() == log_keys(*state),
{
    let km = &state.keymap;
    let mut v: Vec<Hint> = none();
    hint_pair(&mut v, &km.down, &km.up, "move");
    hint_pair(&mut v, &km.page_down, &km.page_up, "page");
    if state.log.query.is_some() {
        hint_pair(&mut v, &km.next_step, &km.prev_step, "match");
    } else {
        hint_pair(&mut v, &km.next_step, &km.prev_step, "step");
    }
    hint(&mut v, &km.all_steps, "all");
    hint(&mut v, &km.search, "search");
    hint_pair(&mut v, &km.next_error, &km.prev_error, "error");
    if state.log.focus {
        hint(&mut v, &km.log_focus, "focus ✓");
    } else {
        hint(&mut v, &km.log_focus, "focus");
    }
    if state.log.focus && state.log.folds > 0 {
        hint_as(&mut v, "↵", "show hidden");
    } else if state.log.groups {
        hint_as(&mut v, "↵", "expand/collapse");
    }
    hint(&mut v, &km.open_browser, "open");
    hint(&mut v, &km.back, "back");
    hint(&mut v, &km.quit, "quit");
    v
}

/// The keys of the remaining screens.
pub open spec fn plain_keys(state: App) -> Seq<HintV> {
    let km = state.keymap;
    match state.view {
        Screen::GitDiff => seq![(pair(km.down@, km.up@), "scroll"@)].push(
            (pair(km.page_down@, km.page_up@), "page"@),
        ).push((pair(km.next_step@, km.prev_step@), "next/prev file"@)).push(
            (shown(km.git_stage@), "stage/unstage"@),
        ).push((shown(km.back@), "back"@)),
        Screen::Workflows => seq![("↵"@, "runs"@)].push((shown(km.trigger@), "trigger"@)).push(
            (shown(km.watch@), "watch"@),
        ).push((shown(km.finder@), "find"@)).push((shown(km.repos_view@), "repos"@)).push(
            (shown(km.open_browser@), "open"@),
        ).push((shown(km.quit@), "quit"@)),
        Screen::Runs => seq![("↵"@, "detail"@)].push((shown(km.trigger@), "trigger"@)).push(
            (shown(km.rerun@), "rerun"@),
        ).push((shown(km.rerun_failed@), "rerun-failed"@)).push(
            (shown(km.cancel_run@), "cancel"@),
        ).push((shown(km.watch@), "watch"@)).push((shown(km.finder@), "find"@)).push(
            (shown(km.open_browser@), "open"@),
        ).push((shown(km.back@), "back"@)),
        Screen::RunDetail => seq![(pair(km.down@, km.up@), "step"@)].push(
            ("↵/"@ + shown(km.open_logs@), "logs"@),
        ).push((shown(km.open_browser@), "open"@)).push((shown(km.diff@), "diff"@)).push(
            (shown(km.back@), "back"@),
        ).push((shown(km.quit@), "quit"@)),
        Screen::TriggerPrompt => if state.trigger_prompt is Some
            && state.trigger_prompt->0.editing {
            seq![("type"@, "edit"@)].push(("Bksp"@, "delete"@)).push(("Enter/Esc"@, "done"@))
        } else {
            seq![(pair(km.down@, km.up@), "move"@)].push((shown(km.tp_cycle@), "cycle"@)).push(
                ("↵/"@ + shown(km.tp_edit@), "edit"@),
            ).push((shown(km.tp_submit@), "trigger"@)).push((shown(km.back@), "cancel"@))
        },
        _ => seq![(shown(km.open_browser@), "open"@)].push((shown(km.back@), "back"@)).push(
            (shown(km.quit@), "quit"@),
        ),
    }
}

fn plain_hints(state: &App) -> (v: Vec<Hint>)
    ensures
        v.deep_view() == plain_keys(*state),
{
    let km = &state.keymap;
    let mut v: Vec<Hint> = none();
    match state.view {
        Screen::GitDiff => {
            hint_pair(&mut v, &km.down, &km.up, "scroll");
            hint_pair(&mut v, &km.page_down, &km.page_up, "page");
            hint_pair(&mut v, &km.next_step, &km.prev_step, "next/prev file");
            hint(&mut v, &km.git_stage, "stage/unstage");
            hint(&mut v, &km.back, "back");
        },
        Screen::Workflows => {
            hint_as(&mut v, "↵", "runs");
            hint(&mut v, &km.trigger, "trigger");
            hint(&mut v, &km.watch, "watch");
            hint(&mut v, &km.finder, "find");
            hint(&mut v, &km.repos_view, "repos");
            hint(&mut v, &km.open_browser, "open");
            hint(&mut v, &km.quit, "quit");
        },
        Screen::Runs => {
            hint_as(&mut v, "↵", "detail");
            hint(&mut v, &km.trigger, "trigger");
            hint(&mut v, &km.rerun, "rerun");
            hint(&mut v, &km.rerun_failed, "rerun-failed");
            hint(&mut v, &km.cancel_run, "cancel");
            hint(&mut v, &km.watch, "watch");
            hint(&mut v, &km.finder, "find");
            hint(&mut v, &km.open_browser, "open");
            hint(&mut v, &km.back, "back");
        },
        Screen::RunDetail => {
            hint_pair(&mut v, &km.down, &km.up, "step");
            put(&mut v, (cat2("↵/", display_key(&km.open_logs)), "logs"));
            hint(&mut v, &km.open_browser, "open");
            hint(&mut v, &km.diff, "diff");
            hint(&mut v, &km.back, "back");
            hint(&mut v, &km.quit, "quit");
        },
        Screen::TriggerPrompt => {
            let editing = match &state.trigger_prompt {
                Some(p) => p.editing,
                None => false,
            };
            if editing {
                hint_as(&mut v, "type", "edit");
                hint_as(&mut v, "Bksp", "delete");
                hint_as(&mut v, "Enter/Esc", "done");
            } else {
                hint_pair(&mut v, &km.down, &km.up, "move");
                hint(&mut v, &km.tp_cycle, "cycle");
                put(&mut v, (cat2("↵/", display_key(&km.tp_edit)), "edit"));
                hint(&mut v, &km.tp_submit, "trigger");
                hint(&mut v, &km.back, "cancel");
            }
        },
        _ => {
            hint(&mut v, &km.open_browser, "open");
            hint(&mut v, &km.back, "back");
            hint(&mut v, &km.quit, "quit");
        },
    }
    v
}

/// The keys of the screen, help last: it is the way in to all the others, so
/// it belongs on every one.
pub open spec fn screen_keys(state: App) -> Seq<HintV> {
    (match state.view {
        Screen::Repos => repos_keys(state),
        Screen::BatchCommit => batch_keys(state),
        Screen::GitStatus => status_keys(state),
        Screen::Logs => log_keys(state),
        _ => plain_keys(state),
    }).push((shown(state.keymap.help@), "help"@))
}

/// The keys of the screen.
pub fn screen_hints(state: &App) -> (v: Vec<Hint>)
    ensures
        v.deep_view() == screen_keys(*state),
{
    let mut v = match state.view {
        Screen::Repos => repos_hints(state),
        Screen::BatchCommit => batch_hints(state),
        Screen::GitStatus => status_hints(state),
        Screen::Logs => log_hints(state),
        _ => plain_hints(state),
    };
    hint(&mut v, &state.keymap.help, "help");
    v
}

/// Help is offered on every screen, whatever its key is, and always last.
pub proof fn law_help_is_always_offered(state: App)
    ensures
        screen_keys(state).len() > 0,
        screen_keys(state).last() == (shown(state.keymap.help@), "help"@),
{
}

// ── Drawing ────────────────────────────────────────────────────────────────

/// The first `n` hints as spans, two blanks between them. The last of all wears
/// the beacon's colours while it is lit.
pub open spec fn hint_spans(hints: Seq<HintV>, beacon: Option<u64>, n: int) -> Seq<SpanV>
    decreases n,
{
    if n <= 0 {
        seq![sp(" "@, plain())]
    } else {
        let front = push_if(hint_spans(hints, beacon, n - 1), n > 1, sp("  "@, plain()));
        let lit = n == hints.len() && beacon is Some;
        front.push(
            sp(
                hints[n - 1].0,
                if lit {
                    ink(beam(Role::TextBright, beacon->0)).bold()
                } else {
                    fg(Role::TextBright).bold()
                },
            ),
        ).push(sp(" "@, plain())).push(
            sp(
                hints[n - 1].1,
                if lit {
                    ink(beam(Role::TextMuted, beacon->0))
                } else {
                    fg(Role::TextMuted)
                },
            ),
        )
    }
}

/// A colour breathing toward the accent, shallower as the session ages.
#[verifier::allow_in_spec]
pub fn beam(from: Role, tick: u64) -> Paint
    returns
        (Paint::Mix { from, to: Role::Accent, by: Weight::Beacon { tick } }),
{
    Paint::Mix { from, to: Role::Accent, by: Weight::Beacon { tick } }
}

/// The tick of the help beacon while it is lit: for a session's first seconds,
/// until help has been opened.
pub open spec fn beacon(state: App) -> Option<u64> {
    if !state.help_seen && state.tick_count < HELP_BEACON_TICKS {
        Some(state.tick_count)
    } else {
        None
    }
}

fn hint_spans_of(hints: &Vec<Hint>, lit: Option<u64>) -> (v: Vec<Span>)
    ensures
        v.deep_view() == hint_spans(hints.deep_view(), lit, hints@.len() as int),
{
    let ghost h = hints.deep_view();
    let mut v: Vec<Span> = none();
    say(&mut v, " ", plain());
    let mut i: usize = 0;
    while i < hints.len()
        invariant
            i <= hints@.len(),
            h == hints.deep_view(),
            v.deep_view() == hint_spans(h, lit, i as int),
        decreases hints@.len() - i,
    {
        assert(h[i as int] == hints@[i as int].deep_view());
        if i > 0 {
            say(&mut v, "  ", plain());
        }
        let last = i + 1 == hints.len();
        let (key, what) = match lit {
            Some(t) if last => (
                ink(beam(Role::TextBright, t)).bold(),
                ink(beam(Role::TextMuted, t)),
            ),
            _ => (fg(Role::TextBright).bold(), fg(Role::TextMuted)),
        };
        say(&mut v, &hints[i].0, key);
        say(&mut v, " ", plain());
        say(&mut v, hints[i].1, what);
        i = i + 1;
    }
    v
}

/// The colour of the footer's message.
#[verifier::allow_in_spec]
pub fn message_role(kind: StatusKind) -> Role
    returns
        (match kind {
            StatusKind::Error => Role::Failure,
            StatusKind::Success => Role::Success,
            StatusKind::Info => Role::TextBright,
        }),
{
    match kind {
        StatusKind::Error => Role::Failure,
        StatusKind::Success => Role::Success,
        StatusKind::Info => Role::TextBright,
    }
}

/// Everything on the footer: the keys, how many repos are marked beside the key
/// that would take them, whether anything is pending, and the last message.
pub open spec fn footer_spans(state: App) -> Seq<SpanV> {
    if state.push_prompt is Some {
        hint_spans(push_keys(), None, push_keys().len() as int)
    } else if state.finder is Some {
        hint_spans(finder_keys(), None, finder_keys().len() as int)
    } else {
        let keys = hint_spans(
            screen_keys(state),
            beacon(state),
            screen_keys(state).len() as int,
        );
        let marks = push_if(
            keys,
            state.view == Screen::Repos && state.repo_marks@.len() > 0,
            sp("   ◆ "@ + dec(state.repo_marks@.len()) + " marked"@, fg(Role::Accent).bold()),
        );
        let busy = push_if(
            marks,
            state.pending > 0,
            sp("  "@ + state.spinner@, fg(Role::Accent)),
        );
        match state.status_msg {
            Some(msg) => busy.push(sp("   │   "@, fg(Role::Border))).push(
                sp(msg@, fg(message_role(state.status_kind))),
            ),
            None => busy,
        }
    }
}

/// The footer.
pub open spec fn footer_ops(state: App, area: Rect) -> Seq<OpV> {
    seq![
        OpV::Text {
            area,
            lines: seq![ln(footer_spans(state))],
            wrap: false,
            scroll: 0,
            ground: bg(Role::Surface),
        },
    ]
}

fn footer_spans_of(state: &App) -> (v: Vec<Span>)
    ensures
        v.deep_view() == footer_spans(*state),
{
    broadcast use crate::list::lemma_deep_len;

    // The push question owns the keyboard, and its keys are not the working
    // tree's; so does the finder while it is up.
    if state.push_prompt.is_some() {
        let mut h: Vec<Hint> = none();
        hint_as(&mut h, "↵", "take the highlighted answer");
        hint_as(&mut h, "y/n", "answer outright");
        hint_as(&mut h, "←/→", "switch");
        hint_as(&mut h, "Esc", "not now");
        return hint_spans_of(&h, None);
    }
    if state.finder.is_some() {
        let mut h: Vec<Hint> = none();
        hint_as(&mut h, "type", "filter");
        hint_as(&mut h, "↑/↓", "move");
        hint_as(&mut h, "↵", "select");
        hint_as(&mut h, "Esc", "cancel");
        return hint_spans_of(&h, None);
    }
    let lit: Option<u64> = if !state.help_seen && state.tick_count < HELP_BEACON_TICKS {
        Some(state.tick_count)
    } else {
        None
    };
    let hints = screen_hints(state);
    let mut v = hint_spans_of(&hints, lit);
    if state.view == Screen::Repos && state.repo_marks.len() > 0 {
        let n = num(state.repo_marks.len() as u128);
        say_of(&mut v, cat3("   ◆ ", &n, " marked"), fg(Role::Accent).bold());
    }
    if state.pending > 0 {
        say_of(&mut v, cat2("  ", &state.spinner), fg(Role::Accent));
    }
    if let Some(msg) = &state.status_msg {
        say(&mut v, "   │   ", fg(Role::Border));
        say(&mut v, msg, fg(message_role(state.status_kind)));
    }
    v
}

/// The footer: the keys of the screen, and the last thing that happened.
pub fn render_footer(state: &App, area: Rect) -> (ops: Vec<Op>)
    ensures
        ops.deep_view() == footer_ops(*state, area),
{
    let mut lines: Vec<Line> = none();
    put(&mut lines, line(footer_spans_of(state)));
    let mut ops: Vec<Op> = none();
    put(
        &mut ops,
        Op::Text { area, lines, wrap: false, scroll: 0, ground: bg(Role::Surface) },
    );
    ops
}

} // verus!
