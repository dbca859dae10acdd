//! The questions: a commit message, a push, a search, a workflow's inputs.

use vstd::prelude::*;
use vstd::string::*;

use crate::columns::{cut, truncate};
use crate::dashboard::{staged, staged_count};
use crate::geometry::{centered_rect, centred, dialog, dialog_over, framed, inner_of, larger, less, lesser, no_padding, on_screen, Rect};
use crate::keys::{display_key, shown};
use crate::list::{count_if, each, find_of, first_where, none, push_if, put, put_all};
use crate::ops::{add_blank, add_frame, add_line, add_line_of, add_text, bold_border, bold_titled, boxed, in_a_box, just, one_line, say, say_of, text_op, Border, Op, OpV};
use crate::paint::{align_line, aligned, bg, fg, line, line_of, ln, ln1, plain, sp, span, span_of, Align, Line, LineV, Role, Span, SpanV};
use crate::state::{App, Finder, FinderKind, GitView, PromptField, PushPrompt, TriggerPrompt};
use crate::text::{align_left, cat3, cat4, cat5, chars_of, dec, join, joined, num, pad_right, plural, repeat_char, run_of};

verus! {

broadcast use vstd::string::group_string_axioms;

/// How wide a dialog is: its share of the screen, but never too narrow to type
/// in and never wider than there is.
pub open spec fn dialog_width(area: Rect, percent: int) -> int {
    let share = area.width * percent / 100;
    lesser(
        if share > 40 {
            share
        } else {
            40
        },
        area.width as int,
    )
}

fn dialog_width_of(area: Rect, percent: u16) -> (w: u16)
    requires
        percent <= 100,
    ensures
        w == dialog_width(area, percent as int),
        w <= area.width,
{
    assert(0 <= area.width * percent <= 0xffff * 100) by (nonlinear_arith)
        requires
            area.width <= 0xffff,
            percent <= 100,
    ;
    let share: u32 = area.width as u32 * percent as u32 / 100;
    let most: u32 = if share > 40 {
        share
    } else {
        40
    };
    if most < area.width as u32 {
        most as u16
    } else {
        area.width
    }
}

/// A dialog over everything: cleared, framed, and its lines inside.
pub open spec fn popup(area: Rect, title: Seq<char>, lines: Seq<LineV>) -> Seq<OpV> {
    seq![OpV::Clear(area)].push(
        OpV::Frame { area, border: bold_titled(title, Role::Accent, Align::Center) },
    ).push(text_op(framed(area, no_padding()), lines))
}

fn popup_of(area: Rect, title: &str, lines: Vec<Line>) -> (ops: Vec<Op>)
    requires
        on_screen(area),
    ensures
        ops.deep_view() == popup(area, title@, lines.deep_view()),
{
    let mut ops: Vec<Op> = none();
    put(&mut ops, Op::Clear(area));
    add_frame(&mut ops, area, bold_border(title, Role::Accent, Align::Center));
    add_text(&mut ops, inner_of(area, no_padding()), lines);
    ops
}

/// A line being typed, with a block for a caret.
pub open spec fn typed(text: Seq<char>) -> LineV {
    ln(
        seq![sp("  "@, fg(Role::Accent))].push(sp(text, fg(Role::TextBright))).push(
            sp("█"@, fg(Role::Accent)),
        ),
    )
}

fn typed_of(text: &str) -> (l: Line)
    ensures
        l.deep_view() == typed(text@),
{
    let mut v: Vec<Span> = none();
    say(&mut v, "  ", fg(Role::Accent));
    say(&mut v, text, fg(Role::TextBright));
    say(&mut v, "█", fg(Role::Accent));
    line(v)
}

// ── The log search ─────────────────────────────────────────────────────────

/// The box a log is searched from.
pub open spec fn search_ops(state: App, area: Rect) -> Seq<OpV> {
    match state.log.search_input {
        None => Seq::empty(),
        Some(text) => popup(
            dialog(area, dialog_width(area, 60) as u16, 3, 2),
            " Search "@,
            seq![typed(text@)],
        ),
    }
}

/// The box a log is searched from.
pub fn render_search_overlay(state: &App, area: Rect) -> (ops: Vec<Op>)
    requires
        on_screen(area),
        area.y + 3 <= 0xffff,
    ensures
        ops.deep_view() == search_ops(*state, area),
{
    match &state.log.search_input {
        None => none(),
        Some(text) => {
            let w: u16 = dialog_width_of(area, 60);
            let at = dialog_over(area, w, 3, 2);
            let mut lines: Vec<Line> = none();
            put(&mut lines, typed_of(text));
            popup_of(at, " Search ", lines)
        },
    }
}

// ── The commit message ─────────────────────────────────────────────────────

/// How many files are staged in the tree on screen.
pub open spec fn staged_in(g: GitView) -> nat {
    match g.status {
        Some(s) => count_if(s.entries@, staged()),
        None => 0,
    }
}

/// The commit message prompt, drawn over the working tree.
pub open spec fn commit_ops(state: App, area: Rect) -> Seq<OpV> {
    match state.git_view {
        None => Seq::empty(),
        Some(g) => match g.commit_input {
            None => Seq::empty(),
            Some(text) => popup(
                dialog(
                    area,
                    dialog_width(area, 70) as u16,
                    lesser(4, area.height as int) as u16,
                    2,
                ),
                " Commit "@ + dec(staged_in(g)) + " staged file"@ + plural(
                    staged_in(g) as usize,
                )@ + " "@,
                seq![typed(text@)].push(
                    ln1(sp("  ↵ commit · Esc cancel"@, fg(Role::TextFaint))),
                ),
            ),
        },
    }
}

/// The commit message prompt, drawn over the working tree.
pub fn render_commit_overlay(state: &App, area: Rect) -> (ops: Vec<Op>)
    requires
        on_screen(area),
    ensures
        ops.deep_view() == commit_ops(*state, area),
{
    match &state.git_view {
        None => none(),
        Some(g) => match &g.commit_input {
            None => none(),
            Some(text) => {
                let staged: usize = match &g.status {
                    Some(s) => staged_count(s),
                    None => 0,
                };
                let w: u16 = dialog_width_of(area, 70);
                let h: u16 = if area.height > 4 {
                    4
                } else {
                    area.height
                };
                let at = dialog_over(area, w, h, 2);
                let n = num(staged as u128);
                let title = cat5(" Commit ", &n, " staged file", plural(staged), " ");
                let mut lines: Vec<Line> = none();
                put(&mut lines, typed_of(text));
                add_line_of(&mut lines, "  ↵ commit · Esc cancel", fg(Role::TextFaint));
                popup_of(at, &title, lines)
            },
        },
    }
}

// ── The push ───────────────────────────────────────────────────────────────

/// What is being asked. A first push creates the remote branch, which is a
/// different act from adding to one that exists.
pub open spec fn push_question(p: PushPrompt) -> Seq<char> {
    match p.batch_count {
        Some(n) => dec(n as nat) + " repo"@ + plural(n)@ + " committed — push them all?"@,
        None => if p.has_upstream {
            "committed — push "@ + p.branch@ + " to origin?"@
        } else {
            "committed — publish "@ + p.branch@ + " to origin?"@
        },
    }
}

/// An answer to pick.
pub open spec fn button(label: Seq<char>, selected: bool) -> SpanV {
    sp(
        "  "@ + label + "  "@,
        if selected {
            fg(Role::Surface).on(Role::Accent).bold()
        } else {
            fg(Role::TextMuted)
        },
    )
}

fn button_of(label: &str, selected: bool) -> (s: Span)
    ensures
        s.deep_view() == button(label@, selected),
{
    let t = cat3("  ", label, "  ");
    let style = if selected {
        fg(Role::Surface).on(Role::Accent).bold()
    } else {
        fg(Role::TextMuted)
    };
    span_of(t, style)
}

/// The push question, centred over whatever raised it.
pub open spec fn push_ops(state: App, area: Rect) -> Seq<OpV> {
    match state.push_prompt {
        None => Seq::empty(),
        Some(p) => {
            let at = dialog(
                area,
                lesser(46, area.width as int) as u16,
                lesser(6, area.height as int) as u16,
                2,
            );
            popup(
                at,
                " Push? "@,
                seq![
                    aligned(
                        ln1(
                            sp(
                                cut(
                                    push_question(p),
                                    framed(at, no_padding()).width as nat,
                                ),
                                fg(Role::TextBright),
                            ),
                        ),
                        Align::Center,
                    ),
                ].push(ln(Seq::empty())).push(
                    aligned(
                        ln(
                            seq![button("Yes"@, p.yes)].push(sp("   "@, plain())).push(
                                button("No"@, !p.yes),
                            ),
                        ),
                        Align::Center,
                    ),
                ).push(
                    aligned(
                        ln1(
                            sp(
                                "↵ take it · ←/→ switch · Esc not now"@,
                                fg(Role::TextFaint),
                            ),
                        ),
                        Align::Center,
                    ),
                ),
            )
        },
    }
}

/// The push question, centred over whatever raised it.
///
/// Two buttons rather than a key hint: the answer is a decision, and a decision
/// wants something to point at.
pub fn render_push_prompt(state: &App, area: Rect) -> (ops: Vec<Op>)
    requires
        on_screen(area),
    ensures
        ops.deep_view() == push_ops(*state, area),
{
    match &state.push_prompt {
        None => none(),
        Some(p) => {
            let w: u16 = if area.width > 46 {
                46
            } else {
                area.width
            };
            let h: u16 = if area.height > 6 {
                6
            } else {
                area.height
            };
            let at = dialog_over(area, w, h, 2);
            let inner = inner_of(at, no_padding());
            let what = match p.batch_count {
                Some(n) => {
                    let t = num(n as u128);
                    cat4(&t, " repo", plural(n), " committed — push them all?")
                },
                None => if p.has_upstream {
                    cat3("committed — push ", &p.branch, " to origin?")
                } else {
                    cat3("committed — publish ", &p.branch, " to origin?")
                },
            };
            let mut lines: Vec<Line> = none();
            let what = truncate(&what, inner.width as usize);
            put(
                &mut lines,
                align_line(line_of(span_of(what, fg(Role::TextBright))), Align::Center),
            );
            add_blank(&mut lines);
            let mut v: Vec<Span> = none();
            put(&mut v, button_of("Yes", p.yes));
            say(&mut v, "   ", plain());
            put(&mut v, button_of("No", !p.yes));
            put(&mut lines, align_line(line(v), Align::Center));
            put(
                &mut lines,
                align_line(
                    line_of(span("↵ take it · ←/→ switch · Esc not now", fg(Role::TextFaint))),
                    Align::Center,
                ),
            );
            popup_of(at, " Push? ", lines)
        },
    }
}

/// One answer is always picked, and only one.
pub proof fn law_one_answer_is_picked(p: PushPrompt)
    ensures
        button("Yes"@, p.yes).style != button("No"@, !p.yes).style,
{
}

// ── The finder ─────────────────────────────────────────────────────────────

/// What is being looked for.
#[verifier::allow_in_spec]
pub fn finder_label(k: FinderKind) -> &'static str
    returns
        (match k {
            FinderKind::Repos => "Find repo",
            FinderKind::Workflows => "Find workflow",
            FinderKind::Runs => "Find run",
            FinderKind::DetailItems => "Find job / step",
            FinderKind::GitEntries => "Find changed file",
        }),
{
    match k {
        FinderKind::Repos => "Find repo",
        FinderKind::Workflows => "Find workflow",
        FinderKind::Runs => "Find run",
        FinderKind::DetailItems => "Find job / step",
        FinderKind::GitEntries => "Find changed file",
    }
}

/// How many matches the finder asks for room to list.
pub open spec fn list_rows(f: Finder) -> int {
    let n = f.matches@.len() as int;
    if n < 1 {
        1
    } else if n > 12 {
        12
    } else {
        n
    }
}

/// How many matches are listed at once in a dialog `room` rows tall inside: what
/// is left of it under the query and its rule.
pub open spec fn rows_listed(f: Finder, room: int) -> int {
    larger(lesser(list_rows(f), less(room, 2)), 1)
}

/// The first match listed: the window follows the cursor down.
pub open spec fn list_start(f: Finder, room: int) -> int {
    less(f.cursor as int, rows_listed(f, room) - 1)
}

/// How many matches are listed.
pub open spec fn list_len(f: Finder, room: int) -> nat {
    lesser(less(f.matches@.len() as int, list_start(f, room)), rows_listed(f, room)) as nat
}

/// What match `row` is called.
pub open spec fn match_label(f: Finder, row: int) -> Seq<char> {
    let i = f.matches@[row] as int;
    if i < f.items@.len() {
        f.items@[i]@
    } else {
        ""@
    }
}

/// Match `row`, in a dialog `width` columns wide inside.
pub open spec fn match_line(f: Finder, row: int, width: int) -> LineV {
    let selected = row == f.cursor;
    LineV {
        style: if selected {
            bg(Role::SelectBg)
        } else {
            plain()
        },
        ..ln(
            seq![
                sp(
                    if selected {
                        "▶ "@
                    } else {
                        "  "@
                    },
                    fg(Role::Accent),
                ),
            ].push(
                sp(
                    cut(match_label(f, row), less(width, 3) as nat),
                    if selected {
                        fg(Role::TextBright).bold()
                    } else {
                        fg(Role::TextMuted)
                    },
                ),
            ),
        )
    }
}

/// Where the finder is drawn.
pub open spec fn finder_area(f: Finder, area: Rect) -> Rect {
    dialog(
        area,
        dialog_width(area, 70) as u16,
        lesser(list_rows(f) + 4, area.height as int) as u16,
        3,
    )
}

/// The finder's lines, in the room its dialog has inside.
pub open spec fn finder_lines(f: Finder, inner: Rect) -> Seq<LineV> {
    let width = inner.width as int;
    let start = list_start(f, inner.height as int);
    push_if(
        seq![typed(f.query@)].push(ln1(sp(run_of('─', width as nat), fg(Role::Border)))),
        f.matches@.len() == 0,
        ln1(sp("  no matches"@, fg(Role::TextFaint).italic())),
    ) + Seq::new(list_len(f, inner.height as int), |i: int| match_line(f, start + i, width))
}

/// The finder.
pub open spec fn finder_ops(state: App, area: Rect) -> Seq<OpV> {
    match state.finder {
        None => Seq::empty(),
        Some(f) => {
            let at = finder_area(f, area);
            popup(
                at,
                " "@ + finder_label(f.kind)@ + "  ("@ + dec(f.matches@.len()) + "/"@ + dec(
                    f.items@.len(),
                ) + ") "@,
                finder_lines(f, framed(at, no_padding())),
            )
        },
    }
}

/// The match the cursor is on is listed, and on a row the dialog has: wherever it
/// has any to list matches on, under the query and its rule.
pub proof fn law_the_cursor_stays_on_screen(f: Finder, room: int)
    requires
        f.cursor < f.matches@.len(),
        room >= 3,
    ensures
        list_start(f, room) <= f.cursor < list_start(f, room) + list_len(f, room),
        2 + f.cursor - list_start(f, room) < room,
{
}

fn match_line_of(f: &Finder, row: usize, width: u16) -> (l: Line)
    requires
        row < f.matches@.len(),
    ensures
        l.deep_view() == match_line(*f, row as int, width as int),
{
    let selected = row == f.cursor;
    let i: usize = f.matches[row];
    let label = if i < f.items.len() {
        f.items[i].as_str()
    } else {
        ""
    };
    let label = truncate(label, width.saturating_sub(3) as usize);
    let mut v: Vec<Span> = none();
    if selected {
        say(&mut v, "▶ ", fg(Role::Accent));
        say_of(&mut v, label, fg(Role::TextBright).bold());
        let l = line(v);
        Line { spans: l.spans, style: bg(Role::SelectBg), align: l.align }
    } else {
        say(&mut v, "  ", fg(Role::Accent));
        say_of(&mut v, label, fg(Role::TextMuted));
        line(v)
    }
}

/// The finder.
pub fn render_finder_overlay(state: &App, area: Rect) -> (ops: Vec<Op>)
    requires
        on_screen(area),
    ensures
        ops.deep_view() == finder_ops(*state, area),
{
    match &state.finder {
        None => none(),
        Some(f) => {
            let w: u16 = dialog_width_of(area, 70);
            let n: usize = f.matches.len();
            let rows: u16 = if n < 1 {
                1
            } else if n > 12 {
                12
            } else {
                n as u16
            };
            let h: u16 = if rows + 4 < area.height {
                rows + 4
            } else {
                area.height
            };
            let at = dialog_over(area, w, h, 3);
            let inner = inner_of(at, no_padding());
            let a = num(n as u128);
            let b = num(f.items.len() as u128);
            let mut title = cat5(" ", finder_label(f.kind), "  (", &a, "/");
            title.append(&b);
            title.append(") ");
            let mut lines: Vec<Line> = none();
            put(&mut lines, typed_of(&f.query));
            let rule = repeat_char('─', inner.width as usize);
            add_line_of(&mut lines, &rule, fg(Role::Border));
            if n == 0 {
                add_line_of(&mut lines, "  no matches", fg(Role::TextFaint).italic());
            }
            let under: u16 = inner.height.saturating_sub(2);
            let listed: usize = if under < 1 {
                1
            } else if rows < under {
                rows as usize
            } else {
                under as usize
            };
            assert(listed == rows_listed(*f, inner.height as int));
            let start: usize = f.cursor.saturating_sub(listed - 1);
            let left: usize = if start < n {
                n - start
            } else {
                0
            };
            let len: usize = if left < listed {
                left
            } else {
                listed
            };
            let width: u16 = inner.width;
            let ghost g = |i: int| match_line(*f, start + i, width as int);
            let matches = each(
                len,
                (|i: usize| -> (l: Line)
                    requires
                        i < len,
                        start + len <= f.matches@.len(),
                    ensures
                        l.deep_view() == match_line(*f, start + i, width as int),
                {
                    match_line_of(f, start + i, width)
                }),
                Ghost(g),
            );
            put_all(&mut lines, matches);
            assert(lines.deep_view() =~= finder_lines(*f, inner));
            popup_of(at, &title, lines)
        },
    }
}

// ── The workflow's inputs ──────────────────────────────────────────────────

/// The widest of the first `n` names, and never under eight.
pub open spec fn name_width(fields: Seq<PromptField>, n: int) -> nat
    decreases n,
{
    if n <= 0 {
        8
    } else {
        let above = name_width(fields, n - 1);
        let here = fields[n - 1].name@.len();
        if here > above {
            here
        } else {
            above
        }
    }
}

/// Every name fits the column the names are set in.
pub proof fn law_names_share_a_column(fields: Seq<PromptField>, n: int, i: int)
    requires
        0 <= i < n <= fields.len(),
    ensures
        fields[i].name@.len() <= name_width(fields, n),
        align_left(fields[i].name@, name_width(fields, n)).len() == name_width(fields, n),
    decreases n,
{
    if i < n - 1 {
        law_names_share_a_column(fields, n - 1, i);
    }
}

/// Fields with a list to choose from.
pub open spec fn has_options() -> spec_fn(PromptField) -> bool {
    |f: PromptField| f.options is Some
}

fn is_choice(f: &PromptField) -> (r: bool)
    ensures
        r == has_options()(*f),
{
    f.options.is_some()
}

/// Input `i`. A value that was filled in says so: one nobody noticed is how a
/// deploy goes to yesterday's target.
pub open spec fn field_spans(p: TriggerPrompt, i: int) -> Seq<SpanV> {
    let f = p.fields@[i];
    let selected = i == p.cursor;
    let v = seq![
        sp(
            if selected {
                "▶ "@
            } else {
                "  "@
            },
            plain(),
        ),
    ].push(
        sp(
            align_left(f.name@, name_width(p.fields@, p.fields@.len() as int)),
            if selected {
                fg(Role::Primary).bold()
            } else {
                plain()
            },
        ),
    ).push(sp("  "@, plain())).push(
        sp(
            if f.value@.len() == 0 {
                "(empty)"@
            } else {
                f.value@
            },
            if selected && p.editing {
                fg(Role::Accent).bold()
            } else if selected {
                fg(Role::TextBright).bold()
            } else {
                fg(Role::TextMuted)
            },
        ),
    ).push(
        sp(
            if selected && p.editing {
                "_"@
            } else {
                ""@
            },
            fg(Role::Accent),
        ),
    );
    let v = push_if(v, f.recalled, sp("  ↺ last used"@, fg(Role::TextFaint)));
    let v = push_if(v, f.required, sp("  (required)"@, fg(Role::Failure)));
    match f.options {
        Some(o) => v.push(
            sp(
                "  ["@ + joined(o.deep_view(), "/"@, o@.len() as int) + "]"@,
                fg(Role::TextFaint),
            ),
        ),
        None => v,
    }
}

/// The keys that answer.
pub open spec fn prompt_hints(state: App, p: TriggerPrompt) -> Seq<SpanV> {
    let v = seq![sp(shown(state.keymap.tp_submit@), fg(Role::TextBright).bold())].push(
        sp(" trigger  "@, fg(Role::TextFaint)),
    ).push(sp(shown(state.keymap.back@), fg(Role::TextBright).bold())).push(
        sp(" cancel"@, fg(Role::TextFaint)),
    );
    if first_where(p.fields@, has_options()) < p.fields@.len() {
        v.push(sp("  Space"@, fg(Role::TextBright).bold())).push(
            sp(" cycle"@, fg(Role::TextFaint)),
        )
    } else {
        v
    }
}

/// The prompt's lines.
pub open spec fn prompt_lines(state: App, p: TriggerPrompt) -> Seq<LineV> {
    push_if(
        Seq::new(p.fields@.len(), |i: int| ln(field_spans(p, i))),
        p.fields@.len() == 0,
        ln1(sp("(no inputs)"@, plain())),
    ).push(ln(Seq::empty())).push(ln(prompt_hints(state, p)))
}

/// The inputs a workflow asks for before it is started.
pub open spec fn prompt_ops(state: App, area: Rect) -> Seq<OpV> {
    let modal = centred(70, 80, area);
    match state.trigger_prompt {
        None => boxed(modal, "Trigger"@, one_line("(no prompt)"@, plain()), false),
        Some(p) => boxed(
            modal,
            "Trigger: "@ + p.workflow_name@ + "  ("@ + p.workflow_file@ + ")  on "@
                + state.current_branch@,
            prompt_lines(state, p),
            true,
        ),
    }
}

fn name_width_of(fields: &Vec<PromptField>) -> (w: usize)
    ensures
        w == name_width(fields@, fields@.len() as int),
{
    let mut w: usize = 8;
    let mut i: usize = 0;
    while i < fields.len()
        invariant
            i <= fields@.len(),
            w == name_width(fields@, i as int),
        decreases fields@.len() - i,
    {
        let n: usize = chars_of(&fields[i].name).len();
        if n > w {
            w = n;
        }
        i = i + 1;
    }
    w
}

fn field_line(p: &TriggerPrompt, i: usize, width: usize) -> (l: Line)
    requires
        i < p.fields@.len(),
        width == name_width(p.fields@, p.fields@.len() as int),
    ensures
        l.deep_view() == ln(field_spans(*p, i as int)),
{
    let f = &p.fields[i];
    let selected = i == p.cursor;
    let mut v: Vec<Span> = none();
    let name = pad_right(&f.name, width);
    if selected {
        say(&mut v, "▶ ", plain());
        say_of(&mut v, name, fg(Role::Primary).bold());
    } else {
        say(&mut v, "  ", plain());
        say_of(&mut v, name, plain());
    }
    say(&mut v, "  ", plain());
    let style = if selected && p.editing {
        fg(Role::Accent).bold()
    } else if selected {
        fg(Role::TextBright).bold()
    } else {
        fg(Role::TextMuted)
    };
    if chars_of(&f.value).len() == 0 {
        say(&mut v, "(empty)", style);
    } else {
        say(&mut v, &f.value, style);
    }
    if selected && p.editing {
        say(&mut v, "_", fg(Role::Accent));
    } else {
        say(&mut v, "", fg(Role::Accent));
    }
    if f.recalled {
        say(&mut v, "  ↺ last used", fg(Role::TextFaint));
    }
    if f.required {
        say(&mut v, "  (required)", fg(Role::Failure));
    }
    if let Some(o) = &f.options {
        let all = join(o, "/");
        say_of(&mut v, cat3("  [", &all, "]"), fg(Role::TextFaint));
    }
    line(v)
}

fn prompt_lines_of(state: &App, p: &TriggerPrompt) -> (v: Vec<Line>)
    ensures
        v.deep_view() == prompt_lines(*state, *p),
{
    let width: usize = name_width_of(&p.fields);
    let ghost g = |i: int| ln(field_spans(*p, i));
    let mut lines = each(
        p.fields.len(),
        (|i: usize| -> (l: Line)
            requires
                i < p.fields@.len(),
                width == name_width(p.fields@, p.fields@.len() as int),
            ensures
                l.deep_view() == ln(field_spans(*p, i as int)),
        {
            field_line(p, i, width)
        }),
        Ghost(g),
    );
    assert(lines.deep_view() =~= Seq::new(p.fields@.len(), |i: int| ln(field_spans(*p, i))));
    if p.fields.len() == 0 {
        add_line_of(&mut lines, "(no inputs)", plain());
    }
    add_blank(&mut lines);
    let mut h: Vec<Span> = none();
    say(&mut h, display_key(&state.keymap.tp_submit), fg(Role::TextBright).bold());
    say(&mut h, " trigger  ", fg(Role::TextFaint));
    say(&mut h, display_key(&state.keymap.back), fg(Role::TextBright).bold());
    say(&mut h, " cancel", fg(Role::TextFaint));
    if find_of(&p.fields, is_choice, Ghost(has_options())) < p.fields.len() {
        say(&mut h, "  Space", fg(Role::TextBright).bold());
        say(&mut h, " cycle", fg(Role::TextFaint));
    }
    add_line(&mut lines, h);
    lines
}

/// The inputs a workflow asks for before it is started.
pub fn render_trigger_prompt(state: &App, area: Rect) -> (ops: Vec<Op>)
    requires
        on_screen(area),
    ensures
        ops.deep_view() == prompt_ops(*state, area),
{
    let modal = centered_rect(70, 80, area);
    match &state.trigger_prompt {
        None => in_a_box(modal, "Trigger", just("(no prompt)", plain()), false),
        Some(p) => {
            let mut title = cat5(
                "Trigger: ",
                &p.workflow_name,
                "  (",
                &p.workflow_file,
                ")  on ",
            );
            title.append(&state.current_branch);
            in_a_box(modal, &title, prompt_lines_of(state, p), true)
        },
    }
}

} // verus!
