//! The working tree: its files, and the output of the commands run in it.

use vstd::prelude::*;
use vstd::string::*;

use crate::columns::{cut, truncate};
use crate::dashboard::{staged, staged_count, unstaged, unstaged_count};
use crate::geometry::{framed, inner_of, inside, larger, less, lesser, no_padding, on_screen, split, split_into, Constraint, Rect};
use crate::hits::{all_rows, register_rows, table_clicks, RowKind};
use crate::keys::{op_key_rail, op_rail, rail_line, rail_text};
use crate::list::{count_if, each, none, push_if, put, put_all};
use crate::ops::{add_blank_cell, add_cell, add_frame, add_line, add_line_of, add_table, add_text, blank, boxed, cell1, in_a_box, just, one_line, plain_panel, say, say_of, styled_block, tell, text_op, Border, BorderV, Cell, Op, OpV, Reading, Row, RowV, Table, TableV};
use crate::paint::{align_line, aligned, bg, fg, line_of, ln, ln1, plain, sp, span, span_of, Align, Line, LineV, Paint, Role, Span, SpanV, Style};
use crate::state::{App, GitOp, GitView, OutputLine, TreeEntry};
use crate::text::{cat2, cat3, cat4, cat5, dec, num, same};

verus! {

broadcast use vstd::string::group_string_axioms;

// ── The output of a command ────────────────────────────────────────────────

impl GitOp {
    /// The first line on screen: the newest lines while following, otherwise
    /// the line held at the top, as far as there are lines to fill the pane.
    pub open spec fn first_line(&self, viewport: int) -> int {
        let last = less(self.lines@.len() as int, viewport);
        match self.held {
            None => last,
            Some(h) => lesser(h as int, last),
        }
    }

    /// The first line on screen.
    pub fn scroll_offset(&self, viewport: usize) -> (r: usize)
        ensures
            r == self.first_line(viewport as int),
            r <= self.lines@.len(),
    {
        let last: usize = self.lines.len().saturating_sub(viewport);
        match self.held {
            None => last,
            Some(h) => if h <= last {
                h
            } else {
                last
            },
        }
    }
}

/// The pane's title.
pub open spec fn op_title(state: App, op: GitOp) -> Seq<char> {
    if !op.finished {
        state.spinner_slow@ + " "@ + op.label@ + " · "@ + dec(op.elapsed_secs as nat) + "s"@
    } else if op.failed {
        "✗ "@ + op.label@ + " failed"@ + (if op.errors > 0 {
            " · "@ + dec(op.errors as nat) + "✗"@
        } else {
            ""@
        })
    } else {
        "✓ "@ + op.label@
    }
}

/// The pane's colour.
#[verifier::allow_in_spec]
pub fn op_role(op: &GitOp) -> Role
    returns
        (if !op.finished {
            Role::Warning
        } else if op.failed {
            Role::Failure
        } else {
            Role::Success
        }),
{
    if !op.finished {
        Role::Warning
    } else if op.failed {
        Role::Failure
    } else {
        Role::Success
    }
}

fn op_title_of(state: &App, op: &GitOp) -> (t: String)
    ensures
        t@ == op_title(*state, *op),
{
    if !op.finished {
        let n = num(op.elapsed_secs as u128);
        let mut t = cat4(&state.spinner_slow, " ", &op.label, " · ");
        t.append(&n);
        t.append("s");
        t
    } else if op.failed {
        let tally = if op.errors > 0 {
            let n = num(op.errors as u128);
            cat3(" · ", &n, "✗")
        } else {
            "".to_string()
        };
        cat4("✗ ", &op.label, " failed", &tally)
    } else {
        cat2("✓ ", &op.label)
    }
}

/// One line of output, coloured by what it says.
pub open spec fn output_line(l: OutputLine) -> LineV {
    ln1(
        sp(
            l.text@,
            fg(
                if l.error {
                    Role::Failure
                } else if l.warn {
                    Role::Warning
                } else {
                    Role::Text
                },
            ),
        ),
    )
}

fn output_line_of(l: &OutputLine) -> (r: Line)
    ensures
        r.deep_view() == output_line(*l),
{
    let role = if l.error {
        Role::Failure
    } else if l.warn {
        Role::Warning
    } else {
        Role::Text
    };
    line_of(span(&l.text, fg(role)))
}

/// What the pane shows: the lines from the first on screen, a note above them
/// when the start of a long run was dropped, or a word of patience.
pub open spec fn op_body(op: GitOp, viewport: int) -> Seq<LineV> {
    let first = op.first_line(viewport);
    let note = push_if(
        Seq::<LineV>::empty(),
        first == 0 && op.dropped > 0,
        ln1(sp("⋯ "@ + dec(op.dropped as nat) + " earlier lines dropped ⋯"@, fg(Role::TextMuted))),
    );
    let n = lesser(op.lines@.len() - first, viewport - note.len());
    let all = note + Seq::new(n as nat, |i: int| output_line(op.lines@[first + i]));
    if all.len() == 0 {
        one_line("waiting for output…"@, fg(Role::TextMuted))
    } else {
        all
    }
}

fn op_body_of(op: &GitOp, viewport: usize) -> (v: Vec<Line>)
    requires
        viewport > 0,
    ensures
        v.deep_view() == op_body(*op, viewport as int),
{
    broadcast use crate::list::lemma_deep_len;

    let first: usize = op.scroll_offset(viewport);
    let mut v: Vec<Line> = none();
    // Say so when the head of a long run was dropped, rather than let the top
    // of the pane read as the start of the output.
    if first == 0 && op.dropped > 0 {
        let n = num(op.dropped as u128);
        let t = cat3("⋯ ", &n, " earlier lines dropped ⋯");
        add_line_of(&mut v, &t, fg(Role::TextMuted));
    }
    assert(v.deep_view().len() <= 1);
    let room: usize = viewport - v.len();
    let left: usize = op.lines.len() - first;
    let n: usize = if left <= room {
        left
    } else {
        room
    };
    let ghost g = |i: int| output_line(op.lines@[first + i]);
    let body = each(
        n,
        (|i: usize| -> (l: Line)
            requires
                i < n,
                first + n <= op.lines@.len(),
            ensures
                l.deep_view() == output_line(op.lines@[first + i]),
        {
            output_line_of(&op.lines[first + i])
        }),
        Ghost(g),
    );
    proof {
        assert(body.deep_view() =~= Seq::new(n as nat, |i: int| output_line(op.lines@[first + i])));
    }
    put_all(&mut v, body);
    if v.len() == 0 {
        just("waiting for output…", fg(Role::TextMuted))
    } else {
        v
    }
}

/// The pane's border: its title in its own colour, its keys along the bottom.
pub open spec fn op_border(state: App, op: GitOp, width: u16) -> BorderV {
    BorderV {
        style: fg(op_role(&op)),
        top: seq![ln1(sp(" "@ + op_title(state, op) + " "@, fg(op_role(&op)).bold()))],
        bottom: seq![aligned(rail_text(op_rail(op, state), width), Align::Right)],
        padding: no_padding(),
        ground: plain(),
    }
}

fn op_border_of(state: &App, op: &GitOp, width: u16) -> (b: Border)
    ensures
        b.deep_view() == op_border(*state, *op, width),
{
    let title = op_title_of(state, op);
    let rail = op_key_rail(op, state);
    let mut top: Vec<Line> = none();
    put(&mut top, line_of(span_of(cat3(" ", &title, " "), fg(op_role(op)).bold())));
    let mut bottom: Vec<Line> = none();
    put(&mut bottom, align_line(rail_line(&rail, width), Align::Right));
    Border { style: fg(op_role(op)), top, bottom, padding: no_padding(), ground: plain() }
}

/// The output of a running, or just finished, commit or push.
#[verifier::opaque]
pub open spec fn op_ops(state: App, op: GitOp, area: Rect) -> Seq<OpV> {
    let inner = framed(area, no_padding());
    let frame = seq![OpV::Frame { area, border: op_border(state, op, area.width) }];
    if inner.height == 0 {
        frame
    } else {
        frame.push(OpV::Tell(Reading::OpViewport(inner.height))).push(
            text_op(inner, op_body(op, inner.height as int)),
        )
    }
}

/// The output of a running, or just finished, commit or push.
///
/// This pane exists for hooks: while one runs the view would otherwise sit
/// there looking hung, and when it fails its output is the only account of why.
pub fn render_op_output(state: &App, op: &GitOp, area: Rect) -> (ops: Vec<Op>)
    requires
        on_screen(area),
    ensures
        ops.deep_view() == op_ops(*state, *op, area),
{
    let mut ops: Vec<Op> = none();
    add_frame(&mut ops, area, op_border_of(state, op, area.width));
    let inner = inner_of(area, no_padding());
    proof {
        reveal(op_ops);
    }
    if inner.height == 0 {
        return ops;
    }
    tell(&mut ops, Reading::OpViewport(inner.height));
    add_text(&mut ops, inner, op_body_of(op, inner.height as usize));
    ops
}

// ── The working tree ───────────────────────────────────────────────────────

/// The changed files; none until the tree has been read.
pub open spec fn files(gv: GitView) -> Seq<TreeEntry> {
    match gv.status {
        Some(s) => s.entries@,
        None => Seq::empty(),
    }
}

/// The panel's title: the repo, its branch, and how far that has drifted.
pub open spec fn tree_title(gv: GitView) -> Seq<char> {
    match gv.status {
        Some(s) => {
            let a = gv.spec@ + " — "@ + s.branch@;
            let b = if s.ahead > 0 {
                a + ("  ↑"@ + dec(s.ahead as nat))
            } else {
                a
            };
            let c = if s.behind > 0 {
                b + ("  ↓"@ + dec(s.behind as nat))
            } else {
                b
            };
            if !s.has_upstream {
                c + "  (no upstream)"@
            } else {
                c
            }
        },
        None => gv.spec@ + " — loading…"@,
    }
}

fn tree_title_of(gv: &GitView) -> (t: String)
    ensures
        t@ == tree_title(*gv),
{
    match &gv.status {
        Some(s) => {
            let mut t = cat3(&gv.spec, " — ", &s.branch);
            if s.ahead > 0 {
                let n = num(s.ahead as u128);
                let x = cat2("  ↑", &n);
                t.append(&x);
            }
            if s.behind > 0 {
                let n = num(s.behind as u128);
                let x = cat2("  ↓", &n);
                t.append(&x);
            }
            if !s.has_upstream {
                t.append("  (no upstream)");
            }
            t
        },
        None => cat2(&gv.spec, " — loading…"),
    }
}

/// The summary line without the pull request: what is staged and what is not,
/// or what the next step is when the tree is clean.
pub open spec fn tree_summary(state: App, gv: GitView) -> Seq<SpanV> {
    match gv.status {
        None => seq![sp("reading working tree…"@, fg(Role::TextFaint))],
        Some(s) => {
            let ready = count_if(s.entries@, staged());
            if s.entries@.len() == 0 && s.ahead > 0 {
                seq![sp("✓ clean"@, fg(Role::Success).bold())].push(
                    sp(
                        "   ↑"@ + dec(s.ahead as nat) + " commit"@ + (if s.ahead == 1 {
                            ""@
                        } else {
                            "s"@
                        }) + " not pushed"@,
                        fg(Role::Accent).bold(),
                    ),
                ).push(sp("   "@ + state.keymap.git_push@ + " pushes"@, fg(Role::TextMuted)))
            } else if s.entries@.len() == 0 {
                seq![sp("✓ clean"@, fg(Role::Success).bold())].push(
                    sp("   nothing to commit"@, fg(Role::TextMuted)),
                )
            } else {
                seq![
                    sp(
                        dec(ready) + " staged"@,
                        if ready > 0 {
                            fg(Role::Success).bold()
                        } else {
                            fg(Role::TextMuted)
                        },
                    ),
                ].push(sp("   "@, plain())).push(
                    sp(
                        dec(count_if(s.entries@, unstaged())) + " unstaged"@,
                        fg(Role::Warning),
                    ),
                ).push(sp("   "@ + gv.path@, fg(Role::TextFaint)))
            }
        },
    }
}

fn tree_summary_of(state: &App, gv: &GitView) -> (v: Vec<Span>)
    ensures
        v.deep_view() == tree_summary(*state, *gv),
{
    let mut v: Vec<Span> = none();
    match &gv.status {
        None => {
            say(&mut v, "reading working tree…", fg(Role::TextFaint));
        },
        Some(s) => {
            if s.entries.len() == 0 {
                say(&mut v, "✓ clean", fg(Role::Success).bold());
                // A clean tree sitting ahead of upstream is mid-task, and this
                // line is the only place that says what the next step is.
                if s.ahead > 0 {
                    let n = num(s.ahead as u128);
                    let more = if s.ahead == 1 {
                        ""
                    } else {
                        "s"
                    };
                    say_of(
                        &mut v,
                        cat5("   ↑", &n, " commit", more, " not pushed"),
                        fg(Role::Accent).bold(),
                    );
                    say_of(
                        &mut v,
                        cat3("   ", &state.keymap.git_push, " pushes"),
                        fg(Role::TextMuted),
                    );
                } else {
                    say(&mut v, "   nothing to commit", fg(Role::TextMuted));
                }
            } else {
                let ready: usize = staged_count(s);
                let n = num(ready as u128);
                if ready > 0 {
                    say_of(&mut v, cat2(&n, " staged"), fg(Role::Success).bold());
                } else {
                    say_of(&mut v, cat2(&n, " staged"), fg(Role::TextMuted));
                }
                say(&mut v, "   ", plain());
                let m = num(unstaged_count(s) as u128);
                say_of(&mut v, cat2(&m, " unstaged"), fg(Role::Warning));
                say_of(&mut v, cat2("   ", &gv.path), fg(Role::TextFaint));
            }
        },
    }
    v
}

/// The summary line, with the branch's pull request when there is one.
pub open spec fn tree_line(state: App, gv: GitView) -> Seq<SpanV> {
    let s = tree_summary(state, gv);
    match gv.open_pr {
        Some(pr) => push_if(
            s.push(sp("   PR #"@ + dec(pr.number as nat), fg(Role::Accent).bold())).push(
                sp(" "@ + cut(pr.title@, 36), fg(Role::TextMuted)),
            ),
            pr.draft,
            sp(" · draft"@, fg(Role::TextFaint)),
        ),
        None => s,
    }
}

fn tree_line_of(state: &App, gv: &GitView) -> (v: Vec<Span>)
    ensures
        v.deep_view() == tree_line(*state, *gv),
{
    let mut v = tree_summary_of(state, gv);
    if let Some(pr) = &gv.open_pr {
        let n = num(pr.number as u128);
        say_of(&mut v, cat2("   PR #", &n), fg(Role::Accent).bold());
        let t = truncate(&pr.title, 36);
        say_of(&mut v, cat2(" ", &t), fg(Role::TextMuted));
        if pr.draft {
            say(&mut v, " · draft", fg(Role::TextFaint));
        }
    }
    v
}

/// The style of what happened to a file.
pub open spec fn label_style(label: Seq<char>) -> Style {
    if label == "deleted"@ {
        fg(Role::Failure)
    } else if label == "untracked"@ {
        fg(Role::TextMuted)
    } else if label == "conflict"@ {
        fg(Role::Failure).bold()
    } else {
        fg(Role::Warning)
    }
}

/// One changed file.
pub open spec fn file_row(e: TreeEntry) -> RowV {
    RowV {
        cells: seq![
            cell1(
                if e.staged && e.unstaged {
                    "◐"@
                } else if e.staged {
                    "●"@
                } else {
                    "○"@
                },
                if e.staged {
                    fg(Role::Success).bold()
                } else {
                    fg(Role::TextFaint)
                },
            ),
        ].push(cell1(e.code@, fg(Role::TextMuted))).push(
            cell1(e.label@, label_style(e.label@)),
        ).push(
            cell1(
                e.path@,
                fg(
                    if e.staged {
                        Role::TextBright
                    } else {
                        Role::TextMuted
                    },
                ),
            ),
        ),
        height: 1,
        style: plain(),
    }
}

fn file_row_of(e: &TreeEntry) -> (r: Row)
    ensures
        r.deep_view() == file_row(*e),
{
    let mut cells: Vec<Cell> = none();
    if e.staged {
        if e.unstaged {
            add_cell(&mut cells, "◐", fg(Role::Success).bold());
        } else {
            add_cell(&mut cells, "●", fg(Role::Success).bold());
        }
    } else {
        add_cell(&mut cells, "○", fg(Role::TextFaint));
    }
    add_cell(&mut cells, &e.code, fg(Role::TextMuted));
    let style = if same(&e.label, "deleted") {
        fg(Role::Failure)
    } else if same(&e.label, "untracked") {
        fg(Role::TextMuted)
    } else if same(&e.label, "conflict") {
        fg(Role::Failure).bold()
    } else {
        fg(Role::Warning)
    };
    add_cell(&mut cells, &e.label, style);
    let role = if e.staged {
        Role::TextBright
    } else {
        Role::TextMuted
    };
    add_cell(&mut cells, &e.path, fg(role));
    Row { cells, height: 1, style: plain() }
}

/// The list of changed files.
pub open spec fn file_table(entries: Seq<TreeEntry>, cursor: usize) -> TableV {
    TableV {
        header: seq![blank()].push(blank()).push(cell1("Change"@, fg(Role::TextMuted))).push(
            cell1("File"@, fg(Role::TextMuted)),
        ),
        rows: Seq::new(entries.len(), |i: int| file_row(entries[i])),
        widths: seq![Constraint::Length(1)].push(Constraint::Length(2)).push(
            Constraint::Length(10),
        ).push(Constraint::Fill(1)),
        spacing: 1,
        highlight: bg(Role::SelectBg).with_fg(Paint::Plain(Role::TextBright)).bold(),
        symbol: sp("▶ "@, plain()),
        selected: Some(cursor),
    }
}

fn file_table_of(entries: &Vec<TreeEntry>, cursor: usize) -> (t: Table)
    ensures
        t.deep_view() == file_table(entries@, cursor),
{
    let mut header: Vec<Cell> = none();
    add_blank_cell(&mut header);
    add_blank_cell(&mut header);
    add_cell(&mut header, "Change", fg(Role::TextMuted));
    add_cell(&mut header, "File", fg(Role::TextMuted));
    let mut widths: Vec<Constraint> = Vec::new();
    widths.push(Constraint::Length(1));  // staged marker
    widths.push(Constraint::Length(2));  // code
    widths.push(Constraint::Length(10));  // label
    widths.push(Constraint::Fill(1));  // path
    let ghost g = |i: int| file_row(entries@[i]);
    let rows = each(
        entries.len(),
        (|i: usize| -> (r: Row)
            requires
                i < entries@.len(),
            ensures
                r.deep_view() == file_row(entries@[i as int]),
        {
            file_row_of(&entries[i])
        }),
        Ghost(g),
    );
    assert(rows.deep_view() =~= Seq::new(entries@.len(), |i: int| file_row(entries@[i])));
    Table {
        header,
        rows,
        widths,
        spacing: 1,
        highlight: bg(Role::SelectBg).with_fg(Paint::Plain(Role::TextBright)).bold(),
        symbol: span("▶ ", plain()),
        selected: Some(cursor),
    }
}

/// How tall the output pane is: as tall as its lines, within half the view,
/// and never squeezing the file list out.
pub open spec fn op_height(op: GitOp, inner: Rect) -> int {
    let wanted = (op.lines@.len() as u16) + 3;
    let most = larger(inner.height as int / 2, 6);
    lesser(
        if wanted < 6 {
            6
        } else {
            lesser(wanted, most)
        },
        less(inner.height as int, 4),
    )
}

/// How the view is cut: the summary, the files, and the output when there is
/// any.
pub open spec fn tree_cut(state: App, inner: Rect) -> Seq<Constraint> {
    let two = seq![Constraint::Length(2)].push(Constraint::Min(0));
    match state.current_op {
        Some(op) => two.push(Constraint::Length(op_height(op, inner) as u16)),
        None => two,
    }
}

/// The working tree's parts, in the pieces its view was cut into.
pub open spec fn tree_parts(state: App, gv: GitView, pieces: Seq<Rect>) -> Seq<OpV> {
    let pane = match state.current_op {
        Some(op) => op_ops(state, op, pieces[2]),
        None => Seq::empty(),
    };
    let summed = pane.push(text_op(pieces[0], seq![ln(tree_line(state, gv))]));
    if files(gv).len() == 0 {
        summed
    } else {
        summed.push(OpV::Grid { area: pieces[1], table: file_table(files(gv), gv.cursor) })
            + table_clicks(
            pieces[1],
            2,
            1,
            files(gv).len() as int,
            gv.cursor as int,
            all_rows(RowKind::GitEntry),
        )
    }
}

/// Whether these are the operations of the working tree's view.
pub open spec fn is_tree_view(ops: Seq<OpV>, state: App, area: Rect) -> bool {
    match state.git_view {
        None => ops == boxed(
            area,
            "Changes"@,
            one_line("(no repo selected)"@, plain()),
            false,
        ),
        Some(gv) => {
            let inner = framed(area, no_padding());
            let frame = seq![OpV::Frame { area, border: plain_panel(tree_title(gv)) }];
            if inner.height < 2 {
                ops == frame
            } else {
                exists|pieces: Seq<Rect>|
                    #[trigger] split_into(pieces, true, tree_cut(state, inner), inner) && ops
                        == frame + tree_parts(state, gv, pieces)
            }
        },
    }
}

fn tree_parts_of(state: &App, gv: &GitView, pieces: &Vec<Rect>) -> (ops: Vec<Op>)
    requires
        pieces@.len() >= 2,
        state.current_op is Some ==> pieces@.len() >= 3,
        forall|i: int| 0 <= i < pieces@.len() ==> on_screen(#[trigger] pieces@[i]),
        gv.cursor < usize::MAX,
    ensures
        ops.deep_view() == tree_parts(*state, *gv, pieces@),
{
    assert(on_screen(pieces@[1]));
    let mut ops: Vec<Op> = match &state.current_op {
        Some(op) => {
            assert(on_screen(pieces@[2]));
            render_op_output(state, op, pieces[2])
        },
        None => none(),
    };
    let mut lines: Vec<Line> = none();
    add_line(&mut lines, tree_line_of(state, gv));
    add_text(&mut ops, pieces[0], lines);
    if let Some(s) = &gv.status {
        if s.entries.len() > 0 {
            add_table(&mut ops, pieces[1], file_table_of(&s.entries, gv.cursor));
            register_rows(
                &mut ops,
                pieces[1],
                2,
                1,
                s.entries.len(),
                gv.cursor,
                RowKind::GitEntry,
            );
        }
    }
    ops
}

/// The working tree: what is staged, what is not, and the output of whatever
/// is running in it.
pub fn render_git_status(state: &App, area: Rect) -> (ops: Vec<Op>)
    requires
        on_screen(area),
        state.git_view matches Some(gv) ==> gv.cursor < usize::MAX,
    ensures
        is_tree_view(ops.deep_view(), *state, area),
{
    match &state.git_view {
        None => in_a_box(area, "Changes", just("(no repo selected)", plain()), false),
        Some(gv) => {
            let title = tree_title_of(gv);
            let mut ops: Vec<Op> = none();
            add_frame(&mut ops, area, styled_block(&title));
            let inner = inner_of(area, no_padding());
            if inner.height < 2 {
                return ops;
            }
            let ghost frame = ops.deep_view();
            let mut cs: Vec<Constraint> = Vec::new();
            cs.push(Constraint::Length(2));
            cs.push(Constraint::Min(0));
            if let Some(op) = &state.current_op {
                let wanted: u32 = op.lines.len() as u16 as u32 + 3;
                let half: u16 = inner.height / 2;
                let most: u16 = if half > 6 {
                    half
                } else {
                    6
                };
                let tall: u16 = if wanted < 6 {
                    6
                } else if wanted < most as u32 {
                    wanted as u16
                } else {
                    most
                };
                let room: u16 = inner.height.saturating_sub(4);
                let h: u16 = if tall < room {
                    tall
                } else {
                    room
                };
                assert(h == op_height(*op, inner));
                cs.push(Constraint::Length(h));
            }
            assert(cs@ =~= tree_cut(*state, inner));
            let pieces = split(true, &cs, inner);
            assert forall|i: int| 0 <= i < pieces@.len() implies on_screen(#[trigger] pieces@[i]) by {
                assert(inside(pieces@[i], inner));
            }
            put_all(&mut ops, tree_parts_of(state, gv, &pieces));
            assert(split_into(pieces@, true, tree_cut(*state, inner), inner));
            ops
        },
    }
}

} // verus!
