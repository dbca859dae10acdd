//! One commit message going out across several repos, one repo at a time.

use vstd::prelude::*;
use vstd::string::*;

use crate::changes::{op_ops, render_op_output};
use crate::columns::{cut, truncate};
use crate::dashboard::{find_op, of_repo};
use crate::geometry::{asked, asked_by_all, cramped, fits, framed, inner_of, inside, larger, less, lesser, on_screen, split, split_into, Constraint, Padding, Rect};
use crate::keys::{display_key, shown};
use crate::list::{each, find_of, first_where, none, push_if, put, put_all};
use crate::motion::ticks_since;
use crate::ops::{add_blank, add_frame, add_line, add_line_of, add_text, say, say_of, text_op, Border, BorderV, Op, OpV};
use crate::paint::{fg, line, ln, ln1, plain, sp, Line, LineV, Role, Span, Style};
use crate::state::{App, Batch, BatchItem, BatchPhase, BatchTally, ItemState, RepoCard, Status};
use crate::text::{align_left, cat2, cat3, cat4, cat5, dec, join, joined, num, or_text, pad_right, plural, same, text_or};

verus! {

broadcast use vstd::string::group_string_axioms;

/// Whether a batch points at a repo it has.
pub open spec fn batch_ok(b: Batch) -> bool {
    b.current matches Some(i) ==> i < b.items@.len()
}

/// Where the command of the repo being worked on stands in the list; nothing
/// while the message is still being written.
pub open spec fn batch_op(state: App, b: Batch) -> Option<int> {
    match b.current {
        Some(i) if b.phase != BatchPhase::Compose => {
            let at = first_where(state.git_ops@, of_repo(b.items@[i as int].spec@)) as int;
            if at < state.git_ops@.len() {
                Some(at)
            } else {
                None
            }
        },
        _ => None,
    }
}

fn batch_op_of(state: &App, b: &Batch) -> (r: Option<usize>)
    requires
        batch_ok(*b),
    ensures
        r is Some <==> batch_op(*state, *b) is Some,
        r matches Some(i) ==> batch_op(*state, *b) == Some(i as int) && i < state.git_ops@.len(),
{
    match b.current {
        Some(i) => {
            if b.phase == BatchPhase::Compose {
                return None;
            }
            let at: usize = find_op(&state.git_ops, &b.items[i].spec);
            if at < state.git_ops.len() {
                Some(at)
            } else {
                None
            }
        },
        None => None,
    }
}

// ── The queue ──────────────────────────────────────────────────────────────

/// What came of a finished batch, the parts that came to nothing left out.
pub open spec fn done_parts(t: BatchTally) -> Seq<Seq<char>> {
    push_if(
        push_if(
            push_if(
                push_if(
                    seq![dec(t.committed as nat) + " committed"@],
                    t.pushed > 0,
                    dec(t.pushed as nat) + " pushed"@,
                ),
                t.failed > 0,
                dec(t.failed as nat) + " failed"@,
            ),
            t.nothing > 0,
            dec(t.nothing as nat) + " had nothing to do"@,
        ),
        t.untouched > 0,
        dec(t.untouched as nat) + " not attempted"@,
    )
}

fn add_part(v: &mut Vec<String>, n: usize, what: &str)
    ensures
        final(v).deep_view() == old(v).deep_view().push(dec(n as nat) + what@),
{
    let t = num(n as u128);
    put(v, cat2(&t, what));
}

fn done_parts_of(t: BatchTally) -> (v: Vec<String>)
    ensures
        v.deep_view() == done_parts(t),
{
    let mut v: Vec<String> = none();
    add_part(&mut v, t.committed, " committed");
    if t.pushed > 0 {
        add_part(&mut v, t.pushed, " pushed");
    }
    if t.failed > 0 {
        add_part(&mut v, t.failed, " failed");
    }
    if t.nothing > 0 {
        add_part(&mut v, t.nothing, " had nothing to do");
    }
    if t.untouched > 0 {
        add_part(&mut v, t.untouched, " not attempted");
    }
    v
}

/// The queue's title.
pub open spec fn batch_title(state: App, b: Batch) -> Seq<char> {
    let km = state.keymap;
    match b.phase {
        BatchPhase::Compose => " Commit "@ + dec(b.items@.len()) + " repo"@ + plural(
            b.items@.len() as usize,
        )@ + " "@,
        BatchPhase::Paused => " Paused on "@ + (match b.current {
            Some(i) => b.items@[i as int].spec@,
            None => "?"@,
        }) + " — "@ + shown(km.batch_retry@) + " retry · "@ + shown(km.batch_skip@) + " skip · "@
            + shown(km.git_view@) + " open · Esc stop "@,
        BatchPhase::AskPush => " "@ + dec(b.tally.committed as nat) + " committed — "@ + shown(
            km.git_push@,
        ) + " pushes them all, Esc finishes "@,
        BatchPhase::Done => " Done · "@ + joined(
            done_parts(b.tally),
            " · "@,
            done_parts(b.tally).len() as int,
        ) + " "@,
        _ => " "@ + state.glyphs.mark(Status::Running) + " "@ + (if b.phase
            == BatchPhase::Pushing {
            "Pushing"@
        } else {
            "Committing"@
        }) + " · "@ + dec((b.cursor + 1) as nat) + "/"@ + dec(b.items@.len()) + " "@,
    }
}

/// The queue's colour.
#[verifier::allow_in_spec]
pub fn batch_role(b: &Batch) -> Role
    returns
        (match b.phase {
            BatchPhase::Compose => Role::Accent,
            BatchPhase::Paused => Role::Failure,
            BatchPhase::Done => if b.tally.failed > 0 {
                Role::Failure
            } else {
                Role::Success
            },
            _ => Role::Warning,
        }),
{
    match b.phase {
        BatchPhase::Compose => Role::Accent,
        BatchPhase::Paused => Role::Failure,
        BatchPhase::Done => if b.tally.failed > 0 {
            Role::Failure
        } else {
            Role::Success
        },
        _ => Role::Warning,
    }
}

fn batch_title_of(state: &App, b: &Batch) -> (t: String)
    requires
        batch_ok(*b),
    ensures
        t@ == batch_title(*state, *b),
{
    broadcast use crate::list::lemma_deep_len;

    let km = &state.keymap;
    match b.phase {
        BatchPhase::Compose => {
            let n = num(b.items.len() as u128);
            cat5(" Commit ", &n, " repo", plural(b.items.len()), " ")
        },
        BatchPhase::Paused => {
            let spec = match b.current {
                Some(i) => b.items[i].spec.as_str(),
                None => "?",
            };
            let mut t = cat5(" Paused on ", spec, " — ", display_key(&km.batch_retry), " retry · ");
            t.append(display_key(&km.batch_skip));
            t.append(" skip · ");
            t.append(display_key(&km.git_view));
            t.append(" open · Esc stop ");
            t
        },
        BatchPhase::AskPush => {
            let n = num(b.tally.committed as u128);
            cat5(
                " ",
                &n,
                " committed — ",
                display_key(&km.git_push),
                " pushes them all, Esc finishes ",
            )
        },
        BatchPhase::Done => {
            let parts = done_parts_of(b.tally);
            let all = join(&parts, " · ");
            cat3(" Done · ", &all, " ")
        },
        _ => {
            let verb = if b.phase == BatchPhase::Pushing {
                "Pushing"
            } else {
                "Committing"
            };
            let at = num(b.cursor as u128 + 1);
            let n = num(b.items.len() as u128);
            let mut t = cat5(" ", state.glyphs.of(Status::Running), " ", verb, " · ");
            t.append(&at);
            t.append("/");
            t.append(&n);
            t.append(" ");
            t
        },
    }
}

/// How one repo of the batch is shown: its mark, its note, and their styles.
pub struct NoteV {
    pub glyph: Seq<char>,
    pub mark: Style,
    pub note: Seq<char>,
    pub style: Style,
}

/// How one repo of the batch is shown.
#[derive(Debug)]
pub struct Note {
    pub glyph: String,
    pub mark: Style,
    pub note: String,
    pub style: Style,
}

impl DeepView for Note {
    type V = NoteV;

    open spec fn deep_view(&self) -> NoteV {
        NoteV { glyph: self.glyph@, mark: self.mark, note: self.note@, style: self.style }
    }
}

/// How one repo of the batch is shown. A commit that landed is always named: a
/// push that failed, or had nothing to do, does not make the repo untouched.
pub open spec fn item_note(state: App, b: Batch, item: BatchItem) -> NoteV {
    let dim = fg(Role::TextMuted);
    match item.state {
        ItemState::Queued => NoteV {
            glyph: "·"@,
            mark: dim,
            note: if b.phase == BatchPhase::Done {
                "not attempted"@
            } else {
                "queued"@
            },
            style: dim,
        },
        ItemState::Running => NoteV {
            glyph: state.glyphs.mark(Status::Running),
            mark: fg(Role::Warning).bold(),
            note: (if b.phase == BatchPhase::Pushing {
                "pushing"@
            } else {
                "committing"@
            }) + "… "@ + dec(
                (ticks_since(b.started_tick, state.tick_count) / 10) as nat,
            ) + "s"@,
            style: fg(Role::TextBright),
        },
        ItemState::Committed => NoteV {
            glyph: "✓"@,
            mark: fg(Role::Success),
            note: "committed "@ + text_or(item.sha, "HEAD"@),
            style: fg(Role::SuccessDim),
        },
        ItemState::Pushed => NoteV {
            glyph: "✓"@,
            mark: fg(Role::Success).bold(),
            note: "pushed "@ + text_or(item.sha, "HEAD"@),
            style: fg(Role::Success),
        },
        ItemState::Nothing(why) => match item.sha {
            Some(sha) => NoteV {
                glyph: "✓"@,
                mark: fg(Role::Success),
                note: "committed "@ + sha@ + " · "@ + why@,
                style: fg(Role::SuccessDim),
            },
            None => NoteV { glyph: "–"@, mark: dim, note: why@, style: dim },
        },
        ItemState::Failed(err) => NoteV {
            glyph: "✗"@,
            mark: fg(Role::Failure).bold(),
            note: match item.sha {
                Some(sha) => "committed "@ + sha@ + ", then failed: "@ + err@,
                None => err@,
            },
            style: fg(Role::Failure),
        },
    }
}

fn item_note_of(state: &App, b: &Batch, item: &BatchItem) -> (n: Note)
    ensures
        n.deep_view() == item_note(*state, *b, *item),
{
    let dim = fg(Role::TextMuted);
    match &item.state {
        ItemState::Queued => {
            let note = if b.phase == BatchPhase::Done {
                "not attempted"
            } else {
                "queued"
            };
            Note { glyph: "·".to_string(), mark: dim, note: note.to_string(), style: dim }
        },
        ItemState::Running => {
            let verb = if b.phase == BatchPhase::Pushing {
                "pushing"
            } else {
                "committing"
            };
            let secs: u64 = state.tick_count.saturating_sub(b.started_tick) / 10;
            let s = num(secs as u128);
            Note {
                glyph: state.glyphs.of(Status::Running).to_string(),
                mark: fg(Role::Warning).bold(),
                note: cat4(verb, "… ", &s, "s"),
                style: fg(Role::TextBright),
            }
        },
        ItemState::Committed => Note {
            glyph: "✓".to_string(),
            mark: fg(Role::Success),
            note: cat2("committed ", or_text(&item.sha, "HEAD")),
            style: fg(Role::SuccessDim),
        },
        ItemState::Pushed => Note {
            glyph: "✓".to_string(),
            mark: fg(Role::Success).bold(),
            note: cat2("pushed ", or_text(&item.sha, "HEAD")),
            style: fg(Role::Success),
        },
        // A push with nothing to do still leaves the batch's commit on disk;
        // saying only "already up to date" would read as untouched.
        ItemState::Nothing(why) => match &item.sha {
            Some(sha) => Note {
                glyph: "✓".to_string(),
                mark: fg(Role::Success),
                note: cat4("committed ", sha, " · ", why),
                style: fg(Role::SuccessDim),
            },
            None => Note {
                glyph: "–".to_string(),
                mark: dim,
                note: why.as_str().to_string(),
                style: dim,
            },
        },
        // A push that failed still reports the commit that landed.
        ItemState::Failed(err) => {
            let note = match &item.sha {
                Some(sha) => cat4("committed ", sha, ", then failed: ", err),
                None => err.as_str().to_string(),
            };
            Note {
                glyph: "✗".to_string(),
                mark: fg(Role::Failure).bold(),
                note,
                style: fg(Role::Failure),
            }
        },
    }
}

/// Line `i` of the queue.
pub open spec fn item_line(state: App, b: Batch, i: int, width: u16) -> LineV {
    let item = b.items@[i];
    let n = item_note(state, b, item);
    let live = (item.state is Running && b.working) || (b.phase == BatchPhase::Paused && i
        == b.cursor);
    ln(
        seq![sp(n.glyph + "  "@, n.mark)].push(
            sp(
                align_left(cut(item.spec@, 24), 24),
                if live {
                    fg(Role::TextBright).bold()
                } else {
                    fg(Role::Text)
                },
            ),
        ).push(sp(cut(n.note, less(width as int, 30) as nat), n.style)),
    )
}

fn item_line_of(state: &App, b: &Batch, i: usize, width: u16) -> (l: Line)
    requires
        i < b.items@.len(),
    ensures
        l.deep_view() == item_line(*state, *b, i as int, width),
{
    let item = &b.items[i];
    let n = item_note_of(state, b, item);
    let running = match &item.state {
        ItemState::Running => b.working,
        _ => false,
    };
    let live = running || (b.phase == BatchPhase::Paused && i == b.cursor);
    let mut v: Vec<Span> = none();
    say_of(&mut v, cat2(&n.glyph, "  "), n.mark);
    let name = truncate(&item.spec, 24);
    let name = pad_right(&name, 24);
    if live {
        say_of(&mut v, name, fg(Role::TextBright).bold());
    } else {
        say_of(&mut v, name, fg(Role::Text));
    }
    say_of(&mut v, truncate(&n.note, width.saturating_sub(30) as usize), n.style);
    line(v)
}

/// How many repos do not fit.
pub open spec fn hidden(b: Batch, rows: int) -> int {
    less(b.items@.len() as int, rows)
}

/// The first repo shown: with more repos than rows, the list follows the one
/// being worked on. There is one above it, where there is room for more than
/// it alone.
pub open spec fn first_shown(b: Batch, rows: int) -> int {
    if hidden(b, rows) == 0 {
        0
    } else if rows <= 2 {
        lesser(b.cursor as int, hidden(b, rows) + 1)
    } else {
        lesser(less(b.cursor as int, 1), hidden(b, rows) + 1)
    }
}

/// How many repos are shown: one row of the window is spent saying what it is
/// hiding.
pub open spec fn shown_items(b: Batch, rows: int) -> int {
    lesser(
        less(b.items@.len() as int, first_shown(b, rows)),
        if hidden(b, rows) > 0 {
            less(rows, 1)
        } else {
            rows
        },
    )
}

/// The repo being worked on is never scrolled off: in a window with room for
/// any repo at all it is among those shown.
pub proof fn law_queue_follows_the_work(b: Batch, rows: int)
    requires
        rows >= 2,
        b.cursor < b.items@.len(),
    ensures
        first_shown(b, rows) <= b.cursor < first_shown(b, rows) + shown_items(b, rows),
{
}

/// The queue.
pub open spec fn queue_lines(state: App, b: Batch, inner: Rect) -> Seq<LineV> {
    let rows = inner.height as int;
    let n = shown_items(b, rows);
    let first = first_shown(b, rows);
    let items = Seq::new(n as nat, |i: int| item_line(state, b, first + i, inner.width));
    push_if(
        items,
        hidden(b, rows) > 0,
        ln1(
            sp(
                "… "@ + dec((b.items@.len() - n) as nat) + " more · "@ + dec(
                    b.tally.committed as nat,
                ) + " committed · "@ + dec(b.tally.failed as nat) + " failed · "@ + dec(
                    b.tally.untouched as nat,
                ) + " waiting"@,
                fg(Role::TextMuted),
            ),
        ),
    )
}

fn queue_lines_of(state: &App, b: &Batch, inner: Rect) -> (v: Vec<Line>)
    ensures
        v.deep_view() == queue_lines(*state, *b, inner),
{
    let rows: usize = inner.height as usize;
    let out: usize = b.items.len().saturating_sub(rows);
    let before: usize = if rows <= 2 {
        b.cursor
    } else {
        b.cursor.saturating_sub(1)
    };
    let first: usize = if out == 0 {
        0
    } else if before <= out {
        before
    } else {
        out + 1
    };
    let left: usize = b.items.len().saturating_sub(first);
    let room: usize = if out > 0 {
        rows.saturating_sub(1)
    } else {
        rows
    };
    let n: usize = if left <= room {
        left
    } else {
        room
    };
    assert(first == first_shown(*b, rows as int));
    assert(n == shown_items(*b, rows as int));
    let ghost g = |i: int| item_line(*state, *b, first + i, inner.width);
    let mut v = each(
        n,
        (|i: usize| -> (l: Line)
            requires
                i < n,
                n == 0 || first + n <= b.items@.len(),
            ensures
                l.deep_view() == item_line(*state, *b, first + i, inner.width),
        {
            item_line_of(state, b, first + i, inner.width)
        }),
        Ghost(g),
    );
    proof {
        assert(v.deep_view() =~= Seq::new(
            n as nat,
            |i: int| item_line(*state, *b, first + i, inner.width),
        ));
    }
    if out > 0 {
        let more = num((b.items.len() - n) as u128);
        let committed = num(b.tally.committed as u128);
        let failed = num(b.tally.failed as u128);
        let waiting = num(b.tally.untouched as u128);
        let mut t = cat5("… ", &more, " more · ", &committed, " committed · ");
        t.append(&failed);
        t.append(" failed · ");
        t.append(&waiting);
        t.append(" waiting");
        add_line_of(&mut v, &t, fg(Role::TextMuted));
    }
    v
}

// ── The message ────────────────────────────────────────────────────────────

/// The repo called `spec`.
pub open spec fn called(spec: Seq<char>) -> spec_fn(RepoCard) -> bool {
    |c: RepoCard| c.spec@ == spec
}

/// How many changed files the repo called `spec` has.
pub open spec fn changed_in(repos: Seq<RepoCard>, spec: Seq<char>) -> nat {
    let i = first_where(repos, called(spec)) as int;
    if i < repos.len() && repos[i].git is Some {
        repos[i].git->0.entries@.len()
    } else {
        0
    }
}

/// How many changed files the first `n` repos of a batch have.
pub open spec fn changed_files(state: App, b: Batch, n: int) -> nat
    decreases n,
{
    if n <= 0 {
        0
    } else {
        changed_files(state, b, n - 1) + changed_in(state.repos@, b.items@[n - 1].spec@)
    }
}

fn changed_in_of(repos: &Vec<RepoCard>, spec: &str) -> (n: usize)
    ensures
        n as nat == changed_in(repos@, spec@),
{
    let i: usize = find_of(
        repos,
        (|c: &RepoCard| -> (r: bool)
            ensures
                r == (c.spec@ == spec@),
        {
            same(&c.spec, spec)
        }),
        Ghost(called(spec@)),
    );
    if i < repos.len() {
        if let Some(g) = &repos[i].git {
            return g.entries.len();
        }
    }
    0
}

fn changed_files_of(state: &App, b: &Batch) -> (n: u128)
    ensures
        n as nat == changed_files(*state, *b, b.items@.len() as int),
{
    let mut n: u128 = 0;
    let mut i: usize = 0;
    while i < b.items.len()
        invariant
            i <= b.items@.len(),
            n as nat == changed_files(*state, *b, i as int),
            n <= i * 0xffff_ffff_ffff_ffff,
        decreases b.items@.len() - i,
    {
        assert((i + 1) * 0xffff_ffff_ffff_ffff == i * 0xffff_ffff_ffff_ffff + 0xffff_ffff_ffff_ffff)
            by (nonlinear_arith);
        assert((i + 1) * 0xffff_ffff_ffff_ffff <= 0xffff_ffff_ffff_ffff * 0xffff_ffff_ffff_ffff)
            by (nonlinear_arith)
            requires
                i + 1 <= 0xffff_ffff_ffff_ffff,
        ;
        n = n + changed_in_of(&state.repos, &b.items[i].spec) as u128;
        i = i + 1;
    }
    n
}

/// The message box's padding: the message is the one thing being typed on the
/// screen, so it gets room around it.
#[verifier::allow_in_spec]
pub fn message_padding() -> Padding
    returns
        (Padding { left: 2, right: 2, top: 1, bottom: 0 }),
{
    Padding { left: 2, right: 2, top: 1, bottom: 0 }
}

/// The message box: what it will be committed to, what is typed so far, and a
/// note of what will happen where there is room for one.
pub open spec fn message_ops(state: App, b: Batch, typed: Seq<char>, area: Rect) -> Seq<OpV> {
    let dirty = changed_files(state, b, b.items@.len() as int);
    let inner = framed(area, message_padding());
    let dim = fg(Role::TextMuted);
    let caret = seq![
        ln(
            seq![sp(typed, fg(Role::TextBright))].push(sp("█"@, fg(Role::Accent))),
        ),
    ].push(ln(Seq::empty()));
    seq![
        OpV::Frame {
            area,
            border: BorderV {
                style: fg(Role::Accent),
                top: seq![
                    ln1(
                        sp(
                            " One message for "@ + dec(b.items@.len()) + " repo"@ + plural(
                                b.items@.len() as usize,
                            )@ + " · "@ + dec(dirty) + " changed file"@ + (if dirty == 1 {
                                ""@
                            } else {
                                "s"@
                            }) + " "@,
                            fg(Role::Accent).bold(),
                        ),
                    ),
                ],
                bottom: Seq::empty(),
                padding: message_padding(),
                ground: plain(),
            },
        },
    ].push(
        text_op(
            inner,
            push_if(
                caret,
                inner.height >= 4,
                ln1(
                    sp(
                        "every repo above is staged with `git add -A` and committed with this message"@,
                        dim,
                    ),
                ),
            ).push(ln1(sp("↵ start · Esc cancel"@, dim))),
        ),
    )
}

fn message_ops_of(state: &App, b: &Batch, typed: &str, area: Rect) -> (ops: Vec<Op>)
    requires
        on_screen(area),
    ensures
        ops.deep_view() == message_ops(*state, *b, typed@, area),
{
    let dirty: u128 = changed_files_of(state, b);
    let n = num(b.items.len() as u128);
    let d = num(dirty);
    let mut t = cat5(" One message for ", &n, " repo", plural(b.items.len()), " · ");
    t.append(&d);
    t.append(" changed file");
    if dirty == 1 {
        t.append("");
    } else {
        t.append("s");
    }
    t.append(" ");
    let mut top: Vec<Line> = none();
    add_line_of(&mut top, &t, fg(Role::Accent).bold());
    let mut ops: Vec<Op> = none();
    add_frame(
        &mut ops,
        area,
        Border {
            style: fg(Role::Accent),
            top,
            bottom: none(),
            padding: message_padding(),
            ground: plain(),
        },
    );
    let inner = inner_of(area, message_padding());
    let mut lines: Vec<Line> = none();
    let mut caret: Vec<Span> = none();
    say(&mut caret, typed, fg(Role::TextBright));
    say(&mut caret, "█", fg(Role::Accent));
    add_line(&mut lines, caret);
    add_blank(&mut lines);
    // On a short pane the caret comes first and the notes go without.
    if inner.height >= 4 {
        add_line_of(
            &mut lines,
            "every repo above is staged with `git add -A` and committed with this message",
            fg(Role::TextMuted),
        );
    }
    add_line_of(&mut lines, "↵ start · Esc cancel", fg(Role::TextMuted));
    add_text(&mut ops, inner, lines);
    ops
}

// ── The view ───────────────────────────────────────────────────────────────

/// How tall the queue is: a row per repo, but never squeezing the pane below it
/// out.
pub open spec fn queue_height(state: App, b: Batch, area: Rect) -> int {
    let composing = b.input is Some;
    let lower = batch_op(state, b) is Some || composing;
    let room = if lower {
        larger(
            less(
                area.height as int,
                if composing {
                    8
                } else {
                    4
                },
            ),
            3,
        )
    } else {
        area.height as int
    };
    lesser((b.items@.len() as u16) + 2, room)
}

/// How the view is cut: the queue, a gap, the pane below, and what is left.
pub open spec fn batch_cut(state: App, b: Batch, area: Rect) -> Seq<Constraint> {
    let h = queue_height(state, b, area);
    let list = seq![Constraint::Length(h as u16)];
    if b.input is Some {
        list.push(Constraint::Length(1)).push(
            Constraint::Length(lesser(7, less(area.height as int, h + 1)) as u16),
        ).push(Constraint::Min(0))
    } else if batch_op(state, b) is Some {
        list.push(Constraint::Length(1)).push(Constraint::Min(3)).push(Constraint::Length(0))
    } else {
        list.push(Constraint::Length(0)).push(Constraint::Min(0)).push(Constraint::Length(0))
    }
}

/// The queue never squeezes the pane below it out: a hook's output keeps three
/// rows, and the message box four, which is enough to see what is being typed.
pub proof fn law_the_queue_leaves_the_pane_its_rows(
    state: App,
    b: Batch,
    area: Rect,
    pieces: Seq<Rect>,
)
    requires
        split_into(pieces, true, batch_cut(state, b, area), area),
    ensures
        b.input is Some && area.height >= 8 ==> pieces[2].height >= 4,
        b.input is None && batch_op(state, b) is Some && area.height >= 3 ==> pieces[2].height >= 3,
{
    let cs = batch_cut(state, b, area);
    let room = area.height as int;
    assert(cs.len() == 4);
    reveal_with_fuel(asked_by_all, 5);
    assert(asked_by_all(cs) == asked(cs[0]) + asked(cs[1]) + asked(cs[2]) + asked(cs[3]));
    assert(asked_by_all(cs) <= room ==> fits(cs, room));
    assert(asked_by_all(cs) > room && b.input is None && batch_op(state, b) is Some && room >= 3
        ==> cramped(cs, room));
    assert(inside(pieces[2], area));
}

/// The queue's border.
pub open spec fn queue_border(state: App, b: Batch) -> BorderV {
    BorderV {
        style: fg(batch_role(&b)),
        top: seq![ln1(sp(batch_title(state, b), fg(batch_role(&b)).bold()))],
        bottom: Seq::empty(),
        padding: Padding { left: 1, right: 1, top: 0, bottom: 0 },
        ground: plain(),
    }
}

/// The batch's parts, in the pieces its view was cut into.
pub open spec fn batch_parts(state: App, b: Batch, pieces: Seq<Rect>) -> Seq<OpV> {
    let inner = framed(pieces[0], queue_border(state, b).padding);
    let queue = seq![OpV::Frame { area: pieces[0], border: queue_border(state, b) }].push(
        text_op(inner, queue_lines(state, b, inner)),
    );
    queue + (match b.input {
        Some(typed) => message_ops(state, b, typed@, pieces[2]),
        None => match batch_op(state, b) {
            Some(i) => op_ops(state, state.git_ops@[i].op, pieces[2]),
            None => Seq::empty(),
        },
    })
}

/// Whether these are the operations of the batch view.
pub open spec fn is_batch_view(ops: Seq<OpV>, state: App, area: Rect) -> bool {
    match state.batch {
        None => ops == Seq::<OpV>::empty(),
        Some(b) => exists|pieces: Seq<Rect>|
            #[trigger] split_into(pieces, true, batch_cut(state, b, area), area) && ops
                == batch_parts(state, b, pieces),
    }
}

fn batch_cut_of(state: &App, b: &Batch, area: Rect, op: bool) -> (cs: Vec<Constraint>)
    requires
        batch_ok(*b),
        op == (batch_op(*state, *b) is Some),
    ensures
        cs@ == batch_cut(*state, *b, area),
{
    let composing = b.input.is_some();
    let reserve: u16 = if composing {
        8
    } else {
        4
    };
    let spare: u16 = area.height.saturating_sub(reserve);
    let room: u16 = if op || composing {
        if spare > 3 {
            spare
        } else {
            3
        }
    } else {
        area.height
    };
    let n: u16 = b.items.len() as u16;
    let h: u16 = if n as u32 + 2 < room as u32 {
        n + 2
    } else {
        room
    };
    let mut cs: Vec<Constraint> = Vec::new();
    cs.push(Constraint::Length(h));
    // A blank row between the two panes: stacked borders touching each other
    // read as one dense box.
    if composing {
        cs.push(Constraint::Length(1));
        let below: u16 = if h < 0xffff {
            area.height.saturating_sub(h + 1)
        } else {
            0
        };
        let box_h: u16 = if below < 7 {
            below
        } else {
            7
        };
        cs.push(Constraint::Length(box_h));
        cs.push(Constraint::Min(0));
    } else if op {
        cs.push(Constraint::Length(1));
        cs.push(Constraint::Min(3));
        cs.push(Constraint::Length(0));
    } else {
        cs.push(Constraint::Length(0));
        cs.push(Constraint::Min(0));
        cs.push(Constraint::Length(0));
    }
    cs
}

fn batch_parts_of(state: &App, b: &Batch, op: Option<usize>, top: Rect, bottom: Rect) -> (ops: Vec<
    Op,
>)
    requires
        batch_ok(*b),
        on_screen(top),
        on_screen(bottom),
        op is Some <==> batch_op(*state, *b) is Some,
        op matches Some(i) ==> batch_op(*state, *b) == Some(i as int) && i < state.git_ops@.len(),
    ensures
        forall|pieces: Seq<Rect>|
            pieces.len() == 4 && pieces[0] == top && pieces[2] == bottom ==> ops.deep_view()
                == #[trigger] batch_parts(*state, *b, pieces),
{
    let title = batch_title_of(state, b);
    let role = batch_role(b);
    let padding = Padding { left: 1, right: 1, top: 0, bottom: 0 };
    let mut line: Vec<Line> = none();
    add_line_of(&mut line, &title, fg(role).bold());
    let mut ops: Vec<Op> = none();
    add_frame(
        &mut ops,
        top,
        Border { style: fg(role), top: line, bottom: none(), padding, ground: plain() },
    );
    let inner = inner_of(top, padding);
    add_text(&mut ops, inner, queue_lines_of(state, b, inner));
    let ghost queue = ops.deep_view();
    match &b.input {
        // The message box sits where the output will be, so the eye does not
        // have to move once the run starts.
        Some(typed) => {
            put_all(&mut ops, message_ops_of(state, b, typed, bottom));
        },
        None => match op {
            Some(i) => {
                put_all(&mut ops, render_op_output(state, &state.git_ops[i].op, bottom));
            },
            None => {
                assert(queue + Seq::<OpV>::empty() =~= queue);
            },
        },
    }
    ops
}

/// One commit message going out across several repos, one repo at a time.
///
/// This is a queue you are supervising, so what matters is where it has got to,
/// what it did to each repo, and the output that explains it when a hook says
/// no.
pub fn render_batch_commit(state: &App, area: Rect) -> (ops: Vec<Op>)
    requires
        on_screen(area),
        state.batch matches Some(b) ==> batch_ok(b),
    ensures
        is_batch_view(ops.deep_view(), *state, area),
{
    match &state.batch {
        None => none(),
        Some(b) => {
            let op = batch_op_of(state, b);
            let cs = batch_cut_of(state, b, area, op.is_some());
            let pieces = split(true, &cs, area);
            assert(inside(pieces@[0], area));
            assert(inside(pieces@[2], area));
            let ops = batch_parts_of(state, b, op, pieces[0], pieces[2]);
            assert(split_into(pieces@, true, batch_cut(*state, *b, area), area));
            assert(ops.deep_view() == batch_parts(*state, *b, pieces@));
            ops
        },
    }
}

} // verus!
