//! The dashboard: one row per repo, headings by owner, what each is doing.

use vstd::prelude::*;
use vstd::string::*;

use crate::bars::{run_sparkline, skeleton, skeleton_cell, sparkline};
use crate::clock::{ago_style, ago_text, relative_styled, secs_since};
use crate::columns::{cut, truncate};
use crate::geometry::{less, lesser, on_screen, Constraint, Rect};
use crate::grouping::{columns_for, grouped, headings, kept_cells, line_of_row, opens, short, Columns, Grouping};
use crate::hits::{clicks_upto, first_row, register_table_hits, table_clicks, visible_rows};
use crate::list::{count_if, count_of, find_of, find_text, first_where, none, push_if, put, put_all, reads};
use crate::motion::{progress, dash_reveal_at, still_going, DASH_STEP, FLASH_TICKS, SETTLE_TICKS, WHOLE};
use crate::ops::{add_blank_cell, add_cell, add_cell_line, add_table, blank, blank_cell, cell, cell1, cell_of, empty_ops, render_empty, say, say_of, Cell, CellV, Hit, Op, OpV, Row, RowV, Table, TableV};
use crate::paint::{aligned, align_line, fg, line, line_of, ln, ln1, plain, share, sp, span, span_of, Align, Glow, Paint, Role, Span, SpanV, Style, Weight};
use crate::state::{App, GitOp, OpEntry, RepoCard, Run, Service, ServiceState, Status, TreeEntry, TreeState};
use crate::status::{row_bg_for_status, style_for_status, tint_of};
use crate::text::{align_left, blanks, cat2, cat3, cat4, cat5, dec, num, pad_right, run_of, same};

verus! {

broadcast use vstd::string::group_string_axioms;

// ── Working trees ──────────────────────────────────────────────────────────

/// Files with something staged.
pub open spec fn staged() -> spec_fn(TreeEntry) -> bool {
    |e: TreeEntry| e.staged
}

/// Files with something not staged.
pub open spec fn unstaged() -> spec_fn(TreeEntry) -> bool {
    |e: TreeEntry| e.unstaged
}

fn is_staged(e: &TreeEntry) -> (r: bool)
    ensures
        r == staged()(*e),
{
    e.staged
}

fn is_unstaged(e: &TreeEntry) -> (r: bool)
    ensures
        r == unstaged()(*e),
{
    e.unstaged
}

/// How many files have something staged.
pub fn staged_count(g: &TreeState) -> (n: usize)
    ensures
        n as nat == count_if(g.entries@, staged()),
{
    count_of(&g.entries, is_staged, Ghost(staged()))
}

/// How many files have something not staged.
pub fn unstaged_count(g: &TreeState) -> (n: usize)
    ensures
        n as nat == count_if(g.entries@, unstaged()),
{
    count_of(&g.entries, is_unstaged, Ghost(unstaged()))
}

// ── Cells ──────────────────────────────────────────────────────────────────

/// A repo marked for a batch commit.
pub open spec fn mark_cell(state: App, c: RepoCard) -> CellV {
    if first_where(state.repo_marks@, reads(c.spec@)) < state.repo_marks@.len() {
        cell1("◆"@, fg(Role::Accent).bold())
    } else {
        blank()
    }
}

fn add_mark_cell(v: &mut Vec<Cell>, state: &App, c: &RepoCard)
    ensures
        final(v).deep_view() == old(v).deep_view().push(mark_cell(*state, *c)),
{
    if find_text(&state.repo_marks, &c.spec) < state.repo_marks.len() {
        add_cell(v, "◆", fg(Role::Accent).bold());
    } else {
        add_blank_cell(v);
    }
}

/// The command under way in `spec`.
pub open spec fn of_repo(spec: Seq<char>) -> spec_fn(OpEntry) -> bool {
    |e: OpEntry| e.spec@ == spec
}

/// Where the command under way in `spec` stands in the list.
pub fn find_op(ops: &Vec<OpEntry>, spec: &str) -> (i: usize)
    ensures
        i as nat == first_where(ops@, of_repo(spec@)),
        i <= ops@.len(),
{
    find_of(
        ops,
        (|e: &OpEntry| -> (r: bool)
            ensures
                r == (e.spec@ == spec@),
        {
            same(&e.spec, spec)
        }),
        Ghost(of_repo(spec@)),
    )
}

/// A row's note that its repo has a commit or push in it.
pub open spec fn op_marker(state: App, op: GitOp) -> SpanV {
    if op.finished {
        sp("  ✗ "@ + op.verb@, fg(Role::Failure).bold())
    } else {
        sp("  "@ + state.glyphs.mark(Status::Running) + " "@ + op.verb@, fg(Role::Warning))
    }
}

/// One dashboard row's note that this repo has a commit or push in it.
///
/// Deliberately terse: it shares a proportional column with the branch name.
pub fn op_row_marker(state: &App, op: &GitOp) -> (s: Span)
    ensures
        s.deep_view() == op_marker(*state, *op),
{
    if op.finished {
        span_of(cat2("  ✗ ", &op.verb), fg(Role::Failure).bold())
    } else {
        span_of(cat4("  ", state.glyphs.of(Status::Running), " ", &op.verb), fg(Role::Warning))
    }
}

/// The branch a checkout stands on and how far it has drifted.
pub open spec fn branch_spans(g: TreeState) -> Seq<SpanV> {
    push_if(
        push_if(
            seq![sp(cut(g.branch@, 20), fg(Role::Accent))],
            g.ahead > 0,
            sp(" ↑"@ + dec(g.ahead as nat), fg(Role::Accent)),
        ),
        g.behind > 0,
        sp(" ↓"@ + dec(g.behind as nat), fg(Role::TextMuted)),
    )
}

/// Which branch you are standing on, and whether a command is under way there.
pub open spec fn local_cell(state: App, c: RepoCard) -> CellV {
    match c.git {
        None => blank(),
        Some(g) => {
            let i = first_where(state.git_ops@, of_repo(c.spec@)) as int;
            if i < state.git_ops@.len() {
                cell(ln(branch_spans(g).push(op_marker(state, state.git_ops@[i].op))))
            } else {
                cell(ln(branch_spans(g)))
            }
        },
    }
}

fn add_local_cell(v: &mut Vec<Cell>, state: &App, c: &RepoCard)
    ensures
        final(v).deep_view() == old(v).deep_view().push(local_cell(*state, *c)),
{
    match &c.git {
        None => {
            add_blank_cell(v);
        },
        Some(g) => {
            let mut spans: Vec<Span> = none();
            say_of(&mut spans, truncate(&g.branch, 20), fg(Role::Accent));
            if g.ahead > 0 {
                let n = num(g.ahead as u128);
                say_of(&mut spans, cat2(" ↑", &n), fg(Role::Accent));
            }
            if g.behind > 0 {
                let n = num(g.behind as u128);
                say_of(&mut spans, cat2(" ↓", &n), fg(Role::TextMuted));
            }
            let i: usize = find_op(&state.git_ops, &c.spec);
            if i < state.git_ops.len() {
                put(&mut spans, op_row_marker(state, &state.git_ops[i].op));
            }
            add_cell_line(v, spans);
        },
    }
}

/// How dirty the working tree is: what is staged, and what is not.
pub open spec fn changes_cell(c: RepoCard) -> CellV {
    match c.git {
        None => blank(),
        Some(g) => {
            let s = count_if(g.entries@, staged());
            let u = count_if(g.entries@, unstaged());
            if g.entries@.len() == 0 {
                cell(
                    ln(
                        seq![sp("✓ "@, fg(Role::Success))].push(
                            sp("clean"@, fg(Role::SuccessDim)),
                        ),
                    ),
                )
            } else {
                let a = push_if(
                    Seq::<SpanV>::empty(),
                    s > 0,
                    sp("✚"@ + dec(s), fg(Role::Success).bold()),
                );
                let b = push_if(a, u > 0 && s > 0, sp(" "@, plain()));
                cell(ln(push_if(b, u > 0, sp("●"@ + dec(u), fg(Role::Warning).bold()))))
            }
        },
    }
}

fn add_changes_cell(v: &mut Vec<Cell>, c: &RepoCard)
    ensures
        final(v).deep_view() == old(v).deep_view().push(changes_cell(*c)),
{
    match &c.git {
        None => {
            add_blank_cell(v);
        },
        Some(g) => {
            let mut spans: Vec<Span> = none();
            if g.entries.len() == 0 {
                say(&mut spans, "✓ ", fg(Role::Success));
                say(&mut spans, "clean", fg(Role::SuccessDim));
                add_cell_line(v, spans);
                return;
            }
            let s: usize = staged_count(g);
            let u: usize = unstaged_count(g);
            if s > 0 {
                let n = num(s as u128);
                say_of(&mut spans, cat2("✚", &n), fg(Role::Success).bold());
            }
            if u > 0 {
                if s > 0 {
                    say(&mut spans, " ", plain());
                }
                let n = num(u as u128);
                say_of(&mut spans, cat2("●", &n), fg(Role::Warning).bold());
            }
            add_cell_line(v, spans);
        },
    }
}

/// Services that are down.
pub open spec fn down() -> spec_fn(Service) -> bool {
    |s: Service| s.state == ServiceState::Down
}

/// Services that are up.
pub open spec fn up() -> spec_fn(Service) -> bool {
    |s: Service| s.state == ServiceState::Up
}

/// Whether a service is down.
pub fn is_down(s: &Service) -> (r: bool)
    ensures
        r == down()(*s),
{
    s.state == ServiceState::Down
}

fn is_up(s: &Service) -> (r: bool)
    ensures
        r == up()(*s),
{
    s.state == ServiceState::Up
}

/// The slowest answer among services.
pub open spec fn slowest(svcs: Seq<Service>) -> Option<u64>
    decreases svcs.len(),
{
    if svcs.len() == 0 {
        None
    } else {
        let front = slowest(svcs.drop_last());
        match svcs.last().ping_ms {
            None => front,
            Some(p) => match front {
                Some(q) if q > p => front,
                _ => Some(p),
            },
        }
    }
}

fn slowest_ping(svcs: &Vec<Service>) -> (r: Option<u64>)
    ensures
        r == slowest(svcs@),
{
    let mut r: Option<u64> = None;
    let mut i: usize = 0;
    assert(svcs@.take(0) =~= Seq::empty());
    while i < svcs.len()
        invariant
            i <= svcs@.len(),
            r == slowest(svcs@.take(i as int)),
        decreases svcs@.len() - i,
    {
        assert(svcs@.take(i + 1).drop_last() =~= svcs@.take(i as int));
        if let Some(p) = svcs[i].ping_ms {
            r = match r {
                Some(q) if q > p => r,
                _ => Some(p),
            };
        }
        i = i + 1;
    }
    assert(svcs@.take(svcs@.len() as int) =~= svcs@);
    r
}

/// What a repo's monitors say it is doing in production. Worst news wins: one
/// service down among three is a down cell.
pub open spec fn live_cell(svcs: Seq<Service>) -> CellV {
    let n = count_if(svcs, down());
    if svcs.len() == 0 {
        blank()
    } else if n > 0 {
        cell1(
            if svcs.len() == 1 {
                match svcs[0].uptime {
                    Some(u) => "✗ down · "@ + dec(u.whole as nat) + "%"@,
                    None => "✗ down"@,
                }
            } else {
                "✗ "@ + dec(n) + "/"@ + dec(svcs.len()) + " down"@
            },
            fg(Role::Failure).bold(),
        )
    } else if first_where(svcs, up()) == svcs.len() {
        cell1("◌ pending"@, fg(Role::TextMuted).italic())
    } else {
        cell1(
            match slowest(svcs) {
                Some(p) => "● "@ + dec(p as nat) + "ms"@,
                None => "● up"@,
            },
            fg(Role::Success),
        )
    }
}

fn add_live_cell(v: &mut Vec<Cell>, svcs: &Vec<Service>)
    ensures
        final(v).deep_view() == old(v).deep_view().push(live_cell(svcs@)),
{
    if svcs.len() == 0 {
        add_blank_cell(v);
        return;
    }
    let n: usize = count_of(svcs, is_down, Ghost(down()));
    if n > 0 {
        let label = if svcs.len() == 1 {
            match svcs[0].uptime {
                Some(u) => {
                    let w = num(u.whole as u128);
                    cat3("✗ down · ", &w, "%")
                },
                None => "✗ down".to_string(),
            }
        } else {
            let a = num(n as u128);
            let b = num(svcs.len() as u128);
            cat5("✗ ", &a, "/", &b, " down")
        };
        add_cell(v, &label, fg(Role::Failure).bold());
        return;
    }
    if find_of(svcs, is_up, Ghost(up())) == svcs.len() {
        add_cell(v, "◌ pending", fg(Role::TextMuted).italic());
        return;
    }
    let label = match slowest_ping(svcs) {
        Some(p) => {
            let n = num(p as u128);
            cat3("● ", &n, "ms")
        },
        None => "● up".to_string(),
    };
    add_cell(v, &label, fg(Role::Success));
}

/// The newest run of a repo.
pub open spec fn newest_run(c: RepoCard) -> Option<Run> {
    if c.runs@.len() > 0 {
        Some(c.runs@[0])
    } else {
        None
    }
}

/// The branch of the newest run; nothing when there is none.
pub open spec fn ran_on(c: RepoCard) -> Seq<char> {
    match newest_run(c) {
        Some(r) => r.head_branch@,
        None => ""@,
    }
}

/// The newest run's branch, flagged when it is not the branch you stand on.
pub open spec fn ran_on_cell(c: RepoCard) -> CellV {
    let branch = ran_on(c);
    if branch.len() == 0 {
        cell1("—"@, fg(Role::Unknown))
    } else if c.git is Some && c.git->0.branch@ != branch {
        cell(
            ln(
                seq![sp("≠ "@, fg(Role::AccentDim).bold())].push(
                    sp(cut(branch, 18), fg(Role::AccentDim)),
                ),
            ),
        )
    } else {
        cell(ln(seq![sp("  "@, plain())].push(sp(cut(branch, 18), fg(Role::Accent)))))
    }
}

fn ran_on_cell_of(c: &RepoCard) -> (r: Cell)
    ensures
        r.deep_view() == ran_on_cell(*c),
{
    let branch = if c.runs.len() > 0 {
        c.runs[0].head_branch.as_str()
    } else {
        ""
    };
    assert(branch@ == ran_on(*c));
    if branch.unicode_len() == 0 {
        return cell_of(line_of(span("—", fg(Role::Unknown))));
    }
    let diverged = match &c.git {
        Some(g) => !same(&g.branch, branch),
        None => false,
    };
    let mut spans: Vec<Span> = none();
    // The marker leads rather than trails: a long branch name would clip a
    // trailing one off the end of the column.
    if diverged {
        say(&mut spans, "≠ ", fg(Role::AccentDim).bold());
        say_of(&mut spans, truncate(branch, 18), fg(Role::AccentDim));
    } else {
        say(&mut spans, "  ", plain());
        say_of(&mut spans, truncate(branch, 18), fg(Role::Accent));
    }
    cell_of(line(spans))
}

/// How long ago the newest run moved, right-aligned.
pub open spec fn updated_cell(state: App, c: RepoCard) -> CellV {
    cell(
        aligned(
            ln1(
                match newest_run(c) {
                    Some(r) => sp(
                        ago_text(secs_since(r.updated_at, state.now)),
                        ago_style(secs_since(r.updated_at, state.now)),
                    ),
                    None => sp("—"@, fg(Role::Unknown)),
                },
            ),
            Align::Right,
        ),
    )
}

fn updated_cell_of(state: &App, c: &RepoCard) -> (r: Cell)
    ensures
        r.deep_view() == updated_cell(*state, *c),
{
    let s = if c.runs.len() > 0 {
        let (text, style) = relative_styled(c.runs[0].updated_at, state.now);
        span_of(text, style)
    } else {
        span("—", fg(Role::Unknown))
    };
    cell_of(align_line(line_of(s), Align::Right))
}

/// A repo's history, and how it has gone in numbers.
pub open spec fn recent_cell(c: RepoCard, spark_w: int) -> CellV {
    cell(
        ln(
            push_if(
                sparkline(c.runs@, spark_w).push(
                    sp(" ✓"@ + align_left(dec(c.ok as nat), 3), fg(Role::SuccessDim)),
                ),
                c.fail > 0,
                sp("✗"@ + align_left(dec(c.fail as nat), 3), fg(Role::Failure)),
            ),
        ),
    )
}

fn recent_cell_of(c: &RepoCard, spark_w: usize) -> (r: Cell)
    ensures
        r.deep_view() == recent_cell(*c, spark_w as int),
{
    let mut spans = run_sparkline(&c.runs, spark_w);
    let n = num(c.ok as u128);
    let n = pad_right(&n, 3);
    say_of(&mut spans, cat2(" ✓", &n), fg(Role::SuccessDim));
    if c.fail > 0 {
        let f = num(c.fail as u128);
        let f = pad_right(&f, 3);
        say_of(&mut spans, cat2("✗", &f), fg(Role::Failure));
    }
    cell_of(line(spans))
}

/// The forge a row lives on, as one dim glyph before its name; blank space of
/// the same width where no remote is recognised, so that names stay in one
/// column.
pub open spec fn forge(state: App, c: RepoCard) -> SpanV {
    if state.forge_icon@.len() == 0 {
        sp(""@, plain())
    } else if c.remote {
        sp(state.forge_icon@ + " "@, fg(Role::TextFaint))
    } else {
        sp(run_of(' ', state.forge_icon@.len() + 1), plain())
    }
}

/// The forge a row lives on, as one dim glyph before its name.
pub fn forge_span(state: &App, c: &RepoCard) -> (s: Span)
    ensures
        s.deep_view() == forge(*state, *c),
{
    let n: usize = state.forge_icon.as_str().unicode_len();
    if n == 0 {
        return span("", plain());
    }
    if c.remote {
        span_of(cat2(&state.forge_icon, " "), fg(Role::TextFaint))
    } else {
        let mut pad = blanks(n);
        pad.push(' ');
        assert(pad@ =~= run_of(' ', (n + 1) as nat));
        span_of(pad, plain())
    }
}

/// Names stay in one column: the mark before a name has as many characters
/// whether the forge is recognised or not.
pub proof fn law_names_stay_in_one_column(state: App, c: RepoCard, d: RepoCard)
    ensures
        forge(state, c).text.len() == forge(state, d).text.len(),
{
    reveal_strlit("");
    reveal_strlit(" ");
}

/// Whether a repo is the one that has been entered.
pub open spec fn entered(state: App, c: RepoCard) -> bool {
    !state.repo_label_implicit && c.spec@ == state.repo_label@
}

/// A repo's name, marked when it is the one that has been entered.
pub open spec fn name_cell(state: App, c: RepoCard, owners: Seq<Seq<char>>) -> CellV {
    cell(
        ln(
            seq![forge(state, c)].push(
                sp(
                    short(owners, c.spec@),
                    if entered(state, c) {
                        fg(Role::TextBright).bold()
                    } else {
                        fg(Role::Text)
                    },
                ),
            ).push(
                if entered(state, c) {
                    sp("  ●"@, fg(Role::Accent))
                } else {
                    sp(""@, plain())
                },
            ),
        ),
    )
}

fn add_name_cell(v: &mut Vec<Cell>, state: &App, c: &RepoCard, g: &Grouping)
    ensures
        final(v).deep_view() == old(v).deep_view().push(name_cell(*state, *c, g.rows())),
{
    let active = !state.repo_label_implicit && same(&c.spec, &state.repo_label);
    let mut spans: Vec<Span> = none();
    put(&mut spans, forge_span(state, c));
    if active {
        say_of(&mut spans, g.short_name(&c.spec), fg(Role::TextBright).bold());
        say(&mut spans, "  ●", fg(Role::Accent));
    } else {
        say_of(&mut spans, g.short_name(&c.spec), fg(Role::Text));
        say(&mut spans, "", plain());
    }
    add_cell_line(v, spans);
}

// ── Rows ───────────────────────────────────────────────────────────────────

/// Whether a repo has been fetched and has CI to show.
pub open spec fn shows_ci(c: RepoCard) -> bool {
    c.error is None && c.has_ci && c.loaded
}

/// The newest run's status, unknown when there is none.
pub open spec fn status_of(c: RepoCard) -> Status {
    match c.latest() {
        Some(s) => s,
        None => Status::Unknown,
    }
}

fn status_of_card(c: &RepoCard) -> (s: Status)
    ensures
        s == status_of(*c),
{
    match c.latest_status() {
        Some(s) => s,
        None => Status::Unknown,
    }
}

/// The mark at the front of a row: what went wrong, or how CI stands.
pub open spec fn glyph_cell(state: App, c: RepoCard) -> CellV {
    if c.error is Some {
        cell1("!"@, fg(Role::Failure).bold())
    } else if shows_ci(c) {
        cell1(state.glyphs.mark(status_of(c)), style_for_status(status_of(c)))
    } else {
        blank()
    }
}

/// What a row has to say: why it could not be fetched, that there is no CI,
/// that it is still loading, or its latest run.
pub open spec fn main_cell(state: App, c: RepoCard) -> CellV {
    if c.error is Some {
        cell1(cut(c.error->0.text@, 46), fg(Role::Failure))
    } else if !c.has_ci {
        cell1("local only — no GitHub remote"@, fg(Role::TextFaint).italic())
    } else if !c.loaded {
        cell(ln(Seq::new(14, |i: int| skeleton_cell(state.skeleton_head as int, i))))
    } else {
        cell1(
            match newest_run(c) {
                Some(r) => cut(r.display_title@, 28),
                None => "no runs"@,
            },
            fg(Role::Text),
        )
    }
}

fn add_main_cell(v: &mut Vec<Cell>, state: &App, c: &RepoCard)
    ensures
        final(v).deep_view() == old(v).deep_view().push(main_cell(*state, *c)),
{
    match &c.error {
        Some(e) => {
            let t = truncate(&e.text, 46);
            add_cell(v, &t, fg(Role::Failure));
        },
        None => {
            if !c.has_ci {
                add_cell(v, "local only — no GitHub remote", fg(Role::TextFaint).italic());
            } else if !c.loaded {
                let s = skeleton(14, state.skeleton_head);
                assert(s.deep_view() =~= Seq::new(
                    14,
                    |i: int| skeleton_cell(state.skeleton_head as int, i),
                ));
                add_cell_line(v, s);
            } else if c.runs.len() > 0 {
                let t = truncate(&c.runs[0].display_title, 28);
                add_cell(v, &t, fg(Role::Text));
            } else {
                add_cell(v, "no runs", fg(Role::Text));
            }
        },
    }
}

/// The optional cells of a row: blank until there is CI to show.
pub open spec fn tail_cells(state: App, c: RepoCard, cols: Columns) -> Seq<CellV> {
    if shows_ci(c) {
        kept_cells(
            cols,
            ran_on_cell(c),
            updated_cell(state, c),
            recent_cell(c, cols.spark_w as int),
        )
    } else {
        kept_cells(cols, blank(), blank(), blank())
    }
}

/// The colour a row's change lights it with, while it does: a landing outranks
/// a mere change.
pub open spec fn row_glow(c: RepoCard, tick: u64) -> Option<Glow> {
    match (c.landing, c.changed_tick) {
        (Some(l), _) if still_going(l.at, tick, SETTLE_TICKS) => Some(
            Glow { tint: tint_of(l.verdict), by: Weight::Landing { at: l.at } },
        ),
        (_, Some(at)) if still_going(at, tick, FLASH_TICKS) => Some(
            Glow { tint: tint_of(status_of(c)), by: Weight::Flash { at } },
        ),
        _ => None,
    }
}

/// A row never stays lit: once a landing and a change are both long enough ago,
/// its ground is what it was before either.
pub proof fn law_rows_settle(c: RepoCard, tick: u64)
    requires
        c.landing matches Some(l) ==> l.at + SETTLE_TICKS <= tick,
        c.changed_tick matches Some(at) ==> at + FLASH_TICKS <= tick,
    ensures
        row_glow(c, tick) is None,
{
}

/// A row's ground: its status, lit by what changed on it, banded so that
/// consecutive rows are told apart, and tinted when it is the selected one.
pub open spec fn row_dress(c: RepoCard, tick: u64, idx: int, selected: bool) -> Style {
    plain().over(
        Paint::Row {
            base: if c.error is Some {
                Role::RowFailure
            } else if shows_ci(c) {
                row_bg_for_status(status_of(c))
            } else {
                Role::RowIdle
            },
            glow: if shows_ci(c) {
                row_glow(c, tick)
            } else {
                None
            },
            odd: idx % 2 == 1,
            selected,
        },
    )
}

fn dress(c: &RepoCard, tick: u64, idx: usize, selected: bool) -> (s: Style)
    ensures
        s == row_dress(*c, tick, idx as int, selected),
{
    let settled = c.error.is_none() && c.has_ci && c.loaded;
    let base = if c.error.is_some() {
        Role::RowFailure
    } else if settled {
        row_bg_for_status(status_of_card(c))
    } else {
        Role::RowIdle
    };
    let glow = if settled {
        match (c.landing, c.changed_tick) {
            (Some(l), _) if still_going(l.at, tick, SETTLE_TICKS) => Some(
                Glow { tint: tint_of(l.verdict), by: Weight::Landing { at: l.at } },
            ),
            (_, Some(at)) if still_going(at, tick, FLASH_TICKS) => Some(
                Glow { tint: tint_of(status_of_card(c)), by: Weight::Flash { at } },
            ),
            _ => None,
        }
    } else {
        None
    };
    plain().over(Paint::Row { base, glow, odd: idx % 2 == 1, selected })
}

/// A repo's row, on line `idx` of the table.
#[verifier::opaque]
pub open spec fn card_row(
    state: App,
    owners: Seq<Seq<char>>,
    cols: Columns,
    live: bool,
    i: int,
    idx: int,
) -> RowV {
    let c = state.repos@[i];
    let lead = seq![mark_cell(state, c)].push(glyph_cell(state, c)).push(
        name_cell(state, c, owners),
    ).push(local_cell(state, c)).push(changes_cell(c));
    RowV {
        cells: push_if(lead, live, live_cell(c.monitors@)).push(main_cell(state, c)) + tail_cells(
            state,
            c,
            cols,
        ),
        height: 1,
        style: row_dress(c, state.tick_count, idx, i == state.repo_cursor),
    }
}

fn card_row_of(
    state: &App,
    g: &Grouping,
    cols: Columns,
    live: bool,
    i: usize,
    idx: usize,
) -> (r: Row)
    requires
        i < state.repos@.len(),
    ensures
        r.deep_view() == card_row(*state, g.rows(), cols, live, i as int, idx as int),
{
    let c = &state.repos[i];
    let settled = c.error.is_none() && c.has_ci && c.loaded;
    let mut cells: Vec<Cell> = none();
    add_mark_cell(&mut cells, state, c);
    if c.error.is_some() {
        add_cell(&mut cells, "!", fg(Role::Failure).bold());
    } else if settled {
        let s = status_of_card(c);
        add_cell(&mut cells, state.glyphs.of(s), style_for_status(s));
    } else {
        add_blank_cell(&mut cells);
    }
    add_name_cell(&mut cells, state, c, g);
    add_local_cell(&mut cells, state, c);
    add_changes_cell(&mut cells, c);
    if live {
        add_live_cell(&mut cells, &c.monitors);
    }
    add_main_cell(&mut cells, state, c);
    let tail = if settled {
        cols.tail(ran_on_cell_of(c), updated_cell_of(state, c), recent_cell_of(c, cols.spark_w))
    } else {
        cols.tail(blank_cell(), blank_cell(), blank_cell())
    };
    put_all(&mut cells, tail);
    proof {
        reveal(card_row);
    }
    Row { cells, height: 1, style: dress(c, state.tick_count, idx, i == state.repo_cursor) }
}

/// An owner's heading: a band of its own, because it is the one row that is
/// not a repo.
pub open spec fn heading_row(owner: Seq<char>) -> RowV {
    RowV {
        cells: seq![blank()].push(blank()).push(
            cell(
                ln(
                    seq![sp(owner, fg(Role::TextFaint))].push(sp(" ╌╌╌"@, fg(Role::BorderDim))),
                ),
            ),
        ),
        height: 1,
        style: plain().over(share(Role::RowIdle, Role::Overlay, 6, 10)),
    }
}

fn heading_row_of(owner: &str) -> (r: Row)
    ensures
        r.deep_view() == heading_row(owner@),
{
    let mut cells: Vec<Cell> = none();
    add_blank_cell(&mut cells);
    add_blank_cell(&mut cells);
    let mut spans: Vec<Span> = none();
    say(&mut spans, owner, fg(Role::TextFaint));
    say(&mut spans, " ╌╌╌", fg(Role::BorderDim));
    add_cell_line(&mut cells, spans);
    Row { cells, height: 1, style: plain().over(share(Role::RowIdle, Role::Overlay, 6, 10)) }
}

/// The rows of the first `n` repos, headings among them.
pub open spec fn dash_rows(
    state: App,
    owners: Seq<Seq<char>>,
    cols: Columns,
    live: bool,
    n: int,
) -> Seq<RowV>
    decreases n,
{
    if n <= 0 {
        Seq::empty()
    } else {
        let front = push_if(
            dash_rows(state, owners, cols, live, n - 1),
            opens(owners, n - 1),
            heading_row(owners[n - 1]),
        );
        front.push(card_row(state, owners, cols, live, n - 1, front.len() as int))
    }
}

/// Repo `i` is on line `line_of_row` of the table: its own row, after those
/// above it and their headings.
pub proof fn law_rows_are_where_the_map_says(
    state: App,
    owners: Seq<Seq<char>>,
    cols: Columns,
    live: bool,
    i: int,
    n: int,
)
    requires
        0 <= i < n,
    ensures
        0 <= line_of_row(owners, i) < dash_rows(state, owners, cols, live, n).len(),
        dash_rows(state, owners, cols, live, n)[line_of_row(owners, i)] == card_row(
            state,
            owners,
            cols,
            live,
            i,
            line_of_row(owners, i),
        ),
        dash_rows(state, owners, cols, live, n).len() == n + headings(owners, n),
    decreases n,
{
    lemma_rows_len(state, owners, cols, live, n);
    lemma_rows_len(state, owners, cols, live, n - 1);
    if i < n - 1 {
        law_rows_are_where_the_map_says(state, owners, cols, live, i, n - 1);
    } else {
        lemma_headings(owners, n);
    }
}

proof fn lemma_headings(owners: Seq<Seq<char>>, n: int)
    ensures
        0 <= headings(owners, n),
        n >= 0 ==> headings(owners, n) <= n,
    decreases n,
{
    if n > 0 {
        lemma_headings(owners, n - 1);
    }
}

proof fn lemma_rows_len(
    state: App,
    owners: Seq<Seq<char>>,
    cols: Columns,
    live: bool,
    n: int,
)
    requires
        0 <= n,
    ensures
        dash_rows(state, owners, cols, live, n).len() == n + headings(owners, n),
    decreases n,
{
    if n > 0 {
        lemma_rows_len(state, owners, cols, live, n - 1);
    }
}

/// What a click on line `r` lands on: the repo of that line, or nothing on a
/// heading.
pub open spec fn repo_on_line(owners: Seq<Seq<char>>, n: int, r: int) -> Option<Hit>
    decreases n,
{
    if n <= 0 {
        None
    } else if line_of_row(owners, n - 1) == r {
        Some(Hit::Repo((n - 1) as usize))
    } else {
        repo_on_line(owners, n - 1, r)
    }
}

proof fn lemma_lines_rise(owners: Seq<Seq<char>>, i: int, j: int)
    requires
        0 <= i < j,
    ensures
        line_of_row(owners, i) < line_of_row(owners, j),
    decreases j,
{
    if i < j - 1 {
        lemma_lines_rise(owners, i, j - 1);
    }
}

/// A click on a repo's line selects that repo, however many headings stand
/// above it.
pub proof fn law_clicks_find_their_repo(owners: Seq<Seq<char>>, n: int, i: int)
    requires
        0 <= i < n <= usize::MAX,
    ensures
        repo_on_line(owners, n, line_of_row(owners, i)) == Some(Hit::Repo(i as usize)),
    decreases n,
{
    if i < n - 1 {
        lemma_lines_rise(owners, i, n - 1);
        law_clicks_find_their_repo(owners, n - 1, i);
    }
}

/// A click on a heading selects nothing.
pub proof fn law_headings_take_no_clicks(owners: Seq<Seq<char>>, n: int, i: int)
    requires
        0 <= i,
        opens(owners, i),
    ensures
        repo_on_line(owners, n, line_of_row(owners, i) - 1) is None,
    decreases n,
{
    if n > 0 {
        law_headings_take_no_clicks(owners, n - 1, i);
        if n - 1 > i {
            lemma_lines_rise(owners, i, n - 1);
        } else if n - 1 < i {
            assert(line_of_row(owners, i) >= line_of_row(owners, i - 1) + 2);
            if n - 1 < i - 1 {
                lemma_lines_rise(owners, n - 1, i - 1);
            }
        }
    }
}

fn repo_at(row_of: &Vec<usize>, r: usize, Ghost(owners): Ghost<Seq<Seq<char>>>) -> (h: Option<Hit>)
    requires
        forall|i: int| 0 <= i < row_of@.len() ==> row_of@[i] == line_of_row(owners, i),
    ensures
        h == repo_on_line(owners, row_of@.len() as int, r as int),
{
    let mut n: usize = row_of.len();
    while n > 0
        invariant
            n <= row_of@.len(),
            forall|i: int| 0 <= i < row_of@.len() ==> row_of@[i] == line_of_row(owners, i),
            repo_on_line(owners, row_of@.len() as int, r as int) == repo_on_line(
                owners,
                n as int,
                r as int,
            ),
        decreases n,
    {
        assert(row_of@[n - 1] == line_of_row(owners, n - 1));
        if row_of[n - 1] == r {
            return Some(Hit::Repo(n - 1));
        }
        n = n - 1;
    }
    None
}

// ── The table ──────────────────────────────────────────────────────────────

/// Repos that any monitor decorates.
pub open spec fn monitored() -> spec_fn(RepoCard) -> bool {
    |c: RepoCard| c.monitors@.len() > 0
}

fn is_monitored(c: &RepoCard) -> (r: bool)
    ensures
        r == monitored()(*c),
{
    c.monitors.len() > 0
}

/// Whether the table shows runtime health: there is any, and room for it.
pub open spec fn shows_live(state: App, inner: Rect) -> bool {
    inner.width >= 100 && first_where(state.repos@, monitored()) < state.repos@.len()
}

/// The table's header.
pub open spec fn dash_header(cols: Columns, live: bool) -> Seq<CellV> {
    let h = fg(Role::TextFaint);
    let lead = seq![blank()].push(blank()).push(cell1("Repo"@, h)).push(
        cell1("Local branch"@, h),
    ).push(cell1("Changes"@, h));
    push_if(lead, live, cell1("Live"@, h)).push(cell1("Latest run"@, h)) + kept_cells(
        cols,
        cell1("Ran on"@, h),
        cell(aligned(ln1(sp("Updated"@, h)), Align::Right)),
        cell1("Recent runs"@, h),
    )
}

fn dash_header_of(cols: Columns, live: bool) -> (v: Vec<Cell>)
    ensures
        v.deep_view() == dash_header(cols, live),
{
    let h = fg(Role::TextFaint);
    let mut v: Vec<Cell> = none();
    add_blank_cell(&mut v);
    add_blank_cell(&mut v);
    add_cell(&mut v, "Repo", h);
    add_cell(&mut v, "Local branch", h);
    add_cell(&mut v, "Changes", h);
    if live {
        add_cell(&mut v, "Live", h);
    }
    add_cell(&mut v, "Latest run", h);
    put_all(
        &mut v,
        cols.tail(
            cell_of(line_of(span("Ran on", h))),
            cell_of(align_line(line_of(span("Updated", h)), Align::Right)),
            cell_of(line_of(span("Recent runs", h))),
        ),
    );
    v
}

/// How wide each column is.
pub open spec fn dash_widths(cols: Columns, live: bool) -> Seq<Constraint> {
    let lead = seq![Constraint::Length(1)].push(Constraint::Length(1)).push(
        Constraint::Fill(40),
    ).push(Constraint::Fill(26)).push(Constraint::Length(9));
    push_if(lead, live, Constraint::Length(12)).push(Constraint::Fill(35)) + kept_cells(
        cols,
        Constraint::Fill(26),
        Constraint::Length(10),
        Constraint::Length((cols.spark_w + 9) as u16),
    )
}

fn dash_widths_of(cols: Columns, live: bool) -> (v: Vec<Constraint>)
    requires
        cols.spark_w <= 12,
    ensures
        v@ == dash_widths(cols, live),
{
    let mut v: Vec<Constraint> = Vec::new();
    v.push(Constraint::Length(1));  // batch mark
    v.push(Constraint::Length(1));  // status glyph
    v.push(Constraint::Fill(40));  // repo
    v.push(Constraint::Fill(26));  // local branch and drift
    v.push(Constraint::Length(9));  // working-tree changes
    if live {
        v.push(Constraint::Length(12));  // service health
    }
    v.push(Constraint::Fill(35));  // latest workflow
    let mut tail = cols.tail(
        Constraint::Fill(26),
        Constraint::Length(10),
        Constraint::Length(cols.spark_w as u16 + 9),
    );
    assert(tail@ =~= tail.deep_view());
    v.append(&mut tail);
    v
}

/// The line the cursor is on.
pub open spec fn cursor_line(state: App, owners: Seq<Seq<char>>) -> Option<usize> {
    if state.repo_cursor < state.repos@.len() {
        Some(line_of_row(owners, state.repo_cursor as int) as usize)
    } else {
        None
    }
}

/// The lines of the table that have not arrived yet, carried up from its
/// ground.
pub open spec fn entrance(state: App, inner: Rect, n: int) -> Seq<OpV>
    decreases n,
{
    if n <= 0 {
        Seq::empty()
    } else {
        let p = progress(state.dash_opened_tick, state.tick_count, n - 1, DASH_STEP as int);
        push_if(
            entrance(state, inner, n - 1),
            p < WHOLE,
            OpV::Fade {
                area: Rect {
                    x: inner.x,
                    y: (inner.y + n - 1) as u16,
                    width: inner.width,
                    height: 1,
                },
                from: Role::RowIdle,
                num: p as u64,
                den: WHOLE,
            },
        )
    }
}

/// How many lines the table drew: its header, and the rows that fit under it.
pub open spec fn drawn_lines(inner: Rect, rows: int, selected: Option<usize>) -> int {
    let offset = match selected {
        Some(s) => first_row(inner, 2, 1, s as int),
        None => 0,
    };
    lesser(2 + lesser(less(rows, offset), less(inner.height as int, 2)), inner.height as int)
}

/// What a click on each line of the table lands on.
pub open spec fn repo_lines(state: App) -> spec_fn(int) -> Option<Hit> {
    |r: int| repo_on_line(grouped(state.repos@), state.repos@.len() as int, r)
}

/// The click targets of the table: its lines are the repos and their headings.
pub open spec fn repo_clicks(state: App, inner: Rect) -> Seq<OpV> {
    let owners = grouped(state.repos@);
    let n = state.repos@.len() as int;
    table_clicks(
        inner,
        2,
        1,
        n + headings(owners, n),
        match cursor_line(state, owners) {
            Some(s) => s as int,
            None => 0,
        },
        repo_lines(state),
    )
}

/// The table of repos.
#[verifier::opaque]
pub open spec fn repo_table(state: App, inner: Rect) -> Seq<OpV> {
    let owners = grouped(state.repos@);
    let cols = columns_for(inner.width);
    let live = shows_live(state, inner);
    let rows = dash_rows(state, owners, cols, live, state.repos@.len() as int);
    let selected = cursor_line(state, owners);
    let grid = seq![
        OpV::Grid {
            area: inner,
            table: TableV {
                header: dash_header(cols, live),
                rows,
                widths: dash_widths(cols, live),
                spacing: 2,
                highlight: plain(),
                symbol: sp("▶ "@, fg(Role::Primary).bold()),
                selected,
            },
        },
    ];
    let arriving = if state.dash_opened_tick is Some {
        entrance(state, inner, drawn_lines(inner, rows.len() as int, selected))
    } else {
        Seq::empty()
    };
    grid + arriving + repo_clicks(state, inner)
}

/// Whether two rows hold the same, drawn the same but for the ground they lie on.
pub open spec fn same_but_ground(a: RowV, b: RowV) -> bool {
    a.cells == b.cells && a.height == b.height && a.style == (Style { bg: a.style.bg, ..b.style })
}

/// Whether two grounds differ in the selection's tint and in nothing else.
pub open spec fn only_tinted(a: Option<Paint>, b: Option<Paint>) -> bool {
    match (a, b) {
        (
            Some(Paint::Row { base, glow, odd, selected }),
            Some(Paint::Row { base: base2, glow: glow2, odd: odd2, selected: selected2 }),
        ) => base == base2 && glow == glow2 && odd == odd2 && selected != selected2,
        _ => false,
    }
}

/// Moving the selection changes the ground of the row it leaves and of the row it
/// reaches, by the selection's tint and nothing else: every row keeps its cells
/// and their colours, and every other row its ground.
pub proof fn law_selection_changes_only_grounds(state: App, other: App, inner: Rect, r: int)
    requires
        other == (App { repo_cursor: other.repo_cursor, ..state }),
        state.repos@.len() > 0,
        repo_table(state, inner)[0] is Grid,
        0 <= r < repo_table(state, inner)[0]->table.rows.len(),
    ensures
        repo_table(other, inner)[0] is Grid,
        ({
            let a = repo_table(state, inner)[0]->table;
            let b = repo_table(other, inner)[0]->table;
            let hit = repo_on_line(grouped(state.repos@), state.repos@.len() as int, r);
            &&& a == (TableV { rows: a.rows, selected: a.selected, ..b })
            &&& a.rows.len() == b.rows.len()
            &&& selected_apart(a.rows[r], b.rows[r], hit, state.repo_cursor, other.repo_cursor)
        }),
{
    reveal(repo_table);
    let owners = grouped(state.repos@);
    let cols = columns_for(inner.width);
    let live = shows_live(state, inner);
    lemma_selection(state, other, owners, cols, live, state.repos@.len() as int, r);
}

/// What selecting another repo may change of the row on a line that answers a
/// click with `hit`.
pub open spec fn selected_apart(
    a: RowV,
    b: RowV,
    hit: Option<Hit>,
    left: usize,
    reached: usize,
) -> bool {
    &&& same_but_ground(a, b)
    &&& a.style.bg != b.style.bg ==> only_tinted(a.style.bg, b.style.bg) && (hit == Some(
        Hit::Repo(left),
    ) || hit == Some(Hit::Repo(reached)))
}

proof fn lemma_selection(
    state: App,
    other: App,
    owners: Seq<Seq<char>>,
    cols: Columns,
    live: bool,
    n: int,
    r: int,
)
    requires
        other == (App { repo_cursor: other.repo_cursor, ..state }),
        0 <= n <= state.repos@.len(),
        0 <= r < dash_rows(state, owners, cols, live, n).len(),
    ensures
        dash_rows(other, owners, cols, live, n).len() == dash_rows(state, owners, cols, live, n).len(),
        selected_apart(
            dash_rows(state, owners, cols, live, n)[r],
            dash_rows(other, owners, cols, live, n)[r],
            repo_on_line(owners, n, r),
            state.repo_cursor,
            other.repo_cursor,
        ),
    decreases n,
{
    lemma_rows_len(state, owners, cols, live, n);
    lemma_rows_len(other, owners, cols, live, n);
    if n > 0 {
        lemma_rows_len(state, owners, cols, live, n - 1);
        lemma_rows_len(other, owners, cols, live, n - 1);
        let front = dash_rows(state, owners, cols, live, n - 1);
        lemma_headings(owners, n);
        if r < front.len() {
            lemma_selection(state, other, owners, cols, live, n - 1, r);
        } else if r == line_of_row(owners, n - 1) {
            lemma_card(state, other, owners, cols, live, n - 1, r);
        }
    }
}

proof fn lemma_card(
    state: App,
    other: App,
    owners: Seq<Seq<char>>,
    cols: Columns,
    live: bool,
    i: int,
    idx: int,
)
    requires
        other == (App { repo_cursor: other.repo_cursor, ..state }),
        0 <= i < state.repos@.len(),
    ensures
        selected_apart(
            card_row(state, owners, cols, live, i, idx),
            card_row(other, owners, cols, live, i, idx),
            Some(Hit::Repo(i as usize)),
            state.repo_cursor,
            other.repo_cursor,
        ),
{
    reveal(card_row);
    let c = state.repos@[i];
    assert(mark_cell(state, c) == mark_cell(other, c));
    assert(glyph_cell(state, c) == glyph_cell(other, c));
    assert(name_cell(state, c, owners) == name_cell(other, c, owners));
    assert(local_cell(state, c) == local_cell(other, c));
    assert(main_cell(state, c) == main_cell(other, c));
    assert(tail_cells(state, c, cols) == tail_cells(other, c, cols));
}

fn add_entrance(ops: &mut Vec<Op>, state: &App, inner: Rect, n: u16)
    requires
        on_screen(inner),
        n <= inner.height,
    ensures
        final(ops).deep_view() == old(ops).deep_view() + entrance(*state, inner, n as int),
{
    let mut i: u16 = 0;
    assert(ops.deep_view() =~= old(ops).deep_view() + entrance(*state, inner, 0));
    while i < n
        invariant
            i <= n <= inner.height,
            on_screen(inner),
            ops.deep_view() == old(ops).deep_view() + entrance(*state, inner, i as int),
        decreases n - i,
    {
        let p: u64 = dash_reveal_at(state, i as usize);
        if p < WHOLE {
            put(
                ops,
                Op::Fade {
                    area: Rect { x: inner.x, y: inner.y + i, width: inner.width, height: 1 },
                    from: Role::RowIdle,
                    num: p,
                    den: WHOLE,
                },
            );
        }
        assert(ops.deep_view() =~= old(ops).deep_view() + entrance(*state, inner, i + 1));
        i = i + 1;
    }
}

fn build_rows(state: &App, g: &Grouping, cols: Columns, live: bool) -> (r: (Vec<Row>, Vec<usize>))
    requires
        cols.spark_w <= 12,
    ensures
        r.0.deep_view() == dash_rows(
            *state,
            g.rows(),
            cols,
            live,
            state.repos@.len() as int,
        ),
        r.1@.len() == state.repos@.len(),
        forall|i: int| 0 <= i < r.1@.len() ==> r.1@[i] == line_of_row(g.rows(), i),
        forall|i: int| 0 <= i < r.1@.len() ==> r.1@[i] < r.0@.len(),
{
    broadcast use crate::list::lemma_deep_len;

    let mut rows: Vec<Row> = none();
    let mut row_of: Vec<usize> = Vec::new();
    let ghost owners = g.rows();
    let mut i: usize = 0;
    while i < state.repos.len()
        invariant
            i <= state.repos@.len(),
            owners == g.rows(),
            cols.spark_w <= 12,
            rows.deep_view() == dash_rows(*state, owners, cols, live, i as int),
            row_of@.len() == i,
            forall|k: int| 0 <= k < i ==> row_of@[k] == line_of_row(owners, k),
            forall|k: int| 0 <= k < i ==> row_of@[k] < rows@.len(),
        decreases state.repos@.len() - i,
    {
        proof {
            lemma_rows_len(*state, owners, cols, live, i as int);
        }
        if let Some(owner) = g.heading_before(i) {
            put(&mut rows, heading_row_of(owner));
        }
        let at: usize = rows.len();
        row_of.push(at);
        put(&mut rows, card_row_of(state, g, cols, live, i, at));
        i = i + 1;
    }
    (rows, row_of)
}

fn table_of_repos(state: &App, inner: Rect) -> (ops: Vec<Op>)
    requires
        on_screen(inner),
    ensures
        ops.deep_view() == repo_table(*state, inner),
{
    broadcast use crate::list::lemma_deep_len;

    let g = Grouping::of(&state.repos);
    let cols = Columns::for_width(inner.width);
    let live = inner.width >= 100 && find_of(&state.repos, is_monitored, Ghost(monitored()))
        < state.repos.len();
    let ghost owners = grouped(state.repos@);
    let (rows, row_of) = build_rows(state, &g, cols, live);
    let total: usize = rows.len();
    let selected: Option<usize> = if state.repo_cursor < row_of.len() {
        Some(row_of[state.repo_cursor])
    } else {
        None
    };
    assert(selected == cursor_line(*state, owners));
    let mut ops: Vec<Op> = none();
    add_table(
        &mut ops,
        inner,
        Table {
            header: dash_header_of(cols, live),
            rows,
            widths: dash_widths_of(cols, live),
            spacing: 2,
            highlight: plain(),
            symbol: span("▶ ", fg(Role::Primary).bold()),
            selected,
        },
    );
    let ghost grid = ops.deep_view();
    let body: usize = inner.height.saturating_sub(2) as usize;
    let room: usize = if body > 1 {
        body
    } else {
        1
    };
    let offset: usize = match selected {
        Some(s) => (s + 1).saturating_sub(room),
        None => 0,
    };
    let below: usize = total.saturating_sub(offset);
    let under: usize = if below < body {
        below
    } else {
        body
    };
    let drawn: usize = if 2 + under < inner.height as usize {
        2 + under
    } else {
        inner.height as usize
    };
    assert(drawn == drawn_lines(inner, total as int, selected)) by {
        assert(body as int / 1 == body) by (nonlinear_arith);
    }
    if state.dash_opened_tick.is_some() {
        add_entrance(&mut ops, state, inner, drawn as u16);
    } else {
        assert(ops.deep_view() =~= grid + Seq::<OpV>::empty());
    }
    let at: usize = match selected {
        Some(s) => s,
        None => 0,
    };
    let ghost f = repo_lines(*state);
    register_table_hits(
        &mut ops,
        inner,
        2,
        1,
        total,
        at,
        (|r: usize| -> (h: Option<Hit>)
            requires
                forall|i: int| 0 <= i < row_of@.len() ==> row_of@[i] == line_of_row(owners, i),
            ensures
                h == repo_on_line(owners, row_of@.len() as int, r as int),
        {
            repo_at(&row_of, r, Ghost(owners))
        }),
        Ghost(f),
    );
    proof {
        reveal(repo_table);
        lemma_rows_len(*state, owners, cols, live, state.repos@.len() as int);
        assert(ops.deep_view() =~= repo_table(*state, inner));
    }
    ops
}

/// The list of repos in the room left for it: the margins kept, nothing when
/// there is no room, and a way to begin when there are no repos.
pub open spec fn repo_list(state: App, area: Rect) -> Seq<OpV> {
    let inner = Rect { x: (area.x + 1) as u16, width: less(area.width as int, 2) as u16, ..area };
    if inner.height < 2 || inner.width < 8 {
        Seq::empty()
    } else if state.repos@.len() == 0 {
        empty_ops(
            inner,
            "▢"@,
            "No repos to watch yet."@,
            "add repos = [\"owner/name\", …] under [provider] in config.toml, or run jog from a directory of checkouts"@,
        )
    } else {
        repo_table(state, inner)
    }
}

/// The list of repos in the room left for it.
///
/// No frame: the header one line up already names the directory and counts what
/// is in it, and the rows are the view. Only the side margin survives, so names
/// never touch the edge.
pub fn render_repo_list(state: &App, area: Rect) -> (ops: Vec<Op>)
    requires
        on_screen(area),
    ensures
        ops.deep_view() == repo_list(*state, area),
{
    if area.height < 2 || area.width < 10 {
        return none();
    }
    let inner = Rect { x: area.x + 1, width: area.width - 2, ..area };
    if state.repos.len() == 0 {
        return render_empty(
            inner,
            "▢",
            "No repos to watch yet.",
            "add repos = [\"owner/name\", …] under [provider] in config.toml, or run jog from a directory of checkouts",
        );
    }
    table_of_repos(state, inner)
}

/// As long as every row is on screen, the list draws the same behind its table
/// whichever repo is selected.
pub proof fn lemma_rest_of_the_list(state: App, other: App, area: Rect)
    requires
        other == (App { repo_cursor: other.repo_cursor, ..state }),
        state.repo_cursor < state.repos@.len(),
        other.repo_cursor < state.repos@.len(),
        state.repos@.len() + headings(grouped(state.repos@), state.repos@.len() as int) + 2
            <= area.height,
    ensures
        repo_list(other, area).len() == repo_list(state, area).len(),
        repo_list(other, area).drop_first() == repo_list(state, area).drop_first(),
{
    let inner = Rect { x: (area.x + 1) as u16, width: less(area.width as int, 2) as u16, ..area };
    let owners = grouped(state.repos@);
    let n = state.repos@.len() as int;
    let i = state.repo_cursor as int;
    let j = other.repo_cursor as int;
    reveal(repo_table);
    lemma_rows_len(state, owners, columns_for(inner.width), shows_live(state, inner), n);
    lemma_rows_len(other, owners, columns_for(inner.width), shows_live(state, inner), n);
    lemma_line_below(owners, i, n);
    lemma_line_below(owners, j, n);
    assert(visible_rows(inner, 2, 1) >= n + headings(owners, n)) by {
        assert((inner.height - 2) / 1 == inner.height - 2);
    }
    lemma_entrance_unselected(
        state,
        other,
        inner,
        drawn_lines(inner, n + headings(owners, n), cursor_line(state, owners)),
    );
    assert(repo_lines(other) == repo_lines(state));
    lemma_same_clicks(
        inner,
        line_of_row(owners, i),
        line_of_row(owners, j),
        repo_lines(state),
        n + headings(owners, n),
    );
    if inner.height >= 2 && inner.width >= 8 {
        assert(repo_list(other, area).drop_first() =~= repo_list(state, area).drop_first());
    }
}

proof fn lemma_line_below(owners: Seq<Seq<char>>, i: int, n: int)
    requires
        0 <= i < n,
    ensures
        0 <= line_of_row(owners, i) < n + headings(owners, n),
    decreases n,
{
    lemma_headings(owners, n);
    lemma_headings(owners, i + 1);
    if i < n - 1 {
        lemma_line_below(owners, i, n - 1);
    }
}

proof fn lemma_entrance_unselected(state: App, other: App, inner: Rect, n: int)
    requires
        other == (App { repo_cursor: other.repo_cursor, ..state }),
    ensures
        entrance(other, inner, n) == entrance(state, inner, n),
    decreases n,
{
    if n > 0 {
        lemma_entrance_unselected(state, other, inner, n - 1);
    }
}

proof fn lemma_same_clicks(
    inner: Rect,
    i: int,
    j: int,
    f: spec_fn(int) -> Option<Hit>,
    to: int,
)
    requires
        first_row(inner, 2, 1, i) == 0,
        first_row(inner, 2, 1, j) == 0,
    ensures
        clicks_upto(inner, 2, 1, i, f, to) == clicks_upto(inner, 2, 1, j, f, to),
    decreases to,
{
    if to > 0 {
        lemma_same_clicks(inner, i, j, f, to - 1);
    }
}

} // verus!
