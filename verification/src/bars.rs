//! Bars: a run history, a loading row, a progress bar.

use vstd::prelude::*;
use vstd::string::*;

use crate::clock::{seconds_since, secs_since};
use crate::geometry::{larger, less, lesser};
use crate::list::{each, none, put_all};
use crate::ops::{say, say_of};
use crate::paint::{fg, ink, plain, share, sp, span, Role, Span, SpanV};
use crate::state::{Run, Status};
use crate::text::{blanks, run_of};

verus! {

broadcast use vstd::string::group_string_axioms;

/// How long a run took.
pub open spec fn took(run: Run) -> int {
    secs_since(run.created_at, run.updated_at)
}

/// The longest of the first `n` runs.
pub open spec fn longest(runs: Seq<Run>, n: int) -> int
    decreases n,
{
    if n <= 0 {
        0
    } else {
        larger(longest(runs, n - 1), took(runs[n - 1]))
    }
}

/// The shortest of the first `n` runs, of which there is at least one.
pub open spec fn shortest(runs: Seq<Run>, n: int) -> int
    decreases n,
{
    if n <= 1 {
        took(runs[0])
    } else {
        lesser(shortest(runs, n - 1), took(runs[n - 1]))
    }
}

/// Whether the runs took about the same time: their spread is under fifteen
/// hundredths of the longest.
pub open spec fn level(long: int, short: int) -> bool {
    long <= 0 || 20 * (long - short) < 3 * long
}

/// How tall a run's bar is, from nothing to seven: where its duration falls
/// between the shortest and the longest, to the nearest eighth.
pub open spec fn bar_height(secs: int, long: int, short: int) -> int {
    if level(long, short) {
        3
    } else {
        (14 * (secs - short) + (long - short)) / (2 * (long - short))
    }
}

/// The bar of a given height.
#[verifier::allow_in_spec]
pub fn bar(h: u8) -> &'static str
    returns
        (match h {
            0 => "▁",
            1 => "▂",
            2 => "▃",
            3 => "▄",
            4 => "▅",
            5 => "▆",
            6 => "▇",
            _ => "█",
        }),
{
    match h {
        0 => "▁",
        1 => "▂",
        2 => "▃",
        3 => "▄",
        4 => "▅",
        5 => "▆",
        6 => "▇",
        _ => "█",
    }
}

/// The colour of a run's bar.
#[verifier::allow_in_spec]
pub fn bar_role(s: Status) -> Role
    returns
        (match s {
            Status::Success => Role::Success,
            Status::Failure => Role::Failure,
            Status::Running | Status::Queued => Role::Warning,
            _ => Role::Unknown,
        }),
{
    match s {
        Status::Success => Role::Success,
        Status::Failure => Role::Failure,
        Status::Running | Status::Queued => Role::Warning,
        _ => Role::Unknown,
    }
}

/// How far the oldest bar fades toward the row's ground, in tenths: failures
/// half as far, so a bad week stays legible, and what is going not at all.
#[verifier::allow_in_spec]
pub fn fade_tenths(s: Status) -> u128
    returns
        (match s {
            Status::Failure => 3,
            Status::Running | Status::Queued => 0,
            _ => 6u128,
        }),
{
    match s {
        Status::Failure => 3,
        Status::Running | Status::Queued => 0,
        _ => 6,
    }
}

/// How many steps of age lie between the oldest bar and the newest.
pub open spec fn ages(n: int) -> int {
    if n >= 2 {
        n - 1
    } else {
        1
    }
}

/// The bar `i` places from the left of `n`, oldest first: height for how long
/// the run took, colour for how it ended, faded by its age.
pub open spec fn run_bar(runs: Seq<Run>, n: int, i: int) -> SpanV {
    let run = runs[n - 1 - i];
    sp(
        bar(bar_height(took(run), longest(runs, n), shortest(runs, n)) as u8)@,
        ink(
            share(
                bar_role(run.status),
                Role::RowIdle,
                (fade_tenths(run.status) * (ages(n) - i)) as u128,
                (10 * ages(n)) as u128,
            ),
        ),
    )
}

/// The last `width` runs as a bar per run, oldest on the left, padded to
/// `width` columns.
pub open spec fn sparkline(runs: Seq<Run>, width: int) -> Seq<SpanV> {
    let n = if runs.len() < width {
        runs.len() as int
    } else {
        width
    };
    let bars = Seq::new(n as nat, |i: int| run_bar(runs, n, i));
    if runs.len() == 0 {
        seq![sp(run_of(' ', less(width, 1) as nat), plain())].push(
            sp("—"@, fg(Role::Unknown)),
        )
    } else if n < width {
        seq![sp(run_of(' ', (width - n) as nat), plain())] + bars
    } else {
        bars
    }
}

proof fn lemma_extremes(runs: Seq<Run>, n: int, i: int)
    requires
        0 <= i < n <= runs.len(),
    ensures
        0 <= shortest(runs, n) <= took(runs[i]) <= longest(runs, n),
    decreases n,
{
    if i < n - 1 {
        lemma_extremes(runs, n - 1, i);
    } else if n > 1 {
        lemma_extremes(runs, n - 1, 0);
    }
}

/// No bar is taller than the tallest glyph there is.
pub proof fn law_bars_stay_in_range(runs: Seq<Run>, n: int, i: int)
    requires
        0 <= i < n <= runs.len(),
    ensures
        0 <= bar_height(took(runs[i]), longest(runs, n), shortest(runs, n)) <= 7,
{
    lemma_extremes(runs, n, i);
    lemma_height(took(runs[i]), longest(runs, n), shortest(runs, n));
}

proof fn lemma_height(secs: int, long: int, short: int)
    requires
        0 <= short <= secs <= long,
    ensures
        0 <= bar_height(secs, long, short) <= 7,
{
    if !level(long, short) {
        let d = long - short;
        let a = 14 * (secs - short) + d;
        assert(0 <= a / (2 * d) <= 7) by (nonlinear_arith)
            requires
                d > 0,
                0 <= a <= 15 * d,
        ;
    }
}

/// A longer run never has a shorter bar.
pub proof fn law_longer_runs_stand_taller(a: int, b: int, long: int, short: int)
    requires
        short <= a <= b <= long,
    ensures
        bar_height(a, long, short) <= bar_height(b, long, short),
{
    if !level(long, short) {
        let d = 2 * (long - short);
        let x = 14 * (a - short) + (long - short);
        let y = 14 * (b - short) + (long - short);
        assert(x / d <= y / d) by (nonlinear_arith)
            requires
                0 <= x <= y,
                d > 0,
        ;
    }
}

fn one_bar(runs: &Vec<Run>, n: usize, i: usize, long: i64, short: i64) -> (s: Span)
    requires
        i < n <= runs@.len(),
        long == longest(runs@, n as int),
        short == shortest(runs@, n as int),
    ensures
        s.deep_view() == run_bar(runs@, n as int, i as int),
{
    let run = &runs[n - 1 - i];
    let secs: i64 = seconds_since(run.created_at, run.updated_at);
    proof {
        lemma_extremes(runs@, n as int, n - 1 - i);
        lemma_height(secs as int, long as int, short as int);
    }
    let spread: i128 = long as i128 - short as i128;
    let h: u8 = if long <= 0 || 20 * spread < 3 * (long as i128) {
        3
    } else {
        ((14 * (secs as i128 - short as i128) + spread) / (2 * spread)) as u8
    };
    let last: u128 = if n >= 2 {
        n as u128 - 1
    } else {
        1
    };
    let fade: u128 = fade_tenths(run.status);
    assert(0 <= fade * (last - i) <= 6 * 0xffff_ffff_ffff_ffff) by (nonlinear_arith)
        requires
            0 <= fade <= 6,
            0 <= last - i <= 0xffff_ffff_ffff_ffff,
    ;
    let faded: u128 = fade * (last - i as u128);
    span(bar(h), ink(share(bar_role(run.status), Role::RowIdle, faded, 10 * last)))
}

/// The last `width` runs as a bar per run, oldest on the left.
///
/// A pair of counts can say "18 passed, 2 failed" but never "it started failing
/// three runs ago" or "the last green one took twice as long as usual", which
/// are the two questions a repo's history gets asked.
pub fn run_sparkline(runs: &Vec<Run>, width: usize) -> (v: Vec<Span>)
    ensures
        v.deep_view() == sparkline(runs@, width as int),
{
    let mut out: Vec<Span> = none();
    if runs.len() == 0 {
        say_of(&mut out, blanks(width.saturating_sub(1)), plain());
        say(&mut out, "—", fg(Role::Unknown));
        return out;
    }
    let n: usize = if runs.len() < width {
        runs.len()
    } else {
        width
    };
    let mut long: i64 = 0;
    let mut short: i64 = seconds_since(runs[0].created_at, runs[0].updated_at);
    let mut i: usize = 0;
    while i < n
        invariant
            i <= n <= runs@.len(),
            runs@.len() > 0,
            long == longest(runs@, i as int),
            short == shortest(runs@, i as int),
        decreases n - i,
    {
        let s: i64 = seconds_since(runs[i].created_at, runs[i].updated_at);
        if s > long {
            long = s;
        }
        if s < short {
            short = s;
        }
        i = i + 1;
    }
    let ghost g = |k: int| run_bar(runs@, n as int, k);
    let bars = each(
        n,
        (|k: usize| -> (s: Span)
            requires
                k < n,
            ensures
                s.deep_view() == run_bar(runs@, n as int, k as int),
        {
            one_bar(runs, n, k, long, short)
        }),
        Ghost(g),
    );
    if n < width {
        say_of(&mut out, blanks(width - n), plain());
        put_all(&mut out, bars);
        out
    } else {
        bars
    }
}

/// How many characters a run of spans has.
pub open spec fn letters(v: Seq<SpanV>) -> int
    decreases v.len(),
{
    if v.len() == 0 {
        0
    } else {
        letters(v.drop_last()) + v.last().text.len()
    }
}

proof fn lemma_letters(v: Seq<SpanV>)
    requires
        forall|i: int| 0 <= i < v.len() ==> (#[trigger] v[i]).text.len() == 1,
    ensures
        letters(v) == v.len(),
    decreases v.len(),
{
    if v.len() > 0 {
        lemma_letters(v.drop_last());
    }
}

proof fn lemma_letters_after(a: SpanV, v: Seq<SpanV>)
    ensures
        letters(seq![a] + v) == a.text.len() + letters(v),
    decreases v.len(),
{
    if v.len() == 0 {
        assert(seq![a] + v =~= seq![a]);
        assert(seq![a].drop_last() =~= Seq::empty());
        assert(letters(Seq::<SpanV>::empty()) == 0);
        assert(letters(seq![a]) == a.text.len());
    } else {
        lemma_letters_after(a, v.drop_last());
        assert((seq![a] + v).drop_last() =~= seq![a] + v.drop_last());
    }
}

/// A history always fills its column: one character for each of `width`
/// places, whether a repo has four runs of history or twenty or none. So the
/// counts that follow it start at the same place on every row.
pub proof fn law_histories_line_up(runs: Seq<Run>, width: int)
    requires
        width >= 1,
    ensures
        letters(sparkline(runs, width)) == width,
{
    reveal_strlit("▁");
    reveal_strlit("▂");
    reveal_strlit("▃");
    reveal_strlit("▄");
    reveal_strlit("▅");
    reveal_strlit("▆");
    reveal_strlit("▇");
    reveal_strlit("█");
    reveal_strlit("—");
    let n = if runs.len() < width {
        runs.len() as int
    } else {
        width
    };
    let bars = Seq::new(n as nat, |i: int| run_bar(runs, n, i));
    if runs.len() == 0 {
        let dash = sp("—"@, fg(Role::Unknown));
        let pad = sp(run_of(' ', (width - 1) as nat), plain());
        lemma_letters_after(pad, seq![dash]);
        assert(seq![dash].drop_last() =~= Seq::empty());
        assert(letters(Seq::<SpanV>::empty()) == 0);
        assert(letters(seq![dash]) == 1);
        assert(sparkline(runs, width) =~= seq![pad] + seq![dash]);
    } else {
        lemma_letters(bars);
        if n < width {
            lemma_letters_after(sp(run_of(' ', (width - n) as nat), plain()), bars);
        }
    }
}

// ── Loading ────────────────────────────────────────────────────────────────

/// Cell `i` of a row that has nothing to show yet: two of its cells are lit.
pub open spec fn skeleton_cell(head: int, i: int) -> SpanV {
    if i == head || i + 1 == head {
        sp("━"@, fg(Role::TextFaint))
    } else {
        sp("─"@, fg(Role::TextGhost))
    }
}

/// A row that has nothing to show yet, waiting rather than broken: a moving
/// line at least says the app is still asking. The lit cells end at `head`.
pub fn skeleton(width: usize, head: usize) -> (v: Vec<Span>)
    ensures
        v.deep_view() == Seq::new(width as nat, |i: int| skeleton_cell(head as int, i)),
{
    let ghost g = |i: int| skeleton_cell(head as int, i);
    each(
        width,
        (|i: usize| -> (s: Span)
            requires
                i < width,
            ensures
                s.deep_view() == skeleton_cell(head as int, i as int),
        {
            if i == head || i + 1 == head {
                span("━", fg(Role::TextFaint))
            } else {
                span("─", fg(Role::TextGhost))
            }
        }),
        Ghost(g),
    )
}

// ── Progress ───────────────────────────────────────────────────────────────

/// How many of `width` cells `done / total` fills, to the nearest.
pub open spec fn filled(done: int, total: int, width: int) -> int {
    (2 * done * width + total) / (2 * total)
}

/// Cell `i` of a bar with real progress in it: filled so far, one bright cell
/// sweeping along the fill, and a cap where it ends.
pub open spec fn progress_cell(full: int, sweep: int, i: int) -> SpanV {
    if i < full {
        sp(
            "━"@,
            fg(
                if i == sweep {
                    Role::TextBright
                } else {
                    Role::Warning
                },
            ),
        )
    } else if i == full {
        sp("╺"@, fg(Role::Warning))
    } else {
        sp("─"@, fg(Role::Border))
    }
}

/// Cell `i` of a bar with nothing started: one cell travelling along it.
pub open spec fn waiting_cell(pos: int, i: int) -> SpanV {
    if i == pos {
        sp("━"@, fg(Role::TextBright))
    } else if i == pos + 1 || i + 1 == pos {
        sp("━"@, fg(Role::Warning))
    } else {
        sp("─"@, fg(Role::Border))
    }
}

/// How much of something is done.
#[derive(Clone, Copy, PartialEq, Eq, Debug, Structural)]
pub struct Ratio {
    pub done: usize,
    pub total: usize,
}

/// A ratio that can be drawn.
pub open spec fn drawable(r: Option<Ratio>) -> bool {
    r matches Some(p) ==> p.done <= p.total && 0 < p.total
}

/// A progress bar.
pub open spec fn bar_cells(ratio: Option<Ratio>, width: int, sweep: int, bounce: int) -> Seq<
    SpanV,
> {
    match ratio {
        Some(r) => Seq::new(
            width as nat,
            |i: int| progress_cell(filled(r.done as int, r.total as int, width), sweep, i),
        ),
        None => Seq::new(width as nat, |i: int| waiting_cell(bounce, i)),
    }
}

/// A bar fills with what is done: never past its end, to its end when all of
/// it is, and no less for more.
pub proof fn law_bars_fill_with_progress(done: int, more: int, total: int, width: int)
    requires
        0 <= done <= more <= total,
        0 < total,
        0 <= width,
    ensures
        0 <= filled(done, total, width) <= filled(more, total, width) <= width,
        filled(0, total, width) == 0,
        filled(total, total, width) == width,
{
    let a = 2 * done * width + total;
    let b = 2 * more * width + total;
    assert(0 <= done * width <= more * width <= total * width) by (nonlinear_arith)
        requires
            0 <= done <= more <= total,
            0 <= width,
    ;
    assert(2 * done * width == 2 * (done * width)) by (nonlinear_arith);
    assert(2 * more * width == 2 * (more * width)) by (nonlinear_arith);
    assert(0 <= a / (2 * total) <= b / (2 * total)) by (nonlinear_arith)
        requires
            0 <= a <= b,
            0 < total,
    ;
    let c = 2 * (total * width) + total;
    assert(2 * total * width == 2 * (total * width)) by (nonlinear_arith);
    assert(b / (2 * total) <= c / (2 * total)) by (nonlinear_arith)
        requires
            0 <= b <= c,
            0 < total,
    ;
    assert(c / (2 * total) == width) by (nonlinear_arith)
        requires
            c == 2 * (total * width) + total,
            0 < total,
            0 <= width,
    ;
    assert(2 * 0 * width == 0) by (nonlinear_arith);
    assert(total / (2 * total) == 0) by (nonlinear_arith)
        requires
            0 < total,
    ;
}

/// Rounding to the nearest cell, a half upwards, goes by what division leaves.
proof fn lemma_filled(done: int, total: int, width: int)
    requires
        0 <= done <= total,
        0 < total,
        0 <= width,
    ensures
        filled(done, total, width) == (done * width) / total + if 2 * ((done * width) % total)
            >= total {
            1int
        } else {
            0
        },
{
    let a = done * width;
    let q = a / total;
    let r = a % total;
    assert(2 * done * width == 2 * a) by (nonlinear_arith)
        requires
            a == done * width,
    ;
    assert(a == total * q + r && 0 <= r < total) by (nonlinear_arith)
        requires
            q == a / total,
            r == a % total,
            0 < total,
    ;
    let n = 2 * a + total;
    if 2 * r >= total {
        assert(n / (2 * total) == q + 1) by (nonlinear_arith)
            requires
                n == 2 * (total * q + r) + total,
                total <= 2 * r < 2 * total,
                0 < total,
        ;
    } else {
        assert(n / (2 * total) == q) by (nonlinear_arith)
            requires
                n == 2 * (total * q + r) + total,
                0 <= 2 * r < total,
                0 < total,
        ;
    }
}

/// A progress bar that keeps moving even when the run does not.
///
/// The fill is real progress: steps a job has finished. The bright cell
/// sweeping along it is not: it exists so that an eight-minute test step still
/// reads as alive. Nothing started means there is no honest fill, and a single
/// travelling cell says "waiting" without inventing progress.
pub fn progress_bar(ratio: Option<Ratio>, width: usize, sweep: usize, bounce: usize) -> (v: Vec<
    Span,
>)
    requires
        drawable(ratio),
    ensures
        v.deep_view() == bar_cells(ratio, width as int, sweep as int, bounce as int),
{
    match ratio {
        Some(r) => {
            proof {
                law_bars_fill_with_progress(
                    r.done as int,
                    r.done as int,
                    r.total as int,
                    width as int,
                );
                assert(0 <= r.done * width <= 0xffff_ffff_ffff_ffff * 0xffff_ffff_ffff_ffff)
                    by (nonlinear_arith)
                    requires
                        r.done <= 0xffff_ffff_ffff_ffff,
                        width <= 0xffff_ffff_ffff_ffff,
                ;
                lemma_filled(r.done as int, r.total as int, width as int);
            }
            let cells: u128 = r.done as u128 * width as u128;
            let over: u128 = cells % r.total as u128;
            let half: u128 = if 2 * over >= r.total as u128 {
                1
            } else {
                0
            };
            let full: usize = (cells / r.total as u128 + half) as usize;
            assert(full == filled(r.done as int, r.total as int, width as int));
            let ghost g = |i: int|
                progress_cell(
                    filled(r.done as int, r.total as int, width as int),
                    sweep as int,
                    i,
                );
            each(
                width,
                (|i: usize| -> (s: Span)
                    requires
                        i < width,
                    ensures
                        s.deep_view() == progress_cell(full as int, sweep as int, i as int),
                {
                    if i < full {
                        if i == sweep {
                            span("━", fg(Role::TextBright))
                        } else {
                            span("━", fg(Role::Warning))
                        }
                    } else if i == full {
                        span("╺", fg(Role::Warning))
                    } else {
                        span("─", fg(Role::Border))
                    }
                }),
                Ghost(g),
            )
        },
        None => {
            let ghost g = |i: int| waiting_cell(bounce as int, i);
            each(
                width,
                (|i: usize| -> (s: Span)
                    requires
                        i < width,
                    ensures
                        s.deep_view() == waiting_cell(bounce as int, i as int),
                {
                    if i == bounce {
                        span("━", fg(Role::TextBright))
                    } else if (i > bounce && i - bounce == 1) || (bounce > i && bounce - i == 1) {
                        span("━", fg(Role::Warning))
                    } else {
                        span("─", fg(Role::Border))
                    }
                }),
                Ghost(g),
            )
        },
    }
}

} // verus!
