//! What the bars show.

use vstd::prelude::*;
use vstd::string::*;

use crate::bars::{ages, bar, bar_cells, bar_height, bar_role, fade_tenths, filled, longest, run_bar, shortest, sparkline, took, Ratio};
use crate::clock::secs_since;
use crate::meaning::reading::{group_texts, least};
use crate::paint::{Paint, Role};
use crate::state::Run;
use crate::text::run_of;
use crate::wrap::texts;

verus! {

broadcast use {vstd::string::group_string_axioms, group_texts};

/// How long a run took.
pub open spec fn lasted(r: Run) -> int {
    secs_since(r.created_at, r.updated_at)
}

/// The colour that a blend starts from.
pub open spec fn ground_colour(p: Option<Paint>) -> Option<Role> {
    match p {
        Some(Paint::Plain(r)) => Some(r),
        Some(Paint::Mix { from, .. }) => Some(from),
        _ => None,
    }
}

/// A history is a bar for each of the newest runs that fit, the newest on the right
/// and the oldest on the left, each in the colour of how its run ended. Where there
/// are fewer than fit, blanks stand in front of them; where there are none, a dash
/// at the right edge.
pub proof fn law_histories_read_left_to_right(runs: Seq<Run>, width: int)
    requires
        width >= 1,
        runs.len() <= usize::MAX,
    ensures
        ({
            let v = sparkline(runs, width);
            let n = least(runs.len() as int, width);
            let lead = v.len() - n;
            &&& runs.len() == 0 ==> texts(v) == run_of(' ', (width - 1) as nat) + "—"@
            &&& runs.len() >= width ==> lead == 0
            &&& 0 < runs.len() < width ==> lead == 1 && v[0].text == run_of(
                ' ',
                (width - runs.len()) as nat,
            )
            &&& forall|i: int|
                #![trigger runs[i]]
                0 <= i < n ==> {
                    &&& ground_colour(v[v.len() - 1 - i].style.fg) == Some(
                        bar_role(runs[i].status),
                    )
                    &&& v[v.len() - 1 - i].text == bar(
                        bar_height(lasted(runs[i]), longest(runs, n), shortest(runs, n)) as u8,
                    )@
                }
        }),
{
    let v = sparkline(runs, width);
    let n = least(runs.len() as int, width);
    if runs.len() == 0 {
        assert(texts(v) =~= run_of(' ', (width - 1) as nat) + "—"@);
    }
    assert forall|i: int|
        #![trigger runs[i]]
        0 <= i < n implies {
        &&& ground_colour(v[v.len() - 1 - i].style.fg) == Some(bar_role(runs[i].status))
        &&& v[v.len() - 1 - i].text == bar(
            bar_height(lasted(runs[i]), longest(runs, n), shortest(runs, n)) as u8,
        )@
    } by {
        let j = n - 1 - i;
        assert(v[v.len() - 1 - i] == run_bar(runs, n, j));
        let f = fade_tenths(runs[i].status) as int;
        let a = ages(n);
        assert(0 <= f * (a - j) <= 6 * a) by (nonlinear_arith)
            requires
                0 <= f <= 6,
                0 <= a - j <= a,
        ;
        assert(f * (a - j) < 10 * a);
    }
}

proof fn lemma_extremes(runs: Seq<Run>, n: int)
    requires
        0 < n <= runs.len(),
    ensures
        forall|i: int| 0 <= i < n ==> lasted(#[trigger] runs[i]) <= longest(runs, n),
        forall|i: int| 0 <= i < n ==> lasted(#[trigger] runs[i]) >= shortest(runs, n),
        exists|i: int| 0 <= i < n && lasted(#[trigger] runs[i]) == longest(runs, n),
        exists|i: int| 0 <= i < n && lasted(#[trigger] runs[i]) == shortest(runs, n),
    decreases n,
{
    if n > 1 {
        lemma_extremes(runs, n - 1);
        let a = choose|i: int| 0 <= i < n - 1 && lasted(#[trigger] runs[i]) == longest(runs, n - 1);
        let b = choose|i: int|
            0 <= i < n - 1 && lasted(#[trigger] runs[i]) == shortest(runs, n - 1);
        assert(lasted(runs[n - 1]) == took(runs[n - 1]));
        if longest(runs, n) == longest(runs, n - 1) {
            assert(lasted(runs[a]) == longest(runs, n));
        } else {
            assert(lasted(runs[n - 1]) == longest(runs, n));
        }
        if shortest(runs, n) == shortest(runs, n - 1) {
            assert(lasted(runs[b]) == shortest(runs, n));
        } else {
            assert(lasted(runs[n - 1]) == shortest(runs, n));
        }
    } else {
        assert(longest(runs, 0) == 0);
        assert(longest(runs, 1) == took(runs[0])) by {
            reveal_with_fuel(longest, 2);
        }
        assert(lasted(runs[0]) == shortest(runs, n));
        assert(lasted(runs[0]) == longest(runs, n));
    }
}

/// The bars of a history are scaled between the shortest and the longest run shown:
/// the longest stands tallest, the shortest lowest, and every other to the nearest
/// seventh between them. Where they took about as long as one another, to within
/// three twentieths of the longest, all stand alike.
pub proof fn law_bars_are_scaled_to_their_runs(runs: Seq<Run>, n: int, i: int)
    requires
        0 <= i < n <= runs.len(),
    ensures
        ({
            let long = longest(runs, n);
            let short = shortest(runs, n);
            let h = bar_height(lasted(runs[i]), long, short);
            let alike = long <= 0 || 20 * (long - short) < 3 * long;
            &&& forall|k: int|
                0 <= k < n ==> short <= lasted(#[trigger] runs[k]) <= long
            &&& exists|k: int| 0 <= k < n && lasted(#[trigger] runs[k]) == long
            &&& exists|k: int| 0 <= k < n && lasted(#[trigger] runs[k]) == short
            &&& alike ==> h == 3
            &&& !alike ==> {
                &&& 0 <= h <= 7
                &&& lasted(runs[i]) == long ==> h == 7
                &&& lasted(runs[i]) == short ==> h == 0
                &&& -(long - short) <= 2 * (7 * (lasted(runs[i]) - short) - h * (long - short))
                    < long - short
            }
        }),
{
    lemma_extremes(runs, n);
    let long = longest(runs, n);
    let short = shortest(runs, n);
    let d = long - short;
    let x = lasted(runs[i]) - short;
    let h = bar_height(lasted(runs[i]), long, short);
    if !(long <= 0 || 20 * (long - short) < 3 * long) {
        assert(d > 0);
        assert(h == (14 * x + d) / (2 * d));
        assert(h * (2 * d) <= 14 * x + d < (h + 1) * (2 * d)) by (nonlinear_arith)
            requires
                h == (14 * x + d) / (2 * d),
                d > 0,
        ;
        assert(h * (2 * d) == 2 * (h * d)) by (nonlinear_arith);
        assert((h + 1) * (2 * d) == 2 * (h * d) + 2 * d) by (nonlinear_arith);
        assert(0 <= h) by (nonlinear_arith)
            requires
                (h + 1) * (2 * d) > 14 * x + d,
                x >= 0,
                d > 0,
        ;
        assert(h <= 7) by (nonlinear_arith)
            requires
                h * (2 * d) <= 14 * x + d,
                x <= d,
                d > 0,
        ;
        if x == d {
            assert(h >= 7) by (nonlinear_arith)
                requires
                    14 * d + d < (h + 1) * (2 * d),
                    d > 0,
            ;
        }
        if x == 0 {
            assert(h <= 0) by (nonlinear_arith)
                requires
                    h * (2 * d) <= d,
                    d > 0,
            ;
        }
    }
}

/// Taller bars are drawn taller, and no two heights alike.
pub proof fn law_heights_are_told_apart(a: u8, b: u8)
    requires
        a < b <= 7,
    ensures
        bar(a)@.len() == 1,
        bar(b)@.len() == 1,
        (bar(a)@[0] as int) < bar(b)@[0] as int,
{
    reveal_strlit("▁");
    reveal_strlit("▂");
    reveal_strlit("▃");
    reveal_strlit("▄");
    reveal_strlit("▅");
    reveal_strlit("▆");
    reveal_strlit("▇");
    reveal_strlit("█");
}

/// A progress bar is as full as the work is done, to the nearest cell: the full
/// cells first, a cap where they end, and the empty ones after it. None of it is
/// full before anything is done, and all of it once everything is.
pub proof fn law_bars_are_as_full_as_the_work(r: Ratio, width: int, sweep: int, bounce: int, i: int)
    requires
        0 < r.total,
        r.done <= r.total,
        0 <= i < width,
    ensures
        ({
            let v = bar_cells(Some(r), width, sweep, bounce);
            let full = filled(r.done as int, r.total as int, width);
            &&& v.len() == width
            &&& v[i].text == (if i < full {
                "━"@
            } else if i == full {
                "╺"@
            } else {
                "─"@
            })
            &&& 0 <= full <= width
            &&& r.done == 0 ==> full == 0
            &&& r.done == r.total ==> full == width
            &&& -r.total <= 2 * (r.done * width - full * r.total) < r.total
        }),
{
    let d = r.done as int;
    let t = r.total as int;
    let full = filled(d, t, width);
    assert(full * (2 * t) <= 2 * d * width + t < (full + 1) * (2 * t)) by (nonlinear_arith)
        requires
            full == (2 * d * width + t) / (2 * t),
            t > 0,
    ;
    assert(full * (2 * t) == 2 * (full * t)) by (nonlinear_arith);
    assert((full + 1) * (2 * t) == 2 * (full * t) + 2 * t) by (nonlinear_arith);
    assert(2 * d * width == 2 * (d * width)) by (nonlinear_arith);
    assert(0 <= d * width <= t * width) by (nonlinear_arith)
        requires
            0 <= d <= t,
            width >= 0,
    ;
    assert(0 <= full <= width) by (nonlinear_arith)
        requires
            2 * (full * t) <= 2 * (d * width) + t < 2 * (full * t) + 2 * t,
            0 <= d * width <= t * width,
            t > 0,
    ;
    if d == 0 {
        assert(d * width == 0);
        assert(full <= 0) by (nonlinear_arith)
            requires
                2 * (full * t) <= t,
                t > 0,
        ;
    }
    if d == t {
        assert(full >= width) by (nonlinear_arith)
            requires
                2 * (t * width) + t < 2 * (full * t) + 2 * t,
                t > 0,
        ;
    }
}

/// A bar with nothing to measure has one light travelling along it: the cell it is on
/// and those either side of it are heavy, and no others are.
pub proof fn law_waiting_bars_travel(width: int, sweep: int, bounce: int, i: int)
    requires
        0 <= i < width,
    ensures
        ({
            let v = bar_cells(None, width, sweep, bounce);
            &&& v.len() == width
            &&& v[i].text == (if bounce - 1 <= i <= bounce + 1 {
                "━"@
            } else {
                "─"@
            })
            &&& v[i].style.fg == Some(Paint::Plain(Role::TextBright)) <==> i == bounce
        }),
{
}

/// The light on a bar lies on its full part.
pub proof fn law_the_light_lies_on_what_is_done(
    r: Ratio,
    width: int,
    sweep: int,
    bounce: int,
    i: int,
)
    requires
        0 <= i < width,
    ensures
        ({
            let v = bar_cells(Some(r), width, sweep, bounce);
            v[i].style.fg == Some(Paint::Plain(Role::TextBright)) <==> i == sweep && i < filled(
                r.done as int,
                r.total as int,
                width,
            )
        }),
{
}

} // verus!
