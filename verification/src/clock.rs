//! Moments, the time between them, and how both are written.

use vstd::prelude::*;
use vstd::seq_lib::*;
use vstd::string::*;

use crate::paint::{fg, Role, Style};
use crate::state::{Run, Status};
use crate::text::{cat2, cat3, cat4, cat5, dec, digit, int_num, int_text, lemma_first_of, pieces, same, two_digits, two_num};

verus! {

broadcast use vstd::string::group_string_axioms;

/// A moment: whole seconds since the epoch, and nanoseconds into the next.
#[derive(Clone, Copy, PartialEq, Eq, Debug, Structural)]
pub struct Stamp {
    pub secs: i64,
    pub nanos: u32,
}

impl Stamp {
    /// Nanoseconds since the epoch.
    pub open spec fn at(self) -> int {
        self.secs * 1_000_000_000 + self.nanos
    }
}

/// `a / b` with the fraction dropped, whatever the sign of `a`.
pub open spec fn quot(a: int, b: int) -> int {
    if a >= 0 {
        a / b
    } else {
        -((-a) / b)
    }
}

/// What `quot` leaves over; it has the sign of `a`.
pub open spec fn rest(a: int, b: int) -> int {
    a - b * quot(a, b)
}

/// `i` held between the smallest and the largest `i64`.
pub open spec fn held(i: int) -> int {
    if i < i64::MIN {
        i64::MIN as int
    } else if i > i64::MAX {
        i64::MAX as int
    } else {
        i
    }
}

/// How many units of `unit` nanoseconds lie from `from` to `to`, the fraction
/// dropped.
pub open spec fn units_between(from: Stamp, to: Stamp, unit: int) -> int {
    held(quot(to.at() - from.at(), unit))
}

/// Whole seconds from `from` to `to`.
pub open spec fn secs_between(from: Stamp, to: Stamp) -> int {
    units_between(from, to, 1_000_000_000)
}

/// Whole seconds from `from` to `to`, none when `to` comes first.
pub open spec fn secs_since(from: Stamp, to: Stamp) -> int {
    if secs_between(from, to) > 0 {
        secs_between(from, to)
    } else {
        0
    }
}

/// Whole milliseconds from `from` to `to`, none when `to` comes first.
pub open spec fn millis_since(from: Stamp, to: Stamp) -> int {
    if units_between(from, to, 1_000_000) > 0 {
        units_between(from, to, 1_000_000)
    } else {
        0
    }
}

fn units(from: Stamp, to: Stamp, unit: u32) -> (r: i64)
    requires
        unit > 0,
    ensures
        r == units_between(from, to, unit as int),
{
    let a: i128 = (to.secs as i128 - from.secs as i128) * 1_000_000_000 + (to.nanos as i128
        - from.nanos as i128);
    assert(a == to.at() - from.at());
    let q: i128 = if a >= 0 {
        (a as u128 / unit as u128) as i128
    } else {
        -(((-a) as u128 / unit as u128) as i128)
    };
    proof {
        let m = if a >= 0 { a as int } else { -(a as int) };
        assert(0 <= m / (unit as int) <= m) by (nonlinear_arith)
            requires
                m >= 0,
                unit > 0,
        ;
    }
    if q < i64::MIN as i128 {
        i64::MIN
    } else if q > i64::MAX as i128 {
        i64::MAX
    } else {
        q as i64
    }
}

/// Whole seconds from `from` to `to`.
pub fn seconds_between(from: Stamp, to: Stamp) -> (r: i64)
    ensures
        r == secs_between(from, to),
{
    units(from, to, 1_000_000_000)
}

/// Whole seconds from `from` to `to`, none when `to` comes first.
pub fn seconds_since(from: Stamp, to: Stamp) -> (r: i64)
    ensures
        r == secs_since(from, to),
        r >= 0,
{
    let s: i64 = seconds_between(from, to);
    if s > 0 {
        s
    } else {
        0
    }
}

/// Whole milliseconds from `from` to `to`, none when `to` comes first.
pub fn milliseconds_since(from: Stamp, to: Stamp) -> (r: i64)
    ensures
        r == millis_since(from, to),
        r >= 0,
{
    let s: i64 = units(from, to, 1_000_000);
    if s > 0 {
        s
    } else {
        0
    }
}

/// Whether `a` comes after `b`.
pub open spec fn after(a: Stamp, b: Stamp) -> bool {
    a.at() > b.at()
}

/// Whether `a` comes after `b`.
pub fn is_after(a: Stamp, b: Stamp) -> (r: bool)
    ensures
        r == after(a, b),
{
    let x: i128 = a.secs as i128 * 1_000_000_000 + a.nanos as i128;
    let y: i128 = b.secs as i128 * 1_000_000_000 + b.nanos as i128;
    x > y
}

// ── Times of day ───────────────────────────────────────────────────────────

/// A time of day.
#[derive(Clone, Copy, PartialEq, Eq, Debug, Structural)]
pub struct HourMin {
    pub hour: u32,
    pub minute: u32,
}

/// A time of day that a clock can show.
pub open spec fn on_the_clock(t: HourMin) -> bool {
    t.hour < 24 && t.minute < 60
}

/// A time of day as `%H:%M` writes it.
pub open spec fn clock_text(t: HourMin) -> Seq<char> {
    two_digits(t.hour as int) + ":"@ + two_digits(t.minute as int)
}

/// A time of day as `%H:%M` writes it.
pub fn write_clock(t: HourMin) -> (s: String)
    ensures
        s@ == clock_text(t),
{
    let h = two_num(t.hour as i64);
    let m = two_num(t.minute as i64);
    cat3(&h, ":", &m)
}

/// A moment that `chrono` can hold, with room on either side for any offset
/// from UTC.
pub open spec fn holdable(at: Stamp) -> bool {
    -8_000_000_000_000 <= at.secs <= 8_000_000_000_000 && at.nanos < 1_000_000_000
}

/// The hour and minute of `at` where this machine is: `chrono`'s
/// `DateTime::from_timestamp`, `with_timezone(&Local)`, `hour` and `minute`.
/// Which hour it is depends on the machine's time zone, so nothing is claimed
/// but that a clock can show it.
#[verifier::external_body]
fn local_time(at: Stamp) -> (t: HourMin)
    requires
        holdable(at),
    ensures
        on_the_clock(t),
{
    let utc = chrono::DateTime::from_timestamp(at.secs, at.nanos).unwrap();
    let t = utc.with_timezone(&chrono::Local);
    HourMin { hour: chrono::Timelike::hour(&t), minute: chrono::Timelike::minute(&t) }
}

/// Whether `t` is what a clock of this machine shows at the moment `at`.
pub closed spec fn shown_at(at: Stamp, t: HourMin) -> bool {
    call_ensures(local_time, (at,), t)
}

/// What a clock of this machine shows at the moment `at`.
pub(crate) fn clock_at(at: Stamp) -> (t: HourMin)
    requires
        holdable(at),
    ensures
        on_the_clock(t),
        shown_at(at, t),
{
    local_time(at)
}

// ── Writing durations ──────────────────────────────────────────────────────

/// A duration as a stopwatch shows it: minutes and seconds, with the hours in
/// front once there are any.
pub open spec fn elapsed_text(secs: int) -> Seq<char> {
    let h = quot(secs, 3600);
    let m = quot(rest(secs, 3600), 60);
    let s = rest(secs, 60);
    if h > 0 {
        int_text(h) + ":"@ + two_digits(m) + ":"@ + two_digits(s)
    } else {
        int_text(m) + ":"@ + two_digits(s)
    }
}

fn whole(a: i64, b: i64) -> (r: i64)
    requires
        0 < b <= 86400,
    ensures
        r == quot(a as int, b as int),
        a >= 0 ==> 0 <= r <= a,
{
    proof {
        let m = if a >= 0 { a as int } else { -(a as int) };
        assert(0 <= m / (b as int) <= m) by (nonlinear_arith)
            requires
                m >= 0,
                b > 0,
        ;
    }
    if a >= 0 {
        a / b
    } else {
        (-((-(a as i128)) / b as i128)) as i64
    }
}

fn left_over(a: i64, b: i64) -> (r: i64)
    requires
        0 < b <= 86400,
    ensures
        r == rest(a as int, b as int),
        -b < r < b,
        a >= 0 ==> r >= 0,
{
    let q: i64 = whole(a, b);
    proof {
        let m = if a >= 0 { a as int } else { -(a as int) };
        assert(0 <= m - (b as int) * (m / (b as int)) < b) by (nonlinear_arith)
            requires
                m >= 0,
                b > 0,
        ;
        assert((b as int) * (-(m / (b as int))) == -((b as int) * (m / (b as int))))
            by (nonlinear_arith);
    }
    assert(-0x8000_0000_0000_0000 * 86400 <= q * b <= 0x8000_0000_0000_0000 * 86400)
        by (nonlinear_arith)
        requires
            -0x8000_0000_0000_0000 <= q <= 0x7fff_ffff_ffff_ffff,
            0 < b <= 86400,
    ;
    let p: i128 = q as i128 * b as i128;
    assert(p == q * b);
    assert(q * b == b * q) by (nonlinear_arith);
    (a as i128 - p) as i64
}

/// Whether a text is a number: digits, and at least one.
pub open spec fn is_number(t: Seq<char>) -> bool {
    t.len() > 0 && forall|i: int| 0 <= i < t.len() ==> '0' <= #[trigger] t[i] <= '9'
}

/// The number a text is.
pub open spec fn number_read(t: Seq<char>) -> int
    decreases t.len(),
{
    if t.len() == 0 {
        0
    } else {
        10 * number_read(t.drop_last()) + (t.last() as int - '0' as int)
    }
}

/// Whether a stopwatch text, split at its colons, reads as `secs`: hours, minutes
/// and seconds from an hour on, minutes and seconds before. Minutes and seconds
/// count below sixty; the seconds have two digits, and so have the minutes behind
/// an hour.
pub open spec fn reads_as(t: Seq<char>, secs: int) -> bool {
    let f = pieces(t, ':');
    let n = |k: int| number_read(f[k]);
    &&& forall|k: int| 0 <= k < f.len() ==> is_number(#[trigger] f[k])
    &&& if secs >= 3600 {
        &&& f.len() == 3
        &&& t == f[0] + ":"@ + f[1] + ":"@ + f[2]
        &&& f[1].len() == 2 && f[2].len() == 2
        &&& n(1) < 60 && n(2) < 60
        &&& (n(0) * 60 + n(1)) * 60 + n(2) == secs
    } else {
        &&& f.len() == 2
        &&& t == f[0] + ":"@ + f[1]
        &&& f[1].len() == 2
        &&& n(0) < 60 && n(1) < 60
        &&& n(0) * 60 + n(1) == secs
    }
}

/// What a stopwatch shows reads back as the seconds that went in.
pub proof fn law_elapsed_reads_back(secs: int)
    requires
        secs >= 0,
    ensures
        reads_as(elapsed_text(secs), secs),
{
    let h = secs / 3600;
    let m = rest(secs, 3600) / 60;
    let s = rest(secs, 60);
    assert(secs == 3600 * h + 60 * m + s && 0 <= m < 60 && 0 <= s < 60) by {
        let q = secs / 60;
        assert(secs / 3600 == q / 60);
    }
    lemma_number(h as nat);
    lemma_number(m as nat);
    lemma_two_digits(m);
    lemma_two_digits(s);
    if h > 0 {
        let t = two_digits(m) + ":"@ + two_digits(s);
        lemma_pieces_front(int_text(h), t);
        lemma_pieces_front(two_digits(m), two_digits(s));
        lemma_pieces_one(two_digits(s));
        assert(elapsed_text(secs) =~= int_text(h) + ":"@ + t);
    } else {
        lemma_pieces_front(int_text(m), two_digits(s));
        lemma_pieces_one(two_digits(s));
    }
}

/// No two durations are shown alike.
pub proof fn law_durations_are_told_apart(a: int, b: int)
    requires
        0 <= a,
        0 <= b,
        a != b,
    ensures
        elapsed_text(a) != elapsed_text(b),
{
    law_elapsed_reads_back(a);
    law_elapsed_reads_back(b);
}

proof fn lemma_number(n: nat)
    ensures
        is_number(dec(n)),
        number_read(dec(n)) == n,
    decreases n,
{
    let d = n % 10;
    assert(digit(d) as int == d + '0' as int);
    reveal_with_fuel(number_read, 2);
    if n < 10 {
        assert(dec(n).drop_last() =~= Seq::empty());
    } else {
        lemma_number(n / 10);
        assert(dec(n).drop_last() =~= dec(n / 10));
    }
    assert(dec(n).last() == digit(d));
}

proof fn lemma_two_digits(i: int)
    requires
        0 <= i < 60,
    ensures
        two_digits(i).len() == 2,
        is_number(two_digits(i)),
        number_read(two_digits(i)) == i,
{
    lemma_number(i as nat);
    reveal_strlit("0");
    reveal_with_fuel(dec, 3);
    if i < 10 {
        let t = two_digits(i);
        assert(t.drop_last() =~= seq!['0']);
        assert(t.drop_last().drop_last() =~= Seq::empty());
        assert(t.last() == digit(i as nat));
        reveal_with_fuel(number_read, 3);
    }
}

proof fn lemma_pieces_one(t: Seq<char>)
    requires
        is_number(t),
    ensures
        pieces(t, ':') == seq![t],
{
    lemma_first_of(t, ':', t.len() as int);
    reveal_with_fuel(pieces, 2);
    assert(t.take(t.len() as int) =~= t);
    assert(t.skip(t.len() as int) =~= Seq::empty());
    assert(pieces(t, ':') =~= seq![t]);
}

proof fn lemma_pieces_front(t: Seq<char>, rest: Seq<char>)
    requires
        is_number(t),
    ensures
        pieces(t + ":"@ + rest, ':') == seq![t] + pieces(rest, ':'),
{
    reveal_strlit(":");
    let all = t + ":"@ + rest;
    assert(all[0] == t[0]);
    lemma_first_of(all, ':', t.len() as int);
    reveal_with_fuel(pieces, 2);
    let back = all.skip(t.len() as int);
    assert(all.take(t.len() as int) =~= t);
    assert(back[0] == ':');
    assert(back.drop_first() =~= rest);
}

/// A duration as a stopwatch shows it.
pub fn format_elapsed(secs: i64) -> (s: String)
    ensures
        s@ == elapsed_text(secs as int),
        secs >= 0 ==> reads_as(s@, secs as int),
{
    proof {
        if secs >= 0 {
            law_elapsed_reads_back(secs as int);
        }
    }
    let h: i64 = whole(secs, 3600);
    let m: i64 = whole(left_over(secs, 3600), 60);
    let s: i64 = left_over(secs, 60);
    let ht = int_num(h);
    let mt = two_num(m);
    let st = two_num(s);
    if h > 0 {
        cat5(&ht, ":", &mt, ":", &st)
    } else {
        let m1 = int_num(m);
        cat3(&m1, ":", &st)
    }
}

/// A wait short enough to sit through, worded as one.
pub open spec fn countdown_text(secs: int) -> Seq<char> {
    if secs < 60 {
        int_text(secs) + "s"@
    } else {
        int_text(secs / 60) + "m"@ + two_digits(secs % 60) + "s"@
    }
}

/// A wait short enough to sit through, worded as one.
pub fn format_countdown(secs: i64) -> (s: String)
    ensures
        s@ == countdown_text(secs as int),
{
    if secs < 60 {
        let n = int_num(secs);
        cat2(&n, "s")
    } else {
        let m = int_num(secs / 60);
        let s = two_num(secs % 60);
        cat4(&m, "m", &s, "s")
    }
}

/// A duration in its largest whole unit, up to hours.
pub open spec fn compact_text(secs: int) -> Seq<char> {
    if secs < 60 {
        int_text(secs) + "s"@
    } else if secs < 3600 {
        int_text(secs / 60) + "m"@
    } else {
        int_text(secs / 3600) + "h"@
    }
}

/// How long something has been going, in as few characters as say it.
///
/// No "ago": this is a stopwatch on something still running, not a timestamp.
pub fn compact_elapsed(since: Stamp, now: Stamp) -> (s: String)
    ensures
        s@ == compact_text(secs_since(since, now)),
{
    let secs: i64 = seconds_since(since, now);
    if secs < 60 {
        let n = int_num(secs);
        cat2(&n, "s")
    } else if secs < 3600 {
        let n = int_num(secs / 60);
        cat2(&n, "m")
    } else {
        let n = int_num(secs / 3600);
        cat2(&n, "h")
    }
}

/// How long ago something was, in its largest whole unit up to days.
pub open spec fn ago_text(secs: int) -> Seq<char> {
    if secs < 60 {
        int_text(secs) + "s ago"@
    } else if secs < 3600 {
        int_text(secs / 60) + "m ago"@
    } else if secs < 86400 {
        int_text(secs / 3600) + "h ago"@
    } else {
        int_text(secs / 86400) + "d ago"@
    }
}

/// Bright within the hour, accented within the day, faint after that.
pub open spec fn ago_style(secs: int) -> Style {
    if secs < 3600 {
        fg(Role::TextBright)
    } else if secs < 86400 {
        fg(Role::Accent)
    } else {
        fg(Role::TextFaint)
    }
}

/// How long ago `t` was, and the weight that deserves.
pub fn relative_styled(t: Stamp, now: Stamp) -> (r: (String, Style))
    ensures
        r.0@ == ago_text(secs_since(t, now)),
        r.1 == ago_style(secs_since(t, now)),
{
    let secs: i64 = seconds_since(t, now);
    let text = if secs < 60 {
        let n = int_num(secs);
        cat2(&n, "s ago")
    } else if secs < 3600 {
        let n = int_num(secs / 60);
        cat2(&n, "m ago")
    } else if secs < 86400 {
        let n = int_num(secs / 3600);
        cat2(&n, "h ago")
    } else {
        let n = int_num(secs / 86400);
        cat2(&n, "d ago")
    };
    let style = if secs < 3600 {
        fg(Role::TextBright)
    } else if secs < 86400 {
        fg(Role::Accent)
    } else {
        fg(Role::TextFaint)
    };
    (text, style)
}

// ── Runs ───────────────────────────────────────────────────────────────────

/// How long a run has taken: up to now while it is going, up to its last
/// update once it is over.
pub open spec fn run_secs(run: Run, now: Stamp) -> int {
    secs_since(run.created_at, if run.status.is_terminal() { run.updated_at } else { now })
}

/// How long a run has taken. The clock stops when the run does: otherwise it
/// would keep ticking on one that was skipped an hour ago.
pub fn elapsed_seconds(run: &Run, now: Stamp) -> (r: i64)
    ensures
        r == run_secs(*run, now),
        r >= 0,
{
    let end = if run.status.is_terminal() {
        run.updated_at
    } else {
        now
    };
    seconds_since(run.created_at, end)
}

/// The clock of a run that is over does not move.
pub proof fn law_finished_runs_are_frozen(run: Run, now: Stamp, later: Stamp)
    requires
        run.status.is_terminal(),
    ensures
        run_secs(run, now) == run_secs(run, later),
{
}

/// Whether a run is one to learn a workflow's duration from: a success of that
/// workflow that took any time at all.
pub open spec fn telling(run: Run, title: Seq<char>) -> bool {
    &&& run.display_title@ == title
    &&& run.status == Status::Success
    &&& secs_between(run.created_at, run.updated_at) > 0
}

/// The durations of the runs to learn from, in the order of the runs.
pub open spec fn durations(runs: Seq<Run>, title: Seq<char>) -> Seq<int>
    decreases runs.len(),
{
    if runs.len() == 0 {
        Seq::empty()
    } else {
        let front = durations(runs.drop_last(), title);
        let run = runs.last();
        if telling(run, title) {
            front.push(secs_between(run.created_at, run.updated_at))
        } else {
            front
        }
    }
}

/// Numbers in rising order.
pub open spec fn rising(s: Seq<int>) -> Seq<int> {
    s.sort_by(|a: int, b: int| a <= b)
}

/// The middle of the durations a workflow's successes took, the upper one of
/// two middles.
pub open spec fn typical(runs: Seq<Run>, title: Seq<char>) -> Option<int> {
    let d = durations(runs, title);
    if d.len() == 0 {
        None
    } else {
        Some(rising(d)[d.len() as int / 2])
    }
}

pub open spec fn ints(v: Seq<i64>) -> Seq<int> {
    Seq::new(v.len(), |i: int| v[i] as int)
}

/// Put `x` into sorted `v`, keeping it sorted.
fn insert_sorted(v: &mut Vec<i64>, x: i64)
    requires
        forall|i: int, j: int| 0 <= i <= j < old(v)@.len() ==> old(v)@[i] <= old(v)@[j],
    ensures
        forall|i: int, j: int| 0 <= i <= j < final(v)@.len() ==> final(v)@[i] <= final(v)@[j],
        ints(final(v)@).to_multiset() =~= ints(old(v)@).push(x as int).to_multiset(),
{
    let mut at: usize = 0;
    while at < v.len() && v[at] <= x
        invariant
            at <= v@.len(),
            forall|j: int| 0 <= j < at ==> v@[j] <= x,
        decreases v@.len() - at,
    {
        at = at + 1;
    }
    let ghost before = v@;
    v.insert(at, x);
    proof {
        assert(v@ == before.insert(at as int, x));
        assert(ints(v@) =~= ints(before).insert(at as int, x as int));
        vstd::seq_lib::to_multiset_insert(ints(before), at as int, x as int);
        broadcast use vstd::seq_lib::group_to_multiset_ensures;
    }
}

proof fn lemma_rising(s: Seq<int>, t: Seq<int>)
    requires
        forall|i: int, j: int| 0 <= i <= j < s.len() ==> s[i] <= s[j],
        s.to_multiset() == t.to_multiset(),
    ensures
        s == rising(t),
{
    let leq = |a: int, b: int| a <= b;
    assert(vstd::relations::total_ordering(leq));
    t.lemma_sort_by_ensures(leq);
    assert(vstd::relations::sorted_by(s, leq));
    vstd::seq_lib::lemma_sorted_unique(s, t.sort_by(leq), leq);
}

/// The typical duration of one workflow, learned from the finished successes
/// on hand: the median, which one freak build cannot drag. Nothing until there
/// is at least one to learn from.
pub fn typical_run_secs(runs: &Vec<Run>, title: &str) -> (r: Option<i64>)
    ensures
        r is Some <==> typical(runs@, title@) is Some,
        r matches Some(t) ==> typical(runs@, title@) == Some(t as int) && t > 0,
{
    let mut durs: Vec<i64> = Vec::new();
    let mut i: usize = 0;
    assert(runs@.take(0) =~= Seq::empty());
    assert(ints(durs@) =~= Seq::empty());
    while i < runs.len()
        invariant
            i <= runs@.len(),
            forall|a: int, b: int| 0 <= a <= b < durs@.len() ==> durs@[a] <= durs@[b],
            forall|a: int| 0 <= a < durs@.len() ==> durs@[a] > 0,
            ints(durs@).to_multiset() =~= durations(runs@.take(i as int), title@).to_multiset(),
            durs@.len() == durations(runs@.take(i as int), title@).len(),
        decreases runs@.len() - i,
    {
        let run = &runs[i];
        let s: i64 = seconds_between(run.created_at, run.updated_at);
        proof {
            assert(runs@.take(i + 1).drop_last() =~= runs@.take(i as int));
            assert(runs@.take(i + 1).last() == *run);
        }
        if same(&run.display_title, title) && run.status == Status::Success && s > 0 {
            let ghost before = durs@;
            let ghost front = durations(runs@.take(i as int), title@);
            insert_sorted(&mut durs, s);
            proof {
                broadcast use vstd::seq_lib::group_to_multiset_ensures;
                assert(ints(before).push(s as int).to_multiset() =~= front.push(s as int).to_multiset());
                assert(ints(durs@).to_multiset().len() == front.push(s as int).to_multiset().len());
                assert(ints(durs@).len() == front.len() + 1);
                assert forall|a: int| 0 <= a < durs@.len() implies durs@[a] > 0 by {
                    assert(ints(durs@)[a] == durs@[a] as int);
                    assert(ints(durs@).to_multiset().count(ints(durs@)[a]) > 0);
                    if durs@[a] <= 0 {
                        assert(ints(before).push(s as int).to_multiset().count(durs@[a] as int) > 0);
                        assert(ints(before).push(s as int).contains(durs@[a] as int));
                    }
                }
            }
        }
        i = i + 1;
    }
    proof {
        assert(runs@.take(runs@.len() as int) =~= runs@);
        lemma_rising(ints(durs@), durations(runs@, title@));
    }
    if durs.len() == 0 {
        return None;
    }
    let m: usize = durs.len() / 2;
    assert(ints(durs@)[m as int] == durs@[m as int] as int);
    Some(durs[m])
}

/// The typical duration is a median: one of the durations learned from, with
/// more than half of them no longer than it, and at least half no shorter. There
/// is one as soon as there is anything to learn from.
pub proof fn law_typical_is_a_median(runs: Seq<Run>, title: Seq<char>)
    ensures
        typical(runs, title) is None <==> durations(runs, title).len() == 0,
        typical(runs, title) matches Some(t) ==> {
            let d = durations(runs, title);
            &&& d.contains(t)
            &&& t > 0
            &&& 2 * d.filter(|x: int| x <= t).len() > d.len()
            &&& 2 * d.filter(|x: int| x >= t).len() >= d.len()
        },
{
    let d = durations(runs, title);
    if d.len() > 0 {
        let leq = |a: int, b: int| a <= b;
        let r = rising(d);
        assert(vstd::relations::total_ordering(leq));
        d.lemma_sort_by_ensures(leq);
        broadcast use vstd::seq_lib::group_to_multiset_ensures;
        assert(r.len() == d.len()) by {
            assert(r.to_multiset().len() == d.to_multiset().len());
        }
        let mid = d.len() as int / 2;
        let t = r[mid];
        assert(r.to_multiset().count(t) > 0);
        assert(d.to_multiset().count(t) > 0);
        assert(d.contains(t));
        lemma_durations_positive(runs, title);
        let low = |x: int| x <= t;
        let high = |x: int| x >= t;
        lemma_same_tally(r, d, low);
        lemma_same_tally(r, d, high);
        assert forall|i: int| 0 <= i <= mid implies low(#[trigger] r[i]) by {
            assert(leq(r[i], r[mid]));
        }
        assert forall|i: int| mid <= i < r.len() implies high(#[trigger] r[i]) by {
            assert(leq(r[mid], r[i]));
        }
        lemma_tally_at_least(r, low, 0, mid + 1);
        lemma_tally_at_least(r, high, mid, r.len() as int);
    }
}

/// The order of the runs does not matter, nor do runs of other workflows, or ones
/// that did not succeed: where the same runs are learned from, the same is
/// learned.
pub proof fn law_only_telling_runs_matter(runs: Seq<Run>, others: Seq<Run>, title: Seq<char>)
    requires
        runs.filter(|r: Run| telling(r, title)).to_multiset() == others.filter(
            |r: Run| telling(r, title),
        ).to_multiset(),
    ensures
        typical(runs, title) == typical(others, title),
{
    broadcast use vstd::seq_lib::group_to_multiset_ensures;
    let p = |r: Run| telling(r, title);
    let f = |r: Run| secs_between(r.created_at, r.updated_at);
    lemma_durations(runs, title);
    lemma_durations(others, title);
    let a = runs.filter(p);
    let b = others.filter(p);
    lemma_map_multiset(a, b, f);
    let d = durations(runs, title);
    let e = durations(others, title);
    assert(d.len() == e.len()) by {
        assert(d.to_multiset().len() == e.to_multiset().len());
    }
    let leq = |x: int, y: int| x <= y;
    assert(vstd::relations::total_ordering(leq));
    d.lemma_sort_by_ensures(leq);
    let r = rising(d);
    assert forall|i: int, j: int| 0 <= i <= j < r.len() implies r[i] <= r[j] by {
        if i < j {
            assert(leq(r[i], r[j]));
        }
    }
    lemma_rising(r, e);
}

/// Runs in another order are the same runs to learn from.
pub proof fn law_the_order_of_runs_does_not_matter(runs: Seq<Run>, others: Seq<Run>, title: Seq<char>)
    requires
        runs.to_multiset() == others.to_multiset(),
    ensures
        typical(runs, title) == typical(others, title),
{
    let p = |r: Run| telling(r, title);
    lemma_filter_multiset(runs, p);
    lemma_filter_multiset(others, p);
    law_only_telling_runs_matter(runs, others, title);
}

/// One run more, of another workflow or not a success, changes nothing.
pub proof fn law_other_runs_teach_nothing(runs: Seq<Run>, run: Run, at: int, title: Seq<char>)
    requires
        0 <= at <= runs.len(),
        !telling(run, title),
    ensures
        typical(runs.insert(at, run), title) == typical(runs, title),
{
    vstd::seq_lib::to_multiset_insert(runs, at, run);
    broadcast use vstd::seq_lib::group_to_multiset_ensures;
    assert(runs.insert(at, run).to_multiset() =~= runs.push(run).to_multiset());
    law_the_order_of_runs_does_not_matter(runs.insert(at, run), runs.push(run), title);
    assert(runs.push(run).drop_last() =~= runs);
}

proof fn lemma_filter_multiset(s: Seq<Run>, p: spec_fn(Run) -> bool)
    ensures
        s.filter(p).to_multiset() == s.to_multiset().filter(p),
    decreases s.len(),
{
    broadcast use vstd::seq_lib::group_to_multiset_ensures;
    reveal(Seq::filter);
    if s.len() > 0 {
        lemma_filter_multiset(s.drop_last(), p);
        assert(s =~= s.drop_last().push(s.last()));
        assert(s.filter(p).to_multiset() =~= s.to_multiset().filter(p));
    } else {
        s.to_multiset_ensures();
        s.filter(p).to_multiset_ensures();
        assert(s.filter(p).to_multiset() =~= s.to_multiset().filter(p));
    }
}

proof fn lemma_durations_positive(runs: Seq<Run>, title: Seq<char>)
    ensures
        forall|i: int| 0 <= i < durations(runs, title).len() ==> durations(runs, title)[i] > 0,
    decreases runs.len(),
{
    if runs.len() > 0 {
        lemma_durations_positive(runs.drop_last(), title);
        let front = durations(runs.drop_last(), title);
        let d = durations(runs, title);
        assert forall|i: int| 0 <= i < d.len() implies d[i] > 0 by {
            if i < front.len() {
                assert(d[i] == front[i]);
            }
        }
    }
}

proof fn lemma_durations(runs: Seq<Run>, title: Seq<char>)
    ensures
        durations(runs, title) == runs.filter(|r: Run| telling(r, title)).map_values(
            |r: Run| secs_between(r.created_at, r.updated_at),
        ),
    decreases runs.len(),
{
    let p = |r: Run| telling(r, title);
    let f = |r: Run| secs_between(r.created_at, r.updated_at);
    reveal(Seq::filter);
    if runs.len() > 0 {
        lemma_durations(runs.drop_last(), title);
        assert(durations(runs, title) =~= runs.filter(p).map_values(f));
    } else {
        assert(durations(runs, title) =~= runs.filter(p).map_values(f));
    }
}

proof fn lemma_map_multiset(a: Seq<Run>, b: Seq<Run>, f: spec_fn(Run) -> int)
    requires
        a.to_multiset() == b.to_multiset(),
    ensures
        a.map_values(f).to_multiset() == b.map_values(f).to_multiset(),
    decreases a.len(),
{
    broadcast use vstd::seq_lib::group_to_multiset_ensures;
    a.to_multiset_ensures();
    b.to_multiset_ensures();
    if a.len() > 0 {
        let x = a.last();
        assert(a[a.len() - 1] == x);
        assert(a.contains(x));
        assert(b.to_multiset().count(x) > 0);
        assert(b.contains(x));
        let i = choose|i: int| 0 <= i < b.len() && b[i] == x;
        let c = b.remove(i);
        vstd::seq_lib::to_multiset_remove(b, i);
        vstd::seq_lib::to_multiset_remove(a, a.len() - 1);
        assert(a.drop_last() =~= a.remove(a.len() - 1));
        lemma_map_multiset(a.drop_last(), c, f);
        vstd::seq_lib::to_multiset_insert(c.map_values(f), i, f(x));
        assert(b.map_values(f) =~= c.map_values(f).insert(i, f(x)));
        assert(a.map_values(f) =~= a.drop_last().map_values(f).push(f(x)));
        assert(a.map_values(f).to_multiset() =~= b.map_values(f).to_multiset());
    } else {
        assert(a.map_values(f) =~= b.map_values(f));
    }
}

proof fn lemma_same_tally(r: Seq<int>, d: Seq<int>, p: spec_fn(int) -> bool)
    requires
        r.to_multiset() == d.to_multiset(),
    ensures
        r.filter(p).len() == d.filter(p).len(),
    decreases r.len(),
{
    broadcast use vstd::seq_lib::group_to_multiset_ensures;
    r.to_multiset_ensures();
    d.to_multiset_ensures();
    reveal(Seq::filter);
    if r.len() > 0 {
        let x = r.last();
        assert(r[r.len() - 1] == x);
        assert(r.contains(x));
        assert(d.to_multiset().count(x) > 0);
        assert(d.contains(x));
        let i = choose|i: int| 0 <= i < d.len() && d[i] == x;
        vstd::seq_lib::to_multiset_remove(d, i);
        vstd::seq_lib::to_multiset_remove(r, r.len() - 1);
        assert(r.drop_last() =~= r.remove(r.len() - 1));
        lemma_same_tally(r.drop_last(), d.remove(i), p);
        lemma_tally_remove(d, i, p);
    }
}

proof fn lemma_tally_remove(d: Seq<int>, i: int, p: spec_fn(int) -> bool)
    requires
        0 <= i < d.len(),
    ensures
        d.filter(p).len() == d.remove(i).filter(p).len() + if p(d[i]) {
            1int
        } else {
            0
        },
    decreases d.len(),
{
    reveal(Seq::filter);
    if i < d.len() - 1 {
        lemma_tally_remove(d.drop_last(), i, p);
        assert(d.remove(i).drop_last() =~= d.drop_last().remove(i));
    } else {
        assert(d.remove(i) =~= d.drop_last());
    }
}

proof fn lemma_tally_at_least(s: Seq<int>, p: spec_fn(int) -> bool, from: int, to: int)
    requires
        0 <= from <= to <= s.len(),
        forall|i: int| from <= i < to ==> p(#[trigger] s[i]),
    ensures
        s.filter(p).len() >= to - from,
    decreases s.len(),
{
    reveal(Seq::filter);
    if s.len() > 0 {
        let front = s.drop_last();
        let end = if to == s.len() {
            to - 1
        } else {
            to
        };
        if from <= end {
            lemma_tally_at_least(front, p, from, end);
        }
    }
}

/// What to say about a running run's remaining time.
pub open spec fn eta(typical: int, elapsed: int) -> Seq<char> {
    if typical - elapsed >= 5 {
        "~"@ + elapsed_text(typical - elapsed) + " left"@
    } else {
        "running long"@
    }
}

/// What to say about a running run's remaining time. Honest about being a
/// guess: past the typical it says so rather than counting negative time.
pub fn eta_text(typical: i64, elapsed: i64) -> (s: String)
    requires
        i64::MIN <= typical - elapsed <= i64::MAX,
    ensures
        s@ == eta(typical as int, elapsed as int),
{
    let left: i64 = typical - elapsed;
    if left >= 5 {
        let t = format_elapsed(left);
        cat3("~", &t, " left")
    } else {
        "running long".to_string()
    }
}

} // verus!
