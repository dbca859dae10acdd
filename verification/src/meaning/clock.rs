//! What is said of times.

use vstd::prelude::*;
use vstd::string::*;

use crate::clock::{durations, law_typical_is_a_median, rising, secs_between, typical, ago_style, ago_text, clock_text, compact_text, countdown_text, elapsed_text, eta, is_number, law_elapsed_reads_back, millis_since, number_read, on_the_clock, reads_as, run_secs, secs_since, HourMin, Stamp};
use crate::detail::{finished_millis, longest_of, nearest_secs, step_dur, step_millis};
use crate::meaning::reading::{law_numbers_read_back, over};
use crate::paint::{Paint, Role};
use crate::state::{Run, Status, Step};
use crate::text::{dec, digit, two_digits};

verus! {

broadcast use vstd::string::group_string_axioms;

/// How many nanoseconds lie from `from` to `to`.
pub open spec fn nanos_between(from: Stamp, to: Stamp) -> int {
    (to.secs - from.secs) * 1_000_000_000 + (to.nanos - from.nanos)
}

/// Time is counted in whole units, and never backwards: the seconds, and the
/// milliseconds, since a moment are as many as have passed in full.
pub proof fn law_time_is_counted_in_full(from: Stamp, to: Stamp)
    requires
        nanos_between(from, to) < i64::MAX,
    ensures
        nanos_between(from, to) <= 0 ==> secs_since(from, to) == 0 && millis_since(from, to) == 0,
        nanos_between(from, to) > 0 ==> {
            &&& secs_since(from, to) * 1_000_000_000 <= nanos_between(from, to) < (secs_since(
                from,
                to,
            ) + 1) * 1_000_000_000
            &&& millis_since(from, to) * 1_000_000 <= nanos_between(from, to) < (millis_since(
                from,
                to,
            ) + 1) * 1_000_000
        },
{
    let n = nanos_between(from, to);
    assert(n == to.at() - from.at());
    if n > 0 {
        let s = n / 1_000_000_000;
        let m = n / 1_000_000;
    } else {
        assert((-n) / 1_000_000_000 >= 0);
        assert((-n) / 1_000_000 >= 0);
    }
}

/// A run that is over took until its last update; one that is not has taken
/// until now.
pub proof fn law_runs_are_timed_to_their_end(run: Run, now: Stamp)
    ensures
        run_secs(run, now) == secs_since(
            run.created_at,
            if over(run.status) {
                run.updated_at
            } else {
                now
            },
        ),
{
}

/// Whether `n` of a unit `size` seconds long is what `secs` comes to: as many of
/// them as have passed in full.
pub open spec fn whole_units(secs: int, size: int, n: int) -> bool {
    n * size <= secs < (n + 1) * size
}

/// How long ago something was is told in its largest whole unit: seconds up to a
/// minute, minutes up to an hour, hours up to a day, days from there on.
pub proof fn law_ages_are_told_in_their_largest_unit(secs: int) -> (n: nat)
    requires
        secs >= 0,
    ensures
        secs < 60 ==> ago_text(secs) == dec(n) + "s ago"@ && whole_units(secs, 1, n as int),
        60 <= secs < 3600 ==> ago_text(secs) == dec(n) + "m ago"@ && whole_units(
            secs,
            60,
            n as int,
        ),
        3600 <= secs < 86400 ==> ago_text(secs) == dec(n) + "h ago"@ && whole_units(
            secs,
            3600,
            n as int,
        ),
        86400 <= secs ==> ago_text(secs) == dec(n) + "d ago"@ && whole_units(secs, 86400, n as int),
{
    if secs < 60 {
        secs as nat
    } else if secs < 3600 {
        (secs / 60) as nat
    } else if secs < 86400 {
        (secs / 3600) as nat
    } else {
        (secs / 86400) as nat
    }
}

/// How long something has been going is told in its largest whole unit up to
/// hours.
pub proof fn law_short_times_are_told_in_their_largest_unit(secs: int) -> (n: nat)
    requires
        secs >= 0,
    ensures
        secs < 60 ==> compact_text(secs) == dec(n) + "s"@ && whole_units(secs, 1, n as int),
        60 <= secs < 3600 ==> compact_text(secs) == dec(n) + "m"@ && whole_units(
            secs,
            60,
            n as int,
        ),
        3600 <= secs ==> compact_text(secs) == dec(n) + "h"@ && whole_units(secs, 3600, n as int),
{
    if secs < 60 {
        secs as nat
    } else if secs < 3600 {
        (secs / 60) as nat
    } else {
        (secs / 3600) as nat
    }
}

/// A wait is told to the second: minutes, and two digits of seconds behind them,
/// from a minute on.
pub proof fn law_waits_are_told_to_the_second(secs: int) -> (m: (nat, Seq<char>))
    requires
        secs >= 0,
    ensures
        secs < 60 ==> countdown_text(secs) == dec(secs as nat) + "s"@,
        secs >= 60 ==> {
            &&& countdown_text(secs) == dec(m.0) + "m"@ + m.1 + "s"@
            &&& m.1.len() == 2 && is_number(m.1) && number_read(m.1) < 60
            &&& m.0 * 60 + number_read(m.1) == secs
        },
{
    lemma_two_digits(secs % 60);
    ((secs / 60) as nat, two_digits(secs % 60))
}

proof fn lemma_two_digits(n: int)
    requires
        0 <= n < 100,
    ensures
        two_digits(n).len() == 2,
        is_number(two_digits(n)),
        number_read(two_digits(n)) == n,
{
    law_numbers_read_back(n as nat);
    let t = two_digits(n);
    reveal_strlit("0");
    if n < 10 {
        assert(dec(n as nat) =~= seq![digit(n as nat)]);
        assert(t =~= seq!['0'].push(digit(n as nat)));
        assert(t.drop_last() =~= seq!['0']);
        assert(seq!['0'].drop_last() =~= Seq::<char>::empty());
        reveal_with_fuel(number_read, 3);
    } else {
        assert(n / 10 < 10);
        assert(dec((n / 10) as nat).len() == 1);
        assert(dec(n as nat) == dec((n as nat) / 10).push(digit(n as nat % 10)));
    }
}

/// A clock shows the hour and the minute, two digits of each.
pub proof fn law_clocks_show_hour_and_minute(t: HourMin)
    requires
        on_the_clock(t),
    ensures
        clock_text(t).len() == 5,
        clock_text(t)[2] == ':',
        number_read(clock_text(t).take(2)) == t.hour,
        number_read(clock_text(t).skip(3)) == t.minute,
{
    lemma_two_digits(t.hour as int);
    lemma_two_digits(t.minute as int);
    reveal_strlit(":");
    assert(clock_text(t).take(2) =~= two_digits(t.hour as int));
    assert(clock_text(t).skip(3) =~= two_digits(t.minute as int));
}

/// What is left of a run's usual time is told while there are five seconds of it
/// or more; after that the run is running long.
pub proof fn law_the_rest_is_told_while_it_lasts(typical: int, elapsed: int) -> (left: Seq<char>)
    ensures
        typical - elapsed >= 5 ==> eta(typical, elapsed) == "~"@ + left + " left"@ && reads_as(
            left,
            typical - elapsed,
        ),
        typical - elapsed < 5 ==> eta(typical, elapsed) == "running long"@,
{
    if typical - elapsed >= 5 {
        law_elapsed_reads_back(typical - elapsed);
    }
    elapsed_text(typical - elapsed)
}

/// What moved within the hour is bright, within the day accented, and faint after
/// that.
pub proof fn law_ages_fade(secs: int)
    ensures
        ago_style(secs).fg == Some(
            Paint::Plain(
                if secs >= 24 * 60 * 60 {
                    Role::TextFaint
                } else if secs >= 60 * 60 {
                    Role::Accent
                } else {
                    Role::TextBright
                },
            ),
        ),
{
}

/// A step under a minute long is told in seconds, to the nearest; a longer one in
/// whole minutes, and the whole seconds over them where there are any.
pub proof fn law_steps_are_timed(ms: int) -> (n: (nat, nat))
    requires
        ms >= 0,
    ensures
        ms < 60_000 ==> {
            &&& step_dur(ms) == dec(n.0) + "s"@
            &&& -500 <= n.0 * 1000 - ms <= 500
            &&& (n.0 * 1000 - ms == 500 || n.0 * 1000 - ms == -500) ==> n.0 % 2 == 0
        },
        ms >= 60_000 ==> {
            &&& step_dur(ms) == dec(n.0) + (if n.1 == 0 {
                "m"@
            } else {
                "m "@ + dec(n.1) + "s"@
            })
            &&& n.1 < 60
            &&& (n.0 * 60 + n.1) * 1000 <= ms < (n.0 * 60 + n.1 + 1) * 1000
        },
{
    let m = ms / 60000;
    let s = (ms / 1000) % 60;
    if ms < 60_000 {
        (nearest_secs(ms) as nat, 0)
    } else {
        assert(ms / 60000 == (ms / 1000) / 60);
        assert(step_dur(ms) =~= dec(m as nat) + (if s == 0 {
            "m"@
        } else {
            "m "@ + dec(s as nat) + "s"@
        }));
        (m as nat, s as nat)
    }
}

/// A step is timed to its end, or to now until it has one.
pub proof fn law_unfinished_steps_are_timed_to_now(s: Step, now: Stamp)
    requires
        s.started_at is Some,
    ensures
        s.completed_at is Some ==> step_millis(s, now) == millis_since(
            s.started_at->0,
            s.completed_at->0,
        ),
        s.completed_at is None ==> step_millis(s, now) == millis_since(s.started_at->0, now),
{
}

/// A step that has begun and ended took from the one to the other; the bars of a job
/// are measured against the longest of those, and no other step counts.
pub proof fn law_only_finished_steps_are_measured(steps: Seq<Step>, n: int, i: int)
    requires
        0 <= i < n <= steps.len(),
    ensures
        steps[i].started_at is Some && steps[i].completed_at is Some ==> finished_millis(steps[i])
            == millis_since(steps[i].started_at->0, steps[i].completed_at->0),
        steps[i].started_at is None || steps[i].completed_at is None ==> finished_millis(steps[i])
            == 0,
        finished_millis(steps[i]) <= longest_of(steps, n),
        longest_of(steps, n) > 0 ==> exists|k: int|
            0 <= k < n && finished_millis(#[trigger] steps[k]) == longest_of(steps, n),
    decreases n,
{
    if i < n - 1 {
        law_only_finished_steps_are_measured(steps, n - 1, i);
    } else if n > 1 {
        law_only_finished_steps_are_measured(steps, n - 1, 0);
    }
    if longest_of(steps, n) > 0 {
        if longest_of(steps, n) == finished_millis(steps[n - 1]) {
            assert(finished_millis(steps[n - 1]) == longest_of(steps, n));
        } else if n > 1 {
            let k = choose|k: int|
                0 <= k < n - 1 && finished_millis(#[trigger] steps[k]) == longest_of(steps, n - 1);
            assert(finished_millis(steps[k]) == longest_of(steps, n));
        }
    }
}

/// Whether a run tells how long its workflow takes: it is one of that workflow, it
/// succeeded, and it took a second or more.
pub open spec fn instructive(run: Run, title: Seq<char>) -> bool {
    &&& run.display_title@ == title
    &&& run.status == Status::Success
    &&& secs_since(run.created_at, run.updated_at) > 0
}

/// One run tells a workflow's usual time if it is instructive, and nothing otherwise;
/// and to a history, a run that is not adds nothing.
pub proof fn law_only_successes_teach(runs: Seq<Run>, run: Run, title: Seq<char>)
    ensures
        instructive(run, title) ==> typical(seq![run], title) == Some(
            secs_since(run.created_at, run.updated_at),
        ),
        !instructive(run, title) ==> typical(seq![run], title) is None && typical(
            runs.push(run),
            title,
        ) == typical(runs, title),
{
    let one = seq![run];
    assert(one.drop_last() =~= Seq::<Run>::empty());
    assert(one.last() == run);
    assert(durations(Seq::<Run>::empty(), title) =~= Seq::empty());
    assert(runs.push(run).drop_last() =~= runs);
    if instructive(run, title) {
        let d = durations(one, title);
        assert(d =~= seq![secs_between(run.created_at, run.updated_at)]) by {
            reveal_with_fuel(durations, 2);
        }
        law_typical_is_a_median(one, title);
        let leq = |a: int, b: int| a <= b;
        d.lemma_sort_by_ensures(leq);
        let up = rising(d);
        assert(up.len() == 1) by {
            broadcast use vstd::seq_lib::group_to_multiset_ensures;

            assert(up.to_multiset().len() == d.to_multiset().len());
        }
        assert(up[0] == d[0]) by {
            broadcast use vstd::seq_lib::group_to_multiset_ensures;

            assert(up.contains(up[0]));
            assert(up.to_multiset().count(up[0]) > 0);
            assert(d.contains(up[0]));
        }
    } else {
        assert(durations(one, title) =~= Seq::empty()) by {
            reveal_with_fuel(durations, 2);
        }
    }
}

} // verus!
