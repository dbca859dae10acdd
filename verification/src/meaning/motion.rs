//! How things arrive on the screen, and for how long it must be redrawn.

use vstd::prelude::*;

use crate::meaning::dashboard::passed;
use crate::motion::{dash_revealing, diff_bands_revealing, help_revealing, progress, services_revealing, sweeping};
use crate::state::App;

verus! {

/// The rows of a card rise one after another: each waits for its turn, `step`
/// twentieths of a tick behind the one above it, and takes three ticks from there. A
/// card nobody started the clock of is simply there.
pub proof fn law_rows_rise_in_turn(o: u64, tick: u64, i: int, step: int)
    requires
        i >= 0,
        step >= 0,
    ensures
        ({
            let gone = 20 * passed(o, tick);
            let p = progress(Some(o), tick, i, step);
            &&& p == 0 <==> gone <= step * i
            &&& p == 60 <==> gone >= step * i + 60
            &&& step * i <= gone <= step * i + 60 ==> p == gone - step * i
            &&& progress(None, tick, i, step) == 60
        }),
{
}

/// The screen is redrawn for the services card as long as it is up and any of its rows
/// has not arrived.
pub proof fn law_services_are_redrawn_till_they_arrive(state: App, r: bool)
    requires
        call_ensures(services_revealing, (&state,), r),
    ensures
        r <==> state.show_services && state.services_opened_tick is Some && 20 * passed(
            state.services_opened_tick->0,
            state.tick_count,
        ) < 12 * state.services@.len() + 60,
{
}

/// The screen is redrawn for the help for twenty-five ticks after it was opened, as
/// long as it is up.
pub proof fn law_help_is_redrawn_at_first(state: App, r: bool)
    requires
        call_ensures(help_revealing, (&state,), r),
    ensures
        r <==> state.show_help && state.help_opened_tick is Some && passed(
            state.help_opened_tick->0,
            state.tick_count,
        ) < 25,
{
}

/// The screen is redrawn for the dashboard as long as it is up and any of its rows, or
/// of the few above them, has not arrived.
pub proof fn law_the_dashboard_is_redrawn_till_it_arrives(state: App, r: bool)
    requires
        call_ensures(dash_revealing, (&state,), r),
    ensures
        r <==> state.view is Repos && state.dash_opened_tick is Some && 20 * passed(
            state.dash_opened_tick->0,
            state.tick_count,
        ) < 7 * (state.repos@.len() + 4) + 60,
{
}

/// The screen is redrawn for the diff as long as it is up and any band of it has been
/// on screen for fewer than twelve ticks.
pub proof fn law_the_diff_is_redrawn_while_it_sweeps(state: App, r: bool)
    requires
        call_ensures(diff_bands_revealing, (&state,), r),
    ensures
        r <==> state.view is GitDiff && state.git_diff is Some && state.git_diff->0.opened_tick is Some
            && exists|i: int|
            0 <= i < state.git_diff->0.band_seen@.len() && (
            #[trigger] state.git_diff->0.band_seen@[i]) is Some && passed(
                state.git_diff->0.band_seen@[i]->0,
                state.tick_count,
            ) < 12,
{
    if state.git_diff is Some {
        let dv = state.git_diff->0;
        if r {
            let i = choose|i: int|
                0 <= i < dv.band_seen@.len() && sweeping(
                    #[trigger] dv.band_seen@[i],
                    state.tick_count,
                );
            assert(dv.band_seen@[i] is Some);
        }
        if state.view is GitDiff && dv.opened_tick is Some && exists|i: int|
            0 <= i < dv.band_seen@.len() && (#[trigger] dv.band_seen@[i]) is Some && passed(
                dv.band_seen@[i]->0,
                state.tick_count,
            ) < 12 {
            let i = choose|i: int|
                0 <= i < dv.band_seen@.len() && (#[trigger] dv.band_seen@[i]) is Some && passed(
                    dv.band_seen@[i]->0,
                    state.tick_count,
                ) < 12;
            assert(sweeping(dv.band_seen@[i], state.tick_count));
        }
    }
}

} // verus!
