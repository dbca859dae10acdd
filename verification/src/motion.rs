//! Entrances: cards and tables that arrive row by row.
//!
//! A card that arrives complete asks to be read all at once; one whose rows
//! land in sequence hands the eye an order to read them in. Progress through an
//! entrance is counted in sixtieths, from nothing to `WHOLE`.

use vstd::prelude::*;

use crate::state::{App, GitDiffView, Screen};

verus! {

/// An entrance that is over.
pub const WHOLE: u64 = 60;

/// How much longer each row waits than the one above it, in twentieths of a
/// tick. The steps are fractional on purpose: a stagger has to be shorter than
/// a tick to keep a quick sweep from collapsing into every row landing at once.
pub const SERVICES_STEP: u64 = 12;

/// A reference has several dozen rows where the services card has eight.
pub const HELP_STEP: u64 = 5;

/// A dashboard is a handful of rows on most screens, and forty on a wall.
pub const DASH_STEP: u64 = 7;

/// A generous ceiling on how long the help card's entrance can run, in ticks.
pub const HELP_REVEAL_HORIZON: u64 = 25;

/// How long the footer's help hint breathes after startup, in ticks.
pub const HELP_BEACON_TICKS: u64 = 100;

/// How long a file band's entrance runs, in ticks.
pub const BAND_WIPE_TICKS: u64 = 12;

/// How long a row stays lit after its CI moves, in ticks.
pub const FLASH_TICKS: u64 = 10;

/// How long a row breathes in its verdict's colour after a run lands, in ticks.
pub const SETTLE_TICKS: u64 = 24;

/// How long the all-green sweep takes to cross the header and fade, in ticks.
pub const CELEBRATE_TICKS: u64 = 20;

/// Ticks since `then`, none when it has not come yet.
pub open spec fn ticks_since(then: u64, tick: u64) -> int {
    if tick >= then {
        tick - then
    } else {
        0
    }
}

/// Whether something that started at `then` and runs for `ticks` is still going.
#[verifier::allow_in_spec]
pub fn still_going(then: u64, tick: u64, ticks: u64) -> bool
    returns
        ticks_since(then, tick) < ticks,
{
    tick.saturating_sub(then) < ticks
}

/// How far row `i` of a card opened at `opened` is into its entrance, from
/// nothing to `rise`: it rises for that many twentieths of a tick, after waiting
/// `step` of them for each row above it. A card nobody started the clock of is
/// simply there.
pub open spec fn risen(opened: Option<u64>, tick: u64, i: int, step: int, rise: int) -> int {
    match opened {
        None => rise,
        Some(o) => {
            let n = 20 * ticks_since(o, tick) - step * i;
            if n <= 0 {
                0
            } else if n >= rise {
                rise
            } else {
                n
            }
        },
    }
}

/// How far row `i` of a card opened at `opened` is into an entrance of three
/// ticks a row.
pub open spec fn progress(opened: Option<u64>, tick: u64, i: int, step: int) -> int {
    risen(opened, tick, i, step, WHOLE as int)
}

/// How far row `i` of a card opened at `opened` is into its entrance: the one
/// clock behind every card that arrives row by row.
pub fn staggered_reveal(opened: Option<u64>, tick: u64, i: usize, step: u64, rise: u64) -> (n: u64)
    ensures
        n == risen(opened, tick, i as int, step as int, rise as int),
        n <= rise,
{
    match opened {
        None => rise,
        Some(o) => {
            let since: u64 = tick.saturating_sub(o);
            let gone: u128 = 20 * since as u128;
            assert(0 <= step * i <= 0xffff_ffff_ffff_ffff * 0xffff_ffff_ffff_ffff)
                by (nonlinear_arith)
                requires
                    0 <= step <= 0xffff_ffff_ffff_ffff,
                    0 <= i <= 0xffff_ffff_ffff_ffff,
            ;
            let wait: u128 = step as u128 * i as u128;
            if gone <= wait {
                0
            } else if gone - wait >= rise as u128 {
                rise
            } else {
                (gone - wait) as u64
            }
        },
    }
}

/// An entrance only goes forward, within its bounds, and once over it stays
/// over. It has not begun before its card is opened, and a card nobody started
/// the clock of has none left.
pub proof fn law_entrances_go_forward(
    opened: Option<u64>,
    tick: u64,
    later: u64,
    i: int,
    step: int,
    rise: int,
)
    requires
        tick <= later,
        rise >= 0,
    ensures
        0 <= risen(opened, tick, i, step, rise) <= risen(opened, later, i, step, rise) <= rise,
        opened is None ==> risen(opened, tick, i, step, rise) == rise,
        opened matches Some(o) ==> (tick <= o ==> risen(opened, tick, i, step, rise) == risen(
            opened,
            o,
            i,
            step,
            rise,
        )),
{
}

/// The sweep runs down the card: no row is ahead of the one above it.
pub proof fn law_sweep_runs_down(
    opened: Option<u64>,
    tick: u64,
    i: int,
    j: int,
    step: int,
    rise: int,
)
    requires
        i <= j,
        step >= 0,
        rise >= 0,
    ensures
        risen(opened, tick, j, step, rise) <= risen(opened, tick, i, step, rise),
{
    assert(step * i <= step * j) by (nonlinear_arith)
        requires
            i <= j,
            step >= 0,
    ;
}

/// Once the row below the last has arrived, every row has: the redraw loop
/// never stops on a card that is still coming in.
pub proof fn law_settled_cards_are_whole(opened: Option<u64>, tick: u64, rows: int, i: int, step: int)
    requires
        0 <= i <= rows,
        step >= 0,
        progress(opened, tick, rows, step) == WHOLE,
    ensures
        progress(opened, tick, i, step) == WHOLE,
{
    law_sweep_runs_down(opened, tick, i, rows, step, WHOLE as int);
}

/// How far row `i` of the services card is into its entrance.
pub fn reveal_at(state: &App, i: usize) -> (n: u64)
    ensures
        n == progress(state.services_opened_tick, state.tick_count, i as int, SERVICES_STEP as int),
        n <= WHOLE,
{
    staggered_reveal(state.services_opened_tick, state.tick_count, i, SERVICES_STEP, WHOLE)
}

/// How far row `i` of the help card is into its entrance.
pub fn help_reveal_at(state: &App, i: usize) -> (n: u64)
    ensures
        n == progress(state.help_opened_tick, state.tick_count, i as int, HELP_STEP as int),
        n <= WHOLE,
{
    staggered_reveal(state.help_opened_tick, state.tick_count, i, HELP_STEP, WHOLE)
}

/// How far line `i` of the dashboard is into its entrance. Lines on screen, not
/// repos: a scrolled list still fills from its first visible row.
pub fn dash_reveal_at(state: &App, i: usize) -> (n: u64)
    ensures
        n == progress(state.dash_opened_tick, state.tick_count, i as int, DASH_STEP as int),
        n <= WHOLE,
{
    staggered_reveal(state.dash_opened_tick, state.tick_count, i, DASH_STEP, WHOLE)
}

/// Whether the services card still has rows arriving: the redraw loop's
/// question.
pub fn services_revealing(state: &App) -> (r: bool)
    ensures
        r <==> state.show_services && progress(
            state.services_opened_tick,
            state.tick_count,
            state.services@.len() as int,
            SERVICES_STEP as int,
        ) < WHOLE,
{
    state.show_services && reveal_at(state, state.services.len()) < WHOLE
}

/// Whether the help card is still mid-entrance.
pub fn help_revealing(state: &App) -> (r: bool)
    ensures
        r <==> state.show_help && state.help_opened_tick is Some && ticks_since(
            state.help_opened_tick->0,
            state.tick_count,
        ) < HELP_REVEAL_HORIZON,
{
    match state.help_opened_tick {
        Some(o) => state.show_help && state.tick_count.saturating_sub(o) < HELP_REVEAL_HORIZON,
        None => false,
    }
}

/// Whether the dashboard still has rows arriving: the redraw loop's question.
/// Bounded by the repo count plus the header and a few owner headings.
pub fn dash_revealing(state: &App) -> (r: bool)
    requires
        state.repos@.len() + 4 <= usize::MAX,
    ensures
        r <==> state.view == Screen::Repos && progress(
            state.dash_opened_tick,
            state.tick_count,
            state.repos@.len() as int + 4,
            DASH_STEP as int,
        ) < WHOLE,
{
    state.view == Screen::Repos && dash_reveal_at(state, state.repos.len() + 4) < WHOLE
}

/// How much of file `fi`'s band has been painted, in twelfths: all of it when
/// the view has no opening tick or there is no such band, otherwise one twelfth
/// for the frame it is first drawn on and one more each tick after.
pub open spec fn band_wipe(dv: GitDiffView, fi: int, tick: u64) -> int {
    if dv.opened_tick is None || !(0 <= fi < dv.band_seen@.len()) {
        BAND_WIPE_TICKS as int
    } else {
        let n = 1 + match dv.band_seen@[fi] {
            Some(t) => ticks_since(t, tick),
            None => 0,
        };
        if n < BAND_WIPE_TICKS {
            n
        } else {
            BAND_WIPE_TICKS as int
        }
    }
}

/// How much of file `fi`'s band has been painted, in twelfths.
///
/// Per band, not per view: a band plays its sweep when it first scrolls onto
/// the screen, so the tenth file's divider arrives when the reader does.
pub fn band_wipe_at(dv: &GitDiffView, fi: usize, tick: u64) -> (n: u64)
    ensures
        n == band_wipe(*dv, fi as int, tick),
        1 <= n <= BAND_WIPE_TICKS,
{
    if dv.opened_tick.is_none() || fi >= dv.band_seen.len() {
        return BAND_WIPE_TICKS;
    }
    let since: u64 = match dv.band_seen[fi] {
        Some(t) => tick.saturating_sub(t),
        None => 0,
    };
    if since < BAND_WIPE_TICKS - 1 {
        since + 1
    } else {
        BAND_WIPE_TICKS
    }
}

/// Whether a band seen at `seen` is still sweeping.
pub open spec fn sweeping(seen: Option<u64>, tick: u64) -> bool {
    seen is Some && ticks_since(seen->0, tick) < BAND_WIPE_TICKS
}

/// Whether any band of an open diff is still sweeping.
pub open spec fn bands_sweeping(dv: GitDiffView, tick: u64) -> bool {
    dv.opened_tick is Some && exists|i: int|
        0 <= i < dv.band_seen@.len() && sweeping(#[trigger] dv.band_seen@[i], tick)
}

/// Whether any band on the open diff is still mid-sweep: the redraw loop's
/// question. Bands not yet seen do not count: they cost nothing until the
/// scroll that reveals them, and that keypress redraws on its own.
pub fn diff_bands_revealing(state: &App) -> (r: bool)
    ensures
        r <==> state.view == Screen::GitDiff && state.git_diff is Some && bands_sweeping(
            state.git_diff->0,
            state.tick_count,
        ),
{
    if state.view != Screen::GitDiff {
        return false;
    }
    match &state.git_diff {
        None => false,
        Some(dv) => {
            if dv.opened_tick.is_none() {
                return false;
            }
            for i in 0..dv.band_seen.len()
                invariant
                    state.view == Screen::GitDiff,
                    state.git_diff == Some(*dv),
                    dv.opened_tick is Some,
                    forall|j: int|
                        0 <= j < i ==> !sweeping(#[trigger] dv.band_seen@[j], state.tick_count),
            {
                if let Some(t) = dv.band_seen[i] {
                    if state.tick_count.saturating_sub(t) < BAND_WIPE_TICKS {
                        assert(sweeping(dv.band_seen@[i as int], state.tick_count));
                        return true;
                    }
                }
            }
            false
        },
    }
}

/// While a band shows less than the whole of itself, the redraw loop is told
/// there is something left to draw.
pub proof fn law_unfinished_bands_keep_drawing(dv: GitDiffView, fi: int, tick: u64)
    requires
        0 <= fi < dv.band_seen@.len(),
        dv.band_seen@[fi] is Some,
        band_wipe(dv, fi, tick) < BAND_WIPE_TICKS,
    ensures
        bands_sweeping(dv, tick),
{
    assert(sweeping(dv.band_seen@[fi], tick));
}

} // verus!
