//! The app's clock and tabs: render ticks, the live pulse, and which board a
//! tab shows.
use vstd::prelude::*;
use crate::domain::League;

verus! {

/// Which board the body shows.
#[derive(Clone, Copy, Debug, PartialEq, Eq, Structural)]
pub enum Tab {
    Home,
    League(League),
}

/// Render ticks per second while anything is live. Every seconds→ticks
/// conversion (score flash, alert cooldown and banner, the cut) derives
/// from this one number.
pub const LIVE_TICKS_PER_SEC: u64 = 10;

/// Render ticks a score flash stays lit: ≈1s at the live cadence.
pub const FLASH_TICKS: u64 = 10;

/// How far `[`/`]` can step the viewed slate from today, in days.
pub const DATE_TRAVEL_MAX_DAYS: i8 = 7;

/// LIVE chip pulse phase, pure in the tick: ~1s bright then ~1s dim at the
/// 10 ticks/s live cadence.
pub fn live_pulse_bright(tick: u64) -> (r: bool)
    ensures
        r == ((tick / 10) % 2 == 0),
{
    (tick / 10) % 2 == 0
}

/// The pulse has a period of two seconds: it repeats every 20 ticks and is
/// bright for exactly the first half of each period.
pub proof fn lemma_pulse_period(tick: u64)
    requires
        tick + 20 <= u64::MAX,
    ensures
        ((tick / 10) % 2 == 0) == (((tick + 20) as u64 / 10) % 2 == 0),
        ((tick % 20) < 10) == ((tick / 10) % 2 == 0),
{
    let t = tick as int;
    assert((t + 20) / 10 == t / 10 + 2) by (nonlinear_arith);
    assert(((t % 20) < 10) == ((t / 10) % 2 == 0)) by (nonlinear_arith)
        requires
            t >= 0,
    ;
}

} // verus!
