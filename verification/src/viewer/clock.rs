//! The clock of the stage.
//!
//! Adding times is left to the caller, who hands in both the time before the
//! frame and the time after it; the clock chooses.

use crate::ieee::{Double, DOUBLE_ONE};
use vstd::prelude::*;

verus! {

/// The clock of the stage.
#[derive(Debug, Clone, Copy, PartialEq, Eq, Structural)]
pub struct StageClock {
    pub start_time_code: Double,
    pub end_time_code: Double,
    pub time_codes_per_second: Double,
    pub seconds: Double,
    pub playing: bool,
    /// Whether the clock has been set for the loaded stage.
    pub initialized: bool,
}

/// What a stage says of its time.
#[derive(Debug, Clone, Copy)]
pub struct Timeline {
    pub start_time_code: Double,
    pub end_time_code: Double,
    pub time_codes_per_second: Double,
    pub animated_prims: usize,
    pub skel_animations: usize,
}

/// Whether anything on a stage moves with time.
pub open spec fn is_animated(t: Timeline) -> bool {
    t.animated_prims > 0 || t.skel_animations > 0 || t.start_time_code.below(t.end_time_code)
}

/// The clock set for a stage: at its start, and running if anything moves.
pub open spec fn clock_for(t: Timeline) -> StageClock {
    StageClock {
        start_time_code: t.start_time_code,
        end_time_code: t.end_time_code,
        time_codes_per_second: t.time_codes_per_second,
        seconds: Double { bits: 0 },
        playing: is_animated(t),
        initialized: true,
    }
}

/// Sets the clock when a stage has been loaded and it has not been set before.
pub fn sync_clock(clock: &mut StageClock, timeline: &Option<Timeline>) -> (synced: bool)
    ensures
        synced == (!old(clock).initialized && *timeline is Some),
        *final(clock) == if synced {
            clock_for((*timeline)->0)
        } else {
            *old(clock)
        },
{
    if clock.initialized {
        return false;
    }
    match timeline {
        None => false,
        Some(t) => {
            *clock = StageClock {
                start_time_code: t.start_time_code,
                end_time_code: t.end_time_code,
                time_codes_per_second: t.time_codes_per_second,
                seconds: Double { bits: 0 },
                playing: t.animated_prims > 0 || t.skel_animations > 0 || t.start_time_code.less(
                    t.end_time_code,
                ),
                initialized: true,
            };
            true
        },
    }
}

/// One frame of a running clock.
#[derive(Debug, Clone, Copy)]
pub struct Tick {
    /// The time after the frame.
    pub advanced: Double,
    /// How long the end has been held, before the frame and after it.
    pub hold: Double,
    pub hold_advanced: Double,
    /// The length of the stage in seconds.
    pub duration: Double,
}

/// Whether a time has reached another.
pub open spec fn reached(t: Double, end: Double) -> bool {
    !t.nan() && !end.nan() && t.place() >= end.place()
}

fn has_reached(t: Double, end: Double) -> (r: bool)
    ensures
        r == reached(t, end),
{
    end.less(t) || t.equals(end)
}

/// The time and the time held at the end, after a frame: at the end of a stage
/// the clock stands for a second, so that what is keyed there is seen, and then
/// starts over. A stage without a length just goes on.
pub open spec fn next_time(tick: Tick) -> (Double, Double) {
    let zero = Double { bits: 0 };
    if !zero.below(tick.duration) {
        (tick.advanced, tick.hold)
    } else if !reached(tick.advanced, tick.duration) {
        (tick.advanced, zero)
    } else if reached(tick.hold_advanced, Double { bits: DOUBLE_ONE }) {
        (zero, zero)
    } else {
        (tick.duration, tick.hold_advanced)
    }
}

/// Moves the clock on by one frame, and returns how long the end has been held.
/// A clock that does not run stays.
pub fn tick_stage_time(clock: &mut StageClock, tick: &Tick) -> (hold: Double)
    ensures
        *final(clock) == (StageClock { seconds: final(clock).seconds, ..*old(clock) }),
        (final(clock).seconds, hold) == if old(clock).playing {
            next_time(*tick)
        } else {
            (old(clock).seconds, tick.hold)
        },
{
    if !clock.playing {
        return tick.hold;
    }
    let zero: Double = Double { bits: 0 };
    if !zero.less(tick.duration) {
        clock.seconds = tick.advanced;
        return tick.hold;
    }
    if !has_reached(tick.advanced, tick.duration) {
        clock.seconds = tick.advanced;
        return zero;
    }
    if has_reached(tick.hold_advanced, Double { bits: DOUBLE_ONE }) {
        clock.seconds = zero;
        return zero;
    }
    clock.seconds = tick.duration;
    tick.hold_advanced
}

/// The clock of a stage that has a length never goes past its end, as long as
/// time is a number.
pub proof fn clock_stays_on_the_stage(tick: Tick)
    requires
        (Double { bits: 0 }).below(tick.duration),
        !tick.advanced.nan(),
    ensures
        next_time(tick).0.place() <= tick.duration.place(),
{
}

} // verus!
