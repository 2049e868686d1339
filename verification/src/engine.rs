//! The polling engine's per-cycle decisions: decode the cycle's gathered
//! payloads into a sample, detect end of workout, and record the sample.
//! The caller owns the wall clock: it sends the catalog's queries, feeds
//! received chunks into the classifier for the cycle's time budget, and
//! then hands the gathered payload map here.

use vstd::prelude::*;

use crate::frames::RawValueMap;
use crate::sample::{
    spec_decode_sample, instant_workout_values_update, instant_workout_values_init, DecodeError,
    InstantWorkoutValues,
};
use crate::session::{WorkoutContext, WorkoutState};
use crate::summary::{global_workout_values_update, GlobalWorkoutValues};

verus! {

/// Whether a decoded sample ends the workout: its elapsed time is
/// nonzero and exactly equals the previous cycle's total, meaning the
/// device itself stopped advancing its clock.
pub open spec fn spec_workout_complete(s: InstantWorkoutValues, g: GlobalWorkoutValues) -> bool {
    s.time_in_seconds > 0 && s.time_in_seconds == g.total_time_in_seconds
}

/// Decode one cycle's payload map and apply the completion rule.
///
/// On a decode failure nothing changes and the error is returned. On
/// success the sample is written to `iwv`; if it shows the workout
/// complete, the state moves to Finished and the totals are left alone
/// (the sample is not to be recorded), otherwise the totals are updated
/// from it and the state is untouched.
pub fn workout_values_update(
    ctx: &mut WorkoutContext,
    raw: &RawValueMap,
    iwv: &mut InstantWorkoutValues,
    gwv: &mut GlobalWorkoutValues,
) -> (res: Result<(), DecodeError>)
    requires
        old(gwv).datapoints < u32::MAX,
    ensures
        final(ctx).debug == old(ctx).debug,
        spec_decode_sample(raw@) is Err ==> {
            &&& res == Result::<(), DecodeError>::Err(spec_decode_sample(raw@)->Err_0)
            &&& *final(ctx) == *old(ctx)
            &&& *final(iwv) == *old(iwv)
            &&& *final(gwv) == *old(gwv)
        },
        spec_decode_sample(raw@) is Ok ==> {
            let s = spec_decode_sample(raw@)->Ok_0;
            &&& res is Ok
            &&& *final(iwv) == s
            &&& if spec_workout_complete(s, *old(gwv)) {
                final(ctx).state == WorkoutState::Finished && *final(gwv) == *old(gwv)
            } else {
                final(ctx).state == old(ctx).state && *final(gwv) == (GlobalWorkoutValues {
                    datapoints: (old(gwv).datapoints + 1) as u32,
                    total_time_in_seconds: s.time_in_seconds,
                    total_distance_in_meters: s.distance_in_meters,
                    total_stroke_count: s.stroke_count,
                    ..*old(gwv)
                })
            }
        },
{
    match instant_workout_values_update(raw, iwv) {
        Ok(()) => {},
        Err(e) => {
            return Err(e);
        },
    }
    if iwv.time_in_seconds > 0 && iwv.time_in_seconds == gwv.total_time_in_seconds {
        ctx.state = WorkoutState::Finished;
        return Ok(());
    }
    global_workout_values_update(iwv, gwv);
    Ok(())
}

/// Run one recording step on the sample sequence: decode the cycle,
/// and either record the sample or finish the workout.
///
/// A sample that triggers the completion rule is discarded: the state
/// moves to Finished and the sequence and totals stay as they were.
/// Any other sample is appended to the sequence — never reordered,
/// never deduplicated — and the running totals follow it. On a decode
/// failure nothing changes and the error is returned.
pub fn record_cycle(
    ctx: &mut WorkoutContext,
    raw: &RawValueMap,
    gwv: &mut GlobalWorkoutValues,
    datapoints: &mut Vec<InstantWorkoutValues>,
) -> (res: Result<(), DecodeError>)
    requires
        old(gwv).datapoints < u32::MAX,
    ensures
        final(ctx).debug == old(ctx).debug,
        spec_decode_sample(raw@) is Err ==> {
            &&& res == Result::<(), DecodeError>::Err(spec_decode_sample(raw@)->Err_0)
            &&& *final(ctx) == *old(ctx)
            &&& *final(gwv) == *old(gwv)
            &&& final(datapoints)@ == old(datapoints)@
        },
        spec_decode_sample(raw@) is Ok ==> {
            let s = spec_decode_sample(raw@)->Ok_0;
            &&& res is Ok
            &&& if spec_workout_complete(s, *old(gwv)) {
                &&& final(ctx).state == WorkoutState::Finished
                &&& *final(gwv) == *old(gwv)
                &&& final(datapoints)@ == old(datapoints)@
            } else {
                &&& final(ctx).state == old(ctx).state
                &&& final(datapoints)@ == old(datapoints)@.push(s)
                &&& *final(gwv) == (GlobalWorkoutValues {
                    datapoints: (old(gwv).datapoints + 1) as u32,
                    total_time_in_seconds: s.time_in_seconds,
                    total_distance_in_meters: s.distance_in_meters,
                    total_stroke_count: s.stroke_count,
                    ..*old(gwv)
                })
            }
        },
{
    let mut iwv = instant_workout_values_init();
    let prev_total_time = gwv.total_time_in_seconds;
    match workout_values_update(ctx, raw, &mut iwv, gwv) {
        Ok(()) => {},
        Err(e) => {
            return Err(e);
        },
    }
    if iwv.time_in_seconds > 0 && iwv.time_in_seconds == prev_total_time {
        return Ok(());
    }
    datapoints.push(iwv);
    Ok(())
}

} // verus!
