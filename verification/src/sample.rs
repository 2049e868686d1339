//! One decoded telemetry point per polling cycle, and the decoding of a
//! cycle's raw payloads into it.

use vstd::prelude::*;

use crate::catalog::RegisterId;
use crate::frames::RawValueMap;
use crate::parse::{
    all_digits, radix_value, spec_pace_value, pace_payload_ok, parse_u32_radix, parse_pace,
};

verus! {

/// One decoded telemetry point. The stroke ratio is a dimensionless
/// fixed-point value in hundredths; zero means the ratio was undefined
/// this cycle.
#[derive(PartialEq, Eq, Structural, Clone, Copy, Debug)]
pub struct InstantWorkoutValues {
    pub time_in_seconds: u32,
    pub distance_in_meters: u32,
    pub seconds_per_500m: u32,
    pub stroke_count: u32,
    pub strokes_per_minute: u32,
    pub stroke_ratio_centi: u64,
    pub heart_rate: u32,
}

/// A sample whose every field reads zero.
pub fn instant_workout_values_init() -> (iwv: InstantWorkoutValues)
    ensures
        iwv == (InstantWorkoutValues {
            time_in_seconds: 0,
            distance_in_meters: 0,
            seconds_per_500m: 0,
            stroke_count: 0,
            strokes_per_minute: 0,
            stroke_ratio_centi: 0,
            heart_rate: 0,
        }),
{
    InstantWorkoutValues {
        time_in_seconds: 0,
        distance_in_meters: 0,
        seconds_per_500m: 0,
        stroke_count: 0,
        strokes_per_minute: 0,
        stroke_ratio_centi: 0,
        heart_rate: 0,
    }
}

/// Why decoding a cycle's payloads failed: a queried register's response
/// never arrived within the cycle budget, a payload is not a number of
/// the register's radix, or the composed display time does not fit.
#[derive(PartialEq, Eq, Structural, Clone, Copy, Debug)]
pub enum DecodeError {
    Missing(RegisterId),
    Malformed(RegisterId),
    TimeOutOfRange,
}

/// Whether a register's payload arrived and is a number of the given
/// radix that fits in `u32`.
pub open spec fn reg_ok(m: Map<RegisterId, Seq<u8>>, r: RegisterId, radix: u32) -> bool {
    m.dom().contains(r) && m[r].len() > 0 && all_digits(m[r], radix) && radix_value(m[r], radix)
        <= u32::MAX
}

/// The number a register's payload denotes.
pub open spec fn reg_val(m: Map<RegisterId, Seq<u8>>, r: RegisterId, radix: u32) -> nat {
    radix_value(m[r], radix)
}

/// The decode failure for one register, if any: a missing payload is
/// reported before a malformed one.
pub open spec fn reg_err(m: Map<RegisterId, Seq<u8>>, r: RegisterId, radix: u32) -> Option<
    DecodeError,
> {
    if !m.dom().contains(r) {
        Some(DecodeError::Missing(r))
    } else if !(m[r].len() > 0 && all_digits(m[r], radix) && radix_value(m[r], radix)
        <= u32::MAX) {
        Some(DecodeError::Malformed(r))
    } else {
        None
    }
}

/// The stroke ratio in hundredths, rounded to the nearest hundredth:
/// `(stroke_time_avg - pull_time_avg) / (pull_time_avg * 1.25)`, the
/// vendor's fixed display-scaling rule. The ratio is zero when the pull
/// time is zero (undefined) and when the difference is not positive, the
/// value every consumer treats as "no data".
pub open spec fn spec_stroke_ratio_centi(st: u32, pt: u32) -> u64 {
    if pt > 0 && st > pt {
        (((st - pt) * 160 + pt) / (2 * pt)) as u64
    } else {
        0
    }
}

/// Compute the stroke ratio of one cycle, in hundredths. The result is
/// small enough for every statistics series.
pub fn compute_stroke_ratio_centi(st: u32, pt: u32) -> (r: u64)
    ensures
        r == spec_stroke_ratio_centi(st, pt),
        r <= 0x80_0000_0000,
{
    if pt > 0 && st > pt {
        let num: u64 = (st as u64 - pt as u64) * 160 + pt as u64;
        let r = num / (2 * pt as u64);
        proof {
            assert(num <= 0xFFFF_FFFFu64 * 160 + 0xFFFF_FFFFu64);
            assert(r == num as int / (2 * pt as int));
            vstd::arithmetic::div_mod::lemma_div_is_ordered(
                num as int,
                0xFFFF_FFFFu64 * 160 + 0xFFFF_FFFF,
                2 * pt as int,
            );
            vstd::arithmetic::div_mod::lemma_div_is_ordered_by_denominator(
                0xFFFF_FFFFu64 * 160 + 0xFFFF_FFFF,
                2,
                2 * pt as int,
            );
        }
        r
    } else {
        0
    }
}

/// The sample a cycle's payload map decodes to, or the first decode
/// failure in decoding order: the three display-time registers, the
/// composed time's range, then distance, pace, stroke count, stroke
/// rate, the two stroke-timing registers, and heart rate.
pub open spec fn spec_decode_sample(m: Map<RegisterId, Seq<u8>>) -> Result<
    InstantWorkoutValues,
    DecodeError,
> {
    if reg_err(m, RegisterId::DisplaySeconds, 10) is Some {
        Err(reg_err(m, RegisterId::DisplaySeconds, 10)->0)
    } else if reg_err(m, RegisterId::DisplayMinutes, 10) is Some {
        Err(reg_err(m, RegisterId::DisplayMinutes, 10)->0)
    } else if reg_err(m, RegisterId::DisplayHours, 10) is Some {
        Err(reg_err(m, RegisterId::DisplayHours, 10)->0)
    } else if reg_val(m, RegisterId::DisplaySeconds, 10) + 60 * reg_val(
        m,
        RegisterId::DisplayMinutes,
        10,
    ) + 3600 * reg_val(m, RegisterId::DisplayHours, 10) > u32::MAX {
        Err(DecodeError::TimeOutOfRange)
    } else if reg_err(m, RegisterId::Distance, 16) is Some {
        Err(reg_err(m, RegisterId::Distance, 16)->0)
    } else if !m.dom().contains(RegisterId::SecondsPer500mZone) {
        Err(DecodeError::Missing(RegisterId::SecondsPer500mZone))
    } else if !pace_payload_ok(m[RegisterId::SecondsPer500mZone]) {
        Err(DecodeError::Malformed(RegisterId::SecondsPer500mZone))
    } else if reg_err(m, RegisterId::StrokeCount, 16) is Some {
        Err(reg_err(m, RegisterId::StrokeCount, 16)->0)
    } else if reg_err(m, RegisterId::StrokeRateZone, 16) is Some {
        Err(reg_err(m, RegisterId::StrokeRateZone, 16)->0)
    } else if reg_err(m, RegisterId::StrokeTimeAvg, 16) is Some {
        Err(reg_err(m, RegisterId::StrokeTimeAvg, 16)->0)
    } else if reg_err(m, RegisterId::StrokePullTimeAvg, 16) is Some {
        Err(reg_err(m, RegisterId::StrokePullTimeAvg, 16)->0)
    } else if reg_err(m, RegisterId::HeartRateZone, 16) is Some {
        Err(reg_err(m, RegisterId::HeartRateZone, 16)->0)
    } else {
        Ok(
            InstantWorkoutValues {
                time_in_seconds: (reg_val(m, RegisterId::DisplaySeconds, 10) + 60 * reg_val(
                    m,
                    RegisterId::DisplayMinutes,
                    10,
                ) + 3600 * reg_val(m, RegisterId::DisplayHours, 10)) as u32,
                distance_in_meters: reg_val(m, RegisterId::Distance, 16) as u32,
                seconds_per_500m: spec_pace_value(m[RegisterId::SecondsPer500mZone]) as u32,
                stroke_count: reg_val(m, RegisterId::StrokeCount, 16) as u32,
                strokes_per_minute: reg_val(m, RegisterId::StrokeRateZone, 16) as u32,
                stroke_ratio_centi: spec_stroke_ratio_centi(
                    reg_val(m, RegisterId::StrokeTimeAvg, 16) as u32,
                    reg_val(m, RegisterId::StrokePullTimeAvg, 16) as u32,
                ),
                heart_rate: reg_val(m, RegisterId::HeartRateZone, 16) as u32,
            },
        )
    }
}

fn decode_reg_u32(raw: &RawValueMap, r: RegisterId, radix: u32) -> (res: Result<u32, DecodeError>)
    requires
        radix == 10 || radix == 16,
    ensures
        reg_err(raw@, r, radix) is Some ==> res == Result::<u32, DecodeError>::Err(
            reg_err(raw@, r, radix)->0,
        ),
        reg_err(raw@, r, radix) is None ==> res == Result::<u32, DecodeError>::Ok(
            reg_val(raw@, r, radix) as u32,
        ),
{
    match raw.get(r) {
        None => Err(DecodeError::Missing(r)),
        Some(payload) => match parse_u32_radix(payload, radix) {
            None => Err(DecodeError::Malformed(r)),
            Some(v) => Ok(v),
        },
    }
}

/// Decode a cycle's payload map into a sample. On failure the sample is
/// left as it was, and the error names the first register that could not
/// be decoded.
pub fn instant_workout_values_update(raw: &RawValueMap, iwv: &mut InstantWorkoutValues) -> (res:
    Result<(), DecodeError>)
    ensures
        spec_decode_sample(raw@) is Ok ==> res is Ok && *final(iwv) == spec_decode_sample(
            raw@,
        )->Ok_0,
        spec_decode_sample(raw@) is Err ==> res == Result::<(), DecodeError>::Err(
            spec_decode_sample(raw@)->Err_0,
        ) && *final(iwv) == *old(iwv),
{
    let secs = match decode_reg_u32(raw, RegisterId::DisplaySeconds, 10) {
        Ok(v) => v,
        Err(e) => return Err(e),
    };
    let mins = match decode_reg_u32(raw, RegisterId::DisplayMinutes, 10) {
        Ok(v) => v,
        Err(e) => return Err(e),
    };
    let hours = match decode_reg_u32(raw, RegisterId::DisplayHours, 10) {
        Ok(v) => v,
        Err(e) => return Err(e),
    };
    let time: u64 = secs as u64 + 60 * (mins as u64) + 3600 * (hours as u64);
    if time > u32::MAX as u64 {
        return Err(DecodeError::TimeOutOfRange);
    }
    let distance = match decode_reg_u32(raw, RegisterId::Distance, 16) {
        Ok(v) => v,
        Err(e) => return Err(e),
    };
    let pace = match raw.get(RegisterId::SecondsPer500mZone) {
        None => return Err(DecodeError::Missing(RegisterId::SecondsPer500mZone)),
        Some(payload) => match parse_pace(payload) {
            None => return Err(DecodeError::Malformed(RegisterId::SecondsPer500mZone)),
            Some(v) => v,
        },
    };
    let stroke_count = match decode_reg_u32(raw, RegisterId::StrokeCount, 16) {
        Ok(v) => v,
        Err(e) => return Err(e),
    };
    let stroke_rate = match decode_reg_u32(raw, RegisterId::StrokeRateZone, 16) {
        Ok(v) => v,
        Err(e) => return Err(e),
    };
    let stroke_time = match decode_reg_u32(raw, RegisterId::StrokeTimeAvg, 16) {
        Ok(v) => v,
        Err(e) => return Err(e),
    };
    let pull_time = match decode_reg_u32(raw, RegisterId::StrokePullTimeAvg, 16) {
        Ok(v) => v,
        Err(e) => return Err(e),
    };
    let heart_rate = match decode_reg_u32(raw, RegisterId::HeartRateZone, 16) {
        Ok(v) => v,
        Err(e) => return Err(e),
    };
    iwv.time_in_seconds = time as u32;
    iwv.distance_in_meters = distance;
    iwv.seconds_per_500m = pace;
    iwv.stroke_count = stroke_count;
    iwv.strokes_per_minute = stroke_rate;
    iwv.stroke_ratio_centi = compute_stroke_ratio_centi(stroke_time, pull_time);
    iwv.heart_rate = heart_rate;
    Ok(())
}

} // verus!
