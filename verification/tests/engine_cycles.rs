//! Per-cycle decoding, the completion rule, and decode failures.

use waterrower::catalog::RegisterId;
use waterrower::engine::record_cycle;
use waterrower::frames::{ingest_response, RawValueMap};
use waterrower::sample::{compute_stroke_ratio_centi, DecodeError, InstantWorkoutValues};
use waterrower::session::{workout_context_init, WorkoutState};
use waterrower::summary::global_workout_values_init;
use waterrower::instant_workout_values_init;

fn cycle_response(
    secs: &str,
    dist: &str,
    strokes: &str,
    st: &str,
    pt: &str,
    hr: &str,
    pace: &str,
    rate: &str,
) -> Vec<u8> {
    format!(
        "IDS1E1{}\nIDS1E200\nIDS1E300\nIDD055{}\nIDD140{}\nIDS142{}\nIDS143{}\nIDS1A0{}\nIDD1A5{}\nIDS1A9{}\n",
        secs, dist, strokes, st, pt, hr, pace, rate
    )
    .into_bytes()
}

fn raw_for(response: &[u8]) -> RawValueMap {
    let mut raw = RawValueMap::new();
    ingest_response(&mut raw, &response.to_vec());
    raw
}

#[test]
fn sample_init_is_all_zero() {
    let s = instant_workout_values_init();
    assert_eq!(
        s,
        InstantWorkoutValues {
            time_in_seconds: 0,
            distance_in_meters: 0,
            seconds_per_500m: 0,
            stroke_count: 0,
            strokes_per_minute: 0,
            stroke_ratio_centi: 0,
            heart_rate: 0,
        }
    );
}

#[test]
fn stroke_ratio_examples() {
    // pull time zero: the ratio is undefined and reads zero
    assert_eq!(compute_stroke_ratio_centi(100, 0), 0);
    // (100 - 50) / (50 * 1.25) = 0.8, kept in hundredths
    assert_eq!(compute_stroke_ratio_centi(100, 50), 80);
}

#[test]
fn cycle_decodes_and_updates_totals() {
    let mut ctx = workout_context_init(false);
    ctx.state = WorkoutState::Running;
    let mut gwv = global_workout_values_init(&Vec::new());
    let mut datapoints: Vec<InstantWorkoutValues> = Vec::new();
    let raw = raw_for(&cycle_response("05", "0A", "05", "40", "20", "78", "9600", "14"));
    let res = record_cycle(&mut ctx, &raw, &mut gwv, &mut datapoints);
    assert!(res.is_ok());
    assert_eq!(datapoints.len(), 1);
    let s = &datapoints[0];
    assert_eq!(s.time_in_seconds, 5);
    assert_eq!(s.distance_in_meters, 10);
    assert_eq!(s.seconds_per_500m, 150);
    assert_eq!(s.stroke_count, 5);
    assert_eq!(s.strokes_per_minute, 20);
    assert_eq!(s.stroke_ratio_centi, 80);
    assert_eq!(s.heart_rate, 120);
    assert_eq!(gwv.datapoints, 1);
    assert_eq!(gwv.total_time_in_seconds, 5);
    assert_eq!(gwv.total_distance_in_meters, 10);
    assert_eq!(gwv.total_stroke_count, 5);
    assert_eq!(ctx.state, WorkoutState::Running);
}

#[test]
fn completion_rule_discards_the_repeating_sample() {
    let mut ctx = workout_context_init(false);
    ctx.state = WorkoutState::Running;
    let mut gwv = global_workout_values_init(&Vec::new());
    let mut datapoints: Vec<InstantWorkoutValues> = Vec::new();
    for secs in ["119", "120", "120"] {
        let raw = raw_for(&cycle_response(secs, "0A", "05", "40", "20", "78", "9600", "14"));
        let res = record_cycle(&mut ctx, &raw, &mut gwv, &mut datapoints);
        assert!(res.is_ok());
    }
    // the third sample repeats the elapsed time: Finished, and the
    // sequence must exclude it
    assert_eq!(ctx.state, WorkoutState::Finished);
    assert_eq!(datapoints.len(), 2);
    assert_eq!(datapoints[0].time_in_seconds, 119);
    assert_eq!(datapoints[1].time_in_seconds, 120);
    assert_eq!(gwv.datapoints, 2);
    assert_eq!(gwv.total_time_in_seconds, 120);
}

#[test]
fn time_zero_never_triggers_completion() {
    let mut ctx = workout_context_init(false);
    ctx.state = WorkoutState::Running;
    let mut gwv = global_workout_values_init(&Vec::new());
    let mut datapoints: Vec<InstantWorkoutValues> = Vec::new();
    // two cycles with time still zero: both recorded, no completion
    for _ in 0..2 {
        let raw = raw_for(&cycle_response("00", "00", "00", "00", "00", "00", "0000", "00"));
        let res = record_cycle(&mut ctx, &raw, &mut gwv, &mut datapoints);
        assert!(res.is_ok());
    }
    assert_eq!(ctx.state, WorkoutState::Running);
    assert_eq!(datapoints.len(), 2);
}

#[test]
fn missing_register_fails_the_cycle() {
    let mut ctx = workout_context_init(false);
    let mut gwv = global_workout_values_init(&Vec::new());
    let mut datapoints: Vec<InstantWorkoutValues> = Vec::new();
    let raw = raw_for(b"IDS1E200\nIDS1E300\n");
    let res = record_cycle(&mut ctx, &raw, &mut gwv, &mut datapoints);
    assert_eq!(res, Err(DecodeError::Missing(RegisterId::DisplaySeconds)));
    assert_eq!(datapoints.len(), 0);
    assert_eq!(gwv.datapoints, 0);
}

#[test]
fn malformed_payload_fails_the_cycle() {
    let mut ctx = workout_context_init(false);
    let mut gwv = global_workout_values_init(&Vec::new());
    let mut datapoints: Vec<InstantWorkoutValues> = Vec::new();
    let raw = raw_for(&cycle_response("ZZ", "0A", "05", "40", "20", "78", "9600", "14"));
    let res = record_cycle(&mut ctx, &raw, &mut gwv, &mut datapoints);
    assert_eq!(res, Err(DecodeError::Malformed(RegisterId::DisplaySeconds)));
    assert_eq!(datapoints.len(), 0);
}

#[test]
fn composed_time_out_of_range_fails_the_cycle() {
    let mut ctx = workout_context_init(false);
    let mut gwv = global_workout_values_init(&Vec::new());
    let mut datapoints: Vec<InstantWorkoutValues> = Vec::new();
    let raw = raw_for(&cycle_response(
        "4294967295", "0A", "05", "40", "20", "78", "9600", "14",
    ));
    // u32::MAX seconds alone fits, but any minutes push it over
    let mut raw2 = raw;
    ingest_response(&mut raw2, &b"IDS1E201\n".to_vec());
    let res = record_cycle(&mut ctx, &mut raw2, &mut gwv, &mut datapoints);
    assert_eq!(res, Err(DecodeError::TimeOutOfRange));
}
