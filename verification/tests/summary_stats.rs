//! Summary aggregation, model-information parsing, and number
//! rendering.

use waterrower::render::{fmt_centi_u64, fmt_u64};
use waterrower::stats::collect_stats;
use waterrower::summary::{global_workout_values_finalize, global_workout_values_init};
use waterrower::instant_workout_values_init;
use waterrower::InstantWorkoutValues;

fn samples_with_heart_rates(rates: &[u32]) -> Vec<InstantWorkoutValues> {
    rates
        .iter()
        .map(|&hr| {
            let mut s = instant_workout_values_init();
            s.heart_rate = hr;
            s
        })
        .collect()
}

#[test]
fn model_info_is_read_from_the_identification_line() {
    let gwv = global_workout_values_init(&b"IV41213\n".to_vec());
    assert_eq!(gwv.model, b"4".to_vec());
    assert_eq!(gwv.fw_version, b"12.13".to_vec());
    assert_eq!(gwv.datapoints, 0);
    assert_eq!(gwv.total_time_in_seconds, 0);
}

#[test]
fn model_info_absent_leaves_identity_empty() {
    let gwv = global_workout_values_init(&b"_WR_\nOK\n".to_vec());
    assert_eq!(gwv.model, b"".to_vec());
    assert_eq!(gwv.fw_version, b"".to_vec());
}

#[test]
fn aggregation_excludes_non_positive_samples() {
    let datapoints = samples_with_heart_rates(&[0, 140, 0, 150]);
    let mut gwv = global_workout_values_init(&Vec::new());
    global_workout_values_finalize(&datapoints, &mut gwv);
    assert_eq!(gwv.heart_rate_min, 140);
    assert_eq!(gwv.heart_rate_avg_centi, 14500);
    assert_eq!(gwv.heart_rate_max, 150);
    // the other fields had no positive sample at all
    assert_eq!(gwv.seconds_per_500m_min, 0);
    assert_eq!(gwv.seconds_per_500m_avg_centi, 0);
    assert_eq!(gwv.seconds_per_500m_max, 0);
    assert_eq!(gwv.stroke_ratio_min_centi, 0);
    assert_eq!(gwv.stroke_ratio_avg_centi, 0);
    assert_eq!(gwv.stroke_ratio_max_centi, 0);
}

#[test]
fn finalize_is_a_pure_function_of_the_samples() {
    let datapoints = samples_with_heart_rates(&[0, 140, 95, 150]);
    let mut a = global_workout_values_init(&Vec::new());
    let mut b = global_workout_values_init(&Vec::new());
    global_workout_values_finalize(&datapoints, &mut a);
    global_workout_values_finalize(&datapoints, &mut b);
    assert_eq!(a.seconds_per_500m_min, b.seconds_per_500m_min);
    assert_eq!(a.seconds_per_500m_avg_centi, b.seconds_per_500m_avg_centi);
    assert_eq!(a.seconds_per_500m_max, b.seconds_per_500m_max);
    assert_eq!(a.strokes_per_minute_min, b.strokes_per_minute_min);
    assert_eq!(a.strokes_per_minute_avg_centi, b.strokes_per_minute_avg_centi);
    assert_eq!(a.strokes_per_minute_max, b.strokes_per_minute_max);
    assert_eq!(a.stroke_ratio_min_centi, b.stroke_ratio_min_centi);
    assert_eq!(a.stroke_ratio_avg_centi, b.stroke_ratio_avg_centi);
    assert_eq!(a.stroke_ratio_max_centi, b.stroke_ratio_max_centi);
    assert_eq!(a.heart_rate_min, b.heart_rate_min);
    assert_eq!(a.heart_rate_avg_centi, b.heart_rate_avg_centi);
    assert_eq!(a.heart_rate_max, b.heart_rate_max);
    // and finalizing the same summary again does not change the stats
    let hr = (a.heart_rate_min, a.heart_rate_avg_centi, a.heart_rate_max);
    global_workout_values_finalize(&datapoints, &mut a);
    assert_eq!((a.heart_rate_min, a.heart_rate_avg_centi, a.heart_rate_max), hr);
}

#[test]
fn finalize_keeps_totals_and_identity() {
    let datapoints = samples_with_heart_rates(&[100]);
    let mut gwv = global_workout_values_init(&b"IV41213\n".to_vec());
    gwv.datapoints = 1;
    gwv.total_time_in_seconds = 42;
    gwv.total_distance_in_meters = 7;
    gwv.total_stroke_count = 3;
    global_workout_values_finalize(&datapoints, &mut gwv);
    assert_eq!(gwv.datapoints, 1);
    assert_eq!(gwv.total_time_in_seconds, 42);
    assert_eq!(gwv.total_distance_in_meters, 7);
    assert_eq!(gwv.total_stroke_count, 3);
    assert_eq!(gwv.model, b"4".to_vec());
    assert_eq!(gwv.fw_version, b"12.13".to_vec());
}

#[test]
fn collect_stats_edges() {
    assert_eq!(collect_stats(&Vec::new(), 100), (0, 0, 0));
    assert_eq!(collect_stats(&vec![0, 0, 0], 100), (0, 0, 0));
    assert_eq!(collect_stats(&vec![5], 100), (5, 500, 5));
    // rounded to the nearest hundredth: mean of 1 and 2 is 1.50
    assert_eq!(collect_stats(&vec![1, 2], 100), (1, 150, 2));
    // a series already in hundredths is not scaled again
    assert_eq!(collect_stats(&vec![80, 81], 1), (80, 81, 81));
}

#[test]
fn numbers_render_as_decimal_text() {
    assert_eq!(fmt_u64(0), b"0".to_vec());
    assert_eq!(fmt_u64(7), b"7".to_vec());
    assert_eq!(fmt_u64(12345), b"12345".to_vec());
    assert_eq!(fmt_u64(9876543210), b"9876543210".to_vec());
}

#[test]
fn centi_values_render_with_two_decimals() {
    assert_eq!(fmt_centi_u64(0), b"0.00".to_vec());
    assert_eq!(fmt_centi_u64(5), b"0.05".to_vec());
    assert_eq!(fmt_centi_u64(80), b"0.80".to_vec());
    assert_eq!(fmt_centi_u64(14500), b"145.00".to_vec());
    assert_eq!(fmt_centi_u64(14533), b"145.33".to_vec());
}
