//! A whole scripted session fed from canned device responses: connect,
//! identify, wait for the first stroke, record three polling cycles,
//! detect the repeated clock reading, and summarize.

use waterrower::engine::record_cycle;
use waterrower::frames::{ingest_response, RawValueMap};
use waterrower::session::{
    start_process_response, stroke_wait_process_response, workout_context_init, WorkoutState,
};
use waterrower::summary::{global_workout_values_finalize, global_workout_values_init};
use waterrower::InstantWorkoutValues;

fn cycle_response(
    secs: &str,
    dist: &str,
    strokes: &str,
    st: &str,
    pt: &str,
    hr: &str,
    pace: &str,
    rate: &str,
) -> Vec<u8> {
    format!(
        "IDS1E1{}\nIDS1E200\nIDS1E300\nIDD055{}\nIDD140{}\nIDS142{}\nIDS143{}\nIDS1A0{}\nIDD1A5{}\nIDS1A9{}\n",
        secs, dist, strokes, st, pt, hr, pace, rate
    )
    .into_bytes()
}

#[test]
fn scripted_workout_session() {
    // connect: the hardware sentinel arrives after the start command
    let mut ctx = workout_context_init(false);
    start_process_response(&mut ctx, &b"_WR_\n".to_vec());
    assert_eq!(ctx.state, WorkoutState::Connected);

    // identify: model 4, firmware 12.13
    let mut gwv = global_workout_values_init(&b"IV41213\n".to_vec());
    assert_eq!(gwv.model, b"4".to_vec());
    assert_eq!(gwv.fw_version, b"12.13".to_vec());

    // first stroke
    let running = stroke_wait_process_response(&mut ctx, &b"SS\n".to_vec());
    assert!(running);
    assert_eq!(ctx.state, WorkoutState::Running);

    // three cycles with monotonically increasing time, then the device
    // clock repeats its last reading
    let cycles = [
        cycle_response("05", "0A", "05", "40", "20", "78", "9600", "14"),
        cycle_response("10", "14", "0A", "40", "00", "82", "9B00", "15"),
        cycle_response("15", "1E", "0F", "50", "28", "8C", "A000", "16"),
        cycle_response("15", "1E", "0F", "50", "28", "8C", "A000", "16"),
    ];
    let mut datapoints: Vec<InstantWorkoutValues> = Vec::new();
    for response in &cycles {
        assert_eq!(ctx.state, WorkoutState::Running);
        let mut raw = RawValueMap::new();
        let errors = ingest_response(&mut raw, response);
        assert_eq!(errors, 0);
        let res = record_cycle(&mut ctx, &raw, &mut gwv, &mut datapoints);
        assert!(res.is_ok());
        if ctx.state == WorkoutState::Finished {
            break;
        }
    }
    assert_eq!(ctx.state, WorkoutState::Finished);

    // the repeated reading is excluded from the sequence
    assert_eq!(datapoints.len(), 3);
    assert_eq!(gwv.datapoints, 3);
    assert_eq!(gwv.total_time_in_seconds, 15);
    assert_eq!(gwv.total_distance_in_meters, 30);
    assert_eq!(gwv.total_stroke_count, 15);
    assert_eq!(
        datapoints.iter().map(|s| s.time_in_seconds).collect::<Vec<u32>>(),
        vec![5, 10, 15]
    );
    assert_eq!(
        datapoints.iter().map(|s| s.seconds_per_500m).collect::<Vec<u32>>(),
        vec![150, 155, 160]
    );
    assert_eq!(
        datapoints.iter().map(|s| s.stroke_ratio_centi).collect::<Vec<u64>>(),
        vec![80, 0, 80]
    );

    global_workout_values_finalize(&datapoints, &mut gwv);
    assert_eq!(gwv.seconds_per_500m_min, 150);
    assert_eq!(gwv.seconds_per_500m_avg_centi, 15500);
    assert_eq!(gwv.seconds_per_500m_max, 160);
    assert_eq!(gwv.strokes_per_minute_min, 20);
    assert_eq!(gwv.strokes_per_minute_avg_centi, 2100);
    assert_eq!(gwv.strokes_per_minute_max, 22);
    // the cycle with a zero ratio is excluded from the ratio statistics
    assert_eq!(gwv.stroke_ratio_min_centi, 80);
    assert_eq!(gwv.stroke_ratio_avg_centi, 80);
    assert_eq!(gwv.stroke_ratio_max_centi, 80);
    assert_eq!(gwv.heart_rate_min, 120);
    assert_eq!(gwv.heart_rate_avg_centi, 13000);
    assert_eq!(gwv.heart_rate_max, 140);
}
