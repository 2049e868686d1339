//! The session-wide workout summary: device identity, running totals
//! kept during polling, and the min/avg/max statistics computed over the
//! full sample sequence at session end.

use vstd::prelude::*;

use crate::clock::now_local_formatted;
use crate::frames::{spec_lines, split_lines};
use crate::sample::InstantWorkoutValues;
use crate::stats::{
    stat_min, stat_max, stat_avg_centi, stat_avg_centi_of_centi, collect_stats,
    lemma_stat_bounds, STAT_VALUE_MAX,
};

verus! {

/// Aggregate record of one workout. Averages and the stroke-ratio
/// statistics are fixed-point values in hundredths; the timestamps are
/// display text taken from the local clock; model and firmware version
/// are ASCII text taken from the device's identification response.
pub struct GlobalWorkoutValues {
    pub date_time_start: String,
    pub date_time_end: String,
    pub model: Vec<u8>,
    pub fw_version: Vec<u8>,
    pub datapoints: u32,
    pub total_time_in_seconds: u32,
    pub total_distance_in_meters: u32,
    pub total_stroke_count: u32,
    pub seconds_per_500m_min: u32,
    pub seconds_per_500m_avg_centi: u64,
    pub seconds_per_500m_max: u32,
    pub strokes_per_minute_min: u32,
    pub strokes_per_minute_avg_centi: u64,
    pub strokes_per_minute_max: u32,
    pub stroke_ratio_min_centi: u64,
    pub stroke_ratio_avg_centi: u64,
    pub stroke_ratio_max_centi: u64,
    pub heart_rate_min: u32,
    pub heart_rate_avg_centi: u64,
    pub heart_rate_max: u32,
}

/// Whether a line is a model-information response: the `IV` prefix
/// followed by at least the one model character and four version
/// characters the format promises.
pub open spec fn is_model_line(l: Seq<u8>) -> bool {
    l.len() >= 7 && l[0] == 73 && l[1] == 86
}

/// The last model-information line of a chunk, if any; a later line
/// overwrites an earlier one.
pub open spec fn spec_model_line(ls: Seq<Seq<u8>>) -> Option<Seq<u8>>
    decreases ls.len(),
{
    if ls.len() == 0 {
        None
    } else if is_model_line(ls.last()) {
        Some(ls.last())
    } else {
        spec_model_line(ls.drop_last())
    }
}

/// The model character of a model-information line.
pub open spec fn spec_model_of(l: Seq<u8>) -> Seq<u8> {
    l.subrange(2, 3)
}

/// The firmware version of a model-information line: the high and low
/// two-character parts joined by a dot.
pub open spec fn spec_fw_of(l: Seq<u8>) -> Seq<u8> {
    l.subrange(3, 5) + seq![46u8] + l.subrange(5, 7)
}

/// The per-field series a summary's statistics are computed over.
pub open spec fn pace_seq(s: Seq<InstantWorkoutValues>) -> Seq<u64> {
    s.map_values(|v: InstantWorkoutValues| v.seconds_per_500m as u64)
}

/// Stroke-rate series of a sample sequence.
pub open spec fn spm_seq(s: Seq<InstantWorkoutValues>) -> Seq<u64> {
    s.map_values(|v: InstantWorkoutValues| v.strokes_per_minute as u64)
}

/// Stroke-ratio series of a sample sequence, in hundredths.
pub open spec fn ratio_seq(s: Seq<InstantWorkoutValues>) -> Seq<u64> {
    s.map_values(|v: InstantWorkoutValues| v.stroke_ratio_centi)
}

/// Heart-rate series of a sample sequence.
pub open spec fn hr_seq(s: Seq<InstantWorkoutValues>) -> Seq<u64> {
    s.map_values(|v: InstantWorkoutValues| v.heart_rate as u64)
}

/// Whether a summary's twelve statistics fields hold exactly the
/// statistics of a sample sequence: for each of pace, stroke rate,
/// stroke ratio and heart rate, the min, average and max over the
/// samples where that field is strictly positive.
pub open spec fn summary_stats_of(g: GlobalWorkoutValues, s: Seq<InstantWorkoutValues>) -> bool {
    &&& g.seconds_per_500m_min == stat_min(pace_seq(s))
    &&& g.seconds_per_500m_avg_centi == stat_avg_centi(pace_seq(s))
    &&& g.seconds_per_500m_max == stat_max(pace_seq(s))
    &&& g.strokes_per_minute_min == stat_min(spm_seq(s))
    &&& g.strokes_per_minute_avg_centi == stat_avg_centi(spm_seq(s))
    &&& g.strokes_per_minute_max == stat_max(spm_seq(s))
    &&& g.stroke_ratio_min_centi == stat_min(ratio_seq(s))
    &&& g.stroke_ratio_avg_centi == stat_avg_centi_of_centi(ratio_seq(s))
    &&& g.stroke_ratio_max_centi == stat_max(ratio_seq(s))
    &&& g.heart_rate_min == stat_min(hr_seq(s))
    &&& g.heart_rate_avg_centi == stat_avg_centi(hr_seq(s))
    &&& g.heart_rate_max == stat_max(hr_seq(s))
}

/// The summary statistics are a pure function of the finalized sample
/// sequence: computing them twice from the same sequence yields
/// identical results.
pub proof fn lemma_summary_stats_deterministic(
    a: GlobalWorkoutValues,
    b: GlobalWorkoutValues,
    s: Seq<InstantWorkoutValues>,
)
    requires
        summary_stats_of(a, s),
        summary_stats_of(b, s),
    ensures
        a.seconds_per_500m_min == b.seconds_per_500m_min,
        a.seconds_per_500m_avg_centi == b.seconds_per_500m_avg_centi,
        a.seconds_per_500m_max == b.seconds_per_500m_max,
        a.strokes_per_minute_min == b.strokes_per_minute_min,
        a.strokes_per_minute_avg_centi == b.strokes_per_minute_avg_centi,
        a.strokes_per_minute_max == b.strokes_per_minute_max,
        a.stroke_ratio_min_centi == b.stroke_ratio_min_centi,
        a.stroke_ratio_avg_centi == b.stroke_ratio_avg_centi,
        a.stroke_ratio_max_centi == b.stroke_ratio_max_centi,
        a.heart_rate_min == b.heart_rate_min,
        a.heart_rate_avg_centi == b.heart_rate_avg_centi,
        a.heart_rate_max == b.heart_rate_max,
{
}

fn copy_range(src: &Vec<u8>, a: usize, b: usize) -> (v: Vec<u8>)
    requires
        a <= b <= src@.len(),
    ensures
        v@ == src@.subrange(a as int, b as int),
{
    let mut v: Vec<u8> = Vec::new();
    let mut k: usize = a;
    while k < b
        invariant
            a <= k <= b <= src@.len(),
            v@ == src@.subrange(a as int, k as int),
        decreases b - k,
    {
        v.push(src[k]);
        assert(v@ =~= src@.subrange(a as int, k + 1 as int));
        k = k + 1;
    }
    v
}

/// A fresh summary: the start timestamp taken from the local clock, the
/// model and firmware version read from the identification response if
/// a model-information line is present, and every total and statistic
/// zero.
pub fn global_workout_values_init(model_response: &Vec<u8>) -> (gwv: GlobalWorkoutValues)
    ensures
        match spec_model_line(spec_lines(model_response@)) {
            Some(l) => gwv.model@ == spec_model_of(l) && gwv.fw_version@ == spec_fw_of(l),
            None => gwv.model@ == Seq::<u8>::empty() && gwv.fw_version@ == Seq::<u8>::empty(),
        },
        gwv.datapoints == 0,
        gwv.total_time_in_seconds == 0,
        gwv.total_distance_in_meters == 0,
        gwv.total_stroke_count == 0,
        gwv.seconds_per_500m_min == 0,
        gwv.seconds_per_500m_avg_centi == 0,
        gwv.seconds_per_500m_max == 0,
        gwv.strokes_per_minute_min == 0,
        gwv.strokes_per_minute_avg_centi == 0,
        gwv.strokes_per_minute_max == 0,
        gwv.stroke_ratio_min_centi == 0,
        gwv.stroke_ratio_avg_centi == 0,
        gwv.stroke_ratio_max_centi == 0,
        gwv.heart_rate_min == 0,
        gwv.heart_rate_avg_centi == 0,
        gwv.heart_rate_max == 0,
{
    let lines = split_lines(model_response);
    let ghost ls = spec_lines(model_response@);
    let mut model: Vec<u8> = Vec::new();
    let mut fw: Vec<u8> = Vec::new();
    let mut i: usize = 0;
    proof {
        assert(ls.take(0) =~= Seq::<Seq<u8>>::empty());
    }
    while i < lines.len()
        invariant
            0 <= i <= lines@.len(),
            lines@.map_values(|l: Vec<u8>| l@) == ls,
            match spec_model_line(ls.take(i as int)) {
                Some(l) => model@ == spec_model_of(l) && fw@ == spec_fw_of(l),
                None => model@ == Seq::<u8>::empty() && fw@ == Seq::<u8>::empty(),
            },
        decreases lines@.len() - i,
    {
        let line = &lines[i];
        proof {
            assert(ls.take(i + 1).drop_last() =~= ls.take(i as int));
            assert(ls.take(i + 1).last() == line@);
        }
        if line.len() >= 7 && line[0] == 73 && line[1] == 86 {
            model = copy_range(line, 2, 3);
            fw = copy_range(line, 3, 5);
            fw.push(46);
            let mut low = copy_range(line, 5, 7);
            fw.append(&mut low);
            assert(fw@ =~= spec_fw_of(line@));
        }
        i = i + 1;
    }
    assert(ls.take(lines@.len() as int) =~= ls);
    GlobalWorkoutValues {
        date_time_start: now_local_formatted(),
        date_time_end: String::new(),
        model,
        fw_version: fw,
        datapoints: 0,
        total_time_in_seconds: 0,
        total_distance_in_meters: 0,
        total_stroke_count: 0,
        seconds_per_500m_min: 0,
        seconds_per_500m_avg_centi: 0,
        seconds_per_500m_max: 0,
        strokes_per_minute_min: 0,
        strokes_per_minute_avg_centi: 0,
        strokes_per_minute_max: 0,
        stroke_ratio_min_centi: 0,
        stroke_ratio_avg_centi: 0,
        stroke_ratio_max_centi: 0,
        heart_rate_min: 0,
        heart_rate_avg_centi: 0,
        heart_rate_max: 0,
    }
}

/// Fold one recorded sample into the running totals: one more data
/// point, and the totals follow the sample's cumulative readings.
pub(crate) fn global_workout_values_update(
    iwv: &InstantWorkoutValues,
    gwv: &mut GlobalWorkoutValues,
)
    requires
        old(gwv).datapoints < u32::MAX,
    ensures
        *final(gwv) == (GlobalWorkoutValues {
            datapoints: (old(gwv).datapoints + 1) as u32,
            total_time_in_seconds: iwv.time_in_seconds,
            total_distance_in_meters: iwv.distance_in_meters,
            total_stroke_count: iwv.stroke_count,
            ..*old(gwv)
        }),
{
    gwv.datapoints = gwv.datapoints + 1;
    gwv.total_time_in_seconds = iwv.time_in_seconds;
    gwv.total_distance_in_meters = iwv.distance_in_meters;
    gwv.total_stroke_count = iwv.stroke_count;
}

/// Close the summary at session end: take the end timestamp from the
/// local clock and compute the min/avg/max statistics of each field
/// over the samples where that field is strictly positive. The totals,
/// device identity and start timestamp are left as they were.
pub fn global_workout_values_finalize(
    datapoints: &Vec<InstantWorkoutValues>,
    gwv: &mut GlobalWorkoutValues,
)
    requires
        forall|i: int|
            0 <= i < datapoints@.len() ==> #[trigger] datapoints@[i].stroke_ratio_centi
                <= STAT_VALUE_MAX,
    ensures
        summary_stats_of(*final(gwv), datapoints@),
        final(gwv).date_time_start == old(gwv).date_time_start,
        final(gwv).model == old(gwv).model,
        final(gwv).fw_version == old(gwv).fw_version,
        final(gwv).datapoints == old(gwv).datapoints,
        final(gwv).total_time_in_seconds == old(gwv).total_time_in_seconds,
        final(gwv).total_distance_in_meters == old(gwv).total_distance_in_meters,
        final(gwv).total_stroke_count == old(gwv).total_stroke_count,
{
    gwv.date_time_end = now_local_formatted();
    let ghost all = datapoints@;
    let mut pace: Vec<u64> = Vec::new();
    let mut spm: Vec<u64> = Vec::new();
    let mut ratio: Vec<u64> = Vec::new();
    let mut hr: Vec<u64> = Vec::new();
    let mut i: usize = 0;
    proof {
        assert(all.take(0) =~= Seq::<InstantWorkoutValues>::empty());
        assert(pace_seq(all.take(0)) =~= Seq::<u64>::empty());
        assert(spm_seq(all.take(0)) =~= Seq::<u64>::empty());
        assert(ratio_seq(all.take(0)) =~= Seq::<u64>::empty());
        assert(hr_seq(all.take(0)) =~= Seq::<u64>::empty());
    }
    while i < datapoints.len()
        invariant
            0 <= i <= all.len(),
            datapoints@ == all,
            forall|k: int|
                0 <= k < all.len() ==> #[trigger] all[k].stroke_ratio_centi <= STAT_VALUE_MAX,
            pace@ == pace_seq(all.take(i as int)),
            spm@ == spm_seq(all.take(i as int)),
            ratio@ == ratio_seq(all.take(i as int)),
            hr@ == hr_seq(all.take(i as int)),
        decreases all.len() - i,
    {
        let v = &datapoints[i];
        pace.push(v.seconds_per_500m as u64);
        spm.push(v.strokes_per_minute as u64);
        ratio.push(v.stroke_ratio_centi);
        hr.push(v.heart_rate as u64);
        proof {
            assert(pace@ =~= pace_seq(all.take(i + 1)));
            assert(spm@ =~= spm_seq(all.take(i + 1)));
            assert(ratio@ =~= ratio_seq(all.take(i + 1)));
            assert(hr@ =~= hr_seq(all.take(i + 1)));
        }
        i = i + 1;
    }
    proof {
        assert(all.take(all.len() as int) =~= all);
    }
    let (pace_min, pace_avg, pace_max) = collect_stats(&pace, 100);
    let (spm_min, spm_avg, spm_max) = collect_stats(&spm, 100);
    let (ratio_min, ratio_avg, ratio_max) = collect_stats(&ratio, 1);
    let (hr_min, hr_avg, hr_max) = collect_stats(&hr, 100);
    proof {
        lemma_stat_bounds(pace@, u32::MAX as u64);
        lemma_stat_bounds(spm@, u32::MAX as u64);
        lemma_stat_bounds(hr@, u32::MAX as u64);
    }
    gwv.seconds_per_500m_min = pace_min as u32;
    gwv.seconds_per_500m_avg_centi = pace_avg;
    gwv.seconds_per_500m_max = pace_max as u32;
    gwv.strokes_per_minute_min = spm_min as u32;
    gwv.strokes_per_minute_avg_centi = spm_avg;
    gwv.strokes_per_minute_max = spm_max as u32;
    gwv.stroke_ratio_min_centi = ratio_min;
    gwv.stroke_ratio_avg_centi = ratio_avg;
    gwv.stroke_ratio_max_centi = ratio_max;
    gwv.heart_rate_min = hr_min as u32;
    gwv.heart_rate_avg_centi = hr_avg;
    gwv.heart_rate_max = hr_max as u32;
}

} // verus!
