//! Min / average / max statistics over the strictly positive values of a
//! series. A value of exactly zero means "sensor had no data this cycle"
//! and is excluded, not treated as a real zero reading. Averages are
//! reported as fixed-point hundredths.

use vstd::prelude::*;
use vstd::arithmetic::div_mod::{lemma_div_is_ordered, lemma_div_by_multiple};

verus! {

/// The largest value a statistics series may hold, so that sums and
/// fixed-point averages fit their machine words.
pub const STAT_VALUE_MAX: u64 = 0x10_0000_0000_0000;

/// The subsequence of strictly positive values, in order.
pub open spec fn pos_filter(s: Seq<u64>) -> Seq<u64>
    decreases s.len(),
{
    if s.len() == 0 {
        Seq::empty()
    } else if s.last() > 0 {
        pos_filter(s.drop_last()).push(s.last())
    } else {
        pos_filter(s.drop_last())
    }
}

/// Least element of a series; zero when it is empty.
pub open spec fn seq_min(s: Seq<u64>) -> u64
    decreases s.len(),
{
    if s.len() == 0 {
        0
    } else if s.len() == 1 {
        s.last()
    } else if s.last() < seq_min(s.drop_last()) {
        s.last()
    } else {
        seq_min(s.drop_last())
    }
}

/// Greatest element of a series; zero when it is empty.
pub open spec fn seq_max(s: Seq<u64>) -> u64
    decreases s.len(),
{
    if s.len() == 0 {
        0
    } else if s.last() > seq_max(s.drop_last()) {
        s.last()
    } else {
        seq_max(s.drop_last())
    }
}

/// Sum of a series.
pub open spec fn seq_sum(s: Seq<u64>) -> int
    decreases s.len(),
{
    if s.len() == 0 {
        0
    } else {
        seq_sum(s.drop_last()) + s.last()
    }
}

/// Minimum over the strictly positive values; zero when there are none.
pub open spec fn stat_min(vs: Seq<u64>) -> u64 {
    if pos_filter(vs).len() == 0 {
        0
    } else {
        seq_min(pos_filter(vs))
    }
}

/// Maximum over the strictly positive values; zero when there are none.
pub open spec fn stat_max(vs: Seq<u64>) -> u64 {
    if pos_filter(vs).len() == 0 {
        0
    } else {
        seq_max(pos_filter(vs))
    }
}

/// Arithmetic mean over the strictly positive values, scaled by the
/// given factor and rounded half-up to the nearest integer; zero when
/// there are none.
pub open spec fn stat_avg_scaled(vs: Seq<u64>, scale: int) -> u64 {
    let p = pos_filter(vs);
    if p.len() == 0 {
        0
    } else {
        ((2 * scale * seq_sum(p) + p.len()) / (2 * p.len() as int)) as u64
    }
}

/// Mean over the strictly positive values of a series of plain units,
/// reported in hundredths.
pub open spec fn stat_avg_centi(vs: Seq<u64>) -> u64 {
    stat_avg_scaled(vs, 100)
}

/// Mean over the strictly positive values of a series already kept in
/// hundredths, reported in hundredths.
pub open spec fn stat_avg_centi_of_centi(vs: Seq<u64>) -> u64 {
    stat_avg_scaled(vs, 1)
}

/// Every value of the positive subsequence is positive and occurs in the
/// series.
proof fn lemma_pos_filter_elems(s: Seq<u64>)
    ensures
        forall|i: int|
            0 <= i < pos_filter(s).len() ==> (#[trigger] pos_filter(s)[i] > 0 && s.contains(
                pos_filter(s)[i],
            )),
    decreases s.len(),
{
    if s.len() > 0 {
        lemma_pos_filter_elems(s.drop_last());
        assert forall|i: int| 0 <= i < pos_filter(s).len() implies (#[trigger] pos_filter(s)[i]
            > 0 && s.contains(pos_filter(s)[i])) by {
            if s.last() > 0 && i == pos_filter(s).len() - 1 {
                assert(pos_filter(s)[i] == s.last());
                assert(s[s.len() - 1] == s.last());
            } else {
                assert(pos_filter(s)[i] == pos_filter(s.drop_last())[i]);
                assert(s.drop_last().contains(pos_filter(s)[i]));
                let w = choose|w: int|
                    0 <= w < s.drop_last().len() && s.drop_last()[w] == pos_filter(s)[i];
                assert(s[w] == pos_filter(s)[i]);
            }
        }
    }
}

/// The least element of a nonempty series is one of its values, and no
/// value is smaller.
proof fn lemma_seq_min_props(s: Seq<u64>)
    requires
        s.len() > 0,
    ensures
        s.contains(seq_min(s)),
        forall|i: int| 0 <= i < s.len() ==> seq_min(s) <= #[trigger] s[i],
    decreases s.len(),
{
    if s.len() == 1 {
        assert(s[0] == s.last());
    } else {
        lemma_seq_min_props(s.drop_last());
        if !(s.last() < seq_min(s.drop_last())) {
            let w = choose|w: int|
                0 <= w < s.drop_last().len() && s.drop_last()[w] == seq_min(s.drop_last());
            assert(s[w] == seq_min(s));
        }
        assert forall|i: int| 0 <= i < s.len() implies seq_min(s) <= #[trigger] s[i] by {
            if i < s.len() - 1 {
                assert(s.drop_last()[i] == s[i]);
            }
        }
    }
}

/// The greatest element of a nonempty series is one of its values, and
/// no value is greater.
proof fn lemma_seq_max_props(s: Seq<u64>)
    requires
        s.len() > 0,
    ensures
        s.contains(seq_max(s)),
        forall|i: int| 0 <= i < s.len() ==> #[trigger] s[i] <= seq_max(s),
    decreases s.len(),
{
    if s.len() == 1 {
        assert(s[0] == s.last());
    } else {
        lemma_seq_max_props(s.drop_last());
        if !(s.last() > seq_max(s.drop_last())) {
            let w = choose|w: int|
                0 <= w < s.drop_last().len() && s.drop_last()[w] == seq_max(s.drop_last());
            assert(s[w] == seq_max(s));
        }
        assert forall|i: int| 0 <= i < s.len() implies #[trigger] s[i] <= seq_max(s) by {
            if i < s.len() - 1 {
                assert(s.drop_last()[i] == s[i]);
            }
        }
    }
}

/// A sum of values each at most `b` is at most `b` per value.
proof fn lemma_seq_sum_bounds(s: Seq<u64>, b: u64)
    requires
        forall|i: int| 0 <= i < s.len() ==> #[trigger] s[i] <= b,
    ensures
        0 <= seq_sum(s) <= s.len() * b,
    decreases s.len(),
{
    if s.len() == 0 {
    } else {
        assert forall|i: int| 0 <= i < s.drop_last().len() implies #[trigger] s.drop_last()[i]
            <= b by {
            assert(s.drop_last()[i] == s[i]);
        }
        lemma_seq_sum_bounds(s.drop_last(), b);
        assert(s.last() == s[s.len() - 1]);
        assert((s.len() - 1) * b + b == s.len() * b) by (nonlinear_arith);
    }
}

/// A bound on every value of a series bounds its positive-value minimum
/// and maximum as well.
pub proof fn lemma_stat_bounds(vs: Seq<u64>, b: u64)
    requires
        forall|i: int| 0 <= i < vs.len() ==> #[trigger] vs[i] <= b,
    ensures
        stat_min(vs) <= b,
        stat_max(vs) <= b,
{
    let p = pos_filter(vs);
    lemma_pos_filter_elems(vs);
    if p.len() > 0 {
        lemma_seq_min_props(p);
        lemma_seq_max_props(p);
        let w1 = choose|w1: int| 0 <= w1 < p.len() && p[w1] == seq_min(p);
        let u1 = choose|u1: int| 0 <= u1 < vs.len() && vs[u1] == p[w1];
        let w2 = choose|w2: int| 0 <= w2 < p.len() && p[w2] == seq_max(p);
        let u2 = choose|u2: int| 0 <= u2 < vs.len() && vs[u2] == p[w2];
    }
}

/// Min, scaled rounded average and max over the strictly positive
/// values of a series. The scale is 100 for a series of plain units
/// (the average comes out in hundredths) and 1 for a series already
/// kept in hundredths.
pub fn collect_stats(values: &Vec<u64>, scale: u64) -> (r: (u64, u64, u64))
    requires
        forall|i: int| 0 <= i < values@.len() ==> #[trigger] values@[i] <= STAT_VALUE_MAX,
        scale == 1 || scale == 100,
    ensures
        r.0 == stat_min(values@),
        r.1 == stat_avg_scaled(values@, scale as int),
        r.2 == stat_max(values@),
{
    let ghost all = values@;
    let mut valid: Vec<u64> = Vec::new();
    let mut i: usize = 0;
    proof {
        assert(all.take(0) =~= Seq::<u64>::empty());
    }
    while i < values.len()
        invariant
            0 <= i <= all.len(),
            values@ == all,
            forall|k: int| 0 <= k < all.len() ==> #[trigger] all[k] <= STAT_VALUE_MAX,
            valid@ == pos_filter(all.take(i as int)),
        decreases all.len() - i,
    {
        proof {
            assert(all.take(i + 1).drop_last() =~= all.take(i as int));
            assert(all.take(i + 1).last() == all[i as int]);
        }
        if values[i] > 0 {
            valid.push(values[i]);
        }
        i = i + 1;
    }
    proof {
        assert(all.take(all.len() as int) =~= all);
    }
    let ghost p = pos_filter(all);
    if valid.len() == 0 {
        return (0, 0, 0);
    }
    proof {
        lemma_pos_filter_elems(all);
        assert forall|k: int| 0 <= k < p.len() implies #[trigger] p[k] <= STAT_VALUE_MAX by {
            let w = choose|w: int| 0 <= w < all.len() && all[w] == p[k];
        }
    }
    let mut mn: u64 = valid[0];
    let mut mx: u64 = valid[0];
    let mut sum: u128 = valid[0] as u128;
    proof {
        assert(p.take(1).len() == 1);
        assert(p.take(1).last() == p[0]);
        assert(p.take(1).drop_last() =~= Seq::<u64>::empty());
        assert(seq_max(Seq::<u64>::empty()) == 0);
        assert(seq_sum(Seq::<u64>::empty()) == 0);
        assert(seq_min(p.take(1)) == p[0]);
        assert(seq_max(p.take(1)) == p[0]);
        assert(seq_sum(p.take(1)) == p[0]);
    }
    let mut j: usize = 1;
    while j < valid.len()
        invariant
            1 <= j <= p.len(),
            valid@ == p,
            forall|k: int| 0 <= k < p.len() ==> #[trigger] p[k] <= STAT_VALUE_MAX,
            mn == seq_min(p.take(j as int)),
            mx == seq_max(p.take(j as int)),
            sum == seq_sum(p.take(j as int)),
            sum <= (j as int) * (STAT_VALUE_MAX as int),
        decreases p.len() - j,
    {
        let v = valid[j];
        proof {
            assert(p.take(j + 1).drop_last() =~= p.take(j as int));
            assert(p.take(j + 1).last() == p[j as int]);
            assert(p.take(j + 1).len() == j + 1 >= 2);
            assert((j as int) * (STAT_VALUE_MAX as int) + STAT_VALUE_MAX == (j + 1) * (
            STAT_VALUE_MAX as int)) by (nonlinear_arith);
        }
        if v < mn {
            mn = v;
        }
        if v > mx {
            mx = v;
        }
        sum = sum + v as u128;
        j = j + 1;
    }
    proof {
        assert(p.take(p.len() as int) =~= p);
    }
    let len: u128 = valid.len() as u128;
    proof {
        assert(2 * (scale as int) * (sum as int) + (len as int) <= u128::MAX) by (nonlinear_arith)
            requires
                sum as int <= (len as int) * (STAT_VALUE_MAX as int),
                1 <= len as int <= usize::MAX as int,
                usize::MAX as int <= u64::MAX as int,
                1 <= scale as int <= 100,
        ;
    }
    let avg_wide: u128 = (2 * (scale as u128) * sum + len) / (2 * len);
    proof {
        let s = seq_sum(p);
        let n = p.len() as int;
        let b = STAT_VALUE_MAX as int;
        let c = scale as int;
        lemma_seq_sum_bounds(p, STAT_VALUE_MAX);
        assert(2 * c * s + n <= (2 * n) * (c * b + 1)) by (nonlinear_arith)
            requires
                s <= n * b,
                n >= 1,
                c >= 1,
        ;
        lemma_div_is_ordered(2 * c * s + n, (c * b + 1) * (2 * n), 2 * n);
        lemma_div_by_multiple(c * b + 1, 2 * n);
        assert((2 * c * s + n) / (2 * n) <= c * b + 1);
        assert(avg_wide == (2 * c * s + n) / (2 * n));
    }
    let avg: u64 = avg_wide as u64;
    (mn, avg, mx)
}

} // verus!
