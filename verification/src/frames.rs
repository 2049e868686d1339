//! Response framing: splitting a received chunk into lines, classifying
//! each line (error sentinel, telemetry data frame, or ignored), and the
//! per-cycle map of raw register payloads.

use vstd::prelude::*;

use crate::catalog::{
    spec_response_prefix, spec_error_sentinel, spec_catalog, response_prefix, catalog, RegisterId,
    NUM_REGISTERS,
};

verus! {

/// Index of the first newline byte in `s`, or `s.len()` if there is none.
pub open spec fn first_nl(s: Seq<u8>) -> int
    decreases s.len(),
{
    if s.len() == 0 {
        0
    } else if s[0] == 10 {
        0
    } else {
        1 + first_nl(s.skip(1))
    }
}

/// A line with one trailing carriage return removed, as `str::lines` does.
pub open spec fn strip_cr(l: Seq<u8>) -> Seq<u8> {
    if l.len() > 0 && l.last() == 13 {
        l.drop_last()
    } else {
        l
    }
}

/// The newline-delimited lines of a received chunk, carriage returns
/// stripped, without a final empty line when the chunk ends in a newline.
pub open spec fn spec_lines(s: Seq<u8>) -> Seq<Seq<u8>>
    decreases s.len(),
{
    if s.len() == 0 {
        Seq::empty()
    } else {
        let i = first_nl(s);
        if 0 <= i < s.len() {
            seq![strip_cr(s.take(i))] + spec_lines(s.skip(i + 1))
        } else {
            seq![strip_cr(s)]
        }
    }
}

proof fn lemma_first_nl_is(s: Seq<u8>, d: int)
    requires
        0 <= d <= s.len(),
        forall|k: int| 0 <= k < d ==> s[k] != 10,
        d < s.len() ==> s[d] == 10,
    ensures
        first_nl(s) == d,
    decreases d,
{
    if d == 0 {
    } else {
        assert(s[0] != 10);
        assert forall|k: int| 0 <= k < d - 1 implies s.skip(1)[k] != 10 by {
            assert(s.skip(1)[k] == s[k + 1]);
        }
        assert(d - 1 < s.skip(1).len() ==> s.skip(1)[d - 1] == 10);
        lemma_first_nl_is(s.skip(1), d - 1);
    }
}

/// Split a received chunk into its lines. Mirrors `str::lines`: segments
/// are delimited by newline bytes, a single trailing carriage return is
/// removed from each segment, and a trailing newline produces no final
/// empty line.
pub fn split_lines(response: &Vec<u8>) -> (lines: Vec<Vec<u8>>)
    ensures
        lines@.map_values(|l: Vec<u8>| l@) == spec_lines(response@),
{
    let mut lines: Vec<Vec<u8>> = Vec::new();
    let mut start: usize = 0;
    proof {
        assert(lines@.map_values(|l: Vec<u8>| l@) =~= Seq::<Seq<u8>>::empty());
        assert(response@.skip(0) =~= response@);
    }
    while start < response.len()
        invariant
            start <= response.len(),
            spec_lines(response@) =~= lines@.map_values(|l: Vec<u8>| l@) + spec_lines(
                response@.skip(start as int),
            ),
        decreases response.len() - start,
    {
        let ghost rest = response@.skip(start as int);
        let mut j: usize = start;
        while j < response.len() && response[j] != 10
            invariant
                start <= j <= response.len(),
                forall|k: int| start <= k < j ==> response@[k] != 10,
            decreases response.len() - j,
        {
            j = j + 1;
        }
        proof {
            assert forall|k: int| 0 <= k < j - start implies rest[k] != 10 by {
                assert(rest[k] == response@[start + k]);
            }
            assert(j - start < rest.len() ==> rest[j - start] == 10);
            lemma_first_nl_is(rest, j - start);
        }
        let mut end: usize = j;
        if end > start && response[end - 1] == 13 {
            end = end - 1;
        }
        let mut line: Vec<u8> = Vec::new();
        let mut k: usize = start;
        while k < end
            invariant
                start <= k <= end <= response.len(),
                line@ == response@.subrange(start as int, k as int),
            decreases end - k,
        {
            line.push(response[k]);
            assert(line@ =~= response@.subrange(start as int, k + 1 as int));
            k = k + 1;
        }
        proof {
            let seg = response@.subrange(start as int, j as int);
            if j > start && response@[j - 1] == 13 {
                assert(seg.len() > 0 && seg.last() == 13);
                assert(strip_cr(seg) =~= response@.subrange(start as int, j - 1));
            } else {
                if seg.len() > 0 {
                    assert(seg.last() == response@[j - 1]);
                }
                assert(strip_cr(seg) =~= seg);
            }
            assert(line@ == strip_cr(seg));
        }
        let ghost done = lines@.map_values(|l: Vec<u8>| l@);
        lines.push(line);
        proof {
            assert(lines@.map_values(|l: Vec<u8>| l@) =~= done.push(line@));
        }
        if j < response.len() {
            proof {
                let seg = response@.subrange(start as int, j as int);
                assert(rest.take(j - start) =~= seg);
                assert(rest.skip(j - start + 1) =~= response@.skip(j + 1 as int));
                assert(spec_lines(rest) =~= seq![line@] + spec_lines(
                    response@.skip(j + 1 as int),
                ));
                assert(done.push(line@) + spec_lines(response@.skip(j + 1 as int)) =~= done + (
                seq![line@] + spec_lines(response@.skip(j + 1 as int))));
            }
            start = j + 1;
        } else {
            proof {
                assert(first_nl(rest) == rest.len());
                assert(rest.len() > 0);
                assert(rest.take(j - start) =~= rest);
                assert(line@ == strip_cr(rest));
                assert(spec_lines(rest) =~= seq![line@]);
                assert(response@.skip(j as int).len() == 0);
                assert(spec_lines(response@.skip(j as int)) =~= Seq::<Seq<u8>>::empty());
                assert(done.push(line@) + spec_lines(response@.skip(j as int)) =~= done
                    + spec_lines(rest));
            }
            start = j;
        }
    }
    assert(response@.skip(start as int).len() == 0);
    assert(spec_lines(response@) =~= lines@.map_values(|l: Vec<u8>| l@));
    lines
}

/// Whether a line is a data frame for a register: long enough to carry a
/// payload, and opening with that register's six-character response prefix.
pub open spec fn line_matches(l: Seq<u8>, r: RegisterId) -> bool {
    l.len() > 6 && l.subrange(0, 6) == spec_response_prefix(r)
}

/// The first register in catalog order, from position `i` on, whose
/// response prefix opens the line.
pub open spec fn spec_match_from(l: Seq<u8>, i: int) -> Option<RegisterId>
    decreases spec_catalog().len() - i,
{
    if i < 0 || i >= spec_catalog().len() {
        None
    } else if line_matches(l, spec_catalog()[i]) {
        Some(spec_catalog()[i])
    } else {
        spec_match_from(l, i + 1)
    }
}

/// The register a line carries a payload for, if any.
pub open spec fn spec_match_register(l: Seq<u8>) -> Option<RegisterId> {
    spec_match_from(l, 0)
}

proof fn lemma_match_some(l: Seq<u8>, i: int)
    requires
        spec_match_from(l, i) is Some,
    ensures
        line_matches(l, spec_match_from(l, i)->0),
    decreases spec_catalog().len() - i,
{
    if i < 0 || i >= spec_catalog().len() {
    } else if line_matches(l, spec_catalog()[i]) {
    } else {
        lemma_match_some(l, i + 1);
    }
}

fn prefix_matches(line: &Vec<u8>, r: RegisterId) -> (b: bool)
    ensures
        b == line_matches(line@, r),
{
    if line.len() <= 6 {
        return false;
    }
    let p = response_prefix(r);
    assert(p@.len() == 6);
    let mut i: usize = 0;
    while i < 6
        invariant
            0 <= i <= 6,
            line@.len() > 6,
            p@ == spec_response_prefix(r),
            p@.len() == 6,
            forall|k: int| 0 <= k < i ==> line@[k] == p@[k],
        decreases 6 - i,
    {
        if line[i] != p[i] {
            assert(line@.subrange(0, 6)[i as int] != p@[i as int]);
            return false;
        }
        i = i + 1;
    }
    assert(line@.subrange(0, 6) =~= p@);
    true
}

/// Find the register whose response prefix opens the line, if any.
pub fn match_register(line: &Vec<u8>) -> (r: Option<RegisterId>)
    ensures
        r == spec_match_register(line@),
{
    let cat = catalog();
    let mut i: usize = 0;
    while i < NUM_REGISTERS
        invariant
            0 <= i <= NUM_REGISTERS,
            cat@ == spec_catalog(),
            cat@.len() == NUM_REGISTERS,
            spec_match_register(line@) == spec_match_from(line@, i as int),
        decreases NUM_REGISTERS - i,
    {
        let r = cat[i];
        if prefix_matches(line, r) {
            return Some(r);
        }
        i = i + 1;
    }
    None
}

/// The raw ASCII payloads one polling cycle has gathered, one slot per
/// register; rebuilt every cycle and discarded after decoding.
pub struct RawValueMap {
    pub display_seconds: Option<Vec<u8>>,
    pub display_minutes: Option<Vec<u8>>,
    pub display_hours: Option<Vec<u8>>,
    pub distance: Option<Vec<u8>>,
    pub stroke_count: Option<Vec<u8>>,
    pub stroke_time_avg: Option<Vec<u8>>,
    pub stroke_pull_time_avg: Option<Vec<u8>>,
    pub heart_rate_zone: Option<Vec<u8>>,
    pub seconds_per_500m_zone: Option<Vec<u8>>,
    pub stroke_rate_zone: Option<Vec<u8>>,
}

impl RawValueMap {
    /// The payload slot of one register, as a sequence.
    pub open spec fn spec_slot(self, r: RegisterId) -> Option<Seq<u8>> {
        let o = match r {
            RegisterId::DisplaySeconds => self.display_seconds,
            RegisterId::DisplayMinutes => self.display_minutes,
            RegisterId::DisplayHours => self.display_hours,
            RegisterId::Distance => self.distance,
            RegisterId::StrokeCount => self.stroke_count,
            RegisterId::StrokeTimeAvg => self.stroke_time_avg,
            RegisterId::StrokePullTimeAvg => self.stroke_pull_time_avg,
            RegisterId::HeartRateZone => self.heart_rate_zone,
            RegisterId::SecondsPer500mZone => self.seconds_per_500m_zone,
            RegisterId::StrokeRateZone => self.stroke_rate_zone,
        };
        match o {
            Some(v) => Some(v@),
            None => None,
        }
    }

    /// An empty map: no payload has arrived yet this cycle.
    pub fn new() -> (m: RawValueMap)
        ensures
            m@ == Map::<RegisterId, Seq<u8>>::empty(),
    {
        let m = RawValueMap {
            display_seconds: None,
            display_minutes: None,
            display_hours: None,
            distance: None,
            stroke_count: None,
            stroke_time_avg: None,
            stroke_pull_time_avg: None,
            heart_rate_zone: None,
            seconds_per_500m_zone: None,
            stroke_rate_zone: None,
        };
        proof {
            assert(m@ =~= Map::<RegisterId, Seq<u8>>::empty());
        }
        m
    }

    fn set(&mut self, r: RegisterId, payload: Vec<u8>)
        ensures
            final(self)@ == old(self)@.insert(r, payload@),
    {
        match r {
            RegisterId::DisplaySeconds => self.display_seconds = Some(payload),
            RegisterId::DisplayMinutes => self.display_minutes = Some(payload),
            RegisterId::DisplayHours => self.display_hours = Some(payload),
            RegisterId::Distance => self.distance = Some(payload),
            RegisterId::StrokeCount => self.stroke_count = Some(payload),
            RegisterId::StrokeTimeAvg => self.stroke_time_avg = Some(payload),
            RegisterId::StrokePullTimeAvg => self.stroke_pull_time_avg = Some(payload),
            RegisterId::HeartRateZone => self.heart_rate_zone = Some(payload),
            RegisterId::SecondsPer500mZone => self.seconds_per_500m_zone = Some(payload),
            RegisterId::StrokeRateZone => self.stroke_rate_zone = Some(payload),
        }
        proof {
            assert(self@ =~= old(self)@.insert(r, payload@));
        }
    }

    /// Read one register's payload gathered this cycle, if any arrived.
    pub fn get(&self, r: RegisterId) -> (o: Option<&Vec<u8>>)
        ensures
            o is Some <==> self@.dom().contains(r),
            o is Some ==> o->0@ == self@[r],
    {
        let o = match r {
            RegisterId::DisplaySeconds => self.display_seconds.as_ref(),
            RegisterId::DisplayMinutes => self.display_minutes.as_ref(),
            RegisterId::DisplayHours => self.display_hours.as_ref(),
            RegisterId::Distance => self.distance.as_ref(),
            RegisterId::StrokeCount => self.stroke_count.as_ref(),
            RegisterId::StrokeTimeAvg => self.stroke_time_avg.as_ref(),
            RegisterId::StrokePullTimeAvg => self.stroke_pull_time_avg.as_ref(),
            RegisterId::HeartRateZone => self.heart_rate_zone.as_ref(),
            RegisterId::SecondsPer500mZone => self.seconds_per_500m_zone.as_ref(),
            RegisterId::StrokeRateZone => self.stroke_rate_zone.as_ref(),
        };
        o
    }
}

impl View for RawValueMap {
    type V = Map<RegisterId, Seq<u8>>;

    /// The map from each register to the payload gathered for it this
    /// cycle, for exactly the registers whose payload has arrived.
    open spec fn view(&self) -> Map<RegisterId, Seq<u8>> {
        Map::new(|r: RegisterId| self.spec_slot(r) is Some, |r: RegisterId| self.spec_slot(r)->0)
    }
}

/// What one classified line does to the cycle's payload map: an error
/// sentinel or an unmatched line leaves it unchanged, a data frame
/// records the payload under its register, overwriting an earlier one.
pub open spec fn spec_ingest_line(m: Map<RegisterId, Seq<u8>>, l: Seq<u8>) -> Map<
    RegisterId,
    Seq<u8>,
> {
    if l == spec_error_sentinel() {
        m
    } else {
        match spec_match_register(l) {
            Some(r) => m.insert(r, l.skip(6)),
            None => m,
        }
    }
}

/// The payload map after every line of a chunk has been classified, in
/// order.
pub open spec fn spec_ingest_lines(m0: Map<RegisterId, Seq<u8>>, ls: Seq<Seq<u8>>) -> Map<
    RegisterId,
    Seq<u8>,
>
    decreases ls.len(),
{
    if ls.len() == 0 {
        m0
    } else {
        spec_ingest_line(spec_ingest_lines(m0, ls.drop_last()), ls.last())
    }
}

/// How many lines of a chunk are the error sentinel.
pub open spec fn spec_error_count(ls: Seq<Seq<u8>>) -> nat
    decreases ls.len(),
{
    if ls.len() == 0 {
        0
    } else {
        spec_error_count(ls.drop_last()) + (if ls.last() == spec_error_sentinel() {
            1nat
        } else {
            0nat
        })
    }
}

fn is_error_sentinel(line: &Vec<u8>) -> (b: bool)
    ensures
        b == (line@ == spec_error_sentinel()),
{
    if line.len() != 5 {
        assert(line@ != spec_error_sentinel());
        return false;
    }
    let b = line[0] == 69 && line[1] == 82 && line[2] == 82 && line[3] == 79 && line[4] == 82;
    proof {
        if b {
            assert(line@ =~= spec_error_sentinel());
        } else {
            assert(line@ != spec_error_sentinel());
        }
    }
    b
}

/// Classify one line and record its payload if it is a data frame.
/// Returns whether the line was the error sentinel.
pub fn ingest_line(raw: &mut RawValueMap, line: &Vec<u8>) -> (is_err: bool)
    ensures
        final(raw)@ == spec_ingest_line(old(raw)@, line@),
        is_err == (line@ == spec_error_sentinel()),
{
    if is_error_sentinel(line) {
        return true;
    }
    match match_register(line) {
        Some(r) => {
            proof {
                lemma_match_some(line@, 0);
            }
            let mut payload: Vec<u8> = Vec::new();
            let mut k: usize = 6;
            while k < line.len()
                invariant
                    6 <= k <= line@.len(),
                    payload@ == line@.subrange(6, k as int),
                decreases line@.len() - k,
            {
                payload.push(line[k]);
                assert(payload@ =~= line@.subrange(6, k + 1 as int));
                k = k + 1;
            }
            assert(payload@ =~= line@.skip(6));
            raw.set(r, payload);
        },
        None => {},
    }
    false
}

/// Feed every line of one received chunk into the classifier, and count
/// the error sentinels seen.
pub fn ingest_response(raw: &mut RawValueMap, response: &Vec<u8>) -> (errors: usize)
    ensures
        final(raw)@ == spec_ingest_lines(old(raw)@, spec_lines(response@)),
        errors == spec_error_count(spec_lines(response@)),
{
    let lines = split_lines(response);
    let ghost ls = spec_lines(response@);
    let mut errors: usize = 0;
    let mut i: usize = 0;
    while i < lines.len()
        invariant
            0 <= i <= lines@.len(),
            lines@.map_values(|l: Vec<u8>| l@) == ls,
            raw@ == spec_ingest_lines(old(raw)@, ls.take(i as int)),
            errors == spec_error_count(ls.take(i as int)),
            errors <= i,
        decreases lines@.len() - i,
    {
        let e = ingest_line(raw, &lines[i]);
        proof {
            assert(ls.take(i + 1).drop_last() =~= ls.take(i as int));
            assert(ls.take(i + 1).last() == lines@[i as int]@);
        }
        if e {
            errors = errors + 1;
        }
        i = i + 1;
    }
    assert(ls.take(lines@.len() as int) =~= ls);
    errors
}

} // verus!
