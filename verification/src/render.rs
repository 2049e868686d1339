//! Rendering of summary and sample numbers as ASCII text, so that the
//! output files' cells are byte-exact: plain decimal for counts and
//! totals, and two fixed decimal places for the values kept in
//! hundredths.

use vstd::prelude::*;

verus! {

/// The shortest decimal digit string of a number: no leading zero but
/// for the number zero itself.
pub open spec fn spec_dec_digits(n: nat) -> Seq<u8>
    decreases n,
{
    if n < 10 {
        seq![(48 + n) as u8]
    } else {
        spec_dec_digits(n / 10).push((48 + n % 10) as u8)
    }
}

/// A fixed-point value in hundredths as text with exactly two decimal
/// places: the whole part in decimal, a dot, and the two fraction
/// digits.
pub open spec fn spec_centi_digits(c: nat) -> Seq<u8> {
    spec_dec_digits(c / 100) + seq![46u8, (48 + (c % 100) / 10) as u8, (48 + c % 10) as u8]
}

/// Render a number as decimal text.
pub fn fmt_u64(n: u64) -> (v: Vec<u8>)
    ensures
        v@ == spec_dec_digits(n as nat),
    decreases n,
{
    if n < 10 {
        let mut v: Vec<u8> = Vec::new();
        v.push(48 + n as u8);
        assert(v@ =~= spec_dec_digits(n as nat));
        v
    } else {
        let mut v = fmt_u64(n / 10);
        v.push(48 + (n % 10) as u8);
        v
    }
}

/// Render a fixed-point value in hundredths with two decimal places,
/// as `{:.2}` renders the exact value.
pub fn fmt_centi_u64(c: u64) -> (v: Vec<u8>)
    ensures
        v@ == spec_centi_digits(c as nat),
{
    let mut v = fmt_u64(c / 100);
    v.push(46);
    v.push(48 + ((c % 100) / 10) as u8);
    v.push(48 + (c % 10) as u8);
    proof {
        assert(((c % 100) as nat) / 10 == ((c as nat) % 100) / 10);
        assert(v@ =~= spec_centi_digits(c as nat));
    }
    v
}

} // verus!
