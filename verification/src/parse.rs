//! Numeric decoding of ASCII payloads: decimal and hexadecimal digit
//! strings, and the two-byte pace composition.

use vstd::prelude::*;

verus! {

/// Value of one ASCII digit character; 0 for any other byte.
pub open spec fn digit_val(b: u8) -> nat {
    if 48 <= b <= 57 {
        (b - 48) as nat
    } else if 65 <= b <= 70 {
        (b - 55) as nat
    } else if 97 <= b <= 102 {
        (b - 87) as nat
    } else {
        0
    }
}

/// Whether a byte is a digit character of the given radix.
pub open spec fn is_digit(b: u8, radix: u32) -> bool {
    ((48 <= b <= 57) || (65 <= b <= 70) || (97 <= b <= 102)) && digit_val(b) < radix
}

/// Whether every byte of a payload is a digit of the given radix.
pub open spec fn all_digits(s: Seq<u8>, radix: u32) -> bool {
    forall|i: int| 0 <= i < s.len() ==> is_digit(#[trigger] s[i], radix)
}

/// The number a digit string denotes, most significant digit first.
pub open spec fn radix_value(s: Seq<u8>, radix: u32) -> nat
    decreases s.len(),
{
    if s.len() == 0 {
        0
    } else {
        radix_value(s.drop_last(), radix) * (radix as nat) + digit_val(s.last())
    }
}

/// A digit string is worth at least as much as any of its prefixes.
proof fn lemma_radix_value_take_le(s: Seq<u8>, radix: u32, i: int)
    requires
        0 <= i <= s.len(),
        radix >= 1,
    ensures
        radix_value(s.take(i), radix) <= radix_value(s, radix),
    decreases s.len() - i,
{
    if i == s.len() {
        assert(s.take(i) =~= s);
    } else {
        assert(s.take(i + 1).drop_last() =~= s.take(i));
        assert(radix_value(s.take(i + 1), radix) == radix_value(s.take(i), radix) * radix
            + digit_val(s.take(i + 1).last()));
        assert(radix_value(s.take(i), radix) * radix >= radix_value(s.take(i), radix) * 1)
            by (nonlinear_arith)
            requires radix >= 1,
        ;
        lemma_radix_value_take_le(s, radix, i + 1);
    }
}

/// The value of one digit byte, or `None` if the byte is no digit of the
/// radix.
fn digit_of(b: u8, radix: u32) -> (r: Option<u32>)
    ensures
        r is Some <==> is_digit(b, radix),
        r is Some ==> r->0 == digit_val(b),
{
    let v: u32 = if 48 <= b && b <= 57 {
        (b - 48) as u32
    } else if 65 <= b && b <= 70 {
        (b - 55) as u32
    } else if 97 <= b && b <= 102 {
        (b - 87) as u32
    } else {
        return None;
    };
    if v < radix {
        Some(v)
    } else {
        None
    }
}

/// Parse a digit string as an unsigned number in the given radix.
///
/// Succeeds exactly on a nonempty string of digits of the radix whose
/// value fits in `u32`, as `u32::from_str_radix` does on strings without
/// a sign character.
pub fn parse_u32_radix(s: &Vec<u8>, radix: u32) -> (r: Option<u32>)
    requires
        radix == 10 || radix == 16,
    ensures
        r is Some <==> (s@.len() > 0 && all_digits(s@, radix) && radix_value(s@, radix)
            <= u32::MAX),
        r is Some ==> r->0 == radix_value(s@, radix),
{
    if s.len() == 0 {
        return None;
    }
    let mut value: u32 = 0;
    let mut i: usize = 0;
    while i < s.len()
        invariant
            radix == 10 || radix == 16,
            0 <= i <= s@.len(),
            all_digits(s@.take(i as int), radix),
            value == radix_value(s@.take(i as int), radix),
        decreases s@.len() - i,
    {
        let d = match digit_of(s[i], radix) {
            Some(d) => d,
            None => {
                assert(!is_digit(s@[i as int], radix));
                return None;
            },
        };
        let next: u64 = (value as u64) * (radix as u64) + (d as u64);
        assert(s@.take(i + 1).drop_last() =~= s@.take(i as int));
        assert(s@.take(i + 1).last() == s@[i as int]);
        assert(next == radix_value(s@.take(i + 1), radix));
        if next > u32::MAX as u64 {
            proof {
                lemma_radix_value_take_le(s@, radix, i + 1);
            }
            return None;
        }
        value = next as u32;
        i = i + 1;
    }
    assert(s@.take(s@.len() as int) =~= s@);
    Some(value)
}

/// The pace payload's two-byte composition: the first two characters give
/// the low byte, the next two the high byte, each as two hex digits.
pub open spec fn spec_pace_value(s: Seq<u8>) -> nat {
    radix_value(s.subrange(0, 2), 16) + 256 * radix_value(s.subrange(2, 4), 16)
}

/// Whether a pace payload is well formed: at least four characters, the
/// first four being hex digits. Characters past the fourth are ignored.
pub open spec fn pace_payload_ok(s: Seq<u8>) -> bool {
    s.len() >= 4 && all_digits(s.subrange(0, 2), 16) && all_digits(s.subrange(2, 4), 16)
}

/// Decode a pace payload: `low + 256 * high`, low byte first.
pub fn parse_pace(s: &Vec<u8>) -> (r: Option<u32>)
    ensures
        r is Some <==> pace_payload_ok(s@),
        r is Some ==> r->0 == spec_pace_value(s@),
{
    if s.len() < 4 {
        return None;
    }
    let d0 = digit_of(s[0], 16);
    let d1 = digit_of(s[1], 16);
    let d2 = digit_of(s[2], 16);
    let d3 = digit_of(s[3], 16);
    proof {
        assert(s@.subrange(0, 2)[0] == s@[0]);
        assert(s@.subrange(0, 2)[1] == s@[1]);
        assert(s@.subrange(2, 4)[0] == s@[2]);
        assert(s@.subrange(2, 4)[1] == s@[3]);
    }
    match (d0, d1, d2, d3) {
        (Some(a), Some(b), Some(c), Some(d)) => {
            let lo: u32 = a * 16 + b;
            let hi: u32 = c * 16 + d;
            proof {
                let los = s@.subrange(0, 2);
                let his = s@.subrange(2, 4);
                assert(radix_value(Seq::<u8>::empty(), 16) == 0);
                assert(los.drop_last() =~= seq![s@[0]]);
                assert(seq![s@[0]].drop_last() =~= Seq::<u8>::empty());
                assert(seq![s@[0]].last() == s@[0]);
                assert(radix_value(seq![s@[0]], 16) == digit_val(s@[0]));
                assert(los.last() == s@[1]);
                assert(radix_value(los, 16) == digit_val(s@[0]) * 16 + digit_val(s@[1]));
                assert(his.drop_last() =~= seq![s@[2]]);
                assert(seq![s@[2]].drop_last() =~= Seq::<u8>::empty());
                assert(seq![s@[2]].last() == s@[2]);
                assert(radix_value(seq![s@[2]], 16) == digit_val(s@[2]));
                assert(his.last() == s@[3]);
                assert(radix_value(his, 16) == digit_val(s@[2]) * 16 + digit_val(s@[3]));
            }
            Some(lo + 256 * hi)
        },
        _ => {
            proof {
                if d0 is None {
                    assert(!is_digit(s@.subrange(0, 2)[0], 16));
                } else if d1 is None {
                    assert(!is_digit(s@.subrange(0, 2)[1], 16));
                } else if d2 is None {
                    assert(!is_digit(s@.subrange(2, 4)[0], 16));
                } else {
                    assert(!is_digit(s@.subrange(2, 4)[1], 16));
                }
            }
            None
        },
    }
}

} // verus!
