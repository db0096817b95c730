//! Conversion of a playback position to the timecode that indexes segments.
use vstd::prelude::*;

verus! {

/// A position in milliseconds rounded to the nearest whole second (halves
/// round up).
pub open spec fn rounded_seconds(millis: nat) -> nat {
    (millis + 500) / 1000
}

/// The `(hours, minutes, seconds)` timecode of a position in milliseconds.
pub open spec fn timecode_of(millis: nat) -> (nat, nat, nat) {
    let r = rounded_seconds(millis);
    (r / 3600, (r % 3600) / 60, r % 60)
}

/// Converts a position, given in milliseconds, to the timecode
/// `(hours, minutes, seconds)` of the second nearest to it.
pub fn seconds_to_timecode(millis: u64) -> (r: (u64, u8, u8))
    ensures
        (r.0 as nat, r.1 as nat, r.2 as nat) == timecode_of(millis as nat),
        r.1 < 60,
        r.2 < 60,
{
    let mut total: u64 = millis / 1000;
    if millis % 1000 >= 500 {
        total = total + 1;
    }
    assert(total == (millis as nat + 500) / 1000);
    let hours: u64 = total / 3600;
    let rest: u64 = total % 3600;
    let minutes: u8 = (rest / 60) as u8;
    let seconds: u8 = (rest % 60) as u8;
    assert(rest % 60 == total % 60) by (nonlinear_arith)
        requires
            rest == total % 3600,
    {
    }
    (hours, minutes, seconds)
}

/// A timecode names exactly the rounded second of its position, and a
/// later position never names an earlier second nor an earlier timecode
/// (in hours, then minutes, then seconds): as the buffered end grows, the
/// segments requested move forward in time.
pub proof fn lemma_timecode_forward(a: nat, b: nat)
    requires
        a <= b,
    ensures
        timecode_of(a).0 * 3600 + timecode_of(a).1 * 60 + timecode_of(a).2 == rounded_seconds(a),
        rounded_seconds(a) <= rounded_seconds(b),
        timecode_of(a).0 < timecode_of(b).0 || (timecode_of(a).0 == timecode_of(b).0 && (timecode_of(a).1
            < timecode_of(b).1 || (timecode_of(a).1 == timecode_of(b).1 && timecode_of(a).2
            <= timecode_of(b).2))),
{
    let r = rounded_seconds(a);
    assert(r == (r / 3600) * 3600 + r % 3600) by (nonlinear_arith);
    assert(r % 3600 == ((r % 3600) / 60) * 60 + (r % 3600) % 60) by (nonlinear_arith);
    assert((r % 3600) % 60 == r % 60) by (nonlinear_arith);
    assert((a + 500) / 1000 <= (b + 500) / 1000) by (nonlinear_arith)
        requires
            a <= b,
    {
    }
    let q = rounded_seconds(b);
    assert(r / 3600 <= q / 3600) by (nonlinear_arith)
        requires
            r <= q,
    {
    }
    if r / 3600 == q / 3600 {
        assert(r % 3600 <= q % 3600) by (nonlinear_arith)
            requires
                r <= q,
                r / 3600 == q / 3600,
        {
        }
        let x = r % 3600;
        let y = q % 3600;
        assert(x / 60 <= y / 60) by (nonlinear_arith)
            requires
                x <= y,
        {
        }
        if x / 60 == y / 60 {
            assert(x % 60 <= y % 60) by (nonlinear_arith)
                requires
                    x <= y,
                    x / 60 == y / 60,
            {
            }
            assert(x % 60 == r % 60) by (nonlinear_arith)
                requires
                    x == r % 3600,
            {
            }
            assert(y % 60 == q % 60) by (nonlinear_arith)
                requires
                    y == q % 3600,
            {
            }
        }
    }
}

} // verus!
