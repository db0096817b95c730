//! Building strings: decimal rendering of integers and concatenation.
use vstd::prelude::*;

verus! {

/// The ASCII digit for a value below ten.
pub open spec fn digit_char(d: nat) -> char
    recommends
        d < 10,
{
    (('0' as u8) + (d as u8)) as char
}

/// The decimal rendering of `n`, most significant digit first, with no
/// leading zeros ("0" for zero).
pub open spec fn decimal(n: nat) -> Seq<char>
    decreases n,
{
    if n < 10 {
        seq![digit_char(n)]
    } else {
        decimal(n / 10).push(digit_char(n % 10))
    }
}

/// The decimal rendering of `n` as ASCII bytes.
pub open spec fn decimal_bytes(n: nat) -> Seq<u8> {
    decimal(n).map_values(|c: char| c as u8)
}

/// Appends the decimal rendering of `n` to `v`, one ASCII byte per digit.
pub fn push_decimal_bytes(v: &mut Vec<u8>, n: u64)
    ensures
        final(v)@ == old(v)@ + decimal_bytes(n as nat),
    decreases n,
{
    if n >= 10 {
        push_decimal_bytes(v, n / 10);
    }
    let d: u8 = (n % 10) as u8;
    v.push(48u8 + d);
    proof {
        let ds = decimal(n as nat);
        if n >= 10 {
            assert(ds == decimal((n / 10) as nat).push(digit_char((n % 10) as nat)));
            assert(decimal_bytes(n as nat) =~= decimal_bytes((n / 10) as nat).push((48u8 + d) as u8));
        } else {
            assert(decimal_bytes(n as nat) =~= seq![(48u8 + d) as u8]);
        }
        assert(old(v)@ + decimal_bytes(n as nat) =~= v@);
    }
}

/// Relies on `String::push`: appends one character.
#[verifier::external_body]
pub(crate) fn push_char(s: &mut String, c: char)
    ensures
        final(s)@ == old(s)@.push(c),
{
    s.push(c);
}

/// Appends the decimal rendering of `n` to `s`.
pub fn push_decimal(s: &mut String, n: u64)
    ensures
        final(s)@ == old(s)@ + decimal(n as nat),
    decreases n,
{
    if n >= 10 {
        push_decimal(s, n / 10);
    }
    let d: u8 = (n % 10) as u8;
    push_char(s, ((48u8 + d) as char));
    proof {
        assert(old(s)@ + decimal(n as nat) =~= s@);
    }
}

} // verus!
