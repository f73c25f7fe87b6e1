//! Fixed-point scalars.
//!
//! Every real quantity of the library (seconds, normalised coordinates,
//! opacities, pixel positions, font sizes) is an `i64` count of billionths.
//! All operations saturate at the bounds of `i64`, so they are total.

use vstd::prelude::*;

verus! {

/// A real quantity in billionths: `ONE` stands for 1.0.
pub type Fixed = i64;

/// The fixed-point image of 1.0.
pub const ONE: i64 = 1_000_000_000;

/// `v` brought into the range of `i64`.
pub open spec fn clip(v: int) -> int {
    if v < i64::MIN as int {
        i64::MIN as int
    } else if v > i64::MAX as int {
        i64::MAX as int
    } else {
        v
    }
}

/// The quotient `n / d` rounded toward zero.
pub open spec fn quot(n: int, d: int) -> int
    recommends
        d > 0,
{
    if n >= 0 {
        n / d
    } else {
        -((-n) / d)
    }
}

/// `v` limited to `lo ..= hi`; `lo` wins when the bounds cross.
pub open spec fn clamp_spec(v: int, lo: int, hi: int) -> int {
    if v < lo {
        lo
    } else if v > hi {
        hi
    } else {
        v
    }
}

/// The saturating difference `a - b`.
pub open spec fn minus_spec(a: int, b: int) -> int {
    clip(a - b)
}

/// The saturating sum `a + b`.
pub open spec fn plus_spec(a: int, b: int) -> int {
    clip(a + b)
}

/// `a * b / d`, rounded toward zero and saturated.
pub open spec fn scale_spec(a: int, b: int, d: int) -> int
    recommends
        d > 0,
{
    clip(quot(a * b, d))
}

/// The fixed-point product of two fixed-point values.
pub open spec fn times_spec(a: int, b: int) -> int {
    scale_spec(a, b, ONE as int)
}

/// The fixed-point ratio `a / b` of two fixed-point values.
pub open spec fn ratio_spec(a: int, b: int) -> int
    recommends
        b > 0,
{
    scale_spec(a, ONE as int, b)
}

/// `start + (end - start) * t`, with `t` in fixed point.
pub open spec fn lerp_spec(start: int, end: int, t: int) -> int {
    plus_spec(start, times_spec(minus_spec(end, start), t))
}

fn narrow(v: i128) -> (r: i64)
    ensures
        r as int == clip(v as int),
{
    if v < i64::MIN as i128 {
        i64::MIN
    } else if v > i64::MAX as i128 {
        i64::MAX
    } else {
        v as i64
    }
}

fn magnitude(v: i64) -> (r: u128)
    ensures
        r as int == (if v >= 0 { v as int } else { -(v as int) }),
        r <= 0x8000_0000_0000_0000,
{
    if v >= 0 {
        v as u128
    } else {
        let w: i128 = -(v as i128);
        w as u128
    }
}

/// The saturating difference `a - b`.
pub fn minus(a: i64, b: i64) -> (r: i64)
    ensures
        r as int == minus_spec(a as int, b as int),
{
    narrow(a as i128 - b as i128)
}

/// The saturating sum `a + b`.
pub fn plus(a: i64, b: i64) -> (r: i64)
    ensures
        r as int == plus_spec(a as int, b as int),
{
    narrow(a as i128 + b as i128)
}

/// `v` limited to `lo ..= hi`.
pub fn clamp(v: i64, lo: i64, hi: i64) -> (r: i64)
    ensures
        r as int == clamp_spec(v as int, lo as int, hi as int),
{
    if v < lo {
        lo
    } else if v > hi {
        hi
    } else {
        v
    }
}

/// `a * b / d`, rounded toward zero and saturated.
pub fn scale(a: i64, b: i64, d: i64) -> (r: i64)
    requires
        d > 0,
    ensures
        r as int == scale_spec(a as int, b as int, d as int),
{
    let ma: u128 = magnitude(a);
    let mb: u128 = magnitude(b);
    assert(ma * mb <= 0x8000_0000_0000_0000 * 0x8000_0000_0000_0000) by (nonlinear_arith)
        requires
            ma <= 0x8000_0000_0000_0000,
            mb <= 0x8000_0000_0000_0000,
    ;
    let product: u128 = ma * mb;
    let q: u128 = product / (d as u128);
    let negative: bool = (a < 0) != (b < 0);
    proof {
        let pa = a as int;
        let pb = b as int;
        assert(product as int == (if negative { -(pa * pb) } else { pa * pb })) by (nonlinear_arith)
            requires
                product as int == ma as int * mb as int,
                ma as int == (if pa >= 0 { pa } else { -pa }),
                mb as int == (if pb >= 0 { pb } else { -pb }),
                negative == ((pa < 0) != (pb < 0)),
        ;
        assert(negative ==> pa * pb <= 0) by (nonlinear_arith)
            requires
                negative == ((pa < 0) != (pb < 0)),
        ;
        assert(!negative ==> pa * pb >= 0) by (nonlinear_arith)
            requires
                negative == ((pa < 0) != (pb < 0)),
        ;
        assert(q as int <= product as int) by (nonlinear_arith)
            requires
                q as int == product as int / d as int,
                d > 0,
                product >= 0,
        ;
    }
    if negative {
        let signed: i128 = -(q as i128);
        narrow(signed)
    } else {
        narrow(q as i128)
    }
}

/// The fixed-point product `a * b`.
pub fn times(a: i64, b: i64) -> (r: i64)
    ensures
        r as int == times_spec(a as int, b as int),
{
    scale(a, b, ONE)
}

/// The fixed-point ratio `a / b`.
pub fn ratio(a: i64, b: i64) -> (r: i64)
    requires
        b > 0,
    ensures
        r as int == ratio_spec(a as int, b as int),
{
    scale(a, ONE, b)
}

/// `start + (end - start) * t`.
pub fn lerp(start: i64, end: i64, t: i64) -> (r: i64)
    ensures
        r as int == lerp_spec(start as int, end as int, t as int),
{
    plus(start, times(minus(end, start), t))
}

/// The smaller of two values.
pub open spec fn min_spec(a: int, b: int) -> int {
    if a <= b {
        a
    } else {
        b
    }
}

/// The larger of two values.
pub open spec fn max_spec(a: int, b: int) -> int {
    if a >= b {
        a
    } else {
        b
    }
}

/// The smaller of two values.
pub fn min(a: i64, b: i64) -> (r: i64)
    ensures
        r as int == min_spec(a as int, b as int),
{
    if a <= b {
        a
    } else {
        b
    }
}

/// The larger of two values.
pub fn max(a: i64, b: i64) -> (r: i64)
    ensures
        r as int == max_spec(a as int, b as int),
{
    if a >= b {
        a
    } else {
        b
    }
}

/// Multiplying by one changes nothing.
pub proof fn lemma_times_one(a: int)
    requires
        i64::MIN <= a <= i64::MAX,
    ensures
        times_spec(a, ONE as int) == a,
{
    let one = ONE as int;
    if a >= 0 {
        vstd::arithmetic::div_mod::lemma_div_multiples_vanish(a, one);
        assert(a * one == one * a) by (nonlinear_arith);
    } else {
        vstd::arithmetic::div_mod::lemma_div_multiples_vanish(-a, one);
        assert(-(a * one) == one * (-a)) by (nonlinear_arith);
        assert(a * one < 0) by (nonlinear_arith)
            requires
                a < 0,
                one > 0,
        ;
    }
}

/// Multiplying by zero gives zero.
pub proof fn lemma_times_zero(a: int)
    ensures
        times_spec(a, 0) == 0,
{
    assert(a * 0 == 0) by (nonlinear_arith);
}

/// An interpolation starts at its first value.
pub proof fn lemma_lerp_at_zero(start: int, end: int)
    requires
        i64::MIN <= start <= i64::MAX,
    ensures
        lerp_spec(start, end, 0) == start,
{
    lemma_times_zero(minus_spec(end, start));
}

/// An interpolation ends at its second value, where the step between the
/// two fits the scalar's range.
pub proof fn lemma_lerp_at_one(start: int, end: int)
    requires
        i64::MIN <= start <= i64::MAX,
        i64::MIN <= end <= i64::MAX,
        i64::MIN <= end - start <= i64::MAX,
    ensures
        lerp_spec(start, end, ONE as int) == end,
{
    lemma_times_one(end - start);
}

/// A product of a value with a factor between zero and one lies between
/// zero and the value.
pub proof fn lemma_times_fraction(a: int, t: int)
    requires
        0 <= a <= i64::MAX,
        0 <= t <= ONE,
    ensures
        0 <= times_spec(a, t) <= a,
{
    let one = ONE as int;
    assert(0 <= a * t <= a * one) by (nonlinear_arith)
        requires
            0 <= a,
            0 <= t <= one,
    ;
    vstd::arithmetic::div_mod::lemma_div_is_ordered(a * t, a * one, one);
    vstd::arithmetic::div_mod::lemma_div_multiples_vanish(a, one);
    assert(a * one == one * a) by (nonlinear_arith);
    vstd::arithmetic::div_mod::lemma_div_pos_is_pos(a * t, one);
}

} // verus!
