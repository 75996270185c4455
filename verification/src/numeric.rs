//! Single-precision values carried as their IEEE-754 bit patterns.
//!
//! The library never computes with floating point. It only has to tell finite
//! values from the rest, compare a value with a bound, flip a sign and convert
//! a frame count, and each of those is integer arithmetic on the pattern.
use vstd::prelude::*;

verus! {

/// The pattern of `1.0`.
pub const ONE: u32 = 0x3f80_0000;

/// The pattern of `-1.0`.
pub const MINUS_ONE: u32 = 0xbf80_0000;

/// The pattern of positive infinity; a larger magnitude is a NaN.
pub const INFINITY: u32 = 0x7f80_0000;

/// The weight of the sign bit.
pub const SIGN: u32 = 0x8000_0000;

/// The pattern without its sign.
pub open spec fn magnitude(bits: u32) -> int {
    bits as int % SIGN as int
}

pub open spec fn is_nan(bits: u32) -> bool {
    magnitude(bits) > INFINITY
}

pub open spec fn is_finite(bits: u32) -> bool {
    magnitude(bits) < INFINITY
}

/// A key that orders every value which is not a NaN as the value itself does.
/// Both zeros share a key.
pub open spec fn order_key(bits: u32) -> int {
    if bits >= SIGN {
        -magnitude(bits)
    } else {
        magnitude(bits)
    }
}

/// `a < b` on the values; false where either is a NaN.
pub open spec fn below(a: u32, b: u32) -> bool {
    !is_nan(a) && !is_nan(b) && order_key(a) < order_key(b)
}

/// The value with the opposite sign.
pub open spec fn negated(bits: u32) -> u32 {
    if bits >= SIGN {
        (bits - SIGN) as u32
    } else {
        (bits + SIGN) as u32
    }
}

/// The value brought into `[low, high]`; a NaN stays as it is.
pub open spec fn clamped(bits: u32, low: u32, high: u32) -> u32 {
    if below(bits, low) {
        low
    } else if below(high, bits) {
        high
    } else {
        bits
    }
}

/// `a == b` on the values: both zeros are one, and a NaN equals nothing.
pub open spec fn same_value(a: u32, b: u32) -> bool {
    !is_nan(a) && !is_nan(b) && order_key(a) == order_key(b)
}

pub fn equal(a: u32, b: u32) -> (r: bool)
    ensures
        r == same_value(a, b),
{
    let left: u32 = a % SIGN;
    let right: u32 = b % SIGN;
    if left > INFINITY || right > INFINITY {
        return false;
    }
    left == right && (left == 0 || (a >= SIGN) == (b >= SIGN))
}

/// The pattern of positive infinity in double precision.
pub const DOUBLE_INFINITY: u64 = 0x7ff0_0000_0000_0000;

/// The weight of the sign bit in double precision.
pub const DOUBLE_SIGN: u64 = 0x8000_0000_0000_0000;

/// A double-precision pattern whose value is finite.
pub open spec fn is_finite_double(bits: u64) -> bool {
    (bits as int % DOUBLE_SIGN as int) < DOUBLE_INFINITY
}

/// A double-precision pattern whose value is finite and above zero.
pub open spec fn is_positive_double(bits: u64) -> bool {
    0 < bits < DOUBLE_INFINITY
}

pub fn finite_double(bits: u64) -> (r: bool)
    ensures
        r == is_finite_double(bits),
{
    bits % DOUBLE_SIGN < DOUBLE_INFINITY
}

pub fn positive_double(bits: u64) -> (r: bool)
    ensures
        r == is_positive_double(bits),
{
    0 < bits && bits < DOUBLE_INFINITY
}

pub fn finite(bits: u32) -> (r: bool)
    ensures
        r == is_finite(bits),
{
    bits % SIGN < INFINITY
}

pub fn less(a: u32, b: u32) -> (r: bool)
    ensures
        r == below(a, b),
{
    let left: u32 = a % SIGN;
    let right: u32 = b % SIGN;
    if left > INFINITY || right > INFINITY {
        return false;
    }
    if a >= SIGN {
        if b >= SIGN {
            left > right
        } else {
            left > 0 || right > 0
        }
    } else if b >= SIGN {
        false
    } else {
        left < right
    }
}

pub fn negate(bits: u32) -> (r: u32)
    ensures
        r == negated(bits),
{
    if bits >= SIGN {
        bits - SIGN
    } else {
        bits + SIGN
    }
}

pub fn clamp(bits: u32, low: u32, high: u32) -> (r: u32)
    ensures
        r == clamped(bits, low, high),
{
    if less(bits, low) {
        low
    } else if less(high, bits) {
        high
    } else {
        bits
    }
}

/// The distance between neighbouring single-precision values around `value`,
/// where that distance is a whole number.
pub open spec fn single_step(value: nat) -> nat
    decreases value,
{
    if value < 0x100_0000 {
        1
    } else {
        2 * single_step(value / 2)
    }
}

/// The whole number nearest to `value` that single precision represents, with
/// ties to an even significand.
pub open spec fn rounded_to_single(value: nat) -> nat {
    let step = single_step(value);
    let low = (value / step) * step;
    let rest = value % step;
    if 2 * rest > step || (2 * rest == step && (value / step) % 2 == 1) {
        low + step
    } else {
        low
    }
}

proof fn lemma_step_range(value: nat)
    requires
        value < 0x1_0000_0000,
    ensures
        1 <= single_step(value) <= 256,
{
    reveal_with_fuel(single_step, 9);
}

fn step_of(value: u64) -> (step: u64)
    requires
        value < 0x1_0000_0000,
    ensures
        step == single_step(value as nat),
        1 <= step <= 256,
    decreases value,
{
    proof {
        lemma_step_range(value as nat);
    }
    if value < 0x100_0000 {
        1
    } else {
        2 * step_of(value / 2)
    }
}

/// What a `u32` becomes when it is converted to single precision.
pub fn round_to_single(value: u32) -> (r: u64)
    ensures
        r == rounded_to_single(value as nat),
{
    let wide: u64 = value as u64;
    let step: u64 = step_of(wide);
    let quotient: u64 = wide / step;
    let rest: u64 = wide % step;
    assert(quotient * step <= wide) by (nonlinear_arith)
        requires
            step > 0,
            quotient == wide / step,
    ;
    let low: u64 = quotient * step;
    if 2 * rest > step || (2 * rest == step && quotient % 2 == 1) {
        low + step
    } else {
        low
    }
}

/// Single precision represents every whole number below two to the twenty-fourth, and
/// takes the nearest one it has for the others.
pub proof fn single_precision_takes_the_nearest_whole_number(value: nat)
    requires
        value < 0x1_0000_0000,
    ensures
        value < 0x100_0000 ==> rounded_to_single(value) == value,
        rounded_to_single(value) % single_step(value) == 0,
        2 * (rounded_to_single(value) - value) <= single_step(value),
        2 * (value - rounded_to_single(value)) <= single_step(value),
{
    lemma_step_range(value);
    let step = single_step(value);
    let quotient = value / step;
    let low = quotient * step;
    assert(value == low + value % step && 0 <= value % step < step) by (nonlinear_arith)
        requires
            step > 0,
            low == (value / step) * step,
    ;
    assert(low % step == 0 && (low + step) % step == 0) by (nonlinear_arith)
        requires
            step > 0,
            low == quotient * step,
    ;
}

/// The order of the patterns is that of the values: negative ones below zero, positive
/// ones above it, both zeros alike, and a NaN outside of it.
pub proof fn patterns_order_as_their_values_do(a: u32, b: u32)
    ensures
        below(a, b) ==> !below(b, a) && !same_value(a, b),
        !is_nan(a) && !is_nan(b) ==> below(a, b) || below(b, a) || same_value(a, b),
        is_nan(a) ==> !below(a, b) && !below(b, a) && !same_value(a, b),
        a < b <= 0x7f80_0000 ==> below(a, b),
        0x8000_0000 <= a < b <= 0xff80_0000 ==> below(b, a),
        0x8000_0000 < a <= 0xff80_0000 && b <= 0x7f80_0000 ==> below(a, b),
        same_value(0, 0x8000_0000),
{
}

/// Flipping the sign reverses the order, and flipping it twice changes nothing.
pub proof fn flipping_the_sign_reverses_the_order(a: u32, b: u32)
    ensures
        negated(negated(a)) == a,
        below(a, b) <==> below(negated(b), negated(a)),
        is_finite(a) <==> is_finite(negated(a)),
        negated(0x3f80_0000) == 0xbf80_0000,
{
}

/// A clamped value lies within its bounds and is the value itself where that does.
pub proof fn a_clamped_value_lies_within_its_bounds(bits: u32, low: u32, high: u32)
    requires
        !is_nan(low),
        !is_nan(high),
        !below(high, low),
    ensures
        !below(clamped(bits, low, high), low),
        !below(high, clamped(bits, low, high)),
        !below(bits, low) && !below(high, bits) ==> clamped(bits, low, high) == bits,
        below(bits, low) ==> clamped(bits, low, high) == low,
        below(high, bits) ==> clamped(bits, low, high) == high,
{
}

/// Finite are all values but the infinities and the NaNs; positive are those above zero.
pub proof fn finite_and_positive_patterns(bits: u32, wide: u64)
    ensures
        is_finite(bits) <==> !is_nan(bits) && bits != 0x7f80_0000 && bits != 0xff80_0000,
        is_nan(bits) <==> 0x7f80_0000 < bits < 0x8000_0000 || bits > 0xff80_0000,
        is_finite_double(wide) <==> wide < 0x7ff0_0000_0000_0000 || 0x8000_0000_0000_0000 <= wide
            < 0xfff0_0000_0000_0000,
        is_positive_double(wide) <==> is_finite_double(wide) && 0 < wide < 0x8000_0000_0000_0000,
{
}

} // verus!
