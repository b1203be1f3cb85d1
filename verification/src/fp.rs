use vstd::prelude::*;

verus! {

// Coordinates enter the library as the raw bit patterns of their
// double-precision components. The strict order `<` on doubles is a function
// of those bit patterns alone, and the spec functions below define it exactly:
// a double is negative when its sign bit is set, it is NaN when its magnitude
// bits exceed the infinity pattern, NaN compares under nothing, and otherwise
// two doubles compare by signed magnitude, the two zeroes being equal.

pub const SIGN_MASK: u64 = 0x8000_0000_0000_0000;

pub const MAGNITUDE_MASK: u64 = 0x7FFF_FFFF_FFFF_FFFF;

pub const INFINITY_BITS: u64 = 0x7FF0_0000_0000_0000;

/// The magnitude bits of a double: everything but the sign.
pub open spec fn magnitude(bits: u64) -> u64 {
    bits & MAGNITUDE_MASK
}

/// Whether the double with these bits carries a sign.
pub open spec fn is_negative(bits: u64) -> bool {
    bits & SIGN_MASK != 0
}

/// Whether the double with these bits is NaN.
pub open spec fn is_nan(bits: u64) -> bool {
    magnitude(bits) > INFINITY_BITS
}

/// The strict `<` of the doubles with bit patterns `a` and `b`.
pub open spec fn f64_lt(a: u64, b: u64) -> bool {
    &&& !is_nan(a)
    &&& !is_nan(b)
    &&& if is_negative(a) {
        if is_negative(b) {
            magnitude(a) > magnitude(b)
        } else {
            magnitude(a) > 0 || magnitude(b) > 0
        }
    } else {
        !is_negative(b) && magnitude(a) < magnitude(b)
    }
}

/// Decides the strict `<` of two doubles given by their bit patterns.
pub fn f64_lt_bits(a: u64, b: u64) -> (r: bool)
    ensures
        r == f64_lt(a, b),
{
    let mag_a: u64 = a & MAGNITUDE_MASK;
    let mag_b: u64 = b & MAGNITUDE_MASK;
    if mag_a > INFINITY_BITS || mag_b > INFINITY_BITS {
        return false;
    }
    let neg_a: bool = a & SIGN_MASK != 0;
    let neg_b: bool = b & SIGN_MASK != 0;
    if neg_a {
        if neg_b {
            mag_a > mag_b
        } else {
            mag_a > 0 || mag_b > 0
        }
    } else {
        !neg_b && mag_a < mag_b
    }
}

} // verus!
