//! Prices and sizes as the bit patterns of IEEE-754 binary64 floats.
//!
//! The exchange sends prices and sizes as JSON numbers, read as 64-bit floats.
//! The library carries each such float as its bit pattern (`u64`). For two
//! floats that are not NaN, the numeric order of the floats is the order of
//! [`rank`] of their bit patterns, and float equality (`==`, under which
//! `-0.0 == 0.0`) is equality of [`rank`]. A NaN equals nothing and is
//! unordered against everything.

use vstd::prelude::*;

verus! {

/// The sign bit of a binary64 bit pattern.
pub const SIGN_BIT: u64 = 0x8000_0000_0000_0000u64;

/// The bit pattern of positive infinity; a larger magnitude is a NaN.
pub const INFINITY_BITS: u64 = 0x7ff0_0000_0000_0000u64;

/// The bit pattern without its sign bit.
pub open spec fn magnitude(bits: u64) -> int {
    if bits >= SIGN_BIT {
        bits - SIGN_BIT
    } else {
        bits as int
    }
}

/// Whether the bit pattern is a NaN.
pub open spec fn is_nan(bits: u64) -> bool {
    magnitude(bits) > INFINITY_BITS
}

/// The position of a float on the number line: `0` for both zeros, the
/// magnitude for a positive float and the negated magnitude for a negative one.
pub open spec fn rank(bits: u64) -> int {
    if bits >= SIGN_BIT {
        -(bits - SIGN_BIT)
    } else {
        bits as int
    }
}

/// Float equality of two bit patterns.
pub open spec fn price_eq(a: u64, b: u64) -> bool {
    !is_nan(a) && !is_nan(b) && rank(a) == rank(b)
}

/// Whether the bit pattern is a NaN.
pub fn is_nan_bits(bits: u64) -> (r: bool)
    ensures
        r == is_nan(bits),
{
    let m: u64 = if bits >= SIGN_BIT {
        bits - SIGN_BIT
    } else {
        bits
    };
    m > INFINITY_BITS
}

/// The [`rank`] of a bit pattern.
pub fn rank_of(bits: u64) -> (r: i128)
    ensures
        r == rank(bits),
{
    if bits >= SIGN_BIT {
        -((bits - SIGN_BIT) as i128)
    } else {
        bits as i128
    }
}

/// Float equality of two bit patterns (what `==` gives on the two floats).
pub fn prices_equal(a: u64, b: u64) -> (r: bool)
    ensures
        r == price_eq(a, b),
{
    !is_nan_bits(a) && !is_nan_bits(b) && rank_of(a) == rank_of(b)
}


/// A bit pattern is a NaN exactly when its exponent bits are all set and its
/// fraction bits are not all clear.
pub proof fn lemma_nan_bits(bits: u64)
    ensures
        is_nan(bits) <==> ((bits & 0x7ff0_0000_0000_0000u64) == 0x7ff0_0000_0000_0000u64 && (bits
            & 0x000f_ffff_ffff_ffffu64) != 0),
{
    assert((bits & 0x7fff_ffff_ffff_ffffu64) == (if bits >= 0x8000_0000_0000_0000u64 {
        (bits - 0x8000_0000_0000_0000u64) as u64
    } else {
        bits
    })) by (bit_vector);
    assert(((bits & 0x7fff_ffff_ffff_ffffu64) > 0x7ff0_0000_0000_0000u64) <==> ((bits
        & 0x7ff0_0000_0000_0000u64) == 0x7ff0_0000_0000_0000u64 && (bits & 0x000f_ffff_ffff_ffffu64)
        != 0)) by (bit_vector);
}

/// `rank` orders floats as the numbers they are. Between two non-negative
/// floats (sign bit clear) the larger number has the larger bit pattern;
/// between two negative ones the larger number has the smaller bit pattern;
/// every negative float is below every non-negative one but `-0.0`, which
/// ranks with `0.0`. So two non-NaN patterns rank equal exactly when they are
/// the same pattern or both zeros.
pub proof fn lemma_rank_is_float_order(a: u64, b: u64)
    requires
        !is_nan(a),
        !is_nan(b),
    ensures
        a < SIGN_BIT && b < SIGN_BIT ==> (rank(a) < rank(b) <==> a < b),
        a >= SIGN_BIT && b >= SIGN_BIT ==> (rank(a) < rank(b) <==> a > b),
        a >= SIGN_BIT && b < SIGN_BIT ==> (rank(a) < rank(b) <==> !(a == SIGN_BIT && b == 0)),
        a >= SIGN_BIT && b < SIGN_BIT ==> rank(a) <= rank(b),
        rank(a) == rank(b) <==> (a == b || ((a == 0 || a == SIGN_BIT) && (b == 0 || b == SIGN_BIT))),
{
}

/// Float equality of two bit patterns: neither is a NaN, and they are the same
/// pattern or both are zeros (`0.0 == -0.0`). Distinct non-zero floats are
/// never equal.
pub proof fn lemma_price_eq_is_float_equality(a: u64, b: u64)
    ensures
        price_eq(a, b) <==> (!is_nan(a) && !is_nan(b) && (a == b || ((a == 0 || a == SIGN_BIT) && (b
            == 0 || b == SIGN_BIT)))),
        price_eq(a, b) ==> price_eq(b, a),
        !is_nan(a) ==> price_eq(a, a),
{
    if !is_nan(a) && !is_nan(b) {
        lemma_rank_is_float_order(a, b);
    }
}

} // verus!
