//! Real numbers by rank.
//!
//! A `Scalar` stands for one IEEE-754 double: take the 64 bits of the double
//! as a signed integer and, if that integer is negative, flip its low 63
//! bits. The result grows exactly as the double does, so `<`, `<=` and `==`
//! on ranks are `<`, `<=` and `==` on the doubles they stand for. Negative
//! zero is folded onto zero before ranking (rank `-1` is therefore never
//! used), and not-a-number has no rank that [`is_number`] accepts.

use vstd::prelude::*;

verus! {

/// The rank of a double.
pub type Scalar = i64;

/// The rank of zero.
pub const ZERO: Scalar = 0;

/// The rank of one.
pub const ONE: Scalar = 0x3ff0_0000_0000_0000;

/// The rank of positive infinity.
pub const INFINITY: Scalar = 0x7ff0_0000_0000_0000;

/// The rank of negative infinity.
pub const NEG_INFINITY: Scalar = -0x7ff0_0000_0000_0001;

/// Whether `s` is the rank of a number: anything from negative to positive
/// infinity, but for the unused rank of negative zero.
pub open spec fn is_number(s: Scalar) -> bool {
    NEG_INFINITY <= s <= INFINITY && s != -1
}

/// The smaller of two ranks, as an integer.
pub open spec fn min_of(a: int, b: int) -> int {
    if a <= b {
        a
    } else {
        b
    }
}

/// The larger of two ranks, as an integer.
pub open spec fn max_of(a: int, b: int) -> int {
    if a >= b {
        a
    } else {
        b
    }
}

/// The rank of the negated number.
///
/// Negating a double flips its sign bit; on ranks that is `-s - 1`, and zero
/// stays zero because negative zero is folded onto it.
pub open spec fn negated(s: int) -> int {
    if s == 0 {
        0
    } else {
        -s - 1
    }
}

/// The smaller of two scalars.
pub fn min(a: Scalar, b: Scalar) -> (r: Scalar)
    ensures
        r == min_of(a as int, b as int),
{
    if a <= b {
        a
    } else {
        b
    }
}

/// The larger of two scalars.
pub fn max(a: Scalar, b: Scalar) -> (r: Scalar)
    ensures
        r == max_of(a as int, b as int),
{
    if a >= b {
        a
    } else {
        b
    }
}

/// The scalar of the negated number.
pub fn neg(s: Scalar) -> (r: Scalar)
    ensures
        r == negated(s as int),
        is_number(s) ==> is_number(r),
{
    if s == 0 {
        0
    } else {
        assert(!s == -s - 1) by (bit_vector);
        !s
    }
}

} // verus!
