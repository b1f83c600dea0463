//! Numbers of the language are IEEE-754 binary64 values, carried as their
//! 64-bit patterns. This module decides the comparisons the language needs
//! directly on those patterns.
use vstd::prelude::*;

verus! {

/// Bit pattern of positive zero.
pub const ZERO_BITS: u64 = 0x0000_0000_0000_0000u64;

/// Bit pattern of one.
pub const ONE_BITS: u64 = 0x3FF0_0000_0000_0000u64;

/// Mask of the sign bit.
pub const SIGN_MASK: u64 = 0x8000_0000_0000_0000u64;

/// Mask of the exponent and fraction fields (everything but the sign).
pub const MAGNITUDE_MASK: u64 = 0x7FFF_FFFF_FFFF_FFFFu64;

/// Mask of the exponent field.
pub const EXPONENT_MASK: u64 = 0x7FF0_0000_0000_0000u64;

/// Mask of the fraction field.
pub const FRACTION_MASK: u64 = 0x000F_FFFF_FFFF_FFFFu64;

/// A pattern is NaN when its exponent field is all ones and its fraction is not zero.
pub open spec fn spec_is_nan(b: u64) -> bool {
    (b & EXPONENT_MASK) == EXPONENT_MASK && (b & FRACTION_MASK) != 0
}

/// A pattern is a zero (positive or negative) when all bits but the sign are clear.
pub open spec fn spec_is_zero(b: u64) -> bool {
    (b & MAGNITUDE_MASK) == 0
}

/// Negation flips the sign bit, for every pattern (NaN included).
pub open spec fn spec_neg(b: u64) -> u64 {
    b ^ SIGN_MASK
}

/// IEEE equality: NaN equals nothing, the two zeros are equal, and any
/// other two values are equal exactly when their patterns are.
pub open spec fn spec_num_eq(a: u64, b: u64) -> bool {
    !spec_is_nan(a) && !spec_is_nan(b) && (a == b || (spec_is_zero(a) && spec_is_zero(b)))
}

/// Maps a pattern to an unsigned key whose order is the order of the
/// values it encodes (apart from NaN, and with negative zero just below
/// positive zero).
pub open spec fn spec_order_key(b: u64) -> u64 {
    if (b & SIGN_MASK) != 0 {
        !b
    } else {
        b | SIGN_MASK
    }
}

/// IEEE `<`: false when either side is NaN or both are zeros.
pub open spec fn spec_num_lt(a: u64, b: u64) -> bool {
    &&& !spec_is_nan(a)
    &&& !spec_is_nan(b)
    &&& !(spec_is_zero(a) && spec_is_zero(b))
    &&& spec_order_key(a) < spec_order_key(b)
}

/// IEEE `<=`.
pub open spec fn spec_num_le(a: u64, b: u64) -> bool {
    spec_num_lt(a, b) || spec_num_eq(a, b)
}

/// Truthiness of a number: it differs from zero (NaN differs from zero).
pub open spec fn spec_num_truthy(b: u64) -> bool {
    !spec_is_zero(b)
}

/// The pattern of `1.0` for a true comparison, of `0.0` for a false one.
pub open spec fn spec_bool_number(b: bool) -> u64 {
    if b {
        ONE_BITS
    } else {
        ZERO_BITS
    }
}

/// Whether the pattern is a NaN.
pub fn is_nan(b: u64) -> (r: bool)
    ensures
        r == spec_is_nan(b),
{
    (b & EXPONENT_MASK) == EXPONENT_MASK && (b & FRACTION_MASK) != 0
}

/// Whether the pattern is a zero of either sign.
pub fn is_zero(b: u64) -> (r: bool)
    ensures
        r == spec_is_zero(b),
{
    (b & MAGNITUDE_MASK) == 0
}

/// The pattern of the negated value.
pub fn neg(b: u64) -> (r: u64)
    ensures
        r == spec_neg(b),
{
    b ^ SIGN_MASK
}

/// IEEE equality of two values.
pub fn num_eq(a: u64, b: u64) -> (r: bool)
    ensures
        r == spec_num_eq(a, b),
{
    !is_nan(a) && !is_nan(b) && (a == b || (is_zero(a) && is_zero(b)))
}

fn order_key(b: u64) -> (r: u64)
    ensures
        r == spec_order_key(b),
{
    if (b & SIGN_MASK) != 0 {
        !b
    } else {
        b | SIGN_MASK
    }
}

/// IEEE `<` of two values.
pub fn num_lt(a: u64, b: u64) -> (r: bool)
    ensures
        r == spec_num_lt(a, b),
{
    !is_nan(a) && !is_nan(b) && !(is_zero(a) && is_zero(b)) && order_key(a) < order_key(b)
}

/// IEEE `<=` of two values.
pub fn num_le(a: u64, b: u64) -> (r: bool)
    ensures
        r == spec_num_le(a, b),
{
    num_lt(a, b) || num_eq(a, b)
}

/// Whether a number counts as true: it differs from zero.
pub fn num_truthy(b: u64) -> (r: bool)
    ensures
        r == spec_num_truthy(b),
{
    !is_zero(b)
}

/// The number that stands for a comparison result: one or zero.
pub fn bool_number(b: bool) -> (r: u64)
    ensures
        r == spec_bool_number(b),
{
    if b {
        ONE_BITS
    } else {
        ZERO_BITS
    }
}

/// Equality is symmetric.
pub proof fn lemma_num_eq_symmetric(a: u64, b: u64)
    ensures
        spec_num_eq(a, b) == spec_num_eq(b, a),
{
}

/// No NaN equals itself; every other value does.
pub proof fn lemma_num_eq_reflexive_unless_nan(a: u64)
    ensures
        spec_num_eq(a, a) == !spec_is_nan(a),
{
}

/// `<` is irreflexive and asymmetric.
pub proof fn lemma_num_lt_asymmetric(a: u64, b: u64)
    ensures
        !spec_num_lt(a, a),
        spec_num_lt(a, b) ==> !spec_num_lt(b, a),
{
}

/// Among values that are not NaN, exactly one of `a < b`, `a == b`, `b < a` holds.
pub proof fn lemma_num_trichotomy(a: u64, b: u64)
    requires
        !spec_is_nan(a),
        !spec_is_nan(b),
    ensures
        spec_num_lt(a, b) || spec_num_eq(a, b) || spec_num_lt(b, a),
        !(spec_num_lt(a, b) && spec_num_eq(a, b)),
{
    if spec_order_key(a) == spec_order_key(b) {
        assert(a == b) by (bit_vector)
            requires
                (if (a & 0x8000_0000_0000_0000u64) != 0 { !a } else { a | 0x8000_0000_0000_0000u64 })
                    == (if (b & 0x8000_0000_0000_0000u64) != 0 { !b } else { b | 0x8000_0000_0000_0000u64 }),
        ;
    }
    if spec_num_eq(a, b) && !(a == b) {
        assert(spec_is_zero(a) && spec_is_zero(b));
    }
}

/// Negation turns `a < b` into `-b < -a`.
pub proof fn lemma_neg_reverses_order(a: u64, b: u64)
    requires
        spec_num_lt(a, b),
    ensures
        spec_num_lt(spec_neg(b), spec_neg(a)),
{
    assert(spec_is_nan(spec_neg(a)) == spec_is_nan(a) && spec_is_zero(spec_neg(a)) == spec_is_zero(a)) by (bit_vector);
    assert(spec_is_nan(spec_neg(b)) == spec_is_nan(b) && spec_is_zero(spec_neg(b)) == spec_is_zero(b)) by (bit_vector);
    assert(!(spec_is_zero(a) && spec_is_zero(b)) && spec_order_key(a) < spec_order_key(b) ==> spec_order_key(spec_neg(b)) < spec_order_key(spec_neg(a))) by (bit_vector);
}

} // verus!
