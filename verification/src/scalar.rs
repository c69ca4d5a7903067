//! Scalars: real numbers in single precision, carried as their IEEE-754
//! bit patterns.
//!
//! Arithmetic on scalars is the caller's. What is decided here is how two
//! magnitudes compare, which the encoding settles without any rounding.
use vstd::arithmetic::power2::{lemma_pow2_pos, lemma_pow2_strictly_increases, lemma_pow2_unfold, pow2};
use vstd::prelude::*;

verus! {

/// The bit pattern of an IEEE-754 single: one sign bit, eight exponent
/// bits, twenty-three fraction bits.
pub type Scalar = u32;

/// Positive zero.
pub const ZERO: Scalar = 0;

/// The sign bit.
pub const SIGN_BIT: Scalar = 0x8000_0000;

/// The magnitude bits of infinity. Magnitudes below it are finite, those
/// above it are not numbers.
pub const INFINITY_BITS: Scalar = 0x7f80_0000;

/// Two to the number of fraction bits: the weight of the leading bit that
/// normal numbers leave implicit.
pub const HIDDEN_BIT: Scalar = 0x0080_0000;

/// The pattern with its sign bit cleared.
pub open spec fn magnitude_bits(x: Scalar) -> Scalar {
    if x >= SIGN_BIT {
        (x - SIGN_BIT) as Scalar
    } else {
        x
    }
}

/// `x` is a number other than an infinity.
pub open spec fn is_finite(x: Scalar) -> bool {
    magnitude_bits(x) < INFINITY_BITS
}

/// `x` is not a number.
pub open spec fn is_nan(x: Scalar) -> bool {
    magnitude_bits(x) > INFINITY_BITS
}

/// For finite `x`, the absolute value of `x` in units of the smallest
/// positive single, two to the power -149: an integer, since every finite
/// single is a multiple of that unit. An infinity gets two to the power
/// 277, above every finite magnitude.
pub open spec fn scaled_magnitude(x: Scalar) -> nat {
    let exponent = (magnitude_bits(x) / HIDDEN_BIT) as nat;
    let fraction = (magnitude_bits(x) % HIDDEN_BIT) as nat;
    if exponent == 0 {
        fraction
    } else {
        ((HIDDEN_BIT + fraction) * pow2((exponent - 1) as nat)) as nat
    }
}

/// Magnitudes are ordered as their bit patterns are.
pub proof fn lemma_magnitude_order(x: Scalar, y: Scalar)
    ensures
        magnitude_bits(x) < magnitude_bits(y) ==> scaled_magnitude(x) < scaled_magnitude(y),
        magnitude_bits(x) == magnitude_bits(y) ==> scaled_magnitude(x) == scaled_magnitude(y),
        magnitude_bits(x) <= magnitude_bits(y) <==> scaled_magnitude(x) <= scaled_magnitude(y),
{
    lemma_magnitude_increases(x, y);
    lemma_magnitude_increases(y, x);
}

proof fn lemma_magnitude_increases(x: Scalar, y: Scalar)
    ensures
        magnitude_bits(x) < magnitude_bits(y) ==> scaled_magnitude(x) < scaled_magnitude(y),
{
    if magnitude_bits(x) < magnitude_bits(y) {
        let hidden = HIDDEN_BIT as int;
        let ex = (magnitude_bits(x) / HIDDEN_BIT) as nat;
        let fx = (magnitude_bits(x) % HIDDEN_BIT) as int;
        let ey = (magnitude_bits(y) / HIDDEN_BIT) as nat;
        let fy = (magnitude_bits(y) % HIDDEN_BIT) as int;
        assert(ex <= ey);
        assert(ey >= 1 || ex == 0);
        if ex == ey {
            assert(fx < fy);
            if ex > 0 {
                let unit = pow2((ex - 1) as nat) as int;
                lemma_pow2_pos((ex - 1) as nat);
                assert((hidden + fx) * unit < (hidden + fy) * unit) by (nonlinear_arith)
                    requires
                        fx < fy,
                        unit > 0,
                ;
            }
        } else {
            let unit = pow2((ey - 1) as nat) as int;
            lemma_pow2_pos((ey - 1) as nat);
            assert(hidden * unit <= (hidden + fy) * unit) by (nonlinear_arith)
                requires
                    fy >= 0,
                    unit > 0,
                    hidden > 0,
            ;
            if ex == 0 {
                assert(hidden * 1 <= hidden * unit) by (nonlinear_arith)
                    requires
                        unit >= 1,
                        hidden > 0,
                ;
            } else {
                let below = pow2((ex - 1) as nat) as int;
                lemma_pow2_pos((ex - 1) as nat);
                lemma_pow2_unfold(ex);
                assert(pow2(ex) == 2 * below);
                if ex < ey - 1 {
                    lemma_pow2_strictly_increases(ex, (ey - 1) as nat);
                }
                assert(2 * below <= unit);
                assert((hidden + fx) * below < hidden * unit) by (nonlinear_arith)
                    requires
                        0 <= fx < hidden,
                        below > 0,
                        2 * below <= unit,
                ;
            }
        }
    }
}

/// `x` is a number greater than `bound`, for a `bound` that is finite and
/// not negative: `x` has its sign bit clear, is not a NaN, and has the
/// larger magnitude.
pub open spec fn exceeds(x: Scalar, bound: Scalar) -> bool {
    &&& x < SIGN_BIT
    &&& !is_nan(x)
    &&& scaled_magnitude(x) > scaled_magnitude(bound)
}

/// In terms of bit patterns, a number greater than a finite bound that is
/// not negative is a pattern above the bound's, up to that of positive
/// infinity.
pub proof fn lemma_exceeds_by_bits(x: Scalar, bound: Scalar)
    requires
        bound < INFINITY_BITS,
    ensures
        exceeds(x, bound) <==> bound < x <= INFINITY_BITS,
{
    lemma_magnitude_order(x, bound);
    lemma_magnitude_order(bound, x);
}

/// In terms of bit patterns, a finite number no larger in absolute value
/// than a finite bound is a pattern whose magnitude bits do not exceed the
/// bound's.
pub proof fn lemma_magnitude_at_most_by_bits(x: Scalar, bound: Scalar)
    requires
        is_finite(bound),
    ensures
        is_finite(x) && scaled_magnitude(x) <= scaled_magnitude(bound) <==> magnitude_bits(x)
            <= magnitude_bits(bound),
{
    lemma_magnitude_order(x, bound);
}

/// Clears the sign bit.
pub fn magnitude(x: Scalar) -> (m: Scalar)
    ensures
        m == magnitude_bits(x),
{
    if x >= SIGN_BIT {
        x - SIGN_BIT
    } else {
        x
    }
}

/// Whether `x` is finite and no larger in absolute value than the finite
/// `bound`.
pub fn magnitude_at_most(x: Scalar, bound: Scalar) -> (ok: bool)
    requires
        is_finite(bound),
    ensures
        ok <==> is_finite(x) && scaled_magnitude(x) <= scaled_magnitude(bound),
{
    proof {
        lemma_magnitude_at_most_by_bits(x, bound);
    }
    magnitude(x) <= magnitude(bound)
}

/// Whether `x` is a number greater than `bound`, which is finite and not
/// negative.
pub fn is_greater(x: Scalar, bound: Scalar) -> (ok: bool)
    requires
        bound < INFINITY_BITS,
    ensures
        ok <==> exceeds(x, bound),
{
    proof {
        lemma_exceeds_by_bits(x, bound);
    }
    bound < x && x <= INFINITY_BITS
}

} // verus!
