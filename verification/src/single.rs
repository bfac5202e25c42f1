//! Single-precision numbers, carried as their IEEE 754 bit patterns.
//!
//! The number itself is computed with elsewhere; here it is handed on and its
//! magnitude is compared with fixed limits.
use vstd::arithmetic::power2::*;
use vstd::prelude::*;

verus! {

/// A single-precision number by its bit pattern: a sign bit, eight exponent
/// bits and twenty-three fraction bits, from the highest bit down.
#[derive(Clone, Copy, Debug, PartialEq, Eq, Structural)]
pub struct Single {
    pub bits: u32,
}

/// The bit pattern of a magnitude, which is the pattern without the sign bit.
pub open spec fn magnitude_bits(bits: u32) -> int {
    bits as int % 0x8000_0000
}

/// The magnitude with the pattern `m`, in units of the smallest positive
/// number (2 to the power -149). An infinity ranks above every finite number.
pub open spec fn scaled(m: int) -> int {
    let exponent = m / 0x80_0000;
    let fraction = m % 0x80_0000;
    if exponent == 0 {
        fraction
    } else {
        (0x80_0000 + fraction) * pow2((exponent - 1) as nat)
    }
}

impl Single {
    /// Whether this is not a number.
    pub open spec fn is_nan(self) -> bool {
        magnitude_bits(self.bits) > 0x7f80_0000
    }

    /// The magnitude, in units of the smallest positive number.
    pub open spec fn magnitude(self) -> int {
        scaled(magnitude_bits(self.bits))
    }
}

/// The pattern of zero.
pub const ZERO: u32 = 0;

/// The pattern of the number nearest to one millionth.
pub const ONE_MILLIONTH: u32 = 0x3586_37bd;

/// The pattern of the number nearest to one thousandth.
pub const ONE_THOUSANDTH: u32 = 0x3a83_126f;

/// Whether the magnitude of `x` is below that of `limit`; of what is not a
/// number, nothing is.
pub fn is_smaller(x: Single, limit: Single) -> (r: bool)
    requires
        !limit.is_nan(),
    ensures
        r == (!x.is_nan() && x.magnitude() < limit.magnitude()),
{
    proof {
        lemma_scaled_order(magnitude_bits(x.bits), magnitude_bits(limit.bits));
    }
    x.bits % 0x8000_0000 < limit.bits % 0x8000_0000
}

/// Whether the magnitude of `x` is above that of `limit`; of what is not a
/// number, nothing is.
pub fn is_larger(x: Single, limit: Single) -> (r: bool)
    requires
        !limit.is_nan(),
    ensures
        r == (!x.is_nan() && x.magnitude() > limit.magnitude()),
{
    proof {
        lemma_scaled_order(magnitude_bits(x.bits), magnitude_bits(limit.bits));
    }
    let m: u32 = x.bits % 0x8000_0000;
    m <= 0x7f80_0000 && limit.bits % 0x8000_0000 < m
}

/// Patterns of magnitudes are ordered as the magnitudes are.
pub proof fn lemma_scaled_order(a: int, b: int)
    requires
        0 <= a < 0x8000_0000,
        0 <= b < 0x8000_0000,
    ensures
        a < b <==> scaled(a) < scaled(b),
        a > b <==> scaled(a) > scaled(b),
{
    if a < b {
        lemma_scaled_increases(a, b);
    } else if b < a {
        lemma_scaled_increases(b, a);
    }
}

proof fn lemma_scaled_increases(a: int, b: int)
    requires
        0 <= a < b < 0x8000_0000,
    ensures
        scaled(a) < scaled(b),
{
    let ea = a / 0x80_0000;
    let fa = a % 0x80_0000;
    let eb = b / 0x80_0000;
    let fb = b % 0x80_0000;
    if ea == eb {
        if ea > 0 {
            let p = pow2((ea - 1) as nat) as int;
            lemma_pow2_pos((ea - 1) as nat);
            assert((0x80_0000 + fa) * p < (0x80_0000 + fb) * p) by (nonlinear_arith)
                requires
                    fa < fb,
                    p > 0,
            ;
        }
    } else {
        let p = pow2((eb - 1) as nat) as int;
        lemma_pow2_pos((eb - 1) as nat);
        assert((0x80_0000 + fb) * p >= 0x80_0000 * p) by (nonlinear_arith)
            requires
                fb >= 0,
                p > 0,
        ;
        if ea > 0 {
            let q = pow2((ea - 1) as nat) as int;
            lemma_pow2_pos((ea - 1) as nat);
            lemma_pow2_unfold(ea as nat);
            assert(p >= 2 * q) by {
                if ea < eb - 1 {
                    lemma_pow2_strictly_increases(ea as nat, (eb - 1) as nat);
                }
            }
            assert((0x80_0000 + fa) * q < 0x80_0000 * p) by (nonlinear_arith)
                requires
                    0 <= fa < 0x80_0000,
                    q > 0,
                    p >= 2 * q,
            ;
        }
    }
}

/// The two limits are what their names say, to within half of the last bit.
pub proof fn law_limits_are_nearest()
    ensures
        ({
            let half = pow2(105) as int * 1_000_000;
            -half <= (Single { bits: ONE_MILLIONTH }).magnitude() * 1_000_000 - pow2(149) <= half
        }),
        ({
            let half = pow2(115) as int * 1_000;
            -half <= (Single { bits: ONE_THOUSANDTH }).magnitude() * 1_000 - pow2(149) <= half
        }),
{
    let u = pow2(105) as int;
    lemma_pow2_pos(105);
    lemma_pow2_adds(105, 44);
    lemma_pow2_unfold(106);
    lemma2_to64_rest();
    assert((Single { bits: ONE_MILLIONTH }).magnitude() == 8_796_093 * pow2(106));
    assert(pow2(149) == u * 0x1000_0000_0000);
    let v = pow2(115) as int;
    lemma_pow2_pos(115);
    lemma_pow2_adds(115, 34);
    lemma_pow2_unfold(116);
    assert((Single { bits: ONE_THOUSANDTH }).magnitude() == 8_589_935 * pow2(116));
    assert(pow2(149) == v * 0x4_0000_0000);
}

} // verus!
