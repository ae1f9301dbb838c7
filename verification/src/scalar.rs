//! Engine readings as exact numbers.
//!
//! The physics engine reports positions and velocities in single precision.
//! The controller never computes with such a number: it carries each one as
//! its IEEE 754 binary32 bit pattern and only classifies it (zero, below a
//! limit, strictly between zero and a limit). Every finite binary32 value is
//! a whole multiple of two to the power -149, so a reading is modelled by the
//! integer `value()`, the reading multiplied by two to the power 149.

use vstd::prelude::*;
use vstd::arithmetic::power2::{
    lemma2_to64, lemma_pow2_adds, lemma_pow2_pos, lemma_pow2_strictly_increases,
    lemma_pow2_unfold, pow2,
};

verus! {

/// The model of the whole number `n`: `n` multiplied by two to the power 149.
pub open spec fn units(n: int) -> int {
    n * pow2(149)
}

/// Whole numbers below this bound are exactly representable.
pub const WHOLE_LIMIT: u32 = 0x100_0000;

/// A single-precision number, carried as its bit pattern.
#[derive(Clone, Copy, Debug, PartialEq, Eq, Structural)]
pub struct Scalar {
    pub bits: u32,
}

impl Scalar {
    /// The bit pattern without its sign bit.
    pub open spec fn magnitude_bits(self) -> int {
        self.bits as int % 0x8000_0000
    }

    /// The sign bit is set.
    pub open spec fn negative(self) -> bool {
        self.bits >= 0x8000_0000
    }

    /// The biased exponent field.
    pub open spec fn exponent(self) -> int {
        self.magnitude_bits() / 0x80_0000
    }

    /// The fraction field.
    pub open spec fn fraction(self) -> int {
        self.magnitude_bits() % 0x80_0000
    }

    /// The pattern encodes no number.
    pub open spec fn nan(self) -> bool {
        self.magnitude_bits() > 0x7f80_0000
    }

    /// The absolute value, multiplied by two to the power 149. An infinity is
    /// given a magnitude above that of every finite number.
    pub open spec fn magnitude(self) -> nat {
        if self.exponent() == 0 {
            self.fraction() as nat
        } else {
            ((0x80_0000 + self.fraction()) * pow2((self.exponent() - 1) as nat)) as nat
        }
    }

    /// The number, multiplied by two to the power 149.
    pub open spec fn value(self) -> int {
        if self.negative() {
            -(self.magnitude() as int)
        } else {
            self.magnitude() as int
        }
    }

    /// Magnitudes are ordered as their bit patterns are.
    pub proof fn lemma_magnitude_order(a: Scalar, b: Scalar)
        ensures
            a.magnitude_bits() < b.magnitude_bits() <==> a.magnitude() < b.magnitude(),
            a.magnitude_bits() == b.magnitude_bits() <==> a.magnitude() == b.magnitude(),
    {
        Self::lemma_magnitude_increases(a, b);
        Self::lemma_magnitude_increases(b, a);
    }

    proof fn lemma_magnitude_increases(a: Scalar, b: Scalar)
        ensures
            a.magnitude_bits() < b.magnitude_bits() ==> a.magnitude() < b.magnitude(),
            a.magnitude_bits() == b.magnitude_bits() ==> a.magnitude() == b.magnitude(),
    {
        if a.magnitude_bits() < b.magnitude_bits() {
            let ea = a.exponent();
            let eb = b.exponent();
            let fa = a.fraction();
            let fb = b.fraction();
            assert(ea < eb || (ea == eb && fa < fb));
            if eb > 0 {
                let pb = pow2((eb - 1) as nat);
                lemma_pow2_pos((eb - 1) as nat);
                assert((0x80_0000 + fb) * pb >= 0x80_0000) by (nonlinear_arith)
                    requires
                        pb >= 1,
                        fb >= 0,
                ;
                if ea == eb {
                    assert((0x80_0000 + fa) * pb < (0x80_0000 + fb) * pb) by (nonlinear_arith)
                        requires
                            pb >= 1,
                            fa < fb,
                    ;
                } else if ea > 0 {
                    let pa = pow2((ea - 1) as nat);
                    lemma_pow2_pos((ea - 1) as nat);
                    lemma_pow2_unfold(ea as nat);
                    if ea < eb - 1 {
                        lemma_pow2_strictly_increases(ea as nat, (eb - 1) as nat);
                    }
                    assert(2 * pa <= pb);
                    assert((0x80_0000 + fa) * pa < (0x80_0000 + fb) * pb) by (nonlinear_arith)
                        requires
                            pa >= 1,
                            2 * pa <= pb,
                            0 <= fa < 0x80_0000,
                            fb >= 0,
                    ;
                }
            }
        }
    }

    /// A pattern with a nonzero exponent field whose significand is `n`
    /// shifted left by `shift` digits encodes the whole number `n`.
    pub proof fn lemma_whole_magnitude(self, n: nat, shift: nat)
        requires
            self.exponent() >= 1,
            0x80_0000 + self.fraction() == n * pow2(shift),
            shift + self.exponent() - 1 == 149,
        ensures
            self.magnitude() == units(n as int),
    {
        let rest = (self.exponent() - 1) as nat;
        lemma_pow2_adds(shift, rest);
        assert(n * pow2(shift) * pow2(rest) == n * (pow2(shift) * pow2(rest)))
            by (nonlinear_arith);
    }

    pub fn from_bits(bits: u32) -> (s: Scalar)
        ensures
            s.bits == bits,
    {
        Scalar { bits }
    }

    pub fn to_bits(&self) -> (bits: u32)
        ensures
            bits == self.bits,
    {
        self.bits
    }

    /// Positive zero.
    pub fn zero() -> (s: Scalar)
        ensures
            s.bits == 0,
            !s.nan(),
            s.value() == 0,
    {
        Scalar { bits: 0 }
    }

    /// The whole number `n`, which is small enough to be represented exactly.
    pub fn from_whole(n: u32) -> (s: Scalar)
        requires
            n < WHOLE_LIMIT,
        ensures
            !s.nan(),
            !s.negative(),
            s.value() == units(n as int),
    {
        if n == 0 {
            return Scalar { bits: 0 };
        }
        let mut significand: u32 = n;
        let mut shift: u32 = 0;
        proof {
            lemma2_to64();
        }
        while significand < 0x80_0000
            invariant
                1 <= n,
                shift <= 23,
                significand == n * pow2(shift as nat),
                significand < 0x100_0000,
            decreases 23 - shift,
        {
            proof {
                lemma2_to64();
                lemma_pow2_unfold((shift + 1) as nat);
                assert(n * pow2(shift as nat) >= pow2(shift as nat)) by (nonlinear_arith)
                    requires
                        n >= 1,
                ;
                assert(n * (2 * pow2(shift as nat)) == (n * pow2(shift as nat)) * 2)
                    by (nonlinear_arith);
            }
            significand = significand * 2;
            shift = shift + 1;
        }
        let exponent: u32 = 150 - shift;
        let s = Scalar { bits: exponent * 0x80_0000 + (significand - 0x80_0000) };
        proof {
            assert(s.bits == exponent * 0x80_0000 + (significand - 0x80_0000));
            assert(s.magnitude_bits() == s.bits);
            assert(s.exponent() == exponent);
            assert(s.fraction() == significand - 0x80_0000);
            s.lemma_whole_magnitude(n as nat, shift as nat);
        }
        s
    }

    /// Whether the pattern encodes no number.
    pub fn is_nan(&self) -> (r: bool)
        ensures
            r == self.nan(),
    {
        self.bits % 0x8000_0000 > 0x7f80_0000
    }

    /// Whether the number is zero, of either sign.
    pub fn is_zero(&self) -> (r: bool)
        ensures
            r == (self.value() == 0),
    {
        proof {
            Self::lemma_magnitude_order(*self, Scalar { bits: 0 });
        }
        self.bits % 0x8000_0000 == 0
    }

    /// Whether the absolute value lies strictly below that of `limit`. No
    /// comparison with a pattern that encodes no number holds.
    pub fn abs_lt(&self, limit: &Scalar) -> (r: bool)
        ensures
            r == (!self.nan() && !limit.nan() && self.magnitude() < limit.magnitude()),
    {
        proof {
            Self::lemma_magnitude_order(*self, *limit);
        }
        !self.is_nan() && !limit.is_nan() && self.bits % 0x8000_0000 < limit.bits % 0x8000_0000
    }

    /// Whether the number lies strictly between zero and `limit`. No
    /// comparison with a pattern that encodes no number holds.
    pub fn is_positive_below(&self, limit: &Scalar) -> (r: bool)
        ensures
            r == (!self.nan() && !limit.nan() && 0 < self.value() < limit.value()),
    {
        proof {
            Self::lemma_magnitude_order(*self, *limit);
            Self::lemma_magnitude_order(*self, Scalar { bits: 0 });
        }
        !self.is_nan() && !limit.is_nan() && self.bits < 0x8000_0000 && limit.bits < 0x8000_0000
            && 0 < self.bits && self.bits < limit.bits
    }
}

/// A position or a velocity in the plane of the table.
#[derive(Clone, Copy, Debug, PartialEq, Eq, Structural)]
pub struct Vector {
    pub x: Scalar,
    pub y: Scalar,
}

impl Vector {
    /// Both components are zero, of either sign.
    pub open spec fn at_rest(self) -> bool {
        self.x.value() == 0 && self.y.value() == 0
    }

    /// Both components are numbers whose magnitudes lie strictly below
    /// `bound`.
    pub open spec fn below(self, bound: int) -> bool {
        &&& !self.x.nan() && self.x.magnitude() < bound
        &&& !self.y.nan() && self.y.magnitude() < bound
    }

    /// Both components are numbers whose absolute values lie strictly below
    /// that of `limit`.
    pub open spec fn within(self, limit: Scalar) -> bool {
        !limit.nan() && self.below(limit.magnitude() as int)
    }

    pub fn new(x: Scalar, y: Scalar) -> (v: Vector)
        ensures
            v == (Vector { x, y }),
    {
        Vector { x, y }
    }

    /// The vector whose components are both positive zero.
    pub fn zero() -> (v: Vector)
        ensures
            v == (Vector { x: Scalar { bits: 0 }, y: Scalar { bits: 0 } }),
            v.at_rest(),
    {
        Vector { x: Scalar::zero(), y: Scalar::zero() }
    }

    pub fn is_zero(&self) -> (r: bool)
        ensures
            r == self.at_rest(),
    {
        self.x.is_zero() && self.y.is_zero()
    }

    pub fn is_within(&self, limit: &Scalar) -> (r: bool)
        ensures
            r == self.within(*limit),
    {
        self.x.abs_lt(limit) && self.y.abs_lt(limit)
    }
}

} // verus!
