//! The order of double-precision numbers, by their bit patterns.
use vstd::arithmetic::power2::{
    lemma2_to64, lemma_pow2_adds, lemma_pow2_pos, lemma_pow2_strictly_increases, pow2,
};
use vstd::prelude::*;

verus! {

/// The bit of the sign, which stands above all others.
pub const SIGN: u64 = 0x8000_0000_0000_0000;

/// The lowest bit of the exponent, which stands above the fraction.
pub const FRACTION: u64 = 0x10_0000_0000_0000;

/// The bits of an infinity without its sign. What lies above them is no number.
pub const INFINITE: u64 = 0x7ff0_0000_0000_0000;

/// A double-precision number by its bit pattern, as IEEE 754 lays it out.
#[derive(Clone, Copy, PartialEq, Eq, Structural, Debug)]
pub struct Binary64 {
    /// The bit pattern.
    pub bits: u64,
}

/// The number of which the bits below the sign are `low`, in units of the smallest number above
/// zero. An infinity counts as the number that its bits would denote if exponents went one further.
pub open spec fn magnitude(low: int) -> int {
    let exponent = low / FRACTION as int;
    let fraction = low % FRACTION as int;
    if exponent == 0 {
        fraction
    } else {
        (FRACTION + fraction) * pow2((exponent - 1) as nat)
    }
}

impl Binary64 {
    /// The bits below the sign.
    pub open spec fn low(self) -> int {
        if self.bits >= SIGN {
            self.bits - SIGN
        } else {
            self.bits as int
        }
    }

    /// Whether the pattern denotes no number.
    pub open spec fn is_nan(self) -> bool {
        self.low() > INFINITE
    }

    /// The number denoted, in units of the smallest number above zero.
    pub open spec fn number(self) -> int {
        if self.bits >= SIGN {
            -magnitude(self.low())
        } else {
            magnitude(self.low())
        }
    }

    /// Whether both patterns denote numbers and the first is not the greater one.
    pub open spec fn is_at_most(self, other: Binary64) -> bool {
        !self.is_nan() && !other.is_nan() && self.number() <= other.number()
    }

    /// The place of the pattern among all patterns, by rising number; the two zeros share theirs.
    pub open spec fn place(self) -> int {
        if self.bits >= SIGN {
            SIGN - self.low()
        } else {
            SIGN + self.low()
        }
    }

    /// Whether the pattern denotes no number.
    pub fn nan(self) -> (r: bool)
        ensures
            r == self.is_nan(),
    {
        if self.bits >= SIGN {
            self.bits - SIGN > INFINITE
        } else {
            self.bits > INFINITE
        }
    }

    /// The place of the pattern among all patterns.
    pub fn rank(self) -> (r: u64)
        ensures
            r == self.place(),
    {
        if self.bits >= SIGN {
            SIGN - (self.bits - SIGN)
        } else {
            SIGN + self.bits
        }
    }

    /// Whether both patterns denote numbers and the first is not the greater one.
    pub fn at_most(self, other: Binary64) -> (r: bool)
        ensures
            r == self.is_at_most(other),
    {
        proof {
            law_places_order_numbers(self, other);
        }
        !self.nan() && !other.nan() && self.rank() <= other.rank()
    }
}

/// A pattern with larger bits below the sign denotes a larger number.
proof fn lemma_magnitude_increases(a: int, b: int)
    requires
        0 <= a < b < SIGN,
    ensures
        0 <= magnitude(a) < magnitude(b),
        magnitude(0) == 0,
{
    let unit = FRACTION as int;
    let (ea, fa) = (a / unit, a % unit);
    let (eb, fb) = (b / unit, b % unit);
    assert(0 <= fa < unit && 0 <= fb < unit && 0 <= ea && 0 <= eb);
    assert(a == ea * unit + fa && b == eb * unit + fb) by {
        vstd::arithmetic::div_mod::lemma_fundamental_div_mod(a, unit);
        vstd::arithmetic::div_mod::lemma_fundamental_div_mod(b, unit);
    }
    if ea > 0 {
        lemma_pow2_pos((ea - 1) as nat);
        assert((unit + fa) * pow2((ea - 1) as nat) >= 0) by (nonlinear_arith)
            requires
                unit + fa >= 0,
                pow2((ea - 1) as nat) > 0,
        ;
    }
    if ea == eb {
        assert(fa < fb);
        if ea > 0 {
            assert((unit + fa) * pow2((ea - 1) as nat) < (unit + fb) * pow2((ea - 1) as nat))
                by (nonlinear_arith)
                requires
                    fa < fb,
                    pow2((ea - 1) as nat) > 0,
            ;
        }
    } else {
        assert(ea < eb);
        let pa = if ea == 0 {
            1
        } else {
            pow2((ea - 1) as nat)
        };
        let pb = pow2((eb - 1) as nat);
        assert(pb >= 1 && (ea > 0 ==> pb >= 2 * pa)) by {
            lemma_pow2_pos((eb - 1) as nat);
            if ea > 0 {
                lemma2_to64();
                lemma_pow2_adds(1, (ea - 1) as nat);
                if ea < eb - 1 {
                    lemma_pow2_strictly_increases(ea as nat, (eb - 1) as nat);
                }
            }
        }
        assert((unit + fb) * pb >= unit * pb) by (nonlinear_arith)
            requires
                fb >= 0,
                pb >= 1,
        ;
        if ea == 0 {
            assert(unit * pb >= unit) by (nonlinear_arith)
                requires
                    unit > 0,
                    pb >= 1,
            ;
        } else {
            assert((unit + fa) * pa < unit * pb) by (nonlinear_arith)
                requires
                    0 <= fa < unit,
                    pa > 0,
                    pb >= 2 * pa,
            ;
        }
    }
}

/// Numbers are ordered as their places are: of two patterns that denote numbers, the one with the
/// larger number has the larger place, and equal numbers share one place.
pub proof fn law_places_order_numbers(a: Binary64, b: Binary64)
    ensures
        a.place() <= b.place() <==> a.number() <= b.number(),
        a.place() == b.place() <==> a.number() == b.number(),
{
    lemma_magnitude_increases(0, 1);
    let (x, y) = (a.low(), b.low());
    if x < y {
        lemma_magnitude_increases(x, y);
    } else if y < x {
        lemma_magnitude_increases(y, x);
    }
    if x > 0 {
        lemma_magnitude_increases(0, x);
    }
    if y > 0 {
        lemma_magnitude_increases(0, y);
    }
}

/// A measured number: its bit pattern, and how it is written.
#[derive(Debug)]
pub struct Quantity {
    /// The number.
    pub value: Binary64,
    /// The number as it is written.
    pub text: String,
}

impl Clone for Quantity {
    fn clone(&self) -> (r: Quantity)
        ensures
            r == *self,
    {
        Quantity { value: self.value, text: self.text.clone() }
    }
}

} // verus!
