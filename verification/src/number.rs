//! Real-number parameters of the network, held without rounding.

use std::rc::Rc;
use vstd::prelude::*;

verus! {

/// A double-precision number, held as its IEEE 754 bit pattern.
#[derive(Clone, Copy, PartialEq, Eq, Debug, Structural)]
pub struct Real {
    pub bits: u64,
}

/// A single-precision number, held as its IEEE 754 bit pattern.
#[derive(Clone, Copy, PartialEq, Eq, Debug, Structural)]
pub struct Real32 {
    pub bits: u32,
}

impl Real {
    pub fn from_bits(bits: u64) -> (r: Real)
        ensures
            r == (Real { bits }),
    {
        Real { bits }
    }

    /// Neither below zero nor above one. The patterns of positive numbers grow with the number,
    /// those of negative numbers with its magnitude; a pattern that is no number is neither below
    /// nor above anything.
    pub open spec fn within_unit(self) -> bool {
        &&& !(ONE < self.bits && self.bits <= INFINITY_BITS)
        &&& !(SIGN_BIT < self.bits && self.bits <= SIGN_BIT + INFINITY_BITS)
    }

    /// Whether the number is neither below zero nor above one.
    pub fn is_within_unit(&self) -> (r: bool)
        ensures
            r == self.within_unit(),
    {
        !(ONE < self.bits && self.bits <= INFINITY_BITS) && !(SIGN_BIT < self.bits && self.bits
            <= SIGN_BIT + INFINITY_BITS)
    }
}

/// Two to a whole power, which may be negative.
pub open spec fn power_of_two(e: int) -> real
    decreases if e < 0 { -e } else { e },
{
    if e == 0 {
        1real
    } else if e > 0 {
        2real * power_of_two(e - 1)
    } else {
        power_of_two(e + 1) / 2real
    }
}

/// The real number that a pattern of a finite double stands for: a sign, eleven bits of exponent
/// and fifty-two bits of fraction.
pub open spec fn double(bits: u64) -> real {
    let magnitude = bits as int % 0x8000_0000_0000_0000;
    let exponent = magnitude / 0x10_0000_0000_0000;
    let fraction = magnitude % 0x10_0000_0000_0000;
    let size = if exponent == 0 {
        (fraction as real) * power_of_two(-1074)
    } else {
        ((0x10_0000_0000_0000 + fraction) as real) * power_of_two(exponent - 1075)
    };
    if bits >= SIGN_BIT {
        -size
    } else {
        size
    }
}

/// The pattern of positive infinity.
pub const INFINITY_BITS: u64 = 0x7FF0_0000_0000_0000;

/// The pattern of negative zero.
pub const SIGN_BIT: u64 = 0x8000_0000_0000_0000;

/// 0.0
pub const ZERO: u64 = 0;

/// 1.0
pub const ONE: u64 = 0x3FF0_0000_0000_0000;

/// 2.0
pub const TWO: u64 = 0x4000_0000_0000_0000;

/// 4.0
pub const FOUR: u64 = 0x4010_0000_0000_0000;

/// A double-precision scalar and how it is obtained.
#[derive(Debug)]
pub enum Scalar {
    /// A given number.
    Literal(Real),
    /// A count, converted to a number.
    Count(usize),
    /// A count, converted to a single-precision number.
    SingleCount(usize),
    Neg(Rc<Scalar>),
    Sqrt(Rc<Scalar>),
    Exp(Rc<Scalar>),
    Ln(Rc<Scalar>),
    Sub(Rc<Scalar>, Rc<Scalar>),
    Mul(Rc<Scalar>, Rc<Scalar>),
    /// The base raised to the exponent.
    Pow(Rc<Scalar>, Real),
}

/// Another handle on what `pointer` points at, through `Rc`'s `Clone`, which the standard library
/// documents to make another pointer to the same allocation.
#[verifier::external_body]
pub(crate) fn share<T>(pointer: &Rc<T>) -> (r: Rc<T>)
    ensures
        r == *pointer,
{
    pointer.clone()
}

impl Clone for Scalar {
    fn clone(&self) -> (r: Self)
        ensures
            r == *self,
    {
        match self {
            Scalar::Literal(v) => Scalar::Literal(*v),
            Scalar::Count(n) => Scalar::Count(*n),
            Scalar::SingleCount(n) => Scalar::SingleCount(*n),
            Scalar::Neg(a) => Scalar::Neg(share(a)),
            Scalar::Sqrt(a) => Scalar::Sqrt(share(a)),
            Scalar::Exp(a) => Scalar::Exp(share(a)),
            Scalar::Ln(a) => Scalar::Ln(share(a)),
            Scalar::Sub(a, b) => Scalar::Sub(share(a), share(b)),
            Scalar::Mul(a, b) => Scalar::Mul(share(a), share(b)),
            Scalar::Pow(a, e) => Scalar::Pow(share(a), *e),
        }
    }
}

impl Scalar {
    pub open spec fn literal_expr(bits: u64) -> Scalar {
        Scalar::Literal(Real { bits })
    }

    /// The number with the pattern `bits`.
    pub fn literal(bits: u64) -> (r: Scalar)
        ensures
            r == Scalar::literal_expr(bits),
    {
        Scalar::Literal(Real { bits })
    }

    pub open spec fn neg_expr(self) -> Scalar {
        Scalar::Neg(Rc::new(self))
    }

    pub open spec fn sqrt_expr(self) -> Scalar {
        Scalar::Sqrt(Rc::new(self))
    }

    pub open spec fn exp_expr(self) -> Scalar {
        Scalar::Exp(Rc::new(self))
    }

    pub open spec fn ln_expr(self) -> Scalar {
        Scalar::Ln(Rc::new(self))
    }

    pub open spec fn sub_expr(self, other: Scalar) -> Scalar {
        Scalar::Sub(Rc::new(self), Rc::new(other))
    }

    pub open spec fn mul_expr(self, other: Scalar) -> Scalar {
        Scalar::Mul(Rc::new(self), Rc::new(other))
    }

    pub open spec fn pow_expr(self, exponent: Real) -> Scalar {
        Scalar::Pow(Rc::new(self), exponent)
    }

    /// The negated scalar.
    pub fn neg(self) -> (r: Scalar)
        ensures
            r == self.neg_expr(),
    {
        Scalar::Neg(Rc::new(self))
    }

    /// The square root.
    pub fn sqrt(self) -> (r: Scalar)
        ensures
            r == self.sqrt_expr(),
    {
        Scalar::Sqrt(Rc::new(self))
    }

    /// The exponential.
    pub fn exp(self) -> (r: Scalar)
        ensures
            r == self.exp_expr(),
    {
        Scalar::Exp(Rc::new(self))
    }

    /// The natural logarithm.
    pub fn ln(self) -> (r: Scalar)
        ensures
            r == self.ln_expr(),
    {
        Scalar::Ln(Rc::new(self))
    }

    /// The difference.
    pub fn minus(self, other: Scalar) -> (r: Scalar)
        ensures
            r == self.sub_expr(other),
    {
        Scalar::Sub(Rc::new(self), Rc::new(other))
    }

    /// The product.
    pub fn times(self, other: Scalar) -> (r: Scalar)
        ensures
            r == self.mul_expr(other),
    {
        Scalar::Mul(Rc::new(self), Rc::new(other))
    }

    /// The power.
    pub fn powf(self, exponent: Real) -> (r: Scalar)
        ensures
            r == self.pow_expr(exponent),
    {
        Scalar::Pow(Rc::new(self), exponent)
    }
}

/// Powers of two are positive, and each is twice the one before.
pub proof fn lemma_power_of_two(e: int)
    ensures
        power_of_two(e) > 0real,
        power_of_two(e + 1) == 2real * power_of_two(e),
    decreases if e < 0 { -e } else { e },
{
    if e > 0 {
        lemma_power_of_two(e - 1);
    } else if e < 0 {
        lemma_power_of_two(e + 1);
    }
}

/// Opposite powers of two multiply to one.
proof fn lemma_power_product(e: int)
    requires
        e >= 0,
    ensures
        power_of_two(e) * power_of_two(-e) == 1real,
    decreases e,
{
    if e > 0 {
        lemma_power_product(e - 1);
        let a = power_of_two(e - 1);
        let b = power_of_two(-e + 1);
        assert((2real * a) * (b / 2real) == a * b) by (nonlinear_arith);
    }
}

/// The patterns of positive numbers stand for positive numbers.
pub proof fn lemma_positive(bits: u64)
    requires
        0 < bits < SIGN_BIT,
    ensures
        double(bits) > 0real,
{
    let magnitude = bits as int % 0x8000_0000_0000_0000;
    let exponent = magnitude / 0x10_0000_0000_0000;
    let fraction = magnitude % 0x10_0000_0000_0000;
    assert(magnitude == bits);
    let (whole, scale) = if exponent == 0 {
        (fraction, power_of_two(-1074))
    } else {
        (0x10_0000_0000_0000 + fraction, power_of_two(exponent - 1075))
    };
    assert(whole > 0);
    lemma_power_of_two(-1074);
    lemma_power_of_two(exponent - 1075);
    assert((whole as real) * scale > 0real) by (nonlinear_arith)
        requires
            whole as real > 0real,
            scale > 0real,
    ;
}

/// What the patterns of zero, one, two and four stand for.
pub proof fn lemma_small_numbers()
    ensures
        double(ZERO) == 0real,
        double(ONE) == 1real,
        double(TWO) == 2real,
        double(FOUR) == 4real,
{
    let whole = 0x10_0000_0000_0000 as real;
    assert(power_of_two(52) == whole) by {
        reveal_with_fuel(power_of_two, 53);
    }
    lemma_power_product(52);
    lemma_power_of_two(-52);
    lemma_power_of_two(-51);
    let unit = power_of_two(-52);
    assert(whole * unit == 1real);
    assert(whole * (2real * unit) == 2real) by (nonlinear_arith)
        requires
            whole * unit == 1real,
    ;
    assert(whole * (2real * (2real * unit)) == 4real) by (nonlinear_arith)
        requires
            whole * unit == 1real,
    ;
    assert(0real * power_of_two(-1074) == 0real) by (nonlinear_arith);
}

} // verus!
