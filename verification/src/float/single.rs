//! Numbers of 32 bits.

use crate::float::arith;
use crate::float::bits;
use crate::float::model;
use crate::float::model::{Datum, Format};
use crate::float::parts;
use crate::float::parts::Parts;
use crate::float::double::Double;
use vstd::prelude::*;
use vstd::arithmetic::mul::*;
use vstd::arithmetic::power2::*;

verus! {

/// A number of 32 bits, held as its bit pattern.
#[derive(Clone, Copy, Debug)]
pub struct Single {
    pub bits: u32,
}

impl View for Single {
    type V = Datum;

    open spec fn view(&self) -> Datum {
        model::decode(Format::Binary32, self.bits as nat)
    }
}

impl Single {
    /// The number of a bit pattern.
    pub fn from_bits(bits: u32) -> (r: Single)
        ensures
            r.bits == bits,
    {
        Single { bits }
    }

    /// The bit pattern of the number.
    pub fn to_bits(self) -> (r: u32)
        ensures
            r == self.bits,
    {
        self.bits
    }

    pub(crate) fn parts(self) -> (r: Parts)
        ensures
            r.fits(Format::Binary32),
            r@ == self@,
    {
        bits::unpack(Format::Binary32, self.bits as u64)
    }

    pub(crate) fn from_parts(number: Parts) -> (r: Single)
        requires
            number.fits(Format::Binary32),
        ensures
            r@ == number@,
    {
        Single { bits: bits::pack(Format::Binary32, number) as u32 }
    }

    /// A whole number.
    pub fn whole(n: i32) -> (r: Single)
        requires
            -0xff_ffff <= n <= 0xff_ffff,
        ensures
            r@ == model::whole(Format::Binary32, n as int),
    {
        proof {
            lemma2_to64();
            lemma2_to64_rest();
        }
        let negative = n < 0;
        let magnitude: u64 = if negative { (-(n as i64)) as u64 } else { n as u64 };
        Single::from_parts(
            parts::place(Format::Binary32, negative, magnitude, parts::one(Format::Binary32)),
        )
    }

    /// The number nearest to a ratio of whole numbers.
    pub fn ratio(num: u32, den: u32) -> (r: Single)
        requires
            den > 0,
            num <= 0xff_ffff,
            den <= 0xff_ffff,
        ensures
            r@ == model::ratio(Format::Binary32, num as nat, den as nat),
    {
        let ghost u = pow2(Format::Binary32.one());
        proof {
            lemma_pow2_pos(Format::Binary32.one());
            lemma_mul_strictly_positive(den as int, u as int);
            parts::lemma_round_cancels(
                Format::Binary32.precision(),
                num as nat * u,
                den as nat,
                u,
            );
        }
        Single::whole(num as i32).over(Single::whole(den as i32))
    }

    /// Whether the number is less than the other.
    pub fn less(self, other: Single) -> (r: bool)
        ensures
            r == self@.less(other@),
    {
        arith::less(Ghost(Format::Binary32), self.parts(), other.parts())
    }

    /// Whether the number is less than or equal to the other.
    pub fn at_most(self, other: Single) -> (r: bool)
        ensures
            r == self@.at_most(other@),
    {
        !self.is_nan() && !other.is_nan() && !other.less(self)
    }

    /// Whether the pattern stands for no number.
    pub fn is_nan(self) -> (r: bool)
        ensures
            r == (self@ is Nan),
    {
        match self.parts() {
            Parts::Nan => true,
            _ => false,
        }
    }

    /// The number with its sign turned.
    pub fn negated(self) -> (r: Single)
        ensures
            r@ == self@.negated(),
    {
        Single::from_parts(
            match self.parts() {
                Parts::Nan => Parts::Nan,
                Parts::Infinite { negative } => Parts::Infinite { negative: !negative },
                Parts::Finite { negative, mantissa, scale } => Parts::Finite {
                    negative: !negative,
                    mantissa,
                    scale,
                },
            },
        )
    }

    /// The sum of two numbers.
    pub fn plus(self, other: Single) -> (r: Single)
        ensures
            r@ == model::plus(Format::Binary32, self@, other@),
    {
        Single::from_parts(arith::plus(Format::Binary32, self.parts(), other.parts()))
    }

    /// The difference of two numbers.
    pub fn minus(self, other: Single) -> (r: Single)
        ensures
            r@ == model::minus(Format::Binary32, self@, other@),
    {
        self.plus(other.negated())
    }

    /// The product of two numbers.
    pub fn times(self, other: Single) -> (r: Single)
        ensures
            r@ == model::times(Format::Binary32, self@, other@),
    {
        Single::from_parts(arith::times(Format::Binary32, self.parts(), other.parts()))
    }

    /// The quotient of two numbers.
    pub fn over(self, other: Single) -> (r: Single)
        ensures
            r@ == model::over(Format::Binary32, self@, other@),
    {
        Single::from_parts(arith::over(Format::Binary32, self.parts(), other.parts()))
    }

    /// The smaller of two numbers; where one is not a number, the other.
    pub fn lesser(self, other: Single) -> (r: Single)
        ensures
            r@ == self@.lesser(other@),
    {
        if other.is_nan() || self.less(other) {
            self
        } else {
            other
        }
    }

    /// The larger of two numbers; where one is not a number, the other.
    pub fn greater(self, other: Single) -> (r: Single)
        ensures
            r@ == self@.greater(other@),
    {
        if other.is_nan() || other.less(self) {
            self
        } else {
            other
        }
    }

    /// The 64-bit number of the same value.
    pub fn widened(self) -> (r: Double)
        ensures
            r@ == model::widened(self@),
    {
        Double::from_parts(arith::widened(self.parts()))
    }

    /// The number held between two bounds.
    pub fn held(self, low: Single, high: Single) -> (r: Single)
        requires
            low@.at_most(high@),
        ensures
            r@ == self@.held(low@, high@),
    {
        if self.less(low) {
            low
        } else if high.less(self) {
            high
        } else {
            self
        }
    }
}

} // verus!
