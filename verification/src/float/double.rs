//! Numbers of 64 bits.

use crate::float::arith;
use crate::float::bits;
use crate::float::model;
use crate::float::model::{Datum, Format};
use crate::float::parts;
use crate::float::parts::Parts;
use crate::float::single::Single;
use vstd::prelude::*;
use vstd::arithmetic::mul::*;
use vstd::arithmetic::power2::*;

verus! {

/// A number of 64 bits, held as its bit pattern.
#[derive(Clone, Copy, Debug)]
pub struct Double {
    pub bits: u64,
}

impl View for Double {
    type V = Datum;

    open spec fn view(&self) -> Datum {
        model::decode(Format::Binary64, self.bits as nat)
    }
}

impl Double {
    /// The number of a bit pattern.
    pub fn from_bits(bits: u64) -> (r: Double)
        ensures
            r.bits == bits,
    {
        Double { bits }
    }

    /// The bit pattern of the number.
    pub fn to_bits(self) -> (r: u64)
        ensures
            r == self.bits,
    {
        self.bits
    }

    pub(crate) fn parts(self) -> (r: Parts)
        ensures
            r.fits(Format::Binary64),
            r@ == self@,
    {
        bits::unpack(Format::Binary64, self.bits)
    }

    pub(crate) fn from_parts(number: Parts) -> (r: Double)
        requires
            number.fits(Format::Binary64),
        ensures
            r@ == number@,
    {
        Double { bits: bits::pack(Format::Binary64, number) }
    }

    /// A whole number.
    pub fn whole(n: i32) -> (r: Double)
        ensures
            r@ == model::whole(Format::Binary64, n as int),
    {
        proof {
            lemma2_to64();
            lemma2_to64_rest();
        }
        let negative = n < 0;
        let magnitude: u64 = if negative { (-(n as i64)) as u64 } else { n as u64 };
        Double::from_parts(
            parts::place(Format::Binary64, negative, magnitude, parts::one(Format::Binary64)),
        )
    }

    /// The number nearest to a ratio of whole numbers.
    pub fn ratio(num: u32, den: u32) -> (r: Double)
        requires
            den > 0,
            num <= 0xff_ffff,
            den <= 0xff_ffff,
        ensures
            r@ == model::ratio(Format::Binary64, num as nat, den as nat),
    {
        let ghost u = pow2(Format::Binary64.one());
        proof {
            lemma_pow2_pos(Format::Binary64.one());
            lemma_mul_strictly_positive(den as int, u as int);
            parts::lemma_round_cancels(
                Format::Binary64.precision(),
                num as nat * u,
                den as nat,
                u,
            );
        }
        Double::whole(num as i32).over(Double::whole(den as i32))
    }

    /// Whether the number is less than the other.
    pub fn less(self, other: Double) -> (r: bool)
        ensures
            r == self@.less(other@),
    {
        arith::less(Ghost(Format::Binary64), self.parts(), other.parts())
    }

    /// Whether the number is less than or equal to the other.
    pub fn at_most(self, other: Double) -> (r: bool)
        ensures
            r == self@.at_most(other@),
    {
        !self.is_nan() && !other.is_nan() && !other.less(self)
    }

    /// Whether the pattern stands for no number.
    pub fn is_nan(self) -> (r: bool)
        ensures
            r == (self@ is Nan),
    {
        match self.parts() {
            Parts::Nan => true,
            _ => false,
        }
    }

    /// The number with its sign turned.
    pub fn negated(self) -> (r: Double)
        ensures
            r@ == self@.negated(),
    {
        Double::from_parts(
            match self.parts() {
                Parts::Nan => Parts::Nan,
                Parts::Infinite { negative } => Parts::Infinite { negative: !negative },
                Parts::Finite { negative, mantissa, scale } => Parts::Finite {
                    negative: !negative,
                    mantissa,
                    scale,
                },
            },
        )
    }

    /// The sum of two numbers.
    pub fn plus(self, other: Double) -> (r: Double)
        ensures
            r@ == model::plus(Format::Binary64, self@, other@),
    {
        Double::from_parts(arith::plus(Format::Binary64, self.parts(), other.parts()))
    }

    /// The difference of two numbers.
    pub fn minus(self, other: Double) -> (r: Double)
        ensures
            r@ == model::minus(Format::Binary64, self@, other@),
    {
        self.plus(other.negated())
    }

    /// The product of two numbers.
    pub fn times(self, other: Double) -> (r: Double)
        ensures
            r@ == model::times(Format::Binary64, self@, other@),
    {
        Double::from_parts(arith::times(Format::Binary64, self.parts(), other.parts()))
    }

    /// The quotient of two numbers.
    pub fn over(self, other: Double) -> (r: Double)
        ensures
            r@ == model::over(Format::Binary64, self@, other@),
    {
        Double::from_parts(arith::over(Format::Binary64, self.parts(), other.parts()))
    }

    /// Whether the number is neither infinite nor no number at all.
    pub fn is_finite(self) -> (r: bool)
        ensures
            r == (self@ is Finite),
    {
        match self.parts() {
            Parts::Finite { .. } => true,
            _ => false,
        }
    }

    /// The number without its sign.
    pub fn absolute(self) -> (r: Double)
        ensures
            r@ == self@.absolute(),
    {
        match self.parts() {
            Parts::Finite { negative: false, .. } => self,
            Parts::Infinite { negative: false } => self,
            _ => self.negated(),
        }
    }

    /// The square root of the number.
    pub fn root(self) -> (r: Double)
        ensures
            r@ == model::root(Format::Binary64, self@),
    {
        Double::from_parts(arith::root(Format::Binary64, self.parts()))
    }

    /// The number brought to 32 bits.
    pub fn narrowed(self) -> (r: Single)
        ensures
            r@ == model::narrowed(self@),
    {
        Single::from_parts(arith::narrowed(self.parts()))
    }

    /// The number held between two bounds.
    pub fn held(self, low: Double, high: Double) -> (r: Double)
        requires
            low@.at_most(high@),
        ensures
            r@ == self@.held(low@, high@),
    {
        if self.less(low) {
            low
        } else if high.less(self) {
            high
        } else {
            self
        }
    }
}

} // verus!
