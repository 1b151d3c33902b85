//! What a binary floating-point number is, and what its operations yield.
//!
//! A finite number is a whole count of the smallest positive number of its
//! format, its *unit*: `2^-149` for 32 bits and `2^-1074` for 64 bits. Every
//! operation is the exact result, brought back to the format by one rounding
//! to the nearest number, where a tie goes to the even mantissa.

use vstd::prelude::*;
use vstd::arithmetic::power2::*;

verus! {

/// The two interchange formats in use.
#[derive(Clone, Copy, PartialEq, Eq, Structural, Debug)]
pub enum Format {
    Binary32,
    Binary64,
}

impl Format {
    /// How many binary digits a mantissa holds.
    pub open spec fn precision(self) -> nat {
        match self {
            Format::Binary32 => 24,
            Format::Binary64 => 53,
        }
    }

    /// The largest power of two that scales the mantissa of a finite number.
    pub open spec fn top(self) -> nat {
        match self {
            Format::Binary32 => 253,
            Format::Binary64 => 2045,
        }
    }

    /// One is `2^one()` units.
    pub open spec fn one(self) -> nat {
        match self {
            Format::Binary32 => 149,
            Format::Binary64 => 1074,
        }
    }
}

/// The number that a bit pattern stands for.
pub enum Datum {
    Nan,
    Infinite { negative: bool },
    Finite { negative: bool, units: nat },
}

/// The number of a bit pattern: sign, biased exponent and fraction, from the
/// top down.
pub open spec fn decode(format: Format, bits: nat) -> Datum {
    let half = pow2((format.precision() - 1) as nat);
    let sign = half * (format.top() + 3);
    let negative = bits >= sign;
    let magnitude = if negative { bits - sign } else { bits as int };
    let exponent = magnitude / half as int;
    let fraction = magnitude % half as int;
    if exponent == format.top() + 2 {
        if fraction == 0 {
            Datum::Infinite { negative }
        } else {
            Datum::Nan
        }
    } else if exponent == 0 {
        Datum::Finite { negative, units: fraction as nat }
    } else {
        Datum::Finite { negative, units: ((half + fraction) * pow2((exponent - 1) as nat)) as nat }
    }
}

/// Whether `num / den` needs the scale `k` to fit a mantissa of `p` digits:
/// it lies below `2^(p + k)`, and no smaller scale would do.
pub open spec fn is_scale(p: nat, num: nat, den: nat, k: nat) -> bool {
    &&& num < den * pow2(p + k)
    &&& k == 0 || num >= den * pow2((p + k - 1) as nat)
}

/// The scale of `num / den`.
pub open spec fn scale(p: nat, num: nat, den: nat) -> nat {
    choose|k: nat| is_scale(p, num, den, k)
}

/// The whole number nearest to `num / den`; of two that are as near, the even one.
pub open spec fn nearest_even(num: nat, den: nat) -> nat {
    let below = num / den;
    let rest = num % den;
    if 2 * rest < den || (2 * rest == den && below % 2 == 0) {
        below
    } else {
        below + 1
    }
}

/// `num / den` units, rounded to a mantissa of `p` digits.
pub open spec fn round_units(p: nat, num: nat, den: nat) -> nat {
    let k = scale(p, num, den);
    nearest_even(num, den * pow2(k)) * pow2(k)
}

/// A magnitude in units that a rounding has settled, or infinity past the
/// largest finite number.
pub open spec fn settle(format: Format, negative: bool, units: nat) -> Datum {
    if units >= pow2(format.precision() + format.top()) {
        Datum::Infinite { negative }
    } else {
        Datum::Finite { negative, units }
    }
}

/// The number of the format that stands for `num / den` units.
pub open spec fn round(format: Format, negative: bool, num: nat, den: nat) -> Datum {
    settle(format, negative, round_units(format.precision(), num, den))
}

impl Datum {
    /// The signed count of units of a finite number.
    pub open spec fn signed(self) -> int {
        match self {
            Datum::Finite { negative, units } => if negative { -(units as int) } else { units as int },
            _ => 0,
        }
    }

    /// Whether the number is less than the other. Nothing is less than, or
    /// more than, what is not a number.
    pub open spec fn less(self, other: Datum) -> bool {
        match (self, other) {
            (Datum::Nan, _) => false,
            (_, Datum::Nan) => false,
            (Datum::Infinite { negative: a }, Datum::Infinite { negative: b }) => a && !b,
            (Datum::Infinite { negative: a }, Datum::Finite { .. }) => a,
            (Datum::Finite { .. }, Datum::Infinite { negative: b }) => !b,
            (Datum::Finite { .. }, Datum::Finite { .. }) => self.signed() < other.signed(),
        }
    }

    /// Whether the number is less than or equal to the other.
    pub open spec fn at_most(self, other: Datum) -> bool {
        self !is Nan && other !is Nan && !other.less(self)
    }

    /// The number with its sign turned.
    pub open spec fn negated(self) -> Datum {
        match self {
            Datum::Nan => Datum::Nan,
            Datum::Infinite { negative } => Datum::Infinite { negative: !negative },
            Datum::Finite { negative, units } => Datum::Finite { negative: !negative, units },
        }
    }

    /// The number without its sign.
    pub open spec fn absolute(self) -> Datum {
        match self {
            Datum::Nan => Datum::Nan,
            Datum::Infinite { .. } => Datum::Infinite { negative: false },
            Datum::Finite { units, .. } => Datum::Finite { negative: false, units },
        }
    }

    /// The smaller of two numbers; where one is not a number, the other.
    pub open spec fn lesser(self, other: Datum) -> Datum {
        if other is Nan || self.less(other) {
            self
        } else {
            other
        }
    }

    /// The larger of two numbers; where one is not a number, the other.
    pub open spec fn greater(self, other: Datum) -> Datum {
        if other is Nan || other.less(self) {
            self
        } else {
            other
        }
    }

    /// The number held between two bounds. What is not a number stays so.
    pub open spec fn held(self, low: Datum, high: Datum) -> Datum {
        if self.less(low) {
            low
        } else if high.less(self) {
            high
        } else {
            self
        }
    }
}

/// The sum of two numbers. An exact zero is positive, but for two negative zeros.
pub open spec fn plus(format: Format, a: Datum, b: Datum) -> Datum {
    match (a, b) {
        (Datum::Nan, _) => Datum::Nan,
        (_, Datum::Nan) => Datum::Nan,
        (Datum::Infinite { negative: x }, Datum::Infinite { negative: y }) => if x == y {
            a
        } else {
            Datum::Nan
        },
        (Datum::Infinite { .. }, Datum::Finite { .. }) => a,
        (Datum::Finite { .. }, Datum::Infinite { .. }) => b,
        (Datum::Finite { negative: x, .. }, Datum::Finite { negative: y, .. }) => {
            let sum = a.signed() + b.signed();
            if sum == 0 {
                Datum::Finite { negative: x && y, units: 0 }
            } else if sum < 0 {
                round(format, true, (-sum) as nat, 1)
            } else {
                round(format, false, sum as nat, 1)
            }
        },
    }
}

/// The difference of two numbers.
pub open spec fn minus(format: Format, a: Datum, b: Datum) -> Datum {
    plus(format, a, b.negated())
}

/// The product of two numbers.
pub open spec fn times(format: Format, a: Datum, b: Datum) -> Datum {
    match (a, b) {
        (Datum::Nan, _) => Datum::Nan,
        (_, Datum::Nan) => Datum::Nan,
        (Datum::Infinite { negative: x }, Datum::Infinite { negative: y }) => Datum::Infinite {
            negative: x != y,
        },
        (Datum::Infinite { negative: x }, Datum::Finite { negative: y, units }) => if units == 0 {
            Datum::Nan
        } else {
            Datum::Infinite { negative: x != y }
        },
        (Datum::Finite { negative: x, units }, Datum::Infinite { negative: y }) => if units == 0 {
            Datum::Nan
        } else {
            Datum::Infinite { negative: x != y }
        },
        (Datum::Finite { negative: x, units: m }, Datum::Finite { negative: y, units: n }) => round(
            format,
            x != y,
            m * n,
            pow2(format.one()),
        ),
    }
}

/// The quotient of two numbers.
pub open spec fn over(format: Format, a: Datum, b: Datum) -> Datum {
    match (a, b) {
        (Datum::Nan, _) => Datum::Nan,
        (_, Datum::Nan) => Datum::Nan,
        (Datum::Infinite { .. }, Datum::Infinite { .. }) => Datum::Nan,
        (Datum::Infinite { negative: x }, Datum::Finite { negative: y, .. }) => Datum::Infinite {
            negative: x != y,
        },
        (Datum::Finite { negative: x, .. }, Datum::Infinite { negative: y }) => Datum::Finite {
            negative: x != y,
            units: 0,
        },
        (Datum::Finite { negative: x, units: m }, Datum::Finite { negative: y, units: n }) => {
            if n != 0 {
                round(format, x != y, m * pow2(format.one()), n)
            } else if m == 0 {
                Datum::Nan
            } else {
                Datum::Infinite { negative: x != y }
            }
        },
    }
}

/// A whole number, exactly.
pub open spec fn whole(format: Format, n: int) -> Datum {
    if n < 0 {
        Datum::Finite { negative: true, units: (-n) as nat * pow2(format.one()) }
    } else {
        Datum::Finite { negative: false, units: n as nat * pow2(format.one()) }
    }
}

/// The number nearest to the ratio `num / den`.
pub open spec fn ratio(format: Format, num: nat, den: nat) -> Datum {
    round(format, false, num * pow2(format.one()), den)
}

/// Whether the root of `num` needs the scale `k` to fit a mantissa of `p` digits.
pub open spec fn is_root_scale(p: nat, num: nat, k: nat) -> bool {
    &&& num < pow2(2 * (p + k))
    &&& k == 0 || num >= pow2((2 * (p + k - 1)) as nat)
}

/// Whether `q` steps are the most that the root of `num` holds.
pub open spec fn is_floor_root(num: nat, step: nat, q: nat) -> bool {
    (q * step) * (q * step) <= num < ((q + 1) * step) * ((q + 1) * step)
}

/// The whole count of steps nearest to the root of `num`; of two that are as
/// near, the even one.
pub open spec fn nearest_root(num: nat, step: nat) -> nat {
    let below = choose|q: nat| is_floor_root(num, step, q);
    let middle = (2 * below + 1) * step;
    if 4 * num < middle * middle || (4 * num == middle * middle && below % 2 == 0) {
        below
    } else {
        below + 1
    }
}

/// The root of `num`, rounded to a mantissa of `p` digits.
pub open spec fn root_units(p: nat, num: nat) -> nat {
    let k = choose|k: nat| is_root_scale(p, num, k);
    nearest_root(num, pow2(k)) * pow2(k)
}

/// The square root of a number. Zero is its own root, with its sign.
pub open spec fn root(format: Format, a: Datum) -> Datum {
    match a {
        Datum::Nan => Datum::Nan,
        Datum::Infinite { negative } => if negative {
            Datum::Nan
        } else {
            a
        },
        Datum::Finite { negative, units } => if units == 0 {
            a
        } else if negative {
            Datum::Nan
        } else {
            settle(format, false, root_units(format.precision(), units * pow2(format.one())))
        },
    }
}

/// A 64-bit number brought to 32 bits.
pub open spec fn narrowed(a: Datum) -> Datum {
    match a {
        Datum::Finite { negative, units } => round(Format::Binary32, negative, units, pow2(925)),
        _ => a,
    }
}

/// A 32-bit number as the 64-bit number of the same value.
pub open spec fn widened(a: Datum) -> Datum {
    match a {
        Datum::Finite { negative, units } => Datum::Finite { negative, units: units * pow2(925) },
        _ => a,
    }
}

} // verus!
