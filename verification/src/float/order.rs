//! How the operations go with the order of numbers, and where they are exact.

use crate::float::double::Double;
use crate::float::laws;
use crate::float::model;
use crate::float::model::{Datum, Format};
use crate::float::single::Single;
use vstd::prelude::*;
use vstd::arithmetic::mul::*;
use vstd::arithmetic::power2::*;

verus! {

/// Whether a number is one that the format holds.
pub open spec fn fits(format: Format, d: Datum) -> bool {
    d is Finite ==> laws::holds(format.precision(), d->units) && d->units < pow2(
        format.precision() + format.top(),
    )
}

/// What 64 bits stand for, the format holds.
pub proof fn doubles_fit(d: Double)
    ensures
        fits(Format::Binary64, d@),
{
    lemma2_to64();
    lemma2_to64_rest();
    if d@ is Finite {
        assert(pow2(52) == 0x10_0000_0000_0000);
        assert(2 * 0x10_0000_0000_0000 * 2048 == 0x1_0000_0000_0000_0000);
        laws::finite_numbers_fit(Format::Binary64, d.bits as nat);
    }
}

/// What 32 bits stand for, the format holds.
pub proof fn singles_fit(s: Single)
    ensures
        fits(Format::Binary32, s@),
{
    lemma2_to64();
    lemma2_to64_rest();
    if s@ is Finite {
        assert(0x80_0000 * 256 * 2 == 0x1_0000_0000);
        laws::finite_numbers_fit(Format::Binary32, s.bits as nat);
    }
}

/// Zero holds in every format.
proof fn lemma_zero_holds(p: nat)
    ensures
        laws::holds(p, 0),
{
    lemma_pow2_pos(p);
    assert(0 == 0nat * pow2(0));
}

/// Nothing is rounded to nothing.
pub proof fn lemma_round_zero(p: nat, den: nat)
    requires
        p > 0,
        den > 0,
    ensures
        model::round_units(p, 0, den) == 0,
{
    lemma_zero_holds(p);
    laws::rounding_passes_no_number(p, 0, den, 0);
}

/// Nothing is added: the number stays as it is.
pub proof fn adding_nothing_changes_nothing(format: Format, a: Datum)
    requires
        fits(format, a),
        a != (Datum::Finite { negative: true, units: 0 }),
    ensures
        model::plus(format, a, model::whole(format, 0)) == a,
{
    assert(0 * pow2(format.one()) == 0);
    if a is Finite {
        laws::rounding_keeps_numbers(format.precision(), a->units, 1);
    }
}

/// A sum keeps the order of its parts.
pub proof fn plus_keeps_order(format: Format, a: Datum, b: Datum, c: Datum, d: Datum)
    requires
        a.at_most(b),
        c.at_most(d),
        model::plus(format, a, c) !is Nan,
        model::plus(format, b, d) !is Nan,
    ensures
        model::plus(format, a, c).at_most(model::plus(format, b, d)),
{
    if a is Finite && b is Finite && c is Finite && d is Finite {
        let p = format.precision();
        let low = a.signed() + c.signed();
        let high = b.signed() + d.signed();
        if 0 < low {
            laws::rounding_keeps_order(p, low as nat, high as nat, 1);
        } else if high < 0 {
            laws::rounding_keeps_order(p, (-high) as nat, (-low) as nat, 1);
        }
    }
}

/// A difference tells which of two numbers is the greater.
pub proof fn minus_tells_order(format: Format, a: Datum, b: Datum)
    requires
        a is Finite,
        b is Finite,
    ensures
        a.at_most(b) ==> model::whole(format, 0).at_most(model::minus(format, b, a)),
        b.at_most(a) ==> model::minus(format, b, a).at_most(model::whole(format, 0)),
{
    assert(0 * pow2(format.one()) == 0);
}

/// Rounded products with one factor are in the order of the other.
proof fn lemma_scaled_order(format: Format, x: nat, y: nat, c: nat, den: nat)
    requires
        den > 0,
        x <= y,
    ensures
        model::round_units(format.precision(), x * c, den) <= model::round_units(
            format.precision(),
            y * c,
            den,
        ),
{
    assert(x * c <= y * c) by (nonlinear_arith)
        requires
            x <= y,
    ;
    laws::rounding_keeps_order(format.precision(), x * c, y * c, den);
}

/// A product with a number from zero up keeps the order.
pub proof fn times_keeps_order(format: Format, a: Datum, b: Datum, c: Datum)
    requires
        a is Finite,
        b is Finite,
        c is Finite,
        a.at_most(b),
        c.signed() >= 0,
    ensures
        model::times(format, a, c).at_most(model::times(format, b, c)),
        model::times(format, c, a).at_most(model::times(format, c, b)),
{
    let den = pow2(format.one());
    lemma_pow2_pos(format.one());
    let x = a->units;
    let y = b->units;
    let z = c->units;
    lemma_mul_is_commutative(x as int, z as int);
    lemma_mul_is_commutative(y as int, z as int);
    let p = format.precision();
    lemma_round_zero(p, den);
    assert(x == 0 || z == 0 ==> x * z == 0) by (nonlinear_arith);
    assert(y == 0 || z == 0 ==> y * z == 0) by (nonlinear_arith);
    if x <= y {
        lemma_scaled_order(format, x, y, z, den);
    }
    if y <= x {
        lemma_scaled_order(format, y, x, z, den);
    }
    let r = model::round_units(p, x * z, den);
    let s = model::round_units(p, y * z, den);
    let m = c->Finite_negative;
    assert(m ==> z == 0);
    assert(model::times(format, a, c) == model::settle(format, a->Finite_negative != m, r));
    assert(model::times(format, b, c) == model::settle(format, b->Finite_negative != m, s));
    assert(model::times(format, c, a) == model::settle(format, a->Finite_negative != m, r));
    assert(model::times(format, c, b) == model::settle(format, b->Finite_negative != m, s));
    lemma_pow2_pos(p + format.top());
}

/// A quotient by a number above zero keeps the order.
pub proof fn over_keeps_order(format: Format, a: Datum, b: Datum, c: Datum)
    requires
        a is Finite,
        b is Finite,
        a.at_most(b),
        model::whole(format, 0).less(c),
    ensures
        model::over(format, a, c).at_most(model::over(format, b, c)),
{
    assert(0 * pow2(format.one()) == 0);
    if c is Finite {
        let one = pow2(format.one());
        let x = a->units;
        let y = b->units;
        let z = c->units;
        let p = format.precision();
        lemma_round_zero(p, z);
        assert(x == 0 ==> x * one == 0) by (nonlinear_arith);
        assert(y == 0 ==> y * one == 0) by (nonlinear_arith);
        if x <= y {
            lemma_scaled_order(format, x, y, one, z);
        }
        if y <= x {
            lemma_scaled_order(format, y, x, one, z);
        }
        let r = model::round_units(p, x * one, z);
        let s = model::round_units(p, y * one, z);
        assert(model::over(format, a, c) == model::settle(format, a->Finite_negative, r));
        assert(model::over(format, b, c) == model::settle(format, b->Finite_negative, s));
        lemma_pow2_pos(p + format.top());
    }
}

/// The greater the divisor, the smaller the quotient of a number from zero up.
pub proof fn over_turns_order(format: Format, a: Datum, b: Datum, c: Datum)
    requires
        a is Finite,
        a.signed() >= 0,
        b is Finite,
        c is Finite,
        model::whole(format, 0).less(b),
        b.at_most(c),
    ensures
        model::over(format, a, c).at_most(model::over(format, a, b)),
{
    assert(0 * pow2(format.one()) == 0);
    let one = pow2(format.one());
    let p = format.precision();
    let n = a->units * one;
    let y = b->units;
    let z = c->units;
    // n / z and n / y, over the same divisor
    let low = n * y;
    let high = n * z;
    let w = y * z;
    lemma_mul_strictly_positive(y as int, z as int);
    lemma_mul_is_commutative(y as int, z as int);
    assert(low <= high) by (nonlinear_arith)
        requires
            low == n * y,
            high == n * z,
            y <= z,
    ;
    crate::float::parts::lemma_round_cancels(p, n, z, y);
    crate::float::parts::lemma_round_cancels(p, n, y, z);
    assert(z * y == w && y * z == w);
    laws::rounding_keeps_order(p, low, high, w);
    lemma_round_zero(p, y);
    lemma_round_zero(p, z);
    assert(a->units == 0 ==> n == 0) by (nonlinear_arith)
        requires
            n == a->units * one,
    ;
    assert(model::over(format, a, c) == model::settle(
        format,
        a->Finite_negative,
        model::round_units(p, n, z),
    ));
    assert(model::over(format, a, b) == model::settle(
        format,
        a->Finite_negative,
        model::round_units(p, n, y),
    ));
    lemma_pow2_pos(p + format.top());
}

/// A number times one is itself.
pub proof fn times_one(format: Format, a: Datum)
    requires
        fits(format, a),
        a is Finite,
    ensures
        model::times(format, a, model::whole(format, 1)) == a,
{
    lemma_pow2_pos(format.one());
    assert(1 * pow2(format.one()) == pow2(format.one()));
    laws::rounding_keeps_numbers(format.precision(), a->units, pow2(format.one()));
}

/// A whole number that the mantissa has room for is a number of the format.
pub proof fn lemma_whole_fits(format: Format, n: int)
    requires
        -pow2(format.precision()) < n < pow2(format.precision()),
    ensures
        fits(format, model::whole(format, n)),
{
    let p = format.precision();
    let m: nat = if n < 0 { (-n) as nat } else { n as nat };
    assert(laws::holds(p, m * pow2(format.one())));
    lemma_pow2_adds(p, format.top());
    crate::float::parts::lemma_pow2_ordered(format.one(), format.top());
    lemma_pow2_pos(format.one());
    assert(m * pow2(format.one()) < pow2(p) * pow2(format.top())) by (nonlinear_arith)
        requires
            m < pow2(p),
            0 < pow2(format.one()) <= pow2(format.top()),
    ;
}

/// Whole numbers are added exactly.
pub proof fn whole_sums_are_exact(format: Format, a: int, b: int)
    requires
        a >= 0,
        b >= 0,
        a + b < pow2(format.precision()),
    ensures
        model::plus(format, model::whole(format, a), model::whole(format, b)) == model::whole(
            format,
            a + b,
        ),
{
    let one = pow2(format.one());
    lemma_pow2_pos(format.one());
    lemma_whole_fits(format, a + b);
    assert(a as nat * one + b as nat * one == (a + b) as nat * one) by (nonlinear_arith)
        requires
            a >= 0,
            b >= 0,
    ;
    if a + b > 0 {
        laws::rounding_keeps_numbers(format.precision(), (a + b) as nat * one, 1);
        assert((a + b) as nat * one > 0) by (nonlinear_arith)
            requires
                a + b > 0,
                one > 0,
        ;
    } else {
        assert(0 * one == 0);
    }
}

/// The square of a whole number is exact, whatever its sign.
pub proof fn whole_squares_are_exact(format: Format, d: Datum, n: int)
    requires
        d is Finite,
        d.signed() == n * pow2(format.one()),
        n * n < pow2(format.precision()),
    ensures
        model::times(format, d, d) == model::whole(format, n * n),
{
    let one = pow2(format.one());
    lemma_pow2_pos(format.one());
    let m: nat = if n < 0 { (-n) as nat } else { n as nat };
    assert(m * m == n * n) by (nonlinear_arith)
        requires
            m == n || m == -n,
    ;
    assert(n * n >= 0) by (nonlinear_arith);
    assert(d->units == m * one) by (nonlinear_arith)
        requires
            d->units as int == n * one || d->units as int == -(n * one),
            m == (if n < 0 { -n } else { n }),
            one > 0,
    ;
    assert(d->units * d->units == (m * m * one) * one) by (nonlinear_arith)
        requires
            d->units == m * one,
    ;
    lemma_whole_fits(format, n * n);
    laws::rounding_keeps_numbers(format.precision(), (m * m * one) as nat, one);
    assert((n * n) as nat * one == m * m * one);
}

/// A whole difference is exact.
pub proof fn whole_differences_are_exact(format: Format, a: Datum, b: Datum, n: int)
    requires
        a is Finite,
        b is Finite,
        a.signed() - b.signed() == n * pow2(format.one()),
        -pow2(format.precision()) < n < pow2(format.precision()),
    ensures
        model::minus(format, a, b) is Finite,
        model::minus(format, a, b).signed() == n * pow2(format.one()),
{
    let one = pow2(format.one());
    lemma_pow2_pos(format.one());
    lemma_whole_fits(format, n);
    let m: nat = if n < 0 { (-n) as nat } else { n as nat };
    assert(n < 0 ==> m * one == -(n * one)) by (nonlinear_arith)
        requires
            m == (if n < 0 { -n } else { n }),
    ;
    assert(n * one == 0 ==> n == 0) by (nonlinear_arith)
        requires
            one > 0,
    ;
    assert(n > 0 ==> n * one > 0) by (nonlinear_arith)
        requires
            one > 0,
    ;
    assert(n < 0 ==> n * one < 0) by (nonlinear_arith)
        requires
            one > 0,
    ;
    assert(0 * one == 0);
    laws::rounding_keeps_numbers(format.precision(), m * one, 1);
}

/// Whole numbers are in the order of their counts.
pub proof fn lemma_whole_order(format: Format, a: int, b: int)
    requires
        a >= 0,
        b >= 0,
    ensures
        model::whole(format, a).less(model::whole(format, b)) <==> a < b,
        model::whole(format, a).at_most(model::whole(format, b)) <==> a <= b,
{
    let one = pow2(format.one());
    lemma_pow2_pos(format.one());
    assert(a < b ==> a as nat * one < b as nat * one) by (nonlinear_arith)
        requires
            a >= 0,
            b >= 0,
            one > 0,
    ;
    assert(a >= b ==> a as nat * one >= b as nat * one) by (nonlinear_arith)
        requires
            a >= 0,
            b >= 0,
            one > 0,
    ;
    assert(b < a ==> b as nat * one < a as nat * one) by (nonlinear_arith)
        requires
            a >= 0,
            b >= 0,
            one > 0,
    ;
}

/// A square is no less than zero, and grows with the magnitude.
pub proof fn squares_keep_order(format: Format, a: Datum, b: Datum)
    requires
        a is Finite,
        b is Finite,
        a->units <= b->units,
    ensures
        model::whole(format, 0).at_most(model::times(format, a, a)),
        model::times(format, a, a).at_most(model::times(format, b, b)),
{
    let x = a->units;
    let y = b->units;
    let den = pow2(format.one());
    lemma_pow2_pos(format.one());
    assert(0 * den == 0);
    assert(x * x <= y * y) by (nonlinear_arith)
        requires
            x <= y,
    ;
    laws::rounding_keeps_order(format.precision(), x * x, y * y, den);
}

/// A ratio of at most one is a number between zero and one.
pub proof fn ratios_up_to_one(format: Format, num: nat, den: nat)
    requires
        num <= den,
        den > 0,
    ensures
        model::ratio(format, num, den) is Finite,
        !model::ratio(format, num, den)->Finite_negative,
        model::ratio(format, num, den).at_most(model::whole(format, 1)),
        fits(format, model::ratio(format, num, den)),
{
    let one = pow2(format.one());
    let p = format.precision();
    lemma_pow2_pos(format.one());
    assert(laws::holds(p, one)) by {
        lemma_pow2_pos(p);
        lemma_pow2_strictly_increases(0, p);
        lemma2_to64();
        assert(one == 1nat * pow2(format.one()));
    }
    assert(num * one <= one * den) by (nonlinear_arith)
        requires
            num <= den,
    ;
    laws::rounding_passes_no_number(p, num * one, den, one);
    laws::rounding_gives_numbers(p, num * one, den);
    lemma_pow2_strictly_increases(format.one(), p + format.top());
    assert(1 * one == one);
}

/// Nothing added is nothing lost, as far as the order goes.
pub proof fn lemma_with_nothing(format: Format, a: Datum)
    requires
        fits(format, a),
        a is Finite,
    ensures
        model::plus(format, a, model::whole(format, 0)) is Finite,
        model::plus(format, a, model::whole(format, 0)).signed() == a.signed(),
{
    assert(0 * pow2(format.one()) == 0);
    if a != (Datum::Finite { negative: true, units: 0 }) {
        adding_nothing_changes_nothing(format, a);
    }
}

/// Bringing a number to 32 bits keeps the order.
pub proof fn narrowing_keeps_order(a: Datum, b: Datum)
    requires
        a is Finite,
        b is Finite,
        a.at_most(b),
    ensures
        model::narrowed(a).at_most(model::narrowed(b)),
{
    lemma_pow2_pos(925);
    lemma_round_zero(24, pow2(925));
    if a->units <= b->units {
        laws::rounding_keeps_order(24, a->units, b->units, pow2(925));
    }
    if b->units <= a->units {
        laws::rounding_keeps_order(24, b->units, a->units, pow2(925));
    }
    lemma_pow2_pos(277);
}

/// A whole number that 32 bits have room for is brought there as it is.
pub proof fn narrowing_keeps_whole_numbers(n: int)
    requires
        -0x100_0000 < n < 0x100_0000,
    ensures
        model::narrowed(model::whole(Format::Binary64, n)) == model::whole(Format::Binary32, n),
{
    lemma2_to64();
    lemma2_to64_rest();
    let m: nat = if n < 0 { (-n) as nat } else { n as nat };
    lemma_whole_fits(Format::Binary32, n);
    lemma_pow2_adds(149, 925);
    lemma_pow2_pos(925);
    assert(m * pow2(1074) == (m * pow2(149)) * pow2(925)) by (nonlinear_arith)
        requires
            pow2(1074) == pow2(149) * pow2(925),
    ;
    laws::rounding_keeps_numbers(24, m * pow2(149), pow2(925));
}

/// A number over itself is one.
pub proof fn over_itself(format: Format, a: Datum)
    requires
        a is Finite,
        a->units > 0,
    ensures
        model::over(format, a, a) == model::whole(format, 1),
{
    let one = pow2(format.one());
    let u = a->units;
    lemma_pow2_pos(format.one());
    lemma_whole_is_one(format);
    assert(u * one == one * u) by (nonlinear_arith);
    laws::rounding_keeps_numbers(format.precision(), one, u);
}

/// One is a number of every format.
pub proof fn lemma_whole_is_one(format: Format)
    ensures
        model::whole(format, 1) == (Datum::Finite { negative: false, units: pow2(format.one()) }),
        model::whole(format, 0) == (Datum::Finite { negative: false, units: 0 }),
        laws::holds(format.precision(), pow2(format.one())),
        0 < pow2(format.one()) < pow2(format.precision() + format.top()),
{
    lemma_pow2_pos(format.one());
    lemma2_to64();
    lemma_pow2_strictly_increases(0, format.precision());
    lemma_pow2_strictly_increases(format.one(), format.precision() + format.top());
    assert(pow2(format.one()) == 1nat * pow2(format.one()));
    assert(0 * pow2(format.one()) == 0);
}

} // verus!
