//! The operations give what is nearest to the exact result.

use crate::float::laws;
use crate::float::laws::gap;
use crate::float::model;
use crate::float::model::{Datum, Format};
use crate::float::order;
use crate::float::parts;
use vstd::prelude::*;
use vstd::arithmetic::mul::*;
use vstd::arithmetic::power2::*;

verus! {

/// Of a signed ratio in units, no number of the format is nearer than what the ratio
/// is rounded to.
proof fn lemma_signed_nearest(
    format: Format,
    negative: bool,
    num: nat,
    den: nat,
    r: Datum,
    other: Datum,
)
    requires
        den > 0,
        r == model::round(format, negative, num, den),
        r is Finite,
        other is Finite,
        order::fits(format, other),
    ensures
        ({
            let exact: int = if negative { -(num as int) } else { num as int };
            gap(r.signed() * den, exact) <= gap(other.signed() * den, exact)
        }),
{
    let p = format.precision();
    let units = model::round_units(p, num, den);
    let exact: int = if negative { -(num as int) } else { num as int };
    laws::rounding_is_nearest(p, num, den, other->units);
    lemma_pow2_pos(p);
    assert(laws::holds(p, 0)) by {
        assert(0 == 0nat * pow2(0));
    }
    laws::rounding_is_nearest(p, num, den, 0);
    let o = other->units;
    assert((-(units as int)) * den == -(units * den)) by (nonlinear_arith);
    assert((-(o as int)) * den == -(o * den)) by (nonlinear_arith);
    assert(0 * den == 0);
    assert(o * den >= 0) by (nonlinear_arith);
    assert(units * den >= 0) by (nonlinear_arith);
}

/// No number is nearer to the exact sum than the sum.
pub proof fn sums_are_nearest(format: Format, a: Datum, b: Datum, other: Datum)
    requires
        a is Finite,
        b is Finite,
        model::plus(format, a, b) is Finite,
        other is Finite,
        order::fits(format, other),
    ensures
        gap(model::plus(format, a, b).signed(), a.signed() + b.signed()) <= gap(
            other.signed(),
            a.signed() + b.signed(),
        ),
{
    let sum = a.signed() + b.signed();
    let r = model::plus(format, a, b);
    if sum < 0 {
        lemma_signed_nearest(format, true, (-sum) as nat, 1, r, other);
    } else if sum > 0 {
        lemma_signed_nearest(format, false, sum as nat, 1, r, other);
    }
}

/// No number is nearer to the exact product than the product.
pub proof fn products_are_nearest(format: Format, a: Datum, b: Datum, other: Datum)
    requires
        a is Finite,
        b is Finite,
        model::times(format, a, b) is Finite,
        other is Finite,
        order::fits(format, other),
    ensures
        gap(
            model::times(format, a, b).signed() * pow2(format.one()),
            a.signed() * b.signed(),
        ) <= gap(other.signed() * pow2(format.one()), a.signed() * b.signed()),
{
    let m = a->units;
    let n = b->units;
    let negative = a->Finite_negative != b->Finite_negative;
    lemma_pow2_pos(format.one());
    assert(a.signed() * b.signed() == (if negative { -(m * n) } else { m * n as int }))
        by (nonlinear_arith)
        requires
            a.signed() == (if a->Finite_negative { -(m as int) } else { m as int }),
            b.signed() == (if b->Finite_negative { -(n as int) } else { n as int }),
            negative == (a->Finite_negative != b->Finite_negative),
    ;
    lemma_signed_nearest(
        format,
        negative,
        m * n,
        pow2(format.one()),
        model::times(format, a, b),
        other,
    );
}

/// No number is nearer to the exact quotient than the quotient. The gaps are taken
/// times the divisor.
pub proof fn quotients_are_nearest(format: Format, a: Datum, b: Datum, other: Datum)
    requires
        a is Finite,
        b is Finite,
        b->units > 0,
        model::over(format, a, b) is Finite,
        other is Finite,
        order::fits(format, other),
    ensures
        gap(
            model::over(format, a, b).signed() * b.signed(),
            a.signed() * pow2(format.one()),
        ) <= gap(other.signed() * b.signed(), a.signed() * pow2(format.one())),
{
    let one = pow2(format.one());
    let m = a->units;
    let n = b->units;
    let negative = a->Finite_negative != b->Finite_negative;
    let r = model::over(format, a, b);
    lemma_signed_nearest(format, negative, m * one, n, r, other);
    let x = r.signed();
    let y = other.signed();
    assert(x * (-(n as int)) == -(x * n)) by (nonlinear_arith);
    assert(y * (-(n as int)) == -(y * n)) by (nonlinear_arith);
    assert((-(m as int)) * one == -(m * one)) by (nonlinear_arith);
}

/// No number of 32 bits is nearer to one of 64 bits than what that is brought to.
pub proof fn narrowing_is_nearest(a: Datum, other: Datum)
    requires
        a is Finite,
        model::narrowed(a) is Finite,
        other is Finite,
        order::fits(Format::Binary32, other),
    ensures
        gap(model::narrowed(a).signed() * pow2(925), a.signed()) <= gap(
            other.signed() * pow2(925),
            a.signed(),
        ),
{
    lemma_pow2_pos(925);
    lemma_signed_nearest(
        Format::Binary32,
        a->Finite_negative,
        a->units,
        pow2(925),
        model::narrowed(a),
        other,
    );
}

/// Widening changes no value.
pub proof fn widening_changes_no_value(a: Datum)
    requires
        a is Finite,
    ensures
        model::widened(a) is Finite,
        model::widened(a).signed() == a.signed() * pow2(925),
{
    let u = a->units;
    assert((-(u as int)) * pow2(925) == -(u * pow2(925))) by (nonlinear_arith);
}

proof fn lemma_squares(a: nat, b: nat)
    ensures
        a <= b ==> a * a <= b * b,
        a < b ==> a * a < b * b,
        a * a <= b * b ==> a <= b,
        a * a < b * b ==> a < b,
{
    assert(a <= b ==> a * a <= b * b) by (nonlinear_arith);
    assert(a < b ==> a * a < b * b) by (nonlinear_arith);
    assert(b < a ==> b * b < a * a) by (nonlinear_arith);
    assert(b <= a ==> b * b <= a * a) by (nonlinear_arith);
}

proof fn lemma_find_root_scale(p: nat, num: nat, k: nat) -> (r: nat)
    requires
        p > 0,
        k == 0 || num >= pow2((2 * (p + k - 1)) as nat),
    ensures
        model::is_root_scale(p, num, r),
    decreases num - k,
{
    if num < pow2(2 * (p + k)) {
        k
    } else {
        parts::lemma_pow2_outgrows(2 * (p + k));
        assert(2 * (p + (k + 1) - 1) == 2 * (p + k));
        lemma_find_root_scale(p, num, k + 1)
    }
}

proof fn lemma_find_floor_root(num: nat, step: nat, q: nat) -> (r: nat)
    requires
        step > 0,
        (q * step) * (q * step) <= num,
    ensures
        model::is_floor_root(num, step, r),
    decreases num - q,
{
    if num < ((q + 1) * step) * ((q + 1) * step) {
        q
    } else {
        let a = (q + 1) * step;
        assert(a >= q + 1) by (nonlinear_arith)
            requires
                a == (q + 1) * step,
                step > 0,
        ;
        assert(a * a >= a) by (nonlinear_arith)
            requires
                a >= 1,
        ;
        lemma_find_floor_root(num, step, q + 1)
    }
}

/// A root passes no number of the format: of those whose square is not above the
/// exact one, none is above the root, and of those whose square is not below, none is
/// below the root.
pub proof fn roots_pass_no_number(format: Format, a: Datum, other: Datum)
    requires
        a is Finite,
        a.signed() > 0,
        other is Finite,
        other.signed() >= 0,
        order::fits(format, other),
    ensures
        model::root(format, a) !is Nan,
        other.signed() * other.signed() <= a.signed() * pow2(format.one()) ==> other.at_most(
            model::root(format, a),
        ),
        other.signed() * other.signed() >= a.signed() * pow2(format.one()) ==> model::root(
            format,
            a,
        ).at_most(other),
{
    let p = format.precision();
    let num = a->units * pow2(format.one());
    let c = other->units;
    lemma_root_passes(p, num, c);
    let r = model::root_units(p, num);
    if c * c >= num {
        assert(r <= c);
    }
}

proof fn lemma_root_passes(p: nat, num: nat, c: nat)
    requires
        p > 0,
        laws::holds(p, c),
    ensures
        c * c <= num ==> c <= model::root_units(p, num),
        c * c >= num ==> model::root_units(p, num) <= c,
{
    let found = lemma_find_root_scale(p, num, 0);
    let k = choose|k: nat| model::is_root_scale(p, num, k);
    assert(model::is_root_scale(p, num, k));
    let step = pow2(k);
    lemma_pow2_pos(k);
    assert((0 * step) * (0 * step) == 0) by (nonlinear_arith);
    let some = lemma_find_floor_root(num, step, 0);
    let q = choose|q: nat| model::is_floor_root(num, step, q);
    assert(model::is_floor_root(num, step, q));
    let low = q * step;
    let high = (q + 1) * step;
    let r = model::root_units(p, num);
    assert(r == low || r == high);
    assert(low < high) by (nonlinear_arith)
        requires
            low == q * step,
            high == (q + 1) * step,
            step > 0,
    ;
    let middle = (2 * q + 1) * step;
    // an exact root is taken as it is
    assert(num == low * low ==> r == low) by {
        assert(middle == 2 * low + step) by (nonlinear_arith)
            requires
                middle == (2 * q + 1) * step,
                low == q * step,
        ;
        assert(4 * (low * low) < middle * middle) by (nonlinear_arith)
            requires
                middle == 2 * low + step,
                step > 0,
        ;
    }
    let (m, j) = choose|m: nat, j: nat| m < pow2(p) && c == #[trigger] (m * pow2(j));
    lemma_squares(c, low);
    lemma_squares(c, high);
    lemma_squares(low, c);
    lemma_squares(high, c);
    if j >= k {
        let n = m * pow2((j - k) as nat);
        lemma_pow2_adds((j - k) as nat, k);
        assert(c == n * step) by (nonlinear_arith)
            requires
                c == m * pow2(j),
                pow2(j) == pow2((j - k) as nat) * step,
                n == m * pow2((j - k) as nat),
        ;
        assert(c < high ==> n <= q) by (nonlinear_arith)
            requires
                c == n * step,
                high == (q + 1) * step,
                step > 0,
        ;
        assert(n <= q ==> c <= low) by (nonlinear_arith)
            requires
                c == n * step,
                low == q * step,
        ;
        if c * c <= num {
            assert(c < high);
            assert(c <= low);
        }
        if c * c >= num && r == high && c < high {
            assert(c <= low);
            assert(c * c <= low * low);
            assert(num == low * low);
        }
        if c * c >= num {
            assert(c >= low);
        }
    } else {
        // the number lies below the step that the root starts from
        let h = (p + k - 1) as nat;
        lemma_pow2_adds(p, j);
        parts::lemma_pow2_ordered(p + j, h);
        lemma_pow2_pos(j);
        assert(c < pow2(p) * pow2(j)) by (nonlinear_arith)
            requires
                c == m * pow2(j),
                m < pow2(p),
                pow2(j) > 0,
        ;
        lemma_pow2_adds(h, h);
        assert(h + h == (2 * (p + k - 1)) as nat);
        lemma_squares(c, pow2(h));
        lemma_squares(pow2(h), high);
        lemma_pow2_adds((p - 1) as nat, k);
        assert((p - 1) as nat + k == h);
        let n = pow2((p - 1) as nat);
        assert(n * step < (q + 1) * step ==> n * step <= q * step) by (nonlinear_arith)
            requires
                step > 0,
        ;
    }
}

/// Of two numbers the lesser is one of them and at most either, the greater one of
/// them and at least either; a number held between bounds lies between them, and is
/// itself where it already did.
pub proof fn picking_among_numbers(a: Datum, b: Datum, low: Datum, high: Datum)
    requires
        a !is Nan,
        b !is Nan,
        low.at_most(high),
    ensures
        a.lesser(b) == a || a.lesser(b) == b,
        a.lesser(b).at_most(a) && a.lesser(b).at_most(b),
        a.greater(b) == a || a.greater(b) == b,
        a.at_most(a.greater(b)) && b.at_most(a.greater(b)),
        low.at_most(a.held(low, high)) && a.held(low, high).at_most(high),
        low.at_most(a) && a.at_most(high) ==> a.held(low, high) == a,
        Datum::Nan.lesser(b) == b && b.lesser(Datum::Nan) == b,
        Datum::Nan.greater(b) == b && b.greater(Datum::Nan) == b,
        Datum::Nan.held(low, high) is Nan,
        a.negated().negated() == a,
        a is Finite ==> a.negated().signed() == -a.signed(),
        a.absolute() == a || a.absolute() == a.negated(),
        a is Finite ==> a.absolute().signed() >= 0,
{
}

/// Finite numbers are in the order of their units, with infinity at either end.
pub proof fn the_order_of_numbers(a: Datum, b: Datum)
    ensures
        a is Nan || b is Nan ==> !a.less(b) && !a.at_most(b),
        a is Finite && b is Finite ==> (a.less(b) <==> a.signed() < b.signed()) && (a.at_most(b)
            <==> a.signed() <= b.signed()),
        a is Finite && b == (Datum::Infinite { negative: false }) ==> a.less(b) && !b.at_most(a),
        a is Finite && b == (Datum::Infinite { negative: true }) ==> b.less(a) && !a.at_most(b),
{
}

} // verus!
