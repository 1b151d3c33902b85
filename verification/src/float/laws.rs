//! What holds of all rounding.

use crate::float::model;
use crate::float::model::Format;
use crate::float::parts;
use vstd::prelude::*;
use vstd::arithmetic::div_mod::*;
use vstd::arithmetic::mul::*;
use vstd::arithmetic::power2::*;

verus! {

/// Whether a count of units is one that a mantissa of `p` digits can hold.
pub open spec fn holds(p: nat, units: nat) -> bool {
    exists|m: nat, k: nat| m < pow2(p) && units == #[trigger] (m * pow2(k))
}

/// How far two numbers are apart.
pub open spec fn gap(a: int, b: int) -> int {
    if a < b {
        b - a
    } else {
        a - b
    }
}

/// The nearest whole number is as near as any.
proof fn lemma_nearest_whole(num: nat, den: nat, n: nat)
    requires
        den > 0,
    ensures
        gap(num as int, (model::nearest_even(num, den) * den) as int) <= gap(
            num as int,
            (n * den) as int,
        ),
{
    let q = num / den;
    let r = num % den;
    lemma_fundamental_div_mod(num as int, den as int);
    lemma_mul_is_commutative(den as int, q as int);
    assert((q + 1) * den == q * den + den) by (nonlinear_arith);
    if n <= q {
        assert(n * den <= q * den) by (nonlinear_arith)
            requires
                n <= q,
        ;
    } else {
        assert(n * den >= (q + 1) * den) by (nonlinear_arith)
            requires
                n >= q + 1,
        ;
    }
}

/// No number of the format is nearer to a ratio than what it is rounded to.
pub proof fn rounding_is_nearest(p: nat, num: nat, den: nat, units: nat)
    requires
        p > 0,
        den > 0,
        holds(p, units),
    ensures
        gap(num as int, (model::round_units(p, num, den) * den) as int) <= gap(
            num as int,
            (units * den) as int,
        ),
{
    let (m, j) = choose|m: nat, j: nat| m < pow2(p) && units == #[trigger] (m * pow2(j));
    let k = model::scale(p, num, den);
    parts::lemma_scale(p, num, den);
    let w = den * pow2(k);
    lemma_pow2_pos(k);
    lemma_mul_strictly_positive(den as int, pow2(k) as int);
    let q = model::nearest_even(num, w);
    assert(model::round_units(p, num, den) * den == q * w) by (nonlinear_arith)
        requires
            model::round_units(p, num, den) == q * pow2(k),
            w == den * pow2(k),
    ;
    if j >= k {
        let n = m * pow2((j - k) as nat);
        lemma_pow2_adds((j - k) as nat, k);
        assert(units * den == n * w) by (nonlinear_arith)
            requires
                units == m * pow2(j),
                pow2(j) == pow2((j - k) as nat) * pow2(k),
                n == m * pow2((j - k) as nat),
                w == den * pow2(k),
        ;
        lemma_nearest_whole(num, w, n);
    } else {
        // the number lies below the step that the ratio starts from
        let h = pow2((p - 1) as nat);
        lemma_pow2_adds(p, j);
        lemma_pow2_adds((p - 1) as nat, k);
        assert((p - 1) as nat + k == (p + k - 1) as nat);
        parts::lemma_pow2_ordered(p + j, (p + k - 1) as nat);
        lemma_pow2_pos(j);
        assert(units <= h * pow2(k)) by (nonlinear_arith)
            requires
                units == m * pow2(j),
                m < pow2(p),
                pow2(p) * pow2(j) <= h * pow2(k),
        ;
        assert(units * den <= h * w) by (nonlinear_arith)
            requires
                units <= h * pow2(k),
                w == den * pow2(k),
        ;
        assert(h * w == den * pow2((p + k - 1) as nat)) by (nonlinear_arith)
            requires
                pow2((p + k - 1) as nat) == h * pow2(k),
                w == den * pow2(k),
        ;
        lemma_nearest_whole(num, w, h);
    }
}

/// A number of the format rounds to itself.
pub proof fn rounding_keeps_numbers(p: nat, units: nat, den: nat)
    requires
        p > 0,
        den > 0,
        holds(p, units),
    ensures
        model::round_units(p, units * den, den) == units,
{
    rounding_is_nearest(p, units * den, den, units);
    let r = model::round_units(p, units * den, den);
    assert(r == units) by (nonlinear_arith)
        requires
            r * den == units * den,
            den > 0,
    ;
}

/// Rounding does not pass a number of the format.
pub proof fn rounding_passes_no_number(p: nat, num: nat, den: nat, units: nat)
    requires
        p > 0,
        den > 0,
        holds(p, units),
    ensures
        num <= units * den ==> model::round_units(p, num, den) <= units,
        num >= units * den ==> model::round_units(p, num, den) >= units,
{
    rounding_is_nearest(p, num, den, units);
    let r = model::round_units(p, num, den);
    if num <= units * den && r > units {
        assert(r * den > units * den) by (nonlinear_arith)
            requires
                r > units,
                den > 0,
        ;
    }
    if num >= units * den && r < units {
        assert(r * den < units * den) by (nonlinear_arith)
            requires
                r < units,
                den > 0,
        ;
    }
}

/// What a ratio is rounded to is a number of the format.
pub proof fn rounding_gives_numbers(p: nat, num: nat, den: nat)
    requires
        p > 0,
        den > 0,
    ensures
        holds(p, model::round_units(p, num, den)),
{
    let k = model::scale(p, num, den);
    parts::lemma_scale(p, num, den);
    let w = den * pow2(k);
    lemma_pow2_pos(k);
    lemma_mul_strictly_positive(den as int, pow2(k) as int);
    let q = model::nearest_even(num, w);
    lemma_pow2_adds(p, k);
    assert(num < w * pow2(p)) by (nonlinear_arith)
        requires
            num < den * pow2(p + k),
            pow2(p + k) == pow2(p) * pow2(k),
            w == den * pow2(k),
    ;
    lemma_fundamental_div_mod(num as int, w as int);
    assert(num / w < pow2(p)) by (nonlinear_arith)
        requires
            num < w * pow2(p),
            num == w * (num / w) + num % w,
            w > 0,
    ;
    if q == pow2(p) {
        lemma_pow2_strictly_increases(0, p);
        lemma2_to64();
        assert(model::round_units(p, num, den) == 1 * pow2(p + k));
    } else {
        assert(model::round_units(p, num, den) == q * pow2(k));
    }
}

/// Rounding keeps the order.
pub proof fn rounding_keeps_order(p: nat, small: nat, large: nat, den: nat)
    requires
        p > 0,
        den > 0,
        small <= large,
    ensures
        model::round_units(p, small, den) <= model::round_units(p, large, den),
{
    let r = model::round_units(p, small, den);
    let s = model::round_units(p, large, den);
    rounding_gives_numbers(p, small, den);
    rounding_gives_numbers(p, large, den);
    if s < r {
        rounding_passes_no_number(p, small, den, s);
        rounding_passes_no_number(p, large, den, r);
        rounding_is_nearest(p, small, den, s);
        rounding_is_nearest(p, large, den, r);
        // both lie right in the middle, so they are the same
        assert(small == large);
    }
}

/// What the arithmetic hands out is a number of the format: two patterns stand
/// for the same number only where they are the same, or stand for none.
pub proof fn patterns_are_numbers(format: Format, a: nat, b: nat)
    requires
        a < 2 * pow2((format.precision() - 1) as nat) * (format.top() + 3),
        b < 2 * pow2((format.precision() - 1) as nat) * (format.top() + 3),
        model::decode(format, a) == model::decode(format, b),
        model::decode(format, a) !is Nan,
    ensures
        a == b,
{
    let h = pow2((format.precision() - 1) as nat);
    lemma_pow2_pos((format.precision() - 1) as nat);
    let sign = h * (format.top() + 3);
    assert(2 * h * (format.top() + 3) == 2 * sign) by (nonlinear_arith)
        requires
            sign == h * (format.top() + 3),
    ;
    let x = if a >= sign { a - sign } else { a as int };
    let y = if b >= sign { b - sign } else { b as int };
    lemma_fundamental_div_mod(x, h as int);
    lemma_fundamental_div_mod(y, h as int);
    lemma_mod_bound(x, h as int);
    lemma_mod_bound(y, h as int);
    lemma_div_pos_is_pos(x, h as int);
    lemma_div_pos_is_pos(y, h as int);
    let e = x / h as int;
    let f = y / h as int;
    if model::decode(format, a) is Finite {
        if e != f {
            if e < f {
                lemma_exponents_differ(h, e as nat, (x % h as int) as nat, f as nat, (y % h as int) as nat);
            } else {
                lemma_exponents_differ(h, f as nat, (y % h as int) as nat, e as nat, (x % h as int) as nat);
            }
        } else if e > 0 {
            lemma_pow2_pos((e - 1) as nat);
            lemma_mul_is_commutative(h + x % h as int, pow2((e - 1) as nat) as int);
            lemma_mul_is_commutative(h + y % h as int, pow2((e - 1) as nat) as int);
            lemma_mul_equality_converse(
                pow2((e - 1) as nat) as int,
                h + x % h as int,
                h + y % h as int,
            );
        }
    }
}

/// The magnitude under a biased exponent and a fraction.
spec fn magnitude(h: nat, e: nat, fraction: nat) -> nat {
    if e == 0 {
        fraction
    } else {
        (h + fraction) * pow2((e - 1) as nat)
    }
}

proof fn lemma_exponents_differ(h: nat, e: nat, r: nat, f: nat, s: nat)
    requires
        e < f,
        r < h,
        s < h,
    ensures
        magnitude(h, e, r) < magnitude(h, f, s),
{
    lemma_pow2_pos((f - 1) as nat);
    assert((h + s) * pow2((f - 1) as nat) >= h * pow2((f - 1) as nat)) by (nonlinear_arith);
    if e == 0 {
        assert(h * pow2((f - 1) as nat) >= h) by (nonlinear_arith)
            requires
                pow2((f - 1) as nat) >= 1,
        ;
    } else {
        lemma_pow2_pos((e - 1) as nat);
        lemma_pow2_unfold(e);
        parts::lemma_pow2_ordered(e, (f - 1) as nat);
        assert((h + r) * pow2((e - 1) as nat) < (2 * h) * pow2((e - 1) as nat)) by (nonlinear_arith)
            requires
                r < h,
                pow2((e - 1) as nat) > 0,
        ;
        assert((2 * h) * pow2((e - 1) as nat) <= h * pow2((f - 1) as nat)) by (nonlinear_arith)
            requires
                2 * pow2((e - 1) as nat) <= pow2((f - 1) as nat),
        ;
    }
}

/// A finite number is one that its format can hold, below where infinity starts.
pub proof fn finite_numbers_fit(format: Format, bits: nat)
    requires
        bits < 2 * pow2((format.precision() - 1) as nat) * (format.top() + 3),
        model::decode(format, bits) is Finite,
    ensures
        holds(format.precision(), model::decode(format, bits)->units),
        model::decode(format, bits)->units < pow2(format.precision() + format.top()),
{
    let p = format.precision();
    let h = pow2((p - 1) as nat);
    lemma_pow2_pos((p - 1) as nat);
    lemma_pow2_unfold(p);
    let sign = h * (format.top() + 3);
    assert(2 * h * (format.top() + 3) == 2 * sign) by (nonlinear_arith)
        requires
            sign == h * (format.top() + 3),
    ;
    let x = if bits >= sign { bits - sign } else { bits as int };
    lemma_fundamental_div_mod(x, h as int);
    lemma_mod_bound(x, h as int);
    lemma_div_pos_is_pos(x, h as int);
    let e = x / h as int;
    let r = (x % h as int) as nat;
    assert(e < format.top() + 3) by (nonlinear_arith)
        requires
            x == h * e + r,
            x < h * (format.top() + 3),
            r >= 0,
            h > 0,
    ;
    let m: nat = if e == 0 { r } else { h + r };
    let k: nat = if e == 0 { 0 } else { (e - 1) as nat };
    lemma2_to64();
    assert(r * pow2(0) == r);
    assert(model::decode(format, bits)->units == m * pow2(k));
    lemma_pow2_pos(k);
    parts::lemma_pow2_ordered(k, format.top());
    lemma_pow2_adds(p, format.top());
    assert(m * pow2(k) < pow2(p) * pow2(format.top())) by (nonlinear_arith)
        requires
            m < pow2(p),
            0 < pow2(k) <= pow2(format.top()),
    ;
}

} // verus!
