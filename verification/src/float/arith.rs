//! The operations on numbers taken apart.

use crate::float::model;
use crate::float::model::Format;
use crate::float::parts;
use crate::float::parts::Parts;
use vstd::prelude::*;
use vstd::arithmetic::div_mod::*;
use vstd::arithmetic::mul::*;
use vstd::arithmetic::power2::*;

verus! {

/// `m * 2^by`.
fn shifted(m: u64, by: u32) -> (r: u128)
    requires
        by <= 64,
    ensures
        r == m as nat * pow2(by as nat),
{
    let mut r: u128 = m as u128;
    let mut i: u32 = 0;
    proof {
        lemma2_to64();
    }
    while i < by
        invariant
            i <= by <= 64,
            r == m as nat * pow2(i as nat),
        decreases by - i,
    {
        proof {
            lemma_pow2_unfold((i + 1) as nat);
            parts::lemma_pow2_ordered((i + 1) as nat, 64);
            lemma2_to64();
            assert(m as nat * pow2((i + 1) as nat) == 2 * (m as nat * pow2(i as nat)))
                by (nonlinear_arith)
                requires
                    pow2((i + 1) as nat) == 2 * pow2(i as nat),
            ;
            assert(m as nat * pow2((i + 1) as nat) <= 0xffff_ffff_ffff_ffff
                * 0x1_0000_0000_0000_0000) by (nonlinear_arith)
                requires
                    m <= 0xffff_ffff_ffff_ffff,
                    pow2((i + 1) as nat) <= 0x1_0000_0000_0000_0000,
            ;
        }
        r = r * 2;
        i = i + 1;
    }
    r
}

/// Whether one magnitude is less than another.
fn smaller(Ghost(format): Ghost<Format>, m: u64, j: u32, n: u64, k: u32) -> (r: bool)
    requires
        (Parts::Finite { negative: false, mantissa: m, scale: j }).fits(format),
        (Parts::Finite { negative: false, mantissa: n, scale: k }).fits(format),
    ensures
        r == (m as nat * pow2(j as nat) < n as nat * pow2(k as nat)),
{
    proof {
        if j == k {
            lemma_pow2_pos(j as nat);
            if m < n {
                lemma_mul_strict_inequality(m as int, n as int, pow2(j as nat) as int);
            } else {
                lemma_mul_inequality(n as int, m as int, pow2(j as nat) as int);
            }
        } else if j < k {
            lemma_lower_scale(format, m, j, n, k);
        } else {
            lemma_lower_scale(format, n, k, m, j);
        }
    }
    j < k || j == k && m < n
}

/// Of two numbers of a format the one with the lower scale is the smaller.
proof fn lemma_lower_scale(format: Format, m: u64, j: u32, n: u64, k: u32)
    requires
        m < pow2(format.precision()),
        n >= pow2((format.precision() - 1) as nat),
        j < k,
    ensures
        m as nat * pow2(j as nat) < n as nat * pow2(k as nat),
{
    let p = format.precision();
    lemma_pow2_pos(j as nat);
    lemma_mul_strict_inequality(m as int, pow2(p) as int, pow2(j as nat) as int);
    lemma_pow2_adds(p, j as nat);
    lemma_pow2_adds((p - 1) as nat, (j + 1) as nat);
    assert((p - 1) as nat + (j + 1) as nat == p + j as nat);
    parts::lemma_pow2_ordered((j + 1) as nat, k as nat);
    lemma_pow2_pos((p - 1) as nat);
    lemma_mul_upper_bound(
        pow2((p - 1) as nat) as int,
        n as int,
        pow2((j + 1) as nat) as int,
        pow2(k as nat) as int,
    );
}

/// Whether `a` is less than `b`.
pub fn less(Ghost(format): Ghost<Format>, a: Parts, b: Parts) -> (r: bool)
    requires
        a.fits(format),
        b.fits(format),
    ensures
        r == a@.less(b@),
{
    match (a, b) {
        (Parts::Nan, _) => false,
        (_, Parts::Nan) => false,
        (Parts::Infinite { negative: x }, Parts::Infinite { negative: y }) => x && !y,
        (Parts::Infinite { negative: x }, Parts::Finite { .. }) => x,
        (Parts::Finite { .. }, Parts::Infinite { negative: y }) => !y,
        (
            Parts::Finite { negative: x, mantissa: m, scale: j },
            Parts::Finite { negative: y, mantissa: n, scale: k },
        ) => {
            proof {
                lemma_zero_units(m, j);
                lemma_zero_units(n, k);
            }
            if x {
                if y {
                    smaller(Ghost(format), n, k, m, j)
                } else {
                    m != 0 || n != 0
                }
            } else {
                if y {
                    false
                } else {
                    smaller(Ghost(format), m, j, n, k)
                }
            }
        },
    }
}

/// A magnitude is zero just where its mantissa is.
proof fn lemma_zero_units(m: u64, j: u32)
    ensures
        m as nat * pow2(j as nat) == 0 <==> m == 0,
        m as nat * pow2(j as nat) >= 0,
{
    lemma_pow2_pos(j as nat);
    if m != 0 {
        lemma_mul_strictly_positive(m as int, pow2(j as nat) as int);
    }
}

/// The sum of two magnitudes, or their difference where `apart`, of which the
/// first is at the higher scale.
fn join(
    format: Format,
    negative: bool,
    apart: bool,
    m: u64,
    j: u32,
    n: u64,
    k: u32,
) -> (r: Parts)
    requires
        k <= j,
        (Parts::Finite { negative, mantissa: m, scale: j }).fits(format),
        (Parts::Finite { negative, mantissa: n, scale: k }).fits(format),
        apart ==> m as nat * pow2(j as nat) >= n as nat * pow2(k as nat),
    ensures
        r.fits(format),
        r@ == model::round(
            format,
            negative,
            if apart {
                (m as nat * pow2(j as nat) - n as nat * pow2(k as nat)) as nat
            } else {
                m as nat * pow2(j as nat) + n as nat * pow2(k as nat)
            },
            1,
        ),
{
    let ghost p = format.precision();
    let ghost a: nat = m as nat * pow2(j as nat);
    let ghost b: nat = n as nat * pow2(k as nat);
    let ghost exact: nat = if apart { (a - b) as nat } else { a + b };
    let gap: u32 = j - k;
    proof {
        lemma2_to64();
        lemma2_to64_rest();
        assert(1 * pow2(k as nat) == pow2(k as nat));
        assert(pow2(0) == 1);
    }
    if gap <= 60 {
        let high: u128 = shifted(m, gap);
        proof {
            lemma_pow2_adds(gap as nat, k as nat);
            assert(a == high as nat * pow2(k as nat)) by (nonlinear_arith)
                requires
                    a == m as nat * pow2(j as nat),
                    high == m as nat * pow2(gap as nat),
                    pow2(j as nat) == pow2(gap as nat) * pow2(k as nat),
            ;
            parts::lemma_pow2_ordered(gap as nat, 60);
            assert(high <= 0x20_0000_0000_0000 * 0x1000_0000_0000_0000) by (nonlinear_arith)
                requires
                    high == m as nat * pow2(gap as nat),
                    m <= 0x20_0000_0000_0000,
                    pow2(gap as nat) <= 0x1000_0000_0000_0000,
            ;
            lemma_pow2_pos(k as nat);
            if apart && high < n as nat {
                lemma_mul_strict_inequality(high as int, n as int, pow2(k as nat) as int);
            }
            lemma_mul_is_distributive_sub_other_way(
                pow2(k as nat) as int,
                high as int,
                n as int,
            );
            lemma_mul_is_distributive_add_other_way(
                pow2(k as nat) as int,
                high as int,
                n as int,
            );
        }
        let sum: u128 = if apart { high - n as u128 } else { high + n as u128 };
        proof {
            assert(exact == sum as nat * pow2(k as nat));
            lemma_exact_brackets(exact, sum as nat, k as nat);
        }
        parts::round_parts(format, negative, sum, k, false, 0, Ghost(exact), Ghost(1))
    } else {
        // the second magnitude is too small to show but for the rounding
        let ghost s: nat = (j - 4) as nat;
        proof {
            lemma_pow2_adds(4, s);
            assert(a == 16 * m as nat * pow2(s)) by (nonlinear_arith)
                requires
                    a == m as nat * pow2(j as nat),
                    pow2(j as nat) == 16 * pow2(s),
            ;
            assert(b < pow2(s)) by {
                lemma_pow2_pos(k as nat);
                lemma_mul_strict_inequality(n as int, pow2(53) as int, pow2(k as nat) as int);
                lemma_pow2_adds(53, k as nat);
                parts::lemma_pow2_ordered(53 + k as nat, s);
            }
            assert((16 * m as nat + 1) * (1 * pow2(s)) == a + pow2(s)) by (nonlinear_arith)
                requires
                    a == 16 * m as nat * pow2(s),
            ;
            assert((16 * m as nat) * (1 * pow2(s)) == a);
            lemma_zero_units(n, k);
            assert(m > 0);
            assert((16 * m - 1) as nat * (1 * pow2(s)) == a - pow2(s)) by (nonlinear_arith)
                requires
                    a == 16 * m as nat * pow2(s),
                    m > 0,
            ;
        }
        let near: u128 = if apart && n != 0 { 16 * m as u128 - 1 } else { 16 * m as u128 };
        parts::round_parts(format, negative, near, j - 4, n != 0, 0, Ghost(exact), Ghost(1))
    }
}

/// A whole multiple of a step starts it.
proof fn lemma_exact_brackets(num: nat, m: nat, k: nat)
    requires
        num == m * pow2(k),
    ensures
        parts::brackets(num, 1, m, k, false),
{
    lemma_pow2_pos(k);
    assert(1 * pow2(k) == pow2(k));
    lemma_mul_is_distributive_add_other_way(pow2(k) as int, m as int, 1);
}

/// The sum of two numbers.
pub fn plus(format: Format, a: Parts, b: Parts) -> (r: Parts)
    requires
        a.fits(format),
        b.fits(format),
    ensures
        r.fits(format),
        r@ == model::plus(format, a@, b@),
{
    match (a, b) {
        (Parts::Nan, _) => Parts::Nan,
        (_, Parts::Nan) => Parts::Nan,
        (Parts::Infinite { negative: x }, Parts::Infinite { negative: y }) => {
            if x == y {
                a
            } else {
                Parts::Nan
            }
        },
        (Parts::Infinite { .. }, Parts::Finite { .. }) => a,
        (Parts::Finite { .. }, Parts::Infinite { .. }) => b,
        (
            Parts::Finite { negative: x, mantissa: m, scale: j },
            Parts::Finite { negative: y, mantissa: n, scale: k },
        ) => {
            let apart = x != y;
            let turned = smaller(Ghost(format), m, j, n, k);
            let (s, hm, hj, ln, lk): (bool, u64, u32, u64, u32) = if turned {
                (y, n, k, m, j)
            } else {
                (x, m, j, n, k)
            };
            proof {
                lemma_zero_units(m, j);
                lemma_zero_units(n, k);
                if hj < lk {
                    lemma_lower_scale(format, hm, hj, ln, lk);
                }
            }
            if hm == 0 {
                // the smaller magnitude is zero as well
                proof {
                    lemma2_to64();
                }
                Parts::Finite { negative: x && y, mantissa: 0, scale: 0 }
            } else if apart && hm == ln && hj == lk {
                Parts::Finite { negative: false, mantissa: 0, scale: 0 }
            } else {
                proof {
                    if apart && hj == lk {
                        lemma_pow2_pos(hj as nat);
                        if hm < ln {
                            lemma_mul_strict_inequality(
                                hm as int,
                                ln as int,
                                pow2(hj as nat) as int,
                            );
                        } else {
                            lemma_mul_strict_inequality(
                                ln as int,
                                hm as int,
                                pow2(hj as nat) as int,
                            );
                        }
                    } else if apart {
                        lemma_lower_scale(format, ln, lk, hm, hj);
                    }
                }
                join(format, s, apart, hm, hj, ln, lk)
            }
        },
    }
}

/// The product of two numbers.
pub fn times(format: Format, a: Parts, b: Parts) -> (r: Parts)
    requires
        a.fits(format),
        b.fits(format),
    ensures
        r.fits(format),
        r@ == model::times(format, a@, b@),
{
    match (a, b) {
        (Parts::Nan, _) => Parts::Nan,
        (_, Parts::Nan) => Parts::Nan,
        (Parts::Infinite { negative: x }, Parts::Infinite { negative: y }) => Parts::Infinite {
            negative: x != y,
        },
        (Parts::Infinite { negative: x }, Parts::Finite { negative: y, mantissa, scale }) => {
            proof {
                lemma_zero_units(mantissa, scale);
            }
            if mantissa == 0 {
                Parts::Nan
            } else {
                Parts::Infinite { negative: x != y }
            }
        },
        (Parts::Finite { negative: x, mantissa, scale }, Parts::Infinite { negative: y }) => {
            proof {
                lemma_zero_units(mantissa, scale);
            }
            if mantissa == 0 {
                Parts::Nan
            } else {
                Parts::Infinite { negative: x != y }
            }
        },
        (
            Parts::Finite { negative: x, mantissa: m, scale: j },
            Parts::Finite { negative: y, mantissa: n, scale: k },
        ) => {
            let ghost num: nat = (m as nat * pow2(j as nat)) * (n as nat * pow2(k as nat));
            proof {
                lemma2_to64();
                lemma2_to64_rest();
                assert(m * n <= 0x20_0000_0000_0000 * 0x20_0000_0000_0000) by (nonlinear_arith)
                    requires
                        0 <= m <= 0x20_0000_0000_0000,
                        0 <= n <= 0x20_0000_0000_0000,
                ;
                lemma_pow2_adds(j as nat, k as nat);
                assert(num == (m * n) as nat * pow2(j as nat + k as nat)) by (nonlinear_arith)
                    requires
                        num == (m as nat * pow2(j as nat)) * (n as nat * pow2(k as nat)),
                        pow2(j as nat + k as nat) == pow2(j as nat) * pow2(k as nat),
                ;
                lemma_exact_brackets(num, (m * n) as nat, j as nat + k as nat);
            }
            parts::round_parts(
                format,
                x != y,
                m as u128 * n as u128,
                j + k,
                false,
                parts::one(format),
                Ghost(num),
                Ghost(1),
            )
        },
    }
}

/// Doubles a mantissa until it fills its word; also says how often.
fn widen(m: u64) -> (r: (u64, u32))
    requires
        m > 0,
    ensures
        r.0 >= 0x8000_0000_0000_0000,
        r.1 < 64,
        r.0 as nat == m as nat * pow2(r.1 as nat),
{
    let mut w: u64 = m;
    let mut z: u32 = 0;
    proof {
        lemma2_to64();
    }
    while w < 0x8000_0000_0000_0000
        invariant
            m > 0,
            z < 64,
            w as nat == m as nat * pow2(z as nat),
        decreases 64 - z,
    {
        proof {
            lemma_pow2_unfold((z + 1) as nat);
            assert(m as nat * pow2((z + 1) as nat) == 2 * (m as nat * pow2(z as nat)))
                by (nonlinear_arith)
                requires
                    pow2((z + 1) as nat) == 2 * pow2(z as nat),
            ;
            lemma_zero_units(m, z);
            if z == 63 {
                lemma2_to64_rest();
                assert(m as nat * pow2(63) >= pow2(63)) by (nonlinear_arith)
                    requires
                        m >= 1,
                ;
                assert(false);
            }
        }
        w = w * 2;
        z = z + 1;
    }
    (w, z)
}

/// The quotient of two numbers.
pub fn over(format: Format, a: Parts, b: Parts) -> (r: Parts)
    requires
        a.fits(format),
        b.fits(format),
    ensures
        r.fits(format),
        r@ == model::over(format, a@, b@),
{
    match (a, b) {
        (Parts::Nan, _) => Parts::Nan,
        (_, Parts::Nan) => Parts::Nan,
        (Parts::Infinite { .. }, Parts::Infinite { .. }) => Parts::Nan,
        (Parts::Infinite { negative: x }, Parts::Finite { negative: y, .. }) => Parts::Infinite {
            negative: x != y,
        },
        (Parts::Finite { negative: x, .. }, Parts::Infinite { negative: y }) => {
            proof {
                assert(0 * pow2(0) == 0);
            }
            Parts::Finite { negative: x != y, mantissa: 0, scale: 0 }
        },
        (
            Parts::Finite { negative: x, mantissa: m, scale: j },
            Parts::Finite { negative: y, mantissa: n, scale: k },
        ) => {
            proof {
                lemma_zero_units(m, j);
                lemma_zero_units(n, k);
            }
            if n == 0 {
                if m == 0 {
                    Parts::Nan
                } else {
                    Parts::Infinite { negative: x != y }
                }
            } else {
                divide(format, x != y, m, j, n, k)
            }
        },
    }
}

/// The quotient of two magnitudes.
fn divide(format: Format, negative: bool, m: u64, j: u32, n: u64, k: u32) -> (r: Parts)
    requires
        n > 0,
        (Parts::Finite { negative, mantissa: m, scale: j }).fits(format),
        (Parts::Finite { negative, mantissa: n, scale: k }).fits(format),
    ensures
        r.fits(format),
        r@ == model::round(
            format,
            negative,
            m as nat * pow2(j as nat) * pow2(format.one()),
            n as nat * pow2(k as nat),
        ),
{
    let one = parts::one(format);
    let ghost p = format.precision();
    let ghost num: nat = m as nat * pow2(j as nat) * pow2(format.one());
    let ghost den: nat = n as nat * pow2(k as nat);
    proof {
        lemma2_to64();
        lemma2_to64_rest();
        lemma_zero_units(n, k);
    }
    if m == 0 {
        proof {
            assert(0 * pow2(j as nat) == 0);
            assert(0 * pow2(format.one()) == 0);
            assert(den * pow2(0) == den);
            assert(parts::brackets(0, den, 0, 0, false)) by {
                let step = den * pow2(0);
                assert((0nat + 1) * step == step) by (nonlinear_arith);
                assert(0nat * step == 0) by (nonlinear_arith);
            }
        }
        return parts::round_parts(format, negative, 0, 0, false, 0, Ghost(0), Ghost(den));
    }
    let (w, z) = widen(m);
    let high: u128 = shifted(w, 64);
    let q: u128 = high / n as u128;
    let left: u128 = high % n as u128;
    let s: u32 = z + 64;
    let ghost e: nat = (j + one) as nat;
    let ghost wide: nat = high as nat * pow2(e);
    proof {
        lemma_pow2_adds(z as nat, 64);
        assert(high as nat == m as nat * pow2(s as nat)) by (nonlinear_arith)
            requires
                high as nat == w as nat * pow2(64),
                w as nat == m as nat * pow2(z as nat),
                pow2(s as nat) == pow2(z as nat) * pow2(64),
        ;
        lemma_fundamental_div_mod(high as int, n as int);
        // the quotient holds enough digits
        assert(q >= pow2(p)) by {
            parts::lemma_pow2_ordered(p, 53);
            assert(q >= 0x20_0000_0000_0000) by (nonlinear_arith)
                requires
                    high == n * q + left,
                    left < n,
                    0 < n <= 0x20_0000_0000_0000,
                    high >= 0x8000_0000_0000_0000 * 0x1_0000_0000_0000_0000,
            ;
        }
        // its step
        let step: nat = n as nat * pow2(e);
        lemma_pow2_pos(e);
        assert(wide == q as nat * step + left as nat * pow2(e)) by (nonlinear_arith)
            requires
                wide == high as nat * pow2(e),
                high == n * q + left,
                step == n as nat * pow2(e),
        ;
        assert(left as nat * pow2(e) < step) by (nonlinear_arith)
            requires
                left < n,
                pow2(e) > 0,
                step == n as nat * pow2(e),
        ;
        assert((q as nat + 1) * step == q as nat * step + step) by (nonlinear_arith);
        assert(left as nat * pow2(e) == 0 <==> left == 0) by (nonlinear_arith)
            requires
                pow2(e) > 0,
        ;
        assert(parts::brackets(wide, n as nat, q as nat, e, left != 0));
        // cancelling what the dividend was widened by
        lemma_pow2_adds(j as nat, one as nat);
        assert(wide == num * pow2(s as nat)) by (nonlinear_arith)
            requires
                wide == high as nat * pow2(e),
                high as nat == m as nat * pow2(s as nat),
                pow2(e) == pow2(j as nat) * pow2(one as nat),
                num == m as nat * pow2(j as nat) * pow2(one as nat),
        ;
        lemma_pow2_adds(k as nat, s as nat);
        assert(n as nat * pow2((k + s) as nat) == den * pow2(s as nat)) by (nonlinear_arith)
            requires
                den == n as nat * pow2(k as nat),
                pow2((k + s) as nat) == pow2(k as nat) * pow2(s as nat),
        ;
        lemma_pow2_pos(s as nat);
        parts::lemma_round_cancels(p, num, den, pow2(s as nat));
    }
    parts::round_parts(
        format,
        negative,
        q,
        j + one,
        left != 0,
        k + s,
        Ghost(wide),
        Ghost(n as nat),
    )
}

/// A 64-bit number brought to 32 bits.
pub fn narrowed(a: Parts) -> (r: Parts)
    requires
        a.fits(Format::Binary64),
    ensures
        r.fits(Format::Binary32),
        r@ == model::narrowed(a@),
{
    match a {
        Parts::Finite { negative, mantissa, scale } => {
            let ghost num: nat = mantissa as nat * pow2(scale as nat);
            proof {
                lemma_exact_brackets(num, mantissa as nat, scale as nat);
            }
            parts::round_parts(
                Format::Binary32,
                negative,
                mantissa as u128,
                scale,
                false,
                925,
                Ghost(num),
                Ghost(1),
            )
        },
        _ => a,
    }
}

/// A 32-bit number as the 64-bit number of the same value.
pub fn widened(a: Parts) -> (r: Parts)
    requires
        a.fits(Format::Binary32),
    ensures
        r.fits(Format::Binary64),
        r@ == model::widened(a@),
{
    match a {
        Parts::Finite { negative, mantissa, scale } => {
            proof {
                parts::lemma_pow2_ordered(24, 53);
                lemma_pow2_adds(scale as nat, 925);
                lemma_mul_is_associative(
                    mantissa as int,
                    pow2(scale as nat) as int,
                    pow2(925) as int,
                );
            }
            parts::place(Format::Binary64, negative, mantissa, scale + 925)
        },
        _ => a,
    }
}

/// The whole part of a square root.
fn floor_root(n: u128) -> (r: u64)
    ensures
        r as nat * r as nat <= n < (r as nat + 1) * (r as nat + 1),
{
    let mut low: u128 = 0;
    let mut high: u128 = 0x1_0000_0000_0000_0000;
    while high - low > 1
        invariant
            low < high <= 0x1_0000_0000_0000_0000,
            low * low <= n < high * high,
        decreases high - low,
    {
        let middle: u128 = low + (high - low) / 2;
        proof {
            assert(middle * middle <= 0xffff_ffff_ffff_ffff * 0xffff_ffff_ffff_ffff)
                by (nonlinear_arith)
                requires
                    0 <= middle <= 0xffff_ffff_ffff_ffff,
            ;
        }
        if middle * middle <= n {
            low = middle;
        } else {
            high = middle;
        }
    }
    low as u64
}

/// The root at the right scale is what its square is held by.
proof fn lemma_root_is(p: nat, num: nat, k: nat, q: nat)
    requires
        p > 0,
        q < pow2(p),
        q >= pow2((p - 1) as nat),
        model::is_floor_root(num, pow2(k), q),
    ensures
        model::root_units(p, num) == model::nearest_root(num, pow2(k)) * pow2(k),
        model::nearest_root(num, pow2(k)) == ({
            let middle = (2 * q + 1) * pow2(k);
            if 4 * num < middle * middle || (4 * num == middle * middle && q % 2 == 0) {
                q
            } else {
                q + 1
            }
        }),
{
    lemma_pow2_pos(k);
    // the floor is one
    let f = choose|q: nat| model::is_floor_root(num, pow2(k), q);
    let step = pow2(k);
    assert(f == q) by {
        if f < q {
            lemma_square_order((f + 1) * step, q * step);
            assert((f + 1) * step <= q * step) by (nonlinear_arith)
                requires
                    f < q,
            ;
        } else if q < f {
            lemma_square_order((q + 1) * step, f * step);
            assert((q + 1) * step <= f * step) by (nonlinear_arith)
                requires
                    q < f,
            ;
        }
    }
    // so is the scale
    assert(model::is_root_scale(p, num, k)) by {
        lemma_pow2_adds(p, k);
        lemma_pow2_adds(p + k, p + k);
        assert((q + 1) * step <= pow2(p) * step) by (nonlinear_arith)
            requires
                q < pow2(p),
        ;
        lemma_square_order((q + 1) * step, pow2(p + k));
        assert(p + k + (p + k) == 2 * (p + k));
        if k > 0 {
            let h = (p + k - 1) as nat;
            lemma_pow2_adds((p - 1) as nat, k);
            assert((p - 1) as nat + k == h);
            lemma_pow2_adds(h, h);
            assert(q * step >= pow2((p - 1) as nat) * step) by (nonlinear_arith)
                requires
                    q >= pow2((p - 1) as nat),
            ;
            lemma_square_order(pow2(h), q * step);
            assert(h + h == (2 * (p + k - 1)) as nat);
        }
    }
    let c = choose|k: nat| model::is_root_scale(p, num, k);
    assert(model::is_root_scale(p, num, c));
    if c < k {
        parts::lemma_pow2_ordered(2 * (p + c), (2 * (p + k - 1)) as nat);
    } else if k < c {
        parts::lemma_pow2_ordered(2 * (p + k), (2 * (p + c - 1)) as nat);
    }
}

/// Squares are ordered as their roots.
proof fn lemma_square_order(a: nat, b: nat)
    ensures
        a <= b ==> a * a <= b * b,
        a < b ==> a * a < b * b,
{
    assert(a <= b ==> a * a <= b * b) by (nonlinear_arith);
    assert(a < b ==> a * a < b * b) by (nonlinear_arith);
}

/// The square root of a magnitude.
fn extract(format: Format, m: u64, j: u32) -> (r: Parts)
    requires
        m > 0,
        (Parts::Finite { negative: false, mantissa: m, scale: j }).fits(format),
    ensures
        r.fits(format),
        r@ == model::settle(
            format,
            false,
            model::root_units(
                format.precision(),
                m as nat * pow2(j as nat) * pow2(format.one()),
            ),
        ),
{
    let one = parts::one(format);
    let limit = parts::full(format);
    let ghost p = format.precision();
    let ghost num: nat = m as nat * pow2(j as nat) * pow2(format.one());
    let (w, z) = widen(m);
    // an even scale is left over
    let odd: bool = (j + one + z) % 2 == 1;
    let by: u32 = if odd { 63 } else { 64 };
    let wide: u128 = shifted(w, by);
    let h: u32 = (j + one - z - by) / 2;
    let l: u64 = floor_root(wide);
    let (digit, below): (u64, u32) = match format {
        Format::Binary32 => (0x100_0000_0000, 40),
        Format::Binary64 => (0x800, 11),
    };
    let q: u64 = l / digit;
    let left: u64 = l % digit;
    let half: u64 = digit / 2;
    let k: u32 = h + below;
    let exact: bool = l as u128 * l as u128 == wide;
    proof {
        lemma2_to64();
        lemma2_to64_rest();
        // num == wide * 4^h
        lemma_pow2_adds(j as nat, one as nat);
        lemma_pow2_adds(z as nat, by as nat);
        assert(2 * h as nat + (z + by) as nat == (j + one) as nat);
        lemma_pow2_adds((z + by) as nat, 2 * h as nat);
        lemma_pow2_adds(h as nat, h as nat);
        let g = pow2(h as nat);
        assert(num == wide as nat * (g * g)) by (nonlinear_arith)
            requires
                num == m as nat * pow2(j as nat) * pow2(one as nat),
                wide as nat == w as nat * pow2(by as nat),
                w as nat == m as nat * pow2(z as nat),
                pow2((j + one) as nat) == pow2(j as nat) * pow2(one as nat),
                pow2((z + by) as nat) == pow2(z as nat) * pow2(by as nat),
                pow2((j + one) as nat) == pow2((z + by) as nat) * pow2(2 * h as nat),
                pow2(2 * h as nat) == g * g,
        ;
        // the floor has all its digits
        assert(wide >= 0x4000_0000_0000_0000 * 0x1_0000_0000_0000_0000) by (nonlinear_arith)
            requires
                wide as nat == w as nat * pow2(by as nat),
                w >= 0x8000_0000_0000_0000,
                pow2(by as nat) >= 0x8000_0000_0000_0000,
        ;
        assert(l >= 0x8000_0000_0000_0000) by (nonlinear_arith)
            requires
                (l + 1) * (l + 1) > wide,
                wide >= 0x4000_0000_0000_0000 * 0x1_0000_0000_0000_0000,
        ;
        lemma_fundamental_div_mod(l as int, digit as int);
        assert(digit as nat == pow2(below as nat));
        lemma_pow2_adds(h as nat, below as nat);
        let step = pow2(k as nat);
        assert(q < limit && q >= limit / 2);
        // brackets on the count of steps
        assert(q * digit <= l < (q + 1) * digit) by (nonlinear_arith)
            requires
                l == digit * q + left,
                0 <= left < digit,
        ;
        assert(q as nat * step == (q as nat * digit as nat) * g) by (nonlinear_arith)
            requires
                step == g * digit as nat,
        ;
        assert((q as nat + 1) * step == ((q as nat + 1) * digit as nat) * g) by (nonlinear_arith)
            requires
                step == g * digit as nat,
        ;
        lemma_pow2_pos(h as nat);
        lemma_square_under(q as nat * digit as nat, l as nat, wide as nat, g, num);
        lemma_square_over((q as nat + 1) * digit as nat, l as nat, wide as nat, g, num);
        assert(model::is_floor_root(num, step, q as nat));
        lemma_root_is(p, num, k as nat, q as nat);
        // the middle of the step
        let mid: nat = q as nat * digit as nat + half as nat;
        let middle = (2 * q as nat + 1) * step;
        assert(middle == 2 * (mid * g)) by (nonlinear_arith)
            requires
                middle == (2 * q as nat + 1) * step,
                step == g * digit as nat,
                mid == q as nat * digit as nat + half as nat,
                digit == 2 * half,
        ;
        assert(middle * middle == 4 * ((mid * g) * (mid * g))) by (nonlinear_arith)
            requires
                middle == 2 * (mid * g),
        ;
        assert(l < mid <==> left < half) by (nonlinear_arith)
            requires
                l == digit * q + left,
                mid == q as nat * digit as nat + half as nat,
        ;
        assert(l == mid <==> left == half) by (nonlinear_arith)
            requires
                l == digit * q + left,
                mid == q as nat * digit as nat + half as nat,
        ;
        if l < mid {
            lemma_square_over(mid, l as nat, wide as nat, g, num);
        } else {
            lemma_square_under(mid, l as nat, wide as nat, g, num);
            if l > mid || !exact {
                lemma_square_order(mid, l as nat);
                assert(mid * mid < wide);
                assert((mid * g) * (mid * g) < num) by (nonlinear_arith)
                    requires
                        mid * mid < wide,
                        g > 0,
                        num == wide as nat * (g * g),
                ;
            } else {
                assert((mid * g) * (mid * g) == num) by (nonlinear_arith)
                    requires
                        mid * mid == wide,
                        num == wide as nat * (g * g),
                ;
            }
        }
    }
    let up: bool = left > half || left == half && (!exact || q % 2 == 1);
    let rounded: u64 = if up { q + 1 } else { q };
    parts::finish(format, false, rounded, k)
}

proof fn lemma_square_under(x: nat, l: nat, wide: nat, g: nat, num: nat)
    requires
        x <= l,
        l * l <= wide,
        num == wide * (g * g),
    ensures
        (x * g) * (x * g) <= num,
{
    lemma_square_order(x, l);
    assert((x * g) * (x * g) <= num) by (nonlinear_arith)
        requires
            x * x <= wide,
            num == wide * (g * g),
    ;
}

proof fn lemma_square_over(x: nat, l: nat, wide: nat, g: nat, num: nat)
    requires
        x >= l + 1,
        (l + 1) * (l + 1) > wide,
        g > 0,
        num == wide * (g * g),
    ensures
        (x * g) * (x * g) > num,
{
    lemma_square_order(l + 1, x);
    assert((x * g) * (x * g) > num) by (nonlinear_arith)
        requires
            x * x > wide,
            g > 0,
            num == wide * (g * g),
    ;
}

/// The square root of a number.
pub fn root(format: Format, a: Parts) -> (r: Parts)
    requires
        a.fits(format),
    ensures
        r.fits(format),
        r@ == model::root(format, a@),
{
    match a {
        Parts::Nan => Parts::Nan,
        Parts::Infinite { negative } => {
            if negative {
                Parts::Nan
            } else {
                a
            }
        },
        Parts::Finite { negative, mantissa, scale } => {
            proof {
                lemma_zero_units(mantissa, scale);
            }
            if mantissa == 0 {
                a
            } else if negative {
                Parts::Nan
            } else {
                extract(format, mantissa, scale)
            }
        },
    }
}

} // verus!
