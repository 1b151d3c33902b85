//! Numbers taken apart into sign, mantissa and scale, and the one rounding
//! that every operation ends in.

use crate::float::model;
use crate::float::model::{Datum, Format};
use vstd::prelude::*;
use vstd::arithmetic::div_mod::*;
use vstd::arithmetic::mul::*;
use vstd::arithmetic::power2::*;

verus! {

/// A number taken apart. A finite one is `mantissa * 2^scale` units.
#[derive(Clone, Copy, Debug)]
pub enum Parts {
    Nan,
    Infinite { negative: bool },
    Finite { negative: bool, mantissa: u64, scale: u32 },
}

impl View for Parts {
    type V = Datum;

    open spec fn view(&self) -> Datum {
        match *self {
            Parts::Nan => Datum::Nan,
            Parts::Infinite { negative } => Datum::Infinite { negative },
            Parts::Finite { negative, mantissa, scale } => Datum::Finite {
                negative,
                units: mantissa as nat * pow2(scale as nat),
            },
        }
    }
}

impl Parts {
    /// Whether the parts are those of a number of the format: the mantissa fits,
    /// and it is full unless the scale is at the bottom.
    pub open spec fn fits(self, format: Format) -> bool {
        match self {
            Parts::Finite { mantissa, scale, .. } => {
                &&& scale <= format.top()
                &&& mantissa < pow2(format.precision())
                &&& scale == 0 || mantissa >= pow2((format.precision() - 1) as nat)
            },
            _ => true,
        }
    }
}

/// `2^p` for the precision `p` of the format.
pub fn full(format: Format) -> (r: u64)
    ensures
        r == pow2(format.precision()),
        r == 2 * pow2((format.precision() - 1) as nat),
        0x100_0000 <= r <= 0x20_0000_0000_0000,
{
    proof {
        lemma2_to64();
        lemma2_to64_rest();
        lemma_pow2_unfold(24);
        lemma_pow2_unfold(53);
    }
    match format {
        Format::Binary32 => 0x100_0000,
        Format::Binary64 => 0x20_0000_0000_0000,
    }
}

/// The largest scale of the format.
pub fn top(format: Format) -> (r: u32)
    ensures
        r == format.top(),
{
    match format {
        Format::Binary32 => 253,
        Format::Binary64 => 2045,
    }
}

/// The scale at which a mantissa of one is the number one.
pub fn one(format: Format) -> (r: u32)
    ensures
        r == format.one(),
{
    match format {
        Format::Binary32 => 149,
        Format::Binary64 => 1074,
    }
}

pub proof fn lemma_pow2_ordered(a: nat, b: nat)
    requires
        a <= b,
    ensures
        0 < pow2(a) <= pow2(b),
{
    lemma_pow2_pos(a);
    if a < b {
        lemma_pow2_strictly_increases(a, b);
    }
}

/// A ratio has one scale only.
pub proof fn lemma_scale_is(p: nat, num: nat, den: nat, k: nat)
    requires
        den > 0,
        model::is_scale(p, num, den, k),
    ensures
        model::scale(p, num, den) == k,
{
    let j = model::scale(p, num, den);
    assert(model::is_scale(p, num, den, j));
    if j < k {
        lemma_pow2_ordered(p + j, (p + k - 1) as nat);
        lemma_mul_inequality(pow2(p + j) as int, pow2((p + k - 1) as nat) as int, den as int);
        lemma_mul_is_commutative(den as int, pow2(p + j) as int);
        lemma_mul_is_commutative(den as int, pow2((p + k - 1) as nat) as int);
    } else if k < j {
        lemma_pow2_ordered(p + k, (p + j - 1) as nat);
        lemma_mul_inequality(pow2(p + k) as int, pow2((p + j - 1) as nat) as int, den as int);
        lemma_mul_is_commutative(den as int, pow2(p + k) as int);
        lemma_mul_is_commutative(den as int, pow2((p + j - 1) as nat) as int);
    }
}

/// The powers of two outgrow their exponents.
pub proof fn lemma_pow2_outgrows(n: nat)
    ensures
        pow2(n) > n,
    decreases n,
{
    lemma2_to64();
    if n > 0 {
        lemma_pow2_outgrows((n - 1) as nat);
        lemma_pow2_unfold(n);
    }
}

/// Every ratio has a scale, found here by a search from `k` on.
proof fn lemma_find_scale(p: nat, num: nat, den: nat, k: nat) -> (r: nat)
    requires
        den > 0,
        k == 0 || num >= den * pow2((p + k - 1) as nat),
    ensures
        model::is_scale(p, num, den, r),
    decreases num - k,
{
    if num < den * pow2(p + k) {
        k
    } else {
        lemma_pow2_outgrows(p + k);
        assert(num > k) by (nonlinear_arith)
            requires
                num >= den * pow2(p + k),
                den > 0,
                pow2(p + k) > p + k,
        ;
        lemma_find_scale(p, num, den, k + 1)
    }
}

/// The scale of a ratio is one.
pub proof fn lemma_scale(p: nat, num: nat, den: nat)
    requires
        den > 0,
    ensures
        model::is_scale(p, num, den, model::scale(p, num, den)),
{
    let k = lemma_find_scale(p, num, den, 0);
    lemma_scale_is(p, num, den, k);
}

/// A ratio rounds the same when both its terms are multiplied by a number.
pub proof fn lemma_round_cancels(p: nat, num: nat, den: nat, c: nat)
    requires
        den > 0,
        c > 0,
    ensures
        model::round_units(p, num * c, den * c) == model::round_units(p, num, den),
{
    let k = model::scale(p, num, den);
    lemma_scale(p, num, den);
    let a = pow2(p + k);
    assert(num * c < (den * c) * a) by (nonlinear_arith)
        requires
            num < den * a,
            c > 0,
    ;
    if k > 0 {
        let b = pow2((p + k - 1) as nat);
        assert(num * c >= (den * c) * b) by (nonlinear_arith)
            requires
                num >= den * b,
                c > 0,
        ;
    }
    assert(den * c > 0) by (nonlinear_arith)
        requires
            den > 0,
            c > 0,
    ;
    lemma_scale_is(p, num * c, den * c, k);
    let w = den * pow2(k);
    lemma_pow2_pos(k);
    assert(w > 0) by (nonlinear_arith)
        requires
            den > 0,
            pow2(k) > 0,
            w == den * pow2(k),
    ;
    assert((den * c) * pow2(k) == w * c) by (nonlinear_arith)
        requires
            w == den * pow2(k),
    ;
    let q = num / w;
    let r = num % w;
    lemma_fundamental_div_mod(num as int, w as int);
    assert(num * c == q * (w * c) + r * c) by (nonlinear_arith)
        requires
            num == w * q + r,
    ;
    assert(0 <= r * c < w * c) by (nonlinear_arith)
        requires
            0 <= r < w,
            c > 0,
    ;
    lemma_fundamental_div_mod_converse((num * c) as int, (w * c) as int, q as int, (r * c) as int);
    assert(2 * (r * c) < w * c <==> 2 * r < w) by (nonlinear_arith)
        requires
            c > 0,
    ;
    assert(2 * (r * c) == w * c <==> 2 * r == w) by (nonlinear_arith)
        requires
            c > 0,
    ;
}

/// The rounded mantissa follows from the quotient at the right scale, its half
/// digit and whether anything is left below it.
proof fn lemma_round_from(
    p: nat,
    num: nat,
    den: nat,
    k: nat,
    q: nat,
    half: bool,
    rest: bool,
    d: nat,
)
    requires
        p > 0,
        den > 0,
        d > 0,
        den * pow2(k) == 2 * d,
        q < pow2(p),
        k == 0 || q >= pow2((p - 1) as nat),
        ({
            let low = 2 * q + if half { 1int } else { 0 };
            &&& low * d <= num < (low + 1) * d
            &&& rest <==> low * d != num
        }),
    ensures
        model::round_units(p, num, den) == (if half && (rest || q % 2 == 1) {
            q + 1
        } else {
            q
        }) * pow2(k),
{
    let w: nat = den * pow2(k);
    let low = 2 * q + if half { 1int } else { 0 };
    assert(q * w == 2 * q * d) by (nonlinear_arith)
        requires
            w == 2 * d,
    ;
    assert((q + 1) * w == 2 * q * d + 2 * d) by (nonlinear_arith)
        requires
            w == 2 * d,
    ;
    assert(low * d == 2 * q * d + (if half { d as int } else { 0 })) by (nonlinear_arith)
        requires
            low == 2 * q + if half { 1int } else { 0 },
    ;
    assert((low + 1) * d == low * d + d) by (nonlinear_arith);
    let r = num - q * w;
    assert(0 <= r < w);
    lemma_fundamental_div_mod_converse(num as int, w as int, q as int, r);
    assert(model::nearest_even(num, w) == if half && (rest || q % 2 == 1) {
        q + 1
    } else {
        q
    });
    // the scale
    assert(num < den * pow2(p + k)) by {
        lemma_pow2_adds(p, k);
        assert((q + 1) * w <= pow2(p) * w) by (nonlinear_arith)
            requires
                q + 1 <= pow2(p),
        ;
        assert(pow2(p) * w == den * (pow2(p) * pow2(k))) by (nonlinear_arith)
            requires
                w == den * pow2(k),
        ;
    }
    if k > 0 {
        let h = pow2((p - 1) as nat);
        lemma_pow2_adds((p - 1) as nat, k);
        assert(q * w >= h * w) by (nonlinear_arith)
            requires
                q >= h,
        ;
        assert(h * w == den * (h * pow2(k))) by (nonlinear_arith)
            requires
                w == den * pow2(k),
        ;
        assert((p - 1) as nat + k == (p + k - 1) as nat);
    }
    lemma_scale_is(p, num, den, k);
}

/// Brings a mantissa of at most `2^p` at its right scale to the format.
pub fn finish(format: Format, negative: bool, mantissa: u64, scale: u32) -> (r: Parts)
    requires
        mantissa <= pow2(format.precision()),
        scale == 0 || mantissa >= pow2((format.precision() - 1) as nat),
        scale < u32::MAX,
    ensures
        r.fits(format),
        r@ == model::settle(format, negative, mantissa as nat * pow2(scale as nat)),
{
    let limit = full(format);
    let most = top(format);
    let ghost p = format.precision();
    proof {
        lemma_pow2_unfold((scale + 1) as nat);
        lemma_pow2_adds(p, format.top());
        lemma_pow2_adds((p - 1) as nat, (format.top() + 1) as nat);
        assert((p - 1) as nat + (format.top() + 1) as nat == p + format.top());
    }
    let (m, s): (u64, u32) = if mantissa == limit {
        assert(mantissa as nat * pow2(scale as nat) == (limit / 2) as nat * pow2(
            (scale + 1) as nat,
        )) by (nonlinear_arith)
            requires
                mantissa as nat == 2 * (limit / 2) as nat,
                pow2((scale + 1) as nat) == 2 * pow2(scale as nat),
        ;
        (limit / 2, scale + 1)
    } else {
        (mantissa, scale)
    };
    if s > most {
        proof {
            lemma_pow2_ordered((format.top() + 1) as nat, s as nat);
            lemma_mul_upper_bound(
                pow2((p - 1) as nat) as int,
                m as int,
                pow2((format.top() + 1) as nat) as int,
                pow2(s as nat) as int,
            );
        }
        Parts::Infinite { negative }
    } else {
        proof {
            lemma_pow2_ordered(s as nat, format.top());
            assert(m as nat * pow2(s as nat) < pow2(p) * pow2(format.top())) by (nonlinear_arith)
                requires
                    m < pow2(p),
                    0 < pow2(s as nat) <= pow2(format.top()),
            ;
        }
        Parts::Finite { negative, mantissa: m, scale: s }
    }
}

/// Whether the ratio `num / den` lies in the step that starts at
/// `mantissa * 2^scale`, and strictly inside it just where `sticky` says so.
pub open spec fn brackets(num: nat, den: nat, mantissa: nat, scale: nat, sticky: bool) -> bool {
    let step = den * pow2(scale);
    &&& mantissa * step <= num < (mantissa + 1) * step
    &&& sticky <==> mantissa * step != num
}

/// Rounds the ratio `num / (den * 2^base)` units, of which the leading digits
/// are `mantissa * 2^scale`.
pub fn round_parts(
    format: Format,
    negative: bool,
    mantissa: u128,
    scale: u32,
    sticky: bool,
    base: u32,
    Ghost(num): Ghost<nat>,
    Ghost(den): Ghost<nat>,
) -> (r: Parts)
    requires
        den > 0,
        scale <= 10_000,
        base <= 10_000,
        brackets(num, den, mantissa as nat, scale as nat, sticky),
        sticky ==> scale < base || mantissa >= pow2(format.precision()),
    ensures
        r.fits(format),
        r@ == model::round(format, negative, num, den * pow2(base as nat)),
{
    let limit: u128 = full(format) as u128;
    let ghost p = format.precision();
    let ghost dd: nat = den * pow2(base as nat);
    proof {
        lemma_pow2_pos(base as nat);
        assert(dd > 0) by (nonlinear_arith)
            requires
                den > 0,
                pow2(base as nat) > 0,
                dd == den * pow2(base as nat),
        ;
    }
    if scale >= base && mantissa < limit {
        proof {
            lemma_pow2_adds(base as nat, (scale - base) as nat);
            assert(dd * pow2((scale - base) as nat) == den * pow2(scale as nat))
                by (nonlinear_arith)
                requires
                    dd == den * pow2(base as nat),
                    pow2(base as nat) * pow2((scale - base) as nat) == pow2(scale as nat),
            ;
        }
        return place_exact(format, negative, mantissa as u64, scale - base, Ghost(num), Ghost(dd));
    }
    let mut q: u128 = mantissa / 2;
    let mut half: bool = mantissa % 2 == 1;
    let mut rest: bool = sticky;
    let mut at: u32 = scale + 1;
    // the step of the half digit
    let ghost mut d: nat = den * pow2(scale as nat);
    proof {
        lemma_pow2_pos(scale as nat);
        assert(d > 0) by (nonlinear_arith)
            requires
                den > 0,
                pow2(scale as nat) > 0,
                d == den * pow2(scale as nat),
        ;
        lemma_pow2_unfold(at as nat);
        assert(den * pow2(at as nat) == 2 * d) by (nonlinear_arith)
            requires
                pow2(at as nat) == 2 * pow2(scale as nat),
                d == den * pow2(scale as nat),
        ;
        lemma2_to64();
        assert(at - scale == 1);
        assert(q * pow2(1) <= mantissa) by (nonlinear_arith)
            requires
                2 * q <= mantissa,
                pow2(1) == 2,
        ;
    }
    while q >= limit || at < base
        invariant
            limit == pow2(p),
            limit == 2 * pow2((p - 1) as nat),
            p == format.precision(),
            limit >= 2,
            scale <= 10_000,
            base <= 10_000,
            den > 0,
            d > 0,
            scale < at,
            at <= base || at <= scale + 128,
            q * pow2((at - scale) as nat) <= mantissa,
            den * pow2(at as nat) == 2 * d,
            at <= base || q >= pow2((p - 1) as nat),
            ({
                let low = 2 * q + if half { 1int } else { 0 };
                &&& low * d <= num < (low + 1) * d
                &&& rest <==> low * d != num
            }),
        decreases q + if base > at { base - at } else { 0 },
    {
        let ghost q0 = q;
        let ghost half0 = half;
        let ghost d0 = d;
        let ghost at0 = at;
        let ghost low0 = 2 * q0 + if half0 { 1int } else { 0 };
        proof {
            if q0 >= limit {
                if at - scale >= 128 {
                    lemma_pow2_ordered(128, (at - scale) as nat);
                    lemma_pow2_adds(64, 64);
                    lemma2_to64();
                    assert(pow2(128) == 0x1_0000_0000_0000_0000 * 0x1_0000_0000_0000_0000);
                    assert(q0 * pow2((at - scale) as nat) >= pow2(128)) by (nonlinear_arith)
                        requires
                            q0 >= 1,
                            pow2((at - scale) as nat) >= pow2(128),
                    ;
                    assert(false);
                }
            }
        }
        rest = rest || half;
        half = q % 2 == 1;
        q = q / 2;
        at = at + 1;
        proof {
            d = 2 * d0;
            lemma_pow2_unfold(at as nat);
            assert(den * pow2(at as nat) == 2 * d) by (nonlinear_arith)
                requires
                    pow2(at as nat) == 2 * pow2(at0 as nat),
                    den * pow2(at0 as nat) == 2 * d0,
                    d == 2 * d0,
            ;
            lemma_pow2_unfold((at - scale) as nat);
            assert(q * pow2((at - scale) as nat) <= q0 * pow2((at0 - scale) as nat))
                by (nonlinear_arith)
                requires
                    2 * q <= q0,
                    pow2((at - scale) as nat) == 2 * pow2((at0 - scale) as nat),
            ;
            let low = 2 * q + if half { 1int } else { 0 };
            assert(low0 == 2 * low + if half0 { 1int } else { 0 });
            assert(low * d <= low0 * d0) by (nonlinear_arith)
                requires
                    d == 2 * d0,
                    2 * low <= low0,
            ;
            assert((low + 1) * d >= (low0 + 1) * d0) by (nonlinear_arith)
                requires
                    d == 2 * d0,
                    low0 + 1 <= 2 * low + 2,
            ;
            if half0 {
                assert(low * d < low0 * d0) by (nonlinear_arith)
                    requires
                        d == 2 * d0,
                        2 * low < low0,
                        d0 > 0,
                ;
            } else {
                assert(low * d == low0 * d0) by (nonlinear_arith)
                    requires
                        d == 2 * d0,
                        2 * low == low0,
                ;
            }
        }
    }
    let k: u32 = at - base;
    let up: bool = half && (rest || q % 2 == 1);
    let m: u64 = if up { q as u64 + 1 } else { q as u64 };
    proof {
        lemma_pow2_adds(base as nat, k as nat);
        assert(dd * pow2(k as nat) == 2 * d) by (nonlinear_arith)
            requires
                dd == den * pow2(base as nat),
                pow2(base as nat) * pow2(k as nat) == pow2(at as nat),
                den * pow2(at as nat) == 2 * d,
        ;
        lemma_round_from(p, num, dd, k as nat, q as nat, half, rest, d);
    }
    finish(format, negative, m, k)
}

/// Doubles a mantissa up to its place, so far as the scale allows.
fn fill(format: Format, mantissa: u64, scale: u32) -> (r: (u64, u32))
    requires
        mantissa < pow2(format.precision()),
    ensures
        r.0 < pow2(format.precision()),
        r.1 <= scale,
        r.1 == 0 || r.0 >= pow2((format.precision() - 1) as nat),
        r.0 as nat * pow2(r.1 as nat) == mantissa as nat * pow2(scale as nat),
{
    let limit = full(format);
    let mut m: u64 = mantissa;
    let mut k: u32 = scale;
    while k > 0 && m < limit / 2
        invariant
            limit == pow2(format.precision()),
            limit == 2 * pow2((format.precision() - 1) as nat),
            limit <= 0x20_0000_0000_0000,
            m < limit,
            k <= scale,
            m as nat * pow2(k as nat) == mantissa as nat * pow2(scale as nat),
        decreases k,
    {
        let ghost m0 = m;
        let ghost k0 = k;
        m = m * 2;
        k = k - 1;
        proof {
            lemma_pow2_unfold(k0 as nat);
            assert(m as nat * pow2(k as nat) == m0 as nat * pow2(k0 as nat)) by (nonlinear_arith)
                requires
                    m == 2 * m0,
                    pow2(k0 as nat) == 2 * pow2(k as nat),
            ;
        }
    }
    (m, k)
}

/// The number of the format that is `mantissa * 2^scale` units exactly.
pub fn place(format: Format, negative: bool, mantissa: u64, scale: u32) -> (r: Parts)
    requires
        mantissa < pow2(format.precision()),
        scale <= format.top(),
    ensures
        r.fits(format),
        r@ == (Datum::Finite { negative, units: mantissa as nat * pow2(scale as nat) }),
{
    let (m, k) = fill(format, mantissa, scale);
    Parts::Finite { negative, mantissa: m, scale: k }
}

/// Rounds a magnitude that loses nothing by it.
fn place_exact(
    format: Format,
    negative: bool,
    mantissa: u64,
    scale: u32,
    Ghost(num): Ghost<nat>,
    Ghost(den): Ghost<nat>,
) -> (r: Parts)
    requires
        den > 0,
        scale <= 10_000,
        mantissa < pow2(format.precision()),
        num == mantissa as nat * (den * pow2(scale as nat)),
    ensures
        r.fits(format),
        r@ == model::round(format, negative, num, den),
{
    let ghost p = format.precision();
    let (m, k) = fill(format, mantissa, scale);
    proof {
        lemma_pow2_pos(k as nat);
        let w = den * pow2(k as nat);
        assert(w > 0) by (nonlinear_arith)
            requires
                den > 0,
                pow2(k as nat) > 0,
                w == den * pow2(k as nat),
        ;
        assert(num == m as nat * w) by (nonlinear_arith)
            requires
                num == mantissa as nat * (den * pow2(scale as nat)),
                m as nat * pow2(k as nat) == mantissa as nat * pow2(scale as nat),
                w == den * pow2(k as nat),
        ;
        lemma_fundamental_div_mod_converse(num as int, w as int, m as int, 0);
        lemma_pow2_adds(p, k as nat);
        assert(m as nat * w < den * (pow2(p) * pow2(k as nat))) by (nonlinear_arith)
            requires
                m < pow2(p),
                w == den * pow2(k as nat),
                w > 0,
        ;
        if k > 0 {
            let h = pow2((p - 1) as nat);
            lemma_pow2_adds((p - 1) as nat, k as nat);
            assert((p - 1) as nat + k as nat == (p + k - 1) as nat);
            assert(m as nat * w >= den * (h * pow2(k as nat))) by (nonlinear_arith)
                requires
                    m >= h,
                    w == den * pow2(k as nat),
            ;
        }
        lemma_scale_is(p, num, den, k as nat);
    }
    finish(format, negative, m, k)
}

} // verus!
