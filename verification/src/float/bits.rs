//! Between bit patterns and the parts of a number.

use crate::float::model;
use crate::float::model::Format;
use crate::float::parts;
use crate::float::parts::Parts;
use vstd::prelude::*;
use vstd::arithmetic::div_mod::*;
use vstd::arithmetic::power2::*;

verus! {

/// The weight of the sign bit.
fn sign_weight(format: Format) -> (r: u64)
    ensures
        r == pow2((format.precision() - 1) as nat) * (format.top() + 3),
        r == match format {
            Format::Binary32 => 0x8000_0000u64,
            Format::Binary64 => 0x8000_0000_0000_0000u64,
        },
{
    proof {
        lemma2_to64();
        lemma2_to64_rest();
        assert(0x80_0000 * 256 == 0x8000_0000);
        assert(0x10_0000_0000_0000 * 2048 == 0x8000_0000_0000_0000);
    }
    match format {
        Format::Binary32 => 0x8000_0000,
        Format::Binary64 => 0x8000_0000_0000_0000,
    }
}

/// Takes a bit pattern apart.
pub fn unpack(format: Format, bits: u64) -> (r: Parts)
    requires
        format == Format::Binary32 ==> bits <= u32::MAX,
    ensures
        r.fits(format),
        r@ == model::decode(format, bits as nat),
{
    let sign = sign_weight(format);
    let limit = parts::full(format);
    let half = limit / 2;
    let last = parts::top(format) as u64 + 2;
    let negative = bits >= sign;
    let magnitude: u64 = if negative { bits - sign } else { bits };
    let exponent: u64 = magnitude / half;
    let fraction: u64 = magnitude % half;
    proof {
        lemma2_to64();
        lemma2_to64_rest();
        lemma_fundamental_div_mod(magnitude as int, half as int);
        assert(exponent <= last) by (nonlinear_arith)
            requires
                magnitude == half * exponent + fraction,
                magnitude < half * (last + 1),
                half > 0,
                0 <= fraction,
        ;
    }
    if exponent == last {
        if fraction == 0 {
            Parts::Infinite { negative }
        } else {
            Parts::Nan
        }
    } else if exponent == 0 {
        proof {
            assert(fraction as nat * 1 == fraction as nat);
        }
        Parts::Finite { negative, mantissa: fraction, scale: 0 }
    } else {
        Parts::Finite { negative, mantissa: half + fraction, scale: (exponent - 1) as u32 }
    }
}

/// Puts the parts of a number together. What is not a number gets its plain pattern.
pub fn pack(format: Format, number: Parts) -> (r: u64)
    requires
        number.fits(format),
    ensures
        format == Format::Binary32 ==> r <= u32::MAX,
        model::decode(format, r as nat) == number@,
{
    let sign = sign_weight(format);
    let limit = parts::full(format);
    let half = limit / 2;
    let last = parts::top(format) as u64 + 2;
    proof {
        lemma2_to64();
        lemma2_to64_rest();
        assert(half * (last + 1) == sign) by (nonlinear_arith)
            requires
                half == 0x80_0000 && last == 255 && sign == 0x8000_0000 || half
                    == 0x10_0000_0000_0000 && last == 2047 && sign == 0x8000_0000_0000_0000,
        ;
        assert(half * last == sign - half) by (nonlinear_arith)
            requires
                half * (last + 1) == sign,
        ;
    }
    match number {
        Parts::Nan => {
            let magnitude: u64 = sign - half + half / 2;
            proof {
                lemma_fundamental_div_mod_converse(
                    magnitude as int,
                    half as int,
                    last as int,
                    (half / 2) as int,
                );
            }
            magnitude
        },
        Parts::Infinite { negative } => {
            let magnitude: u64 = sign - half;
            proof {
                lemma_fundamental_div_mod_converse(magnitude as int, half as int, last as int, 0);
            }
            if negative {
                sign + magnitude
            } else {
                magnitude
            }
        },
        Parts::Finite { negative, mantissa, scale } => {
            // a full mantissa carries into the exponent by itself
            proof {
                assert(0 <= half * scale <= half * (last - 2)) by (nonlinear_arith)
                    requires
                        scale + 2 <= last,
                        half > 0,
                ;
                assert(half * (last - 2) == sign - 3 * half) by (nonlinear_arith)
                    requires
                        half * (last + 1) == sign,
                ;
            }
            let magnitude: u64 = half * scale as u64 + mantissa;
            proof {
                if mantissa < half {
                    lemma_fundamental_div_mod_converse(
                        magnitude as int,
                        half as int,
                        0,
                        mantissa as int,
                    );
                    assert(mantissa as nat * pow2(0) == mantissa as nat);
                } else {
                    assert(half * (scale + 1) == half * scale + half) by (nonlinear_arith);
                    lemma_fundamental_div_mod_converse(
                        magnitude as int,
                        half as int,
                        scale + 1,
                        mantissa - half,
                    );
                }
            }
            if negative {
                sign + magnitude
            } else {
                magnitude
            }
        },
    }
}

} // verus!
