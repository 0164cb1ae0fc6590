//! The cells that a share of a stretch comes to. A share is held as the bits of a
//! single-precision number; the product is rounded as such a number is, and then cut
//! to whole cells.

use vstd::arithmetic::power2::{lemma_pow2_adds, lemma_pow2_pos, lemma_pow2_unfold, pow2};
use vstd::prelude::*;

use crate::num;

verus! {

/// How often a number must be halved until it has no more than 24 binary digits.
pub open spec fn halvings(p: nat) -> nat
    decreases p,
{
    if p < 0x100_0000 {
        0
    } else {
        1 + halvings(p / 2)
    }
}

/// A number halved that often, rounded to the nearest, ties to the even one.
pub open spec fn rounded(p: nat) -> nat {
    let unit = pow2(halvings(p));
    let whole = p / unit;
    let rest = p % unit;
    if 2 * rest > unit || (2 * rest == unit && whole % 2 == 1) {
        whole + 1
    } else {
        whole
    }
}

/// The exponent field of a single-precision number.
pub open spec fn exponent(bits: u32) -> nat {
    (bits as nat / 0x80_0000) % 256
}

/// The fraction field of a single-precision number.
pub open spec fn fraction(bits: u32) -> nat {
    bits as nat % 0x80_0000
}

/// The digits before the power of two.
pub open spec fn significand(bits: u32) -> nat {
    if exponent(bits) == 0 {
        fraction(bits)
    } else {
        fraction(bits) + 0x80_0000
    }
}

/// The power of two that the digits are multiplied with.
pub open spec fn scale(bits: u32) -> int {
    if exponent(bits) == 0 {
        -149
    } else {
        exponent(bits) - 150
    }
}

/// A whole number times a power of two, cut to a whole number.
pub open spec fn scaled(n: nat, by: int) -> nat {
    if by >= 0 {
        n * pow2(by as nat)
    } else {
        n / pow2((-by) as nat)
    }
}

/// The cells of a share: at least one, at most what a coordinate can say. A negative
/// share, and one that is no number, comes to one cell.
pub open spec fn cells(span: u16, bits: u32) -> u16 {
    if bits >= 0x8000_0000 {
        1
    } else if exponent(bits) == 255 {
        if fraction(bits) != 0 || span == 0 {
            1
        } else {
            0xffff
        }
    } else {
        let product = span as nat * significand(bits);
        num::max(
            1,
            num::min(
                scaled(rounded(product), scale(bits) + halvings(product)) as int,
                0xffff,
            ),
        ) as u16
    }
}

proof fn lemma_scaled_zero_up(by: int)
    ensures
        scaled(0, by) == 0,
{
    if by >= 0 {
        assert(0 * pow2(by as nat) == 0) by (nonlinear_arith);
    } else {
        lemma_pow2_pos((-by) as nat);
        let d = pow2((-by) as nat);
        assert(0nat / d == 0) by (nonlinear_arith)
            requires
                d > 0,
        ;
    }
}

/// A whole number times a power of two, no more than the limit.
fn scale_up(n: u64, by: u64) -> (r: u64)
    requires
        n < 0x1_0000_0000_0000,
    ensures
        r == num::min((n * pow2(by as nat)) as int, 0xffff),
{
    let mut value: u64 = n;
    let mut k: u64 = 0;
    proof {
        vstd::arithmetic::power2::lemma2_to64();
        assert(n * pow2(0) == n);
        if n == 0 {
            lemma_scaled_zero_up(by as int);
        }
    }
    if n == 0 {
        return 0;
    }
    while k < by && value <= 0xffff
        invariant
            n > 0,
            k <= by,
            0 < value,
            value < 0x1_0000_0000_0000,
            value == n * pow2(k as nat),
        decreases by - k,
    {
        proof {
            lemma_pow2_unfold((k + 1) as nat);
            let d = pow2(k as nat);
            assert(n * (2 * d) == 2 * (n * d)) by (nonlinear_arith);
        }
        value = value * 2;
        k = k + 1;
    }
    proof {
        lemma_pow2_adds(k as nat, (by - k) as nat);
        lemma_pow2_pos((by - k) as nat);
        let d = pow2(k as nat);
        let rest = pow2((by - k) as nat);
        assert(n * (d * rest) == (n * d) * rest) by (nonlinear_arith);
        assert(value * rest >= value) by (nonlinear_arith)
            requires
                rest >= 1,
        ;
        if k == by {
            vstd::arithmetic::power2::lemma2_to64();
        }
    }
    if value > 0xffff {
        0xffff
    } else {
        value
    }
}

/// A whole number over a power of two, cut to a whole number.
fn scale_down(n: u64, by: u64) -> (r: u64)
    ensures
        r == n as nat / pow2(by as nat),
{
    let mut value: u64 = n;
    let mut k: u64 = 0;
    proof {
        vstd::arithmetic::power2::lemma2_to64();
        assert(n as nat / pow2(0) == n);
    }
    while k < by
        invariant
            k <= by,
            value == n as nat / pow2(k as nat),
        decreases by - k,
    {
        proof {
            lemma_pow2_pos(k as nat);
            lemma_pow2_unfold((k + 1) as nat);
            vstd::arithmetic::div_mod::lemma_div_denominator(
                n as int,
                pow2(k as nat) as int,
                2,
            );
            let d = pow2(k as nat);
            assert(d * 2 == 2 * d) by (nonlinear_arith);
        }
        value = value / 2;
        k = k + 1;
    }
    value
}

/// The cells of a share of a stretch.
pub fn first_cells(span: u16, bits: u32) -> (r: u16)
    ensures
        r == cells(span, bits),
        r >= 1,
{
    if bits >= 0x8000_0000 {
        return 1;
    }
    let field: u32 = (bits / 0x80_0000) % 256;
    let digits: u32 = bits % 0x80_0000;
    if field == 255 {
        if digits != 0 || span == 0 {
            return 1;
        }
        return 0xffff;
    }
    let mantissa: u64 = if field == 0 {
        digits as u64
    } else {
        digits as u64 + 0x80_0000
    };
    assert(span as u64 * mantissa <= 0xffff * 0x100_0000) by (nonlinear_arith)
        requires
            span <= 0xffff,
            mantissa <= 0x100_0000,
    ;
    let product: u64 = span as u64 * mantissa;
    let mut short: u64 = product;
    let mut unit: u64 = 1;
    let mut steps: u64 = 0;
    proof {
        vstd::arithmetic::power2::lemma2_to64();
    }
    while short >= 0x100_0000
        invariant
            product <= 0xffff * 0x100_0000,
            halvings(product as nat) == steps + halvings(short as nat),
            unit == pow2(steps as nat),
            short * unit <= product,
            unit <= 0xffff * 0x100_0000,
            steps + short <= product,
        decreases short,
    {
        proof {
            lemma_pow2_unfold((steps + 1) as nat);
            let half: u64 = short / 2;
            assert(half * (2 * unit) <= short * unit) by (nonlinear_arith)
                requires
                    2 * half <= short,
                    unit >= 0,
            ;
            assert(2 * unit <= half * (2 * unit)) by (nonlinear_arith)
                requires
                    half >= 1,
                    unit >= 0,
            ;
        }
        short = short / 2;
        unit = unit * 2;
        steps = steps + 1;
    }
    proof {
        lemma_pow2_pos(steps as nat);
        assert(halvings(product as nat) == steps);
    }
    let whole: u64 = product / unit;
    let rest: u64 = product % unit;
    let value: u64 = if 2 * rest > unit || (2 * rest == unit && whole % 2 == 1) {
        whole + 1
    } else {
        whole
    };
    assert(whole <= product) by (nonlinear_arith)
        requires
            whole == product / unit,
            unit >= 1,
    ;
    assert(value == rounded(product as nat));
    let up: u64 = if field == 0 {
        1 + steps
    } else {
        field as u64 + steps
    };
    let cut: u64 = if up >= 150 {
        scale_up(value, up - 150)
    } else {
        scale_down(value, 150 - up)
    };
    if cut < 1 {
        1
    } else if cut > 0xffff {
        0xffff
    } else {
        cut as u16
    }
}

/// A share never takes more cells than it is a share of, wherever it is a number from
/// zero to one and there is a cell to give.
pub proof fn law_shares_stay_inside(span: u16, bits: u32)
    requires
        span >= 1,
        bits <= 0x3f80_0000,
    ensures
        1 <= cells(span, bits) <= span,
{
    let m = significand(bits);
    let p = span as nat * m;
    let e = scale(bits);
    let s = halvings(p);
    vstd::arithmetic::power2::lemma2_to64();
    assert(exponent(bits) <= 127) by {
        assert(bits as nat / 0x80_0000 <= 127);
    }
    // The share is at most one: its digits are at most the power of two below them.
    lemma_pow2_pos((-e) as nat);
    assert(m <= pow2((-e) as nat)) by {
        if exponent(bits) == 127 {
            assert(fraction(bits) == 0);
            assert(m == 0x80_0000);
            assert(pow2(23) == 0x80_0000);
        } else {
            vstd::arithmetic::power2::lemma_pow2_strictly_increases(23, (-e) as nat);
            assert(m < 0x100_0000);
            if (-e) > 24 {
                vstd::arithmetic::power2::lemma_pow2_strictly_increases(24, (-e) as nat);
            }
            assert(pow2(24) == 0x100_0000);
        }
    }
    let whole = pow2((-e) as nat);
    assert(p <= span * whole) by (nonlinear_arith)
        requires
            m <= whole,
            p == span * m,
    ;
    assert(m <= 0x100_0000);
    assert(p <= 0xffff * 0x100_0000) by (nonlinear_arith)
        requires
            p == span * m,
            span <= 0xffff,
            m <= 0x100_0000,
    ;
    lemma_halvings_small(p);
    lemma_rounded_bound(p, span as nat, (-e) as nat);
}

proof fn lemma_halvings_small(p: nat)
    requires
        p <= 0xffff * 0x100_0000,
    ensures
        halvings(p) <= 16,
{
    assert(halvings(p) <= 16) by {
        reveal_with_fuel(halvings, 18);
    }
}

/// Rounding never passes a bound that the coarser numbers hold too.
proof fn lemma_rounded_bound(p: nat, span: nat, k: nat)
    requires
        p <= span * pow2(k),
        halvings(p) <= 16,
        k >= 23,
        span <= 0xffff,
    ensures
        scaled(rounded(p), halvings(p) - k) <= span,
{
    let s = halvings(p);
    let unit = pow2(s);
    lemma_pow2_pos(s);
    lemma_pow2_pos((k - s) as nat);
    lemma_pow2_adds(s, (k - s) as nat);
    let rest = pow2((k - s) as nat);
    let limit = span * rest;
    // p <= limit * unit, so the rounded number is at most limit.
    assert(p <= limit * unit) by (nonlinear_arith)
        requires
            p <= span * pow2(k),
            pow2(k) == unit * rest,
            limit == span * rest,
    ;
    let whole = p / unit;
    let left = p % unit;
    vstd::arithmetic::div_mod::lemma_fundamental_div_mod(p as int, unit as int);
    vstd::arithmetic::div_mod::lemma_mod_bound(p as int, unit as int);
    assert(rounded(p) <= limit) by {
        if whole >= limit {
            assert(whole * unit >= limit * unit) by (nonlinear_arith)
                requires
                    whole >= limit,
                    unit > 0,
            ;
            assert(unit * whole == whole * unit) by (nonlinear_arith);
            assert(left == 0);
            assert(whole <= limit) by (nonlinear_arith)
                requires
                    whole * unit <= limit * unit,
                    unit > 0,
            ;
        }
    }
    let n = rounded(p);
    assert(n / rest <= span) by (nonlinear_arith)
        requires
            n <= span * rest,
            rest > 0,
    ;
    assert(s - k < 0);
}

} // verus!
