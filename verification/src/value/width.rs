//! Conversions between the binary floating-point formats, on bit patterns.
//!
//! A format is given by its exponent bias and the width of its fraction: 15 and 10 for half
//! precision, 127 and 23 for single precision, 1023 and 52 for double precision.
use vstd::prelude::*;

use crate::bigint::power;
use crate::number::{
    exponent, lemma_highest, lemma_power2_add, lemma_power2_mono, lemma_top_bit, negative, top_bit, two_to,
};

verus! {

/// A quotient rounded to the nearest integer, and to the even one of two that are equally near.
pub open spec fn nearest(n: nat, d: nat) -> nat {
    let q = n / d;
    let r = n % d;
    if 2 * r > d || (2 * r == d && q % 2 == 1) {
        q + 1
    } else {
        q
    }
}

/// A quotient rounded to the nearest integer, and to the even one of two that are equally near.
pub fn nearest_quotient(n: u64, d: u64) -> (r: u64)
    requires
        d >= 2,
        n < u64::MAX,
    ensures
        r as nat == nearest(n as nat, d as nat),
        r <= n + 1,
{
    let q: u64 = n / d;
    let rest: u64 = n % d;
    proof {
        assert(n / d <= n && n % d < d) by (nonlinear_arith)
            requires
                d >= 2,
        ;
    }
    if rest > d - rest || (rest == d - rest && q % 2 == 1) {
        q + 1
    } else {
        q
    }
}

/// The bits of a double in a narrower format, rounded once to the nearest value, ties to even.
pub open spec fn narrowed(bits: u64, bias: int, frac: nat) -> int {
    let e = exponent(bits) as int;
    let f = (bits % 0x10_0000_0000_0000) as nat;
    let top = 2 * bias + 1;
    let unit = power(2, frac) as int;
    let he = e - 1023 + bias;
    (if negative(bits) {
        (top + 1) * unit
    } else {
        0
    }) + (if e == 2047 {
        if f != 0 {
            top * unit + unit / 2
        } else {
            top * unit
        }
    } else if he >= top {
        top * unit
    } else if he > 0 {
        he * unit + nearest(f, power(2, (52 - frac) as nat))
    } else if 53 - frac - he >= 64 {
        0
    } else {
        nearest(
            if e == 0 {
                f
            } else {
                f + 0x10_0000_0000_0000
            },
            power(2, (53 - frac - he) as nat),
        ) as int
    })
}

/// The bits of a value in a wider format, which has it exactly.
pub open spec fn widened(h: nat, bias: int, frac: nat, bias2: int, frac2: nat) -> int {
    let unit = power(2, frac);
    let unit2 = power(2, frac2) as int;
    let step = power(2, (frac2 - frac) as nat) as int;
    let top = 2 * bias + 1;
    let e = (h / unit) as int % (top + 1);
    let m = h % unit;
    (if h / unit >= top + 1 {
        (2 * bias2 + 2) * unit2
    } else {
        0
    }) + (if e == 0 {
        if m == 0 {
            0
        } else {
            (bias2 - bias + 1 - frac + top_bit(m)) * unit2 + (m * power(
                2,
                (frac - top_bit(m)) as nat,
            ) - unit) * step
        }
    } else if e == top {
        (2 * bias2 + 1) * unit2 + m * step
    } else {
        (e + bias2 - bias) * unit2 + m * step
    })
}

/// Half precision to single precision.
pub open spec fn half_to_single(h: u16) -> int {
    widened(h as nat, 15, 10, 127, 23)
}

/// Single precision to double precision.
pub open spec fn single_to_double(s: u32) -> int {
    widened(s as nat, 127, 23, 1023, 52)
}

proof fn lemma_units()
    ensures
        power(2, 10) == 0x400,
        power(2, 13) == 0x2000,
        power(2, 23) == 0x80_0000,
        power(2, 29) == 0x2000_0000,
        power(2, 42) == 0x400_0000_0000,
        power(2, 52) == 0x10_0000_0000_0000,
{
    assert(power(2, 10) == 0x400) by {
        reveal_with_fuel(power, 11);
    }
    assert(power(2, 13) == 0x2000) by {
        reveal_with_fuel(power, 4);
    }
    assert(power(2, 23) == 0x80_0000) by {
        reveal_with_fuel(power, 11);
    }
    assert(power(2, 29) == 0x2000_0000) by {
        reveal_with_fuel(power, 7);
    }
    assert(power(2, 42) == 0x400_0000_0000) by {
        reveal_with_fuel(power, 14);
    }
    assert(power(2, 52) == 0x10_0000_0000_0000) by {
        reveal_with_fuel(power, 11);
    }
}

/// Narrows a double to half or single precision.
fn narrow(bits: u64, bias: u64, frac: u64) -> (r: u64)
    requires
        (bias == 15 && frac == 10) || (bias == 127 && frac == 23),
    ensures
        r == narrowed(bits, bias as int, frac as nat),
{
    proof {
        lemma_units();
    }
    let e: u64 = bits / 0x10_0000_0000_0000 % 2048;
    let f: u64 = bits % 0x10_0000_0000_0000;
    let top: u64 = 2 * bias + 1;
    let (unit, drop): (u64, u64) = if frac == 10 {
        (0x400, 0x400_0000_0000)
    } else {
        (0x80_0000, 0x2000_0000)
    };
    let sign: u64 = if bits >= 0x8000_0000_0000_0000 {
        (top + 1) * unit
    } else {
        0
    };
    if e == 2047 {
        return if f != 0 {
            sign + top * unit + unit / 2
        } else {
            sign + top * unit
        };
    }
    if e + bias >= 1023 + top {
        return sign + top * unit;
    }
    if e + bias > 1023 {
        return sign + (e + bias - 1023) * unit + nearest_quotient(f, drop);
    }
    let shift: u64 = 53 - frac + (1023 - e - bias);
    if shift >= 64 {
        return sign;
    }
    let m: u64 = if e == 0 {
        f
    } else {
        f + 0x10_0000_0000_0000
    };
    let d: u64 = two_to(shift);
    proof {
        assert(power(2, shift as nat) >= 2) by {
            assert(power(2, shift as nat) == 2 * power(2, (shift - 1) as nat));
            lemma_power2_mono(0, (shift - 1) as nat);
        }
    }
    sign + nearest_quotient(m, d)
}

/// The position of the highest one bit.
fn highest_bit(m: u64) -> (t: u64)
    requires
        0 < m < 0x80_0000,
    ensures
        t as nat == top_bit(m as nat),
        t <= 22,
        power(2, t as nat) <= m < power(2, (t + 1) as nat),
        m < 0x400 ==> t <= 9,
{
    let mut t: u64 = 0;
    let mut top: u64 = 1;
    proof {
        lemma_units();
        reveal_with_fuel(power, 2);
    }
    while top * 2 <= m
        invariant
            t <= 22,
            top as nat == power(2, t as nat),
            1 <= top <= m < 0x80_0000,
        decreases m - top,
    {
        top = top * 2;
        t = t + 1;
        proof {
            lemma_units();
            if t > 22 {
                lemma_power2_mono(23, t as nat);
            }
        }
    }
    proof {
        assert(power(2, (t + 1) as nat) == 2 * power(2, t as nat));
        lemma_top_bit(m as nat, t as nat);
        if t > 9 {
            lemma_power2_mono(10, t as nat);
        }
    }
    t
}

/// Widens a half to single precision, or a single to double precision.
fn widen(h: u64, bias: u64, frac: u64) -> (r: u64)
    requires
        (bias == 15 && frac == 10 && h < 0x1_0000) || (bias == 127 && frac == 23 && h
            < 0x1_0000_0000),
    ensures
        bias == 15 ==> r == widened(h as nat, 15, 10, 127, 23),
        bias == 15 ==> r < 0x1_0000_0000,
        bias == 127 ==> r == widened(h as nat, 127, 23, 1023, 52),
{
    proof {
        lemma_units();
    }
    let (unit, top, bias2, unit2, step): (u64, u64, u64, u64, u64) = if frac == 10 {
        (0x400, 31, 127, 0x80_0000, 0x2000)
    } else {
        (0x80_0000, 255, 1023, 0x10_0000_0000_0000, 0x2000_0000)
    };
    let high: u64 = h / unit;
    let e: u64 = high % (top + 1);
    let m: u64 = h % unit;
    let sign: u64 = if high >= top + 1 {
        (2 * bias2 + 2) * unit2
    } else {
        0
    };
    if e == 0 {
        if m == 0 {
            return sign;
        }
        let t: u64 = highest_bit(m);
        let p: u64 = two_to(frac - t);
        proof {
            lemma_power2_add(t as nat, (frac - t) as nat);
            let a = power(2, t as nat);
            assert(power(2, (t + 1) as nat) == 2 * a);
            assert(unit <= m * p && m * p < 2 * unit) by (nonlinear_arith)
                requires
                    a <= m < 2 * a,
                    a * p == unit,
                    p >= 1,
            ;
        }
        return sign + (bias2 - bias + 1 - frac + t) * unit2 + (m * p - unit) * step;
    }
    if e == top {
        return sign + (2 * bias2 + 1) * unit2 + m * step;
    }
    sign + (e + bias2 - bias) * unit2 + m * step
}

/// Half precision to single precision, on bit patterns.
pub fn f16_to_f32(h: u16) -> (r: u32)
    ensures
        r == half_to_single(h),
{
    widen(h as u64, 15, 10) as u32
}

/// Single precision to double precision, on bit patterns.
pub fn f32_to_f64(s: u32) -> (r: u64)
    ensures
        r == single_to_double(s),
{
    widen(s as u64, 127, 23)
}

/// Double precision to half precision, on bit patterns, rounding once.
pub fn f64_to_f16(value: u64) -> (r: u16)
    ensures
        r == narrowed(value, 15, 10),
{
    proof {
        lemma_units();
        lemma_narrowed_fits(value, 15, 10);
    }
    narrow(value, 15, 10) as u16
}

/// Double precision to single precision, on bit patterns.
pub fn f64_to_f32(value: u64) -> (r: u32)
    ensures
        r == narrowed(value, 127, 23),
{
    proof {
        lemma_units();
        lemma_narrowed_fits(value, 127, 23);
    }
    narrow(value, 127, 23) as u32
}

/// Rounding a fraction to its upper bits stays within them, or carries once.
proof fn lemma_nearest_bound(n: nat, d: nat, k: nat)
    requires
        d > 0,
        n < d * k,
    ensures
        nearest(n, d) <= k,
{
    assert(n / d < k) by (nonlinear_arith)
        requires
            d > 0,
            n < d * k,
    ;
}

/// A narrowed double fits in the narrower format.
proof fn lemma_narrowed_fits(bits: u64, bias: int, frac: nat)
    requires
        (bias == 15 && frac == 10) || (bias == 127 && frac == 23),
    ensures
        0 <= narrowed(bits, bias, frac) < (4 * bias + 4) * power(2, frac),
{
    lemma_units();
    let e = exponent(bits) as int;
    let f = (bits % 0x10_0000_0000_0000) as nat;
    let top = 2 * bias + 1;
    let unit = power(2, frac);
    let he = e - 1023 + bias;
    if e != 2047 && 0 < he < top {
        lemma_nearest_bound(f, power(2, (52 - frac) as nat), unit);
    } else if he <= 0 && 53 - frac - he < 64 {
        let shift = (53 - frac - he) as nat;
        lemma_power2_mono((53 - frac) as nat, shift);
        lemma_power2_add(1, (52 - frac) as nat);
        reveal_with_fuel(power, 2);
        let m: nat = if e == 0 {
            f
        } else {
            f + 0x10_0000_0000_0000
        };
        let d = power(2, shift);
        assert(m < d * unit) by (nonlinear_arith)
            requires
                m < 0x20_0000_0000_0000,
                d * unit >= 0x20_0000_0000_0000,
        ;
        lemma_nearest_bound(m, d, unit);
    }
}

/// Whether the bits of a narrower format stand for a number or an infinity.
pub open spec fn is_value(h: nat, bias: int, frac: nat) -> bool {
    let unit = power(2, frac);
    &&& h < (4 * bias + 4) * unit
    &&& (h / unit) as int % (2 * bias + 2) == 2 * bias + 1 ==> h % unit == 0
}

/// A double quotient that is exact is not rounded.
pub proof fn lemma_nearest_exact(m: nat, d: nat)
    requires
        d >= 1,
    ensures
        nearest(m * d, d) == m,
{
    vstd::arithmetic::div_mod::lemma_div_multiples_vanish(m as int, d as int);
    vstd::arithmetic::mul::lemma_mul_is_commutative(m as int, d as int);
    vstd::arithmetic::div_mod::lemma_mod_multiples_basic(m as int, d as int);
}

/// The fields of a double's bits.
proof fn lemma_fields(s: int, e: int, f: int)
    requires
        s == 0 || s == 1,
        0 <= e < 2048,
        0 <= f < 0x10_0000_0000_0000,
    ensures
        0 <= s * 0x8000_0000_0000_0000 + e * 0x10_0000_0000_0000 + f <= u64::MAX,
        ({
            let w = (s * 0x8000_0000_0000_0000 + e * 0x10_0000_0000_0000 + f) as u64;
            negative(w) == (s == 1) && exponent(w) == e && w % 0x10_0000_0000_0000 == f
        }),
{
}

/// Half and single precision survive the way to double precision and back: narrowing what widening
/// gives returns the same bits.
pub proof fn widening_reads_back(h: nat, bias: int, frac: nat)
    requires
        (bias == 15 && frac == 10) || (bias == 127 && frac == 23),
        is_value(h, bias, frac),
    ensures
        0 <= widened(h, bias, frac, 1023, 52) <= u64::MAX,
        narrowed(widened(h, bias, frac, 1023, 52) as u64, bias, frac) == h,
{
    lemma_units();
    let unit = power(2, frac);
    let top = 2 * bias + 1;
    let e = (h / unit) as int % (top + 1);
    let m = h % unit;
    let step = power(2, (52 - frac) as nat);
    let w = widened(h, bias, frac, 1023, 52);
    let s: int = if h / unit >= top + 1 {
        1
    } else {
        0
    };
    let hq = (h / unit) as int;
    vstd::arithmetic::div_mod::lemma_fundamental_div_mod(h as int, unit as int);
    assert(0 <= hq < 2 * (top + 1)) by (nonlinear_arith)
        requires
            h < (4 * bias + 4) * unit,
            top == 2 * bias + 1,
            h == unit * hq + m,
            m >= 0,
            unit > 0,
            hq >= 0,
    ;
    assert(hq == s * (top + 1) + e) by {
        if bias == 15 {
            assert(hq % 32 == e);
        } else {
            assert(hq % 256 == e);
        }
    }
    vstd::arithmetic::mul::lemma_mul_is_commutative(unit as int, hq);
    assert(0 <= m * step < 0x10_0000_0000_0000) by {
        if bias == 15 {
            assert(m * step == m * 0x400_0000_0000) by (nonlinear_arith)
                requires
                    step == 0x400_0000_0000,
            ;
        } else {
            assert(m * step == m * 0x2000_0000) by (nonlinear_arith)
                requires
                    step == 0x2000_0000,
            ;
        }
    }
    assert((2 * 1023 + 2) * power(2, 52) == 0x8000_0000_0000_0000);
    assert(s * ((top + 1) * unit) == (if s == 1 {
        (top + 1) * unit
    } else {
        0
    }));
    assert((s * (top + 1) + e) * unit == s * ((top + 1) * unit) + e * unit) by (nonlinear_arith);
    lemma_nearest_exact(m, step);
    if e == 0 && m != 0 {
        let t = lemma_highest(m);
        if t >= frac {
            lemma_power2_mono(frac, t);
        }
        let p = power(2, (frac - t) as nat);
        lemma_power2_add(t, (frac - t) as nat);
        let a = power(2, t);
        assert(power(2, t + 1) == 2 * a);
        lemma_power2_mono(0, (frac - t) as nat);
        assert(unit <= m * p && m * p < 2 * unit) by (nonlinear_arith)
            requires
                a <= m < 2 * a,
                a * p == unit,
                p >= 1,
        ;
        let f = (m * p - unit) * step;
        let d = power(2, (52 - t) as nat);
        lemma_power2_add((frac - t) as nat, (52 - frac) as nat);
        assert(unit * step == 0x10_0000_0000_0000) by (nonlinear_arith)
            requires
                (unit == 0x400 && step == 0x400_0000_0000) || (unit == 0x80_0000 && step
                    == 0x2000_0000),
        ;
        assert(f + 0x10_0000_0000_0000 == m * d && 0 <= f < 0x10_0000_0000_0000) by (nonlinear_arith)
            requires
                f == (m * p - unit) * step,
                unit * step == 0x10_0000_0000_0000,
                d == p * step,
                0 <= m * p - unit < unit,
                step >= 1,
        ;
        lemma_power2_mono(0, (52 - t) as nat);
        lemma_nearest_exact(m, d);
        let be = 1024 - bias - frac + t;
        lemma_fields(s, be, f);
        assert(w == s * 0x8000_0000_0000_0000 + be * 0x10_0000_0000_0000 + f);
        assert(e * unit == 0) by (nonlinear_arith)
            requires
                e == 0,
        ;
    } else if e == 0 {
        lemma_fields(s, 0, 0);
        assert(w == s * 0x8000_0000_0000_0000);
        assert(nearest(0, power(2, (53 - frac - (bias - 1023)) as nat)) == 0 || 53 - frac - (bias
            - 1023) >= 64);
        assert(e * unit == 0) by (nonlinear_arith)
            requires
                e == 0,
        ;
    } else if e == top {
        lemma_fields(s, 2047, 0);
        assert(w == s * 0x8000_0000_0000_0000 + 2047 * 0x10_0000_0000_0000);
    } else {
        lemma_fields(s, e + 1023 - bias, (m * step) as int);
        assert(w == s * 0x8000_0000_0000_0000 + (e + 1023 - bias) * 0x10_0000_0000_0000 + m * step);
    }
}

/// A single with its fields, but for the subnormal ones, as a double.
proof fn lemma_single(s: int, g: int, f: int)
    requires
        s == 0 || s == 1,
        0 <= g < 256,
        0 <= f < 0x80_0000,
        g == 0 ==> f == 0,
    ensures
        widened((s * 0x8000_0000 + g * 0x80_0000 + f) as nat, 127, 23, 1023, 52) == s
            * 0x8000_0000_0000_0000 + (if g == 0 {
            0
        } else if g == 255 {
            2047 * 0x10_0000_0000_0000 + f * 0x2000_0000
        } else {
            (g + 896) * 0x10_0000_0000_0000 + f * 0x2000_0000
        }),
{
    lemma_units();
    let x = (s * 0x8000_0000 + g * 0x80_0000 + f) as nat;
    let unit = power(2, 23);
    let step = power(2, 29);
    assert(x / unit == s * 256 + g && x % unit == f) by {
        assert(x / 0x80_0000 == s * 256 + g);
        assert(x % 0x80_0000 == f);
    }
    assert((x / unit) as int % 256 == g);
    assert(f * step == f * 0x2000_0000) by (nonlinear_arith)
        requires
            step == 0x2000_0000,
    ;
    assert((52 - 23) as nat == 29);
}

/// From half to double precision by way of single precision is the same as directly.
pub proof fn lemma_half_through_single(h: nat)
    requires
        is_value(h, 15, 10),
    ensures
        0 <= widened(h, 15, 10, 127, 23) < 0x1_0000_0000,
        widened(widened(h, 15, 10, 127, 23) as nat, 127, 23, 1023, 52) == widened(h, 15, 10, 1023, 52),
{
    lemma_units();
    let e = (h / 0x400) as int % 32;
    let m = h % 0x400;
    let s: int = if h / 0x400 >= 32 {
        1
    } else {
        0
    };
    if e == 0 && m != 0 {
        let t = lemma_highest(m);
        if t >= 10 {
            lemma_power2_mono(10, t);
        }
        let p = power(2, (10 - t) as nat);
        lemma_power2_add(t, (10 - t) as nat);
        let a = power(2, t);
        assert(power(2, t + 1) == 2 * a);
        lemma_power2_mono(0, (10 - t) as nat);
        assert(0x400 <= m * p && m * p < 0x800) by (nonlinear_arith)
            requires
                a <= m < 2 * a,
                a * p == 0x400,
                p >= 1,
        ;
        let x = (m * p) as int;
        let f = (x - 0x400) * 0x2000;
        let g = (103 + t) as int;
        assert(0 <= f < 0x80_0000);
        assert(widened(h, 15, 10, 127, 23) == s * 0x8000_0000 + g * 0x80_0000 + f);
        lemma_single(s, g, f);
        assert(widened(h, 15, 10, 1023, 52) == s * 0x8000_0000_0000_0000 + (g + 896)
            * 0x10_0000_0000_0000 + (x - 0x400) * 0x400_0000_0000);
    } else if e == 0 {
        lemma_single(s, 0, 0);
        assert(widened(h, 15, 10, 127, 23) == s * 0x8000_0000);
        assert(widened(h, 15, 10, 1023, 52) == s * 0x8000_0000_0000_0000);
    } else if e == 31 {
        lemma_single(s, 255, 0);
        assert(widened(h, 15, 10, 127, 23) == s * 0x8000_0000 + 255 * 0x80_0000);
        assert(widened(h, 15, 10, 1023, 52) == s * 0x8000_0000_0000_0000 + 2047
            * 0x10_0000_0000_0000);
    } else {
        lemma_single(s, e + 112, (m * 0x2000) as int);
        assert(widened(h, 15, 10, 127, 23) == s * 0x8000_0000 + (e + 112) * 0x80_0000 + m * 0x2000);
        assert(widened(h, 15, 10, 1023, 52) == s * 0x8000_0000_0000_0000 + (e + 1008)
            * 0x10_0000_0000_0000 + m * 0x400_0000_0000);
    }
}

} // verus!
