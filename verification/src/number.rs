//! Doubles as bit patterns: classification, comparison, and the integer operators.
//!
//! A double is held as the 64 bits of its IEEE-754 form. What can be said of it in integers is said
//! and computed here; rounding arithmetic is left to the host.
use vstd::prelude::*;

use crate::bigint::power;

verus! {

/// The bits of positive infinity; a magnitude above it is not a number.
pub const INFINITY: u64 = 0x7ff0_0000_0000_0000;

/// The bits of the canonical not-a-number.
pub const NAN: u64 = 0x7ff8_0000_0000_0000;

/// The bits of one.
pub const ONE: u64 = 0x3ff0_0000_0000_0000;

/// How two numbers or texts compare.
#[derive(Clone, Copy, PartialEq, Eq, Structural, Debug)]
pub enum Relation {
    Less,
    Equal,
    Greater,
    /// One of them is not a number.
    Unordered,
}

pub open spec fn negative(bits: u64) -> bool {
    bits >= 0x8000_0000_0000_0000
}

/// The bits without the sign.
pub open spec fn magnitude(bits: u64) -> u64 {
    bits % 0x8000_0000_0000_0000
}

pub open spec fn is_nan(bits: u64) -> bool {
    magnitude(bits) > INFINITY
}

/// An integer that orders doubles that are numbers as their values are ordered.
pub open spec fn order_key(bits: u64) -> int {
    if negative(bits) {
        -(magnitude(bits) as int)
    } else {
        magnitude(bits) as int
    }
}

/// How the values of two doubles compare.
pub open spec fn number_relation(a: u64, b: u64) -> Relation {
    if is_nan(a) || is_nan(b) {
        Relation::Unordered
    } else if order_key(a) < order_key(b) {
        Relation::Less
    } else if order_key(a) == order_key(b) {
        Relation::Equal
    } else {
        Relation::Greater
    }
}

/// Compares two numbers; zero equals negative zero, and nothing is ordered against a NaN.
pub fn relate(a: u64, b: u64) -> (r: Relation)
    ensures
        r == number_relation(a, b),
{
    let x: u64 = a % 0x8000_0000_0000_0000;
    let y: u64 = b % 0x8000_0000_0000_0000;
    if x > INFINITY || y > INFINITY {
        return Relation::Unordered;
    }
    let s: bool = a >= 0x8000_0000_0000_0000;
    let t: bool = b >= 0x8000_0000_0000_0000;
    if x == 0 && y == 0 {
        Relation::Equal
    } else if s && !t {
        Relation::Less
    } else if !s && t {
        Relation::Greater
    } else if x == y {
        Relation::Equal
    } else if (x < y) != s {
        Relation::Less
    } else {
        Relation::Greater
    }
}

/// Whether two numbers are equal.
pub fn same_number(a: u64, b: u64) -> (r: bool)
    ensures
        r == (number_relation(a, b) == Relation::Equal),
{
    match relate(a, b) {
        Relation::Equal => true,
        _ => false,
    }
}

/// Whether a number counts as true: it is neither zero nor a NaN.
pub open spec fn truthy(bits: u64) -> bool {
    magnitude(bits) != 0 && !is_nan(bits)
}

/// Whether a number counts as true.
pub fn is_truthy(bits: u64) -> (r: bool)
    ensures
        r == truthy(bits),
{
    let m: u64 = bits % 0x8000_0000_0000_0000;
    m != 0 && m <= INFINITY
}

/// The number with its sign turned round.
pub open spec fn negated(bits: u64) -> u64 {
    if negative(bits) {
        (bits - 0x8000_0000_0000_0000) as u64
    } else {
        (bits + 0x8000_0000_0000_0000) as u64
    }
}

/// The number with its sign turned round.
pub fn negate(bits: u64) -> (r: u64)
    ensures
        r == negated(bits),
{
    if bits >= 0x8000_0000_0000_0000 {
        bits - 0x8000_0000_0000_0000
    } else {
        bits + 0x8000_0000_0000_0000
    }
}

pub open spec fn exponent(bits: u64) -> nat {
    (bits / 0x10_0000_0000_0000 % 2048) as nat
}

/// The significand of a normal double, with its leading one.
pub open spec fn significand(bits: u64) -> nat {
    (bits % 0x10_0000_0000_0000 + 0x10_0000_0000_0000) as nat
}

/// The integer part of a double's absolute value; zero where it is not finite.
pub open spec fn whole_part(bits: u64) -> nat {
    let e = exponent(bits);
    if e < 1023 || e == 2047 {
        0
    } else if e >= 1075 {
        significand(bits) * power(2, (e - 1075) as nat)
    } else {
        significand(bits) / power(2, (1075 - e) as nat)
    }
}

/// An integer as a signed 32-bit number: the one that is congruent to it modulo 2^32.
pub open spec fn wrap_signed(n: int) -> int {
    if n % 0x1_0000_0000 >= 0x8000_0000 {
        n % 0x1_0000_0000 - 0x1_0000_0000
    } else {
        n % 0x1_0000_0000
    }
}

/// The integer part of a double; zero where it is not finite.
pub open spec fn truncated(bits: u64) -> int {
    if negative(bits) {
        -(whole_part(bits) as int)
    } else {
        whole_part(bits) as int
    }
}

/// ToInt32 of a double.
pub open spec fn int32_of(bits: u64) -> int {
    wrap_signed(truncated(bits))
}

/// `2` to the power `k`.
pub(crate) fn two_to(k: u64) -> (r: u64)
    requires
        k < 64,
    ensures
        r as nat == power(2, k as nat),
        r >= 1,
    decreases k,
{
    if k == 0 {
        1
    } else {
        proof {
            lemma_powers();
            lemma_power2_mono(k as nat, 63);
        }
        2 * two_to(k - 1)
    }
}

/// Some powers of two.
proof fn lemma_powers()
    ensures
        power(2, 31) == 0x8000_0000,
        power(2, 32) == 0x1_0000_0000,
        power(2, 52) == 0x10_0000_0000_0000,
        power(2, 63) == 0x8000_0000_0000_0000,
{
    assert(power(2, 16) == 0x1_0000) by {
        reveal_with_fuel(power, 17);
    }
    assert(power(2, 15) == 0x8000) by {
        reveal_with_fuel(power, 16);
    }
    assert(power(2, 4) == 16) by {
        reveal_with_fuel(power, 5);
    }
    lemma_power2_add(16, 15);
    lemma_power2_add(16, 16);
    lemma_power2_add(32, 16);
    lemma_power2_add(48, 4);
    lemma_power2_add(32, 31);
    assert(power(2, 32) * power(2, 31) == 0x8000_0000_0000_0000) by (nonlinear_arith)
        requires
            power(2, 32) == 0x1_0000_0000,
            power(2, 31) == 0x8000_0000,
    ;
}

pub proof fn lemma_power2_mono(a: nat, b: nat)
    requires
        a <= b,
    ensures
        1 <= power(2, a) <= power(2, b),
    decreases b,
{
    if a < b {
        lemma_power2_mono(a, (b - 1) as nat);
    } else if b > 0 {
        lemma_power2_mono((a - 1) as nat, (b - 1) as nat);
    }
}

pub proof fn lemma_power2_add(a: nat, b: nat)
    ensures
        power(2, a + b) == power(2, a) * power(2, b),
    decreases a,
{
    if a > 0 {
        lemma_power2_add((a - 1) as nat, b);
        let x = power(2, (a - 1) as nat);
        let y = power(2, b);
        assert(2 * (x * y) == (2 * x) * y) by (nonlinear_arith);
    } else {
        assert(1 * power(2, b) == power(2, b));
    }
}

/// The integer part of a double's absolute value, modulo 2^32.
fn whole_part_low(bits: u64) -> (r: u64)
    ensures
        r as nat == whole_part(bits) % 0x1_0000_0000,
{
    let e: u64 = bits / 0x10_0000_0000_0000 % 2048;
    let m: u64 = bits % 0x10_0000_0000_0000 + 0x10_0000_0000_0000;
    if e < 1023 || e == 2047 {
        0
    } else if e >= 1107 {
        proof {
            let k = (e - 1075) as nat;
            lemma_power2_add(32, (k - 32) as nat);
            lemma_powers();
            let q = power(2, (k - 32) as nat);
            assert(m * (0x1_0000_0000 * q) == 0x1_0000_0000 * (m * q)) by (nonlinear_arith);
            assert((0x1_0000_0000 * (m * q)) % 0x1_0000_0000 == 0) by {
                vstd::arithmetic::div_mod::lemma_mod_multiples_basic(m * q, 0x1_0000_0000);
                vstd::arithmetic::mul::lemma_mul_is_commutative(m * q, 0x1_0000_0000);
            }
        }
        0
    } else if e >= 1075 {
        let p: u64 = two_to(e - 1075);
        proof {
            lemma_power2_mono((e - 1075) as nat, 31);
            lemma_powers();
            assert(m * p <= 0x20_0000_0000_0000 * 0x8000_0000) by (nonlinear_arith)
                requires
                    m <= 0x20_0000_0000_0000,
                    p <= 0x8000_0000,
            ;
        }
        ((m as u128 * p as u128) % 0x1_0000_0000) as u64
    } else {
        let p: u64 = two_to(1075 - e);
        (m / p) % 0x1_0000_0000
    }
}

/// The integer part of a double modulo 2^32.
pub fn low_word(bits: u64) -> (low: u64)
    ensures
        low == truncated(bits) % 0x1_0000_0000,
{
    let w: u64 = whole_part_low(bits);
    let low: u64 = if bits >= 0x8000_0000_0000_0000 && w > 0 {
        0x1_0000_0000 - w
    } else {
        w
    };
    proof {
        let n = whole_part(bits) as int;
        if negative(bits) {
            assert((-n) % 0x1_0000_0000 == low) by {
                vstd::arithmetic::div_mod::lemma_fundamental_div_mod(n, 0x1_0000_0000);
                let q = n / 0x1_0000_0000;
                if w == 0 {
                    vstd::arithmetic::div_mod::lemma_fundamental_div_mod_converse(
                        -n,
                        0x1_0000_0000,
                        -q,
                        0,
                    );
                } else {
                    vstd::arithmetic::div_mod::lemma_fundamental_div_mod_converse(
                        -n,
                        0x1_0000_0000,
                        -q - 1,
                        low as int,
                    );
                }
            }
        }
    }
    low
}

/// The integer part of a double's absolute value, modulo 2^64.
fn whole_part_long(bits: u64) -> (r: u64)
    ensures
        r as nat == whole_part(bits) % 0x1_0000_0000_0000_0000,
{
    let e: u64 = bits / 0x10_0000_0000_0000 % 2048;
    let m: u64 = bits % 0x10_0000_0000_0000 + 0x10_0000_0000_0000;
    if e < 1023 || e == 2047 {
        0
    } else if e >= 1139 {
        proof {
            let k = (e - 1075) as nat;
            lemma_power2_add(64, (k - 64) as nat);
            lemma_power2_add(32, 32);
            lemma_powers();
            let q = power(2, (k - 64) as nat);
            assert(m * (0x1_0000_0000_0000_0000 * q) == 0x1_0000_0000_0000_0000 * (m * q))
                by (nonlinear_arith);
            assert((0x1_0000_0000_0000_0000 * (m * q)) % 0x1_0000_0000_0000_0000 == 0) by {
                vstd::arithmetic::div_mod::lemma_mod_multiples_basic(m * q, 0x1_0000_0000_0000_0000);
                vstd::arithmetic::mul::lemma_mul_is_commutative(m * q, 0x1_0000_0000_0000_0000);
            }
        }
        0
    } else if e >= 1075 {
        let p: u64 = two_to(e - 1075);
        proof {
            assert(m * p <= 0x20_0000_0000_0000 * 0xffff_ffff_ffff_ffff) by (nonlinear_arith)
                requires
                    m <= 0x20_0000_0000_0000,
                    p <= 0xffff_ffff_ffff_ffff,
            ;
        }
        ((m as u128 * p as u128) % 0x1_0000_0000_0000_0000) as u64
    } else {
        let p: u64 = two_to(1075 - e);
        m / p
    }
}

/// The integer part of a double modulo 2^64.
pub fn low_long(bits: u64) -> (low: u64)
    ensures
        low == truncated(bits) % 0x1_0000_0000_0000_0000,
{
    let w: u64 = whole_part_long(bits);
    let low: u64 = if bits >= 0x8000_0000_0000_0000 && w > 0 {
        0xffff_ffff_ffff_ffff - w + 1
    } else {
        w
    };
    proof {
        let n = whole_part(bits) as int;
        let q = n / 0x1_0000_0000_0000_0000;
        vstd::arithmetic::div_mod::lemma_fundamental_div_mod(n, 0x1_0000_0000_0000_0000);
        if negative(bits) {
            vstd::arithmetic::div_mod::lemma_fundamental_div_mod_converse(
                -n,
                0x1_0000_0000_0000_0000,
                if w == 0 {
                    -q
                } else {
                    -q - 1
                },
                low as int,
            );
        }
    }
    low
}

/// ToInt32 of a double.
pub fn to_int32(bits: u64) -> (r: i32)
    ensures
        r == int32_of(bits),
{
    let low: u64 = low_word(bits);
    if low >= 0x8000_0000 {
        (low as i64 - 0x1_0000_0000) as i32
    } else {
        low as i32
    }
}

/// The count that a double stands for: its integer part, nothing where it is negative or not a number,
/// and at most the greatest 64-bit number.
pub open spec fn count_of(bits: u64) -> u64 {
    if is_nan(bits) || negative(bits) {
        0
    } else if magnitude(bits) == INFINITY || whole_part(bits) > u64::MAX {
        u64::MAX
    } else {
        whole_part(bits) as u64
    }
}

/// The count that a double stands for.
pub fn to_count(bits: u64) -> (r: u64)
    ensures
        r == count_of(bits),
{
    if bits >= 0x8000_0000_0000_0000 {
        return 0;
    }
    if bits > INFINITY {
        return 0;
    }
    let e: u64 = bits / 0x10_0000_0000_0000;
    let m: u64 = bits % 0x10_0000_0000_0000 + 0x10_0000_0000_0000;
    if bits == INFINITY {
        u64::MAX
    } else if e < 1023 {
        0
    } else if e >= 1087 {
        proof {
            lemma_power2_mono(12, (e - 1075) as nat);
            assert(power(2, 12) == 4096) by {
                reveal_with_fuel(power, 13);
            }
            let p = power(2, (e - 1075) as nat);
            assert(m * p >= 0x10_0000_0000_0000 * 4096) by (nonlinear_arith)
                requires
                    m >= 0x10_0000_0000_0000,
                    p >= 4096,
            ;
        }
        u64::MAX
    } else if e >= 1075 {
        let p: u64 = two_to(e - 1075);
        proof {
            lemma_power2_mono((e - 1075) as nat, 11);
            assert(power(2, 11) == 2048) by {
                reveal_with_fuel(power, 12);
            }
            assert(m * p <= 0x1f_ffff_ffff_ffff * 2048) by (nonlinear_arith)
                requires
                    m <= 0x1f_ffff_ffff_ffff,
                    1 <= p <= 2048,
            ;
        }
        m * p
    } else {
        let p: u64 = two_to(1075 - e);
        proof {
            assert(m as nat / p as nat <= m) by (nonlinear_arith)
                requires
                    p >= 1,
            ;
        }
        m / p
    }
}

/// The position of the highest one bit of a number that is not zero.
pub open spec fn top_bit(n: nat) -> nat
    decreases n,
{
    if n < 2 {
        0
    } else {
        1 + top_bit(n / 2)
    }
}

/// The double whose value is an integer of up to 53 bits.
pub open spec fn double_of(n: int) -> u64 {
    let m: nat = if n < 0 {
        (-n) as nat
    } else {
        n as nat
    };
    let p = top_bit(m);
    if n == 0 {
        0
    } else {
        ((if n < 0 {
            0x8000_0000_0000_0000int
        } else {
            0
        }) + (1023 + p) * 0x10_0000_0000_0000 + (m - power(2, p)) * power(
            2,
            (52 - p) as nat,
        )) as u64
    }
}

pub proof fn lemma_top_bit(n: nat, p: nat)
    requires
        power(2, p) <= n < power(2, p + 1),
    ensures
        top_bit(n) == p,
    decreases p,
{
    if p == 0 {
        assert(power(2, 1) == 2 * power(2, 0));
    } else {
        lemma_power2_mono(0, (p - 1) as nat);
        assert(power(2, p) == 2 * power(2, (p - 1) as nat));
        assert(power(2, p + 1) == 2 * power(2, p));
        lemma_top_bit(n / 2, (p - 1) as nat);
    }
}

/// The double whose value is an integer of up to 53 bits.
pub fn from_int(n: i64) -> (r: u64)
    requires
        -0x20_0000_0000_0000 < n < 0x20_0000_0000_0000,
    ensures
        r == double_of(n as int),
{
    if n == 0 {
        return 0;
    }
    let m: u64 = if n < 0 {
        (-n) as u64
    } else {
        n as u64
    };
    let mut p: u64 = 0;
    let mut top: u64 = 1;
    while top * 2 <= m
        invariant
            p <= 52,
            top as nat == power(2, p as nat),
            1 <= top <= m < 0x20_0000_0000_0000,
        decreases m - top,
    {
        top = top * 2;
        p = p + 1;
        proof {
            if p > 52 {
                lemma_power2_mono(53, p as nat);
                lemma_powers();
                assert(power(2, 53) == 2 * power(2, 52));
            }
        }
    }
    assert(power(2, (p + 1) as nat) == 2 * power(2, p as nat));
    let scale: u64 = two_to(52 - p);
    proof {
        lemma_top_bit(m as nat, p as nat);
        lemma_power2_add(p as nat, (52 - p) as nat);
        lemma_powers();
        assert((m - top) * scale < 0x10_0000_0000_0000) by (nonlinear_arith)
            requires
                0 <= m - top < top,
                top * scale == 0x10_0000_0000_0000,
                scale >= 1,
        ;
    }
    let sign: u64 = if n < 0 {
        0x8000_0000_0000_0000
    } else {
        0
    };
    sign + (1023 + p) * 0x10_0000_0000_0000 + (m - top) * scale
}

/// The highest one bit of a number that is not zero.
pub proof fn lemma_highest(m: nat) -> (t: nat)
    requires
        m > 0,
    ensures
        t == top_bit(m),
        power(2, t) <= m < power(2, t + 1),
    decreases m,
{
    reveal_with_fuel(power, 2);
    if m == 1 {
        0
    } else {
        let t = lemma_highest(m / 2);
        assert(power(2, t + 2) == 2 * power(2, t + 1));
        t + 1
    }
}

/// An integer of up to 53 bits survives as a double: the integer part of the double is the integer.
pub proof fn integers_read_back(n: int)
    requires
        -0x20_0000_0000_0000 < n < 0x20_0000_0000_0000,
    ensures
        truncated(double_of(n)) == n,
{
    lemma_powers();
    if n != 0 {
        let m: nat = if n < 0 {
            (-n) as nat
        } else {
            n as nat
        };
        let p = lemma_highest(m);
        if p > 52 {
            lemma_power2_mono(53, p);
            assert(power(2, 53) == 2 * power(2, 52));
        }
        let a = power(2, p);
        let scale = power(2, (52 - p) as nat);
        lemma_power2_add(p, (52 - p) as nat);
        lemma_power2_mono(0, (52 - p) as nat);
        assert(power(2, p + 1) == 2 * a);
        let f = (m - a) * scale;
        assert(0 <= f < 0x10_0000_0000_0000 && f + 0x10_0000_0000_0000 == m * scale)
            by (nonlinear_arith)
            requires
                0 <= m - a < a,
                a * scale == 0x10_0000_0000_0000,
                scale >= 1,
                f == (m - a) * scale,
        ;
        let d = double_of(n);
        assert(exponent(d) == 1023 + p);
        assert(significand(d) == m * scale);
        vstd::arithmetic::div_mod::lemma_div_multiples_vanish(m as int, scale as int);
        vstd::arithmetic::mul::lemma_mul_is_commutative(m as int, scale as int);
        if p == 52 {
            assert(power(2, 0) == 1);
            assert(scale == 1);
            assert((m * scale) * 1 == m) by (nonlinear_arith)
                requires
                    scale == 1,
            ;
            assert((1075 - (1023 + p)) as nat == 0);
        } else {
            assert((1075 - exponent(d)) as nat == (52 - p) as nat);
        }
        assert(whole_part(d) == m);
    }
}

} // verus!
