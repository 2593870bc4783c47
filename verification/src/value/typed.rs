//! The elements of typed arrays.
use vstd::prelude::*;

use crate::bigint::power;
use crate::grammar::{bytes_value, low_bytes};
use crate::number::{
    double_of, exponent, from_int, integers_read_back, is_nan, lemma_highest, lemma_power2_add,
    lemma_power2_mono, lemma_top_bit, low_long, low_word, negative, significand, top_bit,
    truncated, two_to, INFINITY,
};
use crate::value::width::{
    f16_to_f32, f32_to_f64, f64_to_f16, f64_to_f32, half_to_single, narrowed, nearest,
    is_value, lemma_half_through_single, lemma_nearest_exact, nearest_quotient, single_to_double,
    widening_reads_back,
};

verus! {

/// The element type of a typed array.
#[derive(Clone, Copy, PartialEq, Eq, Structural, Debug)]
pub enum TaKind {
    I8,
    U8,
    U8Clamped,
    I16,
    U16,
    I32,
    U32,
    F16,
    F32,
    F64,
    I64,
    U64,
}

/// What a typed array shows of its buffer.
#[derive(Clone, Copy, PartialEq, Eq, Structural, Debug)]
pub struct TaInfo {
    pub buffer: usize,
    pub offset: usize,
    pub len: usize,
    pub kind: TaKind,
    /// Whether the length follows the size of the buffer.
    pub track: bool,
}

/// How a property key relates to the elements of an object.
#[derive(Clone, Copy, PartialEq, Eq, Structural, Debug)]
pub enum TaIndex {
    /// The place of an element.
    Element(usize),
    /// A number that is no element's place: nothing is there, and nothing can be stored.
    Exotic,
    /// An ordinary key.
    Ordinary,
}

/// A number of some bytes as a signed number.
pub open spec fn signed(n: nat, k: nat) -> int {
    if 2 * n >= power(256, k) {
        n - power(256, k)
    } else {
        n as int
    }
}

/// The double nearest to an integer, the even one of two that are equally near.
pub open spec fn rounded(n: int) -> u64 {
    let m: nat = if n < 0 {
        (-n) as nat
    } else {
        n as nat
    };
    if m < 0x20_0000_0000_0000 {
        double_of(n)
    } else {
        ((if n < 0 {
            0x8000_0000_0000_0000int
        } else {
            0
        }) + (1022 + top_bit(m)) * 0x10_0000_0000_0000 + nearest(
            m,
            power(2, (top_bit(m) - 52) as nat),
        )) as u64
    }
}

/// ToUint8Clamp: the nearest integer, the even one of two that are equally near, within a byte.
pub open spec fn clamped(bits: u64) -> nat {
    let e = exponent(bits);
    if is_nan(bits) || negative(bits) || e < 1022 {
        0
    } else if e > 1030 {
        255
    } else {
        let n = nearest(significand(bits), power(2, (1075 - e) as nat));
        if n > 255 {
            255
        } else {
            n
        }
    }
}

impl TaKind {
    pub open spec fn size(self) -> nat {
        match self {
            TaKind::I8 | TaKind::U8 | TaKind::U8Clamped => 1,
            TaKind::I16 | TaKind::U16 | TaKind::F16 => 2,
            TaKind::I32 | TaKind::U32 | TaKind::F32 => 4,
            TaKind::F64 | TaKind::I64 | TaKind::U64 => 8,
        }
    }

    pub open spec fn is_signed(self) -> bool {
        self == TaKind::I8 || self == TaKind::I16 || self == TaKind::I32 || self == TaKind::I64
    }

    /// The integer that the bytes of an element spell.
    pub open spec fn integer(self, b: Seq<u8>) -> int {
        if self.is_signed() {
            signed(bytes_value(b), self.size())
        } else {
            bytes_value(b) as int
        }
    }

    /// The number, as a double, that the bytes of an element spell.
    pub open spec fn number(self, b: Seq<u8>) -> u64 {
        match self {
            TaKind::F16 => single_to_double(half_to_single(bytes_value(b) as u16) as u32) as u64,
            TaKind::F32 => single_to_double(bytes_value(b) as u32) as u64,
            TaKind::F64 => bytes_value(b) as u64,
            TaKind::I64 | TaKind::U64 => rounded(self.integer(b)),
            _ => double_of(self.integer(b)),
        }
    }

    /// The bytes that a number is stored as.
    pub open spec fn stored(self, bits: u64) -> Seq<u8> {
        match self {
            TaKind::U8Clamped => low_bytes(clamped(bits), 1),
            TaKind::F16 => low_bytes(narrowed(bits, 15, 10) as nat, 2),
            TaKind::F32 => low_bytes(narrowed(bits, 127, 23) as nat, 4),
            TaKind::F64 => low_bytes(bits as nat, 8),
            TaKind::I64 | TaKind::U64 => low_bytes(
                (truncated(bits) % 0x1_0000_0000_0000_0000) as nat,
                8,
            ),
            _ => low_bytes((truncated(bits) % 0x1_0000_0000) as nat, self.size()),
        }
    }

    /// The size of an element in bytes.
    pub fn elsize(self) -> (r: usize)
        ensures
            r == self.size(),
    {
        match self {
            TaKind::I8 | TaKind::U8 | TaKind::U8Clamped => 1,
            TaKind::I16 | TaKind::U16 | TaKind::F16 => 2,
            TaKind::I32 | TaKind::U32 | TaKind::F32 => 4,
            TaKind::F64 | TaKind::I64 | TaKind::U64 => 8,
        }
    }

    /// Whether the elements are big integers.
    pub fn is_bigint(self) -> (r: bool)
        ensures
            r == (self == TaKind::I64 || self == TaKind::U64),
    {
        matches!(self, TaKind::I64 | TaKind::U64)
    }

    /// The name of the constructor.
    pub open spec fn constructor_name(self) -> &'static str {
        match self {
            TaKind::I8 => "Int8Array",
            TaKind::U8 => "Uint8Array",
            TaKind::U8Clamped => "Uint8ClampedArray",
            TaKind::I16 => "Int16Array",
            TaKind::U16 => "Uint16Array",
            TaKind::I32 => "Int32Array",
            TaKind::U32 => "Uint32Array",
            TaKind::F16 => "Float16Array",
            TaKind::F32 => "Float32Array",
            TaKind::F64 => "Float64Array",
            TaKind::I64 => "BigInt64Array",
            TaKind::U64 => "BigUint64Array",
        }
    }

    /// The name of the constructor.
    pub fn name(self) -> (r: &'static str)
        ensures
            r == self.constructor_name(),
    {
        match self {
            TaKind::I8 => "Int8Array",
            TaKind::U8 => "Uint8Array",
            TaKind::U8Clamped => "Uint8ClampedArray",
            TaKind::I16 => "Int16Array",
            TaKind::U16 => "Uint16Array",
            TaKind::I32 => "Int32Array",
            TaKind::U32 => "Uint32Array",
            TaKind::F16 => "Float16Array",
            TaKind::F32 => "Float32Array",
            TaKind::F64 => "Float64Array",
            TaKind::I64 => "BigInt64Array",
            TaKind::U64 => "BigUint64Array",
        }
    }

    /// The big integer that the bytes of an element spell.
    pub fn read_bigint(self, b: &[u8]) -> (r: i128)
        requires
            b@.len() == 8,
        ensures
            r == (if self == TaKind::U64 {
                bytes_value(b@) as int
            } else {
                signed(bytes_value(b@), 8)
            }),
    {
        proof {
            lemma_byte_powers();
        }
        let n: u64 = from_little(b);
        if matches!(self, TaKind::U64) || n < 0x8000_0000_0000_0000 {
            n as i128
        } else {
            n as i128 - 0x1_0000_0000_0000_0000
        }
    }

    /// The bytes that a big integer is stored as: its lowest eight.
    pub fn write_bigint(self, n: i128) -> (r: Vec<u8>)
        ensures
            r@ == low_bytes((n as int % 0x1_0000_0000_0000_0000) as nat, 8),
    {
        to_little(low_quad(n), 8)
    }

    /// The number, as a double, that the bytes of an element spell.
    pub fn read(self, b: &[u8]) -> (r: u64)
        requires
            b@.len() == self.size(),
        ensures
            r == self.number(b@),
    {
        proof {
            lemma_byte_powers();
            lemma_little_bound(b@);
        }
        let n: u64 = from_little(b);
        match self {
            TaKind::I8 => if n >= 0x80 {
                from_int(n as i64 - 0x100)
            } else {
                from_int(n as i64)
            },
            TaKind::I16 => if n >= 0x8000 {
                from_int(n as i64 - 0x1_0000)
            } else {
                from_int(n as i64)
            },
            TaKind::I32 => if n >= 0x8000_0000 {
                from_int(n as i64 - 0x1_0000_0000)
            } else {
                from_int(n as i64)
            },
            TaKind::U8 | TaKind::U8Clamped | TaKind::U16 | TaKind::U32 => from_int(n as i64),
            TaKind::F16 => f32_to_f64(f16_to_f32(n as u16)),
            TaKind::F32 => f32_to_f64(n as u32),
            TaKind::F64 => n,
            TaKind::I64 | TaKind::U64 => from_wide(self.read_bigint(b)),
        }
    }

    /// The bytes that a number is stored as.
    pub fn write(self, bits: u64) -> (r: Vec<u8>)
        ensures
            r@ == self.stored(bits),
    {
        match self {
            TaKind::U8Clamped => to_little(clamp(bits), 1),
            TaKind::F16 => to_little(f64_to_f16(bits) as u64, 2),
            TaKind::F32 => to_little(f64_to_f32(bits) as u64, 4),
            TaKind::F64 => to_little(bits, 8),
            TaKind::I64 | TaKind::U64 => self.write_bigint(low_long(bits) as i128),
            _ => to_little(low_word(bits), self.elsize()),
        }
    }
}

proof fn lemma_byte_powers()
    ensures
        power(256, 1) == 0x100,
        power(256, 2) == 0x1_0000,
        power(256, 4) == 0x1_0000_0000,
        power(256, 8) == 0x1_0000_0000_0000_0000,
{
    reveal_with_fuel(power, 9);
}

proof fn lemma_little_bound(b: Seq<u8>)
    ensures
        bytes_value(b) < power(256, b.len()),
    decreases b.len(),
{
    if b.len() > 0 {
        lemma_little_bound(b.drop_first());
    }
}

/// The number that up to eight bytes spell.
fn from_little(b: &[u8]) -> (r: u64)
    requires
        b@.len() <= 8,
    ensures
        r == bytes_value(b@),
{
    let mut i: usize = b.len();
    let mut n: u64 = 0;
    assert(b@.skip(i as int) =~= Seq::<u8>::empty());
    while i > 0
        invariant
            i <= b@.len() <= 8,
            n == bytes_value(b@.skip(i as int)),
        decreases i,
    {
        proof {
            lemma_little_bound(b@.skip(i as int));
            lemma_power256_mono((b@.len() - i) as nat, 7);
            lemma_byte_powers();
            assert(power(256, 8) == 256 * power(256, 7));
            assert(b@.skip(i as int - 1).drop_first() =~= b@.skip(i as int));
        }
        i = i - 1;
        n = b[i] as u64 + 256 * n;
    }
    assert(b@.skip(0) =~= b@);
    n
}

proof fn lemma_power256_mono(a: nat, b: nat)
    requires
        a <= b,
    ensures
        1 <= power(256, a) <= power(256, b),
    decreases b,
{
    if a < b {
        lemma_power256_mono(a, (b - 1) as nat);
    } else if b > 0 {
        lemma_power256_mono((a - 1) as nat, (b - 1) as nat);
    }
}

/// The lowest bytes of a number.
fn to_little(n: u64, k: usize) -> (r: Vec<u8>)
    ensures
        r@ == low_bytes(n as nat, k as nat),
{
    let mut out: Vec<u8> = Vec::new();
    let mut rest: u64 = n;
    let mut i: usize = 0;
    while i < k
        invariant
            i <= k,
            out@ + low_bytes(rest as nat, (k - i) as nat) =~= low_bytes(n as nat, k as nat),
        decreases k - i,
    {
        out.push((rest % 256) as u8);
        rest = rest / 256;
        i = i + 1;
    }
    out
}

/// A number modulo 2^64.
fn low_quad(n: i128) -> (r: u64)
    ensures
        r == n as int % 0x1_0000_0000_0000_0000,
{
    let r: u64 = n as u64;
    assert(n as u64 as i128 == n % 0x1_0000_0000_0000_0000i128) by (bit_vector);
    r
}

/// The double nearest to an integer.
fn from_wide(n: i128) -> (r: u64)
    requires
        -0x8000_0000_0000_0000 <= n <= 0xffff_ffff_ffff_ffff,
    ensures
        r == rounded(n as int),
{
    let m: u64 = if n < 0 {
        (-n) as u64
    } else {
        n as u64
    };
    if m < 0x20_0000_0000_0000 {
        return from_int(n as i64);
    }
    let mut p: u64 = 63;
    let mut top: u64 = 0x8000_0000_0000_0000;
    proof {
        lemma_two_powers();
    }
    while top > m
        invariant
            52 < p <= 63,
            top as nat == power(2, p as nat),
            power(2, 53) == 0x20_0000_0000_0000,
            m >= 0x20_0000_0000_0000,
            p < 63 ==> m < 2 * top,
            m <= u64::MAX,
        decreases p,
    {
        if p == 53 {
            assert(false);
        }
        top = top / 2;
        p = p - 1;
        assert(power(2, (p + 1) as nat) == 2 * power(2, p as nat));
    }
    let d: u64 = two_to(p - 52);
    proof {
        assert(power(2, (p + 1) as nat) == 2 * power(2, p as nat));
        lemma_two_powers();
        lemma_top_bit(m as nat, p as nat);
        lemma_power2_mono(1, (p - 52) as nat);
        assert(power(2, 1) == 2) by {
            reveal_with_fuel(power, 2);
        }
        lemma_power2_add((p - 52) as nat, 53);
        assert((p - 52) as nat + 53 == (p + 1) as nat);
        assert(m / d < 0x20_0000_0000_0000) by (nonlinear_arith)
            requires
                m < d * 0x20_0000_0000_0000,
                d > 0,
        ;
    }
    if m == u64::MAX {
        proof {
            if p < 63 {
                lemma_power2_mono((p + 1) as nat, 63);
            }
            assert(power(2, 11) == 2048) by {
                reveal_with_fuel(power, 12);
            }
        }
        let sign: u64 = if n < 0 {
            0x8000_0000_0000_0000
        } else {
            0
        };
        assert(nearest(m as nat, 2048) == 0x20_0000_0000_0000);
        return sign + (1022 + p) * 0x10_0000_0000_0000 + 0x20_0000_0000_0000;
    }
    let q: u64 = nearest_quotient(m, d);
    let sign: u64 = if n < 0 {
        0x8000_0000_0000_0000
    } else {
        0
    };
    sign + (1022 + p) * 0x10_0000_0000_0000 + q
}

proof fn lemma_two_powers()
    ensures
        power(2, 53) == 0x20_0000_0000_0000,
        power(2, 63) == 0x8000_0000_0000_0000,
        power(2, 64) == 0x1_0000_0000_0000_0000,
{
    assert(power(2, 53) == 0x20_0000_0000_0000) by {
        reveal_with_fuel(power, 54);
    }
    assert(power(2, 63) == 0x8000_0000_0000_0000) by {
        reveal_with_fuel(power, 11);
    }
    assert(power(2, 64) == 2 * power(2, 63));
}

/// ToUint8Clamp of a double.
fn clamp(bits: u64) -> (r: u64)
    ensures
        r == clamped(bits),
        r <= 255,
{
    let e: u64 = bits / 0x10_0000_0000_0000 % 2048;
    let m: u64 = bits % 0x10_0000_0000_0000 + 0x10_0000_0000_0000;
    if bits >= 0x8000_0000_0000_0000 || bits > INFINITY || e < 1022 {
        return 0;
    }
    if e > 1030 {
        return 255;
    }
    let d: u64 = two_to(1075 - e);
    proof {
        lemma_power2_mono(1, (1075 - e) as nat);
        assert(power(2, 1) == 2) by {
            reveal_with_fuel(power, 2);
        }
    }
    let n: u64 = nearest_quotient(m, d);
    if n > 255 {
        255
    } else {
        n
    }
}

/// The value of the lowest bytes of a number.
proof fn lemma_bytes_of(b: Seq<u8>)
    ensures
        low_bytes(bytes_value(b), b.len()) == b,
    decreases b.len(),
{
    if b.len() > 0 {
        lemma_bytes_of(b.drop_first());
        assert(b =~= seq![b[0]] + b.drop_first());
    }
}

/// The lowest bytes of a number do not depend on what is above them.
proof fn lemma_low_bytes_of(n: nat, x: nat, k: nat)
    ensures
        low_bytes(n + x * power(256, k), k) == low_bytes(n, k),
    decreases k,
{
    if k > 0 {
        let p = power(256, (k - 1) as nat);
        assert(x * (256 * p) == 256 * (x * p)) by (nonlinear_arith);
        assert((n + 256 * (x * p)) % 256 == n % 256);
        assert((n + 256 * (x * p)) / 256 == n / 256 + x * p);
        lemma_low_bytes_of(n / 256, x, (k - 1) as nat);
    }
}

/// The big integer that an element spells is stored as the bytes of the element.
pub proof fn big_elements_read_back(kind: TaKind, b: Seq<u8>)
    requires
        kind == TaKind::I64 || kind == TaKind::U64,
        b.len() == 8,
    ensures
        low_bytes((kind.integer(b) % 0x1_0000_0000_0000_0000) as nat, 8) == b,
{
    lemma_byte_powers();
    lemma_little_bound(b);
    lemma_bytes_of(b);
}

/// Reading an element and storing the number again gives the same bytes, but for those of a half or
/// single precision element that is not a number.
pub proof fn elements_read_back(kind: TaKind, b: Seq<u8>)
    requires
        kind != TaKind::I64 && kind != TaKind::U64,
        b.len() == kind.size(),
        kind == TaKind::F16 ==> is_value(bytes_value(b), 15, 10),
        kind == TaKind::F32 ==> is_value(bytes_value(b), 127, 23),
    ensures
        kind.stored(kind.number(b)) == b,
{
    lemma_byte_powers();
    lemma_little_bound(b);
    lemma_bytes_of(b);
    let v = bytes_value(b);
    match kind {
        TaKind::F16 => {
            lemma_half_through_single(v);
            widening_reads_back(v, 15, 10);
        },
        TaKind::F32 => {
            widening_reads_back(v, 127, 23);
        },
        TaKind::F64 => {},
        TaKind::U8Clamped => {
            lemma_clamp_whole(v);
        },
        _ => {
            let n = kind.integer(b);
            integers_read_back(n);
            if n < 0 {
                assert(n % 0x1_0000_0000 == n + 0x1_0000_0000);
                let k = kind.size();
                if k == 1 {
                    assert(n + 0x1_0000_0000 == v + 0xff_ffff * power(256, 1));
                    lemma_low_bytes_of(v, 0xff_ffff, 1);
                } else if k == 2 {
                    assert(n + 0x1_0000_0000 == v + 0xffff * power(256, 2));
                    lemma_low_bytes_of(v, 0xffff, 2);
                }
            }
        },
    }
}

/// A byte is not changed by clamping.
proof fn lemma_clamp_whole(v: nat)
    requires
        v < 256,
    ensures
        clamped(double_of(v as int)) == v,
{
    if v > 0 {
        let p = lemma_highest(v);
        assert(power(2, 8) == 256) by {
            reveal_with_fuel(power, 9);
        }
        if p > 7 {
            lemma_power2_mono(8, p);
        }
        let a = power(2, p);
        let scale = power(2, (52 - p) as nat);
        lemma_power2_add(p, (52 - p) as nat);
        lemma_power2_mono(0, (52 - p) as nat);
        lemma_two_powers();
        assert(power(2, 53) == 2 * power(2, 52));
        assert(power(2, p + 1) == 2 * a);
        let f = (v - a) * scale;
        assert(0 <= f < 0x10_0000_0000_0000 && f + 0x10_0000_0000_0000 == v * scale)
            by (nonlinear_arith)
            requires
                0 <= v - a < a,
                a * scale == 0x10_0000_0000_0000,
                scale >= 1,
                f == (v - a) * scale,
        ;
        let d = double_of(v as int);
        assert(exponent(d) == 1023 + p);
        assert(significand(d) == v * scale);
        lemma_nearest_exact(v, scale);
        assert((1075 - exponent(d)) as nat == (52 - p) as nat);
    }
}

} // verus!
