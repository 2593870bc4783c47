//! Arbitrary-precision integers: a sign and a magnitude in 32-bit limbs, least significant first.
use vstd::prelude::*;

use crate::number::Relation;
use crate::text::to_chars;

verus! {

/// The number that a sequence of limbs stands for.
pub open spec fn limbs_value(m: Seq<u32>) -> nat
    decreases m.len(),
{
    if m.len() == 0 {
        0
    } else {
        m[0] as nat + 0x1_0000_0000 * limbs_value(m.drop_first())
    }
}

/// `b` to the power `k`.
pub open spec fn power(b: nat, k: nat) -> nat
    decreases k,
{
    if k == 0 {
        1
    } else {
        b * power(b, (k - 1) as nat)
    }
}

/// The value of a digit character, in any radix up to 36: `0`-`9`, then `a`-`z` in either case.
pub open spec fn digit_value(c: char) -> Option<nat> {
    if '0' <= c <= '9' {
        Some((c as nat - '0' as nat) as nat)
    } else if 'a' <= c <= 'z' {
        Some((c as nat - 'a' as nat + 10) as nat)
    } else if 'A' <= c <= 'Z' {
        Some((c as nat - 'A' as nat + 10) as nat)
    } else {
        None
    }
}

/// Whether a character is a digit in the radix.
pub open spec fn is_digit(c: char, radix: nat) -> bool {
    digit_value(c) matches Some(d) && d < radix
}

/// The number that a run of digits spells, most significant first.
pub open spec fn digits_value(s: Seq<char>, radix: nat) -> nat
    decreases s.len(),
{
    if s.len() == 0 {
        0
    } else {
        digits_value(s.drop_last(), radix) * radix + digit_value(s.last())->0
    }
}

/// The number that a text spells in the radix: at least one digit and nothing but digits.
pub open spec fn radix_value(s: Seq<char>, radix: nat) -> Option<nat> {
    if s.len() > 0 && (forall|i: int| 0 <= i < s.len() ==> is_digit(#[trigger] s[i], radix)) {
        Some(digits_value(s, radix))
    } else {
        None
    }
}

/// The lower-case digit for a value below 36.
pub open spec fn digit_for(d: nat) -> char {
    if d < 10 {
        ('0' as nat + d) as char
    } else {
        ('a' as nat + d - 10) as char
    }
}

/// The digits of a number in the radix, most significant first, without leading zeros.
pub open spec fn radix_digits(n: nat, radix: nat) -> Seq<char>
    decreases n,
{
    if radix < 2 || n < radix {
        seq![digit_for(n)]
    } else {
        proof {
            assert(n / radix < n) by (nonlinear_arith)
                requires
                    2 <= radix <= n,
            ;
        }
        radix_digits(n / radix, radix).push(digit_for(n % radix))
    }
}

/// The text of an integer in the radix: a minus sign where it is negative, then its digits.
pub open spec fn radix_text(v: int, radix: nat) -> Seq<char> {
    if v < 0 {
        seq!['-'] + radix_digits((-v) as nat, radix)
    } else {
        radix_digits(v as nat, radix)
    }
}

/// How two integers compare.
pub open spec fn order_of(a: int, b: int) -> Relation {
    if a < b {
        Relation::Less
    } else if a == b {
        Relation::Equal
    } else {
        Relation::Greater
    }
}

/// A limb, which is zero beyond the last.
spec fn limb_at(m: Seq<u32>, i: nat) -> u32 {
    if i < m.len() {
        m[i as int]
    } else {
        0
    }
}

/// What the lowest limbs stand for.
spec fn low_limbs(m: Seq<u32>, i: nat) -> nat {
    if i < m.len() {
        limbs_value(m.take(i as int))
    } else {
        limbs_value(m)
    }
}

proof fn lemma_low_step(m: Seq<u32>, i: nat)
    ensures
        low_limbs(m, i + 1) == low_limbs(m, i) + power(0x1_0000_0000, i) * limb_at(m, i),
        low_limbs(m, i) < power(0x1_0000_0000, i),
    decreases i,
{
    let p = power(0x1_0000_0000, i);
    if i > 0 {
        lemma_low_step(m, (i - 1) as nat);
        let q = power(0x1_0000_0000, (i - 1) as nat);
        let x = limb_at(m, (i - 1) as nat);
        assert(q * x <= q * 0xffff_ffff) by (nonlinear_arith)
            requires
                x <= 0xffff_ffff,
        ;
        assert(p == 0x1_0000_0000 * q);
    } else {
        assert(m.take(0) =~= Seq::<u32>::empty());
    }
    if i < m.len() {
        lemma_limbs_push(m.take(i as int), m[i as int]);
        assert(m.take(i as int).push(m[i as int]) =~= m.take(i as int + 1));
        if i + 1 == m.len() {
            assert(m.take(i as int + 1) =~= m);
        }
    } else {
        assert(p * 0 == 0);
    }
}

/// How the numbers of two rows of limbs compare.
fn compare_limbs(a: &Vec<u32>, b: &Vec<u32>) -> (r: Relation)
    ensures
        r == order_of(limbs_value(a@) as int, limbs_value(b@) as int),
{
    let n: usize = if a.len() > b.len() {
        a.len()
    } else {
        b.len()
    };
    let mut r = Relation::Equal;
    let mut i: usize = 0;
    assert(a@.take(0) =~= Seq::<u32>::empty());
    assert(b@.take(0) =~= Seq::<u32>::empty());
    while i < n
        invariant
            i <= n,
            n >= a.len(),
            n >= b.len(),
            r == order_of(low_limbs(a@, i as nat) as int, low_limbs(b@, i as nat) as int),
        decreases n - i,
    {
        let x: u32 = if i < a.len() {
            a[i]
        } else {
            0
        };
        let y: u32 = if i < b.len() {
            b[i]
        } else {
            0
        };
        proof {
            lemma_low_step(a@, i as nat);
            lemma_low_step(b@, i as nat);
            let p = power(0x1_0000_0000, i as nat);
            assert(x < y ==> p * x + p <= p * y) by (nonlinear_arith);
            assert(y < x ==> p * y + p <= p * x) by (nonlinear_arith);
        }
        if x < y {
            r = Relation::Less;
        } else if y < x {
            r = Relation::Greater;
        }
        i = i + 1;
    }
    r
}

/// An integer of any size.
pub struct JsBigInt {
    negative: bool,
    limbs: Vec<u32>,
}

impl View for JsBigInt {
    type V = int;

    closed spec fn view(&self) -> int {
        if self.negative {
            -(limbs_value(self.limbs@) as int)
        } else {
            limbs_value(self.limbs@) as int
        }
    }
}

/// An integer as a signed 64-bit number, wrapping round.
pub open spec fn wrapped(n: int) -> int {
    let low = n % 0x1_0000_0000_0000_0000;
    if low >= 0x8000_0000_0000_0000 {
        low - 0x1_0000_0000_0000_0000
    } else {
        low
    }
}

proof fn lemma_low_limbs(m: Seq<u32>)
    ensures
        limbs_value(m) as int % 0x1_0000_0000_0000_0000 == (if m.len() > 0 {
            m[0] as int
        } else {
            0
        }) + 0x1_0000_0000 * (if m.len() > 1 {
            m[1] as int
        } else {
            0
        }),
{
    reveal_with_fuel(limbs_value, 3);
    if m.len() > 1 {
        let rest = m.drop_first().drop_first();
        assert(limbs_value(m) == m[0] + 0x1_0000_0000 * (m[1] + 0x1_0000_0000 * limbs_value(rest)));
        vstd::arithmetic::div_mod::lemma_fundamental_div_mod_converse(
            limbs_value(m) as int,
            0x1_0000_0000_0000_0000,
            limbs_value(rest) as int,
            m[0] + 0x1_0000_0000 * m[1],
        );
    } else if m.len() == 1 {
        assert(m.drop_first() =~= Seq::empty());
    }
}

impl JsBigInt {
    #[verifier::type_invariant]
    spec fn canonical(self) -> bool {
        &&& (self.limbs@.len() > 0 ==> self.limbs@.last() != 0)
        &&& (self.negative ==> self.limbs@.len() > 0)
    }

    /// Zero.
    pub fn zero() -> (r: JsBigInt)
        ensures
            r@ == 0,
    {
        JsBigInt { negative: false, limbs: Vec::new() }
    }

    /// An unsigned machine integer.
    pub fn from_u64(v: u64) -> (r: JsBigInt)
        ensures
            r@ == v,
    {
        let mut limbs: Vec<u32> = Vec::new();
        let lo: u64 = v % 0x1_0000_0000;
        let hi: u64 = v / 0x1_0000_0000;
        limbs.push(lo as u32);
        limbs.push(hi as u32);
        assert(limbs@.drop_first() =~= seq![hi as u32]);
        assert(limbs@.drop_first().drop_first() =~= Seq::<u32>::empty());
        assert(limbs_value(limbs@) == v) by {
            reveal_with_fuel(limbs_value, 3);
        }
        trim(&mut limbs);
        JsBigInt { negative: false, limbs }
    }

    /// A signed machine integer.
    pub fn from_i64(v: i64) -> (r: JsBigInt)
        ensures
            r@ == v,
    {
        if v >= 0 {
            JsBigInt::from_u64(v as u64)
        } else {
            let magnitude: u64 = (-(v + 1)) as u64 + 1;
            JsBigInt::from_u64(magnitude).neg()
        }
    }

    /// Whether the integer is zero.
    pub fn is_zero(&self) -> (r: bool)
        ensures
            r == (self@ == 0),
    {
        proof {
            use_type_invariant(self);
            lemma_limbs_nonzero(self.limbs@);
        }
        self.limbs.len() == 0
    }

    /// Whether the integer is below zero.
    pub fn is_negative(&self) -> (r: bool)
        ensures
            r == (self@ < 0),
    {
        proof {
            use_type_invariant(self);
            lemma_limbs_nonzero(self.limbs@);
        }
        self.negative
    }

    /// The same integer again.
    pub fn copy(&self) -> (r: JsBigInt)
        ensures
            r@ == self@,
    {
        proof {
            use_type_invariant(self);
        }
        let mut limbs: Vec<u32> = Vec::new();
        let mut i: usize = 0;
        while i < self.limbs.len()
            invariant
                i <= self.limbs.len(),
                limbs@ =~= self.limbs@.take(i as int),
            decreases self.limbs.len() - i,
        {
            limbs.push(self.limbs[i]);
            i = i + 1;
        }
        assert(limbs@ =~= self.limbs@);
        JsBigInt { negative: self.negative, limbs }
    }

    /// How two integers compare.
    pub fn relate(&self, other: &JsBigInt) -> (r: Relation)
        ensures
            r == order_of(self@, other@),
    {
        proof {
            use_type_invariant(self);
            use_type_invariant(other);
            lemma_limbs_nonzero(self.limbs@);
            lemma_limbs_nonzero(other.limbs@);
        }
        if self.negative {
            if other.negative {
                compare_limbs(&other.limbs, &self.limbs)
            } else {
                Relation::Less
            }
        } else if other.negative {
            Relation::Greater
        } else {
            compare_limbs(&self.limbs, &other.limbs)
        }
    }

    /// The absolute value, or the greatest 64-bit number where that is less.
    pub fn magnitude(&self) -> (r: u64)
        ensures
            self@ >= 0 ==> r == (if self@ > u64::MAX {
                u64::MAX as int
            } else {
                self@
            }),
            self@ < 0 ==> r == (if -self@ > u64::MAX {
                u64::MAX as int
            } else {
                -self@
            }),
    {
        proof {
            use_type_invariant(self);
            lemma_limbs_nonzero(self.limbs@);
        }
        if self.limbs.len() > 2 {
            proof {
                let m = self.limbs@;
                lemma_limbs_split(m, 2);
                assert(m.skip(2).last() == m.last());
                lemma_limbs_nonzero(m.skip(2));
                assert(power(0x1_0000_0000, 2) == 0x1_0000_0000_0000_0000) by {
                    reveal_with_fuel(power, 3);
                }
                let v = limbs_value(m.skip(2));
                assert(0x1_0000_0000_0000_0000 * v >= 0x1_0000_0000_0000_0000) by (nonlinear_arith)
                    requires
                        v >= 1,
                ;
            }
            return u64::MAX;
        }
        proof {
            reveal_with_fuel(limbs_value, 4);
        }
        let lo: u64 = if self.limbs.len() > 0 {
            self.limbs[0] as u64
        } else {
            0
        };
        let hi: u64 = if self.limbs.len() > 1 {
            self.limbs[1] as u64
        } else {
            0
        };
        lo + 0x1_0000_0000 * hi
    }

    /// The integer with its sign turned round.
    pub fn neg(self) -> (r: JsBigInt)
        ensures
            r@ == -self@,
    {
        proof {
            use_type_invariant(&self);
            lemma_limbs_nonzero(self.limbs@);
        }
        let negative = !self.negative && self.limbs.len() > 0;
        JsBigInt { negative, limbs: self.limbs }
    }

    /// The integer as a signed 64-bit number, wrapping round.
    pub fn bigint_as_i64(&self) -> (r: i64)
        ensures
            r == wrapped(self@),
    {
        let lo: u64 = if self.limbs.len() > 0 {
            self.limbs[0] as u64
        } else {
            0
        };
        let hi: u64 = if self.limbs.len() > 1 {
            self.limbs[1] as u64
        } else {
            0
        };
        let low: u64 = lo + 0x1_0000_0000 * hi;
        proof {
            lemma_low_limbs(self.limbs@);
        }
        let word: u64 = if self.negative && low > 0 {
            (u64::MAX - low) + 1
        } else {
            low
        };
        proof {
            let m = limbs_value(self.limbs@) as int;
            assert(low == m % 0x1_0000_0000_0000_0000);
            vstd::arithmetic::div_mod::lemma_fundamental_div_mod(m, 0x1_0000_0000_0000_0000);
            let q = m / 0x1_0000_0000_0000_0000;
            if self.negative {
                vstd::arithmetic::div_mod::lemma_fundamental_div_mod_converse(
                    -m,
                    0x1_0000_0000_0000_0000,
                    if low == 0 {
                        -q
                    } else {
                        -q - 1
                    },
                    word as int,
                );
            }
        }
        if word >= 0x8000_0000_0000_0000 {
            -((u64::MAX - word) as i64) - 1
        } else {
            word as i64
        }
    }

    /// The natural number that a run of digits spells; `None` for an empty text or one that holds
    /// anything but digits of the radix.
    pub fn parse_radix(text: &str, radix: u32) -> (r: Option<JsBigInt>)
        requires
            2 <= radix <= 36,
        ensures
            match radix_value(text@, radix as nat) {
                Some(n) => r matches Some(v) && v@ == n,
                None => r is None,
            },
    {
        let chars = to_chars(text);
        if chars.len() == 0 {
            return None;
        }
        let mut limbs: Vec<u32> = Vec::new();
        let mut i: usize = 0;
        assert(chars@.take(0) =~= Seq::<char>::empty());
        while i < chars.len()
            invariant
                i <= chars.len(),
                chars@ == text@,
                2 <= radix <= 36,
                forall|j: int| 0 <= j < i ==> is_digit(#[trigger] text@[j], radix as nat),
                limbs_value(limbs@) == digits_value(text@.take(i as int), radix as nat),
                limbs@.len() > 0 ==> limbs@.last() != 0,
            decreases chars.len() - i,
        {
            match digit_of(chars[i]) {
                Some(d) => {
                    if d >= radix {
                        assert(!is_digit(text@[i as int], radix as nat));
                        return None;
                    }
                    let ghost before = text@.take(i as int);
                    assert(text@.take(i as int + 1).drop_last() =~= before);
                    mul_add(&mut limbs, radix, d);
                },
                None => {
                    assert(!is_digit(text@[i as int], radix as nat));
                    return None;
                },
            }
            i = i + 1;
        }
        assert(text@.take(i as int) =~= text@);
        Some(JsBigInt { negative: false, limbs })
    }

    /// The natural number that a run of decimal digits spells.
    pub fn parse_dec(text: &str) -> (r: Option<JsBigInt>)
        ensures
            match radix_value(text@, 10) {
                Some(n) => r matches Some(v) && v@ == n,
                None => r is None,
            },
    {
        JsBigInt::parse_radix(text, 10)
    }

    /// The text of the integer in the radix.
    pub fn to_string_radix(&self, radix: u32) -> (r: String)
        requires
            2 <= radix <= 36,
        ensures
            r@ == radix_text(self@, radix as nat),
    {
        proof {
            use_type_invariant(self);
            lemma_limbs_nonzero(self.limbs@);
        }
        let mut limbs: Vec<u32> = Vec::new();
        let mut k: usize = 0;
        while k < self.limbs.len()
            invariant
                k <= self.limbs.len(),
                limbs@ == self.limbs@.take(k as int),
            decreases self.limbs.len() - k,
        {
            limbs.push(self.limbs[k]);
            k = k + 1;
        }
        assert(limbs@ =~= self.limbs@);
        let mut out = String::new();
        if self.negative {
            out.push('-');
        }
        let ghost sign = out@;
        assert(sign =~= (if self.negative {
            seq!['-']
        } else {
            Seq::<char>::empty()
        }));
        write_digits(&mut limbs, radix, &mut out);
        assert(out@ =~= radix_text(self@, radix as nat));
        out
    }
}

/// The value of a digit character.
pub(crate) fn digit_of(c: char) -> (r: Option<u32>)
    ensures
        match digit_value(c) {
            Some(d) => r matches Some(v) && v == d,
            None => r is None,
        },
{
    if '0' <= c && c <= '9' {
        Some(c as u32 - '0' as u32)
    } else if 'a' <= c && c <= 'z' {
        Some(c as u32 - 'a' as u32 + 10)
    } else if 'A' <= c && c <= 'Z' {
        Some(c as u32 - 'A' as u32 + 10)
    } else {
        None
    }
}

/// The digit character for a value.
fn char_of(d: u32) -> (c: char)
    requires
        d < 36,
    ensures
        c == digit_for(d as nat),
{
    if d < 10 {
        (48u8 + d as u8) as char
    } else {
        (87u8 + d as u8) as char
    }
}

/// Appends the digits of the limbs' value.
fn write_digits(limbs: &mut Vec<u32>, radix: u32, out: &mut String)
    requires
        2 <= radix <= 36,
    ensures
        final(out)@ == old(out)@ + radix_digits(limbs_value(old(limbs)@), radix as nat),
    decreases limbs_value(old(limbs)@),
{
    let ghost n = limbs_value(limbs@);
    let d = div_small(limbs, radix);
    let ghost q = limbs_value(limbs@);
    proof {
        assert(q == n / (radix as nat) && d == n % (radix as nat)) by {
            lemma_div_unique(n, radix as nat, q, d as nat);
        }
        lemma_limbs_nonzero(limbs@);
        if n < radix {
            assert(q == 0) by (nonlinear_arith)
                requires
                    n == q * radix + d,
                    n < radix,
                    2 <= radix,
            ;
            assert(n == d) by (nonlinear_arith)
                requires
                    n == q * radix + d,
                    q == 0,
            ;
        } else {
            assert(0 < q < n) by (nonlinear_arith)
                requires
                    n == q * radix + d,
                    d < radix,
                    n >= radix,
                    2 <= radix,
            ;
        }
    }
    if limbs.len() > 0 {
        write_digits(limbs, radix, out);
    }
    out.push(char_of(d));
    assert(out@ =~= old(out)@ + radix_digits(n, radix as nat));
}

/// Drops the zero limbs at the top.
fn trim(limbs: &mut Vec<u32>)
    ensures
        limbs_value(final(limbs)@) == limbs_value(old(limbs)@),
        final(limbs)@.len() > 0 ==> final(limbs)@.last() != 0,
{
    while limbs.len() > 0 && limbs[limbs.len() - 1] == 0
        invariant
            limbs_value(limbs@) == limbs_value(old(limbs)@),
        decreases limbs@.len(),
    {
        let ghost before = limbs@;
        let _ = limbs.pop();
        proof {
            lemma_limbs_split(before, before.len() - 1);
            assert(before.take(before.len() - 1) =~= limbs@);
            assert(before.skip(before.len() - 1) =~= seq![0u32]);
            assert(limbs_value(seq![0u32]) == 0) by {
                reveal_with_fuel(limbs_value, 2);
            }
        }
    }
}

/// Replaces the value `v` by `v * k + a`.
fn mul_add(limbs: &mut Vec<u32>, k: u32, a: u32)
    requires
        k >= 1,
        old(limbs)@.len() > 0 ==> old(limbs)@.last() != 0,
    ensures
        limbs_value(final(limbs)@) == limbs_value(old(limbs)@) * k + a,
        final(limbs)@.len() > 0 ==> final(limbs)@.last() != 0,
{
    let ghost start = limbs@;
    let mut carry: u64 = a as u64;
    let mut i: usize = 0;
    assert(start.skip(0) =~= start);
    assert(limbs@.take(0) =~= Seq::<u32>::empty());
    assert(power(0x1_0000_0000, 0) == 1);
    while i < limbs.len()
        invariant
            i <= limbs.len(),
            limbs@.len() == start.len(),
            forall|j: int| i <= j < start.len() ==> #[trigger] limbs@[j] == start[j],
            carry <= 0xffff_ffff,
            k >= 1,
            i > 0 && i == limbs.len() && carry == 0 ==> limbs@.last() != 0,
            start.len() > 0 ==> start.last() != 0,
            limbs_value(limbs@.take(i as int)) + power(0x1_0000_0000, i as nat) * (limbs_value(
                start.skip(i as int),
            ) * k + carry) == limbs_value(start) * k + a,
        decreases limbs.len() - i,
    {
        let ghost pre = limbs@;
        let ghost w = power(0x1_0000_0000, i as nat);
        assert(limbs[i as int] == start[i as int]);
        assert(limbs[i as int] as int * k as int <= 0xffff_ffff * 0xffff_ffff) by (nonlinear_arith)
            requires
                limbs[i as int] <= 0xffff_ffffu32,
                k <= 0xffff_ffffu32,
        ;
        let cur: u64 = limbs[i] as u64 * k as u64 + carry;
        let lo: u64 = cur % 0x1_0000_0000;
        let hi: u64 = cur / 0x1_0000_0000;
        limbs.set(i, lo as u32);
        proof {
            let x = start[i as int] as nat;
            let tail = limbs_value(start.skip(i as int + 1));
            assert(start.skip(i as int).drop_first() =~= start.skip(i as int + 1));
            assert(limbs_value(start.skip(i as int)) == x + 0x1_0000_0000 * tail);
            lemma_limbs_push(pre.take(i as int), lo as u32);
            assert(limbs@.take(i as int + 1) =~= pre.take(i as int).push(lo as u32));
            assert(power(0x1_0000_0000, (i + 1) as nat) == 0x1_0000_0000 * w);
            assert(w * ((x + 0x1_0000_0000 * tail) * k + carry) == w * lo + (0x1_0000_0000 * w) * (
            tail * k + hi)) by (nonlinear_arith)
                requires
                    x * k + carry == lo + 0x1_0000_0000 * hi,
            ;
            if i + 1 == limbs.len() && hi == 0 {
                assert(x != 0);
                assert(lo == x * k + carry);
                assert(lo != 0) by (nonlinear_arith)
                    requires
                        lo == x * k + carry,
                        x >= 1,
                        k >= 1,
                ;
            }
        }
        carry = hi;
        i = i + 1;
    }
    assert(start.skip(i as int) =~= Seq::<u32>::empty());
    assert(limbs@.take(i as int) =~= limbs@);
    let ghost done = limbs@;
    if carry > 0 {
        limbs.push(carry as u32);
        proof {
            lemma_limbs_push(done, carry as u32);
        }
    }
    proof {
        let w = power(0x1_0000_0000, i as nat);
        let rest = limbs_value(start.skip(i as int));
        assert(w * (rest * k + carry) == w * carry && (carry == 0 ==> w * carry == 0))
            by (nonlinear_arith)
            requires
                rest == 0,
        ;
    }
}

/// Replaces the value `v` by `v / k` and returns `v % k`.
fn div_small(limbs: &mut Vec<u32>, k: u32) -> (r: u32)
    requires
        k >= 1,
    ensures
        r < k,
        limbs_value(old(limbs)@) == limbs_value(final(limbs)@) * k + r,
        final(limbs)@.len() > 0 ==> final(limbs)@.last() != 0,
{
    let ghost start = limbs@;
    let mut rem: u64 = 0;
    let mut i: usize = limbs.len();
    assert(start.skip(start.len() as int) =~= Seq::<u32>::empty());
    assert(limbs_value(limbs@.skip(i as int)) * k == 0) by (nonlinear_arith)
        requires
            limbs_value(limbs@.skip(i as int)) == 0,
    ;
    while i > 0
        invariant
            i <= limbs.len(),
            limbs@.len() == start.len(),
            forall|j: int| 0 <= j < i ==> #[trigger] limbs@[j] == start[j],
            rem < k,
            k >= 1,
            limbs_value(start.skip(i as int)) == limbs_value(limbs@.skip(i as int)) * k + rem,
        decreases i,
    {
        i = i - 1;
        let ghost pre = limbs@;
        let cur: u64 = rem * 0x1_0000_0000 + limbs[i] as u64;
        let q: u64 = cur / k as u64;
        let r2: u64 = cur % k as u64;
        assert(q <= 0xffff_ffff && r2 < k && cur == q * k + r2) by (nonlinear_arith)
            requires
                cur == rem * 0x1_0000_0000 + pre[i as int],
                rem <= k - 1,
                pre[i as int] <= 0xffff_ffffu32,
                k >= 1,
                q == cur / (k as u64),
                r2 == cur % (k as u64),
        ;
        limbs.set(i, q as u32);
        proof {
            let lo = limbs_value(start.skip(i as int + 1));
            let lq = limbs_value(pre.skip(i as int + 1));
            assert(start.skip(i as int).drop_first() =~= start.skip(i as int + 1));
            assert(limbs@.skip(i as int).drop_first() =~= pre.skip(i as int + 1));
            assert(start.skip(i as int)[0] == pre[i as int]);
            assert(pre[i as int] + 0x1_0000_0000 * lo == (q + 0x1_0000_0000 * lq) * k + r2)
                by (nonlinear_arith)
                requires
                    lo == lq * k + rem,
                    rem * 0x1_0000_0000 + pre[i as int] == q * k + r2,
            ;
        }
        rem = r2;
    }
    assert(start.skip(0) =~= start);
    assert(limbs@.skip(0) =~= limbs@);
    trim(limbs);
    rem as u32
}

/// A value splits at any limb.
proof fn lemma_limbs_split(m: Seq<u32>, k: int)
    requires
        0 <= k <= m.len(),
    ensures
        limbs_value(m) == limbs_value(m.take(k)) + power(0x1_0000_0000, k as nat) * limbs_value(
            m.skip(k),
        ),
    decreases k,
{
    if k == 0 {
        assert(m.take(0) =~= Seq::<u32>::empty());
        assert(m.skip(0) =~= m);
        assert(power(0x1_0000_0000, 0) == 1);
        assert(1 * limbs_value(m) == limbs_value(m));
    } else {
        let t = m.drop_first();
        lemma_limbs_split(t, k - 1);
        assert(m.take(k).drop_first() =~= t.take(k - 1));
        assert(m.skip(k) =~= t.skip(k - 1));
        let p = power(0x1_0000_0000, (k - 1) as nat);
        let v = limbs_value(m.skip(k));
        assert(0x1_0000_0000 * (p * v) == (0x1_0000_0000 * p) * v) by (nonlinear_arith);
    }
}

/// A limb added at the top counts with its place's weight.
proof fn lemma_limbs_push(m: Seq<u32>, x: u32)
    ensures
        limbs_value(m.push(x)) == limbs_value(m) + power(0x1_0000_0000, m.len()) * x,
{
    lemma_limbs_split(m.push(x), m.len() as int);
    assert(m.push(x).take(m.len() as int) =~= m);
    assert(m.push(x).skip(m.len() as int) =~= seq![x]);
    assert(limbs_value(seq![x]) == x) by {
        reveal_with_fuel(limbs_value, 2);
    }
}

/// A magnitude whose top limb is not zero is not zero.
proof fn lemma_limbs_nonzero(m: Seq<u32>)
    ensures
        m.len() == 0 ==> limbs_value(m) == 0,
        m.len() > 0 && m.last() != 0 ==> limbs_value(m) > 0,
    decreases m.len(),
{
    if m.len() > 1 {
        assert(m.drop_first().last() == m.last());
        lemma_limbs_nonzero(m.drop_first());
    } else if m.len() == 1 {
        assert(m.last() == m[0]);
    }
}

/// Quotient and remainder are determined.
proof fn lemma_div_unique(n: nat, k: nat, q: nat, r: nat)
    requires
        k >= 1,
        r < k,
        n == q * k + r,
    ensures
        q == n / k,
        r == n % k,
{
    vstd::arithmetic::div_mod::lemma_fundamental_div_mod_converse(
        n as int,
        k as int,
        q as int,
        r as int,
    );
}

/// Reading back the digits of a number gives the number.
pub proof fn radix_digits_read_back(n: nat, radix: nat)
    requires
        2 <= radix <= 36,
    ensures
        radix_value(radix_digits(n, radix), radix) == Some(n),
    decreases n,
{
    let s = radix_digits(n, radix);
    if n < radix {
        assert(s.drop_last() =~= Seq::<char>::empty());
        assert(digits_value(s.drop_last(), radix) == 0);
        assert(digit_value(s.last()) == Some(n));
        assert(digits_value(s, radix) == n) by (nonlinear_arith)
            requires
                digits_value(s, radix) == digits_value(s.drop_last(), radix) * radix + n,
                digits_value(s.drop_last(), radix) == 0,
        ;
    } else {
        assert(n / radix < n && n == (n / radix) * radix + n % radix) by (nonlinear_arith)
            requires
                2 <= radix <= n,
        ;
        radix_digits_read_back(n / radix, radix);
        let t = radix_digits(n / radix, radix);
        assert(n % radix < radix) by (nonlinear_arith)
            requires
                2 <= radix,
        ;
        assert(s.drop_last() =~= t);
        assert(digit_value(s.last()) == Some(n % radix));
        assert forall|i: int| 0 <= i < s.len() implies is_digit(#[trigger] s[i], radix) by {
            if i < t.len() {
                assert(s[i] == t[i]);
            }
        }
    }
}

} // verus!
