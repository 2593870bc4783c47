//! Numbers as text: what a text spells, and how a number is written.
use vstd::prelude::*;
use vstd::utf8::encode_utf8;

use crate::bigint::{digit_of, digits_value, is_digit, power, radix_value, JsBigInt};
use crate::number::{
    exponent, magnitude, negative, significand, to_count, truncated, two_to, whole_part, INFINITY,
    NAN,
};
use crate::text::{decimal, decimal_string, from_chars, join, same_text, to_chars};

verus! {

/// White space and line ends.
pub open spec fn is_space(c: char) -> bool {
    ('\u{9}' <= c <= '\u{d}') || c == ' ' || c == '\u{85}' || c == '\u{a0}' || c == '\u{1680}' || (
    '\u{2000}' <= c <= '\u{200a}') || c == '\u{2028}' || c == '\u{2029}' || c == '\u{202f}' || c
        == '\u{205f}' || c == '\u{3000}'
}

/// White space and, if it counts, the mark that a text may begin with.
pub open spec fn is_blank(c: char, mark: bool) -> bool {
    is_space(c) || (mark && c == '\u{feff}')
}

fn space(c: char) -> (r: bool)
    ensures
        r == is_space(c),
{
    ('\u{9}' <= c && c <= '\u{d}') || c == ' ' || c == '\u{85}' || c == '\u{a0}' || c == '\u{1680}'
        || ('\u{2000}' <= c && c <= '\u{200a}') || c == '\u{2028}' || c == '\u{2029}' || c
        == '\u{202f}' || c == '\u{205f}' || c == '\u{3000}'
}

fn blank(c: char, mark: bool) -> (r: bool)
    ensures
        r == is_blank(c, mark),
{
    space(c) || (mark && c == '\u{feff}')
}

/// A text without the blanks in front of it.
pub open spec fn trimmed_front(s: Seq<char>, mark: bool) -> Seq<char>
    decreases s.len(),
{
    if s.len() > 0 && is_blank(s[0], mark) {
        trimmed_front(s.drop_first(), mark)
    } else {
        s
    }
}

/// A text without the blanks behind it.
pub open spec fn trimmed_back(s: Seq<char>, mark: bool) -> Seq<char>
    decreases s.len(),
{
    if s.len() > 0 && is_blank(s.last(), mark) {
        trimmed_back(s.drop_last(), mark)
    } else {
        s
    }
}

/// A text without the blanks around it.
pub open spec fn trimmed(s: Seq<char>, mark: bool) -> Seq<char> {
    trimmed_back(trimmed_front(s, mark), mark)
}

/// A text without the blanks around it.
pub fn trim(s: &str, mark: bool) -> (r: String)
    ensures
        r@ == trimmed(s@, mark),
{
    let chars = to_chars(s);
    let mut from: usize = 0;
    assert(chars@.skip(0) =~= chars@);
    while from < chars.len() && blank(chars[from], mark)
        invariant
            from <= chars.len(),
            trimmed_front(chars@.skip(from as int), mark) == trimmed_front(chars@, mark),
        decreases chars.len() - from,
    {
        assert(chars@.skip(from as int).drop_first() =~= chars@.skip(from as int + 1));
        from = from + 1;
    }
    let ghost front = trimmed_front(chars@, mark);
    assert(front =~= chars@.skip(from as int));
    let mut to: usize = chars.len();
    assert(front =~= chars@.subrange(from as int, to as int));
    while to > from && blank(chars[to - 1], mark)
        invariant
            from <= to <= chars.len(),
            trimmed_back(chars@.subrange(from as int, to as int), mark) == trimmed_back(
                front,
                mark,
            ),
        decreases to - from,
    {
        assert(chars@.subrange(from as int, to as int).drop_last() =~= chars@.subrange(
            from as int,
            to as int - 1,
        ));
        assert(chars@.subrange(from as int, to as int).last() == chars@[to - 1]);
        to = to - 1;
    }
    proof {
        if to > from {
            assert(chars@.subrange(from as int, to as int).last() == chars@[to - 1]);
        }
    }
    from_chars(&chars, from, to)
}

pub open spec fn is_decimal_digit(c: char) -> bool {
    '0' <= c <= '9'
}

fn decimal_digit(c: char) -> (r: bool)
    ensures
        r == is_decimal_digit(c),
{
    '0' <= c && c <= '9'
}

/// How many digits a text begins with.
pub open spec fn digit_run(s: Seq<char>) -> nat
    decreases s.len(),
{
    if s.len() > 0 && is_decimal_digit(s[0]) {
        1 + digit_run(s.drop_first())
    } else {
        0
    }
}

/// A text without a sign in front of it.
pub open spec fn unsigned(s: Seq<char>) -> Seq<char> {
    if s.len() > 0 && (s[0] == '+' || s[0] == '-') {
        s.drop_first()
    } else {
        s
    }
}

/// Whether a text is an exponent, or nothing.
pub open spec fn is_exponent(s: Seq<char>) -> bool {
    s.len() == 0 || ((s[0] == 'e' || s[0] == 'E') && ({
        let d = unsigned(s.drop_first());
        d.len() > 0 && digit_run(d) == d.len()
    }))
}

/// Whether a text is a decimal literal: a sign or none, digits with a point or none, at least one of
/// them, and an exponent or none.
pub open spec fn decimal_literal(s: Seq<char>) -> bool {
    let a = unsigned(s);
    let n = digit_run(a);
    let b = a.skip(n as int);
    if b.len() > 0 && b[0] == '.' {
        let m = digit_run(b.drop_first());
        (n > 0 || m > 0) && is_exponent(b.skip(1 + m as int))
    } else {
        n > 0 && is_exponent(b)
    }
}

proof fn lemma_digit_run(s: Seq<char>)
    ensures
        digit_run(s) <= s.len(),
    decreases s.len(),
{
    if s.len() > 0 && is_decimal_digit(s[0]) {
        lemma_digit_run(s.drop_first());
    }
}

/// The place behind the digits that stand at a place.
fn skip_digits(chars: &Vec<char>, from: usize) -> (r: usize)
    requires
        from <= chars.len(),
    ensures
        from <= r <= chars.len(),
        r - from == digit_run(chars@.skip(from as int)),
{
    let mut i: usize = from;
    while i < chars.len() && decimal_digit(chars[i])
        invariant
            from <= i <= chars.len(),
            digit_run(chars@.skip(from as int)) == (i - from) + digit_run(chars@.skip(i as int)),
        decreases chars.len() - i,
    {
        assert(chars@.skip(i as int).drop_first() =~= chars@.skip(i as int + 1));
        i = i + 1;
    }
    i
}

/// The place behind a sign, if one stands at a place.
fn skip_sign(chars: &Vec<char>, from: usize) -> (r: usize)
    requires
        from <= chars.len(),
    ensures
        from <= r <= chars.len(),
        chars@.skip(r as int) == unsigned(chars@.skip(from as int)),
{
    if from < chars.len() {
        let c: char = chars[from];
        if c == '+' || c == '-' {
            assert(chars@.skip(from as int).drop_first() =~= chars@.skip(from as int + 1));
            return from + 1;
        }
    }
    from
}

/// Whether a text is a decimal literal.
#[verifier::spinoff_prover]
#[verifier::rlimit(40)]
pub fn is_decimal_literal(s: &str) -> (r: bool)
    ensures
        r == decimal_literal(s@),
{
    let chars = to_chars(s);
    assert(chars@.skip(0) =~= s@);
    let start: usize = skip_sign(&chars, 0);
    let mut i: usize = skip_digits(&chars, start);
    let ghost a = unsigned(s@);
    let ghost n = digit_run(a);
    assert(a.skip(n as int) =~= chars@.skip(i as int));
    let mut some = i > start;
    if i < chars.len() && chars[i] == '.' {
        let from: usize = i + 1;
        assert(chars@.skip(i as int).drop_first() =~= chars@.skip(from as int));
        let end: usize = skip_digits(&chars, from);
        some = some || end > from;
        assert(chars@.skip(i as int).skip(1 + (end - from)) =~= chars@.skip(end as int));
        i = end;
    }
    if !some {
        return false;
    }
    if i == chars.len() {
        return true;
    }
    let e: char = chars[i];
    if e != 'e' && e != 'E' {
        return false;
    }
    assert(chars@.skip(i as int).drop_first() =~= chars@.skip(i as int + 1));
    let digits: usize = skip_sign(&chars, i + 1);
    let end: usize = skip_digits(&chars, digits);
    end > digits && end == chars.len()
}

/// What a text spells as a number.
#[derive(Debug)]
pub enum NumberText {
    /// The bits of the number.
    Known(u64),
    /// Digits in a radix.
    Radix(u32, String),
    /// A decimal literal.
    Decimal(String),
}

/// What a [`NumberText`] holds.
pub enum NumberTextView {
    Known(u64),
    Radix(u32, Seq<char>),
    Decimal(Seq<char>),
}

impl View for NumberText {
    type V = NumberTextView;

    open spec fn view(&self) -> NumberTextView {
        match self {
            NumberText::Known(n) => NumberTextView::Known(*n),
            NumberText::Radix(r, s) => NumberTextView::Radix(*r, s@),
            NumberText::Decimal(s) => NumberTextView::Decimal(s@),
        }
    }
}

/// The radix that a prefix names.
pub open spec fn prefix_radix(s: Seq<char>) -> Option<u32> {
    if s.len() >= 2 && s[0] == '0' {
        if s[1] == 'x' || s[1] == 'X' {
            Some(16)
        } else if s[1] == 'o' || s[1] == 'O' {
            Some(8)
        } else if s[1] == 'b' || s[1] == 'B' {
            Some(2)
        } else {
            None
        }
    } else {
        None
    }
}

/// What a text spells as a number: nothing but blanks is zero.
pub open spec fn spelled_number(s: Seq<char>) -> NumberTextView {
    let t = trimmed(s, true);
    if t.len() == 0 {
        NumberTextView::Known(0)
    } else if t == "Infinity"@ || t == "+Infinity"@ {
        NumberTextView::Known(INFINITY)
    } else if t == "-Infinity"@ {
        NumberTextView::Known(0xfff0_0000_0000_0000)
    } else {
        match prefix_radix(t) {
            Some(radix) => if radix_value(t.skip(2), radix as nat) is Some {
                NumberTextView::Radix(radix, t.skip(2))
            } else {
                NumberTextView::Known(NAN)
            },
            None => if decimal_literal(t) {
                NumberTextView::Decimal(t)
            } else {
                NumberTextView::Known(NAN)
            },
        }
    }
}

/// The radix that a prefix names, and the text behind it.
fn split_radix(t: &str) -> (r: Option<(u32, String)>)
    ensures
        match r {
            Some((radix, rest)) => prefix_radix(t@) == Some(radix) && rest@ == t@.skip(2),
            None => prefix_radix(t@) is None,
        },
{
    let chars = to_chars(t);
    if chars.len() < 2 {
        return None;
    }
    let zero: char = chars[0];
    let mark: char = chars[1];
    if zero != '0' {
        return None;
    }
    let radix: u32 = if mark == 'x' || mark == 'X' {
        16
    } else if mark == 'o' || mark == 'O' {
        8
    } else if mark == 'b' || mark == 'B' {
        2
    } else {
        return None;
    };
    let rest = from_chars(&chars, 2, chars.len());
    assert(chars@.subrange(2, chars@.len() as int) =~= t@.skip(2));
    Some((radix, rest))
}

/// What a text spells as a number.
pub fn parse_number(s: &str) -> (r: NumberText)
    ensures
        r@ == spelled_number(s@),
{
    let t = trim(s, true);
    let text = t.as_str();
    if text.unicode_len() == 0 {
        return NumberText::Known(0);
    }
    if same_text(text, "Infinity") || same_text(text, "+Infinity") {
        return NumberText::Known(INFINITY);
    }
    if same_text(text, "-Infinity") {
        return NumberText::Known(0xfff0_0000_0000_0000);
    }
    match split_radix(text) {
        Some((radix, digits)) => match JsBigInt::parse_radix(digits.as_str(), radix) {
            Some(_) => NumberText::Radix(radix, digits),
            None => NumberText::Known(NAN),
        },
        None => if is_decimal_literal(text) {
            NumberText::Decimal(t)
        } else {
            NumberText::Known(NAN)
        },
    }
}

/// The integer that a text spells.
pub open spec fn spelled_integer(s: Seq<char>) -> Option<int> {
    let t = trimmed(s, true);
    if t.len() == 0 {
        Some(0)
    } else {
        match prefix_radix(t) {
            Some(radix) => match radix_value(t.skip(2), radix as nat) {
                Some(n) => Some(n as int),
                None => None,
            },
            None => match radix_value(unsigned(t), 10) {
                Some(n) => Some(
                    if t[0] == '-' {
                        -(n as int)
                    } else {
                        n as int
                    },
                ),
                None => None,
            },
        }
    }
}

/// The integer that a text spells.
pub fn string_to_bigint(s: &str) -> (r: Option<JsBigInt>)
    ensures
        match r {
            Some(n) => spelled_integer(s@) == Some(n@),
            None => spelled_integer(s@) is None,
        },
{
    let t = trim(s, true);
    let chars = to_chars(t.as_str());
    if chars.len() == 0 {
        return Some(JsBigInt::zero());
    }
    match split_radix(t.as_str()) {
        Some((radix, digits)) => JsBigInt::parse_radix(digits.as_str(), radix),
        None => {
            assert(chars@.skip(0) =~= t@);
            let from: usize = skip_sign(&chars, 0);
            let digits = from_chars(&chars, from, chars.len());
            assert(digits@ =~= unsigned(t@));
            let first: char = chars[0];
            match JsBigInt::parse_dec(digits.as_str()) {
                Some(v) => if first == '-' {
                    Some(v.neg())
                } else {
                    Some(v)
                },
                None => None,
            }
        },
    }
}

/// A text up to a character.
pub open spec fn up_to(s: Seq<char>, c: char) -> Seq<char>
    decreases s.len(),
{
    if s.len() == 0 || s[0] == c {
        Seq::empty()
    } else {
        seq![s[0]] + up_to(s.drop_first(), c)
    }
}

/// The spelling of a private name: its key up to the mark that tells class evaluations apart.
pub fn private_display(key: &str) -> (r: String)
    ensures
        r@ == up_to(key@, '\u{1}'),
{
    let chars = to_chars(key);
    let mut i: usize = 0;
    assert(chars@.skip(0) =~= key@);
    while i < chars.len() && chars[i] != '\u{1}'
        invariant
            i <= chars.len(),
            chars@ == key@,
            key@.take(i as int) + up_to(key@.skip(i as int), '\u{1}') =~= up_to(key@, '\u{1}'),
        decreases chars.len() - i,
    {
        assert(key@.skip(i as int).drop_first() =~= key@.skip(i as int + 1));
        assert(key@.take(i as int + 1) =~= key@.take(i as int).push(key@[i as int]));
        i = i + 1;
    }
    assert(up_to(key@.skip(i as int), '\u{1}') =~= Seq::empty());
    assert(key@.take(i as int) =~= key@.subrange(0, i as int));
    from_chars(&chars, 0, i)
}

// ---- numbers as text

/// So many zeros.
pub open spec fn zeros(n: nat) -> Seq<char> {
    Seq::new(n, |i: int| '0')
}

fn zero_string(n: u64) -> (r: String)
    ensures
        r@ == zeros(n as nat),
{
    let mut out = String::new();
    let mut i: u64 = 0;
    while i < n
        invariant
            i <= n,
            out@ =~= zeros(i as nat),
        decreases n - i,
    {
        out.push('0');
        i = i + 1;
    }
    out
}

/// The text of a positive number whose digits are given, with the point behind the first `point` of
/// them: written out up to 21 digits in front of the point and 6 zeros behind it, else with an exponent.
pub open spec fn placed(digits: Seq<char>, point: int) -> Seq<char> {
    let k = digits.len() as int;
    if k <= point <= 21 {
        digits + zeros((point - k) as nat)
    } else if 0 < point <= 21 {
        digits.take(point) + seq!['.'] + digits.skip(point)
    } else if -6 < point <= 0 {
        "0."@ + zeros((-point) as nat) + digits
    } else {
        let e = point - 1;
        (if k == 1 {
            digits
        } else {
            digits.take(1) + seq!['.'] + digits.skip(1)
        }) + (if e >= 0 {
            "e+"@
        } else {
            "e-"@
        }) + decimal(
            (if e >= 0 {
                e
            } else {
                -e
            }) as nat,
        )
    }
}

/// Writes a positive number from its digits and the place of its point.
pub fn place_point(digits: &str, point: i64) -> (r: String)
    requires
        digits@.len() >= 1,
        digits@.len() <= i64::MAX,
        i64::MIN + 1 < point,
    ensures
        r@ == placed(digits@, point as int),
{
    let chars = to_chars(digits);
    let k: i64 = chars.len() as i64;
    if k <= point && point <= 21 {
        let z = zero_string((point - k) as u64);
        return join(digits, z.as_str());
    }
    if 0 < point && point <= 21 {
        let front = from_chars(&chars, 0, point as usize);
        let back = from_chars(&chars, point as usize, chars.len());
        let a = join(front.as_str(), ".");
        proof {
            reveal_strlit(".");
            assert("."@ =~= seq!['.']);
            assert(front@ =~= digits@.take(point as int));
            assert(back@ =~= digits@.skip(point as int));
        }
        return join(a.as_str(), back.as_str());
    }
    if -6 < point && point <= 0 {
        let z = zero_string((-point) as u64);
        let a = join("0.", z.as_str());
        return join(a.as_str(), digits);
    }
    let e: i64 = point - 1;
    let mantissa = if k == 1 {
        digits.to_owned()
    } else {
        let front = from_chars(&chars, 0, 1);
        let back = from_chars(&chars, 1, chars.len());
        let a = join(front.as_str(), ".");
        proof {
            reveal_strlit(".");
            assert("."@ =~= seq!['.']);
            assert(front@ =~= digits@.take(1));
            assert(back@ =~= digits@.skip(1));
        }
        join(a.as_str(), back.as_str())
    };
    let mark = if e >= 0 {
        "e+"
    } else {
        "e-"
    };
    let size: u64 = if e >= 0 {
        e as u64
    } else {
        (-e) as u64
    };
    let a = join(mantissa.as_str(), mark);
    let d = decimal_string(size);
    join(a.as_str(), d.as_str())
}

/// Whether a double that is a number has no fraction.
pub open spec fn is_whole(bits: u64) -> bool {
    let e = exponent(bits);
    if e < 1023 {
        magnitude(bits) == 0
    } else if e >= 1075 {
        true
    } else {
        significand(bits) % power(2, (1075 - e) as nat) == 0
    }
}

fn whole(bits: u64) -> (r: bool)
    ensures
        r == is_whole(bits),
{
    let e: u64 = bits / 0x10_0000_0000_0000 % 2048;
    let m: u64 = bits % 0x10_0000_0000_0000 + 0x10_0000_0000_0000;
    if e < 1023 {
        bits % 0x8000_0000_0000_0000 == 0
    } else if e >= 1075 {
        true
    } else {
        let p: u64 = two_to(1075 - e);
        m % p == 0
    }
}

/// The text of a number: whole numbers up to 2^53 in full; of the others the shortest digits that spell
/// them and the place of the point are given.
pub open spec fn number_text(bits: u64, digits: Seq<char>, point: int) -> Seq<char> {
    let sign = if negative(bits) {
        "-"@
    } else {
        ""@
    };
    if magnitude(bits) <= 0x4340_0000_0000_0000 && is_whole(bits) {
        if truncated(bits) < 0 {
            "-"@ + decimal(whole_part(bits))
        } else {
            decimal(whole_part(bits))
        }
    } else if magnitude(bits) > INFINITY {
        "NaN"@
    } else if magnitude(bits) == INFINITY {
        sign + "Infinity"@
    } else {
        sign + placed(digits, point)
    }
}

/// Whether the digits of a number are not plain from its bits: it has a fraction or is beyond 2^53.
pub open spec fn needs_digits(bits: u64) -> bool {
    !(magnitude(bits) <= 0x4340_0000_0000_0000 && is_whole(bits)) && magnitude(bits) < INFINITY
}

/// Whether the digits of a number are not plain from its bits.
pub fn wants_digits(bits: u64) -> (r: bool)
    ensures
        r == needs_digits(bits),
{
    let low: u64 = bits % 0x8000_0000_0000_0000;
    !(low <= 0x4340_0000_0000_0000 && whole(bits)) && low < INFINITY
}

/// The text of a number.
pub fn num_to_str(bits: u64, digits: &str, point: i64) -> (r: String)
    requires
        digits@.len() >= 1,
        digits@.len() <= i64::MAX,
        i64::MIN + 1 < point,
    ensures
        r@ == number_text(bits, digits@, point as int),
{
    let low: u64 = bits % 0x8000_0000_0000_0000;
    let minus = bits >= 0x8000_0000_0000_0000;
    proof {
        reveal_strlit("");
        assert forall|s: Seq<char>| #[trigger] (""@ + s) == s by {
            assert(""@ + s =~= s);
        }
    }
    if low <= 0x4340_0000_0000_0000 && whole(bits) {
        proof {
            assert(exponent(low) == exponent(bits));
            assert(significand(low) == significand(bits));
            assert(whole_part(low) == whole_part(bits));
            lemma_small_whole(low);
        }
        let n: u64 = to_count(low);
        let text = decimal_string(n);
        return if minus && n > 0 {
            join("-", text.as_str())
        } else {
            text
        };
    }
    if low > INFINITY {
        return "NaN".to_owned();
    }
    let body = if low == INFINITY {
        "Infinity".to_owned()
    } else {
        place_point(digits, point)
    };
    if minus {
        join("-", body.as_str())
    } else {
        body
    }
}

proof fn lemma_small_whole(low: u64)
    requires
        low <= 0x4340_0000_0000_0000,
    ensures
        whole_part(low) <= u64::MAX,
{
    let e = exponent(low);
    assert(e <= 1076);
    if e >= 1075 {
        let p = power(2, (e - 1075) as nat);
        assert(p <= 2) by {
            reveal_with_fuel(power, 2);
        }
        assert(significand(low) * p <= 0x40_0000_0000_0000) by (nonlinear_arith)
            requires
                significand(low) <= 0x20_0000_0000_0000,
                p <= 2,
        ;
    } else if e >= 1023 {
        let p = power(2, (1075 - e) as nat);
        crate::number::lemma_power2_mono(0, (1075 - e) as nat);
        assert(significand(low) / p <= significand(low)) by (nonlinear_arith)
            requires
                p >= 1,
        ;
    }
}

/// What the remainder of two doubles is where no division is needed.
pub open spec fn easy_remainder(a: u64, b: u64) -> Option<u64> {
    if magnitude(b) == 0 || magnitude(a) >= INFINITY || magnitude(b) > INFINITY {
        Some(NAN)
    } else if magnitude(b) == INFINITY || magnitude(a) == 0 {
        Some(a)
    } else {
        None
    }
}

/// The remainder of two doubles where no division is needed; else none.
pub fn js_mod(a: u64, b: u64) -> (r: Option<u64>)
    ensures
        r == easy_remainder(a, b),
{
    let x: u64 = a % 0x8000_0000_0000_0000;
    let y: u64 = b % 0x8000_0000_0000_0000;
    if y == 0 || x >= INFINITY || y > INFINITY {
        Some(NAN)
    } else if y == INFINITY || x == 0 {
        Some(a)
    } else {
        None
    }
}

/// The digits of a mantissa, without its point.
pub open spec fn mantissa_digits(s: Seq<char>) -> Seq<char>
    decreases s.len(),
{
    if s.len() == 0 {
        Seq::empty()
    } else if s.last() == '.' {
        mantissa_digits(s.drop_last())
    } else {
        mantissa_digits(s.drop_last()).push(s.last())
    }
}

/// A text without the zeros behind it.
pub open spec fn without_zeros(s: Seq<char>) -> Seq<char>
    decreases s.len(),
{
    if s.len() > 0 && s.last() == '0' {
        without_zeros(s.drop_last())
    } else {
        s
    }
}

/// The significant digits of a mantissa.
pub open spec fn significant(s: Seq<char>) -> Seq<char> {
    let d = without_zeros(mantissa_digits(s));
    if d.len() == 0 {
        "0"@
    } else {
        d
    }
}

/// The significant digits of a mantissa: those that are not zeros at its end.
pub fn significant_digits(mantissa: &str) -> (r: String)
    ensures
        r@ == significant(mantissa@),
        r@.len() >= 1,
{
    let chars = to_chars(mantissa);
    let mut digits: Vec<char> = Vec::new();
    let mut i: usize = 0;
    assert(chars@.take(0) =~= Seq::empty());
    while i < chars.len()
        invariant
            i <= chars.len(),
            digits@ == mantissa_digits(chars@.take(i as int)),
        decreases chars.len() - i,
    {
        assert(chars@.take(i as int + 1).drop_last() =~= chars@.take(i as int));
        if chars[i] != '.' {
            digits.push(chars[i]);
        }
        i = i + 1;
    }
    assert(chars@.take(i as int) =~= mantissa@);
    let mut end: usize = digits.len();
    assert(digits@.take(end as int) =~= digits@);
    while end > 0 && digits[end - 1] == '0'
        invariant
            end <= digits.len(),
            without_zeros(digits@.take(end as int)) == without_zeros(digits@),
        decreases end,
    {
        assert(digits@.take(end as int).drop_last() =~= digits@.take(end as int - 1));
        end = end - 1;
    }
    assert(without_zeros(digits@) =~= digits@.take(end as int));
    if end == 0 {
        proof {
            reveal_strlit("0");
        }
        return "0".to_owned();
    }
    assert(digits@.take(end as int) =~= digits@.subrange(0, end as int));
    from_chars(&digits, 0, end)
}

/// The number that a text spells, with or without a plus sign.
pub open spec fn place_value(s: Seq<char>) -> Option<u64> {
    let d = if s.len() > 0 && s[0] == '+' {
        s.drop_first()
    } else {
        s
    };
    match radix_value(d, 10) {
        Some(n) => if n <= u64::MAX {
            Some(n as u64)
        } else {
            None
        },
        None => None,
    }
}

proof fn lemma_digits_grow(k: Seq<char>, i: int)
    requires
        0 <= i <= k.len(),
    ensures
        digits_value(k.take(i), 10) <= digits_value(k, 10),
    decreases k.len(),
{
    if i < k.len() {
        lemma_digits_grow(k.drop_last(), i);
        assert(k.drop_last().take(i) =~= k.take(i));
    } else {
        assert(k.take(i) =~= k);
    }
}

/// The number that a text spells, with or without a plus sign.
pub fn parse_place(s: &str) -> (r: Option<u64>)
    ensures
        r == place_value(s@),
{
    let chars = to_chars(s);
    let from: usize = if chars.len() > 0 && chars[0] == '+' {
        1
    } else {
        0
    };
    let ghost d = chars@.skip(from as int);
    assert(from == 0 ==> d =~= s@);
    assert(from == 1 ==> d =~= s@.drop_first());
    if from >= chars.len() {
        return None;
    }
    let mut n: u64 = 0;
    let mut i: usize = from;
    assert(d.take(0) =~= Seq::<char>::empty());
    while i < chars.len()
        invariant
            from <= i <= chars.len(),
            d == chars@.skip(from as int),
            n == digits_value(d.take(i - from), 10),
            forall|j: int| 0 <= j < i - from ==> is_digit(#[trigger] d[j], 10),
            place_value(s@) == (match radix_value(d, 10) {
                Some(n) => if n <= u64::MAX {
                    Some(n as u64)
                } else {
                    None
                },
                None => None,
            }),
        decreases chars.len() - i,
    {
        proof {
            let k = i - from;
            assert(d.take(k + 1).drop_last() =~= d.take(k));
            assert(d.take(k + 1).last() == d[k]);
            assert(d[k] == chars@[i as int]);
            lemma_digits_grow(d, k + 1);
        }
        match digit_of(chars[i]) {
            Some(v) => {
                if v >= 10 {
                    assert(!is_digit(d[i - from], 10));
                    return None;
                }
                if n > (u64::MAX - v as u64) / 10 {
                    return None;
                }
                n = n * 10 + v as u64;
            },
            None => {
                assert(!is_digit(d[i - from], 10));
                return None;
            },
        }
        i = i + 1;
    }
    assert(d.take(d.len() as int) =~= d);
    Some(n)
}

/// Whether a key is one that a string of some units has by itself: its length, or the place of a unit in
/// decimal, without a sign or zeros in front.
pub open spec fn unit_key(length: u64, key: Seq<char>) -> bool {
    key == "length"@ || (match place_value(key) {
        Some(i) => key[0] != '+' && (key.len() == 1 || key[0] != '0') && i < length,
        None => false,
    })
}

/// Whether a key is one that a string of some units has by itself.
pub fn string_own_key(length: u64, key: &str) -> (r: bool)
    ensures
        r == unit_key(length, key@),
{
    if same_text(key, "length") {
        return true;
    }
    match parse_place(key) {
        Some(i) => {
            let chars = to_chars(key);
            chars[0] != '+' && (chars.len() == 1 || chars[0] != '0') && i < length
        },
        None => false,
    }
}

} // verus!
