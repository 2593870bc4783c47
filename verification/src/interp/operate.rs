//! Conversions, operators and the iteration protocol.
use vstd::prelude::*;

use crate::bigint::{order_of, radix_text, JsBigInt};
use crate::grammar::Symbol;
use crate::interp::object::{js_has_property, js_has_property_step};
use crate::interp::session::{
    asks, asks_flag, asks_handle, asks_prop, asks_relation, digits_of, next, Abrupt, Answer,
    Answers, Completion, ErrorKind, Host, Key, Request, Session, Step, Subject, Value, WellKnown,
    World,
};
use crate::literal::{
    easy_remainder, js_mod, needs_digits, num_to_str, number_text, parse_number, private_display,
    spelled_integer, spelled_number, string_to_bigint, up_to, wants_digits, NumberText,
    NumberTextView,
};
use crate::modules::progress::{bump, bumped};
use crate::number::{
    double_of, from_int, int32_of, is_truthy, negate, negated, number_relation, relate,
    same_number, to_int32, truthy, NAN, ONE, Relation,
};
use crate::scan::{callee_text, describe_callee};
use crate::text::{from_chars, join, same_text, to_chars};
use crate::units::{relate_units, text_units, units_relation};
use crate::value::props::Property;

verus! {

/// How many values an iterator may give for one list: as many as the longest array has.
pub const MAX_ARRAY_OP_LEN: u64 = 0xffff_ffff;

/// How many bytes of UTF-8 the text of a string may take.
pub const MAX_STR_LEN: u64 = 0x1fff_ffe8;

/// What a primitive is wanted for.
#[derive(Clone, Copy, PartialEq, Eq, Structural, Debug)]
pub enum Hint {
    Default,
    Number,
    String,
}

/// A new error.
pub open spec fn make_error_step<'a>(kind: ErrorKind, message: &'static str, w: World<'a>) -> Step<
    'a,
    Value,
> {
    asks(Request::MakeError { kind, message: w.next_text() }, w.add_text(message@))
}

/// A new error.
pub fn make_error<'h, 'a, H: Host<'a>>(
    s: &mut Session<'h, 'a, H>,
    kind: ErrorKind,
    message: &'static str,
) -> (out: Completion<'a>)
    ensures
        final(s).continues(*old(s)),
        forall|answers: Answers| #[trigger]
            final(s).agrees(answers) ==> old(s).agrees(answers) && (out, final(s).world(answers))
                == make_error_step(kind, message, old(s).world(answers)),
{
    let message = s.add_text(message.to_owned());
    s.value(Request::MakeError { kind, message })
}

/// Throwing a new error.
pub open spec fn throws<'a, T>(kind: ErrorKind, message: &'static str, w: World<'a>) -> Step<'a, T> {
    next(
        make_error_step(kind, message, w),
        |e: Value, w: World<'a>| (Err(Abrupt::Throw(e)), w),
    )
}

/// Throwing a new error whose message speaks of something, between two texts.
pub open spec fn throws_about<'a, T>(
    kind: ErrorKind,
    before: &'static str,
    after: &'static str,
    subject: Subject<'a>,
    w: World<'a>,
) -> Step<'a, T> {
    next(
        subject_text_step(subject, w),
        |t: Value, w: World<'a>|
            next(
                asks(
                    Request::MakeError { kind, message: w.next_text() },
                    w.add_text(before@ + w.chars(t) + after@),
                ),
                |e: Value, w: World<'a>| (Err(Abrupt::Throw(e)), w),
            ),
    )
}

/// Throws a new error.
pub fn throw<'h, 'a, H: Host<'a>, T>(
    s: &mut Session<'h, 'a, H>,
    kind: ErrorKind,
    message: &'static str,
) -> (r: Result<T, Abrupt<'a>>)
    ensures
        final(s).continues(*old(s)),
        forall|answers: Answers| #[trigger]
            final(s).agrees(answers) ==> old(s).agrees(answers) && (r, final(s).world(answers))
                == throws::<T>(kind, message, old(s).world(answers)),
{
    let e = make_error(s, kind, message)?;
    Err(Abrupt::Throw(e))
}

/// Throws a new error whose message speaks of something, between two texts.
pub fn throw_about<'h, 'a, H: Host<'a>, T>(
    s: &mut Session<'h, 'a, H>,
    kind: ErrorKind,
    before: &'static str,
    after: &'static str,
    subject: Subject<'a>,
) -> (r: Result<T, Abrupt<'a>>)
    ensures
        final(s).continues(*old(s)),
        forall|answers: Answers| #[trigger]
            final(s).agrees(answers) ==> old(s).agrees(answers) && (r, final(s).world(answers))
                == throws_about::<T>(kind, before, after, subject, old(s).world(answers)),
{
    let t: Value = subject_text(s, subject)?;
    let first = join(before, s.chars(t));
    let message = s.add_text(join(first.as_str(), after));
    let e = s.value(Request::MakeError { kind, message })?;
    Err(Abrupt::Throw(e))
}

/// The key that a symbol or a string is.
pub open spec fn value_key<'a>(v: Value) -> Key<'a> {
    match v {
        Value::Str(at) => Key::Made(at),
        Value::Sym(h) => Key::Symbol(h),
        _ => Key::Fixed(""),
    }
}

/// The key that a symbol or a string is.
pub fn key_of_value<'a>(v: Value) -> (r: Key<'a>)
    ensures
        r == value_key::<'a>(v),
{
    match v {
        Value::Str(at) => Key::Made(at),
        Value::Sym(h) => Key::Symbol(h),
        _ => Key::Fixed(""),
    }
}

/// A text in brackets.
fn bracketed(text: &str) -> (r: String)
    ensures
        r@ == "["@ + text@ + "]"@,
{
    let t = join("[", text);
    join(t.as_str(), "]")
}

/// The character at a place, as a text.
pub open spec fn char_at(s: Seq<char>, n: u64) -> Option<Seq<char>> {
    if n < s.len() {
        Some(seq![s[n as int]])
    } else {
        None
    }
}

/// The character at a place, as a text.
pub fn char_text(text: &str, n: u64) -> (r: Option<String>)
    ensures
        match r {
            Some(t) => char_at(text@, n) == Some(t@),
            None => char_at(text@, n) is None,
        },
{
    let chars = to_chars(text);
    if n < chars.len() as u64 {
        let i: usize = n as usize;
        let t = from_chars(&chars, i, i + 1);
        assert(t@ =~= seq![text@[n as int]]);
        Some(t)
    } else {
        None
    }
}

/// The bytes that a text takes in UTF-8.
pub open spec fn byte_length(s: Seq<char>) -> nat
    decreases s.len(),
{
    if s.len() == 0 {
        0
    } else {
        byte_length(s.drop_last()) + char_bytes(s.last())
    }
}

/// The bytes that a character takes in UTF-8.
pub open spec fn char_bytes(c: char) -> nat {
    if 0x80 > (c as u32) {
        1
    } else if 0x800 > (c as u32) {
        2
    } else if 0x1_0000 > (c as u32) {
        3
    } else {
        4
    }
}

/// The bytes that a text takes, up to a number beyond the longest text.
fn count_bytes(text: &str) -> (r: u64)
    ensures
        byte_length(text@) <= MAX_STR_LEN ==> r == byte_length(text@),
        byte_length(text@) > MAX_STR_LEN ==> r == MAX_STR_LEN + 1,
{
    let chars = to_chars(text);
    let mut n: u64 = 0;
    let mut i: usize = 0;
    while i < chars.len()
        invariant
            i <= chars.len(),
            chars@ == text@,
            n == byte_length(text@.take(i as int)),
            n <= MAX_STR_LEN,
        decreases chars.len() - i,
    {
        let c: char = chars[i];
        let size: u64 = if 0x80 > (c as u32) {
            1
        } else if 0x800 > (c as u32) {
            2
        } else if 0x1_0000 > (c as u32) {
            3
        } else {
            4
        };
        assert(text@.take(i + 1).drop_last() =~= text@.take(i as int));
        n = n + size;
        i = i + 1;
        if n > MAX_STR_LEN {
            proof {
                lemma_bytes_grow(text@, i as int);
            }
            return MAX_STR_LEN + 1;
        }
    }
    assert(text@.take(i as int) =~= text@);
    n
}

proof fn lemma_bytes_grow(s: Seq<char>, i: int)
    requires
        0 <= i <= s.len(),
    ensures
        byte_length(s.take(i)) <= byte_length(s),
    decreases s.len(),
{
    if i < s.len() {
        lemma_bytes_grow(s.drop_last(), i);
        assert(s.drop_last().take(i) =~= s.take(i));
    } else {
        assert(s.take(i) =~= s);
    }
}

/// Whether two texts together are longer than a string can be.
fn too_long(a: &str, b: &str) -> (r: bool)
    ensures
        r == (byte_length(a@) + byte_length(b@) > MAX_STR_LEN),
{
    count_bytes(a) + count_bytes(b) > MAX_STR_LEN
}

/// The text of a number. Where its digits are not plain from its bits, the host gives the shortest ones.
pub open spec fn number_to_text_step<'a>(n: u64, w: World<'a>) -> Step<'a, Value> {
    if needs_digits(n) {
        let (a, w) = w.ask(Request::Digits(n));
        let (digits, point) = digits_of(a);
        (Ok(w.next_text()), w.add_text(number_text(n, digits, point)))
    } else {
        (Ok(w.next_text()), w.add_text(number_text(n, "0"@, 1)))
    }
}

/// The text of a number.
pub fn number_to_text<'h, 'a, H: Host<'a>>(s: &mut Session<'h, 'a, H>, n: u64) -> (out: Completion<
    'a,
>)
    ensures
        final(s).continues(*old(s)),
        forall|answers: Answers| #[trigger]
            final(s).agrees(answers) ==> old(s).agrees(answers) && (out, final(s).world(answers))
                == number_to_text_step(n, old(s).world(answers)),
{
    proof {
        reveal_strlit("0");
    }
    if wants_digits(n) {
        match s.ask(Request::Digits(n)) {
            Answer::Digits { digits, point } => {
                let size: usize = digits.as_str().unicode_len();
                if size >= 1 && size as u64 <= 0x7fff_ffff_ffff_ffff && point > i64::MIN + 1 {
                    let t = num_to_str(n, digits.as_str(), point);
                    return Ok(s.add_text(t));
                }
            },
            _ => {},
        }
        let t = num_to_str(n, "0", 1);
        Ok(s.add_text(t))
    } else {
        let t = num_to_str(n, "0", 1);
        Ok(s.add_text(t))
    }
}

/// Whether two integers are the same.
fn same_integer(a: JsBigInt, b: JsBigInt) -> (r: bool)
    ensures
        r == (a@ == b@),
{
    a.relate(&b) == Relation::Equal
}

/// How an integer compares with the one that a text spells; a text that spells none has no order.
pub open spec fn relation_to_text(n: int, text: Seq<char>) -> Relation {
    match spelled_integer(text) {
        Some(i) => order_of(n, i),
        None => Relation::Unordered,
    }
}

fn text_relation(n: JsBigInt, text: &str) -> (r: Relation)
    ensures
        r == relation_to_text(n@, text@),
{
    match string_to_bigint(text) {
        Some(i) => n.relate(&i),
        None => Relation::Unordered,
    }
}

/// How two things compare the other way round.
pub open spec fn turned_round(r: Relation) -> Relation {
    match r {
        Relation::Less => Relation::Greater,
        Relation::Greater => Relation::Less,
        _ => r,
    }
}

fn turn_round(r: Relation) -> (out: Relation)
    ensures
        out == turned_round(r),
{
    match r {
        Relation::Less => Relation::Greater,
        Relation::Greater => Relation::Less,
        _ => r,
    }
}

/// The absolute value of an integer, or the greatest 64-bit number where that is less.
pub open spec fn magnitude_of(n: int) -> u64 {
    let m = if n < 0 {
        -n
    } else {
        n
    };
    if m > u64::MAX {
        u64::MAX
    } else {
        m as u64
    }
}

/// Whether a comparison operator holds of two things that compare so.
pub open spec fn holds(op: Seq<char>, r: Relation) -> bool {
    if op == "<"@ {
        r == Relation::Less
    } else if op == ">"@ {
        r == Relation::Greater
    } else if op == "<="@ {
        r == Relation::Less || r == Relation::Equal
    } else {
        r == Relation::Greater || r == Relation::Equal
    }
}

fn relation_holds(op: &str, r: Relation) -> (b: bool)
    ensures
        b == holds(op@, r),
{
    if same_text(op, "<") {
        r == Relation::Less
    } else if same_text(op, ">") {
        r == Relation::Greater
    } else if same_text(op, "<=") {
        r == Relation::Less || r == Relation::Equal
    } else {
        r == Relation::Greater || r == Relation::Equal
    }
}

/// The operators that are computed on 32-bit integers.
pub open spec fn bitwise(op: Seq<char>) -> bool {
    op == "&"@ || op == "|"@ || op == "^"@ || op == "<<"@ || op == ">>"@ || op == ">>>"@
}

/// The operators other than `+` that make both operands numeric.
pub open spec fn arithmetic(op: Seq<char>) -> bool {
    op == "-"@ || op == "*"@ || op == "/"@ || op == "%"@ || op == "**"@ || bitwise(op)
}

fn is_bitwise(op: &str) -> (b: bool)
    ensures
        b == bitwise(op@),
{
    same_text(op, "&") || same_text(op, "|") || same_text(op, "^") || same_text(op, "<<")
        || same_text(op, ">>") || same_text(op, ">>>")
}

fn is_arithmetic(op: &str) -> (b: bool)
    ensures
        b == arithmetic(op@),
{
    same_text(op, "-") || same_text(op, "*") || same_text(op, "/") || same_text(op, "%")
        || same_text(op, "**") || is_bitwise(op)
}

/// A bitwise operator on two doubles: on their 32-bit integers, with the shift count taken modulo
/// 32; `>>>` alone reads its left side as unsigned.
pub open spec fn bitwise_result(op: Seq<char>, a: u64, b: u64) -> u64 {
    let x = int32_of(a) as i32;
    let y = int32_of(b) as i32;
    let count = ((y as u32) & 31) as u32;
    if op == "&"@ {
        double_of((x & y) as int)
    } else if op == "|"@ {
        double_of((x | y) as int)
    } else if op == "^"@ {
        double_of((x ^ y) as int)
    } else if op == "<<"@ {
        double_of(((x as u32) << count) as i32 as int)
    } else if op == ">>"@ {
        double_of((x >> count) as int)
    } else {
        double_of(((x as u32) >> count) as int)
    }
}

/// A bitwise operator on two doubles.
pub fn bitwise_operate(op: &str, a: u64, b: u64) -> (r: u64)
    ensures
        r == bitwise_result(op@, a, b),
{
    let x: i32 = to_int32(a);
    let y: i32 = to_int32(b);
    let count: u32 = (y as u32) & 31;
    assert(count < 32) by (bit_vector)
        requires
            count == (y as u32) & 31,
    ;
    if same_text(op, "&") {
        from_int((x & y) as i64)
    } else if same_text(op, "|") {
        from_int((x | y) as i64)
    } else if same_text(op, "^") {
        from_int((x ^ y) as i64)
    } else if same_text(op, "<<") {
        from_int(((x as u32) << count) as i32 as i64)
    } else if same_text(op, ">>") {
        from_int((x >> count) as i64)
    } else {
        from_int(((x as u32) >> count) as i64)
    }
}

/// `~` on a double.
pub open spec fn complemented(n: u64) -> u64 {
    double_of(-int32_of(n) - 1)
}

/// `~` on a double.
pub fn complement(n: u64) -> (r: u64)
    ensures
        r == complemented(n),
{
    from_int(-(to_int32(n) as i64) - 1)
}

/// ToInt32 of a double.
fn number_to_int32(n: u64) -> (r: i32)
    ensures
        r == int32_of(n) as i32,
{
    to_int32(n)
}

/// ToBoolean: whether a value counts as true.
pub open spec fn to_boolean_step<'a>(v: Value, w: World<'a>) -> Step<'a, bool>
{
    match v {
        Value::Undefined | Value::Empty | Value::Null => (Ok(false), w),
        Value::Bool(b) => (Ok(b), w),
        Value::Num(n) => (Ok(truthy(n)), w),
        Value::Sym(_) => (Ok(true), w),
        Value::Str(_) => (Ok(w.chars(v).len() > 0), w),
        Value::BigInt(_) => (Ok(w.integer(v) != 0), w),
        Value::Obj(_) => asks_flag(Request::Truthy(v), w),
    }
}

/// ToBoolean: whether a value counts as true.
pub fn to_boolean<'h, 'a, H: Host<'a>>(
    s: &mut Session<'h, 'a, H>,
    v: Value,
) -> (out: Result<bool, Abrupt<'a>>)
    ensures
        final(s).continues(*old(s)),
        forall|answers: Answers<'a>| #[trigger]
            final(s).agrees(answers) ==> old(s).agrees(answers) && (out, final(s).world(answers))
                == to_boolean_step(v, old(s).world(answers)),
{
    match v {
        Value::Undefined | Value::Empty | Value::Null => {
            return Ok(false);
        },
        Value::Bool(b) => {
            return Ok(b);
        },
        Value::Num(n) => {
            return Ok(is_truthy(n));
        },
        Value::Sym(_) => {
            return Ok(true);
        },
        Value::Str(_) => {
            return Ok(s.chars(v).unicode_len() > 0);
        },
        Value::BigInt(_) => {
            return Ok(!s.integer(v).is_zero());
        },
        Value::Obj(_) => {
            return s.flag(Request::Truthy(v));
        },
    }
}

/// Whether a value can be called.
pub open spec fn is_callable_step<'a>(v: Value, w: World<'a>) -> Step<'a, bool>
{
    match v {
        Value::Obj(_) => asks_flag(Request::Callable(v), w),
        _ => (Ok(false), w),
    }
}

/// Whether a value can be called.
pub fn is_callable<'h, 'a, H: Host<'a>>(
    s: &mut Session<'h, 'a, H>,
    v: Value,
) -> (out: Result<bool, Abrupt<'a>>)
    ensures
        final(s).continues(*old(s)),
        forall|answers: Answers<'a>| #[trigger]
            final(s).agrees(answers) ==> old(s).agrees(answers) && (out, final(s).world(answers))
                == is_callable_step(v, old(s).world(answers)),
{
    match v {
        Value::Obj(_) => {
            return s.flag(Request::Callable(v));
        },
        _ => {
            return Ok(false);
        },
    }
}

/// Calls a function without arguments.
pub open spec fn call_bare_step<'a>(func: Value, this: Value, w: World<'a>) -> Step<'a, Value>
{
    let args: u64 = w.next_list();
    let w = w.new_list(Seq::empty());
    asks(Request::Call { func, this, args }, w)
}

/// Calls a function without arguments.
pub fn call_bare<'h, 'a, H: Host<'a>>(
    s: &mut Session<'h, 'a, H>,
    func: Value,
    this: Value,
) -> (out: Result<Value, Abrupt<'a>>)
    ensures
        final(s).continues(*old(s)),
        forall|answers: Answers<'a>| #[trigger]
            final(s).agrees(answers) ==> old(s).agrees(answers) && (out, final(s).world(answers))
                == call_bare_step(func, this, old(s).world(answers)),
{
    let args: u64 = s.new_list(Vec::new());
    return s.value(Request::Call { func, this, args });
}

/// Calls a function with one argument.
pub open spec fn call_with_step<'a>(
    func: Value,
    this: Value,
    arg: Value,
    w: World<'a>,
) -> Step<'a, Value>
{
    let args: u64 = w.next_list();
    let w = w.new_list(Seq::empty());
    let w = w.push(args, arg);
    asks(Request::Call { func, this, args }, w)
}

/// Calls a function with one argument.
pub fn call_with<'h, 'a, H: Host<'a>>(
    s: &mut Session<'h, 'a, H>,
    func: Value,
    this: Value,
    arg: Value,
) -> (out: Result<Value, Abrupt<'a>>)
    ensures
        final(s).continues(*old(s)),
        forall|answers: Answers<'a>| #[trigger]
            final(s).agrees(answers) ==> old(s).agrees(answers) && (out, final(s).world(answers))
                == call_with_step(func, this, arg, old(s).world(answers)),
{
    let args: u64 = s.new_list(Vec::new());
    s.push(args, arg);
    return s.value(Request::Call { func, this, args });
}

/// The order in which an object's conversion methods are tried, and what it is asked for.
pub open spec fn hint_text_step<'a>(hint: Hint, w: World<'a>) -> Step<'a, Value>
{
    match hint {
        Hint::String => {
            let t: Value = w.next_text();
            let w = w.add_text("string"@);
            (Ok(t), w)
        },
        Hint::Number => {
            let t: Value = w.next_text();
            let w = w.add_text("number"@);
            (Ok(t), w)
        },
        Hint::Default => {
            let t: Value = w.next_text();
            let w = w.add_text("default"@);
            (Ok(t), w)
        },
    }
}

/// The order in which an object's conversion methods are tried, and what it is asked for.
pub fn hint_text<'h, 'a, H: Host<'a>>(
    s: &mut Session<'h, 'a, H>,
    hint: Hint,
) -> (out: Result<Value, Abrupt<'a>>)
    ensures
        final(s).continues(*old(s)),
        forall|answers: Answers<'a>| #[trigger]
            final(s).agrees(answers) ==> old(s).agrees(answers) && (out, final(s).world(answers))
                == hint_text_step(hint, old(s).world(answers)),
{
    match hint {
        Hint::String => {
            let t: Value = s.add_text("string".to_owned());
            return Ok(t);
        },
        Hint::Number => {
            let t: Value = s.add_text("number".to_owned());
            return Ok(t);
        },
        Hint::Default => {
            let t: Value = s.add_text("default".to_owned());
            return Ok(t);
        },
    }
}

/// One attempt of OrdinaryToPrimitive: calls the method, if there is one, and says whether it gave
/// a primitive.
pub open spec fn try_method_step<'a>(
    v: Value,
    method: &'static str,
    w: World<'a>,
) -> Step<'a, (bool, Value)>
{
    next(
        asks(Request::GetMember { base: v, key: Key::Fixed(method) }, w),
        |f: Value, w: World<'a>|
            next(
                is_callable_step(f, w),
                |ok: bool, w: World<'a>|
                    if ok {
                        next(
                            call_bare_step(f, v, w),
                            |r: Value, w: World<'a>|
                                if matches!(r, Value::Obj(_)) {
                                    (Ok((false, r)), w)
                                } else {
                                    (Ok((true, r)), w)
                                },
                        )
                    } else {
                        (Ok((false, f)), w)
                    },
            ),
    )
}

/// One attempt of OrdinaryToPrimitive: calls the method, if there is one, and says whether it gave
/// a primitive.
pub fn try_method<'h, 'a, H: Host<'a>>(
    s: &mut Session<'h, 'a, H>,
    v: Value,
    method: &'static str,
) -> (out: Result<(bool, Value), Abrupt<'a>>)
    ensures
        final(s).continues(*old(s)),
        forall|answers: Answers<'a>| #[trigger]
            final(s).agrees(answers) ==> old(s).agrees(answers) && (out, final(s).world(answers))
                == try_method_step(v, method, old(s).world(answers)),
{
    let f: Value = s.value(Request::GetMember { base: v, key: Key::Fixed(method) })?;
    let ok: bool = is_callable(s, f)?;
    if ok {
        let r: Value = call_bare(s, f, v)?;
        if matches!(r, Value::Obj(_)) {
            return Ok((false, r));
        } else {
            return Ok((true, r));
        }
    } else {
        return Ok((false, f));
    }
}

/// OrdinaryToPrimitive: the first of two methods that gives a primitive.
pub open spec fn try_methods_step<'a>(
    v: Value,
    first: &'static str,
    second: &'static str,
    w: World<'a>,
) -> Step<'a, Value>
{
    next(
        try_method_step(v, first, w),
        |a: (bool, Value), w: World<'a>|
            if a.0 {
                (Ok(a.1), w)
            } else {
                next(
                    try_method_step(v, second, w),
                    |b: (bool, Value), w: World<'a>|
                        if b.0 {
                            (Ok(b.1), w)
                        } else {
                            throws(
                                ErrorKind::TypeError,
                                "cannot convert object to primitive value",
                                w,
                            )
                        },
                )
            },
    )
}

/// OrdinaryToPrimitive: the first of two methods that gives a primitive.
pub fn try_methods<'h, 'a, H: Host<'a>>(
    s: &mut Session<'h, 'a, H>,
    v: Value,
    first: &'static str,
    second: &'static str,
) -> (out: Result<Value, Abrupt<'a>>)
    ensures
        final(s).continues(*old(s)),
        forall|answers: Answers<'a>| #[trigger]
            final(s).agrees(answers) ==> old(s).agrees(answers) && (out, final(s).world(answers))
                == try_methods_step(v, first, second, old(s).world(answers)),
{
    let a: (bool, Value) = try_method(s, v, first)?;
    if a.0 {
        return Ok(a.1);
    } else {
        let b: (bool, Value) = try_method(s, v, second)?;
        if b.0 {
            return Ok(b.1);
        } else {
            return throw(s, ErrorKind::TypeError, "cannot convert object to primitive value");
        }
    }
}

/// ToPrimitive: a primitive stays; an object is converted by its `@@toPrimitive`, or by `valueOf`
/// and `toString`.
pub open spec fn to_primitive_step<'a>(v: Value, hint: Hint, w: World<'a>) -> Step<'a, Value>
{
    if !matches!(v, Value::Obj(_)) {
        (Ok(v), w)
    } else {
        next(
            asks_handle(Request::WellKnownKey(WellKnown::ToPrimitive), w),
            |key: u64, w: World<'a>|
                next(
                    asks(Request::GetMember { base: v, key: Key::Symbol(key) }, w),
                    |f: Value, w: World<'a>|
                        next(
                            is_callable_step(f, w),
                            |ok: bool, w: World<'a>|
                                if ok {
                                    next(
                                        hint_text_step(hint, w),
                                        |text: Value, w: World<'a>|
                                            next(
                                                call_with_step(f, v, text, w),
                                                |r: Value, w: World<'a>|
                                                    if matches!(r, Value::Obj(_)) {
                                                        throws(
                                                            ErrorKind::TypeError,
                                                            "Cannot convert object to a primitive value",
                                                            w,
                                                        )
                                                    } else {
                                                        (Ok(r), w)
                                                    },
                                            ),
                                    )
                                } else if !f.is_nullish() {
                                    throws(ErrorKind::TypeError, "@@toPrimitive is not callable", w)
                                } else {
                                    match hint {
                                        Hint::String => {
                                            try_methods_step(v, "toString", "valueOf", w)
                                        },
                                        _ => try_methods_step(v, "valueOf", "toString", w),
                                    }
                                },
                        ),
                ),
        )
    }
}

/// ToPrimitive: a primitive stays; an object is converted by its `@@toPrimitive`, or by `valueOf`
/// and `toString`.
pub fn to_primitive<'h, 'a, H: Host<'a>>(
    s: &mut Session<'h, 'a, H>,
    v: Value,
    hint: Hint,
) -> (out: Result<Value, Abrupt<'a>>)
    ensures
        final(s).continues(*old(s)),
        forall|answers: Answers<'a>| #[trigger]
            final(s).agrees(answers) ==> old(s).agrees(answers) && (out, final(s).world(answers))
                == to_primitive_step(v, hint, old(s).world(answers)),
{
    if !matches!(v, Value::Obj(_)) {
        return Ok(v);
    }
    let key: u64 = s.handle(Request::WellKnownKey(WellKnown::ToPrimitive))?;
    let f: Value = s.value(Request::GetMember { base: v, key: Key::Symbol(key) })?;
    let ok: bool = is_callable(s, f)?;
    if ok {
        let text: Value = hint_text(s, hint)?;
        let r: Value = call_with(s, f, v, text)?;
        if matches!(r, Value::Obj(_)) {
            return throw(s, ErrorKind::TypeError, "Cannot convert object to a primitive value");
        } else {
            return Ok(r);
        }
    } else if !f.is_nullish() {
        return throw(s, ErrorKind::TypeError, "@@toPrimitive is not callable");
    } else {
        match hint {
            Hint::String => {
                return try_methods(s, v, "toString", "valueOf");
            },
            _ => {
                return try_methods(s, v, "valueOf", "toString");
            },
        }
    }
}

/// A value as the bits of a double; NaN for one that is no number.
pub open spec fn number_or_nan_step<'a>(v: Value, w: World<'a>) -> Step<'a, u64>
{
    match v {
        Value::Num(bits) => (Ok(bits), w),
        _ => (Ok(NAN), w),
    }
}

/// A value as the bits of a double; NaN for one that is no number.
pub fn number_or_nan<'h, 'a, H: Host<'a>>(
    s: &mut Session<'h, 'a, H>,
    v: Value,
) -> (out: Result<u64, Abrupt<'a>>)
    ensures
        final(s).continues(*old(s)),
        forall|answers: Answers<'a>| #[trigger]
            final(s).agrees(answers) ==> old(s).agrees(answers) && (out, final(s).world(answers))
                == number_or_nan_step(v, old(s).world(answers)),
{
    match v {
        Value::Num(bits) => {
            return Ok(bits);
        },
        _ => {
            return Ok(NAN);
        },
    }
}

/// StringToNumber: a text that spells no number is NaN. The host rounds the digits of one that
/// does.
pub open spec fn text_to_number_step<'a>(v: Value, w: World<'a>) -> Step<'a, u64>
{
    let spelled: NumberTextView = spelled_number(w.chars(v));
    match spelled {
        NumberTextView::Known(bits) => (Ok(bits), w),
        NumberTextView::Radix(radix, digits) => {
            let t: Value = w.next_text();
            let w = w.add_text(digits);
            next(
                asks(Request::RoundRadix { digits: t, radix }, w),
                |n: Value, w: World<'a>| number_or_nan_step(n, w),
            )
        },
        NumberTextView::Decimal(digits) => {
            let t: Value = w.next_text();
            let w = w.add_text(digits);
            next(
                asks(Request::RoundDecimal(t), w),
                |n: Value, w: World<'a>| number_or_nan_step(n, w),
            )
        },
    }
}

/// StringToNumber: a text that spells no number is NaN. The host rounds the digits of one that
/// does.
pub fn text_to_number<'h, 'a, H: Host<'a>>(
    s: &mut Session<'h, 'a, H>,
    v: Value,
) -> (out: Result<u64, Abrupt<'a>>)
    ensures
        final(s).continues(*old(s)),
        forall|answers: Answers<'a>| #[trigger]
            final(s).agrees(answers) ==> old(s).agrees(answers) && (out, final(s).world(answers))
                == text_to_number_step(v, old(s).world(answers)),
{
    let spelled: NumberText = parse_number(s.chars(v));
    match spelled {
        NumberText::Known(bits) => {
            return Ok(bits);
        },
        NumberText::Radix(radix, digits) => {
            let t: Value = s.add_text(digits);
            let n: Value = s.value(Request::RoundRadix { digits: t, radix })?;
            return number_or_nan(s, n);
        },
        NumberText::Decimal(digits) => {
            let t: Value = s.add_text(digits);
            let n: Value = s.value(Request::RoundDecimal(t))?;
            return number_or_nan(s, n);
        },
    }
}

/// ToNumber of a primitive, as the bits of a double.
pub open spec fn primitive_to_number_step<'a>(v: Value, w: World<'a>) -> Step<'a, u64>
{
    match v {
        Value::Undefined | Value::Empty => (Ok(NAN), w),
        Value::Null => (Ok(0), w),
        Value::Bool(b) => {
            if b {
                (Ok(ONE), w)
            } else {
                (Ok(0), w)
            }
        },
        Value::Num(n) => (Ok(n), w),
        Value::BigInt(_) => {
            throws(ErrorKind::TypeError, "Cannot convert a BigInt value to a number", w)
        },
        Value::Sym(_) => {
            throws(ErrorKind::TypeError, "Cannot convert a Symbol value to a number", w)
        },
        Value::Str(_) => text_to_number_step(v, w),
        Value::Obj(_) => {
            throws(ErrorKind::TypeError, "cannot convert object to primitive value", w)
        },
    }
}

/// ToNumber of a primitive, as the bits of a double.
pub fn primitive_to_number<'h, 'a, H: Host<'a>>(
    s: &mut Session<'h, 'a, H>,
    v: Value,
) -> (out: Result<u64, Abrupt<'a>>)
    ensures
        final(s).continues(*old(s)),
        forall|answers: Answers<'a>| #[trigger]
            final(s).agrees(answers) ==> old(s).agrees(answers) && (out, final(s).world(answers))
                == primitive_to_number_step(v, old(s).world(answers)),
{
    match v {
        Value::Undefined | Value::Empty => {
            return Ok(NAN);
        },
        Value::Null => {
            return Ok(0);
        },
        Value::Bool(b) => {
            if b {
                return Ok(ONE);
            } else {
                return Ok(0);
            }
        },
        Value::Num(n) => {
            return Ok(n);
        },
        Value::BigInt(_) => {
            return throw(s, ErrorKind::TypeError, "Cannot convert a BigInt value to a number");
        },
        Value::Sym(_) => {
            return throw(s, ErrorKind::TypeError, "Cannot convert a Symbol value to a number");
        },
        Value::Str(_) => {
            return text_to_number(s, v);
        },
        Value::Obj(_) => {
            return throw(s, ErrorKind::TypeError, "cannot convert object to primitive value");
        },
    }
}

/// ToNumber, as the bits of a double.
pub open spec fn to_number_step<'a>(v: Value, w: World<'a>) -> Step<'a, u64>
{
    next(
        to_primitive_step(v, Hint::Number, w),
        |p: Value, w: World<'a>| primitive_to_number_step(p, w),
    )
}

/// ToNumber, as the bits of a double.
pub fn to_number<'h, 'a, H: Host<'a>>(
    s: &mut Session<'h, 'a, H>,
    v: Value,
) -> (out: Result<u64, Abrupt<'a>>)
    ensures
        final(s).continues(*old(s)),
        forall|answers: Answers<'a>| #[trigger]
            final(s).agrees(answers) ==> old(s).agrees(answers) && (out, final(s).world(answers))
                == to_number_step(v, old(s).world(answers)),
{
    let p: Value = to_primitive(s, v, Hint::Number)?;
    return primitive_to_number(s, p);
}

/// ToNumeric: a big integer stays one; anything else becomes a number.
pub open spec fn to_numeric_step<'a>(v: Value, w: World<'a>) -> Step<'a, Value>
{
    next(
        to_primitive_step(v, Hint::Number, w),
        |p: Value, w: World<'a>|
            if matches!(p, Value::BigInt(_)) {
                (Ok(p), w)
            } else {
                next(
                    primitive_to_number_step(p, w),
                    |n: u64, w: World<'a>| (Ok(Value::Num(n)), w),
                )
            },
    )
}

/// ToNumeric: a big integer stays one; anything else becomes a number.
pub fn to_numeric<'h, 'a, H: Host<'a>>(
    s: &mut Session<'h, 'a, H>,
    v: Value,
) -> (out: Result<Value, Abrupt<'a>>)
    ensures
        final(s).continues(*old(s)),
        forall|answers: Answers<'a>| #[trigger]
            final(s).agrees(answers) ==> old(s).agrees(answers) && (out, final(s).world(answers))
                == to_numeric_step(v, old(s).world(answers)),
{
    let p: Value = to_primitive(s, v, Hint::Number)?;
    if matches!(p, Value::BigInt(_)) {
        return Ok(p);
    } else {
        let n: u64 = primitive_to_number(s, p)?;
        return Ok(Value::Num(n));
    }
}

/// ToInt32.
pub open spec fn value_to_int32_step<'a>(v: Value, w: World<'a>) -> Step<'a, i32>
{
    next(
        to_number_step(v, w),
        |n: u64, w: World<'a>| (Ok(int32_of(n) as i32), w),
    )
}

/// ToInt32.
pub fn value_to_int32<'h, 'a, H: Host<'a>>(
    s: &mut Session<'h, 'a, H>,
    v: Value,
) -> (out: Result<i32, Abrupt<'a>>)
    ensures
        final(s).continues(*old(s)),
        forall|answers: Answers<'a>| #[trigger]
            final(s).agrees(answers) ==> old(s).agrees(answers) && (out, final(s).world(answers))
                == value_to_int32_step(v, old(s).world(answers)),
{
    let n: u64 = to_number(s, v)?;
    return Ok(number_to_int32(n));
}

/// ToString of a primitive, as a string value.
pub open spec fn primitive_to_text_step<'a>(v: Value, w: World<'a>) -> Step<'a, Value>
{
    match v {
        Value::Undefined | Value::Empty => {
            let t: Value = w.next_text();
            let w = w.add_text("undefined"@);
            (Ok(t), w)
        },
        Value::Null => {
            let t: Value = w.next_text();
            let w = w.add_text("null"@);
            (Ok(t), w)
        },
        Value::Bool(b) => {
            if b {
                let t: Value = w.next_text();
                let w = w.add_text("true"@);
                (Ok(t), w)
            } else {
                let t: Value = w.next_text();
                let w = w.add_text("false"@);
                (Ok(t), w)
            }
        },
        Value::Num(n) => number_to_text_step(n, w),
        Value::BigInt(_) => {
            let t: Value = w.next_text();
            let w = w.add_text(radix_text(w.integer(v), 10));
            (Ok(t), w)
        },
        Value::Str(_) => (Ok(v), w),
        Value::Sym(_) => {
            throws(ErrorKind::TypeError, "Cannot convert a Symbol value to a string", w)
        },
        Value::Obj(_) => throws(ErrorKind::TypeError, "cannot convert object to string", w),
    }
}

/// ToString of a primitive, as a string value.
pub fn primitive_to_text<'h, 'a, H: Host<'a>>(
    s: &mut Session<'h, 'a, H>,
    v: Value,
) -> (out: Result<Value, Abrupt<'a>>)
    ensures
        final(s).continues(*old(s)),
        forall|answers: Answers<'a>| #[trigger]
            final(s).agrees(answers) ==> old(s).agrees(answers) && (out, final(s).world(answers))
                == primitive_to_text_step(v, old(s).world(answers)),
{
    match v {
        Value::Undefined | Value::Empty => {
            let t: Value = s.add_text("undefined".to_owned());
            return Ok(t);
        },
        Value::Null => {
            let t: Value = s.add_text("null".to_owned());
            return Ok(t);
        },
        Value::Bool(b) => {
            if b {
                let t: Value = s.add_text("true".to_owned());
                return Ok(t);
            } else {
                let t: Value = s.add_text("false".to_owned());
                return Ok(t);
            }
        },
        Value::Num(n) => {
            return number_to_text(s, n);
        },
        Value::BigInt(_) => {
            let made_t = s.integer(v).to_string_radix(10);
            let t: Value = s.add_text(made_t);
            return Ok(t);
        },
        Value::Str(_) => {
            return Ok(v);
        },
        Value::Sym(_) => {
            return throw(s, ErrorKind::TypeError, "Cannot convert a Symbol value to a string");
        },
        Value::Obj(_) => {
            return throw(s, ErrorKind::TypeError, "cannot convert object to string");
        },
    }
}

/// ToString, as a string value.
pub open spec fn to_string_step<'a>(v: Value, w: World<'a>) -> Step<'a, Value>
{
    next(
        to_primitive_step(v, Hint::String, w),
        |p: Value, w: World<'a>| primitive_to_text_step(p, w),
    )
}

/// ToString, as a string value.
pub fn to_string<'h, 'a, H: Host<'a>>(
    s: &mut Session<'h, 'a, H>,
    v: Value,
) -> (out: Result<Value, Abrupt<'a>>)
    ensures
        final(s).continues(*old(s)),
        forall|answers: Answers<'a>| #[trigger]
            final(s).agrees(answers) ==> old(s).agrees(answers) && (out, final(s).world(answers))
                == to_string_step(v, old(s).world(answers)),
{
    let p: Value = to_primitive(s, v, Hint::String)?;
    return primitive_to_text(s, p);
}

/// ToPropertyKey: a symbol is a key of its own; anything else is its string form.
pub open spec fn to_property_key_step<'a>(v: Value, w: World<'a>) -> Step<'a, Key<'a>>
{
    next(
        to_primitive_step(v, Hint::String, w),
        |p: Value, w: World<'a>|
            if matches!(p, Value::Sym(_)) {
                (Ok(value_key(p)), w)
            } else {
                next(
                    primitive_to_text_step(p, w),
                    |t: Value, w: World<'a>| (Ok(value_key(t)), w),
                )
            },
    )
}

/// ToPropertyKey: a symbol is a key of its own; anything else is its string form.
pub fn to_property_key<'h, 'a, H: Host<'a>>(
    s: &mut Session<'h, 'a, H>,
    v: Value,
) -> (out: Result<Key<'a>, Abrupt<'a>>)
    ensures
        final(s).continues(*old(s)),
        forall|answers: Answers<'a>| #[trigger]
            final(s).agrees(answers) ==> old(s).agrees(answers) && (out, final(s).world(answers))
                == to_property_key_step(v, old(s).world(answers)),
{
    let p: Value = to_primitive(s, v, Hint::String)?;
    if matches!(p, Value::Sym(_)) {
        return Ok(key_of_value(p));
    } else {
        let t: Value = primitive_to_text(s, p)?;
        return Ok(key_of_value(t));
    }
}

/// A key as a value: a symbol or a string.
pub open spec fn key_value_step<'a>(key: Key<'a>, w: World<'a>) -> Step<'a, Value>
{
    match key {
        Key::Symbol(h) => (Ok(Value::Sym(h)), w),
        Key::Made(at) => (Ok(Value::Str(at)), w),
        _ => {
            let t: Value = w.next_text();
            let w = w.add_text(w.key_chars(key));
            (Ok(t), w)
        },
    }
}

/// A key as a value: a symbol or a string.
pub fn key_value<'h, 'a, H: Host<'a>>(
    s: &mut Session<'h, 'a, H>,
    key: Key<'a>,
) -> (out: Result<Value, Abrupt<'a>>)
    ensures
        final(s).continues(*old(s)),
        forall|answers: Answers<'a>| #[trigger]
            final(s).agrees(answers) ==> old(s).agrees(answers) && (out, final(s).world(answers))
                == key_value_step(key, old(s).world(answers)),
{
    match key {
        Key::Symbol(h) => {
            return Ok(Value::Sym(h));
        },
        Key::Made(at) => {
            return Ok(Value::Str(at));
        },
        _ => {
            let made_t = s.key_text(key);
            let t: Value = s.add_text(made_t);
            return Ok(t);
        },
    }
}

/// A key as the program spells it: a private one without the mark that tells class evaluations
/// apart.
pub open spec fn key_display_step<'a>(key: Key<'a>, w: World<'a>) -> Step<'a, Value>
{
    let full: Seq<char> = w.key_chars(key);
    let t: Value = w.next_text();
    let w = w.add_text(up_to(full, '\u{1}'));
    (Ok(t), w)
}

/// A key as the program spells it: a private one without the mark that tells class evaluations
/// apart.
pub fn key_display<'h, 'a, H: Host<'a>>(
    s: &mut Session<'h, 'a, H>,
    key: Key<'a>,
) -> (out: Result<Value, Abrupt<'a>>)
    ensures
        final(s).continues(*old(s)),
        forall|answers: Answers<'a>| #[trigger]
            final(s).agrees(answers) ==> old(s).agrees(answers) && (out, final(s).world(answers))
                == key_display_step(key, old(s).world(answers)),
{
    let full: String = s.key_text(key);
    let t: Value = s.add_text(private_display(full.as_str()));
    return Ok(t);
}

/// What an error message calls its subject.
pub open spec fn subject_text_step<'a>(subject: Subject<'a>, w: World<'a>) -> Step<'a, Value>
{
    match subject {
        Subject::Callee(e) => {
            let t: Value = w.next_text();
            let w = w.add_text(callee_text(*e));
            (Ok(t), w)
        },
        Subject::Key(Key::Symbol(h)) => asks(Request::SymbolText(Value::Sym(h)), w),
        Subject::Key(key) => key_display_step(key, w),
    }
}

/// What an error message calls its subject.
pub fn subject_text<'h, 'a, H: Host<'a>>(
    s: &mut Session<'h, 'a, H>,
    subject: Subject<'a>,
) -> (out: Result<Value, Abrupt<'a>>)
    ensures
        final(s).continues(*old(s)),
        forall|answers: Answers<'a>| #[trigger]
            final(s).agrees(answers) ==> old(s).agrees(answers) && (out, final(s).world(answers))
                == subject_text_step(subject, old(s).world(answers)),
{
    match subject {
        Subject::Callee(e) => {
            let t: Value = s.add_text(describe_callee(e));
            return Ok(t);
        },
        Subject::Key(Key::Symbol(h)) => {
            return s.value(Request::SymbolText(Value::Sym(h)));
        },
        Subject::Key(key) => {
            return key_display(s, key);
        },
    }
}

/// The name that a symbol gives a function: its description in brackets, if it has one.
pub open spec fn symbol_name_step<'a>(v: Value, w: World<'a>) -> Step<'a, Value>
{
    next(
        asks(Request::SymbolDescription(v), w),
        |d: Value, w: World<'a>|
            if matches!(d, Value::Str(_)) {
                let t: Value = w.next_text();
                let w = w.add_text("["@ + w.chars(d) + "]"@);
                (Ok(t), w)
            } else {
                let t: Value = w.next_text();
                let w = w.add_text(""@);
                (Ok(t), w)
            },
    )
}

/// The name that a symbol gives a function: its description in brackets, if it has one.
pub fn symbol_name<'h, 'a, H: Host<'a>>(
    s: &mut Session<'h, 'a, H>,
    v: Value,
) -> (out: Result<Value, Abrupt<'a>>)
    ensures
        final(s).continues(*old(s)),
        forall|answers: Answers<'a>| #[trigger]
            final(s).agrees(answers) ==> old(s).agrees(answers) && (out, final(s).world(answers))
                == symbol_name_step(v, old(s).world(answers)),
{
    let d: Value = s.value(Request::SymbolDescription(v))?;
    if matches!(d, Value::Str(_)) {
        let made_t = bracketed(s.chars(d));
        let t: Value = s.add_text(made_t);
        return Ok(t);
    } else {
        let t: Value = s.add_text("".to_owned());
        return Ok(t);
    }
}

/// The name that a key gives a function. That of a class's member is the one that the program
/// spells.
pub open spec fn fn_name_for_key_step<'a>(
    key: Key<'a>,
    member: bool,
    w: World<'a>,
) -> Step<'a, Value>
{
    match key {
        Key::Symbol(h) => symbol_name_step(Value::Sym(h), w),
        _ => {
            if member {
                key_display_step(key, w)
            } else {
                key_value_step(key, w)
            }
        },
    }
}

/// The name that a key gives a function. That of a class's member is the one that the program
/// spells.
pub fn fn_name_for_key<'h, 'a, H: Host<'a>>(
    s: &mut Session<'h, 'a, H>,
    key: Key<'a>,
    member: bool,
) -> (out: Result<Value, Abrupt<'a>>)
    ensures
        final(s).continues(*old(s)),
        forall|answers: Answers<'a>| #[trigger]
            final(s).agrees(answers) ==> old(s).agrees(answers) && (out, final(s).world(answers))
                == fn_name_for_key_step(key, member, old(s).world(answers)),
{
    match key {
        Key::Symbol(h) => {
            return symbol_name(s, Value::Sym(h));
        },
        _ => {
            if member {
                return key_display(s, key);
            } else {
                return key_value(s, key);
            }
        },
    }
}

/// A new error that holds one that was thrown while another was under way.
pub open spec fn make_suppressed_step<'a>(
    error: Value,
    suppressed: Value,
    w: World<'a>,
) -> Step<'a, Value>
{
    next(
        make_error_step(ErrorKind::SuppressedError, "", w),
        |e: Value, w: World<'a>| {
            let w = w.ask(
                Request::DefineOwn { base: e, key: Key::Fixed("error"), prop: Property::of(error, true, false, true) },
            ).1;
            let w = w.ask(
                Request::DefineOwn { base: e, key: Key::Fixed("suppressed"), prop: Property::of(suppressed, true, false, true) },
            ).1;
            (Ok(e), w)
        },
    )
}

/// A new error that holds one that was thrown while another was under way.
pub fn make_suppressed<'h, 'a, H: Host<'a>>(
    s: &mut Session<'h, 'a, H>,
    error: Value,
    suppressed: Value,
) -> (out: Result<Value, Abrupt<'a>>)
    ensures
        final(s).continues(*old(s)),
        forall|answers: Answers<'a>| #[trigger]
            final(s).agrees(answers) ==> old(s).agrees(answers) && (out, final(s).world(answers))
                == make_suppressed_step(error, suppressed, old(s).world(answers)),
{
    let e: Value = make_error(s, ErrorKind::SuppressedError, "")?;
    let _ = s.ask(
        Request::DefineOwn { base: e, key: Key::Fixed("error"), prop: Property::builtin(error) },
    );
    let _ = s.ask(
        Request::DefineOwn { base: e, key: Key::Fixed("suppressed"), prop: Property::builtin(suppressed) },
    );
    return Ok(e);
}

/// Gives a function a name.
pub open spec fn define_name_step<'a>(func: Value, name: Value, w: World<'a>) -> Step<'a, ()>
{
    let w = w.ask(
        Request::DefineOwn { base: func, key: Key::Fixed("name"), prop: Property::of(name, false, false, true) },
    ).1;
    (Ok(()), w)
}

/// Gives a function a name.
pub fn define_name<'h, 'a, H: Host<'a>>(
    s: &mut Session<'h, 'a, H>,
    func: Value,
    name: Value,
) -> (out: Result<(), Abrupt<'a>>)
    ensures
        final(s).continues(*old(s)),
        forall|answers: Answers<'a>| #[trigger]
            final(s).agrees(answers) ==> old(s).agrees(answers) && (out, final(s).world(answers))
                == define_name_step(func, name, old(s).world(answers)),
{
    let _ = s.ask(
        Request::DefineOwn { base: func, key: Key::Fixed("name"), prop: Property::data(name, false, false, true) },
    );
    return Ok(());
}

/// Gives a function a name, unless it has one that is not empty.
pub open spec fn set_fn_name_step<'a>(func: Value, name: Value, w: World<'a>) -> Step<'a, ()>
{
    next(
        is_callable_step(func, w),
        |ok: bool, w: World<'a>|
            if !ok {
                (Ok(()), w)
            } else {
                next(
                    asks_prop(Request::OwnProperty { base: func, key: Key::Fixed("name") }, w),
                    |p: Option<Property>, w: World<'a>|
                        match p {
                            None => define_name_step(func, name, w),
                            Some(q) => {
                                if matches!(q.value, Value::Str(_)) && w.chars(q.value).len() == 0 {
                                    define_name_step(func, name, w)
                                } else {
                                    (Ok(()), w)
                                }
                            },
                        },
                )
            },
    )
}

/// Gives a function a name, unless it has one that is not empty.
pub fn set_fn_name<'h, 'a, H: Host<'a>>(
    s: &mut Session<'h, 'a, H>,
    func: Value,
    name: Value,
) -> (out: Result<(), Abrupt<'a>>)
    ensures
        final(s).continues(*old(s)),
        forall|answers: Answers<'a>| #[trigger]
            final(s).agrees(answers) ==> old(s).agrees(answers) && (out, final(s).world(answers))
                == set_fn_name_step(func, name, old(s).world(answers)),
{
    let ok: bool = is_callable(s, func)?;
    if !ok {
        return Ok(());
    }
    let p: Option<Property> = s.prop(Request::OwnProperty { base: func, key: Key::Fixed("name") })?;
    match p {
        None => {
            return define_name(s, func, name);
        },
        Some(q) => {
            if matches!(q.value, Value::Str(_)) && s.chars(q.value).unicode_len() == 0 {
                return define_name(s, func, name);
            } else {
                return Ok(());
            }
        },
    }
}

/// Names a function after a key, unless it has a name.
pub open spec fn name_function_step<'a>(
    func: Value,
    prefix: &'static str,
    key: Key<'a>,
    member: bool,
    w: World<'a>,
) -> Step<'a, ()>
{
    next(
        fn_name_for_key_step(key, member, w),
        |base: Value, w: World<'a>| {
            let name: Value = w.next_text();
            let w = w.add_text(prefix@ + w.chars(base));
            set_fn_name_step(func, name, w)
        },
    )
}

/// Names a function after a key, unless it has a name.
pub fn name_function<'h, 'a, H: Host<'a>>(
    s: &mut Session<'h, 'a, H>,
    func: Value,
    prefix: &'static str,
    key: Key<'a>,
    member: bool,
) -> (out: Result<(), Abrupt<'a>>)
    ensures
        final(s).continues(*old(s)),
        forall|answers: Answers<'a>| #[trigger]
            final(s).agrees(answers) ==> old(s).agrees(answers) && (out, final(s).world(answers))
                == name_function_step(func, prefix, key, member, old(s).world(answers)),
{
    let base: Value = fn_name_for_key(s, key, member)?;
    let made_name = join(prefix, s.chars(base));
    let name: Value = s.add_text(made_name);
    return set_fn_name(s, func, name);
}

/// Names the function of a class's method or accessor.
pub open spec fn name_method_step<'a>(
    func: Value,
    prefix: &'static str,
    key: Key<'a>,
    w: World<'a>,
) -> Step<'a, ()>
{
    next(
        fn_name_for_key_step(key, true, w),
        |base: Value, w: World<'a>| {
            let name: Value = w.next_text();
            let w = w.add_text(prefix@ + w.chars(base));
            define_name_step(func, name, w)
        },
    )
}

/// Names the function of a class's method or accessor.
pub fn name_method<'h, 'a, H: Host<'a>>(
    s: &mut Session<'h, 'a, H>,
    func: Value,
    prefix: &'static str,
    key: Key<'a>,
) -> (out: Result<(), Abrupt<'a>>)
    ensures
        final(s).continues(*old(s)),
        forall|answers: Answers<'a>| #[trigger]
            final(s).agrees(answers) ==> old(s).agrees(answers) && (out, final(s).world(answers))
                == name_method_step(func, prefix, key, old(s).world(answers)),
{
    let base: Value = fn_name_for_key(s, key, true)?;
    let made_name = join(prefix, s.chars(base));
    let name: Value = s.add_text(made_name);
    return define_name(s, func, name);
}

/// The string that `typeof` gives.
pub open spec fn type_of_step<'a>(v: Value, w: World<'a>) -> Step<'a, Value>
{
    match v {
        Value::Undefined | Value::Empty => {
            let t: Value = w.next_text();
            let w = w.add_text("undefined"@);
            (Ok(t), w)
        },
        Value::Null => {
            let t: Value = w.next_text();
            let w = w.add_text("object"@);
            (Ok(t), w)
        },
        Value::Bool(_) => {
            let t: Value = w.next_text();
            let w = w.add_text("boolean"@);
            (Ok(t), w)
        },
        Value::Num(_) => {
            let t: Value = w.next_text();
            let w = w.add_text("number"@);
            (Ok(t), w)
        },
        Value::BigInt(_) => {
            let t: Value = w.next_text();
            let w = w.add_text("bigint"@);
            (Ok(t), w)
        },
        Value::Str(_) => {
            let t: Value = w.next_text();
            let w = w.add_text("string"@);
            (Ok(t), w)
        },
        Value::Sym(_) => {
            let t: Value = w.next_text();
            let w = w.add_text("symbol"@);
            (Ok(t), w)
        },
        Value::Obj(_) => {
            next(
                stands_for_undefined_step(v, w),
                |hidden: bool, w: World<'a>|
                    if hidden {
                        let t: Value = w.next_text();
                        let w = w.add_text("undefined"@);
                        (Ok(t), w)
                    } else {
                        next(
                            is_callable_step(v, w),
                            |callable: bool, w: World<'a>|
                                if callable {
                                    let t: Value = w.next_text();
                                    let w = w.add_text("function"@);
                                    (Ok(t), w)
                                } else {
                                    let t: Value = w.next_text();
                                    let w = w.add_text("object"@);
                                    (Ok(t), w)
                                },
                        )
                    },
            )
        },
    }
}

/// The string that `typeof` gives.
pub fn type_of<'h, 'a, H: Host<'a>>(
    s: &mut Session<'h, 'a, H>,
    v: Value,
) -> (out: Result<Value, Abrupt<'a>>)
    ensures
        final(s).continues(*old(s)),
        forall|answers: Answers<'a>| #[trigger]
            final(s).agrees(answers) ==> old(s).agrees(answers) && (out, final(s).world(answers))
                == type_of_step(v, old(s).world(answers)),
{
    match v {
        Value::Undefined | Value::Empty => {
            let t: Value = s.add_text("undefined".to_owned());
            return Ok(t);
        },
        Value::Null => {
            let t: Value = s.add_text("object".to_owned());
            return Ok(t);
        },
        Value::Bool(_) => {
            let t: Value = s.add_text("boolean".to_owned());
            return Ok(t);
        },
        Value::Num(_) => {
            let t: Value = s.add_text("number".to_owned());
            return Ok(t);
        },
        Value::BigInt(_) => {
            let t: Value = s.add_text("bigint".to_owned());
            return Ok(t);
        },
        Value::Str(_) => {
            let t: Value = s.add_text("string".to_owned());
            return Ok(t);
        },
        Value::Sym(_) => {
            let t: Value = s.add_text("symbol".to_owned());
            return Ok(t);
        },
        Value::Obj(_) => {
            let hidden: bool = stands_for_undefined(s, v)?;
            if hidden {
                let t: Value = s.add_text("undefined".to_owned());
                return Ok(t);
            }
            let callable: bool = is_callable(s, v)?;
            if callable {
                let t: Value = s.add_text("function".to_owned());
                return Ok(t);
            } else {
                let t: Value = s.add_text("object".to_owned());
                return Ok(t);
            }
        },
    }
}

/// `===`.
pub open spec fn strict_equals_step<'a>(a: Value, b: Value, w: World<'a>) -> Step<'a, bool>
{
    match (a, b) {
        (Value::Undefined, Value::Undefined) => (Ok(true), w),
        (Value::Null, Value::Null) => (Ok(true), w),
        (Value::Bool(x), Value::Bool(y)) => (Ok(x == y), w),
        (Value::Num(x), Value::Num(y)) => (Ok(number_relation(x, y) == Relation::Equal), w),
        (Value::BigInt(_), Value::BigInt(_)) => (Ok(w.integer(a) == w.integer(b)), w),
        (Value::Str(_), Value::Str(_)) => (Ok(w.chars(a) == w.chars(b)), w),
        (Value::Sym(x), Value::Sym(y)) => (Ok(x == y), w),
        (Value::Obj(x), Value::Obj(y)) => (Ok(x == y), w),
        _ => (Ok(false), w),
    }
}

/// `===`.
pub fn strict_equals<'h, 'a, H: Host<'a>>(
    s: &mut Session<'h, 'a, H>,
    a: Value,
    b: Value,
) -> (out: Result<bool, Abrupt<'a>>)
    ensures
        final(s).continues(*old(s)),
        forall|answers: Answers<'a>| #[trigger]
            final(s).agrees(answers) ==> old(s).agrees(answers) && (out, final(s).world(answers))
                == strict_equals_step(a, b, old(s).world(answers)),
{
    match (a, b) {
        (Value::Undefined, Value::Undefined) => {
            return Ok(true);
        },
        (Value::Null, Value::Null) => {
            return Ok(true);
        },
        (Value::Bool(x), Value::Bool(y)) => {
            return Ok(x == y);
        },
        (Value::Num(x), Value::Num(y)) => {
            return Ok(same_number(x, y));
        },
        (Value::BigInt(_), Value::BigInt(_)) => {
            return Ok(same_integer(s.integer(a), s.integer(b)));
        },
        (Value::Str(_), Value::Str(_)) => {
            return Ok(same_text(s.chars(a), s.chars(b)));
        },
        (Value::Sym(x), Value::Sym(y)) => {
            return Ok(x == y);
        },
        (Value::Obj(x), Value::Obj(y)) => {
            return Ok(x == y);
        },
        _ => {
            return Ok(false);
        },
    }
}

/// Whether an object, compared loosely, stands for `undefined`: it counts as false.
pub open spec fn stands_for_undefined_step<'a>(v: Value, w: World<'a>) -> Step<'a, bool>
{
    if matches!(v, Value::Obj(_)) {
        next(
            asks_flag(Request::Truthy(v), w),
            |t: bool, w: World<'a>| (Ok(!t), w),
        )
    } else {
        (Ok(false), w)
    }
}

/// Whether an object, compared loosely, stands for `undefined`: it counts as false.
pub fn stands_for_undefined<'h, 'a, H: Host<'a>>(
    s: &mut Session<'h, 'a, H>,
    v: Value,
) -> (out: Result<bool, Abrupt<'a>>)
    ensures
        final(s).continues(*old(s)),
        forall|answers: Answers<'a>| #[trigger]
            final(s).agrees(answers) ==> old(s).agrees(answers) && (out, final(s).world(answers))
                == stands_for_undefined_step(v, old(s).world(answers)),
{
    if matches!(v, Value::Obj(_)) {
        let t: bool = s.flag(Request::Truthy(v))?;
        return Ok(!t);
    } else {
        return Ok(false);
    }
}

/// `==` of two primitives other than booleans, or of two objects.
pub open spec fn loose_equals_plain_step<'a>(a: Value, b: Value, w: World<'a>) -> Step<'a, bool>
{
    match (a, b) {
        (Value::Undefined | Value::Null, Value::Undefined | Value::Null) => (Ok(true), w),
        (Value::BigInt(_), Value::Num(_)) => asks_flag(Request::SameInteger(a, b), w),
        (Value::Num(_), Value::BigInt(_)) => asks_flag(Request::SameInteger(b, a), w),
        (Value::BigInt(_), Value::Str(_)) => {
            (Ok(relation_to_text(w.integer(a), w.chars(b)) == Relation::Equal), w)
        },
        (Value::Str(_), Value::BigInt(_)) => {
            (Ok(relation_to_text(w.integer(b), w.chars(a)) == Relation::Equal), w)
        },
        (Value::Num(x), Value::Str(_)) => {
            next(
                primitive_to_number_step(b, w),
                |y: u64, w: World<'a>| (Ok(number_relation(x, y) == Relation::Equal), w),
            )
        },
        (Value::Str(_), Value::Num(y)) => {
            next(
                primitive_to_number_step(a, w),
                |x: u64, w: World<'a>| (Ok(number_relation(x, y) == Relation::Equal), w),
            )
        },
        (Value::Undefined, _) | (Value::Null, _) | (_, Value::Undefined) | (_, Value::Null) => {
            (Ok(false), w)
        },
        _ => strict_equals_step(a, b, w),
    }
}

/// `==` of two primitives other than booleans, or of two objects.
pub fn loose_equals_plain<'h, 'a, H: Host<'a>>(
    s: &mut Session<'h, 'a, H>,
    a: Value,
    b: Value,
) -> (out: Result<bool, Abrupt<'a>>)
    ensures
        final(s).continues(*old(s)),
        forall|answers: Answers<'a>| #[trigger]
            final(s).agrees(answers) ==> old(s).agrees(answers) && (out, final(s).world(answers))
                == loose_equals_plain_step(a, b, old(s).world(answers)),
{
    match (a, b) {
        (Value::Undefined | Value::Null, Value::Undefined | Value::Null) => {
            return Ok(true);
        },
        (Value::BigInt(_), Value::Num(_)) => {
            return s.flag(Request::SameInteger(a, b));
        },
        (Value::Num(_), Value::BigInt(_)) => {
            return s.flag(Request::SameInteger(b, a));
        },
        (Value::BigInt(_), Value::Str(_)) => {
            return Ok(text_relation(s.integer(a), s.chars(b)) == Relation::Equal);
        },
        (Value::Str(_), Value::BigInt(_)) => {
            return Ok(text_relation(s.integer(b), s.chars(a)) == Relation::Equal);
        },
        (Value::Num(x), Value::Str(_)) => {
            let y: u64 = primitive_to_number(s, b)?;
            return Ok(same_number(x, y));
        },
        (Value::Str(_), Value::Num(y)) => {
            let x: u64 = primitive_to_number(s, a)?;
            return Ok(same_number(x, y));
        },
        (Value::Undefined, _) | (Value::Null, _) | (_, Value::Undefined) | (_, Value::Null) => {
            return Ok(false);
        },
        _ => {
            return strict_equals(s, a, b);
        },
    }
}

/// A boolean becomes a number before it is compared loosely.
pub open spec fn unboolean_step<'a>(v: Value, w: World<'a>) -> Step<'a, Value>
{
    match v {
        Value::Bool(b) => {
            if b {
                (Ok(Value::Num(ONE)), w)
            } else {
                (Ok(Value::Num(0)), w)
            }
        },
        _ => (Ok(v), w),
    }
}

/// A boolean becomes a number before it is compared loosely.
pub fn unboolean<'h, 'a, H: Host<'a>>(
    s: &mut Session<'h, 'a, H>,
    v: Value,
) -> (out: Result<Value, Abrupt<'a>>)
    ensures
        final(s).continues(*old(s)),
        forall|answers: Answers<'a>| #[trigger]
            final(s).agrees(answers) ==> old(s).agrees(answers) && (out, final(s).world(answers))
                == unboolean_step(v, old(s).world(answers)),
{
    match v {
        Value::Bool(b) => {
            if b {
                return Ok(Value::Num(ONE));
            } else {
                return Ok(Value::Num(0));
            }
        },
        _ => {
            return Ok(v);
        },
    }
}

/// `==`.
pub open spec fn loose_equals_step<'a>(a: Value, b: Value, w: World<'a>) -> Step<'a, bool>
{
    if a.is_nullish() && matches!(b, Value::Obj(_)) {
        stands_for_undefined_step(b, w)
    } else if b.is_nullish() && matches!(a, Value::Obj(_)) {
        stands_for_undefined_step(a, w)
    } else if matches!(a, Value::Bool(_)) && matches!(b, Value::Bool(_)) {
        strict_equals_step(a, b, w)
    } else {
        next(
            unboolean_step(a, w),
            |x: Value, w: World<'a>|
                next(
                    unboolean_step(b, w),
                    |y: Value, w: World<'a>|
                        if matches!(x, Value::Obj(_)) && !matches!(y, Value::Obj(_)) && !y.is_nullish() {
                            next(
                                to_primitive_step(x, Hint::Default, w),
                                |p: Value, w: World<'a>|
                                    next(
                                        unboolean_step(p, w),
                                        |q: Value, w: World<'a>|
                                            loose_equals_plain_step(q, y, w),
                                    ),
                            )
                        } else if matches!(y, Value::Obj(_)) && !matches!(x, Value::Obj(_)) && !x.is_nullish() {
                            next(
                                to_primitive_step(y, Hint::Default, w),
                                |p: Value, w: World<'a>|
                                    next(
                                        unboolean_step(p, w),
                                        |q: Value, w: World<'a>|
                                            loose_equals_plain_step(x, q, w),
                                    ),
                            )
                        } else {
                            loose_equals_plain_step(x, y, w)
                        },
                ),
        )
    }
}

/// `==`.
pub fn loose_equals<'h, 'a, H: Host<'a>>(
    s: &mut Session<'h, 'a, H>,
    a: Value,
    b: Value,
) -> (out: Result<bool, Abrupt<'a>>)
    ensures
        final(s).continues(*old(s)),
        forall|answers: Answers<'a>| #[trigger]
            final(s).agrees(answers) ==> old(s).agrees(answers) && (out, final(s).world(answers))
                == loose_equals_step(a, b, old(s).world(answers)),
{
    if a.is_nullish() && matches!(b, Value::Obj(_)) {
        return stands_for_undefined(s, b);
    } else if b.is_nullish() && matches!(a, Value::Obj(_)) {
        return stands_for_undefined(s, a);
    } else if matches!(a, Value::Bool(_)) && matches!(b, Value::Bool(_)) {
        return strict_equals(s, a, b);
    } else {
        let x: Value = unboolean(s, a)?;
        let y: Value = unboolean(s, b)?;
        if matches!(x, Value::Obj(_)) && !matches!(y, Value::Obj(_)) && !y.is_nullish() {
            let p: Value = to_primitive(s, x, Hint::Default)?;
            let q: Value = unboolean(s, p)?;
            return loose_equals_plain(s, q, y);
        } else if matches!(y, Value::Obj(_)) && !matches!(x, Value::Obj(_)) && !x.is_nullish() {
            let p: Value = to_primitive(s, y, Hint::Default)?;
            let q: Value = unboolean(s, p)?;
            return loose_equals_plain(s, x, q);
        } else {
            return loose_equals_plain(s, x, y);
        }
    }
}

/// How two primitives compare for `<` and its kin.
pub open spec fn relate_values_step<'a>(l: Value, r: Value, w: World<'a>) -> Step<'a, Relation>
{
    match (l, r) {
        (Value::Str(_), Value::Str(_)) => {
            (Ok(units_relation(text_units(w.chars(l)), text_units(w.chars(r)))), w)
        },
        (Value::BigInt(_), Value::BigInt(_)) => (Ok(order_of(w.integer(l), w.integer(r))), w),
        (Value::BigInt(_), Value::Str(_)) => (Ok(relation_to_text(w.integer(l), w.chars(r))), w),
        (Value::Str(_), Value::BigInt(_)) => {
            (Ok(turned_round(relation_to_text(w.integer(r), w.chars(l)))), w)
        },
        (Value::BigInt(_), _) => {
            next(
                primitive_to_number_step(r, w),
                |n: u64, w: World<'a>| asks_relation(Request::Relate(l, Value::Num(n)), w),
            )
        },
        (_, Value::BigInt(_)) => {
            next(
                primitive_to_number_step(l, w),
                |n: u64, w: World<'a>| asks_relation(Request::Relate(Value::Num(n), r), w),
            )
        },
        _ => {
            next(
                primitive_to_number_step(l, w),
                |a: u64, w: World<'a>|
                    next(
                        primitive_to_number_step(r, w),
                        |b: u64, w: World<'a>| (Ok(number_relation(a, b)), w),
                    ),
            )
        },
    }
}

/// How two primitives compare for `<` and its kin.
pub fn relate_values<'h, 'a, H: Host<'a>>(
    s: &mut Session<'h, 'a, H>,
    l: Value,
    r: Value,
) -> (out: Result<Relation, Abrupt<'a>>)
    ensures
        final(s).continues(*old(s)),
        forall|answers: Answers<'a>| #[trigger]
            final(s).agrees(answers) ==> old(s).agrees(answers) && (out, final(s).world(answers))
                == relate_values_step(l, r, old(s).world(answers)),
{
    match (l, r) {
        (Value::Str(_), Value::Str(_)) => {
            return Ok(relate_units(s.chars(l), s.chars(r)));
        },
        (Value::BigInt(_), Value::BigInt(_)) => {
            return Ok(s.integer(l).relate(&s.integer(r)));
        },
        (Value::BigInt(_), Value::Str(_)) => {
            return Ok(text_relation(s.integer(l), s.chars(r)));
        },
        (Value::Str(_), Value::BigInt(_)) => {
            return Ok(turn_round(text_relation(s.integer(r), s.chars(l))));
        },
        (Value::BigInt(_), _) => {
            let n: u64 = primitive_to_number(s, r)?;
            return s.relation(Request::Relate(l, Value::Num(n)));
        },
        (_, Value::BigInt(_)) => {
            let n: u64 = primitive_to_number(s, l)?;
            return s.relation(Request::Relate(Value::Num(n), r));
        },
        _ => {
            let a: u64 = primitive_to_number(s, l)?;
            let b: u64 = primitive_to_number(s, r)?;
            return Ok(relate(a, b));
        },
    }
}

/// `<`, `>`, `<=` and `>=`: both sides become primitives, left first.
pub open spec fn compare_step<'a>(
    op: &'static str,
    l: Value,
    r: Value,
    w: World<'a>,
) -> Step<'a, Value>
{
    next(
        to_primitive_step(l, Hint::Number, w),
        |lp: Value, w: World<'a>|
            next(
                to_primitive_step(r, Hint::Number, w),
                |rp: Value, w: World<'a>|
                    next(
                        relate_values_step(lp, rp, w),
                        |rel: Relation, w: World<'a>| (Ok(Value::Bool(holds(op@, rel))), w),
                    ),
            ),
    )
}

/// `<`, `>`, `<=` and `>=`: both sides become primitives, left first.
pub fn compare<'h, 'a, H: Host<'a>>(
    s: &mut Session<'h, 'a, H>,
    op: &'static str,
    l: Value,
    r: Value,
) -> (out: Result<Value, Abrupt<'a>>)
    ensures
        final(s).continues(*old(s)),
        forall|answers: Answers<'a>| #[trigger]
            final(s).agrees(answers) ==> old(s).agrees(answers) && (out, final(s).world(answers))
                == compare_step(op, l, r, old(s).world(answers)),
{
    let lp: Value = to_primitive(s, l, Hint::Number)?;
    let rp: Value = to_primitive(s, r, Hint::Number)?;
    let rel: Relation = relate_values(s, lp, rp)?;
    return Ok(Value::Bool(relation_holds(op, rel)));
}

/// One link of a prototype chain walk. With `k` rounds left.
pub open spec fn in_chain_from<'a>(proto: Value, k: nat, cur: Value, w: World<'a>) -> Step<'a, bool>
    decreases k,
{
    if k == 0 {
        (Err(Abrupt::Stopped), w)
    } else {
        next(
            asks(Request::GetPrototype(cur), w),
            |p: Value, w: World<'a>|
                if !matches!(p, Value::Obj(_)) {
                    (Ok(false), w)
                } else if p == proto {
                    (Ok(true), w)
                } else {
                    in_chain_from(proto, (k - 1) as nat, p, w)
                },
        )
    }
}

/// One link of a prototype chain walk.
pub open spec fn in_chain_step<'a>(proto: Value, start: Value, w: World<'a>) -> Step<'a, bool>
{
    in_chain_from(proto, w.limit, start, w)
}

/// One link of a prototype chain walk.
pub fn in_chain<'h, 'a, H: Host<'a>>(
    s: &mut Session<'h, 'a, H>,
    proto: Value,
    start: Value,
) -> (out: Result<bool, Abrupt<'a>>)
    ensures
        final(s).continues(*old(s)),
        forall|answers: Answers<'a>| #[trigger]
            final(s).agrees(answers) ==> old(s).agrees(answers) && (out, final(s).world(answers))
                == in_chain_step(proto, start, old(s).world(answers)),
{
    let mut cur: Value = start;
    let mut k: u64 = s.limit();
    while k > 0
        invariant
            s.continues(*old(s)),
            k <= old(s).rounds(),
            forall|answers: Answers<'a>| #[trigger]
                s.agrees(answers) ==> old(s).agrees(answers)
                    && in_chain_step(proto, start, old(s).world(answers))
                    == in_chain_from(proto, k as nat, cur, s.world(answers)),
        decreases k,
    {
        let p: Value = s.value(Request::GetPrototype(cur))?;
        if !matches!(p, Value::Obj(_)) {
            return Ok(false);
        } else if p == proto {
            return Ok(true);
        } else {
            cur = p;
        }
        k = k - 1;
    }
    return Err(Abrupt::Stopped);
}

/// OrdinaryHasInstance: whether the function's `prototype` is on the object's prototype chain. With
/// `k` rounds left.
pub open spec fn ordinary_has_instance_from<'a>(
    o: Value,
    k: nat,
    cur: Value,
    w: World<'a>,
) -> Step<'a, bool>
    decreases k,
{
    if k == 0 {
        (Err(Abrupt::Stopped), w)
    } else {
        next(
            is_callable_step(cur, w),
            |ok: bool, w: World<'a>|
                if !ok {
                    (Ok(false), w)
                } else {
                    next(
                        asks(Request::BoundTarget(cur), w),
                        |target: Value, w: World<'a>|
                            if matches!(target, Value::Obj(_)) {
                                ordinary_has_instance_from(o, (k - 1) as nat, target, w)
                            } else if !matches!(o, Value::Obj(_)) {
                                (Ok(false), w)
                            } else {
                                next(
                                    asks(
                                        Request::GetMember { base: cur, key: Key::Fixed("prototype") },
                                        w,
                                    ),
                                    |proto: Value, w: World<'a>|
                                        if matches!(proto, Value::Obj(_)) {
                                            in_chain_step(proto, o, w)
                                        } else {
                                            throws(
                                                ErrorKind::TypeError,
                                                "prototype property is not an object",
                                                w,
                                            )
                                        },
                                )
                            },
                    )
                },
        )
    }
}

/// OrdinaryHasInstance: whether the function's `prototype` is on the object's prototype chain.
pub open spec fn ordinary_has_instance_step<'a>(o: Value, c: Value, w: World<'a>) -> Step<'a, bool>
{
    ordinary_has_instance_from(o, w.limit, c, w)
}

/// OrdinaryHasInstance: whether the function's `prototype` is on the object's prototype chain.
pub fn ordinary_has_instance<'h, 'a, H: Host<'a>>(
    s: &mut Session<'h, 'a, H>,
    o: Value,
    c: Value,
) -> (out: Result<bool, Abrupt<'a>>)
    ensures
        final(s).continues(*old(s)),
        forall|answers: Answers<'a>| #[trigger]
            final(s).agrees(answers) ==> old(s).agrees(answers) && (out, final(s).world(answers))
                == ordinary_has_instance_step(o, c, old(s).world(answers)),
{
    let mut cur: Value = c;
    let mut k: u64 = s.limit();
    while k > 0
        invariant
            s.continues(*old(s)),
            k <= old(s).rounds(),
            forall|answers: Answers<'a>| #[trigger]
                s.agrees(answers) ==> old(s).agrees(answers)
                    && ordinary_has_instance_step(o, c, old(s).world(answers))
                    == ordinary_has_instance_from(o, k as nat, cur, s.world(answers)),
        decreases k,
    {
        let ok: bool = is_callable(s, cur)?;
        if !ok {
            return Ok(false);
        }
        let target: Value = s.value(Request::BoundTarget(cur))?;
        if matches!(target, Value::Obj(_)) {
            cur = target;
        } else if !matches!(o, Value::Obj(_)) {
            return Ok(false);
        } else {
            let proto: Value = s.value(
                Request::GetMember { base: cur, key: Key::Fixed("prototype") },
            )?;
            if matches!(proto, Value::Obj(_)) {
                return in_chain(s, proto, o);
            } else {
                return throw(s, ErrorKind::TypeError, "prototype property is not an object");
            }
        }
        k = k - 1;
    }
    return Err(Abrupt::Stopped);
}

/// `instanceof`.
pub open spec fn instanceof_step<'a>(l: Value, r: Value, w: World<'a>) -> Step<'a, Value>
{
    if !matches!(r, Value::Obj(_)) {
        throws(ErrorKind::TypeError, "right-hand side of instanceof is not an object", w)
    } else {
        next(
            asks_handle(Request::WellKnownKey(WellKnown::HasInstance), w),
            |key: u64, w: World<'a>|
                next(
                    asks(Request::GetMember { base: r, key: Key::Symbol(key) }, w),
                    |handler: Value, w: World<'a>|
                        next(
                            is_callable_step(handler, w),
                            |ok: bool, w: World<'a>|
                                if ok {
                                    next(
                                        call_with_step(handler, r, l, w),
                                        |res: Value, w: World<'a>|
                                            next(
                                                to_boolean_step(res, w),
                                                |b: bool, w: World<'a>| (Ok(Value::Bool(b)), w),
                                            ),
                                    )
                                } else if !handler.is_nullish() {
                                    throws(ErrorKind::TypeError, "@@hasInstance is not callable", w)
                                } else {
                                    next(
                                        is_callable_step(r, w),
                                        |fine: bool, w: World<'a>|
                                            if !fine {
                                                throws(
                                                    ErrorKind::TypeError,
                                                    "right-hand side of instanceof is not callable",
                                                    w,
                                                )
                                            } else {
                                                next(
                                                    ordinary_has_instance_step(l, r, w),
                                                    |b: bool, w: World<'a>|
                                                        (Ok(Value::Bool(b)), w),
                                                )
                                            },
                                    )
                                },
                        ),
                ),
        )
    }
}

/// `instanceof`.
pub fn instanceof<'h, 'a, H: Host<'a>>(
    s: &mut Session<'h, 'a, H>,
    l: Value,
    r: Value,
) -> (out: Result<Value, Abrupt<'a>>)
    ensures
        final(s).continues(*old(s)),
        forall|answers: Answers<'a>| #[trigger]
            final(s).agrees(answers) ==> old(s).agrees(answers) && (out, final(s).world(answers))
                == instanceof_step(l, r, old(s).world(answers)),
{
    if !matches!(r, Value::Obj(_)) {
        return throw(s, ErrorKind::TypeError, "right-hand side of instanceof is not an object");
    }
    let key: u64 = s.handle(Request::WellKnownKey(WellKnown::HasInstance))?;
    let handler: Value = s.value(Request::GetMember { base: r, key: Key::Symbol(key) })?;
    let ok: bool = is_callable(s, handler)?;
    if ok {
        let res: Value = call_with(s, handler, r, l)?;
        let b: bool = to_boolean(s, res)?;
        return Ok(Value::Bool(b));
    } else if !handler.is_nullish() {
        return throw(s, ErrorKind::TypeError, "@@hasInstance is not callable");
    } else {
        let fine: bool = is_callable(s, r)?;
        if !fine {
            return throw(s, ErrorKind::TypeError, "right-hand side of instanceof is not callable");
        } else {
            let b: bool = ordinary_has_instance(s, l, r)?;
            return Ok(Value::Bool(b));
        }
    }
}

/// `in`.
pub open spec fn has_key_step<'a>(l: Value, r: Value, w: World<'a>) -> Step<'a, Value>
{
    if matches!(r, Value::Obj(_)) {
        next(
            to_property_key_step(l, w),
            |key: Key<'a>, w: World<'a>|
                next(
                    js_has_property_step(r, key, w),
                    |b: bool, w: World<'a>| (Ok(Value::Bool(b)), w),
                ),
        )
    } else {
        throws(ErrorKind::TypeError, "'in' requires an object on the right", w)
    }
}

/// `in`.
pub fn has_key<'h, 'a, H: Host<'a>>(
    s: &mut Session<'h, 'a, H>,
    l: Value,
    r: Value,
) -> (out: Result<Value, Abrupt<'a>>)
    ensures
        final(s).continues(*old(s)),
        forall|answers: Answers<'a>| #[trigger]
            final(s).agrees(answers) ==> old(s).agrees(answers) && (out, final(s).world(answers))
                == has_key_step(l, r, old(s).world(answers)),
{
    if matches!(r, Value::Obj(_)) {
        let key: Key<'a> = to_property_key(s, l)?;
        let b: bool = js_has_property(s, r, key)?;
        return Ok(Value::Bool(b));
    } else {
        return throw(s, ErrorKind::TypeError, "'in' requires an object on the right");
    }
}

/// An arithmetic or bitwise operator on two numbers.
pub open spec fn number_operate_step<'a>(
    op: &'static str,
    a: u64,
    b: u64,
    w: World<'a>,
) -> Step<'a, Value>
{
    if bitwise(op@) {
        (Ok(Value::Num(bitwise_result(op@, a, b))), w)
    } else if op@ == "%"@ {
        let easy: Option<u64> = easy_remainder(a, b);
        match easy {
            Some(n) => (Ok(Value::Num(n)), w),
            None => asks(Request::Arithmetic { op, left: a, right: b }, w),
        }
    } else {
        asks(Request::Arithmetic { op, left: a, right: b }, w)
    }
}

/// An arithmetic or bitwise operator on two numbers.
pub fn number_operate<'h, 'a, H: Host<'a>>(
    s: &mut Session<'h, 'a, H>,
    op: &'static str,
    a: u64,
    b: u64,
) -> (out: Result<Value, Abrupt<'a>>)
    ensures
        final(s).continues(*old(s)),
        forall|answers: Answers<'a>| #[trigger]
            final(s).agrees(answers) ==> old(s).agrees(answers) && (out, final(s).world(answers))
                == number_operate_step(op, a, b, old(s).world(answers)),
{
    if is_bitwise(op) {
        return Ok(Value::Num(bitwise_operate(op, a, b)));
    } else if same_text(op, "%") {
        let easy: Option<u64> = js_mod(a, b);
        match easy {
            Some(n) => {
                return Ok(Value::Num(n));
            },
            None => {
                return s.value(Request::Arithmetic { op, left: a, right: b });
            },
        }
    } else {
        return s.value(Request::Arithmetic { op, left: a, right: b });
    }
}

/// ToBigInt: a number is not converted, and a string must spell an integer.
pub open spec fn to_bigint_step<'a>(v: Value, w: World<'a>) -> Step<'a, Value>
{
    next(
        to_primitive_step(v, Hint::Number, w),
        |p: Value, w: World<'a>|
            match p {
                Value::BigInt(_) => (Ok(p), w),
                Value::Bool(b) => {
                    let n: Value = w.next_integer();
                    let w = w.add_integer(if b { 1int } else { 0int });
                    (Ok(n), w)
                },
                Value::Str(_) => {
                    let spelled: Option<int> = spelled_integer(w.chars(p));
                    match spelled {
                        Some(i) => {
                            let n: Value = w.next_integer();
                            let w = w.add_integer(i);
                            (Ok(n), w)
                        },
                        None => {
                            throws(ErrorKind::SyntaxError, "Cannot convert string to a BigInt", w)
                        },
                    }
                },
                Value::Num(_) => {
                    throws(ErrorKind::TypeError, "Cannot convert a Number to a BigInt", w)
                },
                _ => throws(ErrorKind::TypeError, "Cannot convert value to a BigInt", w),
            },
    )
}

/// ToBigInt: a number is not converted, and a string must spell an integer.
pub fn to_bigint<'h, 'a, H: Host<'a>>(
    s: &mut Session<'h, 'a, H>,
    v: Value,
) -> (out: Result<Value, Abrupt<'a>>)
    ensures
        final(s).continues(*old(s)),
        forall|answers: Answers<'a>| #[trigger]
            final(s).agrees(answers) ==> old(s).agrees(answers) && (out, final(s).world(answers))
                == to_bigint_step(v, old(s).world(answers)),
{
    let p: Value = to_primitive(s, v, Hint::Number)?;
    match p {
        Value::BigInt(_) => {
            return Ok(p);
        },
        Value::Bool(b) => {
            let n: Value = s.add_integer(JsBigInt::from_i64(if b { 1 } else { 0 }));
            return Ok(n);
        },
        Value::Str(_) => {
            let spelled: Option<JsBigInt> = string_to_bigint(s.chars(p));
            match spelled {
                Some(i) => {
                    let n: Value = s.add_integer(i);
                    return Ok(n);
                },
                None => {
                    return throw(s, ErrorKind::SyntaxError, "Cannot convert string to a BigInt");
                },
            }
        },
        Value::Num(_) => {
            return throw(s, ErrorKind::TypeError, "Cannot convert a Number to a BigInt");
        },
        _ => {
            return throw(s, ErrorKind::TypeError, "Cannot convert value to a BigInt");
        },
    }
}

/// A shift of a big integer. A negative count shifts the other way; to the right it rounds down.
pub open spec fn integer_shift_step<'a>(
    left: bool,
    l: Value,
    r: Value,
    w: World<'a>,
) -> Step<'a, Value>
{
    let away: Relation = order_of(w.integer(r), 0);
    let leftward: bool = left != matches!(away, Relation::Less);
    let count: u64 = magnitude_of(w.integer(r));
    let sign: Relation = order_of(w.integer(l), 0);
    if leftward {
        if matches!(sign, Relation::Equal) {
            let n: Value = w.next_integer();
            let w = w.add_integer(0int);
            (Ok(n), w)
        } else if count > 0x4000_0000 {
            throws(ErrorKind::RangeError, "BigInt is too large to allocate", w)
        } else {
            asks(Request::ShiftInteger { left: true, arg: l, count }, w)
        }
    } else if count >= 0x4000_0000 {
        if matches!(sign, Relation::Less) {
            let n: Value = w.next_integer();
            let w = w.add_integer(-1int);
            (Ok(n), w)
        } else {
            let n: Value = w.next_integer();
            let w = w.add_integer(0int);
            (Ok(n), w)
        }
    } else {
        asks(Request::ShiftInteger { left: false, arg: l, count }, w)
    }
}

/// A shift of a big integer. A negative count shifts the other way; to the right it rounds down.
pub fn integer_shift<'h, 'a, H: Host<'a>>(
    s: &mut Session<'h, 'a, H>,
    left: bool,
    l: Value,
    r: Value,
) -> (out: Result<Value, Abrupt<'a>>)
    ensures
        final(s).continues(*old(s)),
        forall|answers: Answers<'a>| #[trigger]
            final(s).agrees(answers) ==> old(s).agrees(answers) && (out, final(s).world(answers))
                == integer_shift_step(left, l, r, old(s).world(answers)),
{
    let away: Relation = s.integer(r).relate(&JsBigInt::zero());
    let leftward: bool = left != matches!(away, Relation::Less);
    let count: u64 = s.integer(r).magnitude();
    let sign: Relation = s.integer(l).relate(&JsBigInt::zero());
    if leftward {
        if matches!(sign, Relation::Equal) {
            let n: Value = s.add_integer(JsBigInt::zero());
            return Ok(n);
        } else if count > 0x4000_0000 {
            return throw(s, ErrorKind::RangeError, "BigInt is too large to allocate");
        } else {
            return s.value(Request::ShiftInteger { left: true, arg: l, count });
        }
    } else if count >= 0x4000_0000 {
        if matches!(sign, Relation::Less) {
            let n: Value = s.add_integer(JsBigInt::from_i64(-1));
            return Ok(n);
        } else {
            let n: Value = s.add_integer(JsBigInt::zero());
            return Ok(n);
        }
    } else {
        return s.value(Request::ShiftInteger { left: false, arg: l, count });
    }
}

/// An operator on two big integers.
pub open spec fn bigint_binop_step<'a>(
    op: &'static str,
    l: Value,
    r: Value,
    w: World<'a>,
) -> Step<'a, Value>
{
    if op@ == "/"@ || op@ == "%"@ {
        let sign: Relation = order_of(w.integer(r), 0);
        if matches!(sign, Relation::Equal) {
            throws(ErrorKind::RangeError, "Division by zero", w)
        } else {
            asks(Request::IntegerOperate { op, left: l, right: r }, w)
        }
    } else if op@ == "**"@ {
        let sign: Relation = order_of(w.integer(r), 0);
        if matches!(sign, Relation::Less) {
            throws(ErrorKind::RangeError, "Exponent must be non-negative", w)
        } else {
            asks(Request::IntegerOperate { op, left: l, right: r }, w)
        }
    } else if op@ == "<<"@ {
        integer_shift_step(true, l, r, w)
    } else if op@ == ">>"@ {
        integer_shift_step(false, l, r, w)
    } else if op@ == "+"@
        || op@ == "-"@
        || op@ == "*"@
        || op@ == "&"@
        || op@ == "|"@
        || op@ == "^"@
    {
        asks(Request::IntegerOperate { op, left: l, right: r }, w)
    } else {
        throws(ErrorKind::TypeError, "unsupported BigInt operator", w)
    }
}

/// An operator on two big integers.
#[verifier::spinoff_prover]
pub fn bigint_binop<'h, 'a, H: Host<'a>>(
    s: &mut Session<'h, 'a, H>,
    op: &'static str,
    l: Value,
    r: Value,
) -> (out: Result<Value, Abrupt<'a>>)
    ensures
        final(s).continues(*old(s)),
        forall|answers: Answers<'a>| #[trigger]
            final(s).agrees(answers) ==> old(s).agrees(answers) && (out, final(s).world(answers))
                == bigint_binop_step(op, l, r, old(s).world(answers)),
{
    if same_text(op, "/") || same_text(op, "%") {
        let sign: Relation = s.integer(r).relate(&JsBigInt::zero());
        if matches!(sign, Relation::Equal) {
            return throw(s, ErrorKind::RangeError, "Division by zero");
        } else {
            return s.value(Request::IntegerOperate { op, left: l, right: r });
        }
    } else if same_text(op, "**") {
        let sign: Relation = s.integer(r).relate(&JsBigInt::zero());
        if matches!(sign, Relation::Less) {
            return throw(s, ErrorKind::RangeError, "Exponent must be non-negative");
        } else {
            return s.value(Request::IntegerOperate { op, left: l, right: r });
        }
    } else if same_text(op, "<<") {
        return integer_shift(s, true, l, r);
    } else if same_text(op, ">>") {
        return integer_shift(s, false, l, r);
    } else if same_text(op, "+")
        || same_text(op, "-")
        || same_text(op, "*")
        || same_text(op, "&")
        || same_text(op, "|")
        || same_text(op, "^")
    {
        return s.value(Request::IntegerOperate { op, left: l, right: r });
    } else {
        return throw(s, ErrorKind::TypeError, "unsupported BigInt operator");
    }
}

/// An operator on two numeric values, which must both be big integers or both be numbers.
pub open spec fn numeric_operate_step<'a>(
    op: &'static str,
    l: Value,
    r: Value,
    w: World<'a>,
) -> Step<'a, Value>
{
    match (l, r) {
        (Value::BigInt(_), Value::BigInt(_)) => bigint_binop_step(op, l, r, w),
        (Value::Num(a), Value::Num(b)) => number_operate_step(op, a, b, w),
        _ => {
            throws(
                ErrorKind::TypeError,
                "Cannot mix BigInt and other types, use explicit conversions",
                w,
            )
        },
    }
}

/// An operator on two numeric values, which must both be big integers or both be numbers.
pub fn numeric_operate<'h, 'a, H: Host<'a>>(
    s: &mut Session<'h, 'a, H>,
    op: &'static str,
    l: Value,
    r: Value,
) -> (out: Result<Value, Abrupt<'a>>)
    ensures
        final(s).continues(*old(s)),
        forall|answers: Answers<'a>| #[trigger]
            final(s).agrees(answers) ==> old(s).agrees(answers) && (out, final(s).world(answers))
                == numeric_operate_step(op, l, r, old(s).world(answers)),
{
    match (l, r) {
        (Value::BigInt(_), Value::BigInt(_)) => {
            return bigint_binop(s, op, l, r);
        },
        (Value::Num(a), Value::Num(b)) => {
            return number_operate(s, op, a, b);
        },
        _ => {
            return throw(
                s,
                ErrorKind::TypeError,
                "Cannot mix BigInt and other types, use explicit conversions",
            );
        },
    }
}

/// Joins two strings, unless the text would be too long.
pub open spec fn concat_step<'a>(a: Value, b: Value, w: World<'a>) -> Step<'a, Value>
{
    if byte_length(w.chars(a)) + byte_length(w.chars(b)) > MAX_STR_LEN {
        throws(ErrorKind::RangeError, "Invalid string length", w)
    } else {
        let t: Value = w.next_text();
        let w = w.add_text(w.chars(a) + w.chars(b));
        (Ok(t), w)
    }
}

/// Joins two strings, unless the text would be too long.
pub fn concat<'h, 'a, H: Host<'a>>(
    s: &mut Session<'h, 'a, H>,
    a: Value,
    b: Value,
) -> (out: Result<Value, Abrupt<'a>>)
    ensures
        final(s).continues(*old(s)),
        forall|answers: Answers<'a>| #[trigger]
            final(s).agrees(answers) ==> old(s).agrees(answers) && (out, final(s).world(answers))
                == concat_step(a, b, old(s).world(answers)),
{
    if too_long(s.chars(a), s.chars(b)) {
        return throw(s, ErrorKind::RangeError, "Invalid string length");
    } else {
        let made_t = join(s.chars(a), s.chars(b));
        let t: Value = s.add_text(made_t);
        return Ok(t);
    }
}

/// `+`: joins strings if either side is one, and adds otherwise.
pub open spec fn plus_step<'a>(l: Value, r: Value, w: World<'a>) -> Step<'a, Value>
{
    next(
        to_primitive_step(l, Hint::Default, w),
        |lp: Value, w: World<'a>|
            next(
                to_primitive_step(r, Hint::Default, w),
                |rp: Value, w: World<'a>|
                    if matches!(lp, Value::Str(_)) || matches!(rp, Value::Str(_)) {
                        next(
                            primitive_to_text_step(lp, w),
                            |a: Value, w: World<'a>|
                                next(
                                    primitive_to_text_step(rp, w),
                                    |b: Value, w: World<'a>| concat_step(a, b, w),
                                ),
                        )
                    } else if matches!(lp, Value::BigInt(_)) || matches!(rp, Value::BigInt(_)) {
                        numeric_operate_step("+", lp, rp, w)
                    } else {
                        next(
                            primitive_to_number_step(lp, w),
                            |a: u64, w: World<'a>|
                                next(
                                    primitive_to_number_step(rp, w),
                                    |b: u64, w: World<'a>| number_operate_step("+", a, b, w),
                                ),
                        )
                    },
            ),
    )
}

/// `+`: joins strings if either side is one, and adds otherwise.
pub fn plus<'h, 'a, H: Host<'a>>(
    s: &mut Session<'h, 'a, H>,
    l: Value,
    r: Value,
) -> (out: Result<Value, Abrupt<'a>>)
    ensures
        final(s).continues(*old(s)),
        forall|answers: Answers<'a>| #[trigger]
            final(s).agrees(answers) ==> old(s).agrees(answers) && (out, final(s).world(answers))
                == plus_step(l, r, old(s).world(answers)),
{
    let lp: Value = to_primitive(s, l, Hint::Default)?;
    let rp: Value = to_primitive(s, r, Hint::Default)?;
    if matches!(lp, Value::Str(_)) || matches!(rp, Value::Str(_)) {
        let a: Value = primitive_to_text(s, lp)?;
        let b: Value = primitive_to_text(s, rp)?;
        return concat(s, a, b);
    } else if matches!(lp, Value::BigInt(_)) || matches!(rp, Value::BigInt(_)) {
        return numeric_operate(s, "+", lp, rp);
    } else {
        let a: u64 = primitive_to_number(s, lp)?;
        let b: u64 = primitive_to_number(s, rp)?;
        return number_operate(s, "+", a, b);
    }
}

/// A binary operator on two evaluated operands.
pub open spec fn binary_step<'a>(
    op: &'static str,
    l: Value,
    r: Value,
    w: World<'a>,
) -> Step<'a, Value>
{
    if op@ == "+"@ {
        plus_step(l, r, w)
    } else if arithmetic(op@) {
        next(
            to_numeric_step(l, w),
            |a: Value, w: World<'a>|
                next(
                    to_numeric_step(r, w),
                    |b: Value, w: World<'a>| numeric_operate_step(op, a, b, w),
                ),
        )
    } else if op@ == "=="@ {
        next(
            loose_equals_step(l, r, w),
            |b: bool, w: World<'a>| (Ok(Value::Bool(b)), w),
        )
    } else if op@ == "!="@ {
        next(
            loose_equals_step(l, r, w),
            |b: bool, w: World<'a>| (Ok(Value::Bool(!b)), w),
        )
    } else if op@ == "==="@ {
        next(
            strict_equals_step(l, r, w),
            |b: bool, w: World<'a>| (Ok(Value::Bool(b)), w),
        )
    } else if op@ == "!=="@ {
        next(
            strict_equals_step(l, r, w),
            |b: bool, w: World<'a>| (Ok(Value::Bool(!b)), w),
        )
    } else if op@ == "instanceof"@ {
        instanceof_step(l, r, w)
    } else if op@ == "in"@ {
        has_key_step(l, r, w)
    } else {
        compare_step(op, l, r, w)
    }
}

/// A binary operator on two evaluated operands.
#[verifier::spinoff_prover]
pub fn binary<'h, 'a, H: Host<'a>>(
    s: &mut Session<'h, 'a, H>,
    op: &'static str,
    l: Value,
    r: Value,
) -> (out: Result<Value, Abrupt<'a>>)
    ensures
        final(s).continues(*old(s)),
        forall|answers: Answers<'a>| #[trigger]
            final(s).agrees(answers) ==> old(s).agrees(answers) && (out, final(s).world(answers))
                == binary_step(op, l, r, old(s).world(answers)),
{
    if same_text(op, "+") {
        return plus(s, l, r);
    } else if is_arithmetic(op) {
        let a: Value = to_numeric(s, l)?;
        let b: Value = to_numeric(s, r)?;
        return numeric_operate(s, op, a, b);
    } else if same_text(op, "==") {
        let b: bool = loose_equals(s, l, r)?;
        return Ok(Value::Bool(b));
    } else if same_text(op, "!=") {
        let b: bool = loose_equals(s, l, r)?;
        return Ok(Value::Bool(!b));
    } else if same_text(op, "===") {
        let b: bool = strict_equals(s, l, r)?;
        return Ok(Value::Bool(b));
    } else if same_text(op, "!==") {
        let b: bool = strict_equals(s, l, r)?;
        return Ok(Value::Bool(!b));
    } else if same_text(op, "instanceof") {
        return instanceof(s, l, r);
    } else if same_text(op, "in") {
        return has_key(s, l, r);
    } else {
        return compare(s, op, l, r);
    }
}

/// A prefix operator on an evaluated operand; `typeof` and `delete` are not among them.
pub open spec fn prefix_operate_step<'a>(
    op: &'static str,
    v: Value,
    w: World<'a>,
) -> Step<'a, Value>
{
    if op@ == "!"@ {
        next(
            to_boolean_step(v, w),
            |b: bool, w: World<'a>| (Ok(Value::Bool(!b)), w),
        )
    } else if op@ == "void"@ {
        (Ok(Value::Undefined), w)
    } else if op@ == "+"@ {
        next(
            to_number_step(v, w),
            |n: u64, w: World<'a>| (Ok(Value::Num(n)), w),
        )
    } else {
        next(
            to_numeric_step(v, w),
            |x: Value, w: World<'a>|
                match x {
                    Value::Num(n) => {
                        if op@ == "-"@ {
                            (Ok(Value::Num(negated(n))), w)
                        } else {
                            (Ok(Value::Num(complemented(n))), w)
                        }
                    },
                    _ => {
                        let n: Value = w.next_integer();
                        let w = w.add_integer(-w.integer(x));
                        if op@ == "-"@ {
                            (Ok(n), w)
                        } else {
                            let one: Value = w.next_integer();
                            let w = w.add_integer(1int);
                            asks(Request::IntegerOperate { op: "-", left: n, right: one }, w)
                        }
                    },
                },
        )
    }
}

/// A prefix operator on an evaluated operand; `typeof` and `delete` are not among them.
pub fn prefix_operate<'h, 'a, H: Host<'a>>(
    s: &mut Session<'h, 'a, H>,
    op: &'static str,
    v: Value,
) -> (out: Result<Value, Abrupt<'a>>)
    ensures
        final(s).continues(*old(s)),
        forall|answers: Answers<'a>| #[trigger]
            final(s).agrees(answers) ==> old(s).agrees(answers) && (out, final(s).world(answers))
                == prefix_operate_step(op, v, old(s).world(answers)),
{
    if same_text(op, "!") {
        let b: bool = to_boolean(s, v)?;
        return Ok(Value::Bool(!b));
    } else if same_text(op, "void") {
        return Ok(Value::Undefined);
    } else if same_text(op, "+") {
        let n: u64 = to_number(s, v)?;
        return Ok(Value::Num(n));
    } else {
        let x: Value = to_numeric(s, v)?;
        match x {
            Value::Num(n) => {
                if same_text(op, "-") {
                    return Ok(Value::Num(negate(n)));
                } else {
                    return Ok(Value::Num(complement(n)));
                }
            },
            _ => {
                let made_n = s.integer(x).neg();
                let n: Value = s.add_integer(made_n);
                if same_text(op, "-") {
                    return Ok(n);
                } else {
                    let one: Value = s.add_integer(JsBigInt::from_i64(1));
                    return s.value(Request::IntegerOperate { op: "-", left: n, right: one });
                }
            },
        }
    }
}

/// The value one above or one below a numeric value.
pub open spec fn numeric_step_step<'a>(up: bool, v: Value, w: World<'a>) -> Step<'a, Value>
{
    match v {
        Value::Num(n) => {
            if up {
                asks(Request::Arithmetic { op: "+", left: n, right: ONE }, w)
            } else {
                asks(Request::Arithmetic { op: "-", left: n, right: ONE }, w)
            }
        },
        _ => {
            let one: Value = w.next_integer();
            let w = w.add_integer(1int);
            if up {
                asks(Request::IntegerOperate { op: "+", left: v, right: one }, w)
            } else {
                asks(Request::IntegerOperate { op: "-", left: v, right: one }, w)
            }
        },
    }
}

/// The value one above or one below a numeric value.
pub fn numeric_step<'h, 'a, H: Host<'a>>(
    s: &mut Session<'h, 'a, H>,
    up: bool,
    v: Value,
) -> (out: Result<Value, Abrupt<'a>>)
    ensures
        final(s).continues(*old(s)),
        forall|answers: Answers<'a>| #[trigger]
            final(s).agrees(answers) ==> old(s).agrees(answers) && (out, final(s).world(answers))
                == numeric_step_step(up, v, old(s).world(answers)),
{
    match v {
        Value::Num(n) => {
            if up {
                return s.value(Request::Arithmetic { op: "+", left: n, right: ONE });
            } else {
                return s.value(Request::Arithmetic { op: "-", left: n, right: ONE });
            }
        },
        _ => {
            let one: Value = s.add_integer(JsBigInt::from_i64(1));
            if up {
                return s.value(Request::IntegerOperate { op: "+", left: v, right: one });
            } else {
                return s.value(Request::IntegerOperate { op: "-", left: v, right: one });
            }
        },
    }
}

// ---- the iteration protocol

/// Adds the characters of a string to a list, as strings. With `k` rounds left.
pub open spec fn push_characters_from<'a>(
    text: Value,
    list: u64,
    k: nat,
    n: u64,
    w: World<'a>,
) -> Step<'a, ()>
    decreases k,
{
    if k == 0 {
        (Err(Abrupt::Stopped), w)
    } else {
        let piece: Option<Seq<char> > = char_at(w.chars(text), n);
        match piece {
            None => (Ok(()), w),
            Some(c) => {
                let t: Value = w.next_text();
                let w = w.add_text(c);
                let w = w.push(list, t);
                push_characters_from(text, list, (k - 1) as nat, bump(n), w)
            },
        }
    }
}

/// Adds the characters of a string to a list, as strings.
pub open spec fn push_characters_step<'a>(text: Value, list: u64, w: World<'a>) -> Step<'a, ()>
{
    push_characters_from(text, list, w.limit, 0, w)
}

/// Adds the characters of a string to a list, as strings.
pub fn push_characters<'h, 'a, H: Host<'a>>(
    s: &mut Session<'h, 'a, H>,
    text: Value,
    list: u64,
) -> (out: Result<(), Abrupt<'a>>)
    ensures
        final(s).continues(*old(s)),
        forall|answers: Answers<'a>| #[trigger]
            final(s).agrees(answers) ==> old(s).agrees(answers) && (out, final(s).world(answers))
                == push_characters_step(text, list, old(s).world(answers)),
{
    let mut n: u64 = 0;
    let mut k: u64 = s.limit();
    while k > 0
        invariant
            s.continues(*old(s)),
            k <= old(s).rounds(),
            forall|answers: Answers<'a>| #[trigger]
                s.agrees(answers) ==> old(s).agrees(answers)
                    && push_characters_step(text, list, old(s).world(answers))
                    == push_characters_from(text, list, k as nat, n, s.world(answers)),
        decreases k,
    {
        let piece: Option<String> = char_text(s.chars(text), n);
        match piece {
            None => {
                return Ok(());
            },
            Some(c) => {
                let t: Value = s.add_text(c);
                s.push(list, t);
                n = bumped(n);
            },
        }
        k = k - 1;
    }
    return Err(Abrupt::Stopped);
}

/// GetIterator: the iterator of a value and its `next` method, which is only read here and called
/// later.
pub open spec fn get_iterator_step<'a>(source: Value, w: World<'a>) -> Step<'a, (Value, Value)>
{
    next(
        if matches!(source, Value::Str(_)) {
            let chars: u64 = w.next_list();
            let w = w.new_list(Seq::empty());
            next(
                push_characters_step(source, chars, w),
                |u: (), w: World<'a>| asks(Request::ArrayOf { list: chars }, w),
            )
        } else {
            (Ok(source), w)
        },
        |v: Value, w: World<'a>|
            next(
                asks_handle(Request::WellKnownKey(WellKnown::Iterator), w),
                |key: u64, w: World<'a>|
                    next(
                        asks(Request::GetMember { base: v, key: Key::Symbol(key) }, w),
                        |method: Value, w: World<'a>|
                            next(
                                is_callable_step(method, w),
                                |ok: bool, w: World<'a>|
                                    if !ok {
                                        throws(ErrorKind::TypeError, "value is not iterable", w)
                                    } else {
                                        next(
                                            call_bare_step(method, v, w),
                                            |iter: Value, w: World<'a>|
                                                if !matches!(iter, Value::Obj(_)) {
                                                    throws(
                                                        ErrorKind::TypeError,
                                                        "@@iterator returned a non-object",
                                                        w,
                                                    )
                                                } else {
                                                    next(
                                                        asks(
                                                            Request::GetMember { base: iter, key: Key::Fixed("next") },
                                                            w,
                                                        ),
                                                        |n: Value, w: World<'a>|
                                                            (Ok((iter, n)), w),
                                                    )
                                                },
                                        )
                                    },
                            ),
                    ),
            ),
    )
}

/// GetIterator: the iterator of a value and its `next` method, which is only read here and called
/// later.
pub fn get_iterator<'h, 'a, H: Host<'a>>(
    s: &mut Session<'h, 'a, H>,
    source: Value,
) -> (out: Result<(Value, Value), Abrupt<'a>>)
    ensures
        final(s).continues(*old(s)),
        forall|answers: Answers<'a>| #[trigger]
            final(s).agrees(answers) ==> old(s).agrees(answers) && (out, final(s).world(answers))
                == get_iterator_step(source, old(s).world(answers)),
{
    let v: Value = if matches!(source, Value::Str(_)) {
        let chars: u64 = s.new_list(Vec::new());
        let u: () = push_characters(s, source, chars)?;
        s.value(Request::ArrayOf { list: chars })?
    } else {
        source
    };
    let key: u64 = s.handle(Request::WellKnownKey(WellKnown::Iterator))?;
    let method: Value = s.value(Request::GetMember { base: v, key: Key::Symbol(key) })?;
    let ok: bool = is_callable(s, method)?;
    if !ok {
        return throw(s, ErrorKind::TypeError, "value is not iterable");
    }
    let iter: Value = call_bare(s, method, v)?;
    if !matches!(iter, Value::Obj(_)) {
        return throw(s, ErrorKind::TypeError, "@@iterator returned a non-object");
    }
    let n: Value = s.value(Request::GetMember { base: iter, key: Key::Fixed("next") })?;
    return Ok((iter, n));
}

/// IteratorStep: the next value, or nothing when the iterator is done.
pub open spec fn iterator_step_step<'a>(
    iter: Value,
    method: Value,
    w: World<'a>,
) -> Step<'a, Option<Value>>
{
    next(
        call_bare_step(method, iter, w),
        |res: Value, w: World<'a>|
            if !matches!(res, Value::Obj(_)) {
                throws(ErrorKind::TypeError, "iterator result is not an object", w)
            } else {
                next(
                    asks(Request::GetMember { base: res, key: Key::Fixed("done") }, w),
                    |d: Value, w: World<'a>|
                        next(
                            to_boolean_step(d, w),
                            |done: bool, w: World<'a>|
                                if done {
                                    (Ok(None), w)
                                } else {
                                    next(
                                        asks(
                                            Request::GetMember { base: res, key: Key::Fixed("value") },
                                            w,
                                        ),
                                        |v: Value, w: World<'a>| (Ok(Some(v)), w),
                                    )
                                },
                        ),
                )
            },
    )
}

/// IteratorStep: the next value, or nothing when the iterator is done.
pub fn iterator_step<'h, 'a, H: Host<'a>>(
    s: &mut Session<'h, 'a, H>,
    iter: Value,
    method: Value,
) -> (out: Result<Option<Value>, Abrupt<'a>>)
    ensures
        final(s).continues(*old(s)),
        forall|answers: Answers<'a>| #[trigger]
            final(s).agrees(answers) ==> old(s).agrees(answers) && (out, final(s).world(answers))
                == iterator_step_step(iter, method, old(s).world(answers)),
{
    let res: Value = call_bare(s, method, iter)?;
    if !matches!(res, Value::Obj(_)) {
        return throw(s, ErrorKind::TypeError, "iterator result is not an object");
    }
    let d: Value = s.value(Request::GetMember { base: res, key: Key::Fixed("done") })?;
    let done: bool = to_boolean(s, d)?;
    if done {
        return Ok(None);
    } else {
        let v: Value = s.value(Request::GetMember { base: res, key: Key::Fixed("value") })?;
        return Ok(Some(v));
    }
}

/// IteratorClose on a throw: calls `return` if there is one and drops whatever comes of it.
pub open spec fn iterator_close_step<'a>(iter: Value, w: World<'a>) -> Step<'a, ()>
{
    let (r, w) = asks(Request::GetMember { base: iter, key: Key::Fixed("return") }, w);
    match r {
        Ok(f) => {
            let (c, w) = is_callable_step(f, w);
            match c {
                Ok(true) => {
                    let (u, w) = call_bare_step(f, iter, w);
                    (Ok(()), w)
                },
                _ => (Ok(()), w),
            }
        },
        Err(_) => (Ok(()), w),
    }
}

/// IteratorClose on a throw: calls `return` if there is one and drops whatever comes of it.
pub fn iterator_close<'h, 'a, H: Host<'a>>(
    s: &mut Session<'h, 'a, H>,
    iter: Value,
) -> (out: Result<(), Abrupt<'a>>)
    ensures
        final(s).continues(*old(s)),
        forall|answers: Answers<'a>| #[trigger]
            final(s).agrees(answers) ==> old(s).agrees(answers) && (out, final(s).world(answers))
                == iterator_close_step(iter, old(s).world(answers)),
{
    let r: Completion<'a> = s.value(Request::GetMember { base: iter, key: Key::Fixed("return") });
    match r {
        Ok(f) => {
            let c: Result<bool, Abrupt<'a>> = is_callable(s, f);
            match c {
                Ok(true) => {
                    let u: Completion<'a> = call_bare(s, f, iter);
                    return Ok(());
                },
                _ => {
                    return Ok(());
                },
            }
        },
        Err(_) => {
            return Ok(());
        },
    }
}

/// IteratorClose on any other completion: what goes wrong in `return` comes out.
pub open spec fn iterator_close_normal_step<'a>(iter: Value, w: World<'a>) -> Step<'a, ()>
{
    next(
        asks(Request::GetMember { base: iter, key: Key::Fixed("return") }, w),
        |f: Value, w: World<'a>|
            if f.is_nullish() {
                (Ok(()), w)
            } else {
                next(
                    is_callable_step(f, w),
                    |ok: bool, w: World<'a>|
                        if !ok {
                            throws(ErrorKind::TypeError, "iterator 'return' is not callable", w)
                        } else {
                            next(
                                call_bare_step(f, iter, w),
                                |r: Value, w: World<'a>|
                                    if matches!(r, Value::Obj(_)) {
                                        (Ok(()), w)
                                    } else {
                                        throws(
                                            ErrorKind::TypeError,
                                            "iterator 'return' must return an object",
                                            w,
                                        )
                                    },
                            )
                        },
                )
            },
    )
}

/// IteratorClose on any other completion: what goes wrong in `return` comes out.
pub fn iterator_close_normal<'h, 'a, H: Host<'a>>(
    s: &mut Session<'h, 'a, H>,
    iter: Value,
) -> (out: Result<(), Abrupt<'a>>)
    ensures
        final(s).continues(*old(s)),
        forall|answers: Answers<'a>| #[trigger]
            final(s).agrees(answers) ==> old(s).agrees(answers) && (out, final(s).world(answers))
                == iterator_close_normal_step(iter, old(s).world(answers)),
{
    let f: Value = s.value(Request::GetMember { base: iter, key: Key::Fixed("return") })?;
    if f.is_nullish() {
        return Ok(());
    }
    let ok: bool = is_callable(s, f)?;
    if !ok {
        return throw(s, ErrorKind::TypeError, "iterator 'return' is not callable");
    }
    let r: Value = call_bare(s, f, iter)?;
    if matches!(r, Value::Obj(_)) {
        return Ok(());
    } else {
        return throw(s, ErrorKind::TypeError, "iterator 'return' must return an object");
    }
}

/// Adds the values that an iterator still gives to a list. With `k` rounds left.
pub open spec fn drain_from<'a>(
    iter: Value,
    method: Value,
    list: u64,
    k: nat,
    n: u64,
    w: World<'a>,
) -> Step<'a, ()>
    decreases k,
{
    if k == 0 {
        (Err(Abrupt::Stopped), w)
    } else {
        next(
            iterator_step_step(iter, method, w),
            |v: Option<Value>, w: World<'a>|
                match v {
                    None => (Ok(()), w),
                    Some(x) => {
                        let w = w.push(list, x);
                        if n >= MAX_ARRAY_OP_LEN {
                            throws(ErrorKind::RangeError, "iterator produced too many values", w)
                        } else {
                            drain_from(iter, method, list, (k - 1) as nat, (n + 1) as u64, w)
                        }
                    },
                },
        )
    }
}

/// Adds the values that an iterator still gives to a list.
pub open spec fn drain_step<'a>(iter: Value, method: Value, list: u64, w: World<'a>) -> Step<'a, ()>
{
    drain_from(iter, method, list, w.limit, 0, w)
}

/// Adds the values that an iterator still gives to a list.
pub fn drain<'h, 'a, H: Host<'a>>(
    s: &mut Session<'h, 'a, H>,
    iter: Value,
    method: Value,
    list: u64,
) -> (out: Result<(), Abrupt<'a>>)
    ensures
        final(s).continues(*old(s)),
        forall|answers: Answers<'a>| #[trigger]
            final(s).agrees(answers) ==> old(s).agrees(answers) && (out, final(s).world(answers))
                == drain_step(iter, method, list, old(s).world(answers)),
{
    let mut n: u64 = 0;
    let mut k: u64 = s.limit();
    while k > 0
        invariant
            s.continues(*old(s)),
            k <= old(s).rounds(),
            forall|answers: Answers<'a>| #[trigger]
                s.agrees(answers) ==> old(s).agrees(answers)
                    && drain_step(iter, method, list, old(s).world(answers))
                    == drain_from(iter, method, list, k as nat, n, s.world(answers)),
        decreases k,
    {
        let v: Option<Value> = iterator_step(s, iter, method)?;
        match v {
            None => {
                return Ok(());
            },
            Some(x) => {
                s.push(list, x);
                if n >= MAX_ARRAY_OP_LEN {
                    return throw(s, ErrorKind::RangeError, "iterator produced too many values");
                } else {
                    n = n + 1;
                }
            },
        }
        k = k - 1;
    }
    return Err(Abrupt::Stopped);
}

/// Adds the elements of an array to a list. With `k` rounds left.
pub open spec fn push_elements_from<'a>(
    array: Value,
    length: u64,
    list: u64,
    k: nat,
    n: u64,
    w: World<'a>,
) -> Step<'a, ()>
    decreases k,
{
    if k == 0 {
        (Err(Abrupt::Stopped), w)
    } else {
        if n >= length {
            (Ok(()), w)
        } else {
            next(
                asks(Request::GetMember { base: array, key: Key::Index(n) }, w),
                |v: Value, w: World<'a>| {
                    let w = w.push(list, v);
                    push_elements_from(array, length, list, (k - 1) as nat, (n + 1) as u64, w)
                },
            )
        }
    }
}

/// Adds the elements of an array to a list.
pub open spec fn push_elements_step<'a>(
    array: Value,
    length: u64,
    list: u64,
    w: World<'a>,
) -> Step<'a, ()>
{
    push_elements_from(array, length, list, w.limit, 0, w)
}

/// Adds the elements of an array to a list.
pub fn push_elements<'h, 'a, H: Host<'a>>(
    s: &mut Session<'h, 'a, H>,
    array: Value,
    length: u64,
    list: u64,
) -> (out: Result<(), Abrupt<'a>>)
    ensures
        final(s).continues(*old(s)),
        forall|answers: Answers<'a>| #[trigger]
            final(s).agrees(answers) ==> old(s).agrees(answers) && (out, final(s).world(answers))
                == push_elements_step(array, length, list, old(s).world(answers)),
{
    let mut n: u64 = 0;
    let mut k: u64 = s.limit();
    while k > 0
        invariant
            s.continues(*old(s)),
            k <= old(s).rounds(),
            forall|answers: Answers<'a>| #[trigger]
                s.agrees(answers) ==> old(s).agrees(answers)
                    && push_elements_step(array, length, list, old(s).world(answers))
                    == push_elements_from(array, length, list, k as nat, n, s.world(answers)),
        decreases k,
    {
        if n >= length {
            return Ok(());
        } else {
            let v: Value = s.value(Request::GetMember { base: array, key: Key::Index(n) })?;
            s.push(list, v);
            n = n + 1;
        }
        k = k - 1;
    }
    return Err(Abrupt::Stopped);
}

/// Drives the iteration protocol with a method that was read already, adding every value to a list.
pub open spec fn iterate_with_step<'a>(
    v: Value,
    method: Value,
    list: u64,
    w: World<'a>,
) -> Step<'a, ()>
{
    next(
        call_bare_step(method, v, w),
        |iter: Value, w: World<'a>|
            next(
                asks(Request::GetMember { base: iter, key: Key::Fixed("next") }, w),
                |n: Value, w: World<'a>|
                    next(
                        is_callable_step(n, w),
                        |ok: bool, w: World<'a>|
                            if ok {
                                drain_step(iter, n, list, w)
                            } else {
                                throws(ErrorKind::TypeError, "iterator.next is not a function", w)
                            },
                    ),
            ),
    )
}

/// Drives the iteration protocol with a method that was read already, adding every value to a list.
pub fn iterate_with<'h, 'a, H: Host<'a>>(
    s: &mut Session<'h, 'a, H>,
    v: Value,
    method: Value,
    list: u64,
) -> (out: Result<(), Abrupt<'a>>)
    ensures
        final(s).continues(*old(s)),
        forall|answers: Answers<'a>| #[trigger]
            final(s).agrees(answers) ==> old(s).agrees(answers) && (out, final(s).world(answers))
                == iterate_with_step(v, method, list, old(s).world(answers)),
{
    let iter: Value = call_bare(s, method, v)?;
    let n: Value = s.value(Request::GetMember { base: iter, key: Key::Fixed("next") })?;
    let ok: bool = is_callable(s, n)?;
    if ok {
        return drain(s, iter, n, list);
    } else {
        return throw(s, ErrorKind::TypeError, "iterator.next is not a function");
    }
}

/// Adds every value of an iterable to a list. A string gives its characters and an array its
/// elements without the protocol.
pub open spec fn iterate_step<'a>(v: Value, list: u64, w: World<'a>) -> Step<'a, ()>
{
    if matches!(v, Value::Str(_)) {
        push_characters_step(v, list, w)
    } else {
        next(
            if matches!(v, Value::Obj(_)) {
                asks_flag(Request::IsArray(v), w)
            } else {
                (Ok(false), w)
            },
            |array: bool, w: World<'a>|
                if array {
                    next(
                        asks_handle(Request::ArrayLength(v), w),
                        |length: u64, w: World<'a>| push_elements_step(v, length, list, w),
                    )
                } else {
                    next(
                        asks_handle(Request::WellKnownKey(WellKnown::Iterator), w),
                        |key: u64, w: World<'a>|
                            next(
                                asks(Request::GetMember { base: v, key: Key::Symbol(key) }, w),
                                |method: Value, w: World<'a>|
                                    next(
                                        is_callable_step(method, w),
                                        |ok: bool, w: World<'a>|
                                            if ok {
                                                iterate_with_step(v, method, list, w)
                                            } else {
                                                throws(
                                                    ErrorKind::TypeError,
                                                    "value is not iterable",
                                                    w,
                                                )
                                            },
                                    ),
                            ),
                    )
                },
        )
    }
}

/// Adds every value of an iterable to a list. A string gives its characters and an array its
/// elements without the protocol.
pub fn iterate<'h, 'a, H: Host<'a>>(
    s: &mut Session<'h, 'a, H>,
    v: Value,
    list: u64,
) -> (out: Result<(), Abrupt<'a>>)
    ensures
        final(s).continues(*old(s)),
        forall|answers: Answers<'a>| #[trigger]
            final(s).agrees(answers) ==> old(s).agrees(answers) && (out, final(s).world(answers))
                == iterate_step(v, list, old(s).world(answers)),
{
    if matches!(v, Value::Str(_)) {
        return push_characters(s, v, list);
    }
    let array: bool = if matches!(v, Value::Obj(_)) {
        s.flag(Request::IsArray(v))?
    } else {
        false
    };
    if array {
        let length: u64 = s.handle(Request::ArrayLength(v))?;
        return push_elements(s, v, length, list);
    } else {
        let key: u64 = s.handle(Request::WellKnownKey(WellKnown::Iterator))?;
        let method: Value = s.value(Request::GetMember { base: v, key: Key::Symbol(key) })?;
        let ok: bool = is_callable(s, method)?;
        if ok {
            return iterate_with(s, v, method, list);
        } else {
            return throw(s, ErrorKind::TypeError, "value is not iterable");
        }
    }
}

} // verus!
