//! What holds of expressions, whatever the host answers.
use vstd::prelude::*;

use crate::ast::{ArrayElem, ArrayPatElem, Class, Expr, ObjPatProp, Pattern, PropDef, PropKey};
use crate::grammar::Symbol;
use crate::interp::eval::{
    base_op, bind_elem_step, bind_elems_from, bind_pattern_step, bind_prop_step, call_located_step,
    close_after_step, default_for_step, define_value_step, eval_access_step, eval_args_step,
    eval_assign_step, eval_call_step, eval_for_target_step, eval_named_step, eval_object_step,
    eval_operator_step, eval_prop_key_step, eval_sequence_from, eval_step, eval_typeof_step,
    eval_unary_step, eval_update_step, eval_wrapping_step, fill_object_from, fill_object_step,
    get_reference_step, locate_step, locate_super_step, logical_assign, private_name, pull_step,
    push_args_from, push_args_step, push_elems_from, put_reference_step, resolve_reference_step,
    with_default_step, BindMode, RefKey, Reference, Target,
};
use crate::interp::object::{
    get_var_step, get_var_with_from, resolve_name_from, resolve_name_step, super_base_step,
    RefBase,
};
use crate::interp::operate::{
    binary_step, iterate_step, iterator_close_normal_step, iterator_step_step, numeric_step_step,
    prefix_operate_step, to_boolean_step, to_string_step, type_of_step,
};
use crate::interp::operator_laws::operators_differ;
use crate::interp::promise::coro_await_step;
use crate::interp::promise_laws::said;
use crate::interp::session::{Abrupt, Answer, Env, ErrorKind, Key, Name, Request, Value, World};
use crate::modules::resolve::Found;
use crate::number::ONE;
use crate::scan::anonymous_fn;
use crate::scope::{BindingView, Put, Scope, ScopesView, Stop};
use crate::value::props::Property;

verus! {

// ---- literals and names

/// Literals are their values, and a parenthesized expression is the one inside.
pub proof fn literals_are_values<'a>(e: &'a Expr, env: Env, depth: u64, w: World<'a>)
    ensures
        e matches Expr::Num(n) ==> eval_step(e, env, depth, w) == (
            Ok::<Value, Abrupt<'a>>(Value::Num(*n)),
            w,
        ),
        e matches Expr::Bool(b) ==> eval_step(e, env, depth, w) == (
            Ok::<Value, Abrupt<'a>>(Value::Bool(*b)),
            w,
        ),
        e is Null ==> eval_step(e, env, depth, w) == (Ok::<Value, Abrupt<'a>>(Value::Null), w),
        e is Undefined ==> eval_step(e, env, depth, w) == (
            Ok::<Value, Abrupt<'a>>(Value::Undefined),
            w,
        ),
        e matches Expr::Str(t) ==> (w.texts.len() < u64::MAX ==> ({
            let (r, after) = eval_step(e, env, depth, w);
            r matches Ok(v) && v is Str && after.chars(v) == t@ && after.asked == w.asked
        })),
        e matches Expr::BigInt(n) ==> (w.integers.len() < u64::MAX ==> ({
            let (r, after) = eval_step(e, env, depth, w);
            r matches Ok(v) && v is BigInt && after.integer(v) == n@ && after.asked == w.asked
        })),
        e matches Expr::Paren(x) ==> eval_step(e, env, depth, w) == eval_step(&**x, env, depth, w),
        e matches Expr::Func(f) ==> eval_step(e, env, depth, w).1.asked == w.asked.push(
            Request::MakeFunction { func: &**f, env },
        ),
{
    if let Expr::Paren(x) = e {
        assert(eval_step(e, env, depth, w) == eval_step(&**x, env, depth, w));
    }
}

/// A name that a scope binds plainly reads as its value, and nothing is asked for.
pub proof fn names_read<'a>(
    e: &'a Expr,
    name: &'a String,
    at: Env,
    env: Env,
    depth: u64,
    w: World<'a>,
)
    requires
        *e == Expr::Ident(*name),
        w.limit > 0,
        w.scopes.stop(env, name@) == Stop::Scope(at),
        w.scopes.plain_at(at, name@),
    ensures
        eval_step(e, env, depth, w) == (Ok::<Value, Abrupt<'a>>(w.scopes.value_in(at, name@)), w),
{
    reveal_with_fuel(get_var_with_from, 2);
    assert(get_var_step(Name::Source(name), env, w) == eval_step(e, env, depth, w));
}

/// A name that is not initialized yet cannot be read: that is a `ReferenceError`.
pub proof fn dead_names_are_refused<'a>(name: Name<'a>, at: Env, env: Env, w: World<'a>)
    requires
        w.limit > 0,
        w.scopes.stop(env, name.chars()) == Stop::Scope(at),
        w.scopes.binds(at, name.chars()),
        !w.scopes.binding_at(at, name.chars()).initialized,
    ensures
        ({
            let (r, after) = get_var_step(name, env, w);
            &&& !(r is Ok)
            &&& after.asked.last() matches Request::MakeError { kind, .. } && kind
                == ErrorKind::ReferenceError
        }),
{
    reveal_with_fuel(get_var_with_from, 2);
}

// ---- operators

/// A binary operator evaluates its left operand and then its right one, and operates on both values.
pub proof fn operands_are_evaluated_in_order<'a>(e: &'a Expr, env: Env, depth: u64, w: World<'a>)
    requires
        e is Binary,
    ensures
        e matches Expr::Binary { op, left, right } && {
            let (l, w1) = eval_step(&**left, env, depth, w);
            let (r, w2) = eval_step(&**right, env, depth, w1);
            &&& l matches Err(a) ==> eval_step(e, env, depth, w) == (Err::<Value, Abrupt<'a>>(a), w1)
            &&& l is Ok && (r matches Err(a)) ==> eval_step(e, env, depth, w) == (
                Err::<Value, Abrupt<'a>>(r->Err_0),
                w2,
            )
            &&& l is Ok && r is Ok ==> eval_step(e, env, depth, w) == binary_step(
                op,
                l->Ok_0,
                r->Ok_0,
                w2,
            )
        },
{
    assert(eval_operator_step(e, env, depth, w) == eval_step(e, env, depth, w));
}

/// A conditional expression is the value of the branch that its test chooses.
pub proof fn conditions_choose<'a>(e: &'a Expr, env: Env, depth: u64, w: World<'a>)
    requires
        e is Cond,
    ensures
        e matches Expr::Cond { test, cons, alt } && {
            let (t, w1) = eval_step(&**test, env, depth, w);
            t matches Ok(x) ==> {
                let (b, w2) = to_boolean_step(x, w1);
                &&& b == Ok::<bool, Abrupt<'a>>(true) ==> eval_step(e, env, depth, w) == eval_step(
                    &**cons,
                    env,
                    depth,
                    w2,
                )
                &&& b == Ok::<bool, Abrupt<'a>>(false) ==> eval_step(e, env, depth, w) == eval_step(
                    &**alt,
                    env,
                    depth,
                    w2,
                )
            }
        },
{
    assert(eval_operator_step(e, env, depth, w) == eval_step(e, env, depth, w));
}

/// `&&` is its left operand where that counts as false, `||` where it counts as true and `??` where it is
/// neither `undefined` nor `null`; else it is the right operand.
pub proof fn logical_operators_choose<'a>(e: &'a Expr, env: Env, depth: u64, w: World<'a>)
    requires
        e is Logical,
    ensures
        e matches Expr::Logical { op, left, right } && {
            let (l, w1) = eval_step(&**left, env, depth, w);
            l matches Ok(x) ==> {
                let (b, w2) = to_boolean_step(x, w1);
                let same = (Ok::<Value, Abrupt<'a>>(x), w2);
                let all = eval_step(e, env, depth, w);
                &&& op@ == "&&"@ && b == Ok::<bool, Abrupt<'a>>(true) ==> all == eval_step(
                    &**right,
                    env,
                    depth,
                    w2,
                )
                &&& op@ == "&&"@ && b == Ok::<bool, Abrupt<'a>>(false) ==> all == same
                &&& op@ == "||"@ && b == Ok::<bool, Abrupt<'a>>(true) ==> all == same
                &&& op@ == "||"@ && b == Ok::<bool, Abrupt<'a>>(false) ==> all == eval_step(
                    &**right,
                    env,
                    depth,
                    w2,
                )
                &&& op@ == "??"@ && (x is Undefined || x is Null) ==> all == eval_step(
                    &**right,
                    env,
                    depth,
                    w1,
                )
                &&& op@ == "??"@ && !(x is Undefined || x is Null) ==> all == (
                    Ok::<Value, Abrupt<'a>>(x),
                    w1,
                )
            }
        },
{
    operators_differ();
    assert(eval_operator_step(e, env, depth, w) == eval_step(e, env, depth, w));
}

/// A prefix operator other than `typeof` and `delete` operates on the value of its operand.
pub proof fn prefix_operands_are_evaluated<'a>(e: &'a Expr, env: Env, depth: u64, w: World<'a>)
    requires
        e matches Expr::Unary { op, .. } && op@ != "typeof"@ && op@ != "delete"@,
    ensures
        e matches Expr::Unary { op, arg } && {
            let (v, w1) = eval_step(&**arg, env, depth, w);
            &&& v matches Ok(x) ==> eval_step(e, env, depth, w) == prefix_operate_step(op, x, w1)
            &&& v matches Err(a) ==> eval_step(e, env, depth, w) == (Err::<Value, Abrupt<'a>>(a), w1)
        },
{
    assert(eval_unary_step(e, env, depth, w) == eval_operator_step(e, env, depth, w));
    assert(eval_operator_step(e, env, depth, w) == eval_step(e, env, depth, w));
}

/// `typeof` of a name that nothing binds is the text `undefined`, where reading the name fails; of any
/// other expression it is the name of its value's type.
pub proof fn typeof_never_misses<'a>(e: &'a Expr, env: Env, depth: u64, w: World<'a>)
    requires
        e matches Expr::Unary { op, .. } && op@ == "typeof"@,
    ensures
        e matches Expr::Unary { arg, .. } && {
            match &**arg {
                Expr::Ident(name) => {
                    let (v, w1) = get_var_step(Name::Source(name), env, w);
                    &&& v matches Ok(x) ==> eval_step(e, env, depth, w) == type_of_step(x, w1)
                    &&& v is Err && !w1.scopes.uninitialized(env, name@, u64::MAX)
                        && w1.texts.len() < u64::MAX ==> ({
                        let (r, after) = eval_step(e, env, depth, w);
                        r matches Ok(t) && t is Str && after.chars(t) == "undefined"@
                    })
                    &&& v is Err && w1.scopes.uninitialized(env, name@, u64::MAX) ==> eval_step(
                        e,
                        env,
                        depth,
                        w,
                    ) == (v, w1)
                },
                _ => {
                    let (v, w1) = eval_step(&**arg, env, depth, w);
                    v matches Ok(x) ==> eval_step(e, env, depth, w) == type_of_step(x, w1)
                },
            }
        },
{
    operators_differ();
    if let Expr::Unary { op, arg } = e {
        assert(eval_typeof_step(&**arg, env, depth, w) == eval_unary_step(e, env, depth, w));
    }
    assert(eval_unary_step(e, env, depth, w) == eval_operator_step(e, env, depth, w));
    assert(eval_operator_step(e, env, depth, w) == eval_step(e, env, depth, w));
}

// ---- updates

/// `++` and `--` on a variable that holds a number: the host adds or subtracts one, and the variable reads
/// as what came of it. The prefix form gives that value, and the postfix form the number that was there.
pub proof fn updates_of_variables<'a>(
    e: &'a Expr,
    name: &'a String,
    at: Env,
    x: u64,
    y: Value,
    env: Env,
    depth: u64,
    w: World<'a>,
)
    requires
        e matches Expr::Update { op, arg, .. } && *arg == Expr::Ident(*name) && (op@ == "++"@ || op@
            == "--"@),
        w.limit > 0,
        w.scopes.stop(env, name@) == Stop::Scope(at),
        w.scopes.plain_at(at, name@),
        w.scopes.put_view(at, name@, w.strict) == Put::Stored,
        w.scopes.value_in(at, name@) == Value::Num(x),
        said(w, w.asked.len()) == Answer::<'a>::Value(y),
    ensures
        e matches Expr::Update { op, prefix, .. } && {
            let (r, after) = eval_step(e, env, depth, w);
            &&& after.asked == w.asked.push(
                Request::Arithmetic {
                    op: if op@ == "++"@ {
                        "+"
                    } else {
                        "-"
                    },
                    left: x,
                    right: ONE,
                },
            )
            &&& get_var_step(Name::Source(name), env, after).0 == Ok::<Value, Abrupt<'a>>(y)
            &&& *prefix ==> r == get_var_step(Name::Source(name), env, after).0
            &&& !*prefix ==> r == get_var_step(Name::Source(name), env, w).0
        },
{
    operators_differ();
    let n = Name::Source(name);
    reveal_with_fuel(resolve_name_from, 2);
    reveal_with_fuel(get_var_with_from, 2);
    if let Expr::Update { op, prefix, arg } = e {
        assert(resolve_name_step(name, env, w) == (Ok::<RefBase, Abrupt<'a>>(RefBase::Scope(at)), w));
        let place = Reference::Var { place: RefBase::Scope(at), name };
        assert(resolve_reference_step(&**arg, env, depth, w) == (
            Ok::<Reference<'a>, Abrupt<'a>>(place),
            w,
        ));
        assert(w.scopes.binds(at, name@)) by {
            lemma_stop_found(w.scopes, env, name@);
        }
        assert(get_reference_step(place, w) == (
            Ok::<(Value, Reference<'a>), Abrupt<'a>>((Value::Num(x), place)),
            w,
        ));
        let sign = if op@ == "++"@ {
            "+"
        } else {
            "-"
        };
        let w1 = w.ask(Request::Arithmetic { op: sign, left: x, right: ONE }).1;
        assert(numeric_step_step(op@ == "++"@, Value::Num(x), w) == (
            Ok::<Value, Abrupt<'a>>(y),
            w1,
        ));
        let after = w1.store_var(at, n, y);
        assert(put_reference_step(place, y, w1) == (Ok::<(), Abrupt<'a>>(()), after));
        assert(eval_update_step(e, env, depth, w).1 == after);
        lemma_stored_reads(n, at, env, y, w1);
        assert(eval_update_step(e, env, depth, w) == eval_operator_step(e, env, depth, w));
        assert(eval_operator_step(e, env, depth, w) == eval_step(e, env, depth, w));
    }
}

/// A search that stops at a scope has found a binding there.
proof fn lemma_stop_found<'a>(s: ScopesView<'a>, env: Env, name: Seq<char>)
    ensures
        s.stop(env, name) matches Stop::Scope(e) ==> s.binds(e, name),
    decreases env,
{
    if let Some(p) = s.around(env) {
        lemma_stop_found(s, p, name);
    }
}

/// A binding that was found keeps its place when it takes a value, and then reads as that value.
proof fn lemma_stored_reads<'a>(name: Name<'a>, at: Env, env: Env, v: Value, w: World<'a>)
    requires
        w.limit > 0,
        w.scopes.stop(env, name.chars()) == Stop::Scope(at),
        w.scopes.plain_at(at, name.chars()),
    ensures
        ({
            let after = w.store_var(at, name, v);
            get_var_step(name, env, after) == (Ok::<Value, Abrupt<'a>>(v), after)
        }),
{
    let n = name.chars();
    lemma_stop_found(w.scopes, env, n);
    let after = w.store_var(at, name, v);
    let b = BindingView { value: v, initialized: true, ..w.scopes.scopes[at as int].vars[n] };
    lemma_stop_kept(w.scopes, at, n, b, env);
    assert(after.scopes.binds(at, n));
    assert(after.scopes.binding_at(at, n) == b);
    reveal_with_fuel(get_var_with_from, 2);
}

/// Giving a bound name another value does not move it.
proof fn lemma_stop_kept<'a>(
    s: ScopesView<'a>,
    e: Env,
    name: Seq<char>,
    b: BindingView<'a>,
    env: Env,
)
    requires
        s.binds(e, name),
    ensures
        s.bound(e, name, b).stop(env, name) == s.stop(env, name),
    decreases env,
{
    let t = s.bound(e, name, b);
    assert(t.binds(env, name) == s.binds(env, name));
    assert(t.around(env) == s.around(env));
    if let Some(p) = s.around(env) {
        lemma_stop_kept(s, e, name, b, p);
    }
}

/// `++` and `--` on a property that holds a number: the property is read once, the host adds or subtracts
/// one, and what came of it is written to the same property of the same object. The prefix form gives the
/// value that was written, and the postfix form the number that was read.
pub proof fn updates_of_properties<'a>(
    e: &'a Expr,
    obj: &'a Expr,
    prop: &'a String,
    base: Value,
    x: u64,
    y: Value,
    env: Env,
    depth: u64,
    w: World<'a>,
)
    requires
        e matches Expr::Update { op, arg, .. } && *arg == (Expr::Member {
            obj: Box::new(*obj),
            prop: *prop,
            optional: false,
        }) && (op@ == "++"@ || op@ == "--"@),
        !(obj is Super),
        !private_name(prop@),
        eval_step(obj, env, depth, w).0 == Ok::<Value, Abrupt<'a>>(base),
        ({
            let w1 = eval_step(obj, env, depth, w).1;
            &&& said(w1, w1.asked.len()) == Answer::<'a>::Value(Value::Num(x))
            &&& said(w1, w1.asked.len() + 1) == Answer::<'a>::Value(y)
            &&& said(w1, w1.asked.len() + 2) is Value
        }),
    ensures
        e matches Expr::Update { op, prefix, .. } && {
            let w1 = eval_step(obj, env, depth, w).1;
            let n = w1.asked.len() as int;
            let (r, after) = eval_step(e, env, depth, w);
            &&& after.asked[n] == (Request::GetMember { base, key: Key::Source(prop) })
            &&& after.asked[n + 1] matches Request::Arithmetic { op: sign, left, right } && left == x
                && right == ONE && (op@ == "++"@ ==> sign@ == "+"@) && (op@ == "--"@ ==> sign@
                == "-"@)
            &&& after.asked[n + 2] matches Request::SetMember { base: b, key, value, .. } && b == base
                && key == Key::Source(prop) && value == y
            &&& *prefix ==> r == Ok::<Value, Abrupt<'a>>(y)
            &&& !*prefix ==> r == Ok::<Value, Abrupt<'a>>(Value::Num(x))
        },
{
    operators_differ();
    if let Expr::Update { op, prefix, arg } = e {
        let w1 = eval_step(obj, env, depth, w).1;
        let place = Reference::Property { base, key: RefKey::Known(Key::Source(prop)) };
        assert(resolve_reference_step(&**arg, env, depth, w) == (
            Ok::<Reference<'a>, Abrupt<'a>>(place),
            w1,
        ));
        let w2 = w1.ask(Request::GetMember { base, key: Key::Source(prop) }).1;
        assert(get_reference_step(place, w1) == (
            Ok::<(Value, Reference<'a>), Abrupt<'a>>((Value::Num(x), place)),
            w2,
        ));
        let w3 = numeric_step_step(op@ == "++"@, Value::Num(x), w2).1;
        assert(put_reference_step(place, y, w3).0 is Ok);
        assert(eval_update_step(e, env, depth, w) == eval_operator_step(e, env, depth, w));
        assert(eval_operator_step(e, env, depth, w) == eval_step(e, env, depth, w));
    }
}

// ---- assignment

/// Assigning to a variable gives the value that was assigned, and the variable reads as that value.
pub proof fn assignments_to_variables<'a>(
    e: &'a Expr,
    name: &'a String,
    value: &'a Expr,
    at: Env,
    v: Value,
    env: Env,
    depth: u64,
    w: World<'a>,
)
    requires
        e matches Expr::Assign { op, target, value: x } && op@ == "="@ && *target == Expr::Ident(*name)
            && *x == *value,
        !anonymous_fn(value),
        !(value is Class),
        w.limit > 0,
        w.scopes.stop(env, name@) == Stop::Scope(at),
        eval_step(value, env, depth, w).0 == Ok::<Value, Abrupt<'a>>(v),
        ({
            let w1 = eval_step(value, env, depth, w).1;
            &&& w1.limit > 0
            &&& w1.scopes.stop(env, name@) == Stop::Scope(at)
            &&& w1.scopes.plain_at(at, name@)
            &&& w1.scopes.put_view(at, name@, w1.strict) == Put::Stored
        }),
    ensures
        ({
            let w1 = eval_step(value, env, depth, w).1;
            let (r, after) = eval_step(e, env, depth, w);
            &&& r == Ok::<Value, Abrupt<'a>>(v)
            &&& after.asked == w1.asked
            &&& get_var_step(Name::Source(name), env, after).0 == Ok::<Value, Abrupt<'a>>(v)
        }),
{
    let n = Name::Source(name);
    reveal_with_fuel(resolve_name_from, 2);
    if let Expr::Assign { op, target, value: x } = e {
        assert(resolve_name_step(name, env, w) == (Ok::<RefBase, Abrupt<'a>>(RefBase::Scope(at)), w));
        let place = Reference::Var { place: RefBase::Scope(at), name };
        assert(resolve_reference_step(&**target, env, depth, w) == (
            Ok::<Reference<'a>, Abrupt<'a>>(place),
            w,
        ));
        let w1 = eval_step(value, env, depth, w).1;
        assert(eval_named_step(value, n, Key::Source(name), env, depth, w) == (
            Ok::<Value, Abrupt<'a>>(v),
            w1,
        ));
        assert(eval_for_target_step(&**target, &**x, env, depth, w) == (
            Ok::<Value, Abrupt<'a>>(v),
            w1,
        ));
        let after = w1.store_var(at, n, v);
        assert(put_reference_step(place, v, w1) == (Ok::<(), Abrupt<'a>>(()), after));
        lemma_stored_reads(n, at, env, v, w1);
        assert(eval_assign_step(e, env, depth, w) == eval_step(e, env, depth, w));
    }
}

/// Assigning to a property evaluates the object, then the value, and writes that value to the property; it
/// gives the value.
pub proof fn assignments_to_properties<'a>(
    e: &'a Expr,
    obj: &'a Expr,
    prop: &'a String,
    value: &'a Expr,
    base: Value,
    v: Value,
    env: Env,
    depth: u64,
    w: World<'a>,
)
    requires
        e matches Expr::Assign { op, target, value: x } && op@ == "="@ && *target == (Expr::Member {
            obj: Box::new(*obj),
            prop: *prop,
            optional: false,
        }) && *x == *value,
        !(obj is Super),
        !private_name(prop@),
        eval_step(obj, env, depth, w).0 == Ok::<Value, Abrupt<'a>>(base),
        ({
            let w1 = eval_step(obj, env, depth, w).1;
            let (x, w2) = eval_step(value, env, depth, w1);
            &&& x == Ok::<Value, Abrupt<'a>>(v)
            &&& said(w2, w2.asked.len()) is Value
        }),
    ensures
        ({
            let w1 = eval_step(obj, env, depth, w).1;
            let w2 = eval_step(value, env, depth, w1).1;
            let (r, after) = eval_step(e, env, depth, w);
            &&& r == Ok::<Value, Abrupt<'a>>(v)
            &&& after.asked == w2.asked.push(
                Request::SetMember { base, key: Key::Source(prop), value: v, strict: w2.strict },
            )
        }),
{
    if let Expr::Assign { op, target, value: x } = e {
        let w1 = eval_step(obj, env, depth, w).1;
        let w2 = eval_step(value, env, depth, w1).1;
        let place = Reference::Property { base, key: RefKey::Known(Key::Source(prop)) };
        assert(resolve_reference_step(&**target, env, depth, w) == (
            Ok::<Reference<'a>, Abrupt<'a>>(place),
            w1,
        ));
        assert(eval_for_target_step(&**target, &**x, env, depth, w1) == (
            Ok::<Value, Abrupt<'a>>(v),
            w2,
        ));
        assert(put_reference_step(place, v, w2).0 is Ok);
        assert(eval_assign_step(e, env, depth, w) == eval_step(e, env, depth, w));
    }
}

/// The operator of a compound assignment is the one in front of the `=`.
pub proof fn compound_operators()
    ensures
        base_op("+=")@ == "+"@,
        base_op("-=")@ == "-"@,
        base_op("*=")@ == "*"@,
        base_op("/=")@ == "/"@,
        base_op("%=")@ == "%"@,
        base_op("**=")@ == "**"@,
        base_op("<<=")@ == "<<"@,
        base_op(">>=")@ == ">>"@,
        base_op(">>>=")@ == ">>>"@,
        base_op("&=")@ == "&"@,
        base_op("|=")@ == "|"@,
        base_op("^=")@ == "^"@,
        base_op("&&=")@ == "&&"@,
        base_op("||=")@ == "||"@,
        base_op("??=")@ == "??"@,
{
    reveal_strlit("+=");
    reveal_strlit("-=");
    reveal_strlit("*=");
    reveal_strlit("/=");
    reveal_strlit("%=");
    reveal_strlit("**=");
    reveal_strlit("<<=");
    reveal_strlit(">>=");
    reveal_strlit(">>>=");
    reveal_strlit("&=");
    reveal_strlit("|=");
    reveal_strlit("^=");
    reveal_strlit("&&=");
    reveal_strlit("||=");
    reveal_strlit("??=");
    assert("+="@.len() == 2);
    assert("-="@.len() == 2);
    assert("*="@.len() == 2);
    assert("/="@.len() == 2);
    assert("%="@.len() == 2);
    assert("**="@.len() == 3);
    assert("<<="@.len() == 3);
    assert(">>="@.len() == 3);
    assert(">>>="@.len() == 4);
    assert("&="@.len() == 2);
    assert("|="@.len() == 2);
    assert("^="@.len() == 2);
    assert("&&="@.len() == 3);
    assert("||="@.len() == 3);
    assert("??="@.len() == 3);
    assert("+="@[0] != "-="@[0]);
    assert("+="@[0] != "*="@[0]);
    assert("+="@[0] != "/="@[0]);
    assert("+="@[0] != "%="@[0]);
    assert("+="@[0] != "&="@[0]);
    assert("+="@[0] != "|="@[0]);
    assert("+="@[0] != "^="@[0]);
    assert("-="@[0] != "*="@[0]);
    assert("-="@[0] != "/="@[0]);
    assert("-="@[0] != "%="@[0]);
    assert("-="@[0] != "&="@[0]);
    assert("-="@[0] != "|="@[0]);
    assert("-="@[0] != "^="@[0]);
    assert("*="@[0] != "/="@[0]);
    assert("*="@[0] != "%="@[0]);
    assert("*="@[0] != "&="@[0]);
    assert("*="@[0] != "|="@[0]);
    assert("*="@[0] != "^="@[0]);
    assert("/="@[0] != "%="@[0]);
    assert("/="@[0] != "&="@[0]);
    assert("/="@[0] != "|="@[0]);
    assert("/="@[0] != "^="@[0]);
    assert("%="@[0] != "&="@[0]);
    assert("%="@[0] != "|="@[0]);
    assert("%="@[0] != "^="@[0]);
    assert("**="@[0] != "<<="@[0]);
    assert("**="@[0] != ">>="@[0]);
    assert("**="@[0] != "&&="@[0]);
    assert("**="@[0] != "||="@[0]);
    assert("**="@[0] != "??="@[0]);
    assert("<<="@[0] != ">>="@[0]);
    assert("<<="@[0] != "&&="@[0]);
    assert("<<="@[0] != "||="@[0]);
    assert("<<="@[0] != "??="@[0]);
    assert(">>="@[0] != "&&="@[0]);
    assert(">>="@[0] != "||="@[0]);
    assert(">>="@[0] != "??="@[0]);
    assert("&="@[0] != "|="@[0]);
    assert("&="@[0] != "^="@[0]);
    assert("|="@[0] != "^="@[0]);
    assert("&&="@[0] != "||="@[0]);
    assert("&&="@[0] != "??="@[0]);
    assert("||="@[0] != "??="@[0]);
}

/// A compound assignment to a variable operates on the variable's value and the value of the right side,
/// in that order; the variable reads as what came of it, which is the value of the assignment too.
pub proof fn compound_assignments<'a>(
    e: &'a Expr,
    name: &'a String,
    value: &'a Expr,
    at: Env,
    v: Value,
    res: Value,
    env: Env,
    depth: u64,
    w: World<'a>,
)
    requires
        e matches Expr::Assign { op, target, value: x } && op@ != "="@ && !logical_assign(op@)
            && *target == Expr::Ident(*name) && *x == *value && {
            let w1 = eval_step(value, env, depth, w).1;
            let (y, w2) = binary_step(base_op(op), w.scopes.value_in(at, name@), v, w1);
            &&& y == Ok::<Value, Abrupt<'a>>(res)
            &&& w2.limit > 0
            &&& w2.scopes.stop(env, name@) == Stop::Scope(at)
            &&& w2.scopes.plain_at(at, name@)
            &&& w2.scopes.put_view(at, name@, w2.strict) == Put::Stored
        },
        w.limit > 0,
        w.scopes.stop(env, name@) == Stop::Scope(at),
        w.scopes.plain_at(at, name@),
        eval_step(value, env, depth, w).0 == Ok::<Value, Abrupt<'a>>(v),
    ensures
        ({
            let (r, after) = eval_step(e, env, depth, w);
            &&& r == Ok::<Value, Abrupt<'a>>(res)
            &&& get_var_step(Name::Source(name), env, after).0 == Ok::<Value, Abrupt<'a>>(res)
        }),
{
    let n = Name::Source(name);
    reveal_with_fuel(resolve_name_from, 2);
    if let Expr::Assign { op, target, value: x } = e {
        let old_value = w.scopes.value_in(at, name@);
        assert(resolve_name_step(name, env, w) == (Ok::<RefBase, Abrupt<'a>>(RefBase::Scope(at)), w));
        let place = Reference::Var { place: RefBase::Scope(at), name };
        assert(resolve_reference_step(&**target, env, depth, w) == (
            Ok::<Reference<'a>, Abrupt<'a>>(place),
            w,
        ));
        lemma_stop_found(w.scopes, env, name@);
        assert(get_reference_step(place, w) == (
            Ok::<(Value, Reference<'a>), Abrupt<'a>>((old_value, place)),
            w,
        ));
        let w1 = eval_step(value, env, depth, w).1;
        let w2 = binary_step(base_op(*op), old_value, v, w1).1;
        let after = w2.store_var(at, n, res);
        assert(put_reference_step(place, res, w2) == (Ok::<(), Abrupt<'a>>(()), after));
        lemma_stored_reads(n, at, env, res, w2);
        assert(eval_assign_step(e, env, depth, w) == eval_step(e, env, depth, w));
    }
}

// ---- properties and calls

/// Reading a property evaluates the object and asks the host for the property under the name that is
/// written; the value is what the host answers.
pub proof fn properties_are_read<'a>(
    e: &'a Expr,
    base: Value,
    env: Env,
    depth: u64,
    w: World<'a>,
)
    requires
        e matches Expr::Member { obj, prop, .. } && !(**obj is Super) && !private_name(prop@)
            && eval_step(&**obj, env, depth, w).0 == Ok::<Value, Abrupt<'a>>(base) && !eval_step(
            &**obj,
            env,
            depth,
            w,
        ).1.short,
    ensures
        e matches Expr::Member { obj, prop, optional } && {
            let w1 = eval_step(&**obj, env, depth, w).1;
            let (r, after) = eval_step(e, env, depth, w);
            let cut = *optional && (base is Undefined || base is Null);
            &&& cut ==> r == Ok::<Value, Abrupt<'a>>(Value::Undefined) && after.asked == w1.asked
                && after.short
            &&& !cut ==> after.asked == w1.asked.push(
                Request::GetMember { base, key: Key::Source(&prop) },
            )
            &&& !cut ==> match said(w1, w1.asked.len()) {
                Answer::Value(v) => r == Ok::<Value, Abrupt<'a>>(v),
                Answer::Throw(x) => r == Err::<Value, Abrupt<'a>>(Abrupt::Throw(x)),
                _ => true,
            }
        },
{
    assert(eval_access_step(e, env, depth, w) == eval_step(e, env, depth, w));
}

/// Reading a property by a computed key evaluates the object, then the key; a string key is the property
/// with that text.
pub proof fn computed_properties_are_read<'a>(
    e: &'a Expr,
    base: Value,
    t: u64,
    env: Env,
    depth: u64,
    w: World<'a>,
)
    requires
        e matches Expr::Index { obj, index, .. } && !(**obj is Super) && {
            let (b, w1) = eval_step(&**obj, env, depth, w);
            let (i, w2) = eval_step(&**index, env, depth, w1);
            &&& b == Ok::<Value, Abrupt<'a>>(base)
            &&& !w1.short
            &&& i == Ok::<Value, Abrupt<'a>>(Value::Str(t))
        },
        base is Obj,
    ensures
        e matches Expr::Index { obj, index, .. } && {
            let w1 = eval_step(&**obj, env, depth, w).1;
            let w2 = eval_step(&**index, env, depth, w1).1;
            let (r, after) = eval_step(e, env, depth, w);
            &&& after.asked.len() == w2.asked.len() + 1
            &&& after.asked.last() matches Request::GetMember { base: b, key } && b == base && !(
            key is Symbol) && w2.key_chars(key) == w2.text(t)
            &&& said(w2, w2.asked.len()) matches Answer::Value(v) ==> r == Ok::<Value, Abrupt<'a>>(v)
        },
{
    assert(eval_access_step(e, env, depth, w) == eval_step(e, env, depth, w));
}

/// Calling a method: the object is evaluated, the method is read from it, the arguments are evaluated, and
/// the method is called with the object as its receiver and the values of the arguments.
pub proof fn methods_are_called<'a>(
    e: &'a Expr,
    obj: &'a Expr,
    prop: &'a String,
    x: &'a Expr,
    base: Value,
    f: u64,
    v: Value,
    env: Env,
    depth: u64,
    w: World<'a>,
)
    requires
        e matches Expr::Call { callee, args, optional } && !*optional && *callee == (Expr::Member {
            obj: Box::new(*obj),
            prop: *prop,
            optional: false,
        }) && args@ == seq![ArrayElem::Item(*x)],
        !(obj is Super),
        !private_name(prop@),
        ({
            let (b, w1) = eval_step(obj, env, depth, w);
            let w2 = w1.ask(Request::GetMember { base, key: Key::Source(prop) }).1;
            let w3 = w2.new_list(Seq::empty());
            let (y, w4) = eval_step(x, env, depth, w3);
            &&& b == Ok::<Value, Abrupt<'a>>(base)
            &&& !w1.short
            &&& said(w1, w1.asked.len()) == Answer::<'a>::Value(Value::Obj(f))
            &&& y == Ok::<Value, Abrupt<'a>>(v)
            &&& w2.lists.len() < u64::MAX
            &&& w4.lists.len() > w2.lists.len()
            &&& w4.list(w2.next_list()).len() == 0
            &&& said(w4, w4.asked.len()) == Answer::<'a>::Flag(true)
        }),
    ensures
        ({
            let w1 = eval_step(obj, env, depth, w).1;
            let w2 = w1.ask(Request::GetMember { base, key: Key::Source(prop) }).1;
            let w4 = eval_step(x, env, depth, w2.new_list(Seq::empty())).1;
            let (r, after) = eval_step(e, env, depth, w);
            &&& after.asked[w1.asked.len() as int] == (Request::GetMember {
                base,
                key: Key::Source(prop),
            }) || w4.asked.len() < w2.asked.len() || w4.asked[w1.asked.len() as int]
                != w2.asked.last()
            &&& after.asked.last() matches Request::Call { func, this, args } && func == Value::Obj(f)
                && this == base && after.list(args) == seq![v]
            &&& said(w4, w4.asked.len() + 1) matches Answer::Value(z) ==> r == Ok::<Value, Abrupt<'a>>(z)
        }),
{
    if let Expr::Call { callee, args, optional } = e {
        let w1 = eval_step(obj, env, depth, w).1;
        let w2 = w1.ask(Request::GetMember { base, key: Key::Source(prop) }).1;
        let l = w2.next_list();
        let w3 = w2.new_list(Seq::empty());
        let w4 = eval_step(x, env, depth, w3).1;
        let w5 = w4.push(l, v);
        assert(w5.list(l) =~= seq![v]);
        let target = Target::Found { func: Value::Obj(f), this: base };
        assert(locate_step(&**callee, env, depth, w) == (Ok::<Target, Abrupt<'a>>(target), w2));
        assert(args@[0] == ArrayElem::Item(*x));
        assert(push_args_from(args, l, env, depth, 1, w5) == (Ok::<u64, Abrupt<'a>>(l), w5));
        assert(push_args_from(args, l, env, depth, 0, w3) == (Ok::<u64, Abrupt<'a>>(l), w5));
        assert(push_args_step(args, l, env, depth, w3) == (Ok::<u64, Abrupt<'a>>(l), w5));
        assert(eval_args_step(args, env, depth, w2) == (Ok::<u64, Abrupt<'a>>(l), w5));
        assert(locate_super_step(&**callee, env, depth, w) == (
            Ok::<Option<(Value, Value)>, Abrupt<'a>>(None),
            w,
        ));
        assert(call_located_step(target, &**callee, args, false, env, depth, w2).1.asked.last() == (
        Request::Call { func: Value::Obj(f), this: base, args: l }));
        assert(eval_call_step(e, env, depth, w) == call_located_step(
            target,
            &**callee,
            args,
            false,
            env,
            depth,
            w2,
        ));
        assert(eval_call_step(e, env, depth, w) == eval_step(e, env, depth, w));
    }
}

/// Arguments are listed one behind the other: the value of an argument is added to the list, a spread
/// argument adds what it iterates over, and behind the last one the list is complete.
pub proof fn arguments_are_listed<'a>(
    args: &'a Vec<ArrayElem>,
    list: u64,
    env: Env,
    depth: u64,
    i: nat,
    w: World<'a>,
)
    ensures
        i >= args@.len() ==> push_args_from(args, list, env, depth, i, w) == (
            Ok::<u64, Abrupt<'a>>(list),
            w,
        ),
        i < args@.len() ==> match &args@[i as int] {
            ArrayElem::Item(x) => {
                let (v, w1) = eval_step(x, env, depth, w);
                &&& v matches Ok(y) ==> push_args_from(args, list, env, depth, i, w)
                    == push_args_from(
                    args,
                    list,
                    env,
                    depth,
                    i + 1,
                    w1.with_list(list, w1.list(list).push(y)),
                )
                &&& v matches Err(a) ==> push_args_from(args, list, env, depth, i, w) == (
                    Err::<u64, Abrupt<'a>>(a),
                    w1,
                )
            },
            ArrayElem::Spread(x) => {
                let (v, w1) = eval_step(x, env, depth, w);
                let (u, w2) = iterate_step(v->Ok_0, list, w1);
                v is Ok && u is Ok ==> push_args_from(args, list, env, depth, i, w) == push_args_from(
                    args,
                    list,
                    env,
                    depth,
                    i + 1,
                    w2,
                )
            },
            ArrayElem::Hole => true,
        },
{
}

/// The elements of an array literal are listed one behind the other, and an absent one leaves a hole.
pub proof fn elements_are_listed<'a>(
    elems: &'a Vec<ArrayElem>,
    list: u64,
    env: Env,
    depth: u64,
    i: nat,
    w: World<'a>,
)
    requires
        i < elems@.len(),
    ensures
        match &elems@[i as int] {
            ArrayElem::Item(x) => {
                let (v, w1) = eval_step(x, env, depth, w);
                v matches Ok(y) ==> push_elems_from(elems, list, env, depth, i, w) == push_elems_from(
                    elems,
                    list,
                    env,
                    depth,
                    i + 1,
                    w1.with_list(list, w1.list(list).push(y)),
                )
            },
            ArrayElem::Hole => push_elems_from(elems, list, env, depth, i, w) == push_elems_from(
                elems,
                list,
                env,
                depth,
                i + 1,
                w.with_list(list, w.list(list).push(Value::Empty)),
            ),
            ArrayElem::Spread(x) => {
                let (v, w1) = eval_step(x, env, depth, w);
                let (u, w2) = iterate_step(v->Ok_0, list, w1);
                v is Ok && u is Ok ==> push_elems_from(elems, list, env, depth, i, w)
                    == push_elems_from(elems, list, env, depth, i + 1, w2)
            },
        },
{
}

/// A name that is called is called on no receiver, but that the object of a `with` scope that has it is the
/// receiver.
pub proof fn called_names_have_no_receiver<'a>(
    callee: &'a Expr,
    name: &'a String,
    at: Env,
    env: Env,
    depth: u64,
    w: World<'a>,
)
    requires
        *callee == Expr::Ident(*name),
        w.limit > 0,
        w.scopes.stop(env, name@) == Stop::Scope(at),
        w.scopes.plain_at(at, name@),
    ensures
        locate_step(callee, env, depth, w) == (
            Ok::<Target, Abrupt<'a>>(
                Target::Found { func: w.scopes.value_in(at, name@), this: Value::Undefined },
            ),
            w,
        ),
{
    reveal_with_fuel(get_var_with_from, 2);
}

/// What can be called is called with the receiver and the arguments given, and the value is the host's
/// answer; what throws is thrown.
pub proof fn calls_are_made<'a>(
    f: u64,
    this: Value,
    callee: &'a Expr,
    args: &'a Vec<ArrayElem>,
    argv: u64,
    env: Env,
    depth: u64,
    w: World<'a>,
)
    requires
        eval_args_step(args, env, depth, w).0 == Ok::<u64, Abrupt<'a>>(argv),
        ({
            let w1 = eval_args_step(args, env, depth, w).1;
            said(w1, w1.asked.len()) == Answer::<'a>::Flag(true)
        }),
    ensures
        ({
            let w1 = eval_args_step(args, env, depth, w).1;
            let (r, after) = call_located_step(
                Target::Found { func: Value::Obj(f), this },
                callee,
                args,
                false,
                env,
                depth,
                w,
            );
            &&& after.asked.last() == (Request::Call { func: Value::Obj(f), this, args: argv })
            &&& match said(w1, w1.asked.len() + 1) {
                Answer::Value(v) => r == Ok::<Value, Abrupt<'a>>(v),
                Answer::Throw(e) => r == Err::<Value, Abrupt<'a>>(Abrupt::Throw(e)),
                _ => true,
            }
        }),
{
}

/// `new` evaluates the constructor, then the arguments, and gives what the host constructs with them.
pub proof fn new_constructs<'a>(
    e: &'a Expr,
    c: Value,
    argv: u64,
    env: Env,
    depth: u64,
    w: World<'a>,
)
    requires
        e matches Expr::New { callee, args } && {
            let (v, w1) = eval_step(&**callee, env, depth, w);
            &&& v == Ok::<Value, Abrupt<'a>>(c)
            &&& eval_args_step(&args, env, depth, w1).0 == Ok::<u64, Abrupt<'a>>(argv)
        },
    ensures
        e matches Expr::New { callee, args } && {
            let w1 = eval_step(&**callee, env, depth, w).1;
            let w2 = eval_args_step(&args, env, depth, w1).1;
            let (r, after) = eval_step(e, env, depth, w);
            &&& after.asked == w2.asked.push(Request::Construct { func: c, args: argv })
            &&& said(w2, w2.asked.len()) matches Answer::Value(v) ==> r == Ok::<Value, Abrupt<'a>>(v)
        },
{
}

/// A comma expression evaluates its parts in order and is the value of the last.
pub proof fn sequences_give_the_last<'a>(
    items: &'a Vec<Expr>,
    env: Env,
    depth: u64,
    i: nat,
    last: Value,
    w: World<'a>,
)
    ensures
        i < items@.len() ==> ({
            let (v, w1) = eval_step(&items@[i as int], env, depth, w);
            &&& v matches Ok(x) ==> eval_sequence_from(items, env, depth, i, last, w)
                == eval_sequence_from(items, env, depth, i + 1, x, w1)
            &&& v matches Err(a) ==> eval_sequence_from(items, env, depth, i, last, w) == (
                Err::<Value, Abrupt<'a>>(a),
                w1,
            )
        }),
        i >= items@.len() ==> eval_sequence_from(items, env, depth, i, last, w) == (
            Ok::<Value, Abrupt<'a>>(last),
            w,
        ),
{
}

/// An object literal with one plain property: the object that the host makes gets a property of its own
/// with the value, that can be written, enumerated and configured, and is the value of the literal.
pub proof fn object_literals<'a>(
    e: &'a Expr,
    n: &'a String,
    x: &'a Expr,
    o: Value,
    v: Value,
    env: Env,
    depth: u64,
    w: World<'a>,
)
    requires
        e matches Expr::Object(props) && props@ == seq![
            PropDef::KeyValue { key: PropKey::Ident(*n), value: *x },
        ],
        !anonymous_fn(x),
        said(w, w.asked.len()) == Answer::<'a>::Value(o),
        ({
            let w1 = w.ask(Request::MakeObject).1;
            let home = w1.next_scope();
            let w2 = w1.new_scope(Some(env), None, false, false).bind_var(
                Name::Fixed("%homeobject%"),
                o,
                home,
            );
            eval_step(x, env, depth, w2).0 == Ok::<Value, Abrupt<'a>>(v)
        }),
    ensures
        ({
            let w1 = w.ask(Request::MakeObject).1;
            let home = w1.next_scope();
            let w2 = w1.new_scope(Some(env), None, false, false).bind_var(
                Name::Fixed("%homeobject%"),
                o,
                home,
            );
            let w3 = eval_step(x, env, depth, w2).1;
            let (r, after) = eval_step(e, env, depth, w);
            &&& r == Ok::<Value, Abrupt<'a>>(o)
            &&& after.asked == w3.asked.push(
                Request::DefineOwn {
                    base: o,
                    key: Key::Source(n),
                    prop: Property::of(v, true, true, true),
                },
            )
        }),
{
    if let Expr::Object(props) = e {
        let w1 = w.ask(Request::MakeObject).1;
        let home = w1.next_scope();
        let w2 = w1.new_scope(Some(env), None, false, false).bind_var(
            Name::Fixed("%homeobject%"),
            o,
            home,
        );
        let w3 = eval_step(x, env, depth, w2).1;
        let key = PropKey::Ident(*n);
        let w4 = w3.ask(
            Request::DefineOwn {
                base: o,
                key: Key::Source(n),
                prop: Property::of(v, true, true, true),
            },
        ).1;
        assert(props@[0] == PropDef::KeyValue { key: PropKey::Ident(*n), value: *x });
        assert(eval_prop_key_step(&key, env, depth, w2) == (
            Ok::<Key<'a>, Abrupt<'a>>(Key::Source(n)),
            w2,
        ));
        assert(define_value_step(&key, x, o, Key::Source(n), env, depth, w2) == (
            Ok::<(), Abrupt<'a>>(()),
            w4,
        ));
        assert(fill_object_from(props, o, home, env, depth, 1, w4) == (
            Ok::<Value, Abrupt<'a>>(o),
            w4,
        ));
        assert(fill_object_from(props, o, home, env, depth, 0, w2) == (
            Ok::<Value, Abrupt<'a>>(o),
            w4,
        ));
        assert(fill_object_step(props, o, home, env, depth, w2) == (Ok::<Value, Abrupt<'a>>(o), w4));
        assert(eval_object_step(props, env, depth, w) == (Ok::<Value, Abrupt<'a>>(o), w4));
    }
}

/// A part of a template is the text of its expression's value.
pub proof fn template_parts_are_texts<'a>(e: &'a Expr, env: Env, depth: u64, w: World<'a>)
    requires
        e is ToStr,
    ensures
        e matches Expr::ToStr(x) && {
            let (v, w1) = eval_step(&**x, env, depth, w);
            v matches Ok(y) ==> eval_step(e, env, depth, w) == to_string_step(y, w1)
        },
{
    assert(eval_wrapping_step(e, env, depth, w) == eval_step(e, env, depth, w));
}

/// `await` waits for the value of its operand.
pub proof fn await_waits_for_its_operand<'a>(e: &'a Expr, env: Env, depth: u64, w: World<'a>)
    requires
        e is Await,
    ensures
        e matches Expr::Await(x) && {
            let (v, w1) = eval_step(&**x, env, depth, w);
            v matches Ok(y) ==> eval_step(e, env, depth, w) == coro_await_step(y, w1)
        },
{
    assert(eval_wrapping_step(e, env, depth, w) == eval_step(e, env, depth, w));
}

/// An optional chain that was cut short is `undefined`; one that was not is the value of the chain.
pub proof fn cut_chains_are_undefined<'a>(e: &'a Expr, env: Env, depth: u64, w: World<'a>)
    requires
        e is OptionalChain,
    ensures
        e matches Expr::OptionalChain(x) && {
            let (v, w1) = eval_step(&**x, env, depth, World { short: false, ..w });
            let (r, after) = eval_step(e, env, depth, w);
            &&& w1.short ==> r == Ok::<Value, Abrupt<'a>>(Value::Undefined)
            &&& !w1.short ==> r == v
            &&& after.asked == w1.asked
        },
{
    assert(eval_wrapping_step(e, env, depth, w) == eval_step(e, env, depth, w));
}

/// Whether an object has a private member: the host is asked for it under the key that the name stands for.
pub proof fn private_tests_ask<'a>(
    e: &'a Expr,
    o: u64,
    hidden: u64,
    env: Env,
    depth: u64,
    w: World<'a>,
)
    requires
        e matches Expr::PrivateIn { name, obj } && {
            let (v, w1) = eval_step(&**obj, env, depth, w);
            &&& v == Ok::<Value, Abrupt<'a>>(Value::Obj(o))
            &&& w1.scopes.private_key(env, name@) == Some(hidden)
        },
    ensures
        e matches Expr::PrivateIn { name, obj } && {
            let w1 = eval_step(&**obj, env, depth, w).1;
            let (r, after) = eval_step(e, env, depth, w);
            &&& after.asked == w1.asked.push(
                Request::HasOwn { base: Value::Obj(o), key: Key::Made(hidden) },
            )
            &&& said(w1, w1.asked.len()) matches Answer::Flag(b) ==> r == Ok::<Value, Abrupt<'a>>(
                Value::Bool(b),
            )
        },
{
    assert(eval_wrapping_step(e, env, depth, w) == eval_step(e, env, depth, w));
}

/// `this` is what the nearest scope that has one binds it to.
pub proof fn this_is_bound<'a>(e: &'a Expr, at: Env, env: Env, depth: u64, w: World<'a>)
    requires
        e is This,
        w.scopes.holder(env, "this"@) == Some(at),
        w.scopes.plain_at(at, "this"@),
    ensures
        eval_step(e, env, depth, w) == (
            Ok::<Value, Abrupt<'a>>(w.scopes.value_in(at, "this"@)),
            w,
        ),
{
}

/// Reading a property of `super` asks the host for it on the prototype of the home object, with `this` as
/// the receiver.
pub proof fn super_properties_are_read<'a>(
    e: &'a Expr,
    this: Value,
    home: Value,
    env: Env,
    depth: u64,
    w: World<'a>,
)
    requires
        e matches Expr::Member { obj, prop, .. } && **obj is Super,
        ({
            let (t, w1) = get_var_step(Name::Fixed("this"), env, w);
            let (h, w2) = super_base_step(env, w1);
            &&& t == Ok::<Value, Abrupt<'a>>(this)
            &&& h == Ok::<Value, Abrupt<'a>>(home)
        }),
        home is Obj,
    ensures
        e matches Expr::Member { prop, .. } && {
            let w1 = get_var_step(Name::Fixed("this"), env, w).1;
            let w2 = super_base_step(env, w1).1;
            eval_step(e, env, depth, w).1.asked == w2.asked.push(
                Request::GetMemberFor { base: home, key: Key::Source(&prop), receiver: this },
            )
        },
{
    assert(eval_access_step(e, env, depth, w) == eval_step(e, env, depth, w));
}

// ---- patterns

/// A pattern that is a name gives the name the value; a `const` cannot be written again.
pub proof fn names_are_bound<'a>(
    pat: &'a Pattern,
    name: &'a String,
    v: Value,
    constant: bool,
    env: Env,
    depth: u64,
    w: World<'a>,
)
    requires
        *pat == Pattern::Ident(*name),
        w.limit > 0,
        env < w.scopes.scopes.len(),
    ensures
        ({
            let (r, after) = bind_pattern_step(pat, v, env, BindMode::Lexical(constant), depth, w);
            &&& r is Ok
            &&& after.asked == w.asked
            &&& get_var_step(Name::Source(name), env, after).0 == Ok::<Value, Abrupt<'a>>(v)
        }),
{
    let after = w.init_lexical(Name::Source(name), v, constant, env);
    assert(bind_pattern_step(pat, v, env, BindMode::Lexical(constant), depth, w) == (
        Ok::<(), Abrupt<'a>>(()),
        after,
    ));
    assert(after.scopes.binds(env, name@));
    assert(after.scopes.stop(env, name@) == Stop::Scope(env));
    reveal_with_fuel(get_var_with_from, 2);
}

/// A default is used where the value is `undefined`, and only there.
pub proof fn defaults_replace_undefined<'a>(
    v: Value,
    default: &'a Expr,
    env: Env,
    depth: u64,
    w: World<'a>,
)
    ensures
        !(v is Undefined) ==> with_default_step(v, default, None, env, depth, w) == (
            Ok::<Value, Abrupt<'a>>(v),
            w,
        ),
        v is Undefined ==> with_default_step(v, default, None, env, depth, w) == eval_step(
            default,
            env,
            depth,
            w,
        ),
{
}

/// A property of an object pattern that is a name without a default takes what the host reads under its
/// key.
pub proof fn object_patterns_read_properties<'a>(
    p: &'a ObjPatProp,
    key: &'a String,
    name: &'a String,
    source: Value,
    keys: u64,
    v: Value,
    constant: bool,
    env: Env,
    depth: u64,
    w: World<'a>,
)
    requires
        p.key == PropKey::Ident(*key),
        p.value == Pattern::Ident(*name),
        p.default is None,
        w.texts.len() < u64::MAX,
        said(w, w.asked.len()) == Answer::<'a>::Value(v),
        env < (w.answers)(w.asked.len()).scopes.scopes.len(),
    ensures
        ({
            let (r, after) = bind_prop_step(
                p,
                source,
                keys,
                env,
                BindMode::Lexical(constant),
                depth,
                w,
            );
            &&& r is Ok
            &&& after.asked == w.asked.push(
                Request::GetMember { base: source, key: Key::Source(key) },
            )
            &&& after.scopes.value_in(env, name@) == v
        }),
{
    assert(eval_prop_key_step(&p.key, env, depth, w) == (
        Ok::<Key<'a>, Abrupt<'a>>(Key::Source(key)),
        w,
    ));
    assert(default_for_step(v, &p.default, None, env, depth, w).0 == Ok::<Value, Abrupt<'a>>(v));
}

/// An element of an array pattern that is a name without a default takes the next value of the iterator,
/// and `undefined` once that is done, when the iterator is not asked any more.
pub proof fn array_patterns_take_values<'a>(
    el: &'a ArrayPatElem,
    name: &'a String,
    iter: Value,
    method: Value,
    done: bool,
    constant: bool,
    env: Env,
    depth: u64,
    w: World<'a>,
)
    requires
        el matches ArrayPatElem::Elem { pattern, default } && pattern == Pattern::Ident(*name)
            && default is None,
    ensures
        ({
            let mode = BindMode::Lexical(constant);
            let (r, after) = bind_elem_step(el, iter, method, done, env, mode, depth, w);
            &&& done ==> r.0 is Ok && r.1 && after.asked == w.asked && (env < w.scopes.scopes.len()
                ==> after.scopes.value_in(env, name@) == Value::Undefined)
            &&& !done ==> {
                let (step, w1) = iterator_step_step(iter, method, w);
                match step {
                    Ok(Some(v)) => r.0 is Ok && !r.1 && after.asked == w1.asked && (env
                        < w1.scopes.scopes.len() ==> after.scopes.value_in(env, name@) == v),
                    Ok(None) => r.0 is Ok && r.1 && (env < w1.scopes.scopes.len()
                        ==> after.scopes.value_in(env, name@) == Value::Undefined),
                    Err(a) => r.0 == Err::<(), Abrupt<'a>>(a) && r.1 && after == w1,
                }
            }
        }),
{
    if let ArrayPatElem::Elem { pattern, default } = el {
        let mode = BindMode::Lexical(constant);
        let (p, w1) = pull_step(iter, method, done, w);
        if let Ok(v) = p.0 {
            assert(default_for_step(v, default, Some(name), env, depth, w1) == (
                Ok::<Value, Abrupt<'a>>(v),
                w1,
            ));
            assert(bind_pattern_step(pattern, v, env, mode, depth, w1) == (
                Ok::<(), Abrupt<'a>>(()),
                w1.init_lexical(Name::Source(name), v, constant, env),
            ));
        }
    }
}

/// The elements of an array pattern are bound one after the other, and one that fails ends it.
pub proof fn array_patterns_go_on<'a>(
    elems: &'a Vec<ArrayPatElem>,
    iter: Value,
    method: Value,
    env: Env,
    mode: BindMode,
    depth: u64,
    i: nat,
    done: bool,
    w: World<'a>,
)
    requires
        i < elems@.len(),
    ensures
        ({
            let (r, w1) = bind_elem_step(&elems@[i as int], iter, method, done, env, mode, depth, w);
            let all = bind_elems_from(elems, iter, method, env, mode, depth, i, done, w);
            &&& r.0 is Ok ==> all == bind_elems_from(
                elems,
                iter,
                method,
                env,
                mode,
                depth,
                i + 1,
                r.1,
                w1,
            )
            &&& r.0 matches Err(a) ==> all == ((Err::<(), Abrupt<'a>>(a), r.1), w1)
        }),
        bind_elems_from(elems, iter, method, env, mode, depth, elems@.len(), done, w) == (
            (Ok::<(), Abrupt<'a>>(()), done),
            w,
        ),
{
}

/// An iterator that a pattern has not used up is closed, and one that is done is not; an error of the
/// pattern stays.
pub proof fn patterns_close_iterators<'a>(
    iter: Value,
    result: Result<(), Abrupt<'a>>,
    w: World<'a>,
)
    ensures
        result is Ok ==> close_after_step(iter, true, result, w) == (Ok::<(), Abrupt<'a>>(()), w),
        result is Ok ==> close_after_step(iter, false, result, w) == iterator_close_normal_step(
            iter,
            w,
        ),
        result matches Err(Abrupt::Throw(e)) ==> close_after_step(iter, false, result, w).0
            == Err::<(), Abrupt<'a>>(Abrupt::Throw(e)) && close_after_step(iter, true, result, w) == (
            result,
            w,
        ),
{
}

} // verus!
