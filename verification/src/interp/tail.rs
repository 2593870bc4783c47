//! Calls in tail position, which are left to the caller.
use vstd::prelude::*;

use crate::ast::Expr;
use crate::interp::eval::{
    eval, eval_args, eval_args_step, eval_step, is_private, is_super, private_name, push_values,
    push_values_step, template_object, template_object_step,
};
use crate::interp::object::{get_var_with, get_var_with_step, Resolved};
use crate::interp::operate::{is_callable, is_callable_step, to_boolean, to_boolean_step};
use crate::interp::session::{
    asks, asks_flag, next, Abrupt, Answers, Env, Host, Key, Name, Request, Session, Step, Value,
    World,
};
use crate::text::same_text;

verus! {

/// What the expression of a `return` comes to.
#[derive(Clone, Copy, PartialEq, Eq, Structural, Debug)]
pub enum TailEval {
    /// A call that is left to the caller.
    Tail { func: Value, this: Value, args: u64 },
    Val(Value),
}

/// The call that an expression is, if it can be left to the caller: a direct `eval`, an optional
/// call and `super` cannot, nor can what is no function.
pub open spec fn eval_tail_call_step<'a>(
    e: &'a Expr,
    env: Env,
    depth: u64,
    w: World<'a>,
) -> Step<'a, Option<TailEval>>
    decreases depth, e, 4nat, 0nat,
{
    match e {
        Expr::Call { callee, args, optional } => {
            if *optional {
                (Ok(None), w)
            } else {
                next(
                    locate_tail_step(&**callee, env, depth, w),
                    |t: Option<(Value, Value)>, w: World<'a>|
                        match t {
                            None => (Ok(None), w),
                            Some((func, this)) => {
                                next(
                                    is_callable_step(func, w),
                                    |ok: bool, w: World<'a>|
                                        if !ok {
                                            (Ok(None), w)
                                        } else {
                                            next(
                                                eval_args_step(args, env, depth, w),
                                                |argv: u64, w: World<'a>|
                                                    (Ok(Some(TailEval::Tail { func, this, args: argv })), w),
                                            )
                                        },
                                )
                            },
                        },
                )
            }
        },
        _ => (Ok(None), w),
    }
}

/// The call that an expression is, if it can be left to the caller: a direct `eval`, an optional
/// call and `super` cannot, nor can what is no function.
#[verifier::spinoff_prover]
pub fn eval_tail_call<'h, 'a, H: Host<'a>>(
    s: &mut Session<'h, 'a, H>,
    e: &'a Expr,
    env: Env,
    depth: u64,
) -> (out: Result<Option<TailEval>, Abrupt<'a>>)
    ensures
        final(s).continues(*old(s)),
        forall|answers: Answers<'a>| #[trigger]
            final(s).agrees(answers) ==> old(s).agrees(answers) && (out, final(s).world(answers))
                == eval_tail_call_step(e, env, depth, old(s).world(answers)),
    decreases depth, e, 4nat, 0nat,
{
    match e {
        Expr::Call { callee, args, optional } => {
            if *optional {
                return Ok(None);
            }
            let t: Option<(Value, Value)> = locate_tail(s, &**callee, env, depth)?;
            match t {
                None => {
                    return Ok(None);
                },
                Some((func, this)) => {
                    let ok: bool = is_callable(s, func)?;
                    if !ok {
                        return Ok(None);
                    } else {
                        let argv: u64 = eval_args(s, args, env, depth)?;
                        return Ok(Some(TailEval::Tail { func, this, args: argv }));
                    }
                },
            }
        },
        _ => {
            return Ok(None);
        },
    }
}

/// The function and receiver of a call that can be left to the caller.
pub open spec fn locate_tail_step<'a>(
    callee: &'a Expr,
    env: Env,
    depth: u64,
    w: World<'a>,
) -> Step<'a, Option<(Value, Value)>>
    decreases depth, callee, 3nat, 0nat,
{
    match callee {
        Expr::Ident(name) => {
            next(
                get_var_with_step(Name::Source(name), env, w),
                |r: Resolved, w: World<'a>| {
                    let f: Value = r.value;
                    let this: Value = match r.receiver { Some(o) => o, None => Value::Undefined };
                    next(
                        if name@ == "eval"@ && matches!(this, Value::Undefined) {
                            asks_flag(Request::IsIntrinsicEval(f), w)
                        } else {
                            (Ok(false), w)
                        },
                        |intrinsic: bool, w: World<'a>|
                            if intrinsic {
                                (Ok(None), w)
                            } else {
                                (Ok(Some((f, this))), w)
                            },
                    )
                },
            )
        },
        Expr::Member { obj, prop, optional } => {
            if **obj is Super || private_name(prop@) {
                (Ok(None), w)
            } else {
                next(
                    eval_step(&**obj, env, depth, w),
                    |base: Value, w: World<'a>|
                        if base.is_nullish() {
                            (Ok(None), w)
                        } else {
                            next(
                                asks(Request::GetMember { base, key: Key::Source(prop) }, w),
                                |f: Value, w: World<'a>| (Ok(Some((f, base))), w),
                            )
                        },
                )
            }
        },
        Expr::Call { callee: c, args, optional } => {
            next(
                eval_step(callee, env, depth, w),
                |f: Value, w: World<'a>|
                    if w.short {
                        (Ok(None), w)
                    } else {
                        (Ok(Some((f, Value::Undefined))), w)
                    },
            )
        },
        _ => (Ok(None), w),
    }
}

/// The function and receiver of a call that can be left to the caller.
#[verifier::spinoff_prover]
pub fn locate_tail<'h, 'a, H: Host<'a>>(
    s: &mut Session<'h, 'a, H>,
    callee: &'a Expr,
    env: Env,
    depth: u64,
) -> (out: Result<Option<(Value, Value)>, Abrupt<'a>>)
    ensures
        final(s).continues(*old(s)),
        forall|answers: Answers<'a>| #[trigger]
            final(s).agrees(answers) ==> old(s).agrees(answers) && (out, final(s).world(answers))
                == locate_tail_step(callee, env, depth, old(s).world(answers)),
    decreases depth, callee, 3nat, 0nat,
{
    match callee {
        Expr::Ident(name) => {
            let r: Resolved = get_var_with(s, Name::Source(name), env)?;
            let f: Value = r.value;
            let this: Value = match r.receiver { Some(o) => o, None => Value::Undefined };
            let intrinsic: bool = if same_text(name.as_str(), "eval") && matches!(this, Value::Undefined) {
                s.flag(Request::IsIntrinsicEval(f))?
            } else {
                false
            };
            if intrinsic {
                return Ok(None);
            } else {
                return Ok(Some((f, this)));
            }
        },
        Expr::Member { obj, prop, optional } => {
            if is_super(&**obj) || is_private(prop) {
                return Ok(None);
            } else {
                let base: Value = eval(s, &**obj, env, depth)?;
                if base.is_nullish() {
                    return Ok(None);
                } else {
                    let f: Value = s.value(Request::GetMember { base, key: Key::Source(prop) })?;
                    return Ok(Some((f, base)));
                }
            }
        },
        Expr::Call { callee: c, args, optional } => {
            let f: Value = eval(s, callee, env, depth)?;
            if s.short_circuited() {
                return Ok(None);
            } else {
                return Ok(Some((f, Value::Undefined)));
            }
        },
        _ => {
            return Ok(None);
        },
    }
}

/// The tagged template that an expression is, if its call can be left to the caller.
pub open spec fn eval_tail_tagged_step<'a>(
    e: &'a Expr,
    env: Env,
    depth: u64,
    w: World<'a>,
) -> Step<'a, Option<TailEval>>
    decreases depth, e, 4nat, 0nat,
{
    match e {
        Expr::TaggedTemplate { tag, quasis, subs } => {
            next(
                locate_tail_tag_step(&**tag, env, depth, w),
                |t: Option<(Value, Value)>, w: World<'a>|
                    match t {
                        None => (Ok(None), w),
                        Some((func, this)) => {
                            next(
                                is_callable_step(func, w),
                                |ok: bool, w: World<'a>|
                                    if !ok {
                                        (Ok(None), w)
                                    } else {
                                        next(
                                            template_object_step(quasis, w),
                                            |strings: Value, w: World<'a>| {
                                                let list: u64 = w.next_list();
                                                let w = w.new_list(Seq::empty());
                                                let w = w.push(list, strings);
                                                next(
                                                    push_values_step(subs, list, env, depth, w),
                                                    |argv: u64, w: World<'a>|
                                                        (Ok(Some(TailEval::Tail { func, this, args: argv })), w),
                                                )
                                            },
                                        )
                                    },
                            )
                        },
                    },
            )
        },
        _ => (Ok(None), w),
    }
}

/// The tagged template that an expression is, if its call can be left to the caller.
#[verifier::spinoff_prover]
pub fn eval_tail_tagged<'h, 'a, H: Host<'a>>(
    s: &mut Session<'h, 'a, H>,
    e: &'a Expr,
    env: Env,
    depth: u64,
) -> (out: Result<Option<TailEval>, Abrupt<'a>>)
    ensures
        final(s).continues(*old(s)),
        forall|answers: Answers<'a>| #[trigger]
            final(s).agrees(answers) ==> old(s).agrees(answers) && (out, final(s).world(answers))
                == eval_tail_tagged_step(e, env, depth, old(s).world(answers)),
    decreases depth, e, 4nat, 0nat,
{
    match e {
        Expr::TaggedTemplate { tag, quasis, subs } => {
            let t: Option<(Value, Value)> = locate_tail_tag(s, &**tag, env, depth)?;
            match t {
                None => {
                    return Ok(None);
                },
                Some((func, this)) => {
                    let ok: bool = is_callable(s, func)?;
                    if !ok {
                        return Ok(None);
                    } else {
                        let strings: Value = template_object(s, quasis)?;
                        let list: u64 = s.new_list(Vec::new());
                        s.push(list, strings);
                        let argv: u64 = push_values(s, subs, list, env, depth)?;
                        return Ok(Some(TailEval::Tail { func, this, args: argv }));
                    }
                },
            }
        },
        _ => {
            return Ok(None);
        },
    }
}

/// The function and receiver of a template's tag whose call can be left to the caller.
pub open spec fn locate_tail_tag_step<'a>(
    tag: &'a Expr,
    env: Env,
    depth: u64,
    w: World<'a>,
) -> Step<'a, Option<(Value, Value)>>
    decreases depth, tag, 3nat, 0nat,
{
    match tag {
        Expr::Ident(_) | Expr::Call { .. } => {
            next(
                eval_step(tag, env, depth, w),
                |f: Value, w: World<'a>| (Ok(Some((f, Value::Undefined))), w),
            )
        },
        Expr::Member { obj, prop, optional } => {
            if **obj is Super {
                (Ok(None), w)
            } else {
                next(
                    eval_step(&**obj, env, depth, w),
                    |base: Value, w: World<'a>|
                        if base.is_nullish() {
                            (Ok(None), w)
                        } else {
                            next(
                                asks(Request::GetMember { base, key: Key::Source(prop) }, w),
                                |f: Value, w: World<'a>| (Ok(Some((f, base))), w),
                            )
                        },
                )
            }
        },
        _ => (Ok(None), w),
    }
}

/// The function and receiver of a template's tag whose call can be left to the caller.
pub fn locate_tail_tag<'h, 'a, H: Host<'a>>(
    s: &mut Session<'h, 'a, H>,
    tag: &'a Expr,
    env: Env,
    depth: u64,
) -> (out: Result<Option<(Value, Value)>, Abrupt<'a>>)
    ensures
        final(s).continues(*old(s)),
        forall|answers: Answers<'a>| #[trigger]
            final(s).agrees(answers) ==> old(s).agrees(answers) && (out, final(s).world(answers))
                == locate_tail_tag_step(tag, env, depth, old(s).world(answers)),
    decreases depth, tag, 3nat, 0nat,
{
    match tag {
        Expr::Ident(_) | Expr::Call { .. } => {
            let f: Value = eval(s, tag, env, depth)?;
            return Ok(Some((f, Value::Undefined)));
        },
        Expr::Member { obj, prop, optional } => {
            if is_super(&**obj) {
                return Ok(None);
            } else {
                let base: Value = eval(s, &**obj, env, depth)?;
                if base.is_nullish() {
                    return Ok(None);
                } else {
                    let f: Value = s.value(Request::GetMember { base, key: Key::Source(prop) })?;
                    return Ok(Some((f, base)));
                }
            }
        },
        _ => {
            return Ok(None);
        },
    }
}

/// Evaluates all expressions of a list but the last. From the item at `i` on.
pub open spec fn eval_front_from<'a>(
    items: &'a Vec<Expr>,
    env: Env,
    depth: u64,
    i: nat,
    left: usize,
    w: World<'a>,
) -> Step<'a, ()>
    decreases depth, items, 0nat, items@.len() - i,
{
    if i >= items@.len() {
        (Ok(()), w)
    } else {
        if left <= 1 {
            (Ok(()), w)
        } else {
            next(
                eval_step(&items@[i as int], env, depth, w),
                |v: Value, w: World<'a>|
                    eval_front_from(items, env, depth, i + 1, (left - 1) as usize, w),
            )
        }
    }
}

/// Evaluates all expressions of a list but the last.
pub open spec fn eval_front_step<'a>(
    items: &'a Vec<Expr>,
    env: Env,
    depth: u64,
    w: World<'a>,
) -> Step<'a, ()>
    decreases depth, items, 0nat, items@.len() + 1,
{
    eval_front_from(items, env, depth, 0, items.len(), w)
}

/// Evaluates all expressions of a list but the last.
pub fn eval_front<'h, 'a, H: Host<'a>>(
    s: &mut Session<'h, 'a, H>,
    items: &'a Vec<Expr>,
    env: Env,
    depth: u64,
) -> (out: Result<(), Abrupt<'a>>)
    ensures
        final(s).continues(*old(s)),
        forall|answers: Answers<'a>| #[trigger]
            final(s).agrees(answers) ==> old(s).agrees(answers) && (out, final(s).world(answers))
                == eval_front_step(items, env, depth, old(s).world(answers)),
    decreases depth, items, 0nat, items@.len() + 1,
{
    let mut left: usize = items.len();
    let mut i: usize = 0;
    while i < items.len()
        invariant
            i <= items.len(),
            s.continues(*old(s)),
            forall|answers: Answers<'a>| #[trigger]
                s.agrees(answers) ==> old(s).agrees(answers)
                    && eval_front_step(items, env, depth, old(s).world(answers))
                    == eval_front_from(items, env, depth, i as nat, left, s.world(answers)),
        decreases items.len() - i,
    {
        if left <= 1 {
            return Ok(());
        } else {
            let v: Value = eval(s, &items[i], env, depth)?;
            left = left - 1;
        }
        i = i + 1;
    }
    return Ok(());
}

/// Whether the right side of a logical operator is evaluated.
pub open spec fn takes_right_step<'a>(op: &'static str, v: Value, w: World<'a>) -> Step<'a, bool>
{
    if op@ == "&&"@ {
        to_boolean_step(v, w)
    } else if op@ == "||"@ {
        next(
            to_boolean_step(v, w),
            |b: bool, w: World<'a>| (Ok(!b), w),
        )
    } else if op@ == "??"@ {
        (Ok(v.is_nullish()), w)
    } else {
        (Ok(false), w)
    }
}

/// Whether the right side of a logical operator is evaluated.
pub fn takes_right<'h, 'a, H: Host<'a>>(
    s: &mut Session<'h, 'a, H>,
    op: &'static str,
    v: Value,
) -> (out: Result<bool, Abrupt<'a>>)
    ensures
        final(s).continues(*old(s)),
        forall|answers: Answers<'a>| #[trigger]
            final(s).agrees(answers) ==> old(s).agrees(answers) && (out, final(s).world(answers))
                == takes_right_step(op, v, old(s).world(answers)),
{
    if same_text(op, "&&") {
        return to_boolean(s, v);
    } else if same_text(op, "||") {
        let b: bool = to_boolean(s, v)?;
        return Ok(!b);
    } else if same_text(op, "??") {
        return Ok(v.is_nullish());
    } else {
        return Ok(false);
    }
}

/// A call that was not left to the caller is evaluated as any other expression.
pub open spec fn tail_or_value_step<'a>(
    t: Option<TailEval>,
    e: &'a Expr,
    env: Env,
    depth: u64,
    w: World<'a>,
) -> Step<'a, TailEval>
    decreases depth, e, 4nat, 0nat,
{
    match t {
        Some(x) => (Ok(x), w),
        None => {
            next(
                eval_step(e, env, depth, w),
                |v: Value, w: World<'a>| (Ok(TailEval::Val(v)), w),
            )
        },
    }
}

/// A call that was not left to the caller is evaluated as any other expression.
pub fn tail_or_value<'h, 'a, H: Host<'a>>(
    s: &mut Session<'h, 'a, H>,
    t: Option<TailEval>,
    e: &'a Expr,
    env: Env,
    depth: u64,
) -> (out: Result<TailEval, Abrupt<'a>>)
    ensures
        final(s).continues(*old(s)),
        forall|answers: Answers<'a>| #[trigger]
            final(s).agrees(answers) ==> old(s).agrees(answers) && (out, final(s).world(answers))
                == tail_or_value_step(t, e, env, depth, old(s).world(answers)),
    decreases depth, e, 4nat, 0nat,
{
    match t {
        Some(x) => {
            return Ok(x);
        },
        None => {
            let v: Value = eval(s, e, env, depth)?;
            return Ok(TailEval::Val(v));
        },
    }
}

/// Evaluates the expression of a `return`. A call in one of its tail positions is left to the
/// caller.
pub open spec fn eval_return_expr_step<'a>(
    e: &'a Expr,
    env: Env,
    depth: u64,
    w: World<'a>,
) -> Step<'a, TailEval>
    decreases depth, e, 5nat, 0nat,
{
    match e {
        Expr::Call { .. } => {
            next(
                eval_tail_call_step(e, env, depth, w),
                |t: Option<TailEval>, w: World<'a>| tail_or_value_step(t, e, env, depth, w),
            )
        },
        Expr::TaggedTemplate { .. } => {
            next(
                eval_tail_tagged_step(e, env, depth, w),
                |t: Option<TailEval>, w: World<'a>| tail_or_value_step(t, e, env, depth, w),
            )
        },
        Expr::Cond { test, cons, alt } => {
            next(
                eval_step(&**test, env, depth, w),
                |v: Value, w: World<'a>|
                    next(
                        to_boolean_step(v, w),
                        |b: bool, w: World<'a>|
                            if b {
                                eval_return_expr_step(&**cons, env, depth, w)
                            } else {
                                eval_return_expr_step(&**alt, env, depth, w)
                            },
                    ),
            )
        },
        Expr::Sequence(items) => {
            if items.len() == 0 {
                next(
                    eval_step(e, env, depth, w),
                    |v: Value, w: World<'a>| (Ok(TailEval::Val(v)), w),
                )
            } else {
                next(
                    eval_front_step(items, env, depth, w),
                    |u: (), w: World<'a>|
                        eval_return_expr_step(&items@[items@.len() - 1], env, depth, w),
                )
            }
        },
        Expr::Logical { op, left, right } => {
            next(
                eval_step(&**left, env, depth, w),
                |v: Value, w: World<'a>|
                    next(
                        takes_right_step(*op, v, w),
                        |b: bool, w: World<'a>|
                            if b {
                                eval_return_expr_step(&**right, env, depth, w)
                            } else {
                                (Ok(TailEval::Val(v)), w)
                            },
                    ),
            )
        },
        _ => {
            next(
                eval_step(e, env, depth, w),
                |v: Value, w: World<'a>| (Ok(TailEval::Val(v)), w),
            )
        },
    }
}

/// Evaluates the expression of a `return`. A call in one of its tail positions is left to the
/// caller.
#[verifier::spinoff_prover]
pub fn eval_return_expr<'h, 'a, H: Host<'a>>(
    s: &mut Session<'h, 'a, H>,
    e: &'a Expr,
    env: Env,
    depth: u64,
) -> (out: Result<TailEval, Abrupt<'a>>)
    ensures
        final(s).continues(*old(s)),
        forall|answers: Answers<'a>| #[trigger]
            final(s).agrees(answers) ==> old(s).agrees(answers) && (out, final(s).world(answers))
                == eval_return_expr_step(e, env, depth, old(s).world(answers)),
    decreases depth, e, 5nat, 0nat,
{
    match e {
        Expr::Call { .. } => {
            let t: Option<TailEval> = eval_tail_call(s, e, env, depth)?;
            return tail_or_value(s, t, e, env, depth);
        },
        Expr::TaggedTemplate { .. } => {
            let t: Option<TailEval> = eval_tail_tagged(s, e, env, depth)?;
            return tail_or_value(s, t, e, env, depth);
        },
        Expr::Cond { test, cons, alt } => {
            let v: Value = eval(s, &**test, env, depth)?;
            let b: bool = to_boolean(s, v)?;
            if b {
                return eval_return_expr(s, &**cons, env, depth);
            } else {
                return eval_return_expr(s, &**alt, env, depth);
            }
        },
        Expr::Sequence(items) => {
            if items.len() == 0 {
                let v: Value = eval(s, e, env, depth)?;
                return Ok(TailEval::Val(v));
            } else {
                let u: () = eval_front(s, items, env, depth)?;
                return eval_return_expr(s, &items[items.len() - 1], env, depth);
            }
        },
        Expr::Logical { op, left, right } => {
            let v: Value = eval(s, &**left, env, depth)?;
            let b: bool = takes_right(s, *op, v)?;
            if b {
                return eval_return_expr(s, &**right, env, depth);
            } else {
                return Ok(TailEval::Val(v));
            }
        },
        _ => {
            let v: Value = eval(s, e, env, depth)?;
            return Ok(TailEval::Val(v));
        },
    }
}

} // verus!
