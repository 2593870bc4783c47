//! Statements.
use vstd::prelude::*;

use crate::ast::{DeclKind, Expr, ForInit, Function, Pattern, Stmt, SwitchCase};
use crate::grammar::Symbol;
use crate::interp::class::{eval_class, eval_class_step};
use crate::interp::eval::{
    bind_pattern, bind_pattern_step, eval, eval_named, eval_named_step, eval_step,
    name_if_anonymous, name_if_anonymous_step, pattern_name, pattern_name_of, BindMode,
};
use crate::interp::object::{
    annexb_fn_sync_eval, annexb_fn_sync_eval_step, enum_keys, enum_keys_step, js_has_property,
    js_has_property_step, put_resolved, put_resolved_step, resolve_name, resolve_name_step,
    RefBase,
};
use crate::interp::operate::{
    call_bare, call_bare_step, get_iterator, get_iterator_step, is_callable, is_callable_step,
    iterator_close, iterator_close_normal, iterator_close_normal_step, iterator_close_step,
    iterator_step, iterator_step_step, key_of_value, make_suppressed, make_suppressed_step,
    name_function, name_function_step, strict_equals, strict_equals_step, throw, throws,
    to_boolean, to_boolean_step, value_key,
};
use crate::interp::promise::{
    coro_await, coro_await_step, new_promise, new_promise_step, promise_then, promise_then_step,
    reject_promise, reject_promise_step,
};
use crate::interp::session::{
    asks, asks_flag, asks_handle, next, Abrupt, Answers, Completion, Disposable, Env, ErrorKind,
    Flags, Host, Key, Name, Request, Session, Step, TailCall, Value, WellKnown, World,
};
use crate::interp::suspend::{
    async_for_await_close, async_for_await_close_step, async_iterator, async_iterator_step,
};
use crate::interp::tail::{eval_return_expr, eval_return_expr_step, TailEval};
use crate::scan::{
    any_lexical, any_using, default_case, default_from, disposing, exported, has_label,
    labeled_with, stmts_declare_lexical, stmts_declare_using, strip_labels, unlabeled,
    unwrap_export,
};

verus! {

/// The function that a statement declares in the scope of its block, and its name.
pub open spec fn function_of<'a>(st: &'a Stmt) -> Option<(&'a Function, &'a String)> {
    match unlabeled(exported(st)) {
        Stmt::FuncDecl(f) => match &f.name {
            Some(n) => Some((&**f, n)),
            None => None,
        },
        _ => None,
    }
}

fn declared_function<'a>(st: &'a Stmt) -> (r: Option<(&'a Function, &'a String)>)
    ensures
        r == function_of(st),
{
    match strip_labels(unwrap_export(st)) {
        Stmt::FuncDecl(f) => match &f.name {
            Some(n) => Some((&**f, n)),
            None => None,
        },
        _ => None,
    }
}

/// How one round of a loop ends, if not early: with the value of the body.
#[derive(Clone, Copy, PartialEq, Eq, Structural, Debug)]
pub enum LoopStep {
    Continue(Value),
    Done(Value),
}

/// A completion value in place of an earlier one: it counts unless it is empty.
pub open spec fn kept(new: Value, old_value: Value) -> Value {
    if new == Value::Empty {
        old_value
    } else {
        new
    }
}

fn keep(new: Value, old_value: Value) -> (r: Value)
    ensures
        r == kept(new, old_value),
{
    if matches!(new, Value::Empty) {
        old_value
    } else {
        new
    }
}

/// UpdateEmpty for a jump: a `break` or `continue` without a value takes the one given.
pub open spec fn filled<'a>(a: Abrupt<'a>, v: Value) -> Abrupt<'a> {
    match a {
        Abrupt::Break(l, x) => Abrupt::Break(l, kept(x, v)),
        Abrupt::Continue(l, x) => Abrupt::Continue(l, kept(x, v)),
        _ => a,
    }
}

/// UpdateEmpty for a jump: a `break` or `continue` without a value takes the one given.
pub fn update_abrupt_empty<'a>(a: Abrupt<'a>, v: Value) -> (r: Abrupt<'a>)
    ensures
        r == filled(a, v),
{
    match a {
        Abrupt::Break(l, x) => Abrupt::Break(l, keep(x, v)),
        Abrupt::Continue(l, x) => Abrupt::Continue(l, keep(x, v)),
        _ => a,
    }
}

/// UpdateEmpty with `undefined`.
pub open spec fn completed<'a>(r: Completion<'a>) -> Completion<'a> {
    match r {
        Ok(v) => Ok(kept(v, Value::Undefined)),
        Err(a) => Err(filled(a, Value::Undefined)),
    }
}

/// UpdateEmpty with `undefined`: what a statement that never completes empty completes with.
pub fn update_empty<'a>(r: Completion<'a>) -> (out: Completion<'a>)
    ensures
        out == completed(r),
{
    match r {
        Ok(v) => Ok(keep(v, Value::Undefined)),
        Err(a) => Err(update_abrupt_empty(a, Value::Undefined)),
    }
}

/// Whether a resource only stands for a wait at the end of its block.
pub open spec fn only_waits(d: Disposable) -> bool {
    d.method_is_async && d.method == Value::Undefined
}

fn is_wait(d: &Disposable) -> (r: bool)
    ensures
        r == only_waits(*d),
{
    d.method_is_async && matches!(d.method, Value::Undefined)
}

/// Whether a frame holds a resource that only stands for a wait.
pub open spec fn any_wait(frame: Seq<Disposable>) -> bool {
    exists|i: int| 0 <= i < frame.len() && only_waits(#[trigger] frame[i])
}

fn has_wait(frame: &Vec<Disposable>) -> (r: bool)
    ensures
        r == any_wait(frame@),
{
    let mut i: usize = 0;
    while i < frame.len()
        invariant
            i <= frame.len(),
            forall|j: int| 0 <= j < i ==> !only_waits(#[trigger] frame@[j]),
        decreases frame.len() - i,
    {
        if is_wait(&frame[i]) {
            return true;
        }
        i = i + 1;
    }
    false
}

/// How the names of a declaration are bound.
pub open spec fn mode_of(kind: DeclKind) -> BindMode {
    match kind {
        DeclKind::Var => BindMode::Var,
        DeclKind::Let => BindMode::Lexical(false),
        _ => BindMode::Lexical(true),
    }
}

fn bind_mode(kind: DeclKind) -> (r: BindMode)
    ensures
        r == mode_of(kind),
{
    match kind {
        DeclKind::Var => BindMode::Var,
        DeclKind::Let => BindMode::Lexical(false),
        _ => BindMode::Lexical(true),
    }
}

fn is_using(kind: DeclKind) -> (r: bool)
    ensures
        r == disposing(kind),
{
    matches!(kind, DeclKind::Using | DeclKind::AwaitUsing)
}

/// How the head of a `for`-`in` or `for`-`of` loop binds: without a declaration it assigns.
pub open spec fn head_mode_of(decl: Option<DeclKind>) -> BindMode {
    match decl {
        Some(kind) => mode_of(kind),
        None => BindMode::Var,
    }
}

fn head_mode(decl: Option<DeclKind>) -> (r: BindMode)
    ensures
        r == head_mode_of(decl),
{
    match decl {
        Some(kind) => bind_mode(kind),
        None => BindMode::Var,
    }
}

/// Whether a `for` head declares resources.
pub open spec fn init_disposes(init: &Option<Box<ForInit>>) -> bool {
    match init {
        Some(b) => match **b {
            ForInit::VarDecl { kind, decls: _ } => disposing(kind),
            _ => false,
        },
        None => false,
    }
}

fn declares_resources(init: &Option<Box<ForInit>>) -> (r: bool)
    ensures
        r == init_disposes(init),
{
    match init {
        Some(b) => match &**b {
            ForInit::VarDecl { kind, decls: _ } => is_using(*kind),
            _ => false,
        },
        None => false,
    }
}

/// The declarations of a `let` head, whose names are bound anew in each round.
pub open spec fn let_decls<'a>(init: &'a Option<Box<ForInit>>) -> Option<
    &'a Vec<(Pattern, Option<Expr>)>,
> {
    match init {
        Some(b) => match &**b {
            ForInit::VarDecl { kind, decls } => if *kind == DeclKind::Let {
                Some(decls)
            } else {
                None
            },
            _ => None,
        },
        None => None,
    }
}

fn let_head<'a>(init: &'a Option<Box<ForInit>>) -> (r: Option<&'a Vec<(Pattern, Option<Expr>)>>)
    ensures
        r == let_decls(init),
{
    match init {
        Some(b) => match &**b {
            ForInit::VarDecl { kind, decls } => if *kind == DeclKind::Let {
                Some(decls)
            } else {
                None
            },
            _ => None,
        },
        None => None,
    }
}

// ---- resources

/// GetDisposeMethod: the method that disposes of a value, and whether its result is waited for.
pub open spec fn dispose_method_step<'a>(
    value: Value,
    asynchronous: bool,
    w: World<'a>,
) -> Step<'a, (Value, bool)>
{
    next(
        if asynchronous {
            next(
                asks_handle(Request::WellKnownKey(WellKnown::AsyncDispose), w),
                |key: u64, w: World<'a>|
                    next(
                        asks(Request::GetMember { base: value, key: Key::Symbol(key) }, w),
                        |f: Value, w: World<'a>|
                            next(
                                is_callable_step(f, w),
                                |c: bool, w: World<'a>| (Ok((f, c)), w),
                            ),
                    ),
            )
        } else {
            (Ok((Value::Undefined, false)), w)
        },
        |first: (Value, bool), w: World<'a>|
            next(
                if first.0.is_nullish() {
                    next(
                        asks_handle(Request::WellKnownKey(WellKnown::Dispose), w),
                        |key: u64, w: World<'a>|
                            asks(Request::GetMember { base: value, key: Key::Symbol(key) }, w),
                    )
                } else {
                    (Ok(first.0), w)
                },
                |method: Value, w: World<'a>|
                    next(
                        is_callable_step(method, w),
                        |ok: bool, w: World<'a>|
                            if ok {
                                (Ok((method, first.1)), w)
                            } else {
                                throws(ErrorKind::TypeError, "value is not disposable", w)
                            },
                    ),
            ),
    )
}

/// GetDisposeMethod: the method that disposes of a value, and whether its result is waited for.
pub fn dispose_method<'h, 'a, H: Host<'a>>(
    s: &mut Session<'h, 'a, H>,
    value: Value,
    asynchronous: bool,
) -> (out: Result<(Value, bool), Abrupt<'a>>)
    ensures
        final(s).continues(*old(s)),
        forall|answers: Answers<'a>| #[trigger]
            final(s).agrees(answers) ==> old(s).agrees(answers) && (out, final(s).world(answers))
                == dispose_method_step(value, asynchronous, old(s).world(answers)),
{
    let first: (Value, bool) = if asynchronous {
        let key: u64 = s.handle(Request::WellKnownKey(WellKnown::AsyncDispose))?;
        let f: Value = s.value(Request::GetMember { base: value, key: Key::Symbol(key) })?;
        let c: bool = is_callable(s, f)?;
        (f, c)
    } else {
        (Value::Undefined, false)
    };
    let method: Value = if first.0.is_nullish() {
        let key: u64 = s.handle(Request::WellKnownKey(WellKnown::Dispose))?;
        s.value(Request::GetMember { base: value, key: Key::Symbol(key) })?
    } else {
        first.0
    };
    let ok: bool = is_callable(s, method)?;
    if ok {
        return Ok((method, first.1));
    } else {
        return throw(s, ErrorKind::TypeError, "value is not disposable");
    }
}

/// Takes a resource into the innermost frame. A nullish one is left out, but for `await using`,
/// which still waits once at the end.
pub open spec fn add_disposable_step<'a>(
    value: Value,
    asynchronous: bool,
    w: World<'a>,
) -> Step<'a, ()>
{
    if value.is_nullish() {
        if asynchronous {
            let w = w.add_resource(Disposable { value: Value::Undefined, method: Value::Undefined, method_is_async: true });
            (Ok(()), w)
        } else {
            (Ok(()), w)
        }
    } else {
        next(
            dispose_method_step(value, asynchronous, w),
            |m: (Value, bool), w: World<'a>| {
                let w = w.add_resource(Disposable { value, method: m.0, method_is_async: m.1 });
                (Ok(()), w)
            },
        )
    }
}

/// Takes a resource into the innermost frame. A nullish one is left out, but for `await using`,
/// which still waits once at the end.
pub fn add_disposable<'h, 'a, H: Host<'a>>(
    s: &mut Session<'h, 'a, H>,
    value: Value,
    asynchronous: bool,
) -> (out: Result<(), Abrupt<'a>>)
    ensures
        final(s).continues(*old(s)),
        forall|answers: Answers<'a>| #[trigger]
            final(s).agrees(answers) ==> old(s).agrees(answers) && (out, final(s).world(answers))
                == add_disposable_step(value, asynchronous, old(s).world(answers)),
{
    if value.is_nullish() {
        if asynchronous {
            s.add_resource(Disposable { value: Value::Undefined, method: Value::Undefined, method_is_async: true });
            return Ok(());
        } else {
            return Ok(());
        }
    } else {
        let m: (Value, bool) = dispose_method(s, value, asynchronous)?;
        s.add_resource(Disposable { value, method: m.0, method_is_async: m.1 });
        return Ok(());
    }
}

/// Disposes of one resource.
pub open spec fn dispose_one_step<'a>(d: Disposable, w: World<'a>) -> Step<'a, Value>
{
    next(
        call_bare_step(d.method, d.value, w),
        |r: Value, w: World<'a>|
            if d.method_is_async {
                coro_await_step(r, w)
            } else {
                (Ok(r), w)
            },
    )
}

/// Disposes of one resource.
pub fn dispose_one<'h, 'a, H: Host<'a>>(
    s: &mut Session<'h, 'a, H>,
    d: Disposable,
) -> (out: Result<Value, Abrupt<'a>>)
    ensures
        final(s).continues(*old(s)),
        forall|answers: Answers<'a>| #[trigger]
            final(s).agrees(answers) ==> old(s).agrees(answers) && (out, final(s).world(answers))
                == dispose_one_step(d, old(s).world(answers)),
{
    let r: Value = call_bare(s, d.method, d.value)?;
    if d.method_is_async {
        return coro_await(s, r);
    } else {
        return Ok(r);
    }
}

/// Disposes of the resources of a frame, the last one first. An error takes the place of a normal
/// completion and is chained to an earlier error; the flag is whether all were disposed of. With
/// `i` items left.
pub open spec fn dispose_each_from<'a>(
    frame: Seq<Disposable>,
    result: Completion<'a>,
    i: nat,
    completion: Completion<'a>,
    w: World<'a>,
) -> ((Completion<'a>, bool), World<'a>)
    decreases i,
{
    if i == 0 {
        ((completion, true), w)
    } else {
        let d: Disposable = frame[i - 1];
        if only_waits(d) {
            dispose_each_from(frame, result, (i - 1) as nat, completion, w)
        } else {
            let (r, w) = dispose_one_step(d, w);
            match r {
                Ok(_) => dispose_each_from(frame, result, (i - 1) as nat, completion, w),
                Err(Abrupt::Throw(e)) => {
                    match completion {
                        Ok(_) => {
                            dispose_each_from(
                                frame,
                                result,
                                (i - 1) as nat,
                                Err(Abrupt::Throw(e)),
                                w,
                            )
                        },
                        Err(Abrupt::Throw(before)) => {
                            let (x, w) = make_suppressed_step(e, before, w);
                            match x {
                                Ok(v) => {
                                    dispose_each_from(
                                        frame,
                                        result,
                                        (i - 1) as nat,
                                        Err(Abrupt::Throw(v)),
                                        w,
                                    )
                                },
                                Err(a) => ((Err(a), false), w),
                            }
                        },
                        Err(_) => {
                            dispose_each_from(
                                frame,
                                result,
                                (i - 1) as nat,
                                Err(Abrupt::Throw(e)),
                                w,
                            )
                        },
                    }
                },
                Err(a) => ((Err(a), false), w),
            }
        }
    }
}

/// Disposes of the resources of a frame, the last one first. An error takes the place of a normal
/// completion and is chained to an earlier error; the flag is whether all were disposed of.
pub open spec fn dispose_each_step<'a>(
    frame: Seq<Disposable>,
    result: Completion<'a>,
    w: World<'a>,
) -> ((Completion<'a>, bool), World<'a>)
{
    dispose_each_from(frame, result, frame.len(), result, w)
}

/// Disposes of the resources of a frame, the last one first. An error takes the place of a normal
/// completion and is chained to an earlier error; the flag is whether all were disposed of.
pub fn dispose_each<'h, 'a, H: Host<'a>>(
    s: &mut Session<'h, 'a, H>,
    frame: &Vec<Disposable>,
    result: Completion<'a>,
) -> (out: (Completion<'a>, bool))
    ensures
        final(s).continues(*old(s)),
        forall|answers: Answers<'a>| #[trigger]
            final(s).agrees(answers) ==> old(s).agrees(answers) && (out, final(s).world(answers))
                == dispose_each_step(frame@, result, old(s).world(answers)),
{
    let mut completion: Completion<'a> = result;
    let mut i: usize = frame.len();
    while i > 0
        invariant
            i <= frame.len(),
            s.continues(*old(s)),
            forall|answers: Answers<'a>| #[trigger]
                s.agrees(answers) ==> old(s).agrees(answers)
                    && dispose_each_step(frame@, result, old(s).world(answers))
                    == dispose_each_from(frame@, result, i as nat, completion, s.world(answers)),
        decreases i,
    {
        let d: Disposable = frame[i - 1];
        if is_wait(&d) {
        } else {
            let r: Completion<'a> = dispose_one(s, d);
            match r {
                Ok(_) => {
                },
                Err(Abrupt::Throw(e)) => {
                    match completion {
                        Ok(_) => {
                            completion = Err(Abrupt::Throw(e));
                        },
                        Err(Abrupt::Throw(before)) => {
                            let x: Completion<'a> = make_suppressed(s, e, before);
                            match x {
                                Ok(v) => {
                                    completion = Err(Abrupt::Throw(v));
                                },
                                Err(a) => {
                                    return (Err(a), false);
                                },
                            }
                        },
                        Err(_) => {
                            completion = Err(Abrupt::Throw(e));
                        },
                    }
                },
                Err(a) => {
                    return (Err(a), false);
                },
            }
        }
        i = i - 1;
    }
    return (completion, true);
}

/// Disposes of a frame at the end of its block, which ended as given.
pub open spec fn dispose_frame_step<'a>(
    frame: Seq<Disposable>,
    result: Completion<'a>,
    w: World<'a>,
) -> Step<'a, Value>
{
    let (r, w) = dispose_each_step(frame, result, w);
    if r.1 && any_wait(frame) {
        next(
            asks_flag(Request::InCoroutine, w),
            |inside: bool, w: World<'a>|
                if inside {
                    next(
                        asks(Request::Await(Value::Undefined), w),
                        |v: Value, w: World<'a>| (r.0, w),
                    )
                } else {
                    (r.0, w)
                },
        )
    } else {
        (r.0, w)
    }
}

/// Disposes of a frame at the end of its block, which ended as given.
pub fn dispose_frame<'h, 'a, H: Host<'a>>(
    s: &mut Session<'h, 'a, H>,
    frame: &Vec<Disposable>,
    result: Completion<'a>,
) -> (out: Result<Value, Abrupt<'a>>)
    ensures
        final(s).continues(*old(s)),
        forall|answers: Answers<'a>| #[trigger]
            final(s).agrees(answers) ==> old(s).agrees(answers) && (out, final(s).world(answers))
                == dispose_frame_step(frame@, result, old(s).world(answers)),
{
    let r: (Completion<'a>, bool) = dispose_each(s, frame, result);
    if r.1 && has_wait(frame) {
        let inside: bool = s.flag(Request::InCoroutine)?;
        if inside {
            let v: Value = s.value(Request::Await(Value::Undefined))?;
            return r.0;
        } else {
            return r.0;
        }
    } else {
        return r.0;
    }
}

// ---- declarations

/// The initial value of a declaration. An anonymous function or class takes the declared name.
pub open spec fn decl_value_step<'a>(
    pattern: &'a Pattern,
    init: &'a Option<Expr>,
    env: Env,
    depth: u64,
    w: World<'a>,
) -> Step<'a, Value>
    decreases depth, init, 1nat, 0nat,
{
    match init {
        Some(e) => {
            match pattern {
                Pattern::Ident(n) => {
                    eval_named_step(e, Name::Source(n), Key::Source(n), env, depth, w)
                },
                _ => eval_step(e, env, depth, w),
            }
        },
        None => (Ok(Value::Undefined), w),
    }
}

/// The initial value of a declaration. An anonymous function or class takes the declared name.
pub fn decl_value<'h, 'a, H: Host<'a>>(
    s: &mut Session<'h, 'a, H>,
    pattern: &'a Pattern,
    init: &'a Option<Expr>,
    env: Env,
    depth: u64,
) -> (out: Result<Value, Abrupt<'a>>)
    ensures
        final(s).continues(*old(s)),
        forall|answers: Answers<'a>| #[trigger]
            final(s).agrees(answers) ==> old(s).agrees(answers) && (out, final(s).world(answers))
                == decl_value_step(pattern, init, env, depth, old(s).world(answers)),
    decreases depth, init, 1nat, 0nat,
{
    match init {
        Some(e) => {
            match pattern {
                Pattern::Ident(n) => {
                    return eval_named(s, e, Name::Source(n), Key::Source(n), env, depth);
                },
                _ => {
                    return eval(s, e, env, depth);
                },
            }
        },
        None => {
            return Ok(Value::Undefined);
        },
    }
}

/// The initial value of a resource.
pub open spec fn resource_value_step<'a>(
    pattern: &'a Pattern,
    init: &'a Option<Expr>,
    env: Env,
    depth: u64,
    w: World<'a>,
) -> Step<'a, Value>
    decreases depth, init, 1nat, 0nat,
{
    match init {
        Some(e) => {
            next(
                eval_step(e, env, depth, w),
                |v: Value, w: World<'a>| {
                    let n: Option<&'a String> = pattern_name_of(pattern);
                    next(
                        name_if_anonymous_step(e, n, v, w),
                        |u: (), w: World<'a>| (Ok(v), w),
                    )
                },
            )
        },
        None => (Ok(Value::Undefined), w),
    }
}

/// The initial value of a resource.
pub fn resource_value<'h, 'a, H: Host<'a>>(
    s: &mut Session<'h, 'a, H>,
    pattern: &'a Pattern,
    init: &'a Option<Expr>,
    env: Env,
    depth: u64,
) -> (out: Result<Value, Abrupt<'a>>)
    ensures
        final(s).continues(*old(s)),
        forall|answers: Answers<'a>| #[trigger]
            final(s).agrees(answers) ==> old(s).agrees(answers) && (out, final(s).world(answers))
                == resource_value_step(pattern, init, env, depth, old(s).world(answers)),
    decreases depth, init, 1nat, 0nat,
{
    match init {
        Some(e) => {
            let v: Value = eval(s, e, env, depth)?;
            let n: Option<&'a String> = pattern_name(pattern);
            let u: () = name_if_anonymous(s, e, n, v)?;
            return Ok(v);
        },
        None => {
            return Ok(Value::Undefined);
        },
    }
}

/// A `var` declaration. Without an initial value it leaves its name alone; a name is resolved
/// before the initial value is computed.
pub open spec fn exec_var_step<'a>(
    declared: &'a (Pattern, Option<Expr>),
    env: Env,
    depth: u64,
    w: World<'a>,
) -> Step<'a, ()>
    decreases depth, declared, 1nat, 0nat,
{
    match &declared.1 {
        None => (Ok(()), w),
        Some(e) => {
            match &declared.0 {
                Pattern::Ident(n) => {
                    next(
                        resolve_name_step(n, env, w),
                        |base: RefBase, w: World<'a>|
                            next(
                                eval_named_step(e, Name::Source(n), Key::Source(n), env, depth, w),
                                |v: Value, w: World<'a>| put_resolved_step(base, n, v, w),
                            ),
                    )
                },
                _ => {
                    next(
                        eval_step(e, env, depth, w),
                        |v: Value, w: World<'a>|
                            bind_pattern_step(&declared.0, v, env, BindMode::Var, depth, w),
                    )
                },
            }
        },
    }
}

/// A `var` declaration. Without an initial value it leaves its name alone; a name is resolved
/// before the initial value is computed.
pub fn exec_var<'h, 'a, H: Host<'a>>(
    s: &mut Session<'h, 'a, H>,
    declared: &'a (Pattern, Option<Expr>),
    env: Env,
    depth: u64,
) -> (out: Result<(), Abrupt<'a>>)
    ensures
        final(s).continues(*old(s)),
        forall|answers: Answers<'a>| #[trigger]
            final(s).agrees(answers) ==> old(s).agrees(answers) && (out, final(s).world(answers))
                == exec_var_step(declared, env, depth, old(s).world(answers)),
    decreases depth, declared, 1nat, 0nat,
{
    match &declared.1 {
        None => {
            return Ok(());
        },
        Some(e) => {
            match &declared.0 {
                Pattern::Ident(n) => {
                    let base: RefBase = resolve_name(s, n, env)?;
                    let v: Value = eval_named(s, e, Name::Source(n), Key::Source(n), env, depth)?;
                    return put_resolved(s, base, n, v);
                },
                _ => {
                    let v: Value = eval(s, e, env, depth)?;
                    return bind_pattern(s, &declared.0, v, env, BindMode::Var, depth);
                },
            }
        },
    }
}

/// The declarations of one statement. From the item at `i` on.
pub open spec fn exec_decls_from<'a>(
    decls: &'a Vec<(Pattern, Option<Expr>)>,
    kind: DeclKind,
    env: Env,
    depth: u64,
    i: nat,
    w: World<'a>,
) -> Step<'a, Value>
    decreases depth, decls, 0nat, decls@.len() - i,
{
    if i >= decls@.len() {
        (Ok(Value::Empty), w)
    } else {
        match kind {
            DeclKind::Var => {
                next(
                    exec_var_step(&decls@[i as int], env, depth, w),
                    |u: (), w: World<'a>| exec_decls_from(decls, kind, env, depth, i + 1, w),
                )
            },
            DeclKind::Let | DeclKind::Const => {
                next(
                    decl_value_step(&decls@[i as int].0, &decls@[i as int].1, env, depth, w),
                    |v: Value, w: World<'a>|
                        next(
                            bind_pattern_step(&decls@[i as int].0, v, env, mode_of(kind), depth, w),
                            |u: (), w: World<'a>|
                                exec_decls_from(decls, kind, env, depth, i + 1, w),
                        ),
                )
            },
            DeclKind::Using | DeclKind::AwaitUsing => {
                next(
                    resource_value_step(&decls@[i as int].0, &decls@[i as int].1, env, depth, w),
                    |v: Value, w: World<'a>|
                        next(
                            add_disposable_step(v, kind == DeclKind::AwaitUsing, w),
                            |d: (), w: World<'a>|
                                next(
                                    bind_pattern_step(
                                        &decls@[i as int].0,
                                        v,
                                        env,
                                        BindMode::Lexical(true),
                                        depth,
                                        w,
                                    ),
                                    |u: (), w: World<'a>|
                                        exec_decls_from(decls, kind, env, depth, i + 1, w),
                                ),
                        ),
                )
            },
        }
    }
}

/// The declarations of one statement.
pub open spec fn exec_decls_step<'a>(
    decls: &'a Vec<(Pattern, Option<Expr>)>,
    kind: DeclKind,
    env: Env,
    depth: u64,
    w: World<'a>,
) -> Step<'a, Value>
    decreases depth, decls, 0nat, decls@.len() + 1,
{
    exec_decls_from(decls, kind, env, depth, 0, w)
}

/// The declarations of one statement.
#[verifier::spinoff_prover]
pub fn exec_decls<'h, 'a, H: Host<'a>>(
    s: &mut Session<'h, 'a, H>,
    decls: &'a Vec<(Pattern, Option<Expr>)>,
    kind: DeclKind,
    env: Env,
    depth: u64,
) -> (out: Result<Value, Abrupt<'a>>)
    ensures
        final(s).continues(*old(s)),
        forall|answers: Answers<'a>| #[trigger]
            final(s).agrees(answers) ==> old(s).agrees(answers) && (out, final(s).world(answers))
                == exec_decls_step(decls, kind, env, depth, old(s).world(answers)),
    decreases depth, decls, 0nat, decls@.len() + 1,
{
    let mut i: usize = 0;
    while i < decls.len()
        invariant
            i <= decls.len(),
            s.continues(*old(s)),
            forall|answers: Answers<'a>| #[trigger]
                s.agrees(answers) ==> old(s).agrees(answers)
                    && exec_decls_step(decls, kind, env, depth, old(s).world(answers))
                    == exec_decls_from(decls, kind, env, depth, i as nat, s.world(answers)),
        decreases decls.len() - i,
    {
        match kind {
            DeclKind::Var => {
                let u: () = exec_var(s, &decls[i], env, depth)?;
            },
            DeclKind::Let | DeclKind::Const => {
                let v: Value = decl_value(s, &decls[i].0, &decls[i].1, env, depth)?;
                let u: () = bind_pattern(s, &decls[i].0, v, env, bind_mode(kind), depth)?;
            },
            DeclKind::Using | DeclKind::AwaitUsing => {
                let v: Value = resource_value(s, &decls[i].0, &decls[i].1, env, depth)?;
                let d: () = add_disposable(s, v, kind == DeclKind::AwaitUsing)?;
                let u: () = bind_pattern(s, &decls[i].0, v, env, BindMode::Lexical(true), depth)?;
            },
        }
        i = i + 1;
    }
    return Ok(Value::Empty);
}

/// Declares the lexical names of statements, not yet initialized; a function is there from the
/// start. From the item at `i` on.
pub open spec fn declare_lexicals_from<'a>(
    stmts: &'a Vec<Stmt>,
    env: Env,
    i: nat,
    w: World<'a>,
) -> Step<'a, ()>
    decreases stmts@.len() - i,
{
    if i >= stmts@.len() {
        (Ok(()), w)
    } else {
        let f: Option<(&'a Function, &'a String)> = function_of(&stmts@[i as int]);
        match f {
            Some((func, name)) => {
                next(
                    asks(Request::MakeFunction { func, env }, w),
                    |v: Value, w: World<'a>| {
                        let w = w.bind_var(Name::Source(name), v, env);
                        declare_lexicals_from(stmts, env, i + 1, w)
                    },
                )
            },
            None => {
                let w = w.declare_stmt(&stmts@[i as int], env);
                declare_lexicals_from(stmts, env, i + 1, w)
            },
        }
    }
}

/// Declares the lexical names of statements, not yet initialized; a function is there from the
/// start.
pub open spec fn declare_lexicals_step<'a>(
    stmts: &'a Vec<Stmt>,
    env: Env,
    w: World<'a>,
) -> Step<'a, ()>
{
    declare_lexicals_from(stmts, env, 0, w)
}

/// Declares the lexical names of statements, not yet initialized; a function is there from the
/// start.
pub fn declare_lexicals<'h, 'a, H: Host<'a>>(
    s: &mut Session<'h, 'a, H>,
    stmts: &'a Vec<Stmt>,
    env: Env,
) -> (out: Result<(), Abrupt<'a>>)
    ensures
        final(s).continues(*old(s)),
        forall|answers: Answers<'a>| #[trigger]
            final(s).agrees(answers) ==> old(s).agrees(answers) && (out, final(s).world(answers))
                == declare_lexicals_step(stmts, env, old(s).world(answers)),
{
    let mut i: usize = 0;
    while i < stmts.len()
        invariant
            i <= stmts.len(),
            s.continues(*old(s)),
            forall|answers: Answers<'a>| #[trigger]
                s.agrees(answers) ==> old(s).agrees(answers)
                    && declare_lexicals_step(stmts, env, old(s).world(answers))
                    == declare_lexicals_from(stmts, env, i as nat, s.world(answers)),
        decreases stmts.len() - i,
    {
        let f: Option<(&'a Function, &'a String)> = declared_function(&stmts[i]);
        match f {
            Some((func, name)) => {
                let v: Value = s.value(Request::MakeFunction { func, env })?;
                s.bind_var(Name::Source(name), v, env);
            },
            None => {
                s.declare_stmt(&stmts[i], env);
            },
        }
        i = i + 1;
    }
    return Ok(());
}

/// A function declaration: in a block of sloppy code it copies its function to the variable it
/// declares.
pub open spec fn sync_block_function_step<'a>(
    f: &'a Function,
    env: Env,
    w: World<'a>,
) -> Step<'a, ()>
{
    match &f.name {
        Some(n) => {
            next(
                asks_flag(Request::IsCopied(f), w),
                |copied: bool, w: World<'a>|
                    if copied {
                        annexb_fn_sync_eval_step(f, n, env, w)
                    } else {
                        (Ok(()), w)
                    },
            )
        },
        None => (Ok(()), w),
    }
}

/// A function declaration: in a block of sloppy code it copies its function to the variable it
/// declares.
pub fn sync_block_function<'h, 'a, H: Host<'a>>(
    s: &mut Session<'h, 'a, H>,
    f: &'a Function,
    env: Env,
) -> (out: Result<(), Abrupt<'a>>)
    ensures
        final(s).continues(*old(s)),
        forall|answers: Answers<'a>| #[trigger]
            final(s).agrees(answers) ==> old(s).agrees(answers) && (out, final(s).world(answers))
                == sync_block_function_step(f, env, old(s).world(answers)),
{
    match &f.name {
        Some(n) => {
            let copied: bool = s.flag(Request::IsCopied(f))?;
            if copied {
                return annexb_fn_sync_eval(s, f, n, env);
            } else {
                return Ok(());
            }
        },
        None => {
            return Ok(());
        },
    }
}

/// Declares the names of a loop head, not yet initialized. From the item at `i` on.
pub open spec fn declare_head_from<'a>(
    decls: &'a Vec<(Pattern, Option<Expr>)>,
    env: Env,
    i: nat,
    w: World<'a>,
) -> Step<'a, ()>
    decreases decls@.len() - i,
{
    if i >= decls@.len() {
        (Ok(()), w)
    } else {
        let w = w.declare_pattern(&decls@[i as int].0, env);
        declare_head_from(decls, env, i + 1, w)
    }
}

/// Declares the names of a loop head, not yet initialized.
pub open spec fn declare_head_step<'a>(
    decls: &'a Vec<(Pattern, Option<Expr>)>,
    env: Env,
    w: World<'a>,
) -> Step<'a, ()>
{
    declare_head_from(decls, env, 0, w)
}

/// Declares the names of a loop head, not yet initialized.
pub fn declare_head<'h, 'a, H: Host<'a>>(
    s: &mut Session<'h, 'a, H>,
    decls: &'a Vec<(Pattern, Option<Expr>)>,
    env: Env,
) -> (out: Result<(), Abrupt<'a>>)
    ensures
        final(s).continues(*old(s)),
        forall|answers: Answers<'a>| #[trigger]
            final(s).agrees(answers) ==> old(s).agrees(answers) && (out, final(s).world(answers))
                == declare_head_step(decls, env, old(s).world(answers)),
{
    let mut i: usize = 0;
    while i < decls.len()
        invariant
            i <= decls.len(),
            s.continues(*old(s)),
            forall|answers: Answers<'a>| #[trigger]
                s.agrees(answers) ==> old(s).agrees(answers)
                    && declare_head_step(decls, env, old(s).world(answers))
                    == declare_head_from(decls, env, i as nat, s.world(answers)),
        decreases decls.len() - i,
    {
        s.declare_pattern(&decls[i].0, env);
        i = i + 1;
    }
    return Ok(());
}

/// Initializes the declarations of a loop head. From the item at `i` on.
pub open spec fn init_head_from<'a>(
    decls: &'a Vec<(Pattern, Option<Expr>)>,
    kind: DeclKind,
    env: Env,
    depth: u64,
    i: nat,
    w: World<'a>,
) -> Step<'a, ()>
    decreases depth, decls, 0nat, decls@.len() - i,
{
    if i >= decls@.len() {
        (Ok(()), w)
    } else {
        next(
            match &decls@[i as int].1 {
                Some(e) => eval_step(e, env, depth, w),
                None => (Ok(Value::Undefined), w),
            },
            |v: Value, w: World<'a>|
                next(
                    if disposing(kind) {
                        add_disposable_step(v, kind == DeclKind::AwaitUsing, w)
                    } else {
                        (Ok(()), w)
                    },
                    |d: (), w: World<'a>|
                        next(
                            bind_pattern_step(&decls@[i as int].0, v, env, mode_of(kind), depth, w),
                            |u: (), w: World<'a>|
                                init_head_from(decls, kind, env, depth, i + 1, w),
                        ),
                ),
        )
    }
}

/// Initializes the declarations of a loop head.
pub open spec fn init_head_step<'a>(
    decls: &'a Vec<(Pattern, Option<Expr>)>,
    kind: DeclKind,
    env: Env,
    depth: u64,
    w: World<'a>,
) -> Step<'a, ()>
    decreases depth, decls, 0nat, decls@.len() + 1,
{
    init_head_from(decls, kind, env, depth, 0, w)
}

/// Initializes the declarations of a loop head.
pub fn init_head<'h, 'a, H: Host<'a>>(
    s: &mut Session<'h, 'a, H>,
    decls: &'a Vec<(Pattern, Option<Expr>)>,
    kind: DeclKind,
    env: Env,
    depth: u64,
) -> (out: Result<(), Abrupt<'a>>)
    ensures
        final(s).continues(*old(s)),
        forall|answers: Answers<'a>| #[trigger]
            final(s).agrees(answers) ==> old(s).agrees(answers) && (out, final(s).world(answers))
                == init_head_step(decls, kind, env, depth, old(s).world(answers)),
    decreases depth, decls, 0nat, decls@.len() + 1,
{
    let mut i: usize = 0;
    while i < decls.len()
        invariant
            i <= decls.len(),
            s.continues(*old(s)),
            forall|answers: Answers<'a>| #[trigger]
                s.agrees(answers) ==> old(s).agrees(answers)
                    && init_head_step(decls, kind, env, depth, old(s).world(answers))
                    == init_head_from(decls, kind, env, depth, i as nat, s.world(answers)),
        decreases decls.len() - i,
    {
        let v: Value = match &decls[i].1 {
            Some(e) => {
                eval(s, e, env, depth)?
            },
            None => {
                Value::Undefined
            },
        };
        let d: () = if is_using(kind) {
            add_disposable(s, v, kind == DeclKind::AwaitUsing)?
        } else {
            ()
        };
        let u: () = bind_pattern(s, &decls[i].0, v, env, bind_mode(kind), depth)?;
        i = i + 1;
    }
    return Ok(());
}

/// The first part of a `for` head.
pub open spec fn exec_for_init_step<'a>(
    init: &'a Option<Box<ForInit>>,
    env: Env,
    depth: u64,
    w: World<'a>,
) -> Step<'a, ()>
    decreases depth, init, 1nat, 0nat,
{
    match init {
        None => (Ok(()), w),
        Some(b) => {
            match &**b {
                ForInit::Expr(e) => {
                    next(
                        eval_step(e, env, depth, w),
                        |v: Value, w: World<'a>| (Ok(()), w),
                    )
                },
                ForInit::VarDecl { kind, decls } => {
                    next(
                        if *kind == DeclKind::Let || *kind == DeclKind::Const {
                            declare_head_step(decls, env, w)
                        } else {
                            (Ok(()), w)
                        },
                        |u: (), w: World<'a>| init_head_step(decls, *kind, env, depth, w),
                    )
                },
            }
        },
    }
}

/// The first part of a `for` head.
pub fn exec_for_init<'h, 'a, H: Host<'a>>(
    s: &mut Session<'h, 'a, H>,
    init: &'a Option<Box<ForInit>>,
    env: Env,
    depth: u64,
) -> (out: Result<(), Abrupt<'a>>)
    ensures
        final(s).continues(*old(s)),
        forall|answers: Answers<'a>| #[trigger]
            final(s).agrees(answers) ==> old(s).agrees(answers) && (out, final(s).world(answers))
                == exec_for_init_step(init, env, depth, old(s).world(answers)),
    decreases depth, init, 1nat, 0nat,
{
    match init {
        None => {
            return Ok(());
        },
        Some(b) => {
            match &**b {
                ForInit::Expr(e) => {
                    let v: Value = eval(s, e, env, depth)?;
                    return Ok(());
                },
                ForInit::VarDecl { kind, decls } => {
                    let u: () = if *kind == DeclKind::Let || *kind == DeclKind::Const {
                        declare_head(s, decls, env)?
                    } else {
                        ()
                    };
                    return init_head(s, decls, *kind, env, depth);
                },
            }
        },
    }
}

/// The declaration of a default export that has no name.
pub open spec fn export_value_step<'a>(v: Value, env: Env, w: World<'a>) -> Step<'a, Value>
{
    let w = w.init_lexical(Name::Fixed("*default*"), v, false, env);
    (Ok(Value::Empty), w)
}

/// The declaration of a default export that has no name.
pub fn export_value<'h, 'a, H: Host<'a>>(
    s: &mut Session<'h, 'a, H>,
    v: Value,
    env: Env,
) -> (out: Result<Value, Abrupt<'a>>)
    ensures
        final(s).continues(*old(s)),
        forall|answers: Answers<'a>| #[trigger]
            final(s).agrees(answers) ==> old(s).agrees(answers) && (out, final(s).world(answers))
                == export_value_step(v, env, old(s).world(answers)),
{
    s.init_lexical(Name::Fixed("*default*"), v, false, env);
    return Ok(Value::Empty);
}

// ---- loops

/// Takes the end of a round into account: the loop goes on, is done, or ends early. A jump that is
/// meant for this loop ends here.
pub open spec fn settle_step<'a>(
    step: Result<LoopStep, Abrupt<'a>>,
    whole: &'a Stmt,
    v: Value,
    w: World<'a>,
) -> Step<'a, LoopStep>
{
    match step {
        Ok(LoopStep::Continue(x)) => (Ok(LoopStep::Continue(kept(x, v))), w),
        Ok(LoopStep::Done(x)) => (Ok(LoopStep::Done(kept(x, v))), w),
        Err(Abrupt::Break(None, x)) => (Ok(LoopStep::Done(kept(x, v))), w),
        Err(Abrupt::Continue(None, x)) => (Ok(LoopStep::Continue(kept(x, v))), w),
        Err(Abrupt::Break(Some(l), x)) => {
            if labeled_with(whole, l@) {
                (Ok(LoopStep::Done(kept(x, v))), w)
            } else {
                (Err(Abrupt::Break(Some(l), kept(x, v))), w)
            }
        },
        Err(Abrupt::Continue(Some(l), x)) => {
            if labeled_with(whole, l@) {
                (Ok(LoopStep::Continue(kept(x, v))), w)
            } else {
                (Err(Abrupt::Continue(Some(l), kept(x, v))), w)
            }
        },
        Err(a) => (Err(a), w),
    }
}

/// Takes the end of a round into account: the loop goes on, is done, or ends early. A jump that is
/// meant for this loop ends here.
pub fn settle<'h, 'a, H: Host<'a>>(
    s: &mut Session<'h, 'a, H>,
    step: Result<LoopStep, Abrupt<'a>>,
    whole: &'a Stmt,
    v: Value,
) -> (out: Result<LoopStep, Abrupt<'a>>)
    ensures
        final(s).continues(*old(s)),
        forall|answers: Answers<'a>| #[trigger]
            final(s).agrees(answers) ==> old(s).agrees(answers) && (out, final(s).world(answers))
                == settle_step(step, whole, v, old(s).world(answers)),
{
    match step {
        Ok(LoopStep::Continue(x)) => {
            return Ok(LoopStep::Continue(keep(x, v)));
        },
        Ok(LoopStep::Done(x)) => {
            return Ok(LoopStep::Done(keep(x, v)));
        },
        Err(Abrupt::Break(None, x)) => {
            return Ok(LoopStep::Done(keep(x, v)));
        },
        Err(Abrupt::Continue(None, x)) => {
            return Ok(LoopStep::Continue(keep(x, v)));
        },
        Err(Abrupt::Break(Some(l), x)) => {
            if has_label(whole, l) {
                return Ok(LoopStep::Done(keep(x, v)));
            } else {
                return Err(Abrupt::Break(Some(l), keep(x, v)));
            }
        },
        Err(Abrupt::Continue(Some(l), x)) => {
            if has_label(whole, l) {
                return Ok(LoopStep::Continue(keep(x, v)));
            } else {
                return Err(Abrupt::Continue(Some(l), keep(x, v)));
            }
        },
        Err(a) => {
            return Err(a);
        },
    }
}

/// Whether the test of a loop holds.
pub open spec fn test_holds_step<'a>(
    test: &'a Expr,
    env: Env,
    depth: u64,
    w: World<'a>,
) -> Step<'a, bool>
    decreases depth, test, 3nat, 0nat,
{
    next(
        eval_step(test, env, depth, w),
        |t: Value, w: World<'a>| to_boolean_step(t, w),
    )
}

/// Whether the test of a loop holds.
pub fn test_holds<'h, 'a, H: Host<'a>>(
    s: &mut Session<'h, 'a, H>,
    test: &'a Expr,
    env: Env,
    depth: u64,
) -> (out: Result<bool, Abrupt<'a>>)
    ensures
        final(s).continues(*old(s)),
        forall|answers: Answers<'a>| #[trigger]
            final(s).agrees(answers) ==> old(s).agrees(answers) && (out, final(s).world(answers))
                == test_holds_step(test, env, depth, old(s).world(answers)),
    decreases depth, test, 3nat, 0nat,
{
    let t: Value = eval(s, test, env, depth)?;
    return to_boolean(s, t);
}

/// One round of a `while` loop.
pub open spec fn while_round_step<'a>(
    st: &'a Stmt,
    env: Env,
    depth: u64,
    w: World<'a>,
) -> Step<'a, LoopStep>
    decreases depth, st, 1nat, 0nat,
{
    match st {
        Stmt::While { test, body } => {
            next(
                test_holds_step(test, env, depth, w),
                |b: bool, w: World<'a>|
                    if b {
                        next(
                            exec_stmt_step(&**body, env, depth, w),
                            |v: Value, w: World<'a>| (Ok(LoopStep::Continue(v)), w),
                        )
                    } else {
                        (Ok(LoopStep::Done(Value::Empty)), w)
                    },
            )
        },
        _ => (Ok(LoopStep::Done(Value::Empty)), w),
    }
}

/// One round of a `while` loop.
pub fn while_round<'h, 'a, H: Host<'a>>(
    s: &mut Session<'h, 'a, H>,
    st: &'a Stmt,
    env: Env,
    depth: u64,
) -> (out: Result<LoopStep, Abrupt<'a>>)
    ensures
        final(s).continues(*old(s)),
        forall|answers: Answers<'a>| #[trigger]
            final(s).agrees(answers) ==> old(s).agrees(answers) && (out, final(s).world(answers))
                == while_round_step(st, env, depth, old(s).world(answers)),
    decreases depth, st, 1nat, 0nat,
{
    match st {
        Stmt::While { test, body } => {
            let b: bool = test_holds(s, test, env, depth)?;
            if b {
                let v: Value = exec_stmt(s, &**body, env, depth)?;
                return Ok(LoopStep::Continue(v));
            } else {
                return Ok(LoopStep::Done(Value::Empty));
            }
        },
        _ => {
            return Ok(LoopStep::Done(Value::Empty));
        },
    }
}

/// A `while` loop. With `k` rounds left.
pub open spec fn exec_while_from<'a>(
    whole: &'a Stmt,
    st: &'a Stmt,
    env: Env,
    depth: u64,
    k: nat,
    v: Value,
    w: World<'a>,
) -> Step<'a, Value>
    decreases depth, st, 2nat, k,
{
    if k == 0 {
        (Err(Abrupt::Stopped), w)
    } else {
        next(
            asks(Request::Checkpoint, w),
            |c: Value, w: World<'a>| {
                let (step, w) = while_round_step(st, env, depth, w);
                next(
                    settle_step(step, whole, v, w),
                    |go: LoopStep, w: World<'a>|
                        match go {
                            LoopStep::Done(x) => (Ok(x), w),
                            LoopStep::Continue(x) => {
                                exec_while_from(whole, st, env, depth, (k - 1) as nat, x, w)
                            },
                        },
                )
            },
        )
    }
}

/// A `while` loop.
pub open spec fn exec_while_step<'a>(
    whole: &'a Stmt,
    st: &'a Stmt,
    env: Env,
    depth: u64,
    w: World<'a>,
) -> Step<'a, Value>
    decreases depth, st, 2nat, w.limit + 1,
{
    exec_while_from(whole, st, env, depth, w.limit, Value::Undefined, w)
}

/// A `while` loop.
pub fn exec_while<'h, 'a, H: Host<'a>>(
    s: &mut Session<'h, 'a, H>,
    whole: &'a Stmt,
    st: &'a Stmt,
    env: Env,
    depth: u64,
) -> (out: Result<Value, Abrupt<'a>>)
    ensures
        final(s).continues(*old(s)),
        forall|answers: Answers<'a>| #[trigger]
            final(s).agrees(answers) ==> old(s).agrees(answers) && (out, final(s).world(answers))
                == exec_while_step(whole, st, env, depth, old(s).world(answers)),
    decreases depth, st, 2nat, old(s).rounds() + 1,
{
    let mut v: Value = Value::Undefined;
    let mut k: u64 = s.limit();
    while k > 0
        invariant
            s.continues(*old(s)),
            k <= old(s).rounds(),
            forall|answers: Answers<'a>| #[trigger]
                s.agrees(answers) ==> old(s).agrees(answers)
                    && exec_while_step(whole, st, env, depth, old(s).world(answers))
                    == exec_while_from(whole, st, env, depth, k as nat, v, s.world(answers)),
        decreases k,
    {
        let c: Value = s.value(Request::Checkpoint)?;
        let step: Result<LoopStep, Abrupt<'a>> = while_round(s, st, env, depth);
        let go: LoopStep = settle(s, step, whole, v)?;
        match go {
            LoopStep::Done(x) => {
                return Ok(x);
            },
            LoopStep::Continue(x) => {
                v = x;
            },
        }
        k = k - 1;
    }
    return Err(Abrupt::Stopped);
}

/// One round of a `do` loop: the body and then the test. After a jump to its end, the round begins
/// with the test that is due.
pub open spec fn do_round_step<'a>(
    st: &'a Stmt,
    due: bool,
    env: Env,
    depth: u64,
    w: World<'a>,
) -> Step<'a, LoopStep>
    decreases depth, st, 1nat, 0nat,
{
    match st {
        Stmt::DoWhile { body, test } => {
            next(
                if due {
                    test_holds_step(test, env, depth, w)
                } else {
                    (Ok(true), w)
                },
                |enter: bool, w: World<'a>|
                    if enter {
                        next(
                            exec_stmt_step(&**body, env, depth, w),
                            |v: Value, w: World<'a>|
                                next(
                                    test_holds_step(test, env, depth, w),
                                    |b: bool, w: World<'a>|
                                        if b {
                                            (Ok(LoopStep::Continue(v)), w)
                                        } else {
                                            (Ok(LoopStep::Done(v)), w)
                                        },
                                ),
                        )
                    } else {
                        (Ok(LoopStep::Done(Value::Empty)), w)
                    },
            )
        },
        _ => (Ok(LoopStep::Done(Value::Empty)), w),
    }
}

/// One round of a `do` loop: the body and then the test. After a jump to its end, the round begins
/// with the test that is due.
pub fn do_round<'h, 'a, H: Host<'a>>(
    s: &mut Session<'h, 'a, H>,
    st: &'a Stmt,
    due: bool,
    env: Env,
    depth: u64,
) -> (out: Result<LoopStep, Abrupt<'a>>)
    ensures
        final(s).continues(*old(s)),
        forall|answers: Answers<'a>| #[trigger]
            final(s).agrees(answers) ==> old(s).agrees(answers) && (out, final(s).world(answers))
                == do_round_step(st, due, env, depth, old(s).world(answers)),
    decreases depth, st, 1nat, 0nat,
{
    match st {
        Stmt::DoWhile { body, test } => {
            let enter: bool = if due {
                test_holds(s, test, env, depth)?
            } else {
                true
            };
            if enter {
                let v: Value = exec_stmt(s, &**body, env, depth)?;
                let b: bool = test_holds(s, test, env, depth)?;
                if b {
                    return Ok(LoopStep::Continue(v));
                } else {
                    return Ok(LoopStep::Done(v));
                }
            } else {
                return Ok(LoopStep::Done(Value::Empty));
            }
        },
        _ => {
            return Ok(LoopStep::Done(Value::Empty));
        },
    }
}

/// A `do` loop. The test is evaluated once behind each run of the body, also where a jump ends the
/// body. With `k` rounds left.
pub open spec fn exec_do_while_from<'a>(
    whole: &'a Stmt,
    st: &'a Stmt,
    env: Env,
    depth: u64,
    k: nat,
    v: Value,
    due: bool,
    w: World<'a>,
) -> Step<'a, Value>
    decreases depth, st, 2nat, k,
{
    if k == 0 {
        (Err(Abrupt::Stopped), w)
    } else {
        next(
            asks(Request::Checkpoint, w),
            |c: Value, w: World<'a>| {
                let (step, w) = do_round_step(st, due, env, depth, w);
                let jumped: bool = step.is_err();
                next(
                    settle_step(step, whole, v, w),
                    |go: LoopStep, w: World<'a>|
                        match go {
                            LoopStep::Done(x) => (Ok(x), w),
                            LoopStep::Continue(x) => {
                                exec_do_while_from(
                                    whole,
                                    st,
                                    env,
                                    depth,
                                    (k - 1) as nat,
                                    x,
                                    jumped,
                                    w,
                                )
                            },
                        },
                )
            },
        )
    }
}

/// A `do` loop. The test is evaluated once behind each run of the body, also where a jump ends the
/// body.
pub open spec fn exec_do_while_step<'a>(
    whole: &'a Stmt,
    st: &'a Stmt,
    env: Env,
    depth: u64,
    w: World<'a>,
) -> Step<'a, Value>
    decreases depth, st, 2nat, w.limit + 1,
{
    exec_do_while_from(whole, st, env, depth, w.limit, Value::Undefined, false, w)
}

/// A `do` loop. The test is evaluated once behind each run of the body, also where a jump ends the
/// body.
pub fn exec_do_while<'h, 'a, H: Host<'a>>(
    s: &mut Session<'h, 'a, H>,
    whole: &'a Stmt,
    st: &'a Stmt,
    env: Env,
    depth: u64,
) -> (out: Result<Value, Abrupt<'a>>)
    ensures
        final(s).continues(*old(s)),
        forall|answers: Answers<'a>| #[trigger]
            final(s).agrees(answers) ==> old(s).agrees(answers) && (out, final(s).world(answers))
                == exec_do_while_step(whole, st, env, depth, old(s).world(answers)),
    decreases depth, st, 2nat, old(s).rounds() + 1,
{
    let mut v: Value = Value::Undefined;
    let mut due: bool = false;
    let mut k: u64 = s.limit();
    while k > 0
        invariant
            s.continues(*old(s)),
            k <= old(s).rounds(),
            forall|answers: Answers<'a>| #[trigger]
                s.agrees(answers) ==> old(s).agrees(answers)
                    && exec_do_while_step(whole, st, env, depth, old(s).world(answers))
                    == exec_do_while_from(
                        whole,
                        st,
                        env,
                        depth,
                        k as nat,
                        v,
                        due,
                        s.world(answers),
                    ),
        decreases k,
    {
        let c: Value = s.value(Request::Checkpoint)?;
        let step: Result<LoopStep, Abrupt<'a>> = do_round(s, st, due, env, depth);
        let jumped: bool = step.is_err();
        let go: LoopStep = settle(s, step, whole, v)?;
        match go {
            LoopStep::Done(x) => {
                return Ok(x);
            },
            LoopStep::Continue(x) => {
                v = x;
                due = jumped;
            },
        }
        k = k - 1;
    }
    return Err(Abrupt::Stopped);
}

/// One round of a `for` loop: the update, but for the first round, the test and the body.
pub open spec fn for_round_step<'a>(
    st: &'a Stmt,
    first: bool,
    env: Env,
    depth: u64,
    w: World<'a>,
) -> Step<'a, LoopStep>
    decreases depth, st, 1nat, 0nat,
{
    match st {
        Stmt::For { init, test, update, body } => {
            next(
                match update {
                    Some(e) => {
                        if first {
                            (Ok(()), w)
                        } else {
                            next(
                                eval_step(e, env, depth, w),
                                |x: Value, w: World<'a>| (Ok(()), w),
                            )
                        }
                    },
                    None => (Ok(()), w),
                },
                |u: (), w: World<'a>|
                    next(
                        match test {
                            Some(e) => test_holds_step(e, env, depth, w),
                            None => (Ok(true), w),
                        },
                        |b: bool, w: World<'a>|
                            if b {
                                next(
                                    exec_stmt_step(&**body, env, depth, w),
                                    |v: Value, w: World<'a>| (Ok(LoopStep::Continue(v)), w),
                                )
                            } else {
                                (Ok(LoopStep::Done(Value::Empty)), w)
                            },
                    ),
            )
        },
        _ => (Ok(LoopStep::Done(Value::Empty)), w),
    }
}

/// One round of a `for` loop: the update, but for the first round, the test and the body.
pub fn for_round<'h, 'a, H: Host<'a>>(
    s: &mut Session<'h, 'a, H>,
    st: &'a Stmt,
    first: bool,
    env: Env,
    depth: u64,
) -> (out: Result<LoopStep, Abrupt<'a>>)
    ensures
        final(s).continues(*old(s)),
        forall|answers: Answers<'a>| #[trigger]
            final(s).agrees(answers) ==> old(s).agrees(answers) && (out, final(s).world(answers))
                == for_round_step(st, first, env, depth, old(s).world(answers)),
    decreases depth, st, 1nat, 0nat,
{
    match st {
        Stmt::For { init, test, update, body } => {
            let u: () = match update {
                Some(e) => {
                    if first {
                        ()
                    } else {
                        let x: Value = eval(s, e, env, depth)?;
                        ()
                    }
                },
                None => {
                    ()
                },
            };
            let b: bool = match test {
                Some(e) => {
                    test_holds(s, e, env, depth)?
                },
                None => {
                    true
                },
            };
            if b {
                let v: Value = exec_stmt(s, &**body, env, depth)?;
                return Ok(LoopStep::Continue(v));
            } else {
                return Ok(LoopStep::Done(Value::Empty));
            }
        },
        _ => {
            return Ok(LoopStep::Done(Value::Empty));
        },
    }
}

/// The scope of a `for` loop's next round: a `let` head's names are copied into a new one.
pub open spec fn round_scope_step<'a>(st: &'a Stmt, env: Env, w: World<'a>) -> Step<'a, Env>
{
    match st {
        Stmt::For { init, test, update, body } => {
            let head: Option<&'a Vec<(Pattern, Option<Expr>)>> = let_decls(init);
            match head {
                Some(decls) => {
                    let around: Option<Env> = w.scopes.around(env);
                    let scope: Env = w.next_scope();
                    let w = w.new_scope(around, None, false, false);
                    let w = w.copy_names(env, scope, decls);
                    (Ok(scope), w)
                },
                None => (Ok(env), w),
            }
        },
        _ => (Ok(env), w),
    }
}

/// The scope of a `for` loop's next round: a `let` head's names are copied into a new one.
pub fn round_scope<'h, 'a, H: Host<'a>>(
    s: &mut Session<'h, 'a, H>,
    st: &'a Stmt,
    env: Env,
) -> (out: Result<Env, Abrupt<'a>>)
    ensures
        final(s).continues(*old(s)),
        forall|answers: Answers<'a>| #[trigger]
            final(s).agrees(answers) ==> old(s).agrees(answers) && (out, final(s).world(answers))
                == round_scope_step(st, env, old(s).world(answers)),
{
    match st {
        Stmt::For { init, test, update, body } => {
            let head: Option<&'a Vec<(Pattern, Option<Expr>)>> = let_head(init);
            match head {
                Some(decls) => {
                    let around: Option<Env> = s.scopes().outer(env);
                    let scope: Env = s.new_scope(around, None, false, false);
                    s.copy_names(env, scope, decls);
                    return Ok(scope);
                },
                None => {
                    return Ok(env);
                },
            }
        },
        _ => {
            return Ok(env);
        },
    }
}

/// The rounds of a `for` loop. With `k` rounds left.
pub open spec fn for_rounds_from<'a>(
    whole: &'a Stmt,
    st: &'a Stmt,
    env: Env,
    depth: u64,
    k: nat,
    v: Value,
    first: bool,
    cur: Env,
    w: World<'a>,
) -> Step<'a, Value>
    decreases depth, st, 2nat, k,
{
    if k == 0 {
        (Err(Abrupt::Stopped), w)
    } else {
        next(
            asks(Request::Checkpoint, w),
            |c: Value, w: World<'a>|
                next(
                    if first {
                        (Ok(cur), w)
                    } else {
                        round_scope_step(st, cur, w)
                    },
                    |scope: Env, w: World<'a>| {
                        let (step, w) = for_round_step(st, first, scope, depth, w);
                        next(
                            settle_step(step, whole, v, w),
                            |go: LoopStep, w: World<'a>|
                                match go {
                                    LoopStep::Done(x) => (Ok(x), w),
                                    LoopStep::Continue(x) => {
                                        for_rounds_from(
                                            whole,
                                            st,
                                            env,
                                            depth,
                                            (k - 1) as nat,
                                            x,
                                            false,
                                            scope,
                                            w,
                                        )
                                    },
                                },
                        )
                    },
                ),
        )
    }
}

/// The rounds of a `for` loop.
pub open spec fn for_rounds_step<'a>(
    whole: &'a Stmt,
    st: &'a Stmt,
    env: Env,
    depth: u64,
    w: World<'a>,
) -> Step<'a, Value>
    decreases depth, st, 2nat, w.limit + 1,
{
    for_rounds_from(whole, st, env, depth, w.limit, Value::Undefined, true, env, w)
}

/// The rounds of a `for` loop.
pub fn for_rounds<'h, 'a, H: Host<'a>>(
    s: &mut Session<'h, 'a, H>,
    whole: &'a Stmt,
    st: &'a Stmt,
    env: Env,
    depth: u64,
) -> (out: Result<Value, Abrupt<'a>>)
    ensures
        final(s).continues(*old(s)),
        forall|answers: Answers<'a>| #[trigger]
            final(s).agrees(answers) ==> old(s).agrees(answers) && (out, final(s).world(answers))
                == for_rounds_step(whole, st, env, depth, old(s).world(answers)),
    decreases depth, st, 2nat, old(s).rounds() + 1,
{
    let mut v: Value = Value::Undefined;
    let mut first: bool = true;
    let mut cur: Env = env;
    let mut k: u64 = s.limit();
    while k > 0
        invariant
            s.continues(*old(s)),
            k <= old(s).rounds(),
            forall|answers: Answers<'a>| #[trigger]
                s.agrees(answers) ==> old(s).agrees(answers)
                    && for_rounds_step(whole, st, env, depth, old(s).world(answers))
                    == for_rounds_from(
                        whole,
                        st,
                        env,
                        depth,
                        k as nat,
                        v,
                        first,
                        cur,
                        s.world(answers),
                    ),
        decreases k,
    {
        let c: Value = s.value(Request::Checkpoint)?;
        let scope: Env = if first {
            cur
        } else {
            round_scope(s, st, cur)?
        };
        let step: Result<LoopStep, Abrupt<'a>> = for_round(s, st, first, scope, depth);
        let go: LoopStep = settle(s, step, whole, v)?;
        match go {
            LoopStep::Done(x) => {
                return Ok(x);
            },
            LoopStep::Continue(x) => {
                v = x;
                first = false;
                cur = scope;
            },
        }
        k = k - 1;
    }
    return Err(Abrupt::Stopped);
}

/// A `for` loop in the scope of its head.
pub open spec fn exec_c_for_body_step<'a>(
    whole: &'a Stmt,
    st: &'a Stmt,
    env: Env,
    depth: u64,
    w: World<'a>,
) -> Step<'a, Value>
    decreases depth, st, 3nat, 0nat,
{
    match st {
        Stmt::For { init, test, update, body } => {
            next(
                exec_for_init_step(init, env, depth, w),
                |u: (), w: World<'a>|
                    next(
                        round_scope_step(st, env, w),
                        |scope: Env, w: World<'a>| for_rounds_step(whole, st, scope, depth, w),
                    ),
            )
        },
        _ => (Ok(Value::Undefined), w),
    }
}

/// A `for` loop in the scope of its head.
pub fn exec_c_for_body<'h, 'a, H: Host<'a>>(
    s: &mut Session<'h, 'a, H>,
    whole: &'a Stmt,
    st: &'a Stmt,
    env: Env,
    depth: u64,
) -> (out: Result<Value, Abrupt<'a>>)
    ensures
        final(s).continues(*old(s)),
        forall|answers: Answers<'a>| #[trigger]
            final(s).agrees(answers) ==> old(s).agrees(answers) && (out, final(s).world(answers))
                == exec_c_for_body_step(whole, st, env, depth, old(s).world(answers)),
    decreases depth, st, 3nat, 0nat,
{
    match st {
        Stmt::For { init, test, update, body } => {
            let u: () = exec_for_init(s, init, env, depth)?;
            let scope: Env = round_scope(s, st, env)?;
            return for_rounds(s, whole, st, scope, depth);
        },
        _ => {
            return Ok(Value::Undefined);
        },
    }
}

/// A `for` loop. The resources of its head are disposed of once, when the whole loop ends.
pub open spec fn exec_for_step<'a>(
    whole: &'a Stmt,
    st: &'a Stmt,
    env: Env,
    depth: u64,
    w: World<'a>,
) -> Step<'a, Value>
    decreases depth, st, 4nat, 0nat,
{
    match st {
        Stmt::For { init, test, update, body } => {
            let scope: Env = w.next_scope();
            let w = w.new_scope(Some(env), None, false, false);
            if init_disposes(init) {
                let w = w.push_frame();
                let (r, w) = exec_c_for_body_step(whole, st, scope, depth, w);
                let frame = w.top_frame();
                let w = w.pop_frame();
                dispose_frame_step(frame, r, w)
            } else {
                exec_c_for_body_step(whole, st, scope, depth, w)
            }
        },
        _ => (Ok(Value::Undefined), w),
    }
}

/// A `for` loop. The resources of its head are disposed of once, when the whole loop ends.
pub fn exec_for<'h, 'a, H: Host<'a>>(
    s: &mut Session<'h, 'a, H>,
    whole: &'a Stmt,
    st: &'a Stmt,
    env: Env,
    depth: u64,
) -> (out: Result<Value, Abrupt<'a>>)
    ensures
        final(s).continues(*old(s)),
        forall|answers: Answers<'a>| #[trigger]
            final(s).agrees(answers) ==> old(s).agrees(answers) && (out, final(s).world(answers))
                == exec_for_step(whole, st, env, depth, old(s).world(answers)),
    decreases depth, st, 4nat, 0nat,
{
    match st {
        Stmt::For { init, test, update, body } => {
            let scope: Env = s.new_scope(Some(env), None, false, false);
            if declares_resources(init) {
                s.push_frame();
                let r: Completion<'a> = exec_c_for_body(s, whole, st, scope, depth);
                let frame = s.pop_frame();
                return dispose_frame(s, &frame, r);
            } else {
                return exec_c_for_body(s, whole, st, scope, depth);
            }
        },
        _ => {
            return Ok(Value::Undefined);
        },
    }
}

/// Binds the element of a round and runs the body.
pub open spec fn bind_and_run_step<'a>(
    st: &'a Stmt,
    v: Value,
    env: Env,
    depth: u64,
    w: World<'a>,
) -> Step<'a, Value>
    decreases depth, st, 0nat, 0nat,
{
    match st {
        Stmt::ForInOf { decl, left, right, of, is_await, body } => {
            next(
                bind_pattern_step(left, v, env, head_mode_of(*decl), depth, w),
                |u: (), w: World<'a>| exec_stmt_step(&**body, env, depth, w),
            )
        },
        _ => (Ok(Value::Undefined), w),
    }
}

/// Binds the element of a round and runs the body.
pub fn bind_and_run<'h, 'a, H: Host<'a>>(
    s: &mut Session<'h, 'a, H>,
    st: &'a Stmt,
    v: Value,
    env: Env,
    depth: u64,
) -> (out: Result<Value, Abrupt<'a>>)
    ensures
        final(s).continues(*old(s)),
        forall|answers: Answers<'a>| #[trigger]
            final(s).agrees(answers) ==> old(s).agrees(answers) && (out, final(s).world(answers))
                == bind_and_run_step(st, v, env, depth, old(s).world(answers)),
    decreases depth, st, 0nat, 0nat,
{
    match st {
        Stmt::ForInOf { decl, left, right, of, is_await, body } => {
            let u: () = bind_pattern(s, left, v, env, head_mode(*decl), depth)?;
            return exec_stmt(s, &**body, env, depth);
        },
        _ => {
            return Ok(Value::Undefined);
        },
    }
}

/// One round of a `for`-`of` loop. An element that the head declares as a resource is disposed of
/// at the end of the round.
pub open spec fn for_of_iteration_step<'a>(
    st: &'a Stmt,
    v: Value,
    env: Env,
    depth: u64,
    w: World<'a>,
) -> Step<'a, Value>
    decreases depth, st, 1nat, 0nat,
{
    match st {
        Stmt::ForInOf { decl, left, right, of, is_await, body } => {
            match decl {
                Some(DeclKind::Using) | Some(DeclKind::AwaitUsing) => {
                    let w = w.push_frame();
                    let (d, w) = add_disposable_step(
                        v,
                        matches!(decl, Some(DeclKind::AwaitUsing)),
                        w,
                    );
                    match d {
                        Ok(_) => {
                            let (r, w) = bind_and_run_step(st, v, env, depth, w);
                            let frame = w.top_frame();
                            let w = w.pop_frame();
                            dispose_frame_step(frame, r, w)
                        },
                        Err(a) => {
                            let frame = w.top_frame();
                            let w = w.pop_frame();
                            dispose_frame_step(frame, Err(a), w)
                        },
                    }
                },
                _ => bind_and_run_step(st, v, env, depth, w),
            }
        },
        _ => (Ok(Value::Undefined), w),
    }
}

/// One round of a `for`-`of` loop. An element that the head declares as a resource is disposed of
/// at the end of the round.
pub fn for_of_iteration<'h, 'a, H: Host<'a>>(
    s: &mut Session<'h, 'a, H>,
    st: &'a Stmt,
    v: Value,
    env: Env,
    depth: u64,
) -> (out: Result<Value, Abrupt<'a>>)
    ensures
        final(s).continues(*old(s)),
        forall|answers: Answers<'a>| #[trigger]
            final(s).agrees(answers) ==> old(s).agrees(answers) && (out, final(s).world(answers))
                == for_of_iteration_step(st, v, env, depth, old(s).world(answers)),
    decreases depth, st, 1nat, 0nat,
{
    match st {
        Stmt::ForInOf { decl, left, right, of, is_await, body } => {
            match decl {
                Some(DeclKind::Using) | Some(DeclKind::AwaitUsing) => {
                    s.push_frame();
                    let d: Result<(), Abrupt<'a>> = add_disposable(
                        s,
                        v,
                        matches!(decl, Some(DeclKind::AwaitUsing)),
                    );
                    match d {
                        Ok(_) => {
                            let r: Completion<'a> = bind_and_run(s, st, v, env, depth);
                            let frame = s.pop_frame();
                            return dispose_frame(s, &frame, r);
                        },
                        Err(a) => {
                            let frame = s.pop_frame();
                            return dispose_frame(s, &frame, Err(a));
                        },
                    }
                },
                _ => {
                    return bind_and_run(s, st, v, env, depth);
                },
            }
        },
        _ => {
            return Ok(Value::Undefined);
        },
    }
}

/// Runs a round on an element in a scope of its own.
pub open spec fn run_element_step<'a>(
    st: &'a Stmt,
    v: Value,
    env: Env,
    depth: u64,
    w: World<'a>,
) -> Step<'a, LoopStep>
    decreases depth, st, 2nat, 0nat,
{
    let scope: Env = w.next_scope();
    let w = w.new_scope(Some(env), None, false, false);
    next(
        for_of_iteration_step(st, v, scope, depth, w),
        |x: Value, w: World<'a>| (Ok(LoopStep::Continue(x)), w),
    )
}

/// Runs a round on an element in a scope of its own.
pub fn run_element<'h, 'a, H: Host<'a>>(
    s: &mut Session<'h, 'a, H>,
    st: &'a Stmt,
    v: Value,
    env: Env,
    depth: u64,
) -> (out: Result<LoopStep, Abrupt<'a>>)
    ensures
        final(s).continues(*old(s)),
        forall|answers: Answers<'a>| #[trigger]
            final(s).agrees(answers) ==> old(s).agrees(answers) && (out, final(s).world(answers))
                == run_element_step(st, v, env, depth, old(s).world(answers)),
    decreases depth, st, 2nat, 0nat,
{
    let scope: Env = s.new_scope(Some(env), None, false, false);
    let x: Value = for_of_iteration(s, st, v, scope, depth)?;
    return Ok(LoopStep::Continue(x));
}

/// One round of a `for`-`of` loop, and whether the iterator is still open: a step that fails, or
/// finds no more, leaves it done.
pub open spec fn of_round_step<'a>(
    st: &'a Stmt,
    iter: Value,
    method: Value,
    env: Env,
    depth: u64,
    w: World<'a>,
) -> ((Result<LoopStep, Abrupt<'a>>, bool), World<'a>)
    decreases depth, st, 3nat, 0nat,
{
    let (step, w) = iterator_step_step(iter, method, w);
    match step {
        Ok(Some(v)) => {
            let (r, w) = run_element_step(st, v, env, depth, w);
            ((r, true), w)
        },
        Ok(None) => ((Ok(LoopStep::Done(Value::Empty)), false), w),
        Err(a) => ((Err(a), false), w),
    }
}

/// One round of a `for`-`of` loop, and whether the iterator is still open: a step that fails, or
/// finds no more, leaves it done.
pub fn of_round<'h, 'a, H: Host<'a>>(
    s: &mut Session<'h, 'a, H>,
    st: &'a Stmt,
    iter: Value,
    method: Value,
    env: Env,
    depth: u64,
) -> (out: (Result<LoopStep, Abrupt<'a>>, bool))
    ensures
        final(s).continues(*old(s)),
        forall|answers: Answers<'a>| #[trigger]
            final(s).agrees(answers) ==> old(s).agrees(answers) && (out, final(s).world(answers))
                == of_round_step(st, iter, method, env, depth, old(s).world(answers)),
    decreases depth, st, 3nat, 0nat,
{
    let step: Result<Option<Value>, Abrupt<'a>> = iterator_step(s, iter, method);
    match step {
        Ok(Some(v)) => {
            let r: Result<LoopStep, Abrupt<'a>> = run_element(s, st, v, env, depth);
            return (r, true);
        },
        Ok(None) => {
            return (Ok(LoopStep::Done(Value::Empty)), false);
        },
        Err(a) => {
            return (Err(a), false);
        },
    }
}

/// The rounds of a `for`-`of` loop: how it ends, and whether the iterator is still open. With `k`
/// rounds left.
pub open spec fn of_rounds_from<'a>(
    whole: &'a Stmt,
    st: &'a Stmt,
    iter: Value,
    method: Value,
    env: Env,
    depth: u64,
    k: nat,
    v: Value,
    w: World<'a>,
) -> ((Completion<'a>, bool), World<'a>)
    decreases depth, st, 4nat, k,
{
    if k == 0 {
        ((Err(Abrupt::Stopped), true), w)
    } else {
        let (c, w) = asks(Request::Checkpoint, w);
        match c {
            Err(a) => ((Err(a), true), w),
            Ok(_) => {
                let (r, w) = of_round_step(st, iter, method, env, depth, w);
                let (go, w) = settle_step(r.0, whole, v, w);
                match go {
                    Ok(LoopStep::Done(x)) => ((Ok(x), r.1), w),
                    Ok(LoopStep::Continue(x)) => {
                        of_rounds_from(whole, st, iter, method, env, depth, (k - 1) as nat, x, w)
                    },
                    Err(a) => ((Err(a), r.1), w),
                }
            },
        }
    }
}

/// The rounds of a `for`-`of` loop: how it ends, and whether the iterator is still open.
pub open spec fn of_rounds_step<'a>(
    whole: &'a Stmt,
    st: &'a Stmt,
    iter: Value,
    method: Value,
    env: Env,
    depth: u64,
    w: World<'a>,
) -> ((Completion<'a>, bool), World<'a>)
    decreases depth, st, 4nat, w.limit + 1,
{
    of_rounds_from(whole, st, iter, method, env, depth, w.limit, Value::Undefined, w)
}

/// The rounds of a `for`-`of` loop: how it ends, and whether the iterator is still open.
pub fn of_rounds<'h, 'a, H: Host<'a>>(
    s: &mut Session<'h, 'a, H>,
    whole: &'a Stmt,
    st: &'a Stmt,
    iter: Value,
    method: Value,
    env: Env,
    depth: u64,
) -> (out: (Completion<'a>, bool))
    ensures
        final(s).continues(*old(s)),
        forall|answers: Answers<'a>| #[trigger]
            final(s).agrees(answers) ==> old(s).agrees(answers) && (out, final(s).world(answers))
                == of_rounds_step(whole, st, iter, method, env, depth, old(s).world(answers)),
    decreases depth, st, 4nat, old(s).rounds() + 1,
{
    let mut v: Value = Value::Undefined;
    let mut k: u64 = s.limit();
    while k > 0
        invariant
            s.continues(*old(s)),
            k <= old(s).rounds(),
            forall|answers: Answers<'a>| #[trigger]
                s.agrees(answers) ==> old(s).agrees(answers)
                    && of_rounds_step(whole, st, iter, method, env, depth, old(s).world(answers))
                    == of_rounds_from(
                        whole,
                        st,
                        iter,
                        method,
                        env,
                        depth,
                        k as nat,
                        v,
                        s.world(answers),
                    ),
        decreases k,
    {
        let c: Completion<'a> = s.value(Request::Checkpoint);
        match c {
            Err(a) => {
                return (Err(a), true);
            },
            Ok(_) => {
                let r: (Result<LoopStep, Abrupt<'a>>, bool) = of_round(
                    s,
                    st,
                    iter,
                    method,
                    env,
                    depth,
                );
                let go: Result<LoopStep, Abrupt<'a>> = settle(s, r.0, whole, v);
                match go {
                    Ok(LoopStep::Done(x)) => {
                        return (Ok(x), r.1);
                    },
                    Ok(LoopStep::Continue(x)) => {
                        v = x;
                    },
                    Err(a) => {
                        return (Err(a), r.1);
                    },
                }
            },
        }
        k = k - 1;
    }
    return (Err(Abrupt::Stopped), true);
}

/// The promise of a synchronous iterator's value, which settles one job later; it is rejected where
/// the value cannot be made one.
pub open spec fn wrap_sync_value_step<'a>(raw: Value, w: World<'a>) -> Step<'a, Value>
{
    let (made, w) = asks(Request::PromiseResolve(raw), w);
    match made {
        Ok(p) => promise_then_step(p, Value::Undefined, Value::Undefined, w),
        Err(Abrupt::Throw(e)) => {
            next(
                new_promise_step(w),
                |p: Value, w: World<'a>|
                    next(
                        reject_promise_step(p, e, w),
                        |u: (), w: World<'a>| (Ok(p), w),
                    ),
            )
        },
        Err(a) => (Err(a), w),
    }
}

/// The promise of a synchronous iterator's value, which settles one job later; it is rejected where
/// the value cannot be made one.
pub fn wrap_sync_value<'h, 'a, H: Host<'a>>(
    s: &mut Session<'h, 'a, H>,
    raw: Value,
) -> (out: Result<Value, Abrupt<'a>>)
    ensures
        final(s).continues(*old(s)),
        forall|answers: Answers<'a>| #[trigger]
            final(s).agrees(answers) ==> old(s).agrees(answers) && (out, final(s).world(answers))
                == wrap_sync_value_step(raw, old(s).world(answers)),
{
    let made: Completion<'a> = s.value(Request::PromiseResolve(raw));
    match made {
        Ok(p) => {
            return promise_then(s, p, Value::Undefined, Value::Undefined);
        },
        Err(Abrupt::Throw(e)) => {
            let p: Value = new_promise(s)?;
            let u: () = reject_promise(s, p, e)?;
            return Ok(p);
        },
        Err(a) => {
            return Err(a);
        },
    }
}

/// Takes the next element of an asynchronous iteration: nothing when it is done.
pub open spec fn await_step_step<'a>(
    iter: Value,
    method: Value,
    from_sync: bool,
    w: World<'a>,
) -> Step<'a, Option<Value>>
{
    next(
        call_bare_step(method, iter, w),
        |made: Value, w: World<'a>|
            next(
                if from_sync {
                    (Ok(made), w)
                } else {
                    coro_await_step(made, w)
                },
                |res: Value, w: World<'a>|
                    if !matches!(res, Value::Obj(_)) {
                        throws(ErrorKind::TypeError, "iterator result is not an object", w)
                    } else {
                        next(
                            asks(Request::GetMember { base: res, key: Key::Fixed("done") }, w),
                            |d: Value, w: World<'a>|
                                next(
                                    to_boolean_step(d, w),
                                    |done: bool, w: World<'a>|
                                        if from_sync {
                                            next(
                                                asks(
                                                    Request::GetMember { base: res, key: Key::Fixed("value") },
                                                    w,
                                                ),
                                                |raw: Value, w: World<'a>|
                                                    next(
                                                        wrap_sync_value_step(raw, w),
                                                        |wrapped: Value, w: World<'a>| {
                                                            let (x, w) = coro_await_step(
                                                                wrapped,
                                                                w,
                                                            );
                                                            match x {
                                                                Ok(v) => {
                                                                    if done {
                                                                        (Ok(None), w)
                                                                    } else {
                                                                        (Ok(Some(v)), w)
                                                                    }
                                                                },
                                                                Err(a) => {
                                                                    if done {
                                                                        (Err(a), w)
                                                                    } else {
                                                                        let (u, w) = iterator_close_step(
                                                                            iter,
                                                                            w,
                                                                        );
                                                                        (Err(a), w)
                                                                    }
                                                                },
                                                            }
                                                        },
                                                    ),
                                            )
                                        } else if done {
                                            (Ok(None), w)
                                        } else {
                                            next(
                                                asks(
                                                    Request::GetMember { base: res, key: Key::Fixed("value") },
                                                    w,
                                                ),
                                                |v: Value, w: World<'a>| (Ok(Some(v)), w),
                                            )
                                        },
                                ),
                        )
                    },
            ),
    )
}

/// Takes the next element of an asynchronous iteration: nothing when it is done.
pub fn await_step<'h, 'a, H: Host<'a>>(
    s: &mut Session<'h, 'a, H>,
    iter: Value,
    method: Value,
    from_sync: bool,
) -> (out: Result<Option<Value>, Abrupt<'a>>)
    ensures
        final(s).continues(*old(s)),
        forall|answers: Answers<'a>| #[trigger]
            final(s).agrees(answers) ==> old(s).agrees(answers) && (out, final(s).world(answers))
                == await_step_step(iter, method, from_sync, old(s).world(answers)),
{
    let made: Value = call_bare(s, method, iter)?;
    let res: Value = if from_sync {
        made
    } else {
        coro_await(s, made)?
    };
    if !matches!(res, Value::Obj(_)) {
        return throw(s, ErrorKind::TypeError, "iterator result is not an object");
    }
    let d: Value = s.value(Request::GetMember { base: res, key: Key::Fixed("done") })?;
    let done: bool = to_boolean(s, d)?;
    if from_sync {
        let raw: Value = s.value(Request::GetMember { base: res, key: Key::Fixed("value") })?;
        let wrapped: Value = wrap_sync_value(s, raw)?;
        let x: Completion<'a> = coro_await(s, wrapped);
        match x {
            Ok(v) => {
                if done {
                    return Ok(None);
                } else {
                    return Ok(Some(v));
                }
            },
            Err(a) => {
                if done {
                    return Err(a);
                } else {
                    let u: Result<(), Abrupt<'a>> = iterator_close(s, iter);
                    return Err(a);
                }
            },
        }
    } else if done {
        return Ok(None);
    } else {
        let v: Value = s.value(Request::GetMember { base: res, key: Key::Fixed("value") })?;
        return Ok(Some(v));
    }
}

/// One round of a `for await` loop, and whether the iterator is still open.
pub open spec fn await_round_step<'a>(
    st: &'a Stmt,
    iter: Value,
    method: Value,
    from_sync: bool,
    env: Env,
    depth: u64,
    w: World<'a>,
) -> ((Result<LoopStep, Abrupt<'a>>, bool), World<'a>)
    decreases depth, st, 3nat, 0nat,
{
    let (step, w) = await_step_step(iter, method, from_sync, w);
    match step {
        Ok(Some(v)) => {
            let (r, w) = run_element_step(st, v, env, depth, w);
            ((r, true), w)
        },
        Ok(None) => ((Ok(LoopStep::Done(Value::Empty)), false), w),
        Err(a) => ((Err(a), false), w),
    }
}

/// One round of a `for await` loop, and whether the iterator is still open.
pub fn await_round<'h, 'a, H: Host<'a>>(
    s: &mut Session<'h, 'a, H>,
    st: &'a Stmt,
    iter: Value,
    method: Value,
    from_sync: bool,
    env: Env,
    depth: u64,
) -> (out: (Result<LoopStep, Abrupt<'a>>, bool))
    ensures
        final(s).continues(*old(s)),
        forall|answers: Answers<'a>| #[trigger]
            final(s).agrees(answers) ==> old(s).agrees(answers) && (out, final(s).world(answers))
                == await_round_step(st, iter, method, from_sync, env, depth, old(s).world(answers)),
    decreases depth, st, 3nat, 0nat,
{
    let step: Result<Option<Value>, Abrupt<'a>> = await_step(s, iter, method, from_sync);
    match step {
        Ok(Some(v)) => {
            let r: Result<LoopStep, Abrupt<'a>> = run_element(s, st, v, env, depth);
            return (r, true);
        },
        Ok(None) => {
            return (Ok(LoopStep::Done(Value::Empty)), false);
        },
        Err(a) => {
            return (Err(a), false);
        },
    }
}

/// The rounds of a `for await` loop: how it ends, and whether the iterator is still open. With `k`
/// rounds left.
pub open spec fn await_rounds_from<'a>(
    whole: &'a Stmt,
    st: &'a Stmt,
    iter: Value,
    method: Value,
    from_sync: bool,
    env: Env,
    depth: u64,
    k: nat,
    v: Value,
    w: World<'a>,
) -> ((Completion<'a>, bool), World<'a>)
    decreases depth, st, 4nat, k,
{
    if k == 0 {
        ((Err(Abrupt::Stopped), true), w)
    } else {
        let (c, w) = asks(Request::Checkpoint, w);
        match c {
            Err(a) => ((Err(a), true), w),
            Ok(_) => {
                let (r, w) = await_round_step(st, iter, method, from_sync, env, depth, w);
                let (go, w) = settle_step(r.0, whole, v, w);
                match go {
                    Ok(LoopStep::Done(x)) => ((Ok(x), r.1), w),
                    Ok(LoopStep::Continue(x)) => {
                        await_rounds_from(
                            whole,
                            st,
                            iter,
                            method,
                            from_sync,
                            env,
                            depth,
                            (k - 1) as nat,
                            x,
                            w,
                        )
                    },
                    Err(a) => ((Err(a), r.1), w),
                }
            },
        }
    }
}

/// The rounds of a `for await` loop: how it ends, and whether the iterator is still open.
pub open spec fn await_rounds_step<'a>(
    whole: &'a Stmt,
    st: &'a Stmt,
    iter: Value,
    method: Value,
    from_sync: bool,
    env: Env,
    depth: u64,
    w: World<'a>,
) -> ((Completion<'a>, bool), World<'a>)
    decreases depth, st, 4nat, w.limit + 1,
{
    await_rounds_from(whole, st, iter, method, from_sync, env, depth, w.limit, Value::Undefined, w)
}

/// The rounds of a `for await` loop: how it ends, and whether the iterator is still open.
pub fn await_rounds<'h, 'a, H: Host<'a>>(
    s: &mut Session<'h, 'a, H>,
    whole: &'a Stmt,
    st: &'a Stmt,
    iter: Value,
    method: Value,
    from_sync: bool,
    env: Env,
    depth: u64,
) -> (out: (Completion<'a>, bool))
    ensures
        final(s).continues(*old(s)),
        forall|answers: Answers<'a>| #[trigger]
            final(s).agrees(answers) ==> old(s).agrees(answers) && (out, final(s).world(answers))
                == await_rounds_step(
                    whole,
                    st,
                    iter,
                    method,
                    from_sync,
                    env,
                    depth,
                    old(s).world(answers),
                ),
    decreases depth, st, 4nat, old(s).rounds() + 1,
{
    let mut v: Value = Value::Undefined;
    let mut k: u64 = s.limit();
    while k > 0
        invariant
            s.continues(*old(s)),
            k <= old(s).rounds(),
            forall|answers: Answers<'a>| #[trigger]
                s.agrees(answers) ==> old(s).agrees(answers)
                    && await_rounds_step(whole, st, iter, method, from_sync, env, depth, old(s).world(answers))
                    == await_rounds_from(
                        whole,
                        st,
                        iter,
                        method,
                        from_sync,
                        env,
                        depth,
                        k as nat,
                        v,
                        s.world(answers),
                    ),
        decreases k,
    {
        let c: Completion<'a> = s.value(Request::Checkpoint);
        match c {
            Err(a) => {
                return (Err(a), true);
            },
            Ok(_) => {
                let r: (Result<LoopStep, Abrupt<'a>>, bool) = await_round(
                    s,
                    st,
                    iter,
                    method,
                    from_sync,
                    env,
                    depth,
                );
                let go: Result<LoopStep, Abrupt<'a>> = settle(s, r.0, whole, v);
                match go {
                    Ok(LoopStep::Done(x)) => {
                        return (Ok(x), r.1);
                    },
                    Ok(LoopStep::Continue(x)) => {
                        v = x;
                    },
                    Err(a) => {
                        return (Err(a), r.1);
                    },
                }
            },
        }
        k = k - 1;
    }
    return (Err(Abrupt::Stopped), true);
}

/// The next key of an enumeration that is still there. With `k` rounds left.
pub open spec fn next_key_from<'a>(
    rhs: Value,
    keys: u64,
    k: nat,
    w: World<'a>,
) -> Step<'a, Option<Value>>
    decreases k,
{
    if k == 0 {
        (Err(Abrupt::Stopped), w)
    } else {
        let more: bool = w.has_item(keys, 0);
        if !more {
            (Ok(None), w)
        } else {
            let v: Value = w.item(keys, 0);
            let w = w.drop_item(keys);
            if matches!(rhs, Value::Obj(_)) && matches!(v, Value::Str(_)) {
                let made: Key<'a> = value_key(v);
                next(
                    js_has_property_step(rhs, made, w),
                    |there: bool, w: World<'a>|
                        if there {
                            (Ok(Some(v)), w)
                        } else {
                            next_key_from(rhs, keys, (k - 1) as nat, w)
                        },
                )
            } else {
                (Ok(Some(v)), w)
            }
        }
    }
}

/// The next key of an enumeration that is still there.
pub open spec fn next_key_step<'a>(rhs: Value, keys: u64, w: World<'a>) -> Step<'a, Option<Value>>
{
    next_key_from(rhs, keys, w.limit, w)
}

/// The next key of an enumeration that is still there.
pub fn next_key<'h, 'a, H: Host<'a>>(
    s: &mut Session<'h, 'a, H>,
    rhs: Value,
    keys: u64,
) -> (out: Result<Option<Value>, Abrupt<'a>>)
    ensures
        final(s).continues(*old(s)),
        forall|answers: Answers<'a>| #[trigger]
            final(s).agrees(answers) ==> old(s).agrees(answers) && (out, final(s).world(answers))
                == next_key_step(rhs, keys, old(s).world(answers)),
{
    let mut k: u64 = s.limit();
    while k > 0
        invariant
            s.continues(*old(s)),
            k <= old(s).rounds(),
            forall|answers: Answers<'a>| #[trigger]
                s.agrees(answers) ==> old(s).agrees(answers)
                    && next_key_step(rhs, keys, old(s).world(answers))
                    == next_key_from(rhs, keys, k as nat, s.world(answers)),
        decreases k,
    {
        let more: bool = s.has_item(keys, 0);
        if !more {
            return Ok(None);
        }
        let v: Value = s.item(keys, 0);
        s.drop_item(keys);
        if matches!(rhs, Value::Obj(_)) && matches!(v, Value::Str(_)) {
            let made: Key<'a> = key_of_value(v);
            let there: bool = js_has_property(s, rhs, made)?;
            if there {
                return Ok(Some(v));
            } else {
            }
        } else {
            return Ok(Some(v));
        }
        k = k - 1;
    }
    return Err(Abrupt::Stopped);
}

/// Reads the exports of a module namespace under the keys of a list. With `k` rounds left.
pub open spec fn read_exports_from<'a>(ns: Value, keys: u64, k: nat, w: World<'a>) -> Step<'a, ()>
    decreases k,
{
    if k == 0 {
        (Err(Abrupt::Stopped), w)
    } else {
        let more: bool = w.has_item(keys, 0);
        if !more {
            (Ok(()), w)
        } else {
            let v: Value = w.item(keys, 0);
            let w = w.drop_item(keys);
            let made: Key<'a> = value_key(v);
            next(
                asks(Request::ReadExport { base: ns, key: made }, w),
                |x: Value, w: World<'a>|
                    read_exports_from(ns, keys, (k - 1) as nat, w),
            )
        }
    }
}

/// Reads the exports of a module namespace under the keys of a list.
pub open spec fn read_exports_step<'a>(ns: Value, keys: u64, w: World<'a>) -> Step<'a, ()>
{
    read_exports_from(ns, keys, w.limit, w)
}

/// Reads the exports of a module namespace under the keys of a list.
pub fn read_exports<'h, 'a, H: Host<'a>>(
    s: &mut Session<'h, 'a, H>,
    ns: Value,
    keys: u64,
) -> (out: Result<(), Abrupt<'a>>)
    ensures
        final(s).continues(*old(s)),
        forall|answers: Answers<'a>| #[trigger]
            final(s).agrees(answers) ==> old(s).agrees(answers) && (out, final(s).world(answers))
                == read_exports_step(ns, keys, old(s).world(answers)),
{
    let mut k: u64 = s.limit();
    while k > 0
        invariant
            s.continues(*old(s)),
            k <= old(s).rounds(),
            forall|answers: Answers<'a>| #[trigger]
                s.agrees(answers) ==> old(s).agrees(answers)
                    && read_exports_step(ns, keys, old(s).world(answers))
                    == read_exports_from(ns, keys, k as nat, s.world(answers)),
        decreases k,
    {
        let more: bool = s.has_item(keys, 0);
        if !more {
            return Ok(());
        }
        let v: Value = s.item(keys, 0);
        s.drop_item(keys);
        let made: Key<'a> = key_of_value(v);
        let x: Value = s.value(Request::ReadExport { base: ns, key: made })?;
        k = k - 1;
    }
    return Err(Abrupt::Stopped);
}

/// The exports of a module namespace must all be initialized before it is enumerated.
pub open spec fn check_namespace_step<'a>(v: Value, w: World<'a>) -> Step<'a, ()>
{
    next(
        if matches!(v, Value::Obj(_)) {
            asks_flag(Request::IsNamespace(v), w)
        } else {
            (Ok(false), w)
        },
        |ns: bool, w: World<'a>|
            if ns {
                next(
                    enum_keys_step(v, w),
                    |keys: u64, w: World<'a>| read_exports_step(v, keys, w),
                )
            } else {
                (Ok(()), w)
            },
    )
}

/// The exports of a module namespace must all be initialized before it is enumerated.
pub fn check_namespace<'h, 'a, H: Host<'a>>(
    s: &mut Session<'h, 'a, H>,
    v: Value,
) -> (out: Result<(), Abrupt<'a>>)
    ensures
        final(s).continues(*old(s)),
        forall|answers: Answers<'a>| #[trigger]
            final(s).agrees(answers) ==> old(s).agrees(answers) && (out, final(s).world(answers))
                == check_namespace_step(v, old(s).world(answers)),
{
    let ns: bool = if matches!(v, Value::Obj(_)) {
        s.flag(Request::IsNamespace(v))?
    } else {
        false
    };
    if ns {
        let keys: u64 = enum_keys(s, v)?;
        return read_exports(s, v, keys);
    } else {
        return Ok(());
    }
}

/// One round of a `for`-`in` loop.
pub open spec fn in_round_step<'a>(
    st: &'a Stmt,
    rhs: Value,
    keys: u64,
    env: Env,
    depth: u64,
    w: World<'a>,
) -> Step<'a, LoopStep>
    decreases depth, st, 3nat, 0nat,
{
    next(
        next_key_step(rhs, keys, w),
        |k: Option<Value>, w: World<'a>|
            match k {
                Some(v) => {
                    let scope: Env = w.next_scope();
                    let w = w.new_scope(Some(env), None, false, false);
                    next(
                        bind_and_run_step(st, v, scope, depth, w),
                        |x: Value, w: World<'a>| (Ok(LoopStep::Continue(x)), w),
                    )
                },
                None => (Ok(LoopStep::Done(Value::Empty)), w),
            },
    )
}

/// One round of a `for`-`in` loop.
pub fn in_round<'h, 'a, H: Host<'a>>(
    s: &mut Session<'h, 'a, H>,
    st: &'a Stmt,
    rhs: Value,
    keys: u64,
    env: Env,
    depth: u64,
) -> (out: Result<LoopStep, Abrupt<'a>>)
    ensures
        final(s).continues(*old(s)),
        forall|answers: Answers<'a>| #[trigger]
            final(s).agrees(answers) ==> old(s).agrees(answers) && (out, final(s).world(answers))
                == in_round_step(st, rhs, keys, env, depth, old(s).world(answers)),
    decreases depth, st, 3nat, 0nat,
{
    let k: Option<Value> = next_key(s, rhs, keys)?;
    match k {
        Some(v) => {
            let scope: Env = s.new_scope(Some(env), None, false, false);
            let x: Value = bind_and_run(s, st, v, scope, depth)?;
            return Ok(LoopStep::Continue(x));
        },
        None => {
            return Ok(LoopStep::Done(Value::Empty));
        },
    }
}

/// The rounds of a `for`-`in` loop. With `k` rounds left.
pub open spec fn in_rounds_from<'a>(
    whole: &'a Stmt,
    st: &'a Stmt,
    rhs: Value,
    keys: u64,
    env: Env,
    depth: u64,
    k: nat,
    v: Value,
    w: World<'a>,
) -> Step<'a, Value>
    decreases depth, st, 4nat, k,
{
    if k == 0 {
        (Err(Abrupt::Stopped), w)
    } else {
        next(
            asks(Request::Checkpoint, w),
            |c: Value, w: World<'a>| {
                let (step, w) = in_round_step(st, rhs, keys, env, depth, w);
                next(
                    settle_step(step, whole, v, w),
                    |go: LoopStep, w: World<'a>|
                        match go {
                            LoopStep::Done(x) => (Ok(x), w),
                            LoopStep::Continue(x) => {
                                in_rounds_from(
                                    whole,
                                    st,
                                    rhs,
                                    keys,
                                    env,
                                    depth,
                                    (k - 1) as nat,
                                    x,
                                    w,
                                )
                            },
                        },
                )
            },
        )
    }
}

/// The rounds of a `for`-`in` loop.
pub open spec fn in_rounds_step<'a>(
    whole: &'a Stmt,
    st: &'a Stmt,
    rhs: Value,
    keys: u64,
    env: Env,
    depth: u64,
    w: World<'a>,
) -> Step<'a, Value>
    decreases depth, st, 4nat, w.limit + 1,
{
    in_rounds_from(whole, st, rhs, keys, env, depth, w.limit, Value::Undefined, w)
}

/// The rounds of a `for`-`in` loop.
pub fn in_rounds<'h, 'a, H: Host<'a>>(
    s: &mut Session<'h, 'a, H>,
    whole: &'a Stmt,
    st: &'a Stmt,
    rhs: Value,
    keys: u64,
    env: Env,
    depth: u64,
) -> (out: Result<Value, Abrupt<'a>>)
    ensures
        final(s).continues(*old(s)),
        forall|answers: Answers<'a>| #[trigger]
            final(s).agrees(answers) ==> old(s).agrees(answers) && (out, final(s).world(answers))
                == in_rounds_step(whole, st, rhs, keys, env, depth, old(s).world(answers)),
    decreases depth, st, 4nat, old(s).rounds() + 1,
{
    let mut v: Value = Value::Undefined;
    let mut k: u64 = s.limit();
    while k > 0
        invariant
            s.continues(*old(s)),
            k <= old(s).rounds(),
            forall|answers: Answers<'a>| #[trigger]
                s.agrees(answers) ==> old(s).agrees(answers)
                    && in_rounds_step(whole, st, rhs, keys, env, depth, old(s).world(answers))
                    == in_rounds_from(
                        whole,
                        st,
                        rhs,
                        keys,
                        env,
                        depth,
                        k as nat,
                        v,
                        s.world(answers),
                    ),
        decreases k,
    {
        let c: Value = s.value(Request::Checkpoint)?;
        let step: Result<LoopStep, Abrupt<'a>> = in_round(s, st, rhs, keys, env, depth);
        let go: LoopStep = settle(s, step, whole, v)?;
        match go {
            LoopStep::Done(x) => {
                return Ok(x);
            },
            LoopStep::Continue(x) => {
                v = x;
            },
        }
        k = k - 1;
    }
    return Err(Abrupt::Stopped);
}

/// What a `for`-`in` or `for`-`of` loop goes over. While it is computed, the names of a lexical
/// head are there but not initialized.
pub open spec fn head_value_step<'a>(
    decl: &'a Option<DeclKind>,
    left: &'a Pattern,
    right: &'a Expr,
    env: Env,
    depth: u64,
    w: World<'a>,
) -> Step<'a, Value>
    decreases depth, right, 3nat, 0nat,
{
    match decl {
        None | Some(DeclKind::Var) => eval_step(right, env, depth, w),
        Some(_) => {
            let scope: Env = w.next_scope();
            let w = w.new_scope(Some(env), None, false, false);
            let w = w.declare_pattern(left, scope);
            eval_step(right, scope, depth, w)
        },
    }
}

/// What a `for`-`in` or `for`-`of` loop goes over. While it is computed, the names of a lexical
/// head are there but not initialized.
pub fn head_value<'h, 'a, H: Host<'a>>(
    s: &mut Session<'h, 'a, H>,
    decl: &'a Option<DeclKind>,
    left: &'a Pattern,
    right: &'a Expr,
    env: Env,
    depth: u64,
) -> (out: Result<Value, Abrupt<'a>>)
    ensures
        final(s).continues(*old(s)),
        forall|answers: Answers<'a>| #[trigger]
            final(s).agrees(answers) ==> old(s).agrees(answers) && (out, final(s).world(answers))
                == head_value_step(decl, left, right, env, depth, old(s).world(answers)),
    decreases depth, right, 3nat, 0nat,
{
    match decl {
        None | Some(DeclKind::Var) => {
            return eval(s, right, env, depth);
        },
        Some(_) => {
            let scope: Env = s.new_scope(Some(env), None, false, false);
            s.declare_pattern(left, scope);
            return eval(s, right, scope, depth);
        },
    }
}

/// A `for`-`of` loop over a value. An iterator that is open when the loop ends is closed.
pub open spec fn exec_for_of_step<'a>(
    whole: &'a Stmt,
    st: &'a Stmt,
    rhs: Value,
    env: Env,
    depth: u64,
    w: World<'a>,
) -> Step<'a, Value>
    decreases depth, st, 5nat, 0nat,
{
    next(
        get_iterator_step(rhs, w),
        |it: (Value, Value), w: World<'a>| {
            let (r, w) = of_rounds_step(whole, st, it.0, it.1, env, depth, w);
            if r.1 {
                match r.0 {
                    Err(Abrupt::Throw(_)) => {
                        let (u, w) = iterator_close_step(it.0, w);
                        (r.0, w)
                    },
                    _ => {
                        next(
                            iterator_close_normal_step(it.0, w),
                            |u: (), w: World<'a>| (r.0, w),
                        )
                    },
                }
            } else {
                (r.0, w)
            }
        },
    )
}

/// A `for`-`of` loop over a value. An iterator that is open when the loop ends is closed.
pub fn exec_for_of<'h, 'a, H: Host<'a>>(
    s: &mut Session<'h, 'a, H>,
    whole: &'a Stmt,
    st: &'a Stmt,
    rhs: Value,
    env: Env,
    depth: u64,
) -> (out: Result<Value, Abrupt<'a>>)
    ensures
        final(s).continues(*old(s)),
        forall|answers: Answers<'a>| #[trigger]
            final(s).agrees(answers) ==> old(s).agrees(answers) && (out, final(s).world(answers))
                == exec_for_of_step(whole, st, rhs, env, depth, old(s).world(answers)),
    decreases depth, st, 5nat, 0nat,
{
    let it: (Value, Value) = get_iterator(s, rhs)?;
    let r: (Completion<'a>, bool) = of_rounds(s, whole, st, it.0, it.1, env, depth);
    if r.1 {
        match r.0 {
            Err(Abrupt::Throw(_)) => {
                let u: Result<(), Abrupt<'a>> = iterator_close(s, it.0);
                return r.0;
            },
            _ => {
                let u: () = iterator_close_normal(s, it.0)?;
                return r.0;
            },
        }
    } else {
        return r.0;
    }
}

/// A `for await` loop over a value.
pub open spec fn exec_for_await_step<'a>(
    whole: &'a Stmt,
    st: &'a Stmt,
    rhs: Value,
    env: Env,
    depth: u64,
    w: World<'a>,
) -> Step<'a, Value>
    decreases depth, st, 5nat, 0nat,
{
    next(
        async_iterator_step(rhs, w),
        |it: (Value, Value, bool), w: World<'a>|
            next(
                asks(Request::GetMember { base: it.0, key: Key::Fixed("next") }, w),
                |method: Value, w: World<'a>| {
                    let (r, w) = await_rounds_step(whole, st, it.0, method, it.2, env, depth, w);
                    if r.1 {
                        let (c, w) = async_for_await_close_step(it.0, it.2, w);
                        match r.0 {
                            Err(Abrupt::Throw(_)) => (r.0, w),
                            _ => {
                                match c {
                                    Ok(_) => (r.0, w),
                                    Err(a) => (Err(a), w),
                                }
                            },
                        }
                    } else {
                        (r.0, w)
                    }
                },
            ),
    )
}

/// A `for await` loop over a value.
pub fn exec_for_await<'h, 'a, H: Host<'a>>(
    s: &mut Session<'h, 'a, H>,
    whole: &'a Stmt,
    st: &'a Stmt,
    rhs: Value,
    env: Env,
    depth: u64,
) -> (out: Result<Value, Abrupt<'a>>)
    ensures
        final(s).continues(*old(s)),
        forall|answers: Answers<'a>| #[trigger]
            final(s).agrees(answers) ==> old(s).agrees(answers) && (out, final(s).world(answers))
                == exec_for_await_step(whole, st, rhs, env, depth, old(s).world(answers)),
    decreases depth, st, 5nat, 0nat,
{
    let it: (Value, Value, bool) = async_iterator(s, rhs)?;
    let method: Value = s.value(Request::GetMember { base: it.0, key: Key::Fixed("next") })?;
    let r: (Completion<'a>, bool) = await_rounds(s, whole, st, it.0, method, it.2, env, depth);
    if r.1 {
        let c: Result<(), Abrupt<'a>> = async_for_await_close(s, it.0, it.2);
        match r.0 {
            Err(Abrupt::Throw(_)) => {
                return r.0;
            },
            _ => {
                match c {
                    Ok(_) => {
                        return r.0;
                    },
                    Err(a) => {
                        return Err(a);
                    },
                }
            },
        }
    } else {
        return r.0;
    }
}

/// A `for`-`in`, `for`-`of` or `for await` loop.
pub open spec fn exec_for_in_of_step<'a>(
    whole: &'a Stmt,
    st: &'a Stmt,
    env: Env,
    depth: u64,
    w: World<'a>,
) -> Step<'a, Value>
    decreases depth, st, 6nat, 0nat,
{
    match st {
        Stmt::ForInOf { decl, left, right, of, is_await, body } => {
            next(
                head_value_step(decl, left, right, env, depth, w),
                |rhs: Value, w: World<'a>|
                    if *of && *is_await {
                        exec_for_await_step(whole, st, rhs, env, depth, w)
                    } else if *of {
                        exec_for_of_step(whole, st, rhs, env, depth, w)
                    } else {
                        next(
                            check_namespace_step(rhs, w),
                            |u: (), w: World<'a>|
                                next(
                                    enum_keys_step(rhs, w),
                                    |keys: u64, w: World<'a>|
                                        in_rounds_step(whole, st, rhs, keys, env, depth, w),
                                ),
                        )
                    },
            )
        },
        _ => (Ok(Value::Undefined), w),
    }
}

/// A `for`-`in`, `for`-`of` or `for await` loop.
pub fn exec_for_in_of<'h, 'a, H: Host<'a>>(
    s: &mut Session<'h, 'a, H>,
    whole: &'a Stmt,
    st: &'a Stmt,
    env: Env,
    depth: u64,
) -> (out: Result<Value, Abrupt<'a>>)
    ensures
        final(s).continues(*old(s)),
        forall|answers: Answers<'a>| #[trigger]
            final(s).agrees(answers) ==> old(s).agrees(answers) && (out, final(s).world(answers))
                == exec_for_in_of_step(whole, st, env, depth, old(s).world(answers)),
    decreases depth, st, 6nat, 0nat,
{
    match st {
        Stmt::ForInOf { decl, left, right, of, is_await, body } => {
            let rhs: Value = head_value(s, decl, left, right, env, depth)?;
            if *of && *is_await {
                return exec_for_await(s, whole, st, rhs, env, depth);
            } else if *of {
                return exec_for_of(s, whole, st, rhs, env, depth);
            } else {
                let u: () = check_namespace(s, rhs)?;
                let keys: u64 = enum_keys(s, rhs)?;
                return in_rounds(s, whole, st, rhs, keys, env, depth);
            }
        },
        _ => {
            return Ok(Value::Undefined);
        },
    }
}

// ---- blocks

/// Runs statements one after the other: the last value that is not empty. A jump out of them
/// carries it along. From the item at `i` on.
pub open spec fn exec_list_from<'a>(
    stmts: &'a Vec<Stmt>,
    env: Env,
    depth: u64,
    i: nat,
    v: Value,
    w: World<'a>,
) -> Step<'a, Value>
    decreases depth, stmts, 0nat, stmts@.len() - i,
{
    if i >= stmts@.len() {
        (Ok(v), w)
    } else {
        let (r, w) = exec_stmt_step(&stmts@[i as int], env, depth, w);
        match r {
            Ok(x) => exec_list_from(stmts, env, depth, i + 1, kept(x, v), w),
            Err(a) => (Err(filled(a, v)), w),
        }
    }
}

/// Runs statements one after the other: the last value that is not empty. A jump out of them
/// carries it along.
pub open spec fn exec_list_step<'a>(
    stmts: &'a Vec<Stmt>,
    env: Env,
    depth: u64,
    w: World<'a>,
) -> Step<'a, Value>
    decreases depth, stmts, 0nat, stmts@.len() + 1,
{
    exec_list_from(stmts, env, depth, 0, Value::Empty, w)
}

/// Runs statements one after the other: the last value that is not empty. A jump out of them
/// carries it along.
pub fn exec_list<'h, 'a, H: Host<'a>>(
    s: &mut Session<'h, 'a, H>,
    stmts: &'a Vec<Stmt>,
    env: Env,
    depth: u64,
) -> (out: Result<Value, Abrupt<'a>>)
    ensures
        final(s).continues(*old(s)),
        forall|answers: Answers<'a>| #[trigger]
            final(s).agrees(answers) ==> old(s).agrees(answers) && (out, final(s).world(answers))
                == exec_list_step(stmts, env, depth, old(s).world(answers)),
    decreases depth, stmts, 0nat, stmts@.len() + 1,
{
    let mut v: Value = Value::Empty;
    let mut i: usize = 0;
    while i < stmts.len()
        invariant
            i <= stmts.len(),
            s.continues(*old(s)),
            forall|answers: Answers<'a>| #[trigger]
                s.agrees(answers) ==> old(s).agrees(answers)
                    && exec_list_step(stmts, env, depth, old(s).world(answers))
                    == exec_list_from(stmts, env, depth, i as nat, v, s.world(answers)),
        decreases stmts.len() - i,
    {
        let r: Completion<'a> = exec_stmt(s, &stmts[i], env, depth);
        match r {
            Ok(x) => {
                v = keep(x, v);
            },
            Err(a) => {
                return Err(update_abrupt_empty(a, v));
            },
        }
        i = i + 1;
    }
    return Ok(v);
}

/// A block. One that declares nothing of its own runs in the scope around it.
pub open spec fn exec_block_step<'a>(
    stmts: &'a Vec<Stmt>,
    env: Env,
    depth: u64,
    w: World<'a>,
) -> Step<'a, Value>
    decreases depth, stmts, 1nat, 0nat,
{
    if !any_lexical(stmts@) {
        exec_list_step(stmts, env, depth, w)
    } else {
        let scope: Env = w.next_scope();
        let w = w.new_scope(Some(env), None, false, false);
        next(
            declare_lexicals_step(stmts, scope, w),
            |u: (), w: World<'a>|
                if any_using(stmts@) {
                    let w = w.push_frame();
                    let (r, w) = exec_list_step(stmts, scope, depth, w);
                    let frame = w.top_frame();
                    let w = w.pop_frame();
                    dispose_frame_step(frame, r, w)
                } else {
                    exec_list_step(stmts, scope, depth, w)
                },
        )
    }
}

/// A block. One that declares nothing of its own runs in the scope around it.
pub fn exec_block<'h, 'a, H: Host<'a>>(
    s: &mut Session<'h, 'a, H>,
    stmts: &'a Vec<Stmt>,
    env: Env,
    depth: u64,
) -> (out: Result<Value, Abrupt<'a>>)
    ensures
        final(s).continues(*old(s)),
        forall|answers: Answers<'a>| #[trigger]
            final(s).agrees(answers) ==> old(s).agrees(answers) && (out, final(s).world(answers))
                == exec_block_step(stmts, env, depth, old(s).world(answers)),
    decreases depth, stmts, 1nat, 0nat,
{
    if !stmts_declare_lexical(stmts) {
        return exec_list(s, stmts, env, depth);
    }
    let scope: Env = s.new_scope(Some(env), None, false, false);
    let u: () = declare_lexicals(s, stmts, scope)?;
    if stmts_declare_using(stmts) {
        s.push_frame();
        let r: Completion<'a> = exec_list(s, stmts, scope, depth);
        let frame = s.pop_frame();
        return dispose_frame(s, &frame, r);
    } else {
        return exec_list(s, stmts, scope, depth);
    }
}

/// Runs the statements of a body: the last value that is not empty, `undefined` if there is none.
/// From the item at `i` on.
pub open spec fn run_body_from<'a>(
    stmts: &'a Vec<Stmt>,
    env: Env,
    depth: u64,
    i: nat,
    last: Value,
    w: World<'a>,
) -> Step<'a, Value>
    decreases depth, stmts, 0nat, stmts@.len() - i,
{
    if i >= stmts@.len() {
        (Ok(last), w)
    } else {
        next(
            exec_stmt_step(&stmts@[i as int], env, depth, w),
            |r: Value, w: World<'a>| run_body_from(stmts, env, depth, i + 1, kept(r, last), w),
        )
    }
}

/// Runs the statements of a body: the last value that is not empty, `undefined` if there is none.
pub open spec fn run_body_step<'a>(
    stmts: &'a Vec<Stmt>,
    env: Env,
    depth: u64,
    w: World<'a>,
) -> Step<'a, Value>
    decreases depth, stmts, 0nat, stmts@.len() + 1,
{
    run_body_from(stmts, env, depth, 0, Value::Undefined, w)
}

/// Runs the statements of a body: the last value that is not empty, `undefined` if there is none.
pub fn run_body<'h, 'a, H: Host<'a>>(
    s: &mut Session<'h, 'a, H>,
    stmts: &'a Vec<Stmt>,
    env: Env,
    depth: u64,
) -> (out: Result<Value, Abrupt<'a>>)
    ensures
        final(s).continues(*old(s)),
        forall|answers: Answers<'a>| #[trigger]
            final(s).agrees(answers) ==> old(s).agrees(answers) && (out, final(s).world(answers))
                == run_body_step(stmts, env, depth, old(s).world(answers)),
    decreases depth, stmts, 0nat, stmts@.len() + 1,
{
    let mut last: Value = Value::Undefined;
    let mut i: usize = 0;
    while i < stmts.len()
        invariant
            i <= stmts.len(),
            s.continues(*old(s)),
            forall|answers: Answers<'a>| #[trigger]
                s.agrees(answers) ==> old(s).agrees(answers)
                    && run_body_step(stmts, env, depth, old(s).world(answers))
                    == run_body_from(stmts, env, depth, i as nat, last, s.world(answers)),
        decreases stmts.len() - i,
    {
        let r: Value = exec_stmt(s, &stmts[i], env, depth)?;
        last = keep(r, last);
        i = i + 1;
    }
    return Ok(last);
}

/// Runs a body whose names are declared already.
pub open spec fn run_stmt_list_step<'a>(
    stmts: &'a Vec<Stmt>,
    env: Env,
    depth: u64,
    w: World<'a>,
) -> Step<'a, Value>
    decreases depth, stmts, 1nat, 0nat,
{
    if any_using(stmts@) {
        let w = w.push_frame();
        let (r, w) = run_body_step(stmts, env, depth, w);
        let frame = w.top_frame();
        let w = w.pop_frame();
        match r {
            Ok(v) => {
                next(
                    dispose_frame_step(frame, Ok(Value::Undefined), w),
                    |u: Value, w: World<'a>| (Ok(v), w),
                )
            },
            Err(a) => dispose_frame_step(frame, Err(a), w),
        }
    } else {
        run_body_step(stmts, env, depth, w)
    }
}

/// Runs a body whose names are declared already.
pub fn run_stmt_list<'h, 'a, H: Host<'a>>(
    s: &mut Session<'h, 'a, H>,
    stmts: &'a Vec<Stmt>,
    env: Env,
    depth: u64,
) -> (out: Result<Value, Abrupt<'a>>)
    ensures
        final(s).continues(*old(s)),
        forall|answers: Answers<'a>| #[trigger]
            final(s).agrees(answers) ==> old(s).agrees(answers) && (out, final(s).world(answers))
                == run_stmt_list_step(stmts, env, depth, old(s).world(answers)),
    decreases depth, stmts, 1nat, 0nat,
{
    if stmts_declare_using(stmts) {
        s.push_frame();
        let r: Completion<'a> = run_body(s, stmts, env, depth);
        let frame = s.pop_frame();
        match r {
            Ok(v) => {
                let u: Value = dispose_frame(s, &frame, Ok(Value::Undefined))?;
                return Ok(v);
            },
            Err(a) => {
                return dispose_frame(s, &frame, Err(a));
            },
        }
    } else {
        return run_body(s, stmts, env, depth);
    }
}

/// A `catch`: the parameter has a scope of its own around that of the body. Its calls are in tail
/// position if no `finally` comes behind it.
pub open spec fn exec_catch_step<'a>(
    handler: &'a (Option<Pattern>, Vec<Stmt>),
    error: Value,
    last: bool,
    env: Env,
    depth: u64,
    w: World<'a>,
) -> Step<'a, Value>
    decreases depth, handler, 0nat, 0nat,
{
    next(
        match &handler.0 {
            Some(pattern) => {
                let scope: Env = w.next_scope();
                let w = w.new_scope(Some(env), None, true, false);
                next(
                    bind_pattern_step(pattern, error, scope, BindMode::Lexical(false), depth, w),
                    |u: (), w: World<'a>| (Ok(scope), w),
                )
            },
            None => (Ok(env), w),
        },
        |outer: Env, w: World<'a>| {
            let inner: Env = w.next_scope();
            let w = w.new_scope(Some(outer), None, false, false);
            next(
                declare_lexicals_step(&handler.1, inner, w),
                |d: (), w: World<'a>| {
                    let saved: Flags = w.flags;
                    let w = w.set_flags(Flags { tail: saved.tail && last, ..saved });
                    let (r, w) = exec_list_step(&handler.1, inner, depth, w);
                    let now: Flags = w.flags;
                    let w = w.set_flags(Flags { tail: saved.tail, ..now });
                    (r, w)
                },
            )
        },
    )
}

/// A `catch`: the parameter has a scope of its own around that of the body. Its calls are in tail
/// position if no `finally` comes behind it.
pub fn exec_catch<'h, 'a, H: Host<'a>>(
    s: &mut Session<'h, 'a, H>,
    handler: &'a (Option<Pattern>, Vec<Stmt>),
    error: Value,
    last: bool,
    env: Env,
    depth: u64,
) -> (out: Result<Value, Abrupt<'a>>)
    ensures
        final(s).continues(*old(s)),
        forall|answers: Answers<'a>| #[trigger]
            final(s).agrees(answers) ==> old(s).agrees(answers) && (out, final(s).world(answers))
                == exec_catch_step(handler, error, last, env, depth, old(s).world(answers)),
    decreases depth, handler, 0nat, 0nat,
{
    let outer: Env = match &handler.0 {
        Some(pattern) => {
            let scope: Env = s.new_scope(Some(env), None, true, false);
            let u: () = bind_pattern(s, pattern, error, scope, BindMode::Lexical(false), depth)?;
            scope
        },
        None => {
            env
        },
    };
    let inner: Env = s.new_scope(Some(outer), None, false, false);
    let d: () = declare_lexicals(s, &handler.1, inner)?;
    let saved: Flags = s.flags();
    s.set_flags(Flags { tail: saved.tail && last, ..saved });
    let r: Completion<'a> = exec_list(s, &handler.1, inner, depth);
    let now: Flags = s.flags();
    s.set_flags(Flags { tail: saved.tail, ..now });
    return r;
}

/// What a `try` block comes to once its `catch` has run. No call of the block is in tail position.
pub open spec fn exec_protected_step<'a>(
    st: &'a Stmt,
    env: Env,
    depth: u64,
    w: World<'a>,
) -> Step<'a, Value>
    decreases depth, st, 1nat, 0nat,
{
    match st {
        Stmt::Try { block, handler, finalizer } => {
            let saved: Flags = w.flags;
            let w = w.set_flags(Flags { tail: false, ..saved });
            let (r, w) = exec_block_step(block, env, depth, w);
            let now: Flags = w.flags;
            let w = w.set_flags(Flags { tail: saved.tail, ..now });
            match r {
                Err(Abrupt::Throw(e)) => {
                    match handler {
                        Some(h) => {
                            exec_catch_step(h, e, finalizer.is_none(), env, depth, w)
                        },
                        None => (r, w),
                    }
                },
                _ => (r, w),
            }
        },
        _ => (Ok(Value::Undefined), w),
    }
}

/// What a `try` block comes to once its `catch` has run. No call of the block is in tail position.
pub fn exec_protected<'h, 'a, H: Host<'a>>(
    s: &mut Session<'h, 'a, H>,
    st: &'a Stmt,
    env: Env,
    depth: u64,
) -> (out: Result<Value, Abrupt<'a>>)
    ensures
        final(s).continues(*old(s)),
        forall|answers: Answers<'a>| #[trigger]
            final(s).agrees(answers) ==> old(s).agrees(answers) && (out, final(s).world(answers))
                == exec_protected_step(st, env, depth, old(s).world(answers)),
    decreases depth, st, 1nat, 0nat,
{
    match st {
        Stmt::Try { block, handler, finalizer } => {
            let saved: Flags = s.flags();
            s.set_flags(Flags { tail: false, ..saved });
            let r: Completion<'a> = exec_block(s, block, env, depth);
            let now: Flags = s.flags();
            s.set_flags(Flags { tail: saved.tail, ..now });
            match r {
                Err(Abrupt::Throw(e)) => {
                    match handler {
                        Some(h) => {
                            return exec_catch(s, h, e, finalizer.is_none(), env, depth);
                        },
                        None => {
                            return r;
                        },
                    }
                },
                _ => {
                    return r;
                },
            }
        },
        _ => {
            return Ok(Value::Undefined);
        },
    }
}

/// A `try` statement. A `finally` that ends early overrides what the rest came to, a call left to
/// the caller included.
pub open spec fn exec_try_step<'a>(
    st: &'a Stmt,
    env: Env,
    depth: u64,
    w: World<'a>,
) -> Step<'a, Value>
    decreases depth, st, 2nat, 0nat,
{
    match st {
        Stmt::Try { block, handler, finalizer } => {
            let (r, w) = exec_protected_step(st, env, depth, w);
            match finalizer {
                Some(f) => {
                    let parked: Flags = w.flags;
                    let w = w.set_flags(Flags { pending: None, ..parked });
                    let (x, w) = exec_block_step(f, env, depth, w);
                    match x {
                        Ok(_) => {
                            let now: Flags = w.flags;
                            let w = w.set_flags(Flags { pending: parked.pending, ..now });
                            (completed(r), w)
                        },
                        Err(a) => (Err(filled(a, Value::Undefined)), w),
                    }
                },
                None => (completed(r), w),
            }
        },
        _ => (Ok(Value::Undefined), w),
    }
}

/// A `try` statement. A `finally` that ends early overrides what the rest came to, a call left to
/// the caller included.
pub fn exec_try<'h, 'a, H: Host<'a>>(
    s: &mut Session<'h, 'a, H>,
    st: &'a Stmt,
    env: Env,
    depth: u64,
) -> (out: Result<Value, Abrupt<'a>>)
    ensures
        final(s).continues(*old(s)),
        forall|answers: Answers<'a>| #[trigger]
            final(s).agrees(answers) ==> old(s).agrees(answers) && (out, final(s).world(answers))
                == exec_try_step(st, env, depth, old(s).world(answers)),
    decreases depth, st, 2nat, 0nat,
{
    match st {
        Stmt::Try { block, handler, finalizer } => {
            let r: Completion<'a> = exec_protected(s, st, env, depth);
            match finalizer {
                Some(f) => {
                    let parked: Flags = s.flags();
                    s.set_flags(Flags { pending: None, ..parked });
                    let x: Completion<'a> = exec_block(s, f, env, depth);
                    match x {
                        Ok(_) => {
                            let now: Flags = s.flags();
                            s.set_flags(Flags { pending: parked.pending, ..now });
                            return update_empty(r);
                        },
                        Err(a) => {
                            return Err(update_abrupt_empty(a, Value::Undefined));
                        },
                    }
                },
                None => {
                    return update_empty(r);
                },
            }
        },
        _ => {
            return Ok(Value::Undefined);
        },
    }
}

/// Declares the lexical names of every case. From the item at `i` on.
pub open spec fn declare_cases_from<'a>(
    cases: &'a Vec<SwitchCase>,
    env: Env,
    i: nat,
    w: World<'a>,
) -> Step<'a, ()>
    decreases cases@.len() - i,
{
    if i >= cases@.len() {
        (Ok(()), w)
    } else {
        next(
            declare_lexicals_step(&cases@[i as int].body, env, w),
            |u: (), w: World<'a>| declare_cases_from(cases, env, i + 1, w),
        )
    }
}

/// Declares the lexical names of every case.
pub open spec fn declare_cases_step<'a>(
    cases: &'a Vec<SwitchCase>,
    env: Env,
    w: World<'a>,
) -> Step<'a, ()>
{
    declare_cases_from(cases, env, 0, w)
}

/// Declares the lexical names of every case.
pub fn declare_cases<'h, 'a, H: Host<'a>>(
    s: &mut Session<'h, 'a, H>,
    cases: &'a Vec<SwitchCase>,
    env: Env,
) -> (out: Result<(), Abrupt<'a>>)
    ensures
        final(s).continues(*old(s)),
        forall|answers: Answers<'a>| #[trigger]
            final(s).agrees(answers) ==> old(s).agrees(answers) && (out, final(s).world(answers))
                == declare_cases_step(cases, env, old(s).world(answers)),
{
    let mut i: usize = 0;
    while i < cases.len()
        invariant
            i <= cases.len(),
            s.continues(*old(s)),
            forall|answers: Answers<'a>| #[trigger]
                s.agrees(answers) ==> old(s).agrees(answers)
                    && declare_cases_step(cases, env, old(s).world(answers))
                    == declare_cases_from(cases, env, i as nat, s.world(answers)),
        decreases cases.len() - i,
    {
        let u: () = declare_lexicals(s, &cases[i].body, env)?;
        i = i + 1;
    }
    return Ok(());
}

/// The place of the first case whose test equals a value, or of the default. From the item at `i`
/// on.
pub open spec fn find_case_from<'a>(
    cases: &'a Vec<SwitchCase>,
    d: Value,
    env: Env,
    depth: u64,
    i: nat,
    w: World<'a>,
) -> Step<'a, Option<usize>>
    decreases depth, cases, 0nat, cases@.len() - i,
{
    if i >= cases@.len() {
        (Ok(default_from(cases@, 0)), w)
    } else {
        match &cases@[i as int].test {
            Some(e) => {
                next(
                    eval_step(e, env, depth, w),
                    |t: Value, w: World<'a>|
                        next(
                            strict_equals_step(d, t, w),
                            |same: bool, w: World<'a>|
                                if same {
                                    (Ok(Some(i as usize)), w)
                                } else {
                                    find_case_from(cases, d, env, depth, i + 1, w)
                                },
                        ),
                )
            },
            None => find_case_from(cases, d, env, depth, i + 1, w),
        }
    }
}

/// The place of the first case whose test equals a value, or of the default.
pub open spec fn find_case_step<'a>(
    cases: &'a Vec<SwitchCase>,
    d: Value,
    env: Env,
    depth: u64,
    w: World<'a>,
) -> Step<'a, Option<usize>>
    decreases depth, cases, 0nat, cases@.len() + 1,
{
    find_case_from(cases, d, env, depth, 0, w)
}

/// The place of the first case whose test equals a value, or of the default.
pub fn find_case<'h, 'a, H: Host<'a>>(
    s: &mut Session<'h, 'a, H>,
    cases: &'a Vec<SwitchCase>,
    d: Value,
    env: Env,
    depth: u64,
) -> (out: Result<Option<usize>, Abrupt<'a>>)
    ensures
        final(s).continues(*old(s)),
        forall|answers: Answers<'a>| #[trigger]
            final(s).agrees(answers) ==> old(s).agrees(answers) && (out, final(s).world(answers))
                == find_case_step(cases, d, env, depth, old(s).world(answers)),
    decreases depth, cases, 0nat, cases@.len() + 1,
{
    let mut i: usize = 0;
    while i < cases.len()
        invariant
            i <= cases.len(),
            s.continues(*old(s)),
            forall|answers: Answers<'a>| #[trigger]
                s.agrees(answers) ==> old(s).agrees(answers)
                    && find_case_step(cases, d, env, depth, old(s).world(answers))
                    == find_case_from(cases, d, env, depth, i as nat, s.world(answers)),
        decreases cases.len() - i,
    {
        match &cases[i].test {
            Some(e) => {
                let t: Value = eval(s, e, env, depth)?;
                let same: bool = strict_equals(s, d, t)?;
                if same {
                    return Ok(Some(i));
                } else {
                }
            },
            None => {
            },
        }
        i = i + 1;
    }
    return Ok(default_case(cases));
}

/// Runs the statements of a case, after a value so far. From the item at `i` on.
pub open spec fn run_case_from<'a>(
    stmts: &'a Vec<Stmt>,
    from: Value,
    env: Env,
    depth: u64,
    i: nat,
    v: Value,
    w: World<'a>,
) -> Step<'a, LoopStep>
    decreases depth, stmts, 0nat, stmts@.len() - i,
{
    if i >= stmts@.len() {
        (Ok(LoopStep::Continue(v)), w)
    } else {
        let (r, w) = exec_stmt_step(&stmts@[i as int], env, depth, w);
        match r {
            Ok(x) => run_case_from(stmts, from, env, depth, i + 1, kept(x, v), w),
            Err(Abrupt::Break(None, x)) => (Ok(LoopStep::Done(kept(x, v))), w),
            Err(a) => (Err(filled(a, v)), w),
        }
    }
}

/// Runs the statements of a case, after a value so far.
pub open spec fn run_case_step<'a>(
    stmts: &'a Vec<Stmt>,
    from: Value,
    env: Env,
    depth: u64,
    w: World<'a>,
) -> Step<'a, LoopStep>
    decreases depth, stmts, 0nat, stmts@.len() + 1,
{
    run_case_from(stmts, from, env, depth, 0, from, w)
}

/// Runs the statements of a case, after a value so far.
pub fn run_case<'h, 'a, H: Host<'a>>(
    s: &mut Session<'h, 'a, H>,
    stmts: &'a Vec<Stmt>,
    from: Value,
    env: Env,
    depth: u64,
) -> (out: Result<LoopStep, Abrupt<'a>>)
    ensures
        final(s).continues(*old(s)),
        forall|answers: Answers<'a>| #[trigger]
            final(s).agrees(answers) ==> old(s).agrees(answers) && (out, final(s).world(answers))
                == run_case_step(stmts, from, env, depth, old(s).world(answers)),
    decreases depth, stmts, 0nat, stmts@.len() + 1,
{
    let mut v: Value = from;
    let mut i: usize = 0;
    while i < stmts.len()
        invariant
            i <= stmts.len(),
            s.continues(*old(s)),
            forall|answers: Answers<'a>| #[trigger]
                s.agrees(answers) ==> old(s).agrees(answers)
                    && run_case_step(stmts, from, env, depth, old(s).world(answers))
                    == run_case_from(stmts, from, env, depth, i as nat, v, s.world(answers)),
        decreases stmts.len() - i,
    {
        let r: Completion<'a> = exec_stmt(s, &stmts[i], env, depth);
        match r {
            Ok(x) => {
                v = keep(x, v);
            },
            Err(Abrupt::Break(None, x)) => {
                return Ok(LoopStep::Done(keep(x, v)));
            },
            Err(a) => {
                return Err(update_abrupt_empty(a, v));
            },
        }
        i = i + 1;
    }
    return Ok(LoopStep::Continue(v));
}

/// Runs the cases from one on, until a `break`. From the item at `i` on.
pub open spec fn run_cases_from<'a>(
    cases: &'a Vec<SwitchCase>,
    start: usize,
    env: Env,
    depth: u64,
    i: nat,
    v: Value,
    w: World<'a>,
) -> Step<'a, Value>
    decreases depth, cases, 0nat, cases@.len() - i,
{
    if i >= cases@.len() {
        (Ok(kept(v, Value::Undefined)), w)
    } else {
        if i < start {
            run_cases_from(cases, start, env, depth, i + 1, v, w)
        } else {
            next(
                run_case_step(&cases@[i as int].body, v, env, depth, w),
                |go: LoopStep, w: World<'a>|
                    match go {
                        LoopStep::Done(x) => (Ok(kept(x, Value::Undefined)), w),
                        LoopStep::Continue(x) => {
                            run_cases_from(cases, start, env, depth, i + 1, x, w)
                        },
                    },
            )
        }
    }
}

/// Runs the cases from one on, until a `break`.
pub open spec fn run_cases_step<'a>(
    cases: &'a Vec<SwitchCase>,
    start: usize,
    env: Env,
    depth: u64,
    w: World<'a>,
) -> Step<'a, Value>
    decreases depth, cases, 0nat, cases@.len() + 1,
{
    run_cases_from(cases, start, env, depth, 0, Value::Empty, w)
}

/// Runs the cases from one on, until a `break`.
pub fn run_cases<'h, 'a, H: Host<'a>>(
    s: &mut Session<'h, 'a, H>,
    cases: &'a Vec<SwitchCase>,
    start: usize,
    env: Env,
    depth: u64,
) -> (out: Result<Value, Abrupt<'a>>)
    ensures
        final(s).continues(*old(s)),
        forall|answers: Answers<'a>| #[trigger]
            final(s).agrees(answers) ==> old(s).agrees(answers) && (out, final(s).world(answers))
                == run_cases_step(cases, start, env, depth, old(s).world(answers)),
    decreases depth, cases, 0nat, cases@.len() + 1,
{
    let mut v: Value = Value::Empty;
    let mut i: usize = 0;
    while i < cases.len()
        invariant
            i <= cases.len(),
            s.continues(*old(s)),
            forall|answers: Answers<'a>| #[trigger]
                s.agrees(answers) ==> old(s).agrees(answers)
                    && run_cases_step(cases, start, env, depth, old(s).world(answers))
                    == run_cases_from(cases, start, env, depth, i as nat, v, s.world(answers)),
        decreases cases.len() - i,
    {
        if i < start {
        } else {
            let go: LoopStep = run_case(s, &cases[i].body, v, env, depth)?;
            match go {
                LoopStep::Done(x) => {
                    return Ok(keep(x, Value::Undefined));
                },
                LoopStep::Continue(x) => {
                    v = x;
                },
            }
        }
        i = i + 1;
    }
    return Ok(keep(v, Value::Undefined));
}

/// A `switch` statement.
pub open spec fn exec_switch_step<'a>(
    st: &'a Stmt,
    env: Env,
    depth: u64,
    w: World<'a>,
) -> Step<'a, Value>
    decreases depth, st, 1nat, 0nat,
{
    match st {
        Stmt::Switch { disc, cases } => {
            next(
                eval_step(disc, env, depth, w),
                |d: Value, w: World<'a>| {
                    let scope: Env = w.next_scope();
                    let w = w.new_scope(Some(env), None, false, false);
                    next(
                        declare_cases_step(cases, scope, w),
                        |u: (), w: World<'a>|
                            next(
                                find_case_step(cases, d, scope, depth, w),
                                |found: Option<usize>, w: World<'a>|
                                    match found {
                                        Some(start) => {
                                            run_cases_step(cases, start, scope, depth, w)
                                        },
                                        None => (Ok(Value::Undefined), w),
                                    },
                            ),
                    )
                },
            )
        },
        _ => (Ok(Value::Undefined), w),
    }
}

/// A `switch` statement.
pub fn exec_switch<'h, 'a, H: Host<'a>>(
    s: &mut Session<'h, 'a, H>,
    st: &'a Stmt,
    env: Env,
    depth: u64,
) -> (out: Result<Value, Abrupt<'a>>)
    ensures
        final(s).continues(*old(s)),
        forall|answers: Answers<'a>| #[trigger]
            final(s).agrees(answers) ==> old(s).agrees(answers) && (out, final(s).world(answers))
                == exec_switch_step(st, env, depth, old(s).world(answers)),
    decreases depth, st, 1nat, 0nat,
{
    match st {
        Stmt::Switch { disc, cases } => {
            let d: Value = eval(s, disc, env, depth)?;
            let scope: Env = s.new_scope(Some(env), None, false, false);
            let u: () = declare_cases(s, cases, scope)?;
            let found: Option<usize> = find_case(s, cases, d, scope, depth)?;
            match found {
                Some(start) => {
                    return run_cases(s, cases, start, scope, depth);
                },
                None => {
                    return Ok(Value::Undefined);
                },
            }
        },
        _ => {
            return Ok(Value::Undefined);
        },
    }
}

/// Runs the statement behind the labels of a whole statement. A loop knows them all.
pub open spec fn run_labeled_step<'a>(
    whole: &'a Stmt,
    st: &'a Stmt,
    env: Env,
    depth: u64,
    w: World<'a>,
) -> Step<'a, Value>
    decreases depth, st, 9nat, 0nat,
{
    match st {
        Stmt::Labeled { label, body } => run_labeled_step(whole, &**body, env, depth, w),
        Stmt::While { .. } => exec_while_step(whole, st, env, depth, w),
        Stmt::DoWhile { .. } => exec_do_while_step(whole, st, env, depth, w),
        Stmt::For { .. } => exec_for_step(whole, st, env, depth, w),
        Stmt::ForInOf { .. } => exec_for_in_of_step(whole, st, env, depth, w),
        _ => exec_stmt_step(st, env, depth, w),
    }
}

/// Runs the statement behind the labels of a whole statement. A loop knows them all.
pub fn run_labeled<'h, 'a, H: Host<'a>>(
    s: &mut Session<'h, 'a, H>,
    whole: &'a Stmt,
    st: &'a Stmt,
    env: Env,
    depth: u64,
) -> (out: Result<Value, Abrupt<'a>>)
    ensures
        final(s).continues(*old(s)),
        forall|answers: Answers<'a>| #[trigger]
            final(s).agrees(answers) ==> old(s).agrees(answers) && (out, final(s).world(answers))
                == run_labeled_step(whole, st, env, depth, old(s).world(answers)),
    decreases depth, st, 9nat, 0nat,
{
    match st {
        Stmt::Labeled { label, body } => {
            return run_labeled(s, whole, &**body, env, depth);
        },
        Stmt::While { .. } => {
            return exec_while(s, whole, st, env, depth);
        },
        Stmt::DoWhile { .. } => {
            return exec_do_while(s, whole, st, env, depth);
        },
        Stmt::For { .. } => {
            return exec_for(s, whole, st, env, depth);
        },
        Stmt::ForInOf { .. } => {
            return exec_for_in_of(s, whole, st, env, depth);
        },
        _ => {
            return exec_stmt(s, st, env, depth);
        },
    }
}

/// A labelled statement: a `break` to one of its labels ends it.
pub open spec fn exec_labeled_step<'a>(
    st: &'a Stmt,
    env: Env,
    depth: u64,
    w: World<'a>,
) -> Step<'a, Value>
    decreases depth, st, 1nat, 0nat,
{
    match st {
        Stmt::Labeled { label, body } => {
            let (r, w) = run_labeled_step(st, &**body, env, depth, w);
            match r {
                Err(Abrupt::Break(Some(l), x)) => {
                    if labeled_with(st, l@) {
                        (Ok(x), w)
                    } else {
                        (r, w)
                    }
                },
                _ => (r, w),
            }
        },
        _ => (Ok(Value::Undefined), w),
    }
}

/// A labelled statement: a `break` to one of its labels ends it.
pub fn exec_labeled<'h, 'a, H: Host<'a>>(
    s: &mut Session<'h, 'a, H>,
    st: &'a Stmt,
    env: Env,
    depth: u64,
) -> (out: Result<Value, Abrupt<'a>>)
    ensures
        final(s).continues(*old(s)),
        forall|answers: Answers<'a>| #[trigger]
            final(s).agrees(answers) ==> old(s).agrees(answers) && (out, final(s).world(answers))
                == exec_labeled_step(st, env, depth, old(s).world(answers)),
    decreases depth, st, 1nat, 0nat,
{
    match st {
        Stmt::Labeled { label, body } => {
            let r: Completion<'a> = run_labeled(s, st, &**body, env, depth);
            match r {
                Err(Abrupt::Break(Some(l), x)) => {
                    if has_label(st, l) {
                        return Ok(x);
                    } else {
                        return r;
                    }
                },
                _ => {
                    return r;
                },
            }
        },
        _ => {
            return Ok(Value::Undefined);
        },
    }
}

/// A default export.
pub open spec fn exec_export_default_step<'a>(
    inner: &'a Stmt,
    env: Env,
    depth: u64,
    w: World<'a>,
) -> Step<'a, Value>
    decreases depth, inner, 9nat, 0nat,
{
    match inner {
        Stmt::Expr(e) => {
            next(
                eval_named_step(e, Name::Fixed("default"), Key::Fixed("default"), env, depth, w),
                |v: Value, w: World<'a>| export_value_step(v, env, w),
            )
        },
        Stmt::FuncDecl(f) => {
            if f.name.is_none() {
                next(
                    asks(Request::MakeFunction { func: &**f, env }, w),
                    |v: Value, w: World<'a>|
                        next(
                            name_function_step(v, "", Key::Fixed("default"), false, w),
                            |nm: (), w: World<'a>| export_value_step(v, env, w),
                        ),
                )
            } else {
                exec_stmt_step(inner, env, depth, w)
            }
        },
        Stmt::ClassDecl(c) => {
            if c.name.is_none() {
                next(
                    eval_class_step(&**c, env, Some(Name::Fixed("default")), depth, w),
                    |v: Value, w: World<'a>|
                        next(
                            name_function_step(v, "", Key::Fixed("default"), false, w),
                            |nm: (), w: World<'a>| export_value_step(v, env, w),
                        ),
                )
            } else {
                exec_stmt_step(inner, env, depth, w)
            }
        },
        _ => exec_stmt_step(inner, env, depth, w),
    }
}

/// A default export.
pub fn exec_export_default<'h, 'a, H: Host<'a>>(
    s: &mut Session<'h, 'a, H>,
    inner: &'a Stmt,
    env: Env,
    depth: u64,
) -> (out: Result<Value, Abrupt<'a>>)
    ensures
        final(s).continues(*old(s)),
        forall|answers: Answers<'a>| #[trigger]
            final(s).agrees(answers) ==> old(s).agrees(answers) && (out, final(s).world(answers))
                == exec_export_default_step(inner, env, depth, old(s).world(answers)),
    decreases depth, inner, 9nat, 0nat,
{
    match inner {
        Stmt::Expr(e) => {
            let v: Value = eval_named(
                s,
                e,
                Name::Fixed("default"),
                Key::Fixed("default"),
                env,
                depth,
            )?;
            return export_value(s, v, env);
        },
        Stmt::FuncDecl(f) => {
            if f.name.is_none() {
                let v: Value = s.value(Request::MakeFunction { func: &**f, env })?;
                let nm: () = name_function(s, v, "", Key::Fixed("default"), false)?;
                return export_value(s, v, env);
            } else {
                return exec_stmt(s, inner, env, depth);
            }
        },
        Stmt::ClassDecl(c) => {
            if c.name.is_none() {
                let v: Value = eval_class(s, &**c, env, Some(Name::Fixed("default")), depth)?;
                let nm: () = name_function(s, v, "", Key::Fixed("default"), false)?;
                return export_value(s, v, env);
            } else {
                return exec_stmt(s, inner, env, depth);
            }
        },
        _ => {
            return exec_stmt(s, inner, env, depth);
        },
    }
}

/// A `return` with an expression. Where a call may take the place of the running function, one in
/// tail position is left to the caller; the generator of an asynchronous generator waits for the
/// value.
pub open spec fn exec_return_step<'a>(
    e: &'a Expr,
    env: Env,
    depth: u64,
    w: World<'a>,
) -> Step<'a, Value>
    decreases depth, e, 6nat, 0nat,
{
    let flags: Flags = w.flags;
    if flags.tail && !w.holds_resources() {
        next(
            eval_return_expr_step(e, env, depth, w),
            |t: TailEval, w: World<'a>|
                match t {
                    TailEval::Tail { func, this, args } => {
                        let now: Flags = w.flags;
                        let w = w.set_flags(Flags { pending: Some(TailCall { func, this, args }), ..now });
                        (Err(Abrupt::Return(Value::Undefined)), w)
                    },
                    TailEval::Val(v) => (Err(Abrupt::Return(v)), w),
                },
        )
    } else {
        next(
            eval_step(e, env, depth, w),
            |v: Value, w: World<'a>|
                next(
                    asks_flag(Request::InAsyncGenerator, w),
                    |inside: bool, w: World<'a>|
                        if inside {
                            next(
                                coro_await_step(v, w),
                                |x: Value, w: World<'a>| (Err(Abrupt::Return(x)), w),
                            )
                        } else {
                            (Err(Abrupt::Return(v)), w)
                        },
                ),
        )
    }
}

/// A `return` with an expression. Where a call may take the place of the running function, one in
/// tail position is left to the caller; the generator of an asynchronous generator waits for the
/// value.
pub fn exec_return<'h, 'a, H: Host<'a>>(
    s: &mut Session<'h, 'a, H>,
    e: &'a Expr,
    env: Env,
    depth: u64,
) -> (out: Result<Value, Abrupt<'a>>)
    ensures
        final(s).continues(*old(s)),
        forall|answers: Answers<'a>| #[trigger]
            final(s).agrees(answers) ==> old(s).agrees(answers) && (out, final(s).world(answers))
                == exec_return_step(e, env, depth, old(s).world(answers)),
    decreases depth, e, 6nat, 0nat,
{
    let flags: Flags = s.flags();
    if flags.tail && !s.holds_resources() {
        let t: TailEval = eval_return_expr(s, e, env, depth)?;
        match t {
            TailEval::Tail { func, this, args } => {
                let now: Flags = s.flags();
                s.set_flags(Flags { pending: Some(TailCall { func, this, args }), ..now });
                return Err(Abrupt::Return(Value::Undefined));
            },
            TailEval::Val(v) => {
                return Err(Abrupt::Return(v));
            },
        }
    } else {
        let v: Value = eval(s, e, env, depth)?;
        let inside: bool = s.flag(Request::InAsyncGenerator)?;
        if inside {
            let x: Value = coro_await(s, v)?;
            return Err(Abrupt::Return(x));
        } else {
            return Err(Abrupt::Return(v));
        }
    }
}

/// A statement that runs others once at most, or ends early.
pub open spec fn exec_simple_step<'a>(
    st: &'a Stmt,
    env: Env,
    depth: u64,
    w: World<'a>,
) -> Step<'a, Value>
    decreases depth, st, 7nat, 0nat,
{
    match st {
        Stmt::Return(arg) => {
            match arg {
                Some(e) => exec_return_step(e, env, depth, w),
                None => (Err(Abrupt::Return(Value::Undefined)), w),
            }
        },
        Stmt::Throw(e) => {
            next(
                eval_step(e, env, depth, w),
                |v: Value, w: World<'a>| (Err(Abrupt::Throw(v)), w),
            )
        },
        Stmt::Break(label) => {
            match label {
                Some(l) => (Err(Abrupt::Break(Some(l), Value::Empty)), w),
                None => (Err(Abrupt::Break(None, Value::Empty)), w),
            }
        },
        Stmt::Continue(label) => {
            match label {
                Some(l) => (Err(Abrupt::Continue(Some(l), Value::Empty)), w),
                None => (Err(Abrupt::Continue(None, Value::Empty)), w),
            }
        },
        Stmt::If { test, cons, alt } => {
            next(
                test_holds_step(test, env, depth, w),
                |b: bool, w: World<'a>|
                    if b {
                        let (r, w) = exec_stmt_step(&**cons, env, depth, w);
                        (completed(r), w)
                    } else {
                        match alt {
                            Some(x) => {
                                let (r, w) = exec_stmt_step(&**x, env, depth, w);
                                (completed(r), w)
                            },
                            None => (Ok(Value::Undefined), w),
                        }
                    },
            )
        },
        Stmt::With { obj, body } => {
            next(
                eval_step(obj, env, depth, w),
                |o: Value, w: World<'a>|
                    if o.is_nullish() {
                        throws(
                            ErrorKind::TypeError,
                            "Cannot convert undefined or null to object",
                            w,
                        )
                    } else {
                        let scope: Env = w.next_scope();
                        let w = w.new_scope(Some(env), Some(o), false, false);
                        let (r, w) = exec_stmt_step(&**body, scope, depth, w);
                        (completed(r), w)
                    },
            )
        },
        Stmt::FuncDecl(f) => {
            next(
                sync_block_function_step(&**f, env, w),
                |u: (), w: World<'a>| (Ok(Value::Empty), w),
            )
        },
        Stmt::ClassDecl(c) => {
            next(
                eval_class_step(&**c, env, None, depth, w),
                |v: Value, w: World<'a>|
                    match &c.name {
                        Some(n) => {
                            let w = w.init_lexical(Name::Source(n), v, false, env);
                            (Ok(Value::Empty), w)
                        },
                        None => (Ok(Value::Empty), w),
                    },
            )
        },
        _ => (Ok(Value::Empty), w),
    }
}

/// A statement that runs others once at most, or ends early.
#[verifier::spinoff_prover]
pub fn exec_simple<'h, 'a, H: Host<'a>>(
    s: &mut Session<'h, 'a, H>,
    st: &'a Stmt,
    env: Env,
    depth: u64,
) -> (out: Result<Value, Abrupt<'a>>)
    ensures
        final(s).continues(*old(s)),
        forall|answers: Answers<'a>| #[trigger]
            final(s).agrees(answers) ==> old(s).agrees(answers) && (out, final(s).world(answers))
                == exec_simple_step(st, env, depth, old(s).world(answers)),
    decreases depth, st, 7nat, 0nat,
{
    match st {
        Stmt::Return(arg) => {
            match arg {
                Some(e) => {
                    return exec_return(s, e, env, depth);
                },
                None => {
                    return Err(Abrupt::Return(Value::Undefined));
                },
            }
        },
        Stmt::Throw(e) => {
            let v: Value = eval(s, e, env, depth)?;
            return Err(Abrupt::Throw(v));
        },
        Stmt::Break(label) => {
            match label {
                Some(l) => {
                    return Err(Abrupt::Break(Some(l), Value::Empty));
                },
                None => {
                    return Err(Abrupt::Break(None, Value::Empty));
                },
            }
        },
        Stmt::Continue(label) => {
            match label {
                Some(l) => {
                    return Err(Abrupt::Continue(Some(l), Value::Empty));
                },
                None => {
                    return Err(Abrupt::Continue(None, Value::Empty));
                },
            }
        },
        Stmt::If { test, cons, alt } => {
            let b: bool = test_holds(s, test, env, depth)?;
            if b {
                let r: Completion<'a> = exec_stmt(s, &**cons, env, depth);
                return update_empty(r);
            } else {
                match alt {
                    Some(x) => {
                        let r: Completion<'a> = exec_stmt(s, &**x, env, depth);
                        return update_empty(r);
                    },
                    None => {
                        return Ok(Value::Undefined);
                    },
                }
            }
        },
        Stmt::With { obj, body } => {
            let o: Value = eval(s, obj, env, depth)?;
            if o.is_nullish() {
                return throw(s, ErrorKind::TypeError, "Cannot convert undefined or null to object");
            }
            let scope: Env = s.new_scope(Some(env), Some(o), false, false);
            let r: Completion<'a> = exec_stmt(s, &**body, scope, depth);
            return update_empty(r);
        },
        Stmt::FuncDecl(f) => {
            let u: () = sync_block_function(s, &**f, env)?;
            return Ok(Value::Empty);
        },
        Stmt::ClassDecl(c) => {
            let v: Value = eval_class(s, &**c, env, None, depth)?;
            match &c.name {
                Some(n) => {
                    s.init_lexical(Name::Source(n), v, false, env);
                    return Ok(Value::Empty);
                },
                None => {
                    return Ok(Value::Empty);
                },
            }
        },
        _ => {
            return Ok(Value::Empty);
        },
    }
}

/// A statement.
pub open spec fn exec_stmt_step<'a>(
    st: &'a Stmt,
    env: Env,
    depth: u64,
    w: World<'a>,
) -> Step<'a, Value>
    decreases depth, st, 8nat, 0nat,
{
    match st {
        Stmt::Expr(e) => eval_step(e, env, depth, w),
        Stmt::Block(body) => exec_block_step(body, env, depth, w),
        Stmt::VarDecl { kind, decls } => exec_decls_step(decls, *kind, env, depth, w),
        Stmt::While { .. } => exec_while_step(st, st, env, depth, w),
        Stmt::DoWhile { .. } => exec_do_while_step(st, st, env, depth, w),
        Stmt::For { .. } => exec_for_step(st, st, env, depth, w),
        Stmt::ForInOf { .. } => exec_for_in_of_step(st, st, env, depth, w),
        Stmt::Try { .. } => exec_try_step(st, env, depth, w),
        Stmt::Switch { .. } => exec_switch_step(st, env, depth, w),
        Stmt::Labeled { .. } => exec_labeled_step(st, env, depth, w),
        Stmt::ExportDecl(inner) => exec_stmt_step(&**inner, env, depth, w),
        Stmt::ExportDefault(inner) => exec_export_default_step(&**inner, env, depth, w),
        _ => exec_simple_step(st, env, depth, w),
    }
}

/// A statement.
#[verifier::spinoff_prover]
pub fn exec_stmt<'h, 'a, H: Host<'a>>(
    s: &mut Session<'h, 'a, H>,
    st: &'a Stmt,
    env: Env,
    depth: u64,
) -> (out: Result<Value, Abrupt<'a>>)
    ensures
        final(s).continues(*old(s)),
        forall|answers: Answers<'a>| #[trigger]
            final(s).agrees(answers) ==> old(s).agrees(answers) && (out, final(s).world(answers))
                == exec_stmt_step(st, env, depth, old(s).world(answers)),
    decreases depth, st, 8nat, 0nat,
{
    match st {
        Stmt::Expr(e) => {
            return eval(s, e, env, depth);
        },
        Stmt::Block(body) => {
            return exec_block(s, body, env, depth);
        },
        Stmt::VarDecl { kind, decls } => {
            return exec_decls(s, decls, *kind, env, depth);
        },
        Stmt::While { .. } => {
            return exec_while(s, st, st, env, depth);
        },
        Stmt::DoWhile { .. } => {
            return exec_do_while(s, st, st, env, depth);
        },
        Stmt::For { .. } => {
            return exec_for(s, st, st, env, depth);
        },
        Stmt::ForInOf { .. } => {
            return exec_for_in_of(s, st, st, env, depth);
        },
        Stmt::Try { .. } => {
            return exec_try(s, st, env, depth);
        },
        Stmt::Switch { .. } => {
            return exec_switch(s, st, env, depth);
        },
        Stmt::Labeled { .. } => {
            return exec_labeled(s, st, env, depth);
        },
        Stmt::ExportDecl(inner) => {
            return exec_stmt(s, &**inner, env, depth);
        },
        Stmt::ExportDefault(inner) => {
            return exec_export_default(s, &**inner, env, depth);
        },
        _ => {
            return exec_simple(s, st, env, depth);
        },
    }
}

} // verus!
