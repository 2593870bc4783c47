//! Generators giving values to their callers, and asynchronous iteration.
use vstd::prelude::*;

use crate::grammar::Symbol;
use crate::interp::operate::{
    call_bare, call_bare_step, call_with, call_with_step, get_iterator, get_iterator_step,
    is_callable, is_callable_step, iterator_close, iterator_close_normal,
    iterator_close_normal_step, iterator_close_step, throw, throws, to_boolean, to_boolean_step,
};
use crate::interp::promise::{await_value, await_value_step, coro_await, coro_await_step};
use crate::interp::session::{
    asks, asks_flag, asks_handle, next, Abrupt, Answers, Completion, ErrorKind, Host, Key, Request,
    Session, Step, Value, WellKnown, World,
};

verus! {

/// `yield`: gives a value to the caller and goes on as the caller resumes. An asynchronous
/// generator waits for the value first, and for the value of a `return` afterwards.
pub open spec fn yield_one_step<'a>(value: Value, w: World<'a>) -> Step<'a, Value>
{
    next(
        asks_flag(Request::InAsyncGenerator, w),
        |asynchronous: bool, w: World<'a>|
            next(
                if asynchronous {
                    asks(Request::Await(value), w)
                } else {
                    (Ok(value), w)
                },
                |v: Value, w: World<'a>| {
                    let (r, w) = asks(Request::Suspend(v), w);
                    match r {
                        Err(Abrupt::Return(x)) => {
                            if asynchronous {
                                return_awaited_step(x, w)
                            } else {
                                (Err(Abrupt::Return(x)), w)
                            }
                        },
                        _ => (r, w),
                    }
                },
            ),
    )
}

/// `yield`: gives a value to the caller and goes on as the caller resumes. An asynchronous
/// generator waits for the value first, and for the value of a `return` afterwards.
pub fn yield_one<'h, 'a, H: Host<'a>>(
    s: &mut Session<'h, 'a, H>,
    value: Value,
) -> (out: Result<Value, Abrupt<'a>>)
    ensures
        final(s).continues(*old(s)),
        forall|answers: Answers<'a>| #[trigger]
            final(s).agrees(answers) ==> old(s).agrees(answers) && (out, final(s).world(answers))
                == yield_one_step(value, old(s).world(answers)),
{
    let asynchronous: bool = s.flag(Request::InAsyncGenerator)?;
    let v: Value = if asynchronous {
        s.value(Request::Await(value))?
    } else {
        value
    };
    let r: Completion<'a> = s.value(Request::Suspend(v));
    match r {
        Err(Abrupt::Return(x)) => {
            if asynchronous {
                return return_awaited(s, x);
            } else {
                return Err(Abrupt::Return(x));
            }
        },
        _ => {
            return r;
        },
    }
}

/// Waits for a value and returns it; what the wait throws is thrown.
pub open spec fn return_awaited_step<'a>(x: Value, w: World<'a>) -> Step<'a, Value>
{
    let (r, w) = asks(Request::Await(x), w);
    match r {
        Ok(v) => (Err(Abrupt::Return(v)), w),
        Err(a) => (Err(a), w),
    }
}

/// Waits for a value and returns it; what the wait throws is thrown.
pub fn return_awaited<'h, 'a, H: Host<'a>>(
    s: &mut Session<'h, 'a, H>,
    x: Value,
) -> (out: Result<Value, Abrupt<'a>>)
    ensures
        final(s).continues(*old(s)),
        forall|answers: Answers<'a>| #[trigger]
            final(s).agrees(answers) ==> old(s).agrees(answers) && (out, final(s).world(answers))
                == return_awaited_step(x, old(s).world(answers)),
{
    let r: Completion<'a> = s.value(Request::Await(x));
    match r {
        Ok(v) => {
            return Err(Abrupt::Return(v));
        },
        Err(a) => {
            return Err(a);
        },
    }
}

/// Hands a resumption on to the iterator that a `yield*` delegates to: its answer, and whether a
/// `return` was handed on.
pub open spec fn forward_step<'a>(
    iter: Value,
    method: Value,
    received: Completion<'a>,
    w: World<'a>,
) -> Step<'a, (Value, bool)>
{
    match received {
        Ok(v) => {
            next(
                call_with_step(method, iter, v, w),
                |r: Value, w: World<'a>| (Ok((r, false)), w),
            )
        },
        Err(Abrupt::Throw(e)) => {
            next(
                asks(Request::GetMember { base: iter, key: Key::Fixed("throw") }, w),
                |f: Value, w: World<'a>|
                    if f.is_nullish() {
                        next(
                            iterator_close_normal_step(iter, w),
                            |u: (), w: World<'a>|
                                throws(
                                    ErrorKind::TypeError,
                                    "the delegated iterator has no 'throw' method",
                                    w,
                                ),
                        )
                    } else {
                        next(
                            is_callable_step(f, w),
                            |ok: bool, w: World<'a>|
                                if ok {
                                    next(
                                        call_with_step(f, iter, e, w),
                                        |r: Value, w: World<'a>| (Ok((r, false)), w),
                                    )
                                } else {
                                    throws(
                                        ErrorKind::TypeError,
                                        "iterator 'throw' is not callable",
                                        w,
                                    )
                                },
                        )
                    },
            )
        },
        Err(Abrupt::Return(v)) => {
            next(
                asks(Request::GetMember { base: iter, key: Key::Fixed("return") }, w),
                |f: Value, w: World<'a>|
                    if f.is_nullish() {
                        (Err(Abrupt::Return(v)), w)
                    } else {
                        next(
                            is_callable_step(f, w),
                            |ok: bool, w: World<'a>|
                                if ok {
                                    next(
                                        call_with_step(f, iter, v, w),
                                        |r: Value, w: World<'a>| (Ok((r, true)), w),
                                    )
                                } else {
                                    throws(
                                        ErrorKind::TypeError,
                                        "iterator 'return' is not callable",
                                        w,
                                    )
                                },
                        )
                    },
            )
        },
        Err(a) => (Err(a), w),
    }
}

/// Hands a resumption on to the iterator that a `yield*` delegates to: its answer, and whether a
/// `return` was handed on.
pub fn forward<'h, 'a, H: Host<'a>>(
    s: &mut Session<'h, 'a, H>,
    iter: Value,
    method: Value,
    received: Completion<'a>,
) -> (out: Result<(Value, bool), Abrupt<'a>>)
    ensures
        final(s).continues(*old(s)),
        forall|answers: Answers<'a>| #[trigger]
            final(s).agrees(answers) ==> old(s).agrees(answers) && (out, final(s).world(answers))
                == forward_step(iter, method, received, old(s).world(answers)),
{
    match received {
        Ok(v) => {
            let r: Value = call_with(s, method, iter, v)?;
            return Ok((r, false));
        },
        Err(Abrupt::Throw(e)) => {
            let f: Value = s.value(Request::GetMember { base: iter, key: Key::Fixed("throw") })?;
            if f.is_nullish() {
                let u: () = iterator_close_normal(s, iter)?;
                return throw(
                    s,
                    ErrorKind::TypeError,
                    "the delegated iterator has no 'throw' method",
                );
            }
            let ok: bool = is_callable(s, f)?;
            if ok {
                let r: Value = call_with(s, f, iter, e)?;
                return Ok((r, false));
            } else {
                return throw(s, ErrorKind::TypeError, "iterator 'throw' is not callable");
            }
        },
        Err(Abrupt::Return(v)) => {
            let f: Value = s.value(Request::GetMember { base: iter, key: Key::Fixed("return") })?;
            if f.is_nullish() {
                return Err(Abrupt::Return(v));
            }
            let ok: bool = is_callable(s, f)?;
            if ok {
                let r: Value = call_with(s, f, iter, v)?;
                return Ok((r, true));
            } else {
                return throw(s, ErrorKind::TypeError, "iterator 'return' is not callable");
            }
        },
        Err(a) => {
            return Err(a);
        },
    }
}

/// `yield*`: hands every resumption on to an iterator until that is done. A result that is not the
/// last goes to the caller as it is. With `k` rounds left.
pub open spec fn delegate_from<'a>(
    iter: Value,
    method: Value,
    k: nat,
    received: Completion<'a>,
    w: World<'a>,
) -> Step<'a, Value>
    decreases k,
{
    if k == 0 {
        (Err(Abrupt::Stopped), w)
    } else {
        next(
            forward_step(iter, method, received, w),
            |got: (Value, bool), w: World<'a>|
                if !matches!(got.0, Value::Obj(_)) {
                    throws(ErrorKind::TypeError, "iterator result is not an object", w)
                } else {
                    next(
                        asks(Request::GetMember { base: got.0, key: Key::Fixed("done") }, w),
                        |d: Value, w: World<'a>|
                            next(
                                to_boolean_step(d, w),
                                |done: bool, w: World<'a>|
                                    if done {
                                        next(
                                            asks(
                                                Request::GetMember { base: got.0, key: Key::Fixed("value") },
                                                w,
                                            ),
                                            |v: Value, w: World<'a>|
                                                if got.1 {
                                                    (Err(Abrupt::Return(v)), w)
                                                } else {
                                                    (Ok(v), w)
                                                },
                                        )
                                    } else {
                                        let (r, w) = asks(Request::SuspendRaw(got.0), w);
                                        delegate_from(iter, method, (k - 1) as nat, r, w)
                                    },
                            ),
                    )
                },
        )
    }
}

/// `yield*`: hands every resumption on to an iterator until that is done. A result that is not the
/// last goes to the caller as it is.
pub open spec fn delegate_step<'a>(iter: Value, method: Value, w: World<'a>) -> Step<'a, Value>
{
    delegate_from(iter, method, w.limit, Ok(Value::Undefined), w)
}

/// `yield*`: hands every resumption on to an iterator until that is done. A result that is not the
/// last goes to the caller as it is.
pub fn delegate<'h, 'a, H: Host<'a>>(
    s: &mut Session<'h, 'a, H>,
    iter: Value,
    method: Value,
) -> (out: Result<Value, Abrupt<'a>>)
    ensures
        final(s).continues(*old(s)),
        forall|answers: Answers<'a>| #[trigger]
            final(s).agrees(answers) ==> old(s).agrees(answers) && (out, final(s).world(answers))
                == delegate_step(iter, method, old(s).world(answers)),
{
    let mut received: Completion<'a> = Ok(Value::Undefined);
    let mut k: u64 = s.limit();
    while k > 0
        invariant
            s.continues(*old(s)),
            k <= old(s).rounds(),
            forall|answers: Answers<'a>| #[trigger]
                s.agrees(answers) ==> old(s).agrees(answers)
                    && delegate_step(iter, method, old(s).world(answers))
                    == delegate_from(iter, method, k as nat, received, s.world(answers)),
        decreases k,
    {
        let got: (Value, bool) = forward(s, iter, method, received)?;
        if !matches!(got.0, Value::Obj(_)) {
            return throw(s, ErrorKind::TypeError, "iterator result is not an object");
        }
        let d: Value = s.value(Request::GetMember { base: got.0, key: Key::Fixed("done") })?;
        let done: bool = to_boolean(s, d)?;
        if done {
            let v: Value = s.value(Request::GetMember { base: got.0, key: Key::Fixed("value") })?;
            if got.1 {
                return Err(Abrupt::Return(v));
            } else {
                return Ok(v);
            }
        } else {
            let r: Completion<'a> = s.value(Request::SuspendRaw(got.0));
            received = r;
        }
        k = k - 1;
    }
    return Err(Abrupt::Stopped);
}

/// `yield*` in a generator.
pub open spec fn yield_delegate_step<'a>(value: Value, w: World<'a>) -> Step<'a, Value>
{
    next(
        get_iterator_step(value, w),
        |it: (Value, Value), w: World<'a>| delegate_step(it.0, it.1, w),
    )
}

/// `yield*` in a generator.
pub fn yield_delegate<'h, 'a, H: Host<'a>>(
    s: &mut Session<'h, 'a, H>,
    value: Value,
) -> (out: Result<Value, Abrupt<'a>>)
    ensures
        final(s).continues(*old(s)),
        forall|answers: Answers<'a>| #[trigger]
            final(s).agrees(answers) ==> old(s).agrees(answers) && (out, final(s).world(answers))
                == yield_delegate_step(value, old(s).world(answers)),
{
    let it: (Value, Value) = get_iterator(s, value)?;
    return delegate(s, it.0, it.1);
}

/// The iterator of an asynchronous iteration, its `next` method if that was read already, and
/// whether it is a synchronous iterator whose values are waited for.
pub open spec fn async_iterator_step<'a>(
    value: Value,
    w: World<'a>,
) -> Step<'a, (Value, Value, bool)>
{
    next(
        asks_handle(Request::WellKnownKey(WellKnown::AsyncIterator), w),
        |key: u64, w: World<'a>|
            next(
                asks(Request::GetMember { base: value, key: Key::Symbol(key) }, w),
                |method: Value, w: World<'a>|
                    next(
                        is_callable_step(method, w),
                        |ok: bool, w: World<'a>|
                            if ok {
                                next(
                                    call_bare_step(method, value, w),
                                    |iter: Value, w: World<'a>|
                                        if matches!(iter, Value::Obj(_)) {
                                            (Ok((iter, Value::Undefined, false)), w)
                                        } else {
                                            throws(
                                                ErrorKind::TypeError,
                                                "@@asyncIterator did not return an object",
                                                w,
                                            )
                                        },
                                )
                            } else if method.is_nullish() {
                                next(
                                    get_iterator_step(value, w),
                                    |it: (Value, Value), w: World<'a>|
                                        (Ok((it.0, it.1, true)), w),
                                )
                            } else {
                                throws(ErrorKind::TypeError, "@@asyncIterator is not callable", w)
                            },
                    ),
            ),
    )
}

/// The iterator of an asynchronous iteration, its `next` method if that was read already, and
/// whether it is a synchronous iterator whose values are waited for.
pub fn async_iterator<'h, 'a, H: Host<'a>>(
    s: &mut Session<'h, 'a, H>,
    value: Value,
) -> (out: Result<(Value, Value, bool), Abrupt<'a>>)
    ensures
        final(s).continues(*old(s)),
        forall|answers: Answers<'a>| #[trigger]
            final(s).agrees(answers) ==> old(s).agrees(answers) && (out, final(s).world(answers))
                == async_iterator_step(value, old(s).world(answers)),
{
    let key: u64 = s.handle(Request::WellKnownKey(WellKnown::AsyncIterator))?;
    let method: Value = s.value(Request::GetMember { base: value, key: Key::Symbol(key) })?;
    let ok: bool = is_callable(s, method)?;
    if ok {
        let iter: Value = call_bare(s, method, value)?;
        if matches!(iter, Value::Obj(_)) {
            return Ok((iter, Value::Undefined, false));
        } else {
            return throw(s, ErrorKind::TypeError, "@@asyncIterator did not return an object");
        }
    } else if method.is_nullish() {
        let it: (Value, Value) = get_iterator(s, value)?;
        return Ok((it.0, it.1, true));
    } else {
        return throw(s, ErrorKind::TypeError, "@@asyncIterator is not callable");
    }
}

/// Waits for an iterator's result and takes it apart: whether it is the last, and its value. A
/// synchronous iterator whose value fails is closed.
pub open spec fn settle_result_step<'a>(
    iter: Value,
    from_sync: bool,
    result: Value,
    w: World<'a>,
) -> Step<'a, (bool, Value)>
{
    next(
        coro_await_step(result, w),
        |r: Value, w: World<'a>|
            if !matches!(r, Value::Obj(_)) {
                throws(ErrorKind::TypeError, "iterator result is not an object", w)
            } else {
                next(
                    asks(Request::GetMember { base: r, key: Key::Fixed("done") }, w),
                    |d: Value, w: World<'a>|
                        next(
                            to_boolean_step(d, w),
                            |done: bool, w: World<'a>|
                                next(
                                    asks(
                                        Request::GetMember { base: r, key: Key::Fixed("value") },
                                        w,
                                    ),
                                    |v: Value, w: World<'a>|
                                        if from_sync {
                                            let (x, w) = coro_await_step(v, w);
                                            match x {
                                                Ok(y) => (Ok((done, y)), w),
                                                Err(a) => {
                                                    if done {
                                                        (Err(a), w)
                                                    } else {
                                                        let (u, w) = iterator_close_step(iter, w);
                                                        (Err(a), w)
                                                    }
                                                },
                                            }
                                        } else {
                                            (Ok((done, v)), w)
                                        },
                                ),
                        ),
                )
            },
    )
}

/// Waits for an iterator's result and takes it apart: whether it is the last, and its value. A
/// synchronous iterator whose value fails is closed.
pub fn settle_result<'h, 'a, H: Host<'a>>(
    s: &mut Session<'h, 'a, H>,
    iter: Value,
    from_sync: bool,
    result: Value,
) -> (out: Result<(bool, Value), Abrupt<'a>>)
    ensures
        final(s).continues(*old(s)),
        forall|answers: Answers<'a>| #[trigger]
            final(s).agrees(answers) ==> old(s).agrees(answers) && (out, final(s).world(answers))
                == settle_result_step(iter, from_sync, result, old(s).world(answers)),
{
    let r: Value = coro_await(s, result)?;
    if !matches!(r, Value::Obj(_)) {
        return throw(s, ErrorKind::TypeError, "iterator result is not an object");
    }
    let d: Value = s.value(Request::GetMember { base: r, key: Key::Fixed("done") })?;
    let done: bool = to_boolean(s, d)?;
    let v: Value = s.value(Request::GetMember { base: r, key: Key::Fixed("value") })?;
    if from_sync {
        let x: Completion<'a> = coro_await(s, v);
        match x {
            Ok(y) => {
                return Ok((done, y));
            },
            Err(a) => {
                if done {
                    return Err(a);
                } else {
                    let u: Result<(), Abrupt<'a>> = iterator_close(s, iter);
                    return Err(a);
                }
            },
        }
    } else {
        return Ok((done, v));
    }
}

/// Closes a delegated iterator without a `throw` method, dropping what comes of it, and throws.
pub open spec fn refuse_throw_step<'a>(iter: Value, w: World<'a>) -> Step<'a, (Value, bool)>
{
    next(
        asks(Request::GetMember { base: iter, key: Key::Fixed("return") }, w),
        |f: Value, w: World<'a>|
            next(
                is_callable_step(f, w),
                |ok: bool, w: World<'a>|
                    if ok {
                        let (r, w) = call_bare_step(f, iter, w);
                        match r {
                            Ok(x) => {
                                let (u, w) = coro_await_step(x, w);
                                throws(
                                    ErrorKind::TypeError,
                                    "the delegated iterator has no 'throw' method",
                                    w,
                                )
                            },
                            Err(_) => {
                                throws(
                                    ErrorKind::TypeError,
                                    "the delegated iterator has no 'throw' method",
                                    w,
                                )
                            },
                        }
                    } else {
                        throws(
                            ErrorKind::TypeError,
                            "the delegated iterator has no 'throw' method",
                            w,
                        )
                    },
            ),
    )
}

/// Closes a delegated iterator without a `throw` method, dropping what comes of it, and throws.
pub fn refuse_throw<'h, 'a, H: Host<'a>>(
    s: &mut Session<'h, 'a, H>,
    iter: Value,
) -> (out: Result<(Value, bool), Abrupt<'a>>)
    ensures
        final(s).continues(*old(s)),
        forall|answers: Answers<'a>| #[trigger]
            final(s).agrees(answers) ==> old(s).agrees(answers) && (out, final(s).world(answers))
                == refuse_throw_step(iter, old(s).world(answers)),
{
    let f: Value = s.value(Request::GetMember { base: iter, key: Key::Fixed("return") })?;
    let ok: bool = is_callable(s, f)?;
    if ok {
        let r: Completion<'a> = call_bare(s, f, iter);
        match r {
            Ok(x) => {
                let u: Completion<'a> = coro_await(s, x);
                return throw(
                    s,
                    ErrorKind::TypeError,
                    "the delegated iterator has no 'throw' method",
                );
            },
            Err(_) => {
                return throw(
                    s,
                    ErrorKind::TypeError,
                    "the delegated iterator has no 'throw' method",
                );
            },
        }
    } else {
        return throw(s, ErrorKind::TypeError, "the delegated iterator has no 'throw' method");
    }
}

/// Hands a resumption on to the iterator that an asynchronous `yield*` delegates to.
pub open spec fn forward_async_step<'a>(
    iter: Value,
    method: Value,
    received: Completion<'a>,
    w: World<'a>,
) -> Step<'a, (Value, bool)>
{
    match received {
        Ok(v) => {
            next(
                call_with_step(method, iter, v, w),
                |r: Value, w: World<'a>| (Ok((r, false)), w),
            )
        },
        Err(Abrupt::Throw(e)) => {
            next(
                asks(Request::GetMember { base: iter, key: Key::Fixed("throw") }, w),
                |f: Value, w: World<'a>|
                    next(
                        is_callable_step(f, w),
                        |ok: bool, w: World<'a>|
                            if ok {
                                next(
                                    call_with_step(f, iter, e, w),
                                    |r: Value, w: World<'a>| (Ok((r, false)), w),
                                )
                            } else {
                                refuse_throw_step(iter, w)
                            },
                    ),
            )
        },
        Err(Abrupt::Return(v)) => {
            next(
                asks(Request::GetMember { base: iter, key: Key::Fixed("return") }, w),
                |f: Value, w: World<'a>|
                    next(
                        is_callable_step(f, w),
                        |ok: bool, w: World<'a>|
                            if ok {
                                next(
                                    call_with_step(f, iter, v, w),
                                    |r: Value, w: World<'a>| (Ok((r, true)), w),
                                )
                            } else {
                                next(
                                    coro_await_step(v, w),
                                    |x: Value, w: World<'a>| (Err(Abrupt::Return(x)), w),
                                )
                            },
                    ),
            )
        },
        Err(a) => (Err(a), w),
    }
}

/// Hands a resumption on to the iterator that an asynchronous `yield*` delegates to.
pub fn forward_async<'h, 'a, H: Host<'a>>(
    s: &mut Session<'h, 'a, H>,
    iter: Value,
    method: Value,
    received: Completion<'a>,
) -> (out: Result<(Value, bool), Abrupt<'a>>)
    ensures
        final(s).continues(*old(s)),
        forall|answers: Answers<'a>| #[trigger]
            final(s).agrees(answers) ==> old(s).agrees(answers) && (out, final(s).world(answers))
                == forward_async_step(iter, method, received, old(s).world(answers)),
{
    match received {
        Ok(v) => {
            let r: Value = call_with(s, method, iter, v)?;
            return Ok((r, false));
        },
        Err(Abrupt::Throw(e)) => {
            let f: Value = s.value(Request::GetMember { base: iter, key: Key::Fixed("throw") })?;
            let ok: bool = is_callable(s, f)?;
            if ok {
                let r: Value = call_with(s, f, iter, e)?;
                return Ok((r, false));
            } else {
                return refuse_throw(s, iter);
            }
        },
        Err(Abrupt::Return(v)) => {
            let f: Value = s.value(Request::GetMember { base: iter, key: Key::Fixed("return") })?;
            let ok: bool = is_callable(s, f)?;
            if ok {
                let r: Value = call_with(s, f, iter, v)?;
                return Ok((r, true));
            } else {
                let x: Value = coro_await(s, v)?;
                return Err(Abrupt::Return(x));
            }
        },
        Err(a) => {
            return Err(a);
        },
    }
}

/// Gives a delegated value to the caller. The value of a `return` is waited for before the
/// delegation sees it.
pub open spec fn suspend_delegated_step<'a>(
    value: Value,
    w: World<'a>,
) -> (Completion<'a>, World<'a>)
{
    let (r, w) = asks(Request::Suspend(value), w);
    match r {
        Err(Abrupt::Return(x)) => {
            let (y, w) = asks(Request::Await(x), w);
            match y {
                Ok(v) => (Err(Abrupt::Return(v)), w),
                Err(a) => (Err(a), w),
            }
        },
        _ => (r, w),
    }
}

/// Gives a delegated value to the caller. The value of a `return` is waited for before the
/// delegation sees it.
pub fn suspend_delegated<'h, 'a, H: Host<'a>>(
    s: &mut Session<'h, 'a, H>,
    value: Value,
) -> (out: Completion<'a>)
    ensures
        final(s).continues(*old(s)),
        forall|answers: Answers<'a>| #[trigger]
            final(s).agrees(answers) ==> old(s).agrees(answers) && (out, final(s).world(answers))
                == suspend_delegated_step(value, old(s).world(answers)),
{
    let r: Completion<'a> = s.value(Request::Suspend(value));
    match r {
        Err(Abrupt::Return(x)) => {
            let y: Completion<'a> = s.value(Request::Await(x));
            match y {
                Ok(v) => {
                    return Err(Abrupt::Return(v));
                },
                Err(a) => {
                    return Err(a);
                },
            }
        },
        _ => {
            return r;
        },
    }
}

/// `yield*` in an asynchronous generator: every result, and a synchronous iterator's values, are
/// waited for. With `k` rounds left.
pub open spec fn delegate_async_from<'a>(
    iter: Value,
    method: Value,
    from_sync: bool,
    k: nat,
    received: Completion<'a>,
    w: World<'a>,
) -> Step<'a, Value>
    decreases k,
{
    if k == 0 {
        (Err(Abrupt::Stopped), w)
    } else {
        next(
            forward_async_step(iter, method, received, w),
            |got: (Value, bool), w: World<'a>|
                next(
                    settle_result_step(iter, from_sync, got.0, w),
                    |step: (bool, Value), w: World<'a>|
                        if step.0 {
                            if got.1 {
                                (Err(Abrupt::Return(step.1)), w)
                            } else {
                                (Ok(step.1), w)
                            }
                        } else {
                            let (r, w) = suspend_delegated_step(step.1, w);
                            delegate_async_from(iter, method, from_sync, (k - 1) as nat, r, w)
                        },
                ),
        )
    }
}

/// `yield*` in an asynchronous generator: every result, and a synchronous iterator's values, are
/// waited for.
pub open spec fn delegate_async_step<'a>(
    iter: Value,
    method: Value,
    from_sync: bool,
    w: World<'a>,
) -> Step<'a, Value>
{
    delegate_async_from(iter, method, from_sync, w.limit, Ok(Value::Undefined), w)
}

/// `yield*` in an asynchronous generator: every result, and a synchronous iterator's values, are
/// waited for.
pub fn delegate_async<'h, 'a, H: Host<'a>>(
    s: &mut Session<'h, 'a, H>,
    iter: Value,
    method: Value,
    from_sync: bool,
) -> (out: Result<Value, Abrupt<'a>>)
    ensures
        final(s).continues(*old(s)),
        forall|answers: Answers<'a>| #[trigger]
            final(s).agrees(answers) ==> old(s).agrees(answers) && (out, final(s).world(answers))
                == delegate_async_step(iter, method, from_sync, old(s).world(answers)),
{
    let mut received: Completion<'a> = Ok(Value::Undefined);
    let mut k: u64 = s.limit();
    while k > 0
        invariant
            s.continues(*old(s)),
            k <= old(s).rounds(),
            forall|answers: Answers<'a>| #[trigger]
                s.agrees(answers) ==> old(s).agrees(answers)
                    && delegate_async_step(iter, method, from_sync, old(s).world(answers))
                    == delegate_async_from(
                        iter,
                        method,
                        from_sync,
                        k as nat,
                        received,
                        s.world(answers),
                    ),
        decreases k,
    {
        let got: (Value, bool) = forward_async(s, iter, method, received)?;
        let step: (bool, Value) = settle_result(s, iter, from_sync, got.0)?;
        if step.0 {
            if got.1 {
                return Err(Abrupt::Return(step.1));
            } else {
                return Ok(step.1);
            }
        } else {
            let r: Completion<'a> = suspend_delegated(s, step.1);
            received = r;
        }
        k = k - 1;
    }
    return Err(Abrupt::Stopped);
}

/// `yield*` in an asynchronous generator.
pub open spec fn yield_delegate_async_step<'a>(value: Value, w: World<'a>) -> Step<'a, Value>
{
    next(
        async_iterator_step(value, w),
        |it: (Value, Value, bool), w: World<'a>|
            next(
                if it.2 {
                    (Ok(it.1), w)
                } else {
                    asks(Request::GetMember { base: it.0, key: Key::Fixed("next") }, w)
                },
                |method: Value, w: World<'a>| delegate_async_step(it.0, method, it.2, w),
            ),
    )
}

/// `yield*` in an asynchronous generator.
pub fn yield_delegate_async<'h, 'a, H: Host<'a>>(
    s: &mut Session<'h, 'a, H>,
    value: Value,
) -> (out: Result<Value, Abrupt<'a>>)
    ensures
        final(s).continues(*old(s)),
        forall|answers: Answers<'a>| #[trigger]
            final(s).agrees(answers) ==> old(s).agrees(answers) && (out, final(s).world(answers))
                == yield_delegate_async_step(value, old(s).world(answers)),
{
    let it: (Value, Value, bool) = async_iterator(s, value)?;
    let method: Value = if it.2 {
        it.1
    } else {
        s.value(Request::GetMember { base: it.0, key: Key::Fixed("next") })?
    };
    return delegate_async(s, it.0, method, it.2);
}

/// AsyncIteratorClose of a `for await` loop.
pub open spec fn async_for_await_close_step<'a>(
    iter: Value,
    from_sync: bool,
    w: World<'a>,
) -> Step<'a, ()>
{
    next(
        asks(Request::GetMember { base: iter, key: Key::Fixed("return") }, w),
        |f: Value, w: World<'a>|
            if f.is_nullish() {
                (Ok(()), w)
            } else {
                next(
                    is_callable_step(f, w),
                    |ok: bool, w: World<'a>|
                        if !ok {
                            throws(ErrorKind::TypeError, "iterator 'return' is not callable", w)
                        } else {
                            next(
                                call_bare_step(f, iter, w),
                                |made: Value, w: World<'a>|
                                    next(
                                        if from_sync {
                                            (Ok(made), w)
                                        } else {
                                            await_value_step(made, w)
                                        },
                                        |r: Value, w: World<'a>|
                                            if !matches!(r, Value::Obj(_)) {
                                                throws(
                                                    ErrorKind::TypeError,
                                                    "iterator result is not an object",
                                                    w,
                                                )
                                            } else if from_sync {
                                                next(
                                                    asks(
                                                        Request::GetMember { base: r, key: Key::Fixed("value") },
                                                        w,
                                                    ),
                                                    |raw: Value, w: World<'a>|
                                                        next(
                                                            await_value_step(raw, w),
                                                            |x: Value, w: World<'a>|
                                                                (Ok(()), w),
                                                        ),
                                                )
                                            } else {
                                                (Ok(()), w)
                                            },
                                    ),
                            )
                        },
                )
            },
    )
}

/// AsyncIteratorClose of a `for await` loop.
pub fn async_for_await_close<'h, 'a, H: Host<'a>>(
    s: &mut Session<'h, 'a, H>,
    iter: Value,
    from_sync: bool,
) -> (out: Result<(), Abrupt<'a>>)
    ensures
        final(s).continues(*old(s)),
        forall|answers: Answers<'a>| #[trigger]
            final(s).agrees(answers) ==> old(s).agrees(answers) && (out, final(s).world(answers))
                == async_for_await_close_step(iter, from_sync, old(s).world(answers)),
{
    let f: Value = s.value(Request::GetMember { base: iter, key: Key::Fixed("return") })?;
    if f.is_nullish() {
        return Ok(());
    }
    let ok: bool = is_callable(s, f)?;
    if !ok {
        return throw(s, ErrorKind::TypeError, "iterator 'return' is not callable");
    }
    let made: Value = call_bare(s, f, iter)?;
    let r: Value = if from_sync {
        made
    } else {
        await_value(s, made)?
    };
    if !matches!(r, Value::Obj(_)) {
        return throw(s, ErrorKind::TypeError, "iterator result is not an object");
    }
    if from_sync {
        let raw: Value = s.value(Request::GetMember { base: r, key: Key::Fixed("value") })?;
        let x: Value = await_value(s, raw)?;
        return Ok(());
    } else {
        return Ok(());
    }
}

} // verus!
