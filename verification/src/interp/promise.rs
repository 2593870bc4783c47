//! Promises and the jobs that their reactions make.
use vstd::prelude::*;

use crate::interp::operate::{
    call_bare, call_bare_step, call_with, call_with_step, is_callable, is_callable_step,
    make_error, make_error_step,
};
use crate::interp::session::{
    asks, asks_flag, asks_handle, next, Abrupt, Answers, Completion, ErrorKind, Host, Key, Request,
    Session, Step, Value, World,
};
use crate::jobs::{Job, Reaction, Status};
use crate::number::ONE;
use crate::value::props::Property;

verus! {

/// A new promise.
pub open spec fn new_promise_step<'a>(w: World<'a>) -> Step<'a, Value>
{
    next(
        asks(Request::NewPromise, w),
        |v: Value, w: World<'a>|
            match v {
                Value::Obj(h) => {
                    let w = w.add_promise(h);
                    (Ok(v), w)
                },
                _ => (Ok(v), w),
            },
    )
}

/// A new promise.
pub fn new_promise<'h, 'a, H: Host<'a>>(
    s: &mut Session<'h, 'a, H>,
) -> (out: Result<Value, Abrupt<'a>>)
    ensures
        final(s).continues(*old(s)),
        forall|answers: Answers<'a>| #[trigger]
            final(s).agrees(answers) ==> old(s).agrees(answers) && (out, final(s).world(answers))
                == new_promise_step(old(s).world(answers)),
{
    let v: Value = s.value(Request::NewPromise)?;
    match v {
        Value::Obj(h) => {
            s.add_promise(h);
            return Ok(v);
        },
        _ => {
            return Ok(v);
        },
    }
}

/// A function that settles a promise, unless the flag was used. Its length is one and its name
/// empty.
pub open spec fn make_resolver_with_step<'a>(
    promise: Value,
    fulfilling: bool,
    flag: Value,
    w: World<'a>,
) -> Step<'a, Value>
{
    next(
        asks(Request::MakeResolver { promise, fulfilling, flag }, w),
        |f: Value, w: World<'a>| {
            let w = w.ask(
                Request::DefineOwn { base: f, key: Key::Fixed("length"), prop: Property::of(Value::Num(ONE), false, false, true) },
            ).1;
            let name: Value = w.next_text();
            let w = w.add_text(""@);
            let w = w.ask(
                Request::DefineOwn { base: f, key: Key::Fixed("name"), prop: Property::of(name, false, false, true) },
            ).1;
            (Ok(f), w)
        },
    )
}

/// A function that settles a promise, unless the flag was used. Its length is one and its name
/// empty.
pub fn make_resolver_with<'h, 'a, H: Host<'a>>(
    s: &mut Session<'h, 'a, H>,
    promise: Value,
    fulfilling: bool,
    flag: Value,
) -> (out: Result<Value, Abrupt<'a>>)
    ensures
        final(s).continues(*old(s)),
        forall|answers: Answers<'a>| #[trigger]
            final(s).agrees(answers) ==> old(s).agrees(answers) && (out, final(s).world(answers))
                == make_resolver_with_step(promise, fulfilling, flag, old(s).world(answers)),
{
    let f: Value = s.value(Request::MakeResolver { promise, fulfilling, flag })?;
    let _ = s.ask(
        Request::DefineOwn { base: f, key: Key::Fixed("length"), prop: Property::data(Value::Num(ONE), false, false, true) },
    );
    let name: Value = s.add_text("".to_owned());
    let _ = s.ask(
        Request::DefineOwn { base: f, key: Key::Fixed("name"), prop: Property::data(name, false, false, true) },
    );
    return Ok(f);
}

/// Marks the flag that the two functions of a promise share: whether it was not used before.
pub open spec fn promise_mark_already_step<'a>(flag: Value, w: World<'a>) -> Step<'a, bool>
{
    if !matches!(flag, Value::Obj(_)) {
        (Ok(true), w)
    } else {
        next(
            asks_flag(Request::HasOwn { base: flag, key: Key::Fixed("__called") }, w),
            |used: bool, w: World<'a>|
                if used {
                    (Ok(false), w)
                } else {
                    let w = w.ask(
                        Request::DefineOwn { base: flag, key: Key::Fixed("__called"), prop: Property::of(Value::Bool(true), true, false, true) },
                    ).1;
                    (Ok(true), w)
                },
        )
    }
}

/// Marks the flag that the two functions of a promise share: whether it was not used before.
pub fn promise_mark_already<'h, 'a, H: Host<'a>>(
    s: &mut Session<'h, 'a, H>,
    flag: Value,
) -> (out: Result<bool, Abrupt<'a>>)
    ensures
        final(s).continues(*old(s)),
        forall|answers: Answers<'a>| #[trigger]
            final(s).agrees(answers) ==> old(s).agrees(answers) && (out, final(s).world(answers))
                == promise_mark_already_step(flag, old(s).world(answers)),
{
    if !matches!(flag, Value::Obj(_)) {
        return Ok(true);
    }
    let used: bool = s.flag(Request::HasOwn { base: flag, key: Key::Fixed("__called") })?;
    if used {
        return Ok(false);
    } else {
        let _ = s.ask(
            Request::DefineOwn { base: flag, key: Key::Fixed("__called"), prop: Property::data(Value::Bool(true), true, false, true) },
        );
        return Ok(true);
    }
}

/// What the function that fulfils a promise does when it is called.
pub open spec fn promise_resolve_native_step<'a>(
    promise: Value,
    flag: Value,
    value: Value,
    w: World<'a>,
) -> Step<'a, Value>
{
    next(
        promise_mark_already_step(flag, w),
        |first: bool, w: World<'a>|
            if first {
                next(
                    resolve_promise_step(promise, value, w),
                    |u: (), w: World<'a>| (Ok(Value::Undefined), w),
                )
            } else {
                (Ok(Value::Undefined), w)
            },
    )
}

/// What the function that fulfils a promise does when it is called.
pub fn promise_resolve_native<'h, 'a, H: Host<'a>>(
    s: &mut Session<'h, 'a, H>,
    promise: Value,
    flag: Value,
    value: Value,
) -> (out: Result<Value, Abrupt<'a>>)
    ensures
        final(s).continues(*old(s)),
        forall|answers: Answers<'a>| #[trigger]
            final(s).agrees(answers) ==> old(s).agrees(answers) && (out, final(s).world(answers))
                == promise_resolve_native_step(promise, flag, value, old(s).world(answers)),
{
    let first: bool = promise_mark_already(s, flag)?;
    if first {
        let u: () = resolve_promise(s, promise, value)?;
        return Ok(Value::Undefined);
    } else {
        return Ok(Value::Undefined);
    }
}

/// What the function that rejects a promise does when it is called.
pub open spec fn promise_reject_native_step<'a>(
    promise: Value,
    flag: Value,
    reason: Value,
    w: World<'a>,
) -> Step<'a, Value>
{
    next(
        promise_mark_already_step(flag, w),
        |first: bool, w: World<'a>|
            if first {
                next(
                    reject_promise_step(promise, reason, w),
                    |u: (), w: World<'a>| (Ok(Value::Undefined), w),
                )
            } else {
                (Ok(Value::Undefined), w)
            },
    )
}

/// What the function that rejects a promise does when it is called.
pub fn promise_reject_native<'h, 'a, H: Host<'a>>(
    s: &mut Session<'h, 'a, H>,
    promise: Value,
    flag: Value,
    reason: Value,
) -> (out: Result<Value, Abrupt<'a>>)
    ensures
        final(s).continues(*old(s)),
        forall|answers: Answers<'a>| #[trigger]
            final(s).agrees(answers) ==> old(s).agrees(answers) && (out, final(s).world(answers))
                == promise_reject_native_step(promise, flag, reason, old(s).world(answers)),
{
    let first: bool = promise_mark_already(s, flag)?;
    if first {
        let u: () = reject_promise(s, promise, reason)?;
        return Ok(Value::Undefined);
    } else {
        return Ok(Value::Undefined);
    }
}

/// The functions that settle a promise. Only the first call of either counts.
pub open spec fn make_resolver_pair_step<'a>(
    promise: Value,
    w: World<'a>,
) -> Step<'a, (Value, Value)>
{
    next(
        asks(Request::MakeObject, w),
        |flag: Value, w: World<'a>|
            next(
                make_resolver_with_step(promise, true, flag, w),
                |a: Value, w: World<'a>|
                    next(
                        make_resolver_with_step(promise, false, flag, w),
                        |b: Value, w: World<'a>| (Ok((a, b)), w),
                    ),
            ),
    )
}

/// The functions that settle a promise. Only the first call of either counts.
pub fn make_resolver_pair<'h, 'a, H: Host<'a>>(
    s: &mut Session<'h, 'a, H>,
    promise: Value,
) -> (out: Result<(Value, Value), Abrupt<'a>>)
    ensures
        final(s).continues(*old(s)),
        forall|answers: Answers<'a>| #[trigger]
            final(s).agrees(answers) ==> old(s).agrees(answers) && (out, final(s).world(answers))
                == make_resolver_pair_step(promise, old(s).world(answers)),
{
    let flag: Value = s.value(Request::MakeObject)?;
    let a: Value = make_resolver_with(s, promise, true, flag)?;
    let b: Value = make_resolver_with(s, promise, false, flag)?;
    return Ok((a, b));
}

/// Rejects a promise.
pub open spec fn reject_promise_step<'a>(
    promise: Value,
    reason: Value,
    w: World<'a>,
) -> Step<'a, ()>
{
    next(
        asks(Request::ForwardedPromise(promise), w),
        |p: Value, w: World<'a>|
            match p {
                Value::Obj(h) => {
                    let w = w.settle_promise(h, reason, false);
                    (Ok(()), w)
                },
                _ => (Ok(()), w),
            },
    )
}

/// Rejects a promise.
pub fn reject_promise<'h, 'a, H: Host<'a>>(
    s: &mut Session<'h, 'a, H>,
    promise: Value,
    reason: Value,
) -> (out: Result<(), Abrupt<'a>>)
    ensures
        final(s).continues(*old(s)),
        forall|answers: Answers<'a>| #[trigger]
            final(s).agrees(answers) ==> old(s).agrees(answers) && (out, final(s).world(answers))
                == reject_promise_step(promise, reason, old(s).world(answers)),
{
    let p: Value = s.value(Request::ForwardedPromise(promise))?;
    match p {
        Value::Obj(h) => {
            s.settle_promise(h, reason, false);
            return Ok(());
        },
        _ => {
            return Ok(());
        },
    }
}

/// Resolves a promise that is pending. It takes on the state of an object with a `then` method,
/// which is called in a job of its own; it cannot be resolved with itself.
pub open spec fn resolve_promise_step<'a>(
    promise: Value,
    value: Value,
    w: World<'a>,
) -> Step<'a, ()>
{
    next(
        asks(Request::ForwardedPromise(promise), w),
        |p: Value, w: World<'a>|
            match p {
                Value::Obj(h) => {
                    let status: Option<Status> = w.promise_status(h);
                    if !matches!(status, Some(Status::Pending)) {
                        (Ok(()), w)
                    } else if value == p {
                        next(
                            make_error_step(
                                ErrorKind::TypeError,
                                "Chaining cycle detected for promise",
                                w,
                            ),
                            |e: Value, w: World<'a>| reject_promise_step(p, e, w),
                        )
                    } else if !matches!(value, Value::Obj(_)) {
                        let w = w.settle_promise(h, value, true);
                        (Ok(()), w)
                    } else {
                        let (t, w) = asks(
                            Request::GetMember { base: value, key: Key::Fixed("then") },
                            w,
                        );
                        match t {
                            Ok(method) => {
                                next(
                                    is_callable_step(method, w),
                                    |c: bool, w: World<'a>|
                                        if c {
                                            next(
                                                make_resolver_pair_step(p, w),
                                                |pair: (Value, Value), w: World<'a>|
                                                    next(
                                                        asks(
                                                            Request::MakeThenableJob { method, value, resolve: pair.0, reject: pair.1 },
                                                            w,
                                                        ),
                                                        |runner: Value, w: World<'a>| {
                                                            let w = w.push_job(Job { handler: runner, result: Value::Undefined, value: Value::Undefined, fulfilled: true });
                                                            (Ok(()), w)
                                                        },
                                                    ),
                                            )
                                        } else {
                                            let w = w.settle_promise(h, value, true);
                                            (Ok(()), w)
                                        },
                                )
                            },
                            Err(Abrupt::Throw(e)) => reject_promise_step(p, e, w),
                            Err(_) => {
                                let w = w.settle_promise(h, value, true);
                                (Ok(()), w)
                            },
                        }
                    }
                },
                _ => (Ok(()), w),
            },
    )
}

/// Resolves a promise that is pending. It takes on the state of an object with a `then` method,
/// which is called in a job of its own; it cannot be resolved with itself.
#[verifier::spinoff_prover]
pub fn resolve_promise<'h, 'a, H: Host<'a>>(
    s: &mut Session<'h, 'a, H>,
    promise: Value,
    value: Value,
) -> (out: Result<(), Abrupt<'a>>)
    ensures
        final(s).continues(*old(s)),
        forall|answers: Answers<'a>| #[trigger]
            final(s).agrees(answers) ==> old(s).agrees(answers) && (out, final(s).world(answers))
                == resolve_promise_step(promise, value, old(s).world(answers)),
{
    let p: Value = s.value(Request::ForwardedPromise(promise))?;
    match p {
        Value::Obj(h) => {
            let status: Option<Status> = s.promise_status(h);
            if !matches!(status, Some(Status::Pending)) {
                return Ok(());
            } else if value == p {
                let e: Value = make_error(
                    s,
                    ErrorKind::TypeError,
                    "Chaining cycle detected for promise",
                )?;
                return reject_promise(s, p, e);
            } else if !matches!(value, Value::Obj(_)) {
                s.settle_promise(h, value, true);
                return Ok(());
            } else {
                let t: Completion<'a> = s.value(
                    Request::GetMember { base: value, key: Key::Fixed("then") },
                );
                match t {
                    Ok(method) => {
                        let c: bool = is_callable(s, method)?;
                        if c {
                            let pair: (Value, Value) = make_resolver_pair(s, p)?;
                            let runner: Value = s.value(
                                Request::MakeThenableJob { method, value, resolve: pair.0, reject: pair.1 },
                            )?;
                            s.push_job(Job { handler: runner, result: Value::Undefined, value: Value::Undefined, fulfilled: true });
                            return Ok(());
                        } else {
                            s.settle_promise(h, value, true);
                            return Ok(());
                        }
                    },
                    Err(Abrupt::Throw(e)) => {
                        return reject_promise(s, p, e);
                    },
                    Err(_) => {
                        s.settle_promise(h, value, true);
                        return Ok(());
                    },
                }
            }
        },
        _ => {
            return Ok(());
        },
    }
}

/// The `then` operation: reacts to a promise, and gives the promise of the reaction.
pub open spec fn promise_then_step<'a>(
    promise: Value,
    on_fulfilled: Value,
    on_rejected: Value,
    w: World<'a>,
) -> Step<'a, Value>
{
    next(
        new_promise_step(w),
        |result: Value, w: World<'a>|
            match promise {
                Value::Obj(h) => {
                    let w = w.react(h, Reaction { on_fulfilled, on_rejected, result });
                    (Ok(result), w)
                },
                _ => (Ok(result), w),
            },
    )
}

/// The `then` operation: reacts to a promise, and gives the promise of the reaction.
pub fn promise_then<'h, 'a, H: Host<'a>>(
    s: &mut Session<'h, 'a, H>,
    promise: Value,
    on_fulfilled: Value,
    on_rejected: Value,
) -> (out: Result<Value, Abrupt<'a>>)
    ensures
        final(s).continues(*old(s)),
        forall|answers: Answers<'a>| #[trigger]
            final(s).agrees(answers) ==> old(s).agrees(answers) && (out, final(s).world(answers))
                == promise_then_step(promise, on_fulfilled, on_rejected, old(s).world(answers)),
{
    let result: Value = new_promise(s)?;
    match promise {
        Value::Obj(h) => {
            s.react(h, Reaction { on_fulfilled, on_rejected, result });
            return Ok(result);
        },
        _ => {
            return Ok(result);
        },
    }
}

/// Runs a job: the outcome of its handler settles its result. Without a handler the settlement is
/// handed on.
pub open spec fn run_job_step<'a>(job: Job, w: World<'a>) -> Step<'a, ()>
{
    next(
        is_callable_step(job.handler, w),
        |c: bool, w: World<'a>|
            if c {
                let (r, w) = call_with_step(job.handler, Value::Undefined, job.value, w);
                match r {
                    Ok(v) => resolve_promise_step(job.result, v, w),
                    Err(Abrupt::Throw(e)) => reject_promise_step(job.result, e, w),
                    Err(_) => (Ok(()), w),
                }
            } else if job.fulfilled {
                resolve_promise_step(job.result, job.value, w)
            } else {
                reject_promise_step(job.result, job.value, w)
            },
    )
}

/// Runs a job: the outcome of its handler settles its result. Without a handler the settlement is
/// handed on.
pub fn run_job<'h, 'a, H: Host<'a>>(
    s: &mut Session<'h, 'a, H>,
    job: Job,
) -> (out: Result<(), Abrupt<'a>>)
    ensures
        final(s).continues(*old(s)),
        forall|answers: Answers<'a>| #[trigger]
            final(s).agrees(answers) ==> old(s).agrees(answers) && (out, final(s).world(answers))
                == run_job_step(job, old(s).world(answers)),
{
    let c: bool = is_callable(s, job.handler)?;
    if c {
        let r: Completion<'a> = call_with(s, job.handler, Value::Undefined, job.value);
        match r {
            Ok(v) => {
                return resolve_promise(s, job.result, v);
            },
            Err(Abrupt::Throw(e)) => {
                return reject_promise(s, job.result, e);
            },
            Err(_) => {
                return Ok(());
            },
        }
    } else if job.fulfilled {
        return resolve_promise(s, job.result, job.value);
    } else {
        return reject_promise(s, job.result, job.value);
    }
}

/// Runs jobs until none is left, those included that they queue. With `k` rounds left.
pub open spec fn drain_microtasks_from<'a>(k: nat, w: World<'a>) -> Step<'a, ()>
    decreases k,
{
    if k == 0 {
        (Err(Abrupt::Stopped), w)
    } else {
        let due: Option<Job> = w.first_job();
        match due {
            None => (Ok(()), w),
            Some(job) => {
                let w = w.drop_job();
                next(
                    run_job_step(job, w),
                    |u: (), w: World<'a>| drain_microtasks_from((k - 1) as nat, w),
                )
            },
        }
    }
}

/// Runs jobs until none is left, those included that they queue.
pub open spec fn drain_microtasks_step<'a>(w: World<'a>) -> Step<'a, ()>
{
    drain_microtasks_from(w.limit, w)
}

/// Runs jobs until none is left, those included that they queue.
pub fn drain_microtasks<'h, 'a, H: Host<'a>>(
    s: &mut Session<'h, 'a, H>,
) -> (out: Result<(), Abrupt<'a>>)
    ensures
        final(s).continues(*old(s)),
        forall|answers: Answers<'a>| #[trigger]
            final(s).agrees(answers) ==> old(s).agrees(answers) && (out, final(s).world(answers))
                == drain_microtasks_step(old(s).world(answers)),
{
    let mut k: u64 = s.limit();
    while k > 0
        invariant
            s.continues(*old(s)),
            k <= old(s).rounds(),
            forall|answers: Answers<'a>| #[trigger]
                s.agrees(answers) ==> old(s).agrees(answers)
                    && drain_microtasks_step(old(s).world(answers))
                    == drain_microtasks_from(k as nat, s.world(answers)),
        decreases k,
    {
        let due: Option<Job> = s.first_job();
        match due {
            None => {
                return Ok(());
            },
            Some(job) => {
                s.drop_job();
                let u: () = run_job(s, job)?;
            },
        }
        k = k - 1;
    }
    return Err(Abrupt::Stopped);
}

/// What a promise came to once the jobs have run: a pending one comes to `undefined`.
pub open spec fn awaited_promise_step<'a>(promise: Value, w: World<'a>) -> Step<'a, Value>
{
    next(
        drain_microtasks_step(w),
        |u: (), w: World<'a>|
            match promise {
                Value::Obj(h) => {
                    let status: Option<Status> = w.promise_status(h);
                    match status {
                        Some(Status::Fulfilled(v)) => (Ok(v), w),
                        Some(Status::Rejected(e)) => (Err(Abrupt::Throw(e)), w),
                        _ => (Ok(Value::Undefined), w),
                    }
                },
                _ => (Ok(Value::Undefined), w),
            },
    )
}

/// What a promise came to once the jobs have run: a pending one comes to `undefined`.
pub fn awaited_promise<'h, 'a, H: Host<'a>>(
    s: &mut Session<'h, 'a, H>,
    promise: Value,
) -> (out: Result<Value, Abrupt<'a>>)
    ensures
        final(s).continues(*old(s)),
        forall|answers: Answers<'a>| #[trigger]
            final(s).agrees(answers) ==> old(s).agrees(answers) && (out, final(s).world(answers))
                == awaited_promise_step(promise, old(s).world(answers)),
{
    let u: () = drain_microtasks(s)?;
    match promise {
        Value::Obj(h) => {
            let status: Option<Status> = s.promise_status(h);
            match status {
                Some(Status::Fulfilled(v)) => {
                    return Ok(v);
                },
                Some(Status::Rejected(e)) => {
                    return Err(Abrupt::Throw(e));
                },
                _ => {
                    return Ok(Value::Undefined);
                },
            }
        },
        _ => {
            return Ok(Value::Undefined);
        },
    }
}

/// Waits for a promise where nothing can be suspended.
pub open spec fn await_promise_step<'a>(promise: Value, w: World<'a>) -> Step<'a, Value>
{
    next(
        asks(Request::GetMember { base: promise, key: Key::Fixed("constructor") }, w),
        |c: Value, w: World<'a>| awaited_promise_step(promise, w),
    )
}

/// Waits for a promise where nothing can be suspended.
pub fn await_promise<'h, 'a, H: Host<'a>>(
    s: &mut Session<'h, 'a, H>,
    promise: Value,
) -> (out: Result<Value, Abrupt<'a>>)
    ensures
        final(s).continues(*old(s)),
        forall|answers: Answers<'a>| #[trigger]
            final(s).agrees(answers) ==> old(s).agrees(answers) && (out, final(s).world(answers))
                == await_promise_step(promise, old(s).world(answers)),
{
    let c: Value = s.value(Request::GetMember { base: promise, key: Key::Fixed("constructor") })?;
    return awaited_promise(s, promise);
}

/// Waits for a value where nothing can be suspended: a promise by running jobs, an object with a
/// `then` method through a promise of its own; anything else is what it is.
pub open spec fn await_value_step<'a>(v: Value, w: World<'a>) -> Step<'a, Value>
{
    match v {
        Value::Obj(h) => {
            let status: Option<Status> = w.promise_status(h);
            if status.is_some() {
                await_promise_step(v, w)
            } else {
                next(
                    asks(Request::GetMember { base: v, key: Key::Fixed("then") }, w),
                    |method: Value, w: World<'a>|
                        next(
                            is_callable_step(method, w),
                            |c: bool, w: World<'a>|
                                if !c {
                                    (Ok(v), w)
                                } else {
                                    next(
                                        new_promise_step(w),
                                        |p: Value, w: World<'a>|
                                            next(
                                                make_resolver_pair_step(p, w),
                                                |pair: (Value, Value), w: World<'a>| {
                                                    let args: u64 = w.next_list();
                                                    let w = w.new_list(Seq::empty());
                                                    let w = w.push(args, pair.0);
                                                    let w = w.push(args, pair.1);
                                                    let (r, w) = asks(
                                                        Request::Call { func: method, this: v, args },
                                                        w,
                                                    );
                                                    match r {
                                                        Err(Abrupt::Throw(e)) => {
                                                            next(
                                                                reject_promise_step(p, e, w),
                                                                |u: (), w: World<'a>|
                                                                    await_promise_step(p, w),
                                                            )
                                                        },
                                                        _ => {
                                                            await_promise_step(p, w)
                                                        },
                                                    }
                                                },
                                            ),
                                    )
                                },
                        ),
                )
            }
        },
        _ => (Ok(v), w),
    }
}

/// Waits for a value where nothing can be suspended: a promise by running jobs, an object with a
/// `then` method through a promise of its own; anything else is what it is.
pub fn await_value<'h, 'a, H: Host<'a>>(
    s: &mut Session<'h, 'a, H>,
    v: Value,
) -> (out: Result<Value, Abrupt<'a>>)
    ensures
        final(s).continues(*old(s)),
        forall|answers: Answers<'a>| #[trigger]
            final(s).agrees(answers) ==> old(s).agrees(answers) && (out, final(s).world(answers))
                == await_value_step(v, old(s).world(answers)),
{
    match v {
        Value::Obj(h) => {
            let status: Option<Status> = s.promise_status(h);
            if status.is_some() {
                return await_promise(s, v);
            } else {
                let method: Value = s.value(
                    Request::GetMember { base: v, key: Key::Fixed("then") },
                )?;
                let c: bool = is_callable(s, method)?;
                if !c {
                    return Ok(v);
                } else {
                    let p: Value = new_promise(s)?;
                    let pair: (Value, Value) = make_resolver_pair(s, p)?;
                    let args: u64 = s.new_list(Vec::new());
                    s.push(args, pair.0);
                    s.push(args, pair.1);
                    let r: Completion<'a> = s.value(Request::Call { func: method, this: v, args });
                    match r {
                        Err(Abrupt::Throw(e)) => {
                            let u: () = reject_promise(s, p, e)?;
                            return await_promise(s, p);
                        },
                        _ => {
                            return await_promise(s, p);
                        },
                    }
                }
            }
        },
        _ => {
            return Ok(v);
        },
    }
}

/// Resolves the promises of waits that are over: whether there were any. With `k` rounds left.
pub open spec fn resolve_waits_from<'a>(k: nat, any: bool, w: World<'a>) -> Step<'a, bool>
    decreases k,
{
    if k == 0 {
        (Err(Abrupt::Stopped), w)
    } else {
        next(
            asks_flag(Request::HasReadyWait, w),
            |ready: bool, w: World<'a>|
                if ready {
                    next(
                        asks(Request::TakeWait, w),
                        |p: Value, w: World<'a>|
                            next(
                                asks(Request::TakeWaitResult, w),
                                |v: Value, w: World<'a>|
                                    next(
                                        resolve_promise_step(p, v, w),
                                        |u: (), w: World<'a>|
                                            resolve_waits_from((k - 1) as nat, true, w),
                                    ),
                            ),
                    )
                } else {
                    (Ok(any), w)
                },
        )
    }
}

/// Resolves the promises of waits that are over: whether there were any.
pub open spec fn resolve_waits_step<'a>(w: World<'a>) -> Step<'a, bool>
{
    resolve_waits_from(w.limit, false, w)
}

/// Resolves the promises of waits that are over: whether there were any.
pub fn resolve_waits<'h, 'a, H: Host<'a>>(
    s: &mut Session<'h, 'a, H>,
) -> (out: Result<bool, Abrupt<'a>>)
    ensures
        final(s).continues(*old(s)),
        forall|answers: Answers<'a>| #[trigger]
            final(s).agrees(answers) ==> old(s).agrees(answers) && (out, final(s).world(answers))
                == resolve_waits_step(old(s).world(answers)),
{
    let mut any: bool = false;
    let mut k: u64 = s.limit();
    while k > 0
        invariant
            s.continues(*old(s)),
            k <= old(s).rounds(),
            forall|answers: Answers<'a>| #[trigger]
                s.agrees(answers) ==> old(s).agrees(answers)
                    && resolve_waits_step(old(s).world(answers))
                    == resolve_waits_from(k as nat, any, s.world(answers)),
        decreases k,
    {
        let ready: bool = s.flag(Request::HasReadyWait)?;
        if ready {
            let p: Value = s.value(Request::TakeWait)?;
            let v: Value = s.value(Request::TakeWaitResult)?;
            let u: () = resolve_promise(s, p, v)?;
            any = true;
        } else {
            return Ok(any);
        }
        k = k - 1;
    }
    return Err(Abrupt::Stopped);
}

/// Calls the functions of timers that are due, whatever comes of them: whether there were any. With
/// `k` rounds left.
pub open spec fn fire_timers_from<'a>(list: u64, k: nat, any: bool, w: World<'a>) -> Step<'a, bool>
    decreases k,
{
    if k == 0 {
        (Err(Abrupt::Stopped), w)
    } else {
        let more: bool = w.has_item(list, 0);
        if more {
            let f: Value = w.item(list, 0);
            let w = w.drop_item(list);
            let (r, w) = call_bare_step(f, Value::Undefined, w);
            fire_timers_from(list, (k - 1) as nat, true, w)
        } else {
            (Ok(any), w)
        }
    }
}

/// Calls the functions of timers that are due, whatever comes of them: whether there were any.
pub open spec fn fire_timers_step<'a>(list: u64, w: World<'a>) -> Step<'a, bool>
{
    fire_timers_from(list, w.limit, false, w)
}

/// Calls the functions of timers that are due, whatever comes of them: whether there were any.
pub fn fire_timers<'h, 'a, H: Host<'a>>(
    s: &mut Session<'h, 'a, H>,
    list: u64,
) -> (out: Result<bool, Abrupt<'a>>)
    ensures
        final(s).continues(*old(s)),
        forall|answers: Answers<'a>| #[trigger]
            final(s).agrees(answers) ==> old(s).agrees(answers) && (out, final(s).world(answers))
                == fire_timers_step(list, old(s).world(answers)),
{
    let mut any: bool = false;
    let mut k: u64 = s.limit();
    while k > 0
        invariant
            s.continues(*old(s)),
            k <= old(s).rounds(),
            forall|answers: Answers<'a>| #[trigger]
                s.agrees(answers) ==> old(s).agrees(answers)
                    && fire_timers_step(list, old(s).world(answers))
                    == fire_timers_from(list, k as nat, any, s.world(answers)),
        decreases k,
    {
        let more: bool = s.has_item(list, 0);
        if more {
            let f: Value = s.item(list, 0);
            s.drop_item(list);
            let r: Completion<'a> = call_bare(s, f, Value::Undefined);
            any = true;
        } else {
            return Ok(any);
        }
        k = k - 1;
    }
    return Err(Abrupt::Stopped);
}

/// Runs jobs, and goes on as long as waits and timers are outstanding. Where nothing happens for
/// long, it gives up. With `k` rounds left.
pub open spec fn run_agent_event_loop_from<'a>(
    k: nat,
    idle: u64,
    first: bool,
    w: World<'a>,
) -> Step<'a, ()>
    decreases k,
{
    if k == 0 {
        (Ok(()), w)
    } else {
        next(
            if first {
                drain_microtasks_step(w)
            } else {
                (Ok(()), w)
            },
            |u: (), w: World<'a>|
                next(
                    asks_flag(Request::HasWaits, w),
                    |waits: bool, w: World<'a>|
                        if !waits {
                            (Ok(()), w)
                        } else {
                            next(
                                resolve_waits_step(w),
                                |a: bool, w: World<'a>|
                                    next(
                                        asks_handle(Request::DueTimers, w),
                                        |due: u64, w: World<'a>|
                                            next(
                                                fire_timers_step(due, w),
                                                |b: bool, w: World<'a>|
                                                    if a || b {
                                                        next(
                                                            drain_microtasks_step(w),
                                                            |d: (), w: World<'a>|
                                                                run_agent_event_loop_from(
                                                                    (k - 1) as nat,
                                                                    0,
                                                                    false,
                                                                    w,
                                                                ),
                                                        )
                                                    } else if idle >= 4000 {
                                                        (Ok(()), w)
                                                    } else {
                                                        let w = w.ask(Request::Pause).1;
                                                        run_agent_event_loop_from(
                                                            (k - 1) as nat,
                                                            (idle + 1) as u64,
                                                            false,
                                                            w,
                                                        )
                                                    },
                                            ),
                                    ),
                            )
                        },
                ),
        )
    }
}

/// Runs jobs, and goes on as long as waits and timers are outstanding. Where nothing happens for
/// long, it gives up.
pub open spec fn run_agent_event_loop_step<'a>(w: World<'a>) -> Step<'a, ()>
{
    run_agent_event_loop_from(w.limit, 0, true, w)
}

/// Runs jobs, and goes on as long as waits and timers are outstanding. Where nothing happens for
/// long, it gives up.
pub fn run_agent_event_loop<'h, 'a, H: Host<'a>>(
    s: &mut Session<'h, 'a, H>,
) -> (out: Result<(), Abrupt<'a>>)
    ensures
        final(s).continues(*old(s)),
        forall|answers: Answers<'a>| #[trigger]
            final(s).agrees(answers) ==> old(s).agrees(answers) && (out, final(s).world(answers))
                == run_agent_event_loop_step(old(s).world(answers)),
{
    let mut idle: u64 = 0;
    let mut first: bool = true;
    let mut k: u64 = s.limit();
    while k > 0
        invariant
            s.continues(*old(s)),
            k <= old(s).rounds(),
            forall|answers: Answers<'a>| #[trigger]
                s.agrees(answers) ==> old(s).agrees(answers)
                    && run_agent_event_loop_step(old(s).world(answers))
                    == run_agent_event_loop_from(k as nat, idle, first, s.world(answers)),
        decreases k,
    {
        let u: () = if first {
            drain_microtasks(s)?
        } else {
            ()
        };
        let waits: bool = s.flag(Request::HasWaits)?;
        if !waits {
            return Ok(());
        }
        let a: bool = resolve_waits(s)?;
        let due: u64 = s.handle(Request::DueTimers)?;
        let b: bool = fire_timers(s, due)?;
        if a || b {
            let d: () = drain_microtasks(s)?;
            idle = 0;
            first = false;
        } else if idle >= 4000 {
            return Ok(());
        } else {
            let _ = s.ask(Request::Pause);
            idle = idle + 1;
            first = false;
        }
        k = k - 1;
    }
    return Ok(());
}

/// Waits for a value: a running coroutine is parked until it settles; elsewhere jobs are run.
pub open spec fn coro_await_step<'a>(v: Value, w: World<'a>) -> Step<'a, Value>
{
    next(
        asks_flag(Request::InCoroutine, w),
        |inside: bool, w: World<'a>|
            if inside {
                asks(Request::Await(v), w)
            } else {
                await_value_step(v, w)
            },
    )
}

/// Waits for a value: a running coroutine is parked until it settles; elsewhere jobs are run.
pub fn coro_await<'h, 'a, H: Host<'a>>(
    s: &mut Session<'h, 'a, H>,
    v: Value,
) -> (out: Result<Value, Abrupt<'a>>)
    ensures
        final(s).continues(*old(s)),
        forall|answers: Answers<'a>| #[trigger]
            final(s).agrees(answers) ==> old(s).agrees(answers) && (out, final(s).world(answers))
                == coro_await_step(v, old(s).world(answers)),
{
    let inside: bool = s.flag(Request::InCoroutine)?;
    if inside {
        return s.value(Request::Await(v));
    } else {
        return await_value(s, v);
    }
}

} // verus!
