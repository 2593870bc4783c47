//! What holds of waiting, of generators and of asynchronous iteration, whatever the host answers.
use vstd::prelude::*;

use crate::grammar::Symbol;
use crate::interp::exec::{await_step_step, wrap_sync_value_step};
use crate::interp::operate::{call_bare_step, get_iterator_step};
use crate::interp::promise::{
    await_promise_step, await_value_step, awaited_promise_step, coro_await_step,
    drain_microtasks_step, fire_timers_step, make_resolver_with_step, new_promise_step,
    promise_mark_already_step, promise_then_step, reject_promise_step, resolve_promise_step,
    resolve_waits_from, resolve_waits_step, run_agent_event_loop_from,
};
use crate::interp::promise_laws::said;
use crate::interp::session::{Abrupt, Answer, Completion, Key, Request, Value, WellKnown, World};
use crate::interp::suspend::{
    async_for_await_close_step, async_iterator_step, delegate_async_from, delegate_async_step,
    delegate_from, delegate_step, forward_async_step, forward_step, settle_result_step,
    suspend_delegated_step, yield_delegate_async_step, yield_delegate_step, yield_one_step,
};
use crate::number::ONE;

verus! {

// ---- the functions that settle a promise

/// The flag that the two functions of a promise share is used once: the first use is told from the others,
/// and marks the flag.
pub proof fn flags_are_used_once<'a>(flag: u64, w: World<'a>)
    ensures
        ({
            let n = w.asked.len();
            let base = Value::Obj(flag);
            let (r, after) = promise_mark_already_step(base, w);
            &&& after.asked[n as int] == (Request::HasOwn { base, key: Key::Fixed("__called") })
            &&& said(w, n) == Answer::<'a>::Flag(true) ==> r == Ok::<bool, Abrupt<'a>>(false)
                && after.asked.len() == n + 1
            &&& said(w, n) == Answer::<'a>::Flag(false) ==> after.asked.len() == n + 2 && (
            after.asked.last() matches Request::DefineOwn { base: b, key, prop } && b == base && key
                == Key::Fixed("__called") && prop.value == Value::Bool(true)) && (r matches Ok(first)
                ==> first)
        }),
{
}

/// A function that settles a promise is made for that promise, that way of settling it and that flag; its
/// length is one and its name empty.
pub proof fn resolvers_are_made<'a>(
    promise: Value,
    fulfilling: bool,
    flag: Value,
    f: Value,
    w: World<'a>,
)
    requires
        said(w, w.asked.len()) == Answer::<'a>::Value(f),
        w.texts.len() < u64::MAX,
    ensures
        ({
            let n = w.asked.len();
            let (r, after) = make_resolver_with_step(promise, fulfilling, flag, w);
            &&& after.asked[n as int] == (Request::MakeResolver { promise, fulfilling, flag })
            &&& r matches Ok(v) ==> v == f
            &&& after.asked[n as int + 1] matches Request::DefineOwn { base, key, prop } && base == f && key
                == Key::Fixed("length") && prop.value == Value::Num(ONE)
        }),
{
}

// ---- waiting outside coroutines

/// Waits that are over resolve their promises with what they came to, until there is none left.
pub proof fn waits_resolve_their_promises<'a>(k: nat, any: bool, p: Value, v: Value, w: World<'a>)
    requires
        k > 0,
    ensures
        said(w, w.asked.len()) == Answer::<'a>::Flag(false) ==> resolve_waits_from(k, any, w).0 == Ok::<
            bool,
            Abrupt<'a>,
        >(any),
        said(w, w.asked.len()) == Answer::<'a>::Flag(true) && said(w, w.asked.len() + 1) == Answer::<
            'a,
        >::Value(p) && said(w, w.asked.len() + 2) == Answer::<'a>::Value(v) ==> ({
            let w1 = w.ask(Request::HasReadyWait).1.ask(Request::TakeWait).1.ask(
                Request::TakeWaitResult,
            ).1;
            let (u, w2) = resolve_promise_step(p, v, w1);
            u is Ok ==> resolve_waits_from(k, any, w) == resolve_waits_from((k - 1) as nat, true, w2)
        }),
{
}

/// The event loop runs the jobs, and ends where nothing is outstanding; while waits or timers are, it goes
/// on: behind one that came to something the jobs run again, and else it pauses.
pub proof fn event_loops_go_on<'a>(k: nat, idle: u64, due: u64, w: World<'a>)
    requires
        k > 0,
    ensures
        ({
            let (u, w0) = drain_microtasks_step(w);
            u is Ok && said(w0, w0.asked.len()) == Answer::<'a>::Flag(false) ==> run_agent_event_loop_from(
                k,
                idle,
                true,
                w,
            ) == (Ok::<(), Abrupt<'a>>(()), w0.ask(Request::HasWaits).1)
        }),
        said(w, w.asked.len()) == Answer::<'a>::Flag(false) ==> run_agent_event_loop_from(
            k,
            idle,
            false,
            w,
        ) == (Ok::<(), Abrupt<'a>>(()), w.ask(Request::HasWaits).1),
        said(w, w.asked.len()) == Answer::<'a>::Flag(true) ==> ({
            let (a, w1) = resolve_waits_step(w.ask(Request::HasWaits).1);
            let w2 = w1.ask(Request::DueTimers).1;
            let (b, w3) = fire_timers_step(due, w2);
            a is Ok && said(w1, w1.asked.len()) == Answer::<'a>::Handle(due) && b is Ok ==> ({
                let (d, w4) = drain_microtasks_step(w3);
                let all = run_agent_event_loop_from(k, idle, false, w);
                &&& (a->Ok_0 || b->Ok_0) && d is Ok ==> all == run_agent_event_loop_from(
                    (k - 1) as nat,
                    0,
                    false,
                    w4,
                )
                &&& !(a->Ok_0 || b->Ok_0) && idle < 4000 && !(said(w3, w3.asked.len()) is Throw) && !(
                said(w3, w3.asked.len()) is Return) ==> all == run_agent_event_loop_from(
                    (k - 1) as nat,
                    (idle + 1) as u64,
                    false,
                    w3.ask(Request::Pause).1,
                )
            })
        }),
{
}

/// Waiting in a coroutine parks it with the value; the answer is what the wait came to.
pub proof fn coroutines_are_parked<'a>(v: Value, w: World<'a>)
    ensures
        said(w, w.asked.len()) == Answer::<'a>::Flag(true) ==> ({
            let (r, after) = coro_await_step(v, w);
            &&& after.asked.last() == Request::<'a>::Await(v)
            &&& after.asked.len() == w.asked.len() + 2
            &&& said(w, w.asked.len() + 1) matches Answer::Value(x) ==> r == Ok::<Value, Abrupt<'a>>(x)
            &&& said(w, w.asked.len() + 1) matches Answer::Throw(x) ==> r == Err::<Value, Abrupt<'a>>(
                Abrupt::Throw(x),
            )
        }),
        said(w, w.asked.len()) == Answer::<'a>::Flag(false) ==> coro_await_step(v, w) == await_value_step(
            v,
            w.ask(Request::InCoroutine).1,
        ),
{
}

/// Waiting for a promise reads its constructor and gives what the promise came to.
pub proof fn promises_are_awaited<'a>(p: Value, w: World<'a>)
    ensures
        said(w, w.asked.len()) is Value ==> await_promise_step(p, w) == awaited_promise_step(
            p,
            w.ask(Request::GetMember { base: p, key: Key::Fixed("constructor") }).1,
        ),
{
}

// ---- generators

/// `yield` suspends with the value; what the caller resumes with is its value, an error that the caller
/// throws is thrown, and a `return` returns. An asynchronous generator waits for the value first, and for
/// that of a `return`.
pub proof fn yields_suspend<'a>(v: Value, x: Value, w: World<'a>)
    ensures
        said(w, w.asked.len()) == Answer::<'a>::Flag(false) ==> ({
            let (r, after) = yield_one_step(v, w);
            &&& after.asked.last() == Request::<'a>::Suspend(v)
            &&& after.asked.len() == w.asked.len() + 2
            &&& match said(w, w.asked.len() + 1) {
                Answer::Value(y) => r == Ok::<Value, Abrupt<'a>>(y),
                Answer::Throw(e) => r == Err::<Value, Abrupt<'a>>(Abrupt::Throw(e)),
                Answer::Return(y) => r == Err::<Value, Abrupt<'a>>(Abrupt::Return(y)),
                _ => true,
            }
        }),
        said(w, w.asked.len()) == Answer::<'a>::Flag(true) && said(w, w.asked.len() + 1) == Answer::<
            'a,
        >::Value(x) ==> ({
            let n = w.asked.len() as int;
            let (r, after) = yield_one_step(v, w);
            &&& after.asked[n + 1] == Request::<'a>::Await(v)
            &&& after.asked[n + 2] == Request::<'a>::Suspend(x)
            &&& match said(w, w.asked.len() + 2) {
                Answer::Value(y) => r == Ok::<Value, Abrupt<'a>>(y),
                Answer::Throw(e) => r == Err::<Value, Abrupt<'a>>(Abrupt::Throw(e)),
                Answer::Return(y) => after.asked[n + 3] == Request::<'a>::Await(y) && match said(
                    w,
                    w.asked.len() + 3,
                ) {
                    Answer::Value(z) => r == Err::<Value, Abrupt<'a>>(Abrupt::Return(z)),
                    Answer::Throw(e) => r == Err::<Value, Abrupt<'a>>(Abrupt::Throw(e)),
                    _ => true,
                },
                _ => true,
            }
        }),
{
}

/// A resumption is handed on to the iterator of a `yield*`: a value to its `next`, an error to its `throw` and
/// a return to its `return`, each called on the iterator with that value.
pub proof fn resumptions_are_handed_on<'a>(iter: u64, method: Value, v: Value, f: u64, w: World<'a>)
    requires
        w.lists.len() < u64::MAX,
    ensures
        ({
            let n = w.asked.len();
            let base = Value::Obj(iter);
            let (r, after) = forward_step(base, method, Ok(v), w);
            &&& after.asked.len() == n + 1
            &&& after.asked.last() matches Request::Call { func, this, args } && func == method && this
                == base && after.list(args) =~= seq![v]
            &&& said(w, n) matches Answer::Value(x) ==> r == Ok::<(Value, bool), Abrupt<'a>>((x, false))
        }),
        ({
            let n = w.asked.len();
            let base = Value::Obj(iter);
            let (r, after) = forward_step(base, method, Err(Abrupt::Throw(v)), w);
            said(w, n) == Answer::<'a>::Value(Value::Obj(f)) && said(w, n + 1) == Answer::<'a>::Flag(true)
                ==> {
                &&& after.asked[n as int] == (Request::GetMember { base, key: Key::Fixed("throw") })
                &&& after.asked.last() matches Request::Call { func, this, args } && func == Value::Obj(f)
                    && this == base && after.list(args) =~= seq![v]
                &&& said(w, n + 2) matches Answer::Value(x) ==> r == Ok::<(Value, bool), Abrupt<'a>>(
                    (x, false),
                )
            }
        }),
        ({
            let n = w.asked.len();
            let base = Value::Obj(iter);
            let (r, after) = forward_step(base, method, Err(Abrupt::Return(v)), w);
            &&& said(w, n) == Answer::<'a>::Value(Value::Undefined) ==> r == Err::<
                (Value, bool),
                Abrupt<'a>,
            >(Abrupt::Return(v))
            &&& said(w, n) == Answer::<'a>::Value(Value::Obj(f)) && said(w, n + 1) == Answer::<'a>::Flag(
                true,
            ) ==> {
                &&& after.asked[n as int] == (Request::GetMember { base, key: Key::Fixed("return") })
                &&& after.asked.last() matches Request::Call { func, this, args } && func == Value::Obj(f)
                    && this == base && after.list(args) =~= seq![v]
                &&& said(w, n + 2) matches Answer::Value(x) ==> r == Ok::<(Value, bool), Abrupt<'a>>(
                    (x, true),
                )
            }
        }),
{
}

/// An asynchronous delegation hands resumptions on in the same way; without a `return` method the value of a
/// return is waited for and returned.
pub proof fn resumptions_are_handed_on_async<'a>(
    iter: u64,
    method: Value,
    v: Value,
    f: u64,
    w: World<'a>,
)
    requires
        w.lists.len() < u64::MAX,
    ensures
        ({
            let base = Value::Obj(iter);
            let (r, after) = forward_async_step(base, method, Ok(v), w);
            &&& after.asked.last() matches Request::Call { func, this, args } && func == method && this
                == base && after.list(args) =~= seq![v]
            &&& said(w, w.asked.len()) matches Answer::Value(x) ==> r == Ok::<(Value, bool), Abrupt<'a>>(
                (x, false),
            )
        }),
        ({
            let n = w.asked.len();
            let base = Value::Obj(iter);
            let (r, after) = forward_async_step(base, method, Err(Abrupt::Throw(v)), w);
            said(w, n) == Answer::<'a>::Value(Value::Obj(f)) && said(w, n + 1) == Answer::<'a>::Flag(true)
                ==> {
                &&& after.asked[n as int] == (Request::GetMember { base, key: Key::Fixed("throw") })
                &&& after.asked.last() matches Request::Call { func, this, args } && func == Value::Obj(f)
                    && this == base && after.list(args) =~= seq![v]
                &&& said(w, n + 2) matches Answer::Value(x) ==> r == Ok::<(Value, bool), Abrupt<'a>>(
                    (x, false),
                )
            }
        }),
        ({
            let n = w.asked.len();
            let base = Value::Obj(iter);
            let (r, after) = forward_async_step(base, method, Err(Abrupt::Return(v)), w);
            let w1 = w.ask(Request::GetMember { base, key: Key::Fixed("return") }).1;
            &&& said(w, n) == Answer::<'a>::Value(Value::Undefined) ==> ({
                let (x, w2) = coro_await_step(v, w1);
                x matches Ok(y) ==> r == Err::<(Value, bool), Abrupt<'a>>(Abrupt::Return(y))
            })
            &&& said(w, n) == Answer::<'a>::Value(Value::Obj(f)) && said(w, n + 1) == Answer::<'a>::Flag(
                true,
            ) ==> {
                &&& after.asked.last() matches Request::Call { func, this, args } && func == Value::Obj(f)
                    && this == base && after.list(args) =~= seq![v]
                &&& said(w, n + 2) matches Answer::Value(x) ==> r == Ok::<(Value, bool), Abrupt<'a>>(
                    (x, true),
                )
            }
        }),
{
}

/// A delegation goes on until the iterator is done: a result that is not the last goes to the caller as it is,
/// and what the caller resumes with is handed on next; the value of the last one is the value, or is returned
/// where a return was handed on.
pub proof fn delegations_go_on<'a>(
    iter: Value,
    method: Value,
    received: Completion<'a>,
    k: nat,
    o: u64,
    handed: bool,
    v: Value,
    w: World<'a>,
)
    requires
        k > 0,
        forward_step(iter, method, received, w).0 == Ok::<(Value, bool), Abrupt<'a>>(
            (Value::Obj(o), handed),
        ),
    ensures
        ({
            let w1 = forward_step(iter, method, received, w).1;
            let n = w1.asked.len();
            let w2 = w1.ask(Request::GetMember { base: Value::Obj(o), key: Key::Fixed("done") }).1;
            let (r, after) = delegate_from(iter, method, k, received, w);
            &&& said(w1, n) == Answer::<'a>::Value(Value::Bool(true)) && said(w1, n + 1) == Answer::<
                'a,
            >::Value(v) ==> {
                &&& after.asked.last() == (Request::GetMember {
                    base: Value::Obj(o),
                    key: Key::Fixed("value"),
                })
                &&& !handed ==> r == Ok::<Value, Abrupt<'a>>(v)
                &&& handed ==> r == Err::<Value, Abrupt<'a>>(Abrupt::Return(v))
            }
            &&& said(w1, n) == Answer::<'a>::Value(Value::Bool(false)) ==> ({
                let w3 = w2.ask(Request::SuspendRaw(Value::Obj(o))).1;
                &&& said(w1, n + 1) matches Answer::Value(x) ==> (r, after) == delegate_from(
                    iter,
                    method,
                    (k - 1) as nat,
                    Ok(x),
                    w3,
                )
                &&& said(w1, n + 1) matches Answer::Throw(e) ==> (r, after) == delegate_from(
                    iter,
                    method,
                    (k - 1) as nat,
                    Err(Abrupt::Throw(e)),
                    w3,
                )
                &&& said(w1, n + 1) matches Answer::Return(x) ==> (r, after) == delegate_from(
                    iter,
                    method,
                    (k - 1) as nat,
                    Err(Abrupt::Return(x)),
                    w3,
                )
            })
        }),
{
}

/// `yield*` delegates to the iterator of its operand.
pub proof fn delegations_iterate_their_operand<'a>(v: Value, w: World<'a>)
    ensures
        ({
            let (it, w1) = get_iterator_step(v, w);
            it matches Ok(pair) ==> yield_delegate_step(v, w) == delegate_step(pair.0, pair.1, w1)
        }),
        ({
            let (it, w1) = async_iterator_step(v, w);
            it matches Ok(found) ==> {
                &&& found.2 ==> yield_delegate_async_step(v, w) == delegate_async_step(
                    found.0,
                    found.1,
                    true,
                    w1,
                )
                &&& !found.2 ==> (said(w1, w1.asked.len()) matches Answer::Value(m)
                    ==> yield_delegate_async_step(v, w) == delegate_async_step(
                    found.0,
                    m,
                    false,
                    w1.ask(Request::GetMember { base: found.0, key: Key::Fixed("next") }).1,
                ))
            }
        }),
{
}

/// An asynchronous delegation waits for every result: the value of the last one is the value, or is returned
/// where a return was handed on, and any other goes to the caller.
pub proof fn async_delegations_go_on<'a>(
    iter: Value,
    method: Value,
    from_sync: bool,
    received: Completion<'a>,
    k: nat,
    got: (Value, bool),
    step: (bool, Value),
    w: World<'a>,
)
    requires
        k > 0,
        forward_async_step(iter, method, received, w).0 == Ok::<(Value, bool), Abrupt<'a>>(got),
        ({
            let w1 = forward_async_step(iter, method, received, w).1;
            settle_result_step(iter, from_sync, got.0, w1).0 == Ok::<(bool, Value), Abrupt<'a>>(step)
        }),
    ensures
        ({
            let w1 = forward_async_step(iter, method, received, w).1;
            let w2 = settle_result_step(iter, from_sync, got.0, w1).1;
            let all = delegate_async_from(iter, method, from_sync, k, received, w);
            &&& step.0 && !got.1 ==> all == (Ok::<Value, Abrupt<'a>>(step.1), w2)
            &&& step.0 && got.1 ==> all == (Err::<Value, Abrupt<'a>>(Abrupt::Return(step.1)), w2)
            &&& !step.0 ==> ({
                let (r, w3) = suspend_delegated_step(step.1, w2);
                all == delegate_async_from(iter, method, from_sync, (k - 1) as nat, r, w3)
            })
        }),
{
}

/// A delegated value suspends; what the caller resumes with comes out, and the value of a return is waited
/// for first.
pub proof fn delegated_values_suspend<'a>(v: Value, w: World<'a>)
    ensures
        ({
            let n = w.asked.len();
            let (r, after) = suspend_delegated_step(v, w);
            &&& after.asked[n as int] == Request::<'a>::Suspend(v)
            &&& match said(w, n) {
                Answer::Value(x) => r == Ok::<Value, Abrupt<'a>>(x),
                Answer::Throw(e) => r == Err::<Value, Abrupt<'a>>(Abrupt::Throw(e)),
                Answer::Return(x) => after.asked.last() == Request::<'a>::Await(x) && match said(
                    w,
                    n + 1,
                ) {
                    Answer::Value(y) => r == Err::<Value, Abrupt<'a>>(Abrupt::Return(y)),
                    Answer::Throw(e) => r == Err::<Value, Abrupt<'a>>(Abrupt::Throw(e)),
                    _ => true,
                },
                _ => true,
            }
        }),
{
}

/// The result of an iterator is waited for and taken apart: whether it is the last, and its value. The value
/// of a synchronous iterator is waited for too.
pub proof fn results_are_taken_apart<'a>(
    iter: Value,
    result: Value,
    o: u64,
    done: bool,
    v: Value,
    w: World<'a>,
)
    requires
        coro_await_step(result, w).0 == Ok::<Value, Abrupt<'a>>(Value::Obj(o)),
        ({
            let w1 = coro_await_step(result, w).1;
            &&& said(w1, w1.asked.len()) == Answer::<'a>::Value(Value::Bool(done))
            &&& said(w1, w1.asked.len() + 1) == Answer::<'a>::Value(v)
        }),
    ensures
        ({
            let w1 = coro_await_step(result, w).1;
            let w2 = w1.ask(Request::GetMember { base: Value::Obj(o), key: Key::Fixed("done") }).1;
            let w3 = w2.ask(Request::GetMember { base: Value::Obj(o), key: Key::Fixed("value") }).1;
            let (x, w4) = coro_await_step(v, w3);
            &&& settle_result_step(iter, false, result, w) == (
                Ok::<(bool, Value), Abrupt<'a>>((done, v)),
                w3,
            )
            &&& x matches Ok(y) ==> settle_result_step(iter, true, result, w) == (
                Ok::<(bool, Value), Abrupt<'a>>((done, y)),
                w4,
            )
            &&& x matches Err(a) ==> settle_result_step(iter, true, result, w).0 == Err::<
                (bool, Value),
                Abrupt<'a>,
            >(a)
        }),
{
}

/// An asynchronous iteration takes the value's asynchronous iterator; without one it takes the synchronous
/// iterator, and says so.
pub proof fn async_iterators_are_made<'a>(v: Value, key: u64, f: u64, o: u64, w: World<'a>)
    requires
        said(w, w.asked.len()) == Answer::<'a>::Handle(key),
        w.lists.len() < u64::MAX,
    ensures
        ({
            let n = w.asked.len();
            let (r, after) = async_iterator_step(v, w);
            let w2 = w.ask(Request::WellKnownKey(WellKnown::AsyncIterator)).1.ask(
                Request::GetMember { base: v, key: Key::Symbol(key) },
            ).1;
            &&& said(w, n + 1) == Answer::<'a>::Value(Value::Obj(f)) && said(w, n + 2) == Answer::<
                'a,
            >::Flag(true) && said(w, n + 3) == Answer::<'a>::Value(Value::Obj(o)) ==> {
                &&& after.asked.last() matches Request::Call { func, this, .. } && func == Value::Obj(f)
                    && this == v
                &&& r == Ok::<(Value, Value, bool), Abrupt<'a>>((Value::Obj(o), Value::Undefined, false))
            }
            &&& said(w, n + 1) == Answer::<'a>::Value(Value::Undefined) ==> ({
                let (it, w3) = get_iterator_step(v, w2);
                it matches Ok(pair) ==> r == Ok::<(Value, Value, bool), Abrupt<'a>>(
                    (pair.0, pair.1, true),
                )
            })
        }),
{
}

/// The next element of an asynchronous iteration: what `next` gives is waited for, and where it is not done
/// its value is the element.
pub proof fn async_elements_are_taken<'a>(
    iter: Value,
    method: Value,
    made: Value,
    o: u64,
    done: bool,
    v: Value,
    w: World<'a>,
)
    requires
        call_bare_step(method, iter, w).0 == Ok::<Value, Abrupt<'a>>(made),
        ({
            let w1 = call_bare_step(method, iter, w).1;
            let (r, w2) = coro_await_step(made, w1);
            &&& r == Ok::<Value, Abrupt<'a>>(Value::Obj(o))
            &&& said(w2, w2.asked.len()) == Answer::<'a>::Value(Value::Bool(done))
            &&& said(w2, w2.asked.len() + 1) == Answer::<'a>::Value(v)
        }),
    ensures
        ({
            let (r, after) = await_step_step(iter, method, false, w);
            &&& done ==> r == Ok::<Option<Value>, Abrupt<'a>>(None)
            &&& !done ==> r == Ok::<Option<Value>, Abrupt<'a>>(Some(v)) && after.asked.last() == (
            Request::GetMember { base: Value::Obj(o), key: Key::Fixed("value") })
        }),
{
}

/// The element of a synchronous iterator is what its value comes to when it is waited for as a promise.
pub proof fn sync_elements_are_awaited<'a>(
    iter: Value,
    method: Value,
    o: u64,
    done: bool,
    raw: Value,
    wrapped: Value,
    w: World<'a>,
)
    requires
        call_bare_step(method, iter, w).0 == Ok::<Value, Abrupt<'a>>(Value::Obj(o)),
        ({
            let w1 = call_bare_step(method, iter, w).1;
            let w2 = w1.ask(Request::GetMember { base: Value::Obj(o), key: Key::Fixed("done") }).1;
            let w3 = w2.ask(Request::GetMember { base: Value::Obj(o), key: Key::Fixed("value") }).1;
            &&& said(w1, w1.asked.len()) == Answer::<'a>::Value(Value::Bool(done))
            &&& said(w1, w1.asked.len() + 1) == Answer::<'a>::Value(raw)
            &&& wrap_sync_value_step(raw, w3).0 == Ok::<Value, Abrupt<'a>>(wrapped)
        }),
    ensures
        ({
            let w1 = call_bare_step(method, iter, w).1;
            let w2 = w1.ask(Request::GetMember { base: Value::Obj(o), key: Key::Fixed("done") }).1;
            let w3 = w2.ask(Request::GetMember { base: Value::Obj(o), key: Key::Fixed("value") }).1;
            let w4 = wrap_sync_value_step(raw, w3).1;
            let x = coro_await_step(wrapped, w4).0;
            let r = await_step_step(iter, method, true, w).0;
            &&& x matches Ok(v) ==> r == Ok::<Option<Value>, Abrupt<'a>>(
                if done {
                    None
                } else {
                    Some(v)
                },
            )
            &&& x matches Err(a) ==> r == Err::<Option<Value>, Abrupt<'a>>(a)
        }),
{
}

/// A value that is waited for as a promise: the host resolves it, and a promise that reacts to that comes of
/// it; where resolving throws, a promise that is rejected does.
pub proof fn sync_values_become_promises<'a>(raw: Value, w: World<'a>)
    ensures
        ({
            let w1 = w.ask(Request::PromiseResolve(raw)).1;
            let all = wrap_sync_value_step(raw, w);
            match said(w, w.asked.len()) {
                Answer::Value(p) => all == promise_then_step(p, Value::Undefined, Value::Undefined, w1),
                Answer::Throw(e) => ({
                    let (p, w2) = new_promise_step(w1);
                    p matches Ok(x) ==> ({
                        let (u, w3) = reject_promise_step(x, e, w2);
                        u is Ok ==> all == (Ok::<Value, Abrupt<'a>>(x), w3)
                    })
                }),
                _ => true,
            }
        }),
{
}

/// Closing an asynchronous iteration calls `return` on the iterator and waits for what it gives; without one
/// nothing is done.
pub proof fn async_iterations_are_closed<'a>(
    iter: Value,
    from_sync: bool,
    f: u64,
    made: Value,
    w: World<'a>,
)
    requires
        w.lists.len() < u64::MAX,
    ensures
        said(w, w.asked.len()) == Answer::<'a>::Value(Value::Undefined) ==> async_for_await_close_step(
            iter,
            from_sync,
            w,
        ) == (
            Ok::<(), Abrupt<'a>>(()),
            w.ask(Request::GetMember { base: iter, key: Key::Fixed("return") }).1,
        ),
        said(w, w.asked.len()) == Answer::<'a>::Value(Value::Obj(f)) && said(w, w.asked.len() + 1)
            == Answer::<'a>::Flag(true) && said(w, w.asked.len() + 2) == Answer::<'a>::Value(made) ==> ({
            let w2 = w.ask(Request::GetMember { base: iter, key: Key::Fixed("return") }).1.ask(
                Request::Callable(Value::Obj(f)),
            ).1;
            let w3 = w2.new_list(Seq::empty()).ask(
                Request::Call { func: Value::Obj(f), this: iter, args: w2.next_list() },
            ).1;
            let (x, w4) = await_value_step(made, w3);
            &&& !from_sync ==> match x {
                Ok(Value::Obj(o)) => async_for_await_close_step(iter, false, w) == (
                    Ok::<(), Abrupt<'a>>(()),
                    w4,
                ),
                Ok(_) => !(async_for_await_close_step(iter, false, w).0 is Ok),
                Err(a) => async_for_await_close_step(iter, false, w) == (
                    Err::<(), Abrupt<'a>>(a),
                    w4,
                ),
            }
        }),
{
}

} // verus!
