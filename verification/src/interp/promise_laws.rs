//! What holds of promises and jobs, whatever the host answers.
use vstd::prelude::*;

use crate::interp::operate::call_bare_step;
use crate::interp::promise::{
    await_value_step, awaited_promise_step, coro_await_step, drain_microtasks_from,
    drain_microtasks_step, fire_timers_from, make_resolver_pair_step, new_promise_step,
    promise_reject_native_step, promise_resolve_native_step, promise_then_step,
    reject_promise_step, resolve_promise_step, run_job_step,
};
use crate::interp::session::{Abrupt, Answer, ErrorKind, Key, Request, Value, World};
use crate::jobs::{job_of, jobs_of, place_of, reactions_of, Job, JobsView, Reaction, Status};

verus! {

/// What the host answers to the request that is made as the `k`-th.
pub open spec fn said<'a>(w: World<'a>, k: nat) -> Answer<'a> {
    (w.answers)(k).answer
}

/// Settling a promise that is pending gives it the status that was asked for, and none before it is changed.
proof fn lemma_settled_status(j: JobsView, p: u64, value: Value, fulfilled: bool)
    requires
        j.status(p) == Some(Status::Pending),
    ensures
        j.settled(p, value, fulfilled).status(p) == Some(
            if fulfilled {
                Status::Fulfilled(value)
            } else {
                Status::Rejected(value)
            },
        ),
{
    let i = place_of(j.promises, p, j.promises.len())->0;
    let after = j.settled(p, value, fulfilled).promises;
    lemma_place(j.promises, p, j.promises.len());
    lemma_same_place(j.promises, after, p, j.promises.len());
}

/// A place that was found is that of the promise.
proof fn lemma_place(v: Seq<(u64, Status)>, p: u64, n: nat)
    ensures
        place_of(v, p, n) matches Some(i) ==> i < n <= v.len() && v[i as int].0 == p,
    decreases n,
{
    if n > 0 && n <= v.len() && v[n - 1].0 != p {
        lemma_place(v, p, (n - 1) as nat);
    }
}

/// The places of promises do not depend on how far they have come.
proof fn lemma_same_place(a: Seq<(u64, Status)>, b: Seq<(u64, Status)>, p: u64, n: nat)
    requires
        a.len() == b.len(),
        forall|i: int| 0 <= i < a.len() ==> (#[trigger] a[i]).0 == b[i].0,
    ensures
        place_of(a, p, n) == place_of(b, p, n),
    decreases n,
{
    if n > 0 && n <= a.len() {
        lemma_same_place(a, b, p, (n - 1) as nat);
    }
}

/// A promise that was just made is pending.
pub proof fn new_promises_are_pending<'a>(h: u64, w: World<'a>)
    requires
        said(w, w.asked.len()) == Answer::<'a>::Value(Value::Obj(h)),
    ensures
        new_promise_step(w).0 == Ok::<Value, Abrupt<'a>>(Value::Obj(h)),
        new_promise_step(w).1.jobs.status(h) == Some(Status::Pending),
        new_promise_step(w).1.jobs.queue == w.jobs.queue,
{
}

/// Rejecting a promise that is pending and stands for itself leaves it rejected with the reason.
pub proof fn rejecting_rejects<'a>(h: u64, reason: Value, w: World<'a>)
    requires
        said(w, w.asked.len()) == Answer::<'a>::Value(Value::Obj(h)),
        w.jobs.status(h) == Some(Status::Pending),
    ensures
        reject_promise_step(Value::Obj(h), reason, w).0 is Ok,
        reject_promise_step(Value::Obj(h), reason, w).1.jobs.status(h) == Some(
            Status::Rejected(reason),
        ),
{
    lemma_settled_status(w.jobs, h, reason, false);
}

/// Resolving a promise that is pending and stands for itself with a value that is no object leaves it
/// fulfilled with that value.
pub proof fn resolving_fulfils<'a>(h: u64, value: Value, w: World<'a>)
    requires
        said(w, w.asked.len()) == Answer::<'a>::Value(Value::Obj(h)),
        w.jobs.status(h) == Some(Status::Pending),
        !(value is Obj),
    ensures
        resolve_promise_step(Value::Obj(h), value, w).0 is Ok,
        resolve_promise_step(Value::Obj(h), value, w).1.jobs.status(h) == Some(
            Status::Fulfilled(value),
        ),
{
    lemma_settled_status(w.jobs, h, value, true);
}

/// Resolving a promise with another object reads the object's `then`. Where that cannot be called, the
/// promise is fulfilled with the object itself; where reading it throws, the promise is rejected.
pub proof fn resolving_with_objects<'a>(h: u64, o: u64, w: World<'a>)
    requires
        said(w, w.asked.len()) == Answer::<'a>::Value(Value::Obj(h)),
        w.jobs.status(h) == Some(Status::Pending),
        o != h,
    ensures
        ({
            let n = w.asked.len();
            let (r, after) = resolve_promise_step(Value::Obj(h), Value::Obj(o), w);
            let left = (w.answers)(n + 1).jobs;
            &&& after.asked.len() > n + 1
            &&& after.asked[n as int + 1] == (Request::GetMember {
                base: Value::Obj(o),
                key: Key::Fixed("then"),
            })
            &&& left.status(h) == Some(Status::Pending) ==> match said(w, n + 1) {
                Answer::Value(m) => !(m is Obj) || said(w, n + 2) == Answer::<'a>::Flag(false)
                    ==> after.jobs.status(h) == Some(Status::Fulfilled(Value::Obj(o))),
                Answer::Throw(e) => said(w, n + 2) == Answer::<'a>::Value(Value::Obj(h))
                    ==> after.jobs.status(h) == Some(Status::Rejected(e)),
                _ => true,
            }
        }),
{
    let n = w.asked.len();
    let left = (w.answers)(n + 1).jobs;
    if left.status(h) == Some(Status::Pending) {
        lemma_settled_status(left, h, Value::Obj(o), true);
        if let Answer::Throw(e) = said(w, n + 1) {
            lemma_settled_status(left, h, e, false);
        }
    }
}

/// A promise cannot be resolved with itself: it is rejected with an error that the host makes, a
/// `TypeError`.
pub proof fn resolving_with_itself<'a>(h: u64, e: Value, w: World<'a>)
    requires
        said(w, w.asked.len()) == Answer::<'a>::Value(Value::Obj(h)),
        said(w, w.asked.len() + 1) == Answer::<'a>::Value(e),
        said(w, w.asked.len() + 2) == Answer::<'a>::Value(Value::Obj(h)),
        w.jobs.status(h) == Some(Status::Pending),
    ensures
        ({
            let (r, after) = resolve_promise_step(Value::Obj(h), Value::Obj(h), w);
            &&& after.jobs.status(h) == Some(Status::Rejected(e))
            &&& after.asked[w.asked.len() as int + 1] matches Request::MakeError { kind, .. } && kind
                == ErrorKind::TypeError
        }),
{
    lemma_settled_status(w.jobs, h, e, false);
}

/// A promise that was settled stays as it is: neither resolving nor rejecting it changes a promise or
/// queues a job.
pub proof fn settled_promises_stay<'a>(h: u64, value: Value, w: World<'a>)
    requires
        said(w, w.asked.len()) == Answer::<'a>::Value(Value::Obj(h)),
        w.jobs.status(h) != Some(Status::Pending),
    ensures
        resolve_promise_step(Value::Obj(h), value, w).1.jobs == w.jobs,
        reject_promise_step(Value::Obj(h), value, w).1.jobs == w.jobs,
{
    lemma_place(w.jobs.promises, h, w.jobs.promises.len());
}

/// A job calls its handler once, on no receiver and with the job's value alone. What the handler returns
/// resolves the job's result, and what it throws rejects it.
pub proof fn jobs_settle_their_result<'a>(job: Job, h: u64, w: World<'a>)
    requires
        job.handler is Obj,
        job.result == Value::Obj(h),
        said(w, w.asked.len()) == Answer::<'a>::Flag(true),
        said(w, w.asked.len() + 2) == Answer::<'a>::Value(Value::Obj(h)),
        (w.answers)(w.asked.len() + 1).jobs.status(h) == Some(Status::Pending),
        w.lists.len() < u64::MAX,
    ensures
        ({
            let n = w.asked.len();
            let after = run_job_step(job, w).1;
            &&& after.asked.len() > n + 1
            &&& after.asked[n as int + 1] matches Request::Call { func, this, args } && func
                == job.handler && this == Value::Undefined && after.list(args) == seq![job.value]
            &&& match said(w, n + 1) {
                Answer::Value(v) => !(v is Obj) ==> after.jobs.status(h) == Some(
                    Status::Fulfilled(v),
                ),
                Answer::Throw(e) => after.jobs.status(h) == Some(Status::Rejected(e)),
                _ => true,
            }
        }),
{
    let n = w.asked.len();
    let left = (w.answers)(n + 1).jobs;
    let l = w.next_list();
    let w1 = w.ask(Request::Callable(job.handler)).1.new_list(Seq::empty());
    assert(w1.list(l) =~= Seq::<Value>::empty());
    let w2 = w1.push(l, job.value);
    assert(w2.list(l) =~= seq![job.value]);
    if let Answer::Value(v) = said(w, n + 1) {
        lemma_settled_status(left, h, v, true);
    }
    if let Answer::Throw(e) = said(w, n + 1) {
        lemma_settled_status(left, h, e, false);
    }
}

/// A job without a handler hands its settlement on to its result.
pub proof fn jobs_without_handler_hand_on<'a>(job: Job, h: u64, w: World<'a>)
    requires
        !(job.handler is Obj),
        job.result == Value::Obj(h),
        said(w, w.asked.len()) == Answer::<'a>::Value(Value::Obj(h)),
        w.jobs.status(h) == Some(Status::Pending),
    ensures
        !job.fulfilled ==> run_job_step(job, w).1.jobs.status(h) == Some(
            Status::Rejected(job.value),
        ),
        job.fulfilled && !(job.value is Obj) ==> run_job_step(job, w).1.jobs.status(h) == Some(
            Status::Fulfilled(job.value),
        ),
{
    lemma_settled_status(w.jobs, h, job.value, true);
    lemma_settled_status(w.jobs, h, job.value, false);
}

/// Reacting to a promise: a pending one keeps the reaction behind those that it has, and a settled one
/// makes a job of it at the end of the queue, with the function for how it was settled and with the value
/// that it was settled with. The promise that `then` gives is a new one, and pending.
pub proof fn then_reacts<'a>(h: u64, on_fulfilled: Value, on_rejected: Value, q: u64, w: World<'a>)
    requires
        said(w, w.asked.len()) == Answer::<'a>::Value(Value::Obj(q)),
        q != h,
    ensures
        ({
            let (r, after) = promise_then_step(Value::Obj(h), on_fulfilled, on_rejected, w);
            let result = Value::Obj(q);
            &&& r == Ok::<Value, Abrupt<'a>>(result)
            &&& after.jobs.status(q) == Some(Status::Pending)
            &&& after.jobs.status(h) == w.jobs.status(h)
            &&& match w.jobs.status(h) {
                Some(Status::Pending) => after.jobs.reactions == w.jobs.reactions.push(
                    (h, Reaction { on_fulfilled, on_rejected, result }),
                ) && after.jobs.queue == w.jobs.queue,
                Some(Status::Fulfilled(x)) => after.jobs.queue == w.jobs.queue.push(
                    Job { handler: on_fulfilled, result, value: x, fulfilled: true },
                ) && after.jobs.reactions == w.jobs.reactions,
                Some(Status::Rejected(e)) => after.jobs.queue == w.jobs.queue.push(
                    Job { handler: on_rejected, result, value: e, fulfilled: false },
                ) && after.jobs.reactions == w.jobs.reactions,
                None => after.jobs.queue == w.jobs.queue,
            }
        }),
{
    let v = w.jobs.promises;
    let x = (q, Status::Pending);
    lemma_place_behind(v, h, x, v.len());
    lemma_place(v, h, v.len());
    let made = w.jobs.added(q);
    assert(made.promises == v.push(x));
    assert(place_of(v.push(x), q, v.len() + 1) == Some(v.len()));
    assert(place_of(v.push(x), h, v.len() + 1) == place_of(v, h, v.len()));
    assert(made.status(h) == w.jobs.status(h));
    assert(made.status(q) == Some(Status::Pending));
}

/// A new promise does not change the place of another.
proof fn lemma_place_behind(v: Seq<(u64, Status)>, p: u64, x: (u64, Status), n: nat)
    requires
        n <= v.len(),
    ensures
        place_of(v.push(x), p, n) == place_of(v, p, n),
    decreases n,
{
    if n > 0 {
        assert(v.push(x)[n - 1] == v[n - 1]);
        lemma_place_behind(v, p, x, (n - 1) as nat);
    }
}

/// When a promise is fulfilled, its last reaction becomes the last job: the function for fulfilment is
/// called with the value. When it is rejected, it is the function for rejection with the reason.
pub proof fn reactions_become_jobs(
    j: JobsView,
    h: u64,
    r: Reaction,
    value: Value,
    fulfilled: bool,
)
    requires
        j.status(h) == Some(Status::Pending),
        j.reactions.len() > 0,
        j.reactions.last() == (h, r),
    ensures
        j.settled(h, value, fulfilled).queue.last() == (Job {
            handler: if fulfilled {
                r.on_fulfilled
            } else {
                r.on_rejected
            },
            result: r.result,
            value,
            fulfilled,
        }),
        j.settled(h, value, fulfilled).queue.len() > j.queue.len(),
        j.settled(h, value, fulfilled).queue.take(j.queue.len() as int) == j.queue,
{
    lemma_place(j.promises, h, j.promises.len());
    let due = reactions_of(j.reactions, h, j.reactions.len());
    assert(due.last() == r);
    let more = jobs_of(due, due.len(), value, fulfilled);
    assert(more.len() > 0 && more.last() == job_of(r, value, fulfilled));
    assert((j.queue + more).last() == more.last());
    assert((j.queue + more).take(j.queue.len() as int) =~= j.queue);
}

/// The reactions of one promise become jobs in the order in which they were added.
pub proof fn reactions_keep_their_order(
    j: JobsView,
    h: u64,
    a: Reaction,
    b: Reaction,
    value: Value,
    fulfilled: bool,
)
    requires
        j.status(h) == Some(Status::Pending),
        j.reactions == seq![(h, a), (h, b)],
    ensures
        ({
            let q = j.settled(h, value, fulfilled).queue;
            let n = j.queue.len() as int;
            &&& q.len() == n + 2
            &&& q[n].result == a.result
            &&& q[n + 1].result == b.result
        }),
{
    lemma_place(j.promises, h, j.promises.len());
    reveal_with_fuel(reactions_of, 3);
    reveal_with_fuel(jobs_of, 3);
    assert(j.reactions[0] == (h, a) && j.reactions[1] == (h, b));
    let due = reactions_of(j.reactions, h, 2);
    assert(due =~= seq![a, b]);
    let more = jobs_of(due, 2, value, fulfilled);
    assert(more =~= seq![job_of(a, value, fulfilled), job_of(b, value, fulfilled)]);
}

/// Jobs run first in, first out: running what is due runs the first job before anything else, and then
/// what is left, with what that job has queued behind.
pub proof fn the_first_job_runs_first<'a>(w: World<'a>)
    requires
        w.limit > 0,
        w.jobs.queue.len() > 0,
    ensures
        ({
            let rest = World {
                jobs: JobsView { queue: w.jobs.queue.drop_first(), ..w.jobs },
                ..w
            };
            let (r, after) = run_job_step(w.jobs.queue[0], rest);
            match r {
                Ok(_) => drain_microtasks_step(w) == drain_microtasks_from((w.limit - 1) as nat, after),
                Err(a) => drain_microtasks_step(w) == (Err::<(), Abrupt<'a>>(a), after),
            }
        }),
        w.push_job(w.jobs.queue[0]).jobs.queue[0] == w.jobs.queue[0],
{
    assert(w.jobs.queue.remove(0) =~= w.jobs.queue.drop_first());
}

/// Waiting for a promise that is settled once the jobs have run gives what it was fulfilled with, or throws
/// what it was rejected with.
pub proof fn waiting_gives_the_outcome<'a>(h: u64, w: World<'a>)
    requires
        drain_microtasks_step(w).0 is Ok,
    ensures
        drain_microtasks_step(w).1.jobs.status(h) matches Some(Status::Fulfilled(v))
            ==> awaited_promise_step(Value::Obj(h), w) == (
            Ok::<Value, Abrupt<'a>>(v),
            drain_microtasks_step(w).1,
        ),
        drain_microtasks_step(w).1.jobs.status(h) matches Some(Status::Rejected(e))
            ==> awaited_promise_step(Value::Obj(h), w) == (
            Err::<Value, Abrupt<'a>>(Abrupt::Throw(e)),
            drain_microtasks_step(w).1,
        ),
{
}

/// Waiting for a value that is no object gives that value at once, outside of a coroutine; inside, the
/// running call is parked on that very value.
pub proof fn waiting_for_plain_values<'a>(v: Value, w: World<'a>)
    requires
        !(v is Obj),
    ensures
        await_value_step(v, w) == (Ok::<Value, Abrupt<'a>>(v), w),
        said(w, w.asked.len()) == Answer::<'a>::Flag(false) ==> coro_await_step(v, w).0 == Ok::<
            Value,
            Abrupt<'a>,
        >(v),
        said(w, w.asked.len()) == Answer::<'a>::Flag(true) ==> coro_await_step(v, w).1.asked[w.asked.len() as int
            + 1] == Request::<'a>::Await(v),
        said(w, w.asked.len()) == Answer::<'a>::Flag(true) && (said(w, w.asked.len() + 1)
            matches Answer::Value(x)) ==> coro_await_step(v, w).0 == Ok::<Value, Abrupt<'a>>(
            said(w, w.asked.len() + 1)->Value_0,
        ),
{
}

/// The two functions of a promise: the first one fulfils it and the second rejects it, and they share one
/// flag.
pub proof fn resolvers_come_in_order<'a>(p: Value, flag: Value, f: Value, r: Value, w: World<'a>)
    requires
        said(w, w.asked.len()) == Answer::<'a>::Value(flag),
        said(w, w.asked.len() + 1) == Answer::<'a>::Value(f),
        said(w, w.asked.len() + 4) == Answer::<'a>::Value(r),
    ensures
        ({
            let n = w.asked.len() as int;
            let (pair, after) = make_resolver_pair_step(p, w);
            &&& pair == Ok::<(Value, Value), Abrupt<'a>>((f, r))
            &&& after.asked[n + 1] == (Request::MakeResolver { promise: p, fulfilling: true, flag })
            &&& after.asked[n + 4] == (Request::MakeResolver { promise: p, fulfilling: false, flag })
        }),
{
}

/// The function that fulfils a promise resolves it with its argument, the one that rejects it rejects it
/// with its argument, and neither does anything once the flag was used.
pub proof fn resolvers_settle_once<'a>(h: u64, flag: u64, value: Value, w: World<'a>)
    requires
        w.jobs.status(h) == Some(Status::Pending),
        !(value is Obj),
    ensures
        ({
            let n = w.asked.len();
            let p = Value::Obj(h);
            let unused = said(w, n) == Answer::<'a>::Flag(false) && said(w, n + 2) == Answer::<
                'a,
            >::Value(p);
            let used = said(w, n) == Answer::<'a>::Flag(true);
            let a = promise_resolve_native_step(p, Value::Obj(flag), value, w).1;
            let b = promise_reject_native_step(p, Value::Obj(flag), value, w).1;
            &&& unused ==> a.jobs.status(h) == Some(Status::Fulfilled(value))
            &&& unused ==> b.jobs.status(h) == Some(Status::Rejected(value))
            &&& used ==> a.jobs == w.jobs && b.jobs == w.jobs
        }),
{
    lemma_settled_status(w.jobs, h, value, true);
    lemma_settled_status(w.jobs, h, value, false);
}

/// A timer's function that is due is called on no receiver and with no arguments.
pub proof fn timers_are_called<'a>(list: u64, f: Value, w: World<'a>)
    requires
        w.limit > 0,
        w.lists.len() < u64::MAX,
        w.list(list).len() > 0,
        w.list(list)[0] == f,
    ensures
        ({
            let (r, after) = call_bare_step(f, Value::Undefined, w.drop_item(list));
            fire_timers_from(list, w.limit, false, w) == fire_timers_from(
                list,
                (w.limit - 1) as nat,
                true,
                after,
            )
        }),
{
}

} // verus!
