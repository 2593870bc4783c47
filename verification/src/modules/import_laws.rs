//! What holds of imports and of the outcome of evaluating modules, whatever the host answers.
use vstd::prelude::*;

use crate::interp::exec::run_stmt_list_step;
use crate::interp::object::{get_var_step, get_var_with_from};
use crate::interp::program::Loaded;
use crate::interp::promise::{new_promise_step, reject_promise_step};
use crate::interp::promise_laws::{
    new_promises_are_pending, reactions_become_jobs, rejecting_rejects, resolving_fulfils,
    resolving_with_objects, said, then_reacts,
};
use crate::interp::session::{Abrupt, Answer, Env, ErrorKind, Name, Request, Value, World};
use crate::jobs::{JobsView, Reaction, Status};
use crate::modules::evaluate::{
    async_module_rejected_step, dynamic_import_fulfil_step, dynamic_import_reject_step,
    dynamic_import_step, evaluate_deps_from, evaluate_import_step, evaluate_module_dynamic_step,
    evaluate_module_step, finish_plain_step, link_import_step, make_deferred_ns_step,
    reject_all_from, reject_all_step,
};
use crate::modules::instantiate::{bind_links_from, bind_links_step, link_modules_step};
use crate::modules::link::Bound;
use crate::modules::progress::{ModState, PlanModule, ProgressView};
use crate::modules::register::{load_text, LoadError};
use crate::scope::{Scope, Stop};

verus! {

/// An import whose module was loaded and linked is settled as the module's evaluation is. The host makes
/// two functions for the import's promise, one that resolves it with the namespace of the module and one
/// that rejects it. When the promise of the evaluation is fulfilled, the one that resolves is called, and
/// when it is rejected, the one that rejects, with the reason: at once as a job where it is settled, and
/// else as the last of its reactions.
pub proof fn imports_settle_as_their_module<'a>(
    plan: &'a Vec<PlanModule>,
    m: usize,
    promise: Value,
    top: u64,
    namespace: Value,
    resolves: Value,
    rejects: Value,
    q: u64,
    depth: u64,
    w: World<'a>,
)
    requires
        evaluate_module_dynamic_step(plan, m, depth, w).0 == Ok::<Value, Abrupt<'a>>(
            Value::Obj(top),
        ),
        q != top,
        ({
            let w1 = evaluate_module_dynamic_step(plan, m, depth, w).1;
            let k = w1.asked.len();
            &&& said(w1, k) == Answer::<'a>::Value(namespace)
            &&& said(w1, k + 1) == Answer::<'a>::Value(resolves)
            &&& said(w1, k + 2) == Answer::<'a>::Value(rejects)
            &&& said(w1, k + 3) == Answer::<'a>::Value(Value::Obj(q))
        }),
    ensures
        ({
            let w1 = evaluate_module_dynamic_step(plan, m, depth, w).1;
            let k = w1.asked.len() as int;
            let (r, after) = evaluate_import_step(plan, m, promise, false, depth, w);
            &&& r == Ok::<Value, Abrupt<'a>>(promise)
            &&& after.asked[k] == (Request::Namespace { module: m as u64 })
            &&& after.asked[k + 1] == (Request::ImportHandler { promise, namespace: Some(namespace) })
            &&& after.asked[k + 2] == (Request::ImportHandler { promise, namespace: None })
            &&& match w1.jobs.status(top) {
                Some(Status::Pending) => {
                    let reaction = after.jobs.reactions.last();
                    &&& after.jobs.reactions.len() > 0
                    &&& reaction.0 == top
                    &&& reaction.1.on_fulfilled == resolves
                    &&& reaction.1.on_rejected == rejects
                },
                Some(Status::Fulfilled(v)) => {
                    let job = after.jobs.queue.last();
                    &&& after.jobs.queue.len() == w1.jobs.queue.len() + 1
                    &&& job.handler == resolves
                    &&& job.value == v
                },
                Some(Status::Rejected(e)) => {
                    let job = after.jobs.queue.last();
                    &&& after.jobs.queue.len() == w1.jobs.queue.len() + 1
                    &&& job.handler == rejects
                    &&& job.value == e
                },
                None => true,
            }
        }),
{
    let w1 = evaluate_module_dynamic_step(plan, m, depth, w).1;
    let w2 = w1.ask(Request::Namespace { module: m as u64 }).1;
    let w3 = w2.ask(Request::ImportHandler { promise, namespace: Some(namespace) }).1;
    let w4 = w3.ask(Request::ImportHandler { promise, namespace: None }).1;
    then_reacts(top, resolves, rejects, q, w4);
}

/// Once the promise of a module's evaluation, which an import waits for, is settled, the job that comes of
/// it calls the function for how it was settled. Calling the one that resolves fulfils the import's
/// promise with the namespace, and calling the one that rejects rejects it with the reason.
pub proof fn settled_modules_settle_imports<'a>(
    j: JobsView,
    top: u64,
    resolves: Value,
    rejects: Value,
    result: Value,
    value: Value,
    fulfilled: bool,
)
    requires
        j.status(top) == Some(Status::Pending),
        j.reactions.len() > 0,
        j.reactions.last() == (
            top,
            Reaction { on_fulfilled: resolves, on_rejected: rejects, result },
        ),
    ensures
        ({
            let job = j.settled(top, value, fulfilled).queue.last();
            &&& job.value == value
            &&& fulfilled ==> job.handler == resolves
            &&& !fulfilled ==> job.handler == rejects
        }),
{
    reactions_become_jobs(
        j,
        top,
        Reaction { on_fulfilled: resolves, on_rejected: rejects, result },
        value,
        fulfilled,
    );
}

/// The functions that settle an import: the one fulfils the import's promise with the namespace, whose
/// `then` cannot be called, and the other rejects it with the reason.
pub proof fn import_handlers_settle<'a>(h: u64, ns: u64, reason: Value, w: World<'a>)
    requires
        h != ns,
        w.jobs.status(h) == Some(Status::Pending),
        said(w, w.asked.len()) == Answer::<'a>::Value(Value::Obj(h)),
    ensures
        ({
            let n = w.asked.len();
            let plain = said(w, n + 1) == Answer::<'a>::Value(Value::Undefined) && (w.answers)(
                n + 1,
            ).jobs.status(h) == Some(Status::Pending);
            plain ==> dynamic_import_fulfil_step(Value::Obj(h), Value::Obj(ns), w).1.jobs.status(h)
                == Some(Status::Fulfilled(Value::Obj(ns)))
        }),
        dynamic_import_reject_step(Value::Obj(h), reason, w).1.jobs.status(h) == Some(
            Status::Rejected(reason),
        ),
{
    resolving_with_objects(h, ns, w);
    rejecting_rejects(h, reason, w);
}

/// An import that could not be loaded gives a promise that is rejected with the reason.
pub proof fn failed_loads_reject<'a>(reason: Value, defer: bool, h: u64, depth: u64, w: World<'a>)
    requires
        said(w, w.asked.len()) == Answer::<'a>::Value(Value::Obj(h)),
        said(w, w.asked.len() + 1) == Answer::<'a>::Value(Value::Obj(h)),
    ensures
        ({
            let (r, after) = dynamic_import_step(Err(Abrupt::Throw(reason)), defer, depth, w);
            &&& r == Ok::<Value, Abrupt<'a>>(Value::Obj(h))
            &&& after.jobs.status(h) == Some(Status::Rejected(reason))
        }),
{
    new_promises_are_pending(h, w);
    rejecting_rejects(h, reason, new_promise_step(w).1);
}

/// A module that could not be loaded is a `TypeError` with the message of the load error, which the import's
/// promise is rejected with.
pub proof fn load_errors_reject<'a>(
    loaded: &'a Result<Loaded, LoadError>,
    defer: bool,
    h: u64,
    error: Value,
    depth: u64,
    w: World<'a>,
)
    requires
        loaded is Err,
        w.texts.len() < u64::MAX,
        said(w, w.asked.len()) == Answer::<'a>::Value(Value::Obj(h)),
        said(w, w.asked.len() + 1) == Answer::<'a>::Value(error),
        said(w, w.asked.len() + 2) == Answer::<'a>::Value(Value::Obj(h)),
    ensures
        ({
            let n = w.asked.len() as int;
            let (r, after) = dynamic_import_step(Ok(Some(loaded)), defer, depth, w);
            &&& r == Ok::<Value, Abrupt<'a>>(Value::Obj(h))
            &&& after.jobs.status(h) == Some(Status::Rejected(error))
            &&& after.asked[n + 1] matches Request::MakeError { kind, message } && kind
                == ErrorKind::TypeError && after.chars(message) == load_text(loaded->Err_0@)
        }),
{
    new_promises_are_pending(h, w);
    let w1 = new_promise_step(w).1;
    let w2 = w1.add_text(load_text(loaded->Err_0@));
    let w3 = w2.ask(Request::MakeError { kind: ErrorKind::TypeError, message: w1.next_text() }).1;
    rejecting_rejects(h, error, w3);
}

/// Evaluating an imported module again gives the promise that it has. Where its evaluation has failed
/// before and it has none, the promise is rejected with the same error; where it is done, the promise is
/// fulfilled.
pub proof fn evaluated_modules_give_their_promise<'a>(
    plan: &'a Vec<PlanModule>,
    m: usize,
    h: u64,
    depth: u64,
    w: World<'a>,
)
    requires
        said(w, w.asked.len()) == Answer::<'a>::Value(Value::Obj(h)),
        said(w, w.asked.len() + 1) == Answer::<'a>::Value(Value::Obj(h)),
    ensures
        ({
            let st = w.module(m);
            let (r, after) = evaluate_module_dynamic_step(plan, m, depth, w);
            match st.promise {
                Some(p) => r == Ok::<Value, Abrupt<'a>>(p) && after == w,
                None => match st.error {
                    Some(e) => r == Ok::<Value, Abrupt<'a>>(Value::Obj(h)) && after.jobs.status(h)
                        == Some(Status::Rejected(e)),
                    None => st.evaluated ==> r == Ok::<Value, Abrupt<'a>>(Value::Obj(h))
                        && after.jobs.status(h) == Some(Status::Fulfilled(Value::Undefined)),
                },
            }
        }),
{
    new_promises_are_pending(h, w);
    let w1 = new_promise_step(w).1;
    if let Some(e) = w.module(m).error {
        rejecting_rejects(h, e, w1);
    }
    resolving_fulfils(h, Value::Undefined, w1);
}

/// A module without dependencies that was not evaluated runs its body once, as strict code in its own
/// scope. A body that comes to its end leaves the module evaluated without an error; what a body throws is
/// thrown, and kept as the module's error. Code around it is as strict afterwards as it was.
pub proof fn modules_run_their_body<'a>(
    plan: &'a Vec<PlanModule>,
    m: usize,
    fuel: u64,
    depth: u64,
    w: World<'a>,
)
    requires
        m < plan@.len(),
        m < w.progress.modules.len(),
        plan@[m as int].deps@.len() == 0,
        fuel > 0,
        depth > 0,
        !w.module(m).evaluated,
        !w.module(m).evaluating,
        w.module(m).error is None,
    ensures
        ({
            let begun = ModState { evaluating: true, ..w.module(m) };
            let start = World { strict: true, ..w.set_module(m, begun) };
            let (r, ran) = run_stmt_list_step(
                &*plan@[m as int].body,
                plan@[m as int].env,
                (depth - 1) as u64,
                start,
            );
            let (out, after) = evaluate_module_step(plan, m, fuel, depth, w);
            &&& m < ran.progress.modules.len() ==> match r {
                Ok(_) => {
                    &&& out is Ok
                    &&& after.module(m).evaluated
                    &&& !after.module(m).evaluating
                    &&& after.module(m).error == ran.module(m).error
                },
                Err(Abrupt::Throw(e)) => {
                    &&& out == Err::<(), Abrupt<'a>>(Abrupt::Throw(e))
                    &&& after.module(m).error == Some(e)
                    &&& after.module(m).evaluated
                },
                _ => true,
            }
            &&& after.strict == w.strict
            &&& after.asked == ran.asked
        }),
{
    reveal_with_fuel(evaluate_module_step, 2);
    reveal_with_fuel(evaluate_deps_from, 2);
}

/// A module is evaluated after what it depends on: where its one dependency, which is not only deferred,
/// fails, the module's own body does not run, and the failure is passed on.
pub proof fn failed_dependencies_stop_a_module<'a>(
    plan: &'a Vec<PlanModule>,
    m: usize,
    d: usize,
    fuel: u64,
    depth: u64,
    w: World<'a>,
)
    requires
        m < plan@.len(),
        plan@[m as int].deps@ == seq![(d, false)],
        fuel > 0,
        !w.module(m).evaluated,
        !w.module(m).evaluating,
        w.module(m).error is None,
        ({
            let begun = ModState { evaluating: true, ..w.module(m) };
            evaluate_module_step(
                plan,
                d,
                (fuel - 1) as u64,
                depth,
                w.set_module(m, begun),
            ).0 is Err
        }),
    ensures
        ({
            let begun = ModState { evaluating: true, ..w.module(m) };
            let failed = evaluate_module_step(
                plan,
                d,
                (fuel - 1) as u64,
                depth,
                w.set_module(m, begun),
            );
            evaluate_module_step(plan, m, fuel, depth, w) == (
                Err::<(), Abrupt<'a>>(failed.0->Err_0),
                failed.1,
            )
        }),
{
    reveal_with_fuel(evaluate_module_step, 2);
    reveal_with_fuel(evaluate_deps_from, 2);
    assert(plan@[m as int].deps@[0] == (d, false));
}

/// A module that fails while others wait takes the error, is no longer evaluated, and rejects the promise
/// for its end with that error.
pub proof fn failing_modules_reject<'a>(m: usize, e: Value, h: u64, fuel: u64, w: World<'a>)
    requires
        m < w.progress.modules.len(),
        fuel > 0,
        !w.module(m).evaluated,
        w.module(m).error is None,
        w.module(m).promise == Some(Value::Obj(h)),
        w.progress.parents(m).len() == 0,
        w.jobs.status(h) == Some(Status::Pending),
        said(w, w.asked.len()) == Answer::<'a>::Value(Value::Obj(h)),
    ensures
        ({
            let (r, after) = async_module_rejected_step(m, e, fuel, w);
            &&& r is Ok
            &&& after.module(m).error == Some(e)
            &&& after.module(m).evaluated
            &&& !after.module(m).evaluating
            &&& after.jobs.status(h) == Some(Status::Rejected(e))
        }),
{
    let st = ModState { error: Some(e), evaluated: true, evaluating: false, ..w.module(m) };
    let w1 = w.set_module(m, st);
    rejecting_rejects(h, e, w1);
    reveal_with_fuel(reject_all_from, 2);
    assert(w1.progress.waits == w.progress.waits);
    lemma_same_parents(w.progress, w1.progress, m, w.progress.waits.len());
    assert(w1.parents_of(m) =~= Seq::<usize>::empty());
}

/// Who waits for a module does not depend on how far modules have come.
proof fn lemma_same_parents(a: ProgressView, b: ProgressView, m: usize, n: nat)
    requires
        a.waits == b.waits,
    ensures
        a.parents_from(m, n) == b.parents_from(m, n),
    decreases n,
{
    if n > 0 && n <= a.waits.len() {
        lemma_same_parents(a, b, m, (n - 1) as nat);
    }
}

/// A module that fails makes every module that waits for it fail with the same error.
pub proof fn failures_reach_those_that_wait<'a>(
    m: usize,
    parent: usize,
    e: Value,
    fuel: u64,
    w: World<'a>,
)
    requires
        m < w.progress.modules.len(),
        parent < w.progress.modules.len(),
        m != parent,
        fuel > 2,
        !w.module(m).evaluated,
        w.module(m).error is None,
        w.module(m).promise is None,
        !w.module(parent).evaluated,
        w.module(parent).error is None,
        w.module(parent).promise is None,
        w.progress.waits == seq![(m, parent)],
    ensures
        ({
            let (r, after) = async_module_rejected_step(m, e, fuel, w);
            &&& r is Ok
            &&& after.module(m).error == Some(e)
            &&& after.module(parent).error == Some(e)
        }),
{
    let st = ModState { error: Some(e), evaluated: true, evaluating: false, ..w.module(m) };
    let w1 = w.set_module(m, st);
    assert(w.progress.waits[0] == (m, parent));
    reveal_with_fuel(ProgressView::parents_from, 3);
    assert(w1.parents_of(m) =~= seq![parent]);
    let st2 = ModState { error: Some(e), evaluated: true, evaluating: false, ..w1.module(parent) };
    let w2 = w1.set_module(parent, st2);
    assert(w2.progress.waits == w.progress.waits);
    assert(w2.parents_of(parent) =~= Seq::<usize>::empty());
    let f1 = (fuel - 1) as u64;
    let none = Seq::<usize>::empty();
    assert(reject_all_from(none, e, (f1 - 1) as u64, 0, w2) == (Ok::<(), Abrupt<'a>>(()), w2));
    assert(reject_all_step(none, e, (f1 - 1) as u64, w2) == (Ok::<(), Abrupt<'a>>(()), w2));
    assert(async_module_rejected_step(parent, e, f1, w1) == (Ok::<(), Abrupt<'a>>(()), w2));
    let one = seq![parent];
    assert(reject_all_from(one, e, f1, 1, w2) == (Ok::<(), Abrupt<'a>>(()), w2));
    assert(reject_all_from(one, e, f1, 0, w1) == (Ok::<(), Abrupt<'a>>(()), w2));
    assert(reject_all_step(one, e, f1, w1) == (Ok::<(), Abrupt<'a>>(()), w2));
}

/// A body that does not wait and has come to its end leaves its module evaluated and fulfils the promise
/// for its end.
pub proof fn finished_modules_fulfil<'a>(m: usize, h: u64, waited: bool, fuel: u64, w: World<'a>)
    requires
        m < w.progress.modules.len(),
        w.module(m).promise == Some(Value::Obj(h)),
        w.jobs.status(h) == Some(Status::Pending),
        said(w, w.asked.len()) == Answer::<'a>::Value(Value::Obj(h)),
    ensures
        ({
            let (r, after) = finish_plain_step(m, Ok(waited), fuel, w);
            &&& r is Ok
            &&& after.module(m).evaluated
            &&& !after.module(m).evaluating
            &&& after.jobs.status(h) == Some(Status::Fulfilled(Value::Undefined))
        }),
{
    let w1 = w.set_module(m, ModState { evaluating: false, evaluated: true, ..w.module(m) });
    resolving_fulfils(h, Value::Undefined, w1);
}

/// An import of a binding reads as the binding that it was linked to, whatever that holds when it is read.
pub proof fn imports_read_their_source<'a>(
    local: &'a String,
    name: &'a String,
    env: Env,
    source: Env,
    value: Value,
    w: World<'a>,
)
    requires
        w.limit > 1,
        env < w.scopes.scopes.len(),
        source < w.scopes.scopes.len(),
        env != source,
        w.scopes.scopes[env as int].with_obj is None,
        w.scopes.binds(source, name@),
        w.scopes.plain_at(source, name@),
        w.scopes.value_in(source, name@) == value,
    ensures
        get_var_step(
            Name::Source(local),
            env,
            w.bind_import(env, local, source, Name::Source(name)),
        ).0 == Ok::<Value, Abrupt<'a>>(value),
{
    let after = w.bind_import(env, local, source, Name::Source(name));
    let n = Name::Source(local);
    assert(n.chars() == local@);
    assert(after.scopes.binds(env, local@));
    assert(after.scopes.stop(env, local@) == Stop::Scope(env));
    assert(after.scopes.binds(source, name@));
    assert(after.scopes.scopes[source as int] == w.scopes.scopes[source as int]);
    assert(after.scopes.stop(source, name@) == Stop::Scope(source));
    reveal_with_fuel(get_var_with_from, 3);
}

/// A link to a binding of another module is bound to that binding's name in that module's scope; a link to
/// a namespace to what the host gives as the namespace of that module, a deferred one to the module's deferred
/// namespace, and a link to a module's source to what the host gives as that.
pub proof fn links_are_bound<'a>(
    links: &'a Vec<(String, Bound)>,
    plan: &'a Vec<PlanModule>,
    env: Env,
    w: World<'a>,
)
    requires
        links@.len() == 1,
    ensures
        match &links@[0].1 {
            Bound::Live(m, name) => *m < plan@.len() ==> bind_links_step(links, plan, env, w) == (
                Ok::<(), Abrupt<'a>>(()),
                w.bind_import(env, &links@[0].0, plan@[*m as int].env, Name::Source(name)),
            ),
            Bound::Namespace(m) => {
                let (r, after) = bind_links_step(links, plan, env, w);
                &&& after.asked[w.asked.len() as int] == (Request::Namespace { module: *m as u64 })
                &&& said(w, w.asked.len()) matches Answer::Value(v) ==> r is Ok && (env
                    < w.scopes.scopes.len() ==> after.scopes.value_in(env, links@[0].0@) == v)
            },
            Bound::Deferred(m) => {
                let (ns, w1) = make_deferred_ns_step(*m, w);
                let (r, after) = bind_links_step(links, plan, env, w);
                ns matches Ok(v) ==> r is Ok && after.asked == w1.asked && (env < w1.scopes.scopes.len()
                    ==> after.scopes.value_in(env, links@[0].0@) == v)
            },
            Bound::Source(key) => {
                let (r, after) = bind_links_step(links, plan, env, w);
                &&& after.asked == w.asked.push(Request::ModuleSource(key))
                &&& said(w, w.asked.len()) matches Answer::Value(v) ==> r is Ok && (env
                    < w.scopes.scopes.len() ==> after.scopes.value_in(env, links@[0].0@) == v)
            },
        },
{
    reveal_with_fuel(bind_links_from, 3);
}

/// An import whose module was loaded links it, and then evaluates it with a new promise, which is the import's
/// value.
pub proof fn imports_link_and_evaluate<'a>(
    loaded: &'a Result<Loaded, LoadError>,
    defer: bool,
    promise: Value,
    depth: u64,
    w: World<'a>,
)
    requires
        depth > 0,
        new_promise_step(w).0 == Ok::<Value, Abrupt<'a>>(promise),
        loaded is Ok,
    ensures
        loaded matches Ok(l) && {
            let w1 = new_promise_step(w).1;
            let (u, w2) = link_modules_step(&l.order, &l.plan, w1);
            let all = dynamic_import_step(Ok(Some(loaded)), defer, depth, w);
            &&& u is Ok ==> all == evaluate_import_step(
                &l.plan,
                l.place,
                promise,
                defer,
                (depth - 1) as u64,
                w2,
            )
            &&& u matches Err(Abrupt::Throw(e)) ==> ({
                let (x, w3) = reject_promise_step(promise, e, w2);
                x is Ok ==> all == (Ok::<Value, Abrupt<'a>>(promise), w3)
            })
        },
{
    if let Ok(l) = loaded {
        assert(link_import_step(Some(loaded), new_promise_step(w).1) == link_modules_step(
            &l.order,
            &l.plan,
            new_promise_step(w).1,
        ));
    }
}

} // verus!
