//! Evaluating modules: depth first, each once, with those that wait going on when what they wait for
//! is done.
use vstd::prelude::*;

use crate::ast::Stmt;
use crate::interp::exec::{run_stmt_list, run_stmt_list_step};
use crate::interp::operate::{throw, throws};
use crate::interp::program::Loaded;
use crate::interp::promise::{
    new_promise, new_promise_step, promise_then, promise_then_step, reject_promise,
    reject_promise_step, resolve_promise, resolve_promise_step,
};
use crate::interp::session::{
    asks, asks_flag, next, Abrupt, Answers, Completion, Env, ErrorKind, Host, Request, Session,
    Step, Value, World,
};
use crate::modules::instantiate::{link_modules, link_modules_step};
use crate::modules::progress::{body_waits, plan_waits, ModState, PlanModule};
use crate::modules::register::{load_text, LoadError};

verus! {

/// The lesser of two numbers.
pub open spec fn least(a: u64, b: u64) -> u64 {
    if a < b {
        a
    } else {
        b
    }
}

fn lesser(a: u64, b: u64) -> (r: u64)
    ensures
        r == least(a, b),
{
    if a < b {
        a
    } else {
        b
    }
}

// ---- settling

/// A module has failed: so have all that wait for it.
pub open spec fn async_module_rejected_step<'a>(
    m: usize,
    e: Value,
    fuel: u64,
    w: World<'a>,
) -> Step<'a, ()>
    decreases fuel, 1nat, 0nat,
{
    let st: ModState = w.module(m);
    if fuel == 0 || st.evaluated || st.error.is_some() {
        (Ok(()), w)
    } else {
        let w = w.set_module(m, ModState { error: Some(e), evaluated: true, evaluating: false, ..st });
        let parents: Seq<usize> = w.parents_of(m);
        match st.promise {
            Some(p) => {
                next(
                    reject_promise_step(p, e, w),
                    |u: (), w: World<'a>|
                        reject_all_step(parents, e, (fuel - 1) as u64, w),
                )
            },
            None => reject_all_step(parents, e, (fuel - 1) as u64, w),
        }
    }
}

/// A module has failed: so have all that wait for it.
pub fn async_module_rejected<'h, 'a, H: Host<'a>>(
    s: &mut Session<'h, 'a, H>,
    m: usize,
    e: Value,
    fuel: u64,
) -> (out: Result<(), Abrupt<'a>>)
    ensures
        final(s).continues(*old(s)),
        forall|answers: Answers<'a>| #[trigger]
            final(s).agrees(answers) ==> old(s).agrees(answers) && (out, final(s).world(answers))
                == async_module_rejected_step(m, e, fuel, old(s).world(answers)),
    decreases fuel, 1nat, 0nat,
{
    let st: ModState = s.module(m);
    if fuel == 0 || st.evaluated || st.error.is_some() {
        return Ok(());
    }
    s.set_module(m, ModState { error: Some(e), evaluated: true, evaluating: false, ..st });
    let parents: Vec<usize> = s.parents_of(m);
    match st.promise {
        Some(p) => {
            let u: () = reject_promise(s, p, e)?;
            return reject_all(s, &parents, e, fuel - 1);
        },
        None => {
            return reject_all(s, &parents, e, fuel - 1);
        },
    }
}

/// Modules have failed. From the item at `i` on.
pub open spec fn reject_all_from<'a>(
    parents: Seq<usize>,
    e: Value,
    fuel: u64,
    i: nat,
    w: World<'a>,
) -> Step<'a, ()>
    decreases fuel, 2nat, parents.len() - i,
{
    if i >= parents.len() {
        (Ok(()), w)
    } else {
        next(
            async_module_rejected_step(parents[i as int], e, fuel, w),
            |u: (), w: World<'a>| reject_all_from(parents, e, fuel, i + 1, w),
        )
    }
}

/// Modules have failed.
pub open spec fn reject_all_step<'a>(
    parents: Seq<usize>,
    e: Value,
    fuel: u64,
    w: World<'a>,
) -> Step<'a, ()>
    decreases fuel, 2nat, parents.len() + 1,
{
    reject_all_from(parents, e, fuel, 0, w)
}

/// Modules have failed.
pub fn reject_all<'h, 'a, H: Host<'a>>(
    s: &mut Session<'h, 'a, H>,
    parents: &Vec<usize>,
    e: Value,
    fuel: u64,
) -> (out: Result<(), Abrupt<'a>>)
    ensures
        final(s).continues(*old(s)),
        forall|answers: Answers<'a>| #[trigger]
            final(s).agrees(answers) ==> old(s).agrees(answers) && (out, final(s).world(answers))
                == reject_all_step(parents@, e, fuel, old(s).world(answers)),
    decreases fuel, 2nat, parents@.len() + 1,
{
    let mut i: usize = 0;
    while i < parents.len()
        invariant
            i <= parents.len(),
            s.continues(*old(s)),
            forall|answers: Answers<'a>| #[trigger]
                s.agrees(answers) ==> old(s).agrees(answers)
                    && reject_all_step(parents@, e, fuel, old(s).world(answers))
                    == reject_all_from(parents@, e, fuel, i as nat, s.world(answers)),
        decreases parents.len() - i,
    {
        let u: () = async_module_rejected(s, parents[i], e, fuel)?;
        i = i + 1;
    }
    return Ok(());
}

/// A body that does not wait has come to its end.
pub open spec fn finish_plain_step<'a>(
    m: usize,
    r: Result<bool, Abrupt<'a>>,
    fuel: u64,
    w: World<'a>,
) -> Step<'a, ()>
{
    let st: ModState = w.module(m);
    match r {
        Ok(_) => {
            let w = w.set_module(m, ModState { evaluating: false, evaluated: true, ..st });
            match st.promise {
                Some(p) => resolve_promise_step(p, Value::Undefined, w),
                None => (Ok(()), w),
            }
        },
        Err(Abrupt::Throw(e)) | Err(Abrupt::Return(e)) => {
            let w = w.set_module(m, ModState { evaluating: false, ..st });
            async_module_rejected_step(m, e, fuel, w)
        },
        Err(a) => (Err(a), w),
    }
}

/// A body that does not wait has come to its end.
pub fn finish_plain<'h, 'a, H: Host<'a>>(
    s: &mut Session<'h, 'a, H>,
    m: usize,
    r: Result<bool, Abrupt<'a>>,
    fuel: u64,
) -> (out: Result<(), Abrupt<'a>>)
    ensures
        final(s).continues(*old(s)),
        forall|answers: Answers<'a>| #[trigger]
            final(s).agrees(answers) ==> old(s).agrees(answers) && (out, final(s).world(answers))
                == finish_plain_step(m, r, fuel, old(s).world(answers)),
{
    let st: ModState = s.module(m);
    match r {
        Ok(_) => {
            s.set_module(m, ModState { evaluating: false, evaluated: true, ..st });
            match st.promise {
                Some(p) => {
                    return resolve_promise(s, p, Value::Undefined);
                },
                None => {
                    return Ok(());
                },
            }
        },
        Err(Abrupt::Throw(e)) | Err(Abrupt::Return(e)) => {
            s.set_module(m, ModState { evaluating: false, ..st });
            return async_module_rejected(s, m, e, fuel);
        },
        Err(a) => {
            return Err(a);
        },
    }
}

/// Runs the body of a module, which is strict code: whether it waits now. A body that may wait runs
/// so that it can.
pub open spec fn run_module_body_step<'a>(
    plan: &'a Vec<PlanModule>,
    m: usize,
    waiting: bool,
    depth: u64,
    w: World<'a>,
) -> Step<'a, bool>
    decreases depth, plan, 0nat, 0nat, 0nat, 0nat,
{
    if m >= plan.len() {
        (Ok(false), w)
    } else {
        let body: &'a Vec<Stmt> = &*plan@[m as int].body;
        let env: Env = plan@[m as int].env;
        if waiting {
            asks_flag(Request::RunWaiting { module: m as u64, body, env }, w)
        } else if depth == 0 {
            throws(ErrorKind::RangeError, "Maximum call stack size exceeded", w)
        } else {
            let saved: bool = w.strict;
            let w = World { strict: true, ..w };
            let (r, w) = run_stmt_list_step(body, env, (depth - 1) as u64, w);
            let w = World { strict: saved, ..w };
            match r {
                Ok(_) => (Ok(false), w),
                Err(a) => (Err(a), w),
            }
        }
    }
}

/// Runs the body of a module, which is strict code: whether it waits now. A body that may wait runs
/// so that it can.
pub fn run_module_body<'h, 'a, H: Host<'a>>(
    s: &mut Session<'h, 'a, H>,
    plan: &'a Vec<PlanModule>,
    m: usize,
    waiting: bool,
    depth: u64,
) -> (out: Result<bool, Abrupt<'a>>)
    ensures
        final(s).continues(*old(s)),
        forall|answers: Answers<'a>| #[trigger]
            final(s).agrees(answers) ==> old(s).agrees(answers) && (out, final(s).world(answers))
                == run_module_body_step(plan, m, waiting, depth, old(s).world(answers)),
    decreases depth, plan, 0nat, 0nat, 0nat, 0nat,
{
    if m >= plan.len() {
        return Ok(false);
    } else {
        let body: &'a Vec<Stmt> = &*plan[m].body;
        let env: Env = plan[m].env;
        if waiting {
            return s.flag(Request::RunWaiting { module: m as u64, body, env });
        } else {
            if depth == 0 {
                return throw(s, ErrorKind::RangeError, "Maximum call stack size exceeded");
            } else {
                let saved: bool = s.strict_mode();
                s.set_strict(true);
                let r: Completion<'a> = run_stmt_list(s, body, env, depth - 1);
                s.set_strict(saved);
                match r {
                    Ok(_) => {
                        return Ok(false);
                    },
                    Err(a) => {
                        return Err(a);
                    },
                }
            }
        }
    }
}

/// Runs the body of a module that waits for nothing more.
pub open spec fn module_execute_async_step<'a>(
    plan: &'a Vec<PlanModule>,
    m: usize,
    fuel: u64,
    depth: u64,
    w: World<'a>,
) -> Step<'a, ()>
    decreases depth, plan, 0nat, fuel, 1nat, 0nat,
{
    if fuel == 0 {
        (Ok(()), w)
    } else {
        let st: ModState = w.module(m);
        let w = w.set_module(m, ModState { evaluating: true, ..st });
        let waiting: bool = plan_waits(plan@, m);
        let (r, w) = run_module_body_step(plan, m, waiting, depth, w);
        if !waiting {
            finish_plain_step(m, r, fuel, w)
        } else {
            match r {
                Ok(parked) => {
                    if parked {
                        (Ok(()), w)
                    } else {
                        finish_dynamic_module_step(plan, m, None, (fuel - 1) as u64, depth, w)
                    }
                },
                Err(Abrupt::Throw(e)) | Err(Abrupt::Return(e)) => {
                    finish_dynamic_module_step(plan, m, Some(e), (fuel - 1) as u64, depth, w)
                },
                Err(a) => (Err(a), w),
            }
        }
    }
}

/// Runs the body of a module that waits for nothing more.
#[verifier::spinoff_prover]
pub fn module_execute_async<'h, 'a, H: Host<'a>>(
    s: &mut Session<'h, 'a, H>,
    plan: &'a Vec<PlanModule>,
    m: usize,
    fuel: u64,
    depth: u64,
) -> (out: Result<(), Abrupt<'a>>)
    ensures
        final(s).continues(*old(s)),
        forall|answers: Answers<'a>| #[trigger]
            final(s).agrees(answers) ==> old(s).agrees(answers) && (out, final(s).world(answers))
                == module_execute_async_step(plan, m, fuel, depth, old(s).world(answers)),
    decreases depth, plan, 0nat, fuel, 1nat, 0nat,
{
    if fuel == 0 {
        return Ok(());
    }
    let st: ModState = s.module(m);
    s.set_module(m, ModState { evaluating: true, ..st });
    let waiting: bool = body_waits(plan, m);
    let r: Result<bool, Abrupt<'a>> = run_module_body(s, plan, m, waiting, depth);
    if !waiting {
        return finish_plain(s, m, r, fuel);
    } else {
        match r {
            Ok(parked) => {
                if parked {
                    return Ok(());
                } else {
                    return finish_dynamic_module(s, plan, m, None, fuel - 1, depth);
                }
            },
            Err(Abrupt::Throw(e)) | Err(Abrupt::Return(e)) => {
                return finish_dynamic_module(s, plan, m, Some(e), fuel - 1, depth);
            },
            Err(a) => {
                return Err(a);
            },
        }
    }
}

/// Runs modules that have become available, but for those that were settled meanwhile. From the
/// item at `i` on.
pub open spec fn execute_all_from<'a>(
    ready: Seq<usize>,
    plan: &'a Vec<PlanModule>,
    fuel: u64,
    depth: u64,
    i: nat,
    w: World<'a>,
) -> Step<'a, ()>
    decreases depth, plan, 0nat, fuel, 2nat, ready.len() - i,
{
    if i >= ready.len() {
        (Ok(()), w)
    } else {
        let st: ModState = w.module(ready[i as int]);
        if st.evaluated || st.error.is_some() {
            execute_all_from(ready, plan, fuel, depth, i + 1, w)
        } else {
            next(
                module_execute_async_step(plan, ready[i as int], fuel, depth, w),
                |u: (), w: World<'a>| execute_all_from(ready, plan, fuel, depth, i + 1, w),
            )
        }
    }
}

/// Runs modules that have become available, but for those that were settled meanwhile.
pub open spec fn execute_all_step<'a>(
    ready: Seq<usize>,
    plan: &'a Vec<PlanModule>,
    fuel: u64,
    depth: u64,
    w: World<'a>,
) -> Step<'a, ()>
    decreases depth, plan, 0nat, fuel, 2nat, ready.len() + 1,
{
    execute_all_from(ready, plan, fuel, depth, 0, w)
}

/// Runs modules that have become available, but for those that were settled meanwhile.
pub fn execute_all<'h, 'a, H: Host<'a>>(
    s: &mut Session<'h, 'a, H>,
    ready: &Vec<usize>,
    plan: &'a Vec<PlanModule>,
    fuel: u64,
    depth: u64,
) -> (out: Result<(), Abrupt<'a>>)
    ensures
        final(s).continues(*old(s)),
        forall|answers: Answers<'a>| #[trigger]
            final(s).agrees(answers) ==> old(s).agrees(answers) && (out, final(s).world(answers))
                == execute_all_step(ready@, plan, fuel, depth, old(s).world(answers)),
    decreases depth, plan, 0nat, fuel, 2nat, ready@.len() + 1,
{
    let mut i: usize = 0;
    while i < ready.len()
        invariant
            i <= ready.len(),
            s.continues(*old(s)),
            forall|answers: Answers<'a>| #[trigger]
                s.agrees(answers) ==> old(s).agrees(answers)
                    && execute_all_step(ready@, plan, fuel, depth, old(s).world(answers))
                    == execute_all_from(ready@, plan, fuel, depth, i as nat, s.world(answers)),
        decreases ready.len() - i,
    {
        let st: ModState = s.module(ready[i]);
        if st.evaluated || st.error.is_some() {
        } else {
            let u: () = module_execute_async(s, plan, ready[i], fuel, depth)?;
        }
        i = i + 1;
    }
    return Ok(());
}

/// A module is done: its own promise is resolved before any that waited for it runs.
pub open spec fn async_module_fulfilled_step<'a>(
    plan: &'a Vec<PlanModule>,
    m: usize,
    fuel: u64,
    depth: u64,
    w: World<'a>,
) -> Step<'a, ()>
    decreases depth, plan, 0nat, fuel, 3nat, 0nat,
{
    let st: ModState = w.module(m);
    match st.promise {
        Some(p) => {
            next(
                resolve_promise_step(p, Value::Undefined, w),
                |u: (), w: World<'a>| run_available_step(plan, m, fuel, depth, w),
            )
        },
        None => run_available_step(plan, m, fuel, depth, w),
    }
}

/// A module is done: its own promise is resolved before any that waited for it runs.
pub fn async_module_fulfilled<'h, 'a, H: Host<'a>>(
    s: &mut Session<'h, 'a, H>,
    plan: &'a Vec<PlanModule>,
    m: usize,
    fuel: u64,
    depth: u64,
) -> (out: Result<(), Abrupt<'a>>)
    ensures
        final(s).continues(*old(s)),
        forall|answers: Answers<'a>| #[trigger]
            final(s).agrees(answers) ==> old(s).agrees(answers) && (out, final(s).world(answers))
                == async_module_fulfilled_step(plan, m, fuel, depth, old(s).world(answers)),
    decreases depth, plan, 0nat, fuel, 3nat, 0nat,
{
    let st: ModState = s.module(m);
    match st.promise {
        Some(p) => {
            let u: () = resolve_promise(s, p, Value::Undefined)?;
            return run_available(s, plan, m, fuel, depth);
        },
        None => {
            return run_available(s, plan, m, fuel, depth);
        },
    }
}

/// Runs what becomes available when a module is done.
pub open spec fn run_available_step<'a>(
    plan: &'a Vec<PlanModule>,
    m: usize,
    fuel: u64,
    depth: u64,
    w: World<'a>,
) -> Step<'a, ()>
    decreases depth, plan, 0nat, fuel, 2nat, 0nat,
{
    if fuel == 0 {
        (Ok(()), w)
    } else {
        let (ready, w) = w.available(plan@, m);
        execute_all_step(ready, plan, (fuel - 1) as u64, depth, w)
    }
}

/// Runs what becomes available when a module is done.
pub fn run_available<'h, 'a, H: Host<'a>>(
    s: &mut Session<'h, 'a, H>,
    plan: &'a Vec<PlanModule>,
    m: usize,
    fuel: u64,
    depth: u64,
) -> (out: Result<(), Abrupt<'a>>)
    ensures
        final(s).continues(*old(s)),
        forall|answers: Answers<'a>| #[trigger]
            final(s).agrees(answers) ==> old(s).agrees(answers) && (out, final(s).world(answers))
                == run_available_step(plan, m, fuel, depth, old(s).world(answers)),
    decreases depth, plan, 0nat, fuel, 2nat, 0nat,
{
    if fuel == 0 {
        return Ok(());
    }
    let ready = s.available(plan, m);
    return execute_all(s, &ready, plan, fuel - 1, depth);
}

/// A module whose body could wait has come to its end.
pub open spec fn finish_dynamic_module_step<'a>(
    plan: &'a Vec<PlanModule>,
    m: usize,
    error: Option<Value>,
    fuel: u64,
    depth: u64,
    w: World<'a>,
) -> Step<'a, ()>
    decreases depth, plan, 0nat, fuel, 4nat, 0nat,
{
    let st: ModState = w.module(m);
    match error {
        None => {
            let w = w.set_module(m, ModState { evaluated: true, evaluating: false, ..st });
            async_module_fulfilled_step(plan, m, fuel, depth, w)
        },
        Some(e) => {
            let w = w.set_module(m, ModState { evaluated: false, ..st });
            async_module_rejected_step(m, e, fuel, w)
        },
    }
}

/// A module whose body could wait has come to its end.
pub fn finish_dynamic_module<'h, 'a, H: Host<'a>>(
    s: &mut Session<'h, 'a, H>,
    plan: &'a Vec<PlanModule>,
    m: usize,
    error: Option<Value>,
    fuel: u64,
    depth: u64,
) -> (out: Result<(), Abrupt<'a>>)
    ensures
        final(s).continues(*old(s)),
        forall|answers: Answers<'a>| #[trigger]
            final(s).agrees(answers) ==> old(s).agrees(answers) && (out, final(s).world(answers))
                == finish_dynamic_module_step(plan, m, error, fuel, depth, old(s).world(answers)),
    decreases depth, plan, 0nat, fuel, 4nat, 0nat,
{
    let st: ModState = s.module(m);
    match error {
        None => {
            s.set_module(m, ModState { evaluated: true, evaluating: false, ..st });
            return async_module_fulfilled(s, plan, m, fuel, depth);
        },
        Some(e) => {
            s.set_module(m, ModState { evaluated: false, ..st });
            return async_module_rejected(s, m, e, fuel);
        },
    }
}

// ---- the walk

/// The module that stands for the cycle of a module.
pub open spec fn cycle_root_step<'a>(m: usize, w: World<'a>) -> Step<'a, usize>
{
    let st: ModState = w.module(m);
    match st.root {
        Some(r) => (Ok(r), w),
        None => (Ok(m), w),
    }
}

/// The module that stands for the cycle of a module.
pub fn cycle_root<'h, 'a, H: Host<'a>>(
    s: &mut Session<'h, 'a, H>,
    m: usize,
) -> (out: Result<usize, Abrupt<'a>>)
    ensures
        final(s).continues(*old(s)),
        forall|answers: Answers<'a>| #[trigger]
            final(s).agrees(answers) ==> old(s).agrees(answers) && (out, final(s).world(answers))
                == cycle_root_step(m, old(s).world(answers)),
{
    let st: ModState = s.module(m);
    match st.root {
        Some(r) => {
            return Ok(r);
        },
        None => {
            return Ok(m);
        },
    }
}

/// Makes the promise for a module's end, if it is not at its end and has none.
pub open spec fn promise_module_step<'a>(m: usize, w: World<'a>) -> Step<'a, ()>
{
    let st: ModState = w.module(m);
    if st.evaluated || st.promise.is_some() {
        (Ok(()), w)
    } else {
        next(
            new_promise_step(w),
            |p: Value, w: World<'a>| {
                let now: ModState = w.module(m);
                let w = w.set_module(m, ModState { promise: Some(p), ..now });
                (Ok(()), w)
            },
        )
    }
}

/// Makes the promise for a module's end, if it is not at its end and has none.
pub fn promise_module<'h, 'a, H: Host<'a>>(
    s: &mut Session<'h, 'a, H>,
    m: usize,
) -> (out: Result<(), Abrupt<'a>>)
    ensures
        final(s).continues(*old(s)),
        forall|answers: Answers<'a>| #[trigger]
            final(s).agrees(answers) ==> old(s).agrees(answers) && (out, final(s).world(answers))
                == promise_module_step(m, old(s).world(answers)),
{
    let st: ModState = s.module(m);
    if st.evaluated || st.promise.is_some() {
        return Ok(());
    } else {
        let p: Value = new_promise(s)?;
        let now: ModState = s.module(m);
        s.set_module(m, ModState { promise: Some(p), ..now });
        return Ok(());
    }
}

/// Makes the promises for modules. From the item at `i` on.
pub open spec fn promise_all_from<'a>(modules: Seq<usize>, i: nat, w: World<'a>) -> Step<'a, ()>
    decreases modules.len() - i,
{
    if i >= modules.len() {
        (Ok(()), w)
    } else {
        next(
            promise_module_step(modules[i as int], w),
            |u: (), w: World<'a>| promise_all_from(modules, i + 1, w),
        )
    }
}

/// Makes the promises for modules.
pub open spec fn promise_all_step<'a>(modules: Seq<usize>, w: World<'a>) -> Step<'a, ()>
{
    promise_all_from(modules, 0, w)
}

/// Makes the promises for modules.
pub fn promise_all<'h, 'a, H: Host<'a>>(
    s: &mut Session<'h, 'a, H>,
    modules: &Vec<usize>,
) -> (out: Result<(), Abrupt<'a>>)
    ensures
        final(s).continues(*old(s)),
        forall|answers: Answers<'a>| #[trigger]
            final(s).agrees(answers) ==> old(s).agrees(answers) && (out, final(s).world(answers))
                == promise_all_step(modules@, old(s).world(answers)),
{
    let mut i: usize = 0;
    while i < modules.len()
        invariant
            i <= modules.len(),
            s.continues(*old(s)),
            forall|answers: Answers<'a>| #[trigger]
                s.agrees(answers) ==> old(s).agrees(answers)
                    && promise_all_step(modules@, old(s).world(answers))
                    == promise_all_from(modules@, i as nat, s.world(answers)),
        decreases modules.len() - i,
    {
        let u: () = promise_module(s, modules[i])?;
        i = i + 1;
    }
    return Ok(());
}

/// Takes a dependency into account that the walk has been to: whether the evaluation goes on. One
/// on the stack belongs to the same cycle; of any other, the first module of its cycle counts.
pub open spec fn account_dep_step<'a>(
    m: usize,
    dep: usize,
    fuel: u64,
    w: World<'a>,
) -> Step<'a, bool>
{
    let d: ModState = w.module(dep);
    if d.on_stack {
        let st: ModState = w.module(m);
        let w = w.set_module(m, ModState { ancestor: least(st.ancestor, d.ancestor), ..st });
        let again: ModState = w.module(dep);
        if again.order.is_some() && !again.evaluated {
            let w = w.wait_for(m, dep);
            (Ok(true), w)
        } else {
            (Ok(true), w)
        }
    } else {
        next(
            cycle_root_step(dep, w),
            |root: usize, w: World<'a>| {
                let r: ModState = w.module(root);
                match r.error {
                    Some(e) => {
                        let w = w.leave_module(m);
                        next(
                            async_module_rejected_step(m, e, fuel, w),
                            |u: (), w: World<'a>| (Ok(false), w),
                        )
                    },
                    None => {
                        if !r.evaluated && r.order.is_some() {
                            let w = w.wait_for(m, root);
                            (Ok(true), w)
                        } else {
                            (Ok(true), w)
                        }
                    },
                }
            },
        )
    }
}

/// Takes a dependency into account that the walk has been to: whether the evaluation goes on. One
/// on the stack belongs to the same cycle; of any other, the first module of its cycle counts.
pub fn account_dep<'h, 'a, H: Host<'a>>(
    s: &mut Session<'h, 'a, H>,
    m: usize,
    dep: usize,
    fuel: u64,
) -> (out: Result<bool, Abrupt<'a>>)
    ensures
        final(s).continues(*old(s)),
        forall|answers: Answers<'a>| #[trigger]
            final(s).agrees(answers) ==> old(s).agrees(answers) && (out, final(s).world(answers))
                == account_dep_step(m, dep, fuel, old(s).world(answers)),
{
    let d: ModState = s.module(dep);
    if d.on_stack {
        let st: ModState = s.module(m);
        s.set_module(m, ModState { ancestor: lesser(st.ancestor, d.ancestor), ..st });
        let again: ModState = s.module(dep);
        if again.order.is_some() && !again.evaluated {
            s.wait_for(m, dep);
            return Ok(true);
        } else {
            return Ok(true);
        }
    } else {
        let root: usize = cycle_root(s, dep)?;
        let r: ModState = s.module(root);
        match r.error {
            Some(e) => {
                s.leave_module(m);
                let u: () = async_module_rejected(s, m, e, fuel)?;
                return Ok(false);
            },
            None => {
                if !r.evaluated && r.order.is_some() {
                    s.wait_for(m, root);
                    return Ok(true);
                } else {
                    return Ok(true);
                }
            },
        }
    }
}

/// Evaluates the parts of a deferred module that wait, now; the module that defers it waits for
/// each. From the item at `i` on.
pub open spec fn defer_async_deps_from<'a>(
    reach: &'a Vec<usize>,
    plan: &'a Vec<PlanModule>,
    parent: usize,
    fuel: u64,
    depth: u64,
    i: nat,
    w: World<'a>,
) -> Step<'a, ()>
    decreases depth, plan, 0nat, fuel, 3nat, reach@.len() - i,
{
    if i >= reach@.len() {
        (Ok(()), w)
    } else {
        let m: usize = reach@[i as int];
        if !plan_waits(plan@, m) {
            defer_async_deps_from(reach, plan, parent, fuel, depth, i + 1, w)
        } else {
            next(
                promise_module_step(m, w),
                |p: (), w: World<'a>|
                    next(
                        inner_module_evaluation_async_step(plan, m, fuel, depth, w),
                        |u: (), w: World<'a>| {
                            let st: ModState = w.module(m);
                            if st.on_stack {
                                defer_async_deps_from(reach, plan, parent, fuel, depth, i + 1, w)
                            } else {
                                next(
                                    cycle_root_step(m, w),
                                    |root: usize, w: World<'a>| {
                                        let r: ModState = w.module(root);
                                        if r.error.is_some() || r.evaluated || r.order.is_none() {
                                            defer_async_deps_from(
                                                reach,
                                                plan,
                                                parent,
                                                fuel,
                                                depth,
                                                i + 1,
                                                w,
                                            )
                                        } else if w.waits_for(parent, root) {
                                            defer_async_deps_from(
                                                reach,
                                                plan,
                                                parent,
                                                fuel,
                                                depth,
                                                i + 1,
                                                w,
                                            )
                                        } else {
                                            let w = w.wait_for(parent, root);
                                            defer_async_deps_from(
                                                reach,
                                                plan,
                                                parent,
                                                fuel,
                                                depth,
                                                i + 1,
                                                w,
                                            )
                                        }
                                    },
                                )
                            }
                        },
                    ),
            )
        }
    }
}

/// Evaluates the parts of a deferred module that wait, now; the module that defers it waits for
/// each.
pub open spec fn defer_async_deps_step<'a>(
    reach: &'a Vec<usize>,
    plan: &'a Vec<PlanModule>,
    parent: usize,
    fuel: u64,
    depth: u64,
    w: World<'a>,
) -> Step<'a, ()>
    decreases depth, plan, 0nat, fuel, 3nat, reach@.len() + 1,
{
    defer_async_deps_from(reach, plan, parent, fuel, depth, 0, w)
}

/// Evaluates the parts of a deferred module that wait, now; the module that defers it waits for
/// each.
pub fn defer_async_deps<'h, 'a, H: Host<'a>>(
    s: &mut Session<'h, 'a, H>,
    reach: &'a Vec<usize>,
    plan: &'a Vec<PlanModule>,
    parent: usize,
    fuel: u64,
    depth: u64,
) -> (out: Result<(), Abrupt<'a>>)
    ensures
        final(s).continues(*old(s)),
        forall|answers: Answers<'a>| #[trigger]
            final(s).agrees(answers) ==> old(s).agrees(answers) && (out, final(s).world(answers))
                == defer_async_deps_step(reach, plan, parent, fuel, depth, old(s).world(answers)),
    decreases depth, plan, 0nat, fuel, 3nat, reach@.len() + 1,
{
    let mut i: usize = 0;
    while i < reach.len()
        invariant
            i <= reach.len(),
            s.continues(*old(s)),
            forall|answers: Answers<'a>| #[trigger]
                s.agrees(answers) ==> old(s).agrees(answers)
                    && defer_async_deps_step(reach, plan, parent, fuel, depth, old(s).world(answers))
                    == defer_async_deps_from(
                        reach,
                        plan,
                        parent,
                        fuel,
                        depth,
                        i as nat,
                        s.world(answers),
                    ),
        decreases reach.len() - i,
    {
        let m: usize = reach[i];
        if !body_waits(plan, m) {
        } else {
            let p: () = promise_module(s, m)?;
            let u: () = inner_module_evaluation_async(s, plan, m, fuel, depth)?;
            let st: ModState = s.module(m);
            if st.on_stack {
            } else {
                let root: usize = cycle_root(s, m)?;
                let r: ModState = s.module(root);
                if r.error.is_some() || r.evaluated || r.order.is_none() {
                } else if s.waits_for(parent, root) {
                } else {
                    s.wait_for(parent, root);
                }
            }
        }
        i = i + 1;
    }
    return Ok(());
}

/// Evaluates the dependencies of a module in their order: whether the evaluation goes on. From the
/// item at `i` on.
pub open spec fn visit_deps_from<'a>(
    deps: &'a Vec<(usize, bool)>,
    plan: &'a Vec<PlanModule>,
    m: usize,
    fuel: u64,
    depth: u64,
    i: nat,
    w: World<'a>,
) -> Step<'a, bool>
    decreases depth, plan, 0nat, fuel, 5nat, deps@.len() - i,
{
    if i >= deps@.len() {
        (Ok(true), w)
    } else {
        let dep: usize = deps@[i as int].0;
        if deps@[i as int].1 {
            next(
                visit_deferred_step(plan, m, dep, fuel, depth, w),
                |u: (), w: World<'a>| visit_deps_from(deps, plan, m, fuel, depth, i + 1, w),
            )
        } else {
            next(
                inner_module_evaluation_async_step(plan, dep, fuel, depth, w),
                |u: (), w: World<'a>|
                    next(
                        account_dep_step(m, dep, fuel, w),
                        |on: bool, w: World<'a>|
                            if on {
                                visit_deps_from(deps, plan, m, fuel, depth, i + 1, w)
                            } else {
                                (Ok(false), w)
                            },
                    ),
            )
        }
    }
}

/// Evaluates the dependencies of a module in their order: whether the evaluation goes on.
pub open spec fn visit_deps_step<'a>(
    deps: &'a Vec<(usize, bool)>,
    plan: &'a Vec<PlanModule>,
    m: usize,
    fuel: u64,
    depth: u64,
    w: World<'a>,
) -> Step<'a, bool>
    decreases depth, plan, 0nat, fuel, 5nat, deps@.len() + 1,
{
    visit_deps_from(deps, plan, m, fuel, depth, 0, w)
}

/// Evaluates the dependencies of a module in their order: whether the evaluation goes on.
pub fn visit_deps<'h, 'a, H: Host<'a>>(
    s: &mut Session<'h, 'a, H>,
    deps: &'a Vec<(usize, bool)>,
    plan: &'a Vec<PlanModule>,
    m: usize,
    fuel: u64,
    depth: u64,
) -> (out: Result<bool, Abrupt<'a>>)
    ensures
        final(s).continues(*old(s)),
        forall|answers: Answers<'a>| #[trigger]
            final(s).agrees(answers) ==> old(s).agrees(answers) && (out, final(s).world(answers))
                == visit_deps_step(deps, plan, m, fuel, depth, old(s).world(answers)),
    decreases depth, plan, 0nat, fuel, 5nat, deps@.len() + 1,
{
    let mut i: usize = 0;
    while i < deps.len()
        invariant
            i <= deps.len(),
            s.continues(*old(s)),
            forall|answers: Answers<'a>| #[trigger]
                s.agrees(answers) ==> old(s).agrees(answers)
                    && visit_deps_step(deps, plan, m, fuel, depth, old(s).world(answers))
                    == visit_deps_from(deps, plan, m, fuel, depth, i as nat, s.world(answers)),
        decreases deps.len() - i,
    {
        let dep: usize = deps[i].0;
        if deps[i].1 {
            let u: () = visit_deferred(s, plan, m, dep, fuel, depth)?;
        } else {
            let u: () = inner_module_evaluation_async(s, plan, dep, fuel, depth)?;
            let on: bool = account_dep(s, m, dep, fuel)?;
            if on {
            } else {
                return Ok(false);
            }
        }
        i = i + 1;
    }
    return Ok(true);
}

/// A dependency that is only deferred.
pub open spec fn visit_deferred_step<'a>(
    plan: &'a Vec<PlanModule>,
    m: usize,
    dep: usize,
    fuel: u64,
    depth: u64,
    w: World<'a>,
) -> Step<'a, ()>
    decreases depth, plan, 0nat, fuel, 4nat, 0nat,
{
    if dep >= plan.len() {
        (Ok(()), w)
    } else {
        defer_async_deps_step(&plan@[dep as int].reach, plan, m, fuel, depth, w)
    }
}

/// A dependency that is only deferred.
pub fn visit_deferred<'h, 'a, H: Host<'a>>(
    s: &mut Session<'h, 'a, H>,
    plan: &'a Vec<PlanModule>,
    m: usize,
    dep: usize,
    fuel: u64,
    depth: u64,
) -> (out: Result<(), Abrupt<'a>>)
    ensures
        final(s).continues(*old(s)),
        forall|answers: Answers<'a>| #[trigger]
            final(s).agrees(answers) ==> old(s).agrees(answers) && (out, final(s).world(answers))
                == visit_deferred_step(plan, m, dep, fuel, depth, old(s).world(answers)),
    decreases depth, plan, 0nat, fuel, 4nat, 0nat,
{
    if dep >= plan.len() {
        return Ok(());
    } else {
        return defer_async_deps(s, &plan[dep].reach, plan, m, fuel, depth);
    }
}

/// InnerModuleEvaluation: a module is evaluated after its dependencies, once. It runs now if it
/// waits for none of them; the modules of a cycle share its first one.
pub open spec fn inner_module_evaluation_async_step<'a>(
    plan: &'a Vec<PlanModule>,
    m: usize,
    fuel: u64,
    depth: u64,
    w: World<'a>,
) -> Step<'a, ()>
    decreases depth, plan, 0nat, fuel, 2nat, 0nat,
{
    let st: ModState = w.module(m);
    if fuel == 0 || m >= plan.len() || st.started || st.evaluated {
        (Ok(()), w)
    } else {
        let w = w.enter_module(m);
        next(
            visit_deps_step(&plan@[m as int].deps, plan, m, (fuel - 1) as u64, depth, w),
            |on: bool, w: World<'a>|
                if !on {
                    (Ok(()), w)
                } else {
                    let before: ModState = w.module(m);
                    next(
                        if before.pending > 0 || plan_waits(plan@, m) {
                            let w = w.order_module(m);
                            (Ok(()), w)
                        } else {
                            (Ok(()), w)
                        },
                        |o: (), w: World<'a>|
                            next(
                                if before.pending == 0 {
                                    module_execute_async_step(plan, m, fuel, depth, w)
                                } else {
                                    (Ok(()), w)
                                },
                                |x: (), w: World<'a>| {
                                    let w = w.leave_module(m);
                                    (Ok(()), w)
                                },
                            ),
                    )
                },
        )
    }
}

/// InnerModuleEvaluation: a module is evaluated after its dependencies, once. It runs now if it
/// waits for none of them; the modules of a cycle share its first one.
#[verifier::spinoff_prover]
pub fn inner_module_evaluation_async<'h, 'a, H: Host<'a>>(
    s: &mut Session<'h, 'a, H>,
    plan: &'a Vec<PlanModule>,
    m: usize,
    fuel: u64,
    depth: u64,
) -> (out: Result<(), Abrupt<'a>>)
    ensures
        final(s).continues(*old(s)),
        forall|answers: Answers<'a>| #[trigger]
            final(s).agrees(answers) ==> old(s).agrees(answers) && (out, final(s).world(answers))
                == inner_module_evaluation_async_step(plan, m, fuel, depth, old(s).world(answers)),
    decreases depth, plan, 0nat, fuel, 2nat, 0nat,
{
    let st: ModState = s.module(m);
    if fuel == 0 || m >= plan.len() || st.started || st.evaluated {
        return Ok(());
    }
    s.enter_module(m);
    let on: bool = visit_deps(s, &plan[m].deps, plan, m, fuel - 1, depth)?;
    if !on {
        return Ok(());
    }
    let before: ModState = s.module(m);
    let o: () = if before.pending > 0 || body_waits(plan, m) {
        s.order_module(m);
        ()
    } else {
        ()
    };
    let x: () = if before.pending == 0 {
        module_execute_async(s, plan, m, fuel, depth)?
    } else {
        ()
    };
    s.leave_module(m);
    return Ok(());
}

// ---- evaluation at once

/// Evaluates the parts of a deferred module's dependencies that wait. From the item at `i` on.
pub open spec fn subgraph_deps_from<'a>(
    deps: &'a Vec<(usize, bool)>,
    plan: &'a Vec<PlanModule>,
    fuel: u64,
    depth: u64,
    i: nat,
    w: World<'a>,
) -> Step<'a, ()>
    decreases depth, plan, 0nat, fuel, 7nat, deps@.len() - i,
{
    if i >= deps@.len() {
        (Ok(()), w)
    } else {
        if deps@[i as int].1 {
            subgraph_deps_from(deps, plan, fuel, depth, i + 1, w)
        } else {
            next(
                evaluate_async_subgraph_step(plan, deps@[i as int].0, fuel, depth, w),
                |u: (), w: World<'a>| subgraph_deps_from(deps, plan, fuel, depth, i + 1, w),
            )
        }
    }
}

/// Evaluates the parts of a deferred module's dependencies that wait.
pub open spec fn subgraph_deps_step<'a>(
    deps: &'a Vec<(usize, bool)>,
    plan: &'a Vec<PlanModule>,
    fuel: u64,
    depth: u64,
    w: World<'a>,
) -> Step<'a, ()>
    decreases depth, plan, 0nat, fuel, 7nat, deps@.len() + 1,
{
    subgraph_deps_from(deps, plan, fuel, depth, 0, w)
}

/// Evaluates the parts of a deferred module's dependencies that wait.
pub fn subgraph_deps<'h, 'a, H: Host<'a>>(
    s: &mut Session<'h, 'a, H>,
    deps: &'a Vec<(usize, bool)>,
    plan: &'a Vec<PlanModule>,
    fuel: u64,
    depth: u64,
) -> (out: Result<(), Abrupt<'a>>)
    ensures
        final(s).continues(*old(s)),
        forall|answers: Answers<'a>| #[trigger]
            final(s).agrees(answers) ==> old(s).agrees(answers) && (out, final(s).world(answers))
                == subgraph_deps_step(deps, plan, fuel, depth, old(s).world(answers)),
    decreases depth, plan, 0nat, fuel, 7nat, deps@.len() + 1,
{
    let mut i: usize = 0;
    while i < deps.len()
        invariant
            i <= deps.len(),
            s.continues(*old(s)),
            forall|answers: Answers<'a>| #[trigger]
                s.agrees(answers) ==> old(s).agrees(answers)
                    && subgraph_deps_step(deps, plan, fuel, depth, old(s).world(answers))
                    == subgraph_deps_from(deps, plan, fuel, depth, i as nat, s.world(answers)),
        decreases deps.len() - i,
    {
        if deps[i].1 {
        } else {
            let u: () = evaluate_async_subgraph(s, plan, deps[i].0, fuel, depth)?;
        }
        i = i + 1;
    }
    return Ok(());
}

/// Evaluates the modules that wait among those that a module depends on: the part of `import defer`
/// that is not deferred.
pub open spec fn evaluate_async_subgraph_step<'a>(
    plan: &'a Vec<PlanModule>,
    m: usize,
    fuel: u64,
    depth: u64,
    w: World<'a>,
) -> Step<'a, ()>
    decreases depth, plan, 0nat, fuel, 6nat, 0nat,
{
    if fuel == 0 || m >= plan.len() || w.has_seen(m) {
        (Ok(()), w)
    } else {
        let w = w.see(m);
        let st: ModState = w.module(m);
        if st.evaluated || st.evaluating {
            (Ok(()), w)
        } else if plan_waits(plan@, m) {
            next(
                promise_all_step(plan@[m as int].eager@, w),
                |p: (), w: World<'a>|
                    inner_module_evaluation_async_step(plan, m, fuel, depth, w),
            )
        } else {
            subgraph_deps_step(&plan@[m as int].deps, plan, (fuel - 1) as u64, depth, w)
        }
    }
}

/// Evaluates the modules that wait among those that a module depends on: the part of `import defer`
/// that is not deferred.
pub fn evaluate_async_subgraph<'h, 'a, H: Host<'a>>(
    s: &mut Session<'h, 'a, H>,
    plan: &'a Vec<PlanModule>,
    m: usize,
    fuel: u64,
    depth: u64,
) -> (out: Result<(), Abrupt<'a>>)
    ensures
        final(s).continues(*old(s)),
        forall|answers: Answers<'a>| #[trigger]
            final(s).agrees(answers) ==> old(s).agrees(answers) && (out, final(s).world(answers))
                == evaluate_async_subgraph_step(plan, m, fuel, depth, old(s).world(answers)),
    decreases depth, plan, 0nat, fuel, 6nat, 0nat,
{
    if fuel == 0 || m >= plan.len() || s.has_seen(m) {
        return Ok(());
    }
    s.see(m);
    let st: ModState = s.module(m);
    if st.evaluated || st.evaluating {
        return Ok(());
    }
    if body_waits(plan, m) {
        let p: () = promise_all(s, &plan[m].eager)?;
        return inner_module_evaluation_async(s, plan, m, fuel, depth);
    } else {
        return subgraph_deps(s, &plan[m].deps, plan, fuel - 1, depth);
    }
}

/// Evaluates the dependencies of a module that is evaluated at once. From the item at `i` on.
pub open spec fn evaluate_deps_from<'a>(
    deps: &'a Vec<(usize, bool)>,
    plan: &'a Vec<PlanModule>,
    fuel: u64,
    depth: u64,
    i: nat,
    w: World<'a>,
) -> Step<'a, ()>
    decreases depth, plan, 1nat, fuel, 1nat, deps@.len() - i,
{
    if i >= deps@.len() {
        (Ok(()), w)
    } else {
        if deps@[i as int].1 {
            let w = w.forget();
            next(
                evaluate_async_subgraph_step(plan, deps@[i as int].0, u64::MAX, depth, w),
                |u: (), w: World<'a>| evaluate_deps_from(deps, plan, fuel, depth, i + 1, w),
            )
        } else {
            next(
                evaluate_module_step(plan, deps@[i as int].0, fuel, depth, w),
                |u: (), w: World<'a>| evaluate_deps_from(deps, plan, fuel, depth, i + 1, w),
            )
        }
    }
}

/// Evaluates the dependencies of a module that is evaluated at once.
pub open spec fn evaluate_deps_step<'a>(
    deps: &'a Vec<(usize, bool)>,
    plan: &'a Vec<PlanModule>,
    fuel: u64,
    depth: u64,
    w: World<'a>,
) -> Step<'a, ()>
    decreases depth, plan, 1nat, fuel, 1nat, deps@.len() + 1,
{
    evaluate_deps_from(deps, plan, fuel, depth, 0, w)
}

/// Evaluates the dependencies of a module that is evaluated at once.
pub fn evaluate_deps<'h, 'a, H: Host<'a>>(
    s: &mut Session<'h, 'a, H>,
    deps: &'a Vec<(usize, bool)>,
    plan: &'a Vec<PlanModule>,
    fuel: u64,
    depth: u64,
) -> (out: Result<(), Abrupt<'a>>)
    ensures
        final(s).continues(*old(s)),
        forall|answers: Answers<'a>| #[trigger]
            final(s).agrees(answers) ==> old(s).agrees(answers) && (out, final(s).world(answers))
                == evaluate_deps_step(deps, plan, fuel, depth, old(s).world(answers)),
    decreases depth, plan, 1nat, fuel, 1nat, deps@.len() + 1,
{
    let mut i: usize = 0;
    while i < deps.len()
        invariant
            i <= deps.len(),
            s.continues(*old(s)),
            forall|answers: Answers<'a>| #[trigger]
                s.agrees(answers) ==> old(s).agrees(answers)
                    && evaluate_deps_step(deps, plan, fuel, depth, old(s).world(answers))
                    == evaluate_deps_from(deps, plan, fuel, depth, i as nat, s.world(answers)),
        decreases deps.len() - i,
    {
        if deps[i].1 {
            s.forget();
            let u: () = evaluate_async_subgraph(s, plan, deps[i].0, u64::MAX, depth)?;
        } else {
            let u: () = evaluate_module(s, plan, deps[i].0, fuel, depth)?;
        }
        i = i + 1;
    }
    return Ok(());
}

/// Evaluates a module at once, after its dependencies. One that has failed fails again with the
/// same error.
pub open spec fn evaluate_module_step<'a>(
    plan: &'a Vec<PlanModule>,
    m: usize,
    fuel: u64,
    depth: u64,
    w: World<'a>,
) -> Step<'a, ()>
    decreases depth, plan, 1nat, fuel, 0nat, 0nat,
{
    let st: ModState = w.module(m);
    match st.error {
        Some(e) => (Err(Abrupt::Throw(e)), w),
        None => {
            if fuel == 0 || m >= plan.len() || st.evaluated || st.evaluating {
                (Ok(()), w)
            } else {
                let w = w.set_module(m, ModState { evaluating: true, ..st });
                next(
                    evaluate_deps_step(&plan@[m as int].deps, plan, (fuel - 1) as u64, depth, w),
                    |u: (), w: World<'a>| {
                        let (r, w) = run_module_body_step(plan, m, false, depth, w);
                        let after: ModState = w.module(m);
                        match r {
                            Ok(_) => {
                                let w = w.set_module(m, ModState { evaluating: false, evaluated: true, ..after });
                                (Ok(()), w)
                            },
                            Err(Abrupt::Throw(e)) | Err(Abrupt::Return(e)) => {
                                let w = w.set_module(m, ModState { evaluating: false, evaluated: true, error: Some(e), ..after });
                                (Err(Abrupt::Throw(e)), w)
                            },
                            Err(a) => (Err(a), w),
                        }
                    },
                )
            }
        },
    }
}

/// Evaluates a module at once, after its dependencies. One that has failed fails again with the
/// same error.
pub fn evaluate_module<'h, 'a, H: Host<'a>>(
    s: &mut Session<'h, 'a, H>,
    plan: &'a Vec<PlanModule>,
    m: usize,
    fuel: u64,
    depth: u64,
) -> (out: Result<(), Abrupt<'a>>)
    ensures
        final(s).continues(*old(s)),
        forall|answers: Answers<'a>| #[trigger]
            final(s).agrees(answers) ==> old(s).agrees(answers) && (out, final(s).world(answers))
                == evaluate_module_step(plan, m, fuel, depth, old(s).world(answers)),
    decreases depth, plan, 1nat, fuel, 0nat, 0nat,
{
    let st: ModState = s.module(m);
    match st.error {
        Some(e) => {
            return Err(Abrupt::Throw(e));
        },
        None => {
            if fuel == 0 || m >= plan.len() || st.evaluated || st.evaluating {
                return Ok(());
            } else {
                s.set_module(m, ModState { evaluating: true, ..st });
                let u: () = evaluate_deps(s, &plan[m].deps, plan, fuel - 1, depth)?;
                let r: Result<bool, Abrupt<'a>> = run_module_body(s, plan, m, false, depth);
                let after: ModState = s.module(m);
                match r {
                    Ok(_) => {
                        s.set_module(m, ModState { evaluating: false, evaluated: true, ..after });
                        return Ok(());
                    },
                    Err(Abrupt::Throw(e)) | Err(Abrupt::Return(e)) => {
                        s.set_module(m, ModState { evaluating: false, evaluated: true, error: Some(e), ..after });
                        return Err(Abrupt::Throw(e));
                    },
                    Err(a) => {
                        return Err(a);
                    },
                }
            }
        },
    }
}

/// Whether the dependencies of a module can be evaluated at once. From the item at `i` on.
pub open spec fn deps_ready_from<'a>(
    deps: &'a Vec<(usize, bool)>,
    plan: &'a Vec<PlanModule>,
    fuel: u64,
    i: nat,
    w: World<'a>,
) -> Step<'a, bool>
    decreases fuel, 1nat, deps@.len() - i,
{
    if i >= deps@.len() {
        (Ok(true), w)
    } else {
        next(
            ready_for_sync_step(plan, deps@[i as int].0, fuel, w),
            |ok: bool, w: World<'a>|
                if ok {
                    deps_ready_from(deps, plan, fuel, i + 1, w)
                } else {
                    (Ok(false), w)
                },
        )
    }
}

/// Whether the dependencies of a module can be evaluated at once.
pub open spec fn deps_ready_step<'a>(
    deps: &'a Vec<(usize, bool)>,
    plan: &'a Vec<PlanModule>,
    fuel: u64,
    w: World<'a>,
) -> Step<'a, bool>
    decreases fuel, 1nat, deps@.len() + 1,
{
    deps_ready_from(deps, plan, fuel, 0, w)
}

/// Whether the dependencies of a module can be evaluated at once.
pub fn deps_ready<'h, 'a, H: Host<'a>>(
    s: &mut Session<'h, 'a, H>,
    deps: &'a Vec<(usize, bool)>,
    plan: &'a Vec<PlanModule>,
    fuel: u64,
) -> (out: Result<bool, Abrupt<'a>>)
    ensures
        final(s).continues(*old(s)),
        forall|answers: Answers<'a>| #[trigger]
            final(s).agrees(answers) ==> old(s).agrees(answers) && (out, final(s).world(answers))
                == deps_ready_step(deps, plan, fuel, old(s).world(answers)),
    decreases fuel, 1nat, deps@.len() + 1,
{
    let mut i: usize = 0;
    while i < deps.len()
        invariant
            i <= deps.len(),
            s.continues(*old(s)),
            forall|answers: Answers<'a>| #[trigger]
                s.agrees(answers) ==> old(s).agrees(answers)
                    && deps_ready_step(deps, plan, fuel, old(s).world(answers))
                    == deps_ready_from(deps, plan, fuel, i as nat, s.world(answers)),
        decreases deps.len() - i,
    {
        let ok: bool = ready_for_sync(s, plan, deps[i].0, fuel)?;
        if ok {
        } else {
            return Ok(false);
        }
        i = i + 1;
    }
    return Ok(true);
}

/// ReadyForSyncExecution: whether nothing that a module depends on is being evaluated or would
/// wait.
pub open spec fn ready_for_sync_step<'a>(
    plan: &'a Vec<PlanModule>,
    m: usize,
    fuel: u64,
    w: World<'a>,
) -> Step<'a, bool>
    decreases fuel, 0nat, 0nat,
{
    if fuel == 0 || m >= plan.len() || w.has_seen(m) {
        (Ok(true), w)
    } else {
        let w = w.see(m);
        let st: ModState = w.module(m);
        if st.evaluated && st.error.is_none() {
            (Ok(true), w)
        } else if st.evaluating || st.started && !st.evaluated {
            (Ok(false), w)
        } else if !st.evaluated && plan_waits(plan@, m) {
            (Ok(false), w)
        } else {
            deps_ready_step(&plan@[m as int].deps, plan, (fuel - 1) as u64, w)
        }
    }
}

/// ReadyForSyncExecution: whether nothing that a module depends on is being evaluated or would
/// wait.
pub fn ready_for_sync<'h, 'a, H: Host<'a>>(
    s: &mut Session<'h, 'a, H>,
    plan: &'a Vec<PlanModule>,
    m: usize,
    fuel: u64,
) -> (out: Result<bool, Abrupt<'a>>)
    ensures
        final(s).continues(*old(s)),
        forall|answers: Answers<'a>| #[trigger]
            final(s).agrees(answers) ==> old(s).agrees(answers) && (out, final(s).world(answers))
                == ready_for_sync_step(plan, m, fuel, old(s).world(answers)),
    decreases fuel, 0nat, 0nat,
{
    if fuel == 0 || m >= plan.len() || s.has_seen(m) {
        return Ok(true);
    }
    s.see(m);
    let st: ModState = s.module(m);
    if st.evaluated && st.error.is_none() {
        return Ok(true);
    } else if st.evaluating || st.started && !st.evaluated {
        return Ok(false);
    } else if !st.evaluated && body_waits(plan, m) {
        return Ok(false);
    } else {
        return deps_ready(s, &plan[m].deps, plan, fuel - 1);
    }
}

/// Evaluates a module whose deferred namespace is read.
pub open spec fn evaluate_deferred_step<'a>(
    plan: &'a Vec<PlanModule>,
    m: usize,
    depth: u64,
    w: World<'a>,
) -> Step<'a, ()>
    decreases depth, plan, 2nat, 0nat, 5nat, 0nat,
{
    let w = w.forget();
    next(
        ready_for_sync_step(plan, m, u64::MAX, w),
        |ok: bool, w: World<'a>|
            if ok {
                evaluate_module_step(plan, m, u64::MAX, depth, w)
            } else {
                throws(
                    ErrorKind::TypeError,
                    "cannot access a deferred namespace while its module graph is evaluating",
                    w,
                )
            },
    )
}

/// Evaluates a module whose deferred namespace is read.
pub fn evaluate_deferred<'h, 'a, H: Host<'a>>(
    s: &mut Session<'h, 'a, H>,
    plan: &'a Vec<PlanModule>,
    m: usize,
    depth: u64,
) -> (out: Result<(), Abrupt<'a>>)
    ensures
        final(s).continues(*old(s)),
        forall|answers: Answers<'a>| #[trigger]
            final(s).agrees(answers) ==> old(s).agrees(answers) && (out, final(s).world(answers))
                == evaluate_deferred_step(plan, m, depth, old(s).world(answers)),
    decreases depth, plan, 2nat, 0nat, 5nat, 0nat,
{
    s.forget();
    let ok: bool = ready_for_sync(s, plan, m, u64::MAX)?;
    if ok {
        return evaluate_module(s, plan, m, u64::MAX, depth);
    } else {
        return throw(
            s,
            ErrorKind::TypeError,
            "cannot access a deferred namespace while its module graph is evaluating",
        );
    }
}

/// Evaluates a module and what it depends on. The promises for all of them are made first.
pub open spec fn evaluate_batch_step<'a>(
    plan: &'a Vec<PlanModule>,
    m: usize,
    depth: u64,
    w: World<'a>,
) -> Step<'a, ()>
    decreases depth, plan, 2nat, 0nat, 5nat, 0nat,
{
    if m >= plan.len() {
        (Ok(()), w)
    } else {
        next(
            promise_all_step(plan@[m as int].eager@, w),
            |p: (), w: World<'a>| inner_module_evaluation_async_step(plan, m, u64::MAX, depth, w),
        )
    }
}

/// Evaluates a module and what it depends on. The promises for all of them are made first.
pub fn evaluate_batch<'h, 'a, H: Host<'a>>(
    s: &mut Session<'h, 'a, H>,
    plan: &'a Vec<PlanModule>,
    m: usize,
    depth: u64,
) -> (out: Result<(), Abrupt<'a>>)
    ensures
        final(s).continues(*old(s)),
        forall|answers: Answers<'a>| #[trigger]
            final(s).agrees(answers) ==> old(s).agrees(answers) && (out, final(s).world(answers))
                == evaluate_batch_step(plan, m, depth, old(s).world(answers)),
    decreases depth, plan, 2nat, 0nat, 5nat, 0nat,
{
    if m >= plan.len() {
        return Ok(());
    }
    let p: () = promise_all(s, &plan[m].eager)?;
    return inner_module_evaluation_async(s, plan, m, u64::MAX, depth);
}

/// The promise for the end of a module that is imported while others run. One that has a promise
/// belongs to an evaluation that will come by it; any other is evaluated now, with what it depends
/// on.
pub open spec fn evaluate_module_dynamic_step<'a>(
    plan: &'a Vec<PlanModule>,
    m: usize,
    depth: u64,
    w: World<'a>,
) -> Step<'a, Value>
    decreases depth, plan, 2nat, 0nat, 6nat, 0nat,
{
    let st: ModState = w.module(m);
    match st.promise {
        Some(p) => (Ok(p), w),
        None => {
            match st.error {
                Some(e) => {
                    next(
                        new_promise_step(w),
                        |p: Value, w: World<'a>|
                            next(
                                reject_promise_step(p, e, w),
                                |u: (), w: World<'a>| (Ok(p), w),
                            ),
                    )
                },
                None => {
                    if st.evaluated || st.evaluating {
                        next(
                            new_promise_step(w),
                            |p: Value, w: World<'a>|
                                next(
                                    resolve_promise_step(p, Value::Undefined, w),
                                    |u: (), w: World<'a>| (Ok(p), w),
                                ),
                        )
                    } else {
                        next(
                            evaluate_batch_step(plan, m, depth, w),
                            |u: (), w: World<'a>| settled_promise_step(m, w),
                        )
                    }
                },
            }
        },
    }
}

/// The promise for the end of a module that is imported while others run. One that has a promise
/// belongs to an evaluation that will come by it; any other is evaluated now, with what it depends
/// on.
pub fn evaluate_module_dynamic<'h, 'a, H: Host<'a>>(
    s: &mut Session<'h, 'a, H>,
    plan: &'a Vec<PlanModule>,
    m: usize,
    depth: u64,
) -> (out: Result<Value, Abrupt<'a>>)
    ensures
        final(s).continues(*old(s)),
        forall|answers: Answers<'a>| #[trigger]
            final(s).agrees(answers) ==> old(s).agrees(answers) && (out, final(s).world(answers))
                == evaluate_module_dynamic_step(plan, m, depth, old(s).world(answers)),
    decreases depth, plan, 2nat, 0nat, 6nat, 0nat,
{
    let st: ModState = s.module(m);
    match st.promise {
        Some(p) => {
            return Ok(p);
        },
        None => {
            match st.error {
                Some(e) => {
                    let p: Value = new_promise(s)?;
                    let u: () = reject_promise(s, p, e)?;
                    return Ok(p);
                },
                None => {
                    if st.evaluated || st.evaluating {
                        let p: Value = new_promise(s)?;
                        let u: () = resolve_promise(s, p, Value::Undefined)?;
                        return Ok(p);
                    } else {
                        let u: () = evaluate_batch(s, plan, m, depth)?;
                        return settled_promise(s, m);
                    }
                },
            }
        },
    }
}

/// The promise for the end of a module that was just evaluated.
pub open spec fn settled_promise_step<'a>(m: usize, w: World<'a>) -> Step<'a, Value>
{
    let st: ModState = w.module(m);
    match st.promise {
        Some(p) => (Ok(p), w),
        None => {
            next(
                new_promise_step(w),
                |p: Value, w: World<'a>|
                    match st.error {
                        Some(e) => {
                            next(
                                reject_promise_step(p, e, w),
                                |u: (), w: World<'a>| (Ok(p), w),
                            )
                        },
                        None => {
                            next(
                                resolve_promise_step(p, Value::Undefined, w),
                                |u: (), w: World<'a>| (Ok(p), w),
                            )
                        },
                    },
            )
        },
    }
}

/// The promise for the end of a module that was just evaluated.
pub fn settled_promise<'h, 'a, H: Host<'a>>(
    s: &mut Session<'h, 'a, H>,
    m: usize,
) -> (out: Result<Value, Abrupt<'a>>)
    ensures
        final(s).continues(*old(s)),
        forall|answers: Answers<'a>| #[trigger]
            final(s).agrees(answers) ==> old(s).agrees(answers) && (out, final(s).world(answers))
                == settled_promise_step(m, old(s).world(answers)),
{
    let st: ModState = s.module(m);
    match st.promise {
        Some(p) => {
            return Ok(p);
        },
        None => {
            let p: Value = new_promise(s)?;
            match st.error {
                Some(e) => {
                    let u: () = reject_promise(s, p, e)?;
                    return Ok(p);
                },
                None => {
                    let u: () = resolve_promise(s, p, Value::Undefined)?;
                    return Ok(p);
                },
            }
        },
    }
}

/// The deferred namespace of a module, which is made once: every deferred import of the module has
/// the same.
pub open spec fn make_deferred_ns_step<'a>(m: usize, w: World<'a>) -> Step<'a, Value>
{
    let st: ModState = w.module(m);
    match st.deferred {
        Some(v) => (Ok(v), w),
        None => {
            next(
                asks(Request::DeferredNamespace { module: m as u64 }, w),
                |v: Value, w: World<'a>| {
                    let w = w.set_module(m, ModState { deferred: Some(v), ..st });
                    (Ok(v), w)
                },
            )
        },
    }
}

/// The deferred namespace of a module, which is made once: every deferred import of the module has
/// the same.
pub fn make_deferred_ns<'h, 'a, H: Host<'a>>(
    s: &mut Session<'h, 'a, H>,
    m: usize,
) -> (out: Result<Value, Abrupt<'a>>)
    ensures
        final(s).continues(*old(s)),
        forall|answers: Answers<'a>| #[trigger]
            final(s).agrees(answers) ==> old(s).agrees(answers) && (out, final(s).world(answers))
                == make_deferred_ns_step(m, old(s).world(answers)),
{
    let st: ModState = s.module(m);
    match st.deferred {
        Some(v) => {
            return Ok(v);
        },
        None => {
            let v: Value = s.value(Request::DeferredNamespace { module: m as u64 })?;
            s.set_module(m, ModState { deferred: Some(v), ..st });
            return Ok(v);
        },
    }
}

/// Settles the promise of an import whose module was loaded and linked: with the namespace, when
/// the module is evaluated. A deferred import evaluates only what waits.
pub open spec fn evaluate_import_step<'a>(
    plan: &'a Vec<PlanModule>,
    m: usize,
    promise: Value,
    defer: bool,
    depth: u64,
    w: World<'a>,
) -> Step<'a, Value>
    decreases depth, plan, 2nat, 0nat, 7nat, 0nat,
{
    if defer {
        let w = w.forget();
        let (r, w) = evaluate_async_subgraph_step(plan, m, u64::MAX, depth, w);
        match r {
            Ok(_) => {
                next(
                    make_deferred_ns_step(m, w),
                    |ns: Value, w: World<'a>|
                        next(
                            resolve_promise_step(promise, ns, w),
                            |u: (), w: World<'a>| (Ok(promise), w),
                        ),
                )
            },
            Err(Abrupt::Throw(e)) => {
                next(
                    reject_promise_step(promise, e, w),
                    |u: (), w: World<'a>| (Ok(promise), w),
                )
            },
            Err(a) => (Err(a), w),
        }
    } else {
        next(
            evaluate_module_dynamic_step(plan, m, depth, w),
            |top: Value, w: World<'a>|
                next(
                    asks(Request::Namespace { module: m as u64 }, w),
                    |ns: Value, w: World<'a>|
                        next(
                            asks(Request::ImportHandler { promise, namespace: Some(ns) }, w),
                            |on_f: Value, w: World<'a>|
                                next(
                                    asks(Request::ImportHandler { promise, namespace: None }, w),
                                    |on_r: Value, w: World<'a>|
                                        next(
                                            promise_then_step(top, on_f, on_r, w),
                                            |t: Value, w: World<'a>| (Ok(promise), w),
                                        ),
                                ),
                        ),
                ),
        )
    }
}

/// Settles the promise of an import whose module was loaded and linked: with the namespace, when
/// the module is evaluated. A deferred import evaluates only what waits.
pub fn evaluate_import<'h, 'a, H: Host<'a>>(
    s: &mut Session<'h, 'a, H>,
    plan: &'a Vec<PlanModule>,
    m: usize,
    promise: Value,
    defer: bool,
    depth: u64,
) -> (out: Result<Value, Abrupt<'a>>)
    ensures
        final(s).continues(*old(s)),
        forall|answers: Answers<'a>| #[trigger]
            final(s).agrees(answers) ==> old(s).agrees(answers) && (out, final(s).world(answers))
                == evaluate_import_step(plan, m, promise, defer, depth, old(s).world(answers)),
    decreases depth, plan, 2nat, 0nat, 7nat, 0nat,
{
    if defer {
        s.forget();
        let r: Result<(), Abrupt<'a>> = evaluate_async_subgraph(s, plan, m, u64::MAX, depth);
        match r {
            Ok(_) => {
                let ns: Value = make_deferred_ns(s, m)?;
                let u: () = resolve_promise(s, promise, ns)?;
                return Ok(promise);
            },
            Err(Abrupt::Throw(e)) => {
                let u: () = reject_promise(s, promise, e)?;
                return Ok(promise);
            },
            Err(a) => {
                return Err(a);
            },
        }
    } else {
        let top: Value = evaluate_module_dynamic(s, plan, m, depth)?;
        let ns: Value = s.value(Request::Namespace { module: m as u64 })?;
        let on_f: Value = s.value(Request::ImportHandler { promise, namespace: Some(ns) })?;
        let on_r: Value = s.value(Request::ImportHandler { promise, namespace: None })?;
        let t: Value = promise_then(s, top, on_f, on_r)?;
        return Ok(promise);
    }
}

/// What is done with an import's promise once its module was evaluated.
pub open spec fn dynamic_import_fulfil_step<'a>(
    promise: Value,
    namespace: Value,
    w: World<'a>,
) -> Step<'a, Value>
{
    next(
        resolve_promise_step(promise, namespace, w),
        |u: (), w: World<'a>| (Ok(Value::Undefined), w),
    )
}

/// What is done with an import's promise once its module was evaluated.
pub fn dynamic_import_fulfil<'h, 'a, H: Host<'a>>(
    s: &mut Session<'h, 'a, H>,
    promise: Value,
    namespace: Value,
) -> (out: Result<Value, Abrupt<'a>>)
    ensures
        final(s).continues(*old(s)),
        forall|answers: Answers<'a>| #[trigger]
            final(s).agrees(answers) ==> old(s).agrees(answers) && (out, final(s).world(answers))
                == dynamic_import_fulfil_step(promise, namespace, old(s).world(answers)),
{
    let u: () = resolve_promise(s, promise, namespace)?;
    return Ok(Value::Undefined);
}

/// What is done with an import's promise when evaluating its module has failed.
pub open spec fn dynamic_import_reject_step<'a>(
    promise: Value,
    reason: Value,
    w: World<'a>,
) -> Step<'a, Value>
{
    next(
        reject_promise_step(promise, reason, w),
        |u: (), w: World<'a>| (Ok(Value::Undefined), w),
    )
}

/// What is done with an import's promise when evaluating its module has failed.
pub fn dynamic_import_reject<'h, 'a, H: Host<'a>>(
    s: &mut Session<'h, 'a, H>,
    promise: Value,
    reason: Value,
) -> (out: Result<Value, Abrupt<'a>>)
    ensures
        final(s).continues(*old(s)),
        forall|answers: Answers<'a>| #[trigger]
            final(s).agrees(answers) ==> old(s).agrees(answers) && (out, final(s).world(answers))
                == dynamic_import_reject_step(promise, reason, old(s).world(answers)),
{
    let u: () = reject_promise(s, promise, reason)?;
    return Ok(Value::Undefined);
}

/// Links a module that was loaded for an import, or fails as loading it did.
pub open spec fn link_import_step<'a>(
    loaded: Option<&'a Result<Loaded, LoadError>>,
    w: World<'a>,
) -> Step<'a, ()>
{
    match loaded {
        Some(Ok(l)) => link_modules_step(&l.order, &l.plan, w),
        Some(Err(e)) => {
            let t: Value = w.next_text();
            let w = w.add_text(load_text(e@));
            next(
                asks(Request::MakeError { kind: ErrorKind::TypeError, message: t }, w),
                |v: Value, w: World<'a>| (Err(Abrupt::Throw(v)), w),
            )
        },
        None => (Err(Abrupt::Throw(Value::Undefined)), w),
    }
}

/// Links a module that was loaded for an import, or fails as loading it did.
pub fn link_import<'h, 'a, H: Host<'a>>(
    s: &mut Session<'h, 'a, H>,
    loaded: Option<&'a Result<Loaded, LoadError>>,
) -> (out: Result<(), Abrupt<'a>>)
    ensures
        final(s).continues(*old(s)),
        forall|answers: Answers<'a>| #[trigger]
            final(s).agrees(answers) ==> old(s).agrees(answers) && (out, final(s).world(answers))
                == link_import_step(loaded, old(s).world(answers)),
{
    match loaded {
        Some(Ok(l)) => {
            return link_modules(s, &l.order, &l.plan);
        },
        Some(Err(e)) => {
            let t: Value = s.add_text(e.message());
            let v: Value = s.value(Request::MakeError { kind: ErrorKind::TypeError, message: t })?;
            return Err(Abrupt::Throw(v));
        },
        None => {
            return Err(Abrupt::Throw(Value::Undefined));
        },
    }
}

/// A dynamic import, once its module was loaded or that failed: the module is linked, and the
/// promise is settled when it is evaluated. What goes wrong rejects the promise.
pub open spec fn dynamic_import_step<'a>(
    loaded: Result<Option<&'a Result<Loaded, LoadError>>, Abrupt<'a>>,
    defer: bool,
    depth: u64,
    w: World<'a>,
) -> Step<'a, Value>
    decreases depth, loaded, 3nat, 0nat, 0nat, 0nat,
{
    next(
        new_promise_step(w),
        |promise: Value, w: World<'a>|
            match loaded {
                Ok(found) => {
                    let (linked, w) = link_import_step(found, w);
                    match linked {
                        Ok(_) => {
                            match found {
                                Some(Ok(l)) => {
                                    if depth == 0 {
                                        throws(
                                            ErrorKind::RangeError,
                                            "Maximum call stack size exceeded",
                                            w,
                                        )
                                    } else {
                                        evaluate_import_step(
                                            &l.plan,
                                            l.place,
                                            promise,
                                            defer,
                                            (depth - 1) as u64,
                                            w,
                                        )
                                    }
                                },
                                _ => (Ok(promise), w),
                            }
                        },
                        Err(Abrupt::Throw(reason)) => {
                            next(
                                reject_promise_step(promise, reason, w),
                                |u: (), w: World<'a>| (Ok(promise), w),
                            )
                        },
                        Err(a) => (Err(a), w),
                    }
                },
                Err(Abrupt::Throw(reason)) => {
                    next(
                        reject_promise_step(promise, reason, w),
                        |u: (), w: World<'a>| (Ok(promise), w),
                    )
                },
                Err(a) => (Err(a), w),
            },
    )
}

/// A dynamic import, once its module was loaded or that failed: the module is linked, and the
/// promise is settled when it is evaluated. What goes wrong rejects the promise.
pub fn dynamic_import<'h, 'a, H: Host<'a>>(
    s: &mut Session<'h, 'a, H>,
    loaded: Result<Option<&'a Result<Loaded, LoadError>>, Abrupt<'a>>,
    defer: bool,
    depth: u64,
) -> (out: Result<Value, Abrupt<'a>>)
    ensures
        final(s).continues(*old(s)),
        forall|answers: Answers<'a>| #[trigger]
            final(s).agrees(answers) ==> old(s).agrees(answers) && (out, final(s).world(answers))
                == dynamic_import_step(loaded, defer, depth, old(s).world(answers)),
    decreases depth, loaded, 3nat, 0nat, 0nat, 0nat,
{
    let promise: Value = new_promise(s)?;
    match loaded {
        Ok(found) => {
            let linked: Result<(), Abrupt<'a>> = link_import(s, found);
            match linked {
                Ok(_) => {
                    match found {
                        Some(Ok(l)) => {
                            if depth == 0 {
                                return throw(
                                    s,
                                    ErrorKind::RangeError,
                                    "Maximum call stack size exceeded",
                                );
                            } else {
                                return evaluate_import(
                                    s,
                                    &l.plan,
                                    l.place,
                                    promise,
                                    defer,
                                    depth - 1,
                                );
                            }
                        },
                        _ => {
                            return Ok(promise);
                        },
                    }
                },
                Err(Abrupt::Throw(reason)) => {
                    let u: () = reject_promise(s, promise, reason)?;
                    return Ok(promise);
                },
                Err(a) => {
                    return Err(a);
                },
            }
        },
        Err(Abrupt::Throw(reason)) => {
            let u: () = reject_promise(s, promise, reason)?;
            return Ok(promise);
        },
        Err(a) => {
            return Err(a);
        },
    }
}

} // verus!
