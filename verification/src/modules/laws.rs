//! What holds of every evaluation of modules, whatever the host answers.
use vstd::prelude::*;

use crate::interp::session::{Abrupt, Value, World};
use crate::modules::evaluate::{
    async_module_rejected_step, evaluate_module_step, inner_module_evaluation_async_step,
    make_deferred_ns_step,    promise_module_step,
};
use crate::modules::progress::PlanModule;

verus! {

/// A module that was evaluated does not run again.
pub proof fn modules_run_once<'a>(
    plan: &'a Vec<PlanModule>,
    m: usize,
    fuel: u64,
    depth: u64,
    w: World<'a>,
)
    requires
        w.module(m).evaluated,
    ensures
        w.module(m).error is None ==> evaluate_module_step(plan, m, fuel, depth, w) == (
            Ok::<(), Abrupt<'a>>(()),
            w,
        ),
        inner_module_evaluation_async_step(plan, m, fuel, depth, w) == (Ok::<(), Abrupt<'a>>(()), w),
{
}

/// A module that the evaluation has come by is not entered a second time.
pub proof fn modules_are_entered_once<'a>(
    plan: &'a Vec<PlanModule>,
    m: usize,
    fuel: u64,
    depth: u64,
    w: World<'a>,
)
    requires
        w.module(m).started,
    ensures
        inner_module_evaluation_async_step(plan, m, fuel, depth, w) == (Ok::<(), Abrupt<'a>>(()), w),
{
}

/// A module that has failed fails again with the same error, and nothing runs for it.
pub proof fn failed_modules_fail_again<'a>(
    plan: &'a Vec<PlanModule>,
    m: usize,
    fuel: u64,
    depth: u64,
    w: World<'a>,
)
    requires
        w.module(m).error is Some,
    ensures
        evaluate_module_step(plan, m, fuel, depth, w) == (
            Err::<(), Abrupt<'a>>(Abrupt::Throw(w.module(m).error->0)),
            w,
        ),
{
}

/// A module that is done cannot fail any more.
pub proof fn done_modules_stay_done<'a>(
    m: usize,
    e: Value,
    fuel: u64,
    w: World<'a>,
)
    requires
        w.module(m).evaluated || w.module(m).error is Some,
    ensures
        async_module_rejected_step(m, e, fuel, w) == (Ok::<(), Abrupt<'a>>(()), w),
{
}

/// The promise for a module's end is made once.
pub proof fn promises_of_modules_are_kept<'a>(m: usize, w: World<'a>)
    requires
        w.module(m).promise is Some,
    ensures
        promise_module_step(m, w) == (Ok::<(), Abrupt<'a>>(()), w),
{
}

/// The deferred namespace of a module is made once: asking again gives the same, and nothing is asked for.
pub proof fn deferred_namespaces_are_shared<'a>(m: usize, w: World<'a>)
    requires
        m < w.progress.modules.len(),
        make_deferred_ns_step(m, w).0 is Ok,
    ensures
        ({
            let (v, after) = make_deferred_ns_step(m, w);
            make_deferred_ns_step(m, after) == (v, after)
        }),
{
}

} // verus!
