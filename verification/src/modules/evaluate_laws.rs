//! What holds of the order in which modules are evaluated.
use vstd::prelude::*;

use crate::interp::exec::run_stmt_list_step;
use crate::interp::object_laws::complains;
use crate::interp::promise::{new_promise_step, reject_promise_step, resolve_promise_step};
use crate::interp::promise_laws::said;
use crate::interp::session::{Abrupt, Answer, Env, ErrorKind, Request, Value, World};
use crate::modules::evaluate::{
    account_dep_step, async_module_fulfilled_step, async_module_rejected_step,
    defer_async_deps_from, deps_ready_from, deps_ready_step, evaluate_async_subgraph_step,
    evaluate_batch_step, evaluate_deferred_step, evaluate_import_step, evaluate_module_step,
    execute_all_from, execute_all_step, finish_dynamic_module_step, finish_plain_step,
    inner_module_evaluation_async_step, least, make_deferred_ns_step, module_execute_async_step,
    promise_all_from, promise_all_step, promise_module_step, ready_for_sync_step,
    run_available_step, run_module_body_step, settled_promise_step, subgraph_deps_from,
    subgraph_deps_step, visit_deferred_step, visit_deps_from, visit_deps_step,
};
use crate::modules::instantiate::{
    bind_links_step, link_module_step, link_modules_from, open_module_step, Linking,
};
use crate::modules::progress::{
    by_order, gathers, inserted, plan_waits, ModState, PlanModule, ProgressView,
};

verus! {

// ---- the walk

/// A module that enters the walk is on top of the stack with a number of its own, from which it leads back
/// to itself only; the other modules stay as they are.
pub proof fn modules_enter_the_walk(p: ProgressView, m: usize, other: usize)
    requires
        m < p.modules.len(),
        other != m,
    ensures
        ({
            let q = p.entered(m);
            &&& q.state(m).started
            &&& q.state(m).on_stack
            &&& q.state(m).index == p.next_index
            &&& q.state(m).ancestor == q.state(m).index
            &&& q.state(m).pending == p.state(m).pending
            &&& q.stack.last() == m
            &&& q.stack.drop_last() =~= p.stack
            &&& q.next_index > p.next_index || p.next_index == u64::MAX
            &&& q.state(other) == p.state(other)
            &&& q.waits == p.waits
        }),
{
}

/// A module that waits for another counts one more, and is the last of those that wait for the other.
pub proof fn waits_are_counted(p: ProgressView, parent: usize, child: usize)
    requires
        parent < p.modules.len(),
        p.state(parent).pending < u64::MAX,
    ensures
        ({
            let q = p.waiting(parent, child);
            &&& q.state(parent).pending == p.state(parent).pending + 1
            &&& q.parents(child) =~= p.parents(child).push(parent)
            &&& q.state(parent).evaluated == p.state(parent).evaluated
        }),
{
    let q = p.waiting(parent, child);
    assert(q.waits.last() == (child, parent));
    lemma_parents_kept(p, q, child, p.waits.len());
}

proof fn lemma_parents_kept(p: ProgressView, q: ProgressView, m: usize, n: nat)
    requires
        n <= p.waits.len() <= q.waits.len(),
        forall|k: int| 0 <= k < p.waits.len() ==> p.waits[k] == q.waits[k],
    ensures
        q.parents_from(m, n) == p.parents_from(m, n),
    decreases n,
{
    if n > 0 {
        lemma_parents_kept(p, q, m, (n - 1) as nat);
    }
}

/// Modules that take a place among those that wait are numbered in that order.
pub proof fn places_count_up(p: ProgressView, a: usize, b: usize)
    requires
        a < p.modules.len(),
        b < p.modules.len(),
        a != b,
        p.next_order < u64::MAX - 1,
    ensures
        ({
            let q = p.ordered(a).ordered(b);
            q.state(a).order matches Some(x) && (q.state(b).order matches Some(y) && p.next_order < x < y)
        }),
{
}

/// A module that leads back to itself only completes its cycle: it is off the stack, and so is all above it,
/// and each belongs to the cycle of the module. One that leads further back stays.
pub proof fn cycles_are_completed(p: ProgressView, m: usize)
    requires
        m < p.modules.len(),
        p.state(m).on_stack,
        p.stack.len() > 0,
    ensures
        p.state(m).ancestor != p.state(m).index ==> p.left(m) == p,
        p.state(m).ancestor == p.state(m).index && p.stack.last() == m ==> ({
            let q = p.left(m);
            &&& !q.state(m).on_stack
            &&& q.state(m).root == Some(m)
            &&& q.stack =~= p.stack.drop_last()
        }),
        p.state(m).ancestor == p.state(m).index && p.stack.len() > 1 && p.stack.last() != m
            && p.stack[p.stack.len() - 2] == m && p.stack.last() < p.modules.len() ==> ({
            let q = p.left(m);
            let above = p.stack.last();
            &&& !q.state(m).on_stack
            &&& !q.state(above).on_stack
            &&& q.state(m).root == Some(m)
            &&& q.state(above).root == Some(m)
            &&& q.stack =~= p.stack.drop_last().drop_last()
        }),
{
    reveal_with_fuel(ProgressView::popped, 3);
    if p.stack.len() > 1 {
        assert(p.stack.drop_last().last() == p.stack[p.stack.len() - 2]);
    }
}

/// A dependency on the stack belongs to the same cycle: the module leads back at least as far as it does, and
/// waits for it where it waits itself.
pub proof fn cycles_are_noticed<'a>(m: usize, dep: usize, fuel: u64, w: World<'a>)
    requires
        m != dep,
        m < w.progress.modules.len(),
        w.module(dep).on_stack,
        w.module(m).pending < u64::MAX,
    ensures
        ({
            let (r, after) = account_dep_step(m, dep, fuel, w);
            let waits = w.module(dep).order is Some && !w.module(dep).evaluated;
            &&& r == Ok::<bool, Abrupt<'a>>(true)
            &&& after.module(m).ancestor <= w.module(m).ancestor
            &&& after.module(m).ancestor <= w.module(dep).ancestor
            &&& after.module(m).ancestor == w.module(m).ancestor || after.module(m).ancestor == w.module(
                dep,
            ).ancestor
            &&& after.module(m).pending == w.module(m).pending + (if waits {
                1int
            } else {
                0int
            })
            &&& after.waits_for(m, dep) || !waits
        }),
{
    let st = w.module(m);
    let d = w.module(dep);
    let w1 = w.set_module(m, ModState { ancestor: least(st.ancestor, d.ancestor), ..st });
    let w2 = w1.wait_for(m, dep);
    assert(w2.progress.waits.last() == (dep, m));
}

/// A dependency that is complete counts as the first module of its cycle: what that failed with fails the
/// module, which is not evaluated further; where that still waits the module waits for it; and else the
/// evaluation just goes on.
pub proof fn dependencies_count_as_their_cycle<'a>(
    m: usize,
    dep: usize,
    root: usize,
    h: u64,
    fuel: u64,
    w: World<'a>,
)
    requires
        !w.module(dep).on_stack,
        w.module(dep).root == Some(root) || (w.module(dep).root is None && root == dep),
        m < w.progress.modules.len(),
        w.module(m).pending < u64::MAX,
    ensures
        ({
            let (r, after) = account_dep_step(m, dep, fuel, w);
            &&& w.module(root).error is None && !w.module(root).evaluated && w.module(root).order is Some
                ==> r == Ok::<bool, Abrupt<'a>>(true) && after.module(m).pending == w.module(m).pending + 1
                && after.waits_for(m, root)
            &&& w.module(root).error is None && (w.module(root).evaluated || w.module(root).order is None)
                ==> r == Ok::<bool, Abrupt<'a>>(true) && after == w
            &&& w.module(root).error matches Some(e) ==> ({
                let (x, w1) = async_module_rejected_step(m, e, fuel, w.leave_module(m));
                x is Ok ==> r == Ok::<bool, Abrupt<'a>>(false) && after == w1
            })
        }),
{
    let w2 = w.wait_for(m, root);
    assert(w2.progress.waits.last() == (root, m));
}

/// The dependencies of a module are evaluated in their order, and each is taken into account behind its
/// evaluation; the first that ends the evaluation ends it for those behind it too.
pub proof fn dependencies_are_visited_in_order<'a>(
    deps: &'a Vec<(usize, bool)>,
    plan: &'a Vec<PlanModule>,
    m: usize,
    fuel: u64,
    depth: u64,
    i: nat,
    w: World<'a>,
)
    ensures
        i >= deps@.len() ==> visit_deps_from(deps, plan, m, fuel, depth, i, w) == (
            Ok::<bool, Abrupt<'a>>(true),
            w,
        ),
        i < deps@.len() && !deps@[i as int].1 ==> ({
            let dep = deps@[i as int].0;
            let (u, w1) = inner_module_evaluation_async_step(plan, dep, fuel, depth, w);
            let (on, w2) = account_dep_step(m, dep, fuel, w1);
            let all = visit_deps_from(deps, plan, m, fuel, depth, i, w);
            &&& u is Ok && on == Ok::<bool, Abrupt<'a>>(true) ==> all == visit_deps_from(
                deps,
                plan,
                m,
                fuel,
                depth,
                i + 1,
                w2,
            )
            &&& u is Ok && on == Ok::<bool, Abrupt<'a>>(false) ==> all == (
                Ok::<bool, Abrupt<'a>>(false),
                w2,
            )
            &&& u matches Err(a) ==> all == (Err::<bool, Abrupt<'a>>(a), w1)
        }),
        i < deps@.len() && deps@[i as int].1 ==> ({
            let (u, w1) = visit_deferred_step(plan, m, deps@[i as int].0, fuel, depth, w);
            u is Ok ==> visit_deps_from(deps, plan, m, fuel, depth, i, w) == visit_deps_from(
                deps,
                plan,
                m,
                fuel,
                depth,
                i + 1,
                w1,
            )
        }),
{
}

/// A module runs behind its dependencies, and only where it waits for none of them: one that waits takes its
/// place among those that wait, and nothing of it runs. Where the dependencies end the evaluation, the module
/// neither runs nor waits.
pub proof fn modules_run_behind_their_dependencies<'a>(
    plan: &'a Vec<PlanModule>,
    m: usize,
    fuel: u64,
    depth: u64,
    w: World<'a>,
)
    requires
        fuel > 0,
        m < plan@.len(),
        m < w.progress.modules.len(),
        !w.module(m).started,
        !w.module(m).evaluated,
    ensures
        ({
            let (on, w1) = visit_deps_step(
                &plan@[m as int].deps,
                plan,
                m,
                (fuel - 1) as u64,
                depth,
                w.enter_module(m),
            );
            let all = inner_module_evaluation_async_step(plan, m, fuel, depth, w);
            &&& on == Ok::<bool, Abrupt<'a>>(false) ==> all == (Ok::<(), Abrupt<'a>>(()), w1)
            &&& on == Ok::<bool, Abrupt<'a>>(true) && w1.module(m).pending > 0 ==> all == (
                Ok::<(), Abrupt<'a>>(()),
                w1.order_module(m).leave_module(m),
            )
            &&& on == Ok::<bool, Abrupt<'a>>(true) && w1.module(m).pending == 0 ==> ({
                let start = if plan@[m as int].waits {
                    w1.order_module(m)
                } else {
                    w1
                };
                let (x, w2) = module_execute_async_step(plan, m, fuel, depth, start);
                x is Ok ==> all == (Ok::<(), Abrupt<'a>>(()), w2.leave_module(m))
            })
        }),
{
}

// ---- running

/// The body of a module runs in the module's own scope, as strict code; the code around it is as strict
/// afterwards as before. A body that may wait is run by the host, which says whether it waits now.
pub proof fn bodies_run_in_their_scope<'a>(
    plan: &'a Vec<PlanModule>,
    m: usize,
    depth: u64,
    w: World<'a>,
)
    requires
        m < plan@.len(),
        depth > 0,
    ensures
        ({
            let body = &*plan@[m as int].body;
            let env = plan@[m as int].env;
            let (x, ran) = run_stmt_list_step(
                body,
                env,
                (depth - 1) as u64,
                World { strict: true, ..w },
            );
            let (r, after) = run_module_body_step(plan, m, false, depth, w);
            &&& after == (World { strict: w.strict, ..ran })
            &&& x is Ok ==> r == Ok::<bool, Abrupt<'a>>(false)
            &&& x matches Err(a) ==> r == Err::<bool, Abrupt<'a>>(a)
            &&& run_module_body_step(plan, m, true, depth, w).1.asked == w.asked.push(
                Request::RunWaiting { module: m as u64, body, env },
            )
            &&& said(w, w.asked.len()) matches Answer::Flag(b) ==> run_module_body_step(
                plan,
                m,
                true,
                depth,
                w,
            ).0 == Ok::<bool, Abrupt<'a>>(b)
        }),
{
}

/// A module whose body does not wait is finished as its body ended. One whose body may wait is finished where
/// the body came to its end, with its error if it has one, and is not finished while the body waits.
pub proof fn bodies_finish_their_module<'a>(
    plan: &'a Vec<PlanModule>,
    m: usize,
    fuel: u64,
    depth: u64,
    w: World<'a>,
)
    requires
        fuel > 0,
    ensures
        ({
            let start = w.set_module(m, ModState { evaluating: true, ..w.module(m) });
            let (r, w1) = run_module_body_step(plan, m, plan_waits(plan@, m), depth, start);
            let all = module_execute_async_step(plan, m, fuel, depth, w);
            let less = (fuel - 1) as u64;
            &&& !plan_waits(plan@, m) ==> all == finish_plain_step(m, r, fuel, w1)
            &&& plan_waits(plan@, m) && r == Ok::<bool, Abrupt<'a>>(true) ==> all == (
                Ok::<(), Abrupt<'a>>(()),
                w1,
            )
            &&& plan_waits(plan@, m) && r == Ok::<bool, Abrupt<'a>>(false) ==> all
                == finish_dynamic_module_step(plan, m, None, less, depth, w1)
            &&& plan_waits(plan@, m) ==> (r matches Err(Abrupt::Throw(e)) ==> all
                == finish_dynamic_module_step(plan, m, Some(e), less, depth, w1))
        }),
{
}

/// A module whose body could wait and has come to its end is evaluated; with an error it fails with it.
pub proof fn waiting_modules_finish<'a>(
    plan: &'a Vec<PlanModule>,
    m: usize,
    e: Value,
    fuel: u64,
    depth: u64,
    w: World<'a>,
)
    requires
        m < w.progress.modules.len(),
    ensures
        ({
            let st = w.module(m);
            let done = w.set_module(m, ModState { evaluated: true, evaluating: false, ..st });
            let failed = w.set_module(m, ModState { evaluated: false, ..st });
            &&& finish_dynamic_module_step(plan, m, None, fuel, depth, w) == async_module_fulfilled_step(
                plan,
                m,
                fuel,
                depth,
                done,
            )
            &&& finish_dynamic_module_step(plan, m, Some(e), fuel, depth, w)
                == async_module_rejected_step(m, e, fuel, failed)
        }),
{
}

/// A module that is done resolves its own promise with `undefined`, and then those run that have become
/// available, in their order, but for those that were settled meanwhile.
pub proof fn done_modules_let_others_run<'a>(
    plan: &'a Vec<PlanModule>,
    m: usize,
    p: Value,
    fuel: u64,
    depth: u64,
    w: World<'a>,
)
    requires
        fuel > 0,
    ensures
        w.module(m).promise == Some(p) ==> ({
            let (u, w1) = resolve_promise_step(p, Value::Undefined, w);
            u is Ok ==> async_module_fulfilled_step(plan, m, fuel, depth, w) == run_available_step(
                plan,
                m,
                fuel,
                depth,
                w1,
            )
        }),
        w.module(m).promise is None ==> async_module_fulfilled_step(plan, m, fuel, depth, w)
            == run_available_step(plan, m, fuel, depth, w),
        ({
            let (ready, w1) = w.available(plan@, m);
            run_available_step(plan, m, fuel, depth, w) == execute_all_step(
                ready,
                plan,
                (fuel - 1) as u64,
                depth,
                w1,
            )
        }),
{
}

/// Modules that have become available run one after the other, but for those that were settled meanwhile.
pub proof fn available_modules_run_in_order<'a>(
    ready: Seq<usize>,
    plan: &'a Vec<PlanModule>,
    fuel: u64,
    depth: u64,
    i: nat,
    w: World<'a>,
)
    ensures
        i >= ready.len() ==> execute_all_from(ready, plan, fuel, depth, i, w) == (
            Ok::<(), Abrupt<'a>>(()),
            w,
        ),
        i < ready.len() ==> ({
            let m = ready[i as int];
            let settled = w.module(m).evaluated || w.module(m).error is Some;
            let (u, w1) = module_execute_async_step(plan, m, fuel, depth, w);
            &&& settled ==> execute_all_from(ready, plan, fuel, depth, i, w) == execute_all_from(
                ready,
                plan,
                fuel,
                depth,
                i + 1,
                w,
            )
            &&& !settled && u is Ok ==> execute_all_from(ready, plan, fuel, depth, i, w)
                == execute_all_from(ready, plan, fuel, depth, i + 1, w1)
        }),
{
}

/// When a module is done, each that waits for it waits for one fewer. It becomes available when it waits for
/// nothing more, and where its own body does not wait, so do those that wait for it; one that is settled is
/// passed over.
pub proof fn waits_come_to_an_end(
    p: ProgressView,
    plan: Seq<PlanModule>,
    parents: Seq<usize>,
    i: nat,
    out: Seq<(u64, usize)>,
    fuel: u64,
)
    requires
        i < parents.len(),
    ensures
        ({
            let m = parents[i as int];
            let st = p.state(m);
            let passed = st.evaluated || st.error is Some || st.pending == 0;
            let fewer = p.with_state(m, ModState { pending: (st.pending - 1) as u64, ..st });
            let all = gathers(p, plan, parents, i, out, fuel);
            let place = if st.order is Some {
                st.order->0
            } else {
                u64::MAX
            };
            &&& passed ==> all == gathers(p, plan, parents, i + 1, out, fuel)
            &&& !passed && st.pending > 1 ==> all == gathers(fewer, plan, parents, i + 1, out, fuel)
            &&& !passed && st.pending == 1 && plan_waits(plan, m) ==> all == gathers(
                fewer,
                plan,
                parents,
                i + 1,
                out.push((place, m)),
                fuel,
            )
            &&& !passed && st.pending == 1 && !plan_waits(plan, m) && fuel > 0 ==> ({
                let (q, more) = gathers(
                    fewer,
                    plan,
                    fewer.parents(m),
                    0,
                    out.push((place, m)),
                    (fuel - 1) as u64,
                );
                all == gathers(q, plan, parents, i + 1, more, fuel)
            })
        }),
        gathers(p, plan, parents, parents.len(), out, fuel) == (p, out),
{
}

/// Modules that have become available are put in the order of their places: the list is sorted, and holds
/// each module as often as it was given.
pub proof fn available_modules_are_sorted(v: Seq<(u64, usize)>, n: nat)
    requires
        n <= v.len(),
    ensures
        forall|a: int, b: int|
            0 <= a <= b < by_order(v, n).len() ==> by_order(v, n)[a].0 <= by_order(v, n)[b].0,
        by_order(v, n).to_multiset() =~= v.take(n as int).to_multiset(),
    decreases n,
{
    if n > 0 {
        available_modules_are_sorted(v, (n - 1) as nat);
        let w = by_order(v, (n - 1) as nat);
        lemma_inserted(w, v[n - 1], w.len());
        assert(v.take(n as int) =~= v.take(n - 1).push(v[n - 1]));
        vstd::seq_lib::to_multiset_insert(v.take(n - 1), n - 1, v[n - 1]);
        assert(v.take(n as int) =~= v.take(n - 1).insert(n - 1, v[n - 1]));
    } else {
        assert(v.take(0) =~= Seq::empty());
        assert(by_order(v, 0) =~= Seq::empty());
    }
}

proof fn lemma_inserted(v: Seq<(u64, usize)>, x: (u64, usize), n: nat)
    requires
        n <= v.len(),
        forall|a: int, b: int| 0 <= a <= b < v.len() ==> v[a].0 <= v[b].0,
        forall|a: int| n <= a < v.len() ==> x.0 < v[a].0,
    ensures
        forall|a: int, b: int|
            0 <= a <= b < inserted(v, x, n).len() ==> inserted(v, x, n)[a].0 <= inserted(v, x, n)[b].0,
        inserted(v, x, n).to_multiset() =~= v.to_multiset().insert(x),
    decreases n,
{
    if n == 0 {
        vstd::seq_lib::to_multiset_insert(v, 0, x);
    } else if v[n - 1].0 <= x.0 {
        vstd::seq_lib::to_multiset_insert(v, n as int, x);
    } else {
        lemma_inserted(v, x, (n - 1) as nat);
    }
}

// ---- promises and deferral

/// The promises for modules are made before any of them runs, one for each that has none and is not done.
pub proof fn promises_come_first<'a>(
    plan: &'a Vec<PlanModule>,
    m: usize,
    depth: u64,
    w: World<'a>,
)
    requires
        m < plan@.len(),
    ensures
        ({
            let (p, w1) = promise_all_step(plan@[m as int].eager@, w);
            p is Ok ==> evaluate_batch_step(plan, m, depth, w) == inner_module_evaluation_async_step(
                plan,
                m,
                u64::MAX,
                depth,
                w1,
            )
        }),
{
}

/// The promises for modules are made one after the other.
pub proof fn promises_are_made_in_order<'a>(modules: Seq<usize>, i: nat, w: World<'a>)
    requires
        i < modules.len(),
    ensures
        ({
            let (p, w1) = promise_module_step(modules[i as int], w);
            p is Ok ==> promise_all_from(modules, i, w) == promise_all_from(modules, i + 1, w1)
        }),
        promise_all_from(modules, modules.len(), w) == (Ok::<(), Abrupt<'a>>(()), w),
{
}

/// Of a deferred module only what waits is evaluated: a module that does not wait is passed through to its
/// dependencies that are not deferred themselves, and each module is come by once.
pub proof fn deferral_evaluates_what_waits<'a>(
    plan: &'a Vec<PlanModule>,
    m: usize,
    fuel: u64,
    depth: u64,
    w: World<'a>,
)
    requires
        fuel > 0,
        m < plan@.len(),
        !w.module(m).evaluated,
        !w.module(m).evaluating,
    ensures
        w.has_seen(m) ==> evaluate_async_subgraph_step(plan, m, fuel, depth, w) == (
            Ok::<(), Abrupt<'a>>(()),
            w,
        ),
        !w.has_seen(m) && !plan@[m as int].waits ==> evaluate_async_subgraph_step(
            plan,
            m,
            fuel,
            depth,
            w,
        ) == subgraph_deps_step(&plan@[m as int].deps, plan, (fuel - 1) as u64, depth, w.see(m)),
        !w.has_seen(m) && plan@[m as int].waits ==> ({
            let (p, w1) = promise_all_step(plan@[m as int].eager@, w.see(m));
            p is Ok ==> evaluate_async_subgraph_step(plan, m, fuel, depth, w)
                == inner_module_evaluation_async_step(plan, m, fuel, depth, w1)
        }),
        w.see(m).has_seen(m),
        !w.forget().has_seen(m),
{
    assert(w.see(m).progress.seen.last() == m);
}

/// Dependencies that are deferred themselves are not looked into.
pub proof fn deferred_dependencies_are_left<'a>(
    deps: &'a Vec<(usize, bool)>,
    plan: &'a Vec<PlanModule>,
    fuel: u64,
    depth: u64,
    i: nat,
    w: World<'a>,
)
    requires
        i < deps@.len(),
    ensures
        deps@[i as int].1 ==> subgraph_deps_from(deps, plan, fuel, depth, i, w) == subgraph_deps_from(
            deps,
            plan,
            fuel,
            depth,
            i + 1,
            w,
        ),
        !deps@[i as int].1 ==> ({
            let (u, w1) = evaluate_async_subgraph_step(plan, deps@[i as int].0, fuel, depth, w);
            u is Ok ==> subgraph_deps_from(deps, plan, fuel, depth, i, w) == subgraph_deps_from(
                deps,
                plan,
                fuel,
                depth,
                i + 1,
                w1,
            )
        }),
{
}

/// The module that defers others waits, once, for each of them that waits and is not done; what does not wait
/// is left alone.
pub proof fn deferring_modules_wait<'a>(
    reach: &'a Vec<usize>,
    plan: &'a Vec<PlanModule>,
    parent: usize,
    fuel: u64,
    depth: u64,
    i: nat,
    w: World<'a>,
)
    requires
        i < reach@.len(),
    ensures
        ({
            let m = reach@[i as int];
            let (p, w1) = promise_module_step(m, w);
            let (u, w2) = inner_module_evaluation_async_step(plan, m, fuel, depth, w1);
            let root = if w2.module(m).root is Some {
                w2.module(m).root->0
            } else {
                m
            };
            let r = w2.module(root);
            let waits = !w2.module(m).on_stack && r.error is None && !r.evaluated && r.order is Some
                && !w2.waits_for(parent, root);
            let all = defer_async_deps_from(reach, plan, parent, fuel, depth, i, w);
            &&& !plan_waits(plan@, m) ==> all == defer_async_deps_from(
                reach,
                plan,
                parent,
                fuel,
                depth,
                i + 1,
                w,
            )
            &&& plan_waits(plan@, m) && p is Ok && u is Ok ==> all == defer_async_deps_from(
                reach,
                plan,
                parent,
                fuel,
                depth,
                i + 1,
                if waits {
                    w2.wait_for(parent, root)
                } else {
                    w2
                },
            )
        }),
{
}

/// A deferred namespace is read: the module is evaluated at once where it can be, and else that is a
/// `TypeError`. A module that is done without an error is ready; one that is being evaluated, or that waits
/// itself, is not; and any other is if its dependencies are.
pub proof fn deferred_modules_are_evaluated_when_ready<'a>(
    plan: &'a Vec<PlanModule>,
    m: usize,
    fuel: u64,
    depth: u64,
    w: World<'a>,
)
    requires
        m < plan@.len(),
        fuel > 0,
        !w.has_seen(m),
    ensures
        ({
            let st = w.module(m);
            let r = ready_for_sync_step(plan, m, fuel, w);
            &&& st.evaluated && st.error is None ==> r.0 == Ok::<bool, Abrupt<'a>>(true)
            &&& st.evaluating && !(st.evaluated && st.error is None) ==> r.0 == Ok::<bool, Abrupt<'a>>(
                false,
            )
            &&& st.started && !st.evaluated ==> r.0 == Ok::<bool, Abrupt<'a>>(false)
            &&& !st.evaluated && plan@[m as int].waits ==> r.0 == Ok::<bool, Abrupt<'a>>(false)
            &&& !st.evaluated && !st.evaluating && !st.started && !plan@[m as int].waits ==> r
                == deps_ready_step(&plan@[m as int].deps, plan, (fuel - 1) as u64, w.see(m))
        }),
        ({
            let (ok, w1) = ready_for_sync_step(plan, m, u64::MAX, w.forget());
            let all = evaluate_deferred_step(plan, m, depth, w);
            &&& ok == Ok::<bool, Abrupt<'a>>(true) ==> all == evaluate_module_step(
                plan,
                m,
                u64::MAX,
                depth,
                w1,
            )
            &&& ok == Ok::<bool, Abrupt<'a>>(false) ==> !(all.0 is Ok) && complains(
                all.1,
                ErrorKind::TypeError,
            )
        }),
{
}

/// All dependencies must be ready: the first that is not makes the module not ready.
pub proof fn one_that_is_not_ready_suffices<'a>(
    deps: &'a Vec<(usize, bool)>,
    plan: &'a Vec<PlanModule>,
    fuel: u64,
    i: nat,
    w: World<'a>,
)
    requires
        i < deps@.len(),
    ensures
        ({
            let (ok, w1) = ready_for_sync_step(plan, deps@[i as int].0, fuel, w);
            &&& ok == Ok::<bool, Abrupt<'a>>(false) ==> deps_ready_from(deps, plan, fuel, i, w).0 == Ok::<
                bool,
                Abrupt<'a>,
            >(false)
            &&& ok == Ok::<bool, Abrupt<'a>>(true) ==> deps_ready_from(deps, plan, fuel, i, w)
                == deps_ready_from(deps, plan, fuel, i + 1, w1)
        }),
        deps_ready_from(deps, plan, fuel, deps@.len(), w) == (Ok::<bool, Abrupt<'a>>(true), w),
{
}

/// The promise for the end of a module that was just evaluated is its own; a module without one gets a new
/// one, which is rejected with the module's error, or fulfilled with `undefined`.
pub proof fn evaluated_modules_have_promises<'a>(m: usize, p: Value, h: u64, w: World<'a>)
    ensures
        w.module(m).promise == Some(p) ==> settled_promise_step(m, w) == (
            Ok::<Value, Abrupt<'a>>(p),
            w,
        ),
        w.module(m).promise is None && new_promise_step(w).0 == Ok::<Value, Abrupt<'a>>(Value::Obj(h)) ==> ({
            let w1 = new_promise_step(w).1;
            let r = settled_promise_step(m, w);
            &&& w.module(m).error matches Some(e) ==> ({
                let (u, w2) = reject_promise_step(Value::Obj(h), e, w1);
                u is Ok ==> r == (Ok::<Value, Abrupt<'a>>(Value::Obj(h)), w2)
            })
            &&& w.module(m).error is None ==> ({
                let (u, w2) = resolve_promise_step(Value::Obj(h), Value::Undefined, w1);
                u is Ok ==> r == (Ok::<Value, Abrupt<'a>>(Value::Obj(h)), w2)
            })
        }),
{
}

// ---- linking

/// In a module `this` is `undefined`, and `import.meta` is what was given.
pub proof fn modules_have_their_own_scope<'a>(meta: Value, w: World<'a>)
    requires
        w.limit > 0,
        w.scopes.scopes.len() < usize::MAX,
    ensures
        ({
            let (r, after) = open_module_step(meta, w);
            &&& r == Ok::<Env, Abrupt<'a>>(w.next_scope())
            &&& after.asked == w.asked
            &&& after.scopes.value_in(w.next_scope(), "%importmeta%"@) == meta
            &&& after.scopes.value_in(w.next_scope(), "this"@) == Value::Undefined
            &&& after.scopes.around(w.next_scope()) == Some(0usize) || w.scopes.scopes.len() == 0
        }),
{
    reveal_strlit("this");
    reveal_strlit("%importmeta%");
    assert("this"@.len() != "%importmeta%"@.len());
}

/// A module is linked by hoisting its body in its own scope, binding its imports there and building its
/// namespace; a fault in its exports or imports is a `SyntaxError`, and then no namespace is built.
pub proof fn modules_are_linked<'a>(
    m: &'a Linking,
    place: usize,
    plan: &'a Vec<PlanModule>,
    w: World<'a>,
)
    requires
        !(said(w, w.asked.len()) is Throw),
        !(said(w, w.asked.len()) is Return),
    ensures
        ({
            let body = &*m.body;
            let hoist = Request::HoistVars { stmts: body, env: m.env };
            let w1 = w.ask(hoist).1.declare_block(body, m.env).declare_default(body, m.env);
            let (r, after) = link_module_step(m, place, plan, w);
            &&& m.checked is Err ==> !(r is Ok) && after.asked.len() == w.asked.len() + 2
                && after.asked[w.asked.len() as int] == hoist && complains(after, ErrorKind::SyntaxError)
            &&& m.checked is Ok && m.links is Err ==> !(r is Ok) && complains(
                after,
                ErrorKind::SyntaxError,
            )
            &&& m.checked is Ok ==> (m.links matches Ok(links) ==> ({
                let (u, w2) = bind_links_step(&links, plan, m.env, w1);
                &&& u is Ok ==> after.asked == w2.asked.push(
                    Request::BuildNamespace { module: place as u64, exports: &m.exports },
                )
                &&& u matches Err(a) ==> r == Err::<(), Abrupt<'a>>(a)
            }))
        }),
{
}

/// Modules are linked in the order given, and the first that fails ends it.
pub proof fn modules_are_linked_in_order<'a>(
    all: &'a Vec<(usize, Linking)>,
    plan: &'a Vec<PlanModule>,
    i: nat,
    w: World<'a>,
)
    requires
        i < all@.len(),
    ensures
        ({
            let (u, w1) = link_module_step(&all@[i as int].1, all@[i as int].0, plan, w);
            &&& u is Ok ==> link_modules_from(all, plan, i, w) == link_modules_from(all, plan, i + 1, w1)
            &&& u matches Err(a) ==> link_modules_from(all, plan, i, w) == (
                Err::<(), Abrupt<'a>>(a),
                w1,
            )
        }),
        link_modules_from(all, plan, all@.len(), w) == (Ok::<(), Abrupt<'a>>(()), w),
{
}

/// A deferred import evaluates only what waits, and is fulfilled with the deferred namespace; where that
/// fails it is rejected with what was thrown.
pub proof fn deferred_imports_get_deferred_namespaces<'a>(
    plan: &'a Vec<PlanModule>,
    m: usize,
    promise: Value,
    depth: u64,
    w: World<'a>,
)
    ensures
        ({
            let (r, w1) = evaluate_async_subgraph_step(plan, m, u64::MAX, depth, w.forget());
            let (ns, w2) = make_deferred_ns_step(m, w1);
            let all = evaluate_import_step(plan, m, promise, true, depth, w);
            &&& r is Ok ==> (ns matches Ok(v) ==> ({
                let (u, w3) = resolve_promise_step(promise, v, w2);
                u is Ok ==> all == (Ok::<Value, Abrupt<'a>>(promise), w3)
            }))
            &&& r matches Err(Abrupt::Throw(e)) ==> ({
                let (u, w3) = reject_promise_step(promise, e, w1);
                u is Ok ==> all == (Ok::<Value, Abrupt<'a>>(promise), w3)
            })
        }),
{
}

/// A module that is not done and has no promise gets one, which is pending; one that is done or has a promise
/// stays as it is.
pub proof fn modules_get_one_promise<'a>(m: usize, h: u64, w: World<'a>)
    requires
        m < w.progress.modules.len(),
        said(w, w.asked.len()) == Answer::<'a>::Value(Value::Obj(h)),
    ensures
        w.module(m).evaluated || w.module(m).promise is Some ==> promise_module_step(m, w) == (
            Ok::<(), Abrupt<'a>>(()),
            w,
        ),
        !w.module(m).evaluated && w.module(m).promise is None ==> ({
            let (r, after) = promise_module_step(m, w);
            &&& r is Ok
            &&& after.asked == w.asked.push(Request::NewPromise)
            &&& after.module(m).promise == Some(Value::Obj(h))
            &&& after.module(m).evaluated == w.module(m).evaluated
            &&& after.module(m).error == w.module(m).error
        }),
{
}

} // verus!
