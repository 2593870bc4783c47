//! What the evaluation of modules needs to know of each, by their places.
use std::rc::Rc;
use vstd::prelude::*;

use crate::modules::graph::{Graph, Module};
use crate::modules::order::{
    collect_eager_graph, collect_graph, evaluation_order, first_deps, walk, WALK_DEPTH,
};
use crate::modules::progress::PlanModule;
use crate::modules::table::{holds_name, texts};
use crate::scan::awaits::{body_has_tla, stmts_await_from};

verus! {

/// The places of the modules with the first `n` keys; keys without a module are left out.
pub open spec fn places(g: &Graph, keys: Seq<Seq<char>>, n: nat) -> Seq<usize>
    decreases n,
{
    if n == 0 || n > keys.len() {
        Seq::empty()
    } else {
        match g.place(keys[n - 1]) {
            Some(p) => places(g, keys, (n - 1) as nat).push(p),
            None => places(g, keys, (n - 1) as nat),
        }
    }
}

fn find_places(g: &Graph, keys: &Vec<String>) -> (r: Vec<usize>)
    ensures
        r@ == places(g, texts(keys@), texts(keys@).len()),
{
    let mut out: Vec<usize> = Vec::new();
    let mut i: usize = 0;
    while i < keys.len()
        invariant
            i <= keys.len(),
            out@ == places(g, texts(keys@), i as nat),
        decreases keys.len() - i,
    {
        assert(texts(keys@)[i as int] == keys@[i as int]@);
        match g.find(keys[i].as_str()) {
            Some(p) => {
                out.push(p);
            },
            None => {},
        }
        i = i + 1;
    }
    out
}

/// The first `n` dependencies that are looked at, with whether each is only deferred.
pub open spec fn ordered_deps(g: &Graph, m: &Module, n: nat) -> Seq<(usize, bool)>
    decreases n,
{
    let keys = first_deps(m);
    if n == 0 || n > keys.len() {
        Seq::empty()
    } else {
        match g.place(keys[n - 1]) {
            Some(p) => ordered_deps(g, m, (n - 1) as nat).push(
                (p, texts(m.deferred_deps@).contains(keys[n - 1])),
            ),
            None => ordered_deps(g, m, (n - 1) as nat),
        }
    }
}

/// Those, and behind them the ones among the first `n` dependencies that are only deferred and were not
/// looked at.
pub open spec fn all_deps(g: &Graph, m: &Module, n: nat) -> Seq<(usize, bool)>
    decreases n,
{
    let keys = texts(m.dep_keys@);
    if n == 0 || n > keys.len() {
        ordered_deps(g, m, first_deps(m).len())
    } else if texts(m.deferred_deps@).contains(keys[n - 1]) && !first_deps(m).contains(keys[n - 1]) {
        match g.place(keys[n - 1]) {
            Some(p) => all_deps(g, m, (n - 1) as nat).push((p, true)),
            None => all_deps(g, m, (n - 1) as nat),
        }
    } else {
        all_deps(g, m, (n - 1) as nat)
    }
}

fn find_deps(g: &Graph, m: &Module) -> (r: Vec<(usize, bool)>)
    ensures
        r@ == all_deps(g, m, m.dep_keys@.len()),
{
    let order = evaluation_order(m);
    let mut out: Vec<(usize, bool)> = Vec::new();
    let mut i: usize = 0;
    while i < order.len()
        invariant
            i <= order.len(),
            texts(order@) == first_deps(m),
            out@ == ordered_deps(g, m, i as nat),
        decreases order.len() - i,
    {
        assert(texts(order@)[i as int] == order@[i as int]@);
        match g.find(order[i].as_str()) {
            Some(p) => {
                out.push((p, holds_name(&m.deferred_deps, order[i].as_str())));
            },
            None => {},
        }
        i = i + 1;
    }
    let mut k: usize = 0;
    while k < m.dep_keys.len()
        invariant
            k <= m.dep_keys.len(),
            texts(order@) == first_deps(m),
            out@ == all_deps(g, m, k as nat),
        decreases m.dep_keys.len() - k,
    {
        assert(texts(m.dep_keys@)[k as int] == m.dep_keys@[k as int]@);
        let key = m.dep_keys[k].as_str();
        if holds_name(&m.deferred_deps, key) && !holds_name(&order, key) {
            match g.find(key) {
                Some(p) => {
                    out.push((p, true));
                },
                None => {},
            }
        }
        k = k + 1;
    }
    out
}

/// Whether a plan is that of the module at a place, whose names are in a scope.
pub open spec fn planned(g: &Graph, place: usize, env: usize, r: PlanModule) -> bool {
    let m = &g.modules@[place as int];
    let reach = walk(g, m.key@, Seq::empty(), false, WALK_DEPTH);
    let eager = walk(g, m.key@, Seq::empty(), true, WALK_DEPTH);
    &&& r.body == m.body
    &&& r.env == env
    &&& r.deps@ == all_deps(g, m, m.dep_keys@.len())
    &&& r.waits == stmts_await_from(m.body@, 0)
    &&& r.reach@ == places(g, reach, reach.len())
    &&& r.eager@ == places(g, eager, eager.len())
}

/// What the evaluation needs to know of the module at a place, whose names are in a scope.
pub fn plan_module(g: &Graph, place: usize, env: usize) -> (r: PlanModule)
    requires
        place < g.modules@.len(),
    ensures
        planned(g, place, env, r),
{
    let m = &g.modules[place];
    let reach = collect_graph(g, m.key.as_str());
    let eager = collect_eager_graph(g, m.key.as_str());
    PlanModule {
        body: Rc::clone(&m.body),
        env,
        deps: find_deps(g, m),
        waits: body_has_tla(&m.body),
        reach: find_places(g, &reach),
        eager: find_places(g, &eager),
    }
}

} // verus!
