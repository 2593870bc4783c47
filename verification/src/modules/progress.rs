//! How far the evaluation of each module has come.
use std::rc::Rc;
use vstd::prelude::*;

use crate::ast::Stmt;
use crate::interp::session::Value;

verus! {

/// How far a module's evaluation has come.
#[derive(Clone, Copy, PartialEq, Eq, Structural, Debug)]
pub struct ModState {
    /// The evaluation has come by.
    pub started: bool,
    /// The body is running, or waits.
    pub evaluating: bool,
    pub evaluated: bool,
    pub error: Option<Value>,
    /// The promise for its end.
    pub promise: Option<Value>,
    /// How many dependencies it still waits for.
    pub pending: u64,
    /// Its place among the modules that wait.
    pub order: Option<u64>,
    /// Its number in the depth-first walk, and the least one that it leads back to.
    pub index: u64,
    pub ancestor: u64,
    pub on_stack: bool,
    /// The first module of its cycle.
    pub root: Option<usize>,
    /// Its deferred namespace.
    pub deferred: Option<Value>,
}

/// The state of a module that nothing has happened to.
pub open spec fn fresh_state() -> ModState {
    ModState {
        started: false,
        evaluating: false,
        evaluated: false,
        error: None,
        promise: None,
        pending: 0,
        order: None,
        index: 0,
        ancestor: 0,
        on_stack: false,
        root: None,
        deferred: None,
    }
}

fn new_state() -> (r: ModState)
    ensures
        r == fresh_state(),
{
    ModState {
        started: false,
        evaluating: false,
        evaluated: false,
        error: None,
        promise: None,
        pending: 0,
        order: None,
        index: 0,
        ancestor: 0,
        on_stack: false,
        root: None,
        deferred: None,
    }
}

/// The number after a number; the last one stays.
pub open spec fn bump(n: u64) -> u64 {
    if n < u64::MAX {
        (n + 1) as u64
    } else {
        n
    }
}

pub fn bumped(n: u64) -> (r: u64)
    ensures
        r == bump(n),
{
    if n < u64::MAX {
        n + 1
    } else {
        n
    }
}

/// The evaluation of all modules.
pub struct Progress {
    pub modules: Vec<ModState>,
    /// Pairs of a module and one that waits for it, in the order in which they began to.
    pub waits: Vec<(usize, usize)>,
    /// The modules of the depth-first walk whose cycles are not complete.
    pub stack: Vec<usize>,
    pub next_index: u64,
    pub next_order: u64,
    /// The modules that a search has come by.
    pub seen: Vec<usize>,
}

/// The evaluation of all modules.
#[verifier::ext_equal]
pub ghost struct ProgressView {
    pub modules: Seq<ModState>,
    pub waits: Seq<(usize, usize)>,
    pub stack: Seq<usize>,
    pub next_index: u64,
    pub next_order: u64,
    pub seen: Seq<usize>,
}

impl View for Progress {
    type V = ProgressView;

    open spec fn view(&self) -> ProgressView {
        ProgressView {
            modules: self.modules@,
            waits: self.waits@,
            stack: self.stack@,
            next_index: self.next_index,
            next_order: self.next_order,
            seen: self.seen@,
        }
    }
}

/// What a module needs for its evaluation.
pub struct PlanModule {
    /// The body and the scope that it runs in.
    pub body: Rc<Vec<Stmt>>,
    pub env: usize,
    /// The dependencies in the order in which they are looked at, and whether each is only deferred.
    pub deps: Vec<(usize, bool)>,
    /// The body waits.
    pub waits: bool,
    /// Every module that it depends on, and those of them that are not only deferred.
    pub reach: Vec<usize>,
    pub eager: Vec<usize>,
}

/// Whether the module at a place waits while it runs.
pub open spec fn plan_waits(plan: Seq<PlanModule>, m: usize) -> bool {
    m < plan.len() && plan[m as int].waits
}

pub fn body_waits(plan: &Vec<PlanModule>, m: usize) -> (r: bool)
    ensures
        r == plan_waits(plan@, m),
{
    m < plan.len() && plan[m].waits
}

impl ProgressView {
    pub open spec fn state(self, m: usize) -> ModState {
        if m < self.modules.len() {
            self.modules[m as int]
        } else {
            fresh_state()
        }
    }

    pub open spec fn with_state(self, m: usize, st: ModState) -> ProgressView {
        if m < self.modules.len() {
            ProgressView { modules: self.modules.update(m as int, st), ..self }
        } else {
            self
        }
    }

    /// A module enters the walk.
    pub open spec fn entered(self, m: usize) -> ProgressView {
        let p = self.with_state(
            m,
            ModState {
                started: true,
                index: self.next_index,
                ancestor: self.next_index,
                on_stack: true,
                ..self.state(m)
            },
        );
        ProgressView { next_index: bump(self.next_index), stack: p.stack.push(m), ..p }
    }

    /// A module waits for another.
    pub open spec fn waiting(self, parent: usize, child: usize) -> ProgressView {
        let st = self.state(parent);
        let p = self.with_state(parent, ModState { pending: bump(st.pending), ..st });
        ProgressView { waits: p.waits.push((child, parent)), ..p }
    }

    /// A module takes its place among those that wait.
    pub open spec fn ordered(self, m: usize) -> ProgressView {
        let n = bump(self.next_order);
        ProgressView {
            next_order: n,
            ..self.with_state(m, ModState { order: Some(n), ..self.state(m) })
        }
    }

    /// The cycle of a module is complete: the modules above it on the stack, and itself, belong to it.
    pub open spec fn popped(self, m: usize) -> ProgressView
        decreases self.stack.len(),
    {
        if self.stack.len() == 0 {
            self
        } else {
            let top = self.stack.last();
            let st = self.state(top);
            let p = ProgressView {
                stack: self.stack.drop_last(),
                ..self.with_state(top, ModState { on_stack: false, root: Some(m), ..st })
            };
            if top == m || p.stack.len() >= self.stack.len() {
                p
            } else {
                p.popped(m)
            }
        }
    }

    /// A module whose walk is over: if it is the first of its cycle, the cycle is complete.
    pub open spec fn left(self, m: usize) -> ProgressView {
        let st = self.state(m);
        if st.on_stack && st.ancestor == st.index {
            self.popped(m)
        } else {
            self
        }
    }

    /// The modules that wait for a module, among the first `n` pairs.
    pub open spec fn parents_from(self, m: usize, n: nat) -> Seq<usize>
        decreases n,
    {
        if n == 0 || n > self.waits.len() {
            Seq::empty()
        } else if self.waits[n - 1].0 == m {
            self.parents_from(m, (n - 1) as nat).push(self.waits[n - 1].1)
        } else {
            self.parents_from(m, (n - 1) as nat)
        }
    }

    /// The modules that wait for a module.
    pub open spec fn parents(self, m: usize) -> Seq<usize> {
        self.parents_from(m, self.waits.len())
    }
}

/// One parent no longer waits for a module: it becomes available when it waits for nothing more, and so
/// do the ones that wait for it where its own body does not wait.
pub open spec fn gathers(
    p: ProgressView,
    plan: Seq<PlanModule>,
    parents: Seq<usize>,
    i: nat,
    out: Seq<(u64, usize)>,
    fuel: u64,
) -> (ProgressView, Seq<(u64, usize)>)
    decreases fuel, parents.len() - i,
{
    if i >= parents.len() {
        (p, out)
    } else {
        let m = parents[i as int];
        let st = p.state(m);
        if st.evaluated || st.error is Some || st.pending == 0 {
            gathers(p, plan, parents, i + 1, out, fuel)
        } else {
            let p1 = p.with_state(m, ModState { pending: (st.pending - 1) as u64, ..st });
            if st.pending > 1 {
                gathers(p1, plan, parents, i + 1, out, fuel)
            } else {
                let order = match st.order {
                    Some(n) => n,
                    None => u64::MAX,
                };
                let out1 = out.push((order, m));
                if plan_waits(plan, m) || fuel == 0 {
                    gathers(p1, plan, parents, i + 1, out1, fuel)
                } else {
                    let (p2, out2) = gathers(p1, plan, p1.parents(m), 0, out1, (fuel - 1) as u64);
                    gathers(p2, plan, parents, i + 1, out2, fuel)
                }
            }
        }
    }
}

/// A list of pairs with one put in behind those that are not greater.
pub open spec fn inserted(v: Seq<(u64, usize)>, x: (u64, usize), n: nat) -> Seq<(u64, usize)>
    decreases n,
{
    if n == 0 || n > v.len() {
        v.insert(0, x)
    } else if v[n - 1].0 <= x.0 {
        v.insert(n as int, x)
    } else {
        inserted(v, x, (n - 1) as nat)
    }
}

/// The first `n` pairs in the order of their numbers; equal ones keep their order.
pub open spec fn by_order(v: Seq<(u64, usize)>, n: nat) -> Seq<(u64, usize)>
    decreases n,
{
    if n == 0 || n > v.len() {
        Seq::empty()
    } else {
        let w = by_order(v, (n - 1) as nat);
        inserted(w, v[n - 1], w.len())
    }
}

/// The modules of pairs.
pub open spec fn second_items(v: Seq<(u64, usize)>) -> Seq<usize> {
    v.map_values(|x: (u64, usize)| x.1)
}

fn insert_pair(v: &mut Vec<(u64, usize)>, x: (u64, usize))
    ensures
        final(v)@ == inserted(old(v)@, x, old(v)@.len()),
{
    let mut n: usize = v.len();
    while n > 0 && v[n - 1].0 > x.0
        invariant
            n <= v.len(),
            v@ == old(v)@,
            inserted(old(v)@, x, old(v)@.len()) == inserted(old(v)@, x, n as nat),
        decreases n,
    {
        n = n - 1;
    }
    v.insert(n, x);
}

fn sort_pairs(v: &Vec<(u64, usize)>) -> (r: Vec<usize>)
    ensures
        r@ == second_items(by_order(v@, v@.len())),
{
    let mut w: Vec<(u64, usize)> = Vec::new();
    let mut i: usize = 0;
    while i < v.len()
        invariant
            i <= v.len(),
            w@ == by_order(v@, i as nat),
        decreases v.len() - i,
    {
        insert_pair(&mut w, v[i]);
        i = i + 1;
    }
    let mut out: Vec<usize> = Vec::new();
    let mut k: usize = 0;
    while k < w.len()
        invariant
            k <= w.len(),
            out@ == second_items(w@).take(k as int),
        decreases w.len() - k,
    {
        out.push(w[k].1);
        assert(second_items(w@).take(k as int + 1) =~= second_items(w@).take(k as int).push(
            w@[k as int].1,
        ));
        k = k + 1;
    }
    assert(second_items(w@).take(w.len() as int) =~= second_items(w@));
    out
}

/// The progress of so many modules that nothing has happened to.
pub open spec fn no_progress(n: nat) -> ProgressView {
    ProgressView {
        modules: Seq::new(n, |i: int| fresh_state()),
        waits: Seq::empty(),
        stack: Seq::empty(),
        seen: Seq::empty(),
        next_index: 0,
        next_order: 0,
    }
}

impl Progress {
    /// The progress of so many modules that nothing has happened to.
    pub fn new(n: usize) -> (p: Self)
        ensures
            p@ == no_progress(n as nat),
    {
        let mut modules: Vec<ModState> = Vec::new();
        let mut i: usize = 0;
        while i < n
            invariant
                i <= n,
                modules@ == Seq::new(i as nat, |j: int| fresh_state()),
            decreases n - i,
        {
            modules.push(new_state());
            assert(modules@ =~= Seq::new((i + 1) as nat, |j: int| fresh_state()));
            i = i + 1;
        }
        let p = Progress {
            modules,
            waits: Vec::new(),
            stack: Vec::new(),
            next_index: 0,
            next_order: 0,
            seen: Vec::new(),
        };
        assert(p@.waits =~= Seq::empty());
        assert(p@.stack =~= Seq::empty());
        assert(p@.seen =~= Seq::empty());
        p
    }

    pub fn state(&self, m: usize) -> (r: ModState)
        ensures
            r == self@.state(m),
    {
        if m < self.modules.len() {
            self.modules[m]
        } else {
            new_state()
        }
    }

    pub fn with_state(&mut self, m: usize, st: ModState)
        ensures
            final(self)@ == old(self)@.with_state(m, st),
    {
        if m < self.modules.len() {
            self.modules.set(m, st);
        }
    }

    pub fn entered(&mut self, m: usize)
        ensures
            final(self)@ == old(self)@.entered(m),
    {
        let st = self.state(m);
        let n = self.next_index;
        self.with_state(m, ModState { started: true, index: n, ancestor: n, on_stack: true, ..st });
        self.next_index = bumped(n);
        self.stack.push(m);
    }

    pub fn waiting(&mut self, parent: usize, child: usize)
        ensures
            final(self)@ == old(self)@.waiting(parent, child),
    {
        let st = self.state(parent);
        self.with_state(parent, ModState { pending: bumped(st.pending), ..st });
        self.waits.push((child, parent));
    }

    pub fn ordered(&mut self, m: usize)
        ensures
            final(self)@ == old(self)@.ordered(m),
    {
        let n = bumped(self.next_order);
        let st = self.state(m);
        self.with_state(m, ModState { order: Some(n), ..st });
        self.next_order = n;
    }

    pub fn left(&mut self, m: usize)
        ensures
            final(self)@ == old(self)@.left(m),
    {
        let st = self.state(m);
        if !(st.on_stack && st.ancestor == st.index) {
            return ;
        }
        let mut go: bool = true;
        while go && self.stack.len() > 0
            invariant
                old(self)@.popped(m) == if go {
                    self@.popped(m)
                } else {
                    self@
                },
            decreases self.stack.len(),
        {
            let ghost before = self@;
            match self.stack.pop() {
                Some(top) => {
                    let st = self.state(top);
                    self.with_state(top, ModState { on_stack: false, root: Some(m), ..st });
                    assert(self@ =~= (ProgressView {
                        stack: before.stack.drop_last(),
                        ..before.with_state(
                            top,
                            ModState { on_stack: false, root: Some(m), ..before.state(top) },
                        )
                    }));
                    if top == m {
                        go = false;
                    }
                },
                None => {},
            }
        }
    }

    pub fn parents(&self, m: usize) -> (r: Vec<usize>)
        ensures
            r@ == self@.parents(m),
    {
        let mut out: Vec<usize> = Vec::new();
        let mut i: usize = 0;
        while i < self.waits.len()
            invariant
                i <= self.waits.len(),
                out@ == self@.parents_from(m, i as nat),
            decreases self.waits.len() - i,
        {
            if self.waits[i].0 == m {
                out.push(self.waits[i].1);
            }
            i = i + 1;
        }
        out
    }

    #[verifier::spinoff_prover]
    fn gather(
        &mut self,
        plan: &Vec<PlanModule>,
        parents: &Vec<usize>,
        out: &mut Vec<(u64, usize)>,
        fuel: u64,
    )
        ensures
            (final(self)@, final(out)@) == gathers(
                old(self)@,
                plan@,
                parents@,
                0,
                old(out)@,
                fuel,
            ),
        decreases fuel,
    {
        let mut i: usize = 0;
        while i < parents.len()
            invariant
                i <= parents.len(),
                gathers(old(self)@, plan@, parents@, 0, old(out)@, fuel) == gathers(
                    self@,
                    plan@,
                    parents@,
                    i as nat,
                    out@,
                    fuel,
                ),
            decreases parents.len() - i,
        {
            let m = parents[i];
            let st = self.state(m);
            if !(st.evaluated || st.error.is_some() || st.pending == 0) {
                self.with_state(m, ModState { pending: st.pending - 1, ..st });
                if st.pending == 1 {
                    let order: u64 = match st.order {
                        Some(n) => n,
                        None => u64::MAX,
                    };
                    out.push((order, m));
                    if !body_waits(plan, m) && fuel > 0 {
                        let above = self.parents(m);
                        self.gather(plan, &above, out, fuel - 1);
                    }
                }
            }
            i = i + 1;
        }
    }

    /// The modules that become available when a module is done, in the order in which they began to
    /// wait.
    pub fn gather_available_ancestors(&mut self, plan: &Vec<PlanModule>, m: usize, fuel: u64) -> (r:
        Vec<usize>)
        ensures
            (final(self)@, r@) == old(self)@.available(plan@, m, fuel),
    {
        let parents = self.parents(m);
        let mut out: Vec<(u64, usize)> = Vec::new();
        self.gather(plan, &parents, &mut out, fuel);
        sort_pairs(&out)
    }
}

impl ProgressView {
    /// The modules that become available when a module is done, in their order.
    pub open spec fn available(self, plan: Seq<PlanModule>, m: usize, fuel: u64) -> (
        ProgressView,
        Seq<usize>,
    ) {
        let (p, out) = gathers(self, plan, self.parents(m), 0, Seq::empty(), fuel);
        (p, second_items(by_order(out, out.len())))
    }
}

} // verus!
