//! Instantiating modules: their scopes, the names that they declare and what they import.
use std::rc::Rc;
use vstd::prelude::*;

use crate::ast::Stmt;
use crate::interp::session::{
    asks, next, Abrupt, Answers, Env, ErrorKind, Host, Name, Request, Session, Step, Value, World,
};
use crate::modules::evaluate::{make_deferred_ns, make_deferred_ns_step};
use crate::modules::graph::Graph;
use crate::modules::link::{
    body_links, build_namespace, entry_names, fault_text, in_order, link_imports, link_views,
    settled, validate_indirect_exports, Bound, LinkError, LinkFault,
};
use crate::modules::progress::PlanModule;
use crate::modules::resolve::{export_of, exports_of, Found, Resolution};

verus! {

/// A module that is to be linked: what its names are, or why it cannot be linked.
pub struct Linking {
    pub body: Rc<Vec<Stmt>>,
    pub env: usize,
    /// Whether every name that it exports from another module stands for one binding.
    pub checked: Result<(), LinkError>,
    /// What every import is bound to.
    pub links: Result<Vec<(String, Bound)>, LinkError>,
    /// The entries of its namespace.
    pub exports: Vec<(String, Resolution)>,
}

/// Whether this is what linking the module at a place needs to know, whose names go to a scope.
pub open spec fn prepared(g: &Graph, m: usize, env: usize, r: Linking) -> bool {
    &&& r.body == g.modules@[m as int].body
    &&& r.env == env
    &&& r.checked is Ok <==> forall|n: Seq<char>| #[trigger]
        g.modules@[m as int].tables@.indirect.contains_key(n) ==> settled(
            export_of(g, g.modules@[m as int].key@, n),
        )
    &&& r.checked matches Err(e) ==> exists|n: Seq<char>| #[trigger]
        g.modules@[m as int].tables@.indirect.contains_key(n) && e@ == (match export_of(
            g,
            g.modules@[m as int].key@,
            n,
        ) {
            Found::Ambiguous => LinkFault::Ambiguous(n),
            _ => LinkFault::NotExported(n),
        }) && !settled(export_of(g, g.modules@[m as int].key@, n))
    &&& (match r.links {
        Ok(v) => Ok(link_views(v@)),
        Err(e) => Err(e@),
    }) == body_links(
        g,
        g.modules@[m as int].body@,
        g.modules@[m as int].body@.len(),
        g.modules@[m as int].resolved@,
    )
    &&& in_order(entry_names(r.exports@))
    &&& forall|i: int|
        0 <= i < r.exports@.len() ==> (#[trigger] r.exports@[i]).1@ == export_of(
            g,
            g.modules@[m as int].key@,
            r.exports@[i].0@,
        )
    &&& forall|n: Seq<char>| #[trigger]
        entry_names(r.exports@).contains(n) <==> exports_of(
            g,
            g.modules@[m as int].key@,
        ).contains(n) && settled(export_of(g, g.modules@[m as int].key@, n))
}

/// What linking the module at a place needs to know, whose names go to a scope.
pub fn prepare_link(g: &Graph, m: usize, env: usize) -> (r: Linking)
    requires
        m < g.modules@.len(),
    ensures
        prepared(g, m, env, r),
{
    let rec = &g.modules[m];
    Linking {
        body: Rc::clone(&rec.body),
        env,
        checked: validate_indirect_exports(g, m),
        links: link_imports(g, &rec.body, &rec.resolved),
        exports: build_namespace(g, rec.key.as_str()),
    }
}

/// Makes the scope of a module, in which `this` is `undefined`.
pub open spec fn open_module_step<'a>(meta: Value, w: World<'a>) -> Step<'a, Env>
{
    let env: Env = w.next_scope();
    let w = w.new_scope(Some(0), None, false, false);
    let w = w.bind_constant(Name::Fixed("this"), Value::Undefined, env);
    let w = w.bind_var(Name::Fixed("%importmeta%"), meta, env);
    (Ok(env), w)
}

/// Makes the scope of a module, in which `this` is `undefined`.
pub fn open_module<'h, 'a, H: Host<'a>>(
    s: &mut Session<'h, 'a, H>,
    meta: Value,
) -> (out: Result<Env, Abrupt<'a>>)
    ensures
        final(s).continues(*old(s)),
        forall|answers: Answers<'a>| #[trigger]
            final(s).agrees(answers) ==> old(s).agrees(answers) && (out, final(s).world(answers))
                == open_module_step(meta, old(s).world(answers)),
{
    let env: Env = s.new_scope(Some(0), None, false, false);
    s.bind_constant(Name::Fixed("this"), Value::Undefined, env);
    s.bind_var(Name::Fixed("%importmeta%"), meta, env);
    return Ok(env);
}

/// Binds the imports of a module: to bindings of other modules, which are read anew each time, or
/// to namespaces. From the item at `i` on.
pub open spec fn bind_links_from<'a>(
    links: &'a Vec<(String, Bound)>,
    plan: &'a Vec<PlanModule>,
    env: Env,
    i: nat,
    w: World<'a>,
) -> Step<'a, ()>
    decreases links@.len() - i,
{
    if i >= links@.len() {
        (Ok(()), w)
    } else {
        match &links@[i as int].1 {
            Bound::Live(m, name) => {
                if *m < plan.len() {
                    let w = w.bind_import(env, &links@[i as int].0, plan@[*m as int].env, Name::Source(name));
                    bind_links_from(links, plan, env, i + 1, w)
                } else {
                    bind_links_from(links, plan, env, i + 1, w)
                }
            },
            Bound::Namespace(m) => {
                next(
                    asks(Request::Namespace { module: *m as u64 }, w),
                    |v: Value, w: World<'a>| {
                        let w = w.bind_namespace(env, &links@[i as int].0, v);
                        bind_links_from(links, plan, env, i + 1, w)
                    },
                )
            },
            Bound::Deferred(m) => {
                next(
                    make_deferred_ns_step(*m, w),
                    |v: Value, w: World<'a>| {
                        let w = w.bind_namespace(env, &links@[i as int].0, v);
                        bind_links_from(links, plan, env, i + 1, w)
                    },
                )
            },
            Bound::Source(key) => {
                next(
                    asks(Request::ModuleSource(key), w),
                    |v: Value, w: World<'a>| {
                        let w = w.bind_namespace(env, &links@[i as int].0, v);
                        bind_links_from(links, plan, env, i + 1, w)
                    },
                )
            },
        }
    }
}

/// Binds the imports of a module: to bindings of other modules, which are read anew each time, or
/// to namespaces.
pub open spec fn bind_links_step<'a>(
    links: &'a Vec<(String, Bound)>,
    plan: &'a Vec<PlanModule>,
    env: Env,
    w: World<'a>,
) -> Step<'a, ()>
{
    bind_links_from(links, plan, env, 0, w)
}

/// Binds the imports of a module: to bindings of other modules, which are read anew each time, or
/// to namespaces.
pub fn bind_links<'h, 'a, H: Host<'a>>(
    s: &mut Session<'h, 'a, H>,
    links: &'a Vec<(String, Bound)>,
    plan: &'a Vec<PlanModule>,
    env: Env,
) -> (out: Result<(), Abrupt<'a>>)
    ensures
        final(s).continues(*old(s)),
        forall|answers: Answers<'a>| #[trigger]
            final(s).agrees(answers) ==> old(s).agrees(answers) && (out, final(s).world(answers))
                == bind_links_step(links, plan, env, old(s).world(answers)),
{
    let mut i: usize = 0;
    while i < links.len()
        invariant
            i <= links.len(),
            s.continues(*old(s)),
            forall|answers: Answers<'a>| #[trigger]
                s.agrees(answers) ==> old(s).agrees(answers)
                    && bind_links_step(links, plan, env, old(s).world(answers))
                    == bind_links_from(links, plan, env, i as nat, s.world(answers)),
        decreases links.len() - i,
    {
        match &links[i].1 {
            Bound::Live(m, name) => {
                if *m < plan.len() {
                    s.bind_import(env, &links[i].0, plan[*m].env, Name::Source(name));
                } else {
                }
            },
            Bound::Namespace(m) => {
                let v: Value = s.value(Request::Namespace { module: *m as u64 })?;
                s.bind_namespace(env, &links[i].0, v);
            },
            Bound::Deferred(m) => {
                let v: Value = make_deferred_ns(s, *m)?;
                s.bind_namespace(env, &links[i].0, v);
            },
            Bound::Source(key) => {
                let v: Value = s.value(Request::ModuleSource(key))?;
                s.bind_namespace(env, &links[i].0, v);
            },
        }
        i = i + 1;
    }
    return Ok(());
}

/// A link error, which is a `SyntaxError`.
pub open spec fn link_failed_step<'a>(error: &'a LinkError, w: World<'a>) -> Step<'a, ()>
{
    let t: Value = w.next_text();
    let w = w.add_text(fault_text(error@));
    next(
        asks(Request::MakeError { kind: ErrorKind::SyntaxError, message: t }, w),
        |e: Value, w: World<'a>| (Err(Abrupt::Throw(e)), w),
    )
}

/// A link error, which is a `SyntaxError`.
pub fn link_failed<'h, 'a, H: Host<'a>>(
    s: &mut Session<'h, 'a, H>,
    error: &'a LinkError,
) -> (out: Result<(), Abrupt<'a>>)
    ensures
        final(s).continues(*old(s)),
        forall|answers: Answers<'a>| #[trigger]
            final(s).agrees(answers) ==> old(s).agrees(answers) && (out, final(s).world(answers))
                == link_failed_step(error, old(s).world(answers)),
{
    let t: Value = s.add_text(error.message());
    let e: Value = s.value(Request::MakeError { kind: ErrorKind::SyntaxError, message: t })?;
    return Err(Abrupt::Throw(e));
}

/// Links a module whose dependencies are linked: its functions are initialized and its lexical
/// names declared, its imports are wired, and its namespace is built.
pub open spec fn link_module_step<'a>(
    m: &'a Linking,
    place: usize,
    plan: &'a Vec<PlanModule>,
    w: World<'a>,
) -> Step<'a, ()>
{
    let body: &'a Vec<Stmt> = &*m.body;
    let w = w.ask(Request::HoistVars { stmts: body, env: m.env }).1;
    let w = w.declare_block(body, m.env);
    let w = w.declare_default(body, m.env);
    match &m.checked {
        Err(e) => link_failed_step(e, w),
        Ok(_) => {
            match &m.links {
                Err(e) => link_failed_step(e, w),
                Ok(links) => {
                    next(
                        bind_links_step(links, plan, m.env, w),
                        |u: (), w: World<'a>| {
                            let w = w.ask(
                                Request::BuildNamespace { module: place as u64, exports: &m.exports },
                            ).1;
                            (Ok(()), w)
                        },
                    )
                },
            }
        },
    }
}

/// Links a module whose dependencies are linked: its functions are initialized and its lexical
/// names declared, its imports are wired, and its namespace is built.
#[verifier::spinoff_prover]
pub fn link_module<'h, 'a, H: Host<'a>>(
    s: &mut Session<'h, 'a, H>,
    m: &'a Linking,
    place: usize,
    plan: &'a Vec<PlanModule>,
) -> (out: Result<(), Abrupt<'a>>)
    ensures
        final(s).continues(*old(s)),
        forall|answers: Answers<'a>| #[trigger]
            final(s).agrees(answers) ==> old(s).agrees(answers) && (out, final(s).world(answers))
                == link_module_step(m, place, plan, old(s).world(answers)),
{
    let body: &'a Vec<Stmt> = &*m.body;
    let _ = s.ask(Request::HoistVars { stmts: body, env: m.env });
    s.declare_block(body, m.env);
    s.declare_default(body, m.env);
    match &m.checked {
        Err(e) => {
            return link_failed(s, e);
        },
        Ok(_) => {
            match &m.links {
                Err(e) => {
                    return link_failed(s, e);
                },
                Ok(links) => {
                    let u: () = bind_links(s, links, plan, m.env)?;
                    let _ = s.ask(
                        Request::BuildNamespace { module: place as u64, exports: &m.exports },
                    );
                    return Ok(());
                },
            }
        },
    }
}

/// Links modules in the order given; the first that fails ends it. From the item at `i` on.
pub open spec fn link_modules_from<'a>(
    all: &'a Vec<(usize, Linking)>,
    plan: &'a Vec<PlanModule>,
    i: nat,
    w: World<'a>,
) -> Step<'a, ()>
    decreases all@.len() - i,
{
    if i >= all@.len() {
        (Ok(()), w)
    } else {
        next(
            link_module_step(&all@[i as int].1, all@[i as int].0, plan, w),
            |u: (), w: World<'a>| link_modules_from(all, plan, i + 1, w),
        )
    }
}

/// Links modules in the order given; the first that fails ends it.
pub open spec fn link_modules_step<'a>(
    all: &'a Vec<(usize, Linking)>,
    plan: &'a Vec<PlanModule>,
    w: World<'a>,
) -> Step<'a, ()>
{
    link_modules_from(all, plan, 0, w)
}

/// Links modules in the order given; the first that fails ends it.
pub fn link_modules<'h, 'a, H: Host<'a>>(
    s: &mut Session<'h, 'a, H>,
    all: &'a Vec<(usize, Linking)>,
    plan: &'a Vec<PlanModule>,
) -> (out: Result<(), Abrupt<'a>>)
    ensures
        final(s).continues(*old(s)),
        forall|answers: Answers<'a>| #[trigger]
            final(s).agrees(answers) ==> old(s).agrees(answers) && (out, final(s).world(answers))
                == link_modules_step(all, plan, old(s).world(answers)),
{
    let mut i: usize = 0;
    while i < all.len()
        invariant
            i <= all.len(),
            s.continues(*old(s)),
            forall|answers: Answers<'a>| #[trigger]
                s.agrees(answers) ==> old(s).agrees(answers)
                    && link_modules_step(all, plan, old(s).world(answers))
                    == link_modules_from(all, plan, i as nat, s.world(answers)),
        decreases all.len() - i,
    {
        let u: () = link_module(s, &all[i].1, all[i].0, plan)?;
        i = i + 1;
    }
    return Ok(());
}

} // verus!
