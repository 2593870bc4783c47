//! Running programs and modules, and what an embedder asks for.
use vstd::prelude::*;

use crate::ast::Stmt;
use crate::interp::exec::{run_stmt_list, run_stmt_list_step};
use crate::interp::operate::{to_string, to_string_step};
use crate::interp::promise::{
    run_agent_event_loop, run_agent_event_loop_step, run_job, run_job_step,
};
use crate::interp::session::{
    asks, asks_flag, next, Abrupt, Answers, Completion, EVAL_DEPTH, ErrorKind, Host, Key, Request,
    Session, Step, Value, World,
};
use crate::jobs::{Job, Status};
use crate::modules::evaluate::{evaluate_batch, evaluate_batch_step};
use crate::modules::instantiate::{link_modules, link_modules_step, Linking};
use crate::modules::progress::{ModState, PlanModule};
use crate::modules::register::{load_text, LoadError};
use crate::scan::{begins_strict, directive_strict};
use crate::value::props::Property;

verus! {

/// How a program ended. The texts are strings; one that cannot be had is left out.
#[derive(Clone, Copy, PartialEq, Eq, Structural, Debug)]
pub enum Outcome {
    Value(Option<Value>),
    Throw { name: Option<Value>, message: Option<Value> },
}

/// A module that was loaded with all that it depends on.
pub struct Loaded {
    pub plan: Vec<PlanModule>,
    /// The place of the module.
    pub place: usize,
    /// The modules that are to be linked, each behind its dependencies.
    pub order: Vec<(usize, Linking)>,
}

/// A function of the embedder's, with its name and the number of its parameters.
pub struct NativeOp {
    pub name: String,
    pub length: usize,
    pub func: u64,
}

/// The value that an early end carries; a jump or a stop carries none.
pub open spec fn carried<'a>(a: Abrupt<'a>) -> Value {
    match a {
        Abrupt::Throw(v) => v,
        Abrupt::Return(v) => v,
        _ => Value::Undefined,
    }
}

/// The value that an early end carries.
pub fn abrupt_value<'a>(a: Abrupt<'a>) -> (r: Value)
    ensures
        r == carried(a),
{
    match a {
        Abrupt::Throw(v) => v,
        Abrupt::Return(v) => v,
        _ => Value::Undefined,
    }
}

/// A value as a string; nothing where it cannot be one.
pub open spec fn render_step<'a>(v: Value, w: World<'a>) -> (Option<Value>, World<'a>)
{
    let (r, w) = to_string_step(v, w);
    match r {
        Ok(t) => (Some(t), w),
        Err(_) => (None, w),
    }
}

/// A value as a string; nothing where it cannot be one.
pub fn render<'h, 'a, H: Host<'a>>(s: &mut Session<'h, 'a, H>, v: Value) -> (out: Option<Value>)
    ensures
        final(s).continues(*old(s)),
        forall|answers: Answers<'a>| #[trigger]
            final(s).agrees(answers) ==> old(s).agrees(answers) && (out, final(s).world(answers))
                == render_step(v, old(s).world(answers)),
{
    let r: Completion<'a> = to_string(s, v);
    match r {
        Ok(t) => {
            return Some(t);
        },
        Err(_) => {
            return None;
        },
    }
}

/// A property of a thrown value as text; nothing where it is missing or cannot be read.
pub open spec fn describe_member_step<'a>(
    base: Value,
    key: Key<'a>,
    w: World<'a>,
) -> (Option<Value>, World<'a>)
{
    let (r, w) = asks(Request::GetMember { base, key }, w);
    match r {
        Ok(Value::Undefined) => (None, w),
        Ok(v) => {
            let (t, w) = render_step(v, w);
            (t, w)
        },
        Err(_) => (None, w),
    }
}

/// A property of a thrown value as text; nothing where it is missing or cannot be read.
pub fn describe_member<'h, 'a, H: Host<'a>>(
    s: &mut Session<'h, 'a, H>,
    base: Value,
    key: Key<'a>,
) -> (out: Option<Value>)
    ensures
        final(s).continues(*old(s)),
        forall|answers: Answers<'a>| #[trigger]
            final(s).agrees(answers) ==> old(s).agrees(answers) && (out, final(s).world(answers))
                == describe_member_step(base, key, old(s).world(answers)),
{
    let r: Completion<'a> = s.value(Request::GetMember { base, key });
    match r {
        Ok(Value::Undefined) => {
            return None;
        },
        Ok(v) => {
            let t: Option<Value> = render(s, v);
            return t;
        },
        Err(_) => {
            return None;
        },
    }
}

/// The name of a thrown value's constructor.
pub open spec fn constructor_name_step<'a>(
    thrown: Value,
    w: World<'a>,
) -> (Option<Value>, World<'a>)
{
    let (c, w) = asks(Request::GetMember { base: thrown, key: Key::Fixed("constructor") }, w);
    match c {
        Ok(Value::Obj(o)) => {
            let (t, w) = describe_member_step(Value::Obj(o), Key::Fixed("name"), w);
            (t, w)
        },
        _ => (None, w),
    }
}

/// The name of a thrown value's constructor.
pub fn constructor_name<'h, 'a, H: Host<'a>>(
    s: &mut Session<'h, 'a, H>,
    thrown: Value,
) -> (out: Option<Value>)
    ensures
        final(s).continues(*old(s)),
        forall|answers: Answers<'a>| #[trigger]
            final(s).agrees(answers) ==> old(s).agrees(answers) && (out, final(s).world(answers))
                == constructor_name_step(thrown, old(s).world(answers)),
{
    let c: Completion<'a> = s.value(
        Request::GetMember { base: thrown, key: Key::Fixed("constructor") },
    );
    match c {
        Ok(Value::Obj(o)) => {
            let t: Option<Value> = describe_member(s, Value::Obj(o), Key::Fixed("name"));
            return t;
        },
        _ => {
            return None;
        },
    }
}

/// The name of a thrown value: its own or, where it has none, that of its constructor.
pub open spec fn thrown_name_step<'a>(thrown: Value, w: World<'a>) -> (Option<Value>, World<'a>)
{
    let (n, w) = asks(Request::GetMember { base: thrown, key: Key::Fixed("name") }, w);
    match n {
        Ok(Value::Undefined) => {
            let (t, w) = constructor_name_step(thrown, w);
            (t, w)
        },
        Ok(v) => {
            let (t, w) = render_step(v, w);
            (t, w)
        },
        Err(_) => {
            let (t, w) = constructor_name_step(thrown, w);
            (t, w)
        },
    }
}

/// The name of a thrown value: its own or, where it has none, that of its constructor.
pub fn thrown_name<'h, 'a, H: Host<'a>>(
    s: &mut Session<'h, 'a, H>,
    thrown: Value,
) -> (out: Option<Value>)
    ensures
        final(s).continues(*old(s)),
        forall|answers: Answers<'a>| #[trigger]
            final(s).agrees(answers) ==> old(s).agrees(answers) && (out, final(s).world(answers))
                == thrown_name_step(thrown, old(s).world(answers)),
{
    let n: Completion<'a> = s.value(Request::GetMember { base: thrown, key: Key::Fixed("name") });
    match n {
        Ok(Value::Undefined) => {
            let t: Option<Value> = constructor_name(s, thrown);
            return t;
        },
        Ok(v) => {
            let t: Option<Value> = render(s, v);
            return t;
        },
        Err(_) => {
            let t: Option<Value> = constructor_name(s, thrown);
            return t;
        },
    }
}

/// A thrown value as a name and a message. Only an error has a name; what is no object is its own
/// message.
pub open spec fn describe_throw_step<'a>(thrown: Value, w: World<'a>) -> (Outcome, World<'a>)
{
    if matches!(thrown, Value::Obj(_)) {
        let (error, w) = asks_flag(Request::IsError(thrown), w);
        match error {
            Ok(true) => {
                let (name, w) = thrown_name_step(thrown, w);
                let (message, w) = describe_member_step(thrown, Key::Fixed("message"), w);
                (Outcome::Throw { name, message }, w)
            },
            _ => {
                let (message, w) = describe_member_step(thrown, Key::Fixed("message"), w);
                (Outcome::Throw { name: None, message }, w)
            },
        }
    } else {
        let (message, w) = render_step(thrown, w);
        (Outcome::Throw { name: None, message }, w)
    }
}

/// A thrown value as a name and a message. Only an error has a name; what is no object is its own
/// message.
pub fn describe_throw<'h, 'a, H: Host<'a>>(
    s: &mut Session<'h, 'a, H>,
    thrown: Value,
) -> (out: Outcome)
    ensures
        final(s).continues(*old(s)),
        forall|answers: Answers<'a>| #[trigger]
            final(s).agrees(answers) ==> old(s).agrees(answers) && (out, final(s).world(answers))
                == describe_throw_step(thrown, old(s).world(answers)),
{
    if matches!(thrown, Value::Obj(_)) {
        let error: Result<bool, Abrupt<'a>> = s.flag(Request::IsError(thrown));
        match error {
            Ok(true) => {
                let name: Option<Value> = thrown_name(s, thrown);
                let message: Option<Value> = describe_member(s, thrown, Key::Fixed("message"));
                return Outcome::Throw { name, message };
            },
            _ => {
                let message: Option<Value> = describe_member(s, thrown, Key::Fixed("message"));
                return Outcome::Throw { name: None, message };
            },
        }
    } else {
        let message: Option<Value> = render(s, thrown);
        return Outcome::Throw { name: None, message };
    }
}

/// Runs a program in global code.
pub open spec fn run_program_step<'a>(body: &'a Vec<Stmt>, w: World<'a>) -> Step<'a, Value>
{
    next(
        asks(Request::DeclareProgram { stmts: body, env: 0 }, w),
        |u: Value, w: World<'a>| run_stmt_list_step(body, 0, EVAL_DEPTH, w),
    )
}

/// Runs a program in global code.
pub fn run_program<'h, 'a, H: Host<'a>>(
    s: &mut Session<'h, 'a, H>,
    body: &'a Vec<Stmt>,
) -> (out: Result<Value, Abrupt<'a>>)
    ensures
        final(s).continues(*old(s)),
        forall|answers: Answers<'a>| #[trigger]
            final(s).agrees(answers) ==> old(s).agrees(answers) && (out, final(s).world(answers))
                == run_program_step(body, old(s).world(answers)),
{
    let u: Value = s.value(Request::DeclareProgram { stmts: body, env: 0 })?;
    return run_stmt_list(s, body, 0, EVAL_DEPTH);
}

/// Runs a script, and then what it has left to do.
pub open spec fn run_script_step<'a>(
    body: &'a Vec<Stmt>,
    strict: bool,
    w: World<'a>,
) -> (Outcome, World<'a>)
{
    let w = World { strict: strict || begins_strict(body@), ..w };
    let (r, w) = run_program_step(body, w);
    let (u, w) = run_agent_event_loop_step(w);
    match r {
        Ok(v) => {
            let (t, w) = render_step(v, w);
            (Outcome::Value(t), w)
        },
        Err(a) => {
            let (d, w) = describe_throw_step(carried(a), w);
            (d, w)
        },
    }
}

/// Runs a script, and then what it has left to do.
pub fn run_script<'h, 'a, H: Host<'a>>(
    s: &mut Session<'h, 'a, H>,
    body: &'a Vec<Stmt>,
    strict: bool,
) -> (out: Outcome)
    ensures
        final(s).after(*old(s)),
        forall|answers: Answers<'a>| #[trigger]
            final(s).agrees(answers) ==> old(s).agrees(answers) && (out, final(s).world(answers))
                == run_script_step(body, strict, old(s).world(answers)),
{
    s.set_strict(strict || directive_strict(body));
    let r: Completion<'a> = run_program(s, body);
    let u: Result<(), Abrupt<'a>> = run_agent_event_loop(s);
    match r {
        Ok(v) => {
            let t: Option<Value> = render(s, v);
            return Outcome::Value(t);
        },
        Err(a) => {
            let d: Outcome = describe_throw(s, abrupt_value(a));
            return d;
        },
    }
}

/// Runs a script and nothing after it.
pub open spec fn run_value_step<'a>(
    body: &'a Vec<Stmt>,
    w: World<'a>,
) -> (Result<Value, Value>, World<'a>)
{
    let w = World { strict: begins_strict(body@), ..w };
    let (r, w) = run_program_step(body, w);
    match r {
        Ok(Value::Empty) => (Ok(Value::Undefined), w),
        Ok(v) => (Ok(v), w),
        Err(a) => (Err(carried(a)), w),
    }
}

/// Runs a script and nothing after it.
pub fn run_value<'h, 'a, H: Host<'a>>(
    s: &mut Session<'h, 'a, H>,
    body: &'a Vec<Stmt>,
) -> (out: Result<Value, Value>)
    ensures
        final(s).after(*old(s)),
        forall|answers: Answers<'a>| #[trigger]
            final(s).agrees(answers) ==> old(s).agrees(answers) && (out, final(s).world(answers))
                == run_value_step(body, old(s).world(answers)),
{
    s.set_strict(directive_strict(body));
    let r: Completion<'a> = run_program(s, body);
    match r {
        Ok(Value::Empty) => {
            return Ok(Value::Undefined);
        },
        Ok(v) => {
            return Ok(v);
        },
        Err(a) => {
            return Err(abrupt_value(a));
        },
    }
}

/// Evaluates a module that is linked, and what it depends on, and waits. It fails as its promise
/// does.
pub open spec fn load_module_step<'a>(
    plan: &'a Vec<PlanModule>,
    m: usize,
    w: World<'a>,
) -> Step<'a, ()>
{
    next(
        evaluate_batch_step(plan, m, EVAL_DEPTH, w),
        |u: (), w: World<'a>|
            next(
                run_agent_event_loop_step(w),
                |v: (), w: World<'a>| {
                    let st: ModState = w.module(m);
                    match st.promise {
                        Some(Value::Obj(p)) => {
                            let status: Option<Status> = w.promise_status(p);
                            match status {
                                Some(Status::Rejected(reason)) => {
                                    (Err(Abrupt::Throw(reason)), w)
                                },
                                _ => (Ok(()), w),
                            }
                        },
                        _ => (Ok(()), w),
                    }
                },
            ),
    )
}

/// Evaluates a module that is linked, and what it depends on, and waits. It fails as its promise
/// does.
pub fn load_module<'h, 'a, H: Host<'a>>(
    s: &mut Session<'h, 'a, H>,
    plan: &'a Vec<PlanModule>,
    m: usize,
) -> (out: Result<(), Abrupt<'a>>)
    ensures
        final(s).continues(*old(s)),
        forall|answers: Answers<'a>| #[trigger]
            final(s).agrees(answers) ==> old(s).agrees(answers) && (out, final(s).world(answers))
                == load_module_step(plan, m, old(s).world(answers)),
{
    let u: () = evaluate_batch(s, plan, m, EVAL_DEPTH)?;
    let v: () = run_agent_event_loop(s)?;
    let st: ModState = s.module(m);
    match st.promise {
        Some(Value::Obj(p)) => {
            let status: Option<Status> = s.promise_status(p);
            match status {
                Some(Status::Rejected(reason)) => {
                    return Err(Abrupt::Throw(reason));
                },
                _ => {
                    return Ok(());
                },
            }
        },
        _ => {
            return Ok(());
        },
    }
}

/// Links the modules of a graph and evaluates one of them, or fails as loading them did.
pub open spec fn load_all_step<'a>(
    loaded: &'a Result<Loaded, LoadError>,
    w: World<'a>,
) -> Step<'a, ()>
{
    match loaded {
        Err(e) => {
            let t: Value = w.next_text();
            let w = w.add_text(load_text(e@));
            next(
                asks(Request::MakeError { kind: ErrorKind::TypeError, message: t }, w),
                |v: Value, w: World<'a>| (Err(Abrupt::Throw(v)), w),
            )
        },
        Ok(l) => {
            next(
                link_modules_step(&l.order, &l.plan, w),
                |u: (), w: World<'a>| load_module_step(&l.plan, l.place, w),
            )
        },
    }
}

/// Links the modules of a graph and evaluates one of them, or fails as loading them did.
pub fn load_all<'h, 'a, H: Host<'a>>(
    s: &mut Session<'h, 'a, H>,
    loaded: &'a Result<Loaded, LoadError>,
) -> (out: Result<(), Abrupt<'a>>)
    ensures
        final(s).continues(*old(s)),
        forall|answers: Answers<'a>| #[trigger]
            final(s).agrees(answers) ==> old(s).agrees(answers) && (out, final(s).world(answers))
                == load_all_step(loaded, old(s).world(answers)),
{
    match loaded {
        Err(e) => {
            let t: Value = s.add_text(e.message());
            let v: Value = s.value(Request::MakeError { kind: ErrorKind::TypeError, message: t })?;
            return Err(Abrupt::Throw(v));
        },
        Ok(l) => {
            let u: () = link_modules(s, &l.order, &l.plan)?;
            return load_module(s, &l.plan, l.place);
        },
    }
}

/// Links and evaluates a module that was loaded, and then what it has left to do.
pub open spec fn run_loaded_step<'a>(
    loaded: &'a Result<Loaded, LoadError>,
    w: World<'a>,
) -> (Outcome, World<'a>)
{
    let (r, w) = load_all_step(loaded, w);
    let (u, w) = run_agent_event_loop_step(w);
    match r {
        Ok(_) => (Outcome::Value(None), w),
        Err(a) => {
            let (d, w) = describe_throw_step(carried(a), w);
            (d, w)
        },
    }
}

/// Links and evaluates a module that was loaded, and then what it has left to do.
pub fn run_loaded<'h, 'a, H: Host<'a>>(
    s: &mut Session<'h, 'a, H>,
    loaded: &'a Result<Loaded, LoadError>,
) -> (out: Outcome)
    ensures
        final(s).continues(*old(s)),
        forall|answers: Answers<'a>| #[trigger]
            final(s).agrees(answers) ==> old(s).agrees(answers) && (out, final(s).world(answers))
                == run_loaded_step(loaded, old(s).world(answers)),
{
    let r: Result<(), Abrupt<'a>> = load_all(s, loaded);
    let u: Result<(), Abrupt<'a>> = run_agent_event_loop(s);
    match r {
        Ok(_) => {
            return Outcome::Value(None);
        },
        Err(a) => {
            let d: Outcome = describe_throw(s, abrupt_value(a));
            return d;
        },
    }
}

/// Gives an object a function of the embedder's as a method.
pub open spec fn define_method_step<'a>(
    base: Value,
    name: &'a String,
    length: usize,
    func: u64,
    w: World<'a>,
) -> Step<'a, ()>
{
    next(
        asks(Request::MakeNative { func, name, length: length as u64 }, w),
        |f: Value, w: World<'a>| {
            let w = w.ask(
                Request::DefineOwn { base, key: Key::Source(name), prop: Property::of(f, true, false, true) },
            ).1;
            (Ok(()), w)
        },
    )
}

/// Gives an object a function of the embedder's as a method.
pub fn define_method<'h, 'a, H: Host<'a>>(
    s: &mut Session<'h, 'a, H>,
    base: Value,
    name: &'a String,
    length: usize,
    func: u64,
) -> (out: Result<(), Abrupt<'a>>)
    ensures
        final(s).continues(*old(s)),
        forall|answers: Answers<'a>| #[trigger]
            final(s).agrees(answers) ==> old(s).agrees(answers) && (out, final(s).world(answers))
                == define_method_step(base, name, length, func, old(s).world(answers)),
{
    let f: Value = s.value(Request::MakeNative { func, name, length: length as u64 })?;
    let _ = s.ask(Request::DefineOwn { base, key: Key::Source(name), prop: Property::builtin(f) });
    return Ok(());
}

/// Gives the global object a function of the embedder's.
pub open spec fn add_global_step<'a>(
    name: &'a String,
    length: usize,
    func: u64,
    w: World<'a>,
) -> Step<'a, ()>
{
    next(
        asks(Request::GlobalObject, w),
        |g: Value, w: World<'a>| define_method_step(g, name, length, func, w),
    )
}

/// Gives the global object a function of the embedder's.
pub fn add_global<'h, 'a, H: Host<'a>>(
    s: &mut Session<'h, 'a, H>,
    name: &'a String,
    length: usize,
    func: u64,
) -> (out: Result<(), Abrupt<'a>>)
    ensures
        final(s).continues(*old(s)),
        forall|answers: Answers<'a>| #[trigger]
            final(s).agrees(answers) ==> old(s).agrees(answers) && (out, final(s).world(answers))
                == add_global_step(name, length, func, old(s).world(answers)),
{
    let g: Value = s.value(Request::GlobalObject)?;
    return define_method(s, g, name, length, func);
}

/// Gives an object methods. From the item at `i` on.
pub open spec fn define_methods_from<'a>(
    base: Value,
    ops: &'a Vec<NativeOp>,
    i: nat,
    w: World<'a>,
) -> Step<'a, ()>
    decreases ops@.len() - i,
{
    if i >= ops@.len() {
        (Ok(()), w)
    } else {
        next(
            define_method_step(
                base,
                &ops@[i as int].name,
                ops@[i as int].length,
                ops@[i as int].func,
                w,
            ),
            |u: (), w: World<'a>| define_methods_from(base, ops, i + 1, w),
        )
    }
}

/// Gives an object methods.
pub open spec fn define_methods_step<'a>(
    base: Value,
    ops: &'a Vec<NativeOp>,
    w: World<'a>,
) -> Step<'a, ()>
{
    define_methods_from(base, ops, 0, w)
}

/// Gives an object methods.
pub fn define_methods<'h, 'a, H: Host<'a>>(
    s: &mut Session<'h, 'a, H>,
    base: Value,
    ops: &'a Vec<NativeOp>,
) -> (out: Result<(), Abrupt<'a>>)
    ensures
        final(s).continues(*old(s)),
        forall|answers: Answers<'a>| #[trigger]
            final(s).agrees(answers) ==> old(s).agrees(answers) && (out, final(s).world(answers))
                == define_methods_step(base, ops, old(s).world(answers)),
{
    let mut i: usize = 0;
    while i < ops.len()
        invariant
            i <= ops.len(),
            s.continues(*old(s)),
            forall|answers: Answers<'a>| #[trigger]
                s.agrees(answers) ==> old(s).agrees(answers)
                    && define_methods_step(base, ops, old(s).world(answers))
                    == define_methods_from(base, ops, i as nat, s.world(answers)),
        decreases ops.len() - i,
    {
        let u: () = define_method(s, base, &ops[i].name, ops[i].length, ops[i].func)?;
        i = i + 1;
    }
    return Ok(());
}

/// Gives the global object an object with methods.
pub open spec fn add_namespace_step<'a>(
    name: &'a String,
    ops: &'a Vec<NativeOp>,
    w: World<'a>,
) -> Step<'a, ()>
{
    next(
        asks(Request::MakeObject, w),
        |ns: Value, w: World<'a>|
            next(
                define_methods_step(ns, ops, w),
                |u: (), w: World<'a>|
                    next(
                        asks(Request::GlobalObject, w),
                        |g: Value, w: World<'a>| {
                            let w = w.ask(
                                Request::DefineOwn { base: g, key: Key::Source(name), prop: Property::of(ns, true, false, true) },
                            ).1;
                            (Ok(()), w)
                        },
                    ),
            ),
    )
}

/// Gives the global object an object with methods.
pub fn add_namespace<'h, 'a, H: Host<'a>>(
    s: &mut Session<'h, 'a, H>,
    name: &'a String,
    ops: &'a Vec<NativeOp>,
) -> (out: Result<(), Abrupt<'a>>)
    ensures
        final(s).continues(*old(s)),
        forall|answers: Answers<'a>| #[trigger]
            final(s).agrees(answers) ==> old(s).agrees(answers) && (out, final(s).world(answers))
                == add_namespace_step(name, ops, old(s).world(answers)),
{
    let ns: Value = s.value(Request::MakeObject)?;
    let u: () = define_methods(s, ns, ops)?;
    let g: Value = s.value(Request::GlobalObject)?;
    let _ = s.ask(
        Request::DefineOwn { base: g, key: Key::Source(name), prop: Property::builtin(ns) },
    );
    return Ok(());
}

/// Lists the arguments of a call. From the item at `i` on.
pub open spec fn list_args_from<'a>(
    args: &'a Vec<Value>,
    list: u64,
    i: nat,
    w: World<'a>,
) -> Step<'a, ()>
    decreases args@.len() - i,
{
    if i >= args@.len() {
        (Ok(()), w)
    } else {
        let w = w.push(list, args@[i as int]);
        list_args_from(args, list, i + 1, w)
    }
}

/// Lists the arguments of a call.
pub open spec fn list_args_step<'a>(args: &'a Vec<Value>, list: u64, w: World<'a>) -> Step<'a, ()>
{
    list_args_from(args, list, 0, w)
}

/// Lists the arguments of a call.
pub fn list_args<'h, 'a, H: Host<'a>>(
    s: &mut Session<'h, 'a, H>,
    args: &'a Vec<Value>,
    list: u64,
) -> (out: Result<(), Abrupt<'a>>)
    ensures
        final(s).continues(*old(s)),
        forall|answers: Answers<'a>| #[trigger]
            final(s).agrees(answers) ==> old(s).agrees(answers) && (out, final(s).world(answers))
                == list_args_step(args, list, old(s).world(answers)),
{
    let mut i: usize = 0;
    while i < args.len()
        invariant
            i <= args.len(),
            s.continues(*old(s)),
            forall|answers: Answers<'a>| #[trigger]
                s.agrees(answers) ==> old(s).agrees(answers)
                    && list_args_step(args, list, old(s).world(answers))
                    == list_args_from(args, list, i as nat, s.world(answers)),
        decreases args.len() - i,
    {
        s.push(list, args[i]);
        i = i + 1;
    }
    return Ok(());
}

/// Calls a function.
pub open spec fn call_value_step<'a>(
    func: Value,
    this: Value,
    args: &'a Vec<Value>,
    w: World<'a>,
) -> (Result<Value, Value>, World<'a>)
{
    let (r, w) = call_listed_step(func, this, args, w);
    match r {
        Ok(v) => (Ok(v), w),
        Err(a) => (Err(carried(a)), w),
    }
}

/// Calls a function.
pub fn call_value<'h, 'a, H: Host<'a>>(
    s: &mut Session<'h, 'a, H>,
    func: Value,
    this: Value,
    args: &'a Vec<Value>,
) -> (out: Result<Value, Value>)
    ensures
        final(s).continues(*old(s)),
        forall|answers: Answers<'a>| #[trigger]
            final(s).agrees(answers) ==> old(s).agrees(answers) && (out, final(s).world(answers))
                == call_value_step(func, this, args, old(s).world(answers)),
{
    let r: Completion<'a> = call_listed(s, func, this, args);
    match r {
        Ok(v) => {
            return Ok(v);
        },
        Err(a) => {
            return Err(abrupt_value(a));
        },
    }
}

/// Calls a function with arguments that are listed first.
pub open spec fn call_listed_step<'a>(
    func: Value,
    this: Value,
    args: &'a Vec<Value>,
    w: World<'a>,
) -> Step<'a, Value>
{
    let list: u64 = w.next_list();
    let w = w.new_list(Seq::empty());
    next(
        list_args_step(args, list, w),
        |u: (), w: World<'a>| asks(Request::Call { func, this, args: list }, w),
    )
}

/// Calls a function with arguments that are listed first.
pub fn call_listed<'h, 'a, H: Host<'a>>(
    s: &mut Session<'h, 'a, H>,
    func: Value,
    this: Value,
    args: &'a Vec<Value>,
) -> (out: Result<Value, Abrupt<'a>>)
    ensures
        final(s).continues(*old(s)),
        forall|answers: Answers<'a>| #[trigger]
            final(s).agrees(answers) ==> old(s).agrees(answers) && (out, final(s).world(answers))
                == call_listed_step(func, this, args, old(s).world(answers)),
{
    let list: u64 = s.new_list(Vec::new());
    let u: () = list_args(s, args, list)?;
    return s.value(Request::Call { func, this, args: list });
}

/// Runs the job that is due first: whether there was one.
pub open spec fn next_job_step<'a>(w: World<'a>) -> (bool, World<'a>)
{
    let due: Option<Job> = w.first_job();
    match due {
        None => (false, w),
        Some(job) => {
            let w = w.drop_job();
            let (u, w) = run_job_step(job, w);
            (true, w)
        },
    }
}

/// Runs the job that is due first: whether there was one.
pub fn next_job<'h, 'a, H: Host<'a>>(s: &mut Session<'h, 'a, H>) -> (out: bool)
    ensures
        final(s).continues(*old(s)),
        forall|answers: Answers<'a>| #[trigger]
            final(s).agrees(answers) ==> old(s).agrees(answers) && (out, final(s).world(answers))
                == next_job_step(old(s).world(answers)),
{
    let due: Option<Job> = s.first_job();
    match due {
        None => {
            return false;
        },
        Some(job) => {
            s.drop_job();
            let u: Result<(), Abrupt<'a>> = run_job(s, job);
            return true;
        },
    }
}

} // verus!
