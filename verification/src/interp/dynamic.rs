//! Running evaluated code.
use vstd::prelude::*;

use crate::ast::Stmt;
use crate::interp::exec::{run_stmt_list, run_stmt_list_step};
use crate::interp::object::{
    global_property, global_property_step, set_own_value, set_own_value_step,
};
use crate::interp::operate::{
    is_callable, is_callable_step, make_error, make_error_step, throw_about, throws_about,
};
use crate::interp::session::{
    asks, asks_flag, next, Abrupt, Answers, Completion, Env, ErrorKind, Host, Key, Request,
    Session, Step, Subject, Value, World,
};
use crate::modules::table::texts;
use crate::scan::{begins_strict, directive_strict};
use crate::scope::{can_declare, declarable, declaration, declare, Declare, GlobalProperty};
use crate::scope::dynamic::EvalPlace;
use crate::value::props::Property;

verus! {

/// Refuses evaluated code that hoists a name over a lexical declaration between it and where its
/// variables go. From the item at `i` on.
pub open spec fn refuse_clashes_from<'a>(
    names: Seq<Seq<char>>,
    probe: Env,
    lex: Env,
    var: Env,
    i: nat,
    w: World<'a>,
) -> Step<'a, ()>
    decreases names.len() - i,
{
    if i >= names.len() {
        (Ok(()), w)
    } else {
        if w.scopes.var_refused(lex, var, names[i as int]) {
            throws_about(
                ErrorKind::SyntaxError,
                "Identifier '",
                "' has already been declared",
                Subject::Key(Key::Declared { env: probe, at: i as u64 }),
                w,
            )
        } else {
            refuse_clashes_from(names, probe, lex, var, i + 1, w)
        }
    }
}

/// Refuses evaluated code that hoists a name over a lexical declaration between it and where its
/// variables go.
pub open spec fn refuse_clashes_step<'a>(
    names: Seq<Seq<char>>,
    probe: Env,
    lex: Env,
    var: Env,
    w: World<'a>,
) -> Step<'a, ()>
{
    refuse_clashes_from(names, probe, lex, var, 0, w)
}

/// Refuses evaluated code that hoists a name over a lexical declaration between it and where its
/// variables go.
pub fn refuse_clashes<'h, 'a, H: Host<'a>>(
    s: &mut Session<'h, 'a, H>,
    names: &Vec<String>,
    probe: Env,
    lex: Env,
    var: Env,
) -> (out: Result<(), Abrupt<'a>>)
    ensures
        final(s).continues(*old(s)),
        forall|answers: Answers<'a>| #[trigger]
            final(s).agrees(answers) ==> old(s).agrees(answers) && (out, final(s).world(answers))
                == refuse_clashes_step(texts(names@), probe, lex, var, old(s).world(answers)),
{
    let mut i: usize = 0;
    while i < names.len()
        invariant
            i <= names.len(),
            s.continues(*old(s)),
            forall|answers: Answers<'a>| #[trigger]
                s.agrees(answers) ==> old(s).agrees(answers)
                    && refuse_clashes_step(texts(names@), probe, lex, var, old(s).world(answers))
                    == refuse_clashes_from(
                        texts(names@),
                        probe,
                        lex,
                        var,
                        i as nat,
                        s.world(answers),
                    ),
        decreases names.len() - i,
    {
        if s.scopes().refuses_var(lex, var, names[i].as_str()) {
            return throw_about(
                s,
                ErrorKind::SyntaxError,
                "Identifier '",
                "' has already been declared",
                Subject::Key(Key::Declared { env: probe, at: i as u64 }),
            );
        } else {
        }
        i = i + 1;
    }
    return Ok(());
}

/// Refuses names that the global object does not take. From the item at `i` on.
pub open spec fn refuse_globals_from<'a>(
    names: Seq<Seq<char>>,
    probe: Env,
    g: Value,
    i: nat,
    w: World<'a>,
) -> Step<'a, ()>
    decreases names.len() - i,
{
    if i >= names.len() {
        (Ok(()), w)
    } else {
        let key: Key<'a> = Key::Declared { env: probe, at: i as u64 };
        let v: Value = w.scopes.value_in(probe, names[i as int]);
        next(
            is_callable_step(v, w),
            |f: bool, w: World<'a>|
                next(
                    global_property_step(g, key, w),
                    |existing: Option<GlobalProperty>, w: World<'a>|
                        next(
                            asks_flag(Request::IsExtensible(g), w),
                            |open: bool, w: World<'a>|
                                if declarable(f, existing, open) {
                                    refuse_globals_from(names, probe, g, i + 1, w)
                                } else {
                                    throws_about(
                                        ErrorKind::TypeError,
                                        "cannot declare global binding '",
                                        "'",
                                        Subject::Key(key),
                                        w,
                                    )
                                },
                        ),
                ),
        )
    }
}

/// Refuses names that the global object does not take.
pub open spec fn refuse_globals_step<'a>(
    names: Seq<Seq<char>>,
    probe: Env,
    g: Value,
    w: World<'a>,
) -> Step<'a, ()>
{
    refuse_globals_from(names, probe, g, 0, w)
}

/// Refuses names that the global object does not take.
pub fn refuse_globals<'h, 'a, H: Host<'a>>(
    s: &mut Session<'h, 'a, H>,
    names: &Vec<String>,
    probe: Env,
    g: Value,
) -> (out: Result<(), Abrupt<'a>>)
    ensures
        final(s).continues(*old(s)),
        forall|answers: Answers<'a>| #[trigger]
            final(s).agrees(answers) ==> old(s).agrees(answers) && (out, final(s).world(answers))
                == refuse_globals_step(texts(names@), probe, g, old(s).world(answers)),
{
    let mut i: usize = 0;
    while i < names.len()
        invariant
            i <= names.len(),
            s.continues(*old(s)),
            forall|answers: Answers<'a>| #[trigger]
                s.agrees(answers) ==> old(s).agrees(answers)
                    && refuse_globals_step(texts(names@), probe, g, old(s).world(answers))
                    == refuse_globals_from(texts(names@), probe, g, i as nat, s.world(answers)),
        decreases names.len() - i,
    {
        let key: Key<'a> = Key::Declared { env: probe, at: i as u64 };
        let v: Value = s.scopes().value_at(probe, names[i].as_str());
        let f: bool = is_callable(s, v)?;
        let existing: Option<GlobalProperty> = global_property(s, g, key)?;
        let open: bool = s.flag(Request::IsExtensible(g))?;
        if can_declare(f, existing, open) {
        } else {
            return throw_about(
                s,
                ErrorKind::TypeError,
                "cannot declare global binding '",
                "'",
                Subject::Key(key),
            );
        }
        i = i + 1;
    }
    return Ok(());
}

/// Creates hoisted names as properties of the global object. From the item at `i` on.
pub open spec fn create_globals_from<'a>(
    names: Seq<Seq<char>>,
    probe: Env,
    g: Value,
    i: nat,
    w: World<'a>,
) -> Step<'a, ()>
    decreases names.len() - i,
{
    if i >= names.len() {
        (Ok(()), w)
    } else {
        let key: Key<'a> = Key::Declared { env: probe, at: i as u64 };
        let v: Value = w.scopes.value_in(probe, names[i as int]);
        next(
            is_callable_step(v, w),
            |f: bool, w: World<'a>|
                next(
                    global_property_step(g, key, w),
                    |existing: Option<GlobalProperty>, w: World<'a>|
                        next(
                            asks_flag(Request::IsExtensible(g), w),
                            |open: bool, w: World<'a>| {
                                let effect: Declare = declaration(true, f, false, existing, open);
                                match effect {
                                    Declare::DefineGlobal => {
                                        let w = w.ask(
                                            Request::DefineOwn { base: g, key, prop: Property::of(v, true, true, true) },
                                        ).1;
                                        create_globals_from(names, probe, g, i + 1, w)
                                    },
                                    Declare::ReplaceGlobal => {
                                        next(
                                            set_own_value_step(g, key, v, w),
                                            |u: (), w: World<'a>|
                                                create_globals_from(names, probe, g, i + 1, w),
                                        )
                                    },
                                    Declare::AddGlobal => {
                                        let w = w.ask(
                                            Request::DefineOwn { base: g, key, prop: Property::of(Value::Undefined, true, true, true) },
                                        ).1;
                                        create_globals_from(names, probe, g, i + 1, w)
                                    },
                                    _ => {
                                        create_globals_from(names, probe, g, i + 1, w)
                                    },
                                }
                            },
                        ),
                ),
        )
    }
}

/// Creates hoisted names as properties of the global object.
pub open spec fn create_globals_step<'a>(
    names: Seq<Seq<char>>,
    probe: Env,
    g: Value,
    w: World<'a>,
) -> Step<'a, ()>
{
    create_globals_from(names, probe, g, 0, w)
}

/// Creates hoisted names as properties of the global object.
pub fn create_globals<'h, 'a, H: Host<'a>>(
    s: &mut Session<'h, 'a, H>,
    names: &Vec<String>,
    probe: Env,
    g: Value,
) -> (out: Result<(), Abrupt<'a>>)
    ensures
        final(s).continues(*old(s)),
        forall|answers: Answers<'a>| #[trigger]
            final(s).agrees(answers) ==> old(s).agrees(answers) && (out, final(s).world(answers))
                == create_globals_step(texts(names@), probe, g, old(s).world(answers)),
{
    let mut i: usize = 0;
    while i < names.len()
        invariant
            i <= names.len(),
            s.continues(*old(s)),
            forall|answers: Answers<'a>| #[trigger]
                s.agrees(answers) ==> old(s).agrees(answers)
                    && create_globals_step(texts(names@), probe, g, old(s).world(answers))
                    == create_globals_from(texts(names@), probe, g, i as nat, s.world(answers)),
        decreases names.len() - i,
    {
        let key: Key<'a> = Key::Declared { env: probe, at: i as u64 };
        let v: Value = s.scopes().value_at(probe, names[i].as_str());
        let f: bool = is_callable(s, v)?;
        let existing: Option<GlobalProperty> = global_property(s, g, key)?;
        let open: bool = s.flag(Request::IsExtensible(g))?;
        let effect: Declare = declare(true, f, false, existing, open);
        match effect {
            Declare::DefineGlobal => {
                let _ = s.ask(Request::DefineOwn { base: g, key, prop: Property::plain(v) });
            },
            Declare::ReplaceGlobal => {
                let u: () = set_own_value(s, g, key, v)?;
            },
            Declare::AddGlobal => {
                let _ = s.ask(
                    Request::DefineOwn { base: g, key, prop: Property::plain(Value::Undefined) },
                );
            },
            _ => {
            },
        }
        i = i + 1;
    }
    return Ok(());
}

/// Creates hoisted names in a scope: a function takes the name, a `var` only where it is not there.
/// They can be deleted. From the item at `i` on.
pub open spec fn create_names_from<'a>(
    names: Seq<Seq<char>>,
    probe: Env,
    var: Env,
    i: nat,
    w: World<'a>,
) -> Step<'a, ()>
    decreases names.len() - i,
{
    if i >= names.len() {
        (Ok(()), w)
    } else {
        let v: Value = w.scopes.value_in(probe, names[i as int]);
        next(
            is_callable_step(v, w),
            |f: bool, w: World<'a>| {
                let bound: bool = w.scopes.binds(var, names[i as int]);
                let effect: Declare = declaration(false, f, bound, None, false);
                match effect {
                    Declare::Bind => {
                        let w = w.bind_declared(var, probe, i as usize, v);
                        create_names_from(names, probe, var, i + 1, w)
                    },
                    Declare::BindUndefined => {
                        let w = w.bind_declared(var, probe, i as usize, Value::Undefined);
                        create_names_from(names, probe, var, i + 1, w)
                    },
                    _ => create_names_from(names, probe, var, i + 1, w),
                }
            },
        )
    }
}

/// Creates hoisted names in a scope: a function takes the name, a `var` only where it is not there.
/// They can be deleted.
pub open spec fn create_names_step<'a>(
    names: Seq<Seq<char>>,
    probe: Env,
    var: Env,
    w: World<'a>,
) -> Step<'a, ()>
{
    create_names_from(names, probe, var, 0, w)
}

/// Creates hoisted names in a scope: a function takes the name, a `var` only where it is not there.
/// They can be deleted.
pub fn create_names<'h, 'a, H: Host<'a>>(
    s: &mut Session<'h, 'a, H>,
    names: &Vec<String>,
    probe: Env,
    var: Env,
) -> (out: Result<(), Abrupt<'a>>)
    ensures
        final(s).continues(*old(s)),
        forall|answers: Answers<'a>| #[trigger]
            final(s).agrees(answers) ==> old(s).agrees(answers) && (out, final(s).world(answers))
                == create_names_step(texts(names@), probe, var, old(s).world(answers)),
{
    let mut i: usize = 0;
    while i < names.len()
        invariant
            i <= names.len(),
            s.continues(*old(s)),
            forall|answers: Answers<'a>| #[trigger]
                s.agrees(answers) ==> old(s).agrees(answers)
                    && create_names_step(texts(names@), probe, var, old(s).world(answers))
                    == create_names_from(texts(names@), probe, var, i as nat, s.world(answers)),
        decreases names.len() - i,
    {
        let v: Value = s.scopes().value_at(probe, names[i].as_str());
        let f: bool = is_callable(s, v)?;
        let bound: bool = s.scopes().has_binding(var, names[i].as_str());
        let effect: Declare = declare(false, f, bound, None, false);
        match effect {
            Declare::Bind => {
                s.bind_declared(var, probe, i, v);
            },
            Declare::BindUndefined => {
                s.bind_declared(var, probe, i, Value::Undefined);
            },
            _ => {
            },
        }
        i = i + 1;
    }
    return Ok(());
}

/// EvalDeclarationInstantiation: hoists the names of evaluated code on trial, refuses those that
/// clash or that the global object does not take, and creates the others. Its lexical names stay in
/// its own scope.
pub open spec fn eval_declaration_instantiation_step<'a>(
    body: &'a Vec<Stmt>,
    var: Env,
    lex: Env,
    strict: bool,
    w: World<'a>,
) -> Step<'a, ()>
{
    let probe: Env = w.next_scope();
    let w = w.new_scope(Some(lex), None, false, false);
    let saved: bool = w.strict;
    let w = World { strict: strict, ..w };
    let w = w.ask(Request::HoistVars { stmts: body, env: probe }).1;
    let w = World { strict: saved, ..w };
    let names: Seq<Seq<char> > = w.scopes.names_at(probe);
    next(
        if strict {
            (Ok(()), w)
        } else {
            refuse_clashes_step(names, probe, lex, var, w)
        },
        |c: (), w: World<'a>|
            next(
                if var == 0 {
                    next(
                        asks(Request::GlobalObject, w),
                        |g: Value, w: World<'a>|
                            next(
                                refuse_globals_step(names, probe, g, w),
                                |r: (), w: World<'a>|
                                    create_globals_step(names, probe, g, w),
                            ),
                    )
                } else {
                    create_names_step(names, probe, var, w)
                },
                |d: (), w: World<'a>| {
                    let w = w.empty_scope(probe);
                    let w = w.declare_block(body, lex);
                    (Ok(()), w)
                },
            ),
    )
}

/// EvalDeclarationInstantiation: hoists the names of evaluated code on trial, refuses those that
/// clash or that the global object does not take, and creates the others. Its lexical names stay in
/// its own scope.
#[verifier::spinoff_prover]
pub fn eval_declaration_instantiation<'h, 'a, H: Host<'a>>(
    s: &mut Session<'h, 'a, H>,
    body: &'a Vec<Stmt>,
    var: Env,
    lex: Env,
    strict: bool,
) -> (out: Result<(), Abrupt<'a>>)
    ensures
        final(s).continues(*old(s)),
        forall|answers: Answers<'a>| #[trigger]
            final(s).agrees(answers) ==> old(s).agrees(answers) && (out, final(s).world(answers))
                == eval_declaration_instantiation_step(
                    body,
                    var,
                    lex,
                    strict,
                    old(s).world(answers),
                ),
{
    let probe: Env = s.new_scope(Some(lex), None, false, false);
    let saved: bool = s.strict_mode();
    s.set_strict(strict);
    let _ = s.ask(Request::HoistVars { stmts: body, env: probe });
    s.set_strict(saved);
    let names: Vec<String> = s.scopes().names_in(probe);
    let c: () = if strict {
        ()
    } else {
        refuse_clashes(s, &names, probe, lex, var)?
    };
    let d: () = if var == 0 {
        let g: Value = s.value(Request::GlobalObject)?;
        let r: () = refuse_globals(s, &names, probe, g)?;
        create_globals(s, &names, probe, g)?
    } else {
        create_names(s, &names, probe, var)?
    };
    s.empty_scope(probe);
    s.declare_block(body, lex);
    return Ok(());
}

/// Declares the names of evaluated code and runs it, strict or not.
pub open spec fn run_eval_body_step<'a>(
    body: &'a Vec<Stmt>,
    var: Env,
    lex: Env,
    strict: bool,
    depth: u64,
    w: World<'a>,
) -> Step<'a, Value>
    decreases depth, body, 3nat, 0nat,
{
    let saved: bool = w.strict;
    let (d, w) = eval_declaration_instantiation_step(body, var, lex, strict, w);
    let w = World { strict: strict, ..w };
    let (r, w) = run_declared_step(d, body, lex, depth, w);
    let w = World { strict: saved, ..w };
    (r, w)
}

/// Declares the names of evaluated code and runs it, strict or not.
pub fn run_eval_body<'h, 'a, H: Host<'a>>(
    s: &mut Session<'h, 'a, H>,
    body: &'a Vec<Stmt>,
    var: Env,
    lex: Env,
    strict: bool,
    depth: u64,
) -> (out: Result<Value, Abrupt<'a>>)
    ensures
        final(s).continues(*old(s)),
        forall|answers: Answers<'a>| #[trigger]
            final(s).agrees(answers) ==> old(s).agrees(answers) && (out, final(s).world(answers))
                == run_eval_body_step(body, var, lex, strict, depth, old(s).world(answers)),
    decreases depth, body, 3nat, 0nat,
{
    let saved: bool = s.strict_mode();
    let d: Result<(), Abrupt<'a>> = eval_declaration_instantiation(s, body, var, lex, strict);
    s.set_strict(strict);
    let r: Completion<'a> = run_declared(s, d, body, lex, depth);
    s.set_strict(saved);
    return r;
}

/// Runs evaluated code whose names could be declared.
pub open spec fn run_declared_step<'a>(
    declared: Result<(), Abrupt<'a>>,
    body: &'a Vec<Stmt>,
    lex: Env,
    depth: u64,
    w: World<'a>,
) -> Step<'a, Value>
    decreases depth, body, 2nat, 0nat,
{
    match declared {
        Ok(_) => run_stmt_list_step(body, lex, depth, w),
        Err(a) => (Err(a), w),
    }
}

/// Runs evaluated code whose names could be declared.
pub fn run_declared<'h, 'a, H: Host<'a>>(
    s: &mut Session<'h, 'a, H>,
    declared: Result<(), Abrupt<'a>>,
    body: &'a Vec<Stmt>,
    lex: Env,
    depth: u64,
) -> (out: Result<Value, Abrupt<'a>>)
    ensures
        final(s).continues(*old(s)),
        forall|answers: Answers<'a>| #[trigger]
            final(s).agrees(answers) ==> old(s).agrees(answers) && (out, final(s).world(answers))
                == run_declared_step(declared, body, lex, depth, old(s).world(answers)),
    decreases depth, body, 2nat, 0nat,
{
    match declared {
        Ok(_) => {
            return run_stmt_list(s, body, lex, depth);
        },
        Err(a) => {
            return Err(a);
        },
    }
}

/// PerformEval of parsed code: checks what it holds against its place, makes its scope, declares
/// its names and runs it.
pub open spec fn perform_eval_step<'a>(
    body: &'a Vec<Stmt>,
    caller: Env,
    direct: bool,
    super_call: bool,
    depth: u64,
    w: World<'a>,
) -> Step<'a, Value>
    decreases depth, body, 4nat, 0nat,
{
    let fault: Option<&'static str> = w.scopes.misplaced(body@, caller, direct, super_call);
    match fault {
        Some(message) => {
            next(
                make_error_step(ErrorKind::SyntaxError, message, w),
                |e: Value, w: World<'a>| (Err(Abrupt::Throw(e)), w),
            )
        },
        None => {
            let strict: bool = (direct && w.strict) || begins_strict(body@);
            let place: EvalPlace = w.scopes.place(caller, direct, strict);
            match place {
                EvalPlace::Own(around) => {
                    let env: Env = w.next_scope();
                    let w = w.new_scope(Some(around), None, false, true);
                    run_eval_body_step(body, env, env, strict, depth, w)
                },
                EvalPlace::Shared(var, around) => {
                    let env: Env = w.next_scope();
                    let w = w.new_scope(Some(around), None, false, false);
                    run_eval_body_step(body, var, env, strict, depth, w)
                },
            }
        },
    }
}

/// PerformEval of parsed code: checks what it holds against its place, makes its scope, declares
/// its names and runs it.
#[verifier::spinoff_prover]
pub fn perform_eval<'h, 'a, H: Host<'a>>(
    s: &mut Session<'h, 'a, H>,
    body: &'a Vec<Stmt>,
    caller: Env,
    direct: bool,
    super_call: bool,
    depth: u64,
) -> (out: Result<Value, Abrupt<'a>>)
    ensures
        final(s).continues(*old(s)),
        forall|answers: Answers<'a>| #[trigger]
            final(s).agrees(answers) ==> old(s).agrees(answers) && (out, final(s).world(answers))
                == perform_eval_step(
                    body,
                    caller,
                    direct,
                    super_call,
                    depth,
                    old(s).world(answers),
                ),
    decreases depth, body, 4nat, 0nat,
{
    let fault: Option<&'static str> = s.scopes().eval_fault(body, caller, direct, super_call);
    match fault {
        Some(message) => {
            let e: Value = make_error(s, ErrorKind::SyntaxError, message)?;
            return Err(Abrupt::Throw(e));
        },
        None => {
            let strict: bool = (direct && s.strict_mode()) || directive_strict(body);
            let place: EvalPlace = s.scopes().eval_place(caller, direct, strict);
            match place {
                EvalPlace::Own(around) => {
                    let env: Env = s.new_scope(Some(around), None, false, true);
                    return run_eval_body(s, body, env, env, strict, depth);
                },
                EvalPlace::Shared(var, around) => {
                    let env: Env = s.new_scope(Some(around), None, false, false);
                    return run_eval_body(s, body, var, env, strict, depth);
                },
            }
        },
    }
}

} // verus!
