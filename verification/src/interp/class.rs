//! Classes: their definition, the fields of their instances and `super(..)`.
use vstd::prelude::*;

use crate::ast::{Class, ClassMember, Expr, Function, MemberKind, PropKey};
use crate::grammar::Symbol;
use crate::interp::eval::{
    eval, eval_prop_key, eval_prop_key_step, eval_step, is_private, private_name,
};
use crate::interp::exec::{run_stmt_list, run_stmt_list_step};
use crate::interp::object::{
    define_halves, define_halves_step, resolve_private, resolve_private_step, value_is_constructor,
    value_is_constructor_step,
};
use crate::interp::operate::{
    call_bare, call_bare_step, call_with, call_with_step, define_name, define_name_step,
    fn_name_for_key, fn_name_for_key_step, is_callable, is_callable_step, key_display,
    key_display_step, key_of_value, name_function, name_function_step, name_method,
    name_method_step, throw, throws, value_key,
};
use crate::interp::session::{
    asks, asks_flag, asks_handle, copy_values, field_views, next, place_of_class, Abrupt, Answers,
    Completion, Env, ErrorKind, FieldInit, FieldRecord, FieldView, Flags, Host, Key, Name,
    PrivateMember, Request, Session, StaticInit, Step, Value, World,
};
use crate::modules::progress::{bump, bumped};
use crate::number::ONE;
use crate::scan::{anonymous_fn, is_anonymous_fn};
use crate::text::{decimal, decimal_string, join, same_text};
use crate::value::props::{accessor_name, make_private_accessor, private_accessor, Property};

verus! {

/// The parts of a class under construction.
#[derive(Clone, Copy, PartialEq, Eq, Structural, Debug)]
pub struct ClassParts {
    pub ctor: Value,
    pub proto: Value,
    /// The scope of the class's own name.
    pub name_env: Env,
    /// The scope of its private names.
    pub class_env: Env,
    /// The scopes of its instance and static members.
    pub inst_env: Env,
    pub static_env: Env,
    pub record: u64,
    /// What decorators have added to run on each instance, and on the class.
    pub instance_inits: u64,
    pub static_inits: u64,
}

/// The function of the first constructor among the members, from the one at `i` on.
pub open spec fn constructor_from<'a>(members: Seq<ClassMember>, i: nat) -> Option<&'a Function>
    decreases members.len() - i,
{
    if i >= members.len() {
        None
    } else if members[i as int].kind == MemberKind::Constructor {
        match members[i as int].func {
            Some(f) => Some(&*f),
            None => None,
        }
    } else {
        constructor_from(members, i + 1)
    }
}

fn find_constructor<'a>(members: &'a Vec<ClassMember>) -> (r: Option<&'a Function>)
    ensures
        r == constructor_from(members@, 0),
{
    let mut i: usize = 0;
    while i < members.len()
        invariant
            i <= members.len(),
            constructor_from(members@, 0) == constructor_from(members@, i as nat),
        decreases members.len() - i,
    {
        if members[i].kind == MemberKind::Constructor {
            return match &members[i].func {
                Some(f) => Some(&**f),
                None => None,
            };
        }
        i = i + 1;
    }
    None
}

/// The private name that a key is.
pub open spec fn private_key<'a>(key: &'a PropKey) -> Option<&'a String> {
    match key {
        PropKey::Ident(n) => if private_name(n@) {
            Some(n)
        } else {
            None
        },
        _ => None,
    }
}

fn private_of<'a>(key: &'a PropKey) -> (r: Option<&'a String>)
    ensures
        r == private_key(key),
{
    match key {
        PropKey::Ident(n) => if is_private(n) {
            Some(n)
        } else {
            None
        },
        _ => None,
    }
}

/// The initial value of a member.
pub open spec fn init_of<'a>(m: &'a ClassMember) -> Option<&'a Expr> {
    match &m.value {
        Some(e) => Some(e),
        None => None,
    }
}

fn member_init<'a>(m: &'a ClassMember) -> (r: Option<&'a Expr>)
    ensures
        r == init_of(m),
{
    match &m.value {
        Some(e) => Some(e),
        None => None,
    }
}

/// The key of a private name in one class evaluation.
fn private_text(name: &str, n: u64) -> (r: String)
    ensures
        r@ == name@ + "\u{1}"@ + decimal(n as nat),
{
    let t = join(name, "\u{1}");
    let d = decimal_string(n);
    join(t.as_str(), d.as_str())
}

/// The key of the private field behind an accessor.
fn backing_text(n: u64) -> (r: String)
    ensures
        r@ == "#\0acc"@ + decimal(n as nat),
{
    let d = decimal_string(n);
    join("#\0acc", d.as_str())
}

// ---- decorators

/// Gives a function its name and the number of its parameters, as the bits of a double.
pub open spec fn make_callable_step<'a>(
    f: Value,
    name: &'static str,
    length: u64,
    w: World<'a>,
) -> Step<'a, ()>
{
    let t: Value = w.next_text();
    let w = w.add_text(name@);
    next(
        define_name_step(f, t, w),
        |u: (), w: World<'a>| define_length_step(f, length, w),
    )
}

/// Gives a function its name and the number of its parameters, as the bits of a double.
pub fn make_callable<'h, 'a, H: Host<'a>>(
    s: &mut Session<'h, 'a, H>,
    f: Value,
    name: &'static str,
    length: u64,
) -> (out: Result<(), Abrupt<'a>>)
    ensures
        final(s).continues(*old(s)),
        forall|answers: Answers<'a>| #[trigger]
            final(s).agrees(answers) ==> old(s).agrees(answers) && (out, final(s).world(answers))
                == make_callable_step(f, name, length, old(s).world(answers)),
{
    let t: Value = s.add_text(name.to_owned());
    let u: () = define_name(s, f, t)?;
    return define_length(s, f, length);
}

/// Gives a function the number of its parameters, as the bits of a double.
pub open spec fn define_length_step<'a>(f: Value, length: u64, w: World<'a>) -> Step<'a, ()>
{
    let w = w.ask(
        Request::DefineOwn { base: f, key: Key::Fixed("length"), prop: Property::of(Value::Num(length), false, false, true) },
    ).1;
    (Ok(()), w)
}

/// Gives a function the number of its parameters, as the bits of a double.
pub fn define_length<'h, 'a, H: Host<'a>>(
    s: &mut Session<'h, 'a, H>,
    f: Value,
    length: u64,
) -> (out: Result<(), Abrupt<'a>>)
    ensures
        final(s).continues(*old(s)),
        forall|answers: Answers<'a>| #[trigger]
            final(s).agrees(answers) ==> old(s).agrees(answers) && (out, final(s).world(answers))
                == define_length_step(f, length, old(s).world(answers)),
{
    let _ = s.ask(
        Request::DefineOwn { base: f, key: Key::Fixed("length"), prop: Property::data(Value::Num(length), false, false, true) },
    );
    return Ok(());
}

/// The context object that a decorator is called with.
pub open spec fn make_decorator_context_step<'a>(
    kind: &'static str,
    key: Key<'a>,
    is_static: bool,
    is_private: bool,
    w: World<'a>,
) -> Step<'a, Value>
{
    next(
        match key {
            Key::Symbol(h) => (Ok(Value::Sym(h)), w),
            _ => key_display_step(key, w),
        },
        |name: Value, w: World<'a>|
            next(
                asks(Request::MakeObject, w),
                |access: Value, w: World<'a>|
                    next(
                        if kind@ == "method"@
                            || kind@ == "getter"@
                            || kind@ == "field"@
                            || kind@ == "accessor"@
                        {
                            next(
                                asks(Request::MakePropertyFunction { key, getter: true }, w),
                                |f: Value, w: World<'a>|
                                    next(
                                        make_callable_step(f, "get", ONE, w),
                                        |c: (), w: World<'a>| {
                                            let w = w.ask(
                                                Request::DefineOwn { base: access, key: Key::Fixed("get"), prop: Property::of(f, true, true, true) },
                                            ).1;
                                            (Ok(()), w)
                                        },
                                    ),
                            )
                        } else {
                            (Ok(()), w)
                        },
                        |u: (), w: World<'a>|
                            next(
                                if kind@ == "setter"@ || kind@ == "field"@ || kind@ == "accessor"@ {
                                    next(
                                        asks(
                                            Request::MakePropertyFunction { key, getter: false },
                                            w,
                                        ),
                                        |f: Value, w: World<'a>|
                                            next(
                                                make_callable_step(
                                                    f,
                                                    "set",
                                                    0x4000_0000_0000_0000,
                                                    w,
                                                ),
                                                |c: (), w: World<'a>| {
                                                    let w = w.ask(
                                                        Request::DefineOwn { base: access, key: Key::Fixed("set"), prop: Property::of(f, true, true, true) },
                                                    ).1;
                                                    (Ok(()), w)
                                                },
                                            ),
                                    )
                                } else {
                                    (Ok(()), w)
                                },
                                |t: (), w: World<'a>|
                                    next(
                                        asks(Request::AddInitializerFunction, w),
                                        |adder: Value, w: World<'a>| {
                                            let kind_text: Value = w.next_text();
                                            let w = w.add_text(kind@);
                                            next(
                                                asks(Request::MakeObject, w),
                                                |ctx: Value, w: World<'a>| {
                                                    let w = w.ask(
                                                        Request::DefineOwn { base: ctx, key: Key::Fixed("kind"), prop: Property::of(kind_text, true, true, true) },
                                                    ).1;
                                                    let w = w.ask(
                                                        Request::DefineOwn { base: ctx, key: Key::Fixed("name"), prop: Property::of(name, true, true, true) },
                                                    ).1;
                                                    let w = w.ask(
                                                        Request::DefineOwn { base: ctx, key: Key::Fixed("static"), prop: Property::of(Value::Bool(is_static), true, true, true) },
                                                    ).1;
                                                    let w = w.ask(
                                                        Request::DefineOwn { base: ctx, key: Key::Fixed("private"), prop: Property::of(Value::Bool(is_private), true, true, true) },
                                                    ).1;
                                                    let w = w.ask(
                                                        Request::DefineOwn { base: ctx, key: Key::Fixed("access"), prop: Property::of(access, true, true, true) },
                                                    ).1;
                                                    let w = w.ask(
                                                        Request::DefineOwn { base: ctx, key: Key::Fixed("addInitializer"), prop: Property::of(adder, true, true, true) },
                                                    ).1;
                                                    let w = w.ask(
                                                        Request::DefineOwn { base: ctx, key: Key::Fixed("metadata"), prop: Property::of(Value::Undefined, true, true, true) },
                                                    ).1;
                                                    (Ok(ctx), w)
                                                },
                                            )
                                        },
                                    ),
                            ),
                    ),
            ),
    )
}

/// The context object that a decorator is called with.
#[verifier::spinoff_prover]
pub fn make_decorator_context<'h, 'a, H: Host<'a>>(
    s: &mut Session<'h, 'a, H>,
    kind: &'static str,
    key: Key<'a>,
    is_static: bool,
    is_private: bool,
) -> (out: Result<Value, Abrupt<'a>>)
    ensures
        final(s).continues(*old(s)),
        forall|answers: Answers<'a>| #[trigger]
            final(s).agrees(answers) ==> old(s).agrees(answers) && (out, final(s).world(answers))
                == make_decorator_context_step(
                    kind,
                    key,
                    is_static,
                    is_private,
                    old(s).world(answers),
                ),
{
    let name: Value = match key {
        Key::Symbol(h) => {
            Value::Sym(h)
        },
        _ => {
            key_display(s, key)?
        },
    };
    let access: Value = s.value(Request::MakeObject)?;
    let u: () = if same_text(kind, "method")
        || same_text(kind, "getter")
        || same_text(kind, "field")
        || same_text(kind, "accessor")
    {
        let f: Value = s.value(Request::MakePropertyFunction { key, getter: true })?;
        let c: () = make_callable(s, f, "get", ONE)?;
        let _ = s.ask(
            Request::DefineOwn { base: access, key: Key::Fixed("get"), prop: Property::plain(f) },
        );
        ()
    } else {
        ()
    };
    let t: () = if same_text(kind, "setter")
        || same_text(kind, "field")
        || same_text(kind, "accessor")
    {
        let f: Value = s.value(Request::MakePropertyFunction { key, getter: false })?;
        let c: () = make_callable(s, f, "set", 0x4000_0000_0000_0000)?;
        let _ = s.ask(
            Request::DefineOwn { base: access, key: Key::Fixed("set"), prop: Property::plain(f) },
        );
        ()
    } else {
        ()
    };
    let adder: Value = s.value(Request::AddInitializerFunction)?;
    let kind_text: Value = s.add_text(kind.to_owned());
    let ctx: Value = s.value(Request::MakeObject)?;
    let _ = s.ask(
        Request::DefineOwn { base: ctx, key: Key::Fixed("kind"), prop: Property::plain(kind_text) },
    );
    let _ = s.ask(
        Request::DefineOwn { base: ctx, key: Key::Fixed("name"), prop: Property::plain(name) },
    );
    let _ = s.ask(
        Request::DefineOwn { base: ctx, key: Key::Fixed("static"), prop: Property::plain(Value::Bool(is_static)) },
    );
    let _ = s.ask(
        Request::DefineOwn { base: ctx, key: Key::Fixed("private"), prop: Property::plain(Value::Bool(is_private)) },
    );
    let _ = s.ask(
        Request::DefineOwn { base: ctx, key: Key::Fixed("access"), prop: Property::plain(access) },
    );
    let _ = s.ask(
        Request::DefineOwn { base: ctx, key: Key::Fixed("addInitializer"), prop: Property::plain(adder) },
    );
    let _ = s.ask(
        Request::DefineOwn { base: ctx, key: Key::Fixed("metadata"), prop: Property::plain(Value::Undefined) },
    );
    return Ok(ctx);
}

/// A decorator and the context that it is called with.
pub open spec fn prepare_decorator_step<'a>(
    decorator: &'a Expr,
    kind: &'static str,
    key: Key<'a>,
    is_static: bool,
    is_private: bool,
    env: Env,
    depth: u64,
    w: World<'a>,
) -> Step<'a, (Value, Value)>
    decreases depth, decorator, 3nat, 0nat,
{
    next(
        eval_step(decorator, env, depth, w),
        |f: Value, w: World<'a>|
            next(
                is_callable_step(f, w),
                |ok: bool, w: World<'a>|
                    if !ok {
                        throws(ErrorKind::TypeError, "decorator is not callable", w)
                    } else {
                        next(
                            make_decorator_context_step(kind, key, is_static, is_private, w),
                            |ctx: Value, w: World<'a>| (Ok((f, ctx)), w),
                        )
                    },
            ),
    )
}

/// A decorator and the context that it is called with.
pub fn prepare_decorator<'h, 'a, H: Host<'a>>(
    s: &mut Session<'h, 'a, H>,
    decorator: &'a Expr,
    kind: &'static str,
    key: Key<'a>,
    is_static: bool,
    is_private: bool,
    env: Env,
    depth: u64,
) -> (out: Result<(Value, Value), Abrupt<'a>>)
    ensures
        final(s).continues(*old(s)),
        forall|answers: Answers<'a>| #[trigger]
            final(s).agrees(answers) ==> old(s).agrees(answers) && (out, final(s).world(answers))
                == prepare_decorator_step(
                    decorator,
                    kind,
                    key,
                    is_static,
                    is_private,
                    env,
                    depth,
                    old(s).world(answers),
                ),
    decreases depth, decorator, 3nat, 0nat,
{
    let f: Value = eval(s, decorator, env, depth)?;
    let ok: bool = is_callable(s, f)?;
    if !ok {
        return throw(s, ErrorKind::TypeError, "decorator is not callable");
    }
    let ctx: Value = make_decorator_context(s, kind, key, is_static, is_private)?;
    return Ok((f, ctx));
}

/// What the `addInitializer` function of a decorator's context does: a function is added to run
/// later.
pub open spec fn add_initializer_step<'a>(f: Value, w: World<'a>) -> Step<'a, Value>
{
    next(
        is_callable_step(f, w),
        |ok: bool, w: World<'a>|
            if !ok {
                throws(ErrorKind::TypeError, "addInitializer expects a callable", w)
            } else {
                let w = w.add_added(f);
                (Ok(Value::Undefined), w)
            },
    )
}

/// What the `addInitializer` function of a decorator's context does: a function is added to run
/// later.
pub fn add_initializer<'h, 'a, H: Host<'a>>(
    s: &mut Session<'h, 'a, H>,
    f: Value,
) -> (out: Result<Value, Abrupt<'a>>)
    ensures
        final(s).continues(*old(s)),
        forall|answers: Answers<'a>| #[trigger]
            final(s).agrees(answers) ==> old(s).agrees(answers) && (out, final(s).world(answers))
                == add_initializer_step(f, old(s).world(answers)),
{
    let ok: bool = is_callable(s, f)?;
    if !ok {
        return throw(s, ErrorKind::TypeError, "addInitializer expects a callable");
    } else {
        s.add_added(f);
        return Ok(Value::Undefined);
    }
}

/// Calls a decorator with a value. What it adds to run later goes to a list.
pub open spec fn call_decorator_step<'a>(
    prepared: (Value, Value),
    value: Value,
    inits: u64,
    w: World<'a>,
) -> Step<'a, Value>
{
    let args: u64 = w.next_list();
    let w = w.new_list(Seq::empty());
    let w = w.push(args, value);
    let w = w.push(args, prepared.1);
    next(
        asks(Request::Call { func: prepared.0, this: Value::Undefined, args }, w),
        |r: Value, w: World<'a>| {
            let w = w.take_added(inits);
            (Ok(r), w)
        },
    )
}

/// Calls a decorator with a value. What it adds to run later goes to a list.
pub fn call_decorator<'h, 'a, H: Host<'a>>(
    s: &mut Session<'h, 'a, H>,
    prepared: (Value, Value),
    value: Value,
    inits: u64,
) -> (out: Result<Value, Abrupt<'a>>)
    ensures
        final(s).continues(*old(s)),
        forall|answers: Answers<'a>| #[trigger]
            final(s).agrees(answers) ==> old(s).agrees(answers) && (out, final(s).world(answers))
                == call_decorator_step(prepared, value, inits, old(s).world(answers)),
{
    let args: u64 = s.new_list(Vec::new());
    s.push(args, value);
    s.push(args, prepared.1);
    let r: Value = s.value(Request::Call { func: prepared.0, this: Value::Undefined, args })?;
    s.take_added(inits);
    return Ok(r);
}

/// Applies decorators to a method, a getter, a setter or a class, the last one first: a function
/// that one returns takes the place of the value. With `i` items left.
pub open spec fn decorate_callable_from<'a>(
    decorators: &'a Vec<Expr>,
    value: Value,
    kind: &'static str,
    key: Key<'a>,
    is_static: bool,
    is_private: bool,
    inits: u64,
    env: Env,
    depth: u64,
    i: nat,
    v: Value,
    w: World<'a>,
) -> Step<'a, Value>
    decreases depth, decorators, 0nat, i,
{
    if i == 0 || i > decorators@.len() {
        (Ok(v), w)
    } else {
        next(
            prepare_decorator_step(
                &decorators@[i - 1],
                kind,
                key,
                is_static,
                is_private,
                env,
                depth,
                w,
            ),
            |d: (Value, Value), w: World<'a>|
                next(
                    call_decorator_step(d, v, inits, w),
                    |r: Value, w: World<'a>|
                        if matches!(r, Value::Undefined) {
                            decorate_callable_from(
                                decorators,
                                value,
                                kind,
                                key,
                                is_static,
                                is_private,
                                inits,
                                env,
                                depth,
                                (i - 1) as nat,
                                v,
                                w,
                            )
                        } else {
                            next(
                                is_callable_step(r, w),
                                |ok: bool, w: World<'a>|
                                    if ok {
                                        decorate_callable_from(
                                            decorators,
                                            value,
                                            kind,
                                            key,
                                            is_static,
                                            is_private,
                                            inits,
                                            env,
                                            depth,
                                            (i - 1) as nat,
                                            r,
                                            w,
                                        )
                                    } else {
                                        throws(
                                            ErrorKind::TypeError,
                                            "decorator must return a function or undefined",
                                            w,
                                        )
                                    },
                            )
                        },
                ),
        )
    }
}

/// Applies decorators to a method, a getter, a setter or a class, the last one first: a function
/// that one returns takes the place of the value.
pub open spec fn decorate_callable_step<'a>(
    decorators: &'a Vec<Expr>,
    value: Value,
    kind: &'static str,
    key: Key<'a>,
    is_static: bool,
    is_private: bool,
    inits: u64,
    env: Env,
    depth: u64,
    w: World<'a>,
) -> Step<'a, Value>
    decreases depth, decorators, 0nat, decorators@.len() + 1,
{
    decorate_callable_from(
        decorators,
        value,
        kind,
        key,
        is_static,
        is_private,
        inits,
        env,
        depth,
        decorators@.len(),
        value,
        w,
    )
}

/// Applies decorators to a method, a getter, a setter or a class, the last one first: a function
/// that one returns takes the place of the value.
pub fn decorate_callable<'h, 'a, H: Host<'a>>(
    s: &mut Session<'h, 'a, H>,
    decorators: &'a Vec<Expr>,
    value: Value,
    kind: &'static str,
    key: Key<'a>,
    is_static: bool,
    is_private: bool,
    inits: u64,
    env: Env,
    depth: u64,
) -> (out: Result<Value, Abrupt<'a>>)
    ensures
        final(s).continues(*old(s)),
        forall|answers: Answers<'a>| #[trigger]
            final(s).agrees(answers) ==> old(s).agrees(answers) && (out, final(s).world(answers))
                == decorate_callable_step(
                    decorators,
                    value,
                    kind,
                    key,
                    is_static,
                    is_private,
                    inits,
                    env,
                    depth,
                    old(s).world(answers),
                ),
    decreases depth, decorators, 0nat, decorators@.len() + 1,
{
    let mut v: Value = value;
    let mut i: usize = decorators.len();
    while i > 0
        invariant
            i <= decorators.len(),
            s.continues(*old(s)),
            forall|answers: Answers<'a>| #[trigger]
                s.agrees(answers) ==> old(s).agrees(answers)
                    && decorate_callable_step(decorators, value, kind, key, is_static, is_private, inits, env, depth, old(s).world(answers))
                    == decorate_callable_from(
                        decorators,
                        value,
                        kind,
                        key,
                        is_static,
                        is_private,
                        inits,
                        env,
                        depth,
                        i as nat,
                        v,
                        s.world(answers),
                    ),
        decreases i,
    {
        let d: (Value, Value) = prepare_decorator(
            s,
            &decorators[i - 1],
            kind,
            key,
            is_static,
            is_private,
            env,
            depth,
        )?;
        let r: Value = call_decorator(s, d, v, inits)?;
        if matches!(r, Value::Undefined) {
        } else {
            let ok: bool = is_callable(s, r)?;
            if ok {
                v = r;
            } else {
                return throw(
                    s,
                    ErrorKind::TypeError,
                    "decorator must return a function or undefined",
                );
            }
        }
        i = i - 1;
    }
    return Ok(v);
}

/// Applies decorators to a field, the last one first: the functions that they return transform its
/// value. With `i` items left.
pub open spec fn decorate_field_from<'a>(
    decorators: &'a Vec<Expr>,
    transforms: u64,
    key: Key<'a>,
    is_static: bool,
    is_private: bool,
    inits: u64,
    env: Env,
    depth: u64,
    i: nat,
    w: World<'a>,
) -> Step<'a, ()>
    decreases depth, decorators, 0nat, i,
{
    if i == 0 || i > decorators@.len() {
        (Ok(()), w)
    } else {
        next(
            prepare_decorator_step(
                &decorators@[i - 1],
                "field",
                key,
                is_static,
                is_private,
                env,
                depth,
                w,
            ),
            |d: (Value, Value), w: World<'a>|
                next(
                    call_decorator_step(d, Value::Undefined, inits, w),
                    |r: Value, w: World<'a>|
                        if matches!(r, Value::Undefined) {
                            decorate_field_from(
                                decorators,
                                transforms,
                                key,
                                is_static,
                                is_private,
                                inits,
                                env,
                                depth,
                                (i - 1) as nat,
                                w,
                            )
                        } else {
                            next(
                                is_callable_step(r, w),
                                |ok: bool, w: World<'a>|
                                    if ok {
                                        let w = w.push(transforms, r);
                                        decorate_field_from(
                                            decorators,
                                            transforms,
                                            key,
                                            is_static,
                                            is_private,
                                            inits,
                                            env,
                                            depth,
                                            (i - 1) as nat,
                                            w,
                                        )
                                    } else {
                                        throws(
                                            ErrorKind::TypeError,
                                            "field decorator must return a function or undefined",
                                            w,
                                        )
                                    },
                            )
                        },
                ),
        )
    }
}

/// Applies decorators to a field, the last one first: the functions that they return transform its
/// value.
pub open spec fn decorate_field_step<'a>(
    decorators: &'a Vec<Expr>,
    transforms: u64,
    key: Key<'a>,
    is_static: bool,
    is_private: bool,
    inits: u64,
    env: Env,
    depth: u64,
    w: World<'a>,
) -> Step<'a, ()>
    decreases depth, decorators, 0nat, decorators@.len() + 1,
{
    decorate_field_from(
        decorators,
        transforms,
        key,
        is_static,
        is_private,
        inits,
        env,
        depth,
        decorators@.len(),
        w,
    )
}

/// Applies decorators to a field, the last one first: the functions that they return transform its
/// value.
pub fn decorate_field<'h, 'a, H: Host<'a>>(
    s: &mut Session<'h, 'a, H>,
    decorators: &'a Vec<Expr>,
    transforms: u64,
    key: Key<'a>,
    is_static: bool,
    is_private: bool,
    inits: u64,
    env: Env,
    depth: u64,
) -> (out: Result<(), Abrupt<'a>>)
    ensures
        final(s).continues(*old(s)),
        forall|answers: Answers<'a>| #[trigger]
            final(s).agrees(answers) ==> old(s).agrees(answers) && (out, final(s).world(answers))
                == decorate_field_step(
                    decorators,
                    transforms,
                    key,
                    is_static,
                    is_private,
                    inits,
                    env,
                    depth,
                    old(s).world(answers),
                ),
    decreases depth, decorators, 0nat, decorators@.len() + 1,
{
    let mut i: usize = decorators.len();
    while i > 0
        invariant
            i <= decorators.len(),
            s.continues(*old(s)),
            forall|answers: Answers<'a>| #[trigger]
                s.agrees(answers) ==> old(s).agrees(answers)
                    && decorate_field_step(decorators, transforms, key, is_static, is_private, inits, env, depth, old(s).world(answers))
                    == decorate_field_from(
                        decorators,
                        transforms,
                        key,
                        is_static,
                        is_private,
                        inits,
                        env,
                        depth,
                        i as nat,
                        s.world(answers),
                    ),
        decreases i,
    {
        let d: (Value, Value) = prepare_decorator(
            s,
            &decorators[i - 1],
            "field",
            key,
            is_static,
            is_private,
            env,
            depth,
        )?;
        let r: Value = call_decorator(s, d, Value::Undefined, inits)?;
        if matches!(r, Value::Undefined) {
        } else {
            let ok: bool = is_callable(s, r)?;
            if ok {
                s.push(transforms, r);
            } else {
                return throw(
                    s,
                    ErrorKind::TypeError,
                    "field decorator must return a function or undefined",
                );
            }
        }
        i = i - 1;
    }
    return Ok(());
}

/// A function that a decorator has put into an object under a key, or the one there was.
pub open spec fn replaced_half_step<'a>(
    made: Value,
    key: &'static str,
    half: Value,
    w: World<'a>,
) -> Step<'a, Value>
{
    next(
        asks(Request::GetMember { base: made, key: Key::Fixed(key) }, w),
        |f: Value, w: World<'a>|
            next(
                is_callable_step(f, w),
                |ok: bool, w: World<'a>|
                    if ok {
                        (Ok(f), w)
                    } else {
                        (Ok(half), w)
                    },
            ),
    )
}

/// A function that a decorator has put into an object under a key, or the one there was.
pub fn replaced_half<'h, 'a, H: Host<'a>>(
    s: &mut Session<'h, 'a, H>,
    made: Value,
    key: &'static str,
    half: Value,
) -> (out: Result<Value, Abrupt<'a>>)
    ensures
        final(s).continues(*old(s)),
        forall|answers: Answers<'a>| #[trigger]
            final(s).agrees(answers) ==> old(s).agrees(answers) && (out, final(s).world(answers))
                == replaced_half_step(made, key, half, old(s).world(answers)),
{
    let f: Value = s.value(Request::GetMember { base: made, key: Key::Fixed(key) })?;
    let ok: bool = is_callable(s, f)?;
    if ok {
        return Ok(f);
    } else {
        return Ok(half);
    }
}

/// Takes an accessor decorator's result into account: the halves it replaces, and an initial
/// transform.
pub open spec fn accept_accessor_step<'a>(
    made: Value,
    halves: (Value, Value),
    transforms: u64,
    w: World<'a>,
) -> Step<'a, (Value, Value)>
{
    next(
        replaced_half_step(made, "get", halves.0, w),
        |g: Value, w: World<'a>|
            next(
                replaced_half_step(made, "set", halves.1, w),
                |t: Value, w: World<'a>|
                    next(
                        asks(Request::GetMember { base: made, key: Key::Fixed("init") }, w),
                        |f: Value, w: World<'a>|
                            next(
                                is_callable_step(f, w),
                                |ok: bool, w: World<'a>|
                                    if ok {
                                        let w = w.push(transforms, f);
                                        (Ok((g, t)), w)
                                    } else {
                                        (Ok((g, t)), w)
                                    },
                            ),
                    ),
            ),
    )
}

/// Takes an accessor decorator's result into account: the halves it replaces, and an initial
/// transform.
pub fn accept_accessor<'h, 'a, H: Host<'a>>(
    s: &mut Session<'h, 'a, H>,
    made: Value,
    halves: (Value, Value),
    transforms: u64,
) -> (out: Result<(Value, Value), Abrupt<'a>>)
    ensures
        final(s).continues(*old(s)),
        forall|answers: Answers<'a>| #[trigger]
            final(s).agrees(answers) ==> old(s).agrees(answers) && (out, final(s).world(answers))
                == accept_accessor_step(made, halves, transforms, old(s).world(answers)),
{
    let g: Value = replaced_half(s, made, "get", halves.0)?;
    let t: Value = replaced_half(s, made, "set", halves.1)?;
    let f: Value = s.value(Request::GetMember { base: made, key: Key::Fixed("init") })?;
    let ok: bool = is_callable(s, f)?;
    if ok {
        s.push(transforms, f);
        return Ok((g, t));
    } else {
        return Ok((g, t));
    }
}

/// Applies decorators to an accessor, the last one first. With `i` items left.
pub open spec fn decorate_accessor_from<'a>(
    decorators: &'a Vec<Expr>,
    start: (Value, Value),
    transforms: u64,
    key: Key<'a>,
    is_static: bool,
    is_private: bool,
    inits: u64,
    env: Env,
    depth: u64,
    i: nat,
    halves: (Value, Value),
    w: World<'a>,
) -> Step<'a, (Value, Value)>
    decreases depth, decorators, 0nat, i,
{
    if i == 0 || i > decorators@.len() {
        (Ok(halves), w)
    } else {
        next(
            prepare_decorator_step(
                &decorators@[i - 1],
                "accessor",
                key,
                is_static,
                is_private,
                env,
                depth,
                w,
            ),
            |d: (Value, Value), w: World<'a>|
                next(
                    asks(Request::MakeObject, w),
                    |pair: Value, w: World<'a>| {
                        let w = w.ask(
                            Request::DefineOwn { base: pair, key: Key::Fixed("get"), prop: Property::of(halves.0, true, true, true) },
                        ).1;
                        let w = w.ask(
                            Request::DefineOwn { base: pair, key: Key::Fixed("set"), prop: Property::of(halves.1, true, true, true) },
                        ).1;
                        next(
                            call_decorator_step(d, pair, inits, w),
                            |r: Value, w: World<'a>|
                                match r {
                                    Value::Undefined => {
                                        decorate_accessor_from(
                                            decorators,
                                            start,
                                            transforms,
                                            key,
                                            is_static,
                                            is_private,
                                            inits,
                                            env,
                                            depth,
                                            (i - 1) as nat,
                                            halves,
                                            w,
                                        )
                                    },
                                    Value::Obj(_) => {
                                        next(
                                            accept_accessor_step(r, halves, transforms, w),
                                            |h: (Value, Value), w: World<'a>|
                                                decorate_accessor_from(
                                                    decorators,
                                                    start,
                                                    transforms,
                                                    key,
                                                    is_static,
                                                    is_private,
                                                    inits,
                                                    env,
                                                    depth,
                                                    (i - 1) as nat,
                                                    h,
                                                    w,
                                                ),
                                        )
                                    },
                                    _ => {
                                        throws(
                                            ErrorKind::TypeError,
                                            "accessor decorator must return an object or undefined",
                                            w,
                                        )
                                    },
                                },
                        )
                    },
                ),
        )
    }
}

/// Applies decorators to an accessor, the last one first.
pub open spec fn decorate_accessor_step<'a>(
    decorators: &'a Vec<Expr>,
    start: (Value, Value),
    transforms: u64,
    key: Key<'a>,
    is_static: bool,
    is_private: bool,
    inits: u64,
    env: Env,
    depth: u64,
    w: World<'a>,
) -> Step<'a, (Value, Value)>
    decreases depth, decorators, 0nat, decorators@.len() + 1,
{
    decorate_accessor_from(
        decorators,
        start,
        transforms,
        key,
        is_static,
        is_private,
        inits,
        env,
        depth,
        decorators@.len(),
        start,
        w,
    )
}

/// Applies decorators to an accessor, the last one first.
pub fn decorate_accessor<'h, 'a, H: Host<'a>>(
    s: &mut Session<'h, 'a, H>,
    decorators: &'a Vec<Expr>,
    start: (Value, Value),
    transforms: u64,
    key: Key<'a>,
    is_static: bool,
    is_private: bool,
    inits: u64,
    env: Env,
    depth: u64,
) -> (out: Result<(Value, Value), Abrupt<'a>>)
    ensures
        final(s).continues(*old(s)),
        forall|answers: Answers<'a>| #[trigger]
            final(s).agrees(answers) ==> old(s).agrees(answers) && (out, final(s).world(answers))
                == decorate_accessor_step(
                    decorators,
                    start,
                    transforms,
                    key,
                    is_static,
                    is_private,
                    inits,
                    env,
                    depth,
                    old(s).world(answers),
                ),
    decreases depth, decorators, 0nat, decorators@.len() + 1,
{
    let mut halves: (Value, Value) = start;
    let mut i: usize = decorators.len();
    while i > 0
        invariant
            i <= decorators.len(),
            s.continues(*old(s)),
            forall|answers: Answers<'a>| #[trigger]
                s.agrees(answers) ==> old(s).agrees(answers)
                    && decorate_accessor_step(decorators, start, transforms, key, is_static, is_private, inits, env, depth, old(s).world(answers))
                    == decorate_accessor_from(
                        decorators,
                        start,
                        transforms,
                        key,
                        is_static,
                        is_private,
                        inits,
                        env,
                        depth,
                        i as nat,
                        halves,
                        s.world(answers),
                    ),
        decreases i,
    {
        let d: (Value, Value) = prepare_decorator(
            s,
            &decorators[i - 1],
            "accessor",
            key,
            is_static,
            is_private,
            env,
            depth,
        )?;
        let pair: Value = s.value(Request::MakeObject)?;
        let _ = s.ask(
            Request::DefineOwn { base: pair, key: Key::Fixed("get"), prop: Property::plain(halves.0) },
        );
        let _ = s.ask(
            Request::DefineOwn { base: pair, key: Key::Fixed("set"), prop: Property::plain(halves.1) },
        );
        let r: Value = call_decorator(s, d, pair, inits)?;
        match r {
            Value::Undefined => {
            },
            Value::Obj(_) => {
                let h: (Value, Value) = accept_accessor(s, r, halves, transforms)?;
                halves = h;
            },
            _ => {
                return throw(
                    s,
                    ErrorKind::TypeError,
                    "accessor decorator must return an object or undefined",
                );
            },
        }
        i = i - 1;
    }
    return Ok(halves);
}

// ---- fields

/// Passes a value through a list of functions, which stays as it is. With `k` rounds left.
pub open spec fn apply_transforms_from<'a>(
    start: Value,
    this: Value,
    transforms: u64,
    k: nat,
    v: Value,
    at: u64,
    w: World<'a>,
) -> Step<'a, Value>
    decreases k,
{
    if k == 0 {
        (Err(Abrupt::Stopped), w)
    } else {
        let more: bool = w.has_item(transforms, at);
        if more {
            let f: Value = w.item(transforms, at);
            next(
                call_with_step(f, this, v, w),
                |x: Value, w: World<'a>|
                    apply_transforms_from(start, this, transforms, (k - 1) as nat, x, bump(at), w),
            )
        } else {
            (Ok(v), w)
        }
    }
}

/// Passes a value through a list of functions, which stays as it is.
pub open spec fn apply_transforms_step<'a>(
    start: Value,
    this: Value,
    transforms: u64,
    w: World<'a>,
) -> Step<'a, Value>
{
    apply_transforms_from(start, this, transforms, w.limit, start, 0, w)
}

/// Passes a value through a list of functions, which stays as it is.
pub fn apply_transforms<'h, 'a, H: Host<'a>>(
    s: &mut Session<'h, 'a, H>,
    start: Value,
    this: Value,
    transforms: u64,
) -> (out: Result<Value, Abrupt<'a>>)
    ensures
        final(s).continues(*old(s)),
        forall|answers: Answers<'a>| #[trigger]
            final(s).agrees(answers) ==> old(s).agrees(answers) && (out, final(s).world(answers))
                == apply_transforms_step(start, this, transforms, old(s).world(answers)),
{
    let mut v: Value = start;
    let mut at: u64 = 0;
    let mut k: u64 = s.limit();
    while k > 0
        invariant
            s.continues(*old(s)),
            k <= old(s).rounds(),
            forall|answers: Answers<'a>| #[trigger]
                s.agrees(answers) ==> old(s).agrees(answers)
                    && apply_transforms_step(start, this, transforms, old(s).world(answers))
                    == apply_transforms_from(
                        start,
                        this,
                        transforms,
                        k as nat,
                        v,
                        at,
                        s.world(answers),
                    ),
        decreases k,
    {
        let more: bool = s.has_item(transforms, at);
        if more {
            let f: Value = s.item(transforms, at);
            let x: Value = call_with(s, f, this, v)?;
            v = x;
            at = bumped(at);
        } else {
            return Ok(v);
        }
        k = k - 1;
    }
    return Err(Abrupt::Stopped);
}

/// Calls every function of a list on a receiver. The list stays as it is. With `k` rounds left.
pub open spec fn call_each_from<'a>(
    this: Value,
    list: u64,
    k: nat,
    at: u64,
    w: World<'a>,
) -> Step<'a, ()>
    decreases k,
{
    if k == 0 {
        (Err(Abrupt::Stopped), w)
    } else {
        let more: bool = w.has_item(list, at);
        if more {
            let f: Value = w.item(list, at);
            next(
                call_bare_step(f, this, w),
                |x: Value, w: World<'a>|
                    call_each_from(this, list, (k - 1) as nat, bump(at), w),
            )
        } else {
            (Ok(()), w)
        }
    }
}

/// Calls every function of a list on a receiver. The list stays as it is.
pub open spec fn call_each_step<'a>(this: Value, list: u64, w: World<'a>) -> Step<'a, ()>
{
    call_each_from(this, list, w.limit, 0, w)
}

/// Calls every function of a list on a receiver. The list stays as it is.
pub fn call_each<'h, 'a, H: Host<'a>>(
    s: &mut Session<'h, 'a, H>,
    this: Value,
    list: u64,
) -> (out: Result<(), Abrupt<'a>>)
    ensures
        final(s).continues(*old(s)),
        forall|answers: Answers<'a>| #[trigger]
            final(s).agrees(answers) ==> old(s).agrees(answers) && (out, final(s).world(answers))
                == call_each_step(this, list, old(s).world(answers)),
{
    let mut at: u64 = 0;
    let mut k: u64 = s.limit();
    while k > 0
        invariant
            s.continues(*old(s)),
            k <= old(s).rounds(),
            forall|answers: Answers<'a>| #[trigger]
                s.agrees(answers) ==> old(s).agrees(answers)
                    && call_each_step(this, list, old(s).world(answers))
                    == call_each_from(this, list, k as nat, at, s.world(answers)),
        decreases k,
    {
        let more: bool = s.has_item(list, at);
        if more {
            let f: Value = s.item(list, at);
            let x: Value = call_bare(s, f, this)?;
            at = bumped(at);
        } else {
            return Ok(());
        }
        k = k - 1;
    }
    return Err(Abrupt::Stopped);
}

/// The scope in which a field's initial value is computed.
pub open spec fn field_scope_step<'a>(this: Value, env: Env, w: World<'a>) -> Step<'a, Env>
{
    let scope: Env = w.next_scope();
    let w = w.new_scope(Some(env), None, false, false);
    let w = w.bind_var(Name::Fixed("this"), this, scope);
    let w = w.bind_var(Name::Fixed("%fieldinit%"), Value::Bool(true), scope);
    (Ok(scope), w)
}

/// The scope in which a field's initial value is computed.
pub fn field_scope<'h, 'a, H: Host<'a>>(
    s: &mut Session<'h, 'a, H>,
    this: Value,
    env: Env,
) -> (out: Result<Env, Abrupt<'a>>)
    ensures
        final(s).continues(*old(s)),
        forall|answers: Answers<'a>| #[trigger]
            final(s).agrees(answers) ==> old(s).agrees(answers) && (out, final(s).world(answers))
                == field_scope_step(this, env, old(s).world(answers)),
{
    let scope: Env = s.new_scope(Some(env), None, false, false);
    s.bind_var(Name::Fixed("this"), this, scope);
    s.bind_var(Name::Fixed("%fieldinit%"), Value::Bool(true), scope);
    return Ok(scope);
}

/// The initial value of a field. An anonymous function takes the field's name.
pub open spec fn field_value_step<'a>(
    init: Option<&'a Expr>,
    key: Key<'a>,
    env: Env,
    depth: u64,
    w: World<'a>,
) -> Step<'a, Value>
    decreases depth, init, 1nat, 0nat,
{
    match init {
        Some(e) => {
            next(
                eval_step(e, env, depth, w),
                |v: Value, w: World<'a>|
                    if anonymous_fn(e) {
                        next(
                            name_function_step(v, "", key, true, w),
                            |nm: (), w: World<'a>| (Ok(v), w),
                        )
                    } else {
                        (Ok(v), w)
                    },
            )
        },
        None => (Ok(Value::Undefined), w),
    }
}

/// The initial value of a field. An anonymous function takes the field's name.
pub fn field_value<'h, 'a, H: Host<'a>>(
    s: &mut Session<'h, 'a, H>,
    init: Option<&'a Expr>,
    key: Key<'a>,
    env: Env,
    depth: u64,
) -> (out: Result<Value, Abrupt<'a>>)
    ensures
        final(s).continues(*old(s)),
        forall|answers: Answers<'a>| #[trigger]
            final(s).agrees(answers) ==> old(s).agrees(answers) && (out, final(s).world(answers))
                == field_value_step(init, key, env, depth, old(s).world(answers)),
    decreases depth, init, 1nat, 0nat,
{
    match init {
        Some(e) => {
            let v: Value = eval(s, e, env, depth)?;
            if is_anonymous_fn(e) {
                let nm: () = name_function(s, v, "", key, true)?;
                return Ok(v);
            } else {
                return Ok(v);
            }
        },
        None => {
            return Ok(Value::Undefined);
        },
    }
}

/// Adds a field to an instance: a private one once only, and only where properties can be added.
pub open spec fn add_field_step<'a>(
    this: Value,
    key: Key<'a>,
    v: Value,
    w: World<'a>,
) -> Step<'a, ()>
{
    let private: bool = w.private(key);
    if !private {
        next(
            asks(Request::CreateDataProperty { base: this, key, value: v }, w),
            |u: Value, w: World<'a>| (Ok(()), w),
        )
    } else if !matches!(this, Value::Obj(_)) {
        throws(ErrorKind::TypeError, "cannot add a private field", w)
    } else {
        next(
            asks_flag(Request::HasOwn { base: this, key }, w),
            |there: bool, w: World<'a>|
                if there {
                    throws(
                        ErrorKind::TypeError,
                        "cannot initialize the same private field twice",
                        w,
                    )
                } else {
                    next(
                        asks_flag(Request::IsExtensible(this), w),
                        |open: bool, w: World<'a>|
                            if !open {
                                throws(
                                    ErrorKind::TypeError,
                                    "cannot add a private field to a non-extensible object",
                                    w,
                                )
                            } else {
                                let w = w.ask(
                                    Request::DefineOwn { base: this, key, prop: Property::of(v, true, true, true) },
                                ).1;
                                (Ok(()), w)
                            },
                    )
                },
        )
    }
}

/// Adds a field to an instance: a private one once only, and only where properties can be added.
pub fn add_field<'h, 'a, H: Host<'a>>(
    s: &mut Session<'h, 'a, H>,
    this: Value,
    key: Key<'a>,
    v: Value,
) -> (out: Result<(), Abrupt<'a>>)
    ensures
        final(s).continues(*old(s)),
        forall|answers: Answers<'a>| #[trigger]
            final(s).agrees(answers) ==> old(s).agrees(answers) && (out, final(s).world(answers))
                == add_field_step(this, key, v, old(s).world(answers)),
{
    let private: bool = s.private(key);
    if !private {
        let u: Value = s.value(Request::CreateDataProperty { base: this, key, value: v })?;
        return Ok(());
    } else if !matches!(this, Value::Obj(_)) {
        return throw(s, ErrorKind::TypeError, "cannot add a private field");
    } else {
        let there: bool = s.flag(Request::HasOwn { base: this, key })?;
        if there {
            return throw(s, ErrorKind::TypeError, "cannot initialize the same private field twice");
        }
        let open: bool = s.flag(Request::IsExtensible(this))?;
        if !open {
            return throw(
                s,
                ErrorKind::TypeError,
                "cannot add a private field to a non-extensible object",
            );
        }
        let _ = s.ask(Request::DefineOwn { base: this, key, prop: Property::plain(v) });
        return Ok(());
    }
}

/// Initializes the fields of an instance one after the other. From the item at `i` on.
pub open spec fn init_fields_from<'a>(
    fields: Seq<FieldView<'a>>,
    this: Value,
    env: Env,
    depth: u64,
    i: nat,
    w: World<'a>,
) -> Step<'a, ()>
    decreases depth, this, 2nat, fields.len() - i,
{
    if i >= fields.len() {
        (Ok(()), w)
    } else {
        let f: FieldView<'a> = fields[i as int];
        if depth == 0 {
            throws(ErrorKind::RangeError, "Maximum call stack size exceeded", w)
        } else {
            next(
                field_scope_step(this, env, w),
                |scope: Env, w: World<'a>|
                    next(
                        field_value_step(f.init, f.key, scope, (depth - 1) as u64, w),
                        |x: Value, w: World<'a>| {
                            let transforms: u64 = w.next_list();
                            let w = w.new_list(f.transforms);
                            next(
                                apply_transforms_step(x, this, transforms, w),
                                |v: Value, w: World<'a>|
                                    next(
                                        add_field_step(this, f.key, v, w),
                                        |u: (), w: World<'a>|
                                            init_fields_from(fields, this, env, depth, i + 1, w),
                                    ),
                            )
                        },
                    ),
            )
        }
    }
}

/// Initializes the fields of an instance one after the other.
pub open spec fn init_fields_step<'a>(
    fields: Seq<FieldView<'a>>,
    this: Value,
    env: Env,
    depth: u64,
    w: World<'a>,
) -> Step<'a, ()>
    decreases depth, this, 2nat, fields.len() + 1,
{
    init_fields_from(fields, this, env, depth, 0, w)
}

/// Initializes the fields of an instance one after the other.
pub fn init_fields<'h, 'a, H: Host<'a>>(
    s: &mut Session<'h, 'a, H>,
    fields: &Vec<FieldRecord<'a>>,
    this: Value,
    env: Env,
    depth: u64,
) -> (out: Result<(), Abrupt<'a>>)
    ensures
        final(s).continues(*old(s)),
        forall|answers: Answers<'a>| #[trigger]
            final(s).agrees(answers) ==> old(s).agrees(answers) && (out, final(s).world(answers))
                == init_fields_step(field_views(fields@), this, env, depth, old(s).world(answers)),
    decreases depth, this, 2nat, fields@.len() + 1,
{
    let mut i: usize = 0;
    while i < fields.len()
        invariant
            i <= fields.len(),
            s.continues(*old(s)),
            forall|answers: Answers<'a>| #[trigger]
                s.agrees(answers) ==> old(s).agrees(answers)
                    && init_fields_step(field_views(fields@), this, env, depth, old(s).world(answers))
                    == init_fields_from(
                        field_views(fields@),
                        this,
                        env,
                        depth,
                        i as nat,
                        s.world(answers),
                    ),
        decreases fields.len() - i,
    {
        let f: &FieldRecord<'a> = &fields[i];
        if depth == 0 {
            return throw(s, ErrorKind::RangeError, "Maximum call stack size exceeded");
        } else {
            let scope: Env = field_scope(s, this, env)?;
            let x: Value = field_value(s, f.init, f.key, scope, depth - 1)?;
            let transforms: u64 = s.new_list(copy_values(&f.transforms));
            let v: Value = apply_transforms(s, x, this, transforms)?;
            let u: () = add_field(s, this, f.key, v)?;
        }
        i = i + 1;
    }
    return Ok(());
}

/// Gives an object private members one after the other. From the item at `i` on.
pub open spec fn stamp_each_from<'a>(
    privates: Seq<PrivateMember<'a>>,
    this: Value,
    i: nat,
    w: World<'a>,
) -> Step<'a, ()>
    decreases privates.len() - i,
{
    if i >= privates.len() {
        (Ok(()), w)
    } else {
        let m: PrivateMember<'a> = privates[i as int];
        let w = w.ask(Request::DefineOwn { base: this, key: m.key, prop: m.prop }).1;
        stamp_each_from(privates, this, i + 1, w)
    }
}

/// Gives an object private members one after the other.
pub open spec fn stamp_each_step<'a>(
    privates: Seq<PrivateMember<'a>>,
    this: Value,
    w: World<'a>,
) -> Step<'a, ()>
{
    stamp_each_from(privates, this, 0, w)
}

/// Gives an object private members one after the other.
pub fn stamp_each<'h, 'a, H: Host<'a>>(
    s: &mut Session<'h, 'a, H>,
    privates: &Vec<PrivateMember<'a>>,
    this: Value,
) -> (out: Result<(), Abrupt<'a>>)
    ensures
        final(s).continues(*old(s)),
        forall|answers: Answers<'a>| #[trigger]
            final(s).agrees(answers) ==> old(s).agrees(answers) && (out, final(s).world(answers))
                == stamp_each_step(privates@, this, old(s).world(answers)),
{
    let mut i: usize = 0;
    while i < privates.len()
        invariant
            i <= privates.len(),
            s.continues(*old(s)),
            forall|answers: Answers<'a>| #[trigger]
                s.agrees(answers) ==> old(s).agrees(answers)
                    && stamp_each_step(privates@, this, old(s).world(answers))
                    == stamp_each_from(privates@, this, i as nat, s.world(answers)),
        decreases privates.len() - i,
    {
        let m: PrivateMember<'a> = privates[i];
        let _ = s.ask(Request::DefineOwn { base: this, key: m.key, prop: m.prop });
        i = i + 1;
    }
    return Ok(());
}

/// Gives an instance the private methods and accessors of its class, once only.
pub open spec fn stamp_privates_step<'a>(
    privates: Seq<PrivateMember<'a>>,
    this: Value,
    w: World<'a>,
) -> Step<'a, ()>
{
    if !matches!(this, Value::Obj(_)) || privates.len() == 0 {
        (Ok(()), w)
    } else {
        let first: PrivateMember<'a> = privates[0];
        next(
            asks_flag(Request::HasOwn { base: this, key: first.key }, w),
            |stamped: bool, w: World<'a>|
                if stamped {
                    throws(
                        ErrorKind::TypeError,
                        "cannot initialize private methods of a class twice on the same object",
                        w,
                    )
                } else {
                    next(
                        asks_flag(Request::IsExtensible(this), w),
                        |open: bool, w: World<'a>|
                            if !open {
                                throws(
                                    ErrorKind::TypeError,
                                    "cannot add private members to a non-extensible object",
                                    w,
                                )
                            } else {
                                stamp_each_step(privates, this, w)
                            },
                    )
                },
        )
    }
}

/// Gives an instance the private methods and accessors of its class, once only.
pub fn stamp_privates<'h, 'a, H: Host<'a>>(
    s: &mut Session<'h, 'a, H>,
    privates: &Vec<PrivateMember<'a>>,
    this: Value,
) -> (out: Result<(), Abrupt<'a>>)
    ensures
        final(s).continues(*old(s)),
        forall|answers: Answers<'a>| #[trigger]
            final(s).agrees(answers) ==> old(s).agrees(answers) && (out, final(s).world(answers))
                == stamp_privates_step(privates@, this, old(s).world(answers)),
{
    if !matches!(this, Value::Obj(_)) || privates.len() == 0 {
        return Ok(());
    }
    let first: PrivateMember<'a> = privates[0];
    let stamped: bool = s.flag(Request::HasOwn { base: this, key: first.key })?;
    if stamped {
        return throw(
            s,
            ErrorKind::TypeError,
            "cannot initialize private methods of a class twice on the same object",
        );
    }
    let open: bool = s.flag(Request::IsExtensible(this))?;
    if !open {
        return throw(
            s,
            ErrorKind::TypeError,
            "cannot add private members to a non-extensible object",
        );
    }
    return stamp_each(s, privates, this);
}

/// Runs field code: the fields, then what decorators have added.
pub open spec fn run_field_code_step<'a>(
    fields: Seq<FieldView<'a>>,
    initializers: u64,
    this: Value,
    env: Env,
    depth: u64,
    w: World<'a>,
) -> Step<'a, ()>
    decreases depth, this, 3nat, 0nat,
{
    next(
        init_fields_step(fields, this, env, depth, w),
        |u: (), w: World<'a>| call_each_step(this, initializers, w),
    )
}

/// Runs field code: the fields, then what decorators have added.
pub fn run_field_code<'h, 'a, H: Host<'a>>(
    s: &mut Session<'h, 'a, H>,
    fields: &Vec<FieldRecord<'a>>,
    initializers: u64,
    this: Value,
    env: Env,
    depth: u64,
) -> (out: Result<(), Abrupt<'a>>)
    ensures
        final(s).continues(*old(s)),
        forall|answers: Answers<'a>| #[trigger]
            final(s).agrees(answers) ==> old(s).agrees(answers) && (out, final(s).world(answers))
                == run_field_code_step(
                    field_views(fields@),
                    initializers,
                    this,
                    env,
                    depth,
                    old(s).world(answers),
                ),
    decreases depth, this, 3nat, 0nat,
{
    let u: () = init_fields(s, fields, this, env, depth)?;
    return call_each(s, this, initializers);
}

/// Gives a new instance what its class declares: private members, fields, and what decorators have
/// added.
pub open spec fn init_instance_fields_step<'a>(
    ctor: Value,
    this: Value,
    depth: u64,
    w: World<'a>,
) -> Step<'a, ()>
    decreases depth, this, 4nat, 0nat,
{
    let found: Option<usize> = place_of_class(w.classes, ctor, w.classes.len());
    match found {
        None => (Ok(()), w),
        Some(at) => {
            let fields: Seq<FieldView<'a> > = w.classes[at as int].fields;
            let added: Seq<Value> = w.classes[at as int].initializers;
            let privates: Seq<PrivateMember<'a> > = w.classes[at as int].privates;
            let env: Env = w.classes[at as int].env;
            let initializers: u64 = w.next_list();
            let w = w.new_list(added);
            next(
                stamp_privates_step(privates, this, w),
                |u: (), w: World<'a>| {
                    let saved: Flags = w.flags;
                    let w = w.set_flags(Flags { super_call: false, field_code: true, ..saved });
                    let (r, w) = run_field_code_step(fields, initializers, this, env, depth, w);
                    let now: Flags = w.flags;
                    let w = w.set_flags(Flags { super_call: saved.super_call, field_code: saved.field_code, ..now });
                    (r, w)
                },
            )
        },
    }
}

/// Gives a new instance what its class declares: private members, fields, and what decorators have
/// added.
pub fn init_instance_fields<'h, 'a, H: Host<'a>>(
    s: &mut Session<'h, 'a, H>,
    ctor: Value,
    this: Value,
    depth: u64,
) -> (out: Result<(), Abrupt<'a>>)
    ensures
        final(s).continues(*old(s)),
        forall|answers: Answers<'a>| #[trigger]
            final(s).agrees(answers) ==> old(s).agrees(answers) && (out, final(s).world(answers))
                == init_instance_fields_step(ctor, this, depth, old(s).world(answers)),
    decreases depth, this, 4nat, 0nat,
{
    let found: Option<usize> = s.class_place(ctor);
    match found {
        None => {
            return Ok(());
        },
        Some(at) => {
            let fields: Vec<FieldRecord<'a> > = s.class_fields(at);
            let added: Vec<Value> = s.class_initializers(at);
            let privates: Vec<PrivateMember<'a> > = s.class_privates(at);
            let env: Env = s.class_env(at);
            let initializers: u64 = s.new_list(added);
            let u: () = stamp_privates(s, &privates, this)?;
            let saved: Flags = s.flags();
            s.set_flags(Flags { super_call: false, field_code: true, ..saved });
            let r: Result<(), Abrupt<'a>> = run_field_code(
                s,
                &fields,
                initializers,
                this,
                env,
                depth,
            );
            let now: Flags = s.flags();
            s.set_flags(Flags { super_call: saved.super_call, field_code: saved.field_code, ..now });
            return r;
        },
    }
}

// ---- constructors

/// Runs a constructor on a `this` that is there already. A base class initializes its fields first;
/// a derived one does so in its own `super(..)`, which only its constructor may call. With `k`
/// rounds left.
pub open spec fn run_constructor_on_from<'a>(
    ctor: Value,
    this: Value,
    args: u64,
    depth: u64,
    k: nat,
    c: Value,
    given: u64,
    w: World<'a>,
) -> Step<'a, Value>
    decreases depth, this, 7nat, k,
{
    if k == 0 {
        (Err(Abrupt::Stopped), w)
    } else {
        if !matches!(c, Value::Obj(_)) {
            throws(ErrorKind::TypeError, "super target is not a constructor", w)
        } else {
            next(
                asks_flag(Request::IsProxy(c), w),
                |proxy: bool, w: World<'a>|
                    if proxy {
                        asks(Request::ConstructOnward { func: c, args: given }, w)
                    } else {
                        next(
                            asks_flag(Request::IsBound(c), w),
                            |bound: bool, w: World<'a>|
                                if bound {
                                    next(
                                        asks(Request::BoundTarget(c), w),
                                        |target: Value, w: World<'a>|
                                            next(
                                                asks_handle(Request::BoundArguments(c), w),
                                                |all: u64, w: World<'a>| {
                                                    let w = w.append(all, w.list(given));
                                                    run_constructor_on_from(
                                                        ctor,
                                                        this,
                                                        args,
                                                        depth,
                                                        (k - 1) as nat,
                                                        target,
                                                        all,
                                                        w,
                                                    )
                                                },
                                            ),
                                    )
                                } else {
                                    next(
                                        asks_flag(Request::IsUserFunction(c), w),
                                        |user: bool, w: World<'a>|
                                            if user {
                                                run_user_constructor_step(c, this, given, depth, w)
                                            } else {
                                                next(
                                                    asks_flag(Request::IsNativeFunction(c), w),
                                                    |native: bool, w: World<'a>|
                                                        if native {
                                                            run_native_constructor_step(
                                                                c,
                                                                this,
                                                                given,
                                                                w,
                                                            )
                                                        } else {
                                                            throws(
                                                                ErrorKind::TypeError,
                                                                "super target is not a constructor",
                                                                w,
                                                            )
                                                        },
                                                )
                                            },
                                    )
                                },
                        )
                    },
            )
        }
    }
}

/// Runs a constructor on a `this` that is there already. A base class initializes its fields first;
/// a derived one does so in its own `super(..)`, which only its constructor may call.
pub open spec fn run_constructor_on_step<'a>(
    ctor: Value,
    this: Value,
    args: u64,
    depth: u64,
    w: World<'a>,
) -> Step<'a, Value>
    decreases depth, this, 7nat, w.limit + 1,
{
    run_constructor_on_from(ctor, this, args, depth, w.limit, ctor, args, w)
}

/// Runs a constructor on a `this` that is there already. A base class initializes its fields first;
/// a derived one does so in its own `super(..)`, which only its constructor may call.
#[verifier::spinoff_prover]
pub fn run_constructor_on<'h, 'a, H: Host<'a>>(
    s: &mut Session<'h, 'a, H>,
    ctor: Value,
    this: Value,
    args: u64,
    depth: u64,
) -> (out: Result<Value, Abrupt<'a>>)
    ensures
        final(s).continues(*old(s)),
        forall|answers: Answers<'a>| #[trigger]
            final(s).agrees(answers) ==> old(s).agrees(answers) && (out, final(s).world(answers))
                == run_constructor_on_step(ctor, this, args, depth, old(s).world(answers)),
    decreases depth, this, 7nat, old(s).rounds() + 1,
{
    let mut c: Value = ctor;
    let mut given: u64 = args;
    let mut k: u64 = s.limit();
    while k > 0
        invariant
            s.continues(*old(s)),
            k <= old(s).rounds(),
            forall|answers: Answers<'a>| #[trigger]
                s.agrees(answers) ==> old(s).agrees(answers)
                    && run_constructor_on_step(ctor, this, args, depth, old(s).world(answers))
                    == run_constructor_on_from(
                        ctor,
                        this,
                        args,
                        depth,
                        k as nat,
                        c,
                        given,
                        s.world(answers),
                    ),
        decreases k,
    {
        if !matches!(c, Value::Obj(_)) {
            return throw(s, ErrorKind::TypeError, "super target is not a constructor");
        }
        let proxy: bool = s.flag(Request::IsProxy(c))?;
        if proxy {
            return s.value(Request::ConstructOnward { func: c, args: given });
        }
        let bound: bool = s.flag(Request::IsBound(c))?;
        if bound {
            let target: Value = s.value(Request::BoundTarget(c))?;
            let all: u64 = s.handle(Request::BoundArguments(c))?;
            let more_items = s.list(given);
            s.append(all, more_items);
            c = target;
            given = all;
        } else {
            let user: bool = s.flag(Request::IsUserFunction(c))?;
            if user {
                return run_user_constructor(s, c, this, given, depth);
            } else {
                let native: bool = s.flag(Request::IsNativeFunction(c))?;
                if native {
                    return run_native_constructor(s, c, this, given);
                } else {
                    return throw(s, ErrorKind::TypeError, "super target is not a constructor");
                }
            }
        }
        k = k - 1;
    }
    return Err(Abrupt::Stopped);
}

/// Runs a constructor that the program defines.
pub open spec fn run_user_constructor_step<'a>(
    c: Value,
    this: Value,
    args: u64,
    depth: u64,
    w: World<'a>,
) -> Step<'a, Value>
    decreases depth, this, 6nat, 0nat,
{
    let found: Option<usize> = place_of_class(w.classes, c, w.classes.len());
    let class: bool = matches!(found, Some(_));
    let derived: bool = match found { Some(at) => w.classes[at as int].derived, None => false };
    next(
        if class && !derived {
            init_instance_fields_step(c, this, depth, w)
        } else {
            (Ok(()), w)
        },
        |u: (), w: World<'a>| {
            let saved: Flags = w.flags;
            let w = w.set_flags(Flags { super_call: class && derived, ..saved });
            let (r, w) = asks(Request::CallBody { func: c, this, args }, w);
            let now: Flags = w.flags;
            let w = w.set_flags(Flags { super_call: saved.super_call, ..now });
            (r, w)
        },
    )
}

/// Runs a constructor that the program defines.
pub fn run_user_constructor<'h, 'a, H: Host<'a>>(
    s: &mut Session<'h, 'a, H>,
    c: Value,
    this: Value,
    args: u64,
    depth: u64,
) -> (out: Result<Value, Abrupt<'a>>)
    ensures
        final(s).continues(*old(s)),
        forall|answers: Answers<'a>| #[trigger]
            final(s).agrees(answers) ==> old(s).agrees(answers) && (out, final(s).world(answers))
                == run_user_constructor_step(c, this, args, depth, old(s).world(answers)),
    decreases depth, this, 6nat, 0nat,
{
    let found: Option<usize> = s.class_place(c);
    let class: bool = matches!(found, Some(_));
    let derived: bool = match found { Some(at) => s.class_derived(at), None => false };
    let u: () = if class && !derived {
        init_instance_fields(s, c, this, depth)?
    } else {
        ()
    };
    let saved: Flags = s.flags();
    s.set_flags(Flags { super_call: class && derived, ..saved });
    let r: Completion<'a> = s.value(Request::CallBody { func: c, this, args });
    let now: Flags = s.flags();
    s.set_flags(Flags { super_call: saved.super_call, ..now });
    return r;
}

/// Runs a built-in constructor. What it makes is moved to `this`.
pub open spec fn run_native_constructor_step<'a>(
    c: Value,
    this: Value,
    args: u64,
    w: World<'a>,
) -> Step<'a, Value>
{
    next(
        asks(Request::CallNative { func: c, this, args }, w),
        |made: Value, w: World<'a>|
            if matches!(made, Value::Obj(_)) && matches!(this, Value::Obj(_)) && made != this {
                let w = w.ask(Request::Adopt { from: made, to: this }).1;
                (Ok(Value::Undefined), w)
            } else {
                (Ok(Value::Undefined), w)
            },
    )
}

/// Runs a built-in constructor. What it makes is moved to `this`.
pub fn run_native_constructor<'h, 'a, H: Host<'a>>(
    s: &mut Session<'h, 'a, H>,
    c: Value,
    this: Value,
    args: u64,
) -> (out: Result<Value, Abrupt<'a>>)
    ensures
        final(s).continues(*old(s)),
        forall|answers: Answers<'a>| #[trigger]
            final(s).agrees(answers) ==> old(s).agrees(answers) && (out, final(s).world(answers))
                == run_native_constructor_step(c, this, args, old(s).world(answers)),
{
    let made: Value = s.value(Request::CallNative { func: c, this, args })?;
    if matches!(made, Value::Obj(_)) && matches!(this, Value::Obj(_)) && made != this {
        let _ = s.ask(Request::Adopt { from: made, to: this });
        return Ok(Value::Undefined);
    } else {
        return Ok(Value::Undefined);
    }
}

// ---- definitions

/// The prototype of a class's prototype, its parent constructor, and whether it is derived.
pub open spec fn class_heritage_step<'a>(
    class: &'a Class,
    env: Env,
    depth: u64,
    w: World<'a>,
) -> Step<'a, (Value, Option<Value>, bool)>
    decreases depth, class, 1nat, 0nat,
{
    match &class.superclass {
        None => {
            next(
                asks(Request::ObjectPrototype, w),
                |p: Value, w: World<'a>| (Ok((p, None, false)), w),
            )
        },
        Some(e) => {
            next(
                eval_step(&**e, env, depth, w),
                |parent: Value, w: World<'a>|
                    match parent {
                        Value::Null => (Ok((Value::Null, None, true)), w),
                        Value::Obj(_) => {
                            next(
                                value_is_constructor_step(parent, w),
                                |ok: bool, w: World<'a>|
                                    if !ok {
                                        throws(
                                            ErrorKind::TypeError,
                                            "Class extends value is not a constructor or null",
                                            w,
                                        )
                                    } else {
                                        next(
                                            asks(
                                                Request::GetMember { base: parent, key: Key::Fixed("prototype") },
                                                w,
                                            ),
                                            |p: Value, w: World<'a>|
                                                if matches!(p, Value::Obj(_))
                                                    || matches!(p, Value::Null)
                                                {
                                                    (Ok((p, Some(parent), true)), w)
                                                } else {
                                                    throws(
                                                        ErrorKind::TypeError,
                                                        "Class extends value does not have a valid prototype property",
                                                        w,
                                                    )
                                                },
                                        )
                                    },
                            )
                        },
                        _ => {
                            throws(
                                ErrorKind::TypeError,
                                "Class extends value is not a constructor or null",
                                w,
                            )
                        },
                    },
            )
        },
    }
}

/// The prototype of a class's prototype, its parent constructor, and whether it is derived.
pub fn class_heritage<'h, 'a, H: Host<'a>>(
    s: &mut Session<'h, 'a, H>,
    class: &'a Class,
    env: Env,
    depth: u64,
) -> (out: Result<(Value, Option<Value>, bool), Abrupt<'a>>)
    ensures
        final(s).continues(*old(s)),
        forall|answers: Answers<'a>| #[trigger]
            final(s).agrees(answers) ==> old(s).agrees(answers) && (out, final(s).world(answers))
                == class_heritage_step(class, env, depth, old(s).world(answers)),
    decreases depth, class, 1nat, 0nat,
{
    match &class.superclass {
        None => {
            let p: Value = s.value(Request::ObjectPrototype)?;
            return Ok((p, None, false));
        },
        Some(e) => {
            let parent: Value = eval(s, &**e, env, depth)?;
            match parent {
                Value::Null => {
                    return Ok((Value::Null, None, true));
                },
                Value::Obj(_) => {
                    let ok: bool = value_is_constructor(s, parent)?;
                    if !ok {
                        return throw(
                            s,
                            ErrorKind::TypeError,
                            "Class extends value is not a constructor or null",
                        );
                    }
                    let p: Value = s.value(
                        Request::GetMember { base: parent, key: Key::Fixed("prototype") },
                    )?;
                    if matches!(p, Value::Obj(_)) || matches!(p, Value::Null) {
                        return Ok((p, Some(parent), true));
                    } else {
                        return throw(
                            s,
                            ErrorKind::TypeError,
                            "Class extends value does not have a valid prototype property",
                        );
                    }
                },
                _ => {
                    return throw(
                        s,
                        ErrorKind::TypeError,
                        "Class extends value is not a constructor or null",
                    );
                },
            }
        },
    }
}

/// Gives the private names of a class keys of their own, one each. From the item at `i` on.
pub open spec fn mint_privates_from<'a>(
    members: &'a Vec<ClassMember>,
    env: Env,
    i: nat,
    w: World<'a>,
) -> Step<'a, ()>
    decreases members@.len() - i,
{
    if i >= members@.len() {
        (Ok(()), w)
    } else {
        let n: Option<&'a String> = private_key(&members@[i as int].key);
        match n {
            Some(name) => {
                if w.scopes.binds(env, name@) {
                    mint_privates_from(members, env, i + 1, w)
                } else {
                    let w = w.count_made();
                    let key: Value = w.next_text();
                    let w = w.add_text(name@ + "\u{1}"@ + decimal(w.made as nat));
                    let w = w.bind_var(Name::Source(name), key, env);
                    mint_privates_from(members, env, i + 1, w)
                }
            },
            None => mint_privates_from(members, env, i + 1, w),
        }
    }
}

/// Gives the private names of a class keys of their own, one each.
pub open spec fn mint_privates_step<'a>(
    members: &'a Vec<ClassMember>,
    env: Env,
    w: World<'a>,
) -> Step<'a, ()>
{
    mint_privates_from(members, env, 0, w)
}

/// Gives the private names of a class keys of their own, one each.
pub fn mint_privates<'h, 'a, H: Host<'a>>(
    s: &mut Session<'h, 'a, H>,
    members: &'a Vec<ClassMember>,
    env: Env,
) -> (out: Result<(), Abrupt<'a>>)
    ensures
        final(s).continues(*old(s)),
        forall|answers: Answers<'a>| #[trigger]
            final(s).agrees(answers) ==> old(s).agrees(answers) && (out, final(s).world(answers))
                == mint_privates_step(members, env, old(s).world(answers)),
{
    let mut i: usize = 0;
    while i < members.len()
        invariant
            i <= members.len(),
            s.continues(*old(s)),
            forall|answers: Answers<'a>| #[trigger]
                s.agrees(answers) ==> old(s).agrees(answers)
                    && mint_privates_step(members, env, old(s).world(answers))
                    == mint_privates_from(members, env, i as nat, s.world(answers)),
        decreases members.len() - i,
    {
        let n: Option<&'a String> = private_of(&members[i].key);
        match n {
            Some(name) => {
                if s.scopes().has_binding(env, name.as_str()) {
                } else {
                    s.count_made();
                    let made_key = private_text(name.as_str(), s.made());
                    let key: Value = s.add_text(made_key);
                    s.bind_var(Name::Source(name), key, env);
                }
            },
            None => {
            },
        }
        i = i + 1;
    }
    return Ok(());
}

/// Makes the constructor and the scopes of a class. The members see the `super` bindings in them.
pub open spec fn build_class_step<'a>(
    class: &'a Class,
    name: Option<Name<'a>>,
    heritage: (Value, Option<Value>, bool),
    name_env: Env,
    w: World<'a>,
) -> Step<'a, ClassParts>
{
    next(
        asks(Request::MakeObjectFrom { proto: heritage.0 }, w),
        |proto: Value, w: World<'a>| {
            let class_env: Env = w.next_scope();
            let w = w.new_scope(Some(name_env), None, false, false);
            next(
                mint_privates_step(&class.members, class_env, w),
                |u: (), w: World<'a>| {
                    let inst_env: Env = w.next_scope();
                    let w = w.new_scope(Some(class_env), None, false, false);
                    let w = w.bind_var(Name::Fixed("%homeobject%"), proto, inst_env);
                    let above: Value = if matches!(heritage.0, Value::Null) { Value::Undefined } else { heritage.0 };
                    let w = w.bind_var(Name::Fixed("%superproto%"), above, inst_env);
                    next(
                        match heritage.1 {
                            Some(p) => (Ok(p), w),
                            None => {
                                if heritage.2 {
                                    (Ok(Value::Null), w)
                                } else {
                                    (Ok(Value::Undefined), w)
                                }
                            },
                        },
                        |parent: Value, w: World<'a>| {
                            let w = w.bind_var(Name::Fixed("%superclass%"), parent, inst_env);
                            let static_env: Env = w.next_scope();
                            let w = w.new_scope(Some(class_env), None, false, false);
                            next(
                                match heritage.1 {
                                    Some(p) => (Ok(p), w),
                                    None => {
                                        asks(Request::FunctionPrototype, w)
                                    },
                                },
                                |static_parent: Value, w: World<'a>| {
                                    let w = w.bind_var(Name::Fixed("%superproto%"), static_parent, static_env);
                                    next(
                                        asks(
                                            Request::MakeConstructor { func: constructor_from(class.members@, 0), derived: heritage.2, source: &class.source, env: inst_env },
                                            w,
                                        ),
                                        |ctor: Value, w: World<'a>| {
                                            let w = w.bind_var(Name::Fixed("%homeobject%"), ctor, static_env);
                                            let w = w.ask(
                                                Request::DefineOwn { base: ctor, key: Key::Fixed("prototype"), prop: Property::of(proto, false, false, false) },
                                            ).1;
                                            let w = w.ask(
                                                Request::SetPrototype { base: ctor, proto: static_parent },
                                            ).1;
                                            next(
                                                match &class.name {
                                                    Some(n) => {
                                                        let called: Value = w.next_text();
                                                        let w = w.add_text(n@);
                                                        define_name_step(ctor, called, w)
                                                    },
                                                    None => {
                                                        (Ok(()), w)
                                                    },
                                                },
                                                |t: (), w: World<'a>| {
                                                    let w = w.ask(
                                                        Request::DefineOwn { base: proto, key: Key::Fixed("constructor"), prop: Property::of(ctor, true, false, true) },
                                                    ).1;
                                                    let w = w.bind_var(Name::Fixed("%thisctor%"), ctor, inst_env);
                                                    next(
                                                        match &class.name {
                                                            Some(n) => {
                                                                let w = w.set_value(name_env, Name::Source(n), ctor);
                                                                (Ok(()), w)
                                                            },
                                                            None => {
                                                                match name {
                                                                    Some(Name::Source(n)) => {
                                                                        next(
                                                                            name_function_step(
                                                                                ctor,
                                                                                "",
                                                                                Key::Source(n),
                                                                                true,
                                                                                w,
                                                                            ),
                                                                            |nm: (), w: World<'a>|
                                                                                (Ok(()), w),
                                                                        )
                                                                    },
                                                                    Some(Name::Fixed(n)) => {
                                                                        next(
                                                                            name_function_step(
                                                                                ctor,
                                                                                "",
                                                                                Key::Fixed(n),
                                                                                true,
                                                                                w,
                                                                            ),
                                                                            |nm: (), w: World<'a>|
                                                                                (Ok(()), w),
                                                                        )
                                                                    },
                                                                    None => {
                                                                        (Ok(()), w)
                                                                    },
                                                                }
                                                            },
                                                        },
                                                        |named: (), w: World<'a>| {
                                                            let record: u64 = w.next_record();
                                                            let w = w.new_record();
                                                            let instance_inits: u64 = w.next_list();
                                                            let w = w.new_list(Seq::empty());
                                                            let static_inits: u64 = w.next_list();
                                                            let w = w.new_list(Seq::empty());
                                                            (Ok(ClassParts { ctor, proto, name_env, class_env, inst_env, static_env, record, instance_inits, static_inits }), w)
                                                        },
                                                    )
                                                },
                                            )
                                        },
                                    )
                                },
                            )
                        },
                    )
                },
            )
        },
    )
}

/// Makes the constructor and the scopes of a class. The members see the `super` bindings in them.
#[verifier::spinoff_prover]
pub fn build_class<'h, 'a, H: Host<'a>>(
    s: &mut Session<'h, 'a, H>,
    class: &'a Class,
    name: Option<Name<'a>>,
    heritage: (Value, Option<Value>, bool),
    name_env: Env,
) -> (out: Result<ClassParts, Abrupt<'a>>)
    ensures
        final(s).continues(*old(s)),
        forall|answers: Answers<'a>| #[trigger]
            final(s).agrees(answers) ==> old(s).agrees(answers) && (out, final(s).world(answers))
                == build_class_step(class, name, heritage, name_env, old(s).world(answers)),
{
    let proto: Value = s.value(Request::MakeObjectFrom { proto: heritage.0 })?;
    let class_env: Env = s.new_scope(Some(name_env), None, false, false);
    let u: () = mint_privates(s, &class.members, class_env)?;
    let inst_env: Env = s.new_scope(Some(class_env), None, false, false);
    s.bind_var(Name::Fixed("%homeobject%"), proto, inst_env);
    let above: Value = if matches!(heritage.0, Value::Null) { Value::Undefined } else { heritage.0 };
    s.bind_var(Name::Fixed("%superproto%"), above, inst_env);
    let parent: Value = match heritage.1 {
        Some(p) => {
            p
        },
        None => {
            if heritage.2 {
                Value::Null
            } else {
                Value::Undefined
            }
        },
    };
    s.bind_var(Name::Fixed("%superclass%"), parent, inst_env);
    let static_env: Env = s.new_scope(Some(class_env), None, false, false);
    let static_parent: Value = match heritage.1 {
        Some(p) => {
            p
        },
        None => {
            s.value(Request::FunctionPrototype)?
        },
    };
    s.bind_var(Name::Fixed("%superproto%"), static_parent, static_env);
    let ctor: Value = s.value(
        Request::MakeConstructor { func: find_constructor(&class.members), derived: heritage.2, source: &class.source, env: inst_env },
    )?;
    s.bind_var(Name::Fixed("%homeobject%"), ctor, static_env);
    let _ = s.ask(
        Request::DefineOwn { base: ctor, key: Key::Fixed("prototype"), prop: Property::data(proto, false, false, false) },
    );
    let _ = s.ask(Request::SetPrototype { base: ctor, proto: static_parent });
    let t: () = match &class.name {
        Some(n) => {
            let called: Value = s.add_text(n.as_str().to_owned());
            define_name(s, ctor, called)?
        },
        None => {
            ()
        },
    };
    let _ = s.ask(
        Request::DefineOwn { base: proto, key: Key::Fixed("constructor"), prop: Property::builtin(ctor) },
    );
    s.bind_var(Name::Fixed("%thisctor%"), ctor, inst_env);
    let named: () = match &class.name {
        Some(n) => {
            s.set_value(name_env, Name::Source(n), ctor);
            ()
        },
        None => {
            match name {
                Some(Name::Source(n)) => {
                    let nm: () = name_function(s, ctor, "", Key::Source(n), true)?;
                    ()
                },
                Some(Name::Fixed(n)) => {
                    let nm: () = name_function(s, ctor, "", Key::Fixed(n), true)?;
                    ()
                },
                None => {
                    ()
                },
            }
        },
    };
    let record: u64 = s.new_record();
    let instance_inits: u64 = s.new_list(Vec::new());
    let static_inits: u64 = s.new_list(Vec::new());
    return Ok(
        ClassParts { ctor, proto, name_env, class_env, inst_env, static_env, record, instance_inits, static_inits },
    );
}

/// The key of a member. A computed key of a static member may not be `prototype`.
pub open spec fn member_key_step<'a>(
    m: &'a ClassMember,
    env: Env,
    depth: u64,
    w: World<'a>,
) -> Step<'a, Key<'a>>
    decreases depth, m, 1nat, 0nat,
{
    let n: Option<&'a String> = private_key(&m.key);
    match n {
        Some(name) => {
            next(
                resolve_private_step(name, env, w),
                |made: u64, w: World<'a>| (Ok(Key::Made(made)), w),
            )
        },
        None => {
            next(
                eval_prop_key_step(&m.key, env, depth, w),
                |key: Key<'a>, w: World<'a>|
                    if m.is_static && matches!(&m.key, PropKey::Computed(_)) {
                        let clash: bool = w.key_is(key, "prototype"@);
                        if clash {
                            throws(
                                ErrorKind::TypeError,
                                "classes may not have a static property named 'prototype'",
                                w,
                            )
                        } else {
                            (Ok(key), w)
                        }
                    } else {
                        (Ok(key), w)
                    },
            )
        },
    }
}

/// The key of a member. A computed key of a static member may not be `prototype`.
pub fn member_key<'h, 'a, H: Host<'a>>(
    s: &mut Session<'h, 'a, H>,
    m: &'a ClassMember,
    env: Env,
    depth: u64,
) -> (out: Result<Key<'a>, Abrupt<'a>>)
    ensures
        final(s).continues(*old(s)),
        forall|answers: Answers<'a>| #[trigger]
            final(s).agrees(answers) ==> old(s).agrees(answers) && (out, final(s).world(answers))
                == member_key_step(m, env, depth, old(s).world(answers)),
    decreases depth, m, 1nat, 0nat,
{
    let n: Option<&'a String> = private_of(&m.key);
    match n {
        Some(name) => {
            let made: u64 = resolve_private(s, name, env)?;
            return Ok(Key::Made(made));
        },
        None => {
            let key: Key<'a> = eval_prop_key(s, &m.key, env, depth)?;
            if m.is_static && matches!(&m.key, PropKey::Computed(_)) {
                let clash: bool = s.key_is(key, "prototype");
                if clash {
                    return throw(
                        s,
                        ErrorKind::TypeError,
                        "classes may not have a static property named 'prototype'",
                    );
                } else {
                    return Ok(key);
                }
            } else {
                return Ok(key);
            }
        },
    }
}

/// A function that reads or writes the private field behind an accessor.
pub open spec fn make_accessor_fn_step<'a>(
    key: Key<'a>,
    backing: Key<'a>,
    getter: bool,
    w: World<'a>,
) -> Step<'a, Value>
{
    next(
        asks(Request::MakeAccessorFunction { backing, getter }, w),
        |f: Value, w: World<'a>|
            next(
                fn_name_for_key_step(key, false, w),
                |base: Value, w: World<'a>| {
                    let name: Value = w.next_text();
                    let w = w.add_text((if getter { "get "@ } else { "set "@ }) + w.chars(base));
                    next(
                        define_name_step(f, name, w),
                        |u: (), w: World<'a>|
                            next(
                                define_length_step(f, if getter { 0u64 } else { ONE }, w),
                                |v: (), w: World<'a>| (Ok(f), w),
                            ),
                    )
                },
            ),
    )
}

/// A function that reads or writes the private field behind an accessor.
pub fn make_accessor_fn<'h, 'a, H: Host<'a>>(
    s: &mut Session<'h, 'a, H>,
    key: Key<'a>,
    backing: Key<'a>,
    getter: bool,
) -> (out: Result<Value, Abrupt<'a>>)
    ensures
        final(s).continues(*old(s)),
        forall|answers: Answers<'a>| #[trigger]
            final(s).agrees(answers) ==> old(s).agrees(answers) && (out, final(s).world(answers))
                == make_accessor_fn_step(key, backing, getter, old(s).world(answers)),
{
    let f: Value = s.value(Request::MakeAccessorFunction { backing, getter })?;
    let base: Value = fn_name_for_key(s, key, false)?;
    let made_name = accessor_name(s.chars(base), getter);
    let name: Value = s.add_text(made_name);
    let u: () = define_name(s, f, name)?;
    let v: () = define_length(s, f, if getter { 0u64 } else { ONE })?;
    return Ok(f);
}

/// An accessor with a private field behind it.
pub open spec fn define_auto_accessor_step<'a>(
    m: &'a ClassMember,
    at: u64,
    key: Key<'a>,
    parts: ClassParts,
    depth: u64,
    w: World<'a>,
) -> Step<'a, ()>
    decreases depth, m, 1nat, 0nat,
{
    let private: bool = private_key(&m.key) is Some;
    let target: Value = if m.is_static { parts.ctor } else { parts.proto };
    let inits: u64 = if m.is_static { parts.static_inits } else { parts.instance_inits };
    let w = w.count_made();
    let hidden: Value = w.next_text();
    let w = w.add_text("#\0acc"@ + decimal(w.made as nat));
    let backing: Key<'a> = value_key(hidden);
    next(
        make_accessor_fn_step(key, backing, true, w),
        |g: Value, w: World<'a>|
            next(
                make_accessor_fn_step(key, backing, false, w),
                |t: Value, w: World<'a>| {
                    let transforms: u64 = w.next_list();
                    let w = w.new_list(Seq::empty());
                    next(
                        decorate_accessor_step(
                            &m.decorators,
                            (g, t),
                            transforms,
                            key,
                            m.is_static,
                            private,
                            inits,
                            parts.name_env,
                            depth,
                            w,
                        ),
                        |halves: (Value, Value), w: World<'a>|
                            if private && !m.is_static {
                                let w = w.add_private(parts.record, key, private_accessor(Some(halves.0), Some(halves.1)));
                                let w = w.add_field_init(parts.record, FieldInit { key: backing, init: init_of(m), transforms });
                                (Ok(()), w)
                            } else {
                                next(
                                    define_halves_step(
                                        target,
                                        key,
                                        Some(halves.0),
                                        Some(halves.1),
                                        false,
                                        w,
                                    ),
                                    |u: (), w: World<'a>|
                                        if m.is_static {
                                            let w = w.add_static(parts.record, StaticInit { member: at, key: backing, transforms });
                                            (Ok(()), w)
                                        } else {
                                            let w = w.add_field_init(parts.record, FieldInit { key: backing, init: init_of(m), transforms });
                                            (Ok(()), w)
                                        },
                                )
                            },
                    )
                },
            ),
    )
}

/// An accessor with a private field behind it.
#[verifier::spinoff_prover]
pub fn define_auto_accessor<'h, 'a, H: Host<'a>>(
    s: &mut Session<'h, 'a, H>,
    m: &'a ClassMember,
    at: u64,
    key: Key<'a>,
    parts: ClassParts,
    depth: u64,
) -> (out: Result<(), Abrupt<'a>>)
    ensures
        final(s).continues(*old(s)),
        forall|answers: Answers<'a>| #[trigger]
            final(s).agrees(answers) ==> old(s).agrees(answers) && (out, final(s).world(answers))
                == define_auto_accessor_step(m, at, key, parts, depth, old(s).world(answers)),
    decreases depth, m, 1nat, 0nat,
{
    let private: bool = private_of(&m.key).is_some();
    let target: Value = if m.is_static { parts.ctor } else { parts.proto };
    let inits: u64 = if m.is_static { parts.static_inits } else { parts.instance_inits };
    s.count_made();
    let made_hidden = backing_text(s.made());
    let hidden: Value = s.add_text(made_hidden);
    let backing: Key<'a> = key_of_value(hidden);
    let g: Value = make_accessor_fn(s, key, backing, true)?;
    let t: Value = make_accessor_fn(s, key, backing, false)?;
    let transforms: u64 = s.new_list(Vec::new());
    let halves: (Value, Value) = decorate_accessor(
        s,
        &m.decorators,
        (g, t),
        transforms,
        key,
        m.is_static,
        private,
        inits,
        parts.name_env,
        depth,
    )?;
    if private && !m.is_static {
        s.add_private(parts.record, key, make_private_accessor(Some(halves.0), Some(halves.1)));
        s.add_field_init(parts.record, FieldInit { key: backing, init: member_init(m), transforms });
        return Ok(());
    } else {
        let u: () = define_halves(s, target, key, Some(halves.0), Some(halves.1), false)?;
        if m.is_static {
            s.add_static(parts.record, StaticInit { member: at, key: backing, transforms });
            return Ok(());
        } else {
            s.add_field_init(parts.record, FieldInit { key: backing, init: member_init(m), transforms });
            return Ok(());
        }
    }
}

/// A method, a getter or a setter. A private one of an instance is kept for each instance; any
/// other goes to the constructor or the prototype.
pub open spec fn define_callable_step<'a>(
    m: &'a ClassMember,
    func: &'a Function,
    prefix: &'static str,
    kind: &'static str,
    key: Key<'a>,
    parts: ClassParts,
    depth: u64,
    w: World<'a>,
) -> Step<'a, ()>
    decreases depth, m, 1nat, 0nat,
{
    let private: bool = private_key(&m.key) is Some;
    let target: Value = if m.is_static { parts.ctor } else { parts.proto };
    let inits: u64 = if m.is_static { parts.static_inits } else { parts.instance_inits };
    let scope: Env = if m.is_static { parts.static_env } else { parts.inst_env };
    next(
        asks(Request::MakeFunction { func, env: scope }, w),
        |made: Value, w: World<'a>|
            next(
                name_method_step(made, prefix, key, w),
                |nm: (), w: World<'a>|
                    next(
                        decorate_callable_step(
                            &m.decorators,
                            made,
                            kind,
                            key,
                            m.is_static,
                            private,
                            inits,
                            parts.name_env,
                            depth,
                            w,
                        ),
                        |f: Value, w: World<'a>|
                            if kind@ == "method"@ {
                                if private && !m.is_static {
                                    let w = w.add_private(parts.record, key, Property::of(f, false, false, false));
                                    (Ok(()), w)
                                } else if private {
                                    let w = w.ask(
                                        Request::DefineOwn { base: target, key, prop: Property::of(f, false, false, false) },
                                    ).1;
                                    (Ok(()), w)
                                } else {
                                    let w = w.ask(
                                        Request::DefineOwn { base: target, key, prop: Property::of(f, true, false, true) },
                                    ).1;
                                    (Ok(()), w)
                                }
                            } else {
                                let getter: Option<Value> = if kind@ == "getter"@ { Some(f) } else { None };
                                let setter: Option<Value> = if kind@ == "getter"@ { None } else { Some(f) };
                                if private && !m.is_static {
                                    let w = w.merge_private(parts.record, key, getter, setter);
                                    (Ok(()), w)
                                } else {
                                    define_halves_step(target, key, getter, setter, false, w)
                                }
                            },
                    ),
            ),
    )
}

/// A method, a getter or a setter. A private one of an instance is kept for each instance; any
/// other goes to the constructor or the prototype.
#[verifier::spinoff_prover]
pub fn define_callable<'h, 'a, H: Host<'a>>(
    s: &mut Session<'h, 'a, H>,
    m: &'a ClassMember,
    func: &'a Function,
    prefix: &'static str,
    kind: &'static str,
    key: Key<'a>,
    parts: ClassParts,
    depth: u64,
) -> (out: Result<(), Abrupt<'a>>)
    ensures
        final(s).continues(*old(s)),
        forall|answers: Answers<'a>| #[trigger]
            final(s).agrees(answers) ==> old(s).agrees(answers) && (out, final(s).world(answers))
                == define_callable_step(
                    m,
                    func,
                    prefix,
                    kind,
                    key,
                    parts,
                    depth,
                    old(s).world(answers),
                ),
    decreases depth, m, 1nat, 0nat,
{
    let private: bool = private_of(&m.key).is_some();
    let target: Value = if m.is_static { parts.ctor } else { parts.proto };
    let inits: u64 = if m.is_static { parts.static_inits } else { parts.instance_inits };
    let scope: Env = if m.is_static { parts.static_env } else { parts.inst_env };
    let made: Value = s.value(Request::MakeFunction { func, env: scope })?;
    let nm: () = name_method(s, made, prefix, key)?;
    let f: Value = decorate_callable(
        s,
        &m.decorators,
        made,
        kind,
        key,
        m.is_static,
        private,
        inits,
        parts.name_env,
        depth,
    )?;
    if same_text(kind, "method") {
        if private && !m.is_static {
            s.add_private(parts.record, key, Property::data(f, false, false, false));
            return Ok(());
        } else if private {
            let _ = s.ask(
                Request::DefineOwn { base: target, key, prop: Property::data(f, false, false, false) },
            );
            return Ok(());
        } else {
            let _ = s.ask(Request::DefineOwn { base: target, key, prop: Property::builtin(f) });
            return Ok(());
        }
    } else {
        let getter: Option<Value> = if same_text(kind, "getter") { Some(f) } else { None };
        let setter: Option<Value> = if same_text(kind, "getter") { None } else { Some(f) };
        if private && !m.is_static {
            s.merge_private(parts.record, key, getter, setter);
            return Ok(());
        } else {
            return define_halves(s, target, key, getter, setter, false);
        }
    }
}

/// A field. A static one waits for its turn; one of an instance is kept for each instance.
pub open spec fn define_field_step<'a>(
    m: &'a ClassMember,
    at: u64,
    key: Key<'a>,
    parts: ClassParts,
    depth: u64,
    w: World<'a>,
) -> Step<'a, ()>
    decreases depth, m, 1nat, 0nat,
{
    let private: bool = private_key(&m.key) is Some;
    let inits: u64 = if m.is_static { parts.static_inits } else { parts.instance_inits };
    let transforms: u64 = w.next_list();
    let w = w.new_list(Seq::empty());
    next(
        decorate_field_step(
            &m.decorators,
            transforms,
            key,
            m.is_static,
            private,
            inits,
            parts.name_env,
            depth,
            w,
        ),
        |u: (), w: World<'a>|
            if m.is_static {
                let w = w.add_static(parts.record, StaticInit { member: at, key, transforms });
                (Ok(()), w)
            } else {
                let w = w.add_field_init(parts.record, FieldInit { key, init: init_of(m), transforms });
                (Ok(()), w)
            },
    )
}

/// A field. A static one waits for its turn; one of an instance is kept for each instance.
pub fn define_field<'h, 'a, H: Host<'a>>(
    s: &mut Session<'h, 'a, H>,
    m: &'a ClassMember,
    at: u64,
    key: Key<'a>,
    parts: ClassParts,
    depth: u64,
) -> (out: Result<(), Abrupt<'a>>)
    ensures
        final(s).continues(*old(s)),
        forall|answers: Answers<'a>| #[trigger]
            final(s).agrees(answers) ==> old(s).agrees(answers) && (out, final(s).world(answers))
                == define_field_step(m, at, key, parts, depth, old(s).world(answers)),
    decreases depth, m, 1nat, 0nat,
{
    let private: bool = private_of(&m.key).is_some();
    let inits: u64 = if m.is_static { parts.static_inits } else { parts.instance_inits };
    let transforms: u64 = s.new_list(Vec::new());
    let u: () = decorate_field(
        s,
        &m.decorators,
        transforms,
        key,
        m.is_static,
        private,
        inits,
        parts.name_env,
        depth,
    )?;
    if m.is_static {
        s.add_static(parts.record, StaticInit { member: at, key, transforms });
        return Ok(());
    } else {
        s.add_field_init(parts.record, FieldInit { key, init: member_init(m), transforms });
        return Ok(());
    }
}

/// Defines the members of a class in their order. From the item at `i` on.
pub open spec fn define_members_from<'a>(
    members: &'a Vec<ClassMember>,
    parts: ClassParts,
    depth: u64,
    i: nat,
    w: World<'a>,
) -> Step<'a, ()>
    decreases depth, members, 0nat, members@.len() - i,
{
    if i >= members@.len() {
        (Ok(()), w)
    } else {
        let m: &'a ClassMember = &members@[i as int];
        if m.kind == MemberKind::Constructor {
            define_members_from(members, parts, depth, i + 1, w)
        } else {
            next(
                member_key_step(m, parts.class_env, depth, w),
                |key: Key<'a>, w: World<'a>|
                    match &m.func {
                        Some(f) => {
                            match m.kind {
                                MemberKind::Method => {
                                    next(
                                        define_callable_step(
                                            m,
                                            &**f,
                                            "",
                                            "method",
                                            key,
                                            parts,
                                            depth,
                                            w,
                                        ),
                                        |u: (), w: World<'a>|
                                            define_members_from(members, parts, depth, i + 1, w),
                                    )
                                },
                                MemberKind::Getter => {
                                    next(
                                        define_callable_step(
                                            m,
                                            &**f,
                                            "get ",
                                            "getter",
                                            key,
                                            parts,
                                            depth,
                                            w,
                                        ),
                                        |u: (), w: World<'a>|
                                            define_members_from(members, parts, depth, i + 1, w),
                                    )
                                },
                                MemberKind::Setter => {
                                    next(
                                        define_callable_step(
                                            m,
                                            &**f,
                                            "set ",
                                            "setter",
                                            key,
                                            parts,
                                            depth,
                                            w,
                                        ),
                                        |u: (), w: World<'a>|
                                            define_members_from(members, parts, depth, i + 1, w),
                                    )
                                },
                                MemberKind::Accessor => {
                                    next(
                                        define_auto_accessor_step(
                                            m,
                                            i as u64,
                                            key,
                                            parts,
                                            depth,
                                            w,
                                        ),
                                        |u: (), w: World<'a>|
                                            define_members_from(members, parts, depth, i + 1, w),
                                    )
                                },
                                MemberKind::Field => {
                                    next(
                                        define_field_step(m, i as u64, key, parts, depth, w),
                                        |u: (), w: World<'a>|
                                            define_members_from(members, parts, depth, i + 1, w),
                                    )
                                },
                                _ => define_members_from(members, parts, depth, i + 1, w),
                            }
                        },
                        None => {
                            match m.kind {
                                MemberKind::Accessor => {
                                    next(
                                        define_auto_accessor_step(
                                            m,
                                            i as u64,
                                            key,
                                            parts,
                                            depth,
                                            w,
                                        ),
                                        |u: (), w: World<'a>|
                                            define_members_from(members, parts, depth, i + 1, w),
                                    )
                                },
                                MemberKind::Field => {
                                    next(
                                        define_field_step(m, i as u64, key, parts, depth, w),
                                        |u: (), w: World<'a>|
                                            define_members_from(members, parts, depth, i + 1, w),
                                    )
                                },
                                _ => define_members_from(members, parts, depth, i + 1, w),
                            }
                        },
                    },
            )
        }
    }
}

/// Defines the members of a class in their order.
pub open spec fn define_members_step<'a>(
    members: &'a Vec<ClassMember>,
    parts: ClassParts,
    depth: u64,
    w: World<'a>,
) -> Step<'a, ()>
    decreases depth, members, 0nat, members@.len() + 1,
{
    define_members_from(members, parts, depth, 0, w)
}

/// Defines the members of a class in their order.
#[verifier::spinoff_prover]
pub fn define_members<'h, 'a, H: Host<'a>>(
    s: &mut Session<'h, 'a, H>,
    members: &'a Vec<ClassMember>,
    parts: ClassParts,
    depth: u64,
) -> (out: Result<(), Abrupt<'a>>)
    ensures
        final(s).continues(*old(s)),
        forall|answers: Answers<'a>| #[trigger]
            final(s).agrees(answers) ==> old(s).agrees(answers) && (out, final(s).world(answers))
                == define_members_step(members, parts, depth, old(s).world(answers)),
    decreases depth, members, 0nat, members@.len() + 1,
{
    let mut i: usize = 0;
    while i < members.len()
        invariant
            i <= members.len(),
            s.continues(*old(s)),
            forall|answers: Answers<'a>| #[trigger]
                s.agrees(answers) ==> old(s).agrees(answers)
                    && define_members_step(members, parts, depth, old(s).world(answers))
                    == define_members_from(members, parts, depth, i as nat, s.world(answers)),
        decreases members.len() - i,
    {
        let m: &'a ClassMember = &members[i];
        if m.kind == MemberKind::Constructor {
        } else {
            let key: Key<'a> = member_key(s, m, parts.class_env, depth)?;
            match &m.func {
                Some(f) => {
                    match m.kind {
                        MemberKind::Method => {
                            let u: () = define_callable(
                                s,
                                m,
                                &**f,
                                "",
                                "method",
                                key,
                                parts,
                                depth,
                            )?;
                        },
                        MemberKind::Getter => {
                            let u: () = define_callable(
                                s,
                                m,
                                &**f,
                                "get ",
                                "getter",
                                key,
                                parts,
                                depth,
                            )?;
                        },
                        MemberKind::Setter => {
                            let u: () = define_callable(
                                s,
                                m,
                                &**f,
                                "set ",
                                "setter",
                                key,
                                parts,
                                depth,
                            )?;
                        },
                        MemberKind::Accessor => {
                            let u: () = define_auto_accessor(s, m, i as u64, key, parts, depth)?;
                        },
                        MemberKind::Field => {
                            let u: () = define_field(s, m, i as u64, key, parts, depth)?;
                        },
                        _ => {
                        },
                    }
                },
                None => {
                    match m.kind {
                        MemberKind::Accessor => {
                            let u: () = define_auto_accessor(s, m, i as u64, key, parts, depth)?;
                        },
                        MemberKind::Field => {
                            let u: () = define_field(s, m, i as u64, key, parts, depth)?;
                        },
                        _ => {
                        },
                    }
                },
            }
        }
        i = i + 1;
    }
    return Ok(());
}

/// Runs a static block: its names are declared as those of a function body.
pub open spec fn run_static_block_step<'a>(
    func: &'a Function,
    ctor: Value,
    env: Env,
    depth: u64,
    w: World<'a>,
) -> Step<'a, ()>
    decreases depth, func, 1nat, 0nat,
{
    let scope: Env = w.next_scope();
    let w = w.new_scope(Some(env), None, false, false);
    let w = w.bind_var(Name::Fixed("this"), ctor, scope);
    let w = w.ask(Request::HoistVars { stmts: &func.body, env: scope }).1;
    let w = w.declare_block(&func.body, scope);
    next(
        run_stmt_list_step(&func.body, scope, depth, w),
        |v: Value, w: World<'a>| (Ok(()), w),
    )
}

/// Runs a static block: its names are declared as those of a function body.
pub fn run_static_block<'h, 'a, H: Host<'a>>(
    s: &mut Session<'h, 'a, H>,
    func: &'a Function,
    ctor: Value,
    env: Env,
    depth: u64,
) -> (out: Result<(), Abrupt<'a>>)
    ensures
        final(s).continues(*old(s)),
        forall|answers: Answers<'a>| #[trigger]
            final(s).agrees(answers) ==> old(s).agrees(answers) && (out, final(s).world(answers))
                == run_static_block_step(func, ctor, env, depth, old(s).world(answers)),
    decreases depth, func, 1nat, 0nat,
{
    let scope: Env = s.new_scope(Some(env), None, false, false);
    s.bind_var(Name::Fixed("this"), ctor, scope);
    let _ = s.ask(Request::HoistVars { stmts: &func.body, env: scope });
    s.declare_block(&func.body, scope);
    let v: Value = run_stmt_list(s, &func.body, scope, depth)?;
    return Ok(());
}

/// Initializes a static field, or the field behind a static accessor.
pub open spec fn init_static_field_step<'a>(
    m: &'a ClassMember,
    at: u64,
    parts: ClassParts,
    depth: u64,
    w: World<'a>,
) -> Step<'a, ()>
    decreases depth, m, 2nat, 0nat,
{
    let kept: Option<StaticInit<'a>> = w.static_of(parts.record, at);
    match kept {
        None => (Ok(()), w),
        Some(f) => {
            next(
                field_scope_step(parts.ctor, parts.static_env, w),
                |scope: Env, w: World<'a>| {
                    let saved: Flags = w.flags;
                    let w = w.set_flags(Flags { super_call: false, field_code: true, ..saved });
                    let (r, w) = field_value_step(init_of(m), f.key, scope, depth, w);
                    let now: Flags = w.flags;
                    let w = w.set_flags(Flags { super_call: saved.super_call, field_code: saved.field_code, ..now });
                    match r {
                        Err(a) => (Err(a), w),
                        Ok(x) => {
                            next(
                                apply_transforms_step(x, parts.ctor, f.transforms, w),
                                |v: Value, w: World<'a>|
                                    add_static_field_step(parts.ctor, f.key, v, w),
                            )
                        },
                    }
                },
            )
        },
    }
}

/// Initializes a static field, or the field behind a static accessor.
pub fn init_static_field<'h, 'a, H: Host<'a>>(
    s: &mut Session<'h, 'a, H>,
    m: &'a ClassMember,
    at: u64,
    parts: ClassParts,
    depth: u64,
) -> (out: Result<(), Abrupt<'a>>)
    ensures
        final(s).continues(*old(s)),
        forall|answers: Answers<'a>| #[trigger]
            final(s).agrees(answers) ==> old(s).agrees(answers) && (out, final(s).world(answers))
                == init_static_field_step(m, at, parts, depth, old(s).world(answers)),
    decreases depth, m, 2nat, 0nat,
{
    let kept: Option<StaticInit<'a>> = s.static_of(parts.record, at);
    match kept {
        None => {
            return Ok(());
        },
        Some(f) => {
            let scope: Env = field_scope(s, parts.ctor, parts.static_env)?;
            let saved: Flags = s.flags();
            s.set_flags(Flags { super_call: false, field_code: true, ..saved });
            let r: Completion<'a> = field_value(s, member_init(m), f.key, scope, depth);
            let now: Flags = s.flags();
            s.set_flags(Flags { super_call: saved.super_call, field_code: saved.field_code, ..now });
            match r {
                Err(a) => {
                    return Err(a);
                },
                Ok(x) => {
                    let v: Value = apply_transforms(s, x, parts.ctor, f.transforms)?;
                    return add_static_field(s, parts.ctor, f.key, v);
                },
            }
        },
    }
}

/// Gives a class the value of a static field: a private one once only, and only where properties
/// can be added.
pub open spec fn add_static_field_step<'a>(
    ctor: Value,
    key: Key<'a>,
    v: Value,
    w: World<'a>,
) -> Step<'a, ()>
{
    next(
        if w.private(key) {
            next(
                asks_flag(Request::HasOwn { base: ctor, key }, w),
                |there: bool, w: World<'a>|
                    next(
                        asks_flag(Request::IsExtensible(ctor), w),
                        |open: bool, w: World<'a>| (Ok(there || !open), w),
                    ),
            )
        } else {
            (Ok(false), w)
        },
        |refused: bool, w: World<'a>|
            if refused {
                throws(
                    ErrorKind::TypeError,
                    "cannot add a private field to a non-extensible object",
                    w,
                )
            } else {
                let w = w.ask(
                    Request::DefineOwn { base: ctor, key, prop: Property::of(v, true, true, true) },
                ).1;
                (Ok(()), w)
            },
    )
}

/// Gives a class the value of a static field: a private one once only, and only where properties
/// can be added.
pub fn add_static_field<'h, 'a, H: Host<'a>>(
    s: &mut Session<'h, 'a, H>,
    ctor: Value,
    key: Key<'a>,
    v: Value,
) -> (out: Result<(), Abrupt<'a>>)
    ensures
        final(s).continues(*old(s)),
        forall|answers: Answers<'a>| #[trigger]
            final(s).agrees(answers) ==> old(s).agrees(answers) && (out, final(s).world(answers))
                == add_static_field_step(ctor, key, v, old(s).world(answers)),
{
    let refused: bool = if s.private(key) {
        let there: bool = s.flag(Request::HasOwn { base: ctor, key })?;
        let open: bool = s.flag(Request::IsExtensible(ctor))?;
        there || !open
    } else {
        false
    };
    if refused {
        return throw(
            s,
            ErrorKind::TypeError,
            "cannot add a private field to a non-extensible object",
        );
    } else {
        let _ = s.ask(Request::DefineOwn { base: ctor, key, prop: Property::plain(v) });
        return Ok(());
    }
}

/// Runs the static fields and blocks of a class in their order. From the item at `i` on.
pub open spec fn run_statics_from<'a>(
    members: &'a Vec<ClassMember>,
    parts: ClassParts,
    depth: u64,
    i: nat,
    w: World<'a>,
) -> Step<'a, ()>
    decreases depth, members, 0nat, members@.len() - i,
{
    if i >= members@.len() {
        (Ok(()), w)
    } else {
        let m: &'a ClassMember = &members@[i as int];
        match m.kind {
            MemberKind::StaticBlock => {
                match &m.func {
                    Some(f) => {
                        next(
                            run_static_block_step(&**f, parts.ctor, parts.static_env, depth, w),
                            |u: (), w: World<'a>|
                                run_statics_from(members, parts, depth, i + 1, w),
                        )
                    },
                    None => run_statics_from(members, parts, depth, i + 1, w),
                }
            },
            MemberKind::Field | MemberKind::Accessor => {
                if m.is_static {
                    next(
                        init_static_field_step(m, i as u64, parts, depth, w),
                        |u: (), w: World<'a>|
                            run_statics_from(members, parts, depth, i + 1, w),
                    )
                } else {
                    run_statics_from(members, parts, depth, i + 1, w)
                }
            },
            _ => run_statics_from(members, parts, depth, i + 1, w),
        }
    }
}

/// Runs the static fields and blocks of a class in their order.
pub open spec fn run_statics_step<'a>(
    members: &'a Vec<ClassMember>,
    parts: ClassParts,
    depth: u64,
    w: World<'a>,
) -> Step<'a, ()>
    decreases depth, members, 0nat, members@.len() + 1,
{
    run_statics_from(members, parts, depth, 0, w)
}

/// Runs the static fields and blocks of a class in their order.
pub fn run_statics<'h, 'a, H: Host<'a>>(
    s: &mut Session<'h, 'a, H>,
    members: &'a Vec<ClassMember>,
    parts: ClassParts,
    depth: u64,
) -> (out: Result<(), Abrupt<'a>>)
    ensures
        final(s).continues(*old(s)),
        forall|answers: Answers<'a>| #[trigger]
            final(s).agrees(answers) ==> old(s).agrees(answers) && (out, final(s).world(answers))
                == run_statics_step(members, parts, depth, old(s).world(answers)),
    decreases depth, members, 0nat, members@.len() + 1,
{
    let mut i: usize = 0;
    while i < members.len()
        invariant
            i <= members.len(),
            s.continues(*old(s)),
            forall|answers: Answers<'a>| #[trigger]
                s.agrees(answers) ==> old(s).agrees(answers)
                    && run_statics_step(members, parts, depth, old(s).world(answers))
                    == run_statics_from(members, parts, depth, i as nat, s.world(answers)),
        decreases members.len() - i,
    {
        let m: &'a ClassMember = &members[i];
        match m.kind {
            MemberKind::StaticBlock => {
                match &m.func {
                    Some(f) => {
                        let u: () = run_static_block(s, &**f, parts.ctor, parts.static_env, depth)?;
                    },
                    None => {
                    },
                }
            },
            MemberKind::Field | MemberKind::Accessor => {
                if m.is_static {
                    let u: () = init_static_field(s, m, i as u64, parts, depth)?;
                } else {
                }
            },
            _ => {
            },
        }
        i = i + 1;
    }
    return Ok(());
}

/// Applies the decorators of a class and runs what they have added.
pub open spec fn decorate_class_step<'a>(
    class: &'a Class,
    parts: ClassParts,
    depth: u64,
    w: World<'a>,
) -> Step<'a, Value>
    decreases depth, class, 1nat, 0nat,
{
    let key: Key<'a> = match &class.name { Some(n) => Key::Source(n), None => Key::Fixed("") };
    next(
        decorate_callable_step(
            &class.decorators,
            parts.ctor,
            "class",
            key,
            false,
            false,
            parts.static_inits,
            parts.name_env,
            depth,
            w,
        ),
        |v: Value, w: World<'a>|
            next(
                call_each_step(v, parts.static_inits, w),
                |u: (), w: World<'a>| (Ok(v), w),
            ),
    )
}

/// Applies the decorators of a class and runs what they have added.
pub fn decorate_class<'h, 'a, H: Host<'a>>(
    s: &mut Session<'h, 'a, H>,
    class: &'a Class,
    parts: ClassParts,
    depth: u64,
) -> (out: Result<Value, Abrupt<'a>>)
    ensures
        final(s).continues(*old(s)),
        forall|answers: Answers<'a>| #[trigger]
            final(s).agrees(answers) ==> old(s).agrees(answers) && (out, final(s).world(answers))
                == decorate_class_step(class, parts, depth, old(s).world(answers)),
    decreases depth, class, 1nat, 0nat,
{
    let key: Key<'a> = match &class.name { Some(n) => Key::Source(n), None => Key::Fixed("") };
    let v: Value = decorate_callable(
        s,
        &class.decorators,
        parts.ctor,
        "class",
        key,
        false,
        false,
        parts.static_inits,
        parts.name_env,
        depth,
    )?;
    let u: () = call_each(s, v, parts.static_inits)?;
    return Ok(v);
}

/// ClassDefinitionEvaluation: the heritage, the constructor, the members, then the static elements.
/// The class's own name is there from the start, but only initialized once every key is computed.
pub open spec fn eval_class_strict_step<'a>(
    class: &'a Class,
    env: Env,
    name: Option<Name<'a>>,
    depth: u64,
    w: World<'a>,
) -> Step<'a, Value>
    decreases depth, class, 2nat, 0nat,
{
    let name_env: Env = w.next_scope();
    let w = w.new_scope(Some(env), None, false, false);
    next(
        match &class.name {
            Some(n) => {
                let w = w.declare_class(Name::Source(n), name_env);
                (Ok(()), w)
            },
            None => (Ok(()), w),
        },
        |u: (), w: World<'a>|
            next(
                class_heritage_step(class, name_env, depth, w),
                |heritage: (Value, Option<Value>, bool), w: World<'a>|
                    next(
                        build_class_step(class, name, heritage, name_env, w),
                        |parts: ClassParts, w: World<'a>|
                            next(
                                define_members_step(&class.members, parts, depth, w),
                                |d: (), w: World<'a>|
                                    next(
                                        match &class.name {
                                            Some(n) => {
                                                let w = w.initialize(name_env, Name::Source(n));
                                                (Ok(()), w)
                                            },
                                            None => (Ok(()), w),
                                        },
                                        |t: (), w: World<'a>|
                                            next(
                                                run_statics_step(&class.members, parts, depth, w),
                                                |x: (), w: World<'a>| {
                                                    let w = w.finish_class(parts.record, parts.ctor, heritage.2, parts.inst_env, parts.instance_inits);
                                                    decorate_class_step(class, parts, depth, w)
                                                },
                                            ),
                                    ),
                            ),
                    ),
            ),
    )
}

/// ClassDefinitionEvaluation: the heritage, the constructor, the members, then the static elements.
/// The class's own name is there from the start, but only initialized once every key is computed.
pub fn eval_class_strict<'h, 'a, H: Host<'a>>(
    s: &mut Session<'h, 'a, H>,
    class: &'a Class,
    env: Env,
    name: Option<Name<'a>>,
    depth: u64,
) -> (out: Result<Value, Abrupt<'a>>)
    ensures
        final(s).continues(*old(s)),
        forall|answers: Answers<'a>| #[trigger]
            final(s).agrees(answers) ==> old(s).agrees(answers) && (out, final(s).world(answers))
                == eval_class_strict_step(class, env, name, depth, old(s).world(answers)),
    decreases depth, class, 2nat, 0nat,
{
    let name_env: Env = s.new_scope(Some(env), None, false, false);
    let u: () = match &class.name {
        Some(n) => {
            s.declare_class(Name::Source(n), name_env);
            ()
        },
        None => {
            ()
        },
    };
    let heritage: (Value, Option<Value>, bool) = class_heritage(s, class, name_env, depth)?;
    let parts: ClassParts = build_class(s, class, name, heritage, name_env)?;
    let d: () = define_members(s, &class.members, parts, depth)?;
    let t: () = match &class.name {
        Some(n) => {
            s.initialize(name_env, Name::Source(n));
            ()
        },
        None => {
            ()
        },
    };
    let x: () = run_statics(s, &class.members, parts, depth)?;
    s.finish_class(parts.record, parts.ctor, heritage.2, parts.inst_env, parts.instance_inits);
    return decorate_class(s, class, parts, depth);
}

/// A class definition, which is strict code throughout.
pub open spec fn eval_class_step<'a>(
    class: &'a Class,
    env: Env,
    name: Option<Name<'a>>,
    depth: u64,
    w: World<'a>,
) -> Step<'a, Value>
    decreases depth, class, 3nat, 0nat,
{
    let saved: bool = w.strict;
    let w = World { strict: true, ..w };
    let (r, w) = eval_class_strict_step(class, env, name, depth, w);
    let w = World { strict: saved, ..w };
    (r, w)
}

/// A class definition, which is strict code throughout.
pub fn eval_class<'h, 'a, H: Host<'a>>(
    s: &mut Session<'h, 'a, H>,
    class: &'a Class,
    env: Env,
    name: Option<Name<'a>>,
    depth: u64,
) -> (out: Result<Value, Abrupt<'a>>)
    ensures
        final(s).continues(*old(s)),
        forall|answers: Answers<'a>| #[trigger]
            final(s).agrees(answers) ==> old(s).agrees(answers) && (out, final(s).world(answers))
                == eval_class_step(class, env, name, depth, old(s).world(answers)),
    decreases depth, class, 3nat, 0nat,
{
    let saved: bool = s.strict_mode();
    s.set_strict(true);
    let r: Completion<'a> = eval_class_strict(s, class, env, name, depth);
    s.set_strict(saved);
    return r;
}

} // verus!
