//! What holds of the parts of classes and of decorators, whatever the host answers.
use vstd::prelude::*;

use crate::ast::{Class, ClassMember, Expr, MemberKind};
use crate::interp::class::{
    accept_accessor_step, add_field_step, add_initializer_step, add_static_field_step,
    apply_transforms_step, build_class_step, call_decorator_step, call_each_from, call_each_step,
    class_heritage_step, decorate_accessor_from, decorate_callable_from, decorate_callable_step,
    decorate_class_step, decorate_field_from, define_auto_accessor_step, define_callable_step,
    define_field_step, define_members_from, define_members_step, eval_class_strict_step,
    field_scope_step, field_value_step, init_fields_from, init_fields_step,
    init_instance_fields_step, init_of, init_static_field_step, make_accessor_fn_step,
    make_decorator_context_step, member_key_step, mint_privates_from, prepare_decorator_step,
    private_key, run_constructor_on_from, run_field_code_step, run_native_constructor_step,
    run_static_block_step, run_statics_from, run_statics_step, stamp_privates_step, ClassParts,
};
use crate::interp::eval::{eval_prop_key_step, eval_step};
use crate::interp::object_laws::complains;
use crate::interp::operate::{is_callable_step, value_key};
use crate::interp::promise_laws::said;
use crate::interp::session::{
    place_of_class, Abrupt, Answer, Env, ErrorKind, FieldView, Flags, Key, Name, Request,
    StaticInit, Value, World,
};
use crate::literal::up_to;
use crate::modules::progress::bump;
use crate::number::ONE;
use crate::text::decimal;
use crate::value::props::Property;

verus! {

// ---- decorators

/// A decorator must be callable; with it comes a context of its own.
pub proof fn decorators_are_callable<'a>(
    decorator: &'a Expr,
    kind: &'static str,
    key: Key<'a>,
    is_static: bool,
    is_private: bool,
    env: Env,
    depth: u64,
    w: World<'a>,
)
    ensures
        ({
            let (f, w1) = eval_step(decorator, env, depth, w);
            f matches Ok(v) ==> ({
                let (ok, w2) = is_callable_step(v, w1);
                let (c, w3) = make_decorator_context_step(kind, key, is_static, is_private, w2);
                let (r, after) = prepare_decorator_step(
                    decorator,
                    kind,
                    key,
                    is_static,
                    is_private,
                    env,
                    depth,
                    w,
                );
                &&& ok == Ok::<bool, Abrupt<'a>>(false) ==> !(r is Ok) && complains(
                    after,
                    ErrorKind::TypeError,
                )
                &&& ok == Ok::<bool, Abrupt<'a>>(true) ==> (c matches Ok(ctx) ==> r == Ok::<
                    (Value, Value),
                    Abrupt<'a>,
                >((v, ctx)) && after == w3)
            })
        }),
{
}

/// The context of a decorated method says what is decorated: its kind, its name, whether it is static and
/// whether it is private, and has an `access.get` and the function that adds initializers.
pub proof fn contexts_describe_methods<'a>(
    n: &'a String,
    is_static: bool,
    is_private: bool,
    access: Value,
    getter: Value,
    adder: Value,
    ctx: Value,
    w: World<'a>,
)
    requires
        up_to(n@, '\u{1}') == n@,
        w.texts.len() < u64::MAX - 3,
        said(w, w.asked.len()) == Answer::<'a>::Value(access),
        said(w, w.asked.len() + 1) == Answer::<'a>::Value(getter),
        forall|k: nat|
            w.asked.len() + 1 < k < w.asked.len() + 13 ==> !(#[trigger] said(w, k) is Throw) && !(said(w, k)
                is Return),
        said(w, w.asked.len() + 5) == Answer::<'a>::Value(adder),
        said(w, w.asked.len() + 6) == Answer::<'a>::Value(ctx),
    ensures
        ({
            let at = w.asked.len() as int;
            let (r, after) = make_decorator_context_step(
                "method",
                Key::Source(n),
                is_static,
                is_private,
                w,
            );
            let plain = |v: Value| Property::of(v, true, true, true);
            &&& r == Ok::<Value, Abrupt<'a>>(ctx)
            &&& after.asked.len() == at + 14
            &&& after.asked[at + 1] == (Request::MakePropertyFunction {
                key: Key::Source(n),
                getter: true,
            })
            &&& after.asked[at + 4] == (Request::DefineOwn {
                base: access,
                key: Key::Fixed("get"),
                prop: plain(getter),
            })
            &&& after.asked[at + 7] matches Request::DefineOwn { base, key, prop } && base == ctx && key
                == Key::Fixed("kind") && prop.value is Str
            &&& after.asked[at + 8] matches Request::DefineOwn { base, key, prop } && base == ctx && key
                == Key::Fixed("name") && prop.value is Str
            &&& after.asked[at + 9] == (Request::DefineOwn {
                base: ctx,
                key: Key::Fixed("static"),
                prop: plain(Value::Bool(is_static)),
            })
            &&& after.asked[at + 10] == (Request::DefineOwn {
                base: ctx,
                key: Key::Fixed("private"),
                prop: plain(Value::Bool(is_private)),
            })
            &&& after.asked[at + 11] == (Request::DefineOwn {
                base: ctx,
                key: Key::Fixed("access"),
                prop: plain(access),
            })
            &&& after.asked[at + 12] == (Request::DefineOwn {
                base: ctx,
                key: Key::Fixed("addInitializer"),
                prop: plain(adder),
            })
        }),
{
    reveal_strlit("method");
    reveal_strlit("getter");
    reveal_strlit("setter");
    reveal_strlit("field");
    reveal_strlit("accessor");
    assert("method"@[0] != "setter"@[0]);
    assert("method"@.len() != "field"@.len());
    assert("method"@.len() != "accessor"@.len());
}

/// Only a function can be added to run later; it is added behind those that were added before.
pub proof fn initializers_are_added<'a>(f: Value, w: World<'a>)
    ensures
        ({
            let (ok, w1) = is_callable_step(f, w);
            let (r, after) = add_initializer_step(f, w);
            &&& ok == Ok::<bool, Abrupt<'a>>(true) ==> r == Ok::<Value, Abrupt<'a>>(Value::Undefined)
                && after.added == w1.added.push(f)
            &&& ok == Ok::<bool, Abrupt<'a>>(false) ==> !(r is Ok) && complains(
                after,
                ErrorKind::TypeError,
            )
        }),
{
}

/// Decorators apply from the last to the first: a function that one returns takes the place of the value for
/// those before it, `undefined` leaves the value, and anything else is a `TypeError`.
pub proof fn decorators_apply_backwards<'a>(
    decorators: &'a Vec<Expr>,
    value: Value,
    kind: &'static str,
    key: Key<'a>,
    is_static: bool,
    is_private: bool,
    inits: u64,
    env: Env,
    depth: u64,
    i: nat,
    v: Value,
    w: World<'a>,
)
    requires
        0 < i <= decorators@.len(),
    ensures
        ({
            let (d, w1) = prepare_decorator_step(
                &decorators@[i - 1],
                kind,
                key,
                is_static,
                is_private,
                env,
                depth,
                w,
            );
            let all = decorate_callable_from(
                decorators,
                value,
                kind,
                key,
                is_static,
                is_private,
                inits,
                env,
                depth,
                i,
                v,
                w,
            );
            d matches Ok(pair) ==> ({
                let (r, w2) = call_decorator_step(pair, v, inits, w1);
                r matches Ok(x) ==> ({
                    let (ok, w3) = is_callable_step(x, w2);
                    &&& x is Undefined ==> all == decorate_callable_from(
                        decorators,
                        value,
                        kind,
                        key,
                        is_static,
                        is_private,
                        inits,
                        env,
                        depth,
                        (i - 1) as nat,
                        v,
                        w2,
                    )
                    &&& !(x is Undefined) && ok == Ok::<bool, Abrupt<'a>>(true) ==> all
                        == decorate_callable_from(
                        decorators,
                        value,
                        kind,
                        key,
                        is_static,
                        is_private,
                        inits,
                        env,
                        depth,
                        (i - 1) as nat,
                        x,
                        w3,
                    )
                    &&& !(x is Undefined) && ok == Ok::<bool, Abrupt<'a>>(false) ==> !(all.0 is Ok)
                        && complains(all.1, ErrorKind::TypeError)
                })
            })
        }),
        decorate_callable_from(
            decorators,
            value,
            kind,
            key,
            is_static,
            is_private,
            inits,
            env,
            depth,
            0,
            v,
            w,
        ) == (Ok::<Value, Abrupt<'a>>(v), w),
{
}

/// A field's decorators are called with `undefined`; the functions that they return are kept to transform the
/// field's value, those of the last decorator first.
pub proof fn field_decorators_give_transforms<'a>(
    decorators: &'a Vec<Expr>,
    transforms: u64,
    key: Key<'a>,
    is_static: bool,
    is_private: bool,
    inits: u64,
    env: Env,
    depth: u64,
    i: nat,
    w: World<'a>,
)
    requires
        0 < i <= decorators@.len(),
    ensures
        ({
            let (d, w1) = prepare_decorator_step(
                &decorators@[i - 1],
                "field",
                key,
                is_static,
                is_private,
                env,
                depth,
                w,
            );
            let all = decorate_field_from(
                decorators,
                transforms,
                key,
                is_static,
                is_private,
                inits,
                env,
                depth,
                i,
                w,
            );
            d matches Ok(pair) ==> ({
                let (r, w2) = call_decorator_step(pair, Value::Undefined, inits, w1);
                r matches Ok(x) ==> ({
                    let (ok, w3) = is_callable_step(x, w2);
                    &&& x is Undefined ==> all == decorate_field_from(
                        decorators,
                        transforms,
                        key,
                        is_static,
                        is_private,
                        inits,
                        env,
                        depth,
                        (i - 1) as nat,
                        w2,
                    )
                    &&& !(x is Undefined) && ok == Ok::<bool, Abrupt<'a>>(true) ==> all
                        == decorate_field_from(
                        decorators,
                        transforms,
                        key,
                        is_static,
                        is_private,
                        inits,
                        env,
                        depth,
                        (i - 1) as nat,
                        w3.with_list(transforms, w3.list(transforms).push(x)),
                    )
                })
            })
        }),
{
}

/// An accessor's decorator may replace its halves: a function under `get` takes the place of the getter and
/// one under `set` that of the setter, and one under `init` transforms the first value.
pub proof fn accessor_decorators_replace_halves<'a>(
    made: u64,
    g: Value,
    t: Value,
    g2: u64,
    t2: u64,
    transforms: u64,
    w: World<'a>,
)
    requires
        said(w, w.asked.len()) == Answer::<'a>::Value(Value::Obj(g2)),
        said(w, w.asked.len() + 2) == Answer::<'a>::Value(Value::Obj(t2)),
        said(w, w.asked.len() + 1) is Flag,
        said(w, w.asked.len() + 3) is Flag,
        said(w, w.asked.len() + 4) == Answer::<'a>::Value(Value::Undefined),
    ensures
        ({
            let n = w.asked.len();
            let (r, after) = accept_accessor_step(Value::Obj(made), (g, t), transforms, w);
            let getter = if said(w, n + 1) == Answer::<'a>::Flag(true) {
                Value::Obj(g2)
            } else {
                g
            };
            let setter = if said(w, n + 3) == Answer::<'a>::Flag(true) {
                Value::Obj(t2)
            } else {
                t
            };
            &&& r == Ok::<(Value, Value), Abrupt<'a>>((getter, setter))
            &&& after.asked[n as int] == (Request::GetMember {
                base: Value::Obj(made),
                key: Key::Fixed("get"),
            })
            &&& after.asked[n as int + 2] == (Request::GetMember {
                base: Value::Obj(made),
                key: Key::Fixed("set"),
            })
            &&& after.asked[n as int + 4] == (Request::GetMember {
                base: Value::Obj(made),
                key: Key::Fixed("init"),
            })
        }),
{
}

/// An accessor's decorator is called with an object that has the two halves, and what it returns decides the
/// halves for those before it.
pub proof fn accessor_decorators_get_both_halves<'a>(
    decorators: &'a Vec<Expr>,
    start: (Value, Value),
    transforms: u64,
    key: Key<'a>,
    is_static: bool,
    is_private: bool,
    inits: u64,
    env: Env,
    depth: u64,
    i: nat,
    halves: (Value, Value),
    pair: Value,
    w: World<'a>,
)
    requires
        0 < i <= decorators@.len(),
        ({
            let (d, w1) = prepare_decorator_step(
                &decorators@[i - 1],
                "accessor",
                key,
                is_static,
                is_private,
                env,
                depth,
                w,
            );
            &&& d is Ok
            &&& said(w1, w1.asked.len()) == Answer::<'a>::Value(pair)
            &&& !(said(w1, w1.asked.len() + 1) is Throw) && !(said(w1, w1.asked.len() + 1) is Return)
            &&& !(said(w1, w1.asked.len() + 2) is Throw) && !(said(w1, w1.asked.len() + 2) is Return)
        }),
    ensures
        ({
            let (d, w1) = prepare_decorator_step(
                &decorators@[i - 1],
                "accessor",
                key,
                is_static,
                is_private,
                env,
                depth,
                w,
            );
            let w2 = w1.ask(Request::MakeObject).1;
            let w3 = w2.ask(
                Request::DefineOwn {
                    base: pair,
                    key: Key::Fixed("get"),
                    prop: Property::of(halves.0, true, true, true),
                },
            ).1;
            let w4 = w3.ask(
                Request::DefineOwn {
                    base: pair,
                    key: Key::Fixed("set"),
                    prop: Property::of(halves.1, true, true, true),
                },
            ).1;
            let (r, w5) = call_decorator_step(d->Ok_0, pair, inits, w4);
            let all = decorate_accessor_from(
                decorators,
                start,
                transforms,
                key,
                is_static,
                is_private,
                inits,
                env,
                depth,
                i,
                halves,
                w,
            );
            &&& r == Ok::<Value, Abrupt<'a>>(Value::Undefined) ==> all == decorate_accessor_from(
                decorators,
                start,
                transforms,
                key,
                is_static,
                is_private,
                inits,
                env,
                depth,
                (i - 1) as nat,
                halves,
                w5,
            )
            &&& r matches Ok(Value::Obj(o)) ==> ({
                let (h, w6) = accept_accessor_step(Value::Obj(o), halves, transforms, w5);
                h matches Ok(now) ==> all == decorate_accessor_from(
                    decorators,
                    start,
                    transforms,
                    key,
                    is_static,
                    is_private,
                    inits,
                    env,
                    depth,
                    (i - 1) as nat,
                    now,
                    w6,
                )
            })
            &&& r == Ok::<Value, Abrupt<'a>>(Value::Null) ==> !(all.0 is Ok) && complains(
                all.1,
                ErrorKind::TypeError,
            )
        }),
{
}

/// What decorators have added is called on the instance, one function after the other, without arguments.
pub proof fn added_functions_are_called<'a>(this: Value, list: u64, k: nat, at: u64, w: World<'a>)
    requires
        k > 0,
        w.lists.len() < u64::MAX,
    ensures
        !w.has_item(list, at) ==> call_each_from(this, list, k, at, w) == (
            Ok::<(), Abrupt<'a>>(()),
            w,
        ),
        w.has_item(list, at) ==> ({
            let w1 = w.new_list(Seq::empty());
            let w2 = w1.ask(
                Request::Call { func: w.item(list, at), this, args: w.next_list() },
            ).1;
            match said(w, w.asked.len()) {
                Answer::Value(_) => call_each_from(this, list, k, at, w) == call_each_from(
                    this,
                    list,
                    (k - 1) as nat,
                    bump(at),
                    w2,
                ),
                Answer::Throw(e) => call_each_from(this, list, k, at, w) == (
                    Err::<(), Abrupt<'a>>(Abrupt::Throw(e)),
                    w2,
                ),
                _ => true,
            }
        }),
{
}

/// The decorators of a class get the class, and what they give is the class; what they have added is called
/// on it.
pub proof fn class_decorators_replace_the_class<'a>(
    class: &'a Class,
    parts: ClassParts,
    depth: u64,
    w: World<'a>,
)
    ensures
        ({
            let key = match &class.name {
                Some(n) => Key::<'a>::Source(n),
                None => Key::<'a>::Fixed(""),
            };
            let (v, w1) = decorate_callable_step(
                &class.decorators,
                parts.ctor,
                "class",
                key,
                false,
                false,
                parts.static_inits,
                parts.name_env,
                depth,
                w,
            );
            v matches Ok(x) ==> ({
                let (u, w2) = call_each_step(x, parts.static_inits, w1);
                u is Ok ==> decorate_class_step(class, parts, depth, w) == (
                    Ok::<Value, Abrupt<'a>>(x),
                    w2,
                )
            })
        }),
        class.decorators@.len() == 0 && !w.has_item(parts.static_inits, 0) && w.limit > 0
            ==> decorate_class_step(class, parts, depth, w) == (
            Ok::<Value, Abrupt<'a>>(parts.ctor),
            w,
        ),
{
}

// ---- accessors with a field behind them

/// The functions of an automatic accessor get the field behind it, the getter no parameter and the setter
/// one.
pub proof fn accessor_functions_use_the_field<'a>(
    n: &'a String,
    backing: Key<'a>,
    getter: bool,
    f: Value,
    w: World<'a>,
)
    requires
        w.texts.len() < u64::MAX - 1,
        said(w, w.asked.len()) == Answer::<'a>::Value(f),
        !(said(w, w.asked.len() + 1) is Throw) && !(said(w, w.asked.len() + 1) is Return),
        !(said(w, w.asked.len() + 2) is Throw) && !(said(w, w.asked.len() + 2) is Return),
    ensures
        ({
            let at = w.asked.len() as int;
            let (r, after) = make_accessor_fn_step(Key::Source(n), backing, getter, w);
            &&& r == Ok::<Value, Abrupt<'a>>(f)
            &&& after.asked[at] == (Request::MakeAccessorFunction { backing, getter })
            &&& after.asked[at + 1] matches Request::DefineOwn { base, key, prop } && base == f && key
                == Key::Fixed("name") && prop.value is Str
            &&& after.asked[at + 2] matches Request::DefineOwn { base, key, prop } && base == f && key
                == Key::Fixed("length") && prop.value == Value::Num(
                if getter {
                    0u64
                } else {
                    ONE
                },
            )
        }),
{
}

// ---- statics

/// The static parts of a class run in the order in which they are written, on the class: a block runs its
/// body, a static field gets its value, and what is not static is passed over.
pub proof fn statics_run_in_order<'a>(
    members: &'a Vec<ClassMember>,
    parts: ClassParts,
    depth: u64,
    i: nat,
    w: World<'a>,
)
    requires
        i < members@.len(),
    ensures
        ({
            let m = &members@[i as int];
            let all = run_statics_from(members, parts, depth, i, w);
            &&& m.kind == MemberKind::StaticBlock ==> match &m.func {
                Some(f) => ({
                    let (u, w1) = run_static_block_step(
                        &**f,
                        parts.ctor,
                        parts.static_env,
                        depth,
                        w,
                    );
                    &&& u is Ok ==> all == run_statics_from(members, parts, depth, i + 1, w1)
                    &&& u matches Err(a) ==> all == (Err::<(), Abrupt<'a>>(a), w1)
                }),
                None => all == run_statics_from(members, parts, depth, i + 1, w),
            }
            &&& (m.kind == MemberKind::Field || m.kind == MemberKind::Accessor) && m.is_static ==> ({
                let (u, w1) = init_static_field_step(m, i as u64, parts, depth, w);
                &&& u is Ok ==> all == run_statics_from(members, parts, depth, i + 1, w1)
                &&& u matches Err(a) ==> all == (Err::<(), Abrupt<'a>>(a), w1)
            })
            &&& (m.kind == MemberKind::Field || m.kind == MemberKind::Accessor) && !m.is_static ==> all
                == run_statics_from(members, parts, depth, i + 1, w)
            &&& m.kind == MemberKind::Method || m.kind == MemberKind::Getter || m.kind
                == MemberKind::Setter ==> all == run_statics_from(members, parts, depth, i + 1, w)
        }),
        run_statics_from(members, parts, depth, members@.len(), w) == (Ok::<(), Abrupt<'a>>(()), w),
{
}

/// A static field gets its initial value with the class as `this`, passed through its transforms; code
/// around it may call `super(..)` afterwards as before.
pub proof fn static_fields_get_values<'a>(
    m: &'a ClassMember,
    at: u64,
    f: StaticInit<'a>,
    parts: ClassParts,
    depth: u64,
    w: World<'a>,
)
    requires
        w.static_of(parts.record, at) == Some(f),
    ensures
        ({
            let scope = w.next_scope();
            let w1 = w.new_scope(Some(parts.static_env), None, false, false).bind_var(
                Name::Fixed("this"),
                parts.ctor,
                scope,
            ).bind_var(Name::Fixed("%fieldinit%"), Value::Bool(true), scope);
            let w2 = w1.set_flags(Flags { super_call: false, field_code: true, ..w1.flags });
            let (x, w3) = field_value_step(init_of(m), f.key, scope, depth, w2);
            let w4 = w3.set_flags(
                Flags {
                    super_call: w1.flags.super_call,
                    field_code: w1.flags.field_code,
                    ..w3.flags
                },
            );
            let (v, w5) = apply_transforms_step(x->Ok_0, parts.ctor, f.transforms, w4);
            let all = init_static_field_step(m, at, parts, depth, w);
            &&& x matches Err(a) ==> all == (Err::<(), Abrupt<'a>>(a), w4)
            &&& x is Ok && v is Ok ==> all == add_static_field_step(parts.ctor, f.key, v->Ok_0, w5)
        }),
{
}

// ---- members

/// Private names get keys of their own, that no other class evaluation has: each ends in a number that counts
/// up. A name that has a key keeps it.
pub proof fn private_names_get_keys<'a>(
    members: &'a Vec<ClassMember>,
    env: Env,
    name: &'a String,
    i: nat,
    w: World<'a>,
)
    requires
        i < members@.len(),
        private_key(&members@[i as int].key) == Some(name),
        w.made < u64::MAX,
        w.texts.len() < u64::MAX,
    ensures
        w.scopes.binds(env, name@) ==> mint_privates_from(members, env, i, w) == mint_privates_from(
            members,
            env,
            i + 1,
            w,
        ),
        !w.scopes.binds(env, name@) ==> ({
            let made = (w.made + 1) as u64;
            let w1 = World { made, ..w };
            let key = w.next_text();
            mint_privates_from(members, env, i, w) == mint_privates_from(
                members,
                env,
                i + 1,
                w1.add_text(name@ + "\u{1}"@ + decimal(made as nat)).bind_var(
                    Name::Source(name),
                    key,
                    env,
                ),
            )
        }),
{
}

/// The key of a private member is the one that its name stands for; any other key is computed in the scope of
/// the class.
pub proof fn members_have_their_keys<'a>(m: &'a ClassMember, env: Env, depth: u64, w: World<'a>)
    ensures
        private_key(&m.key) matches Some(name) ==> (w.scopes.private_key(env, name@) matches Some(hidden)
            ==> member_key_step(m, env, depth, w) == (
            Ok::<Key<'a>, Abrupt<'a>>(Key::Made(hidden)),
            w,
        )),
        private_key(&m.key) is None && !m.is_static ==> member_key_step(m, env, depth, w)
            == eval_prop_key_step(&m.key, env, depth, w),
{
}

/// Members are defined in their order, each as its kind says; the constructor is passed over.
pub proof fn members_are_defined_in_order<'a>(
    members: &'a Vec<ClassMember>,
    parts: ClassParts,
    depth: u64,
    i: nat,
    w: World<'a>,
)
    requires
        i < members@.len(),
    ensures
        ({
            let m = &members@[i as int];
            let (k, w1) = member_key_step(m, parts.class_env, depth, w);
            let all = define_members_from(members, parts, depth, i, w);
            &&& m.kind == MemberKind::Constructor ==> all == define_members_from(
                members,
                parts,
                depth,
                i + 1,
                w,
            )
            &&& m.kind != MemberKind::Constructor ==> match k {
                Ok(key) => match &m.func {
                    Some(f) => {
                        let method = define_callable_step(m, &**f, "", "method", key, parts, depth, w1);
                        let getter = define_callable_step(
                            m,
                            &**f,
                            "get ",
                            "getter",
                            key,
                            parts,
                            depth,
                            w1,
                        );
                        let setter = define_callable_step(
                            m,
                            &**f,
                            "set ",
                            "setter",
                            key,
                            parts,
                            depth,
                            w1,
                        );
                        &&& m.kind == MemberKind::Method && method.0 is Ok ==> all
                            == define_members_from(members, parts, depth, i + 1, method.1)
                        &&& m.kind == MemberKind::Getter && getter.0 is Ok ==> all
                            == define_members_from(members, parts, depth, i + 1, getter.1)
                        &&& m.kind == MemberKind::Setter && setter.0 is Ok ==> all
                            == define_members_from(members, parts, depth, i + 1, setter.1)
                    },
                    None => {
                        let field = define_field_step(m, i as u64, key, parts, depth, w1);
                        let accessor = define_auto_accessor_step(m, i as u64, key, parts, depth, w1);
                        &&& m.kind == MemberKind::Field && field.0 is Ok ==> all == define_members_from(
                            members,
                            parts,
                            depth,
                            i + 1,
                            field.1,
                        )
                        &&& m.kind == MemberKind::Accessor && accessor.0 is Ok ==> all
                            == define_members_from(members, parts, depth, i + 1, accessor.1)
                    },
                },
                Err(a) => all == (Err::<(), Abrupt<'a>>(a), w1),
            }
        }),
{
}

/// A class is evaluated from its heritage to its members, then its static parts; its own name is there from
/// the start and is initialized once all keys are computed.
pub proof fn classes_are_evaluated_in_order<'a>(
    class: &'a Class,
    name: Option<Name<'a>>,
    env: Env,
    depth: u64,
    w: World<'a>,
)
    requires
        class.name is None,
    ensures
        ({
            let own = w.next_scope();
            let (h, w1) = class_heritage_step(
                class,
                own,
                depth,
                w.new_scope(Some(env), None, false, false),
            );
            let (p, w2) = build_class_step(class, name, h->Ok_0, own, w1);
            let (d, w3) = define_members_step(&class.members, p->Ok_0, depth, w2);
            let (x, w4) = run_statics_step(&class.members, p->Ok_0, depth, w3);
            let parts = p->Ok_0;
            let w5 = w4.finish_class(
                parts.record,
                parts.ctor,
                h->Ok_0.2,
                parts.inst_env,
                parts.instance_inits,
            );
            h is Ok && p is Ok && d is Ok && x is Ok ==> eval_class_strict_step(class, env, name, depth, w)
                == decorate_class_step(class, parts, depth, w5)
        }),
{
}

// ---- constructors

/// A proxy and what it stands for is constructed by the host; a bound function runs its target, with its own
/// arguments in front; a built-in constructor's object is moved to `this`; and what is no function is a
/// `TypeError`.
pub proof fn other_constructors_run<'a>(
    c: u64,
    this: Value,
    args: u64,
    depth: u64,
    k: nat,
    t: Value,
    all: u64,
    w: World<'a>,
)
    requires
        k > 0,
    ensures
        ({
            let n = w.asked.len();
            let ctor = Value::Obj(c);
            let r = run_constructor_on_from(ctor, this, args, depth, k, ctor, args, w);
            &&& said(w, n) == Answer::<'a>::Flag(true) ==> r.1.asked.last() == (Request::ConstructOnward {
                func: ctor,
                args,
            })
            &&& said(w, n) == Answer::<'a>::Flag(false) && said(w, n + 1) == Answer::<'a>::Flag(true)
                && said(w, n + 2) == Answer::<'a>::Value(t) && said(w, n + 3) == Answer::<'a>::Handle(all)
                ==> exists|w1: World<'a>|
                w1.asked.len() == n + 4 && r == #[trigger] run_constructor_on_from(
                    ctor,
                    this,
                    args,
                    depth,
                    (k - 1) as nat,
                    t,
                    all,
                    w1.append(all, w1.list(args)),
                )
            &&& said(w, n) == Answer::<'a>::Flag(false) && said(w, n + 1) == Answer::<'a>::Flag(false)
                && said(w, n + 2) == Answer::<'a>::Flag(false) && said(w, n + 3)
                == Answer::<'a>::Flag(false) ==> !(r.0 is Ok) && complains(r.1, ErrorKind::TypeError)
        }),
        !(run_constructor_on_from(t, this, args, depth, k, Value::Null, args, w).0 is Ok),
{
    let n = w.asked.len();
    let ctor = Value::Obj(c);
    let w4 = w.ask(Request::IsProxy(ctor)).1.ask(Request::IsBound(ctor)).1.ask(
        Request::BoundTarget(ctor),
    ).1.ask(Request::BoundArguments(ctor)).1;
    if said(w, n) == Answer::<'a>::Flag(false) && said(w, n + 1) == Answer::<'a>::Flag(true) && said(
        w,
        n + 2,
    ) == Answer::<'a>::Value(t) && said(w, n + 3) == Answer::<'a>::Handle(all) {
        assert(run_constructor_on_from(ctor, this, args, depth, k, ctor, args, w)
            == run_constructor_on_from(
            ctor,
            this,
            args,
            depth,
            (k - 1) as nat,
            t,
            all,
            w4.append(all, w4.list(args)),
        ));
    }
}

/// A built-in constructor is called on `this` with the arguments; the object that it makes, if that is another
/// one, is moved to `this`.
pub proof fn native_constructors_fill_this<'a>(c: Value, this: u64, args: u64, made: Value, w: World<'a>)
    requires
        said(w, w.asked.len()) == Answer::<'a>::Value(made),
    ensures
        ({
            let n = w.asked.len();
            let o = Value::Obj(this);
            let (r, after) = run_native_constructor_step(c, o, args, w);
            &&& after.asked[n as int] == (Request::CallNative { func: c, this: o, args })
            &&& made is Obj && made != o ==> after.asked.len() == n + 2 && after.asked.last() == (
            Request::Adopt { from: made, to: o })
            &&& !(made is Obj && made != o) ==> after.asked.len() == n + 1
            &&& r matches Ok(v) ==> v is Undefined
        }),
{
}

// ---- the scopes of a class

/// Giving private names their keys leaves the other scopes, and the number of scopes, as they are.
proof fn lemma_minting_keeps_scopes<'a>(
    members: &'a Vec<ClassMember>,
    env: Env,
    i: nat,
    w: World<'a>,
)
    ensures
        mint_privates_from(members, env, i, w).0 is Ok,
        mint_privates_from(members, env, i, w).1.asked == w.asked,
        mint_privates_from(members, env, i, w).1.answers == w.answers,
        mint_privates_from(members, env, i, w).1.scopes.scopes.len() == w.scopes.scopes.len(),
    decreases members@.len() - i,
{
    if i < members@.len() {
        match private_key(&members@[i as int].key) {
            Some(name) => {
                if w.scopes.binds(env, name@) {
                    lemma_minting_keeps_scopes(members, env, i + 1, w);
                } else {
                    let w1 = w.count_made();
                    let key = w1.next_text();
                    let w2 = w1.add_text(name@ + "\u{1}"@ + decimal(w1.made as nat));
                    let w3 = w2.bind_var(Name::Source(name), key, env);
                    lemma_minting_keeps_scopes(members, env, i + 1, w3);
                }
            },
            None => {
                lemma_minting_keeps_scopes(members, env, i + 1, w);
            },
        }
    }
}

/// The scopes of a class when its constructor is made, as they are left where the host cannot make it. In the
/// scope of instance members `super` is what the class inherits from, the home object is the object that
/// instances inherit from, and the parent is the constructor that is extended; in that of static members
/// `super` is that constructor.
pub proof fn members_see_what_is_inherited<'a>(
    class: &'a Class,
    name: Option<Name<'a>>,
    inherited: u64,
    parent: Value,
    made: Value,
    e: Value,
    own: Env,
    w: World<'a>,
)
    requires
        said(w, w.asked.len()) == Answer::<'a>::Value(made),
        said(w, w.asked.len() + 1) == Answer::<'a>::Throw(e),
        w.scopes.scopes.len() < usize::MAX - 3,
    ensures
        ({
            let n = w.scopes.scopes.len();
            let class_env = n as usize;
            let inst_env = (n + 1) as usize;
            let static_env = (n + 2) as usize;
            let (r, after) = build_class_step(
                class,
                name,
                (Value::Obj(inherited), Some(parent), true),
                own,
                w,
            );
            let s = after.scopes;
            &&& r == Err::<ClassParts, Abrupt<'a>>(Abrupt::Throw(e))
            &&& after.asked[w.asked.len() as int] == (Request::MakeObjectFrom {
                proto: Value::Obj(inherited),
            })
            &&& after.asked.last() matches Request::MakeConstructor { derived, env, .. } && derived && env
                == inst_env
            &&& s.value_in(inst_env, "%homeobject%"@) == made
            &&& s.value_in(inst_env, "%superproto%"@) == Value::Obj(inherited)
            &&& s.value_in(inst_env, "%superclass%"@) == parent
            &&& s.value_in(static_env, "%superproto%"@) == parent
            &&& s.around(inst_env) == Some(class_env)
            &&& s.around(static_env) == Some(class_env)
        }),
{
    reveal_strlit("%homeobject%");
    reveal_strlit("%superproto%");
    reveal_strlit("%superclass%");
    assert("%homeobject%"@[1] == 'h');
    assert("%superproto%"@[6] == 'p');
    assert("%superclass%"@[6] == 'c');
    assert("%homeobject%"@ != "%superproto%"@);
    assert("%homeobject%"@ != "%superclass%"@);
    assert("%superproto%"@ != "%superclass%"@);
    let w1 = w.ask(Request::MakeObjectFrom { proto: Value::Obj(inherited) }).1;
    let w2 = w1.new_scope(Some(own), None, false, false);
    lemma_minting_keeps_scopes(&class.members, w1.next_scope(), 0, w2);
}

/// A class without a parent: static members inherit from the host's function prototype, and so does the
/// class; there is no parent to construct. A class that extends `null` has `null` as its parent.
pub proof fn classes_without_parent<'a>(
    class: &'a Class,
    inherited: u64,
    made: Value,
    function: Value,
    ctor: Value,
    derived: bool,
    own: Env,
    w: World<'a>,
)
    requires
        class.name is None,
        said(w, w.asked.len()) == Answer::<'a>::Value(made),
        said(w, w.asked.len() + 1) == Answer::<'a>::Value(function),
        said(w, w.asked.len() + 2) == Answer::<'a>::Value(ctor),
        !(said(w, w.asked.len() + 3) is Throw) && !(said(w, w.asked.len() + 3) is Return),
        !(said(w, w.asked.len() + 4) is Throw) && !(said(w, w.asked.len() + 4) is Return),
    ensures
        ({
            let n = w.asked.len() as int;
            let (built, after) = build_class_step(
                class,
                None,
                (Value::Obj(inherited), None, derived),
                own,
                w,
            );
            &&& after.asked[n + 2] matches Request::MakeConstructor { derived: d, .. } && d == derived
            &&& after.asked[n + 3] == (Request::DefineOwn {
                base: ctor,
                key: Key::Fixed("prototype"),
                prop: Property::of(made, false, false, false),
            })
            &&& after.asked[n + 4] == (Request::SetPrototype { base: ctor, proto: function })
            &&& after.asked[n + 5] == (Request::DefineOwn {
                base: made,
                key: Key::Fixed("constructor"),
                prop: Property::of(ctor, true, false, true),
            })
        }),
{
    let w1 = w.ask(Request::MakeObjectFrom { proto: Value::Obj(inherited) }).1;
    let w2 = w1.new_scope(Some(own), None, false, false);
    lemma_minting_keeps_scopes(&class.members, w1.next_scope(), 0, w2);
}

/// The parent of a class without one, as its scopes have it: `undefined`, and `null` for a class that
/// extends `null`.
pub proof fn absent_parents_are_bound<'a>(
    class: &'a Class,
    inherited: u64,
    made: Value,
    e: Value,
    derived: bool,
    own: Env,
    w: World<'a>,
)
    requires
        said(w, w.asked.len()) == Answer::<'a>::Value(made),
        said(w, w.asked.len() + 1) == Answer::<'a>::Throw(e),
        w.scopes.scopes.len() < usize::MAX - 3,
    ensures
        ({
            let inst_env = (w.scopes.scopes.len() + 1) as usize;
            let after = build_class_step(
                class,
                None,
                (Value::Obj(inherited), None, derived),
                own,
                w,
            ).1;
            after.scopes.value_in(inst_env, "%superclass%"@) == (if derived {
                Value::Null
            } else {
                Value::Undefined
            })
        }),
{
    reveal_strlit("%homeobject%");
    reveal_strlit("%superproto%");
    reveal_strlit("%superclass%");
    assert("%superproto%"@[6] == 'p');
    assert("%superclass%"@[6] == 'c');
    assert("%superproto%"@ != "%superclass%"@);
    let w1 = w.ask(Request::MakeObjectFrom { proto: Value::Obj(inherited) }).1;
    let w2 = w1.new_scope(Some(own), None, false, false);
    lemma_minting_keeps_scopes(&class.members, w1.next_scope(), 0, w2);
}

/// A private accessor with a field behind it: the functions made for it use the field that is kept for each
/// instance, and are the halves of the private member.
pub proof fn private_accessors_use_their_field<'a>(
    m: &'a ClassMember,
    at: u64,
    n: &'a String,
    parts: ClassParts,
    g: Value,
    t: Value,
    depth: u64,
    w: World<'a>,
)
    requires
        m.decorators@.len() == 0,
        private_key(&m.key) is Some,
        !m.is_static,
        parts.record < w.drafts.len(),
        w.texts.len() < u64::MAX - 5,
        said(w, w.asked.len()) == Answer::<'a>::Value(g),
        said(w, w.asked.len() + 3) == Answer::<'a>::Value(t),
        forall|k: nat|
            w.asked.len() <= k < w.asked.len() + 6 ==> !(#[trigger] said(w, k) is Throw) && !(said(w, k)
                is Return),
    ensures
        ({
            let at0 = w.asked.len() as int;
            let (r, after) = define_auto_accessor_step(m, at, Key::Source(n), parts, depth, w);
            let d = after.draft(parts.record);
            &&& r is Ok
            &&& d.fields.len() == w.draft(parts.record).fields.len() + 1
            &&& d.fields.last().init == init_of(m)
            &&& after.asked[at0] == (Request::MakeAccessorFunction {
                backing: d.fields.last().key,
                getter: true,
            })
            &&& after.asked[at0 + 3] == (Request::MakeAccessorFunction {
                backing: d.fields.last().key,
                getter: false,
            })
            &&& d.privates.last().key == Key::Source(n)
            &&& d.privates.last().prop.get == Some(g)
            &&& d.privates.last().prop.set == Some(t)
            &&& d.privates.last().prop.accessor
        }),
{
    reveal_with_fuel(decorate_accessor_from, 2);
}

/// A public accessor with a field behind it is an accessor of the object that instances inherit from, or of
/// the class where it is static; its functions use the field that is kept.
pub proof fn public_accessors_use_their_field<'a>(
    m: &'a ClassMember,
    at: u64,
    n: &'a String,
    parts: ClassParts,
    g: Value,
    t: Value,
    depth: u64,
    w: World<'a>,
)
    requires
        m.decorators@.len() == 0,
        private_key(&m.key) is None,
        parts.record < w.drafts.len(),
        w.texts.len() < u64::MAX - 5,
        said(w, w.asked.len()) == Answer::<'a>::Value(g),
        said(w, w.asked.len() + 3) == Answer::<'a>::Value(t),
        forall|k: nat|
            w.asked.len() <= k < w.asked.len() + 8 ==> !(#[trigger] said(w, k) is Throw) && !(said(w, k)
                is Return) && !(said(w, k) is Own),
    ensures
        ({
            let at0 = w.asked.len() as int;
            let (r, after) = define_auto_accessor_step(m, at, Key::Source(n), parts, depth, w);
            let d = after.draft(parts.record);
            let backing = if m.is_static {
                d.statics.last().key
            } else {
                d.fields.last().key
            };
            &&& r is Ok
            &&& after.asked[at0] == (Request::MakeAccessorFunction { backing, getter: true })
            &&& after.asked[at0 + 3] == (Request::MakeAccessorFunction { backing, getter: false })
            &&& m.is_static ==> d.statics.last().member == at
            &&& !m.is_static ==> d.fields.last().init == init_of(m)
            &&& after.asked.last() matches Request::DefineOwn { base, key, prop } && base == (
            if m.is_static {
                parts.ctor
            } else {
                parts.proto
            }) && key == Key::Source(n) && prop.get == Some(g) && prop.set == Some(t) && prop.accessor
                && !prop.enumerable && prop.configurable
        }),
{
    reveal_with_fuel(decorate_accessor_from, 2);
    let n0 = w.asked.len();
    assert(!(said(w, n0 + 1) is Throw) && !(said(w, n0 + 2) is Throw));
    assert(!(said(w, n0 + 4) is Throw) && !(said(w, n0 + 5) is Throw));
    assert(!(said(w, n0 + 6) is Throw) && !(said(w, n0 + 6) is Own));
    assert(!(said(w, n0 + 7) is Throw) && !(said(w, n0 + 7) is Return));
    let (g0, w1) = make_accessor_fn_step(
        Key::Source(n),
        value_key(w.count_made().next_text()),
        true,
        w.count_made().add_text("#\0acc"@ + decimal(w.count_made().made as nat)),
    );
    assert(g0 == Ok::<Value, Abrupt<'a>>(g));
    assert(w1.asked.len() == n0 + 3);
}

/// An instance gets the private members of its class, then its fields, and then what decorators have added is
/// called on it. Field code may not call `super(..)`; what code around it may do stays as it was.
pub proof fn instances_are_initialized_in_order<'a>(
    ctor: Value,
    this: Value,
    at: usize,
    depth: u64,
    w: World<'a>,
)
    requires
        place_of_class(w.classes, ctor, w.classes.len()) == Some(at),
    ensures
        ({
            let c = w.classes[at as int];
            let l = w.next_list();
            let (u, w1) = stamp_privates_step(c.privates, this, w.new_list(c.initializers));
            let w2 = w1.set_flags(Flags { super_call: false, field_code: true, ..w1.flags });
            let (f, w3) = init_fields_step(c.fields, this, c.env, depth, w2);
            let (x, w4) = call_each_step(this, l, w3);
            let back = |z: World<'a>|
                z.set_flags(
                    Flags {
                        super_call: w1.flags.super_call,
                        field_code: w1.flags.field_code,
                        ..z.flags
                    },
                );
            let all = init_instance_fields_step(ctor, this, depth, w);
            &&& u matches Err(a) ==> all == (Err::<(), Abrupt<'a>>(a), w1)
            &&& u is Ok && f is Ok ==> all == (x, back(w4))
            &&& u is Ok ==> (f matches Err(a) ==> all == (Err::<(), Abrupt<'a>>(a), back(w3)))
        }),
{
    let c = w.classes[at as int];
    let l = w.next_list();
    let (u, w1) = stamp_privates_step(c.privates, this, w.new_list(c.initializers));
    if u is Ok {
        let w2 = w1.set_flags(Flags { super_call: false, field_code: true, ..w1.flags });
        let (f, w3) = init_fields_step(c.fields, this, c.env, depth, w2);
        assert(run_field_code_step(c.fields, l, this, c.env, depth, w2) == (match f {
            Ok(_) => call_each_step(this, l, w3),
            Err(a) => (Err::<(), Abrupt<'a>>(a), w3),
        }));
    }
}

/// Fields are added to an instance in their order; the first that fails ends it.
pub proof fn fields_are_initialized_in_order<'a>(
    fields: Seq<FieldView<'a>>,
    this: Value,
    env: Env,
    depth: u64,
    i: nat,
    w: World<'a>,
)
    requires
        i < fields.len(),
        depth > 0,
    ensures
        ({
            let f = fields[i as int];
            let scope = w.next_scope();
            let w0 = field_scope_step(this, env, w).1;
            let (x, w1) = field_value_step(f.init, f.key, scope, (depth - 1) as u64, w0);
            let l = w1.next_list();
            let (v, w2) = apply_transforms_step(x->Ok_0, this, l, w1.new_list(f.transforms));
            let (u, w3) = add_field_step(this, f.key, v->Ok_0, w2);
            let all = init_fields_from(fields, this, env, depth, i, w);
            &&& x is Ok && v is Ok && u is Ok ==> all == init_fields_from(
                fields,
                this,
                env,
                depth,
                i + 1,
                w3,
            )
            &&& x matches Err(a) ==> all == (Err::<(), Abrupt<'a>>(a), w1)
        }),
{
    assert(field_scope_step(this, env, w).0 == Ok::<Env, Abrupt<'a>>(w.next_scope()));
}

} // verus!
