//! Properties and variables: the parts of the object model that call back into the program.
use vstd::prelude::*;

use crate::ast::Function;
use crate::grammar::Symbol;
use crate::interp::operate::{
    call_bare, call_bare_step, call_with, call_with_step, char_at, char_text, is_callable,
    is_callable_step, key_of_value, key_value, key_value_step, throw, throw_about, throws,
    throws_about, to_boolean, to_boolean_step, to_number, to_number_step, to_property_key,
    to_property_key_step, value_key,
};
use crate::interp::session::{
    asks, asks_flag, asks_handle, asks_index, asks_prop, next, Abrupt, Answers, Env, ErrorKind,
    Host, Key, Name, Request, Session, Step, Subject, Value, World,
};
use crate::literal::{string_own_key, unit_key};
use crate::modules::progress::{bump, bumped};
use crate::number::{count_of, to_count};
use crate::scope::{GlobalProperty, Put, Scope, Stop, Write};
use crate::scope::dynamic::{global_effect, global_sync, GlobalSync, SyncPlace};
use crate::text::{decimal, decimal_string};
use crate::units::{unit_count, unit_len};
use crate::value::props::{define_accessor, with_halves, Property};
use crate::value::typed::TaIndex;

verus! {

/// What a name stands for when it is read.
#[derive(Clone, Copy, PartialEq, Eq, Structural, Debug)]
pub struct Resolved {
    pub value: Value,
    /// The `with` object that it came from.
    pub receiver: Option<Value>,
}

/// Where a name is bound.
#[derive(Clone, Copy, PartialEq, Eq, Structural, Debug)]
pub enum RefBase {
    Scope(Env),
    /// The object of a `with` scope.
    With(Value),
    Global,
    Unresolvable,
}

/// Where an assignment to a name goes.
#[derive(Clone, Copy, PartialEq, Eq, Structural, Debug)]
pub enum AssignTo {
    /// The binding of a scope, which takes the value.
    Scope(usize),
    /// Nowhere.
    Nothing,
    /// A property of an object.
    Object(Value),
}

// ---- properties

/// What a proxy's `has` trap says. It may not hide a property that cannot go away.
pub open spec fn proxy_has_step<'a>(
    target: Value,
    handler: Value,
    trap: Value,
    key: Key<'a>,
    w: World<'a>,
) -> Step<'a, bool>
{
    next(
        key_value_step(key, w),
        |kv: Value, w: World<'a>| {
            let args: u64 = w.next_list();
            let w = w.new_list(Seq::empty());
            let w = w.push(args, target);
            let w = w.push(args, kv);
            next(
                asks(Request::Call { func: trap, this: handler, args }, w),
                |r: Value, w: World<'a>|
                    next(
                        to_boolean_step(r, w),
                        |present: bool, w: World<'a>|
                            if present || !matches!(target, Value::Obj(_)) {
                                (Ok(present), w)
                            } else {
                                next(
                                    asks_prop(Request::OwnProperty { base: target, key }, w),
                                    |own: Option<Property>, w: World<'a>|
                                        match own {
                                            None => (Ok(false), w),
                                            Some(p) => {
                                                next(
                                                    asks_flag(Request::IsExtensible(target), w),
                                                    |extensible: bool, w: World<'a>|
                                                        if p.configurable && extensible {
                                                            (Ok(false), w)
                                                        } else {
                                                            throws(
                                                                ErrorKind::TypeError,
                                                                "proxy 'has' trap hid a non-configurable property",
                                                                w,
                                                            )
                                                        },
                                                )
                                            },
                                        },
                                )
                            },
                    ),
            )
        },
    )
}

/// What a proxy's `has` trap says. It may not hide a property that cannot go away.
pub fn proxy_has<'h, 'a, H: Host<'a>>(
    s: &mut Session<'h, 'a, H>,
    target: Value,
    handler: Value,
    trap: Value,
    key: Key<'a>,
) -> (out: Result<bool, Abrupt<'a>>)
    ensures
        final(s).continues(*old(s)),
        forall|answers: Answers<'a>| #[trigger]
            final(s).agrees(answers) ==> old(s).agrees(answers) && (out, final(s).world(answers))
                == proxy_has_step(target, handler, trap, key, old(s).world(answers)),
{
    let kv: Value = key_value(s, key)?;
    let args: u64 = s.new_list(Vec::new());
    s.push(args, target);
    s.push(args, kv);
    let r: Value = s.value(Request::Call { func: trap, this: handler, args })?;
    let present: bool = to_boolean(s, r)?;
    if present || !matches!(target, Value::Obj(_)) {
        return Ok(present);
    } else {
        let own: Option<Property> = s.prop(Request::OwnProperty { base: target, key })?;
        match own {
            None => {
                return Ok(false);
            },
            Some(p) => {
                let extensible: bool = s.flag(Request::IsExtensible(target))?;
                if p.configurable && extensible {
                    return Ok(false);
                } else {
                    return throw(
                        s,
                        ErrorKind::TypeError,
                        "proxy 'has' trap hid a non-configurable property",
                    );
                }
            },
        }
    }
}

/// Whether a key is a property that a string, or an object that wraps one, has by its text.
pub open spec fn string_has_step<'a>(base: Value, key: Key<'a>, w: World<'a>) -> Step<'a, bool>
{
    if matches!(key, Key::Symbol(_)) {
        (Ok(false), w)
    } else {
        next(
            match base {
                Value::Str(_) => (Ok(Some(unit_count(w.chars(base)))), w),
                _ => {
                    next(
                        asks(Request::WrappedText(base), w),
                        |wrapped: Value, w: World<'a>|
                            if matches!(wrapped, Value::Str(_)) {
                                (Ok(Some(unit_count(w.chars(wrapped)))), w)
                            } else {
                                (Ok(None), w)
                            },
                    )
                },
            },
            |units: Option<u64>, w: World<'a>| {
                let t: Seq<char> = w.key_chars(key);
                match units {
                    Some(n) => (Ok(unit_key(n, t)), w),
                    None => (Ok(false), w),
                }
            },
        )
    }
}

/// Whether a key is a property that a string, or an object that wraps one, has by its text.
pub fn string_has<'h, 'a, H: Host<'a>>(
    s: &mut Session<'h, 'a, H>,
    base: Value,
    key: Key<'a>,
) -> (out: Result<bool, Abrupt<'a>>)
    ensures
        final(s).continues(*old(s)),
        forall|answers: Answers<'a>| #[trigger]
            final(s).agrees(answers) ==> old(s).agrees(answers) && (out, final(s).world(answers))
                == string_has_step(base, key, old(s).world(answers)),
{
    if matches!(key, Key::Symbol(_)) {
        return Ok(false);
    }
    let units: Option<u64> = match base {
        Value::Str(_) => {
            Some(unit_len(s.chars(base)))
        },
        _ => {
            let wrapped: Value = s.value(Request::WrappedText(base))?;
            if matches!(wrapped, Value::Str(_)) {
                Some(unit_len(s.chars(wrapped)))
            } else {
                None
            }
        },
    };
    let t: String = s.key_text(key);
    match units {
        Some(n) => {
            return Ok(string_own_key(n, t.as_str()));
        },
        None => {
            return Ok(false);
        },
    }
}

/// Defines the halves given of an accessor; one that is there keeps its other half.
pub open spec fn define_halves_step<'a>(
    base: Value,
    key: Key<'a>,
    getter: Option<Value>,
    setter: Option<Value>,
    enumerable: bool,
    w: World<'a>,
) -> Step<'a, ()>
{
    next(
        asks_prop(Request::OwnProperty { base, key }, w),
        |existing: Option<Property>, w: World<'a>| {
            let w = w.ask(
                Request::DefineOwn { base, key, prop: with_halves(existing, getter, setter, enumerable) },
            ).1;
            (Ok(()), w)
        },
    )
}

/// Defines the halves given of an accessor; one that is there keeps its other half.
pub fn define_halves<'h, 'a, H: Host<'a>>(
    s: &mut Session<'h, 'a, H>,
    base: Value,
    key: Key<'a>,
    getter: Option<Value>,
    setter: Option<Value>,
    enumerable: bool,
) -> (out: Result<(), Abrupt<'a>>)
    ensures
        final(s).continues(*old(s)),
        forall|answers: Answers<'a>| #[trigger]
            final(s).agrees(answers) ==> old(s).agrees(answers) && (out, final(s).world(answers))
                == define_halves_step(base, key, getter, setter, enumerable, old(s).world(answers)),
{
    let existing: Option<Property> = s.prop(Request::OwnProperty { base, key })?;
    let _ = s.ask(
        Request::DefineOwn { base, key, prop: define_accessor(existing, getter, setter, enumerable) },
    );
    return Ok(());
}

/// Whether an object itself has a property, if that is settled without its prototype.
pub open spec fn has_own_or_exotic_step<'a>(
    base: Value,
    key: Key<'a>,
    w: World<'a>,
) -> Step<'a, Option<bool>>
{
    next(
        asks_index(Request::IndexKind { base, key }, w),
        |kind: TaIndex, w: World<'a>|
            match kind {
                TaIndex::Element(_) => (Ok(Some(true)), w),
                TaIndex::Exotic => (Ok(Some(false)), w),
                TaIndex::Ordinary => {
                    next(
                        string_has_step(base, key, w),
                        |text: bool, w: World<'a>|
                            if text {
                                (Ok(Some(true)), w)
                            } else {
                                next(
                                    asks_flag(Request::HasOwn { base, key }, w),
                                    |own: bool, w: World<'a>|
                                        if own {
                                            (Ok(Some(true)), w)
                                        } else {
                                            (Ok(None), w)
                                        },
                                )
                            },
                    )
                },
            },
    )
}

/// Whether an object itself has a property, if that is settled without its prototype.
pub fn has_own_or_exotic<'h, 'a, H: Host<'a>>(
    s: &mut Session<'h, 'a, H>,
    base: Value,
    key: Key<'a>,
) -> (out: Result<Option<bool>, Abrupt<'a>>)
    ensures
        final(s).continues(*old(s)),
        forall|answers: Answers<'a>| #[trigger]
            final(s).agrees(answers) ==> old(s).agrees(answers) && (out, final(s).world(answers))
                == has_own_or_exotic_step(base, key, old(s).world(answers)),
{
    let kind: TaIndex = s.index(Request::IndexKind { base, key })?;
    match kind {
        TaIndex::Element(_) => {
            return Ok(Some(true));
        },
        TaIndex::Exotic => {
            return Ok(Some(false));
        },
        TaIndex::Ordinary => {
            let text: bool = string_has(s, base, key)?;
            if text {
                return Ok(Some(true));
            } else {
                let own: bool = s.flag(Request::HasOwn { base, key })?;
                if own {
                    return Ok(Some(true));
                } else {
                    return Ok(None);
                }
            }
        },
    }
}

/// [[HasProperty]]: along the prototypes, through the traps of proxies. With `k` rounds left.
pub open spec fn js_has_property_from<'a>(
    obj: Value,
    key: Key<'a>,
    k: nat,
    cur: Value,
    w: World<'a>,
) -> Step<'a, bool>
    decreases k,
{
    if k == 0 {
        (Err(Abrupt::Stopped), w)
    } else {
        if !matches!(cur, Value::Obj(_)) {
            (Ok(false), w)
        } else {
            next(
                asks(Request::TriggerDeferred { base: cur, key }, w),
                |d: Value, w: World<'a>|
                    next(
                        asks_flag(Request::IsProxy(cur), w),
                        |proxy: bool, w: World<'a>|
                            if proxy {
                                next(
                                    asks(Request::ProxyHandler(cur), w),
                                    |handler: Value, w: World<'a>|
                                        next(
                                            asks(Request::ProxyTarget(cur), w),
                                            |target: Value, w: World<'a>|
                                                if matches!(handler, Value::Null) {
                                                    throws(
                                                        ErrorKind::TypeError,
                                                        "cannot perform 'has' on a revoked proxy",
                                                        w,
                                                    )
                                                } else {
                                                    next(
                                                        asks(
                                                            Request::GetMember { base: handler, key: Key::Fixed("has") },
                                                            w,
                                                        ),
                                                        |trap: Value, w: World<'a>|
                                                            if trap.is_nullish() {
                                                                js_has_property_from(
                                                                    obj,
                                                                    key,
                                                                    (k - 1) as nat,
                                                                    target,
                                                                    w,
                                                                )
                                                            } else {
                                                                next(
                                                                    is_callable_step(trap, w),
                                                                    |ok: bool, w: World<'a>|
                                                                        if ok {
                                                                            proxy_has_step(
                                                                                target,
                                                                                handler,
                                                                                trap,
                                                                                key,
                                                                                w,
                                                                            )
                                                                        } else {
                                                                            throws(
                                                                                ErrorKind::TypeError,
                                                                                "proxy 'has' trap is not callable",
                                                                                w,
                                                                            )
                                                                        },
                                                                )
                                                            },
                                                    )
                                                },
                                        ),
                                )
                            } else {
                                next(
                                    has_own_or_exotic_step(cur, key, w),
                                    |r: Option<bool>, w: World<'a>|
                                        match r {
                                            Some(b) => (Ok(b), w),
                                            None => {
                                                next(
                                                    asks(Request::GetPrototype(cur), w),
                                                    |proto: Value, w: World<'a>|
                                                        js_has_property_from(
                                                            obj,
                                                            key,
                                                            (k - 1) as nat,
                                                            proto,
                                                            w,
                                                        ),
                                                )
                                            },
                                        },
                                )
                            },
                    ),
            )
        }
    }
}

/// [[HasProperty]]: along the prototypes, through the traps of proxies.
pub open spec fn js_has_property_step<'a>(obj: Value, key: Key<'a>, w: World<'a>) -> Step<'a, bool>
{
    js_has_property_from(obj, key, w.limit, obj, w)
}

/// [[HasProperty]]: along the prototypes, through the traps of proxies.
#[verifier::spinoff_prover]
pub fn js_has_property<'h, 'a, H: Host<'a>>(
    s: &mut Session<'h, 'a, H>,
    obj: Value,
    key: Key<'a>,
) -> (out: Result<bool, Abrupt<'a>>)
    ensures
        final(s).continues(*old(s)),
        forall|answers: Answers<'a>| #[trigger]
            final(s).agrees(answers) ==> old(s).agrees(answers) && (out, final(s).world(answers))
                == js_has_property_step(obj, key, old(s).world(answers)),
{
    let mut cur: Value = obj;
    let mut k: u64 = s.limit();
    while k > 0
        invariant
            s.continues(*old(s)),
            k <= old(s).rounds(),
            forall|answers: Answers<'a>| #[trigger]
                s.agrees(answers) ==> old(s).agrees(answers)
                    && js_has_property_step(obj, key, old(s).world(answers))
                    == js_has_property_from(obj, key, k as nat, cur, s.world(answers)),
        decreases k,
    {
        if !matches!(cur, Value::Obj(_)) {
            return Ok(false);
        }
        let d: Value = s.value(Request::TriggerDeferred { base: cur, key })?;
        let proxy: bool = s.flag(Request::IsProxy(cur))?;
        if proxy {
            let handler: Value = s.value(Request::ProxyHandler(cur))?;
            let target: Value = s.value(Request::ProxyTarget(cur))?;
            if matches!(handler, Value::Null) {
                return throw(s, ErrorKind::TypeError, "cannot perform 'has' on a revoked proxy");
            } else {
                let trap: Value = s.value(
                    Request::GetMember { base: handler, key: Key::Fixed("has") },
                )?;
                if trap.is_nullish() {
                    cur = target;
                } else {
                    let ok: bool = is_callable(s, trap)?;
                    if ok {
                        return proxy_has(s, target, handler, trap, key);
                    } else {
                        return throw(s, ErrorKind::TypeError, "proxy 'has' trap is not callable");
                    }
                }
            }
        } else {
            let r: Option<bool> = has_own_or_exotic(s, cur, key)?;
            match r {
                Some(b) => {
                    return Ok(b);
                },
                None => {
                    let proto: Value = s.value(Request::GetPrototype(cur))?;
                    cur = proto;
                },
            }
        }
        k = k - 1;
    }
    return Err(Abrupt::Stopped);
}

/// Deletes an own property, unless it cannot be.
pub open spec fn delete_own_step<'a>(base: Value, key: Key<'a>, w: World<'a>) -> Step<'a, bool>
{
    next(
        asks_prop(Request::OwnProperty { base, key }, w),
        |own: Option<Property>, w: World<'a>|
            match own {
                None => (Ok(true), w),
                Some(p) => {
                    if p.configurable {
                        let w = w.ask(Request::DeleteOwn { base, key }).1;
                        (Ok(true), w)
                    } else {
                        (Ok(false), w)
                    }
                },
            },
    )
}

/// Deletes an own property, unless it cannot be.
pub fn delete_own<'h, 'a, H: Host<'a>>(
    s: &mut Session<'h, 'a, H>,
    base: Value,
    key: Key<'a>,
) -> (out: Result<bool, Abrupt<'a>>)
    ensures
        final(s).continues(*old(s)),
        forall|answers: Answers<'a>| #[trigger]
            final(s).agrees(answers) ==> old(s).agrees(answers) && (out, final(s).world(answers))
                == delete_own_step(base, key, old(s).world(answers)),
{
    let own: Option<Property> = s.prop(Request::OwnProperty { base, key })?;
    match own {
        None => {
            return Ok(true);
        },
        Some(p) => {
            if p.configurable {
                let _ = s.ask(Request::DeleteOwn { base, key });
                return Ok(true);
            } else {
                return Ok(false);
            }
        },
    }
}

/// Checks what a proxy's `deleteProperty` trap reports as deleted.
pub open spec fn check_deleted_step<'a>(target: Value, key: Key<'a>, w: World<'a>) -> Step<'a, bool>
{
    if !matches!(target, Value::Obj(_)) {
        (Ok(true), w)
    } else {
        next(
            asks_prop(Request::OwnProperty { base: target, key }, w),
            |own: Option<Property>, w: World<'a>|
                match own {
                    None => (Ok(true), w),
                    Some(p) => {
                        if !p.configurable {
                            throws(
                                ErrorKind::TypeError,
                                "proxy 'deleteProperty' removed a non-configurable property",
                                w,
                            )
                        } else {
                            next(
                                asks_flag(Request::IsExtensible(target), w),
                                |extensible: bool, w: World<'a>|
                                    if extensible {
                                        (Ok(true), w)
                                    } else {
                                        throws(
                                            ErrorKind::TypeError,
                                            "proxy 'deleteProperty' removed a non-extensible target's property",
                                            w,
                                        )
                                    },
                            )
                        }
                    },
                },
        )
    }
}

/// Checks what a proxy's `deleteProperty` trap reports as deleted.
pub fn check_deleted<'h, 'a, H: Host<'a>>(
    s: &mut Session<'h, 'a, H>,
    target: Value,
    key: Key<'a>,
) -> (out: Result<bool, Abrupt<'a>>)
    ensures
        final(s).continues(*old(s)),
        forall|answers: Answers<'a>| #[trigger]
            final(s).agrees(answers) ==> old(s).agrees(answers) && (out, final(s).world(answers))
                == check_deleted_step(target, key, old(s).world(answers)),
{
    if !matches!(target, Value::Obj(_)) {
        return Ok(true);
    }
    let own: Option<Property> = s.prop(Request::OwnProperty { base: target, key })?;
    match own {
        None => {
            return Ok(true);
        },
        Some(p) => {
            if !p.configurable {
                return throw(
                    s,
                    ErrorKind::TypeError,
                    "proxy 'deleteProperty' removed a non-configurable property",
                );
            }
            let extensible: bool = s.flag(Request::IsExtensible(target))?;
            if extensible {
                return Ok(true);
            } else {
                return throw(
                    s,
                    ErrorKind::TypeError,
                    "proxy 'deleteProperty' removed a non-extensible target's property",
                );
            }
        },
    }
}

/// [[Delete]] of a proxy: its trap, or its target. With `k` rounds left.
pub open spec fn proxy_delete_from<'a>(
    base: Value,
    key: Key<'a>,
    k: nat,
    cur: Value,
    w: World<'a>,
) -> Step<'a, bool>
    decreases k,
{
    if k == 0 {
        (Err(Abrupt::Stopped), w)
    } else {
        next(
            asks(Request::ProxyHandler(cur), w),
            |handler: Value, w: World<'a>|
                next(
                    asks(Request::ProxyTarget(cur), w),
                    |target: Value, w: World<'a>|
                        if matches!(handler, Value::Null) {
                            throws(ErrorKind::TypeError, "cannot delete on a revoked proxy", w)
                        } else {
                            next(
                                asks(
                                    Request::GetMember { base: handler, key: Key::Fixed("deleteProperty") },
                                    w,
                                ),
                                |trap: Value, w: World<'a>|
                                    if trap.is_nullish() {
                                        if !matches!(target, Value::Obj(_)) {
                                            (Ok(true), w)
                                        } else {
                                            next(
                                                asks_flag(Request::IsProxy(target), w),
                                                |proxy: bool, w: World<'a>|
                                                    if proxy {
                                                        proxy_delete_from(
                                                            base,
                                                            key,
                                                            (k - 1) as nat,
                                                            target,
                                                            w,
                                                        )
                                                    } else {
                                                        delete_own_step(target, key, w)
                                                    },
                                            )
                                        }
                                    } else {
                                        next(
                                            is_callable_step(trap, w),
                                            |ok: bool, w: World<'a>|
                                                if !ok {
                                                    throws(
                                                        ErrorKind::TypeError,
                                                        "proxy 'deleteProperty' trap is not callable",
                                                        w,
                                                    )
                                                } else {
                                                    next(
                                                        key_value_step(key, w),
                                                        |kv: Value, w: World<'a>| {
                                                            let args: u64 = w.next_list();
                                                            let w = w.new_list(Seq::empty());
                                                            let w = w.push(args, target);
                                                            let w = w.push(args, kv);
                                                            next(
                                                                asks(
                                                                    Request::Call { func: trap, this: handler, args },
                                                                    w,
                                                                ),
                                                                |r: Value, w: World<'a>|
                                                                    next(
                                                                        to_boolean_step(r, w),
                                                                        |done: bool, w: World<'a>|
                                                                            if done {
                                                                                check_deleted_step(
                                                                                    target,
                                                                                    key,
                                                                                    w,
                                                                                )
                                                                            } else {
                                                                                (Ok(false), w)
                                                                            },
                                                                    ),
                                                            )
                                                        },
                                                    )
                                                },
                                        )
                                    },
                            )
                        },
                ),
        )
    }
}

/// [[Delete]] of a proxy: its trap, or its target.
pub open spec fn proxy_delete_step<'a>(base: Value, key: Key<'a>, w: World<'a>) -> Step<'a, bool>
{
    proxy_delete_from(base, key, w.limit, base, w)
}

/// [[Delete]] of a proxy: its trap, or its target.
#[verifier::spinoff_prover]
pub fn proxy_delete<'h, 'a, H: Host<'a>>(
    s: &mut Session<'h, 'a, H>,
    base: Value,
    key: Key<'a>,
) -> (out: Result<bool, Abrupt<'a>>)
    ensures
        final(s).continues(*old(s)),
        forall|answers: Answers<'a>| #[trigger]
            final(s).agrees(answers) ==> old(s).agrees(answers) && (out, final(s).world(answers))
                == proxy_delete_step(base, key, old(s).world(answers)),
{
    let mut cur: Value = base;
    let mut k: u64 = s.limit();
    while k > 0
        invariant
            s.continues(*old(s)),
            k <= old(s).rounds(),
            forall|answers: Answers<'a>| #[trigger]
                s.agrees(answers) ==> old(s).agrees(answers)
                    && proxy_delete_step(base, key, old(s).world(answers))
                    == proxy_delete_from(base, key, k as nat, cur, s.world(answers)),
        decreases k,
    {
        let handler: Value = s.value(Request::ProxyHandler(cur))?;
        let target: Value = s.value(Request::ProxyTarget(cur))?;
        if matches!(handler, Value::Null) {
            return throw(s, ErrorKind::TypeError, "cannot delete on a revoked proxy");
        } else {
            let trap: Value = s.value(
                Request::GetMember { base: handler, key: Key::Fixed("deleteProperty") },
            )?;
            if trap.is_nullish() {
                if !matches!(target, Value::Obj(_)) {
                    return Ok(true);
                } else {
                    let proxy: bool = s.flag(Request::IsProxy(target))?;
                    if proxy {
                        cur = target;
                    } else {
                        return delete_own(s, target, key);
                    }
                }
            } else {
                let ok: bool = is_callable(s, trap)?;
                if !ok {
                    return throw(
                        s,
                        ErrorKind::TypeError,
                        "proxy 'deleteProperty' trap is not callable",
                    );
                } else {
                    let kv: Value = key_value(s, key)?;
                    let args: u64 = s.new_list(Vec::new());
                    s.push(args, target);
                    s.push(args, kv);
                    let r: Value = s.value(Request::Call { func: trap, this: handler, args })?;
                    let done: bool = to_boolean(s, r)?;
                    if done {
                        return check_deleted(s, target, key);
                    } else {
                        return Ok(false);
                    }
                }
            }
        }
        k = k - 1;
    }
    return Err(Abrupt::Stopped);
}

/// What `delete` comes to when the property stays: in strict code an error.
pub open spec fn not_deleted_step<'a>(key: Key<'a>, w: World<'a>) -> Step<'a, Value>
{
    if w.strict {
        throws_about(
            ErrorKind::TypeError,
            "cannot delete non-configurable property '",
            "'",
            Subject::Key(key),
            w,
        )
    } else {
        (Ok(Value::Bool(false)), w)
    }
}

/// What `delete` comes to when the property stays: in strict code an error.
pub fn not_deleted<'h, 'a, H: Host<'a>>(
    s: &mut Session<'h, 'a, H>,
    key: Key<'a>,
) -> (out: Result<Value, Abrupt<'a>>)
    ensures
        final(s).continues(*old(s)),
        forall|answers: Answers<'a>| #[trigger]
            final(s).agrees(answers) ==> old(s).agrees(answers) && (out, final(s).world(answers))
                == not_deleted_step(key, old(s).world(answers)),
{
    if s.strict_mode() {
        return throw_about(
            s,
            ErrorKind::TypeError,
            "cannot delete non-configurable property '",
            "'",
            Subject::Key(key),
        );
    } else {
        return Ok(Value::Bool(false));
    }
}

/// What `delete` comes to when a proxy refuses: in strict code an error.
pub open spec fn trap_not_deleted_step<'a>(key: Key<'a>, w: World<'a>) -> Step<'a, Value>
{
    if w.strict {
        throws_about(ErrorKind::TypeError, "cannot delete property '", "'", Subject::Key(key), w)
    } else {
        (Ok(Value::Bool(false)), w)
    }
}

/// What `delete` comes to when a proxy refuses: in strict code an error.
pub fn trap_not_deleted<'h, 'a, H: Host<'a>>(
    s: &mut Session<'h, 'a, H>,
    key: Key<'a>,
) -> (out: Result<Value, Abrupt<'a>>)
    ensures
        final(s).continues(*old(s)),
        forall|answers: Answers<'a>| #[trigger]
            final(s).agrees(answers) ==> old(s).agrees(answers) && (out, final(s).world(answers))
                == trap_not_deleted_step(key, old(s).world(answers)),
{
    if s.strict_mode() {
        return throw_about(
            s,
            ErrorKind::TypeError,
            "cannot delete property '",
            "'",
            Subject::Key(key),
        );
    } else {
        return Ok(Value::Bool(false));
    }
}

/// What `delete` comes to for an element that stays: in strict code an error.
pub open spec fn element_not_deleted_step<'a>(w: World<'a>) -> Step<'a, Value>
{
    if w.strict {
        throws(ErrorKind::TypeError, "cannot delete a TypedArray index", w)
    } else {
        (Ok(Value::Bool(false)), w)
    }
}

/// What `delete` comes to for an element that stays: in strict code an error.
pub fn element_not_deleted<'h, 'a, H: Host<'a>>(
    s: &mut Session<'h, 'a, H>,
) -> (out: Result<Value, Abrupt<'a>>)
    ensures
        final(s).continues(*old(s)),
        forall|answers: Answers<'a>| #[trigger]
            final(s).agrees(answers) ==> old(s).agrees(answers) && (out, final(s).world(answers))
                == element_not_deleted_step(old(s).world(answers)),
{
    if s.strict_mode() {
        return throw(s, ErrorKind::TypeError, "cannot delete a TypedArray index");
    } else {
        return Ok(Value::Bool(false));
    }
}

/// `delete` of a property of a value.
pub open spec fn delete_prop_on_step<'a>(base: Value, key: Key<'a>, w: World<'a>) -> Step<'a, Value>
{
    match base {
        Value::Obj(_) => {
            next(
                asks(Request::TriggerDeferred { base, key }, w),
                |d: Value, w: World<'a>|
                    next(
                        asks_flag(Request::IsProxy(base), w),
                        |proxy: bool, w: World<'a>|
                            if proxy {
                                next(
                                    proxy_delete_step(base, key, w),
                                    |ok: bool, w: World<'a>|
                                        if ok {
                                            (Ok(Value::Bool(true)), w)
                                        } else {
                                            trap_not_deleted_step(key, w)
                                        },
                                )
                            } else {
                                next(
                                    asks_index(Request::IndexKind { base, key }, w),
                                    |kind: TaIndex, w: World<'a>|
                                        match kind {
                                            TaIndex::Element(_) => element_not_deleted_step(w),
                                            TaIndex::Exotic => (Ok(Value::Bool(true)), w),
                                            TaIndex::Ordinary => {
                                                next(
                                                    delete_own_step(base, key, w),
                                                    |ok: bool, w: World<'a>|
                                                        if ok {
                                                            (Ok(Value::Bool(true)), w)
                                                        } else {
                                                            not_deleted_step(key, w)
                                                        },
                                                )
                                            },
                                        },
                                )
                            },
                    ),
            )
        },
        Value::Str(_) => {
            next(
                string_has_step(base, key, w),
                |own: bool, w: World<'a>|
                    if own {
                        not_deleted_step(key, w)
                    } else {
                        (Ok(Value::Bool(true)), w)
                    },
            )
        },
        _ => (Ok(Value::Bool(true)), w),
    }
}

/// `delete` of a property of a value.
#[verifier::spinoff_prover]
pub fn delete_prop_on<'h, 'a, H: Host<'a>>(
    s: &mut Session<'h, 'a, H>,
    base: Value,
    key: Key<'a>,
) -> (out: Result<Value, Abrupt<'a>>)
    ensures
        final(s).continues(*old(s)),
        forall|answers: Answers<'a>| #[trigger]
            final(s).agrees(answers) ==> old(s).agrees(answers) && (out, final(s).world(answers))
                == delete_prop_on_step(base, key, old(s).world(answers)),
{
    match base {
        Value::Obj(_) => {
            let d: Value = s.value(Request::TriggerDeferred { base, key })?;
            let proxy: bool = s.flag(Request::IsProxy(base))?;
            if proxy {
                let ok: bool = proxy_delete(s, base, key)?;
                if ok {
                    return Ok(Value::Bool(true));
                } else {
                    return trap_not_deleted(s, key);
                }
            } else {
                let kind: TaIndex = s.index(Request::IndexKind { base, key })?;
                match kind {
                    TaIndex::Element(_) => {
                        return element_not_deleted(s);
                    },
                    TaIndex::Exotic => {
                        return Ok(Value::Bool(true));
                    },
                    TaIndex::Ordinary => {
                        let ok: bool = delete_own(s, base, key)?;
                        if ok {
                            return Ok(Value::Bool(true));
                        } else {
                            return not_deleted(s, key);
                        }
                    },
                }
            }
        },
        Value::Str(_) => {
            let own: bool = string_has(s, base, key)?;
            if own {
                return not_deleted(s, key);
            } else {
                return Ok(Value::Bool(true));
            }
        },
        _ => {
            return Ok(Value::Bool(true));
        },
    }
}

/// PrivateGet: a private member that the object has; its getter if it is an accessor.
pub open spec fn get_private_member_step<'a>(
    base: Value,
    key: Key<'a>,
    w: World<'a>,
) -> Step<'a, Value>
{
    next(
        private_property_step(base, key, w),
        |own: Option<Property>, w: World<'a>|
            match own {
                None => {
                    throws_about(
                        ErrorKind::TypeError,
                        "cannot read private member ",
                        " from an object whose class did not declare it",
                        Subject::Key(key),
                        w,
                    )
                },
                Some(p) => {
                    if !p.accessor {
                        (Ok(p.value), w)
                    } else {
                        match p.get {
                            Some(f) => call_bare_step(f, base, w),
                            None => {
                                throws_about(
                                    ErrorKind::TypeError,
                                    "private accessor ",
                                    " has no getter",
                                    Subject::Key(key),
                                    w,
                                )
                            },
                        }
                    }
                },
            },
    )
}

/// PrivateGet: a private member that the object has; its getter if it is an accessor.
pub fn get_private_member<'h, 'a, H: Host<'a>>(
    s: &mut Session<'h, 'a, H>,
    base: Value,
    key: Key<'a>,
) -> (out: Result<Value, Abrupt<'a>>)
    ensures
        final(s).continues(*old(s)),
        forall|answers: Answers<'a>| #[trigger]
            final(s).agrees(answers) ==> old(s).agrees(answers) && (out, final(s).world(answers))
                == get_private_member_step(base, key, old(s).world(answers)),
{
    let own: Option<Property> = private_property(s, base, key)?;
    match own {
        None => {
            return throw_about(
                s,
                ErrorKind::TypeError,
                "cannot read private member ",
                " from an object whose class did not declare it",
                Subject::Key(key),
            );
        },
        Some(p) => {
            if !p.accessor {
                return Ok(p.value);
            } else {
                match p.get {
                    Some(f) => {
                        return call_bare(s, f, base);
                    },
                    None => {
                        return throw_about(
                            s,
                            ErrorKind::TypeError,
                            "private accessor ",
                            " has no getter",
                            Subject::Key(key),
                        );
                    },
                }
            }
        },
    }
}

/// The private member that a value has under a key; only an object has any.
pub open spec fn private_property_step<'a>(
    base: Value,
    key: Key<'a>,
    w: World<'a>,
) -> Step<'a, Option<Property>>
{
    if matches!(base, Value::Obj(_)) {
        asks_prop(Request::OwnProperty { base, key }, w)
    } else {
        (Ok(None), w)
    }
}

/// The private member that a value has under a key; only an object has any.
pub fn private_property<'h, 'a, H: Host<'a>>(
    s: &mut Session<'h, 'a, H>,
    base: Value,
    key: Key<'a>,
) -> (out: Result<Option<Property>, Abrupt<'a>>)
    ensures
        final(s).continues(*old(s)),
        forall|answers: Answers<'a>| #[trigger]
            final(s).agrees(answers) ==> old(s).agrees(answers) && (out, final(s).world(answers))
                == private_property_step(base, key, old(s).world(answers)),
{
    if matches!(base, Value::Obj(_)) {
        return s.prop(Request::OwnProperty { base, key });
    } else {
        return Ok(None);
    }
}

/// PrivateSet: a private field that the object has; its setter if it is an accessor. A private
/// method cannot be written.
pub open spec fn set_private_member_step<'a>(
    base: Value,
    key: Key<'a>,
    v: Value,
    w: World<'a>,
) -> Step<'a, ()>
{
    next(
        private_property_step(base, key, w),
        |own: Option<Property>, w: World<'a>|
            match own {
                None => {
                    throws_about(
                        ErrorKind::TypeError,
                        "cannot write private member ",
                        " to an object whose class did not declare it",
                        Subject::Key(key),
                        w,
                    )
                },
                Some(p) => {
                    if p.accessor {
                        match p.set {
                            Some(f) => {
                                next(
                                    call_with_step(f, base, v, w),
                                    |r: Value, w: World<'a>| (Ok(()), w),
                                )
                            },
                            None => {
                                throws_about(
                                    ErrorKind::TypeError,
                                    "private accessor ",
                                    " has no setter",
                                    Subject::Key(key),
                                    w,
                                )
                            },
                        }
                    } else if p.writable {
                        let w = w.ask(
                            Request::DefineOwn { base, key, prop: Property { value: v, ..p } },
                        ).1;
                        (Ok(()), w)
                    } else {
                        throws_about(
                            ErrorKind::TypeError,
                            "private method ",
                            " is not writable",
                            Subject::Key(key),
                            w,
                        )
                    }
                },
            },
    )
}

/// PrivateSet: a private field that the object has; its setter if it is an accessor. A private
/// method cannot be written.
pub fn set_private_member<'h, 'a, H: Host<'a>>(
    s: &mut Session<'h, 'a, H>,
    base: Value,
    key: Key<'a>,
    v: Value,
) -> (out: Result<(), Abrupt<'a>>)
    ensures
        final(s).continues(*old(s)),
        forall|answers: Answers<'a>| #[trigger]
            final(s).agrees(answers) ==> old(s).agrees(answers) && (out, final(s).world(answers))
                == set_private_member_step(base, key, v, old(s).world(answers)),
{
    let own: Option<Property> = private_property(s, base, key)?;
    match own {
        None => {
            return throw_about(
                s,
                ErrorKind::TypeError,
                "cannot write private member ",
                " to an object whose class did not declare it",
                Subject::Key(key),
            );
        },
        Some(p) => {
            if p.accessor {
                match p.set {
                    Some(f) => {
                        let r: Value = call_with(s, f, base, v)?;
                        return Ok(());
                    },
                    None => {
                        return throw_about(
                            s,
                            ErrorKind::TypeError,
                            "private accessor ",
                            " has no setter",
                            Subject::Key(key),
                        );
                    },
                }
            } else if p.writable {
                let _ = s.ask(Request::DefineOwn { base, key, prop: Property { value: v, ..p } });
                return Ok(());
            } else {
                return throw_about(
                    s,
                    ErrorKind::TypeError,
                    "private method ",
                    " is not writable",
                    Subject::Key(key),
                );
            }
        },
    }
}

/// Gives an own property another value; one that is not there is not added.
pub open spec fn set_own_value_step<'a>(
    base: Value,
    key: Key<'a>,
    v: Value,
    w: World<'a>,
) -> Step<'a, ()>
{
    next(
        asks_prop(Request::OwnProperty { base, key }, w),
        |own: Option<Property>, w: World<'a>|
            match own {
                Some(p) => {
                    let w = w.ask(
                        Request::DefineOwn { base, key, prop: Property { value: v, ..p } },
                    ).1;
                    (Ok(()), w)
                },
                None => (Ok(()), w),
            },
    )
}

/// Gives an own property another value; one that is not there is not added.
pub fn set_own_value<'h, 'a, H: Host<'a>>(
    s: &mut Session<'h, 'a, H>,
    base: Value,
    key: Key<'a>,
    v: Value,
) -> (out: Result<(), Abrupt<'a>>)
    ensures
        final(s).continues(*old(s)),
        forall|answers: Answers<'a>| #[trigger]
            final(s).agrees(answers) ==> old(s).agrees(answers) && (out, final(s).world(answers))
                == set_own_value_step(base, key, v, old(s).world(answers)),
{
    let own: Option<Property> = s.prop(Request::OwnProperty { base, key })?;
    match own {
        Some(p) => {
            let _ = s.ask(Request::DefineOwn { base, key, prop: Property { value: v, ..p } });
            return Ok(());
        },
        None => {
            return Ok(());
        },
    }
}

/// Whether an object itself has a property that is enumerable.
pub open spec fn own_enumerable_step<'a>(base: Value, key: Key<'a>, w: World<'a>) -> Step<'a, bool>
{
    next(
        asks_prop(Request::OwnProperty { base, key }, w),
        |own: Option<Property>, w: World<'a>|
            match own {
                Some(p) => (Ok(p.enumerable), w),
                None => (Ok(false), w),
            },
    )
}

/// Whether an object itself has a property that is enumerable.
pub fn own_enumerable<'h, 'a, H: Host<'a>>(
    s: &mut Session<'h, 'a, H>,
    base: Value,
    key: Key<'a>,
) -> (out: Result<bool, Abrupt<'a>>)
    ensures
        final(s).continues(*old(s)),
        forall|answers: Answers<'a>| #[trigger]
            final(s).agrees(answers) ==> old(s).agrees(answers) && (out, final(s).world(answers))
                == own_enumerable_step(base, key, old(s).world(answers)),
{
    let own: Option<Property> = s.prop(Request::OwnProperty { base, key })?;
    match own {
        Some(p) => {
            return Ok(p.enumerable);
        },
        None => {
            return Ok(false);
        },
    }
}

/// Copies a property that a proxy shows as enumerable.
pub open spec fn copy_proxied_step<'a>(
    source: Value,
    target: Value,
    key: Key<'a>,
    w: World<'a>,
) -> Step<'a, ()>
{
    next(
        asks(Request::ProxyDescriptor { base: source, key }, w),
        |d: Value, w: World<'a>|
            if matches!(d, Value::Undefined) {
                (Ok(()), w)
            } else {
                next(
                    asks(Request::GetMember { base: d, key: Key::Fixed("enumerable") }, w),
                    |e: Value, w: World<'a>|
                        next(
                            to_boolean_step(e, w),
                            |shown: bool, w: World<'a>|
                                if shown {
                                    next(
                                        asks(Request::GetMember { base: source, key }, w),
                                        |v: Value, w: World<'a>| {
                                            let w = w.ask(
                                                Request::DefineOwn { base: target, key, prop: Property::of(v, true, true, true) },
                                            ).1;
                                            (Ok(()), w)
                                        },
                                    )
                                } else {
                                    (Ok(()), w)
                                },
                        ),
                )
            },
    )
}

/// Copies a property that a proxy shows as enumerable.
pub fn copy_proxied<'h, 'a, H: Host<'a>>(
    s: &mut Session<'h, 'a, H>,
    source: Value,
    target: Value,
    key: Key<'a>,
) -> (out: Result<(), Abrupt<'a>>)
    ensures
        final(s).continues(*old(s)),
        forall|answers: Answers<'a>| #[trigger]
            final(s).agrees(answers) ==> old(s).agrees(answers) && (out, final(s).world(answers))
                == copy_proxied_step(source, target, key, old(s).world(answers)),
{
    let d: Value = s.value(Request::ProxyDescriptor { base: source, key })?;
    if matches!(d, Value::Undefined) {
        return Ok(());
    }
    let e: Value = s.value(Request::GetMember { base: d, key: Key::Fixed("enumerable") })?;
    let shown: bool = to_boolean(s, e)?;
    if shown {
        let v: Value = s.value(Request::GetMember { base: source, key })?;
        let _ = s.ask(Request::DefineOwn { base: target, key, prop: Property::plain(v) });
        return Ok(());
    } else {
        return Ok(());
    }
}

/// Copies an own property that is enumerable.
pub open spec fn copy_own_step<'a>(
    source: Value,
    target: Value,
    key: Key<'a>,
    w: World<'a>,
) -> Step<'a, ()>
{
    next(
        own_enumerable_step(source, key, w),
        |shown: bool, w: World<'a>|
            if shown {
                next(
                    asks(Request::GetMember { base: source, key }, w),
                    |v: Value, w: World<'a>| {
                        let w = w.ask(
                            Request::DefineOwn { base: target, key, prop: Property::of(v, true, true, true) },
                        ).1;
                        (Ok(()), w)
                    },
                )
            } else {
                (Ok(()), w)
            },
    )
}

/// Copies an own property that is enumerable.
pub fn copy_own<'h, 'a, H: Host<'a>>(
    s: &mut Session<'h, 'a, H>,
    source: Value,
    target: Value,
    key: Key<'a>,
) -> (out: Result<(), Abrupt<'a>>)
    ensures
        final(s).continues(*old(s)),
        forall|answers: Answers<'a>| #[trigger]
            final(s).agrees(answers) ==> old(s).agrees(answers) && (out, final(s).world(answers))
                == copy_own_step(source, target, key, old(s).world(answers)),
{
    let shown: bool = own_enumerable(s, source, key)?;
    if shown {
        let v: Value = s.value(Request::GetMember { base: source, key })?;
        let _ = s.ask(Request::DefineOwn { base: target, key, prop: Property::plain(v) });
        return Ok(());
    } else {
        return Ok(());
    }
}

/// Copies the properties under the keys of a list, but for those excluded. With `k` rounds left.
pub open spec fn copy_keys_from<'a>(
    source: Value,
    target: Value,
    keys: u64,
    excluded: u64,
    proxy: bool,
    k: nat,
    w: World<'a>,
) -> Step<'a, ()>
    decreases k,
{
    if k == 0 {
        (Err(Abrupt::Stopped), w)
    } else {
        let more: bool = w.has_item(keys, 0);
        if !more {
            (Ok(()), w)
        } else {
            let k0: Value = w.item(keys, 0);
            let w = w.drop_item(keys);
            next(
                to_property_key_step(k0, w),
                |made: Key<'a>, w: World<'a>| {
                    let left_out: bool = w.lists_key(excluded, made);
                    next(
                        if left_out {
                            (Ok(()), w)
                        } else if proxy {
                            copy_proxied_step(source, target, made, w)
                        } else {
                            copy_own_step(source, target, made, w)
                        },
                        |u: (), w: World<'a>|
                            copy_keys_from(
                                source,
                                target,
                                keys,
                                excluded,
                                proxy,
                                (k - 1) as nat,
                                w,
                            ),
                    )
                },
            )
        }
    }
}

/// Copies the properties under the keys of a list, but for those excluded.
pub open spec fn copy_keys_step<'a>(
    source: Value,
    target: Value,
    keys: u64,
    excluded: u64,
    proxy: bool,
    w: World<'a>,
) -> Step<'a, ()>
{
    copy_keys_from(source, target, keys, excluded, proxy, w.limit, w)
}

/// Copies the properties under the keys of a list, but for those excluded.
pub fn copy_keys<'h, 'a, H: Host<'a>>(
    s: &mut Session<'h, 'a, H>,
    source: Value,
    target: Value,
    keys: u64,
    excluded: u64,
    proxy: bool,
) -> (out: Result<(), Abrupt<'a>>)
    ensures
        final(s).continues(*old(s)),
        forall|answers: Answers<'a>| #[trigger]
            final(s).agrees(answers) ==> old(s).agrees(answers) && (out, final(s).world(answers))
                == copy_keys_step(source, target, keys, excluded, proxy, old(s).world(answers)),
{
    let mut k: u64 = s.limit();
    while k > 0
        invariant
            s.continues(*old(s)),
            k <= old(s).rounds(),
            forall|answers: Answers<'a>| #[trigger]
                s.agrees(answers) ==> old(s).agrees(answers)
                    && copy_keys_step(source, target, keys, excluded, proxy, old(s).world(answers))
                    == copy_keys_from(
                        source,
                        target,
                        keys,
                        excluded,
                        proxy,
                        k as nat,
                        s.world(answers),
                    ),
        decreases k,
    {
        let more: bool = s.has_item(keys, 0);
        if !more {
            return Ok(());
        }
        let k0: Value = s.item(keys, 0);
        s.drop_item(keys);
        let made: Key<'a> = to_property_key(s, k0)?;
        let left_out: bool = s.lists_key(excluded, made);
        let u: () = if left_out {
            ()
        } else if proxy {
            copy_proxied(s, source, target, made)?
        } else {
            copy_own(s, source, target, made)?
        };
        k = k - 1;
    }
    return Err(Abrupt::Stopped);
}

/// Copies the characters of a string as properties, but for the keys excluded. With `k` rounds
/// left.
pub open spec fn copy_characters_from<'a>(
    target: Value,
    text: Value,
    excluded: u64,
    k: nat,
    n: u64,
    w: World<'a>,
) -> Step<'a, ()>
    decreases k,
{
    if k == 0 {
        (Err(Abrupt::Stopped), w)
    } else {
        let piece: Option<Seq<char> > = char_at(w.chars(text), n);
        match piece {
            None => (Ok(()), w),
            Some(c) => {
                if w.lists_key(excluded, Key::Index(n)) {
                    copy_characters_from(target, text, excluded, (k - 1) as nat, bump(n), w)
                } else {
                    let t: Value = w.next_text();
                    let w = w.add_text(c);
                    let w = w.ask(
                        Request::DefineOwn { base: target, key: Key::Index(n), prop: Property::of(t, true, true, true) },
                    ).1;
                    copy_characters_from(target, text, excluded, (k - 1) as nat, bump(n), w)
                }
            },
        }
    }
}

/// Copies the characters of a string as properties, but for the keys excluded.
pub open spec fn copy_characters_step<'a>(
    target: Value,
    text: Value,
    excluded: u64,
    w: World<'a>,
) -> Step<'a, ()>
{
    copy_characters_from(target, text, excluded, w.limit, 0, w)
}

/// Copies the characters of a string as properties, but for the keys excluded.
pub fn copy_characters<'h, 'a, H: Host<'a>>(
    s: &mut Session<'h, 'a, H>,
    target: Value,
    text: Value,
    excluded: u64,
) -> (out: Result<(), Abrupt<'a>>)
    ensures
        final(s).continues(*old(s)),
        forall|answers: Answers<'a>| #[trigger]
            final(s).agrees(answers) ==> old(s).agrees(answers) && (out, final(s).world(answers))
                == copy_characters_step(target, text, excluded, old(s).world(answers)),
{
    let mut n: u64 = 0;
    let mut k: u64 = s.limit();
    while k > 0
        invariant
            s.continues(*old(s)),
            k <= old(s).rounds(),
            forall|answers: Answers<'a>| #[trigger]
                s.agrees(answers) ==> old(s).agrees(answers)
                    && copy_characters_step(target, text, excluded, old(s).world(answers))
                    == copy_characters_from(target, text, excluded, k as nat, n, s.world(answers)),
        decreases k,
    {
        let piece: Option<String> = char_text(s.chars(text), n);
        match piece {
            None => {
                return Ok(());
            },
            Some(c) => {
                if s.lists_key(excluded, Key::Index(n)) {
                    n = bumped(n);
                } else {
                    let t: Value = s.add_text(c);
                    let _ = s.ask(
                        Request::DefineOwn { base: target, key: Key::Index(n), prop: Property::plain(t) },
                    );
                    n = bumped(n);
                }
            },
        }
        k = k - 1;
    }
    return Err(Abrupt::Stopped);
}

/// CopyDataProperties: the enumerable own properties of a value, but for those excluded. A string
/// has its characters, other primitives nothing.
pub open spec fn copy_data_properties_into_step<'a>(
    target: Value,
    source: Value,
    excluded: u64,
    w: World<'a>,
) -> Step<'a, ()>
{
    match source {
        Value::Obj(_) => {
            next(
                asks_flag(Request::IsProxy(source), w),
                |proxy: bool, w: World<'a>|
                    if proxy {
                        next(
                            asks_handle(Request::ProxyOwnKeys(source), w),
                            |keys: u64, w: World<'a>|
                                copy_keys_step(source, target, keys, excluded, true, w),
                        )
                    } else {
                        next(
                            asks_handle(Request::OwnKeys(source), w),
                            |keys: u64, w: World<'a>|
                                copy_keys_step(source, target, keys, excluded, false, w),
                        )
                    },
            )
        },
        Value::Str(_) => copy_characters_step(target, source, excluded, w),
        _ => (Ok(()), w),
    }
}

/// CopyDataProperties: the enumerable own properties of a value, but for those excluded. A string
/// has its characters, other primitives nothing.
pub fn copy_data_properties_into<'h, 'a, H: Host<'a>>(
    s: &mut Session<'h, 'a, H>,
    target: Value,
    source: Value,
    excluded: u64,
) -> (out: Result<(), Abrupt<'a>>)
    ensures
        final(s).continues(*old(s)),
        forall|answers: Answers<'a>| #[trigger]
            final(s).agrees(answers) ==> old(s).agrees(answers) && (out, final(s).world(answers))
                == copy_data_properties_into_step(target, source, excluded, old(s).world(answers)),
{
    match source {
        Value::Obj(_) => {
            let proxy: bool = s.flag(Request::IsProxy(source))?;
            if proxy {
                let keys: u64 = s.handle(Request::ProxyOwnKeys(source))?;
                return copy_keys(s, source, target, keys, excluded, true);
            } else {
                let keys: u64 = s.handle(Request::OwnKeys(source))?;
                return copy_keys(s, source, target, keys, excluded, false);
            }
        },
        Value::Str(_) => {
            return copy_characters(s, target, source, excluded);
        },
        _ => {
            return Ok(());
        },
    }
}

/// CopyDataProperties into a new object.
pub open spec fn copy_data_properties_step<'a>(
    source: Value,
    excluded: u64,
    w: World<'a>,
) -> Step<'a, Value>
{
    next(
        asks(Request::MakeObject, w),
        |target: Value, w: World<'a>|
            next(
                copy_data_properties_into_step(target, source, excluded, w),
                |u: (), w: World<'a>| (Ok(target), w),
            ),
    )
}

/// CopyDataProperties into a new object.
pub fn copy_data_properties<'h, 'a, H: Host<'a>>(
    s: &mut Session<'h, 'a, H>,
    source: Value,
    excluded: u64,
) -> (out: Result<Value, Abrupt<'a>>)
    ensures
        final(s).continues(*old(s)),
        forall|answers: Answers<'a>| #[trigger]
            final(s).agrees(answers) ==> old(s).agrees(answers) && (out, final(s).world(answers))
                == copy_data_properties_step(source, excluded, old(s).world(answers)),
{
    let target: Value = s.value(Request::MakeObject)?;
    let u: () = copy_data_properties_into(s, target, source, excluded)?;
    return Ok(target);
}

/// Adds the keys of one level of a `for`-`in` enumeration that were not seen: a property that is
/// not enumerable hides one further up. With `k` rounds left.
pub open spec fn enum_level_from<'a>(
    base: Value,
    keys: u64,
    seen: u64,
    list: u64,
    all: bool,
    k: nat,
    w: World<'a>,
) -> Step<'a, ()>
    decreases k,
{
    if k == 0 {
        (Err(Abrupt::Stopped), w)
    } else {
        let more: bool = w.has_item(keys, 0);
        if !more {
            (Ok(()), w)
        } else {
            let k0: Value = w.item(keys, 0);
            let w = w.drop_item(keys);
            if !matches!(k0, Value::Str(_)) || !all && w.private(value_key(k0)) {
                enum_level_from(base, keys, seen, list, all, (k - 1) as nat, w)
            } else {
                let made: Key<'a> = value_key(k0);
                let old_key: bool = w.lists_key(seen, made);
                if old_key {
                    enum_level_from(base, keys, seen, list, all, (k - 1) as nat, w)
                } else {
                    next(
                        key_value_step(made, w),
                        |kv: Value, w: World<'a>| {
                            let w = w.push(seen, kv);
                            next(
                                if all {
                                    (Ok(true), w)
                                } else {
                                    own_enumerable_step(base, made, w)
                                },
                                |shown: bool, w: World<'a>|
                                    if shown {
                                        let w = w.push(list, k0);
                                        enum_level_from(
                                            base,
                                            keys,
                                            seen,
                                            list,
                                            all,
                                            (k - 1) as nat,
                                            w,
                                        )
                                    } else {
                                        enum_level_from(
                                            base,
                                            keys,
                                            seen,
                                            list,
                                            all,
                                            (k - 1) as nat,
                                            w,
                                        )
                                    },
                            )
                        },
                    )
                }
            }
        }
    }
}

/// Adds the keys of one level of a `for`-`in` enumeration that were not seen: a property that is
/// not enumerable hides one further up.
pub open spec fn enum_level_step<'a>(
    base: Value,
    keys: u64,
    seen: u64,
    list: u64,
    all: bool,
    w: World<'a>,
) -> Step<'a, ()>
{
    enum_level_from(base, keys, seen, list, all, w.limit, w)
}

/// Adds the keys of one level of a `for`-`in` enumeration that were not seen: a property that is
/// not enumerable hides one further up.
pub fn enum_level<'h, 'a, H: Host<'a>>(
    s: &mut Session<'h, 'a, H>,
    base: Value,
    keys: u64,
    seen: u64,
    list: u64,
    all: bool,
) -> (out: Result<(), Abrupt<'a>>)
    ensures
        final(s).continues(*old(s)),
        forall|answers: Answers<'a>| #[trigger]
            final(s).agrees(answers) ==> old(s).agrees(answers) && (out, final(s).world(answers))
                == enum_level_step(base, keys, seen, list, all, old(s).world(answers)),
{
    let mut k: u64 = s.limit();
    while k > 0
        invariant
            s.continues(*old(s)),
            k <= old(s).rounds(),
            forall|answers: Answers<'a>| #[trigger]
                s.agrees(answers) ==> old(s).agrees(answers)
                    && enum_level_step(base, keys, seen, list, all, old(s).world(answers))
                    == enum_level_from(base, keys, seen, list, all, k as nat, s.world(answers)),
        decreases k,
    {
        let more: bool = s.has_item(keys, 0);
        if !more {
            return Ok(());
        }
        let k0: Value = s.item(keys, 0);
        s.drop_item(keys);
        if !matches!(k0, Value::Str(_)) || !all && s.private(key_of_value(k0)) {
        } else {
            let made: Key<'a> = key_of_value(k0);
            let old_key: bool = s.lists_key(seen, made);
            if old_key {
            } else {
                let kv: Value = key_value(s, made)?;
                s.push(seen, kv);
                let shown: bool = if all {
                    true
                } else {
                    own_enumerable(s, base, made)?
                };
                if shown {
                    s.push(list, k0);
                } else {
                }
            }
        }
        k = k - 1;
    }
    return Err(Abrupt::Stopped);
}

/// The keys of a `for`-`in` enumeration: the enumerable string keys of an object and its
/// prototypes, each once, its own first. With `k` rounds left.
pub open spec fn enum_objects_from<'a>(
    v: Value,
    seen: u64,
    list: u64,
    k: nat,
    cur: Value,
    w: World<'a>,
) -> Step<'a, u64>
    decreases k,
{
    if k == 0 {
        (Err(Abrupt::Stopped), w)
    } else {
        if !matches!(cur, Value::Obj(_)) {
            (Ok(list), w)
        } else {
            next(
                asks_flag(Request::IsProxy(cur), w),
                |proxy: bool, w: World<'a>|
                    next(
                        if proxy {
                            asks_handle(Request::ProxyEnumerableKeys(cur), w)
                        } else {
                            asks_handle(Request::ElementKeys(cur), w)
                        },
                        |first: u64, w: World<'a>|
                            next(
                                enum_level_step(cur, first, seen, list, true, w),
                                |u1: (), w: World<'a>|
                                    next(
                                        if proxy {
                                            (Ok(()), w)
                                        } else {
                                            next(
                                                asks_handle(Request::OwnKeys(cur), w),
                                                |keys: u64, w: World<'a>|
                                                    enum_level_step(
                                                        cur,
                                                        keys,
                                                        seen,
                                                        list,
                                                        false,
                                                        w,
                                                    ),
                                            )
                                        },
                                        |u2: (), w: World<'a>|
                                            next(
                                                asks(Request::GetPrototype(cur), w),
                                                |proto: Value, w: World<'a>|
                                                    enum_objects_from(
                                                        v,
                                                        seen,
                                                        list,
                                                        (k - 1) as nat,
                                                        proto,
                                                        w,
                                                    ),
                                            ),
                                    ),
                            ),
                    ),
            )
        }
    }
}

/// The keys of a `for`-`in` enumeration: the enumerable string keys of an object and its
/// prototypes, each once, its own first.
pub open spec fn enum_objects_step<'a>(
    v: Value,
    seen: u64,
    list: u64,
    w: World<'a>,
) -> Step<'a, u64>
{
    enum_objects_from(v, seen, list, w.limit, v, w)
}

/// The keys of a `for`-`in` enumeration: the enumerable string keys of an object and its
/// prototypes, each once, its own first.
pub fn enum_objects<'h, 'a, H: Host<'a>>(
    s: &mut Session<'h, 'a, H>,
    v: Value,
    seen: u64,
    list: u64,
) -> (out: Result<u64, Abrupt<'a>>)
    ensures
        final(s).continues(*old(s)),
        forall|answers: Answers<'a>| #[trigger]
            final(s).agrees(answers) ==> old(s).agrees(answers) && (out, final(s).world(answers))
                == enum_objects_step(v, seen, list, old(s).world(answers)),
{
    let mut cur: Value = v;
    let mut k: u64 = s.limit();
    while k > 0
        invariant
            s.continues(*old(s)),
            k <= old(s).rounds(),
            forall|answers: Answers<'a>| #[trigger]
                s.agrees(answers) ==> old(s).agrees(answers)
                    && enum_objects_step(v, seen, list, old(s).world(answers))
                    == enum_objects_from(v, seen, list, k as nat, cur, s.world(answers)),
        decreases k,
    {
        if !matches!(cur, Value::Obj(_)) {
            return Ok(list);
        }
        let proxy: bool = s.flag(Request::IsProxy(cur))?;
        let first: u64 = if proxy {
            s.handle(Request::ProxyEnumerableKeys(cur))?
        } else {
            s.handle(Request::ElementKeys(cur))?
        };
        let u1: () = enum_level(s, cur, first, seen, list, true)?;
        let u2: () = if proxy {
            ()
        } else {
            let keys: u64 = s.handle(Request::OwnKeys(cur))?;
            enum_level(s, cur, keys, seen, list, false)?
        };
        let proto: Value = s.value(Request::GetPrototype(cur))?;
        cur = proto;
        k = k - 1;
    }
    return Err(Abrupt::Stopped);
}

/// Lists the places of a string's units, as strings. With `k` rounds left.
pub open spec fn push_places_from<'a>(
    units: u64,
    list: u64,
    k: nat,
    n: u64,
    w: World<'a>,
) -> Step<'a, u64>
    decreases k,
{
    if k == 0 {
        (Err(Abrupt::Stopped), w)
    } else {
        if n >= units {
            (Ok(list), w)
        } else {
            let t: Value = w.next_text();
            let w = w.add_text(decimal(n as nat));
            let w = w.push(list, t);
            push_places_from(units, list, (k - 1) as nat, (n + 1) as u64, w)
        }
    }
}

/// Lists the places of a string's units, as strings.
pub open spec fn push_places_step<'a>(units: u64, list: u64, w: World<'a>) -> Step<'a, u64>
{
    push_places_from(units, list, w.limit, 0, w)
}

/// Lists the places of a string's units, as strings.
pub fn push_places<'h, 'a, H: Host<'a>>(
    s: &mut Session<'h, 'a, H>,
    units: u64,
    list: u64,
) -> (out: Result<u64, Abrupt<'a>>)
    ensures
        final(s).continues(*old(s)),
        forall|answers: Answers<'a>| #[trigger]
            final(s).agrees(answers) ==> old(s).agrees(answers) && (out, final(s).world(answers))
                == push_places_step(units, list, old(s).world(answers)),
{
    let mut n: u64 = 0;
    let mut k: u64 = s.limit();
    while k > 0
        invariant
            s.continues(*old(s)),
            k <= old(s).rounds(),
            forall|answers: Answers<'a>| #[trigger]
                s.agrees(answers) ==> old(s).agrees(answers)
                    && push_places_step(units, list, old(s).world(answers))
                    == push_places_from(units, list, k as nat, n, s.world(answers)),
        decreases k,
    {
        if n >= units {
            return Ok(list);
        } else {
            let t: Value = s.add_text(decimal_string(n));
            s.push(list, t);
            n = n + 1;
        }
        k = k - 1;
    }
    return Err(Abrupt::Stopped);
}

/// The keys of a `for`-`in` enumeration. A string has its places.
pub open spec fn enum_keys_step<'a>(v: Value, w: World<'a>) -> Step<'a, u64>
{
    let list: u64 = w.next_list();
    let w = w.new_list(Seq::empty());
    match v {
        Value::Str(_) => {
            let units: u64 = unit_count(w.chars(v));
            push_places_step(units, list, w)
        },
        _ => {
            let seen: u64 = w.next_list();
            let w = w.new_list(Seq::empty());
            enum_objects_step(v, seen, list, w)
        },
    }
}

/// The keys of a `for`-`in` enumeration. A string has its places.
pub fn enum_keys<'h, 'a, H: Host<'a>>(
    s: &mut Session<'h, 'a, H>,
    v: Value,
) -> (out: Result<u64, Abrupt<'a>>)
    ensures
        final(s).continues(*old(s)),
        forall|answers: Answers<'a>| #[trigger]
            final(s).agrees(answers) ==> old(s).agrees(answers) && (out, final(s).world(answers))
                == enum_keys_step(v, old(s).world(answers)),
{
    let list: u64 = s.new_list(Vec::new());
    match v {
        Value::Str(_) => {
            let units: u64 = unit_len(s.chars(v));
            return push_places(s, units, list);
        },
        _ => {
            let seen: u64 = s.new_list(Vec::new());
            return enum_objects(s, v, seen, list);
        },
    }
}

/// Lists the elements of an object up to a length. With `k` rounds left.
pub open spec fn list_elements_from<'a>(
    obj: Value,
    length: u64,
    list: u64,
    k: nat,
    n: u64,
    w: World<'a>,
) -> Step<'a, u64>
    decreases k,
{
    if k == 0 {
        (Err(Abrupt::Stopped), w)
    } else {
        if n >= length {
            (Ok(list), w)
        } else {
            next(
                asks(Request::GetMember { base: obj, key: Key::Index(n) }, w),
                |v: Value, w: World<'a>| {
                    let w = w.push(list, v);
                    list_elements_from(obj, length, list, (k - 1) as nat, (n + 1) as u64, w)
                },
            )
        }
    }
}

/// Lists the elements of an object up to a length.
pub open spec fn list_elements_step<'a>(
    obj: Value,
    length: u64,
    list: u64,
    w: World<'a>,
) -> Step<'a, u64>
{
    list_elements_from(obj, length, list, w.limit, 0, w)
}

/// Lists the elements of an object up to a length.
pub fn list_elements<'h, 'a, H: Host<'a>>(
    s: &mut Session<'h, 'a, H>,
    obj: Value,
    length: u64,
    list: u64,
) -> (out: Result<u64, Abrupt<'a>>)
    ensures
        final(s).continues(*old(s)),
        forall|answers: Answers<'a>| #[trigger]
            final(s).agrees(answers) ==> old(s).agrees(answers) && (out, final(s).world(answers))
                == list_elements_step(obj, length, list, old(s).world(answers)),
{
    let mut n: u64 = 0;
    let mut k: u64 = s.limit();
    while k > 0
        invariant
            s.continues(*old(s)),
            k <= old(s).rounds(),
            forall|answers: Answers<'a>| #[trigger]
                s.agrees(answers) ==> old(s).agrees(answers)
                    && list_elements_step(obj, length, list, old(s).world(answers))
                    == list_elements_from(obj, length, list, k as nat, n, s.world(answers)),
        decreases k,
    {
        if n >= length {
            return Ok(list);
        } else {
            let v: Value = s.value(Request::GetMember { base: obj, key: Key::Index(n) })?;
            s.push(list, v);
            n = n + 1;
        }
        k = k - 1;
    }
    return Err(Abrupt::Stopped);
}

/// CreateListFromArrayLike: the elements that the `length` of an object counts.
pub open spec fn create_list_from_arraylike_step<'a>(obj: Value, w: World<'a>) -> Step<'a, u64>
{
    next(
        asks(Request::GetMember { base: obj, key: Key::Fixed("length") }, w),
        |v: Value, w: World<'a>|
            next(
                to_number_step(v, w),
                |n: u64, w: World<'a>| {
                    let list: u64 = w.next_list();
                    let w = w.new_list(Seq::empty());
                    list_elements_step(obj, count_of(n), list, w)
                },
            ),
    )
}

/// CreateListFromArrayLike: the elements that the `length` of an object counts.
pub fn create_list_from_arraylike<'h, 'a, H: Host<'a>>(
    s: &mut Session<'h, 'a, H>,
    obj: Value,
) -> (out: Result<u64, Abrupt<'a>>)
    ensures
        final(s).continues(*old(s)),
        forall|answers: Answers<'a>| #[trigger]
            final(s).agrees(answers) ==> old(s).agrees(answers) && (out, final(s).world(answers))
                == create_list_from_arraylike_step(obj, old(s).world(answers)),
{
    let v: Value = s.value(Request::GetMember { base: obj, key: Key::Fixed("length") })?;
    let n: u64 = to_number(s, v)?;
    let list: u64 = s.new_list(Vec::new());
    return list_elements(s, obj, to_count(n), list);
}

/// The `type` among the attributes under the keys of a list, all of which must be strings. With `k`
/// rounds left.
pub open spec fn read_attributes_from<'a>(
    with: Value,
    keys: u64,
    proxy: bool,
    k: nat,
    kind: Option<Value>,
    w: World<'a>,
) -> Step<'a, Option<Value>>
    decreases k,
{
    if k == 0 {
        (Err(Abrupt::Stopped), w)
    } else {
        let more: bool = w.has_item(keys, 0);
        if !more {
            (Ok(kind), w)
        } else {
            let k0: Value = w.item(keys, 0);
            let w = w.drop_item(keys);
            if matches!(k0, Value::Sym(_)) {
                read_attributes_from(with, keys, proxy, (k - 1) as nat, kind, w)
            } else {
                next(
                    to_property_key_step(k0, w),
                    |made: Key<'a>, w: World<'a>|
                        next(
                            attribute_shown_step(with, made, proxy, w),
                            |shown: bool, w: World<'a>|
                                if !shown {
                                    read_attributes_from(with, keys, proxy, (k - 1) as nat, kind, w)
                                } else {
                                    next(
                                        asks(Request::GetMember { base: with, key: made }, w),
                                        |v: Value, w: World<'a>|
                                            if !matches!(v, Value::Str(_)) {
                                                throws(
                                                    ErrorKind::TypeError,
                                                    "import attribute values must be strings",
                                                    w,
                                                )
                                            } else {
                                                let is_type: bool = w.key_is(made, "type"@);
                                                let kept: Option<Value> = if is_type { Some(v) } else { kind };
                                                read_attributes_from(
                                                    with,
                                                    keys,
                                                    proxy,
                                                    (k - 1) as nat,
                                                    kept,
                                                    w,
                                                )
                                            },
                                    )
                                },
                        ),
                )
            }
        }
    }
}

/// The `type` among the attributes under the keys of a list, all of which must be strings.
pub open spec fn read_attributes_step<'a>(
    with: Value,
    keys: u64,
    proxy: bool,
    w: World<'a>,
) -> Step<'a, Option<Value>>
{
    read_attributes_from(with, keys, proxy, w.limit, None, w)
}

/// The `type` among the attributes under the keys of a list, all of which must be strings.
pub fn read_attributes<'h, 'a, H: Host<'a>>(
    s: &mut Session<'h, 'a, H>,
    with: Value,
    keys: u64,
    proxy: bool,
) -> (out: Result<Option<Value>, Abrupt<'a>>)
    ensures
        final(s).continues(*old(s)),
        forall|answers: Answers<'a>| #[trigger]
            final(s).agrees(answers) ==> old(s).agrees(answers) && (out, final(s).world(answers))
                == read_attributes_step(with, keys, proxy, old(s).world(answers)),
{
    let mut kind: Option<Value> = None;
    let mut k: u64 = s.limit();
    while k > 0
        invariant
            s.continues(*old(s)),
            k <= old(s).rounds(),
            forall|answers: Answers<'a>| #[trigger]
                s.agrees(answers) ==> old(s).agrees(answers)
                    && read_attributes_step(with, keys, proxy, old(s).world(answers))
                    == read_attributes_from(with, keys, proxy, k as nat, kind, s.world(answers)),
        decreases k,
    {
        let more: bool = s.has_item(keys, 0);
        if !more {
            return Ok(kind);
        }
        let k0: Value = s.item(keys, 0);
        s.drop_item(keys);
        if matches!(k0, Value::Sym(_)) {
        } else {
            let made: Key<'a> = to_property_key(s, k0)?;
            let shown: bool = attribute_shown(s, with, made, proxy)?;
            if !shown {
            } else {
                let v: Value = s.value(Request::GetMember { base: with, key: made })?;
                if !matches!(v, Value::Str(_)) {
                    return throw(
                        s,
                        ErrorKind::TypeError,
                        "import attribute values must be strings",
                    );
                } else {
                    let is_type: bool = s.key_is(made, "type");
                    let kept: Option<Value> = if is_type { Some(v) } else { kind };
                    kind = kept;
                }
            }
        }
        k = k - 1;
    }
    return Err(Abrupt::Stopped);
}

/// Whether an attribute is there and enumerable.
pub open spec fn attribute_shown_step<'a>(
    with: Value,
    key: Key<'a>,
    proxy: bool,
    w: World<'a>,
) -> Step<'a, bool>
{
    if proxy {
        next(
            asks(Request::ProxyDescriptor { base: with, key }, w),
            |d: Value, w: World<'a>|
                if matches!(d, Value::Undefined) {
                    (Ok(false), w)
                } else {
                    next(
                        asks(Request::GetMember { base: d, key: Key::Fixed("enumerable") }, w),
                        |e: Value, w: World<'a>| to_boolean_step(e, w),
                    )
                },
        )
    } else {
        own_enumerable_step(with, key, w)
    }
}

/// Whether an attribute is there and enumerable.
pub fn attribute_shown<'h, 'a, H: Host<'a>>(
    s: &mut Session<'h, 'a, H>,
    with: Value,
    key: Key<'a>,
    proxy: bool,
) -> (out: Result<bool, Abrupt<'a>>)
    ensures
        final(s).continues(*old(s)),
        forall|answers: Answers<'a>| #[trigger]
            final(s).agrees(answers) ==> old(s).agrees(answers) && (out, final(s).world(answers))
                == attribute_shown_step(with, key, proxy, old(s).world(answers)),
{
    if proxy {
        let d: Value = s.value(Request::ProxyDescriptor { base: with, key })?;
        if matches!(d, Value::Undefined) {
            return Ok(false);
        } else {
            let e: Value = s.value(Request::GetMember { base: d, key: Key::Fixed("enumerable") })?;
            return to_boolean(s, e);
        }
    } else {
        return own_enumerable(s, with, key);
    }
}

/// The type that the options of a dynamic import ask for.
pub open spec fn import_attributes_step<'a>(o: Value, w: World<'a>) -> Step<'a, Option<Value>>
{
    if matches!(o, Value::Undefined) {
        (Ok(None), w)
    } else if !matches!(o, Value::Obj(_)) {
        throws(ErrorKind::TypeError, "import options must be an object", w)
    } else {
        next(
            asks(Request::GetMember { base: o, key: Key::Fixed("with") }, w),
            |with: Value, w: World<'a>|
                if matches!(with, Value::Undefined) {
                    (Ok(None), w)
                } else if !matches!(with, Value::Obj(_)) {
                    throws(ErrorKind::TypeError, "import attributes must be an object", w)
                } else {
                    next(
                        asks_flag(Request::IsProxy(with), w),
                        |proxy: bool, w: World<'a>|
                            next(
                                if proxy {
                                    asks_handle(Request::ProxyOwnKeys(with), w)
                                } else {
                                    asks_handle(Request::OwnKeys(with), w)
                                },
                                |keys: u64, w: World<'a>|
                                    read_attributes_step(with, keys, proxy, w),
                            ),
                    )
                },
        )
    }
}

/// The type that the options of a dynamic import ask for.
pub fn import_attributes<'h, 'a, H: Host<'a>>(
    s: &mut Session<'h, 'a, H>,
    o: Value,
) -> (out: Result<Option<Value>, Abrupt<'a>>)
    ensures
        final(s).continues(*old(s)),
        forall|answers: Answers<'a>| #[trigger]
            final(s).agrees(answers) ==> old(s).agrees(answers) && (out, final(s).world(answers))
                == import_attributes_step(o, old(s).world(answers)),
{
    if matches!(o, Value::Undefined) {
        return Ok(None);
    }
    if !matches!(o, Value::Obj(_)) {
        return throw(s, ErrorKind::TypeError, "import options must be an object");
    }
    let with: Value = s.value(Request::GetMember { base: o, key: Key::Fixed("with") })?;
    if matches!(with, Value::Undefined) {
        return Ok(None);
    }
    if !matches!(with, Value::Obj(_)) {
        return throw(s, ErrorKind::TypeError, "import attributes must be an object");
    }
    let proxy: bool = s.flag(Request::IsProxy(with))?;
    let keys: u64 = if proxy {
        s.handle(Request::ProxyOwnKeys(with))?
    } else {
        s.handle(Request::OwnKeys(with))?
    };
    return read_attributes(s, with, keys, proxy);
}

// ---- variables

/// Whether the object of a `with` scope has a name: `@@unscopables` can hide it.
pub open spec fn with_has_binding_step<'a>(
    obj: Value,
    name: Name<'a>,
    w: World<'a>,
) -> Step<'a, bool>
{
    next(
        js_has_property_step(obj, name.key(), w),
        |there: bool, w: World<'a>|
            if !there {
                (Ok(false), w)
            } else {
                next(
                    asks_handle(Request::UnscopablesKey, w),
                    |uk: u64, w: World<'a>|
                        next(
                            asks(Request::GetMember { base: obj, key: Key::Symbol(uk) }, w),
                            |list: Value, w: World<'a>|
                                if matches!(list, Value::Obj(_)) {
                                    next(
                                        asks(Request::GetMember { base: list, key: name.key() }, w),
                                        |hidden: Value, w: World<'a>|
                                            next(
                                                to_boolean_step(hidden, w),
                                                |b: bool, w: World<'a>| (Ok(!b), w),
                                            ),
                                    )
                                } else {
                                    (Ok(true), w)
                                },
                        ),
                )
            },
    )
}

/// Whether the object of a `with` scope has a name: `@@unscopables` can hide it.
pub fn with_has_binding<'h, 'a, H: Host<'a>>(
    s: &mut Session<'h, 'a, H>,
    obj: Value,
    name: Name<'a>,
) -> (out: Result<bool, Abrupt<'a>>)
    ensures
        final(s).continues(*old(s)),
        forall|answers: Answers<'a>| #[trigger]
            final(s).agrees(answers) ==> old(s).agrees(answers) && (out, final(s).world(answers))
                == with_has_binding_step(obj, name, old(s).world(answers)),
{
    let there: bool = js_has_property(s, obj, name.key())?;
    if !there {
        return Ok(false);
    }
    let uk: u64 = s.handle(Request::UnscopablesKey)?;
    let list: Value = s.value(Request::GetMember { base: obj, key: Key::Symbol(uk) })?;
    if matches!(list, Value::Obj(_)) {
        let hidden: Value = s.value(Request::GetMember { base: list, key: name.key() })?;
        let b: bool = to_boolean(s, hidden)?;
        return Ok(!b);
    } else {
        return Ok(true);
    }
}

/// Reads a name that the object of a `with` scope had: it may have gone meanwhile.
pub open spec fn read_with_step<'a>(obj: Value, name: Name<'a>, w: World<'a>) -> Step<'a, Value>
{
    next(
        js_has_property_step(obj, name.key(), w),
        |still: bool, w: World<'a>|
            if still {
                asks(Request::GetMember { base: obj, key: name.key() }, w)
            } else if w.strict {
                throws_about(
                    ErrorKind::ReferenceError,
                    "",
                    " is not defined",
                    Subject::Key(name.key()),
                    w,
                )
            } else {
                (Ok(Value::Undefined), w)
            },
    )
}

/// Reads a name that the object of a `with` scope had: it may have gone meanwhile.
pub fn read_with<'h, 'a, H: Host<'a>>(
    s: &mut Session<'h, 'a, H>,
    obj: Value,
    name: Name<'a>,
) -> (out: Result<Value, Abrupt<'a>>)
    ensures
        final(s).continues(*old(s)),
        forall|answers: Answers<'a>| #[trigger]
            final(s).agrees(answers) ==> old(s).agrees(answers) && (out, final(s).world(answers))
                == read_with_step(obj, name, old(s).world(answers)),
{
    let still: bool = js_has_property(s, obj, name.key())?;
    if still {
        return s.value(Request::GetMember { base: obj, key: name.key() });
    } else if s.strict_mode() {
        return throw_about(
            s,
            ErrorKind::ReferenceError,
            "",
            " is not defined",
            Subject::Key(name.key()),
        );
    } else {
        return Ok(Value::Undefined);
    }
}

/// Reads a property of the global object.
pub open spec fn read_global_step<'a>(name: Name<'a>, w: World<'a>) -> Step<'a, Resolved>
{
    next(
        asks(Request::GlobalObject, w),
        |g: Value, w: World<'a>|
            next(
                js_has_property_step(g, name.key(), w),
                |there: bool, w: World<'a>|
                    if there {
                        next(
                            asks(Request::GetMember { base: g, key: name.key() }, w),
                            |v: Value, w: World<'a>|
                                (Ok(Resolved { value: v, receiver: None }), w),
                        )
                    } else {
                        throws_about(
                            ErrorKind::ReferenceError,
                            "",
                            " is not defined",
                            Subject::Key(name.key()),
                            w,
                        )
                    },
            ),
    )
}

/// Reads a property of the global object.
pub fn read_global<'h, 'a, H: Host<'a>>(
    s: &mut Session<'h, 'a, H>,
    name: Name<'a>,
) -> (out: Result<Resolved, Abrupt<'a>>)
    ensures
        final(s).continues(*old(s)),
        forall|answers: Answers<'a>| #[trigger]
            final(s).agrees(answers) ==> old(s).agrees(answers) && (out, final(s).world(answers))
                == read_global_step(name, old(s).world(answers)),
{
    let g: Value = s.value(Request::GlobalObject)?;
    let there: bool = js_has_property(s, g, name.key())?;
    if there {
        let v: Value = s.value(Request::GetMember { base: g, key: name.key() })?;
        return Ok(Resolved { value: v, receiver: None });
    } else {
        return throw_about(
            s,
            ErrorKind::ReferenceError,
            "",
            " is not defined",
            Subject::Key(name.key()),
        );
    }
}

/// Reads a variable: from the nearest scope that binds it, the object of a `with` scope or the
/// global object. An import is read where it comes from. With `k` rounds left.
pub open spec fn get_var_with_from<'a>(
    name: Name<'a>,
    env: Env,
    k: nat,
    at: Stop,
    n: Name<'a>,
    hop: bool,
    w: World<'a>,
) -> Step<'a, Resolved>
    decreases k,
{
    if k == 0 {
        (Err(Abrupt::Stopped), w)
    } else {
        match at {
            Stop::Global => read_global_step(n, w),
            Stop::With(e, obj) => {
                next(
                    with_has_binding_step(obj, n, w),
                    |b: bool, w: World<'a>|
                        if b {
                            next(
                                read_with_step(obj, n, w),
                                |v: Value, w: World<'a>|
                                    (Ok(Resolved { value: v, receiver: if hop { None } else { Some(obj) } }), w),
                            )
                        } else {
                            get_var_with_from(
                                name,
                                env,
                                (k - 1) as nat,
                                w.scopes.stop_behind(e, n.chars()),
                                n,
                                hop,
                                w,
                            )
                        },
                )
            },
            Stop::Scope(e) => {
                if w.scopes.read_view(e, n.chars()) is Uninitialized {
                    throws_about(
                        ErrorKind::ReferenceError,
                        "cannot access '",
                        "' before initialization",
                        Subject::Key(n.key()),
                        w,
                    )
                } else {
                    let from: Option<(Env, Name<'a>)> = w.scopes.import_at(e, n.chars());
                    match from {
                        Some((e2, local)) => {
                            get_var_with_from(
                                name,
                                env,
                                (k - 1) as nat,
                                w.scopes.stop(e2, local.chars()),
                                local,
                                true,
                                w,
                            )
                        },
                        None => {
                            let v: Value = w.scopes.value_in(e, n.chars());
                            (Ok(Resolved { value: v, receiver: None }), w)
                        },
                    }
                }
            },
        }
    }
}

/// Reads a variable: from the nearest scope that binds it, the object of a `with` scope or the
/// global object. An import is read where it comes from.
pub open spec fn get_var_with_step<'a>(name: Name<'a>, env: Env, w: World<'a>) -> Step<'a, Resolved>
{
    get_var_with_from(name, env, w.limit, w.scopes.stop(env, name.chars()), name, false, w)
}

/// Reads a variable: from the nearest scope that binds it, the object of a `with` scope or the
/// global object. An import is read where it comes from.
#[verifier::spinoff_prover]
pub fn get_var_with<'h, 'a, H: Host<'a>>(
    s: &mut Session<'h, 'a, H>,
    name: Name<'a>,
    env: Env,
) -> (out: Result<Resolved, Abrupt<'a>>)
    ensures
        final(s).continues(*old(s)),
        forall|answers: Answers<'a>| #[trigger]
            final(s).agrees(answers) ==> old(s).agrees(answers) && (out, final(s).world(answers))
                == get_var_with_step(name, env, old(s).world(answers)),
{
    let mut at: Stop = s.scopes().search(env, name.text());
    let mut n: Name<'a> = name;
    let mut hop: bool = false;
    let mut k: u64 = s.limit();
    while k > 0
        invariant
            s.continues(*old(s)),
            k <= old(s).rounds(),
            forall|answers: Answers<'a>| #[trigger]
                s.agrees(answers) ==> old(s).agrees(answers)
                    && get_var_with_step(name, env, old(s).world(answers))
                    == get_var_with_from(name, env, k as nat, at, n, hop, s.world(answers)),
        decreases k,
    {
        match at {
            Stop::Global => {
                return read_global(s, n);
            },
            Stop::With(e, obj) => {
                let b: bool = with_has_binding(s, obj, n)?;
                if b {
                    let v: Value = read_with(s, obj, n)?;
                    return Ok(Resolved { value: v, receiver: if hop { None } else { Some(obj) } });
                } else {
                    at = s.scopes().search_behind(e, n.text());
                }
            },
            Stop::Scope(e) => {
                if s.scopes().in_dead_zone(e, n.text()) {
                    return throw_about(
                        s,
                        ErrorKind::ReferenceError,
                        "cannot access '",
                        "' before initialization",
                        Subject::Key(n.key()),
                    );
                } else {
                    let from: Option<(Env, Name<'a>)> = s.scopes().import_source(e, n.text());
                    match from {
                        Some((e2, local)) => {
                            at = s.scopes().search(e2, local.text());
                            n = local;
                            hop = true;
                        },
                        None => {
                            let v: Value = s.scopes().value_at(e, n.text());
                            return Ok(Resolved { value: v, receiver: None });
                        },
                    }
                }
            },
        }
        k = k - 1;
    }
    return Err(Abrupt::Stopped);
}

/// The value of a variable.
pub open spec fn get_var_step<'a>(name: Name<'a>, env: Env, w: World<'a>) -> Step<'a, Value>
{
    next(
        get_var_with_step(name, env, w),
        |r: Resolved, w: World<'a>| (Ok(r.value), w),
    )
}

/// The value of a variable.
pub fn get_var<'h, 'a, H: Host<'a>>(
    s: &mut Session<'h, 'a, H>,
    name: Name<'a>,
    env: Env,
) -> (out: Result<Value, Abrupt<'a>>)
    ensures
        final(s).continues(*old(s)),
        forall|answers: Answers<'a>| #[trigger]
            final(s).agrees(answers) ==> old(s).agrees(answers) && (out, final(s).world(answers))
                == get_var_step(name, env, old(s).world(answers)),
{
    let r: Resolved = get_var_with(s, name, env)?;
    return Ok(r.value);
}

/// `this`: where no scope has one it is `undefined`.
pub open spec fn this_value_step<'a>(env: Env, w: World<'a>) -> Step<'a, Value>
{
    let at: Option<Env> = w.scopes.holder(env, "this"@);
    match at {
        Some(e) => {
            if w.scopes.plain_at(e, "this"@) {
                let v: Value = w.scopes.value_in(e, "this"@);
                (Ok(v), w)
            } else {
                get_var_step(Name::Fixed("this"), env, w)
            }
        },
        None => (Ok(Value::Undefined), w),
    }
}

/// `this`: where no scope has one it is `undefined`.
pub fn this_value<'h, 'a, H: Host<'a>>(
    s: &mut Session<'h, 'a, H>,
    env: Env,
) -> (out: Result<Value, Abrupt<'a>>)
    ensures
        final(s).continues(*old(s)),
        forall|answers: Answers<'a>| #[trigger]
            final(s).agrees(answers) ==> old(s).agrees(answers) && (out, final(s).world(answers))
                == this_value_step(env, old(s).world(answers)),
{
    let at: Option<Env> = s.scopes().find(env, "this");
    match at {
        Some(e) => {
            if s.scopes().reads_plainly(e, "this") {
                let v: Value = s.scopes().value_at(e, "this");
                return Ok(v);
            } else {
                return get_var(s, Name::Fixed("this"), env);
            }
        },
        None => {
            return Ok(Value::Undefined);
        },
    }
}

/// What an internal name is bound to, or `undefined`.
pub open spec fn peek_step<'a>(name: &'static str, env: Env, w: World<'a>) -> Step<'a, Value>
{
    let found: Option<Value> = w.scopes.bound_value(name@, env);
    match found {
        Some(v) => (Ok(v), w),
        None => (Ok(Value::Undefined), w),
    }
}

/// What an internal name is bound to, or `undefined`.
pub fn peek<'h, 'a, H: Host<'a>>(
    s: &mut Session<'h, 'a, H>,
    name: &'static str,
    env: Env,
) -> (out: Result<Value, Abrupt<'a>>)
    ensures
        final(s).continues(*old(s)),
        forall|answers: Answers<'a>| #[trigger]
            final(s).agrees(answers) ==> old(s).agrees(answers) && (out, final(s).world(answers))
                == peek_step(name, env, old(s).world(answers)),
{
    let found: Option<Value> = s.scopes().peek_binding(name, env);
    match found {
        Some(v) => {
            return Ok(v);
        },
        None => {
            return Ok(Value::Undefined);
        },
    }
}

/// Where an assignment to a name of the object of a `with` scope goes.
pub open spec fn assign_with_step<'a>(
    obj: Value,
    name: Name<'a>,
    w: World<'a>,
) -> Step<'a, AssignTo>
{
    next(
        js_has_property_step(obj, name.key(), w),
        |still: bool, w: World<'a>|
            if !still && w.strict {
                throws_about(
                    ErrorKind::ReferenceError,
                    "",
                    " is not defined",
                    Subject::Key(name.key()),
                    w,
                )
            } else {
                (Ok(AssignTo::Object(obj)), w)
            },
    )
}

/// Where an assignment to a name of the object of a `with` scope goes.
pub fn assign_with<'h, 'a, H: Host<'a>>(
    s: &mut Session<'h, 'a, H>,
    obj: Value,
    name: Name<'a>,
) -> (out: Result<AssignTo, Abrupt<'a>>)
    ensures
        final(s).continues(*old(s)),
        forall|answers: Answers<'a>| #[trigger]
            final(s).agrees(answers) ==> old(s).agrees(answers) && (out, final(s).world(answers))
                == assign_with_step(obj, name, old(s).world(answers)),
{
    let still: bool = js_has_property(s, obj, name.key())?;
    if !still && s.strict_mode() {
        return throw_about(
            s,
            ErrorKind::ReferenceError,
            "",
            " is not defined",
            Subject::Key(name.key()),
        );
    } else {
        return Ok(AssignTo::Object(obj));
    }
}

/// Where an assignment to a name that no scope binds goes: to the global object, in strict code
/// only if it has the name.
pub open spec fn assign_global_step<'a>(name: Name<'a>, w: World<'a>) -> Step<'a, AssignTo>
{
    next(
        asks(Request::GlobalObject, w),
        |g: Value, w: World<'a>|
            next(
                js_has_property_step(g, name.key(), w),
                |there: bool, w: World<'a>|
                    if there || !w.strict {
                        (Ok(AssignTo::Object(g)), w)
                    } else {
                        throws_about(
                            ErrorKind::ReferenceError,
                            "",
                            " is not defined",
                            Subject::Key(name.key()),
                            w,
                        )
                    },
            ),
    )
}

/// Where an assignment to a name that no scope binds goes: to the global object, in strict code
/// only if it has the name.
pub fn assign_global<'h, 'a, H: Host<'a>>(
    s: &mut Session<'h, 'a, H>,
    name: Name<'a>,
) -> (out: Result<AssignTo, Abrupt<'a>>)
    ensures
        final(s).continues(*old(s)),
        forall|answers: Answers<'a>| #[trigger]
            final(s).agrees(answers) ==> old(s).agrees(answers) && (out, final(s).world(answers))
                == assign_global_step(name, old(s).world(answers)),
{
    let g: Value = s.value(Request::GlobalObject)?;
    let there: bool = js_has_property(s, g, name.key())?;
    if there || !s.strict_mode() {
        return Ok(AssignTo::Object(g));
    } else {
        return throw_about(
            s,
            ErrorKind::ReferenceError,
            "",
            " is not defined",
            Subject::Key(name.key()),
        );
    }
}

/// Where an assignment to a variable goes. A constant refuses it. With `k` rounds left.
pub open spec fn assign_target_from<'a>(
    name: Name<'a>,
    env: Env,
    k: nat,
    at: Stop,
    w: World<'a>,
) -> Step<'a, AssignTo>
    decreases k,
{
    if k == 0 {
        (Err(Abrupt::Stopped), w)
    } else {
        match at {
            Stop::Global => assign_global_step(name, w),
            Stop::With(e, obj) => {
                next(
                    with_has_binding_step(obj, name, w),
                    |b: bool, w: World<'a>|
                        if b {
                            assign_with_step(obj, name, w)
                        } else {
                            assign_target_from(
                                name,
                                env,
                                (k - 1) as nat,
                                w.scopes.stop_behind(e, name.chars()),
                                w,
                            )
                        },
                )
            },
            Stop::Scope(e) => {
                let outcome: Write = w.scopes.write_view(e, name.chars(), w.strict);
                match outcome {
                    Write::Stored => (Ok(AssignTo::Scope(e)), w),
                    Write::Ignored => (Ok(AssignTo::Nothing), w),
                    Write::Refused => {
                        throws_about(
                            ErrorKind::TypeError,
                            "assignment to constant '",
                            "'",
                            Subject::Key(name.key()),
                            w,
                        )
                    },
                }
            },
        }
    }
}

/// Where an assignment to a variable goes. A constant refuses it.
pub open spec fn assign_target_step<'a>(
    name: Name<'a>,
    env: Env,
    w: World<'a>,
) -> Step<'a, AssignTo>
{
    assign_target_from(name, env, w.limit, w.scopes.stop(env, name.chars()), w)
}

/// Where an assignment to a variable goes. A constant refuses it.
pub fn assign_target<'h, 'a, H: Host<'a>>(
    s: &mut Session<'h, 'a, H>,
    name: Name<'a>,
    env: Env,
) -> (out: Result<AssignTo, Abrupt<'a>>)
    ensures
        final(s).continues(*old(s)),
        forall|answers: Answers<'a>| #[trigger]
            final(s).agrees(answers) ==> old(s).agrees(answers) && (out, final(s).world(answers))
                == assign_target_step(name, env, old(s).world(answers)),
{
    let mut at: Stop = s.scopes().search(env, name.text());
    let mut k: u64 = s.limit();
    while k > 0
        invariant
            s.continues(*old(s)),
            k <= old(s).rounds(),
            forall|answers: Answers<'a>| #[trigger]
                s.agrees(answers) ==> old(s).agrees(answers)
                    && assign_target_step(name, env, old(s).world(answers))
                    == assign_target_from(name, env, k as nat, at, s.world(answers)),
        decreases k,
    {
        match at {
            Stop::Global => {
                return assign_global(s, name);
            },
            Stop::With(e, obj) => {
                let b: bool = with_has_binding(s, obj, name)?;
                if b {
                    return assign_with(s, obj, name);
                } else {
                    at = s.scopes().search_behind(e, name.text());
                }
            },
            Stop::Scope(e) => {
                let outcome: Write = s.scopes().may_write(e, name.text(), s.strict_mode());
                match outcome {
                    Write::Stored => {
                        return Ok(AssignTo::Scope(e));
                    },
                    Write::Ignored => {
                        return Ok(AssignTo::Nothing);
                    },
                    Write::Refused => {
                        return throw_about(
                            s,
                            ErrorKind::TypeError,
                            "assignment to constant '",
                            "'",
                            Subject::Key(name.key()),
                        );
                    },
                }
            },
        }
        k = k - 1;
    }
    return Err(Abrupt::Stopped);
}

/// Assigns to a variable: to the nearest binding, or to a property of a `with` object or the global
/// object.
pub open spec fn assign_var_step<'a>(
    name: Name<'a>,
    value: Value,
    env: Env,
    w: World<'a>,
) -> Step<'a, ()>
{
    next(
        assign_target_step(name, env, w),
        |t: AssignTo, w: World<'a>|
            match t {
                AssignTo::Scope(e) => {
                    let w = w.store_var(e, name, value);
                    (Ok(()), w)
                },
                AssignTo::Nothing => (Ok(()), w),
                AssignTo::Object(o) => {
                    next(
                        asks(
                            Request::SetMember { base: o, key: name.key(), value, strict: w.strict },
                            w,
                        ),
                        |v: Value, w: World<'a>| (Ok(()), w),
                    )
                },
            },
    )
}

/// Assigns to a variable: to the nearest binding, or to a property of a `with` object or the global
/// object.
pub fn assign_var<'h, 'a, H: Host<'a>>(
    s: &mut Session<'h, 'a, H>,
    name: Name<'a>,
    value: Value,
    env: Env,
) -> (out: Result<(), Abrupt<'a>>)
    ensures
        final(s).continues(*old(s)),
        forall|answers: Answers<'a>| #[trigger]
            final(s).agrees(answers) ==> old(s).agrees(answers) && (out, final(s).world(answers))
                == assign_var_step(name, value, env, old(s).world(answers)),
{
    let t: AssignTo = assign_target(s, name, env)?;
    match t {
        AssignTo::Scope(e) => {
            s.store_var(e, name, value);
            return Ok(());
        },
        AssignTo::Nothing => {
            return Ok(());
        },
        AssignTo::Object(o) => {
            let v: Value = s.value(
                Request::SetMember { base: o, key: name.key(), value, strict: s.strict_mode() },
            )?;
            return Ok(());
        },
    }
}

/// Where a name is bound, so that a later read and write meet the same binding. With `k` rounds
/// left.
pub open spec fn resolve_name_from<'a>(
    name: &'a String,
    env: Env,
    k: nat,
    at: Stop,
    w: World<'a>,
) -> Step<'a, RefBase>
    decreases k,
{
    if k == 0 {
        (Err(Abrupt::Stopped), w)
    } else {
        match at {
            Stop::Global => {
                next(
                    asks(Request::GlobalObject, w),
                    |g: Value, w: World<'a>|
                        next(
                            js_has_property_step(g, Key::Source(name), w),
                            |there: bool, w: World<'a>|
                                if there {
                                    (Ok(RefBase::Global), w)
                                } else {
                                    (Ok(RefBase::Unresolvable), w)
                                },
                        ),
                )
            },
            Stop::With(e, obj) => {
                next(
                    with_has_binding_step(obj, Name::Source(name), w),
                    |b: bool, w: World<'a>|
                        if b {
                            (Ok(RefBase::With(obj)), w)
                        } else {
                            resolve_name_from(
                                name,
                                env,
                                (k - 1) as nat,
                                w.scopes.stop_behind(e, name@),
                                w,
                            )
                        },
                )
            },
            Stop::Scope(e) => (Ok(RefBase::Scope(e)), w),
        }
    }
}

/// Where a name is bound, so that a later read and write meet the same binding.
pub open spec fn resolve_name_step<'a>(
    name: &'a String,
    env: Env,
    w: World<'a>,
) -> Step<'a, RefBase>
{
    resolve_name_from(name, env, w.limit, w.scopes.stop(env, name@), w)
}

/// Where a name is bound, so that a later read and write meet the same binding.
pub fn resolve_name<'h, 'a, H: Host<'a>>(
    s: &mut Session<'h, 'a, H>,
    name: &'a String,
    env: Env,
) -> (out: Result<RefBase, Abrupt<'a>>)
    ensures
        final(s).continues(*old(s)),
        forall|answers: Answers<'a>| #[trigger]
            final(s).agrees(answers) ==> old(s).agrees(answers) && (out, final(s).world(answers))
                == resolve_name_step(name, env, old(s).world(answers)),
{
    let mut at: Stop = s.scopes().search(env, name.as_str());
    let mut k: u64 = s.limit();
    while k > 0
        invariant
            s.continues(*old(s)),
            k <= old(s).rounds(),
            forall|answers: Answers<'a>| #[trigger]
                s.agrees(answers) ==> old(s).agrees(answers)
                    && resolve_name_step(name, env, old(s).world(answers))
                    == resolve_name_from(name, env, k as nat, at, s.world(answers)),
        decreases k,
    {
        match at {
            Stop::Global => {
                let g: Value = s.value(Request::GlobalObject)?;
                let there: bool = js_has_property(s, g, Key::Source(name))?;
                if there {
                    return Ok(RefBase::Global);
                } else {
                    return Ok(RefBase::Unresolvable);
                }
            },
            Stop::With(e, obj) => {
                let b: bool = with_has_binding(s, obj, Name::Source(name))?;
                if b {
                    return Ok(RefBase::With(obj));
                } else {
                    at = s.scopes().search_behind(e, name.as_str());
                }
            },
            Stop::Scope(e) => {
                return Ok(RefBase::Scope(e));
            },
        }
        k = k - 1;
    }
    return Err(Abrupt::Stopped);
}

/// Reads a variable where it was resolved.
pub open spec fn get_resolved_step<'a>(
    base: RefBase,
    name: &'a String,
    w: World<'a>,
) -> Step<'a, Value>
{
    match base {
        RefBase::Scope(e) => {
            if !w.scopes.binds(e, name@) {
                get_var_step(Name::Source(name), e, w)
            } else if w.scopes.read_view(e, name@) is Uninitialized {
                throws_about(
                    ErrorKind::ReferenceError,
                    "cannot access '",
                    "' before initialization",
                    Subject::Key(Key::Source(name)),
                    w,
                )
            } else {
                let from: Option<(Env, Name<'a>)> = w.scopes.import_at(e, name@);
                match from {
                    Some((e2, local)) => get_var_step(local, e2, w),
                    None => {
                        let v: Value = w.scopes.value_in(e, name@);
                        (Ok(v), w)
                    },
                }
            }
        },
        RefBase::With(obj) => read_with_step(obj, Name::Source(name), w),
        RefBase::Global => {
            next(
                asks(Request::GlobalObject, w),
                |g: Value, w: World<'a>|
                    asks(Request::GetMember { base: g, key: Key::Source(name) }, w),
            )
        },
        RefBase::Unresolvable => {
            throws_about(
                ErrorKind::ReferenceError,
                "",
                " is not defined",
                Subject::Key(Key::Source(name)),
                w,
            )
        },
    }
}

/// Reads a variable where it was resolved.
pub fn get_resolved<'h, 'a, H: Host<'a>>(
    s: &mut Session<'h, 'a, H>,
    base: RefBase,
    name: &'a String,
) -> (out: Result<Value, Abrupt<'a>>)
    ensures
        final(s).continues(*old(s)),
        forall|answers: Answers<'a>| #[trigger]
            final(s).agrees(answers) ==> old(s).agrees(answers) && (out, final(s).world(answers))
                == get_resolved_step(base, name, old(s).world(answers)),
{
    match base {
        RefBase::Scope(e) => {
            if !s.scopes().has_binding(e, name.as_str()) {
                return get_var(s, Name::Source(name), e);
            } else if s.scopes().in_dead_zone(e, name.as_str()) {
                return throw_about(
                    s,
                    ErrorKind::ReferenceError,
                    "cannot access '",
                    "' before initialization",
                    Subject::Key(Key::Source(name)),
                );
            } else {
                let from: Option<(Env, Name<'a>)> = s.scopes().import_source(e, name.as_str());
                match from {
                    Some((e2, local)) => {
                        return get_var(s, local, e2);
                    },
                    None => {
                        let v: Value = s.scopes().value_at(e, name.as_str());
                        return Ok(v);
                    },
                }
            }
        },
        RefBase::With(obj) => {
            return read_with(s, obj, Name::Source(name));
        },
        RefBase::Global => {
            let g: Value = s.value(Request::GlobalObject)?;
            return s.value(Request::GetMember { base: g, key: Key::Source(name) });
        },
        RefBase::Unresolvable => {
            return throw_about(
                s,
                ErrorKind::ReferenceError,
                "",
                " is not defined",
                Subject::Key(Key::Source(name)),
            );
        },
    }
}

/// Writes a variable where it was resolved. An import and a constant refuse, and so does what is
/// not initialized.
pub open spec fn put_resolved_step<'a>(
    base: RefBase,
    name: &'a String,
    value: Value,
    w: World<'a>,
) -> Step<'a, ()>
{
    match base {
        RefBase::Scope(e) => {
            let outcome: Put = w.scopes.put_view(e, name@, w.strict);
            match outcome {
                Put::Unbound => assign_var_step(Name::Source(name), value, e, w),
                Put::Import => {
                    throws_about(
                        ErrorKind::TypeError,
                        "assignment to import binding '",
                        "'",
                        Subject::Key(Key::Source(name)),
                        w,
                    )
                },
                Put::Uninitialized => {
                    throws_about(
                        ErrorKind::ReferenceError,
                        "cannot access '",
                        "' before initialization",
                        Subject::Key(Key::Source(name)),
                        w,
                    )
                },
                Put::Constant => {
                    throws_about(
                        ErrorKind::TypeError,
                        "assignment to constant '",
                        "'",
                        Subject::Key(Key::Source(name)),
                        w,
                    )
                },
                Put::Ignored => (Ok(()), w),
                Put::Stored => {
                    let w = w.store_var(e, Name::Source(name), value);
                    (Ok(()), w)
                },
            }
        },
        RefBase::With(obj) => {
            next(
                js_has_property_step(obj, Key::Source(name), w),
                |still: bool, w: World<'a>|
                    if !still && w.strict {
                        throws_about(
                            ErrorKind::ReferenceError,
                            "",
                            " is not defined",
                            Subject::Key(Key::Source(name)),
                            w,
                        )
                    } else {
                        next(
                            asks(
                                Request::SetMember { base: obj, key: Key::Source(name), value, strict: w.strict },
                                w,
                            ),
                            |v: Value, w: World<'a>| (Ok(()), w),
                        )
                    },
            )
        },
        RefBase::Global => {
            next(
                asks(Request::GlobalObject, w),
                |g: Value, w: World<'a>|
                    next(
                        if w.strict {
                            next(
                                js_has_property_step(g, Key::Source(name), w),
                                |there: bool, w: World<'a>| (Ok(!there), w),
                            )
                        } else {
                            (Ok(false), w)
                        },
                        |gone: bool, w: World<'a>|
                            if gone {
                                throws_about(
                                    ErrorKind::ReferenceError,
                                    "",
                                    " is not defined",
                                    Subject::Key(Key::Source(name)),
                                    w,
                                )
                            } else {
                                next(
                                    asks(
                                        Request::SetMember { base: g, key: Key::Source(name), value, strict: w.strict },
                                        w,
                                    ),
                                    |v: Value, w: World<'a>| (Ok(()), w),
                                )
                            },
                    ),
            )
        },
        RefBase::Unresolvable => {
            if w.strict {
                throws_about(
                    ErrorKind::ReferenceError,
                    "",
                    " is not defined",
                    Subject::Key(Key::Source(name)),
                    w,
                )
            } else {
                next(
                    asks(Request::GlobalObject, w),
                    |g: Value, w: World<'a>|
                        next(
                            asks(
                                Request::SetMember { base: g, key: Key::Source(name), value, strict: w.strict },
                                w,
                            ),
                            |v: Value, w: World<'a>| (Ok(()), w),
                        ),
                )
            }
        },
    }
}

/// Writes a variable where it was resolved. An import and a constant refuse, and so does what is
/// not initialized.
pub fn put_resolved<'h, 'a, H: Host<'a>>(
    s: &mut Session<'h, 'a, H>,
    base: RefBase,
    name: &'a String,
    value: Value,
) -> (out: Result<(), Abrupt<'a>>)
    ensures
        final(s).continues(*old(s)),
        forall|answers: Answers<'a>| #[trigger]
            final(s).agrees(answers) ==> old(s).agrees(answers) && (out, final(s).world(answers))
                == put_resolved_step(base, name, value, old(s).world(answers)),
{
    match base {
        RefBase::Scope(e) => {
            let outcome: Put = s.scopes().may_put(e, name.as_str(), s.strict_mode());
            match outcome {
                Put::Unbound => {
                    return assign_var(s, Name::Source(name), value, e);
                },
                Put::Import => {
                    return throw_about(
                        s,
                        ErrorKind::TypeError,
                        "assignment to import binding '",
                        "'",
                        Subject::Key(Key::Source(name)),
                    );
                },
                Put::Uninitialized => {
                    return throw_about(
                        s,
                        ErrorKind::ReferenceError,
                        "cannot access '",
                        "' before initialization",
                        Subject::Key(Key::Source(name)),
                    );
                },
                Put::Constant => {
                    return throw_about(
                        s,
                        ErrorKind::TypeError,
                        "assignment to constant '",
                        "'",
                        Subject::Key(Key::Source(name)),
                    );
                },
                Put::Ignored => {
                    return Ok(());
                },
                Put::Stored => {
                    s.store_var(e, Name::Source(name), value);
                    return Ok(());
                },
            }
        },
        RefBase::With(obj) => {
            let still: bool = js_has_property(s, obj, Key::Source(name))?;
            if !still && s.strict_mode() {
                return throw_about(
                    s,
                    ErrorKind::ReferenceError,
                    "",
                    " is not defined",
                    Subject::Key(Key::Source(name)),
                );
            } else {
                let v: Value = s.value(
                    Request::SetMember { base: obj, key: Key::Source(name), value, strict: s.strict_mode() },
                )?;
                return Ok(());
            }
        },
        RefBase::Global => {
            let g: Value = s.value(Request::GlobalObject)?;
            let gone: bool = if s.strict_mode() {
                let there: bool = js_has_property(s, g, Key::Source(name))?;
                !there
            } else {
                false
            };
            if gone {
                return throw_about(
                    s,
                    ErrorKind::ReferenceError,
                    "",
                    " is not defined",
                    Subject::Key(Key::Source(name)),
                );
            } else {
                let v: Value = s.value(
                    Request::SetMember { base: g, key: Key::Source(name), value, strict: s.strict_mode() },
                )?;
                return Ok(());
            }
        },
        RefBase::Unresolvable => {
            if s.strict_mode() {
                return throw_about(
                    s,
                    ErrorKind::ReferenceError,
                    "",
                    " is not defined",
                    Subject::Key(Key::Source(name)),
                );
            } else {
                let g: Value = s.value(Request::GlobalObject)?;
                let v: Value = s.value(
                    Request::SetMember { base: g, key: Key::Source(name), value, strict: s.strict_mode() },
                )?;
                return Ok(());
            }
        },
    }
}

/// `delete` of a name: whether it is gone. With `k` rounds left.
pub open spec fn delete_ident_from<'a>(
    name: &'a String,
    env: Env,
    k: nat,
    at: Stop,
    w: World<'a>,
) -> Step<'a, bool>
    decreases k,
{
    if k == 0 {
        (Err(Abrupt::Stopped), w)
    } else {
        match at {
            Stop::Global => {
                next(
                    asks(Request::GlobalObject, w),
                    |g: Value, w: World<'a>| delete_own_step(g, Key::Source(name), w),
                )
            },
            Stop::With(e, obj) => {
                next(
                    with_has_binding_step(obj, Name::Source(name), w),
                    |b: bool, w: World<'a>|
                        if b {
                            delete_own_step(obj, Key::Source(name), w)
                        } else {
                            delete_ident_from(
                                name,
                                env,
                                (k - 1) as nat,
                                w.scopes.stop_behind(e, name@),
                                w,
                            )
                        },
                )
            },
            Stop::Scope(e) => {
                if w.scopes.binding_at(e, name@).deletable && w.scopes.binds(e, name@) {
                    let w = w.unbind(e, Name::Source(name));
                    (Ok(true), w)
                } else {
                    (Ok(false), w)
                }
            },
        }
    }
}

/// `delete` of a name: whether it is gone.
pub open spec fn delete_ident_step<'a>(name: &'a String, env: Env, w: World<'a>) -> Step<'a, bool>
{
    delete_ident_from(name, env, w.limit, w.scopes.stop(env, name@), w)
}

/// `delete` of a name: whether it is gone.
pub fn delete_ident<'h, 'a, H: Host<'a>>(
    s: &mut Session<'h, 'a, H>,
    name: &'a String,
    env: Env,
) -> (out: Result<bool, Abrupt<'a>>)
    ensures
        final(s).continues(*old(s)),
        forall|answers: Answers<'a>| #[trigger]
            final(s).agrees(answers) ==> old(s).agrees(answers) && (out, final(s).world(answers))
                == delete_ident_step(name, env, old(s).world(answers)),
{
    let mut at: Stop = s.scopes().search(env, name.as_str());
    let mut k: u64 = s.limit();
    while k > 0
        invariant
            s.continues(*old(s)),
            k <= old(s).rounds(),
            forall|answers: Answers<'a>| #[trigger]
                s.agrees(answers) ==> old(s).agrees(answers)
                    && delete_ident_step(name, env, old(s).world(answers))
                    == delete_ident_from(name, env, k as nat, at, s.world(answers)),
        decreases k,
    {
        match at {
            Stop::Global => {
                let g: Value = s.value(Request::GlobalObject)?;
                return delete_own(s, g, Key::Source(name));
            },
            Stop::With(e, obj) => {
                let b: bool = with_has_binding(s, obj, Name::Source(name))?;
                if b {
                    return delete_own(s, obj, Key::Source(name));
                } else {
                    at = s.scopes().search_behind(e, name.as_str());
                }
            },
            Stop::Scope(e) => {
                if s.scopes().is_deletable(e, name.as_str()) {
                    s.unbind(e, Name::Source(name));
                    return Ok(true);
                } else {
                    return Ok(false);
                }
            },
        }
        k = k - 1;
    }
    return Err(Abrupt::Stopped);
}

/// The object that `super` properties are read from: the prototype of the home object, or the one
/// that a class gives.
pub open spec fn super_base_step<'a>(env: Env, w: World<'a>) -> Step<'a, Value>
{
    let home: Option<Value> = w.scopes.bound_value("%homeobject%"@, env);
    match home {
        Some(Value::Obj(h)) => asks(Request::GetPrototype(Value::Obj(h)), w),
        _ => {
            let proto: Option<Value> = w.scopes.bound_value("%superproto%"@, env);
            match proto {
                Some(v) => (Ok(v), w),
                None => {
                    throws(ErrorKind::SyntaxError, "'super' keyword unexpected here", w)
                },
            }
        },
    }
}

/// The object that `super` properties are read from: the prototype of the home object, or the one
/// that a class gives.
pub fn super_base<'h, 'a, H: Host<'a>>(
    s: &mut Session<'h, 'a, H>,
    env: Env,
) -> (out: Result<Value, Abrupt<'a>>)
    ensures
        final(s).continues(*old(s)),
        forall|answers: Answers<'a>| #[trigger]
            final(s).agrees(answers) ==> old(s).agrees(answers) && (out, final(s).world(answers))
                == super_base_step(env, old(s).world(answers)),
{
    let home: Option<Value> = s.scopes().peek_binding("%homeobject%", env);
    match home {
        Some(Value::Obj(h)) => {
            return s.value(Request::GetPrototype(Value::Obj(h)));
        },
        _ => {
            let proto: Option<Value> = s.scopes().peek_binding("%superproto%", env);
            match proto {
                Some(v) => {
                    return Ok(v);
                },
                None => {
                    return throw(s, ErrorKind::SyntaxError, "'super' keyword unexpected here");
                },
            }
        },
    }
}

/// The key that a private name stands for at its place.
pub open spec fn resolve_private_step<'a>(name: &'a String, env: Env, w: World<'a>) -> Step<'a, u64>
{
    let key: Option<u64> = w.scopes.private_key(env, name@);
    match key {
        Some(k) => (Ok(k), w),
        None => {
            let t: Value = w.next_text();
            let w = w.add_text(name@);
            match t {
                Value::Str(at) => (Ok(at), w),
                _ => (Ok(0), w),
            }
        },
    }
}

/// The key that a private name stands for at its place.
pub fn resolve_private<'h, 'a, H: Host<'a>>(
    s: &mut Session<'h, 'a, H>,
    name: &'a String,
    env: Env,
) -> (out: Result<u64, Abrupt<'a>>)
    ensures
        final(s).continues(*old(s)),
        forall|answers: Answers<'a>| #[trigger]
            final(s).agrees(answers) ==> old(s).agrees(answers) && (out, final(s).world(answers))
                == resolve_private_step(name, env, old(s).world(answers)),
{
    let key: Option<u64> = s.scopes().resolve_private(name.as_str(), env);
    match key {
        Some(k) => {
            return Ok(k);
        },
        None => {
            let t: Value = s.add_text(name.as_str().to_owned());
            match t {
                Value::Str(at) => {
                    return Ok(at);
                },
                _ => {
                    return Ok(0);
                },
            }
        },
    }
}

/// What the global object has under a name.
pub open spec fn global_property_step<'a>(
    g: Value,
    key: Key<'a>,
    w: World<'a>,
) -> Step<'a, Option<GlobalProperty>>
{
    next(
        asks_prop(Request::OwnProperty { base: g, key }, w),
        |own: Option<Property>, w: World<'a>|
            match own {
                Some(p) => {
                    (Ok(Some(GlobalProperty { configurable: p.configurable, accessor: p.accessor, writable: p.writable, enumerable: p.enumerable })), w)
                },
                None => (Ok(None), w),
            },
    )
}

/// What the global object has under a name.
pub fn global_property<'h, 'a, H: Host<'a>>(
    s: &mut Session<'h, 'a, H>,
    g: Value,
    key: Key<'a>,
) -> (out: Result<Option<GlobalProperty>, Abrupt<'a>>)
    ensures
        final(s).continues(*old(s)),
        forall|answers: Answers<'a>| #[trigger]
            final(s).agrees(answers) ==> old(s).agrees(answers) && (out, final(s).world(answers))
                == global_property_step(g, key, old(s).world(answers)),
{
    let own: Option<Property> = s.prop(Request::OwnProperty { base: g, key })?;
    match own {
        Some(p) => {
            return Ok(
                Some(GlobalProperty { configurable: p.configurable, accessor: p.accessor, writable: p.writable, enumerable: p.enumerable }),
            );
        },
        None => {
            return Ok(None);
        },
    }
}

/// Copies the function of a block to the global object's property of its name.
pub open spec fn sync_global_step<'a>(n: &'a String, v: Value, w: World<'a>) -> Step<'a, ()>
{
    next(
        asks(Request::GlobalObject, w),
        |g: Value, w: World<'a>|
            next(
                global_property_step(g, Key::Source(n), w),
                |existing: Option<GlobalProperty>, w: World<'a>|
                    next(
                        asks_flag(Request::IsExtensible(g), w),
                        |open: bool, w: World<'a>| {
                            let effect: GlobalSync = global_effect(existing, open);
                            match effect {
                                GlobalSync::SetValue => {
                                    set_own_value_step(g, Key::Source(n), v, w)
                                },
                                GlobalSync::Add => {
                                    let w = w.ask(
                                        Request::DefineOwn { base: g, key: Key::Source(n), prop: Property::of(v, true, true, true) },
                                    ).1;
                                    (Ok(()), w)
                                },
                                GlobalSync::Nothing => (Ok(()), w),
                            }
                        },
                    ),
            ),
    )
}

/// Copies the function of a block to the global object's property of its name.
pub fn sync_global<'h, 'a, H: Host<'a>>(
    s: &mut Session<'h, 'a, H>,
    n: &'a String,
    v: Value,
) -> (out: Result<(), Abrupt<'a>>)
    ensures
        final(s).continues(*old(s)),
        forall|answers: Answers<'a>| #[trigger]
            final(s).agrees(answers) ==> old(s).agrees(answers) && (out, final(s).world(answers))
                == sync_global_step(n, v, old(s).world(answers)),
{
    let g: Value = s.value(Request::GlobalObject)?;
    let existing: Option<GlobalProperty> = global_property(s, g, Key::Source(n))?;
    let open: bool = s.flag(Request::IsExtensible(g))?;
    let effect: GlobalSync = global_sync(existing, open);
    match effect {
        GlobalSync::SetValue => {
            return set_own_value(s, g, Key::Source(n), v);
        },
        GlobalSync::Add => {
            let _ = s.ask(
                Request::DefineOwn { base: g, key: Key::Source(n), prop: Property::plain(v) },
            );
            return Ok(());
        },
        GlobalSync::Nothing => {
            return Ok(());
        },
    }
}

/// Copies the function of a block to the variable that the block's function declares. Where there
/// is no block, the function gets a scope that binds its name.
pub open spec fn annexb_fn_sync_eval_step<'a>(
    f: &'a Function,
    n: &'a String,
    env: Env,
    w: World<'a>,
) -> Step<'a, ()>
{
    let own: Option<Value> = w.scopes.own_function(env, n@);
    next(
        match own {
            Some(x) => (Ok(x), w),
            None => {
                let block: Env = w.next_scope();
                let w = w.new_scope(Some(env), None, false, false);
                next(
                    asks(Request::MakeFunction { func: f, env: block }, w),
                    |x: Value, w: World<'a>| {
                        let w = w.bind_var(Name::Source(n), x, block);
                        (Ok(x), w)
                    },
                )
            },
        },
        |v: Value, w: World<'a>| {
            let place: SyncPlace = w.scopes.sync_place(env, n@);
            match place {
                SyncPlace::Replace(e) => {
                    let w = w.set_value(e, Name::Source(n), v);
                    (Ok(()), w)
                },
                SyncPlace::Create(e) => {
                    let w = w.bind_deletable(Name::Source(n), v, e);
                    (Ok(()), w)
                },
                SyncPlace::Global => sync_global_step(n, v, w),
            }
        },
    )
}

/// Copies the function of a block to the variable that the block's function declares. Where there
/// is no block, the function gets a scope that binds its name.
pub fn annexb_fn_sync_eval<'h, 'a, H: Host<'a>>(
    s: &mut Session<'h, 'a, H>,
    f: &'a Function,
    n: &'a String,
    env: Env,
) -> (out: Result<(), Abrupt<'a>>)
    ensures
        final(s).continues(*old(s)),
        forall|answers: Answers<'a>| #[trigger]
            final(s).agrees(answers) ==> old(s).agrees(answers) && (out, final(s).world(answers))
                == annexb_fn_sync_eval_step(f, n, env, old(s).world(answers)),
{
    let own: Option<Value> = s.scopes().block_function(env, n.as_str());
    let v: Value = match own {
        Some(x) => {
            x
        },
        None => {
            let block: Env = s.new_scope(Some(env), None, false, false);
            let x: Value = s.value(Request::MakeFunction { func: f, env: block })?;
            s.bind_var(Name::Source(n), x, block);
            x
        },
    };
    let place: SyncPlace = s.scopes().place_of_sync(env, n.as_str());
    match place {
        SyncPlace::Replace(e) => {
            s.set_value(e, Name::Source(n), v);
            return Ok(());
        },
        SyncPlace::Create(e) => {
            s.bind_deletable(Name::Source(n), v, e);
            return Ok(());
        },
        SyncPlace::Global => {
            return sync_global(s, n, v);
        },
    }
}

// ---- constructors

/// Whether a value can be constructed: a proxy or a bound function if its target can, a function of
/// the program if it is an ordinary one, a built-in function if it says so or has a `prototype`
/// with a value. With `k` rounds left.
pub open spec fn value_is_constructor_from<'a>(
    v: Value,
    k: nat,
    cur: Value,
    w: World<'a>,
) -> Step<'a, bool>
    decreases k,
{
    if k == 0 {
        (Err(Abrupt::Stopped), w)
    } else {
        if !matches!(cur, Value::Obj(_)) {
            (Ok(false), w)
        } else {
            next(
                asks_flag(Request::IsProxy(cur), w),
                |proxy: bool, w: World<'a>|
                    if proxy {
                        next(
                            asks(Request::ProxyTarget(cur), w),
                            |target: Value, w: World<'a>|
                                value_is_constructor_from(v, (k - 1) as nat, target, w),
                        )
                    } else {
                        next(
                            asks_flag(Request::IsUserFunction(cur), w),
                            |user: bool, w: World<'a>|
                                if user {
                                    asks_flag(Request::IsOrdinaryFunction(cur), w)
                                } else {
                                    next(
                                        asks_flag(Request::IsNativeFunction(cur), w),
                                        |native: bool, w: World<'a>|
                                            if native {
                                                native_constructs_step(cur, w)
                                            } else {
                                                next(
                                                    asks_flag(Request::IsBound(cur), w),
                                                    |bound: bool, w: World<'a>|
                                                        if bound {
                                                            next(
                                                                asks(Request::BoundTarget(cur), w),
                                                                |target: Value, w: World<'a>|
                                                                    value_is_constructor_from(
                                                                        v,
                                                                        (k - 1) as nat,
                                                                        target,
                                                                        w,
                                                                    ),
                                                            )
                                                        } else {
                                                            (Ok(false), w)
                                                        },
                                                )
                                            },
                                    )
                                },
                        )
                    },
            )
        }
    }
}

/// Whether a value can be constructed: a proxy or a bound function if its target can, a function of
/// the program if it is an ordinary one, a built-in function if it says so or has a `prototype`
/// with a value.
pub open spec fn value_is_constructor_step<'a>(v: Value, w: World<'a>) -> Step<'a, bool>
{
    value_is_constructor_from(v, w.limit, v, w)
}

/// Whether a value can be constructed: a proxy or a bound function if its target can, a function of
/// the program if it is an ordinary one, a built-in function if it says so or has a `prototype`
/// with a value.
#[verifier::spinoff_prover]
pub fn value_is_constructor<'h, 'a, H: Host<'a>>(
    s: &mut Session<'h, 'a, H>,
    v: Value,
) -> (out: Result<bool, Abrupt<'a>>)
    ensures
        final(s).continues(*old(s)),
        forall|answers: Answers<'a>| #[trigger]
            final(s).agrees(answers) ==> old(s).agrees(answers) && (out, final(s).world(answers))
                == value_is_constructor_step(v, old(s).world(answers)),
{
    let mut cur: Value = v;
    let mut k: u64 = s.limit();
    while k > 0
        invariant
            s.continues(*old(s)),
            k <= old(s).rounds(),
            forall|answers: Answers<'a>| #[trigger]
                s.agrees(answers) ==> old(s).agrees(answers)
                    && value_is_constructor_step(v, old(s).world(answers))
                    == value_is_constructor_from(v, k as nat, cur, s.world(answers)),
        decreases k,
    {
        if !matches!(cur, Value::Obj(_)) {
            return Ok(false);
        }
        let proxy: bool = s.flag(Request::IsProxy(cur))?;
        if proxy {
            let target: Value = s.value(Request::ProxyTarget(cur))?;
            cur = target;
        } else {
            let user: bool = s.flag(Request::IsUserFunction(cur))?;
            if user {
                return s.flag(Request::IsOrdinaryFunction(cur));
            } else {
                let native: bool = s.flag(Request::IsNativeFunction(cur))?;
                if native {
                    return native_constructs(s, cur);
                } else {
                    let bound: bool = s.flag(Request::IsBound(cur))?;
                    if bound {
                        let target: Value = s.value(Request::BoundTarget(cur))?;
                        cur = target;
                    } else {
                        return Ok(false);
                    }
                }
            }
        }
        k = k - 1;
    }
    return Err(Abrupt::Stopped);
}

/// Whether a built-in function can be constructed.
pub open spec fn native_constructs_step<'a>(f: Value, w: World<'a>) -> Step<'a, bool>
{
    next(
        asks_flag(Request::IsMarkedConstructor(f), w),
        |says: bool, w: World<'a>|
            if says {
                (Ok(true), w)
            } else {
                next(
                    asks_prop(Request::OwnProperty { base: f, key: Key::Fixed("prototype") }, w),
                    |own: Option<Property>, w: World<'a>|
                        match own {
                            Some(p) => (Ok(!p.accessor), w),
                            None => (Ok(false), w),
                        },
                )
            },
    )
}

/// Whether a built-in function can be constructed.
pub fn native_constructs<'h, 'a, H: Host<'a>>(
    s: &mut Session<'h, 'a, H>,
    f: Value,
) -> (out: Result<bool, Abrupt<'a>>)
    ensures
        final(s).continues(*old(s)),
        forall|answers: Answers<'a>| #[trigger]
            final(s).agrees(answers) ==> old(s).agrees(answers) && (out, final(s).world(answers))
                == native_constructs_step(f, old(s).world(answers)),
{
    let says: bool = s.flag(Request::IsMarkedConstructor(f))?;
    if says {
        return Ok(true);
    }
    let own: Option<Property> = s.prop(
        Request::OwnProperty { base: f, key: Key::Fixed("prototype") },
    )?;
    match own {
        Some(p) => {
            return Ok(!p.accessor);
        },
        None => {
            return Ok(false);
        },
    }
}

} // verus!
