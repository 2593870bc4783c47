//! What holds of assignment targets and patterns, whatever the host answers.
use vstd::prelude::*;

use crate::ast::{ArrayElem, ArrayPatElem, Class, Expr, ObjPatProp, Pattern, PropDef, PropKey};
use crate::interp::class::eval_class_step;
use crate::interp::eval::{
    assign_elem_step, assign_elems_from, assign_elems_step, assign_item_default_step,
    assign_item_plain_step, assign_item_step, assign_keyed_step, assign_plain_step,
    assign_props_from, assign_props_step, assign_to_target_step, base_op, bind_elem_step,
    bind_elems_step, bind_name_step, bind_pattern_step, bind_prop_step, bind_props_from,
    bind_props_step, close_after_step, default_for_step, eval_assign_step, eval_named_step,
    eval_prop_key_step, eval_step, get_reference_step, literal_target, logical_assign,
    name_if_anonymous_step, name_of, private_name, pull_rest_step, put_reference_step,
    resolve_reference_step, wants_right_step, with_default_step, BindMode, RefKey, Reference,
};
use crate::interp::object::{
    assign_var_step, copy_data_properties_step, get_private_member_step, get_var_step,
    put_resolved_step, resolve_name_step, set_private_member_step, super_base_step,
};
use crate::interp::object_laws::complains;
use crate::interp::operate::{
    drain_from, drain_step, get_iterator_step, iterator_step_step, key_value_step,
    name_function_step, to_boolean_step, to_property_key_step, MAX_ARRAY_OP_LEN,
};
use crate::interp::operator_laws::operators_differ;
use crate::interp::promise_laws::said;
use crate::interp::session::{Abrupt, Answer, Env, ErrorKind, Key, Name, Request, Value, World};
use crate::interp::tail::takes_right_step;
use crate::scan::anonymous_fn;
use crate::scope::Write;
use crate::value::props::Property;

verus! {

// ---- references

/// A property reference is read at the object and key that it was resolved to; a key that is a value is
/// converted once, and the reference that comes back has the converted key.
pub proof fn property_references_are_read<'a>(base: Value, key: Key<'a>, t: u64, w: World<'a>)
    ensures
        ({
            let (r, after) = get_reference_step(
                Reference::Property { base, key: RefKey::Known(key) },
                w,
            );
            &&& after.asked == w.asked.push(Request::GetMember { base, key })
            &&& said(w, w.asked.len()) matches Answer::Value(v) ==> (r matches Ok(got) && got.0 == v
                && got.1 == (Reference::Property { base, key: RefKey::Known(key) }))
        }),
        base is Obj ==> ({
            let (r, after) = get_reference_step(
                Reference::Property { base, key: RefKey::Raw(Value::Str(t)) },
                w,
            );
            &&& after.asked == w.asked.push(Request::GetMember { base, key: Key::Made(t) })
            &&& said(w, w.asked.len()) matches Answer::Value(v) ==> (r matches Ok(got) && got.0 == v
                && got.1 == (Reference::Property { base, key: RefKey::Known(Key::Made(t)) }))
        }),
        base is Null || base is Undefined ==> ({
            let (r, after) = get_reference_step(
                Reference::Property { base, key: RefKey::Raw(Value::Str(t)) },
                w,
            );
            !(r is Ok) && complains(after, ErrorKind::TypeError)
        }),
{
}

/// A value is written to the object and key that a property reference was resolved to.
pub proof fn property_references_are_written<'a>(
    base: Value,
    key: Key<'a>,
    t: u64,
    v: Value,
    w: World<'a>,
)
    ensures
        put_reference_step(
            Reference::Property { base, key: RefKey::Known(key) },
            v,
            w,
        ).1.asked == w.asked.push(Request::SetMember { base, key, value: v, strict: w.strict }),
        base is Obj ==> put_reference_step(
            Reference::Property { base, key: RefKey::Raw(Value::Str(t)) },
            v,
            w,
        ).1.asked == w.asked.push(
            Request::SetMember { base, key: Key::Made(t), value: v, strict: w.strict },
        ),
        !(said(w, w.asked.len()) is Throw) && !(said(w, w.asked.len()) is Return) ==> put_reference_step(
            Reference::Property { base, key: RefKey::Known(key) },
            v,
            w,
        ).0 is Ok,
{
}

/// A property of `super` is read and written on the home object's prototype, with `this` as the receiver.
pub proof fn super_references<'a>(
    proto: u64,
    receiver: Value,
    key: Key<'a>,
    v: Value,
    w: World<'a>,
)
    ensures
        ({
            let place = Reference::Super {
                proto: Value::Obj(proto),
                receiver,
                key: RefKey::Known(key),
            };
            &&& get_reference_step(place, w).1.asked == w.asked.push(
                Request::GetMemberFor { base: Value::Obj(proto), key, receiver },
            )
            &&& said(w, w.asked.len()) matches Answer::Value(x) ==> (get_reference_step(place, w).0
                matches Ok(got) && got.0 == x)
            &&& put_reference_step(place, v, w).1.asked == w.asked.push(
                Request::SetMemberFor {
                    base: Value::Obj(proto),
                    key,
                    value: v,
                    receiver,
                    strict: w.strict,
                },
            )
        }),
{
}

/// What a target resolves to: the object of a property evaluated once, a key as it is written, and for a
/// private name the key that it stands for.
pub proof fn targets_resolve<'a>(target: &'a Expr, env: Env, depth: u64, w: World<'a>)
    ensures
        target matches Expr::Member { obj, prop, .. } ==> (!(**obj is Super) ==> ({
            let (b, w1) = eval_step(&**obj, env, depth, w);
            b matches Ok(base) ==> {
                &&& !private_name(prop@) ==> resolve_reference_step(target, env, depth, w) == (
                    Ok::<Reference<'a>, Abrupt<'a>>(
                        Reference::Property { base, key: RefKey::Known(Key::Source(prop)) },
                    ),
                    w1,
                )
                &&& private_name(prop@) ==> match w1.scopes.private_key(env, prop@) {
                    Some(hidden) => resolve_reference_step(target, env, depth, w) == (
                        Ok::<Reference<'a>, Abrupt<'a>>(Reference::Private { base, hidden }),
                        w1,
                    ),
                    None => true,
                }
            }
        })),
        target matches Expr::Index { obj, index, .. } ==> (!(**obj is Super) ==> ({
            let (b, w1) = eval_step(&**obj, env, depth, w);
            let (i, w2) = eval_step(&**index, env, depth, w1);
            b matches Ok(base) ==> (i matches Ok(k) ==> resolve_reference_step(target, env, depth, w) == (
                Ok::<Reference<'a>, Abrupt<'a>>(
                    Reference::Property { base, key: RefKey::Raw(k) },
                ),
                w2,
            ))
        })),
        target matches Expr::Member { obj, prop, .. } ==> (**obj is Super ==> ({
            let (b, w1) = super_base_step(env, w);
            let (t, w2) = get_var_step(Name::Fixed("this"), env, w1);
            b matches Ok(proto) ==> (t matches Ok(receiver) ==> resolve_reference_step(
                target,
                env,
                depth,
                w,
            ) == (
                Ok::<Reference<'a>, Abrupt<'a>>(
                    Reference::Super { proto, receiver, key: RefKey::Known(Key::Source(prop)) },
                ),
                w2,
            ))
        })),
        target is Num || target is Str || target is Binary ==> ({
            let (r, after) = resolve_reference_step(target, env, depth, w);
            !(r is Ok) && complains(after, ErrorKind::ReferenceError)
        }),
{
}

// ---- assignment

/// An assignment to an array or object literal takes the value apart, and is that value.
pub proof fn assignments_take_values_apart<'a>(e: &'a Expr, env: Env, depth: u64, w: World<'a>)
    requires
        e matches Expr::Assign { op, target, .. } && op@ == "="@ && literal_target(&**target),
    ensures
        e matches Expr::Assign { target, value, .. } && {
            let (v, w1) = eval_step(&**value, env, depth, w);
            v matches Ok(x) ==> ({
                let (u, w2) = assign_to_target_step(&**target, x, env, depth, w1);
                &&& u is Ok ==> eval_step(e, env, depth, w) == (Ok::<Value, Abrupt<'a>>(x), w2)
                &&& u matches Err(a) ==> eval_step(e, env, depth, w) == (Err::<Value, Abrupt<'a>>(a), w2)
            })
        },
{
    assert(eval_assign_step(e, env, depth, w) == eval_step(e, env, depth, w));
}

/// A logical assignment whose right side is not wanted is the target's value, and writes nothing; else the
/// right side is written to the target and is the value.
pub proof fn logical_assignments<'a>(
    e: &'a Expr,
    place: Reference<'a>,
    old_value: Value,
    known: Reference<'a>,
    env: Env,
    depth: u64,
    w: World<'a>,
)
    requires
        e matches Expr::Assign { op, target, value } && logical_assign(op@) && op@ != "="@
            && !anonymous_fn(&**value) && ({
            let (r, w1) = resolve_reference_step(&**target, env, depth, w);
            &&& r == Ok::<Reference<'a>, Abrupt<'a>>(place)
            &&& get_reference_step(place, w1).0 == Ok::<(Value, Reference<'a>), Abrupt<'a>>(
                (old_value, known),
            )
        }),
    ensures
        e matches Expr::Assign { op, target, value } && {
            let w1 = resolve_reference_step(&**target, env, depth, w).1;
            let w2 = get_reference_step(place, w1).1;
            let (b, w3) = wants_right_step(base_op(op), old_value, w2);
            let (v, w4) = eval_step(&**value, env, depth, w3);
            let all = eval_step(e, env, depth, w);
            &&& b == Ok::<bool, Abrupt<'a>>(false) ==> all == (
                Ok::<Value, Abrupt<'a>>(old_value),
                w3,
            )
            &&& b == Ok::<bool, Abrupt<'a>>(true) ==> (v matches Ok(x) ==> ({
                let (u, w5) = put_reference_step(known, x, w4);
                u is Ok ==> all == (Ok::<Value, Abrupt<'a>>(x), w5)
            }))
        },
{
    if let Expr::Assign { op, target, value } = e {
        let w1 = resolve_reference_step(&**target, env, depth, w).1;
        let w2 = get_reference_step(place, w1).1;
        let w3 = wants_right_step(base_op(*op), old_value, w2).1;
        let (v, w4) = eval_step(&**value, env, depth, w3);
        if let Ok(x) = v {
            assert(name_if_anonymous_step(&**value, name_of(&**target), x, w4) == (
                Ok::<(), Abrupt<'a>>(()),
                w4,
            ));
        }
    }
    assert(eval_assign_step(e, env, depth, w) == eval_step(e, env, depth, w));
}

/// The right side of `&&` is wanted behind what counts as true, that of `||` behind what counts as false and
/// that of `??` behind `undefined` and `null`.
pub proof fn right_sides_are_wanted<'a>(v: Value, b: bool, w: World<'a>)
    requires
        to_boolean_step(v, w).0 == Ok::<bool, Abrupt<'a>>(b),
    ensures
        wants_right_step("&&", v, w).0 == Ok::<bool, Abrupt<'a>>(b),
        wants_right_step("||", v, w).0 == Ok::<bool, Abrupt<'a>>(!b),
        wants_right_step("??", v, w).0 == Ok::<bool, Abrupt<'a>>(v is Undefined || v is Null),
        takes_right_step("&&", v, w).0 == Ok::<bool, Abrupt<'a>>(b),
        takes_right_step("||", v, w).0 == Ok::<bool, Abrupt<'a>>(!b),
        takes_right_step("??", v, w).0 == Ok::<bool, Abrupt<'a>>(v is Undefined || v is Null),
{
    operators_differ();
}

/// Each target takes the value: a name as an assignment, a property of the object that is evaluated, and an
/// array or object literal part by part.
pub proof fn targets_take_values<'a>(target: &'a Expr, v: Value, env: Env, depth: u64, w: World<'a>)
    ensures
        target matches Expr::Ident(name) ==> assign_to_target_step(target, v, env, depth, w)
            == assign_var_step(Name::Source(name), v, env, w),
        target matches Expr::Member { obj, prop, .. } ==> (!(**obj is Super) && !private_name(prop@) ==> ({
            let (b, w1) = eval_step(&**obj, env, depth, w);
            b matches Ok(base) ==> assign_to_target_step(target, v, env, depth, w).1.asked
                == w1.asked.push(
                Request::SetMember { base, key: Key::Source(prop), value: v, strict: w1.strict },
            )
        })),
        target matches Expr::Array(elems) ==> ({
            let (it, w1) = get_iterator_step(v, w);
            it matches Ok(pair) ==> ({
                let (r, w2) = assign_elems_step(elems, pair.0, pair.1, env, depth, w1);
                assign_to_target_step(target, v, env, depth, w) == close_after_step(
                    pair.0,
                    r.1,
                    r.0,
                    w2,
                )
            })
        }),
        target matches Expr::Object(props) ==> {
            &&& v is Undefined || v is Null ==> !(assign_to_target_step(target, v, env, depth, w).0 is Ok)
                && complains(
                assign_to_target_step(target, v, env, depth, w).1,
                ErrorKind::TypeError,
            )
            &&& !(v is Undefined || v is Null) ==> assign_to_target_step(target, v, env, depth, w)
                == assign_props_step(
                props,
                v,
                w.next_list(),
                env,
                depth,
                w.new_list(Seq::empty()),
            )
        },
        target is Num || target is Str || target is Binary ==> !(assign_to_target_step(
            target,
            v,
            env,
            depth,
            w,
        ).0 is Ok),
{
}

/// A property of an object target takes what the host reads under its key, or the default where that is
/// `undefined`; the target is resolved before the property is read.
pub proof fn object_targets_read_properties<'a>(
    t: &'a Expr,
    place: Reference<'a>,
    source: Value,
    key: Key<'a>,
    v: Value,
    env: Env,
    depth: u64,
    w: World<'a>,
)
    ensures
        !(t is Assign) && !literal_target(t) && resolve_reference_step(t, env, depth, w).0 == Ok::<
            Reference<'a>,
            Abrupt<'a>,
        >(place) ==> ({
            let w1 = resolve_reference_step(t, env, depth, w).1;
            let w2 = w1.ask(Request::GetMember { base: source, key }).1;
            said(w1, w1.asked.len()) == Answer::<'a>::Value(v) ==> assign_keyed_step(
                t,
                source,
                key,
                env,
                depth,
                w,
            ) == put_reference_step(place, v, w2)
        }),
        !(t is Assign) && literal_target(t) && said(w, w.asked.len()) == Answer::<'a>::Value(v)
            ==> assign_keyed_step(t, source, key, env, depth, w) == assign_to_target_step(
            t,
            v,
            env,
            depth,
            w.ask(Request::GetMember { base: source, key }).1,
        ),
        t matches Expr::Assign { op, target, value } ==> (op@ == "="@ && !literal_target(&**target)
            && resolve_reference_step(&**target, env, depth, w).0 == Ok::<Reference<'a>, Abrupt<'a>>(
            place,
        ) ==> ({
            let w1 = resolve_reference_step(&**target, env, depth, w).1;
            let w2 = w1.ask(Request::GetMember { base: source, key }).1;
            let (x, w3) = with_default_step(v, &**value, name_of(&**target), env, depth, w2);
            said(w1, w1.asked.len()) == Answer::<'a>::Value(v) ==> (x matches Ok(y)
                ==> assign_keyed_step(t, source, key, env, depth, w) == put_reference_step(place, y, w3))
        })),
{
    if !(t is Assign) {
        assert(assign_plain_step(t, source, key, env, depth, w) == assign_keyed_step(
            t,
            source,
            key,
            env,
            depth,
            w,
        ));
    }
}

/// An element of an array target takes the next value of the iterator: the target is resolved, the iterator
/// is asked, and the value is written to where the target was resolved to.
pub proof fn array_targets_take_values<'a>(
    el: &'a ArrayElem,
    t: &'a Expr,
    place: Reference<'a>,
    iter: Value,
    method: Value,
    env: Env,
    depth: u64,
    w: World<'a>,
)
    requires
        *el == ArrayElem::Item(*t),
        !(t is Assign),
        !literal_target(t),
        resolve_reference_step(t, env, depth, w).0 == Ok::<Reference<'a>, Abrupt<'a>>(place),
    ensures
        ({
            let w1 = resolve_reference_step(t, env, depth, w).1;
            let (step, w2) = iterator_step_step(iter, method, w1);
            let (r, after) = assign_elem_step(el, iter, method, false, env, depth, w);
            match step {
                Ok(Some(v)) => r.0 == put_reference_step(place, v, w2).0 && !r.1 && after
                    == put_reference_step(place, v, w2).1,
                Ok(None) => r.0 == put_reference_step(place, Value::Undefined, w2).0 && r.1 && after
                    == put_reference_step(place, Value::Undefined, w2).1,
                Err(a) => r.0 == Err::<(), Abrupt<'a>>(a) && r.1 && after == w2,
            }
        }),
{
    let w1 = resolve_reference_step(t, env, depth, w).1;
    assert(assign_item_step(t, iter, method, false, env, depth, w) == assign_elem_step(
        el,
        iter,
        method,
        false,
        env,
        depth,
        w,
    ));
    assert(assign_item_plain_step(t, iter, method, false, env, depth, w) == assign_item_step(
        t,
        iter,
        method,
        false,
        env,
        depth,
        w,
    ));
}

/// An element with a default takes the default where the iterator gives `undefined`.
pub proof fn array_targets_have_defaults<'a>(
    t: &'a Expr,
    place: Reference<'a>,
    iter: Value,
    method: Value,
    env: Env,
    depth: u64,
    w: World<'a>,
)
    requires
        t matches Expr::Assign { op, target, value } && op@ == "="@ && !literal_target(&**target)
            && resolve_reference_step(&**target, env, depth, w).0 == Ok::<Reference<'a>, Abrupt<'a>>(
            place,
        ),
    ensures
        t matches Expr::Assign { target, value, .. } && {
            let w1 = resolve_reference_step(&**target, env, depth, w).1;
            let (step, w2) = iterator_step_step(iter, method, w1);
            let (r, after) = assign_item_step(t, iter, method, false, env, depth, w);
            step matches Ok(Some(v)) ==> ({
                let (x, w3) = with_default_step(v, &**value, name_of(&**target), env, depth, w2);
                x matches Ok(y) ==> r.0 == put_reference_step(place, y, w3).0 && !r.1 && after
                    == put_reference_step(place, y, w3).1
            })
        },
{
    assert(assign_item_default_step(t, iter, method, false, env, depth, w) == assign_item_step(
        t,
        iter,
        method,
        false,
        env,
        depth,
        w,
    ));
}

/// Elements of an array target take their values one after the other, and one that fails ends it.
pub proof fn array_targets_go_on<'a>(
    elems: &'a Vec<ArrayElem>,
    iter: Value,
    method: Value,
    env: Env,
    depth: u64,
    i: nat,
    done: bool,
    w: World<'a>,
)
    requires
        i < elems@.len(),
    ensures
        ({
            let (r, w1) = assign_elem_step(&elems@[i as int], iter, method, done, env, depth, w);
            let all = assign_elems_from(elems, iter, method, env, depth, i, done, w);
            &&& r.0 is Ok ==> all == assign_elems_from(elems, iter, method, env, depth, i + 1, r.1, w1)
            &&& r.0 matches Err(a) ==> all == ((Err::<(), Abrupt<'a>>(a), r.1), w1)
        }),
        assign_elems_from(elems, iter, method, env, depth, elems@.len(), done, w) == (
            (Ok::<(), Abrupt<'a>>(()), done),
            w,
        ),
{
}

/// A hole takes a value of the iterator and drops it.
pub proof fn holes_drop_values<'a>(
    iter: Value,
    method: Value,
    mode: BindMode,
    env: Env,
    depth: u64,
    w: World<'a>,
)
    ensures
        ({
            let (step, w1) = iterator_step_step(iter, method, w);
            let bound = bind_elem_step(&ArrayPatElem::Hole, iter, method, false, env, mode, depth, w);
            let assigned = assign_elem_step(&ArrayElem::Hole, iter, method, false, env, depth, w);
            &&& bound == assigned
            &&& step is Ok ==> bound == (
                (Ok::<(), Abrupt<'a>>(()), step == Ok::<Option<Value>, Abrupt<'a>>(None)),
                w1,
            )
        }),
{
}

/// What is left of an iterator becomes an array: the values that it gives, in their order, in a new list;
/// an iterator that is done gives an empty one and is not asked.
pub proof fn rests_are_arrays<'a>(iter: Value, method: Value, w: World<'a>)
    requires
        w.lists.len() < u64::MAX,
    ensures
        ({
            let l = w.next_list();
            let w1 = w.new_list(Seq::empty());
            let (r, after) = pull_rest_step(iter, method, true, w);
            &&& after.asked == w.asked.push(Request::ArrayOf { list: l })
            &&& after.list(l).len() == 0
            &&& said(w, w.asked.len()) matches Answer::Value(v) ==> r == Ok::<Value, Abrupt<'a>>(v)
            &&& drain_step(iter, method, l, w1).0 is Ok ==> pull_rest_step(
                iter,
                method,
                false,
                w,
            ).1.asked == drain_step(iter, method, l, w1).1.asked.push(Request::ArrayOf { list: l })
        }),
{
}

/// An iterator is drained into a list: every value that it gives is added behind the others, until it gives
/// no more.
pub proof fn iterators_are_drained<'a>(
    iter: Value,
    method: Value,
    list: u64,
    k: nat,
    n: u64,
    w: World<'a>,
)
    requires
        k > 0,
    ensures
        ({
            let (step, w1) = iterator_step_step(iter, method, w);
            let all = drain_from(iter, method, list, k, n, w);
            &&& step == Ok::<Option<Value>, Abrupt<'a>>(None) ==> all == (
                Ok::<(), Abrupt<'a>>(()),
                w1,
            )
            &&& step matches Ok(Some(v)) ==> (n < MAX_ARRAY_OP_LEN ==> all == drain_from(
                iter,
                method,
                list,
                (k - 1) as nat,
                (n + 1) as u64,
                w1.with_list(list, w1.list(list).push(v)),
            ))
            &&& step matches Err(a) ==> all == (Err::<(), Abrupt<'a>>(a), w1)
        }),
{
}

/// A rest element takes the array of what is left, and uses the iterator up.
pub proof fn rest_elements_take_arrays<'a>(
    pattern: &'a Pattern,
    iter: Value,
    method: Value,
    done: bool,
    mode: BindMode,
    env: Env,
    depth: u64,
    w: World<'a>,
)
    ensures
        ({
            let (rest, w1) = pull_rest_step(iter, method, done, w);
            let (r, after) = bind_elem_step(
                &ArrayPatElem::Rest(*pattern),
                iter,
                method,
                done,
                env,
                mode,
                depth,
                w,
            );
            &&& r.1
            &&& rest matches Ok(arr) ==> r.0 == bind_pattern_step(pattern, arr, env, mode, depth, w1).0
                && after == bind_pattern_step(pattern, arr, env, mode, depth, w1).1
            &&& rest matches Err(a) ==> r.0 == Err::<(), Abrupt<'a>>(a)
        }),
{
}

// ---- declarations

/// An array pattern takes the values of its source's iterator, which is closed behind it; an object pattern
/// reads the properties of its source, which must not be `undefined` or `null`, and its rest is an object
/// with what the pattern does not name.
pub proof fn patterns_take_values_apart<'a>(
    pat: &'a Pattern,
    v: Value,
    mode: BindMode,
    env: Env,
    depth: u64,
    w: World<'a>,
)
    ensures
        pat matches Pattern::Array(elems) ==> ({
            let (it, w1) = get_iterator_step(v, w);
            it matches Ok(pair) ==> ({
                let (r, w2) = bind_elems_step(elems, pair.0, pair.1, env, mode, depth, w1);
                bind_pattern_step(pat, v, env, mode, depth, w) == close_after_step(
                    pair.0,
                    r.1,
                    r.0,
                    w2,
                )
            })
        }),
        pat matches Pattern::Object(o) ==> {
            let keys = w.next_list();
            let (u, w1) = bind_props_step(
                &o.props,
                v,
                keys,
                env,
                mode,
                depth,
                w.new_list(Seq::empty()),
            );
            let all = bind_pattern_step(pat, v, env, mode, depth, w);
            &&& v is Undefined || v is Null ==> !(all.0 is Ok) && complains(all.1, ErrorKind::TypeError)
            &&& !(v is Undefined || v is Null) && u is Ok && o.rest is None ==> all == (
                Ok::<(), Abrupt<'a>>(()),
                w1,
            )
            &&& !(v is Undefined || v is Null) && u is Ok ==> match &o.rest {
                Some(name) => ({
                    let (rest, w2) = copy_data_properties_step(v, keys, w1);
                    rest matches Ok(x) ==> all == bind_name_step(name, x, env, mode, w2)
                }),
                None => true,
            }
        },
        pat matches Pattern::Member(t) ==> bind_pattern_step(pat, v, env, mode, depth, w)
            == assign_to_target_step(&**t, v, env, depth, w),
{
}

/// A name in a declaration: `let` and `const` initialize the name in the scope given, and a constant cannot
/// be written again; `var` assigns to the name.
pub proof fn declared_names_are_bound<'a>(
    name: &'a String,
    v: Value,
    constant: bool,
    env: Env,
    w: World<'a>,
)
    requires
        env < w.scopes.scopes.len(),
    ensures
        ({
            let (r, after) = bind_name_step(name, v, env, BindMode::Lexical(constant), w);
            &&& r is Ok
            &&& after.asked == w.asked
            &&& after.scopes.binds(env, name@)
            &&& after.scopes.value_in(env, name@) == v
            &&& after.scopes.binding_at(env, name@).initialized
            &&& constant ==> after.scopes.write_view(env, name@, true) == Write::Refused
            &&& !constant ==> after.scopes.write_view(env, name@, true) == Write::Stored
        }),
        bind_name_step(name, v, env, BindMode::Var, w) == assign_var_step(
            Name::Source(name),
            v,
            env,
            w,
        ),
{
}

/// The properties of an object pattern are bound one after the other, and each adds its key to those that the
/// pattern names.
pub proof fn named_keys_are_kept<'a>(
    props: &'a Vec<ObjPatProp>,
    source: Value,
    keys: u64,
    mode: BindMode,
    env: Env,
    depth: u64,
    i: nat,
    w: World<'a>,
)
    requires
        i < props@.len(),
    ensures
        ({
            let (u, w1) = bind_prop_step(&props@[i as int], source, keys, env, mode, depth, w);
            &&& u is Ok ==> bind_props_from(props, source, keys, env, mode, depth, i, w)
                == bind_props_from(props, source, keys, env, mode, depth, i + 1, w1)
            &&& u matches Err(a) ==> bind_props_from(props, source, keys, env, mode, depth, i, w) == (
                Err::<(), Abrupt<'a>>(a),
                w1,
            )
        }),
        bind_props_from(props, source, keys, env, mode, depth, props@.len(), w) == (
            Ok::<(), Abrupt<'a>>(()),
            w,
        ),
{
}

/// A property of an object pattern that is a pattern itself binds what the host reads under its key, or the
/// default where that is `undefined`; its key is among those that the pattern names.
pub proof fn nested_patterns_get_properties<'a>(
    p: &'a ObjPatProp,
    key: &'a String,
    source: Value,
    keys: u64,
    v: Value,
    constant: bool,
    env: Env,
    depth: u64,
    w: World<'a>,
)
    requires
        p.key == PropKey::Ident(*key),
        !(p.value is Ident),
        keys < w.lists.len(),
        w.texts.len() < u64::MAX,
        said(w, w.asked.len()) == Answer::<'a>::Value(v),
    ensures
        ({
            let mode = BindMode::Lexical(constant);
            let t = w.next_text();
            let w1 = w.add_text(key@);
            let w2 = w1.with_list(keys, w1.list(keys).push(t));
            let w3 = w2.ask(Request::GetMember { base: source, key: Key::Source(key) }).1;
            let (x, w4) = default_for_step(v, &p.default, None, env, depth, w3);
            let all = bind_prop_step(p, source, keys, env, mode, depth, w);
            &&& x matches Ok(y) ==> all == bind_pattern_step(&p.value, y, env, mode, depth, w4)
            &&& x matches Err(a) ==> all == (Err::<(), Abrupt<'a>>(a), w4)
        }),
        p.default is None ==> default_for_step(v, &p.default, None, env, depth, w) == (
            Ok::<Value, Abrupt<'a>>(v),
            w,
        ),
        p.default matches Some(d) ==> default_for_step(v, &p.default, None, env, depth, w)
            == with_default_step(v, &d, None, env, depth, w),
{
    assert(eval_prop_key_step(&p.key, env, depth, w) == (
        Ok::<Key<'a>, Abrupt<'a>>(Key::Source(key)),
        w,
    ));
    assert(key_value_step(Key::Source(key), w) == (
        Ok::<Value, Abrupt<'a>>(w.next_text()),
        w.add_text(key@),
    ));
}

// ---- naming

/// An anonymous function takes the name of what it is assigned to; any other value stays as it is.
pub proof fn anonymous_functions_are_named<'a>(
    value: &'a Expr,
    name: &'a String,
    v: Value,
    w: World<'a>,
)
    ensures
        !anonymous_fn(value) ==> name_if_anonymous_step(value, Some(name), v, w) == (
            Ok::<(), Abrupt<'a>>(()),
            w,
        ),
        name_if_anonymous_step(value, None, v, w) == (Ok::<(), Abrupt<'a>>(()), w),
        anonymous_fn(value) ==> name_if_anonymous_step(value, Some(name), v, w) == name_function_step(
            v,
            "",
            Key::Source(name),
            false,
            w,
        ),
{
}

/// A function without a name of its own gets the prefix and the key as its name; one that has a name keeps it,
/// and what cannot be called gets none.
pub proof fn functions_are_named_once<'a>(
    f: u64,
    prefix: &'static str,
    key: &'a String,
    w: World<'a>,
)
    requires
        w.texts.len() < u64::MAX - 1,
    ensures
        ({
            let n = w.asked.len();
            let func = Value::Obj(f);
            let (r, after) = name_function_step(func, prefix, Key::Source(key), false, w);
            &&& said(w, n) == Answer::<'a>::Flag(false) ==> r is Ok && after.asked == w.asked.push(
                Request::Callable(func),
            )
            &&& said(w, n) == Answer::<'a>::Flag(true) && said(w, n + 1) is Value ==> (
            after.asked.last() matches Request::DefineOwn { base, key: k, prop } && base == func && k
                == Key::Fixed("name") && w.add_text(key@).add_text(prefix@ + key@).chars(prop.value)
                == prefix@ + key@ && !prop.writable && !prop.enumerable && prop.configurable)
            &&& said(w, n) == Answer::<'a>::Flag(true) ==> (said(w, n + 1) matches Answer::Own(q) ==> !(
            q.value is Str) ==> r is Ok && after.asked.len() == n + 2)
        }),
{
    assert(key_value_step(Key::Source(key), w) == (
        Ok::<Value, Abrupt<'a>>(w.next_text()),
        w.add_text(key@),
    ));
}

// ---- the rest of targets

/// A private member is read and written through its reference.
pub proof fn private_references<'a>(base: Value, hidden: u64, v: Value, w: World<'a>)
    ensures
        ({
            let place: Reference<'a> = Reference::Private { base, hidden };
            let (x, w1) = get_private_member_step(base, Key::Made(hidden), w);
            &&& x matches Ok(y) ==> get_reference_step(place, w) == (
                Ok::<(Value, Reference<'a>), Abrupt<'a>>((y, place)),
                w1,
            )
            &&& put_reference_step(place, v, w) == set_private_member_step(
                base,
                Key::Made(hidden),
                v,
                w,
            )
        }),
{
}

/// A computed property, a private one and one of `super` take an assigned value too: the key is converted once,
/// and a property of `super` is set on `this`.
pub proof fn other_targets_take_values<'a>(target: &'a Expr, v: Value, env: Env, depth: u64, w: World<'a>)
    ensures
        target matches Expr::Index { obj, index, .. } ==> (!(**obj is Super) ==> ({
            let (b, w1) = eval_step(&**obj, env, depth, w);
            let (i, w2) = eval_step(&**index, env, depth, w1);
            let (k, w3) = to_property_key_step(i->Ok_0, w2);
            b is Ok && i is Ok && k is Ok ==> assign_to_target_step(target, v, env, depth, w).1.asked
                == w3.asked.push(
                Request::SetMember {
                    base: b->Ok_0,
                    key: k->Ok_0,
                    value: v,
                    strict: w3.strict,
                },
            )
        })),
        target matches Expr::Member { obj, prop, .. } ==> (!(**obj is Super) && private_name(prop@) ==> ({
            let (b, w1) = eval_step(&**obj, env, depth, w);
            b is Ok ==> (w1.scopes.private_key(env, prop@) matches Some(hidden) ==> assign_to_target_step(
                target,
                v,
                env,
                depth,
                w,
            ) == set_private_member_step(b->Ok_0, Key::Made(hidden), v, w1))
        })),
        target matches Expr::Member { obj, prop, .. } ==> (**obj is Super ==> ({
            let (h, w1) = super_base_step(env, w);
            let (t, w2) = get_var_step(Name::Fixed("this"), env, w1);
            h is Ok && t is Ok ==> assign_to_target_step(target, v, env, depth, w).1.asked
                == w2.asked.push(
                Request::SetMember {
                    base: t->Ok_0,
                    key: Key::Source(prop),
                    value: v,
                    strict: w2.strict,
                },
            )
        })),
{
}

/// The properties of an object target are assigned one after the other, each under its own key, which is then
/// among those named; what a rest takes is a new object without the keys named.
pub proof fn object_targets_go_on<'a>(
    props: &'a Vec<PropDef>,
    source: Value,
    keys: u64,
    env: Env,
    depth: u64,
    i: nat,
    w: World<'a>,
)
    requires
        i < props@.len(),
    ensures
        match &props@[i as int] {
            PropDef::KeyValue { key, value } | PropDef::Cover { key, value } => ({
                let (k, w1) = eval_prop_key_step(key, env, depth, w);
                let (kv, w2) = key_value_step(k->Ok_0, w1);
                let (u, w3) = assign_keyed_step(
                    value,
                    source,
                    k->Ok_0,
                    env,
                    depth,
                    w2.with_list(keys, w2.list(keys).push(kv->Ok_0)),
                );
                k is Ok && kv is Ok && u is Ok ==> assign_props_from(
                    props,
                    source,
                    keys,
                    env,
                    depth,
                    i,
                    w,
                ) == assign_props_from(props, source, keys, env, depth, i + 1, w3)
            }),
            PropDef::Spread(t) => ({
                let (rest, w1) = copy_data_properties_step(source, keys, w);
                let (u, w2) = assign_to_target_step(t, rest->Ok_0, env, depth, w1);
                rest is Ok && u is Ok ==> assign_props_from(props, source, keys, env, depth, i, w)
                    == assign_props_from(props, source, keys, env, depth, i + 1, w2)
            }),
            _ => true,
        },
        assign_props_from(props, source, keys, env, depth, props@.len(), w) == (
            Ok::<(), Abrupt<'a>>(()),
            w,
        ),
{
}

/// The rest of an array target takes the array of what is left, and uses the iterator up.
pub proof fn rest_targets_take_arrays<'a>(
    t: &'a Expr,
    place: Reference<'a>,
    iter: Value,
    method: Value,
    done: bool,
    env: Env,
    depth: u64,
    w: World<'a>,
)
    ensures
        literal_target(t) ==> ({
            let (rest, w1) = pull_rest_step(iter, method, done, w);
            let (r, after) = assign_elem_step(
                &ArrayElem::Spread(*t),
                iter,
                method,
                done,
                env,
                depth,
                w,
            );
            rest matches Ok(arr) ==> r.1 && r.0 == assign_to_target_step(t, arr, env, depth, w1).0 && after
                == assign_to_target_step(t, arr, env, depth, w1).1
        }),
        !literal_target(t) && resolve_reference_step(t, env, depth, w).0 == Ok::<
            Reference<'a>,
            Abrupt<'a>,
        >(place) ==> ({
            let w0 = resolve_reference_step(t, env, depth, w).1;
            let (rest, w1) = pull_rest_step(iter, method, done, w0);
            let (r, after) = assign_elem_step(
                &ArrayElem::Spread(*t),
                iter,
                method,
                done,
                env,
                depth,
                w,
            );
            rest matches Ok(arr) ==> r.1 && r.0 == put_reference_step(place, arr, w1).0 && after
                == put_reference_step(place, arr, w1).1
        }),
{
}

/// A literal inside an array target takes the next value apart.
pub proof fn nested_targets_take_values<'a>(
    t: &'a Expr,
    iter: Value,
    method: Value,
    env: Env,
    depth: u64,
    w: World<'a>,
)
    requires
        t is Array || t is Object,
    ensures
        ({
            let (step, w1) = iterator_step_step(iter, method, w);
            let (r, after) = assign_item_step(t, iter, method, false, env, depth, w);
            literal_target(t) ==> match step {
                Ok(Some(v)) => !r.1 && r.0 == assign_to_target_step(t, v, env, depth, w1).0 && after
                    == assign_to_target_step(t, v, env, depth, w1).1,
                Ok(None) => r.1 && r.0 == assign_to_target_step(t, Value::Undefined, env, depth, w1).0,
                Err(a) => r.1 && r.0 == Err::<(), Abrupt<'a>>(a),
            }
        }),
        literal_target(t),
{
    assert(assign_item_plain_step(t, iter, method, false, env, depth, w) == assign_item_step(
        t,
        iter,
        method,
        false,
        env,
        depth,
        w,
    ));
}

/// A name that an object pattern declares with `var` is resolved before the property is read, and written
/// where it was resolved.
pub proof fn var_patterns_resolve_first<'a>(
    p: &'a ObjPatProp,
    key: &'a String,
    name: &'a String,
    source: Value,
    keys: u64,
    v: Value,
    env: Env,
    depth: u64,
    w: World<'a>,
)
    requires
        p.key == PropKey::Ident(*key),
        p.value == Pattern::Ident(*name),
        p.default is None,
    ensures
        ({
            let t = w.next_text();
            let w1 = w.add_text(key@);
            let (place, w2) = resolve_name_step(name, env, w1.with_list(keys, w1.list(keys).push(t)));
            let w3 = w2.ask(Request::GetMember { base: source, key: Key::Source(key) }).1;
            place is Ok && said(w2, w2.asked.len()) == Answer::<'a>::Value(v) ==> bind_prop_step(
                p,
                source,
                keys,
                env,
                BindMode::Var,
                depth,
                w,
            ) == put_resolved_step(place->Ok_0, name, v, w3)
        }),
{
    assert(eval_prop_key_step(&p.key, env, depth, w) == (
        Ok::<Key<'a>, Abrupt<'a>>(Key::Source(key)),
        w,
    ));
    assert(key_value_step(Key::Source(key), w) == (
        Ok::<Value, Abrupt<'a>>(w.next_text()),
        w.add_text(key@),
    ));
    let w1 = w.add_text(key@);
    let (place, w2) = resolve_name_step(
        name,
        env,
        w1.with_list(keys, w1.list(keys).push(w.next_text())),
    );
    let w3 = w2.ask(Request::GetMember { base: source, key: Key::Source(key) }).1;
    assert(default_for_step(v, &p.default, Some(name), env, depth, w3) == (
        Ok::<Value, Abrupt<'a>>(v),
        w3,
    ));
}

/// What is assigned to a name: an anonymous class takes the name while it is evaluated, an anonymous function
/// behind that, and anything else is just evaluated.
pub proof fn assigned_classes_take_the_name<'a>(
    value: &'a Expr,
    name: Name<'a>,
    key: Key<'a>,
    env: Env,
    depth: u64,
    w: World<'a>,
)
    ensures
        value matches Expr::Class(c) ==> (c.name is None && !anonymous_fn(value) ==> eval_named_step(
            value,
            name,
            key,
            env,
            depth,
            w,
        ) == eval_class_step(&**c, env, Some(name), depth, w)),
        !(value is Class) && !anonymous_fn(value) ==> eval_named_step(value, name, key, env, depth, w)
            == eval_step(value, env, depth, w),
        !(value is Class) && anonymous_fn(value) ==> ({
            let (v, w1) = eval_step(value, env, depth, w);
            let (u, w2) = name_function_step(v->Ok_0, "", key, false, w1);
            v is Ok && u is Ok ==> eval_named_step(value, name, key, env, depth, w) == (v, w2)
        }),
{
}

} // verus!
