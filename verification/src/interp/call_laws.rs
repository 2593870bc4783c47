//! What holds of calls, object literals, templates and dynamic imports, whatever the host answers.
use vstd::prelude::*;

use crate::ast::{ArrayElem, Expr, PropDef, PropKey, Stmt};
use crate::interp::dynamic::perform_eval_step;
use crate::interp::eval::{
    attribute_of_step, call_found_step, call_located_step, define_value_step, direct_eval_step,
    eval_access_step, eval_args_step, eval_array_step, eval_call_step, eval_delete_step,
    eval_import_call_step, eval_prop_key_step, eval_step, eval_tagged_template_step,
    eval_wrapping_step, fill_object_from, freeze_keys_from, freeze_keys_step, freeze_object_step,
    import_referrer_step, is_direct_eval_step, load_import_step, locate_step, locate_super_step,
    locate_tag_step, private_name, push_cooked_from, push_cooked_step, push_elems_step,
    push_raw_from, push_raw_step, push_values_from, push_values_step, rejected_promise_step,
    script_referrer_step, template_object_step, Target,
};
use crate::interp::object::{
    copy_data_properties_into_step, define_halves_step, delete_ident_step, delete_prop_on_step,
    get_private_member_step, get_var_step, get_var_with_step, import_attributes_step,
    super_base_step,
};
use crate::interp::object_laws::complains;
use crate::interp::operate::{
    is_callable_step, make_error_step, name_function_step, to_boolean_step, to_property_key_step,
    to_string_step,
};
use crate::interp::promise::{new_promise_step, reject_promise_step};
use crate::interp::promise_laws::said;
use crate::interp::session::{Abrupt, Answer, Env, ErrorKind, Key, Name, Request, Value, World};
use crate::interp::suspend::{yield_delegate_async_step, yield_delegate_step, yield_one_step};
use crate::interp::tail::{
    eval_front_from, eval_front_step, eval_return_expr_step, eval_tail_call_step, locate_tail_step,
    tail_or_value_step, takes_right_step, TailEval,
};
use crate::modules::evaluate::dynamic_import_step;
use crate::modules::resolve::Found;
use crate::modules::source::ImportMeta;
use crate::scan::anonymous_fn;
use crate::value::props::Property;

verus! {

// ---- object literals

/// A method of an object literal is a function in the scope of the literal's home object, named after its
/// key, and an ordinary property of the object.
pub proof fn methods_go_into_the_object<'a>(
    props: &'a Vec<PropDef>,
    obj: Value,
    home: Env,
    key: Key<'a>,
    f: Value,
    env: Env,
    depth: u64,
    i: nat,
    w: World<'a>,
)
    requires
        i < props@.len(),
        props@[i as int] matches PropDef::Method { key: k, func } && eval_prop_key_step(
            &k,
            env,
            depth,
            w,
        ).0 == Ok::<Key<'a>, Abrupt<'a>>(key) && ({
            let w1 = eval_prop_key_step(&k, env, depth, w).1;
            said(w1, w1.asked.len()) == Answer::<'a>::Value(f)
        }),
    ensures
        props@[i as int] matches PropDef::Method { key: k, func } && {
            let w1 = eval_prop_key_step(&k, env, depth, w).1;
            let w2 = w1.ask(Request::MakeFunction { func: &*func, env: home }).1;
            let (u, w3) = name_function_step(f, "", key, false, w2);
            let w4 = w3.ask(
                Request::DefineOwn { base: obj, key, prop: Property::of(f, true, true, true) },
            ).1;
            u is Ok && !(said(w3, w3.asked.len()) is Throw) && !(said(w3, w3.asked.len()) is Return)
                ==> fill_object_from(props, obj, home, env, depth, i, w) == fill_object_from(
                props,
                obj,
                home,
                env,
                depth,
                i + 1,
                w4,
            )
        },
{
}

/// A getter of an object literal is the getter of an accessor that can be enumerated, and a setter the
/// setter.
pub proof fn accessors_go_into_the_object<'a>(
    props: &'a Vec<PropDef>,
    obj: Value,
    home: Env,
    f: Value,
    env: Env,
    depth: u64,
    i: nat,
    w: World<'a>,
)
    requires
        i < props@.len(),
    ensures
        props@[i as int] matches PropDef::Getter { key: k, func } ==> ({
            let (key, w1) = eval_prop_key_step(&k, env, depth, w);
            let w2 = w1.ask(Request::MakeFunction { func: &*func, env: home }).1;
            let (u, w3) = name_function_step(f, "get ", key->Ok_0, false, w2);
            let (d, w4) = define_halves_step(obj, key->Ok_0, Some(f), None, true, w3);
            key is Ok && said(w1, w1.asked.len()) == Answer::<'a>::Value(f) && u is Ok && d is Ok
                ==> fill_object_from(props, obj, home, env, depth, i, w) == fill_object_from(
                props,
                obj,
                home,
                env,
                depth,
                i + 1,
                w4,
            )
        }),
        props@[i as int] matches PropDef::Setter { key: k, func } ==> ({
            let (key, w1) = eval_prop_key_step(&k, env, depth, w);
            let w2 = w1.ask(Request::MakeFunction { func: &*func, env: home }).1;
            let (u, w3) = name_function_step(f, "set ", key->Ok_0, false, w2);
            let (d, w4) = define_halves_step(obj, key->Ok_0, None, Some(f), true, w3);
            key is Ok && said(w1, w1.asked.len()) == Answer::<'a>::Value(f) && u is Ok && d is Ok
                ==> fill_object_from(props, obj, home, env, depth, i, w) == fill_object_from(
                props,
                obj,
                home,
                env,
                depth,
                i + 1,
                w4,
            )
        }),
{
}

/// A spread copies the properties of its value into the object, leaving none out; `__proto__` sets the
/// prototype to an object or `null`, and is nothing otherwise.
pub proof fn spreads_copy_into_the_object<'a>(
    props: &'a Vec<PropDef>,
    obj: Value,
    home: Env,
    env: Env,
    depth: u64,
    i: nat,
    w: World<'a>,
)
    requires
        i < props@.len(),
    ensures
        props@[i as int] matches PropDef::Spread(x) ==> ({
            let (v, w1) = eval_step(&x, env, depth, w);
            let (u, w2) = copy_data_properties_into_step(
                obj,
                v->Ok_0,
                w1.next_list(),
                w1.new_list(Seq::empty()),
            );
            v is Ok && u is Ok ==> fill_object_from(props, obj, home, env, depth, i, w)
                == fill_object_from(props, obj, home, env, depth, i + 1, w2)
        }),
        props@[i as int] matches PropDef::Proto(x) ==> ({
            let (v, w1) = eval_step(&x, env, depth, w);
            v matches Ok(p) ==> {
                &&& !(p is Obj || p is Null) ==> fill_object_from(props, obj, home, env, depth, i, w)
                    == fill_object_from(props, obj, home, env, depth, i + 1, w1)
                &&& (p is Obj || p is Null) && !(said(w1, w1.asked.len()) is Throw) && !(said(
                    w1,
                    w1.asked.len(),
                ) is Return) ==> fill_object_from(props, obj, home, env, depth, i, w)
                    == fill_object_from(
                    props,
                    obj,
                    home,
                    env,
                    depth,
                    i + 1,
                    w1.ask(Request::SetPrototype { base: obj, proto: p }).1,
                )
            }
        }),
        i + 1 == props@.len() ==> fill_object_from(props, obj, home, env, depth, i + 1, w) == (
            Ok::<Value, Abrupt<'a>>(obj),
            w,
        ),
{
}

/// The keys of an object literal: a name and a text stand for themselves, and any other expression is
/// evaluated and converted.
pub proof fn literal_keys<'a>(key: &'a PropKey, env: Env, depth: u64, w: World<'a>)
    ensures
        key matches PropKey::Ident(n) ==> eval_prop_key_step(key, env, depth, w) == (
            Ok::<Key<'a>, Abrupt<'a>>(Key::Source(n)),
            w,
        ),
        key matches PropKey::Str(n) ==> eval_prop_key_step(key, env, depth, w) == (
            Ok::<Key<'a>, Abrupt<'a>>(Key::Source(n)),
            w,
        ),
        key matches PropKey::Computed(x) ==> ({
            let (v, w1) = eval_step(x, env, depth, w);
            v matches Ok(y) ==> eval_prop_key_step(key, env, depth, w) == to_property_key_step(y, w1)
        }),
{
}

/// An array literal is the array that the host makes of the list of its elements.
pub proof fn arrays_are_made_of_their_elements<'a>(
    elems: &'a Vec<ArrayElem>,
    env: Env,
    depth: u64,
    w: World<'a>,
)
    ensures
        ({
            let l = w.next_list();
            let (r, w1) = push_elems_step(elems, l, env, depth, w.new_list(Seq::empty()));
            r == Ok::<u64, Abrupt<'a>>(l) ==> eval_array_step(elems, env, depth, w).1.asked
                == w1.asked.push(Request::ArrayOf { list: l }) && (said(w1, w1.asked.len()) matches
                Answer::Value(v) ==> eval_array_step(elems, env, depth, w).0 == Ok::<Value, Abrupt<'a>>(v))
        }),
{
}

// ---- deleting

/// `delete` of a property deletes it from the object that is evaluated, under its key; of an expression that
/// is no reference it is true, and of a property of `super` a `ReferenceError`.
pub proof fn delete_names_a_property<'a>(arg: &'a Expr, env: Env, depth: u64, w: World<'a>)
    ensures
        arg matches Expr::Member { obj, prop, optional } ==> (!(**obj is Super) ==> ({
            let (b, w1) = eval_step(&**obj, env, depth, w);
            b matches Ok(base) ==> (!w1.short ==> {
                &&& !(base is Undefined || base is Null) ==> eval_delete_step(arg, env, depth, w)
                    == delete_prop_on_step(base, Key::Source(prop), w1)
                &&& (base is Undefined || base is Null) && *optional ==> eval_delete_step(
                    arg,
                    env,
                    depth,
                    w,
                ).0 == Ok::<Value, Abrupt<'a>>(Value::Bool(true))
            })
        })),
        arg matches Expr::Ident(name) ==> ({
            let (b, w1) = delete_ident_step(name, env, w);
            b matches Ok(x) ==> eval_delete_step(arg, env, depth, w) == (
                Ok::<Value, Abrupt<'a>>(Value::Bool(x)),
                w1,
            )
        }),
        arg is Num || arg is Call ==> ({
            let (v, w1) = eval_step(arg, env, depth, w);
            v is Ok ==> eval_delete_step(arg, env, depth, w) == (
                Ok::<Value, Abrupt<'a>>(Value::Bool(true)),
                w1,
            )
        }),
        arg matches Expr::Paren(x) ==> eval_delete_step(arg, env, depth, w) == eval_delete_step(
            &**x,
            env,
            depth,
            w,
        ),
{
}

// ---- calls

/// The receiver of a called property is the object that it is read from, for a computed key and a private
/// name too; anything else is called on no receiver.
pub proof fn receivers_are_the_objects<'a>(callee: &'a Expr, env: Env, depth: u64, w: World<'a>)
    ensures
        callee matches Expr::Index { obj, index, optional } ==> ({
            let (b, w1) = eval_step(&**obj, env, depth, w);
            let (i, w2) = eval_step(&**index, env, depth, w1);
            let (k, w3) = to_property_key_step(i->Ok_0, w2);
            b matches Ok(base) ==> (!w1.short && base is Obj && i is Ok && k is Ok ==> (said(
                w3,
                w3.asked.len(),
            ) matches Answer::Value(f) ==> locate_step(callee, env, depth, w) == (
                Ok::<Target, Abrupt<'a>>(Target::Found { func: f, this: base }),
                w3.ask(Request::GetMember { base, key: k->Ok_0 }).1,
            )))
        }),
        callee matches Expr::Member { obj, prop, .. } ==> (private_name(prop@) ==> ({
            let (b, w1) = eval_step(&**obj, env, depth, w);
            b matches Ok(base) ==> (!w1.short && base is Obj ==> (w1.scopes.private_key(env, prop@) matches
                Some(hidden) ==> ({
                let (f, w2) = get_private_member_step(base, Key::Made(hidden), w1);
                f matches Ok(x) ==> locate_step(callee, env, depth, w) == (
                    Ok::<Target, Abrupt<'a>>(Target::Found { func: x, this: base }),
                    w2,
                )
            })))
        })),
        callee is Func || callee is Call || callee is Paren ==> ({
            let (f, w1) = eval_step(callee, env, depth, w);
            f matches Ok(x) ==> (!w1.short ==> locate_step(callee, env, depth, w) == (
                Ok::<Target, Abrupt<'a>>(Target::Found { func: x, this: Value::Undefined }),
                w1,
            ))
        }),
{
}

/// `super.m(..)` calls the method of the prototype on the `this` of the code around it.
pub proof fn super_methods_are_called_on_this<'a>(
    callee: &'a Expr,
    home: Value,
    f: Value,
    this: Value,
    env: Env,
    depth: u64,
    w: World<'a>,
)
    requires
        callee matches Expr::Member { obj, .. } && **obj is Super,
        super_base_step(env, w).0 == Ok::<Value, Abrupt<'a>>(home),
        ({
            let w1 = super_base_step(env, w).1;
            said(w1, w1.asked.len()) == Answer::<'a>::Value(f)
        }),
    ensures
        callee matches Expr::Member { prop, .. } && {
            let w1 = super_base_step(env, w).1;
            let w2 = w1.ask(Request::GetMember { base: home, key: Key::Source(prop) }).1;
            let (t, w3) = get_var_step(Name::Fixed("this"), env, w2);
            t == Ok::<Value, Abrupt<'a>>(this) ==> locate_super_step(callee, env, depth, w) == (
                Ok::<Option<(Value, Value)>, Abrupt<'a>>(Some((f, this))),
                w3,
            )
        },
{
}

/// What was located is called, or is an error where locating it failed; an optional call of `undefined` or
/// `null` is `undefined`, without evaluating the arguments; what is no function is a `TypeError`.
pub proof fn optional_calls_stop<'a>(
    callee: &'a Expr,
    args: &'a Vec<ArrayElem>,
    func: Value,
    this: Value,
    env: Env,
    depth: u64,
    w: World<'a>,
)
    ensures
        func is Undefined || func is Null ==> ({
            let (r, after) = call_located_step(
                Target::Found { func, this },
                callee,
                args,
                true,
                env,
                depth,
                w,
            );
            r == Ok::<Value, Abrupt<'a>>(Value::Undefined) && after.asked == w.asked && after.short
        }),
        call_located_step(Target::Short, callee, args, false, env, depth, w) == (
            Ok::<Value, Abrupt<'a>>(Value::Undefined),
            w,
        ),
        func is Num ==> ({
            let (l, w1) = eval_args_step(args, env, depth, w);
            l is Ok && w1.texts.len() < u64::MAX ==> ({
                let (r, after) = call_located_step(
                    Target::Found { func, this },
                    callee,
                    args,
                    false,
                    env,
                    depth,
                    w,
                );
                !(r is Ok) && complains(after, ErrorKind::TypeError)
            })
        }),
        forall|target: Target|
            #[trigger] call_found_step(Ok(target), callee, args, false, env, depth, w)
                == call_located_step(target, callee, args, false, env, depth, w),
        forall|a: Abrupt<'a>|
            #[trigger] call_found_step(Err(a), callee, args, false, env, depth, w) == (
                Err::<Value, Abrupt<'a>>(a),
                w,
            ),
{
}

/// A call is a direct `eval` only where a callee written `eval` is the intrinsic function.
pub proof fn direct_eval_is_told<'a>(callee: &'a Expr, env: Env, w: World<'a>)
    ensures
        !(callee is Ident) ==> is_direct_eval_step(callee, false, env, w) == (
            Ok::<bool, Abrupt<'a>>(false),
            w,
        ),
        is_direct_eval_step(callee, true, env, w) == (Ok::<bool, Abrupt<'a>>(false), w),
        callee matches Expr::Ident(name) ==> {
            &&& name@ != "eval"@ ==> is_direct_eval_step(callee, false, env, w) == (
                Ok::<bool, Abrupt<'a>>(false),
                w,
            )
            &&& name@ == "eval"@ ==> ({
                let (f, w1) = get_var_step(Name::Source(name), env, w);
                f matches Ok(v) ==> (said(w1, w1.asked.len()) matches Answer::Flag(b)
                    ==> is_direct_eval_step(callee, false, env, w) == (
                    Ok::<bool, Abrupt<'a>>(b),
                    w1.ask(Request::IsIntrinsicEval(v)).1,
                ))
            })
        },
{
}

/// A direct `eval` without an argument is `undefined`; of anything but a string it is that value; and a string
/// is parsed and run in the scope of its caller, as direct code.
pub proof fn direct_eval_runs_texts<'a>(
    args: &'a Vec<ArrayElem>,
    l: u64,
    body: &'a Vec<Stmt>,
    env: Env,
    depth: u64,
    w: World<'a>,
)
    requires
        depth > 0,
        eval_args_step(args, env, depth, w).0 == Ok::<u64, Abrupt<'a>>(l),
    ensures
        ({
            let w1 = eval_args_step(args, env, depth, w).1;
            let all = direct_eval_step(args, env, depth, w);
            &&& !w1.has_item(l, 0) ==> all == (Ok::<Value, Abrupt<'a>>(Value::Undefined), w1)
            &&& w1.has_item(l, 0) && !(w1.item(l, 0) is Str) ==> all == (
                Ok::<Value, Abrupt<'a>>(w1.item(l, 0)),
                w1,
            )
            &&& w1.has_item(l, 0) && w1.item(l, 0) is Str && said(w1, w1.asked.len()) == Answer::<
                'a,
            >::Code(body) ==> exists|w2: World<'a>|
                {
                    &&& w2.asked.len() == w1.asked.len() + 1
                    &&& w2.asked.last() matches Request::ParseEval { code, env: e, .. } && code == w1.item(
                        l,
                        0,
                    ) && e == env
                    &&& all == #[trigger] perform_eval_step(
                        body,
                        env,
                        true,
                        w2.flags.super_call,
                        (depth - 1) as u64,
                        w2,
                    )
                }
        }),
{
    let w1 = eval_args_step(args, env, depth, w).1;
    if w1.has_item(l, 0) && w1.item(l, 0) is Str && said(w1, w1.asked.len()) == Answer::<'a>::Code(body) {
        let context = w1.scopes.context(env, true, w1.strict);
        let w2 = w1.ask(Request::ParseEval { code: w1.item(l, 0), env, context }).1;
        assert(direct_eval_step(args, env, depth, w) == perform_eval_step(
            body,
            env,
            true,
            w2.flags.super_call,
            (depth - 1) as u64,
            w2,
        ));
    }
}

// ---- templates

/// The texts of a template are listed in their order, as they are written and with their escapes replaced;
/// a text that has no such form is `undefined`.
pub proof fn template_texts_are_listed<'a>(
    quasis: &'a Vec<(Option<String>, String)>,
    list: u64,
    i: nat,
    w: World<'a>,
)
    requires
        i < quasis@.len(),
    ensures
        ({
            let w1 = w.add_text(quasis@[i as int].1@);
            push_raw_from(quasis, list, i, w) == push_raw_from(
                quasis,
                list,
                i + 1,
                w1.with_list(list, w1.list(list).push(w.next_text())),
            )
        }),
        match &quasis@[i as int].0 {
            Some(t) => ({
                let w1 = w.add_text(t@);
                push_cooked_from(quasis, list, i, w) == push_cooked_from(
                    quasis,
                    list,
                    i + 1,
                    w1.with_list(list, w1.list(list).push(w.next_text())),
                )
            }),
            None => push_cooked_from(quasis, list, i, w) == push_cooked_from(
                quasis,
                list,
                i + 1,
                w.with_list(list, w.list(list).push(Value::Undefined)),
            ),
        },
{
}

/// A template that was evaluated before gives the same object, and nothing else is asked for.
pub proof fn templates_are_made_once<'a>(
    quasis: &'a Vec<(Option<String>, String)>,
    kept: u64,
    w: World<'a>,
)
    requires
        said(w, w.asked.len()) == Answer::<'a>::Value(Value::Obj(kept)),
    ensures
        template_object_step(quasis, w) == (
            Ok::<Value, Abrupt<'a>>(Value::Obj(kept)),
            w.ask(Request::CachedTemplate(quasis)).1,
        ),
{
}

/// Freezing an object makes it closed and each of its properties fixed, with the value that it has.
pub proof fn freezing_fixes_properties<'a>(obj: Value, keys: u64, t: u64, k: nat, w: World<'a>)
    requires
        k > 0,
    ensures
        !w.has_item(keys, 0) ==> freeze_keys_from(obj, keys, k, w) == (Ok::<(), Abrupt<'a>>(()), w),
        w.has_item(keys, 0) && w.item(keys, 0) == Value::Str(t) ==> ({
            let key = Key::<'a>::Made(t);
            let w1 = w.drop_item(keys).ask(Request::OwnProperty { base: obj, key }).1;
            match said(w, w.asked.len()) {
                Answer::Own(q) => ({
                    let fixed = Property { writable: false, configurable: false, ..q };
                    let w2 = w1.ask(Request::DefineOwn { base: obj, key, prop: fixed }).1;
                    !(said(w, w.asked.len() + 1) is Throw) && !(said(w, w.asked.len() + 1) is Return)
                        ==> freeze_keys_from(obj, keys, k, w) == freeze_keys_from(
                        obj,
                        keys,
                        (k - 1) as nat,
                        w2,
                    )
                }),
                Answer::Value(_) => freeze_keys_from(obj, keys, k, w) == freeze_keys_from(
                    obj,
                    keys,
                    (k - 1) as nat,
                    w1,
                ),
                _ => true,
            }
        }),
{
}

/// A tagged template calls its tag on the tag's receiver, with the template object in front and the values of
/// the parts behind it.
pub proof fn tags_get_texts_and_values<'a>(
    e: &'a Expr,
    strings: Value,
    f: u64,
    this: Value,
    l: u64,
    env: Env,
    depth: u64,
    w: World<'a>,
)
    requires
        e matches Expr::TaggedTemplate { tag, quasis, subs } && ({
            let (s, w1) = template_object_step(quasis, w);
            let (t, w2) = locate_tag_step(&**tag, env, depth, w1);
            let w3 = w2.ask(Request::Callable(Value::Obj(f))).1;
            let list = w3.next_list();
            let (v, w4) = push_values_step(
                subs,
                list,
                env,
                depth,
                w3.new_list(Seq::empty()).push(list, strings),
            );
            &&& s == Ok::<Value, Abrupt<'a>>(strings)
            &&& t == Ok::<(Value, Value), Abrupt<'a>>((Value::Obj(f), this))
            &&& said(w2, w2.asked.len()) == Answer::<'a>::Flag(true)
            &&& v == Ok::<u64, Abrupt<'a>>(l)
        }),
    ensures
        eval_step(e, env, depth, w).1.asked.last() == (Request::Call {
            func: Value::Obj(f),
            this,
            args: l,
        }),
{
    assert(eval_tagged_template_step(e, env, depth, w) == eval_step(e, env, depth, w));
}

/// The values of the parts of a template are listed in their order.
pub proof fn template_values_are_listed<'a>(
    items: &'a Vec<Expr>,
    list: u64,
    env: Env,
    depth: u64,
    i: nat,
    w: World<'a>,
)
    requires
        i < items@.len(),
    ensures
        ({
            let (v, w1) = eval_step(&items@[i as int], env, depth, w);
            v matches Ok(x) ==> push_values_from(items, list, env, depth, i, w) == push_values_from(
                items,
                list,
                env,
                depth,
                i + 1,
                w1.with_list(list, w1.list(list).push(x)),
            )
        }),
        push_values_from(items, list, env, depth, items@.len(), w) == (Ok::<u64, Abrupt<'a>>(list), w),
{
}

/// A tag that is a property is called on its object, and any other on no receiver.
pub proof fn tags_have_receivers<'a>(tag: &'a Expr, env: Env, depth: u64, w: World<'a>)
    ensures
        tag matches Expr::Member { obj, prop, .. } ==> ({
            let (b, w1) = eval_step(&**obj, env, depth, w);
            b matches Ok(base) ==> (said(w1, w1.asked.len()) matches Answer::Value(f) ==> locate_tag_step(
                tag,
                env,
                depth,
                w,
            ) == (
                Ok::<(Value, Value), Abrupt<'a>>((f, base)),
                w1.ask(Request::GetMember { base, key: Key::Source(prop) }).1,
            ))
        }),
        tag is Ident ==> ({
            let (f, w1) = eval_step(tag, env, depth, w);
            f matches Ok(x) ==> locate_tag_step(tag, env, depth, w) == (
                Ok::<(Value, Value), Abrupt<'a>>((x, Value::Undefined)),
                w1,
            )
        }),
{
}

// ---- dynamic imports

/// An import is resolved from the `url` of its module's `import.meta` where that is a text, and else from
/// where scripts are.
pub proof fn imports_are_resolved_from_their_module<'a>(m: Value, t: u64, w: World<'a>)
    ensures
        ({
            let (r, after) = import_referrer_step(Some(m), w);
            let w1 = w.ask(Request::GetMember { base: m, key: Key::Fixed("url") }).1;
            &&& said(w, w.asked.len()) == Answer::<'a>::Value(Value::Str(t)) ==> (r, after) == (
                Ok::<Option<Value>, Abrupt<'a>>(Some(Value::Str(t))),
                w1,
            )
            &&& said(w, w.asked.len()) == Answer::<'a>::Value(Value::Undefined) ==> (r, after)
                == script_referrer_step(w1)
            &&& said(w, w.asked.len()) is Throw ==> (r, after) == script_referrer_step(w1)
        }),
        import_referrer_step(None, w) == script_referrer_step(w),
        w.base is None ==> script_referrer_step(w) == (Ok::<Option<Value>, Abrupt<'a>>(None), w),
        w.base matches Some(b) ==> (w.texts.len() < u64::MAX ==> ({
            let (r, after) = script_referrer_step(w);
            r matches Ok(Some(v)) && v is Str && after.chars(v) == b@
        })),
{
}

/// The module of an import is loaded by its specifier, type and referrer with the engine's loader; without a
/// loader that is a `TypeError`.
pub proof fn imports_are_loaded<'a>(
    specifier: Value,
    attribute: Option<Value>,
    referrer: Option<Value>,
    w: World<'a>,
)
    ensures
        w.loader matches Some(loader) ==> load_import_step(specifier, attribute, referrer, w).1.asked
            == w.asked.push(Request::LoadImport { specifier, attribute, referrer, loader }),
        w.loader is None ==> !(load_import_step(specifier, attribute, referrer, w).0 is Ok) && complains(
            load_import_step(specifier, attribute, referrer, w).1,
            ErrorKind::TypeError,
        ),
{
}

/// What goes wrong in an import rejects its promise: a specifier that cannot be a text, and options that are
/// no object. A source phase import is rejected with a `SyntaxError`.
pub proof fn faulty_imports_reject<'a>(e: &'a Expr, reason: Value, env: Env, depth: u64, w: World<'a>)
    requires
        e matches Expr::ImportCall { spec, options, .. } && options is None && eval_step(
            &**spec,
            env,
            depth,
            w,
        ).0 is Ok,
    ensures
        e matches Expr::ImportCall { spec, phase, .. } && {
            let (v, w1) = eval_step(&**spec, env, depth, w);
            let (t, w2) = to_string_step(v->Ok_0, w1);
            &&& t == Err::<Value, Abrupt<'a>>(Abrupt::Throw(reason)) ==> eval_step(e, env, depth, w)
                == rejected_promise_step(reason, w2)
            &&& t is Ok && phase is Source ==> ({
                let (x, w3) = make_error_step(
                    ErrorKind::SyntaxError,
                    "source phase import is not available",
                    w2,
                );
                x matches Ok(y) ==> eval_step(e, env, depth, w) == rejected_promise_step(y, w3)
            })
        },
        ({
            let (p, w1) = new_promise_step(w);
            p matches Ok(x) ==> ({
                let (u, w2) = reject_promise_step(x, reason, w1);
                u is Ok ==> rejected_promise_step(reason, w) == (Ok::<Value, Abrupt<'a>>(x), w2)
            })
        }),
{
    assert(eval_import_call_step(e, env, depth, w) == eval_step(e, env, depth, w));
}

/// An import loads the module that its specifier names, from where its own module is, and is the promise for
/// its end; a deferred one is deferred.
pub proof fn imports_load_their_module<'a>(e: &'a Expr, env: Env, depth: u64, w: World<'a>)
    requires
        depth > 0,
        e matches Expr::ImportCall { options, phase, .. } && options is None && !(phase is Source),
    ensures
        e matches Expr::ImportCall { spec, phase, .. } && {
            let (v, w1) = eval_step(&**spec, env, depth, w);
            let (t, w2) = to_string_step(v->Ok_0, w1);
            let meta = w2.scopes.bound_value("%importmeta%"@, env);
            let (from, w3) = import_referrer_step(meta, w2);
            let (loaded, w4) = load_import_step(t->Ok_0, None, from->Ok_0, w3);
            v is Ok && t is Ok && from is Ok ==> eval_step(e, env, depth, w) == dynamic_import_step(
                loaded,
                phase is Defer,
                (depth - 1) as u64,
                w4,
            )
        },
{
    if let Expr::ImportCall { spec, phase, options } = e {
        let (v, w1) = eval_step(&**spec, env, depth, w);
        if v is Ok {
            let (t, w2) = to_string_step(v->Ok_0, w1);
            assert(attribute_of_step(None, w2) == (Ok::<Option<Value>, Abrupt<'a>>(None), w2));
        }
    }
    assert(eval_import_call_step(e, env, depth, w) == eval_step(e, env, depth, w));
}

// ---- calls in tail position

/// A call in tail position is left to the caller with the function, the receiver and the arguments that it
/// would have; what cannot be left is evaluated there and then.
pub proof fn tail_calls_are_left<'a>(
    e: &'a Expr,
    func: Value,
    this: Value,
    env: Env,
    depth: u64,
    w: World<'a>,
)
    requires
        e matches Expr::Call { callee, optional, .. } && !*optional && locate_tail_step(
            &**callee,
            env,
            depth,
            w,
        ).0 == Ok::<Option<(Value, Value)>, Abrupt<'a>>(Some((func, this))),
    ensures
        e matches Expr::Call { callee, args, .. } && {
            let w1 = locate_tail_step(&**callee, env, depth, w).1;
            let (ok, w2) = is_callable_step(func, w1);
            let (l, w3) = eval_args_step(args, env, depth, w2);
            &&& ok == Ok::<bool, Abrupt<'a>>(true) ==> (l matches Ok(argv) ==> eval_return_expr_step(
                e,
                env,
                depth,
                w,
            ) == (Ok::<TailEval, Abrupt<'a>>(TailEval::Tail { func, this, args: argv }), w3))
            &&& ok == Ok::<bool, Abrupt<'a>>(false) ==> ({
                let (v, w4) = eval_step(e, env, depth, w2);
                v matches Ok(x) ==> eval_return_expr_step(e, env, depth, w) == (
                    Ok::<TailEval, Abrupt<'a>>(TailEval::Val(x)),
                    w4,
                )
            })
        },
{
    if let Expr::Call { callee, args, optional } = e {
        let w1 = locate_tail_step(&**callee, env, depth, w).1;
        let (ok, w2) = is_callable_step(func, w1);
        let (t, w3) = eval_tail_call_step(e, env, depth, w);
        if let Ok(x) = t {
            assert(tail_or_value_step(x, e, env, depth, w3) == eval_return_expr_step(e, env, depth, w));
        }
    }
}

/// The function and receiver of a call in tail position are those of the call anywhere else; a call of the
/// intrinsic `eval` and of a property of `super` is not left to the caller.
pub proof fn tail_calls_have_receivers<'a>(callee: &'a Expr, env: Env, depth: u64, w: World<'a>)
    ensures
        callee matches Expr::Member { obj, prop, .. } ==> {
            &&& **obj is Super ==> locate_tail_step(callee, env, depth, w) == (
                Ok::<Option<(Value, Value)>, Abrupt<'a>>(None),
                w,
            )
            &&& !(**obj is Super) && !private_name(prop@) ==> ({
                let (b, w1) = eval_step(&**obj, env, depth, w);
                b matches Ok(base) ==> (base is Obj ==> (said(w1, w1.asked.len()) matches Answer::Value(f)
                    ==> locate_tail_step(callee, env, depth, w) == (
                    Ok::<Option<(Value, Value)>, Abrupt<'a>>(Some((f, base))),
                    w1.ask(Request::GetMember { base, key: Key::Source(prop) }).1,
                )))
            })
        },
        callee matches Expr::Ident(name) ==> ({
            let (r, w1) = get_var_with_step(Name::Source(name), env, w);
            r matches Ok(found) ==> {
                &&& name@ != "eval"@ ==> locate_tail_step(callee, env, depth, w) == (
                    Ok::<Option<(Value, Value)>, Abrupt<'a>>(
                        Some(
                            (
                                found.value,
                                if found.receiver is Some {
                                    found.receiver->0
                                } else {
                                    Value::Undefined
                                },
                            ),
                        ),
                    ),
                    w1,
                )
                &&& name@ == "eval"@ && found.receiver is None ==> match said(w1, w1.asked.len()) {
                    Answer::Flag(true) => locate_tail_step(callee, env, depth, w).0 == Ok::<
                        Option<(Value, Value)>,
                        Abrupt<'a>,
                    >(None),
                    Answer::Flag(false) => locate_tail_step(callee, env, depth, w).0 == Ok::<
                        Option<(Value, Value)>,
                        Abrupt<'a>,
                    >(Some((found.value, Value::Undefined))),
                    _ => true,
                }
            }
        }),
{
}

/// A conditional, a comma expression and a logical operator have their last parts in tail position; anything
/// else is its value.
pub proof fn tail_positions<'a>(e: &'a Expr, env: Env, depth: u64, w: World<'a>)
    ensures
        e matches Expr::Cond { test, cons, alt } ==> ({
            let (t, w1) = eval_step(&**test, env, depth, w);
            let (b, w2) = to_boolean_step(t->Ok_0, w1);
            &&& t is Ok && b == Ok::<bool, Abrupt<'a>>(true) ==> eval_return_expr_step(e, env, depth, w)
                == eval_return_expr_step(&**cons, env, depth, w2)
            &&& t is Ok && b == Ok::<bool, Abrupt<'a>>(false) ==> eval_return_expr_step(e, env, depth, w)
                == eval_return_expr_step(&**alt, env, depth, w2)
        }),
        e matches Expr::Logical { op, left, right } ==> ({
            let (l, w1) = eval_step(&**left, env, depth, w);
            let (b, w2) = takes_right_step(op, l->Ok_0, w1);
            &&& l is Ok && b == Ok::<bool, Abrupt<'a>>(true) ==> eval_return_expr_step(e, env, depth, w)
                == eval_return_expr_step(&**right, env, depth, w2)
            &&& l is Ok && b == Ok::<bool, Abrupt<'a>>(false) ==> eval_return_expr_step(e, env, depth, w)
                == (Ok::<TailEval, Abrupt<'a>>(TailEval::Val(l->Ok_0)), w2)
        }),
        e matches Expr::Sequence(items) ==> (items@.len() > 0 ==> ({
            let (u, w1) = eval_front_step(items, env, depth, w);
            u is Ok ==> eval_return_expr_step(e, env, depth, w) == eval_return_expr_step(
                &items@[items@.len() - 1],
                env,
                depth,
                w1,
            )
        })),
        e is Binary || e is Num || e is Ident || e is Member ==> ({
            let (v, w1) = eval_step(e, env, depth, w);
            v matches Ok(x) ==> eval_return_expr_step(e, env, depth, w) == (
                Ok::<TailEval, Abrupt<'a>>(TailEval::Val(x)),
                w1,
            )
        }),
{
}

/// All parts of a comma expression but the last are evaluated in front of it, in their order.
pub proof fn front_parts_are_evaluated<'a>(
    items: &'a Vec<Expr>,
    env: Env,
    depth: u64,
    i: nat,
    left: usize,
    w: World<'a>,
)
    requires
        i < items@.len(),
    ensures
        left <= 1 ==> eval_front_from(items, env, depth, i, left, w) == (Ok::<(), Abrupt<'a>>(()), w),
        left > 1 ==> ({
            let (v, w1) = eval_step(&items@[i as int], env, depth, w);
            &&& v is Ok ==> eval_front_from(items, env, depth, i, left, w) == eval_front_from(
                items,
                env,
                depth,
                i + 1,
                (left - 1) as usize,
                w1,
            )
            &&& v matches Err(a) ==> eval_front_from(items, env, depth, i, left, w) == (
                Err::<(), Abrupt<'a>>(a),
                w1,
            )
        }),
        eval_front_step(items, env, depth, w) == eval_front_from(
            items,
            env,
            depth,
            0,
            items@.len() as usize,
            w,
        ) || items@.len() > usize::MAX,
{
}

// ---- the rest of calls and accesses

/// A call of a property of `super` calls the method that was found on `this`, with the arguments.
pub proof fn super_calls_pass_this<'a>(
    e: &'a Expr,
    f: Value,
    this: Value,
    l: u64,
    env: Env,
    depth: u64,
    w: World<'a>,
)
    requires
        e matches Expr::Call { callee, args, .. } && **callee is Member && locate_super_step(
            &**callee,
            env,
            depth,
            w,
        ).0 == Ok::<Option<(Value, Value)>, Abrupt<'a>>(Some((f, this))) && eval_args_step(
            args,
            env,
            depth,
            locate_super_step(&**callee, env, depth, w).1,
        ).0 == Ok::<u64, Abrupt<'a>>(l),
    ensures
        e matches Expr::Call { callee, args, .. } && {
            let w1 = locate_super_step(&**callee, env, depth, w).1;
            let w2 = eval_args_step(args, env, depth, w1).1;
            let (r, after) = eval_step(e, env, depth, w);
            &&& after.asked == w2.asked.push(Request::Call { func: f, this, args: l })
            &&& said(w2, w2.asked.len()) matches Answer::Value(v) ==> r == Ok::<Value, Abrupt<'a>>(v)
        },
{
    assert(eval_call_step(e, env, depth, w) == eval_step(e, env, depth, w));
}

/// Any other call is made on what was located.
pub proof fn calls_are_located<'a>(e: &'a Expr, target: Target, env: Env, depth: u64, w: World<'a>)
    requires
        e matches Expr::Call { callee, .. } && (**callee is Member || **callee is Index || **callee is Call)
            && locate_super_step(&**callee, env, depth, w) == (
            Ok::<Option<(Value, Value)>, Abrupt<'a>>(None),
            w,
        ) && locate_step(&**callee, env, depth, w).0 == Ok::<Target, Abrupt<'a>>(target),
    ensures
        e matches Expr::Call { callee, args, optional } && eval_step(e, env, depth, w)
            == call_located_step(
            target,
            &**callee,
            args,
            *optional,
            env,
            depth,
            locate_step(&**callee, env, depth, w).1,
        ),
{
    assert(eval_call_step(e, env, depth, w) == eval_step(e, env, depth, w));
}

/// A callee whose object is `undefined` or `null` is not called where the access is optional, and the chain
/// is cut short.
pub proof fn optional_callees_stop<'a>(callee: &'a Expr, env: Env, depth: u64, w: World<'a>)
    ensures
        callee matches Expr::Member { obj, optional, .. } ==> ({
            let (b, w1) = eval_step(&**obj, env, depth, w);
            b matches Ok(base) ==> {
                &&& w1.short ==> locate_step(callee, env, depth, w) == (
                    Ok::<Target, Abrupt<'a>>(Target::Short),
                    w1,
                )
                &&& !w1.short && *optional && (base is Undefined || base is Null) ==> locate_step(
                    callee,
                    env,
                    depth,
                    w,
                ) == (Ok::<Target, Abrupt<'a>>(Target::Short), World { short: true, ..w1 })
            }
        }),
        callee matches Expr::Index { obj, optional, .. } ==> ({
            let (b, w1) = eval_step(&**obj, env, depth, w);
            b matches Ok(base) ==> {
                &&& w1.short ==> locate_step(callee, env, depth, w) == (
                    Ok::<Target, Abrupt<'a>>(Target::Short),
                    w1,
                )
                &&& !w1.short && *optional && (base is Undefined || base is Null) ==> locate_step(
                    callee,
                    env,
                    depth,
                    w,
                ) == (Ok::<Target, Abrupt<'a>>(Target::Short), World { short: true, ..w1 })
            }
        }),
{
}

/// A call of an optional chain is made on what the chain locates; the chain around it is cut as it was.
pub proof fn called_chains_keep_the_cut<'a>(
    e: &'a Expr,
    x: &'a Expr,
    target: Target,
    env: Env,
    depth: u64,
    w: World<'a>,
)
    requires
        e matches Expr::Call { callee, .. } && **callee == Expr::OptionalChain(Box::new(*x)) && locate_step(
            x,
            env,
            depth,
            World { short: false, ..w },
        ).0 == Ok::<Target, Abrupt<'a>>(target),
    ensures
        e matches Expr::Call { args, optional, .. } && {
            let w1 = locate_step(x, env, depth, World { short: false, ..w }).1;
            let (r, w2) = call_located_step(target, x, args, *optional, env, depth, w1);
            !w2.short ==> eval_step(e, env, depth, w) == (r, World { short: w.short, ..w2 })
        },
{
    if let Expr::Call { callee, args, optional } = e {
        let w1 = locate_step(x, env, depth, World { short: false, ..w }).1;
        assert(call_found_step(Ok(target), x, args, *optional, env, depth, w1) == call_located_step(
            target,
            x,
            args,
            *optional,
            env,
            depth,
            w1,
        ));
    }
    assert(eval_call_step(e, env, depth, w) == eval_step(e, env, depth, w));
}

/// A computed property of `super` is read with `this` as receiver too.
pub proof fn computed_super_properties<'a>(e: &'a Expr, env: Env, depth: u64, w: World<'a>)
    requires
        e matches Expr::Index { obj, .. } && **obj is Super,
    ensures
        e matches Expr::Index { index, .. } && {
            let (t, w1) = get_var_step(Name::Fixed("this"), env, w);
            let (i, w2) = eval_step(&**index, env, depth, w1);
            let (h, w3) = super_base_step(env, w2);
            let (k, w4) = to_property_key_step(i->Ok_0, w3);
            t is Ok && i is Ok && k is Ok ==> match h {
                Ok(Value::Obj(o)) => eval_step(e, env, depth, w).1.asked == w4.asked.push(
                    Request::GetMemberFor {
                        base: Value::Obj(o),
                        key: k->Ok_0,
                        receiver: t->Ok_0,
                    },
                ),
                _ => true,
            }
        },
{
    assert(eval_access_step(e, env, depth, w) == eval_step(e, env, depth, w));
}

/// Reading a private member evaluates the object and reads the member under the key that the name stands for.
pub proof fn private_accesses<'a>(e: &'a Expr, hidden: u64, base: Value, env: Env, depth: u64, w: World<'a>)
    requires
        e matches Expr::Member { obj, prop, optional } && !(**obj is Super) && private_name(prop@) && !*optional && ({
            let (b, w1) = eval_step(&**obj, env, depth, w);
            &&& b == Ok::<Value, Abrupt<'a>>(base)
            &&& !w1.short
            &&& w1.scopes.private_key(env, prop@) == Some(hidden)
        }),
    ensures
        e matches Expr::Member { obj, .. } && eval_step(e, env, depth, w) == get_private_member_step(
            base,
            Key::Made(hidden),
            eval_step(&**obj, env, depth, w).1,
        ),
{
    assert(eval_access_step(e, env, depth, w) == eval_step(e, env, depth, w));
}

/// `yield` gives the value of its operand, `undefined` without one; `yield*` delegates to it, in an
/// asynchronous generator asynchronously.
pub proof fn yields_give_their_operand<'a>(e: &'a Expr, env: Env, depth: u64, w: World<'a>)
    requires
        e is Yield,
    ensures
        e matches Expr::Yield { delegate, arg } && {
            let (v, w1) = match arg {
                Some(x) => eval_step(&**x, env, depth, w),
                None => (Ok::<Value, Abrupt<'a>>(Value::Undefined), w),
            };
            let n = w1.asked.len();
            let w2 = w1.ask(Request::InGenerator).1;
            let w3 = w2.ask(Request::InAsyncGenerator).1;
            v is Ok && said(w1, n) == Answer::<'a>::Flag(true) ==> {
                &&& !*delegate ==> eval_step(e, env, depth, w) == yield_one_step(v->Ok_0, w2)
                &&& *delegate && said(w1, n + 1) == Answer::<'a>::Flag(false) ==> eval_step(
                    e,
                    env,
                    depth,
                    w,
                ) == yield_delegate_step(v->Ok_0, w3)
                &&& *delegate && said(w1, n + 1) == Answer::<'a>::Flag(true) ==> eval_step(
                    e,
                    env,
                    depth,
                    w,
                ) == yield_delegate_async_step(v->Ok_0, w3)
            }
        },
{
    assert(eval_wrapping_step(e, env, depth, w) == eval_step(e, env, depth, w));
}

/// A keyed value of an object literal is an ordinary property of the object with that value; an anonymous
/// function is named after the key first.
pub proof fn keyed_values_are_defined<'a>(
    key: &'a PropKey,
    value: &'a Expr,
    obj: Value,
    k: Key<'a>,
    v: Value,
    env: Env,
    depth: u64,
    w: World<'a>,
)
    requires
        eval_step(value, env, depth, w).0 == Ok::<Value, Abrupt<'a>>(v),
    ensures
        ({
            let w1 = eval_step(value, env, depth, w).1;
            let (nm, w2) = name_function_step(v, "", k, false, w1);
            let defined = Request::DefineOwn { base: obj, key: k, prop: Property::of(v, true, true, true) };
            let after = define_value_step(key, value, obj, k, env, depth, w).1;
            &&& !anonymous_fn(value) ==> after.asked == w1.asked.push(defined)
            &&& anonymous_fn(value) && nm is Ok ==> after.asked == w2.asked.push(defined)
        }),
{
}

/// The properties of an object literal are defined in their order, each under its own key; a shorthand is a
/// keyed value.
pub proof fn keyed_values_go_into_the_object<'a>(
    props: &'a Vec<PropDef>,
    obj: Value,
    home: Env,
    env: Env,
    depth: u64,
    i: nat,
    w: World<'a>,
)
    requires
        i < props@.len(),
    ensures
        props@[i as int] matches PropDef::KeyValue { key, value } ==> ({
            let (k, w1) = eval_prop_key_step(&key, env, depth, w);
            let (u, w2) = define_value_step(&key, &value, obj, k->Ok_0, env, depth, w1);
            k is Ok && u is Ok ==> fill_object_from(props, obj, home, env, depth, i, w)
                == fill_object_from(props, obj, home, env, depth, i + 1, w2)
        }),
        props@[i as int] matches PropDef::Cover { key, value } ==> ({
            let (k, w1) = eval_prop_key_step(&key, env, depth, w);
            let (u, w2) = define_value_step(&key, &value, obj, k->Ok_0, env, depth, w1);
            k is Ok && u is Ok ==> fill_object_from(props, obj, home, env, depth, i, w)
                == fill_object_from(props, obj, home, env, depth, i + 1, w2)
        }),
{
}

/// The object of a template that is evaluated for the first time: the arrays of its texts as they are written
/// and with their escapes replaced, the first of them under `raw` of the second, which is kept for later.
pub proof fn new_templates_are_kept<'a>(
    quasis: &'a Vec<(Option<String>, String)>,
    strings: Value,
    raws: Value,
    w: World<'a>,
)
    requires
        said(w, w.asked.len()) == Answer::<'a>::Value(Value::Undefined),
    ensures
        ({
            let w1 = w.ask(Request::CachedTemplate(quasis)).1;
            let cooked = w1.next_list();
            let (u1, w2) = push_cooked_step(quasis, cooked, w1.new_list(Seq::empty()));
            let raw = w2.next_list();
            let (u2, w3) = push_raw_step(quasis, raw, w2.new_list(Seq::empty()));
            let w4 = w3.ask(Request::ArrayOf { list: cooked }).1;
            let w5 = w4.ask(Request::ArrayOf { list: raw }).1;
            let (f1, w6) = freeze_object_step(raws, w5);
            let w7 = w6.ask(
                Request::DefineOwn {
                    base: strings,
                    key: Key::Fixed("raw"),
                    prop: Property::of(raws, false, false, false),
                },
            ).1;
            let (f2, w8) = freeze_object_step(strings, w7);
            let (r, after) = template_object_step(quasis, w);
            u1 is Ok && u2 is Ok && said(w3, w3.asked.len()) == Answer::<'a>::Value(strings) && said(
                w4,
                w4.asked.len(),
            ) == Answer::<'a>::Value(raws) && f1 is Ok && !(said(w6, w6.asked.len()) is Throw) && !(said(
                w6,
                w6.asked.len(),
            ) is Return) && f2 is Ok ==> {
                &&& after.asked == w8.asked.push(Request::CacheTemplate { quasis, object: strings })
                &&& r matches Ok(v) ==> v == strings
            }
        }),
        ({
            let obj = strings;
            let w1 = w.ask(Request::PreventExtensions(obj)).1;
            let w2 = w1.ask(Request::OwnKeys(obj)).1;
            !(said(w, w.asked.len()) is Throw) && !(said(w, w.asked.len()) is Return) ==> match said(
                w1,
                w1.asked.len(),
            ) {
                Answer::Handle(keys) => freeze_object_step(obj, w) == freeze_keys_step(obj, keys, w2),
                _ => true,
            }
        }),
{
}

/// `import.meta` is what the scope of the module has for it, and `new.target` what the function's scope has,
/// `undefined` where there is none.
pub proof fn meta_properties<'a>(e: &'a Expr, env: Env, depth: u64, w: World<'a>)
    ensures
        e is ImportMeta ==> {
            &&& w.scopes.bound_value("%importmeta%"@, env) matches Some(v) ==> eval_step(e, env, depth, w) == (
                Ok::<Value, Abrupt<'a>>(v),
                w,
            )
            &&& w.scopes.bound_value("%importmeta%"@, env) is None ==> eval_step(
                e,
                env,
                depth,
                w,
            ).1.asked == w.asked.push(Request::DefaultImportMeta)
        },
        e is NewTarget ==> {
            &&& w.scopes.bound_value("%newtarget%"@, env) matches Some(v) ==> eval_step(e, env, depth, w) == (
                Ok::<Value, Abrupt<'a>>(v),
                w,
            )
            &&& w.scopes.bound_value("%newtarget%"@, env) is None ==> eval_step(e, env, depth, w) == (
                Ok::<Value, Abrupt<'a>>(Value::Undefined),
                w,
            )
        },
        e matches Expr::Regex { body, flags } ==> eval_step(e, env, depth, w).1.asked[w.asked.len() as int]
            == (Request::MakeRegExp { body, flags }),
        e is Super ==> !(eval_step(e, env, depth, w).0 is Ok),
{
}

/// The attributes of an import are those that its options give.
pub proof fn options_give_attributes<'a>(o: Value, w: World<'a>)
    ensures
        attribute_of_step(Some(o), w) == import_attributes_step(o, w),
        attribute_of_step(None, w) == (Ok::<Option<Value>, Abrupt<'a>>(None), w),
{
}

} // verus!
