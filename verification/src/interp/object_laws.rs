//! What holds of properties and variables, whatever the host answers.
use vstd::prelude::*;

use crate::grammar::Symbol;
use crate::interp::object::{
    assign_global_step, assign_target_from, assign_target_step, assign_var_step, assign_with_step,
    copy_characters_from, copy_data_properties_into_step, copy_data_properties_step,
    copy_keys_from, copy_keys_step, copy_own_step, copy_proxied_step,
    create_list_from_arraylike_step, define_halves_step, delete_ident_from, delete_own_step,
    delete_prop_on_step, enum_level_from, enum_level_step, enum_objects_from,
    get_private_member_step, get_resolved_step, get_var_step, get_var_with_from,
    has_own_or_exotic_step, import_attributes_step, js_has_property_from, js_has_property_step,
    list_elements_from, list_elements_step, native_constructs_step, proxy_delete_from,
    proxy_has_step, push_places_from, put_resolved_step, read_attributes_from, read_global_step,
    read_with_step, resolve_name_from, set_private_member_step, string_has_step, super_base_step,
    value_is_constructor_from, with_has_binding_step, AssignTo, RefBase,
};
use crate::interp::operate::char_at;
use crate::interp::promise_laws::said;
use crate::interp::session::{Abrupt, Answer, Env, ErrorKind, Key, Name, Request, Value, World};
use crate::literal::unit_key;
use crate::modules::progress::bump;
use crate::number::count_of;
use crate::scope::{Put, Scope, Stop, Write};
use crate::text::decimal;
use crate::units::unit_count;
use crate::value::props::Property;
use crate::value::typed::TaIndex;

verus! {

/// The last thing asked for is an error of a kind.
pub open spec fn complains<'a>(w: World<'a>, kind: ErrorKind) -> bool {
    w.asked.len() > 0 && (w.asked.last() matches Request::MakeError { kind: k, .. } && k == kind)
}

// ---- properties

/// What a proxy's `has` trap says is what `in` says of the target; the trap gets the target and the key, and
/// may hide a property only if it can be configured and the target can be extended.
pub proof fn traps_tell_what_is_there<'a>(
    target: u64,
    handler: Value,
    trap: Value,
    key: Key<'a>,
    b: bool,
    w: World<'a>,
)
    requires
        key matches Key::Source(_),
        w.lists.len() < u64::MAX,
        w.texts.len() < u64::MAX,
        said(w, w.asked.len()) == Answer::<'a>::Value(Value::Bool(b)),
    ensures
        ({
            let n = w.asked.len();
            let t = Value::Obj(target);
            let (r, after) = proxy_has_step(t, handler, trap, key, w);
            &&& after.asked[n as int] matches Request::Call { func, this, args } && func == trap && this
                == handler && after.list(args).len() == 2 && after.list(args)[0] == t
                && after.list(args)[1] is Str
            &&& b ==> r == Ok::<bool, Abrupt<'a>>(true) && after.asked.len() == n + 1
            &&& !b && (said(w, n + 1) is Value) ==> r == Ok::<bool, Abrupt<'a>>(false)
            &&& !b ==> (said(w, n + 1) matches Answer::Own(p) ==> (said(w, n + 2) matches Answer::Flag(
                open,
            ) ==> {
                &&& p.configurable && open ==> r == Ok::<bool, Abrupt<'a>>(false)
                &&& !(p.configurable && open) ==> !(r is Ok) && complains(after, ErrorKind::TypeError)
            }))
        }),
{
}

/// An object has a property that it has itself; one that it has not itself it has if its prototype has it,
/// and without a prototype it has it not.
pub proof fn properties_are_inherited<'a>(o: u64, key: Key<'a>, k: nat, p: Value, w: World<'a>)
    requires
        k > 0,
        key is Symbol,
        said(w, w.asked.len()) is Value,
        said(w, w.asked.len() + 1) == Answer::<'a>::Flag(false),
        said(w, w.asked.len() + 2) == Answer::<'a>::Index(TaIndex::Ordinary),
    ensures
        ({
            let n = w.asked.len();
            let obj = Value::Obj(o);
            let (r, after) = js_has_property_from(obj, key, k, obj, w);
            &&& said(w, n + 3) == Answer::<'a>::Flag(true) ==> r == Ok::<bool, Abrupt<'a>>(true)
                && after.asked.last() == (Request::HasOwn { base: obj, key })
            &&& said(w, n + 3) == Answer::<'a>::Flag(false) && said(w, n + 4) == Answer::<'a>::Value(p)
                ==> exists|w1: World<'a>|
                #![trigger js_has_property_from(obj, key, (k - 1) as nat, p, w1)]
                w1.asked.len() == n + 5 && w1.asked.last() == Request::<'a>::GetPrototype(obj) && (r, after)
                    == js_has_property_from(obj, key, (k - 1) as nat, p, w1)
        }),
        js_has_property_from(Value::Obj(o), key, k, Value::Null, w) == (
            Ok::<bool, Abrupt<'a>>(false),
            w,
        ),
{
    let n = w.asked.len();
    let obj = Value::Obj(o);
    let w1 = w.ask(Request::TriggerDeferred { base: obj, key }).1;
    let w2 = w1.ask(Request::IsProxy(obj)).1;
    let w3 = w2.ask(Request::IndexKind { base: obj, key }).1;
    let w4 = w3.ask(Request::HasOwn { base: obj, key }).1;
    let w5 = w4.ask(Request::GetPrototype(obj)).1;
    if said(w, n + 3) == Answer::<'a>::Flag(false) && said(w, n + 4) == Answer::<'a>::Value(p) {
        assert(js_has_property_from(obj, key, k, obj, w) == js_has_property_from(
            obj,
            key,
            (k - 1) as nat,
            p,
            w5,
        ));
    }
}

/// An element of a typed array is there and an index that it has not is not, whatever its prototypes have.
pub proof fn typed_elements_are_settled<'a>(base: Value, key: Key<'a>, w: World<'a>)
    ensures
        said(w, w.asked.len()) matches Answer::Index(kind) ==> ({
            let (r, after) = has_own_or_exotic_step(base, key, w);
            &&& kind is Element ==> r == Ok::<Option<bool>, Abrupt<'a>>(Some(true))
            &&& kind is Exotic ==> r == Ok::<Option<bool>, Abrupt<'a>>(Some(false))
            &&& !(kind is Ordinary) ==> after.asked == w.asked.push(Request::IndexKind { base, key })
        }),
{
}

/// A string has its `length` and its places, and no symbol.
pub proof fn strings_have_their_places<'a>(t: u64, key: Key<'a>, w: World<'a>)
    ensures
        key is Symbol ==> string_has_step(Value::Str(t), key, w) == (
            Ok::<bool, Abrupt<'a>>(false),
            w,
        ),
        key matches Key::Source(k) ==> string_has_step(Value::Str(t), key, w) == (
            Ok::<bool, Abrupt<'a>>(unit_key(unit_count(w.text(t)), k@)),
            w,
        ),
{
}

/// A property is deleted if it can be configured; one that is not there is gone already.
pub proof fn configurable_properties_go<'a>(base: Value, key: Key<'a>, w: World<'a>)
    ensures
        ({
            let n = w.asked.len();
            let (r, after) = delete_own_step(base, key, w);
            &&& after.asked[n as int] == (Request::OwnProperty { base, key })
            &&& said(w, n) matches Answer::Own(p) ==> {
                &&& p.configurable && !(said(w, n + 1) is Throw) ==> r == Ok::<bool, Abrupt<'a>>(true)
                    && after.asked.len() == n + 2 && after.asked.last() == (Request::DeleteOwn {
                    base,
                    key,
                })
                &&& !p.configurable ==> r == Ok::<bool, Abrupt<'a>>(false) && after.asked.len() == n + 1
            }
            &&& said(w, n) is Value ==> r == Ok::<bool, Abrupt<'a>>(true) && after.asked.len() == n + 1
        }),
{
}

/// `delete` of a property that cannot be configured is false, and in strict code a `TypeError`; `delete` of
/// one that can is true. A value that is no object and no string has nothing to delete.
pub proof fn delete_tells_whether_it_did<'a>(base: Value, key: Key<'a>, w: World<'a>)
    requires
        key is Source,
        w.texts.len() < u64::MAX,
    ensures
        ({
            let n = w.asked.len();
            let (r, after) = delete_prop_on_step(base, key, w);
            &&& !(base is Obj) && !(base is Str) ==> r == Ok::<Value, Abrupt<'a>>(Value::Bool(true))
                && after == w
            &&& base is Obj && said(w, n) is Value && said(w, n + 1) == Answer::<'a>::Flag(false) && said(
                w,
                n + 2,
            ) == Answer::<'a>::Index(TaIndex::Ordinary) ==> (said(w, n + 3) matches Answer::Own(p) ==> {
                &&& p.configurable && !(said(w, n + 4) is Throw) ==> r == Ok::<Value, Abrupt<'a>>(
                    Value::Bool(true),
                )
                &&& !p.configurable && !w.strict ==> r == Ok::<Value, Abrupt<'a>>(Value::Bool(false))
                &&& !p.configurable && w.strict ==> !(r is Ok) && complains(after, ErrorKind::TypeError)
            })
        }),
{
    let n = w.asked.len();
    if base is Obj && said(w, n) is Value && said(w, n + 1) == Answer::<'a>::Flag(false) && said(w, n + 2)
        == Answer::<'a>::Index(TaIndex::Ordinary) {
        let w1 = w.ask(Request::TriggerDeferred { base, key }).1;
        let w2 = w1.ask(Request::IsProxy(base)).1;
        let w3 = w2.ask(Request::IndexKind { base, key }).1;
        configurable_properties_go(base, key, w3);
        assert(w3.strict == w.strict);
        assert(delete_own_step(base, key, w3).1.strict == w.strict);
    }
}

/// A proxy is asked to delete with its target and the key, and what its trap says is the result; without a
/// trap the target is asked.
pub proof fn proxies_delete_by_their_trap<'a>(
    p: Value,
    key: Key<'a>,
    k: nat,
    handler: u64,
    target: u64,
    w: World<'a>,
)
    requires
        k > 0,
        key is Source,
        w.lists.len() < u64::MAX,
        w.texts.len() < u64::MAX,
        said(w, w.asked.len()) == Answer::<'a>::Value(Value::Obj(handler)),
        said(w, w.asked.len() + 1) == Answer::<'a>::Value(Value::Obj(target)),
    ensures
        ({
            let n = w.asked.len();
            let t = Value::Obj(target);
            let (r, after) = proxy_delete_from(p, key, k, p, w);
            &&& said(w, n + 2) == Answer::<'a>::Value(Value::Undefined) && said(w, n + 3)
                == Answer::<'a>::Flag(false) ==> exists|w1: World<'a>|
                w1.asked.len() == n + 4 && (r, after) == #[trigger] delete_own_step(t, key, w1)
            &&& said(w, n + 2) matches Answer::Value(Value::Obj(f)) ==> (said(w, n + 3) == Answer::<
                'a,
            >::Flag(true) ==> (said(w, n + 4) matches Answer::Value(Value::Bool(b)) ==> {
                &&& after.asked[n as int + 4] matches Request::Call { func, this, args } && func
                    == Value::Obj(f) && this == Value::Obj(handler) && after.list(args).len() == 2
                    && after.list(args)[0] == t
                &&& !b ==> r == Ok::<bool, Abrupt<'a>>(false)
                &&& b && said(w, n + 5) is Value ==> r == Ok::<bool, Abrupt<'a>>(true)
            }))
        }),
{
    let n = w.asked.len();
    let t = Value::Obj(target);
    let w1 = w.ask(Request::ProxyHandler(p)).1;
    let w2 = w1.ask(Request::ProxyTarget(p)).1;
    let w3 = w2.ask(
        Request::GetMember { base: Value::Obj(handler), key: Key::Fixed("deleteProperty") },
    ).1;
    let w4 = w3.ask(Request::IsProxy(t)).1;
    if said(w, n + 2) == Answer::<'a>::Value(Value::Undefined) && said(w, n + 3) == Answer::<'a>::Flag(
        false,
    ) {
        assert(proxy_delete_from(p, key, k, p, w) == delete_own_step(t, key, w4));
    }
}

/// A private member is read as its value, or by its getter on the object itself; an object without it is a
/// `TypeError`.
pub proof fn private_members_are_read<'a>(o: u64, key: Key<'a>, w: World<'a>)
    requires
        key is Made,
        w.lists.len() < u64::MAX,
        w.texts.len() < u64::MAX,
    ensures
        ({
            let n = w.asked.len();
            let base = Value::Obj(o);
            let (r, after) = get_private_member_step(base, key, w);
            &&& after.asked[n as int] == (Request::OwnProperty { base, key })
            &&& said(w, n) matches Answer::Own(p) ==> {
                &&& !p.accessor ==> r == Ok::<Value, Abrupt<'a>>(p.value) && after.asked.len() == n + 1
                &&& p.accessor ==> (p.get matches Some(f) ==> {
                    &&& after.asked.len() == n + 2
                    &&& after.asked.last() matches Request::Call { func, this, args } && func == f && this
                        == base && after.list(args).len() == 0
                    &&& said(w, n + 1) matches Answer::Value(v) ==> r == Ok::<Value, Abrupt<'a>>(v)
                })
                &&& p.accessor && p.get is None ==> !(r is Ok) && complains(after, ErrorKind::TypeError)
            }
            &&& said(w, n) is Value ==> !(r is Ok) && complains(after, ErrorKind::TypeError)
        }),
{
}

/// A private member that can be written takes the value and keeps its other attributes; an accessor's setter
/// gets the value on the object itself; a method and a member that is not there are a `TypeError`.
pub proof fn private_members_are_written<'a>(o: u64, key: Key<'a>, v: Value, w: World<'a>)
    requires
        key is Made,
        w.lists.len() < u64::MAX,
        w.texts.len() < u64::MAX,
    ensures
        ({
            let n = w.asked.len();
            let base = Value::Obj(o);
            let (r, after) = set_private_member_step(base, key, v, w);
            &&& after.asked[n as int] == (Request::OwnProperty { base, key })
            &&& said(w, n) matches Answer::Own(p) ==> {
                &&& !p.accessor && p.writable ==> after.asked.len() == n + 2 && (after.asked.last() matches
                    Request::DefineOwn { base: b, key: k, prop } && b == base && k == key && prop.value == v
                    && prop.writable && prop.enumerable == p.enumerable && prop.configurable
                    == p.configurable)
                &&& !p.accessor && !p.writable ==> !(r is Ok) && complains(after, ErrorKind::TypeError)
                &&& p.accessor ==> (p.set matches Some(f) ==> {
                    &&& after.asked.len() == n + 2
                    &&& after.asked.last() matches Request::Call { func, this, args } && func == f && this
                        == base && after.list(args) =~= seq![v]
                })
                &&& p.accessor && p.set is None ==> !(r is Ok) && complains(after, ErrorKind::TypeError)
            }
            &&& said(w, n) is Value ==> !(r is Ok) && complains(after, ErrorKind::TypeError)
        }),
{
}

/// The halves of an accessor: each half that is given is the one of the property, and a half that is not
/// given is the one that was there.
pub proof fn accessor_halves_join<'a>(
    base: Value,
    key: Key<'a>,
    getter: Option<Value>,
    setter: Option<Value>,
    enumerable: bool,
    w: World<'a>,
)
    ensures
        ({
            let n = w.asked.len();
            let (r, after) = define_halves_step(base, key, getter, setter, enumerable, w);
            &&& said(w, n) matches Answer::Own(q) ==> (after.asked.len() == n + 2 && (after.asked.last()
                matches Request::DefineOwn { base: b, key: k, prop } && b == base && k == key
                && prop.accessor && prop.enumerable == (if q.accessor {
                q.enumerable
            } else {
                enumerable
            }) && (getter is Some ==> prop.get
                == getter) && (setter is Some ==> prop.set == setter) && (getter is None && q.accessor
                ==> prop.get == q.get) && (setter is None && q.accessor ==> prop.set == q.set)))
            &&& said(w, n) is Value ==> (after.asked.last() matches Request::DefineOwn {
                base: b,
                key: k,
                prop,
            } && b == base && k == key && prop.accessor && prop.get == getter && prop.set == setter
                && prop.enumerable == enumerable && prop.configurable)
        }),
{
}

/// A property is copied if it is enumerable: what the source reads is defined on the target as an ordinary
/// property under the same key.
pub proof fn enumerable_properties_are_copied<'a>(
    source: Value,
    target: Value,
    key: Key<'a>,
    w: World<'a>,
)
    ensures
        ({
            let n = w.asked.len();
            let (r, after) = copy_own_step(source, target, key, w);
            &&& after.asked[n as int] == (Request::OwnProperty { base: source, key })
            &&& said(w, n) matches Answer::Own(p) ==> {
                &&& !p.enumerable ==> r is Ok && after.asked.len() == n + 1
                &&& p.enumerable ==> after.asked[n as int + 1] == (Request::GetMember { base: source, key })
                &&& p.enumerable ==> (said(w, n + 1) matches Answer::Value(v) ==> after.asked.last() == (
                Request::DefineOwn { base: target, key, prop: Property::of(v, true, true, true) }))
            }
            &&& said(w, n) is Value ==> r is Ok && after.asked.len() == n + 1
        }),
{
}

/// A proxy's property is copied if its descriptor says that it is enumerable.
pub proof fn proxied_properties_are_copied<'a>(
    source: Value,
    target: Value,
    key: Key<'a>,
    d: u64,
    w: World<'a>,
)
    ensures
        ({
            let n = w.asked.len();
            let (r, after) = copy_proxied_step(source, target, key, w);
            &&& after.asked[n as int] == (Request::ProxyDescriptor { base: source, key })
            &&& said(w, n) == Answer::<'a>::Value(Value::Undefined) ==> r is Ok && after.asked.len() == n
                + 1
            &&& said(w, n) == Answer::<'a>::Value(Value::Obj(d)) ==> (said(w, n + 1) matches
                Answer::Value(Value::Bool(b)) ==> {
                &&& after.asked[n as int + 1] == (Request::GetMember {
                    base: Value::Obj(d),
                    key: Key::Fixed("enumerable"),
                })
                &&& !b ==> r is Ok && after.asked.len() == n + 2
                &&& b ==> after.asked[n as int + 2] == (Request::GetMember { base: source, key })
                &&& b ==> (said(w, n + 2) matches Answer::Value(v) ==> after.asked.last() == (
                Request::DefineOwn { base: target, key, prop: Property::of(v, true, true, true) }))
            })
        }),
{
}

/// The properties of an object are copied key by key, in the order of its keys, but for the keys left out.
pub proof fn keys_are_copied_in_order<'a>(
    source: Value,
    target: Value,
    keys: u64,
    excluded: u64,
    t: u64,
    k: nat,
    w: World<'a>,
)
    requires
        k > 0,
    ensures
        !w.has_item(keys, 0) ==> copy_keys_from(source, target, keys, excluded, false, k, w) == (
            Ok::<(), Abrupt<'a>>(()),
            w,
        ),
        w.has_item(keys, 0) && w.item(keys, 0) == Value::Str(t) ==> ({
            let w1 = w.drop_item(keys);
            let key = Key::<'a>::Made(t);
            &&& w1.lists_key(excluded, key) ==> copy_keys_from(
                source,
                target,
                keys,
                excluded,
                false,
                k,
                w,
            ) == copy_keys_from(source, target, keys, excluded, false, (k - 1) as nat, w1)
            &&& !w1.lists_key(excluded, key) && copy_own_step(source, target, key, w1).0 is Ok
                ==> copy_keys_from(source, target, keys, excluded, false, k, w) == copy_keys_from(
                source,
                target,
                keys,
                excluded,
                false,
                (k - 1) as nat,
                copy_own_step(source, target, key, w1).1,
            )
            &&& !w1.lists_key(excluded, key) && copy_proxied_step(source, target, key, w1).0 is Ok
                ==> copy_keys_from(source, target, keys, excluded, true, k, w) == copy_keys_from(
                source,
                target,
                keys,
                excluded,
                true,
                (k - 1) as nat,
                copy_proxied_step(source, target, key, w1).1,
            )
        }),
{
}

/// A new object with what is enumerable of an object: the keys that the host lists are copied to the object
/// that it makes, which is the result.
pub proof fn rests_are_new_objects<'a>(o: u64, excluded: u64, t: Value, keys: u64, w: World<'a>)
    requires
        said(w, w.asked.len()) == Answer::<'a>::Value(t),
        said(w, w.asked.len() + 1) == Answer::<'a>::Flag(false),
        said(w, w.asked.len() + 2) == Answer::<'a>::Handle(keys),
    ensures
        ({
            let source = Value::Obj(o);
            let w1 = w.ask(Request::MakeObject).1;
            let w2 = w1.ask(Request::IsProxy(source)).1;
            let w3 = w2.ask(Request::OwnKeys(source)).1;
            let (r, after) = copy_data_properties_step(source, excluded, w);
            copy_keys_step(source, t, keys, excluded, false, w3).0 is Ok ==> r == Ok::<
                Value,
                Abrupt<'a>,
            >(t) && after == copy_keys_step(source, t, keys, excluded, false, w3).1
        }),
        forall|target: Value, source: Value|
            !(source is Obj) && !(source is Str) ==> #[trigger] copy_data_properties_into_step(
                target,
                source,
                excluded,
                w,
            ) == (Ok::<(), Abrupt<'a>>(()), w),
{
}

/// The characters of a string are copied under their places, but for the places left out.
pub proof fn characters_are_copied<'a>(
    target: Value,
    text: Value,
    excluded: u64,
    k: nat,
    n: u64,
    w: World<'a>,
)
    requires
        k > 0,
        w.texts.len() < u64::MAX,
    ensures
        char_at(w.chars(text), n) is None ==> copy_characters_from(target, text, excluded, k, n, w) == (
            Ok::<(), Abrupt<'a>>(()),
            w,
        ),
        char_at(w.chars(text), n) matches Some(c) ==> {
            &&& w.lists_key(excluded, Key::Index(n)) ==> copy_characters_from(
                target,
                text,
                excluded,
                k,
                n,
                w,
            ) == copy_characters_from(target, text, excluded, (k - 1) as nat, bump(n), w)
            &&& !w.lists_key(excluded, Key::Index(n)) ==> ({
                let w1 = w.add_text(c);
                let w2 = w1.ask(
                    Request::DefineOwn {
                        base: target,
                        key: Key::Index(n),
                        prop: Property::of(w.next_text(), true, true, true),
                    },
                ).1;
                !(said(w, w.asked.len()) is Throw) ==> copy_characters_from(
                    target,
                    text,
                    excluded,
                    k,
                    n,
                    w,
                ) == copy_characters_from(target, text, excluded, (k - 1) as nat, bump(n), w2)
            })
        },
{
}

// ---- enumeration

/// The keys of an object's elements come first; an object that is a proxy gives the keys that the host lists;
/// and then come those of its prototype.
pub proof fn enumerations_go_up<'a>(
    o: u64,
    seen: u64,
    list: u64,
    k: nat,
    first: u64,
    keys: u64,
    w: World<'a>,
)
    requires
        k > 0,
        said(w, w.asked.len()) == Answer::<'a>::Flag(false),
        said(w, w.asked.len() + 1) == Answer::<'a>::Handle(first),
    ensures
        enum_objects_from(Value::Obj(o), seen, list, k, Value::Null, w) == (
            Ok::<u64, Abrupt<'a>>(list),
            w,
        ),
        ({
            let v = Value::Obj(o);
            let w1 = w.ask(Request::IsProxy(v)).1.ask(Request::ElementKeys(v)).1;
            let (u1, w2) = enum_level_step(v, first, seen, list, true, w1);
            let w3 = w2.ask(Request::OwnKeys(v)).1;
            let (u2, w4) = enum_level_step(v, keys, seen, list, false, w3);
            u1 is Ok && said(w2, w2.asked.len()) == Answer::<'a>::Handle(keys) && u2 is Ok ==> match said(
                w4,
                w4.asked.len(),
            ) {
                Answer::Value(p) => enum_objects_from(v, seen, list, k, v, w) == enum_objects_from(
                    v,
                    seen,
                    list,
                    (k - 1) as nat,
                    p,
                    w4.ask(Request::GetPrototype(v)).1,
                ),
                _ => true,
            }
        }),
{
}

/// A key is listed once: one that was seen is passed over, and one that is not enumerable is seen but not
/// listed.
pub proof fn keys_are_listed_once<'a>(
    base: Value,
    keys: u64,
    seen: u64,
    list: u64,
    t: u64,
    k: nat,
    w: World<'a>,
)
    requires
        k > 0,
        w.has_item(keys, 0),
        w.item(keys, 0) == Value::Str(t),
        !w.drop_item(keys).private(Key::Made(t)),
        keys != seen,
        seen < w.lists.len(),
        list < w.lists.len(),
    ensures
        ({
            let w1 = w.drop_item(keys);
            let key = Key::<'a>::Made(t);
            let w2 = w1.with_list(seen, w1.list(seen).push(Value::Str(t)));
            let w3 = w2.ask(Request::OwnProperty { base, key }).1;
            let listed = w3.with_list(list, w3.list(list).push(Value::Str(t)));
            let all = enum_level_from(base, keys, seen, list, false, k, w);
            &&& w1.lists_key(seen, key) ==> all == enum_level_from(
                base,
                keys,
                seen,
                list,
                false,
                (k - 1) as nat,
                w1,
            )
            &&& !w1.lists_key(seen, key) ==> match said(w, w.asked.len()) {
                Answer::Own(p) => all == enum_level_from(
                    base,
                    keys,
                    seen,
                    list,
                    false,
                    (k - 1) as nat,
                    if p.enumerable {
                        listed
                    } else {
                        w3
                    },
                ),
                Answer::Value(_) => all == enum_level_from(
                    base,
                    keys,
                    seen,
                    list,
                    false,
                    (k - 1) as nat,
                    w3,
                ),
                _ => true,
            }
        }),
{
}

/// The places of a string are listed in order, as decimal texts.
pub proof fn places_are_listed<'a>(units: u64, list: u64, k: nat, n: u64, w: World<'a>)
    requires
        k > 0,
    ensures
        n >= units ==> push_places_from(units, list, k, n, w) == (Ok::<u64, Abrupt<'a>>(list), w),
        n < units ==> ({
            let w1 = w.add_text(decimal(n as nat));
            push_places_from(units, list, k, n, w) == push_places_from(
                units,
                list,
                (k - 1) as nat,
                (n + 1) as u64,
                w1.with_list(list, w1.list(list).push(w.next_text())),
            )
        }),
{
}

/// The elements of an array-like object are listed in order, as many as its `length` says.
pub proof fn arraylikes_are_listed<'a>(obj: Value, length: u64, list: u64, k: nat, n: u64, w: World<'a>)
    requires
        k > 0,
    ensures
        n >= length ==> list_elements_from(obj, length, list, k, n, w) == (
            Ok::<u64, Abrupt<'a>>(list),
            w,
        ),
        n < length ==> match said(w, w.asked.len()) {
            Answer::Value(v) => ({
                let w1 = w.ask(Request::GetMember { base: obj, key: Key::Index(n) }).1;
                list_elements_from(obj, length, list, k, n, w) == list_elements_from(
                    obj,
                    length,
                    list,
                    (k - 1) as nat,
                    (n + 1) as u64,
                    w1.with_list(list, w1.list(list).push(v)),
                )
            }),
            _ => true,
        },
        said(w, w.asked.len()) matches Answer::Value(Value::Num(x)) ==> ({
            let w1 = w.ask(Request::GetMember { base: obj, key: Key::Fixed("length") }).1;
            create_list_from_arraylike_step(obj, w) == list_elements_step(
                obj,
                count_of(x),
                w1.next_list(),
                w1.new_list(Seq::empty()),
            )
        }),
{
}

// ---- import attributes

/// The type that an import asks for is the text under `type`; an attribute that is no text is a `TypeError`,
/// and a symbol and one that is not enumerable do not count.
pub proof fn attributes_name_the_type<'a>(
    with: Value,
    keys: u64,
    k: nat,
    kind: Option<Value>,
    t: u64,
    w: World<'a>,
)
    requires
        k > 0,
        w.texts.len() < u64::MAX,
    ensures
        !w.has_item(keys, 0) ==> read_attributes_from(with, keys, false, k, kind, w) == (
            Ok::<Option<Value>, Abrupt<'a>>(kind),
            w,
        ),
        w.has_item(keys, 0) && w.item(keys, 0) is Sym ==> read_attributes_from(
            with,
            keys,
            false,
            k,
            kind,
            w,
        ) == read_attributes_from(with, keys, false, (k - 1) as nat, kind, w.drop_item(keys)),
        w.has_item(keys, 0) && w.item(keys, 0) == Value::Str(t) ==> match said(w, w.asked.len()) {
            Answer::Own(p) => ({
                let key = Key::<'a>::Made(t);
                let w1 = w.drop_item(keys).ask(Request::OwnProperty { base: with, key }).1;
                let w2 = w1.ask(Request::GetMember { base: with, key }).1;
                let all = read_attributes_from(with, keys, false, k, kind, w);
                &&& !p.enumerable ==> all == read_attributes_from(
                    with,
                    keys,
                    false,
                    (k - 1) as nat,
                    kind,
                    w1,
                )
                &&& p.enumerable ==> match said(w, w.asked.len() + 1) {
                    Answer::Value(Value::Str(x)) => all == read_attributes_from(
                        with,
                        keys,
                        false,
                        (k - 1) as nat,
                        if w2.text(t) == "type"@ {
                            Some(Value::Str(x))
                        } else {
                            kind
                        },
                        w2,
                    ),
                    Answer::Value(_) => !(all.0 is Ok) && complains(all.1, ErrorKind::TypeError),
                    _ => true,
                }
            }),
            _ => true,
        },
{
}

/// Options that are `undefined`, and options without attributes, ask for no type; anything else must be an
/// object.
pub proof fn options_are_objects<'a>(o: Value, w: World<'a>)
    ensures
        o is Undefined ==> import_attributes_step(o, w) == (
            Ok::<Option<Value>, Abrupt<'a>>(None),
            w,
        ),
        !(o is Undefined) && !(o is Obj) ==> !(import_attributes_step(o, w).0 is Ok) && complains(
            import_attributes_step(o, w).1,
            ErrorKind::TypeError,
        ),
        o is Obj ==> ({
            let n = w.asked.len();
            let (r, after) = import_attributes_step(o, w);
            let asks = after.asked[n as int] == (Request::GetMember { base: o, key: Key::Fixed("with") });
            &&& said(w, n) == Answer::<'a>::Value(Value::Undefined) ==> asks && r == Ok::<
                Option<Value>,
                Abrupt<'a>,
            >(None)
            &&& said(w, n) == Answer::<'a>::Value(Value::Null) ==> !(r is Ok) && complains(
                after,
                ErrorKind::TypeError,
            )
        }),
{
}

// ---- variables

/// The object of a `with` scope has a name if it has the property and `@@unscopables` does not hide it.
pub proof fn unscopables_hide<'a>(
    o: u64,
    name: Name<'a>,
    uk: u64,
    list: u64,
    hidden: bool,
    w: World<'a>,
)
    ensures
        ({
            let obj = Value::Obj(o);
            let (there, w1) = js_has_property_step(obj, name.key(), w);
            let n = w1.asked.len();
            let (r, after) = with_has_binding_step(obj, name, w);
            &&& there == Ok::<bool, Abrupt<'a>>(false) ==> r == Ok::<bool, Abrupt<'a>>(false)
            &&& there == Ok::<bool, Abrupt<'a>>(true) && said(w1, n) == Answer::<'a>::Handle(uk) ==> {
                &&& said(w1, n + 1) == Answer::<'a>::Value(Value::Undefined) ==> r == Ok::<
                    bool,
                    Abrupt<'a>,
                >(true)
                &&& said(w1, n + 1) == Answer::<'a>::Value(Value::Obj(list)) && said(w1, n + 2)
                    == Answer::<'a>::Value(Value::Bool(hidden)) ==> r == Ok::<bool, Abrupt<'a>>(!hidden)
                    && after.asked.last() == (Request::GetMember {
                    base: Value::Obj(list),
                    key: name.key(),
                })
            }
        }),
{
}

/// A name of the object of a `with` scope reads as the object's property, with the object as receiver; a name
/// that the object has not is looked for behind it.
pub proof fn with_objects_are_read<'a>(
    name: Name<'a>,
    env: Env,
    e: Env,
    o: u64,
    k: nat,
    hop: bool,
    w: World<'a>,
)
    requires
        k > 0,
    ensures
        ({
            let obj = Value::Obj(o);
            let (b, w1) = with_has_binding_step(obj, name, w);
            let (v, w2) = read_with_step(obj, name, w1);
            let all = get_var_with_from(name, env, k, Stop::With(e, obj), name, hop, w);
            &&& b == Ok::<bool, Abrupt<'a>>(true) ==> (v matches Ok(x) ==> (all.0 matches Ok(found)
                && found.value == x && (!hop ==> found.receiver == Some(obj)) && (hop
                ==> found.receiver is None)))
            &&& b == Ok::<bool, Abrupt<'a>>(false) ==> all == get_var_with_from(
                name,
                env,
                (k - 1) as nat,
                w1.scopes.stop_behind(e, name.chars()),
                name,
                hop,
                w1,
            )
        }),
{
}

/// What a `with` object had is read from it; where it has gone meanwhile it is `undefined`, and in strict code
/// a `ReferenceError`.
pub proof fn gone_properties_read_undefined<'a>(o: u64, name: &'a String, w: World<'a>)
    requires
        w.texts.len() < u64::MAX,
    ensures
        ({
            let obj = Value::Obj(o);
            let key = Key::Source(name);
            let (there, w1) = js_has_property_step(obj, key, w);
            let (r, after) = read_with_step(obj, Name::Source(name), w);
            &&& there == Ok::<bool, Abrupt<'a>>(true) ==> after.asked == w1.asked.push(
                Request::GetMember { base: obj, key },
            )
            &&& there == Ok::<bool, Abrupt<'a>>(true) ==> (said(w1, w1.asked.len()) matches Answer::Value(
                v,
            ) ==> r == Ok::<Value, Abrupt<'a>>(v))
            &&& there == Ok::<bool, Abrupt<'a>>(false) && !w1.strict ==> r == Ok::<Value, Abrupt<'a>>(
                Value::Undefined,
            )
            &&& there == Ok::<bool, Abrupt<'a>>(false) && w1.strict ==> !(r is Ok) && complains(
                after,
                ErrorKind::ReferenceError,
            )
        }),
{
}

/// A name that no scope has is a property of the global object, without a receiver; where that has it not
/// either, reading is a `ReferenceError`.
pub proof fn global_names_are_read<'a>(name: &'a String, g: u64, w: World<'a>)
    requires
        w.texts.len() < u64::MAX,
        said(w, w.asked.len()) == Answer::<'a>::Value(Value::Obj(g)),
    ensures
        ({
            let key = Key::Source(name);
            let w0 = w.ask(Request::GlobalObject).1;
            let (there, w1) = js_has_property_step(Value::Obj(g), key, w0);
            let (r, after) = read_global_step(Name::Source(name), w);
            &&& there == Ok::<bool, Abrupt<'a>>(true) ==> after.asked == w1.asked.push(
                Request::GetMember { base: Value::Obj(g), key },
            )
            &&& there == Ok::<bool, Abrupt<'a>>(true) ==> (said(w1, w1.asked.len()) matches Answer::Value(
                v,
            ) ==> (r matches Ok(found) && found.value == v && found.receiver is None))
            &&& there == Ok::<bool, Abrupt<'a>>(false) ==> !(r is Ok) && complains(
                after,
                ErrorKind::ReferenceError,
            ) || w1.texts.len() >= u64::MAX
        }),
{
}

/// An assignment to a name that nothing has goes to the global object, but that it is a `ReferenceError` in
/// strict code.
pub proof fn global_names_are_written<'a>(name: &'a String, g: u64, w: World<'a>)
    requires
        said(w, w.asked.len()) == Answer::<'a>::Value(Value::Obj(g)),
    ensures
        ({
            let w0 = w.ask(Request::GlobalObject).1;
            let (there, w1) = js_has_property_step(Value::Obj(g), Key::Source(name), w0);
            let (r, after) = assign_global_step(Name::Source(name), w);
            &&& there matches Ok(b) ==> (b || !w1.strict ==> r == Ok::<AssignTo, Abrupt<'a>>(
                AssignTo::Object(Value::Obj(g)),
            ) && after == w1)
            &&& there == Ok::<bool, Abrupt<'a>>(false) && w1.strict ==> !(r is Ok) && complains(
                after,
                ErrorKind::ReferenceError,
            ) || w1.texts.len() >= u64::MAX
        }),
{
}

/// An assignment finds the nearest binding: it is stored there, passed over or refused as the binding says,
/// and otherwise the object of a `with` scope that has the name takes it.
pub proof fn assignments_find_their_place<'a>(
    name: &'a String,
    env: Env,
    at: Env,
    o: u64,
    k: nat,
    w: World<'a>,
)
    requires
        k > 0,
        w.texts.len() < u64::MAX,
    ensures
        ({
            let n = Name::Source(name);
            let here = assign_target_from(n, env, k, Stop::Scope(at), w);
            let (b, w1) = with_has_binding_step(Value::Obj(o), n, w);
            let through = assign_target_from(n, env, k, Stop::With(at, Value::Obj(o)), w);
            &&& w.scopes.write_view(at, name@, w.strict) == Write::Stored ==> here == (
                Ok::<AssignTo, Abrupt<'a>>(AssignTo::Scope(at)),
                w,
            )
            &&& w.scopes.write_view(at, name@, w.strict) == Write::Ignored ==> here == (
                Ok::<AssignTo, Abrupt<'a>>(AssignTo::Nothing),
                w,
            )
            &&& w.scopes.write_view(at, name@, w.strict) == Write::Refused ==> !(here.0 is Ok)
                && complains(here.1, ErrorKind::TypeError)
            &&& b == Ok::<bool, Abrupt<'a>>(false) ==> through == assign_target_from(
                n,
                env,
                (k - 1) as nat,
                w1.scopes.stop_behind(at, name@),
                w1,
            )
            &&& b == Ok::<bool, Abrupt<'a>>(true) ==> through == assign_with_step(Value::Obj(o), n, w1)
        }),
{
}

/// What is assigned to a name is stored in the binding that was found, or set as a property of the object.
pub proof fn assigned_values_are_stored<'a>(name: &'a String, v: Value, env: Env, w: World<'a>)
    ensures
        ({
            let n = Name::Source(name);
            let (t, w1) = assign_target_step(n, env, w);
            let (r, after) = assign_var_step(n, v, env, w);
            &&& t == Ok::<AssignTo, Abrupt<'a>>(AssignTo::Nothing) ==> r is Ok && after == w1
            &&& t matches Ok(AssignTo::Scope(e)) ==> r is Ok && after.asked == w1.asked && (
            w1.scopes.binds(e, name@) ==> after.scopes.value_in(e, name@) == v)
            &&& t matches Ok(AssignTo::Object(o)) ==> after.asked == w1.asked.push(
                Request::SetMember { base: o, key: Key::Source(name), value: v, strict: w1.strict },
            )
        }),
{
}

/// A variable that was resolved reads as its binding's value, and where it is gone as the name reads from
/// there; an import reads what its source has, and a binding that is not initialized is a `ReferenceError`.
pub proof fn resolved_names_are_read<'a>(at: Env, name: &'a String, w: World<'a>)
    requires
        w.texts.len() < u64::MAX,
    ensures
        ({
            let r = get_resolved_step(RefBase::Scope(at), name, w);
            &&& w.scopes.binds(at, name@) && w.scopes.plain_at(at, name@) ==> r == (
                Ok::<Value, Abrupt<'a>>(w.scopes.value_in(at, name@)),
                w,
            )
            &&& !w.scopes.binds(at, name@) ==> r == get_var_step(Name::Source(name), at, w)
            &&& w.scopes.binds(at, name@) && !w.scopes.binding_at(at, name@).initialized ==> !(r.0 is Ok)
                && complains(r.1, ErrorKind::ReferenceError)
            &&& w.scopes.binds(at, name@) && w.scopes.binding_at(at, name@).initialized ==> match (
            w.scopes.import_at(at, name@)) {
                Some((e2, local)) => r == get_var_step(local, e2, w),
                None => true,
            }
        }),
        ({
            let r = get_resolved_step(RefBase::Unresolvable, name, w);
            !(r.0 is Ok) && complains(r.1, ErrorKind::ReferenceError)
        }),
        said(w, w.asked.len()) matches Answer::Value(g) ==> get_resolved_step(
            RefBase::Global,
            name,
            w,
        ).1.asked.last() == (Request::GetMember { base: g, key: Key::Source(name) }),
{
}

/// A write to a variable that was resolved: a constant and an import refuse with a `TypeError`, what is not
/// initialized with a `ReferenceError`, and what may be written reads as the value afterwards. A name that was
/// found nowhere becomes a property of the global object, but in strict code it is a `ReferenceError`.
pub proof fn resolved_names_are_written<'a>(at: Env, name: &'a String, v: Value, w: World<'a>)
    requires
        w.texts.len() < u64::MAX,
    ensures
        ({
            let (r, after) = put_resolved_step(RefBase::Scope(at), name, v, w);
            &&& w.scopes.put_view(at, name@, w.strict) == Put::Stored && w.scopes.binds(at, name@) ==> r is Ok
                && after.asked == w.asked && after.scopes.value_in(at, name@) == v
            &&& w.scopes.put_view(at, name@, w.strict) == Put::Ignored ==> r is Ok && after == w
            &&& w.scopes.put_view(at, name@, w.strict) == Put::Constant ==> !(r is Ok) && complains(
                after,
                ErrorKind::TypeError,
            )
            &&& w.scopes.put_view(at, name@, w.strict) == Put::Import ==> !(r is Ok) && complains(
                after,
                ErrorKind::TypeError,
            )
            &&& w.scopes.put_view(at, name@, w.strict) == Put::Uninitialized ==> !(r is Ok) && complains(
                after,
                ErrorKind::ReferenceError,
            )
            &&& w.scopes.put_view(at, name@, w.strict) == Put::Unbound ==> (r, after)
                == assign_var_step(Name::Source(name), v, at, w)
        }),
        ({
            let (r, after) = put_resolved_step(RefBase::Unresolvable, name, v, w);
            &&& w.strict ==> !(r is Ok) && complains(after, ErrorKind::ReferenceError)
            &&& !w.strict ==> (said(w, w.asked.len()) matches Answer::Value(g) ==> after.asked.last() == (
            Request::SetMember { base: g, key: Key::Source(name), value: v, strict: false }))
        }),
        !w.strict ==> (said(w, w.asked.len()) matches Answer::Value(g) ==> put_resolved_step(
            RefBase::Global,
            name,
            v,
            w,
        ).1.asked.last() == (Request::SetMember {
            base: g,
            key: Key::Source(name),
            value: v,
            strict: false,
        })),
        forall|o: Value|
            {
                let (there, w1) = js_has_property_step(o, Key::Source(name), w);
                there == Ok::<bool, Abrupt<'a>>(true) ==> (#[trigger] put_resolved_step(
                    RefBase::With(o),
                    name,
                    v,
                    w,
                )).1.asked == w1.asked.push(
                    Request::SetMember { base: o, key: Key::Source(name), value: v, strict: w1.strict },
                )
            },
{
}

/// A name resolves to the scope that binds it, or to the object of a `with` scope that has it, or to the
/// global object if that has it.
pub proof fn names_resolve<'a>(name: &'a String, env: Env, at: Env, o: u64, g: u64, k: nat, w: World<'a>)
    requires
        k > 0,
    ensures
        resolve_name_from(name, env, k, Stop::Scope(at), w) == (
            Ok::<RefBase, Abrupt<'a>>(RefBase::Scope(at)),
            w,
        ),
        ({
            let obj = Value::Obj(o);
            let (b, w1) = with_has_binding_step(obj, Name::Source(name), w);
            let r = resolve_name_from(name, env, k, Stop::With(at, obj), w);
            &&& b == Ok::<bool, Abrupt<'a>>(true) ==> r.0 == Ok::<RefBase, Abrupt<'a>>(RefBase::With(obj))
            &&& b == Ok::<bool, Abrupt<'a>>(false) ==> r == resolve_name_from(
                name,
                env,
                (k - 1) as nat,
                w1.scopes.stop_behind(at, name@),
                w1,
            )
        }),
        said(w, w.asked.len()) == Answer::<'a>::Value(Value::Obj(g)) ==> ({
            let w0 = w.ask(Request::GlobalObject).1;
            let there = js_has_property_step(Value::Obj(g), Key::Source(name), w0).0;
            let r = resolve_name_from(name, env, k, Stop::Global, w).0;
            &&& there == Ok::<bool, Abrupt<'a>>(true) ==> r == Ok::<RefBase, Abrupt<'a>>(RefBase::Global)
            &&& there == Ok::<bool, Abrupt<'a>>(false) ==> r == Ok::<RefBase, Abrupt<'a>>(
                RefBase::Unresolvable,
            )
        }),
{
}

/// `delete` of a name takes away a binding that may go, and leaves any other; a name of the global object or
/// of a `with` object is deleted as a property of it.
pub proof fn deletable_names_go<'a>(name: &'a String, env: Env, at: Env, o: u64, k: nat, w: World<'a>)
    requires
        k > 0,
    ensures
        ({
            let (r, after) = delete_ident_from(name, env, k, Stop::Scope(at), w);
            let goes = w.scopes.binds(at, name@) && w.scopes.binding_at(at, name@).deletable;
            &&& r == Ok::<bool, Abrupt<'a>>(goes)
            &&& after.asked == w.asked
            &&& goes ==> !after.scopes.binds(at, name@)
            &&& !goes ==> after == w
        }),
        ({
            let obj = Value::Obj(o);
            let (b, w1) = with_has_binding_step(obj, Name::Source(name), w);
            let r = delete_ident_from(name, env, k, Stop::With(at, obj), w);
            &&& b == Ok::<bool, Abrupt<'a>>(true) ==> r == delete_own_step(obj, Key::Source(name), w1)
            &&& b == Ok::<bool, Abrupt<'a>>(false) ==> r == delete_ident_from(
                name,
                env,
                (k - 1) as nat,
                w1.scopes.stop_behind(at, name@),
                w1,
            )
        }),
        said(w, w.asked.len()) matches Answer::Value(g) ==> delete_ident_from(
            name,
            env,
            k,
            Stop::Global,
            w,
        ) == delete_own_step(g, Key::Source(name), w.ask(Request::GlobalObject).1),
{
}

/// `super` is the prototype of the home object, as the host gives it.
pub proof fn super_is_the_prototype_of_home<'a>(env: Env, h: u64, w: World<'a>)
    requires
        w.scopes.bound_value("%homeobject%"@, env) == Some(Value::Obj(h)),
    ensures
        ({
            let (r, after) = super_base_step(env, w);
            &&& after.asked == w.asked.push(Request::GetPrototype(Value::Obj(h)))
            &&& said(w, w.asked.len()) matches Answer::Value(p) ==> r == Ok::<Value, Abrupt<'a>>(p)
        }),
{
}

/// What can be constructed: a function of the program if it is an ordinary one, a proxy and a bound function
/// if their target can be, and nothing that is no object.
pub proof fn constructors_are_told<'a>(v: Value, o: u64, k: nat, t: Value, w: World<'a>)
    requires
        k > 0,
    ensures
        ({
            let n = w.asked.len();
            let obj = Value::Obj(o);
            let r = value_is_constructor_from(v, k, obj, w);
            &&& said(w, n) == Answer::<'a>::Flag(true) && said(w, n + 1) == Answer::<'a>::Value(t)
                ==> exists|w1: World<'a>|
                #![trigger value_is_constructor_from(v, (k - 1) as nat, t, w1)]
                w1.asked.last() == Request::<'a>::ProxyTarget(obj) && r == value_is_constructor_from(
                    v,
                    (k - 1) as nat,
                    t,
                    w1,
                )
            &&& said(w, n) == Answer::<'a>::Flag(false) && said(w, n + 1) == Answer::<'a>::Flag(true)
                ==> r.1.asked.last() == Request::<'a>::IsOrdinaryFunction(obj) && (said(w, n + 2) matches
                Answer::Flag(b) ==> r.0 == Ok::<bool, Abrupt<'a>>(b))
            &&& said(w, n) == Answer::<'a>::Flag(false) && said(w, n + 1) == Answer::<'a>::Flag(false)
                && said(w, n + 2) == Answer::<'a>::Flag(false) && said(w, n + 3)
                == Answer::<'a>::Flag(false) ==> r.0 == Ok::<bool, Abrupt<'a>>(false)
        }),
        !(v is Obj) ==> value_is_constructor_from(v, k, v, w) == (Ok::<bool, Abrupt<'a>>(false), w),
        ({
            let (r, after) = native_constructs_step(v, w);
            &&& said(w, w.asked.len()) == Answer::<'a>::Flag(true) ==> r == Ok::<bool, Abrupt<'a>>(true)
            &&& said(w, w.asked.len()) == Answer::<'a>::Flag(false) ==> match said(w, w.asked.len() + 1) {
                Answer::Own(p) => r == Ok::<bool, Abrupt<'a>>(!p.accessor),
                Answer::Value(_) => r == Ok::<bool, Abrupt<'a>>(false),
                _ => true,
            }
        }),
{
    let n = w.asked.len();
    let obj = Value::Obj(o);
    if said(w, n) == Answer::<'a>::Flag(true) && said(w, n + 1) == Answer::<'a>::Value(t) {
        let w1 = w.ask(Request::IsProxy(obj)).1.ask(Request::ProxyTarget(obj)).1;
        assert(value_is_constructor_from(v, k, obj, w) == value_is_constructor_from(
            v,
            (k - 1) as nat,
            t,
            w1,
        ));
    }
}

} // verus!
