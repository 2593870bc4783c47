//! What holds of classes and their instances, whatever the host answers.
use vstd::prelude::*;

use crate::ast::{ArrayElem, Class, ClassMember, Function, MemberKind, Stmt};
use crate::grammar::Symbol;
use crate::interp::class::{
    add_field_step, add_static_field_step, apply_transforms_from, apply_transforms_step,
    build_class_step, call_decorator_step, class_heritage_step, constructor_from,
    decorate_callable_from, decorate_field_from, define_callable_step, define_field_step,
    eval_class_step, field_scope_step, field_value_step, init_fields_from, init_fields_step,
    init_instance_fields_step, mint_privates_from, private_key, run_constructor_on_step,
    run_static_block_step, run_user_constructor_step, stamp_each_from, ClassParts,
};
use crate::interp::eval::{bind_super_this_step, eval_args_step, eval_step, eval_super_call_step};
use crate::interp::exec::{exec_simple_step, exec_stmt_step, run_stmt_list_step};
use crate::interp::object::{get_var_step, value_is_constructor_step};
use crate::interp::operate::{call_with_step, throws};
use crate::interp::promise_laws::said;
use crate::interp::session::{
    made_private, place_of_class, Abrupt, Answer, Env, ErrorKind, FieldView, Key, Name,
    PrivateMember, Request, Value, World,
};
use crate::scan::anonymous_fn;
use crate::scope::{Scope, Stop};
use crate::text::decimal;
use crate::value::props::Property;

verus! {

/// Giving private names their keys asks the host for nothing.
proof fn lemma_minting_is_quiet<'a>(
    members: &'a Vec<ClassMember>,
    env: Env,
    i: nat,
    w: World<'a>,
)
    ensures
        mint_privates_from(members, env, i, w).0 is Ok,
        mint_privates_from(members, env, i, w).1.asked == w.asked,
        mint_privates_from(members, env, i, w).1.answers == w.answers,
    decreases members@.len() - i,
{
    if i < members@.len() {
        match private_key(&members@[i as int].key) {
            Some(name) => {
                if w.scopes.binds(env, name@) {
                    lemma_minting_is_quiet(members, env, i + 1, w);
                } else {
                    let w1 = w.count_made();
                    let key = w1.next_text();
                    let w2 = w1.add_text(name@ + "\u{1}"@ + decimal(w1.made as nat));
                    let w3 = w2.bind_var(Name::Source(name), key, env);
                    lemma_minting_is_quiet(members, env, i + 1, w3);
                }
            },
            None => {
                lemma_minting_is_quiet(members, env, i + 1, w);
            },
        }
    }
}

/// A class that extends a constructor inherits from it twice: the object that its instances inherit from
/// is made to inherit from what the constructor's `prototype` is, and the class itself is made to inherit
/// from the constructor. Its `prototype` is that object, and cannot be replaced.
pub proof fn classes_inherit<'a>(
    class: &'a Class,
    name: Option<Name<'a>>,
    parent: Value,
    inherited: Value,
    made: Value,
    ctor: Value,
    own: Env,
    depth: u64,
    w: World<'a>,
)
    requires
        class.superclass matches Some(e) && {
            let (v, w1) = eval_step(&*e, own, depth, w);
            let (ok, w2) = value_is_constructor_step(parent, w1);
            let k = w2.asked.len();
            &&& v == Ok::<Value, Abrupt<'a>>(parent)
            &&& parent is Obj
            &&& ok == Ok::<bool, Abrupt<'a>>(true)
            &&& said(w2, k) == Answer::<'a>::Value(inherited)
            &&& inherited is Obj || inherited is Null
        },
        ({
            let (h, w3) = class_heritage_step(class, own, depth, w);
            let k = w3.asked.len();
            &&& said(w3, k) == Answer::<'a>::Value(made)
            &&& said(w3, k + 1) == Answer::<'a>::Value(ctor)
        }),
    ensures
        ({
            let (h, w3) = class_heritage_step(class, own, depth, w);
            let k = w3.asked.len() as int;
            let (built, after) = build_class_step(class, name, h->Ok_0, own, w3);
            &&& h is Ok
            &&& w3.asked.last() == (Request::GetMember {
                base: parent,
                key: Key::Fixed("prototype"),
            })
            &&& after.asked[k] == (Request::MakeObjectFrom { proto: inherited })
            &&& after.asked[k + 2] == (Request::DefineOwn {
                base: ctor,
                key: Key::Fixed("prototype"),
                prop: Property::of(made, false, false, false),
            })
            &&& after.asked[k + 3] == (Request::SetPrototype { base: ctor, proto: parent })
        }),
{
    let (h, w3) = class_heritage_step(class, own, depth, w);
    assert(h == Ok::<(Value, Option<Value>, bool), Abrupt<'a>>((inherited, Some(parent), true)));
    let w4 = w3.ask(Request::MakeObjectFrom { proto: inherited }).1;
    let class_env = w4.next_scope();
    let w5 = w4.new_scope(Some(own), None, false, false);
    lemma_minting_is_quiet(&class.members, class_env, 0, w5);
}

/// What a class without an `extends` and one that extends `null` inherit from: the prototype of all
/// objects, as the host has it, and nothing.
pub proof fn heritage_without_parent<'a>(class: &'a Class, own: Env, depth: u64, w: World<'a>)
    ensures
        class.superclass is None ==> ({
            let (h, after) = class_heritage_step(class, own, depth, w);
            &&& after.asked.last() == Request::<'a>::ObjectPrototype
            &&& said(w, w.asked.len()) matches Answer::Value(p) ==> h == Ok::<
                (Value, Option<Value>, bool),
                Abrupt<'a>,
            >((p, None, false))
        }),
        class.superclass matches Some(e) ==> (eval_step(&*e, own, depth, w).0 == Ok::<
            Value,
            Abrupt<'a>,
        >(Value::Null) ==> class_heritage_step(class, own, depth, w) == (
            Ok::<(Value, Option<Value>, bool), Abrupt<'a>>((Value::Null, None, true)),
            eval_step(&*e, own, depth, w).1,
        )),
{
}

/// A class cannot extend what is no constructor: that is a `TypeError`.
pub proof fn heritage_must_construct<'a>(class: &'a Class, own: Env, depth: u64, w: World<'a>)
    requires
        class.superclass matches Some(e) && eval_step(&*e, own, depth, w).0 matches Ok(v) && !(
        v is Obj) && v != Value::Null,
    ensures
        class.superclass matches Some(e) && class_heritage_step(class, own, depth, w) == throws::<
            (Value, Option<Value>, bool),
        >(
            ErrorKind::TypeError,
            "Class extends value is not a constructor or null",
            eval_step(&*e, own, depth, w).1,
        ),
{
}

/// The object that instances of a class inherit from has the class as its `constructor`, which is not
/// enumerated, and the parts of the class are what the host has made for it.
pub proof fn prototypes_name_their_constructor<'a>(
    class: &'a Class,
    parent: Value,
    inherited: Value,
    made: Value,
    ctor: Value,
    own: Env,
    w: World<'a>,
)
    requires
        class.name is None,
        said(w, w.asked.len()) == Answer::<'a>::Value(made),
        said(w, w.asked.len() + 1) == Answer::<'a>::Value(ctor),
    ensures
        ({
            let n = w.asked.len() as int;
            let (built, after) = build_class_step(
                class,
                None,
                (inherited, Some(parent), true),
                own,
                w,
            );
            &&& built matches Ok(parts) && parts.ctor == ctor && parts.proto == made && parts.name_env
                == own
            &&& after.asked[n + 1] matches Request::MakeConstructor { func, derived, .. } && derived
                && func == constructor_from(class.members@, 0)
            &&& after.asked[n + 4] == (Request::DefineOwn {
                base: made,
                key: Key::Fixed("constructor"),
                prop: Property::of(ctor, true, false, true),
            })
        }),
{
    let w4 = w.ask(Request::MakeObjectFrom { proto: inherited }).1;
    let class_env = w4.next_scope();
    let w5 = w4.new_scope(Some(own), None, false, false);
    lemma_minting_is_quiet(&class.members, class_env, 0, w5);
}

/// The constructor of a class is the function of its constructor member.
pub proof fn constructors_are_found(members: Seq<ClassMember>, i: nat, k: nat)
    requires
        i <= k < members.len(),
        members[k as int].kind == MemberKind::Constructor,
        forall|j: int|
            i <= j < k ==> (#[trigger] members[j]).kind != MemberKind::Constructor,
    ensures
        constructor_from(members, i) is Some == members[k as int].func is Some,
        members[k as int].func matches Some(f) ==> constructor_from(members, i) == Some(&*f),
    decreases k - i,
{
    if i < k {
        assert(members[i as int].kind != MemberKind::Constructor);
        constructors_are_found(members, i + 1, k);
    }
}

/// A method that no decorator changes becomes a property of the class's prototype object, or of the class
/// itself if it is static: writable and configurable, but not enumerated. The function is the one that the
/// host makes of the method's code in the scope of the class's instance or static members.
pub proof fn methods_are_defined<'a>(
    m: &'a ClassMember,
    func: &'a Function,
    n: &'a String,
    f: Value,
    parts: ClassParts,
    depth: u64,
    w: World<'a>,
)
    requires
        m.decorators@.len() == 0,
        private_key(&m.key) is None,
        said(w, w.asked.len()) == Answer::<'a>::Value(f),
    ensures
        ({
            let (r, after) = define_callable_step(
                m,
                func,
                "",
                "method",
                Key::Source(n),
                parts,
                depth,
                w,
            );
            &&& r is Ok
            &&& after.asked[w.asked.len() as int] == (Request::MakeFunction {
                func,
                env: if m.is_static {
                    parts.static_env
                } else {
                    parts.inst_env
                },
            })
            &&& after.asked.last() == (Request::DefineOwn {
                base: if m.is_static {
                    parts.ctor
                } else {
                    parts.proto
                },
                key: Key::Source(n),
                prop: Property::of(f, true, false, true),
            })
        }),
{
    reveal_with_fuel(decorate_callable_from, 2);
}

/// A private method of a class's instances is kept for each instance, under its key: a property that can
/// be neither written, enumerated nor configured.
pub proof fn private_methods_are_kept<'a>(
    m: &'a ClassMember,
    func: &'a Function,
    key: Key<'a>,
    f: Value,
    parts: ClassParts,
    depth: u64,
    w: World<'a>,
)
    requires
        m.decorators@.len() == 0,
        private_key(&m.key) is Some,
        !m.is_static,
        !(key is Symbol),
        parts.record < w.drafts.len(),
        said(w, w.asked.len()) == Answer::<'a>::Value(f),
    ensures
        ({
            let (r, after) = define_callable_step(m, func, "", "method", key, parts, depth, w);
            &&& r is Ok
            &&& after.draft(parts.record).privates.last() == (PrivateMember {
                key,
                prop: Property::of(f, false, false, false),
            })
            &&& after.draft(parts.record).privates.len() == w.draft(parts.record).privates.len() + 1
        }),
{
    reveal_with_fuel(decorate_callable_from, 2);
}

/// A getter becomes the getter of an accessor, and a setter its setter; the other half stays what it was.
pub proof fn accessors_are_defined<'a>(
    m: &'a ClassMember,
    func: &'a Function,
    n: &'a String,
    f: Value,
    getter: bool,
    parts: ClassParts,
    depth: u64,
    w: World<'a>,
)
    requires
        m.decorators@.len() == 0,
        private_key(&m.key) is None,
        said(w, w.asked.len() + 2) is Own || said(w, w.asked.len() + 2) is Flag,
        said(w, w.asked.len()) == Answer::<'a>::Value(f),
    ensures
        ({
            let prefix = if getter {
                "get "
            } else {
                "set "
            };
            let kind = if getter {
                "getter"
            } else {
                "setter"
            };
            let after = define_callable_step(
                m,
                func,
                prefix,
                kind,
                Key::Source(n),
                parts,
                depth,
                w,
            ).1;
            let k = w.asked.len();
            let target = if m.is_static {
                parts.ctor
            } else {
                parts.proto
            };
            &&& after.asked[k as int + 2] == (Request::OwnProperty {
                base: target,
                key: Key::Source(n),
            })
            &&& after.asked.len() == k + 4
            &&& after.asked.last() matches Request::DefineOwn { base, key, prop } && base == target
                && key == Key::Source(n) && prop.accessor && (getter ==> prop.get == Some(f)) && (
            !getter ==> prop.set == Some(f)) && match said(w, k + 2) {
                Answer::Own(p) => p.accessor ==> (getter ==> prop.set == p.set) && (!getter
                    ==> prop.get == p.get),
                _ => !prop.enumerable && prop.configurable,
            }
        }),
{
    reveal_with_fuel(decorate_callable_from, 2);
    reveal_strlit("getter");
    reveal_strlit("setter");
    reveal_strlit("method");
    assert("getter"@[0] != "method"@[0]);
    assert("setter"@[0] != "method"@[0]);
    assert("setter"@[0] == 's' && "getter"@[0] == 'g');
}

/// A field of instances is kept with its key and its initial value, behind those before it; a static one
/// with its place among the members.
pub proof fn fields_are_kept<'a>(
    m: &'a ClassMember,
    at: u64,
    key: Key<'a>,
    parts: ClassParts,
    depth: u64,
    w: World<'a>,
)
    requires
        m.decorators@.len() == 0,
        parts.record < w.drafts.len(),
    ensures
        ({
            let (r, after) = define_field_step(m, at, key, parts, depth, w);
            let d = after.draft(parts.record);
            &&& r is Ok
            &&& after.asked == w.asked
            &&& !m.is_static ==> {
                &&& d.fields.len() == w.draft(parts.record).fields.len() + 1
                &&& d.fields.last().key == key
                &&& d.fields.last().init is Some == m.value is Some
                &&& m.value matches Some(e) ==> d.fields.last().init == Some(&e)
                &&& d.statics == w.draft(parts.record).statics
            }
            &&& m.is_static ==> {
                &&& d.fields == w.draft(parts.record).fields
                &&& after.static_of(parts.record, at) matches Some(x) && x.key == key && x.member == at
            }
        }),
{
    reveal_with_fuel(decorate_field_from, 2);
}

/// A field is added to an instance as a property of its own, once its value is computed. A private one is
/// refused with a `TypeError` where the instance has it already.
pub proof fn fields_are_added<'a>(this: Value, key: Key<'a>, v: Value, w: World<'a>)
    ensures
        !w.private(key) ==> add_field_step(this, key, v, w).1.asked == w.asked.push(
            Request::CreateDataProperty { base: this, key, value: v },
        ),
        w.private(key) && this is Obj && said(w, w.asked.len()) == Answer::<'a>::Flag(true)
            ==> add_field_step(this, key, v, w) == throws::<()>(
            ErrorKind::TypeError,
            "cannot initialize the same private field twice",
            w.ask(Request::HasOwn { base: this, key }).1,
        ),
        w.private(key) && this is Obj && said(w, w.asked.len()) == Answer::<'a>::Flag(false) && said(
            w,
            w.asked.len() + 1,
        ) == Answer::<'a>::Flag(true) ==> add_field_step(this, key, v, w).1.asked.last() == (
        Request::DefineOwn { base: this, key, prop: Property::of(v, true, true, true) }),
{
}

/// An instance gets a field with the value that its initial value has, computed in a scope in which `this`
/// is the instance; a field without an initial value is `undefined`.
pub proof fn instances_get_field_values<'a>(
    f: FieldView<'a>,
    n: &'a String,
    this: Value,
    env: Env,
    depth: u64,
    w: World<'a>,
)
    requires
        depth > 0,
        w.limit > 0,
        f.key == Key::Source(n),
        !made_private(n@),
        f.transforms.len() == 0,
        w.lists.len() < u64::MAX,
        env < w.scopes.scopes.len() < usize::MAX,
        f.init matches Some(e) ==> !anonymous_fn(e),
    ensures
        ({
            let scope = w.next_scope();
            let start = field_scope_step(this, env, w).1;
            let (r, after) = init_fields_step(seq![f], this, env, depth, w);
            &&& start.scopes.value_in(scope, "this"@) == this
            &&& start.scopes.stop(scope, "this"@) == Stop::Scope(scope)
            &&& start.asked == w.asked
            &&& match f.init {
                Some(e) => {
                    let (v, ran) = eval_step(e, scope, (depth - 1) as u64, start);
                    &&& v matches Ok(x) ==> (ran.limit > 0 && ran.lists.len() < u64::MAX ==> after.asked == ran.asked.push(
                        Request::CreateDataProperty { base: this, key: f.key, value: x },
                    ))
                    &&& v matches Err(a) ==> r == Err::<(), Abrupt<'a>>(a) && after == ran
                },
                None => after.asked == w.asked.push(
                    Request::CreateDataProperty { base: this, key: f.key, value: Value::Undefined },
                ),
            }
        }),
{
    let scope = w.next_scope();
    let start = field_scope_step(this, env, w).1;
    reveal_strlit("this");
    reveal_strlit("%fieldinit%");
    assert("this"@.len() != "%fieldinit%"@.len());
    assert(seq![f][0] == f);
    let (v, ran) = field_value_step(f.init, f.key, scope, (depth - 1) as u64, start);
    if let Ok(x) = v {
        let l = ran.next_list();
        let listed = ran.new_list(f.transforms);
        if ran.lists.len() < u64::MAX {
            assert(listed.list(l).len() == 0);
        }
        assert(!listed.private(f.key));
        reveal_with_fuel(apply_transforms_from, 2);
        reveal_with_fuel(init_fields_from, 3);
    } else {
        reveal_with_fuel(init_fields_from, 3);
    }
}

/// An instance gets every private method and accessor of its class, each under its own key, in their order.
pub proof fn instances_get_all_privates<'a>(
    privates: Seq<PrivateMember<'a>>,
    this: Value,
    i: nat,
    w: World<'a>,
)
    requires
        i <= privates.len(),
    ensures
        ({
            let (r, after) = stamp_each_from(privates, this, i, w);
            &&& r is Ok
            &&& after.asked.len() == w.asked.len() + privates.len() - i
            &&& forall|j: int|
                0 <= j < w.asked.len() ==> #[trigger] after.asked[j] == w.asked[j]
            &&& forall|j: int|
                i <= j < privates.len() ==> #[trigger] after.asked[w.asked.len() + j - i] == (
                Request::DefineOwn { base: this, key: privates[j].key, prop: privates[j].prop })
        }),
    decreases privates.len() - i,
{
    if i < privates.len() {
        let m = privates[i as int];
        let w1 = w.ask(Request::DefineOwn { base: this, key: m.key, prop: m.prop }).1;
        instances_get_all_privates(privates, this, i + 1, w1);
        let after = stamp_each_from(privates, this, i, w).1;
        assert forall|j: int| i <= j < privates.len() implies #[trigger] after.asked[w.asked.len() + j
            - i] == (Request::DefineOwn { base: this, key: privates[j].key, prop: privates[j].prop }) by {
            if j == i {
                assert(after.asked[w.asked.len() as int] == w1.asked[w.asked.len() as int]);
            } else {
                assert(after.asked[w1.asked.len() + j - (i + 1)] == (Request::DefineOwn {
                    base: this,
                    key: privates[j].key,
                    prop: privates[j].prop,
                }));
            }
        }
        assert forall|j: int| 0 <= j < w.asked.len() implies #[trigger] after.asked[j]
            == w.asked[j] by {
            assert(after.asked[j] == w1.asked[j]);
        }
    }
}

/// A constructor of the program runs on the instance with the arguments given. A base class initializes
/// its fields before that; a derived one, and a function that is no class, does not.
pub proof fn constructors_run_behind_fields<'a>(
    c: Value,
    this: Value,
    args: u64,
    depth: u64,
    w: World<'a>,
)
    ensures
        ({
            let at = place_of_class(w.classes, c, w.classes.len());
            let base = at matches Some(i) && !w.classes[i as int].derived;
            let (u, ready) = if base {
                init_instance_fields_step(c, this, depth, w)
            } else {
                (Ok::<(), Abrupt<'a>>(()), w)
            };
            let (r, after) = run_user_constructor_step(c, this, args, depth, w);
            match u {
                Ok(_) => {
                    &&& after.asked == ready.asked.push(Request::CallBody { func: c, this, args })
                    &&& said(ready, ready.asked.len()) matches Answer::Value(v) ==> r == Ok::<
                        Value,
                        Abrupt<'a>,
                    >(v)
                    &&& said(ready, ready.asked.len()) matches Answer::Throw(e) ==> r == Err::<
                        Value,
                        Abrupt<'a>,
                    >(Abrupt::Throw(e))
                },
                Err(a) => r == Err::<Value, Abrupt<'a>>(a) && after == ready,
            }
        }),
{
}

/// `super(..)` gives the object that the parent constructor returned, or the current `this` where that
/// returned none, and `this` is that object from then on.
pub proof fn super_calls_give_this<'a>(
    parent: Value,
    args: &'a Vec<ArrayElem>,
    place: Env,
    env: Env,
    depth: u64,
    w: World<'a>,
)
    requires
        depth > 0,
        bind_super_this_step(parent, args, place, env, depth, w).0 is Ok,
    ensures
        ({
            let this = w.scopes.value_in(place, "this"@);
            let (argv, w1) = eval_args_step(args, env, depth, w);
            let w2 = value_is_constructor_step(parent, w1).1;
            let w3 = w2.ask(Request::KeepNewTarget).1;
            let (returned, w4) = run_constructor_on_step(
                parent,
                this,
                argv->Ok_0,
                (depth - 1) as u64,
                w3,
            );
            let given = bind_super_this_step(parent, args, place, env, depth, w).0->Ok_0;
            &&& returned is Ok
            &&& !(returned->Ok_0 is Obj) ==> given == this
            &&& returned->Ok_0 is Obj && this is Obj ==> given == returned->Ok_0
        }),
{
}

/// The parent constructor of `super(..)` is what the running class inherits from when it is called.
pub proof fn super_calls_the_parent<'a>(
    args: &'a Vec<ArrayElem>,
    ctor: Value,
    parent: Value,
    place: Env,
    env: Env,
    depth: u64,
    w: World<'a>,
)
    requires
        w.flags.super_call,
        ({
            let (sup, w1) = get_var_step(Name::Fixed("%superclass%"), env, w);
            let (c, w2) = get_var_step(Name::Fixed("%thisctor%"), env, w1);
            let w3 = w2.ask(Request::GetPrototype(ctor)).1;
            &&& sup matches Ok(v) && v != Value::Undefined
            &&& c == Ok::<Value, Abrupt<'a>>(ctor)
            &&& said(w2, w2.asked.len()) == Answer::<'a>::Value(parent)
            &&& w3.scopes.holder(env, "this"@) == Some(place)
        }),
    ensures
        ({
            let w1 = get_var_step(Name::Fixed("%superclass%"), env, w).1;
            let w2 = get_var_step(Name::Fixed("%thisctor%"), env, w1).1;
            let w3 = w2.ask(Request::GetPrototype(ctor)).1;
            eval_super_call_step(args, env, depth, w) == bind_super_this_step(
                parent,
                args,
                place,
                env,
                depth,
                w3,
            )
        }),
{
}

/// A static field becomes a property of the class with the value that was computed; a private one only
/// where the class does not have it and can take it.
pub proof fn static_fields_are_added<'a>(ctor: Value, key: Key<'a>, v: Value, w: World<'a>)
    ensures
        !w.private(key) ==> add_static_field_step(ctor, key, v, w) == (
            Ok::<(), Abrupt<'a>>(()),
            w.ask(
                Request::DefineOwn { base: ctor, key, prop: Property::of(v, true, true, true) },
            ).1,
        ),
        w.private(key) && said(w, w.asked.len()) == Answer::<'a>::Flag(true)
            ==> add_static_field_step(ctor, key, v, w).0 is Err || (said(w, w.asked.len() + 1)
            is Return),
{
}

/// A static block runs with the class as `this`, in a scope of its own within that of the static members.
pub proof fn static_blocks_see_the_class<'a>(
    func: &'a Function,
    ctor: Value,
    env: Env,
    depth: u64,
    w: World<'a>,
)
    requires
        env < w.scopes.scopes.len() < usize::MAX,
    ensures
        ({
            let scope = w.next_scope();
            let opened = w.new_scope(Some(env), None, false, false).bind_var(
                Name::Fixed("this"),
                ctor,
                scope,
            );
            let hoisted = opened.ask(Request::HoistVars { stmts: &func.body, env: scope }).1;
            let (v, ran) = run_stmt_list_step(
                &func.body,
                scope,
                depth,
                hoisted.declare_block(&func.body, scope),
            );
            let (r, after) = run_static_block_step(func, ctor, env, depth, w);
            &&& opened.scopes.value_in(scope, "this"@) == ctor
            &&& opened.scopes.around(scope) == Some(env)
            &&& after == ran
            &&& v is Ok <==> r is Ok
            &&& v matches Err(a) ==> r == Err::<(), Abrupt<'a>>(a)
        }),
{
}

/// A function that transforms the initial value of a field is called on the instance with the value so
/// far, and what it returns takes the value's place.
pub proof fn transforms_replace_values<'a>(
    start: Value,
    this: Value,
    f: Value,
    l: u64,
    w: World<'a>,
)
    requires
        w.limit > 1,
        w.list(l) == seq![f],
        ({
            let after = call_with_step(f, this, start, w).1;
            after.limit > 0 && after.list(l) == w.list(l)
        }),
    ensures
        apply_transforms_step(start, this, l, w).0 == call_with_step(f, this, start, w).0,
{
    reveal_with_fuel(apply_transforms_from, 3);
}

/// A decorator is called on no receiver with the value and its context, in that order.
pub proof fn decorators_get_value_and_context<'a>(
    decorator: Value,
    context: Value,
    value: Value,
    inits: u64,
    w: World<'a>,
)
    requires
        w.lists.len() < u64::MAX,
    ensures
        ({
            let after = call_decorator_step((decorator, context), value, inits, w).1;
            after.asked.last() matches Request::Call { func, this, args } && func == decorator && this
                == Value::Undefined && args == w.next_list() && after.asked.len() == w.asked.len()
                + 1
        }),
        said(w, w.asked.len()) matches Answer::Value(v) ==> call_decorator_step(
            (decorator, context),
            value,
            inits,
            w,
        ).0 == Ok::<Value, Abrupt<'a>>(v),
        said(w, w.asked.len()) matches Answer::Throw(e) ==> call_decorator_step(
            (decorator, context),
            value,
            inits,
            w,
        ).1.list(w.next_list()) == seq![value, context],
{
    let l = w.next_list();
    let w1 = w.new_list(Seq::empty());
    assert(w1.list(l) =~= Seq::<Value>::empty());
    let w2 = w1.push(l, value);
    assert(w2.list(l) =~= seq![value]);
    let w3 = w2.push(l, context);
    assert(w3.list(l) =~= seq![value, context]);
}

/// A class declaration gives its name the class.
pub proof fn class_declarations_bind<'a>(
    st: &'a Stmt,
    n: &'a String,
    env: Env,
    depth: u64,
    w: World<'a>,
)
    requires
        st matches Stmt::ClassDecl(c) && c.name == Some(*n),
    ensures
        st matches Stmt::ClassDecl(c) && {
            let (v, made) = eval_class_step(&*c, env, None, depth, w);
            let (r, after) = exec_stmt_step(st, env, depth, w);
            &&& v matches Ok(x) ==> (env < made.scopes.scopes.len() ==> after.scopes.value_in(
                env,
                n@,
            ) == x) && r == Ok::<Value, Abrupt<'a>>(Value::Empty)
            &&& v matches Err(a) ==> r == Err::<Value, Abrupt<'a>>(a) && after == made
        },
{
    reveal_with_fuel(exec_stmt_step, 2);
    reveal_with_fuel(exec_simple_step, 2);
}

} // verus!
