//! Expressions: evaluation, assignment and destructuring.
use vstd::prelude::*;

use crate::ast::{
    ArrayElem, ArrayPatElem, Class, Expr, ImportPhase, ObjPatProp, Pattern, PropDef, PropKey, Stmt,
};
use crate::interp::class::{
    eval_class, eval_class_step, init_instance_fields, init_instance_fields_step,
    run_constructor_on, run_constructor_on_step,
};
use crate::interp::dynamic::{perform_eval, perform_eval_step};
use crate::interp::object::{
    assign_var, assign_var_step, copy_data_properties, copy_data_properties_into,
    copy_data_properties_into_step, copy_data_properties_step, define_halves, define_halves_step,
    delete_ident, delete_ident_step, delete_prop_on, delete_prop_on_step, get_private_member,
    get_private_member_step, get_resolved, get_resolved_step, get_var, get_var_step, get_var_with,
    get_var_with_step, import_attributes, import_attributes_step, peek, peek_step, put_resolved,
    put_resolved_step, resolve_name, resolve_name_step, resolve_private, resolve_private_step,
    set_private_member, set_private_member_step, super_base, super_base_step, this_value,
    this_value_step, value_is_constructor, value_is_constructor_step, RefBase, Resolved,
};
use crate::interp::operate::{
    binary, binary_step, drain, drain_step, get_iterator, get_iterator_step, is_callable,
    is_callable_step, iterate, iterate_step, iterator_close, iterator_close_normal,
    iterator_close_normal_step, iterator_close_step, iterator_step, iterator_step_step,
    key_of_value, key_value, key_value_step, make_error, make_error_step, name_function,
    name_function_step, number_to_text, number_to_text_step, numeric_step, numeric_step_step,
    prefix_operate, prefix_operate_step, throw, throw_about, throws, throws_about, to_boolean,
    to_boolean_step, to_number, to_number_step, to_property_key, to_property_key_step, to_string,
    to_string_step, type_of, type_of_step, value_key,
};
use crate::interp::program::Loaded;
use crate::interp::promise::{
    coro_await, coro_await_step, new_promise, new_promise_step, reject_promise,
    reject_promise_step,
};
use crate::interp::session::{
    asks, asks_code, asks_flag, asks_graph, asks_handle, asks_prop, next, Abrupt, Answers,
    Completion, Env, ErrorKind, Host, Key, Name, Request, Session, Step, Subject, Value, World,
};
use crate::interp::suspend::{
    yield_delegate, yield_delegate_async, yield_delegate_async_step, yield_delegate_step,
    yield_one, yield_one_step,
};
use crate::modules::evaluate::{dynamic_import, dynamic_import_step};
use crate::modules::register::LoadError;
use crate::modules::resolve::Found;
use crate::modules::source::ImportMeta;
use crate::scan::{anonymous_fn, is_anonymous_fn};
use crate::scope::dynamic::ParseContext;
use crate::text::same_text;
use crate::value::props::Property;

verus! {

/// How a pattern binds: by assigning to names that are there, or by initializing new ones.
#[derive(Clone, Copy, PartialEq, Eq, Structural, Debug)]
pub enum BindMode {
    Var,
    /// Whether the new names are constant.
    Lexical(bool),
}

/// The key of a reference. A computed one is converted when it is first used.
#[derive(Clone, Copy)]
pub enum RefKey<'a> {
    Known(Key<'a>),
    Raw(Value),
}

/// Where a value is read from and written to.
#[derive(Clone, Copy)]
pub enum Reference<'a> {
    /// A binding that the host has found.
    Var { place: RefBase, name: &'a String },
    Property { base: Value, key: RefKey<'a> },
    Private { base: Value, hidden: u64 },
    /// Reads through the prototype, writes to the receiver.
    Super { proto: Value, receiver: Value, key: RefKey<'a> },
}

/// What a call's callee comes to.
#[derive(Clone, Copy, PartialEq, Eq, Structural, Debug)]
pub enum Target {
    /// The callee's optional chain met a nullish link.
    Short,
    Found { func: Value, this: Value },
}

pub fn is_super(e: &Expr) -> (r: bool)
    ensures
        r == (*e is Super),
{
    matches!(e, Expr::Super)
}

/// Whether a name is private: it starts with `#`.
pub open spec fn private_name(name: Seq<char>) -> bool {
    name.len() > 0 && name[0] == '#'
}

pub fn is_private(name: &String) -> (r: bool)
    ensures
        r == private_name(name@),
{
    let s = name.as_str();
    s.unicode_len() > 0 && s.get_char(0) == '#'
}

/// Whether a target is an array or object literal, which is taken apart.
pub open spec fn literal_target(e: &Expr) -> bool {
    *e is Array || *e is Object
}

fn is_literal_target(e: &Expr) -> (r: bool)
    ensures
        r == literal_target(e),
{
    matches!(e, Expr::Array(_) | Expr::Object(_))
}

/// The name that a target is.
pub open spec fn name_of<'a>(e: &'a Expr) -> Option<&'a String> {
    match e {
        Expr::Ident(n) => Some(n),
        _ => None,
    }
}

fn target_name<'a>(e: &'a Expr) -> (r: Option<&'a String>)
    ensures
        r == name_of(e),
{
    match e {
        Expr::Ident(n) => Some(n),
        _ => None,
    }
}

/// The name that a pattern is.
pub open spec fn pattern_name_of<'a>(p: &'a Pattern) -> Option<&'a String> {
    match p {
        Pattern::Ident(n) => Some(n),
        _ => None,
    }
}

pub fn pattern_name<'a>(p: &'a Pattern) -> (r: Option<&'a String>)
    ensures
        r == pattern_name_of(p),
{
    match p {
        Pattern::Ident(n) => Some(n),
        _ => None,
    }
}

/// The assignments that may leave their target alone.
pub open spec fn logical_assign(op: Seq<char>) -> bool {
    op == "&&="@ || op == "||="@ || op == "??="@
}

fn is_logical_assign(op: &str) -> (r: bool)
    ensures
        r == logical_assign(op@),
{
    same_text(op, "&&=") || same_text(op, "||=") || same_text(op, "??=")
}

/// The operator of a compound assignment, without its `=`.
pub open spec fn base_op(op: &'static str) -> &'static str {
    if op@ == "+="@ {
        "+"
    } else if op@ == "-="@ {
        "-"
    } else if op@ == "*="@ {
        "*"
    } else if op@ == "/="@ {
        "/"
    } else if op@ == "%="@ {
        "%"
    } else if op@ == "**="@ {
        "**"
    } else if op@ == "&="@ {
        "&"
    } else if op@ == "|="@ {
        "|"
    } else if op@ == "^="@ {
        "^"
    } else if op@ == "<<="@ {
        "<<"
    } else if op@ == ">>="@ {
        ">>"
    } else if op@ == ">>>="@ {
        ">>>"
    } else if op@ == "&&="@ {
        "&&"
    } else if op@ == "||="@ {
        "||"
    } else if op@ == "??="@ {
        "??"
    } else {
        op
    }
}

/// The operator of a compound assignment, without its `=`.
fn base_operator(op: &'static str) -> (r: &'static str)
    ensures
        r == base_op(op),
{
    if same_text(op, "+=") {
        "+"
    } else if same_text(op, "-=") {
        "-"
    } else if same_text(op, "*=") {
        "*"
    } else if same_text(op, "/=") {
        "/"
    } else if same_text(op, "%=") {
        "%"
    } else if same_text(op, "**=") {
        "**"
    } else if same_text(op, "&=") {
        "&"
    } else if same_text(op, "|=") {
        "|"
    } else if same_text(op, "^=") {
        "^"
    } else if same_text(op, "<<=") {
        "<<"
    } else if same_text(op, ">>=") {
        ">>"
    } else if same_text(op, ">>>=") {
        ">>>"
    } else if same_text(op, "&&=") {
        "&&"
    } else if same_text(op, "||=") {
        "||"
    } else if same_text(op, "??=") {
        "??"
    } else {
        op
    }
}

// ---- references

/// ToPropertyKey of a reference's key, if it is not a key already.
pub open spec fn coerce_ref_key_step<'a>(key: RefKey<'a>, w: World<'a>) -> Step<'a, Key<'a>>
{
    match key {
        RefKey::Known(k) => (Ok(k), w),
        RefKey::Raw(v) => {
            next(
                to_property_key_step(v, w),
                |h: Key<'a>, w: World<'a>| (Ok(h), w),
            )
        },
    }
}

/// ToPropertyKey of a reference's key, if it is not a key already.
pub fn coerce_ref_key<'h, 'a, H: Host<'a>>(
    s: &mut Session<'h, 'a, H>,
    key: RefKey<'a>,
) -> (out: Result<Key<'a>, Abrupt<'a>>)
    ensures
        final(s).continues(*old(s)),
        forall|answers: Answers<'a>| #[trigger]
            final(s).agrees(answers) ==> old(s).agrees(answers) && (out, final(s).world(answers))
                == coerce_ref_key_step(key, old(s).world(answers)),
{
    match key {
        RefKey::Known(k) => {
            return Ok(k);
        },
        RefKey::Raw(v) => {
            let h: Key<'a> = to_property_key(s, v)?;
            return Ok(h);
        },
    }
}

/// The key of a property reference: a nullish base is rejected before a computed key is converted.
pub open spec fn ref_prop_key_step<'a>(
    base: Value,
    key: RefKey<'a>,
    w: World<'a>,
) -> Step<'a, Key<'a>>
{
    if matches!(key, RefKey::Raw(_)) && base.is_nullish() {
        throws(ErrorKind::TypeError, "cannot access property of null or undefined", w)
    } else {
        coerce_ref_key_step(key, w)
    }
}

/// The key of a property reference: a nullish base is rejected before a computed key is converted.
pub fn ref_prop_key<'h, 'a, H: Host<'a>>(
    s: &mut Session<'h, 'a, H>,
    base: Value,
    key: RefKey<'a>,
) -> (out: Result<Key<'a>, Abrupt<'a>>)
    ensures
        final(s).continues(*old(s)),
        forall|answers: Answers<'a>| #[trigger]
            final(s).agrees(answers) ==> old(s).agrees(answers) && (out, final(s).world(answers))
                == ref_prop_key_step(base, key, old(s).world(answers)),
{
    if matches!(key, RefKey::Raw(_)) && base.is_nullish() {
        return throw(s, ErrorKind::TypeError, "cannot access property of null or undefined");
    } else {
        return coerce_ref_key(s, key);
    }
}

/// GetValue: the value at a reference, and the reference with its key converted.
pub open spec fn get_reference_step<'a>(
    r: Reference<'a>,
    w: World<'a>,
) -> Step<'a, (Value, Reference<'a>)>
{
    match r {
        Reference::Var { place, name } => {
            next(
                get_resolved_step(place, name, w),
                |v: Value, w: World<'a>| (Ok((v, r)), w),
            )
        },
        Reference::Property { base, key } => {
            next(
                ref_prop_key_step(base, key, w),
                |k: Key<'a>, w: World<'a>|
                    next(
                        asks(Request::GetMember { base, key: k }, w),
                        |v: Value, w: World<'a>|
                            (Ok((v, Reference::Property { base, key: RefKey::Known(k) })), w),
                    ),
            )
        },
        Reference::Private { base, hidden } => {
            next(
                get_private_member_step(base, Key::Made(hidden), w),
                |v: Value, w: World<'a>| (Ok((v, r)), w),
            )
        },
        Reference::Super { proto, receiver, key } => {
            if proto.is_nullish() {
                throws(ErrorKind::TypeError, "cannot read property of null super base", w)
            } else {
                next(
                    coerce_ref_key_step(key, w),
                    |k: Key<'a>, w: World<'a>|
                        next(
                            asks(Request::GetMemberFor { base: proto, key: k, receiver }, w),
                            |v: Value, w: World<'a>|
                                (Ok((v, Reference::Super { proto, receiver, key: RefKey::Known(k) })), w),
                        ),
                )
            }
        },
    }
}

/// GetValue: the value at a reference, and the reference with its key converted.
pub fn get_reference<'h, 'a, H: Host<'a>>(
    s: &mut Session<'h, 'a, H>,
    r: Reference<'a>,
) -> (out: Result<(Value, Reference<'a>), Abrupt<'a>>)
    ensures
        final(s).continues(*old(s)),
        forall|answers: Answers<'a>| #[trigger]
            final(s).agrees(answers) ==> old(s).agrees(answers) && (out, final(s).world(answers))
                == get_reference_step(r, old(s).world(answers)),
{
    match r {
        Reference::Var { place, name } => {
            let v: Value = get_resolved(s, place, name)?;
            return Ok((v, r));
        },
        Reference::Property { base, key } => {
            let k: Key<'a> = ref_prop_key(s, base, key)?;
            let v: Value = s.value(Request::GetMember { base, key: k })?;
            return Ok((v, Reference::Property { base, key: RefKey::Known(k) }));
        },
        Reference::Private { base, hidden } => {
            let v: Value = get_private_member(s, base, Key::Made(hidden))?;
            return Ok((v, r));
        },
        Reference::Super { proto, receiver, key } => {
            if proto.is_nullish() {
                return throw(s, ErrorKind::TypeError, "cannot read property of null super base");
            } else {
                let k: Key<'a> = coerce_ref_key(s, key)?;
                let v: Value = s.value(Request::GetMemberFor { base: proto, key: k, receiver })?;
                return Ok((v, Reference::Super { proto, receiver, key: RefKey::Known(k) }));
            }
        },
    }
}

/// PutValue: writes through a reference.
pub open spec fn put_reference_step<'a>(
    r: Reference<'a>,
    value: Value,
    w: World<'a>,
) -> Step<'a, ()>
{
    match r {
        Reference::Var { place, name } => put_resolved_step(place, name, value, w),
        Reference::Property { base, key } => {
            next(
                ref_prop_key_step(base, key, w),
                |k: Key<'a>, w: World<'a>|
                    next(
                        asks(Request::SetMember { base, key: k, value, strict: w.strict }, w),
                        |v: Value, w: World<'a>| (Ok(()), w),
                    ),
            )
        },
        Reference::Private { base, hidden } => {
            set_private_member_step(base, Key::Made(hidden), value, w)
        },
        Reference::Super { proto, receiver, key } => {
            if proto.is_nullish() {
                throws(ErrorKind::TypeError, "cannot set property on null super base", w)
            } else {
                next(
                    coerce_ref_key_step(key, w),
                    |k: Key<'a>, w: World<'a>|
                        next(
                            asks(
                                Request::SetMemberFor { base: proto, key: k, value, receiver, strict: w.strict },
                                w,
                            ),
                            |v: Value, w: World<'a>| (Ok(()), w),
                        ),
                )
            }
        },
    }
}

/// PutValue: writes through a reference.
pub fn put_reference<'h, 'a, H: Host<'a>>(
    s: &mut Session<'h, 'a, H>,
    r: Reference<'a>,
    value: Value,
) -> (out: Result<(), Abrupt<'a>>)
    ensures
        final(s).continues(*old(s)),
        forall|answers: Answers<'a>| #[trigger]
            final(s).agrees(answers) ==> old(s).agrees(answers) && (out, final(s).world(answers))
                == put_reference_step(r, value, old(s).world(answers)),
{
    match r {
        Reference::Var { place, name } => {
            return put_resolved(s, place, name, value);
        },
        Reference::Property { base, key } => {
            let k: Key<'a> = ref_prop_key(s, base, key)?;
            let v: Value = s.value(
                Request::SetMember { base, key: k, value, strict: s.strict_mode() },
            )?;
            return Ok(());
        },
        Reference::Private { base, hidden } => {
            return set_private_member(s, base, Key::Made(hidden), value);
        },
        Reference::Super { proto, receiver, key } => {
            if proto.is_nullish() {
                return throw(s, ErrorKind::TypeError, "cannot set property on null super base");
            } else {
                let k: Key<'a> = coerce_ref_key(s, key)?;
                let v: Value = s.value(
                    Request::SetMemberFor { base: proto, key: k, value, receiver, strict: s.strict_mode() },
                )?;
                return Ok(());
            }
        },
    }
}

/// The next value of an iterator that is being taken apart: `undefined` once it is done. A failing
/// step makes it done too.
pub open spec fn pull_step<'a>(
    iter: Value,
    method: Value,
    done: bool,
    w: World<'a>,
) -> ((Completion<'a>, bool), World<'a>)
{
    if done {
        ((Ok(Value::Undefined), true), w)
    } else {
        let (step, w) = iterator_step_step(iter, method, w);
        match step {
            Ok(Some(v)) => ((Ok(v), false), w),
            Ok(None) => ((Ok(Value::Undefined), true), w),
            Err(a) => ((Err(a), true), w),
        }
    }
}

/// The next value of an iterator that is being taken apart: `undefined` once it is done. A failing
/// step makes it done too.
pub fn pull<'h, 'a, H: Host<'a>>(
    s: &mut Session<'h, 'a, H>,
    iter: Value,
    method: Value,
    done: bool,
) -> (out: (Completion<'a>, bool))
    ensures
        final(s).continues(*old(s)),
        forall|answers: Answers<'a>| #[trigger]
            final(s).agrees(answers) ==> old(s).agrees(answers) && (out, final(s).world(answers))
                == pull_step(iter, method, done, old(s).world(answers)),
{
    if done {
        return (Ok(Value::Undefined), true);
    } else {
        let step: Result<Option<Value>, Abrupt<'a>> = iterator_step(s, iter, method);
        match step {
            Ok(Some(v)) => {
                return (Ok(v), false);
            },
            Ok(None) => {
                return (Ok(Value::Undefined), true);
            },
            Err(a) => {
                return (Err(a), true);
            },
        }
    }
}

/// An array of what an iterator still gives; nothing once it is done.
pub open spec fn pull_rest_step<'a>(
    iter: Value,
    method: Value,
    done: bool,
    w: World<'a>,
) -> Step<'a, Value>
{
    let list: u64 = w.next_list();
    let w = w.new_list(Seq::empty());
    if done {
        asks(Request::ArrayOf { list }, w)
    } else {
        next(
            drain_step(iter, method, list, w),
            |u: (), w: World<'a>| asks(Request::ArrayOf { list }, w),
        )
    }
}

/// An array of what an iterator still gives; nothing once it is done.
pub fn pull_rest<'h, 'a, H: Host<'a>>(
    s: &mut Session<'h, 'a, H>,
    iter: Value,
    method: Value,
    done: bool,
) -> (out: Result<Value, Abrupt<'a>>)
    ensures
        final(s).continues(*old(s)),
        forall|answers: Answers<'a>| #[trigger]
            final(s).agrees(answers) ==> old(s).agrees(answers) && (out, final(s).world(answers))
                == pull_rest_step(iter, method, done, old(s).world(answers)),
{
    let list: u64 = s.new_list(Vec::new());
    if done {
        return s.value(Request::ArrayOf { list });
    } else {
        let u: () = drain(s, iter, method, list)?;
        return s.value(Request::ArrayOf { list });
    }
}

/// IteratorClose after a pattern: an iterator that is not done is closed, and an error of the
/// pattern itself wins over one of `return`.
pub open spec fn close_after_step<'a>(
    iter: Value,
    done: bool,
    result: Result<(), Abrupt<'a>>,
    w: World<'a>,
) -> Step<'a, ()>
{
    match result {
        Ok(_) => {
            if done {
                (Ok(()), w)
            } else {
                iterator_close_normal_step(iter, w)
            }
        },
        Err(a) => {
            if done {
                (Err(a), w)
            } else if matches!(a, Abrupt::Throw(_)) {
                let (u, w) = iterator_close_step(iter, w);
                (Err(a), w)
            } else {
                next(
                    iterator_close_normal_step(iter, w),
                    |u: (), w: World<'a>| (Err(a), w),
                )
            }
        },
    }
}

/// IteratorClose after a pattern: an iterator that is not done is closed, and an error of the
/// pattern itself wins over one of `return`.
pub fn close_after<'h, 'a, H: Host<'a>>(
    s: &mut Session<'h, 'a, H>,
    iter: Value,
    done: bool,
    result: Result<(), Abrupt<'a>>,
) -> (out: Result<(), Abrupt<'a>>)
    ensures
        final(s).continues(*old(s)),
        forall|answers: Answers<'a>| #[trigger]
            final(s).agrees(answers) ==> old(s).agrees(answers) && (out, final(s).world(answers))
                == close_after_step(iter, done, result, old(s).world(answers)),
{
    match result {
        Ok(_) => {
            if done {
                return Ok(());
            } else {
                return iterator_close_normal(s, iter);
            }
        },
        Err(a) => {
            if done {
                return Err(a);
            } else if matches!(a, Abrupt::Throw(_)) {
                let u: Result<(), Abrupt<'a>> = iterator_close(s, iter);
                return Err(a);
            } else {
                let u: () = iterator_close_normal(s, iter)?;
                return Err(a);
            }
        },
    }
}

/// Initializes or assigns a name, as the declaration asks.
pub open spec fn bind_name_step<'a>(
    name: &'a String,
    value: Value,
    env: Env,
    mode: BindMode,
    w: World<'a>,
) -> Step<'a, ()>
{
    match mode {
        BindMode::Lexical(constant) => {
            let w = w.init_lexical(Name::Source(name), value, constant, env);
            (Ok(()), w)
        },
        BindMode::Var => assign_var_step(Name::Source(name), value, env, w),
    }
}

/// Initializes or assigns a name, as the declaration asks.
pub fn bind_name<'h, 'a, H: Host<'a>>(
    s: &mut Session<'h, 'a, H>,
    name: &'a String,
    value: Value,
    env: Env,
    mode: BindMode,
) -> (out: Result<(), Abrupt<'a>>)
    ensures
        final(s).continues(*old(s)),
        forall|answers: Answers<'a>| #[trigger]
            final(s).agrees(answers) ==> old(s).agrees(answers) && (out, final(s).world(answers))
                == bind_name_step(name, value, env, mode, old(s).world(answers)),
{
    match mode {
        BindMode::Lexical(constant) => {
            s.init_lexical(Name::Source(name), value, constant, env);
            return Ok(());
        },
        BindMode::Var => {
            return assign_var(s, Name::Source(name), value, env);
        },
    }
}

// ---- expressions

/// The value of an expression.
pub open spec fn eval_step<'a>(e: &'a Expr, env: Env, depth: u64, w: World<'a>) -> Step<'a, Value>
    decreases depth, e, 2nat, 0nat,
{
    match e {
        Expr::Num(n) => (Ok(Value::Num(*n)), w),
        Expr::BigInt(b) => {
            let x: Value = w.next_integer();
            let w = w.add_integer(b@);
            (Ok(x), w)
        },
        Expr::Str(x) => {
            let t: Value = w.next_text();
            let w = w.add_text(x@);
            (Ok(t), w)
        },
        Expr::Bool(b) => (Ok(Value::Bool(*b)), w),
        Expr::Null => (Ok(Value::Null), w),
        Expr::Undefined => (Ok(Value::Undefined), w),
        Expr::Ident(name) => get_var_step(Name::Source(name), env, w),
        Expr::This => this_value_step(env, w),
        Expr::Regex { body, flags } => make_regexp_step(body, flags, w),
        Expr::Func(f) => asks(Request::MakeFunction { func: &**f, env }, w),
        Expr::Class(c) => eval_class_step(&**c, env, None, depth, w),
        Expr::Super => throws(ErrorKind::SyntaxError, "'super' keyword unexpected here", w),
        Expr::ImportMeta => {
            let meta: Option<Value> = w.scopes.bound_value("%importmeta%"@, env);
            match meta {
                Some(v) => (Ok(v), w),
                None => asks(Request::DefaultImportMeta, w),
            }
        },
        Expr::NewTarget => peek_step("%newtarget%", env, w),
        Expr::Paren(x) => eval_step(&**x, env, depth, w),
        Expr::Array(elems) => eval_array_step(elems, env, depth, w),
        Expr::Object(props) => eval_object_step(props, env, depth, w),
        Expr::Sequence(items) => eval_sequence_step(items, env, depth, w),
        Expr::ToStr(_) | Expr::Yield { .. } | Expr::Await(_) | Expr::PrivateIn { .. } | Expr::OptionalChain(_) => {
            eval_wrapping_step(e, env, depth, w)
        },
        Expr::Unary { .. } | Expr::Update { .. } | Expr::Binary { .. } | Expr::Logical { .. } | Expr::Cond { .. } => {
            eval_operator_step(e, env, depth, w)
        },
        Expr::Assign { .. } => eval_assign_step(e, env, depth, w),
        Expr::Member { .. } | Expr::Index { .. } => eval_access_step(e, env, depth, w),
        Expr::Call { .. } => eval_call_step(e, env, depth, w),
        Expr::New { callee, args } => {
            next(
                eval_step(&**callee, env, depth, w),
                |c: Value, w: World<'a>|
                    next(
                        eval_args_step(args, env, depth, w),
                        |argv: u64, w: World<'a>|
                            asks(Request::Construct { func: c, args: argv }, w),
                    ),
            )
        },
        Expr::TaggedTemplate { .. } => eval_tagged_template_step(e, env, depth, w),
        Expr::ImportCall { .. } => eval_import_call_step(e, env, depth, w),
    }
}

/// The value of an expression.
#[verifier::spinoff_prover]
pub fn eval<'h, 'a, H: Host<'a>>(
    s: &mut Session<'h, 'a, H>,
    e: &'a Expr,
    env: Env,
    depth: u64,
) -> (out: Result<Value, Abrupt<'a>>)
    ensures
        final(s).continues(*old(s)),
        forall|answers: Answers<'a>| #[trigger]
            final(s).agrees(answers) ==> old(s).agrees(answers) && (out, final(s).world(answers))
                == eval_step(e, env, depth, old(s).world(answers)),
    decreases depth, e, 2nat, 0nat,
{
    match e {
        Expr::Num(n) => {
            return Ok(Value::Num(*n));
        },
        Expr::BigInt(b) => {
            let x: Value = s.add_integer(b.copy());
            return Ok(x);
        },
        Expr::Str(x) => {
            let t: Value = s.add_text(x.as_str().to_owned());
            return Ok(t);
        },
        Expr::Bool(b) => {
            return Ok(Value::Bool(*b));
        },
        Expr::Null => {
            return Ok(Value::Null);
        },
        Expr::Undefined => {
            return Ok(Value::Undefined);
        },
        Expr::Ident(name) => {
            return get_var(s, Name::Source(name), env);
        },
        Expr::This => {
            return this_value(s, env);
        },
        Expr::Regex { body, flags } => {
            return make_regexp(s, body, flags);
        },
        Expr::Func(f) => {
            return s.value(Request::MakeFunction { func: &**f, env });
        },
        Expr::Class(c) => {
            return eval_class(s, &**c, env, None, depth);
        },
        Expr::Super => {
            return throw(s, ErrorKind::SyntaxError, "'super' keyword unexpected here");
        },
        Expr::ImportMeta => {
            let meta: Option<Value> = s.scopes().peek_binding("%importmeta%", env);
            match meta {
                Some(v) => {
                    return Ok(v);
                },
                None => {
                    return s.value(Request::DefaultImportMeta);
                },
            }
        },
        Expr::NewTarget => {
            return peek(s, "%newtarget%", env);
        },
        Expr::Paren(x) => {
            return eval(s, &**x, env, depth);
        },
        Expr::Array(elems) => {
            return eval_array(s, elems, env, depth);
        },
        Expr::Object(props) => {
            return eval_object(s, props, env, depth);
        },
        Expr::Sequence(items) => {
            return eval_sequence(s, items, env, depth);
        },
        Expr::ToStr(_) | Expr::Yield { .. } | Expr::Await(_) | Expr::PrivateIn { .. } | Expr::OptionalChain(_) => {
            return eval_wrapping(s, e, env, depth);
        },
        Expr::Unary { .. } | Expr::Update { .. } | Expr::Binary { .. } | Expr::Logical { .. } | Expr::Cond { .. } => {
            return eval_operator(s, e, env, depth);
        },
        Expr::Assign { .. } => {
            return eval_assign(s, e, env, depth);
        },
        Expr::Member { .. } | Expr::Index { .. } => {
            return eval_access(s, e, env, depth);
        },
        Expr::Call { .. } => {
            return eval_call(s, e, env, depth);
        },
        Expr::New { callee, args } => {
            let c: Value = eval(s, &**callee, env, depth)?;
            let argv: u64 = eval_args(s, args, env, depth)?;
            return s.value(Request::Construct { func: c, args: argv });
        },
        Expr::TaggedTemplate { .. } => {
            return eval_tagged_template(s, e, env, depth);
        },
        Expr::ImportCall { .. } => {
            return eval_import_call(s, e, env, depth);
        },
    }
}

/// A conversion, a suspension, a private test or an optional chain.
pub open spec fn eval_wrapping_step<'a>(
    e: &'a Expr,
    env: Env,
    depth: u64,
    w: World<'a>,
) -> Step<'a, Value>
    decreases depth, e, 1nat, 0nat,
{
    match e {
        Expr::ToStr(x) => {
            next(
                eval_step(&**x, env, depth, w),
                |v: Value, w: World<'a>| to_string_step(v, w),
            )
        },
        Expr::Yield { delegate, arg } => {
            next(
                match arg {
                    Some(x) => eval_step(&**x, env, depth, w),
                    None => (Ok(Value::Undefined), w),
                },
                |v: Value, w: World<'a>|
                    next(
                        asks_flag(Request::InGenerator, w),
                        |inside: bool, w: World<'a>|
                            if !inside {
                                throws(ErrorKind::SyntaxError, "yield outside a generator", w)
                            } else if !*delegate {
                                yield_one_step(v, w)
                            } else {
                                next(
                                    asks_flag(Request::InAsyncGenerator, w),
                                    |asynchronous: bool, w: World<'a>|
                                        if asynchronous {
                                            yield_delegate_async_step(v, w)
                                        } else {
                                            yield_delegate_step(v, w)
                                        },
                                )
                            },
                    ),
            )
        },
        Expr::Await(x) => {
            next(
                eval_step(&**x, env, depth, w),
                |v: Value, w: World<'a>| coro_await_step(v, w),
            )
        },
        Expr::PrivateIn { name, obj } => {
            next(
                eval_step(&**obj, env, depth, w),
                |o: Value, w: World<'a>|
                    next(
                        resolve_private_step(name, env, w),
                        |hidden: u64, w: World<'a>|
                            if matches!(o, Value::Obj(_)) {
                                next(
                                    asks_flag(
                                        Request::HasOwn { base: o, key: Key::Made(hidden) },
                                        w,
                                    ),
                                    |b: bool, w: World<'a>| (Ok(Value::Bool(b)), w),
                                )
                            } else {
                                throws(
                                    ErrorKind::TypeError,
                                    "the right-hand side of 'in' must be an object",
                                    w,
                                )
                            },
                    ),
            )
        },
        Expr::OptionalChain(x) => {
            let saved: bool = w.short;
            let w = World { short: false, ..w };
            let (v, w) = eval_step(&**x, env, depth, w);
            let short: bool = w.short;
            let w = World { short: saved, ..w };
            if short {
                (Ok(Value::Undefined), w)
            } else {
                (v, w)
            }
        },
        _ => (Ok(Value::Undefined), w),
    }
}

/// A conversion, a suspension, a private test or an optional chain.
#[verifier::spinoff_prover]
pub fn eval_wrapping<'h, 'a, H: Host<'a>>(
    s: &mut Session<'h, 'a, H>,
    e: &'a Expr,
    env: Env,
    depth: u64,
) -> (out: Result<Value, Abrupt<'a>>)
    ensures
        final(s).continues(*old(s)),
        forall|answers: Answers<'a>| #[trigger]
            final(s).agrees(answers) ==> old(s).agrees(answers) && (out, final(s).world(answers))
                == eval_wrapping_step(e, env, depth, old(s).world(answers)),
    decreases depth, e, 1nat, 0nat,
{
    match e {
        Expr::ToStr(x) => {
            let v: Value = eval(s, &**x, env, depth)?;
            return to_string(s, v);
        },
        Expr::Yield { delegate, arg } => {
            let v: Value = match arg {
                Some(x) => {
                    eval(s, &**x, env, depth)?
                },
                None => {
                    Value::Undefined
                },
            };
            let inside: bool = s.flag(Request::InGenerator)?;
            if !inside {
                return throw(s, ErrorKind::SyntaxError, "yield outside a generator");
            } else if !*delegate {
                return yield_one(s, v);
            } else {
                let asynchronous: bool = s.flag(Request::InAsyncGenerator)?;
                if asynchronous {
                    return yield_delegate_async(s, v);
                } else {
                    return yield_delegate(s, v);
                }
            }
        },
        Expr::Await(x) => {
            let v: Value = eval(s, &**x, env, depth)?;
            return coro_await(s, v);
        },
        Expr::PrivateIn { name, obj } => {
            let o: Value = eval(s, &**obj, env, depth)?;
            let hidden: u64 = resolve_private(s, name, env)?;
            if matches!(o, Value::Obj(_)) {
                let b: bool = s.flag(Request::HasOwn { base: o, key: Key::Made(hidden) })?;
                return Ok(Value::Bool(b));
            } else {
                return throw(
                    s,
                    ErrorKind::TypeError,
                    "the right-hand side of 'in' must be an object",
                );
            }
        },
        Expr::OptionalChain(x) => {
            let saved: bool = s.short_circuited();
            s.set_short(false);
            let v: Completion<'a> = eval(s, &**x, env, depth);
            let short: bool = s.short_circuited();
            s.set_short(saved);
            if short {
                return Ok(Value::Undefined);
            } else {
                return v;
            }
        },
        _ => {
            return Ok(Value::Undefined);
        },
    }
}

/// Whether the right side of a logical operator is wanted, given the left.
pub open spec fn wants_right_step<'a>(op: &'static str, l: Value, w: World<'a>) -> Step<'a, bool>
{
    if op@ == "&&"@ {
        to_boolean_step(l, w)
    } else if op@ == "||"@ {
        next(
            to_boolean_step(l, w),
            |b: bool, w: World<'a>| (Ok(!b), w),
        )
    } else {
        (Ok(l.is_nullish()), w)
    }
}

/// Whether the right side of a logical operator is wanted, given the left.
pub fn wants_right<'h, 'a, H: Host<'a>>(
    s: &mut Session<'h, 'a, H>,
    op: &'static str,
    l: Value,
) -> (out: Result<bool, Abrupt<'a>>)
    ensures
        final(s).continues(*old(s)),
        forall|answers: Answers<'a>| #[trigger]
            final(s).agrees(answers) ==> old(s).agrees(answers) && (out, final(s).world(answers))
                == wants_right_step(op, l, old(s).world(answers)),
{
    if same_text(op, "&&") {
        return to_boolean(s, l);
    } else if same_text(op, "||") {
        let b: bool = to_boolean(s, l)?;
        return Ok(!b);
    } else {
        return Ok(l.is_nullish());
    }
}

/// An operator other than assignment.
pub open spec fn eval_operator_step<'a>(
    e: &'a Expr,
    env: Env,
    depth: u64,
    w: World<'a>,
) -> Step<'a, Value>
    decreases depth, e, 1nat, 0nat,
{
    match e {
        Expr::Cond { test, cons, alt } => {
            next(
                eval_step(&**test, env, depth, w),
                |t: Value, w: World<'a>|
                    next(
                        to_boolean_step(t, w),
                        |b: bool, w: World<'a>|
                            if b {
                                eval_step(&**cons, env, depth, w)
                            } else {
                                eval_step(&**alt, env, depth, w)
                            },
                    ),
            )
        },
        Expr::Logical { op, left, right } => {
            next(
                eval_step(&**left, env, depth, w),
                |l: Value, w: World<'a>|
                    next(
                        wants_right_step(*op, l, w),
                        |b: bool, w: World<'a>|
                            if b {
                                eval_step(&**right, env, depth, w)
                            } else {
                                (Ok(l), w)
                            },
                    ),
            )
        },
        Expr::Binary { op, left, right } => {
            next(
                eval_step(&**left, env, depth, w),
                |l: Value, w: World<'a>|
                    next(
                        eval_step(&**right, env, depth, w),
                        |r: Value, w: World<'a>| binary_step(*op, l, r, w),
                    ),
            )
        },
        Expr::Unary { .. } => eval_unary_step(e, env, depth, w),
        Expr::Update { .. } => eval_update_step(e, env, depth, w),
        _ => (Ok(Value::Undefined), w),
    }
}

/// An operator other than assignment.
#[verifier::spinoff_prover]
pub fn eval_operator<'h, 'a, H: Host<'a>>(
    s: &mut Session<'h, 'a, H>,
    e: &'a Expr,
    env: Env,
    depth: u64,
) -> (out: Result<Value, Abrupt<'a>>)
    ensures
        final(s).continues(*old(s)),
        forall|answers: Answers<'a>| #[trigger]
            final(s).agrees(answers) ==> old(s).agrees(answers) && (out, final(s).world(answers))
                == eval_operator_step(e, env, depth, old(s).world(answers)),
    decreases depth, e, 1nat, 0nat,
{
    match e {
        Expr::Cond { test, cons, alt } => {
            let t: Value = eval(s, &**test, env, depth)?;
            let b: bool = to_boolean(s, t)?;
            if b {
                return eval(s, &**cons, env, depth);
            } else {
                return eval(s, &**alt, env, depth);
            }
        },
        Expr::Logical { op, left, right } => {
            let l: Value = eval(s, &**left, env, depth)?;
            let b: bool = wants_right(s, *op, l)?;
            if b {
                return eval(s, &**right, env, depth);
            } else {
                return Ok(l);
            }
        },
        Expr::Binary { op, left, right } => {
            let l: Value = eval(s, &**left, env, depth)?;
            let r: Value = eval(s, &**right, env, depth)?;
            return binary(s, *op, l, r);
        },
        Expr::Unary { .. } => {
            return eval_unary(s, e, env, depth);
        },
        Expr::Update { .. } => {
            return eval_update(s, e, env, depth);
        },
        _ => {
            return Ok(Value::Undefined);
        },
    }
}

/// A prefix operator.
pub open spec fn eval_unary_step<'a>(
    e: &'a Expr,
    env: Env,
    depth: u64,
    w: World<'a>,
) -> Step<'a, Value>
    decreases depth, e, 0nat, 0nat,
{
    match e {
        Expr::Unary { op, arg } => {
            if op@ == "typeof"@ {
                eval_typeof_step(&**arg, env, depth, w)
            } else if op@ == "delete"@ {
                eval_delete_step(&**arg, env, depth, w)
            } else {
                next(
                    eval_step(&**arg, env, depth, w),
                    |v: Value, w: World<'a>| prefix_operate_step(*op, v, w),
                )
            }
        },
        _ => (Ok(Value::Undefined), w),
    }
}

/// A prefix operator.
#[verifier::spinoff_prover]
pub fn eval_unary<'h, 'a, H: Host<'a>>(
    s: &mut Session<'h, 'a, H>,
    e: &'a Expr,
    env: Env,
    depth: u64,
) -> (out: Result<Value, Abrupt<'a>>)
    ensures
        final(s).continues(*old(s)),
        forall|answers: Answers<'a>| #[trigger]
            final(s).agrees(answers) ==> old(s).agrees(answers) && (out, final(s).world(answers))
                == eval_unary_step(e, env, depth, old(s).world(answers)),
    decreases depth, e, 0nat, 0nat,
{
    match e {
        Expr::Unary { op, arg } => {
            if same_text(op, "typeof") {
                return eval_typeof(s, &**arg, env, depth);
            } else if same_text(op, "delete") {
                return eval_delete(s, &**arg, env, depth);
            } else {
                let v: Value = eval(s, &**arg, env, depth)?;
                return prefix_operate(s, *op, v);
            }
        },
        _ => {
            return Ok(Value::Undefined);
        },
    }
}

/// `++` and `--`: the target is resolved once and serves both the read and the write.
pub open spec fn eval_update_step<'a>(
    e: &'a Expr,
    env: Env,
    depth: u64,
    w: World<'a>,
) -> Step<'a, Value>
    decreases depth, e, 0nat, 0nat,
{
    match e {
        Expr::Update { op, prefix, arg } => {
            next(
                resolve_reference_step(&**arg, env, depth, w),
                |place: Reference<'a>, w: World<'a>|
                    next(
                        get_reference_step(place, w),
                        |got: (Value, Reference<'a>), w: World<'a>|
                            next(
                                if matches!(got.0, Value::BigInt(_)) {
                                    (Ok(got.0), w)
                                } else {
                                    next(
                                        to_number_step(got.0, w),
                                        |n: u64, w: World<'a>| (Ok(Value::Num(n)), w),
                                    )
                                },
                                |before: Value, w: World<'a>|
                                    next(
                                        numeric_step_step(op@ == "++"@, before, w),
                                        |after: Value, w: World<'a>|
                                            next(
                                                put_reference_step(got.1, after, w),
                                                |u: (), w: World<'a>|
                                                    if *prefix {
                                                        (Ok(after), w)
                                                    } else {
                                                        (Ok(before), w)
                                                    },
                                            ),
                                    ),
                            ),
                    ),
            )
        },
        _ => (Ok(Value::Undefined), w),
    }
}

/// `++` and `--`: the target is resolved once and serves both the read and the write.
#[verifier::spinoff_prover]
pub fn eval_update<'h, 'a, H: Host<'a>>(
    s: &mut Session<'h, 'a, H>,
    e: &'a Expr,
    env: Env,
    depth: u64,
) -> (out: Result<Value, Abrupt<'a>>)
    ensures
        final(s).continues(*old(s)),
        forall|answers: Answers<'a>| #[trigger]
            final(s).agrees(answers) ==> old(s).agrees(answers) && (out, final(s).world(answers))
                == eval_update_step(e, env, depth, old(s).world(answers)),
    decreases depth, e, 0nat, 0nat,
{
    match e {
        Expr::Update { op, prefix, arg } => {
            let place: Reference<'a> = resolve_reference(s, &**arg, env, depth)?;
            let got: (Value, Reference<'a>) = get_reference(s, place)?;
            let before: Value = if matches!(got.0, Value::BigInt(_)) {
                got.0
            } else {
                let n: u64 = to_number(s, got.0)?;
                Value::Num(n)
            };
            let after: Value = numeric_step(s, same_text(*op, "++"), before)?;
            let u: () = put_reference(s, got.1, after)?;
            if *prefix {
                return Ok(after);
            } else {
                return Ok(before);
            }
        },
        _ => {
            return Ok(Value::Undefined);
        },
    }
}

/// `typeof`: a name that is bound nowhere is not an error, one that is not initialized yet is.
pub open spec fn eval_typeof_step<'a>(
    arg: &'a Expr,
    env: Env,
    depth: u64,
    w: World<'a>,
) -> Step<'a, Value>
    decreases depth, arg, 3nat, 0nat,
{
    match arg {
        Expr::Ident(name) => {
            let (r, w) = get_var_step(Name::Source(name), env, w);
            match r {
                Ok(v) => type_of_step(v, w),
                Err(a) => {
                    if w.scopes.uninitialized(env, name@, u64::MAX) {
                        (Err(a), w)
                    } else {
                        let t: Value = w.next_text();
                        let w = w.add_text("undefined"@);
                        (Ok(t), w)
                    }
                },
            }
        },
        _ => {
            next(
                eval_step(arg, env, depth, w),
                |v: Value, w: World<'a>| type_of_step(v, w),
            )
        },
    }
}

/// `typeof`: a name that is bound nowhere is not an error, one that is not initialized yet is.
pub fn eval_typeof<'h, 'a, H: Host<'a>>(
    s: &mut Session<'h, 'a, H>,
    arg: &'a Expr,
    env: Env,
    depth: u64,
) -> (out: Result<Value, Abrupt<'a>>)
    ensures
        final(s).continues(*old(s)),
        forall|answers: Answers<'a>| #[trigger]
            final(s).agrees(answers) ==> old(s).agrees(answers) && (out, final(s).world(answers))
                == eval_typeof_step(arg, env, depth, old(s).world(answers)),
    decreases depth, arg, 3nat, 0nat,
{
    match arg {
        Expr::Ident(name) => {
            let r: Completion<'a> = get_var(s, Name::Source(name), env);
            match r {
                Ok(v) => {
                    return type_of(s, v);
                },
                Err(a) => {
                    if s.scopes().binding_in_tdz(name.as_str(), env, u64::MAX) {
                        return Err(a);
                    } else {
                        let t: Value = s.add_text("undefined".to_owned());
                        return Ok(t);
                    }
                },
            }
        },
        _ => {
            let v: Value = eval(s, arg, env, depth)?;
            return type_of(s, v);
        },
    }
}

/// `delete`.
pub open spec fn eval_delete_step<'a>(
    arg: &'a Expr,
    env: Env,
    depth: u64,
    w: World<'a>,
) -> Step<'a, Value>
    decreases depth, arg, 3nat, 0nat,
{
    match arg {
        Expr::OptionalChain(x) => {
            let saved: bool = w.short;
            let w = World { short: false, ..w };
            let (r, w) = eval_delete_step(&**x, env, depth, w);
            let short: bool = w.short;
            let w = World { short: saved, ..w };
            if short && matches!(r, Ok(_)) {
                (Ok(Value::Bool(true)), w)
            } else {
                (r, w)
            }
        },
        Expr::Paren(x) => eval_delete_step(&**x, env, depth, w),
        Expr::Ident(name) => {
            next(
                delete_ident_step(name, env, w),
                |b: bool, w: World<'a>| (Ok(Value::Bool(b)), w),
            )
        },
        Expr::Member { obj, prop, optional } => {
            if !*optional && **obj is Super {
                next(
                    get_var_step(Name::Fixed("this"), env, w),
                    |t: Value, w: World<'a>|
                        throws(ErrorKind::ReferenceError, "cannot delete a super property", w),
                )
            } else {
                next(
                    eval_step(&**obj, env, depth, w),
                    |base: Value, w: World<'a>|
                        if w.short {
                            (Ok(Value::Bool(true)), w)
                        } else if base.is_nullish() {
                            if *optional {
                                let w = World { short: true, ..w };
                                (Ok(Value::Bool(true)), w)
                            } else {
                                throws_about(
                                    ErrorKind::TypeError,
                                    "cannot delete property '",
                                    "' of null or undefined",
                                    Subject::Key(Key::Source(prop)),
                                    w,
                                )
                            }
                        } else {
                            delete_prop_on_step(base, Key::Source(prop), w)
                        },
                )
            }
        },
        Expr::Index { obj, index, optional } => {
            if !*optional && **obj is Super {
                next(
                    get_var_step(Name::Fixed("this"), env, w),
                    |t: Value, w: World<'a>|
                        next(
                            eval_step(&**index, env, depth, w),
                            |i: Value, w: World<'a>|
                                throws(
                                    ErrorKind::ReferenceError,
                                    "cannot delete a super property",
                                    w,
                                ),
                        ),
                )
            } else {
                next(
                    eval_step(&**obj, env, depth, w),
                    |base: Value, w: World<'a>|
                        if w.short {
                            (Ok(Value::Bool(true)), w)
                        } else if *optional && base.is_nullish() {
                            let w = World { short: true, ..w };
                            (Ok(Value::Bool(true)), w)
                        } else {
                            next(
                                eval_step(&**index, env, depth, w),
                                |i: Value, w: World<'a>|
                                    next(
                                        to_property_key_step(i, w),
                                        |k: Key<'a>, w: World<'a>|
                                            if base.is_nullish() {
                                                throws_about(
                                                    ErrorKind::TypeError,
                                                    "cannot delete property '",
                                                    "' of null or undefined",
                                                    Subject::Key(k),
                                                    w,
                                                )
                                            } else {
                                                delete_prop_on_step(base, k, w)
                                            },
                                    ),
                            )
                        },
                )
            }
        },
        _ => {
            next(
                eval_step(arg, env, depth, w),
                |v: Value, w: World<'a>| (Ok(Value::Bool(true)), w),
            )
        },
    }
}

/// `delete`.
#[verifier::spinoff_prover]
pub fn eval_delete<'h, 'a, H: Host<'a>>(
    s: &mut Session<'h, 'a, H>,
    arg: &'a Expr,
    env: Env,
    depth: u64,
) -> (out: Result<Value, Abrupt<'a>>)
    ensures
        final(s).continues(*old(s)),
        forall|answers: Answers<'a>| #[trigger]
            final(s).agrees(answers) ==> old(s).agrees(answers) && (out, final(s).world(answers))
                == eval_delete_step(arg, env, depth, old(s).world(answers)),
    decreases depth, arg, 3nat, 0nat,
{
    match arg {
        Expr::OptionalChain(x) => {
            let saved: bool = s.short_circuited();
            s.set_short(false);
            let r: Completion<'a> = eval_delete(s, &**x, env, depth);
            let short: bool = s.short_circuited();
            s.set_short(saved);
            if short && matches!(r, Ok(_)) {
                return Ok(Value::Bool(true));
            } else {
                return r;
            }
        },
        Expr::Paren(x) => {
            return eval_delete(s, &**x, env, depth);
        },
        Expr::Ident(name) => {
            let b: bool = delete_ident(s, name, env)?;
            return Ok(Value::Bool(b));
        },
        Expr::Member { obj, prop, optional } => {
            if !*optional && is_super(&**obj) {
                let t: Value = get_var(s, Name::Fixed("this"), env)?;
                return throw(s, ErrorKind::ReferenceError, "cannot delete a super property");
            }
            let base: Value = eval(s, &**obj, env, depth)?;
            if s.short_circuited() {
                return Ok(Value::Bool(true));
            } else if base.is_nullish() {
                if *optional {
                    s.set_short(true);
                    return Ok(Value::Bool(true));
                } else {
                    return throw_about(
                        s,
                        ErrorKind::TypeError,
                        "cannot delete property '",
                        "' of null or undefined",
                        Subject::Key(Key::Source(prop)),
                    );
                }
            } else {
                return delete_prop_on(s, base, Key::Source(prop));
            }
        },
        Expr::Index { obj, index, optional } => {
            if !*optional && is_super(&**obj) {
                let t: Value = get_var(s, Name::Fixed("this"), env)?;
                let i: Value = eval(s, &**index, env, depth)?;
                return throw(s, ErrorKind::ReferenceError, "cannot delete a super property");
            }
            let base: Value = eval(s, &**obj, env, depth)?;
            if s.short_circuited() {
                return Ok(Value::Bool(true));
            } else if *optional && base.is_nullish() {
                s.set_short(true);
                return Ok(Value::Bool(true));
            } else {
                let i: Value = eval(s, &**index, env, depth)?;
                let k: Key<'a> = to_property_key(s, i)?;
                if base.is_nullish() {
                    return throw_about(
                        s,
                        ErrorKind::TypeError,
                        "cannot delete property '",
                        "' of null or undefined",
                        Subject::Key(k),
                    );
                } else {
                    return delete_prop_on(s, base, k);
                }
            }
        },
        _ => {
            let v: Value = eval(s, arg, env, depth)?;
            return Ok(Value::Bool(true));
        },
    }
}

/// A property access.
pub open spec fn eval_access_step<'a>(
    e: &'a Expr,
    env: Env,
    depth: u64,
    w: World<'a>,
) -> Step<'a, Value>
    decreases depth, e, 1nat, 0nat,
{
    match e {
        Expr::Member { obj, prop, optional } => {
            if **obj is Super {
                next(
                    get_var_step(Name::Fixed("this"), env, w),
                    |this: Value, w: World<'a>|
                        next(
                            super_base_step(env, w),
                            |home: Value, w: World<'a>|
                                if home.is_nullish() {
                                    throws_about(
                                        ErrorKind::TypeError,
                                        "cannot read property '",
                                        "' of a null super base",
                                        Subject::Key(Key::Source(prop)),
                                        w,
                                    )
                                } else {
                                    asks(
                                        Request::GetMemberFor { base: home, key: Key::Source(prop), receiver: this },
                                        w,
                                    )
                                },
                        ),
                )
            } else {
                next(
                    eval_step(&**obj, env, depth, w),
                    |base: Value, w: World<'a>|
                        if w.short {
                            (Ok(Value::Undefined), w)
                        } else if *optional && base.is_nullish() {
                            let w = World { short: true, ..w };
                            (Ok(Value::Undefined), w)
                        } else if private_name(prop@) {
                            next(
                                resolve_private_step(prop, env, w),
                                |hidden: u64, w: World<'a>|
                                    get_private_member_step(base, Key::Made(hidden), w),
                            )
                        } else {
                            asks(Request::GetMember { base, key: Key::Source(prop) }, w)
                        },
                )
            }
        },
        Expr::Index { obj, index, optional } => {
            if **obj is Super {
                next(
                    get_var_step(Name::Fixed("this"), env, w),
                    |this: Value, w: World<'a>|
                        next(
                            eval_step(&**index, env, depth, w),
                            |i: Value, w: World<'a>|
                                next(
                                    super_base_step(env, w),
                                    |home: Value, w: World<'a>|
                                        next(
                                            to_property_key_step(i, w),
                                            |k: Key<'a>, w: World<'a>|
                                                if home.is_nullish() {
                                                    throws_about(
                                                        ErrorKind::TypeError,
                                                        "cannot read property '",
                                                        "' of a null super base",
                                                        Subject::Key(k),
                                                        w,
                                                    )
                                                } else {
                                                    asks(
                                                        Request::GetMemberFor { base: home, key: k, receiver: this },
                                                        w,
                                                    )
                                                },
                                        ),
                                ),
                        ),
                )
            } else {
                next(
                    eval_step(&**obj, env, depth, w),
                    |base: Value, w: World<'a>|
                        if w.short {
                            (Ok(Value::Undefined), w)
                        } else if *optional && base.is_nullish() {
                            let w = World { short: true, ..w };
                            (Ok(Value::Undefined), w)
                        } else {
                            next(
                                eval_step(&**index, env, depth, w),
                                |i: Value, w: World<'a>|
                                    if base.is_nullish() {
                                        throws(
                                            ErrorKind::TypeError,
                                            "cannot read property of null or undefined",
                                            w,
                                        )
                                    } else {
                                        next(
                                            to_property_key_step(i, w),
                                            |k: Key<'a>, w: World<'a>|
                                                asks(Request::GetMember { base, key: k }, w),
                                        )
                                    },
                            )
                        },
                )
            }
        },
        _ => (Ok(Value::Undefined), w),
    }
}

/// A property access.
#[verifier::spinoff_prover]
pub fn eval_access<'h, 'a, H: Host<'a>>(
    s: &mut Session<'h, 'a, H>,
    e: &'a Expr,
    env: Env,
    depth: u64,
) -> (out: Result<Value, Abrupt<'a>>)
    ensures
        final(s).continues(*old(s)),
        forall|answers: Answers<'a>| #[trigger]
            final(s).agrees(answers) ==> old(s).agrees(answers) && (out, final(s).world(answers))
                == eval_access_step(e, env, depth, old(s).world(answers)),
    decreases depth, e, 1nat, 0nat,
{
    match e {
        Expr::Member { obj, prop, optional } => {
            if is_super(&**obj) {
                let this: Value = get_var(s, Name::Fixed("this"), env)?;
                let home: Value = super_base(s, env)?;
                if home.is_nullish() {
                    return throw_about(
                        s,
                        ErrorKind::TypeError,
                        "cannot read property '",
                        "' of a null super base",
                        Subject::Key(Key::Source(prop)),
                    );
                } else {
                    return s.value(
                        Request::GetMemberFor { base: home, key: Key::Source(prop), receiver: this },
                    );
                }
            } else {
                let base: Value = eval(s, &**obj, env, depth)?;
                if s.short_circuited() {
                    return Ok(Value::Undefined);
                } else if *optional && base.is_nullish() {
                    s.set_short(true);
                    return Ok(Value::Undefined);
                } else if is_private(prop) {
                    let hidden: u64 = resolve_private(s, prop, env)?;
                    return get_private_member(s, base, Key::Made(hidden));
                } else {
                    return s.value(Request::GetMember { base, key: Key::Source(prop) });
                }
            }
        },
        Expr::Index { obj, index, optional } => {
            if is_super(&**obj) {
                let this: Value = get_var(s, Name::Fixed("this"), env)?;
                let i: Value = eval(s, &**index, env, depth)?;
                let home: Value = super_base(s, env)?;
                let k: Key<'a> = to_property_key(s, i)?;
                if home.is_nullish() {
                    return throw_about(
                        s,
                        ErrorKind::TypeError,
                        "cannot read property '",
                        "' of a null super base",
                        Subject::Key(k),
                    );
                } else {
                    return s.value(Request::GetMemberFor { base: home, key: k, receiver: this });
                }
            } else {
                let base: Value = eval(s, &**obj, env, depth)?;
                if s.short_circuited() {
                    return Ok(Value::Undefined);
                } else if *optional && base.is_nullish() {
                    s.set_short(true);
                    return Ok(Value::Undefined);
                } else {
                    let i: Value = eval(s, &**index, env, depth)?;
                    if base.is_nullish() {
                        return throw(
                            s,
                            ErrorKind::TypeError,
                            "cannot read property of null or undefined",
                        );
                    } else {
                        let k: Key<'a> = to_property_key(s, i)?;
                        return s.value(Request::GetMember { base, key: k });
                    }
                }
            }
        },
        _ => {
            return Ok(Value::Undefined);
        },
    }
}

/// A comma expression. From the item at `i` on.
pub open spec fn eval_sequence_from<'a>(
    items: &'a Vec<Expr>,
    env: Env,
    depth: u64,
    i: nat,
    last: Value,
    w: World<'a>,
) -> Step<'a, Value>
    decreases depth, items, 0nat, items@.len() - i,
{
    if i >= items@.len() {
        (Ok(last), w)
    } else {
        next(
            eval_step(&items@[i as int], env, depth, w),
            |v: Value, w: World<'a>| eval_sequence_from(items, env, depth, i + 1, v, w),
        )
    }
}

/// A comma expression.
pub open spec fn eval_sequence_step<'a>(
    items: &'a Vec<Expr>,
    env: Env,
    depth: u64,
    w: World<'a>,
) -> Step<'a, Value>
    decreases depth, items, 0nat, items@.len() + 1,
{
    eval_sequence_from(items, env, depth, 0, Value::Undefined, w)
}

/// A comma expression.
pub fn eval_sequence<'h, 'a, H: Host<'a>>(
    s: &mut Session<'h, 'a, H>,
    items: &'a Vec<Expr>,
    env: Env,
    depth: u64,
) -> (out: Result<Value, Abrupt<'a>>)
    ensures
        final(s).continues(*old(s)),
        forall|answers: Answers<'a>| #[trigger]
            final(s).agrees(answers) ==> old(s).agrees(answers) && (out, final(s).world(answers))
                == eval_sequence_step(items, env, depth, old(s).world(answers)),
    decreases depth, items, 0nat, items@.len() + 1,
{
    let mut last: Value = Value::Undefined;
    let mut i: usize = 0;
    while i < items.len()
        invariant
            i <= items.len(),
            s.continues(*old(s)),
            forall|answers: Answers<'a>| #[trigger]
                s.agrees(answers) ==> old(s).agrees(answers)
                    && eval_sequence_step(items, env, depth, old(s).world(answers))
                    == eval_sequence_from(items, env, depth, i as nat, last, s.world(answers)),
        decreases items.len() - i,
    {
        let v: Value = eval(s, &items[i], env, depth)?;
        last = v;
        i = i + 1;
    }
    return Ok(last);
}

/// A regular expression literal, of which only where it matches next is a property of its own.
pub open spec fn make_regexp_step<'a>(
    body: &'a String,
    flags: &'a String,
    w: World<'a>,
) -> Step<'a, Value>
{
    next(
        asks(Request::MakeRegExp { body, flags }, w),
        |v: Value, w: World<'a>| {
            let w = w.ask(
                Request::DefineOwn { base: v, key: Key::Fixed("lastIndex"), prop: Property::of(Value::Num(0), true, false, false) },
            ).1;
            (Ok(v), w)
        },
    )
}

/// A regular expression literal, of which only where it matches next is a property of its own.
pub fn make_regexp<'h, 'a, H: Host<'a>>(
    s: &mut Session<'h, 'a, H>,
    body: &'a String,
    flags: &'a String,
) -> (out: Result<Value, Abrupt<'a>>)
    ensures
        final(s).continues(*old(s)),
        forall|answers: Answers<'a>| #[trigger]
            final(s).agrees(answers) ==> old(s).agrees(answers) && (out, final(s).world(answers))
                == make_regexp_step(body, flags, old(s).world(answers)),
{
    let v: Value = s.value(Request::MakeRegExp { body, flags })?;
    let _ = s.ask(
        Request::DefineOwn { base: v, key: Key::Fixed("lastIndex"), prop: Property::data(Value::Num(0), true, false, false) },
    );
    return Ok(v);
}

/// An array literal.
pub open spec fn eval_array_step<'a>(
    elems: &'a Vec<ArrayElem>,
    env: Env,
    depth: u64,
    w: World<'a>,
) -> Step<'a, Value>
    decreases depth, elems, 1nat, 0nat,
{
    let list: u64 = w.next_list();
    let w = w.new_list(Seq::empty());
    next(
        push_elems_step(elems, list, env, depth, w),
        |l: u64, w: World<'a>| asks(Request::ArrayOf { list: l }, w),
    )
}

/// An array literal.
pub fn eval_array<'h, 'a, H: Host<'a>>(
    s: &mut Session<'h, 'a, H>,
    elems: &'a Vec<ArrayElem>,
    env: Env,
    depth: u64,
) -> (out: Result<Value, Abrupt<'a>>)
    ensures
        final(s).continues(*old(s)),
        forall|answers: Answers<'a>| #[trigger]
            final(s).agrees(answers) ==> old(s).agrees(answers) && (out, final(s).world(answers))
                == eval_array_step(elems, env, depth, old(s).world(answers)),
    decreases depth, elems, 1nat, 0nat,
{
    let list: u64 = s.new_list(Vec::new());
    let l: u64 = push_elems(s, elems, list, env, depth)?;
    return s.value(Request::ArrayOf { list: l });
}

/// An object literal. Its methods find it as their home object in a scope of their own.
pub open spec fn eval_object_step<'a>(
    props: &'a Vec<PropDef>,
    env: Env,
    depth: u64,
    w: World<'a>,
) -> Step<'a, Value>
    decreases depth, props, 1nat, 0nat,
{
    next(
        asks(Request::MakeObject, w),
        |obj: Value, w: World<'a>| {
            let home: Env = w.next_scope();
            let w = w.new_scope(Some(env), None, false, false);
            let w = w.bind_var(Name::Fixed("%homeobject%"), obj, home);
            fill_object_step(props, obj, home, env, depth, w)
        },
    )
}

/// An object literal. Its methods find it as their home object in a scope of their own.
pub fn eval_object<'h, 'a, H: Host<'a>>(
    s: &mut Session<'h, 'a, H>,
    props: &'a Vec<PropDef>,
    env: Env,
    depth: u64,
) -> (out: Result<Value, Abrupt<'a>>)
    ensures
        final(s).continues(*old(s)),
        forall|answers: Answers<'a>| #[trigger]
            final(s).agrees(answers) ==> old(s).agrees(answers) && (out, final(s).world(answers))
                == eval_object_step(props, env, depth, old(s).world(answers)),
    decreases depth, props, 1nat, 0nat,
{
    let obj: Value = s.value(Request::MakeObject)?;
    let home: Env = s.new_scope(Some(env), None, false, false);
    s.bind_var(Name::Fixed("%homeobject%"), obj, home);
    return fill_object(s, props, obj, home, env, depth);
}

/// Adds the elements of an array literal to a list. From the item at `i` on.
pub open spec fn push_elems_from<'a>(
    elems: &'a Vec<ArrayElem>,
    list: u64,
    env: Env,
    depth: u64,
    i: nat,
    w: World<'a>,
) -> Step<'a, u64>
    decreases depth, elems, 0nat, elems@.len() - i,
{
    if i >= elems@.len() {
        (Ok(list), w)
    } else {
        match &elems@[i as int] {
            ArrayElem::Item(x) => {
                next(
                    eval_step(x, env, depth, w),
                    |v: Value, w: World<'a>| {
                        let w = w.push(list, v);
                        push_elems_from(elems, list, env, depth, i + 1, w)
                    },
                )
            },
            ArrayElem::Hole => {
                let w = w.push(list, Value::Empty);
                push_elems_from(elems, list, env, depth, i + 1, w)
            },
            ArrayElem::Spread(x) => {
                next(
                    eval_step(x, env, depth, w),
                    |v: Value, w: World<'a>|
                        next(
                            iterate_step(v, list, w),
                            |u: (), w: World<'a>|
                                push_elems_from(elems, list, env, depth, i + 1, w),
                        ),
                )
            },
        }
    }
}

/// Adds the elements of an array literal to a list.
pub open spec fn push_elems_step<'a>(
    elems: &'a Vec<ArrayElem>,
    list: u64,
    env: Env,
    depth: u64,
    w: World<'a>,
) -> Step<'a, u64>
    decreases depth, elems, 0nat, elems@.len() + 1,
{
    push_elems_from(elems, list, env, depth, 0, w)
}

/// Adds the elements of an array literal to a list.
pub fn push_elems<'h, 'a, H: Host<'a>>(
    s: &mut Session<'h, 'a, H>,
    elems: &'a Vec<ArrayElem>,
    list: u64,
    env: Env,
    depth: u64,
) -> (out: Result<u64, Abrupt<'a>>)
    ensures
        final(s).continues(*old(s)),
        forall|answers: Answers<'a>| #[trigger]
            final(s).agrees(answers) ==> old(s).agrees(answers) && (out, final(s).world(answers))
                == push_elems_step(elems, list, env, depth, old(s).world(answers)),
    decreases depth, elems, 0nat, elems@.len() + 1,
{
    let mut i: usize = 0;
    while i < elems.len()
        invariant
            i <= elems.len(),
            s.continues(*old(s)),
            forall|answers: Answers<'a>| #[trigger]
                s.agrees(answers) ==> old(s).agrees(answers)
                    && push_elems_step(elems, list, env, depth, old(s).world(answers))
                    == push_elems_from(elems, list, env, depth, i as nat, s.world(answers)),
        decreases elems.len() - i,
    {
        match &elems[i] {
            ArrayElem::Item(x) => {
                let v: Value = eval(s, x, env, depth)?;
                s.push(list, v);
            },
            ArrayElem::Hole => {
                s.push(list, Value::Empty);
            },
            ArrayElem::Spread(x) => {
                let v: Value = eval(s, x, env, depth)?;
                let u: () = iterate(s, v, list)?;
            },
        }
        i = i + 1;
    }
    return Ok(list);
}

/// Adds arguments to a list. From the item at `i` on.
pub open spec fn push_args_from<'a>(
    args: &'a Vec<ArrayElem>,
    list: u64,
    env: Env,
    depth: u64,
    i: nat,
    w: World<'a>,
) -> Step<'a, u64>
    decreases depth, args, 0nat, args@.len() - i,
{
    if i >= args@.len() {
        (Ok(list), w)
    } else {
        match &args@[i as int] {
            ArrayElem::Item(x) => {
                next(
                    eval_step(x, env, depth, w),
                    |v: Value, w: World<'a>| {
                        let w = w.push(list, v);
                        push_args_from(args, list, env, depth, i + 1, w)
                    },
                )
            },
            ArrayElem::Hole => {
                let w = w.push(list, Value::Undefined);
                push_args_from(args, list, env, depth, i + 1, w)
            },
            ArrayElem::Spread(x) => {
                next(
                    eval_step(x, env, depth, w),
                    |v: Value, w: World<'a>|
                        next(
                            iterate_step(v, list, w),
                            |u: (), w: World<'a>| push_args_from(args, list, env, depth, i + 1, w),
                        ),
                )
            },
        }
    }
}

/// Adds arguments to a list.
pub open spec fn push_args_step<'a>(
    args: &'a Vec<ArrayElem>,
    list: u64,
    env: Env,
    depth: u64,
    w: World<'a>,
) -> Step<'a, u64>
    decreases depth, args, 0nat, args@.len() + 1,
{
    push_args_from(args, list, env, depth, 0, w)
}

/// Adds arguments to a list.
pub fn push_args<'h, 'a, H: Host<'a>>(
    s: &mut Session<'h, 'a, H>,
    args: &'a Vec<ArrayElem>,
    list: u64,
    env: Env,
    depth: u64,
) -> (out: Result<u64, Abrupt<'a>>)
    ensures
        final(s).continues(*old(s)),
        forall|answers: Answers<'a>| #[trigger]
            final(s).agrees(answers) ==> old(s).agrees(answers) && (out, final(s).world(answers))
                == push_args_step(args, list, env, depth, old(s).world(answers)),
    decreases depth, args, 0nat, args@.len() + 1,
{
    let mut i: usize = 0;
    while i < args.len()
        invariant
            i <= args.len(),
            s.continues(*old(s)),
            forall|answers: Answers<'a>| #[trigger]
                s.agrees(answers) ==> old(s).agrees(answers)
                    && push_args_step(args, list, env, depth, old(s).world(answers))
                    == push_args_from(args, list, env, depth, i as nat, s.world(answers)),
        decreases args.len() - i,
    {
        match &args[i] {
            ArrayElem::Item(x) => {
                let v: Value = eval(s, x, env, depth)?;
                s.push(list, v);
            },
            ArrayElem::Hole => {
                s.push(list, Value::Undefined);
            },
            ArrayElem::Spread(x) => {
                let v: Value = eval(s, x, env, depth)?;
                let u: () = iterate(s, v, list)?;
            },
        }
        i = i + 1;
    }
    return Ok(list);
}

/// The list of a call's arguments.
pub open spec fn eval_args_step<'a>(
    args: &'a Vec<ArrayElem>,
    env: Env,
    depth: u64,
    w: World<'a>,
) -> Step<'a, u64>
    decreases depth, args, 1nat, 0nat,
{
    let list: u64 = w.next_list();
    let w = w.new_list(Seq::empty());
    push_args_step(args, list, env, depth, w)
}

/// The list of a call's arguments.
pub fn eval_args<'h, 'a, H: Host<'a>>(
    s: &mut Session<'h, 'a, H>,
    args: &'a Vec<ArrayElem>,
    env: Env,
    depth: u64,
) -> (out: Result<u64, Abrupt<'a>>)
    ensures
        final(s).continues(*old(s)),
        forall|answers: Answers<'a>| #[trigger]
            final(s).agrees(answers) ==> old(s).agrees(answers) && (out, final(s).world(answers))
                == eval_args_step(args, env, depth, old(s).world(answers)),
    decreases depth, args, 1nat, 0nat,
{
    let list: u64 = s.new_list(Vec::new());
    return push_args(s, args, list, env, depth);
}

/// Adds the values of expressions to a list. From the item at `i` on.
pub open spec fn push_values_from<'a>(
    items: &'a Vec<Expr>,
    list: u64,
    env: Env,
    depth: u64,
    i: nat,
    w: World<'a>,
) -> Step<'a, u64>
    decreases depth, items, 0nat, items@.len() - i,
{
    if i >= items@.len() {
        (Ok(list), w)
    } else {
        next(
            eval_step(&items@[i as int], env, depth, w),
            |v: Value, w: World<'a>| {
                let w = w.push(list, v);
                push_values_from(items, list, env, depth, i + 1, w)
            },
        )
    }
}

/// Adds the values of expressions to a list.
pub open spec fn push_values_step<'a>(
    items: &'a Vec<Expr>,
    list: u64,
    env: Env,
    depth: u64,
    w: World<'a>,
) -> Step<'a, u64>
    decreases depth, items, 0nat, items@.len() + 1,
{
    push_values_from(items, list, env, depth, 0, w)
}

/// Adds the values of expressions to a list.
pub fn push_values<'h, 'a, H: Host<'a>>(
    s: &mut Session<'h, 'a, H>,
    items: &'a Vec<Expr>,
    list: u64,
    env: Env,
    depth: u64,
) -> (out: Result<u64, Abrupt<'a>>)
    ensures
        final(s).continues(*old(s)),
        forall|answers: Answers<'a>| #[trigger]
            final(s).agrees(answers) ==> old(s).agrees(answers) && (out, final(s).world(answers))
                == push_values_step(items, list, env, depth, old(s).world(answers)),
    decreases depth, items, 0nat, items@.len() + 1,
{
    let mut i: usize = 0;
    while i < items.len()
        invariant
            i <= items.len(),
            s.continues(*old(s)),
            forall|answers: Answers<'a>| #[trigger]
                s.agrees(answers) ==> old(s).agrees(answers)
                    && push_values_step(items, list, env, depth, old(s).world(answers))
                    == push_values_from(items, list, env, depth, i as nat, s.world(answers)),
        decreases items.len() - i,
    {
        let v: Value = eval(s, &items[i], env, depth)?;
        s.push(list, v);
        i = i + 1;
    }
    return Ok(list);
}

/// A property key as it stands in the source.
pub open spec fn eval_prop_key_step<'a>(
    key: &'a PropKey,
    env: Env,
    depth: u64,
    w: World<'a>,
) -> Step<'a, Key<'a>>
    decreases depth, key, 1nat, 0nat,
{
    match key {
        PropKey::Ident(n) => (Ok(Key::Source(n)), w),
        PropKey::Str(n) => (Ok(Key::Source(n)), w),
        PropKey::Num(n) => {
            next(
                number_to_text_step(*n, w),
                |t: Value, w: World<'a>| (Ok(value_key(t)), w),
            )
        },
        PropKey::Computed(x) => {
            next(
                eval_step(x, env, depth, w),
                |v: Value, w: World<'a>|
                    next(
                        to_property_key_step(v, w),
                        |k: Key<'a>, w: World<'a>| (Ok(k), w),
                    ),
            )
        },
    }
}

/// A property key as it stands in the source.
pub fn eval_prop_key<'h, 'a, H: Host<'a>>(
    s: &mut Session<'h, 'a, H>,
    key: &'a PropKey,
    env: Env,
    depth: u64,
) -> (out: Result<Key<'a>, Abrupt<'a>>)
    ensures
        final(s).continues(*old(s)),
        forall|answers: Answers<'a>| #[trigger]
            final(s).agrees(answers) ==> old(s).agrees(answers) && (out, final(s).world(answers))
                == eval_prop_key_step(key, env, depth, old(s).world(answers)),
    decreases depth, key, 1nat, 0nat,
{
    match key {
        PropKey::Ident(n) => {
            return Ok(Key::Source(n));
        },
        PropKey::Str(n) => {
            return Ok(Key::Source(n));
        },
        PropKey::Num(n) => {
            let t: Value = number_to_text(s, *n)?;
            return Ok(key_of_value(t));
        },
        PropKey::Computed(x) => {
            let v: Value = eval(s, x, env, depth)?;
            let k: Key<'a> = to_property_key(s, v)?;
            return Ok(k);
        },
    }
}

/// A keyed value of an object literal.
pub open spec fn define_value_step<'a>(
    key: &'a PropKey,
    value: &'a Expr,
    obj: Value,
    k: Key<'a>,
    env: Env,
    depth: u64,
    w: World<'a>,
) -> Step<'a, ()>
    decreases depth, value, 3nat, 0nat,
{
    next(
        eval_step(value, env, depth, w),
        |v: Value, w: World<'a>|
            if anonymous_fn(value) {
                next(
                    name_function_step(v, "", k, false, w),
                    |nm: (), w: World<'a>| {
                        let w = w.ask(
                            Request::DefineOwn { base: obj, key: k, prop: Property::of(v, true, true, true) },
                        ).1;
                        (Ok(()), w)
                    },
                )
            } else {
                let w = w.ask(
                    Request::DefineOwn { base: obj, key: k, prop: Property::of(v, true, true, true) },
                ).1;
                (Ok(()), w)
            },
    )
}

/// A keyed value of an object literal.
pub fn define_value<'h, 'a, H: Host<'a>>(
    s: &mut Session<'h, 'a, H>,
    key: &'a PropKey,
    value: &'a Expr,
    obj: Value,
    k: Key<'a>,
    env: Env,
    depth: u64,
) -> (out: Result<(), Abrupt<'a>>)
    ensures
        final(s).continues(*old(s)),
        forall|answers: Answers<'a>| #[trigger]
            final(s).agrees(answers) ==> old(s).agrees(answers) && (out, final(s).world(answers))
                == define_value_step(key, value, obj, k, env, depth, old(s).world(answers)),
    decreases depth, value, 3nat, 0nat,
{
    let v: Value = eval(s, value, env, depth)?;
    if is_anonymous_fn(value) {
        let nm: () = name_function(s, v, "", k, false)?;
        let _ = s.ask(Request::DefineOwn { base: obj, key: k, prop: Property::plain(v) });
        return Ok(());
    } else {
        let _ = s.ask(Request::DefineOwn { base: obj, key: k, prop: Property::plain(v) });
        return Ok(());
    }
}

/// Puts the properties of an object literal into a new object. From the item at `i` on.
pub open spec fn fill_object_from<'a>(
    props: &'a Vec<PropDef>,
    obj: Value,
    home: Env,
    env: Env,
    depth: u64,
    i: nat,
    w: World<'a>,
) -> Step<'a, Value>
    decreases depth, props, 0nat, props@.len() - i,
{
    if i >= props@.len() {
        (Ok(obj), w)
    } else {
        match &props@[i as int] {
            PropDef::KeyValue { key, value } => {
                next(
                    eval_prop_key_step(key, env, depth, w),
                    |k: Key<'a>, w: World<'a>|
                        next(
                            define_value_step(key, value, obj, k, env, depth, w),
                            |u: (), w: World<'a>|
                                fill_object_from(props, obj, home, env, depth, i + 1, w),
                        ),
                )
            },
            PropDef::Cover { key, value } => {
                next(
                    eval_prop_key_step(key, env, depth, w),
                    |k: Key<'a>, w: World<'a>|
                        next(
                            define_value_step(key, value, obj, k, env, depth, w),
                            |u: (), w: World<'a>|
                                fill_object_from(props, obj, home, env, depth, i + 1, w),
                        ),
                )
            },
            PropDef::Method { key, func } => {
                next(
                    eval_prop_key_step(key, env, depth, w),
                    |k: Key<'a>, w: World<'a>|
                        next(
                            asks(Request::MakeFunction { func: &**func, env: home }, w),
                            |f: Value, w: World<'a>|
                                next(
                                    name_function_step(f, "", k, false, w),
                                    |nm: (), w: World<'a>| {
                                        let w = w.ask(
                                            Request::DefineOwn { base: obj, key: k, prop: Property::of(f, true, true, true) },
                                        ).1;
                                        fill_object_from(props, obj, home, env, depth, i + 1, w)
                                    },
                                ),
                        ),
                )
            },
            PropDef::Getter { key, func } => {
                next(
                    eval_prop_key_step(key, env, depth, w),
                    |k: Key<'a>, w: World<'a>|
                        next(
                            asks(Request::MakeFunction { func: &**func, env: home }, w),
                            |f: Value, w: World<'a>|
                                next(
                                    name_function_step(f, "get ", k, false, w),
                                    |nm: (), w: World<'a>|
                                        next(
                                            define_halves_step(obj, k, Some(f), None, true, w),
                                            |u: (), w: World<'a>|
                                                fill_object_from(
                                                    props,
                                                    obj,
                                                    home,
                                                    env,
                                                    depth,
                                                    i + 1,
                                                    w,
                                                ),
                                        ),
                                ),
                        ),
                )
            },
            PropDef::Setter { key, func } => {
                next(
                    eval_prop_key_step(key, env, depth, w),
                    |k: Key<'a>, w: World<'a>|
                        next(
                            asks(Request::MakeFunction { func: &**func, env: home }, w),
                            |f: Value, w: World<'a>|
                                next(
                                    name_function_step(f, "set ", k, false, w),
                                    |nm: (), w: World<'a>|
                                        next(
                                            define_halves_step(obj, k, None, Some(f), true, w),
                                            |u: (), w: World<'a>|
                                                fill_object_from(
                                                    props,
                                                    obj,
                                                    home,
                                                    env,
                                                    depth,
                                                    i + 1,
                                                    w,
                                                ),
                                        ),
                                ),
                        ),
                )
            },
            PropDef::Spread(x) => {
                next(
                    eval_step(x, env, depth, w),
                    |v: Value, w: World<'a>| {
                        let none: u64 = w.next_list();
                        let w = w.new_list(Seq::empty());
                        next(
                            copy_data_properties_into_step(obj, v, none, w),
                            |u: (), w: World<'a>|
                                fill_object_from(props, obj, home, env, depth, i + 1, w),
                        )
                    },
                )
            },
            PropDef::Proto(x) => {
                next(
                    eval_step(x, env, depth, w),
                    |v: Value, w: World<'a>|
                        if matches!(v, Value::Obj(_)) || matches!(v, Value::Null) {
                            let w = w.ask(Request::SetPrototype { base: obj, proto: v }).1;
                            fill_object_from(props, obj, home, env, depth, i + 1, w)
                        } else {
                            fill_object_from(props, obj, home, env, depth, i + 1, w)
                        },
                )
            },
        }
    }
}

/// Puts the properties of an object literal into a new object.
pub open spec fn fill_object_step<'a>(
    props: &'a Vec<PropDef>,
    obj: Value,
    home: Env,
    env: Env,
    depth: u64,
    w: World<'a>,
) -> Step<'a, Value>
    decreases depth, props, 0nat, props@.len() + 1,
{
    fill_object_from(props, obj, home, env, depth, 0, w)
}

/// Puts the properties of an object literal into a new object.
#[verifier::spinoff_prover]
pub fn fill_object<'h, 'a, H: Host<'a>>(
    s: &mut Session<'h, 'a, H>,
    props: &'a Vec<PropDef>,
    obj: Value,
    home: Env,
    env: Env,
    depth: u64,
) -> (out: Result<Value, Abrupt<'a>>)
    ensures
        final(s).continues(*old(s)),
        forall|answers: Answers<'a>| #[trigger]
            final(s).agrees(answers) ==> old(s).agrees(answers) && (out, final(s).world(answers))
                == fill_object_step(props, obj, home, env, depth, old(s).world(answers)),
    decreases depth, props, 0nat, props@.len() + 1,
{
    let mut i: usize = 0;
    while i < props.len()
        invariant
            i <= props.len(),
            s.continues(*old(s)),
            forall|answers: Answers<'a>| #[trigger]
                s.agrees(answers) ==> old(s).agrees(answers)
                    && fill_object_step(props, obj, home, env, depth, old(s).world(answers))
                    == fill_object_from(props, obj, home, env, depth, i as nat, s.world(answers)),
        decreases props.len() - i,
    {
        match &props[i] {
            PropDef::KeyValue { key, value } => {
                let k: Key<'a> = eval_prop_key(s, key, env, depth)?;
                let u: () = define_value(s, key, value, obj, k, env, depth)?;
            },
            PropDef::Cover { key, value } => {
                let k: Key<'a> = eval_prop_key(s, key, env, depth)?;
                let u: () = define_value(s, key, value, obj, k, env, depth)?;
            },
            PropDef::Method { key, func } => {
                let k: Key<'a> = eval_prop_key(s, key, env, depth)?;
                let f: Value = s.value(Request::MakeFunction { func: &**func, env: home })?;
                let nm: () = name_function(s, f, "", k, false)?;
                let _ = s.ask(Request::DefineOwn { base: obj, key: k, prop: Property::plain(f) });
            },
            PropDef::Getter { key, func } => {
                let k: Key<'a> = eval_prop_key(s, key, env, depth)?;
                let f: Value = s.value(Request::MakeFunction { func: &**func, env: home })?;
                let nm: () = name_function(s, f, "get ", k, false)?;
                let u: () = define_halves(s, obj, k, Some(f), None, true)?;
            },
            PropDef::Setter { key, func } => {
                let k: Key<'a> = eval_prop_key(s, key, env, depth)?;
                let f: Value = s.value(Request::MakeFunction { func: &**func, env: home })?;
                let nm: () = name_function(s, f, "set ", k, false)?;
                let u: () = define_halves(s, obj, k, None, Some(f), true)?;
            },
            PropDef::Spread(x) => {
                let v: Value = eval(s, x, env, depth)?;
                let none: u64 = s.new_list(Vec::new());
                let u: () = copy_data_properties_into(s, obj, v, none)?;
            },
            PropDef::Proto(x) => {
                let v: Value = eval(s, x, env, depth)?;
                if matches!(v, Value::Obj(_)) || matches!(v, Value::Null) {
                    let _ = s.ask(Request::SetPrototype { base: obj, proto: v });
                } else {
                }
            },
        }
        i = i + 1;
    }
    return Ok(obj);
}

// ---- calls

/// The function and receiver of a call, unless the callee's optional chain is cut short.
pub open spec fn locate_step<'a>(
    callee: &'a Expr,
    env: Env,
    depth: u64,
    w: World<'a>,
) -> Step<'a, Target>
    decreases depth, callee, 3nat, 0nat,
{
    match callee {
        Expr::Ident(name) => {
            next(
                get_var_with_step(Name::Source(name), env, w),
                |r: Resolved, w: World<'a>|
                    (Ok(Target::Found { func: r.value, this: match r.receiver { Some(o) => o, None => Value::Undefined } }), w),
            )
        },
        Expr::Member { obj, prop, optional } => {
            next(
                eval_step(&**obj, env, depth, w),
                |base: Value, w: World<'a>|
                    if w.short {
                        (Ok(Target::Short), w)
                    } else if *optional && base.is_nullish() {
                        let w = World { short: true, ..w };
                        (Ok(Target::Short), w)
                    } else if private_name(prop@) {
                        next(
                            resolve_private_step(prop, env, w),
                            |hidden: u64, w: World<'a>|
                                next(
                                    get_private_member_step(base, Key::Made(hidden), w),
                                    |f: Value, w: World<'a>|
                                        (Ok(Target::Found { func: f, this: base }), w),
                                ),
                        )
                    } else {
                        next(
                            asks(Request::GetMember { base, key: Key::Source(prop) }, w),
                            |f: Value, w: World<'a>|
                                (Ok(Target::Found { func: f, this: base }), w),
                        )
                    },
            )
        },
        Expr::Index { obj, index, optional } => {
            next(
                eval_step(&**obj, env, depth, w),
                |base: Value, w: World<'a>|
                    if w.short {
                        (Ok(Target::Short), w)
                    } else if *optional && base.is_nullish() {
                        let w = World { short: true, ..w };
                        (Ok(Target::Short), w)
                    } else {
                        next(
                            eval_step(&**index, env, depth, w),
                            |i: Value, w: World<'a>|
                                next(
                                    to_property_key_step(i, w),
                                    |k: Key<'a>, w: World<'a>|
                                        next(
                                            asks(Request::GetMember { base, key: k }, w),
                                            |f: Value, w: World<'a>|
                                                (Ok(Target::Found { func: f, this: base }), w),
                                        ),
                                ),
                        )
                    },
            )
        },
        _ => {
            next(
                eval_step(callee, env, depth, w),
                |f: Value, w: World<'a>|
                    if w.short {
                        (Ok(Target::Short), w)
                    } else {
                        (Ok(Target::Found { func: f, this: Value::Undefined }), w)
                    },
            )
        },
    }
}

/// The function and receiver of a call, unless the callee's optional chain is cut short.
#[verifier::spinoff_prover]
pub fn locate<'h, 'a, H: Host<'a>>(
    s: &mut Session<'h, 'a, H>,
    callee: &'a Expr,
    env: Env,
    depth: u64,
) -> (out: Result<Target, Abrupt<'a>>)
    ensures
        final(s).continues(*old(s)),
        forall|answers: Answers<'a>| #[trigger]
            final(s).agrees(answers) ==> old(s).agrees(answers) && (out, final(s).world(answers))
                == locate_step(callee, env, depth, old(s).world(answers)),
    decreases depth, callee, 3nat, 0nat,
{
    match callee {
        Expr::Ident(name) => {
            let r: Resolved = get_var_with(s, Name::Source(name), env)?;
            return Ok(
                Target::Found { func: r.value, this: match r.receiver { Some(o) => o, None => Value::Undefined } },
            );
        },
        Expr::Member { obj, prop, optional } => {
            let base: Value = eval(s, &**obj, env, depth)?;
            if s.short_circuited() {
                return Ok(Target::Short);
            } else if *optional && base.is_nullish() {
                s.set_short(true);
                return Ok(Target::Short);
            } else if is_private(prop) {
                let hidden: u64 = resolve_private(s, prop, env)?;
                let f: Value = get_private_member(s, base, Key::Made(hidden))?;
                return Ok(Target::Found { func: f, this: base });
            } else {
                let f: Value = s.value(Request::GetMember { base, key: Key::Source(prop) })?;
                return Ok(Target::Found { func: f, this: base });
            }
        },
        Expr::Index { obj, index, optional } => {
            let base: Value = eval(s, &**obj, env, depth)?;
            if s.short_circuited() {
                return Ok(Target::Short);
            } else if *optional && base.is_nullish() {
                s.set_short(true);
                return Ok(Target::Short);
            } else {
                let i: Value = eval(s, &**index, env, depth)?;
                let k: Key<'a> = to_property_key(s, i)?;
                let f: Value = s.value(Request::GetMember { base, key: k })?;
                return Ok(Target::Found { func: f, this: base });
            }
        },
        _ => {
            let f: Value = eval(s, callee, env, depth)?;
            if s.short_circuited() {
                return Ok(Target::Short);
            } else {
                return Ok(Target::Found { func: f, this: Value::Undefined });
            }
        },
    }
}

/// Calls what was located: `f?.()` stops at a nullish function, and the arguments are evaluated
/// before the function is found not to be callable.
pub open spec fn call_located_step<'a>(
    target: Target,
    callee: &'a Expr,
    args: &'a Vec<ArrayElem>,
    optional: bool,
    env: Env,
    depth: u64,
    w: World<'a>,
) -> Step<'a, Value>
    decreases depth, args, 2nat, 0nat,
{
    match target {
        Target::Short => (Ok(Value::Undefined), w),
        Target::Found { func, this } => {
            if optional && func.is_nullish() {
                let w = World { short: true, ..w };
                (Ok(Value::Undefined), w)
            } else {
                next(
                    eval_args_step(args, env, depth, w),
                    |argv: u64, w: World<'a>|
                        next(
                            is_callable_step(func, w),
                            |ok: bool, w: World<'a>|
                                if ok {
                                    asks(Request::Call { func, this, args: argv }, w)
                                } else {
                                    throws_about(
                                        ErrorKind::TypeError,
                                        "",
                                        " is not a function",
                                        Subject::Callee(callee),
                                        w,
                                    )
                                },
                        ),
                )
            }
        },
    }
}

/// Calls what was located: `f?.()` stops at a nullish function, and the arguments are evaluated
/// before the function is found not to be callable.
pub fn call_located<'h, 'a, H: Host<'a>>(
    s: &mut Session<'h, 'a, H>,
    target: Target,
    callee: &'a Expr,
    args: &'a Vec<ArrayElem>,
    optional: bool,
    env: Env,
    depth: u64,
) -> (out: Result<Value, Abrupt<'a>>)
    ensures
        final(s).continues(*old(s)),
        forall|answers: Answers<'a>| #[trigger]
            final(s).agrees(answers) ==> old(s).agrees(answers) && (out, final(s).world(answers))
                == call_located_step(
                    target,
                    callee,
                    args,
                    optional,
                    env,
                    depth,
                    old(s).world(answers),
                ),
    decreases depth, args, 2nat, 0nat,
{
    match target {
        Target::Short => {
            return Ok(Value::Undefined);
        },
        Target::Found { func, this } => {
            if optional && func.is_nullish() {
                s.set_short(true);
                return Ok(Value::Undefined);
            } else {
                let argv: u64 = eval_args(s, args, env, depth)?;
                let ok: bool = is_callable(s, func)?;
                if ok {
                    return s.value(Request::Call { func, this, args: argv });
                } else {
                    return throw_about(
                        s,
                        ErrorKind::TypeError,
                        "",
                        " is not a function",
                        Subject::Callee(callee),
                    );
                }
            }
        },
    }
}

/// Whether a callee is the name `eval` bound to the intrinsic function.
pub open spec fn is_direct_eval_step<'a>(
    callee: &'a Expr,
    optional: bool,
    env: Env,
    w: World<'a>,
) -> Step<'a, bool>
{
    match callee {
        Expr::Ident(name) => {
            if optional || name@ != "eval"@ {
                (Ok(false), w)
            } else {
                let (r, w) = get_var_step(Name::Source(name), env, w);
                match r {
                    Ok(v) => asks_flag(Request::IsIntrinsicEval(v), w),
                    Err(_) => (Ok(false), w),
                }
            }
        },
        _ => (Ok(false), w),
    }
}

/// Whether a callee is the name `eval` bound to the intrinsic function.
pub fn is_direct_eval<'h, 'a, H: Host<'a>>(
    s: &mut Session<'h, 'a, H>,
    callee: &'a Expr,
    optional: bool,
    env: Env,
) -> (out: Result<bool, Abrupt<'a>>)
    ensures
        final(s).continues(*old(s)),
        forall|answers: Answers<'a>| #[trigger]
            final(s).agrees(answers) ==> old(s).agrees(answers) && (out, final(s).world(answers))
                == is_direct_eval_step(callee, optional, env, old(s).world(answers)),
{
    match callee {
        Expr::Ident(name) => {
            if optional || !same_text(name.as_str(), "eval") {
                return Ok(false);
            } else {
                let r: Completion<'a> = get_var(s, Name::Source(name), env);
                match r {
                    Ok(v) => {
                        return s.flag(Request::IsIntrinsicEval(v));
                    },
                    Err(_) => {
                        return Ok(false);
                    },
                }
            }
        },
        _ => {
            return Ok(false);
        },
    }
}

/// `super(..)`: runs the parent constructor on the current `this`, then this class's field
/// initializers.
pub open spec fn eval_super_call_step<'a>(
    args: &'a Vec<ArrayElem>,
    env: Env,
    depth: u64,
    w: World<'a>,
) -> Step<'a, Value>
    decreases depth, args, 3nat, 0nat,
{
    let allowed: bool = w.flags.super_call;
    next(
        if allowed {
            (Ok(true), w)
        } else {
            (Ok(w.scopes.bound_value("%superclass%"@, env) is Some && w.scopes.bound_value("%thisctor%"@, env) is Some), w)
        },
        |fits: bool, w: World<'a>|
            if !fits {
                throws(ErrorKind::SyntaxError, "'super' keyword unexpected here", w)
            } else {
                next(
                    get_var_step(Name::Fixed("%superclass%"), env, w),
                    |sup: Value, w: World<'a>|
                        if matches!(sup, Value::Undefined) {
                            throws(ErrorKind::SyntaxError, "'super' keyword unexpected here", w)
                        } else {
                            next(
                                get_var_step(Name::Fixed("%thisctor%"), env, w),
                                |ctor: Value, w: World<'a>|
                                    next(
                                        asks(Request::GetPrototype(ctor), w),
                                        |parent: Value, w: World<'a>| {
                                            let holder: Option<Env> = w.scopes.holder(env, "this"@);
                                            match holder {
                                                None => {
                                                    throws(
                                                        ErrorKind::SyntaxError,
                                                        "'super' keyword unexpected here",
                                                        w,
                                                    )
                                                },
                                                Some(place) => {
                                                    bind_super_this_step(
                                                        parent,
                                                        args,
                                                        place,
                                                        env,
                                                        depth,
                                                        w,
                                                    )
                                                },
                                            }
                                        },
                                    ),
                            )
                        },
                )
            },
    )
}

/// `super(..)`: runs the parent constructor on the current `this`, then this class's field
/// initializers.
#[verifier::spinoff_prover]
pub fn eval_super_call<'h, 'a, H: Host<'a>>(
    s: &mut Session<'h, 'a, H>,
    args: &'a Vec<ArrayElem>,
    env: Env,
    depth: u64,
) -> (out: Result<Value, Abrupt<'a>>)
    ensures
        final(s).continues(*old(s)),
        forall|answers: Answers<'a>| #[trigger]
            final(s).agrees(answers) ==> old(s).agrees(answers) && (out, final(s).world(answers))
                == eval_super_call_step(args, env, depth, old(s).world(answers)),
    decreases depth, args, 3nat, 0nat,
{
    let allowed: bool = s.flags().super_call;
    let fits: bool = if allowed {
        true
    } else {
        s.scopes().peek_binding("%superclass%", env).is_some() && s.scopes().peek_binding("%thisctor%", env).is_some()
    };
    if !fits {
        return throw(s, ErrorKind::SyntaxError, "'super' keyword unexpected here");
    }
    let sup: Value = get_var(s, Name::Fixed("%superclass%"), env)?;
    if matches!(sup, Value::Undefined) {
        return throw(s, ErrorKind::SyntaxError, "'super' keyword unexpected here");
    }
    let ctor: Value = get_var(s, Name::Fixed("%thisctor%"), env)?;
    let parent: Value = s.value(Request::GetPrototype(ctor))?;
    let holder: Option<Env> = s.scopes().find(env, "this");
    match holder {
        None => {
            return throw(s, ErrorKind::SyntaxError, "'super' keyword unexpected here");
        },
        Some(place) => {
            return bind_super_this(s, parent, args, place, env, depth);
        },
    }
}

/// The rest of `super(..)`: the parent constructor runs on the `this` of a scope, which is then
/// initialized.
pub open spec fn bind_super_this_step<'a>(
    parent: Value,
    args: &'a Vec<ArrayElem>,
    place: Env,
    env: Env,
    depth: u64,
    w: World<'a>,
) -> Step<'a, Value>
    decreases depth, args, 2nat, 0nat,
{
    let this: Value = w.scopes.value_in(place, "this"@);
    next(
        eval_args_step(args, env, depth, w),
        |argv: u64, w: World<'a>|
            next(
                value_is_constructor_step(parent, w),
                |fine: bool, w: World<'a>|
                    if !fine {
                        throws(ErrorKind::TypeError, "super constructor is not a constructor", w)
                    } else if depth == 0 {
                        throws(ErrorKind::RangeError, "Maximum call stack size exceeded", w)
                    } else {
                        let w = w.ask(Request::KeepNewTarget).1;
                        next(
                            run_constructor_on_step(parent, this, argv, (depth - 1) as u64, w),
                            |returned: Value, w: World<'a>|
                                if w.scopes.ready_at(place, "this"@) {
                                    throws(
                                        ErrorKind::ReferenceError,
                                        "super() may only be called once",
                                        w,
                                    )
                                } else {
                                    next(
                                        if matches!(returned, Value::Obj(_)) && matches!(this, Value::Obj(_)) && returned != this {
                                            let w = w.set_value(place, Name::Fixed("this"), returned);
                                            (Ok(returned), w)
                                        } else {
                                            (Ok(this), w)
                                        },
                                        |now: Value, w: World<'a>| {
                                            let w = w.initialize(place, Name::Fixed("this"));
                                            next(
                                                get_var_step(Name::Fixed("%thisctor%"), env, w),
                                                |again: Value, w: World<'a>|
                                                    next(
                                                        init_instance_fields_step(
                                                            again,
                                                            now,
                                                            (depth - 1) as u64,
                                                            w,
                                                        ),
                                                        |u: (), w: World<'a>|
                                                            (Ok(now), w),
                                                    ),
                                            )
                                        },
                                    )
                                },
                        )
                    },
            ),
    )
}

/// The rest of `super(..)`: the parent constructor runs on the `this` of a scope, which is then
/// initialized.
#[verifier::spinoff_prover]
pub fn bind_super_this<'h, 'a, H: Host<'a>>(
    s: &mut Session<'h, 'a, H>,
    parent: Value,
    args: &'a Vec<ArrayElem>,
    place: Env,
    env: Env,
    depth: u64,
) -> (out: Result<Value, Abrupt<'a>>)
    ensures
        final(s).continues(*old(s)),
        forall|answers: Answers<'a>| #[trigger]
            final(s).agrees(answers) ==> old(s).agrees(answers) && (out, final(s).world(answers))
                == bind_super_this_step(parent, args, place, env, depth, old(s).world(answers)),
    decreases depth, args, 2nat, 0nat,
{
    let this: Value = s.scopes().value_at(place, "this");
    let argv: u64 = eval_args(s, args, env, depth)?;
    let fine: bool = value_is_constructor(s, parent)?;
    if !fine {
        return throw(s, ErrorKind::TypeError, "super constructor is not a constructor");
    }
    if depth == 0 {
        return throw(s, ErrorKind::RangeError, "Maximum call stack size exceeded");
    }
    let _ = s.ask(Request::KeepNewTarget);
    let returned: Value = run_constructor_on(s, parent, this, argv, depth - 1)?;
    if s.scopes().is_initialized(place, "this") {
        return throw(s, ErrorKind::ReferenceError, "super() may only be called once");
    }
    let now: Value = if matches!(returned, Value::Obj(_)) && matches!(this, Value::Obj(_)) && returned != this {
        s.set_value(place, Name::Fixed("this"), returned);
        returned
    } else {
        this
    };
    s.initialize(place, Name::Fixed("this"));
    let again: Value = get_var(s, Name::Fixed("%thisctor%"), env)?;
    let u: () = init_instance_fields(s, again, now, depth - 1)?;
    return Ok(now);
}

/// A direct `eval`: a text is run as code of its caller, anything else is the result itself.
pub open spec fn direct_eval_step<'a>(
    args: &'a Vec<ArrayElem>,
    env: Env,
    depth: u64,
    w: World<'a>,
) -> Step<'a, Value>
    decreases depth, args, 2nat, 0nat,
{
    next(
        eval_args_step(args, env, depth, w),
        |argv: u64, w: World<'a>| {
            let given: bool = w.has_item(argv, 0);
            if given {
                let code: Value = w.item(argv, 0);
                if matches!(code, Value::Str(_)) {
                    let context: ParseContext = w.scopes.context(env, true, w.strict);
                    next(
                        asks_code(Request::ParseEval { code, env, context }, w),
                        |parsed: Option<&'a Vec<Stmt>>, w: World<'a>|
                            match parsed {
                                None => (Ok(Value::Undefined), w),
                                Some(body) => {
                                    if depth == 0 {
                                        throws(
                                            ErrorKind::RangeError,
                                            "Maximum call stack size exceeded",
                                            w,
                                        )
                                    } else {
                                        let allowed: bool = w.flags.super_call;
                                        perform_eval_step(
                                            body,
                                            env,
                                            true,
                                            allowed,
                                            (depth - 1) as u64,
                                            w,
                                        )
                                    }
                                },
                            },
                    )
                } else {
                    (Ok(code), w)
                }
            } else {
                (Ok(Value::Undefined), w)
            }
        },
    )
}

/// A direct `eval`: a text is run as code of its caller, anything else is the result itself.
pub fn direct_eval<'h, 'a, H: Host<'a>>(
    s: &mut Session<'h, 'a, H>,
    args: &'a Vec<ArrayElem>,
    env: Env,
    depth: u64,
) -> (out: Result<Value, Abrupt<'a>>)
    ensures
        final(s).continues(*old(s)),
        forall|answers: Answers<'a>| #[trigger]
            final(s).agrees(answers) ==> old(s).agrees(answers) && (out, final(s).world(answers))
                == direct_eval_step(args, env, depth, old(s).world(answers)),
    decreases depth, args, 2nat, 0nat,
{
    let argv: u64 = eval_args(s, args, env, depth)?;
    let given: bool = s.has_item(argv, 0);
    if given {
        let code: Value = s.item(argv, 0);
        if matches!(code, Value::Str(_)) {
            let context: ParseContext = s.scopes().parse_context(env, true, s.strict_mode());
            let parsed: Option<&'a Vec<Stmt>> = s.code(Request::ParseEval { code, env, context })?;
            match parsed {
                None => {
                    return Ok(Value::Undefined);
                },
                Some(body) => {
                    if depth == 0 {
                        return throw(s, ErrorKind::RangeError, "Maximum call stack size exceeded");
                    } else {
                        let allowed: bool = s.flags().super_call;
                        return perform_eval(s, body, env, true, allowed, depth - 1);
                    }
                },
            }
        } else {
            return Ok(code);
        }
    } else {
        return Ok(Value::Undefined);
    }
}

/// A call.
pub open spec fn eval_call_step<'a>(
    e: &'a Expr,
    env: Env,
    depth: u64,
    w: World<'a>,
) -> Step<'a, Value>
    decreases depth, e, 1nat, 0nat,
{
    match e {
        Expr::Call { callee, args, optional } => {
            next(
                is_direct_eval_step(&**callee, *optional, env, w),
                |direct: bool, w: World<'a>|
                    if direct {
                        direct_eval_step(args, env, depth, w)
                    } else {
                        match &**callee {
                            Expr::Super => eval_super_call_step(args, env, depth, w),
                            Expr::OptionalChain(x) => {
                                let saved: bool = w.short;
                                let w = World { short: false, ..w };
                                let (found, w) = locate_step(&**x, env, depth, w);
                                let (r, w) = call_found_step(
                                    found,
                                    &**x,
                                    args,
                                    *optional,
                                    env,
                                    depth,
                                    w,
                                );
                                let short: bool = w.short;
                                let w = World { short: saved, ..w };
                                if short && matches!(r, Ok(_)) {
                                    next(
                                        eval_args_step(args, env, depth, w),
                                        |argv: u64, w: World<'a>|
                                            throws(
                                                ErrorKind::TypeError,
                                                "callee is not a function",
                                                w,
                                            ),
                                    )
                                } else {
                                    (r, w)
                                }
                            },
                            _ => {
                                next(
                                    locate_super_step(&**callee, env, depth, w),
                                    |super_target: Option<(Value, Value)>, w: World<'a>|
                                        match super_target {
                                            Some(t) => {
                                                next(
                                                    eval_args_step(args, env, depth, w),
                                                    |argv: u64, w: World<'a>|
                                                        asks(
                                                            Request::Call { func: t.0, this: t.1, args: argv },
                                                            w,
                                                        ),
                                                )
                                            },
                                            None => {
                                                next(
                                                    locate_step(&**callee, env, depth, w),
                                                    |target: Target, w: World<'a>|
                                                        call_located_step(
                                                            target,
                                                            &**callee,
                                                            args,
                                                            *optional,
                                                            env,
                                                            depth,
                                                            w,
                                                        ),
                                                )
                                            },
                                        },
                                )
                            },
                        }
                    },
            )
        },
        _ => (Ok(Value::Undefined), w),
    }
}

/// A call.
#[verifier::spinoff_prover]
pub fn eval_call<'h, 'a, H: Host<'a>>(
    s: &mut Session<'h, 'a, H>,
    e: &'a Expr,
    env: Env,
    depth: u64,
) -> (out: Result<Value, Abrupt<'a>>)
    ensures
        final(s).continues(*old(s)),
        forall|answers: Answers<'a>| #[trigger]
            final(s).agrees(answers) ==> old(s).agrees(answers) && (out, final(s).world(answers))
                == eval_call_step(e, env, depth, old(s).world(answers)),
    decreases depth, e, 1nat, 0nat,
{
    match e {
        Expr::Call { callee, args, optional } => {
            let direct: bool = is_direct_eval(s, &**callee, *optional, env)?;
            if direct {
                return direct_eval(s, args, env, depth);
            } else {
                match &**callee {
                    Expr::Super => {
                        return eval_super_call(s, args, env, depth);
                    },
                    Expr::OptionalChain(x) => {
                        let saved: bool = s.short_circuited();
                        s.set_short(false);
                        let found: Result<Target, Abrupt<'a>> = locate(s, &**x, env, depth);
                        let r: Completion<'a> = call_found(
                            s,
                            found,
                            &**x,
                            args,
                            *optional,
                            env,
                            depth,
                        );
                        let short: bool = s.short_circuited();
                        s.set_short(saved);
                        if short && matches!(r, Ok(_)) {
                            let argv: u64 = eval_args(s, args, env, depth)?;
                            return throw(s, ErrorKind::TypeError, "callee is not a function");
                        } else {
                            return r;
                        }
                    },
                    _ => {
                        let super_target: Option<(Value, Value)> = locate_super(
                            s,
                            &**callee,
                            env,
                            depth,
                        )?;
                        match super_target {
                            Some(t) => {
                                let argv: u64 = eval_args(s, args, env, depth)?;
                                return s.value(Request::Call { func: t.0, this: t.1, args: argv });
                            },
                            None => {
                                let target: Target = locate(s, &**callee, env, depth)?;
                                return call_located(
                                    s,
                                    target,
                                    &**callee,
                                    args,
                                    *optional,
                                    env,
                                    depth,
                                );
                            },
                        }
                    },
                }
            }
        },
        _ => {
            return Ok(Value::Undefined);
        },
    }
}

/// Calls what was located, if locating it did not end early.
pub open spec fn call_found_step<'a>(
    found: Result<Target, Abrupt<'a>>,
    callee: &'a Expr,
    args: &'a Vec<ArrayElem>,
    optional: bool,
    env: Env,
    depth: u64,
    w: World<'a>,
) -> Step<'a, Value>
    decreases depth, args, 3nat, 0nat,
{
    match found {
        Ok(target) => call_located_step(target, callee, args, optional, env, depth, w),
        Err(a) => (Err(a), w),
    }
}

/// Calls what was located, if locating it did not end early.
pub fn call_found<'h, 'a, H: Host<'a>>(
    s: &mut Session<'h, 'a, H>,
    found: Result<Target, Abrupt<'a>>,
    callee: &'a Expr,
    args: &'a Vec<ArrayElem>,
    optional: bool,
    env: Env,
    depth: u64,
) -> (out: Result<Value, Abrupt<'a>>)
    ensures
        final(s).continues(*old(s)),
        forall|answers: Answers<'a>| #[trigger]
            final(s).agrees(answers) ==> old(s).agrees(answers) && (out, final(s).world(answers))
                == call_found_step(
                    found,
                    callee,
                    args,
                    optional,
                    env,
                    depth,
                    old(s).world(answers),
                ),
    decreases depth, args, 3nat, 0nat,
{
    match found {
        Ok(target) => {
            return call_located(s, target, callee, args, optional, env, depth);
        },
        Err(a) => {
            return Err(a);
        },
    }
}

/// The function and receiver of `super.m(..)` and `super[k](..)`; nothing for any other callee.
pub open spec fn locate_super_step<'a>(
    callee: &'a Expr,
    env: Env,
    depth: u64,
    w: World<'a>,
) -> Step<'a, Option<(Value, Value)>>
    decreases depth, callee, 3nat, 0nat,
{
    match callee {
        Expr::Member { obj, prop, optional } => {
            if **obj is Super {
                next(
                    super_base_step(env, w),
                    |home: Value, w: World<'a>|
                        next(
                            asks(Request::GetMember { base: home, key: Key::Source(prop) }, w),
                            |f: Value, w: World<'a>|
                                next(
                                    get_var_step(Name::Fixed("this"), env, w),
                                    |this: Value, w: World<'a>| (Ok(Some((f, this))), w),
                                ),
                        ),
                )
            } else {
                (Ok(None), w)
            }
        },
        Expr::Index { obj, index, optional } => {
            if **obj is Super {
                next(
                    super_base_step(env, w),
                    |home: Value, w: World<'a>|
                        next(
                            eval_step(&**index, env, depth, w),
                            |i: Value, w: World<'a>|
                                next(
                                    to_property_key_step(i, w),
                                    |k: Key<'a>, w: World<'a>|
                                        next(
                                            asks(Request::GetMember { base: home, key: k }, w),
                                            |f: Value, w: World<'a>|
                                                next(
                                                    get_var_step(Name::Fixed("this"), env, w),
                                                    |this: Value, w: World<'a>|
                                                        (Ok(Some((f, this))), w),
                                                ),
                                        ),
                                ),
                        ),
                )
            } else {
                (Ok(None), w)
            }
        },
        _ => (Ok(None), w),
    }
}

/// The function and receiver of `super.m(..)` and `super[k](..)`; nothing for any other callee.
pub fn locate_super<'h, 'a, H: Host<'a>>(
    s: &mut Session<'h, 'a, H>,
    callee: &'a Expr,
    env: Env,
    depth: u64,
) -> (out: Result<Option<(Value, Value)>, Abrupt<'a>>)
    ensures
        final(s).continues(*old(s)),
        forall|answers: Answers<'a>| #[trigger]
            final(s).agrees(answers) ==> old(s).agrees(answers) && (out, final(s).world(answers))
                == locate_super_step(callee, env, depth, old(s).world(answers)),
    decreases depth, callee, 3nat, 0nat,
{
    match callee {
        Expr::Member { obj, prop, optional } => {
            if is_super(&**obj) {
                let home: Value = super_base(s, env)?;
                let f: Value = s.value(Request::GetMember { base: home, key: Key::Source(prop) })?;
                let this: Value = get_var(s, Name::Fixed("this"), env)?;
                return Ok(Some((f, this)));
            } else {
                return Ok(None);
            }
        },
        Expr::Index { obj, index, optional } => {
            if is_super(&**obj) {
                let home: Value = super_base(s, env)?;
                let i: Value = eval(s, &**index, env, depth)?;
                let k: Key<'a> = to_property_key(s, i)?;
                let f: Value = s.value(Request::GetMember { base: home, key: k })?;
                let this: Value = get_var(s, Name::Fixed("this"), env)?;
                return Ok(Some((f, this)));
            } else {
                return Ok(None);
            }
        },
        _ => {
            return Ok(None);
        },
    }
}

/// The function and receiver of a template's tag.
pub open spec fn locate_tag_step<'a>(
    tag: &'a Expr,
    env: Env,
    depth: u64,
    w: World<'a>,
) -> Step<'a, (Value, Value)>
    decreases depth, tag, 3nat, 0nat,
{
    match tag {
        Expr::Member { obj, prop, optional } => {
            next(
                eval_step(&**obj, env, depth, w),
                |base: Value, w: World<'a>|
                    next(
                        asks(Request::GetMember { base, key: Key::Source(prop) }, w),
                        |f: Value, w: World<'a>| (Ok((f, base)), w),
                    ),
            )
        },
        Expr::Index { obj, index, optional } => {
            next(
                eval_step(&**obj, env, depth, w),
                |base: Value, w: World<'a>|
                    next(
                        eval_step(&**index, env, depth, w),
                        |i: Value, w: World<'a>|
                            next(
                                to_property_key_step(i, w),
                                |k: Key<'a>, w: World<'a>|
                                    next(
                                        asks(Request::GetMember { base, key: k }, w),
                                        |f: Value, w: World<'a>| (Ok((f, base)), w),
                                    ),
                            ),
                    ),
            )
        },
        _ => {
            next(
                eval_step(tag, env, depth, w),
                |f: Value, w: World<'a>| (Ok((f, Value::Undefined)), w),
            )
        },
    }
}

/// The function and receiver of a template's tag.
pub fn locate_tag<'h, 'a, H: Host<'a>>(
    s: &mut Session<'h, 'a, H>,
    tag: &'a Expr,
    env: Env,
    depth: u64,
) -> (out: Result<(Value, Value), Abrupt<'a>>)
    ensures
        final(s).continues(*old(s)),
        forall|answers: Answers<'a>| #[trigger]
            final(s).agrees(answers) ==> old(s).agrees(answers) && (out, final(s).world(answers))
                == locate_tag_step(tag, env, depth, old(s).world(answers)),
    decreases depth, tag, 3nat, 0nat,
{
    match tag {
        Expr::Member { obj, prop, optional } => {
            let base: Value = eval(s, &**obj, env, depth)?;
            let f: Value = s.value(Request::GetMember { base, key: Key::Source(prop) })?;
            return Ok((f, base));
        },
        Expr::Index { obj, index, optional } => {
            let base: Value = eval(s, &**obj, env, depth)?;
            let i: Value = eval(s, &**index, env, depth)?;
            let k: Key<'a> = to_property_key(s, i)?;
            let f: Value = s.value(Request::GetMember { base, key: k })?;
            return Ok((f, base));
        },
        _ => {
            let f: Value = eval(s, tag, env, depth)?;
            return Ok((f, Value::Undefined));
        },
    }
}

/// Lists the texts of a template with their escapes replaced; one that has no such text is
/// `undefined`. From the item at `i` on.
pub open spec fn push_cooked_from<'a>(
    quasis: &'a Vec<(Option<String>, String)>,
    list: u64,
    i: nat,
    w: World<'a>,
) -> Step<'a, ()>
    decreases quasis@.len() - i,
{
    if i >= quasis@.len() {
        (Ok(()), w)
    } else {
        match &quasis@[i as int].0 {
            Some(t) => {
                let v: Value = w.next_text();
                let w = w.add_text(t@);
                let w = w.push(list, v);
                push_cooked_from(quasis, list, i + 1, w)
            },
            None => {
                let w = w.push(list, Value::Undefined);
                push_cooked_from(quasis, list, i + 1, w)
            },
        }
    }
}

/// Lists the texts of a template with their escapes replaced; one that has no such text is
/// `undefined`.
pub open spec fn push_cooked_step<'a>(
    quasis: &'a Vec<(Option<String>, String)>,
    list: u64,
    w: World<'a>,
) -> Step<'a, ()>
{
    push_cooked_from(quasis, list, 0, w)
}

/// Lists the texts of a template with their escapes replaced; one that has no such text is
/// `undefined`.
pub fn push_cooked<'h, 'a, H: Host<'a>>(
    s: &mut Session<'h, 'a, H>,
    quasis: &'a Vec<(Option<String>, String)>,
    list: u64,
) -> (out: Result<(), Abrupt<'a>>)
    ensures
        final(s).continues(*old(s)),
        forall|answers: Answers<'a>| #[trigger]
            final(s).agrees(answers) ==> old(s).agrees(answers) && (out, final(s).world(answers))
                == push_cooked_step(quasis, list, old(s).world(answers)),
{
    let mut i: usize = 0;
    while i < quasis.len()
        invariant
            i <= quasis.len(),
            s.continues(*old(s)),
            forall|answers: Answers<'a>| #[trigger]
                s.agrees(answers) ==> old(s).agrees(answers)
                    && push_cooked_step(quasis, list, old(s).world(answers))
                    == push_cooked_from(quasis, list, i as nat, s.world(answers)),
        decreases quasis.len() - i,
    {
        match &quasis[i].0 {
            Some(t) => {
                let v: Value = s.add_text(t.as_str().to_owned());
                s.push(list, v);
            },
            None => {
                s.push(list, Value::Undefined);
            },
        }
        i = i + 1;
    }
    return Ok(());
}

/// Lists the texts of a template as they are written. From the item at `i` on.
pub open spec fn push_raw_from<'a>(
    quasis: &'a Vec<(Option<String>, String)>,
    list: u64,
    i: nat,
    w: World<'a>,
) -> Step<'a, ()>
    decreases quasis@.len() - i,
{
    if i >= quasis@.len() {
        (Ok(()), w)
    } else {
        let v: Value = w.next_text();
        let w = w.add_text(quasis@[i as int].1@);
        let w = w.push(list, v);
        push_raw_from(quasis, list, i + 1, w)
    }
}

/// Lists the texts of a template as they are written.
pub open spec fn push_raw_step<'a>(
    quasis: &'a Vec<(Option<String>, String)>,
    list: u64,
    w: World<'a>,
) -> Step<'a, ()>
{
    push_raw_from(quasis, list, 0, w)
}

/// Lists the texts of a template as they are written.
pub fn push_raw<'h, 'a, H: Host<'a>>(
    s: &mut Session<'h, 'a, H>,
    quasis: &'a Vec<(Option<String>, String)>,
    list: u64,
) -> (out: Result<(), Abrupt<'a>>)
    ensures
        final(s).continues(*old(s)),
        forall|answers: Answers<'a>| #[trigger]
            final(s).agrees(answers) ==> old(s).agrees(answers) && (out, final(s).world(answers))
                == push_raw_step(quasis, list, old(s).world(answers)),
{
    let mut i: usize = 0;
    while i < quasis.len()
        invariant
            i <= quasis.len(),
            s.continues(*old(s)),
            forall|answers: Answers<'a>| #[trigger]
                s.agrees(answers) ==> old(s).agrees(answers)
                    && push_raw_step(quasis, list, old(s).world(answers))
                    == push_raw_from(quasis, list, i as nat, s.world(answers)),
        decreases quasis.len() - i,
    {
        let v: Value = s.add_text(quasis[i].1.as_str().to_owned());
        s.push(list, v);
        i = i + 1;
    }
    return Ok(());
}

/// Makes the properties under the keys of a list fixed. With `k` rounds left.
pub open spec fn freeze_keys_from<'a>(obj: Value, keys: u64, k: nat, w: World<'a>) -> Step<'a, ()>
    decreases k,
{
    if k == 0 {
        (Err(Abrupt::Stopped), w)
    } else {
        let more: bool = w.has_item(keys, 0);
        if !more {
            (Ok(()), w)
        } else {
            let name: Value = w.item(keys, 0);
            let w = w.drop_item(keys);
            let key: Key<'a> = value_key(name);
            next(
                asks_prop(Request::OwnProperty { base: obj, key }, w),
                |p: Option<Property>, w: World<'a>|
                    match p {
                        Some(q) => {
                            let w = w.ask(
                                Request::DefineOwn { base: obj, key, prop: Property { writable: false, configurable: false, ..q } },
                            ).1;
                            freeze_keys_from(obj, keys, (k - 1) as nat, w)
                        },
                        None => freeze_keys_from(obj, keys, (k - 1) as nat, w),
                    },
            )
        }
    }
}

/// Makes the properties under the keys of a list fixed.
pub open spec fn freeze_keys_step<'a>(obj: Value, keys: u64, w: World<'a>) -> Step<'a, ()>
{
    freeze_keys_from(obj, keys, w.limit, w)
}

/// Makes the properties under the keys of a list fixed.
pub fn freeze_keys<'h, 'a, H: Host<'a>>(
    s: &mut Session<'h, 'a, H>,
    obj: Value,
    keys: u64,
) -> (out: Result<(), Abrupt<'a>>)
    ensures
        final(s).continues(*old(s)),
        forall|answers: Answers<'a>| #[trigger]
            final(s).agrees(answers) ==> old(s).agrees(answers) && (out, final(s).world(answers))
                == freeze_keys_step(obj, keys, old(s).world(answers)),
{
    let mut k: u64 = s.limit();
    while k > 0
        invariant
            s.continues(*old(s)),
            k <= old(s).rounds(),
            forall|answers: Answers<'a>| #[trigger]
                s.agrees(answers) ==> old(s).agrees(answers)
                    && freeze_keys_step(obj, keys, old(s).world(answers))
                    == freeze_keys_from(obj, keys, k as nat, s.world(answers)),
        decreases k,
    {
        let more: bool = s.has_item(keys, 0);
        if !more {
            return Ok(());
        }
        let name: Value = s.item(keys, 0);
        s.drop_item(keys);
        let key: Key<'a> = key_of_value(name);
        let p: Option<Property> = s.prop(Request::OwnProperty { base: obj, key })?;
        match p {
            Some(q) => {
                let _ = s.ask(
                    Request::DefineOwn { base: obj, key, prop: Property { writable: false, configurable: false, ..q } },
                );
            },
            None => {
            },
        }
        k = k - 1;
    }
    return Err(Abrupt::Stopped);
}

/// Makes an object and all of its properties fixed.
pub open spec fn freeze_object_step<'a>(obj: Value, w: World<'a>) -> Step<'a, ()>
{
    let w = w.ask(Request::PreventExtensions(obj)).1;
    next(
        asks_handle(Request::OwnKeys(obj), w),
        |keys: u64, w: World<'a>| freeze_keys_step(obj, keys, w),
    )
}

/// Makes an object and all of its properties fixed.
pub fn freeze_object<'h, 'a, H: Host<'a>>(
    s: &mut Session<'h, 'a, H>,
    obj: Value,
) -> (out: Result<(), Abrupt<'a>>)
    ensures
        final(s).continues(*old(s)),
        forall|answers: Answers<'a>| #[trigger]
            final(s).agrees(answers) ==> old(s).agrees(answers) && (out, final(s).world(answers))
                == freeze_object_step(obj, old(s).world(answers)),
{
    let _ = s.ask(Request::PreventExtensions(obj));
    let keys: u64 = s.handle(Request::OwnKeys(obj))?;
    return freeze_keys(s, obj, keys);
}

/// GetTemplateObject: the frozen arrays of a template, which are made once.
pub open spec fn template_object_step<'a>(
    quasis: &'a Vec<(Option<String>, String)>,
    w: World<'a>,
) -> Step<'a, Value>
{
    next(
        asks(Request::CachedTemplate(quasis), w),
        |kept: Value, w: World<'a>|
            if !matches!(kept, Value::Undefined) {
                (Ok(kept), w)
            } else {
                let cooked: u64 = w.next_list();
                let w = w.new_list(Seq::empty());
                next(
                    push_cooked_step(quasis, cooked, w),
                    |u1: (), w: World<'a>| {
                        let raw: u64 = w.next_list();
                        let w = w.new_list(Seq::empty());
                        next(
                            push_raw_step(quasis, raw, w),
                            |u2: (), w: World<'a>|
                                next(
                                    asks(Request::ArrayOf { list: cooked }, w),
                                    |strings: Value, w: World<'a>|
                                        next(
                                            asks(Request::ArrayOf { list: raw }, w),
                                            |raws: Value, w: World<'a>|
                                                next(
                                                    freeze_object_step(raws, w),
                                                    |f1: (), w: World<'a>| {
                                                        let w = w.ask(
                                                            Request::DefineOwn { base: strings, key: Key::Fixed("raw"), prop: Property::of(raws, false, false, false) },
                                                        ).1;
                                                        next(
                                                            freeze_object_step(strings, w),
                                                            |f2: (), w: World<'a>| {
                                                                let w = w.ask(
                                                                    Request::CacheTemplate { quasis, object: strings },
                                                                ).1;
                                                                (Ok(strings), w)
                                                            },
                                                        )
                                                    },
                                                ),
                                        ),
                                ),
                        )
                    },
                )
            },
    )
}

/// GetTemplateObject: the frozen arrays of a template, which are made once.
pub fn template_object<'h, 'a, H: Host<'a>>(
    s: &mut Session<'h, 'a, H>,
    quasis: &'a Vec<(Option<String>, String)>,
) -> (out: Result<Value, Abrupt<'a>>)
    ensures
        final(s).continues(*old(s)),
        forall|answers: Answers<'a>| #[trigger]
            final(s).agrees(answers) ==> old(s).agrees(answers) && (out, final(s).world(answers))
                == template_object_step(quasis, old(s).world(answers)),
{
    let kept: Value = s.value(Request::CachedTemplate(quasis))?;
    if !matches!(kept, Value::Undefined) {
        return Ok(kept);
    }
    let cooked: u64 = s.new_list(Vec::new());
    let u1: () = push_cooked(s, quasis, cooked)?;
    let raw: u64 = s.new_list(Vec::new());
    let u2: () = push_raw(s, quasis, raw)?;
    let strings: Value = s.value(Request::ArrayOf { list: cooked })?;
    let raws: Value = s.value(Request::ArrayOf { list: raw })?;
    let f1: () = freeze_object(s, raws)?;
    let _ = s.ask(
        Request::DefineOwn { base: strings, key: Key::Fixed("raw"), prop: Property::data(raws, false, false, false) },
    );
    let f2: () = freeze_object(s, strings)?;
    let _ = s.ask(Request::CacheTemplate { quasis, object: strings });
    return Ok(strings);
}

/// A tagged template.
pub open spec fn eval_tagged_template_step<'a>(
    e: &'a Expr,
    env: Env,
    depth: u64,
    w: World<'a>,
) -> Step<'a, Value>
    decreases depth, e, 1nat, 0nat,
{
    match e {
        Expr::TaggedTemplate { tag, quasis, subs } => {
            next(
                template_object_step(quasis, w),
                |strings: Value, w: World<'a>|
                    next(
                        locate_tag_step(&**tag, env, depth, w),
                        |t: (Value, Value), w: World<'a>|
                            next(
                                is_callable_step(t.0, w),
                                |ok: bool, w: World<'a>|
                                    if !ok {
                                        throws(ErrorKind::TypeError, "tag is not a function", w)
                                    } else {
                                        let list: u64 = w.next_list();
                                        let w = w.new_list(Seq::empty());
                                        let w = w.push(list, strings);
                                        next(
                                            push_values_step(subs, list, env, depth, w),
                                            |argv: u64, w: World<'a>|
                                                asks(
                                                    Request::Call { func: t.0, this: t.1, args: argv },
                                                    w,
                                                ),
                                        )
                                    },
                            ),
                    ),
            )
        },
        _ => (Ok(Value::Undefined), w),
    }
}

/// A tagged template.
pub fn eval_tagged_template<'h, 'a, H: Host<'a>>(
    s: &mut Session<'h, 'a, H>,
    e: &'a Expr,
    env: Env,
    depth: u64,
) -> (out: Result<Value, Abrupt<'a>>)
    ensures
        final(s).continues(*old(s)),
        forall|answers: Answers<'a>| #[trigger]
            final(s).agrees(answers) ==> old(s).agrees(answers) && (out, final(s).world(answers))
                == eval_tagged_template_step(e, env, depth, old(s).world(answers)),
    decreases depth, e, 1nat, 0nat,
{
    match e {
        Expr::TaggedTemplate { tag, quasis, subs } => {
            let strings: Value = template_object(s, quasis)?;
            let t: (Value, Value) = locate_tag(s, &**tag, env, depth)?;
            let ok: bool = is_callable(s, t.0)?;
            if !ok {
                return throw(s, ErrorKind::TypeError, "tag is not a function");
            }
            let list: u64 = s.new_list(Vec::new());
            s.push(list, strings);
            let argv: u64 = push_values(s, subs, list, env, depth)?;
            return s.value(Request::Call { func: t.0, this: t.1, args: argv });
        },
        _ => {
            return Ok(Value::Undefined);
        },
    }
}

/// A promise that is rejected.
pub open spec fn rejected_promise_step<'a>(reason: Value, w: World<'a>) -> Step<'a, Value>
{
    next(
        new_promise_step(w),
        |p: Value, w: World<'a>|
            next(
                reject_promise_step(p, reason, w),
                |u: (), w: World<'a>| (Ok(p), w),
            ),
    )
}

/// A promise that is rejected.
pub fn rejected_promise<'h, 'a, H: Host<'a>>(
    s: &mut Session<'h, 'a, H>,
    reason: Value,
) -> (out: Result<Value, Abrupt<'a>>)
    ensures
        final(s).continues(*old(s)),
        forall|answers: Answers<'a>| #[trigger]
            final(s).agrees(answers) ==> old(s).agrees(answers) && (out, final(s).world(answers))
                == rejected_promise_step(reason, old(s).world(answers)),
{
    let p: Value = new_promise(s)?;
    let u: () = reject_promise(s, p, reason)?;
    return Ok(p);
}

/// The type that the options of a dynamic import ask for, if it has options.
pub open spec fn attribute_of_step<'a>(
    options: Option<Value>,
    w: World<'a>,
) -> Step<'a, Option<Value>>
{
    match options {
        Some(o) => import_attributes_step(o, w),
        None => (Ok(None), w),
    }
}

/// The type that the options of a dynamic import ask for, if it has options.
pub fn attribute_of<'h, 'a, H: Host<'a>>(
    s: &mut Session<'h, 'a, H>,
    options: Option<Value>,
) -> (out: Result<Option<Value>, Abrupt<'a>>)
    ensures
        final(s).continues(*old(s)),
        forall|answers: Answers<'a>| #[trigger]
            final(s).agrees(answers) ==> old(s).agrees(answers) && (out, final(s).world(answers))
                == attribute_of_step(options, old(s).world(answers)),
{
    match options {
        Some(o) => {
            return import_attributes(s, o);
        },
        None => {
            return Ok(None);
        },
    }
}

/// Where imports of a script are resolved from, as a text.
pub open spec fn script_referrer_step<'a>(w: World<'a>) -> Step<'a, Option<Value>>
{
    let base: Option<&'a String> = w.base;
    match base {
        Some(b) => {
            let t: Value = w.next_text();
            let w = w.add_text(b@);
            (Ok(Some(t)), w)
        },
        None => (Ok(None), w),
    }
}

/// Where imports of a script are resolved from, as a text.
pub fn script_referrer<'h, 'a, H: Host<'a>>(
    s: &mut Session<'h, 'a, H>,
) -> (out: Result<Option<Value>, Abrupt<'a>>)
    ensures
        final(s).continues(*old(s)),
        forall|answers: Answers<'a>| #[trigger]
            final(s).agrees(answers) ==> old(s).agrees(answers) && (out, final(s).world(answers))
                == script_referrer_step(old(s).world(answers)),
{
    let base: Option<&'a String> = s.script_base();
    match base {
        Some(b) => {
            let t: Value = s.add_text(b.as_str().to_owned());
            return Ok(Some(t));
        },
        None => {
            return Ok(None);
        },
    }
}

/// Where an import is resolved from: the `url` of its module's `import.meta` if that is a text, and
/// else as for a script.
pub open spec fn import_referrer_step<'a>(
    meta: Option<Value>,
    w: World<'a>,
) -> Step<'a, Option<Value>>
{
    match meta {
        Some(m) => {
            let (url, w) = asks(Request::GetMember { base: m, key: Key::Fixed("url") }, w);
            match url {
                Ok(v) => {
                    if matches!(v, Value::Str(_)) {
                        (Ok(Some(v)), w)
                    } else {
                        script_referrer_step(w)
                    }
                },
                Err(_) => script_referrer_step(w),
            }
        },
        None => script_referrer_step(w),
    }
}

/// Where an import is resolved from: the `url` of its module's `import.meta` if that is a text, and
/// else as for a script.
pub fn import_referrer<'h, 'a, H: Host<'a>>(
    s: &mut Session<'h, 'a, H>,
    meta: Option<Value>,
) -> (out: Result<Option<Value>, Abrupt<'a>>)
    ensures
        final(s).continues(*old(s)),
        forall|answers: Answers<'a>| #[trigger]
            final(s).agrees(answers) ==> old(s).agrees(answers) && (out, final(s).world(answers))
                == import_referrer_step(meta, old(s).world(answers)),
{
    match meta {
        Some(m) => {
            let url: Completion<'a> = s.value(
                Request::GetMember { base: m, key: Key::Fixed("url") },
            );
            match url {
                Ok(v) => {
                    if matches!(v, Value::Str(_)) {
                        return Ok(Some(v));
                    } else {
                        return script_referrer(s);
                    }
                },
                Err(_) => {
                    return script_referrer(s);
                },
            }
        },
        None => {
            return script_referrer(s);
        },
    }
}

/// Loads the module of an import, for which there must be a loader.
pub open spec fn load_import_step<'a>(
    specifier: Value,
    attribute: Option<Value>,
    referrer: Option<Value>,
    w: World<'a>,
) -> Step<'a, Option<&'a Result<Loaded, LoadError>>>
{
    let found: Option<u64> = w.loader;
    match found {
        Some(loader) => {
            asks_graph(Request::LoadImport { specifier, attribute, referrer, loader }, w)
        },
        None => throws(ErrorKind::TypeError, "no module loader configured", w),
    }
}

/// Loads the module of an import, for which there must be a loader.
pub fn load_import<'h, 'a, H: Host<'a>>(
    s: &mut Session<'h, 'a, H>,
    specifier: Value,
    attribute: Option<Value>,
    referrer: Option<Value>,
) -> (out: Result<Option<&'a Result<Loaded, LoadError>>, Abrupt<'a>>)
    ensures
        final(s).continues(*old(s)),
        forall|answers: Answers<'a>| #[trigger]
            final(s).agrees(answers) ==> old(s).agrees(answers) && (out, final(s).world(answers))
                == load_import_step(specifier, attribute, referrer, old(s).world(answers)),
{
    let found: Option<u64> = s.module_loader();
    match found {
        Some(loader) => {
            return s.graph(Request::LoadImport { specifier, attribute, referrer, loader });
        },
        None => {
            return throw(s, ErrorKind::TypeError, "no module loader configured");
        },
    }
}

/// A dynamic import. Once its operands are evaluated, everything that goes wrong rejects the
/// promise.
pub open spec fn eval_import_call_step<'a>(
    e: &'a Expr,
    env: Env,
    depth: u64,
    w: World<'a>,
) -> Step<'a, Value>
    decreases depth, e, 1nat, 0nat,
{
    match e {
        Expr::ImportCall { spec, phase, options } => {
            next(
                eval_step(&**spec, env, depth, w),
                |target: Value, w: World<'a>|
                    next(
                        match options {
                            Some(o) => {
                                next(
                                    eval_step(&**o, env, depth, w),
                                    |v: Value, w: World<'a>| (Ok(Some(v)), w),
                                )
                            },
                            None => (Ok(None), w),
                        },
                        |opts: Option<Value>, w: World<'a>| {
                            let (text, w) = to_string_step(target, w);
                            match text {
                                Ok(specifier) => {
                                    match phase {
                                        ImportPhase::Source => {
                                            next(
                                                make_error_step(
                                                    ErrorKind::SyntaxError,
                                                    "source phase import is not available",
                                                    w,
                                                ),
                                                |reason: Value, w: World<'a>|
                                                    rejected_promise_step(reason, w),
                                            )
                                        },
                                        ImportPhase::Evaluation | ImportPhase::Defer => {
                                            let (wanted, w) = attribute_of_step(opts, w);
                                            match wanted {
                                                Ok(attribute) => {
                                                    let meta: Option<Value> = w.scopes.bound_value("%importmeta%"@, env);
                                                    next(
                                                        import_referrer_step(meta, w),
                                                        |referrer: Option<Value>, w: World<'a>| {
                                                            let (loaded, w) = load_import_step(
                                                                specifier,
                                                                attribute,
                                                                referrer,
                                                                w,
                                                            );
                                                            if depth == 0 {
                                                                throws(
                                                                    ErrorKind::RangeError,
                                                                    "Maximum call stack size exceeded",
                                                                    w,
                                                                )
                                                            } else {
                                                                dynamic_import_step(
                                                                    loaded,
                                                                    *phase == ImportPhase::Defer,
                                                                    (depth - 1) as u64,
                                                                    w,
                                                                )
                                                            }
                                                        },
                                                    )
                                                },
                                                Err(Abrupt::Throw(reason)) => {
                                                    rejected_promise_step(reason, w)
                                                },
                                                Err(a) => (Err(a), w),
                                            }
                                        },
                                    }
                                },
                                Err(Abrupt::Throw(reason)) => rejected_promise_step(reason, w),
                                Err(a) => (Err(a), w),
                            }
                        },
                    ),
            )
        },
        _ => (Ok(Value::Undefined), w),
    }
}

/// A dynamic import. Once its operands are evaluated, everything that goes wrong rejects the
/// promise.
pub fn eval_import_call<'h, 'a, H: Host<'a>>(
    s: &mut Session<'h, 'a, H>,
    e: &'a Expr,
    env: Env,
    depth: u64,
) -> (out: Result<Value, Abrupt<'a>>)
    ensures
        final(s).continues(*old(s)),
        forall|answers: Answers<'a>| #[trigger]
            final(s).agrees(answers) ==> old(s).agrees(answers) && (out, final(s).world(answers))
                == eval_import_call_step(e, env, depth, old(s).world(answers)),
    decreases depth, e, 1nat, 0nat,
{
    match e {
        Expr::ImportCall { spec, phase, options } => {
            let target: Value = eval(s, &**spec, env, depth)?;
            let opts: Option<Value> = match options {
                Some(o) => {
                    let v: Value = eval(s, &**o, env, depth)?;
                    Some(v)
                },
                None => {
                    None
                },
            };
            let text: Completion<'a> = to_string(s, target);
            match text {
                Ok(specifier) => {
                    match phase {
                        ImportPhase::Source => {
                            let reason: Value = make_error(
                                s,
                                ErrorKind::SyntaxError,
                                "source phase import is not available",
                            )?;
                            return rejected_promise(s, reason);
                        },
                        ImportPhase::Evaluation | ImportPhase::Defer => {
                            let wanted: Result<Option<Value>, Abrupt<'a>> = attribute_of(s, opts);
                            match wanted {
                                Ok(attribute) => {
                                    let meta: Option<Value> = s.scopes().peek_binding("%importmeta%", env);
                                    let referrer: Option<Value> = import_referrer(s, meta)?;
                                    let loaded: Result<Option<&'a Result<Loaded, LoadError>>, Abrupt<'a>> = load_import(
                                        s,
                                        specifier,
                                        attribute,
                                        referrer,
                                    );
                                    if depth == 0 {
                                        return throw(
                                            s,
                                            ErrorKind::RangeError,
                                            "Maximum call stack size exceeded",
                                        );
                                    } else {
                                        return dynamic_import(
                                            s,
                                            loaded,
                                            *phase == ImportPhase::Defer,
                                            depth - 1,
                                        );
                                    }
                                },
                                Err(Abrupt::Throw(reason)) => {
                                    return rejected_promise(s, reason);
                                },
                                Err(a) => {
                                    return Err(a);
                                },
                            }
                        },
                    }
                },
                Err(Abrupt::Throw(reason)) => {
                    return rejected_promise(s, reason);
                },
                Err(a) => {
                    return Err(a);
                },
            }
        },
        _ => {
            return Ok(Value::Undefined);
        },
    }
}

// ---- assignment

/// Evaluates a target to a reference, once: its base and key, or the place of its binding.
pub open spec fn resolve_reference_step<'a>(
    target: &'a Expr,
    env: Env,
    depth: u64,
    w: World<'a>,
) -> Step<'a, Reference<'a>>
    decreases depth, target, 3nat, 0nat,
{
    match target {
        Expr::Ident(name) => {
            next(
                resolve_name_step(name, env, w),
                |place: RefBase, w: World<'a>| (Ok(Reference::Var { place, name }), w),
            )
        },
        Expr::Member { obj, prop, optional } => {
            if **obj is Super {
                next(
                    super_base_step(env, w),
                    |proto: Value, w: World<'a>|
                        next(
                            get_var_step(Name::Fixed("this"), env, w),
                            |receiver: Value, w: World<'a>|
                                (Ok(Reference::Super { proto, receiver, key: RefKey::Known(Key::Source(prop)) }), w),
                        ),
                )
            } else {
                next(
                    eval_step(&**obj, env, depth, w),
                    |base: Value, w: World<'a>|
                        if private_name(prop@) {
                            next(
                                resolve_private_step(prop, env, w),
                                |hidden: u64, w: World<'a>|
                                    (Ok(Reference::Private { base, hidden }), w),
                            )
                        } else {
                            (Ok(Reference::Property { base, key: RefKey::Known(Key::Source(prop)) }), w)
                        },
                )
            }
        },
        Expr::Index { obj, index, optional } => {
            if **obj is Super {
                next(
                    super_base_step(env, w),
                    |proto: Value, w: World<'a>|
                        next(
                            get_var_step(Name::Fixed("this"), env, w),
                            |receiver: Value, w: World<'a>|
                                next(
                                    eval_step(&**index, env, depth, w),
                                    |i: Value, w: World<'a>|
                                        (Ok(Reference::Super { proto, receiver, key: RefKey::Raw(i) }), w),
                                ),
                        ),
                )
            } else {
                next(
                    eval_step(&**obj, env, depth, w),
                    |base: Value, w: World<'a>|
                        next(
                            eval_step(&**index, env, depth, w),
                            |i: Value, w: World<'a>|
                                (Ok(Reference::Property { base, key: RefKey::Raw(i) }), w),
                        ),
                )
            }
        },
        Expr::Call { .. } => {
            next(
                eval_step(target, env, depth, w),
                |v: Value, w: World<'a>|
                    throws(ErrorKind::ReferenceError, "invalid assignment target", w),
            )
        },
        _ => throws(ErrorKind::ReferenceError, "invalid assignment target", w),
    }
}

/// Evaluates a target to a reference, once: its base and key, or the place of its binding.
#[verifier::spinoff_prover]
pub fn resolve_reference<'h, 'a, H: Host<'a>>(
    s: &mut Session<'h, 'a, H>,
    target: &'a Expr,
    env: Env,
    depth: u64,
) -> (out: Result<Reference<'a>, Abrupt<'a>>)
    ensures
        final(s).continues(*old(s)),
        forall|answers: Answers<'a>| #[trigger]
            final(s).agrees(answers) ==> old(s).agrees(answers) && (out, final(s).world(answers))
                == resolve_reference_step(target, env, depth, old(s).world(answers)),
    decreases depth, target, 3nat, 0nat,
{
    match target {
        Expr::Ident(name) => {
            let place: RefBase = resolve_name(s, name, env)?;
            return Ok(Reference::Var { place, name });
        },
        Expr::Member { obj, prop, optional } => {
            if is_super(&**obj) {
                let proto: Value = super_base(s, env)?;
                let receiver: Value = get_var(s, Name::Fixed("this"), env)?;
                return Ok(
                    Reference::Super { proto, receiver, key: RefKey::Known(Key::Source(prop)) },
                );
            } else {
                let base: Value = eval(s, &**obj, env, depth)?;
                if is_private(prop) {
                    let hidden: u64 = resolve_private(s, prop, env)?;
                    return Ok(Reference::Private { base, hidden });
                } else {
                    return Ok(Reference::Property { base, key: RefKey::Known(Key::Source(prop)) });
                }
            }
        },
        Expr::Index { obj, index, optional } => {
            if is_super(&**obj) {
                let proto: Value = super_base(s, env)?;
                let receiver: Value = get_var(s, Name::Fixed("this"), env)?;
                let i: Value = eval(s, &**index, env, depth)?;
                return Ok(Reference::Super { proto, receiver, key: RefKey::Raw(i) });
            } else {
                let base: Value = eval(s, &**obj, env, depth)?;
                let i: Value = eval(s, &**index, env, depth)?;
                return Ok(Reference::Property { base, key: RefKey::Raw(i) });
            }
        },
        Expr::Call { .. } => {
            let v: Value = eval(s, target, env, depth)?;
            return throw(s, ErrorKind::ReferenceError, "invalid assignment target");
        },
        _ => {
            return throw(s, ErrorKind::ReferenceError, "invalid assignment target");
        },
    }
}

/// Evaluates what is assigned to a name: an anonymous class takes the name before its static parts
/// run, an anonymous function afterwards.
pub open spec fn eval_named_step<'a>(
    value: &'a Expr,
    name: Name<'a>,
    key: Key<'a>,
    env: Env,
    depth: u64,
    w: World<'a>,
) -> Step<'a, Value>
    decreases depth, value, 3nat, 0nat,
{
    next(
        match value {
            Expr::Class(c) => {
                if c.name.is_none() {
                    eval_class_step(&**c, env, Some(name), depth, w)
                } else {
                    eval_step(value, env, depth, w)
                }
            },
            _ => eval_step(value, env, depth, w),
        },
        |v: Value, w: World<'a>|
            if anonymous_fn(value) {
                next(
                    name_function_step(v, "", key, false, w),
                    |nm: (), w: World<'a>| (Ok(v), w),
                )
            } else {
                (Ok(v), w)
            },
    )
}

/// Evaluates what is assigned to a name: an anonymous class takes the name before its static parts
/// run, an anonymous function afterwards.
pub fn eval_named<'h, 'a, H: Host<'a>>(
    s: &mut Session<'h, 'a, H>,
    value: &'a Expr,
    name: Name<'a>,
    key: Key<'a>,
    env: Env,
    depth: u64,
) -> (out: Result<Value, Abrupt<'a>>)
    ensures
        final(s).continues(*old(s)),
        forall|answers: Answers<'a>| #[trigger]
            final(s).agrees(answers) ==> old(s).agrees(answers) && (out, final(s).world(answers))
                == eval_named_step(value, name, key, env, depth, old(s).world(answers)),
    decreases depth, value, 3nat, 0nat,
{
    let v: Value = match value {
        Expr::Class(c) => {
            if c.name.is_none() {
                eval_class(s, &**c, env, Some(name), depth)?
            } else {
                eval(s, value, env, depth)?
            }
        },
        _ => {
            eval(s, value, env, depth)?
        },
    };
    if is_anonymous_fn(value) {
        let nm: () = name_function(s, v, "", key, false)?;
        return Ok(v);
    } else {
        return Ok(v);
    }
}

/// What is assigned to a target: named after it where the target is a name.
pub open spec fn eval_for_target_step<'a>(
    target: &'a Expr,
    value: &'a Expr,
    env: Env,
    depth: u64,
    w: World<'a>,
) -> Step<'a, Value>
    decreases depth, value, 4nat, 0nat,
{
    match target {
        Expr::Ident(n) => eval_named_step(value, Name::Source(n), Key::Source(n), env, depth, w),
        _ => eval_step(value, env, depth, w),
    }
}

/// What is assigned to a target: named after it where the target is a name.
pub fn eval_for_target<'h, 'a, H: Host<'a>>(
    s: &mut Session<'h, 'a, H>,
    target: &'a Expr,
    value: &'a Expr,
    env: Env,
    depth: u64,
) -> (out: Result<Value, Abrupt<'a>>)
    ensures
        final(s).continues(*old(s)),
        forall|answers: Answers<'a>| #[trigger]
            final(s).agrees(answers) ==> old(s).agrees(answers) && (out, final(s).world(answers))
                == eval_for_target_step(target, value, env, depth, old(s).world(answers)),
    decreases depth, value, 4nat, 0nat,
{
    match target {
        Expr::Ident(n) => {
            return eval_named(s, value, Name::Source(n), Key::Source(n), env, depth);
        },
        _ => {
            return eval(s, value, env, depth);
        },
    }
}

/// An assignment. The target is resolved once and serves both the read and the write.
pub open spec fn eval_assign_step<'a>(
    e: &'a Expr,
    env: Env,
    depth: u64,
    w: World<'a>,
) -> Step<'a, Value>
    decreases depth, e, 1nat, 0nat,
{
    match e {
        Expr::Assign { op, target, value } => {
            if op@ == "="@ {
                if literal_target(&**target) {
                    next(
                        eval_step(&**value, env, depth, w),
                        |v: Value, w: World<'a>|
                            next(
                                assign_to_target_step(&**target, v, env, depth, w),
                                |u: (), w: World<'a>| (Ok(v), w),
                            ),
                    )
                } else {
                    next(
                        resolve_reference_step(&**target, env, depth, w),
                        |place: Reference<'a>, w: World<'a>|
                            next(
                                eval_for_target_step(&**target, &**value, env, depth, w),
                                |v: Value, w: World<'a>|
                                    next(
                                        put_reference_step(place, v, w),
                                        |u: (), w: World<'a>| (Ok(v), w),
                                    ),
                            ),
                    )
                }
            } else {
                next(
                    resolve_reference_step(&**target, env, depth, w),
                    |place: Reference<'a>, w: World<'a>|
                        next(
                            get_reference_step(place, w),
                            |got: (Value, Reference<'a>), w: World<'a>|
                                if logical_assign(op@) {
                                    next(
                                        wants_right_step(base_op(*op), got.0, w),
                                        |b: bool, w: World<'a>|
                                            if !b {
                                                (Ok(got.0), w)
                                            } else {
                                                next(
                                                    eval_step(&**value, env, depth, w),
                                                    |v: Value, w: World<'a>| {
                                                        let n: Option<&'a String> = name_of(
                                                            &**target,
                                                        );
                                                        next(
                                                            name_if_anonymous_step(
                                                                &**value,
                                                                n,
                                                                v,
                                                                w,
                                                            ),
                                                            |u: (), w: World<'a>|
                                                                next(
                                                                    put_reference_step(got.1, v, w),
                                                                    |w2: (), w: World<'a>|
                                                                        (Ok(v), w),
                                                                ),
                                                        )
                                                    },
                                                )
                                            },
                                    )
                                } else {
                                    next(
                                        eval_step(&**value, env, depth, w),
                                        |rhs: Value, w: World<'a>|
                                            next(
                                                binary_step(base_op(*op), got.0, rhs, w),
                                                |res: Value, w: World<'a>|
                                                    next(
                                                        put_reference_step(got.1, res, w),
                                                        |u: (), w: World<'a>| (Ok(res), w),
                                                    ),
                                            ),
                                    )
                                },
                        ),
                )
            }
        },
        _ => (Ok(Value::Undefined), w),
    }
}

/// An assignment. The target is resolved once and serves both the read and the write.
#[verifier::spinoff_prover]
pub fn eval_assign<'h, 'a, H: Host<'a>>(
    s: &mut Session<'h, 'a, H>,
    e: &'a Expr,
    env: Env,
    depth: u64,
) -> (out: Result<Value, Abrupt<'a>>)
    ensures
        final(s).continues(*old(s)),
        forall|answers: Answers<'a>| #[trigger]
            final(s).agrees(answers) ==> old(s).agrees(answers) && (out, final(s).world(answers))
                == eval_assign_step(e, env, depth, old(s).world(answers)),
    decreases depth, e, 1nat, 0nat,
{
    match e {
        Expr::Assign { op, target, value } => {
            if same_text(op, "=") {
                if is_literal_target(&**target) {
                    let v: Value = eval(s, &**value, env, depth)?;
                    let u: () = assign_to_target(s, &**target, v, env, depth)?;
                    return Ok(v);
                } else {
                    let place: Reference<'a> = resolve_reference(s, &**target, env, depth)?;
                    let v: Value = eval_for_target(s, &**target, &**value, env, depth)?;
                    let u: () = put_reference(s, place, v)?;
                    return Ok(v);
                }
            } else {
                let place: Reference<'a> = resolve_reference(s, &**target, env, depth)?;
                let got: (Value, Reference<'a>) = get_reference(s, place)?;
                if is_logical_assign(*op) {
                    let b: bool = wants_right(s, base_operator(*op), got.0)?;
                    if !b {
                        return Ok(got.0);
                    }
                    let v: Value = eval(s, &**value, env, depth)?;
                    let n: Option<&'a String> = target_name(&**target);
                    let u: () = name_if_anonymous(s, &**value, n, v)?;
                    let w2: () = put_reference(s, got.1, v)?;
                    return Ok(v);
                } else {
                    let rhs: Value = eval(s, &**value, env, depth)?;
                    let res: Value = binary(s, base_operator(*op), got.0, rhs)?;
                    let u: () = put_reference(s, got.1, res)?;
                    return Ok(res);
                }
            }
        },
        _ => {
            return Ok(Value::Undefined);
        },
    }
}

/// Names an anonymous function after a target.
pub open spec fn name_if_anonymous_step<'a>(
    value: &'a Expr,
    name: Option<&'a String>,
    v: Value,
    w: World<'a>,
) -> Step<'a, ()>
{
    match name {
        Some(n) => {
            if anonymous_fn(value) {
                next(
                    name_function_step(v, "", Key::Source(n), false, w),
                    |nm: (), w: World<'a>| (Ok(()), w),
                )
            } else {
                (Ok(()), w)
            }
        },
        None => (Ok(()), w),
    }
}

/// Names an anonymous function after a target.
pub fn name_if_anonymous<'h, 'a, H: Host<'a>>(
    s: &mut Session<'h, 'a, H>,
    value: &'a Expr,
    name: Option<&'a String>,
    v: Value,
) -> (out: Result<(), Abrupt<'a>>)
    ensures
        final(s).continues(*old(s)),
        forall|answers: Answers<'a>| #[trigger]
            final(s).agrees(answers) ==> old(s).agrees(answers) && (out, final(s).world(answers))
                == name_if_anonymous_step(value, name, v, old(s).world(answers)),
{
    match name {
        Some(n) => {
            if is_anonymous_fn(value) {
                let nm: () = name_function(s, v, "", Key::Source(n), false)?;
                return Ok(());
            } else {
                return Ok(());
            }
        },
        None => {
            return Ok(());
        },
    }
}

/// The value taken out of a pattern's source, or its default where that is `undefined`.
pub open spec fn with_default_step<'a>(
    v: Value,
    default: &'a Expr,
    name: Option<&'a String>,
    env: Env,
    depth: u64,
    w: World<'a>,
) -> Step<'a, Value>
    decreases depth, default, 3nat, 0nat,
{
    if matches!(v, Value::Undefined) {
        next(
            eval_step(default, env, depth, w),
            |x: Value, w: World<'a>|
                next(
                    name_if_anonymous_step(default, name, x, w),
                    |u: (), w: World<'a>| (Ok(x), w),
                ),
        )
    } else {
        (Ok(v), w)
    }
}

/// The value taken out of a pattern's source, or its default where that is `undefined`.
pub fn with_default<'h, 'a, H: Host<'a>>(
    s: &mut Session<'h, 'a, H>,
    v: Value,
    default: &'a Expr,
    name: Option<&'a String>,
    env: Env,
    depth: u64,
) -> (out: Result<Value, Abrupt<'a>>)
    ensures
        final(s).continues(*old(s)),
        forall|answers: Answers<'a>| #[trigger]
            final(s).agrees(answers) ==> old(s).agrees(answers) && (out, final(s).world(answers))
                == with_default_step(v, default, name, env, depth, old(s).world(answers)),
    decreases depth, default, 3nat, 0nat,
{
    if matches!(v, Value::Undefined) {
        let x: Value = eval(s, default, env, depth)?;
        let u: () = name_if_anonymous(s, default, name, x)?;
        return Ok(x);
    } else {
        return Ok(v);
    }
}

/// Assigns to any target, taking arrays and objects apart.
pub open spec fn assign_to_target_step<'a>(
    target: &'a Expr,
    value: Value,
    env: Env,
    depth: u64,
    w: World<'a>,
) -> Step<'a, ()>
    decreases depth, target, 4nat, 0nat,
{
    match target {
        Expr::Ident(name) => assign_var_step(Name::Source(name), value, env, w),
        Expr::Member { obj, prop, optional } => {
            if **obj is Super {
                next(
                    super_base_step(env, w),
                    |home: Value, w: World<'a>|
                        next(
                            get_var_step(Name::Fixed("this"), env, w),
                            |this: Value, w: World<'a>|
                                next(
                                    asks(
                                        Request::SetMember { base: this, key: Key::Source(prop), value, strict: w.strict },
                                        w,
                                    ),
                                    |v: Value, w: World<'a>| (Ok(()), w),
                                ),
                        ),
                )
            } else {
                next(
                    eval_step(&**obj, env, depth, w),
                    |base: Value, w: World<'a>|
                        if private_name(prop@) {
                            next(
                                resolve_private_step(prop, env, w),
                                |hidden: u64, w: World<'a>|
                                    set_private_member_step(base, Key::Made(hidden), value, w),
                            )
                        } else {
                            next(
                                asks(
                                    Request::SetMember { base, key: Key::Source(prop), value, strict: w.strict },
                                    w,
                                ),
                                |v: Value, w: World<'a>| (Ok(()), w),
                            )
                        },
                )
            }
        },
        Expr::Index { obj, index, optional } => {
            if **obj is Super {
                next(
                    super_base_step(env, w),
                    |home: Value, w: World<'a>|
                        next(
                            eval_step(&**index, env, depth, w),
                            |i: Value, w: World<'a>|
                                next(
                                    to_property_key_step(i, w),
                                    |k: Key<'a>, w: World<'a>|
                                        next(
                                            get_var_step(Name::Fixed("this"), env, w),
                                            |this: Value, w: World<'a>|
                                                next(
                                                    asks(
                                                        Request::SetMember { base: this, key: k, value, strict: w.strict },
                                                        w,
                                                    ),
                                                    |v: Value, w: World<'a>| (Ok(()), w),
                                                ),
                                        ),
                                ),
                        ),
                )
            } else {
                next(
                    eval_step(&**obj, env, depth, w),
                    |base: Value, w: World<'a>|
                        next(
                            eval_step(&**index, env, depth, w),
                            |i: Value, w: World<'a>|
                                next(
                                    to_property_key_step(i, w),
                                    |k: Key<'a>, w: World<'a>|
                                        next(
                                            asks(
                                                Request::SetMember { base, key: k, value, strict: w.strict },
                                                w,
                                            ),
                                            |v: Value, w: World<'a>| (Ok(()), w),
                                        ),
                                ),
                        ),
                )
            }
        },
        Expr::Array(elems) => {
            next(
                get_iterator_step(value, w),
                |it: (Value, Value), w: World<'a>| {
                    let (r, w) = assign_elems_step(elems, it.0, it.1, env, depth, w);
                    close_after_step(it.0, r.1, r.0, w)
                },
            )
        },
        Expr::Object(props) => {
            if value.is_nullish() {
                throws(ErrorKind::TypeError, "cannot destructure null or undefined", w)
            } else {
                let keys: u64 = w.next_list();
                let w = w.new_list(Seq::empty());
                assign_props_step(props, value, keys, env, depth, w)
            }
        },
        Expr::Call { .. } => {
            next(
                eval_step(target, env, depth, w),
                |v: Value, w: World<'a>|
                    throws(ErrorKind::ReferenceError, "invalid assignment target", w),
            )
        },
        _ => throws(ErrorKind::ReferenceError, "invalid assignment target", w),
    }
}

/// Assigns to any target, taking arrays and objects apart.
#[verifier::spinoff_prover]
pub fn assign_to_target<'h, 'a, H: Host<'a>>(
    s: &mut Session<'h, 'a, H>,
    target: &'a Expr,
    value: Value,
    env: Env,
    depth: u64,
) -> (out: Result<(), Abrupt<'a>>)
    ensures
        final(s).continues(*old(s)),
        forall|answers: Answers<'a>| #[trigger]
            final(s).agrees(answers) ==> old(s).agrees(answers) && (out, final(s).world(answers))
                == assign_to_target_step(target, value, env, depth, old(s).world(answers)),
    decreases depth, target, 4nat, 0nat,
{
    match target {
        Expr::Ident(name) => {
            return assign_var(s, Name::Source(name), value, env);
        },
        Expr::Member { obj, prop, optional } => {
            if is_super(&**obj) {
                let home: Value = super_base(s, env)?;
                let this: Value = get_var(s, Name::Fixed("this"), env)?;
                let v: Value = s.value(
                    Request::SetMember { base: this, key: Key::Source(prop), value, strict: s.strict_mode() },
                )?;
                return Ok(());
            } else {
                let base: Value = eval(s, &**obj, env, depth)?;
                if is_private(prop) {
                    let hidden: u64 = resolve_private(s, prop, env)?;
                    return set_private_member(s, base, Key::Made(hidden), value);
                } else {
                    let v: Value = s.value(
                        Request::SetMember { base, key: Key::Source(prop), value, strict: s.strict_mode() },
                    )?;
                    return Ok(());
                }
            }
        },
        Expr::Index { obj, index, optional } => {
            if is_super(&**obj) {
                let home: Value = super_base(s, env)?;
                let i: Value = eval(s, &**index, env, depth)?;
                let k: Key<'a> = to_property_key(s, i)?;
                let this: Value = get_var(s, Name::Fixed("this"), env)?;
                let v: Value = s.value(
                    Request::SetMember { base: this, key: k, value, strict: s.strict_mode() },
                )?;
                return Ok(());
            } else {
                let base: Value = eval(s, &**obj, env, depth)?;
                let i: Value = eval(s, &**index, env, depth)?;
                let k: Key<'a> = to_property_key(s, i)?;
                let v: Value = s.value(
                    Request::SetMember { base, key: k, value, strict: s.strict_mode() },
                )?;
                return Ok(());
            }
        },
        Expr::Array(elems) => {
            let it: (Value, Value) = get_iterator(s, value)?;
            let r: (Result<(), Abrupt<'a>>, bool) = assign_elems(s, elems, it.0, it.1, env, depth);
            return close_after(s, it.0, r.1, r.0);
        },
        Expr::Object(props) => {
            if value.is_nullish() {
                return throw(s, ErrorKind::TypeError, "cannot destructure null or undefined");
            } else {
                let keys: u64 = s.new_list(Vec::new());
                return assign_props(s, props, value, keys, env, depth);
            }
        },
        Expr::Call { .. } => {
            let v: Value = eval(s, target, env, depth)?;
            return throw(s, ErrorKind::ReferenceError, "invalid assignment target");
        },
        _ => {
            return throw(s, ErrorKind::ReferenceError, "invalid assignment target");
        },
    }
}

/// Assigns the values of an iterator to the elements of an array target. From the item at `i` on.
pub open spec fn assign_elems_from<'a>(
    elems: &'a Vec<ArrayElem>,
    iter: Value,
    method: Value,
    env: Env,
    depth: u64,
    i: nat,
    done: bool,
    w: World<'a>,
) -> ((Result<(), Abrupt<'a>>, bool), World<'a>)
    decreases depth, elems, 0nat, elems@.len() - i,
{
    if i >= elems@.len() {
        ((Ok(()), done), w)
    } else {
        let (r, w) = assign_elem_step(&elems@[i as int], iter, method, done, env, depth, w);
        match r.0 {
            Ok(_) => assign_elems_from(elems, iter, method, env, depth, i + 1, r.1, w),
            Err(a) => ((Err(a), r.1), w),
        }
    }
}

/// Assigns the values of an iterator to the elements of an array target.
pub open spec fn assign_elems_step<'a>(
    elems: &'a Vec<ArrayElem>,
    iter: Value,
    method: Value,
    env: Env,
    depth: u64,
    w: World<'a>,
) -> ((Result<(), Abrupt<'a>>, bool), World<'a>)
    decreases depth, elems, 0nat, elems@.len() + 1,
{
    assign_elems_from(elems, iter, method, env, depth, 0, false, w)
}

/// Assigns the values of an iterator to the elements of an array target.
pub fn assign_elems<'h, 'a, H: Host<'a>>(
    s: &mut Session<'h, 'a, H>,
    elems: &'a Vec<ArrayElem>,
    iter: Value,
    method: Value,
    env: Env,
    depth: u64,
) -> (out: (Result<(), Abrupt<'a>>, bool))
    ensures
        final(s).continues(*old(s)),
        forall|answers: Answers<'a>| #[trigger]
            final(s).agrees(answers) ==> old(s).agrees(answers) && (out, final(s).world(answers))
                == assign_elems_step(elems, iter, method, env, depth, old(s).world(answers)),
    decreases depth, elems, 0nat, elems@.len() + 1,
{
    let mut done: bool = false;
    let mut i: usize = 0;
    while i < elems.len()
        invariant
            i <= elems.len(),
            s.continues(*old(s)),
            forall|answers: Answers<'a>| #[trigger]
                s.agrees(answers) ==> old(s).agrees(answers)
                    && assign_elems_step(elems, iter, method, env, depth, old(s).world(answers))
                    == assign_elems_from(
                        elems,
                        iter,
                        method,
                        env,
                        depth,
                        i as nat,
                        done,
                        s.world(answers),
                    ),
        decreases elems.len() - i,
    {
        let r: (Result<(), Abrupt<'a>>, bool) = assign_elem(
            s,
            &elems[i],
            iter,
            method,
            done,
            env,
            depth,
        );
        match r.0 {
            Ok(_) => {
                done = r.1;
            },
            Err(a) => {
                return (Err(a), r.1);
            },
        }
        i = i + 1;
    }
    return (Ok(()), done);
}

/// Assigns to one element of an array target.
pub open spec fn assign_elem_step<'a>(
    el: &'a ArrayElem,
    iter: Value,
    method: Value,
    done: bool,
    env: Env,
    depth: u64,
    w: World<'a>,
) -> ((Result<(), Abrupt<'a>>, bool), World<'a>)
    decreases depth, el, 0nat, 0nat,
{
    match el {
        ArrayElem::Hole => {
            let (p, w) = pull_step(iter, method, done, w);
            match p.0 {
                Ok(_) => ((Ok(()), p.1), w),
                Err(a) => ((Err(a), p.1), w),
            }
        },
        ArrayElem::Spread(t) => {
            if literal_target(t) {
                let (rest, w) = pull_rest_step(iter, method, done, w);
                match rest {
                    Ok(arr) => {
                        let (r, w) = assign_to_target_step(t, arr, env, depth, w);
                        ((r, true), w)
                    },
                    Err(a) => ((Err(a), true), w),
                }
            } else {
                let (place, w) = resolve_reference_step(t, env, depth, w);
                match place {
                    Ok(place) => {
                        let (rest, w) = pull_rest_step(iter, method, done, w);
                        match rest {
                            Ok(arr) => {
                                let (r, w) = put_reference_step(place, arr, w);
                                ((r, true), w)
                            },
                            Err(a) => ((Err(a), true), w),
                        }
                    },
                    Err(a) => ((Err(a), done), w),
                }
            }
        },
        ArrayElem::Item(t) => assign_item_step(t, iter, method, done, env, depth, w),
    }
}

/// Assigns to one element of an array target.
#[verifier::spinoff_prover]
pub fn assign_elem<'h, 'a, H: Host<'a>>(
    s: &mut Session<'h, 'a, H>,
    el: &'a ArrayElem,
    iter: Value,
    method: Value,
    done: bool,
    env: Env,
    depth: u64,
) -> (out: (Result<(), Abrupt<'a>>, bool))
    ensures
        final(s).continues(*old(s)),
        forall|answers: Answers<'a>| #[trigger]
            final(s).agrees(answers) ==> old(s).agrees(answers) && (out, final(s).world(answers))
                == assign_elem_step(el, iter, method, done, env, depth, old(s).world(answers)),
    decreases depth, el, 0nat, 0nat,
{
    match el {
        ArrayElem::Hole => {
            let p: (Completion<'a>, bool) = pull(s, iter, method, done);
            match p.0 {
                Ok(_) => {
                    return (Ok(()), p.1);
                },
                Err(a) => {
                    return (Err(a), p.1);
                },
            }
        },
        ArrayElem::Spread(t) => {
            if is_literal_target(t) {
                let rest: Completion<'a> = pull_rest(s, iter, method, done);
                match rest {
                    Ok(arr) => {
                        let r: Result<(), Abrupt<'a>> = assign_to_target(s, t, arr, env, depth);
                        return (r, true);
                    },
                    Err(a) => {
                        return (Err(a), true);
                    },
                }
            } else {
                let place: Result<Reference<'a>, Abrupt<'a>> = resolve_reference(s, t, env, depth);
                match place {
                    Ok(place) => {
                        let rest: Completion<'a> = pull_rest(s, iter, method, done);
                        match rest {
                            Ok(arr) => {
                                let r: Result<(), Abrupt<'a>> = put_reference(s, place, arr);
                                return (r, true);
                            },
                            Err(a) => {
                                return (Err(a), true);
                            },
                        }
                    },
                    Err(a) => {
                        return (Err(a), done);
                    },
                }
            }
        },
        ArrayElem::Item(t) => {
            return assign_item(s, t, iter, method, done, env, depth);
        },
    }
}

/// Assigns the next value to one target, or its default.
pub open spec fn assign_item_step<'a>(
    t: &'a Expr,
    iter: Value,
    method: Value,
    done: bool,
    env: Env,
    depth: u64,
    w: World<'a>,
) -> ((Result<(), Abrupt<'a>>, bool), World<'a>)
    decreases depth, t, 5nat, 0nat,
{
    match t {
        Expr::Assign { op, target, value } => {
            if op@ == "="@ {
                assign_item_default_step(t, iter, method, done, env, depth, w)
            } else {
                assign_item_plain_step(t, iter, method, done, env, depth, w)
            }
        },
        _ => assign_item_plain_step(t, iter, method, done, env, depth, w),
    }
}

/// Assigns the next value to one target, or its default.
#[verifier::spinoff_prover]
pub fn assign_item<'h, 'a, H: Host<'a>>(
    s: &mut Session<'h, 'a, H>,
    t: &'a Expr,
    iter: Value,
    method: Value,
    done: bool,
    env: Env,
    depth: u64,
) -> (out: (Result<(), Abrupt<'a>>, bool))
    ensures
        final(s).continues(*old(s)),
        forall|answers: Answers<'a>| #[trigger]
            final(s).agrees(answers) ==> old(s).agrees(answers) && (out, final(s).world(answers))
                == assign_item_step(t, iter, method, done, env, depth, old(s).world(answers)),
    decreases depth, t, 5nat, 0nat,
{
    match t {
        Expr::Assign { op, target, value } => {
            if same_text(op, "=") {
                return assign_item_default(s, t, iter, method, done, env, depth);
            } else {
                return assign_item_plain(s, t, iter, method, done, env, depth);
            }
        },
        _ => {
            return assign_item_plain(s, t, iter, method, done, env, depth);
        },
    }
}

/// Assigns the next value to a target without a default.
pub open spec fn assign_item_plain_step<'a>(
    t: &'a Expr,
    iter: Value,
    method: Value,
    done: bool,
    env: Env,
    depth: u64,
    w: World<'a>,
) -> ((Result<(), Abrupt<'a>>, bool), World<'a>)
    decreases depth, t, 4nat, 1nat,
{
    if literal_target(t) {
        let (p, w) = pull_step(iter, method, done, w);
        match p.0 {
            Ok(v) => {
                let (r, w) = assign_to_target_step(t, v, env, depth, w);
                ((r, p.1), w)
            },
            Err(a) => ((Err(a), p.1), w),
        }
    } else {
        let (place, w) = resolve_reference_step(t, env, depth, w);
        match place {
            Ok(place) => {
                let (p, w) = pull_step(iter, method, done, w);
                match p.0 {
                    Ok(v) => {
                        let (r, w) = put_reference_step(place, v, w);
                        ((r, p.1), w)
                    },
                    Err(a) => ((Err(a), p.1), w),
                }
            },
            Err(a) => ((Err(a), done), w),
        }
    }
}

/// Assigns the next value to a target without a default.
pub fn assign_item_plain<'h, 'a, H: Host<'a>>(
    s: &mut Session<'h, 'a, H>,
    t: &'a Expr,
    iter: Value,
    method: Value,
    done: bool,
    env: Env,
    depth: u64,
) -> (out: (Result<(), Abrupt<'a>>, bool))
    ensures
        final(s).continues(*old(s)),
        forall|answers: Answers<'a>| #[trigger]
            final(s).agrees(answers) ==> old(s).agrees(answers) && (out, final(s).world(answers))
                == assign_item_plain_step(t, iter, method, done, env, depth, old(s).world(answers)),
    decreases depth, t, 4nat, 1nat,
{
    if is_literal_target(t) {
        let p: (Completion<'a>, bool) = pull(s, iter, method, done);
        match p.0 {
            Ok(v) => {
                let r: Result<(), Abrupt<'a>> = assign_to_target(s, t, v, env, depth);
                return (r, p.1);
            },
            Err(a) => {
                return (Err(a), p.1);
            },
        }
    } else {
        let place: Result<Reference<'a>, Abrupt<'a>> = resolve_reference(s, t, env, depth);
        match place {
            Ok(place) => {
                let p: (Completion<'a>, bool) = pull(s, iter, method, done);
                match p.0 {
                    Ok(v) => {
                        let r: Result<(), Abrupt<'a>> = put_reference(s, place, v);
                        return (r, p.1);
                    },
                    Err(a) => {
                        return (Err(a), p.1);
                    },
                }
            },
            Err(a) => {
                return (Err(a), done);
            },
        }
    }
}

/// Assigns the next value to a target with a default.
pub open spec fn assign_item_default_step<'a>(
    t: &'a Expr,
    iter: Value,
    method: Value,
    done: bool,
    env: Env,
    depth: u64,
    w: World<'a>,
) -> ((Result<(), Abrupt<'a>>, bool), World<'a>)
    decreases depth, t, 4nat, 1nat,
{
    match t {
        Expr::Assign { op, target, value } => {
            if literal_target(&**target) {
                let (p, w) = pull_step(iter, method, done, w);
                match p.0 {
                    Ok(v) => {
                        let (x, w) = with_default_step(v, &**value, None, env, depth, w);
                        match x {
                            Ok(x) => {
                                let (r, w) = assign_to_target_step(&**target, x, env, depth, w);
                                ((r, p.1), w)
                            },
                            Err(a) => ((Err(a), p.1), w),
                        }
                    },
                    Err(a) => ((Err(a), p.1), w),
                }
            } else {
                let (place, w) = resolve_reference_step(&**target, env, depth, w);
                match place {
                    Ok(place) => {
                        let (p, w) = pull_step(iter, method, done, w);
                        match p.0 {
                            Ok(v) => {
                                let n: Option<&'a String> = name_of(&**target);
                                let (x, w) = with_default_step(v, &**value, n, env, depth, w);
                                match x {
                                    Ok(x) => {
                                        let (r, w) = put_reference_step(place, x, w);
                                        ((r, p.1), w)
                                    },
                                    Err(a) => ((Err(a), p.1), w),
                                }
                            },
                            Err(a) => ((Err(a), p.1), w),
                        }
                    },
                    Err(a) => ((Err(a), done), w),
                }
            }
        },
        _ => ((Ok(()), done), w),
    }
}

/// Assigns the next value to a target with a default.
#[verifier::spinoff_prover]
pub fn assign_item_default<'h, 'a, H: Host<'a>>(
    s: &mut Session<'h, 'a, H>,
    t: &'a Expr,
    iter: Value,
    method: Value,
    done: bool,
    env: Env,
    depth: u64,
) -> (out: (Result<(), Abrupt<'a>>, bool))
    ensures
        final(s).continues(*old(s)),
        forall|answers: Answers<'a>| #[trigger]
            final(s).agrees(answers) ==> old(s).agrees(answers) && (out, final(s).world(answers))
                == assign_item_default_step(
                    t,
                    iter,
                    method,
                    done,
                    env,
                    depth,
                    old(s).world(answers),
                ),
    decreases depth, t, 4nat, 1nat,
{
    match t {
        Expr::Assign { op, target, value } => {
            if is_literal_target(&**target) {
                let p: (Completion<'a>, bool) = pull(s, iter, method, done);
                match p.0 {
                    Ok(v) => {
                        let x: Completion<'a> = with_default(s, v, &**value, None, env, depth);
                        match x {
                            Ok(x) => {
                                let r: Result<(), Abrupt<'a>> = assign_to_target(
                                    s,
                                    &**target,
                                    x,
                                    env,
                                    depth,
                                );
                                return (r, p.1);
                            },
                            Err(a) => {
                                return (Err(a), p.1);
                            },
                        }
                    },
                    Err(a) => {
                        return (Err(a), p.1);
                    },
                }
            } else {
                let place: Result<Reference<'a>, Abrupt<'a>> = resolve_reference(
                    s,
                    &**target,
                    env,
                    depth,
                );
                match place {
                    Ok(place) => {
                        let p: (Completion<'a>, bool) = pull(s, iter, method, done);
                        match p.0 {
                            Ok(v) => {
                                let n: Option<&'a String> = target_name(&**target);
                                let x: Completion<'a> = with_default(s, v, &**value, n, env, depth);
                                match x {
                                    Ok(x) => {
                                        let r: Result<(), Abrupt<'a>> = put_reference(s, place, x);
                                        return (r, p.1);
                                    },
                                    Err(a) => {
                                        return (Err(a), p.1);
                                    },
                                }
                            },
                            Err(a) => {
                                return (Err(a), p.1);
                            },
                        }
                    },
                    Err(a) => {
                        return (Err(a), done);
                    },
                }
            }
        },
        _ => {
            return (Ok(()), done);
        },
    }
}

/// Assigns the properties of a value to the properties of an object target. From the item at `i`
/// on.
pub open spec fn assign_props_from<'a>(
    props: &'a Vec<PropDef>,
    source: Value,
    keys: u64,
    env: Env,
    depth: u64,
    i: nat,
    w: World<'a>,
) -> Step<'a, ()>
    decreases depth, props, 0nat, props@.len() - i,
{
    if i >= props@.len() {
        (Ok(()), w)
    } else {
        match &props@[i as int] {
            PropDef::KeyValue { key, value } => {
                next(
                    eval_prop_key_step(key, env, depth, w),
                    |k: Key<'a>, w: World<'a>|
                        next(
                            key_value_step(k, w),
                            |kv: Value, w: World<'a>| {
                                let w = w.push(keys, kv);
                                next(
                                    assign_keyed_step(value, source, k, env, depth, w),
                                    |u: (), w: World<'a>|
                                        assign_props_from(
                                            props,
                                            source,
                                            keys,
                                            env,
                                            depth,
                                            i + 1,
                                            w,
                                        ),
                                )
                            },
                        ),
                )
            },
            PropDef::Cover { key, value } => {
                next(
                    eval_prop_key_step(key, env, depth, w),
                    |k: Key<'a>, w: World<'a>|
                        next(
                            key_value_step(k, w),
                            |kv: Value, w: World<'a>| {
                                let w = w.push(keys, kv);
                                next(
                                    assign_keyed_step(value, source, k, env, depth, w),
                                    |u: (), w: World<'a>|
                                        assign_props_from(
                                            props,
                                            source,
                                            keys,
                                            env,
                                            depth,
                                            i + 1,
                                            w,
                                        ),
                                )
                            },
                        ),
                )
            },
            PropDef::Proto(value) => {
                next(
                    key_value_step(Key::Fixed("__proto__"), w),
                    |kv: Value, w: World<'a>| {
                        let w = w.push(keys, kv);
                        next(
                            assign_keyed_step(
                                value,
                                source,
                                Key::Fixed("__proto__"),
                                env,
                                depth,
                                w,
                            ),
                            |u: (), w: World<'a>|
                                assign_props_from(props, source, keys, env, depth, i + 1, w),
                        )
                    },
                )
            },
            PropDef::Spread(t) => {
                next(
                    copy_data_properties_step(source, keys, w),
                    |rest: Value, w: World<'a>|
                        next(
                            assign_to_target_step(t, rest, env, depth, w),
                            |u: (), w: World<'a>|
                                assign_props_from(props, source, keys, env, depth, i + 1, w),
                        ),
                )
            },
            _ => throws(ErrorKind::SyntaxError, "invalid destructuring target", w),
        }
    }
}

/// Assigns the properties of a value to the properties of an object target.
pub open spec fn assign_props_step<'a>(
    props: &'a Vec<PropDef>,
    source: Value,
    keys: u64,
    env: Env,
    depth: u64,
    w: World<'a>,
) -> Step<'a, ()>
    decreases depth, props, 0nat, props@.len() + 1,
{
    assign_props_from(props, source, keys, env, depth, 0, w)
}

/// Assigns the properties of a value to the properties of an object target.
#[verifier::spinoff_prover]
pub fn assign_props<'h, 'a, H: Host<'a>>(
    s: &mut Session<'h, 'a, H>,
    props: &'a Vec<PropDef>,
    source: Value,
    keys: u64,
    env: Env,
    depth: u64,
) -> (out: Result<(), Abrupt<'a>>)
    ensures
        final(s).continues(*old(s)),
        forall|answers: Answers<'a>| #[trigger]
            final(s).agrees(answers) ==> old(s).agrees(answers) && (out, final(s).world(answers))
                == assign_props_step(props, source, keys, env, depth, old(s).world(answers)),
    decreases depth, props, 0nat, props@.len() + 1,
{
    let mut i: usize = 0;
    while i < props.len()
        invariant
            i <= props.len(),
            s.continues(*old(s)),
            forall|answers: Answers<'a>| #[trigger]
                s.agrees(answers) ==> old(s).agrees(answers)
                    && assign_props_step(props, source, keys, env, depth, old(s).world(answers))
                    == assign_props_from(
                        props,
                        source,
                        keys,
                        env,
                        depth,
                        i as nat,
                        s.world(answers),
                    ),
        decreases props.len() - i,
    {
        match &props[i] {
            PropDef::KeyValue { key, value } => {
                let k: Key<'a> = eval_prop_key(s, key, env, depth)?;
                let kv: Value = key_value(s, k)?;
                s.push(keys, kv);
                let u: () = assign_keyed(s, value, source, k, env, depth)?;
            },
            PropDef::Cover { key, value } => {
                let k: Key<'a> = eval_prop_key(s, key, env, depth)?;
                let kv: Value = key_value(s, k)?;
                s.push(keys, kv);
                let u: () = assign_keyed(s, value, source, k, env, depth)?;
            },
            PropDef::Proto(value) => {
                let kv: Value = key_value(s, Key::Fixed("__proto__"))?;
                s.push(keys, kv);
                let u: () = assign_keyed(s, value, source, Key::Fixed("__proto__"), env, depth)?;
            },
            PropDef::Spread(t) => {
                let rest: Value = copy_data_properties(s, source, keys)?;
                let u: () = assign_to_target(s, t, rest, env, depth)?;
            },
            _ => {
                return throw(s, ErrorKind::SyntaxError, "invalid destructuring target");
            },
        }
        i = i + 1;
    }
    return Ok(());
}

/// Assigns one property of a value to a target, or the target's default. A target that is no
/// literal is resolved before the property is read.
pub open spec fn assign_keyed_step<'a>(
    t: &'a Expr,
    source: Value,
    key: Key<'a>,
    env: Env,
    depth: u64,
    w: World<'a>,
) -> Step<'a, ()>
    decreases depth, t, 5nat, 0nat,
{
    match t {
        Expr::Assign { op, target, value } => {
            if op@ == "="@ {
                if literal_target(&**target) {
                    next(
                        asks(Request::GetMember { base: source, key }, w),
                        |v: Value, w: World<'a>|
                            next(
                                with_default_step(v, &**value, None, env, depth, w),
                                |x: Value, w: World<'a>|
                                    assign_to_target_step(&**target, x, env, depth, w),
                            ),
                    )
                } else {
                    next(
                        resolve_reference_step(&**target, env, depth, w),
                        |place: Reference<'a>, w: World<'a>|
                            next(
                                asks(Request::GetMember { base: source, key }, w),
                                |v: Value, w: World<'a>| {
                                    let n: Option<&'a String> = name_of(&**target);
                                    next(
                                        with_default_step(v, &**value, n, env, depth, w),
                                        |x: Value, w: World<'a>|
                                            put_reference_step(place, x, w),
                                    )
                                },
                            ),
                    )
                }
            } else {
                assign_plain_step(t, source, key, env, depth, w)
            }
        },
        _ => assign_plain_step(t, source, key, env, depth, w),
    }
}

/// Assigns one property of a value to a target, or the target's default. A target that is no
/// literal is resolved before the property is read.
#[verifier::spinoff_prover]
pub fn assign_keyed<'h, 'a, H: Host<'a>>(
    s: &mut Session<'h, 'a, H>,
    t: &'a Expr,
    source: Value,
    key: Key<'a>,
    env: Env,
    depth: u64,
) -> (out: Result<(), Abrupt<'a>>)
    ensures
        final(s).continues(*old(s)),
        forall|answers: Answers<'a>| #[trigger]
            final(s).agrees(answers) ==> old(s).agrees(answers) && (out, final(s).world(answers))
                == assign_keyed_step(t, source, key, env, depth, old(s).world(answers)),
    decreases depth, t, 5nat, 0nat,
{
    match t {
        Expr::Assign { op, target, value } => {
            if same_text(op, "=") {
                if is_literal_target(&**target) {
                    let v: Value = s.value(Request::GetMember { base: source, key })?;
                    let x: Value = with_default(s, v, &**value, None, env, depth)?;
                    return assign_to_target(s, &**target, x, env, depth);
                } else {
                    let place: Reference<'a> = resolve_reference(s, &**target, env, depth)?;
                    let v: Value = s.value(Request::GetMember { base: source, key })?;
                    let n: Option<&'a String> = target_name(&**target);
                    let x: Value = with_default(s, v, &**value, n, env, depth)?;
                    return put_reference(s, place, x);
                }
            } else {
                return assign_plain(s, t, source, key, env, depth);
            }
        },
        _ => {
            return assign_plain(s, t, source, key, env, depth);
        },
    }
}

/// Assigns one property of a value to a target without a default.
pub open spec fn assign_plain_step<'a>(
    t: &'a Expr,
    source: Value,
    key: Key<'a>,
    env: Env,
    depth: u64,
    w: World<'a>,
) -> Step<'a, ()>
    decreases depth, t, 4nat, 1nat,
{
    if literal_target(t) {
        next(
            asks(Request::GetMember { base: source, key }, w),
            |v: Value, w: World<'a>| assign_to_target_step(t, v, env, depth, w),
        )
    } else {
        next(
            resolve_reference_step(t, env, depth, w),
            |place: Reference<'a>, w: World<'a>|
                next(
                    asks(Request::GetMember { base: source, key }, w),
                    |v: Value, w: World<'a>| put_reference_step(place, v, w),
                ),
        )
    }
}

/// Assigns one property of a value to a target without a default.
pub fn assign_plain<'h, 'a, H: Host<'a>>(
    s: &mut Session<'h, 'a, H>,
    t: &'a Expr,
    source: Value,
    key: Key<'a>,
    env: Env,
    depth: u64,
) -> (out: Result<(), Abrupt<'a>>)
    ensures
        final(s).continues(*old(s)),
        forall|answers: Answers<'a>| #[trigger]
            final(s).agrees(answers) ==> old(s).agrees(answers) && (out, final(s).world(answers))
                == assign_plain_step(t, source, key, env, depth, old(s).world(answers)),
    decreases depth, t, 4nat, 1nat,
{
    if is_literal_target(t) {
        let v: Value = s.value(Request::GetMember { base: source, key })?;
        return assign_to_target(s, t, v, env, depth);
    } else {
        let place: Reference<'a> = resolve_reference(s, t, env, depth)?;
        let v: Value = s.value(Request::GetMember { base: source, key })?;
        return put_reference(s, place, v);
    }
}

// ---- patterns

/// Binds the names of a pattern to the parts of a value.
pub open spec fn bind_pattern_step<'a>(
    pat: &'a Pattern,
    value: Value,
    env: Env,
    mode: BindMode,
    depth: u64,
    w: World<'a>,
) -> Step<'a, ()>
    decreases depth, pat, 1nat, 0nat,
{
    match pat {
        Pattern::Ident(name) => bind_name_step(name, value, env, mode, w),
        Pattern::Array(elems) => {
            next(
                get_iterator_step(value, w),
                |it: (Value, Value), w: World<'a>| {
                    let (r, w) = bind_elems_step(elems, it.0, it.1, env, mode, depth, w);
                    close_after_step(it.0, r.1, r.0, w)
                },
            )
        },
        Pattern::Object(o) => {
            if value.is_nullish() {
                throws(ErrorKind::TypeError, "cannot destructure null or undefined", w)
            } else {
                let keys: u64 = w.next_list();
                let w = w.new_list(Seq::empty());
                next(
                    bind_props_step(&o.props, value, keys, env, mode, depth, w),
                    |u: (), w: World<'a>|
                        match &o.rest {
                            Some(name) => {
                                next(
                                    copy_data_properties_step(value, keys, w),
                                    |rest: Value, w: World<'a>|
                                        bind_name_step(name, rest, env, mode, w),
                                )
                            },
                            None => (Ok(()), w),
                        },
                )
            }
        },
        Pattern::Member(t) => assign_to_target_step(&**t, value, env, depth, w),
    }
}

/// Binds the names of a pattern to the parts of a value.
#[verifier::spinoff_prover]
pub fn bind_pattern<'h, 'a, H: Host<'a>>(
    s: &mut Session<'h, 'a, H>,
    pat: &'a Pattern,
    value: Value,
    env: Env,
    mode: BindMode,
    depth: u64,
) -> (out: Result<(), Abrupt<'a>>)
    ensures
        final(s).continues(*old(s)),
        forall|answers: Answers<'a>| #[trigger]
            final(s).agrees(answers) ==> old(s).agrees(answers) && (out, final(s).world(answers))
                == bind_pattern_step(pat, value, env, mode, depth, old(s).world(answers)),
    decreases depth, pat, 1nat, 0nat,
{
    match pat {
        Pattern::Ident(name) => {
            return bind_name(s, name, value, env, mode);
        },
        Pattern::Array(elems) => {
            let it: (Value, Value) = get_iterator(s, value)?;
            let r: (Result<(), Abrupt<'a>>, bool) = bind_elems(
                s,
                elems,
                it.0,
                it.1,
                env,
                mode,
                depth,
            );
            return close_after(s, it.0, r.1, r.0);
        },
        Pattern::Object(o) => {
            if value.is_nullish() {
                return throw(s, ErrorKind::TypeError, "cannot destructure null or undefined");
            }
            let keys: u64 = s.new_list(Vec::new());
            let u: () = bind_props(s, &o.props, value, keys, env, mode, depth)?;
            match &o.rest {
                Some(name) => {
                    let rest: Value = copy_data_properties(s, value, keys)?;
                    return bind_name(s, name, rest, env, mode);
                },
                None => {
                    return Ok(());
                },
            }
        },
        Pattern::Member(t) => {
            return assign_to_target(s, &**t, value, env, depth);
        },
    }
}

/// Binds the elements of an array pattern. From the item at `i` on.
pub open spec fn bind_elems_from<'a>(
    elems: &'a Vec<ArrayPatElem>,
    iter: Value,
    method: Value,
    env: Env,
    mode: BindMode,
    depth: u64,
    i: nat,
    done: bool,
    w: World<'a>,
) -> ((Result<(), Abrupt<'a>>, bool), World<'a>)
    decreases depth, elems, 0nat, elems@.len() - i,
{
    if i >= elems@.len() {
        ((Ok(()), done), w)
    } else {
        let (r, w) = bind_elem_step(&elems@[i as int], iter, method, done, env, mode, depth, w);
        match r.0 {
            Ok(_) => bind_elems_from(elems, iter, method, env, mode, depth, i + 1, r.1, w),
            Err(a) => ((Err(a), r.1), w),
        }
    }
}

/// Binds the elements of an array pattern.
pub open spec fn bind_elems_step<'a>(
    elems: &'a Vec<ArrayPatElem>,
    iter: Value,
    method: Value,
    env: Env,
    mode: BindMode,
    depth: u64,
    w: World<'a>,
) -> ((Result<(), Abrupt<'a>>, bool), World<'a>)
    decreases depth, elems, 0nat, elems@.len() + 1,
{
    bind_elems_from(elems, iter, method, env, mode, depth, 0, false, w)
}

/// Binds the elements of an array pattern.
pub fn bind_elems<'h, 'a, H: Host<'a>>(
    s: &mut Session<'h, 'a, H>,
    elems: &'a Vec<ArrayPatElem>,
    iter: Value,
    method: Value,
    env: Env,
    mode: BindMode,
    depth: u64,
) -> (out: (Result<(), Abrupt<'a>>, bool))
    ensures
        final(s).continues(*old(s)),
        forall|answers: Answers<'a>| #[trigger]
            final(s).agrees(answers) ==> old(s).agrees(answers) && (out, final(s).world(answers))
                == bind_elems_step(elems, iter, method, env, mode, depth, old(s).world(answers)),
    decreases depth, elems, 0nat, elems@.len() + 1,
{
    let mut done: bool = false;
    let mut i: usize = 0;
    while i < elems.len()
        invariant
            i <= elems.len(),
            s.continues(*old(s)),
            forall|answers: Answers<'a>| #[trigger]
                s.agrees(answers) ==> old(s).agrees(answers)
                    && bind_elems_step(elems, iter, method, env, mode, depth, old(s).world(answers))
                    == bind_elems_from(
                        elems,
                        iter,
                        method,
                        env,
                        mode,
                        depth,
                        i as nat,
                        done,
                        s.world(answers),
                    ),
        decreases elems.len() - i,
    {
        let r: (Result<(), Abrupt<'a>>, bool) = bind_elem(
            s,
            &elems[i],
            iter,
            method,
            done,
            env,
            mode,
            depth,
        );
        match r.0 {
            Ok(_) => {
                done = r.1;
            },
            Err(a) => {
                return (Err(a), r.1);
            },
        }
        i = i + 1;
    }
    return (Ok(()), done);
}

/// The name that a pattern is, for naming an anonymous function after it.
pub open spec fn default_for_step<'a>(
    v: Value,
    default: &'a Option<Expr>,
    name: Option<&'a String>,
    env: Env,
    depth: u64,
    w: World<'a>,
) -> Step<'a, Value>
    decreases depth, default, 1nat, 0nat,
{
    match default {
        Some(d) => with_default_step(v, d, name, env, depth, w),
        None => (Ok(v), w),
    }
}

/// The name that a pattern is, for naming an anonymous function after it.
pub fn default_for<'h, 'a, H: Host<'a>>(
    s: &mut Session<'h, 'a, H>,
    v: Value,
    default: &'a Option<Expr>,
    name: Option<&'a String>,
    env: Env,
    depth: u64,
) -> (out: Result<Value, Abrupt<'a>>)
    ensures
        final(s).continues(*old(s)),
        forall|answers: Answers<'a>| #[trigger]
            final(s).agrees(answers) ==> old(s).agrees(answers) && (out, final(s).world(answers))
                == default_for_step(v, default, name, env, depth, old(s).world(answers)),
    decreases depth, default, 1nat, 0nat,
{
    match default {
        Some(d) => {
            return with_default(s, v, d, name, env, depth);
        },
        None => {
            return Ok(v);
        },
    }
}

/// Binds one element of an array pattern.
pub open spec fn bind_elem_step<'a>(
    el: &'a ArrayPatElem,
    iter: Value,
    method: Value,
    done: bool,
    env: Env,
    mode: BindMode,
    depth: u64,
    w: World<'a>,
) -> ((Result<(), Abrupt<'a>>, bool), World<'a>)
    decreases depth, el, 0nat, 0nat,
{
    match el {
        ArrayPatElem::Hole => {
            let (p, w) = pull_step(iter, method, done, w);
            match p.0 {
                Ok(_) => ((Ok(()), p.1), w),
                Err(a) => ((Err(a), p.1), w),
            }
        },
        ArrayPatElem::Elem { pattern, default } => {
            let (p, w) = pull_step(iter, method, done, w);
            match p.0 {
                Ok(v) => {
                    let n: Option<&'a String> = pattern_name_of(pattern);
                    let (x, w) = default_for_step(v, default, n, env, depth, w);
                    match x {
                        Ok(x) => {
                            let (r, w) = bind_pattern_step(pattern, x, env, mode, depth, w);
                            ((r, p.1), w)
                        },
                        Err(a) => ((Err(a), p.1), w),
                    }
                },
                Err(a) => ((Err(a), p.1), w),
            }
        },
        ArrayPatElem::Rest(pattern) => {
            let (rest, w) = pull_rest_step(iter, method, done, w);
            match rest {
                Ok(arr) => {
                    let (r, w) = bind_pattern_step(pattern, arr, env, mode, depth, w);
                    ((r, true), w)
                },
                Err(a) => ((Err(a), true), w),
            }
        },
    }
}

/// Binds one element of an array pattern.
#[verifier::spinoff_prover]
pub fn bind_elem<'h, 'a, H: Host<'a>>(
    s: &mut Session<'h, 'a, H>,
    el: &'a ArrayPatElem,
    iter: Value,
    method: Value,
    done: bool,
    env: Env,
    mode: BindMode,
    depth: u64,
) -> (out: (Result<(), Abrupt<'a>>, bool))
    ensures
        final(s).continues(*old(s)),
        forall|answers: Answers<'a>| #[trigger]
            final(s).agrees(answers) ==> old(s).agrees(answers) && (out, final(s).world(answers))
                == bind_elem_step(el, iter, method, done, env, mode, depth, old(s).world(answers)),
    decreases depth, el, 0nat, 0nat,
{
    match el {
        ArrayPatElem::Hole => {
            let p: (Completion<'a>, bool) = pull(s, iter, method, done);
            match p.0 {
                Ok(_) => {
                    return (Ok(()), p.1);
                },
                Err(a) => {
                    return (Err(a), p.1);
                },
            }
        },
        ArrayPatElem::Elem { pattern, default } => {
            let p: (Completion<'a>, bool) = pull(s, iter, method, done);
            match p.0 {
                Ok(v) => {
                    let n: Option<&'a String> = pattern_name(pattern);
                    let x: Completion<'a> = default_for(s, v, default, n, env, depth);
                    match x {
                        Ok(x) => {
                            let r: Result<(), Abrupt<'a>> = bind_pattern(
                                s,
                                pattern,
                                x,
                                env,
                                mode,
                                depth,
                            );
                            return (r, p.1);
                        },
                        Err(a) => {
                            return (Err(a), p.1);
                        },
                    }
                },
                Err(a) => {
                    return (Err(a), p.1);
                },
            }
        },
        ArrayPatElem::Rest(pattern) => {
            let rest: Completion<'a> = pull_rest(s, iter, method, done);
            match rest {
                Ok(arr) => {
                    let r: Result<(), Abrupt<'a>> = bind_pattern(s, pattern, arr, env, mode, depth);
                    return (r, true);
                },
                Err(a) => {
                    return (Err(a), true);
                },
            }
        },
    }
}

/// Binds the properties of an object pattern. From the item at `i` on.
pub open spec fn bind_props_from<'a>(
    props: &'a Vec<ObjPatProp>,
    source: Value,
    keys: u64,
    env: Env,
    mode: BindMode,
    depth: u64,
    i: nat,
    w: World<'a>,
) -> Step<'a, ()>
    decreases depth, props, 0nat, props@.len() - i,
{
    if i >= props@.len() {
        (Ok(()), w)
    } else {
        next(
            bind_prop_step(&props@[i as int], source, keys, env, mode, depth, w),
            |u: (), w: World<'a>| bind_props_from(props, source, keys, env, mode, depth, i + 1, w),
        )
    }
}

/// Binds the properties of an object pattern.
pub open spec fn bind_props_step<'a>(
    props: &'a Vec<ObjPatProp>,
    source: Value,
    keys: u64,
    env: Env,
    mode: BindMode,
    depth: u64,
    w: World<'a>,
) -> Step<'a, ()>
    decreases depth, props, 0nat, props@.len() + 1,
{
    bind_props_from(props, source, keys, env, mode, depth, 0, w)
}

/// Binds the properties of an object pattern.
pub fn bind_props<'h, 'a, H: Host<'a>>(
    s: &mut Session<'h, 'a, H>,
    props: &'a Vec<ObjPatProp>,
    source: Value,
    keys: u64,
    env: Env,
    mode: BindMode,
    depth: u64,
) -> (out: Result<(), Abrupt<'a>>)
    ensures
        final(s).continues(*old(s)),
        forall|answers: Answers<'a>| #[trigger]
            final(s).agrees(answers) ==> old(s).agrees(answers) && (out, final(s).world(answers))
                == bind_props_step(props, source, keys, env, mode, depth, old(s).world(answers)),
    decreases depth, props, 0nat, props@.len() + 1,
{
    let mut i: usize = 0;
    while i < props.len()
        invariant
            i <= props.len(),
            s.continues(*old(s)),
            forall|answers: Answers<'a>| #[trigger]
                s.agrees(answers) ==> old(s).agrees(answers)
                    && bind_props_step(props, source, keys, env, mode, depth, old(s).world(answers))
                    == bind_props_from(
                        props,
                        source,
                        keys,
                        env,
                        mode,
                        depth,
                        i as nat,
                        s.world(answers),
                    ),
        decreases props.len() - i,
    {
        let u: () = bind_prop(s, &props[i], source, keys, env, mode, depth)?;
        i = i + 1;
    }
    return Ok(());
}

/// Binds one property of an object pattern. In a `var` declaration a name is resolved before the
/// property is read.
pub open spec fn bind_prop_step<'a>(
    p: &'a ObjPatProp,
    source: Value,
    keys: u64,
    env: Env,
    mode: BindMode,
    depth: u64,
    w: World<'a>,
) -> Step<'a, ()>
    decreases depth, p, 0nat, 0nat,
{
    next(
        eval_prop_key_step(&p.key, env, depth, w),
        |key: Key<'a>, w: World<'a>|
            next(
                key_value_step(key, w),
                |kv: Value, w: World<'a>| {
                    let w = w.push(keys, kv);
                    let n: Option<&'a String> = pattern_name_of(&p.value);
                    match n {
                        Some(name) => {
                            if matches!(mode, BindMode::Var) {
                                next(
                                    resolve_name_step(name, env, w),
                                    |place: RefBase, w: World<'a>|
                                        next(
                                            asks(Request::GetMember { base: source, key }, w),
                                            |v: Value, w: World<'a>|
                                                next(
                                                    default_for_step(
                                                        v,
                                                        &p.default,
                                                        n,
                                                        env,
                                                        depth,
                                                        w,
                                                    ),
                                                    |x: Value, w: World<'a>|
                                                        put_resolved_step(place, name, x, w),
                                                ),
                                        ),
                                )
                            } else {
                                next(
                                    asks(Request::GetMember { base: source, key }, w),
                                    |v: Value, w: World<'a>|
                                        next(
                                            default_for_step(v, &p.default, n, env, depth, w),
                                            |x: Value, w: World<'a>|
                                                bind_name_step(name, x, env, mode, w),
                                        ),
                                )
                            }
                        },
                        None => {
                            next(
                                asks(Request::GetMember { base: source, key }, w),
                                |v: Value, w: World<'a>|
                                    next(
                                        default_for_step(v, &p.default, None, env, depth, w),
                                        |x: Value, w: World<'a>|
                                            bind_pattern_step(&p.value, x, env, mode, depth, w),
                                    ),
                            )
                        },
                    }
                },
            ),
    )
}

/// Binds one property of an object pattern. In a `var` declaration a name is resolved before the
/// property is read.
#[verifier::spinoff_prover]
pub fn bind_prop<'h, 'a, H: Host<'a>>(
    s: &mut Session<'h, 'a, H>,
    p: &'a ObjPatProp,
    source: Value,
    keys: u64,
    env: Env,
    mode: BindMode,
    depth: u64,
) -> (out: Result<(), Abrupt<'a>>)
    ensures
        final(s).continues(*old(s)),
        forall|answers: Answers<'a>| #[trigger]
            final(s).agrees(answers) ==> old(s).agrees(answers) && (out, final(s).world(answers))
                == bind_prop_step(p, source, keys, env, mode, depth, old(s).world(answers)),
    decreases depth, p, 0nat, 0nat,
{
    let key: Key<'a> = eval_prop_key(s, &p.key, env, depth)?;
    let kv: Value = key_value(s, key)?;
    s.push(keys, kv);
    let n: Option<&'a String> = pattern_name(&p.value);
    match n {
        Some(name) => {
            if matches!(mode, BindMode::Var) {
                let place: RefBase = resolve_name(s, name, env)?;
                let v: Value = s.value(Request::GetMember { base: source, key })?;
                let x: Value = default_for(s, v, &p.default, n, env, depth)?;
                return put_resolved(s, place, name, x);
            } else {
                let v: Value = s.value(Request::GetMember { base: source, key })?;
                let x: Value = default_for(s, v, &p.default, n, env, depth)?;
                return bind_name(s, name, x, env, mode);
            }
        },
        None => {
            let v: Value = s.value(Request::GetMember { base: source, key })?;
            let x: Value = default_for(s, v, &p.default, None, env, depth)?;
            return bind_pattern(s, &p.value, x, env, mode, depth);
        },
    }
}

} // verus!
