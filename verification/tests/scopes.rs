//! Scopes, evaluated code and promises.
use lumen::ast::{Expr, Stmt};
use lumen::interp::session::{Name, Value};
use lumen::jobs::{Jobs, Reaction, Status};
use lumen::number::from_int;
use lumen::scope::dynamic::{global_sync, EvalPlace, GlobalSync};
use lumen::scope::{
    can_declare_global_function, can_declare_global_var, Binding, GlobalProperty, Put, Scopes,
    Stop, Write,
};

fn num(n: i64) -> Value {
    Value::Num(from_int(n))
}

fn constant<'a>(value: Value) -> Binding<'a> {
    Binding {
        value,
        mutable: false,
        strict_immutable: true,
        initialized: true,
        import_ref: None,
        deletable: false,
    }
}

#[test]
fn names_are_found_outwards() {
    let mut s = Scopes::new();
    s.bind(0, "x", num(1));
    let inner = s.new_scope(Some(0), None, false, false);
    assert_eq!(s.find(inner, "x"), Some(0));
    assert_eq!(s.peek_binding("x", inner), Some(num(1)));
    s.bind(inner, "x", num(2));
    assert_eq!(s.find(inner, "x"), Some(inner));
    assert_eq!(s.peek_binding("x", 0), Some(num(1)));
    assert_eq!(s.find(inner, "y"), None);
    assert_eq!((s.outer(inner), s.outer(0)), (Some(0), None));
    assert!(s.has_binding(inner, "x") && !s.has_binding(inner, "y"));
    assert_eq!(s.nearest_var_env(inner), 0);
}

#[test]
fn writes_respect_constants() {
    let mut s = Scopes::new();
    s.bind(0, "x", num(1));
    s.insert(0, "c", constant(num(5)));
    assert_eq!(s.write(0, "x", num(2), true), Write::Stored);
    assert_eq!(s.value_at(0, "x"), num(2));
    assert_eq!(s.write(0, "c", num(6), false), Write::Refused);
    assert_eq!(s.value_at(0, "c"), num(5));
    assert!(!s.is_deletable(0, "c"));
    assert!(!s.delete(0, "c"));
}

#[test]
fn names_before_their_declaration() {
    let mut s = Scopes::new();
    s.insert(0, "x", Binding { initialized: false, ..constant(Value::Undefined) });
    assert!(s.binding_in_tdz("x", 0, 10));
    assert!(s.in_dead_zone(0, "x"));
    s.init_lexical("x", num(3), true, 0);
    assert!(!s.binding_in_tdz("x", 0, 10));
    assert_eq!(s.value_at(0, "x"), num(3));
}

#[test]
fn searches_stop_at_with() {
    let mut s = Scopes::new();
    s.bind(0, "x", num(1));
    let with = s.new_scope(Some(0), Some(Value::Obj(4)), false, false);
    let inner = s.new_scope(Some(with), None, false, false);
    assert!(matches!(s.search(inner, "x"), Stop::With(e, _) if e == with));
    assert!(matches!(s.search_behind(with, "x"), Stop::Scope(0)));
    assert_eq!(s.plain_binding_scope("x", inner), None);
    assert_eq!(s.plain_binding_scope("x", 0), Some(0));
}

#[test]
fn places_of_evaluated_code() {
    let mut s = Scopes::new();
    let function = s.new_scope(Some(0), None, false, true);
    assert_eq!(s.eval_place(function, false, false), s.eval_place(0, false, false));
    assert_ne!(s.eval_place(function, true, true), s.eval_place(function, true, false));
    assert_eq!(s.eval_place(function, true, true), EvalPlace::Own(function));
    assert_eq!(s.eval_place(function, true, false), EvalPlace::Shared(function, function));
    assert_eq!(s.eval_place(function, false, false), EvalPlace::Shared(0, 0));
}

#[test]
fn global_declarations() {
    let fixed = GlobalProperty { configurable: false, writable: false, enumerable: false, accessor: false };
    let plain = GlobalProperty { configurable: true, writable: true, enumerable: true, accessor: false };
    assert!(can_declare_global_var(None, true));
    assert!(!can_declare_global_var(None, false));
    assert!(can_declare_global_var(Some(fixed), false));
    assert!(can_declare_global_function(Some(plain), false));
    assert!(!can_declare_global_function(Some(fixed), true));
    assert_eq!(global_sync(None, true), GlobalSync::Add);
    assert_eq!(global_sync(None, false), GlobalSync::Nothing);
    assert_eq!(global_sync(Some(plain), false), GlobalSync::SetValue);
    assert_eq!(global_sync(Some(fixed), true), GlobalSync::Nothing);
}

#[test]
fn promises_settle_once() {
    let mut j = Jobs::new();
    j.added(1);
    assert_eq!(j.status(1), Some(Status::Pending));
    let r = Reaction { on_fulfilled: Value::Obj(5), on_rejected: Value::Obj(6), result: Value::Obj(7) };
    j.promise_then_into(1, r);
    j.settle(1, num(4), true);
    j.settle(1, num(9), false);
    assert_eq!(j.status(1), Some(Status::Fulfilled(num(4))));
    let job = j.pop().unwrap();
    assert_eq!((job.handler, job.result, job.value, job.fulfilled), (Value::Obj(5), Value::Obj(7), num(4), true));
    assert!(j.pop().is_none() && !j.is_pending());
    assert_eq!(j.status(2), None);
}

#[test]
fn rejections_are_reported_unless_handled() {
    let mut j = Jobs::new();
    j.added(1);
    j.added(2);
    j.settle(1, num(1), false);
    j.settle(2, num(2), false);
    let r = Reaction {
        on_fulfilled: Value::Undefined,
        on_rejected: Value::Obj(6),
        result: Value::Undefined,
    };
    j.promise_then_into(2, r);
    assert_eq!(j.take_unhandled(), vec![num(1)]);
    assert!(j.take_unhandled().is_empty());
    assert!(j.is_pending());
}

#[test]
fn imports_cannot_be_assigned() {
    let mut s = Scopes::new();
    let module = s.new_scope(Some(0), None, false, true);
    let other = s.new_scope(Some(0), None, false, true);
    s.bind(other, "x", num(3));
    s.bind_import(module, "y", other, Name::Fixed("x"));
    s.bind_local(module, "ns", num(4));
    let source = s.import_source(module, "y");
    assert!(matches!(source, Some((e, n)) if e == other && n.text() == "x"));
    assert_eq!(s.may_put(module, "y", false), Put::Import);
    assert_eq!(s.write(module, "y", num(5), false), Write::Refused);
    assert_eq!(s.write(module, "ns", num(5), true), Write::Refused);
    assert_eq!(s.value_at(module, "ns"), num(4));
    assert!(!s.delete(module, "y"));
}

#[test]
fn default_exports_wait_for_their_value() {
    let body = vec![Stmt::ExportDefault(Box::new(Stmt::Expr(Expr::Ident("a".to_string()))))];
    let mut s = Scopes::new();
    s.declare_default_placeholder(&vec![Stmt::Empty], 0);
    assert!(!s.has_binding(0, "*default*"));
    s.declare_default_placeholder(&body, 0);
    assert!(s.in_dead_zone(0, "*default*"));
}
