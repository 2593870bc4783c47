//! The early errors of class bodies: `super(..)` and `arguments` where they may not stand.
use vstd::prelude::*;

use crate::ast::{
    ArrayElem, Expr, ForInit, Function, Param, Pattern, PropDef, PropKey, Stmt, SwitchCase,
};
use crate::text::same_text;

verus! {

/// The first of two faults.
pub open spec fn first_of(a: Option<&'static str>, b: Option<&'static str>) -> Option<&'static str> {
    match a {
        Some(m) => Some(m),
        None => b,
    }
}

/// `arguments`, where it is not allowed.
pub open spec fn fault_of_name(name: Seq<char>, in_field: bool) -> Option<&'static str> {
    if in_field && name == "arguments"@ {
        Some("'arguments' is not allowed in a class field initializer")
    } else {
        None
    }
}

fn arguments_fault(name: &String, in_field: bool) -> (r: Option<&'static str>)
    ensures
        r == fault_of_name(name@, in_field),
{
    if in_field && same_text(name.as_str(), "arguments") {
        Some("'arguments' is not allowed in a class field initializer")
    } else {
        None
    }
}

/// A call of `super`.
pub open spec fn fault_of_callee(callee: &Expr) -> Option<&'static str> {
    if *callee is Super {
        Some("a super call is not allowed here")
    } else {
        None
    }
}

fn super_call_fault(callee: &Expr) -> (r: Option<&'static str>)
    ensures
        r == fault_of_callee(callee),
{
    if matches!(callee, Expr::Super) {
        Some("a super call is not allowed here")
    } else {
        None
    }
}

/// What a statement holds that is not allowed in its place, arrow functions included, other functions and classes not.
pub open spec fn stmt_fault(x: &Stmt, in_field: bool) -> Option<&'static str>
    decreases x, 0nat,
{
    match x {
        Stmt::Expr(e) => expr_fault(e, in_field),
        Stmt::Throw(e) => expr_fault(e, in_field),
        Stmt::Return(v) => (match v {
            Some(e) => expr_fault(e, in_field),
            None => None,
        }),
        Stmt::VarDecl { kind: _, decls } => decls_fault_from(decls@, in_field, 0),
        Stmt::If { test, cons, alt } => first_of(expr_fault(test, in_field), first_of(stmt_fault(&**cons, in_field), (match alt {
            Some(a) => stmt_fault(&**a, in_field),
            None => None,
        }))),
        Stmt::Block(b) => stmts_fault_from(b@, in_field, 0),
        Stmt::While { test, body } => first_of(expr_fault(test, in_field), stmt_fault(&**body, in_field)),
        Stmt::DoWhile { body, test } => first_of(expr_fault(test, in_field), stmt_fault(&**body, in_field)),
        Stmt::For { init, test, update, body } => first_of((match init {
            Some(h) => init_fault(&**h, in_field),
            None => None,
        }), first_of((match test {
            Some(e) => expr_fault(e, in_field),
            None => None,
        }), first_of((match update {
            Some(e) => expr_fault(e, in_field),
            None => None,
        }), stmt_fault(&**body, in_field)))),
        Stmt::ForInOf { decl: _, left: _, right, of: _, is_await: _, body } => first_of(expr_fault(right, in_field), stmt_fault(&**body, in_field)),
        Stmt::Try { block, handler, finalizer } => first_of(stmts_fault_from(block@, in_field, 0), first_of((match handler {
            Some(h) => stmts_fault_from(h.1@, in_field, 0),
            None => None,
        }), (match finalizer {
            Some(f) => stmts_fault_from(f@, in_field, 0),
            None => None,
        }))),
        Stmt::Switch { disc, cases } => first_of(expr_fault(disc, in_field), cases_fault_from(cases@, in_field, 0)),
        Stmt::Labeled { label: _, body } => stmt_fault(&**body, in_field),
        Stmt::With { obj: _, body } => stmt_fault(&**body, in_field),
        _ => None,
    }
}

/// What a statement holds that is not allowed in its place, arrow functions included, other functions and classes not.
#[verifier::spinoff_prover]
pub fn fi_stmt(x: &Stmt, in_field: bool) -> (r: Option<&'static str>)
    ensures
        r == stmt_fault(x, in_field),
    decreases x, 0nat,
{
    match x {
        Stmt::Expr(e) => {
            let found = fi_expr(e, in_field);
            if found.is_some() {
                return found;
            }
        },
        Stmt::Throw(e) => {
            let found = fi_expr(e, in_field);
            if found.is_some() {
                return found;
            }
        },
        Stmt::Return(v) => {
            match v {
                Some(e) => {
                    let found = fi_expr(e, in_field);
                    if found.is_some() {
                        return found;
                    }
                },
                None => {},
            }
        },
        Stmt::VarDecl { kind: _, decls } => {
            let found = fi_decls(decls, in_field);
            if found.is_some() {
                return found;
            }
        },
        Stmt::If { test, cons, alt } => {
            let found = fi_expr(test, in_field);
            if found.is_some() {
                return found;
            }
            let found = fi_stmt(&**cons, in_field);
            if found.is_some() {
                return found;
            }
            match alt {
                Some(a) => {
                    let found = fi_stmt(&**a, in_field);
                    if found.is_some() {
                        return found;
                    }
                },
                None => {},
            }
        },
        Stmt::Block(b) => {
            let found = fi_stmts(b, in_field);
            if found.is_some() {
                return found;
            }
        },
        Stmt::While { test, body } => {
            let found = fi_expr(test, in_field);
            if found.is_some() {
                return found;
            }
            let found = fi_stmt(&**body, in_field);
            if found.is_some() {
                return found;
            }
        },
        Stmt::DoWhile { body, test } => {
            let found = fi_expr(test, in_field);
            if found.is_some() {
                return found;
            }
            let found = fi_stmt(&**body, in_field);
            if found.is_some() {
                return found;
            }
        },
        Stmt::For { init, test, update, body } => {
            match init {
                Some(h) => {
                    let found = fi_init(&**h, in_field);
                    if found.is_some() {
                        return found;
                    }
                },
                None => {},
            }
            match test {
                Some(e) => {
                    let found = fi_expr(e, in_field);
                    if found.is_some() {
                        return found;
                    }
                },
                None => {},
            }
            match update {
                Some(e) => {
                    let found = fi_expr(e, in_field);
                    if found.is_some() {
                        return found;
                    }
                },
                None => {},
            }
            let found = fi_stmt(&**body, in_field);
            if found.is_some() {
                return found;
            }
        },
        Stmt::ForInOf { decl: _, left: _, right, of: _, is_await: _, body } => {
            let found = fi_expr(right, in_field);
            if found.is_some() {
                return found;
            }
            let found = fi_stmt(&**body, in_field);
            if found.is_some() {
                return found;
            }
        },
        Stmt::Try { block, handler, finalizer } => {
            let found = fi_stmts(block, in_field);
            if found.is_some() {
                return found;
            }
            match handler {
                Some(h) => {
                    let found = fi_stmts(&h.1, in_field);
                    if found.is_some() {
                        return found;
                    }
                },
                None => {},
            }
            match finalizer {
                Some(f) => {
                    let found = fi_stmts(f, in_field);
                    if found.is_some() {
                        return found;
                    }
                },
                None => {},
            }
        },
        Stmt::Switch { disc, cases } => {
            let found = fi_expr(disc, in_field);
            if found.is_some() {
                return found;
            }
            let found = fi_cases(cases, in_field);
            if found.is_some() {
                return found;
            }
        },
        Stmt::Labeled { label: _, body } => {
            let found = fi_stmt(&**body, in_field);
            if found.is_some() {
                return found;
            }
        },
        Stmt::With { obj: _, body } => {
            let found = fi_stmt(&**body, in_field);
            if found.is_some() {
                return found;
            }
        },
        _ => {
        },
    }
    None
}

/// What an expression holds that is not allowed in its place, arrow functions included, other functions and classes not.
pub open spec fn expr_fault(x: &Expr, in_field: bool) -> Option<&'static str>
    decreases x, 0nat,
{
    match x {
        Expr::Ident(n) => fault_of_name(n@, in_field),
        Expr::Call { callee, args, optional: _ } => first_of(fault_of_callee(&**callee), first_of(expr_fault(&**callee, in_field), elems_fault_from(args@, in_field, 0))),
        Expr::New { callee, args } => first_of(expr_fault(&**callee, in_field), elems_fault_from(args@, in_field, 0)),
        Expr::Unary { op: _, arg } => expr_fault(&**arg, in_field),
        Expr::Update { op: _, prefix: _, arg } => expr_fault(&**arg, in_field),
        Expr::Await(arg) => expr_fault(&**arg, in_field),
        Expr::Binary { op: _, left, right } => first_of(expr_fault(&**left, in_field), expr_fault(&**right, in_field)),
        Expr::Logical { op: _, left, right } => first_of(expr_fault(&**left, in_field), expr_fault(&**right, in_field)),
        Expr::Assign { op: _, target, value } => first_of(expr_fault(&**target, in_field), expr_fault(&**value, in_field)),
        Expr::Cond { test, cons, alt } => first_of(expr_fault(&**test, in_field), first_of(expr_fault(&**cons, in_field), expr_fault(&**alt, in_field))),
        Expr::Member { obj, prop: _, optional: _ } => expr_fault(&**obj, in_field),
        Expr::OptionalChain(obj) => expr_fault(&**obj, in_field),
        Expr::Index { obj, index, optional: _ } => first_of(expr_fault(&**obj, in_field), expr_fault(&**index, in_field)),
        Expr::Sequence(v) => exprs_fault_from(v@, in_field, 0),
        Expr::Array(elems) => elems_fault_from(elems@, in_field, 0),
        Expr::Yield { delegate: _, arg } => (match arg {
            Some(a) => expr_fault(&**a, in_field),
            None => None,
        }),
        Expr::ImportCall { spec, phase: _, options: _ } => expr_fault(&**spec, in_field),
        Expr::PrivateIn { name: _, obj } => expr_fault(&**obj, in_field),
        Expr::TaggedTemplate { tag, quasis: _, subs } => first_of(expr_fault(&**tag, in_field), exprs_fault_from(subs@, in_field, 0)),
        Expr::Object(props) => props_fault_from(props@, in_field, 0),
        Expr::Func(f) => if f.is_arrow {
            first_of(params_fault_from(f.params@, in_field, 0), stmts_fault_from(f.body@, in_field, 0))
        } else {
            None
        },
        _ => None,
    }
}

/// What an expression holds that is not allowed in its place, arrow functions included, other functions and classes not.
#[verifier::spinoff_prover]
pub fn fi_expr(x: &Expr, in_field: bool) -> (r: Option<&'static str>)
    ensures
        r == expr_fault(x, in_field),
    decreases x, 0nat,
{
    match x {
        Expr::Ident(n) => {
            let found = arguments_fault(n, in_field);
            if found.is_some() {
                return found;
            }
        },
        Expr::Call { callee, args, optional: _ } => {
            let found = super_call_fault(&**callee);
            if found.is_some() {
                return found;
            }
            let found = fi_expr(&**callee, in_field);
            if found.is_some() {
                return found;
            }
            let found = fi_arr(args, in_field);
            if found.is_some() {
                return found;
            }
        },
        Expr::New { callee, args } => {
            let found = fi_expr(&**callee, in_field);
            if found.is_some() {
                return found;
            }
            let found = fi_arr(args, in_field);
            if found.is_some() {
                return found;
            }
        },
        Expr::Unary { op: _, arg } => {
            let found = fi_expr(&**arg, in_field);
            if found.is_some() {
                return found;
            }
        },
        Expr::Update { op: _, prefix: _, arg } => {
            let found = fi_expr(&**arg, in_field);
            if found.is_some() {
                return found;
            }
        },
        Expr::Await(arg) => {
            let found = fi_expr(&**arg, in_field);
            if found.is_some() {
                return found;
            }
        },
        Expr::Binary { op: _, left, right } => {
            let found = fi_expr(&**left, in_field);
            if found.is_some() {
                return found;
            }
            let found = fi_expr(&**right, in_field);
            if found.is_some() {
                return found;
            }
        },
        Expr::Logical { op: _, left, right } => {
            let found = fi_expr(&**left, in_field);
            if found.is_some() {
                return found;
            }
            let found = fi_expr(&**right, in_field);
            if found.is_some() {
                return found;
            }
        },
        Expr::Assign { op: _, target, value } => {
            let found = fi_expr(&**target, in_field);
            if found.is_some() {
                return found;
            }
            let found = fi_expr(&**value, in_field);
            if found.is_some() {
                return found;
            }
        },
        Expr::Cond { test, cons, alt } => {
            let found = fi_expr(&**test, in_field);
            if found.is_some() {
                return found;
            }
            let found = fi_expr(&**cons, in_field);
            if found.is_some() {
                return found;
            }
            let found = fi_expr(&**alt, in_field);
            if found.is_some() {
                return found;
            }
        },
        Expr::Member { obj, prop: _, optional: _ } => {
            let found = fi_expr(&**obj, in_field);
            if found.is_some() {
                return found;
            }
        },
        Expr::OptionalChain(obj) => {
            let found = fi_expr(&**obj, in_field);
            if found.is_some() {
                return found;
            }
        },
        Expr::Index { obj, index, optional: _ } => {
            let found = fi_expr(&**obj, in_field);
            if found.is_some() {
                return found;
            }
            let found = fi_expr(&**index, in_field);
            if found.is_some() {
                return found;
            }
        },
        Expr::Sequence(v) => {
            let found = fi_exprs(v, in_field);
            if found.is_some() {
                return found;
            }
        },
        Expr::Array(elems) => {
            let found = fi_arr(elems, in_field);
            if found.is_some() {
                return found;
            }
        },
        Expr::Yield { delegate: _, arg } => {
            match arg {
                Some(a) => {
                    let found = fi_expr(&**a, in_field);
                    if found.is_some() {
                        return found;
                    }
                },
                None => {},
            }
        },
        Expr::ImportCall { spec, phase: _, options: _ } => {
            let found = fi_expr(&**spec, in_field);
            if found.is_some() {
                return found;
            }
        },
        Expr::PrivateIn { name: _, obj } => {
            let found = fi_expr(&**obj, in_field);
            if found.is_some() {
                return found;
            }
        },
        Expr::TaggedTemplate { tag, quasis: _, subs } => {
            let found = fi_expr(&**tag, in_field);
            if found.is_some() {
                return found;
            }
            let found = fi_exprs(subs, in_field);
            if found.is_some() {
                return found;
            }
        },
        Expr::Object(props) => {
            let found = fi_props(props, in_field);
            if found.is_some() {
                return found;
            }
        },
        Expr::Func(f) => {
            if f.is_arrow {
                let found = fi_params(&f.params, in_field);
                if found.is_some() {
                    return found;
                }
                let found = fi_stmts(&f.body, in_field);
                if found.is_some() {
                    return found;
                }
            }
        },
        _ => {
        },
    }
    None
}

/// What a declaration holds that is not allowed in its place, arrow functions included, other functions and classes not.
pub open spec fn decl_fault(x: &(Pattern, Option<Expr>), in_field: bool) -> Option<&'static str>
    decreases x, 0nat,
{
    match x {
        (_, init) => (match init {
            Some(e) => expr_fault(e, in_field),
            None => None,
        }),
    }
}

/// What a declaration holds that is not allowed in its place, arrow functions included, other functions and classes not.
#[verifier::spinoff_prover]
pub fn fi_decl(x: &(Pattern, Option<Expr>), in_field: bool) -> (r: Option<&'static str>)
    ensures
        r == decl_fault(x, in_field),
    decreases x, 0nat,
{
    match x {
        (_, init) => {
            match init {
                Some(e) => {
                    let found = fi_expr(e, in_field);
                    if found.is_some() {
                        return found;
                    }
                },
                None => {},
            }
        },
    }
    None
}

/// What a loop head holds that is not allowed in its place, arrow functions included, other functions and classes not.
pub open spec fn init_fault(x: &ForInit, in_field: bool) -> Option<&'static str>
    decreases x, 0nat,
{
    match x {
        ForInit::VarDecl { kind: _, decls } => decls_fault_from(decls@, in_field, 0),
        ForInit::Expr(e) => expr_fault(e, in_field),
    }
}

/// What a loop head holds that is not allowed in its place, arrow functions included, other functions and classes not.
#[verifier::spinoff_prover]
pub fn fi_init(x: &ForInit, in_field: bool) -> (r: Option<&'static str>)
    ensures
        r == init_fault(x, in_field),
    decreases x, 0nat,
{
    match x {
        ForInit::VarDecl { kind: _, decls } => {
            let found = fi_decls(decls, in_field);
            if found.is_some() {
                return found;
            }
        },
        ForInit::Expr(e) => {
            let found = fi_expr(e, in_field);
            if found.is_some() {
                return found;
            }
        },
    }
    None
}

/// What a case holds that is not allowed in its place, arrow functions included, other functions and classes not.
pub open spec fn case_fault(x: &SwitchCase, in_field: bool) -> Option<&'static str>
    decreases x, 0nat,
{
    match x {
        SwitchCase { test, body } => first_of((match test {
            Some(e) => expr_fault(e, in_field),
            None => None,
        }), stmts_fault_from(body@, in_field, 0)),
    }
}

/// What a case holds that is not allowed in its place, arrow functions included, other functions and classes not.
#[verifier::spinoff_prover]
pub fn fi_case(x: &SwitchCase, in_field: bool) -> (r: Option<&'static str>)
    ensures
        r == case_fault(x, in_field),
    decreases x, 0nat,
{
    match x {
        SwitchCase { test, body } => {
            match test {
                Some(e) => {
                    let found = fi_expr(e, in_field);
                    if found.is_some() {
                        return found;
                    }
                },
                None => {},
            }
            let found = fi_stmts(body, in_field);
            if found.is_some() {
                return found;
            }
        },
    }
    None
}

/// What an element holds that is not allowed in its place, arrow functions included, other functions and classes not.
pub open spec fn elem_fault(x: &ArrayElem, in_field: bool) -> Option<&'static str>
    decreases x, 0nat,
{
    match x {
        ArrayElem::Item(e) => expr_fault(e, in_field),
        ArrayElem::Spread(e) => expr_fault(e, in_field),
        ArrayElem::Hole => None,
    }
}

/// What an element holds that is not allowed in its place, arrow functions included, other functions and classes not.
#[verifier::spinoff_prover]
pub fn fi_elem(x: &ArrayElem, in_field: bool) -> (r: Option<&'static str>)
    ensures
        r == elem_fault(x, in_field),
    decreases x, 0nat,
{
    match x {
        ArrayElem::Item(e) => {
            let found = fi_expr(e, in_field);
            if found.is_some() {
                return found;
            }
        },
        ArrayElem::Spread(e) => {
            let found = fi_expr(e, in_field);
            if found.is_some() {
                return found;
            }
        },
        ArrayElem::Hole => {
        },
    }
    None
}

/// What a property holds that is not allowed in its place, arrow functions included, other functions and classes not.
pub open spec fn prop_fault(x: &PropDef, in_field: bool) -> Option<&'static str>
    decreases x, 0nat,
{
    match x {
        PropDef::KeyValue { key, value } => first_of(key_fault(key, in_field), expr_fault(value, in_field)),
        PropDef::Cover { key, value } => first_of(key_fault(key, in_field), expr_fault(value, in_field)),
        PropDef::Spread(e) => expr_fault(e, in_field),
        PropDef::Proto(e) => expr_fault(e, in_field),
        PropDef::Method { key, func: _ } => key_fault(key, in_field),
        PropDef::Getter { key, func: _ } => key_fault(key, in_field),
        PropDef::Setter { key, func: _ } => key_fault(key, in_field),
    }
}

/// What a property holds that is not allowed in its place, arrow functions included, other functions and classes not.
#[verifier::spinoff_prover]
pub fn fi_prop(x: &PropDef, in_field: bool) -> (r: Option<&'static str>)
    ensures
        r == prop_fault(x, in_field),
    decreases x, 0nat,
{
    match x {
        PropDef::KeyValue { key, value } => {
            let found = fi_key(key, in_field);
            if found.is_some() {
                return found;
            }
            let found = fi_expr(value, in_field);
            if found.is_some() {
                return found;
            }
        },
        PropDef::Cover { key, value } => {
            let found = fi_key(key, in_field);
            if found.is_some() {
                return found;
            }
            let found = fi_expr(value, in_field);
            if found.is_some() {
                return found;
            }
        },
        PropDef::Spread(e) => {
            let found = fi_expr(e, in_field);
            if found.is_some() {
                return found;
            }
        },
        PropDef::Proto(e) => {
            let found = fi_expr(e, in_field);
            if found.is_some() {
                return found;
            }
        },
        PropDef::Method { key, func: _ } => {
            let found = fi_key(key, in_field);
            if found.is_some() {
                return found;
            }
        },
        PropDef::Getter { key, func: _ } => {
            let found = fi_key(key, in_field);
            if found.is_some() {
                return found;
            }
        },
        PropDef::Setter { key, func: _ } => {
            let found = fi_key(key, in_field);
            if found.is_some() {
                return found;
            }
        },
    }
    None
}

/// What a parameter holds that is not allowed in its place, arrow functions included, other functions and classes not.
pub open spec fn param_fault(x: &Param, in_field: bool) -> Option<&'static str>
    decreases x, 0nat,
{
    match x {
        Param { pattern: _, default, rest: _ } => (match default {
            Some(e) => expr_fault(e, in_field),
            None => None,
        }),
    }
}

/// What a parameter holds that is not allowed in its place, arrow functions included, other functions and classes not.
#[verifier::spinoff_prover]
pub fn fi_param(x: &Param, in_field: bool) -> (r: Option<&'static str>)
    ensures
        r == param_fault(x, in_field),
    decreases x, 0nat,
{
    match x {
        Param { pattern: _, default, rest: _ } => {
            match default {
                Some(e) => {
                    let found = fi_expr(e, in_field);
                    if found.is_some() {
                        return found;
                    }
                },
                None => {},
            }
        },
    }
    None
}

/// What a key holds that is not allowed in its place, arrow functions included, other functions and classes not.
pub open spec fn key_fault(x: &PropKey, in_field: bool) -> Option<&'static str>
    decreases x, 0nat,
{
    match x {
        PropKey::Computed(e) => expr_fault(e, in_field),
        _ => None,
    }
}

/// What a key holds that is not allowed in its place, arrow functions included, other functions and classes not.
#[verifier::spinoff_prover]
pub fn fi_key(x: &PropKey, in_field: bool) -> (r: Option<&'static str>)
    ensures
        r == key_fault(x, in_field),
    decreases x, 0nat,
{
    match x {
        PropKey::Computed(e) => {
            let found = fi_expr(e, in_field);
            if found.is_some() {
                return found;
            }
        },
        _ => {
        },
    }
    None
}

/// What any of the statements holds that is not allowed in its place, arrow functions included, other functions and classes not. From the one at `i` on.
pub open spec fn stmts_fault_from(v: Seq<Stmt>, in_field: bool, i: nat) -> Option<&'static str>
    decreases v, v.len() - i,
{
    if i >= v.len() {
        None
    } else {
        first_of(stmt_fault(&v[i as int], in_field), stmts_fault_from(v, in_field, i + 1))
    }
}

/// What any of the statements holds that is not allowed in its place, arrow functions included, other functions and classes not.
pub fn fi_stmts(v: &Vec<Stmt>, in_field: bool) -> (r: Option<&'static str>)
    ensures
        r == stmts_fault_from(v@, in_field, 0),
    decreases v@, v@.len() + 1,
{
    let mut i: usize = 0;
    while i < v.len()
        invariant
            i <= v.len(),
            stmts_fault_from(v@, in_field, 0) == stmts_fault_from(v@, in_field, i as nat),
        decreases v.len() - i,
    {
        let found = fi_stmt(&v[i], in_field);
        if found.is_some() {
            return found;
        }
        i = i + 1;
    }
    None
}

/// What any of the expressions holds that is not allowed in its place, arrow functions included, other functions and classes not. From the one at `i` on.
pub open spec fn exprs_fault_from(v: Seq<Expr>, in_field: bool, i: nat) -> Option<&'static str>
    decreases v, v.len() - i,
{
    if i >= v.len() {
        None
    } else {
        first_of(expr_fault(&v[i as int], in_field), exprs_fault_from(v, in_field, i + 1))
    }
}

/// What any of the expressions holds that is not allowed in its place, arrow functions included, other functions and classes not.
pub fn fi_exprs(v: &Vec<Expr>, in_field: bool) -> (r: Option<&'static str>)
    ensures
        r == exprs_fault_from(v@, in_field, 0),
    decreases v@, v@.len() + 1,
{
    let mut i: usize = 0;
    while i < v.len()
        invariant
            i <= v.len(),
            exprs_fault_from(v@, in_field, 0) == exprs_fault_from(v@, in_field, i as nat),
        decreases v.len() - i,
    {
        let found = fi_expr(&v[i], in_field);
        if found.is_some() {
            return found;
        }
        i = i + 1;
    }
    None
}

/// What any of the declarations holds that is not allowed in its place, arrow functions included, other functions and classes not. From the one at `i` on.
pub open spec fn decls_fault_from(v: Seq<(Pattern, Option<Expr>)>, in_field: bool, i: nat) -> Option<&'static str>
    decreases v, v.len() - i,
{
    if i >= v.len() {
        None
    } else {
        first_of(decl_fault(&v[i as int], in_field), decls_fault_from(v, in_field, i + 1))
    }
}

/// What any of the declarations holds that is not allowed in its place, arrow functions included, other functions and classes not.
pub fn fi_decls(v: &Vec<(Pattern, Option<Expr>)>, in_field: bool) -> (r: Option<&'static str>)
    ensures
        r == decls_fault_from(v@, in_field, 0),
    decreases v@, v@.len() + 1,
{
    let mut i: usize = 0;
    while i < v.len()
        invariant
            i <= v.len(),
            decls_fault_from(v@, in_field, 0) == decls_fault_from(v@, in_field, i as nat),
        decreases v.len() - i,
    {
        let found = fi_decl(&v[i], in_field);
        if found.is_some() {
            return found;
        }
        i = i + 1;
    }
    None
}

/// What any of the cases holds that is not allowed in its place, arrow functions included, other functions and classes not. From the one at `i` on.
pub open spec fn cases_fault_from(v: Seq<SwitchCase>, in_field: bool, i: nat) -> Option<&'static str>
    decreases v, v.len() - i,
{
    if i >= v.len() {
        None
    } else {
        first_of(case_fault(&v[i as int], in_field), cases_fault_from(v, in_field, i + 1))
    }
}

/// What any of the cases holds that is not allowed in its place, arrow functions included, other functions and classes not.
pub fn fi_cases(v: &Vec<SwitchCase>, in_field: bool) -> (r: Option<&'static str>)
    ensures
        r == cases_fault_from(v@, in_field, 0),
    decreases v@, v@.len() + 1,
{
    let mut i: usize = 0;
    while i < v.len()
        invariant
            i <= v.len(),
            cases_fault_from(v@, in_field, 0) == cases_fault_from(v@, in_field, i as nat),
        decreases v.len() - i,
    {
        let found = fi_case(&v[i], in_field);
        if found.is_some() {
            return found;
        }
        i = i + 1;
    }
    None
}

/// What any of the elements holds that is not allowed in its place, arrow functions included, other functions and classes not. From the one at `i` on.
pub open spec fn elems_fault_from(v: Seq<ArrayElem>, in_field: bool, i: nat) -> Option<&'static str>
    decreases v, v.len() - i,
{
    if i >= v.len() {
        None
    } else {
        first_of(elem_fault(&v[i as int], in_field), elems_fault_from(v, in_field, i + 1))
    }
}

/// What any of the elements holds that is not allowed in its place, arrow functions included, other functions and classes not.
pub fn fi_arr(v: &Vec<ArrayElem>, in_field: bool) -> (r: Option<&'static str>)
    ensures
        r == elems_fault_from(v@, in_field, 0),
    decreases v@, v@.len() + 1,
{
    let mut i: usize = 0;
    while i < v.len()
        invariant
            i <= v.len(),
            elems_fault_from(v@, in_field, 0) == elems_fault_from(v@, in_field, i as nat),
        decreases v.len() - i,
    {
        let found = fi_elem(&v[i], in_field);
        if found.is_some() {
            return found;
        }
        i = i + 1;
    }
    None
}

/// What any of the properties holds that is not allowed in its place, arrow functions included, other functions and classes not. From the one at `i` on.
pub open spec fn props_fault_from(v: Seq<PropDef>, in_field: bool, i: nat) -> Option<&'static str>
    decreases v, v.len() - i,
{
    if i >= v.len() {
        None
    } else {
        first_of(prop_fault(&v[i as int], in_field), props_fault_from(v, in_field, i + 1))
    }
}

/// What any of the properties holds that is not allowed in its place, arrow functions included, other functions and classes not.
pub fn fi_props(v: &Vec<PropDef>, in_field: bool) -> (r: Option<&'static str>)
    ensures
        r == props_fault_from(v@, in_field, 0),
    decreases v@, v@.len() + 1,
{
    let mut i: usize = 0;
    while i < v.len()
        invariant
            i <= v.len(),
            props_fault_from(v@, in_field, 0) == props_fault_from(v@, in_field, i as nat),
        decreases v.len() - i,
    {
        let found = fi_prop(&v[i], in_field);
        if found.is_some() {
            return found;
        }
        i = i + 1;
    }
    None
}

/// What any of the parameters holds that is not allowed in its place, arrow functions included, other functions and classes not. From the one at `i` on.
pub open spec fn params_fault_from(v: Seq<Param>, in_field: bool, i: nat) -> Option<&'static str>
    decreases v, v.len() - i,
{
    if i >= v.len() {
        None
    } else {
        first_of(param_fault(&v[i as int], in_field), params_fault_from(v, in_field, i + 1))
    }
}

/// What any of the parameters holds that is not allowed in its place, arrow functions included, other functions and classes not.
pub fn fi_params(v: &Vec<Param>, in_field: bool) -> (r: Option<&'static str>)
    ensures
        r == params_fault_from(v@, in_field, 0),
    decreases v@, v@.len() + 1,
{
    let mut i: usize = 0;
    while i < v.len()
        invariant
            i <= v.len(),
            params_fault_from(v@, in_field, 0) == params_fault_from(v@, in_field, i as nat),
        decreases v.len() - i,
    {
        let found = fi_param(&v[i], in_field);
        if found.is_some() {
            return found;
        }
        i = i + 1;
    }
    None
}

/// The fault of a field's initial value, if there is one.
pub fn field_init_error(e: &Expr) -> (r: Option<&'static str>)
    ensures
        r == expr_fault(e, true),
{
    fi_expr(e, true)
}

/// The fault of a static block, if there is one.
pub fn static_block_error(func: &Function) -> (r: Option<&'static str>)
    ensures
        r == stmts_fault_from(func.body@, true, 0),
{
    fi_stmts(&func.body, true)
}

/// The fault of code outside any class, if there is one: a `super(..)` call.
pub fn top_level_super_call_error(body: &Vec<Stmt>) -> (r: Option<&'static str>)
    ensures
        r == stmts_fault_from(body@, false, 0),
{
    fi_stmts(body, false)
}

/// The fault of a method that is no constructor, if there is one: a `super(..)` call in its parameters
/// or its body.
pub fn method_super_call_error_full(func: &Function) -> (r: Option<&'static str>)
    ensures
        r == first_of(
            params_fault_from(func.params@, false, 0),
            stmts_fault_from(func.body@, false, 0),
        ),
{
    let found = fi_params(&func.params, false);
    if found.is_some() {
        return found;
    }
    fi_stmts(&func.body, false)
}

} // verus!
