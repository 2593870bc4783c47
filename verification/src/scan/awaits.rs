//! Whether a module waits while it runs.
use vstd::prelude::*;

use crate::ast::{
    ArrayElem, ArrayPatElem, Class, DeclKind, Expr, ForInit, ObjPatProp, Pattern, PropDef, PropKey, Stmt,
    SwitchCase,
};

verus! {

/// Whether a statement waits, outside any function or class.
pub open spec fn stmt_awaits(x: &Stmt) -> bool
    decreases x, 0nat,
{
    match x {
        Stmt::Expr(e) => expr_awaits(e),
        Stmt::Throw(e) => expr_awaits(e),
        Stmt::Return(v) => (match v {
            Some(e) => expr_awaits(e),
            None => false,
        }),
        Stmt::VarDecl { kind, decls } => *kind == DeclKind::AwaitUsing || decls_await_from(decls@, 0),
        Stmt::If { test, cons, alt } => expr_awaits(test) || stmt_awaits(&**cons) || (match alt {
            Some(a) => stmt_awaits(&**a),
            None => false,
        }),
        Stmt::Block(b) => stmts_await_from(b@, 0),
        Stmt::While { test, body } => expr_awaits(test) || stmt_awaits(&**body),
        Stmt::DoWhile { body, test } => expr_awaits(test) || stmt_awaits(&**body),
        Stmt::For { init, test, update, body } => (match init {
            Some(h) => init_awaits(&**h),
            None => false,
        }) || (match test {
            Some(e) => expr_awaits(e),
            None => false,
        }) || (match update {
            Some(e) => expr_awaits(e),
            None => false,
        }) || stmt_awaits(&**body),
        Stmt::ForInOf { decl, left, right, of: _, is_await, body } => *is_await || *decl == Some(DeclKind::AwaitUsing) || pattern_awaits(left) || expr_awaits(right) || stmt_awaits(&**body),
        Stmt::Try { block, handler, finalizer } => stmts_await_from(block@, 0) || (match handler {
            Some(h) => (match &h.0 {
                Some(p) => pattern_awaits(p),
                None => false,
            }) || stmts_await_from(h.1@, 0),
            None => false,
        }) || (match finalizer {
            Some(f) => stmts_await_from(f@, 0),
            None => false,
        }),
        Stmt::Switch { disc, cases } => expr_awaits(disc) || cases_await_from(cases@, 0),
        Stmt::Labeled { label: _, body } => stmt_awaits(&**body),
        Stmt::With { obj, body } => expr_awaits(obj) || stmt_awaits(&**body),
        Stmt::ClassDecl(c) => class_awaits(&**c),
        Stmt::ExportDefault(inner) => stmt_awaits(&**inner),
        Stmt::ExportDecl(inner) => stmt_awaits(&**inner),
        _ => false,
    }
}

/// Whether a statement waits, outside any function or class.
#[verifier::spinoff_prover]
pub fn stmt_has_await(x: &Stmt) -> (r: bool)
    ensures
        r == stmt_awaits(x),
    decreases x, 0nat,
{
    match x {
        Stmt::Expr(e) => {
            if expr_has_await(e) {
                return true;
            }
        },
        Stmt::Throw(e) => {
            if expr_has_await(e) {
                return true;
            }
        },
        Stmt::Return(v) => {
            match v {
                Some(e) => {
                    if expr_has_await(e) {
                        return true;
                    }
                },
                None => {},
            }
        },
        Stmt::VarDecl { kind, decls } => {
            if *kind == DeclKind::AwaitUsing {
                return true;
            }
            if decls_have_await(decls) {
                return true;
            }
        },
        Stmt::If { test, cons, alt } => {
            if expr_has_await(test) {
                return true;
            }
            if stmt_has_await(&**cons) {
                return true;
            }
            match alt {
                Some(a) => {
                    if stmt_has_await(&**a) {
                        return true;
                    }
                },
                None => {},
            }
        },
        Stmt::Block(b) => {
            if body_has_tla(b) {
                return true;
            }
        },
        Stmt::While { test, body } => {
            if expr_has_await(test) {
                return true;
            }
            if stmt_has_await(&**body) {
                return true;
            }
        },
        Stmt::DoWhile { body, test } => {
            if expr_has_await(test) {
                return true;
            }
            if stmt_has_await(&**body) {
                return true;
            }
        },
        Stmt::For { init, test, update, body } => {
            match init {
                Some(h) => {
                    if init_has_await(&**h) {
                        return true;
                    }
                },
                None => {},
            }
            match test {
                Some(e) => {
                    if expr_has_await(e) {
                        return true;
                    }
                },
                None => {},
            }
            match update {
                Some(e) => {
                    if expr_has_await(e) {
                        return true;
                    }
                },
                None => {},
            }
            if stmt_has_await(&**body) {
                return true;
            }
        },
        Stmt::ForInOf { decl, left, right, of: _, is_await, body } => {
            if *is_await || *decl == Some(DeclKind::AwaitUsing) {
                return true;
            }
            if pattern_has_await(left) {
                return true;
            }
            if expr_has_await(right) {
                return true;
            }
            if stmt_has_await(&**body) {
                return true;
            }
        },
        Stmt::Try { block, handler, finalizer } => {
            if body_has_tla(block) {
                return true;
            }
            match handler {
                Some(h) => {
                    match &h.0 {
                        Some(p) => {
                            if pattern_has_await(p) {
                                return true;
                            }
                        },
                        None => {},
                    }
                    if body_has_tla(&h.1) {
                        return true;
                    }
                },
                None => {},
            }
            match finalizer {
                Some(f) => {
                    if body_has_tla(f) {
                        return true;
                    }
                },
                None => {},
            }
        },
        Stmt::Switch { disc, cases } => {
            if expr_has_await(disc) {
                return true;
            }
            if cases_have_await(cases) {
                return true;
            }
        },
        Stmt::Labeled { label: _, body } => {
            if stmt_has_await(&**body) {
                return true;
            }
        },
        Stmt::With { obj, body } => {
            if expr_has_await(obj) {
                return true;
            }
            if stmt_has_await(&**body) {
                return true;
            }
        },
        Stmt::ClassDecl(c) => {
            if class_has_await(&**c) {
                return true;
            }
        },
        Stmt::ExportDefault(inner) => {
            if stmt_has_await(&**inner) {
                return true;
            }
        },
        Stmt::ExportDecl(inner) => {
            if stmt_has_await(&**inner) {
                return true;
            }
        },
        _ => {
        },
    }
    false
}

/// Whether an expression waits, outside any function or class.
pub open spec fn expr_awaits(x: &Expr) -> bool
    decreases x, 0nat,
{
    match x {
        Expr::Await(_) => true,
        Expr::Paren(e) => expr_awaits(&**e),
        Expr::ToStr(e) => expr_awaits(&**e),
        Expr::OptionalChain(e) => expr_awaits(&**e),
        Expr::Unary { op: _, arg } => expr_awaits(&**arg),
        Expr::Update { op: _, prefix: _, arg } => expr_awaits(&**arg),
        Expr::Binary { op: _, left, right } => expr_awaits(&**left) || expr_awaits(&**right),
        Expr::Logical { op: _, left, right } => expr_awaits(&**left) || expr_awaits(&**right),
        Expr::Assign { op: _, target, value } => expr_awaits(&**target) || expr_awaits(&**value),
        Expr::Cond { test, cons, alt } => expr_awaits(&**test) || expr_awaits(&**cons) || expr_awaits(&**alt),
        Expr::Call { callee, args, optional: _ } => expr_awaits(&**callee) || elems_await_from(args@, 0),
        Expr::New { callee, args } => expr_awaits(&**callee) || elems_await_from(args@, 0),
        Expr::Member { obj, prop: _, optional: _ } => expr_awaits(&**obj),
        Expr::Index { obj, index, optional: _ } => expr_awaits(&**obj) || expr_awaits(&**index),
        Expr::Sequence(v) => exprs_await_from(v@, 0),
        Expr::Array(elems) => elems_await_from(elems@, 0),
        Expr::Object(props) => props_await_from(props@, 0),
        Expr::Yield { delegate: _, arg } => (match arg {
            Some(a) => expr_awaits(&**a),
            None => false,
        }),
        Expr::TaggedTemplate { tag, quasis: _, subs } => expr_awaits(&**tag) || exprs_await_from(subs@, 0),
        Expr::PrivateIn { name: _, obj } => expr_awaits(&**obj),
        Expr::Class(c) => class_awaits(&**c),
        Expr::ImportCall { spec, phase: _, options } => expr_awaits(&**spec) || (match options {
            Some(o) => expr_awaits(&**o),
            None => false,
        }),
        _ => false,
    }
}

/// Whether an expression waits, outside any function or class.
#[verifier::spinoff_prover]
pub fn expr_has_await(x: &Expr) -> (r: bool)
    ensures
        r == expr_awaits(x),
    decreases x, 0nat,
{
    match x {
        Expr::Await(_) => {
            return true;
        },
        Expr::Paren(e) => {
            if expr_has_await(&**e) {
                return true;
            }
        },
        Expr::ToStr(e) => {
            if expr_has_await(&**e) {
                return true;
            }
        },
        Expr::OptionalChain(e) => {
            if expr_has_await(&**e) {
                return true;
            }
        },
        Expr::Unary { op: _, arg } => {
            if expr_has_await(&**arg) {
                return true;
            }
        },
        Expr::Update { op: _, prefix: _, arg } => {
            if expr_has_await(&**arg) {
                return true;
            }
        },
        Expr::Binary { op: _, left, right } => {
            if expr_has_await(&**left) {
                return true;
            }
            if expr_has_await(&**right) {
                return true;
            }
        },
        Expr::Logical { op: _, left, right } => {
            if expr_has_await(&**left) {
                return true;
            }
            if expr_has_await(&**right) {
                return true;
            }
        },
        Expr::Assign { op: _, target, value } => {
            if expr_has_await(&**target) {
                return true;
            }
            if expr_has_await(&**value) {
                return true;
            }
        },
        Expr::Cond { test, cons, alt } => {
            if expr_has_await(&**test) {
                return true;
            }
            if expr_has_await(&**cons) {
                return true;
            }
            if expr_has_await(&**alt) {
                return true;
            }
        },
        Expr::Call { callee, args, optional: _ } => {
            if expr_has_await(&**callee) {
                return true;
            }
            if elems_have_await(args) {
                return true;
            }
        },
        Expr::New { callee, args } => {
            if expr_has_await(&**callee) {
                return true;
            }
            if elems_have_await(args) {
                return true;
            }
        },
        Expr::Member { obj, prop: _, optional: _ } => {
            if expr_has_await(&**obj) {
                return true;
            }
        },
        Expr::Index { obj, index, optional: _ } => {
            if expr_has_await(&**obj) {
                return true;
            }
            if expr_has_await(&**index) {
                return true;
            }
        },
        Expr::Sequence(v) => {
            if exprs_have_await(v) {
                return true;
            }
        },
        Expr::Array(elems) => {
            if elems_have_await(elems) {
                return true;
            }
        },
        Expr::Object(props) => {
            if props_have_await(props) {
                return true;
            }
        },
        Expr::Yield { delegate: _, arg } => {
            match arg {
                Some(a) => {
                    if expr_has_await(&**a) {
                        return true;
                    }
                },
                None => {},
            }
        },
        Expr::TaggedTemplate { tag, quasis: _, subs } => {
            if expr_has_await(&**tag) {
                return true;
            }
            if exprs_have_await(subs) {
                return true;
            }
        },
        Expr::PrivateIn { name: _, obj } => {
            if expr_has_await(&**obj) {
                return true;
            }
        },
        Expr::Class(c) => {
            if class_has_await(&**c) {
                return true;
            }
        },
        Expr::ImportCall { spec, phase: _, options } => {
            if expr_has_await(&**spec) {
                return true;
            }
            match options {
                Some(o) => {
                    if expr_has_await(&**o) {
                        return true;
                    }
                },
                None => {},
            }
        },
        _ => {
        },
    }
    false
}

/// Whether a declaration waits, outside any function or class.
pub open spec fn decl_awaits(x: &(Pattern, Option<Expr>)) -> bool
    decreases x, 0nat,
{
    match x {
        (p, init) => pattern_awaits(p) || (match init {
            Some(e) => expr_awaits(e),
            None => false,
        }),
    }
}

/// Whether a declaration waits, outside any function or class.
#[verifier::spinoff_prover]
pub fn decl_has_await(x: &(Pattern, Option<Expr>)) -> (r: bool)
    ensures
        r == decl_awaits(x),
    decreases x, 0nat,
{
    match x {
        (p, init) => {
            if pattern_has_await(p) {
                return true;
            }
            match init {
                Some(e) => {
                    if expr_has_await(e) {
                        return true;
                    }
                },
                None => {},
            }
        },
    }
    false
}

/// Whether a loop head waits, outside any function or class.
pub open spec fn init_awaits(x: &ForInit) -> bool
    decreases x, 0nat,
{
    match x {
        ForInit::VarDecl { kind, decls } => *kind == DeclKind::AwaitUsing || decls_await_from(decls@, 0),
        ForInit::Expr(e) => expr_awaits(e),
    }
}

/// Whether a loop head waits, outside any function or class.
#[verifier::spinoff_prover]
pub fn init_has_await(x: &ForInit) -> (r: bool)
    ensures
        r == init_awaits(x),
    decreases x, 0nat,
{
    match x {
        ForInit::VarDecl { kind, decls } => {
            if *kind == DeclKind::AwaitUsing {
                return true;
            }
            if decls_have_await(decls) {
                return true;
            }
        },
        ForInit::Expr(e) => {
            if expr_has_await(e) {
                return true;
            }
        },
    }
    false
}

/// Whether a case waits, outside any function or class.
pub open spec fn case_awaits(x: &SwitchCase) -> bool
    decreases x, 0nat,
{
    match x {
        SwitchCase { test, body } => (match test {
            Some(e) => expr_awaits(e),
            None => false,
        }) || stmts_await_from(body@, 0),
    }
}

/// Whether a case waits, outside any function or class.
#[verifier::spinoff_prover]
pub fn case_has_await(x: &SwitchCase) -> (r: bool)
    ensures
        r == case_awaits(x),
    decreases x, 0nat,
{
    match x {
        SwitchCase { test, body } => {
            match test {
                Some(e) => {
                    if expr_has_await(e) {
                        return true;
                    }
                },
                None => {},
            }
            if body_has_tla(body) {
                return true;
            }
        },
    }
    false
}

/// Whether an element waits, outside any function or class.
pub open spec fn elem_awaits(x: &ArrayElem) -> bool
    decreases x, 0nat,
{
    match x {
        ArrayElem::Item(e) => expr_awaits(e),
        ArrayElem::Spread(e) => expr_awaits(e),
        ArrayElem::Hole => false,
    }
}

/// Whether an element waits, outside any function or class.
#[verifier::spinoff_prover]
pub fn elem_has_await(x: &ArrayElem) -> (r: bool)
    ensures
        r == elem_awaits(x),
    decreases x, 0nat,
{
    match x {
        ArrayElem::Item(e) => {
            if expr_has_await(e) {
                return true;
            }
        },
        ArrayElem::Spread(e) => {
            if expr_has_await(e) {
                return true;
            }
        },
        ArrayElem::Hole => {
        },
    }
    false
}

/// Whether a property waits, outside any function or class.
pub open spec fn prop_awaits(x: &PropDef) -> bool
    decreases x, 0nat,
{
    match x {
        PropDef::KeyValue { key, value } => key_awaits(key) || expr_awaits(value),
        PropDef::Cover { key, value } => key_awaits(key) || expr_awaits(value),
        PropDef::Spread(e) => expr_awaits(e),
        PropDef::Proto(e) => expr_awaits(e),
        PropDef::Method { key, func: _ } => key_awaits(key),
        PropDef::Getter { key, func: _ } => key_awaits(key),
        PropDef::Setter { key, func: _ } => key_awaits(key),
    }
}

/// Whether a property waits, outside any function or class.
#[verifier::spinoff_prover]
pub fn prop_has_await(x: &PropDef) -> (r: bool)
    ensures
        r == prop_awaits(x),
    decreases x, 0nat,
{
    match x {
        PropDef::KeyValue { key, value } => {
            if key_has_await(key) {
                return true;
            }
            if expr_has_await(value) {
                return true;
            }
        },
        PropDef::Cover { key, value } => {
            if key_has_await(key) {
                return true;
            }
            if expr_has_await(value) {
                return true;
            }
        },
        PropDef::Spread(e) => {
            if expr_has_await(e) {
                return true;
            }
        },
        PropDef::Proto(e) => {
            if expr_has_await(e) {
                return true;
            }
        },
        PropDef::Method { key, func: _ } => {
            if key_has_await(key) {
                return true;
            }
        },
        PropDef::Getter { key, func: _ } => {
            if key_has_await(key) {
                return true;
            }
        },
        PropDef::Setter { key, func: _ } => {
            if key_has_await(key) {
                return true;
            }
        },
    }
    false
}

/// Whether a key waits, outside any function or class.
pub open spec fn key_awaits(x: &PropKey) -> bool
    decreases x, 0nat,
{
    match x {
        PropKey::Computed(e) => expr_awaits(e),
        _ => false,
    }
}

/// Whether a key waits, outside any function or class.
#[verifier::spinoff_prover]
pub fn key_has_await(x: &PropKey) -> (r: bool)
    ensures
        r == key_awaits(x),
    decreases x, 0nat,
{
    match x {
        PropKey::Computed(e) => {
            if expr_has_await(e) {
                return true;
            }
        },
        _ => {
        },
    }
    false
}

/// Whether a pattern waits, outside any function or class.
pub open spec fn pattern_awaits(x: &Pattern) -> bool
    decreases x, 0nat,
{
    match x {
        Pattern::Ident(_) => false,
        Pattern::Array(v) => parts_await_from(v@, 0),
        Pattern::Object(o) => fields_await_from(o.props@, 0),
        Pattern::Member(e) => expr_awaits(&**e),
    }
}

/// Whether a pattern waits, outside any function or class.
#[verifier::spinoff_prover]
pub fn pattern_has_await(x: &Pattern) -> (r: bool)
    ensures
        r == pattern_awaits(x),
    decreases x, 0nat,
{
    match x {
        Pattern::Ident(_) => {
        },
        Pattern::Array(v) => {
            if parts_have_await(v) {
                return true;
            }
        },
        Pattern::Object(o) => {
            if fields_have_await(&o.props) {
                return true;
            }
        },
        Pattern::Member(e) => {
            if expr_has_await(&**e) {
                return true;
            }
        },
    }
    false
}

/// Whether an element of a pattern waits, outside any function or class.
pub open spec fn part_awaits(x: &ArrayPatElem) -> bool
    decreases x, 0nat,
{
    match x {
        ArrayPatElem::Hole => false,
        ArrayPatElem::Elem { pattern, default } => pattern_awaits(pattern) || (match default {
            Some(e) => expr_awaits(e),
            None => false,
        }),
        ArrayPatElem::Rest(p) => pattern_awaits(p),
    }
}

/// Whether an element of a pattern waits, outside any function or class.
#[verifier::spinoff_prover]
pub fn part_has_await(x: &ArrayPatElem) -> (r: bool)
    ensures
        r == part_awaits(x),
    decreases x, 0nat,
{
    match x {
        ArrayPatElem::Hole => {
        },
        ArrayPatElem::Elem { pattern, default } => {
            if pattern_has_await(pattern) {
                return true;
            }
            match default {
                Some(e) => {
                    if expr_has_await(e) {
                        return true;
                    }
                },
                None => {},
            }
        },
        ArrayPatElem::Rest(p) => {
            if pattern_has_await(p) {
                return true;
            }
        },
    }
    false
}

/// Whether a property of a pattern waits, outside any function or class.
pub open spec fn field_awaits(x: &ObjPatProp) -> bool
    decreases x, 0nat,
{
    match x {
        ObjPatProp { key, value, default } => key_awaits(key) || pattern_awaits(value) || (match default {
            Some(e) => expr_awaits(e),
            None => false,
        }),
    }
}

/// Whether a property of a pattern waits, outside any function or class.
#[verifier::spinoff_prover]
pub fn field_has_await(x: &ObjPatProp) -> (r: bool)
    ensures
        r == field_awaits(x),
    decreases x, 0nat,
{
    match x {
        ObjPatProp { key, value, default } => {
            if key_has_await(key) {
                return true;
            }
            if pattern_has_await(value) {
                return true;
            }
            match default {
                Some(e) => {
                    if expr_has_await(e) {
                        return true;
                    }
                },
                None => {},
            }
        },
    }
    false
}

/// Whether the head of a class waits, outside any function or class.
pub open spec fn class_awaits(x: &Class) -> bool
    decreases x, 0nat,
{
    match x {
        Class { name: _, superclass, members: _, decorators, source: _ } => (match superclass {
            Some(e) => expr_awaits(&**e),
            None => false,
        }) || exprs_await_from(decorators@, 0),
    }
}

/// Whether the head of a class waits, outside any function or class.
#[verifier::spinoff_prover]
pub fn class_has_await(x: &Class) -> (r: bool)
    ensures
        r == class_awaits(x),
    decreases x, 0nat,
{
    match x {
        Class { name: _, superclass, members: _, decorators, source: _ } => {
            match superclass {
                Some(e) => {
                    if expr_has_await(&**e) {
                        return true;
                    }
                },
                None => {},
            }
            if exprs_have_await(decorators) {
                return true;
            }
        },
    }
    false
}

/// Whether a module's body waits: an `await`, a `for await` or an `await using` outside any function or class. From the one at `i` on.
pub open spec fn stmts_await_from(v: Seq<Stmt>, i: nat) -> bool
    decreases v, v.len() - i,
{
    if i >= v.len() {
        false
    } else {
        stmt_awaits(&v[i as int]) || stmts_await_from(v, i + 1)
    }
}

/// Whether a module's body waits: an `await`, a `for await` or an `await using` outside any function or class.
pub fn body_has_tla(v: &Vec<Stmt>) -> (r: bool)
    ensures
        r == stmts_await_from(v@, 0),
    decreases v@, v@.len() + 1,
{
    let mut i: usize = 0;
    while i < v.len()
        invariant
            i <= v.len(),
            stmts_await_from(v@, 0) == stmts_await_from(v@, i as nat),
        decreases v.len() - i,
    {
        if stmt_has_await(&v[i]) {
            return true;
        }
        i = i + 1;
    }
    false
}

/// Whether any of the expressions waits, outside any function or class. From the one at `i` on.
pub open spec fn exprs_await_from(v: Seq<Expr>, i: nat) -> bool
    decreases v, v.len() - i,
{
    if i >= v.len() {
        false
    } else {
        expr_awaits(&v[i as int]) || exprs_await_from(v, i + 1)
    }
}

/// Whether any of the expressions waits, outside any function or class.
pub fn exprs_have_await(v: &Vec<Expr>) -> (r: bool)
    ensures
        r == exprs_await_from(v@, 0),
    decreases v@, v@.len() + 1,
{
    let mut i: usize = 0;
    while i < v.len()
        invariant
            i <= v.len(),
            exprs_await_from(v@, 0) == exprs_await_from(v@, i as nat),
        decreases v.len() - i,
    {
        if expr_has_await(&v[i]) {
            return true;
        }
        i = i + 1;
    }
    false
}

/// Whether any of the declarations waits, outside any function or class. From the one at `i` on.
pub open spec fn decls_await_from(v: Seq<(Pattern, Option<Expr>)>, i: nat) -> bool
    decreases v, v.len() - i,
{
    if i >= v.len() {
        false
    } else {
        decl_awaits(&v[i as int]) || decls_await_from(v, i + 1)
    }
}

/// Whether any of the declarations waits, outside any function or class.
pub fn decls_have_await(v: &Vec<(Pattern, Option<Expr>)>) -> (r: bool)
    ensures
        r == decls_await_from(v@, 0),
    decreases v@, v@.len() + 1,
{
    let mut i: usize = 0;
    while i < v.len()
        invariant
            i <= v.len(),
            decls_await_from(v@, 0) == decls_await_from(v@, i as nat),
        decreases v.len() - i,
    {
        if decl_has_await(&v[i]) {
            return true;
        }
        i = i + 1;
    }
    false
}

/// Whether any of the cases waits, outside any function or class. From the one at `i` on.
pub open spec fn cases_await_from(v: Seq<SwitchCase>, i: nat) -> bool
    decreases v, v.len() - i,
{
    if i >= v.len() {
        false
    } else {
        case_awaits(&v[i as int]) || cases_await_from(v, i + 1)
    }
}

/// Whether any of the cases waits, outside any function or class.
pub fn cases_have_await(v: &Vec<SwitchCase>) -> (r: bool)
    ensures
        r == cases_await_from(v@, 0),
    decreases v@, v@.len() + 1,
{
    let mut i: usize = 0;
    while i < v.len()
        invariant
            i <= v.len(),
            cases_await_from(v@, 0) == cases_await_from(v@, i as nat),
        decreases v.len() - i,
    {
        if case_has_await(&v[i]) {
            return true;
        }
        i = i + 1;
    }
    false
}

/// Whether any of the elements waits, outside any function or class. From the one at `i` on.
pub open spec fn elems_await_from(v: Seq<ArrayElem>, i: nat) -> bool
    decreases v, v.len() - i,
{
    if i >= v.len() {
        false
    } else {
        elem_awaits(&v[i as int]) || elems_await_from(v, i + 1)
    }
}

/// Whether any of the elements waits, outside any function or class.
pub fn elems_have_await(v: &Vec<ArrayElem>) -> (r: bool)
    ensures
        r == elems_await_from(v@, 0),
    decreases v@, v@.len() + 1,
{
    let mut i: usize = 0;
    while i < v.len()
        invariant
            i <= v.len(),
            elems_await_from(v@, 0) == elems_await_from(v@, i as nat),
        decreases v.len() - i,
    {
        if elem_has_await(&v[i]) {
            return true;
        }
        i = i + 1;
    }
    false
}

/// Whether any of the properties waits, outside any function or class. From the one at `i` on.
pub open spec fn props_await_from(v: Seq<PropDef>, i: nat) -> bool
    decreases v, v.len() - i,
{
    if i >= v.len() {
        false
    } else {
        prop_awaits(&v[i as int]) || props_await_from(v, i + 1)
    }
}

/// Whether any of the properties waits, outside any function or class.
pub fn props_have_await(v: &Vec<PropDef>) -> (r: bool)
    ensures
        r == props_await_from(v@, 0),
    decreases v@, v@.len() + 1,
{
    let mut i: usize = 0;
    while i < v.len()
        invariant
            i <= v.len(),
            props_await_from(v@, 0) == props_await_from(v@, i as nat),
        decreases v.len() - i,
    {
        if prop_has_await(&v[i]) {
            return true;
        }
        i = i + 1;
    }
    false
}

/// Whether any of the elements of a pattern waits, outside any function or class. From the one at `i` on.
pub open spec fn parts_await_from(v: Seq<ArrayPatElem>, i: nat) -> bool
    decreases v, v.len() - i,
{
    if i >= v.len() {
        false
    } else {
        part_awaits(&v[i as int]) || parts_await_from(v, i + 1)
    }
}

/// Whether any of the elements of a pattern waits, outside any function or class.
pub fn parts_have_await(v: &Vec<ArrayPatElem>) -> (r: bool)
    ensures
        r == parts_await_from(v@, 0),
    decreases v@, v@.len() + 1,
{
    let mut i: usize = 0;
    while i < v.len()
        invariant
            i <= v.len(),
            parts_await_from(v@, 0) == parts_await_from(v@, i as nat),
        decreases v.len() - i,
    {
        if part_has_await(&v[i]) {
            return true;
        }
        i = i + 1;
    }
    false
}

/// Whether any of the properties of a pattern waits, outside any function or class. From the one at `i` on.
pub open spec fn fields_await_from(v: Seq<ObjPatProp>, i: nat) -> bool
    decreases v, v.len() - i,
{
    if i >= v.len() {
        false
    } else {
        field_awaits(&v[i as int]) || fields_await_from(v, i + 1)
    }
}

/// Whether any of the properties of a pattern waits, outside any function or class.
pub fn fields_have_await(v: &Vec<ObjPatProp>) -> (r: bool)
    ensures
        r == fields_await_from(v@, 0),
    decreases v@, v@.len() + 1,
{
    let mut i: usize = 0;
    while i < v.len()
        invariant
            i <= v.len(),
            fields_await_from(v@, 0) == fields_await_from(v@, i as nat),
        decreases v.len() - i,
    {
        if field_has_await(&v[i]) {
            return true;
        }
        i = i + 1;
    }
    false
}

} // verus!
