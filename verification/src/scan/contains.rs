//! Whether code refers to `super` or `arguments` of the function around it.
use vstd::prelude::*;

use crate::ast::{ArrayElem, Expr, ForInit, Param, Pattern, PropDef, Stmt, SwitchCase};
use crate::text::same_text;

verus! {

/// What to look for.
#[derive(Clone, Copy, PartialEq, Eq, Structural, Debug)]
pub enum Wanted {
    /// `super(..)`
    SuperCall,
    /// `super.x` or `super[x]`
    SuperProperty,
    Arguments,
}

/// Whether an expression is what is looked for.
pub open spec fn wanted(x: &Expr, what: Wanted) -> bool {
    match what {
        Wanted::SuperCall => match x {
            Expr::Call { callee, args: _, optional: _ } => **callee is Super,
            _ => false,
        },
        Wanted::SuperProperty => match x {
            Expr::Member { obj, prop: _, optional: _ } => **obj is Super,
            Expr::Index { obj, index: _, optional: _ } => **obj is Super,
            _ => false,
        },
        Wanted::Arguments => match x {
            Expr::Ident(n) => n@ == "arguments"@,
            _ => false,
        },
    }
}

/// Whether an expression is what is looked for.
fn is_wanted(x: &Expr, what: Wanted) -> (r: bool)
    ensures
        r == wanted(x, what),
{
    match what {
        Wanted::SuperCall => match x {
            Expr::Call { callee, args: _, optional: _ } => matches!(**callee, Expr::Super),
            _ => false,
        },
        Wanted::SuperProperty => match x {
            Expr::Member { obj, prop: _, optional: _ } => matches!(**obj, Expr::Super),
            Expr::Index { obj, index: _, optional: _ } => matches!(**obj, Expr::Super),
            _ => false,
        },
        Wanted::Arguments => match x {
            Expr::Ident(n) => same_text(n.as_str(), "arguments"),
            _ => false,
        },
    }
}

/// Whether a statement contains such an expression, arrow functions included, other functions and classes not.
pub open spec fn stmt_holds(x: &Stmt, what: Wanted) -> bool
    decreases x, 0nat,
{
    match x {
        Stmt::Expr(e) => expr_holds(e, what),
        Stmt::Throw(e) => expr_holds(e, what),
        Stmt::Return(v) => (match v {
            Some(e) => expr_holds(e, what),
            None => false,
        }),
        Stmt::VarDecl { kind: _, decls } => decls_hold_from(decls@, what, 0),
        Stmt::If { test, cons, alt } => expr_holds(test, what) || stmt_holds(&**cons, what) || (match alt {
            Some(a) => stmt_holds(&**a, what),
            None => false,
        }),
        Stmt::Block(b) => stmts_hold_from(b@, what, 0),
        Stmt::While { test, body } => expr_holds(test, what) || stmt_holds(&**body, what),
        Stmt::DoWhile { body, test } => expr_holds(test, what) || stmt_holds(&**body, what),
        Stmt::For { init, test, update, body } => (match init {
            Some(h) => init_holds(&**h, what),
            None => false,
        }) || (match test {
            Some(e) => expr_holds(e, what),
            None => false,
        }) || (match update {
            Some(e) => expr_holds(e, what),
            None => false,
        }) || stmt_holds(&**body, what),
        Stmt::ForInOf { decl: _, left: _, right, of: _, is_await: _, body } => expr_holds(right, what) || stmt_holds(&**body, what),
        Stmt::Try { block, handler, finalizer } => stmts_hold_from(block@, what, 0) || (match handler {
            Some(h) => stmts_hold_from(h.1@, what, 0),
            None => false,
        }) || (match finalizer {
            Some(f) => stmts_hold_from(f@, what, 0),
            None => false,
        }),
        Stmt::Switch { disc, cases } => expr_holds(disc, what) || cases_hold_from(cases@, what, 0),
        Stmt::Labeled { label: _, body } => stmt_holds(&**body, what),
        Stmt::With { obj: _, body } => stmt_holds(&**body, what),
        _ => false,
    }
}

/// Whether a statement contains such an expression, arrow functions included, other functions and classes not.
#[verifier::spinoff_prover]
pub fn stmt_contains(x: &Stmt, what: Wanted) -> (r: bool)
    ensures
        r == stmt_holds(x, what),
    decreases x, 0nat,
{
    match x {
        Stmt::Expr(e) => {
            if expr_contains(e, what) {
                return true;
            }
        },
        Stmt::Throw(e) => {
            if expr_contains(e, what) {
                return true;
            }
        },
        Stmt::Return(v) => {
            match v {
                Some(e) => {
                    if expr_contains(e, what) {
                        return true;
                    }
                },
                None => {},
            }
        },
        Stmt::VarDecl { kind: _, decls } => {
            if decls_contain(decls, what) {
                return true;
            }
        },
        Stmt::If { test, cons, alt } => {
            if expr_contains(test, what) {
                return true;
            }
            if stmt_contains(&**cons, what) {
                return true;
            }
            match alt {
                Some(a) => {
                    if stmt_contains(&**a, what) {
                        return true;
                    }
                },
                None => {},
            }
        },
        Stmt::Block(b) => {
            if stmts_contain(b, what) {
                return true;
            }
        },
        Stmt::While { test, body } => {
            if expr_contains(test, what) {
                return true;
            }
            if stmt_contains(&**body, what) {
                return true;
            }
        },
        Stmt::DoWhile { body, test } => {
            if expr_contains(test, what) {
                return true;
            }
            if stmt_contains(&**body, what) {
                return true;
            }
        },
        Stmt::For { init, test, update, body } => {
            match init {
                Some(h) => {
                    if init_contains(&**h, what) {
                        return true;
                    }
                },
                None => {},
            }
            match test {
                Some(e) => {
                    if expr_contains(e, what) {
                        return true;
                    }
                },
                None => {},
            }
            match update {
                Some(e) => {
                    if expr_contains(e, what) {
                        return true;
                    }
                },
                None => {},
            }
            if stmt_contains(&**body, what) {
                return true;
            }
        },
        Stmt::ForInOf { decl: _, left: _, right, of: _, is_await: _, body } => {
            if expr_contains(right, what) {
                return true;
            }
            if stmt_contains(&**body, what) {
                return true;
            }
        },
        Stmt::Try { block, handler, finalizer } => {
            if stmts_contain(block, what) {
                return true;
            }
            match handler {
                Some(h) => {
                    if stmts_contain(&h.1, what) {
                        return true;
                    }
                },
                None => {},
            }
            match finalizer {
                Some(f) => {
                    if stmts_contain(f, what) {
                        return true;
                    }
                },
                None => {},
            }
        },
        Stmt::Switch { disc, cases } => {
            if expr_contains(disc, what) {
                return true;
            }
            if cases_contain(cases, what) {
                return true;
            }
        },
        Stmt::Labeled { label: _, body } => {
            if stmt_contains(&**body, what) {
                return true;
            }
        },
        Stmt::With { obj: _, body } => {
            if stmt_contains(&**body, what) {
                return true;
            }
        },
        _ => {
        },
    }
    false
}

/// Whether an expression contains such an expression, arrow functions included, other functions and classes not.
pub open spec fn expr_holds(x: &Expr, what: Wanted) -> bool
    decreases x, 0nat,
{
    wanted(x, what) || match x {
        Expr::Call { callee, args, optional: _ } => expr_holds(&**callee, what) || elems_hold_from(args@, what, 0),
        Expr::New { callee, args } => expr_holds(&**callee, what) || elems_hold_from(args@, what, 0),
        Expr::Unary { op: _, arg } => expr_holds(&**arg, what),
        Expr::Update { op: _, prefix: _, arg } => expr_holds(&**arg, what),
        Expr::Await(arg) => expr_holds(&**arg, what),
        Expr::Paren(arg) => expr_holds(&**arg, what),
        Expr::Binary { op: _, left, right } => expr_holds(&**left, what) || expr_holds(&**right, what),
        Expr::Logical { op: _, left, right } => expr_holds(&**left, what) || expr_holds(&**right, what),
        Expr::Assign { op: _, target, value } => expr_holds(&**target, what) || expr_holds(&**value, what),
        Expr::Cond { test, cons, alt } => expr_holds(&**test, what) || expr_holds(&**cons, what) || expr_holds(&**alt, what),
        Expr::Member { obj, prop: _, optional: _ } => expr_holds(&**obj, what),
        Expr::OptionalChain(obj) => expr_holds(&**obj, what),
        Expr::Index { obj, index, optional: _ } => expr_holds(&**obj, what) || expr_holds(&**index, what),
        Expr::Sequence(v) => exprs_hold_from(v@, what, 0),
        Expr::Array(elems) => elems_hold_from(elems@, what, 0),
        Expr::Yield { delegate: _, arg } => (match arg {
            Some(a) => expr_holds(&**a, what),
            None => false,
        }),
        Expr::ImportCall { spec, phase: _, options: _ } => expr_holds(&**spec, what),
        Expr::PrivateIn { name: _, obj } => expr_holds(&**obj, what),
        Expr::TaggedTemplate { tag, quasis: _, subs } => expr_holds(&**tag, what) || exprs_hold_from(subs@, what, 0),
        Expr::Object(props) => props_hold_from(props@, what, 0),
        Expr::Func(f) => if f.is_arrow {
            params_hold_from(f.params@, what, 0) || stmts_hold_from(f.body@, what, 0)
        } else {
            false
        },
        _ => false,
    }
}

/// Whether an expression contains such an expression, arrow functions included, other functions and classes not.
#[verifier::spinoff_prover]
pub fn expr_contains(x: &Expr, what: Wanted) -> (r: bool)
    ensures
        r == expr_holds(x, what),
    decreases x, 0nat,
{
    if is_wanted(x, what) {
        return true;
    }
    match x {
        Expr::Call { callee, args, optional: _ } => {
            if expr_contains(&**callee, what) {
                return true;
            }
            if arr_elems_contain(args, what) {
                return true;
            }
        },
        Expr::New { callee, args } => {
            if expr_contains(&**callee, what) {
                return true;
            }
            if arr_elems_contain(args, what) {
                return true;
            }
        },
        Expr::Unary { op: _, arg } => {
            if expr_contains(&**arg, what) {
                return true;
            }
        },
        Expr::Update { op: _, prefix: _, arg } => {
            if expr_contains(&**arg, what) {
                return true;
            }
        },
        Expr::Await(arg) => {
            if expr_contains(&**arg, what) {
                return true;
            }
        },
        Expr::Paren(arg) => {
            if expr_contains(&**arg, what) {
                return true;
            }
        },
        Expr::Binary { op: _, left, right } => {
            if expr_contains(&**left, what) {
                return true;
            }
            if expr_contains(&**right, what) {
                return true;
            }
        },
        Expr::Logical { op: _, left, right } => {
            if expr_contains(&**left, what) {
                return true;
            }
            if expr_contains(&**right, what) {
                return true;
            }
        },
        Expr::Assign { op: _, target, value } => {
            if expr_contains(&**target, what) {
                return true;
            }
            if expr_contains(&**value, what) {
                return true;
            }
        },
        Expr::Cond { test, cons, alt } => {
            if expr_contains(&**test, what) {
                return true;
            }
            if expr_contains(&**cons, what) {
                return true;
            }
            if expr_contains(&**alt, what) {
                return true;
            }
        },
        Expr::Member { obj, prop: _, optional: _ } => {
            if expr_contains(&**obj, what) {
                return true;
            }
        },
        Expr::OptionalChain(obj) => {
            if expr_contains(&**obj, what) {
                return true;
            }
        },
        Expr::Index { obj, index, optional: _ } => {
            if expr_contains(&**obj, what) {
                return true;
            }
            if expr_contains(&**index, what) {
                return true;
            }
        },
        Expr::Sequence(v) => {
            if exprs_contain(v, what) {
                return true;
            }
        },
        Expr::Array(elems) => {
            if arr_elems_contain(elems, what) {
                return true;
            }
        },
        Expr::Yield { delegate: _, arg } => {
            match arg {
                Some(a) => {
                    if expr_contains(&**a, what) {
                        return true;
                    }
                },
                None => {},
            }
        },
        Expr::ImportCall { spec, phase: _, options: _ } => {
            if expr_contains(&**spec, what) {
                return true;
            }
        },
        Expr::PrivateIn { name: _, obj } => {
            if expr_contains(&**obj, what) {
                return true;
            }
        },
        Expr::TaggedTemplate { tag, quasis: _, subs } => {
            if expr_contains(&**tag, what) {
                return true;
            }
            if exprs_contain(subs, what) {
                return true;
            }
        },
        Expr::Object(props) => {
            if props_contain(props, what) {
                return true;
            }
        },
        Expr::Func(f) => {
            if f.is_arrow {
                if params_contain(&f.params, what) {
                    return true;
                }
                if stmts_contain(&f.body, what) {
                    return true;
                }
            }
        },
        _ => {
        },
    }
    false
}

/// Whether a declaration contains such an expression, arrow functions included, other functions and classes not.
pub open spec fn decl_holds(x: &(Pattern, Option<Expr>), what: Wanted) -> bool
    decreases x, 0nat,
{
    match x {
        (_, init) => (match init {
            Some(e) => expr_holds(e, what),
            None => false,
        }),
    }
}

/// Whether a declaration contains such an expression, arrow functions included, other functions and classes not.
#[verifier::spinoff_prover]
pub fn decl_contains(x: &(Pattern, Option<Expr>), what: Wanted) -> (r: bool)
    ensures
        r == decl_holds(x, what),
    decreases x, 0nat,
{
    match x {
        (_, init) => {
            match init {
                Some(e) => {
                    if expr_contains(e, what) {
                        return true;
                    }
                },
                None => {},
            }
        },
    }
    false
}

/// Whether a loop head contains such an expression, arrow functions included, other functions and classes not.
pub open spec fn init_holds(x: &ForInit, what: Wanted) -> bool
    decreases x, 0nat,
{
    match x {
        ForInit::VarDecl { kind: _, decls } => decls_hold_from(decls@, what, 0),
        ForInit::Expr(e) => expr_holds(e, what),
    }
}

/// Whether a loop head contains such an expression, arrow functions included, other functions and classes not.
#[verifier::spinoff_prover]
pub fn init_contains(x: &ForInit, what: Wanted) -> (r: bool)
    ensures
        r == init_holds(x, what),
    decreases x, 0nat,
{
    match x {
        ForInit::VarDecl { kind: _, decls } => {
            if decls_contain(decls, what) {
                return true;
            }
        },
        ForInit::Expr(e) => {
            if expr_contains(e, what) {
                return true;
            }
        },
    }
    false
}

/// Whether a case contains such an expression, arrow functions included, other functions and classes not.
pub open spec fn case_holds(x: &SwitchCase, what: Wanted) -> bool
    decreases x, 0nat,
{
    match x {
        SwitchCase { test, body } => (match test {
            Some(e) => expr_holds(e, what),
            None => false,
        }) || stmts_hold_from(body@, what, 0),
    }
}

/// Whether a case contains such an expression, arrow functions included, other functions and classes not.
#[verifier::spinoff_prover]
pub fn case_contains(x: &SwitchCase, what: Wanted) -> (r: bool)
    ensures
        r == case_holds(x, what),
    decreases x, 0nat,
{
    match x {
        SwitchCase { test, body } => {
            match test {
                Some(e) => {
                    if expr_contains(e, what) {
                        return true;
                    }
                },
                None => {},
            }
            if stmts_contain(body, what) {
                return true;
            }
        },
    }
    false
}

/// Whether an element contains such an expression, arrow functions included, other functions and classes not.
pub open spec fn elem_holds(x: &ArrayElem, what: Wanted) -> bool
    decreases x, 0nat,
{
    match x {
        ArrayElem::Item(e) => expr_holds(e, what),
        ArrayElem::Spread(e) => expr_holds(e, what),
        ArrayElem::Hole => false,
    }
}

/// Whether an element contains such an expression, arrow functions included, other functions and classes not.
#[verifier::spinoff_prover]
pub fn elem_contains(x: &ArrayElem, what: Wanted) -> (r: bool)
    ensures
        r == elem_holds(x, what),
    decreases x, 0nat,
{
    match x {
        ArrayElem::Item(e) => {
            if expr_contains(e, what) {
                return true;
            }
        },
        ArrayElem::Spread(e) => {
            if expr_contains(e, what) {
                return true;
            }
        },
        ArrayElem::Hole => {
        },
    }
    false
}

/// Whether a property contains such an expression, arrow functions included, other functions and classes not.
pub open spec fn prop_holds(x: &PropDef, what: Wanted) -> bool
    decreases x, 0nat,
{
    match x {
        PropDef::KeyValue { key: _, value } => expr_holds(value, what),
        PropDef::Cover { key: _, value } => expr_holds(value, what),
        PropDef::Spread(e) => expr_holds(e, what),
        _ => false,
    }
}

/// Whether a property contains such an expression, arrow functions included, other functions and classes not.
#[verifier::spinoff_prover]
pub fn prop_contains(x: &PropDef, what: Wanted) -> (r: bool)
    ensures
        r == prop_holds(x, what),
    decreases x, 0nat,
{
    match x {
        PropDef::KeyValue { key: _, value } => {
            if expr_contains(value, what) {
                return true;
            }
        },
        PropDef::Cover { key: _, value } => {
            if expr_contains(value, what) {
                return true;
            }
        },
        PropDef::Spread(e) => {
            if expr_contains(e, what) {
                return true;
            }
        },
        _ => {
        },
    }
    false
}

/// Whether a parameter contains such an expression, arrow functions included, other functions and classes not.
pub open spec fn param_holds(x: &Param, what: Wanted) -> bool
    decreases x, 0nat,
{
    match x {
        Param { pattern: _, default, rest: _ } => (match default {
            Some(e) => expr_holds(e, what),
            None => false,
        }),
    }
}

/// Whether a parameter contains such an expression, arrow functions included, other functions and classes not.
#[verifier::spinoff_prover]
pub fn param_contains(x: &Param, what: Wanted) -> (r: bool)
    ensures
        r == param_holds(x, what),
    decreases x, 0nat,
{
    match x {
        Param { pattern: _, default, rest: _ } => {
            match default {
                Some(e) => {
                    if expr_contains(e, what) {
                        return true;
                    }
                },
                None => {},
            }
        },
    }
    false
}

/// Whether any of the statements contains such an expression, arrow functions included, other functions and classes not. From the one at `i` on.
pub open spec fn stmts_hold_from(v: Seq<Stmt>, what: Wanted, i: nat) -> bool
    decreases v, v.len() - i,
{
    if i >= v.len() {
        false
    } else {
        stmt_holds(&v[i as int], what) || stmts_hold_from(v, what, i + 1)
    }
}

/// Whether any of the statements contains such an expression, arrow functions included, other functions and classes not.
pub fn stmts_contain(v: &Vec<Stmt>, what: Wanted) -> (r: bool)
    ensures
        r == stmts_hold_from(v@, what, 0),
    decreases v@, v@.len() + 1,
{
    let mut i: usize = 0;
    while i < v.len()
        invariant
            i <= v.len(),
            stmts_hold_from(v@, what, 0) == stmts_hold_from(v@, what, i as nat),
        decreases v.len() - i,
    {
        if stmt_contains(&v[i], what) {
            return true;
        }
        i = i + 1;
    }
    false
}

/// Whether any of the expressions contains such an expression, arrow functions included, other functions and classes not. From the one at `i` on.
pub open spec fn exprs_hold_from(v: Seq<Expr>, what: Wanted, i: nat) -> bool
    decreases v, v.len() - i,
{
    if i >= v.len() {
        false
    } else {
        expr_holds(&v[i as int], what) || exprs_hold_from(v, what, i + 1)
    }
}

/// Whether any of the expressions contains such an expression, arrow functions included, other functions and classes not.
pub fn exprs_contain(v: &Vec<Expr>, what: Wanted) -> (r: bool)
    ensures
        r == exprs_hold_from(v@, what, 0),
    decreases v@, v@.len() + 1,
{
    let mut i: usize = 0;
    while i < v.len()
        invariant
            i <= v.len(),
            exprs_hold_from(v@, what, 0) == exprs_hold_from(v@, what, i as nat),
        decreases v.len() - i,
    {
        if expr_contains(&v[i], what) {
            return true;
        }
        i = i + 1;
    }
    false
}

/// Whether any of the declarations contains such an expression, arrow functions included, other functions and classes not. From the one at `i` on.
pub open spec fn decls_hold_from(v: Seq<(Pattern, Option<Expr>)>, what: Wanted, i: nat) -> bool
    decreases v, v.len() - i,
{
    if i >= v.len() {
        false
    } else {
        decl_holds(&v[i as int], what) || decls_hold_from(v, what, i + 1)
    }
}

/// Whether any of the declarations contains such an expression, arrow functions included, other functions and classes not.
pub fn decls_contain(v: &Vec<(Pattern, Option<Expr>)>, what: Wanted) -> (r: bool)
    ensures
        r == decls_hold_from(v@, what, 0),
    decreases v@, v@.len() + 1,
{
    let mut i: usize = 0;
    while i < v.len()
        invariant
            i <= v.len(),
            decls_hold_from(v@, what, 0) == decls_hold_from(v@, what, i as nat),
        decreases v.len() - i,
    {
        if decl_contains(&v[i], what) {
            return true;
        }
        i = i + 1;
    }
    false
}

/// Whether any of the cases contains such an expression, arrow functions included, other functions and classes not. From the one at `i` on.
pub open spec fn cases_hold_from(v: Seq<SwitchCase>, what: Wanted, i: nat) -> bool
    decreases v, v.len() - i,
{
    if i >= v.len() {
        false
    } else {
        case_holds(&v[i as int], what) || cases_hold_from(v, what, i + 1)
    }
}

/// Whether any of the cases contains such an expression, arrow functions included, other functions and classes not.
pub fn cases_contain(v: &Vec<SwitchCase>, what: Wanted) -> (r: bool)
    ensures
        r == cases_hold_from(v@, what, 0),
    decreases v@, v@.len() + 1,
{
    let mut i: usize = 0;
    while i < v.len()
        invariant
            i <= v.len(),
            cases_hold_from(v@, what, 0) == cases_hold_from(v@, what, i as nat),
        decreases v.len() - i,
    {
        if case_contains(&v[i], what) {
            return true;
        }
        i = i + 1;
    }
    false
}

/// Whether any of the elements contains such an expression, arrow functions included, other functions and classes not. From the one at `i` on.
pub open spec fn elems_hold_from(v: Seq<ArrayElem>, what: Wanted, i: nat) -> bool
    decreases v, v.len() - i,
{
    if i >= v.len() {
        false
    } else {
        elem_holds(&v[i as int], what) || elems_hold_from(v, what, i + 1)
    }
}

/// Whether any of the elements contains such an expression, arrow functions included, other functions and classes not.
pub fn arr_elems_contain(v: &Vec<ArrayElem>, what: Wanted) -> (r: bool)
    ensures
        r == elems_hold_from(v@, what, 0),
    decreases v@, v@.len() + 1,
{
    let mut i: usize = 0;
    while i < v.len()
        invariant
            i <= v.len(),
            elems_hold_from(v@, what, 0) == elems_hold_from(v@, what, i as nat),
        decreases v.len() - i,
    {
        if elem_contains(&v[i], what) {
            return true;
        }
        i = i + 1;
    }
    false
}

/// Whether any of the properties contains such an expression, arrow functions included, other functions and classes not. From the one at `i` on.
pub open spec fn props_hold_from(v: Seq<PropDef>, what: Wanted, i: nat) -> bool
    decreases v, v.len() - i,
{
    if i >= v.len() {
        false
    } else {
        prop_holds(&v[i as int], what) || props_hold_from(v, what, i + 1)
    }
}

/// Whether any of the properties contains such an expression, arrow functions included, other functions and classes not.
pub fn props_contain(v: &Vec<PropDef>, what: Wanted) -> (r: bool)
    ensures
        r == props_hold_from(v@, what, 0),
    decreases v@, v@.len() + 1,
{
    let mut i: usize = 0;
    while i < v.len()
        invariant
            i <= v.len(),
            props_hold_from(v@, what, 0) == props_hold_from(v@, what, i as nat),
        decreases v.len() - i,
    {
        if prop_contains(&v[i], what) {
            return true;
        }
        i = i + 1;
    }
    false
}

/// Whether any of the parameters contains such an expression, arrow functions included, other functions and classes not. From the one at `i` on.
pub open spec fn params_hold_from(v: Seq<Param>, what: Wanted, i: nat) -> bool
    decreases v, v.len() - i,
{
    if i >= v.len() {
        false
    } else {
        param_holds(&v[i as int], what) || params_hold_from(v, what, i + 1)
    }
}

/// Whether any of the parameters contains such an expression, arrow functions included, other functions and classes not.
pub fn params_contain(v: &Vec<Param>, what: Wanted) -> (r: bool)
    ensures
        r == params_hold_from(v@, what, 0),
    decreases v@, v@.len() + 1,
{
    let mut i: usize = 0;
    while i < v.len()
        invariant
            i <= v.len(),
            params_hold_from(v@, what, 0) == params_hold_from(v@, what, i as nat),
        decreases v.len() - i,
    {
        if param_contains(&v[i], what) {
            return true;
        }
        i = i + 1;
    }
    false
}

/// Whether statements hold a `super(..)` call.
pub fn stmts_have_super_call(stmts: &Vec<Stmt>) -> (r: bool)
    ensures
        r == stmts_hold_from(stmts@, Wanted::SuperCall, 0),
{
    stmts_contain(stmts, Wanted::SuperCall)
}

/// Whether statements refer to a property of `super`.
pub fn stmts_have_super_prop(stmts: &Vec<Stmt>) -> (r: bool)
    ensures
        r == stmts_hold_from(stmts@, Wanted::SuperProperty, 0),
{
    stmts_contain(stmts, Wanted::SuperProperty)
}

/// Whether statements refer to `arguments`.
pub fn stmts_have_arguments_ref(stmts: &Vec<Stmt>) -> (r: bool)
    ensures
        r == stmts_hold_from(stmts@, Wanted::Arguments, 0),
{
    stmts_contain(stmts, Wanted::Arguments)
}

} // verus!
