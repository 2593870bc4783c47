//! Questions about a piece of syntax that need no evaluation.
pub mod awaits;
pub mod contains;
pub mod faults;

use vstd::prelude::*;

use crate::ast::{
    ArrayElem, DeclKind, Expr, Function, Param, Pattern, Stmt, SwitchCase,
};
use crate::modules::table::copy_text;
use crate::text::{join, same_text};

verus! {

/// Whether an expression is a function or class without a name of its own.
pub open spec fn anonymous_fn(e: &Expr) -> bool {
    match e {
        Expr::Func(f) => f.name is None,
        Expr::Class(c) => c.name is None,
        _ => false,
    }
}

/// Whether an expression is a function or class without a name of its own.
pub fn is_anonymous_fn(e: &Expr) -> (r: bool)
    ensures
        r == anonymous_fn(e),
{
    match e {
        Expr::Func(f) => f.name.is_none(),
        Expr::Class(c) => c.name.is_none(),
        _ => false,
    }
}

/// The declaration inside an `export`, or the statement itself.
pub open spec fn exported(s: &Stmt) -> &Stmt {
    match s {
        Stmt::ExportDecl(x) => &**x,
        Stmt::ExportDefault(x) => &**x,
        _ => s,
    }
}

/// The declaration inside an `export`, or the statement itself.
pub fn unwrap_export(s: &Stmt) -> (r: &Stmt)
    ensures
        r == exported(s),
{
    match s {
        Stmt::ExportDecl(x) => &**x,
        Stmt::ExportDefault(x) => &**x,
        _ => s,
    }
}

/// The statement behind a chain of labels.
pub open spec fn unlabeled(s: &Stmt) -> &Stmt
    decreases s,
{
    match s {
        Stmt::Labeled { label: _, body } => unlabeled(&**body),
        _ => s,
    }
}

/// The statement behind a chain of labels.
pub fn strip_labels(s: &Stmt) -> (r: &Stmt)
    ensures
        r == unlabeled(s),
    decreases s,
{
    match s {
        Stmt::Labeled { label: _, body } => strip_labels(&**body),
        _ => s,
    }
}

/// Whether a label stands in the chain in front of a statement.
pub open spec fn labeled_with(s: &Stmt, name: Seq<char>) -> bool
    decreases s,
{
    match s {
        Stmt::Labeled { label, body } => label@ == name || labeled_with(&**body, name),
        _ => false,
    }
}

/// Whether a label stands in the chain in front of a statement.
pub fn has_label(s: &Stmt, name: &String) -> (r: bool)
    ensures
        r == labeled_with(s, name@),
    decreases s,
{
    match s {
        Stmt::Labeled { label, body } => same_text(label.as_str(), name.as_str()) || has_label(
            &**body,
            name,
        ),
        _ => false,
    }
}

/// Whether a kind of declaration is a `using`.
pub open spec fn disposing(kind: DeclKind) -> bool {
    kind == DeclKind::Using || kind == DeclKind::AwaitUsing
}

/// Whether a statement declares a resource.
pub open spec fn declares_using(s: &Stmt) -> bool {
    match exported(s) {
        Stmt::VarDecl { kind, decls: _ } => disposing(*kind),
        _ => false,
    }
}

/// Whether a statement declares a resource that is disposed of at the end of its block.
pub fn stmt_declares_using(s: &Stmt) -> (r: bool)
    ensures
        r == declares_using(s),
{
    match unwrap_export(s) {
        Stmt::VarDecl { kind, decls: _ } => matches!(kind, DeclKind::Using | DeclKind::AwaitUsing),
        _ => false,
    }
}

/// Whether any of the statements declares a resource.
pub open spec fn any_using(stmts: Seq<Stmt>) -> bool {
    exists|i: int| 0 <= i < stmts.len() && declares_using(&#[trigger] stmts[i])
}

/// Whether any of the statements declares a resource.
pub fn stmts_declare_using(stmts: &Vec<Stmt>) -> (r: bool)
    ensures
        r == any_using(stmts@),
{
    let mut i: usize = 0;
    while i < stmts.len()
        invariant
            i <= stmts.len(),
            forall|j: int| 0 <= j < i ==> !declares_using(&#[trigger] stmts@[j]),
        decreases stmts.len() - i,
    {
        if stmt_declares_using(&stmts[i]) {
            return true;
        }
        i = i + 1;
    }
    false
}

/// Whether a statement declares something in the scope of its block: a lexical variable, a function
/// or a class, behind an `export` or labels or not.
pub open spec fn declares_lexical(s: &Stmt) -> bool {
    match unlabeled(exported(s)) {
        Stmt::VarDecl { kind, decls: _ } => *kind != DeclKind::Var,
        Stmt::FuncDecl(_) => true,
        Stmt::ClassDecl(_) => true,
        _ => false,
    }
}

/// Whether a statement declares something in the scope of its block.
pub fn block_declares_lexical(s: &Stmt) -> (r: bool)
    ensures
        r == declares_lexical(s),
{
    match strip_labels(unwrap_export(s)) {
        Stmt::VarDecl { kind, decls: _ } => *kind != DeclKind::Var,
        Stmt::FuncDecl(_) => true,
        Stmt::ClassDecl(_) => true,
        _ => false,
    }
}

/// Whether any of the statements declares something in the scope of their block.
pub open spec fn any_lexical(stmts: Seq<Stmt>) -> bool {
    exists|i: int| 0 <= i < stmts.len() && declares_lexical(&#[trigger] stmts[i])
}

/// Whether any of the statements declares something in the scope of their block.
pub fn stmts_declare_lexical(stmts: &Vec<Stmt>) -> (r: bool)
    ensures
        r == any_lexical(stmts@),
{
    let mut i: usize = 0;
    while i < stmts.len()
        invariant
            i <= stmts.len(),
            forall|j: int| 0 <= j < i ==> !declares_lexical(&#[trigger] stmts@[j]),
        decreases stmts.len() - i,
    {
        if block_declares_lexical(&stmts[i]) {
            return true;
        }
        i = i + 1;
    }
    false
}

/// The place of the first `default` among the cases of a switch, from the one at `i` on.
pub open spec fn default_from(cases: Seq<SwitchCase>, i: nat) -> Option<usize>
    decreases cases.len() - i,
{
    if i >= cases.len() {
        None
    } else if cases[i as int].test is None {
        Some(i as usize)
    } else {
        default_from(cases, i + 1)
    }
}

/// The place of the `default` among the cases of a switch.
pub fn default_case(cases: &Vec<SwitchCase>) -> (r: Option<usize>)
    ensures
        r == default_from(cases@, 0),
{
    let mut i: usize = 0;
    while i < cases.len()
        invariant
            i <= cases.len(),
            default_from(cases@, 0) == default_from(cases@, i as nat),
        decreases cases.len() - i,
    {
        if cases[i].test.is_none() {
            return Some(i);
        }
        i = i + 1;
    }
    None
}

/// Whether a statement is a directive: a string literal that stands alone.
pub open spec fn is_directive(s: Stmt) -> bool {
    s matches Stmt::Expr(Expr::Str(_))
}

/// Whether one of the directives that statements begin with makes the code strict.
pub open spec fn begins_strict(stmts: Seq<Stmt>) -> bool {
    exists|i: int|
        0 <= i < stmts.len() && (forall|j: int| 0 <= j < i ==> is_directive(#[trigger] stmts[j])) && (
        #[trigger] stmts[i] matches Stmt::Expr(Expr::Str(s)) && s@ == "use strict"@)
}

/// Whether one of the directives that statements begin with makes the code strict.
pub fn directive_strict(stmts: &Vec<Stmt>) -> (r: bool)
    ensures
        r == begins_strict(stmts@),
{
    let mut i: usize = 0;
    while i < stmts.len()
        invariant
            i <= stmts.len(),
            forall|j: int| 0 <= j < i ==> is_directive(#[trigger] stmts@[j]),
            forall|j: int|
                0 <= j < i ==> !(#[trigger] stmts@[j] matches Stmt::Expr(Expr::Str(s)) && s@
                    == "use strict"@),
        decreases stmts.len() - i,
    {
        match &stmts[i] {
            Stmt::Expr(Expr::Str(s)) => {
                if same_text(s.as_str(), "use strict") {
                    assert(stmts@[i as int] matches Stmt::Expr(Expr::Str(s)) && s@ == "use strict"@);
                    return true;
                }
            },
            _ => {
                assert(!is_directive(stmts@[i as int]));
                return false;
            },
        }
        i = i + 1;
    }
    false
}

/// How an error speaks of what is called.
pub open spec fn callee_text(e: Expr) -> Seq<char> {
    match e {
        Expr::Ident(n) => n@,
        Expr::Member { prop, .. } => "(intermediate value)."@ + prop@,
        _ => "expression"@,
    }
}

/// How an error speaks of what is called.
pub fn describe_callee(callee: &Expr) -> (r: String)
    ensures
        r@ == callee_text(*callee),
{
    match callee {
        Expr::Ident(n) => copy_text(n.as_str()),
        Expr::Member { prop, .. } => join("(intermediate value).", prop.as_str()),
        _ => copy_text("expression"),
    }
}

/// Whether a module exports an expression or a class without a name as its default.
pub open spec fn exports_value(stmts: Seq<Stmt>, from: nat) -> bool
    decreases stmts.len() - from,
{
    if from >= stmts.len() {
        false
    } else {
        (match stmts[from as int] {
            Stmt::ExportDefault(inner) => match *inner {
                Stmt::Expr(_) => true,
                Stmt::ClassDecl(c) => c.name is None,
                _ => false,
            },
            _ => false,
        }) || exports_value(stmts, from + 1)
    }
}

/// Whether the name of a module's default export is declared before it is initialized: it is for an
/// expression or a class without a name.
pub fn needs_default_placeholder(stmts: &Vec<Stmt>) -> (r: bool)
    ensures
        r == exports_value(stmts@, 0),
{
    let mut i: usize = 0;
    while i < stmts.len()
        invariant
            i <= stmts.len(),
            exports_value(stmts@, 0) == exports_value(stmts@, i as nat),
        decreases stmts.len() - i,
    {
        match &stmts[i] {
            Stmt::ExportDefault(inner) => match &**inner {
                Stmt::Expr(_) => {
                    return true;
                },
                Stmt::ClassDecl(c) => {
                    if c.name.is_none() {
                        return true;
                    }
                },
                _ => {},
            },
            _ => {},
        }
        i = i + 1;
    }
    false
}

/// Whether a function is what a class has as its constructor when it defines none: one that does
/// nothing, or one that hands its arguments to the parent's.
pub open spec fn is_default_constructor(f: Function, derived: bool) -> bool {
    &&& f.name is None
    &&& !f.is_arrow && f.is_strict && !f.expr_body && !f.is_generator && !f.is_async && !f.is_method
        && !f.is_fn_expr
    &&& f.source is None
    &&& if derived {
        &&& f.params@.len() == 1
        &&& f.params@[0].rest && f.params@[0].default is None
        &&& f.params@[0].pattern matches Pattern::Ident(n) && n@ == "args"@
        &&& f.body@.len() == 1
        &&& f.body@[0] matches Stmt::Expr(Expr::Call { callee, args, optional }) && !optional
            && *callee is Super && args@.len() == 1 && (args@[0] matches ArrayElem::Spread(x) && (
        x matches Expr::Ident(n) && n@ == "args"@))
    } else {
        f.params@.len() == 0 && f.body@.len() == 0
    }
}

/// The constructor that a class has when it defines none.
pub fn default_constructor(derived: bool) -> (f: Function)
    ensures
        is_default_constructor(f, derived),
{
    let mut params: Vec<Param> = Vec::new();
    let mut body: Vec<Stmt> = Vec::new();
    if derived {
        let mut args: Vec<ArrayElem> = Vec::new();
        args.push(ArrayElem::Spread(Expr::Ident(copy_text("args"))));
        body.push(
            Stmt::Expr(Expr::Call { callee: Box::new(Expr::Super), args, optional: false }),
        );
        params.push(
            Param { pattern: Pattern::Ident(copy_text("args")), default: None, rest: true },
        );
    }
    Function {
        name: None,
        params,
        body,
        is_arrow: false,
        is_strict: true,
        expr_body: false,
        is_generator: false,
        is_async: false,
        is_method: false,
        is_fn_expr: false,
        source: None,
    }
}

} // verus!
