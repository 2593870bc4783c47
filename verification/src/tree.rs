//! The mathematical model of a syntax tree.
//!
//! A [`Tree`] holds what a node says and nothing about how it is stored: texts are sequences of
//! characters, lists are sequences of trees, and a node is its alternative's number together with
//! the trees of its parts. The functions below give the tree of each kind of node.
use std::rc::Rc;
use vstd::prelude::*;

use crate::ast::{
    ArrayElem, ArrayPatElem, Class, ClassMember, DeclKind, ExportSpec, Expr, ForInit, Function,
    ImportPhase, ImportSpec, MemberKind, ObjPatProp, Param, Pattern, PropDef, PropKey, Stmt,
    SwitchCase,
};

verus! {

/// What a syntax tree says.
pub ghost enum Tree {
    Bool(bool),
    /// The bits of a double.
    Bits(u64),
    Text(Seq<char>),
    Operator(Seq<char>),
    Integer(int),
    /// Seven switches, the first in the lowest bit.
    Flags(nat),
    Absent,
    Present(Box<Tree>),
    List(Seq<Tree>),
    Tuple(Seq<Tree>),
    /// The alternative taken, and its parts.
    Node(nat, Seq<Tree>),
}

/// A node with no parts.
#[verifier::opaque]
pub open spec fn node0(tag: nat) -> Tree {
    Tree::Node(tag, seq![])
}

/// A node with one part.
#[verifier::opaque]
pub open spec fn node1(tag: nat, t1: Tree) -> Tree {
    Tree::Node(tag, seq![t1])
}

/// A node with two parts.
#[verifier::opaque]
pub open spec fn node2(tag: nat, t1: Tree, t2: Tree) -> Tree {
    Tree::Node(tag, seq![t1, t2])
}

/// A node with three parts.
#[verifier::opaque]
pub open spec fn node3(tag: nat, t1: Tree, t2: Tree, t3: Tree) -> Tree {
    Tree::Node(tag, seq![t1, t2, t3])
}

/// A node with four parts.
#[verifier::opaque]
pub open spec fn node4(tag: nat, t1: Tree, t2: Tree, t3: Tree, t4: Tree) -> Tree {
    Tree::Node(tag, seq![t1, t2, t3, t4])
}

/// A node with five parts.
#[verifier::opaque]
pub open spec fn node5(tag: nat, t1: Tree, t2: Tree, t3: Tree, t4: Tree, t5: Tree) -> Tree {
    Tree::Node(tag, seq![t1, t2, t3, t4, t5])
}

/// A node with six parts.
#[verifier::opaque]
pub open spec fn node6(tag: nat, t1: Tree, t2: Tree, t3: Tree, t4: Tree, t5: Tree, t6: Tree) -> Tree {
    Tree::Node(tag, seq![t1, t2, t3, t4, t5, t6])
}

/// A tuple of two trees.
#[verifier::opaque]
pub open spec fn tuple2(t1: Tree, t2: Tree) -> Tree {
    Tree::Tuple(seq![t1, t2])
}

/// A tuple of three trees.
#[verifier::opaque]
pub open spec fn tuple3(t1: Tree, t2: Tree, t3: Tree) -> Tree {
    Tree::Tuple(seq![t1, t2, t3])
}

/// A tuple of five trees.
#[verifier::opaque]
pub open spec fn tuple5(t1: Tree, t2: Tree, t3: Tree, t4: Tree, t5: Tree) -> Tree {
    Tree::Tuple(seq![t1, t2, t3, t4, t5])
}

/// A tuple of six trees.
#[verifier::opaque]
pub open spec fn tuple6(t1: Tree, t2: Tree, t3: Tree, t4: Tree, t5: Tree, t6: Tree) -> Tree {
    Tree::Tuple(seq![t1, t2, t3, t4, t5, t6])
}

pub open spec fn text(s: String) -> Tree {
    Tree::Text(s@)
}

pub open spec fn some(t: Tree) -> Tree {
    Tree::Present(Box::new(t))
}

pub open spec fn opt_text(o: Option<String>) -> Tree {
    match o {
        Some(s) => some(text(s)),
        None => Tree::Absent,
    }
}

pub open spec fn decl_kind_tree(k: DeclKind) -> Tree {
    let tag: nat = match k {
        DeclKind::Var => 0,
        DeclKind::Let => 1,
        DeclKind::Const => 2,
        DeclKind::Using => 3,
        DeclKind::AwaitUsing => 4,
    };
    node0(tag)
}

pub open spec fn opt_decl_kind(o: Option<DeclKind>) -> Tree {
    match o {
        Some(k) => some(decl_kind_tree(k)),
        None => Tree::Absent,
    }
}

pub open spec fn member_kind_tree(k: MemberKind) -> Tree {
    let tag: nat = match k {
        MemberKind::Constructor => 0,
        MemberKind::Method => 1,
        MemberKind::Getter => 2,
        MemberKind::Setter => 3,
        MemberKind::Field => 4,
        MemberKind::Accessor => 5,
        MemberKind::StaticBlock => 6,
    };
    node0(tag)
}

pub open spec fn import_phase_tree(p: ImportPhase) -> Tree {
    let tag: nat = match p {
        ImportPhase::Evaluation => 0,
        ImportPhase::Source => 1,
        ImportPhase::Defer => 2,
    };
    node0(tag)
}

pub open spec fn import_spec_tree(s: ImportSpec) -> Tree {
    match s {
        ImportSpec::Default(n) => node1(0, text(n)),
        ImportSpec::Namespace(n) => node1(1, text(n)),
        ImportSpec::DeferNamespace(n) => node1(2, text(n)),
        ImportSpec::Source(n) => node1(3, text(n)),
        ImportSpec::Named { imported, local } => node2(4, text(imported), text(local)),
    }
}

pub open spec fn import_specs(v: Seq<ImportSpec>) -> Tree {
    Tree::List(v.map_values(|s: ImportSpec| import_spec_tree(s)))
}

pub open spec fn export_spec_tree(s: ExportSpec) -> Tree {
    tuple2(text(s.local), text(s.exported))
}

pub open spec fn export_specs(v: Seq<ExportSpec>) -> Tree {
    Tree::List(v.map_values(|s: ExportSpec| export_spec_tree(s)))
}

pub open spec fn quasi_tree(q: (Option<String>, String)) -> Tree {
    tuple2(opt_text(q.0), text(q.1))
}

pub open spec fn quasis(v: Seq<(Option<String>, String)>) -> Tree {
    Tree::List(v.map_values(|q: (Option<String>, String)| quasi_tree(q)))
}

/// The weight of a switch in a byte of flags.
pub open spec fn flag(on: bool, weight: nat) -> nat {
    if on {
        weight
    } else {
        0
    }
}

/// A function's switches: arrow, strict, expression body, generator, async, method and function
/// expression, from the lowest bit up.
pub open spec fn function_flags(f: &Function) -> nat {
    flag(f.is_arrow, 1) + flag(f.is_strict, 2) + flag(f.expr_body, 4) + flag(f.is_generator, 8)
        + flag(f.is_async, 16) + flag(f.is_method, 32) + flag(f.is_fn_expr, 64)
}

pub open spec fn opt_expr(o: Option<Expr>) -> Tree
    decreases o,
{
    match o {
        Some(e) => some(expr_tree(e)),
        None => Tree::Absent,
    }
}

pub open spec fn opt_boxed_expr(o: Option<Box<Expr>>) -> Tree
    decreases o,
{
    match o {
        Some(e) => some(expr_tree(*e)),
        None => Tree::Absent,
    }
}

pub open spec fn expr_trees(v: Seq<Expr>) -> Seq<Tree>
    decreases v,
{
    Seq::new(
        v.len(),
        |i: int|
            if 0 <= i < v.len() {
                expr_tree(v[i])
            } else {
                Tree::Absent
            },
    )
}

pub open spec fn stmt_trees(v: Seq<Stmt>) -> Seq<Tree>
    decreases v,
{
    Seq::new(
        v.len(),
        |i: int|
            if 0 <= i < v.len() {
                stmt_tree(v[i])
            } else {
                Tree::Absent
            },
    )
}

pub open spec fn decl_tree(d: (Pattern, Option<Expr>)) -> Tree
    decreases d,
{
    tuple2(pattern_tree(d.0), opt_expr(d.1))
}

pub open spec fn decl_trees(v: Seq<(Pattern, Option<Expr>)>) -> Seq<Tree>
    decreases v,
{
    Seq::new(
        v.len(),
        |i: int|
            if 0 <= i < v.len() {
                decl_tree(v[i])
            } else {
                Tree::Absent
            },
    )
}

pub open spec fn case_tree(c: SwitchCase) -> Tree
    decreases c,
{
    tuple2(opt_expr(c.test), Tree::List(stmt_trees(c.body@)))
}

pub open spec fn case_trees(v: Seq<SwitchCase>) -> Seq<Tree>
    decreases v,
{
    Seq::new(
        v.len(),
        |i: int|
            if 0 <= i < v.len() {
                case_tree(v[i])
            } else {
                Tree::Absent
            },
    )
}

pub open spec fn opt_pattern(o: Option<Pattern>) -> Tree
    decreases o,
{
    match o {
        Some(p) => some(pattern_tree(p)),
        None => Tree::Absent,
    }
}

pub open spec fn handler_tree(h: (Option<Pattern>, Vec<Stmt>)) -> Tree
    decreases h,
{
    tuple2(opt_pattern(h.0), Tree::List(stmt_trees(h.1@)))
}

pub open spec fn opt_handler(o: Option<(Option<Pattern>, Vec<Stmt>)>) -> Tree
    decreases o,
{
    match o {
        Some(h) => some(handler_tree(h)),
        None => Tree::Absent,
    }
}

pub open spec fn opt_stmts(o: Option<Vec<Stmt>>) -> Tree
    decreases o,
{
    match o {
        Some(b) => some(Tree::List(stmt_trees(b@))),
        None => Tree::Absent,
    }
}

pub open spec fn opt_boxed_stmt(o: Option<Box<Stmt>>) -> Tree
    decreases o,
{
    match o {
        Some(s) => some(stmt_tree(*s)),
        None => Tree::Absent,
    }
}

pub open spec fn opt_for_init(o: Option<Box<ForInit>>) -> Tree
    decreases o,
{
    match o {
        Some(i) => some(for_init_tree(*i)),
        None => Tree::Absent,
    }
}

pub open spec fn opt_function(o: Option<Rc<Function>>) -> Tree
    decreases o,
{
    match o {
        Some(f) => some(function_tree(&*f)),
        None => Tree::Absent,
    }
}

pub open spec fn stmt_tree(s: Stmt) -> Tree
    decreases s,
{
    match s {
        Stmt::Expr(e) => node1(0, expr_tree(e)),
        Stmt::VarDecl { kind, decls } => node2(1, decl_kind_tree(kind), Tree::List(decl_trees(decls@))),
        Stmt::FuncDecl(f) => node1(2, function_tree(&*f)),
        Stmt::Return(e) => node1(3, opt_expr(e)),
        Stmt::If { test, cons, alt } => node3(4, expr_tree(test), stmt_tree(*cons), opt_boxed_stmt(alt)),
        Stmt::Block(b) => node1(5, Tree::List(stmt_trees(b@))),
        Stmt::While { test, body } => node2(6, expr_tree(test), stmt_tree(*body)),
        Stmt::DoWhile { body, test } => node2(7, stmt_tree(*body), expr_tree(test)),
        Stmt::For { init, test, update, body } => node4(8, opt_for_init(init), opt_expr(test), opt_expr(update), stmt_tree(*body)),
        Stmt::ForInOf { decl, left, right, of, is_await, body } => node6(9, opt_decl_kind(decl), pattern_tree(left), expr_tree(right), Tree::Bool(of), Tree::Bool(is_await), stmt_tree(*body)),
        Stmt::Break(l) => node1(10, opt_text(l)),
        Stmt::Continue(l) => node1(11, opt_text(l)),
        Stmt::Throw(e) => node1(12, expr_tree(e)),
        Stmt::Try { block, handler, finalizer } => node3(13, Tree::List(stmt_trees(block@)), opt_handler(handler), opt_stmts(finalizer)),
        Stmt::Switch { disc, cases } => node2(14, expr_tree(disc), Tree::List(case_trees(cases@))),
        Stmt::Labeled { label, body } => node2(15, text(label), stmt_tree(*body)),
        Stmt::With { obj, body } => node2(16, expr_tree(obj), stmt_tree(*body)),
        Stmt::ClassDecl(c) => node1(17, class_tree(&*c)),
        Stmt::Empty => node0(18),
        Stmt::Debugger => node0(19),
        Stmt::Import(d) => node3(20, text(d.source), import_specs(d.specs@), opt_text(d.attr_type)),
        Stmt::ExportNamed { specs, source } => node2(21, export_specs(specs@), opt_text(source)),
        Stmt::ExportDecl(s) => node1(22, stmt_tree(*s)),
        Stmt::ExportDefault(s) => node1(23, stmt_tree(*s)),
        Stmt::ExportAll { source, exported } => node2(24, text(source), opt_text(exported)),
    }
}

pub open spec fn for_init_tree(i: ForInit) -> Tree
    decreases i,
{
    match i {
        ForInit::VarDecl { kind, decls } => node2(0, decl_kind_tree(kind), Tree::List(decl_trees(decls@))),
        ForInit::Expr(e) => node1(1, expr_tree(e)),
    }
}

pub open spec fn elem_tree(e: ArrayElem) -> Tree
    decreases e,
{
    match e {
        ArrayElem::Item(x) => node1(0, expr_tree(x)),
        ArrayElem::Spread(x) => node1(1, expr_tree(x)),
        ArrayElem::Hole => node0(2),
    }
}

pub open spec fn elem_trees(v: Seq<ArrayElem>) -> Seq<Tree>
    decreases v,
{
    Seq::new(
        v.len(),
        |i: int|
            if 0 <= i < v.len() {
                elem_tree(v[i])
            } else {
                Tree::Absent
            },
    )
}

pub open spec fn prop_key_tree(k: PropKey) -> Tree
    decreases k,
{
    match k {
        PropKey::Ident(n) => node1(0, text(n)),
        PropKey::Str(s) => node1(1, text(s)),
        PropKey::Num(n) => node1(2, Tree::Bits(n)),
        PropKey::Computed(e) => node1(3, expr_tree(e)),
    }
}

pub open spec fn prop_def_tree(p: PropDef) -> Tree
    decreases p,
{
    match p {
        PropDef::KeyValue { key, value } => node2(0, prop_key_tree(key), expr_tree(value)),
        PropDef::Cover { key, value } => node2(1, prop_key_tree(key), expr_tree(value)),
        PropDef::Method { key, func } => node2(2, prop_key_tree(key), function_tree(&*func)),
        PropDef::Getter { key, func } => node2(3, prop_key_tree(key), function_tree(&*func)),
        PropDef::Setter { key, func } => node2(4, prop_key_tree(key), function_tree(&*func)),
        PropDef::Spread(e) => node1(5, expr_tree(e)),
        PropDef::Proto(e) => node1(6, expr_tree(e)),
    }
}

pub open spec fn prop_def_trees(v: Seq<PropDef>) -> Seq<Tree>
    decreases v,
{
    Seq::new(
        v.len(),
        |i: int|
            if 0 <= i < v.len() {
                prop_def_tree(v[i])
            } else {
                Tree::Absent
            },
    )
}

pub open spec fn expr_tree(e: Expr) -> Tree
    decreases e,
{
    match e {
        Expr::Paren(x) => node1(0, expr_tree(*x)),
        Expr::Num(n) => node1(1, Tree::Bits(n)),
        Expr::BigInt(b) => node1(2, Tree::Integer(b@)),
        Expr::Str(s) => node1(3, text(s)),
        Expr::ToStr(x) => node1(4, expr_tree(*x)),
        Expr::Bool(b) => node1(5, Tree::Bool(b)),
        Expr::Null => node0(6),
        Expr::Undefined => node0(7),
        Expr::Ident(n) => node1(8, text(n)),
        Expr::This => node0(9),
        Expr::Regex { body, flags } => node2(10, text(body), text(flags)),
        Expr::Array(elems) => node1(11, Tree::List(elem_trees(elems@))),
        Expr::Object(props) => node1(12, Tree::List(prop_def_trees(props@))),
        Expr::Func(f) => node1(13, function_tree(&*f)),
        Expr::Class(c) => node1(14, class_tree(&*c)),
        Expr::Yield { delegate, arg } => node2(15, Tree::Bool(delegate), opt_boxed_expr(arg)),
        Expr::Await(x) => node1(16, expr_tree(*x)),
        Expr::Super => node0(17),
        Expr::Unary { op, arg } => node2(18, Tree::Operator(op@), expr_tree(*arg)),
        Expr::Update { op, prefix, arg } => node3(19, Tree::Operator(op@), Tree::Bool(prefix), expr_tree(*arg)),
        Expr::Binary { op, left, right } => node3(20, Tree::Operator(op@), expr_tree(*left), expr_tree(*right)),
        Expr::Logical { op, left, right } => node3(21, Tree::Operator(op@), expr_tree(*left), expr_tree(*right)),
        Expr::Assign { op, target, value } => node3(22, Tree::Operator(op@), expr_tree(*target), expr_tree(*value)),
        Expr::Cond { test, cons, alt } => node3(23, expr_tree(*test), expr_tree(*cons), expr_tree(*alt)),
        Expr::Call { callee, args, optional } => node3(24, expr_tree(*callee), Tree::List(elem_trees(args@)), Tree::Bool(optional)),
        Expr::New { callee, args } => node2(25, expr_tree(*callee), Tree::List(elem_trees(args@))),
        Expr::Member { obj, prop, optional } => node3(26, expr_tree(*obj), text(prop), Tree::Bool(optional)),
        Expr::Index { obj, index, optional } => node3(27, expr_tree(*obj), expr_tree(*index), Tree::Bool(optional)),
        Expr::Sequence(exprs) => node1(28, Tree::List(expr_trees(exprs@))),
        Expr::TaggedTemplate { tag, quasis: q, subs } => node3(29, expr_tree(*tag), quasis(q@), Tree::List(expr_trees(subs@))),
        Expr::OptionalChain(x) => node1(30, expr_tree(*x)),
        Expr::PrivateIn { name, obj } => node2(31, text(name), expr_tree(*obj)),
        Expr::ImportCall { spec, phase, options } => node3(32, expr_tree(*spec), import_phase_tree(phase), opt_boxed_expr(options)),
        Expr::ImportMeta => node0(33),
        Expr::NewTarget => node0(34),
    }
}

pub open spec fn pat_elem_tree(e: ArrayPatElem) -> Tree
    decreases e,
{
    match e {
        ArrayPatElem::Hole => node0(0),
        ArrayPatElem::Elem { pattern, default } => node2(1, pattern_tree(pattern), opt_expr(default)),
        ArrayPatElem::Rest(p) => node1(2, pattern_tree(p)),
    }
}

pub open spec fn pat_elem_trees(v: Seq<ArrayPatElem>) -> Seq<Tree>
    decreases v,
{
    Seq::new(
        v.len(),
        |i: int|
            if 0 <= i < v.len() {
                pat_elem_tree(v[i])
            } else {
                Tree::Absent
            },
    )
}

pub open spec fn pat_prop_tree(p: ObjPatProp) -> Tree
    decreases p,
{
    tuple3(prop_key_tree(p.key), pattern_tree(p.value), opt_expr(p.default))
}

pub open spec fn pat_prop_trees(v: Seq<ObjPatProp>) -> Seq<Tree>
    decreases v,
{
    Seq::new(
        v.len(),
        |i: int|
            if 0 <= i < v.len() {
                pat_prop_tree(v[i])
            } else {
                Tree::Absent
            },
    )
}

pub open spec fn pattern_tree(p: Pattern) -> Tree
    decreases p,
{
    match p {
        Pattern::Ident(n) => node1(0, text(n)),
        Pattern::Array(elems) => node1(1, Tree::List(pat_elem_trees(elems@))),
        Pattern::Object(o) => node2(2, Tree::List(pat_prop_trees(o.props@)), opt_text(o.rest)),
        Pattern::Member(e) => node1(3, expr_tree(*e)),
    }
}

pub open spec fn param_tree(p: Param) -> Tree
    decreases p,
{
    tuple3(pattern_tree(p.pattern), opt_expr(p.default), Tree::Bool(p.rest))
}

pub open spec fn param_trees(v: Seq<Param>) -> Seq<Tree>
    decreases v,
{
    Seq::new(
        v.len(),
        |i: int|
            if 0 <= i < v.len() {
                param_tree(v[i])
            } else {
                Tree::Absent
            },
    )
}

pub open spec fn function_tree(f: &Function) -> Tree
    decreases f,
{
    tuple5(opt_text(f.name), Tree::List(param_trees(f.params@)), Tree::List(stmt_trees(f.body@)), Tree::Flags(function_flags(f)), opt_text(f.source))
}

pub open spec fn member_tree(m: ClassMember) -> Tree
    decreases m,
{
    tuple6(prop_key_tree(m.key), member_kind_tree(m.kind), Tree::Bool(m.is_static), opt_function(m.func), opt_expr(m.value), Tree::List(expr_trees(m.decorators@)))
}

pub open spec fn member_trees(v: Seq<ClassMember>) -> Seq<Tree>
    decreases v,
{
    Seq::new(
        v.len(),
        |i: int|
            if 0 <= i < v.len() {
                member_tree(v[i])
            } else {
                Tree::Absent
            },
    )
}

pub open spec fn class_tree(c: &Class) -> Tree
    decreases c,
{
    tuple5(opt_text(c.name), opt_boxed_expr(c.superclass), Tree::List(member_trees(c.members@)), Tree::List(expr_trees(c.decorators@)), opt_text(c.source))
}

/// The tree of a whole program: the list of its statements.
pub open spec fn program_tree(body: Seq<Stmt>) -> Tree {
    Tree::List(stmt_trees(body))
}

} // verus!
