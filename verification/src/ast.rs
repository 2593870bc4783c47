//! The syntax tree that the parser hands to the rest of the engine.
//!
//! Number literals are kept as their IEEE-754 bit pattern, so that a tree can be compared, stored
//! and restored bit for bit.
use std::rc::Rc;
use vstd::prelude::*;

use crate::bigint::JsBigInt;

verus! {

/// The keyword that introduces a variable declaration.
#[derive(Clone, Copy, PartialEq, Eq, Structural, Debug)]
pub enum DeclKind {
    Var,
    Let,
    Const,
    Using,
    AwaitUsing,
}

/// What a class member is.
#[derive(Clone, Copy, PartialEq, Eq, Structural, Debug)]
pub enum MemberKind {
    Constructor,
    Method,
    Getter,
    Setter,
    Field,
    Accessor,
    StaticBlock,
}

/// The phase that an `import(..)` call asks for.
#[derive(Clone, Copy, PartialEq, Eq, Structural, Debug)]
pub enum ImportPhase {
    Evaluation,
    Source,
    Defer,
}

#[allow(inconsistent_fields)]
pub enum Stmt {
    Expr(Expr),
    VarDecl { kind: DeclKind, decls: Vec<(Pattern, Option<Expr>)> },
    FuncDecl(Rc<Function>),
    Return(Option<Expr>),
    If { test: Expr, cons: Box<Stmt>, alt: Option<Box<Stmt>> },
    Block(Vec<Stmt>),
    While { test: Expr, body: Box<Stmt> },
    DoWhile { body: Box<Stmt>, test: Expr },
    For {
        init: Option<Box<ForInit>>,
        test: Option<Expr>,
        update: Option<Expr>,
        body: Box<Stmt>,
    },
    ForInOf {
        decl: Option<DeclKind>,
        left: Pattern,
        right: Expr,
        of: bool,
        is_await: bool,
        body: Box<Stmt>,
    },
    Break(Option<String>),
    Continue(Option<String>),
    Throw(Expr),
    Try {
        block: Vec<Stmt>,
        handler: Option<(Option<Pattern>, Vec<Stmt>)>,
        finalizer: Option<Vec<Stmt>>,
    },
    Switch { disc: Expr, cases: Vec<SwitchCase> },
    Labeled { label: String, body: Box<Stmt> },
    With { obj: Expr, body: Box<Stmt> },
    ClassDecl(Rc<Class>),
    Empty,
    Debugger,
    Import(ImportDecl),
    ExportNamed { specs: Vec<ExportSpec>, source: Option<String> },
    ExportDecl(Box<Stmt>),
    ExportDefault(Box<Stmt>),
    ExportAll { source: String, exported: Option<String> },
}

pub struct SwitchCase {
    pub test: Option<Expr>,
    pub body: Vec<Stmt>,
}

pub enum ForInit {
    VarDecl { kind: DeclKind, decls: Vec<(Pattern, Option<Expr>)> },
    Expr(Expr),
}

pub struct ImportDecl {
    pub source: String,
    pub specs: Vec<ImportSpec>,
    pub attr_type: Option<String>,
}

pub enum ImportSpec {
    Default(String),
    Namespace(String),
    DeferNamespace(String),
    Source(String),
    Named { imported: String, local: String },
}

pub struct ExportSpec {
    pub local: String,
    pub exported: String,
}

#[allow(inconsistent_fields)]
pub enum Expr {
    Paren(Box<Expr>),
    /// A number literal, as the bits of its double.
    Num(u64),
    BigInt(JsBigInt),
    Str(String),
    ToStr(Box<Expr>),
    Bool(bool),
    Null,
    Undefined,
    Ident(String),
    This,
    Regex { body: String, flags: String },
    Array(Vec<ArrayElem>),
    Object(Vec<PropDef>),
    Func(Rc<Function>),
    Class(Rc<Class>),
    Yield { delegate: bool, arg: Option<Box<Expr>> },
    Await(Box<Expr>),
    Super,
    Unary { op: &'static str, arg: Box<Expr> },
    Update { op: &'static str, prefix: bool, arg: Box<Expr> },
    Binary { op: &'static str, left: Box<Expr>, right: Box<Expr> },
    Logical { op: &'static str, left: Box<Expr>, right: Box<Expr> },
    Assign { op: &'static str, target: Box<Expr>, value: Box<Expr> },
    Cond { test: Box<Expr>, cons: Box<Expr>, alt: Box<Expr> },
    Call { callee: Box<Expr>, args: Vec<ArrayElem>, optional: bool },
    New { callee: Box<Expr>, args: Vec<ArrayElem> },
    Member { obj: Box<Expr>, prop: String, optional: bool },
    Index { obj: Box<Expr>, index: Box<Expr>, optional: bool },
    Sequence(Vec<Expr>),
    TaggedTemplate { tag: Box<Expr>, quasis: Vec<(Option<String>, String)>, subs: Vec<Expr> },
    OptionalChain(Box<Expr>),
    PrivateIn { name: String, obj: Box<Expr> },
    ImportCall { spec: Box<Expr>, phase: ImportPhase, options: Option<Box<Expr>> },
    ImportMeta,
    NewTarget,
}

pub enum ArrayElem {
    Item(Expr),
    Spread(Expr),
    Hole,
}

pub enum PropDef {
    KeyValue { key: PropKey, value: Expr },
    Cover { key: PropKey, value: Expr },
    Method { key: PropKey, func: Rc<Function> },
    Getter { key: PropKey, func: Rc<Function> },
    Setter { key: PropKey, func: Rc<Function> },
    Spread(Expr),
    Proto(Expr),
}

pub enum PropKey {
    Ident(String),
    Str(String),
    /// A numeric key, as the bits of its double.
    Num(u64),
    Computed(Expr),
}

pub enum Pattern {
    Ident(String),
    Array(Vec<ArrayPatElem>),
    Object(ObjectPat),
    Member(Box<Expr>),
}

pub enum ArrayPatElem {
    Hole,
    Elem { pattern: Pattern, default: Option<Expr> },
    Rest(Pattern),
}

pub struct ObjectPat {
    pub props: Vec<ObjPatProp>,
    pub rest: Option<String>,
}

pub struct ObjPatProp {
    pub key: PropKey,
    pub value: Pattern,
    pub default: Option<Expr>,
}

pub struct Param {
    pub pattern: Pattern,
    pub default: Option<Expr>,
    pub rest: bool,
}

pub struct Function {
    pub name: Option<String>,
    pub params: Vec<Param>,
    pub body: Vec<Stmt>,
    pub is_arrow: bool,
    pub is_strict: bool,
    pub expr_body: bool,
    pub is_generator: bool,
    pub is_async: bool,
    pub is_method: bool,
    pub is_fn_expr: bool,
    pub source: Option<String>,
}

pub struct Class {
    pub name: Option<String>,
    pub superclass: Option<Box<Expr>>,
    pub members: Vec<ClassMember>,
    pub decorators: Vec<Expr>,
    pub source: Option<String>,
}

pub struct ClassMember {
    pub key: PropKey,
    pub kind: MemberKind,
    pub is_static: bool,
    pub func: Option<Rc<Function>>,
    pub value: Option<Expr>,
    pub decorators: Vec<Expr>,
}

} // verus!
