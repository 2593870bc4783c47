//! Programs from source text: their snapshots, questions about them, and running them.
use std::collections::HashMap;
use std::rc::Rc;

use lumen::ast::{
    ArrayElem, ArrayPatElem, Class, ClassMember, DeclKind, Expr, ForInit, Function, ImportPhase,
    MemberKind, ObjPatProp, ObjectPat, Param, Pattern, PropDef, PropKey, Stmt, SwitchCase,
};
use lumen::bigint::JsBigInt;
use lumen::engine::{
    compile_snapshot, read_script, AgentChannels, Completion, Engine, ParseError, Tier,
};
use lumen::interp::class::{add_initializer, init_instance_fields};
use lumen::interp::exec::run_stmt_list;
use lumen::interp::program::NativeOp;
use lumen::interp::promise::{new_promise, promise_reject_native, promise_resolve_native};
use lumen::interp::session::{
    Abrupt, Answer, Host, Key, Memory, OwnName, Request, Session, Value, EVAL_DEPTH,
};
use lumen::jobs::{Job, Status};
use lumen::number::{from_int, Relation};
use lumen::scan::awaits::body_has_tla;
use lumen::scan::contains::{stmts_have_arguments_ref, stmts_have_super_call, stmts_have_super_prop};
use lumen::scan::faults::{field_init_error, top_level_super_call_error};
use lumen::scan::{
    default_constructor, describe_callee, directive_strict, has_label, is_anonymous_fn,
    needs_default_placeholder, stmts_declare_lexical, stmts_declare_using,
};
use lumen::snapshot::{decode, encode};
use lumen::units::{relate_units, unit_len};
use lumen::value::props::Property;

const BINARY: [(&str, u8); 25] = [
    ("??", 1),
    ("||", 2),
    ("&&", 3),
    ("|", 4),
    ("^", 5),
    ("&", 6),
    ("===", 7),
    ("!==", 7),
    ("==", 7),
    ("!=", 7),
    ("instanceof", 8),
    ("in", 8),
    ("<<", 9),
    (">>>", 9),
    (">>", 9),
    ("<=", 8),
    (">=", 8),
    ("<", 8),
    (">", 8),
    ("+", 10),
    ("-", 10),
    ("**", 12),
    ("*", 11),
    ("/", 11),
    ("%", 11),
];

const ASSIGN: [&str; 16] = [
    "??=", "||=", "&&=", "**=", ">>>=", "<<=", ">>=", "+=", "-=", "*=", "/=", "%=", "&=", "|=", "^=",
    "=",
];

type P<T> = Result<T, String>;

struct Parser {
    c: Vec<char>,
    i: usize,
    no_in: bool,
}

fn word_char(c: char) -> bool {
    c.is_alphanumeric() || c == '_' || c == '$'
}

impl Parser {
    fn new(src: &str) -> Parser {
        Parser { c: src.chars().collect(), i: 0, no_in: false }
    }

    fn ws(&mut self) {
        while self.i < self.c.len() && self.c[self.i].is_whitespace() {
            self.i += 1;
        }
    }

    fn at(&self, s: &str) -> bool {
        let t: Vec<char> = s.chars().collect();
        if self.i + t.len() > self.c.len() || self.c[self.i..self.i + t.len()] != t[..] {
            return false;
        }
        if word_char(t[0]) {
            match self.c.get(self.i + t.len()) {
                Some(&n) => !word_char(n),
                None => true,
            }
        } else {
            true
        }
    }

    fn see(&mut self, s: &str) -> bool {
        self.ws();
        self.at(s)
    }

    fn eat(&mut self, s: &str) -> bool {
        if self.see(s) {
            self.i += s.chars().count();
            true
        } else {
            false
        }
    }

    fn need(&mut self, s: &str) -> P<()> {
        if self.eat(s) {
            Ok(())
        } else {
            Err(format!("expected {s} at {}", self.i))
        }
    }

    fn word(&mut self) -> P<String> {
        self.ws();
        let start = self.i;
        if self.i < self.c.len() && self.c[self.i] == '#' {
            self.i += 1;
        }
        while self.i < self.c.len() && word_char(self.c[self.i]) {
            self.i += 1;
        }
        if start == self.i {
            return Err(format!("expected a name at {}", self.i));
        }
        Ok(self.c[start..self.i].iter().collect())
    }

    fn semi(&mut self) {
        self.eat(";");
    }

    fn string(&mut self) -> P<String> {
        let q = self.c[self.i];
        self.i += 1;
        let start = self.i;
        while self.i < self.c.len() && self.c[self.i] != q {
            self.i += 1;
        }
        let s = self.c[start..self.i].iter().collect();
        self.i += 1;
        Ok(s)
    }

    fn number(&mut self) -> P<Expr> {
        let start = self.i;
        while self.i < self.c.len() && (word_char(self.c[self.i]) || self.c[self.i] == '.') {
            self.i += 1;
        }
        let text: String = self.c[start..self.i].iter().collect();
        if let Some(digits) = text.strip_suffix('n') {
            let v = match digits.strip_prefix("0x") {
                Some(h) => JsBigInt::parse_radix(h, 16),
                None => JsBigInt::parse_dec(digits),
            };
            return v.map(Expr::BigInt).ok_or(text);
        }
        text.parse::<f64>().map(|n| Expr::Num(n.to_bits())).map_err(|_| text)
    }

    fn template(&mut self) -> P<(Vec<(Option<String>, String)>, Vec<Expr>)> {
        self.need("`")?;
        let mut quasis = Vec::new();
        let mut subs = Vec::new();
        let mut text = String::new();
        loop {
            match self.c.get(self.i) {
                None => return Err("unterminated template".to_string()),
                Some('`') => {
                    self.i += 1;
                    quasis.push((Some(text.clone()), text));
                    return Ok((quasis, subs));
                }
                Some('$') if self.c.get(self.i + 1) == Some(&'{') => {
                    self.i += 2;
                    quasis.push((Some(text.clone()), text));
                    text = String::new();
                    subs.push(self.expr()?);
                    self.need("}")?;
                }
                Some(&c) => {
                    text.push(c);
                    self.i += 1;
                }
            }
        }
    }

    fn args(&mut self) -> P<Vec<ArrayElem>> {
        let mut out = Vec::new();
        while !self.eat(")") {
            if self.eat("...") {
                out.push(ArrayElem::Spread(self.assign()?));
            } else {
                out.push(ArrayElem::Item(self.assign()?));
            }
            if !self.see(")") {
                self.need(",")?;
            }
        }
        Ok(out)
    }

    fn prop_key(&mut self) -> P<PropKey> {
        self.ws();
        match self.c.get(self.i) {
            Some('[') => {
                self.i += 1;
                let e = self.assign()?;
                self.need("]")?;
                Ok(PropKey::Computed(e))
            }
            Some('\'') | Some('"') => Ok(PropKey::Str(self.string()?)),
            Some(c) if c.is_ascii_digit() => match self.number()? {
                Expr::Num(n) => Ok(PropKey::Num(n)),
                _ => Err("key".to_string()),
            },
            _ => Ok(PropKey::Ident(self.word()?)),
        }
    }

    fn params(&mut self) -> P<Vec<Param>> {
        let mut out = Vec::new();
        while !self.eat(")") {
            let rest = self.eat("...");
            let pattern = self.pattern()?;
            let default = if self.eat("=") { Some(self.assign()?) } else { None };
            out.push(Param { pattern, default, rest });
            if !self.see(")") {
                self.need(",")?;
            }
        }
        Ok(out)
    }

    fn function(&mut self, name: Option<String>, kind: (bool, bool, bool), expr: bool) -> P<Function> {
        let start = self.i;
        self.need("(")?;
        let params = self.params()?;
        self.need("{")?;
        let body = self.block()?;
        let source = self.c[start..self.i].iter().collect();
        Ok(Function {
            name,
            params,
            body,
            is_arrow: false,
            is_strict: false,
            expr_body: false,
            is_generator: kind.0,
            is_async: kind.1,
            is_method: kind.2,
            is_fn_expr: expr,
            source: Some(source),
        })
    }

    fn object(&mut self) -> P<Expr> {
        let mut props = Vec::new();
        while !self.eat("}") {
            props.push(self.prop()?);
            if !self.see("}") {
                self.need(",")?;
            }
        }
        Ok(Expr::Object(props))
    }

    fn prop(&mut self) -> P<PropDef> {
        if self.eat("...") {
            return Ok(PropDef::Spread(self.assign()?));
        }
        let back = self.i;
        for (mark, kind) in [("get", 0), ("set", 1), ("async", 2)] {
            if self.eat(mark) {
                let generator = self.eat("*");
                if !self.see("(") && !self.see(":") && !self.see(",") && !self.see("}") {
                    let key = self.prop_key()?;
                    let func = Rc::new(self.function(None, (generator, kind == 2, true), false)?);
                    return Ok(match kind {
                        0 => PropDef::Getter { key, func },
                        1 => PropDef::Setter { key, func },
                        _ => PropDef::Method { key, func },
                    });
                }
                self.i = back;
            }
        }
        let generator = self.eat("*");
        let key = self.prop_key()?;
        if self.see("(") {
            let func = Rc::new(self.function(None, (generator, false, true), false)?);
            return Ok(PropDef::Method { key, func });
        }
        if self.eat(":") {
            let value = self.assign()?;
            return Ok(match &key {
                PropKey::Ident(n) if n == "__proto__" => PropDef::Proto(value),
                _ => PropDef::KeyValue { key, value },
            });
        }
        match key {
            PropKey::Ident(n) => {
                let value = Expr::Ident(n.clone());
                Ok(PropDef::KeyValue { key: PropKey::Ident(n), value })
            }
            _ => Err("shorthand".to_string()),
        }
    }

    fn class(&mut self) -> P<Class> {
        let start = self.i;
        let name = if self.see("{") || self.see("extends") { None } else { Some(self.word()?) };
        let superclass =
            if self.eat("extends") { Some(Box::new(self.postfix()?)) } else { None };
        self.need("{")?;
        let mut members = Vec::new();
        loop {
            if self.eat(";") {
                continue;
            }
            if self.eat("}") {
                break;
            }
            members.push(self.member()?);
        }
        let source = self.c[start..self.i].iter().collect();
        Ok(Class { name, superclass, members, decorators: Vec::new(), source: Some(source) })
    }

    fn member(&mut self) -> P<ClassMember> {
        let is_static = self.eat("static");
        let plain = |key, kind, func, value| ClassMember {
            key,
            kind,
            is_static,
            func,
            value,
            decorators: Vec::new(),
        };
        if is_static && self.eat("{") {
            let body = self.block()?;
            let func = Function {
                name: None,
                params: Vec::new(),
                body,
                is_arrow: false,
                is_strict: true,
                expr_body: false,
                is_generator: false,
                is_async: false,
                is_method: true,
                is_fn_expr: false,
                source: None,
            };
            let key = PropKey::Str(String::new());
            return Ok(plain(key, MemberKind::StaticBlock, Some(Rc::new(func)), None));
        }
        let back = self.i;
        for (mark, kind) in [
            ("get", MemberKind::Getter),
            ("set", MemberKind::Setter),
            ("accessor", MemberKind::Accessor),
        ] {
            if self.eat(mark) {
                if self.see("(") || self.see("=") || self.see(";") {
                    self.i = back;
                    break;
                }
                let key = self.prop_key()?;
                if kind == MemberKind::Accessor {
                    let value = if self.eat("=") { Some(self.assign()?) } else { None };
                    self.semi();
                    return Ok(plain(key, kind, None, value));
                }
                let func = self.function(None, (false, false, true), false)?;
                return Ok(plain(key, kind, Some(Rc::new(func)), None));
            }
        }
        let key = self.prop_key()?;
        if self.see("(") {
            let func = self.function(None, (false, false, true), false)?;
            let kind = match &key {
                PropKey::Ident(n) if n == "constructor" => MemberKind::Constructor,
                _ => MemberKind::Method,
            };
            return Ok(plain(key, kind, Some(Rc::new(func)), None));
        }
        let value = if self.eat("=") { Some(self.assign()?) } else { None };
        self.semi();
        Ok(plain(key, MemberKind::Field, None, value))
    }

    fn primary(&mut self) -> P<Expr> {
        self.ws();
        let c = match self.c.get(self.i) {
            Some(&c) => c,
            None => return Err("unexpected end".to_string()),
        };
        if c == '\'' || c == '"' {
            return Ok(Expr::Str(self.string()?));
        }
        if c.is_ascii_digit() {
            return self.number();
        }
        if c == '`' {
            let (quasis, subs) = self.template()?;
            let mut out = Expr::Str(quasis[0].1.clone());
            for (k, sub) in subs.into_iter().enumerate() {
                let text = Expr::ToStr(Box::new(sub));
                out = Expr::Binary { op: "+", left: Box::new(out), right: Box::new(text) };
                let next = Expr::Str(quasis[k + 1].1.clone());
                out = Expr::Binary { op: "+", left: Box::new(out), right: Box::new(next) };
            }
            return Ok(out);
        }
        if self.eat("(") {
            let e = self.expr()?;
            self.need(")")?;
            return Ok(Expr::Paren(Box::new(e)));
        }
        if self.eat("[") {
            let mut items = Vec::new();
            while !self.eat("]") {
                if self.eat(",") {
                    items.push(ArrayElem::Hole);
                    continue;
                }
                if self.eat("...") {
                    items.push(ArrayElem::Spread(self.assign()?));
                } else {
                    items.push(ArrayElem::Item(self.assign()?));
                }
                if !self.see("]") {
                    self.need(",")?;
                }
            }
            return Ok(Expr::Array(items));
        }
        if self.eat("{") {
            return self.object();
        }
        if self.eat("class") {
            return Ok(Expr::Class(Rc::new(self.class()?)));
        }
        if self.eat("function") {
            let generator = self.eat("*");
            let name = if self.see("(") { None } else { Some(self.word()?) };
            return Ok(Expr::Func(Rc::new(self.function(name, (generator, false, false), true)?)));
        }
        if self.eat("new") {
            if self.eat(".") {
                self.need("target")?;
                return Ok(Expr::NewTarget);
            }
            let callee = Box::new(self.primary()?);
            let args = if self.eat("(") { self.args()? } else { Vec::new() };
            return Ok(Expr::New { callee, args });
        }
        if self.eat("import") {
            self.need("(")?;
            let spec = Box::new(self.assign()?);
            let options = if self.eat(",") { Some(Box::new(self.assign()?)) } else { None };
            self.need(")")?;
            return Ok(Expr::ImportCall { spec, phase: ImportPhase::Evaluation, options });
        }
        for (mark, e) in [
            ("true", Expr::Bool(true)),
            ("false", Expr::Bool(false)),
            ("null", Expr::Null),
            ("undefined", Expr::Undefined),
            ("this", Expr::This),
            ("super", Expr::Super),
        ] {
            if self.eat(mark) {
                return Ok(e);
            }
        }
        let name = self.word()?;
        if name.starts_with('#') && self.eat("in") {
            let obj = Box::new(self.binary(9)?);
            return Ok(Expr::PrivateIn { name, obj });
        }
        Ok(Expr::Ident(name))
    }

    fn postfix(&mut self) -> P<Expr> {
        let mut e = self.primary()?;
        let mut chain = false;
        loop {
            if self.see("`") {
                let (quasis, subs) = self.template()?;
                e = Expr::TaggedTemplate { tag: Box::new(e), quasis, subs };
            } else if self.see("?.") {
                self.i += 2;
                chain = true;
                e = if self.eat("(") {
                    Expr::Call { callee: Box::new(e), args: self.args()?, optional: true }
                } else if self.eat("[") {
                    let index = Box::new(self.expr()?);
                    self.need("]")?;
                    Expr::Index { obj: Box::new(e), index, optional: true }
                } else {
                    Expr::Member { obj: Box::new(e), prop: self.word()?, optional: true }
                };
            } else if self.see("...") {
                break;
            } else if self.eat(".") {
                e = Expr::Member { obj: Box::new(e), prop: self.word()?, optional: false };
            } else if self.eat("[") {
                let index = Box::new(self.expr()?);
                self.need("]")?;
                e = Expr::Index { obj: Box::new(e), index, optional: false };
            } else if self.eat("(") {
                e = Expr::Call { callee: Box::new(e), args: self.args()?, optional: false };
            } else {
                break;
            }
        }
        if chain {
            e = Expr::OptionalChain(Box::new(e));
        }
        for op in ["++", "--"] {
            if self.eat(op) {
                return Ok(Expr::Update { op, prefix: false, arg: Box::new(e) });
            }
        }
        Ok(e)
    }

    fn unary(&mut self) -> P<Expr> {
        for op in ["++", "--"] {
            if self.eat(op) {
                return Ok(Expr::Update { op, prefix: true, arg: Box::new(self.unary()?) });
            }
        }
        for op in ["typeof", "void", "delete", "!", "-", "+", "~"] {
            if self.eat(op) {
                return Ok(Expr::Unary { op, arg: Box::new(self.unary()?) });
            }
        }
        if self.eat("await") {
            return Ok(Expr::Await(Box::new(self.unary()?)));
        }
        self.postfix()
    }

    fn operator(&mut self) -> Option<(&'static str, u8)> {
        self.ws();
        if ASSIGN.iter().any(|a| self.at(a)) && !self.at("==") && !self.at("=>") {
            return None;
        }
        BINARY
            .iter()
            .filter(|(op, _)| self.at(op) && !(*op == "in" && self.no_in))
            .max_by_key(|(op, _)| op.len())
            .copied()
    }

    fn binary(&mut self, least: u8) -> P<Expr> {
        let mut left = self.unary()?;
        loop {
            match self.operator() {
                Some((op, rank)) if rank >= least => {
                    self.need(op)?;
                    let next = if op == "**" { rank } else { rank + 1 };
                    let right = Box::new(self.binary(next)?);
                    let l = Box::new(left);
                    left = if rank <= 3 {
                        Expr::Logical { op, left: l, right }
                    } else {
                        Expr::Binary { op, left: l, right }
                    };
                }
                _ => return Ok(left),
            }
        }
    }

    fn arrow(&mut self) -> P<Option<Expr>> {
        let back = self.i;
        let is_async = self.eat("async");
        let params = if self.eat("(") {
            self.params().ok()
        } else {
            self.word().ok().map(|n| {
                vec![Param { pattern: Pattern::Ident(n), default: None, rest: false }]
            })
        };
        let params = match params {
            Some(p) if self.eat("=>") => p,
            _ => {
                self.i = back;
                return Ok(None);
            }
        };
        let block = self.eat("{");
        let body =
            if block { self.block()? } else { vec![Stmt::Return(Some(self.assign()?))] };
        Ok(Some(Expr::Func(Rc::new(Function {
            name: None,
            params,
            body,
            is_arrow: true,
            is_strict: false,
            expr_body: !block,
            is_generator: false,
            is_async,
            is_method: false,
            is_fn_expr: false,
            source: None,
        }))))
    }

    fn assign(&mut self) -> P<Expr> {
        if let Some(f) = self.arrow()? {
            return Ok(f);
        }
        if self.eat("yield") {
            let delegate = self.eat("*");
            let arg = if self.see(";") || self.see("}") || self.see(")") {
                None
            } else {
                Some(Box::new(self.assign()?))
            };
            return Ok(Expr::Yield { delegate, arg });
        }
        let test = self.binary(1)?;
        if self.see("?") && !self.see("?.") && !self.see("??") {
            self.need("?")?;
            let cons = Box::new(self.assign()?);
            self.need(":")?;
            let alt = Box::new(self.assign()?);
            return Ok(Expr::Cond { test: Box::new(test), cons, alt });
        }
        if self.see("==") || self.see("=>") {
            return Ok(test);
        }
        for op in ASSIGN {
            if self.eat(op) {
                let value = Box::new(self.assign()?);
                return Ok(Expr::Assign { op, target: Box::new(test), value });
            }
        }
        Ok(test)
    }

    fn expr(&mut self) -> P<Expr> {
        let first = self.assign()?;
        if !self.see(",") {
            return Ok(first);
        }
        let mut items = vec![first];
        while self.eat(",") {
            items.push(self.assign()?);
        }
        Ok(Expr::Sequence(items))
    }

    fn pattern(&mut self) -> P<Pattern> {
        if self.eat("[") {
            let mut items = Vec::new();
            while !self.eat("]") {
                if self.eat(",") {
                    items.push(ArrayPatElem::Hole);
                    continue;
                }
                if self.eat("...") {
                    items.push(ArrayPatElem::Rest(self.pattern()?));
                } else {
                    let pattern = self.pattern()?;
                    let default = if self.eat("=") { Some(self.assign()?) } else { None };
                    items.push(ArrayPatElem::Elem { pattern, default });
                }
                if !self.see("]") {
                    self.need(",")?;
                }
            }
            return Ok(Pattern::Array(items));
        }
        if self.eat("{") {
            let mut props = Vec::new();
            let mut rest = None;
            while !self.eat("}") {
                if self.eat("...") {
                    rest = Some(self.word()?);
                    continue;
                }
                let key = self.prop_key()?;
                let value = if self.eat(":") {
                    self.pattern()?
                } else {
                    match &key {
                        PropKey::Ident(n) => Pattern::Ident(n.clone()),
                        _ => return Err("pattern".to_string()),
                    }
                };
                let default = if self.eat("=") { Some(self.assign()?) } else { None };
                props.push(ObjPatProp { key, value, default });
                if !self.see("}") {
                    self.need(",")?;
                }
            }
            return Ok(Pattern::Object(ObjectPat { props, rest }));
        }
        Ok(Pattern::Ident(self.word()?))
    }

    fn decls(&mut self) -> P<Vec<(Pattern, Option<Expr>)>> {
        let mut out = Vec::new();
        loop {
            let p = self.pattern()?;
            let init = if self.eat("=") { Some(self.assign()?) } else { None };
            out.push((p, init));
            if !self.eat(",") {
                return Ok(out);
            }
        }
    }

    fn block(&mut self) -> P<Vec<Stmt>> {
        let mut out = Vec::new();
        while !self.eat("}") {
            out.push(self.stmt()?);
        }
        Ok(out)
    }

    fn kind(&mut self) -> Option<DeclKind> {
        for (mark, kind) in
            [("var", DeclKind::Var), ("let", DeclKind::Let), ("const", DeclKind::Const)]
        {
            if self.eat(mark) {
                return Some(kind);
            }
        }
        let back = self.i;
        if self.eat("using") {
            self.ws();
            if self.c.get(self.i).is_some_and(|c| word_char(*c)) {
                return Some(DeclKind::Using);
            }
        }
        self.i = back;
        None
    }

    fn for_loop(&mut self) -> P<Stmt> {
        let is_await = self.eat("await");
        self.need("(")?;
        let back = self.i;
        let decl = self.kind();
        let head = self.pattern();
        if let Ok(left) = head {
            let of = self.eat("of");
            if of || self.eat("in") {
                let right = self.expr()?;
                self.need(")")?;
                let body = Box::new(self.stmt()?);
                return Ok(Stmt::ForInOf { decl, left, right, of, is_await, body });
            }
        }
        self.i = back;
        let init = if self.see(";") {
            None
        } else if let Some(kind) = self.kind() {
            Some(Box::new(ForInit::VarDecl { kind, decls: self.decls()? }))
        } else {
            Some(Box::new(ForInit::Expr(self.expr()?)))
        };
        self.need(";")?;
        let test = if self.see(";") { None } else { Some(self.expr()?) };
        self.need(";")?;
        let update = if self.see(")") { None } else { Some(self.expr()?) };
        self.need(")")?;
        let body = Box::new(self.stmt()?);
        Ok(Stmt::For { init, test, update, body })
    }

    fn label(&mut self) -> P<Option<String>> {
        if self.see(";") || self.see("}") {
            Ok(None)
        } else {
            Ok(Some(self.word()?))
        }
    }

    fn stmt(&mut self) -> P<Stmt> {
        if self.eat(";") {
            return Ok(Stmt::Empty);
        }
        if self.eat("{") {
            return Ok(Stmt::Block(self.block()?));
        }
        if let Some(kind) = self.kind() {
            let decls = self.decls()?;
            self.semi();
            return Ok(Stmt::VarDecl { kind, decls });
        }
        if self.eat("class") {
            return Ok(Stmt::ClassDecl(Rc::new(self.class()?)));
        }
        let back = self.i;
        let is_async = self.eat("async");
        if self.eat("function") {
            let generator = self.eat("*");
            let name = Some(self.word()?);
            let f = self.function(name, (generator, is_async, false), false)?;
            return Ok(Stmt::FuncDecl(Rc::new(f)));
        }
        self.i = back;
        if self.eat("return") {
            let arg = if self.see(";") || self.see("}") { None } else { Some(self.expr()?) };
            self.semi();
            return Ok(Stmt::Return(arg));
        }
        if self.eat("throw") {
            let e = self.expr()?;
            self.semi();
            return Ok(Stmt::Throw(e));
        }
        if self.eat("break") {
            let l = self.label()?;
            self.semi();
            return Ok(Stmt::Break(l));
        }
        if self.eat("continue") {
            let l = self.label()?;
            self.semi();
            return Ok(Stmt::Continue(l));
        }
        if self.eat("if") {
            self.need("(")?;
            let test = self.expr()?;
            self.need(")")?;
            let cons = Box::new(self.stmt()?);
            let alt = if self.eat("else") { Some(Box::new(self.stmt()?)) } else { None };
            return Ok(Stmt::If { test, cons, alt });
        }
        if self.eat("while") {
            self.need("(")?;
            let test = self.expr()?;
            self.need(")")?;
            return Ok(Stmt::While { test, body: Box::new(self.stmt()?) });
        }
        if self.eat("do") {
            let body = Box::new(self.stmt()?);
            self.need("while")?;
            self.need("(")?;
            let test = self.expr()?;
            self.need(")")?;
            self.semi();
            return Ok(Stmt::DoWhile { body, test });
        }
        if self.eat("for") {
            return self.for_loop();
        }
        if self.eat("with") {
            self.need("(")?;
            let obj = self.expr()?;
            self.need(")")?;
            return Ok(Stmt::With { obj, body: Box::new(self.stmt()?) });
        }
        if self.eat("try") {
            self.need("{")?;
            let block = self.block()?;
            let handler = if self.eat("catch") {
                let param = if self.eat("(") {
                    let p = self.pattern()?;
                    self.need(")")?;
                    Some(p)
                } else {
                    None
                };
                self.need("{")?;
                Some((param, self.block()?))
            } else {
                None
            };
            let finalizer = if self.eat("finally") {
                self.need("{")?;
                Some(self.block()?)
            } else {
                None
            };
            return Ok(Stmt::Try { block, handler, finalizer });
        }
        if self.eat("switch") {
            self.need("(")?;
            let disc = self.expr()?;
            self.need(")")?;
            self.need("{")?;
            let mut cases = Vec::new();
            while !self.eat("}") {
                let test = if self.eat("default") {
                    None
                } else {
                    self.need("case")?;
                    Some(self.expr()?)
                };
                self.need(":")?;
                let mut body = Vec::new();
                while !self.see("case") && !self.see("default") && !self.see("}") {
                    body.push(self.stmt()?);
                }
                cases.push(SwitchCase { test, body });
            }
            return Ok(Stmt::Switch { disc, cases });
        }
        let back = self.i;
        if let Ok(label) = self.word() {
            if self.eat(":") {
                return Ok(Stmt::Labeled { label, body: Box::new(self.stmt()?) });
            }
        }
        self.i = back;
        let e = self.expr()?;
        self.semi();
        Ok(Stmt::Expr(e))
    }
}

fn parse(src: &str) -> Result<Vec<Stmt>, ParseError> {
    let mut p = Parser::new(src);
    let mut out = Vec::new();
    loop {
        p.ws();
        if p.i >= p.c.len() {
            return Ok(out);
        }
        match p.stmt() {
            Ok(s) => out.push(s),
            Err(message) => {
                let line = 1 + p.c[..p.i.min(p.c.len())].iter().filter(|c| **c == '\n').count();
                let at_eof = p.i >= p.c.len();
                return Err(ParseError { message, line: line as u32, at_eof });
            }
        }
    }
}

fn assert_roundtrips(src: &str) {
    let blob = compile_snapshot(&parse(src)).unwrap_or_else(|e| panic!("compile {src:?}: {e}"));
    let ast = decode(&blob).unwrap_or_else(|e| panic!("decode {src:?}: {e}"));
    assert_eq!(blob, encode(&ast), "re-encode differs for: {src}");
}

#[test]
fn roundtrip_diverse_constructs() {
    for src in [
        "1; 'two'; true; null; undefined; 0xffn; 1.5e10;",
        "let { a, b: [c, ...d] = [], ...rest } = obj; const [x = 1, , z] = arr;",
        "class C extends B { #f = 1; static s = 2; get g(){return this.#f} set g(v){} accessor a; static { init(); } has(o){ return #f in o } ['x'+y]() {} }",
        "async function* gen(a, b = 1, ...c) { yield* a; await b; for await (const x of c) {} }",
        "const f = (x) => x ? a?.b.c?.() : `t${x}${'raw'}`; tag`a${1}b`;",
        "try { throw new E(); } catch { } finally { } with (o) { o.p = 1; } label: for (k in o) break label;",
        "a ??= b; c ||= d; e &&= f; g **= h; -x; !y; typeof z; void 0; delete o.p; a in b; a instanceof B;",
        "switch (x) { case 1: break; default: } do { i++ } while (i < 10); function ctor(){ return new.target; }",
        "const p = import('m'); const q = import('m', { with: { type: 'json' } });",
        "obj = { __proto__: p, shorthand, key: v, [comp]: w, m() {}, get g() {}, *gen() {}, async am() {}, ...spread };",
    ] {
        assert_roundtrips(src);
    }
}

#[test]
fn snapshot_of_one_number() {
    let body = vec![Stmt::Expr(Expr::Num(1.5f64.to_bits()))];
    let blob = encode(&body);
    let back = decode(&blob).unwrap_or_default();
    assert_eq!(back.len(), 1);
    match &back[0] {
        Stmt::Expr(Expr::Num(n)) => assert_eq!(*n, 1.5f64.to_bits()),
        _ => panic!("another statement"),
    }
}

#[test]
fn programs_with_different_snapshots() {
    let a = encode(&parse("a = 1;").unwrap());
    let b = encode(&parse("a = 2;").unwrap());
    assert_ne!(a, b);
}

#[test]
fn truncated_snapshot_is_refused() {
    let blob = encode(&parse("let x = 'text';").unwrap());
    for n in 0..blob.len() {
        assert!(decode(&blob[..n]).is_err(), "{n} bytes");
    }
    assert!(decode(&blob).is_ok());
}

#[test]
fn snapshot_errors_name_their_fault() {
    let good = encode(&parse("x;").unwrap());
    let message = |bytes: &[u8]| match decode(bytes) {
        Ok(_) => String::new(),
        Err(m) => m,
    };
    assert!(message(&[]).starts_with("snapshot: "));
    let mut bad = good.clone();
    bad[0] ^= 1;
    assert_ne!(message(&bad), message(&good[..2]));
    assert!(message(&bad).contains("magic"));
}

#[test]
fn parse_error_text() {
    let e = ParseError { message: "unexpected }".to_string(), line: 12, at_eof: false };
    assert_eq!(compile_snapshot(&Err(e)).unwrap_err(), "unexpected } (line 12)");
}

/// An object: its properties in their order, and what it inherits from.
#[derive(Default, Clone)]
struct Thing {
    props: Vec<(String, Property)>,
    proto: Option<Value>,
    callable: bool,
    length: Option<u64>,
    sealed: bool,
}

impl Thing {
    fn get(&self, key: &str) -> Option<Property> {
        self.props.iter().find(|(k, _)| k == key).map(|(_, p)| *p)
    }

    fn put(&mut self, key: &str, prop: Property) {
        match self.props.iter_mut().find(|(k, _)| k == key) {
            Some(slot) => slot.1 = prop,
            None => self.props.push((key.to_string(), prop)),
        }
    }

    fn has(&self, key: &str) -> bool {
        self.get(key).is_some()
    }
}

/// A host with objects, and nothing else.
#[derive(Default)]
struct Toy<'a> {
    functions: HashMap<u64, (&'a Function, usize)>,
    /// The functions that read and write the field behind an accessor.
    accessors: HashMap<u64, (String, bool)>,
    objects: Vec<Thing>,
    symbols: Vec<String>,
    kinds: HashMap<u64, String>,
    errors: Vec<String>,
    calls: Vec<(Value, Vec<Value>)>,
    imports: Vec<String>,
    defined: Vec<(String, Property)>,
    prints: Vec<Value>,
    promises: u64,
}

/// The places of the global object and of the function `eval`.
const GLOBAL: u64 = 0;
const EVAL: u64 = 1;

fn add_text(memory: &mut Memory<'_>, s: &str) -> Value {
    memory.texts.push(s.to_string());
    Value::Str(memory.texts.len() as u64 - 1)
}

fn shown(v: Value, memory: &Memory<'_>) -> String {
    match v {
        Value::Str(n) => memory.texts[n as usize].clone(),
        Value::Num(n) => format!("{}", f64::from_bits(n)),
        Value::Bool(b) => format!("{b}"),
        Value::Undefined => "undefined".to_string(),
        Value::Null => "null".to_string(),
        _ => "?".to_string(),
    }
}

impl<'a> Toy<'a> {
    fn new() -> Toy<'a> {
        let mut t = Toy::default();
        t.objects.push(Thing::default());
        t.objects.push(Thing { callable: true, ..Thing::default() });
        t.objects[0].put("eval", Property::plain(Value::Obj(EVAL)));
        t
    }

    fn symbol(&mut self, s: String) -> Answer<'a> {
        self.symbols.push(s);
        Answer::Handle(self.symbols.len() as u64 - 1)
    }

    fn key(&self, k: &Key<'_>, memory: &Memory<'a>) -> String {
        match k {
            Key::Source(s) => s.to_string(),
            Key::Fixed(s) => s.to_string(),
            Key::Index(n) => format!("{n}"),
            Key::Made(at) => memory.texts[*at as usize].clone(),
            Key::Symbol(h) => self.symbols[*h as usize].clone(),
            Key::Declared { env, at } => memory.scopes.names_in(*env)[*at as usize].clone(),
        }
    }

    fn object(&mut self) -> Value {
        self.objects.push(Thing::default());
        Value::Obj(self.objects.len() as u64 - 1)
    }

    fn callable(&mut self) -> Value {
        self.objects.push(Thing { callable: true, ..Thing::default() });
        Value::Obj(self.objects.len() as u64 - 1)
    }

    fn error(&mut self, kind: &str, message: Value, memory: &Memory<'_>) -> Value {
        self.errors.push(shown(message, memory));
        self.objects.push(Thing::default());
        let place = self.objects.len() - 1;
        self.objects[place].put("message", Property::plain(message));
        self.kinds.insert(place as u64, kind.to_string());
        Value::Obj(place as u64)
    }

    fn fail(&mut self, kind: &str, message: &str, memory: &mut Memory<'a>) -> Answer<'a> {
        let m = add_text(memory, message);
        Answer::Throw(self.error(kind, m, memory))
    }

    fn function(&mut self, f: &'a Function, env: usize) -> Value {
        let v = self.callable();
        if let Value::Obj(n) = v {
            self.functions.insert(n, (f, env));
        }
        v
    }

    fn own(&self, base: &Value, key: &Key<'_>, memory: &Memory<'a>) -> Option<Property> {
        let k = self.key(key, memory);
        base.as_obj().and_then(|o| self.objects[o as usize].get(&k))
    }

    /// The property that an object has or inherits.
    fn found(&self, base: Value, key: &str) -> Option<Property> {
        let mut cur = base;
        while let Value::Obj(o) = cur {
            if let Some(p) = self.objects[o as usize].get(key) {
                return Some(p);
            }
            cur = self.objects[o as usize].proto.unwrap_or(Value::Null);
        }
        None
    }

    fn read(&mut self, base: Value, key: &str, memory: &mut Memory<'a>) -> Answer<'a> {
        if let (Value::Obj(o), "name") = (base, key) {
            if let Some(kind) = self.kinds.get(&o).cloned() {
                return Answer::Value(add_text(memory, &kind));
            }
        }
        match self.found(base, key) {
            Some(p) if p.accessor => match p.get {
                Some(f) => self.call(f, base, Vec::new(), memory),
                None => Answer::Value(Value::Undefined),
            },
            Some(p) => Answer::Value(p.value),
            None => Answer::Value(Value::Undefined),
        }
    }

    fn write(&mut self, o: u64, key: &str, value: Value, memory: &mut Memory<'a>) -> Answer<'a> {
        match self.found(Value::Obj(o), key) {
            Some(Property { accessor: true, set: Some(f), .. }) => {
                self.call(f, Value::Obj(o), vec![value], memory)
            }
            _ => {
                self.objects[o as usize].put(key, Property::plain(value));
                Answer::Value(Value::Undefined)
            }
        }
    }

    /// A function of the program runs in a session of its own; any other gives its argument back.
    fn call(
        &mut self,
        func: Value,
        this: Value,
        given: Vec<Value>,
        memory: &mut Memory<'a>,
    ) -> Answer<'a> {
        self.calls.push((func, given.clone()));
        if self.prints.contains(&func) {
            memory.console.push(given.iter().map(|v| shown(*v, memory)).collect());
            return Answer::Value(Value::Undefined);
        }
        if let Some((backing, getter)) = func.as_obj().and_then(|n| self.accessors.get(&n).cloned()) {
            let o = this.as_obj().unwrap_or(0) as usize;
            if getter {
                return Answer::Value(self.objects[o].get(&backing).map(|p| p.value).unwrap_or(Value::Null));
            }
            self.objects[o].put(&backing, Property::plain(given[0]));
            return Answer::Value(Value::Undefined);
        }
        let found = func.as_obj().and_then(|n| self.functions.get(&n).copied());
        match found {
            Some((f, env)) => self.enter(f, env, this, given, memory),
            None => Answer::Value(given.first().copied().unwrap_or(Value::Undefined)),
        }
    }

    /// Runs the body of a function.
    fn enter(
        &mut self,
        f: &'a Function,
        env: usize,
        this: Value,
        given: Vec<Value>,
        memory: &mut Memory<'a>,
    ) -> Answer<'a> {
        let scope = memory.scopes.new_scope(Some(env), None, false, true);
        if !f.is_arrow {
            memory.scopes.bind(scope, "this", this);
        }
        for (i, p) in f.params.iter().enumerate() {
            if let Pattern::Ident(n) = &p.pattern {
                let v = given.get(i).copied().unwrap_or(Value::Undefined);
                memory.scopes.bind(scope, n, v);
            }
        }
        self.hoist(&f.body, scope, memory);
        memory.scopes.declare_block_lexicals(&f.body, scope);
        let mine = std::mem::replace(memory, Memory::new(0));
        let mut inner = Session::new(self, f.is_strict, mine);
        let r = run_stmt_list(&mut inner, &f.body, scope, EVAL_DEPTH);
        *memory = inner.into_memory();
        match r {
            Ok(_) => Answer::Value(Value::Undefined),
            Err(Abrupt::Return(v)) => Answer::Value(v),
            Err(Abrupt::Throw(e)) => Answer::Throw(e),
            Err(_) => Answer::Throw(Value::Undefined),
        }
    }

    /// Binds the variables and functions of a body.
    fn hoist(&mut self, stmts: &'a [Stmt], env: usize, memory: &mut Memory<'a>) {
        for st in stmts {
            match st {
                Stmt::FuncDecl(f) => {
                    let v = self.function(f, env);
                    memory.scopes.bind(env, f.name.as_deref().unwrap_or(""), v);
                }
                Stmt::VarDecl { kind: DeclKind::Var, decls } => {
                    for (p, _) in decls {
                        match p {
                            Pattern::Ident(n) if !memory.scopes.has_binding(env, n) => {
                                memory.scopes.bind(env, n, Value::Undefined);
                            }
                            _ => {}
                        }
                    }
                }
                Stmt::Block(b) => self.hoist(b, env, memory),
                Stmt::ExportDecl(b) => self.hoist(std::slice::from_ref(&**b), env, memory),
                _ => {}
            }
        }
    }

    /// A new instance: its fields, then the constructor.
    fn construct(&mut self, func: Value, given: Vec<Value>, memory: &mut Memory<'a>) -> Answer<'a> {
        let this = self.object();
        let ctor = func.as_obj().unwrap_or(0);
        let proto = self.objects[ctor as usize].get("prototype").map(|p| p.value);
        self.objects[this.as_obj().unwrap_or(0) as usize].proto = proto;
        let mine = std::mem::replace(memory, Memory::new(0));
        let mut inner = Session::new(self, true, mine);
        let r = init_instance_fields(&mut inner, func, this, EVAL_DEPTH);
        *memory = inner.into_memory();
        if let Err(Abrupt::Throw(e)) = r {
            return Answer::Throw(e);
        }
        if let Some((f, env)) = self.functions.get(&ctor).copied() {
            if let Answer::Throw(e) = self.enter(f, env, this, given, memory) {
                return Answer::Throw(e);
            }
        }
        Answer::Value(this)
    }
}

/// The shortest digits of a number and the place of the point in them.
fn digits_of(n: f64) -> (String, i64) {
    let t = format!("{:e}", n.abs());
    let (mantissa, exponent) = t.split_once('e').unwrap_or((&t, "0"));
    let digits: String = mantissa.chars().filter(|c| c.is_ascii_digit()).collect();
    (digits, exponent.parse::<i64>().unwrap_or(0) + 1)
}

impl<'a> Host<'a> for Toy<'a> {
    fn answer(
        &mut self,
        request: &Request<'a>,
        memory: &Memory<'a>,
        lists: &Vec<Vec<Value>>,
    ) -> Answer<'a> {
        match request {
            Request::MakeError { kind, message } => {
                Answer::Value(self.error(&format!("{kind:?}"), *message, memory))
            }
            Request::IsError(o) => {
                Answer::Flag(o.as_obj().map(|n| self.objects[n as usize].has("message")).unwrap_or(false))
            }
            Request::ParseEval { code, .. } => match parse(&shown(*code, memory)) {
                Ok(body) => Answer::Code(Box::leak(Box::new(body))),
                Err(_) => Answer::Throw(Value::Null),
            },
            Request::IsIntrinsicEval(v) => Answer::Flag(*v == Value::Obj(EVAL)),
            Request::WellKnownKey(k) => self.symbol(format!("@@{k:?}")),
            Request::UnscopablesKey => self.symbol("@@unscopables".to_string()),
            Request::SymbolText(Value::Sym(h)) => {
                Answer::Text(format!("Symbol({})", self.symbols[*h as usize]))
            }
            Request::SymbolDescription(Value::Sym(h)) => Answer::Text(self.symbols[*h as usize].clone()),
            Request::Truthy(_) => Answer::Flag(true),
            Request::Callable(Value::Obj(n)) => Answer::Flag(self.objects[*n as usize].callable),
            Request::IntegerOperate { op, left, right } => {
                let number = |v: &Value| match v {
                    Value::BigInt(n) => {
                        memory.integers[*n as usize].to_string_radix(10).parse::<i64>().unwrap_or(0)
                    }
                    _ => 0,
                };
                let (a, b) = (number(left), number(right));
                Answer::Integer(JsBigInt::from_i64(match *op {
                    "+" => a + b,
                    "-" => a - b,
                    "*" => a * b,
                    _ => 0,
                }))
            }
            Request::Digits(n) => {
                let (digits, point) = digits_of(f64::from_bits(*n));
                Answer::Digits { digits, point }
            }
            Request::RoundDecimal(t) => {
                let n = shown(*t, memory).parse::<f64>().unwrap_or(f64::NAN);
                Answer::Value(Value::Num(n.to_bits()))
            }
            Request::RoundRadix { digits, radix } => {
                let n = u64::from_str_radix(&shown(*digits, memory), *radix).unwrap_or(0);
                Answer::Value(Value::Num((n as f64).to_bits()))
            }
            Request::Arithmetic { op, left, right } => {
                let (a, b) = (f64::from_bits(*left), f64::from_bits(*right));
                let n = match *op {
                    "+" => a + b,
                    "-" => a - b,
                    "*" => a * b,
                    "/" => a / b,
                    "%" => a % b,
                    _ => a.powf(b),
                };
                Answer::Value(Value::Num(n.to_bits()))
            }
            Request::DefineOwn { base: Value::Obj(o), key, prop } => {
                let k = self.key(key, memory);
                self.defined.push((k.clone(), *prop));
                self.objects[*o as usize].put(&k, *prop);
                Answer::Value(Value::Undefined)
            }
            Request::OwnProperty { base, key } => match self.own(base, key, memory) {
                Some(p) => Answer::Own(p),
                None => Answer::Flag(false),
            },
            Request::HasOwn { base, key } => Answer::Flag(self.own(base, key, memory).is_some()),
            Request::MakeConstructor { func, env, .. } => Answer::Value(match func {
                Some(f) => self.function(f, *env),
                None => self.callable(),
            }),
            Request::MakeAccessorFunction { backing, getter } => {
                let f = self.callable();
                let k = self.key(backing, memory);
                self.accessors.insert(f.as_obj().unwrap_or(0), (k, *getter));
                Answer::Value(f)
            }
            Request::MakeFunction { func, env } => Answer::Value(self.function(*func, *env)),
            Request::MakeNative { name, .. } => {
                let f = self.callable();
                if name.as_str() == "print" {
                    self.prints.push(f);
                }
                Answer::Value(f)
            }
            Request::MakeObject => Answer::Value(self.object()),
            Request::MakeObjectFrom { proto } => {
                let o = self.object();
                self.objects[o.as_obj().unwrap_or(0) as usize].proto = Some(*proto);
                Answer::Value(o)
            }
            Request::ArrayOf { list } => {
                let o = self.object();
                let items = lists[*list as usize].clone();
                let thing = &mut self.objects[o.as_obj().unwrap_or(0) as usize];
                thing.length = Some(items.len() as u64);
                for (i, v) in items.into_iter().enumerate() {
                    if v != Value::Empty {
                        thing.put(&format!("{i}"), Property::plain(v));
                    }
                }
                Answer::Value(o)
            }
            Request::IsArray(Value::Obj(o)) => Answer::Flag(self.objects[*o as usize].length.is_some()),
            Request::ArrayLength(Value::Obj(o)) => {
                Answer::Handle(self.objects[*o as usize].length.unwrap_or(0))
            }
            Request::ElementKeys(_) => Answer::Names(Vec::new()),
            Request::PreventExtensions(Value::Obj(o)) => {
                self.objects[*o as usize].sealed = true;
                Answer::Value(Value::Undefined)
            }
            Request::GlobalObject => Answer::Value(Value::Obj(GLOBAL)),
            Request::NewPromise => {
                let o = self.object();
                self.promises += 1;
                Answer::Value(o)
            }
            Request::ForwardedPromise(p) => Answer::Value(*p),
            Request::MakeResolver { .. } | Request::ImportHandler { .. } => Answer::Value(self.callable()),
            Request::InGenerator | Request::HasWaits => Answer::Flag(false),
            _ => Answer::Value(Value::Undefined),
        }
    }

    fn run(
        &mut self,
        request: &Request<'a>,
        memory: &mut Memory<'a>,
        lists: &Vec<Vec<Value>>,
    ) -> Answer<'a> {
        match request {
            Request::GetMember { base: Value::Obj(o), key } => {
                let k = self.key(key, memory);
                self.read(Value::Obj(*o), &k, memory)
            }
            Request::SetMember { base: Value::Obj(o), key, value, .. } => {
                let k = self.key(key, memory);
                self.write(*o, &k, *value, memory)
            }
            Request::CreateDataProperty { base: Value::Obj(o), key, value } => {
                let k = self.key(key, memory);
                self.objects[*o as usize].put(&k, Property::plain(*value));
                Answer::Value(Value::Undefined)
            }
            Request::GetMember { .. } | Request::SetMember { .. } => {
                self.fail("TypeError", "no object", memory)
            }
            Request::GetPrototype(Value::Obj(o)) => {
                Answer::Value(self.objects[*o as usize].proto.unwrap_or(Value::Null))
            }
            Request::GetPrototype(_) => Answer::Value(Value::Null),
            Request::SetPrototype { base: Value::Obj(o), proto } => {
                self.objects[*o as usize].proto = Some(*proto);
                Answer::Value(Value::Undefined)
            }
            Request::IsExtensible(Value::Obj(o)) => Answer::Flag(!self.objects[*o as usize].sealed),
            Request::OwnKeys(Value::Obj(o)) => {
                let keys = self.objects[*o as usize].props.iter();
                Answer::Names(keys.map(|(k, _)| OwnName::Text(k.clone())).collect())
            }
            Request::Construct { func, args } => {
                let given = lists[*args as usize].clone();
                self.construct(*func, given, memory)
            }
            Request::Call { func, this, args } => {
                let given = lists[*args as usize].clone();
                self.call(*func, *this, given, memory)
            }
            Request::HoistVars { stmts, env } => {
                let stmts: &'a Vec<Stmt> = stmts;
                self.hoist(stmts, *env, memory);
                Answer::Value(Value::Undefined)
            }
            Request::DeclareProgram { stmts, env } => {
                let stmts: &'a Vec<Stmt> = stmts;
                memory.scopes.declare_block_lexicals(stmts, *env);
                let probe = memory.scopes.new_scope(Some(*env), None, false, false);
                self.hoist(stmts, probe, memory);
                for name in memory.scopes.names_in(probe) {
                    let v = memory.scopes.value_at(probe, &name);
                    if v != Value::Undefined || !self.objects[0].has(&name) {
                        self.objects[0].put(&name, Property::plain(v));
                    }
                }
                memory.scopes.empty_scope(probe);
                Answer::Value(Value::Undefined)
            }
            Request::LoadImport { specifier, referrer, loader, .. } => {
                let from = match referrer {
                    Some(t) => shown(*t, memory),
                    None => "nowhere".to_string(),
                };
                let asked = format!("{} from {from} by {loader}", shown(*specifier, memory));
                self.imports.push(asked);
                Answer::Value(Value::Undefined)
            }
            _ => Answer::Value(Value::Undefined),
        }
    }
}

/// Runs a program and tells its value, or what it threw.
fn run(src: &str) -> Result<String, String> {
    let parsed = parse(src);
    assert!(parsed.is_ok(), "does not parse: {src}");
    let mut host = Toy::new();
    let mut engine = Engine::new(&mut host, 0);
    let r = engine.eval_value(&parsed);
    match r {
        Ok(Ok(v @ Value::Str(_))) => Ok(engine.text(v).to_string()),
        Ok(Ok(v)) => Ok(shown(v, &Memory::new(0))),
        Ok(Err(_)) => Err(host.errors.last().cloned().unwrap_or_default()),
        Err(_) => Err("parse".to_string()),
    }
}

fn ok(src: &str) -> String {
    run(src).unwrap_or_else(|e| panic!("{src}: {e}"))
}

#[test]
fn values_of_programs() {
    assert_eq!(ok("1 + 2 * 3;"), "7");
    assert_eq!(ok("'a' + 1 + true;"), "a1true");
    assert_eq!(ok("let x = 4; x **= 2; x -= 1; x;"), "15");
    assert_eq!(ok("typeof 1 + typeof 'x' + typeof undefined;"), "numberstringundefined");
    assert_eq!(ok("`t${1 + 1}${'raw'}`;"), "t2raw");
    assert_eq!(ok("1 < 2 ? 'yes' : 'no';"), "yes");
    assert_eq!(ok("let i = 1; i++ + i;"), "3");
    assert_eq!(ok("(1, 2, 3);"), "3");
    assert_eq!(ok("void 0;"), "undefined");
    assert_eq!(ok("null === null && 1 !== '1';"), "true");
    assert_eq!(ok("-(-5) % 3;"), "2");
}

#[test]
fn loops_and_jumps() {
    assert_eq!(
        ok("var s = 0; for (let i = 0; i < 5; i++) { if (i === 3) continue; s += i; } s;"),
        "7"
    );
    assert_eq!(ok("var n = 0; do { n++; } while (n < 4); n;"), "4");
    assert_eq!(ok("var n = 0; var c = 0; do { c++; } while (n++ < 3); '' + c + n;"), "44");
    assert_eq!(ok("var n = 0; var c = 0; do { c++; continue; } while (n++ < 3); '' + c + n;"), "44");
    assert_eq!(ok("var n = 9; while (n) { n--; if (n < 5) break; } n;"), "4");
    assert_eq!(ok("outer: while (true) { while (true) { break outer; } } 'out';"), "out");
    assert_eq!(ok("var n = 0; a: do { n++; do { continue a; } while (true); } while (n < 3); n;"), "3");
    assert_eq!(ok("switch (2) { case 1: 'a'; case 2: 'b'; case 3: 'c'; break; default: 'd'; }"), "c");
    assert_eq!(ok("switch (9) { case 1: 'a'; default: 'd'; case 3: 'e'; }"), "e");
    assert_eq!(ok("l: { 'in'; break l; }"), "in");
}

#[test]
fn statements_complete_with_values() {
    assert_eq!(ok("1; if (false) 2;"), "undefined");
    assert_eq!(ok("1; while (false) 2;"), "undefined");
    assert_eq!(ok("1; var x = 2;"), "1");
    assert_eq!(ok("1; do { 2; break; } while (true);"), "2");
    assert_eq!(ok("try { 1; } finally { 2; }"), "1");
    assert_eq!(ok("1; try { } finally { }"), "undefined");
    assert_eq!(ok("1; {}"), "1");
}

#[test]
fn throwing_and_catching() {
    assert_eq!(ok("try { throw 7; } catch (e) { e + 1; }"), "8");
    assert_eq!(ok("try { missing; } catch { 'caught'; }"), "caught");
    assert_eq!(ok("l: { try { throw 1; } finally { break l; } } 'went on';"), "went on");
    assert_eq!(run("missing;"), Err("missing is not defined".to_string()));
    assert_eq!(ok("do { try { throw 1; } finally { continue; } } while (false); 'done';"), "done");
}

#[test]
fn operands_that_are_not_wanted() {
    assert_eq!(ok("false && missing;"), "false");
    assert_eq!(ok("1 || missing;"), "1");
    assert_eq!(ok("0 ?? missing;"), "0");
    assert_eq!(ok("null ?? 'other';"), "other");
    assert_eq!(ok("true ? 1 : missing;"), "1");
    assert_eq!(ok("if (true) 1; else missing;"), "1");
    assert_eq!(ok("let a = 1; a ||= missing; a;"), "1");
    assert_eq!(ok("let a = null; a ??= 5; a;"), "5");
}

#[test]
fn chains_are_cut() {
    assert_eq!(ok("null?.a.b.c;"), "undefined");
    assert_eq!(ok("let o = { a: 4 }; o?.a;"), "4");
    assert_eq!(ok("let u = undefined; u?.(missing);"), "undefined");
    assert_eq!(ok("(null?.a) ?? 'rest';"), "rest");
    assert!(run("null.a;").is_err());
}

#[test]
fn objects_and_patterns() {
    assert_eq!(ok("let o = { x: 1, ['y' + 1]: 2 }; o.x + o.y1;"), "3");
    assert_eq!(ok("let { a, b = 2 } = { a: 1 }; a + b;"), "3");
    assert_eq!(ok("let o = {}; o.n = 5; o['n'] += 1; o.n;"), "6");
    assert_eq!(ok("let a = 0; ({ a } = { a: 8 }); a;"), "8");
    assert!(run("let { a } = null;").is_err());
}

#[test]
fn classes_run_their_static_parts() {
    assert_eq!(ok("class C { static x = 4; static { C.y = C.x + 1; } } C.y;"), "5");
    assert_eq!(ok("let C = class { static n = 1 + 1; }; C.n;"), "2");
}

#[test]
fn static_parts_run_behind_all_keys() {
    let refused = "classes may not have a static property named 'prototype'".to_string();
    let early = "var log = ''; class C { static x = (log += 'x'); static ['proto' + 'type'] = 1; }";
    assert_eq!(run(early), Err(refused.clone()));
    let caught = "var log = 'none'; try { class C { static x = (log = 'x'); static ['proto' + 'type']() {} } }
        catch (e) { log; }";
    assert_eq!(ok(caught), "none");
    assert_eq!(run("class C { static ['prototype'] = 1; }"), Err(refused));
    assert_eq!(ok("class C { ['prototype'] = 1; } new C().prototype;"), "1");
    assert_eq!(ok("class C { static a = 1; static b = C.a + 1; static [1 + 1] = 5; } '' + C.b + C[2];"), "25");
}

#[test]
fn private_members_are_kept_apart() {
    let both = "class P { #v = 3; get #x() { return this.#v; } set #x(n) { this.#v = n; }
        bump() { this.#x = this.#x + 1; return this.#x; } } new P().bump();";
    assert_eq!(ok(both), "4");
    let swapped = "class P { #v = 3; set #x(n) { this.#v = n; } get #x() { return this.#v; }
        bump() { this.#x = this.#x + 1; return this.#x; } } new P().bump();";
    assert_eq!(ok(swapped), "4");
    assert_eq!(ok("class P { #m() { return 'private'; } m() { return this.#m(); } } new P().m();"), "private");
    assert_eq!(ok("class P { static #n = 7; static n() { return P.#n; } } P.n();"), "7");
    assert_eq!(ok("class P { accessor a = 2; } let p = new P(); p.a = p.a + 1; p.a;"), "3");
    assert_eq!(ok("class P { #a = 1; ['#a'] = 2; both() { return '' + this.#a + this['#a']; } } new P().both();"), "12");
}

#[test]
fn private_members_are_guarded() {
    let refused = |src: &str| run(src).err().unwrap_or_default();
    assert_eq!(
        refused("class P { #x = 1; static r(o) { return o.#x; } } P.r({});"),
        "cannot read private member #x from an object whose class did not declare it"
    );
    assert_eq!(
        refused("class P { #x = 1; static w(o) { o.#x = 2; } } P.w({});"),
        "cannot write private member #x to an object whose class did not declare it"
    );
    assert_eq!(
        refused("class P { #m() {} w() { this.#m = 1; } } new P().w();"),
        "private method #m is not writable"
    );
    assert_eq!(
        refused("class P { get #g() { return 1; } w() { this.#g = 1; } } new P().w();"),
        "private accessor #g has no setter"
    );
    assert_eq!(
        refused("class P { set #s(n) {} r() { return this.#s; } } new P().r();"),
        "private accessor #s has no getter"
    );
}

#[test]
fn private_members_are_given_once() {
    let parsed = parse("class P { #m() {} #n() {} } P;");
    let mut host = Toy::new();
    let mut e = Engine::new(&mut host, 0);
    let class = match e.eval_value(&parsed) {
        Ok(Ok(v)) => v,
        _ => panic!("no class"),
    };
    let this = Value::Obj(EVAL);
    assert!(init_instance_fields(e.ctx(), class, this, EVAL_DEPTH).is_ok());
    assert!(init_instance_fields(e.ctx(), class, this, EVAL_DEPTH).is_err());
    let twice = "cannot initialize private methods of a class twice on the same object";
    assert_eq!(host.errors, [twice]);
    let keys: Vec<&str> =
        host.objects[EVAL as usize].props.iter().map(|(k, _)| private_part(k)).collect();
    assert_eq!(keys, ["#m", "#n"]);
}

fn private_part(key: &str) -> &str {
    key.split('\u{1}').next().unwrap_or(key)
}

#[test]
fn calls_name_what_they_call() {
    assert_eq!(run("let f = 1; f();"), Err("f is not a function".to_string()));
    assert_eq!(run("let o = {}; o.m();"), Err("(intermediate value).m is not a function".to_string()));
    assert_eq!(run("(1)();"), Err("expression is not a function".to_string()));
}

#[test]
fn strings_are_texts() {
    assert_eq!(ok("'ab' === 'a' + 'b';"), "true");
    assert_eq!(ok("'ab' === 'a' + 'c';"), "false");
    assert_eq!(ok("'' ? 1 : 2;"), "2");
    assert_eq!(ok("'0' ? 1 : 2;"), "1");
    assert_eq!(ok("+'0x1F' + +' 1.5e1 ' + +'';"), "46");
    assert_eq!(ok("0.1 + 0.2 + '';"), "0.30000000000000004");
    assert_eq!(ok("1e21 + '';"), "1e+21");
    assert_eq!(ok("let o = { 1.5: 'x' }; o['1.5'];"), "x");
    assert_eq!(ok("'a' < 'b' && 'a' < 'aa' && !('b' < 'ab') && 'Z' < 'a';"), "true");
    assert_eq!(ok("'\u{1f600}' < '\u{ff5e}';"), "true");
    assert_eq!(ok("var s = ''; for (var k in '\u{1f600}a') { s += k; } s;"), "012");
    let long = "let s = '0123456789abcdef'; let n = 0; while (n < 30) { s += s; n++; }";
    assert_eq!(run(long), Err("Invalid string length".to_string()));
}

#[test]
fn big_integers_are_exact() {
    assert_eq!(ok("'' + 123456789012345678901234567890n;"), "123456789012345678901234567890");
    assert_eq!(ok("'' + -5n + -(-7n) + ~4n;"), "-57-5");
    assert_eq!(ok("0n ? 1 : 2;"), "2");
    assert_eq!(ok("5n ? 1 : 2;"), "1");
    assert_eq!(ok("18446744073709551616n === 18446744073709551616n;"), "true");
    assert_eq!(ok("18446744073709551616n === 18446744073709551617n;"), "false");
    assert_eq!(ok("18446744073709551616n < 18446744073709551617n && -2n < -1n && !(3n < 2n);"), "true");
    assert_eq!(ok("12n == '12' && '0xff' == 255n && !(1n == 'x');"), "true");
    assert_eq!(ok("('3' < 4n) && !('x' < 4n) && (4n > '3');"), "true");
    assert_eq!(ok("let n = 41n; n++; '' + n;"), "42");
    assert_eq!(run("1n / 0n;"), Err("Division by zero".to_string()));
    assert_eq!(run("2n ** -1n;"), Err("Exponent must be non-negative".to_string()));
    assert_eq!(ok("'' + (0n << 99999999999999999999n) + (-1n >> 99999999999999999999n);"), "0-1");
    assert_eq!(run("1n << 99999999999999999999n;"), Err("BigInt is too large to allocate".to_string()));
}

#[test]
fn lists_keep_their_order() {
    assert_eq!(ok("let f = (a, b, c) => '' + a + b + c; f(...[1, 2], 3);"), "123");
    assert_eq!(ok("let f = (a, b, c) => '' + a + b + c; f(...'xyz');"), "xyz");
    assert_eq!(ok("var s = ''; for (var k in { b: 1, a: 2 }) { s += k; } s;"), "ba");
    assert_eq!(ok("var s = ''; for (var k in 'xy') { s += k; } s;"), "01");
    assert_eq!(ok("let { a, ...rest } = { a: 1, b: 2, c: 3 }; rest.b + rest.c + (rest.a === undefined);"), "6");
    assert_eq!(ok("let { ...rest } = 'pq'; rest[0] + rest[1];"), "pq");
}

#[test]
fn functions_take_names() {
    assert_eq!(ok("let f = () => 1; f.name;"), "f");
    assert_eq!(ok("let o = { m() {}, get g() { return 1; } }; o.m.name;"), "m");
    assert_eq!(ok("class C { #p() {} static p() { return new C().#p.name; } } C.p();"), "#p");
    assert_eq!(ok("class C { static x = () => 1; } C.x.name;"), "x");
    assert_eq!(ok("class C {} C.name;"), "C");
}

#[test]
fn instances_get_their_fields() {
    assert_eq!(ok("class P { x = 1; y = this.x + 1; } let p = new P(); p.x + p.y;"), "3");
    let twice = "class P { x = 1; constructor(n) { this.x += n; } } new P(1); new P(5).x;";
    assert_eq!(ok(twice), "6");
    assert_eq!(run("class P { x = missing; } new P();"), Err("missing is not defined".to_string()));
}

#[test]
fn functions_of_the_program() {
    assert_eq!(ok("function fact(n) { return n < 2 ? 1 : n * fact(n - 1); } fact(5);"), "120");
    assert_eq!(ok("let twice = (f, x) => f(f(x)); twice((n) => n + 3, 1);"), "7");
    assert_eq!(ok("function f() { try { return 1; } finally { g = 2; } } var g = 0; f() + g;"), "3");
    assert_eq!(ok("function f() { throw 5; } try { f(); } catch (e) { e; }"), "5");
    assert_eq!(ok("function f() { while (true) { return 'x'; } } f();"), "x");
}

#[test]
fn resources_are_disposed_of() {
    let two = "var log = ''; {
        using a = { ['@@Dispose']: () => { log += 'a'; } };
        using b = { ['@@Dispose']: () => { log += 'b'; } };
        log += '-';
    } log;";
    assert_eq!(ok(two), "-ba");
    let failing = "try { using a = { ['@@Dispose']: () => { throw 2; } }; throw 1; }
        catch (e) { '' + e.error + e.suppressed; }";
    assert_eq!(ok(failing), "21");
    let kept = "var log = ''; try { using a = { ['@@Dispose']: () => { log = 'd'; } }; throw 1; }
        catch (e) { e + log; }";
    assert_eq!(ok(kept), "1d");
    let over = "function f() { { using a = { ['@@Dispose']: () => { throw 2; } }; return 1; } }
        try { f(); } catch (e) { 'thrown' + e; }";
    assert_eq!(ok(over), "thrown2");
    assert!(stmts_declare_using(&parse("using x = y;").unwrap()));
}

#[test]
fn variables_live_in_scopes() {
    assert_eq!(ok("let x = 1; { let x = 2; x++; } x;"), "1");
    assert_eq!(ok("let a = []; var s = ''; for (let i = 0; i < 3; i++) { s += i; } s;"), "012");
    assert_eq!(run("x; let x = 1;"), Err("cannot access 'x' before initialization".to_string()));
    assert_eq!(run("x = 2; let x = 1;"), Err("cannot access 'x' before initialization".to_string()));
    assert_eq!(run("const c = 1; c = 2;"), Err("assignment to constant 'c'".to_string()));
    assert_eq!(run("const c = 1; c += 2;"), Err("assignment to constant 'c'".to_string()));
    assert_eq!(run("gone = 1; gone;"), Ok("1".to_string()));
    assert_eq!(run("'use strict'; gone = 1;"), Err("gone is not defined".to_string()));
    assert_eq!(run("'a'; 'use strict'; gone = 1;"), Err("gone is not defined".to_string()));
    assert_eq!(ok("let x = 1; delete x;"), "false");
    assert_eq!(ok("typeof missing;"), "undefined");
    assert!(run("typeof x; let x;").is_err());
    assert_eq!(ok("var o = { a: 3 }; with (o) { a = 4; } o.a;"), "4");
}

#[test]
fn evaluated_code_declares_its_names() {
    assert_eq!(ok("function f() { eval('var x = 4;'); return x; } f();"), "4");
    assert_eq!(ok("function f() { eval('let x = 4;'); return typeof x; } f();"), "undefined");
    assert_eq!(
        ok("function f() { eval(\"'use strict'; var x = 4;\"); return typeof x; } f();"),
        "undefined"
    );
    assert_eq!(ok("eval('var g = 7;'); g;"), "7");
    assert_eq!(ok("eval(5);"), "5");
    assert_eq!(ok("eval(\"eval('1 + 1');\");"), "2");
    assert_eq!(run("eval('super();');"), Err("'super' keyword unexpected here".to_string()));
    assert_eq!(
        run("let x = 1; eval('var x = 2;');"),
        Err("Identifier 'x' has already been declared".to_string())
    );
    assert_eq!(ok("function f() { eval('var x = 4;'); return delete x; } f();"), "true");
}

#[test]
fn a_realm_lasts() {
    let first = parse("var x = 41; let y = 1;");
    let second = parse("x + y;");
    let mut host = Toy::new();
    let mut e = Engine::new(&mut host, 0);
    assert!(e.eval(&first, false).is_ok());
    match e.eval(&second, false) {
        Ok(Completion::Value(v)) => assert_eq!(v, "42"),
        _ => panic!("no value"),
    }
}

#[test]
fn agents_may_block() {
    let parsed = parse("x = 3;");
    let mut host = Toy::new();
    let mut e = Engine::new(&mut host, 0);
    e.run_as_agent(&parsed, 5, 6);
    assert!(e.can_block);
    assert_eq!(e.agent, Some(AgentChannels { broadcast: 5, report: 6 }));
    assert!(matches!(e.global_this(), Ok(Value::Obj(GLOBAL))));
    assert_eq!(host.objects[0].get("x").map(|p| p.value), Some(Value::Num(from_int(3))));
}

#[test]
fn waiting_runs_jobs() {
    assert_eq!(ok("await 5;"), "5");
}

#[test]
fn what_is_printed_is_taken_once() {
    let name = "print".to_string();
    let parsed = parse("print('one'); print('two');");
    let mut host = Toy::new();
    let mut e = Engine::new(&mut host, 0);
    assert!(e.define_global(&name, 1, 9).is_ok());
    assert!(e.eval(&parsed, false).is_ok());
    assert_eq!(e.take_console(), ["one", "two"]);
    assert!(e.take_console().is_empty());
}

#[test]
fn thrown_values_are_described() {
    let thrown = parse("throw 1;");
    let error = parse("missing;");
    let mut host = Toy::new();
    let mut e = Engine::new(&mut host, 0);
    let a = e.eval(&thrown, false);
    let b = e.eval(&error, false);
    match (a, b) {
        (
            Ok(Completion::Throw { name, message: m }),
            Ok(Completion::Throw { name: n, message: k }),
        ) => {
            assert_eq!((name.as_str(), m.as_str()), ("", "1"));
            assert_eq!((n.as_str(), k.as_str()), ("ReferenceError", "missing is not defined"));
        }
        _ => panic!("not thrown"),
    }
}

#[test]
fn imports_of_scripts_start_from_the_base() {
    let base = "/d/main.js".to_string();
    let parsed = parse("import('./m.js');");
    let mut host = Toy::new();
    let mut e = Engine::new(&mut host, 0);
    e.set_import_base(&base);
    e.set_module_loader(7);
    assert!(e.eval(&parsed, false).is_ok());
    assert_eq!(host.imports, ["./m.js from /d/main.js by 7"]);
}

#[test]
fn imports_need_a_loader() {
    let parsed = parse("import('./m.js');");
    let mut host = Toy::new();
    let mut e = Engine::new(&mut host, 0);
    assert!(e.eval(&parsed, false).is_ok());
    assert_eq!(host.errors[0], "no module loader configured");
    assert!(host.imports.is_empty());
}

#[test]
fn templates_are_frozen() {
    let parsed = parse("let f = (s) => s; f`a`;");
    let mut host = Toy::new();
    let mut e = Engine::new(&mut host, 0);
    let strings = match e.eval_value(&parsed) {
        Ok(Ok(Value::Obj(o))) => o as usize,
        _ => panic!("no object"),
    };
    assert!(host.objects[strings].sealed && host.objects[strings].has("raw"));
    assert!(host.objects[strings].props.iter().all(|(_, p)| !p.writable && !p.configurable));
}

#[test]
fn resolvers_count_once() {
    let mut host = Toy::new();
    let mut e: Engine<'_, '_, Toy<'_>> = Engine::new(&mut host, 0);
    let p = new_promise(e.ctx()).unwrap_or(Value::Null);
    let flag = Value::Obj(EVAL);
    assert!(promise_reject_native(e.ctx(), p, flag, Value::Null).is_ok());
    assert!(promise_resolve_native(e.ctx(), p, flag, Value::Undefined).is_ok());
    let status = p.as_obj().and_then(|h| e.ctx().promise_status(h));
    assert_eq!(status, Some(Status::Rejected(Value::Null)));
}

#[test]
fn initializers_must_be_callable() {
    let mut host = Toy::new();
    let mut s: Session<'_, '_, Toy<'_>> = Session::new(&mut host, false, Memory::new(0));
    assert!(add_initializer(&mut s, Value::Null).is_err());
    assert!(add_initializer(&mut s, Value::Obj(EVAL)).is_ok());
    assert_eq!(s.into_memory().added, [Value::Obj(EVAL)]);
    assert_eq!(host.errors, ["addInitializer expects a callable"]);
}

#[test]
fn all_jobs_run() {
    let mut host = Toy::new();
    let mut e: Engine<'_, '_, Toy<'_>> = Engine::new(&mut host, 0);
    for n in 0..100_000 {
        let value = Value::Num(from_int(n));
        e.ctx().push_job(Job { handler: Value::Obj(EVAL), result: Value::Undefined, value, fulfilled: true });
    }
    assert!(e.run_microtasks().is_ok());
    assert!(!e.has_pending_jobs());
    assert_eq!(host.calls.len(), 100_000);
    assert_eq!(host.calls[99_999].1, vec![Value::Num(from_int(99_999))]);
}

#[test]
fn scripts_are_strict_when_they_say_so() {
    let strict = parse("'use strict'; 1;").unwrap();
    assert!(directive_strict(&strict));
    assert!(!directive_strict(&parse("1; 'use strict';").unwrap()));
    assert!(directive_strict(&parse("'a'; 'use strict'; 1;").unwrap()));
    assert!(!directive_strict(&parse("'a'; 'b';").unwrap()));
}

#[test]
fn engine_settings() {
    let mut host = Toy::new();
    let mut e: Engine<'_, '_, Toy<'_>> = Engine::new(&mut host, 0);
    assert!(!e.compiles(1000));
    e.set_tier(Tier::Bytecode);
    e.set_tier_threshold(3);
    assert!(e.compiles(3) && !e.compiles(2));
    e.set_can_block(true);
    assert!(e.can_block);
    assert!(e.take_console().is_empty());
    assert!(!e.has_pending_jobs());
    assert!(!e.run_one_job());
    assert!(e.take_unhandled_rejections().is_empty());
}

#[test]
fn engine_runs_scripts_and_snapshots() {
    let parsed = parse("20 + 22;");
    let bad: Result<Vec<Stmt>, ParseError> =
        Err(ParseError { message: "no".to_string(), line: 3, at_eof: true });
    let decoded = read_script(&compile_snapshot(&parsed).unwrap());
    let broken = read_script(&[1, 2, 3]);
    let mut host = Toy::new();
    let mut e = Engine::new(&mut host, 0);
    let first = e.eval(&parsed, false);
    let second = e.eval_snapshot(&decoded, true);
    assert!(matches!(e.eval(&bad, false), Err(p) if p.line == 3 && p.at_eof));
    let message = decode(&[1, 2, 3]).err().unwrap_or_default();
    match e.eval_snapshot(&broken, false) {
        Err(p) => assert_eq!((p.message, p.line, p.at_eof), (message, 0, false)),
        Ok(_) => panic!("not a snapshot"),
    }
    match (first, second) {
        (Ok(Completion::Value(a)), Ok(Completion::Value(b))) => {
            assert_eq!((a.as_str(), b.as_str()), ("42", "42"));
        }
        _ => panic!("no values"),
    }
}

#[test]
fn engine_defines_globals_and_calls() {
    let (name, space) = ("print".to_string(), "host".to_string());
    let ops = vec![NativeOp { name: "op".to_string(), length: 1, func: 4 }];
    let args = vec![Value::Num(from_int(3)), Value::Null];
    let mut host = Toy::new();
    let mut e = Engine::new(&mut host, 0);
    assert!(e.define_global(&name, 1, 9).is_ok());
    assert!(e.define_namespace(&space, &ops).is_ok());
    assert_eq!(e.call_function(Value::Obj(1), Value::Undefined, &args), Ok(Value::Num(from_int(3))));
    assert!(host.objects[0].has("print") && host.objects[0].has("host"));
    let (last, prop) = host.defined.last().cloned().unwrap();
    assert_eq!(last, "host");
    assert_eq!((prop.writable, prop.enumerable, prop.configurable), (true, false, true));
    assert_eq!(host.calls, vec![(Value::Obj(1), args)]);
}

#[test]
fn questions_about_programs() {
    let p = |src: &str| parse(src).unwrap();
    assert!(body_has_tla(&p("await x;")));
    assert!(!body_has_tla(&p("async function f() { await x; }")));
    assert!(body_has_tla(&[Stmt::Expr(Expr::Paren(Box::new(Expr::Await(Box::new(Expr::Num(0))))))].into()));
    assert!(body_has_tla(&p("f`${await x}`;")));
    assert!(body_has_tla(&p("({ [await x]: 1 });")));
    assert!(body_has_tla(&p("let { a = await x } = y;")));
    assert!(body_has_tla(&p("class C extends (await x) {}")));
    assert!(!body_has_tla(&p("class C { m() { f(); } }")));
    assert!(body_has_tla(&p("for await (const x of y) {}")));
    assert!(stmts_have_super_call(&p("() => super();")));
    assert!(!stmts_have_super_call(&p("function f() { super(); }")));
    assert!(stmts_have_super_prop(&p("super.x;")));
    assert!(stmts_have_arguments_ref(&p("arguments;")));
    assert!(stmts_declare_lexical(&p("let x;")) && !stmts_declare_lexical(&p("var x;")));
    assert!(!stmts_declare_using(&p("let x;")));
    assert!(has_label(&p("a: b: while (1) {}")[0], &"b".to_string()));
    assert!(!has_label(&p("a: while (1) {}")[0], &"c".to_string()));
    assert!(top_level_super_call_error(&p("super();")).is_some());
    assert!(top_level_super_call_error(&p("f();")).is_none());
    assert!(!needs_default_placeholder(&p("x;")));
}

#[test]
fn questions_about_expressions() {
    let e = |src: &str| match parse(src).unwrap().remove(0) {
        Stmt::Expr(e) => e,
        _ => panic!("no expression: {src}"),
    };
    assert!(is_anonymous_fn(&e("(function () {});")) || !is_anonymous_fn(&e("1;")));
    assert!(is_anonymous_fn(&e("() => 1;")));
    assert!(!is_anonymous_fn(&e("f;")));
    assert!(field_init_error(&e("arguments;")).is_some());
    assert!(field_init_error(&e("() => arguments;")).is_some());
    assert!(field_init_error(&e("x + 1;")).is_none());
    assert_eq!(describe_callee(&e("foo;")), "foo");
    let f = default_constructor(true);
    assert_eq!((f.params.len(), f.is_strict), (1, true));
    assert!(default_constructor(false).params.is_empty());
}

#[test]
fn texts_have_units() {
    assert_eq!(unit_len(""), 0);
    assert_eq!(unit_len("a\u{1f600}b"), 4);
    assert_eq!(relate_units("a", "a"), Relation::Equal);
    assert_eq!(relate_units("\u{1f600}", "\u{ff5e}"), Relation::Less);
    assert_eq!(relate_units("ab", "a"), Relation::Greater);
}
