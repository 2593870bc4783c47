//! Modules: their exports, links, order and evaluation.
use std::rc::Rc;

use lumen::ast::{
    DeclKind, ExportSpec, Expr, ImportDecl, ImportSpec, Pattern, Stmt,
};
use lumen::engine::{Completion, Engine};
use lumen::interp::program::{run_loaded, Loaded, Outcome};
use lumen::interp::session::{Abrupt, Answer, Host, Memory, Request, Session, Value, EVAL_DEPTH};
use lumen::jobs::Status;
use lumen::modules::evaluate::{dynamic_import, evaluate_deferred};
use lumen::modules::exports::{build_export_tables, module_dependency_specifiers};
use lumen::modules::graph::Graph;
use lumen::modules::instantiate::open_module;
use lumen::modules::link::{
    build_namespace, link_imports, sort_names, validate_indirect_exports, Bound, LinkError,
};
use lumen::modules::load::{fetch_module, load_graph, LoadAction, Loading};
use lumen::modules::order::{
    collect_graph, evaluation_order, link_order, register_module, wanted_specifiers,
};
use lumen::modules::plan::plan_module;
use lumen::modules::register::{
    ask_next, collect_replies, queue_pending, register_step, LoadError,
};
use lumen::modules::resolve::{exported_names, resolve_export, Resolution};
use lumen::modules::source::{
    build_import_meta, js_string_literal, module_text, typed_module_key, typed_module_source,
};
use lumen::modules::table::Table;

fn t(s: &str) -> String {
    s.to_string()
}

fn import(source: &str, imported: &str, local: &str) -> Stmt {
    Stmt::Import(ImportDecl {
        source: t(source),
        specs: vec![ImportSpec::Named { imported: t(imported), local: t(local) }],
        attr_type: None,
    })
}

fn export_const(name: &str) -> Stmt {
    Stmt::ExportDecl(Box::new(Stmt::VarDecl {
        kind: DeclKind::Const,
        decls: vec![(Pattern::Ident(t(name)), Some(Expr::Num(0)))],
    }))
}

fn reexport(local: &str, exported: &str, source: &str) -> Stmt {
    Stmt::ExportNamed {
        specs: vec![ExportSpec { local: t(local), exported: t(exported) }],
        source: Some(t(source)),
    }
}

fn star(source: &str) -> Stmt {
    Stmt::ExportAll { source: t(source), exported: None }
}

fn add(g: &mut Graph, key: &str, body: Vec<Stmt>) {
    let body = Rc::new(body);
    let asked = wanted_specifiers(&body);
    let fetched: Vec<(String, String)> =
        asked.iter().map(|a| (a.0.clone(), t("text"))).collect();
    let r = register_module(g, t(key), body, &asked, &fetched);
    g.modules.push(r.module);
}

/// `main` asks for `a` and `b`, which both ask for `c`.
fn diamond() -> Graph {
    let mut g = Graph::new();
    add(&mut g, "c", vec![export_const("x"), export_const("y")]);
    add(&mut g, "a", vec![star("c"), export_const("only_a")]);
    add(&mut g, "b", vec![star("c"), reexport("x", "z", "c")]);
    add(&mut g, "main", vec![import("a", "x", "p"), import("b", "z", "q"), star("a"), star("b")]);
    g
}

#[test]
fn exports_resolve_through_stars() {
    let g = diamond();
    assert!(matches!(resolve_export(&g, "main", "x"), Resolution::Local(0, n) if n == "x"));
    assert!(matches!(resolve_export(&g, "b", "z"), Resolution::Local(0, n) if n == "x"));
    assert!(matches!(resolve_export(&g, "main", "nothing"), Resolution::NotFound));
    let names = sort_names(exported_names(&g, "main"));
    assert_eq!(names, ["only_a", "x", "y", "z"]);
    let space: Vec<String> = build_namespace(&g, "main").into_iter().map(|e| e.0).collect();
    assert_eq!(space, ["only_a", "x", "y", "z"]);
}

#[test]
fn two_stars_may_clash() {
    let mut g = Graph::new();
    add(&mut g, "a", vec![export_const("x")]);
    add(&mut g, "b", vec![export_const("x")]);
    add(&mut g, "main", vec![star("a"), star("b")]);
    assert!(matches!(resolve_export(&g, "main", "x"), Resolution::Ambiguous));
    add(&mut g, "user", vec![import("main", "x", "x")]);
    let m = &g.modules[3];
    let e = match link_imports(&g, &m.body, &m.resolved) {
        Err(e) => e,
        Ok(_) => panic!("linked"),
    };
    assert_eq!(e.message(), "the requested module provides an ambiguous export named 'x'");
}

#[test]
fn imports_are_linked() {
    let g = diamond();
    let m = &g.modules[3];
    let links = match link_imports(&g, &m.body, &m.resolved) {
        Ok(l) => l,
        Err(e) => panic!("{}", e.message()),
    };
    assert_eq!(links.len(), 2);
    assert!(matches!(&links[0], (n, Bound::Live(0, x)) if n == "p" && x == "x"));
    assert!(matches!(&links[1], (n, Bound::Live(0, x)) if n == "q" && x == "x"));
}

#[test]
fn missing_exports_are_link_errors() {
    let mut g = Graph::new();
    add(&mut g, "a", vec![export_const("x")]);
    add(&mut g, "main", vec![import("a", "gone", "y")]);
    let m = &g.modules[1];
    let e = link_imports(&g, &m.body, &m.resolved).map(|_| ()).unwrap_err();
    assert_eq!(e.message(), "the requested module 'a' does not provide an export named 'gone'");
    add(&mut g, "again", vec![reexport("gone", "g", "a")]);
    let e = validate_indirect_exports(&g, 2).unwrap_err();
    assert_eq!(e.message(), "the requested module does not provide an export named 'g'");
    assert!(validate_indirect_exports(&g, 0).is_ok());
    assert_eq!(LinkError::NoModuleSource.message(), "source-text modules have no module source");
    assert_eq!(LinkError::NoModule(t("k")).message(), "module not found: k");
}

#[test]
fn each_module_is_visited_once() {
    let g = diamond();
    let order = link_order(&g, "main", &Vec::new());
    assert_eq!(order, ["c", "a", "b", "main"]);
    let seen = collect_graph(&g, "main");
    assert_eq!(seen.len(), 4);
    assert_eq!(evaluation_order(&g.modules[3]), ["a", "b"]);
    assert_eq!(link_order(&g, "main", &vec![t("c"), t("a")]), ["b", "main"]);
}

#[test]
fn specifiers_are_listed_once() {
    let body = vec![import("a", "x", "y"), star("b"), import("a", "z", "z")];
    let names: Vec<String> =
        module_dependency_specifiers(&body).into_iter().map(|s| s.0).collect();
    assert!(names.contains(&t("a")) && names.contains(&t("b")));
    let tables = build_export_tables(&body, &Table::new());
    assert_eq!(tables.stars, ["b"]);
    assert!(tables.imports.has_name("y") && tables.imports.has_name("z"));
}

#[test]
fn texts_as_modules() {
    assert_eq!(js_string_literal("a\"b\n"), "\"a\\\"b\\n\"");
    assert_eq!(typed_module_source("{}", Some("json")), "export default JSON.parse(\"{}\");");
    assert_eq!(typed_module_source("hi", Some("text")), "export default \"hi\";");
    assert_eq!(
        typed_module_source("AB", Some("bytes")),
        "export default new Uint8Array(new Uint8Array([65,66]).buffer.sliceToImmutable());"
    );
    assert_eq!(
        typed_module_source("\u{e9}", Some("bytes")),
        "export default new Uint8Array(new Uint8Array([195,169]).buffer.sliceToImmutable());"
    );
    assert_eq!(typed_module_source("x", None), "x");
    assert_eq!(typed_module_key("/a.json", Some("json")), "/a.json#json");
    assert_eq!(typed_module_key("/a.js", None), "/a.js");
    let meta = build_import_meta("/d/a.js", Some(t("/d")));
    assert_eq!((meta.url.as_str(), meta.file), ("file:///d/a.js", Some((t("/d/a.js"), t("/d")))));
    assert!(build_import_meta("virtual", None).file.is_none());
    assert_eq!(module_text("gr\u{fc}n".as_bytes().to_vec()), "gr\u{fc}n");
    assert_eq!(module_text(vec![0x61, 0xff]), "a\u{ff}");
}

/// Notes what module bodies do.
struct Bodies {
    ran: Vec<u64>,
    promises: u64,
    errors: Vec<String>,
    namespaces: Vec<Vec<String>>,
}

impl<'a> Host<'a> for Bodies {
    fn answer(
        &mut self,
        request: &Request<'a>,
        memory: &Memory<'a>,
        _lists: &Vec<Vec<Value>>,
    ) -> Answer<'a> {
        match request {
            Request::NewPromise => {
                self.promises += 1;
                Answer::Value(Value::Obj(self.promises))
            }
            Request::ForwardedPromise(p) => Answer::Value(*p),
            Request::GlobalObject => Answer::Value(Value::Null),
            Request::MakeError { message: Value::Str(n), .. } => {
                self.errors.push(memory.texts[*n as usize].clone());
                Answer::Value(Value::Obj(900))
            }
            Request::BuildNamespace { exports, .. } => {
                self.namespaces.push(exports.iter().map(|e| e.0.clone()).collect());
                Answer::Value(Value::Undefined)
            }
            Request::Arithmetic { left, .. } => {
                self.ran.push(f64::from_bits(*left) as u64);
                Answer::Value(Value::Num(*left))
            }
            Request::HasWaits => Answer::Flag(false),
            Request::DeferredNamespace { module } => {
                self.namespaces.push(vec![format!("deferred {module}")]);
                Answer::Value(Value::Obj(800 + module))
            }
            _ => Answer::Value(Value::Undefined),
        }
    }

    fn run(
        &mut self,
        _request: &Request<'a>,
        _memory: &mut Memory<'a>,
        _lists: &Vec<Vec<Value>>,
    ) -> Answer<'a> {
        Answer::Value(Value::Undefined)
    }
}

/// A statement that tells a number when it runs.
fn tell(n: f64) -> Stmt {
    Stmt::Expr(Expr::Binary {
        op: "*",
        left: Box::new(Expr::Num(n.to_bits())),
        right: Box::new(Expr::Num(1.5f64.to_bits())),
    })
}

/// Links and evaluates the last module of a graph.
fn evaluate(g: &Graph) -> (bool, Bodies) {
    let count = g.modules.len();
    let root = g.modules[count - 1].key.clone();
    let mut host = Bodies { ran: Vec::new(), promises: 0, errors: Vec::new(), namespaces: Vec::new() };
    let mut opening = Session::new(&mut host, false, Memory::new(count));
    let mut envs: Vec<usize> = Vec::new();
    for _ in 0..count {
        envs.push(open_module(&mut opening, Value::Null).unwrap_or(0));
    }
    let memory = opening.into_memory();
    assert_eq!(memory.scopes.peek_binding("%importmeta%", envs[0]), Some(Value::Null));
    assert_eq!(memory.scopes.value_at(envs[0], "this"), Value::Undefined);
    let loaded: Result<Loaded, LoadError> =
        load_graph(g, &root, &envs, &Vec::new()).ok_or(LoadError::NoLoader);
    let mut s = Session::new(&mut host, false, memory);
    let good = matches!(run_loaded(&mut s, &loaded), Outcome::Value(_));
    (good, host)
}

#[test]
fn dependencies_run_first_and_once() {
    let mut g = Graph::new();
    add(&mut g, "c", vec![tell(0.0), export_const("x")]);
    add(&mut g, "a", vec![star("c"), tell(1.0)]);
    add(&mut g, "b", vec![star("c"), tell(2.0)]);
    add(&mut g, "main", vec![import("a", "x", "p"), import("b", "x", "q"), tell(3.0)]);
    let (good, host) = evaluate(&g);
    assert!(good);
    assert_eq!(host.ran, [0, 1, 2, 3]);
    assert_eq!(host.namespaces[0], ["x"]);
}

#[test]
fn a_failure_stops_what_depends_on_it() {
    let mut g = Graph::new();
    add(&mut g, "c", vec![tell(0.0), export_const("x")]);
    add(&mut g, "a", vec![star("c"), tell(1.0), Stmt::Throw(Expr::Null)]);
    add(&mut g, "main", vec![import("a", "x", "p"), tell(3.0)]);
    let (good, host) = evaluate(&g);
    assert!(!good);
    assert_eq!(host.ran, [0, 1]);
}

#[test]
fn imports_read_and_refuse() {
    let mut g = Graph::new();
    let value = Expr::Num(7f64.to_bits());
    let declared = Stmt::VarDecl {
        kind: DeclKind::Let,
        decls: vec![(Pattern::Ident(t("x")), Some(value))],
    };
    add(&mut g, "a", vec![Stmt::ExportDecl(Box::new(declared))]);
    let read = Stmt::Expr(Expr::Binary {
        op: "*",
        left: Box::new(Expr::Ident(t("p"))),
        right: Box::new(Expr::Num(1.5f64.to_bits())),
    });
    let write = Stmt::Expr(Expr::Assign {
        op: "=",
        target: Box::new(Expr::Ident(t("p"))),
        value: Box::new(Expr::Null),
    });
    add(&mut g, "main", vec![import("a", "x", "p"), read, write]);
    let (good, host) = evaluate(&g);
    assert!(!good);
    assert_eq!(host.ran, [7]);
    assert_eq!(host.errors, ["assignment to import binding 'p'"]);
}

#[test]
fn unlinked_and_unloaded_modules_fail() {
    let mut g = Graph::new();
    add(&mut g, "a", vec![export_const("x")]);
    add(&mut g, "main", vec![import("a", "gone", "y"), tell(3.0)]);
    let (good, host) = evaluate(&g);
    assert!(!good && host.ran.is_empty());
    assert_eq!(host.errors, ["the requested module 'a' does not provide an export named 'gone'"]);
    let body = vec![import("x", "a", "b"), import("x", "c", "d"), import("z", "c", "e")];
    let asked = wanted_specifiers(&body);
    assert_eq!(ask_next("m", &body, &Vec::new(), true), Some((t("x"), t("m"))));
    assert_eq!(ask_next("m", &body, &vec![None], true), None);
    assert_eq!(ask_next("m", &body, &vec![Some((t("x"), t("")))], true), Some((t("z"), t("m"))));
    assert_eq!(ask_next("m", &body, &Vec::new(), false), None);
    let e = collect_replies("m", &asked, &vec![None], true).unwrap_err();
    assert_eq!(e.message(), "module not found: x (imported from m)");
    let none = collect_replies("m", &asked, &Vec::new(), false).unwrap_err();
    assert_eq!(none.message(), "no module loader configured");
    assert_eq!(LoadError::Missing { key: t("k") }.message(), "module not found: k");
    let mut host = Bodies { ran: Vec::new(), promises: 0, errors: Vec::new(), namespaces: Vec::new() };
    let loaded: Result<Loaded, LoadError> = Err(e);
    let mut engine = Engine::new(&mut host, 0);
    assert!(matches!(engine.eval_module(&loaded, 4), Completion::Throw { .. }));
    assert_eq!(engine.session.module_loader(), Some(4));
    assert_eq!(host.errors, ["module not found: x (imported from m)"]);
}

#[test]
fn modules_are_registered_once() {
    let mut g = Graph::new();
    let body = Rc::new(vec![import("a", "x", "p")]);
    let asked = wanted_specifiers(&body);
    let fetched = collect_replies("m", &asked, &vec![Some((t("a"), t("text")))], true).unwrap();
    let first = register_step(&mut g, t("m"), Rc::clone(&body), &asked, &fetched);
    assert_eq!(first, [(t("a"), t("text"))]);
    assert_eq!(g.modules.len(), 1);
    assert!(register_step(&mut g, t("m"), body, &asked, &fetched).is_empty());
    assert_eq!(g.modules.len(), 1);
    let queue = queue_pending(vec![(t("b"), t("1"))], first);
    assert_eq!((queue.len(), queue[0].0.as_str()), (2, "b"));
}

#[test]
fn failed_imports_reject_their_promise() {
    let mut host = Bodies { ran: Vec::new(), promises: 0, errors: Vec::new(), namespaces: Vec::new() };
    let mut s = Session::new(&mut host, false, Memory::new(0));
    match dynamic_import(&mut s, Err(Abrupt::Throw(Value::Null)), false, EVAL_DEPTH) {
        Ok(Value::Obj(p)) => assert_eq!(s.promise_status(p), Some(Status::Rejected(Value::Null))),
        _ => panic!("no promise"),
    }
}

#[test]
fn deferred_modules_run_when_they_are_read() {
    let mut g = Graph::new();
    add(&mut g, "a", vec![tell(5.0), export_const("x")]);
    let plan = vec![plan_module(&g, 0, 0)];
    let mut host = Bodies { ran: Vec::new(), promises: 0, errors: Vec::new(), namespaces: Vec::new() };
    let mut s = Session::new(&mut host, false, Memory::new(1));
    assert!(evaluate_deferred(&mut s, &plan, 0, EVAL_DEPTH).is_ok());
    assert!(evaluate_deferred(&mut s, &plan, 0, EVAL_DEPTH).is_ok());
    assert_eq!(host.ran, [5]);
}

#[test]
fn imports_evaluate_their_module() {
    let mut g = Graph::new();
    add(&mut g, "a", vec![tell(5.0), export_const("x")]);
    let loaded: Result<Loaded, LoadError> =
        load_graph(&g, "a", &vec![0], &Vec::new()).ok_or(LoadError::NoLoader);
    let missing: Result<Loaded, LoadError> = Err(LoadError::Missing { key: t("m") });
    let mut host = Bodies { ran: Vec::new(), promises: 0, errors: Vec::new(), namespaces: Vec::new() };
    let mut s = Session::new(&mut host, false, Memory::new(1));
    assert!(matches!(dynamic_import(&mut s, Ok(Some(&loaded)), false, EVAL_DEPTH), Ok(Value::Obj(_))));
    match dynamic_import(&mut s, Ok(Some(&missing)), false, EVAL_DEPTH) {
        Ok(Value::Obj(p)) => {
            assert_eq!(s.promise_status(p), Some(Status::Rejected(Value::Obj(900))));
        }
        _ => panic!("no promise"),
    }
    assert_eq!(host.ran, [5]);
    assert_eq!(host.namespaces, [["x"]]);
    assert_eq!(host.errors, ["module not found: m"]);
}

/// Loads a module whose texts a loader has: what is parsed and what is asked for.
fn load(g: &mut Graph, root: &str, text: Option<&str>, texts: &[(&str, Vec<Stmt>)]) -> Result<Vec<String>, String> {
    let mut log = Vec::new();
    let mut l = Loading::begin(g, root, text.map(t)).map_err(|e| e.message())?;
    loop {
        match l.next(g, true).map_err(|e| e.message())? {
            LoadAction::Parse { key, .. } => {
                let body = texts.iter().find(|(k, _)| *k == key);
                log.push(format!("parse {key}"));
                l.parsed(Rc::new(body.map(|(_, b)| copy_body(b)).unwrap_or_default()));
            }
            LoadAction::Fetch { specifier, referrer } => {
                log.push(format!("fetch {specifier} for {referrer}"));
                let known = texts.iter().any(|(k, _)| *k == specifier);
                l.replied(if known { Some((specifier, t("text"))) } else { None });
            }
            LoadAction::Done => return Ok(log),
        }
    }
}

/// The same imports again.
fn copy_body(body: &[Stmt]) -> Vec<Stmt> {
    body.iter().map(copy_stmt).collect()
}

fn copy_stmt(s: &Stmt) -> Stmt {
    match s {
        Stmt::ExportAll { source, .. } => star(source),
        _ => tell(0.0),
    }
}

#[test]
fn loading_parses_each_module_once() {
    let texts = [
        ("main", vec![star("a"), star("b")]),
        ("a", vec![star("b")]),
        ("b", vec![star("a"), star("main")]),
    ];
    let mut g = Graph::new();
    let log = load(&mut g, "main", Some("text"), &texts).unwrap();
    assert_eq!(
        log,
        [
            "parse main",
            "fetch a for main",
            "fetch b for main",
            "parse a",
            "fetch b for a",
            "parse b",
            "fetch a for b",
            "fetch main for b",
        ]
    );
    assert_eq!(g.modules.len(), 3);
    assert!(load(&mut g, "a", None, &texts).unwrap().is_empty());
    assert!(load(&mut g, "main", Some("not a module"), &texts).unwrap().is_empty());
    assert_eq!(g.modules.len(), 3);
    assert_eq!(load(&mut g, "c", None, &texts), Err(t("module not found: c")));
    let gone = [("d", vec![star("e")])];
    assert_eq!(load(&mut g, "d", Some("text"), &gone), Err(t("module not found: e (imported from d)")));
}

#[test]
fn imports_ask_for_types() {
    let reply = Some((t("/d.json"), t("[1]")));
    let (key, text) = fetch_module(reply, "d", "m", Some("json")).unwrap();
    assert_eq!((key.as_str(), text.as_str()), ("/d.json#json", "export default JSON.parse(\"[1]\");"));
    let plain = fetch_module(Some((t("/d.js"), t("1"))), "d", "m", None).unwrap();
    assert_eq!(plain, (t("/d.js"), t("1")));
    let e = fetch_module(None, "d", "m", None).unwrap_err();
    assert_eq!(e.message(), "module not found: d (imported from m)");
}

#[test]
fn deferred_imports_share_a_namespace() {
    let mut g = Graph::new();
    add(&mut g, "a", vec![tell(5.0), export_const("x")]);
    let loaded: Result<Loaded, LoadError> =
        load_graph(&g, "a", &vec![0], &vec![t("a")]).ok_or(LoadError::NoLoader);
    let mut host = Bodies { ran: Vec::new(), promises: 0, errors: Vec::new(), namespaces: Vec::new() };
    let mut s = Session::new(&mut host, false, Memory::new(1));
    for _ in 0..2 {
        match dynamic_import(&mut s, Ok(Some(&loaded)), true, EVAL_DEPTH) {
            Ok(Value::Obj(_)) => {}
            _ => panic!("no promise"),
        }
    }
    assert_eq!(host.namespaces, [["deferred 0"]]);
    assert!(host.ran.is_empty());
}
