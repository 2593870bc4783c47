//! Which modules a module needs, and in which order they run.
use std::rc::Rc;
use vstd::prelude::*;

use crate::ast::{ImportDecl, ImportSpec, Stmt};
use crate::modules::exports::{
    asked_from, asked_view, build_export_tables, module_dependency_specifiers, opt_text,
    tables_from, Asked,
};
use crate::modules::graph::{Graph, Module};
use crate::modules::source::{
    kind_view, typed_key, typed_module_key, typed_module_source, typed_source,
};
use crate::modules::table::{add_name, copy_text, distinct, holds_name, texts, with_name, Table};
use crate::text::same_text;

verus! {

// ---- clauses

/// Whether an import only asks for deferred namespaces.
pub open spec fn defers(d: &ImportDecl) -> bool {
    d.specs@.len() > 0 && forall|i: int|
        0 <= i < d.specs@.len() ==> (#[trigger] d.specs@[i]) is DeferNamespace
}

fn import_defers(d: &ImportDecl) -> (r: bool)
    ensures
        r == defers(d),
{
    let mut i: usize = 0;
    while i < d.specs.len()
        invariant
            i <= d.specs.len(),
            forall|j: int| 0 <= j < i ==> (#[trigger] d.specs@[j]) is DeferNamespace,
        decreases d.specs.len() - i,
    {
        if !matches!(&d.specs[i], ImportSpec::DeferNamespace(_)) {
            return false;
        }
        i = i + 1;
    }
    d.specs.len() > 0
}

/// The specifier that a statement asks for, and whether it is only deferred.
pub open spec fn clause_of(s: &Stmt) -> Option<(Seq<char>, bool)> {
    match s {
        Stmt::Import(d) => Some((d.source@, defers(d))),
        Stmt::ExportNamed { specs: _, source } => match source {
            Some(x) => Some((x@, false)),
            None => None,
        },
        Stmt::ExportAll { source, exported: _ } => Some((source@, false)),
        _ => None,
    }
}

pub open spec fn clause_view(c: Option<(&str, bool)>) -> Option<(Seq<char>, bool)> {
    match c {
        Some((k, d)) => Some((k@, d)),
        None => None,
    }
}

/// The specifier that a statement asks for, and whether it is only deferred.
pub fn clause<'a>(s: &'a Stmt) -> (r: Option<(&'a str, bool)>)
    ensures
        clause_view(r) == clause_of(s),
{
    match s {
        Stmt::Import(d) => Some((d.source.as_str(), import_defers(d))),
        Stmt::ExportNamed { specs: _, source } => match source {
            Some(x) => Some((x.as_str(), false)),
            None => None,
        },
        Stmt::ExportAll { source, exported: _ } => Some((source.as_str(), false)),
        _ => None,
    }
}

/// The key that a statement's clause stands for, and whether it is only deferred.
pub open spec fn clause_key(s: &Stmt, resolved: Map<Seq<char>, Seq<char>>) -> Option<
    (Seq<char>, bool),
> {
    match clause_of(s) {
        Some((specifier, d)) => if resolved.contains_key(specifier) {
            Some((resolved[specifier], d))
        } else {
            None
        },
        None => None,
    }
}

fn resolved_clause<'a>(s: &Stmt, resolved: &'a Table<String>) -> (r: Option<(&'a str, bool)>)
    ensures
        clause_view(r) == clause_key(s, resolved@),
{
    match clause(s) {
        Some((specifier, d)) => match resolved.get(specifier) {
            Some(k) => Some((k.as_str(), d)),
            None => None,
        },
        None => None,
    }
}

/// The keys that the clauses among the first `n` statements stand for, each once: the deferred ones or
/// the others.
pub open spec fn keys_named(
    body: Seq<Stmt>,
    n: nat,
    resolved: Map<Seq<char>, Seq<char>>,
    deferred: bool,
) -> Seq<Seq<char>>
    decreases n,
{
    if n == 0 || n > body.len() {
        Seq::empty()
    } else {
        let before = keys_named(body, (n - 1) as nat, resolved, deferred);
        match clause_key(&body[n - 1], resolved) {
            Some((k, d)) => if d == deferred {
                with_name(before, k)
            } else {
                before
            },
            None => before,
        }
    }
}

fn named_keys(body: &Vec<Stmt>, resolved: &Table<String>, deferred: bool) -> (r: Vec<String>)
    ensures
        texts(r@) == keys_named(body@, body@.len(), resolved@, deferred),
{
    let mut out: Vec<String> = Vec::new();
    let mut i: usize = 0;
    assert(texts(out@) =~= Seq::empty());
    while i < body.len()
        invariant
            i <= body.len(),
            texts(out@) == keys_named(body@, i as nat, resolved@, deferred),
        decreases body.len() - i,
    {
        match resolved_clause(&body[i], resolved) {
            Some((k, d)) => {
                if d == deferred {
                    add_name(&mut out, k);
                }
            },
            None => {},
        }
        i = i + 1;
    }
    out
}

/// The modules that at least one clause asks for without deferring them.
pub fn eager_named_deps(body: &Vec<Stmt>, resolved: &Table<String>) -> (r: Vec<String>)
    ensures
        texts(r@) == keys_named(body@, body@.len(), resolved@, false),
{
    named_keys(body, resolved, false)
}

/// The keys of the first `n` statements in the order of evaluation: each at its first clause that does
/// not defer it, one that is only deferred at its first clause.
pub open spec fn order_from(
    body: Seq<Stmt>,
    n: nat,
    resolved: Map<Seq<char>, Seq<char>>,
    eager: Seq<Seq<char>>,
) -> Seq<Seq<char>>
    decreases n,
{
    if n == 0 || n > body.len() {
        Seq::empty()
    } else {
        let before = order_from(body, (n - 1) as nat, resolved, eager);
        match clause_key(&body[n - 1], resolved) {
            Some((k, d)) => if !d || !eager.contains(k) {
                with_name(before, k)
            } else {
                before
            },
            None => before,
        }
    }
}

/// The modules that a body asks for, in the order of evaluation.
pub open spec fn dep_order(body: Seq<Stmt>, resolved: Map<Seq<char>, Seq<char>>) -> Seq<Seq<char>> {
    order_from(body, body.len(), resolved, keys_named(body, body.len(), resolved, false))
}

/// The modules that a body asks for, in the order of evaluation.
pub fn eager_dep_order(body: &Vec<Stmt>, resolved: &Table<String>) -> (r: Vec<String>)
    ensures
        texts(r@) == dep_order(body@, resolved@),
{
    let eager = named_keys(body, resolved, false);
    let mut out: Vec<String> = Vec::new();
    let mut i: usize = 0;
    assert(texts(out@) =~= Seq::empty());
    while i < body.len()
        invariant
            i <= body.len(),
            texts(eager@) == keys_named(body@, body@.len(), resolved@, false),
            texts(out@) == order_from(body@, i as nat, resolved@, texts(eager@)),
        decreases body.len() - i,
    {
        match resolved_clause(&body[i], resolved) {
            Some((k, d)) => {
                if !d || !holds_name(&eager, k) {
                    add_name(&mut out, k);
                }
            },
            None => {},
        }
        i = i + 1;
    }
    out
}

/// The items of a list that stand in another, or those that do not.
pub open spec fn filtered(v: Seq<Seq<char>>, n: nat, other: Seq<Seq<char>>, keep: bool) -> Seq<
    Seq<char>,
>
    decreases n,
{
    if n == 0 || n > v.len() {
        Seq::empty()
    } else if other.contains(v[n - 1]) == keep {
        filtered(v, (n - 1) as nat, other, keep).push(v[n - 1])
    } else {
        filtered(v, (n - 1) as nat, other, keep)
    }
}

fn filter_names(v: &Vec<String>, other: &Vec<String>, keep: bool) -> (r: Vec<String>)
    ensures
        texts(r@) == filtered(texts(v@), texts(v@).len(), texts(other@), keep),
{
    let mut out: Vec<String> = Vec::new();
    let mut i: usize = 0;
    assert(texts(out@) =~= Seq::empty());
    while i < v.len()
        invariant
            i <= v.len(),
            texts(out@) == filtered(texts(v@), i as nat, texts(other@), keep),
        decreases v.len() - i,
    {
        assert(texts(v@)[i as int] == v@[i as int]@);
        if holds_name(other, v[i].as_str()) == keep {
            let ghost before = texts(out@);
            out.push(copy_text(v[i].as_str()));
            assert(texts(out@) =~= before.push(v@[i as int]@));
        }
        i = i + 1;
    }
    out
}

/// The dependencies of a module that are looked at first when it is evaluated. Only modules with a
/// record of their own count.
pub open spec fn first_deps(m: &Module) -> Seq<Seq<char>> {
    let order = dep_order(m.body@, m.resolved@);
    let deps = texts(m.dep_keys@);
    if order.len() == 0 {
        filtered(deps, deps.len(), texts(m.deferred_deps@), false)
    } else {
        filtered(order, order.len(), deps, true)
    }
}

/// The dependencies of a module in the order in which its evaluation looks at them.
pub fn evaluation_order(m: &Module) -> (r: Vec<String>)
    ensures
        texts(r@) == first_deps(m),
{
    let order = eager_dep_order(&m.body, &m.resolved);
    if order.len() == 0 {
        filter_names(&m.dep_keys, &m.deferred_deps, false)
    } else {
        filter_names(&order, &m.dep_keys, true)
    }
}

// ---- registration

/// Whether some request asks for a specifier.
pub open spec fn asks_for(v: Seq<Asked>, specifier: Seq<char>) -> bool {
    exists|i: int| 0 <= i < v.len() && (#[trigger] v[i]).specifier == specifier
}

/// The requests of a body that need to be fetched: the first for each specifier, but for the host's own
/// module source.
pub open spec fn wanted(v: Seq<Asked>, n: nat) -> Seq<Asked>
    decreases n,
{
    if n == 0 || n > v.len() {
        Seq::empty()
    } else {
        let before = wanted(v, (n - 1) as nat);
        if v[n - 1].specifier == "<module source>"@ || asks_for(before, v[n - 1].specifier) {
            before
        } else {
            before.push(v[n - 1])
        }
    }
}

fn is_asked(v: &Vec<(String, Option<String>)>, specifier: &str) -> (r: bool)
    ensures
        r == asks_for(asked_view(v@), specifier@),
{
    let mut i: usize = 0;
    while i < v.len()
        invariant
            i <= v.len(),
            forall|j: int| 0 <= j < i ==> (#[trigger] asked_view(v@)[j]).specifier != specifier@,
        decreases v.len() - i,
    {
        assert(asked_view(v@)[i as int].specifier == v@[i as int].0@);
        if same_text(v[i].0.as_str(), specifier) {
            return true;
        }
        i = i + 1;
    }
    false
}

fn copy_opt(s: &Option<String>) -> (r: Option<String>)
    ensures
        opt_text(r) == opt_text(*s),
{
    match s {
        Some(t) => Some(copy_text(t.as_str())),
        None => None,
    }
}

/// The specifiers of a body that need to be fetched, with the type each is asked for as.
pub fn wanted_specifiers(body: &Vec<Stmt>) -> (r: Vec<(String, Option<String>)>)
    ensures
        asked_view(r@) == wanted(asked_from(body@, body@.len()), asked_from(body@, body@.len()).len()),
{
    let all = module_dependency_specifiers(body);
    let mut out: Vec<(String, Option<String>)> = Vec::new();
    let mut i: usize = 0;
    let ghost v = asked_view(all@);
    assert(asked_view(out@) =~= Seq::empty());
    while i < all.len()
        invariant
            i <= all.len(),
            v == asked_view(all@),
            asked_view(out@) == wanted(v, i as nat),
        decreases all.len() - i,
    {
        assert(v[i as int].specifier == all@[i as int].0@);
        if !same_text(all[i].0.as_str(), "<module source>") && !is_asked(&out, all[i].0.as_str()) {
            let ghost before = asked_view(out@);
            out.push((copy_text(all[i].0.as_str()), copy_opt(&all[i].1)));
            assert(asked_view(out@) =~= before.push(v[i as int]));
        }
        i = i + 1;
    }
    out
}

/// What the host fetched for a request: the canonical key and the text.
pub ghost struct Fetched {
    pub key: Seq<char>,
    pub text: Seq<char>,
}

pub open spec fn fetched_view(v: Seq<(String, String)>) -> Seq<Fetched> {
    v.map_values(|p: (String, String)| Fetched { key: p.0@, text: p.1@ })
}

/// The key of the `i`th module that was fetched.
pub open spec fn fetched_key(w: Seq<Asked>, f: Seq<Fetched>, i: int) -> Seq<char> {
    typed_key(f[i].key, w[i].kind)
}

/// The keys that the first `n` specifiers stand for; the host's own module source stands for itself.
pub open spec fn resolution(
    w: Seq<Asked>,
    f: Seq<Fetched>,
    n: nat,
    source: bool,
) -> Map<Seq<char>, Seq<char>>
    decreases n,
{
    if n == 0 || n > w.len() {
        if source {
            Map::empty().insert("<module source>"@, "<module source>"@)
        } else {
            Map::empty()
        }
    } else {
        resolution(w, f, (n - 1) as nat, source).insert(
            w[n - 1].specifier,
            fetched_key(w, f, n - 1),
        )
    }
}

/// The keys of the first `n` modules that were fetched, each once.
pub open spec fn fetched_keys(w: Seq<Asked>, f: Seq<Fetched>, n: nat) -> Seq<Seq<char>>
    decreases n,
{
    if n == 0 || n > w.len() {
        Seq::empty()
    } else {
        with_name(fetched_keys(w, f, (n - 1) as nat), fetched_key(w, f, n - 1))
    }
}

/// The modules among the first `n` that still need to be registered: their keys and texts.
pub open spec fn pending(g: &Graph, w: Seq<Asked>, f: Seq<Fetched>, n: nat) -> Seq<Fetched>
    decreases n,
{
    if n == 0 || n > w.len() {
        Seq::empty()
    } else {
        let before = pending(g, w, f, (n - 1) as nat);
        let key = fetched_key(w, f, n - 1);
        if fetched_keys(w, f, (n - 1) as nat).contains(key) || g.place(key) is Some {
            before
        } else {
            before.push(Fetched { key, text: typed_source(f[n - 1].text, w[n - 1].kind) })
        }
    }
}

/// The keys that are only deferred: every clause of some specifier that stands for them defers.
pub open spec fn only_deferred(
    body: Seq<Stmt>,
    resolved: Map<Seq<char>, Seq<char>>,
    key: Seq<char>,
) -> bool {
    exists|s: Seq<char>| #[trigger]
        resolved.contains_key(s) && resolved[s] == key && all_defer(body, s)
}

/// Whether a specifier is asked for, and every clause defers it.
pub open spec fn all_defer(body: Seq<Stmt>, specifier: Seq<char>) -> bool {
    &&& exists|i: int| 0 <= i < body.len() && names_specifier(#[trigger] body[i], specifier)
    &&& forall|i: int|
        0 <= i < body.len() && names_specifier(#[trigger] body[i], specifier) ==> clause_of(
            &body[i],
        ) == Some((specifier, true))
}

pub open spec fn names_specifier(s: Stmt, specifier: Seq<char>) -> bool {
    clause_of(&s) matches Some(c) && c.0 == specifier
}

fn specifier_defers(body: &Vec<Stmt>, specifier: &str) -> (r: bool)
    ensures
        r == all_defer(body@, specifier@),
{
    let mut found: bool = false;
    let mut i: usize = 0;
    while i < body.len()
        invariant
            i <= body.len(),
            found == (exists|j: int|
                0 <= j < i && names_specifier(#[trigger] body@[j], specifier@)),
            forall|j: int|
                0 <= j < i && names_specifier(#[trigger] body@[j], specifier@) ==> clause_of(
                    &body@[j],
                ) == Some((specifier@, true)),
        decreases body.len() - i,
    {
        match clause(&body[i]) {
            Some((k, d)) => {
                if same_text(k, specifier) {
                    assert(names_specifier(body@[i as int], specifier@));
                    if !d {
                        return false;
                    }
                    found = true;
                }
            },
            None => {},
        }
        i = i + 1;
    }
    found
}

fn deferred_keys(body: &Vec<Stmt>, resolved: &Table<String>) -> (r: Vec<String>)
    ensures
        forall|k: Seq<char>| #[trigger]
            texts(r@).contains(k) <==> only_deferred(body@, resolved@, k),
{
    let names = resolved.names();
    let mut out: Vec<String> = Vec::new();
    let mut i: usize = 0;
    let ghost t = texts(names@);
    assert(texts(out@) =~= Seq::empty());
    while i < names.len()
        invariant
            i <= names.len(),
            t == texts(names@),
            forall|n: Seq<char>| #[trigger] t.contains(n) <==> resolved@.contains_key(n),
            forall|k: Seq<char>| #[trigger]
                texts(out@).contains(k) <==> exists|j: int|
                    0 <= j < i && resolved@[#[trigger] t[j]] == k && all_defer(body@, t[j]),
        decreases names.len() - i,
    {
        assert(t[i as int] == names@[i as int]@);
        assert(t.contains(t[i as int]));
        let ghost before = texts(out@);
        if specifier_defers(body, names[i].as_str()) {
            match resolved.get(names[i].as_str()) {
                Some(k) => {
                    add_name(&mut out, k.as_str());
                },
                None => {},
            }
        }
        assert forall|k: Seq<char>| #[trigger] texts(out@).contains(k) <==> exists|j: int|
            0 <= j < i + 1 && resolved@[#[trigger] t[j]] == k && all_defer(body@, t[j]) by {
            assert(before.contains(k) <==> exists|j: int|
                0 <= j < i && resolved@[#[trigger] t[j]] == k && all_defer(body@, t[j]));
            if before.contains(k) {
                let j = choose|j: int|
                    0 <= j < i && resolved@[#[trigger] t[j]] == k && all_defer(body@, t[j]);
                assert(0 <= j < i + 1 && resolved@[t[j]] == k && all_defer(body@, t[j]));
            }
        }
        i = i + 1;
    }
    assert forall|k: Seq<char>| #[trigger] texts(out@).contains(k) <==> only_deferred(
        body@,
        resolved@,
        k,
    ) by {
        if texts(out@).contains(k) {
            let j = choose|j: int|
                0 <= j < names.len() && resolved@[#[trigger] t[j]] == k && all_defer(body@, t[j]);
            assert(t.contains(t[j]));
            assert(resolved@.contains_key(t[j]));
        }
        if only_deferred(body@, resolved@, k) {
            let s = choose|s: Seq<char>| #[trigger]
                resolved@.contains_key(s) && resolved@[s] == k && all_defer(body@, s);
            assert(t.contains(s));
            let j = choose|j: int| 0 <= j < t.len() && t[j] == s;
            assert(resolved@[t[j]] == k && all_defer(body@, t[j]));
        }
    }
    out
}

/// A module that was registered, and the modules that it needs registered in turn.
pub struct Registered {
    pub module: Module,
    pub pending: Vec<(String, String)>,
}

/// The record of a module, from its body and from what the host fetched for its specifiers.
pub fn register_module(
    g: &Graph,
    key: String,
    body: Rc<Vec<Stmt>>,
    asked: &Vec<(String, Option<String>)>,
    fetched: &Vec<(String, String)>,
) -> (r: Registered)
    requires
        asked@.len() == fetched@.len(),
    ensures
        r.module.key == key,
        r.module.body == body,
        r.module.resolved@ == resolution(
            asked_view(asked@),
            fetched_view(fetched@),
            asked@.len(),
            asks_for(asked_from(body@, body@.len()), "<module source>"@),
        ),
        texts(r.module.dep_keys@) == fetched_keys(
            asked_view(asked@),
            fetched_view(fetched@),
            asked@.len(),
        ),
        fetched_view(r.pending@) == pending(
            g,
            asked_view(asked@),
            fetched_view(fetched@),
            asked@.len(),
        ),
        r.module.tables@ == tables_from(body@, body@.len(), r.module.resolved@),
        forall|k: Seq<char>| #[trigger]
            texts(r.module.deferred_deps@).contains(k) <==> only_deferred(
                body@,
                r.module.resolved@,
                k,
            ),
{
    let mut resolved: Table<String> = Table::new();
    let mut dep_keys: Vec<String> = Vec::new();
    let mut queued: Vec<(String, String)> = Vec::new();
    let all = module_dependency_specifiers(&body);
    let source = is_asked(&all, "<module source>");
    if source {
        resolved.insert(copy_text("<module source>"), copy_text("<module source>"));
    }
    let ghost w = asked_view(asked@);
    let ghost f = fetched_view(fetched@);
    let mut i: usize = 0;
    assert(texts(dep_keys@) =~= Seq::empty());
    assert(fetched_view(queued@) =~= Seq::empty());
    while i < asked.len()
        invariant
            i <= asked.len(),
            asked@.len() == fetched@.len(),
            w == asked_view(asked@),
            f == fetched_view(fetched@),
            resolved@ == resolution(w, f, i as nat, source),
            texts(dep_keys@) == fetched_keys(w, f, i as nat),
            fetched_view(queued@) == pending(g, w, f, i as nat),
        decreases asked.len() - i,
    {
        let kind: Option<&str> = match &asked[i].1 {
            Some(t) => Some(t.as_str()),
            None => None,
        };
        assert(w[i as int].kind == kind_view(kind));
        assert(f[i as int].key == fetched@[i as int].0@);
        let canon = typed_module_key(fetched[i].0.as_str(), kind);
        resolved.insert(copy_text(asked[i].0.as_str()), copy_text(canon.as_str()));
        if !holds_name(&dep_keys, canon.as_str()) && g.find(canon.as_str()).is_none() {
            let text = typed_module_source(fetched[i].1.as_str(), kind);
            let ghost before = fetched_view(queued@);
            let ghost added = Fetched { key: canon@, text: text@ };
            queued.push((copy_text(canon.as_str()), text));
            assert(fetched_view(queued@) =~= before.push(added));
        }
        add_name(&mut dep_keys, canon.as_str());
        i = i + 1;
    }
    let tables = build_export_tables(&body, &resolved);
    let deferred_deps = deferred_keys(&body, &resolved);
    Registered {
        module: Module { key, body, dep_keys, resolved, deferred_deps, tables },
        pending: queued,
    }
}

// ---- walks

/// The keys of a walk through the dependencies of a module, after those it came by already. The walk
/// leaves out modules that are only deferred, or not.
pub open spec fn walk(
    g: &Graph,
    key: Seq<char>,
    out: Seq<Seq<char>>,
    eager: bool,
    depth: u64,
) -> Seq<Seq<char>>
    decreases depth, 0nat,
{
    if depth == 0 || out.contains(key) {
        out
    } else {
        match g.place(key) {
            None => out.push(key),
            Some(m) => walk_deps(
                g,
                &g.modules@[m as int],
                0,
                out.push(key),
                eager,
                (depth - 1) as u64,
            ),
        }
    }
}

/// Whether a walk that leaves deferred modules out passes a dependency by.
pub open spec fn passed_by(m: &Module, dep: Seq<char>, eager: bool) -> bool {
    eager && texts(m.deferred_deps@).contains(dep) && !keys_named(
        m.body@,
        m.body@.len(),
        m.resolved@,
        false,
    ).contains(dep)
}

/// The walk through the dependencies from the one at `i` on.
pub open spec fn walk_deps(
    g: &Graph,
    m: &Module,
    i: nat,
    out: Seq<Seq<char>>,
    eager: bool,
    depth: u64,
) -> Seq<Seq<char>>
    decreases depth, m.dep_keys@.len() - i + 1,
{
    if i >= m.dep_keys@.len() {
        out
    } else if passed_by(m, m.dep_keys@[i as int]@, eager) {
        walk_deps(g, m, i + 1, out, eager, depth)
    } else {
        walk_deps(
            g,
            m,
            i + 1,
            walk(g, m.dep_keys@[i as int]@, out, eager, depth),
            eager,
            depth,
        )
    }
}

#[verifier::spinoff_prover]
fn walk_in(g: &Graph, key: &str, out: &mut Vec<String>, eager: bool, depth: u64)
    ensures
        texts(final(out)@) == walk(g, key@, texts(old(out)@), eager, depth),
    decreases depth,
{
    if depth == 0 || holds_name(out, key) {
        return ;
    }
    out.push(copy_text(key));
    assert(texts(out@) =~= texts(old(out)@).push(key@));
    match g.find(key) {
        None => {},
        Some(p) => {
            let m = &g.modules[p];
            let named = eager_named_deps(&m.body, &m.resolved);
            let ghost start = texts(out@);
            let mut i: usize = 0;
            while i < m.dep_keys.len()
                invariant
                    depth > 0,
                    i <= m.dep_keys.len(),
                    texts(named@) == keys_named(m.body@, m.body@.len(), m.resolved@, false),
                    walk_deps(g, m, 0, start, eager, (depth - 1) as u64) == walk_deps(
                        g,
                        m,
                        i as nat,
                        texts(out@),
                        eager,
                        (depth - 1) as u64,
                    ),
                decreases m.dep_keys.len() - i,
            {
                let dep = m.dep_keys[i].as_str();
                if !(eager && holds_name(&m.deferred_deps, dep) && !holds_name(&named, dep)) {
                    walk_in(g, dep, out, eager, depth - 1);
                }
                i = i + 1;
            }
        },
    }
}

/// How deep a walk goes: deeper than any that memory can hold.
pub const WALK_DEPTH: u64 = 0xffff_ffff_ffff_ffff;

/// Every module that a module depends on, itself included, in the order of a walk.
pub fn collect_graph(g: &Graph, key: &str) -> (r: Vec<String>)
    ensures
        texts(r@) == walk(g, key@, Seq::empty(), false, WALK_DEPTH),
{
    let mut out: Vec<String> = Vec::new();
    assert(texts(out@) =~= Seq::empty());
    walk_in(g, key, &mut out, false, WALK_DEPTH);
    out
}

/// Every module that evaluating a module will evaluate: deferred ones are left out.
pub fn collect_eager_graph(g: &Graph, key: &str) -> (r: Vec<String>)
    ensures
        texts(r@) == walk(g, key@, Seq::empty(), true, WALK_DEPTH),
{
    let mut out: Vec<String> = Vec::new();
    assert(texts(out@) =~= Seq::empty());
    walk_in(g, key, &mut out, true, WALK_DEPTH);
    out
}

/// A walk comes by every module at most once.
pub proof fn walks_visit_once(g: &Graph, key: Seq<char>, out: Seq<Seq<char>>, eager: bool, depth: u64)
    requires
        distinct(out),
    ensures
        distinct(walk(g, key, out, eager, depth)),
    decreases depth, 0nat,
{
    if depth > 0 && !out.contains(key) {
        lemma_push_distinct(out, key);
        match g.place(key) {
            None => {},
            Some(m) => {
                lemma_deps_visited_once(
                    g,
                    &g.modules@[m as int],
                    0,
                    out.push(key),
                    eager,
                    (depth - 1) as u64,
                );
            },
        }
    }
}

proof fn lemma_deps_visited_once(
    g: &Graph,
    m: &Module,
    i: nat,
    out: Seq<Seq<char>>,
    eager: bool,
    depth: u64,
)
    requires
        distinct(out),
    ensures
        distinct(walk_deps(g, m, i, out, eager, depth)),
    decreases depth, m.dep_keys@.len() - i + 1,
{
    if i < m.dep_keys@.len() {
        if passed_by(m, m.dep_keys@[i as int]@, eager) {
            lemma_deps_visited_once(g, m, i + 1, out, eager, depth);
        } else {
            let dep = m.dep_keys@[i as int]@;
            walks_visit_once(g, dep, out, eager, depth);
            lemma_deps_visited_once(g, m, i + 1, walk(g, dep, out, eager, depth), eager, depth);
        }
    }
}

proof fn lemma_push_distinct(out: Seq<Seq<char>>, key: Seq<char>)
    requires
        distinct(out),
        !out.contains(key),
    ensures
        distinct(out.push(key)),
{
    let all = out.push(key);
    assert forall|i: int, j: int| 0 <= i < j < all.len() implies all[i] != all[j] by {
        if j == out.len() {
            assert(all[i] == out[i]);
        }
    }
}

/// The modules that linking has come by, and those of them that it is done with, in that order: a
/// module after those it depends on.
pub ghost struct Linking {
    pub begun: Seq<Seq<char>>,
    pub done: Seq<Seq<char>>,
}

/// Linking a module, after what was linked already.
pub open spec fn linked(g: &Graph, key: Seq<char>, l: Linking, depth: u64) -> Linking
    decreases depth, 0nat,
{
    if depth == 0 || l.begun.contains(key) {
        l
    } else {
        match g.place(key) {
            None => l,
            Some(m) => {
                let after = linked_deps(
                    g,
                    &g.modules@[m as int],
                    0,
                    Linking { begun: l.begun.push(key), done: l.done },
                    (depth - 1) as u64,
                );
                Linking { begun: after.begun, done: after.done.push(key) }
            },
        }
    }
}

/// Linking the dependencies of a module from the one at `i` on.
pub open spec fn linked_deps(g: &Graph, m: &Module, i: nat, l: Linking, depth: u64) -> Linking
    decreases depth, m.dep_keys@.len() - i + 1,
{
    if i >= m.dep_keys@.len() {
        l
    } else {
        linked_deps(g, m, i + 1, linked(g, m.dep_keys@[i as int]@, l, depth), depth)
    }
}

#[verifier::spinoff_prover]
fn link_in(g: &Graph, key: &str, begun: &mut Vec<String>, done: &mut Vec<String>, depth: u64)
    ensures
        ({
            let l = linked(
                g,
                key@,
                Linking { begun: texts(old(begun)@), done: texts(old(done)@) },
                depth,
            );
            texts(final(begun)@) == l.begun && texts(final(done)@) == l.done
        }),
    decreases depth,
{
    if depth == 0 || holds_name(begun, key) {
        return ;
    }
    match g.find(key) {
        None => {},
        Some(p) => {
            begun.push(copy_text(key));
            assert(texts(begun@) =~= texts(old(begun)@).push(key@));
            let m = &g.modules[p];
            let ghost start = Linking { begun: texts(begun@), done: texts(done@) };
            let mut i: usize = 0;
            while i < m.dep_keys.len()
                invariant
                    depth > 0,
                    i <= m.dep_keys.len(),
                    linked_deps(g, m, 0, start, (depth - 1) as u64) == linked_deps(
                        g,
                        m,
                        i as nat,
                        (Linking { begun: texts(begun@), done: texts(done@) }),
                        (depth - 1) as u64,
                    ),
                decreases m.dep_keys.len() - i,
            {
                link_in(g, m.dep_keys[i].as_str(), begun, done, depth - 1);
                i = i + 1;
            }
            let ghost before = texts(done@);
            done.push(copy_text(key));
            assert(texts(done@) =~= before.push(key@));
        },
    }
}

/// The modules to link for a module, in order: its dependencies first, and none that was linked before.
pub fn link_order(g: &Graph, key: &str, already: &Vec<String>) -> (r: Vec<String>)
    ensures
        texts(r@) == linked(
            g,
            key@,
            Linking { begun: texts(already@), done: Seq::empty() },
            WALK_DEPTH,
        ).done,
{
    let mut begun: Vec<String> = Vec::new();
    let mut i: usize = 0;
    assert(texts(begun@) =~= Seq::empty());
    assert(texts(already@).take(0) =~= Seq::empty());
    while i < already.len()
        invariant
            i <= already.len(),
            texts(begun@) == texts(already@).take(i as int),
        decreases already.len() - i,
    {
        let ghost before = texts(begun@);
        begun.push(copy_text(already[i].as_str()));
        assert(texts(begun@) =~= before.push(already@[i as int]@));
        assert(texts(already@).take(i as int + 1) =~= before.push(texts(already@)[i as int]));
        i = i + 1;
    }
    assert(texts(already@).take(i as int) =~= texts(already@));
    let mut done: Vec<String> = Vec::new();
    assert(texts(done@) =~= Seq::empty());
    link_in(g, key, &mut begun, &mut done, WALK_DEPTH);
    done
}

/// No module is linked twice, and none that was linked before.
pub proof fn linked_once(g: &Graph, key: Seq<char>, l: Linking, depth: u64)
    requires
        distinct(l.done),
        forall|n: Seq<char>| #[trigger] l.done.contains(n) ==> l.begun.contains(n),
    ensures
        distinct(linked(g, key, l, depth).done),
        forall|n: Seq<char>| #[trigger]
            linked(g, key, l, depth).done.contains(n) ==> linked(g, key, l, depth).begun.contains(n),
        forall|n: Seq<char>| #[trigger]
            l.begun.contains(n) ==> linked(g, key, l, depth).begun.contains(n),
        forall|n: Seq<char>| #[trigger]
            linked(g, key, l, depth).done.contains(n) ==> l.done.contains(n) || !l.begun.contains(n),
    decreases depth, 0nat,
{
    if depth > 0 && !l.begun.contains(key) {
        match g.place(key) {
            None => {},
            Some(p) => {
                let m = &g.modules@[p as int];
                let start = Linking { begun: l.begun.push(key), done: l.done };
                assert forall|n: Seq<char>| #[trigger] l.begun.contains(n) implies start.begun.contains(
                    n,
                ) by {
                    let k = choose|k: int| 0 <= k < l.begun.len() && l.begun[k] == n;
                    assert(start.begun[k] == n);
                }
                assert(start.begun[l.begun.len() as int] == key);
                assert(start.begun.contains(key));
                lemma_deps_linked_once(g, m, 0, start, (depth - 1) as u64);
                let after = linked_deps(g, m, 0, start, (depth - 1) as u64);
                let end = linked(g, key, l, depth);
                assert(end.done == after.done.push(key));
                assert(!after.done.contains(key)) by {
                    if after.done.contains(key) {
                        assert(start.done.contains(key));
                    }
                }
                lemma_push_distinct(after.done, key);
                assert forall|n: Seq<char>| #[trigger] end.done.contains(n) implies end.begun.contains(
                    n,
                ) && (l.done.contains(n) || !l.begun.contains(n)) by {
                    let k = choose|k: int| 0 <= k < end.done.len() && end.done[k] == n;
                    if k < after.done.len() {
                        assert(after.done[k] == n);
                        assert(after.done.contains(n));
                    }
                }
            },
        }
    }
}

proof fn lemma_deps_linked_once(g: &Graph, m: &Module, i: nat, l: Linking, depth: u64)
    requires
        distinct(l.done),
        forall|n: Seq<char>| #[trigger] l.done.contains(n) ==> l.begun.contains(n),
    ensures
        distinct(linked_deps(g, m, i, l, depth).done),
        forall|n: Seq<char>| #[trigger]
            linked_deps(g, m, i, l, depth).done.contains(n) ==> linked_deps(
                g,
                m,
                i,
                l,
                depth,
            ).begun.contains(n),
        forall|n: Seq<char>| #[trigger]
            l.begun.contains(n) ==> linked_deps(g, m, i, l, depth).begun.contains(n),
        forall|n: Seq<char>| #[trigger]
            linked_deps(g, m, i, l, depth).done.contains(n) ==> l.done.contains(n)
                || !l.begun.contains(n),
    decreases depth, m.dep_keys@.len() - i + 1,
{
    if i < m.dep_keys@.len() {
        let dep = m.dep_keys@[i as int]@;
        linked_once(g, dep, l, depth);
        lemma_deps_linked_once(g, m, i + 1, linked(g, dep, l, depth), depth);
    }
}

} // verus!
