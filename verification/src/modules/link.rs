//! Linking: what each import is bound to, and what a module's namespace shows.
use vstd::prelude::*;

use crate::ast::{ImportDecl, ImportSpec, Stmt};
use crate::modules::exports::{key_of, resolved_key};
use crate::modules::graph::Graph;
use crate::modules::resolve::{
    export_of, exported_names, exports_of, item_set, resolve_export, Found, Resolution,
};
use crate::modules::table::{copy_text, texts, Table};
use crate::text::{join, same_text, to_chars};

verus! {

// ---- the order of names

/// Whether a text comes no later than another, by its characters from the one at `i` on.
pub open spec fn le_from(a: Seq<char>, b: Seq<char>, i: nat) -> bool
    decreases a.len() - i,
{
    if i >= a.len() {
        true
    } else if i >= b.len() {
        false
    } else if a[i as int] == b[i as int] {
        le_from(a, b, i + 1)
    } else {
        (a[i as int] as int) < (b[i as int] as int)
    }
}

/// Whether a text comes no later than another.
pub open spec fn text_le(a: Seq<char>, b: Seq<char>) -> bool {
    le_from(a, b, 0)
}

/// Of two texts one comes no later than the other.
pub proof fn text_order_total(a: Seq<char>, b: Seq<char>, i: nat)
    ensures
        le_from(a, b, i) || le_from(b, a, i),
    decreases a.len() - i,
{
    if i < a.len() && i < b.len() && a[i as int] == b[i as int] {
        text_order_total(a, b, i + 1);
    }
}

/// The order of texts is transitive.
pub proof fn text_order_transitive(a: Seq<char>, b: Seq<char>, c: Seq<char>, i: nat)
    requires
        le_from(a, b, i),
        le_from(b, c, i),
    ensures
        le_from(a, c, i),
    decreases a.len() - i,
{
    if i < a.len() && i < b.len() && i < c.len() && a[i as int] == b[i as int] && b[i as int]
        == c[i as int] {
        text_order_transitive(a, b, c, i + 1);
    }
}

/// Whether texts stand in order.
pub open spec fn in_order(v: Seq<Seq<char>>) -> bool {
    forall|i: int, j: int| 0 <= i < j < v.len() ==> text_le(v[i], v[j])
}

fn comes_first(a: &str, b: &str) -> (r: bool)
    ensures
        r == text_le(a@, b@),
{
    let x = to_chars(a);
    let y = to_chars(b);
    let mut i: usize = 0;
    while i < x.len()
        invariant
            i <= x.len(),
            x@ == a@,
            y@ == b@,
            le_from(a@, b@, 0) == le_from(a@, b@, i as nat),
        decreases x.len() - i,
    {
        if i >= y.len() {
            return false;
        }
        if x[i] != y[i] {
            let c: char = x[i];
            let d: char = y[i];
            return c < d;
        }
        i = i + 1;
    }
    true
}

/// Puts a name into a list that stands in order.
fn insert_name(v: &mut Vec<String>, name: String)
    requires
        in_order(texts(old(v)@)),
    ensures
        in_order(texts(final(v)@)),
        texts(final(v)@).to_multiset() == texts(old(v)@).to_multiset().insert(name@),
        forall|n: Seq<char>| #[trigger]
            texts(final(v)@).contains(n) <==> texts(old(v)@).contains(n) || n == name@,
        final(v)@.len() == old(v)@.len() + 1,
{
    let mut p: usize = 0;
    while p < v.len() && comes_first(v[p].as_str(), name.as_str())
        invariant
            p <= v.len(),
            v@ == old(v)@,
            forall|j: int| 0 <= j < p ==> text_le(texts(v@)[j], name@),
        decreases v.len() - p,
    {
        assert(texts(v@)[p as int] == v@[p as int]@);
        p = p + 1;
    }
    let ghost t = texts(v@);
    let ghost x = name@;
    v.insert(p, name);
    assert(texts(v@) =~= t.insert(p as int, x));
    proof {
        broadcast use vstd::seq_lib::group_to_multiset_ensures;

        assert forall|i: int, j: int| 0 <= i < j < texts(v@).len() implies text_le(
            texts(v@)[i],
            texts(v@)[j],
        ) by {
            if i < p && j == p {
            } else if i == p {
                text_order_total(t[p as int], x, 0);
                assert(text_le(x, t[p as int]));
                if j > p + 1 {
                    assert(in_order(t));
                    assert(text_le(t[p as int], t[j - 1]));
                    text_order_transitive(x, t[p as int], t[j - 1], 0);
                }
            }
        }
        assert forall|n: Seq<char>| #[trigger] texts(v@).contains(n) <==> t.contains(n) || n == x by {
            if t.contains(n) {
                let k = choose|k: int| 0 <= k < t.len() && t[k] == n;
                if k < p {
                    assert(texts(v@)[k] == n);
                } else {
                    assert(texts(v@)[k + 1] == n);
                }
            }
            if n == x {
                assert(texts(v@)[p as int] == n);
            }
            if texts(v@).contains(n) {
                let k = choose|k: int| 0 <= k < texts(v@).len() && texts(v@)[k] == n;
                if k < p {
                    assert(t[k] == n);
                } else if k > p {
                    assert(t[k - 1] == n);
                }
            }
        }
    }
}

/// The names of a list in order.
pub fn sort_names(v: Vec<String>) -> (r: Vec<String>)
    ensures
        in_order(texts(r@)),
        texts(r@).to_multiset() == texts(v@).to_multiset(),
        item_set(texts(r@)) == item_set(texts(v@)),
        r@.len() == v@.len(),
{
    let mut out: Vec<String> = Vec::new();
    let mut i: usize = 0;
    assert(texts(out@) =~= Seq::empty());
    assert(texts(v@).take(0) =~= Seq::empty());
    while i < v.len()
        invariant
            i <= v.len(),
            in_order(texts(out@)),
            texts(out@).to_multiset() == texts(v@).take(i as int).to_multiset(),
            forall|n: Seq<char>| #[trigger]
                texts(out@).contains(n) <==> texts(v@).take(i as int).contains(n),
            out@.len() == i,
        decreases v.len() - i,
    {
        let ghost before = texts(out@);
        let ghost t = texts(v@);
        insert_name(&mut out, copy_text(v[i].as_str()));
        proof {
            broadcast use vstd::seq_lib::group_to_multiset_ensures;

            assert(t.take(i as int + 1) =~= t.take(i as int).push(t[i as int]));
            assert forall|n: Seq<char>| #[trigger] texts(out@).contains(n) <==> t.take(
                i as int + 1,
            ).contains(n) by {
                let u = t.take(i as int);
                assert(texts(out@).contains(n) <==> before.contains(n) || n == t[i as int]);
                assert(before.contains(n) <==> u.contains(n));
                if u.contains(n) {
                    let k = choose|k: int| 0 <= k < u.len() && u[k] == n;
                    assert(u.push(t[i as int])[k] == n);
                }
                if n == t[i as int] {
                    assert(u.push(t[i as int])[i as int] == n);
                }
            }
        }
        i = i + 1;
    }
    assert(texts(v@).take(v.len() as int) =~= texts(v@));
    assert(item_set(texts(out@)) =~= item_set(texts(v@)));
    out
}

// ---- namespaces

/// Whether a name was resolved to something.
pub open spec fn settled(f: Found) -> bool {
    !(f is Ambiguous) && !(f is NotFound)
}

/// The entries of a namespace: a name and what it stands for.
pub open spec fn entry_names(v: Seq<(String, Resolution)>) -> Seq<Seq<char>> {
    v.map_values(|p: (String, Resolution)| p.0@)
}

/// The entries of a module's namespace, in the order of their names: every name that it exports and
/// that stands for one binding.
pub fn build_namespace(g: &Graph, key: &str) -> (r: Vec<(String, Resolution)>)
    ensures
        in_order(entry_names(r@)),
        forall|i: int|
            0 <= i < r@.len() ==> (#[trigger] r@[i]).1@ == export_of(g, key@, r@[i].0@),
        forall|n: Seq<char>| #[trigger]
            entry_names(r@).contains(n) <==> exports_of(g, key@).contains(n) && settled(
                export_of(g, key@, n),
            ),
{
    let names = sort_names(exported_names(g, key));
    let mut out: Vec<(String, Resolution)> = Vec::new();
    let mut i: usize = 0;
    let ghost t = texts(names@);
    assert(t.take(0) =~= Seq::empty());
    while i < names.len()
        invariant
            i <= names.len(),
            t == texts(names@),
            in_order(t),
            in_order(entry_names(out@)),
            forall|k: int|
                0 <= k < out@.len() ==> (#[trigger] out@[k]).1@ == export_of(g, key@, out@[k].0@),
            forall|n: Seq<char>| #[trigger]
                entry_names(out@).contains(n) <==> t.take(i as int).contains(n) && settled(
                    export_of(g, key@, n),
                ),
        decreases names.len() - i,
    {
        let ghost before = out@;
        let r = resolve_export(g, key, names[i].as_str());
        let keep = !matches!(r, Resolution::Ambiguous | Resolution::NotFound);
        assert(t.take(i as int + 1) =~= t.take(i as int).push(t[i as int]));
        if keep {
            out.push((copy_text(names[i].as_str()), r));
            assert(entry_names(out@) =~= entry_names(before).push(t[i as int]));
        }
        proof {
            let u = t.take(i as int);
            let e = entry_names(before);
            assert forall|n: Seq<char>| #[trigger] entry_names(out@).contains(n) <==> t.take(
                i as int + 1,
            ).contains(n) && settled(export_of(g, key@, n)) by {
                assert(e.contains(n) <==> u.contains(n) && settled(export_of(g, key@, n)));
                if u.contains(n) {
                    let k = choose|k: int| 0 <= k < u.len() && u[k] == n;
                    assert(u.push(t[i as int])[k] == n);
                }
                if n == t[i as int] {
                    assert(u.push(t[i as int])[i as int] == n);
                    if keep {
                        assert(entry_names(out@)[e.len() as int] == n);
                    }
                }
                if e.contains(n) {
                    let k = choose|k: int| 0 <= k < e.len() && e[k] == n;
                    assert(entry_names(out@)[k] == n);
                }
            }
            assert forall|a: int, b: int| 0 <= a < b < entry_names(out@).len() implies text_le(
                entry_names(out@)[a],
                entry_names(out@)[b],
            ) by {
                if b == e.len() {
                    let n = e[a];
                    assert(e.contains(n));
                    assert(u.contains(n));
                    let k = choose|k: int| 0 <= k < u.len() && u[k] == n;
                    assert(text_le(t[k], t[i as int]));
                }
            }
        }
        i = i + 1;
    }
    assert(t.take(names.len() as int) =~= t);
    assert forall|n: Seq<char>| #[trigger] entry_names(out@).contains(n) <==> exports_of(
        g,
        key@,
    ).contains(n) && settled(export_of(g, key@, n)) by {
        assert(item_set(t).contains(n) <==> t.contains(n));
    }
    out
}

// ---- link errors

/// Why a module cannot be linked.
pub enum LinkError {
    Ambiguous(String),
    /// A name that the module asked for does not export.
    NotExported(String),
    /// A name that the module with this key does not export.
    NotExportedBy(String, String),
    NoModuleSource,
    /// A module that is not there.
    NoModule(String),
}

/// Why a module cannot be linked.
pub ghost enum LinkFault {
    Ambiguous(Seq<char>),
    NotExported(Seq<char>),
    NotExportedBy(Seq<char>, Seq<char>),
    NoModuleSource,
    NoModule(Seq<char>),
}

impl View for LinkError {
    type V = LinkFault;

    open spec fn view(&self) -> LinkFault {
        match self {
            LinkError::Ambiguous(n) => LinkFault::Ambiguous(n@),
            LinkError::NotExported(n) => LinkFault::NotExported(n@),
            LinkError::NotExportedBy(k, n) => LinkFault::NotExportedBy(k@, n@),
            LinkError::NoModuleSource => LinkFault::NoModuleSource,
            LinkError::NoModule(k) => LinkFault::NoModule(k@),
        }
    }
}

/// The message of a link error.
pub open spec fn fault_text(f: LinkFault) -> Seq<char> {
    match f {
        LinkFault::Ambiguous(n) => "the requested module provides an ambiguous export named '"@ + n
            + "'"@,
        LinkFault::NotExported(n) => "the requested module does not provide an export named '"@ + n
            + "'"@,
        LinkFault::NotExportedBy(k, n) => "the requested module '"@ + k
            + "' does not provide an export named '"@ + n + "'"@,
        LinkFault::NoModuleSource => "source-text modules have no module source"@,
        LinkFault::NoModule(k) => "module not found: "@ + k,
    }
}

impl LinkError {
    /// The message of a link error.
    pub fn message(&self) -> (r: String)
        ensures
            r@ == fault_text(self@),
    {
        match self {
            LinkError::Ambiguous(n) => join(
                join("the requested module provides an ambiguous export named '", n.as_str()).as_str(),
                "'",
            ),
            LinkError::NotExported(n) => join(
                join("the requested module does not provide an export named '", n.as_str()).as_str(),
                "'",
            ),
            LinkError::NotExportedBy(k, n) => join(
                join(
                    join(
                        join("the requested module '", k.as_str()).as_str(),
                        "' does not provide an export named '",
                    ).as_str(),
                    n.as_str(),
                ).as_str(),
                "'",
            ),
            LinkError::NoModuleSource => copy_text("source-text modules have no module source"),
            LinkError::NoModule(k) => join("module not found: ", k.as_str()),
        }
    }
}

/// Every name that the module at a place exports from another must stand for one binding.
pub fn validate_indirect_exports(g: &Graph, m: usize) -> (r: Result<(), LinkError>)
    requires
        m < g.modules@.len(),
    ensures
        r is Ok <==> forall|n: Seq<char>| #[trigger]
            g.modules@[m as int].tables@.indirect.contains_key(n) ==> settled(
                export_of(g, g.modules@[m as int].key@, n),
            ),
        r matches Err(e) ==> exists|n: Seq<char>| #[trigger]
            g.modules@[m as int].tables@.indirect.contains_key(n) && e@ == (match export_of(
                g,
                g.modules@[m as int].key@,
                n,
            ) {
                Found::Ambiguous => LinkFault::Ambiguous(n),
                _ => LinkFault::NotExported(n),
            }) && !settled(export_of(g, g.modules@[m as int].key@, n)),
{
    let module = &g.modules[m];
    let names = module.tables.indirect.names();
    let ghost table = g.modules@[m as int].tables@.indirect;
    let mut i: usize = 0;
    while i < names.len()
        invariant
            i <= names.len(),
            m < g.modules@.len(),
            *module == g.modules@[m as int],
            table == module.tables@.indirect,
            forall|n: Seq<char>| #[trigger] texts(names@).contains(n) <==> table.contains_key(n),
            forall|k: int|
                0 <= k < i ==> settled(export_of(g, module.key@, #[trigger] texts(names@)[k])),
        decreases names.len() - i,
    {
        assert(texts(names@)[i as int] == names@[i as int]@);
        assert(texts(names@).contains(names@[i as int]@));
        match resolve_export(g, module.key.as_str(), names[i].as_str()) {
            Resolution::Ambiguous => {
                return Err(LinkError::Ambiguous(copy_text(names[i].as_str())));
            },
            Resolution::NotFound => {
                return Err(LinkError::NotExported(copy_text(names[i].as_str())));
            },
            _ => {},
        }
        i = i + 1;
    }
    assert forall|n: Seq<char>| #[trigger] table.contains_key(n) implies settled(
        export_of(g, module.key@, n),
    ) by {
        assert(texts(names@).contains(n));
        let k = choose|k: int| 0 <= k < texts(names@).len() && texts(names@)[k] == n;
        assert(settled(export_of(g, module.key@, texts(names@)[k])));
    }
    Ok(())
}

// ---- imports

/// What an imported name is bound to.
pub enum Bound {
    /// A binding of the module at a place, which is read anew each time.
    Live(usize, String),
    Namespace(usize),
    Deferred(usize),
    Source(String),
}

/// What an imported name is bound to.
pub ghost enum BoundTo {
    Live(usize, Seq<char>),
    Namespace(usize),
    Deferred(usize),
    Source(Seq<char>),
}

impl View for Bound {
    type V = BoundTo;

    open spec fn view(&self) -> BoundTo {
        match self {
            Bound::Live(m, n) => BoundTo::Live(*m, n@),
            Bound::Namespace(m) => BoundTo::Namespace(*m),
            Bound::Deferred(m) => BoundTo::Deferred(*m),
            Bound::Source(k) => BoundTo::Source(k@),
        }
    }
}

/// What an import of a module's export is bound to.
pub open spec fn named_link(g: &Graph, dep: Seq<char>, name: Seq<char>) -> Result<
    BoundTo,
    LinkFault,
> {
    match export_of(g, dep, name) {
        Found::Local(m, n) => Ok(BoundTo::Live(m, n)),
        Found::Ns(m) => Ok(BoundTo::Namespace(m)),
        Found::DeferNs(m) => Ok(BoundTo::Deferred(m)),
        Found::Source(k) => Ok(BoundTo::Source(k)),
        Found::Ambiguous => Err(LinkFault::Ambiguous(name)),
        Found::NotFound => Err(LinkFault::NotExportedBy(dep, name)),
    }
}

pub open spec fn bound_view(r: Result<Bound, LinkError>) -> Result<BoundTo, LinkFault> {
    match r {
        Ok(b) => Ok(b@),
        Err(e) => Err(e@),
    }
}

/// What an import of a module's export is bound to.
pub fn link_named(g: &Graph, dep: &str, name: &str) -> (r: Result<Bound, LinkError>)
    ensures
        bound_view(r) == named_link(g, dep@, name@),
{
    match resolve_export(g, dep, name) {
        Resolution::Local(m, n) => Ok(Bound::Live(m, n)),
        Resolution::Ns(m) => Ok(Bound::Namespace(m)),
        Resolution::DeferNs(m) => Ok(Bound::Deferred(m)),
        Resolution::Source(k) => Ok(Bound::Source(k)),
        Resolution::Ambiguous => Err(LinkError::Ambiguous(copy_text(name))),
        Resolution::NotFound => Err(LinkError::NotExportedBy(copy_text(dep), copy_text(name))),
    }
}

/// The local name of an import clause.
pub open spec fn local_of(s: &ImportSpec) -> Seq<char> {
    match s {
        ImportSpec::Default(l) => l@,
        ImportSpec::Namespace(l) => l@,
        ImportSpec::DeferNamespace(l) => l@,
        ImportSpec::Source(l) => l@,
        ImportSpec::Named { imported: _, local } => local@,
    }
}

/// What an import clause is bound to. Only the host's own module source has a source object.
pub open spec fn link_of(g: &Graph, s: &ImportSpec, dep: Seq<char>) -> Result<BoundTo, LinkFault> {
    match s {
        ImportSpec::Namespace(_) => match g.place(dep) {
            Some(m) => Ok(BoundTo::Namespace(m)),
            None => Err(LinkFault::NoModule(dep)),
        },
        ImportSpec::DeferNamespace(_) => match g.place(dep) {
            Some(m) => Ok(BoundTo::Deferred(m)),
            None => Err(LinkFault::NoModule(dep)),
        },
        ImportSpec::Source(_) => if dep == "<module source>"@ {
            Ok(BoundTo::Source(dep))
        } else {
            Err(LinkFault::NoModuleSource)
        },
        ImportSpec::Default(_) => named_link(g, dep, "default"@),
        ImportSpec::Named { imported, local: _ } => named_link(g, dep, imported@),
    }
}

fn link_spec(g: &Graph, s: &ImportSpec, dep: &str) -> (r: Result<Bound, LinkError>)
    ensures
        bound_view(r) == link_of(g, s, dep@),
{
    match s {
        ImportSpec::Namespace(_) => match g.find(dep) {
            Some(m) => Ok(Bound::Namespace(m)),
            None => Err(LinkError::NoModule(copy_text(dep))),
        },
        ImportSpec::DeferNamespace(_) => match g.find(dep) {
            Some(m) => Ok(Bound::Deferred(m)),
            None => Err(LinkError::NoModule(copy_text(dep))),
        },
        ImportSpec::Source(_) => if same_text(dep, "<module source>") {
            Ok(Bound::Source(copy_text(dep)))
        } else {
            Err(LinkError::NoModuleSource)
        },
        ImportSpec::Default(_) => link_named(g, dep, "default"),
        ImportSpec::Named { imported, local: _ } => link_named(g, dep, imported.as_str()),
    }
}

fn spec_local(s: &ImportSpec) -> (r: String)
    ensures
        r@ == local_of(s),
{
    match s {
        ImportSpec::Default(l) => copy_text(l.as_str()),
        ImportSpec::Namespace(l) => copy_text(l.as_str()),
        ImportSpec::DeferNamespace(l) => copy_text(l.as_str()),
        ImportSpec::Source(l) => copy_text(l.as_str()),
        ImportSpec::Named { imported: _, local } => copy_text(local.as_str()),
    }
}

/// The links so far, or the first fault.
pub type Links = Result<Seq<(Seq<char>, BoundTo)>, LinkFault>;

/// The links with those of the first `n` clauses of an import added.
pub open spec fn specs_links(
    g: &Graph,
    before: Seq<(Seq<char>, BoundTo)>,
    specs: Seq<ImportSpec>,
    n: nat,
    dep: Seq<char>,
) -> Links
    decreases n,
{
    if n == 0 || n > specs.len() {
        Ok(before)
    } else {
        match specs_links(g, before, specs, (n - 1) as nat, dep) {
            Ok(v) => match link_of(g, &specs[n - 1], dep) {
                Ok(b) => Ok(v.push((local_of(&specs[n - 1]), b))),
                Err(f) => Err(f),
            },
            Err(f) => Err(f),
        }
    }
}

/// The links of the imports among the first `n` statements of a module.
pub open spec fn body_links(
    g: &Graph,
    body: Seq<Stmt>,
    n: nat,
    resolved: Map<Seq<char>, Seq<char>>,
) -> Links
    decreases n,
{
    if n == 0 || n > body.len() {
        Ok(Seq::empty())
    } else {
        match body_links(g, body, (n - 1) as nat, resolved) {
            Ok(v) => match &body[n - 1] {
                Stmt::Import(d) => specs_links(
                    g,
                    v,
                    d.specs@,
                    d.specs@.len(),
                    key_of(resolved, d.source@),
                ),
                _ => Ok(v),
            },
            Err(f) => Err(f),
        }
    }
}

pub open spec fn link_views(v: Seq<(String, Bound)>) -> Seq<(Seq<char>, BoundTo)> {
    v.map_values(|p: (String, Bound)| (p.0@, p.1@))
}

/// A fault among the first clauses stays the outcome of all of them.
proof fn lemma_spec_fault(
    g: &Graph,
    before: Seq<(Seq<char>, BoundTo)>,
    specs: Seq<ImportSpec>,
    k: nat,
    n: nat,
    dep: Seq<char>,
)
    requires
        k <= n <= specs.len(),
        specs_links(g, before, specs, k, dep) is Err,
    ensures
        specs_links(g, before, specs, n, dep) == specs_links(g, before, specs, k, dep),
    decreases n - k,
{
    if k < n {
        lemma_spec_fault(g, before, specs, k, (n - 1) as nat, dep);
    }
}

/// A fault among the first statements stays the outcome of all of them.
proof fn lemma_body_fault(
    g: &Graph,
    body: Seq<Stmt>,
    k: nat,
    n: nat,
    resolved: Map<Seq<char>, Seq<char>>,
)
    requires
        k <= n <= body.len(),
        body_links(g, body, k, resolved) is Err,
    ensures
        body_links(g, body, n, resolved) == body_links(g, body, k, resolved),
    decreases n - k,
{
    if k < n {
        lemma_body_fault(g, body, k, (n - 1) as nat, resolved);
    }
}

fn link_specs(g: &Graph, d: &ImportDecl, dep: &str, out: &mut Vec<(String, Bound)>) -> (r: Result<
    (),
    LinkError,
>)
    ensures
        match r {
            Ok(_) => Ok(link_views(final(out)@)),
            Err(e) => Err(e@),
        } == specs_links(g, link_views(old(out)@), d.specs@, d.specs@.len(), dep@),
{
    let mut i: usize = 0;
    while i < d.specs.len()
        invariant
            i <= d.specs.len(),
            specs_links(g, link_views(old(out)@), d.specs@, i as nat, dep@) == Ok::<
                Seq<(Seq<char>, BoundTo)>,
                LinkFault,
            >(link_views(out@)),
        decreases d.specs.len() - i,
    {
        let ghost before = link_views(out@);
        match link_spec(g, &d.specs[i], dep) {
            Ok(b) => {
                let ghost bv = b@;
                out.push((spec_local(&d.specs[i]), b));
                assert(link_views(out@) =~= before.push((local_of(&d.specs@[i as int]), bv)));
            },
            Err(e) => {
                proof {
                    lemma_spec_fault(
                        g,
                        link_views(old(out)@),
                        d.specs@,
                        (i + 1) as nat,
                        d.specs@.len(),
                        dep@,
                    );
                }
                return Err(e);
            },
        }
        i = i + 1;
    }
    Ok(())
}

/// What every import of a module is bound to, in the order of the source.
pub fn link_imports(g: &Graph, body: &Vec<Stmt>, resolved: &Table<String>) -> (r: Result<
    Vec<(String, Bound)>,
    LinkError,
>)
    ensures
        match r {
            Ok(v) => Ok(link_views(v@)),
            Err(e) => Err(e@),
        } == body_links(g, body@, body@.len(), resolved@),
{
    let mut out: Vec<(String, Bound)> = Vec::new();
    let mut i: usize = 0;
    assert(link_views(out@) =~= Seq::empty());
    while i < body.len()
        invariant
            i <= body.len(),
            body_links(g, body@, i as nat, resolved@) == Ok::<
                Seq<(Seq<char>, BoundTo)>,
                LinkFault,
            >(link_views(out@)),
        decreases body.len() - i,
    {
        match &body[i] {
            Stmt::Import(d) => {
                let dep = resolved_key(resolved, d.source.as_str());
                match link_specs(g, d, dep.as_str(), &mut out) {
                    Ok(_) => {},
                    Err(e) => {
                        proof {
                            lemma_body_fault(g, body@, (i + 1) as nat, body@.len(), resolved@);
                        }
                        return Err(e);
                    },
                }
            },
            _ => {},
        }
        i = i + 1;
    }
    Ok(out)
}

} // verus!
