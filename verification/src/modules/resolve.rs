//! Resolving exports to bindings.
use vstd::prelude::*;

use crate::modules::exports::{ImportOrigin, Origin};
use crate::modules::graph::Graph;
use crate::modules::table::{add_name, copy_text, distinct, holds_name, texts};
use crate::text::same_text;

verus! {

/// What an exported name stands for.
pub enum Resolution {
    /// A local name of the module at a place.
    Local(usize, String),
    /// The deferred namespace of the module at a place.
    DeferNs(usize),
    /// The namespace of the module at a place.
    Ns(usize),
    /// The module source object of a key.
    Source(String),
    /// Two `export *` provide different bindings.
    Ambiguous,
    NotFound,
}

/// What an exported name stands for.
pub ghost enum Found {
    Local(usize, Seq<char>),
    DeferNs(usize),
    Ns(usize),
    Source(Seq<char>),
    Ambiguous,
    NotFound,
}

impl View for Resolution {
    type V = Found;

    open spec fn view(&self) -> Found {
        match self {
            Resolution::Local(m, n) => Found::Local(*m, n@),
            Resolution::DeferNs(m) => Found::DeferNs(*m),
            Resolution::Ns(m) => Found::Ns(*m),
            Resolution::Source(k) => Found::Source(k@),
            Resolution::Ambiguous => Found::Ambiguous,
            Resolution::NotFound => Found::NotFound,
        }
    }
}

/// The pairs of a module's key and a name that were asked about.
pub type Seen = Seq<(Seq<char>, Seq<char>)>;

pub open spec fn seen_view(v: Seq<(String, String)>) -> Seen {
    v.map_values(|p: (String, String)| (p.0@, p.1@))
}

/// How deep a chain of exports is followed: more than any that memory can hold.
pub const DEPTH: u64 = 0xffff_ffff_ffff_ffff;

/// Resolves a name that a module exports. A pair that was asked about already is not found again,
/// so chains of exports that lead back to themselves end.
pub open spec fn resolves(
    g: &Graph,
    key: Seq<char>,
    name: Seq<char>,
    seen: Seen,
    depth: u64,
) -> (Found, Seen)
    decreases depth, 0nat,
{
    if depth == 0 || seen.contains((key, name)) {
        (Found::NotFound, seen)
    } else {
        let seen = seen.push((key, name));
        if name == "~source~"@ {
            (
                if g.has_source(key) {
                    Found::Source(key)
                } else {
                    Found::NotFound
                },
                seen,
            )
        } else {
            match g.place(key) {
                None => (Found::NotFound, seen),
                Some(m) => {
                    let t = g.modules@[m as int].tables@;
                    if t.locals.contains_key(name) {
                        if t.imports.contains_key(t.locals[name]) {
                            match t.imports[t.locals[name]] {
                                Origin::Namespace(dep) => (
                                    match g.place(dep) {
                                        Some(d) => Found::Ns(d),
                                        None => Found::NotFound,
                                    },
                                    seen,
                                ),
                                Origin::DeferNamespace(dep) => (
                                    match g.place(dep) {
                                        Some(d) => Found::DeferNs(d),
                                        None => Found::NotFound,
                                    },
                                    seen,
                                ),
                                Origin::Named(dep, imported) => resolves(
                                    g,
                                    dep,
                                    imported,
                                    seen,
                                    (depth - 1) as u64,
                                ),
                            }
                        } else {
                            (Found::Local(m, t.locals[name]), seen)
                        }
                    } else if t.indirect.contains_key(name) {
                        resolves(
                            g,
                            t.indirect[name].0,
                            t.indirect[name].1,
                            seen,
                            (depth - 1) as u64,
                        )
                    } else if t.star_as.contains_key(name) {
                        (
                            match g.place(t.star_as[name]) {
                                Some(d) => Found::Ns(d),
                                None => Found::NotFound,
                            },
                            seen,
                        )
                    } else if name == "default"@ {
                        (Found::NotFound, seen)
                    } else {
                        resolves_stars(g, t.stars, 0, name, seen, Found::NotFound, (depth - 1) as u64)
                    }
                },
            }
        }
    }
}

/// Resolves a name through the `export *` clauses from the one at `i` on, where the ones before came
/// to `found`: the clauses that provide the name must agree.
pub open spec fn resolves_stars(
    g: &Graph,
    stars: Seq<Seq<char>>,
    i: nat,
    name: Seq<char>,
    seen: Seen,
    found: Found,
    depth: u64,
) -> (Found, Seen)
    decreases depth, stars.len() - i + 1,
{
    if i >= stars.len() {
        (found, seen)
    } else {
        let (r, seen) = resolves(g, stars[i as int], name, seen, depth);
        match r {
            Found::Ambiguous => (Found::Ambiguous, seen),
            Found::NotFound => resolves_stars(g, stars, i + 1, name, seen, found, depth),
            _ => if found is NotFound {
                resolves_stars(g, stars, i + 1, name, seen, r, depth)
            } else if found == r {
                resolves_stars(g, stars, i + 1, name, seen, found, depth)
            } else {
                (Found::Ambiguous, seen)
            },
        }
    }
}

/// What a module's export of a name stands for.
pub open spec fn export_of(g: &Graph, key: Seq<char>, name: Seq<char>) -> Found {
    resolves(g, key, name, Seq::empty(), DEPTH).0
}

fn was_seen(seen: &Vec<(String, String)>, key: &str, name: &str) -> (r: bool)
    ensures
        r == seen_view(seen@).contains((key@, name@)),
{
    let mut i: usize = 0;
    while i < seen.len()
        invariant
            i <= seen.len(),
            forall|j: int| 0 <= j < i ==> seen_view(seen@)[j] != (key@, name@),
        decreases seen.len() - i,
    {
        if same_text(seen[i].0.as_str(), key) && same_text(seen[i].1.as_str(), name) {
            assert(seen_view(seen@)[i as int] == (key@, name@));
            return true;
        }
        i = i + 1;
    }
    false
}

/// Whether two resolutions are of the same binding.
pub fn same_binding(a: &Resolution, b: &Resolution) -> (r: bool)
    ensures
        r == (a@ == b@ && !(a@ is Ambiguous) && !(a@ is NotFound)),
{
    match (a, b) {
        (Resolution::Local(m, x), Resolution::Local(n, y)) => *m == *n && same_text(
            x.as_str(),
            y.as_str(),
        ),
        (Resolution::DeferNs(m), Resolution::DeferNs(n)) => *m == *n,
        (Resolution::Ns(m), Resolution::Ns(n)) => *m == *n,
        (Resolution::Source(x), Resolution::Source(y)) => same_text(x.as_str(), y.as_str()),
        _ => false,
    }
}

fn namespace_at(g: &Graph, key: &str) -> (r: Resolution)
    ensures
        r@ == (match g.place(key@) {
            Some(d) => Found::Ns(d),
            None => Found::NotFound,
        }),
{
    match g.find(key) {
        Some(d) => Resolution::Ns(d),
        None => Resolution::NotFound,
    }
}

#[verifier::spinoff_prover]
fn resolve_in(g: &Graph, key: &str, name: &str, seen: &mut Vec<(String, String)>, depth: u64) -> (r:
    Resolution)
    ensures
        (r@, seen_view(final(seen)@)) == resolves(g, key@, name@, seen_view(old(seen)@), depth),
    decreases depth, 0nat,
{
    if depth == 0 || was_seen(seen, key, name) {
        return Resolution::NotFound;
    }
    seen.push((copy_text(key), copy_text(name)));
    assert(seen_view(seen@) =~= seen_view(old(seen)@).push((key@, name@)));
    if same_text(name, "~source~") {
        return if g.is_source(key) {
            Resolution::Source(copy_text(key))
        } else {
            Resolution::NotFound
        };
    }
    let m = match g.find(key) {
        Some(m) => m,
        None => {
            return Resolution::NotFound;
        },
    };
    let t = &g.modules[m].tables;
    match t.local_exports.get(name) {
        Some(local) => {
            return match t.imports.get(local.as_str()) {
                Some(origin) => match origin {
                    ImportOrigin::Namespace(dep) => namespace_at(g, dep.as_str()),
                    ImportOrigin::DeferNamespace(dep) => match g.find(dep.as_str()) {
                        Some(d) => Resolution::DeferNs(d),
                        None => Resolution::NotFound,
                    },
                    ImportOrigin::Named(dep, imported) => resolve_in(
                        g,
                        dep.as_str(),
                        imported.as_str(),
                        seen,
                        depth - 1,
                    ),
                },
                None => Resolution::Local(m, copy_text(local.as_str())),
            };
        },
        None => {},
    }
    match t.indirect.get(name) {
        Some(p) => {
            return resolve_in(g, p.0.as_str(), p.1.as_str(), seen, depth - 1);
        },
        None => {},
    }
    match t.star_as.get(name) {
        Some(dep) => {
            return namespace_at(g, dep.as_str());
        },
        None => {},
    }
    if same_text(name, "default") {
        return Resolution::NotFound;
    }
    resolve_stars(g, &t.stars, name, seen, depth - 1)
}

#[verifier::spinoff_prover]
fn resolve_stars(
    g: &Graph,
    stars: &Vec<String>,
    name: &str,
    seen: &mut Vec<(String, String)>,
    depth: u64,
) -> (r: Resolution)
    ensures
        (r@, seen_view(final(seen)@)) == resolves_stars(
            g,
            texts(stars@),
            0,
            name@,
            seen_view(old(seen)@),
            Found::NotFound,
            depth,
        ),
    decreases depth, stars@.len() + 2,
{
    let mut found = Resolution::NotFound;
    let mut i: usize = 0;
    while i < stars.len()
        invariant
            i <= stars.len(),
            resolves_stars(
                g,
                texts(stars@),
                0,
                name@,
                seen_view(old(seen)@),
                Found::NotFound,
                depth,
            ) == resolves_stars(
                g,
                texts(stars@),
                i as nat,
                name@,
                seen_view(seen@),
                found@,
                depth,
            ),
            !(found@ is Ambiguous),
        decreases stars.len() - i,
    {
        let ghost before = seen_view(seen@);
        assert(texts(stars@)[i as int] == stars@[i as int]@);
        let r = resolve_in(g, stars[i].as_str(), name, seen, depth);
        match r {
            Resolution::Ambiguous => {
                return Resolution::Ambiguous;
            },
            Resolution::NotFound => {},
            _ => match &found {
                Resolution::NotFound => {
                    found = r;
                },
                _ => {
                    if !same_binding(&found, &r) {
                        return Resolution::Ambiguous;
                    }
                },
            },
        }
        i = i + 1;
    }
    found
}

/// Resolves a name that a module exports to a binding, through its own declarations, its imports and
/// the modules it exports from.
pub fn resolve_export(g: &Graph, key: &str, name: &str) -> (r: Resolution)
    ensures
        r@ == export_of(g, key@, name@),
{
    let mut seen: Vec<(String, String)> = Vec::new();
    assert(seen_view(seen@) =~= Seq::empty());
    resolve_in(g, key, name, &mut seen, DEPTH)
}

// ---- exported names

/// The names that a module exports, with the modules that were asked about: its own, and those of its
/// `export *` but for `default`.
pub open spec fn names_of(
    g: &Graph,
    key: Seq<char>,
    seen: Seq<Seq<char>>,
    depth: u64,
) -> (Set<Seq<char>>, Seq<Seq<char>>)
    decreases depth, 0nat,
{
    if depth == 0 || seen.contains(key) {
        (Set::empty(), seen)
    } else {
        match g.place(key) {
            None => (Set::empty(), seen.push(key)),
            Some(m) => {
                let t = g.modules@[m as int].tables@;
                names_of_stars(
                    g,
                    t.stars,
                    0,
                    t.locals.dom().union(t.indirect.dom()).union(t.star_as.dom()),
                    seen.push(key),
                    (depth - 1) as u64,
                )
            },
        }
    }
}

/// The names so far, with those of the `export *` clauses from the one at `i` on.
pub open spec fn names_of_stars(
    g: &Graph,
    stars: Seq<Seq<char>>,
    i: nat,
    names: Set<Seq<char>>,
    seen: Seq<Seq<char>>,
    depth: u64,
) -> (Set<Seq<char>>, Seq<Seq<char>>)
    decreases depth, stars.len() - i + 1,
{
    if i >= stars.len() {
        (names, seen)
    } else {
        let (more, seen) = names_of(g, stars[i as int], seen, depth);
        names_of_stars(g, stars, i + 1, names.union(more.remove("default"@)), seen, depth)
    }
}

/// The set of the items of a list.
pub open spec fn item_set(v: Seq<Seq<char>>) -> Set<Seq<char>> {
    Set::new(|n: Seq<char>| v.contains(n))
}

proof fn lemma_push_contains(v: Seq<Seq<char>>, x: Seq<char>, n: Seq<char>)
    ensures
        v.push(x).contains(n) <==> v.contains(n) || n == x,
{
    if v.contains(n) {
        let k = choose|k: int| 0 <= k < v.len() && v[k] == n;
        assert(v.push(x)[k] == n);
    }
    if n == x {
        assert(v.push(x)[v.len() as int] == n);
    }
}

proof fn lemma_take_more(v: Seq<Seq<char>>, i: int, n: Seq<char>)
    requires
        0 <= i < v.len(),
    ensures
        v.take(i + 1).contains(n) <==> v.take(i).contains(n) || n == v[i],
{
    assert(v.take(i + 1) =~= v.take(i).push(v[i]));
    lemma_push_contains(v.take(i), v[i], n);
}

/// Adds names to a list, each unless it is there.
fn add_names(v: &mut Vec<String>, more: &Vec<String>)
    ensures
        distinct(texts(old(v)@)) ==> distinct(texts(final(v)@)),
        item_set(texts(final(v)@)) == item_set(texts(old(v)@)).union(item_set(texts(more@))),
{
    let mut i: usize = 0;
    while i < more.len()
        invariant
            i <= more.len(),
            distinct(texts(old(v)@)) ==> distinct(texts(v@)),
            forall|n: Seq<char>| #[trigger]
                texts(v@).contains(n) <==> texts(old(v)@).contains(n) || texts(more@).take(
                    i as int,
                ).contains(n),
        decreases more.len() - i,
    {
        let ghost before = texts(v@);
        let ghost t = texts(more@);
        add_name(v, more[i].as_str());
        assert forall|n: Seq<char>| #[trigger] texts(v@).contains(n) <==> texts(old(v)@).contains(n)
            || t.take(i as int + 1).contains(n) by {
            assert(texts(v@).contains(n) <==> before.contains(n) || n == more@[i as int]@);
            assert(before.contains(n) <==> texts(old(v)@).contains(n) || t.take(i as int).contains(
                n,
            ));
            lemma_take_more(t, i as int, n);
        }
        i = i + 1;
    }
    assert(texts(more@).take(more.len() as int) =~= texts(more@));
    assert(item_set(texts(v@)) =~= item_set(texts(old(v)@)).union(item_set(texts(more@))));
}

/// The names of a list but for `default`.
fn without_default(v: &Vec<String>) -> (r: Vec<String>)
    ensures
        item_set(texts(r@)) == item_set(texts(v@)).remove("default"@),
{
    let mut out: Vec<String> = Vec::new();
    let mut i: usize = 0;
    assert(texts(out@) =~= Seq::empty());
    while i < v.len()
        invariant
            i <= v.len(),
            forall|n: Seq<char>| #[trigger]
                texts(out@).contains(n) <==> n != "default"@ && texts(v@).take(i as int).contains(n),
        decreases v.len() - i,
    {
        let ghost before = texts(out@);
        let ghost t = texts(v@);
        if !same_text(v[i].as_str(), "default") {
            out.push(copy_text(v[i].as_str()));
            assert(texts(out@) =~= before.push(v@[i as int]@));
        }
        assert forall|n: Seq<char>| #[trigger] texts(out@).contains(n) <==> n != "default"@
            && t.take(i as int + 1).contains(n) by {
            assert(before.contains(n) <==> n != "default"@ && t.take(i as int).contains(n));
            lemma_take_more(t, i as int, n);
            lemma_push_contains(before, v@[i as int]@, n);
        }
        i = i + 1;
    }
    assert(texts(v@).take(v.len() as int) =~= texts(v@));
    assert(item_set(texts(out@)) =~= item_set(texts(v@)).remove("default"@));
    out
}

#[verifier::spinoff_prover]
fn names_in(g: &Graph, key: &str, seen: &mut Vec<String>, depth: u64) -> (r: Vec<String>)
    ensures
        distinct(texts(r@)),
        (item_set(texts(r@)), texts(final(seen)@)) == names_of(g, key@, texts(old(seen)@), depth),
    decreases depth, 0nat,
{
    let mut out: Vec<String> = Vec::new();
    assert(texts(out@) =~= Seq::empty());
    assert(item_set(texts(out@)) =~= Set::empty());
    if depth == 0 || holds_name(seen, key) {
        return out;
    }
    seen.push(copy_text(key));
    assert(texts(seen@) =~= texts(old(seen)@).push(key@));
    let m = match g.find(key) {
        Some(m) => m,
        None => {
            return out;
        },
    };
    let t = &g.modules[m].tables;
    let a = t.local_exports.names();
    let b = t.indirect.names();
    let c = t.star_as.names();
    add_names(&mut out, &a);
    add_names(&mut out, &b);
    add_names(&mut out, &c);
    assert(item_set(texts(a@)) =~= t@.locals.dom());
    assert(item_set(texts(b@)) =~= t@.indirect.dom());
    assert(item_set(texts(c@)) =~= t@.star_as.dom());
    assert(item_set(texts(out@)) =~= t@.locals.dom().union(t@.indirect.dom()).union(
        t@.star_as.dom(),
    ));
    let mut i: usize = 0;
    let ghost start = item_set(texts(out@));
    let ghost seen0 = texts(seen@);
    while i < t.stars.len()
        invariant
            depth > 0,
            i <= t.stars.len(),
            distinct(texts(out@)),
            names_of_stars(g, texts(t.stars@), 0, start, seen0, (depth - 1) as u64)
                == names_of_stars(
                g,
                texts(t.stars@),
                i as nat,
                item_set(texts(out@)),
                texts(seen@),
                (depth - 1) as u64,
            ),
        decreases t.stars.len() - i,
    {
        assert(texts(t.stars@)[i as int] == t.stars@[i as int]@);
        let more = names_in(g, t.stars[i].as_str(), seen, depth - 1);
        let kept = without_default(&more);
        add_names(&mut out, &kept);
        i = i + 1;
    }
    out
}

/// The set of names that a module exports.
pub open spec fn exports_of(g: &Graph, key: Seq<char>) -> Set<Seq<char>> {
    names_of(g, key, Seq::empty(), DEPTH).0
}

/// The names that a module exports, each once.
pub fn exported_names(g: &Graph, key: &str) -> (r: Vec<String>)
    ensures
        distinct(texts(r@)),
        item_set(texts(r@)) == exports_of(g, key@),
{
    let mut seen: Vec<String> = Vec::new();
    assert(texts(seen@) =~= Seq::empty());
    names_in(g, key, &mut seen, DEPTH)
}

} // verus!
