//! What a module's text says about its exports and imports.
use vstd::prelude::*;

use crate::ast::{
    ArrayPatElem, ExportSpec, Expr, ImportDecl, ImportSpec, ObjPatProp, Pattern, Stmt,
};
use crate::modules::table::{copy_text, texts, Table};

verus! {

// ---- names that a declaration binds

/// The names that a pattern binds, in the order of the source.
pub open spec fn pattern_names(p: &Pattern) -> Seq<Seq<char>>
    decreases p, 0nat,
{
    match p {
        Pattern::Ident(n) => seq![n@],
        Pattern::Array(elems) => elems_names(elems@, elems@.len()),
        Pattern::Object(o) => {
            let names = props_names(o.props@, o.props@.len());
            match o.rest {
                Some(n) => names.push(n@),
                None => names,
            }
        },
        Pattern::Member(_) => Seq::empty(),
    }
}

/// The names that the first `n` elements of an array pattern bind.
pub open spec fn elems_names(v: Seq<ArrayPatElem>, n: nat) -> Seq<Seq<char>>
    decreases v, n,
{
    if n == 0 || n > v.len() {
        Seq::empty()
    } else {
        elems_names(v, (n - 1) as nat) + elem_names(&v[n - 1])
    }
}

/// The names that an element of an array pattern binds.
pub open spec fn elem_names(e: &ArrayPatElem) -> Seq<Seq<char>>
    decreases e, 0nat,
{
    match e {
        ArrayPatElem::Hole => Seq::empty(),
        ArrayPatElem::Elem { pattern, default: _ } => pattern_names(pattern),
        ArrayPatElem::Rest(pattern) => pattern_names(pattern),
    }
}

/// The names that the first `n` properties of an object pattern bind.
pub open spec fn props_names(v: Seq<ObjPatProp>, n: nat) -> Seq<Seq<char>>
    decreases v, n,
{
    if n == 0 || n > v.len() {
        Seq::empty()
    } else {
        props_names(v, (n - 1) as nat) + pattern_names(&v[n - 1].value)
    }
}

/// Adds the names that a pattern binds to a list.
pub fn pattern_idents(p: &Pattern, out: &mut Vec<String>)
    ensures
        texts(final(out)@) == texts(old(out)@) + pattern_names(p),
    decreases p, 0nat,
{
    match p {
        Pattern::Ident(n) => {
            out.push(copy_text(n.as_str()));
            assert(texts(out@) =~= texts(old(out)@) + seq![n@]);
        },
        Pattern::Array(elems) => {
            elems_idents(elems, out);
        },
        Pattern::Object(o) => {
            props_idents(&o.props, out);
            match &o.rest {
                Some(n) => {
                    let ghost before = texts(out@);
                    out.push(copy_text(n.as_str()));
                    assert(texts(out@) =~= before.push(n@));
                    assert(texts(out@) =~= texts(old(out)@) + pattern_names(p));
                },
                None => {},
            }
        },
        Pattern::Member(_) => {
            assert(texts(out@) =~= texts(old(out)@) + Seq::empty());
        },
    }
}

fn elem_idents(e: &ArrayPatElem, out: &mut Vec<String>)
    ensures
        texts(final(out)@) == texts(old(out)@) + elem_names(e),
    decreases e, 0nat,
{
    match e {
        ArrayPatElem::Hole => {
            assert(texts(out@) =~= texts(old(out)@) + elem_names(e));
        },
        ArrayPatElem::Elem { pattern, default: _ } => {
            pattern_idents(pattern, out);
        },
        ArrayPatElem::Rest(pattern) => {
            pattern_idents(pattern, out);
        },
    }
}

fn elems_idents(v: &Vec<ArrayPatElem>, out: &mut Vec<String>)
    ensures
        texts(final(out)@) == texts(old(out)@) + elems_names(v@, v@.len()),
    decreases v@, v@.len() + 1,
{
    let mut i: usize = 0;
    assert(texts(out@) =~= texts(old(out)@) + elems_names(v@, 0));
    while i < v.len()
        invariant
            i <= v.len(),
            texts(out@) == texts(old(out)@) + elems_names(v@, i as nat),
        decreases v.len() - i,
    {
        elem_idents(&v[i], out);
        i = i + 1;
        assert(texts(out@) =~= texts(old(out)@) + elems_names(v@, i as nat));
    }
}

fn props_idents(v: &Vec<ObjPatProp>, out: &mut Vec<String>)
    ensures
        texts(final(out)@) == texts(old(out)@) + props_names(v@, v@.len()),
    decreases v@, v@.len() + 1,
{
    let mut i: usize = 0;
    assert(texts(out@) =~= texts(old(out)@) + props_names(v@, 0));
    while i < v.len()
        invariant
            i <= v.len(),
            texts(out@) == texts(old(out)@) + props_names(v@, i as nat),
        decreases v.len() - i,
    {
        pattern_idents(&v[i].value, out);
        i = i + 1;
        assert(texts(out@) =~= texts(old(out)@) + props_names(v@, i as nat));
    }
}

/// The names that the first `n` declarations bind.
pub open spec fn decls_names(v: Seq<(Pattern, Option<Expr>)>, n: nat) -> Seq<Seq<char>>
    decreases n,
{
    if n == 0 || n > v.len() {
        Seq::empty()
    } else {
        decls_names(v, (n - 1) as nat) + pattern_names(&v[n - 1].0)
    }
}

/// The names that a declaration statement introduces.
pub open spec fn declared_names(s: &Stmt) -> Seq<Seq<char>> {
    match s {
        Stmt::VarDecl { kind: _, decls } => decls_names(decls@, decls@.len()),
        Stmt::FuncDecl(f) => match f.name {
            Some(n) => seq![n@],
            None => Seq::empty(),
        },
        Stmt::ClassDecl(c) => match c.name {
            Some(n) => seq![n@],
            None => Seq::empty(),
        },
        _ => Seq::empty(),
    }
}

/// The names that the declaration behind an `export` introduces.
pub fn exported_decl_names(s: &Stmt) -> (r: Vec<String>)
    ensures
        texts(r@) == declared_names(s),
{
    let mut out: Vec<String> = Vec::new();
    assert(texts(out@) =~= Seq::empty());
    match s {
        Stmt::VarDecl { kind: _, decls } => {
            let mut i: usize = 0;
            while i < decls.len()
                invariant
                    i <= decls.len(),
                    texts(out@) == decls_names(decls@, i as nat),
                decreases decls.len() - i,
            {
                pattern_idents(&decls[i].0, &mut out);
                i = i + 1;
            }
        },
        Stmt::FuncDecl(f) => match &f.name {
            Some(n) => {
                out.push(copy_text(n.as_str()));
                assert(texts(out@) =~= seq![n@]);
            },
            None => {},
        },
        Stmt::ClassDecl(c) => match &c.name {
            Some(n) => {
                out.push(copy_text(n.as_str()));
                assert(texts(out@) =~= seq![n@]);
            },
            None => {},
        },
        _ => {},
    }
    out
}

// ---- specifiers

/// A request for another module: its specifier and the type that it is asked for as.
pub ghost struct Asked {
    pub specifier: Seq<char>,
    pub kind: Option<Seq<char>>,
}

/// The other module that a statement asks for.
pub open spec fn asked_by(s: &Stmt) -> Option<Asked> {
    match s {
        Stmt::Import(d) => Some(
            Asked {
                specifier: d.source@,
                kind: match d.attr_type {
                    Some(t) => Some(t@),
                    None => None,
                },
            },
        ),
        Stmt::ExportNamed { specs: _, source } => match source {
            Some(x) => Some(Asked { specifier: x@, kind: None }),
            None => None,
        },
        Stmt::ExportAll { source, exported: _ } => Some(Asked { specifier: source@, kind: None }),
        _ => None,
    }
}

/// The other modules that the first `n` statements ask for.
pub open spec fn asked_from(body: Seq<Stmt>, n: nat) -> Seq<Asked>
    decreases n,
{
    if n == 0 || n > body.len() {
        Seq::empty()
    } else {
        match asked_by(&body[n - 1]) {
            Some(a) => asked_from(body, (n - 1) as nat).push(a),
            None => asked_from(body, (n - 1) as nat),
        }
    }
}

pub open spec fn opt_text(s: Option<String>) -> Option<Seq<char>> {
    match s {
        Some(t) => Some(t@),
        None => None,
    }
}

/// The requests that pairs of a specifier and a type stand for.
pub open spec fn asked_view(v: Seq<(String, Option<String>)>) -> Seq<Asked> {
    v.map_values(|p: (String, Option<String>)| Asked { specifier: p.0@, kind: opt_text(p.1) })
}

/// Every specifier that a module imports or exports from, in order and with repetitions.
pub fn module_dependency_specifiers(body: &Vec<Stmt>) -> (r: Vec<(String, Option<String>)>)
    ensures
        asked_view(r@) == asked_from(body@, body@.len()),
{
    let mut out: Vec<(String, Option<String>)> = Vec::new();
    let mut i: usize = 0;
    assert(asked_view(out@) =~= Seq::empty());
    while i < body.len()
        invariant
            i <= body.len(),
            asked_view(out@) == asked_from(body@, i as nat),
        decreases body.len() - i,
    {
        let ghost before = out@;
        match &body[i] {
            Stmt::Import(d) => {
                let kind = match &d.attr_type {
                    Some(t) => Some(copy_text(t.as_str())),
                    None => None,
                };
                out.push((copy_text(d.source.as_str()), kind));
            },
            Stmt::ExportNamed { specs: _, source } => match source {
                Some(x) => {
                    out.push((copy_text(x.as_str()), None));
                },
                None => {},
            },
            Stmt::ExportAll { source, exported: _ } => {
                out.push((copy_text(source.as_str()), None));
            },
            _ => {},
        }
        assert(asked_by(&body@[i as int]) matches Some(a) ==> asked_view(out@) =~= asked_view(
            before,
        ).push(a));
        i = i + 1;
    }
    out
}

// ---- tables

/// Where a name that is imported comes from.
pub enum ImportOrigin {
    /// The namespace of a module.
    Namespace(String),
    /// The deferred namespace of a module.
    DeferNamespace(String),
    /// An export of a module.
    Named(String, String),
}

/// Where a name that is imported comes from.
pub ghost enum Origin {
    Namespace(Seq<char>),
    DeferNamespace(Seq<char>),
    Named(Seq<char>, Seq<char>),
}

impl View for ImportOrigin {
    type V = Origin;

    open spec fn view(&self) -> Origin {
        match self {
            ImportOrigin::Namespace(d) => Origin::Namespace(d@),
            ImportOrigin::DeferNamespace(d) => Origin::DeferNamespace(d@),
            ImportOrigin::Named(d, n) => Origin::Named(d@, n@),
        }
    }
}

/// What a module exports and imports.
pub struct ExportTables {
    /// Exported name to local name.
    pub local_exports: Table<String>,
    pub imports: Table<ImportOrigin>,
    /// Exported name to a module and a name of that module.
    pub indirect: Table<(String, String)>,
    /// Exported name to the module whose namespace it is.
    pub star_as: Table<String>,
    /// The modules of which everything is exported.
    pub stars: Vec<String>,
}

/// What a module exports and imports.
#[verifier::ext_equal]
pub ghost struct Tables {
    pub locals: Map<Seq<char>, Seq<char>>,
    pub imports: Map<Seq<char>, Origin>,
    pub indirect: Map<Seq<char>, (Seq<char>, Seq<char>)>,
    pub star_as: Map<Seq<char>, Seq<char>>,
    pub stars: Seq<Seq<char>>,
}

impl View for ExportTables {
    type V = Tables;

    open spec fn view(&self) -> Tables {
        Tables {
            locals: self.local_exports@,
            imports: self.imports@,
            indirect: self.indirect@,
            star_as: self.star_as@,
            stars: texts(self.stars@),
        }
    }
}

/// The key of the module that a specifier stands for: the specifier itself if it was not resolved.
pub open spec fn key_of(resolved: Map<Seq<char>, Seq<char>>, specifier: Seq<char>) -> Seq<char> {
    if resolved.contains_key(specifier) {
        resolved[specifier]
    } else {
        specifier
    }
}

/// The key of the module that a specifier stands for.
pub fn resolved_key(resolved: &Table<String>, specifier: &str) -> (r: String)
    ensures
        r@ == key_of(resolved@, specifier@),
{
    match resolved.get(specifier) {
        Some(k) => copy_text(k.as_str()),
        None => copy_text(specifier),
    }
}

/// The name that an import binds, and where it comes from.
pub open spec fn import_of(s: &ImportSpec, dep: Seq<char>) -> (Seq<char>, Origin) {
    match s {
        ImportSpec::Namespace(l) => (l@, Origin::Namespace(dep)),
        ImportSpec::DeferNamespace(l) => (l@, Origin::DeferNamespace(dep)),
        ImportSpec::Source(l) => (l@, Origin::Named(dep, "~source~"@)),
        ImportSpec::Default(l) => (l@, Origin::Named(dep, "default"@)),
        ImportSpec::Named { imported, local } => (local@, Origin::Named(dep, imported@)),
    }
}

/// The imports with those of the first `n` clauses added.
pub open spec fn imports_with(
    m: Map<Seq<char>, Origin>,
    specs: Seq<ImportSpec>,
    n: nat,
    dep: Seq<char>,
) -> Map<Seq<char>, Origin>
    decreases n,
{
    if n == 0 || n > specs.len() {
        m
    } else {
        let i = import_of(&specs[n - 1], dep);
        imports_with(m, specs, (n - 1) as nat, dep).insert(i.0, i.1)
    }
}

/// The local exports with the first `n` names added under themselves.
pub open spec fn names_with(
    m: Map<Seq<char>, Seq<char>>,
    names: Seq<Seq<char>>,
    n: nat,
) -> Map<Seq<char>, Seq<char>>
    decreases n,
{
    if n == 0 || n > names.len() {
        m
    } else {
        names_with(m, names, (n - 1) as nat).insert(names[n - 1], names[n - 1])
    }
}

/// The local exports with the first `n` clauses added.
pub open spec fn locals_with(
    m: Map<Seq<char>, Seq<char>>,
    specs: Seq<ExportSpec>,
    n: nat,
) -> Map<Seq<char>, Seq<char>>
    decreases n,
{
    if n == 0 || n > specs.len() {
        m
    } else {
        locals_with(m, specs, (n - 1) as nat).insert(specs[n - 1].exported@, specs[n - 1].local@)
    }
}

/// The indirect exports with the first `n` clauses added.
pub open spec fn indirect_with(
    m: Map<Seq<char>, (Seq<char>, Seq<char>)>,
    specs: Seq<ExportSpec>,
    n: nat,
    dep: Seq<char>,
) -> Map<Seq<char>, (Seq<char>, Seq<char>)>
    decreases n,
{
    if n == 0 || n > specs.len() {
        m
    } else {
        indirect_with(m, specs, (n - 1) as nat, dep).insert(
            specs[n - 1].exported@,
            (dep, specs[n - 1].local@),
        )
    }
}

/// The local name behind a default export.
pub open spec fn default_name(s: &Stmt) -> Seq<char> {
    match s {
        Stmt::FuncDecl(f) => match f.name {
            Some(n) => n@,
            None => "*default*"@,
        },
        Stmt::ClassDecl(c) => match c.name {
            Some(n) => n@,
            None => "*default*"@,
        },
        _ => "*default*"@,
    }
}

/// The tables with those of a statement added.
pub open spec fn tables_with(
    t: Tables,
    s: &Stmt,
    resolved: Map<Seq<char>, Seq<char>>,
) -> Tables {
    match s {
        Stmt::Import(d) => Tables {
            imports: imports_with(t.imports, d.specs@, d.specs@.len(), key_of(resolved, d.source@)),
            ..t
        },
        Stmt::ExportDecl(x) => Tables {
            locals: names_with(t.locals, declared_names(&**x), declared_names(&**x).len()),
            ..t
        },
        Stmt::ExportDefault(x) => Tables {
            locals: t.locals.insert("default"@, default_name(&**x)),
            ..t
        },
        Stmt::ExportNamed { specs, source } => match source {
            Some(x) => Tables {
                indirect: indirect_with(t.indirect, specs@, specs@.len(), key_of(resolved, x@)),
                ..t
            },
            None => Tables { locals: locals_with(t.locals, specs@, specs@.len()), ..t },
        },
        Stmt::ExportAll { source, exported } => match exported {
            Some(n) => Tables { star_as: t.star_as.insert(n@, key_of(resolved, source@)), ..t },
            None => Tables { stars: t.stars.push(key_of(resolved, source@)), ..t },
        },
        _ => t,
    }
}

/// The tables of the first `n` statements of a module.
pub open spec fn tables_from(
    body: Seq<Stmt>,
    n: nat,
    resolved: Map<Seq<char>, Seq<char>>,
) -> Tables
    decreases n,
{
    if n == 0 || n > body.len() {
        Tables {
            locals: Map::empty(),
            imports: Map::empty(),
            indirect: Map::empty(),
            star_as: Map::empty(),
            stars: Seq::empty(),
        }
    } else {
        tables_with(tables_from(body, (n - 1) as nat, resolved), &body[n - 1], resolved)
    }
}

fn add_imports(table: &mut Table<ImportOrigin>, d: &ImportDecl, dep: &String)
    ensures
        final(table)@ == imports_with(old(table)@, d.specs@, d.specs@.len(), dep@),
{
    let mut i: usize = 0;
    while i < d.specs.len()
        invariant
            i <= d.specs.len(),
            table@ == imports_with(old(table)@, d.specs@, i as nat, dep@),
        decreases d.specs.len() - i,
    {
        match &d.specs[i] {
            ImportSpec::Namespace(l) => {
                table.insert(
                    copy_text(l.as_str()),
                    ImportOrigin::Namespace(copy_text(dep.as_str())),
                );
            },
            ImportSpec::DeferNamespace(l) => {
                table.insert(
                    copy_text(l.as_str()),
                    ImportOrigin::DeferNamespace(copy_text(dep.as_str())),
                );
            },
            ImportSpec::Source(l) => {
                table.insert(
                    copy_text(l.as_str()),
                    ImportOrigin::Named(copy_text(dep.as_str()), copy_text("~source~")),
                );
            },
            ImportSpec::Default(l) => {
                table.insert(
                    copy_text(l.as_str()),
                    ImportOrigin::Named(copy_text(dep.as_str()), copy_text("default")),
                );
            },
            ImportSpec::Named { imported, local } => {
                table.insert(
                    copy_text(local.as_str()),
                    ImportOrigin::Named(copy_text(dep.as_str()), copy_text(imported.as_str())),
                );
            },
        }
        i = i + 1;
    }
}

fn add_declared(table: &mut Table<String>, names: &Vec<String>)
    ensures
        final(table)@ == names_with(old(table)@, texts(names@), texts(names@).len()),
{
    let mut i: usize = 0;
    while i < names.len()
        invariant
            i <= names.len(),
            table@ == names_with(old(table)@, texts(names@), i as nat),
        decreases names.len() - i,
    {
        assert(texts(names@)[i as int] == names@[i as int]@);
        table.insert(copy_text(names[i].as_str()), copy_text(names[i].as_str()));
        i = i + 1;
    }
}

fn add_locals(table: &mut Table<String>, specs: &Vec<ExportSpec>)
    ensures
        final(table)@ == locals_with(old(table)@, specs@, specs@.len()),
{
    let mut i: usize = 0;
    while i < specs.len()
        invariant
            i <= specs.len(),
            table@ == locals_with(old(table)@, specs@, i as nat),
        decreases specs.len() - i,
    {
        table.insert(
            copy_text(specs[i].exported.as_str()),
            copy_text(specs[i].local.as_str()),
        );
        i = i + 1;
    }
}

fn add_indirect(table: &mut Table<(String, String)>, specs: &Vec<ExportSpec>, dep: &String)
    ensures
        final(table)@ == indirect_with(old(table)@, specs@, specs@.len(), dep@),
{
    let mut i: usize = 0;
    while i < specs.len()
        invariant
            i <= specs.len(),
            table@ == indirect_with(old(table)@, specs@, i as nat, dep@),
        decreases specs.len() - i,
    {
        table.insert(
            copy_text(specs[i].exported.as_str()),
            (copy_text(dep.as_str()), copy_text(specs[i].local.as_str())),
        );
        i = i + 1;
    }
}

fn default_local(s: &Stmt) -> (r: String)
    ensures
        r@ == default_name(s),
{
    match s {
        Stmt::FuncDecl(f) => match &f.name {
            Some(n) => copy_text(n.as_str()),
            None => copy_text("*default*"),
        },
        Stmt::ClassDecl(c) => match &c.name {
            Some(n) => copy_text(n.as_str()),
            None => copy_text("*default*"),
        },
        _ => copy_text("*default*"),
    }
}

/// The export and import tables of a module.
pub fn build_export_tables(body: &Vec<Stmt>, resolved: &Table<String>) -> (t: ExportTables)
    ensures
        t@ == tables_from(body@, body@.len(), resolved@),
{
    let mut t = ExportTables {
        local_exports: Table::new(),
        imports: Table::new(),
        indirect: Table::new(),
        star_as: Table::new(),
        stars: Vec::new(),
    };
    let mut i: usize = 0;
    assert(t@ =~= tables_from(body@, 0, resolved@));
    while i < body.len()
        invariant
            i <= body.len(),
            t@ == tables_from(body@, i as nat, resolved@),
        decreases body.len() - i,
    {
        let ghost before = t@;
        match &body[i] {
            Stmt::Import(d) => {
                let dep = resolved_key(resolved, d.source.as_str());
                add_imports(&mut t.imports, d, &dep);
            },
            Stmt::ExportDecl(x) => {
                let names = exported_decl_names(&**x);
                add_declared(&mut t.local_exports, &names);
            },
            Stmt::ExportDefault(x) => {
                t.local_exports.insert(copy_text("default"), default_local(&**x));
            },
            Stmt::ExportNamed { specs, source } => match source {
                Some(x) => {
                    let dep = resolved_key(resolved, x.as_str());
                    add_indirect(&mut t.indirect, specs, &dep);
                },
                None => {
                    add_locals(&mut t.local_exports, specs);
                },
            },
            Stmt::ExportAll { source, exported } => match exported {
                Some(n) => {
                    t.star_as.insert(
                        copy_text(n.as_str()),
                        resolved_key(resolved, source.as_str()),
                    );
                },
                None => {
                    t.stars.push(resolved_key(resolved, source.as_str()));
                    assert(t@.stars =~= before.stars.push(key_of(resolved@, source@)));
                },
            },
            _ => {},
        }
        assert(t@ =~= tables_with(before, &body@[i as int], resolved@));
        i = i + 1;
    }
    t
}

} // verus!
