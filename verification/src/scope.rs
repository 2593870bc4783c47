//! Scopes: chains of bindings, and what the chain around a place tells.
use vstd::prelude::*;

pub mod dynamic;

use crate::ast::{DeclKind, Expr, Pattern, Stmt};
use crate::interp::session::{Name, Value};
use crate::modules::exports::{pattern_idents, pattern_names};
use crate::modules::table::{copy_text, holds_name, texts, with_name, without, Table};
use crate::scan::{
    exported, exports_value, needs_default_placeholder, strip_labels, unlabeled, unwrap_export,
};
use crate::text::same_text;

verus! {

/// What a name is bound to.
pub struct Binding<'a> {
    pub value: Value,
    pub mutable: bool,
    /// Whether assigning to a binding that is not mutable is an error in sloppy code too.
    pub strict_immutable: bool,
    pub initialized: bool,
    /// The binding of another scope that an import reads.
    pub import_ref: Option<(usize, Name<'a>)>,
    /// Whether `delete` removes it.
    pub deletable: bool,
}

/// What a name is bound to.
pub ghost struct BindingView<'a> {
    pub value: Value,
    pub mutable: bool,
    pub strict_immutable: bool,
    pub initialized: bool,
    pub import_ref: Option<(usize, Name<'a>)>,
    pub deletable: bool,
}

impl<'a> View for Binding<'a> {
    type V = BindingView<'a>;

    open spec fn view(&self) -> BindingView<'a> {
        BindingView {
            value: self.value,
            mutable: self.mutable,
            strict_immutable: self.strict_immutable,
            initialized: self.initialized,
            import_ref: self.import_ref,
            deletable: self.deletable,
        }
    }
}

/// A binding that holds a value and can be assigned to.
pub open spec fn plain_binding<'a>(value: Value) -> BindingView<'a> {
    BindingView {
        value,
        mutable: true,
        strict_immutable: false,
        initialized: true,
        import_ref: None,
        deletable: false,
    }
}

/// A binding that evaluated code made, which can be deleted.
pub open spec fn deletable_binding<'a>(value: Value) -> BindingView<'a> {
    BindingView {
        value,
        mutable: true,
        strict_immutable: false,
        initialized: true,
        import_ref: None,
        deletable: true,
    }
}

/// A lexical binding that was declared and not initialized.
pub open spec fn declared_binding<'a>() -> BindingView<'a> {
    BindingView {
        value: Value::Undefined,
        mutable: true,
        strict_immutable: false,
        initialized: false,
        import_ref: None,
        deletable: false,
    }
}

/// A scope.
pub struct Scope<'a> {
    pub vars: Table<Binding<'a>>,
    /// The scope around it, which is older.
    pub parent: Option<usize>,
    /// The object of a `with` statement.
    pub with_obj: Option<Value>,
    /// The scope of a `catch` parameter.
    pub catch_param: bool,
    /// Where `var` declarations go.
    pub var_boundary: bool,
    /// The lexical names of a body that shares its scope with `var` declarations.
    pub lexical_names: Vec<String>,
}

/// What a scope holds.
pub ghost struct ScopeView<'a> {
    pub vars: Map<Seq<char>, BindingView<'a>>,
    /// The names that it binds, in the order in which they came.
    pub names: Seq<Seq<char>>,
    pub parent: Option<usize>,
    pub with_obj: Option<Value>,
    pub catch_param: bool,
    pub var_boundary: bool,
    pub lexical_names: Seq<Seq<char>>,
}

impl<'a> View for Scope<'a> {
    type V = ScopeView<'a>;

    open spec fn view(&self) -> ScopeView<'a> {
        ScopeView {
            vars: self.vars@,
            names: self.vars.order(),
            parent: self.parent,
            with_obj: self.with_obj,
            catch_param: self.catch_param,
            var_boundary: self.var_boundary,
            lexical_names: texts(self.lexical_names@),
        }
    }
}

/// What all scopes hold.
pub ghost struct ScopesView<'a> {
    pub scopes: Seq<ScopeView<'a>>,
}

impl<'a> View for Scopes<'a> {
    type V = ScopesView<'a>;

    open spec fn view(&self) -> ScopesView<'a> {
        ScopesView { scopes: self.scopes@.map_values(|s: Scope<'a>| s@) }
    }
}

/// All scopes; the first is that of global code.
pub struct Scopes<'a> {
    pub scopes: Vec<Scope<'a>>,
}

impl<'a> ScopesView<'a> {
    /// Whether a scope binds a name.
    pub open spec fn binds(self, env: usize, name: Seq<char>) -> bool {
        env < self.scopes.len() && self.scopes[env as int].vars.contains_key(name)
    }

    /// The scope around a scope.
    pub open spec fn around(self, env: usize) -> Option<usize> {
        if env < self.scopes.len() {
            match self.scopes[env as int].parent {
                Some(p) => if p < env {
                    Some(p)
                } else {
                    None
                },
                None => None,
            }
        } else {
            None
        }
    }

    /// The nearest scope that binds a name.
    pub open spec fn holder(self, env: usize, name: Seq<char>) -> Option<usize>
        decreases env,
    {
        if self.binds(env, name) {
            Some(env)
        } else {
            match self.around(env) {
                Some(p) => self.holder(p, name),
                None => None,
            }
        }
    }

    /// What the nearest scope binds a name to.
    pub open spec fn found(self, env: usize, name: Seq<char>) -> Option<BindingView<'a>> {
        match self.holder(env, name) {
            Some(e) => Some(self.scopes[e as int].vars[name]),
            None => None,
        }
    }

    /// The value that the nearest scope binds a name to.
    pub open spec fn bound_value(self, name: Seq<char>, env: usize) -> Option<Value> {
        match self.found(env, name) {
            Some(b) => Some(b.value),
            None => None,
        }
    }

    /// After a scope got other contents.
    pub open spec fn changed(self, env: usize, s: ScopeView<'a>) -> ScopesView<'a> {
        if env < self.scopes.len() {
            ScopesView { scopes: self.scopes.update(env as int, s) }
        } else {
            self
        }
    }

    /// After a scope was given a binding, in place of any it had under the name.
    pub open spec fn bound(self, env: usize, name: Seq<char>, b: BindingView<'a>) -> ScopesView<'a> {
        let s = self.scopes[env as int];
        self.changed(
            env,
            ScopeView { vars: s.vars.insert(name, b), names: with_name(s.names, name), ..s },
        )
    }

    /// After a scope lost a binding.
    pub open spec fn unbound(self, env: usize, name: Seq<char>) -> ScopesView<'a> {
        let s = self.scopes[env as int];
        self.changed(
            env,
            ScopeView { vars: s.vars.remove(name), names: without(s.names, name), ..s },
        )
    }

    /// After a binding got another value and is initialized.
    pub open spec fn stored(self, env: usize, name: Seq<char>, value: Value) -> ScopesView<'a> {
        if self.binds(env, name) {
            self.bound(
                env,
                name,
                BindingView { value, initialized: true, ..self.scopes[env as int].vars[name] },
            )
        } else {
            self
        }
    }

    /// After a binding got another value, initialized or not.
    pub open spec fn revalued(self, env: usize, name: Seq<char>, value: Value) -> ScopesView<'a> {
        if self.binds(env, name) {
            self.bound(env, name, BindingView { value, ..self.scopes[env as int].vars[name] })
        } else {
            self
        }
    }

    /// After a binding was initialized.
    pub open spec fn initialized(self, env: usize, name: Seq<char>) -> ScopesView<'a> {
        if self.binds(env, name) {
            self.bound(
                env,
                name,
                BindingView { initialized: true, ..self.scopes[env as int].vars[name] },
            )
        } else {
            self
        }
    }

    /// After the first `n` of some names were bound, not yet initialized. They do not count as lexical
    /// names of a body.
    pub open spec fn pattern_declared(
        self,
        env: usize,
        names: Seq<Seq<char>>,
        n: nat,
    ) -> ScopesView<'a>
        decreases n,
    {
        if n == 0 || n > names.len() {
            self
        } else {
            self.pattern_declared(env, names, (n - 1) as nat).bound(
                env,
                names[n - 1],
                declared_binding(),
            )
        }
    }

    /// After the first `n` of some names were copied from one scope to another, where they are bound.
    pub open spec fn copied(
        self,
        from: usize,
        to: usize,
        names: Seq<Seq<char>>,
        n: nat,
    ) -> ScopesView<'a>
        decreases n,
    {
        if n == 0 || n > names.len() {
            self
        } else {
            let s = self.copied(from, to, names, (n - 1) as nat);
            if s.binds(from, names[n - 1]) {
                s.bound(to, names[n - 1], s.binding_at(from, names[n - 1]))
            } else {
                s
            }
        }
    }

    /// After a scope was given the name at a place of another, as a binding that can be deleted.
    pub open spec fn declared_bound(
        self,
        env: usize,
        probe: usize,
        at: usize,
        value: Value,
    ) -> ScopesView<'a> {
        if at < self.names_at(probe).len() {
            self.bound(env, self.names_at(probe)[at as int], deletable_binding(value))
        } else {
            self
        }
    }

    /// Whether a binding is initialized.
    pub open spec fn ready_at(self, env: usize, name: Seq<char>) -> bool {
        self.binds(env, name) && self.binding_at(env, name).initialized
    }

    /// Whether a binding is initialized and no import.
    pub open spec fn plain_at(self, env: usize, name: Seq<char>) -> bool {
        self.ready_at(env, name) && self.binding_at(env, name).import_ref is None
    }

    /// What putting a value through a reference to a binding does.
    pub open spec fn put_view(self, env: usize, name: Seq<char>, strict: bool) -> Put {
        if !self.binds(env, name) {
            Put::Unbound
        } else {
            let b = self.binding_at(env, name);
            if b.import_ref is Some {
                Put::Import
            } else if !b.initialized {
                Put::Uninitialized
            } else if b.mutable {
                Put::Stored
            } else if b.strict_immutable || strict {
                Put::Constant
            } else {
                Put::Ignored
            }
        }
    }

    /// After a new scope was made, which is the last.
    pub open spec fn added(
        self,
        parent: Option<usize>,
        with_obj: Option<Value>,
        catch_param: bool,
        var_boundary: bool,
    ) -> ScopesView<'a> {
        ScopesView {
            scopes: self.scopes.push(
                ScopeView {
                    vars: Map::empty(),
                    names: Seq::empty(),
                    parent,
                    with_obj,
                    catch_param,
                    var_boundary,
                    lexical_names: Seq::empty(),
                },
            ),
        }
    }

    /// The names that a scope binds, in the order in which they came.
    pub open spec fn names_at(self, env: usize) -> Seq<Seq<char>> {
        if env < self.scopes.len() {
            self.scopes[env as int].names
        } else {
            Seq::empty()
        }
    }

    /// After a scope lost all its bindings.
    pub open spec fn emptied(self, env: usize) -> ScopesView<'a> {
        let s = self.scopes[env as int];
        self.changed(env, ScopeView { vars: Map::empty(), names: Seq::empty(), ..s })
    }

    /// After a lexical name was declared, not yet initialized.
    pub open spec fn declared(self, env: usize, name: Seq<char>) -> ScopesView<'a> {
        let d = self.bound(env, name, declared_binding());
        let s = d.scopes[env as int];
        d.changed(env, ScopeView { lexical_names: s.lexical_names.push(name), ..s })
    }

    /// After the first `n` of some lexical names were declared.
    pub open spec fn all_declared(self, env: usize, names: Seq<Seq<char>>, n: nat) -> ScopesView<'a>
        decreases n,
    {
        if n == 0 || n > names.len() {
            self
        } else {
            self.all_declared(env, names, (n - 1) as nat).declared(env, names[n - 1])
        }
    }

    /// Whether a name is bound to something that is not initialized, followed through imports.
    pub open spec fn uninitialized(self, env: usize, name: Seq<char>, fuel: u64) -> bool
        decreases fuel,
    {
        match self.found(env, name) {
            Some(b) => match b.import_ref {
                Some((e, n)) => fuel > 0 && self.uninitialized(e, n.chars(), (fuel - 1) as u64),
                None => !b.initialized,
            },
            None => false,
        }
    }

    /// Whether code stands in a function other than an arrow: the nearest `this` is not that of global
    /// code.
    pub open spec fn function_code(self, env: usize) -> bool
        decreases env,
    {
        env != 0 && (self.binds(env, "this"@) || match self.around(env) {
            Some(p) => self.function_code(p),
            None => false,
        })
    }

    /// The key that a private name stands for: that of the nearest scope that binds it to a string.
    pub open spec fn private_key(self, env: usize, name: Seq<char>) -> Option<u64>
        decreases env,
    {
        if self.binds(env, name) && self.scopes[env as int].vars[name].value is Str {
            Some(self.scopes[env as int].vars[name].value->Str_0)
        } else {
            match self.around(env) {
                Some(p) => self.private_key(p, name),
                None => None,
            }
        }
    }

    /// The nearest scope that takes `var` declarations: that of global code if there is none.
    pub open spec fn var_env(self, env: usize) -> usize
        decreases env,
    {
        if env < self.scopes.len() && self.scopes[env as int].var_boundary {
            env
        } else {
            match self.around(env) {
                Some(p) => self.var_env(p),
                None => 0,
            }
        }
    }

    /// Whether a mark stands between a place and the function around it, whose scope binds `arguments`.
    /// The mark of the function's own scope counts, or not.
    pub open spec fn marked(
        self,
        env: usize,
        a: Seq<char>,
        b: Seq<char>,
        own: bool,
    ) -> bool
        decreases env,
    {
        let here = self.binds(env, a) || self.binds(env, b);
        if self.binds(env, "arguments"@) {
            own && here
        } else {
            here || match self.around(env) {
                Some(p) => self.marked(p, a, b, own),
                None => false,
            }
        }
    }

    /// The nearest scope that binds a name to a value that can be read and assigned directly; nothing
    /// where a `with` scope comes first, or the binding is an import, constant or not initialized.
    pub open spec fn plain_holder(self, env: usize, name: Seq<char>) -> Option<usize>
        decreases env,
    {
        if env >= self.scopes.len() || self.scopes[env as int].with_obj is Some {
            None
        } else if self.binds(env, name) {
            let b = self.scopes[env as int].vars[name];
            if b.initialized && b.import_ref is None && b.mutable {
                Some(env)
            } else {
                None
            }
        } else {
            match self.around(env) {
                Some(p) => self.plain_holder(p, name),
                None => None,
            }
        }
    }
}

impl<'a> Scopes<'a> {
    /// Scopes with that of global code alone.
    pub fn new() -> (r: Self)
        ensures
            r@ == (ScopesView { scopes: Seq::empty() }).added(None, None, false, true),
    {
        let mut scopes: Vec<Scope> = Vec::new();
        scopes.push(
            Scope {
                vars: Table::new(),
                parent: None,
                with_obj: None,
                catch_param: false,
                var_boundary: true,
                lexical_names: Vec::new(),
            },
        );
        let r = Scopes { scopes };
        assert(texts(r.scopes@[0].lexical_names@) =~= Seq::empty());
        assert(r@.scopes =~= (ScopesView { scopes: Seq::empty() }).added(
            None,
            None,
            false,
            true,
        ).scopes);
        r
    }

    /// A new scope in another.
    pub fn new_scope(
        &mut self,
        parent: Option<usize>,
        with_obj: Option<Value>,
        catch_param: bool,
        var_boundary: bool,
    ) -> (env: usize)
        ensures
            env == old(self)@.scopes.len(),
            final(self)@ == old(self)@.added(parent, with_obj, catch_param, var_boundary),
    {
        let env = self.scopes.len();
        self.scopes.push(
            Scope {
                vars: Table::new(),
                parent,
                with_obj,
                catch_param,
                var_boundary,
                lexical_names: Vec::new(),
            },
        );
        assert(texts(self.scopes@[env as int].lexical_names@) =~= Seq::empty());
        assert(self@.scopes =~= old(self)@.added(
            parent,
            with_obj,
            catch_param,
            var_boundary,
        ).scopes);
        env
    }

    /// The scope around a scope.
    pub fn outer(&self, env: usize) -> (r: Option<usize>)
        ensures
            r == self@.around(env),
            r matches Some(p) ==> p < env,
    {
        if env < self.scopes.len() {
            match self.scopes[env].parent {
                Some(p) => if p < env {
                    Some(p)
                } else {
                    None
                },
                None => None,
            }
        } else {
            None
        }
    }

    /// Whether a scope binds a name.
    pub fn has_binding(&self, env: usize, name: &str) -> (r: bool)
        ensures
            r == self@.binds(env, name@),
    {
        env < self.scopes.len() && self.scopes[env].vars.has_name(name)
    }

    /// The nearest scope that binds a name.
    pub fn find(&self, env: usize, name: &str) -> (r: Option<usize>)
        ensures
            r == self@.holder(env, name@),
            r matches Some(e) ==> self@.binds(e, name@),
        decreases env,
    {
        if self.has_binding(env, name) {
            Some(env)
        } else {
            match self.outer(env) {
                Some(p) => self.find(p, name),
                None => None,
            }
        }
    }

    /// What the nearest scope binds a name to.
    pub fn peek(&self, env: usize, name: &str) -> (r: Option<&Binding<'a>>)
        ensures
            (match r {
                Some(b) => Some(b@),
                None => None,
            }) == self@.found(env, name@),
    {
        match self.find(env, name) {
            Some(e) => self.scopes[e].vars.get(name),
            None => None,
        }
    }

    /// The value that the nearest scope binds a name to.
    pub fn peek_binding(&self, name: &str, env: usize) -> (r: Option<Value>)
        ensures
            r == self@.bound_value(name@, env),
    {
        match self.peek(env, name) {
            Some(b) => Some(b.value),
            None => None,
        }
    }

    /// Binds a name in a scope.
    pub fn insert(&mut self, env: usize, name: &str, b: Binding<'a>)
        ensures
            final(self)@ == old(self)@.bound(env, name@, b@),
    {
        if env < self.scopes.len() {
            let ghost bv = b@;
            self.scopes[env].vars.insert(copy_text(name), b);
            assert(self@.scopes =~= old(self)@.bound(env, name@, bv).scopes);
        }
    }

    /// Binds a name to a value that can be assigned to.
    pub fn bind(&mut self, env: usize, name: &str, value: Value)
        ensures
            final(self)@ == old(self)@.bound(env, name@, plain_binding(value)),
    {
        self.insert(
            env,
            name,
            Binding {
                value,
                mutable: true,
                strict_immutable: false,
                initialized: true,
                import_ref: None,
                deletable: false,
            },
        );
    }

    /// Initializes a lexical name.
    pub fn init_lexical(&mut self, name: &str, value: Value, constant: bool, env: usize)
        ensures
            final(self)@ == old(self)@.bound(
                env,
                name@,
                BindingView { mutable: !constant, strict_immutable: constant, ..plain_binding(value) },
            ),
    {
        self.insert(
            env,
            name,
            Binding {
                value,
                mutable: !constant,
                strict_immutable: constant,
                initialized: true,
                import_ref: None,
                deletable: false,
            },
        );
    }

    /// Whether a name is bound to something that is not initialized, followed through imports.
    pub fn binding_in_tdz(&self, name: &str, env: usize, fuel: u64) -> (r: bool)
        ensures
            r == self@.uninitialized(env, name@, fuel),
        decreases fuel,
    {
        match self.peek(env, name) {
            Some(b) => match &b.import_ref {
                Some((e, n)) => fuel > 0 && self.binding_in_tdz(n.text(), *e, fuel - 1),
                None => !b.initialized,
            },
            None => false,
        }
    }

    /// Whether code stands in a function other than an arrow.
    pub fn in_function_code(&self, env: usize) -> (r: bool)
        ensures
            r == self@.function_code(env),
        decreases env,
    {
        if env == 0 {
            return false;
        }
        if self.has_binding(env, "this") {
            return true;
        }
        match self.outer(env) {
            Some(p) => self.in_function_code(p),
            None => false,
        }
    }

    /// The key that a private name stands for.
    pub fn resolve_private(&self, name: &str, env: usize) -> (r: Option<u64>)
        ensures
            r == self@.private_key(env, name@),
        decreases env,
    {
        if env < self.scopes.len() {
            match self.scopes[env].vars.get(name) {
                Some(b) => {
                    match b.value {
                        Value::Str(k) => {
                            return Some(k);
                        },
                        _ => {},
                    }
                },
                None => {},
            }
        }
        match self.outer(env) {
            Some(p) => self.resolve_private(name, p),
            None => None,
        }
    }

    /// The nearest scope that takes `var` declarations.
    pub fn nearest_var_env(&self, env: usize) -> (r: usize)
        ensures
            r == self@.var_env(env),
        decreases env,
    {
        if env < self.scopes.len() && self.scopes[env].var_boundary {
            env
        } else {
            match self.outer(env) {
                Some(p) => self.nearest_var_env(p),
                None => 0,
            }
        }
    }

    fn has_mark(&self, env: usize, a: &str, b: &str, own: bool) -> (r: bool)
        ensures
            r == self@.marked(env, a@, b@, own),
        decreases env,
    {
        let here = self.has_binding(env, a) || self.has_binding(env, b);
        if self.has_binding(env, "arguments") {
            return own && here;
        }
        if here {
            return true;
        }
        match self.outer(env) {
            Some(p) => self.has_mark(p, a, b, own),
            None => false,
        }
    }

    /// Whether a `super` property may stand in evaluated code: in method or class code, an arrow included.
    pub fn super_property_allowed(&self, env: usize) -> (r: bool)
        ensures
            r == self@.marked(env, "%superpropok%"@, "%homeobject%"@, true),
    {
        self.has_mark(env, "%superpropok%", "%homeobject%", true)
    }

    /// Whether code stands in a field's initial value, an arrow included.
    pub fn in_field_init(&self, env: usize) -> (r: bool)
        ensures
            r == self@.marked(env, "%fieldinit%"@, "%fieldinit%"@, false),
    {
        self.has_mark(env, "%fieldinit%", "%fieldinit%", false)
    }

    /// The nearest scope that binds a name to a value that can be read and assigned directly.
    pub fn plain_binding_scope(&self, name: &str, env: usize) -> (r: Option<usize>)
        ensures
            r == self@.plain_holder(env, name@),
        decreases env,
    {
        if env >= self.scopes.len() || self.scopes[env].with_obj.is_some() {
            return None;
        }
        match self.scopes[env].vars.get(name) {
            Some(b) => {
                return if b.initialized && b.import_ref.is_none() && b.mutable {
                    Some(env)
                } else {
                    None
                };
            },
            None => {},
        }
        match self.outer(env) {
            Some(p) => self.plain_binding_scope(name, p),
            None => None,
        }
    }
}

// ---- lookups that may meet a `with` object

/// Where the search for a name stops.
#[derive(Clone, Copy, PartialEq, Eq, Structural, Debug)]
pub enum Stop {
    /// A scope that binds the name.
    Scope(usize),
    /// A `with` scope whose object may have the name.
    With(usize, Value),
    /// The search has left all scopes.
    Global,
}

impl<'a> ScopesView<'a> {
    /// Where the search for a name stops, from a scope on.
    pub open spec fn stop(self, env: usize, name: Seq<char>) -> Stop
        decreases env,
    {
        if self.binds(env, name) {
            Stop::Scope(env)
        } else if env < self.scopes.len() && self.scopes[env as int].with_obj is Some
            && self.scopes[env as int].with_obj->0 is Obj {
            Stop::With(env, self.scopes[env as int].with_obj->0)
        } else {
            match self.around(env) {
                Some(p) => self.stop(p, name),
                None => Stop::Global,
            }
        }
    }

    /// Where the search for a name stops behind a scope.
    pub open spec fn stop_behind(self, env: usize, name: Seq<char>) -> Stop {
        match self.around(env) {
            Some(p) => self.stop(p, name),
            None => Stop::Global,
        }
    }

    /// The binding of a scope that a search stopped at.
    pub open spec fn binding_at(self, env: usize, name: Seq<char>) -> BindingView<'a> {
        self.scopes[env as int].vars[name]
    }

    /// What reading a binding comes to: nothing where it is not initialized; an import is read where it
    /// comes from.
    pub open spec fn read_view(self, env: usize, name: Seq<char>) -> Read<'a> {
        if self.binds(env, name) {
            let b = self.binding_at(env, name);
            if !b.initialized {
                Read::Uninitialized
            } else {
                match b.import_ref {
                    Some((e, n)) => Read::Import(e, n),
                    None => Read::Value(b.value),
                }
            }
        } else {
            Read::Unbound
        }
    }

    /// The value of a binding; of none, `undefined`.
    pub open spec fn value_in(self, env: usize, name: Seq<char>) -> Value {
        if self.binds(env, name) {
            self.binding_at(env, name).value
        } else {
            Value::Undefined
        }
    }

    /// The binding that an import of a scope stands for.
    pub open spec fn import_at(self, env: usize, name: Seq<char>) -> Option<(usize, Name<'a>)> {
        if self.binds(env, name) {
            self.binding_at(env, name).import_ref
        } else {
            None
        }
    }

    /// What assigning to the binding of a scope does, in strict code or not.
    pub open spec fn write_view(self, env: usize, name: Seq<char>, strict: bool) -> Write {
        if self.binds(env, name) {
            let b = self.binding_at(env, name);
            if !b.mutable && b.initialized {
                if b.strict_immutable || strict {
                    Write::Refused
                } else {
                    Write::Ignored
                }
            } else {
                Write::Stored
            }
        } else {
            Write::Ignored
        }
    }
}

impl<'a> Scopes<'a> {
    /// Where the search for a name stops, from a scope on.
    pub fn search(&self, env: usize, name: &str) -> (r: Stop)
        ensures
            r == self@.stop(env, name@),
        decreases env,
    {
        if self.has_binding(env, name) {
            return Stop::Scope(env);
        }
        if env < self.scopes.len() {
            match self.scopes[env].with_obj {
                Some(Value::Obj(o)) => {
                    return Stop::With(env, Value::Obj(o));
                },
                _ => {},
            }
        }
        match self.outer(env) {
            Some(p) => self.search(p, name),
            None => Stop::Global,
        }
    }

    /// Where the search for a name stops behind a scope.
    pub fn search_behind(&self, env: usize, name: &str) -> (r: Stop)
        ensures
            r == self@.stop_behind(env, name@),
    {
        match self.outer(env) {
            Some(p) => self.search(p, name),
            None => Stop::Global,
        }
    }

    /// Whether a binding is not initialized yet.
    pub fn in_dead_zone(&self, env: usize, name: &str) -> (r: bool)
        ensures
            r == (self@.read_view(env, name@) is Uninitialized),
    {
        if env >= self.scopes.len() {
            return false;
        }
        match self.scopes[env].vars.get(name) {
            Some(b) => !b.initialized,
            None => false,
        }
    }

    /// The value of a binding; of none, `undefined`.
    pub fn value_at(&self, env: usize, name: &str) -> (r: Value)
        ensures
            r == self@.value_in(env, name@),
    {
        if env >= self.scopes.len() {
            return Value::Undefined;
        }
        match self.scopes[env].vars.get(name) {
            Some(b) => b.value,
            None => Value::Undefined,
        }
    }

    /// The binding that an import of a scope stands for.
    pub fn import_source(&self, env: usize, name: &str) -> (r: Option<(usize, Name<'a>)>)
        ensures
            r == self@.import_at(env, name@),
    {
        if env >= self.scopes.len() {
            return None;
        }
        match self.scopes[env].vars.get(name) {
            Some(b) => b.import_ref,
            None => None,
        }
    }

    /// What assigning to the binding of a scope would do.
    pub fn may_write(&self, env: usize, name: &str, strict: bool) -> (r: Write)
        ensures
            r == self@.write_view(env, name@, strict),
    {
        if env >= self.scopes.len() {
            return Write::Ignored;
        }
        match self.scopes[env].vars.get(name) {
            Some(b) => if !b.mutable && b.initialized {
                if b.strict_immutable || strict {
                    Write::Refused
                } else {
                    Write::Ignored
                }
            } else {
                Write::Stored
            },
            None => Write::Ignored,
        }
    }

    /// Whether a binding can be deleted.
    pub fn is_deletable(&self, env: usize, name: &str) -> (r: bool)
        ensures
            r == (self@.binding_at(env, name@).deletable && self@.binds(env, name@)),
    {
        if env >= self.scopes.len() {
            return false;
        }
        match self.scopes[env].vars.get(name) {
            Some(b) => b.deletable,
            None => false,
        }
    }

    /// Assigns to the binding of a scope. A constant refuses; the name of a function expression ignores it
    /// in sloppy code; anything else takes the value and is initialized.
    pub fn write(&mut self, env: usize, name: &str, value: Value, strict: bool) -> (r: Write)
        ensures
            r == old(self)@.write_view(env, name@, strict),
            r != Write::Stored ==> *final(self) == *old(self),
            r == Write::Stored ==> final(self)@ == old(self)@.stored(env, name@, value),
    {
        let outcome = self.may_write(env, name, strict);
        if outcome == Write::Stored {
            self.store(env, name, value);
        }
        outcome
    }

    /// Removes a binding that can be deleted: whether it could.
    pub fn delete(&mut self, env: usize, name: &str) -> (r: bool)
        ensures
            r == (old(self)@.binds(env, name@) && old(self)@.binding_at(env, name@).deletable),
            !r ==> *final(self) == *old(self),
            r ==> final(self)@ == old(self)@.unbound(env, name@),
    {
        let deletable = self.is_deletable(env, name);
        if deletable {
            self.unbind(env, name);
        }
        deletable
    }
}

/// What reading a binding comes to.
pub ghost enum Read<'a> {
    Value(Value),
    Uninitialized,
    Import(usize, Name<'a>),
    Unbound,
}

/// What putting a value through a reference to a binding does.
#[derive(Clone, Copy, PartialEq, Eq, Structural, Debug)]
pub enum Put {
    /// The scope does not bind the name any more.
    Unbound,
    Import,
    Uninitialized,
    Constant,
    /// It cannot be assigned to, which is no error.
    Ignored,
    Stored,
}

/// What assigning to a binding does.
#[derive(Clone, Copy, PartialEq, Eq, Structural, Debug)]
pub enum Write {
    Stored,
    /// It cannot be assigned to, which is an error.
    Refused,
    /// It cannot be assigned to, which is no error.
    Ignored,
}

// ---- declarations

/// The binding of a default export that has no value yet.
pub open spec fn default_placeholder<'a>() -> BindingView<'a> {
    BindingView {
        value: Value::Undefined,
        mutable: false,
        strict_immutable: true,
        initialized: false,
        import_ref: None,
        deletable: false,
    }
}

/// The binding of an import that reads another module's binding.
pub open spec fn import_binding<'a>(source: usize, name: Name<'a>) -> BindingView<'a> {
    BindingView {
        value: Value::Undefined,
        mutable: false,
        strict_immutable: true,
        initialized: true,
        import_ref: Some((source, name)),
        deletable: false,
    }
}

/// The binding of an import that is a namespace.
pub open spec fn namespace_binding<'a>(value: Value) -> BindingView<'a> {
    BindingView {
        value,
        mutable: false,
        strict_immutable: true,
        initialized: true,
        import_ref: None,
        deletable: false,
    }
}

/// The names that a statement declares lexically in the scope of its block.
pub open spec fn lexical_names(s: &Stmt) -> Seq<Seq<char>> {
    match unlabeled(exported(s)) {
        Stmt::VarDecl { kind, decls } => if *kind == DeclKind::Var {
            Seq::empty()
        } else {
            crate::modules::exports::decls_names(decls@, decls@.len())
        },
        Stmt::ClassDecl(c) => match c.name {
            Some(n) => seq![n@],
            None => Seq::empty(),
        },
        _ => Seq::empty(),
    }
}

/// The names that the first `n` statements declare lexically.
pub open spec fn block_names(stmts: Seq<Stmt>, n: nat) -> Seq<Seq<char>>
    decreases n,
{
    if n == 0 || n > stmts.len() {
        Seq::empty()
    } else {
        block_names(stmts, (n - 1) as nat) + lexical_names(&stmts[n - 1])
    }
}

fn add_lexical(s: &Stmt, out: &mut Vec<String>)
    ensures
        texts(final(out)@) == texts(old(out)@) + lexical_names(s),
{
    match strip_labels(unwrap_export(s)) {
        Stmt::VarDecl { kind, decls } => {
            if *kind != DeclKind::Var {
                add_decls(decls, out);
            } else {
                assert(texts(out@) =~= texts(old(out)@) + Seq::empty());
            }
        },
        Stmt::ClassDecl(c) => match &c.name {
            Some(n) => {
                out.push(copy_text(n.as_str()));
                assert(texts(out@) =~= texts(old(out)@) + seq![n@]);
            },
            None => {
                assert(texts(out@) =~= texts(old(out)@) + Seq::empty());
            },
        },
        _ => {
            assert(texts(out@) =~= texts(old(out)@) + Seq::empty());
        },
    }
}

fn add_decls(decls: &Vec<(Pattern, Option<Expr>)>, out: &mut Vec<String>)
    ensures
        texts(final(out)@) == texts(old(out)@) + crate::modules::exports::decls_names(
            decls@,
            decls@.len(),
        ),
{
    let mut i: usize = 0;
    assert(texts(out@) =~= texts(old(out)@) + Seq::empty());
    while i < decls.len()
        invariant
            i <= decls.len(),
            texts(out@) == texts(old(out)@) + crate::modules::exports::decls_names(
                decls@,
                i as nat,
            ),
        decreases decls.len() - i,
    {
        pattern_idents(&decls[i].0, out);
        i = i + 1;
        assert(texts(out@) =~= texts(old(out)@) + crate::modules::exports::decls_names(
            decls@,
            i as nat,
        ));
    }
}

/// The names that statements declare lexically in the scope of their block, in order.
pub fn block_lexicals(stmts: &Vec<Stmt>) -> (r: Vec<String>)
    ensures
        texts(r@) == block_names(stmts@, stmts@.len()),
{
    let mut out: Vec<String> = Vec::new();
    let mut i: usize = 0;
    assert(texts(out@) =~= Seq::empty());
    while i < stmts.len()
        invariant
            i <= stmts.len(),
            texts(out@) == block_names(stmts@, i as nat),
        decreases stmts.len() - i,
    {
        add_lexical(&stmts[i], &mut out);
        i = i + 1;
    }
    out
}

impl<'a> ScopesView<'a> {
    /// Whether a scope, but for that of a `with` object or a `catch` parameter, binds a name.
    pub open spec fn clashes_at(self, env: usize, name: Seq<char>) -> bool {
        self.binds(env, name) && self.scopes[env as int].with_obj is None
            && !self.scopes[env as int].catch_param
    }

    /// Whether a scope from one on, up to the one that takes `var` declarations, binds a name.
    pub open spec fn clashes(self, env: usize, var_env: usize, name: Seq<char>) -> bool
        decreases env,
    {
        env != var_env && (self.clashes_at(env, name) || match self.around(env) {
            Some(p) => self.clashes(p, var_env, name),
            None => false,
        })
    }

    /// Whether evaluated sloppy code may not declare a `var`: a lexical name stands in its way.
    pub open spec fn var_refused(self, lex_env: usize, var_env: usize, name: Seq<char>) -> bool {
        ||| var_env == 0 && name != "this"@ && self.binds(0, name)
        ||| self.clashes(lex_env, var_env, name)
        ||| var_env < self.scopes.len() && self.scopes[var_env as int].lexical_names.contains(name)
    }
}

impl<'a> Scopes<'a> {
    /// Declares a lexical name, not yet initialized.
    pub fn declare_lexical(&mut self, env: usize, name: &str)
        ensures
            final(self)@ == old(self)@.declared(env, name@),
    {
        self.insert(
            env,
            name,
            Binding {
                value: Value::Undefined,
                mutable: true,
                strict_immutable: false,
                initialized: false,
                import_ref: None,
                deletable: false,
            },
        );
        if env < self.scopes.len() {
            let ghost before = self@;
            let ghost had = self.scopes@[env as int].lexical_names@;
            self.scopes[env].lexical_names.push(copy_text(name));
            assert(texts(self.scopes@[env as int].lexical_names@) =~= texts(had).push(name@));
            assert(before.scopes[env as int].lexical_names == texts(had));
            assert(self@.scopes =~= old(self)@.declared(env, name@).scopes);
        }
    }

    /// Changes a binding, if it is there: its value, if one is given, and whether it is initialized.
    fn amend(&mut self, env: usize, name: &str, value: Option<Value>, initialize: bool)
        ensures
            final(self)@ == (if old(self)@.binds(env, name@) {
                let b = old(self)@.binding_at(env, name@);
                old(self)@.bound(
                    env,
                    name@,
                    BindingView {
                        value: match value {
                            Some(v) => v,
                            None => b.value,
                        },
                        initialized: initialize || b.initialized,
                        ..b
                    },
                )
            } else {
                old(self)@
            }),
    {
        if env >= self.scopes.len() {
            return;
        }
        let b: Binding<'a> = match self.scopes[env].vars.get(name) {
            Some(b) => Binding {
                value: match value {
                    Some(v) => v,
                    None => b.value,
                },
                mutable: b.mutable,
                strict_immutable: b.strict_immutable,
                initialized: initialize || b.initialized,
                import_ref: b.import_ref,
                deletable: b.deletable,
            },
            None => {
                return;
            },
        };
        self.insert(env, name, b);
    }

    /// Gives a binding a value; it is then initialized.
    pub fn store(&mut self, env: usize, name: &str, value: Value)
        ensures
            final(self)@ == old(self)@.stored(env, name@, value),
    {
        self.amend(env, name, Some(value), true);
    }

    /// Gives a binding a value, initialized or not.
    pub fn set_value(&mut self, env: usize, name: &str, value: Value)
        ensures
            final(self)@ == old(self)@.revalued(env, name@, value),
    {
        self.amend(env, name, Some(value), false);
    }

    /// Marks a binding as initialized.
    pub fn initialize(&mut self, env: usize, name: &str)
        ensures
            final(self)@ == old(self)@.initialized(env, name@),
    {
        self.amend(env, name, None, true);
    }

    /// Takes a binding away.
    pub fn unbind(&mut self, env: usize, name: &str)
        ensures
            final(self)@ == old(self)@.unbound(env, name@),
    {
        if env < self.scopes.len() {
            self.scopes[env].vars.remove(name);
            assert(self@.scopes =~= old(self)@.unbound(env, name@).scopes);
        }
    }

    /// Binds a class's own name, not yet initialized and never assignable.
    pub fn declare_class(&mut self, env: usize, name: &str)
        ensures
            final(self)@ == old(self)@.bound(env, name@, default_placeholder()),
    {
        self.insert(
            env,
            name,
            Binding {
                value: Value::Undefined,
                mutable: false,
                strict_immutable: true,
                initialized: false,
                import_ref: None,
                deletable: false,
            },
        );
    }

    /// Declares the names of a pattern, not yet initialized.
    pub fn declare_pattern(&mut self, pattern: &Pattern, env: usize)
        ensures
            final(self)@ == old(self)@.pattern_declared(
                env,
                pattern_names(pattern),
                pattern_names(pattern).len(),
            ),
    {
        let mut names: Vec<String> = Vec::new();
        assert(texts(names@) =~= Seq::empty());
        pattern_idents(pattern, &mut names);
        assert(texts(names@) =~= pattern_names(pattern));
        let mut i: usize = 0;
        while i < names.len()
            invariant
                i <= names.len(),
                texts(names@) == pattern_names(pattern),
                self@ == old(self)@.pattern_declared(env, pattern_names(pattern), i as nat),
            decreases names.len() - i,
        {
            assert(texts(names@)[i as int] == names@[i as int]@);
            self.insert(
                env,
                names[i].as_str(),
                Binding {
                    value: Value::Undefined,
                    mutable: true,
                    strict_immutable: false,
                    initialized: false,
                    import_ref: None,
                    deletable: false,
                },
            );
            i = i + 1;
        }
    }

    /// Declares the lexical names of a statement, not yet initialized.
    pub fn declare_stmt(&mut self, st: &Stmt, env: usize)
        ensures
            final(self)@ == old(self)@.all_declared(
                env,
                lexical_names(st),
                lexical_names(st).len(),
            ),
    {
        let mut names: Vec<String> = Vec::new();
        assert(texts(names@) =~= Seq::empty());
        add_lexical(st, &mut names);
        assert(texts(names@) =~= lexical_names(st));
        self.declare_all(&names, env);
    }

    /// Copies the bindings of a loop head from one scope to another.
    pub fn copy_names(&mut self, from: usize, to: usize, decls: &Vec<(Pattern, Option<Expr>)>)
        ensures
            final(self)@ == old(self)@.copied(
                from,
                to,
                crate::modules::exports::decls_names(decls@, decls@.len()),
                crate::modules::exports::decls_names(decls@, decls@.len()).len(),
            ),
    {
        let mut names: Vec<String> = Vec::new();
        assert(texts(names@) =~= Seq::empty());
        add_decls(decls, &mut names);
        let ghost t = crate::modules::exports::decls_names(decls@, decls@.len());
        assert(texts(names@) =~= t);
        let mut i: usize = 0;
        while i < names.len()
            invariant
                i <= names.len(),
                texts(names@) == t,
                self@ == old(self)@.copied(from, to, t, i as nat),
            decreases names.len() - i,
        {
            assert(t[i as int] == names@[i as int]@);
            if from < self.scopes.len() {
                let found: Option<Binding<'a>> = match self.scopes[from].vars.get(names[i].as_str()) {
                    Some(b) => Some(
                        Binding {
                            value: b.value,
                            mutable: b.mutable,
                            strict_immutable: b.strict_immutable,
                            initialized: b.initialized,
                            import_ref: b.import_ref,
                            deletable: b.deletable,
                        },
                    ),
                    None => None,
                };
                match found {
                    Some(b) => {
                        self.insert(to, names[i].as_str(), b);
                    },
                    None => {},
                }
            }
            i = i + 1;
        }
    }

    /// Gives a scope the name at a place of another, as a binding that can be deleted.
    pub fn bind_declared(&mut self, env: usize, probe: usize, at: usize, value: Value)
        ensures
            final(self)@ == old(self)@.declared_bound(env, probe, at, value),
    {
        let names = self.names_in(probe);
        if at < names.len() {
            assert(texts(names@)[at as int] == names@[at as int]@);
            self.insert(
                env,
                names[at].as_str(),
                Binding {
                    value,
                    mutable: true,
                    strict_immutable: false,
                    initialized: true,
                    import_ref: None,
                    deletable: true,
                },
            );
        }
    }

    /// Whether a binding is initialized.
    pub fn is_initialized(&self, env: usize, name: &str) -> (r: bool)
        ensures
            r == self@.ready_at(env, name@),
    {
        if env >= self.scopes.len() {
            return false;
        }
        match self.scopes[env].vars.get(name) {
            Some(b) => b.initialized,
            None => false,
        }
    }

    /// Whether a binding is initialized and no import.
    pub fn reads_plainly(&self, env: usize, name: &str) -> (r: bool)
        ensures
            r == self@.plain_at(env, name@),
    {
        if env >= self.scopes.len() {
            return false;
        }
        match self.scopes[env].vars.get(name) {
            Some(b) => b.initialized && b.import_ref.is_none(),
            None => false,
        }
    }

    /// Binds a name to a value, so that it can be deleted.
    pub fn bind_deletable(&mut self, env: usize, name: &str, value: Value)
        ensures
            final(self)@ == old(self)@.bound(env, name@, deletable_binding(value)),
    {
        self.insert(
            env,
            name,
            Binding {
                value,
                mutable: true,
                strict_immutable: false,
                initialized: true,
                import_ref: None,
                deletable: true,
            },
        );
    }

    /// What putting a value through a reference to a binding does.
    pub fn may_put(&self, env: usize, name: &str, strict: bool) -> (r: Put)
        ensures
            r == self@.put_view(env, name@, strict),
    {
        if env >= self.scopes.len() {
            return Put::Unbound;
        }
        match self.scopes[env].vars.get(name) {
            Some(b) => if b.import_ref.is_some() {
                Put::Import
            } else if !b.initialized {
                Put::Uninitialized
            } else if b.mutable {
                Put::Stored
            } else if b.strict_immutable || strict {
                Put::Constant
            } else {
                Put::Ignored
            },
            None => Put::Unbound,
        }
    }

    /// Takes all bindings of a scope away.
    pub fn empty_scope(&mut self, env: usize)
        ensures
            final(self)@ == old(self)@.emptied(env),
    {
        if env < self.scopes.len() {
            self.scopes[env].vars = Table::new();
            assert(self@.scopes =~= old(self)@.emptied(env).scopes);
        }
    }

    /// The names that a scope binds, in the order in which they came.
    pub fn names_in(&self, env: usize) -> (r: Vec<String>)
        ensures
            texts(r@) == self@.names_at(env),
    {
        if env < self.scopes.len() {
            self.scopes[env].vars.names()
        } else {
            let r: Vec<String> = Vec::new();
            assert(texts(r@) =~= Seq::empty());
            r
        }
    }

    /// Declares the lexical names of a block in its scope, not yet initialized.
    pub fn declare_block_lexicals(&mut self, stmts: &Vec<Stmt>, env: usize)
        ensures
            final(self)@ == old(self)@.all_declared(
                env,
                block_names(stmts@, stmts@.len()),
                block_names(stmts@, stmts@.len()).len(),
            ),
    {
        let names = block_lexicals(stmts);
        self.declare_all(&names, env);
    }

    /// Declares lexical names, not yet initialized.
    pub fn declare_all(&mut self, names: &Vec<String>, env: usize)
        ensures
            final(self)@ == old(self)@.all_declared(env, texts(names@), names@.len()),
    {
        let mut i: usize = 0;
        while i < names.len()
            invariant
                i <= names.len(),
                self@ == old(self)@.all_declared(env, texts(names@), i as nat),
            decreases names.len() - i,
        {
            assert(texts(names@)[i as int] == names@[i as int]@);
            self.declare_lexical(env, names[i].as_str());
            i = i + 1;
        }
    }

    /// Declares the internal name of a default export that is an expression or a class without a name,
    /// so that it can be imported before it has a value. A function is there from the start.
    pub fn declare_default_placeholder(&mut self, body: &Vec<Stmt>, env: usize)
        ensures
            final(self)@ == (if exports_value(body@, 0) {
                old(self)@.bound(env, "*default*"@, default_placeholder())
            } else {
                old(self)@
            }),
    {
        if needs_default_placeholder(body) {
            self.insert(
                env,
                "*default*",
                Binding {
                    value: Value::Undefined,
                    mutable: false,
                    strict_immutable: true,
                    initialized: false,
                    import_ref: None,
                    deletable: false,
                },
            );
        }
    }

    /// Binds the local name of an import to a binding of another module's scope, which it then reads.
    pub fn bind_import(&mut self, env: usize, local: &str, source: usize, name: Name<'a>)
        ensures
            final(self)@ == old(self)@.bound(env, local@, import_binding(source, name)),
    {
        self.insert(
            env,
            local,
            Binding {
                value: Value::Undefined,
                mutable: false,
                strict_immutable: true,
                initialized: true,
                import_ref: Some((source, name)),
                deletable: false,
            },
        );
    }

    /// Binds the local name of an import to a namespace.
    pub fn bind_local(&mut self, env: usize, local: &str, value: Value)
        ensures
            final(self)@ == old(self)@.bound(env, local@, namespace_binding(value)),
    {
        self.insert(
            env,
            local,
            Binding {
                value,
                mutable: false,
                strict_immutable: true,
                initialized: true,
                import_ref: None,
                deletable: false,
            },
        );
    }

    fn has_clash(&self, env: usize, var_env: usize, name: &str) -> (r: bool)
        ensures
            r == self@.clashes(env, var_env, name@),
        decreases env,
    {
        if env == var_env {
            return false;
        }
        if self.has_binding(env, name) && self.scopes[env].with_obj.is_none()
            && !self.scopes[env].catch_param {
            return true;
        }
        match self.outer(env) {
            Some(p) => self.has_clash(p, var_env, name),
            None => false,
        }
    }

    /// Whether evaluated sloppy code may not declare a `var`.
    pub fn refuses_var(&self, lex_env: usize, var_env: usize, name: &str) -> (r: bool)
        ensures
            r == self@.var_refused(lex_env, var_env, name@),
    {
        (var_env == 0 && !same_text(name, "this") && self.has_binding(0, name)) || self.has_clash(
            lex_env,
            var_env,
            name,
        ) || (var_env < self.scopes.len() && holds_name(
            &self.scopes[var_env].lexical_names,
            name,
        ))
    }
}

/// What is known of a property of the global object.
#[derive(Clone, Copy, PartialEq, Eq, Structural, Debug)]
pub struct GlobalProperty {
    pub configurable: bool,
    pub accessor: bool,
    pub writable: bool,
    pub enumerable: bool,
}

/// Whether a global `var` can be declared: the property is there, or can be added.
pub fn can_declare_global_var(existing: Option<GlobalProperty>, extensible: bool) -> (r: bool)
    ensures
        r == (existing is Some || extensible),
{
    existing.is_some() || extensible
}

/// Whether a global function can be declared: the property can be added, replaced, or is an ordinary
/// one.
pub fn can_declare_global_function(existing: Option<GlobalProperty>, extensible: bool) -> (r: bool)
    ensures
        r == (match existing {
            None => extensible,
            Some(p) => p.configurable || (!p.accessor && p.writable && p.enumerable),
        }),
{
    match existing {
        None => extensible,
        Some(p) => p.configurable || (!p.accessor && p.writable && p.enumerable),
    }
}

/// Whether the global object takes a declaration.
pub open spec fn declarable(
    function: bool,
    existing: Option<GlobalProperty>,
    extensible: bool,
) -> bool {
    if function {
        match existing {
            None => extensible,
            Some(p) => p.configurable || (!p.accessor && p.writable && p.enumerable),
        }
    } else {
        existing is Some || extensible
    }
}

/// Whether the global object takes a declaration.
pub fn can_declare(function: bool, existing: Option<GlobalProperty>, extensible: bool) -> (r: bool)
    ensures
        r == declarable(function, existing, extensible),
{
    if function {
        can_declare_global_function(existing, extensible)
    } else {
        can_declare_global_var(existing, extensible)
    }
}

/// What declaring a name of evaluated code does.
#[derive(Clone, Copy, PartialEq, Eq, Structural, Debug)]
pub enum Declare {
    /// Defines the property of the global object anew.
    DefineGlobal,
    /// Replaces the value of the property alone.
    ReplaceGlobal,
    /// Adds an `undefined` property.
    AddGlobal,
    /// Binds the name, in place of any binding.
    Bind,
    /// Binds the name to `undefined`.
    BindUndefined,
    /// Leaves what is there.
    Keep,
}

/// What declaring a name of evaluated code does: a function always takes the name, a `var` only where it
/// is not there.
pub open spec fn declaration(
    global: bool,
    function: bool,
    bound: bool,
    existing: Option<GlobalProperty>,
    extensible: bool,
) -> Declare {
    if global {
        if function {
            match existing {
                Some(p) => if !p.configurable && !p.accessor {
                    Declare::ReplaceGlobal
                } else {
                    Declare::DefineGlobal
                },
                None => Declare::DefineGlobal,
            }
        } else if existing is Some || !extensible {
            Declare::Keep
        } else {
            Declare::AddGlobal
        }
    } else if function {
        Declare::Bind
    } else if bound {
        Declare::Keep
    } else {
        Declare::BindUndefined
    }
}

/// What declaring a name of evaluated code does.
pub fn declare(
    global: bool,
    function: bool,
    bound: bool,
    existing: Option<GlobalProperty>,
    extensible: bool,
) -> (r: Declare)
    ensures
        r == declaration(global, function, bound, existing, extensible),
{
    if global {
        if function {
            match existing {
                Some(p) => if !p.configurable && !p.accessor {
                    Declare::ReplaceGlobal
                } else {
                    Declare::DefineGlobal
                },
                None => Declare::DefineGlobal,
            }
        } else if existing.is_some() || !extensible {
            Declare::Keep
        } else {
            Declare::AddGlobal
        }
    } else if function {
        Declare::Bind
    } else if bound {
        Declare::Keep
    } else {
        Declare::BindUndefined
    }
}

// ---- laws

/// A name is found with what it was bound to last.
pub proof fn bound_names_are_found<'a>(
    s: ScopesView<'a>,
    env: usize,
    name: Seq<char>,
    b: BindingView<'a>,
)
    requires
        env < s.scopes.len(),
    ensures
        s.bound(env, name, b).found(env, name) == Some(b),
{
    assert(s.bound(env, name, b).binds(env, name));
}

/// What a module imports it can only read: assigning to it is an error, in sloppy code too, and `delete`
/// leaves it.
pub proof fn imports_are_constant<'a>(
    s: ScopesView<'a>,
    env: usize,
    local: Seq<char>,
    source: usize,
    name: Name<'a>,
    namespace: Value,
    strict: bool,
)
    requires
        env < s.scopes.len(),
    ensures
        s.bound(env, local, import_binding(source, name)).write_view(env, local, strict)
            == Write::Refused,
        !s.bound(env, local, import_binding(source, name)).binding_at(env, local).deletable,
        s.bound(env, local, namespace_binding(namespace)).write_view(env, local, strict)
            == Write::Refused,
        !s.bound(env, local, namespace_binding(namespace)).binding_at(env, local).deletable,
{
    assert(s.bound(env, local, import_binding(source, name)).binds(env, local));
    assert(s.bound(env, local, namespace_binding(namespace)).binds(env, local));
}

/// Binding a name leaves every other name as it was, wherever it is looked up.
pub proof fn other_names_stay<'a>(
    s: ScopesView<'a>,
    env: usize,
    name: Seq<char>,
    b: BindingView<'a>,
    from: usize,
    other: Seq<char>,
)
    requires
        other != name,
    ensures
        s.bound(env, name, b).holder(from, other) == s.holder(from, other),
        s.bound(env, name, b).found(from, other) == s.found(from, other),
    decreases from,
{
    let t = s.bound(env, name, b);
    assert(t.binds(from, other) == s.binds(from, other));
    assert(t.around(from) == s.around(from));
    if let Some(p) = s.around(from) {
        other_names_stay(s, env, name, b, p, other);
    }
}

/// What a scope binds is not seen from the scopes around it.
pub proof fn inner_names_stay_inside<'a>(
    s: ScopesView<'a>,
    env: usize,
    name: Seq<char>,
    b: BindingView<'a>,
    outer: usize,
    other: Seq<char>,
)
    requires
        outer < env,
    ensures
        s.bound(env, name, b).holder(outer, other) == s.holder(outer, other),
        s.bound(env, name, b).found(outer, other) == s.found(outer, other),
    decreases outer,
{
    let t = s.bound(env, name, b);
    assert(t.binds(outer, other) == s.binds(outer, other));
    assert(t.around(outer) == s.around(outer));
    if let Some(p) = s.around(outer) {
        inner_names_stay_inside(s, env, name, b, p, other);
    }
}

} // verus!
