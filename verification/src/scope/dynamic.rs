//! Evaluated code: what a direct or indirect `eval` may contain and declare.
use vstd::prelude::*;

use crate::ast::Stmt;
use crate::interp::session::Value;
use crate::modules::table::{add_name, copy_text, texts};
use crate::scan::contains::{
    stmts_have_arguments_ref, stmts_have_super_call, stmts_have_super_prop, stmts_hold_from, Wanted,
};
use crate::scope::{
    can_declare_global_function, can_declare_global_var, declaration, declare, deletable_binding,
    Binding, BindingView, Declare, GlobalProperty, Scopes, ScopesView,
};
use crate::text::{join, to_chars};

verus! {

/// How evaluated code is to be parsed.
#[derive(Clone, Copy, PartialEq, Eq, Structural, Debug)]
pub struct ParseContext {
    pub strict: bool,
    /// Whether `new.target` may stand in it.
    pub new_target: bool,
    /// Whether a property of `super` may stand in it.
    pub super_property: bool,
}

/// Where evaluated code runs.
#[derive(Clone, Copy, PartialEq, Eq, Structural, Debug)]
pub enum EvalPlace {
    /// Everything in a new scope around which the given one stands.
    Own(usize),
    /// `var` declarations in the first scope, the rest in a new one within the second.
    Shared(usize, usize),
}

/// Where the function of a block goes.
#[derive(Clone, Copy, PartialEq, Eq, Structural, Debug)]
pub enum SyncPlace {
    /// To the binding that a scope has.
    Replace(usize),
    /// To a new binding of a scope, which can be deleted.
    Create(usize),
    /// To the global object.
    Global,
}

/// What the global object does with the function of a block.
#[derive(Clone, Copy, PartialEq, Eq, Structural, Debug)]
pub enum GlobalSync {
    SetValue,
    Add,
    Nothing,
}

impl<'a> ScopesView<'a> {
    /// How evaluated code is to be parsed: an indirect `eval` knows nothing of its caller.
    pub open spec fn context(self, caller: usize, direct: bool, strict: bool) -> ParseContext {
        ParseContext {
            strict: direct && strict,
            new_target: direct && self.function_code(caller),
            super_property: direct && (self.bound_value("%homeobject%"@, caller) is Some
                || self.bound_value("%superproto%"@, caller) is Some),
        }
    }

    /// What is wrong with evaluated code at its place: it may hold `super(..)` only in the body of a
    /// derived constructor, properties of `super` only in method code, and `arguments` not in the
    /// initial value of a field.
    pub open spec fn misplaced(
        self,
        body: Seq<Stmt>,
        caller: usize,
        direct: bool,
        super_call: bool,
    ) -> Option<&'static str> {
        if direct && !super_call && stmts_hold_from(body, Wanted::SuperCall, 0) {
            Some("'super' keyword unexpected here")
        } else if direct && stmts_hold_from(body, Wanted::SuperProperty, 0) && !self.marked(
            caller,
            "%superpropok%"@,
            "%homeobject%"@,
            true,
        ) {
            Some("'super' keyword unexpected here")
        } else if direct && self.marked(caller, "%fieldinit%"@, "%fieldinit%"@, false)
            && stmts_hold_from(body, Wanted::Arguments, 0) {
            Some("'arguments' is not allowed in class field initializer code")
        } else {
            None
        }
    }

    /// Where evaluated code runs: strict code keeps its declarations to itself; the `var` declarations
    /// of sloppy code go to the function around it, or to global code.
    pub open spec fn place(self, caller: usize, direct: bool, strict: bool) -> EvalPlace {
        if strict {
            EvalPlace::Own(
                if direct {
                    caller
                } else {
                    0
                },
            )
        } else if direct {
            EvalPlace::Shared(self.var_env(caller), caller)
        } else {
            EvalPlace::Shared(0, 0)
        }
    }

    /// The function that a block's own scope binds a name to; the scope of a body is no block's.
    pub open spec fn own_function(self, env: usize, name: Seq<char>) -> Option<Value> {
        if self.binds(env, name) && !self.scopes[env as int].var_boundary {
            Some(self.binding_at(env, name).value)
        } else {
            None
        }
    }

    /// Where the function of a block goes: to the scope that takes `var` declarations.
    pub open spec fn sync_place(self, env: usize, name: Seq<char>) -> SyncPlace
        decreases env,
    {
        if env < self.scopes.len() && self.scopes[env as int].var_boundary {
            if self.binds(env, name) {
                SyncPlace::Replace(env)
            } else if env != 0 {
                SyncPlace::Create(env)
            } else {
                SyncPlace::Global
            }
        } else {
            match self.around(env) {
                Some(p) => self.sync_place(p, name),
                None => SyncPlace::Global,
            }
        }
    }
}

impl<'a> Scopes<'a> {
    /// How evaluated code is to be parsed.
    pub fn parse_context(&self, caller: usize, direct: bool, strict: bool) -> (r: ParseContext)
        ensures
            r == self@.context(caller, direct, strict),
    {
        ParseContext {
            strict: direct && strict,
            new_target: direct && self.in_function_code(caller),
            super_property: direct && (self.peek_binding("%homeobject%", caller).is_some()
                || self.peek_binding("%superproto%", caller).is_some()),
        }
    }

    /// The private names that can be seen from a place.
    pub fn private_names(&self, env: usize) -> (r: Vec<String>)
        ensures
            forall|n: Seq<char>| #[trigger]
                texts(r@).contains(n) <==> n.len() > 0 && n[0] == '#' && self@.holder(
                    env,
                    n,
                ) is Some,
        decreases env,
    {
        let mut out = match self.outer(env) {
            Some(p) => self.private_names(p),
            None => {
                let v: Vec<String> = Vec::new();
                assert(texts(v@) =~= Seq::empty());
                v
            },
        };
        if env >= self.scopes.len() {
            return out;
        }
        let names = self.scopes[env].vars.names();
        let ghost outside = texts(out@);
        let mut i: usize = 0;
        while i < names.len()
            invariant
                i <= names.len(),
                env < self.scopes.len(),
                forall|n: Seq<char>| #[trigger]
                    texts(names@).contains(n) <==> self@.scopes[env as int].vars.contains_key(n),
                forall|n: Seq<char>| #[trigger]
                    outside.contains(n) <==> n.len() > 0 && n[0] == '#' && (match self@.around(env) {
                        Some(p) => self@.holder(p, n) is Some,
                        None => false,
                    }),
                forall|n: Seq<char>| #[trigger]
                    texts(out@).contains(n) <==> outside.contains(n) || (n.len() > 0 && n[0] == '#'
                        && texts(names@).take(i as int).contains(n)),
            decreases names.len() - i,
        {
            let ghost before = texts(out@);
            let name = names[i].as_str();
            let chars = to_chars(name);
            let ghost all = texts(names@);
            assert(all[i as int] == name@);
            let ghost now = all.take(i as int);
            let ghost later = all.take(i as int + 1);
            assert(later =~= now.push(name@));
            assert forall|n: Seq<char>| #[trigger] later.contains(n) <==> now.contains(n) || n
                == name@ by {
                if later.contains(n) && n != name@ {
                    let k = choose|k: int| 0 <= k < later.len() && later[k] == n;
                    assert(now[k] == n);
                }
                if now.contains(n) {
                    let k = choose|k: int| 0 <= k < now.len() && now[k] == n;
                    assert(later[k] == n);
                }
                assert(later[i as int] == name@);
            }
            if chars.len() > 0 && chars[0] == '#' {
                add_name(&mut out, name);
            }
            i = i + 1;
        }
        assert(texts(names@).take(i as int) =~= texts(names@));
        out
    }

    /// What is wrong with evaluated code at its place.
    pub fn eval_fault(&self, body: &Vec<Stmt>, caller: usize, direct: bool, super_call: bool) -> (r:
        Option<&'static str>)
        ensures
            r == self@.misplaced(body@, caller, direct, super_call),
    {
        if direct && !super_call && stmts_have_super_call(body) {
            return Some("'super' keyword unexpected here");
        }
        if direct && stmts_have_super_prop(body) && !self.super_property_allowed(caller) {
            return Some("'super' keyword unexpected here");
        }
        if direct && self.in_field_init(caller) && stmts_have_arguments_ref(body) {
            return Some("'arguments' is not allowed in class field initializer code");
        }
        None
    }

    /// Where evaluated code runs.
    pub fn eval_place(&self, caller: usize, direct: bool, strict: bool) -> (r: EvalPlace)
        ensures
            r == self@.place(caller, direct, strict),
    {
        if strict {
            EvalPlace::Own(
                if direct {
                    caller
                } else {
                    0
                },
            )
        } else if direct {
            EvalPlace::Shared(self.nearest_var_env(caller), caller)
        } else {
            EvalPlace::Shared(0, 0)
        }
    }

    /// The function that a block's own scope binds a name to; the scope of a body is no block's.
    pub fn block_function(&self, env: usize, name: &str) -> (r: Option<Value>)
        ensures
            r == self@.own_function(env, name@),
    {
        if env >= self.scopes.len() || self.scopes[env].var_boundary {
            return None;
        }
        match self.scopes[env].vars.get(name) {
            Some(b) => Some(b.value),
            None => None,
        }
    }

    /// Where the function of a block goes.
    pub fn place_of_sync(&self, env: usize, name: &str) -> (r: SyncPlace)
        ensures
            r == self@.sync_place(env, name@),
        decreases env,
    {
        if env < self.scopes.len() && self.scopes[env].var_boundary {
            if self.has_binding(env, name) {
                SyncPlace::Replace(env)
            } else if env != 0 {
                SyncPlace::Create(env)
            } else {
                SyncPlace::Global
            }
        } else {
            match self.outer(env) {
                Some(p) => self.place_of_sync(p, name),
                None => SyncPlace::Global,
            }
        }
    }

}

/// What the global object does with the function of a block: an ordinary property takes it, and one that
/// is missing is added.
pub open spec fn global_effect(existing: Option<GlobalProperty>, extensible: bool) -> GlobalSync {
    match existing {
        Some(p) => if p.writable && !p.accessor {
            GlobalSync::SetValue
        } else {
            GlobalSync::Nothing
        },
        None => if extensible {
            GlobalSync::Add
        } else {
            GlobalSync::Nothing
        },
    }
}

/// What the global object does with the function of a block.
pub fn global_sync(existing: Option<GlobalProperty>, extensible: bool) -> (r: GlobalSync)
    ensures
        r == global_effect(existing, extensible),
{
    match existing {
        Some(p) => if p.writable && !p.accessor {
            GlobalSync::SetValue
        } else {
            GlobalSync::Nothing
        },
        None => if extensible {
            GlobalSync::Add
        } else {
            GlobalSync::Nothing
        },
    }
}

/// Evaluated strict code never clashes with a name outside, and indirect sloppy code runs in global code
/// whatever its caller.
pub proof fn indirect_eval_is_global<'a>(s: ScopesView<'a>, a: usize, b: usize, strict: bool)
    ensures
        s.place(a, false, strict) == s.place(b, false, strict),
        s.context(a, false, strict) == s.context(b, false, !strict),
{
}

} // verus!
