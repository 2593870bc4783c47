//! The modules that are known, by their keys.
use std::rc::Rc;
use vstd::prelude::*;

use crate::ast::Stmt;
use crate::modules::exports::ExportTables;
use crate::modules::table::{holds_name, texts, Table};
use crate::text::same_text;

verus! {

/// A module that was parsed.
pub struct Module {
    /// The canonical key of its text.
    pub key: String,
    pub body: Rc<Vec<Stmt>>,
    /// The keys of the modules it asks for, each once, in the order of the source.
    pub dep_keys: Vec<String>,
    /// The key that each of its specifiers stands for.
    pub resolved: Table<String>,
    /// The keys of the modules that every clause asks for with `import defer`.
    pub deferred_deps: Vec<String>,
    pub tables: ExportTables,
}

/// The modules that are known.
pub struct Graph {
    pub modules: Vec<Module>,
    /// The keys that have a module source object.
    pub sources: Vec<String>,
}

/// The place of the first module with a key, from the one at `i` on.
pub open spec fn find_from(ms: Seq<Module>, key: Seq<char>, i: nat) -> Option<usize>
    decreases ms.len() - i,
{
    if i >= ms.len() {
        None
    } else if ms[i as int].key@ == key {
        Some(i as usize)
    } else {
        find_from(ms, key, i + 1)
    }
}

impl Graph {
    /// The place of the module with a key.
    pub open spec fn place(self, key: Seq<char>) -> Option<usize> {
        find_from(self.modules@, key, 0)
    }

    /// Whether a key has a module source object.
    pub open spec fn has_source(self, key: Seq<char>) -> bool {
        texts(self.sources@).contains(key)
    }

    /// A graph without modules.
    pub fn new() -> (g: Self)
        ensures
            g.modules@ == Seq::<Module>::empty(),
            g.sources@ == Seq::<String>::empty(),
    {
        Graph { modules: Vec::new(), sources: Vec::new() }
    }

    /// The place of the module with a key.
    pub fn find(&self, key: &str) -> (r: Option<usize>)
        ensures
            r == self.place(key@),
            r matches Some(m) ==> m < self.modules@.len() && self.modules@[m as int].key@ == key@,
    {
        let mut i: usize = 0;
        while i < self.modules.len()
            invariant
                i <= self.modules.len(),
                find_from(self.modules@, key@, 0) == find_from(self.modules@, key@, i as nat),
            decreases self.modules.len() - i,
        {
            if same_text(self.modules[i].key.as_str(), key) {
                return Some(i);
            }
            i = i + 1;
        }
        None
    }

    /// Whether a key has a module source object.
    pub fn is_source(&self, key: &str) -> (r: bool)
        ensures
            r == self.has_source(key@),
    {
        holds_name(&self.sources, key)
    }
}

/// A place that was found is that of a module with the key.
pub proof fn lemma_found(ms: Seq<Module>, key: Seq<char>, i: nat)
    requires
        ms.len() <= usize::MAX,
    ensures
        find_from(ms, key, i) matches Some(m) ==> i <= m < ms.len() && ms[m as int].key@ == key,
    decreases ms.len() - i,
{
    if i < ms.len() && ms[i as int].key@ != key {
        lemma_found(ms, key, i + 1);
    }
}

} // verus!
