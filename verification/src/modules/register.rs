//! Registering modules: a loader is asked for what each module names, and every module that is found is
//! registered once.
use std::rc::Rc;
use vstd::prelude::*;

use crate::ast::Stmt;
use crate::modules::exports::{asked_from, asked_view, tables_from, Asked};
use crate::modules::graph::{find_from, Graph, Module};
use crate::modules::order::{
    asks_for, fetched_keys, fetched_view, only_deferred, pending, register_module, resolution, wanted,
    wanted_specifiers, Fetched,
};
use crate::modules::table::{copy_text, texts};
use crate::text::join;

verus! {

/// Why a module cannot be loaded, which is a `TypeError`.
#[derive(Debug)]
pub enum LoadError {
    /// The loader found nothing for a specifier of the module with a key.
    NotFound { specifier: String, referrer: String },
    /// There is no text for a key.
    Missing { key: String },
    /// There is no loader.
    NoLoader,
}

/// Why a module cannot be loaded.
pub ghost enum LoadFault {
    NotFound(Seq<char>, Seq<char>),
    Missing(Seq<char>),
    NoLoader,
}

impl View for LoadError {
    type V = LoadFault;

    open spec fn view(&self) -> LoadFault {
        match self {
            LoadError::NotFound { specifier, referrer } => LoadFault::NotFound(
                specifier@,
                referrer@,
            ),
            LoadError::Missing { key } => LoadFault::Missing(key@),
            LoadError::NoLoader => LoadFault::NoLoader,
        }
    }
}

/// The message of a load error.
pub open spec fn load_text(f: LoadFault) -> Seq<char> {
    match f {
        LoadFault::NotFound(s, r) => "module not found: "@ + s + " (imported from "@ + r + ")"@,
        LoadFault::Missing(k) => "module not found: "@ + k,
        LoadFault::NoLoader => "no module loader configured"@,
    }
}

impl LoadError {
    /// The message of a load error.
    pub fn message(&self) -> (r: String)
        ensures
            r@ == load_text(self@),
    {
        match self {
            LoadError::NotFound { specifier, referrer } => {
                let a = join("module not found: ", specifier.as_str());
                let b = join(a.as_str(), " (imported from ");
                let c = join(b.as_str(), referrer.as_str());
                join(c.as_str(), ")")
            },
            LoadError::Missing { key } => join("module not found: ", key.as_str()),
            LoadError::NoLoader => copy_text("no module loader configured"),
        }
    }
}

/// What the loader replied: a key and a text, or nothing.
pub open spec fn replies_view(v: Seq<Option<(String, String)>>) -> Seq<Option<Fetched>> {
    v.map_values(
        |r: Option<(String, String)>|
            match r {
                Some((k, t)) => Some(Fetched { key: k@, text: t@ }),
                None => None,
            },
    )
}

/// What is asked of the loader next: the specifier behind those that it replied to, from the module with
/// a key. Nothing is asked once a reply was missing.
pub open spec fn next_asked(
    key: Seq<char>,
    asked: Seq<Asked>,
    replies: Seq<Option<Fetched>>,
    loader: bool,
) -> Option<(Seq<char>, Seq<char>)> {
    if loader && replies.len() < asked.len() && forall|i: int|
        0 <= i < replies.len() ==> #[trigger] replies[i] is Some {
        Some((asked[replies.len() as int].specifier, key))
    } else {
        None
    }
}

/// What is asked of the loader next, for the module with a key and a body, and who asks: each specifier
/// once, in the order of the source, until one is not found. Without a loader nothing is asked.
pub fn ask_next(
    key: &str,
    body: &Vec<Stmt>,
    replies: &Vec<Option<(String, String)>>,
    loader: bool,
) -> (r: Option<(String, String)>)
    ensures
        match r {
            Some((s, k)) => Some((s@, k@)),
            None => None,
        } == next_asked(
            key@,
            wanted(asked_from(body@, body@.len()), asked_from(body@, body@.len()).len()),
            replies_view(replies@),
            loader,
        ),
{
    let asked = wanted_specifiers(body);
    let ghost v = replies_view(replies@);
    let mut i: usize = 0;
    while i < replies.len()
        invariant
            i <= replies.len(),
            v == replies_view(replies@),
            forall|j: int| 0 <= j < i ==> #[trigger] v[j] is Some,
        decreases replies.len() - i,
    {
        if replies[i].is_none() {
            assert(v[i as int] is None);
            return None;
        }
        i = i + 1;
    }
    if loader && replies.len() < asked.len() {
        assert(asked_view(asked@)[replies@.len() as int].specifier == asked@[replies@.len() as int].0@);
        Some((copy_text(asked[replies.len()].0.as_str()), copy_text(key)))
    } else {
        None
    }
}

/// What the loader's replies come to: all of what was asked for, or the error of the first that is
/// missing.
pub open spec fn collected(
    asked: Seq<Asked>,
    replies: Seq<Option<Fetched>>,
    key: Seq<char>,
    loader: bool,
    n: nat,
) -> Result<Seq<Fetched>, LoadFault>
    decreases n,
{
    if n == 0 || n > asked.len() {
        Ok(Seq::empty())
    } else {
        match collected(asked, replies, key, loader, (n - 1) as nat) {
            Ok(v) => if !loader {
                Err(LoadFault::NoLoader)
            } else if n <= replies.len() && replies[n - 1] is Some {
                Ok(v.push(replies[n - 1]->0))
            } else {
                Err(LoadFault::NotFound(asked[n - 1].specifier, key))
            },
            Err(f) => Err(f),
        }
    }
}

proof fn lemma_fault_stays(
    asked: Seq<Asked>,
    replies: Seq<Option<Fetched>>,
    key: Seq<char>,
    loader: bool,
    k: nat,
    n: nat,
)
    requires
        k <= n <= asked.len(),
        collected(asked, replies, key, loader, k) is Err,
    ensures
        collected(asked, replies, key, loader, n) == collected(asked, replies, key, loader, k),
    decreases n - k,
{
    if k < n {
        lemma_fault_stays(asked, replies, key, loader, k, (n - 1) as nat);
    }
}

/// What the loader's replies for a module come to.
pub fn collect_replies(
    key: &str,
    asked: &Vec<(String, Option<String>)>,
    replies: &Vec<Option<(String, String)>>,
    loader: bool,
) -> (r: Result<Vec<(String, String)>, LoadError>)
    ensures
        match r {
            Ok(v) => Ok(fetched_view(v@)),
            Err(e) => Err(e@),
        } == collected(
            asked_view(asked@),
            replies_view(replies@),
            key@,
            loader,
            asked@.len(),
        ),
        r matches Ok(v) ==> v@.len() == asked@.len(),
{
    let ghost a = asked_view(asked@);
    let ghost p = replies_view(replies@);
    let mut out: Vec<(String, String)> = Vec::new();
    let mut i: usize = 0;
    assert(fetched_view(out@) =~= Seq::empty());
    while i < asked.len()
        invariant
            i <= asked.len(),
            a == asked_view(asked@),
            p == replies_view(replies@),
            out@.len() == i,
            collected(a, p, key@, loader, i as nat) == Ok::<Seq<Fetched>, LoadFault>(
                fetched_view(out@),
            ),
        decreases asked.len() - i,
    {
        assert(a[i as int].specifier == asked@[i as int].0@);
        if !loader {
            proof {
                lemma_fault_stays(a, p, key@, loader, (i + 1) as nat, asked@.len());
            }
            return Err(LoadError::NoLoader);
        }
        let found: Option<(String, String)> = if i < replies.len() {
            match &replies[i] {
                Some((k, t)) => Some((copy_text(k.as_str()), copy_text(t.as_str()))),
                None => None,
            }
        } else {
            None
        };
        match found {
            Some((k, t)) => {
                let ghost before = fetched_view(out@);
                let ghost added = Fetched { key: k@, text: t@ };
                out.push((k, t));
                assert(fetched_view(out@) =~= before.push(added));
                assert(p[i as int] == Some(added));
            },
            None => {
                proof {
                    lemma_fault_stays(a, p, key@, loader, (i + 1) as nat, asked@.len());
                }
                return Err(
                    LoadError::NotFound {
                        specifier: copy_text(asked[i].0.as_str()),
                        referrer: copy_text(key),
                    },
                );
            },
        }
        i = i + 1;
    }
    Ok(out)
}

/// Whether a record is that of a module with a key and a body, for which these texts were fetched.
pub open spec fn records(
    m: Module,
    key: Seq<char>,
    body: Rc<Vec<Stmt>>,
    asked: Seq<Asked>,
    fetched: Seq<Fetched>,
) -> bool {
    &&& m.key@ == key
    &&& m.body == body
    &&& m.resolved@ == resolution(
        asked,
        fetched,
        asked.len(),
        asks_for(asked_from(body@, body@.len()), "<module source>"@),
    )
    &&& texts(m.dep_keys@) == fetched_keys(asked, fetched, asked.len())
    &&& m.tables@ == tables_from(body@, body@.len(), m.resolved@)
    &&& forall|k: Seq<char>| #[trigger]
        texts(m.deferred_deps@).contains(k) <==> only_deferred(body@, m.resolved@, k)
}

/// Registers a module, unless its key is known: what is then to be registered in turn, with its text.
pub fn register_step(
    g: &mut Graph,
    key: String,
    body: Rc<Vec<Stmt>>,
    asked: &Vec<(String, Option<String>)>,
    fetched: &Vec<(String, String)>,
) -> (r: Vec<(String, String)>)
    requires
        asked@.len() == fetched@.len(),
    ensures
        old(g).place(key@) is Some ==> *final(g) == *old(g) && fetched_view(r@) == Seq::<
            Fetched,
        >::empty(),
        old(g).place(key@) is None ==> {
            &&& final(g).sources == old(g).sources
            &&& final(g).modules@.len() == old(g).modules@.len() + 1
            &&& final(g).modules@.drop_last() == old(g).modules@
            &&& records(
                final(g).modules@.last(),
                key@,
                body,
                asked_view(asked@),
                fetched_view(fetched@),
            )
            &&& fetched_view(r@) == pending(
                old(g),
                asked_view(asked@),
                fetched_view(fetched@),
                asked@.len(),
            )
        },
{
    if g.find(key.as_str()).is_some() {
        let r: Vec<(String, String)> = Vec::new();
        assert(fetched_view(r@) =~= Seq::empty());
        return r;
    }
    let r = register_module(g, key, body, asked, fetched);
    g.modules.push(r.module);
    assert(g.modules@.drop_last() =~= old(g).modules@);
    r.pending
}

/// The modules that are to be registered after one was: those that it needs come first.
pub fn queue_pending(first: Vec<(String, String)>, behind: Vec<(String, String)>) -> (r: Vec<
    (String, String),
>)
    ensures
        fetched_view(r@) == fetched_view(first@) + fetched_view(behind@),
{
    let mut out = first;
    let mut behind = behind;
    let ghost b = behind@;
    out.append(&mut behind);
    assert(fetched_view(out@) =~= fetched_view(first@) + fetched_view(b));
    out
}

/// A key that was registered is known from then on, so that registering it again changes nothing.
pub proof fn registered_once(ms: Seq<Module>, m: Module)
    requires
        ms.len() < usize::MAX,
    ensures
        find_from(ms.push(m), m.key@, 0) is Some,
{
    lemma_known(ms, m, 0);
}

proof fn lemma_known(ms: Seq<Module>, m: Module, i: nat)
    requires
        i <= ms.len() < usize::MAX,
    ensures
        find_from(ms.push(m), m.key@, i) is Some,
    decreases ms.len() - i,
{
    if i < ms.len() {
        lemma_known(ms, m, i + 1);
    } else {
        assert(ms.push(m)[i as int] == m);
    }
}

/// A key that is known stays known, and at its place, when another module is registered.
pub proof fn known_modules_stay(ms: Seq<Module>, m: Module, key: Seq<char>, i: nat)
    requires
        find_from(ms, key, i) is Some,
    ensures
        find_from(ms.push(m), key, i) == find_from(ms, key, i),
    decreases ms.len() - i,
{
    if i < ms.len() {
        assert(ms.push(m)[i as int] == ms[i as int]);
        if ms[i as int].key@ != key {
            known_modules_stay(ms, m, key, i + 1);
        }
    }
}

} // verus!
