//! Loading a module with all that it depends on: what is parsed and fetched next, until nothing is left.
use std::rc::Rc;
use vstd::prelude::*;

use crate::ast::Stmt;
use crate::interp::program::Loaded;
use crate::modules::exports::{asked_from, Asked};
use crate::modules::graph::{find_from, Graph, Module};
use crate::modules::instantiate::{prepare_link, prepared, Linking};
use crate::modules::order::{
    fetched_view, link_order, linked, pending, wanted, wanted_specifiers, Fetched, WALK_DEPTH,
};
use crate::modules::plan::{places, plan_module, planned};
use crate::modules::progress::PlanModule;
use crate::modules::register::{
    ask_next, collect_replies, collected, next_asked, queue_pending, records, register_step,
    replies_view, LoadError, LoadFault,
};
use crate::modules::source::{
    kind_view, typed_key, typed_module_key, typed_module_source, typed_source,
};
use crate::modules::table::{copy_text, texts};

verus! {

/// A module that was parsed and whose dependencies are being fetched.
pub struct Fetching {
    pub key: String,
    pub body: Rc<Vec<Stmt>>,
    /// What the loader replied so far.
    pub replies: Vec<Option<(String, String)>>,
}

/// A module that was parsed and whose dependencies are being fetched.
pub ghost struct FetchingView {
    pub key: Seq<char>,
    pub body: Rc<Vec<Stmt>>,
    pub replies: Seq<Option<Fetched>>,
}

impl View for Fetching {
    type V = FetchingView;

    open spec fn view(&self) -> FetchingView {
        FetchingView { key: self.key@, body: self.body, replies: replies_view(self.replies@) }
    }
}

impl FetchingView {
    /// What the module asks the loader for.
    pub open spec fn asked(self) -> Seq<Asked> {
        let all = asked_from(self.body@, self.body@.len());
        wanted(all, all.len())
    }
}

/// How far the loading of modules has come.
pub struct Loading {
    /// The modules that are still to be registered, with their texts.
    pub todo: Vec<(String, String)>,
    pub current: Option<Fetching>,
}

/// How far the loading of modules has come.
pub ghost struct LoadingView {
    pub todo: Seq<Fetched>,
    pub current: Option<FetchingView>,
}

impl View for Loading {
    type V = LoadingView;

    open spec fn view(&self) -> LoadingView {
        LoadingView {
            todo: fetched_view(self.todo@),
            current: match self.current {
                Some(c) => Some(c@),
                None => None,
            },
        }
    }
}

/// What the loader replied.
pub open spec fn reply_view(r: Option<(String, String)>) -> Option<Fetched> {
    match r {
        Some((k, t)) => Some(Fetched { key: k@, text: t@ }),
        None => None,
    }
}

/// What loading needs next.
pub enum LoadAction {
    /// A text is to be parsed as a module.
    Parse { key: String, text: String },
    /// The loader is to be asked.
    Fetch { specifier: String, referrer: String },
    /// Everything is registered.
    Done,
}

/// What loading needs next.
pub ghost enum ActionView {
    Parse(Fetched),
    Fetch(Seq<char>, Seq<char>),
    Done,
}

impl View for LoadAction {
    type V = ActionView;

    open spec fn view(&self) -> ActionView {
        match self {
            LoadAction::Parse { key, text } => ActionView::Parse(Fetched { key: key@, text: text@ }),
            LoadAction::Fetch { specifier, referrer } => ActionView::Fetch(specifier@, referrer@),
            LoadAction::Done => ActionView::Done,
        }
    }
}

/// The modules from the first on that is not known.
pub open spec fn unknown(ms: Seq<Module>, todo: Seq<Fetched>) -> Seq<Fetched>
    decreases todo.len(),
{
    if todo.len() == 0 || find_from(ms, todo[0].key, 0) is None {
        todo
    } else {
        unknown(ms, todo.drop_first())
    }
}

/// What begins the loading of a module: nothing is left to do for a key that is known, whatever its text
/// is; any other key needs a text.
pub open spec fn begun(ms: Seq<Module>, key: Seq<char>, text: Option<Seq<char>>) -> Result<
    LoadingView,
    LoadFault,
> {
    if find_from(ms, key, 0) is Some {
        Ok(LoadingView { todo: Seq::empty(), current: None })
    } else {
        match text {
            Some(t) => Ok(LoadingView { todo: seq![Fetched { key, text: t }], current: None }),
            None => Err(LoadFault::Missing(key)),
        }
    }
}

/// What the loader replied for an import: the key and the text of a module, of the type that the import
/// asks for, or an error where it found nothing.
pub open spec fn import_found(
    reply: Option<Fetched>,
    specifier: Seq<char>,
    referrer: Seq<char>,
    kind: Option<Seq<char>>,
) -> Result<Fetched, LoadFault> {
    match reply {
        Some(f) => Ok(Fetched { key: typed_key(f.key, kind), text: typed_source(f.text, kind) }),
        None => Err(LoadFault::NotFound(specifier, referrer)),
    }
}

/// What the loader replied for an import.
pub fn fetch_module(
    reply: Option<(String, String)>,
    specifier: &str,
    referrer: &str,
    kind: Option<&str>,
) -> (r: Result<(String, String), LoadError>)
    ensures
        (match r {
            Ok((k, t)) => Ok(Fetched { key: k@, text: t@ }),
            Err(e) => Err(e@),
        }) == import_found(reply_view(reply), specifier@, referrer@, kind_view(kind)),
{
    match reply {
        Some((key, text)) => Ok(
            (typed_module_key(key.as_str(), kind), typed_module_source(text.as_str(), kind)),
        ),
        None => Err(
            LoadError::NotFound { specifier: copy_text(specifier), referrer: copy_text(referrer) },
        ),
    }
}

/// What is needed once no module waits for its dependencies: the first text of an unknown module is
/// parsed, and when there is none, everything is done.
pub open spec fn needed(todo: Seq<Fetched>) -> ActionView {
    if todo.len() == 0 {
        ActionView::Done
    } else {
        ActionView::Parse(todo[0])
    }
}

impl Loading {
    /// Begins the loading of a module.
    pub fn begin(g: &Graph, key: &str, text: Option<String>) -> (r: Result<Loading, LoadError>)
        ensures
            (match r {
                Ok(l) => Ok(l@),
                Err(e) => Err(e@),
            }) == begun(
                g.modules@,
                key@,
                match text {
                    Some(t) => Some(t@),
                    None => None,
                },
            ),
    {
        let mut todo: Vec<(String, String)> = Vec::new();
        if g.find(key).is_some() {
            assert(fetched_view(todo@) =~= Seq::empty());
            return Ok(Loading { todo, current: None });
        }
        match text {
            Some(t) => {
                let ghost f = Fetched { key: key@, text: t@ };
                todo.push((copy_text(key), t));
                assert(fetched_view(todo@) =~= seq![f]);
                Ok(Loading { todo, current: None })
            },
            None => Err(LoadError::Missing { key: copy_text(key) }),
        }
    }

    /// What is needed next. A module whose dependencies were all fetched is registered; those of them
    /// that are not known are loaded before anything else that is left. What is known is passed by.
    pub fn next(&mut self, g: &mut Graph, loader: bool) -> (r: Result<LoadAction, LoadError>)
        ensures
            match old(self)@.current {
                None => {
                    &&& *final(g) == *old(g)
                    &&& final(self)@ == (LoadingView {
                        todo: unknown(old(g).modules@, old(self)@.todo),
                        current: None,
                    })
                    &&& r matches Ok(a) && a@ == needed(final(self)@.todo)
                },
                Some(c) => match next_asked(c.key, c.asked(), c.replies, loader) {
                    Some((s, k)) => {
                        &&& *final(g) == *old(g)
                        &&& final(self)@ == old(self)@
                        &&& r matches Ok(a) && a@ == ActionView::Fetch(s, k)
                    },
                    None => match collected(c.asked(), c.replies, c.key, loader, c.asked().len()) {
                        Err(f) => {
                            &&& *final(g) == *old(g)
                            &&& final(self)@ == old(self)@
                            &&& r matches Err(e) && e@ == f
                        },
                        Ok(fetched) => {
                            let known = find_from(old(g).modules@, c.key, 0) is Some;
                            let more = if known {
                                Seq::empty()
                            } else {
                                pending(old(g), c.asked(), fetched, c.asked().len())
                            };
                            &&& known ==> *final(g) == *old(g)
                            &&& !known ==> {
                                &&& final(g).sources == old(g).sources
                                &&& final(g).modules@.len() == old(g).modules@.len() + 1
                                &&& final(g).modules@.drop_last() == old(g).modules@
                                &&& records(
                                    final(g).modules@.last(),
                                    c.key,
                                    c.body,
                                    c.asked(),
                                    fetched,
                                )
                            }
                            &&& final(self)@ == (LoadingView {
                                todo: unknown(final(g).modules@, more + old(self)@.todo),
                                current: None,
                            })
                            &&& r matches Ok(a) && a@ == needed(final(self)@.todo)
                        },
                    },
                },
            },
    {
        match &self.current {
            Some(c) => {
                match ask_next(c.key.as_str(), &c.body, &c.replies, loader) {
                    Some((specifier, referrer)) => {
                        return Ok(LoadAction::Fetch { specifier, referrer });
                    },
                    None => {},
                }
                let asked = wanted_specifiers(&c.body);
                let fetched = match collect_replies(c.key.as_str(), &asked, &c.replies, loader) {
                    Ok(v) => v,
                    Err(e) => return Err(e),
                };
                let key = copy_text(c.key.as_str());
                let body = Rc::clone(&c.body);
                let first = register_step(g, key, body, &asked, &fetched);
                let mut behind: Vec<(String, String)> = Vec::new();
                std::mem::swap(&mut behind, &mut self.todo);
                self.todo = queue_pending(first, behind);
                self.current = None;
            },
            None => {},
        }
        Ok(self.pass_known(g))
    }

    /// Passes by what is known: what is needed then.
    fn pass_known(&mut self, g: &Graph) -> (r: LoadAction)
        requires
            old(self).current is None,
        ensures
            final(self)@ == (LoadingView {
                todo: unknown(g.modules@, old(self)@.todo),
                current: None,
            }),
            r@ == needed(final(self)@.todo),
    {
        while self.todo.len() > 0
            invariant
                self.current is None,
                unknown(g.modules@, self@.todo) == unknown(g.modules@, old(self)@.todo),
            decreases self.todo.len(),
        {
            assert(self@.todo[0].key == self.todo@[0].0@);
            if g.find(self.todo[0].0.as_str()).is_none() {
                return LoadAction::Parse {
                    key: copy_text(self.todo[0].0.as_str()),
                    text: copy_text(self.todo[0].1.as_str()),
                };
            }
            let ghost before = self@.todo;
            let _ = self.todo.remove(0);
            assert(self@.todo =~= before.drop_first());
        }
        LoadAction::Done
    }

    /// The text that was to be parsed is this module.
    pub fn parsed(&mut self, body: Rc<Vec<Stmt>>)
        ensures
            final(self)@ == (if old(self)@.todo.len() > 0 {
                LoadingView {
                    todo: old(self)@.todo.drop_first(),
                    current: Some(
                        FetchingView { key: old(self)@.todo[0].key, body, replies: Seq::empty() },
                    ),
                }
            } else {
                old(self)@
            }),
    {
        if self.todo.len() > 0 {
            let (key, _) = self.todo.remove(0);
            assert(self@.todo =~= old(self)@.todo.drop_first());
            let replies: Vec<Option<(String, String)>> = Vec::new();
            assert(replies_view(replies@) =~= Seq::empty());
            self.current = Some(Fetching { key, body, replies });
        }
    }

    /// What the loader replied: the key and the text of a module, or nothing.
    pub fn replied(&mut self, reply: Option<(String, String)>)
        ensures
            final(self)@ == (match old(self)@.current {
                Some(c) => LoadingView {
                    todo: old(self)@.todo,
                    current: Some(
                        FetchingView {
                            replies: c.replies.push(reply_view(reply)),
                            ..c
                        },
                    ),
                },
                None => old(self)@,
            }),
    {
        match self.current.take() {
            Some(c) => {
                let mut c = c;
                let ghost before = c@;
                let ghost shown = reply_view(reply);
                c.replies.push(reply);
                assert(c@.replies =~= before.replies.push(shown));
                self.current = Some(c);
            },
            None => {},
        }
    }
}

/// Loading a module whose key is known neither parses a text nor asks the loader, and there need not be a
/// text: it is done at once.
pub proof fn known_modules_load_at_once(ms: Seq<Module>, key: Seq<char>, text: Option<Seq<char>>)
    requires
        find_from(ms, key, 0) is Some,
    ensures
        begun(ms, key, text) matches Ok(l) && l.current is None && needed(unknown(ms, l.todo))
            == ActionView::Done,
{
}

/// A text is only parsed for a key that is not known.
pub proof fn known_modules_are_not_parsed(ms: Seq<Module>, todo: Seq<Fetched>)
    ensures
        needed(unknown(ms, todo)) matches ActionView::Parse(f) ==> find_from(ms, f.key, 0) is None,
    decreases todo.len(),
{
    if todo.len() > 0 && find_from(ms, todo[0].key, 0) is Some {
        known_modules_are_not_parsed(ms, todo.drop_first());
    }
}

/// The modules of a graph as they are linked and evaluated for the one with a key, where the names of each
/// are in a scope of its own and those in `already` are linked. Nothing for a key that is not known.
pub fn load_graph(g: &Graph, key: &str, scopes: &Vec<usize>, already: &Vec<String>) -> (r: Option<
    Loaded,
>)
    requires
        scopes@.len() == g.modules@.len(),
    ensures
        r is Some <==> g.place(key@) is Some,
        r matches Some(l) ==> {
            let keys = linked(
                g,
                key@,
                crate::modules::order::Linking { begun: texts(already@), done: Seq::empty() },
                WALK_DEPTH,
            ).done;
            let found = places(g, keys, keys.len());
            &&& g.place(key@) == Some(l.place)
            &&& l.plan@.len() == g.modules@.len()
            &&& forall|i: int|
                0 <= i < l.plan@.len() ==> planned(
                    g,
                    i as usize,
                    scopes@[i],
                    #[trigger] l.plan@[i],
                )
            &&& l.order@.len() == found.len()
            &&& forall|i: int|
                0 <= i < l.order@.len() ==> (#[trigger] l.order@[i]).0 == found[i] && prepared(
                    g,
                    found[i],
                    scopes@[found[i] as int],
                    l.order@[i].1,
                )
        },
{
    let place: usize = match g.find(key) {
        Some(p) => p,
        None => return None,
    };
    let mut plan: Vec<PlanModule> = Vec::new();
    let mut i: usize = 0;
    while i < g.modules.len()
        invariant
            i <= g.modules.len(),
            scopes@.len() == g.modules@.len(),
            plan@.len() == i,
            forall|j: int|
                0 <= j < i ==> planned(g, j as usize, scopes@[j], #[trigger] plan@[j]),
        decreases g.modules.len() - i,
    {
        plan.push(plan_module(g, i, scopes[i]));
        i = i + 1;
    }
    let keys = link_order(g, key, already);
    let mut order: Vec<(usize, Linking)> = Vec::new();
    let mut k: usize = 0;
    while k < keys.len()
        invariant
            k <= keys.len(),
            scopes@.len() == g.modules@.len(),
            order@.len() == places(g, texts(keys@), k as nat).len(),
            forall|j: int|
                0 <= j < order@.len() ==> (#[trigger] order@[j]).0 == places(
                    g,
                    texts(keys@),
                    k as nat,
                )[j] && prepared(g, order@[j].0, scopes@[order@[j].0 as int], order@[j].1),
        decreases keys.len() - k,
    {
        assert(texts(keys@)[k as int] == keys@[k as int]@);
        match g.find(keys[k].as_str()) {
            Some(m) => {
                order.push((m, prepare_link(g, m, scopes[m])));
            },
            None => {},
        }
        k = k + 1;
    }
    Some(Loaded { plan, place, order })
}

} // verus!
