//! Tables from names to values, and lists of names.
use vstd::prelude::*;

use crate::text::same_text;

verus! {

/// What a list of entries maps each name to: the last entry of a name counts.
pub open spec fn entries_map<V: View>(e: Seq<(String, V)>) -> Map<Seq<char>, V::V>
    decreases e.len(),
{
    if e.len() == 0 {
        Map::empty()
    } else {
        entries_map(e.drop_last()).insert(e.last().0@, e.last().1@)
    }
}

/// The value of the last entry of a name.
pub open spec fn last_entry<V>(e: Seq<(String, V)>, name: Seq<char>) -> V
    decreases e.len(),
{
    if e.len() == 0 || e.last().0@ == name {
        e.last().1
    } else {
        last_entry(e.drop_last(), name)
    }
}

/// The names of entries, each once, in the order in which they came.
pub open spec fn names_of<V>(e: Seq<(String, V)>) -> Seq<Seq<char>>
    decreases e.len(),
{
    if e.len() == 0 {
        Seq::empty()
    } else {
        with_name(names_of(e.drop_last()), e.last().0@)
    }
}

/// A table from names to values.
pub struct Table<V> {
    entries: Vec<(String, V)>,
}

impl<V: View> View for Table<V> {
    type V = Map<Seq<char>, V::V>;

    closed spec fn view(&self) -> Map<Seq<char>, V::V> {
        entries_map(self.entries@)
    }
}

impl<V: View> Table<V> {
    /// An empty table.
    pub fn new() -> (t: Self)
        ensures
            t@ == Map::<Seq<char>, V::V>::empty(),
            t.order() == Seq::<Seq<char>>::empty(),
    {
        Table { entries: Vec::new() }
    }

    /// What is stored under a name.
    pub closed spec fn stored(self, name: Seq<char>) -> V {
        last_entry(self.entries@, name)
    }

    /// The names that have a value, each once, in the order in which they came.
    pub closed spec fn order(self) -> Seq<Seq<char>> {
        names_of(self.entries@)
    }

    /// Gives a name a value, in place of any it had.
    pub fn insert(&mut self, name: String, value: V)
        ensures
            final(self)@ == old(self)@.insert(name@, value@),
            final(self).order() == with_name(old(self).order(), name@),
    {
        let mut i: usize = self.entries.len();
        while i > 0
            invariant
                i <= self.entries.len(),
                *self == *old(self),
                forall|j: int|
                    i <= j < self.entries@.len() ==> (#[trigger] self.entries@[j]).0@ != name@,
            decreases i,
        {
            i = i - 1;
            if same_text(self.entries[i].0.as_str(), name.as_str()) {
                let ghost before = self.entries@;
                let ghost new = (name, value);
                self.entries.set(i, (name, value));
                assert(self.entries@ =~= before.update(i as int, new));
                proof {
                    lemma_replace_entry(before, i as int, new);
                }
                return;
            }
        }
        self.entries.push((name, value));
        assert(self.entries@.drop_last() =~= old(self).entries@);
    }

    /// The value of a name.
    pub fn get(&self, name: &str) -> (r: Option<&V>)
        ensures
            match r {
                Some(v) => self@.contains_key(name@) && v@ == self@[name@] && *v == self.stored(
                    name@,
                ),
                None => !self@.contains_key(name@),
            },
    {
        let mut i: usize = self.entries.len();
        assert(self.entries@.take(i as int) =~= self.entries@);
        while i > 0
            invariant
                i <= self.entries.len(),
                self@.contains_key(name@) == entries_map(self.entries@.take(i as int)).contains_key(
                    name@,
                ),
                self@.contains_key(name@) ==> self@[name@] == entries_map(
                    self.entries@.take(i as int),
                )[name@],
                self@.contains_key(name@) ==> self.stored(name@) == last_entry(
                    self.entries@.take(i as int),
                    name@,
                ),
            decreases i,
        {
            let ghost before = self.entries@.take(i as int);
            assert(before.drop_last() =~= self.entries@.take(i - 1));
            assert(before.last() == self.entries@[i - 1]);
            i = i - 1;
            if same_text(self.entries[i].0.as_str(), name) {
                return Some(&self.entries[i].1);
            }
        }
        assert(self.entries@.take(0) =~= Seq::<(String, V)>::empty());
        None
    }

    /// Whether a name has a value.
    pub fn has_name(&self, name: &str) -> (r: bool)
        ensures
            r == self@.contains_key(name@),
    {
        self.get(name).is_some()
    }

    /// Takes a name's value away.
    pub fn remove(&mut self, name: &str)
        ensures
            final(self)@ == old(self)@.remove(name@),
            final(self).order() == without(old(self).order(), name@),
    {
        let mut i: usize = self.entries.len();
        while i > 0
            invariant
                i <= self.entries.len(),
                same_but(self@, old(self)@, name@),
                without(self.order(), name@) == without(old(self).order(), name@),
                forall|j: int|
                    i <= j < self.entries@.len() ==> (#[trigger] self.entries@[j]).0@ != name@,
            decreases i,
        {
            i = i - 1;
            if same_text(self.entries[i].0.as_str(), name) {
                let ghost before = self.entries@;
                let _ = self.entries.remove(i);
                assert(self.entries@ =~= before.remove(i as int));
                proof {
                    lemma_remove_entry(before, i as int);
                    lemma_remove_name(before, i as int);
                }
                assert(same_but(self@, old(self)@, name@));
            }
        }
        proof {
            lemma_no_entry(self.entries@, name@);
            lemma_without_none(self.order(), name@);
        }
        assert(self@ =~= old(self)@.remove(name@));
    }

    /// The names that have a value, each once.
    pub fn names(&self) -> (r: Vec<String>)
        ensures
            texts(r@) == self.order(),
            distinct(texts(r@)),
            forall|n: Seq<char>| #[trigger] texts(r@).contains(n) <==> self@.contains_key(n),
    {
        let mut out: Vec<String> = Vec::new();
        let mut i: usize = 0;
        assert(self.entries@.take(0) =~= Seq::<(String, V)>::empty());
        assert(texts(out@) =~= Seq::empty());
        while i < self.entries.len()
            invariant
                i <= self.entries.len(),
                texts(out@) == names_of(self.entries@.take(i as int)),
                distinct(texts(out@)),
                forall|n: Seq<char>| #[trigger]
                    texts(out@).contains(n) <==> entries_map(
                        self.entries@.take(i as int),
                    ).contains_key(n),
            decreases self.entries.len() - i,
        {
            let ghost after = self.entries@.take(i as int + 1);
            assert(after.drop_last() =~= self.entries@.take(i as int));
            assert(after.last() == self.entries@[i as int]);
            add_name(&mut out, self.entries[i].0.as_str());
            i = i + 1;
        }
        assert(self.entries@.take(self.entries.len() as int) =~= self.entries@);
        out
    }
}

/// A list of names without one of them.
pub open spec fn without(v: Seq<Seq<char>>, name: Seq<char>) -> Seq<Seq<char>>
    decreases v.len(),
{
    if v.len() == 0 {
        v
    } else if v.last() == name {
        without(v.drop_last(), name)
    } else {
        without(v.drop_last(), name).push(v.last())
    }
}

proof fn lemma_without_holds(v: Seq<Seq<char>>, name: Seq<char>, n: Seq<char>)
    ensures
        without(v, name).contains(n) <==> v.contains(n) && n != name,
    decreases v.len(),
{
    if v.len() > 0 {
        let rest = v.drop_last();
        lemma_without_holds(rest, name, n);
        if v.contains(n) && v.last() != n {
            let k = choose|k: int| 0 <= k < v.len() && v[k] == n;
            assert(rest[k] == n);
        }
        if rest.contains(n) {
            let k = choose|k: int| 0 <= k < rest.len() && rest[k] == n;
            assert(v[k] == n);
        }
        let w = without(rest, name);
        let x = w.push(v.last());
        if w.contains(n) {
            let k = choose|k: int| 0 <= k < w.len() && w[k] == n;
            assert(x[k] == n);
        }
        assert(x[w.len() as int] == v.last());
        if x.contains(n) && n != v.last() {
            let k = choose|k: int| 0 <= k < x.len() && x[k] == n;
            assert(w[k] == n);
        }
    }
}

proof fn lemma_without_none(v: Seq<Seq<char>>, name: Seq<char>)
    requires
        !v.contains(name),
    ensures
        without(v, name) == v,
    decreases v.len(),
{
    if v.len() > 0 {
        assert(v[v.len() - 1] != name);
        assert(!v.drop_last().contains(name)) by {
            if v.drop_last().contains(name) {
                let k = choose|k: int| 0 <= k < v.len() - 1 && v.drop_last()[k] == name;
                assert(v[k] == name);
            }
        }
        lemma_without_none(v.drop_last(), name);
        assert(v.drop_last().push(v.last()) =~= v);
    }
}

proof fn lemma_without_added(v: Seq<Seq<char>>, name: Seq<char>, m: Seq<char>)
    ensures
        without(with_name(v, m), name) == (if m == name {
            without(v, name)
        } else {
            with_name(without(v, name), m)
        }),
{
    lemma_without_holds(v, name, m);
    if !v.contains(m) {
        assert(v.push(m).drop_last() =~= v);
    }
}

proof fn lemma_remove_name<V>(e: Seq<(String, V)>, i: int)
    requires
        0 <= i < e.len(),
    ensures
        without(names_of(e.remove(i)), e[i].0@) == without(names_of(e), e[i].0@),
    decreases e.len(),
{
    let name = e[i].0@;
    lemma_without_added(names_of(e.drop_last()), name, e.last().0@);
    if i == e.len() - 1 {
        assert(e.remove(i) =~= e.drop_last());
    } else {
        assert(e.remove(i).drop_last() =~= e.drop_last().remove(i));
        assert(e.remove(i).last() == e.last());
        lemma_remove_name(e.drop_last(), i);
        lemma_without_added(names_of(e.drop_last().remove(i)), name, e.last().0@);
    }
}

/// Replacing the last entry of a name gives it another value and leaves the names as they are.
proof fn lemma_replace_entry<V: View>(e: Seq<(String, V)>, i: int, new: (String, V))
    requires
        0 <= i < e.len(),
        new.0@ == e[i].0@,
        forall|j: int| i < j < e.len() ==> (#[trigger] e[j]).0@ != e[i].0@,
    ensures
        entries_map(e.update(i, new)) == entries_map(e).insert(new.0@, new.1@),
        names_of(e.update(i, new)) == names_of(e),
        names_of(e).contains(new.0@),
    decreases e.len(),
{
    let f = e.update(i, new);
    if i == e.len() - 1 {
        assert(f.drop_last() =~= e.drop_last());
        assert(entries_map(f) =~= entries_map(e).insert(new.0@, new.1@));
        let v = names_of(e.drop_last());
        assert(v.push(new.0@)[v.len() as int] == new.0@);
    } else {
        assert(f.drop_last() =~= e.drop_last().update(i, new));
        assert(f.last() == e.last());
        assert(e[e.len() - 1].0@ != e[i].0@);
        lemma_replace_entry(e.drop_last(), i, new);
        assert(entries_map(f) =~= entries_map(e).insert(new.0@, new.1@));
        let v = names_of(e.drop_last());
        let k = choose|k: int| 0 <= k < v.len() && v[k] == new.0@;
        assert(v.push(e.last().0@)[k] == new.0@);
    }
}

/// Whether two maps agree but for one name.
pub open spec fn same_but<V>(a: Map<Seq<char>, V>, b: Map<Seq<char>, V>, name: Seq<char>) -> bool {
    a.remove(name) == b.remove(name)
}

proof fn lemma_remove_entry<V: View>(e: Seq<(String, V)>, i: int)
    requires
        0 <= i < e.len(),
    ensures
        same_but(entries_map(e.remove(i)), entries_map(e), e[i].0@),
    decreases e.len(),
{
    let name = e[i].0@;
    if i == e.len() - 1 {
        assert(e.remove(i) =~= e.drop_last());
        assert(entries_map(e).remove(name) =~= entries_map(e.remove(i)).remove(name));
    } else {
        assert(e.remove(i).drop_last() =~= e.drop_last().remove(i));
        assert(e.remove(i).last() == e.last());
        lemma_remove_entry(e.drop_last(), i);
        let a = entries_map(e.drop_last().remove(i));
        let b = entries_map(e.drop_last());
        let k = e.last().0@;
        let v = e.last().1@;
        if k == name {
            assert(a.insert(k, v).remove(name) =~= a.remove(name));
            assert(b.insert(k, v).remove(name) =~= b.remove(name));
        } else {
            assert(a.insert(k, v).remove(name) =~= a.remove(name).insert(k, v));
            assert(b.insert(k, v).remove(name) =~= b.remove(name).insert(k, v));
        }
    }
}

proof fn lemma_no_entry<V: View>(e: Seq<(String, V)>, k: Seq<char>)
    requires
        forall|j: int| 0 <= j < e.len() ==> (#[trigger] e[j]).0@ != k,
    ensures
        !entries_map(e).contains_key(k),
        !names_of(e).contains(k),
    decreases e.len(),
{
    if e.len() > 0 {
        assert(e.last() == e[e.len() - 1]);
        lemma_no_entry(e.drop_last(), k);
        let v = names_of(e.drop_last());
        let x = v.push(e.last().0@);
        if x.contains(k) {
            let i = choose|i: int| 0 <= i < x.len() && x[i] == k;
            assert(v[i] == k);
        }
    }
}

/// The texts of strings.
pub open spec fn texts(v: Seq<String>) -> Seq<Seq<char>> {
    v.map_values(|s: String| s@)
}

/// Whether no item stands in a list twice.
pub open spec fn distinct(v: Seq<Seq<char>>) -> bool {
    forall|i: int, j: int| 0 <= i < j < v.len() ==> v[i] != v[j]
}

/// A list with a name added at its end, unless it is there.
pub open spec fn with_name(v: Seq<Seq<char>>, name: Seq<char>) -> Seq<Seq<char>> {
    if v.contains(name) {
        v
    } else {
        v.push(name)
    }
}

/// Whether a list holds a name.
pub fn holds_name(v: &Vec<String>, name: &str) -> (r: bool)
    ensures
        r == texts(v@).contains(name@),
{
    let mut i: usize = 0;
    while i < v.len()
        invariant
            i <= v.len(),
            forall|j: int| 0 <= j < i ==> texts(v@)[j] != name@,
        decreases v.len() - i,
    {
        if same_text(v[i].as_str(), name) {
            assert(texts(v@)[i as int] == name@);
            return true;
        }
        i = i + 1;
    }
    false
}

/// A copy of a text.
pub fn copy_text(s: &str) -> (r: String)
    ensures
        r@ == s@,
{
    s.to_owned()
}

/// Adds a name to the end of a list, unless it is there.
pub fn add_name(v: &mut Vec<String>, name: &str)
    ensures
        texts(final(v)@) == with_name(texts(old(v)@), name@),
        distinct(texts(old(v)@)) ==> distinct(texts(final(v)@)),
        forall|n: Seq<char>| #[trigger]
            texts(final(v)@).contains(n) <==> texts(old(v)@).contains(n) || n == name@,
{
    if !holds_name(v, name) {
        v.push(copy_text(name));
        assert(texts(v@) =~= texts(old(v)@).push(name@));
        assert forall|n: Seq<char>| #[trigger] texts(v@).contains(n) <==> texts(old(v)@).contains(n)
            || n == name@ by {
            if texts(old(v)@).contains(n) {
                let k = choose|k: int| 0 <= k < texts(old(v)@).len() && texts(old(v)@)[k] == n;
                assert(texts(v@)[k] == n);
            }
            if n == name@ {
                assert(texts(v@)[old(v)@.len() as int] == n);
            }
        }
    }
}

} // verus!
