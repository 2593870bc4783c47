//! Shapes: numbers that stand for the keys of an object in the order in which they were added.
use vstd::prelude::*;

use crate::modules::table::copy_text;
use crate::text::same_text;

verus! {

/// What kind of key a property has.
#[derive(Clone, Copy, PartialEq, Eq, Structural, Debug)]
pub enum KeyKind {
    Text,
    Symbol,
    Private,
}

/// The key of an own property.
#[derive(Debug)]
pub struct OwnKey {
    pub kind: KeyKind,
    /// The text of the key; of a symbol, the text that its identity is kept as.
    pub text: String,
}

impl View for OwnKey {
    type V = (KeyKind, Seq<char>);

    open spec fn view(&self) -> (KeyKind, Seq<char>) {
        (self.kind, self.text@)
    }
}

impl OwnKey {
    pub fn same(&self, other: &OwnKey) -> (r: bool)
        ensures
            r == (self@ == other@),
    {
        self.kind == other.kind && same_text(self.text.as_str(), other.text.as_str())
    }

    pub fn copy(&self) -> (r: OwnKey)
        ensures
            r@ == self@,
    {
        OwnKey { kind: self.kind, text: copy_text(self.text.as_str()) }
    }
}

/// The shape of an object without properties.
pub const SHAPE_EMPTY: u32 = 0;

/// The step from a shape to the one that has one more key.
pub struct Transition {
    pub parent: u32,
    pub key: OwnKey,
    pub child: u32,
}

impl View for Transition {
    type V = (u32, (KeyKind, Seq<char>), u32);

    open spec fn view(&self) -> (u32, (KeyKind, Seq<char>), u32) {
        (self.parent, self.key@, self.child)
    }
}

/// The tree of shapes. A step with one key from one shape always leads to the same shape.
pub struct ShapeTable {
    pub transitions: Vec<Transition>,
    pub next: u32,
}

/// What a [`ShapeTable`] holds.
#[verifier::ext_equal]
pub struct ShapesView {
    pub transitions: Seq<(u32, (KeyKind, Seq<char>), u32)>,
    pub next: u32,
}

impl View for ShapeTable {
    type V = ShapesView;

    open spec fn view(&self) -> ShapesView {
        ShapesView {
            transitions: self.transitions@.map_values(|t: Transition| t@),
            next: self.next,
        }
    }
}

impl ShapesView {
    /// Whether a key leads from a shape to another.
    pub open spec fn leads(self, parent: u32, key: (KeyKind, Seq<char>), child: u32) -> bool {
        self.transitions.contains((parent, key, child))
    }

    /// Whether a key leads on from a shape.
    pub open spec fn continues(self, parent: u32, key: (KeyKind, Seq<char>)) -> bool {
        exists|child: u32| self.leads(parent, key, child)
    }

    /// The table after a new number was taken.
    pub open spec fn after_fresh(self) -> ShapesView {
        ShapesView {
            transitions: self.transitions,
            next: if self.next == u32::MAX {
                1
            } else {
                (self.next + 1) as u32
            },
        }
    }

    /// The shape that a key leads to: the one that it led to before, or a new one.
    pub open spec fn child(self, parent: u32, key: (KeyKind, Seq<char>)) -> u32 {
        if self.continues(parent, key) {
            choose|child: u32| self.leads(parent, key, child)
        } else {
            self.next
        }
    }

    /// The table after a step.
    pub open spec fn after_step(self, parent: u32, key: (KeyKind, Seq<char>)) -> ShapesView {
        if self.continues(parent, key) {
            self
        } else {
            ShapesView {
                transitions: self.transitions.push((parent, key, self.next)),
                next: self.after_fresh().next,
            }
        }
    }

    /// Steps lead to numbers that were taken, no two to the same one, each to a greater one; and one
    /// key leads from one shape to one shape.
    pub open spec fn well_formed(self) -> bool {
        &&& self.next >= 1
        &&& forall|i: int|
            #![trigger self.transitions[i]]
            0 <= i < self.transitions.len() ==> self.transitions[i].0 < self.transitions[i].2
                < self.next
        &&& forall|i: int, j: int|
            #![trigger self.transitions[i], self.transitions[j]]
            0 <= i < j < self.transitions.len() ==> self.transitions[i].2 != self.transitions[j].2
                && (self.transitions[i].0, self.transitions[i].1) != (
                self.transitions[j].0,
                self.transitions[j].1,
            )
    }

    /// The step that leads to a shape, if one does.
    pub open spec fn step_to(self, shape: u32) -> Option<(u32, (KeyKind, Seq<char>))> {
        if exists|i: int| 0 <= i < self.transitions.len() && #[trigger] self.transitions[i].2 == shape {
            let i = choose|i: int|
                0 <= i < self.transitions.len() && #[trigger] self.transitions[i].2 == shape;
            Some((self.transitions[i].0, self.transitions[i].1))
        } else {
            None
        }
    }

    /// The keys that lead from the empty shape to a shape, if it can be reached so.
    pub open spec fn keys_of(self, shape: u32) -> Option<Seq<(KeyKind, Seq<char>)>>
        decreases shape,
    {
        if shape == SHAPE_EMPTY {
            Some(Seq::empty())
        } else {
            match self.step_to(shape) {
                Some((parent, key)) => if parent < shape {
                    match self.keys_of(parent) {
                        Some(keys) => Some(keys.push(key)),
                        None => None,
                    }
                } else {
                    None
                },
                None => None,
            }
        }
    }
}

impl ShapeTable {
    /// The table with the empty shape alone.
    pub fn new() -> (t: ShapeTable)
        ensures
            t@ == (ShapesView { transitions: Seq::empty(), next: 1 }),
            t@.well_formed(),
    {
        let t = ShapeTable { transitions: Vec::new(), next: 1 };
        assert(t@.transitions =~= Seq::empty());
        t
    }

    /// A number that no shape has yet. After the last of them the numbers start again.
    pub fn fresh(&mut self) -> (id: u32)
        ensures
            id == old(self)@.next,
            final(self)@ == old(self)@.after_fresh(),
            old(self)@.well_formed() && old(self)@.next < u32::MAX ==> final(self)@.well_formed(),
    {
        let id: u32 = self.next;
        self.next = if id == u32::MAX {
            1
        } else {
            id + 1
        };
        id
    }

    /// The shape that a key leads to.
    pub fn transition(&mut self, parent: u32, key: &OwnKey) -> (child: u32)
        requires
            old(self)@.well_formed(),
        ensures
            child == old(self)@.child(parent, key@),
            final(self)@ == old(self)@.after_step(parent, key@),
            old(self)@.next < u32::MAX && parent < old(self)@.next ==> final(self)@.well_formed(),
    {
        let ghost before = self@;
        let mut i: usize = 0;
        while i < self.transitions.len()
            invariant
                i <= self.transitions.len(),
                self@ == before,
                before.well_formed(),
                forall|j: int|
                    0 <= j < i ==> (before.transitions[j].0, before.transitions[j].1) != (
                        parent,
                        key@,
                    ),
            decreases self.transitions.len() - i,
        {
            assert(before.transitions[i as int] == self.transitions@[i as int]@);
            if self.transitions[i].parent == parent && self.transitions[i].key.same(key) {
                let child: u32 = self.transitions[i].child;
                proof {
                    assert(before.leads(parent, key@, child));
                    let c = before.child(parent, key@);
                    assert(before.leads(parent, key@, c));
                    let j = choose|j: int|
                        0 <= j < before.transitions.len() && before.transitions[j] == (
                            parent,
                            key@,
                            c,
                        );
                    assert(before.transitions[j].1 == key@);
                }
                return child;
            }
            i = i + 1;
        }
        proof {
            if before.continues(parent, key@) {
                let c = choose|c: u32| before.leads(parent, key@, c);
                let j = choose|j: int|
                    0 <= j < before.transitions.len() && before.transitions[j] == (parent, key@, c);
                assert((before.transitions[j].0, before.transitions[j].1) == (parent, key@));
            }
        }
        let child = self.fresh();
        let ghost mid = self.transitions@;
        self.transitions.push(Transition { parent, key: key.copy(), child });
        assert(self@.transitions =~= before.transitions.push((parent, key@, child)));
        proof {
            if before.next < u32::MAX && parent < before.next {
                lemma_step_well_formed(before, parent, key@);
            }
        }
        child
    }
}

/// The step that leads to a shape is the one that the table holds.
proof fn lemma_step_to(t: ShapesView, i: int)
    requires
        t.well_formed(),
        0 <= i < t.transitions.len(),
    ensures
        t.step_to(t.transitions[i].2) == Some((t.transitions[i].0, t.transitions[i].1)),
        t.transitions[i].0 < t.transitions[i].2,
{
    let j = choose|j: int|
        0 <= j < t.transitions.len() && #[trigger] t.transitions[j].2 == t.transitions[i].2;
    assert(i == j);
}

/// Two shapes that stand for the same keys in the same order are the same shape.
pub proof fn keys_tell_shape(t: ShapesView, a: u32, b: u32)
    requires
        t.well_formed(),
        t.keys_of(a) is Some,
        t.keys_of(a) == t.keys_of(b),
    ensures
        a == b,
    decreases a,
{
    let keys = t.keys_of(a)->0;
    if a == SHAPE_EMPTY || b == SHAPE_EMPTY {
        assert(keys.len() == 0);
    } else {
        let (p, k) = t.step_to(a)->0;
        let (q, l) = t.step_to(b)->0;
        assert(keys == t.keys_of(p)->0.push(k));
        assert(keys == t.keys_of(q)->0.push(l));
        assert(keys.drop_last() =~= t.keys_of(p)->0);
        assert(keys.drop_last() =~= t.keys_of(q)->0);
        assert(keys.last() == k && keys.last() == l);
        keys_tell_shape(t, p, q);
        let i = choose|i: int| 0 <= i < t.transitions.len() && #[trigger] t.transitions[i].2 == a;
        let j = choose|j: int| 0 <= j < t.transitions.len() && #[trigger] t.transitions[j].2 == b;
        assert((t.transitions[i].0, t.transitions[i].1) == (
            t.transitions[j].0,
            t.transitions[j].1,
        ));
        assert(i == j);
    }
}

/// A shape goes on standing for its keys as the table grows.
pub proof fn shapes_keep_their_keys(t: ShapesView, later: ShapesView, shape: u32)
    requires
        t.well_formed(),
        later.well_formed(),
        t.keys_of(shape) is Some,
        t.transitions.len() <= later.transitions.len(),
        forall|i: int|
            0 <= i < t.transitions.len() ==> #[trigger] t.transitions[i] == later.transitions[i],
    ensures
        later.keys_of(shape) == t.keys_of(shape),
    decreases shape,
{
    if shape != SHAPE_EMPTY {
        let i = choose|i: int|
            0 <= i < t.transitions.len() && #[trigger] t.transitions[i].2 == shape;
        lemma_step_to(t, i);
        assert(later.transitions[i] == t.transitions[i]);
        lemma_step_to(later, i);
        shapes_keep_their_keys(t, later, t.transitions[i].0);
    }
}

/// A step from the shape of some keys leads to the shape of those keys and the new one.
pub proof fn step_extends(t: ShapesView, parent: u32, key: (KeyKind, Seq<char>))
    requires
        t.well_formed(),
        t.keys_of(parent) is Some,
        parent < t.next < u32::MAX,
    ensures
        t.after_step(parent, key).well_formed(),
        t.after_step(parent, key).keys_of(t.child(parent, key)) == Some(
            t.keys_of(parent)->0.push(key),
        ),
{
    let after = t.after_step(parent, key);
    let child = t.child(parent, key);
    let i = if t.continues(parent, key) {
        assert(t.leads(parent, key, child));
        choose|i: int| 0 <= i < t.transitions.len() && t.transitions[i] == (parent, key, child)
    } else {
        lemma_step_well_formed(t, parent, key);
        t.transitions.len() as int
    };
    assert(after.transitions[i] == (parent, key, child));
    shapes_keep_their_keys(t, after, parent);
    lemma_step_to(after, i);
}

/// A step that is new keeps the table in order.
proof fn lemma_step_well_formed(t: ShapesView, parent: u32, key: (KeyKind, Seq<char>))
    requires
        t.well_formed(),
        parent < t.next < u32::MAX,
        !t.continues(parent, key),
    ensures
        t.after_step(parent, key).well_formed(),
{
    let after = t.after_step(parent, key);
    assert forall|i: int, j: int|
        #![trigger after.transitions[i], after.transitions[j]]
        0 <= i < j < after.transitions.len() implies after.transitions[i].2
        != after.transitions[j].2 && (after.transitions[i].0, after.transitions[i].1) != (
        after.transitions[j].0,
        after.transitions[j].1,
    ) by {
        assert(after.transitions[i] == t.transitions[i]);
        if j < t.transitions.len() {
            assert(after.transitions[j] == t.transitions[j]);
        } else if (t.transitions[i].0, t.transitions[i].1) == (parent, key) {
            assert(t.leads(parent, key, t.transitions[i].2));
        }
    }
    assert forall|i: int|
        #![trigger after.transitions[i]]
        0 <= i < after.transitions.len() implies after.transitions[i].0 < after.transitions[i].2
        < after.next by {
        if i < t.transitions.len() {
            assert(after.transitions[i] == t.transitions[i]);
        }
    }
}

} // verus!
