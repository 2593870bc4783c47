//! The own properties of an object, in the order in which they were added.
use vstd::prelude::*;

use crate::bigint::{digit_of, digit_value, digits_value, is_digit};
use crate::interp::session::Value;
use crate::text::{decimal, decimal_string, join, to_chars};
use crate::value::shape::{
    keys_tell_shape, step_extends, KeyKind, OwnKey, ShapeTable, ShapesView, SHAPE_EMPTY,
};

verus! {

/// A property: a value, or an accessor with its halves.
#[derive(Clone, Copy, PartialEq, Eq, Structural, Debug)]
pub struct Property {
    pub value: Value,
    pub get: Option<Value>,
    pub set: Option<Value>,
    pub accessor: bool,
    pub writable: bool,
    pub enumerable: bool,
    pub configurable: bool,
}

impl Property {
    pub open spec fn of(value: Value, writable: bool, enumerable: bool, configurable: bool) -> Property {
        Property { value, get: None, set: None, accessor: false, writable, enumerable, configurable }
    }

    /// A property with a value.
    pub fn data(value: Value, writable: bool, enumerable: bool, configurable: bool) -> (r: Property)
        ensures
            r == Property::of(value, writable, enumerable, configurable),
    {
        Property { value, get: None, set: None, accessor: false, writable, enumerable, configurable }
    }

    /// A property as assignment makes it.
    pub fn plain(value: Value) -> (r: Property)
        ensures
            r == Property::of(value, true, true, true),
    {
        Property::data(value, true, true, true)
    }

    /// A property as the built-in objects have them, which is not enumerated.
    pub fn builtin(value: Value) -> (r: Property)
        ensures
            r == Property::of(value, true, false, true),
    {
        Property::data(value, true, false, true)
    }
}

/// The accessor that given halves make: one that is there keeps the half that is not given.
pub open spec fn with_halves(
    existing: Option<Property>,
    get: Option<Value>,
    set: Option<Value>,
    enumerable: bool,
) -> Property {
    if existing is Some && existing->0.accessor {
        Property {
            get: if get is Some {
                get
            } else {
                existing->0.get
            },
            set: if set is Some {
                set
            } else {
                existing->0.set
            },
            ..existing->0
        }
    } else {
        Property {
            value: Value::Undefined,
            get,
            set,
            accessor: true,
            writable: false,
            enumerable,
            configurable: true,
        }
    }
}

/// The accessor that given halves make. Those of an object literal are enumerable, those of a class are
/// not.
pub fn define_accessor(
    existing: Option<Property>,
    get: Option<Value>,
    set: Option<Value>,
    enumerable: bool,
) -> (r: Property)
    ensures
        r == with_halves(existing, get, set, enumerable),
{
    match existing {
        Some(p) => {
            if p.accessor {
                return Property {
                    get: if get.is_some() {
                        get
                    } else {
                        p.get
                    },
                    set: if set.is_some() {
                        set
                    } else {
                        p.set
                    },
                    ..p
                };
            }
        },
        None => {},
    }
    Property {
        value: Value::Undefined,
        get,
        set,
        accessor: true,
        writable: false,
        enumerable,
        configurable: true,
    }
}

/// A property with the halves given in place of its own.
pub open spec fn with_new_halves(p: Property, get: Option<Value>, set: Option<Value>) -> Property {
    Property {
        get: if get is Some {
            get
        } else {
            p.get
        },
        set: if set is Some {
            set
        } else {
            p.set
        },
        ..p
    }
}

/// Gives a property the halves given in place of its own.
pub fn merge_halves(p: Property, get: Option<Value>, set: Option<Value>) -> (r: Property)
    ensures
        r == with_new_halves(p, get, set),
{
    Property {
        get: if get.is_some() {
            get
        } else {
            p.get
        },
        set: if set.is_some() {
            set
        } else {
            p.set
        },
        ..p
    }
}

/// The private accessor that given halves make.
pub open spec fn private_accessor(get: Option<Value>, set: Option<Value>) -> Property {
    Property {
        value: Value::Undefined,
        get,
        set,
        accessor: true,
        writable: false,
        enumerable: false,
        configurable: false,
    }
}

/// The private accessor that given halves make.
pub fn make_private_accessor(get: Option<Value>, set: Option<Value>) -> (r: Property)
    ensures
        r == private_accessor(get, set),
{
    Property {
        value: Value::Undefined,
        get,
        set,
        accessor: true,
        writable: false,
        enumerable: false,
        configurable: false,
    }
}

/// Defining the getter and the setter of an accessor one after the other makes the same accessor as
/// defining both at once, in either order.
pub proof fn halves_join(existing: Option<Property>, g: Value, s: Value, enumerable: bool)
    ensures
        with_halves(
            Some(with_halves(existing, Some(g), None, enumerable)),
            None,
            Some(s),
            enumerable,
        ) == with_halves(existing, Some(g), Some(s), enumerable),
        with_halves(
            Some(with_halves(existing, None, Some(s), enumerable)),
            Some(g),
            None,
            enumerable,
        ) == with_halves(existing, Some(g), Some(s), enumerable),
{
}

/// The array index that a key spells: decimal, without leading zeros, below 2^32 - 1.
pub open spec fn index_of(k: Seq<char>) -> Option<u32> {
    if k.len() > 0 && (forall|i: int| 0 <= i < k.len() ==> is_digit(#[trigger] k[i], 10)) && (k[0]
        != '0' || k.len() == 1) && digits_value(k, 10) < u32::MAX {
        Some(digits_value(k, 10) as u32)
    } else {
        None
    }
}

proof fn lemma_digits_grow(k: Seq<char>, i: int)
    requires
        0 <= i <= k.len(),
    ensures
        digits_value(k.take(i), 10) <= digits_value(k, 10),
    decreases k.len(),
{
    if i < k.len() {
        lemma_digits_grow(k.drop_last(), i);
        assert(k.drop_last().take(i) =~= k.take(i));
    } else {
        assert(k.take(i) =~= k);
    }
}

/// The array index that a key spells.
pub fn canonical_index(k: &str) -> (r: Option<u32>)
    ensures
        r == index_of(k@),
{
    let chars = to_chars(k);
    if chars.len() == 0 {
        return None;
    }
    let first: char = chars[0];
    if first == '0' && chars.len() != 1 {
        return None;
    }
    let mut n: u64 = 0;
    let mut i: usize = 0;
    assert(chars@.take(0) =~= Seq::<char>::empty());
    while i < chars.len()
        invariant
            chars@ == k@,
            i <= chars.len(),
            n == digits_value(k@.take(i as int), 10),
            n < u32::MAX,
            forall|j: int| 0 <= j < i ==> is_digit(#[trigger] k@[j], 10),
        decreases chars.len() - i,
    {
        proof {
            assert(k@.take(i as int + 1).drop_last() =~= k@.take(i as int));
            assert(k@.take(i as int + 1).last() == k@[i as int]);
            lemma_digits_grow(k@, i as int + 1);
        }
        match digit_of(chars[i]) {
            Some(d) => {
                if d >= 10 {
                    assert(!is_digit(k@[i as int], 10));
                    return None;
                }
                n = n * 10 + d as u64;
            },
            None => {
                assert(!is_digit(k@[i as int], 10));
                return None;
            },
        }
        if n >= u32::MAX as u64 {
            return None;
        }
        i = i + 1;
    }
    assert(k@.take(k@.len() as int) =~= k@);
    Some(n as u32)
}

/// The key of an array index.
pub fn index_key(n: u64) -> (r: OwnKey)
    ensures
        r@ == (KeyKind::Text, decimal(n as nat)),
{
    OwnKey { kind: KeyKind::Text, text: decimal_string(n) }
}

/// The text of an array index spells it.
pub proof fn index_keys_read_back(n: u32)
    requires
        n < u32::MAX,
    ensures
        index_of(decimal(n as nat)) == Some(n),
{
    lemma_decimal(n as nat);
}

proof fn lemma_decimal(n: nat)
    ensures
        decimal(n).len() > 0,
        forall|i: int| 0 <= i < decimal(n).len() ==> is_digit(#[trigger] decimal(n)[i], 10),
        decimal(n)[0] == '0' ==> n == 0,
        n < 10 ==> decimal(n).len() == 1,
        digits_value(decimal(n), 10) == n,
    decreases n,
{
    let s = decimal(n);
    if n < 10 {
        assert(s.drop_last() =~= Seq::<char>::empty());
        assert(digits_value(s.drop_last(), 10) == 0);
        assert(digit_value(s.last()) == Some(n));
    } else {
        lemma_decimal(n / 10);
        assert(s.drop_last() =~= decimal(n / 10));
        assert(digit_value(s.last()) == Some(n % 10));
        assert forall|i: int| 0 <= i < s.len() implies is_digit(#[trigger] s[i], 10) by {
            if i < decimal(n / 10).len() {
                assert(s[i] == decimal(n / 10)[i]);
            }
        }
        assert(s[0] == decimal(n / 10)[0]);
    }
}

/// A key that spells an array index is the text of that index.
pub proof fn index_keys_are_decimal(k: Seq<char>)
    requires
        index_of(k) is Some,
    ensures
        k == decimal(index_of(k)->0 as nat),
{
    lemma_spelled(k);
}

proof fn lemma_spelled(k: Seq<char>)
    requires
        k.len() > 0,
        forall|i: int| 0 <= i < k.len() ==> is_digit(#[trigger] k[i], 10),
        k[0] != '0' || k.len() == 1,
    ensures
        k == decimal(digits_value(k, 10)),
        k[0] != '0' ==> digits_value(k, 10) > 0,
    decreases k.len(),
{
    let last = k.last();
    assert(is_digit(k[k.len() - 1], 10));
    let d = digit_value(last)->0;
    if k.len() == 1 {
        assert(k.drop_last() =~= Seq::<char>::empty());
        assert(digits_value(k.drop_last(), 10) == 0);
        assert(k =~= seq![last]);
    } else {
        let rest = k.drop_last();
        assert forall|i: int| 0 <= i < rest.len() implies is_digit(#[trigger] rest[i], 10) by {
            assert(rest[i] == k[i]);
        }
        assert(rest[0] == k[0]);
        lemma_spelled(rest);
        let n = digits_value(k, 10);
        assert(n / 10 == digits_value(rest, 10) && n % 10 == d);
        assert(k =~= rest.push(last));
    }
}

/// Marks an index that is not in the dense part.
pub const NO_SLOT: u32 = 0xffff_ffff;

/// A property and its key.
pub struct Entry {
    pub key: OwnKey,
    pub prop: Property,
}

impl View for Entry {
    type V = ((KeyKind, Seq<char>), Property);

    open spec fn view(&self) -> ((KeyKind, Seq<char>), Property) {
        (self.key@, self.prop)
    }
}

/// The own properties of an object.
pub struct Props {
    entries: Vec<Entry>,
    shape: u32,
    elems: Vec<u32>,
}

/// What [`Props`] hold: the properties in the order in which they were added, the shape, and for
/// array indices, as far as they lie close together, the places of their properties.
#[verifier::ext_equal]
pub struct PropsView {
    pub entries: Seq<((KeyKind, Seq<char>), Property)>,
    pub shape: u32,
    pub elems: Seq<u32>,
}

impl View for Props {
    type V = PropsView;

    closed spec fn view(&self) -> PropsView {
        PropsView {
            entries: self.entries@.map_values(|e: Entry| e@),
            shape: self.shape,
            elems: self.elems@,
        }
    }
}

/// The places of array indices once one more property is noted. An index far behind the others is
/// left out.
pub open spec fn noted(elems: Seq<u32>, slot: nat, key: (KeyKind, Seq<char>)) -> Seq<u32> {
    if slot >= NO_SLOT || key.0 != KeyKind::Text {
        elems
    } else {
        match index_of(key.1) {
            Some(n) => if n < elems.len() {
                elems.update(n as int, slot as u32)
            } else if n <= elems.len() + 32 {
                (elems + Seq::new((n - elems.len()) as nat, |i: int| NO_SLOT)).push(slot as u32)
            } else {
                elems
            },
            None => elems,
        }
    }
}

/// The places of the array indices among the first properties.
pub open spec fn all_noted(entries: Seq<((KeyKind, Seq<char>), Property)>, count: nat) -> Seq<u32>
    decreases count,
{
    if count == 0 {
        Seq::empty()
    } else {
        noted(
            all_noted(entries, (count - 1) as nat),
            (count - 1) as nat,
            entries[count - 1].0,
        )
    }
}

/// A place after the property at `gone` was taken out.
pub open spec fn shifted(slot: u32, gone: nat) -> u32 {
    if slot == NO_SLOT || slot == gone {
        NO_SLOT
    } else if slot > gone {
        (slot - 1) as u32
    } else {
        slot
    }
}

/// Whether a key is no array index from `from` on.
pub open spec fn stays(key: (KeyKind, Seq<char>), from: nat) -> bool {
    key.0 != KeyKind::Text || (match index_of(key.1) {
        Some(n) => n < from,
        None => true,
    })
}

/// The properties that are no array indices from `from` on.
pub open spec fn staying(e: Seq<((KeyKind, Seq<char>), Property)>, from: nat) -> Seq<
    ((KeyKind, Seq<char>), Property),
>
    decreases e.len(),
{
    if e.len() == 0 {
        Seq::empty()
    } else if stays(e.last().0, from) {
        staying(e.drop_last(), from).push(e.last())
    } else {
        staying(e.drop_last(), from)
    }
}

impl PropsView {
    /// No key occurs twice, and the places of array indices hold the properties of those indices.
    pub open spec fn well_formed(self) -> bool {
        &&& forall|i: int, j: int|
            #![trigger self.entries[i], self.entries[j]]
            0 <= i < j < self.entries.len() ==> self.entries[i].0 != self.entries[j].0
        &&& forall|n: int|
            #![trigger self.elems[n]]
            0 <= n < self.elems.len() && self.elems[n] != NO_SLOT ==> self.elems[n]
                < self.entries.len() && self.entries[self.elems[n] as int].0 == (
                KeyKind::Text,
                decimal(n as nat),
            )
    }

    pub open spec fn has_key(self, key: (KeyKind, Seq<char>)) -> bool {
        exists|i: int| 0 <= i < self.entries.len() && #[trigger] self.entries[i].0 == key
    }

    /// The place of a key.
    pub open spec fn slot(self, key: (KeyKind, Seq<char>)) -> int {
        choose|i: int| 0 <= i < self.entries.len() && #[trigger] self.entries[i].0 == key
    }

    /// The keys in the order in which they were added.
    pub open spec fn added(self) -> Seq<(KeyKind, Seq<char>)> {
        self.entries.map_values(|e: ((KeyKind, Seq<char>), Property)| e.0)
    }

    /// Whether a table of shapes is in order and knows the shape.
    pub open spec fn is_known(self, shapes: ShapesView) -> bool {
        shapes.well_formed() && self.shape < shapes.next
    }

    /// After a property was given a value: in its place if it is there, else at the end.
    pub open spec fn inserted(
        self,
        shapes: ShapesView,
        key: (KeyKind, Seq<char>),
        prop: Property,
    ) -> PropsView {
        if self.has_key(key) {
            PropsView {
                entries: self.entries.update(self.slot(key), (key, prop)),
                shape: self.shape,
                elems: self.elems,
            }
        } else {
            PropsView {
                entries: self.entries.push((key, prop)),
                shape: shapes.child(self.shape, key),
                elems: noted(self.elems, self.entries.len(), key),
            }
        }
    }

    /// After a property was taken out. The shape is then one that no other object has.
    pub open spec fn removed(self, shapes: ShapesView, key: (KeyKind, Seq<char>)) -> PropsView {
        if self.has_key(key) {
            let i = self.slot(key);
            PropsView {
                entries: self.entries.remove(i),
                shape: shapes.next,
                elems: self.elems.map_values(|s: u32| shifted(s, i as nat)),
            }
        } else {
            self
        }
    }

    /// After the array indices from `from` on were taken out.
    pub open spec fn truncated(self, shapes: ShapesView, from: nat) -> PropsView {
        let kept = staying(self.entries, from);
        if kept.len() == self.entries.len() {
            self
        } else {
            PropsView { entries: kept, shape: shapes.next, elems: all_noted(kept, kept.len()) }
        }
    }

    /// Whether the properties are the elements of an array, all of them dense.
    pub open spec fn is_dense(self) -> bool {
        &&& self.elems.len() == self.entries.len() < NO_SLOT
        &&& forall|n: int|
            #![trigger self.entries[n]]
            #![trigger self.elems[n]]
            0 <= n < self.entries.len() ==> self.entries[n].0 == (KeyKind::Text, decimal(n as nat))
                && self.elems[n] == n
    }

    /// Whether the shape stands for the keys.
    pub open spec fn is_shaped(self, shapes: ShapesView) -> bool {
        shapes.keys_of(self.shape) == Some(self.added())
    }
}

/// Noting one more property keeps the places right.
proof fn lemma_noted(p: PropsView, key: (KeyKind, Seq<char>), prop: Property)
    requires
        p.well_formed(),
        !p.has_key(key),
    ensures
        forall|n: int|
            #![trigger noted(p.elems, p.entries.len(), key)[n]]
            0 <= n < noted(p.elems, p.entries.len(), key).len() && noted(
                p.elems,
                p.entries.len(),
                key,
            )[n] != NO_SLOT ==> noted(p.elems, p.entries.len(), key)[n] < p.entries.len() + 1
                && p.entries.push((key, prop))[noted(
                p.elems,
                p.entries.len(),
                key,
            )[n] as int].0 == (KeyKind::Text, decimal(n as nat)),
{
    let after = noted(p.elems, p.entries.len(), key);
    let e = p.entries.push((key, prop));
    if key.0 == KeyKind::Text && index_of(key.1) is Some {
        index_keys_are_decimal(key.1);
    }
    assert forall|n: int|
        #![trigger after[n]]
        0 <= n < after.len() && after[n] != NO_SLOT implies after[n] < p.entries.len() + 1
        && e[after[n] as int].0 == (KeyKind::Text, decimal(n as nat)) by {
        if n < p.elems.len() && after[n] == p.elems[n] {
            assert(p.entries[p.elems[n] as int].0 == (KeyKind::Text, decimal(n as nat)));
        }
    }
}

impl Props {
    /// No properties.
    pub fn new() -> (r: Props)
        ensures
            r@ == (PropsView { entries: Seq::empty(), shape: SHAPE_EMPTY, elems: Seq::empty() }),
            r@.well_formed(),
    {
        let r = Props { entries: Vec::new(), shape: SHAPE_EMPTY, elems: Vec::new() };
        assert(r@.entries =~= Seq::empty());
        assert(r@.elems =~= Seq::empty());
        r
    }

    /// The shape.
    pub fn shape(&self) -> (r: u32)
        ensures
            r == self@.shape,
    {
        self.shape
    }

    /// The number of properties.
    pub fn len(&self) -> (r: usize)
        ensures
            r == self@.entries.len(),
    {
        self.entries.len()
    }

    /// The property at an array index, if it is among the dense ones.
    pub fn get_index(&self, n: u32) -> (r: Option<&Property>)
        requires
            self@.well_formed(),
        ensures
            match r {
                Some(p) => n < self@.elems.len() && self@.elems[n as int] != NO_SLOT
                    && self@.entries[self@.elems[n as int] as int] == (
                    (KeyKind::Text, decimal(n as nat)),
                    *p,
                ),
                None => n >= self@.elems.len() || self@.elems[n as int] == NO_SLOT,
            },
    {
        if n as usize >= self.elems.len() {
            return None;
        }
        let slot: u32 = self.elems[n as usize];
        if slot == NO_SLOT {
            return None;
        }
        proof {
            assert(self@.elems[n as int] == slot);
            assert(self@.entries[slot as int] == self.entries@[slot as int]@);
        }
        Some(&self.entries[slot as usize].prop)
    }

    /// The place of a key.
    pub fn slot_of(&self, key: &OwnKey) -> (r: Option<usize>)
        requires
            self@.well_formed(),
        ensures
            match r {
                Some(i) => self@.has_key(key@) && i == self@.slot(key@) && i < self@.entries.len()
                    && self@.entries[i as int].0 == key@,
                None => !self@.has_key(key@),
            },
    {
        let mut i: usize = 0;
        while i < self.entries.len()
            invariant
                i <= self.entries.len(),
                self@.well_formed(),
                forall|j: int| 0 <= j < i ==> (#[trigger] self@.entries[j]).0 != key@,
            decreases self.entries.len() - i,
        {
            assert(self@.entries[i as int] == self.entries@[i as int]@);
            if self.entries[i].key.same(key) {
                proof {
                    let s = self@.slot(key@);
                    assert(self@.entries[i as int].0 == key@);
                    assert(self@.entries[s].0 == key@);
                }
                return Some(i);
            }
            i = i + 1;
        }
        None
    }

    /// The property of a key.
    pub fn get(&self, key: &OwnKey) -> (r: Option<&Property>)
        requires
            self@.well_formed(),
        ensures
            match r {
                Some(p) => self@.has_key(key@) && self@.entries[self@.slot(key@)] == (key@, *p),
                None => !self@.has_key(key@),
            },
    {
        match self.slot_of(key) {
            Some(i) => {
                assert(self@.entries[i as int] == self.entries@[i as int]@);
                Some(&self.entries[i].prop)
            },
            None => None,
        }
    }

    /// The property of an array index that is among the dense ones, to be changed in its place.
    pub fn get_index_mut(&mut self, n: u32) -> (r: Option<&mut Property>)
        requires
            old(self)@.well_formed(),
        ensures
            match r {
                Some(p) => {
                    let slot = old(self)@.elems[n as int] as int;
                    &&& n < old(self)@.elems.len()
                    &&& old(self)@.elems[n as int] != NO_SLOT
                    &&& old(self)@.entries[slot].1 == *p
                    &&& final(self)@ == (PropsView {
                        entries: old(self)@.entries.update(
                            slot,
                            (old(self)@.entries[slot].0, *final(p)),
                        ),
                        ..old(self)@
                    })
                },
                None => (n < old(self)@.elems.len() ==> old(self)@.elems[n as int] == NO_SLOT)
                    && *final(self) == *old(self),
            },
    {
        if n as usize >= self.elems.len() {
            return None;
        }
        let slot: u32 = self.elems[n as usize];
        if slot == NO_SLOT {
            return None;
        }
        proof {
            assert(self@.elems[n as int] == slot);
            assert(self@.entries[slot as int] == self.entries@[slot as int]@);
        }
        Some(&mut self.entries[slot as usize].prop)
    }

    /// The property of a key, to be changed in its place.
    pub fn get_mut(&mut self, key: &OwnKey) -> (r: Option<&mut Property>)
        requires
            old(self)@.well_formed(),
        ensures
            match r {
                Some(p) => {
                    let slot = old(self)@.slot(key@);
                    &&& old(self)@.has_key(key@)
                    &&& old(self)@.entries[slot] == (key@, *p)
                    &&& final(self)@ == (PropsView {
                        entries: old(self)@.entries.update(slot, (key@, *final(p))),
                        ..old(self)@
                    })
                },
                None => !old(self)@.has_key(key@) && *final(self) == *old(self),
            },
    {
        match self.slot_of(key) {
            Some(i) => {
                assert(self@.entries[i as int] == self.entries@[i as int]@);
                Some(&mut self.entries[i].prop)
            },
            None => None,
        }
    }

    /// Whether a key has a property.
    pub fn contains(&self, key: &OwnKey) -> (r: bool)
        requires
            self@.well_formed(),
        ensures
            r == self@.has_key(key@),
    {
        self.slot_of(key).is_some()
    }

    /// The property at a place, with its key.
    pub fn entry_at(&self, slot: usize) -> (r: Option<&Entry>)
        ensures
            match r {
                Some(e) => slot < self@.entries.len() && e@ == self@.entries[slot as int],
                None => slot >= self@.entries.len(),
            },
    {
        if slot < self.entries.len() {
            assert(self@.entries[slot as int] == self.entries@[slot as int]@);
            Some(&self.entries[slot])
        } else {
            None
        }
    }

    /// Notes the place of a property whose key is an array index.
    fn note_inserted(&mut self, slot: usize)
        requires
            slot < old(self)@.entries.len(),
        ensures
            final(self)@ == (PropsView {
                elems: noted(old(self)@.elems, slot as nat, old(self)@.entries[slot as int].0),
                ..old(self)@
            }),
    {
        let ghost before = self@;
        assert(self@.entries[slot as int] == self.entries@[slot as int]@);
        if slot >= NO_SLOT as usize {
            return;
        }
        match self.entries[slot].key.kind {
            KeyKind::Text => {},
            _ => {
                return;
            },
        }
        let n: usize = match canonical_index(self.entries[slot].key.text.as_str()) {
            Some(n) => n as usize,
            None => {
                return;
            },
        };
        let count: usize = self.elems.len();
        if n < count {
            self.elems.set(n, slot as u32);
        } else if n - count <= 32 {
            let mut k: usize = count;
            while k < n
                invariant
                    count <= k <= n,
                    self.elems@ == before.elems + Seq::new((k - count) as nat, |i: int| NO_SLOT),
                    before.elems.len() == count,
                    self.entries@ == old(self).entries@,
                    self.shape == before.shape,
                decreases n - k,
            {
                self.elems.push(NO_SLOT);
                k = k + 1;
                assert(self.elems@ =~= before.elems + Seq::new((k - count) as nat, |i: int| NO_SLOT));
            }
            self.elems.push(slot as u32);
        }
    }

    /// Gives a key a property.
    pub fn insert(&mut self, shapes: &mut ShapeTable, key: OwnKey, prop: Property)
        requires
            old(self)@.well_formed(),
            old(shapes)@.well_formed(),
        ensures
            final(self)@ == old(self)@.inserted(old(shapes)@, key@, prop),
            final(self)@.well_formed(),
            final(shapes)@ == (if old(self)@.has_key(key@) {
                old(shapes)@
            } else {
                old(shapes)@.after_step(old(self)@.shape, key@)
            }),
            old(self)@.is_known(old(shapes)@) && old(shapes)@.next < u32::MAX ==> final(self)@.is_known(
                final(shapes)@,
            ),
    {
        let ghost before = self@;
        match self.slot_of(&key) {
            Some(i) => {
                let ghost k = key@;
                self.entries.set(i, Entry { key, prop });
                assert(self@.entries =~= before.entries.update(i as int, (k, prop)));
            },
            None => {
                let ghost k = key@;
                let slot: usize = self.entries.len();
                self.shape = shapes.transition(self.shape, &key);
                self.entries.push(Entry { key, prop });
                assert(self@.entries =~= before.entries.push((k, prop)));
                proof {
                    lemma_noted(before, k, prop);
                }
                self.note_inserted(slot);
            },
        }
    }

    /// Adds the next element of an array that has nothing but elements.
    pub fn push_dense(&mut self, prop: Property)
        requires
            old(self)@.is_dense(),
            old(self)@.entries.len() + 1 < NO_SLOT,
        ensures
            final(self)@ == (PropsView {
                entries: old(self)@.entries.push(
                    ((KeyKind::Text, decimal(old(self)@.entries.len())), prop),
                ),
                shape: old(self)@.shape,
                elems: old(self)@.elems.push(old(self)@.entries.len() as u32),
            }),
            final(self)@.is_dense(),
    {
        let ghost before = self@;
        let slot: usize = self.entries.len();
        self.entries.push(Entry { key: index_key(slot as u64), prop });
        self.elems.push(slot as u32);
        assert(self@.entries =~= before.entries.push(
            ((KeyKind::Text, decimal(slot as nat)), prop),
        ));
    }

    /// Takes out the property of a key.
    pub fn remove(&mut self, shapes: &mut ShapeTable, key: &OwnKey) -> (r: bool)
        requires
            old(self)@.well_formed(),
            old(self)@.entries.len() < NO_SLOT,
        ensures
            r == old(self)@.has_key(key@),
            final(self)@ == old(self)@.removed(old(shapes)@, key@),
            final(self)@.well_formed(),
            final(shapes)@ == (if r {
                old(shapes)@.after_fresh()
            } else {
                old(shapes)@
            }),
            old(self)@.is_known(old(shapes)@) && old(shapes)@.next < u32::MAX ==> final(self)@.is_known(
                final(shapes)@,
            ),
    {
        let ghost before = self@;
        let i: usize = match self.slot_of(key) {
            Some(i) => i,
            None => {
                return false;
            },
        };
        let _ = self.entries.remove(i);
        assert(self@.entries =~= before.entries.remove(i as int));
        self.shape = shapes.fresh();
        let mut n: usize = 0;
        while n < self.elems.len()
            invariant
                n <= self.elems.len(),
                self.elems.len() == before.elems.len(),
                i < NO_SLOT,
                self@.entries == before.entries.remove(i as int),
                self.shape == old(shapes)@.next,
                forall|j: int|
                    0 <= j < n ==> #[trigger] self.elems@[j] == shifted(
                        before.elems[j],
                        i as nat,
                    ),
                forall|j: int|
                    n <= j < self.elems.len() ==> #[trigger] self.elems@[j] == before.elems[j],
            decreases self.elems.len() - n,
        {
            let slot: u32 = self.elems[n];
            if slot != NO_SLOT {
                if slot as usize == i {
                    self.elems.set(n, NO_SLOT);
                } else if slot as usize > i {
                    self.elems.set(n, slot - 1);
                }
            }
            n = n + 1;
        }
        assert(self@.elems =~= before.removed(old(shapes)@, key@).elems);
        proof {
            let after = self@;
            assert forall|n: int|
                #![trigger after.elems[n]]
                0 <= n < after.elems.len() && after.elems[n] != NO_SLOT implies after.elems[n]
                < after.entries.len() && after.entries[after.elems[n] as int].0 == (
                KeyKind::Text,
                decimal(n as nat),
            ) by {
                let s = before.elems[n];
                assert(before.entries[s as int].0 == (KeyKind::Text, decimal(n as nat)));
            }
        }
        true
    }

    /// Takes out every array index from `from` on.
    pub fn remove_indices_from(&mut self, shapes: &mut ShapeTable, from: usize)
        requires
            old(self)@.well_formed(),
        ensures
            final(self)@ == old(self)@.truncated(old(shapes)@, from as nat),
            final(self)@.well_formed(),
            final(shapes)@ == (if staying(old(self)@.entries, from as nat).len()
                == old(self)@.entries.len() {
                old(shapes)@
            } else {
                old(shapes)@.after_fresh()
            }),
            old(self)@.is_known(old(shapes)@) && old(shapes)@.next < u32::MAX ==> final(self)@.is_known(
                final(shapes)@,
            ),
    {
        let ghost before = self@;
        let ghost kept = staying(before.entries, from as nat);
        let mut out: Vec<Entry> = Vec::new();
        let mut i: usize = 0;
        assert(before.entries.take(0) =~= Seq::empty());
        assert(out@.map_values(|e: Entry| e@) =~= Seq::empty());
        while i < self.entries.len()
            invariant
                self@ == before,
                i <= self.entries.len(),
                out@.map_values(|e: Entry| e@) == staying(
                    before.entries.take(i as int),
                    from as nat,
                ),
                out.len() <= i,
            decreases self.entries.len() - i,
        {
            let ghost out_before = out@;
            proof {
                assert(before.entries[i as int] == self.entries@[i as int]@);
                assert(before.entries.take(i as int + 1).drop_last() =~= before.entries.take(
                    i as int,
                ));
                assert(before.entries.take(i as int + 1).last() == before.entries[i as int]);
            }
            let e = &self.entries[i];
            let keep = match e.key.kind {
                KeyKind::Text => match canonical_index(e.key.text.as_str()) {
                    Some(n) => (n as usize) < from,
                    None => true,
                },
                _ => true,
            };
            if keep {
                let copy = Entry { key: e.key.copy(), prop: e.prop };
                let ghost cv = copy@;
                out.push(copy);
                assert(out@.map_values(|e: Entry| e@) =~= out_before.map_values(
                    |e: Entry| e@,
                ).push(cv));
            }
            i = i + 1;
        }
        assert(before.entries.take(before.entries.len() as int) =~= before.entries);
        if out.len() == self.entries.len() {
            return;
        }
        self.entries = out;
        self.shape = shapes.fresh();
        self.elems = Vec::new();
        assert(self@.entries == kept);
        assert(self@.elems =~= Seq::empty());
        let mut slot: usize = 0;
        while slot < self.entries.len()
            invariant
                slot <= self.entries.len(),
                self.entries.len() == kept.len(),
                self@.entries == kept,
                self@.shape == old(shapes)@.next,
                self@.elems == all_noted(kept, slot as nat),
            decreases self.entries.len() - slot,
        {
            self.note_inserted(slot);
            assert(self@.entries.len() == self.entries.len());
            slot = slot + 1;
        }
        proof {
            lemma_staying(before.entries, from as nat);
            lemma_all_noted(kept, kept.len());
            assert(kept.take(kept.len() as int) =~= kept);
            let w = PropsView { entries: kept, shape: 0, elems: all_noted(kept, kept.len()) };
            assert(w.well_formed());
            let after = self@;
            assert(after.entries == w.entries && after.elems == w.elems);
            assert forall|i: int, j: int|
                #![trigger after.entries[i], after.entries[j]]
                0 <= i < j < after.entries.len() implies after.entries[i].0
                != after.entries[j].0 by {
                assert(w.entries[i].0 != w.entries[j].0);
            }
            assert forall|n: int|
                #![trigger after.elems[n]]
                0 <= n < after.elems.len() && after.elems[n] != NO_SLOT implies after.elems[n]
                < after.entries.len() && after.entries[after.elems[n] as int].0 == (
                KeyKind::Text,
                decimal(n as nat),
            ) by {
                assert(w.elems[n] != NO_SLOT);
            }
        }
    }

    /// Takes out everything.
    pub fn clear(&mut self, shapes: &mut ShapeTable)
        ensures
            final(self)@ == (PropsView {
                entries: Seq::empty(),
                shape: old(shapes)@.next,
                elems: Seq::empty(),
            }),
            final(self)@.well_formed(),
            final(shapes)@ == old(shapes)@.after_fresh(),
            old(self)@.is_known(old(shapes)@) && old(shapes)@.next < u32::MAX ==> final(self)@.is_known(
                final(shapes)@,
            ),
    {
        self.entries = Vec::new();
        self.elems = Vec::new();
        self.shape = shapes.fresh();
        assert(self@.entries =~= Seq::empty());
        assert(self@.elems =~= Seq::empty());
    }

    /// The keys in the order in which they were added, without private ones.
    pub fn keys(&self) -> (r: Vec<OwnKey>)
        ensures
            r@.map_values(|k: OwnKey| k@) == of_kinds(self@.added(), true, true),
    {
        let mut out: Vec<OwnKey> = Vec::new();
        let mut i: usize = 0;
        assert(self@.added().take(0) =~= Seq::empty());
        assert(out@.map_values(|k: OwnKey| k@) =~= Seq::empty());
        while i < self.entries.len()
            invariant
                i <= self.entries.len(),
                self@.added().len() == self.entries.len(),
                out@.map_values(|k: OwnKey| k@) == of_kinds(
                    self@.added().take(i as int),
                    true,
                    true,
                ),
            decreases self.entries.len() - i,
        {
            let ghost seen = self@.added().take(i as int + 1);
            proof {
                assert(self@.entries[i as int] == self.entries@[i as int]@);
                assert(seen.drop_last() =~= self@.added().take(i as int));
                assert(seen.last() == self.entries@[i as int].key@);
            }
            let key = &self.entries[i].key;
            if !matches!(key.kind, KeyKind::Private) {
                let ghost before = out@;
                out.push(key.copy());
                assert(out@.map_values(|k: OwnKey| k@) =~= before.map_values(
                    |k: OwnKey| k@,
                ).push(key@));
            }
            i = i + 1;
        }
        assert(self@.added().take(i as int) =~= self@.added());
        out
    }

    /// The keys in the order in which a program sees them: array indices ascending, the other texts
    /// and then the symbols in the order in which they were added.
    pub fn ordered_keys(&self) -> (r: Vec<OwnKey>)
        ensures
            r@.map_values(|k: OwnKey| k@) == ordered(self@.added()),
    {
        let mut ints: Vec<OwnKey> = Vec::new();
        let mut texts: Vec<OwnKey> = Vec::new();
        let mut symbols: Vec<OwnKey> = Vec::new();
        let mut i: usize = 0;
        assert(self@.added().take(0) =~= Seq::empty());
        assert(ints@.map_values(|k: OwnKey| k@) =~= Seq::empty());
        while i < self.entries.len()
            invariant
                i <= self.entries.len(),
                self@.added().len() == self.entries.len(),
                ints@.map_values(|k: OwnKey| k@) == sorted_indices(self@.added().take(i as int)),
                texts@.map_values(|k: OwnKey| k@) == plain_texts(self@.added().take(i as int)),
                symbols@.map_values(|k: OwnKey| k@) == of_kinds(
                    self@.added().take(i as int),
                    false,
                    true,
                ),
            decreases self.entries.len() - i,
        {
            let ghost seen = self@.added().take(i as int + 1);
            proof {
                assert(self@.entries[i as int] == self.entries@[i as int]@);
                assert(seen.drop_last() =~= self@.added().take(i as int));
                assert(seen.last() == self.entries@[i as int].key@);
            }
            let key = &self.entries[i].key;
            match key.kind {
                KeyKind::Private => {},
                KeyKind::Symbol => {
                    let ghost before = symbols@;
                    symbols.push(key.copy());
                    assert(symbols@.map_values(|k: OwnKey| k@) =~= before.map_values(
                        |k: OwnKey| k@,
                    ).push(key@));
                },
                KeyKind::Text => match canonical_index(key.text.as_str()) {
                    Some(n) => {
                        proof {
                            let have = self@.added().take(i as int);
                            indices_ascend(have);
                            assert forall|j: int| 0 <= j < ints.len() implies index_of(
                                (#[trigger] ints@[j])@.1,
                            ) is Some by {
                                assert(ints@.map_values(|k: OwnKey| k@)[j] == ints@[j]@);
                            }
                        }
                        insert_index(&mut ints, key.copy(), n);
                    },
                    None => {
                        let ghost before = texts@;
                        texts.push(key.copy());
                        assert(texts@.map_values(|k: OwnKey| k@) =~= before.map_values(
                            |k: OwnKey| k@,
                        ).push(key@));
                    },
                },
            }
            i = i + 1;
        }
        assert(self@.added().take(i as int) =~= self@.added());
        let ghost a = ints@;
        let ghost b = texts@;
        let ghost c = symbols@;
        ints.append(&mut texts);
        ints.append(&mut symbols);
        assert(ints@.map_values(|k: OwnKey| k@) =~= a.map_values(|k: OwnKey| k@) + b.map_values(
            |k: OwnKey| k@,
        ) + c.map_values(|k: OwnKey| k@));
        ints
    }
}

/// The text keys that are wanted and the symbol keys that are wanted, in their order.
pub open spec fn of_kinds(keys: Seq<(KeyKind, Seq<char>)>, texts: bool, symbols: bool) -> Seq<
    (KeyKind, Seq<char>),
>
    decreases keys.len(),
{
    if keys.len() == 0 {
        Seq::empty()
    } else {
        let rest = of_kinds(keys.drop_last(), texts, symbols);
        if (keys.last().0 == KeyKind::Text && texts) || (keys.last().0 == KeyKind::Symbol
            && symbols) {
            rest.push(keys.last())
        } else {
            rest
        }
    }
}

/// The text keys that are no array indices.
pub open spec fn plain_texts(keys: Seq<(KeyKind, Seq<char>)>) -> Seq<(KeyKind, Seq<char>)>
    decreases keys.len(),
{
    if keys.len() == 0 {
        Seq::empty()
    } else {
        let rest = plain_texts(keys.drop_last());
        if keys.last().0 == KeyKind::Text && index_of(keys.last().1) is None {
            rest.push(keys.last())
        } else {
            rest
        }
    }
}

/// The first place in a list of array indices that has a greater one.
pub open spec fn place_for(keys: Seq<(KeyKind, Seq<char>)>, n: u32) -> nat
    decreases keys.len(),
{
    if keys.len() == 0 || index_of(keys.last().1)->0 <= n {
        keys.len()
    } else {
        place_for(keys.drop_last(), n)
    }
}

/// The array indices, ascending.
pub open spec fn sorted_indices(keys: Seq<(KeyKind, Seq<char>)>) -> Seq<(KeyKind, Seq<char>)>
    decreases keys.len(),
{
    if keys.len() == 0 {
        Seq::empty()
    } else {
        let rest = sorted_indices(keys.drop_last());
        match index_of(keys.last().1) {
            Some(n) => if keys.last().0 == KeyKind::Text {
                rest.insert(place_for(rest, n) as int, keys.last())
            } else {
                rest
            },
            None => rest,
        }
    }
}

/// The array indices among the keys are seen in ascending order.
pub proof fn indices_ascend(keys: Seq<(KeyKind, Seq<char>)>)
    ensures
        forall|i: int|
            0 <= i < sorted_indices(keys).len() ==> index_of(
                (#[trigger] sorted_indices(keys)[i]).1,
            ) is Some,
        forall|i: int, j: int|
            #![trigger sorted_indices(keys)[i], sorted_indices(keys)[j]]
            0 <= i < j < sorted_indices(keys).len() ==> index_of(sorted_indices(keys)[i].1)->0
                <= index_of(sorted_indices(keys)[j].1)->0,
    decreases keys.len(),
{
    if keys.len() > 0 {
        let rest = sorted_indices(keys.drop_last());
        let all = sorted_indices(keys);
        indices_ascend(keys.drop_last());
        if index_of(keys.last().1) is Some && keys.last().0 == KeyKind::Text {
            let n = index_of(keys.last().1)->0;
            let at = place_for(rest, n) as int;
            lemma_place_for(rest, n);
            assert forall|i: int| 0 <= i < all.len() implies index_of(
                (#[trigger] all[i]).1,
            ) is Some by {
                if i < at {
                    assert(all[i] == rest[i]);
                } else if i > at {
                    assert(all[i] == rest[i - 1]);
                }
            }
            assert forall|i: int, j: int|
                #![trigger all[i], all[j]]
                0 <= i < j < all.len() implies index_of(all[i].1)->0 <= index_of(all[j].1)->0 by {
                if i < at {
                    assert(all[i] == rest[i]);
                    if j > at {
                        assert(all[j] == rest[j - 1]);
                    } else if j < at {
                        assert(all[j] == rest[j]);
                    }
                } else if i > at {
                    assert(all[i] == rest[i - 1]);
                    assert(all[j] == rest[j - 1]);
                } else {
                    assert(all[j] == rest[j - 1]);
                }
            }
        }
    }
}

/// What stands before and behind the place for an index.
proof fn lemma_place_for(keys: Seq<(KeyKind, Seq<char>)>, n: u32)
    requires
        forall|i: int, j: int|
            #![trigger keys[i], keys[j]]
            0 <= i < j < keys.len() ==> index_of(keys[i].1)->0 <= index_of(keys[j].1)->0,
    ensures
        place_for(keys, n) <= keys.len(),
        forall|i: int|
            0 <= i < place_for(keys, n) ==> index_of((#[trigger] keys[i]).1)->0 <= n,
        forall|i: int|
            place_for(keys, n) <= i < keys.len() ==> index_of((#[trigger] keys[i]).1)->0 > n,
    decreases keys.len(),
{
    if keys.len() > 0 {
        let rest = keys.drop_last();
        if index_of(keys.last().1)->0 <= n {
            assert forall|i: int| 0 <= i < keys.len() implies index_of((#[trigger] keys[i]).1)->0
                <= n by {
                if i < keys.len() - 1 {
                    assert(keys[i] == keys[i] && keys[keys.len() - 1] == keys.last());
                }
            }
        } else {
            assert forall|i: int, j: int|
                #![trigger rest[i], rest[j]]
                0 <= i < j < rest.len() implies index_of(rest[i].1)->0 <= index_of(
                rest[j].1,
            )->0 by {
                assert(rest[i] == keys[i] && rest[j] == keys[j]);
            }
            lemma_place_for(rest, n);
            assert forall|i: int| 0 <= i < place_for(keys, n) implies index_of(
                (#[trigger] keys[i]).1,
            )->0 <= n by {
                assert(rest[i] == keys[i]);
            }
            assert forall|i: int| place_for(keys, n) <= i < keys.len() implies index_of(
                (#[trigger] keys[i]).1,
            )->0 > n by {
                if i < rest.len() {
                    assert(rest[i] == keys[i]);
                }
            }
        }
    }
}

/// The keys in the order in which a program sees them.
pub open spec fn ordered(keys: Seq<(KeyKind, Seq<char>)>) -> Seq<(KeyKind, Seq<char>)> {
    sorted_indices(keys) + plain_texts(keys) + of_kinds(keys, false, true)
}

/// Puts an array index in its place.
fn insert_index(ints: &mut Vec<OwnKey>, key: OwnKey, n: u32)
    requires
        index_of(key@.1) == Some(n),
        forall|i: int| 0 <= i < old(ints).len() ==> index_of((#[trigger] old(ints)@[i])@.1) is Some,
    ensures
        final(ints)@.map_values(|k: OwnKey| k@) == old(ints)@.map_values(|k: OwnKey| k@).insert(
            place_for(old(ints)@.map_values(|k: OwnKey| k@), n) as int,
            key@,
        ),
{
    let ghost all = ints@.map_values(|k: OwnKey| k@);
    let mut at: usize = ints.len();
    assert(all.take(at as int) =~= all);
    while at > 0
        invariant
            at <= ints.len(),
            all == ints@.map_values(|k: OwnKey| k@),
            place_for(all, n) == place_for(all.take(at as int), n),
            forall|i: int| 0 <= i < ints.len() ==> index_of((#[trigger] ints@[i])@.1) is Some,
        ensures
            place_for(all, n) == at,
        decreases at,
    {
        proof {
            assert(all.take(at as int).last() == ints@[at - 1]@);
            assert(all.take(at as int).drop_last() =~= all.take(at - 1));
        }
        match canonical_index(ints[at - 1].text.as_str()) {
            Some(m) => {
                if m <= n {
                    break ;
                }
            },
            None => {
                break ;
            },
        }
        at = at - 1;
    }
    let ghost k = key@;
    ints.insert(at, key);
    assert(ints@.map_values(|k: OwnKey| k@) =~= all.insert(at as int, k));
}

/// Defines a property as assignment makes it.
pub fn set_data(props: &mut Props, shapes: &mut ShapeTable, key: OwnKey, value: Value)
    requires
        old(props)@.well_formed(),
        old(shapes)@.well_formed(),
    ensures
        final(props)@ == old(props)@.inserted(
            old(shapes)@,
            key@,
            Property::of(value, true, true, true),
        ),
        final(props)@.well_formed(),
        final(shapes)@ == (if old(props)@.has_key(key@) {
            old(shapes)@
        } else {
            old(shapes)@.after_step(old(props)@.shape, key@)
        }),
        old(props)@.is_known(old(shapes)@) && old(shapes)@.next < u32::MAX ==> final(props)@.is_known(
            final(shapes)@,
        ),
{
    props.insert(shapes, key, Property::plain(value));
}

/// Defines a property as the built-in objects have them.
pub fn set_builtin(props: &mut Props, shapes: &mut ShapeTable, key: OwnKey, value: Value)
    requires
        old(props)@.well_formed(),
        old(shapes)@.well_formed(),
    ensures
        final(props)@ == old(props)@.inserted(
            old(shapes)@,
            key@,
            Property::of(value, true, false, true),
        ),
        final(props)@.well_formed(),
        final(shapes)@ == (if old(props)@.has_key(key@) {
            old(shapes)@
        } else {
            old(shapes)@.after_step(old(props)@.shape, key@)
        }),
        old(props)@.is_known(old(shapes)@) && old(shapes)@.next < u32::MAX ==> final(props)@.is_known(
            final(shapes)@,
        ),
{
    props.insert(shapes, key, Property::builtin(value));
}

/// The name of a function behind an accessor: that of the accessor with what it does in front.
pub fn accessor_name(name: &str, is_get: bool) -> (r: String)
    ensures
        r@ == (if is_get {
            "get "@
        } else {
            "set "@
        }) + name@,
{
    if is_get {
        join("get ", name)
    } else {
        join("set ", name)
    }
}

/// A property of a module namespace, which shows the value that the binding has now.
pub fn namespace_own_property(value: Value) -> (r: Property)
    ensures
        r == Property::of(value, true, true, false),
{
    Property::data(value, true, true, false)
}

/// What a key is read as.
pub open spec fn lookup(p: PropsView, key: (KeyKind, Seq<char>)) -> Option<Property> {
    if p.has_key(key) {
        Some(p.entries[p.slot(key)].1)
    } else {
        None
    }
}

/// A key without a double is found at the one place that has it.
proof fn lemma_lookup(p: PropsView, key: (KeyKind, Seq<char>), i: int)
    requires
        0 <= i < p.entries.len(),
        p.entries[i].0 == key,
        forall|x: int, y: int|
            #![trigger p.entries[x], p.entries[y]]
            0 <= x < y < p.entries.len() ==> p.entries[x].0 != p.entries[y].0,
    ensures
        lookup(p, key) == Some(p.entries[i].1),
        p.slot(key) == i,
{
    let s = p.slot(key);
    assert(p.entries[s].0 == key);
    assert(s == i);
}

/// A property is read as it was written last, and a write leaves the other properties alone.
pub proof fn properties_read_back(
    p: PropsView,
    shapes: ShapesView,
    key: (KeyKind, Seq<char>),
    prop: Property,
    other: (KeyKind, Seq<char>),
)
    requires
        p.well_formed(),
    ensures
        lookup(p.inserted(shapes, key, prop), key) == Some(prop),
        other != key ==> lookup(p.inserted(shapes, key, prop), other) == lookup(p, other),
{
    let q = p.inserted(shapes, key, prop);
    let at = if p.has_key(key) {
        p.slot(key)
    } else {
        p.entries.len() as int
    };
    assert(q.entries[at] == (key, prop));
    assert forall|x: int, y: int|
        #![trigger q.entries[x], q.entries[y]]
        0 <= x < y < q.entries.len() implies q.entries[x].0 != q.entries[y].0 by {
        if x < p.entries.len() {
            assert(q.entries[x].0 == p.entries[x].0);
        }
        if y < p.entries.len() {
            assert(q.entries[y].0 == p.entries[y].0);
        }
    }
    lemma_lookup(q, key, at);
    if other != key {
        if p.has_key(other) {
            let i = p.slot(other);
            assert(p.entries[i].0 == other);
            assert(q.entries[i] == p.entries[i]);
            lemma_lookup(q, other, i);
        } else if q.has_key(other) {
            let i = choose|i: int| 0 <= i < q.entries.len() && #[trigger] q.entries[i].0 == other;
            assert(i != at);
            assert(p.entries[i].0 == other);
        }
    }
}

/// A property that was removed is gone, and the others stay.
pub proof fn removed_properties_are_gone(
    p: PropsView,
    shapes: ShapesView,
    key: (KeyKind, Seq<char>),
    other: (KeyKind, Seq<char>),
)
    requires
        p.well_formed(),
    ensures
        lookup(p.removed(shapes, key), key) is None,
        other != key ==> lookup(p.removed(shapes, key), other) == lookup(p, other),
{
    if p.has_key(key) {
        let q = p.removed(shapes, key);
        let at = p.slot(key);
        assert(p.entries[at].0 == key);
        assert forall|i: int| 0 <= i < q.entries.len() implies #[trigger] q.entries[i]
            == p.entries[if i < at {
            i
        } else {
            i + 1
        }] by {}
        assert forall|x: int, y: int|
            #![trigger q.entries[x], q.entries[y]]
            0 <= x < y < q.entries.len() implies q.entries[x].0 != q.entries[y].0 by {}
        assert forall|i: int| 0 <= i < q.entries.len() implies (#[trigger] q.entries[i]).0 != key by {}
        if other != key {
            if p.has_key(other) {
                let i = p.slot(other);
                assert(p.entries[i].0 == other);
                let j = if i < at {
                    i
                } else {
                    i - 1
                };
                assert(q.entries[j] == p.entries[i]);
                lemma_lookup(q, other, j);
            } else if q.has_key(other) {
                let j = choose|j: int| 0 <= j < q.entries.len() && #[trigger] q.entries[j].0 == other;
                let i = if j < at {
                    j
                } else {
                    j + 1
                };
                assert(p.entries[i].0 == other);
            }
        }
    }
}

/// Only the first use of a promise's flag counts.
pub proof fn flags_are_used_once(flag: PropsView, shapes: ShapesView)
    requires
        flag.well_formed(),
    ensures
        flag.inserted(
            shapes,
            (KeyKind::Text, "__called"@),
            Property::of(Value::Bool(true), true, false, true),
        ).has_key((KeyKind::Text, "__called"@)),
{
    let key = (KeyKind::Text, "__called"@);
    let prop = Property::of(Value::Bool(true), true, false, true);
    properties_read_back(flag, shapes, key, prop, key);
}

/// Two objects whose shapes stand for their keys have the same shape exactly when they were given the
/// same keys in the same order.
pub proof fn shape_tells_layout(shapes: ShapesView, a: PropsView, b: PropsView)
    requires
        shapes.well_formed(),
        a.is_shaped(shapes),
        b.is_shaped(shapes),
    ensures
        a.shape == b.shape <==> a.added() == b.added(),
{
    if a.added() == b.added() {
        keys_tell_shape(shapes, a.shape, b.shape);
    }
}

/// Adding a property keeps the shape standing for the keys, as long as numbers are left.
pub proof fn insertion_keeps_shape(
    shapes: ShapesView,
    p: PropsView,
    key: (KeyKind, Seq<char>),
    prop: Property,
)
    requires
        shapes.well_formed(),
        p.well_formed(),
        p.is_shaped(shapes),
        p.shape < shapes.next < u32::MAX,
    ensures
        p.has_key(key) ==> p.inserted(shapes, key, prop).is_shaped(shapes),
        !p.has_key(key) ==> p.inserted(shapes, key, prop).is_shaped(
            shapes.after_step(p.shape, key),
        ),
{
    let after = p.inserted(shapes, key, prop);
    if p.has_key(key) {
        let i = p.slot(key);
        assert(p.entries[i].0 == key);
        assert(after.added() =~= p.added());
    } else {
        step_extends(shapes, p.shape, key);
        assert(after.added() =~= p.added().push(key));
    }
}

/// Taking array indices out leaves no key twice.
proof fn lemma_staying(e: Seq<((KeyKind, Seq<char>), Property)>, from: nat)
    requires
        forall|i: int, j: int|
            #![trigger e[i], e[j]]
            0 <= i < j < e.len() ==> e[i].0 != e[j].0,
    ensures
        forall|i: int, j: int|
            #![trigger staying(e, from)[i], staying(e, from)[j]]
            0 <= i < j < staying(e, from).len() ==> staying(e, from)[i].0 != staying(e, from)[j].0,
        forall|i: int|
            0 <= i < staying(e, from).len() ==> e.contains(#[trigger] staying(e, from)[i]),
    decreases e.len(),
{
    if e.len() > 0 {
        let rest = e.drop_last();
        assert forall|i: int, j: int|
            #![trigger rest[i], rest[j]]
            0 <= i < j < rest.len() implies rest[i].0 != rest[j].0 by {
            assert(rest[i] == e[i] && rest[j] == e[j]);
        }
        lemma_staying(rest, from);
        let s = staying(e, from);
        let t = staying(rest, from);
        assert forall|i: int| 0 <= i < t.len() implies e.contains(#[trigger] t[i]) && t[i].0
            != e.last().0 by {
            assert(rest.contains(t[i]));
            let k = choose|k: int| 0 <= k < rest.len() && rest[k] == t[i];
            assert(e[k] == t[i]);
            assert(e[k].0 != e[e.len() - 1].0);
        }
        assert(e.contains(e.last())) by {
            assert(e[e.len() - 1] == e.last());
        }
        assert forall|i: int, j: int|
            #![trigger s[i], s[j]]
            0 <= i < j < s.len() implies s[i].0 != s[j].0 by {
            assert(s[i] == t[i]);
            if j < t.len() {
                assert(s[j] == t[j]);
            }
        }
        assert forall|i: int| 0 <= i < s.len() implies e.contains(#[trigger] s[i]) by {
            if i < t.len() {
                assert(s[i] == t[i]);
            }
        }
    }
}

/// Noting all properties of a list gives their places.
proof fn lemma_all_noted(e: Seq<((KeyKind, Seq<char>), Property)>, count: nat)
    requires
        count <= e.len(),
        forall|i: int, j: int|
            #![trigger e[i], e[j]]
            0 <= i < j < e.len() ==> e[i].0 != e[j].0,
    ensures
        (PropsView { entries: e.take(count as int), shape: 0, elems: all_noted(e, count) }).well_formed(),
    decreases count,
{
    if count > 0 {
        lemma_all_noted(e, (count - 1) as nat);
        let p = PropsView {
            entries: e.take(count - 1),
            shape: 0,
            elems: all_noted(e, (count - 1) as nat),
        };
        let (key, prop) = e[count - 1];
        assert(!p.has_key(key));
        lemma_noted(p, key, prop);
        let f = e.take(count as int);
        assert(f =~= p.entries.push((key, prop)));
        assert forall|i: int, j: int|
            #![trigger f[i], f[j]]
            0 <= i < j < f.len() implies f[i].0 != f[j].0 by {
            assert(f[i] == e[i] && f[j] == e[j]);
        }
        assert(all_noted(e, count) == noted(p.elems, p.entries.len(), key));
    }
}

} // verus!
