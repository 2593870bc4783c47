//! The objects that are alive, and symbols.
use vstd::prelude::*;

verus! {

/// A symbol. No two symbols have the same number.
#[derive(Debug)]
pub struct SymbolData {
    pub id: u64,
    pub description: Option<String>,
}

/// How many objects of a list are alive.
pub open spec fn count_alive(alive: Seq<bool>) -> nat
    decreases alive.len(),
{
    if alive.len() == 0 {
        0
    } else {
        count_alive(alive.drop_last()) + (if alive.last() {
            1nat
        } else {
            0nat
        })
    }
}

/// The places of the objects that are alive, in the order in which they were made.
pub open spec fn places_alive(alive: Seq<bool>) -> Seq<usize>
    decreases alive.len(),
{
    if alive.len() == 0 {
        Seq::empty()
    } else if alive.last() {
        places_alive(alive.drop_last()).push((alive.len() - 1) as usize)
    } else {
        places_alive(alive.drop_last())
    }
}

/// Which of the objects that were made are still alive.
pub struct Heap {
    alive: Vec<bool>,
    live: usize,
}

impl View for Heap {
    type V = Seq<bool>;

    closed spec fn view(&self) -> Seq<bool> {
        self.alive@
    }
}

impl Heap {
    /// Whether the count is that of the objects alive.
    pub closed spec fn well_formed(self) -> bool {
        self.live == count_alive(self.alive@)
    }

    /// No objects.
    pub fn new() -> (h: Heap)
        ensures
            h@ == Seq::<bool>::empty(),
            h.well_formed(),
    {
        Heap { alive: Vec::new(), live: 0 }
    }

    /// Notes a new object and gives its place.
    pub fn make(&mut self) -> (place: usize)
        requires
            old(self).well_formed(),
            old(self)@.len() < usize::MAX,
        ensures
            final(self).well_formed(),
            place == old(self)@.len(),
            final(self)@ == old(self)@.push(true),
    {
        let place: usize = self.alive.len();
        proof {
            lemma_count_bound(self.alive@);
        }
        self.alive.push(true);
        self.live = self.live + 1;
        assert(self.alive@.drop_last() =~= old(self).alive@);
        place
    }

    /// Notes that an object has gone.
    pub fn drop_object(&mut self, place: usize)
        requires
            old(self).well_formed(),
            place < old(self)@.len(),
            old(self)@[place as int],
        ensures
            final(self).well_formed(),
            final(self)@ == old(self)@.update(place as int, false),
    {
        proof {
            lemma_count_update(self.alive@, place as int);
        }
        self.alive.set(place, false);
        self.live = self.live - 1;
    }

    /// The places of the objects that are alive.
    pub fn gc_snapshot(&self) -> (r: Vec<usize>)
        ensures
            r@ == places_alive(self@),
    {
        let mut out: Vec<usize> = Vec::new();
        let mut i: usize = 0;
        assert(self.alive@.take(0) =~= Seq::empty());
        while i < self.alive.len()
            invariant
                i <= self.alive.len(),
                out@ == places_alive(self.alive@.take(i as int)),
            decreases self.alive.len() - i,
        {
            assert(self.alive@.take(i as int + 1).drop_last() =~= self.alive@.take(i as int));
            if self.alive[i] {
                out.push(i);
            }
            i = i + 1;
        }
        assert(self.alive@.take(i as int) =~= self.alive@);
        out
    }
}

/// How many objects are alive.
pub fn live_objects(heap: &Heap) -> (r: usize)
    requires
        heap.well_formed(),
    ensures
        r == count_alive(heap@),
{
    heap.live
}

proof fn lemma_count_bound(alive: Seq<bool>)
    ensures
        count_alive(alive) <= alive.len(),
    decreases alive.len(),
{
    if alive.len() > 0 {
        lemma_count_bound(alive.drop_last());
    }
}

proof fn lemma_count_update(alive: Seq<bool>, i: int)
    requires
        0 <= i < alive.len(),
        alive[i],
    ensures
        count_alive(alive) >= 1,
        count_alive(alive.update(i, false)) == count_alive(alive) - 1,
    decreases alive.len(),
{
    if i == alive.len() - 1 {
        assert(alive.update(i, false).drop_last() =~= alive.drop_last());
    } else {
        lemma_count_update(alive.drop_last(), i);
        assert(alive.update(i, false).drop_last() =~= alive.drop_last().update(i, false));
    }
}

/// There are as many places of objects alive as objects alive.
pub proof fn snapshot_is_complete(alive: Seq<bool>)
    requires
        alive.len() <= usize::MAX,
    ensures
        places_alive(alive).len() == count_alive(alive),
        forall|i: int| 0 <= i < alive.len() ==> (#[trigger] alive[i] <==> places_alive(alive).contains(
            i as usize,
        )),
    decreases alive.len(),
{
    if alive.len() > 0 {
        let rest = alive.drop_last();
        snapshot_is_complete(rest);
        let places = places_alive(alive);
        let before = places_alive(rest);
        lemma_places_bound(rest);
        assert forall|i: int| 0 <= i < alive.len() implies (#[trigger] alive[i]
            <==> places.contains(i as usize)) by {
            if i < rest.len() {
                assert(rest[i] == alive[i]);
                if rest[i] {
                    let k = choose|k: int| 0 <= k < before.len() && before[k] == i as usize;
                    assert(places[k] == i as usize);
                } else if places.contains(i as usize) {
                    let k = choose|k: int| 0 <= k < places.len() && places[k] == i as usize;
                    assert(before[k] == i as usize);
                }
            } else if alive.last() {
                assert(places[places.len() - 1] == i as usize);
            } else if places.contains(i as usize) {
                let k = choose|k: int| 0 <= k < places.len() && places[k] == i as usize;
                assert(before[k] == i as usize);
            }
        }
    }
}

proof fn lemma_places_bound(alive: Seq<bool>)
    requires
        alive.len() <= usize::MAX,
    ensures
        forall|k: int| 0 <= k < places_alive(alive).len() ==> (#[trigger] places_alive(alive)[k])
            < alive.len(),
    decreases alive.len(),
{
    if alive.len() > 0 {
        let rest = places_alive(alive.drop_last());
        lemma_places_bound(alive.drop_last());
        assert forall|k: int| 0 <= k < places_alive(alive).len() implies (#[trigger] places_alive(
            alive,
        )[k]) < alive.len() by {
            if k < rest.len() {
                assert(places_alive(alive)[k] == rest[k]);
            }
        }
    }
}

/// Words and addresses that were measured in a running program.
#[derive(Clone, Copy, PartialEq, Eq, Structural, Debug)]
pub struct LayoutProbe {
    pub cell_address: usize,
    pub object_address: usize,
    /// The first word of a vector and the address of its items.
    pub vec_first_word: usize,
    pub vec_data: usize,
    /// The word before a shared value where its owners are counted, of a value with one owner.
    pub count_word: usize,
    /// The word that an optional prototype is kept as, when there is one and when there is none.
    pub some_proto_word: usize,
    pub none_proto_word: usize,
    pub exotic_none_tag: u8,
    pub obj_proto: usize,
    pub obj_props: usize,
    pub obj_exotic: usize,
    pub props_shape: usize,
    pub props_entries: usize,
    pub entry_size: usize,
    pub entry_value: usize,
    pub entry_accessor: usize,
}

/// Where the parts of an object lie in memory. Compiled code may rely on it if it is valid.
#[derive(Clone, Copy, PartialEq, Eq, Structural, Debug)]
pub struct JitLayout {
    pub refcell_value: usize,
    pub obj_proto: usize,
    pub obj_props: usize,
    pub obj_exotic: usize,
    pub props_shape: usize,
    pub props_entries: usize,
    pub entry_size: usize,
    pub entry_value: usize,
    pub entry_accessor: usize,
    pub rc_strong_back: usize,
    pub exotic_none_tag: u8,
    pub valid: bool,
}

/// The layout that measurements show. It is valid if what the standard library does not promise was
/// found: a vector's first word is the address of its items, owners are counted two words before a
/// shared value, and an optional prototype is its address or zero.
pub fn jit_layout(p: LayoutProbe) -> (r: JitLayout)
    requires
        p.cell_address <= p.object_address,
    ensures
        r == (JitLayout {
            refcell_value: (p.object_address - p.cell_address) as usize,
            obj_proto: p.obj_proto,
            obj_props: p.obj_props,
            obj_exotic: p.obj_exotic,
            props_shape: p.props_shape,
            props_entries: p.props_entries,
            entry_size: p.entry_size,
            entry_value: p.entry_value,
            entry_accessor: p.entry_accessor,
            rc_strong_back: 16,
            exotic_none_tag: p.exotic_none_tag,
            valid: p.vec_first_word == p.vec_data && p.count_word == 1 && p.some_proto_word
                == p.cell_address && p.none_proto_word == 0,
        }),
{
    JitLayout {
        refcell_value: p.object_address - p.cell_address,
        obj_proto: p.obj_proto,
        obj_props: p.obj_props,
        obj_exotic: p.obj_exotic,
        props_shape: p.props_shape,
        props_entries: p.props_entries,
        entry_size: p.entry_size,
        entry_value: p.entry_value,
        entry_accessor: p.entry_accessor,
        rc_strong_back: 16,
        exotic_none_tag: p.exotic_none_tag,
        valid: p.vec_first_word == p.vec_data && p.count_word == 1 && p.some_proto_word
            == p.cell_address && p.none_proto_word == 0,
    }
}

} // verus!
