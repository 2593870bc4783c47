//! Own properties, shapes and the objects alive.
use lumen::interp::session::Value;
use lumen::value::heap::{jit_layout, live_objects, Heap, LayoutProbe};
use lumen::value::props::{
    accessor_name, canonical_index, define_accessor, index_key,
    namespace_own_property, set_builtin, set_data,
    Property, Props,
};
use lumen::value::shape::{KeyKind, OwnKey, ShapeTable, SHAPE_EMPTY};

fn key(text: &str) -> OwnKey {
    OwnKey { kind: KeyKind::Text, text: text.to_string() }
}

fn number(x: f64) -> Value {
    Value::Num(x.to_bits())
}

fn texts(keys: Vec<OwnKey>) -> Vec<String> {
    keys.into_iter().map(|k| k.text).collect()
}

#[test]
fn same_steps_same_shape() {
    let mut shapes = ShapeTable::new();
    let (mut a, mut b, mut c) = (Props::new(), Props::new(), Props::new());
    assert_eq!(a.shape(), SHAPE_EMPTY);
    for k in ["x", "y"] {
        set_data(&mut a, &mut shapes, key(k), number(1.0));
        set_data(&mut b, &mut shapes, key(k), number(2.0));
    }
    for k in ["y", "x"] {
        set_data(&mut c, &mut shapes, key(k), number(3.0));
    }
    assert_eq!(a.shape(), b.shape());
    assert_ne!(a.shape(), c.shape());
    assert_eq!(a.slot_of(&key("y")), Some(1));
    let before = a.shape();
    set_data(&mut a, &mut shapes, key("x"), number(9.0));
    assert_eq!(a.shape(), before);
    assert!(a.remove(&mut shapes, &key("x")));
    assert_ne!(a.shape(), before);
    assert!(!a.remove(&mut shapes, &key("x")));
}

#[test]
fn indices_come_first_and_ascend() {
    let mut shapes = ShapeTable::new();
    let mut p = Props::new();
    for k in ["b", "10", "a", "2", "01"] {
        set_data(&mut p, &mut shapes, key(k), number(0.0));
    }
    let symbol = OwnKey { kind: KeyKind::Symbol, text: "7".to_string() };
    set_data(&mut p, &mut shapes, symbol, number(0.0));
    assert_eq!(texts(p.ordered_keys()), ["2", "10", "b", "a", "01", "7"]);
    assert_eq!(texts(p.keys()), ["b", "10", "a", "2", "01", "7"]);
    assert_eq!(p.len(), 6);
}

#[test]
fn indices_of_texts() {
    assert_eq!(canonical_index("0"), Some(0));
    assert_eq!(canonical_index("4294967294"), Some(4294967294));
    assert_eq!(canonical_index("4294967295"), None);
    assert_eq!(canonical_index("01"), None);
    assert_eq!(canonical_index("-1"), None);
    assert_eq!(canonical_index(""), None);
    assert_eq!(canonical_index("1.5"), None);
    for n in [0u64, 7, 100, 4294967294] {
        assert_eq!(canonical_index(&index_key(n).text), Some(n as u32));
    }
}

#[test]
fn dense_elements() {
    let mut shapes = ShapeTable::new();
    let mut p = Props::new();
    for n in 0..5 {
        p.push_dense(Property::plain(number(n as f64)));
    }
    assert_eq!(p.get_index(3).map(|x| x.value), Some(number(3.0)));
    assert_eq!(p.get(&key("4")).map(|x| x.value), Some(number(4.0)));
    p.remove_indices_from(&mut shapes, 2);
    assert_eq!(p.len(), 2);
    assert!(p.get_index(2).is_none());
    assert!(p.contains(&key("1")));
    assert!(p.entry_at(1).is_some() && p.entry_at(2).is_none());
    p.clear(&mut shapes);
    assert_eq!(p.len(), 0);
}

#[test]
fn builtin_properties() {
    let mut shapes = ShapeTable::new();
    let mut p = Props::new();
    set_builtin(&mut p, &mut shapes, key("f"), number(1.0));
    assert_eq!(p.get(&key("f")).copied(), Some(Property::data(number(1.0), true, false, true)));
}

#[test]
fn halves_of_accessors() {
    let (g, s) = (Value::Obj(1), Value::Obj(2));
    let first = define_accessor(None, Some(g), None, true);
    assert!(first.accessor && first.enumerable && first.set.is_none());
    let both = define_accessor(Some(first), None, Some(s), true);
    assert_eq!((both.get, both.set), (Some(g), Some(s)));
    let over = define_accessor(Some(Property::plain(g)), None, Some(s), false);
    assert_eq!((over.get, over.set, over.enumerable), (None, Some(s), false));
}

#[test]
fn live_objects_are_counted() {
    let mut h = Heap::new();
    let places: Vec<usize> = (0..4).map(|_| h.make()).collect();
    assert_eq!(live_objects(&h), 4);
    h.drop_object(places[1]);
    assert_eq!(live_objects(&h), 3);
    assert_eq!(h.gc_snapshot(), vec![places[0], places[2], places[3]]);
}

#[test]
fn layouts_are_checked() {
    let probe = LayoutProbe {
        cell_address: 4096,
        object_address: 4104,
        vec_first_word: 64,
        vec_data: 64,
        count_word: 1,
        some_proto_word: 4096,
        none_proto_word: 0,
        exotic_none_tag: 3,
        obj_proto: 1,
        obj_props: 2,
        obj_exotic: 3,
        props_shape: 4,
        props_entries: 5,
        entry_size: 6,
        entry_value: 7,
        entry_accessor: 8,
    };
    let layout = jit_layout(probe);
    assert!(layout.valid);
    assert_eq!((layout.refcell_value, layout.rc_strong_back), (8, 16));
    assert!(!jit_layout(LayoutProbe { count_word: 2, ..probe }).valid);
    assert!(!jit_layout(LayoutProbe { vec_data: 0, ..probe }).valid);
}

#[test]
fn properties_are_read_as_written() {
    let mut shapes = ShapeTable::new();
    let mut p = Props::new();
    set_data(&mut p, &mut shapes, key("a"), number(1.0));
    set_data(&mut p, &mut shapes, key("b"), number(2.0));
    set_data(&mut p, &mut shapes, key("a"), number(3.0));
    assert_eq!(p.get(&key("a")).map(|x| x.value), Some(number(3.0)));
    assert_eq!(p.get(&key("b")).map(|x| x.value), Some(number(2.0)));
    p.remove(&mut shapes, &key("a"));
    assert!(p.get(&key("a")).is_none());
    assert_eq!(p.get(&key("b")).map(|x| x.value), Some(number(2.0)));
}

#[test]
fn namespaces_show_their_exports() {
    let p = namespace_own_property(number(4.0));
    assert_eq!((p.writable, p.enumerable, p.configurable), (true, true, false));
}

#[test]
fn properties_change_in_place() {
    let mut shapes = ShapeTable::new();
    let mut p = Props::new();
    set_data(&mut p, &mut shapes, key("a"), number(1.0));
    set_data(&mut p, &mut shapes, key("0"), number(2.0));
    if let Some(x) = p.get_mut(&key("a")) {
        x.writable = false;
    }
    assert_eq!(p.get(&key("a")).map(|x| x.writable), Some(false));
    if let Some(x) = p.get_index_mut(0) {
        x.value = number(5.0);
    }
    assert_eq!(p.get(&key("0")).map(|x| x.value), Some(number(5.0)));
    assert!(p.get_mut(&key("b")).is_none());
    assert!(p.get_index_mut(1).is_none());
}

#[test]
fn accessors_are_named() {
    assert_eq!(accessor_name("x", true), "get x");
    assert_eq!(accessor_name("x", false), "set x");
}
