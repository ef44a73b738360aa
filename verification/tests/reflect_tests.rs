use reflect_diff::cloning::clone_value;
use reflect_diff::enums::{VariantFieldIter, VariantType};
use reflect_diff::eq::{enum_partial_eq, tuple_partial_eq, value_eq};
use reflect_diff::hashing::tuple_hash;
use reflect_diff::tuple::{TupleFieldIter, TupleInfo, TupleMeta};
use reflect_diff::uuid::generate_composite_uuid;
use reflect_diff::value::{
    DynamicArray, DynamicEnum, DynamicList, DynamicMap, DynamicStruct, DynamicTuple,
    DynamicTupleStruct, Leaf, Value, VariantData,
};

fn u32v(x: u32) -> Value {
    Value::Leaf(Leaf::U32(x))
}

fn i32v(x: i32) -> Value {
    Value::Leaf(Leaf::I32(x))
}

fn f32v(x: f32) -> Value {
    Value::Leaf(Leaf::F32Bits(x.to_bits()))
}

fn strv(s: &str) -> Value {
    Value::Leaf(Leaf::Str(s.to_string()))
}

#[test]
fn reflect_struct() {
    let mut bar = DynamicStruct::new("Bar".to_string());
    bar.insert("x", u32v(1));

    let mut foo = DynamicStruct::new("Foo".to_string());
    foo.insert("a", u32v(42));
    foo.insert("b", f32v(3.14));
    foo.insert("c", Value::Struct(bar));

    let a = foo.field("a").unwrap().as_u32().unwrap();
    assert_eq!(a, 42);

    foo.insert("a", u32v(a + 1));
    assert_eq!(foo.field("a").unwrap().as_u32().unwrap(), 43);

    // nested retrieval
    let c = foo.field("c").unwrap();
    if let Value::Struct(inner) = c {
        assert_eq!(inner.field("x").unwrap().as_u32().unwrap(), 1);
    } else {
        panic!("expected a struct");
    }

    // patch Foo with a dynamic struct; unknown fields are ignored
    let mut patch = DynamicStruct::default();
    patch.insert("a", u32v(123));
    patch.insert("should_be_ignored", i32v(456));

    let mut value = Value::Struct(foo);
    value.apply(&Value::Struct(patch));
    if let Value::Struct(s) = &value {
        assert_eq!(s.field("a").unwrap().as_u32().unwrap(), 123);
        assert_eq!(s.field_len(), 3);
    } else {
        panic!("expected a struct");
    }
}

fn key_struct(a: u32, b: &str) -> Value {
    let mut s = DynamicStruct::new("Foo".to_string());
    s.insert("a", u32v(a));
    s.insert("b", strv(b));
    Value::Struct(s)
}

#[test]
fn reflect_map() {
    let key_a = key_struct(1, "k1");
    let key_b = key_struct(1, "k1");
    let key_c = key_struct(3, "k3");

    let mut map = DynamicMap::default();
    map.insert(key_a, u32v(10));
    assert_eq!(map.get(&key_b).unwrap().as_u32().unwrap(), 10);
    assert!(map.get(&key_c).is_none());

    map.insert(key_b.clone(), u32v(20));
    assert_eq!(map.get(&key_b).unwrap().as_u32().unwrap(), 20);
    assert_eq!(map.len(), 1);
}

#[test]
fn reflect_unit_struct() {
    let mut foo = DynamicTupleStruct::new("Foo".to_string());
    foo.insert(u32v(1));
    foo.insert(Value::Leaf(Leaf::U64(2)));
    assert_eq!(foo.field(0).unwrap().as_u32().unwrap(), 1);
    assert_eq!(foo.field(1).unwrap().as_u64().unwrap(), 2);

    let mut patch = DynamicTupleStruct::default();
    patch.insert(u32v(3));
    patch.insert(Value::Leaf(Leaf::U64(4)));
    assert_eq!(patch.field(0).unwrap().as_u32().unwrap(), 3);
    assert_eq!(patch.field(1).unwrap().as_u64().unwrap(), 4);

    let mut value = Value::TupleStruct(foo);
    value.apply(&Value::TupleStruct(patch));
    if let Value::TupleStruct(t) = &value {
        assert_eq!(t.field(0).unwrap().as_u32().unwrap(), 3);
        assert_eq!(t.field(1).unwrap().as_u64().unwrap(), 4);
    } else {
        panic!("expected a tuple struct");
    }
}

#[test]
fn reflect_ignore() {
    // a field marked as hidden from reflection simply does not appear
    // among the reflected fields
    let mut foo = DynamicStruct::new("Foo".to_string());
    foo.insert("a", u32v(1));

    let mut values: Vec<u32> = Vec::new();
    let mut i = 0;
    while let Some(field) = foo.field_at(i) {
        values.push(field.1.as_u32().unwrap());
        i += 1;
    }
    assert_eq!(values, vec![1]);
}

#[test]
fn reflect_take() {
    let mut bar = DynamicStruct::new("Bar".to_string());
    bar.insert("x", u32v(2));
    let x: Value = Value::Struct(bar);
    match x {
        Value::Struct(y) => {
            assert_eq!(y.field("x").unwrap().as_u32().unwrap(), 2);
        }
        _ => panic!("expected a struct"),
    }
}

#[test]
fn as_reflect() {
    let v = u32v(7);
    let r: &Value = v.as_reflect();
    assert!(value_eq(r, &u32v(7)));
}

#[test]
fn dynamic_names() {
    let list = DynamicList::new("std::vec::Vec<usize>".to_string());
    let dyn_list = clone_value(&Value::List(list));
    assert_eq!(dyn_list.type_path(), "std::vec::Vec<usize>");

    let mut dyn_tuple = DynamicTuple::new();
    dyn_tuple.insert(Value::Leaf(Leaf::USize(0)));
    dyn_tuple.insert(strv("1"));
    dyn_tuple.insert(f32v(2.0));
    dyn_tuple.insert(Value::Leaf(Leaf::USize(3)));
    assert_eq!(
        Value::Tuple(dyn_tuple).type_path(),
        "(usize, alloc::string::String, f32, usize)"
    );

    let mut s = DynamicStruct::new("TestStruct".to_string());
    s.insert("a", Value::Leaf(Leaf::USize(0)));
    assert_eq!(Value::Struct(s).type_path(), "TestStruct");
}

#[test]
fn should_drain_fields() {
    let array_value = DynamicArray::from_vec("[i32; 2]".to_string(), vec![i32v(123), i32v(321)]);
    let fields = array_value.drain();
    assert!(value_eq(&fields[0], &i32v(123)));
    assert!(value_eq(&fields[1], &i32v(321)));

    let mut list_value = DynamicList::new("alloc::vec::Vec<i32>".to_string());
    list_value.push(i32v(123));
    list_value.push(i32v(321));
    let fields = list_value.drain();
    assert!(value_eq(&fields[0], &i32v(123)));
    assert!(value_eq(&fields[1], &i32v(321)));

    let mut tuple_value = DynamicTuple::new();
    tuple_value.insert(i32v(123));
    tuple_value.insert(i32v(321));
    let fields = tuple_value.drain();
    assert!(value_eq(&fields[0], &i32v(123)));
    assert!(value_eq(&fields[1], &i32v(321)));

    let mut map_value = DynamicMap::default();
    map_value.insert(i32v(123), i32v(321));
    let entries = map_value.drain();
    assert!(value_eq(&entries[0].0, &i32v(123)));
    assert!(value_eq(&entries[0].1, &i32v(321)));
}

#[test]
fn should_not_contain_docs() {
    let info = TupleInfo::new("SomeTuple".to_string(), 7, vec![]);
    assert_eq!(info.meta().docs(), None);
}

#[test]
fn should_contain_docs() {
    let info = TupleInfo::new("SomeTuple".to_string(), 7, vec![])
        .with_meta(TupleMeta::with_docs(Some(" Some tuple.")));
    assert_eq!(info.meta().docs(), Some(" Some tuple."));
}

#[test]
fn vec3_field_access() {
    let mut v = DynamicStruct::new("Vec3".to_string());
    v.insert("x", f32v(1.0));
    v.insert("y", f32v(2.0));
    v.insert("z", f32v(3.0));

    let x = f32::from_bits(v.field("x").unwrap().as_f32_bits().unwrap());
    assert_eq!(x, 1.0);

    v.insert("y", f32v(6.0));
    let y = f32::from_bits(v.field("y").unwrap().as_f32_bits().unwrap());
    assert_eq!(y, 6.0);
}

#[test]
fn vec3_apply_dynamic() {
    let mut v = DynamicStruct::new("Vec3".to_string());
    v.insert("x", f32v(3.0));
    v.insert("y", f32v(3.0));
    v.insert("z", f32v(3.0));

    let mut d = DynamicStruct::default();
    d.insert("x", f32v(4.0));
    d.insert("y", f32v(2.0));
    d.insert("z", f32v(1.0));

    let mut value = Value::Struct(v);
    value.apply(&Value::Struct(d));

    if let Value::Struct(s) = &value {
        assert_eq!(f32::from_bits(s.field("x").unwrap().as_f32_bits().unwrap()), 4.0);
        assert_eq!(f32::from_bits(s.field("y").unwrap().as_f32_bits().unwrap()), 2.0);
        assert_eq!(f32::from_bits(s.field("z").unwrap().as_f32_bits().unwrap()), 1.0);
    } else {
        panic!("expected a struct");
    }
}

#[test]
fn tuple_info_accessors() {
    let info = TupleInfo::new(
        "(u32, bool)".to_string(),
        42,
        vec!["u32".to_string(), "bool".to_string()],
    );
    assert_eq!(info.type_path(), "(u32, bool)");
    assert_eq!(info.type_id(), 42);
    assert!(info.is(42));
    assert!(!info.is(43));
    assert_eq!(info.field_len(), 2);
    assert_eq!(info.field_at(0).unwrap().as_str(), "u32");
    assert_eq!(info.field_at(1).unwrap().as_str(), "bool");
    assert!(info.field_at(2).is_none());
    assert_eq!(info.iter().len(), 2);
}

#[test]
fn tuple_field_iter_walks_all_fields() {
    let mut t = DynamicTuple::new();
    t.insert(i32v(1));
    t.insert(i32v(2));
    let mut it = TupleFieldIter::new(&t);
    assert!(value_eq(it.next().unwrap(), &i32v(1)));
    assert!(value_eq(it.next().unwrap(), &i32v(2)));
    assert!(it.next().is_none());
}

#[test]
fn tuple_apply_overwrites_positionally() {
    let mut t = DynamicTuple::new();
    t.insert(i32v(1));
    t.insert(i32v(2));
    reflect_diff::tuple::tuple_apply(&mut t, &tuple_of(vec![i32v(10)]));
    assert!(value_eq(t.field(0).unwrap(), &i32v(10)));
    assert!(value_eq(t.field(1).unwrap(), &i32v(2)));
}

fn tuple_of(items: Vec<Value>) -> Value {
    let mut t = DynamicTuple::new();
    for v in items {
        t.insert(v);
    }
    Value::Tuple(t)
}

#[test]
fn composite_uuid_mixes_and_tags_bytes() {
    let a = [0x11u8; 16];
    let b = [0x22u8; 16];
    let r = generate_composite_uuid(a, b);
    // 0x22 rotated right once is 0x11, so most bytes cancel to zero
    assert_eq!(r[0], 0x11 ^ 0x11);
    // the version nibble is forced to 4
    assert_eq!(r[6] & 0xf0, 0x40);
    // the variant bits are forced to the standard variant
    assert_eq!(r[8] & 0xe0, 0x80);
    // composition is order-sensitive
    let rr = generate_composite_uuid(b, a);
    assert_ne!(r, rr);
}

#[test]
fn reflect_partial_eq_probe() {
    let a = u32v(5);
    let b = u32v(5);
    assert_eq!(a.reflect_partial_eq(&b), Some(true));
    assert_eq!(a.reflect_partial_eq(&u32v(6)), Some(false));
    let opaque = Value::Leaf(Leaf::Opaque("some::Unknown".to_string()));
    assert_eq!(a.reflect_partial_eq(&opaque), None);
}

#[test]
fn enum_partial_eq_probe() {
    let a = DynamicEnum::new("E".to_string(), "A".to_string(), VariantData::Unit);
    let b = Value::Enum(DynamicEnum::new(
        "E".to_string(),
        "A".to_string(),
        VariantData::Unit,
    ));
    assert_eq!(enum_partial_eq(&a, &b), Some(true));
    let c = Value::Enum(DynamicEnum::new(
        "E".to_string(),
        "B".to_string(),
        VariantData::Unit,
    ));
    assert_eq!(enum_partial_eq(&a, &c), Some(false));
    assert_eq!(enum_partial_eq(&a, &u32v(1)), Some(false));
}

#[test]
fn variant_accessors() {
    let e = DynamicEnum::new(
        "E".to_string(),
        "A".to_string(),
        VariantData::Tuple(vec![i32v(1), i32v(2)]),
    );
    assert_eq!(e.variant_name(), "A");
    assert_eq!(e.variant_type(), VariantType::Tuple);
    assert!(e.is_variant(VariantType::Tuple));
    assert_eq!(e.field_len(), 2);
    let mut it = VariantFieldIter::new(&e);
    assert!(value_eq(it.next().unwrap(), &i32v(1)));
    assert!(value_eq(it.next().unwrap(), &i32v(2)));
    assert!(it.next().is_none());
}

#[test]
fn list_apply_extends_with_extra_elements() {
    let mut base = DynamicList::new("alloc::vec::Vec<i32>".to_string());
    base.push(i32v(1));
    base.push(i32v(2));
    let mut patch = DynamicList::new("alloc::vec::Vec<i32>".to_string());
    patch.push(i32v(3));
    patch.push(i32v(4));
    patch.push(i32v(5));
    let mut value = Value::List(base);
    value.apply(&Value::List(patch));
    if let Value::List(l) = &value {
        assert_eq!(l.len(), 3);
        assert!(value_eq(l.get(0).unwrap(), &i32v(3)));
        assert!(value_eq(l.get(1).unwrap(), &i32v(4)));
        assert!(value_eq(l.get(2).unwrap(), &i32v(5)));
    } else {
        panic!("expected a list");
    }
}

#[test]
fn map_apply_inserts_missing_keys() {
    let mut base = DynamicMap::default();
    base.insert(i32v(1), i32v(1));
    base.insert(i32v(2), i32v(2));
    let mut patch = DynamicMap::default();
    patch.insert(i32v(2), i32v(3));
    patch.insert(i32v(3), i32v(4));
    let mut value = Value::Mapping(base);
    value.apply(&Value::Mapping(patch));
    if let Value::Mapping(m) = &value {
        assert_eq!(m.len(), 3);
        assert!(value_eq(m.get(&i32v(1)).unwrap(), &i32v(1)));
        assert!(value_eq(m.get(&i32v(2)).unwrap(), &i32v(3)));
        assert!(value_eq(m.get(&i32v(3)).unwrap(), &i32v(4)));
    } else {
        panic!("expected a map");
    }
}

#[test]
fn tuple_partial_eq_probe() {
    let probe = tuple_partial_eq;
    let mut a = DynamicTuple::new();
    a.insert(i32v(1));
    a.insert(i32v(2));
    let mut b = DynamicTuple::new();
    b.insert(i32v(1));
    b.insert(i32v(2));
    assert_eq!(probe(&a, &Value::Tuple(b)), Some(true));
    let mut c = DynamicTuple::new();
    c.insert(i32v(1));
    c.insert(i32v(3));
    assert_eq!(probe(&a, &Value::Tuple(c)), Some(false));
    assert_eq!(probe(&a, &i32v(1)), Some(false));
    let mut d = DynamicTuple::new();
    d.insert(i32v(1));
    d.insert(Value::Leaf(Leaf::Opaque("some::Unknown".to_string())));
    assert_eq!(probe(&a, &Value::Tuple(d)), None);
}

#[test]
fn reflect_complex_patch() {
    fn isize_v(x: isize) -> Value {
        Value::Leaf(Leaf::ISize(x))
    }
    fn usize_v(x: usize) -> Value {
        Value::Leaf(Leaf::USize(x))
    }
    fn i8_v(x: i8) -> Value {
        Value::Leaf(Leaf::I8(x))
    }
    fn bar(x: u32) -> Value {
        let mut s = DynamicStruct::new("Bar".to_string());
        s.insert("x", u32v(x));
        Value::Struct(s)
    }
    fn baz(s0: &str) -> Value {
        let mut t = DynamicTupleStruct::new("Baz".to_string());
        t.insert(strv(s0));
        Value::TupleStruct(t)
    }
    fn isize_list(items: Vec<isize>) -> Value {
        let mut l = DynamicList::new("alloc::vec::Vec<isize>".to_string());
        for x in items {
            l.push(isize_v(x));
        }
        Value::List(l)
    }
    fn usize_i8_map(entries: Vec<(usize, i8)>) -> Value {
        let mut m = DynamicMap::new("Map<usize, i8>".to_string());
        for (k, v) in entries {
            m.insert(usize_v(k), i8_v(v));
        }
        Value::Mapping(m)
    }

    let mut foo = DynamicStruct::new("Foo".to_string());
    foo.insert("a", u32v(1));
    foo.insert("c", isize_list(vec![1, 2]));
    foo.insert("d", usize_i8_map(vec![(1, 1), (2, 2)]));
    foo.insert("e", bar(1));
    {
        let mut f = DynamicTuple::new();
        f.insert(i32v(1));
        f.insert(isize_list(vec![1, 2]));
        f.insert(bar(1));
        foo.insert("f", Value::Tuple(f));
    }
    {
        let mut baz_map = DynamicMap::new("Map<usize, Bar>".to_string());
        baz_map.insert(usize_v(1), bar(0));
        let mut pair = DynamicTuple::new();
        pair.insert(baz("string"));
        pair.insert(Value::Mapping(baz_map));
        let mut g = DynamicList::new("alloc::vec::Vec<(Baz, Map<usize, Bar>)>".to_string());
        g.push(Value::Tuple(pair));
        foo.insert("g", Value::List(g));
    }
    foo.insert(
        "h",
        Value::Array(DynamicArray::from_vec(
            "[u32; 2]".to_string(),
            vec![u32v(2), u32v(2)],
        )),
    );

    let mut foo_patch = DynamicStruct::default();
    foo_patch.insert("a", u32v(2));
    foo_patch.insert("b", u32v(2));
    foo_patch.insert("c", isize_list(vec![3, 4, 5]));
    foo_patch.insert("d", usize_i8_map(vec![(2, 3), (3, 4)]));
    foo_patch.insert("e", bar(2));
    {
        let mut f = DynamicTuple::new();
        f.insert(i32v(2));
        f.insert(isize_list(vec![3, 4, 5]));
        f.insert(bar(2));
        foo_patch.insert("f", Value::Tuple(f));
    }
    {
        let mut inner_map = DynamicMap::new("Map<usize, Bar>".to_string());
        inner_map.insert(usize_v(1), bar(7));
        let mut pair = DynamicTuple::new();
        pair.insert(baz("new_string"));
        pair.insert(Value::Mapping(inner_map));
        let mut g = DynamicList::new("alloc::vec::Vec<(Baz, Map<usize, Bar>)>".to_string());
        g.push(Value::Tuple(pair));
        foo_patch.insert("g", Value::List(g));
    }
    foo_patch.insert(
        "h",
        Value::Array(DynamicArray::from_vec(
            "[u32; 2]".to_string(),
            vec![u32v(2), u32v(2)],
        )),
    );

    let mut value = Value::Struct(foo);
    value.apply(&Value::Struct(foo_patch));

    if let Value::Struct(s) = &value {
        assert_eq!(s.field("a").unwrap().as_u32().unwrap(), 2);
        assert!(s.field("b").is_none());
        assert!(value_eq(s.field("c").unwrap(), &isize_list(vec![3, 4, 5])));
        assert!(value_eq(
            s.field("d").unwrap(),
            &usize_i8_map(vec![(1, 1), (2, 3), (3, 4)])
        ));
        assert!(value_eq(s.field("e").unwrap(), &bar(2)));
        if let Some(Value::Tuple(f)) = s.field("f") {
            assert!(value_eq(f.field(0).unwrap(), &i32v(2)));
            assert!(value_eq(f.field(1).unwrap(), &isize_list(vec![3, 4, 5])));
            assert!(value_eq(f.field(2).unwrap(), &bar(2)));
        } else {
            panic!("expected a tuple");
        }
        if let Some(Value::List(g)) = s.field("g") {
            assert_eq!(g.len(), 1);
            if let Some(Value::Tuple(pair)) = g.get(0) {
                assert!(value_eq(pair.field(0).unwrap(), &baz("new_string")));
                if let Some(Value::Mapping(m)) = pair.field(1) {
                    assert!(value_eq(m.get(&usize_v(1)).unwrap(), &bar(7)));
                } else {
                    panic!("expected a map");
                }
            } else {
                panic!("expected a tuple");
            }
        } else {
            panic!("expected a list");
        }
    } else {
        panic!("expected a struct");
    }
}

#[test]
fn tuple_partial_eq_arity_decides_before_comparability() {
    // shape and arity answer first: an arity mismatch is Some(false)
    // even when one side holds a value without equality support
    let mut a = DynamicTuple::new();
    a.insert(i32v(1));
    a.insert(Value::Leaf(Leaf::Opaque("some::Unknown".to_string())));
    let mut b = DynamicTuple::new();
    b.insert(i32v(1));
    assert_eq!(tuple_partial_eq(&a, &Value::Tuple(b)), Some(false));

    // pairs are probed in order: an unequal pair before the unsupported
    // one answers Some(false)
    let mut c = DynamicTuple::new();
    c.insert(i32v(2));
    c.insert(Value::Leaf(Leaf::Opaque("some::Unknown".to_string())));
    assert_eq!(tuple_partial_eq(&a, &Value::Tuple(c)), Some(false));
}

#[test]
fn enum_field_lookup_and_iteration() {
    let e = DynamicEnum::new(
        "E".to_string(),
        "B".to_string(),
        VariantData::Struct(vec![
            ("name".to_string(), strv("n")),
            ("index".to_string(), u32v(4)),
        ]),
    );
    assert!(value_eq(e.field("name").unwrap(), &strv("n")));
    assert!(value_eq(e.field("index").unwrap(), &u32v(4)));
    assert!(e.field("missing").is_none());
    assert!(value_eq(e.field_at(1).unwrap(), &u32v(4)));

    let mut it = VariantFieldIter::new(&e);
    assert!(value_eq(it.next().unwrap(), &strv("n")));
    assert!(value_eq(it.next().unwrap(), &u32v(4)));
    assert!(it.next().is_none());
}

#[test]
fn reflect_hash_probe() {
    let mut a = DynamicTuple::new();
    a.insert(i32v(1));
    a.insert(strv("two"));
    let mut b = DynamicTuple::new();
    b.insert(i32v(1));
    b.insert(strv("two"));
    let ha = tuple_hash(&a).unwrap();
    let hb = tuple_hash(&b).unwrap();
    assert_eq!(ha, hb);

    let mut c = DynamicTuple::new();
    c.insert(i32v(1));
    c.insert(strv("three"));
    // not guaranteed in general, but pins that contents reach the digest
    assert_ne!(ha, tuple_hash(&c).unwrap());

    let mut d = DynamicTuple::new();
    d.insert(Value::Leaf(Leaf::Opaque("some::Unknown".to_string())));
    assert!(tuple_hash(&d).is_none());

    let v = Value::Tuple(a);
    let w = clone_value(&v);
    assert_eq!(v.reflect_hash(), w.reflect_hash());
    assert!(Value::Leaf(Leaf::Opaque("some::Unknown".to_string()))
        .reflect_hash()
        .is_none());
}

#[test]
fn reflect_hash_undefined_for_by_name_shapes() {
    // maps have no digest: their equality ignores entry order
    let mut map = DynamicMap::default();
    map.insert(u32v(1), strv("one"));
    assert!(Value::Mapping(map).reflect_hash().is_none());

    // nor does anything holding one, however deep
    let mut inner = DynamicMap::default();
    inner.insert(u32v(1), strv("one"));
    let mut t = DynamicTuple::new();
    t.insert(i32v(7));
    t.insert(Value::Mapping(inner));
    assert!(tuple_hash(&t).is_none());
    assert!(Value::Tuple(t).reflect_hash().is_none());

    // structs and struct variants are keyed by name too
    let mut s = DynamicStruct::new("Foo".to_string());
    s.insert("a", u32v(1));
    assert!(Value::Struct(s).reflect_hash().is_none());

    let e = DynamicEnum::new(
        "E".to_string(),
        "V".to_string(),
        VariantData::Struct(vec![("a".to_string(), u32v(1))]),
    );
    assert!(Value::Enum(e).reflect_hash().is_none());

    // while a tuple struct or tuple variant of plain leaves still hashes
    let mut ts = DynamicTupleStruct::new("Bar".to_string());
    ts.insert(u32v(1));
    assert!(Value::TupleStruct(ts).reflect_hash().is_some());
    let ev = DynamicEnum::new(
        "E".to_string(),
        "W".to_string(),
        VariantData::Tuple(vec![u32v(2)]),
    );
    assert!(Value::Enum(ev).reflect_hash().is_some());
}
