use reflect_diff::cloning::clone_value;
use reflect_diff::diff::{Diff, DiffType, EnumDiff, ListDiff, MapDiff};
use reflect_diff::diff_error::{DiffApplyError, DiffError};
use reflect_diff::eq::value_eq;
use reflect_diff::value::{
    DynamicEnum, DynamicList, DynamicMap, DynamicStruct, DynamicTuple, DynamicTupleStruct, Leaf,
    Value, VariantData,
};

fn i32v(x: i32) -> Value {
    Value::Leaf(Leaf::I32(x))
}

fn u32v(x: u32) -> Value {
    Value::Leaf(Leaf::U32(x))
}

fn f32v(x: f32) -> Value {
    Value::Leaf(Leaf::F32Bits(x.to_bits()))
}

fn tuple_of(items: Vec<Value>) -> Value {
    let mut t = DynamicTuple::new();
    for v in items {
        t.insert(v);
    }
    Value::Tuple(t)
}

fn array_of(name: &str, items: Vec<Value>) -> Value {
    Value::Array(reflect_diff::value::DynamicArray::from_vec(
        name.to_string(),
        items,
    ))
}

fn list_of(items: Vec<i32>) -> Value {
    let mut l = DynamicList::new("alloc::vec::Vec<i32>".to_string());
    for x in items {
        l.push(i32v(x));
    }
    Value::List(l)
}

fn map_of(entries: Vec<(i32, i32)>) -> Value {
    let mut m = DynamicMap::new("std::collections::HashMap<i32, i32>".to_string());
    for (k, v) in entries {
        m.insert(i32v(k), i32v(v));
    }
    Value::Mapping(m)
}

fn umap_of(entries: Vec<(i32, u32)>) -> Value {
    let mut m = DynamicMap::new("std::collections::HashMap<i32, u32>".to_string());
    for (k, v) in entries {
        m.insert(i32v(k), u32v(v));
    }
    Value::Mapping(m)
}

fn tuple_struct_of(name: &str, items: Vec<Value>) -> Value {
    let mut t = DynamicTupleStruct::new(name.to_string());
    for v in items {
        t.insert(v);
    }
    Value::TupleStruct(t)
}

fn struct_of(name: &str, fields: Vec<(&str, Value)>) -> Value {
    let mut s = DynamicStruct::new(name.to_string());
    for (n, v) in fields {
        s.insert(n, v);
    }
    Value::Struct(s)
}

/// Diffs, checks the expected kind, applies the diff to the old value, and
/// checks the result equals the new value; then repeats with a deep clone
/// of the old value as the base.
fn assert_diff_applies(old: &Value, new: &Value, check: impl Fn(&Diff)) {
    let d = old.diff(new).unwrap();
    check(&d);
    let out = d.apply(clone_value(old)).unwrap();
    assert!(value_eq(&out, new));

    let d2 = old.diff(new).unwrap();
    let out2 = d2.apply(clone_value(old)).unwrap();
    assert!(value_eq(&out2, new));
}

#[test]
fn should_diff_value() {
    assert_diff_applies(&i32v(123), &i32v(123), |d| {
        assert!(matches!(d, Diff::NoChange));
    });
    assert_diff_applies(&i32v(123), &u32v(123), |d| {
        assert!(matches!(d, Diff::Replaced(..)));
    });
    assert_diff_applies(&i32v(123), &i32v(321), |d| {
        assert!(matches!(d, Diff::Modified(..)));
    });
}

#[test]
fn should_diff_tuple() {
    let a = tuple_of(vec![i32v(1), i32v(2), i32v(3)]);
    let b = tuple_of(vec![i32v(1), i32v(2), i32v(3)]);
    assert_diff_applies(&a, &b, |d| {
        assert!(matches!(d, Diff::NoChange));
    });

    let wider = tuple_of(vec![i32v(1), i32v(2), i32v(3), i32v(4)]);
    assert_diff_applies(&a, &wider, |d| {
        assert!(matches!(d, Diff::Replaced(..)));
    });

    let changed = tuple_of(vec![i32v(1), i32v(0), i32v(3)]);
    assert_diff_applies(&a, &changed, |d| {
        if let Diff::Modified(DiffType::Tuple(t)) = d {
            assert_eq!(t.field_len(), 3);
            assert!(matches!(t.field(0), Some(Diff::NoChange)));
            assert!(matches!(
                t.field(1),
                Some(Diff::Modified(DiffType::Value(..)))
            ));
            assert!(matches!(t.field(2), Some(Diff::NoChange)));
            assert!(t.field(3).is_none());
        } else {
            panic!("expected a tuple delta");
        }
    });
}

#[test]
fn should_diff_array() {
    let a = array_of("[i32; 3]", vec![i32v(1), i32v(2), i32v(3)]);
    let same = array_of("[i32; 3]", vec![i32v(1), i32v(2), i32v(3)]);
    assert_diff_applies(&a, &same, |d| {
        assert!(matches!(d, Diff::NoChange));
    });

    let wider = array_of("[i32; 4]", vec![i32v(1), i32v(2), i32v(3), i32v(4)]);
    assert_diff_applies(&a, &wider, |d| {
        assert!(matches!(d, Diff::Replaced(..)));
    });

    let changed = array_of("[i32; 3]", vec![i32v(1), i32v(0), i32v(3)]);
    assert_diff_applies(&a, &changed, |d| {
        if let Diff::Modified(DiffType::Array(arr)) = d {
            assert_eq!(arr.len(), 3);
            assert!(matches!(arr.get(0), Some(Diff::NoChange)));
            assert!(matches!(
                arr.get(1),
                Some(Diff::Modified(DiffType::Value(..)))
            ));
            assert!(matches!(arr.get(2), Some(Diff::NoChange)));
        } else {
            panic!("expected an array delta");
        }
    });
}

#[test]
fn should_diff_list() {
    assert_diff_applies(&list_of(vec![1, 2, 3]), &list_of(vec![1, 2, 3]), |d| {
        assert!(matches!(d, Diff::NoChange));
    });

    let mut other = DynamicList::new("alloc::vec::Vec<u32>".to_string());
    other.push(u32v(1));
    other.push(u32v(2));
    other.push(u32v(3));
    assert_diff_applies(&list_of(vec![1, 2, 3]), &Value::List(other), |d| {
        assert!(matches!(d, Diff::Replaced(..)));
    });

    assert_diff_applies(&list_of(vec![1, 2, 3]), &list_of(vec![9, 1, 2, 3]), |d| {
        if let Diff::Modified(DiffType::List(l)) = d {
            let ch = l.changes();
            assert_eq!(ch.len(), 1);
            assert!(matches!(ch[0], ListDiff::Inserted(0, _)));
        } else {
            panic!("expected a list delta");
        }
    });

    assert_diff_applies(&list_of(vec![]), &list_of(vec![1, 2, 3]), |d| {
        if let Diff::Modified(DiffType::List(l)) = d {
            let ch = l.changes();
            assert_eq!(ch.len(), 3);
            assert!(matches!(ch[0], ListDiff::Inserted(0, _)));
            assert!(matches!(ch[1], ListDiff::Inserted(0, _)));
            assert!(matches!(ch[2], ListDiff::Inserted(0, _)));
        } else {
            panic!("expected a list delta");
        }
    });

    assert_diff_applies(
        &list_of(vec![1, 2, 3, 4, 5]),
        &list_of(vec![1, 0, 3, 6, 8, 4, 7]),
        |d| {
            if let Diff::Modified(DiffType::List(l)) = d {
                let ch = l.changes();
                assert_eq!(ch.len(), 6);
                assert!(matches!(ch[0], ListDiff::Deleted(1)));
                assert!(matches!(ch[1], ListDiff::Inserted(2, _)));
                assert!(matches!(ch[2], ListDiff::Inserted(3, _)));
                assert!(matches!(ch[3], ListDiff::Inserted(3, _)));
                assert!(matches!(ch[4], ListDiff::Deleted(4)));
                assert!(matches!(ch[5], ListDiff::Inserted(5, _)));
            } else {
                panic!("expected a list delta");
            }
        },
    );
}

#[test]
fn should_diff_map() {
    assert_diff_applies(
        &map_of(vec![(1, 111), (2, 222), (3, 333)]),
        &map_of(vec![(3, 333), (1, 111), (2, 222)]),
        |d| {
            assert!(matches!(d, Diff::NoChange));
        },
    );

    assert_diff_applies(
        &map_of(vec![(1, 111), (2, 222), (3, 333)]),
        &umap_of(vec![(3, 333), (1, 111), (2, 222)]),
        |d| {
            assert!(matches!(d, Diff::Replaced(..)));
        },
    );

    assert_diff_applies(
        &map_of(vec![(1, 111), (2, 222), (3, 333)]),
        &map_of(vec![(3, 333), (1, 111)]),
        |d| {
            if let Diff::Modified(DiffType::Mapping(m)) = d {
                assert_eq!(m.len_changes(), 1);
                assert!(matches!(m.changes()[0], MapDiff::Deleted(_)));
            } else {
                panic!("expected a map delta");
            }
        },
    );

    assert_diff_applies(
        &map_of(vec![(1, 111), (2, 222), (3, 333)]),
        &map_of(vec![(3, 333), (1, 111), (4, 444), (2, 222)]),
        |d| {
            if let Diff::Modified(DiffType::Mapping(m)) = d {
                assert_eq!(m.len_changes(), 1);
                assert!(matches!(m.changes()[0], MapDiff::Inserted(_, _)));
            } else {
                panic!("expected a map delta");
            }
        },
    );

    assert_diff_applies(
        &map_of(vec![(1, 111), (2, 222), (3, 333)]),
        &map_of(vec![(3, 333), (1, 111), (2, 999)]),
        |d| {
            if let Diff::Modified(DiffType::Mapping(m)) = d {
                assert_eq!(m.len_changes(), 1);
                assert!(matches!(
                    m.changes()[0],
                    MapDiff::Modified(_, Diff::Modified(DiffType::Value(..)))
                ));
            } else {
                panic!("expected a map delta");
            }
        },
    );
}

#[test]
fn should_diff_tuple_struct() {
    let a = tuple_struct_of("Foo", vec![i32v(1), i32v(2), i32v(3)]);
    let same = tuple_struct_of("Foo", vec![i32v(1), i32v(2), i32v(3)]);
    assert_diff_applies(&a, &same, |d| {
        assert!(matches!(d, Diff::NoChange));
    });

    let other = tuple_struct_of("Bar", vec![i32v(1), i32v(2), i32v(3), i32v(4)]);
    assert_diff_applies(&a, &other, |d| {
        assert!(matches!(d, Diff::Replaced(..)));
    });

    let changed = tuple_struct_of("Foo", vec![i32v(1), i32v(0), i32v(3)]);
    assert_diff_applies(&a, &changed, |d| {
        if let Diff::Modified(DiffType::TupleStruct(t)) = d {
            assert_eq!(t.field_len(), 3);
            assert!(matches!(t.field(0), Some(Diff::NoChange)));
            assert!(matches!(
                t.field(1),
                Some(Diff::Modified(DiffType::Value(..)))
            ));
            assert!(matches!(t.field(2), Some(Diff::NoChange)));
        } else {
            panic!("expected a tuple struct delta");
        }
    });
}

#[test]
fn should_diff_struct() {
    let a = struct_of("Foo", vec![("a", i32v(123)), ("b", f32v(1.23))]);
    let same = struct_of("Foo", vec![("a", i32v(123)), ("b", f32v(1.23))]);
    assert_diff_applies(&a, &same, |d| {
        assert!(matches!(d, Diff::NoChange));
    });

    let other = struct_of(
        "Bar",
        vec![
            ("a", i32v(123)),
            ("b", f32v(1.23)),
            ("c", Value::Leaf(Leaf::USize(123))),
        ],
    );
    assert_diff_applies(&a, &other, |d| {
        assert!(matches!(d, Diff::Replaced(..)));
    });

    let changed = struct_of("Foo", vec![("a", i32v(123)), ("b", f32v(3.21))]);
    assert_diff_applies(&a, &changed, |d| {
        if let Diff::Modified(DiffType::Struct(s)) = d {
            assert_eq!(s.field_len(), 2);
            let f0 = s.field_at(0).unwrap();
            assert_eq!(f0.0.as_str(), "a");
            assert!(matches!(f0.1, Diff::NoChange));
            let f1 = s.field_at(1).unwrap();
            assert_eq!(f1.0.as_str(), "b");
            assert!(matches!(f1.1, Diff::Modified(DiffType::Value(..))));
        } else {
            panic!("expected a struct delta");
        }
    });
}

fn unit_enum(name: &str, variant: &str) -> Value {
    Value::Enum(DynamicEnum::new(
        name.to_string(),
        variant.to_string(),
        VariantData::Unit,
    ))
}

#[test]
fn should_diff_unit_variant() {
    assert_diff_applies(&unit_enum("Foo", "A"), &unit_enum("Foo", "A"), |d| {
        assert!(matches!(d, Diff::NoChange));
    });

    assert_diff_applies(&unit_enum("Foo", "A"), &unit_enum("Foo", "B"), |d| {
        assert!(matches!(
            d,
            Diff::Modified(DiffType::Enum(EnumDiff::Swapped(..)))
        ));
    });

    assert_diff_applies(&unit_enum("Foo", "A"), &unit_enum("Bar", "A"), |d| {
        assert!(matches!(d, Diff::Replaced(..)));
    });
}

fn tuple_enum(name: &str, variant: &str, items: Vec<Value>) -> Value {
    Value::Enum(DynamicEnum::new(
        name.to_string(),
        variant.to_string(),
        VariantData::Tuple(items),
    ))
}

#[test]
fn should_diff_tuple_variant() {
    let a = tuple_enum("Foo", "A", vec![i32v(1), i32v(2), i32v(3)]);
    let same = tuple_enum("Foo", "A", vec![i32v(1), i32v(2), i32v(3)]);
    assert_diff_applies(&a, &same, |d| {
        assert!(matches!(d, Diff::NoChange));
    });

    let swapped = tuple_enum("Foo", "B", vec![i32v(1), i32v(2), i32v(3)]);
    assert_diff_applies(&a, &swapped, |d| {
        assert!(matches!(
            d,
            Diff::Modified(DiffType::Enum(EnumDiff::Swapped(..)))
        ));
    });

    let other_type = tuple_enum("Bar", "A", vec![i32v(1), i32v(2), i32v(3)]);
    assert_diff_applies(&a, &other_type, |d| {
        assert!(matches!(d, Diff::Replaced(..)));
    });

    let changed = tuple_enum("Foo", "A", vec![i32v(1), i32v(0), i32v(3)]);
    assert_diff_applies(&a, &changed, |d| {
        if let Diff::Modified(DiffType::Enum(EnumDiff::Tuple(t))) = d {
            assert_eq!(t.field_len(), 3);
            assert!(matches!(t.field(0), Some(Diff::NoChange)));
            assert!(matches!(
                t.field(1),
                Some(Diff::Modified(DiffType::Value(..)))
            ));
            assert!(matches!(t.field(2), Some(Diff::NoChange)));
        } else {
            panic!("expected a tuple variant delta");
        }
    });
}

fn struct_enum(name: &str, variant: &str, fields: Vec<(&str, Value)>) -> Value {
    let fields = fields
        .into_iter()
        .map(|(n, v)| (n.to_string(), v))
        .collect();
    Value::Enum(DynamicEnum::new(
        name.to_string(),
        variant.to_string(),
        VariantData::Struct(fields),
    ))
}

#[test]
fn should_diff_struct_variant() {
    let a = struct_enum("Foo", "A", vec![("x", f32v(1.23)), ("y", f32v(4.56))]);
    let same = struct_enum("Foo", "A", vec![("x", f32v(1.23)), ("y", f32v(4.56))]);
    assert_diff_applies(&a, &same, |d| {
        assert!(matches!(d, Diff::NoChange));
    });

    let swapped = struct_enum("Foo", "B", vec![("x", f32v(1.23)), ("y", f32v(4.56))]);
    assert_diff_applies(&a, &swapped, |d| {
        assert!(matches!(
            d,
            Diff::Modified(DiffType::Enum(EnumDiff::Swapped(..)))
        ));
    });

    let other_type = struct_enum("Bar", "A", vec![("x", f32v(1.23)), ("y", f32v(4.56))]);
    assert_diff_applies(&a, &other_type, |d| {
        assert!(matches!(d, Diff::Replaced(..)));
    });

    let changed = struct_enum("Foo", "A", vec![("x", f32v(1.23)), ("y", f32v(7.89))]);
    assert_diff_applies(&a, &changed, |d| {
        if let Diff::Modified(DiffType::Enum(EnumDiff::Struct(s))) = d {
            assert_eq!(s.field_len(), 2);
            let f0 = s.field_at(0).unwrap();
            assert_eq!(f0.0.as_str(), "x");
            assert!(matches!(f0.1, Diff::NoChange));
            let f1 = s.field_at(1).unwrap();
            assert_eq!(f1.0.as_str(), "y");
            assert!(matches!(f1.1, Diff::Modified(DiffType::Value(..))));
        } else {
            panic!("expected a struct variant delta");
        }
    });
}

#[test]
fn apply_no_change_returns_base_unchanged() {
    let base = struct_of("Foo", vec![("a", i32v(1))]);
    let copy = clone_value(&base);
    let out = Diff::NoChange.apply(base).unwrap();
    assert!(value_eq(&out, &copy));
}

#[test]
fn diff_incomparable_opaque() {
    let a = Value::Leaf(Leaf::Opaque("some::Unknown".to_string()));
    let b = Value::Leaf(Leaf::Opaque("some::Unknown".to_string()));
    assert!(matches!(a.diff(&b), Err(DiffError::Incomparable)));

    let c = Value::Leaf(Leaf::Opaque("other::Unknown".to_string()));
    assert!(matches!(a.diff(&c), Ok(Diff::Replaced(..))));
}

#[test]
fn diff_shape_mismatch_errors() {
    let t = tuple_of(vec![i32v(1)]);
    let l = list_of(vec![1]);
    assert!(matches!(t.diff(&i32v(1)), Err(DiffError::ExpectedTuple)));
    assert!(matches!(l.diff(&i32v(1)), Err(DiffError::ExpectedList)));
    assert!(matches!(
        map_of(vec![]).diff(&i32v(1)),
        Err(DiffError::ExpectedMap)
    ));
    assert!(matches!(
        struct_of("S", vec![]).diff(&i32v(1)),
        Err(DiffError::ExpectedStruct)
    ));
}

#[test]
fn apply_shape_mismatch_errors() {
    let t = tuple_of(vec![i32v(1)]);
    let changed = tuple_of(vec![i32v(2)]);
    let d = t.diff(&changed).unwrap();
    assert!(matches!(
        d.apply(i32v(5)),
        Err(DiffApplyError::ExpectedTuple)
    ));

    let l = list_of(vec![1]);
    let l2 = list_of(vec![2]);
    let d = l.diff(&l2).unwrap();
    let mut renamed = DynamicList::new("alloc::vec::Vec<u64>".to_string());
    renamed.push(Value::Leaf(Leaf::U64(1)));
    assert!(matches!(
        d.apply(Value::List(renamed)),
        Err(DiffApplyError::TypeMismatch)
    ));
}

#[test]
fn diff_struct_missing_field_errors() {
    // same claimed type name but a field of the old value is missing from
    // the new one: the type-identity contract is broken upstream
    let a = struct_of("Foo", vec![("a", i32v(1)), ("b", i32v(2))]);
    let b = struct_of("Foo", vec![("a", i32v(1))]);
    assert!(matches!(a.diff(&b), Err(DiffError::MissingField)));
}

#[test]
fn list_edit_script_from_doc_example() {
    let old = list_of(vec![8, -1, 5]);
    let new = list_of(vec![9, 8, 7, 6, 5]);
    let d = old.diff(&new).unwrap();
    if let Diff::Modified(DiffType::List(l)) = &d {
        let ch = l.changes();
        assert_eq!(ch.len(), 4);
        assert!(matches!(ch[0], ListDiff::Inserted(0, _)));
        assert!(matches!(ch[1], ListDiff::Deleted(1)));
        assert!(matches!(ch[2], ListDiff::Inserted(2, _)));
        assert!(matches!(ch[3], ListDiff::Inserted(2, _)));
        assert_eq!(ch[0].index(), 0);
    } else {
        panic!("expected a list delta");
    }
    let out = d.apply(clone_value(&old)).unwrap();
    assert!(value_eq(&out, &new));
}

#[test]
fn map_diff_applies_all_edit_kinds_at_once() {
    let old = map_of(vec![(1, 111), (2, 222), (3, 333)]);
    let new = map_of(vec![(2, 999), (3, 333), (4, 444)]);
    let d = old.diff(&new).unwrap();
    if let Diff::Modified(DiffType::Mapping(m)) = &d {
        assert_eq!(m.len_changes(), 3);
        let mut deleted = 0;
        let mut inserted = 0;
        let mut modified = 0;
        for ch in m.changes() {
            match ch {
                MapDiff::Deleted(k) => {
                    deleted += 1;
                    assert!(value_eq(k.value(), &i32v(1)));
                }
                MapDiff::Inserted(k, v) => {
                    inserted += 1;
                    assert!(value_eq(k.value(), &i32v(4)));
                    assert!(value_eq(v.value(), &i32v(444)));
                }
                MapDiff::Modified(k, _) => {
                    modified += 1;
                    assert!(value_eq(k.value(), &i32v(2)));
                }
            }
        }
        assert_eq!((deleted, inserted, modified), (1, 1, 1));
    } else {
        panic!("expected a map delta");
    }
    let out = d.apply(clone_value(&old)).unwrap();
    assert!(value_eq(&out, &new));
}

#[test]
fn nested_structures_round_trip() {
    let old = struct_of(
        "Outer",
        vec![
            ("items", list_of(vec![1, 2, 3])),
            ("pair", tuple_of(vec![i32v(1), f32v(2.0)])),
            ("table", map_of(vec![(1, 10), (2, 20)])),
        ],
    );
    let new = struct_of(
        "Outer",
        vec![
            ("items", list_of(vec![0, 1, 3, 4])),
            ("pair", tuple_of(vec![i32v(1), f32v(2.5)])),
            ("table", map_of(vec![(2, 21), (3, 30)])),
        ],
    );
    let d = old.diff(&new).unwrap();
    assert!(matches!(d, Diff::Modified(DiffType::Struct(..))));
    let out = d.apply(clone_value(&old)).unwrap();
    assert!(value_eq(&out, &new));
}

#[test]
fn diff_list_of_incomparable_elements_errors() {
    // two same-named lists whose element comparison is unsupported:
    // the Incomparable error propagates out of element comparison
    let mut a = DynamicList::new("alloc::vec::Vec<foo::Opaque>".to_string());
    a.push(Value::Leaf(Leaf::Opaque("foo::Opaque".to_string())));
    let mut b = DynamicList::new("alloc::vec::Vec<foo::Opaque>".to_string());
    b.push(Value::Leaf(Leaf::Opaque("foo::Opaque".to_string())));
    assert!(matches!(
        Value::List(a).diff(&Value::List(b)),
        Err(DiffError::Incomparable)
    ));

    // lists of a different type identity never compare elements
    let mut c = DynamicList::new("alloc::vec::Vec<bar::Opaque>".to_string());
    c.push(Value::Leaf(Leaf::Opaque("bar::Opaque".to_string())));
    let mut d = DynamicList::new("alloc::vec::Vec<foo::Opaque>".to_string());
    d.push(Value::Leaf(Leaf::Opaque("foo::Opaque".to_string())));
    assert!(matches!(
        Value::List(c).diff(&Value::List(d)),
        Ok(Diff::Replaced(..))
    ));
}

fn opaque(name: &str) -> Value {
    Value::Leaf(Leaf::Opaque(name.to_string()))
}

#[test]
fn diff_incomparable_propagates_through_containers() {
    // an unsupported element comparison surfaces from every container shape
    let a = tuple_of(vec![i32v(1), opaque("foo::Opaque")]);
    let b = tuple_of(vec![i32v(2), opaque("foo::Opaque")]);
    assert!(matches!(a.diff(&b), Err(DiffError::Incomparable)));

    let a = array_of("[foo::Opaque; 1]", vec![opaque("foo::Opaque")]);
    let b = array_of("[foo::Opaque; 1]", vec![opaque("foo::Opaque")]);
    assert!(matches!(a.diff(&b), Err(DiffError::Incomparable)));

    let a = tuple_struct_of("Holder", vec![opaque("foo::Opaque")]);
    let b = tuple_struct_of("Holder", vec![opaque("foo::Opaque")]);
    assert!(matches!(a.diff(&b), Err(DiffError::Incomparable)));

    let a = struct_of("Holder", vec![("x", opaque("foo::Opaque"))]);
    let b = struct_of("Holder", vec![("x", opaque("foo::Opaque"))]);
    assert!(matches!(a.diff(&b), Err(DiffError::Incomparable)));

    // a map propagates an unsupported comparison of key-matched values
    let mut m1 = DynamicMap::new("Table".to_string());
    m1.insert(i32v(1), opaque("foo::Opaque"));
    let mut m2 = DynamicMap::new("Table".to_string());
    m2.insert(i32v(1), opaque("foo::Opaque"));
    assert!(matches!(
        Value::Mapping(m1).diff(&Value::Mapping(m2)),
        Err(DiffError::Incomparable)
    ));

    // an enum propagates it out of a shared variant's fields
    let e1 = Value::Enum(DynamicEnum::new(
        "E".to_string(),
        "V".to_string(),
        VariantData::Tuple(vec![opaque("foo::Opaque")]),
    ));
    let e2 = Value::Enum(DynamicEnum::new(
        "E".to_string(),
        "V".to_string(),
        VariantData::Tuple(vec![opaque("foo::Opaque")]),
    ));
    assert!(matches!(e1.diff(&e2), Err(DiffError::Incomparable)));

    // a missing field is reported before field comparability is examined
    let a = struct_of(
        "Holder",
        vec![("x", opaque("foo::Opaque")), ("gone", i32v(1))],
    );
    let b = struct_of("Holder", vec![("x", opaque("foo::Opaque"))]);
    assert!(matches!(a.diff(&b), Err(DiffError::MissingField)));

    // nested: a list of tuples that hold an unsupported pair
    let mut e = DynamicList::new("alloc::vec::Vec<(i32, foo::Opaque)>".to_string());
    e.push(tuple_of(vec![
        i32v(1),
        Value::Leaf(Leaf::Opaque("foo::Opaque".to_string())),
    ]));
    let mut f = DynamicList::new("alloc::vec::Vec<(i32, foo::Opaque)>".to_string());
    f.push(tuple_of(vec![
        i32v(2),
        Value::Leaf(Leaf::Opaque("foo::Opaque".to_string())),
    ]));
    assert!(matches!(
        Value::List(e).diff(&Value::List(f)),
        Err(DiffError::Incomparable)
    ));
}
