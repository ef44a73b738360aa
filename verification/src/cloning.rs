//! Deep cloning of reflected values.
//!
//! [`clone_value`] produces an owned value whose mathematical model is
//! exactly that of the original; every engine of the library relies on this
//! when it captures a value inside a delta.

use vstd::prelude::*;

use crate::value::{
    entries_vmodel, lemma_entries_vmodel, lemma_named_vmodel, lemma_seq_vmodel, named_vmodel,
    seq_vmodel, DynamicArray, DynamicEnum, DynamicList, DynamicMap, DynamicStruct, DynamicTuple,
    DynamicTupleStruct, Leaf, Value, VariantData,
};

verus! {

broadcast use lemma_seq_vmodel, lemma_named_vmodel, lemma_entries_vmodel;

/// Clones a leaf.
pub fn clone_leaf(l: &Leaf) -> (r: Leaf)
    ensures
        r.lmodel() == l.lmodel(),
{
    match l {
        Leaf::Bool(x) => Leaf::Bool(*x),
        Leaf::I8(x) => Leaf::I8(*x),
        Leaf::I16(x) => Leaf::I16(*x),
        Leaf::I32(x) => Leaf::I32(*x),
        Leaf::I64(x) => Leaf::I64(*x),
        Leaf::ISize(x) => Leaf::ISize(*x),
        Leaf::U8(x) => Leaf::U8(*x),
        Leaf::U16(x) => Leaf::U16(*x),
        Leaf::U32(x) => Leaf::U32(*x),
        Leaf::U64(x) => Leaf::U64(*x),
        Leaf::USize(x) => Leaf::USize(*x),
        Leaf::Str(s) => Leaf::Str(s.clone()),
        Leaf::F32Bits(x) => Leaf::F32Bits(*x),
        Leaf::F64Bits(x) => Leaf::F64Bits(*x),
        Leaf::Opaque(n) => Leaf::Opaque(n.clone()),
    }
}

/// Clones an optional type-name tag.
fn clone_represented(r0: &Option<String>) -> (r: Option<String>)
    ensures
        r == r0,
{
    match r0 {
        Option::Some(s) => Option::Some(s.clone()),
        Option::None => Option::None,
    }
}

/// Deep-clones a value; the clone has the same mathematical model.
pub fn clone_value(v: &Value) -> (r: Value)
    ensures
        r.vmodel() == v.vmodel(),
    decreases v,
{
    match v {
        Value::Leaf(l) => Value::Leaf(clone_leaf(l)),
        Value::Tuple(t) => {
            let fields = clone_values(&t.fields);
            Value::Tuple(
                DynamicTuple {
                    name: t.name.clone(),
                    represented: clone_represented(&t.represented),
                    fields,
                },
            )
        },
        Value::Array(a) => {
            let elements = clone_values(&a.elements);
            Value::Array(
                DynamicArray {
                    name: a.name.clone(),
                    represented: clone_represented(&a.represented),
                    elements,
                },
            )
        },
        Value::List(l) => {
            let elements = clone_values(&l.elements);
            Value::List(
                DynamicList {
                    name: l.name.clone(),
                    represented: clone_represented(&l.represented),
                    elements,
                },
            )
        },
        Value::Mapping(m) => {
            let entries = clone_entries(&m.entries);
            Value::Mapping(
                DynamicMap {
                    name: m.name.clone(),
                    represented: clone_represented(&m.represented),
                    entries,
                },
            )
        },
        Value::TupleStruct(t) => {
            let fields = clone_values(&t.fields);
            Value::TupleStruct(
                DynamicTupleStruct {
                    name: t.name.clone(),
                    represented: clone_represented(&t.represented),
                    fields,
                },
            )
        },
        Value::Struct(s) => {
            let fields = clone_named(&s.fields);
            Value::Struct(
                DynamicStruct {
                    name: s.name.clone(),
                    represented: clone_represented(&s.represented),
                    fields,
                },
            )
        },
        Value::Enum(e) => {
            let data = clone_variant_data(&e.data);
            Value::Enum(
                DynamicEnum { name: e.name.clone(), variant_name: e.variant_name.clone(), data },
            )
        },
    }
}

/// Deep-clones a vector of values, preserving the elementwise models.
pub fn clone_values(s: &Vec<Value>) -> (r: Vec<Value>)
    ensures
        seq_vmodel(r@) == seq_vmodel(s@),
    decreases s,
{
    let mut r: Vec<Value> = Vec::new();
    let mut i: usize = 0;
    while i < s.len()
        invariant
            i <= s.len(),
            r@.len() == i,
            forall|k: int| 0 <= k < i ==> (#[trigger] r@[k]).vmodel() == s@[k].vmodel(),
        decreases s.len() - i,
    {
        r.push(clone_value(&s[i]));
        i += 1;
    }
    proof {
        assert forall|k: int| 0 <= k < s@.len() implies seq_vmodel(r@)[k] == seq_vmodel(
            s@,
        )[k] by {
            assert(r@[k].vmodel() == s@[k].vmodel());
        }
        assert(seq_vmodel(r@) =~= seq_vmodel(s@));
    }
    r
}

/// Deep-clones a vector of named fields, preserving the elementwise models.
pub fn clone_named(s: &Vec<(String, Value)>) -> (r: Vec<(String, Value)>)
    ensures
        named_vmodel(r@) == named_vmodel(s@),
    decreases s,
{
    let mut r: Vec<(String, Value)> = Vec::new();
    let mut i: usize = 0;
    while i < s.len()
        invariant
            i <= s.len(),
            r@.len() == i,
            forall|k: int|
                0 <= k < i ==> (#[trigger] r@[k]).0@ == s@[k].0@
                    && r@[k].1.vmodel() == s@[k].1.vmodel(),
        decreases s.len() - i,
    {
        let name = s[i].0.clone();
        let val = clone_value(&s[i].1);
        r.push((name, val));
        i += 1;
    }
    proof {
        assert forall|k: int| 0 <= k < s@.len() implies named_vmodel(r@)[k] == named_vmodel(
            s@,
        )[k] by {
            assert(r@[k].0@ == s@[k].0@ && r@[k].1.vmodel() == s@[k].1.vmodel());
        }
        assert(named_vmodel(r@) =~= named_vmodel(s@));
    }
    r
}

/// Deep-clones a vector of map entries, preserving the elementwise models.
pub fn clone_entries(s: &Vec<(Value, Value)>) -> (r: Vec<(Value, Value)>)
    ensures
        entries_vmodel(r@) == entries_vmodel(s@),
    decreases s,
{
    let mut r: Vec<(Value, Value)> = Vec::new();
    let mut i: usize = 0;
    while i < s.len()
        invariant
            i <= s.len(),
            r@.len() == i,
            forall|k: int|
                0 <= k < i ==> (#[trigger] r@[k]).0.vmodel() == s@[k].0.vmodel()
                    && r@[k].1.vmodel() == s@[k].1.vmodel(),
        decreases s.len() - i,
    {
        let key = clone_value(&s[i].0);
        let val = clone_value(&s[i].1);
        r.push((key, val));
        i += 1;
    }
    proof {
        assert forall|k: int| 0 <= k < s@.len() implies entries_vmodel(r@)[k] == entries_vmodel(
            s@,
        )[k] by {
            assert(r@[k].0.vmodel() == s@[k].0.vmodel() && r@[k].1.vmodel() == s@[k].1.vmodel());
        }
        assert(entries_vmodel(r@) =~= entries_vmodel(s@));
    }
    r
}

/// Deep-clones the data of an enum variant.
pub fn clone_variant_data(d: &VariantData) -> (r: VariantData)
    ensures
        r.dmodel() == d.dmodel(),
    decreases d,
{
    match d {
        VariantData::Unit => VariantData::Unit,
        VariantData::Tuple(fields) => VariantData::Tuple(clone_values(fields)),
        VariantData::Struct(fields) => VariantData::Struct(clone_named(fields)),
    }
}

impl Clone for Value {
    /// Deep clone; the clone has the same mathematical model.
    fn clone(&self) -> (r: Self)
        ensures
            r.vmodel() == self.vmodel(),
    {
        clone_value(self)
    }
}

} // verus!
