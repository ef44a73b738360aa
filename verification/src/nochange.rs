//! The executable no-change test, and the lookup helpers of the struct and
//! map algorithms.
//!
//! [`nochange_exec`] decides [`crate::model::nochange`]: whether the diff
//! of two values would report no change.  The list diff engine uses it to
//! decide which elements count as common.

use vstd::prelude::*;

use crate::eq::value_eq;
use crate::lemmas::{
    lemma_lookup_entry_at, lemma_lookup_entry_none, lemma_lookup_field_at,
    lemma_lookup_field_none,
};
use crate::model::{
    entries_nochange, entries_unsupported, lookup_entry, lookup_field, named_nochange,
    named_unsupported, nc_unsupported, nochange, pairs_unsupported, seq_nochange,
    seq_unsupported, variant_nochange, variant_unsupported, veq,
};
use crate::value::{
    effective_name, entries_vmodel, lemma_entries_vmodel, lemma_named_vmodel, lemma_seq_vmodel,
    named_vmodel, seq_vmodel, Leaf, Value, VariantData,
};

verus! {

broadcast use lemma_seq_vmodel, lemma_named_vmodel, lemma_entries_vmodel;

/// The type name a container reports: the represented type if tagged, else
/// its own name.
pub fn effective_ref<'a>(name: &'a String, represented: &'a Option<String>) -> (r: &'a String)
    ensures
        r@ == effective_name(name@, *represented),
{
    match represented {
        Option::Some(n) => n,
        Option::None => name,
    }
}

/// The value of the first field of `fields` with the given name, if any.
pub fn find_field<'a>(fields: &'a Vec<(String, Value)>, name: &String) -> (r: Option<
    &'a Value,
>)
    ensures
        r is Some ==> lookup_field(named_vmodel(fields@), name@) == Option::Some(
            r->0.vmodel(),
        ),
        r is None ==> lookup_field(named_vmodel(fields@), name@) is None,
{
    let mut j: usize = 0;
    while j < fields.len()
        invariant
            j <= fields.len(),
            forall|k: int| 0 <= k < j ==> (#[trigger] named_vmodel(fields@)[k]).0 != name@,
        decreases fields.len() - j,
    {
        if fields[j].0 == *name {
            proof {
                lemma_lookup_field_at(named_vmodel(fields@), name@, j as int);
            }
            return Option::Some(&fields[j].1);
        }
        j += 1;
    }
    proof {
        lemma_lookup_field_none(named_vmodel(fields@), name@);
    }
    Option::None
}

/// Whether some field of `fields` carries the given name.
pub fn has_field_name(fields: &Vec<(String, Value)>, name: &String) -> (r: bool)
    ensures
        r == (exists|i: int|
            0 <= i < named_vmodel(fields@).len() && (#[trigger] named_vmodel(fields@)[i]).0
                == name@),
{
    let mut j: usize = 0;
    while j < fields.len()
        invariant
            j <= fields.len(),
            forall|k: int| 0 <= k < j ==> (#[trigger] named_vmodel(fields@)[k]).0 != name@,
        decreases fields.len() - j,
    {
        if fields[j].0 == *name {
            assert((named_vmodel(fields@)[j as int]).0 == name@);
            return true;
        }
        j += 1;
    }
    false
}

/// The value of the first entry of `entries` whose key is observationally
/// equal to `key`, if any.
pub fn find_entry<'a>(entries: &'a Vec<(Value, Value)>, key: &Value) -> (r: Option<&'a Value>)
    ensures
        r is Some ==> lookup_entry(entries_vmodel(entries@), key.vmodel()) == Option::Some(
            r->0.vmodel(),
        ),
        r is None ==> lookup_entry(entries_vmodel(entries@), key.vmodel()) is None,
{
    let mut j: usize = 0;
    while j < entries.len()
        invariant
            j <= entries.len(),
            forall|k: int|
                0 <= k < j ==> !veq((#[trigger] entries_vmodel(entries@)[k]).0, key.vmodel()),
        decreases entries.len() - j,
    {
        if value_eq(&entries[j].0, key) {
            proof {
                lemma_lookup_entry_at(entries_vmodel(entries@), key.vmodel(), j as int);
            }
            return Option::Some(&entries[j].1);
        }
        j += 1;
    }
    proof {
        lemma_lookup_entry_none(entries_vmodel(entries@), key.vmodel());
    }
    Option::None
}

/// Whether some entry of `entries` has a key observationally equal to
/// `key`.
pub fn has_key(entries: &Vec<(Value, Value)>, key: &Value) -> (r: bool)
    ensures
        r == (exists|i: int|
            0 <= i < entries_vmodel(entries@).len() && veq(
                (#[trigger] entries_vmodel(entries@)[i]).0,
                key.vmodel(),
            )),
{
    let mut j: usize = 0;
    while j < entries.len()
        invariant
            j <= entries.len(),
            forall|k: int|
                0 <= k < j ==> !veq((#[trigger] entries_vmodel(entries@)[k]).0, key.vmodel()),
        decreases entries.len() - j,
    {
        if value_eq(&entries[j].0, key) {
            assert(veq((entries_vmodel(entries@)[j as int]).0, key.vmodel()));
            return true;
        }
        j += 1;
    }
    false
}

/// Whether the diff of `a` against `b` would report no change.
pub fn nochange_exec(a: &Value, b: &Value) -> (r: bool)
    ensures
        r == nochange(a.vmodel(), b.vmodel()),
    decreases a, 0int,
{
    match (a, b) {
        (Value::Leaf(x), Value::Leaf(y)) => crate::eq::leaf_eq(x, y),
        (Value::Tuple(t1), Value::Tuple(t2)) => {
            let n1 = effective_ref(&t1.name, &t1.represented);
            let n2 = effective_ref(&t2.name, &t2.represented);
            *n1 == *n2 && seq_nochange_exec(&t1.fields, &t2.fields)
        },
        (Value::Array(a1), Value::Array(a2)) => {
            let n1 = effective_ref(&a1.name, &a1.represented);
            let n2 = effective_ref(&a2.name, &a2.represented);
            *n1 == *n2 && seq_nochange_exec(&a1.elements, &a2.elements)
        },
        (Value::List(l1), Value::List(l2)) => {
            let n1 = effective_ref(&l1.name, &l1.represented);
            let n2 = effective_ref(&l2.name, &l2.represented);
            *n1 == *n2 && seq_nochange_exec(&l1.elements, &l2.elements)
        },
        (Value::Mapping(m1), Value::Mapping(m2)) => {
            let n1 = effective_ref(&m1.name, &m1.represented);
            let n2 = effective_ref(&m2.name, &m2.represented);
            *n1 == *n2 && entries_nochange_exec(&m1.entries, &m2.entries)
        },
        (Value::TupleStruct(t1), Value::TupleStruct(t2)) => {
            let n1 = effective_ref(&t1.name, &t1.represented);
            let n2 = effective_ref(&t2.name, &t2.represented);
            *n1 == *n2 && seq_nochange_exec(&t1.fields, &t2.fields)
        },
        (Value::Struct(s1), Value::Struct(s2)) => {
            let n1 = effective_ref(&s1.name, &s1.represented);
            let n2 = effective_ref(&s2.name, &s2.represented);
            *n1 == *n2 && named_nochange_exec(&s1.fields, &s2.fields)
        },
        (Value::Enum(e1), Value::Enum(e2)) => e1.name == e2.name && e1.variant_name
            == e2.variant_name && variant_nochange_exec(&e1.data, &e2.data),
        _ => false,
    }
}

/// Positional no-change of two field vectors.
fn seq_nochange_exec(a: &Vec<Value>, b: &Vec<Value>) -> (r: bool)
    ensures
        r == seq_nochange(seq_vmodel(a@), seq_vmodel(b@)),
    decreases a, 1int,
{
    if a.len() != b.len() {
        return false;
    }
    let mut i: usize = 0;
    while i < a.len()
        invariant
            i <= a.len(),
            a@.len() == b@.len(),
            forall|k: int|
                0 <= k < i ==> nochange(#[trigger] seq_vmodel(a@)[k], seq_vmodel(b@)[k]),
        decreases a.len() - i,
    {
        if !nochange_exec(&a[i], &b[i]) {
            assert(!nochange(seq_vmodel(a@)[i as int], seq_vmodel(b@)[i as int]));
            return false;
        }
        i += 1;
    }
    true
}

/// By-name no-change of two named-field vectors.
fn named_nochange_exec(a: &Vec<(String, Value)>, b: &Vec<(String, Value)>) -> (r: bool)
    ensures
        r == named_nochange(named_vmodel(a@), named_vmodel(b@)),
    decreases a, 2int,
{
    let ghost ma = named_vmodel(a@);
    let ghost mb = named_vmodel(b@);
    let mut i: usize = 0;
    while i < a.len()
        invariant
            i <= a.len(),
            ma == named_vmodel(a@),
            mb == named_vmodel(b@),
            forall|k: int|
                0 <= k < i ==> lookup_field(mb, (#[trigger] ma[k]).0) is Some && nochange(
                    ma[k].1,
                    lookup_field(mb, ma[k].0)->0,
                ),
        decreases a.len() - i,
    {
        let found = find_field(b, &a[i].0);
        match found {
            Option::None => {
                assert(lookup_field(mb, ma[i as int].0) is None);
                return false;
            },
            Option::Some(v2) => {
                if !nochange_exec(&a[i].1, v2) {
                    assert(!nochange(ma[i as int].1, lookup_field(mb, ma[i as int].0)->0));
                    return false;
                }
            },
        }
        i += 1;
    }
    let mut j: usize = 0;
    while j < b.len()
        invariant
            j <= b.len(),
            ma == named_vmodel(a@),
            mb == named_vmodel(b@),
            forall|k: int|
                0 <= k < ma.len() ==> lookup_field(mb, (#[trigger] ma[k]).0) is Some && nochange(
                    ma[k].1,
                    lookup_field(mb, ma[k].0)->0,
                ),
            forall|k: int|
                0 <= k < j ==> exists|i2: int|
                    0 <= i2 < ma.len() && (#[trigger] ma[i2]).0 == (#[trigger] mb[k]).0,
        decreases b.len() - j,
    {
        if !has_field_name(a, &b[j].0) {
            assert(!(exists|i2: int|
                0 <= i2 < ma.len() && (#[trigger] ma[i2]).0 == (mb[j as int]).0));
            assert(!named_nochange(ma, mb));
            return false;
        }
        j += 1;
    }
    assert(named_nochange(ma, mb));
    true
}

/// Entry-set no-change of two map-entry vectors.
fn entries_nochange_exec(a: &Vec<(Value, Value)>, b: &Vec<(Value, Value)>) -> (r: bool)
    ensures
        r == entries_nochange(entries_vmodel(a@), entries_vmodel(b@)),
    decreases a, 2int,
{
    let ghost ma = entries_vmodel(a@);
    let ghost mb = entries_vmodel(b@);
    let mut i: usize = 0;
    while i < a.len()
        invariant
            i <= a.len(),
            ma == entries_vmodel(a@),
            mb == entries_vmodel(b@),
            forall|k: int|
                0 <= k < i ==> lookup_entry(mb, (#[trigger] ma[k]).0) is Some && nochange(
                    ma[k].1,
                    lookup_entry(mb, ma[k].0)->0,
                ),
        decreases a.len() - i,
    {
        let found = find_entry(b, &a[i].0);
        match found {
            Option::None => {
                assert(lookup_entry(mb, ma[i as int].0) is None);
                return false;
            },
            Option::Some(v2) => {
                if !nochange_exec(&a[i].1, v2) {
                    assert(!nochange(ma[i as int].1, lookup_entry(mb, ma[i as int].0)->0));
                    return false;
                }
            },
        }
        i += 1;
    }
    let mut j: usize = 0;
    while j < b.len()
        invariant
            j <= b.len(),
            ma == entries_vmodel(a@),
            mb == entries_vmodel(b@),
            forall|k: int|
                0 <= k < ma.len() ==> lookup_entry(mb, (#[trigger] ma[k]).0) is Some && nochange(
                    ma[k].1,
                    lookup_entry(mb, ma[k].0)->0,
                ),
            forall|k: int|
                0 <= k < j ==> exists|i2: int|
                    0 <= i2 < ma.len() && veq((#[trigger] ma[i2]).0, (#[trigger] mb[k]).0),
        decreases b.len() - j,
    {
        if !has_key(a, &b[j].0) {
            assert(!(exists|i2: int|
                0 <= i2 < ma.len() && veq((#[trigger] ma[i2]).0, (mb[j as int]).0)));
            assert(!entries_nochange(ma, mb));
            return false;
        }
        j += 1;
    }
    assert(entries_nochange(ma, mb));
    true
}

/// No-change of the data of two enum variants of the same name.
fn variant_nochange_exec(a: &VariantData, b: &VariantData) -> (r: bool)
    ensures
        r == variant_nochange(a.dmodel(), b.dmodel()),
    decreases a, 3int,
{
    match (a, b) {
        (VariantData::Unit, VariantData::Unit) => true,
        (VariantData::Tuple(f1), VariantData::Tuple(f2)) => seq_nochange_exec(f1, f2),
        (VariantData::Struct(f1), VariantData::Struct(f2)) => named_nochange_exec(f1, f2),
        _ => false,
    }
}


/// Whether testing `a` against `b` for no-change would reach a comparison
/// that equality does not support.
pub fn nc_unsupported_exec(a: &Value, b: &Value) -> (r: bool)
    ensures
        r == nc_unsupported(a.vmodel(), b.vmodel()),
    decreases a, 0int,
{
    match (a, b) {
        (Value::Leaf(x), Value::Leaf(y)) => crate::diff_engine::leaf_same_type_exec(x, y)
            && matches!(x, Leaf::Opaque(_)),
        (Value::Tuple(t1), Value::Tuple(t2)) => {
            let n1 = effective_ref(&t1.name, &t1.represented);
            let n2 = effective_ref(&t2.name, &t2.represented);
            proof {
                assert(a.vmodel() == (crate::model::Val::Tuple {
                    name: n1@,
                    fields: seq_vmodel(t1.fields@),
                }));
                assert(b.vmodel() == (crate::model::Val::Tuple {
                    name: n2@,
                    fields: seq_vmodel(t2.fields@),
                }));
                assert(seq_vmodel(t1.fields@).len() == t1.fields@.len());
                assert(seq_vmodel(t2.fields@).len() == t2.fields@.len());
            }
            *n1 == *n2 && t1.fields.len() == t2.fields.len() && seq_unsupported_exec(
                &t1.fields,
                &t2.fields,
            )
        },
        (Value::Array(a1), Value::Array(a2)) => {
            let n1 = effective_ref(&a1.name, &a1.represented);
            let n2 = effective_ref(&a2.name, &a2.represented);
            proof {
                assert(a.vmodel() == (crate::model::Val::Array {
                    name: n1@,
                    elems: seq_vmodel(a1.elements@),
                }));
                assert(b.vmodel() == (crate::model::Val::Array {
                    name: n2@,
                    elems: seq_vmodel(a2.elements@),
                }));
                assert(seq_vmodel(a1.elements@).len() == a1.elements@.len());
                assert(seq_vmodel(a2.elements@).len() == a2.elements@.len());
            }
            *n1 == *n2 && a1.elements.len() == a2.elements.len() && seq_unsupported_exec(
                &a1.elements,
                &a2.elements,
            )
        },
        (Value::List(l1), Value::List(l2)) => {
            let n1 = effective_ref(&l1.name, &l1.represented);
            let n2 = effective_ref(&l2.name, &l2.represented);
            proof {
                assert(a.vmodel() == (crate::model::Val::List {
                    name: n1@,
                    elems: seq_vmodel(l1.elements@),
                }));
                assert(b.vmodel() == (crate::model::Val::List {
                    name: n2@,
                    elems: seq_vmodel(l2.elements@),
                }));
            }
            *n1 == *n2 && pairs_unsupported_exec(&l1.elements, &l2.elements)
        },
        (Value::Mapping(m1), Value::Mapping(m2)) => {
            let n1 = effective_ref(&m1.name, &m1.represented);
            let n2 = effective_ref(&m2.name, &m2.represented);
            proof {
                assert(a.vmodel() == (crate::model::Val::Mapping {
                    name: n1@,
                    entries: entries_vmodel(m1.entries@),
                }));
                assert(b.vmodel() == (crate::model::Val::Mapping {
                    name: n2@,
                    entries: entries_vmodel(m2.entries@),
                }));
            }
            *n1 == *n2 && entries_unsupported_exec(&m1.entries, &m2.entries)
        },
        (Value::TupleStruct(t1), Value::TupleStruct(t2)) => {
            let n1 = effective_ref(&t1.name, &t1.represented);
            let n2 = effective_ref(&t2.name, &t2.represented);
            proof {
                assert(a.vmodel() == (crate::model::Val::TupleStruct {
                    name: n1@,
                    fields: seq_vmodel(t1.fields@),
                }));
                assert(b.vmodel() == (crate::model::Val::TupleStruct {
                    name: n2@,
                    fields: seq_vmodel(t2.fields@),
                }));
                assert(seq_vmodel(t1.fields@).len() == t1.fields@.len());
                assert(seq_vmodel(t2.fields@).len() == t2.fields@.len());
            }
            *n1 == *n2 && t1.fields.len() == t2.fields.len() && seq_unsupported_exec(
                &t1.fields,
                &t2.fields,
            )
        },
        (Value::Struct(s1), Value::Struct(s2)) => {
            let n1 = effective_ref(&s1.name, &s1.represented);
            let n2 = effective_ref(&s2.name, &s2.represented);
            proof {
                assert(a.vmodel() == (crate::model::Val::Struct {
                    name: n1@,
                    fields: named_vmodel(s1.fields@),
                }));
                assert(b.vmodel() == (crate::model::Val::Struct {
                    name: n2@,
                    fields: named_vmodel(s2.fields@),
                }));
            }
            *n1 == *n2 && named_unsupported_exec(&s1.fields, &s2.fields)
        },
        (Value::Enum(e1), Value::Enum(e2)) => {
            proof {
                assert(a.vmodel() == (crate::model::Val::Enum {
                    name: e1.name@,
                    variant: e1.variant_name@,
                    data: e1.data.dmodel(),
                }));
                assert(b.vmodel() == (crate::model::Val::Enum {
                    name: e2.name@,
                    variant: e2.variant_name@,
                    data: e2.data.dmodel(),
                }));
            }
            e1.name == e2.name && e1.variant_name == e2.variant_name
                && variant_unsupported_exec(&e1.data, &e2.data)
        },
        _ => false,
    }
}

/// An unsupported comparison among the positionally aligned pairs.
pub(crate) fn seq_unsupported_exec(a: &Vec<Value>, b: &Vec<Value>) -> (r: bool)
    ensures
        r == seq_unsupported(seq_vmodel(a@), seq_vmodel(b@)),
    decreases a, 1int,
{
    let mut i: usize = 0;
    while i < a.len() && i < b.len()
        invariant
            i <= a@.len(),
            forall|k: int|
                0 <= k < i && k < seq_vmodel(b@).len() ==> !nc_unsupported(
                    #[trigger] seq_vmodel(a@)[k],
                    seq_vmodel(b@)[k],
                ),
        decreases a@.len() - i,
    {
        if nc_unsupported_exec(&a[i], &b[i]) {
            assert(nc_unsupported(seq_vmodel(a@)[i as int], seq_vmodel(b@)[i as int]));
            return true;
        }
        i += 1;
    }
    false
}

/// An unsupported comparison among any pair the alignment may compare.
pub fn pairs_unsupported_exec(a: &Vec<Value>, b: &Vec<Value>) -> (r: bool)
    ensures
        r == pairs_unsupported(seq_vmodel(a@), seq_vmodel(b@)),
    decreases a, 1int,
{
    let mut i: usize = 0;
    while i < a.len()
        invariant
            i <= a@.len(),
            forall|k: int, j: int|
                0 <= k < i && 0 <= j < seq_vmodel(b@).len() ==> !nc_unsupported(
                    #[trigger] seq_vmodel(a@)[k],
                    #[trigger] seq_vmodel(b@)[j],
                ),
        decreases a@.len() - i,
    {
        let mut j: usize = 0;
        while j < b.len()
            invariant
                i < a@.len(),
                j <= b@.len(),
                forall|j2: int|
                    0 <= j2 < j ==> !nc_unsupported(
                        seq_vmodel(a@)[i as int],
                        #[trigger] seq_vmodel(b@)[j2],
                    ),
            decreases b@.len() - j,
        {
            if nc_unsupported_exec(&a[i], &b[j]) {
                assert(nc_unsupported(seq_vmodel(a@)[i as int], seq_vmodel(b@)[j as int]));
                return true;
            }
            j += 1;
        }
        i += 1;
    }
    false
}

/// An unsupported comparison between some field of `a` and its same-named
/// counterpart in `b`.
pub(crate) fn named_unsupported_exec(a: &Vec<(String, Value)>, b: &Vec<(String, Value)>) -> (r: bool)
    ensures
        r == named_unsupported(named_vmodel(a@), named_vmodel(b@)),
    decreases a, 1int,
{
    let ghost ma = named_vmodel(a@);
    let ghost mb = named_vmodel(b@);
    let mut i: usize = 0;
    while i < a.len()
        invariant
            i <= a@.len(),
            ma == named_vmodel(a@),
            mb == named_vmodel(b@),
            forall|k: int|
                0 <= k < i ==> !(lookup_field(mb, (#[trigger] ma[k]).0) is Some
                    && nc_unsupported(ma[k].1, lookup_field(mb, ma[k].0)->0)),
        decreases a@.len() - i,
    {
        let found = find_field(b, &a[i].0);
        match found {
            Option::Some(v) => {
                if nc_unsupported_exec(&a[i].1, v) {
                    assert(lookup_field(mb, ma[i as int].0) is Some && nc_unsupported(
                        ma[i as int].1,
                        lookup_field(mb, ma[i as int].0)->0,
                    ));
                    return true;
                }
            },
            Option::None => {},
        }
        i += 1;
    }
    false
}

/// An unsupported comparison between some entry of `a` and its key-matched
/// counterpart in `b`.
pub(crate) fn entries_unsupported_exec(a: &Vec<(Value, Value)>, b: &Vec<(Value, Value)>) -> (r: bool)
    ensures
        r == entries_unsupported(entries_vmodel(a@), entries_vmodel(b@)),
    decreases a, 1int,
{
    let ghost ma = entries_vmodel(a@);
    let ghost mb = entries_vmodel(b@);
    let mut i: usize = 0;
    while i < a.len()
        invariant
            i <= a@.len(),
            ma == entries_vmodel(a@),
            mb == entries_vmodel(b@),
            forall|k: int|
                0 <= k < i ==> !(lookup_entry(mb, (#[trigger] ma[k]).0) is Some
                    && nc_unsupported(ma[k].1, lookup_entry(mb, ma[k].0)->0)),
        decreases a@.len() - i,
    {
        let found = find_entry(b, &a[i].0);
        match found {
            Option::Some(v) => {
                if nc_unsupported_exec(&a[i].1, v) {
                    assert(lookup_entry(mb, ma[i as int].0) is Some && nc_unsupported(
                        ma[i as int].1,
                        lookup_entry(mb, ma[i as int].0)->0,
                    ));
                    return true;
                }
            },
            Option::None => {},
        }
        i += 1;
    }
    false
}

/// An unsupported comparison inside the data of two same-named variants.
pub(crate) fn variant_unsupported_exec(a: &VariantData, b: &VariantData) -> (r: bool)
    ensures
        r == variant_unsupported(a.dmodel(), b.dmodel()),
    decreases a, 2int,
{
    match (a, b) {
        (VariantData::Tuple(f1), VariantData::Tuple(f2)) => {
            proof {
                assert(a.dmodel() == crate::model::VariantVal::Tuple(seq_vmodel(f1@)));
                assert(b.dmodel() == crate::model::VariantVal::Tuple(seq_vmodel(f2@)));
                assert(seq_vmodel(f1@).len() == f1@.len());
                assert(seq_vmodel(f2@).len() == f2@.len());
            }
            f1.len() == f2.len() && seq_unsupported_exec(f1, f2)
        },
        (VariantData::Struct(f1), VariantData::Struct(f2)) => {
            proof {
                assert(a.dmodel() == crate::model::VariantVal::Struct(named_vmodel(f1@)));
                assert(b.dmodel() == crate::model::VariantVal::Struct(named_vmodel(f2@)));
            }
            named_unsupported_exec(f1, f2)
        },
        _ => false,
    }
}

} // verus!
