//! The in-place structural merge of the value handle.
//!
//! `Value::apply` overwrites a base value with the contents of a patch of
//! compatible shape: leaves are overwritten wholly, positional containers
//! slot by slot, structs and maps by key with missing keys appended for
//! maps and ignored for structs, lists pairwise with extra patch elements
//! appended, and enums either field by field within a shared variant or by
//! switching to the patch's variant.  Applying a patch of an incompatible
//! shape is a caller contract violation and is excluded by precondition.

use vstd::prelude::*;

use crate::cloning::{clone_leaf, clone_value, clone_variant_data};
use crate::diff_model::{leaf_same_type, same_variant_kind};
use crate::lemmas::{
    lemma_insert_entry_at, lemma_lookup_entry_at, lemma_lookup_entry_none, lemma_lookup_field_at,
    lemma_lookup_field_none, lemma_update_field_at,
};
use crate::model::{lookup_entry, lookup_field, Val, VariantVal};
use crate::value::{
    entries_vmodel, lemma_entries_vmodel, lemma_named_vmodel, lemma_seq_vmodel, named_vmodel,
    seq_vmodel, DynamicEnum, Leaf, Value, VariantData,
};

verus! {

broadcast use lemma_seq_vmodel, lemma_named_vmodel, lemma_entries_vmodel;

/// Whether a patch can be merged onto a base value: same shape, same leaf
/// type for leaves, same length for arrays, and recursively for every
/// slot the patch touches.
pub open spec fn mergeable(a: Val, b: Val) -> bool
    decreases b, 1int,
{
    match (a, b) {
        (Val::Leaf(x), Val::Leaf(y)) => leaf_same_type(x, y),
        (Val::Tuple { fields: f1, .. }, Val::Tuple { fields: f2, .. }) => pos_mergeable(f1, f2),
        (Val::Array { elems: e1, .. }, Val::Array { elems: e2, .. }) => e1.len() == e2.len()
            && pos_mergeable(e1, e2),
        (Val::List { elems: e1, .. }, Val::List { elems: e2, .. }) => pos_mergeable(e1, e2),
        (Val::Mapping { entries: e1, .. }, Val::Mapping { entries: e2, .. }) => entries_mergeable(
            e1,
            e2,
        ),
        (Val::TupleStruct { fields: f1, .. }, Val::TupleStruct { fields: f2, .. }) => pos_mergeable(
            f1,
            f2,
        ),
        (Val::Struct { fields: f1, .. }, Val::Struct { fields: f2, .. }) => named_mergeable(
            f1,
            f2,
        ),
        (
            Val::Enum { variant: v1, data: d1, .. },
            Val::Enum { variant: v2, data: d2, .. },
        ) => (v1 == v2 && same_variant_kind(d1, d2)) ==> variant_mergeable(d1, d2),
        _ => false,
    }
}

/// The merge of a patch onto a base value.
pub open spec fn smerge(a: Val, b: Val) -> Val
    decreases b, 1int,
{
    match (a, b) {
        (Val::Leaf(_), Val::Leaf(y)) => Val::Leaf(y),
        (Val::Tuple { name: n1, fields: f1 }, Val::Tuple { fields: f2, .. }) => Val::Tuple {
            name: n1,
            fields: smerge_pos(f1, f2, false),
        },
        (Val::Array { name: n1, elems: e1 }, Val::Array { elems: e2, .. }) => Val::Array {
            name: n1,
            elems: smerge_pos(e1, e2, false),
        },
        (Val::List { name: n1, elems: e1 }, Val::List { elems: e2, .. }) => Val::List {
            name: n1,
            elems: smerge_pos(e1, e2, true),
        },
        (
            Val::Mapping { name: n1, entries: e1 },
            Val::Mapping { entries: e2, .. },
        ) => Val::Mapping { name: n1, entries: smerge_map(e1, e2) },
        (
            Val::TupleStruct { name: n1, fields: f1 },
            Val::TupleStruct { fields: f2, .. },
        ) => Val::TupleStruct { name: n1, fields: smerge_pos(f1, f2, false) },
        (
            Val::Struct { name: n1, fields: f1 },
            Val::Struct { fields: f2, .. },
        ) => Val::Struct { name: n1, fields: smerge_named(f1, f2) },
        (
            Val::Enum { name: n1, variant: v1, data: d1 },
            Val::Enum { variant: v2, data: d2, .. },
        ) => if v1 == v2 && same_variant_kind(d1, d2) {
            Val::Enum { name: n1, variant: v1, data: smerge_variant(d1, d2) }
        } else {
            Val::Enum { name: n1, variant: v2, data: d2 }
        },
        _ => a,
    }
}

/// Pairwise mergeability of the overlapping slots of two field sequences.
pub open spec fn pos_mergeable(f1: Seq<Val>, f2: Seq<Val>) -> bool
    decreases f2, 0int,
{
    if f2.len() == 0 || f1.len() == 0 {
        true
    } else {
        mergeable(f1[0], f2[0]) && pos_mergeable(f1.drop_first(), f2.drop_first())
    }
}

/// The positional merge of two field sequences.  Extra base slots stay;
/// extra patch slots are appended when `extend` is set (lists) and
/// ignored otherwise (tuples).
pub open spec fn smerge_pos(f1: Seq<Val>, f2: Seq<Val>, extend: bool) -> Seq<Val>
    decreases f2, 0int,
{
    if f2.len() == 0 {
        f1
    } else if f1.len() == 0 {
        if extend {
            f2
        } else {
            Seq::empty()
        }
    } else {
        seq![smerge(f1[0], f2[0])] + smerge_pos(f1.drop_first(), f2.drop_first(), extend)
    }
}

/// Mergeability of a named patch onto named base fields, threading the
/// intermediate merges.
pub open spec fn named_mergeable(f1: Seq<(Seq<char>, Val)>, f2: Seq<(Seq<char>, Val)>) -> bool
    decreases f2, 0int,
{
    if f2.len() == 0 {
        true
    } else {
        match lookup_field(f1, f2[0].0) {
            Option::None => named_mergeable(f1, f2.drop_first()),
            Option::Some(v) => mergeable(v, f2[0].1) && named_mergeable(
                update_field_local(f1, f2[0].0, smerge(v, f2[0].1)),
                f2.drop_first(),
            ),
        }
    }
}

/// The by-name merge of a named patch onto named base fields: patch
/// fields with no counterpart are ignored.
pub open spec fn smerge_named(
    f1: Seq<(Seq<char>, Val)>,
    f2: Seq<(Seq<char>, Val)>,
) -> Seq<(Seq<char>, Val)>
    decreases f2, 0int,
{
    if f2.len() == 0 {
        f1
    } else {
        match lookup_field(f1, f2[0].0) {
            Option::None => smerge_named(f1, f2.drop_first()),
            Option::Some(v) => smerge_named(
                update_field_local(f1, f2[0].0, smerge(v, f2[0].1)),
                f2.drop_first(),
            ),
        }
    }
}

/// The fields of `s` with the value of the first field named `n` replaced.
pub open spec fn update_field_local(
    s: Seq<(Seq<char>, Val)>,
    n: Seq<char>,
    v: Val,
) -> Seq<(Seq<char>, Val)> {
    crate::diff_model::update_field(s, n, v)
}

/// Mergeability of patch entries onto base entries, threading the
/// intermediate merges.
pub open spec fn entries_mergeable(e1: Seq<(Val, Val)>, e2: Seq<(Val, Val)>) -> bool
    decreases e2, 0int,
{
    if e2.len() == 0 {
        true
    } else {
        match lookup_entry(e1, e2[0].0) {
            Option::None => entries_mergeable(e1.push(e2[0]), e2.drop_first()),
            Option::Some(v) => mergeable(v, e2[0].1) && entries_mergeable(
                crate::diff_model::update_entry(e1, e2[0].0, smerge(v, e2[0].1)),
                e2.drop_first(),
            ),
        }
    }
}

/// The merge of patch entries onto base entries: existing keys have their
/// values merged, new keys are appended in patch order.
pub open spec fn smerge_map(e1: Seq<(Val, Val)>, e2: Seq<(Val, Val)>) -> Seq<(Val, Val)>
    decreases e2, 0int,
{
    if e2.len() == 0 {
        e1
    } else {
        match lookup_entry(e1, e2[0].0) {
            Option::None => smerge_map(e1.push(e2[0]), e2.drop_first()),
            Option::Some(v) => smerge_map(
                crate::diff_model::update_entry(e1, e2[0].0, smerge(v, e2[0].1)),
                e2.drop_first(),
            ),
        }
    }
}

/// Mergeability of the data of two variants of the same name and kind.
pub open spec fn variant_mergeable(d1: VariantVal, d2: VariantVal) -> bool
    decreases d2, 0int,
{
    match (d1, d2) {
        (VariantVal::Unit, VariantVal::Unit) => true,
        (VariantVal::Tuple(f1), VariantVal::Tuple(f2)) => pos_mergeable(f1, f2),
        (VariantVal::Struct(f1), VariantVal::Struct(f2)) => named_mergeable(f1, f2),
        _ => true,
    }
}

/// The merge of the data of two variants of the same name and kind.
pub open spec fn smerge_variant(d1: VariantVal, d2: VariantVal) -> VariantVal
    decreases d2, 0int,
{
    match (d1, d2) {
        (VariantVal::Tuple(f1), VariantVal::Tuple(f2)) => VariantVal::Tuple(
            smerge_pos(f1, f2, false),
        ),
        (VariantVal::Struct(f1), VariantVal::Struct(f2)) => VariantVal::Struct(
            smerge_named(f1, f2),
        ),
        _ => d2,
    }
}

/// Merges the overlapping slots of two field vectors, starting at patch
/// position `i`.
pub fn merge_pos(base: Vec<Value>, patch: &Vec<Value>, i: usize, extend: bool) -> (r: Vec<Value>)
    requires
        i <= patch@.len(),
        pos_mergeable(seq_vmodel(base@), seq_vmodel(patch@).skip(i as int)),
    ensures
        seq_vmodel(r@) == smerge_pos(seq_vmodel(base@), seq_vmodel(patch@).skip(i as int), extend),
    decreases patch, patch@.len() - i,
{
    let mut base = base;
    let ghost pm = seq_vmodel(patch@).skip(i as int);
    if i == patch.len() {
        proof {
            assert(pm.len() == 0);
        }
        return base;
    }
    proof {
        crate::lemmas::lemma_skip_step(seq_vmodel(patch@), i as int);
    }
    if base.len() == 0 {
        if extend {
            let mut out: Vec<Value> = Vec::new();
            let mut j: usize = i;
            while j < patch.len()
                invariant
                    i <= j <= patch@.len(),
                    out@.len() == j - i,
                    forall|k: int|
                        0 <= k < out@.len() ==> (#[trigger] out@[k]).vmodel() == seq_vmodel(
                            patch@,
                        )[i + k],
                decreases patch@.len() - j,
            {
                out.push(crate::cloning::clone_value(&patch[j]));
                j += 1;
            }
            proof {
                assert forall|k: int|
                    0 <= k < out@.len() implies seq_vmodel(out@)[k] == seq_vmodel(patch@).skip(
                    i as int,
                )[k] by {
                    assert(seq_vmodel(out@)[k] == out@[k].vmodel());
                }
                assert(seq_vmodel(out@) =~= seq_vmodel(patch@).skip(i as int));
            }
            return out;
        }
        let out: Vec<Value> = Vec::new();
        proof {
            assert(seq_vmodel(out@) =~= Seq::<Val>::empty());
        }
        return out;
    }
    let ghost b0 = base@;
    let bh = base.remove(0);
    proof {
        assert(bh.vmodel() == seq_vmodel(b0)[0]);
        assert(seq_vmodel(base@) =~= seq_vmodel(b0).drop_first());
        assert(pm[0] == seq_vmodel(patch@)[i as int]);
        assert(pm.drop_first() =~= seq_vmodel(patch@).skip(i + 1));
    }
    let merged = merge_value(bh, &patch[i]);
    let rest = merge_pos(base, patch, i + 1, extend);
    let ghost restv = rest@;
    let mut out = rest;
    out.insert(0, merged);
    proof {
        assert(out@ =~= seq![out@[0]] + restv);
        assert forall|k: int|
            0 <= k < out@.len() implies seq_vmodel(out@)[k] == (seq![
            smerge(seq_vmodel(b0)[0], pm[0]),
        ] + seq_vmodel(restv))[k] by {
            assert(seq_vmodel(out@)[k] == out@[k].vmodel());
            if k > 0 {
                assert(out@[k] == restv[k - 1]);
            }
        }
        assert(seq_vmodel(out@) =~= seq![smerge(seq_vmodel(b0)[0], pm[0])] + seq_vmodel(restv));
    }
    out
}

/// Merges a named patch onto named base fields, starting at patch
/// position `i`.
fn merge_named(base: Vec<(String, Value)>, patch: &Vec<(String, Value)>, i: usize) -> (r: Vec<
    (String, Value),
>)
    requires
        i <= patch@.len(),
        named_mergeable(named_vmodel(base@), named_vmodel(patch@).skip(i as int)),
    ensures
        named_vmodel(r@) == smerge_named(named_vmodel(base@), named_vmodel(patch@).skip(i as int)),
    decreases patch, patch@.len() - i,
{
    let mut base = base;
    let ghost pm = named_vmodel(patch@).skip(i as int);
    if i == patch.len() {
        proof {
            assert(pm.len() == 0);
        }
        return base;
    }
    proof {
        crate::lemmas::lemma_skip_step(named_vmodel(patch@), i as int);
    }
    let ghost bm0 = named_vmodel(base@);
    let pos = crate::apply::find_field_pos(&base, &patch[i].0);
    match pos {
        Option::None => {
            proof {
                lemma_lookup_field_none(bm0, pm[0].0);
            }
            merge_named(base, patch, i + 1)
        },
        Option::Some(p) => {
            proof {
                lemma_lookup_field_at(bm0, pm[0].0, p as int);
                lemma_update_field_at(bm0, pm[0].0, smerge(bm0[p as int].1, pm[0].1), p as int);
            }
            let ghost basev = base@;
            let entry = base.remove(p);
            let merged = merge_value(entry.1, &patch[i].1);
            base.insert(p, (entry.0, merged));
            proof {
                assert(base@ =~= basev.update(p as int, (entry.0, merged)));
                assert forall|k: int|
                    0 <= k < bm0.len() implies named_vmodel(base@)[k] == update_field_local(
                    bm0,
                    pm[0].0,
                    smerge(bm0[p as int].1, pm[0].1),
                )[k] by {
                    assert(named_vmodel(base@)[k] == ((#[trigger] base@[k]).0@,
                    base@[k].1.vmodel()));
                    if k != p {
                        assert(base@[k] == basev[k]);
                    }
                }
                assert(named_vmodel(base@) =~= update_field_local(
                    bm0,
                    pm[0].0,
                    smerge(bm0[p as int].1, pm[0].1),
                ));
            }
            merge_named(base, patch, i + 1)
        },
    }
}

/// Merges patch entries onto base entries, starting at patch position `i`.
fn merge_entries(base: Vec<(Value, Value)>, patch: &Vec<(Value, Value)>, i: usize) -> (r: Vec<
    (Value, Value),
>)
    requires
        i <= patch@.len(),
        entries_mergeable(entries_vmodel(base@), entries_vmodel(patch@).skip(i as int)),
    ensures
        entries_vmodel(r@) == smerge_map(
            entries_vmodel(base@),
            entries_vmodel(patch@).skip(i as int),
        ),
    decreases patch, patch@.len() - i,
{
    let mut base = base;
    let ghost pm = entries_vmodel(patch@).skip(i as int);
    if i == patch.len() {
        proof {
            assert(pm.len() == 0);
        }
        return base;
    }
    proof {
        crate::lemmas::lemma_skip_step(entries_vmodel(patch@), i as int);
    }
    let ghost bm0 = entries_vmodel(base@);
    let pos = crate::apply::find_entry_pos(&base, &patch[i].0);
    match pos {
        Option::None => {
            proof {
                lemma_lookup_entry_none(bm0, pm[0].0);
            }
            let pk = crate::cloning::clone_value(&patch[i].0);
            let pv = crate::cloning::clone_value(&patch[i].1);
            let ghost basev = base@;
            base.push((pk, pv));
            proof {
                assert forall|k: int|
                    0 <= k < base@.len() implies entries_vmodel(base@)[k]
                    == bm0.push(pm[0])[k] by {
                    assert(entries_vmodel(base@)[k] == ((#[trigger] base@[k]).0.vmodel(),
                    base@[k].1.vmodel()));
                    if k < base@.len() - 1 {
                        assert(base@[k] == basev[k]);
                    }
                }
                assert(entries_vmodel(base@) =~= bm0.push(pm[0]));
            }
            merge_entries(base, patch, i + 1)
        },
        Option::Some(p) => {
            proof {
                lemma_lookup_entry_at(bm0, pm[0].0, p as int);
                lemma_insert_entry_at(bm0, pm[0].0, smerge(bm0[p as int].1, pm[0].1), p as int);
            }
            let ghost basev = base@;
            let entry = base.remove(p);
            let merged = merge_value(entry.1, &patch[i].1);
            base.insert(p, (entry.0, merged));
            proof {
                assert(base@ =~= basev.update(p as int, (entry.0, merged)));
                assert forall|k: int|
                    0 <= k < bm0.len() implies entries_vmodel(base@)[k] == bm0.update(
                    p as int,
                    (bm0[p as int].0, smerge(bm0[p as int].1, pm[0].1)),
                )[k] by {
                    assert(entries_vmodel(base@)[k] == ((#[trigger] base@[k]).0.vmodel(),
                    base@[k].1.vmodel()));
                    if k != p {
                        assert(base@[k] == basev[k]);
                    }
                }
                assert(entries_vmodel(base@) =~= crate::diff_model::update_entry(
                    bm0,
                    pm[0].0,
                    smerge(bm0[p as int].1, pm[0].1),
                ));
            }
            merge_entries(base, patch, i + 1)
        },
    }
}

/// Merges a patch onto an owned base value.
pub fn merge_value(base: Value, patch: &Value) -> (r: Value)
    requires
        mergeable(base.vmodel(), patch.vmodel()),
    ensures
        r.vmodel() == smerge(base.vmodel(), patch.vmodel()),
    decreases patch,
{
    match (base, patch) {
        (Value::Leaf(_), Value::Leaf(y)) => Value::Leaf(clone_leaf(y)),
        (Value::Tuple(t), Value::Tuple(p)) => {
            let ghost pm = seq_vmodel(p.fields@);
            proof {
                assert(seq_vmodel(p.fields@).skip(0) =~= pm);
            }
            let fields = merge_pos(t.fields, &p.fields, 0, false);
            Value::Tuple(
                crate::value::DynamicTuple { name: t.name, represented: t.represented, fields },
            )
        },
        (Value::Array(a), Value::Array(p)) => {
            proof {
                assert(seq_vmodel(p.elements@).skip(0) =~= seq_vmodel(p.elements@));
            }
            let elements = merge_pos(a.elements, &p.elements, 0, false);
            Value::Array(
                crate::value::DynamicArray {
                    name: a.name,
                    represented: a.represented,
                    elements,
                },
            )
        },
        (Value::List(l), Value::List(p)) => {
            proof {
                assert(seq_vmodel(p.elements@).skip(0) =~= seq_vmodel(p.elements@));
            }
            let elements = merge_pos(l.elements, &p.elements, 0, true);
            Value::List(
                crate::value::DynamicList { name: l.name, represented: l.represented, elements },
            )
        },
        (Value::Mapping(m), Value::Mapping(p)) => {
            proof {
                assert(entries_vmodel(p.entries@).skip(0) =~= entries_vmodel(p.entries@));
            }
            let entries = merge_entries(m.entries, &p.entries, 0);
            Value::Mapping(
                crate::value::DynamicMap { name: m.name, represented: m.represented, entries },
            )
        },
        (Value::TupleStruct(t), Value::TupleStruct(p)) => {
            proof {
                assert(seq_vmodel(p.fields@).skip(0) =~= seq_vmodel(p.fields@));
            }
            let fields = merge_pos(t.fields, &p.fields, 0, false);
            Value::TupleStruct(
                crate::value::DynamicTupleStruct {
                    name: t.name,
                    represented: t.represented,
                    fields,
                },
            )
        },
        (Value::Struct(st), Value::Struct(p)) => {
            proof {
                assert(named_vmodel(p.fields@).skip(0) =~= named_vmodel(p.fields@));
            }
            let fields = merge_named(st.fields, &p.fields, 0);
            Value::Struct(
                crate::value::DynamicStruct {
                    name: st.name,
                    represented: st.represented,
                    fields,
                },
            )
        },
        (Value::Enum(e), Value::Enum(p)) => {
            if e.variant_name == p.variant_name && crate::diff_engine::variant_kind_eq(
                &e.data,
                &p.data,
            ) {
                match (e.data, &p.data) {
                    (VariantData::Tuple(f1), VariantData::Tuple(f2)) => {
                        proof {
                            assert(seq_vmodel(f2@).skip(0) =~= seq_vmodel(f2@));
                        }
                        let fields = merge_pos(f1, f2, 0, false);
                        Value::Enum(
                            DynamicEnum {
                                name: e.name,
                                variant_name: e.variant_name,
                                data: VariantData::Tuple(fields),
                            },
                        )
                    },
                    (VariantData::Struct(f1), VariantData::Struct(f2)) => {
                        proof {
                            assert(named_vmodel(f2@).skip(0) =~= named_vmodel(f2@));
                        }
                        let fields = merge_named(f1, f2, 0);
                        Value::Enum(
                            DynamicEnum {
                                name: e.name,
                                variant_name: e.variant_name,
                                data: VariantData::Struct(fields),
                            },
                        )
                    },
                    (VariantData::Unit, VariantData::Unit) => Value::Enum(
                        DynamicEnum {
                            name: e.name,
                            variant_name: e.variant_name,
                            data: VariantData::Unit,
                        },
                    ),
                    (d1, _) => Value::Enum(
                        DynamicEnum {
                            name: e.name,
                            variant_name: e.variant_name,
                            data: d1,
                        },
                    ),
                }
            } else {
                let data = clone_variant_data(&p.data);
                Value::Enum(
                    DynamicEnum {
                        name: e.name,
                        variant_name: p.variant_name.clone(),
                        data,
                    },
                )
            }
        },
        (b, _) => b,
    }
}

impl Value {
    /// Overwrites this value in place with the contents of `other`.
    ///
    /// The two values must have compatible shapes; see the module
    /// documentation for the per-shape semantics.
    pub fn apply(&mut self, other: &Value)
        requires
            mergeable(old(self).vmodel(), other.vmodel()),
        ensures
            final(self).vmodel() == smerge(old(self).vmodel(), other.vmodel()),
    {
        let mut taken = Value::Leaf(Leaf::Bool(false));
        core::mem::swap(self, &mut taken);
        let merged = merge_value(taken, other);
        *self = merged;
    }
}

} // verus!
