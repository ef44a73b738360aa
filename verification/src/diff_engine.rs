//! The diff engine: computing the structural delta of two reflected
//! values.
//!
//! Dispatch goes by the old value's shape; each algorithm first confirms
//! the new value has the same shape, reports `Replaced` when type identity
//! differs, and otherwise recurses into the contents.  Under the working
//! precondition [`crate::model::diffable`] the result is exactly
//! [`crate::diff_model::sdiff`] of the two models.

use vstd::prelude::*;

use crate::cloning::clone_value;
use crate::diff::{
    diffs_dm, lemma_diffs_dm, lemma_map_edits_dm, lemma_map_edits_dm_push, lemma_named_diffs_dm,
    map_edits_dm,
    named_diffs_dm, Diff, DiffType, DiffedMap, DiffedStruct, DiffedStructVariant, DiffedTuple,
    DiffedTupleStruct, DiffedTupleVariant, EnumDiff, MapDiff, ValueDiff,
};
use crate::diff_error::DiffError;
use crate::diff_model::{
    all_nc, all_nc_named, leaf_same_type, map_ins, map_mods, same_variant_kind, sdiff,
    sdiff_named, sdiff_seq, MapEditM,
};
use crate::lemmas::{
    lemma_entries_diffable, lemma_named_diffable, lemma_sdiff_named, lemma_sdiff_seq,
    lemma_skip_step,
};
use crate::list_diff::diff_list;
use crate::model::{
    diffable, entries_diffable, lookup_entry, lookup_field, named_diffable, Val,
};
use crate::nochange::{effective_ref, find_entry, find_field};
use crate::value::{
    entries_vmodel, lemma_entries_vmodel, lemma_named_vmodel, lemma_seq_vmodel, named_vmodel,
    seq_vmodel, DynamicEnum, DynamicMap, DynamicStruct, DynamicTuple, DynamicTupleStruct, Leaf,
    Value, VariantData,
};

verus! {

broadcast use lemma_seq_vmodel, lemma_named_vmodel, lemma_entries_vmodel, lemma_diffs_dm,
    lemma_named_diffs_dm, lemma_map_edits_dm;

/// Whether two leaves have the same type identity.
pub fn leaf_same_type_exec(a: &Leaf, b: &Leaf) -> (r: bool)
    ensures
        r == leaf_same_type(a.lmodel(), b.lmodel()),
{
    match (a, b) {
        (Leaf::Bool(_), Leaf::Bool(_)) => true,
        (Leaf::I8(_), Leaf::I8(_)) => true,
        (Leaf::I16(_), Leaf::I16(_)) => true,
        (Leaf::I32(_), Leaf::I32(_)) => true,
        (Leaf::I64(_), Leaf::I64(_)) => true,
        (Leaf::ISize(_), Leaf::ISize(_)) => true,
        (Leaf::U8(_), Leaf::U8(_)) => true,
        (Leaf::U16(_), Leaf::U16(_)) => true,
        (Leaf::U32(_), Leaf::U32(_)) => true,
        (Leaf::U64(_), Leaf::U64(_)) => true,
        (Leaf::USize(_), Leaf::USize(_)) => true,
        (Leaf::Str(_), Leaf::Str(_)) => true,
        (Leaf::F32Bits(_), Leaf::F32Bits(_)) => true,
        (Leaf::F64Bits(_), Leaf::F64Bits(_)) => true,
        (Leaf::Opaque(n1), Leaf::Opaque(n2)) => *n1 == *n2,
        _ => false,
    }
}

/// Whether two variant data carry the same kind of variant.
pub fn variant_kind_eq(a: &VariantData, b: &VariantData) -> (r: bool)
    ensures
        r == same_variant_kind(a.dmodel(), b.dmodel()),
{
    match (a, b) {
        (VariantData::Unit, VariantData::Unit) => true,
        (VariantData::Tuple(_), VariantData::Tuple(_)) => true,
        (VariantData::Struct(_), VariantData::Struct(_)) => true,
        _ => false,
    }
}

/// Diffs two leaves, or a leaf against any other value.
///
/// A differing type identity yields `Replaced`; equal opaque identities
/// cannot be compared and yield `Incomparable`.
pub fn diff_value(old: &Leaf, new: &Value) -> (r: Result<Diff, DiffError>)
    ensures
        diffable(Val::Leaf(old.lmodel()), new.vmodel()) ==> r is Ok && r->Ok_0.dm() == sdiff(
            Val::Leaf(old.lmodel()),
            new.vmodel(),
        ),
        new.vmodel() is Leaf && leaf_same_type(old.lmodel(), new.vmodel()->0) && old.lmodel()
            is Opaque ==> r == Result::<Diff, DiffError>::Err(DiffError::Incomparable),
        r is Err ==> r == Result::<Diff, DiffError>::Err(DiffError::Incomparable),
{
    match new {
        Value::Leaf(y) => {
            if !leaf_same_type_exec(old, y) {
                Result::Ok(Diff::Replaced(ValueDiff::Owned(clone_value(new))))
            } else if matches!(old, Leaf::Opaque(_)) {
                Result::Err(DiffError::Incomparable)
            } else if crate::eq::leaf_eq(old, y) {
                Result::Ok(Diff::NoChange)
            } else {
                Result::Ok(
                    Diff::Modified(DiffType::Value(ValueDiff::Owned(clone_value(new)))),
                )
            }
        },
        _ => Result::Ok(Diff::Replaced(ValueDiff::Owned(clone_value(new)))),
    }
}

/// Diffs two field vectors position by position.
fn diff_positional(old: &Vec<Value>, new: &Vec<Value>) -> (r: Result<
    (Vec<Diff>, bool),
    DiffError,
>)
    requires
        old@.len() == new@.len(),
    ensures
        (forall|i: int|
            0 <= i < old@.len() ==> diffable(
                #[trigger] seq_vmodel(old@)[i],
                seq_vmodel(new@)[i],
            )) ==> r is Ok && diffs_dm(r->Ok_0.0@) == sdiff_seq(
            seq_vmodel(old@),
            seq_vmodel(new@),
        ) && r->Ok_0.1 == !all_nc(sdiff_seq(seq_vmodel(old@), seq_vmodel(new@))),
    decreases old,
{
    let ghost ma = seq_vmodel(old@);
    let ghost mb = seq_vmodel(new@);
    let ghost cond = forall|i: int| 0 <= i < ma.len() ==> diffable(#[trigger] ma[i], mb[i]);
    proof {
        lemma_sdiff_seq(ma, mb);
    }
    let mut out: Vec<Diff> = Vec::new();
    let mut modified: bool = false;
    let mut i: usize = 0;
    while i < old.len()
        invariant
            i <= old@.len(),
            old@.len() == new@.len(),
            ma == seq_vmodel(old@),
            mb == seq_vmodel(new@),
            cond == (forall|k: int| 0 <= k < ma.len() ==> diffable(#[trigger] ma[k], mb[k])),
            sdiff_seq(ma, mb).len() == ma.len(),
            forall|k: int|
                0 <= k < ma.len() ==> sdiff_seq(ma, mb)[k] == sdiff(#[trigger] ma[k], mb[k]),
            cond ==> out@.len() == i,
            cond ==> forall|k: int|
                0 <= k < i ==> (#[trigger] out@[k]).dm() == sdiff_seq(ma, mb)[k],
            cond ==> modified == !(forall|k: int|
                0 <= k < i ==> (#[trigger] sdiff_seq(ma, mb)[k]) is NoChange),
        decreases old@.len() - i,
    {
        let d = old[i].diff(&new[i]);
        match d {
            Result::Err(e) => {
                proof {
                    if cond {
                        assert(diffable(ma[i as int], mb[i as int]));
                        assert(false);
                    }
                }
                return Result::Err(e);
            },
            Result::Ok(dv) => {
                if !matches!(dv, Diff::NoChange) {
                    modified = true;
                }
                proof {
                    if cond {
                        assert(dv.dm() == sdiff(ma[i as int], mb[i as int]));
                        assert((dv.dm() is NoChange) == matches!(dv, Diff::NoChange));
                    }
                }
                out.push(dv);
            },
        }
        i += 1;
    }
    proof {
        if cond {
            assert forall|k: int| 0 <= k < ma.len() implies diffs_dm(out@)[k] == sdiff_seq(
                ma,
                mb,
            )[k] by {
                assert(diffs_dm(out@)[k] == out@[k].dm());
            }
            assert(diffs_dm(out@) =~= sdiff_seq(ma, mb));
        }
    }
    Result::Ok((out, modified))
}

/// Diffs two named-field vectors, pairing fields of the old value with the
/// same-named fields of the new one.
fn diff_named_fields(old: &Vec<(String, Value)>, new: &Vec<(String, Value)>) -> (r: Result<
    (Vec<(String, Diff)>, bool),
    DiffError,
>)
    ensures
        named_diffable(named_vmodel(old@), named_vmodel(new@)) ==> r is Ok && named_diffs_dm(
            r->Ok_0.0@,
        ) == sdiff_named(named_vmodel(old@), named_vmodel(new@)) && r->Ok_0.1 == !all_nc_named(
            sdiff_named(named_vmodel(old@), named_vmodel(new@)),
        ),
    decreases old,
{
    let ghost ma = named_vmodel(old@);
    let ghost mb = named_vmodel(new@);
    let ghost cond = named_diffable(ma, mb);
    proof {
        lemma_sdiff_named(ma, mb);
    }
    let mut out: Vec<(String, Diff)> = Vec::new();
    let mut modified: bool = false;
    let mut i: usize = 0;
    while i < old.len()
        invariant
            i <= old@.len(),
            ma == named_vmodel(old@),
            mb == named_vmodel(new@),
            cond == named_diffable(ma, mb),
            sdiff_named(ma, mb).len() == ma.len(),
            forall|k: int|
                0 <= k < ma.len() ==> sdiff_named(ma, mb)[k] == (
                    (#[trigger] ma[k]).0,
                    match lookup_field(mb, ma[k].0) {
                        Option::Some(v2) => sdiff(ma[k].1, v2),
                        Option::None => crate::diff_model::DiffM::NoChange,
                    },
                ),
            cond ==> out@.len() == i,
            cond ==> forall|k: int|
                0 <= k < i ==> (#[trigger] named_diffs_dm(out@)[k]) == sdiff_named(ma, mb)[k],
            cond ==> modified == !(forall|k: int|
                0 <= k < i ==> (#[trigger] sdiff_named(ma, mb)[k]).1 is NoChange),
        decreases old@.len() - i,
    {
        let found = find_field(new, &old[i].0);
        match found {
            Option::None => {
                proof {
                    if cond {
                        assert(lookup_field(mb, ma[i as int].0) is Some);
                        assert(false);
                    }
                }
                return Result::Err(DiffError::MissingField);
            },
            Option::Some(v2) => {
                let d = old[i].1.diff(v2);
                match d {
                    Result::Err(e) => {
                        proof {
                            if cond {
                                assert(diffable(ma[i as int].1, lookup_field(mb, ma[i as int].0)->0));
                                assert(false);
                            }
                        }
                        return Result::Err(e);
                    },
                    Result::Ok(dv) => {
                        if !matches!(dv, Diff::NoChange) {
                            modified = true;
                        }
                        let name = old[i].0.clone();
                        proof {
                            if cond {
                                assert(dv.dm() == sdiff(
                                    ma[i as int].1,
                                    lookup_field(mb, ma[i as int].0)->0,
                                ));
                            }
                            crate::diff::lemma_named_diffs_dm_push(out@, (name, dv));
                        }
                        out.push((name, dv));
                    },
                }
            },
        }
        i += 1;
    }
    proof {
        if cond {
            assert(named_diffs_dm(out@) =~= sdiff_named(ma, mb));
        }
    }
    Result::Ok((out, modified))
}

/// Diffs two tuples.
pub fn diff_tuple(old: &DynamicTuple, new: &Value) -> (r: Result<Diff, DiffError>)
    ensures
        diffable(old.vm(), new.vmodel()) ==> r is Ok && r->Ok_0.dm() == sdiff(
            old.vm(),
            new.vmodel(),
        ),
        new.vmodel() is Tuple && crate::model::nc_unsupported(old.vm(), new.vmodel()) ==> r
            == Result::<Diff, DiffError>::Err(DiffError::Incomparable),
        !(new.vmodel() is Tuple) ==> r == Result::<Diff, DiffError>::Err(
            DiffError::ExpectedTuple,
        ),
    decreases old,
{
    match new {
        Value::Tuple(t2) => {
            let n1 = effective_ref(&old.name, &old.represented);
            let n2 = effective_ref(&t2.name, &t2.represented);
            proof {
                assert(old.vm() == Val::Tuple {
                    name: n1@,
                    fields: seq_vmodel(old.fields@),
                });
                assert(new.vmodel() == Val::Tuple {
                    name: n2@,
                    fields: seq_vmodel(t2.fields@),
                });
                assert(seq_vmodel(old.fields@).len() == old.fields@.len());
                assert(seq_vmodel(t2.fields@).len() == t2.fields@.len());
            }
            if old.fields.len() != t2.fields.len() || !(*n1 == *n2) {
                return Result::Ok(Diff::Replaced(ValueDiff::Owned(clone_value(new))));
            }
            if crate::nochange::seq_unsupported_exec(&old.fields, &t2.fields) {
                proof {
                    if diffable(old.vm(), new.vmodel()) {
                        crate::lemmas::lemma_comparable_not_unsupported(old.vm(), new.vmodel());
                    }
                }
                return Result::Err(DiffError::Incomparable);
            }
            proof {
                if diffable(old.vm(), new.vmodel()) {
                    assert(crate::model::seq_aligned(
                        seq_vmodel(old.fields@),
                        seq_vmodel(t2.fields@),
                    ));
                }
            }
            let pair = diff_positional(&old.fields, &t2.fields);
            match pair {
                Result::Err(e) => Result::Err(e),
                Result::Ok((fields, modified)) => {
                    if !modified {
                        Result::Ok(Diff::NoChange)
                    } else {
                        let name = effective_ref(&t2.name, &t2.represented).clone();
                        Result::Ok(
                            Diff::Modified(DiffType::Tuple(DiffedTuple { name, fields })),
                        )
                    }
                },
            }
        },
        _ => Result::Err(DiffError::ExpectedTuple),
    }
}

/// Diffs two arrays; a differing length is a differing type identity.
pub fn diff_array(old: &crate::value::DynamicArray, new: &Value) -> (r: Result<
    Diff,
    DiffError,
>)
    ensures
        diffable(old.vm(), new.vmodel()) ==> r is Ok && r->Ok_0.dm() == sdiff(
            old.vm(),
            new.vmodel(),
        ),
        new.vmodel() is Array && crate::model::nc_unsupported(old.vm(), new.vmodel()) ==> r
            == Result::<Diff, DiffError>::Err(DiffError::Incomparable),
        !(new.vmodel() is Array) ==> r == Result::<Diff, DiffError>::Err(
            DiffError::ExpectedArray,
        ),
    decreases old,
{
    match new {
        Value::Array(a2) => {
            let n1 = effective_ref(&old.name, &old.represented);
            let n2 = effective_ref(&a2.name, &a2.represented);
            proof {
                assert(old.vm() == Val::Array { name: n1@, elems: seq_vmodel(old.elements@) });
                assert(new.vmodel() == Val::Array { name: n2@, elems: seq_vmodel(a2.elements@) });
                assert(seq_vmodel(old.elements@).len() == old.elements@.len());
                assert(seq_vmodel(a2.elements@).len() == a2.elements@.len());
            }
            if old.elements.len() != a2.elements.len() || !(*n1 == *n2) {
                return Result::Ok(Diff::Replaced(ValueDiff::Owned(clone_value(new))));
            }
            if crate::nochange::seq_unsupported_exec(&old.elements, &a2.elements) {
                proof {
                    if diffable(old.vm(), new.vmodel()) {
                        crate::lemmas::lemma_comparable_not_unsupported(old.vm(), new.vmodel());
                    }
                }
                return Result::Err(DiffError::Incomparable);
            }
            proof {
                if diffable(old.vm(), new.vmodel()) {
                    assert(crate::model::seq_aligned(
                        seq_vmodel(old.elements@),
                        seq_vmodel(a2.elements@),
                    ));
                }
            }
            let pair = diff_positional(&old.elements, &a2.elements);
            match pair {
                Result::Err(e) => Result::Err(e),
                Result::Ok((elements, modified)) => {
                    if !modified {
                        Result::Ok(Diff::NoChange)
                    } else {
                        let name = effective_ref(&a2.name, &a2.represented).clone();
                        Result::Ok(
                            Diff::Modified(
                                DiffType::Array(crate::diff::DiffedArray { name, elements }),
                            ),
                        )
                    }
                },
            }
        },
        _ => Result::Err(DiffError::ExpectedArray),
    }
}

/// Diffs two tuple structs.
pub fn diff_tuple_struct(old: &DynamicTupleStruct, new: &Value) -> (r: Result<Diff, DiffError>)
    ensures
        diffable(old.vm(), new.vmodel()) ==> r is Ok && r->Ok_0.dm() == sdiff(
            old.vm(),
            new.vmodel(),
        ),
        new.vmodel() is TupleStruct && crate::model::nc_unsupported(old.vm(), new.vmodel()) ==> r
            == Result::<Diff, DiffError>::Err(DiffError::Incomparable),
        !(new.vmodel() is TupleStruct) ==> r == Result::<Diff, DiffError>::Err(
            DiffError::ExpectedTupleStruct,
        ),
    decreases old,
{
    match new {
        Value::TupleStruct(t2) => {
            let n1 = effective_ref(&old.name, &old.represented);
            let n2 = effective_ref(&t2.name, &t2.represented);
            proof {
                assert(old.vm() == Val::TupleStruct {
                    name: n1@,
                    fields: seq_vmodel(old.fields@),
                });
                assert(new.vmodel() == Val::TupleStruct {
                    name: n2@,
                    fields: seq_vmodel(t2.fields@),
                });
                assert(seq_vmodel(old.fields@).len() == old.fields@.len());
                assert(seq_vmodel(t2.fields@).len() == t2.fields@.len());
            }
            if old.fields.len() != t2.fields.len() || !(*n1 == *n2) {
                return Result::Ok(Diff::Replaced(ValueDiff::Owned(clone_value(new))));
            }
            if crate::nochange::seq_unsupported_exec(&old.fields, &t2.fields) {
                proof {
                    if diffable(old.vm(), new.vmodel()) {
                        crate::lemmas::lemma_comparable_not_unsupported(old.vm(), new.vmodel());
                    }
                }
                return Result::Err(DiffError::Incomparable);
            }
            proof {
                if diffable(old.vm(), new.vmodel()) {
                    assert(crate::model::seq_aligned(
                        seq_vmodel(old.fields@),
                        seq_vmodel(t2.fields@),
                    ));
                }
            }
            let pair = diff_positional(&old.fields, &t2.fields);
            match pair {
                Result::Err(e) => Result::Err(e),
                Result::Ok((fields, modified)) => {
                    if !modified {
                        Result::Ok(Diff::NoChange)
                    } else {
                        let name = effective_ref(&t2.name, &t2.represented).clone();
                        Result::Ok(
                            Diff::Modified(
                                DiffType::TupleStruct(DiffedTupleStruct { name, fields }),
                            ),
                        )
                    }
                },
            }
        },
        _ => Result::Err(DiffError::ExpectedTupleStruct),
    }
}

/// Diffs two structs, pairing fields by name in the old declaration order.
pub fn diff_struct(old: &DynamicStruct, new: &Value) -> (r: Result<Diff, DiffError>)
    ensures
        diffable(old.vm(), new.vmodel()) ==> r is Ok && r->Ok_0.dm() == sdiff(
            old.vm(),
            new.vmodel(),
        ),
        !(new.vmodel() is Struct) ==> r == Result::<Diff, DiffError>::Err(
            DiffError::ExpectedStruct,
        ),
        (new.vmodel() is Struct && old.spec_type_path() == new.vmodel()->Struct_name
            && !crate::diff_model::all_fields_present(
            named_vmodel(old.fields@),
            new.vmodel()->Struct_fields,
        )) ==> r == Result::<Diff, DiffError>::Err(DiffError::MissingField),
        (new.vmodel() is Struct && crate::model::nc_unsupported(old.vm(), new.vmodel())
            && crate::diff_model::all_fields_present(
            named_vmodel(old.fields@),
            new.vmodel()->Struct_fields,
        )) ==> r == Result::<Diff, DiffError>::Err(DiffError::Incomparable),
    decreases old,
{
    match new {
        Value::Struct(s2) => {
            let n1 = effective_ref(&old.name, &old.represented);
            let n2 = effective_ref(&s2.name, &s2.represented);
            proof {
                assert(old.vm() == Val::Struct { name: n1@, fields: named_vmodel(old.fields@) });
                assert(new.vmodel() == Val::Struct {
                    name: n2@,
                    fields: named_vmodel(s2.fields@),
                });
                assert(named_vmodel(old.fields@).len() == old.fields@.len());
                assert(named_vmodel(s2.fields@).len() == s2.fields@.len());
            }
            if !(*n1 == *n2) {
                return Result::Ok(Diff::Replaced(ValueDiff::Owned(clone_value(new))));
            }
            // a field of the old value with no counterpart in the new one
            // is a broken type-identity invariant upstream
            let mut i: usize = 0;
            while i < old.fields.len()
                invariant
                    i <= old.fields@.len(),
                    new.vmodel() is Struct,
                    new.vmodel() == (Val::Struct {
                        name: old.spec_type_path(),
                        fields: named_vmodel(s2.fields@),
                    }),
                    old.vm() == (Val::Struct {
                        name: old.spec_type_path(),
                        fields: named_vmodel(old.fields@),
                    }),
                    named_vmodel(old.fields@).len() == old.fields@.len(),
                    forall|k: int|
                        0 <= k < i ==> lookup_field(
                            named_vmodel(s2.fields@),
                            (#[trigger] named_vmodel(old.fields@)[k]).0,
                        ) is Some,
                decreases old.fields@.len() - i,
            {
                let found = find_field(&s2.fields, &old.fields[i].0);
                if found.is_none() {
                    proof {
                        assert(lookup_field(
                            named_vmodel(s2.fields@),
                            (named_vmodel(old.fields@)[i as int]).0,
                        ) is None);
                        assert(!crate::diff_model::all_fields_present(
                            named_vmodel(old.fields@),
                            named_vmodel(s2.fields@),
                        ));
                        if diffable(old.vm(), new.vmodel()) {
                            lemma_named_diffable(
                                named_vmodel(old.fields@),
                                named_vmodel(s2.fields@),
                            );
                            assert(false);
                        }
                    }
                    return Result::Err(DiffError::MissingField);
                }
                i += 1;
            }
            proof {
                assert(crate::diff_model::all_fields_present(
                    named_vmodel(old.fields@),
                    named_vmodel(s2.fields@),
                ));
                if diffable(old.vm(), new.vmodel()) {
                    lemma_named_diffable(named_vmodel(old.fields@), named_vmodel(s2.fields@));
                }
            }
            if crate::nochange::named_unsupported_exec(&old.fields, &s2.fields) {
                proof {
                    if diffable(old.vm(), new.vmodel()) {
                        crate::lemmas::lemma_comparable_not_unsupported(old.vm(), new.vmodel());
                    }
                }
                return Result::Err(DiffError::Incomparable);
            }
            let pair = diff_named_fields(&old.fields, &s2.fields);
            match pair {
                Result::Err(e) => Result::Err(e),
                Result::Ok((fields, modified)) => {
                    if !modified {
                        Result::Ok(Diff::NoChange)
                    } else {
                        let name = effective_ref(&s2.name, &s2.represented).clone();
                        Result::Ok(
                            Diff::Modified(DiffType::Struct(DiffedStruct { name, fields })),
                        )
                    }
                },
            }
        },
        _ => Result::Err(DiffError::ExpectedStruct),
    }
}

/// Diffs two maps into an unordered edit set: deletions and modifications
/// for old keys first, then insertions for keys only the new map holds.
pub fn diff_map(old: &DynamicMap, new: &Value) -> (r: Result<Diff, DiffError>)
    ensures
        diffable(old.vm(), new.vmodel()) ==> r is Ok && r->Ok_0.dm() == sdiff(
            old.vm(),
            new.vmodel(),
        ),
        new.vmodel() is Mapping && crate::model::nc_unsupported(old.vm(), new.vmodel()) ==> r
            == Result::<Diff, DiffError>::Err(DiffError::Incomparable),
        !(new.vmodel() is Mapping) ==> r == Result::<Diff, DiffError>::Err(
            DiffError::ExpectedMap,
        ),
    decreases old,
{
    match new {
        Value::Mapping(m2) => {
            let n1 = effective_ref(&old.name, &old.represented);
            let n2 = effective_ref(&m2.name, &m2.represented);
            proof {
                assert(old.vm() == Val::Mapping {
                    name: n1@,
                    entries: entries_vmodel(old.entries@),
                });
                assert(new.vmodel() == Val::Mapping {
                    name: n2@,
                    entries: entries_vmodel(m2.entries@),
                });
                assert(entries_vmodel(old.entries@).len() == old.entries@.len());
                assert(entries_vmodel(m2.entries@).len() == m2.entries@.len());
            }
            if !(*n1 == *n2) {
                return Result::Ok(Diff::Replaced(ValueDiff::Owned(clone_value(new))));
            }
            if crate::nochange::entries_unsupported_exec(&old.entries, &m2.entries) {
                proof {
                    if diffable(old.vm(), new.vmodel()) {
                        crate::lemmas::lemma_comparable_not_unsupported(old.vm(), new.vmodel());
                    }
                }
                return Result::Err(DiffError::Incomparable);
            }
            let ghost e1m = entries_vmodel(old.entries@);
            let ghost e2m = entries_vmodel(m2.entries@);
            let ghost cond = diffable(old.vm(), new.vmodel());
            proof {
                if cond {
                    lemma_entries_diffable(e1m, e2m);
                }
                assert(e1m.skip(0) =~= e1m);
            }
            let mut changes: Vec<MapDiff> = Vec::new();
            proof {
                assert(changes@ =~= Seq::<MapDiff>::empty());
                assert(map_edits_dm(changes@) =~= Seq::<MapEditM>::empty());
                assert(map_edits_dm(changes@) + map_mods(e1m, e2m) =~= map_mods(e1m, e2m));
            }
            let mut i: usize = 0;
            while i < old.entries.len()
                invariant
                    i <= old.entries@.len(),
                    e1m == entries_vmodel(old.entries@),
                    e2m == entries_vmodel(m2.entries@),
                    cond == diffable(old.vm(), new.vmodel()),
                    new.vmodel() is Mapping,
                    !crate::model::nc_unsupported(old.vm(), new.vmodel()),
                    cond ==> entries_diffable(e1m, e2m),
                    cond ==> map_edits_dm(changes@) + map_mods(e1m.skip(i as int), e2m)
                        == map_mods(e1m, e2m),
                decreases old.entries@.len() - i,
            {
                let ghost pre = map_edits_dm(changes@);
                proof {
                    lemma_skip_step(e1m, i as int);
                }
                let found = find_entry(&m2.entries, &old.entries[i].0);
                match found {
                    Option::None => {
                        let e = MapDiff::Deleted(
                            ValueDiff::Owned(clone_value(&old.entries[i].0)),
                        );
                        proof {
                            if cond {
                                assert(map_mods(e1m.skip(i as int), e2m) == seq![
                                    MapEditM::Deleted(e1m[i as int].0),
                                ] + map_mods(e1m.skip(i + 1), e2m));
                                assert(e.em() == MapEditM::Deleted(e1m[i as int].0));
                                lemma_map_edits_dm_push(changes@, e);
                                assert((pre + seq![e.em()]) + map_mods(e1m.skip(i + 1), e2m)
                                    =~= pre + map_mods(e1m.skip(i as int), e2m));
                            }
                        }
                        changes.push(e);
                    },
                    Option::Some(v2) => {
                        let d = old.entries[i].1.diff(v2);
                        match d {
                            Result::Err(err) => {
                                proof {
                                    if cond {
                                        assert(diffable(
                                            e1m[i as int].1,
                                            lookup_entry(e2m, e1m[i as int].0)->0,
                                        ));
                                        assert(false);
                                    }
                                }
                                return Result::Err(err);
                            },
                            Result::Ok(dv) => {
                                proof {
                                    if cond {
                                        assert(dv.dm() == sdiff(
                                            e1m[i as int].1,
                                            lookup_entry(e2m, e1m[i as int].0)->0,
                                        ));
                                    }
                                }
                                if !matches!(dv, Diff::NoChange) {
                                    let e = MapDiff::Modified(
                                        ValueDiff::Owned(clone_value(&old.entries[i].0)),
                                        dv,
                                    );
                                    proof {
                                        if cond {
                                            assert(map_mods(e1m.skip(i as int), e2m) == seq![
                                                e.em(),
                                            ] + map_mods(e1m.skip(i + 1), e2m));
                                            lemma_map_edits_dm_push(changes@, e);
                                            assert((pre + seq![e.em()]) + map_mods(
                                                e1m.skip(i + 1),
                                                e2m,
                                            ) =~= pre + map_mods(e1m.skip(i as int), e2m));
                                        }
                                    }
                                    changes.push(e);
                                } else {
                                    proof {
                                        if cond {
                                            assert(map_mods(e1m.skip(i as int), e2m) == map_mods(
                                                e1m.skip(i + 1),
                                                e2m,
                                            ));
                                        }
                                    }
                                }
                            },
                        }
                    },
                }
                i += 1;
            }
            proof {
                if cond {
                    assert(e1m.skip(e1m.len() as int).len() == 0);
                    assert(map_mods(e1m.skip(e1m.len() as int), e2m) =~= Seq::<
                        MapEditM,
                    >::empty());
                    assert(map_edits_dm(changes@) + Seq::<MapEditM>::empty() =~= map_edits_dm(
                        changes@,
                    ));
                    assert(map_edits_dm(changes@) == map_mods(e1m, e2m));
                }
            }
            proof {
                if cond {
                    assert(e2m.skip(0) =~= e2m);
                }
            }
            let mut j: usize = 0;
            while j < m2.entries.len()
                invariant
                    j <= m2.entries@.len(),
                    e1m == entries_vmodel(old.entries@),
                    e2m == entries_vmodel(m2.entries@),
                    cond == diffable(old.vm(), new.vmodel()),
                    new.vmodel() is Mapping,
                    cond ==> map_edits_dm(changes@) + map_ins(e2m.skip(j as int), e1m)
                        == map_mods(e1m, e2m) + map_ins(e2m, e1m),
                decreases m2.entries@.len() - j,
            {
                let ghost pre = map_edits_dm(changes@);
                proof {
                    lemma_skip_step(e2m, j as int);
                }
                let found = find_entry(&old.entries, &m2.entries[j].0);
                match found {
                    Option::Some(_) => {
                        proof {
                            if cond {
                                assert(map_ins(e2m.skip(j as int), e1m) == map_ins(
                                    e2m.skip(j + 1),
                                    e1m,
                                ));
                            }
                        }
                    },
                    Option::None => {
                        let e = MapDiff::Inserted(
                            ValueDiff::Owned(clone_value(&m2.entries[j].0)),
                            ValueDiff::Owned(clone_value(&m2.entries[j].1)),
                        );
                        proof {
                            if cond {
                                assert(map_ins(e2m.skip(j as int), e1m) == seq![e.em()] + map_ins(
                                    e2m.skip(j + 1),
                                    e1m,
                                ));
                                lemma_map_edits_dm_push(changes@, e);
                                assert((pre + seq![e.em()]) + map_ins(e2m.skip(j + 1), e1m)
                                    =~= pre + map_ins(e2m.skip(j as int), e1m));
                            }
                        }
                        changes.push(e);
                    },
                }
                j += 1;
            }
            proof {
                if cond {
                    assert(e2m.skip(e2m.len() as int).len() == 0);
                    assert(map_ins(e2m.skip(e2m.len() as int), e1m) =~= Seq::<MapEditM>::empty());
                    assert(map_edits_dm(changes@) + Seq::<MapEditM>::empty() =~= map_edits_dm(
                        changes@,
                    ));
                    assert(map_edits_dm(changes@) == map_mods(e1m, e2m) + map_ins(e2m, e1m));
                }
            }
            if changes.len() == 0 {
                Result::Ok(Diff::NoChange)
            } else {
                let name = effective_ref(&m2.name, &m2.represented).clone();
                Result::Ok(Diff::Modified(DiffType::Mapping(DiffedMap { name, changes })))
            }
        },
        _ => Result::Err(DiffError::ExpectedMap),
    }
}

/// Diffs two enums.  A change of active variant or of variant kind is one
/// opaque swap of the whole value; a shared variant is diffed field by
/// field.
pub fn diff_enum(old: &DynamicEnum, new: &Value) -> (r: Result<Diff, DiffError>)
    ensures
        diffable(old.vm(), new.vmodel()) ==> r is Ok && r->Ok_0.dm() == sdiff(
            old.vm(),
            new.vmodel(),
        ),
        !(new.vmodel() is Enum) ==> r == Result::<Diff, DiffError>::Err(DiffError::ExpectedEnum),
        (new.vmodel() is Enum && old.name@ == new.vmodel()->Enum_name && old.variant_name@
            == new.vmodel()->Enum_variant && old.data.dmodel() is Struct
            && new.vmodel()->Enum_data is Struct && !crate::diff_model::all_fields_present(
            old.data.dmodel()->Struct_0,
            new.vmodel()->Enum_data->Struct_0,
        )) ==> r == Result::<Diff, DiffError>::Err(DiffError::MissingField),
        (new.vmodel() is Enum && crate::model::nc_unsupported(old.vm(), new.vmodel()) && !(
        old.data.dmodel() is Struct)) ==> r == Result::<Diff, DiffError>::Err(
            DiffError::Incomparable,
        ),
        (new.vmodel() is Enum && crate::model::nc_unsupported(old.vm(), new.vmodel())
            && old.data.dmodel() is Struct && crate::diff_model::all_fields_present(
            old.data.dmodel()->Struct_0,
            new.vmodel()->Enum_data->Struct_0,
        )) ==> r == Result::<Diff, DiffError>::Err(DiffError::Incomparable),
    decreases old,
{
    match new {
        Value::Enum(e2) => {
            proof {
                assert(old.vm() == Val::Enum {
                    name: old.name@,
                    variant: old.variant_name@,
                    data: old.data.dmodel(),
                });
                assert(new.vmodel() == Val::Enum {
                    name: e2.name@,
                    variant: e2.variant_name@,
                    data: e2.data.dmodel(),
                });
            }
            if !(old.name == e2.name) {
                return Result::Ok(Diff::Replaced(ValueDiff::Owned(clone_value(new))));
            }
            if !(old.variant_name == e2.variant_name) || !variant_kind_eq(&old.data, &e2.data) {
                return Result::Ok(
                    Diff::Modified(
                        DiffType::Enum(EnumDiff::Swapped(ValueDiff::Owned(clone_value(new)))),
                    ),
                );
            }
            match (&old.data, &e2.data) {
                (VariantData::Unit, VariantData::Unit) => Result::Ok(Diff::NoChange),
                (VariantData::Tuple(f1), VariantData::Tuple(f2)) => {
                    proof {
                        assert(old.data.dmodel() == crate::model::VariantVal::Tuple(
                            seq_vmodel(f1@),
                        ));
                        assert(e2.data.dmodel() == crate::model::VariantVal::Tuple(
                            seq_vmodel(f2@),
                        ));
                        assert(seq_vmodel(f1@).len() == f1@.len());
                        assert(seq_vmodel(f2@).len() == f2@.len());
                    }
                    if f1.len() != f2.len() {
                        proof {
                            if diffable(old.vm(), new.vmodel()) {
                                assert(crate::model::aligned(old.vm(), new.vmodel()));
                                assert(old.name@ == e2.name@);
                                assert(old.variant_name@ == e2.variant_name@);
                                assert(crate::model::variant_aligned(
                                    old.data.dmodel(),
                                    e2.data.dmodel(),
                                ));
                                assert(false);
                            }
                        }
                        return Result::Err(DiffError::MissingField);
                    }
                    if crate::nochange::seq_unsupported_exec(f1, f2) {
                        proof {
                            if diffable(old.vm(), new.vmodel()) {
                                crate::lemmas::lemma_comparable_not_unsupported(
                                    old.vm(),
                                    new.vmodel(),
                                );
                            }
                        }
                        return Result::Err(DiffError::Incomparable);
                    }
                    proof {
                        if diffable(old.vm(), new.vmodel()) {
                            assert(crate::model::aligned(old.vm(), new.vmodel()));
                            assert(crate::model::variant_aligned(
                                old.data.dmodel(),
                                e2.data.dmodel(),
                            ));
                            assert(crate::model::seq_aligned(
                                seq_vmodel(f1@),
                                seq_vmodel(f2@),
                            ));
                            assert(crate::model::comparable(old.vm())
                                && crate::model::comparable(new.vmodel()));
                            assert(crate::model::seq_comparable(seq_vmodel(f1@)));
                            assert(crate::model::seq_comparable(seq_vmodel(f2@)));
                            assert(crate::model::wf(old.vm()) && crate::model::wf(new.vmodel()));
                            assert(crate::model::seq_wf(seq_vmodel(f1@)));
                            assert(crate::model::seq_wf(seq_vmodel(f2@)));
                            assert forall|k: int|
                                0 <= k < seq_vmodel(f1@).len() implies diffable(
                                #[trigger] seq_vmodel(f1@)[k],
                                seq_vmodel(f2@)[k],
                            ) by {}
                        }
                    }
                    let pair = diff_positional(f1, f2);
                    match pair {
                        Result::Err(e) => Result::Err(e),
                        Result::Ok((fields, modified)) => {
                            if !modified {
                                Result::Ok(Diff::NoChange)
                            } else {
                                let name = e2.name.clone();
                                Result::Ok(
                                    Diff::Modified(
                                        DiffType::Enum(
                                            EnumDiff::Tuple(DiffedTupleVariant { name, fields }),
                                        ),
                                    ),
                                )
                            }
                        },
                    }
                },
                (VariantData::Struct(f1), VariantData::Struct(f2)) => {
                    proof {
                        assert(old.data.dmodel() == crate::model::VariantVal::Struct(
                            named_vmodel(f1@),
                        ));
                        assert(e2.data.dmodel() == crate::model::VariantVal::Struct(
                            named_vmodel(f2@),
                        ));
                        assert(named_vmodel(f1@).len() == f1@.len());
                        assert(named_vmodel(f2@).len() == f2@.len());
                        if diffable(old.vm(), new.vmodel()) {
                            assert(crate::model::aligned(old.vm(), new.vmodel()));
                            assert(crate::model::variant_aligned(
                                old.data.dmodel(),
                                e2.data.dmodel(),
                            ));
                            assert(crate::model::named_aligned(
                                named_vmodel(f1@),
                                named_vmodel(f2@),
                            ));
                            assert(crate::model::comparable(old.vm())
                                && crate::model::comparable(new.vmodel()));
                            assert(crate::model::named_comparable(named_vmodel(f1@)));
                            assert(crate::model::named_comparable(named_vmodel(f2@)));
                            assert(crate::model::wf(old.vm()) && crate::model::wf(new.vmodel()));
                            assert(crate::model::unique_names(named_vmodel(f2@)));
                            assert(crate::model::named_wf(named_vmodel(f1@)));
                            assert(crate::model::named_wf(named_vmodel(f2@)));
                            lemma_named_diffable(named_vmodel(f1@), named_vmodel(f2@));
                            assert(crate::diff_model::all_fields_present(
                                named_vmodel(f1@),
                                named_vmodel(f2@),
                            ));
                        }
                    }
                    // a field of the old variant with no counterpart in
                    // the new one is a broken invariant upstream
                    let mut i: usize = 0;
                    while i < f1.len()
                        invariant
                            i <= f1@.len(),
                            new.vmodel() == (Val::Enum {
                                name: old.name@,
                                variant: old.variant_name@,
                                data: crate::model::VariantVal::Struct(named_vmodel(f2@)),
                            }),
                            old.vm() == (Val::Enum {
                                name: old.name@,
                                variant: old.variant_name@,
                                data: crate::model::VariantVal::Struct(named_vmodel(f1@)),
                            }),
                            old.data.dmodel() == crate::model::VariantVal::Struct(
                                named_vmodel(f1@),
                            ),
                            named_vmodel(f1@).len() == f1@.len(),
                            forall|k: int|
                                0 <= k < i ==> lookup_field(
                                    named_vmodel(f2@),
                                    (#[trigger] named_vmodel(f1@)[k]).0,
                                ) is Some,
                        decreases f1@.len() - i,
                    {
                        let found = find_field(f2, &f1[i].0);
                        if found.is_none() {
                            proof {
                                assert(lookup_field(
                                    named_vmodel(f2@),
                                    (named_vmodel(f1@)[i as int]).0,
                                ) is None);
                                assert(!crate::diff_model::all_fields_present(
                                    named_vmodel(f1@),
                                    named_vmodel(f2@),
                                ));
                                if diffable(old.vm(), new.vmodel()) {
                                    assert(crate::model::aligned(old.vm(), new.vmodel()));
                                    assert(crate::model::variant_aligned(
                                        crate::model::VariantVal::Struct(named_vmodel(f1@)),
                                        crate::model::VariantVal::Struct(named_vmodel(f2@)),
                                    ));
                                    assert(crate::model::named_aligned(
                                        named_vmodel(f1@),
                                        named_vmodel(f2@),
                                    ));
                                    assert(crate::model::wf(new.vmodel()));
                                    assert(crate::model::unique_names(named_vmodel(f2@)));
                                    assert(crate::model::comparable(old.vm())
                                        && crate::model::comparable(new.vmodel()));
                                    assert(crate::model::named_comparable(named_vmodel(f1@)));
                                    assert(crate::model::named_comparable(named_vmodel(f2@)));
                                    assert(crate::model::named_wf(named_vmodel(f1@)));
                                    assert(crate::model::named_wf(named_vmodel(f2@)));
                                    lemma_named_diffable(
                                        named_vmodel(f1@),
                                        named_vmodel(f2@),
                                    );
                                    assert(false);
                                }
                            }
                            return Result::Err(DiffError::MissingField);
                        }
                        i += 1;
                    }
                    proof {
                        assert(crate::diff_model::all_fields_present(
                            named_vmodel(f1@),
                            named_vmodel(f2@),
                        ));
                    }
                    if crate::nochange::named_unsupported_exec(f1, f2) {
                        proof {
                            if diffable(old.vm(), new.vmodel()) {
                                crate::lemmas::lemma_comparable_not_unsupported(
                                    old.vm(),
                                    new.vmodel(),
                                );
                            }
                        }
                        return Result::Err(DiffError::Incomparable);
                    }
                    let pair = diff_named_fields(f1, f2);
                    match pair {
                        Result::Err(e) => Result::Err(e),
                        Result::Ok((fields, modified)) => {
                            if !modified {
                                Result::Ok(Diff::NoChange)
                            } else {
                                let name = e2.name.clone();
                                Result::Ok(
                                    Diff::Modified(
                                        DiffType::Enum(
                                            EnumDiff::Struct(
                                                DiffedStructVariant { name, fields },
                                            ),
                                        ),
                                    ),
                                )
                            }
                        },
                    }
                },
                _ => Result::Err(DiffError::ExpectedEnum),
            }
        },
        _ => Result::Err(DiffError::ExpectedEnum),
    }
}

impl Value {
    /// Computes the structural difference between this value and another.
    ///
    /// Under the type-identity contract — both values well-formed,
    /// supporting equality and pairwise aligned — diffing succeeds and the
    /// result is exactly the specified diff of the two models.
    pub fn diff(&self, other: &Value) -> (r: Result<Diff, DiffError>)
        ensures
            diffable(self.vmodel(), other.vmodel()) ==> r is Ok && r->Ok_0.dm() == sdiff(
                self.vmodel(),
                other.vmodel(),
            ),
            self.vmodel() is Tuple && !(other.vmodel() is Tuple) ==> r == Result::<
                Diff,
                DiffError,
            >::Err(DiffError::ExpectedTuple),
            self.vmodel() is Array && !(other.vmodel() is Array) ==> r == Result::<
                Diff,
                DiffError,
            >::Err(DiffError::ExpectedArray),
            self.vmodel() is List && !(other.vmodel() is List) ==> r == Result::<
                Diff,
                DiffError,
            >::Err(DiffError::ExpectedList),
            self.vmodel() is Mapping && !(other.vmodel() is Mapping) ==> r == Result::<
                Diff,
                DiffError,
            >::Err(DiffError::ExpectedMap),
            self.vmodel() is TupleStruct && !(other.vmodel() is TupleStruct) ==> r == Result::<
                Diff,
                DiffError,
            >::Err(DiffError::ExpectedTupleStruct),
            self.vmodel() is Struct && !(other.vmodel() is Struct) ==> r == Result::<
                Diff,
                DiffError,
            >::Err(DiffError::ExpectedStruct),
            self.vmodel() is Enum && !(other.vmodel() is Enum) ==> r == Result::<
                Diff,
                DiffError,
            >::Err(DiffError::ExpectedEnum),
            (self.vmodel() is Struct && other.vmodel() is Struct && self.vmodel()->Struct_name
                == other.vmodel()->Struct_name && !crate::diff_model::all_fields_present(
                self.vmodel()->Struct_fields,
                other.vmodel()->Struct_fields,
            )) ==> r == Result::<Diff, DiffError>::Err(DiffError::MissingField),
            (self.vmodel() is Enum && other.vmodel() is Enum && self.vmodel()->Enum_name
                == other.vmodel()->Enum_name && self.vmodel()->Enum_variant
                == other.vmodel()->Enum_variant && self.vmodel()->Enum_data is Struct
                && other.vmodel()->Enum_data is Struct && !crate::diff_model::all_fields_present(
                self.vmodel()->Enum_data->Struct_0,
                other.vmodel()->Enum_data->Struct_0,
            )) ==> r == Result::<Diff, DiffError>::Err(DiffError::MissingField),
            (crate::model::nc_unsupported(self.vmodel(), other.vmodel()) && !(self.vmodel()
                is Struct) && !(self.vmodel() is Enum)) ==> r == Result::<Diff, DiffError>::Err(
                DiffError::Incomparable,
            ),
            (crate::model::nc_unsupported(self.vmodel(), other.vmodel()) && self.vmodel()
                is Struct && crate::diff_model::all_fields_present(
                self.vmodel()->Struct_fields,
                other.vmodel()->Struct_fields,
            )) ==> r == Result::<Diff, DiffError>::Err(DiffError::Incomparable),
            (crate::model::nc_unsupported(self.vmodel(), other.vmodel()) && self.vmodel()
                is Enum && (self.vmodel()->Enum_data is Struct
                ==> crate::diff_model::all_fields_present(
                self.vmodel()->Enum_data->Struct_0,
                other.vmodel()->Enum_data->Struct_0,
            ))) ==> r == Result::<Diff, DiffError>::Err(DiffError::Incomparable),
        decreases self,
    {
        match self {
            Value::Leaf(l) => diff_value(l, other),
            Value::Tuple(t) => diff_tuple(t, other),
            Value::Array(a) => diff_array(a, other),
            Value::List(l) => {
                proof {
                    if diffable(self.vmodel(), other.vmodel()) {
                        crate::lemmas::lemma_comparable_not_unsupported(
                            self.vmodel(),
                            other.vmodel(),
                        );
                    }
                }
                diff_list(l, other)
            },
            Value::Mapping(m) => diff_map(m, other),
            Value::TupleStruct(t) => diff_tuple_struct(t, other),
            Value::Struct(s) => diff_struct(s, other),
            Value::Enum(e) => diff_enum(e, other),
        }
    }
}

} // verus!
