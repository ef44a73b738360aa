//! The mathematical model of structural deltas, and the functional
//! specification of the diff and apply engines.
//!
//! [`sdiff`] is the specification the executable diff engine is proved to
//! implement; [`sapply`] the one for the apply engine.  The list algorithms
//! are specified by [`lcs_len`] and [`script`]: the edit script of two
//! sequences is the minimal one, preferring deletions and keeping insertions
//! that share an anchor in the order of the new sequence.

use vstd::prelude::*;

use crate::model::{
    leaf_veq, lookup_entry, lookup_field, nochange, veq, LeafVal, Val, VariantVal,
};

verus! {

/// Model of one edit of a list edit script.  Indices refer to the old
/// sequence; an insertion is anchored before the old element at its index.
#[verifier::ext_equal]
pub ghost enum EditM {
    Deleted(int),
    Inserted(int, Val),
}

/// Model of one edit of a map delta.
#[verifier::ext_equal]
pub ghost enum MapEditM {
    Deleted(Val),
    Inserted(Val, Val),
    Modified(Val, DiffM),
}

/// Model of the delta of an enum value.
#[allow(inconsistent_fields)]
#[verifier::ext_equal]
pub ghost enum EnumDiffM {
    Swapped(Val),
    Tuple { name: Seq<char>, fields: Seq<DiffM> },
    Struct { name: Seq<char>, fields: Seq<(Seq<char>, DiffM)> },
}

/// Model of a shape-specific delta payload.
#[allow(inconsistent_fields)]
#[verifier::ext_equal]
pub ghost enum DeltaM {
    Value(Val),
    Tuple { name: Seq<char>, fields: Seq<DiffM> },
    Array { name: Seq<char>, elems: Seq<DiffM> },
    List { name: Seq<char>, edits: Seq<EditM> },
    Mapping { name: Seq<char>, edits: Seq<MapEditM> },
    TupleStruct { name: Seq<char>, fields: Seq<DiffM> },
    Struct { name: Seq<char>, fields: Seq<(Seq<char>, DiffM)> },
    Enum(EnumDiffM),
}

/// Model of a diff.
#[verifier::ext_equal]
pub ghost enum DiffM {
    NoChange,
    Replaced(Val),
    Modified(DeltaM),
}

/// Model of an apply-time error.
#[verifier::ext_equal]
pub ghost enum ApplyErr {
    ExpectedValue,
    ExpectedTuple,
    ExpectedArray,
    ExpectedList,
    ExpectedMap,
    ExpectedTupleStruct,
    ExpectedStruct,
    ExpectedEnum,
    ExpectedTupleVariant,
    ExpectedStructVariant,
    MissingField,
    TypeMismatch,
    Failed(Seq<char>),
}

/// Whether two leaves have the same type identity: the same kind, and for
/// opaque leaves the same type name.
pub open spec fn leaf_same_type(a: LeafVal, b: LeafVal) -> bool {
    match (a, b) {
        (LeafVal::Bool(_), LeafVal::Bool(_)) => true,
        (LeafVal::I8(_), LeafVal::I8(_)) => true,
        (LeafVal::I16(_), LeafVal::I16(_)) => true,
        (LeafVal::I32(_), LeafVal::I32(_)) => true,
        (LeafVal::I64(_), LeafVal::I64(_)) => true,
        (LeafVal::ISize(_), LeafVal::ISize(_)) => true,
        (LeafVal::U8(_), LeafVal::U8(_)) => true,
        (LeafVal::U16(_), LeafVal::U16(_)) => true,
        (LeafVal::U32(_), LeafVal::U32(_)) => true,
        (LeafVal::U64(_), LeafVal::U64(_)) => true,
        (LeafVal::USize(_), LeafVal::USize(_)) => true,
        (LeafVal::Str(_), LeafVal::Str(_)) => true,
        (LeafVal::F32Bits(_), LeafVal::F32Bits(_)) => true,
        (LeafVal::F64Bits(_), LeafVal::F64Bits(_)) => true,
        (LeafVal::Opaque(n1), LeafVal::Opaque(n2)) => n1 == n2,
        _ => false,
    }
}

/// Whether two variant data carry the same variant kind.
pub open spec fn same_variant_kind(a: VariantVal, b: VariantVal) -> bool {
    match (a, b) {
        (VariantVal::Unit, VariantVal::Unit) => true,
        (VariantVal::Tuple(_), VariantVal::Tuple(_)) => true,
        (VariantVal::Struct(_), VariantVal::Struct(_)) => true,
        _ => false,
    }
}

/// Whether every diff of a sequence reports no change.
pub open spec fn all_nc(ds: Seq<DiffM>) -> bool {
    forall|i: int| 0 <= i < ds.len() ==> (#[trigger] ds[i]) is NoChange
}

/// Whether every named diff of a sequence reports no change.
pub open spec fn all_nc_named(ds: Seq<(Seq<char>, DiffM)>) -> bool {
    forall|i: int| 0 <= i < ds.len() ==> (#[trigger] ds[i]).1 is NoChange
}

/// The length of the longest common subsequence of `a` and `b`, where two
/// elements count as common exactly when their diff reports no change.
pub open spec fn lcs_len(a: Seq<Val>, b: Seq<Val>) -> nat
    decreases a.len() + b.len(),
{
    if a.len() == 0 || b.len() == 0 {
        0
    } else if nochange(a[0], b[0]) {
        1 + lcs_len(a.drop_first(), b.drop_first())
    } else {
        let d = lcs_len(a.drop_first(), b);
        let i = lcs_len(a, b.drop_first());
        if d >= i {
            d
        } else {
            i
        }
    }
}

/// The minimal edit script transforming `a` into `b`, with indices offset
/// by `oi`.  When both a deletion and an insertion lie on a minimal path,
/// the deletion is emitted first; insertions sharing an anchor keep the
/// order of the new sequence.
pub open spec fn script(a: Seq<Val>, b: Seq<Val>, oi: int) -> Seq<EditM>
    decreases a.len() + b.len(),
{
    if a.len() == 0 && b.len() == 0 {
        Seq::empty()
    } else if a.len() == 0 {
        seq![EditM::Inserted(oi, b[0])] + script(a, b.drop_first(), oi)
    } else if b.len() == 0 {
        seq![EditM::Deleted(oi)] + script(a.drop_first(), b, oi + 1)
    } else if nochange(a[0], b[0]) {
        script(a.drop_first(), b.drop_first(), oi + 1)
    } else if lcs_len(a.drop_first(), b) == lcs_len(a, b) {
        seq![EditM::Deleted(oi)] + script(a.drop_first(), b, oi + 1)
    } else {
        seq![EditM::Inserted(oi, b[0])] + script(a, b.drop_first(), oi)
    }
}

/// The deletion and modification edits of a map diff: one pass over the old
/// entries in order.
pub open spec fn map_mods(a: Seq<(Val, Val)>, b: Seq<(Val, Val)>) -> Seq<MapEditM>
    decreases a,
{
    if a.len() == 0 {
        Seq::empty()
    } else {
        let rest = map_mods(a.drop_first(), b);
        match lookup_entry(b, a[0].0) {
            Option::None => seq![MapEditM::Deleted(a[0].0)] + rest,
            Option::Some(v2) => {
                let d = sdiff(a[0].1, v2);
                if d is NoChange {
                    rest
                } else {
                    seq![MapEditM::Modified(a[0].0, d)] + rest
                }
            },
        }
    }
}

/// The insertion edits of a map diff: one pass over the new entries in
/// order, keeping those whose key does not occur among the old entries.
pub open spec fn map_ins(b: Seq<(Val, Val)>, a: Seq<(Val, Val)>) -> Seq<MapEditM>
    decreases b,
{
    if b.len() == 0 {
        Seq::empty()
    } else {
        let rest = map_ins(b.drop_first(), a);
        if lookup_entry(a, b[0].0) is Some {
            rest
        } else {
            seq![MapEditM::Inserted(b[0].0, b[0].1)] + rest
        }
    }
}

/// The positional sub-diffs of two field sequences.
pub open spec fn sdiff_seq(a: Seq<Val>, b: Seq<Val>) -> Seq<DiffM>
    decreases a,
{
    if a.len() == 0 || b.len() == 0 {
        Seq::empty()
    } else {
        seq![sdiff(a[0], b[0])] + sdiff_seq(a.drop_first(), b.drop_first())
    }
}

/// The named sub-diffs of two named-field sequences: one per field of `a`,
/// in order, against the same-named field of `b`.
pub open spec fn sdiff_named(
    a: Seq<(Seq<char>, Val)>,
    b: Seq<(Seq<char>, Val)>,
) -> Seq<(Seq<char>, DiffM)>
    decreases a,
{
    if a.len() == 0 {
        Seq::empty()
    } else {
        let d = match lookup_field(b, a[0].0) {
            Option::Some(v2) => sdiff(a[0].1, v2),
            Option::None => DiffM::NoChange,
        };
        seq![(a[0].0, d)] + sdiff_named(a.drop_first(), b)
    }
}

/// Whether every field of `a` has a same-named field in `b`.
pub open spec fn all_fields_present(a: Seq<(Seq<char>, Val)>, b: Seq<(Seq<char>, Val)>) -> bool {
    forall|i: int| 0 <= i < a.len() ==> lookup_field(b, (#[trigger] a[i]).0) is Some
}

/// The functional specification of the diff engine: the diff of `a`
/// against `b`.  On inputs on which the executable engine reports an error
/// the result is immaterial and defaults to `NoChange`.
pub open spec fn sdiff(a: Val, b: Val) -> DiffM
    decreases a,
{
    match a {
        Val::Leaf(x) => match b {
            Val::Leaf(y) => if !leaf_same_type(x, y) {
                DiffM::Replaced(b)
            } else if leaf_veq(x, y) {
                DiffM::NoChange
            } else if x is Opaque {
                DiffM::NoChange
            } else {
                DiffM::Modified(DeltaM::Value(b))
            },
            _ => DiffM::Replaced(b),
        },
        Val::Tuple { name: n1, fields: f1 } => match b {
            Val::Tuple { name: n2, fields: f2 } => if n1 != n2 || f1.len() != f2.len() {
                DiffM::Replaced(b)
            } else {
                let ds = sdiff_seq(f1, f2);
                if all_nc(ds) {
                    DiffM::NoChange
                } else {
                    DiffM::Modified(DeltaM::Tuple { name: n2, fields: ds })
                }
            },
            _ => DiffM::NoChange,
        },
        Val::Array { name: n1, elems: e1 } => match b {
            Val::Array { name: n2, elems: e2 } => if n1 != n2 || e1.len() != e2.len() {
                DiffM::Replaced(b)
            } else {
                let ds = sdiff_seq(e1, e2);
                if all_nc(ds) {
                    DiffM::NoChange
                } else {
                    DiffM::Modified(DeltaM::Array { name: n2, elems: ds })
                }
            },
            _ => DiffM::NoChange,
        },
        Val::List { name: n1, elems: e1 } => match b {
            Val::List { name: n2, elems: e2 } => if n1 != n2 {
                DiffM::Replaced(b)
            } else {
                let sc = script(e1, e2, 0);
                if sc.len() == 0 {
                    DiffM::NoChange
                } else {
                    DiffM::Modified(DeltaM::List { name: n2, edits: sc })
                }
            },
            _ => DiffM::NoChange,
        },
        Val::Mapping { name: n1, entries: e1 } => match b {
            Val::Mapping { name: n2, entries: e2 } => if n1 != n2 {
                DiffM::Replaced(b)
            } else {
                let edits = map_mods(e1, e2) + map_ins(e2, e1);
                if edits.len() == 0 {
                    DiffM::NoChange
                } else {
                    DiffM::Modified(DeltaM::Mapping { name: n2, edits })
                }
            },
            _ => DiffM::NoChange,
        },
        Val::TupleStruct { name: n1, fields: f1 } => match b {
            Val::TupleStruct { name: n2, fields: f2 } => if n1 != n2 || f1.len() != f2.len() {
                DiffM::Replaced(b)
            } else {
                let ds = sdiff_seq(f1, f2);
                if all_nc(ds) {
                    DiffM::NoChange
                } else {
                    DiffM::Modified(DeltaM::TupleStruct { name: n2, fields: ds })
                }
            },
            _ => DiffM::NoChange,
        },
        Val::Struct { name: n1, fields: f1 } => match b {
            Val::Struct { name: n2, fields: f2 } => if n1 != n2 {
                DiffM::Replaced(b)
            } else if !all_fields_present(f1, f2) {
                DiffM::NoChange
            } else {
                let ds = sdiff_named(f1, f2);
                if all_nc_named(ds) {
                    DiffM::NoChange
                } else {
                    DiffM::Modified(DeltaM::Struct { name: n2, fields: ds })
                }
            },
            _ => DiffM::NoChange,
        },
        Val::Enum { name: n1, variant: v1, data: d1 } => match b {
            Val::Enum { name: n2, variant: v2, data: d2 } => if n1 != n2 {
                DiffM::Replaced(b)
            } else if v1 != v2 || !same_variant_kind(d1, d2) {
                DiffM::Modified(DeltaM::Enum(EnumDiffM::Swapped(b)))
            } else {
                match (d1, d2) {
                    (VariantVal::Unit, VariantVal::Unit) => DiffM::NoChange,
                    (VariantVal::Tuple(f1), VariantVal::Tuple(f2)) => if f1.len() != f2.len() {
                        DiffM::NoChange
                    } else {
                        let ds = sdiff_seq(f1, f2);
                        if all_nc(ds) {
                            DiffM::NoChange
                        } else {
                            DiffM::Modified(
                                DeltaM::Enum(EnumDiffM::Tuple { name: n2, fields: ds }),
                            )
                        }
                    },
                    (VariantVal::Struct(f1), VariantVal::Struct(f2)) => if !all_fields_present(
                        f1,
                        f2,
                    ) {
                        DiffM::NoChange
                    } else {
                        let ds = sdiff_named(f1, f2);
                        if all_nc_named(ds) {
                            DiffM::NoChange
                        } else {
                            DiffM::Modified(
                                DeltaM::Enum(EnumDiffM::Struct { name: n2, fields: ds }),
                            )
                        }
                    },
                    _ => DiffM::NoChange,
                }
            },
            _ => DiffM::NoChange,
        },
    }
}

/// The anchor index of an edit.
pub open spec fn edit_index(e: EditM) -> int {
    match e {
        EditM::Deleted(i) => i,
        EditM::Inserted(i, _) => i,
    }
}

/// The replay of a list edit script over the elements of a base list,
/// walking the base from `idx` on.  At each base element the edits anchored
/// there are taken one at a time: a deletion skips the element and moves
/// on, an insertion splices in its value; past the end, a leading run of
/// insertions is appended.
pub open spec fn replay(elems: Seq<Val>, edits: Seq<EditM>, idx: int) -> Seq<Val>
    decreases elems.len() + edits.len(),
{
    if elems.len() == 0 {
        if edits.len() == 0 {
            Seq::empty()
        } else {
            match edits[0] {
                EditM::Inserted(_, v) => seq![v] + replay(elems, edits.drop_first(), idx),
                EditM::Deleted(_) => Seq::empty(),
            }
        }
    } else if edits.len() > 0 && edit_index(edits[0]) == idx {
        match edits[0] {
            EditM::Deleted(_) => replay(elems.drop_first(), edits.drop_first(), idx + 1),
            EditM::Inserted(_, v) => seq![v] + replay(elems, edits.drop_first(), idx),
        }
    } else {
        seq![elems[0]] + replay(elems.drop_first(), edits, idx + 1)
    }
}

/// The entries of `s` with the first entry whose key equals `k` removed.
pub open spec fn remove_entry(s: Seq<(Val, Val)>, k: Val) -> Seq<(Val, Val)>
    decreases s,
{
    if s.len() == 0 {
        Seq::empty()
    } else if veq(s[0].0, k) {
        s.drop_first()
    } else {
        seq![s[0]] + remove_entry(s.drop_first(), k)
    }
}

/// The entries of `s` with `v` stored under `k`: the first entry whose key
/// equals `k` is overwritten, else the new entry is appended.
pub open spec fn insert_entry(s: Seq<(Val, Val)>, k: Val, v: Val) -> Seq<(Val, Val)>
    decreases s,
{
    if s.len() == 0 {
        seq![(k, v)]
    } else if veq(s[0].0, k) {
        seq![(s[0].0, v)] + s.drop_first()
    } else {
        seq![s[0]] + insert_entry(s.drop_first(), k, v)
    }
}

/// The entries of `s` with the value under the first key equal to `k`
/// replaced by `v`; unchanged when no key matches.
pub open spec fn update_entry(s: Seq<(Val, Val)>, k: Val, v: Val) -> Seq<(Val, Val)>
    decreases s,
{
    if s.len() == 0 {
        Seq::empty()
    } else if veq(s[0].0, k) {
        seq![(s[0].0, v)] + s.drop_first()
    } else {
        seq![s[0]] + update_entry(s.drop_first(), k, v)
    }
}

/// The fields of `s` with the value of the first field named `n` replaced
/// by `v`; unchanged when no name matches.
pub open spec fn update_field(
    s: Seq<(Seq<char>, Val)>,
    n: Seq<char>,
    v: Val,
) -> Seq<(Seq<char>, Val)>
    decreases s,
{
    if s.len() == 0 {
        Seq::empty()
    } else if s[0].0 == n {
        seq![(s[0].0, v)] + s.drop_first()
    } else {
        seq![s[0]] + update_field(s.drop_first(), n, v)
    }
}

/// The positional application of sub-diffs to base fields; the first
/// failing position decides the error.
pub open spec fn sapply_seq(ds: Seq<DiffM>, base: Seq<Val>) -> Result<Seq<Val>, ApplyErr>
    decreases ds,
{
    if ds.len() == 0 {
        Result::Ok(Seq::empty())
    } else {
        match sapply(ds[0], base[0]) {
            Result::Err(e) => Result::Err(e),
            Result::Ok(v) => match sapply_seq(ds.drop_first(), base.drop_first()) {
                Result::Err(e) => Result::Err(e),
                Result::Ok(rest) => Result::Ok(seq![v] + rest),
            },
        }
    }
}

/// The by-name application of named sub-diffs to base fields, in order.
pub open spec fn sapply_named(
    ds: Seq<(Seq<char>, DiffM)>,
    base: Seq<(Seq<char>, Val)>,
) -> Result<Seq<(Seq<char>, Val)>, ApplyErr>
    decreases ds,
{
    if ds.len() == 0 {
        Result::Ok(base)
    } else {
        match lookup_field(base, ds[0].0) {
            Option::None => Result::Err(ApplyErr::MissingField),
            Option::Some(old_v) => match sapply(ds[0].1, old_v) {
                Result::Err(e) => Result::Err(e),
                Result::Ok(new_v) => sapply_named(
                    ds.drop_first(),
                    update_field(base, ds[0].0, new_v),
                ),
            },
        }
    }
}

/// The application of map edits to base entries, in order.
pub open spec fn sapply_map(
    edits: Seq<MapEditM>,
    base: Seq<(Val, Val)>,
) -> Result<Seq<(Val, Val)>, ApplyErr>
    decreases edits,
{
    if edits.len() == 0 {
        Result::Ok(base)
    } else {
        match edits[0] {
            MapEditM::Deleted(k) => sapply_map(edits.drop_first(), remove_entry(base, k)),
            MapEditM::Inserted(k, v) => sapply_map(edits.drop_first(), insert_entry(base, k, v)),
            MapEditM::Modified(k, dm) => match lookup_entry(base, k) {
                Option::None => Result::Err(ApplyErr::MissingField),
                Option::Some(old_v) => match sapply(dm, old_v) {
                    Result::Err(e) => Result::Err(e),
                    Result::Ok(new_v) => sapply_map(
                        edits.drop_first(),
                        update_entry(base, k, new_v),
                    ),
                },
            },
        }
    }
}

/// The functional specification of the apply engine: the application of a
/// diff to a base value.
pub open spec fn sapply(d: DiffM, base: Val) -> Result<Val, ApplyErr>
    decreases d,
{
    match d {
        DiffM::NoChange => Result::Ok(base),
        DiffM::Replaced(v) => Result::Ok(v),
        DiffM::Modified(delta) => match delta {
            DeltaM::Value(v) => match base {
                Val::Leaf(_) => Result::Ok(v),
                _ => Result::Err(ApplyErr::ExpectedValue),
            },
            DeltaM::Tuple { fields: ds, .. } => match base {
                Val::Tuple { name: bn, fields: bf } => if ds.len() != bf.len() {
                    Result::Err(ApplyErr::MissingField)
                } else {
                    match sapply_seq(ds, bf) {
                        Result::Err(e) => Result::Err(e),
                        Result::Ok(rs) => Result::Ok(Val::Tuple { name: bn, fields: rs }),
                    }
                },
                _ => Result::Err(ApplyErr::ExpectedTuple),
            },
            DeltaM::Array { elems: ds, .. } => match base {
                Val::Array { name: bn, elems: bf } => if ds.len() != bf.len() {
                    Result::Err(ApplyErr::MissingField)
                } else {
                    match sapply_seq(ds, bf) {
                        Result::Err(e) => Result::Err(e),
                        Result::Ok(rs) => Result::Ok(Val::Array { name: bn, elems: rs }),
                    }
                },
                _ => Result::Err(ApplyErr::ExpectedArray),
            },
            DeltaM::List { name: dn, edits } => match base {
                Val::List { name: bn, elems } => if dn != bn {
                    Result::Err(ApplyErr::TypeMismatch)
                } else {
                    Result::Ok(Val::List { name: bn, elems: replay(elems, edits, 0) })
                },
                _ => Result::Err(ApplyErr::ExpectedList),
            },
            DeltaM::Mapping { edits, .. } => match base {
                Val::Mapping { name: bn, entries } => match sapply_map(edits, entries) {
                    Result::Err(e) => Result::Err(e),
                    Result::Ok(rs) => Result::Ok(Val::Mapping { name: bn, entries: rs }),
                },
                _ => Result::Err(ApplyErr::ExpectedMap),
            },
            DeltaM::TupleStruct { fields: ds, .. } => match base {
                Val::TupleStruct { name: bn, fields: bf } => if ds.len() != bf.len() {
                    Result::Err(ApplyErr::MissingField)
                } else {
                    match sapply_seq(ds, bf) {
                        Result::Err(e) => Result::Err(e),
                        Result::Ok(rs) => Result::Ok(Val::TupleStruct { name: bn, fields: rs }),
                    }
                },
                _ => Result::Err(ApplyErr::ExpectedTupleStruct),
            },
            DeltaM::Struct { fields: ds, .. } => match base {
                Val::Struct { name: bn, fields: bf } => match sapply_named(ds, bf) {
                    Result::Err(e) => Result::Err(e),
                    Result::Ok(rs) => Result::Ok(Val::Struct { name: bn, fields: rs }),
                },
                _ => Result::Err(ApplyErr::ExpectedStruct),
            },
            DeltaM::Enum(ed) => match ed {
                EnumDiffM::Swapped(v) => match base {
                    Val::Enum { .. } => Result::Ok(v),
                    _ => Result::Err(ApplyErr::ExpectedEnum),
                },
                EnumDiffM::Tuple { fields: ds, .. } => match base {
                    Val::Enum { name: bn, variant: bv, data: VariantVal::Tuple(bf) } => if ds.len()
                        != bf.len() {
                        Result::Err(ApplyErr::MissingField)
                    } else {
                        match sapply_seq(ds, bf) {
                            Result::Err(e) => Result::Err(e),
                            Result::Ok(rs) => Result::Ok(
                                Val::Enum { name: bn, variant: bv, data: VariantVal::Tuple(rs) },
                            ),
                        }
                    },
                    Val::Enum { .. } => Result::Err(ApplyErr::ExpectedTupleVariant),
                    _ => Result::Err(ApplyErr::ExpectedEnum),
                },
                EnumDiffM::Struct { fields: ds, .. } => match base {
                    Val::Enum { name: bn, variant: bv, data: VariantVal::Struct(bf) } => match
                        sapply_named(ds, bf) {
                        Result::Err(e) => Result::Err(e),
                        Result::Ok(rs) => Result::Ok(
                            Val::Enum { name: bn, variant: bv, data: VariantVal::Struct(rs) },
                        ),
                    },
                    Val::Enum { .. } => Result::Err(ApplyErr::ExpectedStructVariant),
                    _ => Result::Err(ApplyErr::ExpectedEnum),
                },
            },
        },
    }
}

} // verus!
