//! The mathematical model of reflected values.
//!
//! Every executable value of the data model has a ghost counterpart built
//! from `Seq` and primitive values; the contracts of the library speak of
//! these models.  This module also defines the relations the contracts use:
//! observational equality [`veq`], the comparability and well-formedness
//! predicates, and the no-change relation [`nochange`] that characterizes
//! when a structural diff reports no difference.

use vstd::prelude::*;

verus! {

/// Model of an opaque leaf value.
#[verifier::ext_equal]
pub ghost enum LeafVal {
    Bool(bool),
    I8(i8),
    I16(i16),
    I32(i32),
    I64(i64),
    ISize(isize),
    U8(u8),
    U16(u16),
    U32(u32),
    U64(u64),
    USize(usize),
    Str(Seq<char>),
    F32Bits(u32),
    F64Bits(u64),
    Opaque(Seq<char>),
}

/// Model of the data carried by the active variant of an enum value.
#[verifier::ext_equal]
pub ghost enum VariantVal {
    Unit,
    Tuple(Seq<Val>),
    Struct(Seq<(Seq<char>, Val)>),
}

/// Model of a reflected value.
#[allow(inconsistent_fields)]
#[verifier::ext_equal]
pub ghost enum Val {
    Leaf(LeafVal),
    Tuple { name: Seq<char>, fields: Seq<Val> },
    Array { name: Seq<char>, elems: Seq<Val> },
    List { name: Seq<char>, elems: Seq<Val> },
    Mapping { name: Seq<char>, entries: Seq<(Val, Val)> },
    TupleStruct { name: Seq<char>, fields: Seq<Val> },
    Struct { name: Seq<char>, fields: Seq<(Seq<char>, Val)> },
    Enum { name: Seq<char>, variant: Seq<char>, data: VariantVal },
}

/// Equality of two leaves.  An `Opaque` leaf supports no equality probe and
/// is never observationally equal to anything, itself included.
pub open spec fn leaf_veq(a: LeafVal, b: LeafVal) -> bool {
    !(a is Opaque) && a == b
}

/// Observational equality of two values: the relation established by the
/// equality capability of the data model.  Leaves compare by kind and
/// payload; positional containers compare elementwise; structs and struct
/// variants compare by field name in both directions; maps compare as entry
/// sets in both directions.  Container type names do not take part.
pub open spec fn veq(a: Val, b: Val) -> bool
    decreases a, 0int,
{
    match (a, b) {
        (Val::Leaf(x), Val::Leaf(y)) => leaf_veq(x, y),
        (Val::Tuple { fields: f1, .. }, Val::Tuple { fields: f2, .. }) => seq_veq(f1, f2),
        (Val::Array { elems: e1, .. }, Val::Array { elems: e2, .. }) => seq_veq(e1, e2),
        (Val::List { elems: e1, .. }, Val::List { elems: e2, .. }) => seq_veq(e1, e2),
        (Val::Mapping { entries: e1, .. }, Val::Mapping { entries: e2, .. }) => entries_veq(
            e1,
            e2,
        ),
        (Val::TupleStruct { fields: f1, .. }, Val::TupleStruct { fields: f2, .. }) => seq_veq(
            f1,
            f2,
        ),
        (Val::Struct { fields: f1, .. }, Val::Struct { fields: f2, .. }) => named_veq(f1, f2),
        (
            Val::Enum { variant: v1, data: d1, .. },
            Val::Enum { variant: v2, data: d2, .. },
        ) => v1 == v2 && variant_veq(d1, d2),
        _ => false,
    }
}

/// Positional equality of two sequences of values.
pub open spec fn seq_veq(a: Seq<Val>, b: Seq<Val>) -> bool
    decreases a, 0int,
{
    a.len() == b.len() && forall|i: int|
        0 <= i < a.len() ==> veq(#[trigger] a[i], b[i])
}

/// Whether some field of `b` carries the name of `p` with a value equal
/// to `p`'s, comparing with `p`'s side on the left.
pub open spec fn named_match_in(b: Seq<(Seq<char>, Val)>, p: (Seq<char>, Val)) -> bool
    decreases p, 0int,
{
    exists|j: int|
        0 <= j < b.len() && p.0 == (#[trigger] b[j]).0 && veq(p.1, b[j].1)
}

/// Whether some field of `a` carries the name of `q` with a value equal
/// to `q`'s, comparing with `a`'s side on the left.
pub open spec fn named_match_rev(a: Seq<(Seq<char>, Val)>, q: (Seq<char>, Val)) -> bool
    decreases a, 0int,
{
    exists|i: int|
        0 <= i < a.len() && (#[trigger] a[i]).0 == q.0 && veq(a[i].1, q.1)
}

/// Direction one of by-name equality: every field of `a` is matched by
/// name in `b`, comparing values with the `a` side on the left.
pub open spec fn named_sub_rel(a: Seq<(Seq<char>, Val)>, b: Seq<(Seq<char>, Val)>) -> bool
    decreases a, 1int,
{
    forall|i: int| 0 <= i < a.len() ==> named_match_in(b, #[trigger] a[i])
}

/// Direction two of by-name equality: every field of `b` is matched by
/// name in `a`, comparing values with the `a` side on the left.
pub open spec fn named_sup_rel(a: Seq<(Seq<char>, Val)>, b: Seq<(Seq<char>, Val)>) -> bool
    decreases a, 1int,
{
    forall|j: int| 0 <= j < b.len() ==> named_match_rev(a, #[trigger] b[j])
}

/// By-name equality of two sequences of named fields, in both directions.
pub open spec fn named_veq(a: Seq<(Seq<char>, Val)>, b: Seq<(Seq<char>, Val)>) -> bool
    decreases a, 2int,
{
    named_sub_rel(a, b) && named_sup_rel(a, b)
}

/// Whether some entry of `b` has the key and value of `p`, comparing with
/// `p`'s side on the left.
pub open spec fn entry_match_in(b: Seq<(Val, Val)>, p: (Val, Val)) -> bool
    decreases p, 0int,
{
    exists|j: int|
        0 <= j < b.len() && veq(p.0, (#[trigger] b[j]).0) && veq(p.1, b[j].1)
}

/// Whether some entry of `a` has the key and value of `q`, comparing with
/// `a`'s side on the left.
pub open spec fn entry_match_rev(a: Seq<(Val, Val)>, q: (Val, Val)) -> bool
    decreases a, 0int,
{
    exists|i: int|
        0 <= i < a.len() && veq((#[trigger] a[i]).0, q.0) && veq(a[i].1, q.1)
}

/// Direction one of entry-set equality: every entry of `a` has a matching
/// entry in `b`, comparing with the `a` side on the left.
pub open spec fn entries_sub_rel(a: Seq<(Val, Val)>, b: Seq<(Val, Val)>) -> bool
    decreases a, 1int,
{
    forall|i: int| 0 <= i < a.len() ==> entry_match_in(b, #[trigger] a[i])
}

/// Direction two of entry-set equality: every entry of `b` has a matching
/// entry in `a`, comparing with the `a` side on the left.
pub open spec fn entries_sup_rel(a: Seq<(Val, Val)>, b: Seq<(Val, Val)>) -> bool
    decreases a, 1int,
{
    forall|j: int| 0 <= j < b.len() ==> entry_match_rev(a, #[trigger] b[j])
}

/// Entry-set equality of two sequences of map entries, in both directions.
pub open spec fn entries_veq(a: Seq<(Val, Val)>, b: Seq<(Val, Val)>) -> bool
    decreases a, 2int,
{
    entries_sub_rel(a, b) && entries_sup_rel(a, b)
}

/// Equality of the data of two enum variants of the same name.
pub open spec fn variant_veq(a: VariantVal, b: VariantVal) -> bool
    decreases a, 0int,
{
    match (a, b) {
        (VariantVal::Unit, VariantVal::Unit) => true,
        (VariantVal::Tuple(f1), VariantVal::Tuple(f2)) => seq_veq(f1, f2),
        (VariantVal::Struct(f1), VariantVal::Struct(f2)) => named_veq(f1, f2),
        _ => false,
    }
}

/// Whether a value fully supports the equality probe: no `Opaque` leaf
/// occurs anywhere inside it.
pub open spec fn comparable(v: Val) -> bool
    decreases v,
{
    match v {
        Val::Leaf(l) => !(l is Opaque),
        Val::Tuple { fields, .. } => seq_comparable(fields),
        Val::Array { elems, .. } => seq_comparable(elems),
        Val::List { elems, .. } => seq_comparable(elems),
        Val::Mapping { entries, .. } => entries_comparable(entries),
        Val::TupleStruct { fields, .. } => seq_comparable(fields),
        Val::Struct { fields, .. } => named_comparable(fields),
        Val::Enum { data, .. } => match data {
            VariantVal::Unit => true,
            VariantVal::Tuple(fields) => seq_comparable(fields),
            VariantVal::Struct(fields) => named_comparable(fields),
        },
    }
}

/// Comparability of every element of a sequence.
pub open spec fn seq_comparable(s: Seq<Val>) -> bool
    decreases s,
{
    forall|i: int| 0 <= i < s.len() ==> comparable(#[trigger] s[i])
}

/// Comparability of every field value of a named-field sequence.
pub open spec fn named_comparable(s: Seq<(Seq<char>, Val)>) -> bool
    decreases s,
{
    forall|i: int| 0 <= i < s.len() ==> comparable((#[trigger] s[i]).1)
}

/// Comparability of every key and value of a map-entry sequence.
pub open spec fn entries_comparable(s: Seq<(Val, Val)>) -> bool
    decreases s,
{
    forall|i: int|
        0 <= i < s.len() ==> comparable((#[trigger] s[i]).0) && comparable(s[i].1)
}

/// Uniqueness of the names of a named-field sequence.
pub open spec fn unique_names(s: Seq<(Seq<char>, Val)>) -> bool {
    forall|i: int, j: int|
        0 <= i < s.len() && 0 <= j < s.len() && i != j ==> (#[trigger] s[i]).0 != (
        #[trigger] s[j]).0
}

/// Uniqueness of the keys of a map-entry sequence, under observational
/// equality.
pub open spec fn unique_keys(s: Seq<(Val, Val)>) -> bool {
    forall|i: int, j: int|
        0 <= i < s.len() && 0 <= j < s.len() && i != j ==> !veq(
            (#[trigger] s[i]).0,
            (#[trigger] s[j]).0,
        )
}

/// Well-formedness of a value: struct-shaped field names are unique, map
/// keys are comparable and pairwise distinct, recursively.
pub open spec fn wf(v: Val) -> bool
    decreases v,
{
    match v {
        Val::Leaf(_) => true,
        Val::Tuple { fields, .. } => seq_wf(fields),
        Val::Array { elems, .. } => seq_wf(elems),
        Val::List { elems, .. } => seq_wf(elems),
        Val::Mapping { entries, .. } => {
            &&& unique_keys(entries)
            &&& forall|i: int|
                0 <= i < entries.len() ==> comparable((#[trigger] entries[i]).0)
            &&& entries_wf(entries)
        },
        Val::TupleStruct { fields, .. } => seq_wf(fields),
        Val::Struct { fields, .. } => unique_names(fields) && named_wf(fields),
        Val::Enum { data, .. } => match data {
            VariantVal::Unit => true,
            VariantVal::Tuple(fields) => seq_wf(fields),
            VariantVal::Struct(fields) => unique_names(fields) && named_wf(fields),
        },
    }
}

/// Well-formedness of every element of a sequence.
pub open spec fn seq_wf(s: Seq<Val>) -> bool
    decreases s,
{
    forall|i: int| 0 <= i < s.len() ==> wf(#[trigger] s[i])
}

/// Well-formedness of every field value of a named-field sequence.
pub open spec fn named_wf(s: Seq<(Seq<char>, Val)>) -> bool
    decreases s,
{
    forall|i: int| 0 <= i < s.len() ==> wf((#[trigger] s[i]).1)
}

/// Well-formedness of every key and value of a map-entry sequence.
pub open spec fn entries_wf(s: Seq<(Val, Val)>) -> bool
    decreases s,
{
    forall|i: int| 0 <= i < s.len() ==> wf((#[trigger] s[i]).0) && wf(s[i].1)
}

/// The first field of `s` named `n`, if any: the lookup the struct
/// algorithms perform.
pub open spec fn lookup_field(s: Seq<(Seq<char>, Val)>, n: Seq<char>) -> Option<Val>
    decreases s,
{
    if s.len() == 0 {
        Option::None
    } else if s[0].0 == n {
        Option::Some(s[0].1)
    } else {
        lookup_field(s.drop_first(), n)
    }
}

/// The value of the first entry of `s` whose key is observationally equal
/// to `k`, if any: the lookup the map algorithms perform.
pub open spec fn lookup_entry(s: Seq<(Val, Val)>, k: Val) -> Option<Val>
    decreases s,
{
    if s.len() == 0 {
        Option::None
    } else if veq(s[0].0, k) {
        Option::Some(s[0].1)
    } else {
        lookup_entry(s.drop_first(), k)
    }
}

/// Whether the diff of `a` against `b` reports no change.  This is stricter
/// than [`veq`]: type identity — container type names, and the length of
/// fixed-size shapes — must match as well.
pub open spec fn nochange(a: Val, b: Val) -> bool
    decreases a,
{
    match (a, b) {
        (Val::Leaf(x), Val::Leaf(y)) => leaf_veq(x, y),
        (Val::Tuple { name: n1, fields: f1 }, Val::Tuple { name: n2, fields: f2 }) => n1 == n2
            && seq_nochange(f1, f2),
        (Val::Array { name: n1, elems: e1 }, Val::Array { name: n2, elems: e2 }) => n1 == n2
            && seq_nochange(e1, e2),
        (Val::List { name: n1, elems: e1 }, Val::List { name: n2, elems: e2 }) => n1 == n2
            && seq_nochange(e1, e2),
        (
            Val::Mapping { name: n1, entries: e1 },
            Val::Mapping { name: n2, entries: e2 },
        ) => n1 == n2 && entries_nochange(e1, e2),
        (
            Val::TupleStruct { name: n1, fields: f1 },
            Val::TupleStruct { name: n2, fields: f2 },
        ) => n1 == n2 && seq_nochange(f1, f2),
        (Val::Struct { name: n1, fields: f1 }, Val::Struct { name: n2, fields: f2 }) => n1 == n2
            && named_nochange(f1, f2),
        (
            Val::Enum { name: n1, variant: v1, data: d1 },
            Val::Enum { name: n2, variant: v2, data: d2 },
        ) => n1 == n2 && v1 == v2 && variant_nochange(d1, d2),
        _ => false,
    }
}

/// Positional no-change of two sequences of values.
pub open spec fn seq_nochange(a: Seq<Val>, b: Seq<Val>) -> bool
    decreases a,
{
    a.len() == b.len() && forall|i: int|
        0 <= i < a.len() ==> nochange(#[trigger] a[i], b[i])
}

/// Whether some field of `s` carries the name `n`.
pub open spec fn name_present(s: Seq<(Seq<char>, Val)>, n: Seq<char>) -> bool {
    exists|i: int| 0 <= i < s.len() && (#[trigger] s[i]).0 == n
}

/// Whether some entry of `s` has a key equal to `k`, comparing with the
/// `s` side on the left.
pub open spec fn key_present(s: Seq<(Val, Val)>, k: Val) -> bool {
    exists|i: int| 0 <= i < s.len() && veq((#[trigger] s[i]).0, k)
}

/// No-change of two named-field sequences: every field of `a` is found by
/// name in `b` with an unchanged value, and no field of `b` is new.
pub open spec fn named_nochange(a: Seq<(Seq<char>, Val)>, b: Seq<(Seq<char>, Val)>) -> bool
    decreases a,
{
    &&& forall|i: int|
        0 <= i < a.len() ==> lookup_field(b, (#[trigger] a[i]).0) is Some && nochange(
            a[i].1,
            lookup_field(b, a[i].0)->0,
        )
    &&& forall|j: int| 0 <= j < b.len() ==> name_present(a, (#[trigger] b[j]).0)
}

/// No-change of two map-entry sequences: every key of `a` is found in `b`
/// with an unchanged value, and every key of `b` occurs in `a`.
pub open spec fn entries_nochange(a: Seq<(Val, Val)>, b: Seq<(Val, Val)>) -> bool
    decreases a,
{
    &&& forall|i: int|
        0 <= i < a.len() ==> lookup_entry(b, (#[trigger] a[i]).0) is Some && nochange(
            a[i].1,
            lookup_entry(b, a[i].0)->0,
        )
    &&& forall|j: int| 0 <= j < b.len() ==> key_present(a, (#[trigger] b[j]).0)
}

/// No-change of the data of two enum variants of the same name.
pub open spec fn variant_nochange(a: VariantVal, b: VariantVal) -> bool
    decreases a,
{
    match (a, b) {
        (VariantVal::Unit, VariantVal::Unit) => true,
        (VariantVal::Tuple(f1), VariantVal::Tuple(f2)) => seq_nochange(f1, f2),
        (VariantVal::Struct(f1), VariantVal::Struct(f2)) => named_nochange(f1, f2),
        _ => false,
    }
}

/// Whether two values respect the type-identity contract pairwise: whenever
/// their identities claim equality, their layouts match, so that diffing
/// them can neither fail nor pair mismatched children.  A leaf old value is
/// always fine (its diff replaces on any identity mismatch); a container old
/// value requires the new value to have the same shape.
pub open spec fn aligned(a: Val, b: Val) -> bool
    decreases a,
{
    match (a, b) {
        (Val::Leaf(_), _) => true,
        (Val::Tuple { name: n1, fields: f1 }, Val::Tuple { name: n2, fields: f2 }) => (n1 == n2
            && f1.len() == f2.len()) ==> seq_aligned(f1, f2),
        (Val::Array { name: n1, elems: e1 }, Val::Array { name: n2, elems: e2 }) => (n1 == n2
            && e1.len() == e2.len()) ==> seq_aligned(e1, e2),
        (Val::List { name: n1, elems: e1 }, Val::List { name: n2, elems: e2 }) => true,
        (
            Val::Mapping { name: n1, entries: e1 },
            Val::Mapping { name: n2, entries: e2 },
        ) => n1 == n2 ==> forall|i: int, j: int|
            0 <= i < e1.len() && 0 <= j < e2.len() && veq(
                (#[trigger] e2[j]).0,
                (#[trigger] e1[i]).0,
            ) ==> aligned(e1[i].1, e2[j].1),
        (
            Val::TupleStruct { name: n1, fields: f1 },
            Val::TupleStruct { name: n2, fields: f2 },
        ) => (n1 == n2 && f1.len() == f2.len()) ==> seq_aligned(f1, f2),
        (Val::Struct { name: n1, fields: f1 }, Val::Struct { name: n2, fields: f2 }) => n1 == n2
            ==> named_aligned(f1, f2),
        (
            Val::Enum { name: n1, variant: v1, data: d1 },
            Val::Enum { name: n2, variant: v2, data: d2 },
        ) => (n1 == n2 && v1 == v2) ==> variant_aligned(d1, d2),
        _ => false,
    }
}

/// Pairwise alignment of two sequences of values.
pub open spec fn seq_aligned(a: Seq<Val>, b: Seq<Val>) -> bool
    decreases a,
{
    a.len() == b.len() && forall|i: int|
        0 <= i < a.len() ==> aligned(#[trigger] a[i], b[i])
}

/// Alignment of the data of two enum variants of the same name and kind.
pub open spec fn variant_aligned(a: VariantVal, b: VariantVal) -> bool
    decreases a,
{
    match (a, b) {
        (VariantVal::Unit, VariantVal::Unit) => true,
        (VariantVal::Tuple(f1), VariantVal::Tuple(f2)) => f1.len() == f2.len() && seq_aligned(
            f1,
            f2,
        ),
        (VariantVal::Struct(f1), VariantVal::Struct(f2)) => named_aligned(f1, f2),
        _ => false,
    }
}

/// Positional alignment of two named-field sequences: the same field names
/// in the same order, with pairwise aligned values.
pub open spec fn named_aligned(a: Seq<(Seq<char>, Val)>, b: Seq<(Seq<char>, Val)>) -> bool
    decreases a,
{
    a.len() == b.len() && forall|i: int|
        0 <= i < a.len() ==> (#[trigger] a[i]).0 == (#[trigger] b[i]).0 && aligned(
            a[i].1,
            b[i].1,
        )
}


/// The working precondition of the diff engine on a pair of values: both
/// sides support equality, both are well-formed, and they respect the
/// type-identity contract pairwise.  Under this precondition diffing
/// succeeds and the result is fully characterized.
pub open spec fn diffable(a: Val, b: Val) -> bool {
    comparable(a) && comparable(b) && wf(a) && wf(b) && aligned(a, b)
}

/// Diffability of the name-matched field pairs of two named-field
/// sequences: the lookup the struct diff performs succeeds for every old
/// field and yields a diffable pair.
pub open spec fn named_diffable(a: Seq<(Seq<char>, Val)>, b: Seq<(Seq<char>, Val)>) -> bool {
    forall|i: int|
        0 <= i < a.len() ==> lookup_field(b, (#[trigger] a[i]).0) is Some && diffable(
            a[i].1,
            lookup_field(b, a[i].0)->0,
        )
}

/// Diffability of the key-matched entry pairs of two map-entry sequences.
pub open spec fn entries_diffable(a: Seq<(Val, Val)>, b: Seq<(Val, Val)>) -> bool {
    forall|i: int|
        0 <= i < a.len() ==> (lookup_entry(b, (#[trigger] a[i]).0) is Some ==> diffable(
            a[i].1,
            lookup_entry(b, a[i].0)->0,
        ))
}



/// Whether testing `a` against `b` for no-change reaches a comparison
/// that equality does not support: two opaque leaves of the same type
/// identity, directly or inside any pair of children the test may
/// compare.  Children are only compared where the containers' own
/// identity matches, since an identity mismatch decides without looking
/// inside; within matching containers every pair the alignment may
/// compare counts.
pub open spec fn nc_unsupported(a: Val, b: Val) -> bool
    decreases a,
{
    match (a, b) {
        (Val::Leaf(x), Val::Leaf(y)) => crate::diff_model::leaf_same_type(x, y) && x is Opaque,
        (Val::Tuple { name: n1, fields: f1 }, Val::Tuple { name: n2, fields: f2 }) => n1 == n2
            && f1.len() == f2.len() && seq_unsupported(f1, f2),
        (Val::Array { name: n1, elems: e1 }, Val::Array { name: n2, elems: e2 }) => n1 == n2
            && e1.len() == e2.len() && seq_unsupported(e1, e2),
        (Val::List { name: n1, elems: e1 }, Val::List { name: n2, elems: e2 }) => n1 == n2
            && pairs_unsupported(e1, e2),
        (
            Val::Mapping { name: n1, entries: e1 },
            Val::Mapping { name: n2, entries: e2 },
        ) => n1 == n2 && entries_unsupported(e1, e2),
        (
            Val::TupleStruct { name: n1, fields: f1 },
            Val::TupleStruct { name: n2, fields: f2 },
        ) => n1 == n2 && f1.len() == f2.len() && seq_unsupported(f1, f2),
        (Val::Struct { name: n1, fields: f1 }, Val::Struct { name: n2, fields: f2 }) => n1 == n2
            && named_unsupported(f1, f2),
        (
            Val::Enum { name: n1, variant: v1, data: d1 },
            Val::Enum { name: n2, variant: v2, data: d2 },
        ) => n1 == n2 && v1 == v2 && variant_unsupported(d1, d2),
        _ => false,
    }
}

/// An unsupported comparison in some positionally aligned pair.
pub open spec fn seq_unsupported(a: Seq<Val>, b: Seq<Val>) -> bool
    decreases a,
{
    exists|i: int| 0 <= i < a.len() && i < b.len() && nc_unsupported(#[trigger] a[i], b[i])
}

/// An unsupported comparison in some pair the sequence alignment may
/// compare.
pub open spec fn pairs_unsupported(a: Seq<Val>, b: Seq<Val>) -> bool
    decreases a,
{
    exists|i: int, j: int|
        0 <= i < a.len() && 0 <= j < b.len() && nc_unsupported(#[trigger] a[i], #[trigger] b[j])
}

/// An unsupported comparison between some field of `a` and its same-named
/// counterpart in `b`.
pub open spec fn named_unsupported(a: Seq<(Seq<char>, Val)>, b: Seq<(Seq<char>, Val)>) -> bool
    decreases a,
{
    exists|i: int|
        0 <= i < a.len() && lookup_field(b, (#[trigger] a[i]).0) is Some && nc_unsupported(
            a[i].1,
            lookup_field(b, a[i].0)->0,
        )
}

/// An unsupported comparison between some entry of `a` and its key-matched
/// counterpart in `b`.
pub open spec fn entries_unsupported(a: Seq<(Val, Val)>, b: Seq<(Val, Val)>) -> bool
    decreases a,
{
    exists|i: int|
        0 <= i < a.len() && lookup_entry(b, (#[trigger] a[i]).0) is Some && nc_unsupported(
            a[i].1,
            lookup_entry(b, a[i].0)->0,
        )
}

/// An unsupported comparison inside the data of two same-named variants.
pub open spec fn variant_unsupported(a: VariantVal, b: VariantVal) -> bool
    decreases a,
{
    match (a, b) {
        (VariantVal::Tuple(f1), VariantVal::Tuple(f2)) => f1.len() == f2.len()
            && seq_unsupported(f1, f2),
        (VariantVal::Struct(f1), VariantVal::Struct(f2)) => named_unsupported(f1, f2),
        _ => false,
    }
}

} // verus!
