//! The stated laws of the diff engine.
//!
//! [`lemma_diff_self_no_change`] is the round-trip law: diffing any
//! well-formed value that supports the equality probe against itself
//! reports no change.  Together with the contract of
//! [`crate::value::Value::diff`] it pins `v.diff(&v)` to `Ok(NoChange)`.
//! [`lemma_apply_inverts_diff`] is the apply-inverts-diff law, proved for
//! positional values — leaves, tuples, arrays, lists with their full edit
//! scripts, tuple structs, and unit or tuple variants — and extended by
//! [`lemma_apply_inverts_struct_diff`] to structs over positional fields,
//! by [`lemma_apply_inverts_enum_struct_diff`] to struct variants over
//! positional fields, and by [`lemma_apply_inverts_map_diff`] to maps
//! over positional values whose key sets coincide; for map diffs that
//! insert or delete entries the law is exercised by tests but not proved
//! here.  The replacement laws pin the `Replaced` outcomes to type
//! identity.

use vstd::prelude::*;

use crate::diff_model::{
    all_nc, all_nc_named, all_fields_present, edit_index, map_ins, map_mods, replay, sapply,
    sapply_map, sapply_named, script, sdiff, sdiff_named, sdiff_seq, update_entry, update_field,
    ApplyErr, DiffM, EditM, MapEditM,
};
use crate::lemmas::{
    lemma_lookup_entry_at, lemma_lookup_entry_found, lemma_lookup_field_at, lemma_sdiff_named,
    lemma_sdiff_seq, lemma_update_entry_at, lemma_update_field_at,
};
use crate::model::{
    aligned, comparable, diffable, entries_comparable, entries_nochange, entries_sub_rel,
    entries_sup_rel, entries_wf, key_present, lookup_entry, lookup_field, name_present,
    named_comparable, named_match_in, named_match_rev, named_nochange, named_sub_rel,
    named_sup_rel, named_veq, named_wf, nochange, entry_match_in, entry_match_rev, entries_veq,
    seq_aligned, seq_comparable, seq_nochange, seq_veq, seq_wf, unique_keys, unique_names, veq,
    wf, Val, VariantVal,
};
use crate::value::Value;

verus! {

/// Observational equality is reflexive on values that support the probe.
#[verifier::spinoff_prover]
pub proof fn lemma_veq_refl(m: Val)
    requires
        comparable(m),
    ensures
        veq(m, m),
    decreases m, 3int,
{
    match m {
        Val::Leaf(l) => {
            assert(veq(Val::Leaf(l), Val::Leaf(l)));
        },
        Val::Tuple { name, fields } => {
            assert(m == Val::Tuple { name, fields });
            lemma_seq_veq_refl(fields);
            assert(veq(m, m));
        },
        Val::Array { name, elems } => {
            assert(m == Val::Array { name, elems });
            lemma_seq_veq_refl(elems);
            assert(veq(m, m));
        },
        Val::List { name, elems } => {
            assert(m == Val::List { name, elems });
            lemma_seq_veq_refl(elems);
            assert(veq(m, m));
        },
        Val::Mapping { name, entries } => {
            assert(m == Val::Mapping { name, entries });
            lemma_entries_veq_refl(entries);
            assert(veq(m, m));
        },
        Val::TupleStruct { name, fields } => {
            assert(m == Val::TupleStruct { name, fields });
            lemma_seq_veq_refl(fields);
            assert(veq(m, m));
        },
        Val::Struct { name, fields } => {
            assert(m == Val::Struct { name, fields });
            lemma_named_veq_refl(fields);
            assert(veq(m, m));
        },
        Val::Enum { name, variant, data } => {
            assert(m == Val::Enum { name, variant, data });
            match data {
                VariantVal::Unit => {
                    assert(crate::model::variant_veq(VariantVal::Unit, VariantVal::Unit));
                },
                VariantVal::Tuple(fields) => {
                    lemma_seq_veq_refl(fields);
                },
                VariantVal::Struct(fields) => {
                    lemma_named_veq_refl(fields);
                },
            }
            assert(veq(m, m));
        },
    }
}

/// Positional equality is reflexive elementwise.
#[verifier::spinoff_prover]
proof fn lemma_seq_veq_refl(s: Seq<Val>)
    requires
        seq_comparable(s),
    ensures
        seq_veq(s, s),
    decreases s, 2int,
{
    assert forall|i: int| 0 <= i < s.len() implies veq(#[trigger] s[i], s[i]) by {
        lemma_veq_refl(s[i]);
    }
}

/// Every comparable named field matches itself within its own sequence.
#[verifier::spinoff_prover]
proof fn lemma_named_sub_refl(s: Seq<(Seq<char>, Val)>)
    requires
        named_comparable(s),
    ensures
        named_sub_rel(s, s),
    decreases s, 1int,
{
    assert forall|i: int| 0 <= i < s.len() implies named_match_in(s, #[trigger] s[i]) by {
        lemma_veq_refl(s[i].1);
        assert(0 <= i < s.len() && s[i].0 == (s[i]).0 && veq(s[i].1, s[i].1));
    }
}

/// Every comparable named field is matched within its own sequence.
#[verifier::spinoff_prover]
proof fn lemma_named_sup_refl(s: Seq<(Seq<char>, Val)>)
    requires
        named_comparable(s),
    ensures
        named_sup_rel(s, s),
    decreases s, 1int,
{
    assert forall|j: int| 0 <= j < s.len() implies named_match_rev(s, #[trigger] s[j]) by {
        lemma_veq_refl(s[j].1);
        assert(0 <= j < s.len() && s[j].0 == (s[j]).0 && veq(s[j].1, s[j].1));
    }
}

/// By-name equality is reflexive on comparable named fields.
#[verifier::spinoff_prover]
proof fn lemma_named_veq_refl(s: Seq<(Seq<char>, Val)>)
    requires
        named_comparable(s),
    ensures
        named_veq(s, s),
    decreases s, 2int,
{
    lemma_named_sub_refl(s);
    lemma_named_sup_refl(s);
}

/// Every comparable entry matches itself within its own sequence.
#[verifier::spinoff_prover]
proof fn lemma_entries_sub_refl(s: Seq<(Val, Val)>)
    requires
        entries_comparable(s),
    ensures
        entries_sub_rel(s, s),
    decreases s, 1int,
{
    assert forall|i: int| 0 <= i < s.len() implies entry_match_in(s, #[trigger] s[i]) by {
        lemma_veq_refl(s[i].0);
        lemma_veq_refl(s[i].1);
        assert(0 <= i < s.len() && veq(s[i].0, s[i].0) && veq(s[i].1, s[i].1));
    }
}

/// Every comparable entry is matched within its own sequence.
#[verifier::spinoff_prover]
proof fn lemma_entries_sup_refl(s: Seq<(Val, Val)>)
    requires
        entries_comparable(s),
    ensures
        entries_sup_rel(s, s),
    decreases s, 1int,
{
    assert forall|j: int| 0 <= j < s.len() implies entry_match_rev(s, #[trigger] s[j]) by {
        lemma_veq_refl(s[j].0);
        lemma_veq_refl(s[j].1);
        assert(0 <= j < s.len() && veq(s[j].0, s[j].0) && veq(s[j].1, s[j].1));
    }
}

/// Entry-set equality is reflexive on comparable entries.
#[verifier::spinoff_prover]
proof fn lemma_entries_veq_refl(s: Seq<(Val, Val)>)
    requires
        entries_comparable(s),
    ensures
        entries_veq(s, s),
    decreases s, 2int,
{
    lemma_entries_sub_refl(s);
    lemma_entries_sup_refl(s);
}

/// The type-identity contract holds of a well-formed, comparable value
/// paired with itself.
#[verifier::spinoff_prover]
pub proof fn lemma_aligned_refl(m: Val)
    requires
        wf(m),
        comparable(m),
    ensures
        aligned(m, m),
    decreases m, 2int,
{
    match m {
        Val::Leaf(l) => {
            assert(aligned(Val::Leaf(l), Val::Leaf(l)));
        },
        Val::Tuple { name, fields } => {
            assert(m == Val::Tuple { name, fields });
            lemma_seq_aligned_refl(fields);
            assert(aligned(Val::Tuple { name, fields }, Val::Tuple { name, fields }));
        },
        Val::Array { name, elems } => {
            assert(m == Val::Array { name, elems });
            lemma_seq_aligned_refl(elems);
            assert(aligned(Val::Array { name, elems }, Val::Array { name, elems }));
        },
        Val::List { name, elems } => {
            assert(aligned(Val::List { name, elems }, Val::List { name, elems }));
        },
        Val::Mapping { name, entries } => {
            assert(m == Val::Mapping { name, entries });
            assert forall|i: int, j: int|
                0 <= i < entries.len() && 0 <= j < entries.len() && veq(
                    (#[trigger] entries[j]).0,
                    (#[trigger] entries[i]).0,
                ) implies aligned(entries[i].1, entries[j].1) by {
                if i == j {
                    lemma_aligned_refl(entries[i].1);
                }
            }
            assert(aligned(m, m));
        },
        Val::TupleStruct { name, fields } => {
            assert(m == Val::TupleStruct { name, fields });
            lemma_seq_aligned_refl(fields);
            assert(aligned(
                Val::TupleStruct { name, fields },
                Val::TupleStruct { name, fields },
            ));
        },
        Val::Struct { name, fields } => {
            assert(m == Val::Struct { name, fields });
            lemma_named_aligned_refl(fields);
            assert(aligned(m, m));
        },
        Val::Enum { name, variant, data } => {
            assert(m == Val::Enum { name, variant, data });
            match data {
                VariantVal::Unit => {
                    assert(crate::model::variant_aligned(VariantVal::Unit, VariantVal::Unit));
                    assert(aligned(m, m));
                },
                VariantVal::Tuple(fields) => {
                    lemma_seq_aligned_refl(fields);
                    assert(crate::model::variant_aligned(
                        VariantVal::Tuple(fields),
                        VariantVal::Tuple(fields),
                    ));
                    assert(aligned(m, m));
                },
                VariantVal::Struct(fields) => {
                    lemma_named_aligned_refl(fields);
                    assert(crate::model::variant_aligned(
                        VariantVal::Struct(fields),
                        VariantVal::Struct(fields),
                    ));
                    assert(aligned(m, m));
                },
            }
        },
    }
}

/// Pairwise alignment is reflexive elementwise.
#[verifier::spinoff_prover]
proof fn lemma_seq_aligned_refl(s: Seq<Val>)
    requires
        seq_wf(s),
        seq_comparable(s),
    ensures
        seq_aligned(s, s),
    decreases s, 1int,
{
    assert forall|i: int| 0 <= i < s.len() implies aligned(#[trigger] s[i], s[i]) by {
        lemma_aligned_refl(s[i]);
    }
}

/// By-name alignment is reflexive elementwise.
#[verifier::spinoff_prover]
proof fn lemma_named_aligned_refl(s: Seq<(Seq<char>, Val)>)
    requires
        named_wf(s),
        named_comparable(s),
    ensures
        crate::model::named_aligned(s, s),
    decreases s, 1int,
{
    assert forall|i: int| 0 <= i < s.len() implies (#[trigger] s[i]).0 == s[i].0 && aligned(
        s[i].1,
        s[i].1,
    ) by {
        lemma_aligned_refl(s[i].1);
    }
}

/// Elementwise no-change yields the empty edit script.
proof fn lemma_script_nochange_empty(a: Seq<Val>, b: Seq<Val>, oi: int)
    requires
        a.len() == b.len(),
        forall|i: int| 0 <= i < a.len() ==> nochange(#[trigger] a[i], b[i]),
    ensures
        script(a, b, oi) == Seq::<EditM>::empty(),
    decreases a.len() + b.len(),
{
    if a.len() > 0 {
        assert(nochange(a[0], b[0]));
        assert forall|i: int|
            0 <= i < a.drop_first().len() implies nochange(
            #[trigger] a.drop_first()[i],
            b.drop_first()[i],
        ) by {
            assert(a.drop_first()[i] == a[i + 1]);
            assert(b.drop_first()[i] == b[i + 1]);
        }
        lemma_script_nochange_empty(a.drop_first(), b.drop_first(), oi + 1);
    }
}

/// A pass over old entries that finds every key unchanged emits no edits.
proof fn lemma_map_mods_empty(a: Seq<(Val, Val)>, b: Seq<(Val, Val)>)
    requires
        forall|i: int|
            0 <= i < a.len() ==> lookup_entry(b, (#[trigger] a[i]).0) is Some && sdiff(
                a[i].1,
                lookup_entry(b, a[i].0)->0,
            ) is NoChange,
    ensures
        map_mods(a, b) == Seq::<MapEditM>::empty(),
    decreases a,
{
    if a.len() > 0 {
        assert forall|i: int|
            0 <= i < a.drop_first().len() implies lookup_entry(
            b,
            (#[trigger] a.drop_first()[i]).0,
        ) is Some && sdiff(
            a.drop_first()[i].1,
            lookup_entry(b, a.drop_first()[i].0)->0,
        ) is NoChange by {
            assert(a.drop_first()[i] == a[i + 1]);
        }
        lemma_map_mods_empty(a.drop_first(), b);
    }
}

/// A pass over new entries whose keys all occur in the old map emits no
/// insertions.
proof fn lemma_map_ins_empty(b: Seq<(Val, Val)>, a: Seq<(Val, Val)>)
    requires
        forall|j: int| 0 <= j < b.len() ==> lookup_entry(a, (#[trigger] b[j]).0) is Some,
    ensures
        map_ins(b, a) == Seq::<MapEditM>::empty(),
    decreases b,
{
    if b.len() > 0 {
        assert forall|j: int|
            0 <= j < b.drop_first().len() implies lookup_entry(
            a,
            (#[trigger] b.drop_first()[j]).0,
        ) is Some by {
            assert(b.drop_first()[j] == b[j + 1]);
        }
        lemma_map_ins_empty(b.drop_first(), a);
    }
}

/// The diff of a well-formed, comparable value against itself reports no
/// change.
#[verifier::spinoff_prover]
pub proof fn lemma_sdiff_self(m: Val)
    requires
        wf(m),
        comparable(m),
    ensures
        sdiff(m, m) == DiffM::NoChange,
        nochange(m, m),
    decreases m, 3int,
{
    match m {
        Val::Leaf(_) => {},
        Val::Tuple { fields, .. } => {
            lemma_sdiff_seq_self(fields);
            lemma_sdiff_seq(fields, fields);
        },
        Val::Array { elems, .. } => {
            lemma_sdiff_seq_self(elems);
            lemma_sdiff_seq(elems, elems);
        },
        Val::List { elems, .. } => {
            assert forall|i: int| 0 <= i < elems.len() implies nochange(
                #[trigger] elems[i],
                elems[i],
            ) by {
                lemma_sdiff_self(elems[i]);
            }
            lemma_script_nochange_empty(elems, elems, 0);
        },
        Val::Mapping { entries, .. } => {
            lemma_map_self(entries);
        },
        Val::TupleStruct { fields, .. } => {
            lemma_sdiff_seq_self(fields);
            lemma_sdiff_seq(fields, fields);
        },
        Val::Struct { fields, .. } => {
            lemma_named_self(fields);
        },
        Val::Enum { data, .. } => {
            match data {
                VariantVal::Unit => {},
                VariantVal::Tuple(fields) => {
                    lemma_sdiff_seq_self(fields);
                    lemma_sdiff_seq(fields, fields);
                },
                VariantVal::Struct(fields) => {
                    lemma_named_self(fields);
                },
            }
        },
    }
}

/// Every positional self-diff reports no change, elementwise.
#[verifier::spinoff_prover]
proof fn lemma_sdiff_seq_self(s: Seq<Val>)
    requires
        seq_wf(s),
        seq_comparable(s),
    ensures
        all_nc(sdiff_seq(s, s)),
        seq_nochange(s, s),
    decreases s, 2int,
{
    lemma_sdiff_seq(s, s);
    assert forall|i: int| 0 <= i < s.len() implies (#[trigger] sdiff_seq(s, s)[i]) is NoChange
        && nochange(s[i], s[i]) by {
        lemma_sdiff_self(s[i]);
        assert(sdiff_seq(s, s)[i] == sdiff(s[i], s[i]));
    }
}

/// Every by-name self-diff reports no change.
#[verifier::spinoff_prover]
proof fn lemma_named_self(s: Seq<(Seq<char>, Val)>)
    requires
        unique_names(s),
        named_wf(s),
        named_comparable(s),
    ensures
        all_fields_present(s, s),
        all_nc_named(sdiff_named(s, s)),
        named_nochange(s, s),
    decreases s, 2int,
{
    lemma_sdiff_named(s, s);
    assert forall|i: int| 0 <= i < s.len() implies lookup_field(s, (#[trigger] s[i]).0)
        == Option::Some(s[i].1) by {
        lemma_lookup_field_at(s, s[i].0, i);
    }
    assert forall|i: int|
        0 <= i < s.len() implies (#[trigger] sdiff_named(s, s)[i]).1 is NoChange && nochange(
        s[i].1,
        lookup_field(s, s[i].0)->0,
    ) by {
        lemma_sdiff_self(s[i].1);
        assert(sdiff_named(s, s)[i] == (s[i].0, sdiff(s[i].1, s[i].1)));
    }
    assert forall|j: int| 0 <= j < s.len() implies name_present(s, (#[trigger] s[j]).0) by {
        assert(0 <= j < s.len() && s[j].0 == (s[j]).0);
    }
}

/// A map self-diff emits no edits.
#[verifier::spinoff_prover]
proof fn lemma_map_self(s: Seq<(Val, Val)>)
    requires
        unique_keys(s),
        forall|i: int| 0 <= i < s.len() ==> comparable((#[trigger] s[i]).0),
        entries_wf(s),
        entries_comparable(s),
    ensures
        map_mods(s, s) == Seq::<MapEditM>::empty(),
        map_ins(s, s) == Seq::<MapEditM>::empty(),
        entries_nochange(s, s),
    decreases s, 2int,
{
    assert forall|i: int| 0 <= i < s.len() implies lookup_entry(s, (#[trigger] s[i]).0)
        == Option::Some(s[i].1) by {
        lemma_veq_refl(s[i].0);
        lemma_lookup_entry_at(s, s[i].0, i);
    }
    assert forall|i: int| 0 <= i < s.len() implies nochange(
        (#[trigger] s[i]).1,
        lookup_entry(s, s[i].0)->0,
    ) && sdiff(s[i].1, lookup_entry(s, s[i].0)->0) is NoChange by {
        lemma_sdiff_self(s[i].1);
    }
    lemma_map_mods_empty(s, s);
    lemma_map_ins_empty(s, s);
    assert forall|j: int| 0 <= j < s.len() implies key_present(s, (#[trigger] s[j]).0) by {
        lemma_veq_refl(s[j].0);
        assert(0 <= j < s.len() && veq(s[j].0, (s[j]).0));
    }
}

/// The round-trip law: a well-formed value that supports the equality
/// probe diffs against itself as no change.  Together with the contract of
/// [`Value::diff`] this pins `v.diff(&v)` to `Ok(NoChange)`.
pub proof fn lemma_diff_self_no_change(v: Value)
    requires
        wf(v.vmodel()),
        comparable(v.vmodel()),
    ensures
        diffable(v.vmodel(), v.vmodel()),
        sdiff(v.vmodel(), v.vmodel()) == DiffM::NoChange,
{
    lemma_aligned_refl(v.vmodel());
    lemma_sdiff_self(v.vmodel());
}

/// Whether a value is built from positional shapes alone: no map, no
/// struct, and no struct variant occurs anywhere inside it.  The equality
/// probe is order-sensitive exactly on these shapes, so they are also the
/// shapes on which the digest of [`crate::hashing`] is defined.
pub open spec fn positional(v: Val) -> bool
    decreases v,
{
    match v {
        Val::Leaf(_) => true,
        Val::Tuple { fields, .. } => seq_positional(fields),
        Val::Array { elems, .. } => seq_positional(elems),
        Val::List { elems, .. } => seq_positional(elems),
        Val::Mapping { .. } => false,
        Val::TupleStruct { fields, .. } => seq_positional(fields),
        Val::Struct { .. } => false,
        Val::Enum { data, .. } => match data {
            VariantVal::Unit => true,
            VariantVal::Tuple(fields) => seq_positional(fields),
            VariantVal::Struct(_) => false,
        },
    }
}

/// Positionality of every element of a sequence.
pub open spec fn seq_positional(s: Seq<Val>) -> bool
    decreases s,
{
    forall|i: int| 0 <= i < s.len() ==> positional(#[trigger] s[i])
}

/// Replacement on type change: two leaves of different type identity
/// always diff as `Replaced` carrying the new value, whatever their
/// numeric contents.
pub proof fn lemma_replaced_on_type_change(a: Value, b: Value)
    requires
        a.vmodel() is Leaf,
        b.vmodel() is Leaf,
        !crate::diff_model::leaf_same_type(a.vmodel()->0, b.vmodel()->0),
    ensures
        sdiff(a.vmodel(), b.vmodel()) == DiffM::Replaced(b.vmodel()),
{
    let x = a.vmodel()->0;
    let y = b.vmodel()->0;
    assert(a.vmodel() == Val::Leaf(x));
    assert(b.vmodel() == Val::Leaf(y));
    assert(sdiff(Val::Leaf(x), Val::Leaf(y)) == DiffM::Replaced(Val::Leaf(y)));
}

/// A change of tuple arity is a change of type identity: tuples of
/// different length always diff as `Replaced`, never position by position.
pub proof fn lemma_tuple_arity_replaces(a: Value, b: Value)
    requires
        a.vmodel() is Tuple,
        b.vmodel() is Tuple,
        a.vmodel()->Tuple_fields.len() != b.vmodel()->Tuple_fields.len(),
    ensures
        sdiff(a.vmodel(), b.vmodel()) == DiffM::Replaced(b.vmodel()),
{
    let am = a.vmodel();
    let bm = b.vmodel();
    assert(am == Val::Tuple { name: am->Tuple_name, fields: am->Tuple_fields });
    assert(bm == Val::Tuple { name: bm->Tuple_name, fields: bm->Tuple_fields });
    assert(sdiff(am, bm) == DiffM::Replaced(bm));
}

/// Structs of different type identity always diff as `Replaced`, even with
/// identical field names and values: type identity, not layout, decides.
pub proof fn lemma_struct_type_identity_decides(a: Value, b: Value)
    requires
        a.vmodel() is Struct,
        b.vmodel() is Struct,
        a.vmodel()->Struct_name != b.vmodel()->Struct_name,
    ensures
        sdiff(a.vmodel(), b.vmodel()) == DiffM::Replaced(b.vmodel()),
{
    let am = a.vmodel();
    let bm = b.vmodel();
    assert(am == Val::Struct { name: am->Struct_name, fields: am->Struct_fields });
    assert(bm == Val::Struct { name: bm->Struct_name, fields: bm->Struct_fields });
    assert(sdiff(am, bm) == DiffM::Replaced(bm));
}

/// Applying a diff of two leaves to the old leaf yields the new one: the
/// leaf fragment of the law that applying a diff inverts it.
pub proof fn lemma_apply_inverts_leaf_diff(a: Value, b: Value)
    requires
        a.vmodel() is Leaf,
        b.vmodel() is Leaf,
        comparable(a.vmodel()),
        comparable(b.vmodel()),
    ensures
        sapply(sdiff(a.vmodel(), b.vmodel()), a.vmodel()) == Result::<Val, ApplyErr>::Ok(
            b.vmodel(),
        ),
{
    let x = a.vmodel()->0;
    let y = b.vmodel()->0;
    assert(a.vmodel() == Val::Leaf(x));
    assert(b.vmodel() == Val::Leaf(y));
    if crate::diff_model::leaf_same_type(x, y) && crate::model::leaf_veq(x, y) {
        assert(x == y);
        assert(sdiff(Val::Leaf(x), Val::Leaf(y)) == DiffM::NoChange);
    }
}


/// Every edit of a script is anchored at or after the script's origin.
proof fn lemma_script_indices(a: Seq<Val>, b: Seq<Val>, oi: int)
    ensures
        forall|k: int|
            0 <= k < script(a, b, oi).len() ==> edit_index(#[trigger] script(a, b, oi)[k]) >= oi,
    decreases a.len() + b.len(),
{
    if a.len() == 0 && b.len() == 0 {
    } else if a.len() == 0 {
        lemma_script_indices(a, b.drop_first(), oi);
        assert forall|k: int|
            0 <= k < script(a, b, oi).len() implies edit_index(
            #[trigger] script(a, b, oi)[k],
        ) >= oi by {
            if k > 0 {
                assert(script(a, b, oi)[k] == script(a, b.drop_first(), oi)[k - 1]);
            }
        }
    } else if b.len() == 0 {
        lemma_script_indices(a.drop_first(), b, oi + 1);
        assert forall|k: int|
            0 <= k < script(a, b, oi).len() implies edit_index(
            #[trigger] script(a, b, oi)[k],
        ) >= oi by {
            if k > 0 {
                assert(script(a, b, oi)[k] == script(a.drop_first(), b, oi + 1)[k - 1]);
            }
        }
    } else if nochange(a[0], b[0]) {
        lemma_script_indices(a.drop_first(), b.drop_first(), oi + 1);
        assert forall|k: int|
            0 <= k < script(a, b, oi).len() implies edit_index(
            #[trigger] script(a, b, oi)[k],
        ) >= oi by {
            assert(script(a, b, oi)[k] == script(a.drop_first(), b.drop_first(), oi + 1)[k]);
        }
    } else if crate::diff_model::lcs_len(a.drop_first(), b) == crate::diff_model::lcs_len(
        a,
        b,
    ) {
        lemma_script_indices(a.drop_first(), b, oi + 1);
        assert forall|k: int|
            0 <= k < script(a, b, oi).len() implies edit_index(
            #[trigger] script(a, b, oi)[k],
        ) >= oi by {
            if k > 0 {
                assert(script(a, b, oi)[k] == script(a.drop_first(), b, oi + 1)[k - 1]);
            }
        }
    } else {
        lemma_script_indices(a, b.drop_first(), oi);
        assert forall|k: int|
            0 <= k < script(a, b, oi).len() implies edit_index(
            #[trigger] script(a, b, oi)[k],
        ) >= oi by {
            if k > 0 {
                assert(script(a, b, oi)[k] == script(a, b.drop_first(), oi)[k - 1]);
            }
        }
    }
}

/// The list fragment of the apply-inverts-diff law: replaying the edit
/// script computed between two sequences on the old one yields a sequence
/// whose elements pairwise diff as no change against the new one.
pub proof fn lemma_replay_inverts_script(a: Seq<Val>, b: Seq<Val>, oi: int)
    requires
        forall|j: int| 0 <= j < b.len() ==> wf(#[trigger] b[j]) && comparable(b[j]),
    ensures
        replay(a, script(a, b, oi), oi).len() == b.len(),
        forall|k: int|
            0 <= k < b.len() ==> nochange(#[trigger] replay(a, script(a, b, oi), oi)[k], b[k]),
    decreases a.len() + b.len(),
{
    let sc = script(a, b, oi);
    let r = replay(a, sc, oi);
    if a.len() == 0 && b.len() == 0 {
    } else if a.len() == 0 {
        let tail = script(a, b.drop_first(), oi);
        assert(sc == seq![EditM::Inserted(oi, b[0])] + tail);
        assert(sc[0] == EditM::Inserted(oi, b[0]));
        assert(sc.drop_first() =~= tail);
        assert forall|j: int|
            0 <= j < b.drop_first().len() implies wf(#[trigger] b.drop_first()[j]) && comparable(
            b.drop_first()[j],
        ) by {
            assert(b.drop_first()[j] == b[j + 1]);
        }
        lemma_replay_inverts_script(a, b.drop_first(), oi);
        lemma_sdiff_self(b[0]);
        assert(r == seq![b[0]] + replay(a, tail, oi));
        assert forall|k: int| 0 <= k < b.len() implies nochange(#[trigger] r[k], b[k]) by {
            if k > 0 {
                assert(r[k] == replay(a, tail, oi)[k - 1]);
                assert(b.drop_first()[k - 1] == b[k]);
            }
        }
    } else if b.len() == 0 {
        let tail = script(a.drop_first(), b, oi + 1);
        assert(sc == seq![EditM::Deleted(oi)] + tail);
        assert(sc[0] == EditM::Deleted(oi));
        assert(sc.drop_first() =~= tail);
        lemma_replay_inverts_script(a.drop_first(), b, oi + 1);
        assert(edit_index(sc[0]) == oi);
        assert(r == replay(a.drop_first(), tail, oi + 1));
    } else if nochange(a[0], b[0]) {
        let tail = script(a.drop_first(), b.drop_first(), oi + 1);
        assert(sc == tail);
        lemma_script_indices(a.drop_first(), b.drop_first(), oi + 1);
        assert forall|j: int|
            0 <= j < b.drop_first().len() implies wf(#[trigger] b.drop_first()[j]) && comparable(
            b.drop_first()[j],
        ) by {
            assert(b.drop_first()[j] == b[j + 1]);
        }
        lemma_replay_inverts_script(a.drop_first(), b.drop_first(), oi + 1);
        if sc.len() > 0 {
            assert(edit_index(sc[0]) >= oi + 1);
        }
        assert(r == seq![a[0]] + replay(a.drop_first(), tail, oi + 1));
        assert forall|k: int| 0 <= k < b.len() implies nochange(#[trigger] r[k], b[k]) by {
            if k > 0 {
                assert(r[k] == replay(a.drop_first(), tail, oi + 1)[k - 1]);
                assert(b.drop_first()[k - 1] == b[k]);
            }
        }
    } else if crate::diff_model::lcs_len(a.drop_first(), b) == crate::diff_model::lcs_len(
        a,
        b,
    ) {
        let tail = script(a.drop_first(), b, oi + 1);
        assert(sc == seq![EditM::Deleted(oi)] + tail);
        assert(sc[0] == EditM::Deleted(oi));
        assert(sc.drop_first() =~= tail);
        lemma_replay_inverts_script(a.drop_first(), b, oi + 1);
        assert(edit_index(sc[0]) == oi);
        assert(r == replay(a.drop_first(), tail, oi + 1));
    } else {
        let tail = script(a, b.drop_first(), oi);
        assert(sc == seq![EditM::Inserted(oi, b[0])] + tail);
        assert(sc[0] == EditM::Inserted(oi, b[0]));
        assert(sc.drop_first() =~= tail);
        assert forall|j: int|
            0 <= j < b.drop_first().len() implies wf(#[trigger] b.drop_first()[j]) && comparable(
            b.drop_first()[j],
        ) by {
            assert(b.drop_first()[j] == b[j + 1]);
        }
        lemma_replay_inverts_script(a, b.drop_first(), oi);
        lemma_sdiff_self(b[0]);
        assert(edit_index(sc[0]) == oi);
        assert(r == seq![b[0]] + replay(a, tail, oi));
        assert forall|k: int| 0 <= k < b.len() implies nochange(#[trigger] r[k], b[k]) by {
            if k > 0 {
                assert(r[k] == replay(a, tail, oi)[k - 1]);
                assert(b.drop_first()[k - 1] == b[k]);
            }
        }
    }
}


/// An empty edit script certifies elementwise no-change.
proof fn lemma_script_empty_nochange(a: Seq<Val>, b: Seq<Val>, oi: int)
    requires
        script(a, b, oi) == Seq::<EditM>::empty(),
    ensures
        a.len() == b.len(),
        forall|i: int| 0 <= i < a.len() ==> nochange(#[trigger] a[i], b[i]),
    decreases a.len() + b.len(),
{
    if a.len() == 0 && b.len() == 0 {
    } else if a.len() == 0 || b.len() == 0 {
        assert(script(a, b, oi).len() > 0);
    } else if nochange(a[0], b[0]) {
        lemma_script_empty_nochange(a.drop_first(), b.drop_first(), oi + 1);
        assert forall|i: int| 0 <= i < a.len() implies nochange(#[trigger] a[i], b[i]) by {
            if i > 0 {
                assert(a.drop_first()[i - 1] == a[i]);
                assert(b.drop_first()[i - 1] == b[i]);
                assert(nochange(a.drop_first()[i - 1], b.drop_first()[i - 1]));
            }
        }
    } else {
        assert(script(a, b, oi).len() > 0);
    }
}

/// The apply-inverts-diff law for positional values: applying the diff of
/// `a` against `b` to `a` itself succeeds and yields a value whose diff
/// against `b` reports no change.  The third clause pins when the diff is
/// `NoChange` at all.  For the by-name shapes (structs and maps) the law
/// is exercised by tests but not proved here.
#[verifier::spinoff_prover]
pub proof fn lemma_apply_inverts_diff(a: Val, b: Val)
    requires
        positional(a),
        positional(b),
        wf(a),
        wf(b),
        comparable(a),
        comparable(b),
        aligned(a, b),
    ensures
        sapply(sdiff(a, b), a) is Ok,
        nochange(sapply(sdiff(a, b), a)->Ok_0, b),
        (sdiff(a, b) is NoChange) == nochange(a, b),
    decreases a, 4int,
{
    match (a, b) {
        (Val::Leaf(x), Val::Leaf(y)) => {
            if !crate::diff_model::leaf_same_type(x, y) {
                lemma_sdiff_self(b);
            } else if crate::model::leaf_veq(x, y) {
                assert(x == y);
            } else {
                lemma_sdiff_self(b);
            }
        },
        (Val::Leaf(_), _) => {
            lemma_sdiff_self(b);
        },
        (Val::Tuple { name: n1, fields: f1 }, Val::Tuple { name: n2, fields: f2 }) => {
            if n1 != n2 || f1.len() != f2.len() {
                lemma_sdiff_self(b);
                assert(!nochange(a, b));
            } else {
                lemma_apply_inverts_seq(f1, f2);
                lemma_sdiff_seq(f1, f2);
                let ds = sdiff_seq(f1, f2);
                if all_nc(ds) {
                    assert(sdiff(a, b) == DiffM::NoChange);
                    assert(crate::model::seq_nochange(f1, f2));
                    assert(nochange(a, b));
                } else {
                    assert(sdiff(a, b) == DiffM::Modified(
                        crate::diff_model::DeltaM::Tuple { name: n2, fields: ds },
                    ));
                    let rs = crate::diff_model::sapply_seq(ds, f1)->Ok_0;
                    assert(sapply(sdiff(a, b), a) == Result::<Val, ApplyErr>::Ok(
                        Val::Tuple { name: n1, fields: rs },
                    ));
                    assert(nochange(Val::Tuple { name: n1, fields: rs }, b));
                    assert(!crate::model::seq_nochange(f1, f2));
                    assert(!nochange(a, b));
                }
            }
        },
        (Val::Array { name: n1, elems: e1 }, Val::Array { name: n2, elems: e2 }) => {
            if n1 != n2 || e1.len() != e2.len() {
                lemma_sdiff_self(b);
                assert(!nochange(a, b));
            } else {
                lemma_apply_inverts_seq(e1, e2);
                lemma_sdiff_seq(e1, e2);
                let ds = sdiff_seq(e1, e2);
                if all_nc(ds) {
                    assert(nochange(a, b));
                } else {
                    let rs = crate::diff_model::sapply_seq(ds, e1)->Ok_0;
                    assert(sapply(sdiff(a, b), a) == Result::<Val, ApplyErr>::Ok(
                        Val::Array { name: n1, elems: rs },
                    ));
                    assert(nochange(Val::Array { name: n1, elems: rs }, b));
                    assert(!nochange(a, b));
                }
            }
        },
        (Val::List { name: n1, elems: e1 }, Val::List { name: n2, elems: e2 }) => {
            if n1 != n2 {
                lemma_sdiff_self(b);
                assert(!nochange(a, b));
            } else {
                let sc = script(e1, e2, 0);
                assert forall|j: int|
                    0 <= j < e2.len() implies wf(#[trigger] e2[j]) && comparable(e2[j]) by {}
                lemma_replay_inverts_script(e1, e2, 0);
                if sc.len() == 0 {
                    assert(sdiff(a, b) == DiffM::NoChange);
                    assert(sc =~= Seq::<EditM>::empty());
                    lemma_script_empty_nochange(e1, e2, 0);
                    assert(crate::model::seq_nochange(e1, e2));
                    assert(nochange(a, b));
                } else {
                    assert(sdiff(a, b) == DiffM::Modified(
                        crate::diff_model::DeltaM::List { name: n2, edits: sc },
                    ));
                    let rs = replay(e1, sc, 0);
                    assert(sapply(sdiff(a, b), a) == Result::<Val, ApplyErr>::Ok(
                        Val::List { name: n1, elems: rs },
                    ));
                    assert(crate::model::seq_nochange(rs, e2));
                    assert(nochange(Val::List { name: n1, elems: rs }, b));
                    if nochange(a, b) {
                        lemma_script_nochange_empty(e1, e2, 0);
                        assert(false);
                    }
                    assert(!nochange(a, b));
                }
            }
        },
        (
            Val::TupleStruct { name: n1, fields: f1 },
            Val::TupleStruct { name: n2, fields: f2 },
        ) => {
            if n1 != n2 || f1.len() != f2.len() {
                lemma_sdiff_self(b);
                assert(!nochange(a, b));
            } else {
                lemma_apply_inverts_seq(f1, f2);
                lemma_sdiff_seq(f1, f2);
                let ds = sdiff_seq(f1, f2);
                if all_nc(ds) {
                    assert(nochange(a, b));
                } else {
                    let rs = crate::diff_model::sapply_seq(ds, f1)->Ok_0;
                    assert(sapply(sdiff(a, b), a) == Result::<Val, ApplyErr>::Ok(
                        Val::TupleStruct { name: n1, fields: rs },
                    ));
                    assert(nochange(Val::TupleStruct { name: n1, fields: rs }, b));
                    assert(!nochange(a, b));
                }
            }
        },
        (
            Val::Enum { name: n1, variant: v1, data: d1 },
            Val::Enum { name: n2, variant: v2, data: d2 },
        ) => {
            if n1 != n2 {
                lemma_sdiff_self(b);
                assert(!nochange(a, b));
            } else if v1 != v2 || !crate::diff_model::same_variant_kind(d1, d2) {
                lemma_sdiff_self(b);
                assert(sdiff(a, b) == DiffM::Modified(
                    crate::diff_model::DeltaM::Enum(crate::diff_model::EnumDiffM::Swapped(b)),
                ));
                assert(sapply(sdiff(a, b), a) == Result::<Val, ApplyErr>::Ok(b));
                assert(!nochange(a, b));
            } else {
                match (d1, d2) {
                    (VariantVal::Unit, VariantVal::Unit) => {
                        assert(sdiff(a, b) == DiffM::NoChange);
                        assert(nochange(a, b));
                    },
                    (VariantVal::Tuple(f1), VariantVal::Tuple(f2)) => {
                        assert(crate::model::variant_aligned(d1, d2));
                        assert(f1.len() == f2.len());
                        assert(seq_aligned(f1, f2));
                        assert(seq_positional(f1) && seq_positional(f2));
                        assert(seq_wf(f1) && seq_wf(f2));
                        assert(seq_comparable(f1) && seq_comparable(f2));
                        lemma_apply_inverts_seq(f1, f2);
                        lemma_sdiff_seq(f1, f2);
                        let ds = sdiff_seq(f1, f2);
                        if all_nc(ds) {
                            assert(nochange(a, b));
                        } else {
                            let rs = crate::diff_model::sapply_seq(ds, f1)->Ok_0;
                            assert(sapply(sdiff(a, b), a) == Result::<Val, ApplyErr>::Ok(
                                Val::Enum {
                                    name: n1,
                                    variant: v1,
                                    data: VariantVal::Tuple(rs),
                                },
                            ));
                            assert(crate::model::seq_nochange(rs, f2));
                            assert(crate::model::variant_nochange(
                                VariantVal::Tuple(rs),
                                VariantVal::Tuple(f2),
                            ));
                            assert(nochange(
                                Val::Enum { name: n1, variant: v1, data: VariantVal::Tuple(rs) },
                                b,
                            ));
                            assert(!nochange(a, b));
                        }
                    },
                    _ => {
                        assert(false);
                    },
                }
            }
        },
        _ => {
            assert(false);
        },
    }
}

/// The elementwise apply-inverts-diff law for aligned positional field
/// sequences.
#[verifier::spinoff_prover]
proof fn lemma_apply_inverts_seq(f1: Seq<Val>, f2: Seq<Val>)
    requires
        f1.len() == f2.len(),
        seq_positional(f1),
        seq_positional(f2),
        seq_wf(f1),
        seq_wf(f2),
        seq_comparable(f1),
        seq_comparable(f2),
        seq_aligned(f1, f2),
    ensures
        crate::diff_model::sapply_seq(sdiff_seq(f1, f2), f1) is Ok,
        crate::diff_model::sapply_seq(sdiff_seq(f1, f2), f1)->Ok_0.len() == f2.len(),
        forall|k: int|
            0 <= k < f2.len() ==> nochange(
                #[trigger] crate::diff_model::sapply_seq(sdiff_seq(f1, f2), f1)->Ok_0[k],
                f2[k],
            ),
        all_nc(sdiff_seq(f1, f2)) == seq_nochange(f1, f2),
    decreases f1, 3int,
{
    lemma_sdiff_seq(f1, f2);
    if f1.len() == 0 {
        assert(crate::diff_model::sapply_seq(sdiff_seq(f1, f2), f1)->Ok_0 =~= Seq::<Val>::empty());
    } else {
        lemma_apply_inverts_diff(f1[0], f2[0]);
        assert forall|j: int|
            0 <= j < f1.drop_first().len() implies positional(#[trigger] f1.drop_first()[j])
            && wf(f1.drop_first()[j]) && comparable(f1.drop_first()[j]) && positional(
            #[trigger] f2.drop_first()[j],
        ) && wf(f2.drop_first()[j]) && comparable(f2.drop_first()[j]) && aligned(
            f1.drop_first()[j],
            f2.drop_first()[j],
        ) by {
            assert(f1.drop_first()[j] == f1[j + 1]);
            assert(f2.drop_first()[j] == f2[j + 1]);
        }
        lemma_apply_inverts_seq(f1.drop_first(), f2.drop_first());
        let ds = sdiff_seq(f1, f2);
        assert(ds == seq![sdiff(f1[0], f2[0])] + sdiff_seq(f1.drop_first(), f2.drop_first()));
        assert(ds[0] == sdiff(f1[0], f2[0]));
        assert(ds.drop_first() =~= sdiff_seq(f1.drop_first(), f2.drop_first()));
        let v = sapply(ds[0], f1[0])->Ok_0;
        let rest = crate::diff_model::sapply_seq(ds.drop_first(), f1.drop_first())->Ok_0;
        assert(crate::diff_model::sapply_seq(ds, f1) == Result::<Seq<Val>, ApplyErr>::Ok(
            seq![v] + rest,
        ));
        assert forall|k: int|
            0 <= k < f2.len() implies nochange(#[trigger] (seq![v] + rest)[k], f2[k]) by {
            if k > 0 {
                assert((seq![v] + rest)[k] == rest[k - 1]);
                assert(f2.drop_first()[k - 1] == f2[k]);
            }
        }
        if all_nc(ds) {
            assert(all_nc(ds.drop_first())) by {
                assert forall|k: int|
                    0 <= k < ds.drop_first().len() implies (
                #[trigger] ds.drop_first()[k]) is NoChange by {
                    assert(ds.drop_first()[k] == ds[k + 1]);
                }
            }
            assert forall|k: int| 0 <= k < f1.len() implies nochange(
                #[trigger] f1[k],
                f2[k],
            ) by {
                if k > 0 {
                    assert(f1.drop_first()[k - 1] == f1[k]);
                    assert(f2.drop_first()[k - 1] == f2[k]);
                }
            }
        }
        if seq_nochange(f1, f2) {
            assert(seq_nochange(f1.drop_first(), f2.drop_first())) by {
                assert forall|k: int|
                    0 <= k < f1.drop_first().len() implies nochange(
                    #[trigger] f1.drop_first()[k],
                    f2.drop_first()[k],
                ) by {
                    assert(f1.drop_first()[k] == f1[k + 1]);
                    assert(f2.drop_first()[k] == f2[k + 1]);
                }
            }
            assert forall|k: int| 0 <= k < ds.len() implies (#[trigger] ds[k]) is NoChange by {
                if k > 0 {
                    assert(ds[k] == sdiff_seq(f1.drop_first(), f2.drop_first())[k - 1]);
                }
            }
        }
    }
}


/// The by-name apply path inverts the by-name diff: for two aligned
/// unique-named field sequences whose values are positional, applying the
/// named sub-diffs of the first against the second back onto the first
/// succeeds, keeps the field names, and yields values that pairwise diff
/// as no change against the second.  The walk is parameterized by the
/// position `k` already processed.
proof fn lemma_apply_inverts_named_from(
    f1: Seq<(Seq<char>, Val)>,
    f2: Seq<(Seq<char>, Val)>,
    base: Seq<(Seq<char>, Val)>,
    k: int,
)
    requires
        0 <= k <= f1.len(),
        f1.len() == f2.len(),
        base.len() == f1.len(),
        forall|i: int| 0 <= i < f1.len() ==> (#[trigger] f1[i]).0 == (#[trigger] f2[i]).0,
        forall|i: int| 0 <= i < f1.len() ==> (#[trigger] base[i]).0 == (#[trigger] f1[i]).0,
        unique_names(f1),
        forall|i: int| k <= i < f1.len() ==> (#[trigger] base[i]).1 == f1[i].1,
        forall|i: int| 0 <= i < f1.len() ==> positional((#[trigger] f1[i]).1),
        forall|i: int| 0 <= i < f1.len() ==> wf((#[trigger] f1[i]).1),
        forall|i: int| 0 <= i < f1.len() ==> comparable((#[trigger] f1[i]).1),
        forall|i: int| 0 <= i < f2.len() ==> positional((#[trigger] f2[i]).1),
        forall|i: int| 0 <= i < f2.len() ==> wf((#[trigger] f2[i]).1),
        forall|i: int| 0 <= i < f2.len() ==> comparable((#[trigger] f2[i]).1),
        forall|i: int|
            0 <= i < f1.len() ==> aligned((#[trigger] f1[i]).1, (#[trigger] f2[i]).1),
    ensures
        sapply_named(sdiff_named(f1.skip(k), f2), base) is Ok,
        sapply_named(sdiff_named(f1.skip(k), f2), base)->Ok_0.len() == base.len(),
        forall|i: int|
            0 <= i < base.len() ==> (#[trigger] sapply_named(
                sdiff_named(f1.skip(k), f2),
                base,
            )->Ok_0[i]).0 == base[i].0,
        forall|i: int|
            k <= i < f1.len() ==> nochange(
                (#[trigger] sapply_named(sdiff_named(f1.skip(k), f2), base)->Ok_0[i]).1,
                f2[i].1,
            ),
        forall|i: int|
            0 <= i < k ==> (#[trigger] sapply_named(
                sdiff_named(f1.skip(k), f2),
                base,
            )->Ok_0[i]).1 == base[i].1,
    decreases f1.len() - k,
{
    if k == f1.len() {
        assert(f1.skip(k).len() == 0);
        assert(sdiff_named(f1.skip(k), f2) =~= Seq::<(Seq<char>, DiffM)>::empty());
        assert(sapply_named(sdiff_named(f1.skip(k), f2), base) == Result::<
            Seq<(Seq<char>, Val)>,
            ApplyErr,
        >::Ok(base));
    } else {
        crate::lemmas::lemma_skip_step(f1, k);
        let ds = sdiff_named(f1.skip(k), f2);
        assert(f1.skip(k)[0] == f1[k]);
        assert(f1.skip(k).drop_first() =~= f1.skip(k + 1));
        // the diff of the field at position k pairs it with the
        // same-named field of the new value, which by uniqueness is the
        // one at position k
        assert forall|j: int| 0 <= j < k implies (#[trigger] f2[j]).0 != f1[k].0 by {
            assert(f1[j].0 != f1[k].0);
        }
        lemma_lookup_field_at(f2, f1[k].0, k);
        assert(ds == seq![(f1[k].0, sdiff(f1[k].1, f2[k].1))] + sdiff_named(
            f1.skip(k + 1),
            f2,
        ));
        assert(ds[0] == (f1[k].0, sdiff(f1[k].1, f2[k].1)));
        assert(ds.drop_first() =~= sdiff_named(f1.skip(k + 1), f2));
        // the application looks the field up in the evolving base, whose
        // names never change
        assert forall|j: int| 0 <= j < k implies (#[trigger] base[j]).0 != f1[k].0 by {
            assert(f1[j].0 != f1[k].0);
        }
        lemma_lookup_field_at(base, f1[k].0, k);
        assert(lookup_field(base, ds[0].0) == Option::Some(base[k].1));
        assert(base[k].1 == f1[k].1);
        lemma_apply_inverts_diff(f1[k].1, f2[k].1);
        let v = sapply(ds[0].1, f1[k].1)->Ok_0;
        lemma_update_field_at(base, f1[k].0, v, k);
        let base2 = update_field(base, ds[0].0, v);
        assert(base2 =~= base.update(k, (base[k].0, v)));
        assert(sapply_named(ds, base) == sapply_named(ds.drop_first(), base2));
        assert(base2.len() == f1.len());
        assert forall|i: int| 0 <= i < f1.len() implies (#[trigger] base2[i]).0 == (
        #[trigger] f1[i]).0 by {
            if i != k {
                assert(base2[i] == base[i]);
            } else {
                assert(base2[k].0 == base[k].0);
            }
        }
        assert forall|i: int| k + 1 <= i < f1.len() implies (#[trigger] base2[i]).1 == f1[
            i].1 by {
            assert(base2[i] == base[i]);
        }
        lemma_apply_inverts_named_from(f1, f2, base2, k + 1);
        let r = sapply_named(sdiff_named(f1.skip(k + 1), f2), base2)->Ok_0;
        assert forall|i: int| k <= i < f1.len() implies nochange(
            (#[trigger] r[i]).1,
            f2[i].1,
        ) by {
            if i == k {
                assert(r[k].1 == base2[k].1);
                assert(base2[k].1 == v);
            }
        }
    }
}


/// Positionality of every field value of a named-field sequence.
pub open spec fn named_positional(s: Seq<(Seq<char>, Val)>) -> bool {
    forall|i: int| 0 <= i < s.len() ==> positional((#[trigger] s[i]).1)
}

/// The apply-inverts-diff law for structs over positional field values:
/// applying the diff of struct `a` against same-named struct `b` back
/// onto `a` succeeds and yields a value whose diff against `b` reports no
/// change.
pub proof fn lemma_apply_inverts_struct_diff(a: Val, b: Val)
    requires
        a is Struct,
        b is Struct,
        a->Struct_name == b->Struct_name,
        named_positional(a->Struct_fields),
        named_positional(b->Struct_fields),
        wf(a),
        wf(b),
        comparable(a),
        comparable(b),
        aligned(a, b),
    ensures
        sapply(sdiff(a, b), a) is Ok,
        nochange(sapply(sdiff(a, b), a)->Ok_0, b),
{
    let n1 = a->Struct_name;
    let f1 = a->Struct_fields;
    let f2 = b->Struct_fields;
    assert(a == Val::Struct { name: n1, fields: f1 });
    assert(b == Val::Struct { name: n1, fields: f2 });
    assert(crate::model::named_aligned(f1, f2));
    assert(unique_names(f1) && unique_names(f2));
    assert(named_wf(f1) && named_wf(f2));
    assert(named_comparable(f1) && named_comparable(f2));
    assert forall|i: int| 0 <= i < f1.len() implies lookup_field(f2, (#[trigger] f1[i]).0)
        == Option::Some(f2[i].1) by {
        assert forall|j: int| 0 <= j < i implies (#[trigger] f2[j]).0 != f1[i].0 by {
            assert(f1[j].0 != f1[i].0);
        }
        lemma_lookup_field_at(f2, f1[i].0, i);
    }
    assert(all_fields_present(f1, f2));
    lemma_sdiff_named(f1, f2);
    let ds = sdiff_named(f1, f2);
    assert forall|i: int|
        0 <= i < f1.len() implies aligned((#[trigger] f1[i]).1, (#[trigger] f2[i]).1) && wf(
        f1[i].1,
    ) && wf(f2[i].1) && comparable(f1[i].1) && comparable(f2[i].1) && positional(f1[i].1)
        && positional(f2[i].1) by {}
    if all_nc_named(ds) {
        assert(sdiff(a, b) == DiffM::NoChange);
        assert forall|i: int|
            0 <= i < f1.len() implies lookup_field(f2, (#[trigger] f1[i]).0) is Some && nochange(
            f1[i].1,
            lookup_field(f2, f1[i].0)->0,
        ) by {
            assert(ds[i] == (f1[i].0, sdiff(f1[i].1, f2[i].1)));
            assert(ds[i].1 is NoChange);
            lemma_apply_inverts_diff(f1[i].1, f2[i].1);
        }
        assert forall|j: int| 0 <= j < f2.len() implies name_present(f1, (#[trigger] f2[j]).0) by {
            assert(0 <= j < f1.len() && f1[j].0 == f2[j].0);
        }
        assert(named_nochange(f1, f2));
        assert(nochange(a, b));
    } else {
        assert(sdiff(a, b) == DiffM::Modified(
            crate::diff_model::DeltaM::Struct { name: n1, fields: ds },
        ));
        assert(f1.skip(0) =~= f1);
        assert(sdiff_named(f1.skip(0), f2) == ds);
        lemma_apply_inverts_named_from(f1, f2, f1, 0);
        let rs = sapply_named(ds, f1)->Ok_0;
        assert(sapply(sdiff(a, b), a) == Result::<Val, ApplyErr>::Ok(
            Val::Struct { name: n1, fields: rs },
        ));
        assert forall|i: int|
            0 <= i < rs.len() implies lookup_field(f2, (#[trigger] rs[i]).0) is Some && nochange(
            rs[i].1,
            lookup_field(f2, rs[i].0)->0,
        ) by {
            assert(rs[i].0 == f1[i].0);
            assert(nochange(rs[i].1, f2[i].1));
        }
        assert forall|j: int| 0 <= j < f2.len() implies name_present(rs, (#[trigger] f2[j]).0) by {
            assert(0 <= j < rs.len() && rs[j].0 == f2[j].0);
        }
        assert(named_nochange(rs, f2));
        assert(nochange(Val::Struct { name: n1, fields: rs }, b));
    }
}

/// The apply-inverts-diff law for enums holding a struct variant over
/// positional field values: applying the diff of enum `a` against enum
/// `b` of the same type identity and active variant back onto `a`
/// succeeds and yields a value whose diff against `b` reports no change.
pub proof fn lemma_apply_inverts_enum_struct_diff(a: Val, b: Val)
    requires
        a is Enum,
        b is Enum,
        a->Enum_name == b->Enum_name,
        a->Enum_variant == b->Enum_variant,
        a->Enum_data is Struct,
        b->Enum_data is Struct,
        named_positional(a->Enum_data->Struct_0),
        named_positional(b->Enum_data->Struct_0),
        wf(a),
        wf(b),
        comparable(a),
        comparable(b),
        aligned(a, b),
    ensures
        sapply(sdiff(a, b), a) is Ok,
        nochange(sapply(sdiff(a, b), a)->Ok_0, b),
{
    let n1 = a->Enum_name;
    let v1 = a->Enum_variant;
    let f1 = a->Enum_data->Struct_0;
    let f2 = b->Enum_data->Struct_0;
    assert(a == Val::Enum { name: n1, variant: v1, data: VariantVal::Struct(f1) });
    assert(b == Val::Enum { name: n1, variant: v1, data: VariantVal::Struct(f2) });
    assert(crate::model::variant_aligned(VariantVal::Struct(f1), VariantVal::Struct(f2)));
    assert(crate::model::named_aligned(f1, f2));
    assert(crate::diff_model::same_variant_kind(
        VariantVal::Struct(f1),
        VariantVal::Struct(f2),
    ));
    assert(unique_names(f1) && unique_names(f2));
    assert(named_wf(f1) && named_wf(f2));
    assert(named_comparable(f1) && named_comparable(f2));
    assert forall|i: int| 0 <= i < f1.len() implies lookup_field(f2, (#[trigger] f1[i]).0)
        == Option::Some(f2[i].1) by {
        assert forall|j: int| 0 <= j < i implies (#[trigger] f2[j]).0 != f1[i].0 by {
            assert(f1[j].0 != f1[i].0);
        }
        lemma_lookup_field_at(f2, f1[i].0, i);
    }
    assert(all_fields_present(f1, f2));
    lemma_sdiff_named(f1, f2);
    let ds = sdiff_named(f1, f2);
    assert forall|i: int|
        0 <= i < f1.len() implies aligned((#[trigger] f1[i]).1, (#[trigger] f2[i]).1) && wf(
        f1[i].1,
    ) && wf(f2[i].1) && comparable(f1[i].1) && comparable(f2[i].1) && positional(f1[i].1)
        && positional(f2[i].1) by {}
    if all_nc_named(ds) {
        assert(sdiff(a, b) == DiffM::NoChange);
        assert forall|i: int|
            0 <= i < f1.len() implies lookup_field(f2, (#[trigger] f1[i]).0) is Some && nochange(
            f1[i].1,
            lookup_field(f2, f1[i].0)->0,
        ) by {
            assert(ds[i] == (f1[i].0, sdiff(f1[i].1, f2[i].1)));
            assert(ds[i].1 is NoChange);
            lemma_apply_inverts_diff(f1[i].1, f2[i].1);
        }
        assert forall|j: int| 0 <= j < f2.len() implies name_present(f1, (#[trigger] f2[j]).0) by {
            assert(0 <= j < f1.len() && f1[j].0 == f2[j].0);
        }
        assert(named_nochange(f1, f2));
        assert(crate::model::variant_nochange(
            VariantVal::Struct(f1),
            VariantVal::Struct(f2),
        ));
        assert(nochange(a, b));
    } else {
        assert(sdiff(a, b) == DiffM::Modified(
            crate::diff_model::DeltaM::Enum(
                crate::diff_model::EnumDiffM::Struct { name: n1, fields: ds },
            ),
        ));
        assert(f1.skip(0) =~= f1);
        assert(sdiff_named(f1.skip(0), f2) == ds);
        lemma_apply_inverts_named_from(f1, f2, f1, 0);
        let rs = sapply_named(ds, f1)->Ok_0;
        assert(sapply(sdiff(a, b), a) == Result::<Val, ApplyErr>::Ok(
            Val::Enum { name: n1, variant: v1, data: VariantVal::Struct(rs) },
        ));
        assert forall|i: int|
            0 <= i < rs.len() implies lookup_field(f2, (#[trigger] rs[i]).0) is Some && nochange(
            rs[i].1,
            lookup_field(f2, rs[i].0)->0,
        ) by {
            assert(rs[i].0 == f1[i].0);
            assert(nochange(rs[i].1, f2[i].1));
        }
        assert forall|j: int| 0 <= j < f2.len() implies name_present(rs, (#[trigger] f2[j]).0) by {
            assert(0 <= j < rs.len() && rs[j].0 == f2[j].0);
        }
        assert(named_nochange(rs, f2));
        assert(crate::model::variant_nochange(
            VariantVal::Struct(rs),
            VariantVal::Struct(f2),
        ));
        assert(nochange(Val::Enum { name: n1, variant: v1, data: VariantVal::Struct(rs) }, b));
    }
}

/// When every key of the new entries is already present among the old
/// ones, the insertion pass of the map diff contributes no edit.
proof fn lemma_map_ins_none(b: Seq<(Val, Val)>, a: Seq<(Val, Val)>)
    requires
        forall|j: int| 0 <= j < b.len() ==> lookup_entry(a, (#[trigger] b[j]).0) is Some,
    ensures
        map_ins(b, a) =~= Seq::<MapEditM>::empty(),
    decreases b,
{
    if b.len() > 0 {
        assert(lookup_entry(a, b[0].0) is Some);
        assert forall|j: int|
            0 <= j < b.drop_first().len() implies lookup_entry(
            a,
            (#[trigger] b.drop_first()[j]).0,
        ) is Some by {
            assert(b.drop_first()[j] == b[j + 1]);
        }
        lemma_map_ins_none(b.drop_first(), a);
    }
}

/// When every old key is key-matched in the new entries and every per-key
/// sub-diff reports no change, the modification pass of the map diff
/// contributes no edit — and conversely, an empty modification pass means
/// every per-key sub-diff reported no change.
proof fn lemma_map_mods_all_nc(e1: Seq<(Val, Val)>, e2: Seq<(Val, Val)>)
    requires
        forall|i: int| 0 <= i < e1.len() ==> lookup_entry(e2, (#[trigger] e1[i]).0) is Some,
        map_mods(e1, e2).len() == 0,
    ensures
        forall|i: int|
            0 <= i < e1.len() ==> sdiff(
                (#[trigger] e1[i]).1,
                lookup_entry(e2, e1[i].0)->0,
            ) is NoChange,
    decreases e1,
{
    if e1.len() > 0 {
        let d = sdiff(e1[0].1, lookup_entry(e2, e1[0].0)->0);
        assert(d is NoChange);
        assert forall|i: int|
            0 <= i < e1.drop_first().len() implies lookup_entry(
            e2,
            (#[trigger] e1.drop_first()[i]).0,
        ) is Some by {
            assert(e1.drop_first()[i] == e1[i + 1]);
        }
        lemma_map_mods_all_nc(e1.drop_first(), e2);
        assert forall|i: int|
            0 <= i < e1.len() implies sdiff(
            (#[trigger] e1[i]).1,
            lookup_entry(e2, e1[i].0)->0,
        ) is NoChange by {
            if i > 0 {
                assert(e1.drop_first()[i - 1] == e1[i]);
            }
        }
    }
}

/// The keyed apply path inverts the modification pass of the map diff:
/// for old entries each key-matched in the new entries, with positional
/// well-formed values, applying the modification edits onto the old
/// entries succeeds, keeps the keys, and yields values that pairwise diff
/// as no change against their key-matched new values.  The walk is
/// parameterized by the position `k` already processed.
proof fn lemma_apply_inverts_map_mods(
    e1: Seq<(Val, Val)>,
    e2: Seq<(Val, Val)>,
    base: Seq<(Val, Val)>,
    k: int,
)
    requires
        0 <= k <= e1.len(),
        base.len() == e1.len(),
        unique_keys(e1),
        forall|i: int| 0 <= i < e1.len() ==> comparable((#[trigger] e1[i]).0),
        forall|i: int| 0 <= i < e1.len() ==> (#[trigger] base[i]).0 == e1[i].0,
        forall|i: int| k <= i < e1.len() ==> (#[trigger] base[i]).1 == e1[i].1,
        forall|i: int| 0 <= i < e1.len() ==> lookup_entry(e2, (#[trigger] e1[i]).0) is Some,
        forall|i: int|
            0 <= i < e1.len() ==> positional((#[trigger] e1[i]).1) && wf(e1[i].1) && comparable(
                e1[i].1,
            ),
        forall|i: int|
            0 <= i < e1.len() ==> positional(lookup_entry(e2, (#[trigger] e1[i]).0)->0) && wf(
                lookup_entry(e2, e1[i].0)->0,
            ) && comparable(lookup_entry(e2, e1[i].0)->0),
        forall|i: int|
            0 <= i < e1.len() ==> aligned(
                (#[trigger] e1[i]).1,
                lookup_entry(e2, e1[i].0)->0,
            ),
    ensures
        sapply_map(map_mods(e1.skip(k), e2), base) is Ok,
        sapply_map(map_mods(e1.skip(k), e2), base)->Ok_0.len() == base.len(),
        forall|i: int|
            0 <= i < base.len() ==> (#[trigger] sapply_map(
                map_mods(e1.skip(k), e2),
                base,
            )->Ok_0[i]).0 == base[i].0,
        forall|i: int|
            k <= i < e1.len() ==> nochange(
                (#[trigger] sapply_map(map_mods(e1.skip(k), e2), base)->Ok_0[i]).1,
                lookup_entry(e2, e1[i].0)->0,
            ),
        forall|i: int|
            0 <= i < k ==> (#[trigger] sapply_map(
                map_mods(e1.skip(k), e2),
                base,
            )->Ok_0[i]).1 == base[i].1,
    decreases e1.len() - k,
{
    if k == e1.len() {
        assert(e1.skip(k).len() == 0);
        assert(map_mods(e1.skip(k), e2) =~= Seq::<MapEditM>::empty());
        assert(sapply_map(map_mods(e1.skip(k), e2), base) == Result::<
            Seq<(Val, Val)>,
            ApplyErr,
        >::Ok(base));
    } else {
        crate::lemmas::lemma_skip_step(e1, k);
        assert(e1.skip(k)[0] == e1[k]);
        assert(e1.skip(k).drop_first() =~= e1.skip(k + 1));
        let v2 = lookup_entry(e2, e1[k].0)->0;
        let d = sdiff(e1[k].1, v2);
        lemma_apply_inverts_diff(e1[k].1, v2);
        if d is NoChange {
            assert(map_mods(e1.skip(k), e2) == map_mods(e1.skip(k + 1), e2));
            lemma_apply_inverts_map_mods(e1, e2, base, k + 1);
            let r = sapply_map(map_mods(e1.skip(k + 1), e2), base)->Ok_0;
            assert forall|i: int| k <= i < e1.len() implies nochange(
                (#[trigger] r[i]).1,
                lookup_entry(e2, e1[i].0)->0,
            ) by {
                if i == k {
                    assert(r[k].1 == base[k].1);
                    assert(base[k].1 == e1[k].1);
                    assert(nochange(e1[k].1, v2));
                }
            }
        } else {
            assert(map_mods(e1.skip(k), e2) == seq![MapEditM::Modified(e1[k].0, d)]
                + map_mods(e1.skip(k + 1), e2));
            let edits = map_mods(e1.skip(k), e2);
            assert(edits[0] == MapEditM::Modified(e1[k].0, d));
            assert(edits.drop_first() =~= map_mods(e1.skip(k + 1), e2));
            // the edit looks the key up in the evolving base, whose keys
            // never change; uniqueness pins the match to position k
            lemma_veq_refl(e1[k].0);
            assert forall|j: int| 0 <= j < k implies !veq((#[trigger] base[j]).0, e1[k].0) by {
                assert(base[j].0 == e1[j].0);
                assert(!veq(e1[j].0, e1[k].0));
            }
            assert(veq(base[k].0, e1[k].0));
            lemma_lookup_entry_at(base, e1[k].0, k);
            assert(lookup_entry(base, e1[k].0) == Option::Some(base[k].1));
            assert(base[k].1 == e1[k].1);
            let w = sapply(d, e1[k].1)->Ok_0;
            lemma_update_entry_at(base, e1[k].0, w, k);
            let base2 = update_entry(base, e1[k].0, w);
            assert(base2 =~= base.update(k, (base[k].0, w)));
            assert(sapply_map(edits, base) == sapply_map(edits.drop_first(), base2));
            assert(base2.len() == e1.len());
            assert forall|i: int| 0 <= i < e1.len() implies (#[trigger] base2[i]).0 == e1[
                i].0 by {
                if i != k {
                    assert(base2[i] == base[i]);
                } else {
                    assert(base2[k].0 == base[k].0);
                }
            }
            assert forall|i: int| k + 1 <= i < e1.len() implies (#[trigger] base2[i]).1 == e1[
                i].1 by {
                assert(base2[i] == base[i]);
            }
            lemma_apply_inverts_map_mods(e1, e2, base2, k + 1);
            let r = sapply_map(map_mods(e1.skip(k + 1), e2), base2)->Ok_0;
            assert forall|i: int| k <= i < e1.len() implies nochange(
                (#[trigger] r[i]).1,
                lookup_entry(e2, e1[i].0)->0,
            ) by {
                if i == k {
                    assert(r[k].1 == base2[k].1);
                    assert(base2[k].1 == w);
                    assert(nochange(w, v2));
                }
            }
        }
    }
}

/// Positionality of every value of a map-entry sequence.
pub open spec fn entries_positional(s: Seq<(Val, Val)>) -> bool {
    forall|i: int| 0 <= i < s.len() ==> positional((#[trigger] s[i]).1)
}

/// The apply-inverts-diff law for maps over positional entry values whose
/// key sets coincide, so that no entry is inserted or deleted: applying
/// the diff of map `a` against same-named map `b` back onto `a` succeeds
/// and yields a value whose diff against `b` reports no change.
pub proof fn lemma_apply_inverts_map_diff(a: Val, b: Val)
    requires
        a is Mapping,
        b is Mapping,
        a->Mapping_name == b->Mapping_name,
        forall|i: int|
            0 <= i < a->Mapping_entries.len() ==> lookup_entry(
                b->Mapping_entries,
                (#[trigger] a->Mapping_entries[i]).0,
            ) is Some,
        forall|j: int|
            0 <= j < b->Mapping_entries.len() ==> lookup_entry(
                a->Mapping_entries,
                (#[trigger] b->Mapping_entries[j]).0,
            ) is Some,
        entries_positional(a->Mapping_entries),
        entries_positional(b->Mapping_entries),
        wf(a),
        wf(b),
        comparable(a),
        comparable(b),
        aligned(a, b),
    ensures
        sapply(sdiff(a, b), a) is Ok,
        nochange(sapply(sdiff(a, b), a)->Ok_0, b),
{
    let n1 = a->Mapping_name;
    let e1 = a->Mapping_entries;
    let e2 = b->Mapping_entries;
    assert(a == Val::Mapping { name: n1, entries: e1 });
    assert(b == Val::Mapping { name: n1, entries: e2 });
    assert(unique_keys(e1) && unique_keys(e2));
    assert(entries_wf(e1) && entries_wf(e2));
    assert(entries_comparable(e1) && entries_comparable(e2));
    // resolve each old key's match in the new entries to a position, so
    // the pairwise alignment premise reaches the looked-up value
    assert forall|i: int|
        0 <= i < e1.len() implies positional(lookup_entry(e2, (#[trigger] e1[i]).0)->0) && wf(
        lookup_entry(e2, e1[i].0)->0,
    ) && comparable(lookup_entry(e2, e1[i].0)->0) && aligned(
        e1[i].1,
        lookup_entry(e2, e1[i].0)->0,
    ) by {
        lemma_lookup_entry_found(e2, e1[i].0);
        let w = choose|w: int|
            0 <= w < e2.len() && veq((#[trigger] e2[w]).0, e1[i].0) && lookup_entry(e2, e1[i].0)
                == Option::Some(e2[w].1);
        assert(aligned(e1[i].1, e2[w].1));
    }
    lemma_map_ins_none(e2, e1);
    let edits = map_mods(e1, e2) + map_ins(e2, e1);
    assert(edits =~= map_mods(e1, e2));
    if edits.len() == 0 {
        assert(sdiff(a, b) == DiffM::NoChange);
        lemma_map_mods_all_nc(e1, e2);
        assert forall|i: int|
            0 <= i < e1.len() implies lookup_entry(e2, (#[trigger] e1[i]).0) is Some && nochange(
            e1[i].1,
            lookup_entry(e2, e1[i].0)->0,
        ) by {
            lemma_apply_inverts_diff(e1[i].1, lookup_entry(e2, e1[i].0)->0);
        }
        assert forall|j: int| 0 <= j < e2.len() implies key_present(e1, (#[trigger] e2[j]).0) by {
            lemma_lookup_entry_found(e1, e2[j].0);
        }
        assert(entries_nochange(e1, e2));
        assert(nochange(a, b));
    } else {
        assert(sdiff(a, b) == DiffM::Modified(
            crate::diff_model::DeltaM::Mapping { name: n1, edits },
        ));
        assert(e1.skip(0) =~= e1);
        assert(map_mods(e1.skip(0), e2) == map_mods(e1, e2));
        lemma_apply_inverts_map_mods(e1, e2, e1, 0);
        let rs = sapply_map(map_mods(e1, e2), e1)->Ok_0;
        assert(sapply_map(edits, e1) == sapply_map(map_mods(e1, e2), e1));
        assert(sapply(sdiff(a, b), a) == Result::<Val, ApplyErr>::Ok(
            Val::Mapping { name: n1, entries: rs },
        ));
        assert forall|i: int|
            0 <= i < rs.len() implies lookup_entry(e2, (#[trigger] rs[i]).0) is Some && nochange(
            rs[i].1,
            lookup_entry(e2, rs[i].0)->0,
        ) by {
            assert(rs[i].0 == e1[i].0);
            assert(nochange(rs[i].1, lookup_entry(e2, e1[i].0)->0));
        }
        assert forall|j: int| 0 <= j < e2.len() implies key_present(rs, (#[trigger] e2[j]).0) by {
            lemma_lookup_entry_found(e1, e2[j].0);
            let w = choose|w: int| 0 <= w < e1.len() && veq((#[trigger] e1[w]).0, e2[j].0);
            assert(rs[w].0 == e1[w].0);
        }
        assert(entries_nochange(rs, e2));
        assert(nochange(Val::Mapping { name: n1, entries: rs }, b));
    }
}

} // verus!
