//! Supporting lemmas about the model-level lookups and the diff
//! specification, used by the engine proofs.

use vstd::prelude::*;

use crate::diff_model::{
    insert_entry, remove_entry, sdiff, sdiff_named, sdiff_seq, update_entry, update_field, DiffM,
};
use crate::model::{
    aligned, comparable, diffable, entries_comparable, entries_diffable, entries_wf,
    lookup_entry, lookup_field, named_aligned, named_comparable, named_diffable, named_wf,
    nc_unsupported, unique_names, veq, Val, VariantVal,
};

verus! {

/// A suffix relates to the next suffix by dropping its first element.
pub proof fn lemma_skip_step<T>(s: Seq<T>, i: int)
    requires
        0 <= i < s.len(),
    ensures
        s.skip(i).len() == s.len() - i,
        s.skip(i)[0] == s[i],
        s.skip(i).drop_first() =~= s.skip(i + 1),
{
}

/// When the first field named `n` stands at position `i`, the lookup
/// returns its value.
pub proof fn lemma_lookup_field_at(s: Seq<(Seq<char>, Val)>, n: Seq<char>, i: int)
    requires
        0 <= i < s.len(),
        s[i].0 == n,
        forall|k: int| 0 <= k < i ==> (#[trigger] s[k]).0 != n,
    ensures
        lookup_field(s, n) == Option::Some(s[i].1),
    decreases s,
{
    if i > 0 {
        assert(s[0].0 != n);
        lemma_lookup_field_at(s.drop_first(), n, i - 1);
    }
}

/// When no field is named `n`, the lookup fails.
pub proof fn lemma_lookup_field_none(s: Seq<(Seq<char>, Val)>, n: Seq<char>)
    requires
        forall|k: int| 0 <= k < s.len() ==> (#[trigger] s[k]).0 != n,
    ensures
        lookup_field(s, n) is None,
    decreases s,
{
    if s.len() > 0 {
        lemma_lookup_field_none(s.drop_first(), n);
    }
}

/// When the first entry whose key equals `k` stands at position `i`, the
/// lookup returns its value.
pub proof fn lemma_lookup_entry_at(s: Seq<(Val, Val)>, k: Val, i: int)
    requires
        0 <= i < s.len(),
        veq(s[i].0, k),
        forall|j: int| 0 <= j < i ==> !veq((#[trigger] s[j]).0, k),
    ensures
        lookup_entry(s, k) == Option::Some(s[i].1),
    decreases s,
{
    if i > 0 {
        assert(!veq(s[0].0, k));
        lemma_lookup_entry_at(s.drop_first(), k, i - 1);
    }
}

/// When no entry's key equals `k`, the lookup fails.
pub proof fn lemma_lookup_entry_none(s: Seq<(Val, Val)>, k: Val)
    requires
        forall|j: int| 0 <= j < s.len() ==> !veq((#[trigger] s[j]).0, k),
    ensures
        lookup_entry(s, k) is None,
    decreases s,
{
    if s.len() > 0 {
        lemma_lookup_entry_none(s.drop_first(), k);
    }
}

/// Elementwise characterization of [`sdiff_seq`] on sequences of one
/// length.
pub proof fn lemma_sdiff_seq(a: Seq<Val>, b: Seq<Val>)
    requires
        a.len() == b.len(),
    ensures
        sdiff_seq(a, b).len() == a.len(),
        forall|i: int| 0 <= i < a.len() ==> sdiff_seq(a, b)[i] == sdiff(#[trigger] a[i], b[i]),
    decreases a,
{
    if a.len() > 0 {
        lemma_sdiff_seq(a.drop_first(), b.drop_first());
        assert forall|i: int|
            0 <= i < a.len() implies sdiff_seq(a, b)[i] == sdiff(#[trigger] a[i], b[i]) by {
            if i > 0 {
                assert(a.drop_first()[i - 1] == a[i]);
                assert(b.drop_first()[i - 1] == b[i]);
                assert(sdiff_seq(a, b)[i] == sdiff_seq(a.drop_first(), b.drop_first())[i - 1]);
            }
        }
    }
}

/// Elementwise characterization of [`sdiff_named`].
pub proof fn lemma_sdiff_named(a: Seq<(Seq<char>, Val)>, b: Seq<(Seq<char>, Val)>)
    ensures
        sdiff_named(a, b).len() == a.len(),
        forall|i: int|
            0 <= i < a.len() ==> sdiff_named(a, b)[i] == (
                (#[trigger] a[i]).0,
                match lookup_field(b, a[i].0) {
                    Option::Some(v2) => sdiff(a[i].1, v2),
                    Option::None => DiffM::NoChange,
                },
            ),
    decreases a,
{
    if a.len() > 0 {
        lemma_sdiff_named(a.drop_first(), b);
        assert forall|i: int|
            0 <= i < a.len() implies sdiff_named(a, b)[i] == (
            (#[trigger] a[i]).0,
            match lookup_field(b, a[i].0) {
                Option::Some(v2) => sdiff(a[i].1, v2),
                Option::None => DiffM::NoChange,
            },
        ) by {
            if i > 0 {
                assert(a.drop_first()[i - 1] == a[i]);
                assert(sdiff_named(a, b)[i] == sdiff_named(a.drop_first(), b)[i - 1]);
            }
        }
    }
}


/// Positionally aligned named fields with unique names in the new sequence
/// admit the struct diff's by-name pairing.
pub proof fn lemma_named_diffable(a: Seq<(Seq<char>, Val)>, b: Seq<(Seq<char>, Val)>)
    requires
        named_aligned(a, b),
        unique_names(b),
        named_comparable(a),
        named_comparable(b),
        named_wf(a),
        named_wf(b),
    ensures
        named_diffable(a, b),
{
    assert forall|i: int|
        0 <= i < a.len() implies lookup_field(b, (#[trigger] a[i]).0) is Some && diffable(
        a[i].1,
        lookup_field(b, a[i].0)->0,
    ) by {
        assert(b[i].0 == a[i].0 && aligned(a[i].1, b[i].1));
        assert forall|k: int| 0 <= k < i implies (#[trigger] b[k]).0 != a[i].0 by {
            assert(b[k].0 != b[i].0);
        }
        lemma_lookup_field_at(b, a[i].0, i);
    }
}

/// Aligned map entries with unique keys admit the map diff's key pairing.
pub proof fn lemma_entries_diffable(a: Seq<(Val, Val)>, b: Seq<(Val, Val)>)
    requires
        forall|i: int, j: int|
            0 <= i < a.len() && 0 <= j < b.len() && veq(
                (#[trigger] b[j]).0,
                (#[trigger] a[i]).0,
            ) ==> aligned(a[i].1, b[j].1),
        entries_comparable(a),
        entries_comparable(b),
        entries_wf(a),
        entries_wf(b),
    ensures
        entries_diffable(a, b),
{
    assert forall|i: int|
        0 <= i < a.len() && lookup_entry(b, (#[trigger] a[i]).0) is Some implies diffable(
        a[i].1,
        lookup_entry(b, a[i].0)->0,
    ) by {
        lemma_lookup_entry_found(b, a[i].0);
        let w = choose|w: int|
            0 <= w < b.len() && veq((#[trigger] b[w]).0, a[i].0) && lookup_entry(b, a[i].0)
                == Option::Some(b[w].1);
        assert(aligned(a[i].1, b[w].1));
    }
}

/// A successful entry lookup returns the value of some entry whose key
/// matches.
pub proof fn lemma_lookup_entry_found(s: Seq<(Val, Val)>, k: Val)
    requires
        lookup_entry(s, k) is Some,
    ensures
        exists|w: int|
            0 <= w < s.len() && veq((#[trigger] s[w]).0, k) && lookup_entry(s, k)
                == Option::Some(s[w].1),
    decreases s,
{
    if s.len() > 0 {
        if veq(s[0].0, k) {
            assert(0 <= 0 < s.len() && veq((s[0]).0, k) && lookup_entry(s, k) == Option::Some(
                s[0].1,
            ));
        } else {
            lemma_lookup_entry_found(s.drop_first(), k);
            let w = choose|w: int|
                0 <= w < s.drop_first().len() && veq((#[trigger] s.drop_first()[w]).0, k)
                    && lookup_entry(s.drop_first(), k) == Option::Some(s.drop_first()[w].1);
            assert(s.drop_first()[w] == s[w + 1]);
            assert(0 <= w + 1 < s.len() && veq((s[w + 1]).0, k) && lookup_entry(s, k)
                == Option::Some(s[w + 1].1));
        }
    }
}


/// When the first field named `n` stands at position `i`, updating by name
/// updates that position.
pub proof fn lemma_update_field_at(s: Seq<(Seq<char>, Val)>, n: Seq<char>, v: Val, i: int)
    requires
        0 <= i < s.len(),
        s[i].0 == n,
        forall|k: int| 0 <= k < i ==> (#[trigger] s[k]).0 != n,
    ensures
        update_field(s, n, v) =~= s.update(i, (s[i].0, v)),
    decreases s,
{
    if i > 0 {
        assert(s[0].0 != n);
        lemma_update_field_at(s.drop_first(), n, v, i - 1);
        assert(update_field(s, n, v) =~= seq![s[0]] + s.drop_first().update(i - 1, (s[i].0, v)));
    }
}

/// When the first entry whose key equals `k` stands at position `i`,
/// updating by key rewrites exactly that position.
pub proof fn lemma_update_entry_at(s: Seq<(Val, Val)>, k: Val, v: Val, i: int)
    requires
        0 <= i < s.len(),
        veq(s[i].0, k),
        forall|j: int| 0 <= j < i ==> !veq((#[trigger] s[j]).0, k),
    ensures
        update_entry(s, k, v) =~= s.update(i, (s[i].0, v)),
    decreases s,
{
    if i > 0 {
        assert(!veq(s[0].0, k));
        lemma_update_entry_at(s.drop_first(), k, v, i - 1);
        assert(update_entry(s, k, v) =~= seq![s[0]] + s.drop_first().update(i - 1, (s[i].0, v)));
    }
}

/// When no field is named `n`, updating by name changes nothing.
pub proof fn lemma_update_field_none(s: Seq<(Seq<char>, Val)>, n: Seq<char>, v: Val)
    requires
        forall|k: int| 0 <= k < s.len() ==> (#[trigger] s[k]).0 != n,
    ensures
        update_field(s, n, v) =~= s,
    decreases s,
{
    if s.len() > 0 {
        lemma_update_field_none(s.drop_first(), n, v);
    }
}

/// When the first entry whose key equals `k` stands at position `i`,
/// removal removes that position.
pub proof fn lemma_remove_entry_at(s: Seq<(Val, Val)>, k: Val, i: int)
    requires
        0 <= i < s.len(),
        veq(s[i].0, k),
        forall|j: int| 0 <= j < i ==> !veq((#[trigger] s[j]).0, k),
    ensures
        remove_entry(s, k) =~= s.remove(i),
    decreases s,
{
    if i > 0 {
        assert(!veq(s[0].0, k));
        lemma_remove_entry_at(s.drop_first(), k, i - 1);
        assert(remove_entry(s, k) =~= seq![s[0]] + s.drop_first().remove(i - 1));
    }
}

/// When no entry's key equals `k`, removal changes nothing.
pub proof fn lemma_remove_entry_none(s: Seq<(Val, Val)>, k: Val)
    requires
        forall|j: int| 0 <= j < s.len() ==> !veq((#[trigger] s[j]).0, k),
    ensures
        remove_entry(s, k) =~= s,
    decreases s,
{
    if s.len() > 0 {
        lemma_remove_entry_none(s.drop_first(), k);
    }
}

/// When the first entry whose key equals `k` stands at position `i`,
/// insertion overwrites that position's value.
pub proof fn lemma_insert_entry_at(s: Seq<(Val, Val)>, k: Val, v: Val, i: int)
    requires
        0 <= i < s.len(),
        veq(s[i].0, k),
        forall|j: int| 0 <= j < i ==> !veq((#[trigger] s[j]).0, k),
    ensures
        insert_entry(s, k, v) =~= s.update(i, (s[i].0, v)),
        update_entry(s, k, v) =~= s.update(i, (s[i].0, v)),
    decreases s,
{
    if i > 0 {
        assert(!veq(s[0].0, k));
        lemma_insert_entry_at(s.drop_first(), k, v, i - 1);
        assert(insert_entry(s, k, v) =~= seq![s[0]] + s.drop_first().update(i - 1, (s[i].0, v)));
        assert(update_entry(s, k, v) =~= seq![s[0]] + s.drop_first().update(i - 1, (s[i].0, v)));
    }
}

/// When no entry's key equals `k`, insertion appends and updating changes
/// nothing.
pub proof fn lemma_insert_entry_none(s: Seq<(Val, Val)>, k: Val, v: Val)
    requires
        forall|j: int| 0 <= j < s.len() ==> !veq((#[trigger] s[j]).0, k),
    ensures
        insert_entry(s, k, v) =~= s.push((k, v)),
        update_entry(s, k, v) =~= s,
    decreases s,
{
    if s.len() > 0 {
        lemma_insert_entry_none(s.drop_first(), k, v);
        assert(insert_entry(s, k, v) =~= seq![s[0]] + s.drop_first().push((k, v)));
    }
}


/// A value that fully supports the equality probe never drives a no-change
/// test into an unsupported comparison, whatever it is tested against.
pub proof fn lemma_comparable_not_unsupported(a: Val, b: Val)
    requires
        comparable(a),
    ensures
        !nc_unsupported(a, b),
    decreases a, 1int,
{
    match (a, b) {
        (Val::Tuple { fields: f1, .. }, Val::Tuple { fields: f2, .. }) => {
            lemma_seq_not_unsupported(f1, f2);
        },
        (Val::Array { elems: e1, .. }, Val::Array { elems: e2, .. }) => {
            lemma_seq_not_unsupported(e1, e2);
        },
        (Val::List { elems: e1, .. }, Val::List { elems: e2, .. }) => {
            assert forall|i: int, j: int|
                0 <= i < e1.len() && 0 <= j < e2.len() implies !nc_unsupported(
                #[trigger] e1[i],
                #[trigger] e2[j],
            ) by {
                lemma_comparable_not_unsupported(e1[i], e2[j]);
            }
        },
        (Val::Mapping { entries: e1, .. }, Val::Mapping { entries: e2, .. }) => {
            assert forall|i: int|
                0 <= i < e1.len() && lookup_entry(e2, (#[trigger] e1[i]).0) is Some
                implies !nc_unsupported(e1[i].1, lookup_entry(e2, e1[i].0)->0) by {
                lemma_comparable_not_unsupported(e1[i].1, lookup_entry(e2, e1[i].0)->0);
            }
        },
        (Val::TupleStruct { fields: f1, .. }, Val::TupleStruct { fields: f2, .. }) => {
            lemma_seq_not_unsupported(f1, f2);
        },
        (Val::Struct { fields: f1, .. }, Val::Struct { fields: f2, .. }) => {
            lemma_named_not_unsupported(f1, f2);
        },
        (Val::Enum { data: d1, .. }, Val::Enum { data: d2, .. }) => {
            match (d1, d2) {
                (VariantVal::Tuple(f1), VariantVal::Tuple(f2)) => {
                    lemma_seq_not_unsupported(f1, f2);
                },
                (VariantVal::Struct(f1), VariantVal::Struct(f2)) => {
                    lemma_named_not_unsupported(f1, f2);
                },
                _ => {},
            }
        },
        _ => {},
    }
}

/// Comparable elements admit no unsupported positional pair.
proof fn lemma_seq_not_unsupported(a: Seq<Val>, b: Seq<Val>)
    requires
        crate::model::seq_comparable(a),
    ensures
        !crate::model::seq_unsupported(a, b),
    decreases a, 0int,
{
    assert forall|i: int| 0 <= i < a.len() && i < b.len() implies !nc_unsupported(
        #[trigger] a[i],
        b[i],
    ) by {
        lemma_comparable_not_unsupported(a[i], b[i]);
    }
}

/// Comparable field values admit no unsupported by-name pair.
proof fn lemma_named_not_unsupported(a: Seq<(Seq<char>, Val)>, b: Seq<(Seq<char>, Val)>)
    requires
        named_comparable(a),
    ensures
        !crate::model::named_unsupported(a, b),
    decreases a, 0int,
{
    assert forall|i: int|
        0 <= i < a.len() && lookup_field(b, (#[trigger] a[i]).0) is Some implies !nc_unsupported(
        a[i].1,
        lookup_field(b, a[i].0)->0,
    ) by {
        lemma_comparable_not_unsupported(a[i].1, lookup_field(b, a[i].0)->0);
    }
}

} // verus!
