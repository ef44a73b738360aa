//! The equality capability of the data model.
//!
//! [`value_eq`] decides observational equality ([`crate::model::veq`]) of two
//! values; [`Value::reflect_partial_eq`] is the optional probe of the public
//! API, which answers `None` when either side contains an `Opaque` leaf.

use vstd::prelude::*;

use crate::model::{
    comparable, entries_comparable, entries_sub_rel, entries_sup_rel, entries_veq, leaf_veq,
    named_comparable, named_sub_rel, named_sup_rel, named_veq, seq_comparable, seq_veq,
    variant_veq, veq, Val, VariantVal,
};
use crate::value::{
    entries_vmodel, lemma_entries_vmodel, lemma_named_vmodel, lemma_seq_vmodel, named_vmodel,
    seq_vmodel, DynamicEnum, DynamicTuple, Leaf, Value, VariantData,
};

verus! {

broadcast use lemma_seq_vmodel, lemma_named_vmodel, lemma_entries_vmodel;

/// Equality of two leaves; `false` whenever either is `Opaque`.
pub fn leaf_eq(a: &Leaf, b: &Leaf) -> (r: bool)
    ensures
        r == leaf_veq(a.lmodel(), b.lmodel()),
{
    match (a, b) {
        (Leaf::Bool(x), Leaf::Bool(y)) => *x == *y,
        (Leaf::I8(x), Leaf::I8(y)) => *x == *y,
        (Leaf::I16(x), Leaf::I16(y)) => *x == *y,
        (Leaf::I32(x), Leaf::I32(y)) => *x == *y,
        (Leaf::I64(x), Leaf::I64(y)) => *x == *y,
        (Leaf::ISize(x), Leaf::ISize(y)) => *x == *y,
        (Leaf::U8(x), Leaf::U8(y)) => *x == *y,
        (Leaf::U16(x), Leaf::U16(y)) => *x == *y,
        (Leaf::U32(x), Leaf::U32(y)) => *x == *y,
        (Leaf::U64(x), Leaf::U64(y)) => *x == *y,
        (Leaf::USize(x), Leaf::USize(y)) => *x == *y,
        (Leaf::Str(x), Leaf::Str(y)) => *x == *y,
        (Leaf::F32Bits(x), Leaf::F32Bits(y)) => *x == *y,
        (Leaf::F64Bits(x), Leaf::F64Bits(y)) => *x == *y,
        _ => false,
    }
}

/// Observational equality of two values.
pub fn value_eq(a: &Value, b: &Value) -> (r: bool)
    ensures
        r == veq(a.vmodel(), b.vmodel()),
    decreases a, 0int,
{
    match (a, b) {
        (Value::Leaf(x), Value::Leaf(y)) => leaf_eq(x, y),
        (Value::Tuple(t1), Value::Tuple(t2)) => seq_values_eq(&t1.fields, &t2.fields),
        (Value::Array(a1), Value::Array(a2)) => seq_values_eq(&a1.elements, &a2.elements),
        (Value::List(l1), Value::List(l2)) => seq_values_eq(&l1.elements, &l2.elements),
        (Value::Mapping(m1), Value::Mapping(m2)) => entries_eq(&m1.entries, &m2.entries),
        (Value::TupleStruct(t1), Value::TupleStruct(t2)) => seq_values_eq(
            &t1.fields,
            &t2.fields,
        ),
        (Value::Struct(s1), Value::Struct(s2)) => named_fields_eq(&s1.fields, &s2.fields),
        (Value::Enum(e1), Value::Enum(e2)) => e1.variant_name == e2.variant_name
            && variant_data_eq(&e1.data, &e2.data),
        _ => false,
    }
}

/// Positional equality of two field vectors.
fn seq_values_eq(a: &Vec<Value>, b: &Vec<Value>) -> (r: bool)
    ensures
        r == seq_veq(seq_vmodel(a@), seq_vmodel(b@)),
    decreases a, 1int,
{
    if a.len() != b.len() {
        return false;
    }
    let mut i: usize = 0;
    while i < a.len()
        invariant
            i <= a.len(),
            a@.len() == b@.len(),
            forall|k: int|
                0 <= k < i ==> veq(#[trigger] seq_vmodel(a@)[k], seq_vmodel(b@)[k]),
        decreases a.len() - i,
    {
        if !value_eq(&a[i], &b[i]) {
            assert(!veq(seq_vmodel(a@)[i as int], seq_vmodel(b@)[i as int]));
            return false;
        }
        i += 1;
    }
    true
}

/// Whether some field of `b` carries `name` with a value equal to `val`.
fn named_has_match(b: &Vec<(String, Value)>, name: &String, val: &Value) -> (r: bool)
    ensures
        r == (exists|j: int|
            0 <= j < named_vmodel(b@).len() && (#[trigger] named_vmodel(b@)[j]).0 == name@ && veq(
                val.vmodel(),
                named_vmodel(b@)[j].1,
            )),
    decreases val, 1int,
{
    let mut j: usize = 0;
    while j < b.len()
        invariant
            j <= b.len(),
            forall|j2: int|
                0 <= j2 < j ==> !((#[trigger] named_vmodel(b@)[j2]).0 == name@ && veq(
                    val.vmodel(),
                    named_vmodel(b@)[j2].1,
                )),
        decreases b.len() - j,
    {
        if b[j].0 == *name && value_eq(val, &b[j].1) {
            assert((named_vmodel(b@)[j as int]).0 == name@ && veq(
                val.vmodel(),
                named_vmodel(b@)[j as int].1,
            ));
            return true;
        }
        j += 1;
    }
    false
}

/// Whether some field of `a` carries `name` with a value equal to `bval`,
/// comparing with the `a` side on the left.
fn named_has_match_rev(a: &Vec<(String, Value)>, name: &String, bval: &Value) -> (r: bool)
    ensures
        r == (exists|i: int|
            0 <= i < named_vmodel(a@).len() && (#[trigger] named_vmodel(a@)[i]).0 == name@ && veq(
                named_vmodel(a@)[i].1,
                bval.vmodel(),
            )),
    decreases a, 1int,
{
    let mut i: usize = 0;
    while i < a.len()
        invariant
            i <= a.len(),
            forall|i2: int|
                0 <= i2 < i ==> !((#[trigger] named_vmodel(a@)[i2]).0 == name@ && veq(
                    named_vmodel(a@)[i2].1,
                    bval.vmodel(),
                )),
        decreases a.len() - i,
    {
        if a[i].0 == *name && value_eq(&a[i].1, bval) {
            assert((named_vmodel(a@)[i as int]).0 == name@ && veq(
                named_vmodel(a@)[i as int].1,
                bval.vmodel(),
            ));
            return true;
        }
        i += 1;
    }
    false
}

/// Direction one of by-name equality: every field of `a` has a match in `b`.
fn named_fields_sub(a: &Vec<(String, Value)>, b: &Vec<(String, Value)>) -> (r: bool)
    ensures
        r == named_sub_rel(named_vmodel(a@), named_vmodel(b@)),
    decreases a, 2int,
{
    let mut i: usize = 0;
    while i < a.len()
        invariant
            i <= a.len(),
            forall|k: int|
                0 <= k < i ==> exists|j: int|
                    0 <= j < named_vmodel(b@).len() && (#[trigger] named_vmodel(a@)[k]).0 == (
                    #[trigger] named_vmodel(b@)[j]).0 && veq(
                        named_vmodel(a@)[k].1,
                        named_vmodel(b@)[j].1,
                    ),
        decreases a.len() - i,
    {
        if !named_has_match(b, &a[i].0, &a[i].1) {
            proof {
                let ki = i as int;
                assert(named_vmodel(a@)[ki] == (a@[ki].0@, a@[ki].1.vmodel()));
                assert(!(exists|j: int|
                    0 <= j < named_vmodel(b@).len() && (#[trigger] named_vmodel(a@)[ki]).0 == (
                    #[trigger] named_vmodel(b@)[j]).0 && veq(
                        named_vmodel(a@)[ki].1,
                        named_vmodel(b@)[j].1,
                    )));
            }
            return false;
        }
        i += 1;
    }
    true
}

/// Direction two of by-name equality: every field of `b` has a match in `a`.
fn named_fields_sup(a: &Vec<(String, Value)>, b: &Vec<(String, Value)>) -> (r: bool)
    ensures
        r == named_sup_rel(named_vmodel(a@), named_vmodel(b@)),
    decreases a, 2int,
{
    let mut j: usize = 0;
    while j < b.len()
        invariant
            j <= b.len(),
            forall|k: int|
                0 <= k < j ==> exists|i2: int|
                    0 <= i2 < named_vmodel(a@).len() && (#[trigger] named_vmodel(a@)[i2]).0 == (
                    #[trigger] named_vmodel(b@)[k]).0 && veq(
                        named_vmodel(a@)[i2].1,
                        named_vmodel(b@)[k].1,
                    ),
        decreases b.len() - j,
    {
        if !named_has_match_rev(a, &b[j].0, &b[j].1) {
            proof {
                let kj = j as int;
                assert(named_vmodel(b@)[kj] == (b@[kj].0@, b@[kj].1.vmodel()));
                assert(!(exists|i2: int|
                    0 <= i2 < named_vmodel(a@).len() && (#[trigger] named_vmodel(a@)[i2]).0 == (
                    #[trigger] named_vmodel(b@)[kj]).0 && veq(
                        named_vmodel(a@)[i2].1,
                        named_vmodel(b@)[kj].1,
                    )));
            }
            return false;
        }
        j += 1;
    }
    true
}

/// By-name equality of two named-field vectors, in both directions.
fn named_fields_eq(a: &Vec<(String, Value)>, b: &Vec<(String, Value)>) -> (r: bool)
    ensures
        r == named_veq(named_vmodel(a@), named_vmodel(b@)),
    decreases a, 3int,
{
    let sub = named_fields_sub(a, b);
    if !sub {
        return false;
    }
    named_fields_sup(a, b)
}

/// Whether some entry of `b` has a key equal to that of `entry` and a value
/// equal to its value.
fn entries_has_match(b: &Vec<(Value, Value)>, entry: &(Value, Value)) -> (r: bool)
    ensures
        r == (exists|j: int|
            0 <= j < entries_vmodel(b@).len() && veq(
                entry.0.vmodel(),
                (#[trigger] entries_vmodel(b@)[j]).0,
            ) && veq(entry.1.vmodel(), entries_vmodel(b@)[j].1)),
    decreases entry, 1int,
{
    let mut j: usize = 0;
    while j < b.len()
        invariant
            j <= b.len(),
            forall|j2: int|
                0 <= j2 < j ==> !(veq(entry.0.vmodel(), (#[trigger] entries_vmodel(b@)[j2]).0)
                    && veq(entry.1.vmodel(), entries_vmodel(b@)[j2].1)),
        decreases b.len() - j,
    {
        if value_eq(&entry.0, &b[j].0) && value_eq(&entry.1, &b[j].1) {
            assert(veq(entry.0.vmodel(), (entries_vmodel(b@)[j as int]).0) && veq(
                entry.1.vmodel(),
                entries_vmodel(b@)[j as int].1,
            ));
            return true;
        }
        j += 1;
    }
    false
}

/// Whether some entry of `a` matches `bentry`, comparing with the `a` side
/// on the left.
fn entries_has_match_rev(a: &Vec<(Value, Value)>, bentry: &(Value, Value)) -> (r: bool)
    ensures
        r == (exists|i: int|
            0 <= i < entries_vmodel(a@).len() && veq(
                (#[trigger] entries_vmodel(a@)[i]).0,
                bentry.0.vmodel(),
            ) && veq(entries_vmodel(a@)[i].1, bentry.1.vmodel())),
    decreases a, 1int,
{
    let mut i: usize = 0;
    while i < a.len()
        invariant
            i <= a.len(),
            forall|i2: int|
                0 <= i2 < i ==> !(veq((#[trigger] entries_vmodel(a@)[i2]).0, bentry.0.vmodel())
                    && veq(entries_vmodel(a@)[i2].1, bentry.1.vmodel())),
        decreases a.len() - i,
    {
        if value_eq(&a[i].0, &bentry.0) && value_eq(&a[i].1, &bentry.1) {
            assert(veq((entries_vmodel(a@)[i as int]).0, bentry.0.vmodel()) && veq(
                entries_vmodel(a@)[i as int].1,
                bentry.1.vmodel(),
            ));
            return true;
        }
        i += 1;
    }
    false
}

/// Direction one of entry-set equality: every entry of `a` has a match in `b`.
fn entries_sub(a: &Vec<(Value, Value)>, b: &Vec<(Value, Value)>) -> (r: bool)
    ensures
        r == entries_sub_rel(entries_vmodel(a@), entries_vmodel(b@)),
    decreases a, 2int,
{
    let mut i: usize = 0;
    while i < a.len()
        invariant
            i <= a.len(),
            forall|k: int|
                0 <= k < i ==> exists|j: int|
                    0 <= j < entries_vmodel(b@).len() && veq(
                        (#[trigger] entries_vmodel(a@)[k]).0,
                        (#[trigger] entries_vmodel(b@)[j]).0,
                    ) && veq(entries_vmodel(a@)[k].1, entries_vmodel(b@)[j].1),
        decreases a.len() - i,
    {
        if !entries_has_match(b, &a[i]) {
            proof {
                let ki = i as int;
                assert(entries_vmodel(a@)[ki] == (a@[ki].0.vmodel(), a@[ki].1.vmodel()));
                assert(!(exists|j: int|
                    0 <= j < entries_vmodel(b@).len() && veq(
                        (#[trigger] entries_vmodel(a@)[ki]).0,
                        (#[trigger] entries_vmodel(b@)[j]).0,
                    ) && veq(entries_vmodel(a@)[ki].1, entries_vmodel(b@)[j].1)));
            }
            return false;
        }
        i += 1;
    }
    true
}

/// Direction two of entry-set equality: every entry of `b` has a match in `a`.
fn entries_sup(a: &Vec<(Value, Value)>, b: &Vec<(Value, Value)>) -> (r: bool)
    ensures
        r == entries_sup_rel(entries_vmodel(a@), entries_vmodel(b@)),
    decreases a, 2int,
{
    let mut j: usize = 0;
    while j < b.len()
        invariant
            j <= b.len(),
            forall|k: int|
                0 <= k < j ==> exists|i2: int|
                    0 <= i2 < entries_vmodel(a@).len() && veq(
                        (#[trigger] entries_vmodel(a@)[i2]).0,
                        (#[trigger] entries_vmodel(b@)[k]).0,
                    ) && veq(entries_vmodel(a@)[i2].1, entries_vmodel(b@)[k].1),
        decreases b.len() - j,
    {
        if !entries_has_match_rev(a, &b[j]) {
            proof {
                let kj = j as int;
                assert(entries_vmodel(b@)[kj] == (b@[kj].0.vmodel(), b@[kj].1.vmodel()));
                assert(!(exists|i2: int|
                    0 <= i2 < entries_vmodel(a@).len() && veq(
                        (#[trigger] entries_vmodel(a@)[i2]).0,
                        (#[trigger] entries_vmodel(b@)[kj]).0,
                    ) && veq(entries_vmodel(a@)[i2].1, entries_vmodel(b@)[kj].1)));
            }
            return false;
        }
        j += 1;
    }
    true
}

/// Entry-set equality of two map-entry vectors, in both directions.
fn entries_eq(a: &Vec<(Value, Value)>, b: &Vec<(Value, Value)>) -> (r: bool)
    ensures
        r == entries_veq(entries_vmodel(a@), entries_vmodel(b@)),
    decreases a, 3int,
{
    let sub = entries_sub(a, b);
    if !sub {
        return false;
    }
    entries_sup(a, b)
}

/// Equality of the data of two enum variants.
fn variant_data_eq(a: &VariantData, b: &VariantData) -> (r: bool)
    ensures
        r == variant_veq(a.dmodel(), b.dmodel()),
    decreases a, 2int,
{
    match (a, b) {
        (VariantData::Unit, VariantData::Unit) => true,
        (VariantData::Tuple(f1), VariantData::Tuple(f2)) => seq_values_eq(f1, f2),
        (VariantData::Struct(f1), VariantData::Struct(f2)) => named_fields_eq(f1, f2),
        _ => false,
    }
}

/// Whether a value fully supports the equality probe.
pub fn is_comparable(v: &Value) -> (r: bool)
    ensures
        r == comparable(v.vmodel()),
    decreases v,
{
    match v {
        Value::Leaf(l) => !matches!(l, Leaf::Opaque(_)),
        Value::Tuple(t) => seq_values_comparable(&t.fields),
        Value::Array(a) => seq_values_comparable(&a.elements),
        Value::List(l) => seq_values_comparable(&l.elements),
        Value::Mapping(m) => entries_comparable_exec(&m.entries),
        Value::TupleStruct(t) => seq_values_comparable(&t.fields),
        Value::Struct(s) => named_fields_comparable(&s.fields),
        Value::Enum(e) => match &e.data {
            VariantData::Unit => true,
            VariantData::Tuple(fields) => seq_values_comparable(fields),
            VariantData::Struct(fields) => named_fields_comparable(fields),
        },
    }
}

/// Comparability of every element of a field vector.
pub fn seq_values_comparable(s: &Vec<Value>) -> (r: bool)
    ensures
        r == seq_comparable(seq_vmodel(s@)),
    decreases s,
{
    let mut i: usize = 0;
    while i < s.len()
        invariant
            i <= s.len(),
            forall|k: int| 0 <= k < i ==> comparable(#[trigger] seq_vmodel(s@)[k]),
        decreases s.len() - i,
    {
        if !is_comparable(&s[i]) {
            assert(!comparable(seq_vmodel(s@)[i as int]));
            return false;
        }
        i += 1;
    }
    true
}

/// Comparability of every field value of a named-field vector.
fn named_fields_comparable(s: &Vec<(String, Value)>) -> (r: bool)
    ensures
        r == named_comparable(named_vmodel(s@)),
    decreases s,
{
    let mut i: usize = 0;
    while i < s.len()
        invariant
            i <= s.len(),
            forall|k: int| 0 <= k < i ==> comparable((#[trigger] named_vmodel(s@)[k]).1),
        decreases s.len() - i,
    {
        if !is_comparable(&s[i].1) {
            assert(!comparable((named_vmodel(s@)[i as int]).1));
            return false;
        }
        i += 1;
    }
    true
}

/// Comparability of every key and value of a map-entry vector.
fn entries_comparable_exec(s: &Vec<(Value, Value)>) -> (r: bool)
    ensures
        r == entries_comparable(entries_vmodel(s@)),
    decreases s,
{
    let mut i: usize = 0;
    while i < s.len()
        invariant
            i <= s.len(),
            forall|k: int|
                0 <= k < i ==> comparable((#[trigger] entries_vmodel(s@)[k]).0) && comparable(
                    entries_vmodel(s@)[k].1,
                ),
        decreases s.len() - i,
    {
        if !is_comparable(&s[i].0) || !is_comparable(&s[i].1) {
            return false;
        }
        i += 1;
    }
    true
}

impl Value {
    /// The optional equality probe: `Some` exactly when both sides fully
    /// support equality, in which case the answer is observational equality.
    pub fn reflect_partial_eq(&self, other: &Value) -> (r: Option<bool>)
        ensures
            r == (if comparable(self.vmodel()) && comparable(other.vmodel()) {
                Option::Some(veq(self.vmodel(), other.vmodel()))
            } else {
                Option::<bool>::None
            }),
    {
        if is_comparable(self) && is_comparable(other) {
            Option::Some(value_eq(self, other))
        } else {
            Option::None
        }
    }
}

/// The probe of one pair of values: defined exactly when both sides
/// support equality, in which case it answers observational equality.
pub open spec fn pair_probe(a: Val, b: Val) -> Option<bool> {
    if comparable(a) && comparable(b) {
        Option::Some(veq(a, b))
    } else {
        Option::<bool>::None
    }
}

/// The sequential pairwise probe over two sequences: pairs are compared
/// in order, the first unsupported pair answers `None`, the first unequal
/// pair answers `Some(false)`.
pub open spec fn seq_probe(a: Seq<Val>, b: Seq<Val>) -> Option<bool>
    decreases a,
{
    if a.len() == 0 || b.len() == 0 {
        Option::Some(true)
    } else {
        match pair_probe(a[0], b[0]) {
            Option::None => Option::None,
            Option::Some(x) => if !x {
                Option::Some(false)
            } else {
                seq_probe(a.drop_first(), b.drop_first())
            },
        }
    }
}

/// The sequential by-name probe: every field of `a` is looked up in `b`;
/// a missing counterpart answers `Some(false)`, an unsupported value pair
/// `None`, an unequal one `Some(false)`.
pub open spec fn named_probe(a: Seq<(Seq<char>, Val)>, b: Seq<(Seq<char>, Val)>) -> Option<
    bool,
>
    decreases a,
{
    if a.len() == 0 {
        Option::Some(true)
    } else {
        match crate::model::lookup_field(b, a[0].0) {
            Option::None => Option::Some(false),
            Option::Some(v) => match pair_probe(a[0].1, v) {
                Option::None => Option::None,
                Option::Some(x) => if !x {
                    Option::Some(false)
                } else {
                    named_probe(a.drop_first(), b)
                },
            },
        }
    }
}

/// The probe of the data of two variants of the same name: shape and
/// arity decide before any per-field comparison.
pub open spec fn variant_probe(a: VariantVal, b: VariantVal) -> Option<bool> {
    match (a, b) {
        (VariantVal::Unit, VariantVal::Unit) => Option::Some(true),
        (VariantVal::Tuple(f1), VariantVal::Tuple(f2)) => if f1.len() != f2.len() {
            Option::Some(false)
        } else {
            seq_probe(f1, f2)
        },
        (VariantVal::Struct(f1), VariantVal::Struct(f2)) => if f1.len() != f2.len() {
            Option::Some(false)
        } else {
            named_probe(f1, f2)
        },
        _ => Option::Some(false),
    }
}

/// Probes two equally long field vectors pair by pair, in order.
fn probe_values(a: &Vec<Value>, b: &Vec<Value>) -> (r: Option<bool>)
    requires
        a@.len() == b@.len(),
    ensures
        r == seq_probe(seq_vmodel(a@), seq_vmodel(b@)),
{
    let ghost ma = seq_vmodel(a@);
    let ghost mb = seq_vmodel(b@);
    proof {
        assert(ma.skip(0) =~= ma);
        assert(mb.skip(0) =~= mb);
    }
    let mut i: usize = 0;
    while i < a.len()
        invariant
            i <= a@.len(),
            a@.len() == b@.len(),
            ma == seq_vmodel(a@),
            mb == seq_vmodel(b@),
            ma.len() == mb.len(),
            seq_probe(ma, mb) == seq_probe(ma.skip(i as int), mb.skip(i as int)),
        decreases a@.len() - i,
    {
        proof {
            crate::lemmas::lemma_skip_step(ma, i as int);
            crate::lemmas::lemma_skip_step(mb, i as int);
        }
        if !is_comparable(&a[i]) || !is_comparable(&b[i]) {
            proof {
                assert(pair_probe(ma[i as int], mb[i as int]) is None);
                assert(seq_probe(ma.skip(i as int), mb.skip(i as int)) is None);
            }
            return Option::None;
        }
        if !value_eq(&a[i], &b[i]) {
            proof {
                assert(pair_probe(ma[i as int], mb[i as int]) == Option::Some(false));
                assert(seq_probe(ma.skip(i as int), mb.skip(i as int)) == Option::Some(false));
            }
            return Option::Some(false);
        }
        proof {
            assert(pair_probe(ma[i as int], mb[i as int]) == Option::Some(true));
            assert(seq_probe(ma.skip(i as int), mb.skip(i as int)) == seq_probe(
                ma.skip(i + 1),
                mb.skip(i + 1),
            ));
        }
        i += 1;
    }
    proof {
        assert(ma.skip(ma.len() as int).len() == 0);
        assert(seq_probe(ma.skip(i as int), mb.skip(i as int)) == Option::Some(true));
    }
    Option::Some(true)
}

/// Probes a named-field vector against another, field by field in order.
fn probe_named(a: &Vec<(String, Value)>, b: &Vec<(String, Value)>) -> (r: Option<bool>)
    ensures
        r == named_probe(named_vmodel(a@), named_vmodel(b@)),
{
    let ghost ma = named_vmodel(a@);
    let ghost mb = named_vmodel(b@);
    proof {
        assert(ma.skip(0) =~= ma);
    }
    let mut i: usize = 0;
    while i < a.len()
        invariant
            i <= a@.len(),
            ma == named_vmodel(a@),
            mb == named_vmodel(b@),
            ma.len() == a@.len(),
            named_probe(ma, mb) == named_probe(ma.skip(i as int), mb),
        decreases a@.len() - i,
    {
        proof {
            crate::lemmas::lemma_skip_step(ma, i as int);
        }
        let found = crate::nochange::find_field(b, &a[i].0);
        match found {
            Option::None => {
                proof {
                    assert(named_probe(ma.skip(i as int), mb) == Option::Some(false));
                }
                return Option::Some(false);
            },
            Option::Some(v) => {
                if !is_comparable(&a[i].1) || !is_comparable(v) {
                    proof {
                        assert(pair_probe(
                            ma[i as int].1,
                            crate::model::lookup_field(mb, ma[i as int].0)->0,
                        ) is None);
                        assert(named_probe(ma.skip(i as int), mb) is None);
                    }
                    return Option::None;
                }
                if !value_eq(&a[i].1, v) {
                    proof {
                        assert(named_probe(ma.skip(i as int), mb) == Option::Some(false));
                    }
                    return Option::Some(false);
                }
                proof {
                    assert(named_probe(ma.skip(i as int), mb) == named_probe(
                        ma.skip(i + 1),
                        mb,
                    ));
                }
            },
        }
        i += 1;
    }
    proof {
        assert(ma.skip(ma.len() as int).len() == 0);
        assert(named_probe(ma.skip(i as int), mb) == Option::Some(true));
    }
    Option::Some(true)
}

/// Probes the data of two enum variants.
fn variant_data_probe(a: &VariantData, b: &VariantData) -> (r: Option<bool>)
    ensures
        r == variant_probe(a.dmodel(), b.dmodel()),
{
    match (a, b) {
        (VariantData::Unit, VariantData::Unit) => Option::Some(true),
        (VariantData::Tuple(f1), VariantData::Tuple(f2)) => {
            proof {
                assert(a.dmodel() == VariantVal::Tuple(seq_vmodel(f1@)));
                assert(b.dmodel() == VariantVal::Tuple(seq_vmodel(f2@)));
                assert(seq_vmodel(f1@).len() == f1@.len());
                assert(seq_vmodel(f2@).len() == f2@.len());
            }
            if f1.len() != f2.len() {
                Option::Some(false)
            } else {
                probe_values(f1, f2)
            }
        },
        (VariantData::Struct(f1), VariantData::Struct(f2)) => {
            proof {
                assert(a.dmodel() == VariantVal::Struct(named_vmodel(f1@)));
                assert(b.dmodel() == VariantVal::Struct(named_vmodel(f2@)));
                assert(named_vmodel(f1@).len() == f1@.len());
                assert(named_vmodel(f2@).len() == f2@.len());
            }
            if f1.len() != f2.len() {
                Option::Some(false)
            } else {
                probe_named(f1, f2)
            }
        },
        _ => Option::Some(false),
    }
}

/// Compares a tuple with any reflected value.
///
/// Shape and arity decide first: `Some(false)` when `b` is not a tuple or
/// the arities differ.  Otherwise the elements are probed pair by pair in
/// order; the first pair that does not support equality answers `None`,
/// the first unequal pair `Some(false)`.
pub fn tuple_partial_eq(a: &DynamicTuple, b: &Value) -> (r: Option<bool>)
    ensures
        r == (match b.vmodel() {
            Val::Tuple { fields: bf, .. } => if seq_vmodel(a.fields@).len() != bf.len() {
                Option::Some(false)
            } else {
                seq_probe(seq_vmodel(a.fields@), bf)
            },
            _ => Option::Some(false),
        }),
{
    match b {
        Value::Tuple(t2) => {
            proof {
                assert(b.vmodel() == (Val::Tuple {
                    name: t2.spec_type_path(),
                    fields: seq_vmodel(t2.fields@),
                }));
                assert(seq_vmodel(a.fields@).len() == a.fields@.len());
                assert(seq_vmodel(t2.fields@).len() == t2.fields@.len());
            }
            if a.fields.len() != t2.fields.len() {
                Option::Some(false)
            } else {
                probe_values(&a.fields, &t2.fields)
            }
        },
        _ => Option::Some(false),
    }
}

/// Compares an enum with any reflected value.
///
/// Shape, active variant and arity decide first: `Some(false)` when `b`
/// is not an enum, carries a different active variant or kind, or the
/// field counts differ.  Otherwise the variant's fields are probed in
/// order, with `None` for the first pair that does not support equality.
pub fn enum_partial_eq(a: &DynamicEnum, b: &Value) -> (r: Option<bool>)
    ensures
        r == (match b.vmodel() {
            Val::Enum { variant: bv, data: bd, .. } => if a.variant_name@ != bv {
                Option::Some(false)
            } else {
                variant_probe(a.data.dmodel(), bd)
            },
            _ => Option::Some(false),
        }),
{
    match b {
        Value::Enum(e2) => {
            if !(a.variant_name == e2.variant_name) {
                Option::Some(false)
            } else {
                variant_data_probe(&a.data, &e2.data)
            }
        },
        _ => Option::Some(false),
    }
}

} // verus!
