//! The optional hash capability: a deterministic structural digest.
//!
//! [`Value::reflect_hash`] answers `Some` exactly for values that support
//! the equality probe and are positional throughout: leaves, tuples,
//! arrays, lists, tuple structs, and unit or tuple enum variants.  Shapes
//! keyed by name — maps, structs, and struct variants — have no digest:
//! their equality probe is insensitive to stored order, so no fold over
//! the stored entries could respect it.  Wherever the digest is defined it
//! is a pure function of the value's model, ignores container type names
//! exactly as the equality probe does, and agrees on observably equal
//! values ([`lemma_hash_respects_eq`]).

use vstd::prelude::*;
use vstd::utf8::encode_utf8;

use crate::eq::{is_comparable, seq_values_comparable};
use crate::laws::{positional, seq_positional};
use crate::model::{comparable, seq_comparable, seq_veq, veq, LeafVal, Val, VariantVal};
use crate::value::{
    entries_vmodel, lemma_entries_vmodel, lemma_named_vmodel, lemma_seq_vmodel, named_vmodel,
    seq_vmodel, DynamicTuple, Leaf, Value, VariantData,
};

verus! {

broadcast use lemma_seq_vmodel, lemma_named_vmodel, lemma_entries_vmodel;

/// One mixing step of the digest.
pub open spec fn combine(h: u64, x: u64) -> u64 {
    h.wrapping_mul(0x100000001b3u64).wrapping_add(x)
}

/// The digest of a byte sequence folded onto an accumulator.
pub open spec fn bytes_hash(s: Seq<u8>, h: u64) -> u64
    decreases s,
{
    if s.len() == 0 {
        h
    } else {
        bytes_hash(s.drop_first(), combine(h, s[0] as u64))
    }
}

/// The digest of a leaf; an `Opaque` leaf has no defined digest.
pub open spec fn leaf_hash(l: LeafVal) -> u64 {
    match l {
        LeafVal::Bool(b) => combine(10, if b { 1u64 } else { 0u64 }),
        LeafVal::I8(x) => combine(11, x as u64),
        LeafVal::I16(x) => combine(12, x as u64),
        LeafVal::I32(x) => combine(13, x as u64),
        LeafVal::I64(x) => combine(14, x as u64),
        LeafVal::ISize(x) => combine(15, x as u64),
        LeafVal::U8(x) => combine(16, x as u64),
        LeafVal::U16(x) => combine(17, x as u64),
        LeafVal::U32(x) => combine(18, x as u64),
        LeafVal::U64(x) => combine(19, x),
        LeafVal::USize(x) => combine(20, x as u64),
        LeafVal::Str(s) => bytes_hash(encode_utf8(s), 22),
        LeafVal::F32Bits(x) => combine(23, x as u64),
        LeafVal::F64Bits(x) => combine(24, x),
        LeafVal::Opaque(_) => 0,
    }
}

/// The digest of a value.  Container type names do not take part, exactly
/// as they take no part in the equality probe.  Shapes keyed by name lie
/// outside the digest's domain and are given the immaterial constant `0`.
pub open spec fn val_hash(v: Val) -> u64
    decreases v,
{
    match v {
        Val::Leaf(l) => combine(1, leaf_hash(l)),
        Val::Tuple { fields, .. } => seq_hash(fields, combine(2, fields.len() as u64)),
        Val::Array { elems, .. } => seq_hash(elems, combine(3, elems.len() as u64)),
        Val::List { elems, .. } => seq_hash(elems, combine(4, elems.len() as u64)),
        Val::Mapping { .. } => 0,
        Val::TupleStruct { fields, .. } => seq_hash(fields, combine(6, fields.len() as u64)),
        Val::Struct { .. } => 0,
        Val::Enum { variant, data, .. } => variant_hash(data, bytes_hash(encode_utf8(variant), 8)),
    }
}

/// The digests of a sequence of values folded in order.
pub open spec fn seq_hash(s: Seq<Val>, h: u64) -> u64
    decreases s,
{
    if s.len() == 0 {
        h
    } else {
        seq_hash(s.drop_first(), combine(h, val_hash(s[0])))
    }
}

/// The digest of the data of an enum variant; struct variants lie outside
/// the digest's domain.
pub open spec fn variant_hash(d: VariantVal, h: u64) -> u64
    decreases d,
{
    match d {
        VariantVal::Unit => combine(h, 30),
        VariantVal::Tuple(fields) => seq_hash(fields, combine(h, 31)),
        VariantVal::Struct(_) => 0,
    }
}

/// One mixing step of the digest.
fn mix(h: u64, x: u64) -> (r: u64)
    ensures
        r == combine(h, x),
{
    h.wrapping_mul(0x100000001b3u64).wrapping_add(x)
}

/// Folds a byte slice onto the accumulator.
fn hash_bytes(b: &[u8], h: u64) -> (r: u64)
    ensures
        r == bytes_hash(b@, h),
{
    let ghost h0 = h;
    let mut h = h;
    let mut i: usize = 0;
    proof {
        assert(b@.skip(0) =~= b@);
    }
    while i < b.len()
        invariant
            i <= b@.len(),
            bytes_hash(b@, h0) == bytes_hash(b@.skip(i as int), h),
        decreases b@.len() - i,
    {
        proof {
            crate::lemmas::lemma_skip_step(b@, i as int);
        }
        h = mix(h, b[i] as u64);
        i += 1;
    }
    proof {
        assert(b@.skip(b@.len() as int).len() == 0);
    }
    h
}

/// Folds a string's UTF-8 bytes onto the accumulator.
fn hash_string(s: &String, h: u64) -> (r: u64)
    ensures
        r == bytes_hash(encode_utf8(s@), h),
{
    let bytes = s.as_str().as_bytes();
    proof {
        assert(bytes@ == encode_utf8(s@));
    }
    hash_bytes(bytes, h)
}

/// The digest of a leaf that supports the equality probe.
fn hash_leaf(l: &Leaf) -> (r: u64)
    requires
        !(l.lmodel() is Opaque),
    ensures
        r == leaf_hash(l.lmodel()),
{
    match l {
        Leaf::Bool(b) => mix(10, if *b { 1u64 } else { 0u64 }),
        Leaf::I8(x) => mix(11, *x as u64),
        Leaf::I16(x) => mix(12, *x as u64),
        Leaf::I32(x) => mix(13, *x as u64),
        Leaf::I64(x) => mix(14, *x as u64),
        Leaf::ISize(x) => mix(15, *x as u64),
        Leaf::U8(x) => mix(16, *x as u64),
        Leaf::U16(x) => mix(17, *x as u64),
        Leaf::U32(x) => mix(18, *x as u64),
        Leaf::U64(x) => mix(19, *x),
        Leaf::USize(x) => mix(20, *x as u64),
        Leaf::Str(s) => hash_string(s, 22),
        Leaf::F32Bits(x) => mix(23, *x as u64),
        Leaf::F64Bits(x) => mix(24, *x),
        Leaf::Opaque(_) => 0,
    }
}

/// The digest of a positional value that supports the equality probe.
fn hash_of(v: &Value) -> (r: u64)
    requires
        comparable(v.vmodel()),
        positional(v.vmodel()),
    ensures
        r == val_hash(v.vmodel()),
    decreases v,
{
    match v {
        Value::Leaf(l) => mix(1, hash_leaf(l)),
        Value::Tuple(t) => {
            proof {
                assert(v.vmodel() == (Val::Tuple {
                    name: t.spec_type_path(),
                    fields: seq_vmodel(t.fields@),
                }));
                assert(seq_vmodel(t.fields@).len() == t.fields@.len());
            }
            let h = mix(2, t.fields.len() as u64);
            hash_values(&t.fields, h)
        },
        Value::Array(a) => {
            proof {
                assert(v.vmodel() == (Val::Array {
                    name: a.spec_type_path(),
                    elems: seq_vmodel(a.elements@),
                }));
                assert(seq_vmodel(a.elements@).len() == a.elements@.len());
            }
            let h = mix(3, a.elements.len() as u64);
            hash_values(&a.elements, h)
        },
        Value::List(l) => {
            proof {
                assert(v.vmodel() == (Val::List {
                    name: l.spec_type_path(),
                    elems: seq_vmodel(l.elements@),
                }));
                assert(seq_vmodel(l.elements@).len() == l.elements@.len());
            }
            let h = mix(4, l.elements.len() as u64);
            hash_values(&l.elements, h)
        },
        Value::Mapping(m) => {
            proof {
                assert(v.vmodel() == (Val::Mapping {
                    name: m.spec_type_path(),
                    entries: entries_vmodel(m.entries@),
                }));
            }
            0
        },
        Value::TupleStruct(t) => {
            proof {
                assert(v.vmodel() == (Val::TupleStruct {
                    name: t.spec_type_path(),
                    fields: seq_vmodel(t.fields@),
                }));
                assert(seq_vmodel(t.fields@).len() == t.fields@.len());
            }
            let h = mix(6, t.fields.len() as u64);
            hash_values(&t.fields, h)
        },
        Value::Struct(s) => {
            proof {
                assert(v.vmodel() == (Val::Struct {
                    name: s.spec_type_path(),
                    fields: named_vmodel(s.fields@),
                }));
            }
            0
        },
        Value::Enum(e) => {
            proof {
                assert(v.vmodel() == (Val::Enum {
                    name: e.name@,
                    variant: e.variant_name@,
                    data: e.data.dmodel(),
                }));
            }
            let h = hash_string(&e.variant_name, 8);
            hash_variant(&e.data, h)
        },
    }
}

/// Folds the digests of a field vector in order.
fn hash_values(s: &Vec<Value>, h: u64) -> (r: u64)
    requires
        seq_comparable(seq_vmodel(s@)),
        seq_positional(seq_vmodel(s@)),
    ensures
        r == seq_hash(seq_vmodel(s@), h),
    decreases s,
{
    let ghost ms = seq_vmodel(s@);
    let ghost h0 = h;
    let mut h = h;
    let mut i: usize = 0;
    proof {
        assert(ms.skip(0) =~= ms);
    }
    while i < s.len()
        invariant
            i <= s@.len(),
            ms == seq_vmodel(s@),
            seq_comparable(ms),
            seq_positional(ms),
            seq_hash(ms, h0) == seq_hash(ms.skip(i as int), h),
        decreases s@.len() - i,
    {
        proof {
            crate::lemmas::lemma_skip_step(ms, i as int);
        }
        let x = hash_of(&s[i]);
        h = mix(h, x);
        i += 1;
    }
    proof {
        assert(ms.skip(ms.len() as int).len() == 0);
    }
    h
}

/// The digest of the data of an enum variant.
fn hash_variant(d: &VariantData, h: u64) -> (r: u64)
    requires
        comparable(Val::Enum { name: Seq::empty(), variant: Seq::empty(), data: d.dmodel() }),
        positional(Val::Enum { name: Seq::empty(), variant: Seq::empty(), data: d.dmodel() }),
    ensures
        r == variant_hash(d.dmodel(), h),
    decreases d,
{
    match d {
        VariantData::Unit => mix(h, 30),
        VariantData::Tuple(fields) => {
            proof {
                assert(d.dmodel() == VariantVal::Tuple(seq_vmodel(fields@)));
            }
            let h2 = mix(h, 31);
            hash_values(fields, h2)
        },
        VariantData::Struct(fields) => {
            proof {
                assert(d.dmodel() == VariantVal::Struct(named_vmodel(fields@)));
            }
            0
        },
    }
}

/// Positionality of a value: no map, struct, or struct variant anywhere
/// inside it, so that the digest is defined.
pub fn is_positional(v: &Value) -> (r: bool)
    ensures
        r == positional(v.vmodel()),
    decreases v,
{
    match v {
        Value::Leaf(_) => true,
        Value::Tuple(t) => seq_values_positional(&t.fields),
        Value::Array(a) => seq_values_positional(&a.elements),
        Value::List(l) => seq_values_positional(&l.elements),
        Value::Mapping(_) => false,
        Value::TupleStruct(t) => seq_values_positional(&t.fields),
        Value::Struct(_) => false,
        Value::Enum(e) => match &e.data {
            VariantData::Unit => true,
            VariantData::Tuple(fields) => seq_values_positional(fields),
            VariantData::Struct(_) => false,
        },
    }
}

/// Positionality of every element of a field vector.
pub fn seq_values_positional(s: &Vec<Value>) -> (r: bool)
    ensures
        r == seq_positional(seq_vmodel(s@)),
    decreases s,
{
    let mut i: usize = 0;
    while i < s.len()
        invariant
            i <= s.len(),
            forall|k: int| 0 <= k < i ==> positional(#[trigger] seq_vmodel(s@)[k]),
        decreases s.len() - i,
    {
        if !is_positional(&s[i]) {
            assert(!positional(seq_vmodel(s@)[i as int]));
            return false;
        }
        i += 1;
    }
    true
}

impl Value {
    /// The optional hash probe: `Some` exactly when the value supports the
    /// equality probe and is positional throughout, in which case the
    /// answer is the structural digest of the value's model.  Values
    /// holding a map, a struct, or a struct variant have no digest.
    pub fn reflect_hash(&self) -> (r: Option<u64>)
        ensures
            (r is Some) == (comparable(self.vmodel()) && positional(self.vmodel())),
            r is Some ==> r->0 == val_hash(self.vmodel()),
    {
        if is_comparable(self) && is_positional(self) {
            Option::Some(hash_of(self))
        } else {
            Option::None
        }
    }
}

/// The hash of a tuple: `Some` exactly when every element supports the
/// equality probe and is positional, in which case the answer is the
/// structural digest.
pub fn tuple_hash(t: &DynamicTuple) -> (r: Option<u64>)
    ensures
        (r is Some) == (comparable(t.vm()) && positional(t.vm())),
        r is Some ==> r->0 == val_hash(t.vm()),
{
    proof {
        assert(seq_vmodel(t.fields@).len() == t.fields@.len());
    }
    if seq_values_comparable(&t.fields) && seq_values_positional(&t.fields) {
        let h = mix(2, t.fields.len() as u64);
        Option::Some(hash_values(&t.fields, h))
    } else {
        Option::None
    }
}

/// Equal digests for observably equal values: wherever both values have a
/// defined digest, the digest respects the equality probe.
pub proof fn lemma_hash_respects_eq(a: Val, b: Val)
    requires
        positional(a),
        positional(b),
        comparable(a),
        comparable(b),
        veq(a, b),
    ensures
        val_hash(a) == val_hash(b),
    decreases a, 1int,
{
    match (a, b) {
        (Val::Leaf(x), Val::Leaf(y)) => {
            assert(x == y);
        },
        (Val::Tuple { fields: f1, .. }, Val::Tuple { fields: f2, .. }) => {
            lemma_seq_hash_eq(f1, f2, combine(2, f1.len() as u64));
        },
        (Val::Array { elems: e1, .. }, Val::Array { elems: e2, .. }) => {
            lemma_seq_hash_eq(e1, e2, combine(3, e1.len() as u64));
        },
        (Val::List { elems: e1, .. }, Val::List { elems: e2, .. }) => {
            lemma_seq_hash_eq(e1, e2, combine(4, e1.len() as u64));
        },
        (Val::TupleStruct { fields: f1, .. }, Val::TupleStruct { fields: f2, .. }) => {
            lemma_seq_hash_eq(f1, f2, combine(6, f1.len() as u64));
        },
        (
            Val::Enum { variant: v1, data: d1, .. },
            Val::Enum { variant: v2, data: d2, .. },
        ) => {
            assert(v1 == v2);
            match (d1, d2) {
                (VariantVal::Unit, VariantVal::Unit) => {},
                (VariantVal::Tuple(f1), VariantVal::Tuple(f2)) => {
                    lemma_seq_hash_eq(
                        f1,
                        f2,
                        combine(bytes_hash(encode_utf8(v1), 8), 31),
                    );
                },
                _ => {
                    assert(false);
                },
            }
        },
        _ => {
            assert(false);
        },
    }
}

/// Pointwise equal positional sequences fold to equal digests from any
/// accumulator.
proof fn lemma_seq_hash_eq(a: Seq<Val>, b: Seq<Val>, h: u64)
    requires
        seq_positional(a),
        seq_positional(b),
        seq_comparable(a),
        seq_comparable(b),
        seq_veq(a, b),
    ensures
        seq_hash(a, h) == seq_hash(b, h),
    decreases a, 0int,
{
    if a.len() > 0 {
        assert(veq(a[0], b[0]));
        lemma_hash_respects_eq(a[0], b[0]);
        assert forall|i: int|
            0 <= i < a.drop_first().len() implies veq(
            #[trigger] a.drop_first()[i],
            b.drop_first()[i],
        ) by {
            assert(a.drop_first()[i] == a[i + 1]);
            assert(b.drop_first()[i] == b[i + 1]);
            assert(veq(a[i + 1], b[i + 1]));
        }
        lemma_seq_hash_eq(a.drop_first(), b.drop_first(), combine(h, val_hash(a[0])));
    }
}

} // verus!
