//! The closed taxonomy of reflected values.
//!
//! A [`Value`] is the type-erased handle of the data model: every reflected
//! value is a leaf, a tuple, an array, a list, a map, a tuple struct, a
//! struct, or an enum.  The container variants are runtime-constructible
//! ("dynamic") containers that keep insertion order.  Each carries its own
//! type name, and may additionally be tagged with the name of a represented
//! type it stands in for.

use vstd::prelude::*;

use crate::model::{LeafVal, Val, VariantVal};

verus! {

/// An opaque leaf value: a primitive with no reflected substructure.
///
/// The `F32Bits`/`F64Bits` kinds carry the bit pattern of a floating-point
/// number; two such leaves are equal exactly when their bit patterns are.
/// An `Opaque` leaf carries only a type name and supports no equality probe.
pub enum Leaf {
    Bool(bool),
    I8(i8),
    I16(i16),
    I32(i32),
    I64(i64),
    ISize(isize),
    U8(u8),
    U16(u16),
    U32(u32),
    U64(u64),
    USize(usize),
    Str(String),
    F32Bits(u32),
    F64Bits(u64),
    Opaque(String),
}

/// A tuple whose elements can be added at runtime.
pub struct DynamicTuple {
    pub name: String,
    pub represented: Option<String>,
    pub fields: Vec<Value>,
}

/// A fixed-length homogeneous container; its length is part of its identity.
pub struct DynamicArray {
    pub name: String,
    pub represented: Option<String>,
    pub elements: Vec<Value>,
}

/// A variable-length ordered container.
pub struct DynamicList {
    pub name: String,
    pub represented: Option<String>,
    pub elements: Vec<Value>,
}

/// An unordered key-to-value container with unique keys.
pub struct DynamicMap {
    pub name: String,
    pub represented: Option<String>,
    pub entries: Vec<(Value, Value)>,
}

/// A named type with positional fields.
pub struct DynamicTupleStruct {
    pub name: String,
    pub represented: Option<String>,
    pub fields: Vec<Value>,
}

/// A named type with named fields, in declaration order.
pub struct DynamicStruct {
    pub name: String,
    pub represented: Option<String>,
    pub fields: Vec<(String, Value)>,
}

/// The data carried by the active variant of a [`DynamicEnum`].
pub enum VariantData {
    Unit,
    Tuple(Vec<Value>),
    Struct(Vec<(String, Value)>),
}

/// A named type with one active variant chosen from a fixed set.
pub struct DynamicEnum {
    pub name: String,
    pub variant_name: String,
    pub data: VariantData,
}

/// A reflected value: the single polymorphic handle of the data model.
pub enum Value {
    Leaf(Leaf),
    Tuple(DynamicTuple),
    Array(DynamicArray),
    List(DynamicList),
    Mapping(DynamicMap),
    TupleStruct(DynamicTupleStruct),
    Struct(DynamicStruct),
    Enum(DynamicEnum),
}

/// The fixed structural category of a reflected value.
#[derive(PartialEq, Eq, Structural, Clone, Copy, Debug)]
pub enum ValueKind {
    Leaf,
    Tuple,
    Array,
    List,
    Mapping,
    TupleStruct,
    Struct,
    Enum,
}

impl Leaf {
    /// The mathematical model of this leaf.
    pub open spec fn lmodel(&self) -> LeafVal {
        match self {
            Leaf::Bool(b) => LeafVal::Bool(*b),
            Leaf::I8(x) => LeafVal::I8(*x),
            Leaf::I16(x) => LeafVal::I16(*x),
            Leaf::I32(x) => LeafVal::I32(*x),
            Leaf::I64(x) => LeafVal::I64(*x),
            Leaf::ISize(x) => LeafVal::ISize(*x),
            Leaf::U8(x) => LeafVal::U8(*x),
            Leaf::U16(x) => LeafVal::U16(*x),
            Leaf::U32(x) => LeafVal::U32(*x),
            Leaf::U64(x) => LeafVal::U64(*x),
            Leaf::USize(x) => LeafVal::USize(*x),
            Leaf::Str(s) => LeafVal::Str(s@),
            Leaf::F32Bits(x) => LeafVal::F32Bits(*x),
            Leaf::F64Bits(x) => LeafVal::F64Bits(*x),
            Leaf::Opaque(n) => LeafVal::Opaque(n@),
        }
    }

    /// The name of the concrete type this leaf stands for.
    pub fn type_path(&self) -> (r: &str)
        ensures
            r@ == self.lmodel().leaf_type_path(),
    {
        match self {
            Leaf::Bool(_) => "bool",
            Leaf::I8(_) => "i8",
            Leaf::I16(_) => "i16",
            Leaf::I32(_) => "i32",
            Leaf::I64(_) => "i64",
            Leaf::ISize(_) => "isize",
            Leaf::U8(_) => "u8",
            Leaf::U16(_) => "u16",
            Leaf::U32(_) => "u32",
            Leaf::U64(_) => "u64",
            Leaf::USize(_) => "usize",
            Leaf::Str(_) => "alloc::string::String",
            Leaf::F32Bits(_) => "f32",
            Leaf::F64Bits(_) => "f64",
            Leaf::Opaque(n) => n.as_str(),
        }
    }
}

/// The type name a container with a `represented` tag reports: the
/// represented type if tagged, else the container's own name.
pub open spec fn effective_name(name: Seq<char>, represented: Option<String>) -> Seq<char> {
    match represented {
        Option::Some(n) => n@,
        Option::None => name,
    }
}

impl DynamicTuple {
    /// The mathematical model of this container, as a reflected value.
    pub open spec fn vm(&self) -> Val {
        Val::Tuple { name: self.spec_type_path(), fields: seq_vmodel(self.fields@) }
    }

    /// The type name this tuple reports.
    pub open spec fn spec_type_path(&self) -> Seq<char> {
        effective_name(self.name@, self.represented)
    }
}

impl DynamicArray {
    /// The mathematical model of this container, as a reflected value.
    pub open spec fn vm(&self) -> Val {
        Val::Array { name: self.spec_type_path(), elems: seq_vmodel(self.elements@) }
    }

    /// The type name this array reports.
    pub open spec fn spec_type_path(&self) -> Seq<char> {
        effective_name(self.name@, self.represented)
    }
}

impl DynamicList {
    /// The mathematical model of this container, as a reflected value.
    pub open spec fn vm(&self) -> Val {
        Val::List { name: self.spec_type_path(), elems: seq_vmodel(self.elements@) }
    }

    /// The type name this list reports.
    pub open spec fn spec_type_path(&self) -> Seq<char> {
        effective_name(self.name@, self.represented)
    }
}

impl DynamicMap {
    /// The mathematical model of this container, as a reflected value.
    pub open spec fn vm(&self) -> Val {
        Val::Mapping { name: self.spec_type_path(), entries: entries_vmodel(self.entries@) }
    }

    /// The type name this map reports.
    pub open spec fn spec_type_path(&self) -> Seq<char> {
        effective_name(self.name@, self.represented)
    }
}

impl DynamicTupleStruct {
    /// The mathematical model of this container, as a reflected value.
    pub open spec fn vm(&self) -> Val {
        Val::TupleStruct { name: self.spec_type_path(), fields: seq_vmodel(self.fields@) }
    }

    /// The type name this tuple struct reports.
    pub open spec fn spec_type_path(&self) -> Seq<char> {
        effective_name(self.name@, self.represented)
    }
}

impl DynamicStruct {
    /// The mathematical model of this container, as a reflected value.
    pub open spec fn vm(&self) -> Val {
        Val::Struct { name: self.spec_type_path(), fields: named_vmodel(self.fields@) }
    }

    /// The type name this struct reports.
    pub open spec fn spec_type_path(&self) -> Seq<char> {
        effective_name(self.name@, self.represented)
    }
}

impl DynamicEnum {
    /// The mathematical model of this enum value.
    pub open spec fn vm(&self) -> Val {
        Val::Enum { name: self.name@, variant: self.variant_name@, data: self.data.dmodel() }
    }
}

impl VariantData {
    /// The mathematical model of this variant data.
    pub open spec fn dmodel(&self) -> VariantVal
        decreases self,
    {
        match self {
            VariantData::Unit => VariantVal::Unit,
            VariantData::Tuple(fields) => VariantVal::Tuple(seq_vmodel(fields@)),
            VariantData::Struct(fields) => VariantVal::Struct(named_vmodel(fields@)),
        }
    }
}

impl Value {
    /// The mathematical model of this value.
    pub open spec fn vmodel(&self) -> Val
        decreases self,
    {
        match self {
            Value::Leaf(l) => Val::Leaf(l.lmodel()),
            Value::Tuple(t) => Val::Tuple {
                name: t.spec_type_path(),
                fields: seq_vmodel(t.fields@),
            },
            Value::Array(a) => Val::Array {
                name: a.spec_type_path(),
                elems: seq_vmodel(a.elements@),
            },
            Value::List(l) => Val::List {
                name: l.spec_type_path(),
                elems: seq_vmodel(l.elements@),
            },
            Value::Mapping(m) => Val::Mapping {
                name: m.spec_type_path(),
                entries: entries_vmodel(m.entries@),
            },
            Value::TupleStruct(t) => Val::TupleStruct {
                name: t.spec_type_path(),
                fields: seq_vmodel(t.fields@),
            },
            Value::Struct(s) => Val::Struct {
                name: s.spec_type_path(),
                fields: named_vmodel(s.fields@),
            },
            Value::Enum(e) => Val::Enum {
                name: e.name@,
                variant: e.variant_name@,
                data: e.data.dmodel(),
            },
        }
    }

    /// The structural category of this value.
    pub fn kind(&self) -> (k: ValueKind)
        ensures
            k == self.spec_kind(),
    {
        match self {
            Value::Leaf(_) => ValueKind::Leaf,
            Value::Tuple(_) => ValueKind::Tuple,
            Value::Array(_) => ValueKind::Array,
            Value::List(_) => ValueKind::List,
            Value::Mapping(_) => ValueKind::Mapping,
            Value::TupleStruct(_) => ValueKind::TupleStruct,
            Value::Struct(_) => ValueKind::Struct,
            Value::Enum(_) => ValueKind::Enum,
        }
    }

    /// The structural category of this value, as a specification.
    pub open spec fn spec_kind(&self) -> ValueKind {
        match self {
            Value::Leaf(_) => ValueKind::Leaf,
            Value::Tuple(_) => ValueKind::Tuple,
            Value::Array(_) => ValueKind::Array,
            Value::List(_) => ValueKind::List,
            Value::Mapping(_) => ValueKind::Mapping,
            Value::TupleStruct(_) => ValueKind::TupleStruct,
            Value::Struct(_) => ValueKind::Struct,
            Value::Enum(_) => ValueKind::Enum,
        }
    }

    /// The name of the type this value stands for.
    pub fn type_path(&self) -> (r: &str)
        ensures
            r@ == self.spec_type_path(),
    {
        match self {
            Value::Leaf(l) => l.type_path(),
            Value::Tuple(t) => match &t.represented {
                Option::Some(n) => n.as_str(),
                Option::None => t.name.as_str(),
            },
            Value::Array(a) => match &a.represented {
                Option::Some(n) => n.as_str(),
                Option::None => a.name.as_str(),
            },
            Value::List(l) => match &l.represented {
                Option::Some(n) => n.as_str(),
                Option::None => l.name.as_str(),
            },
            Value::Mapping(m) => match &m.represented {
                Option::Some(n) => n.as_str(),
                Option::None => m.name.as_str(),
            },
            Value::TupleStruct(t) => match &t.represented {
                Option::Some(n) => n.as_str(),
                Option::None => t.name.as_str(),
            },
            Value::Struct(s) => match &s.represented {
                Option::Some(n) => n.as_str(),
                Option::None => s.name.as_str(),
            },
            Value::Enum(e) => e.name.as_str(),
        }
    }

    /// The name of the type this value stands for, as a specification.
    pub open spec fn spec_type_path(&self) -> Seq<char> {
        match self {
            Value::Leaf(l) => l.lmodel().leaf_type_path(),
            Value::Tuple(t) => t.spec_type_path(),
            Value::Array(a) => a.spec_type_path(),
            Value::List(l) => l.spec_type_path(),
            Value::Mapping(m) => m.spec_type_path(),
            Value::TupleStruct(t) => t.spec_type_path(),
            Value::Struct(s) => s.spec_type_path(),
            Value::Enum(e) => e.name@,
        }
    }

    /// This value, as the plain type-erased handle.
    pub fn as_reflect(&self) -> (r: &Value)
        ensures
            r == self,
    {
        self
    }
}

impl LeafVal {
    /// The type name of a leaf model.
    pub open spec fn leaf_type_path(&self) -> Seq<char> {
        match self {
            LeafVal::Bool(_) => "bool"@,
            LeafVal::I8(_) => "i8"@,
            LeafVal::I16(_) => "i16"@,
            LeafVal::I32(_) => "i32"@,
            LeafVal::I64(_) => "i64"@,
            LeafVal::ISize(_) => "isize"@,
            LeafVal::U8(_) => "u8"@,
            LeafVal::U16(_) => "u16"@,
            LeafVal::U32(_) => "u32"@,
            LeafVal::U64(_) => "u64"@,
            LeafVal::USize(_) => "usize"@,
            LeafVal::Str(_) => "alloc::string::String"@,
            LeafVal::F32Bits(_) => "f32"@,
            LeafVal::F64Bits(_) => "f64"@,
            LeafVal::Opaque(n) => *n,
        }
    }
}

/// The models of a sequence of values, elementwise.
pub open spec fn seq_vmodel(s: Seq<Value>) -> Seq<Val>
    decreases s,
{
    if s.len() == 0 {
        Seq::empty()
    } else {
        seq![s[0].vmodel()] + seq_vmodel(s.drop_first())
    }
}

/// The models of a sequence of named fields, elementwise.
pub open spec fn named_vmodel(s: Seq<(String, Value)>) -> Seq<(Seq<char>, Val)>
    decreases s,
{
    if s.len() == 0 {
        Seq::empty()
    } else {
        seq![(s[0].0@, s[0].1.vmodel())] + named_vmodel(s.drop_first())
    }
}

/// The models of a sequence of map entries, elementwise.
pub open spec fn entries_vmodel(s: Seq<(Value, Value)>) -> Seq<(Val, Val)>
    decreases s,
{
    if s.len() == 0 {
        Seq::empty()
    } else {
        seq![(s[0].0.vmodel(), s[0].1.vmodel())] + entries_vmodel(s.drop_first())
    }
}

/// Elementwise characterization of [`seq_vmodel`].
pub broadcast proof fn lemma_seq_vmodel(s: Seq<Value>)
    ensures
        (#[trigger] seq_vmodel(s)).len() == s.len(),
        forall|i: int| 0 <= i < s.len() ==> seq_vmodel(s)[i] == #[trigger] s[i].vmodel(),
    decreases s,
{
    if s.len() > 0 {
        lemma_seq_vmodel(s.drop_first());
        assert forall|i: int| 0 <= i < s.len() implies seq_vmodel(s)[i] == #[trigger] s[i].vmodel() by {
            if i > 0 {
                assert(s.drop_first()[i - 1] == s[i]);
                assert(seq_vmodel(s)[i] == seq_vmodel(s.drop_first())[i - 1]);
            }
        }
    }
}

/// Elementwise characterization of [`named_vmodel`].
pub broadcast proof fn lemma_named_vmodel(s: Seq<(String, Value)>)
    ensures
        (#[trigger] named_vmodel(s)).len() == s.len(),
        forall|i: int|
            0 <= i < s.len() ==> named_vmodel(s)[i] == ((#[trigger] s[i]).0@, s[i].1.vmodel()),
    decreases s,
{
    if s.len() > 0 {
        lemma_named_vmodel(s.drop_first());
        assert forall|i: int|
            0 <= i < s.len() implies named_vmodel(s)[i] == ((#[trigger] s[i]).0@, s[i].1.vmodel()) by {
            if i > 0 {
                assert(s.drop_first()[i - 1] == s[i]);
                assert(named_vmodel(s)[i] == named_vmodel(s.drop_first())[i - 1]);
            }
        }
    }
}

/// Elementwise characterization of [`entries_vmodel`].
pub broadcast proof fn lemma_entries_vmodel(s: Seq<(Value, Value)>)
    ensures
        (#[trigger] entries_vmodel(s)).len() == s.len(),
        forall|i: int|
            0 <= i < s.len() ==> entries_vmodel(s)[i] == ((#[trigger] s[i]).0.vmodel(),
            s[i].1.vmodel()),
    decreases s,
{
    if s.len() > 0 {
        lemma_entries_vmodel(s.drop_first());
        assert forall|i: int|
            0 <= i < s.len() implies entries_vmodel(s)[i] == ((#[trigger] s[i]).0.vmodel(),
            s[i].1.vmodel()) by {
            if i > 0 {
                assert(s.drop_first()[i - 1] == s[i]);
                assert(entries_vmodel(s)[i] == entries_vmodel(s.drop_first())[i - 1]);
            }
        }
    }
}

} // verus!
