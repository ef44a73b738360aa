//! Enum reflection: the variant kind tag, the runtime enum container's
//! accessors, and a cursor over the active variant's fields.

use vstd::prelude::*;

use crate::model::{lookup_field, VariantVal};
use crate::value::{
    lemma_named_vmodel, lemma_seq_vmodel, named_vmodel, DynamicEnum, Value, VariantData,
};

verus! {

broadcast use lemma_seq_vmodel, lemma_named_vmodel;

/// The kind of an enum variant.
#[derive(PartialEq, Eq, Structural, Clone, Copy, Debug)]
pub enum VariantType {
    Unit,
    Tuple,
    Struct,
}

impl VariantData {
    /// The kind of variant this data belongs to.
    pub open spec fn spec_kind(&self) -> VariantType {
        match self {
            VariantData::Unit => VariantType::Unit,
            VariantData::Tuple(_) => VariantType::Tuple,
            VariantData::Struct(_) => VariantType::Struct,
        }
    }

    /// The number of fields carried by the variant.
    pub fn field_len(&self) -> (r: usize)
        ensures
            r as int == (match self.dmodel() {
                VariantVal::Unit => 0,
                VariantVal::Tuple(fields) => fields.len() as int,
                VariantVal::Struct(fields) => fields.len() as int,
            }),
    {
        match self {
            VariantData::Unit => 0,
            VariantData::Tuple(fields) => {
                proof {
                    assert(self.dmodel() == VariantVal::Tuple(crate::value::seq_vmodel(fields@)));
                    assert(crate::value::seq_vmodel(fields@).len() == fields@.len());
                }
                fields.len()
            },
            VariantData::Struct(fields) => {
                proof {
                    assert(self.dmodel() == VariantVal::Struct(
                        crate::value::named_vmodel(fields@),
                    ));
                    assert(crate::value::named_vmodel(fields@).len() == fields@.len());
                }
                fields.len()
            },
        }
    }
}

impl DynamicEnum {
    /// Creates an enum value with the given type name, active variant
    /// name, and variant data.
    pub fn new(name: String, variant_name: String, data: VariantData) -> (r: DynamicEnum)
        ensures
            r.name == name,
            r.variant_name == variant_name,
            r.data == data,
    {
        DynamicEnum { name, variant_name, data }
    }

    /// The name of the active variant.
    pub fn variant_name(&self) -> (r: &str)
        ensures
            r@ == self.variant_name@,
    {
        self.variant_name.as_str()
    }

    /// The kind of the active variant.
    pub fn variant_type(&self) -> (r: VariantType)
        ensures
            r == self.data.spec_kind(),
    {
        match &self.data {
            VariantData::Unit => VariantType::Unit,
            VariantData::Tuple(_) => VariantType::Tuple,
            VariantData::Struct(_) => VariantType::Struct,
        }
    }

    /// Whether the active variant has the given kind.
    pub fn is_variant(&self, variant_type: VariantType) -> (r: bool)
        ensures
            r == (self.data.spec_kind() == variant_type),
    {
        self.variant_type() == variant_type
    }

    /// The value of the field of the active struct variant with the given
    /// name, if any: `None` exactly when the active variant is not a
    /// struct variant or carries no field of that name.
    pub fn field(&self, name: &str) -> (r: Option<&Value>)
        ensures
            self.data is Struct ==> ({
                &&& r is Some ==> lookup_field(named_vmodel(self.data->Struct_0@), name@)
                    == Option::Some(r->0.vmodel())
                &&& r is None ==> lookup_field(named_vmodel(self.data->Struct_0@), name@) is None
            }),
            !(self.data is Struct) ==> r is None,
    {
        match &self.data {
            VariantData::Struct(fields) => {
                let owned = name.to_owned();
                crate::nochange::find_field(fields, &owned)
            },
            _ => Option::None,
        }
    }

    /// The value of the field of the active variant at the given
    /// position, if any.
    pub fn field_at(&self, index: usize) -> (r: Option<&Value>)
        ensures
            (r is Some) == (match self.data.dmodel() {
                VariantVal::Unit => false,
                VariantVal::Tuple(fields) => index < fields.len(),
                VariantVal::Struct(fields) => index < fields.len(),
            }),
            r is Some ==> r->0.vmodel() == (match self.data.dmodel() {
                VariantVal::Unit => r->0.vmodel(),
                VariantVal::Tuple(fields) => fields[index as int],
                VariantVal::Struct(fields) => fields[index as int].1,
            }),
    {
        match &self.data {
            VariantData::Unit => Option::None,
            VariantData::Tuple(fields) => {
                proof {
                    assert(self.data.dmodel() == VariantVal::Tuple(
                        crate::value::seq_vmodel(fields@),
                    ));
                    assert(crate::value::seq_vmodel(fields@).len() == fields@.len());
                }
                if index < fields.len() {
                    Option::Some(&fields[index])
                } else {
                    Option::None
                }
            },
            VariantData::Struct(fields) => {
                proof {
                    assert(self.data.dmodel() == VariantVal::Struct(
                        crate::value::named_vmodel(fields@),
                    ));
                    assert(crate::value::named_vmodel(fields@).len() == fields@.len());
                }
                if index < fields.len() {
                    Option::Some(&fields[index].1)
                } else {
                    Option::None
                }
            },
        }
    }

    /// The number of fields of the active variant.
    pub fn field_len(&self) -> (r: usize)
        ensures
            r as int == (match self.data.dmodel() {
                VariantVal::Unit => 0,
                VariantVal::Tuple(fields) => fields.len() as int,
                VariantVal::Struct(fields) => fields.len() as int,
            }),
    {
        self.data.field_len()
    }
}

/// An iterator-like cursor over the fields of the active variant of an
/// enum value.
pub struct VariantFieldIter<'a> {
    pub container: &'a DynamicEnum,
    pub index: usize,
}

impl<'a> VariantFieldIter<'a> {
    /// Creates a cursor at the first field of the active variant.
    pub fn new(container: &'a DynamicEnum) -> (r: VariantFieldIter<'a>)
        ensures
            r.container == container,
            r.index == 0,
    {
        VariantFieldIter { container, index: 0 }
    }

    /// The next field of the active variant, advancing the cursor: in
    /// range it yields the field of the active variant at the old index
    /// and advances; past the end it yields `None` and stays put.  The
    /// enum the cursor walks never changes.
    pub fn next(&mut self) -> (r: Option<&'a Value>)
        ensures
            final(self).container == old(self).container,
            (old(self).index as int) < (match old(self).container.data.dmodel() {
                VariantVal::Unit => 0int,
                VariantVal::Tuple(fields) => fields.len() as int,
                VariantVal::Struct(fields) => fields.len() as int,
            }) ==> r is Some && final(self).index == old(self).index + 1
                && r->0.vmodel() == (match old(self).container.data.dmodel() {
                VariantVal::Unit => r->0.vmodel(),
                VariantVal::Tuple(fields) => fields[old(self).index as int],
                VariantVal::Struct(fields) => fields[old(self).index as int].1,
            }),
            (old(self).index as int) >= (match old(self).container.data.dmodel() {
                VariantVal::Unit => 0int,
                VariantVal::Tuple(fields) => fields.len() as int,
                VariantVal::Struct(fields) => fields.len() as int,
            }) ==> r is None && final(self).index == old(self).index,
    {
        let n = self.container.field_len();
        if self.index < n {
            let r = self.container.field_at(self.index);
            self.index = self.index + 1;
            r
        } else {
            Option::None
        }
    }
}

} // verus!
