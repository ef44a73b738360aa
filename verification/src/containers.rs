//! Construction and access for the runtime containers, and the leaf
//! accessors of the value handle.

use vstd::prelude::*;

use crate::lemmas::{
    lemma_insert_entry_at, lemma_insert_entry_none, lemma_lookup_field_at,
    lemma_lookup_field_none, lemma_update_field_at,
};
use crate::model::{comparable, lookup_entry, lookup_field, LeafVal, Val};
use crate::nochange::{find_entry, find_field};
use crate::value::{
    entries_vmodel, lemma_entries_vmodel, lemma_named_vmodel, lemma_seq_vmodel, named_vmodel,
    DynamicArray, DynamicList, DynamicMap, DynamicStruct, DynamicTupleStruct, Leaf, Value,
};

verus! {

broadcast use lemma_seq_vmodel, lemma_named_vmodel, lemma_entries_vmodel;

impl DynamicStruct {
    /// Creates an empty struct value with the given type name.
    pub fn new(name: String) -> (r: DynamicStruct)
        ensures
            r.name == name,
            r.represented is None,
            r.fields@.len() == 0,
    {
        DynamicStruct { name, represented: Option::None, fields: Vec::new() }
    }

    /// Stores `value` under the field `name`: the first field with that
    /// name is overwritten, else a new field is appended.
    pub fn insert(&mut self, name: &str, value: Value)
        ensures
            lookup_field(named_vmodel(old(self).fields@), name@) is Some ==> named_vmodel(
                final(self).fields@,
            ) == crate::diff_model::update_field(
                named_vmodel(old(self).fields@),
                name@,
                value.vmodel(),
            ),
            lookup_field(named_vmodel(old(self).fields@), name@) is None ==> named_vmodel(
                final(self).fields@,
            ) == named_vmodel(old(self).fields@).push((name@, value.vmodel())),
            final(self).name == old(self).name,
            final(self).represented == old(self).represented,
    {
        let owned = name.to_owned();
        let ghost bm0 = named_vmodel(self.fields@);
        let pos = crate::apply::find_field_pos(&self.fields, &owned);
        match pos {
            Option::Some(p) => {
                proof {
                    lemma_lookup_field_at(bm0, name@, p as int);
                    lemma_update_field_at(bm0, name@, value.vmodel(), p as int);
                }
                let ghost basev = self.fields@;
                let entry = self.fields.remove(p);
                self.fields.insert(p, (entry.0, value));
                proof {
                    assert(self.fields@ =~= basev.update(
                        p as int,
                        (entry.0, self.fields@[p as int].1),
                    ));
                    assert forall|k: int|
                        0 <= k < bm0.len() implies named_vmodel(self.fields@)[k]
                        == crate::diff_model::update_field(
                        bm0,
                        name@,
                        basev.update(p as int, (entry.0, self.fields@[p as int].1))[
                            p as int].1.vmodel(),
                    )[k] by {
                        assert(named_vmodel(self.fields@)[k] == ((
                        #[trigger] self.fields@[k]).0@, self.fields@[k].1.vmodel()));
                        if k != p {
                            assert(self.fields@[k] == basev[k]);
                        }
                    }
                    assert(named_vmodel(self.fields@) =~= crate::diff_model::update_field(
                        bm0,
                        name@,
                        self.fields@[p as int].1.vmodel(),
                    ));
                }
            },
            Option::None => {
                proof {
                    lemma_lookup_field_none(bm0, name@);
                }
                let ghost basev = self.fields@;
                self.fields.push((owned, value));
                proof {
                    assert forall|k: int|
                        0 <= k < self.fields@.len() implies named_vmodel(self.fields@)[k]
                        == bm0.push((name@, self.fields@[self.fields@.len() - 1].1.vmodel()))[k]
                         by {
                        assert(named_vmodel(self.fields@)[k] == ((
                        #[trigger] self.fields@[k]).0@, self.fields@[k].1.vmodel()));
                        if k < self.fields@.len() - 1 {
                            assert(self.fields@[k] == basev[k]);
                        }
                    }
                    assert(named_vmodel(self.fields@) =~= bm0.push(
                        (name@, self.fields@[self.fields@.len() - 1].1.vmodel()),
                    ));
                }
            },
        }
    }

    /// The value of the first field with the given name, if any.
    pub fn field(&self, name: &str) -> (r: Option<&Value>)
        ensures
            r is Some ==> lookup_field(named_vmodel(self.fields@), name@) == Option::Some(
                r->0.vmodel(),
            ),
            r is None ==> lookup_field(named_vmodel(self.fields@), name@) is None,
    {
        let owned = name.to_owned();
        find_field(&self.fields, &owned)
    }

    /// The field at the given declaration position, if any.
    pub fn field_at(&self, index: usize) -> (r: Option<&(String, Value)>)
        ensures
            index < self.fields@.len() ==> r is Some && r->0 == &self.fields@[index as int],
            index >= self.fields@.len() ==> r is None,
    {
        if index < self.fields.len() {
            Option::Some(&self.fields[index])
        } else {
            Option::None
        }
    }

    /// The name of the field at the given position, if any.
    pub fn name_at(&self, index: usize) -> (r: Option<&String>)
        ensures
            index < self.fields@.len() ==> r is Some && r->0 == &self.fields@[index as int].0,
            index >= self.fields@.len() ==> r is None,
    {
        if index < self.fields.len() {
            Option::Some(&self.fields[index].0)
        } else {
            Option::None
        }
    }

    /// The number of fields.
    pub fn field_len(&self) -> (r: usize)
        ensures
            r == self.fields@.len(),
    {
        self.fields.len()
    }
}

impl Default for DynamicStruct {
    /// An empty struct value with an empty type name.
    fn default() -> (r: Self)
        ensures
            r.name@.len() == 0,
            r.represented is None,
            r.fields@.len() == 0,
    {
        DynamicStruct { name: String::new(), represented: Option::None, fields: Vec::new() }
    }
}

impl DynamicList {
    /// Creates an empty list value with the given type name.
    pub fn new(name: String) -> (r: DynamicList)
        ensures
            r.name == name,
            r.represented is None,
            r.elements@.len() == 0,
    {
        DynamicList { name, represented: Option::None, elements: Vec::new() }
    }

    /// Appends an element.
    pub fn push(&mut self, value: Value)
        ensures
            final(self).elements@ == old(self).elements@.push(value),
            final(self).name == old(self).name,
            final(self).represented == old(self).represented,
    {
        self.elements.push(value);
    }

    /// Removes and returns the last element, if any.
    pub fn pop(&mut self) -> (r: Option<Value>)
        ensures
            old(self).elements@.len() > 0 ==> r == Option::Some(old(self).elements@.last())
                && final(self).elements@ == old(self).elements@.drop_last(),
            old(self).elements@.len() == 0 ==> r is None && final(self).elements@ == old(
                self,
            ).elements@,
            final(self).name == old(self).name,
            final(self).represented == old(self).represented,
    {
        self.elements.pop()
    }

    /// The element at the given position, if any.
    pub fn get(&self, index: usize) -> (r: Option<&Value>)
        ensures
            index < self.elements@.len() ==> r is Some && r->0 == &self.elements@[index as int],
            index >= self.elements@.len() ==> r is None,
    {
        if index < self.elements.len() {
            Option::Some(&self.elements[index])
        } else {
            Option::None
        }
    }

    /// The number of elements.
    pub fn len(&self) -> (r: usize)
        ensures
            r == self.elements@.len(),
    {
        self.elements.len()
    }

    /// Takes the elements out of the list.
    pub fn drain(self) -> (r: Vec<Value>)
        ensures
            r == self.elements,
    {
        self.elements
    }
}

impl Default for DynamicList {
    /// An empty list value with an empty type name.
    fn default() -> (r: Self)
        ensures
            r.name@.len() == 0,
            r.represented is None,
            r.elements@.len() == 0,
    {
        DynamicList { name: String::new(), represented: Option::None, elements: Vec::new() }
    }
}

impl DynamicArray {
    /// Creates an array value with the given type name from its elements.
    pub fn from_vec(name: String, values: Vec<Value>) -> (r: DynamicArray)
        ensures
            r.name == name,
            r.represented is None,
            r.elements == values,
    {
        DynamicArray { name, represented: Option::None, elements: values }
    }

    /// The element at the given position, if any.
    pub fn get(&self, index: usize) -> (r: Option<&Value>)
        ensures
            index < self.elements@.len() ==> r is Some && r->0 == &self.elements@[index as int],
            index >= self.elements@.len() ==> r is None,
    {
        if index < self.elements.len() {
            Option::Some(&self.elements[index])
        } else {
            Option::None
        }
    }

    /// The fixed number of elements.
    pub fn len(&self) -> (r: usize)
        ensures
            r == self.elements@.len(),
    {
        self.elements.len()
    }

    /// Takes the elements out of the array.
    pub fn drain(self) -> (r: Vec<Value>)
        ensures
            r == self.elements,
    {
        self.elements
    }
}

impl DynamicMap {
    /// Creates an empty map value with the given type name.
    pub fn new(name: String) -> (r: DynamicMap)
        ensures
            r.name == name,
            r.represented is None,
            r.entries@.len() == 0,
    {
        DynamicMap { name, represented: Option::None, entries: Vec::new() }
    }

    /// Stores `value` under `key`: the first entry with an equal key has
    /// its value overwritten, else a new entry is appended.  The key must
    /// support the equality probe.
    pub fn insert(&mut self, key: Value, value: Value)
        requires
            comparable(key.vmodel()),
        ensures
            entries_vmodel(final(self).entries@) == crate::diff_model::insert_entry(
                entries_vmodel(old(self).entries@),
                key.vmodel(),
                value.vmodel(),
            ),
            final(self).name == old(self).name,
            final(self).represented == old(self).represented,
    {
        let ghost bm0 = entries_vmodel(self.entries@);
        let pos = crate::apply::find_entry_pos(&self.entries, &key);
        match pos {
            Option::Some(p) => {
                proof {
                    lemma_insert_entry_at(bm0, key.vmodel(), value.vmodel(), p as int);
                }
                let ghost basev = self.entries@;
                let entry = self.entries.remove(p);
                self.entries.insert(p, (entry.0, value));
                proof {
                    assert(self.entries@ =~= basev.update(
                        p as int,
                        (entry.0, self.entries@[p as int].1),
                    ));
                    assert forall|k: int|
                        0 <= k < bm0.len() implies entries_vmodel(self.entries@)[k] == bm0.update(
                        p as int,
                        (bm0[p as int].0, self.entries@[p as int].1.vmodel()),
                    )[k] by {
                        assert(entries_vmodel(self.entries@)[k] == ((
                        #[trigger] self.entries@[k]).0.vmodel(), self.entries@[k].1.vmodel()));
                        if k != p {
                            assert(self.entries@[k] == basev[k]);
                        }
                    }
                    assert(entries_vmodel(self.entries@) =~= crate::diff_model::insert_entry(
                        bm0,
                        key.vmodel(),
                        self.entries@[p as int].1.vmodel(),
                    ));
                }
            },
            Option::None => {
                proof {
                    lemma_insert_entry_none(bm0, key.vmodel(), value.vmodel());
                }
                let ghost basev = self.entries@;
                let ghost km = key.vmodel();
                let ghost vm = value.vmodel();
                self.entries.push((key, value));
                proof {
                    assert forall|k: int|
                        0 <= k < self.entries@.len() implies entries_vmodel(self.entries@)[k]
                        == bm0.push((km, vm))[k] by {
                        assert(entries_vmodel(self.entries@)[k] == ((
                        #[trigger] self.entries@[k]).0.vmodel(), self.entries@[k].1.vmodel()));
                        if k < self.entries@.len() - 1 {
                            assert(self.entries@[k] == basev[k]);
                        }
                    }
                    assert(entries_vmodel(self.entries@) =~= bm0.push((km, vm)));
                }
            },
        }
    }

    /// The value under the first key equal to `key`, if any.
    pub fn get(&self, key: &Value) -> (r: Option<&Value>)
        ensures
            r is Some ==> lookup_entry(entries_vmodel(self.entries@), key.vmodel())
                == Option::Some(r->0.vmodel()),
            r is None ==> lookup_entry(entries_vmodel(self.entries@), key.vmodel()) is None,
    {
        find_entry(&self.entries, key)
    }

    /// The number of entries.
    pub fn len(&self) -> (r: usize)
        ensures
            r == self.entries@.len(),
    {
        self.entries.len()
    }

    /// Takes the entries out of the map.
    pub fn drain(self) -> (r: Vec<(Value, Value)>)
        ensures
            r == self.entries,
    {
        self.entries
    }
}

impl Default for DynamicMap {
    /// An empty map value with an empty type name.
    fn default() -> (r: Self)
        ensures
            r.name@.len() == 0,
            r.represented is None,
            r.entries@.len() == 0,
    {
        DynamicMap { name: String::new(), represented: Option::None, entries: Vec::new() }
    }
}

impl DynamicTupleStruct {
    /// Creates an empty tuple struct value with the given type name.
    pub fn new(name: String) -> (r: DynamicTupleStruct)
        ensures
            r.name == name,
            r.represented is None,
            r.fields@.len() == 0,
    {
        DynamicTupleStruct { name, represented: Option::None, fields: Vec::new() }
    }

    /// Appends a field.
    pub fn insert(&mut self, value: Value)
        ensures
            final(self).fields@ == old(self).fields@.push(value),
            final(self).name == old(self).name,
            final(self).represented == old(self).represented,
    {
        self.fields.push(value);
    }

    /// The field at the given position, if any.
    pub fn field(&self, index: usize) -> (r: Option<&Value>)
        ensures
            index < self.fields@.len() ==> r is Some && r->0 == &self.fields@[index as int],
            index >= self.fields@.len() ==> r is None,
    {
        if index < self.fields.len() {
            Option::Some(&self.fields[index])
        } else {
            Option::None
        }
    }

    /// The number of fields.
    pub fn field_len(&self) -> (r: usize)
        ensures
            r == self.fields@.len(),
    {
        self.fields.len()
    }

    /// Takes the fields out of the tuple struct.
    pub fn drain(self) -> (r: Vec<Value>)
        ensures
            r == self.fields,
    {
        self.fields
    }
}

impl Default for DynamicTupleStruct {
    /// An empty tuple struct value with an empty type name.
    fn default() -> (r: Self)
        ensures
            r.name@.len() == 0,
            r.represented is None,
            r.fields@.len() == 0,
    {
        DynamicTupleStruct { name: String::new(), represented: Option::None, fields: Vec::new() }
    }
}

impl Value {
    /// The carried `bool`, when this value is a boolean leaf.
    pub fn as_bool(&self) -> (r: Option<bool>)
        ensures
            r == (match self.vmodel() {
                Val::Leaf(LeafVal::Bool(x)) => Option::Some(x),
                _ => Option::<bool>::None,
            }),
    {
        match self {
            Value::Leaf(Leaf::Bool(x)) => Option::Some(*x),
            _ => Option::None,
        }
    }

    /// The carried `i32`, when this value is an `i32` leaf.
    pub fn as_i32(&self) -> (r: Option<i32>)
        ensures
            r == (match self.vmodel() {
                Val::Leaf(LeafVal::I32(x)) => Option::Some(x),
                _ => Option::<i32>::None,
            }),
    {
        match self {
            Value::Leaf(Leaf::I32(x)) => Option::Some(*x),
            _ => Option::None,
        }
    }

    /// The carried `u32`, when this value is a `u32` leaf.
    pub fn as_u32(&self) -> (r: Option<u32>)
        ensures
            r == (match self.vmodel() {
                Val::Leaf(LeafVal::U32(x)) => Option::Some(x),
                _ => Option::<u32>::None,
            }),
    {
        match self {
            Value::Leaf(Leaf::U32(x)) => Option::Some(*x),
            _ => Option::None,
        }
    }

    /// The carried `u64`, when this value is a `u64` leaf.
    pub fn as_u64(&self) -> (r: Option<u64>)
        ensures
            r == (match self.vmodel() {
                Val::Leaf(LeafVal::U64(x)) => Option::Some(x),
                _ => Option::<u64>::None,
            }),
    {
        match self {
            Value::Leaf(Leaf::U64(x)) => Option::Some(*x),
            _ => Option::None,
        }
    }

    /// The carried `usize`, when this value is a `usize` leaf.
    pub fn as_usize(&self) -> (r: Option<usize>)
        ensures
            r == (match self.vmodel() {
                Val::Leaf(LeafVal::USize(x)) => Option::Some(x),
                _ => Option::<usize>::None,
            }),
    {
        match self {
            Value::Leaf(Leaf::USize(x)) => Option::Some(*x),
            _ => Option::None,
        }
    }

    /// The carried `isize`, when this value is an `isize` leaf.
    pub fn as_isize(&self) -> (r: Option<isize>)
        ensures
            r == (match self.vmodel() {
                Val::Leaf(LeafVal::ISize(x)) => Option::Some(x),
                _ => Option::<isize>::None,
            }),
    {
        match self {
            Value::Leaf(Leaf::ISize(x)) => Option::Some(*x),
            _ => Option::None,
        }
    }

    /// The carried `i8`, when this value is an `i8` leaf.
    pub fn as_i8(&self) -> (r: Option<i8>)
        ensures
            r == (match self.vmodel() {
                Val::Leaf(LeafVal::I8(x)) => Option::Some(x),
                _ => Option::<i8>::None,
            }),
    {
        match self {
            Value::Leaf(Leaf::I8(x)) => Option::Some(*x),
            _ => Option::None,
        }
    }

    /// The carried string, when this value is a string leaf.
    pub fn as_str_leaf(&self) -> (r: Option<&String>)
        ensures
            r is Some ==> self.vmodel() == Val::Leaf(LeafVal::Str(r->0@)),
            r is None ==> !(self.vmodel() is Leaf && self.vmodel()->0 is Str),
    {
        match self {
            Value::Leaf(Leaf::Str(s)) => Option::Some(s),
            _ => Option::None,
        }
    }

    /// The carried `f32` bit pattern, when this value is an `f32` leaf.
    pub fn as_f32_bits(&self) -> (r: Option<u32>)
        ensures
            r == (match self.vmodel() {
                Val::Leaf(LeafVal::F32Bits(x)) => Option::Some(x),
                _ => Option::<u32>::None,
            }),
    {
        match self {
            Value::Leaf(Leaf::F32Bits(x)) => Option::Some(*x),
            _ => Option::None,
        }
    }
}

} // verus!
