//! Tuple reflection: compile-time tuple metadata, the runtime tuple
//! container's mutation API, and the tuple operations of the value handle.

use vstd::prelude::*;

use crate::merge::{pos_mergeable, smerge_pos};
use crate::model::Val;
use crate::value::{lemma_seq_vmodel, seq_vmodel, DynamicTuple, Value};

verus! {

broadcast use lemma_seq_vmodel;

/// Compile-time metadata of a tuple type.
pub struct TupleMeta {
    /// The docstring of the tuple type, if any.
    pub docs: Option<&'static str>,
}

/// Compile-time info of a tuple type: its type path, its type identity
/// token, and the type paths of its elements.
pub struct TupleInfo {
    pub type_path: String,
    pub type_id: u64,
    pub fields: Vec<String>,
    pub meta: TupleMeta,
}

/// The element sequence of a tuple-shaped model.
pub open spec fn tuple_fields_of(v: Val) -> Seq<Val> {
    match v {
        Val::Tuple { fields, .. } => fields,
        _ => Seq::empty(),
    }
}

/// The separator and bracket pieces of a synthesized tuple name, joined
/// over the element type paths.
pub open spec fn joined_paths(paths: Seq<Seq<char>>) -> Seq<char>
    decreases paths,
{
    if paths.len() == 0 {
        Seq::empty()
    } else if paths.len() == 1 {
        paths[0]
    } else {
        paths[0] + ", "@ + joined_paths(paths.drop_first())
    }
}

/// The synthesized type name of a tuple with the given element type paths.
pub open spec fn synthesized_name(paths: Seq<Seq<char>>) -> Seq<char> {
    "("@ + joined_paths(paths) + ")"@
}

/// The type paths of a sequence of values, elementwise.
pub open spec fn field_paths(s: Seq<Value>) -> Seq<Seq<char>>
    decreases s,
{
    if s.len() == 0 {
        Seq::empty()
    } else {
        seq![s[0].spec_type_path()] + field_paths(s.drop_first())
    }
}

/// Elementwise characterization of [`field_paths`].
pub broadcast proof fn lemma_field_paths(s: Seq<Value>)
    ensures
        (#[trigger] field_paths(s)).len() == s.len(),
        forall|i: int| 0 <= i < s.len() ==> field_paths(s)[i] == #[trigger] s[i].spec_type_path(),
    decreases s,
{
    if s.len() > 0 {
        lemma_field_paths(s.drop_first());
        assert forall|i: int|
            0 <= i < s.len() implies field_paths(s)[i] == #[trigger] s[i].spec_type_path() by {
            if i > 0 {
                assert(s.drop_first()[i - 1] == s[i]);
                assert(field_paths(s)[i] == field_paths(s.drop_first())[i - 1]);
            }
        }
    }
}

/// Appending a path extends the join by a separator and the path.
proof fn lemma_joined_paths_push(paths: Seq<Seq<char>>, p: Seq<char>)
    ensures
        paths.len() == 0 ==> joined_paths(paths.push(p)) == p,
        paths.len() > 0 ==> joined_paths(paths.push(p)) == joined_paths(paths) + ", "@ + p,
    decreases paths,
{
    if paths.len() == 0 {
        assert(paths.push(p)[0] == p);
        assert(joined_paths(paths.push(p)) == p);
    } else {
        lemma_joined_paths_push(paths.drop_first(), p);
        assert(paths.push(p).drop_first() =~= paths.drop_first().push(p));
        assert(paths.push(p)[0] == paths[0]);
        if paths.len() == 1 {
            assert(joined_paths(paths.push(p)) == paths[0] + ", "@ + p);
            assert(joined_paths(paths) == paths[0]);
        } else {
            assert(joined_paths(paths.push(p)) == paths[0] + ", "@ + joined_paths(
                paths.drop_first().push(p),
            ));
            assert(joined_paths(paths.drop_first().push(p)) == joined_paths(paths.drop_first())
                + ", "@ + p);
            assert(paths[0] + ", "@ + (joined_paths(paths.drop_first()) + ", "@ + p) =~= (paths[0]
                + ", "@ + joined_paths(paths.drop_first())) + ", "@ + p);
        }
    }
}

impl TupleMeta {
    /// Creates empty tuple metadata.
    pub fn new() -> (r: TupleMeta)
        ensures
            r.docs is None,
    {
        TupleMeta { docs: Option::None }
    }

    /// Creates metadata carrying the given docstring.
    pub fn with_docs(docs: Option<&'static str>) -> (r: TupleMeta)
        ensures
            r.docs == docs,
    {
        TupleMeta { docs }
    }

    /// The docstring of the tuple, if any.
    pub fn docs(&self) -> (r: Option<&'static str>)
        ensures
            r == self.docs,
    {
        self.docs
    }
}

impl TupleInfo {
    /// Creates compile-time info for a tuple type with the given type
    /// path, type identity token, and element type paths.
    pub fn new(type_path: String, type_id: u64, fields: Vec<String>) -> (r: TupleInfo)
        ensures
            r.type_path@ == type_path@,
            r.type_id == type_id,
            r.fields@ == fields@,
            r.meta.docs is None,
    {
        TupleInfo { type_path, type_id, fields, meta: TupleMeta::new() }
    }

    /// Replaces the metadata of this tuple info.
    pub fn with_meta(self, meta: TupleMeta) -> (r: TupleInfo)
        ensures
            r.meta == meta,
            r.type_path == self.type_path,
            r.type_id == self.type_id,
            r.fields == self.fields,
    {
        TupleInfo { meta, ..self }
    }

    /// The type path of the element at the given position, if any.
    pub fn field_at(&self, index: usize) -> (r: Option<&String>)
        ensures
            index < self.fields@.len() ==> r is Some && r->0 == &self.fields@[index as int],
            index >= self.fields@.len() ==> r is None,
    {
        if index < self.fields.len() {
            Option::Some(&self.fields[index])
        } else {
            Option::None
        }
    }

    /// The element type paths, in order.
    pub fn iter(&self) -> (r: &Vec<String>)
        ensures
            r == &self.fields,
    {
        &self.fields
    }

    /// The number of elements of the tuple type.
    pub fn field_len(&self) -> (r: usize)
        ensures
            r == self.fields@.len(),
    {
        self.fields.len()
    }

    /// The type path of the tuple type.
    pub fn type_path(&self) -> (r: &str)
        ensures
            r@ == self.type_path@,
    {
        self.type_path.as_str()
    }

    /// The type identity token of the tuple type.
    pub fn type_id(&self) -> (r: u64)
        ensures
            r == self.type_id,
    {
        self.type_id
    }

    /// The metadata of the tuple type.
    pub fn meta(&self) -> (r: &TupleMeta)
        ensures
            r == &self.meta,
    {
        &self.meta
    }

    /// Whether the given type identity token matches this tuple type.
    pub fn is(&self, type_id: u64) -> (r: bool)
        ensures
            r == (type_id == self.type_id),
    {
        type_id == self.type_id
    }
}

impl DynamicTuple {
    /// Creates an empty dynamic tuple.
    pub fn new() -> (r: DynamicTuple)
        ensures
            r.fields@.len() == 0,
            r.represented is None,
            r.name@ == synthesized_name(field_paths(r.fields@)),
    {
        let mut name = String::new();
        name.append("(");
        name.append(")");
        let r = DynamicTuple { name, represented: Option::None, fields: Vec::new() };
        proof {
            assert(field_paths(r.fields@) =~= Seq::<Seq<char>>::empty());
            assert(r.name@ =~= synthesized_name(field_paths(r.fields@)));
        }
        r
    }

    /// Sets the type this tuple stands in for; clearing the tag makes the
    /// tuple report its synthesized name again.
    pub fn set_represented_type(&mut self, represented: Option<&TupleInfo>)
        ensures
            match represented {
                Option::Some(info) => final(self).represented == Option::Some(
                    info.type_path,
                ) || (final(self).represented is Some
                    && final(self).represented->0@ == info.type_path@),
                Option::None => final(self).represented is None,
            },
            final(self).name == old(self).name,
            final(self).fields == old(self).fields,
    {
        match represented {
            Option::Some(info) => {
                self.represented = Option::Some(info.type_path.clone());
            },
            Option::None => {
                self.represented = Option::None;
            },
        }
    }

    /// Regenerates the synthesized name from the current elements.
    fn generate_name(&mut self)
        ensures
            final(self).name@ == synthesized_name(field_paths(final(self).fields@)),
            final(self).fields == old(self).fields,
            final(self).represented == old(self).represented,
    {
        broadcast use lemma_field_paths;

        let mut name = String::new();
        name.append("(");
        let ghost paths = field_paths(self.fields@);
        let mut i: usize = 0;
        while i < self.fields.len()
            invariant
                i <= self.fields@.len(),
                paths == field_paths(self.fields@),
                paths.len() == self.fields@.len(),
                name@ == "("@ + joined_paths(paths.take(i as int)),
            decreases self.fields@.len() - i,
        {
            if i > 0 {
                name.append(", ");
            }
            let p = self.fields[i].type_path();
            name.append(p);
            proof {
                lemma_field_paths(self.fields@);
                assert(p@ == self.fields@[i as int].spec_type_path());
                assert(p@ == paths[i as int]);
                lemma_joined_paths_push(paths.take(i as int), paths[i as int]);
                assert(paths.take(i as int).push(paths[i as int]) =~= paths.take(i + 1));
                assert(joined_paths(paths.take(i + 1)) == joined_paths(
                    paths.take(i as int).push(paths[i as int]),
                ));
                if i == 0 {
                    assert(paths.take(0).len() == 0);
                    assert(joined_paths(paths.take(i + 1)) == paths[i as int]);
                    assert(name@ =~= "("@ + joined_paths(paths.take(i + 1)));
                } else {
                    assert(joined_paths(paths.take(i + 1)) == joined_paths(paths.take(i as int))
                        + ", "@ + paths[i as int]);
                    assert(name@ =~= "("@ + joined_paths(paths.take(i + 1)));
                }
            }
            i += 1;
        }
        name.append(")");
        proof {
            assert(paths.take(paths.len() as int) =~= paths);
        }
        self.name = name;
    }

    /// Appends a boxed element; the tuple sheds any represented-type tag
    /// and regenerates its synthesized name.
    pub fn insert_boxed(&mut self, value: Box<Value>)
        ensures
            final(self).fields@ == old(self).fields@.push(*value),
            final(self).represented is None,
            final(self).name@ == synthesized_name(field_paths(final(self).fields@)),
    {
        self.represented = Option::None;
        self.fields.push(*value);
        self.generate_name();
    }

    /// Appends an element; the tuple sheds any represented-type tag and
    /// regenerates its synthesized name.
    pub fn insert(&mut self, value: Value)
        ensures
            final(self).fields@ == old(self).fields@.push(value),
            final(self).represented is None,
            final(self).name@ == synthesized_name(field_paths(final(self).fields@)),
    {
        self.represented = Option::None;
        self.fields.push(value);
        self.generate_name();
    }

    /// The element at the given position, if any.
    pub fn field(&self, index: usize) -> (r: Option<&Value>)
        ensures
            index < self.fields@.len() ==> r is Some && r->0 == &self.fields@[index as int],
            index >= self.fields@.len() ==> r is None,
    {
        if index < self.fields.len() {
            Option::Some(&self.fields[index])
        } else {
            Option::None
        }
    }

    /// The number of elements.
    pub fn field_len(&self) -> (r: usize)
        ensures
            r == self.fields@.len(),
    {
        self.fields.len()
    }

    /// Takes the elements out of the tuple.
    pub fn drain(self) -> (r: Vec<Value>)
        ensures
            r == self.fields,
    {
        self.fields
    }
}

/// An iterator-like cursor over the elements of a dynamic tuple.
pub struct TupleFieldIter<'a> {
    pub tuple: &'a DynamicTuple,
    pub index: usize,
}

impl<'a> TupleFieldIter<'a> {
    /// Creates a cursor at the first element.
    pub fn new(value: &'a DynamicTuple) -> (r: TupleFieldIter<'a>)
        ensures
            r.tuple == value,
            r.index == 0,
    {
        TupleFieldIter { tuple: value, index: 0 }
    }

    /// The next element, advancing the cursor; `None` past the end.
    pub fn next(&mut self) -> (r: Option<&'a Value>)
        ensures
            final(self).tuple == old(self).tuple,
            old(self).index < old(self).tuple.fields@.len() ==> r is Some && r->0
                == &old(self).tuple.fields@[old(self).index as int] && final(self).index == old(
                self,
            ).index + 1,
            old(self).index >= old(self).tuple.fields@.len() ==> r is None && final(self).index
                == old(self).index,
    {
        if self.index < self.tuple.fields.len() {
            let r = &self.tuple.fields[self.index];
            self.index = self.index + 1;
            Option::Some(r)
        } else {
            Option::None
        }
    }
}

/// Applies the elements of `b` to the corresponding elements of `a`,
/// position by position; extra elements of `b` are ignored.
pub fn tuple_apply(a: &mut DynamicTuple, b: &Value)
    requires
        b.vmodel() is Tuple,
        pos_mergeable(seq_vmodel(old(a).fields@), tuple_fields_of(b.vmodel())),
    ensures
        seq_vmodel(final(a).fields@) == smerge_pos(
            seq_vmodel(old(a).fields@),
            tuple_fields_of(b.vmodel()),
            false,
        ),
        final(a).name == old(a).name,
        final(a).represented == old(a).represented,
{
    match b {
        Value::Tuple(p) => {
            let mut taken: Vec<Value> = Vec::new();
            core::mem::swap(&mut a.fields, &mut taken);
            proof {
                assert(seq_vmodel(p.fields@).skip(0) =~= seq_vmodel(p.fields@));
            }
            let merged = crate::merge::merge_pos(taken, &p.fields, 0, false);
            a.fields = merged;
        },
        _ => {
            proof {
                assert(false);
            }
        },
    }
}

} // verus!
