//! The structural deltas computed by the diff engine.
//!
//! A [`Diff`] reports either no change, a full replacement, or a
//! shape-specific modification ([`DiffType`]).  The payload types mirror
//! the shapes of the data model; list deltas carry an ordered edit script,
//! map deltas an unordered edit set.

use vstd::prelude::*;

use crate::diff_model::{DeltaM, DiffM, EditM, EnumDiffM, MapEditM};
use crate::value::Value;

verus! {

/// An owned value captured inside a diff.
pub enum ValueDiff {
    Owned(Value),
}

impl ValueDiff {
    /// The captured value.
    pub fn value(&self) -> (r: &Value)
        ensures
            r.vmodel() == self.vdm(),
    {
        match self {
            ValueDiff::Owned(v) => v,
        }
    }

    /// The model of the captured value.
    pub open spec fn vdm(&self) -> crate::model::Val {
        match self {
            ValueDiff::Owned(v) => v.vmodel(),
        }
    }

    /// Takes the captured value.
    pub fn into_value(self) -> (r: Value)
        ensures
            r.vmodel() == self.vdm(),
    {
        match self {
            ValueDiff::Owned(v) => v,
        }
    }
}

/// One edit of a list edit script.  Indices refer to positions in the old
/// sequence; an insertion appears before the old element at its index, and
/// several insertions may share one anchor.
pub enum ListDiff {
    /// The old element at this index was removed.
    Deleted(usize),
    /// The carried value was inserted before the old element at this index.
    Inserted(usize, ValueDiff),
}

impl ListDiff {
    /// The anchor index of this edit in the old sequence.
    pub fn index(&self) -> (r: usize)
        ensures
            r as int == crate::diff_model::edit_index(self.em()),
    {
        match self {
            ListDiff::Deleted(i) => *i,
            ListDiff::Inserted(i, _) => *i,
        }
    }

    /// The model of this edit.
    pub open spec fn em(&self) -> EditM {
        match self {
            ListDiff::Deleted(i) => EditM::Deleted(*i as int),
            ListDiff::Inserted(i, v) => EditM::Inserted(*i as int, v.vdm()),
        }
    }
}

/// One edit of a map delta.
pub enum MapDiff {
    /// The entry with the carried key was removed.
    Deleted(ValueDiff),
    /// An entry with the carried key and value was added.
    Inserted(ValueDiff, ValueDiff),
    /// The value of the entry with the carried key was modified.
    Modified(ValueDiff, Diff),
}

impl MapDiff {
    /// The model of this edit.
    pub open spec fn em(&self) -> MapEditM
        decreases self,
    {
        match self {
            MapDiff::Deleted(k) => MapEditM::Deleted(k.vdm()),
            MapDiff::Inserted(k, v) => MapEditM::Inserted(k.vdm(), v.vdm()),
            MapDiff::Modified(k, d) => MapEditM::Modified(k.vdm(), d.dm()),
        }
    }
}

/// Delta payload for tuples: position-aligned sub-diffs for every slot.
pub struct DiffedTuple {
    pub name: String,
    pub fields: Vec<Diff>,
}

/// Delta payload for arrays: position-aligned sub-diffs for every element.
pub struct DiffedArray {
    pub name: String,
    pub elements: Vec<Diff>,
}

/// Delta payload for lists: an ordered edit script over the old sequence.
pub struct DiffedList {
    pub name: String,
    pub changes: Vec<ListDiff>,
}

/// Delta payload for maps: an unordered set of edits over disjoint keys.
pub struct DiffedMap {
    pub name: String,
    pub changes: Vec<MapDiff>,
}

/// Delta payload for tuple structs: position-aligned sub-diffs.
pub struct DiffedTupleStruct {
    pub name: String,
    pub fields: Vec<Diff>,
}

/// Delta payload for structs: name-keyed sub-diffs in declaration order.
pub struct DiffedStruct {
    pub name: String,
    pub fields: Vec<(String, Diff)>,
}

/// Delta payload for enums: either a variant swap carrying the whole new
/// value, or a delta over the fields of the shared active variant.
pub enum EnumDiff {
    Swapped(ValueDiff),
    Tuple(DiffedTupleVariant),
    Struct(DiffedStructVariant),
}

/// Delta payload for a shared tuple variant.
pub struct DiffedTupleVariant {
    pub name: String,
    pub fields: Vec<Diff>,
}

/// Delta payload for a shared struct variant.
pub struct DiffedStructVariant {
    pub name: String,
    pub fields: Vec<(String, Diff)>,
}

/// The shape-specific payload of a modification.
pub enum DiffType {
    Value(ValueDiff),
    Tuple(DiffedTuple),
    Array(DiffedArray),
    List(DiffedList),
    Mapping(DiffedMap),
    TupleStruct(DiffedTupleStruct),
    Struct(DiffedStruct),
    Enum(EnumDiff),
}

/// The difference between two reflected values.
pub enum Diff {
    /// The two values are structurally equal.
    NoChange,
    /// The two values have different type identity; the whole new value is
    /// carried.
    Replaced(ValueDiff),
    /// Same type identity, different contents; a shape-specific delta is
    /// carried.
    Modified(DiffType),
}

/// The models of a sequence of diffs, elementwise.
pub open spec fn diffs_dm(s: Seq<Diff>) -> Seq<DiffM>
    decreases s,
{
    if s.len() == 0 {
        Seq::empty()
    } else {
        seq![s[0].dm()] + diffs_dm(s.drop_first())
    }
}

/// The models of a sequence of named diffs, elementwise.
pub open spec fn named_diffs_dm(s: Seq<(String, Diff)>) -> Seq<(Seq<char>, DiffM)>
    decreases s,
{
    if s.len() == 0 {
        Seq::empty()
    } else {
        seq![(s[0].0@, s[0].1.dm())] + named_diffs_dm(s.drop_first())
    }
}

/// The models of a list edit script, elementwise.
pub open spec fn edits_dm(s: Seq<ListDiff>) -> Seq<EditM>
    decreases s,
{
    if s.len() == 0 {
        Seq::empty()
    } else {
        seq![s[0].em()] + edits_dm(s.drop_first())
    }
}

/// The models of a map edit set, elementwise.
pub open spec fn map_edits_dm(s: Seq<MapDiff>) -> Seq<MapEditM>
    decreases s,
{
    if s.len() == 0 {
        Seq::empty()
    } else {
        seq![s[0].em()] + map_edits_dm(s.drop_first())
    }
}

impl Diff {
    /// The model of this diff.
    pub open spec fn dm(&self) -> DiffM
        decreases self,
    {
        match self {
            Diff::NoChange => DiffM::NoChange,
            Diff::Replaced(v) => DiffM::Replaced(v.vdm()),
            Diff::Modified(t) => DiffM::Modified(t.tm()),
        }
    }
}

impl DiffType {
    /// The model of this delta payload.
    pub open spec fn tm(&self) -> DeltaM
        decreases self,
    {
        match self {
            DiffType::Value(v) => DeltaM::Value(v.vdm()),
            DiffType::Tuple(t) => DeltaM::Tuple { name: t.name@, fields: diffs_dm(t.fields@) },
            DiffType::Array(a) => DeltaM::Array {
                name: a.name@,
                elems: diffs_dm(a.elements@),
            },
            DiffType::List(l) => DeltaM::List { name: l.name@, edits: edits_dm(l.changes@) },
            DiffType::Mapping(m) => DeltaM::Mapping {
                name: m.name@,
                edits: map_edits_dm(m.changes@),
            },
            DiffType::TupleStruct(t) => DeltaM::TupleStruct {
                name: t.name@,
                fields: diffs_dm(t.fields@),
            },
            DiffType::Struct(s) => DeltaM::Struct {
                name: s.name@,
                fields: named_diffs_dm(s.fields@),
            },
            DiffType::Enum(e) => DeltaM::Enum(e.edm()),
        }
    }

    /// The type name of the reflected value this delta concerns.
    pub fn type_path(&self) -> &str {
        match self {
            DiffType::Value(v) => v.value().type_path(),
            DiffType::Tuple(t) => t.name.as_str(),
            DiffType::Array(a) => a.name.as_str(),
            DiffType::List(l) => l.name.as_str(),
            DiffType::Mapping(m) => m.name.as_str(),
            DiffType::TupleStruct(t) => t.name.as_str(),
            DiffType::Struct(s) => s.name.as_str(),
            DiffType::Enum(e) => e.type_path(),
        }
    }
}

impl EnumDiff {
    /// The model of this enum delta.
    pub open spec fn edm(&self) -> EnumDiffM
        decreases self,
    {
        match self {
            EnumDiff::Swapped(v) => EnumDiffM::Swapped(v.vdm()),
            EnumDiff::Tuple(t) => EnumDiffM::Tuple { name: t.name@, fields: diffs_dm(t.fields@) },
            EnumDiff::Struct(s) => EnumDiffM::Struct {
                name: s.name@,
                fields: named_diffs_dm(s.fields@),
            },
        }
    }

    /// The type name of the enum this delta concerns.
    pub fn type_path(&self) -> &str {
        match self {
            EnumDiff::Swapped(v) => v.value().type_path(),
            EnumDiff::Tuple(t) => t.name.as_str(),
            EnumDiff::Struct(s) => s.name.as_str(),
        }
    }
}

impl DiffedTuple {
    /// The sub-diff at the given position.
    pub fn field(&self, index: usize) -> (r: Option<&Diff>)
        ensures
            index < self.fields@.len() ==> r is Some && r->0 == &self.fields@[index as int],
            index >= self.fields@.len() ==> r is None,
    {
        if index < self.fields.len() {
            Option::Some(&self.fields[index])
        } else {
            Option::None
        }
    }

    /// The number of positions in the diffed tuple.
    pub fn field_len(&self) -> (r: usize)
        ensures
            r == self.fields@.len(),
    {
        self.fields.len()
    }
}

impl DiffedTupleStruct {
    /// The sub-diff at the given position.
    pub fn field(&self, index: usize) -> (r: Option<&Diff>)
        ensures
            index < self.fields@.len() ==> r is Some && r->0 == &self.fields@[index as int],
            index >= self.fields@.len() ==> r is None,
    {
        if index < self.fields.len() {
            Option::Some(&self.fields[index])
        } else {
            Option::None
        }
    }

    /// The number of positions in the diffed tuple struct.
    pub fn field_len(&self) -> (r: usize)
        ensures
            r == self.fields@.len(),
    {
        self.fields.len()
    }
}

impl DiffedTupleVariant {
    /// The sub-diff at the given position.
    pub fn field(&self, index: usize) -> (r: Option<&Diff>)
        ensures
            index < self.fields@.len() ==> r is Some && r->0 == &self.fields@[index as int],
            index >= self.fields@.len() ==> r is None,
    {
        if index < self.fields.len() {
            Option::Some(&self.fields[index])
        } else {
            Option::None
        }
    }

    /// The number of positions in the diffed tuple variant.
    pub fn field_len(&self) -> (r: usize)
        ensures
            r == self.fields@.len(),
    {
        self.fields.len()
    }
}

impl DiffedArray {
    /// The sub-diff at the given position.
    pub fn get(&self, index: usize) -> (r: Option<&Diff>)
        ensures
            index < self.elements@.len() ==> r is Some && r->0 == &self.elements@[index as int],
            index >= self.elements@.len() ==> r is None,
    {
        if index < self.elements.len() {
            Option::Some(&self.elements[index])
        } else {
            Option::None
        }
    }

    /// The number of elements in the diffed array.
    pub fn len(&self) -> (r: usize)
        ensures
            r == self.elements@.len(),
    {
        self.elements.len()
    }

    /// Whether the diffed array has no elements.
    pub fn is_empty(&self) -> (r: bool)
        ensures
            r == (self.elements@.len() == 0),
    {
        self.elements.len() == 0
    }
}

impl DiffedList {
    /// The ordered edit script transforming the old list into the new one.
    pub fn changes(&self) -> (r: &Vec<ListDiff>)
        ensures
            r == &self.changes,
    {
        &self.changes
    }

    /// The number of edits in the script.
    pub fn len_changes(&self) -> (r: usize)
        ensures
            r == self.changes@.len(),
    {
        self.changes.len()
    }
}

impl DiffedMap {
    /// The unordered edits transforming the old map into the new one.
    pub fn changes(&self) -> (r: &Vec<MapDiff>)
        ensures
            r == &self.changes,
    {
        &self.changes
    }

    /// The number of edits.
    pub fn len_changes(&self) -> (r: usize)
        ensures
            r == self.changes@.len(),
    {
        self.changes.len()
    }
}

impl DiffedStruct {
    /// The sub-diff of the field with the given name, if any.
    pub fn field(&self, name: &str) -> (r: Option<&Diff>)
        ensures
            r is Some ==> lookup_diff(named_diffs_dm(self.fields@), name@) == Option::Some(
                r->0.dm(),
            ),
            r is None ==> lookup_diff(named_diffs_dm(self.fields@), name@) is None,
    {
        find_named_diff(&self.fields, name)
    }

    /// The sub-diff of the field at the given declaration position.
    pub fn field_at(&self, index: usize) -> (r: Option<&(String, Diff)>)
        ensures
            index < self.fields@.len() ==> r is Some && r->0 == &self.fields@[index as int],
            index >= self.fields@.len() ==> r is None,
    {
        if index < self.fields.len() {
            Option::Some(&self.fields[index])
        } else {
            Option::None
        }
    }

    /// The number of diffed fields.
    pub fn field_len(&self) -> (r: usize)
        ensures
            r == self.fields@.len(),
    {
        self.fields.len()
    }
}

impl DiffedStructVariant {
    /// The sub-diff of the field with the given name, if any.
    pub fn field(&self, name: &str) -> (r: Option<&Diff>)
        ensures
            r is Some ==> lookup_diff(named_diffs_dm(self.fields@), name@) == Option::Some(
                r->0.dm(),
            ),
            r is None ==> lookup_diff(named_diffs_dm(self.fields@), name@) is None,
    {
        find_named_diff(&self.fields, name)
    }

    /// The sub-diff of the field at the given declaration position.
    pub fn field_at(&self, index: usize) -> (r: Option<&(String, Diff)>)
        ensures
            index < self.fields@.len() ==> r is Some && r->0 == &self.fields@[index as int],
            index >= self.fields@.len() ==> r is None,
    {
        if index < self.fields.len() {
            Option::Some(&self.fields[index])
        } else {
            Option::None
        }
    }

    /// The number of diffed fields.
    pub fn field_len(&self) -> (r: usize)
        ensures
            r == self.fields@.len(),
    {
        self.fields.len()
    }
}

/// The first sub-diff of `s` recorded under the name `n`, if any.
pub open spec fn lookup_diff(s: Seq<(Seq<char>, DiffM)>, n: Seq<char>) -> Option<DiffM>
    decreases s,
{
    if s.len() == 0 {
        Option::None
    } else if s[0].0 == n {
        Option::Some(s[0].1)
    } else {
        lookup_diff(s.drop_first(), n)
    }
}

/// When the first sub-diff named `n` stands at position `i`, the lookup
/// returns it.
proof fn lemma_lookup_diff_at(s: Seq<(Seq<char>, DiffM)>, n: Seq<char>, i: int)
    requires
        0 <= i < s.len(),
        s[i].0 == n,
        forall|k: int| 0 <= k < i ==> (#[trigger] s[k]).0 != n,
    ensures
        lookup_diff(s, n) == Option::Some(s[i].1),
    decreases s,
{
    if i > 0 {
        assert(s[0].0 != n);
        lemma_lookup_diff_at(s.drop_first(), n, i - 1);
    }
}

/// When no sub-diff is named `n`, the lookup fails.
proof fn lemma_lookup_diff_none(s: Seq<(Seq<char>, DiffM)>, n: Seq<char>)
    requires
        forall|k: int| 0 <= k < s.len() ==> (#[trigger] s[k]).0 != n,
    ensures
        lookup_diff(s, n) is None,
    decreases s,
{
    if s.len() > 0 {
        lemma_lookup_diff_none(s.drop_first(), n);
    }
}

/// The first sub-diff recorded under the given field name in a vector of
/// named diffs, if any.
fn find_named_diff<'a>(fields: &'a Vec<(String, Diff)>, name: &str) -> (r: Option<&'a Diff>)
    ensures
        r is Some ==> lookup_diff(named_diffs_dm(fields@), name@) == Option::Some(r->0.dm()),
        r is None ==> lookup_diff(named_diffs_dm(fields@), name@) is None,
{
    proof {
        lemma_named_diffs_dm(fields@);
    }
    let owned = name.to_owned();
    let mut j: usize = 0;
    while j < fields.len()
        invariant
            j <= fields.len(),
            owned@ == name@,
            forall|k: int| 0 <= k < j ==> (#[trigger] named_diffs_dm(fields@)[k]).0 != name@,
            named_diffs_dm(fields@).len() == fields@.len(),
            forall|k: int|
                0 <= k < fields@.len() ==> #[trigger] named_diffs_dm(fields@)[k] == (
                    fields@[k].0@,
                    fields@[k].1.dm(),
                ),
        decreases fields.len() - j,
    {
        if fields[j].0 == owned {
            proof {
                lemma_lookup_diff_at(named_diffs_dm(fields@), name@, j as int);
            }
            return Option::Some(&fields[j].1);
        }
        j += 1;
    }
    proof {
        lemma_lookup_diff_none(named_diffs_dm(fields@), name@);
    }
    Option::None
}

/// Elementwise characterization of [`diffs_dm`].
pub broadcast proof fn lemma_diffs_dm(s: Seq<Diff>)
    ensures
        (#[trigger] diffs_dm(s)).len() == s.len(),
        forall|i: int| 0 <= i < s.len() ==> diffs_dm(s)[i] == #[trigger] s[i].dm(),
    decreases s,
{
    if s.len() > 0 {
        lemma_diffs_dm(s.drop_first());
        assert forall|i: int| 0 <= i < s.len() implies diffs_dm(s)[i] == #[trigger] s[i].dm() by {
            if i > 0 {
                assert(s.drop_first()[i - 1] == s[i]);
                assert(diffs_dm(s)[i] == diffs_dm(s.drop_first())[i - 1]);
            }
        }
    }
}

/// Elementwise characterization of [`named_diffs_dm`].
pub broadcast proof fn lemma_named_diffs_dm(s: Seq<(String, Diff)>)
    ensures
        (#[trigger] named_diffs_dm(s)).len() == s.len(),
        forall|i: int|
            0 <= i < s.len() ==> named_diffs_dm(s)[i] == ((#[trigger] s[i]).0@, s[i].1.dm()),
    decreases s,
{
    if s.len() > 0 {
        lemma_named_diffs_dm(s.drop_first());
        assert forall|i: int|
            0 <= i < s.len() implies named_diffs_dm(s)[i] == ((#[trigger] s[i]).0@, s[i].1.dm()) by {
            if i > 0 {
                assert(s.drop_first()[i - 1] == s[i]);
                assert(named_diffs_dm(s)[i] == named_diffs_dm(s.drop_first())[i - 1]);
            }
        }
    }
}

/// Elementwise characterization of [`edits_dm`].
pub broadcast proof fn lemma_edits_dm(s: Seq<ListDiff>)
    ensures
        (#[trigger] edits_dm(s)).len() == s.len(),
        forall|i: int| 0 <= i < s.len() ==> edits_dm(s)[i] == #[trigger] s[i].em(),
    decreases s,
{
    if s.len() > 0 {
        lemma_edits_dm(s.drop_first());
        assert forall|i: int| 0 <= i < s.len() implies edits_dm(s)[i] == #[trigger] s[i].em() by {
            if i > 0 {
                assert(s.drop_first()[i - 1] == s[i]);
                assert(edits_dm(s)[i] == edits_dm(s.drop_first())[i - 1]);
            }
        }
    }
}

/// Elementwise characterization of [`map_edits_dm`].
pub broadcast proof fn lemma_map_edits_dm(s: Seq<MapDiff>)
    ensures
        (#[trigger] map_edits_dm(s)).len() == s.len(),
        forall|i: int| 0 <= i < s.len() ==> map_edits_dm(s)[i] == #[trigger] s[i].em(),
    decreases s,
{
    if s.len() > 0 {
        lemma_map_edits_dm(s.drop_first());
        assert forall|i: int|
            0 <= i < s.len() implies map_edits_dm(s)[i] == #[trigger] s[i].em() by {
            if i > 0 {
                assert(s.drop_first()[i - 1] == s[i]);
                assert(map_edits_dm(s)[i] == map_edits_dm(s.drop_first())[i - 1]);
            }
        }
    }
}


/// Appending one map edit extends the modelled edit set by its model.
pub proof fn lemma_map_edits_dm_push(s: Seq<MapDiff>, e: MapDiff)
    ensures
        map_edits_dm(s.push(e)) == map_edits_dm(s) + seq![e.em()],
{
    lemma_map_edits_dm(s);
    lemma_map_edits_dm(s.push(e));
    assert forall|i: int|
        0 <= i < s.len() + 1 implies map_edits_dm(s.push(e))[i] == (map_edits_dm(s) + seq![
        e.em(),
    ])[i] by {
        assert(map_edits_dm(s.push(e))[i] == s.push(e)[i].em());
        if i < s.len() {
            assert(s.push(e)[i] == s[i]);
            assert(map_edits_dm(s)[i] == s[i].em());
        } else {
            assert(s.push(e)[i] == e);
        }
    }
    assert(map_edits_dm(s.push(e)) =~= map_edits_dm(s) + seq![e.em()]);
}

/// Appending one named diff extends the modelled fields by its model.
pub proof fn lemma_named_diffs_dm_push(s: Seq<(String, Diff)>, e: (String, Diff))
    ensures
        named_diffs_dm(s.push(e)) == named_diffs_dm(s) + seq![(e.0@, e.1.dm())],
{
    lemma_named_diffs_dm(s);
    lemma_named_diffs_dm(s.push(e));
    assert forall|i: int|
        0 <= i < s.len() + 1 implies named_diffs_dm(s.push(e))[i] == (named_diffs_dm(s) + seq![
        (e.0@, e.1.dm()),
    ])[i] by {
        if i < s.len() {
            assert(s.push(e)[i] == s[i]);
        } else {
            assert(s.push(e)[i] == e);
        }
    }
    assert(named_diffs_dm(s.push(e)) =~= named_diffs_dm(s) + seq![(e.0@, e.1.dm())]);
}

} // verus!
