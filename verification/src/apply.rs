//! The apply engine: consuming a previously computed diff and a base
//! value, producing the updated value.
//!
//! `NoChange` returns the base untouched, `Replaced` returns the carried
//! value, and a `Modified` delta is applied shape by shape; the base's
//! shape must match the delta's.  The result is exactly
//! [`crate::diff_model::sapply`] of the models.

use vstd::prelude::*;

use crate::diff::{
    diffs_dm, lemma_diffs_dm, lemma_map_edits_dm, lemma_named_diffs_dm, map_edits_dm,
    named_diffs_dm, Diff, DiffType, EnumDiff, ListDiff, MapDiff,
};
use crate::diff_error::DiffApplyError;
use crate::diff_model::{
    insert_entry, remove_entry, replay, sapply, sapply_map, sapply_named, sapply_seq,
    update_entry, update_field, ApplyErr, DeltaM, DiffM, EnumDiffM,
};
use crate::eq::value_eq;
use crate::lemmas::{
    lemma_insert_entry_at, lemma_insert_entry_none, lemma_lookup_entry_at,
    lemma_lookup_entry_none, lemma_lookup_field_at, lemma_lookup_field_none,
    lemma_remove_entry_at, lemma_remove_entry_none, lemma_update_field_at,
};
use crate::model::{veq, Val, VariantVal};
use crate::value::{
    entries_vmodel, lemma_entries_vmodel, lemma_named_vmodel, lemma_seq_vmodel, named_vmodel,
    seq_vmodel, DynamicArray, DynamicEnum, DynamicList, DynamicMap, DynamicStruct, DynamicTuple,
    DynamicTupleStruct, Value, VariantData,
};

verus! {

broadcast use lemma_seq_vmodel, lemma_named_vmodel, lemma_entries_vmodel, lemma_diffs_dm,
    lemma_named_diffs_dm, lemma_map_edits_dm;

/// The model of an apply-time error value.
pub open spec fn aerr(e: DiffApplyError) -> ApplyErr {
    match e {
        DiffApplyError::ExpectedValue => ApplyErr::ExpectedValue,
        DiffApplyError::ExpectedTuple => ApplyErr::ExpectedTuple,
        DiffApplyError::ExpectedArray => ApplyErr::ExpectedArray,
        DiffApplyError::ExpectedList => ApplyErr::ExpectedList,
        DiffApplyError::ExpectedMap => ApplyErr::ExpectedMap,
        DiffApplyError::ExpectedTupleStruct => ApplyErr::ExpectedTupleStruct,
        DiffApplyError::ExpectedStruct => ApplyErr::ExpectedStruct,
        DiffApplyError::ExpectedEnum => ApplyErr::ExpectedEnum,
        DiffApplyError::ExpectedTupleVariant => ApplyErr::ExpectedTupleVariant,
        DiffApplyError::ExpectedStructVariant => ApplyErr::ExpectedStructVariant,
        DiffApplyError::MissingField => ApplyErr::MissingField,
        DiffApplyError::TypeMismatch => ApplyErr::TypeMismatch,
        DiffApplyError::Failed(s) => ApplyErr::Failed(s@),
    }
}

/// The position of the first field with the given name, if any.
pub fn find_field_pos(fields: &Vec<(String, Value)>, name: &String) -> (r: Option<usize>)
    ensures
        r is Some ==> r->0 < fields@.len() && (named_vmodel(fields@)[r->0 as int]).0 == name@
            && (forall|k: int|
            0 <= k < r->0 ==> (#[trigger] named_vmodel(fields@)[k]).0 != name@),
        r is None ==> forall|k: int|
            0 <= k < fields@.len() ==> (#[trigger] named_vmodel(fields@)[k]).0 != name@,
{
    let mut j: usize = 0;
    while j < fields.len()
        invariant
            j <= fields.len(),
            forall|k: int| 0 <= k < j ==> (#[trigger] named_vmodel(fields@)[k]).0 != name@,
        decreases fields.len() - j,
    {
        if fields[j].0 == *name {
            return Option::Some(j);
        }
        j += 1;
    }
    Option::None
}

/// The position of the first entry whose key equals the given key, if any.
pub fn find_entry_pos(entries: &Vec<(Value, Value)>, key: &Value) -> (r: Option<usize>)
    ensures
        r is Some ==> r->0 < entries@.len() && veq(
            (entries_vmodel(entries@)[r->0 as int]).0,
            key.vmodel(),
        ) && (forall|k: int|
            0 <= k < r->0 ==> !veq((#[trigger] entries_vmodel(entries@)[k]).0, key.vmodel())),
        r is None ==> forall|k: int|
            0 <= k < entries@.len() ==> !veq(
                (#[trigger] entries_vmodel(entries@)[k]).0,
                key.vmodel(),
            ),
{
    let mut j: usize = 0;
    while j < entries.len()
        invariant
            j <= entries.len(),
            forall|k: int|
                0 <= k < j ==> !veq((#[trigger] entries_vmodel(entries@)[k]).0, key.vmodel()),
        decreases entries.len() - j,
    {
        if value_eq(&entries[j].0, key) {
            return Option::Some(j);
        }
        j += 1;
    }
    Option::None
}

/// Applies positional sub-diffs to the corresponding base values.
fn apply_seq(ds: Vec<Diff>, base: Vec<Value>) -> (r: Result<Vec<Value>, DiffApplyError>)
    requires
        ds@.len() == base@.len(),
    ensures
        r is Ok ==> sapply_seq(diffs_dm(ds@), seq_vmodel(base@)) == Result::<Seq<Val>, ApplyErr>::Ok(
            seq_vmodel(r->Ok_0@),
        ),
        r is Err ==> sapply_seq(diffs_dm(ds@), seq_vmodel(base@)) == Result::<
            Seq<Val>,
            ApplyErr,
        >::Err(aerr(r->Err_0)),
    decreases ds@,
{
    let mut ds = ds;
    let mut base = base;
    if ds.len() == 0 {
        let out: Vec<Value> = Vec::new();
        proof {
            assert(seq_vmodel(out@) =~= Seq::<Val>::empty());
        }
        return Result::Ok(out);
    }
    let ghost ds0 = ds@;
    let ghost base0 = base@;
    let d = ds.remove(0);
    let b = base.remove(0);
    proof {
        assert(d == ds0[0]);
        assert(ds@ =~= ds0.drop_first());
        assert(base@ =~= base0.drop_first());
        assert(diffs_dm(ds0)[0] == d.dm());
        assert(diffs_dm(ds@) =~= diffs_dm(ds0).drop_first());
        assert(seq_vmodel(base0)[0] == b.vmodel());
        assert(seq_vmodel(base@) =~= seq_vmodel(base0).drop_first());
    }
    let v = match d.apply(b) {
        Result::Err(e) => {
            return Result::Err(e);
        },
        Result::Ok(v) => v,
    };
    let rest = match apply_seq(ds, base) {
        Result::Err(e) => {
            return Result::Err(e);
        },
        Result::Ok(rest) => rest,
    };
    let ghost restv = rest@;
    let mut out = rest;
    out.insert(0, v);
    proof {
        assert(out@ =~= seq![v] + restv);
        assert forall|k: int|
            0 <= k < out@.len() implies seq_vmodel(out@)[k] == (seq![v.vmodel()] + seq_vmodel(
            restv,
        ))[k] by {
            assert(seq_vmodel(out@)[k] == out@[k].vmodel());
            if k > 0 {
                assert(out@[k] == restv[k - 1]);
            }
        }
        assert(seq_vmodel(out@) =~= seq![v.vmodel()] + seq_vmodel(restv));
    }
    Result::Ok(out)
}

/// Applies named sub-diffs to the same-named base fields, in order.
#[verifier::rlimit(100)]
fn apply_named(ds: Vec<(String, Diff)>, base: Vec<(String, Value)>) -> (r: Result<
    Vec<(String, Value)>,
    DiffApplyError,
>)
    ensures
        r is Ok ==> sapply_named(named_diffs_dm(ds@), named_vmodel(base@)) == Result::<
            Seq<(Seq<char>, Val)>,
            ApplyErr,
        >::Ok(named_vmodel(r->Ok_0@)),
        r is Err ==> sapply_named(named_diffs_dm(ds@), named_vmodel(base@)) == Result::<
            Seq<(Seq<char>, Val)>,
            ApplyErr,
        >::Err(aerr(r->Err_0)),
    decreases ds@,
{
    let mut ds = ds;
    let mut base = base;
    if ds.len() == 0 {
        return Result::Ok(base);
    }
    let ghost ds0 = ds@;
    let ghost bm0 = named_vmodel(base@);
    let (n, d) = ds.remove(0);
    proof {
        assert((n, d) == ds0[0]);
        assert(ds@ =~= ds0.drop_first());
        assert(named_diffs_dm(ds0)[0] == (n@, d.dm()));
        assert(named_diffs_dm(ds@) =~= named_diffs_dm(ds0).drop_first());
    }
    let pos = find_field_pos(&base, &n);
    match pos {
        Option::None => {
            proof {
                lemma_lookup_field_none(bm0, n@);
            }
            Result::Err(DiffApplyError::MissingField)
        },
        Option::Some(p) => {
            proof {
                lemma_lookup_field_at(bm0, n@, p as int);
                lemma_update_field_at(bm0, n@, sapply(d.dm(), bm0[p as int].1)->Ok_0, p as int);
            }
            let ghost basev = base@;
            let entry = base.remove(p);
            let applied = match d.apply(entry.1) {
                Result::Err(e) => {
                    return Result::Err(e);
                },
                Result::Ok(v) => v,
            };
            base.insert(p, (entry.0, applied));
            proof {
                assert(base@ =~= basev.update(p as int, (entry.0, applied)));
                assert forall|k: int|
                    0 <= k < bm0.len() implies named_vmodel(base@)[k] == update_field(
                    bm0,
                    n@,
                    applied.vmodel(),
                )[k] by {
                    assert(named_vmodel(base@)[k] == ((#[trigger] base@[k]).0@,
                    base@[k].1.vmodel()));
                    if k != p {
                        assert(base@[k] == basev[k]);
                    }
                }
                assert(named_vmodel(base@) =~= update_field(bm0, n@, applied.vmodel()));
            }
            apply_named(ds, base)
        },
    }
}

/// Applies map edits to the base entries, in order.
#[verifier::rlimit(100)]
fn apply_map(edits: Vec<MapDiff>, base: Vec<(Value, Value)>) -> (r: Result<
    Vec<(Value, Value)>,
    DiffApplyError,
>)
    ensures
        r is Ok ==> sapply_map(map_edits_dm(edits@), entries_vmodel(base@)) == Result::<
            Seq<(Val, Val)>,
            ApplyErr,
        >::Ok(entries_vmodel(r->Ok_0@)),
        r is Err ==> sapply_map(map_edits_dm(edits@), entries_vmodel(base@)) == Result::<
            Seq<(Val, Val)>,
            ApplyErr,
        >::Err(aerr(r->Err_0)),
    decreases edits@,
{
    let mut edits = edits;
    let mut base = base;
    if edits.len() == 0 {
        return Result::Ok(base);
    }
    let ghost edits0 = edits@;
    let ghost bm0 = entries_vmodel(base@);
    let e = edits.remove(0);
    proof {
        assert(e == edits0[0]);
        assert(edits@ =~= edits0.drop_first());
        assert(map_edits_dm(edits0)[0] == e.em());
        assert(map_edits_dm(edits@) =~= map_edits_dm(edits0).drop_first());
    }
    match e {
        MapDiff::Deleted(k) => {
            let kv = k.into_value();
            let pos = find_entry_pos(&base, &kv);
            match pos {
                Option::Some(p) => {
                    proof {
                        lemma_remove_entry_at(bm0, kv.vmodel(), p as int);
                    }
                    let ghost basev = base@;
                    base.remove(p);
                    proof {
                        assert(base@ =~= basev.remove(p as int));
                        assert forall|k: int|
                            0 <= k < base@.len() implies entries_vmodel(base@)[k] == bm0.remove(
                            p as int,
                        )[k] by {
                            assert(entries_vmodel(base@)[k] == ((#[trigger] base@[k]).0.vmodel(),
                            base@[k].1.vmodel()));
                            if k < p {
                                assert(base@[k] == basev[k]);
                            } else {
                                assert(base@[k] == basev[k + 1]);
                            }
                        }
                        assert(entries_vmodel(base@) =~= remove_entry(bm0, kv.vmodel()));
                    }
                },
                Option::None => {
                    proof {
                        lemma_remove_entry_none(bm0, kv.vmodel());
                        assert(entries_vmodel(base@) =~= remove_entry(bm0, kv.vmodel()));
                    }
                },
            }
            apply_map(edits, base)
        },
        MapDiff::Inserted(k, v) => {
            let kv = k.into_value();
            let vv = v.into_value();
            let pos = find_entry_pos(&base, &kv);
            match pos {
                Option::Some(p) => {
                    proof {
                        lemma_insert_entry_at(bm0, kv.vmodel(), vv.vmodel(), p as int);
                    }
                    let ghost basev = base@;
                    let ghost vvm = vv.vmodel();
                    let entry = base.remove(p);
                    base.insert(p, (entry.0, vv));
                    proof {
                        assert(base@ =~= basev.update(p as int, (entry.0, base@[p as int].1)));
                        assert forall|k: int|
                            0 <= k < bm0.len() implies entries_vmodel(base@)[k] == bm0.update(
                            p as int,
                            (bm0[p as int].0, vvm),
                        )[k] by {
                            assert(entries_vmodel(base@)[k] == ((#[trigger] base@[k]).0.vmodel(),
                            base@[k].1.vmodel()));
                            if k != p {
                                assert(base@[k] == basev[k]);
                            }
                        }
                        assert(entries_vmodel(base@) =~= insert_entry(bm0, kv.vmodel(), vvm));
                    }
                },
                Option::None => {
                    proof {
                        lemma_insert_entry_none(bm0, kv.vmodel(), vv.vmodel());
                    }
                    let ghost kvm = kv.vmodel();
                    let ghost vvm = vv.vmodel();
                    let ghost basev = base@;
                    base.push((kv, vv));
                    proof {
                        assert(base@ =~= basev.push((base@[base@.len() - 1])));
                        assert forall|k: int|
                            0 <= k < base@.len() implies entries_vmodel(base@)[k] == bm0.push(
                            (kvm, vvm),
                        )[k] by {
                            assert(entries_vmodel(base@)[k] == ((#[trigger] base@[k]).0.vmodel(),
                            base@[k].1.vmodel()));
                            if k < base@.len() - 1 {
                                assert(base@[k] == basev[k]);
                            }
                        }
                        assert(entries_vmodel(base@) =~= insert_entry(bm0, kvm, vvm));
                    }
                },
            }
            apply_map(edits, base)
        },
        MapDiff::Modified(k, d) => {
            let kv = k.into_value();
            let pos = find_entry_pos(&base, &kv);
            match pos {
                Option::None => {
                    proof {
                        lemma_lookup_entry_none(bm0, kv.vmodel());
                    }
                    Result::Err(DiffApplyError::MissingField)
                },
                Option::Some(p) => {
                    proof {
                        lemma_lookup_entry_at(bm0, kv.vmodel(), p as int);
                        lemma_insert_entry_at(
                            bm0,
                            kv.vmodel(),
                            sapply(d.dm(), bm0[p as int].1)->Ok_0,
                            p as int,
                        );
                    }
                    let ghost basev = base@;
                    let entry = base.remove(p);
                    let applied = match d.apply(entry.1) {
                        Result::Err(err) => {
                            return Result::Err(err);
                        },
                        Result::Ok(v) => v,
                    };
                    base.insert(p, (entry.0, applied));
                    proof {
                        assert(base@ =~= basev.update(p as int, (entry.0, applied)));
                        assert forall|k: int|
                            0 <= k < bm0.len() implies entries_vmodel(base@)[k] == bm0.update(
                            p as int,
                            (bm0[p as int].0, applied.vmodel()),
                        )[k] by {
                            assert(entries_vmodel(base@)[k] == ((#[trigger] base@[k]).0.vmodel(),
                            base@[k].1.vmodel()));
                            if k != p {
                                assert(base@[k] == basev[k]);
                            }
                        }
                        assert(entries_vmodel(base@) =~= update_entry(
                            bm0,
                            kv.vmodel(),
                            applied.vmodel(),
                        ));
                    }
                    apply_map(edits, base)
                },
            }
        },
    }
}

/// Replays a list edit script over the base elements.
fn replay_exec(elems: Vec<Value>, edits: Vec<ListDiff>, idx: usize) -> (r: Vec<Value>)
    requires
        idx + elems@.len() <= usize::MAX,
    ensures
        seq_vmodel(r@) == replay(
            seq_vmodel(elems@),
            crate::diff::edits_dm(edits@),
            idx as int,
        ),
    decreases elems@.len() + edits@.len(),
{
    let mut elems = elems;
    let mut edits = edits;
    let ghost em0 = seq_vmodel(elems@);
    let ghost ed0 = crate::diff::edits_dm(edits@);
    if elems.len() == 0 {
        if edits.len() == 0 {
            let out: Vec<Value> = Vec::new();
            proof {
                assert(seq_vmodel(out@) =~= Seq::<Val>::empty());
            }
            return out;
        }
        let e = edits.remove(0);
        proof {
            assert(e.em() == ed0[0]);
            assert(crate::diff::edits_dm(edits@) =~= ed0.drop_first());
        }
        match e {
            ListDiff::Inserted(_, v) => {
                let vv = v.into_value();
                let ghost vvm = vv.vmodel();
                let rest = replay_exec(elems, edits, idx);
                let ghost restv = rest@;
                let mut out = rest;
                out.insert(0, vv);
                proof {
                    assert(out@ =~= seq![out@[0]] + restv);
                    assert forall|k: int|
                        0 <= k < out@.len() implies seq_vmodel(out@)[k] == (seq![vvm]
                        + seq_vmodel(restv))[k] by {
                        assert(seq_vmodel(out@)[k] == out@[k].vmodel());
                        if k > 0 {
                            assert(out@[k] == restv[k - 1]);
                        }
                    }
                    assert(seq_vmodel(out@) =~= seq![vvm] + seq_vmodel(restv));
                }
                out
            },
            ListDiff::Deleted(_) => {
                let out: Vec<Value> = Vec::new();
                proof {
                    assert(seq_vmodel(out@) =~= Seq::<Val>::empty());
                }
                out
            },
        }
    } else if edits.len() > 0 && edits[0].index() == idx {
        let e = edits.remove(0);
        proof {
            assert(e.em() == ed0[0]);
            assert(crate::diff::edits_dm(edits@) =~= ed0.drop_first());
        }
        match e {
            ListDiff::Deleted(_) => {
                elems.remove(0);
                proof {
                    assert(seq_vmodel(elems@) =~= em0.drop_first());
                }
                replay_exec(elems, edits, idx + 1)
            },
            ListDiff::Inserted(_, v) => {
                let vv = v.into_value();
                let ghost vvm = vv.vmodel();
                let rest = replay_exec(elems, edits, idx);
                let ghost restv = rest@;
                let mut out = rest;
                out.insert(0, vv);
                proof {
                    assert(out@ =~= seq![out@[0]] + restv);
                    assert forall|k: int|
                        0 <= k < out@.len() implies seq_vmodel(out@)[k] == (seq![vvm]
                        + seq_vmodel(restv))[k] by {
                        assert(seq_vmodel(out@)[k] == out@[k].vmodel());
                        if k > 0 {
                            assert(out@[k] == restv[k - 1]);
                        }
                    }
                    assert(seq_vmodel(out@) =~= seq![vvm] + seq_vmodel(restv));
                }
                out
            },
        }
    } else {
        let head = elems.remove(0);
        proof {
            assert(head.vmodel() == em0[0]);
            assert(seq_vmodel(elems@) =~= em0.drop_first());
        }
        let ghost hm = head.vmodel();
        let rest = replay_exec(elems, edits, idx + 1);
        let ghost restv = rest@;
        let mut out = rest;
        out.insert(0, head);
        proof {
            assert(out@ =~= seq![out@[0]] + restv);
            assert forall|k: int|
                0 <= k < out@.len() implies seq_vmodel(out@)[k] == (seq![hm] + seq_vmodel(
                restv,
            ))[k] by {
                assert(seq_vmodel(out@)[k] == out@[k].vmodel());
                if k > 0 {
                    assert(out@[k] == restv[k - 1]);
                }
            }
            assert(seq_vmodel(out@) =~= seq![hm] + seq_vmodel(restv));
        }
        out
    }
}

impl Diff {
    /// Applies this diff to the given base value, producing the updated
    /// value.
    ///
    /// `NoChange` returns the base itself; `Replaced` returns the carried
    /// value; a `Modified` delta requires the base to have the delta's
    /// shape and applies it recursively.  The result — the updated value,
    /// or the reported error — is exactly the specified application of the
    /// models.
    #[verifier::rlimit(100)]
    pub fn apply(self, base: Value) -> (r: Result<Value, DiffApplyError>)
        ensures
            self is NoChange ==> r == Result::<Value, DiffApplyError>::Ok(base),
            r is Ok ==> sapply(self.dm(), base.vmodel()) == Result::<Val, ApplyErr>::Ok(
                r->Ok_0.vmodel(),
            ),
            r is Err ==> sapply(self.dm(), base.vmodel()) == Result::<Val, ApplyErr>::Err(
                aerr(r->Err_0),
            ),
        decreases self,
    {
        let ghost dmod = self.dm();
        let ghost bmod = base.vmodel();
        let dt = match self {
            Diff::NoChange => {
                return Result::Ok(base);
            },
            Diff::Replaced(v) => {
                return Result::Ok(v.into_value());
            },
            Diff::Modified(dt) => dt,
        };
        match (dt, base) {
            (DiffType::Value(v), Value::Leaf(_)) => Result::Ok(v.into_value()),
            (DiffType::Value(_), _) => Result::Err(DiffApplyError::ExpectedValue),
            (DiffType::Tuple(d), Value::Tuple(t)) => {
                if d.fields.len() != t.fields.len() {
                    proof {
                        assert(dmod == DiffM::Modified(DeltaM::Tuple {
                            name: d.name@,
                            fields: diffs_dm(d.fields@),
                        }));
                        assert(bmod == (Val::Tuple {
                            name: t.spec_type_path(),
                            fields: seq_vmodel(t.fields@),
                        }));
                        assert(sapply(dmod, bmod) == Result::<Val, ApplyErr>::Err(
                            ApplyErr::MissingField,
                        ));
                    }
                    return Result::Err(DiffApplyError::MissingField);
                }
                let applied = match apply_seq(d.fields, t.fields) {
                    Result::Err(e) => {
                        return Result::Err(e);
                    },
                    Result::Ok(v) => v,
                };
                Result::Ok(
                    Value::Tuple(
                        DynamicTuple {
                            name: t.name,
                            represented: t.represented,
                            fields: applied,
                        },
                    ),
                )
            },
            (DiffType::Tuple(_), _) => Result::Err(DiffApplyError::ExpectedTuple),
            (DiffType::Array(d), Value::Array(a)) => {
                if d.elements.len() != a.elements.len() {
                    proof {
                        assert(dmod == DiffM::Modified(DeltaM::Array {
                            name: d.name@,
                            elems: diffs_dm(d.elements@),
                        }));
                        assert(bmod == (Val::Array {
                            name: a.spec_type_path(),
                            elems: seq_vmodel(a.elements@),
                        }));
                        assert(sapply(dmod, bmod) == Result::<Val, ApplyErr>::Err(
                            ApplyErr::MissingField,
                        ));
                    }
                    return Result::Err(DiffApplyError::MissingField);
                }
                let applied = match apply_seq(d.elements, a.elements) {
                    Result::Err(e) => {
                        return Result::Err(e);
                    },
                    Result::Ok(v) => v,
                };
                Result::Ok(
                    Value::Array(
                        DynamicArray {
                            name: a.name,
                            represented: a.represented,
                            elements: applied,
                        },
                    ),
                )
            },
            (DiffType::Array(_), _) => Result::Err(DiffApplyError::ExpectedArray),
            (DiffType::List(d), Value::List(l)) => {
                let bn = crate::nochange::effective_ref(&l.name, &l.represented);
                if !(d.name == *bn) {
                    return Result::Err(DiffApplyError::TypeMismatch);
                }
                let elem_count = l.elements.len();
                proof {
                    assert(elem_count as int + 0 <= usize::MAX as int);
                }
                let applied = replay_exec(l.elements, d.changes, 0);
                Result::Ok(
                    Value::List(
                        DynamicList {
                            name: l.name,
                            represented: l.represented,
                            elements: applied,
                        },
                    ),
                )
            },
            (DiffType::List(_), _) => Result::Err(DiffApplyError::ExpectedList),
            (DiffType::Mapping(d), Value::Mapping(m)) => {
                let applied = match apply_map(d.changes, m.entries) {
                    Result::Err(e) => {
                        return Result::Err(e);
                    },
                    Result::Ok(v) => v,
                };
                Result::Ok(
                    Value::Mapping(
                        DynamicMap {
                            name: m.name,
                            represented: m.represented,
                            entries: applied,
                        },
                    ),
                )
            },
            (DiffType::Mapping(_), _) => Result::Err(DiffApplyError::ExpectedMap),
            (DiffType::TupleStruct(d), Value::TupleStruct(t)) => {
                if d.fields.len() != t.fields.len() {
                    proof {
                        assert(dmod == DiffM::Modified(DeltaM::TupleStruct {
                            name: d.name@,
                            fields: diffs_dm(d.fields@),
                        }));
                        assert(bmod == (Val::TupleStruct {
                            name: t.spec_type_path(),
                            fields: seq_vmodel(t.fields@),
                        }));
                        assert(sapply(dmod, bmod) == Result::<Val, ApplyErr>::Err(
                            ApplyErr::MissingField,
                        ));
                    }
                    return Result::Err(DiffApplyError::MissingField);
                }
                let applied = match apply_seq(d.fields, t.fields) {
                    Result::Err(e) => {
                        return Result::Err(e);
                    },
                    Result::Ok(v) => v,
                };
                Result::Ok(
                    Value::TupleStruct(
                        DynamicTupleStruct {
                            name: t.name,
                            represented: t.represented,
                            fields: applied,
                        },
                    ),
                )
            },
            (DiffType::TupleStruct(_), _) => Result::Err(DiffApplyError::ExpectedTupleStruct),
            (DiffType::Struct(d), Value::Struct(st)) => {
                let applied = match apply_named(d.fields, st.fields) {
                    Result::Err(e) => {
                        return Result::Err(e);
                    },
                    Result::Ok(v) => v,
                };
                Result::Ok(
                    Value::Struct(
                        DynamicStruct {
                            name: st.name,
                            represented: st.represented,
                            fields: applied,
                        },
                    ),
                )
            },
            (DiffType::Struct(_), _) => Result::Err(DiffApplyError::ExpectedStruct),
            (DiffType::Enum(EnumDiff::Swapped(v)), Value::Enum(_)) => Result::Ok(v.into_value()),
            (DiffType::Enum(EnumDiff::Swapped(_)), _) => Result::Err(
                DiffApplyError::ExpectedEnum,
            ),
            (DiffType::Enum(EnumDiff::Tuple(d)), Value::Enum(e)) => {
                match e.data {
                    VariantData::Tuple(bf) => {
                        if d.fields.len() != bf.len() {
                            proof {
                                assert(dmod == DiffM::Modified(DeltaM::Enum(EnumDiffM::Tuple {
                                    name: d.name@,
                                    fields: diffs_dm(d.fields@),
                                })));
                                assert(bmod == (Val::Enum {
                                    name: e.name@,
                                    variant: e.variant_name@,
                                    data: VariantVal::Tuple(seq_vmodel(bf@)),
                                }));
                                assert(sapply(dmod, bmod) == Result::<Val, ApplyErr>::Err(
                                    ApplyErr::MissingField,
                                ));
                            }
                            return Result::Err(DiffApplyError::MissingField);
                        }
                        let applied = match apply_seq(d.fields, bf) {
                            Result::Err(err) => {
                                return Result::Err(err);
                            },
                            Result::Ok(v) => v,
                        };
                        Result::Ok(
                            Value::Enum(
                                DynamicEnum {
                                    name: e.name,
                                    variant_name: e.variant_name,
                                    data: VariantData::Tuple(applied),
                                },
                            ),
                        )
                    },
                    _ => Result::Err(DiffApplyError::ExpectedTupleVariant),
                }
            },
            (DiffType::Enum(EnumDiff::Tuple(_)), _) => Result::Err(DiffApplyError::ExpectedEnum),
            (DiffType::Enum(EnumDiff::Struct(d)), Value::Enum(e)) => {
                match e.data {
                    VariantData::Struct(bf) => {
                        let applied = match apply_named(d.fields, bf) {
                            Result::Err(err) => {
                                return Result::Err(err);
                            },
                            Result::Ok(v) => v,
                        };
                        Result::Ok(
                            Value::Enum(
                                DynamicEnum {
                                    name: e.name,
                                    variant_name: e.variant_name,
                                    data: VariantData::Struct(applied),
                                },
                            ),
                        )
                    },
                    _ => Result::Err(DiffApplyError::ExpectedStructVariant),
                }
            },
            (DiffType::Enum(EnumDiff::Struct(_)), _) => Result::Err(
                DiffApplyError::ExpectedEnum,
            ),
        }
    }
}

} // verus!
