//! The list diff: a minimal edit script between two ordered sequences.
//!
//! Two elements count as common exactly when their recursive diff reports
//! no change.  The script is computed by a longest-common-subsequence
//! alignment; where several minimal scripts exist, deletions are emitted
//! before insertions at the same point, and insertions sharing an anchor
//! keep the order of the new sequence.  When some pair of elements the
//! alignment may compare does not support the equality probe, the
//! comparison is undefined and the diff reports `Incomparable`.

use vstd::prelude::*;

use crate::cloning::clone_value;
use crate::diff::{edits_dm, lemma_edits_dm, Diff, DiffType, DiffedList, ListDiff, ValueDiff};
use crate::diff_error::DiffError;
use crate::diff_model::{lcs_len, script, sdiff, EditM};
use crate::lemmas::lemma_skip_step;
use crate::model::nochange;
use crate::nochange::{effective_ref, nochange_exec};
use crate::value::{lemma_seq_vmodel, seq_vmodel, DynamicList, Value};

verus! {

broadcast use lemma_seq_vmodel, lemma_edits_dm;

/// Appending one edit extends the modelled script by its model.
proof fn lemma_edits_dm_push(s: Seq<ListDiff>, e: ListDiff)
    ensures
        edits_dm(s.push(e)) == edits_dm(s) + seq![e.em()],
{
    lemma_edits_dm(s);
    lemma_edits_dm(s.push(e));
    assert forall|i: int|
        0 <= i < s.len() + 1 implies edits_dm(s.push(e))[i] == (edits_dm(s) + seq![e.em()])[i] by {
        assert(edits_dm(s.push(e))[i] == s.push(e)[i].em());
        if i < s.len() {
            assert(s.push(e)[i] == s[i]);
            assert(edits_dm(s)[i] == s[i].em());
        } else {
            assert(s.push(e)[i] == e);
        }
    }
    assert(edits_dm(s.push(e)) =~= edits_dm(s) + seq![e.em()]);
}

/// The length of a common subsequence never exceeds either length.
pub proof fn lemma_lcs_len_bound(a: Seq<Val>, b: Seq<Val>)
    ensures
        lcs_len(a, b) <= a.len(),
        lcs_len(a, b) <= b.len(),
    decreases a.len() + b.len(),
{
    if a.len() != 0 && b.len() != 0 {
        lemma_lcs_len_bound(a.drop_first(), b.drop_first());
        lemma_lcs_len_bound(a.drop_first(), b);
        lemma_lcs_len_bound(a, b.drop_first());
    }
}

use crate::model::Val;

/// Computes the matrix of pairwise no-change tests.
fn nc_matrix(a: &Vec<Value>, b: &Vec<Value>) -> (nc: Vec<Vec<bool>>)
    ensures
        nc@.len() == a@.len(),
        forall|i: int|
            0 <= i < a@.len() ==> (#[trigger] nc@[i])@.len() == b@.len(),
        forall|i: int, j: int|
            0 <= i < a@.len() && 0 <= j < b@.len() ==> (#[trigger] nc@[i]@[j]) == nochange(
                seq_vmodel(a@)[i],
                seq_vmodel(b@)[j],
            ),
{
    let mut nc: Vec<Vec<bool>> = Vec::new();
    let mut i: usize = 0;
    while i < a.len()
        invariant
            i <= a@.len(),
            nc@.len() == i,
            forall|i2: int|
                0 <= i2 < i ==> (#[trigger] nc@[i2])@.len() == b@.len(),
            forall|i2: int, j: int|
                0 <= i2 < i && 0 <= j < b@.len() ==> (#[trigger] nc@[i2]@[j]) == nochange(
                    seq_vmodel(a@)[i2],
                    seq_vmodel(b@)[j],
                ),
        decreases a.len() - i,
    {
        let mut row: Vec<bool> = Vec::new();
        let mut j: usize = 0;
        while j < b.len()
            invariant
                j <= b@.len(),
                i < a@.len(),
                row@.len() == j,
                forall|j2: int|
                    0 <= j2 < j ==> (#[trigger] row@[j2]) == nochange(
                        seq_vmodel(a@)[i as int],
                        seq_vmodel(b@)[j2],
                    ),
            decreases b.len() - j,
        {
            row.push(nochange_exec(&a[i], &b[j]));
            j += 1;
        }
        nc.push(row);
        i += 1;
    }
    nc
}

/// Computes the table of common-subsequence lengths of all pairs of
/// suffixes.  Row `k` of the result holds the lengths for the old suffix
/// starting at `n - k`.
fn lcs_table(a: &Vec<Value>, b: &Vec<Value>, nc: &Vec<Vec<bool>>) -> (rows: Vec<Vec<usize>>)
    requires
        nc@.len() == a@.len(),
        forall|i: int|
            0 <= i < a@.len() ==> (#[trigger] nc@[i])@.len() == b@.len(),
        forall|i: int, j: int|
            0 <= i < a@.len() && 0 <= j < b@.len() ==> (#[trigger] nc@[i]@[j]) == nochange(
                seq_vmodel(a@)[i],
                seq_vmodel(b@)[j],
            ),
    ensures
        rows@.len() == a@.len() + 1,
        forall|k: int|
            0 <= k <= a@.len() ==> (#[trigger] rows@[k])@.len() == b@.len() + 1,
        forall|k: int, j: int|
            0 <= k <= a@.len() && 0 <= j <= b@.len() ==> (#[trigger] rows@[k]@[j]) as nat
                == lcs_len(seq_vmodel(a@).skip(a@.len() - k), seq_vmodel(b@).skip(j)),
{
    let ghost am = seq_vmodel(a@);
    let ghost bm = seq_vmodel(b@);
    let n = a.len();
    let m = b.len();
    let mut rows: Vec<Vec<usize>> = Vec::new();
    while rows.len() <= n
        invariant
            n == a@.len(),
            m == b@.len(),
            am == seq_vmodel(a@),
            bm == seq_vmodel(b@),
            nc@.len() == a@.len(),
            forall|i: int|
                0 <= i < a@.len() ==> (#[trigger] nc@[i])@.len() == b@.len(),
            forall|i: int, j: int|
                0 <= i < a@.len() && 0 <= j < b@.len() ==> (#[trigger] nc@[i]@[j]) == nochange(
                    am[i],
                    bm[j],
                ),
            rows@.len() <= n + 1,
            forall|k2: int|
                0 <= k2 < rows@.len() ==> (#[trigger] rows@[k2])@.len() == m + 1,
            forall|k2: int, j: int|
                0 <= k2 < rows@.len() && 0 <= j <= m ==> (#[trigger] rows@[k2]@[j]) as nat
                    == lcs_len(am.skip(n - k2), bm.skip(j)),
        decreases n + 1 - rows@.len(),
    {
        let k = rows.len();
        let i = n - k;
        let mut row: Vec<usize> = Vec::new();
        // fill with zeroes, then set the true values from the right
        while row.len() <= m
            invariant
                row@.len() <= m + 1,
                forall|j2: int| 0 <= j2 < row@.len() ==> (#[trigger] row@[j2]) == 0,
            decreases m + 1 - row@.len(),
        {
            row.push(0);
        }
        proof {
            assert(bm.skip(m as int).len() == 0);
            assert(row@[m as int] as nat == lcs_len(am.skip(i as int), bm.skip(m as int)));
        }
        let mut j: usize = m;
        while j > 0
            invariant
                j <= m,
                i == n - k,
                k == rows@.len(),
                k <= n,
                n == a@.len(),
                m == b@.len(),
                am == seq_vmodel(a@),
                bm == seq_vmodel(b@),
                nc@.len() == a@.len(),
                forall|i2: int|
                    0 <= i2 < a@.len() ==> (#[trigger] nc@[i2])@.len() == b@.len(),
                forall|i2: int, j2: int|
                    0 <= i2 < a@.len() && 0 <= j2 < b@.len() ==> (#[trigger] nc@[i2]@[j2])
                        == nochange(am[i2], bm[j2]),
                forall|k2: int|
                    0 <= k2 < rows@.len() ==> (#[trigger] rows@[k2])@.len() == m + 1,
                forall|k2: int, j2: int|
                    0 <= k2 < rows@.len() && 0 <= j2 <= m ==> (#[trigger] rows@[k2]@[j2]) as nat
                        == lcs_len(am.skip(n - k2), bm.skip(j2)),
                row@.len() == m + 1,
                forall|j2: int|
                    j <= j2 <= m ==> (#[trigger] row@[j2]) as nat == lcs_len(
                        am.skip(i as int),
                        bm.skip(j2),
                    ),
            decreases j,
        {
            j -= 1;
            let v: usize;
            if i == n || j == m {
                proof {
                    assert(am.skip(i as int).len() == 0 || bm.skip(j as int).len() == 0);
                }
                v = 0;
            } else {
                proof {
                    lemma_skip_step(am, i as int);
                    lemma_skip_step(bm, j as int);
                    lemma_lcs_len_bound(am.skip(i as int), bm.skip(j as int));
                    lemma_lcs_len_bound(am.skip(i + 1), bm.skip(j + 1));
                    lemma_lcs_len_bound(am.skip(i + 1), bm.skip(j as int));
                    lemma_lcs_len_bound(am.skip(i as int), bm.skip(j + 1));
                }
                if nc[i][j] {
                    let below = rows[k - 1][j + 1];
                    proof {
                        assert(rows@[k - 1 as int]@[j + 1] as nat == lcs_len(
                            am.skip(n - (k - 1)),
                            bm.skip(j + 1),
                        ));
                        assert(n - (k - 1) == i + 1);
                        assert(am.skip(i as int).drop_first() =~= am.skip(i + 1));
                        assert(bm.skip(j as int).drop_first() =~= bm.skip(j + 1));
                    }
                    v = below + 1;
                } else {
                    let d = rows[k - 1][j];
                    let ins = row[j + 1];
                    proof {
                        assert(n - (k - 1) == i + 1);
                        assert(am.skip(i as int).drop_first() =~= am.skip(i + 1));
                        assert(bm.skip(j as int).drop_first() =~= bm.skip(j + 1));
                    }
                    if d >= ins {
                        v = d;
                    } else {
                        v = ins;
                    }
                }
            }
            row.set(j, v);
        }
        rows.push(row);
    }
    rows
}

/// Computes the minimal edit script transforming `a` into `b`.
pub fn compute_script(a: &Vec<Value>, b: &Vec<Value>) -> (out: Vec<ListDiff>)
    ensures
        edits_dm(out@) == script(seq_vmodel(a@), seq_vmodel(b@), 0),
{
    let ghost am = seq_vmodel(a@);
    let ghost bm = seq_vmodel(b@);
    let ghost target = script(am, bm, 0);
    let n = a.len();
    let m = b.len();
    let nc = nc_matrix(a, b);
    let rows = lcs_table(a, b, &nc);
    let mut out: Vec<ListDiff> = Vec::new();
    let mut i: usize = 0;
    let mut j: usize = 0;
    proof {
        assert(am.skip(0) =~= am);
        assert(bm.skip(0) =~= bm);
        assert(edits_dm(out@) =~= Seq::<EditM>::empty());
        assert(edits_dm(out@) + script(am.skip(0), bm.skip(0), 0) =~= target);
    }
    while i < n || j < m
        invariant
            i <= n,
            j <= m,
            n == a@.len(),
            m == b@.len(),
            am == seq_vmodel(a@),
            bm == seq_vmodel(b@),
            target == script(am, bm, 0),
            nc@.len() == a@.len(),
            forall|i2: int|
                0 <= i2 < a@.len() ==> (#[trigger] nc@[i2])@.len() == b@.len(),
            forall|i2: int, j2: int|
                0 <= i2 < a@.len() && 0 <= j2 < b@.len() ==> (#[trigger] nc@[i2]@[j2])
                    == nochange(am[i2], bm[j2]),
            rows@.len() == a@.len() + 1,
            forall|k: int|
                0 <= k <= a@.len() ==> (#[trigger] rows@[k])@.len() == b@.len() + 1,
            forall|k: int, j2: int|
                0 <= k <= a@.len() && 0 <= j2 <= b@.len() ==> (#[trigger] rows@[k]@[j2]) as nat
                    == lcs_len(am.skip(a@.len() - k), bm.skip(j2)),
            edits_dm(out@) + script(am.skip(i as int), bm.skip(j as int), i as int) == target,
        decreases (n - i) + (m - j),
    {
        let ghost suffix = script(am.skip(i as int), bm.skip(j as int), i as int);
        let ghost prefix = edits_dm(out@);
        proof {
            if i < n {
                lemma_skip_step(am, i as int);
            }
            if j < m {
                lemma_skip_step(bm, j as int);
            }
        }
        if j == m {
            // the new sequence is exhausted: delete the rest of the old
            let e = ListDiff::Deleted(i);
            proof {
                assert(bm.skip(j as int).len() == 0);
                assert(suffix == seq![EditM::Deleted(i as int)] + script(
                    am.skip(i + 1),
                    bm.skip(j as int),
                    i + 1,
                ));
                lemma_edits_dm_push(out@, e);
                assert((prefix + seq![e.em()]) + script(am.skip(i + 1), bm.skip(j as int), i + 1)
                    =~= prefix + suffix);
            }
            out.push(e);
            i += 1;
        } else if i == n {
            // the old sequence is exhausted: append the rest of the new
            let e = ListDiff::Inserted(i, ValueDiff::Owned(clone_value(&b[j])));
            proof {
                assert(am.skip(i as int).len() == 0);
                assert(bm.skip(j as int)[0] == bm[j as int]);
                assert(suffix == seq![EditM::Inserted(i as int, bm[j as int])] + script(
                    am.skip(i as int),
                    bm.skip(j + 1),
                    i as int,
                ));
                assert(e.em() == EditM::Inserted(i as int, bm[j as int]));
                lemma_edits_dm_push(out@, e);
                assert((prefix + seq![e.em()]) + script(am.skip(i as int), bm.skip(j + 1), i as int)
                    =~= prefix + suffix);
            }
            out.push(e);
            j += 1;
        } else if nc[i][j] {
            // common element: keep it
            proof {
                assert(nochange(am.skip(i as int)[0], bm.skip(j as int)[0]));
                assert(suffix == script(am.skip(i + 1), bm.skip(j + 1), i + 1));
            }
            i += 1;
            j += 1;
        } else {
            let del = rows[n - i - 1][j];
            let keep = rows[n - i][j];
            proof {
                assert(rows@[n - i - 1 as int]@[j as int] as nat == lcs_len(
                    am.skip(i + 1),
                    bm.skip(j as int),
                ));
                assert(rows@[n - i as int]@[j as int] as nat == lcs_len(
                    am.skip(i as int),
                    bm.skip(j as int),
                ));
                assert(!nochange(am.skip(i as int)[0], bm.skip(j as int)[0]));
            }
            if del == keep {
                // deleting the old head lies on a minimal path
                let e = ListDiff::Deleted(i);
                proof {
                    assert(suffix == seq![EditM::Deleted(i as int)] + script(
                        am.skip(i + 1),
                        bm.skip(j as int),
                        i + 1,
                    ));
                    lemma_edits_dm_push(out@, e);
                    assert((prefix + seq![e.em()]) + script(
                        am.skip(i + 1),
                        bm.skip(j as int),
                        i + 1,
                    ) =~= prefix + suffix);
                }
                out.push(e);
                i += 1;
            } else {
                let e = ListDiff::Inserted(i, ValueDiff::Owned(clone_value(&b[j])));
                proof {
                    assert(bm.skip(j as int)[0] == bm[j as int]);
                    assert(suffix == seq![EditM::Inserted(i as int, bm[j as int])] + script(
                        am.skip(i as int),
                        bm.skip(j + 1),
                        i as int,
                    ));
                    assert(e.em() == EditM::Inserted(i as int, bm[j as int]));
                    lemma_edits_dm_push(out@, e);
                    assert((prefix + seq![e.em()]) + script(
                        am.skip(i as int),
                        bm.skip(j + 1),
                        i as int,
                    ) =~= prefix + suffix);
                }
                out.push(e);
                j += 1;
            }
        }
    }
    proof {
        assert(am.skip(n as int).len() == 0);
        assert(bm.skip(m as int).len() == 0);
        assert(script(am.skip(n as int), bm.skip(m as int), n as int) =~= Seq::<EditM>::empty());
        assert(edits_dm(out@) + script(am.skip(n as int), bm.skip(m as int), n as int) =~= edits_dm(
            out@,
        ));
    }
    out
}

/// Diffs two lists.
///
/// A different type identity yields `Replaced`; otherwise the minimal edit
/// script decides between `NoChange` and a `Modified` list delta.
pub fn diff_list(old: &DynamicList, new: &Value) -> (r: Result<Diff, DiffError>)
    ensures
        new.vmodel() is List && !crate::model::nc_unsupported(old.vm(), new.vmodel()) ==> r
            is Ok && r->Ok_0.dm() == sdiff(old.vm(), new.vmodel()),
        new.vmodel() is List && crate::model::nc_unsupported(old.vm(), new.vmodel()) ==> r
            == Result::<Diff, DiffError>::Err(DiffError::Incomparable),
        !(new.vmodel() is List) ==> r == Result::<Diff, DiffError>::Err(DiffError::ExpectedList),
{
    match new {
        Value::List(l2) => {
            let n1 = effective_ref(&old.name, &old.represented);
            let n2 = effective_ref(&l2.name, &l2.represented);
            proof {
                assert(old.vm() == (Val::List {
                    name: n1@,
                    elems: seq_vmodel(old.elements@),
                }));
                assert(new.vmodel() == (Val::List {
                    name: n2@,
                    elems: seq_vmodel(l2.elements@),
                }));
            }
            if !(*n1 == *n2) {
                return Result::Ok(Diff::Replaced(ValueDiff::Owned(clone_value(new))));
            }
            if crate::nochange::pairs_unsupported_exec(&old.elements, &l2.elements) {
                return Result::Err(DiffError::Incomparable);
            }
            let changes = compute_script(&old.elements, &l2.elements);
            if changes.len() == 0 {
                Result::Ok(Diff::NoChange)
            } else {
                let name = effective_ref(&l2.name, &l2.represented).clone();
                Result::Ok(
                    Diff::Modified(DiffType::List(DiffedList { name, changes })),
                )
            }
        },
        _ => Result::Err(DiffError::ExpectedList),
    }
}

} // verus!
