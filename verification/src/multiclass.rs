//! Per-class requirement statistics derived from the confusion matrix:
//! for class i the true-positive count is the diagonal entry (i, i), the
//! column sum of column i adds the false positives, and the row sum of
//! row i adds the false negatives.

use vstd::prelude::*;

use crate::MAX_LEN;
use crate::StatsError;
use crate::array::LabelArray;
use crate::cm::cm_count;
use crate::cm::confusion_matrix;
use crate::cm::is_cm_for;
use crate::matrix::ConfusionMatrix;
use crate::matrix::lemma_col_partial_le_total;
use crate::matrix::lemma_row_partial_le_total;
use crate::matrix::lemma_row_seq_entries;
use crate::reduce::sum_to;

verus! {

/// Sum of the first `n` cell counts of column `j`, at the level of the
/// counting specification.
pub open spec fn cm_col_sum_to(a: Seq<int>, p: Seq<int>, v: Seq<int>, j: int, n: int) -> int
    decreases n,
{
    if n <= 0 {
        0
    } else {
        cm_col_sum_to(a, p, v, j, n - 1) + cm_count(a, p, v, n - 1, j)
    }
}

/// Sum of column `j` of the counting specification: the counted samples
/// predicted as class `j` (true positives plus false positives).
pub open spec fn cm_col_sum(a: Seq<int>, p: Seq<int>, v: Seq<int>, j: int) -> int {
    cm_col_sum_to(a, p, v, j, v.len() as int)
}

/// Sum of the first `n` cell counts of row `i`, at the level of the
/// counting specification.
pub open spec fn cm_row_sum_to(a: Seq<int>, p: Seq<int>, v: Seq<int>, i: int, n: int) -> int
    decreases n,
{
    if n <= 0 {
        0
    } else {
        cm_row_sum_to(a, p, v, i, n - 1) + cm_count(a, p, v, i, n - 1)
    }
}

/// Sum of row `i` of the counting specification: the counted samples whose
/// actual class is `i` (true positives plus false negatives).
pub open spec fn cm_row_sum(a: Seq<int>, p: Seq<int>, v: Seq<int>, i: int) -> int {
    cm_row_sum_to(a, p, v, i, v.len() as int)
}

/// In a matrix built for (a, p, v), partial column sums match the
/// counting specification.
proof fn lemma_col_sum_glue(
    m: ConfusionMatrix,
    a: Seq<int>,
    p: Seq<int>,
    v: Seq<int>,
    j: int,
    n: int,
)
    requires
        is_cm_for(m, a, p, v),
        0 <= j < m.dim(),
        0 <= n <= m.dim(),
    ensures
        m.col_to(j, n) == cm_col_sum_to(a, p, v, j, n),
    decreases n,
{
    if n > 0 {
        lemma_col_sum_glue(m, a, p, v, j, n - 1);
    }
}

/// In a matrix built for (a, p, v), partial row sums match the counting
/// specification.
proof fn lemma_row_sum_glue(
    m: ConfusionMatrix,
    a: Seq<int>,
    p: Seq<int>,
    v: Seq<int>,
    i: int,
    n: int,
)
    requires
        is_cm_for(m, a, p, v),
        0 <= i < m.dim(),
        0 <= n <= m.dim(),
    ensures
        sum_to(m.row_seq(i), n) == cm_row_sum_to(a, p, v, i, n),
    decreases n,
{
    lemma_row_seq_entries(m, i);
    if n > 0 {
        lemma_row_sum_glue(m, a, p, v, i, n - 1);
    }
}

/// Precision requirements per class: row i of the result is
/// (matrix(i, i), column-sum of column i), that is (TP, TP+FP).
pub fn precision_reqs(m: &ConfusionMatrix) -> (t: Vec<(i64, i64)>)
    requires
        m.wf(),
    ensures
        t@.len() == m.dim(),
        forall|i: int|
            0 <= i < m.dim() ==> (#[trigger] t@[i]).0 as int == m.entry(i, i) && t@[i].1 as int
                == m.col_total(i),
{
    let k = m.k();
    let mut t: Vec<(i64, i64)> = Vec::new();
    let mut idx: usize = 0;
    while idx < k
        invariant
            0 <= idx <= k,
            k == m.dim(),
            m.wf(),
            t@.len() == idx,
            forall|i: int|
                0 <= i < idx ==> (#[trigger] t@[i]).0 as int == m.entry(i, i) && t@[i].1 as int
                    == m.col_total(i),
        decreases k - idx,
    {
        let tp = m.get(idx, idx);
        let col = col_sum(m, idx);
        t.push((tp, col));
        idx = idx + 1;
    }
    t
}

/// Recall requirements per class: row i of the result is
/// (matrix(i, i), row-sum of row i), that is (TP, TP+FN).
pub fn recall_reqs(m: &ConfusionMatrix) -> (t: Vec<(i64, i64)>)
    requires
        m.wf(),
    ensures
        t@.len() == m.dim(),
        forall|i: int|
            0 <= i < m.dim() ==> (#[trigger] t@[i]).0 as int == m.entry(i, i) && t@[i].1 as int
                == m.row_total(i),
{
    let k = m.k();
    let mut t: Vec<(i64, i64)> = Vec::new();
    let mut idx: usize = 0;
    while idx < k
        invariant
            0 <= idx <= k,
            k == m.dim(),
            m.wf(),
            t@.len() == idx,
            forall|i: int|
                0 <= i < idx ==> (#[trigger] t@[i]).0 as int == m.entry(i, i) && t@[i].1 as int
                    == m.row_total(i),
        decreases k - idx,
    {
        let tp = m.get(idx, idx);
        let row = row_sum(m, idx);
        t.push((tp, row));
        idx = idx + 1;
    }
    t
}

/// F1 requirements per class: row i of the result is
/// (matrix(i, i), column-sum of column i, row-sum of row i), that is
/// (TP, TP+FP, TP+FN).
pub fn f1_reqs(m: &ConfusionMatrix) -> (t: Vec<(i64, i64, i64)>)
    requires
        m.wf(),
    ensures
        t@.len() == m.dim(),
        forall|i: int|
            0 <= i < m.dim() ==> (#[trigger] t@[i]).0 as int == m.entry(i, i) && t@[i].1 as int
                == m.col_total(i) && t@[i].2 as int == m.row_total(i),
{
    let k = m.k();
    let mut t: Vec<(i64, i64, i64)> = Vec::new();
    let mut idx: usize = 0;
    while idx < k
        invariant
            0 <= idx <= k,
            k == m.dim(),
            m.wf(),
            t@.len() == idx,
            forall|i: int|
                0 <= i < idx ==> (#[trigger] t@[i]).0 as int == m.entry(i, i) && t@[i].1 as int
                    == m.col_total(i) && t@[i].2 as int == m.row_total(i),
        decreases k - idx,
    {
        let tp = m.get(idx, idx);
        let col = col_sum(m, idx);
        let row = row_sum(m, idx);
        t.push((tp, col, row));
        idx = idx + 1;
    }
    t
}

/// The sum of column `j` of a well-formed matrix.
fn col_sum(m: &ConfusionMatrix, j: usize) -> (s: i64)
    requires
        m.wf(),
        j < m.dim(),
    ensures
        s as int == m.col_total(j as int),
{
    let k = m.k();
    let mut s: i64 = 0;
    let mut r: usize = 0;
    while r < k
        invariant
            0 <= r <= k,
            k == m.dim(),
            m.wf(),
            j < m.dim(),
            s as int == m.col_to(j as int, r as int),
        decreases k - r,
    {
        proof {
            lemma_col_partial_le_total(*m, j as int, r as int + 1);
            lemma_col_partial_le_total(*m, j as int, r as int);
        }
        s = s + m.get(r, j);
        r = r + 1;
    }
    s
}

/// The sum of row `i` of a well-formed matrix.
fn row_sum(m: &ConfusionMatrix, i: usize) -> (s: i64)
    requires
        m.wf(),
        i < m.dim(),
    ensures
        s as int == m.row_total(i as int),
{
    let k = m.k();
    let mut s: i64 = 0;
    let mut c: usize = 0;
    while c < k
        invariant
            0 <= c <= k,
            k == m.dim(),
            m.wf(),
            i < m.dim(),
            s as int == sum_to(m.row_seq(i as int), c as int),
        decreases k - c,
    {
        proof {
            lemma_row_seq_entries(*m, i as int);
            lemma_row_partial_le_total(*m, i as int, c as int + 1);
            lemma_row_partial_le_total(*m, i as int, c as int);
        }
        s = s + m.get(i, c);
        c = c + 1;
    }
    s
}

/// Multiclass precision requirements for label arrays: build the
/// confusion matrix for the resolved element kind and report, per class,
/// (TP, TP+FP).
pub fn precision(actual: &LabelArray, predicted: &LabelArray, vocabulary: &LabelArray) -> (r:
    Result<Vec<(i64, i64)>, StatsError>)
    requires
        actual.values().len() <= MAX_LEN,
    ensures
        r is Ok <==> (actual.kind() == predicted.kind() && predicted.kind() == vocabulary.kind()
            && actual.values().len() == predicted.values().len()),
        r matches Ok(t) ==> t@.len() == vocabulary.values().len() && (forall|i: int|
            0 <= i < t@.len() ==> (#[trigger] t@[i]).0 as int == cm_count(
                actual.values(),
                predicted.values(),
                vocabulary.values(),
                i,
                i,
            ) && t@[i].1 as int == cm_col_sum(
                actual.values(),
                predicted.values(),
                vocabulary.values(),
                i,
            )),
        r matches Err(e) ==> ((e == StatsError::KindMismatch) <==> !(actual.kind()
            == predicted.kind() && predicted.kind() == vocabulary.kind())) && ((e
            == StatsError::LengthMismatch) <==> (actual.kind() == predicted.kind()
            && predicted.kind() == vocabulary.kind() && actual.values().len()
            != predicted.values().len())),
{
    match confusion_matrix(actual, predicted, vocabulary) {
        Err(e) => Err(e),
        Ok(m) => {
            proof {
                assert forall|i: int| 0 <= i < m.dim() implies #[trigger] m.col_total(i)
                    == cm_col_sum(
                    actual.values(),
                    predicted.values(),
                    vocabulary.values(),
                    i,
                ) by {
                    lemma_col_sum_glue(
                        m,
                        actual.values(),
                        predicted.values(),
                        vocabulary.values(),
                        i,
                        m.dim(),
                    );
                }
            }
            Ok(precision_reqs(&m))
        },
    }
}

/// Multiclass recall requirements for label arrays: build the confusion
/// matrix for the resolved element kind and report, per class,
/// (TP, TP+FN).
pub fn recall(actual: &LabelArray, predicted: &LabelArray, vocabulary: &LabelArray) -> (r: Result<
    Vec<(i64, i64)>,
    StatsError,
>)
    requires
        actual.values().len() <= MAX_LEN,
    ensures
        r is Ok <==> (actual.kind() == predicted.kind() && predicted.kind() == vocabulary.kind()
            && actual.values().len() == predicted.values().len()),
        r matches Ok(t) ==> t@.len() == vocabulary.values().len() && (forall|i: int|
            0 <= i < t@.len() ==> (#[trigger] t@[i]).0 as int == cm_count(
                actual.values(),
                predicted.values(),
                vocabulary.values(),
                i,
                i,
            ) && t@[i].1 as int == cm_row_sum(
                actual.values(),
                predicted.values(),
                vocabulary.values(),
                i,
            )),
        r matches Err(e) ==> ((e == StatsError::KindMismatch) <==> !(actual.kind()
            == predicted.kind() && predicted.kind() == vocabulary.kind())) && ((e
            == StatsError::LengthMismatch) <==> (actual.kind() == predicted.kind()
            && predicted.kind() == vocabulary.kind() && actual.values().len()
            != predicted.values().len())),
{
    match confusion_matrix(actual, predicted, vocabulary) {
        Err(e) => Err(e),
        Ok(m) => {
            proof {
                assert forall|i: int| 0 <= i < m.dim() implies #[trigger] m.row_total(i)
                    == cm_row_sum(
                    actual.values(),
                    predicted.values(),
                    vocabulary.values(),
                    i,
                ) by {
                    lemma_row_sum_glue(
                        m,
                        actual.values(),
                        predicted.values(),
                        vocabulary.values(),
                        i,
                        m.dim(),
                    );
                }
            }
            Ok(recall_reqs(&m))
        },
    }
}

/// Multiclass F1 requirements for label arrays: build the confusion
/// matrix for the resolved element kind and report, per class,
/// (TP, TP+FP, TP+FN).
pub fn f1_score(actual: &LabelArray, predicted: &LabelArray, vocabulary: &LabelArray) -> (r: Result<
    Vec<(i64, i64, i64)>,
    StatsError,
>)
    requires
        actual.values().len() <= MAX_LEN,
    ensures
        r is Ok <==> (actual.kind() == predicted.kind() && predicted.kind() == vocabulary.kind()
            && actual.values().len() == predicted.values().len()),
        r matches Ok(t) ==> t@.len() == vocabulary.values().len() && (forall|i: int|
            0 <= i < t@.len() ==> (#[trigger] t@[i]).0 as int == cm_count(
                actual.values(),
                predicted.values(),
                vocabulary.values(),
                i,
                i,
            ) && t@[i].1 as int == cm_col_sum(
                actual.values(),
                predicted.values(),
                vocabulary.values(),
                i,
            ) && t@[i].2 as int == cm_row_sum(
                actual.values(),
                predicted.values(),
                vocabulary.values(),
                i,
            )),
        r matches Err(e) ==> ((e == StatsError::KindMismatch) <==> !(actual.kind()
            == predicted.kind() && predicted.kind() == vocabulary.kind())) && ((e
            == StatsError::LengthMismatch) <==> (actual.kind() == predicted.kind()
            && predicted.kind() == vocabulary.kind() && actual.values().len()
            != predicted.values().len())),
{
    match confusion_matrix(actual, predicted, vocabulary) {
        Err(e) => Err(e),
        Ok(m) => {
            proof {
                assert forall|i: int| 0 <= i < m.dim() implies #[trigger] m.col_total(i)
                    == cm_col_sum(
                    actual.values(),
                    predicted.values(),
                    vocabulary.values(),
                    i,
                ) && m.row_total(i) == cm_row_sum(
                    actual.values(),
                    predicted.values(),
                    vocabulary.values(),
                    i,
                ) by {
                    lemma_col_sum_glue(
                        m,
                        actual.values(),
                        predicted.values(),
                        vocabulary.values(),
                        i,
                        m.dim(),
                    );
                    lemma_row_sum_glue(
                        m,
                        actual.values(),
                        predicted.values(),
                        vocabulary.values(),
                        i,
                        m.dim(),
                    );
                }
            }
            Ok(f1_reqs(&m))
        },
    }
}

} // verus!
