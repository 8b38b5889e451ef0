//! Confusion-matrix construction: map each vocabulary value to its
//! position, scan the actual and predicted arrays in lock-step, and count
//! each sample whose two labels are both in the vocabulary.

use vstd::prelude::*;

use crate::MAX_LEN;
use crate::StatsError;
use crate::array::LabelArray;
use crate::element::Element;
use crate::element::wide_seq;
use crate::matrix::ConfusionMatrix;
use crate::matrix::lemma_total_after_bump;

verus! {

/// Position of value `x` in the vocabulary: the first index holding it,
/// or `None` when it is absent. Duplicate vocabulary values collapse to
/// their first index.
pub open spec fn lookup(vocab: Seq<int>, x: int) -> Option<int>
    decreases vocab.len(),
{
    if vocab.len() == 0 {
        None
    } else if vocab[0] == x {
        Some(0int)
    } else {
        match lookup(vocab.drop_first(), x) {
            None => None,
            Some(i) => Some(i + 1),
        }
    }
}

/// `lookup` answers `Some` exactly for present values, with the first
/// index that holds the value.
pub proof fn lemma_lookup_properties(vocab: Seq<int>, x: int)
    ensures
        match lookup(vocab, x) {
            Some(i) => 0 <= i < vocab.len() && vocab[i] == x && (forall|k: int|
                0 <= k < i ==> #[trigger] vocab[k] != x),
            None => forall|k: int| 0 <= k < vocab.len() ==> #[trigger] vocab[k] != x,
        },
    decreases vocab.len(),
{
    if vocab.len() > 0 && vocab[0] != x {
        lemma_lookup_properties(vocab.drop_first(), x);
        match lookup(vocab.drop_first(), x) {
            Some(i0) => {
                assert(vocab.drop_first()[i0] == vocab[i0 + 1]);
                assert forall|k: int| 0 <= k < i0 + 1 implies #[trigger] vocab[k] != x by {
                    if k > 0 {
                        assert(vocab.drop_first()[k - 1] == vocab[k]);
                    }
                }
            },
            None => {
                assert forall|k: int| 0 <= k < vocab.len() implies #[trigger] vocab[k] != x by {
                    if k > 0 {
                        assert(vocab.drop_first()[k - 1] == vocab[k]);
                    }
                }
            },
        }
    }
}

/// A value that sits first at index `i` is looked up there.
pub proof fn lemma_lookup_first(vocab: Seq<int>, x: int, i: int)
    requires
        0 <= i < vocab.len(),
        vocab[i] == x,
        forall|k: int| 0 <= k < i ==> #[trigger] vocab[k] != x,
    ensures
        lookup(vocab, x) == Some(i),
    decreases i,
{
    if i > 0 {
        assert(vocab.drop_first()[i - 1] == vocab[i]);
        assert forall|k: int| 0 <= k < i - 1 implies #[trigger] vocab.drop_first()[k] != x by {
            assert(vocab.drop_first()[k] == vocab[k + 1]);
        }
        lemma_lookup_first(vocab.drop_first(), x, i - 1);
    }
}

/// Whether sample `t` is counted in cell (i, j): its actual label sits at
/// vocabulary position `i` and its predicted label at position `j`.
pub open spec fn sample_counted(
    a: Seq<int>,
    p: Seq<int>,
    v: Seq<int>,
    i: int,
    j: int,
    t: int,
) -> bool {
    lookup(v, a[t]) == Some(i) && lookup(v, p[t]) == Some(j)
}

/// Whether sample `t` is counted at all: both of its labels are in the
/// vocabulary.
pub open spec fn sample_found(a: Seq<int>, p: Seq<int>, v: Seq<int>, t: int) -> bool {
    lookup(v, a[t]) is Some && lookup(v, p[t]) is Some
}

/// How many of the first `n` samples fall in cell (i, j).
pub open spec fn cm_count_to(
    a: Seq<int>,
    p: Seq<int>,
    v: Seq<int>,
    i: int,
    j: int,
    n: int,
) -> int
    decreases n,
{
    if n <= 0 {
        0
    } else {
        cm_count_to(a, p, v, i, j, n - 1) + if sample_counted(a, p, v, i, j, n - 1) {
            1int
        } else {
            0int
        }
    }
}

/// How many samples of the equal-length arrays `a` (actual) and `p`
/// (predicted) fall in cell (i, j) of the matrix defined by vocabulary `v`.
pub open spec fn cm_count(a: Seq<int>, p: Seq<int>, v: Seq<int>, i: int, j: int) -> int {
    cm_count_to(a, p, v, i, j, a.len() as int)
}

/// How many of the first `n` samples are counted at all.
pub open spec fn found_to(a: Seq<int>, p: Seq<int>, v: Seq<int>, n: int) -> int
    decreases n,
{
    if n <= 0 {
        0
    } else {
        found_to(a, p, v, n - 1) + if sample_found(a, p, v, n - 1) {
            1int
        } else {
            0int
        }
    }
}

/// How many samples of the equal-length arrays are counted at all.
pub open spec fn found_count(a: Seq<int>, p: Seq<int>, v: Seq<int>) -> int {
    found_to(a, p, v, a.len() as int)
}

/// A cell's count never exceeds the count of all counted samples.
pub proof fn lemma_cm_count_le_found(a: Seq<int>, p: Seq<int>, v: Seq<int>, i: int, j: int, n: int)
    ensures
        0 <= cm_count_to(a, p, v, i, j, n) <= found_to(a, p, v, n),
    decreases n,
{
    if n > 0 {
        lemma_cm_count_le_found(a, p, v, i, j, n - 1);
    }
}

/// At most `n` of the first `n` samples are counted, and exactly `n` of
/// them precisely when each one has both labels in the vocabulary.
pub proof fn lemma_found_le(a: Seq<int>, p: Seq<int>, v: Seq<int>, n: int)
    requires
        n >= 0,
    ensures
        0 <= found_to(a, p, v, n) <= n,
        found_to(a, p, v, n) == n <==> (forall|t: int| 0 <= t < n ==> sample_found(a, p, v, t)),
    decreases n,
{
    if n > 0 {
        lemma_found_le(a, p, v, n - 1);
    }
}

/// The sum of all confusion-matrix cells is at most the number of
/// samples, with equality exactly when every actual and every predicted
/// label is present in the vocabulary.
pub proof fn lemma_total_bounded(a: Seq<int>, p: Seq<int>, v: Seq<int>)
    requires
        a.len() == p.len(),
    ensures
        0 <= found_count(a, p, v) <= a.len(),
        found_count(a, p, v) == a.len() <==> (forall|t: int|
            0 <= t < a.len() ==> sample_found(a, p, v, t)),
{
    lemma_found_le(a, p, v, a.len() as int);
}

/// What `confusion_matrix` owes for actual values `a`, predicted values
/// `p` and vocabulary `v`: a well-formed square matrix with one row per
/// vocabulary entry, whose cell (i, j) counts the samples with actual
/// label at position i and predicted label at position j, and whose grand
/// total counts the samples with both labels in the vocabulary.
pub open spec fn is_cm_for(m: ConfusionMatrix, a: Seq<int>, p: Seq<int>, v: Seq<int>) -> bool {
    &&& m.wf()
    &&& m.dim() == v.len()
    &&& (forall|i: int, j: int|
        0 <= i < m.dim() && 0 <= j < m.dim() ==> #[trigger] m.entry(i, j) == cm_count(a, p, v, i, j))
    &&& m.total() == found_count(a, p, v)
}

/// The grand total of a built confusion matrix is at most the number of
/// samples, with equality exactly when every actual and every predicted
/// label is present in the vocabulary.
pub proof fn lemma_matrix_total_bounded(m: ConfusionMatrix, a: Seq<int>, p: Seq<int>, v: Seq<int>)
    requires
        is_cm_for(m, a, p, v),
        a.len() == p.len(),
    ensures
        0 <= m.total() <= a.len(),
        m.total() == a.len() <==> (forall|t: int| 0 <= t < a.len() ==> sample_found(a, p, v, t)),
{
    lemma_total_bounded(a, p, v);
}

/// Two matrices built for the same inputs agree cell for cell.
pub proof fn lemma_confusion_matrix_deterministic(
    m1: ConfusionMatrix,
    m2: ConfusionMatrix,
    a: Seq<int>,
    p: Seq<int>,
    v: Seq<int>,
)
    requires
        is_cm_for(m1, a, p, v),
        is_cm_for(m2, a, p, v),
    ensures
        m1.dim() == m2.dim(),
        forall|i: int, j: int|
            0 <= i < m1.dim() && 0 <= j < m1.dim() ==> #[trigger] m1.entry(i, j) == m2.entry(i, j),
        m1.total() == m2.total(),
{
}

/// Position of `x` in the vocabulary array, by linear scan: the first
/// index holding an equal value, or `None`.
fn find_index<T: Element>(vocab: &Vec<T>, x: T) -> (r: Option<usize>)
    ensures
        match r {
            Some(i) => lookup(wide_seq(vocab@), x.wide()) == Some(i as int),
            None => lookup(wide_seq(vocab@), x.wide()) is None,
        },
{
    let ghost v = wide_seq(vocab@);
    let mut t: usize = 0;
    while t < vocab.len()
        invariant
            0 <= t <= vocab@.len(),
            v == wide_seq(vocab@),
            forall|k: int| 0 <= k < t ==> #[trigger] v[k] != x.wide(),
        decreases vocab@.len() - t,
    {
        if vocab[t].same(x) {
            proof {
                assert(v[t as int] == vocab@[t as int].wide());
                lemma_lookup_first(v, x.wide(), t as int);
            }
            return Some(t);
        }
        proof {
            assert(v[t as int] == vocab@[t as int].wide());
        }
        t = t + 1;
    }
    proof {
        lemma_lookup_properties(v, x.wide());
    }
    None
}

/// Build the confusion matrix for one resolved element kind. Samples
/// whose actual or predicted label is absent from the vocabulary are
/// silently excluded.
fn confusion_matrix_core<T: Element>(actual: &Vec<T>, pred: &Vec<T>, labels: &Vec<T>) -> (m:
    ConfusionMatrix)
    requires
        actual@.len() == pred@.len(),
        actual@.len() <= MAX_LEN,
    ensures
        is_cm_for(m, wide_seq(actual@), wide_seq(pred@), wide_seq(labels@)),
{
    let ghost a = wide_seq(actual@);
    let ghost p = wide_seq(pred@);
    let ghost v = wide_seq(labels@);
    let k = labels.len();
    let mut m = ConfusionMatrix::zeroed(k);
    let mut t: usize = 0;
    while t < actual.len()
        invariant
            0 <= t <= a.len(),
            a.len() == p.len(),
            a.len() <= MAX_LEN,
            a == wide_seq(actual@),
            p == wide_seq(pred@),
            v == wide_seq(labels@),
            m.dim() == v.len(),
            m.square(),
            forall|i: int, j: int|
                0 <= i < m.dim() && 0 <= j < m.dim() ==> #[trigger] m.entry(i, j) == cm_count_to(
                    a,
                    p,
                    v,
                    i,
                    j,
                    t as int,
                ),
            m.total() == found_to(a, p, v, t as int),
        decreases a.len() - t,
    {
        let label_a = actual[t];
        let label_p = pred[t];
        let ia = find_index(labels, label_a);
        let jp = find_index(labels, label_p);
        proof {
            assert(a[t as int] == actual@[t as int].wide());
            assert(p[t as int] == pred@[t as int].wide());
        }
        match (ia, jp) {
            (Some(i), Some(j)) => {
                proof {
                    lemma_lookup_properties(v, a[t as int]);
                    lemma_lookup_properties(v, p[t as int]);
                    lemma_found_le(a, p, v, t as int);
                    lemma_cm_count_le_found(a, p, v, i as int, j as int, t as int);
                }
                let ghost m_before = m;
                m.bump(i, j);
                proof {
                    lemma_total_after_bump(m_before, m, i as int, j as int);
                }
            },
            _ => {},
        }
        t = t + 1;
    }
    proof {
        assert forall|i: int, j: int|
            0 <= i < m.dim() && 0 <= j < m.dim() implies #[trigger] m.entry(i, j) >= 0 by {
            lemma_cm_count_le_found(a, p, v, i, j, a.len() as int);
        }
        lemma_found_le(a, p, v, a.len() as int);
    }
    m
}

/// Build the K×K confusion matrix for `actual` and `predicted` label
/// arrays and an explicit label `vocabulary` of K values, after resolving
/// their common element kind. Row i and column i belong to
/// `vocabulary[i]`; rows index actual labels, columns predicted ones.
pub fn confusion_matrix(actual: &LabelArray, predicted: &LabelArray, vocabulary: &LabelArray) -> (r:
    Result<ConfusionMatrix, StatsError>)
    requires
        actual.values().len() <= MAX_LEN,
    ensures
        r is Ok <==> (actual.kind() == predicted.kind() && predicted.kind() == vocabulary.kind()
            && actual.values().len() == predicted.values().len()),
        r matches Ok(m) ==> is_cm_for(m, actual.values(), predicted.values(), vocabulary.values()),
        r matches Err(e) ==> ((e == StatsError::KindMismatch) <==> !(actual.kind()
            == predicted.kind() && predicted.kind() == vocabulary.kind())) && ((e
            == StatsError::LengthMismatch) <==> (actual.kind() == predicted.kind()
            && predicted.kind() == vocabulary.kind() && actual.values().len()
            != predicted.values().len())),
{
    match (actual, predicted, vocabulary) {
        (LabelArray::Bool(a), LabelArray::Bool(p), LabelArray::Bool(v)) => {
            if a.len() != p.len() {
                Err(StatsError::LengthMismatch)
            } else {
                Ok(confusion_matrix_core(a, p, v))
            }
        },
        (LabelArray::I8(a), LabelArray::I8(p), LabelArray::I8(v)) => {
            if a.len() != p.len() {
                Err(StatsError::LengthMismatch)
            } else {
                Ok(confusion_matrix_core(a, p, v))
            }
        },
        (LabelArray::I16(a), LabelArray::I16(p), LabelArray::I16(v)) => {
            if a.len() != p.len() {
                Err(StatsError::LengthMismatch)
            } else {
                Ok(confusion_matrix_core(a, p, v))
            }
        },
        (LabelArray::I32(a), LabelArray::I32(p), LabelArray::I32(v)) => {
            if a.len() != p.len() {
                Err(StatsError::LengthMismatch)
            } else {
                Ok(confusion_matrix_core(a, p, v))
            }
        },
        (LabelArray::I64(a), LabelArray::I64(p), LabelArray::I64(v)) => {
            if a.len() != p.len() {
                Err(StatsError::LengthMismatch)
            } else {
                Ok(confusion_matrix_core(a, p, v))
            }
        },
        (LabelArray::U8(a), LabelArray::U8(p), LabelArray::U8(v)) => {
            if a.len() != p.len() {
                Err(StatsError::LengthMismatch)
            } else {
                Ok(confusion_matrix_core(a, p, v))
            }
        },
        (LabelArray::U16(a), LabelArray::U16(p), LabelArray::U16(v)) => {
            if a.len() != p.len() {
                Err(StatsError::LengthMismatch)
            } else {
                Ok(confusion_matrix_core(a, p, v))
            }
        },
        (LabelArray::U32(a), LabelArray::U32(p), LabelArray::U32(v)) => {
            if a.len() != p.len() {
                Err(StatsError::LengthMismatch)
            } else {
                Ok(confusion_matrix_core(a, p, v))
            }
        },
        (LabelArray::U64(a), LabelArray::U64(p), LabelArray::U64(v)) => {
            if a.len() != p.len() {
                Err(StatsError::LengthMismatch)
            } else {
                Ok(confusion_matrix_core(a, p, v))
            }
        },
        _ => Err(StatsError::KindMismatch),
    }
}

} // verus!
