//! The two-class fast path: for 0/1 label arrays the per-class
//! requirement statistics of the positive class come straight from one
//! linear pass, without materializing a matrix. The true-positive count
//! is the elementwise-product sum, the predicted-positive count the sum
//! of the predicted array, and the actual-positive count the sum of the
//! actual array.
//!
//! Multiplication stands in for logical AND only on 0/1 values, so the
//! dispatcher rejects any operand holding another value.

use vstd::prelude::*;

use crate::MAX_LEN;
use crate::StatsError;
use crate::array::LabelArray;
use crate::array::bools_to_u8;
use crate::element::Element;
use crate::element::wide_seq;
use crate::reduce::and_count;
use crate::reduce::check_binary;
use crate::reduce::dot_of;
use crate::reduce::dot_sum;
use crate::reduce::is_binary;
use crate::reduce::lemma_dot_counts_conjunction;
use crate::reduce::lemma_sum_counts_ones;
use crate::reduce::ones_count;
use crate::reduce::sum;
use crate::reduce::sum_of;

verus! {

/// What the binary fast path owes once dispatch and validation succeed:
/// the triple is (TP, TP+FP, TP+FN) for the positive class.
pub open spec fn is_binary_counts_for(t: (i128, i128, i128), a: Seq<int>, p: Seq<int>) -> bool {
    &&& t.0 as int == dot_of(a, p)
    &&& t.1 as int == sum_of(p)
    &&& t.2 as int == sum_of(a)
}

/// When the binary fast path answers `Ok`, and with which error it
/// answers otherwise: kind mismatch first, then shape mismatch, then a
/// value outside {0, 1}.
pub open spec fn binary_outcome_ok(r: Result<(i128, i128, i128), StatsError>, actual: LabelArray, predicted: LabelArray) -> bool {
    r is Ok <==> (actual.kind() == predicted.kind() && actual.values().len()
        == predicted.values().len() && is_binary(actual.values()) && is_binary(predicted.values()))
}

/// The error cases of the binary fast path, each tied to exactly the
/// inputs that produce it.
pub open spec fn binary_outcome_err(r: Result<(i128, i128, i128), StatsError>, actual: LabelArray, predicted: LabelArray) -> bool {
    r matches Err(e) ==> ((e == StatsError::KindMismatch) <==> actual.kind() != predicted.kind())
        && ((e == StatsError::LengthMismatch) <==> (actual.kind() == predicted.kind()
        && actual.values().len() != predicted.values().len())) && ((e
        == StatsError::NonBinaryValue) <==> (actual.kind() == predicted.kind()
        && actual.values().len() == predicted.values().len() && !(is_binary(actual.values())
        && is_binary(predicted.values()))))
}

/// On 0/1 arrays the fast path's statistics are plain counts: the
/// product sum counts the positions positive in both arrays, and each
/// plain sum counts one array's positives.
pub proof fn lemma_binary_counts_are_counts(a: Seq<int>, p: Seq<int>)
    requires
        a.len() == p.len(),
        is_binary(a),
        is_binary(p),
    ensures
        dot_of(a, p) == and_count(a, p),
        sum_of(p) == ones_count(p),
        sum_of(a) == ones_count(a),
{
    lemma_dot_counts_conjunction(a, p, a.len() as int);
    lemma_sum_counts_ones(p, p.len() as int);
    lemma_sum_counts_ones(a, a.len() as int);
}

/// The three binary operations share one true-positive count: results
/// they give for the same pair of arrays agree in their first component,
/// the elementwise-product sum, which each operation's contract pins to
/// `dot_of` of the two arrays' values.
pub proof fn lemma_binary_tp_shared(
    rp: (i128, i128, i128),
    rr: (i128, i128, i128),
    rf: (i128, i128, i128),
    a: Seq<int>,
    p: Seq<int>,
)
    requires
        rp.0 as int == dot_of(a, p),
        rr.0 as int == dot_of(a, p),
        rf.0 as int == dot_of(a, p),
    ensures
        rp.0 == rr.0,
        rr.0 == rf.0,
{
}

/// Validate one resolved pair of arrays and take its three sums.
fn binary_counts_core<T: Element>(actual: &Vec<T>, pred: &Vec<T>) -> (r: Result<
    (i128, i128, i128),
    StatsError,
>)
    requires
        actual@.len() <= MAX_LEN,
    ensures
        r is Ok <==> (actual@.len() == pred@.len() && is_binary(wide_seq(actual@)) && is_binary(
            wide_seq(pred@),
        )),
        r matches Ok(t) ==> is_binary_counts_for(t, wide_seq(actual@), wide_seq(pred@)),
        r matches Err(e) ==> e != StatsError::KindMismatch && ((e == StatsError::LengthMismatch)
            <==> actual@.len() != pred@.len()) && ((e == StatsError::NonBinaryValue) <==> (
        actual@.len() == pred@.len() && !(is_binary(wide_seq(actual@)) && is_binary(
            wide_seq(pred@),
        )))),
{
    if actual.len() != pred.len() {
        return Err(StatsError::LengthMismatch);
    }
    let actual_ok = check_binary(actual);
    let pred_ok = check_binary(pred);
    if !actual_ok || !pred_ok {
        return Err(StatsError::NonBinaryValue);
    }
    let tp = dot_sum(actual, pred);
    let pred_positives = sum(pred);
    let actual_positives = sum(actual);
    Ok((tp, pred_positives, actual_positives))
}

/// Binary F1 requirements: (TP, TP+FP, TP+FN) for the positive class,
/// computed in one linear pass over the two arrays.
pub fn binary_f1_score_reqs(actual: &LabelArray, predicted: &LabelArray) -> (r: Result<
    (i128, i128, i128),
    StatsError,
>)
    requires
        actual.values().len() <= MAX_LEN,
    ensures
        binary_outcome_ok(r, *actual, *predicted),
        r matches Ok(t) ==> is_binary_counts_for(t, actual.values(), predicted.values()),
        binary_outcome_err(r, *actual, *predicted),
{
    match (actual, predicted) {
        (LabelArray::Bool(a), LabelArray::Bool(p)) => {
            let a8 = bools_to_u8(a);
            let p8 = bools_to_u8(p);
            binary_counts_core(&a8, &p8)
        },
        (LabelArray::I8(a), LabelArray::I8(p)) => binary_counts_core(a, p),
        (LabelArray::I16(a), LabelArray::I16(p)) => binary_counts_core(a, p),
        (LabelArray::I32(a), LabelArray::I32(p)) => binary_counts_core(a, p),
        (LabelArray::I64(a), LabelArray::I64(p)) => binary_counts_core(a, p),
        (LabelArray::U8(a), LabelArray::U8(p)) => binary_counts_core(a, p),
        (LabelArray::U16(a), LabelArray::U16(p)) => binary_counts_core(a, p),
        (LabelArray::U32(a), LabelArray::U32(p)) => binary_counts_core(a, p),
        (LabelArray::U64(a), LabelArray::U64(p)) => binary_counts_core(a, p),
        _ => Err(StatsError::KindMismatch),
    }
}

/// Binary precision requirements: (TP, TP+FP, 0) for the positive class.
pub fn binary_precision_reqs(actual: &LabelArray, predicted: &LabelArray) -> (r: Result<
    (i128, i128, i128),
    StatsError,
>)
    requires
        actual.values().len() <= MAX_LEN,
    ensures
        binary_outcome_ok(r, *actual, *predicted),
        r matches Ok(t) ==> t.0 as int == dot_of(actual.values(), predicted.values()) && t.1 as int
            == sum_of(predicted.values()) && t.2 == 0,
        binary_outcome_err(r, *actual, *predicted),
{
    match binary_f1_score_reqs(actual, predicted) {
        Err(e) => Err(e),
        Ok(t) => Ok((t.0, t.1, 0)),
    }
}

/// Binary recall requirements: (TP, 0, TP+FN) for the positive class.
pub fn binary_recall_reqs(actual: &LabelArray, predicted: &LabelArray) -> (r: Result<
    (i128, i128, i128),
    StatsError,
>)
    requires
        actual.values().len() <= MAX_LEN,
    ensures
        binary_outcome_ok(r, *actual, *predicted),
        r matches Ok(t) ==> t.0 as int == dot_of(actual.values(), predicted.values()) && t.1 == 0
            && t.2 as int == sum_of(actual.values()),
        binary_outcome_err(r, *actual, *predicted),
{
    match binary_f1_score_reqs(actual, predicted) {
        Err(e) => Err(e),
        Ok(t) => Ok((t.0, 0, t.2)),
    }
}

} // verus!
