use fast_stats::ConfusionMatrix;
use fast_stats::Kind;
use fast_stats::LabelArray;
use fast_stats::StatsError;
use fast_stats::binary_f1_score_reqs;
use fast_stats::binary_precision_reqs;
use fast_stats::binary_recall_reqs;
use fast_stats::confusion_matrix;
use fast_stats::f1_reqs;
use fast_stats::f1_score;
use fast_stats::precision;
use fast_stats::precision_reqs;
use fast_stats::recall;
use fast_stats::recall_reqs;
use fast_stats::unique;

fn cm_entries(m: &ConfusionMatrix) -> Vec<Vec<i64>> {
    let k = m.k();
    let mut rows = Vec::new();
    for i in 0..k {
        let mut row = Vec::new();
        for j in 0..k {
            row.push(m.get(i, j));
        }
        rows.push(row);
    }
    rows
}

#[test]
fn binary_precision_counts_bool() {
    let actual = LabelArray::Bool(vec![true, false, true, true]);
    let predicted = LabelArray::Bool(vec![true, false, false, true]);
    let r = binary_precision_reqs(&actual, &predicted).unwrap();
    // TP = count(A & P) = 2, TP+FP = count(P) = 2.
    assert_eq!(r, (2, 2, 0));
}

#[test]
fn binary_recall_counts_bool() {
    let actual = LabelArray::Bool(vec![true, false, true, true]);
    let predicted = LabelArray::Bool(vec![true, false, false, true]);
    let r = binary_recall_reqs(&actual, &predicted).unwrap();
    // TP = 2, TP+FN = count(A) = 3.
    assert_eq!(r, (2, 0, 3));
}

#[test]
fn binary_f1_counts_bool() {
    let actual = LabelArray::Bool(vec![true, false, true, true]);
    let predicted = LabelArray::Bool(vec![true, false, false, true]);
    let r = binary_f1_score_reqs(&actual, &predicted).unwrap();
    assert_eq!(r, (2, 2, 3));
}

#[test]
fn binary_tp_agrees_across_operations() {
    let actual = LabelArray::U8(vec![1, 0, 1, 1, 0, 1]);
    let predicted = LabelArray::U8(vec![1, 1, 0, 1, 0, 1]);
    let p = binary_precision_reqs(&actual, &predicted).unwrap();
    let r = binary_recall_reqs(&actual, &predicted).unwrap();
    let f = binary_f1_score_reqs(&actual, &predicted).unwrap();
    assert_eq!(p.0, 3);
    assert_eq!(p.0, r.0);
    assert_eq!(r.0, f.0);
}

#[test]
fn binary_matches_between_bool_and_u8() {
    let actual_b = LabelArray::Bool(vec![true, true, false, true]);
    let predicted_b = LabelArray::Bool(vec![false, true, false, true]);
    let actual_u = LabelArray::U8(vec![1, 1, 0, 1]);
    let predicted_u = LabelArray::U8(vec![0, 1, 0, 1]);
    assert_eq!(
        binary_f1_score_reqs(&actual_b, &predicted_b).unwrap(),
        binary_f1_score_reqs(&actual_u, &predicted_u).unwrap(),
    );
}

#[test]
fn binary_empty_arrays_are_all_zero() {
    let actual = LabelArray::Bool(vec![]);
    let predicted = LabelArray::Bool(vec![]);
    assert_eq!(binary_precision_reqs(&actual, &predicted).unwrap(), (0, 0, 0));
    assert_eq!(binary_recall_reqs(&actual, &predicted).unwrap(), (0, 0, 0));
    assert_eq!(binary_f1_score_reqs(&actual, &predicted).unwrap(), (0, 0, 0));
}

#[test]
fn binary_kind_mismatch_is_rejected() {
    let actual = LabelArray::I64(vec![1, 0]);
    let predicted = LabelArray::U8(vec![1, 0]);
    assert_eq!(
        binary_precision_reqs(&actual, &predicted),
        Err(StatsError::KindMismatch)
    );
}

#[test]
fn binary_length_mismatch_is_rejected() {
    let actual = LabelArray::I32(vec![1, 0, 1]);
    let predicted = LabelArray::I32(vec![1, 0]);
    assert_eq!(
        binary_f1_score_reqs(&actual, &predicted),
        Err(StatsError::LengthMismatch)
    );
}

#[test]
fn binary_non_binary_value_is_rejected() {
    let actual = LabelArray::I16(vec![1, 2]);
    let predicted = LabelArray::I16(vec![1, 0]);
    assert_eq!(
        binary_recall_reqs(&actual, &predicted),
        Err(StatsError::NonBinaryValue)
    );
    let actual_neg = LabelArray::I8(vec![-1, 0]);
    let predicted_ok = LabelArray::I8(vec![1, 0]);
    assert_eq!(
        binary_precision_reqs(&actual_neg, &predicted_ok),
        Err(StatsError::NonBinaryValue)
    );
}

#[test]
fn binary_wide_kinds_dispatch() {
    let a16 = LabelArray::U16(vec![1, 0, 1]);
    let p16 = LabelArray::U16(vec![1, 1, 1]);
    assert_eq!(binary_f1_score_reqs(&a16, &p16).unwrap(), (2, 3, 2));
    let a64 = LabelArray::U64(vec![1, 0, 1]);
    let p64 = LabelArray::U64(vec![1, 1, 1]);
    assert_eq!(binary_f1_score_reqs(&a64, &p64).unwrap(), (2, 3, 2));
    let a32 = LabelArray::I32(vec![0, 0, 1]);
    let p32 = LabelArray::I32(vec![0, 1, 1]);
    assert_eq!(binary_f1_score_reqs(&a32, &p32).unwrap(), (1, 2, 1));
}

#[test]
fn confusion_matrix_concrete_scenario() {
    let actual = LabelArray::I64(vec![1, 0, 1, 1]);
    let predicted = LabelArray::I64(vec![1, 0, 0, 1]);
    let vocabulary = LabelArray::I64(vec![0, 1]);
    let m = confusion_matrix(&actual, &predicted, &vocabulary).unwrap();
    // Rows index actual labels, columns predicted ones.
    assert_eq!(cm_entries(&m), vec![vec![1, 0], vec![1, 2]]);
}

#[test]
fn confusion_matrix_empty_arrays_give_zero_matrix() {
    let actual = LabelArray::I64(vec![]);
    let predicted = LabelArray::I64(vec![]);
    let vocabulary = LabelArray::I64(vec![4, 7, 9]);
    let m = confusion_matrix(&actual, &predicted, &vocabulary).unwrap();
    assert_eq!(cm_entries(&m), vec![vec![0, 0, 0], vec![0, 0, 0], vec![0, 0, 0]]);
}

#[test]
fn confusion_matrix_empty_vocabulary_gives_empty_matrix() {
    let actual = LabelArray::U8(vec![1, 2, 3]);
    let predicted = LabelArray::U8(vec![1, 2, 3]);
    let vocabulary = LabelArray::U8(vec![]);
    let m = confusion_matrix(&actual, &predicted, &vocabulary).unwrap();
    assert_eq!(m.k(), 0);
}

#[test]
fn confusion_matrix_skips_labels_outside_vocabulary() {
    let actual = LabelArray::I64(vec![5, 1, 1]);
    let predicted = LabelArray::I64(vec![1, 9, 1]);
    let vocabulary = LabelArray::I64(vec![1]);
    let m = confusion_matrix(&actual, &predicted, &vocabulary).unwrap();
    // Only the third sample has both labels in the vocabulary.
    assert_eq!(cm_entries(&m), vec![vec![1]]);
}

#[test]
fn confusion_matrix_duplicate_vocabulary_uses_first_index() {
    let actual = LabelArray::I64(vec![1, 1]);
    let predicted = LabelArray::I64(vec![1, 1]);
    let vocabulary = LabelArray::I64(vec![1, 1]);
    let m = confusion_matrix(&actual, &predicted, &vocabulary).unwrap();
    assert_eq!(cm_entries(&m), vec![vec![2, 0], vec![0, 0]]);
}

#[test]
fn confusion_matrix_bool_labels() {
    let actual = LabelArray::Bool(vec![true, false, true]);
    let predicted = LabelArray::Bool(vec![true, true, true]);
    let vocabulary = LabelArray::Bool(vec![false, true]);
    let m = confusion_matrix(&actual, &predicted, &vocabulary).unwrap();
    assert_eq!(cm_entries(&m), vec![vec![0, 1], vec![0, 2]]);
}

#[test]
fn confusion_matrix_kind_mismatch_is_rejected() {
    let actual = LabelArray::I64(vec![1]);
    let predicted = LabelArray::I64(vec![1]);
    let vocabulary = LabelArray::U64(vec![1]);
    assert!(matches!(
        confusion_matrix(&actual, &predicted, &vocabulary),
        Err(StatsError::KindMismatch)
    ));
}

#[test]
fn confusion_matrix_length_mismatch_is_rejected() {
    let actual = LabelArray::I64(vec![1, 0]);
    let predicted = LabelArray::I64(vec![1]);
    let vocabulary = LabelArray::I64(vec![0, 1]);
    assert!(matches!(
        confusion_matrix(&actual, &predicted, &vocabulary),
        Err(StatsError::LengthMismatch)
    ));
}

#[test]
fn multiclass_precision_concrete_scenario() {
    let actual = LabelArray::I64(vec![1, 0, 1, 1]);
    let predicted = LabelArray::I64(vec![1, 0, 0, 1]);
    let vocabulary = LabelArray::I64(vec![0, 1]);
    let t = precision(&actual, &predicted, &vocabulary).unwrap();
    // Class 1: TP = 2, TP+FP = column sum = 2.
    assert_eq!(t, vec![(1, 2), (2, 2)]);
}

#[test]
fn multiclass_recall_concrete_scenario() {
    let actual = LabelArray::I64(vec![1, 0, 1, 1]);
    let predicted = LabelArray::I64(vec![1, 0, 0, 1]);
    let vocabulary = LabelArray::I64(vec![0, 1]);
    let t = recall(&actual, &predicted, &vocabulary).unwrap();
    // Class 1: TP = 2, TP+FN = row sum = 3.
    assert_eq!(t, vec![(1, 1), (2, 3)]);
}

#[test]
fn multiclass_f1_combines_both_sums() {
    let actual = LabelArray::I64(vec![1, 0, 1, 1]);
    let predicted = LabelArray::I64(vec![1, 0, 0, 1]);
    let vocabulary = LabelArray::I64(vec![0, 1]);
    let t = f1_score(&actual, &predicted, &vocabulary).unwrap();
    assert_eq!(t, vec![(1, 2, 1), (2, 2, 3)]);
}

#[test]
fn multiclass_three_classes() {
    let actual = LabelArray::U8(vec![0, 1, 2, 2, 1, 0, 2]);
    let predicted = LabelArray::U8(vec![0, 2, 1, 2, 1, 0, 2]);
    let vocabulary = LabelArray::U8(vec![0, 1, 2]);
    let m = confusion_matrix(&actual, &predicted, &vocabulary).unwrap();
    assert_eq!(cm_entries(&m), vec![vec![2, 0, 0], vec![0, 1, 1], vec![0, 1, 2]]);
    let p = precision(&actual, &predicted, &vocabulary).unwrap();
    assert_eq!(p, vec![(2, 2), (1, 2), (2, 3)]);
    let r = recall(&actual, &predicted, &vocabulary).unwrap();
    assert_eq!(r, vec![(2, 2), (1, 2), (2, 3)]);
}

#[test]
fn extractors_on_built_matrix_match_scenario() {
    let actual = LabelArray::I64(vec![1, 0, 1, 1]);
    let predicted = LabelArray::I64(vec![1, 0, 0, 1]);
    let vocabulary = LabelArray::I64(vec![0, 1]);
    let m = confusion_matrix(&actual, &predicted, &vocabulary).unwrap();
    assert_eq!(precision_reqs(&m), vec![(1, 2), (2, 2)]);
    assert_eq!(recall_reqs(&m), vec![(1, 1), (2, 3)]);
    assert_eq!(f1_reqs(&m), vec![(1, 2, 1), (2, 2, 3)]);
}

#[test]
fn matrix_total_counts_only_vocabulary_samples() {
    let actual = LabelArray::I64(vec![1, 2, 3, 4]);
    let predicted = LabelArray::I64(vec![1, 2, 9, 4]);
    let vocabulary = LabelArray::I64(vec![1, 2, 3, 4]);
    let m = confusion_matrix(&actual, &predicted, &vocabulary).unwrap();
    let total: i64 = cm_entries(&m).iter().flatten().sum();
    // One sample's predicted label is missing from the vocabulary.
    assert_eq!(total, 3);

    let full = LabelArray::I64(vec![1, 2, 3, 4]);
    let m2 = confusion_matrix(&actual, &full, &vocabulary).unwrap();
    let total2: i64 = cm_entries(&m2).iter().flatten().sum();
    // With every label in the vocabulary the total equals the sample count.
    assert_eq!(total2, 4);
}

#[test]
fn unique_keeps_first_seen_order() {
    let arr = LabelArray::I64(vec![3, 1, 3, 2, 1]);
    let u = unique(&arr);
    assert_eq!(u.element_kind(), Kind::I64);
    assert_eq!(u.wide_values(), vec![3, 1, 2]);
}

#[test]
fn unique_of_empty_array_is_empty() {
    let arr = LabelArray::U32(vec![]);
    let u = unique(&arr);
    assert_eq!(u.element_kind(), Kind::U32);
    assert_eq!(u.wide_values(), Vec::<i128>::new());
}

#[test]
fn unique_bool_values() {
    let arr = LabelArray::Bool(vec![false, true, false, true]);
    let u = unique(&arr);
    assert_eq!(u.element_kind(), Kind::Bool);
    assert_eq!(u.wide_values(), vec![0, 1]);
}

#[test]
fn unique_negative_values_stay_distinct() {
    let arr = LabelArray::I8(vec![-1, 1, -1, 0]);
    let u = unique(&arr);
    assert_eq!(u.wide_values(), vec![-1, 1, 0]);
}

#[test]
fn operations_are_referentially_transparent() {
    let actual = LabelArray::U8(vec![1, 0, 1, 1]);
    let predicted = LabelArray::U8(vec![1, 0, 0, 1]);
    let vocabulary = LabelArray::U8(vec![0, 1]);
    assert_eq!(
        binary_f1_score_reqs(&actual, &predicted).unwrap(),
        binary_f1_score_reqs(&actual, &predicted).unwrap(),
    );
    let m1 = confusion_matrix(&actual, &predicted, &vocabulary).unwrap();
    let m2 = confusion_matrix(&actual, &predicted, &vocabulary).unwrap();
    assert_eq!(cm_entries(&m1), cm_entries(&m2));
    assert_eq!(
        precision(&actual, &predicted, &vocabulary).unwrap(),
        precision(&actual, &predicted, &vocabulary).unwrap(),
    );
    let arr = LabelArray::U8(vec![2, 2, 1]);
    assert_eq!(unique(&arr).wide_values(), unique(&arr).wide_values());
}

#[test]
fn reduction_sums_widen_before_adding() {
    let v: Vec<i64> = vec![i64::MIN, i64::MIN];
    let total = fast_stats::reduce::sum(&v);
    assert_eq!(total, -2i128 * (1i128 << 63));
    let w: Vec<u64> = vec![u64::MAX, u64::MAX, 3];
    assert_eq!(fast_stats::reduce::sum(&w), 2 * (u64::MAX as i128) + 3);
}

#[test]
fn reduction_dot_sum_counts_shared_ones() {
    let a: Vec<u8> = vec![1, 0, 1, 1];
    let b: Vec<u8> = vec![1, 1, 0, 1];
    assert_eq!(fast_stats::reduce::dot_sum(&a, &b), 2);
}

#[test]
fn label_array_accessors() {
    let arr = LabelArray::I16(vec![-3, 7]);
    assert_eq!(arr.len(), 2);
    assert_eq!(arr.element_kind(), Kind::I16);
    assert_eq!(arr.wide_values(), vec![-3, 7]);
}
