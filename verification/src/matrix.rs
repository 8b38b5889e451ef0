//! The K×K confusion matrix: a square table of non-negative counts whose
//! rows index actual classes and whose columns index predicted classes.

use vstd::prelude::*;

use crate::reduce::lemma_element_le_sum_to;
use crate::reduce::lemma_sum_to_monotone;
use crate::reduce::lemma_sum_to_nonneg;
use crate::reduce::lemma_sum_to_update;
use crate::reduce::sum_of;
use crate::reduce::sum_to;

verus! {

/// A K×K matrix of sample counts. Entry (i, j) counts the samples whose
/// actual label sits at vocabulary position i and whose predicted label
/// sits at position j.
pub struct ConfusionMatrix {
    pub rows: Vec<Vec<i64>>,
}

impl ConfusionMatrix {
    /// The number of classes K.
    pub open spec fn dim(self) -> int {
        self.rows@.len() as int
    }

    /// Every row has K entries.
    pub open spec fn square(self) -> bool {
        forall|i: int| 0 <= i < self.dim() ==> #[trigger] self.rows@[i]@.len() == self.dim()
    }

    /// The count at row `i`, column `j`.
    pub open spec fn entry(self, i: int, j: int) -> int {
        self.rows@[i]@[j] as int
    }

    /// Row `i` as a sequence of counts.
    pub open spec fn row_seq(self, i: int) -> Seq<int> {
        self.rows@[i]@.map_values(|x: i64| x as int)
    }

    /// The sum of row `i`: how many counted samples have actual class `i`.
    pub open spec fn row_total(self, i: int) -> int {
        sum_of(self.row_seq(i))
    }

    /// The row sums, in order.
    pub open spec fn row_totals(self) -> Seq<int> {
        Seq::new(self.dim() as nat, |i: int| self.row_total(i))
    }

    /// The sum of the first `n` entries of column `j`.
    pub open spec fn col_to(self, j: int, n: int) -> int
        decreases n,
    {
        if n <= 0 {
            0
        } else {
            self.col_to(j, n - 1) + self.entry(n - 1, j)
        }
    }

    /// The sum of column `j`: how many counted samples have predicted
    /// class `j`.
    pub open spec fn col_total(self, j: int) -> int {
        self.col_to(j, self.dim())
    }

    /// The sum of all entries: how many samples were counted at all.
    pub open spec fn total(self) -> int {
        sum_of(self.row_totals())
    }

    /// Every count is non-negative.
    pub open spec fn nonneg(self) -> bool {
        forall|i: int, j: int|
            0 <= i < self.dim() && 0 <= j < self.dim() ==> #[trigger] self.entry(i, j) >= 0
    }

    /// Well-formedness: a square table of non-negative counts whose grand
    /// total fits the entry type, so that every row and column sum does too.
    pub open spec fn wf(self) -> bool {
        &&& self.square()
        &&& self.nonneg()
        &&& self.total() <= i64::MAX
    }

    /// The number of classes K.
    pub fn k(&self) -> (n: usize)
        ensures
            n == self.dim(),
    {
        self.rows.len()
    }

    /// The count at row `i`, column `j`.
    pub fn get(&self, i: usize, j: usize) -> (x: i64)
        requires
            self.square(),
            i < self.dim(),
            j < self.dim(),
        ensures
            x as int == self.entry(i as int, j as int),
    {
        self.rows[i][j]
    }

    /// An all-zero K×K matrix.
    pub fn zeroed(k: usize) -> (m: ConfusionMatrix)
        ensures
            m.dim() == k,
            m.square(),
            forall|i: int, j: int| 0 <= i < k && 0 <= j < k ==> #[trigger] m.entry(i, j) == 0,
            m.total() == 0,
            m.wf(),
    {
        let mut rows: Vec<Vec<i64>> = Vec::new();
        let mut i: usize = 0;
        while i < k
            invariant
                0 <= i <= k,
                rows@.len() == i,
                forall|r: int| 0 <= r < i ==> #[trigger] rows@[r]@.len() == k,
                forall|r: int, c: int|
                    0 <= r < i && 0 <= c < k ==> #[trigger] rows@[r]@[c] == 0i64,
            decreases k - i,
        {
            let mut row: Vec<i64> = Vec::new();
            let mut j: usize = 0;
            while j < k
                invariant
                    0 <= j <= k,
                    row@.len() == j,
                    forall|c: int| 0 <= c < j ==> #[trigger] row@[c] == 0i64,
                decreases k - j,
            {
                row.push(0);
                j = j + 1;
            }
            rows.push(row);
            i = i + 1;
        }
        let m = ConfusionMatrix { rows };
        proof {
            assert forall|i2: int| 0 <= i2 < k implies #[trigger] m.row_total(i2) == 0 by {
                lemma_sum_of_zero_seq(m.row_seq(i2));
            }
            assert(m.row_totals() =~= Seq::new(k as nat, |i2: int| 0int));
            lemma_sum_of_zero_seq(m.row_totals());
        }
        m
    }

    /// Add one to the count at row `i`, column `j`.
    pub fn bump(&mut self, i: usize, j: usize)
        requires
            old(self).square(),
            i < old(self).dim(),
            j < old(self).dim(),
            old(self).entry(i as int, j as int) + 1 <= i64::MAX,
        ensures
            final(self).dim() == old(self).dim(),
            final(self).square(),
            forall|i2: int, j2: int|
                0 <= i2 < final(self).dim() && 0 <= j2 < final(self).dim()
                    ==> #[trigger] final(self).entry(i2, j2) == old(self).entry(i2, j2) + (
                if i2 == i && j2 == j {
                    1int
                } else {
                    0int
                }),
    {
        let x = self.rows[i][j];
        self.rows[i][j] = x + 1;
    }
}

/// A sequence of zeros sums to zero.
pub proof fn lemma_sum_of_zero_seq(s: Seq<int>)
    requires
        forall|i: int| 0 <= i < s.len() ==> #[trigger] s[i] == 0,
    ensures
        sum_of(s) == 0,
{
    lemma_sum_to_zero(s, s.len() as int);
}

proof fn lemma_sum_to_zero(s: Seq<int>, n: int)
    requires
        forall|i: int| 0 <= i < n ==> #[trigger] s[i] == 0,
    ensures
        sum_to(s, n) == 0,
    decreases n,
{
    if n > 0 {
        lemma_sum_to_zero(s, n - 1);
    }
}

/// A row's sequence has one value per class, and they are the row's
/// entries.
pub proof fn lemma_row_seq_entries(m: ConfusionMatrix, i: int)
    requires
        m.square(),
        0 <= i < m.dim(),
    ensures
        m.row_seq(i).len() == m.dim(),
        forall|j: int| 0 <= j < m.dim() ==> #[trigger] m.row_seq(i)[j] == m.entry(i, j),
{
}

/// In a square, non-negative matrix every entry is at most the grand total.
pub proof fn lemma_entry_le_total(m: ConfusionMatrix, i: int, j: int)
    requires
        m.square(),
        m.nonneg(),
        0 <= i < m.dim(),
        0 <= j < m.dim(),
    ensures
        0 <= m.entry(i, j) <= m.total(),
{
    lemma_row_seq_entries(m, i);
    lemma_row_partial_le_total(m, i, m.dim());
    lemma_element_le_sum_to(m.row_seq(i), j, m.dim());
}

/// In a square, non-negative matrix every partial row sum lies between 0
/// and the grand total.
pub proof fn lemma_row_partial_le_total(m: ConfusionMatrix, i: int, n: int)
    requires
        m.square(),
        m.nonneg(),
        0 <= i < m.dim(),
        0 <= n <= m.dim(),
    ensures
        0 <= sum_to(m.row_seq(i), n) <= m.total(),
{
    lemma_row_seq_entries(m, i);
    lemma_sum_to_nonneg(m.row_seq(i), n);
    lemma_sum_to_monotone(m.row_seq(i), n, m.dim());
    assert(sum_to(m.row_seq(i), m.dim()) == m.row_total(i));
    assert forall|r: int| 0 <= r < m.dim() implies #[trigger] m.row_totals()[r] >= 0 by {
        lemma_row_seq_entries(m, r);
        lemma_sum_to_nonneg(m.row_seq(r), m.dim());
    }
    lemma_element_le_sum_to(m.row_totals(), i, m.dim());
}

/// In a square, non-negative matrix every partial column sum lies between
/// 0 and the grand total.
pub proof fn lemma_col_partial_le_total(m: ConfusionMatrix, j: int, n: int)
    requires
        m.square(),
        m.nonneg(),
        0 <= j < m.dim(),
        0 <= n <= m.dim(),
    ensures
        0 <= m.col_to(j, n) <= sum_to(m.row_totals(), n) <= m.total(),
    decreases n,
{
    assert forall|r: int| 0 <= r < m.dim() implies #[trigger] m.row_totals()[r] >= 0 by {
        lemma_row_seq_entries(m, r);
        lemma_sum_to_nonneg(m.row_seq(r), m.dim());
    }
    if n > 0 {
        lemma_col_partial_le_total(m, j, n - 1);
        lemma_row_seq_entries(m, n - 1);
        lemma_element_le_sum_to(m.row_seq(n - 1), j, m.dim());
    }
    lemma_sum_to_monotone(m.row_totals(), n, m.dim());
}

/// Raising one entry of a square matrix by one raises its grand total by
/// one.
pub proof fn lemma_total_after_bump(m1: ConfusionMatrix, m2: ConfusionMatrix, i: int, j: int)
    requires
        m1.square(),
        m2.square(),
        m1.dim() == m2.dim(),
        0 <= i < m1.dim(),
        0 <= j < m1.dim(),
        forall|i2: int, j2: int|
            0 <= i2 < m1.dim() && 0 <= j2 < m1.dim() ==> #[trigger] m2.entry(i2, j2) == m1.entry(
                i2,
                j2,
            ) + (if i2 == i && j2 == j {
                1int
            } else {
                0int
            }),
    ensures
        m2.total() == m1.total() + 1,
{
    assert forall|r: int| 0 <= r < m1.dim() && r != i implies #[trigger] m2.row_total(r)
        == m1.row_total(r) by {
        lemma_row_seq_entries(m1, r);
        lemma_row_seq_entries(m2, r);
        assert(m2.row_seq(r) =~= m1.row_seq(r));
    }
    lemma_row_seq_entries(m1, i);
    lemma_row_seq_entries(m2, i);
    assert(m2.row_seq(i) =~= m1.row_seq(i).update(j, m1.entry(i, j) + 1));
    lemma_sum_to_update(m1.row_seq(i), j, m1.entry(i, j) + 1, m1.dim());
    assert(m2.row_total(i) == m1.row_total(i) + 1);
    assert(m2.row_totals() =~= m1.row_totals().update(i, m1.row_total(i) + 1));
    lemma_sum_to_update(m1.row_totals(), i, m1.row_total(i) + 1, m1.dim());
}

} // verus!
