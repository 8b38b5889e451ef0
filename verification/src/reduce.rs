//! Reduction utilities: elementwise sum and elementwise-product sum over a
//! generic label kind, accumulated in 128 bits, together with the prefix-sum
//! specifications and lemmas that the rest of the crate builds on.

use vstd::prelude::*;

use crate::MAX_LEN;
use crate::element::Element;
use crate::element::lemma_wide_seq_bounded;
use crate::element::wide_seq;

verus! {

/// Sum of the first `n` values of `s`.
pub open spec fn sum_to(s: Seq<int>, n: int) -> int
    decreases n,
{
    if n <= 0 {
        0
    } else {
        sum_to(s, n - 1) + s[n - 1]
    }
}

/// Sum of all values of `s`.
pub open spec fn sum_of(s: Seq<int>) -> int {
    sum_to(s, s.len() as int)
}

/// Sum of the pairwise products of the first `n` values of `a` and `b`.
pub open spec fn dot_to(a: Seq<int>, b: Seq<int>, n: int) -> int
    decreases n,
{
    if n <= 0 {
        0
    } else {
        dot_to(a, b, n - 1) + a[n - 1] * b[n - 1]
    }
}

/// Sum of the pairwise products of `a` and `b`, over the common prefix
/// when the lengths differ.
pub open spec fn dot_of(a: Seq<int>, b: Seq<int>) -> int {
    let n = if a.len() <= b.len() {
        a.len() as int
    } else {
        b.len() as int
    };
    dot_to(a, b, n)
}

/// Every value of `s` is 0 or 1.
pub open spec fn is_binary(s: Seq<int>) -> bool {
    forall|i: int| 0 <= i < s.len() ==> #[trigger] s[i] == 0 || s[i] == 1
}

/// How many of the first `n` positions hold 1 in both `a` and `p`.
pub open spec fn and_count_to(a: Seq<int>, p: Seq<int>, n: int) -> int
    decreases n,
{
    if n <= 0 {
        0
    } else {
        and_count_to(a, p, n - 1) + if a[n - 1] == 1 && p[n - 1] == 1 {
            1int
        } else {
            0int
        }
    }
}

/// How many positions hold 1 in both of the equal-length sequences `a` and `p`.
pub open spec fn and_count(a: Seq<int>, p: Seq<int>) -> int {
    and_count_to(a, p, a.len() as int)
}

/// How many of the first `n` values of `s` equal 1.
pub open spec fn ones_count_to(s: Seq<int>, n: int) -> int
    decreases n,
{
    if n <= 0 {
        0
    } else {
        ones_count_to(s, n - 1) + if s[n - 1] == 1 {
            1int
        } else {
            0int
        }
    }
}

/// How many values of `s` equal 1.
pub open spec fn ones_count(s: Seq<int>) -> int {
    ones_count_to(s, s.len() as int)
}

/// A prefix sum of non-negative values is non-negative.
pub proof fn lemma_sum_to_nonneg(s: Seq<int>, n: int)
    requires
        forall|i: int| 0 <= i < n ==> #[trigger] s[i] >= 0,
    ensures
        sum_to(s, n) >= 0,
    decreases n,
{
    if n > 0 {
        lemma_sum_to_nonneg(s, n - 1);
    }
}

/// Extending a prefix of non-negative values cannot shrink its sum.
pub proof fn lemma_sum_to_monotone(s: Seq<int>, m: int, n: int)
    requires
        m <= n,
        forall|i: int| m <= i < n ==> #[trigger] s[i] >= 0,
    ensures
        sum_to(s, m) <= sum_to(s, n),
    decreases n - m,
{
    if n > m {
        lemma_sum_to_monotone(s, m, n - 1);
    }
}

/// One non-negative value is at most the sum of a prefix that covers it.
pub proof fn lemma_element_le_sum_to(s: Seq<int>, i: int, n: int)
    requires
        0 <= i < n,
        forall|j: int| 0 <= j < n ==> #[trigger] s[j] >= 0,
    ensures
        s[i] <= sum_to(s, n),
{
    lemma_sum_to_nonneg(s, i);
    lemma_sum_to_monotone(s, i + 1, n);
}

/// Updating one value moves a prefix sum by exactly the difference, and
/// leaves it alone when the position lies beyond the prefix.
pub proof fn lemma_sum_to_update(s: Seq<int>, i: int, v: int, n: int)
    requires
        0 <= i < s.len(),
        n <= s.len(),
    ensures
        sum_to(s.update(i, v), n) == sum_to(s, n) + if i < n {
            v - s[i]
        } else {
            0int
        },
    decreases n,
{
    if n > 0 {
        lemma_sum_to_update(s, i, v, n - 1);
    }
}

/// On 0/1 sequences the product sum counts the positions where both hold 1.
pub proof fn lemma_dot_counts_conjunction(a: Seq<int>, p: Seq<int>, n: int)
    requires
        is_binary(a),
        is_binary(p),
        n <= a.len(),
        n <= p.len(),
    ensures
        dot_to(a, p, n) == and_count_to(a, p, n),
    decreases n,
{
    if n > 0 {
        lemma_dot_counts_conjunction(a, p, n - 1);
    }
}

/// On a 0/1 sequence the plain sum counts the positions that hold 1.
pub proof fn lemma_sum_counts_ones(s: Seq<int>, n: int)
    requires
        is_binary(s),
        n <= s.len(),
    ensures
        sum_to(s, n) == ones_count_to(s, n),
    decreases n,
{
    if n > 0 {
        lemma_sum_counts_ones(s, n - 1);
    }
}

/// Elementwise sum of a label array in a 128-bit accumulator. The values
/// are widened before combination, so no element width can overflow it.
pub fn sum<T: Element>(arr: &Vec<T>) -> (total: i128)
    requires
        arr@.len() <= MAX_LEN,
    ensures
        total as int == sum_of(wide_seq(arr@)),
{
    let ghost s = wide_seq(arr@);
    let mut total: i128 = 0;
    let mut t: usize = 0;
    while t < arr.len()
        invariant
            0 <= t <= arr@.len() <= MAX_LEN,
            s == wide_seq(arr@),
            total as int == sum_to(s, t as int),
            -(t as int) * 0x8000_0000_0000_0000int <= total as int <= (t as int)
                * 0xffff_ffff_ffff_ffffint,
        decreases arr@.len() - t,
    {
        let x = arr[t].to_wide();
        proof {
            lemma_wide_seq_bounded(arr@);
            assert(s[t as int] == arr@[t as int].wide());
        }
        total = total + x;
        t = t + 1;
    }
    total
}

/// Elementwise-product sum of two equal-length label arrays. Treating the
/// product as a logical AND is sound only for 0/1 values, so the contract
/// admits exactly those.
pub fn dot_sum<T: Element>(a: &Vec<T>, b: &Vec<T>) -> (total: i128)
    requires
        a@.len() == b@.len(),
        a@.len() <= MAX_LEN,
        is_binary(wide_seq(a@)),
        is_binary(wide_seq(b@)),
    ensures
        total as int == dot_of(wide_seq(a@), wide_seq(b@)),
{
    let ghost sa = wide_seq(a@);
    let ghost sb = wide_seq(b@);
    let mut total: i128 = 0;
    let mut t: usize = 0;
    while t < a.len()
        invariant
            0 <= t <= a@.len() <= MAX_LEN,
            a@.len() == b@.len(),
            sa == wide_seq(a@),
            sb == wide_seq(b@),
            is_binary(sa),
            is_binary(sb),
            total as int == dot_to(sa, sb, t as int),
            0 <= total as int <= t as int,
        decreases a@.len() - t,
    {
        let x = a[t].to_wide();
        let y = b[t].to_wide();
        proof {
            assert(sa[t as int] == a@[t as int].wide());
            assert(sb[t as int] == b@[t as int].wide());
            assert(sa[t as int] * sb[t as int] == if sa[t as int] == 1 && sb[t as int] == 1 {
                1int
            } else {
                0int
            });
        }
        total = total + x * y;
        t = t + 1;
    }
    total
}

/// Whether every value of the array is 0 or 1 (a valid binary fast-path
/// operand).
pub fn check_binary<T: Element>(arr: &Vec<T>) -> (r: bool)
    ensures
        r == is_binary(wide_seq(arr@)),
{
    let mut t: usize = 0;
    while t < arr.len()
        invariant
            0 <= t <= arr@.len(),
            forall|i: int|
                0 <= i < t ==> #[trigger] wide_seq(arr@)[i] == 0 || wide_seq(arr@)[i] == 1,
        decreases arr@.len() - t,
    {
        let x = arr[t].to_wide();
        if !(x == 0 || x == 1) {
            proof {
                assert(wide_seq(arr@)[t as int] == arr@[t as int].wide());
            }
            return false;
        }
        t = t + 1;
    }
    true
}

} // verus!
