//! The ordered distinct-value set of an array: each value once, in the
//! order of its first appearance. Used as the implicit vocabulary when
//! the caller supplies none.

use vstd::prelude::*;

use crate::array::LabelArray;
use crate::element::Element;
use crate::element::wide_seq;

verus! {

/// First-seen-order deduplication of the first `n` values of `s`.
pub open spec fn dedup_to(s: Seq<int>, n: int) -> Seq<int>
    decreases n,
{
    if n <= 0 {
        Seq::empty()
    } else {
        let d = dedup_to(s, n - 1);
        if d.contains(s[n - 1]) {
            d
        } else {
            d.push(s[n - 1])
        }
    }
}

/// First-seen-order deduplication of `s`: every value of `s` once, in
/// the order of its first appearance.
pub open spec fn dedup_of(s: Seq<int>) -> Seq<int> {
    dedup_to(s, s.len() as int)
}

/// The deduplicated prefix holds exactly the values of the prefix.
pub proof fn lemma_dedup_contains(s: Seq<int>, n: int, x: int)
    requires
        0 <= n <= s.len(),
    ensures
        dedup_to(s, n).contains(x) <==> (exists|k: int| 0 <= k < n && s[k] == x),
    decreases n,
{
    if n > 0 {
        lemma_dedup_contains(s, n - 1, x);
        let d = dedup_to(s, n - 1);
        if d.contains(s[n - 1]) {
        } else {
            assert(dedup_to(s, n) == d.push(s[n - 1]));
            if x == s[n - 1] {
                assert(dedup_to(s, n)[d.len() as int] == x);
                assert(dedup_to(s, n).contains(x));
            } else {
                assert(dedup_to(s, n).contains(x) <==> d.contains(x)) by {
                    if dedup_to(s, n).contains(x) {
                        let k = choose|k: int| 0 <= k < dedup_to(s, n).len() && dedup_to(s, n)[k] == x;
                        assert(k < d.len());
                        assert(d[k] == x);
                    }
                    if d.contains(x) {
                        let k = choose|k: int| 0 <= k < d.len() && d[k] == x;
                        assert(dedup_to(s, n)[k] == x);
                    }
                }
            }
        }
    }
}

/// A deduplicated prefix holds each value at most once.
pub proof fn lemma_dedup_distinct(s: Seq<int>, n: int)
    requires
        0 <= n <= s.len(),
    ensures
        forall|k1: int, k2: int|
            0 <= k1 < k2 < dedup_to(s, n).len() ==> dedup_to(s, n)[k1] != dedup_to(s, n)[k2],
    decreases n,
{
    if n > 0 {
        lemma_dedup_distinct(s, n - 1);
        let d = dedup_to(s, n - 1);
        if !d.contains(s[n - 1]) {
            assert forall|k1: int, k2: int|
                0 <= k1 < k2 < dedup_to(s, n).len() implies dedup_to(s, n)[k1] != dedup_to(
                s,
                n,
            )[k2] by {
                if k2 == d.len() {
                    assert(dedup_to(s, n)[k1] == d[k1]);
                    if d[k1] == s[n - 1] {
                        assert(d.contains(s[n - 1]));
                        assert(false);
                    }
                }
            }
        }
    }
}

/// Whether some element of `v` has wide value equal to `x`'s, by linear
/// scan.
fn contains_elem<T: Element>(v: &Vec<T>, x: T) -> (r: bool)
    ensures
        r == wide_seq(v@).contains(x.wide()),
{
    let mut t: usize = 0;
    while t < v.len()
        invariant
            0 <= t <= v@.len(),
            forall|k: int| 0 <= k < t ==> #[trigger] wide_seq(v@)[k] != x.wide(),
        decreases v@.len() - t,
    {
        if v[t].same(x) {
            proof {
                assert(wide_seq(v@)[t as int] == x.wide());
            }
            return true;
        }
        proof {
            assert(wide_seq(v@)[t as int] == v@[t as int].wide());
        }
        t = t + 1;
    }
    false
}

/// First-seen-order distinct values of one resolved element kind.
fn unique_core<T: Element>(arr: &Vec<T>) -> (r: Vec<T>)
    ensures
        wide_seq(r@) == dedup_of(wide_seq(arr@)),
{
    let ghost s = wide_seq(arr@);
    let mut r: Vec<T> = Vec::new();
    let mut t: usize = 0;
    while t < arr.len()
        invariant
            0 <= t <= arr@.len(),
            s == wide_seq(arr@),
            wide_seq(r@) == dedup_to(s, t as int),
        decreases arr@.len() - t,
    {
        let x = arr[t];
        proof {
            assert(s[t as int] == arr@[t as int].wide());
        }
        let seen = contains_elem(&r, x);
        if !seen {
            r.push(x);
            proof {
                assert(wide_seq(r@) =~= dedup_to(s, t as int).push(s[t as int]));
            }
        }
        t = t + 1;
    }
    r
}

/// The ordered set of first-seen-order-unique values of the array: each
/// distinct value once, in the order of its first appearance, as an
/// array of the same element kind.
pub fn unique(arr: &LabelArray) -> (r: LabelArray)
    ensures
        r.kind() == arr.kind(),
        r.values() == dedup_of(arr.values()),
{
    match arr {
        LabelArray::Bool(v) => LabelArray::Bool(unique_core(v)),
        LabelArray::I8(v) => LabelArray::I8(unique_core(v)),
        LabelArray::I16(v) => LabelArray::I16(unique_core(v)),
        LabelArray::I32(v) => LabelArray::I32(unique_core(v)),
        LabelArray::I64(v) => LabelArray::I64(unique_core(v)),
        LabelArray::U8(v) => LabelArray::U8(unique_core(v)),
        LabelArray::U16(v) => LabelArray::U16(unique_core(v)),
        LabelArray::U32(v) => LabelArray::U32(unique_core(v)),
        LabelArray::U64(v) => LabelArray::U64(unique_core(v)),
    }
}

} // verus!
