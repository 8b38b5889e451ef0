//! Label arrays of a priori unknown (but supported) element kind.
//!
//! A `LabelArray` carries one array of labels together with its concrete
//! element kind. Two or three operands of one call must share a kind; the
//! per-operation dispatchers check that and instantiate the generic
//! algorithm for the matching kind.

use vstd::prelude::*;

use crate::element::Element;
use crate::element::wide_seq;

verus! {

/// The supported element kinds, in dispatch priority order: boolean first,
/// then signed integers narrow to wide, then unsigned integers narrow to
/// wide.
#[derive(Clone, Copy, Debug, PartialEq, Eq, Structural)]
pub enum Kind {
    Bool,
    I8,
    I16,
    I32,
    I64,
    U8,
    U16,
    U32,
    U64,
}

/// An ordered, fixed-length array of labels of one supported element kind.
pub enum LabelArray {
    Bool(Vec<bool>),
    I8(Vec<i8>),
    I16(Vec<i16>),
    I32(Vec<i32>),
    I64(Vec<i64>),
    U8(Vec<u8>),
    U16(Vec<u16>),
    U32(Vec<u32>),
    U64(Vec<u64>),
}

impl LabelArray {
    /// The concrete element kind of this array.
    pub open spec fn kind(self) -> Kind {
        match self {
            LabelArray::Bool(_) => Kind::Bool,
            LabelArray::I8(_) => Kind::I8,
            LabelArray::I16(_) => Kind::I16,
            LabelArray::I32(_) => Kind::I32,
            LabelArray::I64(_) => Kind::I64,
            LabelArray::U8(_) => Kind::U8,
            LabelArray::U16(_) => Kind::U16,
            LabelArray::U32(_) => Kind::U32,
            LabelArray::U64(_) => Kind::U64,
        }
    }

    /// The mathematical values of the labels, in order (booleans count as
    /// 0 and 1).
    pub open spec fn values(self) -> Seq<int> {
        match self {
            LabelArray::Bool(v) => wide_seq(v@),
            LabelArray::I8(v) => wide_seq(v@),
            LabelArray::I16(v) => wide_seq(v@),
            LabelArray::I32(v) => wide_seq(v@),
            LabelArray::I64(v) => wide_seq(v@),
            LabelArray::U8(v) => wide_seq(v@),
            LabelArray::U16(v) => wide_seq(v@),
            LabelArray::U32(v) => wide_seq(v@),
            LabelArray::U64(v) => wide_seq(v@),
        }
    }

    /// The element kind, as a value.
    pub fn element_kind(&self) -> (k: Kind)
        ensures
            k == self.kind(),
    {
        match self {
            LabelArray::Bool(_) => Kind::Bool,
            LabelArray::I8(_) => Kind::I8,
            LabelArray::I16(_) => Kind::I16,
            LabelArray::I32(_) => Kind::I32,
            LabelArray::I64(_) => Kind::I64,
            LabelArray::U8(_) => Kind::U8,
            LabelArray::U16(_) => Kind::U16,
            LabelArray::U32(_) => Kind::U32,
            LabelArray::U64(_) => Kind::U64,
        }
    }

    /// The number of labels in the array.
    pub fn len(&self) -> (n: usize)
        ensures
            n == self.values().len(),
    {
        match self {
            LabelArray::Bool(v) => v.len(),
            LabelArray::I8(v) => v.len(),
            LabelArray::I16(v) => v.len(),
            LabelArray::I32(v) => v.len(),
            LabelArray::I64(v) => v.len(),
            LabelArray::U8(v) => v.len(),
            LabelArray::U16(v) => v.len(),
            LabelArray::U32(v) => v.len(),
            LabelArray::U64(v) => v.len(),
        }
    }

    /// The mathematical values of the labels, as a vector of wide integers.
    pub fn wide_values(&self) -> (r: Vec<i128>)
        ensures
            r@.len() == self.values().len(),
            forall|i: int| 0 <= i < r@.len() ==> #[trigger] r@[i] as int == self.values()[i],
    {
        match self {
            LabelArray::Bool(v) => widen(v),
            LabelArray::I8(v) => widen(v),
            LabelArray::I16(v) => widen(v),
            LabelArray::I32(v) => widen(v),
            LabelArray::I64(v) => widen(v),
            LabelArray::U8(v) => widen(v),
            LabelArray::U16(v) => widen(v),
            LabelArray::U32(v) => widen(v),
            LabelArray::U64(v) => widen(v),
        }
    }
}

/// The wide value of each element, as a vector.
pub fn widen<T: Element>(v: &Vec<T>) -> (r: Vec<i128>)
    ensures
        r@.len() == v@.len(),
        forall|i: int| 0 <= i < r@.len() ==> #[trigger] r@[i] as int == wide_seq(v@)[i],
{
    let mut r: Vec<i128> = Vec::new();
    let mut t: usize = 0;
    while t < v.len()
        invariant
            0 <= t <= v@.len(),
            r@.len() == t,
            forall|i: int| 0 <= i < t ==> #[trigger] r@[i] as int == wide_seq(v@)[i],
        decreases v@.len() - t,
    {
        r.push(v[t].to_wide());
        t = t + 1;
    }
    r
}

/// Re-represent a boolean array as 8-bit unsigned 0/1 values (true counts
/// as 1, false as 0), keeping the mathematical values unchanged.
pub fn bools_to_u8(v: &Vec<bool>) -> (r: Vec<u8>)
    ensures
        wide_seq(r@) == wide_seq(v@),
{
    let mut r: Vec<u8> = Vec::new();
    let mut t: usize = 0;
    while t < v.len()
        invariant
            0 <= t <= v@.len(),
            r@.len() == t,
            forall|i: int| 0 <= i < t ==> #[trigger] r@[i] == (if v@[i] {
                1u8
            } else {
                0u8
            }),
        decreases v@.len() - t,
    {
        if v[t] {
            r.push(1);
        } else {
            r.push(0);
        }
        t = t + 1;
    }
    proof {
        assert(wide_seq(r@) =~= wide_seq(v@));
    }
    r
}

} // verus!
