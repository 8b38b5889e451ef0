//! The numeric-element capability shared by every supported label kind.
//!
//! Each algorithm in this crate is written once, generically, against this
//! trait; the dispatcher is the only kind-specific code. A label's
//! mathematical value is its `wide` integer (booleans count as 0 and 1),
//! and every contract in the crate speaks of sequences of wide values.

use vstd::prelude::*;

verus! {

/// A supported label element: boolean, or a signed or unsigned integer of
/// width 8, 16, 32 or 64 bits. `wide` gives the element's mathematical
/// value, which determines equality and all arithmetic performed on it.
pub trait Element: Sized + Copy {
    /// The mathematical value of this label.
    spec fn wide(self) -> int;

    /// Every supported element's value fits the signed-64-bit lower bound
    /// and the unsigned-64-bit upper bound.
    proof fn lemma_wide_bounded(self)
        ensures
            -0x8000_0000_0000_0000int <= self.wide() <= 0xffff_ffff_ffff_ffffint,
    ;

    /// Convert to the wide accumulator type used by the reductions.
    fn to_wide(self) -> (r: i128)
        ensures
            r as int == self.wide(),
    ;

    /// Equality of labels, which coincides with equality of wide values.
    fn same(self, other: Self) -> (r: bool)
        ensures
            r == (self.wide() == other.wide()),
    ;
}

/// The wide values of a sequence of labels, in order.
pub open spec fn wide_seq<T: Element>(s: Seq<T>) -> Seq<int> {
    s.map_values(|x: T| x.wide())
}

/// All wide values of a sequence lie within the single-element bounds.
pub proof fn lemma_wide_seq_bounded<T: Element>(s: Seq<T>)
    ensures
        forall|i: int|
            0 <= i < s.len() ==> -0x8000_0000_0000_0000int <= #[trigger] wide_seq(s)[i]
                <= 0xffff_ffff_ffff_ffffint,
{
    assert forall|i: int|
        0 <= i < s.len() implies -0x8000_0000_0000_0000int <= #[trigger] wide_seq(s)[i]
        <= 0xffff_ffff_ffff_ffffint by {
        s[i].lemma_wide_bounded();
    }
}

impl Element for bool {
    open spec fn wide(self) -> int {
        if self {
            1
        } else {
            0
        }
    }

    proof fn lemma_wide_bounded(self) {
    }

    fn to_wide(self) -> (r: i128) {
        if self {
            1
        } else {
            0
        }
    }

    fn same(self, other: Self) -> (r: bool) {
        self == other
    }
}

impl Element for i8 {
    open spec fn wide(self) -> int {
        self as int
    }

    proof fn lemma_wide_bounded(self) {
    }

    fn to_wide(self) -> (r: i128) {
        self as i128
    }

    fn same(self, other: Self) -> (r: bool) {
        self == other
    }
}

impl Element for i16 {
    open spec fn wide(self) -> int {
        self as int
    }

    proof fn lemma_wide_bounded(self) {
    }

    fn to_wide(self) -> (r: i128) {
        self as i128
    }

    fn same(self, other: Self) -> (r: bool) {
        self == other
    }
}

impl Element for i32 {
    open spec fn wide(self) -> int {
        self as int
    }

    proof fn lemma_wide_bounded(self) {
    }

    fn to_wide(self) -> (r: i128) {
        self as i128
    }

    fn same(self, other: Self) -> (r: bool) {
        self == other
    }
}

impl Element for i64 {
    open spec fn wide(self) -> int {
        self as int
    }

    proof fn lemma_wide_bounded(self) {
    }

    fn to_wide(self) -> (r: i128) {
        self as i128
    }

    fn same(self, other: Self) -> (r: bool) {
        self == other
    }
}

impl Element for u8 {
    open spec fn wide(self) -> int {
        self as int
    }

    proof fn lemma_wide_bounded(self) {
    }

    fn to_wide(self) -> (r: i128) {
        self as i128
    }

    fn same(self, other: Self) -> (r: bool) {
        self == other
    }
}

impl Element for u16 {
    open spec fn wide(self) -> int {
        self as int
    }

    proof fn lemma_wide_bounded(self) {
    }

    fn to_wide(self) -> (r: i128) {
        self as i128
    }

    fn same(self, other: Self) -> (r: bool) {
        self == other
    }
}

impl Element for u32 {
    open spec fn wide(self) -> int {
        self as int
    }

    proof fn lemma_wide_bounded(self) {
    }

    fn to_wide(self) -> (r: i128) {
        self as i128
    }

    fn same(self, other: Self) -> (r: bool) {
        self == other
    }
}

impl Element for u64 {
    open spec fn wide(self) -> int {
        self as int
    }

    proof fn lemma_wide_bounded(self) {
    }

    fn to_wide(self) -> (r: i128) {
        self as i128
    }

    fn same(self, other: Self) -> (r: bool) {
        self == other
    }
}

} // verus!
