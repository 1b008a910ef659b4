//! Coordinates reach the board as signed or unsigned integers: neighbor
//! positions are computed with offsets such as `x - 1`, which go negative
//! at the board's edges. `Indexer` gives every accepted coordinate type a
//! mathematical value, a sign test, and a checked conversion to `usize`.

use vstd::prelude::*;

verus! {

/// A coordinate type the board accepts: signed or unsigned, never wider
/// than the board's own index type.
pub trait Indexer: Sized + Copy {
    /// The mathematical value of this coordinate.
    spec fn value(self) -> int;

    /// No accepted coordinate type reaches above `usize::MAX`.
    proof fn lemma_value_fits(self)
        ensures
            self.value() <= usize::MAX as int,
    ;

    /// Whether this coordinate lies below zero.
    fn is_negative(self) -> (r: bool)
        ensures
            r <==> self.value() < 0,
    ;

    /// This coordinate as a board index; only for non-negative values.
    fn as_usize(self) -> (r: usize)
        requires
            0 <= self.value(),
        ensures
            r == self.value(),
    ;
}

impl Indexer for usize {
    open spec fn value(self) -> int {
        self as int
    }

    proof fn lemma_value_fits(self) {
    }

    fn is_negative(self) -> (r: bool) {
        false
    }

    fn as_usize(self) -> (r: usize) {
        self
    }
}

impl Indexer for isize {
    open spec fn value(self) -> int {
        self as int
    }

    proof fn lemma_value_fits(self) {
    }

    fn is_negative(self) -> (r: bool) {
        self < 0
    }

    fn as_usize(self) -> (r: usize) {
        self as usize
    }
}

impl Indexer for i32 {
    open spec fn value(self) -> int {
        self as int
    }

    proof fn lemma_value_fits(self) {
    }

    fn is_negative(self) -> (r: bool) {
        self < 0
    }

    fn as_usize(self) -> (r: usize) {
        self as usize
    }
}

} // verus!
