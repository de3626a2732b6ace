//! The numeric-stepping abstraction: a counter that can be zero-initialized,
//! stepped up or down by one, and stepped up by an arbitrary non-negative
//! amount, provided once per supported integer width.

use vstd::prelude::*;

verus! {

/// A numeric counter type. `value` is the mathematical value of a counter,
/// `from_int` the counter holding a given mathematical value, and
/// `min_value`/`max_value` the bounds of the representable range.
///
/// Stepping past the representable range is not part of the contract: each
/// operation requires that its result stays representable, so the adapter
/// built on top never overflows a counter.
pub trait Counter: Sized + Copy {
    /// The mathematical value this counter holds.
    spec fn value(self) -> int;

    /// The counter holding the mathematical value `i` (meaningful for
    /// `min_value() <= i <= max_value()`).
    spec fn from_int(i: int) -> Self;

    /// The smallest representable counter value.
    spec fn min_value() -> int;

    /// The largest representable counter value.
    spec fn max_value() -> int;

    /// Every counter's value lies within the representable range.
    proof fn lemma_in_range(self)
        ensures
            Self::min_value() <= self.value() <= Self::max_value(),
    ;

    /// A counter is determined by its value.
    proof fn lemma_from_value(self)
        ensures
            Self::from_int(self.value()) == self,
    ;

    /// Within the representable range, `from_int` holds the asked-for value.
    proof fn lemma_value_of_from(i: int)
        requires
            Self::min_value() <= i <= Self::max_value(),
        ensures
            Self::from_int(i).value() == i,
    ;

    /// The zero-equivalent value of the type.
    fn default() -> (r: Self)
        ensures
            r.value() == 0,
    ;

    /// Add one, in place.
    fn inc(&mut self)
        requires
            old(self).value() + 1 <= Self::max_value(),
        ensures
            final(self).value() == old(self).value() + 1,
    ;

    /// Subtract one, in place.
    fn dec(&mut self)
        requires
            Self::min_value() <= old(self).value() - 1,
        ensures
            final(self).value() == old(self).value() - 1,
    ;

    /// Add a non-negative amount, in place; equivalent to calling `inc`
    /// exactly `n` times.
    fn inc_n(&mut self, n: usize)
        requires
            old(self).value() + n <= Self::max_value(),
        ensures
            final(self).value() == old(self).value() + n,
    ;
}

impl Counter for u8 {
    open spec fn value(self) -> int {
        self as int
    }

    open spec fn from_int(i: int) -> Self {
        i as u8
    }

    open spec fn min_value() -> int {
        u8::MIN as int
    }

    open spec fn max_value() -> int {
        u8::MAX as int
    }

    proof fn lemma_in_range(self) {
    }

    proof fn lemma_from_value(self) {
    }

    proof fn lemma_value_of_from(i: int) {
    }

    fn default() -> (r: Self) {
        0
    }

    fn inc(&mut self) {
        *self = *self + 1;
    }

    fn dec(&mut self) {
        *self = *self - 1;
    }

    fn inc_n(&mut self, n: usize) {
        *self = *self + (n as u8);
    }
}

impl Counter for i16 {
    open spec fn value(self) -> int {
        self as int
    }

    open spec fn from_int(i: int) -> Self {
        i as i16
    }

    open spec fn min_value() -> int {
        i16::MIN as int
    }

    open spec fn max_value() -> int {
        i16::MAX as int
    }

    proof fn lemma_in_range(self) {
    }

    proof fn lemma_from_value(self) {
    }

    proof fn lemma_value_of_from(i: int) {
    }

    fn default() -> (r: Self) {
        0
    }

    fn inc(&mut self) {
        *self = *self + 1;
    }

    fn dec(&mut self) {
        *self = *self - 1;
    }

    fn inc_n(&mut self, n: usize) {
        *self = ((*self as i32) + (n as i32)) as i16;
    }
}


impl Counter for i8 {
    open spec fn value(self) -> int {
        self as int
    }

    open spec fn from_int(i: int) -> Self {
        i as i8
    }

    open spec fn min_value() -> int {
        i8::MIN as int
    }

    open spec fn max_value() -> int {
        i8::MAX as int
    }

    proof fn lemma_in_range(self) {
    }

    proof fn lemma_from_value(self) {
    }

    proof fn lemma_value_of_from(i: int) {
    }

    fn default() -> (r: Self) {
        0
    }

    fn inc(&mut self) {
        *self = *self + 1;
    }

    fn dec(&mut self) {
        *self = *self - 1;
    }

    fn inc_n(&mut self, n: usize) {
        *self = ((*self as i16) + (n as i16)) as i8;
    }
}

impl Counter for i32 {
    open spec fn value(self) -> int {
        self as int
    }

    open spec fn from_int(i: int) -> Self {
        i as i32
    }

    open spec fn min_value() -> int {
        i32::MIN as int
    }

    open spec fn max_value() -> int {
        i32::MAX as int
    }

    proof fn lemma_in_range(self) {
    }

    proof fn lemma_from_value(self) {
    }

    proof fn lemma_value_of_from(i: int) {
    }

    fn default() -> (r: Self) {
        0
    }

    fn inc(&mut self) {
        *self = *self + 1;
    }

    fn dec(&mut self) {
        *self = *self - 1;
    }

    fn inc_n(&mut self, n: usize) {
        *self = ((*self as i64) + (n as i64)) as i32;
    }
}

impl Counter for i64 {
    open spec fn value(self) -> int {
        self as int
    }

    open spec fn from_int(i: int) -> Self {
        i as i64
    }

    open spec fn min_value() -> int {
        i64::MIN as int
    }

    open spec fn max_value() -> int {
        i64::MAX as int
    }

    proof fn lemma_in_range(self) {
    }

    proof fn lemma_from_value(self) {
    }

    proof fn lemma_value_of_from(i: int) {
    }

    fn default() -> (r: Self) {
        0
    }

    fn inc(&mut self) {
        *self = *self + 1;
    }

    fn dec(&mut self) {
        *self = *self - 1;
    }

    fn inc_n(&mut self, n: usize) {
        *self = ((*self as i128) + (n as i128)) as i64;
    }
}

impl Counter for i128 {
    open spec fn value(self) -> int {
        self as int
    }

    open spec fn from_int(i: int) -> Self {
        i as i128
    }

    open spec fn min_value() -> int {
        i128::MIN as int
    }

    open spec fn max_value() -> int {
        i128::MAX as int
    }

    proof fn lemma_in_range(self) {
    }

    proof fn lemma_from_value(self) {
    }

    proof fn lemma_value_of_from(i: int) {
    }

    fn default() -> (r: Self) {
        0
    }

    fn inc(&mut self) {
        *self = *self + 1;
    }

    fn dec(&mut self) {
        *self = *self - 1;
    }

    fn inc_n(&mut self, n: usize) {
        *self = *self + (n as i128);
    }
}

impl Counter for isize {
    open spec fn value(self) -> int {
        self as int
    }

    open spec fn from_int(i: int) -> Self {
        i as isize
    }

    open spec fn min_value() -> int {
        isize::MIN as int
    }

    open spec fn max_value() -> int {
        isize::MAX as int
    }

    proof fn lemma_in_range(self) {
    }

    proof fn lemma_from_value(self) {
    }

    proof fn lemma_value_of_from(i: int) {
    }

    fn default() -> (r: Self) {
        0
    }

    fn inc(&mut self) {
        *self = *self + 1;
    }

    fn dec(&mut self) {
        *self = *self - 1;
    }

    fn inc_n(&mut self, n: usize) {
        *self = ((*self as i128) + (n as i128)) as isize;
    }
}

impl Counter for u16 {
    open spec fn value(self) -> int {
        self as int
    }

    open spec fn from_int(i: int) -> Self {
        i as u16
    }

    open spec fn min_value() -> int {
        u16::MIN as int
    }

    open spec fn max_value() -> int {
        u16::MAX as int
    }

    proof fn lemma_in_range(self) {
    }

    proof fn lemma_from_value(self) {
    }

    proof fn lemma_value_of_from(i: int) {
    }

    fn default() -> (r: Self) {
        0
    }

    fn inc(&mut self) {
        *self = *self + 1;
    }

    fn dec(&mut self) {
        *self = *self - 1;
    }

    fn inc_n(&mut self, n: usize) {
        *self = *self + (n as u16);
    }
}

impl Counter for u32 {
    open spec fn value(self) -> int {
        self as int
    }

    open spec fn from_int(i: int) -> Self {
        i as u32
    }

    open spec fn min_value() -> int {
        u32::MIN as int
    }

    open spec fn max_value() -> int {
        u32::MAX as int
    }

    proof fn lemma_in_range(self) {
    }

    proof fn lemma_from_value(self) {
    }

    proof fn lemma_value_of_from(i: int) {
    }

    fn default() -> (r: Self) {
        0
    }

    fn inc(&mut self) {
        *self = *self + 1;
    }

    fn dec(&mut self) {
        *self = *self - 1;
    }

    fn inc_n(&mut self, n: usize) {
        *self = *self + (n as u32);
    }
}

impl Counter for u64 {
    open spec fn value(self) -> int {
        self as int
    }

    open spec fn from_int(i: int) -> Self {
        i as u64
    }

    open spec fn min_value() -> int {
        u64::MIN as int
    }

    open spec fn max_value() -> int {
        u64::MAX as int
    }

    proof fn lemma_in_range(self) {
    }

    proof fn lemma_from_value(self) {
    }

    proof fn lemma_value_of_from(i: int) {
    }

    fn default() -> (r: Self) {
        0
    }

    fn inc(&mut self) {
        *self = *self + 1;
    }

    fn dec(&mut self) {
        *self = *self - 1;
    }

    fn inc_n(&mut self, n: usize) {
        *self = *self + (n as u64);
    }
}

impl Counter for u128 {
    open spec fn value(self) -> int {
        self as int
    }

    open spec fn from_int(i: int) -> Self {
        i as u128
    }

    open spec fn min_value() -> int {
        u128::MIN as int
    }

    open spec fn max_value() -> int {
        u128::MAX as int
    }

    proof fn lemma_in_range(self) {
    }

    proof fn lemma_from_value(self) {
    }

    proof fn lemma_value_of_from(i: int) {
    }

    fn default() -> (r: Self) {
        0
    }

    fn inc(&mut self) {
        *self = *self + 1;
    }

    fn dec(&mut self) {
        *self = *self - 1;
    }

    fn inc_n(&mut self, n: usize) {
        *self = *self + (n as u128);
    }
}

impl Counter for usize {
    open spec fn value(self) -> int {
        self as int
    }

    open spec fn from_int(i: int) -> Self {
        i as usize
    }

    open spec fn min_value() -> int {
        usize::MIN as int
    }

    open spec fn max_value() -> int {
        usize::MAX as int
    }

    proof fn lemma_in_range(self) {
    }

    proof fn lemma_from_value(self) {
    }

    proof fn lemma_value_of_from(i: int) {
    }

    fn default() -> (r: Self) {
        0
    }

    fn inc(&mut self) {
        *self = *self + 1;
    }

    fn dec(&mut self) {
        *self = *self - 1;
    }

    fn inc_n(&mut self, n: usize) {
        *self = *self + (n as usize);
    }
}

} // verus!
