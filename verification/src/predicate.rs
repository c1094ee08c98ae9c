//! Tests on the values of a column, as filtered buckets and post-filters apply
//! them.

use vstd::prelude::*;

verus! {

/// A test on values that always answers alike for the same value.
pub trait ValueFilter<T>: Copy + Sized {
    spec fn inv(&self) -> bool;

    /// Whether the value passes.
    spec fn keeps(&self, value: T) -> bool;

    fn accept(&self, value: T) -> (kept: bool)
        requires
            self.inv(),
        ensures
            kept == self.keeps(value),
    ;
}

/// The test that every value passes.
#[derive(Clone, Copy, Debug)]
pub struct AllValues;

impl<T> ValueFilter<T> for AllValues {
    open spec fn inv(&self) -> bool {
        true
    }

    open spec fn keeps(&self, value: T) -> bool {
        true
    }

    fn accept(&self, value: T) -> (kept: bool) {
        true
    }
}

/// The test that a function of the caller makes. The function must accept
/// every value and answer alike whenever it is asked about the same value.
#[derive(Clone, Copy)]
pub struct Predicate<F> {
    pub test: F,
}

impl<T, F: Fn(T) -> bool + Copy> ValueFilter<T> for Predicate<F> {
    open spec fn inv(&self) -> bool {
        &&& forall|value: T| call_requires(self.test, (value,))
        &&& forall|value: T, x: bool, y: bool|
            call_ensures(self.test, (value,), x) && call_ensures(self.test, (value,), y) ==> x == y
    }

    open spec fn keeps(&self, value: T) -> bool {
        call_ensures(self.test, (value,), true)
    }

    fn accept(&self, value: T) -> (kept: bool) {
        (self.test)(value)
    }
}

} // verus!
