//! The arithmetic on vector values that indexes need.
//!
//! Values are opaque to the library: an implementation supplies the operations
//! on them, and contracts say which operations were applied to which values.

use vstd::prelude::*;

verus! {

/// Operations on values of type `T`, such as single-precision numbers.
pub trait Arithmetic<T> {
    /// The value 0.
    fn zero(&self) -> T;

    /// `a + b`.
    fn plus(&self, a: T, b: T) -> T;

    /// `a - b`.
    fn minus(&self, a: T, b: T) -> T;

    /// `a * b`.
    fn times(&self, a: T, b: T) -> T;

    /// `2 * a`.
    fn twice(&self, a: T) -> T;

    /// The bits of `a` as a single-precision number: sign, exponent, fraction.
    fn bits(&self, a: T) -> u32;
}

} // verus!
