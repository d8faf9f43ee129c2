//! The four packed sequence encodings and the capability set they share.

pub mod t1b1;
pub mod t3b1;
pub mod t5b1;
pub mod t9b2;

use crate::error::TrinaryError;
use vstd::prelude::*;

verus! {

/// The capability set shared by the four packed encodings: construct
/// empty, construct with reserved capacity, append the trits of a T1B1,
/// and report the element count.
pub trait Encoding: Sized {
    /// Whether the container is well formed. Constructors establish it and
    /// every method preserves it.
    spec fn inv(&self) -> bool;

    /// The underlying trit sequence the container stores.
    spec fn trits(&self) -> Seq<int>;

    /// The element count that `len` reports.
    spec fn units(&self) -> nat;

    /// The packing granularity: an appended trit count must be a multiple
    /// of this.
    spec fn block() -> nat;

    /// An empty container.
    fn new() -> (s: Self)
        ensures
            s.inv(),
            s.trits() == Seq::<int>::empty(),
            s.units() == 0,
    ;

    /// An empty container with space reserved for `capacity` elements.
    fn with_capacity(capacity: usize) -> (s: Self)
        ensures
            s.inv(),
            s.trits() == Seq::<int>::empty(),
            s.units() == 0,
    ;

    /// Appends the trits of `trits` to the container. A trit count that is
    /// not a multiple of the encoding's packing granularity is rejected
    /// with `IncompatibleLength` and leaves the container unchanged.
    fn add(&mut self, trits: t1b1::T1B1) -> (r: Result<(), TrinaryError>)
        requires
            old(self).inv(),
        ensures
            final(self).inv(),
            trits@.len() % Self::block() == 0 ==> r is Ok && final(self).trits() == old(
                self,
            ).trits() + trits@,
            trits@.len() % Self::block() != 0 ==> r == Err::<(), TrinaryError>(
                TrinaryError::IncompatibleLength,
            ) && *final(self) == *old(self),
    ;

    /// The number of elements stored.
    fn len(&self) -> (n: usize)
        ensures
            n == self.units(),
    ;
}

} // verus!
