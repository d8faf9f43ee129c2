//! A length-tracked trit sequence parameterised by its packed encoding.

use crate::encodings::t1b1::T1B1;
use crate::encodings::t3b1::T3B1;
use crate::encodings::Encoding;
use crate::error::TrinaryError;
use crate::trit::is_trit_str;
use crate::trit::trit_vals_of;
use crate::tryte::is_tryte_str;
use crate::tryte::tryte_vals_of;
use vstd::prelude::*;

verus! {

/// A generic sequence container that owns one of the packed encodings and
/// exposes a uniform append surface for trit strings and tryte strings.
///
/// The caller must supply trit and tryte counts compatible with the inner
/// encoding's packing granularity; otherwise the delegated conversion fails
/// with `IncompatibleLength`.
pub struct Trits<T: Encoding = T1B1> {
    enc: T,
}

impl Trits<T1B1> {
    /// An empty sequence over the default T1B1 encoding.
    pub fn default() -> (s: Self)
        ensures
            s.inv(),
            s.trits() == Seq::<int>::empty(),
            s.units() == 0,
    {
        Trits { enc: T1B1::new() }
    }
}

impl<T: Encoding> Trits<T> {
    /// Whether the inner encoding is well formed; constructors establish it
    /// and every method preserves it.
    pub closed spec fn inv(&self) -> bool {
        self.enc.inv()
    }

    /// The underlying trit sequence stored.
    pub closed spec fn trits(&self) -> Seq<int> {
        self.enc.trits()
    }

    /// The element count the inner encoding reports.
    pub closed spec fn units(&self) -> nat {
        self.enc.units()
    }

    /// An empty sequence.
    pub fn new() -> (s: Self)
        ensures
            s.inv(),
            s.trits() == Seq::<int>::empty(),
            s.units() == 0,
    {
        Trits { enc: T::new() }
    }

    /// An empty sequence with space reserved for `capacity` elements.
    pub fn with_capacity(capacity: usize) -> (s: Self)
        ensures
            s.inv(),
            s.trits() == Seq::<int>::empty(),
            s.units() == 0,
    {
        Trits { enc: T::with_capacity(capacity) }
    }

    /// Parses a trit string and appends its trits. A character outside the
    /// trit alphabet is rejected with `InvalidTritChar`; a trit count that
    /// is not a multiple of the encoding's granularity is rejected with
    /// `IncompatibleLength`. A rejected call changes nothing.
    pub fn add_trits(&mut self, trits: &str) -> (r: Result<(), TrinaryError>)
        requires
            old(self).inv(),
        ensures
            final(self).inv(),
            !is_trit_str(trits@) ==> r == Err::<(), TrinaryError>(TrinaryError::InvalidTritChar)
                && *final(self) == *old(self),
            is_trit_str(trits@) && trits@.len() % T::block() != 0 ==> r == Err::<(), TrinaryError>(
                TrinaryError::IncompatibleLength,
            ) && *final(self) == *old(self),
            is_trit_str(trits@) && trits@.len() % T::block() == 0 ==> r is Ok
                && final(self).trits() == old(self).trits() + trit_vals_of(trits@),
    {
        match T1B1::from_str(trits) {
            Ok(t) => self.enc.add(t),
            Err(e) => Err(e),
        }
    }

    /// Parses a tryte string, expands it to trits through the total
    /// T3B1-to-T1B1 conversion, and appends. A character outside the tryte
    /// alphabet is rejected with `InvalidTryteChar`; a trit count that is
    /// not a multiple of the encoding's granularity is rejected with
    /// `IncompatibleLength`. A rejected call changes nothing.
    pub fn add_trytes(&mut self, trytes: &str) -> (r: Result<(), TrinaryError>)
        requires
            old(self).inv(),
        ensures
            final(self).inv(),
            !is_tryte_str(trytes@) ==> r == Err::<(), TrinaryError>(TrinaryError::InvalidTryteChar)
                && *final(self) == *old(self),
            is_tryte_str(trytes@) && (3 * trytes@.len()) % T::block() != 0 ==> r == Err::<
                (),
                TrinaryError,
            >(TrinaryError::IncompatibleLength) && *final(self) == *old(self),
            is_tryte_str(trytes@) && (3 * trytes@.len()) % T::block() == 0 ==> r is Ok
                && final(self).trits() == old(self).trits() + crate::ternary::trytes_to_trits(
                tryte_vals_of(trytes@),
            ),
    {
        match T3B1::from_str(trytes) {
            Ok(tt) => {
                let t1 = tt.to_t1b1();
                self.enc.add(t1)
            },
            Err(e) => Err(e),
        }
    }

    /// The number of elements the inner encoding stores.
    pub fn len(&self) -> (n: usize)
        ensures
            n == self.units(),
    {
        self.enc.len()
    }
}

} // verus!
