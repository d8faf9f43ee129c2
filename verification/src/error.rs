use vstd::prelude::*;

verus! {

/// The error kinds that constructors, parsers and conversions report.
///
/// Every fallible operation of this crate returns one of these; nothing in
/// the library panics on bad input.
#[derive(Clone, Copy, Debug, PartialEq, Eq, Structural)]
pub enum TrinaryError {
    /// A character outside `{'1', '0', '-'}`, or an integer outside
    /// {-1, 0, +1}, was offered to a trit constructor.
    InvalidTritChar,
    /// A character outside `{'9'} ∪ {'A'..'Z'}`, or an integer outside
    /// [-13, +13], was offered to a tryte constructor.
    InvalidTryteChar,
    /// A byte outside [0, 242] was presented as part of a T5B1 buffer.
    InvalidT5B1Byte,
    /// An index outside [0, 26] was presented to the 27-entry tryte
    /// decomposition table.
    InvalidTryteIndex,
    /// A conversion was invoked on an input whose length does not satisfy
    /// the packing granularity of the target encoding.
    IncompatibleLength,
}

} // verus!
