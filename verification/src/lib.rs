//! Balanced ternary sequences in several packed encodings.
//!
//! A trit is a digit from {-1, 0, +1}; three consecutive trits form a tryte
//! with a value in [-13, +13]. This crate offers atomic [`BalancedTrit`] and
//! [`BalancedTryte`] values with their textual symbols, four packed sequence
//! containers ([`T1B1`], [`T3B1`], [`T5B1`], [`T9B2`]) with total conversions
//! between them, and a generic sequence [`Trits`] parameterised by encoding.

pub mod encodings;
pub mod error;
pub mod ternary;
pub mod trit;
pub mod trits;
pub mod tryte;

pub use crate::encodings::t1b1::T1B1;
pub use crate::encodings::t3b1::T3B1;
pub use crate::encodings::t5b1::decode5;
pub use crate::encodings::t5b1::encode5;
pub use crate::encodings::t5b1::T5B1;
pub use crate::encodings::t5b1::ToT5B1;
pub use crate::encodings::t9b2::T9B2;
pub use crate::encodings::Encoding;
pub use crate::error::TrinaryError;
pub use crate::trit::BalancedTrit;
pub use crate::trits::Trits;
pub use crate::tryte::BalancedTryte;
