//! Truncation of a Powers of Tau accumulator to a smaller power.
//!
//! A ceremony file is a 64-byte header followed by five sections of
//! uncompressed curve points whose lengths depend only on the power of the
//! ceremony. This crate describes that layout, recovers the power from the
//! size of a file, decides point by point what a reduction to a smaller
//! power keeps, and checks that every point of an accumulator decodes to a
//! point other than the identity.

pub mod codec;
pub mod cursor;
pub mod detect;
pub mod error;
pub mod layout;
pub mod reduce;
pub mod reducer;
pub mod validate;
