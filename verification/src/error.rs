//! Error taxonomy of the decoder: one variant per failure cause.

use vstd::prelude::*;

verus! {

/// Everything that can go wrong while decoding a container.
///
/// The first failure anywhere in the pipeline aborts the whole decode and is
/// returned to the caller untouched; there is no retry and no partial result.
#[derive(Debug, Clone)]
pub enum Error {
    /// The first two bytes do not match the fixed magic.
    InvalidMagic,
    /// The version byte is not the accepted version.
    InvalidVersion,
    /// The declared number of code sections is zero or above the format bound.
    InvalidCodeSectionCount,
    /// The types-table byte length leaves a remainder smaller than one record.
    InvalidTypeSectionSize,
    /// The decoded types table has zero rows.
    InvalidZeroSectionMetadata,
    /// Generic decode-failure channel; no validation path produces it today,
    /// it is kept for forward extension.
    ParseError(String),
    /// The byte source ran out before the requested bytes were read.
    IoError,
}

} // verus!
