//! A typed raw-image processing pipeline: Bayer color-filter-array
//! geometry, in-place crop and white-balance transforms, and a
//! demosaicing engine that reconstructs a three-channel linear-RGB
//! image from single-channel sensor data.

use vstd::prelude::*;

pub mod cfa;
pub mod debayer;
pub mod image;
pub mod profiler;
pub mod random;

verus! {

/// The failure kinds a pipeline operation can report.
#[derive(Copy, Clone, Debug, PartialEq, Eq, Structural)]
pub enum Error {
    /// A raw container was malformed or unsupported (reported by decoders).
    DecodeError,
    /// A crop rectangle does not leave a positive-sized interior.
    InvalidCropRect,
    /// The CFA reported a filter color the three-channel pipeline cannot place.
    UnsupportedFilterColor,
    /// A sample scaled against its white level left the target range.
    ConversionRangeError,
}

} // verus!
