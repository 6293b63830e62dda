//! Error kinds surfaced by the pipeline.

use vstd::prelude::*;

verus! {

/// Why an image was rejected outright before any processing.
#[derive(Clone, Copy, Debug, PartialEq, Eq, Structural)]
pub enum IncompatibleKind {
    /// The image is already in a block-compressed format.
    AlreadyCompressed,
    /// The image is not strictly two-dimensional.
    NotTwoDimensional,
    /// The image holds more than one layer.
    MultipleLayers,
}

/// Every failure the pipeline can report. Per-image failures are isolated:
/// an error for one image never aborts work on its siblings.
#[derive(Clone, Copy, Debug, PartialEq, Eq, Structural)]
pub enum MipError {
    /// Wrong dimensionality, layer count, or already compressed; fatal for
    /// this image only.
    IncompatibleImage(IncompatibleKind),
    /// The pixel layout has no raster adapter.
    UnsupportedPixelFormat,
    /// The pixel buffer does not match the claimed dimensions.
    ConversionFailed,
    /// A source dimension is below the block minimum, so block compression
    /// is refused; callers fall back to uncompressed output.
    CompressionTooSmall,
    /// A cache entry could not be mirrored to the cache directory. Raised
    /// by the host's disk layer, and fatal for that generation call, since
    /// it points at a broken cache configuration; cache reads that fail
    /// degrade to a miss instead.
    CacheIOError,
    /// A mip level beyond the recorded level count was requested.
    MipLevelOutOfRange,
}

impl MipError {
    /// A human-readable description of the error.
    pub fn describe(&self) -> &'static str {
        match self {
            MipError::IncompatibleImage(IncompatibleKind::AlreadyCompressed) => {
                "Compressed images not supported"
            },
            MipError::IncompatibleImage(IncompatibleKind::NotTwoDimensional) => {
                "Only two-dimensional images are supported"
            },
            MipError::IncompatibleImage(IncompatibleKind::MultipleLayers) => {
                "Only a single layer is supported"
            },
            MipError::UnsupportedPixelFormat => {
                "Conversion into a raster is not supported for this format"
            },
            MipError::ConversionFailed => "Failed to convert the pixel buffer into a raster",
            MipError::CompressionTooSmall => "Image size too small for BCn compression",
            MipError::CacheIOError => "Failed to write compressed image data to the cache",
            MipError::MipLevelOutOfRange => {
                "A mip level was requested beyond those available"
            },
        }
    }
}

} // verus!
