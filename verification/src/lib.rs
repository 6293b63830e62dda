//! Verified core of a mipmap-generation pipeline for 2-D textures.
//!
//! The library builds a full mip pyramid for an uncompressed 8-bit image,
//! optionally re-encodes every level into a BCn block format, keys the
//! compressed output by a content hash for a disk cache, and deduplicates
//! concurrent generation requests per image. Resampling, block compression
//! and byte-stream compression are performed by outside crates behind
//! narrow trusted wrappers; everything around them is verified.

// The block compressor bundles a small C++ helper; this pulls the C++
// runtime onto the link line for every binary that links the library.
use link_cplusplus as _;

pub mod formats;
pub mod errors;
pub mod texture;
pub mod raster;
pub mod settings;
pub mod compress;
pub mod mips;
pub mod cache;
pub mod pipeline;
pub mod coordinator;
