//! BOOP, a compact container for raster images.
//!
//! A file is a five-byte header (magic and version), a version-specific
//! geometry record, and the pixel bytes after a byte-delta filter and zstd
//! compression. Every function is verified against a contract stated over
//! byte sequences; the two calls into zstd and the two conversions to and
//! from `bytes::Bytes` are taken on trust.

pub mod buffer;
pub mod compression;
pub mod container;
pub mod delta;
pub mod error;
pub mod header;
pub mod image;
pub mod information;
pub mod wire;

pub use crate::error::Error;
pub use crate::header::{Channels, Flags, Header};
pub use crate::image::BoopImage;
pub use crate::information::{Information, InformationV0, InformationV1};
