//! Deterministic pattern images: request descriptors, raster sizing and the
//! brightness normalizer that keeps served bitmaps from being too dark.
pub mod error;
pub mod luminance;
pub mod outside;
pub mod pattern;
pub mod raster;
