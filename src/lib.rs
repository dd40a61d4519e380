//! Conversion of compiled shader-material assets between format versions,
//! with the lightmap UV fix for the releases that need it.

pub mod archive;
pub mod version;
pub mod bytes;
pub mod material;
pub mod patch;
pub mod pipeline;
