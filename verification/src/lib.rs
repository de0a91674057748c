//! A verified image-compositing pipeline: it turns a source photograph
//! into a framed presentation image with a padded border, an optional
//! blurred backdrop, a rounded-corner mask, a caption strip with measured
//! right alignment and an optional logo, re-encoded at a configurable
//! quality. The compositing itself is specified per pixel and proved; the
//! decode, encode and resampling calls of the image crate stand behind
//! trusted contracts.

pub mod codec;
pub mod color;
pub mod compose;
pub mod errors;
pub mod layout;
pub mod processor;
pub mod raster;
