//! Colour-space transforms, grayscale reduction, binarization and
//! histogram equalization on 8-bit raster images, with their contracts
//! proved by Verus.
pub mod chart;
pub mod color;
pub mod gray;
pub mod histogram;
pub mod ops;
pub mod raster;
