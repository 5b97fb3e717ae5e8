//! A tiny CPU renderer's verified core: a row-major RGBA8 pixel buffer with
//! bounds-checked writes and an exact byte-level model of every operation.

pub mod raster;
