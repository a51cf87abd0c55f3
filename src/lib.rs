pub mod api;
pub mod colorspace;
pub mod raster;
pub mod saturation;
