pub mod path;
pub mod raster;
pub mod scene;
