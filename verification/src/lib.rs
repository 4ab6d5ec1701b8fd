//! Image differencing and cropping: finds where the images of a batch
//! depart from a shared background, and cuts each image down to that
//! difference.
//!
//! A batch is a list of rasters of one size. The first is the background;
//! the others are compared with it pixel by pixel (`pixel`, `scan`). The
//! comparison finds the smallest rectangle around all differences (`range`)
//! and, for an exact crop, the differing coordinates of each image. From
//! these `crop` makes the output of each image and the name of the file it
//! belongs in (`naming`), and `encode` turns an output into a PNG stream.
//! Reading the images and writing the files is left to the caller.

pub mod config;
pub mod crop;
pub mod encode;
pub mod input;
pub mod naming;
pub mod pixel;
pub mod range;
pub mod raster;
pub mod scan;

pub use crate::config::{Config, CropType, FileName, NameType, SelectorType};
pub use crate::crop::{apply, crop, scan, Cropped, OutputFile, ScanResult};
pub use crate::encode::encode;
pub use crate::naming::{is_illegal, CropError, SourceName};
pub use crate::pixel::{difference, Leniency, Rgba};
pub use crate::range::{Pos2, RectangleRange};
pub use crate::raster::Raster;
