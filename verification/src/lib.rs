//! Rectification of a photograph framed by four square fiducial markers.
//!
//! The pipeline bounds an oversized input image to a working resolution,
//! takes the set of markers that an external detector found on it, orders
//! the four markers into a quadrilateral by their printed IDs, and warps the
//! image through the exact four-point perspective transform onto a canonical
//! output frame, cropped to the requested size.

pub mod error;
pub mod file_explorer;
pub mod geometry;
pub mod markers;
pub mod pipeline;
pub mod raster;
pub mod rectifier;
pub mod resizer;
