//! Reading ESRI ASCII raster grids.
//!
//! The library holds the logic of a lazily indexed grid reader: it parses and
//! validates the header, maps between world coordinates and cell indices,
//! decides what has to be read from the byte source to answer a lookup, keeps
//! the line-offset and row caches, and drives a row-major cursor over all
//! cells. It never touches the byte source itself: the caller reads lines and
//! hands them in as bytes.
//!
//! Row 0 is the first data line of the file, which is the top of the raster.
pub mod ascii_file;
pub mod error;
pub mod header;
pub mod numeric;
pub mod text;

pub use crate::error::Error;
