//! Low-level page model for a PDF renderer: a document of pages, each page a
//! stack of layers, drawable areas on those layers, and text sections that
//! lay text out inside an area.
//!
//! The library decides; a PDF backend performs.  Every length is an integer
//! count of micrometres, so that all geometry here is exact and proved.

pub mod decimal;
pub mod error;
pub mod geometry;
pub mod render;
pub mod split;
pub mod style;
pub mod text;
