//! Fits a vector drawing onto a single page and builds the page document
//! that embeds it.
//!
//! Every length, density and factor is a fixed-point integer counted in
//! millionths, so that the page-fit rules are exact and can be proved:
//!
//! - `options` resolves a bag of options into settings, never failing;
//! - `source` parses the text of a drawing;
//! - `layout` converts units, fits a drawing to a page and chooses between
//!   the page's two orientations;
//! - `plan` goes from a drawing's size and the settings to the chosen page
//!   and the drawing's place on it;
//! - `content` lists the operations of the page's content stream;
//! - `ids` hands out object numbers and renumbers an embedded object graph;
//! - `document` merges the graph into a new document and writes the file;
//! - `raster` sizes and renders the drawing as a pixel image;
//! - `fonts` orders the list of font families.

pub mod content;
pub mod document;
pub mod error;
pub mod fixed;
pub mod fonts;
pub mod ids;
pub mod layout;
pub mod options;
pub mod plan;
pub mod raster;
pub mod source;
