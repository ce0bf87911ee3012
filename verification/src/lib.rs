//! Geometry and tiling for indoor floor plans drawn as SVG.
//!
//! A drawing is read into a tree of elements whose bounding boxes are known in
//! the coordinates of the whole drawing. The tree answers which elements
//! overlap a box, and a pyramid of square tiles is cut from it. Beside that
//! stands the map of a building, whose rooms get their outlines from the
//! drawings of its floors.
//!
//! All of it computes in a number type of the caller's choice, see
//! [`scalar::Scalar`]; what holds only of exact arithmetic is proved for
//! whole numbers in [`whole`] and [`polygon`].
pub mod attributes;
pub mod bounding_box;
pub mod decimal;
pub mod map_data;
pub mod polygon;
pub mod scalar;
pub mod svg_parser;
pub mod svg_path_parser;
pub mod svg_room;
pub mod text;
pub mod tile;
pub mod transform;
pub mod util;
pub mod whole;
