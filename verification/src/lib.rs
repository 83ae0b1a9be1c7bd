//! Geometric kernel of a 2D pattern-design tool.
//!
//! Piece outlines are built from mixed curve primitives (lines, quadratic and
//! cubic beziers, circular arcs) and every downstream artifact is derived from
//! them: a renderable triangle mesh, a scalable vector document, a CAD
//! drawing-exchange file, and a paginated print layout.
//!
//! All coordinates are fixed-point: an `i64` counts thousandths of a
//! millimeter, and an `i64` angle counts thousandths of a radian. Every
//! computation over them is deterministic integer arithmetic.

pub mod bbox;
pub mod dxf;
pub mod error;
pub mod flatten;
pub mod fmt;
pub mod history;
pub mod intersection;
pub mod layout;
pub mod mesh;
pub mod num;
pub mod pattern;
pub mod pdf;
pub mod project;
pub mod sample;
pub mod store;
pub mod svg;
pub mod tess;
pub mod transform;
pub mod trig;
pub mod validation;
pub mod vec2;
