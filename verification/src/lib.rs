//! Styling and tessellation pipeline for flat 2D geometry.
//!
//! Points, polylines and polygons given in application space are mapped into
//! normalized drawing space, turned into vector paths, and, once an outside
//! tessellator has triangulated those paths, gathered into one vertex array
//! and one index array ready for upload.
//!
//! All arithmetic is exact. Application space uses whatever integer unit the
//! caller picks; a drawing-space number is a ratio of two integers, so the
//! transform loses nothing. Vertex positions and colours are carried as
//! 32-bit words and never interpreted here.

pub mod buffers;
pub mod geometry;
pub mod path;
pub mod pipeline;
pub mod transform;
pub mod upload;
